//! One region: its metadata, bytes, counters and allocator, and the operations
//! on it. The directories look regions up and leave the rest to this module.
use vstd::prelude::*;
use crate::allocator::{AllocatorKind, RegionAllocator};
use crate::blocks::{lemma_gathered_len, lemma_live_blocks_ascend, lemma_packed_blocks, lemma_total_prefix_monotonic, lemma_total_prefix_step, live_blocks, packed_blocks, packed_bytes, packed_mapping, packed_start, total_size};
use crate::error::TvmError;
use crate::handle::Handle;
use crate::memory_region::{copy_into, overwritten, zeroed, MemoryRegion};
use crate::metrics::{zero_metrics, RegionMetrics};
use crate::region::{advance_generation, next_generation, PlacementPolicy, Region, RegionKind, Residency};
use crate::remap::{HandleRemap, OffsetMap};

verus! {

/// A region and everything that belongs to it. `memory` is `None` while the
/// bytes live elsewhere.
pub struct RegionEntry<M> {
    pub meta: Region,
    pub memory: Option<M>,
    pub metrics: RegionMetrics,
    pub allocator: RegionAllocator,
}

/// The metadata of a region that has just been created.
pub open spec fn fresh_meta(
    id: u16,
    kind: RegionKind,
    capacity: u32,
    policy: PlacementPolicy,
) -> Region {
    Region {
        id,
        generation: 1,
        capacity,
        used: 0,
        kind,
        residency: policy.initial_residency,
        pinned: false,
        pinnable: policy.pinnable,
        spillable: policy.spillable,
    }
}

/// A buffer length as it counts against a region: its low thirty-two bits.
pub open spec fn counted_len(len: nat) -> u32 {
    (len % 0x1_0000_0000) as u32
}

/// The low thirty-two bits of a buffer length.
pub fn count_len(len: usize) -> (r: u32)
    ensures
        r == counted_len(len as nat),
{
    (len as u64 % 0x1_0000_0000) as u32
}

/// `len` bytes from `offset` on stay inside `capacity`.
pub open spec fn fits(offset: u32, len: u32, capacity: u32) -> bool {
    offset + len <= capacity
}

/// Whether `len` bytes from `offset` on stay inside `capacity`.
pub fn check_in_bounds(capacity: u32, offset: u32, len: u32) -> (r: Result<(), TvmError>)
    ensures
        r == (if fits(offset, len, capacity) {
            Ok::<(), TvmError>(())
        } else {
            Err(TvmError::OutOfBounds)
        }),
{
    match offset.checked_add(len) {
        Some(end) => {
            if end > capacity {
                Err(TvmError::OutOfBounds)
            } else {
                Ok(())
            }
        },
        None => Err(TvmError::OutOfBounds),
    }
}

/// What spilling a region comes to before the store is asked.
pub enum SpillStep {
    /// The region may not be spilled.
    Refuse(TvmError),
    /// There is nothing to do.
    Done,
    /// The bytes go to the store.
    Store,
}

/// What is handed to the backing store to spill one region.
pub struct SpillJob {
    pub region_id: u16,
    pub generation: u16,
    pub bytes: Vec<u8>,
}

/// What the backing store is asked for to load one region.
#[derive(Clone, Copy, Debug, PartialEq, Eq, Structural)]
pub struct LoadJob {
    pub region_id: u16,
    pub generation: u16,
}

impl<M: MemoryRegion> RegionEntry<M> {
    /// The entry fits together: the allocator covers the capacity, `used`
    /// mirrors it, the generation is not zero, and only a pinnable region is pinned.
    pub open spec fn wf(&self) -> bool {
        &&& self.allocator.wf()
        &&& self.allocator.cap() == self.meta.capacity
        &&& self.allocator.used_bytes() == self.meta.used
        &&& self.meta.generation != 0
        &&& self.meta.pinned ==> self.meta.pinnable
    }

    /// A new region with its memory in place.
    pub fn create(
        id: u16,
        kind: RegionKind,
        capacity: u32,
        allocator: AllocatorKind,
        policy: PlacementPolicy,
        memory: M,
    ) -> (r: Self)
        ensures
            r.wf(),
            r.meta == fresh_meta(id, kind, capacity, policy),
            r.memory == Some(memory),
            r.metrics == zero_metrics(),
            r.allocator.is_fresh(allocator, capacity),
    {
        RegionEntry {
            meta: Region {
                id,
                generation: 1,
                capacity,
                used: 0,
                kind,
                residency: policy.initial_residency,
                pinned: false,
                pinnable: policy.pinnable,
                spillable: policy.spillable,
            },
            memory: Some(memory),
            metrics: RegionMetrics::default(),
            allocator: RegionAllocator::new(allocator, capacity),
        }
    }

    /// Forbids spilling and demoting; the policy must allow pinning.
    pub fn pin(&mut self) -> (r: Result<(), TvmError>)
        ensures
            if old(self).meta.pinnable {
                r == Ok::<(), TvmError>(()) && *final(self) == (RegionEntry {
                    meta: Region { pinned: true, ..old(self).meta },
                    ..*old(self)
                })
            } else {
                r == Err::<(), TvmError>(TvmError::PolicyViolation) && *final(self) == *old(self)
            },
    {
        if !self.meta.pinnable {
            return Err(TvmError::PolicyViolation);
        }
        self.meta.pinned = true;
        Ok(())
    }

    /// Allows spilling and demoting again.
    pub fn unpin(&mut self)
        ensures
            *final(self) == (RegionEntry {
                meta: Region { pinned: false, ..old(self).meta },
                ..*old(self)
            }),
    {
        self.meta.pinned = false;
    }

    /// What a request for `size` bytes does to the region.
    pub open spec fn allocates(
        pre: Self,
        size: u32,
        align: u32,
        post: Self,
        r: Result<Handle, TvmError>,
    ) -> bool {
        match r {
            Ok(h) => {
                &&& h.region_id == pre.meta.id
                &&& h.generation == pre.meta.generation
                &&& RegionAllocator::allocates(
                    pre.allocator,
                    size,
                    align,
                    post.allocator,
                    Ok(h.offset),
                )
                &&& post.meta == (Region { used: post.allocator.used_bytes(), ..pre.meta })
                &&& post.metrics == pre.metrics.after_alloc(size as u64)
                &&& post.memory == pre.memory
            },
            Err(e) => {
                &&& RegionAllocator::allocates(
                    pre.allocator,
                    size,
                    align,
                    post.allocator,
                    Err(e),
                )
                &&& post == pre
            },
        }
    }

    pub fn allocate_aligned(&mut self, size: u32, align: u32) -> (r: Result<Handle, TvmError>)
        requires
            old(self).wf(),
        ensures
            final(self).wf(),
            Self::allocates(*old(self), size, align, *final(self), r),
    {
        match self.allocator.allocate(size, align) {
            Ok(offset) => {
                self.meta.used = self.allocator.used();
                self.metrics.record_alloc(size as u64);
                Ok(Handle { region_id: self.meta.id, generation: self.meta.generation, offset })
            },
            Err(e) => Err(e),
        }
    }

    /// What giving a handle back does: a handle of another generation is
    /// stale, the allocator decides about the rest.
    pub open spec fn deallocates(
        pre: Self,
        handle: Handle,
        post: Self,
        r: Result<(), TvmError>,
    ) -> bool {
        if pre.meta.generation != handle.generation {
            r == Err::<(), TvmError>(TvmError::StaleHandle) && post == pre
        } else {
            match r {
                Ok(_) => {
                    &&& exists|size: u32| #[trigger]
                        RegionAllocator::deallocates(
                            pre.allocator,
                            handle.offset,
                            post.allocator,
                            Ok(size),
                        )
                    &&& post.meta == (Region { used: post.allocator.used_bytes(), ..pre.meta })
                    &&& post.memory == pre.memory
                    &&& post.metrics == pre.metrics
                },
                Err(e) => {
                    &&& RegionAllocator::deallocates(
                        pre.allocator,
                        handle.offset,
                        post.allocator,
                        Err(e),
                    )
                    &&& post == pre
                },
            }
        }
    }

    pub fn dealloc(&mut self, handle: Handle) -> (r: Result<(), TvmError>)
        requires
            old(self).wf(),
        ensures
            final(self).wf(),
            Self::deallocates(*old(self), handle, *final(self), r),
    {
        if self.meta.generation != handle.generation {
            return Err(TvmError::StaleHandle);
        }
        match self.allocator.dealloc(handle.offset) {
            Ok(_) => {
                self.meta.used = self.allocator.used();
                Ok(())
            },
            Err(e) => Err(e),
        }
    }

    /// How a read of `len` bytes from `offset` on ends: the bytes must be
    /// resident, inside the capacity, and readable in the memory.
    pub open spec fn read_result(&self, offset: u32, len: nat) -> Result<(), TvmError> {
        match self.memory {
            None => Err(TvmError::NotResident),
            Some(m) => if !fits(offset, counted_len(len), self.meta.capacity) {
                Err(TvmError::OutOfBounds)
            } else {
                m.read_result(offset, len)
            },
        }
    }

    /// Reads into `buf` and counts the bytes.
    pub fn read_at(&mut self, offset: u32, buf: &mut [u8]) -> (r: Result<(), TvmError>)
        ensures
            r == old(self).read_result(offset, old(buf)@.len()),
            final(buf)@.len() == old(buf)@.len(),
            match r {
                Ok(_) => {
                    &&& offset + old(buf)@.len() <= old(self).memory->0.bytes().len()
                    &&& final(buf)@ == old(self).memory->0.bytes().subrange(
                        offset as int,
                        offset + old(buf)@.len(),
                    )
                    &&& *final(self) == (RegionEntry {
                        metrics: old(self).metrics.after_read(old(buf)@.len() as u64),
                        ..*old(self)
                    })
                },
                Err(_) => *final(self) == *old(self) && final(buf)@ == old(buf)@,
            },
    {
        match &self.memory {
            None => return Err(TvmError::NotResident),
            Some(m) => {
                match check_in_bounds(self.meta.capacity, offset, count_len(buf.len())) {
                    Ok(_) => {},
                    Err(e) => return Err(e),
                }
                match m.read(offset, buf) {
                    Ok(u) => assert(u == ()),
                    Err(e) => return Err(e),
                }
            },
        }
        self.metrics.record_read(buf.len() as u64);
        Ok(())
    }

    /// How a write of `len` bytes from `offset` on ends.
    pub open spec fn write_result(&self, offset: u32, len: nat) -> Result<(), TvmError> {
        match self.memory {
            None => Err(TvmError::NotResident),
            Some(m) => if !fits(offset, counted_len(len), self.meta.capacity) {
                Err(TvmError::OutOfBounds)
            } else {
                m.write_result(offset, len)
            },
        }
    }

    /// What a successful write does: the bytes from `offset` on are replaced,
    /// the counter grows, and nothing else changes.
    pub open spec fn written(pre: Self, offset: u32, data: Seq<u8>, post: Self) -> bool {
        &&& post.meta == pre.meta
        &&& post.allocator == pre.allocator
        &&& post.metrics == pre.metrics.after_write(data.len() as u64)
        &&& pre.memory is Some
        &&& post.memory is Some
        &&& offset + data.len() <= pre.memory->0.bytes().len()
        &&& post.memory->0.bytes() == overwritten(pre.memory->0.bytes(), offset as int, data)
    }

    /// Replaces bytes and counts them.
    pub fn write_at(&mut self, offset: u32, data: &[u8]) -> (r: Result<(), TvmError>)
        ensures
            r == old(self).write_result(offset, data@.len()),
            r is Ok ==> Self::written(*old(self), offset, data@, *final(self)),
            r is Err ==> *final(self) == *old(self),
    {
        match &mut self.memory {
            None => return Err(TvmError::NotResident),
            Some(m) => {
                match check_in_bounds(self.meta.capacity, offset, count_len(data.len())) {
                    Ok(_) => {},
                    Err(e) => return Err(e),
                }
                match m.write(offset, data) {
                    Ok(u) => assert(u == ()),
                    Err(e) => return Err(e),
                }
            },
        }
        self.metrics.record_write(data.len() as u64);
        Ok(())
    }

    /// What spilling this region comes to.
    pub open spec fn spill_step(&self) -> SpillStep {
        if self.meta.pinned {
            SpillStep::Refuse(TvmError::Pinned)
        } else if !self.meta.spillable {
            SpillStep::Refuse(TvmError::PolicyViolation)
        } else if self.meta.residency == Residency::Cold {
            SpillStep::Done
        } else if self.memory is None {
            SpillStep::Refuse(TvmError::NotResident)
        } else {
            SpillStep::Store
        }
    }

    /// First half of a spill: takes the memory out and says what to store.
    pub fn begin_spill(&mut self) -> (r: Result<Option<SpillJob>, TvmError>)
        ensures
            match old(self).spill_step() {
                SpillStep::Refuse(e) => r == Err::<Option<SpillJob>, TvmError>(e) && *final(self)
                    == *old(self),
                SpillStep::Done => r == Ok::<Option<SpillJob>, TvmError>(None) && *final(self)
                    == *old(self),
                SpillStep::Store => {
                    &&& r matches Ok(Some(job)) && job.region_id == old(self).meta.id
                        && job.generation == old(self).meta.generation && job.bytes@ == old(
                        self,
                    ).memory->0.bytes()
                    &&& *final(self) == old(self).emptied()
                },
            },
    {
        if self.meta.pinned {
            return Err(TvmError::Pinned);
        }
        if !self.meta.spillable {
            return Err(TvmError::PolicyViolation);
        }
        if self.meta.residency == Residency::Cold {
            return Ok(None);
        }
        match self.memory.take() {
            None => Err(TvmError::NotResident),
            Some(memory) => Ok(
                Some(
                    SpillJob {
                        region_id: self.meta.id,
                        generation: self.meta.generation,
                        bytes: memory.snapshot(),
                    },
                ),
            ),
        }
    }

    /// The region once the store has taken its bytes: cold, and the demotion counted.
    pub open spec fn spilled(self) -> Self {
        RegionEntry {
            meta: Region { residency: Residency::Cold, ..self.meta },
            metrics: self.metrics.after_demotion(),
            ..self
        }
    }

    /// The region with its bytes taken out.
    pub open spec fn emptied(self) -> Self {
        RegionEntry { memory: None, ..self }
    }

    /// Second half of a spill, once the store has taken the bytes.
    pub fn finish_spill(&mut self)
        ensures
            *final(self) == old(self).spilled(),
    {
        self.meta.residency = Residency::Cold;
        self.metrics.record_demotion();
    }

    /// A load has nothing to do: the region is hot and its bytes are there.
    pub open spec fn is_loaded(&self) -> bool {
        self.meta.residency == Residency::Hot && self.memory is Some
    }

    /// First half of a load: what to ask the store for, if anything.
    pub fn begin_load(&self) -> (r: Option<LoadJob>)
        ensures
            r == (if self.is_loaded() {
                None
            } else {
                Some(LoadJob { region_id: self.meta.id, generation: self.meta.generation })
            }),
    {
        if self.meta.residency == Residency::Hot && self.memory.is_some() {
            None
        } else {
            Some(LoadJob { region_id: self.meta.id, generation: self.meta.generation })
        }
    }

    /// What installing loaded bytes does: the region holds them and is hot;
    /// the fault and the promotion are counted.
    pub open spec fn loaded(pre: Self, bytes: Seq<u8>, post: Self) -> bool {
        &&& post.meta == (Region { residency: Residency::Hot, ..pre.meta })
        &&& post.memory is Some
        &&& post.memory->0.bytes() == bytes
        &&& post.metrics == pre.metrics.after_promotion().after_fault()
        &&& post.allocator == pre.allocator
    }

    /// Second half of a load.
    pub fn finish_load(&mut self, bytes: Vec<u8>)
        ensures
            Self::loaded(*old(self), bytes@, *final(self)),
    {
        self.memory = Some(M::restore(bytes));
        self.meta.residency = Residency::Hot;
        self.metrics.record_promotion();
        self.metrics.record_fault();
    }

    /// The first error met when the blocks are read in order, from index `from` on.
    pub open spec fn gather_error(m: M, blocks: Seq<(u32, u32)>, from: int) -> Option<TvmError>
        decreases blocks.len() - from,
    {
        if from < 0 || from >= blocks.len() {
            None
        } else {
            match m.read_result(blocks[from].0, blocks[from].1 as nat) {
                Err(e) => Some(e),
                Ok(_) => Self::gather_error(m, blocks, from + 1),
            }
        }
    }

    /// Why compaction is refused, if it is.
    pub open spec fn compact_refusal(&self) -> Option<TvmError> {
        if self.meta.pinned {
            Some(TvmError::Pinned)
        } else if !(self.allocator is Freelist) {
            Some(TvmError::UnsupportedAllocator)
        } else {
            match self.memory {
                None => Some(TvmError::NotResident),
                Some(m) => Self::gather_error(
                    m,
                    live_blocks(self.allocator->Freelist_0.live()),
                    0,
                ),
            }
        }
    }

    /// What compaction does: the live blocks are packed towards zero with
    /// their contents, the rest is zeroed, and the generation advances.
    pub open spec fn compacted(pre: Self, post: Self, remap: HandleRemap) -> bool {
        let blocks = live_blocks(pre.allocator->Freelist_0.live());
        &&& post.meta == (Region {
            generation: next_generation(pre.meta.generation),
            used: total_size(blocks) as u32,
            ..pre.meta
        })
        &&& post.memory is Some
        &&& post.memory->0.bytes() == packed_bytes(
            pre.memory->0.bytes(),
            blocks,
            pre.meta.capacity,
        )
        &&& post.metrics == pre.metrics
        &&& RegionAllocator::rebuilds(
            pre.allocator,
            packed_blocks(blocks),
            pre.meta.capacity,
            post.allocator,
        )
        &&& remap.region_id == pre.meta.id
        &&& remap.old_generation == pre.meta.generation
        &&& remap.new_generation == next_generation(pre.meta.generation)
        &&& remap.mapping@ == packed_mapping(blocks)
    }

    /// Packs the live allocations towards offset zero.
    pub fn compact(&mut self) -> (r: Result<HandleRemap, TvmError>)
        requires
            old(self).wf(),
        ensures
            final(self).wf(),
            match old(self).compact_refusal() {
                Some(e) => r == Err::<HandleRemap, TvmError>(e) && *final(self) == *old(self),
                None => r matches Ok(remap) && Self::compacted(*old(self), *final(self), remap),
            },
    {
        if self.meta.pinned {
            return Err(TvmError::Pinned);
        }
        let blocks: Vec<(u32, u32)> = match self.allocator.allocated_blocks() {
            Some(b) => b,
            None => return Err(TvmError::UnsupportedAllocator),
        };
        let memory: &M = match &self.memory {
            Some(m) => m,
            None => return Err(TvmError::NotResident),
        };
        let capacity: u32 = self.meta.capacity;
        let ghost live = self.allocator->Freelist_0.live();
        proof {
            self.allocator.lemma_live_ok();
            lemma_live_blocks_ascend(blocks@, live, capacity);
            lemma_packed_blocks(blocks@, capacity);
        }
        let mut new_data: Vec<u8> = zeroed(capacity as usize);
        let mut mapping = OffsetMap::with_capacity(blocks.len());
        let mut new_blocks: Vec<(u32, u32)> = Vec::with_capacity(blocks.len());
        let mut cursor: u32 = 0;
        let mut i: usize = 0;
        assert(blocks@.subrange(0, 0) =~= Seq::empty());
        assert(new_data@ =~= packed_bytes(memory.bytes(), Seq::empty(), capacity));
        assert(new_blocks@ =~= packed_blocks(blocks@).subrange(0, 0));
        assert(blocks@.subrange(0, blocks@.len() as int) =~= blocks@);
        while i < blocks.len()
            invariant
                i <= blocks@.len(),
                total_size(blocks@) <= capacity,
                blocks@.subrange(0, blocks@.len() as int) == blocks@,
                cursor == packed_start(blocks@, i as int),
                *self == *old(self),
                self.wf(),
                self.memory == Some(*memory),
                forall|j: int|
                    0 <= j < i ==> crate::blocks::block_end(#[trigger] blocks@[j])
                        <= memory.bytes().len(),
                new_data@ == packed_bytes(memory.bytes(), blocks@.subrange(0, i as int), capacity),
                mapping@ == packed_mapping(blocks@.subrange(0, i as int)),
                new_blocks@ == packed_blocks(blocks@).subrange(0, i as int),
                Self::gather_error(*memory, blocks@, 0) == Self::gather_error(
                    *memory,
                    blocks@,
                    i as int,
                ),
                self.compact_refusal() == Self::gather_error(*memory, blocks@, 0),
            decreases blocks@.len() - i,
        {
            let (old_off, size) = blocks[i];
            proof {
                lemma_total_prefix_step(blocks@, i as int);
                lemma_total_prefix_monotonic(blocks@, i + 1, blocks@.len() as int);
                lemma_total_prefix_monotonic(blocks@, i as int, blocks@.len() as int);
            }
            let mut buf: Vec<u8> = zeroed(size as usize);
            match memory.read(old_off, &mut buf) {
                Ok(_) => {},
                Err(e) => return Err(e),
            }
            let ghost before = new_data@;
            let ghost done = blocks@.subrange(0, i as int);
            let ghost next = blocks@.subrange(0, i + 1);
            proof {
                assert forall|j: int| 0 <= j < done.len() implies crate::blocks::block_end(
                    #[trigger] done[j],
                ) <= memory.bytes().len() by {
                    assert(done[j] == blocks@[j]);
                }
                lemma_gathered_len(memory.bytes(), done);
                assert(next.drop_last() =~= done);
                assert(next.last() == blocks@[i as int]);
            }
            copy_into(&mut new_data, cursor as usize, buf.as_slice());
            mapping.insert(old_off, cursor);
            new_blocks.push((cursor, size));
            cursor += size;
            i += 1;
            proof {
                assert(new_data@ =~= packed_bytes(memory.bytes(), next, capacity));
                assert(new_blocks@ =~= packed_blocks(blocks@).subrange(0, i as int));
            }
        }
        assert(blocks@.subrange(0, i as int) =~= blocks@);
        assert(new_blocks@ =~= packed_blocks(blocks@));
        let old_generation: u16 = self.meta.generation;
        let new_generation: u16 = advance_generation(old_generation);
        self.meta.generation = new_generation;
        self.memory = Some(M::restore(new_data));
        self.allocator.rebuild_after_compact(new_blocks.as_slice(), capacity);
        self.meta.used = self.allocator.used();
        Ok(HandleRemap { region_id: self.meta.id, old_generation, new_generation, mapping })
    }
}

} // verus!
