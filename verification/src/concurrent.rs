//! The directory operations that make sense under per-region locking, with
//! bulk eviction. Each method of the directory is one step on the whole state.
//! The methods of an entry are the steps that touch one region alone, for
//! callers that lock region by region.
use vstd::prelude::*;
use crate::allocator::AllocatorKind;
use crate::directory::RegionDirectory;
use crate::entry::{check_in_bounds, count_len, counted_len, fits, RegionEntry};
use crate::error::TvmError;
use crate::eviction::{empty_report, is_eviction_order, left, one_more, passed_over, resident_bytes, EvictionPolicy, EvictionReport, EvictionRun, WithinTier};
use crate::handle::Handle;
use crate::memory_region::{zeroed, BackingStore, MemoryRegion};
use crate::metrics::MetricsSnapshot;
use crate::region::{policy_of, PlacementPolicy, Region, RegionKind};
use crate::remap::HandleRemap;

verus! {

/// A directory to be shared between threads.
pub struct ConcurrentDirectory<M> {
    dir: RegionDirectory<M>,
}

impl<M: MemoryRegion> RegionEntry<M> {
    /// How a read ends when the bounds are looked at before the residency.
    pub open spec fn bounded_read_result(&self, offset: u32, len: u32) -> Result<(), TvmError> {
        if !fits(offset, len, self.meta.capacity) {
            Err(TvmError::OutOfBounds)
        } else {
            match self.memory {
                None => Err(TvmError::NotResident),
                Some(m) => m.read_result(offset, len as nat),
            }
        }
    }

    /// How a write ends when the bounds are looked at before the residency.
    pub open spec fn bounded_write_result(&self, offset: u32, len: nat) -> Result<(), TvmError> {
        if !fits(offset, counted_len(len), self.meta.capacity) {
            Err(TvmError::OutOfBounds)
        } else {
            match self.memory {
                None => Err(TvmError::NotResident),
                Some(m) => m.write_result(offset, len),
            }
        }
    }

    /// Reads through a handle, which must be current.
    pub fn read_through(&mut self, handle: Handle, buf: &mut [u8]) -> (r: Result<(), TvmError>)
        ensures
            final(buf)@.len() == old(buf)@.len(),
            r == (if old(self).meta.generation != handle.generation {
                Err(TvmError::StaleHandle)
            } else {
                old(self).read_result(handle.offset, old(buf)@.len())
            }),
            match r {
                Ok(_) => {
                    &&& handle.offset + old(buf)@.len() <= old(self).memory->0.bytes().len()
                    &&& final(buf)@ == old(self).memory->0.bytes().subrange(
                        handle.offset as int,
                        handle.offset + old(buf)@.len(),
                    )
                    &&& *final(self) == (RegionEntry {
                        metrics: old(self).metrics.after_read(old(buf)@.len() as u64),
                        ..*old(self)
                    })
                },
                Err(_) => *final(self) == *old(self) && final(buf)@ == old(buf)@,
            },
    {
        if self.meta.generation != handle.generation {
            return Err(TvmError::StaleHandle);
        }
        self.read_at(handle.offset, buf)
    }

    /// Writes through a handle, which must be current. The bounds are looked at
    /// before the residency.
    pub fn write_through(&mut self, handle: Handle, data: &[u8]) -> (r: Result<(), TvmError>)
        ensures
            r == (if old(self).meta.generation != handle.generation {
                Err(TvmError::StaleHandle)
            } else {
                old(self).bounded_write_result(handle.offset, data@.len())
            }),
            r is Ok ==> Self::written(*old(self), handle.offset, data@, *final(self)),
            r is Err ==> *final(self) == *old(self),
    {
        if self.meta.generation != handle.generation {
            return Err(TvmError::StaleHandle);
        }
        self.bounded_write(handle.offset, data)
    }

    /// Reads with the bounds looked at first.
    pub fn bounded_read(&mut self, offset: u32, buf: &mut Vec<u8>) -> (r: Result<(), TvmError>)
        requires
            old(buf)@.len() <= u32::MAX,
        ensures
            r == old(self).bounded_read_result(offset, old(buf)@.len() as u32),
            match r {
                Ok(_) => {
                    &&& offset + old(buf)@.len() <= old(self).memory->0.bytes().len()
                    &&& final(buf)@ == old(self).memory->0.bytes().subrange(
                        offset as int,
                        offset + old(buf)@.len(),
                    )
                    &&& *final(self) == (RegionEntry {
                        metrics: old(self).metrics.after_read(old(buf)@.len() as u64),
                        ..*old(self)
                    })
                },
                Err(_) => *final(self) == *old(self),
            },
    {
        match check_in_bounds(self.meta.capacity, offset, buf.len() as u32) {
            Err(e) => return Err(e),
            Ok(_) => {},
        }
        self.read_at(offset, buf)
    }

    /// Writes with the bounds looked at first.
    pub fn bounded_write(&mut self, offset: u32, data: &[u8]) -> (r: Result<(), TvmError>)
        ensures
            r == old(self).bounded_write_result(offset, data@.len()),
            r is Ok ==> Self::written(*old(self), offset, data@, *final(self)),
            r is Err ==> *final(self) == *old(self),
    {
        match check_in_bounds(self.meta.capacity, offset, count_len(data.len())) {
            Err(e) => return Err(e),
            Ok(_) => {},
        }
        self.write_at(offset, data)
    }
}

impl<M: MemoryRegion> ConcurrentDirectory<M> {
    /// The regions and the warm list.
    pub closed spec fn view(&self) -> RegionDirectory<M> {
        self.dir
    }

    pub open spec fn wf(&self) -> bool {
        self@.wf()
    }

    pub fn new() -> (r: Self)
        ensures
            r.wf(),
            r@.slots() == Seq::<Option<RegionEntry<M>>>::empty(),
            r@.lru() == Seq::<u16>::empty(),
    {
        ConcurrentDirectory { dir: RegionDirectory::new() }
    }

    pub fn create_region(&mut self, kind: RegionKind, capacity: u32, memory: M) -> (r: Result<
        u16,
        TvmError,
    >)
        requires
            old(self).wf(),
        ensures
            final(self).wf(),
            RegionDirectory::creates(
                old(self)@,
                kind,
                capacity,
                AllocatorKind::Bump,
                policy_of(kind),
                memory,
                final(self)@,
                r,
            ),
    {
        self.dir.create_region(kind, capacity, memory)
    }

    pub fn create_region_with(
        &mut self,
        kind: RegionKind,
        capacity: u32,
        allocator: AllocatorKind,
        memory: M,
    ) -> (r: Result<u16, TvmError>)
        requires
            old(self).wf(),
        ensures
            final(self).wf(),
            RegionDirectory::creates(
                old(self)@,
                kind,
                capacity,
                allocator,
                policy_of(kind),
                memory,
                final(self)@,
                r,
            ),
    {
        self.dir.create_region_with(kind, capacity, allocator, memory)
    }

    pub fn create_region_with_policy(
        &mut self,
        kind: RegionKind,
        capacity: u32,
        allocator: AllocatorKind,
        policy: PlacementPolicy,
        memory: M,
    ) -> (r: Result<u16, TvmError>)
        requires
            old(self).wf(),
        ensures
            final(self).wf(),
            RegionDirectory::creates(
                old(self)@,
                kind,
                capacity,
                allocator,
                policy,
                memory,
                final(self)@,
                r,
            ),
    {
        self.dir.create_region_with_policy(kind, capacity, allocator, policy, memory)
    }

    pub fn destroy_region(&mut self, region_id: u16) -> (r: Result<(), TvmError>)
        requires
            old(self).wf(),
        ensures
            final(self).wf(),
            RegionDirectory::destroys(old(self)@, region_id, final(self)@, r),
    {
        self.dir.destroy_region(region_id)
    }

    /// What an allocation does: the region's allocator decides.
    pub open spec fn allocates(
        pre: RegionDirectory<M>,
        id: u16,
        size: u32,
        post: RegionDirectory<M>,
        r: Result<Handle, TvmError>,
    ) -> bool {
        match pre.at(id) {
            None => r == Err::<Handle, TvmError>(TvmError::RegionNotFound(id))
                && RegionDirectory::same(pre, post),
            Some(e) => {
                &&& post.has(id)
                &&& RegionEntry::allocates(e, size, 1, post.at(id)->0, r)
                &&& RegionDirectory::only(pre, post, id, post.at(id)->0)
            },
        }
    }

    pub fn allocate(&mut self, region_id: u16, size: u32) -> (r: Result<Handle, TvmError>)
        requires
            old(self).wf(),
        ensures
            final(self).wf(),
            Self::allocates(old(self)@, region_id, size, final(self)@, r),
    {
        let ghost pre = self.dir;
        let r = match self.dir.entry_mut(region_id) {
            Err(e) => Err(e),
            Ok(entry) => entry.allocate_aligned(size, 1),
        };
        proof {
            if pre.has(region_id) {
                RegionDirectory::lemma_only_wf(pre, self.dir, region_id, self.dir.at(region_id)->0);
            } else {
                RegionDirectory::lemma_same_wf(pre, self.dir);
            }
        }
        r
    }

    pub fn dealloc(&mut self, handle: Handle) -> (r: Result<(), TvmError>)
        requires
            old(self).wf(),
        ensures
            final(self).wf(),
            RegionDirectory::deallocates(old(self)@, handle, final(self)@, r),
    {
        self.dir.dealloc(handle)
    }

    /// What a read through a handle does.
    pub open spec fn reads(
        pre: RegionDirectory<M>,
        handle: Handle,
        before: Seq<u8>,
        post: RegionDirectory<M>,
        after: Seq<u8>,
        r: Result<(), TvmError>,
    ) -> bool {
        let refused = |e: TvmError|
            r == Err::<(), TvmError>(e) && RegionDirectory::same(pre, post) && after == before;
        match pre.at(handle.region_id) {
            None => refused(TvmError::RegionNotFound(handle.region_id)),
            Some(e) => if e.meta.generation != handle.generation {
                refused(TvmError::StaleHandle)
            } else {
                match e.read_result(handle.offset, before.len()) {
                    Err(err) => refused(err),
                    Ok(_) => {
                        &&& r is Ok
                        &&& handle.offset + before.len() <= e.memory->0.bytes().len()
                        &&& after == e.memory->0.bytes().subrange(
                            handle.offset as int,
                            handle.offset + before.len(),
                        )
                        &&& RegionDirectory::only(
                            pre,
                            post,
                            handle.region_id,
                            RegionEntry { metrics: e.metrics.after_read(before.len() as u64), ..e },
                        )
                    },
                }
            },
        }
    }

    pub fn read(&mut self, handle: Handle, buf: &mut [u8]) -> (r: Result<(), TvmError>)
        requires
            old(self).wf(),
        ensures
            final(self).wf(),
            final(buf)@.len() == old(buf)@.len(),
            Self::reads(old(self)@, handle, old(buf)@, final(self)@, final(buf)@, r),
    {
        let ghost pre = self.dir;
        let r = match self.dir.entry_mut(handle.region_id) {
            Err(e) => Err(e),
            Ok(entry) => entry.read_through(handle, buf),
        };
        proof {
            let id = handle.region_id;
            if r is Err {
                assert(self.dir.slots() =~= pre.slots());
                RegionDirectory::lemma_same_wf(pre, self.dir);
            } else {
                RegionDirectory::lemma_only_wf(pre, self.dir, id, self.dir.at(id)->0);
            }
        }
        r
    }

    /// What a write through a handle does; the bounds are looked at before the residency.
    pub open spec fn writes(
        pre: RegionDirectory<M>,
        handle: Handle,
        data: Seq<u8>,
        post: RegionDirectory<M>,
        r: Result<(), TvmError>,
    ) -> bool {
        let id = handle.region_id;
        let refused = |e: TvmError|
            r == Err::<(), TvmError>(e) && RegionDirectory::same(pre, post);
        match pre.at(id) {
            None => refused(TvmError::RegionNotFound(id)),
            Some(e) => if e.meta.generation != handle.generation {
                refused(TvmError::StaleHandle)
            } else {
                match e.bounded_write_result(handle.offset, data.len()) {
                    Err(err) => refused(err),
                    Ok(_) => {
                        &&& r is Ok
                        &&& post.has(id)
                        &&& RegionEntry::written(e, handle.offset, data, post.at(id)->0)
                        &&& RegionDirectory::only(pre, post, id, post.at(id)->0)
                    },
                }
            },
        }
    }

    pub fn write(&mut self, handle: Handle, data: &[u8]) -> (r: Result<(), TvmError>)
        requires
            old(self).wf(),
        ensures
            final(self).wf(),
            Self::writes(old(self)@, handle, data@, final(self)@, r),
    {
        let ghost pre = self.dir;
        let r = match self.dir.entry_mut(handle.region_id) {
            Err(e) => Err(e),
            Ok(entry) => entry.write_through(handle, data),
        };
        proof {
            let id = handle.region_id;
            if r is Err {
                assert(self.dir.slots() =~= pre.slots());
                RegionDirectory::lemma_same_wf(pre, self.dir);
            } else {
                RegionDirectory::lemma_only_wf(pre, self.dir, id, self.dir.at(id)->0);
            }
        }
        r
    }

    /// What copying between two places does. Both regions must exist before
    /// anything is read; the source is read and counted before the destination
    /// is checked.
    pub open spec fn copies(
        pre: RegionDirectory<M>,
        src_region: u16,
        src_offset: u32,
        dst_region: u16,
        dst_offset: u32,
        len: u32,
        post: RegionDirectory<M>,
        r: Result<(), TvmError>,
    ) -> bool {
        let refused = |e: TvmError|
            r == Err::<(), TvmError>(e) && RegionDirectory::same(pre, post);
        if !pre.has(src_region) {
            refused(TvmError::RegionNotFound(src_region))
        } else if !pre.has(dst_region) {
            refused(TvmError::RegionNotFound(dst_region))
        } else {
            let s = pre.at(src_region)->0;
            match s.bounded_read_result(src_offset, len) {
                Err(e) => refused(e),
                Ok(_) => {
                    let mid = RegionDirectory::slots_after_read(pre, src_region, len);
                    let d = mid[dst_region as int]->0;
                    let data = s.memory->0.bytes().subrange(src_offset as int, src_offset + len);
                    &&& src_offset + len <= s.memory->0.bytes().len()
                    &&& post.lru() == pre.lru()
                    &&& post.context() == pre.context()
                    &&& match d.bounded_write_result(dst_offset, len as nat) {
                        Err(e) => r == Err::<(), TvmError>(e) && post.slots() == mid,
                        Ok(_) => {
                            &&& r is Ok
                            &&& post.has(dst_region)
                            &&& RegionEntry::written(d, dst_offset, data, post.at(dst_region)->0)
                            &&& post.slots() == mid.update(dst_region as int, post.at(dst_region))
                        },
                    }
                },
            }
        }
    }

    pub fn cross_region_copy(
        &mut self,
        src_region: u16,
        src_offset: u32,
        dst_region: u16,
        dst_offset: u32,
        len: u32,
    ) -> (r: Result<(), TvmError>)
        requires
            old(self).wf(),
        ensures
            final(self).wf(),
            Self::copies(
                old(self)@,
                src_region,
                src_offset,
                dst_region,
                dst_offset,
                len,
                final(self)@,
                r,
            ),
    {
        let ghost pre = self.dir;
        match self.dir.entry(src_region) {
            Err(e) => return Err(e),
            Ok(_) => {},
        }
        match self.dir.entry(dst_region) {
            Err(e) => return Err(e),
            Ok(_) => {},
        }
        let mut buf: Vec<u8> = zeroed(len as usize);
        let out = match self.dir.entry_mut(src_region) {
            Err(e) => Err(e),
            Ok(entry) => entry.bounded_read(src_offset, &mut buf),
        };
        match out {
            Err(e) => {
                proof {
                    assert(self.dir.slots() =~= pre.slots());
                    RegionDirectory::lemma_same_wf(pre, self.dir);
                }
                return Err(e);
            },
            Ok(_) => {},
        }
        proof {
            RegionDirectory::lemma_only_wf(pre, self.dir, src_region, self.dir.at(src_region)->0);
        }
        let ghost mid = self.dir;
        assert(mid.has(dst_region));
        let r = match self.dir.entry_mut(dst_region) {
            Err(e) => Err(e),
            Ok(entry) => entry.bounded_write(dst_offset, buf.as_slice()),
        };
        proof {
            RegionDirectory::lemma_only_wf(mid, self.dir, dst_region, self.dir.at(dst_region)->0);
            if r is Err {
                assert(self.dir.slots() =~= mid.slots());
            }
        }
        r
    }

    pub fn region_info(&self, region_id: u16) -> (r: Result<Region, TvmError>)
        ensures
            r == (match self@.at(region_id) {
                Some(e) => Ok::<Region, TvmError>(e.meta),
                None => Err(TvmError::RegionNotFound(region_id)),
            }),
    {
        match self.dir.entry(region_id) {
            Ok(e) => Ok(e.meta),
            Err(err) => Err(err),
        }
    }

    pub fn metrics_snapshot(&self, region_id: u16) -> (r: Result<MetricsSnapshot, TvmError>)
        ensures
            r == (match self@.at(region_id) {
                Some(e) => Ok::<MetricsSnapshot, TvmError>(e.metrics.shown()),
                None => Err(TvmError::RegionNotFound(region_id)),
            }),
    {
        match self.dir.entry(region_id) {
            Ok(e) => Ok(e.metrics.snapshot()),
            Err(err) => Err(err),
        }
    }

    /// The metadata of every region, by ascending id.
    pub open spec fn regions(&self) -> Seq<Region> {
        RegionDirectory::listed(self@.slots(), self@.slots().len() as int)
    }

    pub fn list_regions(&self) -> (r: Result<Vec<Region>, TvmError>)
        ensures
            r matches Ok(v) && v@ == self.regions(),
    {
        Ok(self.dir.iter())
    }

    pub fn pin(&mut self, region_id: u16) -> (r: Result<(), TvmError>)
        requires
            old(self).wf(),
        ensures
            final(self).wf(),
            match old(self)@.at(region_id) {
                None => r == Err::<(), TvmError>(TvmError::RegionNotFound(region_id))
                    && RegionDirectory::same(old(self)@, final(self)@),
                Some(e) => if e.meta.pinnable {
                    r is Ok && RegionDirectory::only(
                        old(self)@,
                        final(self)@,
                        region_id,
                        RegionDirectory::with_pin(e, true),
                    )
                } else {
                    r == Err::<(), TvmError>(TvmError::PolicyViolation) && RegionDirectory::same(
                        old(self)@,
                        final(self)@,
                    )
                },
            },
    {
        self.dir.pin(region_id)
    }

    pub fn unpin(&mut self, region_id: u16) -> (r: Result<(), TvmError>)
        requires
            old(self).wf(),
        ensures
            final(self).wf(),
            match old(self)@.at(region_id) {
                None => r == Err::<(), TvmError>(TvmError::RegionNotFound(region_id))
                    && RegionDirectory::same(old(self)@, final(self)@),
                Some(e) => r is Ok && RegionDirectory::only(
                    old(self)@,
                    final(self)@,
                    region_id,
                    RegionDirectory::with_pin(e, false),
                ),
            },
    {
        self.dir.unpin(region_id)
    }

    pub fn spill_region<B: BackingStore>(&mut self, region_id: u16, store: &mut B) -> (r: Result<
        (),
        TvmError,
    >)
        requires
            old(self).wf(),
        ensures
            final(self).wf(),
            RegionDirectory::spills(
                old(self)@,
                region_id,
                *old(store),
                final(self)@,
                *final(store),
                r,
            ),
    {
        self.dir.spill_region(region_id, store)
    }

    pub fn compact_region(&mut self, region_id: u16) -> (r: Result<HandleRemap, TvmError>)
        requires
            old(self).wf(),
        ensures
            final(self).wf(),
            RegionDirectory::compacts(old(self)@, region_id, final(self)@, r),
    {
        self.dir.compact_region(region_id)
    }

    pub fn load_region<B: BackingStore>(&mut self, region_id: u16, store: &mut B) -> (r: Result<
        (),
        TvmError,
    >)
        requires
            old(self).wf(),
        ensures
            final(self).wf(),
            RegionDirectory::loads(
                old(self)@,
                region_id,
                *old(store),
                final(self)@,
                *final(store),
                r,
            ),
    {
        self.dir.load_region(region_id, store)
    }

    // -----------------------------------------------------------------------
    // Bulk eviction
    // -----------------------------------------------------------------------

    /// Spilling the regions of `order` one after the other while more than
    /// `target` bytes are resident. Regions that turn out not to be spillable
    /// are passed over; any other failure ends the run.
    pub open spec fn runs<B: BackingStore>(
        pre: RegionDirectory<M>,
        store_pre: B,
        order: Seq<Region>,
        target: u64,
        current: u64,
        report: EvictionReport,
        post: RegionDirectory<M>,
        store_post: B,
        r: Result<EvictionReport, TvmError>,
    ) -> bool
        decreases order.len(),
    {
        if order.len() == 0 || current <= target {
            &&& post == pre
            &&& store_post == store_pre
            &&& r == Ok::<EvictionReport, TvmError>(
                EvictionReport { target_met: current <= target, ..report },
            )
        } else {
            exists|mid: RegionDirectory<M>, store_mid: B, out: Result<(), TvmError>| #[trigger]
                RegionDirectory::spills(pre, order[0].id, store_pre, mid, store_mid, out)
                    && match out {
                    Ok(_) => Self::runs(
                        mid,
                        store_mid,
                        order.drop_first(),
                        target,
                        left(current, order[0].used),
                        one_more(report, order[0].used),
                        post,
                        store_post,
                        r,
                    ),
                    Err(e) => if passed_over(e) {
                        Self::runs(
                            mid,
                            store_mid,
                            order.drop_first(),
                            target,
                            current,
                            report,
                            post,
                            store_post,
                            r,
                        )
                    } else {
                        post == mid && store_post == store_mid && r == Err::<
                            EvictionReport,
                            TvmError,
                        >(e)
                    },
                }
        }
    }

    /// What bulk eviction does.
    pub open spec fn demotes_until<B: BackingStore>(
        pre: RegionDirectory<M>,
        target: u64,
        within: WithinTier,
        store_pre: B,
        post: RegionDirectory<M>,
        store_post: B,
        r: Result<EvictionReport, TvmError>,
    ) -> bool {
        let regions = RegionDirectory::listed(pre.slots(), pre.slots().len() as int);
        let current = resident_bytes(regions, regions.len() as int);
        if current <= target {
            &&& post == pre
            &&& store_post == store_pre
            &&& r == Ok::<EvictionReport, TvmError>(
                EvictionReport { target_met: true, ..empty_report() },
            )
        } else {
            exists|order: Seq<Region>| #[trigger]
                is_eviction_order(within, regions, order) && Self::runs(
                    pre,
                    store_pre,
                    order,
                    target,
                    current as u64,
                    empty_report(),
                    post,
                    store_post,
                    r,
                )
        }
    }

    /// Spills regions until at most `target` bytes are resident.
    pub fn demote_until<B: BackingStore>(
        &mut self,
        target: u64,
        policy: EvictionPolicy,
        store: &mut B,
    ) -> (r: Result<EvictionReport, TvmError>)
        requires
            old(self).wf(),
        ensures
            final(self).wf(),
            Self::demotes_until(
                old(self)@,
                target,
                policy->within_tier,
                *old(store),
                final(self)@,
                *final(store),
                r,
            ),
    {
        let snapshot: Vec<Region> = self.dir.iter();
        proof {
            lemma_listed(self.dir, self.dir.slots().len() as int);
        }
        let EvictionPolicy::ColdestFirst { within_tier } = policy;
        let mut run = EvictionRun::start(&snapshot, target, within_tier);
        let ghost pre = self.dir;
        let ghost store_pre = *store;
        let ghost order = run.rest();
        let ghost start = run.resident_now();
        loop
            invariant
                self.wf(),
                run.wf(),
                run.goal() == target,
                pre == old(self)@,
                store_pre == *old(store),
                !run.so_far().target_met,
                start == resident_bytes(snapshot@, snapshot@.len() as int),
                snapshot@ == RegionDirectory::listed(pre.slots(), pre.slots().len() as int),
                within_tier == policy->within_tier,
                is_eviction_order(within_tier, snapshot@, order),
                start <= target ==> self.dir == pre && *store == store_pre && run.resident_now()
                    == start && run.so_far() == empty_report(),
                forall|
                    post: RegionDirectory<M>,
                    store_post: B,
                    r: Result<EvictionReport, TvmError>,
                | #[trigger]
                    Self::runs(
                        self.dir,
                        *store,
                        run.rest(),
                        target,
                        run.resident_now(),
                        run.so_far(),
                        post,
                        store_post,
                        r,
                    ) ==> Self::runs(
                        pre,
                        store_pre,
                        order,
                        target,
                        start,
                        empty_report(),
                        post,
                        store_post,
                        r,
                    ),
            decreases run.rest().len(),
        {
            let region: Region = match run.candidate() {
                None => {
                    let r: Result<EvictionReport, TvmError> = Ok(run.report());
                    assert(Self::runs(
                        self.dir,
                        *store,
                        run.rest(),
                        target,
                        run.resident_now(),
                        run.so_far(),
                        self.dir,
                        *store,
                        r,
                    ));
                    return r;
                },
                Some(region) => region,
            };
            let ghost dir0 = self.dir;
            let ghost store0 = *store;
            let ghost run0 = run;
            let out = self.dir.spill_region(region.id, store);
            let ghost answer = out;
            assert(RegionDirectory::spills(
                dir0,
                region.id,
                store0,
                self.dir,
                *store,
                answer,
            ));
            match run.take_answer(out) {
                Ok(_) => {},
                Err(e) => {
                    let r: Result<EvictionReport, TvmError> = Err(e);
                    assert(Self::runs(
                        dir0,
                        store0,
                        run0.rest(),
                        target,
                        run0.resident_now(),
                        run0.so_far(),
                        self.dir,
                        *store,
                        r,
                    ));
                    return r;
                },
            }
            let ghost run1 = run;
            assert forall|
                post: RegionDirectory<M>,
                store_post: B,
                r: Result<EvictionReport, TvmError>,
            | #[trigger]
                Self::runs(
                    self.dir,
                    *store,
                    run1.rest(),
                    target,
                    run1.resident_now(),
                    run1.so_far(),
                    post,
                    store_post,
                    r,
                ) implies Self::runs(
                pre,
                store_pre,
                order,
                target,
                start,
                empty_report(),
                post,
                store_post,
                r,
            ) by {
                assert(Self::runs(
                    dir0,
                    store0,
                    run0.rest(),
                    target,
                    run0.resident_now(),
                    run0.so_far(),
                    post,
                    store_post,
                    r,
                ));
            }
        }
    }

    /// What an allocation with one round of eviction does: eviction runs only
    /// when the allocation failed for lack of room, and the allocation is then
    /// tried once more.
    pub open spec fn allocates_or_demotes<B: BackingStore>(
        pre: RegionDirectory<M>,
        id: u16,
        size: u32,
        target: u64,
        within: WithinTier,
        store_pre: B,
        post: RegionDirectory<M>,
        store_post: B,
        r: Result<Handle, TvmError>,
    ) -> bool {
        exists|first: RegionDirectory<M>, tried: Result<Handle, TvmError>| #[trigger]
            Self::allocates(pre, id, size, first, tried) && if tried == Err::<Handle, TvmError>(
                TvmError::AllocationFailed,
            ) {
                exists|second: RegionDirectory<M>, out: Result<EvictionReport, TvmError>| #[trigger]
                    Self::demotes_until(first, target, within, store_pre, second, store_post, out)
                        && match out {
                        Err(e) => r == Err::<Handle, TvmError>(e) && post == second,
                        Ok(_) => Self::allocates(second, id, size, post, r),
                    }
            } else {
                r == tried && post == first && store_post == store_pre
            }
    }

    pub fn alloc_or_demote<B: BackingStore>(
        &mut self,
        region_id: u16,
        size: u32,
        target: u64,
        policy: EvictionPolicy,
        store: &mut B,
    ) -> (r: Result<Handle, TvmError>)
        requires
            old(self).wf(),
        ensures
            final(self).wf(),
            Self::allocates_or_demotes(
                old(self)@,
                region_id,
                size,
                target,
                policy->within_tier,
                *old(store),
                final(self)@,
                *final(store),
                r,
            ),
    {
        let tried = self.allocate(region_id, size);
        let ghost first = self.dir;
        let ghost answer = tried;
        assert(Self::allocates(old(self)@, region_id, size, first, answer));
        match tried {
            Ok(h) => Ok(h),
            Err(TvmError::AllocationFailed) => {
                let out = self.demote_until(target, policy, store);
                let ghost second = self.dir;
                let ghost report = out;
                assert(Self::demotes_until(
                    first,
                    target,
                    policy->within_tier,
                    *old(store),
                    second,
                    *store,
                    report,
                ));
                match out {
                    Err(e) => Err(e),
                    Ok(_) => self.allocate(region_id, size),
                }
            },
            Err(e) => Err(e),
        }
    }
}

/// The listing holds the regions in ascending id order and nothing else.
pub proof fn lemma_listed<M: MemoryRegion>(dir: RegionDirectory<M>, n: int)
    requires
        dir.wf(),
        0 <= n <= dir.slots().len(),
    ensures
        ({
            let l = RegionDirectory::listed(dir.slots(), n);
            &&& l.len() <= n
            &&& forall|i: int, j: int|
                0 <= i < j < l.len() ==> (#[trigger] l[i]).id < (#[trigger] l[j]).id
            &&& forall|i: int|
                0 <= i < l.len() ==> (#[trigger] l[i]).id < n && dir.has(l[i].id)
                    && dir.at(l[i].id)->0.meta == l[i]
        }),
    decreases n,
{
    if n > 0 {
        lemma_listed(dir, n - 1);
        let k = (n - 1) as u16;
        assert(dir.at(k) == dir.slots()[n - 1]);
        if dir.has(k) {
            assert(dir.at(k)->0.meta.id == k);
        }
    }
}

impl<M: MemoryRegion> Default for ConcurrentDirectory<M> {
    fn default() -> (r: Self)
        ensures
            r.wf(),
            r@.slots() == Seq::<Option<RegionEntry<M>>>::empty(),
            r@.lru() == Seq::<u16>::empty(),
    {
        Self::new()
    }
}

} // verus!
