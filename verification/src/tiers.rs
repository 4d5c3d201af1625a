//! Moving regions between tiers: spilling, loading, promotion, demotion,
//! eviction, compaction, and accesses that load on demand.
use vstd::prelude::*;
use crate::directory::{lemma_without, without, RegionDirectory};
use crate::entry::{count_len, counted_len, LoadJob, RegionEntry, SpillJob, SpillStep};
use crate::error::TvmError;
use crate::handle::Handle;
use crate::memory_region::{zeroed, BackingStore, MemoryRegion};
use crate::region::{Region, Residency};
use crate::remap::HandleRemap;

verus! {

impl<M: MemoryRegion> RegionDirectory<M> {
    /// Region `id` became `e` and left the warm list.
    pub open spec fn leaves_warm(pre: Self, post: Self, id: u16, e: RegionEntry<M>) -> bool {
        &&& post.slots() == pre.slots().update(id as int, Some(e))
        &&& post.lru() == without(pre.lru(), id)
        &&& post.context() == pre.context()
    }

    /// Replacing a region and taking it off the warm list keeps the directory
    /// well formed.
    pub proof fn lemma_leaves_warm_wf(pre: Self, post: Self, id: u16, e: RegionEntry<M>)
        requires
            pre.wf(),
            pre.has(id),
            Self::leaves_warm(pre, post, id, e),
            e.wf(),
            e.meta.id == id,
        ensures
            post.wf(),
            post.at(id) == Some(e),
    {
        lemma_without(pre.lru(), id);
        assert forall|k: u16| #[trigger] post.has(k) implies post.at(k)->0.wf()
            && post.at(k)->0.meta.id == k by {
            if k != id {
                assert(pre.has(k));
            }
        }
        assert forall|k: u16| #[trigger] post.lru().contains(k) implies post.has(k) by {
            assert(pre.lru().contains(k));
            assert(pre.has(k));
        }
    }

    // -----------------------------------------------------------------------
    // Copying between regions
    // -----------------------------------------------------------------------

    /// The slots after region `id` has been read from: only its read counter grew.
    pub open spec fn slots_after_read(pre: Self, id: u16, len: u32) -> Seq<Option<RegionEntry<M>>> {
        let e = pre.at(id)->0;
        pre.slots().update(
            id as int,
            Some(RegionEntry { metrics: e.metrics.after_read(len as u64), ..e }),
        )
    }

    /// What copying `len` bytes between two places does. The source is read
    /// and counted first; only then is the destination looked at.
    pub open spec fn copies(
        pre: Self,
        src_region: u16,
        src_offset: u32,
        dst_region: u16,
        dst_offset: u32,
        len: u32,
        post: Self,
        r: Result<(), TvmError>,
    ) -> bool {
        match pre.at(src_region) {
            None => r == Err::<(), TvmError>(TvmError::RegionNotFound(src_region)) && Self::same(
                pre,
                post,
            ),
            Some(s) => match s.read_result(src_offset, len as nat) {
                Err(e) => r == Err::<(), TvmError>(e) && Self::same(pre, post),
                Ok(_) => {
                    let mid = Self::slots_after_read(pre, src_region, len);
                    let data = s.memory->0.bytes().subrange(src_offset as int, src_offset + len);
                    &&& src_offset + len <= s.memory->0.bytes().len()
                    &&& post.lru() == pre.lru()
                    &&& post.context() == pre.context()
                    &&& if dst_region < mid.len() && mid[dst_region as int] is Some {
                        let d = mid[dst_region as int]->0;
                        match d.write_result(dst_offset, len as nat) {
                            Err(e) => r == Err::<(), TvmError>(e) && post.slots() == mid,
                            Ok(_) => {
                                &&& r is Ok
                                &&& post.has(dst_region)
                                &&& RegionEntry::written(
                                    d,
                                    dst_offset,
                                    data,
                                    post.at(dst_region)->0,
                                )
                                &&& post.slots() == mid.update(
                                    dst_region as int,
                                    post.at(dst_region),
                                )
                            },
                        }
                    } else {
                        r == Err::<(), TvmError>(TvmError::RegionNotFound(dst_region))
                            && post.slots() == mid
                    }
                },
            },
        }
    }

    /// Copies bytes from one region to another, or within one region.
    pub fn cross_region_copy(
        &mut self,
        src_region: u16,
        src_offset: u32,
        dst_region: u16,
        dst_offset: u32,
        len: u32,
    ) -> (r: Result<(), TvmError>)
        requires
            old(self).wf(),
        ensures
            final(self).wf(),
            Self::copies(
                *old(self),
                src_region,
                src_offset,
                dst_region,
                dst_offset,
                len,
                *final(self),
                r,
            ),
    {
        let ghost pre = *self;
        let mut buf: Vec<u8> = zeroed(len as usize);
        let out = match self.entry_mut(src_region) {
            Err(e) => Err(e),
            Ok(entry) => entry.read_at(src_offset, &mut buf),
        };
        match out {
            Err(e) => {
                proof {
                    assert(self.slots() =~= pre.slots());
                    Self::lemma_same_wf(pre, *self);
                }
                return Err(e);
            },
            Ok(_) => {},
        }
        proof {
            assert(pre.has(src_region));
            Self::lemma_only_wf(pre, *self, src_region, self.at(src_region)->0);
        }
        let ghost mid = *self;
        let r = match self.entry_mut(dst_region) {
            Err(e) => Err(e),
            Ok(entry) => entry.write_at(dst_offset, buf.as_slice()),
        };
        proof {
            if mid.has(dst_region) {
                Self::lemma_only_wf(mid, *self, dst_region, self.at(dst_region)->0);
                if r is Err {
                    assert(self.slots() =~= mid.slots());
                }
            } else {
                Self::lemma_same_wf(mid, *self);
            }
        }
        r
    }

    /// What copying from where `src` points does: a stale handle is refused.
    pub open spec fn reads_into(
        pre: Self,
        src: Handle,
        dst_region: u16,
        dst_offset: u32,
        len: u32,
        post: Self,
        r: Result<(), TvmError>,
    ) -> bool {
        match pre.at(src.region_id) {
            Some(e) if e.meta.generation != src.generation => {
                r == Err::<(), TvmError>(TvmError::StaleHandle) && Self::same(pre, post)
            },
            _ => Self::copies(
                pre,
                src.region_id,
                src.offset,
                dst_region,
                dst_offset,
                len,
                post,
                r,
            ),
        }
    }

    /// Copies `len` bytes from where `src` points to a raw place; the handle's
    /// generation is checked.
    pub fn read_into(&mut self, src: Handle, dst_region: u16, dst_offset: u32, len: u32) -> (r:
        Result<(), TvmError>)
        requires
            old(self).wf(),
        ensures
            final(self).wf(),
            Self::reads_into(*old(self), src, dst_region, dst_offset, len, *final(self), r),
    {
        match self.entry(src.region_id) {
            Err(e) => return Err(e),
            Ok(entry) => {
                if entry.meta.generation != src.generation {
                    return Err(TvmError::StaleHandle);
                }
            },
        }
        self.cross_region_copy(src.region_id, src.offset, dst_region, dst_offset, len)
    }

    /// What copying to where `dst` points does: a stale handle is refused before
    /// anything is read.
    pub open spec fn writes_from(
        pre: Self,
        src_region: u16,
        src_offset: u32,
        dst: Handle,
        len: u32,
        post: Self,
        r: Result<(), TvmError>,
    ) -> bool {
        match pre.at(dst.region_id) {
            None => r == Err::<(), TvmError>(TvmError::RegionNotFound(dst.region_id))
                && Self::same(pre, post),
            Some(e) => if e.meta.generation != dst.generation {
                r == Err::<(), TvmError>(TvmError::StaleHandle) && Self::same(pre, post)
            } else {
                Self::copies(
                    pre,
                    src_region,
                    src_offset,
                    dst.region_id,
                    dst.offset,
                    len,
                    post,
                    r,
                )
            },
        }
    }

    /// Copies `len` bytes from a raw place to where `dst` points; the handle's
    /// generation is checked first.
    pub fn write_from(&mut self, src_region: u16, src_offset: u32, dst: Handle, len: u32) -> (r:
        Result<(), TvmError>)
        requires
            old(self).wf(),
        ensures
            final(self).wf(),
            Self::writes_from(*old(self), src_region, src_offset, dst, len, *final(self), r),
    {
        match self.entry(dst.region_id) {
            Err(e) => return Err(e),
            Ok(entry) => {
                if entry.meta.generation != dst.generation {
                    return Err(TvmError::StaleHandle);
                }
            },
        }
        self.cross_region_copy(src_region, src_offset, dst.region_id, dst.offset, len)
    }

    // -----------------------------------------------------------------------
    // Spilling
    // -----------------------------------------------------------------------

    /// What the first half of a spill does: it decides, and takes the bytes
    /// out of the region when they are to be stored.
    pub open spec fn begins_spill(
        pre: Self,
        id: u16,
        post: Self,
        r: Result<Option<SpillJob>, TvmError>,
    ) -> bool {
        match pre.at(id) {
            None => r == Err::<Option<SpillJob>, TvmError>(TvmError::RegionNotFound(id))
                && Self::same(pre, post),
            Some(e) => match e.spill_step() {
                SpillStep::Refuse(err) => r == Err::<Option<SpillJob>, TvmError>(err)
                    && Self::same(pre, post),
                SpillStep::Done => r == Ok::<Option<SpillJob>, TvmError>(None) && Self::same(
                    pre,
                    post,
                ),
                SpillStep::Store => {
                    &&& r matches Ok(Some(job)) && job.region_id == id && job.generation
                        == e.meta.generation && job.bytes@ == e.memory->0.bytes()
                    &&& Self::only(pre, post, id, e.emptied())
                },
            },
        }
    }

    /// First half of a spill, for callers that talk to the store themselves.
    pub fn spill_begin(&mut self, region_id: u16) -> (r: Result<Option<SpillJob>, TvmError>)
        requires
            old(self).wf(),
        ensures
            final(self).wf(),
            Self::begins_spill(*old(self), region_id, *final(self), r),
    {
        let ghost pre = *self;
        let r = match self.entry_mut(region_id) {
            Err(e) => Err(e),
            Ok(entry) => entry.begin_spill(),
        };
        proof {
            if pre.has(region_id) {
                Self::lemma_only_wf(pre, *self, region_id, self.at(region_id)->0);
                if !(pre.at(region_id)->0.spill_step() is Store) {
                    assert(self.slots() =~= pre.slots());
                }
            } else {
                Self::lemma_same_wf(pre, *self);
            }
        }
        r
    }

    /// What the second half of a spill does with the store's answer: an error
    /// is handed on as it is, success makes the region cold.
    pub open spec fn finishes_spill(
        pre: Self,
        id: u16,
        outcome: Result<(), TvmError>,
        post: Self,
        r: Result<(), TvmError>,
    ) -> bool {
        match outcome {
            Err(err) => r == Err::<(), TvmError>(err) && Self::same(pre, post),
            Ok(_) => match pre.at(id) {
                None => r == Err::<(), TvmError>(TvmError::RegionNotFound(id)) && Self::same(
                    pre,
                    post,
                ),
                Some(e) => r is Ok && Self::leaves_warm(pre, post, id, e.spilled()),
            },
        }
    }

    /// Second half of a spill.
    pub fn spill_finish(&mut self, region_id: u16, outcome: Result<(), TvmError>) -> (r: Result<
        (),
        TvmError,
    >)
        requires
            old(self).wf(),
        ensures
            final(self).wf(),
            Self::finishes_spill(*old(self), region_id, outcome, *final(self), r),
    {
        let ghost pre = *self;
        match outcome {
            Err(e) => return Err(e),
            Ok(_) => {},
        }
        let found = match self.entry_mut(region_id) {
            Err(e) => Err(e),
            Ok(entry) => {
                entry.finish_spill();
                Ok(())
            },
        };
        match found {
            Err(e) => {
                proof {
                    Self::lemma_same_wf(pre, *self);
                }
                Err(e)
            },
            Ok(_) => {
                self.lru_remove(region_id);
                proof {
                    assert(pre.has(region_id));
                    Self::lemma_leaves_warm_wf(
                        pre,
                        *self,
                        region_id,
                        pre.at(region_id)->0.spilled(),
                    );
                }
                Ok(())
            },
        }
    }

    /// What spilling a region does. A region that may not be spilled is
    /// refused and a cold one is left alone, both without asking the store.
    /// Otherwise the store gets exactly the region's bytes, under its id and
    /// generation; if it takes them the region is cold, if not the bytes are gone.
    pub open spec fn spills<B: BackingStore>(
        pre: Self,
        id: u16,
        store_pre: B,
        post: Self,
        store_post: B,
        r: Result<(), TvmError>,
    ) -> bool {
        match pre.at(id) {
            None => {
                &&& r == Err::<(), TvmError>(TvmError::RegionNotFound(id))
                &&& Self::same(pre, post)
                &&& store_post == store_pre
            },
            Some(e) => match e.spill_step() {
                SpillStep::Refuse(err) => {
                    &&& r == Err::<(), TvmError>(err)
                    &&& Self::same(pre, post)
                    &&& store_post == store_pre
                },
                SpillStep::Done => {
                    &&& r is Ok
                    &&& Self::same(pre, post)
                    &&& store_post == store_pre
                },
                SpillStep::Store => {
                    &&& B::spills(
                        store_pre,
                        id,
                        e.meta.generation,
                        e.memory->0.bytes(),
                        store_post,
                        r,
                    )
                    &&& match r {
                        Ok(_) => Self::leaves_warm(pre, post, id, e.emptied().spilled()),
                        Err(_) => Self::only(pre, post, id, e.emptied()),
                    }
                },
            },
        }
    }

    /// Moves a region's bytes to the backing store.
    pub fn spill_region<B: BackingStore>(&mut self, region_id: u16, store: &mut B) -> (r: Result<
        (),
        TvmError,
    >)
        requires
            old(self).wf(),
        ensures
            final(self).wf(),
            Self::spills(*old(self), region_id, *old(store), *final(self), *final(store), r),
    {
        let ghost pre = *self;
        let job = match self.spill_begin(region_id) {
            Err(e) => return Err(e),
            Ok(None) => return Ok(()),
            Ok(Some(job)) => job,
        };
        let ghost mid = *self;
        let outcome = store.spill(job.region_id, job.generation, job.bytes.as_slice());
        let ghost answer = outcome;
        let r = self.spill_finish(region_id, outcome);
        proof {
            let e = pre.at(region_id)->0;
            assert(mid.at(region_id) == Some(e.emptied()));
            if answer is Ok {
                assert(self.slots() =~= pre.slots().update(
                    region_id as int,
                    Some(e.emptied().spilled()),
                ));
            }
            assert(r == answer) by {
                if answer is Ok {
                    assert(r->Ok_0 == answer->Ok_0);
                }
            }
        }
        r
    }

    // -----------------------------------------------------------------------
    // Loading
    // -----------------------------------------------------------------------

    /// First half of a load: what to ask the store for; `None` when the region
    /// is hot already.
    pub fn load_begin(&self, region_id: u16) -> (r: Result<Option<LoadJob>, TvmError>)
        ensures
            match self.at(region_id) {
                None => r == Err::<Option<LoadJob>, TvmError>(TvmError::RegionNotFound(region_id)),
                Some(e) => r == Ok::<Option<LoadJob>, TvmError>(
                    if e.is_loaded() {
                        None
                    } else {
                        Some(LoadJob { region_id: e.meta.id, generation: e.meta.generation })
                    },
                ),
            },
    {
        match self.entry(region_id) {
            Err(e) => Err(e),
            Ok(entry) => Ok(entry.begin_load()),
        }
    }

    /// What the second half of a load does with the store's answer.
    pub open spec fn finishes_load(
        pre: Self,
        id: u16,
        outcome: Result<Vec<u8>, TvmError>,
        post: Self,
        r: Result<(), TvmError>,
    ) -> bool {
        match outcome {
            Err(err) => r == Err::<(), TvmError>(err) && Self::same(pre, post),
            Ok(bytes) => match pre.at(id) {
                None => r == Err::<(), TvmError>(TvmError::RegionNotFound(id)) && Self::same(
                    pre,
                    post,
                ),
                Some(e) => {
                    &&& r is Ok
                    &&& post.has(id)
                    &&& RegionEntry::loaded(e, bytes@, post.at(id)->0)
                    &&& Self::only(pre, post, id, post.at(id)->0)
                },
            },
        }
    }

    /// Second half of a load.
    pub fn load_finish(&mut self, region_id: u16, outcome: Result<Vec<u8>, TvmError>) -> (r: Result<
        (),
        TvmError,
    >)
        requires
            old(self).wf(),
        ensures
            final(self).wf(),
            Self::finishes_load(*old(self), region_id, outcome, *final(self), r),
    {
        let ghost pre = *self;
        let bytes = match outcome {
            Err(e) => return Err(e),
            Ok(bytes) => bytes,
        };
        let r = match self.entry_mut(region_id) {
            Err(e) => Err(e),
            Ok(entry) => {
                entry.finish_load(bytes);
                Ok(())
            },
        };
        proof {
            if pre.has(region_id) {
                Self::lemma_only_wf(pre, *self, region_id, self.at(region_id)->0);
            } else {
                Self::lemma_same_wf(pre, *self);
            }
        }
        r
    }

    /// What loading a region does. A hot region is left alone; otherwise the
    /// store is asked for the region's id and generation, and what it answers
    /// becomes the region's bytes.
    pub open spec fn loads<B: BackingStore>(
        pre: Self,
        id: u16,
        store_pre: B,
        post: Self,
        store_post: B,
        r: Result<(), TvmError>,
    ) -> bool {
        match pre.at(id) {
            None => {
                &&& r == Err::<(), TvmError>(TvmError::RegionNotFound(id))
                &&& Self::same(pre, post)
                &&& store_post == store_pre
            },
            Some(e) => if e.is_loaded() {
                &&& r is Ok
                &&& Self::same(pre, post)
                &&& store_post == store_pre
            } else {
                exists|answer: Result<Vec<u8>, TvmError>| #[trigger]
                    B::loads(store_pre, id, e.meta.generation, store_post, answer)
                        && Self::finishes_load(pre, id, answer, post, r)
            },
        }
    }

    /// Brings a region's bytes back from the backing store.
    pub fn load_region<B: BackingStore>(&mut self, region_id: u16, store: &mut B) -> (r: Result<
        (),
        TvmError,
    >)
        requires
            old(self).wf(),
        ensures
            final(self).wf(),
            Self::loads(*old(self), region_id, *old(store), *final(self), *final(store), r),
    {
        let job = match self.load_begin(region_id) {
            Err(e) => return Err(e),
            Ok(None) => return Ok(()),
            Ok(Some(job)) => job,
        };
        assert(self.has(region_id));
        let outcome = store.load(job.region_id, job.generation);
        self.load_finish(region_id, outcome)
    }

    // -----------------------------------------------------------------------
    // Accesses that load on demand
    // -----------------------------------------------------------------------

    /// The region exists and is cold.
    pub open spec fn is_cold(&self, id: u16) -> bool {
        self.has(id) && self.at(id)->0.meta.residency == Residency::Cold
    }

    /// What a read that loads on demand does: a cold region is loaded, and if that
    /// succeeds read.
    pub open spec fn reads_or_faults<B: BackingStore>(
        pre: Self,
        handle: Handle,
        before: Seq<u8>,
        store_pre: B,
        post: Self,
        after: Seq<u8>,
        store_post: B,
        r: Result<(), TvmError>,
    ) -> bool {
        if pre.is_cold(handle.region_id) {
            exists|mid: Self, loaded: Result<(), TvmError>| #[trigger]
                Self::loads(pre, handle.region_id, store_pre, mid, store_post, loaded)
                    && match loaded {
                    Err(_) => r == loaded && after == before && Self::same(mid, post),
                    Ok(_) => Self::reads(mid, handle, before, post, after, r),
                }
        } else {
            store_post == store_pre && Self::reads(pre, handle, before, post, after, r)
        }
    }

    /// What a write that loads on demand does.
    pub open spec fn writes_or_faults<B: BackingStore>(
        pre: Self,
        handle: Handle,
        data: Seq<u8>,
        store_pre: B,
        post: Self,
        store_post: B,
        r: Result<(), TvmError>,
    ) -> bool {
        if pre.is_cold(handle.region_id) {
            exists|mid: Self, loaded: Result<(), TvmError>| #[trigger]
                Self::loads(pre, handle.region_id, store_pre, mid, store_post, loaded)
                    && match loaded {
                    Err(_) => r == loaded && Self::same(mid, post),
                    Ok(_) => Self::writes(mid, handle, data, post, r),
                }
        } else {
            store_post == store_pre && Self::writes(pre, handle, data, post, r)
        }
    }

    /// Reads through a handle; a cold region is loaded first.
    pub fn read_or_fault<B: BackingStore>(
        &mut self,
        handle: Handle,
        buf: &mut [u8],
        backing: &mut B,
    ) -> (r: Result<(), TvmError>)
        requires
            old(self).wf(),
        ensures
            final(self).wf(),
            final(buf)@.len() == old(buf)@.len(),
            Self::reads_or_faults(
                *old(self),
                handle,
                old(buf)@,
                *old(backing),
                *final(self),
                final(buf)@,
                *final(backing),
                r,
            ),
    {
        let ghost pre = *self;
        let cold = match self.entry(handle.region_id) {
            Err(e) => return Err(e),
            Ok(entry) => entry.meta.residency == Residency::Cold,
        };
        if cold {
            let loaded = self.load_region(handle.region_id, backing);
            let ghost mid = *self;
            let ghost answer = loaded;
            assert(Self::loads(pre, handle.region_id, *old(backing), mid, *backing, answer));
            match loaded {
                Err(e) => return Err(e),
                Ok(_) => {},
            }
            return self.read(handle, buf);
        }
        self.read(handle, buf)
    }

    /// Writes through a handle; a cold region is loaded first.
    pub fn write_or_fault<B: BackingStore>(
        &mut self,
        handle: Handle,
        data: &[u8],
        backing: &mut B,
    ) -> (r: Result<(), TvmError>)
        requires
            old(self).wf(),
        ensures
            final(self).wf(),
            Self::writes_or_faults(
                *old(self),
                handle,
                data@,
                *old(backing),
                *final(self),
                *final(backing),
                r,
            ),
    {
        let ghost pre = *self;
        let cold = match self.entry(handle.region_id) {
            Err(e) => return Err(e),
            Ok(entry) => entry.meta.residency == Residency::Cold,
        };
        if cold {
            let loaded = self.load_region(handle.region_id, backing);
            let ghost mid = *self;
            let ghost answer = loaded;
            assert(Self::loads(pre, handle.region_id, *old(backing), mid, *backing, answer));
            match loaded {
                Err(e) => return Err(e),
                Ok(_) => {},
            }
            return self.write(handle, data);
        }
        self.write(handle, data)
    }

    // -----------------------------------------------------------------------
    // Promotion, demotion, eviction
    // -----------------------------------------------------------------------

    /// A warm region made hot.
    pub open spec fn heated(e: RegionEntry<M>) -> RegionEntry<M> {
        RegionEntry {
            meta: Region { residency: Residency::Hot, ..e.meta },
            metrics: e.metrics.after_promotion(),
            ..e
        }
    }

    /// A hot region made warm.
    pub open spec fn cooled(e: RegionEntry<M>) -> RegionEntry<M> {
        RegionEntry {
            meta: Region { residency: Residency::Warm, ..e.meta },
            metrics: e.metrics.after_demotion(),
            ..e
        }
    }

    /// What moving a region to the hot tier does.
    pub open spec fn promotes<B: BackingStore>(
        pre: Self,
        id: u16,
        store_pre: B,
        post: Self,
        store_post: B,
        r: Result<(), TvmError>,
    ) -> bool {
        match pre.at(id) {
            None => {
                &&& r == Err::<(), TvmError>(TvmError::RegionNotFound(id))
                &&& Self::same(pre, post)
                &&& store_post == store_pre
            },
            Some(e) => match e.meta.residency {
                Residency::Hot => {
                    &&& r is Ok
                    &&& Self::same(pre, post)
                    &&& store_post == store_pre
                },
                Residency::Warm => {
                    &&& r is Ok
                    &&& Self::leaves_warm(pre, post, id, Self::heated(e))
                    &&& store_post == store_pre
                },
                Residency::Cold => Self::loads(pre, id, store_pre, post, store_post, r),
                Residency::External => {
                    &&& r == Err::<(), TvmError>(TvmError::NotResident)
                    &&& Self::same(pre, post)
                    &&& store_post == store_pre
                },
            },
        }
    }

    /// Moves a region to the hot tier: a warm one leaves the warm list, a cold
    /// one is loaded, an external one is refused.
    pub fn promote_region<B: BackingStore>(&mut self, region_id: u16, backing: &mut B) -> (r: Result<
        (),
        TvmError,
    >)
        requires
            old(self).wf(),
        ensures
            final(self).wf(),
            Self::promotes(*old(self), region_id, *old(backing), *final(self), *final(backing), r),
    {
        let ghost pre = *self;
        let current: Residency = match self.entry(region_id) {
            Err(e) => return Err(e),
            Ok(entry) => entry.meta.residency,
        };
        match current {
            Residency::Hot => Ok(()),
            Residency::Warm => {
                match self.entry_mut(region_id) {
                    Err(_) => {},
                    Ok(entry) => {
                        entry.meta.residency = Residency::Hot;
                        entry.metrics.record_promotion();
                    },
                }
                self.lru_remove(region_id);
                proof {
                    Self::lemma_leaves_warm_wf(
                        pre,
                        *self,
                        region_id,
                        Self::heated(pre.at(region_id)->0),
                    );
                }
                Ok(())
            },
            Residency::Cold => self.load_region(region_id, backing),
            Residency::External => Err(TvmError::NotResident),
        }
    }

    /// What moving a region one tier down does: hot becomes warm, at the front
    /// of the warm list; warm is spilled. Pinned regions, regions that may not
    /// be spilled, and regions whose bytes are not here are refused.
    pub open spec fn demotes<B: BackingStore>(
        pre: Self,
        id: u16,
        store_pre: B,
        post: Self,
        store_post: B,
        r: Result<(), TvmError>,
    ) -> bool {
        let refused = |e: TvmError|
            r == Err::<(), TvmError>(e) && Self::same(pre, post) && store_post == store_pre;
        match pre.at(id) {
            None => refused(TvmError::RegionNotFound(id)),
            Some(e) => if e.meta.pinned {
                refused(TvmError::Pinned)
            } else if !e.meta.spillable {
                refused(TvmError::PolicyViolation)
            } else {
                match e.meta.residency {
                    Residency::Hot => {
                        &&& r is Ok
                        &&& post.slots() == pre.slots().update(id as int, Some(Self::cooled(e)))
                        &&& post.lru() == seq![id] + without(pre.lru(), id)
                        &&& post.context() == pre.context()
                        &&& store_post == store_pre
                    },
                    Residency::Warm => Self::spills(pre, id, store_pre, post, store_post, r),
                    Residency::Cold => refused(TvmError::NotResident),
                    Residency::External => refused(TvmError::NotResident),
                }
            },
        }
    }

    /// Moves a region one tier towards cold.
    pub fn demote_region<B: BackingStore>(&mut self, region_id: u16, backing: &mut B) -> (r: Result<
        (),
        TvmError,
    >)
        requires
            old(self).wf(),
        ensures
            final(self).wf(),
            Self::demotes(*old(self), region_id, *old(backing), *final(self), *final(backing), r),
    {
        let ghost pre = *self;
        let current: Residency = match self.entry(region_id) {
            Err(e) => return Err(e),
            Ok(entry) => {
                if entry.meta.pinned {
                    return Err(TvmError::Pinned);
                }
                if !entry.meta.spillable {
                    return Err(TvmError::PolicyViolation);
                }
                entry.meta.residency
            },
        };
        match current {
            Residency::Hot => {
                match self.entry_mut(region_id) {
                    Err(_) => {},
                    Ok(entry) => {
                        entry.meta.residency = Residency::Warm;
                        entry.metrics.record_demotion();
                    },
                }
                self.lru_push_front(region_id);
                proof {
                    Self::lemma_joins_warm_wf(pre, *self, region_id);
                }
                Ok(())
            },
            Residency::Warm => self.spill_region(region_id, backing),
            Residency::Cold => Err(TvmError::NotResident),
            Residency::External => Err(TvmError::NotResident),
        }
    }

    proof fn lemma_joins_warm_wf(pre: Self, post: Self, id: u16)
        requires
            pre.wf(),
            pre.has(id),
            post.slots() == pre.slots().update(id as int, Some(Self::cooled(pre.at(id)->0))),
            post.lru() == seq![id] + without(pre.lru(), id),
        ensures
            post.wf(),
    {
        lemma_without(pre.lru(), id);
        let rest = without(pre.lru(), id);
        let all = post.lru();
        assert(all[0] == id);
        assert forall|x: u16| #[trigger] all.contains(x) <==> x == id || rest.contains(x) by {
            if rest.contains(x) {
                let j = choose|j: int| 0 <= j < rest.len() && rest[j] == x;
                assert(all[j + 1] == x);
            }
            if all.contains(x) && x != id {
                let j = choose|j: int| 0 <= j < all.len() && all[j] == x;
                assert(rest[j - 1] == x);
            }
        }
        assert(all.no_duplicates()) by {
            assert forall|a: int, b: int|
                0 <= a < all.len() && 0 <= b < all.len() && a != b implies all[a] != all[b] by {
                if a > 0 && b > 0 {
                    assert(rest[a - 1] != rest[b - 1]);
                } else if a > 0 {
                    assert(rest.contains(rest[a - 1]));
                } else {
                    assert(rest.contains(rest[b - 1]));
                }
            }
        }
        assert forall|k: u16| #[trigger] post.has(k) implies post.at(k)->0.wf()
            && post.at(k)->0.meta.id == k by {
            assert(pre.has(k));
        }
        assert forall|k: u16| #[trigger] post.lru().contains(k) implies post.has(k) by {
            if k != id {
                assert(pre.lru().contains(k));
                assert(pre.has(k));
            }
        }
    }

    /// A region on the warm list that can be evicted: warm and not pinned.
    pub open spec fn evictable(&self, id: u16) -> bool {
        self.has(id) && !self.at(id)->0.meta.pinned && self.at(id)->0.meta.residency
            == Residency::Warm
    }

    /// The index of the oldest evictable region among the first `n` of the warm list.
    pub open spec fn oldest_evictable(&self, n: int) -> Option<int>
        decreases n,
    {
        if n <= 0 {
            None
        } else if self.evictable(self.lru()[n - 1]) {
            Some(n - 1)
        } else {
            self.oldest_evictable(n - 1)
        }
    }

    /// The warm list is cut down to its first `n` regions; nothing else changed.
    pub open spec fn lru_cut(pre: Self, post: Self, n: int) -> bool {
        &&& post.slots() == pre.slots()
        &&& post.lru() == pre.lru().subrange(0, n)
        &&& post.context() == pre.context()
    }

    /// What evicting the region at index `i` of the warm list does: everything
    /// behind it leaves the list, then it is spilled.
    pub open spec fn evicts<B: BackingStore>(
        pre: Self,
        i: int,
        store_pre: B,
        post: Self,
        store_post: B,
        r: Result<Option<u16>, TvmError>,
    ) -> bool {
        exists|mid: Self, spilled: Result<(), TvmError>|
            Self::lru_cut(pre, mid, i + 1) && #[trigger] Self::spills(
                mid,
                pre.lru()[i],
                store_pre,
                post,
                store_post,
                spilled,
            ) && r == (match spilled {
                Ok(_) => Ok::<Option<u16>, TvmError>(Some(pre.lru()[i])),
                Err(e) => Err(e),
            })
    }

    /// Evicts the oldest warm region by spilling it. Regions behind it on the
    /// warm list that are pinned or no longer warm are taken off the list.
    pub fn evict_warm_region<B: BackingStore>(&mut self, backing: &mut B) -> (r: Result<
        Option<u16>,
        TvmError,
    >)
        requires
            old(self).wf(),
        ensures
            final(self).wf(),
            match old(self).oldest_evictable(old(self).lru().len() as int) {
                None => {
                    &&& r == Ok::<Option<u16>, TvmError>(None)
                    &&& Self::lru_cut(*old(self), *final(self), 0)
                    &&& *final(backing) == *old(backing)
                },
                Some(i) => Self::evicts(
                    *old(self),
                    i,
                    *old(backing),
                    *final(self),
                    *final(backing),
                    r,
                ),
            },
    {
        let ghost pre = *self;
        let ghost list = self.lru();
        let mut n: usize = self.warm_count();
        assert(list.subrange(0, n as int) =~= list);
        while n > 0
            invariant
                self.wf(),
                pre == *old(self),
                n <= list.len(),
                list == pre.lru(),
                Self::lru_cut(pre, *self, n as int),
                *backing == *old(backing),
                pre.oldest_evictable(list.len() as int) == pre.oldest_evictable(n as int),
            decreases n,
        {
            let id: u16 = self.warm_at(n - 1);
            assert(self.lru().contains(id)) by {
                assert(self.lru()[n - 1] == id);
            }
            assert(self.has(id));
            let evictable = match self.entry(id) {
                Err(_) => false,
                Ok(entry) => !entry.meta.pinned && entry.meta.residency == Residency::Warm,
            };
            assert(self.at(id) == pre.at(id));
            if evictable {
                let ghost mid = *self;
                let spilled = self.spill_region(id, backing);
                let ghost answer = spilled;
                assert(id == old(self).lru()[n - 1]);
                assert(old(self).oldest_evictable(old(self).lru().len() as int) == Some(n - 1));
                assert(Self::lru_cut(*old(self), mid, n - 1 + 1));
                assert(Self::spills(mid, id, *old(backing), *self, *backing, answer));
                let r = match spilled {
                    Err(e) => Err(e),
                    Ok(_) => Ok(Some(id)),
                };
                assert(Self::evicts(*old(self), n - 1, *old(backing), *self, *backing, r));
                return r;
            }
            let ghost mid = *self;
            self.lru_remove(id);
            proof {
                lemma_without(mid.lru(), id);
                lemma_without_last(mid.lru());
                assert(self.lru() =~= list.subrange(0, n - 1));
                Self::lemma_drop_stale_wf(mid, *self, id);
            }
            n = n - 1;
        }
        Ok(None)
    }

    proof fn lemma_drop_stale_wf(pre: Self, post: Self, id: u16)
        requires
            pre.wf(),
            post.slots() == pre.slots(),
            post.lru() == without(pre.lru(), id),
        ensures
            post.wf(),
    {
        lemma_without(pre.lru(), id);
        assert forall|k: u16| #[trigger] post.has(k) implies post.at(k)->0.wf()
            && post.at(k)->0.meta.id == k by {
            assert(pre.has(k));
        }
        assert forall|k: u16| #[trigger] post.lru().contains(k) implies post.has(k) by {
            assert(pre.lru().contains(k));
            assert(pre.has(k));
        }
    }

    // -----------------------------------------------------------------------
    // Compaction
    // -----------------------------------------------------------------------

    /// What compacting a region does.
    pub open spec fn compacts(
        pre: Self,
        id: u16,
        post: Self,
        r: Result<HandleRemap, TvmError>,
    ) -> bool {
        match pre.at(id) {
            None => r == Err::<HandleRemap, TvmError>(TvmError::RegionNotFound(id)) && Self::same(
                pre,
                post,
            ),
            Some(e) => match e.compact_refusal() {
                Some(err) => r == Err::<HandleRemap, TvmError>(err) && Self::same(pre, post),
                None => {
                    &&& r is Ok
                    &&& post.has(id)
                    &&& RegionEntry::compacted(e, post.at(id)->0, r->Ok_0)
                    &&& Self::only(pre, post, id, post.at(id)->0)
                },
            },
        }
    }

    /// Packs the live allocations of a region towards offset zero and advances
    /// its generation. The result rewrites handles of the old generation.
    pub fn compact_region(&mut self, region_id: u16) -> (r: Result<HandleRemap, TvmError>)
        requires
            old(self).wf(),
        ensures
            final(self).wf(),
            Self::compacts(*old(self), region_id, *final(self), r),
    {
        let ghost pre = *self;
        let r = match self.entry_mut(region_id) {
            Err(e) => Err(e),
            Ok(entry) => entry.compact(),
        };
        proof {
            if pre.has(region_id) {
                Self::lemma_only_wf(pre, *self, region_id, self.at(region_id)->0);
                if r is Err {
                    assert(self.slots() =~= pre.slots());
                }
            } else {
                Self::lemma_same_wf(pre, *self);
            }
        }
        r
    }

    // -----------------------------------------------------------------------
    // The external tier
    // -----------------------------------------------------------------------

    /// A region whose bytes live elsewhere.
    pub open spec fn externalised(e: RegionEntry<M>) -> RegionEntry<M> {
        RegionEntry {
            meta: Region { residency: Residency::External, ..e.meta },
            memory: None,
            ..e
        }
    }

    /// What dropping a region's bytes does; a pinned region is refused.
    pub open spec fn leaves(pre: Self, id: u16, post: Self, r: Result<(), TvmError>) -> bool {
        match pre.at(id) {
            None => r == Err::<(), TvmError>(TvmError::RegionNotFound(id)) && Self::same(pre, post),
            Some(e) => if e.meta.pinned {
                r == Err::<(), TvmError>(TvmError::Pinned) && Self::same(pre, post)
            } else {
                r is Ok && Self::leaves_warm(pre, post, id, Self::externalised(e))
            },
        }
    }

    /// Drops a region's bytes; the next access has to load them from outside.
    pub fn mark_external(&mut self, region_id: u16) -> (r: Result<(), TvmError>)
        requires
            old(self).wf(),
        ensures
            final(self).wf(),
            Self::leaves(*old(self), region_id, *final(self), r),
    {
        let ghost pre = *self;
        match self.entry(region_id) {
            Err(e) => return Err(e),
            Ok(entry) => {
                if entry.meta.pinned {
                    return Err(TvmError::Pinned);
                }
            },
        }
        match self.entry_mut(region_id) {
            Err(_) => {},
            Ok(entry) => {
                entry.memory = None;
                entry.meta.residency = Residency::External;
            },
        }
        self.lru_remove(region_id);
        proof {
            Self::lemma_leaves_warm_wf(
                pre,
                *self,
                region_id,
                Self::externalised(pre.at(region_id)->0),
            );
        }
        Ok(())
    }

    /// What loading an external region does with what the loader answers.
    pub open spec fn loads_external<F: Fn(u16, u16) -> Result<Vec<u8>, TvmError>>(
        pre: Self,
        id: u16,
        loader: F,
        post: Self,
        r: Result<(), TvmError>,
    ) -> bool {
        match pre.at(id) {
            None => r == Err::<(), TvmError>(TvmError::RegionNotFound(id)) && Self::same(pre, post),
            Some(e) => if e.meta.residency != Residency::External {
                r is Ok && Self::same(pre, post)
            } else {
                exists|answer: Result<Vec<u8>, TvmError>| #[trigger]
                    call_ensures(loader, (id, e.meta.generation), answer) && Self::finishes_load(
                        pre,
                        id,
                        answer,
                        post,
                        r,
                    )
            },
        }
    }

    /// Loads an external region through `loader`, which is handed the region's
    /// id and generation. A region of another tier is left alone.
    pub fn load_external_region<F: Fn(u16, u16) -> Result<Vec<u8>, TvmError>>(
        &mut self,
        region_id: u16,
        loader: &F,
    ) -> (r: Result<(), TvmError>)
        requires
            old(self).wf(),
            forall|id: u16, generation: u16| #[trigger] call_requires(*loader, (id, generation)),
        ensures
            final(self).wf(),
            Self::loads_external(*old(self), region_id, *loader, *final(self), r),
    {
        let generation: u16 = match self.entry(region_id) {
            Err(e) => return Err(e),
            Ok(entry) => {
                if entry.meta.residency != Residency::External {
                    return Ok(());
                }
                entry.meta.generation
            },
        };
        let answer = loader(region_id, generation);
        self.load_finish(region_id, answer)
    }

    // -----------------------------------------------------------------------
    // Snapshots
    // -----------------------------------------------------------------------

    /// What a snapshot holds: the bytes of a region that is resident.
    pub open spec fn snapshots(&self, id: u16, r: Result<Vec<u8>, TvmError>) -> bool {
        match self.at(id) {
            None => r == Err::<Vec<u8>, TvmError>(TvmError::RegionNotFound(id)),
            Some(e) => match e.memory {
                None => r == Err::<Vec<u8>, TvmError>(TvmError::NotResident),
                Some(m) => r matches Ok(bytes) && bytes@ == m.bytes(),
            },
        }
    }

    /// The bytes of a resident region, for a snapshot file.
    pub fn snapshot_region(&self, region_id: u16) -> (r: Result<Vec<u8>, TvmError>)
        ensures
            self.snapshots(region_id, r),
    {
        match self.entry(region_id) {
            Err(e) => Err(e),
            Ok(entry) => match &entry.memory {
                None => Err(TvmError::NotResident),
                Some(m) => Ok(m.snapshot()),
            },
        }
    }

    /// What restoring a snapshot does: the region holds the bytes and is hot.
    pub open spec fn restored(pre: RegionEntry<M>, bytes: Seq<u8>, post: RegionEntry<M>) -> bool {
        &&& post.meta == (Region { residency: Residency::Hot, ..pre.meta })
        &&& post.memory is Some
        &&& post.memory->0.bytes() == bytes
        &&& post.metrics == pre.metrics
        &&& post.allocator == pre.allocator
    }

    /// What taking a snapshot in does.
    pub open spec fn restores(
        pre: Self,
        id: u16,
        bytes: Seq<u8>,
        post: Self,
        r: Result<(), TvmError>,
    ) -> bool {
        match pre.at(id) {
            None => r == Err::<(), TvmError>(TvmError::RegionNotFound(id)) && Self::same(pre, post),
            Some(e) => if counted_len(bytes.len()) > e.meta.capacity {
                r == Err::<(), TvmError>(TvmError::OutOfBounds) && Self::same(pre, post)
            } else {
                &&& r is Ok
                &&& post.has(id)
                &&& Self::restored(e, bytes, post.at(id)->0)
                &&& Self::only(pre, post, id, post.at(id)->0)
            },
        }
    }

    /// Replaces a region's contents by a snapshot, which must not be larger
    /// than the region's capacity.
    pub fn restore_region(&mut self, region_id: u16, bytes: Vec<u8>) -> (r: Result<(), TvmError>)
        requires
            old(self).wf(),
        ensures
            final(self).wf(),
            Self::restores(*old(self), region_id, bytes@, *final(self), r),
    {
        let ghost pre = *self;
        match self.entry(region_id) {
            Err(e) => return Err(e),
            Ok(entry) => {
                if count_len(bytes.len()) > entry.meta.capacity {
                    return Err(TvmError::OutOfBounds);
                }
            },
        }
        match self.entry_mut(region_id) {
            Err(_) => {},
            Ok(entry) => {
                entry.memory = Some(M::restore(bytes));
                entry.meta.residency = Residency::Hot;
            },
        }
        proof {
            Self::lemma_only_wf(pre, *self, region_id, self.at(region_id)->0);
        }
        Ok(())
    }
}

/// Taking the last id of a list without repetitions out drops the last place.
proof fn lemma_without_last(s: Seq<u16>)
    requires
        s.no_duplicates(),
        s.len() > 0,
    ensures
        without(s, s.last()) == s.drop_last(),
{
    s.index_of_first_ensures(s.last());
    assert(s.contains(s.last())) by {
        assert(s[s.len() - 1] == s.last());
    }
    let i = s.index_of_first(s.last())->0;
    assert(i == s.len() - 1);
    assert(s.remove(i) =~= s.drop_last());
}

} // verus!
