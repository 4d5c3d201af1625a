//! A guest's memory as one value: the directory, the way to the pools, and a
//! cache of the last region that was looked up.
use vstd::prelude::*;
use crate::allocator::AllocatorKind;
use crate::error::TvmError;
use crate::facade::{access_error, access_refused, TvmFacade};
use crate::handle::Handle;
use crate::region::{Region, RegionKind};
use crate::remap::HandleRemap;
use crate::memory_region::overwritten;
use super::directory::{
    copies_faithfully, law_guest_compaction_keeps_contents, pools_ok, GuestDirectory, GuestRegion, Pool,
};
use super::dispatcher::Dispatch;

verus! {

/// The last region that was looked up. Id zero means none.
#[derive(Clone, Copy, Debug, PartialEq, Eq, Structural)]
pub struct LastRegion {
    region_id: u16,
    generation: u16,
    pool_index: u32,
    base_offset: u32,
    capacity: u32,
}

/// A guest's regions over its memory pools.
pub struct GuestTvm<D> {
    directory: GuestDirectory,
    pub default_allocator: AllocatorKind,
    dispatch: D,
    last: LastRegion,
}

impl<D: Dispatch> GuestTvm<D> {
    /// The regions and pools.
    pub closed spec fn dir(&self) -> GuestDirectory {
        self.directory
    }

    /// The way to the pools.
    pub closed spec fn way(&self) -> D {
        self.dispatch
    }

    /// The allocator that new regions get.
    pub closed spec fn kind(&self) -> AllocatorKind {
        self.default_allocator
    }

    /// What is remembered of the last region is still true.
    closed spec fn memory_holds(&self) -> bool {
        self.last.region_id != 0 ==> {
            let e = self.directory.at(self.last.region_id)->0;
            &&& self.directory.has(self.last.region_id)
            &&& e.meta.generation == self.last.generation
            &&& e.pool_index == self.last.pool_index
            &&& e.base_offset == self.last.base_offset
            &&& e.meta.capacity == self.last.capacity
        }
    }

    pub closed spec fn wf(&self) -> bool {
        &&& self.directory.wf()
        &&& self.dispatch.ready()
        &&& self.memory_holds()
    }

    /// Nothing but the directory may have changed.
    pub open spec fn keeps_rest(pre: Self, post: Self) -> bool {
        post.way() == pre.way() && post.kind() == pre.kind()
    }

    /// A well-formed value has a well-formed directory and can reach the pools.
    pub proof fn lemma_wf(self)
        requires
            self.wf(),
        ensures
            self.dir().wf(),
            self.way().ready(),
    {
    }

    /// A guest over the given pools whose regions use the bump allocator.
    pub fn new(pools: Vec<Pool>, dispatch: D) -> (r: Self)
        requires
            pools_ok(pools@),
            dispatch.ready(),
        ensures
            r.wf(),
            r.dir().pool_list() == pools@,
            r.dir().slot_list() == seq![None::<GuestRegion>],
            r.dir().hot_cursor() == 0 && r.dir().warm_cursor() == 0,
            r.way() == dispatch,
            r.kind() == AllocatorKind::Bump,
    {
        Self::with_default_allocator(pools, dispatch, AllocatorKind::Bump)
    }

    /// A guest over the given pools whose regions use the given allocator.
    pub fn with_default_allocator(
        pools: Vec<Pool>,
        dispatch: D,
        default_allocator: AllocatorKind,
    ) -> (r: Self)
        requires
            pools_ok(pools@),
            dispatch.ready(),
        ensures
            r.wf(),
            r.dir().pool_list() == pools@,
            r.dir().slot_list() == seq![None::<GuestRegion>],
            r.dir().hot_cursor() == 0 && r.dir().warm_cursor() == 0,
            r.way() == dispatch,
            r.kind() == default_allocator,
    {
        GuestTvm {
            directory: GuestDirectory::new(pools),
            default_allocator,
            dispatch,
            last: LastRegion {
                region_id: 0,
                generation: 0,
                pool_index: 0,
                base_offset: 0,
                capacity: 0,
            },
        }
    }

    pub fn directory(&self) -> (r: &GuestDirectory)
        ensures
            *r == self.dir(),
    {
        &self.directory
    }

    /// The directory, for change. What is remembered of the last region is
    /// forgotten, since the caller may change it.
    pub fn directory_mut(&mut self) -> (r: &mut GuestDirectory)
        requires
            old(self).wf(),
        ensures
            *r == old(self).dir(),
            final(self).dir() == *final(r),
            Self::keeps_rest(*old(self), *final(self)),
            final(r).wf() ==> final(self).wf(),
    {
        self.last.region_id = 0;
        &mut self.directory
    }

    /// Packs the live allocations of a region towards its start. Handles of
    /// the old generation have to be migrated with the result.
    pub fn compact_region(&mut self, region_id: u16) -> (r: Result<HandleRemap, TvmError>)
        requires
            old(self).wf(),
        ensures
            final(self).wf(),
            final(self).kind() == old(self).kind(),
            GuestDirectory::compacts(
                old(self).dir(),
                region_id,
                old(self).way(),
                final(self).dir(),
                final(self).way(),
                r,
            ),
    {
        if self.last.region_id == region_id {
            self.last.region_id = 0;
        }
        self.directory.compact_region(region_id, &mut self.dispatch)
    }

    /// What an access through a handle comes to before the pools are asked:
    /// the place, if the handle is current and the bytes lie inside its region.
    pub open spec fn access(&self, h: Handle, len: nat) -> Result<(u32, u32), TvmError> {
        match self.dir().resolved(h) {
            Err(e) => Err(e),
            Ok(place) => if h.offset + len <= self.dir().at(h.region_id)->0.meta.capacity {
                Ok(place)
            } else {
                Err(TvmError::OutOfBounds)
            },
        }
    }

    /// The accesses without a place are those that cannot be served.
    pub proof fn lemma_access_error(self, h: Handle, len: nat)
        requires
            self.wf(),
        ensures
            access_refused(self.info(h.region_id), h, len) <==> self.access(h, len) is Err,
            self.access(h, len) matches Err(e) ==> access_error(
                self.info(h.region_id),
                h,
                len,
                e,
            ),
    {
        if self.dir().at(h.region_id) is Some {
            assert(self.dir().has(h.region_id));
        }
    }

    /// What a read does: the pools are asked for the bytes of an access that
    /// has a place, and left alone, with the buffer, by one that has none.
    pub open spec fn reads_at(
        pre: Self,
        h: Handle,
        before: Seq<u8>,
        post: Self,
        after: Seq<u8>,
        r: Result<(), TvmError>,
    ) -> bool {
        &&& post.dir() == pre.dir()
        &&& post.kind() == pre.kind()
        &&& match pre.access(h, before.len()) {
            Err(e) => r == Err::<(), TvmError>(e) && after == before && post.way() == pre.way(),
            Ok((pool, offset)) => D::reads(
                pre.way(),
                pool,
                offset,
                before,
                post.way(),
                after,
                r,
            ),
        }
    }

    /// What a write does: the pools are handed the bytes of an access that has
    /// a place, and left alone by one that has none.
    pub open spec fn writes_at(
        pre: Self,
        h: Handle,
        data: Seq<u8>,
        post: Self,
        r: Result<(), TvmError>,
    ) -> bool {
        &&& post.dir() == pre.dir()
        &&& post.kind() == pre.kind()
        &&& match pre.access(h, data.len()) {
            Err(e) => r == Err::<(), TvmError>(e) && post.way() == pre.way(),
            Ok((pool, offset)) => D::writes(pre.way(), pool, offset, data, post.way(), r),
        }
    }

    /// Finds the place of an access. The last region is remembered, so that a
    /// run of accesses to one region looks it up once.
    fn cached_resolve(&mut self, handle: Handle, len: usize) -> (r: Result<(u32, u32), TvmError>)
        requires
            old(self).wf(),
        ensures
            final(self).wf(),
            final(self).dir() == old(self).dir(),
            Self::keeps_rest(*old(self), *final(self)),
            r == old(self).access(handle, len as nat),
    {
        if handle.region_id == 0 || handle.region_id != self.last.region_id || handle.generation
            != self.last.generation {
            let place = match self.directory.resolve(handle) {
                Err(e) => return Err(e),
                Ok(p) => p,
            };
            let capacity: u32 = match self.directory.region_info(handle.region_id) {
                Err(e) => return Err(e),
                Ok(m) => m.capacity,
            };
            self.last = LastRegion {
                region_id: handle.region_id,
                generation: handle.generation,
                pool_index: place.0,
                base_offset: place.1 - handle.offset,
                capacity,
            };
        }
        match self.last.base_offset.checked_add(handle.offset) {
            None => Err(TvmError::OutOfBounds),
            Some(offset) => if len as u64 > self.last.capacity as u64 || handle.offset
                > self.last.capacity - len as u32 {
                Err(TvmError::OutOfBounds)
            } else {
                Ok((self.last.pool_index, offset))
            },
        }
    }
}

impl<D: Dispatch> TvmFacade for GuestTvm<D> {
    open spec fn usable(&self) -> bool {
        self.wf()
    }

    open spec fn info(&self, region: u16) -> Option<Region> {
        match self.dir().at(region) {
            Some(e) => Some(e.meta),
            None => None,
        }
    }

    fn create_region(&mut self, kind: RegionKind, capacity: u32) -> (r: Result<u16, TvmError>)
        ensures
            Self::keeps_rest(*old(self), *final(self)),
            GuestDirectory::creates(
                old(self).dir(),
                kind,
                capacity,
                old(self).kind(),
                final(self).dir(),
                r,
            ),
            r is Err ==> *final(self) == *old(self),
    {
        let ghost pre = *self;
        let r = self.directory.create_region(kind, capacity, self.default_allocator);
        proof {
            if r is Ok && self.last.region_id != 0 {
                let k = self.last.region_id;
                assert(pre.directory.has(k));
                assert(self.directory.slot_list().drop_last()[k as int]
                    == pre.directory.slot_list()[k as int]);
            }
        }
        r
    }

    fn allocate(&mut self, region: u16, size: u32) -> (r: Result<Handle, TvmError>)
        ensures
            Self::keeps_rest(*old(self), *final(self)),
            GuestDirectory::allocates(old(self).dir(), region, size, final(self).dir(), r),
    {
        let ghost pre = *self;
        let r = self.directory.allocate(region, size);
        proof {
            if pre.directory.has(region) && r is Ok {
                let e = pre.directory.at(region)->0;
                let p = self.directory.at(region)->0;
                assert(self.directory.has(region));
                e.allocator.law_allocation_is_taken(size, 1, p.allocator, r->Ok_0.offset);
                p.allocator.law_used_within_capacity();
            }
        }
        r
    }

    fn dealloc(&mut self, handle: Handle) -> (r: Result<(), TvmError>)
        ensures
            Self::keeps_rest(*old(self), *final(self)),
            GuestDirectory::deallocates(old(self).dir(), handle, final(self).dir(), r),
    {
        let ghost pre = *self;
        let r = self.directory.dealloc(handle);
        proof {
            if pre.directory.has(handle.region_id) {
                assert(self.directory.has(handle.region_id));
            }
        }
        r
    }

    fn read(&mut self, handle: Handle, buf: &mut [u8]) -> (r: Result<(), TvmError>)
        ensures
            Self::reads_at(*old(self), handle, old(buf)@, *final(self), final(buf)@, r),
    {
        proof {
            self.lemma_access_error(handle, buf@.len());
        }
        let (pool, offset): (u32, u32) = match self.cached_resolve(handle, buf.len()) {
            Err(e) => return Err(e),
            Ok(p) => p,
        };
        self.dispatch.read_bytes(pool, offset, buf)
    }

    fn write(&mut self, handle: Handle, data: &[u8]) -> (r: Result<(), TvmError>)
        ensures
            Self::writes_at(*old(self), handle, data@, *final(self), r),
    {
        proof {
            self.lemma_access_error(handle, data@.len());
        }
        let (pool, offset): (u32, u32) = match self.cached_resolve(handle, data.len()) {
            Err(e) => return Err(e),
            Ok(p) => p,
        };
        self.dispatch.write_bytes(pool, offset, data)
    }

    fn pin(&mut self, region: u16) -> (r: Result<(), TvmError>)
        ensures
            Self::keeps_rest(*old(self), *final(self)),
            GuestDirectory::pins(old(self).dir(), region, final(self).dir(), r),
    {
        self.directory.pin(region)
    }

    fn unpin(&mut self, region: u16) -> (r: Result<(), TvmError>)
        ensures
            Self::keeps_rest(*old(self), *final(self)),
            r == Ok::<(), TvmError>(()),
            GuestDirectory::unpins(old(self).dir(), region, final(self).dir()),
    {
        self.directory.unpin(region);
        Ok(())
    }

    fn region_info(&self, region: u16) -> (r: Result<Region, TvmError>)
        ensures
            r == (match self.dir().at(region) {
                Some(e) => Ok::<Region, TvmError>(e.meta),
                None => Err(TvmError::RegionNotFound(region)),
            }),
    {
        match self.directory.region_info(region) {
            Ok(m) => Ok(*m),
            Err(e) => Err(e),
        }
    }
}

/// An access that reaches the pools stays inside its own region: the place and
/// every byte behind it, up to the length, lie between the region's start and its end.
pub proof fn law_access_stays_in_region<D: Dispatch>(tvm: GuestTvm<D>, h: Handle, len: nat)
    requires
        tvm.wf(),
        tvm.access(h, len) is Ok,
    ensures
        ({
            let (pool, offset) = tvm.access(h, len)->Ok_0;
            let e = tvm.dir().at(h.region_id)->0;
            &&& pool == e.pool_index
            &&& pool < tvm.dir().pool_list().len()
            &&& e.base_offset <= offset
            &&& offset + len <= e.base_offset + e.meta.capacity
            &&& offset + len <= tvm.dir().pool_list()[pool as int].capacity
        }),
{
    tvm.lemma_wf();
    assert(tvm.dir().has(h.region_id));
}

/// A dispatch that behaves as memory: `mem` tells what a pool holds. An access
/// inside a pool succeeds; a read fills the buffer with the bytes of its range
/// and changes nothing; a write changes the bytes of its range and no other.
pub open spec fn behaves_as_memory<D: Dispatch>(mem: spec_fn(D, u32) -> Seq<u8>) -> bool {
    &&& forall|
        d0: D,
        pool: u32,
        offset: u32,
        before: Seq<u8>,
        d1: D,
        after: Seq<u8>,
        r: Result<(), TvmError>,
    | #[trigger]
        D::reads(d0, pool, offset, before, d1, after, r) && offset + before.len() <= mem(
            d0,
            pool,
        ).len() ==> {
            &&& r == Ok::<(), TvmError>(())
            &&& after == mem(d0, pool).subrange(offset as int, offset + before.len())
            &&& forall|p: u32| #[trigger] mem(d1, p) == mem(d0, p)
        }
    &&& forall|d0: D, pool: u32, offset: u32, data: Seq<u8>, d1: D, r: Result<(), TvmError>|
        #[trigger]
        D::writes(d0, pool, offset, data, d1, r) && offset + data.len() <= mem(d0, pool).len()
            ==> {
            &&& r == Ok::<(), TvmError>(())
            &&& mem(d1, pool) == overwritten(mem(d0, pool), offset as int, data)
            &&& forall|p: u32| p != pool ==> #[trigger] mem(d1, p) == mem(d0, p)
        }
    &&& copies_faithfully(mem)
}

/// Every pool is as long as the guest takes it to be.
pub open spec fn pools_backed<D: Dispatch>(
    tvm: GuestTvm<D>,
    mem: spec_fn(D, u32) -> Seq<u8>,
) -> bool {
    forall|p: u32|
        p < tvm.dir().pool_list().len() ==> tvm.dir().pool_list()[p as int].capacity <= (
        #[trigger] mem(tvm.way(), p)).len()
}

/// A read gives back what was written: over a dispatch that behaves as memory,
/// a write through a current handle that stays inside its region succeeds, and
/// a read of as many bytes through the same handle then hands out those bytes.
pub proof fn law_guest_read_gives_back_write<D: Dispatch>(
    t0: GuestTvm<D>,
    mem: spec_fn(D, u32) -> Seq<u8>,
    h: Handle,
    data: Seq<u8>,
    t1: GuestTvm<D>,
    written: Result<(), TvmError>,
    before: Seq<u8>,
    t2: GuestTvm<D>,
    after: Seq<u8>,
    r: Result<(), TvmError>,
)
    requires
        t0.wf(),
        behaves_as_memory(mem),
        pools_backed(t0, mem),
        t0.access(h, data.len()) is Ok,
        GuestTvm::writes_at(t0, h, data, t1, written),
        before.len() == data.len(),
        GuestTvm::reads_at(t1, h, before, t2, after, r),
    ensures
        written == Ok::<(), TvmError>(()),
        r == Ok::<(), TvmError>(()),
        after == data,
{
    law_access_stays_in_region(t0, h, data.len());
    let (pool, offset) = t0.access(h, data.len())->Ok_0;
    assert(t0.dir().pool_list()[pool as int].capacity <= mem(t0.way(), pool).len());
    assert(after =~= data);
}

/// A write reaches its own range only: over a dispatch that behaves as memory,
/// a read through any handle whose range shares no byte with the written one
/// hands out the same bytes after the write as before it.
pub proof fn law_guest_write_keeps_other_ranges<D: Dispatch>(
    t0: GuestTvm<D>,
    mem: spec_fn(D, u32) -> Seq<u8>,
    h: Handle,
    data: Seq<u8>,
    t1: GuestTvm<D>,
    written: Result<(), TvmError>,
    other: Handle,
    before: Seq<u8>,
    ta: GuestTvm<D>,
    tb: GuestTvm<D>,
    first: Seq<u8>,
    second: Seq<u8>,
    ra: Result<(), TvmError>,
    rb: Result<(), TvmError>,
)
    requires
        t0.wf(),
        behaves_as_memory(mem),
        pools_backed(t0, mem),
        GuestTvm::writes_at(t0, h, data, t1, written),
        t0.access(h, data.len()) is Ok && t0.access(other, before.len()) is Ok ==> {
            let (p, o) = t0.access(h, data.len())->Ok_0;
            let (q, u) = t0.access(other, before.len())->Ok_0;
            p != q || o + data.len() <= u || u + before.len() <= o
        },
        GuestTvm::reads_at(t0, other, before, ta, first, ra),
        GuestTvm::reads_at(t1, other, before, tb, second, rb),
    ensures
        rb == ra,
        second == first,
{
    if t0.access(other, before.len()) is Ok {
        law_access_stays_in_region(t0, other, before.len());
        let (q, u) = t0.access(other, before.len())->Ok_0;
        assert(t0.dir().pool_list()[q as int].capacity <= mem(t0.way(), q).len());
        if t0.access(h, data.len()) is Ok {
            law_access_stays_in_region(t0, h, data.len());
            let (p, o) = t0.access(h, data.len())->Ok_0;
            assert(t0.dir().pool_list()[p as int].capacity <= mem(t0.way(), p).len());
            assert(mem(t1.way(), q).len() == mem(t0.way(), q).len());
        }
        assert(second =~= first);
    }
}

/// Compaction keeps what handles read: over a dispatch that behaves as memory,
/// reading a live allocation through its migrated handle after the compaction
/// hands out the bytes that its old handle read before.
pub proof fn law_guest_compaction_keeps_reads<D: Dispatch>(
    t0: GuestTvm<D>,
    mem: spec_fn(D, u32) -> Seq<u8>,
    h: Handle,
    t1: GuestTvm<D>,
    remap: HandleRemap,
    before: Seq<u8>,
    ta: GuestTvm<D>,
    tb: GuestTvm<D>,
    first: Seq<u8>,
    second: Seq<u8>,
    ra: Result<(), TvmError>,
    rb: Result<(), TvmError>,
)
    requires
        t0.wf(),
        t1.wf(),
        behaves_as_memory(mem),
        pools_backed(t0, mem),
        GuestDirectory::compacts(
            t0.dir(),
            h.region_id,
            t0.way(),
            t1.dir(),
            t1.way(),
            Ok(remap),
        ),
        h.generation == t0.dir().at(h.region_id)->0.meta.generation,
        t0.dir().at(h.region_id)->0.allocator->Freelist_0.live().contains_key(h.offset),
        before.len() <= t0.dir().at(h.region_id)->0.allocator->Freelist_0.live()[h.offset],
        GuestTvm::reads_at(t0, h, before, ta, first, ra),
        GuestTvm::reads_at(t1, remap.migrated(h)->0, before, tb, second, rb),
    ensures
        remap.migrated(h) is Some,
        ra == Ok::<(), TvmError>(()),
        rb == Ok::<(), TvmError>(()),
        second == first,
{
    t0.lemma_wf();
    t1.lemma_wf();
    let e = t0.dir().at(h.region_id)->0;
    assert(t0.dir().has(h.region_id));
    assert(t0.dir().pool_list()[e.pool_index as int].capacity <= mem(t0.way(), e.pool_index).len());
    law_guest_compaction_keeps_contents(
        t0.dir(),
        t0.way(),
        t1.dir(),
        t1.way(),
        remap,
        mem,
        h,
    );
    let g = remap.migrated(h)->0;
    let size = e.allocator->Freelist_0.live()[h.offset];
    e.allocator.lemma_live_ok();
    law_access_stays_in_region(t0, h, before.len());
    law_access_stays_in_region(t1, g, before.len());
    let (pool, from) = t0.dir().resolved(h)->Ok_0;
    let (_, to) = t1.dir().resolved(g)->Ok_0;
    assert(second =~= first) by {
        assert forall|k: int| 0 <= k < before.len() implies second[k] == first[k] by {
            assert(mem(t1.way(), pool).subrange(to as int, to + size)[k] == mem(
                t0.way(),
                pool,
            ).subrange(from as int, from + size)[k]);
        }
    }
}

} // verus!
