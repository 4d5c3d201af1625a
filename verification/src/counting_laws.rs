//! What is counted and recorded of a region, allocation in a shared directory, and
//! what a small cache holds on to.
use vstd::prelude::*;
use crate::allocator::RegionAllocator;
use crate::cache::{slot_for, slot_index, ResolveCache};
use crate::concurrent::ConcurrentDirectory;
use crate::directory::RegionDirectory;
use crate::error::TvmError;
use crate::eviction::WithinTier;
use crate::guest::directory::GuestDirectory;
use crate::guest::dispatcher::Dispatch;
use crate::handle::Handle;
use crate::memory_region::{BackingStore, MemoryRegion};
use crate::metrics::RegionMetrics;
use crate::region::Region;
use crate::remap::HandleRemap;
use crate::rt::{folds, RegionPtr};
use crate::rt;

verus! {

/// A counter of 64 bits that has gone up by `by`.
pub open spec fn goes_up(before: u64, by: int, after: u64) -> bool {
    after == (before + by) % 0x1_0000_0000_0000_0000
}

/// All counters but those of allocations, reads and writes are the same.
pub open spec fn same_tier_counters(a: RegionMetrics, b: RegionMetrics) -> bool {
    a.faults == b.faults && a.promotions == b.promotions && a.demotions == b.demotions
}

/// A read counts its bytes as read, a write counts its bytes as written, and neither
/// counts anything else or anything in another region. One that fails counts
/// nothing.
pub proof fn law_access_is_counted<M: MemoryRegion>(
    pre: RegionDirectory<M>,
    handle: Handle,
    before: Seq<u8>,
    data: Seq<u8>,
    post: RegionDirectory<M>,
    after: Seq<u8>,
    r: Result<(), TvmError>,
    other: u16,
)
    requires
        pre.has(handle.region_id),
        before.len() <= u32::MAX,
        data.len() <= u32::MAX,
    ensures
        ({
            let m = pre.at(handle.region_id)->0.metrics;
            let n = post.at(handle.region_id)->0.metrics;
            let m2 = pre.at(other)->0.metrics;
            let n2 = post.at(other)->0.metrics;
            &&& RegionDirectory::reads(pre, handle, before, post, after, r) ==> {
                &&& goes_up(m.bytes_read, if r is Ok { before.len() as int } else { 0 }, n.bytes_read)
                &&& n.bytes_written == m.bytes_written
                &&& n.allocations == m.allocations
                &&& n.bytes_allocated == m.bytes_allocated
                &&& same_tier_counters(m, n)
                &&& pre.has(other) && other != handle.region_id ==> n2 == m2
            }
            &&& RegionDirectory::writes(pre, handle, data, post, r) ==> {
                &&& goes_up(m.bytes_written, if r is Ok { data.len() as int } else { 0 }, n.bytes_written)
                &&& n.bytes_read == m.bytes_read
                &&& n.allocations == m.allocations
                &&& n.bytes_allocated == m.bytes_allocated
                &&& same_tier_counters(m, n)
                &&& pre.has(other) && other != handle.region_id ==> n2 == m2
            }
        }),
{
}

/// An allocation counts as one, with its bytes; one that fails counts nothing.
/// The counters that are shown are the counters.
pub proof fn law_allocation_is_counted<M: MemoryRegion>(
    pre: RegionDirectory<M>,
    id: u16,
    size: u32,
    align: u32,
    post: RegionDirectory<M>,
    r: Result<Handle, TvmError>,
)
    requires
        pre.has(id),
        RegionDirectory::allocates(pre, id, size, align, post, r),
    ensures
        ({
            let m = pre.at(id)->0.metrics;
            let n = post.at(id)->0.metrics.shown();
            &&& goes_up(m.allocations, if r is Ok { 1int } else { 0 }, n.allocations)
            &&& goes_up(m.bytes_allocated, if r is Ok { size as int } else { 0 }, n.bytes_allocated)
            &&& n.bytes_read == m.bytes_read
            &&& n.bytes_written == m.bytes_written
            &&& n.faults == m.faults
            &&& n.promotions == m.promotions
            &&& n.demotions == m.demotions
        }),
{
}

/// What is recorded of a read that leaves the region is the read itself, with the
/// capacity where the end of the read can be told. Of a refused allocation the
/// region, the size and the capacity are recorded.
pub proof fn law_refusals_are_recorded<M: MemoryRegion>(
    pre: RegionDirectory<M>,
    handle: Handle,
    before: Seq<u8>,
    after: Seq<u8>,
    size: u32,
    align: u32,
    post: RegionDirectory<M>,
    r: Result<(), TvmError>,
    a: Result<Handle, TvmError>,
)
    requires
        pre.has(handle.region_id),
        before.len() <= u32::MAX,
    ensures
        ({
            let e = pre.at(handle.region_id)->0;
            let end = handle.offset + before.len();
            RegionDirectory::reads(pre, handle, before, post, after, r) && e.meta.generation
                == handle.generation && e.memory is Some && end > e.meta.capacity ==> {
                let c = post.context()->0;
                &&& r == Err::<(), TvmError>(TvmError::OutOfBounds)
                &&& post.context() is Some
                &&& c.region_id == Some(handle.region_id)
                &&& c.generation == Some(handle.generation)
                &&& c.offset == Some(handle.offset)
                &&& c.len == Some(before.len() as u32)
                &&& c.capacity == (if end > u32::MAX {
                    None
                } else {
                    Some(e.meta.capacity)
                })
            }
        }),
        RegionDirectory::reads(pre, handle, before, post, after, r) && r is Ok ==> post.context()
            == pre.context(),
        RegionDirectory::allocates(pre, handle.region_id, size, align, post, a) && a is Err ==> {
            let c = post.context()->0;
            &&& post.context() is Some
            &&& c.region_id == Some(handle.region_id)
            &&& c.len == Some(size)
            &&& c.capacity == Some(pre.at(handle.region_id)->0.meta.capacity)
            &&& c.generation is None
            &&& c.offset is None
        },
{
}

/// An allocation in a shared directory hands out a current handle to bytes of the
/// region that overlap nothing handed out before. It changes no byte and no other
/// region, and an unknown region is refused by its number.
pub proof fn law_shared_allocation<M: MemoryRegion>(
    pre: RegionDirectory<M>,
    id: u16,
    size: u32,
    post: RegionDirectory<M>,
    r: Result<Handle, TvmError>,
    a: u32,
    len: u32,
    other: u16,
)
    requires
        pre.wf(),
        ConcurrentDirectory::<M>::allocates(pre, id, size, post, r),
    ensures
        !pre.has(id) <==> r == Err::<Handle, TvmError>(TvmError::RegionNotFound(id)),
        other != id ==> post.at(other) == pre.at(other),
        post.context() == pre.context(),
        pre.has(id) ==> post.at(id)->0.memory == pre.at(id)->0.memory,
        r is Ok ==> {
            let h = r->Ok_0;
            let e = pre.at(id)->0;
            let p = post.at(id)->0;
            &&& h.region_id == id
            &&& h.generation == e.meta.generation
            &&& h.offset + size <= e.meta.capacity
            &&& p.meta.capacity == e.meta.capacity
            &&& p.allocator.occupied(h.offset, size)
            &&& e.allocator.occupied(a, len) ==> a + len <= h.offset || h.offset + size <= a
        },
        r is Err ==> post.slots() =~= pre.slots(),
{
    if r is Ok {
        let e = pre.at(id)->0;
        let p = post.at(id)->0;
        let h = r->Ok_0;
        assert(pre.has(id) && pre.slots()[id as int] == Some(e));
        e.allocator.law_allocation_is_taken(size, 1, p.allocator, h.offset);
        if e.allocator.occupied(a, len) {
            RegionAllocator::law_allocation_is_apart(
                e.allocator,
                size,
                1,
                p.allocator,
                h.offset,
                a,
                len,
            );
        }
    }
}

/// Room is made only where it is needed: where the allocation cannot fail for want of
/// room, nothing is evicted, the store stays as it was, and the allocation is all that
/// happens. What is handed out in the end is a handle into the region asked for.
pub proof fn law_eviction_only_for_room<M: MemoryRegion, B: BackingStore>(
    pre: RegionDirectory<M>,
    id: u16,
    size: u32,
    target: u64,
    within: WithinTier,
    s0: B,
    post: RegionDirectory<M>,
    s1: B,
    r: Result<Handle, TvmError>,
)
    requires
        ConcurrentDirectory::<M>::allocates_or_demotes(
            pre,
            id,
            size,
            target,
            within,
            s0,
            post,
            s1,
            r,
        ),
    ensures
        (forall|d: RegionDirectory<M>| !#[trigger]
            ConcurrentDirectory::<M>::allocates(
                pre,
                id,
                size,
                d,
                Err(TvmError::AllocationFailed),
            )) ==> s1 == s0 && ConcurrentDirectory::<M>::allocates(pre, id, size, post, r),
        s1 != s0 ==> pre.has(id),
        pre.has(id) || r == Err::<Handle, TvmError>(TvmError::RegionNotFound(id)),
{
    let (first, tried) = choose|first: RegionDirectory<M>, tried: Result<Handle, TvmError>| #[trigger]
        ConcurrentDirectory::<M>::allocates(pre, id, size, first, tried) && if tried == Err::<
            Handle,
            TvmError,
        >(TvmError::AllocationFailed) {
            exists|
                second: RegionDirectory<M>,
                out: Result<crate::eviction::EvictionReport, TvmError>,
            | #[trigger]
                ConcurrentDirectory::<M>::demotes_until(first, target, within, s0, second, s1, out)
                    && match out {
                    Err(e) => r == Err::<Handle, TvmError>(e) && post == second,
                    Ok(_) => ConcurrentDirectory::<M>::allocates(second, id, size, post, r),
                }
        } else {
            r == tried && post == first && s1 == s0
        };
    assert(ConcurrentDirectory::<M>::allocates(pre, id, size, first, tried));
}

/// Regions whose numbers are less than eight apart do not push one another out of the
/// cache: what is remembered of the one stays when the other is installed. What is
/// remembered of a region is its generation, its capacity and where its bytes are.
pub proof fn law_cache_holds_eight_neighbours(
    pre: ResolveCache,
    region: Region,
    data_ptr: usize,
    data_len: u32,
    post: ResolveCache,
    other: u16,
)
    requires
        pre@.len() == 8,
        post@ == pre@.update(slot_index(region.id), slot_for(region, data_ptr, data_len)),
        other != region.id,
        -8 < other - region.id < 8,
    ensures
        post.known(other) == pre.known(other),
        ({
            let s = post.known(region.id)->0;
            &&& post.known(region.id) is Some
            &&& s.region_id == region.id
            &&& s.generation == region.generation
            &&& s.capacity == region.capacity
            &&& s.resident == (region.residency == crate::region::Residency::Hot || region.residency
                == crate::region::Residency::Warm)
            &&& s.data_ptr == data_ptr
            &&& s.data_len == data_len
        }),
{
}

/// Pinning a guest region forbids its compaction and nothing else; it is refused where
/// the kind of the region forbids it. Unpinning takes it back.
pub proof fn law_guest_pin<D: Dispatch>(
    pre: GuestDirectory,
    id: u16,
    mid: GuestDirectory,
    p: Result<(), TvmError>,
    d0: D,
    post: GuestDirectory,
    d1: D,
    r: Result<HandleRemap, TvmError>,
    freed: GuestDirectory,
    h: Handle,
)
    requires
        GuestDirectory::pins(pre, id, mid, p),
        GuestDirectory::compacts(mid, id, d0, post, d1, r),
        GuestDirectory::unpins(mid, id, freed),
    ensures
        !pre.has(id) ==> p == Err::<(), TvmError>(TvmError::RegionNotFound(id)),
        pre.has(id) && !pre.at(id)->0.meta.pinnable ==> p == Err::<(), TvmError>(
            TvmError::PolicyViolation,
        ),
        pre.has(id) && pre.at(id)->0.meta.pinnable ==> p is Ok && r == Err::<HandleRemap, TvmError>(
            TvmError::Pinned,
        ) && d1 == d0,
        mid.resolved(h) == pre.resolved(h),
        freed.resolved(h) == pre.resolved(h),
        pre.has(id) ==> freed.has(id) && !freed.at(id)->0.meta.pinned,
        pre.has(id) && !pre.at(id)->0.meta.pinned ==> freed.at(id) == pre.at(id),
{
}

/// A handle into a guest region points as far behind the start of the region as its
/// offset says, in the pool of the region.
pub proof fn law_guest_offsets_add(dir: GuestDirectory, start: Handle, by: u32)
    requires
        dir.resolved(start) is Ok,
        start.offset + by <= u32::MAX,
        dir.resolved(start)->Ok_0.1 + by <= u32::MAX,
    ensures
        dir.resolved(Handle { offset: (start.offset + by) as u32, ..start }) == Ok::<
            (u32, u32),
            TvmError,
        >((dir.resolved(start)->Ok_0.0, (dir.resolved(start)->Ok_0.1 + by) as u32)),
        start.offset == 0 ==> dir.resolved(start)->Ok_0 == (
            dir.at(start.region_id)->0.pool_index,
            dir.at(start.region_id)->0.base_offset,
        ),
{
}

/// Reading a range in chunks from a reader that hands out the bytes of a region, and
/// putting the chunks one behind the other, gives the whole range, whatever the size of
/// the chunks.
pub proof fn law_chunks_make_the_range<
    R: Fn(RegionPtr, u32) -> Result<Vec<u8>, rt::Error>,
    F: FnMut(T, &[u8]) -> T,
    T,
>(
    read: R,
    step: F,
    seen: spec_fn(T) -> Seq<u8>,
    bytes: Seq<u8>,
    start: Handle,
    total: nat,
    size: nat,
    consumed: nat,
    acc: T,
    r: Result<T, rt::Error>,
)
    requires
        folds(read, step, start, total, size, consumed, acc, r),
        0 < size <= u32::MAX,
        consumed <= total,
        total <= u32::MAX,
        start.offset + total <= bytes.len(),
        bytes.len() <= 0x1_0000_0000,
        forall|at: RegionPtr, n: u32, out: Result<Vec<u8>, rt::Error>| #[trigger]
            call_ensures(read, (at, n), out) && at.handle().region_id == start.region_id
                && at.handle().generation == start.generation && at.handle().offset + n
                <= bytes.len() ==> out is Ok && out->Ok_0@ == bytes.subrange(
                at.handle().offset as int,
                at.handle().offset + n,
            ),
        forall|t: T, chunk: &[u8], next: T| #[trigger]
            call_ensures(step, (t, chunk), next) ==> seen(next) == seen(t) + chunk@,
    ensures
        r is Ok,
        seen(r->Ok_0) == seen(acc) + bytes.subrange(
            start.offset + consumed,
            (start.offset + total) as int,
        ),
    decreases total - consumed,
{
    if consumed >= total {
        assert(bytes.subrange(start.offset + consumed, (start.offset + total) as int)
            =~= Seq::<u8>::empty());
        assert(seen(acc) + Seq::<u8>::empty() =~= seen(acc));
    } else {
        let c = rt::chunk_at(total, size, consumed);
        let (at, out) = choose|at: RegionPtr, out: Result<Vec<u8>, rt::Error>| #[trigger]
            call_ensures(read, (at, c.1 as u32), out) && at.handle() == (Handle {
                offset: (start.offset + c.0) as u32,
                ..start
            }) && match out {
                Err(e) => r == Err::<T, rt::Error>(e),
                Ok(b) => exists|chunk: &[u8], next: T| #[trigger]
                    call_ensures(step, (acc, chunk), next) && chunk@ == b@ && folds(
                        read,
                        step,
                        start,
                        total,
                        size,
                        consumed + c.1,
                        next,
                        r,
                    ),
            };
        let b = out->Ok_0;
        let (chunk, next) = choose|chunk: &[u8], next: T| #[trigger]
            call_ensures(step, (acc, chunk), next) && chunk@ == b@ && folds(
                read,
                step,
                start,
                total,
                size,
                consumed + c.1,
                next,
                r,
            );
        law_chunks_make_the_range(
            read,
            step,
            seen,
            bytes,
            start,
            total,
            size,
            consumed + c.1,
            next,
            r,
        );
        let from = (start.offset + consumed) as int;
        let mid = from + c.1;
        let to = (start.offset + total) as int;
        assert(bytes.subrange(from, mid) + bytes.subrange(mid, to) =~= bytes.subrange(from, to));
        assert(seen(acc) + bytes.subrange(from, mid) + bytes.subrange(mid, to) =~= seen(acc)
            + bytes.subrange(from, to));
    }
}

} // verus!
