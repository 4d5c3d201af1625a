//! What holds of the directory that threads share: its accesses and copies, and
//! which regions bulk eviction takes.
use vstd::prelude::*;
use crate::concurrent::{lemma_listed, ConcurrentDirectory};
use crate::directory::RegionDirectory;
use crate::entry::SpillStep;
use crate::error::TvmError;
use crate::eviction::{eligible, empty_report, is_eviction_order, left, one_more, passed_over, spilled_before, EvictionReport, WithinTier};
use crate::handle::Handle;
use crate::laws::{checks_bounds, law_eviction_reports_truth, lemma_resident_at_least, lemma_resident_by_slots, lemma_resident_small, lemma_resident_update, resident_total};
use crate::memory_region::{BackingStore, MemoryRegion};
use crate::region::{Region, Residency};

verus! {

// ---------------------------------------------------------------------------
// Accesses
// ---------------------------------------------------------------------------

/// A read that follows a successful write through the same handle, of the same
/// length, gives back what was written if it succeeds, and the write put the bytes
/// where the handle points.
pub proof fn law_shared_read_gives_back_write<M: MemoryRegion>(
    pre: RegionDirectory<M>,
    handle: Handle,
    data: Seq<u8>,
    mid: RegionDirectory<M>,
    before: Seq<u8>,
    post: RegionDirectory<M>,
    after: Seq<u8>,
    r: Result<(), TvmError>,
)
    requires
        ConcurrentDirectory::writes(pre, handle, data, mid, Ok(())),
        before.len() == data.len(),
        ConcurrentDirectory::reads(mid, handle, before, post, after, r),
    ensures
        mid.at(handle.region_id)->0.memory->0.bytes().subrange(
            handle.offset as int,
            handle.offset + data.len(),
        ) == data,
        r is Ok ==> after == data,
{
    let bytes = mid.at(handle.region_id)->0.memory->0.bytes();
    assert(bytes.subrange(handle.offset as int, handle.offset + data.len()) =~= data);
}

/// A write changes no byte of its region outside the written range, and neither the
/// metadata nor the allocator; every other region stays as it was. A refused write
/// changes nothing at all.
pub proof fn law_shared_write_is_local<M: MemoryRegion>(
    pre: RegionDirectory<M>,
    handle: Handle,
    data: Seq<u8>,
    post: RegionDirectory<M>,
    r: Result<(), TvmError>,
    other: u16,
    at: int,
)
    requires
        ConcurrentDirectory::writes(pre, handle, data, post, r),
    ensures
        other != handle.region_id ==> post.at(other) == pre.at(other),
        r is Err ==> post.slots() == pre.slots() && post.lru() == pre.lru(),
        r is Ok ==> {
            let e = pre.at(handle.region_id)->0;
            let p = post.at(handle.region_id)->0;
            &&& p.meta == e.meta
            &&& p.allocator == e.allocator
            &&& p.memory->0.bytes().len() == e.memory->0.bytes().len()
            &&& 0 <= at < e.memory->0.bytes().len() && (at < handle.offset || at >= handle.offset
                + data.len()) ==> p.memory->0.bytes()[at] == e.memory->0.bytes()[at]
        },
{
}

/// A read changes no byte, no metadata and no allocator of any region; a refused one
/// leaves the buffer alone too.
pub proof fn law_shared_read_changes_nothing<M: MemoryRegion>(
    pre: RegionDirectory<M>,
    handle: Handle,
    before: Seq<u8>,
    post: RegionDirectory<M>,
    after: Seq<u8>,
    r: Result<(), TvmError>,
    id: u16,
)
    requires
        ConcurrentDirectory::reads(pre, handle, before, post, after, r),
    ensures
        post.has(id) == pre.has(id),
        pre.has(id) ==> post.at(id)->0.memory == pre.at(id)->0.memory && post.at(id)->0.meta
            == pre.at(id)->0.meta && post.at(id)->0.allocator == pre.at(id)->0.allocator,
        r is Err ==> after == before && post.slots() == pre.slots(),
        r is Ok ==> after.len() == before.len() && forall|i: int|
            0 <= i < before.len() ==> #[trigger] after[i] == pre.at(
                handle.region_id,
            )->0.memory->0.bytes()[handle.offset + i],
{
}

/// On a memory whose rule is the bounds check and which is as long as its region, a
/// write and the read behind it succeed exactly where the region exists, the handle is
/// current, the bytes are there, and the range lies inside; otherwise both are refused,
/// with the error that tells why.
pub proof fn law_shared_accesses_are_checked<M: MemoryRegion>(
    pre: RegionDirectory<M>,
    handle: Handle,
    data: Seq<u8>,
    mid: RegionDirectory<M>,
    w: Result<(), TvmError>,
    before: Seq<u8>,
    post: RegionDirectory<M>,
    after: Seq<u8>,
    r: Result<(), TvmError>,
)
    requires
        checks_bounds::<M>(),
        pre.has(handle.region_id) && pre.at(handle.region_id)->0.memory is Some ==> pre.at(
            handle.region_id,
        )->0.memory->0.bytes().len() == pre.at(handle.region_id)->0.meta.capacity,
        data.len() <= u32::MAX,
        ConcurrentDirectory::writes(pre, handle, data, mid, w),
        before.len() == data.len(),
        ConcurrentDirectory::reads(mid, handle, before, post, after, r),
    ensures
        w is Ok <==> pre.has(handle.region_id) && pre.at(handle.region_id)->0.meta.generation
            == handle.generation && pre.at(handle.region_id)->0.memory is Some && handle.offset
            + data.len() <= pre.at(handle.region_id)->0.meta.capacity,
        r is Ok <==> w is Ok,
        w is Ok ==> after == data,
        !pre.has(handle.region_id) ==> w == Err::<(), TvmError>(
            TvmError::RegionNotFound(handle.region_id),
        ) && r == w,
        pre.has(handle.region_id) && pre.at(handle.region_id)->0.meta.generation
            != handle.generation ==> w == Err::<(), TvmError>(TvmError::StaleHandle) && r == w,
        pre.has(handle.region_id) && pre.at(handle.region_id)->0.meta.generation
            == handle.generation && w is Err ==> {
            let e = pre.at(handle.region_id)->0;
            let out = handle.offset + data.len() > e.meta.capacity;
            &&& w == Err::<(), TvmError>(
                if out {
                    TvmError::OutOfBounds
                } else {
                    TvmError::NotResident
                },
            )
            &&& r == Err::<(), TvmError>(
                if e.memory is None {
                    TvmError::NotResident
                } else {
                    TvmError::OutOfBounds
                },
            )
        },
{
    if w is Ok {
        let e = pre.at(handle.region_id)->0;
        let m = mid.at(handle.region_id)->0;
        assert(m.memory->0.bytes().len() == e.memory->0.bytes().len());
        assert(m.memory->0.read_result(handle.offset, data.len()) is Ok);
        law_shared_read_gives_back_write(pre, handle, data, mid, before, post, after, r);
    }
}

// ---------------------------------------------------------------------------
// Copies
// ---------------------------------------------------------------------------

/// `post` is `pre` after `len` bytes went from one place to another: the destination
/// holds the bytes that the source held before, every other byte of the destination is
/// what it was, and no other region, metadata or allocator has changed.
pub open spec fn bytes_moved<M: MemoryRegion>(
    pre: RegionDirectory<M>,
    src_region: u16,
    src_offset: u32,
    dst_region: u16,
    dst_offset: u32,
    len: u32,
    post: RegionDirectory<M>,
) -> bool {
    let from = pre.at(src_region)->0.memory->0.bytes();
    let old_to = pre.at(dst_region)->0.memory->0.bytes();
    let new_to = post.at(dst_region)->0.memory->0.bytes();
    &&& pre.has(src_region) && pre.has(dst_region) && post.has(dst_region)
    &&& pre.at(src_region)->0.memory is Some && post.at(dst_region)->0.memory is Some
    &&& src_offset + len <= from.len()
    &&& dst_offset + len <= new_to.len()
    &&& new_to.len() == old_to.len()
    &&& forall|i: int| 0 <= i < len ==> #[trigger] new_to[dst_offset + i] == from[src_offset + i]
    &&& forall|b: int|
        0 <= b < old_to.len() && (b < dst_offset || b >= dst_offset + len) ==> #[trigger] new_to[b]
            == old_to[b]
    &&& forall|k: u16| #[trigger]
        pre.has(k) ==> post.has(k) && post.at(k)->0.meta == pre.at(k)->0.meta && post.at(
            k,
        )->0.allocator == pre.at(k)->0.allocator
    &&& forall|k: u16|
        #[trigger] pre.has(k) && k != dst_region ==> post.at(k)->0.memory == pre.at(k)->0.memory
    &&& forall|k: u16|
        k != src_region && k != dst_region ==> #[trigger] post.at(k) == pre.at(k)
}

/// A copy that succeeds moves exactly the bytes asked for from the source to the
/// destination; one that is refused changes no byte of any region.
pub proof fn law_shared_copy_moves_bytes<M: MemoryRegion>(
    pre: RegionDirectory<M>,
    src_region: u16,
    src_offset: u32,
    dst_region: u16,
    dst_offset: u32,
    len: u32,
    post: RegionDirectory<M>,
    r: Result<(), TvmError>,
)
    requires
        ConcurrentDirectory::copies(
            pre,
            src_region,
            src_offset,
            dst_region,
            dst_offset,
            len,
            post,
            r,
        ),
    ensures
        r is Ok ==> bytes_moved(
            pre,
            src_region,
            src_offset,
            dst_region,
            dst_offset,
            len,
            post,
        ),
        r is Err ==> forall|k: u16| #[trigger]
            pre.has(k) ==> post.has(k) && post.at(k)->0.memory == pre.at(k)->0.memory && post.at(
                k,
            )->0.meta == pre.at(k)->0.meta,
{
}

/// A read at the destination of a copy hands out what a read at its source handed out
/// before the copy.
pub proof fn law_shared_copy_is_read_back<M: MemoryRegion>(
    pre: RegionDirectory<M>,
    src: Handle,
    dst: Handle,
    len: u32,
    mid: RegionDirectory<M>,
    before: Seq<u8>,
    a: RegionDirectory<M>,
    first: Seq<u8>,
    b: RegionDirectory<M>,
    second: Seq<u8>,
)
    requires
        before.len() == len,
        ConcurrentDirectory::reads(pre, src, before, a, first, Ok(())),
        ConcurrentDirectory::copies(
            pre,
            src.region_id,
            src.offset,
            dst.region_id,
            dst.offset,
            len,
            mid,
            Ok(()),
        ),
        ConcurrentDirectory::reads(mid, dst, before, b, second, Ok(())),
    ensures
        second == first,
{
    law_shared_copy_moves_bytes(
        pre,
        src.region_id,
        src.offset,
        dst.region_id,
        dst.offset,
        len,
        mid,
        Ok(()),
    );
    let new_to = mid.at(dst.region_id)->0.memory->0.bytes();
    assert forall|i: int| 0 <= i < len implies second[i] == first[i] by {
        assert(new_to[dst.offset + i] == second[i]);
    }
    assert(second =~= first);
}

/// The same of a directory that is not shared.
pub proof fn law_copy_moves_bytes<M: MemoryRegion>(
    pre: RegionDirectory<M>,
    src_region: u16,
    src_offset: u32,
    dst_region: u16,
    dst_offset: u32,
    len: u32,
    post: RegionDirectory<M>,
    r: Result<(), TvmError>,
)
    requires
        RegionDirectory::copies(
            pre,
            src_region,
            src_offset,
            dst_region,
            dst_offset,
            len,
            post,
            r,
        ),
    ensures
        r is Ok ==> bytes_moved(
            pre,
            src_region,
            src_offset,
            dst_region,
            dst_offset,
            len,
            post,
        ),
        r is Err ==> forall|k: u16| #[trigger]
            pre.has(k) ==> post.has(k) && post.at(k)->0.memory == pre.at(k)->0.memory && post.at(
                k,
            )->0.meta == pre.at(k)->0.meta,
{
}

/// On memories whose rule is the bounds check and which are as long as their regions, a
/// copy succeeds exactly where both regions exist and are resident and both ranges lie
/// inside them, in the shared directory and in the other.
pub proof fn law_copies_are_checked<M: MemoryRegion>(
    pre: RegionDirectory<M>,
    src_region: u16,
    src_offset: u32,
    dst_region: u16,
    dst_offset: u32,
    len: u32,
    post: RegionDirectory<M>,
    r: Result<(), TvmError>,
)
    requires
        checks_bounds::<M>(),
        forall|k: u16| #[trigger]
            pre.has(k) && pre.at(k)->0.memory is Some ==> pre.at(k)->0.memory->0.bytes().len()
                == pre.at(k)->0.meta.capacity,
        ConcurrentDirectory::copies(
            pre,
            src_region,
            src_offset,
            dst_region,
            dst_offset,
            len,
            post,
            r,
        ) || RegionDirectory::copies(
            pre,
            src_region,
            src_offset,
            dst_region,
            dst_offset,
            len,
            post,
            r,
        ),
    ensures
        r is Ok <==> {
            let s = pre.at(src_region)->0;
            let d = pre.at(dst_region)->0;
            &&& pre.has(src_region) && s.memory is Some && src_offset + len <= s.meta.capacity
            &&& pre.has(dst_region) && d.memory is Some && dst_offset + len <= d.meta.capacity
        },
        !pre.has(src_region) ==> r == Err::<(), TvmError>(TvmError::RegionNotFound(src_region)),
{
}

// ---------------------------------------------------------------------------
// Bulk eviction
// ---------------------------------------------------------------------------

/// A store that takes whatever it is handed.
pub open spec fn takes_everything<B: BackingStore>() -> bool {
    forall|s: B, id: u16, generation: u16, bytes: Seq<u8>, t: B, r: Result<(), TvmError>|
        #[trigger] B::spills(s, id, generation, bytes, t, r) ==> r is Ok
}

/// The region could be spilled: it is in a resident tier and its bytes are there, it is
/// not pinned, and its policy allows spilling.
pub open spec fn could_spill<M: MemoryRegion>(dir: RegionDirectory<M>, id: u16) -> bool {
    let e = dir.at(id)->0;
    &&& dir.has(id)
    &&& e.memory is Some
    &&& !e.meta.pinned
    &&& e.meta.spillable
    &&& e.meta.residency == Residency::Hot || e.meta.residency == Residency::Warm
}

/// The region was resident and is cold now.
pub open spec fn went_cold<M: MemoryRegion>(
    pre: RegionDirectory<M>,
    post: RegionDirectory<M>,
    id: u16,
) -> bool {
    &&& pre.has(id) && post.has(id)
    &&& pre.at(id)->0.meta.residency != Residency::Cold
    &&& post.at(id)->0.meta.residency == Residency::Cold
}

/// Only the tier, the counters and the memory of the region changed.
spec fn spilled_whole<M: MemoryRegion>(
    pre: RegionDirectory<M>,
    post: RegionDirectory<M>,
    id: u16,
) -> bool {
    post.at(id) == Some(pre.at(id)->0.emptied().spilled())
}

spec fn as_it_was<M: MemoryRegion>(
    pre: RegionDirectory<M>,
    post: RegionDirectory<M>,
    id: u16,
) -> bool {
    post.at(id) == pre.at(id)
}

/// The regions of `order` are those of the directory, each once, and may be spilled.
spec fn order_holds<M: MemoryRegion>(dir: RegionDirectory<M>, order: Seq<Region>) -> bool {
    &&& forall|i: int|
        0 <= i < order.len() ==> eligible(#[trigger] order[i]) && dir.has(order[i].id) && dir.at(
            order[i].id,
        )->0.meta == order[i]
    &&& forall|i: int, j: int|
        0 <= i < j < order.len() ==> (#[trigger] order[i]).id != (#[trigger] order[j]).id
}

/// Region `id` is one of the first `cut` of the order, and its bytes are there.
spec fn taken<M: MemoryRegion>(
    dir: RegionDirectory<M>,
    order: Seq<Region>,
    cut: int,
    id: u16,
) -> bool {
    dir.at(id)->0.memory is Some && exists|i: int|
        0 <= i < cut && (#[trigger] order[i]).id == id
}

/// What a run over `order` comes to: up to `cut` every region whose bytes are there is
/// spilled, and nothing else is touched. `gone` are the spilled regions.
spec fn cut_at<M: MemoryRegion>(
    pre: RegionDirectory<M>,
    order: Seq<Region>,
    target: u64,
    report: EvictionReport,
    post: RegionDirectory<M>,
    done: EvictionReport,
    cut: int,
    gone: Set<u16>,
) -> bool {
    &&& 0 <= cut <= order.len()
    &&& post.slots().len() == pre.slots().len()
    &&& gone.finite()
    &&& forall|id: u16| #[trigger] gone.contains(id) <==> taken(pre, order, cut, id)
    &&& forall|id: u16| #[trigger] gone.contains(id) ==> spilled_whole(pre, post, id)
    &&& forall|id: u16| !gone.contains(id) ==> #[trigger] as_it_was(pre, post, id)
    &&& cut < order.len() ==> resident_total(post) <= target
    &&& cut > 0 ==> resident_total(pre) > target
    &&& gone.len() > 0 ==> exists|id: u16| #[trigger]
        gone.contains(id) && resident_total(post) + pre.at(id)->0.meta.used > target
    &&& done.regions_spilled == (if report.regions_spilled + gone.len() > u16::MAX {
        u16::MAX as int
    } else {
        report.regions_spilled + gone.len()
    })
}

proof fn lemma_run_cuts<M: MemoryRegion, B: BackingStore>(
    pre: RegionDirectory<M>,
    store_pre: B,
    order: Seq<Region>,
    target: u64,
    current: u64,
    report: EvictionReport,
    post: RegionDirectory<M>,
    store_post: B,
    done: EvictionReport,
) -> (found: (int, Set<u16>))
    requires
        pre.wf(),
        takes_everything::<B>(),
        order_holds(pre, order),
        current == resident_total(pre),
        ConcurrentDirectory::runs(
            pre,
            store_pre,
            order,
            target,
            current,
            report,
            post,
            store_post,
            Ok(done),
        ),
    ensures
        cut_at(pre, order, target, report, post, done, found.0, found.1),
    decreases order.len(),
{
    if order.len() == 0 || current <= target {
        let gone = Set::<u16>::empty();
        assert(cut_at(pre, order, target, report, post, done, 0, gone));
        (0, gone)
    } else {
        let first = order[0];
        let rest = order.drop_first();
        let (mid, store_mid, out) = choose|
            mid: RegionDirectory<M>,
            store_mid: B,
            out: Result<(), TvmError>,
        | #[trigger]
            RegionDirectory::spills(pre, first.id, store_pre, mid, store_mid, out) && match out {
                Ok(_) => ConcurrentDirectory::runs(
                    mid,
                    store_mid,
                    rest,
                    target,
                    left(current, first.used),
                    one_more(report, first.used),
                    post,
                    store_post,
                    Ok(done),
                ),
                Err(e) => if passed_over(e) {
                    ConcurrentDirectory::runs(
                        mid,
                        store_mid,
                        rest,
                        target,
                        current,
                        report,
                        post,
                        store_post,
                        Ok(done),
                    )
                } else {
                    post == mid && store_post == store_mid && Ok::<EvictionReport, TvmError>(done)
                        == Err::<EvictionReport, TvmError>(e)
                },
            };
        let e = pre.at(first.id)->0;
        assert(pre.has(first.id) && e.meta == first);
        lemma_resident_at_least(pre, first.id);
        assert(e.memory is Some ==> e.spill_step() == SpillStep::Store);
        assert(e.memory is None ==> e.spill_step() == SpillStep::Refuse(TvmError::NotResident));
        assert forall|k: u16| k != first.id implies #[trigger] as_it_was(pre, mid, k) by {}
        assert(e.memory is Some ==> spilled_whole(pre, mid, first.id));
        assert(e.memory is None ==> as_it_was(pre, mid, first.id));
        if e.memory is Some {
            RegionDirectory::lemma_leaves_warm_wf(pre, mid, first.id, e.emptied().spilled());
            lemma_resident_update(pre, mid, first.id, e.emptied().spilled());
        } else {
            RegionDirectory::lemma_same_wf(pre, mid);
        }
        assert forall|i: int| 0 <= i < rest.len() implies eligible(#[trigger] rest[i]) && mid.has(
            rest[i].id,
        ) && mid.at(rest[i].id)->0.meta == rest[i] && rest[i].id != first.id by {
            assert(rest[i] == order[i + 1]);
            assert(order[0].id != order[i + 1].id);
            assert(as_it_was(pre, mid, rest[i].id));
        }
        assert forall|i: int, j: int| 0 <= i < j < rest.len() implies (#[trigger] rest[i]).id != (
        #[trigger] rest[j]).id by {
            assert(rest[i] == order[i + 1] && rest[j] == order[j + 1]);
        }
        let (now, told) = if out is Ok {
            (left(current, first.used), one_more(report, first.used))
        } else {
            (current, report)
        };
        let (c, others) = lemma_run_cuts(
            mid,
            store_mid,
            rest,
            target,
            now,
            told,
            post,
            store_post,
            done,
        );
        let cut = c + 1;
        let gone = if e.memory is Some {
            others.insert(first.id)
        } else {
            others
        };
        assert(!others.contains(first.id)) by {
            if taken(mid, rest, c, first.id) {
                let i = choose|i: int| 0 <= i < c && (#[trigger] rest[i]).id == first.id;
                assert(rest[i].id != first.id);
            }
        }
        assert(as_it_was(mid, post, first.id));
        assert forall|id: u16| #[trigger] gone.contains(id) <==> taken(pre, order, cut, id) by {
            if id != first.id {
                assert(as_it_was(pre, mid, id));
                if taken(pre, order, cut, id) {
                    let i = choose|i: int| 0 <= i < cut && (#[trigger] order[i]).id == id;
                    assert(rest[i - 1] == order[i]);
                    assert(taken(mid, rest, c, id));
                }
                if taken(mid, rest, c, id) {
                    let i = choose|i: int| 0 <= i < c && (#[trigger] rest[i]).id == id;
                    assert(order[i + 1] == rest[i]);
                }
            } else {
                assert(order[0].id == id);
            }
        }
        assert forall|id: u16| #[trigger] gone.contains(id) implies spilled_whole(
            pre,
            post,
            id,
        ) by {
            if id != first.id {
                assert(as_it_was(pre, mid, id));
                assert(others.contains(id));
            }
        }
        assert forall|id: u16| !gone.contains(id) implies #[trigger] as_it_was(pre, post, id) by {
            assert(as_it_was(pre, mid, id));
            assert(as_it_was(mid, post, id));
        }
        if gone.len() > 0 {
            if others.len() > 0 {
                let id = choose|id: u16| #[trigger]
                    others.contains(id) && resident_total(post) + mid.at(id)->0.meta.used > target;
                assert(as_it_was(pre, mid, id));
                assert(gone.contains(id));
            } else {
                assert(others =~= Set::<u16>::empty());
                assert(gone.contains(first.id));
                assert forall|i: int| 0 <= i < mid.slots().len() implies post.slots()[i]
                    == #[trigger] mid.slots()[i] by {
                    assert(as_it_was(mid, post, i as u16));
                }
                assert(post.slots() =~= mid.slots());
            }
        }
        assert(cut_at(pre, order, target, report, post, done, cut, gone));
        (cut, gone)
    }
}

/// The order of an eviction that had something to do, and how far it went.
proof fn lemma_eviction_cuts<M: MemoryRegion, B: BackingStore>(
    pre: RegionDirectory<M>,
    target: u64,
    within: WithinTier,
    store_pre: B,
    post: RegionDirectory<M>,
    store_post: B,
    report: EvictionReport,
) -> (found: (Seq<Region>, int, Set<u16>))
    requires
        pre.wf(),
        takes_everything::<B>(),
        ConcurrentDirectory::demotes_until(
            pre,
            target,
            within,
            store_pre,
            post,
            store_post,
            Ok(report),
        ),
    ensures
        cut_at(pre, found.0, target, empty_report(), post, report, found.1, found.2),
        resident_total(pre) <= target ==> post == pre && found.1 == 0,
        resident_total(pre) > target ==> {
            &&& order_holds(pre, found.0)
            &&& forall|i: int, j: int|
                0 <= i < j < found.0.len() ==> spilled_before(
                    within,
                    #[trigger] found.0[i],
                    #[trigger] found.0[j],
                )
            &&& forall|id: u16| #[trigger]
                could_spill(pre, id) ==> found.0.contains(pre.at(id)->0.meta)
        },
        forall|id: u16| #[trigger] found.2.contains(id) ==> could_spill(pre, id),
{
    let n = pre.slots().len() as int;
    let regions = RegionDirectory::listed(pre.slots(), n);
    let current = resident_total(pre);
    lemma_resident_by_slots(pre.slots(), n);
    lemma_resident_small(pre, n);
    if current > target {
        let order = choose|order: Seq<Region>| #[trigger]
            is_eviction_order(within, regions, order) && ConcurrentDirectory::runs(
                pre,
                store_pre,
                order,
                target,
                current as u64,
                empty_report(),
                post,
                store_post,
                Ok(report),
            );
        lemma_listed(pre, n);
        assert forall|i: int| 0 <= i < order.len() implies eligible(#[trigger] order[i]) && pre.has(
            order[i].id,
        ) && pre.at(order[i].id)->0.meta == order[i] by {
            assert(regions.contains(order[i]));
            let k = choose|k: int| 0 <= k < regions.len() && regions[k] == order[i];
            assert(pre.has(regions[k].id));
        }
        assert forall|i: int, j: int| 0 <= i < j < order.len() implies (#[trigger] order[i]).id != (
        #[trigger] order[j]).id by {
            assert(spilled_before(within, order[i], order[j]));
            assert(pre.at(order[i].id)->0.meta == order[i]);
            assert(pre.at(order[j].id)->0.meta == order[j]);
        }
        let (cut, gone) = lemma_run_cuts(
            pre,
            store_pre,
            order,
            target,
            current as u64,
            empty_report(),
            post,
            store_post,
            report,
        );
        assert forall|id: u16| #[trigger] could_spill(pre, id) implies order.contains(
            pre.at(id)->0.meta,
        ) by {
            lemma_listed_holds(pre, n, id);
            assert(regions.contains(pre.at(id)->0.meta));
        }
        assert forall|id: u16| #[trigger] gone.contains(id) implies could_spill(pre, id) by {
            let i = choose|i: int| 0 <= i < cut && (#[trigger] order[i]).id == id;
            assert(eligible(order[i]) && pre.at(order[i].id)->0.meta == order[i]);
        }
        (order, cut, gone)
    } else {
        let none = Seq::<Region>::empty();
        let gone = Set::<u16>::empty();
        assert(cut_at(pre, none, target, empty_report(), post, report, 0, gone));
        (none, 0, gone)
    }
}

/// The listing holds every region.
proof fn lemma_listed_holds<M: MemoryRegion>(dir: RegionDirectory<M>, n: int, id: u16)
    requires
        dir.has(id),
        id < n <= dir.slots().len(),
    ensures
        RegionDirectory::listed(dir.slots(), n).contains(dir.at(id)->0.meta),
    decreases n,
{
    let l = RegionDirectory::listed(dir.slots(), n);
    if id == n - 1 {
        assert(l[l.len() - 1] == dir.at(id)->0.meta);
    } else {
        lemma_listed_holds(dir, n - 1, id);
        let m = RegionDirectory::listed(dir.slots(), n - 1);
        let i = choose|i: int| 0 <= i < m.len() && m[i] == dir.at(id)->0.meta;
        assert(l[i] == m[i]);
    }
}

/// Of two regions of one order, the earlier one went if the later one did.
proof fn lemma_earlier_goes<M: MemoryRegion>(
    pre: RegionDirectory<M>,
    order: Seq<Region>,
    target: u64,
    post: RegionDirectory<M>,
    report: EvictionReport,
    cut: int,
    gone: Set<u16>,
    a: u16,
    b: u16,
)
    requires
        pre.wf(),
        order_holds(pre, order),
        cut_at(pre, order, target, empty_report(), post, report, cut, gone),
        could_spill(pre, a),
        order.contains(pre.at(a)->0.meta),
        went_cold(pre, post, b),
        forall|i: int, j: int|
            0 <= i < order.len() && 0 <= j < order.len() && order[i].id == a && order[j].id == b
                ==> i <= j,
    ensures
        went_cold(pre, post, a),
{
    assert(gone.contains(b)) by {
        if !gone.contains(b) {
            assert(as_it_was(pre, post, b));
        }
    }
    let j = choose|j: int| 0 <= j < cut && (#[trigger] order[j]).id == b;
    let i = choose|i: int| 0 <= i < order.len() && order[i] == pre.at(a)->0.meta;
    assert(pre.at(order[i].id)->0.meta == order[i]);
    assert(order[i].id == a) by {
        assert(order.contains(pre.at(a)->0.meta));
        lemma_own_id(pre, order, i, a);
    }
    assert(taken(pre, order, cut, a));
    assert(gone.contains(a));
}

/// The coldest tier goes first: if bulk eviction made a hot region cold, no warm
/// region that could have been spilled is still resident.
pub proof fn law_eviction_takes_warm_before_hot<M: MemoryRegion, B: BackingStore>(
    pre: RegionDirectory<M>,
    target: u64,
    within: WithinTier,
    store_pre: B,
    post: RegionDirectory<M>,
    store_post: B,
    report: EvictionReport,
    hot: u16,
    warm: u16,
)
    requires
        pre.wf(),
        takes_everything::<B>(),
        ConcurrentDirectory::demotes_until(
            pre,
            target,
            within,
            store_pre,
            post,
            store_post,
            Ok(report),
        ),
        went_cold(pre, post, hot),
        pre.at(hot)->0.meta.residency == Residency::Hot,
        could_spill(pre, warm),
        pre.at(warm)->0.meta.residency == Residency::Warm,
    ensures
        post.at(warm)->0.meta.residency == Residency::Cold,
{
    let (order, cut, gone) = lemma_eviction_cuts(
        pre,
        target,
        within,
        store_pre,
        post,
        store_post,
        report,
    );
    assert forall|i: int, j: int|
        0 <= i < order.len() && 0 <= j < order.len() && order[i].id == warm && order[j].id
            == hot implies i <= j by {
        assert(pre.at(order[i].id)->0.meta == order[i]);
        assert(pre.at(order[j].id)->0.meta == order[j]);
        if j < i {
            assert(spilled_before(within, order[j], order[i]));
        }
    }
    lemma_earlier_goes(pre, order, target, post, report, cut, gone, warm, hot);
}

/// Inside a tier the regions go in the order that was asked for: if one was made cold,
/// then so was every other of its tier that could have been spilled and is larger,
/// smaller, or older, as the case may be. Of equal sizes the older one goes first.
pub proof fn law_eviction_keeps_order_in_tier<M: MemoryRegion, B: BackingStore>(
    pre: RegionDirectory<M>,
    target: u64,
    within: WithinTier,
    store_pre: B,
    post: RegionDirectory<M>,
    store_post: B,
    report: EvictionReport,
    a: u16,
    b: u16,
)
    requires
        pre.wf(),
        takes_everything::<B>(),
        ConcurrentDirectory::demotes_until(
            pre,
            target,
            within,
            store_pre,
            post,
            store_post,
            Ok(report),
        ),
        went_cold(pre, post, b),
        could_spill(pre, a),
        pre.at(a)->0.meta.residency == pre.at(b)->0.meta.residency,
        ({
            let x = pre.at(a)->0.meta.used;
            let y = pre.at(b)->0.meta.used;
            ||| within == WithinTier::LargestFirst && (x > y || (x == y && a < b))
            ||| within == WithinTier::SmallestFirst && (x < y || (x == y && a < b))
            ||| within == WithinTier::InsertionOrder && a < b
        }),
    ensures
        post.at(a)->0.meta.residency == Residency::Cold,
{
    let (order, cut, gone) = lemma_eviction_cuts(
        pre,
        target,
        within,
        store_pre,
        post,
        store_post,
        report,
    );
    assert forall|i: int, j: int|
        0 <= i < order.len() && 0 <= j < order.len() && order[i].id == a && order[j].id
            == b implies i <= j by {
        assert(pre.at(order[i].id)->0.meta == order[i]);
        assert(pre.at(order[j].id)->0.meta == order[j]);
        if j < i {
            assert(spilled_before(within, order[j], order[i]));
        }
    }
    lemma_earlier_goes(pre, order, target, post, report, cut, gone, a, b);
}

/// Bulk eviction does what it has to and no more. Nothing happens where the target is
/// met from the start. It gives up only when nothing more could be spilled. The
/// last region that it took was needed: with its bytes still resident the target would be
/// missed. It reports how many regions it took.
pub proof fn law_eviction_takes_what_is_needed<M: MemoryRegion, B: BackingStore>(
    pre: RegionDirectory<M>,
    target: u64,
    within: WithinTier,
    store_pre: B,
    post: RegionDirectory<M>,
    store_post: B,
    report: EvictionReport,
    id: u16,
)
    requires
        pre.wf(),
        takes_everything::<B>(),
        ConcurrentDirectory::demotes_until(
            pre,
            target,
            within,
            store_pre,
            post,
            store_post,
            Ok(report),
        ),
    ensures
        resident_total(pre) <= target ==> post == pre && report.target_met
            && report.regions_spilled == 0,
        report.target_met <==> resident_total(post) <= target,
        !report.target_met && could_spill(pre, id) ==> went_cold(pre, post, id),
        went_cold(pre, post, id) ==> could_spill(pre, id) && exists|last: u16|
            went_cold(pre, post, last) && resident_total(post) + #[trigger] pre.at(
                last,
            )->0.meta.used > target,
        ({
            let gone = Set::new(|k: u16| went_cold(pre, post, k));
            gone.finite() && (gone.len() <= u16::MAX ==> report.regions_spilled == gone.len())
        }),
{
    let (order, cut, gone) = lemma_eviction_cuts(
        pre,
        target,
        within,
        store_pre,
        post,
        store_post,
        report,
    );
    law_eviction_reports_truth(pre, target, within, store_pre, post, store_post, report);
    assert forall|k: u16| gone.contains(k) == #[trigger] went_cold(pre, post, k) by {
        if gone.contains(k) {
            assert(could_spill(pre, k));
        } else {
            assert(as_it_was(pre, post, k));
        }
    }
    assert(Set::new(|k: u16| went_cold(pre, post, k)) =~= gone);
    if !report.target_met && could_spill(pre, id) {
        let i = choose|i: int| 0 <= i < order.len() && order[i] == pre.at(id)->0.meta;
        lemma_own_id(pre, order, i, id);
        assert(taken(pre, order, cut, id));
        assert(gone.contains(id));
    }
    if went_cold(pre, post, id) {
        assert(gone.contains(id));
        if gone.len() == 0 {
            assert(gone =~= Set::<u16>::empty());
        }
        let last = choose|last: u16| #[trigger]
            gone.contains(last) && resident_total(post) + pre.at(last)->0.meta.used > target;
        assert(went_cold(pre, post, last));
    }
}

/// What bulk eviction does to a region: it leaves it alone, or makes it cold and takes
/// its bytes out; its generation, its allocations and the rest of its metadata stay.
pub proof fn law_eviction_keeps_the_rest<M: MemoryRegion, B: BackingStore>(
    pre: RegionDirectory<M>,
    target: u64,
    within: WithinTier,
    store_pre: B,
    post: RegionDirectory<M>,
    store_post: B,
    report: EvictionReport,
    id: u16,
)
    requires
        pre.wf(),
        takes_everything::<B>(),
        ConcurrentDirectory::demotes_until(
            pre,
            target,
            within,
            store_pre,
            post,
            store_post,
            Ok(report),
        ),
    ensures
        post.at(id) == pre.at(id) || {
            let e = pre.at(id)->0;
            let p = post.at(id)->0;
            &&& went_cold(pre, post, id)
            &&& p.memory is None
            &&& p.meta == (Region { residency: Residency::Cold, ..e.meta })
            &&& p.allocator == e.allocator
        },
{
    let (order, cut, gone) = lemma_eviction_cuts(
        pre,
        target,
        within,
        store_pre,
        post,
        store_post,
        report,
    );
    if gone.contains(id) {
        assert(could_spill(pre, id));
    } else {
        assert(as_it_was(pre, post, id));
    }
}

proof fn lemma_own_id<M: MemoryRegion>(
    dir: RegionDirectory<M>,
    order: Seq<Region>,
    i: int,
    id: u16,
)
    requires
        dir.wf(),
        dir.has(id),
        0 <= i < order.len(),
        order[i] == dir.at(id)->0.meta,
    ensures
        order[i].id == id,
{
}

} // verus!
