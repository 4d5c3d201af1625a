//! What holds across operations of the directory: data written is data read,
//! stale handles stay out, moving a region between tiers or packing it keeps
//! its contents, and bulk eviction accounts for what it does.
use vstd::prelude::*;
use crate::blocks::{aligned_up, block_end, first_fit, lemma_live_blocks, lemma_live_blocks_ascend, lemma_packed_blocks, lemma_packing_keeps_contents, live_blocks, total_size};
use crate::concurrent::{lemma_listed, ConcurrentDirectory};
use crate::directory::RegionDirectory;
use crate::entry::{RegionEntry, SpillJob, SpillStep};
use crate::error::TvmError;
use crate::eviction::{eligible, empty_report, is_eviction_order, left, one_more, passed_over, resident, resident_bytes, EvictionReport, WithinTier};
use crate::handle::Handle;
use crate::memory_region::{in_bounds, overwritten, BackingStore, MemoryRegion, VecBackedRegion};
use crate::region::{Region, RegionKind, Residency};
use crate::remap::HandleRemap;

verus! {

/// A read that follows a successful write through the same handle, of the same
/// length, gives back what was written if it succeeds.
pub proof fn law_read_gives_back_write<M: MemoryRegion>(
    pre: RegionDirectory<M>,
    handle: Handle,
    data: Seq<u8>,
    mid: RegionDirectory<M>,
    before: Seq<u8>,
    post: RegionDirectory<M>,
    after: Seq<u8>,
    r: Result<(), TvmError>,
)
    requires
        RegionDirectory::writes(pre, handle, data, mid, Ok(())),
        before.len() == data.len(),
        RegionDirectory::reads(mid, handle, before, post, after, r),
    ensures
        r is Ok ==> after == data,
{
    if r is Ok {
        assert(after =~= data);
    }
}

/// A memory whose rule is the bounds check: an access succeeds exactly where it
/// stays inside the bytes.
pub open spec fn checks_bounds<M: MemoryRegion>() -> bool {
    forall|m: M, offset: u32, len: nat|
        #![trigger m.read_result(offset, len)]
        #![trigger m.write_result(offset, len)]
        m.read_result(offset, len) == in_bounds(m.bytes().len(), offset, len) && m.write_result(
            offset,
            len,
        ) == in_bounds(m.bytes().len(), offset, len)
}

/// A write and the read that follows it, of the same length through the same
/// handle, on a memory whose rule is the bounds check and which is as long as
/// the region: through a current handle of a resident region, inside its
/// capacity, both succeed and the read gives back what was written; the
/// metadata, the allocator, the other bytes and the other regions stay as they were.
/// Any other access is refused by both with the same error, and changes no byte.
pub proof fn law_checked_read_follows_write<M: MemoryRegion>(
    pre: RegionDirectory<M>,
    handle: Handle,
    data: Seq<u8>,
    mid: RegionDirectory<M>,
    w: Result<(), TvmError>,
    before: Seq<u8>,
    post: RegionDirectory<M>,
    after: Seq<u8>,
    r: Result<(), TvmError>,
)
    requires
        checks_bounds::<M>(),
        pre.has(handle.region_id) && pre.at(handle.region_id)->0.memory is Some ==> pre.at(
            handle.region_id,
        )->0.memory->0.bytes().len() == pre.at(handle.region_id)->0.meta.capacity,
        RegionDirectory::writes(pre, handle, data, mid, w),
        before.len() == data.len(),
        RegionDirectory::reads(mid, handle, before, post, after, r),
    ensures
        w == (match pre.at(handle.region_id) {
            None => Err::<(), TvmError>(TvmError::RegionNotFound(handle.region_id)),
            Some(e) => if e.meta.generation != handle.generation {
                Err(TvmError::StaleHandle)
            } else if e.memory is None {
                Err(TvmError::NotResident)
            } else if handle.offset + data.len() > e.meta.capacity {
                Err(TvmError::OutOfBounds)
            } else {
                Ok(())
            },
        }),
        r == w,
        w is Ok ==> {
            let e = pre.at(handle.region_id)->0;
            let m = mid.at(handle.region_id)->0;
            &&& after == data
            &&& m.meta == e.meta
            &&& m.allocator == e.allocator
            &&& m.memory->0.bytes() == overwritten(
                e.memory->0.bytes(),
                handle.offset as int,
                data,
            )
        },
        w is Err ==> mid.slots() == pre.slots() && post.slots() == pre.slots() && after == before,
        forall|k: u16|
            k != handle.region_id ==> #[trigger] mid.at(k) == pre.at(k) && post.at(k) == pre.at(k),
{
    if w is Ok {
        let e = pre.at(handle.region_id)->0;
        let m = mid.at(handle.region_id)->0;
        assert(m.memory->0.bytes().len() == e.memory->0.bytes().len());
        assert(m.memory->0.read_result(handle.offset, data.len()) is Ok);
        law_read_gives_back_write(pre, handle, data, mid, before, post, after, r);
    }
}

/// A region held in a vector is such a memory.
pub proof fn law_vec_checks_bounds()
    ensures
        checks_bounds::<VecBackedRegion>(),
{
}

/// A write leaves every other region as it was, and every byte of its own
/// region outside the written range.
pub proof fn law_write_is_local<M: MemoryRegion>(
    pre: RegionDirectory<M>,
    handle: Handle,
    data: Seq<u8>,
    post: RegionDirectory<M>,
    other: u16,
    at: int,
)
    requires
        RegionDirectory::writes(pre, handle, data, post, Ok(())),
        0 <= at < pre.at(handle.region_id)->0.memory->0.bytes().len(),
    ensures
        other != handle.region_id ==> post.at(other) == pre.at(other),
        at < handle.offset || at >= handle.offset + data.len() ==> post.at(
            handle.region_id,
        )->0.memory->0.bytes()[at] == pre.at(handle.region_id)->0.memory->0.bytes()[at],
{
}

/// Once the generation of a region has advanced, every handle of the old
/// generation is refused by reads, writes and deallocation.
pub proof fn law_bumped_handles_are_stale<M: MemoryRegion>(
    pre: RegionDirectory<M>,
    mid: RegionDirectory<M>,
    handle: Handle,
    data: Seq<u8>,
    post: RegionDirectory<M>,
    after: Seq<u8>,
    r: Result<(), TvmError>,
)
    requires
        pre.has(handle.region_id),
        pre.at(handle.region_id)->0.meta.generation == handle.generation,
        RegionDirectory::only(
            pre,
            mid,
            handle.region_id,
            RegionDirectory::bumped(pre.at(handle.region_id)->0),
        ),
    ensures
        RegionDirectory::reads(mid, handle, data, post, after, r) ==> r == Err::<(), TvmError>(
            TvmError::StaleHandle,
        ),
        RegionDirectory::writes(mid, handle, data, post, r) ==> r == Err::<(), TvmError>(
            TvmError::StaleHandle,
        ),
        RegionDirectory::deallocates(mid, handle, post, r) ==> r == Err::<(), TvmError>(
            TvmError::StaleHandle,
        ),
{
    assert(mid.at(handle.region_id) == Some(
        RegionDirectory::bumped(pre.at(handle.region_id)->0),
    ));
}

/// After a compaction a handle of the old generation is refused.
pub proof fn law_compaction_makes_handles_stale<M: MemoryRegion>(
    pre: RegionDirectory<M>,
    handle: Handle,
    mid: RegionDirectory<M>,
    remap: HandleRemap,
    data: Seq<u8>,
    post: RegionDirectory<M>,
    after: Seq<u8>,
    r: Result<(), TvmError>,
)
    requires
        pre.has(handle.region_id),
        pre.at(handle.region_id)->0.meta.generation == handle.generation,
        RegionDirectory::compacts(pre, handle.region_id, mid, Ok(remap)),
        RegionDirectory::reads(mid, handle, data, post, after, r),
    ensures
        r == Err::<(), TvmError>(TvmError::StaleHandle),
{
}

/// Compaction keeps every live allocation: the handle of its start migrates,
/// the migrated handle is current, and its bytes are the same as before.
pub proof fn law_compaction_keeps_contents<M: MemoryRegion>(
    pre: RegionDirectory<M>,
    handle: Handle,
    post: RegionDirectory<M>,
    remap: HandleRemap,
)
    requires
        pre.wf(),
        pre.has(handle.region_id),
        pre.at(handle.region_id)->0.meta.generation == handle.generation,
        pre.at(handle.region_id)->0.allocator is Freelist,
        pre.at(handle.region_id)->0.allocator->Freelist_0.live().contains_key(handle.offset),
        RegionDirectory::compacts(pre, handle.region_id, post, Ok(remap)),
    ensures
        remap.migrated(handle) is Some,
        ({
            let h = remap.migrated(handle)->0;
            let size = pre.at(handle.region_id)->0.allocator->Freelist_0.live()[handle.offset];
            let old_bytes = pre.at(handle.region_id)->0.memory->0.bytes();
            let e = post.at(handle.region_id)->0;
            &&& h.region_id == handle.region_id
            &&& h.generation == e.meta.generation
            &&& h.offset + size <= e.memory->0.bytes().len()
            &&& e.memory->0.bytes().subrange(h.offset as int, h.offset + size)
                == old_bytes.subrange(handle.offset as int, handle.offset + size)
        }),
{
    let e = pre.at(handle.region_id)->0;
    let live = e.allocator->Freelist_0.live();
    let bytes = e.memory->0.bytes();
    lemma_gathers_in_bounds(e.memory->0, live_blocks(live), 0);
    e.allocator.lemma_live_ok();
    lemma_packing_keeps_contents(bytes, live, e.meta.capacity, handle.offset);
}

/// After a compaction all free bytes lie in one piece behind the live ones: a request
/// that they can hold is served at the end of the live bytes.
pub proof fn law_compaction_joins_free_space<M: MemoryRegion>(
    pre: RegionDirectory<M>,
    id: u16,
    mid: RegionDirectory<M>,
    remap: HandleRemap,
    size: u32,
    post: RegionDirectory<M>,
    r: Result<Handle, TvmError>,
)
    requires
        pre.wf(),
        pre.has(id),
        RegionDirectory::compacts(pre, id, mid, Ok(remap)),
        0 < size,
        mid.at(id)->0.meta.used + size <= mid.at(id)->0.meta.capacity,
        RegionDirectory::allocates(mid, id, size, 1, post, r),
    ensures
        r == Ok::<Handle, TvmError>(
            Handle {
                region_id: id,
                generation: mid.at(id)->0.meta.generation,
                offset: mid.at(id)->0.meta.used,
            },
        ),
{
    let before = pre.at(id)->0;
    let e = mid.at(id)->0;
    let blocks = live_blocks(before.allocator->Freelist_0.live());
    before.allocator.lemma_live_ok();
    lemma_live_blocks(before.allocator->Freelist_0.live());
    lemma_live_blocks_ascend(blocks, before.allocator->Freelist_0.live(), before.meta.capacity);
    lemma_packed_blocks(blocks, before.meta.capacity);
    let used = total_size(blocks);
    let free = e.allocator->Freelist_0.free_list();
    assert(free =~= seq![(used as u32, (e.meta.capacity - used) as u32)]);
    assert(1u32 & 0u32 == 0) by (bit_vector);
    assert(aligned_up(used as u32, 1) == Some(used as u32));
    assert(first_fit(free, size, 1, 0) == Some((0int, used as u32)));
}

proof fn lemma_gathers_in_bounds<M: MemoryRegion>(m: M, blocks: Seq<(u32, u32)>, from: int)
    requires
        0 <= from <= blocks.len(),
        RegionEntry::gather_error(m, blocks, from) is None,
    ensures
        forall|i: int|
            from <= i < blocks.len() ==> block_end(#[trigger] blocks[i]) <= m.bytes().len(),
    decreases blocks.len() - from,
{
    if from < blocks.len() {
        m.lemma_access_in_bounds(blocks[from].0, blocks[from].1 as nat);
        lemma_gathers_in_bounds(m, blocks, from + 1);
    }
}

/// A region that is spilled, and later loaded with the bytes that were spilled,
/// is what it was before but for its tier and counters.
pub proof fn law_load_restores_spilled<M: MemoryRegion>(
    pre: RegionDirectory<M>,
    id: u16,
    begun: RegionDirectory<M>,
    job: SpillJob,
    cold: RegionDirectory<M>,
    bytes: Vec<u8>,
    post: RegionDirectory<M>,
    r: Result<(), TvmError>,
)
    requires
        pre.has(id),
        RegionDirectory::begins_spill(pre, id, begun, Ok(Some(job))),
        RegionDirectory::finishes_spill(begun, id, Ok(()), cold, Ok(())),
        bytes@ == job.bytes@,
        RegionDirectory::finishes_load(cold, id, Ok(bytes), post, r),
    ensures
        r is Ok,
        cold.at(id)->0.meta.residency == Residency::Cold,
        cold.at(id)->0.memory is None,
        post.at(id)->0.memory->0.bytes() == pre.at(id)->0.memory->0.bytes(),
        post.at(id)->0.allocator == pre.at(id)->0.allocator,
        post.at(id)->0.meta == (Region { residency: Residency::Hot, ..pre.at(id)->0.meta }),
        forall|k: u16| k != id ==> #[trigger] post.at(k) == pre.at(k),
{
    assert(begun.at(id) == Some(pre.at(id)->0.emptied()));
    assert(cold.at(id) == Some(pre.at(id)->0.emptied().spilled()));
}

/// While a region is cold, plain reads and writes of it are refused.
pub proof fn law_spilled_is_not_resident<M: MemoryRegion>(
    dir: RegionDirectory<M>,
    handle: Handle,
    data: Seq<u8>,
    post: RegionDirectory<M>,
    after: Seq<u8>,
    r: Result<(), TvmError>,
)
    requires
        dir.has(handle.region_id),
        dir.at(handle.region_id)->0.memory is None,
        dir.at(handle.region_id)->0.meta.generation == handle.generation,
    ensures
        RegionDirectory::reads(dir, handle, data, post, after, r) ==> r == Err::<(), TvmError>(
            TvmError::NotResident,
        ),
        RegionDirectory::writes(dir, handle, data, post, r) ==> r == Err::<(), TvmError>(
            TvmError::NotResident,
        ),
{
}

/// A pinned region is refused by spilling, demotion and compaction, and stays
/// as it is.
pub proof fn law_pinned_stays<M: MemoryRegion, B: BackingStore>(
    pre: RegionDirectory<M>,
    id: u16,
    store_pre: B,
    post: RegionDirectory<M>,
    store_post: B,
    r: Result<(), TvmError>,
    packed: Result<HandleRemap, TvmError>,
)
    requires
        pre.has(id),
        pre.at(id)->0.meta.pinned,
    ensures
        RegionDirectory::spills(pre, id, store_pre, post, store_post, r) ==> r == Err::<
            (),
            TvmError,
        >(TvmError::Pinned) && post.at(id) == pre.at(id),
        RegionDirectory::demotes(pre, id, store_pre, post, store_post, r) ==> r == Err::<
            (),
            TvmError,
        >(TvmError::Pinned) && post.at(id) == pre.at(id),
        RegionDirectory::compacts(pre, id, post, packed) ==> packed == Err::<
            HandleRemap,
            TvmError,
        >(TvmError::Pinned) && post.at(id) == pre.at(id),
{
}

/// The id of a destroyed region is never handed out again.
pub proof fn law_ids_are_not_reused<M: MemoryRegion>(
    pre: RegionDirectory<M>,
    id: u16,
    mid: RegionDirectory<M>,
    kind: RegionKind,
    capacity: u32,
    allocator: crate::allocator::AllocatorKind,
    policy: crate::region::PlacementPolicy,
    memory: M,
    post: RegionDirectory<M>,
    r: Result<u16, TvmError>,
)
    requires
        pre.has(id),
        RegionDirectory::destroys(pre, id, mid, Ok(())),
        RegionDirectory::creates(mid, kind, capacity, allocator, policy, memory, post, r),
    ensures
        r matches Ok(new_id) ==> new_id != id,
        !post.has(id),
{
    assert(mid.slots()[id as int] is None);
    if r is Ok {
        assert(post.slots().drop_last()[id as int] == mid.slots()[id as int]);
    }
}

// ---------------------------------------------------------------------------
// Bulk eviction
// ---------------------------------------------------------------------------

/// The resident bytes of a directory.
pub open spec fn resident_total<M: MemoryRegion>(dir: RegionDirectory<M>) -> int {
    let regions = RegionDirectory::listed(dir.slots(), dir.slots().len() as int);
    resident_bytes(regions, regions.len() as int)
}

/// The resident bytes that the first `n` slots hold.
pub open spec fn slot_bytes<M: MemoryRegion>(slots: Seq<Option<RegionEntry<M>>>, n: int) -> int
    decreases n,
{
    if n <= 0 {
        0
    } else {
        slot_bytes(slots, n - 1) + entry_bytes(slots[n - 1])
    }
}

pub open spec fn entry_bytes<M: MemoryRegion>(slot: Option<RegionEntry<M>>) -> int {
    match slot {
        Some(e) => if resident(e.meta.residency) {
            e.meta.used as int
        } else {
            0
        },
        None => 0,
    }
}

proof fn lemma_resident_prefix(a: Seq<Region>, x: Region, n: int)
    requires
        0 <= n <= a.len(),
    ensures
        resident_bytes(a.push(x), n) == resident_bytes(a, n),
    decreases n,
{
    if n > 0 {
        lemma_resident_prefix(a, x, n - 1);
    }
}

pub(crate) proof fn lemma_resident_by_slots<M: MemoryRegion>(slots: Seq<Option<RegionEntry<M>>>, n: int)
    requires
        0 <= n <= slots.len(),
    ensures
        ({
            let l = RegionDirectory::listed(slots, n);
            resident_bytes(l, l.len() as int) == slot_bytes(slots, n)
        }),
    decreases n,
{
    if n > 0 {
        lemma_resident_by_slots(slots, n - 1);
        let l = RegionDirectory::listed(slots, n - 1);
        if slots[n - 1] is Some {
            lemma_resident_prefix(l, slots[n - 1]->0.meta, l.len() as int);
        }
    }
}

proof fn lemma_slot_bytes_update<M: MemoryRegion>(
    slots: Seq<Option<RegionEntry<M>>>,
    i: int,
    e: Option<RegionEntry<M>>,
    n: int,
)
    requires
        0 <= i < slots.len(),
        0 <= n <= slots.len(),
    ensures
        slot_bytes(slots.update(i, e), n) == slot_bytes(slots, n) + (if i < n {
            entry_bytes(e) - entry_bytes(slots[i])
        } else {
            0
        }),
    decreases n,
{
    if n > 0 {
        lemma_slot_bytes_update(slots, i, e, n - 1);
    }
}

/// A change of one region changes the resident bytes by what that region counts.
pub(crate) proof fn lemma_resident_update<M: MemoryRegion>(
    pre: RegionDirectory<M>,
    post: RegionDirectory<M>,
    id: u16,
    e: RegionEntry<M>,
)
    requires
        pre.has(id),
        post.slots() == pre.slots().update(id as int, Some(e)),
    ensures
        resident_total(post) == resident_total(pre) + entry_bytes(Some(e)) - entry_bytes(pre.at(id)),
{
    let n = pre.slots().len() as int;
    lemma_resident_by_slots(pre.slots(), n);
    lemma_resident_by_slots(post.slots(), n);
    lemma_slot_bytes_update(pre.slots(), id as int, Some(e), n);
}

proof fn lemma_slot_bytes_at_least<M: MemoryRegion>(
    slots: Seq<Option<RegionEntry<M>>>,
    i: int,
    n: int,
)
    requires
        0 <= n <= slots.len(),
    ensures
        slot_bytes(slots, n) >= 0,
        0 <= i < n ==> slot_bytes(slots, n) >= entry_bytes(slots[i]),
    decreases n,
{
    if n > 0 {
        lemma_slot_bytes_at_least(slots, i, n - 1);
    }
}

pub(crate) proof fn lemma_resident_at_least<M: MemoryRegion>(dir: RegionDirectory<M>, id: u16)
    requires
        dir.has(id),
    ensures
        resident_total(dir) >= entry_bytes(dir.at(id)),
{
    let n = dir.slots().len() as int;
    lemma_resident_by_slots(dir.slots(), n);
    lemma_slot_bytes_at_least(dir.slots(), id as int, n);
}

/// The regions of `order` exist in `dir` with that metadata, each once.
spec fn order_current<M: MemoryRegion>(dir: RegionDirectory<M>, order: Seq<Region>) -> bool {
    &&& forall|i: int|
        0 <= i < order.len() ==> eligible(#[trigger] order[i]) && dir.has(order[i].id) && dir.at(
            order[i].id,
        )->0.meta == order[i]
    &&& forall|i: int, j: int|
        0 <= i < j < order.len() ==> (#[trigger] order[i]).id != (#[trigger] order[j]).id
}

/// Region `id` is the same in both directories.
pub open spec fn untouched<M: MemoryRegion>(
    pre: RegionDirectory<M>,
    post: RegionDirectory<M>,
    id: u16,
) -> bool {
    post.at(id) == pre.at(id)
}

proof fn lemma_run_accounts<M: MemoryRegion, B: BackingStore>(
    pre: RegionDirectory<M>,
    store_pre: B,
    order: Seq<Region>,
    target: u64,
    current: u64,
    report: EvictionReport,
    post: RegionDirectory<M>,
    store_post: B,
    r: Result<EvictionReport, TvmError>,
)
    requires
        pre.wf(),
        order_current(pre, order),
        current == resident_total(pre),
        report.bytes_freed + current <= u64::MAX,
        ConcurrentDirectory::runs(
            pre,
            store_pre,
            order,
            target,
            current,
            report,
            post,
            store_post,
            r,
        ),
    ensures
        r matches Ok(done) ==> {
            &&& done.target_met == (resident_total(post) <= target)
            &&& done.bytes_freed == report.bytes_freed + current - resident_total(post)
        },
        forall|id: u16|
            (forall|i: int| 0 <= i < order.len() ==> (#[trigger] order[i]).id != id)
                ==> #[trigger] untouched(pre, post, id),
    decreases order.len(),
{
    if order.len() > 0 && current > target {
        let first = order[0];
        let rest = order.drop_first();
        let (mid, store_mid, out) = choose|
            mid: RegionDirectory<M>,
            store_mid: B,
            out: Result<(), TvmError>,
        | #[trigger]
            RegionDirectory::spills(pre, first.id, store_pre, mid, store_mid, out) && match out {
                Ok(_) => ConcurrentDirectory::runs(
                    mid,
                    store_mid,
                    rest,
                    target,
                    left(current, first.used),
                    one_more(report, first.used),
                    post,
                    store_post,
                    r,
                ),
                Err(e) => if passed_over(e) {
                    ConcurrentDirectory::runs(
                        mid,
                        store_mid,
                        rest,
                        target,
                        current,
                        report,
                        post,
                        store_post,
                        r,
                    )
                } else {
                    post == mid && store_post == store_mid && r == Err::<EvictionReport, TvmError>(
                        e,
                    )
                },
            };
        let e = pre.at(first.id)->0;
        assert(pre.has(first.id) && e.meta == first);
        lemma_resident_at_least(pre, first.id);
        assert forall|k: u16| k != first.id implies #[trigger] untouched(pre, mid, k) by {}
        assert forall|i: int| 0 <= i < rest.len() implies eligible(#[trigger] rest[i]) && mid.has(
            rest[i].id,
        ) && mid.at(rest[i].id)->0.meta == rest[i] by {
            assert(rest[i] == order[i + 1]);
            assert(order[0].id != order[i + 1].id);
            assert(untouched(pre, mid, rest[i].id));
        }
        assert forall|i: int, j: int| 0 <= i < j < rest.len() implies (#[trigger] rest[i]).id != (
        #[trigger] rest[j]).id by {
            assert(rest[i] == order[i + 1] && rest[j] == order[j + 1]);
        }
        match e.spill_step() {
            SpillStep::Store => {
                match out {
                    Ok(_) => {
                        RegionDirectory::lemma_leaves_warm_wf(
                            pre,
                            mid,
                            first.id,
                            e.emptied().spilled(),
                        );
                        lemma_resident_update(pre, mid, first.id, e.emptied().spilled());
                    },
                    Err(_) => {
                        RegionDirectory::lemma_only_wf(pre, mid, first.id, e.emptied());
                        lemma_resident_update(pre, mid, first.id, e.emptied());
                    },
                }
            },
            _ => {
                RegionDirectory::lemma_same_wf(pre, mid);
            },
        }
        match out {
            Ok(_) => {
                lemma_run_accounts(
                    mid,
                    store_mid,
                    rest,
                    target,
                    left(current, first.used),
                    one_more(report, first.used),
                    post,
                    store_post,
                    r,
                );
            },
            Err(err) => {
                if passed_over(err) {
                    lemma_run_accounts(
                        mid,
                        store_mid,
                        rest,
                        target,
                        current,
                        report,
                        post,
                        store_post,
                        r,
                    );
                }
            },
        }
        assert forall|id: u16|
            (forall|i: int| 0 <= i < order.len() ==> (#[trigger] order[i]).id
                != id) implies #[trigger] untouched(pre, post, id) by {
            assert(order[0].id != id);
            assert(untouched(pre, mid, id));
            assert forall|i: int| 0 <= i < rest.len() implies (#[trigger] rest[i]).id != id by {
                assert(rest[i] == order[i + 1]);
            }
            if out is Ok || passed_over(out->Err_0) {
                assert(untouched(mid, post, id));
            }
        }
    }
}

/// A successful bulk eviction meets its target exactly when at most `target`
/// bytes are resident afterwards, and it reports the bytes by which the
/// resident total shrank.
pub proof fn law_eviction_reports_truth<M: MemoryRegion, B: BackingStore>(
    pre: RegionDirectory<M>,
    target: u64,
    within: WithinTier,
    store_pre: B,
    post: RegionDirectory<M>,
    store_post: B,
    report: EvictionReport,
)
    requires
        pre.wf(),
        ConcurrentDirectory::demotes_until(
            pre,
            target,
            within,
            store_pre,
            post,
            store_post,
            Ok(report),
        ),
    ensures
        report.target_met == (resident_total(post) <= target),
        report.bytes_freed == resident_total(pre) - resident_total(post),
{
    lemma_eviction_run(pre, target, within, store_pre, post, store_post, Ok(report));
}

pub(crate) proof fn lemma_resident_small<M: MemoryRegion>(dir: RegionDirectory<M>, n: int)
    requires
        0 <= n <= dir.slots().len(),
    ensures
        0 <= slot_bytes(dir.slots(), n) <= n * 0xffff_ffff,
    decreases n,
{
    if n > 0 {
        lemma_resident_small(dir, n - 1);
    }
}

proof fn lemma_eviction_run<M: MemoryRegion, B: BackingStore>(
    pre: RegionDirectory<M>,
    target: u64,
    within: WithinTier,
    store_pre: B,
    post: RegionDirectory<M>,
    store_post: B,
    r: Result<EvictionReport, TvmError>,
)
    requires
        pre.wf(),
        ConcurrentDirectory::demotes_until(
            pre,
            target,
            within,
            store_pre,
            post,
            store_post,
            r,
        ),
    ensures
        r matches Ok(report) ==> report.target_met == (resident_total(post) <= target)
            && report.bytes_freed == resident_total(pre) - resident_total(post),
        forall|id: u16|
            pre.has(id) && !eligible(pre.at(id)->0.meta) ==> #[trigger] untouched(pre, post, id),
{
    let n = pre.slots().len() as int;
    let regions = RegionDirectory::listed(pre.slots(), n);
    let current = resident_total(pre);
    lemma_resident_by_slots(pre.slots(), n);
    lemma_resident_small(pre, n);
    if current > target {
        let order = choose|order: Seq<Region>| #[trigger]
            is_eviction_order(within, regions, order) && ConcurrentDirectory::runs(
                pre,
                store_pre,
                order,
                target,
                current as u64,
                empty_report(),
                post,
                store_post,
                r,
            );
        lemma_listed(pre, n);
        assert forall|i: int| 0 <= i < order.len() implies eligible(#[trigger] order[i]) && pre.has(
            order[i].id,
        ) && pre.at(order[i].id)->0.meta == order[i] by {
            assert(regions.contains(order[i]));
            let k = choose|k: int| 0 <= k < regions.len() && regions[k] == order[i];
            assert(pre.has(regions[k].id));
        }
        assert forall|i: int, j: int| 0 <= i < j < order.len() implies (#[trigger] order[i]).id != (
        #[trigger] order[j]).id by {
            assert(crate::eviction::spilled_before(within, order[i], order[j]));
            assert(pre.at(order[i].id)->0.meta == order[i]);
            assert(pre.at(order[j].id)->0.meta == order[j]);
        }
        lemma_run_accounts(
            pre,
            store_pre,
            order,
            target,
            current as u64,
            empty_report(),
            post,
            store_post,
            r,
        );
        assert forall|id: u16|
            pre.has(id) && !eligible(pre.at(id)->0.meta) implies #[trigger] untouched(
            pre,
            post,
            id,
        ) by {
            assert forall|i: int| 0 <= i < order.len() implies (#[trigger] order[i]).id != id by {
                assert(eligible(order[i]));
                assert(pre.at(order[i].id)->0.meta == order[i]);
            }
        }
    }
}

/// Bulk eviction never touches a pinned region, a region that may not be
/// spilled, or one that is cold or external.
pub proof fn law_eviction_skips_ineligible<M: MemoryRegion, B: BackingStore>(
    pre: RegionDirectory<M>,
    target: u64,
    within: WithinTier,
    store_pre: B,
    post: RegionDirectory<M>,
    store_post: B,
    r: Result<EvictionReport, TvmError>,
    id: u16,
)
    requires
        pre.wf(),
        ConcurrentDirectory::demotes_until(
            pre,
            target,
            within,
            store_pre,
            post,
            store_post,
            r,
        ),
        pre.has(id),
        pre.at(id)->0.meta.pinned || !pre.at(id)->0.meta.spillable || !resident(
            pre.at(id)->0.meta.residency,
        ),
    ensures
        post.at(id) == pre.at(id),
{
    lemma_eviction_run(pre, target, within, store_pre, post, store_post, r);
    assert(untouched(pre, post, id));
}

/// The target is absolute: once a call has met it, the same call again does
/// nothing.
pub proof fn law_eviction_is_idempotent<M: MemoryRegion, B: BackingStore>(
    pre: RegionDirectory<M>,
    target: u64,
    within: WithinTier,
    store_pre: B,
    mid: RegionDirectory<M>,
    store_mid: B,
    report: EvictionReport,
    post: RegionDirectory<M>,
    store_post: B,
    r: Result<EvictionReport, TvmError>,
)
    requires
        pre.wf(),
        ConcurrentDirectory::demotes_until(
            pre,
            target,
            within,
            store_pre,
            mid,
            store_mid,
            Ok(report),
        ),
        report.target_met,
        ConcurrentDirectory::demotes_until(
            mid,
            target,
            within,
            store_mid,
            post,
            store_post,
            r,
        ),
    ensures
        post == mid,
        store_post == store_mid,
        r == Ok::<EvictionReport, TvmError>(
            EvictionReport { bytes_freed: 0, regions_spilled: 0, target_met: true },
        ),
{
    law_eviction_reports_truth(pre, target, within, store_pre, mid, store_mid, report);
}

} // verus!
