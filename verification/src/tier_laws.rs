//! What holds as regions move between the tiers, are snapshot, created and destroyed,
//! and as allocations come and go.
use vstd::prelude::*;
use crate::allocator::AllocatorKind;
use crate::cli::words::{law_numeral_reads_decimal, lemma_first_place};
use crate::debug::{status_of, HandleStatus};
use crate::directory::RegionDirectory;
use crate::error::TvmError;
use crate::handle::Handle;
use crate::laws::checks_bounds;
use crate::memory_region::{spill_file_text, BackingStore, MemoryRegion};
use crate::region::{PlacementPolicy, Region, RegionKind, Residency};
use crate::shared_laws::{bytes_moved, law_copy_moves_bytes};
use crate::text::{decimal, digit_char};

verus! {

// ---------------------------------------------------------------------------
// Stores that keep what they are given
// ---------------------------------------------------------------------------

/// A store that keeps what it is given: `kept` tells what it holds for a region and a
/// generation. It takes everything, keeps it under that name beside the rest, and hands it
/// out unchanged.
pub open spec fn keeps_faithfully<B: BackingStore>(
    kept: spec_fn(B, u16, u16) -> Option<Seq<u8>>,
) -> bool {
    &&& forall|s: B, id: u16, g: u16, bytes: Seq<u8>, t: B, r: Result<(), TvmError>| #[trigger]
        B::spills(s, id, g, bytes, t, r) ==> {
            &&& r == Ok::<(), TvmError>(())
            &&& kept(t, id, g) == Some(bytes)
            &&& forall|i: u16, h: u16|
                i != id || h != g ==> #[trigger] kept(t, i, h) == kept(s, i, h)
        }
    &&& forall|s: B, id: u16, g: u16, t: B, r: Result<Vec<u8>, TvmError>| #[trigger]
        B::loads(s, id, g, t, r) ==> {
            &&& forall|i: u16, h: u16| #[trigger] kept(t, i, h) == kept(s, i, h)
            &&& kept(s, id, g) matches Some(bytes) ==> (r matches Ok(v) && v@ == bytes)
        }
}

/// The region holds the same bytes, the same allocations and the same metadata but for
/// its tier.
pub open spec fn same_contents<M: MemoryRegion>(
    a: RegionDirectory<M>,
    b: RegionDirectory<M>,
    id: u16,
) -> bool {
    let x = a.at(id)->0;
    let y = b.at(id)->0;
    &&& a.has(id) && b.has(id)
    &&& x.memory is Some && y.memory is Some
    &&& y.memory->0.bytes() == x.memory->0.bytes()
    &&& y.allocator == x.allocator
    &&& y.meta == (Region { residency: y.meta.residency, ..x.meta })
}

/// Spilling a region and loading it again gives its bytes back: over a store that keeps
/// what it is given, both succeed, the region is cold and without bytes in between and
/// hot afterwards, and it holds what it held.
pub proof fn law_spill_then_load<M: MemoryRegion, B: BackingStore>(
    pre: RegionDirectory<M>,
    id: u16,
    s0: B,
    mid: RegionDirectory<M>,
    s1: B,
    spilled: Result<(), TvmError>,
    post: RegionDirectory<M>,
    s2: B,
    r: Result<(), TvmError>,
    kept: spec_fn(B, u16, u16) -> Option<Seq<u8>>,
    other: u16,
)
    requires
        pre.wf(),
        keeps_faithfully(kept),
        pre.has(id),
        pre.at(id)->0.memory is Some,
        pre.at(id)->0.meta.residency != Residency::Cold,
        !pre.at(id)->0.meta.pinned,
        pre.at(id)->0.meta.spillable,
        RegionDirectory::spills(pre, id, s0, mid, s1, spilled),
        RegionDirectory::loads(mid, id, s1, post, s2, r),
    ensures
        spilled is Ok,
        mid.at(id)->0.meta.residency == Residency::Cold,
        mid.at(id)->0.memory is None,
        !mid.lru().contains(id),
        r is Ok,
        post.at(id)->0.meta.residency == Residency::Hot,
        same_contents(pre, post, id),
        other != id ==> mid.at(other) == pre.at(other) && post.at(other) == pre.at(other),
{
    crate::directory::lemma_without(pre.lru(), id);
    let e = pre.at(id)->0;
    assert(B::spills(s0, id, e.meta.generation, e.memory->0.bytes(), s1, spilled));
    assert(kept(s1, id, e.meta.generation) == Some(e.memory->0.bytes()));
}

/// A read of a cold region that loads on demand hands out the bytes that were spilled:
/// over a store that keeps what it is given, it is the read that would have been done
/// before the spill.
pub proof fn law_fault_reads_what_was_spilled<M: MemoryRegion, B: BackingStore>(
    pre: RegionDirectory<M>,
    s0: B,
    mid: RegionDirectory<M>,
    s1: B,
    handle: Handle,
    before: Seq<u8>,
    post: RegionDirectory<M>,
    after: Seq<u8>,
    s2: B,
    r: Result<(), TvmError>,
    kept: spec_fn(B, u16, u16) -> Option<Seq<u8>>,
)
    requires
        pre.wf(),
        checks_bounds::<M>(),
        keeps_faithfully(kept),
        pre.has(handle.region_id),
        pre.at(handle.region_id)->0.memory is Some,
        pre.at(handle.region_id)->0.meta.residency != Residency::Cold,
        !pre.at(handle.region_id)->0.meta.pinned,
        pre.at(handle.region_id)->0.meta.spillable,
        pre.at(handle.region_id)->0.meta.generation == handle.generation,
        pre.at(handle.region_id)->0.memory->0.bytes().len() == pre.at(
            handle.region_id,
        )->0.meta.capacity,
        handle.offset + before.len() <= pre.at(handle.region_id)->0.meta.capacity,
        RegionDirectory::spills(pre, handle.region_id, s0, mid, s1, Ok(())),
        RegionDirectory::reads_or_faults(mid, handle, before, s1, post, after, s2, r),
    ensures
        r is Ok,
        after == pre.at(handle.region_id)->0.memory->0.bytes().subrange(
            handle.offset as int,
            handle.offset + before.len(),
        ),
{
    let id = handle.region_id;
    let e = pre.at(id)->0;
    assert(B::spills(s0, id, e.meta.generation, e.memory->0.bytes(), s1, Ok(())));
    let (hot, loaded) = choose|hot: RegionDirectory<M>, loaded: Result<(), TvmError>| #[trigger]
        RegionDirectory::loads(mid, id, s1, hot, s2, loaded) && match loaded {
            Err(_) => r == loaded && after == before && RegionDirectory::same(hot, post),
            Ok(_) => RegionDirectory::reads(hot, handle, before, post, after, r),
        };
    assert(hot.at(id)->0.memory->0.bytes() == e.memory->0.bytes());
    assert(hot.at(id)->0.memory->0.read_result(handle.offset, before.len()) is Ok);
}

/// A write of a cold region that loads on demand changes the bytes that it names and keeps
/// the spilled ones besides.
pub proof fn law_fault_writes_into_what_was_spilled<M: MemoryRegion, B: BackingStore>(
    pre: RegionDirectory<M>,
    s0: B,
    mid: RegionDirectory<M>,
    s1: B,
    handle: Handle,
    data: Seq<u8>,
    post: RegionDirectory<M>,
    s2: B,
    r: Result<(), TvmError>,
    kept: spec_fn(B, u16, u16) -> Option<Seq<u8>>,
    at: int,
)
    requires
        pre.wf(),
        checks_bounds::<M>(),
        keeps_faithfully(kept),
        pre.has(handle.region_id),
        pre.at(handle.region_id)->0.memory is Some,
        pre.at(handle.region_id)->0.meta.residency != Residency::Cold,
        !pre.at(handle.region_id)->0.meta.pinned,
        pre.at(handle.region_id)->0.meta.spillable,
        pre.at(handle.region_id)->0.meta.generation == handle.generation,
        pre.at(handle.region_id)->0.memory->0.bytes().len() == pre.at(
            handle.region_id,
        )->0.meta.capacity,
        handle.offset + data.len() <= pre.at(handle.region_id)->0.meta.capacity,
        RegionDirectory::spills(pre, handle.region_id, s0, mid, s1, Ok(())),
        RegionDirectory::writes_or_faults(mid, handle, data, s1, post, s2, r),
        0 <= at < pre.at(handle.region_id)->0.meta.capacity,
    ensures
        r is Ok,
        post.at(handle.region_id)->0.memory->0.bytes()[at] == (if handle.offset <= at
            < handle.offset + data.len() {
            data[at - handle.offset]
        } else {
            pre.at(handle.region_id)->0.memory->0.bytes()[at]
        }),
{
    let id = handle.region_id;
    let e = pre.at(id)->0;
    assert(B::spills(s0, id, e.meta.generation, e.memory->0.bytes(), s1, Ok(())));
    let (hot, loaded) = choose|hot: RegionDirectory<M>, loaded: Result<(), TvmError>| #[trigger]
        RegionDirectory::loads(mid, id, s1, hot, s2, loaded) && match loaded {
            Err(_) => r == loaded && RegionDirectory::same(hot, post),
            Ok(_) => RegionDirectory::writes(hot, handle, data, post, r),
        };
    assert(hot.at(id)->0.memory->0.bytes() == e.memory->0.bytes());
    assert(hot.at(id)->0.memory->0.write_result(handle.offset, data.len()) is Ok);
}

/// An access to a region that is not cold asks the store for nothing and is the plain one.
pub proof fn law_no_fault_without_need<M: MemoryRegion, B: BackingStore>(
    pre: RegionDirectory<M>,
    handle: Handle,
    before: Seq<u8>,
    s0: B,
    post: RegionDirectory<M>,
    after: Seq<u8>,
    s1: B,
    r: Result<(), TvmError>,
)
    requires
        !pre.has(handle.region_id) || pre.at(handle.region_id)->0.meta.residency
            != Residency::Cold,
    ensures
        RegionDirectory::reads_or_faults(pre, handle, before, s0, post, after, s1, r) ==> s1 == s0
            && RegionDirectory::reads(pre, handle, before, post, after, r),
        RegionDirectory::writes_or_faults(pre, handle, before, s0, post, s1, r) ==> s1 == s0
            && RegionDirectory::writes(pre, handle, before, post, r),
{
}

// ---------------------------------------------------------------------------
// Promotion, demotion, eviction
// ---------------------------------------------------------------------------

/// One tier down: a hot region becomes warm and keeps its bytes, and is the newest of the
/// warm list; a warm one becomes cold and its bytes are in the store.
pub proof fn law_demotion_goes_one_tier_down<M: MemoryRegion, B: BackingStore>(
    pre: RegionDirectory<M>,
    id: u16,
    s0: B,
    post: RegionDirectory<M>,
    s1: B,
    r: Result<(), TvmError>,
    other: u16,
)
    requires
        pre.wf(),
        pre.has(id),
        RegionDirectory::demotes(pre, id, s0, post, s1, r),
    ensures
        other != id ==> post.at(other) == pre.at(other),
        ({
            let e = pre.at(id)->0;
            let p = post.at(id)->0;
            &&& e.meta.pinned ==> r == Err::<(), TvmError>(TvmError::Pinned)
            &&& !e.meta.pinned && !e.meta.spillable ==> r == Err::<(), TvmError>(
                TvmError::PolicyViolation,
            )
            &&& !e.meta.pinned && e.meta.spillable && e.meta.residency == Residency::Hot ==> {
                &&& r is Ok
                &&& p.meta.residency == Residency::Warm
                &&& p.memory == e.memory
                &&& p.allocator == e.allocator
                &&& post.lru()[0] == id
                &&& s1 == s0
            }
            &&& !e.meta.pinned && e.meta.spillable && e.meta.residency == Residency::Warm
                && e.memory is Some ==> B::spills(
                s0,
                id,
                e.meta.generation,
                e.memory->0.bytes(),
                s1,
                r,
            ) && (r is Ok ==> p.meta.residency == Residency::Cold && p.memory is None
                && !post.lru().contains(id))
            &&& !e.meta.pinned && e.meta.spillable && (e.meta.residency == Residency::Cold
                || e.meta.residency == Residency::External) ==> r == Err::<(), TvmError>(
                TvmError::NotResident,
            )
        }),
{
    crate::directory::lemma_without(pre.lru(), id);
}

/// Promotion undoes demotion: a hot region that went warm and comes back is hot again and
/// off the warm list, with its bytes, its allocations and its metadata.
pub proof fn law_promotion_undoes_demotion<M: MemoryRegion, B: BackingStore>(
    pre: RegionDirectory<M>,
    id: u16,
    s0: B,
    mid: RegionDirectory<M>,
    s1: B,
    post: RegionDirectory<M>,
    s2: B,
    r: Result<(), TvmError>,
)
    requires
        pre.wf(),
        pre.has(id),
        pre.at(id)->0.meta.residency == Residency::Hot,
        RegionDirectory::demotes(pre, id, s0, mid, s1, Ok(())),
        mid.wf(),
        RegionDirectory::promotes(mid, id, s1, post, s2, r),
    ensures
        r is Ok,
        s2 == s0,
        post.at(id)->0.meta == pre.at(id)->0.meta,
        post.at(id)->0.memory == pre.at(id)->0.memory,
        post.at(id)->0.allocator == pre.at(id)->0.allocator,
        !post.lru().contains(id),
{
    crate::directory::lemma_without(mid.lru(), id);
}

/// A promotion that succeeds leaves the region hot. An external region is refused.
pub proof fn law_promotion_makes_hot<M: MemoryRegion, B: BackingStore>(
    pre: RegionDirectory<M>,
    id: u16,
    s0: B,
    post: RegionDirectory<M>,
    s1: B,
    r: Result<(), TvmError>,
    other: u16,
)
    requires
        RegionDirectory::promotes(pre, id, s0, post, s1, r),
    ensures
        r is Ok ==> post.has(id) && post.at(id)->0.meta.residency == Residency::Hot,
        pre.has(id) && pre.at(id)->0.meta.residency == Residency::External ==> r == Err::<
            (),
            TvmError,
        >(TvmError::NotResident),
        pre.has(id) && pre.at(id)->0.meta.residency == Residency::Warm ==> r is Ok && post.at(
            id,
        )->0.memory == pre.at(id)->0.memory,
        !pre.has(id) ==> r == Err::<(), TvmError>(TvmError::RegionNotFound(id)),
        other != id ==> post.at(other) == pre.at(other),
{
}

/// The region that eviction picks is the one that has been on the warm list the longest
/// among those that can be evicted, which are warm and not pinned; it picks none only
/// where there is none.
pub proof fn law_eviction_picks_the_oldest<M: MemoryRegion>(dir: RegionDirectory<M>, n: int)
    requires
        0 <= n <= dir.lru().len(),
    ensures
        match dir.oldest_evictable(n) {
            Some(i) => {
                let e = dir.at(dir.lru()[i])->0;
                &&& 0 <= i < n
                &&& dir.has(dir.lru()[i])
                &&& e.meta.residency == Residency::Warm
                &&& !e.meta.pinned
                &&& forall|j: int|
                    i < j < n && dir.has(#[trigger] dir.lru()[j]) ==> dir.at(
                        dir.lru()[j],
                    )->0.meta.pinned || dir.at(dir.lru()[j])->0.meta.residency != Residency::Warm
            },
            None => forall|j: int|
                0 <= j < n && dir.has(#[trigger] dir.lru()[j]) ==> dir.at(dir.lru()[j])->0.meta.pinned
                    || dir.at(dir.lru()[j])->0.meta.residency != Residency::Warm,
        },
    decreases n,
{
    if n > 0 {
        if !dir.evictable(dir.lru()[n - 1]) {
            law_eviction_picks_the_oldest(dir, n - 1);
        }
    }
}

/// What an eviction that succeeds did: the picked region is cold, its bytes went to the
/// store, and every other region is as it was.
pub proof fn law_eviction_spills_the_picked<M: MemoryRegion, B: BackingStore>(
    pre: RegionDirectory<M>,
    i: int,
    s0: B,
    post: RegionDirectory<M>,
    s1: B,
    id: u16,
    other: u16,
)
    requires
        pre.wf(),
        0 <= i < pre.lru().len(),
        pre.evictable(pre.lru()[i]),
        pre.at(pre.lru()[i])->0.memory is Some,
        RegionDirectory::evicts(pre, i, s0, post, s1, Ok(Some(id))),
    ensures
        id == pre.lru()[i],
        post.at(id)->0.meta.residency == Residency::Cold,
        post.at(id)->0.memory is None,
        B::spills(
            s0,
            id,
            pre.at(id)->0.meta.generation,
            pre.at(id)->0.memory->0.bytes(),
            s1,
            Ok(()),
        ),
        other != id ==> post.at(other) == pre.at(other),
{
    let (mid, out) = choose|mid: RegionDirectory<M>, out: Result<(), TvmError>|
        RegionDirectory::lru_cut(pre, mid, i + 1) && #[trigger] RegionDirectory::spills(
            mid,
            pre.lru()[i],
            s0,
            post,
            s1,
            out,
        ) && Ok::<Option<u16>, TvmError>(Some(id)) == (match out {
            Ok(_) => Ok::<Option<u16>, TvmError>(Some(pre.lru()[i])),
            Err(e) => Err(e),
        });
    assert(mid.at(id) == pre.at(id));
    assert(mid.at(other) == pre.at(other));
    let e = pre.at(id)->0;
    assert(pre.has(id));
    assert(out->Ok_0 == ());
    assert(B::spills(s0, id, e.meta.generation, e.memory->0.bytes(), s1, out));
}

/// Who was demoted first is evicted first: of two regions that became warm one after the
/// other, eviction picks the second only where the first cannot be evicted.
pub proof fn law_first_demoted_goes_first<M: MemoryRegion, B: BackingStore>(
    pre: RegionDirectory<M>,
    a: u16,
    b: u16,
    s0: B,
    mid: RegionDirectory<M>,
    s1: B,
    post: RegionDirectory<M>,
    s2: B,
)
    requires
        pre.wf(),
        a != b,
        pre.has(a) && pre.at(a)->0.meta.residency == Residency::Hot,
        pre.has(b) && pre.at(b)->0.meta.residency == Residency::Hot,
        RegionDirectory::demotes(pre, a, s0, mid, s1, Ok(())),
        mid.wf(),
        RegionDirectory::demotes(mid, b, s1, post, s2, Ok(())),
        post.wf(),
    ensures
        ({
            let i = post.oldest_evictable(post.lru().len() as int);
            i is Some && post.lru()[i->0] != b
        }),
{
    let n = post.lru().len() as int;
    law_eviction_picks_the_oldest(post, n);
    crate::directory::lemma_without(mid.lru(), b);
    assert(mid.lru()[0] == a);
    assert(mid.lru().contains(a));
    let rest = crate::directory::without(mid.lru(), b);
    assert(rest.contains(a));
    let j = choose|j: int| 0 <= j < rest.len() && rest[j] == a;
    assert(post.lru()[j + 1] == a);
    assert(post.lru()[0] == b);
    assert(post.has(a) && post.at(a) == mid.at(a));
    assert(post.at(a)->0.meta.residency == Residency::Warm);
    assert(!post.at(a)->0.meta.pinned);
    let i = post.oldest_evictable(n);
    if i is Some && post.lru()[i->0] == b {
        assert(i->0 == 0);
        assert(post.lru()[j + 1] == a);
    }
}

// ---------------------------------------------------------------------------
// External regions and snapshots
// ---------------------------------------------------------------------------

/// A region that left is external and without bytes; loading it gives it the bytes that
/// the loader answers for its id and generation, and makes it hot.
pub proof fn law_external_region_comes_back<M: MemoryRegion, F: Fn(u16, u16) -> Result<
    Vec<u8>,
    TvmError,
>>(
    pre: RegionDirectory<M>,
    id: u16,
    mid: RegionDirectory<M>,
    left: Result<(), TvmError>,
    loader: F,
    post: RegionDirectory<M>,
    r: Result<(), TvmError>,
    bytes: Seq<u8>,
)
    requires
        pre.wf(),
        pre.has(id),
        !pre.at(id)->0.meta.pinned,
        RegionDirectory::leaves(pre, id, mid, left),
        forall|g: u16, answer: Result<Vec<u8>, TvmError>|
            g == pre.at(id)->0.meta.generation && #[trigger] call_ensures(loader, (id, g), answer)
                ==> (answer matches Ok(v) && v@ == bytes),
        RegionDirectory::loads_external(mid, id, loader, post, r),
    ensures
        left is Ok,
        mid.at(id)->0.meta.residency == Residency::External,
        mid.at(id)->0.memory is None,
        r is Ok,
        post.at(id)->0.meta == (Region { residency: Residency::Hot, ..pre.at(id)->0.meta }),
        post.at(id)->0.memory->0.bytes() == bytes,
        post.at(id)->0.allocator == pre.at(id)->0.allocator,
{
}

/// A snapshot that is taken in gives the region the contents that it had when the snapshot
/// was made, whatever happened to its bytes since.
pub proof fn law_snapshot_restores<M: MemoryRegion>(
    then: RegionDirectory<M>,
    id: u16,
    snapshot: Vec<u8>,
    pre: RegionDirectory<M>,
    post: RegionDirectory<M>,
    r: Result<(), TvmError>,
    other: u16,
)
    requires
        then.snapshots(id, Ok(snapshot)),
        then.at(id)->0.memory->0.bytes().len() == then.at(id)->0.meta.capacity,
        pre.has(id),
        pre.at(id)->0.meta.capacity == then.at(id)->0.meta.capacity,
        RegionDirectory::restores(pre, id, snapshot@, post, r),
    ensures
        then.has(id) && then.at(id)->0.memory is Some,
        r is Ok,
        post.at(id)->0.memory->0.bytes() == then.at(id)->0.memory->0.bytes(),
        post.at(id)->0.meta == (Region { residency: Residency::Hot, ..pre.at(id)->0.meta }),
        post.at(id)->0.allocator == pre.at(id)->0.allocator,
        other != id ==> post.at(other) == pre.at(other),
{
}

/// A snapshot that is larger than the region is refused and changes nothing.
pub proof fn law_large_snapshot_is_refused<M: MemoryRegion>(
    pre: RegionDirectory<M>,
    id: u16,
    bytes: Seq<u8>,
    post: RegionDirectory<M>,
    r: Result<(), TvmError>,
)
    requires
        pre.has(id),
        pre.at(id)->0.meta.capacity < bytes.len() <= u32::MAX,
        RegionDirectory::restores(pre, id, bytes, post, r),
    ensures
        r == Err::<(), TvmError>(TvmError::OutOfBounds),
        post.slots() == pre.slots(),
{
}

// ---------------------------------------------------------------------------
// Copies through handles
// ---------------------------------------------------------------------------

/// A copy from where a handle points, or to where it points, moves exactly those bytes; a
/// stale handle is refused and nothing changes.
pub proof fn law_handle_copies<M: MemoryRegion>(
    pre: RegionDirectory<M>,
    h: Handle,
    region: u16,
    offset: u32,
    len: u32,
    post: RegionDirectory<M>,
    r: Result<(), TvmError>,
)
    ensures
        RegionDirectory::reads_into(pre, h, region, offset, len, post, r) && r is Ok ==> pre.at(
            h.region_id,
        )->0.meta.generation == h.generation && bytes_moved(
            pre,
            h.region_id,
            h.offset,
            region,
            offset,
            len,
            post,
        ),
        RegionDirectory::writes_from(pre, region, offset, h, len, post, r) && r is Ok ==> pre.at(
            h.region_id,
        )->0.meta.generation == h.generation && bytes_moved(
            pre,
            region,
            offset,
            h.region_id,
            h.offset,
            len,
            post,
        ),
        pre.has(h.region_id) && pre.at(h.region_id)->0.meta.generation != h.generation ==> {
            &&& RegionDirectory::reads_into(pre, h, region, offset, len, post, r) ==> r == Err::<
                (),
                TvmError,
            >(TvmError::StaleHandle) && post.slots() == pre.slots()
            &&& RegionDirectory::writes_from(pre, region, offset, h, len, post, r) ==> r == Err::<
                (),
                TvmError,
            >(TvmError::StaleHandle) && post.slots() == pre.slots()
        },
{
    if RegionDirectory::copies(pre, h.region_id, h.offset, region, offset, len, post, r) {
        law_copy_moves_bytes(pre, h.region_id, h.offset, region, offset, len, post, r);
    }
    if RegionDirectory::copies(pre, region, offset, h.region_id, h.offset, len, post, r) {
        law_copy_moves_bytes(pre, region, offset, h.region_id, h.offset, len, post, r);
    }
}

// ---------------------------------------------------------------------------
// Regions and allocations
// ---------------------------------------------------------------------------

/// A new region has an id that none has, the kind, capacity and policy that were asked for
/// and the memory that was given, is at generation one with nothing used, unpinned, and
/// leaves the others alone.
pub proof fn law_new_region<M: MemoryRegion>(
    pre: RegionDirectory<M>,
    kind: RegionKind,
    capacity: u32,
    allocator: AllocatorKind,
    policy: PlacementPolicy,
    memory: M,
    post: RegionDirectory<M>,
    id: u16,
    other: u16,
)
    requires
        RegionDirectory::creates(pre, kind, capacity, allocator, policy, memory, post, Ok(id)),
    ensures
        !pre.has(id),
        post.has(id),
        ({
            let m = post.at(id)->0.meta;
            &&& m.id == id && m.generation == 1
            &&& m.kind == kind && m.capacity == capacity && m.used == 0
            &&& m.residency == policy.initial_residency
            &&& !m.pinned && m.pinnable == policy.pinnable && m.spillable == policy.spillable
        }),
        post.at(id)->0.memory == Some(memory),
        policy.initial_residency == Residency::Warm ==> post.lru().contains(id),
        other != id ==> post.at(other) == pre.at(other),
{
    if policy.initial_residency == Residency::Warm {
        assert(post.lru()[0] == id);
    }
    if other < pre.slots().len() {
        assert(post.slots().drop_last()[other as int] == pre.slots()[other as int]);
    }
}

/// A region that was destroyed is gone: reads, writes and allocations in it are refused as
/// not found, and every other region is as it was.
pub proof fn law_destroyed_region_is_gone<M: MemoryRegion>(
    pre: RegionDirectory<M>,
    handle: Handle,
    mid: RegionDirectory<M>,
    data: Seq<u8>,
    size: u32,
    post: RegionDirectory<M>,
    after: Seq<u8>,
    r: Result<(), TvmError>,
    h: Result<Handle, TvmError>,
    other: u16,
)
    requires
        pre.wf(),
        pre.has(handle.region_id),
        RegionDirectory::destroys(pre, handle.region_id, mid, Ok(())),
    ensures
        !mid.has(handle.region_id),
        !mid.lru().contains(handle.region_id),
        other != handle.region_id ==> mid.at(other) == pre.at(other),
        RegionDirectory::reads(mid, handle, data, post, after, r) ==> r == Err::<(), TvmError>(
            TvmError::RegionNotFound(handle.region_id),
        ),
        RegionDirectory::writes(mid, handle, data, post, r) ==> r == Err::<(), TvmError>(
            TvmError::RegionNotFound(handle.region_id),
        ),
        RegionDirectory::allocates(mid, handle.region_id, size, 1, post, h) ==> h == Err::<
            Handle,
            TvmError,
        >(TvmError::RegionNotFound(handle.region_id)),
{
    crate::directory::lemma_without(pre.lru(), handle.region_id);
}

/// A new allocation can be used: its handle is current, aligned and inside the region, its
/// bytes overlap nothing that was handed out before, and on a checked memory as long as the
/// region all of it can be written. No byte, no other region and nothing but the bytes in
/// use of the region changes.
pub proof fn law_new_allocation_is_usable<M: MemoryRegion>(
    pre: RegionDirectory<M>,
    id: u16,
    size: u32,
    align: u32,
    mid: RegionDirectory<M>,
    h: Handle,
    a: u32,
    len: u32,
    data: Seq<u8>,
    post: RegionDirectory<M>,
    w: Result<(), TvmError>,
    other: u16,
)
    requires
        pre.wf(),
        checks_bounds::<M>(),
        pre.has(id),
        pre.at(id)->0.memory is Some,
        pre.at(id)->0.memory->0.bytes().len() == pre.at(id)->0.meta.capacity,
        RegionDirectory::allocates(pre, id, size, align, mid, Ok(h)),
        data.len() <= size,
        RegionDirectory::writes(mid, h, data, post, w),
    ensures
        h.region_id == id,
        h.generation == pre.at(id)->0.meta.generation,
        h.offset + size <= pre.at(id)->0.meta.capacity,
        pre.at(id)->0.allocator.occupied(a, len) ==> (a + len <= h.offset || h.offset + size <= a)
            && mid.at(id)->0.allocator.occupied(a, len),
        mid.at(id)->0.allocator.occupied(h.offset, size),
        mid.at(id)->0.memory == pre.at(id)->0.memory,
        mid.at(id)->0.meta == (Region {
            used: mid.at(id)->0.allocator.used_bytes(),
            ..pre.at(id)->0.meta
        }),
        other != id ==> mid.at(other) == pre.at(other),
        w is Ok,
{
    let e = pre.at(id)->0;
    let p = mid.at(id)->0;
    e.allocator.law_allocation_is_taken(size, align, p.allocator, h.offset);
    if e.allocator.occupied(a, len) {
        crate::allocator::RegionAllocator::law_allocation_is_apart(
            e.allocator,
            size,
            align,
            p.allocator,
            h.offset,
            a,
            len,
        );
    }
    assert(p.memory->0.write_result(h.offset, data.len()) is Ok);
}

/// Giving an allocation back changes no byte and no other region. The handle must be
/// current; an offset that is no allocation of a free list is refused.
pub proof fn law_giving_back<M: MemoryRegion>(
    pre: RegionDirectory<M>,
    h: Handle,
    post: RegionDirectory<M>,
    r: Result<(), TvmError>,
    other: u16,
)
    requires
        pre.wf(),
        pre.has(h.region_id),
        RegionDirectory::deallocates(pre, h, post, r),
    ensures
        other != h.region_id ==> post.at(other) == pre.at(other),
        post.at(h.region_id)->0.memory == pre.at(h.region_id)->0.memory,
        pre.at(h.region_id)->0.meta.generation != h.generation ==> r == Err::<(), TvmError>(
            TvmError::StaleHandle,
        ) && post.slots() == pre.slots(),
        ({
            let e = pre.at(h.region_id)->0;
            let p = post.at(h.region_id)->0;
            e.meta.generation == h.generation && e.allocator is Freelist ==> {
                let live = e.allocator->Freelist_0.live();
                &&& r is Ok <==> live.contains_key(h.offset)
                &&& r is Ok ==> p.allocator is Freelist && p.allocator->Freelist_0.live()
                    == live.remove(h.offset) && p.meta.used == e.meta.used - live[h.offset]
                &&& r is Err ==> r == Err::<(), TvmError>(TvmError::OutOfBounds)
            }
        }),
{
}

/// What is said of a handle is what an access of one byte comes to, on a checked memory as
/// long as the region whose bytes are there exactly in the resident tiers.
pub proof fn law_handle_status_tells_access<M: MemoryRegion>(
    dir: RegionDirectory<M>,
    h: Handle,
    before: Seq<u8>,
    post: RegionDirectory<M>,
    after: Seq<u8>,
    r: Result<(), TvmError>,
)
    requires
        checks_bounds::<M>(),
        before.len() == 1,
        RegionDirectory::reads(dir, h, before, post, after, r),
        dir.has(h.region_id) ==> {
            let e = dir.at(h.region_id)->0;
            &&& e.memory is Some <==> e.meta.residency == Residency::Hot || e.meta.residency
                == Residency::Warm
            &&& e.memory matches Some(m) ==> m.bytes().len() == e.meta.capacity
        },
    ensures
        status_of(dir, h) == HandleStatus::Valid <==> r is Ok,
        status_of(dir, h) == HandleStatus::UnknownRegion <==> r == Err::<(), TvmError>(
            TvmError::RegionNotFound(h.region_id),
        ),
        status_of(dir, h) == HandleStatus::StaleGeneration <==> r == Err::<(), TvmError>(
            TvmError::StaleHandle,
        ),
        status_of(dir, h) == HandleStatus::NotResident ==> r == Err::<(), TvmError>(
            TvmError::NotResident,
        ),
        r == Err::<(), TvmError>(TvmError::OutOfBounds) ==> status_of(dir, h)
            == HandleStatus::OutOfBounds,
{
}

proof fn lemma_digits_only(n: nat, i: int)
    requires
        0 <= i < decimal(n).len(),
    ensures
        decimal(n)[i] != '-',
        decimal(n)[i] != '.',
    decreases n,
{
    if n >= 10 {
        if i < decimal(n / 10).len() {
            lemma_digits_only(n / 10, i);
        } else {
            assert(decimal(n)[i] == digit_char(n % 10));
        }
    } else {
        assert(decimal(n)[i] == digit_char(n));
    }
}

/// A number with a mark behind it can be told from the text.
proof fn lemma_number_in_front(n: u32, m: u32, c: char, a: Seq<char>, b: Seq<char>)
    requires
        c == '-' || c == '.',
        decimal(n as nat) + (seq![c] + a) == decimal(m as nat) + (seq![c] + b),
    ensures
        n == m,
        a == b,
{
    let d = decimal(n as nat);
    let e = decimal(m as nat);
    let text = d + (seq![c] + a);
    assert forall|k: int| 0 <= k < d.len() implies text[k] != c by {
        lemma_digits_only(n as nat, k);
    }
    assert(text[d.len() as int] == c);
    lemma_first_place(text, c, d.len() as int);
    let other = e + (seq![c] + b);
    assert forall|k: int| 0 <= k < e.len() implies other[k] != c by {
        lemma_digits_only(m as nat, k);
    }
    assert(other[e.len() as int] == c);
    lemma_first_place(other, c, e.len() as int);
    assert(text.take(d.len() as int) =~= d);
    assert(other.take(e.len() as int) =~= e);
    law_numeral_reads_decimal(n);
    law_numeral_reads_decimal(m);
    assert(text.skip(d.len() as int + 1) =~= a);
    assert(other.skip(e.len() as int + 1) =~= b);
}

/// Regions, and generations of a region, that differ are spilled to files of different names.
pub proof fn law_spill_files_are_apart(a: u16, g: u16, b: u16, h: u16)
    requires
        spill_file_text(a, g) == spill_file_text(b, h),
    ensures
        a == b,
        g == h,
{
    reveal_strlit("region-");
    reveal_strlit("-gen-");
    reveal_strlit(".bin");
    reveal_strlit("gen-");
    reveal_strlit("bin");
    let x = spill_file_text(a, g);
    let y = spill_file_text(b, h);
    let p = "gen-"@ + (decimal(g as nat) + (seq!['.'] + "bin"@));
    let q = "gen-"@ + (decimal(h as nat) + (seq!['.'] + "bin"@));
    assert(x.skip(7) =~= decimal(a as nat) + (seq!['-'] + p));
    assert(y.skip(7) =~= decimal(b as nat) + (seq!['-'] + q));
    lemma_number_in_front(a as u32, b as u32, '-', p, q);
    assert(p.skip(4) =~= decimal(g as nat) + (seq!['.'] + "bin"@));
    assert(q.skip(4) =~= decimal(h as nat) + (seq!['.'] + "bin"@));
    lemma_number_in_front(g as u32, h as u32, '.', "bin"@, "bin"@);
}

} // verus!
