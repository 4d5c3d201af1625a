//! What the allocators promise of where they place requests.
use vstd::prelude::*;
use crate::allocator::{BumpAllocator, FreelistAllocator, SlabAllocator};
use crate::blocks::{
    aligned_up, ascending, block_end, first_fit, fit, in_blocks, in_live, is_power_of_two,
    lemma_aligned_up, separated,
};
use crate::error::TvmError;

verus! {

/// `size` bytes from `offset` on overlap no live allocation.
pub open spec fn is_clear(live: Map<u32, u32>, offset: int, size: int) -> bool {
    forall|k: u32| #[trigger]
        live.contains_key(k) ==> k + live[k] <= offset || offset + size <= k
}

/// A range of free bytes lies in one free block.
proof fn lemma_one_block(free: Seq<(u32, u32)>, limit: int, o: int, n: int) -> (i: int)
    requires
        ascending(free, limit),
        separated(free),
        n > 0,
        forall|b: int| o <= b < o + n ==> #[trigger] in_blocks(free, b),
    ensures
        0 <= i < free.len(),
        free[i].0 <= o,
        o + n <= block_end(free[i]),
    decreases n,
{
    if n == 1 {
        assert(in_blocks(free, o));
        choose|i: int| 0 <= i < free.len() && (#[trigger] free[i]).0 <= o < block_end(free[i])
    } else {
        let i = lemma_one_block(free, limit, o, n - 1);
        let b = o + n - 1;
        assert(in_blocks(free, b));
        let j = choose|j: int|
            0 <= j < free.len() && (#[trigger] free[j]).0 <= b < block_end(free[j]);
        if j < i {
            assert(block_end(free[j]) < free[i].0);
        } else if i < j {
            assert(block_end(free[i]) < free[j].0);
        }
        i
    }
}

/// Aligning goes to the next multiple, and not beyond.
proof fn lemma_aligned_least(value: u32, align: u32, o: int)
    requires
        aligned_up(value, align) is Some,
        value <= o,
        o % (align as int) == 0,
    ensures
        aligned_up(value, align)->0 <= o,
{
    lemma_aligned_up(value, align);
    let a = align as int;
    let v = value + a - 1;
    let k = o / a;
    let q = v / a;
    assert(q * a <= o) by (nonlinear_arith)
        requires
            a > 0,
            k == o / a,
            o % a == 0,
            q == v / a,
            v == value + a - 1,
            value <= o,
    ;
}

proof fn lemma_fit_is_first(
    free: Seq<(u32, u32)>,
    cap: u32,
    size: u32,
    align: u32,
    from: int,
    i: int,
    o: int,
)
    requires
        ascending(free, cap as int),
        is_power_of_two(align),
        cap + align - 1 <= u32::MAX,
        0 <= from <= i < free.len(),
        free[i].0 <= o,
        o + size <= block_end(free[i]),
        o % (align as int) == 0,
    ensures
        first_fit(free, size, align, from) is Some,
        (first_fit(free, size, align, from)->0).1 <= o,
    decreases i - from,
{
    let b = free[from];
    assert(block_end(b) <= cap && block_end(free[i]) <= cap);
    assert(aligned_up(b.0, align) is Some);
    lemma_aligned_up(b.0, align);
    let at = aligned_up(b.0, align)->0;
    if from == i {
        lemma_aligned_least(b.0, align, o);
    } else {
        assert(block_end(free[from]) <= free[i].0);
        if fit(b, size, align) is TooSmall {
            lemma_fit_is_first(free, cap, size, align, from + 1, i, o);
        }
    }
}

/// A free list serves every request that there is room for, at the lowest aligned offset
/// whose bytes overlap no live allocation, and refuses a request only where there is no
/// such offset.
pub proof fn law_freelist_takes_the_lowest_place(
    pre: FreelistAllocator,
    size: u32,
    align: u32,
    post: FreelistAllocator,
    r: Result<u32, TvmError>,
    o: u32,
)
    requires
        pre.wf(),
        size > 0,
        is_power_of_two(align),
        pre.cap() + align - 1 <= u32::MAX,
        FreelistAllocator::allocates(pre, size, align, post, r),
    ensures
        r matches Ok(at) ==> at % align == 0 && at + size <= pre.cap() && is_clear(
            pre.live(),
            at as int,
            size as int,
        ),
        o % align == 0 && o + size <= pre.cap() && is_clear(pre.live(), o as int, size as int)
            ==> r is Ok && r->Ok_0 <= o,
{
    if o % align == 0 && o + size <= pre.cap() && is_clear(pre.live(), o as int, size as int) {
        assert forall|b: int| o <= b < o + size implies #[trigger] in_blocks(
            pre.free_list(),
            b,
        ) by {
            if in_live(pre.live(), b) {
                let k = choose|k: u32| #[trigger]
                    pre.live().contains_key(k) && k <= b < k + pre.live()[k];
                assert(pre.live().contains_key(k));
            }
        }
        let i = lemma_one_block(pre.free_list(), pre.cap() as int, o as int, size as int);
        lemma_fit_is_first(pre.free_list(), pre.cap(), size, align, 0, i, o as int);
    }
}

/// Giving back makes room: whatever overlapped only the allocation that was given back can
/// be allocated again, at that place or a lower one.
pub proof fn law_freelist_reuses_what_was_given_back(
    pre: FreelistAllocator,
    offset: u32,
    mid: FreelistAllocator,
    size: u32,
    post: FreelistAllocator,
    r: Result<u32, TvmError>,
)
    requires
        pre.wf(),
        mid.wf(),
        pre.live().contains_key(offset),
        FreelistAllocator::deallocates(pre, offset, mid, Ok(pre.live()[offset])),
        0 < size <= pre.live()[offset],
        FreelistAllocator::allocates(mid, size, 1, post, r),
    ensures
        r is Ok,
        r->Ok_0 <= offset,
{
    let live = pre.live();
    assert(offset + live[offset] <= pre.cap());
    assert forall|k: u32| #[trigger] mid.live().contains_key(k) implies k + mid.live()[k] <= offset
        || offset + size <= k by {
        assert(live.contains_key(k) && live.contains_key(offset));
    }
    assert(1u32 & 0u32 == 0u32) by (bit_vector);
    assert(is_power_of_two(1));
    law_freelist_takes_the_lowest_place(mid, size, 1, post, r, offset);
}

/// A bump allocator places a request at the first aligned offset behind everything it has
/// handed out, and serves it exactly where it fits there. Nothing is ever given back.
pub proof fn law_bump_goes_up(
    pre: BumpAllocator,
    size: u32,
    align: u32,
    post: BumpAllocator,
    r: Result<u32, TvmError>,
    o: u32,
)
    requires
        pre.wf(),
        is_power_of_two(align),
        pre.top() + align - 1 <= u32::MAX,
        BumpAllocator::allocates(pre, size, align, post, r),
    ensures
        r matches Ok(at) ==> {
            &&& pre.top() <= at < pre.top() + align
            &&& at % align == 0
            &&& at + size <= pre.cap()
            &&& post.top() == at + size
            &&& post.cap() == pre.cap()
        },
        r is Err ==> r == Err::<u32, TvmError>(TvmError::AllocationFailed) && post == pre,
        o >= pre.top() && o % align == 0 && o + size <= pre.cap() ==> r is Ok && r->Ok_0 <= o,
{
    lemma_aligned_up(pre.top(), align);
    if o >= pre.top() && o % align == 0 && o + size <= pre.cap() {
        lemma_aligned_least(pre.top(), align, o as int);
    }
}

/// A slab hands out slots of one size: any other size is refused, a slot that is handed out
/// starts at a multiple of that size inside the region and was free, and giving it back
/// makes it free again.
pub proof fn law_slab_hands_out_slots(
    pre: SlabAllocator,
    size: u32,
    mid: SlabAllocator,
    r: Result<u32, TvmError>,
    post: SlabAllocator,
    given: Result<u32, TvmError>,
)
    requires
        pre.wf(),
        SlabAllocator::allocates(pre, size, mid, r),
        r is Ok ==> SlabAllocator::deallocates(mid, r->Ok_0, post, given),
    ensures
        size != pre.class() ==> r == Err::<u32, TvmError>(TvmError::AllocationFailed),
        r is Err ==> mid == pre,
        r matches Ok(at) ==> {
            &&& size == pre.class()
            &&& at % size == 0
            &&& at + size <= pre.cap()
            &&& !pre.is_live(at)
            &&& mid.is_live(at)
            &&& given == Ok::<u32, TvmError>(size)
            &&& !post.is_live(at)
            &&& post.live_bytes() == pre.live_bytes()
        },
{
    if r is Ok {
        let at = r->Ok_0;
        assert(mid.free().push(at).last() == at);
        assert(post.free()[post.free().len() - 1] == at);
        assert(post.free().contains(at));
    }
}

} // verus!
