//! Block arithmetic behind the allocators: alignment, free lists in ascending
//! order, cutting a request out of a free block, and merging a block back in.
use vstd::prelude::*;

verus! {

// ---------------------------------------------------------------------------
// Alignment
// ---------------------------------------------------------------------------

/// `a` is one of 1, 2, 4, ... , 2^31.
pub open spec fn is_power_of_two(a: u32) -> bool {
    a != 0 && a & ((a - 1) as u32) == 0
}

/// The least multiple of `align` that is at least `value`, where `align` is a
/// power of two and `value + align - 1` is representable.
pub open spec fn aligned_up(value: u32, align: u32) -> Option<u32> {
    if is_power_of_two(align) && value + align - 1 <= u32::MAX {
        Some(((value + align - 1) / (align as int) * align) as u32)
    } else {
        None
    }
}

/// Aligning moves a value up by less than `align`, to a multiple of `align`.
pub proof fn lemma_aligned_up(value: u32, align: u32)
    requires
        aligned_up(value, align) is Some,
    ensures
        aligned_up(value, align)->0 as int == (value + align - 1) / (align as int) * align,
        value <= aligned_up(value, align)->0 < value + align,
        aligned_up(value, align)->0 % align == 0,
        value % align == 0 ==> aligned_up(value, align)->0 == value,
        align == 1 ==> aligned_up(value, align)->0 == value,
{
    let v = value + align - 1;
    let a = align as int;
    let q = v / a;
    assert(q * a <= v < q * a + a) by (nonlinear_arith)
        requires
            a > 0,
            q == v / a,
    ;
    assert(0 <= q * a) by (nonlinear_arith)
        requires
            a > 0,
            q == v / a,
            v >= 0,
    ;
    assert((q * a) % a == 0) by (nonlinear_arith)
        requires
            a > 0,
    ;
    if value as int % a == 0 {
        let k = value as int / a;
        assert(value == k * a) by (nonlinear_arith)
            requires
                a > 0,
                value as int % a == 0,
                k == value as int / a,
        ;
        assert(q == k) by (nonlinear_arith)
            requires
                a > 0,
                value == k * a,
                q * a <= value + a - 1 < q * a + a,
        ;
    }
}

proof fn lemma_mask_is_round_down(v: u32, align: u32)
    requires
        is_power_of_two(align),
    ensures
        (v & !((align - 1) as u32)) == v / align * align,
{
    let mask = (align - 1) as u32;
    assert(v & !mask == v - (v & mask)) by (bit_vector);
    assert(align == 0x1 || align == 0x2 || align == 0x4 || align == 0x8 || align == 0x10 ||
        align == 0x20 || align == 0x40 || align == 0x80 || align == 0x100 || align == 0x200
        || align == 0x400 || align == 0x800 || align == 0x1000 || align == 0x2000 || align
        == 0x4000 || align == 0x8000 || align == 0x10000 || align == 0x20000 || align ==
        0x40000 || align == 0x80000 || align == 0x100000 || align == 0x200000 || align ==
        0x400000 || align == 0x800000 || align == 0x1000000 || align == 0x2000000 || align
        == 0x4000000 || align == 0x8000000 || align == 0x10000000 || align == 0x20000000 ||
        align == 0x40000000 || align == 0x80000000) by (bit_vector)
        requires
            align != 0,
            align & mask == 0,
            mask == (align - 1) as u32,
    ;
    assert(v & 0x0u32 == v % 0x1u32
            && v & 0x1u32 == v % 0x2u32
            && v & 0x3u32 == v % 0x4u32
            && v & 0x7u32 == v % 0x8u32
            && v & 0xfu32 == v % 0x10u32
            && v & 0x1fu32 == v % 0x20u32
            && v & 0x3fu32 == v % 0x40u32
            && v & 0x7fu32 == v % 0x80u32
            && v & 0xffu32 == v % 0x100u32
            && v & 0x1ffu32 == v % 0x200u32
            && v & 0x3ffu32 == v % 0x400u32
            && v & 0x7ffu32 == v % 0x800u32
            && v & 0xfffu32 == v % 0x1000u32
            && v & 0x1fffu32 == v % 0x2000u32
            && v & 0x3fffu32 == v % 0x4000u32
            && v & 0x7fffu32 == v % 0x8000u32
            && v & 0xffffu32 == v % 0x10000u32
            && v & 0x1ffffu32 == v % 0x20000u32
            && v & 0x3ffffu32 == v % 0x40000u32
            && v & 0x7ffffu32 == v % 0x80000u32
            && v & 0xfffffu32 == v % 0x100000u32
            && v & 0x1fffffu32 == v % 0x200000u32
            && v & 0x3fffffu32 == v % 0x400000u32
            && v & 0x7fffffu32 == v % 0x800000u32
            && v & 0xffffffu32 == v % 0x1000000u32
            && v & 0x1ffffffu32 == v % 0x2000000u32
            && v & 0x3ffffffu32 == v % 0x4000000u32
            && v & 0x7ffffffu32 == v % 0x8000000u32
            && v & 0xfffffffu32 == v % 0x10000000u32
            && v & 0x1fffffffu32 == v % 0x20000000u32
            && v & 0x3fffffffu32 == v % 0x40000000u32
            && v & 0x7fffffffu32 == v % 0x80000000u32) by (bit_vector);
    assert(v & mask == v % align);
    assert(v - v % align == v / align * align) by (nonlinear_arith)
        requires
            align > 0,
    ;
}

/// The least multiple of `align` at or above `value`; `None` when `align` is
/// not a power of two or the sum does not fit.
pub fn align_up(value: u32, align: u32) -> (r: Option<u32>)
    ensures
        r == aligned_up(value, align),
{
    if align == 0 || (align & (align - 1)) != 0 {
        return None;
    }
    let mask: u32 = align - 1;
    match value.checked_add(mask) {
        Some(v) => {
            proof {
                lemma_mask_is_round_down(v, align);
            }
            Some(v & !mask)
        },
        None => None,
    }
}

// ---------------------------------------------------------------------------
// Free lists
// ---------------------------------------------------------------------------

/// One past the last byte of an (offset, size) block.
pub open spec fn block_end(b: (u32, u32)) -> int {
    b.0 + b.1
}

/// The sum of the sizes of the blocks.
pub open spec fn total_size(blocks: Seq<(u32, u32)>) -> int
    decreases blocks.len(),
{
    if blocks.len() == 0 {
        0
    } else {
        total_size(blocks.drop_last()) + blocks.last().1
    }
}

/// Blocks in ascending order that do not overlap and end by `limit`.
pub open spec fn ascending(blocks: Seq<(u32, u32)>, limit: int) -> bool {
    &&& forall|i: int| 0 <= i < blocks.len() ==> block_end(#[trigger] blocks[i]) <= limit
    &&& forall|i: int, j: int|
        0 <= i < j < blocks.len() ==> block_end(#[trigger] blocks[i]) <= (#[trigger] blocks[j]).0
}

/// No two blocks touch: there is a used byte between any two of them.
pub open spec fn separated(blocks: Seq<(u32, u32)>) -> bool {
    forall|i: int, j: int|
        0 <= i < j < blocks.len() ==> block_end(#[trigger] blocks[i]) < (#[trigger] blocks[j]).0
}

/// Byte `b` lies in one of the blocks.
pub open spec fn in_blocks(blocks: Seq<(u32, u32)>, b: int) -> bool {
    exists|i: int| 0 <= i < blocks.len() && (#[trigger] blocks[i]).0 <= b < block_end(blocks[i])
}

/// Byte `b` lies in one of the live allocations.
pub open spec fn in_live(live: Map<u32, u32>, b: int) -> bool {
    exists|k: u32| #[trigger] live.contains_key(k) && k <= b < k + live[k]
}

/// Live allocations are non-empty, end by `capacity` and do not overlap.
pub open spec fn live_ok(live: Map<u32, u32>, capacity: u32) -> bool {
    &&& forall|k: u32| #[trigger] live.contains_key(k) ==> live[k] > 0 && k + live[k] <= capacity
    &&& forall|k: u32, l: u32|
        #[trigger] live.contains_key(k) && #[trigger] live.contains_key(l) && k < l ==> k + live[k]
            <= l
}

/// No free block overlaps a live allocation.
pub open spec fn free_and_live_disjoint(free: Seq<(u32, u32)>, live: Map<u32, u32>) -> bool {
    forall|i: int, k: u32|
        0 <= i < free.len() && #[trigger] live.contains_key(k) ==> block_end(#[trigger] free[i])
            <= k || k + live[k] <= free[i].0
}

/// The state of a free-list allocator: free blocks and live allocations
/// together tile the region, and neighbouring free blocks have been merged.
pub open spec fn tiles(
    free: Seq<(u32, u32)>,
    live: Map<u32, u32>,
    capacity: u32,
    used: u32,
) -> bool {
    &&& ascending(free, capacity as int)
    &&& separated(free)
    &&& forall|i: int| 0 <= i < free.len() ==> (#[trigger] free[i]).1 > 0 || capacity == 0
    &&& live_ok(live, capacity)
    &&& free_and_live_disjoint(free, live)
    &&& forall|b: int|
        0 <= b < capacity ==> #[trigger] in_blocks(free, b) || in_live(live, b)
    &&& used == capacity - total_size(free)
}

/// How one free block answers a request.
pub enum Fit {
    /// The search stops without a result.
    Abort,
    /// The block is too small.
    TooSmall,
    /// The request fits at this offset.
    At(u32),
}

/// How `block` answers a request for `size` bytes aligned to `align`.
pub open spec fn fit(block: (u32, u32), size: u32, align: u32) -> Fit {
    match aligned_up(block.0, align) {
        None => Fit::Abort,
        Some(at) => if at - block.0 + size > u32::MAX {
            Fit::Abort
        } else if at - block.0 + size <= block.1 {
            Fit::At(at)
        } else {
            Fit::TooSmall
        },
    }
}

/// The first block, from index `from` on, that can serve the request, and the offset in it.
pub open spec fn first_fit(free: Seq<(u32, u32)>, size: u32, align: u32, from: int) -> Option<
    (int, u32),
>
    decreases free.len() - from,
{
    if from < 0 || from >= free.len() {
        None
    } else {
        match fit(free[from], size, align) {
            Fit::Abort => None,
            Fit::At(at) => Some((from, at)),
            Fit::TooSmall => first_fit(free, size, align, from + 1),
        }
    }
}

/// The part of block `b` in front of offset `at`, if any.
pub open spec fn front_part(b: (u32, u32), at: u32) -> Seq<(u32, u32)> {
    if at > b.0 {
        seq![(b.0, (at - b.0) as u32)]
    } else {
        Seq::empty()
    }
}

/// The part of block `b` from offset `end` on, if any.
pub open spec fn back_part(b: (u32, u32), end: int) -> Seq<(u32, u32)> {
    if end < block_end(b) {
        seq![(end as u32, (block_end(b) - end) as u32)]
    } else {
        Seq::empty()
    }
}

/// The free list after `size` bytes at offset `at` have been cut out of block `i`.
pub open spec fn carved(free: Seq<(u32, u32)>, i: int, at: u32, size: u32) -> Seq<(u32, u32)> {
    free.subrange(0, i) + front_part(free[i], at) + back_part(free[i], at + size) + free.subrange(
        i + 1,
        free.len() as int,
    )
}

/// How many of the (ascending) blocks start below `offset`.
pub open spec fn count_below(free: Seq<(u32, u32)>, offset: u32) -> int
    decreases free.len(),
{
    if free.len() == 0 {
        0
    } else if free.last().0 < offset {
        free.len() as int
    } else {
        count_below(free.drop_last(), offset)
    }
}

/// Block `i` merged with its right neighbour, where the two touch.
pub open spec fn merged_right(s: Seq<(u32, u32)>, i: int) -> Seq<(u32, u32)> {
    if i + 1 < s.len() && block_end(s[i]) == s[i + 1].0 {
        s.update(i, (s[i].0, (s[i].1 + s[i + 1].1) as u32)).remove(i + 1)
    } else {
        s
    }
}

/// Block `i` merged with its neighbours on both sides, where they touch.
pub open spec fn merged(s: Seq<(u32, u32)>, i: int) -> Seq<(u32, u32)> {
    let t = merged_right(s, i);
    if i > 0 {
        merged_right(t, i - 1)
    } else {
        t
    }
}

/// The free list after the block at `offset` has been given back.
pub open spec fn released(free: Seq<(u32, u32)>, offset: u32, size: u32) -> Seq<(u32, u32)> {
    let pos = count_below(free, offset);
    merged(free.insert(pos, (offset, size)), pos)
}

proof fn lemma_total_concat(a: Seq<(u32, u32)>, b: Seq<(u32, u32)>)
    ensures
        total_size(a + b) == total_size(a) + total_size(b),
    decreases b.len(),
{
    if b.len() == 0 {
        assert(a + b =~= a);
    } else {
        assert((a + b).drop_last() =~= a + b.drop_last());
        lemma_total_concat(a, b.drop_last());
    }
}

pub proof fn lemma_total_single(b: (u32, u32))
    ensures
        total_size(seq![b]) == b.1,
{
    assert(seq![b].drop_last() =~= Seq::empty());
    reveal_with_fuel(total_size, 2);
}

/// Blocks that ascend up to `limit` hold at most `limit` bytes.
pub proof fn lemma_total_bounded(blocks: Seq<(u32, u32)>, limit: int)
    requires
        ascending(blocks, limit),
        limit >= 0,
    ensures
        0 <= total_size(blocks) <= limit,
    decreases blocks.len(),
{
    if blocks.len() > 0 {
        let rest = blocks.drop_last();
        assert forall|i: int| 0 <= i < rest.len() implies block_end(#[trigger] rest[i])
            <= blocks.last().0 by {
            assert(rest[i] == blocks[i]);
            assert(blocks.last() == blocks[blocks.len() - 1]);
        }
        lemma_total_bounded(rest, blocks.last().0 as int);
    }
}

proof fn lemma_total_insert(s: Seq<(u32, u32)>, i: int, b: (u32, u32))
    requires
        0 <= i <= s.len(),
    ensures
        total_size(s.insert(i, b)) == total_size(s) + b.1,
{
    let l = s.subrange(0, i);
    let r = s.subrange(i, s.len() as int);
    assert(s =~= l + r);
    assert(s.insert(i, b) =~= l + seq![b] + r);
    lemma_total_concat(l, r);
    lemma_total_concat(l, seq![b]);
    lemma_total_concat(l + seq![b], r);
    lemma_total_single(b);
}

proof fn lemma_total_merged_right(s: Seq<(u32, u32)>, i: int)
    requires
        0 <= i < s.len(),
        i + 1 < s.len() ==> s[i].1 + s[i + 1].1 <= u32::MAX,
    ensures
        total_size(merged_right(s, i)) == total_size(s),
{
    if i + 1 < s.len() && block_end(s[i]) == s[i + 1].0 {
        let l = s.subrange(0, i);
        let r = s.subrange(i + 2, s.len() as int);
        let m = (s[i].0, (s[i].1 + s[i + 1].1) as u32);
        assert(s =~= l + seq![s[i]] + seq![s[i + 1]] + r);
        assert(merged_right(s, i) =~= l + seq![m] + r);
        lemma_total_concat(l, seq![s[i]]);
        lemma_total_concat(l + seq![s[i]], seq![s[i + 1]]);
        lemma_total_concat(l + seq![s[i]] + seq![s[i + 1]], r);
        lemma_total_concat(l, seq![m]);
        lemma_total_concat(l + seq![m], r);
        lemma_total_single(s[i]);
        lemma_total_single(s[i + 1]);
        lemma_total_single(m);
    }
}

proof fn lemma_total_carved(free: Seq<(u32, u32)>, i: int, at: u32, size: u32)
    requires
        0 <= i < free.len(),
        free[i].0 <= at,
        at + size <= block_end(free[i]) <= u32::MAX,
    ensures
        total_size(carved(free, i, at, size)) == total_size(free) - size,
{
    let l = free.subrange(0, i);
    let f = front_part(free[i], at);
    let b = back_part(free[i], at + size);
    let r = free.subrange(i + 1, free.len() as int);
    assert(free =~= l + seq![free[i]] + r);
    lemma_total_concat(l, seq![free[i]]);
    lemma_total_concat(l + seq![free[i]], r);
    lemma_total_single(free[i]);
    lemma_total_concat(l, f);
    lemma_total_concat(l + f, b);
    lemma_total_concat(l + f + b, r);
    if f.len() > 0 {
        lemma_total_single(f[0]);
        assert(f =~= seq![f[0]]);
    }
    if b.len() > 0 {
        lemma_total_single(b[0]);
        assert(b =~= seq![b[0]]);
    }
}

pub proof fn lemma_first_fit(free: Seq<(u32, u32)>, size: u32, align: u32, from: int)
    requires
        0 <= from,
        first_fit(free, size, align, from) is Some,
    ensures
        ({
            let (i, at) = first_fit(free, size, align, from)->0;
            from <= i < free.len() && fit(free[i], size, align) == Fit::At(at)
        }),
    decreases free.len() - from,
{
    if from < free.len() && fit(free[from], size, align) is TooSmall {
        lemma_first_fit(free, size, align, from + 1);
    }
}

pub proof fn lemma_count_below(free: Seq<(u32, u32)>, limit: int, offset: u32)
    requires
        ascending(free, limit),
        separated(free),
    ensures
        0 <= count_below(free, offset) <= free.len(),
        forall|i: int| 0 <= i < count_below(free, offset) ==> (#[trigger] free[i]).0 < offset,
        forall|i: int|
            count_below(free, offset) <= i < free.len() ==> (#[trigger] free[i]).0 >= offset,
    decreases free.len(),
{
    if free.len() > 0 && free.last().0 >= offset {
        let rest = free.drop_last();
        assert forall|i: int, j: int| 0 <= i < j < rest.len() implies block_end(#[trigger] rest[i])
            <= (#[trigger] rest[j]).0 && block_end(rest[i]) < rest[j].0 by {
            assert(rest[i] == free[i] && rest[j] == free[j]);
        }
        assert forall|i: int| 0 <= i < rest.len() implies block_end(#[trigger] rest[i]) <= limit by {
            assert(rest[i] == free[i]);
        }
        lemma_count_below(rest, limit, offset);
        assert forall|i: int| 0 <= i < count_below(free, offset) implies (#[trigger] free[i]).0
            < offset by {
            assert(rest[i] == free[i]);
        }
        assert forall|i: int| count_below(free, offset) <= i < free.len() implies (
        #[trigger] free[i]).0 >= offset by {
            if i < rest.len() {
                assert(rest[i] == free[i]);
            }
        }
    } else if free.len() > 0 {
        assert forall|i: int| 0 <= i < free.len() implies (#[trigger] free[i]).0 < offset by {
            if i < free.len() - 1 {
                assert(block_end(free[i]) < free[free.len() - 1].0);
            }
        }
    }
}

/// There is a used byte between block `j` and the block behind it.
spec fn gap(s: Seq<(u32, u32)>, j: int) -> bool {
    j + 1 < s.len() ==> block_end(s[j]) < s[j + 1].0
}

proof fn lemma_gaps_separate(s: Seq<(u32, u32)>, limit: int)
    requires
        ascending(s, limit),
        forall|j: int| 0 <= j < s.len() ==> #[trigger] gap(s, j),
    ensures
        separated(s),
{
    assert forall|i: int, j: int| 0 <= i < j < s.len() implies block_end(#[trigger] s[i]) < (
    #[trigger] s[j]).0 by {
        assert(gap(s, i));
        if i + 1 < j {
            assert(block_end(s[i + 1]) <= s[j].0);
        }
    }
}

proof fn lemma_merge_step(s: Seq<(u32, u32)>, i: int, live: Map<u32, u32>, capacity: u32)
    requires
        0 <= i < s.len(),
        ascending(s, capacity as int),
        forall|j: int| 0 <= j < s.len() ==> (#[trigger] s[j]).1 > 0,
        live_ok(live, capacity),
        free_and_live_disjoint(s, live),
    ensures
        ({
            let t = merged_right(s, i);
            &&& i < t.len() <= s.len()
            &&& ascending(t, capacity as int)
            &&& forall|j: int| 0 <= j < t.len() ==> (#[trigger] t[j]).1 > 0
            &&& free_and_live_disjoint(t, live)
            &&& forall|b: int| in_blocks(s, b) ==> #[trigger] in_blocks(t, b)
            &&& total_size(t) == total_size(s)
            &&& gap(s, i + 1) ==> gap(t, i)
            &&& forall|j: int| 0 <= j < i && gap(s, j) ==> #[trigger] gap(t, j)
            &&& (forall|j: int| i < j < s.len() ==> #[trigger] gap(s, j)) ==> (forall|j: int|
                i < j < t.len() ==> #[trigger] gap(t, j))
        }),
{
    let t = merged_right(s, i);
    if i + 1 < s.len() {
        assert(block_end(s[i]) <= s[i + 1].0);
        assert(block_end(s[i + 1]) <= capacity);
    }
    lemma_total_merged_right(s, i);
    if i + 1 < s.len() && block_end(s[i]) == s[i + 1].0 {
        let m = (s[i].0, (s[i].1 + s[i + 1].1) as u32);
        assert(t.len() == s.len() - 1);
        assert(forall|j: int| 0 <= j < i ==> t[j] == s[j]);
        assert(t[i] == m);
        assert(forall|j: int| i < j < t.len() ==> t[j] == s[j + 1]);
        assert(block_end(m) == block_end(s[i + 1]));
        assert forall|j: int, k: int| 0 <= j < k < t.len() implies block_end(#[trigger] t[j]) <= (
        #[trigger] t[k]).0 by {
            let j2 = if j < i {
                j
            } else {
                j + 1
            };
            let k2 = if k <= i {
                k
            } else {
                k + 1
            };
            assert(block_end(s[j2]) <= s[k2].0);
        }
        assert forall|j: int, k: u32| 0 <= j < t.len() && #[trigger] live.contains_key(k) implies
            block_end(#[trigger] t[j]) <= k || k + live[k] <= t[j].0 by {
            if j == i {
                assert(block_end(s[i]) <= k || k + live[k] <= s[i].0);
                assert(block_end(s[i + 1]) <= k || k + live[k] <= s[i + 1].0);
            } else if j < i {
                assert(block_end(s[j]) <= k || k + live[k] <= s[j].0);
            } else {
                assert(block_end(s[j + 1]) <= k || k + live[k] <= s[j + 1].0);
            }
        }
        assert forall|b: int| in_blocks(s, b) implies #[trigger] in_blocks(t, b) by {
            let w = choose|w: int|
                0 <= w < s.len() && (#[trigger] s[w]).0 <= b < block_end(s[w]);
            let w2 = if w <= i {
                w
            } else {
                w - 1
            };
            assert(t[w2].0 <= b < block_end(t[w2]));
        }
        assert(gap(s, i + 1) ==> gap(t, i)) by {
            if i + 2 < s.len() {
                assert(block_end(s[i + 1]) <= s[i + 2].0);
            }
        }
        assert forall|j: int| 0 <= j < i && gap(s, j) implies #[trigger] gap(t, j) by {
            assert(s[j + 1].0 == t[j + 1].0);
        }
        if forall|j: int| i < j < s.len() ==> #[trigger] gap(s, j) {
            assert(gap(s, i + 1));
            assert forall|j: int| i < j < t.len() implies #[trigger] gap(t, j) by {
                assert(gap(s, j + 1));
            }
        }
    }
}

/// A live block put back at its place in the free list, before merging.
proof fn lemma_inserted(
    free: Seq<(u32, u32)>,
    live: Map<u32, u32>,
    capacity: u32,
    used: u32,
    offset: u32,
)
    requires
        tiles(free, live, capacity, used),
        live.contains_key(offset),
    ensures
        live[offset] <= used,
        live_ok(live.remove(offset), capacity),
        ({
            let pos = count_below(free, offset);
            let s = free.insert(pos, (offset, live[offset]));
            &&& 0 <= pos <= free.len()
            &&& ascending(s, capacity as int)
            &&& forall|j: int| 0 <= j < s.len() ==> (#[trigger] s[j]).1 > 0
            &&& free_and_live_disjoint(s, live.remove(offset))
            &&& forall|j: int|
                0 <= j < s.len() && j != pos && j != pos - 1 ==> #[trigger] gap(s, j)
            &&& forall|b: int|
                0 <= b < capacity ==> #[trigger] in_blocks(s, b) || in_live(live.remove(offset), b)
            &&& total_size(s) == total_size(free) + live[offset]
        }),
{
    let size = live[offset];
    let pos = count_below(free, offset);
    lemma_count_below(free, capacity as int, offset);
    let s = free.insert(pos, (offset, size));
    let live2 = live.remove(offset);
    assert(forall|j: int| 0 <= j < pos ==> s[j] == free[j]);
    assert(forall|j: int| pos < j < s.len() ==> s[j] == free[j - 1]);
    assert forall|i: int| 0 <= i < free.len() implies (if i < pos {
        block_end(#[trigger] free[i]) <= offset
    } else {
        offset + size <= free[i].0
    }) by {
        assert(block_end(free[i]) <= offset || offset + live[offset] <= free[i].0);
        if i >= pos {
            assert(free[i].1 > 0);
        }
    }
    assert(ascending(s, capacity as int)) by {
        assert forall|i: int, j: int| 0 <= i < j < s.len() implies block_end(#[trigger] s[i]) <= (
        #[trigger] s[j]).0 by {
            if i != pos && j != pos {
                let i2 = if i < pos {
                    i
                } else {
                    i - 1
                };
                let j2 = if j < pos {
                    j
                } else {
                    j - 1
                };
                assert(block_end(free[i2]) <= free[j2].0);
            } else if i == pos {
                assert(s[j] == free[j - 1]);
            } else {
                assert(s[i] == free[i]);
            }
        }
        assert forall|i: int| 0 <= i < s.len() implies block_end(#[trigger] s[i]) <= capacity by {
            if i < pos {
                assert(block_end(free[i]) <= capacity);
            } else if i > pos {
                assert(block_end(free[i - 1]) <= capacity);
            }
        }
    }
    lemma_total_insert(free, pos, (offset, size));
    lemma_total_bounded(s, capacity as int);
    assert(forall|j: int| 0 <= j < s.len() ==> (#[trigger] s[j]).1 > 0) by {
        assert forall|j: int| 0 <= j < s.len() implies (#[trigger] s[j]).1 > 0 by {
            if j < pos {
                assert(free[j].1 > 0);
            } else if j > pos {
                assert(free[j - 1].1 > 0);
            }
        }
    }
    assert(free_and_live_disjoint(s, live2)) by {
        assert forall|i: int, k: u32| 0 <= i < s.len() && #[trigger] live2.contains_key(k) implies
            block_end(#[trigger] s[i]) <= k || k + live2[k] <= s[i].0 by {
            assert(live.contains_key(k));
            if i < pos {
                assert(block_end(free[i]) <= k || k + live[k] <= free[i].0);
            } else if i > pos {
                assert(block_end(free[i - 1]) <= k || k + live[k] <= free[i - 1].0);
            }
        }
    }
    assert(live_ok(live2, capacity));
    assert forall|j: int| 0 <= j < s.len() && j != pos && j != pos - 1 implies #[trigger] gap(
        s,
        j,
    ) by {
        if j < pos && j + 1 < s.len() {
            assert(block_end(free[j]) < free[j + 1].0);
        } else if j + 1 < s.len() {
            assert(block_end(free[j - 1]) < free[j].0);
        }
    }
    assert forall|b: int| 0 <= b < capacity implies #[trigger] in_blocks(s, b) || in_live(
        live2,
        b,
    ) by {
        assert(in_blocks(free, b) || in_live(live, b));
        if in_blocks(free, b) {
            let w = choose|w: int|
                0 <= w < free.len() && (#[trigger] free[w]).0 <= b < block_end(free[w]);
            let w2 = if w < pos {
                w
            } else {
                w + 1
            };
            assert(s[w2].0 <= b < block_end(s[w2]));
        } else {
            let k = choose|k: u32| #[trigger] live.contains_key(k) && k <= b < k + live[k];
            if k == offset {
                assert(s[pos].0 <= b < block_end(s[pos]));
            } else {
                assert(live2.contains_key(k) && k <= b < k + live2[k]);
            }
        }
    }
}

/// Giving a live block back keeps the free and live blocks tiling the region.
pub proof fn lemma_released_tiles(
    free: Seq<(u32, u32)>,
    live: Map<u32, u32>,
    capacity: u32,
    used: u32,
    offset: u32,
)
    requires
        tiles(free, live, capacity, used),
        live.contains_key(offset),
    ensures
        live[offset] <= used,
        tiles(
            released(free, offset, live[offset]),
            live.remove(offset),
            capacity,
            (used - live[offset]) as u32,
        ),
{
    let size = live[offset];
    let pos = count_below(free, offset);
    let s = free.insert(pos, (offset, size));
    let live2 = live.remove(offset);
    lemma_inserted(free, live, capacity, used, offset);
    assert(gap(s, pos + 1));
    lemma_merge_step(s, pos, live2, capacity);
    let t = merged_right(s, pos);
    assert(forall|j: int| pos < j < s.len() ==> #[trigger] gap(s, j));
    let u = released(free, offset, size);
    if pos > 0 {
        lemma_merge_step(t, pos - 1, live2, capacity);
        assert(u == merged_right(t, pos - 1));
        assert forall|j: int| 0 <= j < u.len() implies #[trigger] gap(u, j) by {
            if j < pos - 1 {
                assert(gap(s, j));
                assert(gap(t, j));
            } else if j > pos - 1 {
                assert forall|k: int| pos - 1 < k < t.len() implies #[trigger] gap(t, k) by {}
            }
        }
    } else {
        assert(u == t);
        assert forall|j: int| 0 <= j < u.len() implies #[trigger] gap(u, j) by {}
    }
    lemma_gaps_separate(u, capacity as int);
    assert forall|b: int| 0 <= b < capacity implies #[trigger] in_blocks(u, b) || in_live(
        live2,
        b,
    ) by {
        assert(in_blocks(s, b) || in_live(live2, b));
        if in_blocks(s, b) {
            assert(in_blocks(t, b));
        }
    }
}

/// The index in the old free list that block `j` of the carved list lies in.
spec fn carved_from(i: int, parts: int, j: int) -> int {
    if j < i {
        j
    } else if j < i + parts {
        i
    } else {
        j - parts + 1
    }
}

/// Cutting a request out of the block that serves it keeps the tiling.
pub proof fn lemma_carved_tiles(
    free: Seq<(u32, u32)>,
    live: Map<u32, u32>,
    capacity: u32,
    used: u32,
    i: int,
    at: u32,
    size: u32,
)
    requires
        tiles(free, live, capacity, used),
        0 <= i < free.len(),
        size > 0,
        free[i].0 <= at,
        at + size <= block_end(free[i]),
    ensures
        used + size <= capacity,
        !live.contains_key(at),
        forall|k: u32| #[trigger] live.contains_key(k) ==> k + live[k] <= at || at + size <= k,
        tiles(carved(free, i, at, size), live.insert(at, size), capacity, (used + size) as u32),
{
    let c = carved(free, i, at, size);
    let live2 = live.insert(at, size);
    let f = front_part(free[i], at);
    let bk = back_part(free[i], at + size);
    let parts = (f.len() + bk.len()) as int;
    assert(block_end(free[i]) <= capacity);
    lemma_total_carved(free, i, at, size);
    assert forall|k: u32| #[trigger] live.contains_key(k) implies k + live[k] <= at || at + size
        <= k by {
        assert(block_end(free[i]) <= k || k + live[k] <= free[i].0);
    }
    assert forall|j: int| 0 <= j < c.len() implies ({
        let o = carved_from(i, parts, j);
        0 <= o < free.len() && free[o].0 <= (#[trigger] c[j]).0 && block_end(c[j]) <= block_end(
            free[o],
        ) && (o != i ==> c[j] == free[o]) && c[j].1 > 0 && (o == i ==> block_end(c[j]) <= at || at
            + size <= c[j].0)
    }) by {
        let o = carved_from(i, parts, j);
        if j < i {
            assert(c[j] == free[j]);
        } else if j >= i + parts {
            assert(c[j] == free[o]);
        } else if f.len() > 0 && j == i {
            assert(c[j] == f[0]);
        } else {
            assert(c[j] == bk[0]);
        }
        assert(free[o].1 > 0);
    }
    assert forall|j: int, k: int| 0 <= j < k < c.len() implies block_end(#[trigger] c[j]) < (
    #[trigger] c[k]).0 by {
        let jo = carved_from(i, parts, j);
        let ko = carved_from(i, parts, k);
        if jo < ko {
            assert(block_end(free[jo]) < free[ko].0);
        } else {
            assert(j == i && k == i + 1);
            assert(c[j] == f[0]);
            assert(c[k] == bk[0]);
        }
    }
    assert forall|j: int| 0 <= j < c.len() implies block_end(#[trigger] c[j]) <= capacity by {
        let o = carved_from(i, parts, j);
        assert(block_end(free[o]) <= capacity);
    }
    lemma_total_bounded(c, capacity as int);
    assert(live_ok(live2, capacity));
    assert forall|j: int, k: u32| 0 <= j < c.len() && #[trigger] live2.contains_key(k) implies
        block_end(#[trigger] c[j]) <= k || k + live2[k] <= c[j].0 by {
        let o = carved_from(i, parts, j);
        if k != at {
            assert(live.contains_key(k));
            assert(block_end(free[o]) <= k || k + live[k] <= free[o].0);
        } else if o < i {
            assert(block_end(free[o]) < free[i].0);
        } else if o > i {
            assert(block_end(free[i]) < free[o].0);
        }
    }
    assert forall|b: int| 0 <= b < capacity implies #[trigger] in_blocks(c, b) || in_live(
        live2,
        b,
    ) by {
        assert(in_blocks(free, b) || in_live(live, b));
        if in_blocks(free, b) {
            let w = choose|w: int|
                0 <= w < free.len() && (#[trigger] free[w]).0 <= b < block_end(free[w]);
            if w < i {
                assert(c[w] == free[w]);
                assert(in_blocks(c, b));
            } else if w > i {
                assert(c[w + parts - 1] == free[w]);
                assert(in_blocks(c, b));
            } else if b < at {
                assert(c[i] == f[0]);
                assert(in_blocks(c, b));
            } else if b < at + size {
                assert(live2.contains_key(at) && at <= b < at + live2[at]);
                assert(in_live(live2, b));
            } else {
                let x = i + f.len();
                assert(c[x] == bk[0]);
                assert(in_blocks(c, b));
            }
        } else {
            let k = choose|k: u32| #[trigger] live.contains_key(k) && k <= b < k + live[k];
            assert(live2.contains_key(k) && k <= b < k + live2[k]);
        }
    }
}

/// The blocks are the live allocations in ascending order, each once.
pub open spec fn lists_live(blocks: Seq<(u32, u32)>, live: Map<u32, u32>) -> bool {
    &&& forall|i: int, j: int|
        0 <= i < j < blocks.len() ==> (#[trigger] blocks[i]).0 < (#[trigger] blocks[j]).0
    &&& forall|i: int|
        0 <= i < blocks.len() ==> live.contains_key((#[trigger] blocks[i]).0) && live[blocks[i].0]
            == blocks[i].1
    &&& forall|k: u32| #[trigger] live.contains_key(k) ==> blocks.contains((k, live[k]))
}

/// Non-empty blocks laid end to end from offset zero.
pub open spec fn packed_from_zero(blocks: Seq<(u32, u32)>) -> bool {
    forall|i: int|
        0 <= i < blocks.len() ==> (#[trigger] blocks[i]).1 > 0 && blocks[i].0 == total_size(
            blocks.subrange(0, i),
        )
}

/// The map from offset to size that a list of blocks stands for.
pub open spec fn blocks_map(blocks: Seq<(u32, u32)>) -> Map<u32, u32>
    decreases blocks.len(),
{
    if blocks.len() == 0 {
        Map::empty()
    } else {
        blocks_map(blocks.drop_last()).insert(blocks.last().0, blocks.last().1)
    }
}

/// The free list behind a packed prefix of `used` bytes.
pub open spec fn tail_free(used: int, capacity: u32) -> Seq<(u32, u32)> {
    if used < capacity {
        seq![(used as u32, (capacity - used) as u32)]
    } else {
        Seq::empty()
    }
}

pub proof fn lemma_total_prefix_step(blocks: Seq<(u32, u32)>, i: int)
    requires
        0 <= i < blocks.len(),
    ensures
        total_size(blocks.subrange(0, i + 1)) == total_size(blocks.subrange(0, i)) + blocks[i].1,
{
    assert(blocks.subrange(0, i + 1).drop_last() =~= blocks.subrange(0, i));
}

pub proof fn lemma_total_prefix_monotonic(blocks: Seq<(u32, u32)>, i: int, j: int)
    requires
        0 <= i <= j <= blocks.len(),
    ensures
        0 <= total_size(blocks.subrange(0, i)) <= total_size(blocks.subrange(0, j)),
    decreases j,
{
    if j > 0 {
        lemma_total_prefix_step(blocks, j - 1);
        if i < j {
            lemma_total_prefix_monotonic(blocks, i, j - 1);
        } else {
            lemma_total_prefix_monotonic(blocks, i - 1, j - 1);
        }
    }
}

proof fn lemma_packed_prefix(blocks: Seq<(u32, u32)>)
    requires
        packed_from_zero(blocks),
        blocks.len() > 0,
    ensures
        packed_from_zero(blocks.drop_last()),
        blocks.last().0 == total_size(blocks.drop_last()),
{
    let rest = blocks.drop_last();
    let n = rest.len() as int;
    assert forall|i: int| 0 <= i < rest.len() implies (#[trigger] rest[i]).1 > 0 && rest[i].0
        == total_size(rest.subrange(0, i)) by {
        assert(rest[i] == blocks[i]);
        assert(rest.subrange(0, i) =~= blocks.subrange(0, i));
    }
    assert(rest =~= blocks.subrange(0, n));
    assert(blocks[n].0 == total_size(rest));
}

/// Packed blocks ascend without overlap and end at the sum of their sizes.
pub proof fn lemma_packed_ascends(blocks: Seq<(u32, u32)>)
    requires
        packed_from_zero(blocks),
    ensures
        ascending(blocks, total_size(blocks)),
    decreases blocks.len(),
{
    if blocks.len() > 0 {
        let rest = blocks.drop_last();
        lemma_packed_prefix(blocks);
        lemma_packed_ascends(rest);
        assert forall|i: int, j: int| 0 <= i < j < blocks.len() implies block_end(
            #[trigger] blocks[i],
        ) <= (#[trigger] blocks[j]).0 by {
            assert(rest[i] == blocks[i]);
            if j < rest.len() {
                assert(rest[j] == blocks[j]);
            }
        }
        assert forall|i: int| 0 <= i < blocks.len() implies block_end(#[trigger] blocks[i])
            <= total_size(blocks) by {
            if i < rest.len() {
                assert(rest[i] == blocks[i]);
            }
        }
    }
}

/// The map of a packed layout holds exactly its blocks.
pub proof fn lemma_blocks_map(blocks: Seq<(u32, u32)>)
    requires
        packed_from_zero(blocks),
    ensures
        forall|i: int|
            0 <= i < blocks.len() ==> blocks_map(blocks).contains_key((#[trigger] blocks[i]).0)
                && blocks_map(blocks)[blocks[i].0] == blocks[i].1,
        forall|k: u32| #[trigger]
            blocks_map(blocks).contains_key(k) ==> exists|i: int|
                0 <= i < blocks.len() && (#[trigger] blocks[i]).0 == k,
    decreases blocks.len(),
{
    if blocks.len() > 0 {
        let rest = blocks.drop_last();
        let n = rest.len() as int;
        lemma_packed_prefix(blocks);
        lemma_blocks_map(rest);
        lemma_packed_ascends(blocks);
        let m = blocks_map(blocks);
        assert forall|i: int| 0 <= i < blocks.len() implies m.contains_key((#[trigger] blocks[i]).0)
            && m[blocks[i].0] == blocks[i].1 by {
            if i < n {
                assert(rest[i] == blocks[i]);
                assert(block_end(blocks[i]) <= blocks[n].0);
                assert(blocks[i].1 > 0);
            }
        }
        assert forall|k: u32| #[trigger] m.contains_key(k) implies exists|i: int|
            0 <= i < blocks.len() && (#[trigger] blocks[i]).0 == k by {
            if k == blocks.last().0 {
                assert(blocks[n].0 == k);
            } else {
                assert(blocks_map(rest).contains_key(k));
                let i = choose|i: int| 0 <= i < rest.len() && (#[trigger] rest[i]).0 == k;
                assert(blocks[i].0 == k);
            }
        }
    }
}

proof fn lemma_packed_covers(blocks: Seq<(u32, u32)>, b: int)
    requires
        packed_from_zero(blocks),
        0 <= b < total_size(blocks),
    ensures
        in_blocks(blocks, b),
    decreases blocks.len(),
{
    let rest = blocks.drop_last();
    lemma_packed_prefix(blocks);
    if b < total_size(rest) {
        lemma_packed_covers(rest, b);
        let i = choose|i: int|
            0 <= i < rest.len() && (#[trigger] rest[i]).0 <= b < block_end(rest[i]);
        assert(blocks[i].0 <= b < block_end(blocks[i]));
    } else {
        let n = blocks.len() - 1;
        assert(blocks[n].0 <= b < block_end(blocks[n]));
    }
}

/// A packed layout and the space behind it tile the region.
pub proof fn lemma_packed_tiles(blocks: Seq<(u32, u32)>, capacity: u32)
    requires
        packed_from_zero(blocks),
        total_size(blocks) <= capacity,
    ensures
        0 <= total_size(blocks),
        tiles(
            tail_free(total_size(blocks), capacity),
            blocks_map(blocks),
            capacity,
            total_size(blocks) as u32,
        ),
{
    let used = total_size(blocks);
    let free = tail_free(used, capacity);
    let live = blocks_map(blocks);
    assert(blocks.subrange(0, blocks.len() as int) =~= blocks);
    lemma_total_prefix_monotonic(blocks, 0, blocks.len() as int);
    lemma_blocks_map(blocks);
    lemma_packed_ascends(blocks);
    if used < capacity {
        lemma_total_single(free[0]);
        assert(free =~= seq![free[0]]);
    }
    assert forall|k: u32| #[trigger] live.contains_key(k) implies live[k] > 0 && k + live[k]
        <= used by {
        let i = choose|i: int| 0 <= i < blocks.len() && (#[trigger] blocks[i]).0 == k;
        assert(live[blocks[i].0] == blocks[i].1);
    }
    assert forall|k: u32, l: u32| #[trigger]
        live.contains_key(k) && #[trigger] live.contains_key(l) && k < l implies k + live[k]
        <= l by {
        let i = choose|i: int| 0 <= i < blocks.len() && (#[trigger] blocks[i]).0 == k;
        let j = choose|j: int| 0 <= j < blocks.len() && (#[trigger] blocks[j]).0 == l;
        if j < i {
            assert(block_end(blocks[j]) <= blocks[i].0);
        }
        assert(block_end(blocks[i]) <= blocks[j].0);
    }
    assert forall|b: int| 0 <= b < capacity implies #[trigger] in_blocks(free, b) || in_live(
        live,
        b,
    ) by {
        if b < used {
            lemma_packed_covers(blocks, b);
            let i = choose|i: int|
                0 <= i < blocks.len() && (#[trigger] blocks[i]).0 <= b < block_end(blocks[i]);
            let k = blocks[i].0;
            assert(live.contains_key(k) && k <= b < k + live[k]);
        } else {
            assert(free[0].0 <= b < block_end(free[0]));
        }
    }
}


/// With nothing live, the free list is one block that spans the region:
/// every block ever given back has been merged.
pub proof fn lemma_nothing_live_one_block(free: Seq<(u32, u32)>, capacity: u32, used: u32)
    requires
        tiles(free, Map::empty(), capacity, used),
        capacity > 0,
    ensures
        free == seq![(0u32, capacity)],
        used == 0,
{
    let live = Map::<u32, u32>::empty();
    assert(in_blocks(free, 0) || in_live(live, 0));
    let i = choose|i: int| 0 <= i < free.len() && (#[trigger] free[i]).0 <= 0 < block_end(free[i]);
    if i > 0 {
        assert(block_end(free[0]) < free[i].0);
    }
    let e = block_end(free[0]);
    assert(e <= capacity);
    if e < capacity {
        assert(in_blocks(free, e) || in_live(live, e));
        let j = choose|j: int|
            0 <= j < free.len() && (#[trigger] free[j]).0 <= e < block_end(free[j]);
        assert(block_end(free[0]) < free[j].0);
    }
    if free.len() > 1 {
        assert(block_end(free[0]) < free[1].0);
        assert(block_end(free[1]) <= capacity);
    }
    assert(free =~= seq![(0u32, capacity)]);
    lemma_total_single((0u32, capacity));
}

/// Giving back what has just been allocated restores the free list.
pub proof fn lemma_release_undoes_carve(
    free: Seq<(u32, u32)>,
    capacity: u32,
    i: int,
    at: u32,
    size: u32,
)
    requires
        ascending(free, capacity as int),
        separated(free),
        0 <= i < free.len(),
        size > 0,
        free[i].0 <= at,
        at + size <= block_end(free[i]),
    ensures
        released(carved(free, i, at, size), at, size) == free,
{
    let c = carved(free, i, at, size);
    let f = front_part(free[i], at);
    let b = back_part(free[i], at + size);
    let nf = f.len() as int;
    let p = i + nf;
    assert(forall|k: int| 0 <= k < free.len() ==> block_end(#[trigger] free[k]) <= capacity);
    assert forall|j: int| 0 <= j < p implies (#[trigger] c[j]).0 < at by {
        if j < i {
            assert(c[j] == free[j]);
            assert(block_end(free[j]) < free[i].0);
        } else {
            assert(c[j] == f[0]);
        }
    }
    assert forall|j: int| p <= j < c.len() implies (#[trigger] c[j]).0 >= at by {
        if j == p && b.len() > 0 {
            assert(c[j] == b[0]);
        } else {
            let o = j - nf - b.len() + 1;
            assert(c[j] == free[o]);
            assert(block_end(free[i]) < free[o].0);
        }
    }
    lemma_count_below_is(c, at, p);
    let s = c.insert(p, (at, size));
    let t = merged_right(s, p);
    if b.len() > 0 {
        assert(s[p + 1] == b[0]);
        assert(t =~= free.subrange(0, i) + f + seq![(at, (block_end(free[i]) - at) as u32)]
            + free.subrange(i + 1, free.len() as int));
    } else {
        if p + 1 < s.len() {
            assert(s[p + 1] == free[i + 1]);
            assert(block_end(free[i]) < free[i + 1].0);
        }
        assert(t =~= free.subrange(0, i) + f + seq![(at, size)] + free.subrange(
            i + 1,
            free.len() as int,
        ));
    }
    if nf > 0 {
        assert(t[p - 1] == f[0]);
        assert(merged_right(t, p - 1) =~= free);
    } else if p > 0 {
        assert(t[p - 1] == free[i - 1]);
        assert(block_end(free[i - 1]) < free[i].0);
        assert(t =~= free);
    } else {
        assert(t =~= free);
    }
}

proof fn lemma_count_below_is(s: Seq<(u32, u32)>, offset: u32, p: int)
    requires
        0 <= p <= s.len(),
        forall|j: int| 0 <= j < p ==> (#[trigger] s[j]).0 < offset,
        forall|j: int| p <= j < s.len() ==> (#[trigger] s[j]).0 >= offset,
    ensures
        count_below(s, offset) == p,
    decreases s.len(),
{
    if s.len() > 0 && p < s.len() {
        let rest = s.drop_last();
        assert(forall|j: int| 0 <= j < rest.len() ==> rest[j] == s[j]);
        lemma_count_below_is(rest, offset, p);
    }
}

// ---------------------------------------------------------------------------
// Compaction
// ---------------------------------------------------------------------------

/// The live allocations in ascending order.
pub open spec fn live_blocks(live: Map<u32, u32>) -> Seq<(u32, u32)> {
    choose|blocks: Seq<(u32, u32)>| lists_live(blocks, live)
}

/// There is only one ascending list of the live allocations.
pub proof fn lemma_lists_live_unique(a: Seq<(u32, u32)>, b: Seq<(u32, u32)>, live: Map<u32, u32>)
    requires
        lists_live(a, live),
        lists_live(b, live),
    ensures
        a == b,
    decreases a.len(),
{
    if a.len() == 0 {
        if b.len() > 0 {
            assert(live.contains_key(b[0].0));
            assert(a.contains((b[0].0, live[b[0].0])));
        }
        assert(a =~= b);
    } else {
        let x = a[a.len() - 1];
        assert(live.contains_key(x.0));
        assert(b.contains((x.0, live[x.0])));
        let j = choose|j: int| 0 <= j < b.len() && b[j] == (x.0, live[x.0]);
        let y = b[b.len() - 1];
        assert(live.contains_key(y.0));
        assert(a.contains((y.0, live[y.0])));
        let i = choose|i: int| 0 <= i < a.len() && a[i] == (y.0, live[y.0]);
        if i < a.len() - 1 {
            assert(a[i].0 < a[a.len() - 1].0);
        }
        if j < b.len() - 1 {
            assert(b[j].0 < b[b.len() - 1].0);
        }
        assert(x == y);
        let rest = live.remove(x.0);
        lemma_lists_live_prefix(a, live);
        lemma_lists_live_prefix(b, live);
        lemma_lists_live_unique(a.drop_last(), b.drop_last(), rest);
        assert(a =~= a.drop_last().push(x));
        assert(b =~= b.drop_last().push(y));
    }
}

proof fn lemma_lists_live_prefix(a: Seq<(u32, u32)>, live: Map<u32, u32>)
    requires
        lists_live(a, live),
        a.len() > 0,
    ensures
        lists_live(a.drop_last(), live.remove(a.last().0)),
{
    let d = a.drop_last();
    let rest = live.remove(a.last().0);
    assert forall|i: int, j: int| 0 <= i < j < d.len() implies (#[trigger] d[i]).0 < (
    #[trigger] d[j]).0 by {
        assert(a[i].0 < a[j].0);
    }
    assert forall|i: int| 0 <= i < d.len() implies rest.contains_key((#[trigger] d[i]).0)
        && rest[d[i].0] == d[i].1 by {
        assert(a[i].0 < a[a.len() - 1].0);
        assert(live.contains_key(a[i].0));
    }
    assert forall|k: u32| #[trigger] rest.contains_key(k) implies d.contains((k, rest[k])) by {
        assert(live.contains_key(k));
        let i = choose|i: int| 0 <= i < a.len() && a[i] == (k, live[k]);
        assert(i < a.len() - 1);
        assert(d[i] == (k, rest[k]));
    }
}

/// The live allocations below `n`, in ascending order.
proof fn lemma_live_below(live: Map<u32, u32>, n: int) -> (blocks: Seq<(u32, u32)>)
    requires
        0 <= n <= 0x1_0000_0000,
    ensures
        forall|i: int, j: int|
            0 <= i < j < blocks.len() ==> (#[trigger] blocks[i]).0 < (#[trigger] blocks[j]).0,
        forall|i: int|
            0 <= i < blocks.len() ==> (#[trigger] blocks[i]).0 < n && live.contains_key(blocks[i].0)
                && live[blocks[i].0] == blocks[i].1,
        forall|k: u32| #[trigger]
            live.contains_key(k) && k < n ==> blocks.contains((k, live[k])),
    decreases n,
{
    if n == 0 {
        Seq::empty()
    } else {
        let rest = lemma_live_below(live, n - 1);
        let last = (n - 1) as u32;
        if live.contains_key(last) {
            let blocks = rest.push((last, live[last]));
            assert forall|k: u32| #[trigger] live.contains_key(k) && k < n implies blocks.contains(
                (k, live[k]),
            ) by {
                if k == last {
                    assert(blocks[rest.len() as int] == (k, live[k]));
                } else {
                    assert(rest.contains((k, live[k])));
                    let i = choose|i: int| 0 <= i < rest.len() && rest[i] == (k, live[k]);
                    assert(blocks[i] == (k, live[k]));
                }
            }
            blocks
        } else {
            rest
        }
    }
}

/// The live allocations have an ascending list.
pub proof fn lemma_live_blocks(live: Map<u32, u32>)
    ensures
        lists_live(live_blocks(live), live),
{
    let blocks = lemma_live_below(live, 0x1_0000_0000);
    assert(lists_live(blocks, live));
}

/// The blocks of a list of live allocations ascend without overlap, so their
/// sizes add up to at most the capacity.
pub proof fn lemma_live_blocks_ascend(
    blocks: Seq<(u32, u32)>,
    live: Map<u32, u32>,
    capacity: u32,
)
    requires
        lists_live(blocks, live),
        live_ok(live, capacity),
    ensures
        ascending(blocks, capacity as int),
        0 <= total_size(blocks) <= capacity,
        forall|i: int| 0 <= i < blocks.len() ==> (#[trigger] blocks[i]).1 > 0,
{
    assert forall|i: int, j: int| 0 <= i < j < blocks.len() implies block_end(#[trigger] blocks[i])
        <= (#[trigger] blocks[j]).0 by {
        assert(live.contains_key(blocks[i].0) && live.contains_key(blocks[j].0));
        assert(blocks[i].0 < blocks[j].0);
    }
    assert forall|i: int| 0 <= i < blocks.len() implies block_end(#[trigger] blocks[i]) <= capacity
        && blocks[i].1 > 0 by {
        assert(live.contains_key(blocks[i].0));
    }
    lemma_total_bounded(blocks, capacity as int);
}

/// How many bytes below `n` lie in one of the blocks.
spec fn covered(blocks: Seq<(u32, u32)>, n: int) -> int
    decreases n,
{
    if n <= 0 {
        0
    } else {
        covered(blocks, n - 1) + (if in_blocks(blocks, n - 1) {
            1int
        } else {
            0
        })
    }
}

proof fn lemma_covered_step(blocks: Seq<(u32, u32)>, limit: int, n: int)
    requires
        ascending(blocks, limit),
        blocks.len() > 0,
        0 <= n,
    ensures
        ({
            let last = blocks.last();
            covered(blocks, n) == (if n <= last.0 {
                covered(blocks.drop_last(), n)
            } else if n <= block_end(last) {
                covered(blocks.drop_last(), last.0 as int) + n - last.0
            } else {
                covered(blocks.drop_last(), last.0 as int) + last.1
            })
        }),
    decreases n,
{
    if n > 0 {
        lemma_covered_step(blocks, limit, n - 1);
        let rest = blocks.drop_last();
        let last = blocks.last();
        let b = n - 1;
        if b < last.0 {
            if in_blocks(blocks, b) {
                let i = choose|i: int|
                    0 <= i < blocks.len() && (#[trigger] blocks[i]).0 <= b < block_end(blocks[i]);
                assert(rest[i] == blocks[i]);
            }
            if in_blocks(rest, b) {
                let i = choose|i: int|
                    0 <= i < rest.len() && (#[trigger] rest[i]).0 <= b < block_end(rest[i]);
                assert(blocks[i] == rest[i]);
            }
        } else if b < block_end(last) {
            assert(blocks[blocks.len() - 1].0 <= b);
            assert(in_blocks(blocks, b));
        } else if in_blocks(blocks, b) {
            let i = choose|i: int|
                0 <= i < blocks.len() && (#[trigger] blocks[i]).0 <= b < block_end(blocks[i]);
            if i < blocks.len() - 1 {
                assert(block_end(blocks[i]) <= blocks[blocks.len() - 1].0);
            }
        }
    }
}

/// Blocks that do not overlap cover as many bytes as their sizes add up to.
proof fn lemma_covered_is_total(blocks: Seq<(u32, u32)>, limit: int)
    requires
        ascending(blocks, limit),
        0 <= limit,
    ensures
        covered(blocks, limit) == total_size(blocks),
    decreases blocks.len(),
{
    if blocks.len() == 0 {
        lemma_nothing_covered(blocks, limit);
    } else {
        let rest = blocks.drop_last();
        let last = blocks[blocks.len() - 1];
        assert forall|i: int| 0 <= i < rest.len() implies block_end(#[trigger] rest[i])
            <= last.0 by {
            assert(block_end(blocks[i]) <= blocks[blocks.len() - 1].0);
        }
        assert(ascending(rest, last.0 as int)) by {
            assert forall|i: int, j: int| 0 <= i < j < rest.len() implies block_end(
                #[trigger] rest[i],
            ) <= (#[trigger] rest[j]).0 by {
                assert(block_end(blocks[i]) <= blocks[j].0);
            }
        }
        lemma_covered_is_total(rest, last.0 as int);
        assert(block_end(last) <= limit);
        lemma_covered_step(blocks, limit, limit);
    }
}

proof fn lemma_nothing_covered(blocks: Seq<(u32, u32)>, n: int)
    requires
        blocks.len() == 0,
    ensures
        covered(blocks, n) == 0,
    decreases n,
{
    if n > 0 {
        lemma_nothing_covered(blocks, n - 1);
    }
}

proof fn lemma_covered_complement(
    free: Seq<(u32, u32)>,
    blocks: Seq<(u32, u32)>,
    live: Map<u32, u32>,
    capacity: u32,
    used: u32,
    n: int,
)
    requires
        tiles(free, live, capacity, used),
        lists_live(blocks, live),
        0 <= n <= capacity,
    ensures
        covered(free, n) + covered(blocks, n) == n,
    decreases n,
{
    if n > 0 {
        lemma_covered_complement(free, blocks, live, capacity, used, n - 1);
        let b = n - 1;
        assert(in_blocks(free, b) || in_live(live, b));
        if in_live(live, b) {
            let k = choose|k: u32| #[trigger] live.contains_key(k) && k <= b < k + live[k];
            assert(blocks.contains((k, live[k])));
            let i = choose|i: int| 0 <= i < blocks.len() && blocks[i] == (k, live[k]);
            assert(blocks[i].0 <= b < block_end(blocks[i]));
            assert(in_blocks(blocks, b));
        }
        if in_blocks(free, b) && in_blocks(blocks, b) {
            let j = choose|j: int|
                0 <= j < free.len() && (#[trigger] free[j]).0 <= b < block_end(free[j]);
            let i = choose|i: int|
                0 <= i < blocks.len() && (#[trigger] blocks[i]).0 <= b < block_end(blocks[i]);
            assert(live.contains_key(blocks[i].0));
            assert(block_end(free[j]) <= blocks[i].0 || blocks[i].0 + live[blocks[i].0]
                <= free[j].0);
        }
    }
}

/// The sizes of the live allocations add up to the bytes in use.
pub proof fn lemma_live_total_is_used(
    free: Seq<(u32, u32)>,
    live: Map<u32, u32>,
    capacity: u32,
    used: u32,
)
    requires
        tiles(free, live, capacity, used),
    ensures
        total_size(live_blocks(live)) == used,
{
    let blocks = live_blocks(live);
    lemma_live_blocks(live);
    lemma_live_blocks_ascend(blocks, live, capacity);
    lemma_covered_is_total(free, capacity as int);
    lemma_covered_is_total(blocks, capacity as int);
    lemma_covered_complement(free, blocks, live, capacity, used, capacity as int);
}

/// Where block `i` starts once all blocks are packed towards zero.
pub open spec fn packed_start(blocks: Seq<(u32, u32)>, i: int) -> int {
    total_size(blocks.subrange(0, i))
}

/// The blocks after packing: same sizes, laid end to end from zero.
pub open spec fn packed_blocks(blocks: Seq<(u32, u32)>) -> Seq<(u32, u32)> {
    Seq::new(blocks.len(), |i: int| (packed_start(blocks, i) as u32, blocks[i].1))
}

/// Old offset to new offset, for every block.
pub open spec fn packed_mapping(blocks: Seq<(u32, u32)>) -> Map<u32, u32>
    decreases blocks.len(),
{
    if blocks.len() == 0 {
        Map::empty()
    } else {
        packed_mapping(blocks.drop_last()).insert(
            blocks.last().0,
            total_size(blocks.drop_last()) as u32,
        )
    }
}

/// The contents of the blocks, one behind the other.
pub open spec fn gathered(bytes: Seq<u8>, blocks: Seq<(u32, u32)>) -> Seq<u8>
    decreases blocks.len(),
{
    if blocks.len() == 0 {
        Seq::empty()
    } else {
        gathered(bytes, blocks.drop_last()) + bytes.subrange(
            blocks.last().0 as int,
            block_end(blocks.last()),
        )
    }
}

/// `n` zero bytes.
pub open spec fn zeros(n: int) -> Seq<u8> {
    Seq::new(n as nat, |i: int| 0u8)
}

/// The region's bytes after packing: the blocks' contents from zero on, then zeros.
pub open spec fn packed_bytes(bytes: Seq<u8>, blocks: Seq<(u32, u32)>, capacity: u32) -> Seq<u8> {
    gathered(bytes, blocks) + zeros(capacity - total_size(blocks))
}

pub proof fn lemma_gathered_len(bytes: Seq<u8>, blocks: Seq<(u32, u32)>)
    requires
        forall|i: int|
            0 <= i < blocks.len() ==> block_end(#[trigger] blocks[i]) <= bytes.len(),
    ensures
        gathered(bytes, blocks).len() == total_size(blocks),
        total_size(blocks) >= 0,
    decreases blocks.len(),
{
    if blocks.len() > 0 {
        let rest = blocks.drop_last();
        assert forall|i: int| 0 <= i < rest.len() implies block_end(#[trigger] rest[i])
            <= bytes.len() by {
            assert(rest[i] == blocks[i]);
        }
        lemma_gathered_len(bytes, rest);
        assert(blocks.last() == blocks[blocks.len() - 1]);
    }
}

/// Block `i` keeps its contents: they lie from its packed start on.
pub proof fn lemma_gathered_block(bytes: Seq<u8>, blocks: Seq<(u32, u32)>, i: int)
    requires
        0 <= i < blocks.len(),
        forall|j: int|
            0 <= j < blocks.len() ==> block_end(#[trigger] blocks[j]) <= bytes.len(),
    ensures
        0 <= packed_start(blocks, i),
        packed_start(blocks, i) + blocks[i].1 <= gathered(bytes, blocks).len(),
        gathered(bytes, blocks).subrange(
            packed_start(blocks, i),
            packed_start(blocks, i) + blocks[i].1,
        ) == bytes.subrange(blocks[i].0 as int, block_end(blocks[i])),
    decreases blocks.len(),
{
    let rest = blocks.drop_last();
    assert forall|j: int| 0 <= j < rest.len() implies block_end(#[trigger] rest[j])
        <= bytes.len() by {
        assert(rest[j] == blocks[j]);
    }
    lemma_gathered_len(bytes, blocks);
    lemma_gathered_len(bytes, rest);
    let start = packed_start(blocks, i);
    if i < rest.len() {
        lemma_gathered_block(bytes, rest, i);
        assert(rest[i] == blocks[i]);
        assert(rest.subrange(0, i) =~= blocks.subrange(0, i));
        assert(gathered(bytes, blocks).subrange(start, start + blocks[i].1) =~= gathered(
            bytes,
            rest,
        ).subrange(start, start + blocks[i].1));
    } else {
        assert(rest =~= blocks.subrange(0, i));
        assert(gathered(bytes, blocks).subrange(start, start + blocks[i].1) =~= bytes.subrange(
            blocks[i].0 as int,
            block_end(blocks[i]),
        ));
    }
}

/// Packing leaves non-empty blocks end to end from zero, with the same total.
pub proof fn lemma_packed_blocks(blocks: Seq<(u32, u32)>, capacity: u32)
    requires
        total_size(blocks) <= capacity,
        forall|i: int| 0 <= i < blocks.len() ==> (#[trigger] blocks[i]).1 > 0,
    ensures
        packed_from_zero(packed_blocks(blocks)),
        total_size(packed_blocks(blocks)) == total_size(blocks),
{
    let p = packed_blocks(blocks);
    assert forall|i: int| 0 <= i <= blocks.len() implies total_size(#[trigger] p.subrange(0, i))
        == total_size(blocks.subrange(0, i)) by {
        lemma_packed_prefix_total(blocks, i);
    }
    assert(p.subrange(0, p.len() as int) =~= p);
    assert(blocks.subrange(0, blocks.len() as int) =~= blocks);
    assert forall|i: int| 0 <= i < p.len() implies (#[trigger] p[i]).1 > 0 && p[i].0 == total_size(
        p.subrange(0, i),
    ) by {
        lemma_total_prefix_monotonic(blocks, i, blocks.len() as int);
        assert(blocks[i].1 > 0);
        assert(total_size(p.subrange(0, i)) == total_size(blocks.subrange(0, i)));
    }
}

proof fn lemma_packed_prefix_total(blocks: Seq<(u32, u32)>, i: int)
    requires
        0 <= i <= blocks.len(),
    ensures
        total_size(packed_blocks(blocks).subrange(0, i)) == total_size(blocks.subrange(0, i)),
    decreases i,
{
    let p = packed_blocks(blocks);
    if i > 0 {
        lemma_packed_prefix_total(blocks, i - 1);
        lemma_total_prefix_step(blocks, i - 1);
        lemma_total_prefix_step(p, i - 1);
    }
}

/// The mapping sends the start of every block to its packed start, and no other offset.
pub proof fn lemma_packed_mapping(blocks: Seq<(u32, u32)>)
    requires
        forall|i: int, j: int|
            0 <= i < j < blocks.len() ==> (#[trigger] blocks[i]).0 < (#[trigger] blocks[j]).0,
    ensures
        forall|i: int|
            0 <= i < blocks.len() ==> packed_mapping(blocks).contains_key((#[trigger] blocks[i]).0)
                && packed_mapping(blocks)[blocks[i].0] == packed_start(blocks, i) as u32,
        forall|k: u32| #[trigger]
            packed_mapping(blocks).contains_key(k) ==> exists|i: int|
                0 <= i < blocks.len() && (#[trigger] blocks[i]).0 == k,
        packed_mapping(blocks).dom().finite(),
        packed_mapping(blocks).len() == blocks.len(),
    decreases blocks.len(),
{
    if blocks.len() > 0 {
        let rest = blocks.drop_last();
        let n = rest.len() as int;
        assert forall|i: int, j: int| 0 <= i < j < rest.len() implies (#[trigger] rest[i]).0 < (
        #[trigger] rest[j]).0 by {
            assert(rest[i] == blocks[i] && rest[j] == blocks[j]);
        }
        lemma_packed_mapping(rest);
        let m = packed_mapping(blocks);
        let mr = packed_mapping(rest);
        assert(rest =~= blocks.subrange(0, n));
        assert forall|i: int| 0 <= i < blocks.len() implies m.contains_key((#[trigger] blocks[i]).0)
            && m[blocks[i].0] == packed_start(blocks, i) as u32 by {
            if i < n {
                assert(rest[i] == blocks[i]);
                assert(blocks[i].0 < blocks[n].0);
                assert(rest.subrange(0, i) =~= blocks.subrange(0, i));
            }
        }
        assert forall|k: u32| #[trigger] m.contains_key(k) implies exists|i: int|
            0 <= i < blocks.len() && (#[trigger] blocks[i]).0 == k by {
            if k == blocks.last().0 {
                assert(blocks[n].0 == k);
            } else {
                assert(mr.contains_key(k));
                let i = choose|i: int| 0 <= i < rest.len() && (#[trigger] rest[i]).0 == k;
                assert(blocks[i].0 == k);
            }
        }
        assert(!mr.contains_key(blocks.last().0)) by {
            if mr.contains_key(blocks.last().0) {
                let i = choose|i: int|
                    0 <= i < rest.len() && (#[trigger] rest[i]).0 == blocks.last().0;
                assert(blocks[i].0 < blocks[n].0);
            }
        }
    }
}

/// Packing keeps the contents of every live allocation, at the offset that the
/// mapping names.
pub proof fn lemma_packing_keeps_contents(
    bytes: Seq<u8>,
    live: Map<u32, u32>,
    capacity: u32,
    offset: u32,
)
    requires
        live_ok(live, capacity),
        live.contains_key(offset),
        forall|i: int|
            0 <= i < live_blocks(live).len() ==> block_end(#[trigger] live_blocks(live)[i])
                <= bytes.len(),
    ensures
        packed_mapping(live_blocks(live)).contains_key(offset),
        ({
            let start = packed_mapping(live_blocks(live))[offset];
            let packed = packed_bytes(bytes, live_blocks(live), capacity);
            &&& start + live[offset] <= packed.len()
            &&& packed.subrange(start as int, start + live[offset]) == bytes.subrange(
                offset as int,
                offset + live[offset],
            )
        }),
{
    let blocks = live_blocks(live);
    lemma_live_blocks(live);
    lemma_live_blocks_ascend(blocks, live, capacity);
    lemma_packed_mapping(blocks);
    assert(blocks.contains((offset, live[offset])));
    let i = choose|i: int| 0 <= i < blocks.len() && blocks[i] == (offset, live[offset]);
    assert(packed_mapping(blocks).contains_key(blocks[i].0));
    lemma_gathered_block(bytes, blocks, i);
    lemma_gathered_len(bytes, blocks);
    let size = live[offset];
    let start = packed_start(blocks, i);
    lemma_total_prefix_monotonic(blocks, i, blocks.len() as int);
    assert(blocks.subrange(0, blocks.len() as int) =~= blocks);
    let all = packed_bytes(bytes, blocks, capacity);
    assert(all.subrange(start, start + size) =~= gathered(bytes, blocks).subrange(
        start,
        start + size,
    ));
}

} // verus!
