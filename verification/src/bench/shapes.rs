//! Rings and lists laid out in bytes, in a given order.
use vstd::arithmetic::div_mod::{lemma_mod_add_multiples_vanish, lemma_small_mod};
use vstd::prelude::*;
use super::cells::{lemma_with_u32, put_u32, u32_at};
use super::pattern::{is_order, sum_u32};
use super::workloads::{chase_at, chase_sum, chase_value, ends_within, is_list, lemma_list_sum_unique, list_sum, list_total, LIST_END};
use crate::memory_region::zeroed;

verus! {

/// The place behind `i` on a ring of `n` places.
pub open spec fn ring_next(i: int, n: int) -> int {
    (i + 1) % n
}

/// The bytes hold a ring: the cell of each number holds the next number of the order.
pub open spec fn is_ring(bytes: Seq<u8>, order: Seq<u32>) -> bool {
    &&& bytes.len() == 4 * order.len()
    &&& forall|i: int|
        0 <= i < order.len() ==> u32_at(bytes, 4 * #[trigger] order[i]) == order[ring_next(
            i,
            order.len() as int,
        )]
}

/// Lays a ring out in bytes.
pub fn ring_bytes(order: &Vec<u32>) -> (r: Vec<u8>)
    requires
        is_order(order@),
        order@.len() <= 0x4000_0000,
        4 * order@.len() <= usize::MAX,
    ensures
        is_ring(r@, order@),
{
    let n: usize = order.len();
    let mut bytes = zeroed(n * 4);
    let mut i: usize = 0;
    while i < n
        invariant
            i <= n,
            n == order@.len(),
            n <= 0x4000_0000,
            4 * n <= usize::MAX,
            is_order(order@),
            bytes@.len() == 4 * n,
            forall|k: int|
                0 <= k < i ==> u32_at(bytes@, 4 * #[trigger] order@[k]) == order@[ring_next(
                    k,
                    n as int,
                )],
        decreases n - i,
    {
        let here: usize = order[i] as usize;
        let next: u32 = order[(i + 1) % n];
        let ghost before = bytes@;
        proof {
            lemma_with_u32(before, 4 * here as int, next);
        }
        put_u32(bytes.as_mut_slice(), here * 4, next);
        assert forall|k: int| 0 <= k < i + 1 implies u32_at(bytes@, 4 * #[trigger] order@[k])
            == order@[ring_next(k, n as int)] by {
            if k < i {
                assert(order@[k] != order@[i as int]);
            }
        }
        i += 1;
    }
    bytes
}

/// The sum of `k` numbers of a ring from the place `from` on.
pub open spec fn ring_sum(order: Seq<u32>, from: int, k: nat) -> nat
    decreases k,
{
    if k == 0 {
        0
    } else {
        ring_sum(order, from, (k - 1) as nat) + order[(from + k - 1) % order.len() as int] as nat
    }
}

proof fn lemma_ring_sum_split(order: Seq<u32>, from: int, j: nat, k: nat)
    ensures
        ring_sum(order, from, j + k) == ring_sum(order, from, j) + ring_sum(order, from + j, k),
    decreases k,
{
    if k > 0 {
        lemma_ring_sum_split(order, from, j, (k - 1) as nat);
        assert(from + (j + k) - 1 == (from + j) + k - 1);
    }
}

proof fn lemma_ring_sum_prefix(order: Seq<u32>, k: nat)
    requires
        k <= order.len(),
    ensures
        ring_sum(order, 0, k) == sum_u32(order, k as int),
    decreases k,
{
    if k > 0 {
        lemma_ring_sum_prefix(order, (k - 1) as nat);
        lemma_small_mod((k - 1) as nat, order.len());
    }
}

/// Once round a ring, from whatever place, gives the sum of its numbers.
pub proof fn lemma_ring_sum_round(order: Seq<u32>, from: int)
    requires
        order.len() > 0,
        0 <= from,
    ensures
        ring_sum(order, from, order.len()) == sum_u32(order, order.len() as int),
    decreases from,
{
    let n = order.len();
    if from == 0 {
        lemma_ring_sum_prefix(order, n);
    } else {
        lemma_ring_sum_round(order, from - 1);
        lemma_ring_sum_split(order, from - 1, 1, (n - 1) as nat);
        lemma_ring_sum_split(order, from, (n - 1) as nat, 1);
        assert(ring_sum(order, from - 1, 1) == order[(from - 1) % n as int] as nat) by {
            assert(ring_sum(order, from - 1, 0) == 0);
        }
        assert(ring_sum(order, from + (n - 1), 1) == order[(from + n - 1) % n as int] as nat) by {
            assert(ring_sum(order, from + (n - 1), 0) == 0);
        }
        assert((from + n - 1) % n as int == (from - 1) % n as int) by {
            lemma_mod_add_multiples_vanish(from - 1, n as int);
        }
    }
}

proof fn lemma_next_place(p: int, k: nat, n: int)
    requires
        n > 0,
        0 <= p,
    ensures
        ring_next((p + k) % n, n) == (p + k + 1) % n,
        0 <= (p + k) % n < n,
{
    vstd::arithmetic::div_mod::lemma_add_mod_noop(p + k, 1, n);
    if n == 1 {
    } else {
        lemma_small_mod(1, n as nat);
    }
    vstd::arithmetic::div_mod::lemma_mod_bound(p + k, n);
}

proof fn lemma_chase(bytes: Seq<u8>, order: Seq<u32>, p: int, k: nat)
    requires
        is_order(order),
        is_ring(bytes, order),
        0 < order.len() <= u32::MAX,
        0 <= p < order.len(),
        order[p] == 0,
    ensures
        chase_at(bytes, order.len() as u32, k) == order[(p + k) % order.len() as int],
        chase_value(bytes, order.len() as u32, k) == order[(p + k + 1) % order.len() as int],
    decreases k,
{
    let n = order.len() as int;
    lemma_next_place(p, k, n);
    if k == 0 {
        lemma_small_mod(p as nat, n as nat);
    } else {
        lemma_chase(bytes, order, p, (k - 1) as nat);
        let v = order[(p + k) % n];
        assert(v < n);
        lemma_small_mod(v as nat, n as nat);
    }
    assert(u32_at(bytes, 4 * order[(p + k) % n]) == order[ring_next((p + k) % n, n)]);
}

proof fn lemma_chase_sum(bytes: Seq<u8>, order: Seq<u32>, p: int, k: nat)
    requires
        is_order(order),
        is_ring(bytes, order),
        0 < order.len() <= u32::MAX,
        0 <= p < order.len(),
        order[p] == 0,
    ensures
        chase_sum(bytes, order.len() as u32, k) == ring_sum(order, p + 1, k),
    decreases k,
{
    if k > 0 {
        lemma_chase_sum(bytes, order, p, (k - 1) as nat);
        lemma_chase(bytes, order, p, (k - 1) as nat);
        assert(p + (k - 1) + 1 == (p + 1) + k - 1);
    }
}

proof fn lemma_ring_rounds(order: Seq<u32>, from: int, rounds: nat)
    requires
        order.len() > 0,
        0 <= from,
    ensures
        ring_sum(order, from, rounds * order.len()) == rounds * sum_u32(order, order.len() as int),
    decreases rounds,
{
    let n = order.len();
    let total = sum_u32(order, n as int);
    if rounds == 0 {
        assert(0 * n == 0 && 0 * total == 0) by (nonlinear_arith);
    } else {
        let fewer = (rounds - 1) as nat;
        lemma_ring_rounds(order, from, fewer);
        lemma_ring_sum_split(order, from, fewer * n, n);
        assert(0 <= fewer * n) by (nonlinear_arith);
        lemma_ring_sum_round(order, from + fewer * n);
        assert(fewer * n + n == rounds * n && fewer * total + total == rounds * total)
            by (nonlinear_arith)
            requires
                fewer == rounds - 1,
        ;
    }
}

/// A chase that goes round a ring so many times reads each number that often.
pub proof fn law_chase_reads_every_cell(bytes: Seq<u8>, order: Seq<u32>, rounds: nat)
    requires
        is_order(order),
        is_ring(bytes, order),
        0 < order.len() <= u32::MAX,
    ensures
        chase_sum(bytes, order.len() as u32, rounds * order.len()) == rounds * sum_u32(
            order,
            order.len() as int,
        ),
{
    assert(order.contains(0));
    let p = choose|k: int| 0 <= k < order.len() && order[k] == 0;
    lemma_chase_sum(bytes, order, p, rounds * order.len());
    lemma_ring_rounds(order, p + 1, rounds);
}

/// What the node at a place of the order holds as its next offset.
pub open spec fn next_offset(order: Seq<u32>, i: int) -> int {
    if i + 1 < order.len() {
        8 * order[i + 1] as int
    } else {
        LIST_END as int
    }
}

/// The bytes hold a list: the node of each number holds the offset of the next
/// number's node, and its own place as the payload.
pub open spec fn holds_list(bytes: Seq<u8>, order: Seq<u32>) -> bool {
    &&& bytes.len() == 8 * order.len()
    &&& forall|i: int|
        0 <= i < order.len() ==> {
            &&& u32_at(bytes, 8 * #[trigger] order[i]) == next_offset(order, i)
            &&& u32_at(bytes, 8 * order[i] + 4) == i
        }
}

/// Lays a list out in bytes.
pub fn list_bytes(order: &Vec<u32>) -> (r: Vec<u8>)
    requires
        is_order(order@),
        order@.len() < 0x2000_0000,
        8 * order@.len() <= usize::MAX,
    ensures
        holds_list(r@, order@),
{
    let n: usize = order.len();
    let mut bytes = zeroed(n * 8);
    let mut i: usize = 0;
    while i < n
        invariant
            i <= n,
            n == order@.len(),
            n < 0x2000_0000,
            8 * n <= usize::MAX,
            is_order(order@),
            bytes@.len() == 8 * n,
            forall|k: int|
                0 <= k < i ==> {
                    &&& u32_at(bytes@, 8 * #[trigger] order@[k]) == next_offset(order@, k)
                    &&& u32_at(bytes@, 8 * order@[k] + 4) == k
                },
        decreases n - i,
    {
        let here: usize = order[i] as usize;
        let next: u32 = if i + 1 < n {
            order[i + 1] * 8
        } else {
            LIST_END
        };
        let ghost before = bytes@;
        proof {
            lemma_with_u32(before, 8 * here as int, next);
        }
        put_u32(bytes.as_mut_slice(), here * 8, next);
        let ghost middle = bytes@;
        proof {
            lemma_with_u32(middle, 8 * here + 4, i as u32);
        }
        put_u32(bytes.as_mut_slice(), here * 8 + 4, i as u32);
        assert forall|k: int| 0 <= k < i + 1 implies {
            &&& u32_at(bytes@, 8 * #[trigger] order@[k]) == next_offset(order@, k)
            &&& u32_at(bytes@, 8 * order@[k] + 4) == k
        } by {
            if k < i {
                assert(order@[k] != order@[i as int]);
                assert(u32_at(middle, 8 * order@[k] as int) == u32_at(before, 8 * order@[k] as int));
                assert(u32_at(middle, 8 * order@[k] + 4) == u32_at(before, 8 * order@[k] + 4));
            }
        }
        i += 1;
    }
    bytes
}

proof fn lemma_list_from(bytes: Seq<u8>, order: Seq<u32>, i: int)
    requires
        holds_list(bytes, order),
        is_order(order),
        order.len() < 0x2000_0000,
        0 <= i < order.len(),
    ensures
        ends_within(bytes, (8 * order[i]) as u32, (order.len() - i) as nat),
        2 * list_sum(bytes, (8 * order[i]) as u32, (order.len() - i) as nat) == (order.len() - i)
            * (order.len() - 1 + i),
    decreases order.len() - i,
{
    let n = order.len() as int;
    let cur = (8 * order[i]) as u32;
    assert(order[i] < n);
    assert(cur == 8 * order[i]);
    let next = u32_at(bytes, cur as int);
    assert(next == next_offset(order, i));
    assert(u32_at(bytes, cur + 4) == i);
    if i + 1 < n {
        lemma_list_from(bytes, order, i + 1);
        assert(order[i + 1] < n);
        assert((n - i) * (n - 1 + i) == (n - (i + 1)) * (n - 1 + (i + 1)) + 2 * i)
            by (nonlinear_arith);
    } else {
        assert(ends_within(bytes, next, 0));
        assert(list_sum(bytes, next, 0) == 0);
        assert((n - i) * (n - 1 + i) == 2 * i) by (nonlinear_arith)
            requires
                i == n - 1,
        ;
    }
}

/// A list laid out in bytes ends, and its walk reads each place once.
pub proof fn law_list_reads_every_node(bytes: Seq<u8>, order: Seq<u32>)
    requires
        holds_list(bytes, order),
        is_order(order),
        0 < order.len() < 0x2000_0000,
    ensures
        is_list(bytes, (8 * order[0]) as u32),
        2 * list_total(bytes, (8 * order[0]) as u32) == order.len() * (order.len() - 1),
{
    let head = (8 * order[0]) as u32;
    lemma_list_from(bytes, order, 0);
    let n = choose|n: nat| ends_within(bytes, head, n);
    lemma_list_sum_unique(bytes, head, n, order.len());
}

} // verus!
