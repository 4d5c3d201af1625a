//! Repeatable pseudo-random bytes and orders.
use vstd::prelude::*;

verus! {

/// The generator's next state.
pub open spec fn xorshift(x: u32) -> u32 {
    let a = x ^ (x << 13);
    let b = a ^ (a >> 17);
    b ^ (b << 5)
}

/// The state after `n` steps.
pub open spec fn state_after(start: u32, n: nat) -> u32
    decreases n,
{
    if n == 0 {
        start
    } else {
        xorshift(state_after(start, (n - 1) as nat))
    }
}

/// The state that a seed starts from, moved by `by`.
pub open spec fn seeded(seed: u32, by: u32) -> u32 {
    ((seed + by) % 0x1_0000_0000) as u32
}

/// One step of the generator.
pub fn next_state(x: u32) -> (r: u32)
    ensures
        r == xorshift(x),
{
    let a: u32 = x ^ (x << 13);
    let b: u32 = a ^ (a >> 17);
    b ^ (b << 5)
}

/// A generator that has left zero never comes back to it, and one that stands
/// at zero stays there.
pub proof fn law_xorshift_keeps_zero_apart(x: u32)
    ensures
        (xorshift(x) == 0) == (x == 0),
{
    let a = x ^ (x << 13);
    let b = a ^ (a >> 17);
    assert(x ^ (x << 13u32) == 0 ==> x == 0) by (bit_vector);
    assert(a ^ (a >> 17u32) == 0 ==> a == 0) by (bit_vector);
    assert(b ^ (b << 5u32) == 0 ==> b == 0) by (bit_vector);
    assert(0u32 ^ (0u32 << 13u32) == 0 && 0u32 ^ (0u32 >> 17u32) == 0 && 0u32 ^ (0u32 << 5u32)
        == 0) by (bit_vector);
}

/// The bytes that a seed gives.
pub open spec fn pattern(seed: u32, len: nat) -> Seq<u8> {
    Seq::new(len, |i: int| state_after(seeded(seed, 1), (i + 1) as nat) as u8)
}

/// Fills the buffer with the bytes of a seed.
pub fn fill_pattern(buf: &mut [u8], seed: u32)
    ensures
        final(buf)@ == pattern(seed, old(buf)@.len()),
{
    let n: usize = buf.len();
    let mut state: u32 = seed.wrapping_add(1);
    let mut i: usize = 0;
    while i < n
        invariant
            i <= n,
            n == buf@.len(),
            n == old(buf)@.len(),
            state == state_after(seeded(seed, 1), i as nat),
            forall|k: int| 0 <= k < i ==> buf@[k] == pattern(seed, n as nat)[k],
        decreases n - i,
    {
        state = next_state(state);
        #[verifier::truncate]
        let byte: u8 = state as u8;
        buf[i] = byte;
        i += 1;
    }
    assert(buf@ =~= pattern(seed, n as nat));
}

/// A buffer of `len` bytes of a seed.
pub fn pattern_bytes(len: usize, seed: u32) -> (r: Vec<u8>)
    ensures
        r@ == pattern(seed, len as nat),
{
    let mut out = crate::memory_region::zeroed(len);
    fill_pattern(out.as_mut_slice(), seed);
    out
}

/// The numbers below `n` in order.
pub open spec fn in_order(n: nat) -> Seq<u32> {
    Seq::new(n, |i: int| i as u32)
}

pub open spec fn swapped(s: Seq<u32>, i: int, j: int) -> Seq<u32> {
    s.update(i, s[j]).update(j, s[i])
}

/// The order after the places from `i` down have been exchanged with places
/// that the generator picks at or below them.
pub open spec fn shuffled_from(s: Seq<u32>, state: u32, i: int) -> Seq<u32>
    decreases i,
{
    if i <= 0 {
        s
    } else {
        let next = xorshift(state);
        shuffled_from(swapped(s, i, next as int % (i + 1)), next, i - 1)
    }
}

/// The shuffled numbers below `n`.
pub open spec fn shuffle_of(n: nat, start: u32) -> Seq<u32> {
    shuffled_from(in_order(n), start, n - 1)
}

/// Each number below the length stands at exactly one place.
pub open spec fn is_order(s: Seq<u32>) -> bool {
    &&& forall|i: int| 0 <= i < s.len() ==> #[trigger] s[i] < s.len()
    &&& s.no_duplicates()
    &&& forall|v: u32| v < s.len() ==> s.contains(v)
}

proof fn lemma_swapped_is_order(s: Seq<u32>, i: int, j: int)
    requires
        is_order(s),
        0 <= i < s.len(),
        0 <= j < s.len(),
    ensures
        is_order(swapped(s, i, j)),
        swapped(s, i, j).len() == s.len(),
{
    let t = swapped(s, i, j);
    assert forall|a: int, b: int| 0 <= a < t.len() && 0 <= b < t.len() && a != b implies t[a]
        != t[b] by {
        let a0 = if a == i {
            j
        } else if a == j {
            i
        } else {
            a
        };
        let b0 = if b == i {
            j
        } else if b == j {
            i
        } else {
            b
        };
        assert(t[a] == s[a0] && t[b] == s[b0] && a0 != b0);
    }
    assert forall|v: u32| v < t.len() implies t.contains(v) by {
        assert(s.contains(v));
        let at = choose|k: int| 0 <= k < s.len() && s[k] == v;
        let to = if at == i {
            j
        } else if at == j {
            i
        } else {
            at
        };
        assert(t[to] == v);
    }
}

/// The sum of the first `n` numbers of a sequence.
pub open spec fn sum_u32(s: Seq<u32>, n: int) -> nat
    decreases n,
{
    if n <= 0 {
        0
    } else {
        sum_u32(s, n - 1) + s[n - 1] as nat
    }
}

proof fn lemma_sum_same(s: Seq<u32>, t: Seq<u32>, n: int)
    requires
        forall|k: int| 0 <= k < n ==> s[k] == t[k],
    ensures
        sum_u32(s, n) == sum_u32(t, n),
    decreases n,
{
    if n > 0 {
        lemma_sum_same(s, t, n - 1);
    }
}

proof fn lemma_sum_update(s: Seq<u32>, i: int, v: u32, n: int)
    requires
        0 <= i < s.len(),
        n <= s.len(),
    ensures
        sum_u32(s.update(i, v), n) == (if i < n {
            sum_u32(s, n) - s[i] + v
        } else {
            sum_u32(s, n) as int
        }),
    decreases n,
{
    if n > 0 {
        lemma_sum_update(s, i, v, n - 1);
    }
}

proof fn lemma_swapped_sum(s: Seq<u32>, i: int, j: int)
    requires
        0 <= i < s.len(),
        0 <= j < s.len(),
    ensures
        sum_u32(swapped(s, i, j), s.len() as int) == sum_u32(s, s.len() as int),
{
    lemma_sum_update(s, i, s[j], s.len() as int);
    lemma_sum_update(s.update(i, s[j]), j, s[i], s.len() as int);
    if i == j {
        assert(swapped(s, i, j) =~= s);
    }
}

proof fn lemma_in_order_sum(n: nat, k: int)
    requires
        0 <= k <= n <= 0x1_0000_0000,
    ensures
        2 * sum_u32(in_order(n), k) == k * (k - 1),
    decreases k,
{
    if k > 0 {
        lemma_in_order_sum(n, k - 1);
        assert(in_order(n)[k - 1] as int == k - 1);
        assert((k - 1) * ((k - 1) - 1) + 2 * (k - 1) == k * (k - 1)) by (nonlinear_arith);
    } else {
        assert(k * (k - 1) == 0) by (nonlinear_arith)
            requires
                k == 0,
        ;
    }
}

proof fn lemma_shuffled(s: Seq<u32>, state: u32, i: int)
    requires
        is_order(s),
        i < s.len(),
    ensures
        is_order(shuffled_from(s, state, i)),
        shuffled_from(s, state, i).len() == s.len(),
        sum_u32(shuffled_from(s, state, i), s.len() as int) == sum_u32(s, s.len() as int),
    decreases i,
{
    if i > 0 {
        let next = xorshift(state);
        let j = next as int % (i + 1);
        assert(0 <= j < i + 1) by (nonlinear_arith)
            requires
                j == next as int % (i + 1),
                i > 0,
        ;
        lemma_swapped_is_order(s, i, j);
        lemma_swapped_sum(s, i, j);
        lemma_shuffled(swapped(s, i, j), next, i - 1);
    }
}

/// A shuffle puts each number below `n` at exactly one place, so the sum of the
/// numbers is what it was.
pub proof fn law_shuffle_is_an_order(n: nat, start: u32)
    requires
        n <= 0x1_0000_0000,
    ensures
        shuffle_of(n, start).len() == n,
        is_order(shuffle_of(n, start)),
        2 * sum_u32(shuffle_of(n, start), n as int) == n * (n - 1),
{
    lemma_in_order_sum(n, n as int);
    assert(is_order(in_order(n))) by {
        assert forall|v: u32| v < n implies in_order(n).contains(v) by {
            assert(in_order(n)[v as int] == v);
        }
    }
    lemma_shuffled(in_order(n), start, n - 1);
}

/// Shuffles the numbers below `n`.
pub fn shuffled(n: u32, start: u32) -> (r: Vec<u32>)
    ensures
        r@ == shuffle_of(n as nat, start),
        r@.len() == n,
        is_order(r@),
{
    let mut order: Vec<u32> = Vec::new();
    let mut k: u32 = 0;
    while k < n
        invariant
            k <= n,
            order@ == in_order(k as nat),
        decreases n - k,
    {
        order.push(k);
        k += 1;
        assert(order@ =~= in_order(k as nat));
    }
    let mut state: u32 = start;
    let mut i: u32 = n;
    assert(n == 0 ==> shuffle_of(0, start) =~= order@);
    while i > 1
        invariant
            i <= n,
            order@.len() == n,
            shuffle_of(n as nat, start) == shuffled_from(order@, state, i - 1),
        decreases i,
    {
        i -= 1;
        state = next_state(state);
        let j: u32 = state % (i + 1);
        let a: u32 = order[i as usize];
        let b: u32 = order[j as usize];
        order.set(i as usize, b);
        order.set(j as usize, a);
    }
    proof {
        law_shuffle_is_an_order(n as nat, start);
    }
    order
}

} // verus!
