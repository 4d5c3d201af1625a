//! Rank sums for the comparison of two samples.
use vstd::prelude::*;
use vstd::seq_lib::{commutative_foldl, lemma_fold_left_permutation};

verus! {

/// The sum of a quantity over a sequence.
pub open spec fn total<A>(s: Seq<A>, g: spec_fn(A) -> int) -> int
    decreases s.len(),
{
    if s.len() == 0 {
        0
    } else {
        total(s.drop_last(), g) + g(s.last())
    }
}

/// How many values lie below `v`.
pub open spec fn below(s: Seq<u128>, v: u128) -> int {
    total(s, |x: u128| if x < v { 1int } else { 0 })
}

/// How many values are at most `v`.
pub open spec fn at_most(s: Seq<u128>, v: u128) -> int {
    total(s, |x: u128| if x <= v { 1int } else { 0 })
}

/// Twice the rank of `v` among `s`, where equal values share the mean of their
/// ranks.
pub open spec fn doubled_rank(s: Seq<u128>, v: u128) -> int {
    below(s, v) + at_most(s, v) + 1
}

/// Twice the sum of the ranks of `a` among both samples.
pub open spec fn doubled_rank_sum(a: Seq<u128>, b: Seq<u128>) -> int {
    total(a, |x: u128| doubled_rank(a + b, x))
}

/// Twice the number of pairs in which the value of `a` is the larger, where
/// equal values count half.
pub open spec fn doubled_wins(a: Seq<u128>, b: Seq<u128>) -> int {
    total(a, |x: u128| below(b, x) + at_most(b, x))
}

proof fn lemma_total_fold<A>(s: Seq<A>, g: spec_fn(A) -> int)
    ensures
        total(s, g) == s.fold_left(0, |acc: int, x: A| acc + g(x)),
    decreases s.len(),
{
    if s.len() > 0 {
        lemma_total_fold(s.drop_last(), g);
    }
}

proof fn lemma_total_permutation<A>(s: Seq<A>, t: Seq<A>, g: spec_fn(A) -> int)
    requires
        s.to_multiset() == t.to_multiset(),
    ensures
        total(s, g) == total(t, g),
{
    let f = |acc: int, x: A| acc + g(x);
    lemma_total_fold(s, g);
    lemma_total_fold(t, g);
    assert(commutative_foldl(f));
    lemma_fold_left_permutation(s, t, f, 0);
}

proof fn lemma_total_same<A>(s: Seq<A>, g: spec_fn(A) -> int, h: spec_fn(A) -> int)
    requires
        forall|i: int| 0 <= i < s.len() ==> g(#[trigger] s[i]) == h(s[i]),
    ensures
        total(s, g) == total(s, h),
    decreases s.len(),
{
    if s.len() > 0 {
        assert(forall|i: int|
            0 <= i < s.len() - 1 ==> #[trigger] s.drop_last()[i] == s[i]);
        lemma_total_same(s.drop_last(), g, h);
    }
}

proof fn lemma_total_add<A>(s: Seq<A>, g: spec_fn(A) -> int, h: spec_fn(A) -> int)
    ensures
        total(s, |x: A| g(x) + h(x)) == total(s, g) + total(s, h),
    decreases s.len(),
{
    if s.len() > 0 {
        lemma_total_add(s.drop_last(), g, h);
    }
}

proof fn lemma_total_concat<A>(s: Seq<A>, t: Seq<A>, g: spec_fn(A) -> int)
    ensures
        total(s + t, g) == total(s, g) + total(t, g),
    decreases t.len(),
{
    if t.len() == 0 {
        assert(s + t =~= s);
    } else {
        assert((s + t).drop_last() =~= s + t.drop_last());
        lemma_total_concat(s, t.drop_last(), g);
    }
}

proof fn lemma_total_map<A, B>(s: Seq<A>, m: spec_fn(A) -> B, g: spec_fn(B) -> int)
    ensures
        total(s.map_values(m), g) == total(s, |x: A| g(m(x))),
    decreases s.len(),
{
    if s.len() > 0 {
        assert(s.map_values(m).drop_last() =~= s.drop_last().map_values(m));
        lemma_total_map(s.drop_last(), m, g);
    }
}

proof fn lemma_total_constant<A>(s: Seq<A>, c: int)
    ensures
        total(s, |x: A| c) == c * s.len(),
    decreases s.len(),
{
    if s.len() > 0 {
        lemma_total_constant(s.drop_last(), c);
        assert(c * (s.len() - 1) + c == c * s.len()) by (nonlinear_arith);
    } else {
        assert(c * s.len() == 0) by (nonlinear_arith)
            requires
                s.len() == 0,
        ;
    }
}

/// Within one sample the ranks come out the same whatever its values are.
proof fn lemma_own_wins(a: Seq<u128>)
    ensures
        doubled_wins(a, a) == a.len() * a.len(),
    decreases a.len(),
{
    if a.len() == 0 {
        assert(a.len() * a.len() == 0) by (nonlinear_arith)
            requires
                a.len() == 0,
        ;
    } else {
        let p = a.drop_last();
        let y = a.last();
        lemma_own_wins(p);
        let ours = |x: u128| below(a, x) + at_most(a, x);
        let before = |x: u128| below(p, x) + at_most(p, x);
        let over = |x: u128| (if y < x { 1int } else { 0 }) + (if y <= x { 1int } else { 0 });
        let under = |x: u128| (if x < y { 1int } else { 0 }) + (if x <= y { 1int } else { 0 });
        let both = |x: u128| over(x) + under(x);
        assert forall|i: int| 0 <= i < p.len() implies ours(#[trigger] p[i]) == (|x: u128|
            before(x) + over(x))(p[i]) by {
            assert(below(a, p[i]) == below(p, p[i]) + (if y < p[i] { 1int } else { 0 }));
            assert(at_most(a, p[i]) == at_most(p, p[i]) + (if y <= p[i] { 1int } else { 0 }));
        }
        lemma_total_same(p, ours, |x: u128| before(x) + over(x));
        lemma_total_add(p, before, over);
        assert(below(a, y) == below(p, y));
        assert(at_most(a, y) == at_most(p, y) + 1);
        lemma_total_add(p, |x: u128| if x < y { 1int } else { 0 }, |x: u128| if x <= y { 1int } else { 0 });
        lemma_total_same(
            p,
            under,
            |x: u128| (|x: u128| if x < y { 1int } else { 0 })(x) + (|x: u128| if x <= y { 1int } else { 0 })(x),
        );
        assert(below(p, y) + at_most(p, y) == total(p, under));
        lemma_total_add(p, over, under);
        lemma_total_same(p, both, |x: u128| 2int);
        lemma_total_constant(p, 2);
        assert(total(p, both) == 2 * p.len());
        assert(doubled_wins(a, a) == total(p, ours) + ours(y));
        let n = a.len() as int;
        assert((n - 1) * (n - 1) + 2 * (n - 1) + 1 == n * n) by (nonlinear_arith);
    }
}

/// The rank sum of a sample exceeds its smallest possible value by the number of
/// pairs that it wins: with `n` values, by twice the sum minus `n * (n + 1)`.
pub proof fn law_rank_sum_counts_wins(a: Seq<u128>, b: Seq<u128>)
    ensures
        doubled_rank_sum(a, b) == doubled_wins(a, b) + a.len() * (a.len() + 1),
        0 <= doubled_wins(a, b) <= 2 * a.len() * b.len(),
{
    let own = |x: u128| below(a, x) + at_most(a, x);
    let other = |x: u128| below(b, x) + at_most(b, x);
    let more = |x: u128| other(x) + 1int;
    let rank = |x: u128| doubled_rank(a + b, x);
    assert forall|i: int| 0 <= i < a.len() implies rank(#[trigger] a[i]) == (|x: u128|
        own(x) + more(x))(a[i]) by {
        lemma_total_concat(a, b, |x: u128| if x < a[i] { 1int } else { 0 });
        lemma_total_concat(a, b, |x: u128| if x <= a[i] { 1int } else { 0 });
    }
    lemma_total_same(a, rank, |x: u128| own(x) + more(x));
    lemma_total_add(a, own, more);
    lemma_total_add(a, other, |x: u128| 1int);
    lemma_total_same(a, more, |x: u128| other(x) + (|x: u128| 1int)(x));
    lemma_total_constant(a, 1);
    lemma_own_wins(a);
    assert(a.len() * a.len() + a.len() == a.len() * (a.len() + 1)) by (nonlinear_arith);
    lemma_wins_bounds(a, b);
}

proof fn lemma_counts_bounds(s: Seq<u128>, v: u128)
    ensures
        0 <= below(s, v) <= at_most(s, v) <= s.len(),
    decreases s.len(),
{
    if s.len() > 0 {
        lemma_counts_bounds(s.drop_last(), v);
    }
}

proof fn lemma_wins_bounds(a: Seq<u128>, b: Seq<u128>)
    ensures
        0 <= doubled_wins(a, b) <= 2 * a.len() * b.len(),
    decreases a.len(),
{
    if a.len() == 0 {
        assert(2 * a.len() * b.len() == 0) by (nonlinear_arith)
            requires
                a.len() == 0,
        ;
    } else {
        lemma_wins_bounds(a.drop_last(), b);
        lemma_counts_bounds(b, a.last());
        assert(2 * (a.len() - 1) * b.len() + 2 * b.len() == 2 * a.len() * b.len())
            by (nonlinear_arith);
    }
}

/// A value with the sample it belongs to: 0 for the first, 1 for the second.
pub type Entry = (u128, u8);

/// The values of both samples, each with its sample.
pub open spec fn entries(a: Seq<u128>, b: Seq<u128>) -> Seq<Entry> {
    a.map_values(|x: u128| (x, 0u8)) + b.map_values(|x: u128| (x, 1u8))
}

/// The order of pairs: by the first component, then by the second.
pub open spec fn entry_le(x: Entry, y: Entry) -> bool {
    x.0 < y.0 || (x.0 == y.0 && x.1 <= y.1)
}

/// `slice::sort` on pairs of integers: the same entries in ascending order.
#[verifier::external_body]
fn sort_entries(v: &mut Vec<Entry>)
    ensures
        final(v)@.to_multiset() == old(v)@.to_multiset(),
        forall|i: int, j: int|
            0 <= i <= j < final(v)@.len() ==> entry_le(final(v)@[i], final(v)@[j]),
{
    v.sort()
}

/// How many entries lie below `v`.
pub open spec fn entries_below(s: Seq<Entry>, v: u128) -> int {
    total(s, |e: Entry| if e.0 < v { 1int } else { 0 })
}

/// How many entries are at most `v`.
pub open spec fn entries_at_most(s: Seq<Entry>, v: u128) -> int {
    total(s, |e: Entry| if e.0 <= v { 1int } else { 0 })
}

/// What an entry contributes to the rank sum of the first sample.
pub open spec fn share(a: Seq<u128>, b: Seq<u128>, e: Entry) -> int {
    if e.1 == 0 {
        doubled_rank(a + b, e.0)
    } else {
        0
    }
}

proof fn lemma_entries_counts(a: Seq<u128>, b: Seq<u128>, s: Seq<Entry>, v: u128)
    requires
        s.to_multiset() == entries(a, b).to_multiset(),
    ensures
        entries_below(s, v) == below(a + b, v),
        entries_at_most(s, v) == at_most(a + b, v),
{
    let ma = |x: u128| (x, 0u8);
    let mb = |x: u128| (x, 1u8);
    let lt = |e: Entry| if e.0 < v { 1int } else { 0 };
    let le = |e: Entry| if e.0 <= v { 1int } else { 0 };
    let plain_lt = |x: u128| if x < v { 1int } else { 0 };
    let plain_le = |x: u128| if x <= v { 1int } else { 0 };
    lemma_total_permutation(s, entries(a, b), lt);
    lemma_total_permutation(s, entries(a, b), le);
    lemma_total_concat(a.map_values(ma), b.map_values(mb), lt);
    lemma_total_concat(a.map_values(ma), b.map_values(mb), le);
    lemma_total_map(a, ma, lt);
    lemma_total_map(b, mb, lt);
    lemma_total_map(a, ma, le);
    lemma_total_map(b, mb, le);
    lemma_total_same(a, |x: u128| lt(ma(x)), plain_lt);
    lemma_total_same(b, |x: u128| lt(mb(x)), plain_lt);
    lemma_total_same(a, |x: u128| le(ma(x)), plain_le);
    lemma_total_same(b, |x: u128| le(mb(x)), plain_le);
    lemma_total_concat(a, b, plain_lt);
    lemma_total_concat(a, b, plain_le);
}

proof fn lemma_shares(a: Seq<u128>, b: Seq<u128>, s: Seq<Entry>)
    requires
        s.to_multiset() == entries(a, b).to_multiset(),
    ensures
        total(s, |e: Entry| share(a, b, e)) == doubled_rank_sum(a, b),
{
    let ma = |x: u128| (x, 0u8);
    let mb = |x: u128| (x, 1u8);
    let g = |e: Entry| share(a, b, e);
    lemma_total_permutation(s, entries(a, b), g);
    lemma_total_concat(a.map_values(ma), b.map_values(mb), g);
    lemma_total_map(a, ma, g);
    lemma_total_map(b, mb, g);
    lemma_total_same(a, |x: u128| g(ma(x)), |x: u128| doubled_rank(a + b, x));
    lemma_total_same(b, |x: u128| g(mb(x)), |x: u128| 0int);
    lemma_total_constant(b, 0);
}

/// In ascending order, a value that starts at place `i` and ends before place
/// `k` has `i` entries below it and `k` at most it.
proof fn lemma_run_counts(s: Seq<Entry>, v: u128, i: int, k: int, n: int)
    requires
        0 <= i <= k <= n,
        n <= s.len(),
        forall|p: int| 0 <= p < i ==> (#[trigger] s[p]).0 < v,
        forall|p: int| i <= p < k ==> (#[trigger] s[p]).0 == v,
        forall|p: int| k <= p < n ==> (#[trigger] s[p]).0 > v,
    ensures
        entries_below(s.take(n), v) == i,
        entries_at_most(s.take(n), v) == k,
    decreases n,
{
    if n > 0 {
        assert(s.take(n).drop_last() =~= s.take(n - 1));
        assert(s.take(n).last() == s[n - 1]);
        let i1 = if i < n { i } else { n - 1 };
        let k1 = if k < n { k } else { n - 1 };
        lemma_run_counts(s, v, i1, k1, n - 1);
    }
}

/// Twice the sum of the ranks of `a` among both samples.
pub fn rank_sum(a: &[u128], b: &[u128]) -> (r: u128)
    requires
        a@.len() + b@.len() <= usize::MAX,
    ensures
        r as int == doubled_rank_sum(a@, b@),
{
    let n_a: usize = a.len();
    let n_b: usize = b.len();
    let ghost ma = |x: u128| (x, 0u8);
    let ghost mb = |x: u128| (x, 1u8);
    let mut combined: Vec<Entry> = Vec::new();
    let mut p: usize = 0;
    while p < n_a
        invariant
            p <= n_a,
            n_a == a@.len(),
            combined@ == a@.take(p as int).map_values(ma),
            ma == (|x: u128| (x, 0u8)),
        decreases n_a - p,
    {
        combined.push((a[p], 0));
        p += 1;
        assert(combined@ =~= a@.take(p as int).map_values(ma));
    }
    assert(a@.take(n_a as int) =~= a@);
    let mut q: usize = 0;
    assert(combined@ =~= a@.map_values(ma) + b@.take(0).map_values(mb));
    while q < n_b
        invariant
            q <= n_b,
            n_b == b@.len(),
            combined@ == a@.map_values(ma) + b@.take(q as int).map_values(mb),
            mb == (|x: u128| (x, 1u8)),
        decreases n_b - q,
    {
        combined.push((b[q], 1));
        q += 1;
        assert(combined@ =~= a@.map_values(ma) + b@.take(q as int).map_values(mb));
    }
    assert(b@.take(n_b as int) =~= b@);
    assert(combined@ =~= entries(a@, b@));
    let n: usize = combined.len();
    assert(n == n_a + n_b);
    sort_entries(&mut combined);
    let ghost s = combined@;
    let ghost g = |e: Entry| share(a@, b@, e);
    proof {
        s.to_multiset_ensures();
        entries(a@, b@).to_multiset_ensures();
        assert(s.len() == entries(a@, b@).len());
        assert forall|x: int, y: int| 0 <= x <= y < s.len() implies s[x].0 <= s[y].0 by {
            assert(entry_le(s[x], s[y]));
        }
    }
    let mut acc: u128 = 0;
    let mut i: usize = 0;
    while i < n
        invariant
            i <= n,
            n == s.len(),
            s == combined@,
            s.to_multiset() == entries(a@, b@).to_multiset(),
            forall|x: int, y: int| 0 <= x <= y < s.len() ==> s[x].0 <= s[y].0,
            i > 0 && i < n ==> s[i - 1].0 < s[i as int].0,
            g == (|e: Entry| share(a@, b@, e)),
            acc as int == total(s.take(i as int), g),
            acc <= i * (i + 1),
        decreases n - i,
    {
        let v: u128 = combined[i].0;
        let mut k: usize = i + 1;
        while k < n && combined[k].0 == v
            invariant
                i < k <= n,
                n == s.len(),
                s == combined@,
                v == s[i as int].0,
                forall|x: int, y: int| 0 <= x <= y < s.len() ==> s[x].0 <= s[y].0,
                forall|x: int| i <= x < k ==> (#[trigger] s[x]).0 == v,
            decreases n - k,
        {
            k += 1;
        }
        proof {
            assert(forall|x: int| 0 <= x < i ==> (#[trigger] s[x]).0 < v) by {
                assert forall|x: int| 0 <= x < i implies (#[trigger] s[x]).0 < v by {
                    assert(s[x].0 <= s[i - 1].0);
                }
            }
            assert forall|x: int| k <= x < n implies (#[trigger] s[x]).0 > v by {
                assert(s[k as int].0 <= s[x].0);
                assert(s[k as int].0 != v);
                assert(s[i as int].0 <= s[k as int].0);
            }
            lemma_run_counts(s, v, i as int, k as int, n as int);
            assert(s.take(n as int) =~= s);
            lemma_entries_counts(a@, b@, s, v);
            assert(doubled_rank(a@ + b@, v) == i + k + 1);
        }
        let rank: u128 = i as u128 + k as u128 + 1;
        let ghost base = acc;
        let mut m: usize = i;
        while m < k
            invariant
                i <= m <= k,
                k <= n,
                n == s.len(),
                s == combined@,
                rank == i + k + 1,
                doubled_rank(a@ + b@, v) == i + k + 1,
                forall|x: int| i <= x < k ==> (#[trigger] s[x]).0 == v,
                g == (|e: Entry| share(a@, b@, e)),
                acc as int == total(s.take(m as int), g),
                base <= i * (i + 1),
                acc <= base + (m - i) * (i + k + 1),
            decreases k - m,
        {
            proof {
                assert(s.take(m + 1).drop_last() =~= s.take(m as int));
                assert(s.take(m + 1).last() == s[m as int]);
                assert((m - i) * (i + k + 1) + (i + k + 1) == (m + 1 - i) * (i + k + 1))
                    by (nonlinear_arith);
                assert(i * (i + 1) + (m + 1 - i) * (i + k + 1) <= k * (k + 1)) by (nonlinear_arith)
                    requires
                        0 <= i <= m < k,
                ;
                assert(k * (k + 1) <= u128::MAX) by (nonlinear_arith)
                    requires
                        0 <= k <= 0xffff_ffff_ffff_ffff,
                ;
            }
            if combined[m].1 == 0 {
                acc = acc + rank;
            } else {
                assert(share(a@, b@, s[m as int]) == 0);
                assert(0 <= i + k + 1);
            }
            m += 1;
        }
        proof {
            assert(i * (i + 1) + (k - i) * (i + k + 1) == k * (k + 1)) by (nonlinear_arith);
        }
        i = k;
    }
    proof {
        assert(s.take(n as int) =~= s);
        lemma_shares(a@, b@, s);
    }
    acc
}

/// Twice the Mann-Whitney statistic of two samples: twice the number of pairs in
/// which the value of `a` is the larger, where equal values count half.
pub fn mann_whitney_wins(a: &[u128], b: &[u128]) -> (r: u128)
    requires
        a@.len() + b@.len() <= usize::MAX,
    ensures
        r as int == doubled_wins(a@, b@),
{
    let sum: u128 = rank_sum(a, b);
    let n: u128 = a.len() as u128;
    proof {
        law_rank_sum_counts_wins(a@, b@);
        assert(0 <= n * (n + 1) <= u128::MAX) by (nonlinear_arith)
            requires
                0 <= n <= 0xffff_ffff_ffff_ffff,
        ;
    }
    sum - n * (n + 1)
}

} // verus!
