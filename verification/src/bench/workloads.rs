//! The kernels that are measured, on the bytes they are given.
use vstd::prelude::*;
use super::cells::{get_u32, lemma_with_u32, put_u32, u32_at, with_u32};
use super::pattern::{next_state, seeded, state_after};

verus! {

/// A sum as a 64-bit accumulator holds it.
pub open spec fn wrapped(n: nat) -> u64 {
    (n % 0x1_0000_0000_0000_0000) as u64
}

fn accumulate(acc: u64, v: u32, Ghost(sum): Ghost<nat>) -> (r: u64)
    requires
        acc == wrapped(sum),
    ensures
        r == wrapped(sum + v as nat),
{
    acc.wrapping_add(v as u64)
}

/// The sum of the first `n` bytes.
pub open spec fn byte_sum(buf: Seq<u8>, n: int) -> nat
    decreases n,
{
    if n <= 0 {
        0
    } else {
        byte_sum(buf, n - 1) + buf[n - 1] as nat
    }
}

/// Sums every byte.
pub fn sum_sequential(buf: &[u8]) -> (r: u64)
    ensures
        r == wrapped(byte_sum(buf@, buf@.len() as int)),
{
    let n: usize = buf.len();
    let mut acc: u64 = 0;
    let mut i: usize = 0;
    while i < n
        invariant
            i <= n,
            n == buf@.len(),
            acc == wrapped(byte_sum(buf@, i as int)),
        decreases n - i,
    {
        acc = accumulate(acc, buf[i] as u32, Ghost(byte_sum(buf@, i as int)));
        i += 1;
    }
    acc
}

/// The cell that a chase stands at after `n` steps from the first one.
pub open spec fn chase_at(buf: Seq<u8>, cells: u32, n: nat) -> int
    decreases n,
{
    if n == 0 {
        0
    } else {
        chase_value(buf, cells, (n - 1) as nat) as int % cells as int
    }
}

/// What the cell holds that a chase reads in its step behind the first `n`.
pub open spec fn chase_value(buf: Seq<u8>, cells: u32, n: nat) -> u32
    decreases n,
{
    if n == 0 {
        u32_at(buf, 0)
    } else {
        u32_at(buf, 4 * (chase_value(buf, cells, (n - 1) as nat) as int % cells as int))
    }
}

/// The sum of what the first `n` steps of a chase read.
pub open spec fn chase_sum(buf: Seq<u8>, cells: u32, n: nat) -> nat
    decreases n,
{
    if n == 0 {
        0
    } else {
        chase_sum(buf, cells, (n - 1) as nat) + chase_value(buf, cells, (n - 1) as nat) as nat
    }
}

/// Follows the cells of a ring for `steps` steps. Each cell holds the number of
/// the next one.
pub fn random_chase(buf: &[u8], cells: u32, steps: u32) -> (r: u64)
    requires
        steps > 0 ==> cells > 0,
        cells * 4 <= buf@.len(),
    ensures
        r == wrapped(chase_sum(buf@, cells, steps as nat)),
{
    let len: usize = buf.len();
    let mut idx: u32 = 0;
    let mut acc: u64 = 0;
    let mut i: u32 = 0;
    while i < steps
        invariant
            i <= steps,
            steps > 0 ==> cells > 0,
            steps > 0 ==> idx < cells,
            cells * 4 <= len,
            len == buf@.len(),
            idx as int == chase_at(buf@, cells, i as nat),
            acc == wrapped(chase_sum(buf@, cells, i as nat)),
        decreases steps - i,
    {
        let next: u32 = get_u32(buf, idx as usize * 4);
        assert(next == chase_value(buf@, cells, i as nat));
        acc = accumulate(acc, next, Ghost(chase_sum(buf@, cells, i as nat)));
        idx = next % cells;
        i += 1;
    }
    acc
}

/// The mark behind the last node of a list.
pub const LIST_END: u32 = 0xFFFF_FFFF;

/// From `cur` a list comes to its end within `n` nodes.
pub open spec fn ends_within(buf: Seq<u8>, cur: u32, n: nat) -> bool
    decreases n,
{
    cur == LIST_END || (n > 0 && cur + 8 <= buf.len() && ends_within(
        buf,
        u32_at(buf, cur as int),
        (n - 1) as nat,
    ))
}

/// The list that starts at `head` has an end.
pub open spec fn is_list(buf: Seq<u8>, head: u32) -> bool {
    exists|n: nat| ends_within(buf, head, n)
}

/// The sum of the payloads of at most `n` nodes from `cur` on.
pub open spec fn list_sum(buf: Seq<u8>, cur: u32, n: nat) -> nat
    decreases n,
{
    if n == 0 || cur == LIST_END {
        0
    } else {
        u32_at(buf, cur + 4) as nat + list_sum(buf, u32_at(buf, cur as int), (n - 1) as nat)
    }
}

/// The sum of the payloads of a list.
pub open spec fn list_total(buf: Seq<u8>, head: u32) -> nat {
    list_sum(buf, head, choose|n: nat| ends_within(buf, head, n))
}

/// However many nodes are allowed, a list that ends within them has one sum.
pub proof fn lemma_list_sum_unique(buf: Seq<u8>, cur: u32, n: nat, m: nat)
    requires
        ends_within(buf, cur, n),
        ends_within(buf, cur, m),
    ensures
        list_sum(buf, cur, n) == list_sum(buf, cur, m),
    decreases n,
{
    if cur != LIST_END {
        lemma_list_sum_unique(buf, u32_at(buf, cur as int), (n - 1) as nat, (m - 1) as nat);
    }
}

/// Walks a list of nodes of a next offset and a payload, and sums the payloads.
pub fn list_walk(buf: &[u8], head: u32) -> (r: u64)
    requires
        is_list(buf@, head),
    ensures
        r == wrapped(list_total(buf@, head)),
{
    let ghost bound = choose|n: nat| ends_within(buf@, head, n);
    let ghost mut left = bound;
    let ghost mut walked: nat = 0;
    let len: usize = buf.len();
    let mut acc: u64 = 0;
    let mut cur: u32 = head;
    while cur != LIST_END
        invariant
            len == buf@.len(),
            ends_within(buf@, cur, left),
            walked + list_sum(buf@, cur, left) == list_sum(buf@, head, bound),
            acc == wrapped(walked),
        decreases left,
    {
        let next: u32 = get_u32(buf, cur as usize);
        let payload: u32 = get_u32(buf, cur as usize + 4);
        acc = accumulate(acc, payload, Ghost(walked));
        proof {
            walked = walked + payload as nat;
            left = (left - 1) as nat;
        }
        cur = next;
    }
    acc
}

/// Walks a list of at most `nodes` nodes, and sums the payloads; of a list that
/// does not end within them, or that leaves the bytes, nothing is returned.
pub fn list_walk_within(buf: &[u8], head: u32, nodes: u32) -> (r: Option<u64>)
    ensures
        r == (if ends_within(buf@, head, nodes as nat) {
            Some(wrapped(list_sum(buf@, head, nodes as nat)))
        } else {
            None
        }),
{
    let len: usize = buf.len();
    let ghost mut walked: nat = 0;
    let mut left: u32 = nodes;
    let mut acc: u64 = 0;
    let mut cur: u32 = head;
    while cur != LIST_END
        invariant
            len == buf@.len(),
            left <= nodes,
            ends_within(buf@, cur, left as nat) == ends_within(buf@, head, nodes as nat),
            walked + list_sum(buf@, cur, left as nat) == list_sum(buf@, head, nodes as nat),
            acc == wrapped(walked),
        decreases left,
    {
        if left == 0 || len < 8 || cur as usize > len - 8 {
            return None;
        }
        let next: u32 = get_u32(buf, cur as usize);
        let payload: u32 = get_u32(buf, cur as usize + 4);
        acc = accumulate(acc, payload, Ghost(walked));
        proof {
            walked = walked + payload as nat;
        }
        left -= 1;
        cur = next;
    }
    Some(acc)
}

/// The bytes after the first byte of each of `n` blocks has been touched.
pub open spec fn touched(buf: Seq<u8>, size: u32, n: nat) -> Seq<u8>
    decreases n,
{
    if n == 0 {
        buf
    } else {
        touched(buf, size, (n - 1) as nat).update((n - 1) * size, ((n - 1) % 0x100) as u8)
    }
}

/// The sum of the marks that touching `n` blocks leaves.
pub open spec fn mark_sum(n: nat) -> nat
    decreases n,
{
    if n == 0 {
        0
    } else {
        mark_sum((n - 1) as nat) + ((n - 1) % 0x100) as nat
    }
}

/// Takes `count` blocks of `size` bytes one behind the other and touches the
/// first byte of each.
pub fn bump_alloc_touch(buf: &mut [u8], count: u32, size: u32) -> (r: u64)
    requires
        count > 0 ==> (count - 1) * size < old(buf)@.len(),
    ensures
        final(buf)@ == touched(old(buf)@, size, count as nat),
        r == wrapped(mark_sum(count as nat)),
{
    let mut acc: u64 = 0;
    let mut i: u32 = 0;
    let n: usize = buf.len();
    while i < count
        invariant
            i <= count,
            n == buf@.len(),
            count > 0 ==> (count - 1) * size < n,
            buf@ == touched(old(buf)@, size, i as nat),
            acc == wrapped(mark_sum(i as nat)),
        decreases count - i,
    {
        assert(0 <= i * size <= (count - 1) * size) by (nonlinear_arith)
            requires
                0 <= i <= count - 1,
                0 <= size,
        ;
        let off: usize = i as usize * size as usize;
        let mark: u8 = (i % 0x100) as u8;
        buf[off] = mark;
        acc = accumulate(acc, buf[off] as u32, Ghost(mark_sum(i as nat)));
        i += 1;
    }
    acc
}

/// The sum of the first bytes of `n` blocks.
pub open spec fn first_byte_sum(buf: Seq<u8>, size: u32, n: nat) -> nat
    decreases n,
{
    if n == 0 {
        0
    } else {
        first_byte_sum(buf, size, (n - 1) as nat) + buf[(n - 1) * size] as nat
    }
}

/// Sums the first bytes of `count` blocks of `size` bytes.
pub fn sum_first_bytes(buf: &[u8], count: u32, size: u32) -> (r: u64)
    requires
        count > 0 ==> (count - 1) * size < buf@.len(),
    ensures
        r == wrapped(first_byte_sum(buf@, size, count as nat)),
{
    let mut acc: u64 = 0;
    let mut i: u32 = 0;
    let n: usize = buf.len();
    while i < count
        invariant
            i <= count,
            n == buf@.len(),
            count > 0 ==> (count - 1) * size < n,
            acc == wrapped(first_byte_sum(buf@, size, i as nat)),
        decreases count - i,
    {
        assert(0 <= i * size <= (count - 1) * size) by (nonlinear_arith)
            requires
                0 <= i <= count - 1,
                0 <= size,
        ;
        let off: usize = i as usize * size as usize;
        acc = accumulate(acc, buf[off] as u32, Ghost(first_byte_sum(buf@, size, i as nat)));
        i += 1;
    }
    acc
}

/// Which bytes a mixed access reads: the part and the place in it.
pub open spec fn mix_part(state: u32, hot: u32, warm: u32, cold: u32) -> (int, u32) {
    if state % 100 < 90 {
        (0, hot)
    } else if state % 100 < 99 {
        (hot as int, warm)
    } else {
        (hot + warm, cold)
    }
}

/// Where a mixed access reads.
pub open spec fn mix_place(state: u32, hot: u32, warm: u32, cold: u32) -> int {
    let (start, size) = mix_part(state, hot, warm, cold);
    start + state as int % size as int
}

/// The sum of the bytes that `n` mixed accesses read.
pub open spec fn mix_sum(
    buf: Seq<u8>,
    hot: u32,
    warm: u32,
    cold: u32,
    start: u32,
    n: nat,
) -> nat
    decreases n,
{
    if n == 0 {
        0
    } else {
        mix_sum(buf, hot, warm, cold, start, (n - 1) as nat) + buf[mix_place(
            state_after(start, n),
            hot,
            warm,
            cold,
        )] as nat
    }
}

/// Reads nine times in ten from the hot part, mostly else from the warm part,
/// and one time in a hundred from the cold part. The parts lie one behind the
/// other.
pub fn multi_region_mix(
    buf: &[u8],
    hot_size: u32,
    warm_size: u32,
    cold_size: u32,
    iters: u32,
    seed: u32,
) -> (r: u64)
    requires
        hot_size + warm_size + cold_size <= buf@.len(),
        forall|i: nat|
            1 <= i <= iters ==> mix_part(
                #[trigger] state_after(seeded(seed, 1), i),
                hot_size,
                warm_size,
                cold_size,
            ).1 > 0,
    ensures
        r == wrapped(
            mix_sum(buf@, hot_size, warm_size, cold_size, seeded(seed, 1), iters as nat),
        ),
{
    let len: usize = buf.len();
    let mut state: u32 = seed.wrapping_add(1);
    let ghost start = state;
    let mut acc: u64 = 0;
    let mut i: u32 = 0;
    while i < iters
        invariant
            i <= iters,
            start == seeded(seed, 1),
            state == state_after(start, i as nat),
            hot_size + warm_size + cold_size <= len,
            len == buf@.len(),
            forall|i: nat|
                1 <= i <= iters ==> mix_part(
                    #[trigger] state_after(seeded(seed, 1), i),
                    hot_size,
                    warm_size,
                    cold_size,
                ).1 > 0,
            acc == wrapped(mix_sum(buf@, hot_size, warm_size, cold_size, start, i as nat)),
        decreases iters - i,
    {
        state = next_state(state);
        assert(state == state_after(start, (i + 1) as nat));
        let bucket: u32 = state % 100;
        let off: usize = if bucket < 90 {
            (state % hot_size) as usize
        } else if bucket < 99 {
            hot_size as usize + (state % warm_size) as usize
        } else {
            hot_size as usize + warm_size as usize + (state % cold_size) as usize
        };
        assert(off as int == mix_place(state, hot_size, warm_size, cold_size));
        acc = accumulate(
            acc,
            buf[off] as u32,
            Ghost(mix_sum(buf@, hot_size, warm_size, cold_size, start, i as nat)),
        );
        i += 1;
    }
    acc
}

/// The sum of the values of the first `n` rows whose key is below the threshold.
pub open spec fn filter_sum(keys: Seq<u8>, values: Seq<u8>, threshold: u32, n: nat) -> nat
    decreases n,
{
    if n == 0 {
        0
    } else {
        let before = filter_sum(keys, values, threshold, (n - 1) as nat);
        if u32_at(keys, 4 * (n - 1)) < threshold {
            before + u32_at(values, 4 * (n - 1)) as nat
        } else {
            before
        }
    }
}

/// Sums the values whose key is below the threshold, from a column of keys and a
/// column of values.
pub fn column_filter_sum(keys: &[u8], values: &[u8], n: u32, threshold: u32) -> (r: u64)
    requires
        n * 4 <= keys@.len(),
        n * 4 <= values@.len(),
    ensures
        r == wrapped(filter_sum(keys@, values@, threshold, n as nat)),
{
    let len: usize = keys.len();
    let mut acc: u64 = 0;
    let mut i: u32 = 0;
    while i < n
        invariant
            i <= n,
            n * 4 <= len,
            len == keys@.len(),
            n * 4 <= values@.len(),
            acc == wrapped(filter_sum(keys@, values@, threshold, i as nat)),
        decreases n - i,
    {
        let off: usize = i as usize * 4;
        let k: u32 = get_u32(keys, off);
        if k < threshold {
            let v: u32 = get_u32(values, off);
            acc = accumulate(acc, v, Ghost(filter_sum(keys@, values@, threshold, i as nat)));
        }
        i += 1;
    }
    acc
}

/// Sums the values whose key is below the threshold, where the column of values
/// lies behind the column of keys.
pub fn columnar_filter_sum(buf: &[u8], n: u32, threshold: u32) -> (r: u64)
    requires
        n * 8 <= buf@.len(),
    ensures
        r == wrapped(filter_sum(buf@, buf@.skip(n * 4), threshold, n as nat)),
{
    let len: usize = buf.len();
    let values = vstd::slice::slice_subrange(buf, n as usize * 4, len);
    assert(values@ =~= buf@.skip(n * 4));
    column_filter_sum(buf, values, n, threshold)
}

/// Where a probe reads.
pub open spec fn probe_place(state: u32, block_size: u32, n_blocks: u32) -> int {
    (state as int % n_blocks as int) * block_size as int + state as int % block_size as int
}

/// The sum of the bytes that `n` probes read.
pub open spec fn probe_sum(
    buf: Seq<u8>,
    block_size: u32,
    n_blocks: u32,
    start: u32,
    n: nat,
) -> nat
    decreases n,
{
    if n == 0 {
        0
    } else {
        probe_sum(buf, block_size, n_blocks, start, (n - 1) as nat) + buf[probe_place(
            state_after(start, n),
            block_size,
            n_blocks,
        )] as nat
    }
}

proof fn lemma_probe_place(state: u32, block_size: u32, n_blocks: u32)
    requires
        block_size > 0,
        n_blocks > 0,
    ensures
        0 <= probe_place(state, block_size, n_blocks) < n_blocks * block_size,
        0 <= (state % n_blocks) * block_size <= probe_place(state, block_size, n_blocks),
{
    let b = state as int % n_blocks as int;
    assert(0 <= b <= n_blocks - 1);
    assert(0 <= b * block_size <= (n_blocks - 1) * block_size) by (nonlinear_arith)
        requires
            0 <= b <= n_blocks - 1,
            0 <= block_size,
    ;
    assert((n_blocks - 1) * block_size == n_blocks * block_size - block_size) by (nonlinear_arith);
    assert(0 <= state as int % block_size as int <= block_size - 1);
}

/// Reads bytes scattered over `n_blocks` blocks that lie one behind the other.
pub fn large_ws_probe(buf: &[u8], block_size: u32, n_blocks: u32, iters: u32, seed: u32) -> (r: u64)
    requires
        iters > 0 ==> block_size > 0 && n_blocks > 0,
        n_blocks * block_size <= buf@.len(),
    ensures
        r == wrapped(probe_sum(buf@, block_size, n_blocks, seeded(seed, 1), iters as nat)),
{
    let mut state: u32 = seed.wrapping_add(1);
    let ghost start = state;
    let n: usize = buf.len();
    let mut acc: u64 = 0;
    let mut i: u32 = 0;
    while i < iters
        invariant
            i <= iters,
            start == seeded(seed, 1),
            state == state_after(start, i as nat),
            iters > 0 ==> block_size > 0 && n_blocks > 0,
            n_blocks * block_size <= n,
            n == buf@.len(),
            acc == wrapped(probe_sum(buf@, block_size, n_blocks, start, i as nat)),
        decreases iters - i,
    {
        state = next_state(state);
        assert(state == state_after(start, (i + 1) as nat));
        let block: u32 = state % n_blocks;
        proof {
            lemma_probe_place(state, block_size, n_blocks);
        }
        let off: usize = block as usize * block_size as usize + (state % block_size) as usize;
        assert(off as int == probe_place(state, block_size, n_blocks));
        acc = accumulate(
            acc,
            buf[off] as u32,
            Ghost(probe_sum(buf@, block_size, n_blocks, start, i as nat)),
        );
        i += 1;
    }
    acc
}

/// The bytes after `n` objects of 32 bytes have got their number as a header.
pub open spec fn with_headers(buf: Seq<u8>, n: nat) -> Seq<u8>
    decreases n,
{
    if n == 0 {
        buf
    } else {
        with_u32(with_headers(buf, (n - 1) as nat), 32 * (n - 1), (n - 1) as u32)
    }
}

/// A header that was put is read back, and bytes apart from the headers stay.
pub proof fn lemma_with_headers(buf: Seq<u8>, n: nat)
    requires
        n <= 0x1_0000_0000,
        n > 0 ==> 32 * (n - 1) + 4 <= buf.len(),
    ensures
        with_headers(buf, n).len() == buf.len(),
        forall|k: int|
            0 <= k < n ==> #[trigger] u32_at(with_headers(buf, n), 32 * k) == k as u32,
        forall|at: int|
            0 <= at < buf.len() && (at >= 32 * n || at % 32 >= 4) ==> #[trigger] with_headers(
                buf,
                n,
            )[at] == buf[at],
    decreases n,
{
    if n > 0 {
        lemma_with_headers(buf, (n - 1) as nat);
        lemma_with_u32(with_headers(buf, (n - 1) as nat), 32 * (n - 1), (n - 1) as u32);
    }
}

/// Gives `n` objects of 32 bytes their number as a header.
pub fn put_headers(buf: &mut [u8], n: u32)
    requires
        n > 0 ==> 32 * (n - 1) + 4 <= old(buf)@.len(),
    ensures
        final(buf)@ == with_headers(old(buf)@, n as nat),
{
    let len: usize = buf.len();
    let mut i: u32 = 0;
    while i < n
        invariant
            i <= n,
            len == buf@.len(),
            n > 0 ==> 32 * (n - 1) + 4 <= len,
            buf@ == with_headers(old(buf)@, i as nat),
        decreases n - i,
    {
        put_u32(buf, i as usize * 32, i);
        i += 1;
    }
}

/// The sum of the headers of the first `n` objects.
pub open spec fn header_sum(buf: Seq<u8>, n: nat) -> nat
    decreases n,
{
    if n == 0 {
        0
    } else {
        header_sum(buf, (n - 1) as nat) + u32_at(buf, 32 * (n - 1)) as nat
    }
}

/// Sums the headers of `n` objects of 32 bytes.
pub fn scan_headers(buf: &[u8], n: u32) -> (r: u64)
    requires
        n > 0 ==> 32 * (n - 1) + 4 <= buf@.len(),
    ensures
        r == wrapped(header_sum(buf@, n as nat)),
{
    let len: usize = buf.len();
    let mut acc: u64 = 0;
    let mut j: u32 = 0;
    while j < n
        invariant
            j <= n,
            len == buf@.len(),
            n > 0 ==> 32 * (n - 1) + 4 <= len,
            acc == wrapped(header_sum(buf@, j as nat)),
        decreases n - j,
    {
        let v: u32 = get_u32(buf, j as usize * 32);
        acc = accumulate(acc, v, Ghost(header_sum(buf@, j as nat)));
        j += 1;
    }
    acc
}

proof fn lemma_header_sum(buf: Seq<u8>, n: nat, k: nat)
    requires
        k <= n <= 0x1_0000_0000,
        n > 0 ==> 32 * (n - 1) + 4 <= buf.len(),
    ensures
        2 * header_sum(with_headers(buf, n), k) == k * (k - 1),
    decreases k,
{
    if k > 0 {
        lemma_with_headers(buf, n);
        lemma_header_sum(buf, n, (k - 1) as nat);
        assert(u32_at(with_headers(buf, n), 32 * (k - 1)) == (k - 1) as u32);
        assert((k - 1) * ((k - 1) - 1) + 2 * (k - 1) == k * (k - 1)) by (nonlinear_arith);
    } else {
        assert(k * (k - 1) == 0) by (nonlinear_arith)
            requires
                k == 0,
        ;
    }
}

/// Gives `n` objects of 32 bytes their number as a header and sums the headers.
pub fn gen_alloc_scan(buf: &mut [u8], n: u32) -> (r: u64)
    requires
        n > 0 ==> 32 * (n - 1) + 4 <= old(buf)@.len(),
    ensures
        final(buf)@ == with_headers(old(buf)@, n as nat),
        2 * r == n * (n - 1),
{
    put_headers(buf, n);
    proof {
        lemma_with_headers(old(buf)@, n as nat);
        lemma_header_sum(old(buf)@, n as nat, n as nat);
        assert(n * (n - 1) < 0x1_0000_0000 * 0x1_0000_0000) by (nonlinear_arith)
            requires
                0 <= n < 0x1_0000_0000,
        ;
    }
    scan_headers(buf, n)
}

} // verus!
