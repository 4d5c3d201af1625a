//! What the measured kernels read and what they come to, over any bytes.
use vstd::prelude::*;
use super::cells::{u32_at, with_u32};
use super::pattern::{pattern, state_after, xorshift};
use super::plans::{growth_for, handle_bytes, le_bytes, pages_for};
use super::workloads::{
    byte_sum, chase_at, chase_sum, chase_value, filter_sum, first_byte_sum, header_sum, mark_sum,
    mix_place, mix_sum, probe_place, probe_sum, touched,
};

verus! {

/// The sum of what `g` gives for the first `n` places.
pub open spec fn sum_over(n: nat, g: spec_fn(int) -> int) -> int
    decreases n,
{
    if n == 0 {
        0
    } else {
        sum_over((n - 1) as nat, g) + g(n - 1)
    }
}

/// The number that four bytes hold, the lowest first.
pub open spec fn word_of(b0: u8, b1: u8, b2: u8, b3: u8) -> int {
    b0 + 256 * b1 + 65536 * b2 + 16777216 * b3
}

proof fn lemma_word_parts(v: u32)
    ensures
        word_of(
            (v % 0x100) as u8,
            (v / 0x100 % 0x100) as u8,
            (v / 0x10000 % 0x100) as u8,
            (v / 0x1000000) as u8,
        ) == v,
{
}

/// A cell holds its lowest byte first, and putting a cell changes its four bytes
/// alone.
pub proof fn law_cells_are_little_endian(bytes: Seq<u8>, off: int, v: u32)
    requires
        0 <= off,
        off + 4 <= bytes.len(),
    ensures
        u32_at(bytes, off) == word_of(
            bytes[off],
            bytes[off + 1],
            bytes[off + 2],
            bytes[off + 3],
        ),
        ({
            let put = with_u32(bytes, off, v);
            &&& put.len() == bytes.len()
            &&& word_of(put[off], put[off + 1], put[off + 2], put[off + 3]) == v
            &&& forall|i: int|
                0 <= i < bytes.len() && (i < off || i >= off + 4) ==> #[trigger] put[i] == bytes[i]
        }),
{
    lemma_word_parts(v);
    let put = with_u32(bytes, off, v);
    assert(put[off] == (v % 0x100) as u8);
    assert(put[off + 1] == (v / 0x100 % 0x100) as u8);
    assert(put[off + 2] == (v / 0x10000 % 0x100) as u8);
    assert(put[off + 3] == (v / 0x1000000) as u8);
}

/// The sequential kernel adds up every byte once.
pub proof fn law_sequential_sum(buf: Seq<u8>, n: nat)
    ensures
        byte_sum(buf, n as int) == sum_over(n, |i: int| buf[i] as int),
    decreases n,
{
    if n > 0 {
        law_sequential_sum(buf, (n - 1) as nat);
    }
}

/// A chase starts at the first cell, goes from each cell to the one whose number
/// it holds, and adds up the numbers that it reads.
pub proof fn law_chase_follows_cells(buf: Seq<u8>, cells: u32, n: nat)
    requires
        cells > 0,
        cells * 4 <= buf.len(),
    ensures
        chase_at(buf, cells, 0) == 0,
        0 <= chase_at(buf, cells, n) < cells,
        ({
            let at = chase_at(buf, cells, n);
            let read = word_of(buf[4 * at], buf[4 * at + 1], buf[4 * at + 2], buf[4 * at + 3]);
            &&& chase_value(buf, cells, n) == read
            &&& chase_at(buf, cells, n + 1) == read % (cells as int)
        }),
        chase_sum(buf, cells, n) == sum_over(n, |i: int| chase_value(buf, cells, i as nat) as int),
    decreases n,
{
    if n > 0 {
        law_chase_follows_cells(buf, cells, (n - 1) as nat);
    }
    let at = chase_at(buf, cells, n);
    law_cells_are_little_endian(buf, 4 * at, 0);
}

/// Touching blocks writes the number of each block, as a byte, at its start, and
/// nothing elsewhere. What the kernel replies is the sum of these bytes, and the
/// kernel that reads the starts of the blocks afterwards comes to the same.
pub proof fn law_touched_blocks(buf: Seq<u8>, size: u32, n: nat)
    requires
        size > 0,
        n > 0 ==> (n - 1) * size < buf.len(),
    ensures
        touched(buf, size, n).len() == buf.len(),
        forall|i: int|
            0 <= i < n ==> touched(buf, size, n)[#[trigger] (i * size)] == (i % 256) as u8,
        forall|at: int|
            0 <= at < buf.len() && (forall|i: int| 0 <= i < n ==> #[trigger] (i * size) != at)
                ==> #[trigger] touched(buf, size, n)[at] == buf[at],
        mark_sum(n) == sum_over(n, |i: int| i % 256),
        first_byte_sum(touched(buf, size, n), size, n) == mark_sum(n),
    decreases n,
{
    if n > 0 {
        let m = (n - 1) as nat;
        assert(m * size <= m * size);
        assert(m > 0 ==> (m - 1) * size < buf.len()) by (nonlinear_arith)
            requires
                m * size < buf.len(),
                size > 0,
        ;
        law_touched_blocks(buf, size, m);
        assert(0 <= m * size) by (nonlinear_arith);
        assert forall|i: int| 0 <= i < n implies touched(buf, size, n)[#[trigger] (i * size)] == (i
            % 256) as u8 by {
            if i < m {
                assert(0 <= i * size < m * size) by (nonlinear_arith)
                    requires
                        0 <= i < m,
                        size > 0,
                ;
            }
        }
        assert forall|at: int|
            0 <= at < buf.len() && (forall|i: int| 0 <= i < n ==> #[trigger] (i * size)
                != at) implies #[trigger] touched(buf, size, n)[at] == buf[at] by {
            assert(m * size != at);
            assert(touched(buf, size, m)[at] == buf[at]);
        }
    }
    lemma_first_bytes(touched(buf, size, n), size, n);
}

proof fn lemma_first_bytes(buf: Seq<u8>, size: u32, n: nat)
    requires
        forall|i: int| 0 <= i < n ==> buf[#[trigger] (i * size)] == (i % 256) as u8,
    ensures
        first_byte_sum(buf, size, n) == mark_sum(n),
        mark_sum(n) == sum_over(n, |i: int| i % 256),
    decreases n,
{
    if n > 0 {
        lemma_first_bytes(buf, size, (n - 1) as nat);
        assert(buf[(n - 1) * size] == ((n - 1) % 256) as u8);
    }
}

/// The first-byte kernel adds up the byte at the start of each block.
pub proof fn law_first_bytes_sum(buf: Seq<u8>, size: u32, n: nat)
    ensures
        first_byte_sum(buf, size, n) == sum_over(n, |i: int| buf[i * size] as int),
    decreases n,
{
    if n > 0 {
        law_first_bytes_sum(buf, size, (n - 1) as nat);
    }
}

/// Of a hundred remainders ninety send a mixed access into the hot part, the next
/// nine into the warm part behind it, and the last into the cold part behind both.
/// The place in the part is the remainder by its size. The kernel adds up the bytes
/// that it reads.
pub proof fn law_mixed_access(
    buf: Seq<u8>,
    hot: u32,
    warm: u32,
    cold: u32,
    start: u32,
    n: nat,
    state: u32,
)
    requires
        hot > 0,
        warm > 0,
        cold > 0,
    ensures
        ({
            let at = mix_place(state, hot, warm, cold);
            &&& 0 <= at < hot + warm + cold
            &&& at < hot <==> state % 100 < 90
            &&& at >= hot + warm <==> state % 100 == 99
            &&& at < hot ==> at == state as int % hot as int
            &&& hot <= at < hot + warm ==> at - hot == state as int % warm as int
            &&& at >= hot + warm ==> at - hot - warm == state as int % cold as int
        }),
        mix_sum(buf, hot, warm, cold, start, n) == sum_over(
            n,
            |i: int| buf[mix_place(state_after(start, (i + 1) as nat), hot, warm, cold)] as int,
        ),
    decreases n,
{
    assert(0 <= state as int % hot as int && (state as int % hot as int) < hot);
    assert(0 <= state as int % warm as int && (state as int % warm as int) < warm);
    assert(0 <= state as int % cold as int && (state as int % cold as int) < cold);
    if n > 0 {
        law_mixed_access(buf, hot, warm, cold, start, (n - 1) as nat, state);
    }
}

/// A probe reads in the block whose number is the remainder by the number of
/// blocks, at the remainder by their size. The kernel adds up the bytes that it
/// reads.
pub proof fn law_probes(
    buf: Seq<u8>,
    block_size: u32,
    n_blocks: u32,
    start: u32,
    n: nat,
    state: u32,
)
    requires
        block_size > 0,
        n_blocks > 0,
    ensures
        probe_place(state, block_size, n_blocks) / (block_size as int) == state as int
            % n_blocks as int,
        probe_place(state, block_size, n_blocks) % (block_size as int) == state as int
            % block_size as int,
        probe_sum(buf, block_size, n_blocks, start, n) == sum_over(
            n,
            |i: int|
                buf[probe_place(state_after(start, (i + 1) as nat), block_size, n_blocks)] as int,
        ),
    decreases n,
{
    let q = state as int % n_blocks as int;
    let r = state as int % block_size as int;
    let d = block_size as int;
    assert(0 <= r < d);
    vstd::arithmetic::div_mod::lemma_fundamental_div_mod_converse(q * d + r, d, q, r);
    if n > 0 {
        law_probes(buf, block_size, n_blocks, start, (n - 1) as nat, state);
    }
}

/// The filter adds up the values of exactly those rows whose key is below the
/// threshold.
pub proof fn law_filter_sum(keys: Seq<u8>, values: Seq<u8>, threshold: u32, n: nat)
    ensures
        filter_sum(keys, values, threshold, n) == sum_over(
            n,
            |i: int|
                if word_of(keys[4 * i], keys[4 * i + 1], keys[4 * i + 2], keys[4 * i + 3])
                    < threshold {
                    word_of(values[4 * i], values[4 * i + 1], values[4 * i + 2], values[4 * i + 3])
                } else {
                    0
                },
        ),
    decreases n,
{
    if n > 0 {
        law_filter_sum(keys, values, threshold, (n - 1) as nat);
    }
}

/// The scan adds up the header at the start of each object of 32 bytes.
pub proof fn law_header_sum(buf: Seq<u8>, n: nat)
    ensures
        header_sum(buf, n) == sum_over(
            n,
            |i: int| word_of(buf[32 * i], buf[32 * i + 1], buf[32 * i + 2], buf[32 * i + 3]),
        ),
    decreases n,
{
    if n > 0 {
        law_header_sum(buf, (n - 1) as nat);
    }
}

/// A step of the generator goes bit by bit: the step of an exclusive or is the
/// exclusive or of the steps. No two states have the same next state.
pub proof fn law_generator_step(x: u32, y: u32)
    ensures
        xorshift(x ^ y) == xorshift(x) ^ xorshift(y),
        xorshift(x) == xorshift(y) ==> x == y,
        xorshift(1) == 270369,
        state_after(x, 1) == xorshift(x),
{
    let a = x ^ (x << 13);
    let b = a ^ (a >> 17);
    let c = y ^ (y << 13);
    let d = c ^ (c >> 17);
    let e = (x ^ y) ^ ((x ^ y) << 13);
    assert((x ^ y) ^ ((x ^ y) << 13u32) == (x ^ (x << 13u32)) ^ (y ^ (y << 13u32)))
        by (bit_vector);
    assert((a ^ c) ^ ((a ^ c) >> 17u32) == (a ^ (a >> 17u32)) ^ (c ^ (c >> 17u32)))
        by (bit_vector);
    assert((b ^ d) ^ ((b ^ d) << 5u32) == (b ^ (b << 5u32)) ^ (d ^ (d << 5u32))) by (bit_vector);
    assert(x ^ (x << 13u32) == y ^ (y << 13u32) ==> x == y) by (bit_vector);
    assert(a ^ (a >> 17u32) == c ^ (c >> 17u32) ==> a == c) by (bit_vector);
    assert(b ^ (b << 5u32) == d ^ (d << 5u32) ==> b == d) by (bit_vector);
    assert(1u32 ^ (1u32 << 13u32) == 8193 && 8193u32 ^ (8193u32 >> 17u32) == 8193 && 8193u32 ^ (
    8193u32 << 5u32) == 270369) by (bit_vector);
    reveal_with_fuel(state_after, 2);
}

/// The bytes of a seed are the low bytes of the states that follow it: a longer
/// pattern begins with the shorter one.
pub proof fn law_pattern_is_a_prefix(seed: u32, short: nat, long: nat)
    requires
        short <= long,
        seed < u32::MAX,
    ensures
        pattern(seed, long).take(short as int) == pattern(seed, short),
        long > 0 ==> pattern(seed, long)[0] == xorshift((seed + 1) as u32) as u8,
        long > 1 ==> pattern(seed, long)[1] == xorshift(xorshift((seed + 1) as u32)) as u8,
{
    reveal_with_fuel(state_after, 3);
    assert(pattern(seed, long).take(short as int) =~= pattern(seed, short));
}

proof fn lemma_long_parts(v: u64)
    ensures
        ({
            let b = le_bytes(v);
            word_of(b[0], b[1], b[2], b[3]) + 0x1_0000_0000 * word_of(b[4], b[5], b[6], b[7]) == v
        }),
{
    let low = (v % 0x1_0000_0000) as u32;
    let high = (v / 0x1_0000_0000) as u32;
    lemma_word_parts(low);
    lemma_word_parts(high);
    assert({
        let a: u64 = v % 0x1_0000_0000;
        let b: u64 = v / 0x1_0000_0000;
        &&& v % 0x100 == a % 0x100
        &&& v / 0x100 % 0x100 == a / 0x100 % 0x100
        &&& v / 0x1_0000 % 0x100 == a / 0x1_0000 % 0x100
        &&& v / 0x100_0000 % 0x100 == a / 0x100_0000
        &&& v / 0x100_0000_0000 % 0x100 == b / 0x100 % 0x100
        &&& v / 0x1_0000_0000_0000 % 0x100 == b / 0x1_0000 % 0x100
        &&& v / 0x100_0000_0000_0000 == b / 0x100_0000
    }) by (bit_vector);
}

/// The table of handles holds each packed handle in eight bytes, the lowest first,
/// in their order.
pub proof fn law_handle_table(handles: Seq<u64>, n: nat, i: int)
    requires
        n <= handles.len(),
        0 <= i < n,
    ensures
        handle_bytes(handles, n as int).len() == 8 * n,
        ({
            let b = handle_bytes(handles, n as int).subrange(8 * i, 8 * i + 8);
            word_of(b[0], b[1], b[2], b[3]) + 0x1_0000_0000 * word_of(b[4], b[5], b[6], b[7])
                == handles[i]
        }),
    decreases n,
{
    let m = (n - 1) as nat;
    let before = handle_bytes(handles, m as int);
    if m > 0 {
        law_handle_table(handles, m, 0);
    }
    if i < m {
        law_handle_table(handles, m, i);
        assert(handle_bytes(handles, n as int).subrange(8 * i, 8 * i + 8) =~= before.subrange(
            8 * i,
            8 * i + 8,
        ));
    } else {
        lemma_long_parts(handles[i]);
        assert(handle_bytes(handles, n as int).subrange(8 * i, 8 * i + 8) =~= le_bytes(
            handles[i],
        ));
    }
}

/// The pages for some bytes hold them, and one page fewer would not; there is at
/// least one.
pub proof fn law_pages_fit(size: nat)
    ensures
        pages_for(size) >= 1,
        65536 * pages_for(size) >= size,
        pages_for(size) > 1 ==> 65536 * (pages_for(size) - 1) < size,
{
}

/// A memory of whole pages grows by just as many pages as the access needs.
pub proof fn law_growth_fits(pages: nat, offset: nat, len: nat)
    ensures
        65536 * (pages + growth_for(65536 * pages, offset, len)) >= offset + len,
        growth_for(65536 * pages, offset, len) > 0 ==> 65536 * (pages + growth_for(
            65536 * pages,
            offset,
            len,
        ) - 1) < offset + len,
        offset + len <= 65536 * pages ==> growth_for(65536 * pages, offset, len) == 0,
{
}

} // verus!
