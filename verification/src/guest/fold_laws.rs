//! What the kernels that fold a range do: exclusive or, disjunction and conjunction of all its
//! bytes, in whole vectors first and byte by byte behind them.
use vstd::prelude::*;
use crate::text::decimal;
use super::copy_laws::{lemma_fill_add, lemma_fill_place, lemma_fill_plain, pool_name};
use super::indirect_laws::{holds_part, lemma_holds_itself};
use super::kernel_laws::{
    address, bin, both, closing_text, get, head_text, lemma_assign_text, lemma_bin_text,
    lemma_both_text, lemma_constants, lemma_get_text, lemma_lit_text, lemma_load_text, lemma_loads,
    lemma_reached, lemma_reducers_in_module, lemma_step, lemma_un_text, lemma_until_text,
    on_the_way, opening_text, set_cur, set_end, set_vec_end, step_by, un, vec_len,
};
use super::kernels::{SIMD_AND_FOLD, SIMD_OR_FOLD, SIMD_XOR_FOLD};
use super::meaning::{
    declared_text, lemma_add_assoc, lemma_add_nothing, lemma_blank_literals, lemma_nothing_add,
    lemma_squeezed_add, number_of, power, squeezed,
};
use super::module::{module_text, ModuleParams};
use super::shell_laws::{args2, declared_word, lemma_declared};
use super::vector::{
    applied, bound_params, code_done, code_text, combined, constant, entered, kernel_text, lane,
    ran, term_text, term_value, Code, Kernel, Term, Val,
};
use super::wat::fill;

verus! {

// ---------------------------------------------------------------------------
// Folding bytes
// ---------------------------------------------------------------------------

/// The ways to fold bytes into one.
pub enum Fold {
    Xor,
    Or,
    And,
}

/// Two bytes folded into one.
pub open spec fn joined_byte(way: Fold, a: u8, b: u8) -> u8 {
    match way {
        Fold::Xor => a ^ b,
        Fold::Or => a | b,
        Fold::And => a & b,
    }
}

/// What no bytes fold into.
pub open spec fn unit(way: Fold) -> u8 {
    match way {
        Fold::And => 0xff,
        _ => 0,
    }
}

/// What `n` bytes from `at` on fold into.
pub open spec fn folded(way: Fold, bytes: Seq<u8>, at: int, n: nat) -> u8
    decreases n,
{
    if n == 0 {
        unit(way)
    } else {
        joined_byte(way, folded(way, bytes, at, (n - 1) as nat), bytes[at + n - 1])
    }
}

proof fn lemma_joined(way: Fold, a: u8, b: u8, c: u8, d: u8)
    ensures
        joined_byte(way, joined_byte(way, a, b), joined_byte(way, c, d)) == joined_byte(
            way,
            joined_byte(way, a, c),
            joined_byte(way, b, d),
        ),
        joined_byte(way, joined_byte(way, a, b), c) == joined_byte(way, a, joined_byte(way, b, c)),
        joined_byte(way, unit(way), a) == a,
        joined_byte(way, a, unit(way)) == a,
        joined_byte(way, a, b) as nat == (match way {
            Fold::Xor => a as u32 ^ b as u32,
            Fold::Or => a as u32 | b as u32,
            Fold::And => a as u32 & b as u32,
        }) as nat,
{
    assert((a ^ b) ^ (c ^ d) == (a ^ c) ^ (b ^ d) && (a ^ b) ^ c == a ^ (b ^ c) && 0u8 ^ a == a && a
        ^ 0u8 == a && (a ^ b) as u32 == a as u32 ^ b as u32) by (bit_vector);
    assert((a | b) | (c | d) == (a | c) | (b | d) && (a | b) | c == a | (b | c) && 0u8 | a == a && a
        | 0u8 == a && (a | b) as u32 == a as u32 | b as u32) by (bit_vector);
    assert((a & b) & (c & d) == (a & c) & (b & d) && (a & b) & c == a & (b & c) && 0xffu8 & a == a
        && a & 0xffu8 == a && (a & b) as u32 == a as u32 & b as u32) by (bit_vector);
}

proof fn lemma_folded_split(way: Fold, m: Seq<u8>, at: int, c: nat, n: nat)
    ensures
        folded(way, m, at, c + n) == joined_byte(
            way,
            folded(way, m, at, c),
            folded(way, m, at + c, n),
        ),
    decreases n,
{
    let a = folded(way, m, at, c);
    if n > 0 {
        lemma_folded_split(way, m, at, c, (n - 1) as nat);
        lemma_joined(way, a, folded(way, m, at + c, (n - 1) as nat), m[at + c + n - 1], 0);
    } else {
        lemma_joined(way, a, 0, 0, 0);
    }
}

proof fn lemma_folded_same(way: Fold, a: Seq<u8>, i: int, b: Seq<u8>, j: int, n: nat)
    requires
        forall|t: int| 0 <= t < n ==> a[#[trigger] (i + t)] == b[j + t],
    ensures
        folded(way, a, i, n) == folded(way, b, j, n),
    decreases n,
{
    if n > 0 {
        lemma_folded_same(way, a, i, b, j, (n - 1) as nat);
        assert(a[i + (n - 1)] == b[j + (n - 1)]);
    }
}

proof fn lemma_folded_zip(way: Fold, a: Seq<u8>, x: Seq<u8>, z: Seq<u8>, n: nat)
    requires
        forall|i: int| 0 <= i < n ==> #[trigger] z[i] == joined_byte(way, a[i], x[i]),
    ensures
        folded(way, z, 0, n) == joined_byte(way, folded(way, a, 0, n), folded(way, x, 0, n)),
    decreases n,
{
    if n > 0 {
        let m = (n - 1) as nat;
        lemma_folded_zip(way, a, x, z, m);
        assert(z[n - 1] == joined_byte(way, a[n - 1], x[n - 1]));
        lemma_joined(way, folded(way, a, 0, m), folded(way, x, 0, m), a[n - 1], x[n - 1]);
    } else {
        lemma_joined(way, unit(way), 0, 0, 0);
    }
}

/// The bytes as one number of 64 bits.
spec fn bits_of(b: Seq<u8>) -> u64
    decreases b.len(),
{
    if b.len() == 0 {
        0
    } else {
        (b[0] as u64) | (bits_of(b.skip(1)) << 8u64)
    }
}

proof fn lemma_bits(b: Seq<u8>)
    requires
        b.len() <= 8,
    ensures
        number_of(b) == bits_of(b),
        b.len() < 8 ==> bits_of(b) < 0x100_0000_0000_0000,
    decreases b.len(),
{
    if b.len() > 0 {
        lemma_bits(b.skip(1));
        let r = bits_of(b.skip(1));
        let c = b[0];
        assert(r < 0x100_0000_0000_0000u64 ==> ((c as u64) | (r << 8u64)) == c as u64 + 256 * r)
            by (bit_vector);
        lemma_bits_bound(b);
    }
}

proof fn lemma_bits_bound(b: Seq<u8>)
    requires
        0 < b.len() <= 8,
        number_of(b.skip(1)) == bits_of(b.skip(1)),
    ensures
        b.len() < 8 ==> b[0] + 256 * bits_of(b.skip(1)) < 0x100_0000_0000_0000,
{
    lemma_number_bound(b.skip(1));
    lemma_power_order(b.len());
}

pub(crate) proof fn lemma_number_bound(b: Seq<u8>)
    ensures
        number_of(b) < power(b.len()),
    decreases b.len(),
{
    if b.len() > 0 {
        lemma_number_bound(b.skip(1));
    }
}

pub(crate) proof fn lemma_power_order(n: nat)
    requires
        0 < n,
    ensures
        n < 8 ==> 256 * power((n - 1) as nat) <= 0x100_0000_0000_0000,
{
    reveal_with_fuel(power, 9);
}

spec fn eight(b: Seq<u8>) -> u64 {
    ((b[0] as u64) | (((b[1] as u64) | (((b[2] as u64) | (((b[3] as u64) | (((b[4] as u64) | (((b[5] as u64) | (((b[6] as u64) | ((b[7] as u64) << 8u64)) << 8u64)) << 8u64)) << 8u64)) << 8u64)) << 8u64)) << 8u64))
}

proof fn lemma_eight(b: Seq<u8>)
    requires
        b.len() == 8,
    ensures
        number_of(b) == eight(b),
{
    lemma_bits(b);
    reveal_with_fuel(bits_of, 10);
    let b1 = b.skip(1);
    let b2 = b1.skip(1);
    let b3 = b2.skip(1);
    let b4 = b3.skip(1);
    let b5 = b4.skip(1);
    let b6 = b5.skip(1);
    let b7 = b6.skip(1);
    assert(b1[0] == b[1] && b2[0] == b[2] && b3[0] == b[3] && b4[0] == b[4] && b5[0] == b[5]
        && b6[0] == b[6] && b7[0] == b[7]);
    let c = b[7];
    assert((c as u64) | (0u64 << 8u64) == c as u64) by (bit_vector);
    assert(bits_of(b7) == c as u64);
}

/// Two words of 64 bits folded into one.
spec fn joined_word(way: Fold, a: u64, b: u64) -> u64 {
    match way {
        Fold::Xor => a ^ b,
        Fold::Or => a | b,
        Fold::And => a & b,
    }
}

/// The lowest byte of what two words fold into.
spec fn low_fold(way: Fold, x: u64, y: u64) -> u8 {
    let t0 = joined_word(way, x, y);
    let t1 = joined_word(way, t0, t0 >> 32u64);
    let t2 = joined_word(way, t1, t1 >> 16u64);
    let t3 = joined_word(way, t2, t2 >> 8u64);
    (t3 & 0xffu64) as u8
}

proof fn lemma_low_fold(
    way: Fold,
    a0: u8,
    a1: u8,
    a2: u8,
    a3: u8,
    a4: u8,
    a5: u8,
    a6: u8,
    a7: u8,
    b0: u8,
    b1: u8,
    b2: u8,
    b3: u8,
    b4: u8,
    b5: u8,
    b6: u8,
    b7: u8,
)
    ensures
        low_fold(
            way,
            ((a0 as u64) | (((a1 as u64) | (((a2 as u64) | (((a3 as u64) | (((a4 as u64) | (((a5 as u64) | (((a6 as u64) | ((a7 as u64) << 8u64)) << 8u64)) << 8u64)) << 8u64)) << 8u64)) << 8u64)) << 8u64)),
            ((b0 as u64) | (((b1 as u64) | (((b2 as u64) | (((b3 as u64) | (((b4 as u64) | (((b5 as u64) | (((b6 as u64) | ((b7 as u64) << 8u64)) << 8u64)) << 8u64)) << 8u64)) << 8u64)) << 8u64)) << 8u64)),
        ) == joined_byte(way, joined_byte(way, joined_byte(way, joined_byte(way, joined_byte(way, joined_byte(way, joined_byte(way, joined_byte(way, joined_byte(way, joined_byte(way, joined_byte(way, joined_byte(way, joined_byte(way, joined_byte(way, joined_byte(way, joined_byte(way, unit(way), a0), a1), a2), a3), a4), a5), a6), a7), b0), b1), b2), b3), b4), b5), b6), b7),
{
    match way {
        Fold::Xor => lemma_low_xor(a0, a1, a2, a3, a4, a5, a6, a7, b0, b1, b2, b3, b4, b5, b6, b7),
        Fold::Or => lemma_low_or(a0, a1, a2, a3, a4, a5, a6, a7, b0, b1, b2, b3, b4, b5, b6, b7),
        Fold::And => lemma_low_and(a0, a1, a2, a3, a4, a5, a6, a7, b0, b1, b2, b3, b4, b5, b6, b7),
    }
}

proof fn lemma_low_xor(
    a0: u8,
    a1: u8,
    a2: u8,
    a3: u8,
    a4: u8,
    a5: u8,
    a6: u8,
    a7: u8,
    b0: u8,
    b1: u8,
    b2: u8,
    b3: u8,
    b4: u8,
    b5: u8,
    b6: u8,
    b7: u8,
)
    ensures
        low_fold(
            Fold::Xor,
            ((a0 as u64) | (((a1 as u64) | (((a2 as u64) | (((a3 as u64) | (((a4 as u64) | (((a5 as u64) | (((a6 as u64) | ((a7 as u64) << 8u64)) << 8u64)) << 8u64)) << 8u64)) << 8u64)) << 8u64)) << 8u64)),
            ((b0 as u64) | (((b1 as u64) | (((b2 as u64) | (((b3 as u64) | (((b4 as u64) | (((b5 as u64) | (((b6 as u64) | ((b7 as u64) << 8u64)) << 8u64)) << 8u64)) << 8u64)) << 8u64)) << 8u64)) << 8u64)),
        ) == joined_byte(Fold::Xor, joined_byte(Fold::Xor, joined_byte(Fold::Xor, joined_byte(Fold::Xor, joined_byte(Fold::Xor, joined_byte(Fold::Xor, joined_byte(Fold::Xor, joined_byte(Fold::Xor, joined_byte(Fold::Xor, joined_byte(Fold::Xor, joined_byte(Fold::Xor, joined_byte(Fold::Xor, joined_byte(Fold::Xor, joined_byte(Fold::Xor, joined_byte(Fold::Xor, joined_byte(Fold::Xor, unit(Fold::Xor), a0), a1), a2), a3), a4), a5), a6), a7), b0), b1), b2), b3), b4), b5), b6), b7),
{
    let x: u64 = ((a0 as u64) | (((a1 as u64) | (((a2 as u64) | (((a3 as u64) | (((a4 as u64) | (((a5 as u64) | (((a6 as u64) | ((a7 as u64) << 8u64)) << 8u64)) << 8u64)) << 8u64)) << 8u64)) << 8u64)) << 8u64));
    let y: u64 = ((b0 as u64) | (((b1 as u64) | (((b2 as u64) | (((b3 as u64) | (((b4 as u64) | (((b5 as u64) | (((b6 as u64) | ((b7 as u64) << 8u64)) << 8u64)) << 8u64)) << 8u64)) << 8u64)) << 8u64)) << 8u64));
    let t0: u64 = x ^ y;
    let t1: u64 = t0 ^ (t0 >> 32u64);
    let t2: u64 = t1 ^ (t1 >> 16u64);
    let t3: u64 = t2 ^ (t2 >> 8u64);
    assert((t3 & 0xffu64) as u8 == ((((((((((((((((0u8 ^ a0) ^ a1) ^ a2) ^ a3) ^ a4) ^ a5) ^ a6) ^ a7) ^ b0) ^ b1) ^ b2) ^ b3) ^ b4) ^ b5) ^ b6) ^ b7)) by (bit_vector)
        requires
            x == ((a0 as u64) | (((a1 as u64) | (((a2 as u64) | (((a3 as u64) | (((a4 as u64) | (((a5 as u64) | (((a6 as u64) | ((a7 as u64) << 8u64)) << 8u64)) << 8u64)) << 8u64)) << 8u64)) << 8u64)) << 8u64)),
            y == ((b0 as u64) | (((b1 as u64) | (((b2 as u64) | (((b3 as u64) | (((b4 as u64) | (((b5 as u64) | (((b6 as u64) | ((b7 as u64) << 8u64)) << 8u64)) << 8u64)) << 8u64)) << 8u64)) << 8u64)) << 8u64)),
            t0 == x ^ y,
            t1 == t0 ^ (t0 >> 32u64),
            t2 == t1 ^ (t1 >> 16u64),
            t3 == t2 ^ (t2 >> 8u64),
    ;
}

proof fn lemma_low_or(
    a0: u8,
    a1: u8,
    a2: u8,
    a3: u8,
    a4: u8,
    a5: u8,
    a6: u8,
    a7: u8,
    b0: u8,
    b1: u8,
    b2: u8,
    b3: u8,
    b4: u8,
    b5: u8,
    b6: u8,
    b7: u8,
)
    ensures
        low_fold(
            Fold::Or,
            ((a0 as u64) | (((a1 as u64) | (((a2 as u64) | (((a3 as u64) | (((a4 as u64) | (((a5 as u64) | (((a6 as u64) | ((a7 as u64) << 8u64)) << 8u64)) << 8u64)) << 8u64)) << 8u64)) << 8u64)) << 8u64)),
            ((b0 as u64) | (((b1 as u64) | (((b2 as u64) | (((b3 as u64) | (((b4 as u64) | (((b5 as u64) | (((b6 as u64) | ((b7 as u64) << 8u64)) << 8u64)) << 8u64)) << 8u64)) << 8u64)) << 8u64)) << 8u64)),
        ) == joined_byte(Fold::Or, joined_byte(Fold::Or, joined_byte(Fold::Or, joined_byte(Fold::Or, joined_byte(Fold::Or, joined_byte(Fold::Or, joined_byte(Fold::Or, joined_byte(Fold::Or, joined_byte(Fold::Or, joined_byte(Fold::Or, joined_byte(Fold::Or, joined_byte(Fold::Or, joined_byte(Fold::Or, joined_byte(Fold::Or, joined_byte(Fold::Or, joined_byte(Fold::Or, unit(Fold::Or), a0), a1), a2), a3), a4), a5), a6), a7), b0), b1), b2), b3), b4), b5), b6), b7),
{
    let x: u64 = ((a0 as u64) | (((a1 as u64) | (((a2 as u64) | (((a3 as u64) | (((a4 as u64) | (((a5 as u64) | (((a6 as u64) | ((a7 as u64) << 8u64)) << 8u64)) << 8u64)) << 8u64)) << 8u64)) << 8u64)) << 8u64));
    let y: u64 = ((b0 as u64) | (((b1 as u64) | (((b2 as u64) | (((b3 as u64) | (((b4 as u64) | (((b5 as u64) | (((b6 as u64) | ((b7 as u64) << 8u64)) << 8u64)) << 8u64)) << 8u64)) << 8u64)) << 8u64)) << 8u64));
    let t0: u64 = x | y;
    let t1: u64 = t0 | (t0 >> 32u64);
    let t2: u64 = t1 | (t1 >> 16u64);
    let t3: u64 = t2 | (t2 >> 8u64);
    assert((t3 & 0xffu64) as u8 == ((((((((((((((((0u8 | a0) | a1) | a2) | a3) | a4) | a5) | a6) | a7) | b0) | b1) | b2) | b3) | b4) | b5) | b6) | b7)) by (bit_vector)
        requires
            x == ((a0 as u64) | (((a1 as u64) | (((a2 as u64) | (((a3 as u64) | (((a4 as u64) | (((a5 as u64) | (((a6 as u64) | ((a7 as u64) << 8u64)) << 8u64)) << 8u64)) << 8u64)) << 8u64)) << 8u64)) << 8u64)),
            y == ((b0 as u64) | (((b1 as u64) | (((b2 as u64) | (((b3 as u64) | (((b4 as u64) | (((b5 as u64) | (((b6 as u64) | ((b7 as u64) << 8u64)) << 8u64)) << 8u64)) << 8u64)) << 8u64)) << 8u64)) << 8u64)),
            t0 == x | y,
            t1 == t0 | (t0 >> 32u64),
            t2 == t1 | (t1 >> 16u64),
            t3 == t2 | (t2 >> 8u64),
    ;
}

proof fn lemma_low_and(
    a0: u8,
    a1: u8,
    a2: u8,
    a3: u8,
    a4: u8,
    a5: u8,
    a6: u8,
    a7: u8,
    b0: u8,
    b1: u8,
    b2: u8,
    b3: u8,
    b4: u8,
    b5: u8,
    b6: u8,
    b7: u8,
)
    ensures
        low_fold(
            Fold::And,
            ((a0 as u64) | (((a1 as u64) | (((a2 as u64) | (((a3 as u64) | (((a4 as u64) | (((a5 as u64) | (((a6 as u64) | ((a7 as u64) << 8u64)) << 8u64)) << 8u64)) << 8u64)) << 8u64)) << 8u64)) << 8u64)),
            ((b0 as u64) | (((b1 as u64) | (((b2 as u64) | (((b3 as u64) | (((b4 as u64) | (((b5 as u64) | (((b6 as u64) | ((b7 as u64) << 8u64)) << 8u64)) << 8u64)) << 8u64)) << 8u64)) << 8u64)) << 8u64)),
        ) == joined_byte(Fold::And, joined_byte(Fold::And, joined_byte(Fold::And, joined_byte(Fold::And, joined_byte(Fold::And, joined_byte(Fold::And, joined_byte(Fold::And, joined_byte(Fold::And, joined_byte(Fold::And, joined_byte(Fold::And, joined_byte(Fold::And, joined_byte(Fold::And, joined_byte(Fold::And, joined_byte(Fold::And, joined_byte(Fold::And, joined_byte(Fold::And, unit(Fold::And), a0), a1), a2), a3), a4), a5), a6), a7), b0), b1), b2), b3), b4), b5), b6), b7),
{
    let x: u64 = ((a0 as u64) | (((a1 as u64) | (((a2 as u64) | (((a3 as u64) | (((a4 as u64) | (((a5 as u64) | (((a6 as u64) | ((a7 as u64) << 8u64)) << 8u64)) << 8u64)) << 8u64)) << 8u64)) << 8u64)) << 8u64));
    let y: u64 = ((b0 as u64) | (((b1 as u64) | (((b2 as u64) | (((b3 as u64) | (((b4 as u64) | (((b5 as u64) | (((b6 as u64) | ((b7 as u64) << 8u64)) << 8u64)) << 8u64)) << 8u64)) << 8u64)) << 8u64)) << 8u64));
    let t0: u64 = x & y;
    let t1: u64 = t0 & (t0 >> 32u64);
    let t2: u64 = t1 & (t1 >> 16u64);
    let t3: u64 = t2 & (t2 >> 8u64);
    assert((t3 & 0xffu64) as u8 == ((((((((((((((((0xffu8 & a0) & a1) & a2) & a3) & a4) & a5) & a6) & a7) & b0) & b1) & b2) & b3) & b4) & b5) & b6) & b7)) by (bit_vector)
        requires
            x == ((a0 as u64) | (((a1 as u64) | (((a2 as u64) | (((a3 as u64) | (((a4 as u64) | (((a5 as u64) | (((a6 as u64) | ((a7 as u64) << 8u64)) << 8u64)) << 8u64)) << 8u64)) << 8u64)) << 8u64)) << 8u64)),
            y == ((b0 as u64) | (((b1 as u64) | (((b2 as u64) | (((b3 as u64) | (((b4 as u64) | (((b5 as u64) | (((b6 as u64) | ((b7 as u64) << 8u64)) << 8u64)) << 8u64)) << 8u64)) << 8u64)) << 8u64)) << 8u64)),
            t0 == x & y,
            t1 == t0 & (t0 >> 32u64),
            t2 == t1 & (t1 >> 16u64),
            t3 == t2 & (t2 >> 8u64),
    ;
}

proof fn lemma_sixteen(way: Fold, v: Seq<u8>)
    ensures
        folded(way, v, 0, 16) == joined_byte(
            way,
            folded(way, v, 0, 8),
            folded(way, v, 8, 8),
        ),
{
    lemma_folded_split(way, v, 0, 8, 8);
}

proof fn lemma_reduced(way: Fold, acc: Seq<u8>)
    requires
        acc.len() == 16,
    ensures
        lane(acc, 8, 0) < 0x1_0000_0000_0000_0000,
        lane(acc, 8, 1) < 0x1_0000_0000_0000_0000,
        low_fold(way, lane(acc, 8, 0) as u64, lane(acc, 8, 1) as u64) == folded(way, acc, 0, 16),
{
    let a = acc.subrange(0, 8);
    let b = acc.subrange(8, 16);
    assert(acc.subrange(8nat * 0int, 8nat * 0int + 8nat) =~= a);
    assert(acc.subrange(8nat * 1int, 8nat * 1int + 8nat) =~= b);
    lemma_eight(a);
    lemma_eight(b);
    lemma_low_fold(way, a[0], a[1], a[2], a[3], a[4], a[5], a[6], a[7], b[0], b[1], b[2], b[3], b[4], b[5], b[6], b[7]);
    reveal_with_fuel(folded, 17);
}

// ---------------------------------------------------------------------------
// The kernels
// ---------------------------------------------------------------------------

spec fn vec_op(way: Fold) -> Seq<char> {
    match way {
        Fold::Xor => "v128.xor"@,
        Fold::Or => "v128.or"@,
        Fold::And => "v128.and"@,
    }
}

spec fn word_op(way: Fold) -> Seq<char> {
    match way {
        Fold::Xor => "i64.xor"@,
        Fold::Or => "i64.or"@,
        Fold::And => "i64.and"@,
    }
}

spec fn byte_op(way: Fold) -> Seq<char> {
    match way {
        Fold::Xor => "i32.xor"@,
        Fold::Or => "i32.or"@,
        Fold::And => "i32.and"@,
    }
}

spec fn start_word(way: Fold) -> Seq<char> {
    match way {
        Fold::And => "i64x2 -1 -1"@,
        _ => "i64x2 0 0"@,
    }
}

spec fn set_acc(way: Fold) -> Code {
    Code::Assign("acc"@, Term::Lit("v128.const"@, start_word(way)))
}

spec fn set_byte() -> Code {
    Code::Assign("byte"@, Term::Lit("i32.const"@, "0xff"@))
}

spec fn fold_vec(way: Fold, k: nat) -> Code {
    Code::Assign(
        "acc"@,
        bin(vec_op(way), get("acc"@), Term::Load("v128.load"@, k, Box::new(get("cur"@)))),
    )
}

spec fn vec_loop(way: Fold, k: nat) -> Code {
    Code::Until(
        "vec_done"@,
        "vec_continue"@,
        bin("i32.eq"@, get("cur"@), get("vec_end"@)),
        Box::new(both(fold_vec(way, k), step_by("16"@))),
    )
}

spec fn join_lanes(way: Fold) -> Code {
    Code::Assign(
        "tmp"@,
        bin(
            word_op(way),
            un("i64x2.extract_lane 0"@, get("acc"@)),
            un("i64x2.extract_lane 1"@, get("acc"@)),
        ),
    )
}

spec fn halve(way: Fold, by: Seq<char>) -> Code {
    Code::Assign(
        "tmp"@,
        bin(
            word_op(way),
            get("tmp"@),
            bin("i64.shr_u"@, get("tmp"@), Term::Lit("i64.const"@, by)),
        ),
    )
}

spec fn take_byte() -> Code {
    Code::Assign(
        "byte"@,
        bin("i32.and"@, un("i32.wrap_i64"@, get("tmp"@)), Term::Lit("i32.const"@, "0xff"@)),
    )
}

spec fn reduce(way: Fold) -> Code {
    both(
        both(
            both(both(join_lanes(way), halve(way, "32"@)), halve(way, "16"@)),
            halve(way, "8"@),
        ),
        take_byte(),
    )
}

spec fn any_vec() -> Term {
    bin("i32.ne"@, get("vec_end"@), get("off"@))
}

spec fn reduce_any(way: Fold) -> Code {
    match way {
        Fold::And => Code::When(any_vec(), Box::new(reduce(way))),
        _ => reduce(way),
    }
}

spec fn fold_single(way: Fold, k: nat) -> Code {
    Code::Assign(
        "byte"@,
        bin(byte_op(way), get("byte"@), Term::Load("i32.load8_u"@, k, Box::new(get("cur"@)))),
    )
}

spec fn tail_loop(way: Fold, k: nat) -> Code {
    Code::Until(
        "tail_done"@,
        "tail_continue"@,
        bin("i32.eq"@, get("cur"@), get("end"@)),
        Box::new(both(fold_single(way, k), step_by("1"@))),
    )
}

spec fn places() -> Code {
    both(both(set_cur(), set_end()), set_vec_end())
}

spec fn setup(way: Fold) -> Code {
    match way {
        Fold::And => both(both(places(), set_acc(way)), set_byte()),
        _ => both(places(), set_acc(way)),
    }
}

spec fn fold_code(way: Fold, k: nat) -> Code {
    both(both(both(setup(way), vec_loop(way, k)), reduce_any(way)), tail_loop(way, k))
}

spec fn kernel(way: Fold, stem: Seq<char>, k: nat) -> Kernel {
    Kernel {
        name: pool_name(stem, k),
        params: seq![("off"@, "i32"@), ("len"@, "i32"@)],
        result: "i32"@,
        locals: seq![
            ("cur"@, "i32"@),
            ("end"@, "i32"@),
            ("vec_end"@, "i32"@),
            ("acc"@, "v128"@),
            ("tmp"@, "i64"@),
            ("byte"@, "i32"@),
        ],
        code: fold_code(way, k),
        value: get("byte"@),
    }
}

// ---------------------------------------------------------------------------
// What they come to
// ---------------------------------------------------------------------------

proof fn lemma_locals()
    ensures
        "byte"@ != "cur"@,
        "byte"@ != "end"@,
        "byte"@ != "vec_end"@,
        "byte"@ != "acc"@,
        "byte"@ != "tmp"@,
        "byte"@ != "off"@,
        "byte"@ != "len"@,
        "vec_end"@ != "tmp"@,
{
    reveal_strlit("byte");
    reveal_strlit("cur");
    reveal_strlit("end");
    reveal_strlit("vec_end");
    reveal_strlit("acc");
    reveal_strlit("tmp");
    reveal_strlit("off");
    reveal_strlit("len");
    assert("byte"@.len() == 4 && "cur"@.len() == 3 && "end"@.len() == 3 && "vec_end"@.len() == 7
        && "acc"@.len() == 3 && "tmp"@.len() == 3 && "off"@.len() == 3 && "len"@.len() == 3);
}

proof fn lemma_fold_constants()
    ensures
        constant("i64.const"@, "32"@) == Some(Val::N(32)),
        constant("i64.const"@, "16"@) == Some(Val::N(16)),
        constant("i64.const"@, "8"@) == Some(Val::N(8)),
        constant("i32.const"@, "0xff"@) == Some(Val::N(0xff)),
        ({
            let c = constant("v128.const"@, "i64x2 -1 -1"@);
            c is Some && c->0 is V && c->0->V_0.len() == 16 && forall|i: int|
                0 <= i < 16 ==> #[trigger] c->0->V_0[i] == 0xff
        }),
{
    reveal_strlit("i32.const");
    reveal_strlit("i64.const");
    reveal_strlit("v128.const");
    reveal_strlit("1");
    reveal_strlit("16");
    reveal_strlit("-16");
    reveal_strlit("0xff");
    reveal_strlit("32");
    reveal_strlit("8");
    reveal_strlit("i64x2 0 0");
    reveal_strlit("i64x2 -1 -1");
    assert("i32.const"@.len() == 9 && "i64.const"@.len() == 9 && "v128.const"@.len() == 10);
    assert("i32.const"@[1] == '3' && "i64.const"@[1] == '6');
    assert("1"@.len() == 1 && "16"@.len() == 2 && "-16"@.len() == 3 && "0xff"@.len() == 4);
    assert("32"@.len() == 2 && "8"@.len() == 1 && "32"@[0] == '3' && "16"@[0] == '1');
    assert("i64x2 0 0"@.len() == 9 && "i64x2 -1 -1"@.len() == 11);
}

proof fn lemma_fold_unary(v: Seq<u8>, n: nat)
    ensures
        applied("i64x2.extract_lane 0"@, Val::V(v)) == Some(Val::N(lane(v, 8, 0))),
        applied("i64x2.extract_lane 1"@, Val::V(v)) == Some(Val::N(lane(v, 8, 1))),
        applied("i32.wrap_i64"@, Val::N(n)) == Some(Val::N(n % 0x1_0000_0000)),
{
    super::kernel_laws::lemma_unary(v, n);
    reveal_strlit("i32.wrap_i64");
    reveal_strlit("i32.popcnt");
    reveal_strlit("i64.extend_i32_u");
    assert("i32.wrap_i64"@.len() == 12 && "i32.popcnt"@.len() == 10 && "i64.extend_i32_u"@.len()
        == 16);
}

proof fn lemma_fold_binary(way: Fold, x: nat, y: nat, v: Seq<u8>, w: Seq<u8>)
    ensures
        combined("i64.shr_u"@, Val::N(x), Val::N(y)) == Some(
            Val::N((x as u64 >> (y % 64) as u64) as nat),
        ),
        combined("i32.ne"@, Val::N(x), Val::N(y)) == Some(
            Val::N(
                if x != y {
                    1
                } else {
                    0
                },
            ),
        ),
        combined("i32.and"@, Val::N(x), Val::N(y)) == Some(Val::N((x as u32 & y as u32) as nat)),
        combined(word_op(way), Val::N(x), Val::N(y)) == Some(
            Val::N(joined_word(way, x as u64, y as u64) as nat),
        ),
        combined(byte_op(way), Val::N(x), Val::N(y)) == Some(
            Val::N(
                (match way {
                    Fold::Xor => x as u32 ^ y as u32,
                    Fold::Or => x as u32 | y as u32,
                    Fold::And => x as u32 & y as u32,
                }) as nat,
            ),
        ),
        ({
            let r = combined(vec_op(way), Val::V(v), Val::V(w));
            r is Some && r->0 is V && r->0->V_0.len() == 16 && forall|i: int|
                0 <= i < 16 ==> #[trigger] r->0->V_0[i] == joined_byte(way, v[i], w[i])
        }),
{
    reveal_strlit("i32.add");
    reveal_strlit("i64.add");
    reveal_strlit("i32.and");
    reveal_strlit("i32.eq");
    reveal_strlit("i32.ne");
    reveal_strlit("i64.shr_u");
    reveal_strlit("i32.sub");
    assert("i32.sub"@.len() == 7 && "i32.sub"@[5] == 'u');
    reveal_strlit("i32.xor");
    reveal_strlit("i32.or");
    reveal_strlit("i64.xor");
    reveal_strlit("i64.or");
    reveal_strlit("i64.and");
    reveal_strlit("i64x2.add");
    reveal_strlit("v128.xor");
    reveal_strlit("v128.or");
    reveal_strlit("v128.and");
    assert("i32.add"@.len() == 7 && "i64.add"@.len() == 7 && "i32.and"@.len() == 7
        && "i32.xor"@.len() == 7 && "i64.xor"@.len() == 7 && "i64.and"@.len() == 7);
    assert("i32.add"@[1] == '3' && "i64.add"@[1] == '6' && "i32.and"@[1] == '3' && "i32.xor"@[1]
        == '3' && "i64.xor"@[1] == '6' && "i64.and"@[1] == '6');
    assert("i32.add"@[5] == 'd' && "i32.and"@[5] == 'n' && "i32.xor"@[5] == 'o' && "i64.add"@[5]
        == 'd' && "i64.and"@[5] == 'n' && "i64.xor"@[5] == 'o');
    assert("i32.eq"@.len() == 6 && "i32.ne"@.len() == 6 && "i32.or"@.len() == 6 && "i64.or"@.len()
        == 6 && "i64.shr_u"@.len() == 9);
    assert("i32.eq"@[4] == 'e' && "i32.ne"@[4] == 'n' && "i32.or"@[4] == 'o' && "i32.or"@[1] == '3'
        && "i64.or"@[1] == '6' && "i32.ne"@[1] == '3');
    assert("v128.xor"@.len() == 8 && "v128.or"@.len() == 7 && "v128.and"@.len() == 8
        && "i64x2.add"@.len() == 9 && "v128.xor"@[5] == 'x' && "v128.and"@[5] == 'a');
}

proof fn lemma_vec_loop(
    way: Fold,
    k: nat,
    env: Map<Seq<char>, Val>,
    mems: Seq<Seq<u8>>,
    off: nat,
    len: nat,
    c: nat,
    acc: Seq<u8>,
    fuel: nat,
)
    requires
        k < mems.len(),
        off < 0x1_0000_0000,
        len < 0x1_0000_0000,
        off + len <= mems[k as int].len(),
        mems[k as int].len() <= 0x1_0000_0000,
        c <= vec_len(len),
        c % 16 == 0,
        fuel * 16 >= vec_len(len) - c,
        on_the_way(env, off, len, c),
        env.contains_key("vec_end"@),
        env["vec_end"@] == Val::N(address(off, vec_len(len))),
        env.contains_key("acc"@),
        env["acc"@] == Val::V(acc),
        acc.len() == 16,
        folded(way, acc, 0, 16) == folded(way, mems[k as int], off as int, c),
    ensures
        ({
            let r = code_done(vec_loop(way, k), env, mems, fuel);
            let e = r->0;
            &&& r is Some
            &&& on_the_way(e, off, len, vec_len(len))
            &&& e.contains_key("acc"@)
            &&& e["acc"@] is V
            &&& e["acc"@]->V_0.len() == 16
            &&& folded(way, e["acc"@]->V_0, 0, 16) == folded(
                way,
                mems[k as int],
                off as int,
                vec_len(len),
            )
            &&& forall|x: Seq<char>|
                x != "cur"@ && x != "acc"@ && env.contains_key(x) ==> #[trigger] e.contains_key(x)
                    && e[x] == env[x]
        }),
    decreases vec_len(len) - c,
{
    let m = mems[k as int];
    let v = vec_len(len);
    lemma_reached("vec_end"@, env, mems, off, c, v);
    if c < v {
        assert(c + 16 <= v);
        let at = address(off, c);
        assert(at == off + c);
        let x = m.subrange(at as int, at as int + 16);
        super::kernel_laws::lemma_variables();
        lemma_constants();
        lemma_loads(k, at, env, mems);
        lemma_fold_binary(way, 0, 0, acc, x);
        let z = combined(vec_op(way), Val::V(acc), Val::V(x))->0->V_0;
        assert(term_value(get("acc"@), env, mems) == Some(Val::V(acc)));
        let e1 = env.insert("acc"@, Val::V(z));
        assert(code_done(fold_vec(way, k), env, mems, fuel) == Some(e1));
        lemma_step("16"@, 16, e1, mems, at, fuel);
        let e2 = e1.insert("cur"@, Val::N((at + 16) % 0x1_0000_0000));
        assert(address(off, c + 16) == (at + 16) % 0x1_0000_0000);
        let body = both(fold_vec(way, k), step_by("16"@));
        assert(code_done(body, env, mems, fuel) == Some(e2));
        lemma_folded_zip(way, acc, x, z, 16);
        lemma_folded_same(way, x, 0, m, at as int, 16);
        lemma_folded_split(way, m, off as int, c, 16);
        lemma_vec_loop(way, k, e2, mems, off, len, c + 16, z, (fuel - 1) as nat);
        assert(code_done(vec_loop(way, k), env, mems, fuel) == code_done(
            vec_loop(way, k),
            e2,
            mems,
            (fuel - 1) as nat,
        ));
    }
}

proof fn lemma_halve(
    way: Fold,
    word: Seq<char>,
    by: nat,
    env: Map<Seq<char>, Val>,
    mems: Seq<Seq<u8>>,
    t: u64,
    fuel: nat,
)
    requires
        by < 64,
        constant("i64.const"@, word) == Some(Val::N(by)),
        env.contains_key("tmp"@),
        env["tmp"@] == Val::N(t as nat),
    ensures
        code_done(halve(way, word), env, mems, fuel) == Some(
            env.insert("tmp"@, Val::N(joined_word(way, t, t >> (by as u64)) as nat)),
        ),
{
    lemma_fold_binary(way, t as nat, by, Seq::empty(), Seq::empty());
    let s = t >> (by as u64);
    assert(term_value(get("tmp"@), env, mems) == Some(Val::N(t as nat)));
    assert(term_value(Term::Lit("i64.const"@, word), env, mems) == Some(Val::N(by)));
    let shr = bin("i64.shr_u"@, get("tmp"@), Term::Lit("i64.const"@, word));
    assert(by % 64 == by);
    assert(term_value(shr, env, mems) == Some(Val::N(s as nat)));
    lemma_fold_binary(way, t as nat, s as nat, Seq::empty(), Seq::empty());
}

proof fn lemma_reduce(
    way: Fold,
    env: Map<Seq<char>, Val>,
    mems: Seq<Seq<u8>>,
    acc: Seq<u8>,
    fuel: nat,
)
    requires
        env.contains_key("acc"@),
        env["acc"@] == Val::V(acc),
        acc.len() == 16,
    ensures
        ({
            let r = code_done(reduce(way), env, mems, fuel);
            &&& r is Some
            &&& exists|t: nat|
                r->0 == #[trigger] env.insert("tmp"@, Val::N(t)).insert(
                    "byte"@,
                    Val::N(folded(way, acc, 0, 16) as nat),
                )
        }),
{
    lemma_locals();
    super::kernel_laws::lemma_variables();
    lemma_fold_constants();
    lemma_reduced(way, acc);
    let x = lane(acc, 8, 0);
    let y = lane(acc, 8, 1);
    lemma_fold_unary(acc, 0);
    lemma_fold_binary(way, x, y, Seq::empty(), Seq::empty());
    assert(term_value(get("acc"@), env, mems) == Some(Val::V(acc)));
    let a = un("i64x2.extract_lane 0"@, get("acc"@));
    let b = un("i64x2.extract_lane 1"@, get("acc"@));
    assert(term_value(a, env, mems) == Some(Val::N(x)));
    assert(term_value(b, env, mems) == Some(Val::N(y)));
    let t0 = joined_word(way, x as u64, y as u64);
    let e0 = env.insert("tmp"@, Val::N(t0 as nat));
    assert(code_done(join_lanes(way), env, mems, fuel) == Some(e0));
    let t1 = joined_word(way, t0, t0 >> 32u64);
    let e1 = env.insert("tmp"@, Val::N(t1 as nat));
    lemma_halve(way, "32"@, 32, e0, mems, t0, fuel);
    assert(e0.insert("tmp"@, Val::N(t1 as nat)) =~= e1);
    let t2 = joined_word(way, t1, t1 >> 16u64);
    let e2 = env.insert("tmp"@, Val::N(t2 as nat));
    lemma_halve(way, "16"@, 16, e1, mems, t1, fuel);
    assert(e1.insert("tmp"@, Val::N(t2 as nat)) =~= e2);
    let t3 = joined_word(way, t2, t2 >> 8u64);
    let e3 = env.insert("tmp"@, Val::N(t3 as nat));
    lemma_halve(way, "8"@, 8, e2, mems, t2, fuel);
    assert(e2.insert("tmp"@, Val::N(t3 as nat)) =~= e3);
    lemma_fold_unary(acc, t3 as nat);
    let low = (t3 as nat % 0x1_0000_0000) as nat;
    assert(term_value(get("tmp"@), e3, mems) == Some(Val::N(t3 as nat)));
    assert(term_value(un("i32.wrap_i64"@, get("tmp"@)), e3, mems) == Some(Val::N(low)));
    lemma_fold_binary(way, low, 0xff, Seq::empty(), Seq::empty());
    assert(((t3 % 0x1_0000_0000u64) as u32 & 0xffu32) as u8 == (t3 & 0xffu64) as u8 && ((t3
        % 0x1_0000_0000u64) as u32 & 0xffu32) <= 0xffu32) by (bit_vector);
    assert(low as u32 == (t3 % 0x1_0000_0000u64) as u32);
    let r = folded(way, acc, 0, 16);
    assert((low as u32 & 0xffu32) as nat == r as nat);
    assert(term_value(Term::Lit("i32.const"@, "0xff"@), e3, mems) == Some(Val::N(0xff)));
    assert(code_done(take_byte(), e3, mems, fuel) == Some(e3.insert("byte"@, Val::N(r as nat))));
    let s1 = both(join_lanes(way), halve(way, "32"@));
    let s2 = both(s1, halve(way, "16"@));
    let s3 = both(s2, halve(way, "8"@));
    assert(code_done(s1, env, mems, fuel) == Some(e1));
    assert(code_done(s2, env, mems, fuel) == Some(e2));
    assert(code_done(s3, env, mems, fuel) == Some(e3));
    assert(code_done(reduce(way), env, mems, fuel) == Some(e3.insert("byte"@, Val::N(r as nat))));
}

proof fn lemma_tail_loop(
    way: Fold,
    k: nat,
    env: Map<Seq<char>, Val>,
    mems: Seq<Seq<u8>>,
    off: nat,
    len: nat,
    c: nat,
    fuel: nat,
)
    requires
        k < mems.len(),
        off < 0x1_0000_0000,
        len < 0x1_0000_0000,
        off + len <= mems[k as int].len(),
        mems[k as int].len() <= 0x1_0000_0000,
        c <= len,
        fuel >= len - c,
        on_the_way(env, off, len, c),
        env.contains_key("byte"@),
        env["byte"@] == Val::N(folded(way, mems[k as int], off as int, c) as nat),
    ensures
        ({
            let r = code_done(tail_loop(way, k), env, mems, fuel);
            &&& r is Some
            &&& (r->0).contains_key("byte"@)
            &&& r->0["byte"@] == Val::N(folded(way, mems[k as int], off as int, len) as nat)
        }),
    decreases len - c,
{
    let m = mems[k as int];
    lemma_reached("end"@, env, mems, off, c, len);
    if c < len {
        lemma_locals();
        super::kernel_laws::lemma_variables();
        lemma_constants();
        let at = address(off, c);
        assert(at == off + c);
        let a = folded(way, m, off as int, c);
        let b = m[at as int];
        lemma_loads(k, at, env, mems);
        lemma_fold_binary(way, a as nat, b as nat, Seq::empty(), Seq::empty());
        lemma_joined(way, a, b, 0, 0);
        assert(term_value(get("byte"@), env, mems) == Some(Val::N(a as nat)));
        let d = folded(way, m, off as int, c + 1);
        assert(d == joined_byte(way, a, b));
        let e1 = env.insert("byte"@, Val::N(d as nat));
        assert(code_done(fold_single(way, k), env, mems, fuel) == Some(e1));
        lemma_step("1"@, 1, e1, mems, at, fuel);
        let e2 = e1.insert("cur"@, Val::N((at + 1) % 0x1_0000_0000));
        assert(address(off, c + 1) == (at + 1) % 0x1_0000_0000);
        let body = both(fold_single(way, k), step_by("1"@));
        assert(code_done(body, env, mems, fuel) == Some(e2));
        lemma_tail_loop(way, k, e2, mems, off, len, c + 1, (fuel - 1) as nat);
        assert(code_done(tail_loop(way, k), env, mems, fuel) == code_done(
            tail_loop(way, k),
            e2,
            mems,
            (fuel - 1) as nat,
        ));
    }
}

/// What the setup leaves behind.
spec fn set_up(way: Fold, e: Map<Seq<char>, Val>, off: nat, len: nat) -> bool {
    &&& on_the_way(e, off, len, 0)
    &&& e.contains_key("off"@) && e["off"@] == Val::N(off)
    &&& e.contains_key("vec_end"@) && e["vec_end"@] == Val::N(address(off, vec_len(len)))
    &&& e.contains_key("acc"@)
    &&& e["acc"@] is V
    &&& e["acc"@]->V_0.len() == 16
    &&& forall|i: int| 0 <= i < 16 ==> #[trigger] e["acc"@]->V_0[i] == unit(way)
    &&& way is And ==> e.contains_key("byte"@) && e["byte"@] == Val::N(0xff)
}

proof fn lemma_setup(
    way: Fold,
    env: Map<Seq<char>, Val>,
    mems: Seq<Seq<u8>>,
    off: nat,
    len: nat,
    fuel: nat,
)
    requires
        off < 0x1_0000_0000,
        len < 0x1_0000_0000,
        env.contains_key("off"@),
        env["off"@] == Val::N(off),
        env.contains_key("len"@),
        env["len"@] == Val::N(len),
    ensures
        code_done(setup(way), env, mems, fuel) is Some,
        set_up(way, code_done(setup(way), env, mems, fuel)->0, off, len),
{
    lemma_locals();
    super::kernel_laws::lemma_variables();
    lemma_fold_constants();
    lemma_constants();
    let e3 = super::kernel_laws::lemma_places(env, mems, off, len, fuel);
    let c = Term::Lit("v128.const"@, start_word(way));
    let z = constant("v128.const"@, start_word(way))->0;
    assert(term_value(c, e3, mems) == Some(z));
    let e4 = e3.insert("acc"@, z);
    assert(code_done(set_acc(way), e3, mems, fuel) == Some(e4));
    assert(code_done(both(places(), set_acc(way)), env, mems, fuel) == Some(e4));
    if way is And {
        assert(term_value(Term::Lit("i32.const"@, "0xff"@), e4, mems) == Some(Val::N(0xff)));
        assert(code_done(set_byte(), e4, mems, fuel) == Some(e4.insert("byte"@, Val::N(0xff))));
    }
}

proof fn lemma_units(way: Fold, v: Seq<u8>, n: nat)
    requires
        forall|i: int| 0 <= i < n ==> #[trigger] v[i] == unit(way),
    ensures
        folded(way, v, 0, n) == unit(way),
    decreases n,
{
    if n > 0 {
        lemma_units(way, v, (n - 1) as nat);
        assert(v[n - 1] == unit(way));
        lemma_joined(way, unit(way), 0, 0, 0);
    }
}

proof fn lemma_kernel(way: Fold, stem: Seq<char>, k: nat, mems: Seq<Seq<u8>>, off: nat, len: nat)
    requires
        k < mems.len(),
        off < 0x1_0000_0000,
        len < 0x1_0000_0000,
        off + len <= mems[k as int].len(),
        mems[k as int].len() <= 0x1_0000_0000,
    ensures
        ran(kernel(way, stem, k), args2(off, len), mems, len) == Some(
            Val::N(folded(way, mems[k as int], off as int, len) as nat),
        ),
{
    let f = kernel(way, stem, k);
    let m = mems[k as int];
    let args = args2(off, len);
    lemma_locals();
    super::kernel_laws::lemma_variables();
    reveal_with_fuel(bound_params, 3);
    reveal_with_fuel(entered, 7);
    let env = entered(f, args, 6);
    assert(env.contains_key("off"@) && env["off"@] == Val::N(off));
    assert(env.contains_key("len"@) && env["len"@] == Val::N(len));
    lemma_setup(way, env, mems, off, len, len);
    let e1 = code_done(setup(way), env, mems, len)->0;
    let z = e1["acc"@]->V_0;
    lemma_units(way, z, 16);
    lemma_vec_loop(way, k, e1, mems, off, len, 0, z, len);
    let e2 = code_done(vec_loop(way, k), e1, mems, len)->0;
    let acc = e2["acc"@]->V_0;
    let v = vec_len(len);
    assert(e2.contains_key("off"@) && e2["off"@] == Val::N(off));
    assert(e2.contains_key("vec_end"@) && e2["vec_end"@] == Val::N(address(off, v)));
    if way is And {
        assert(e1.contains_key("byte"@) && e1["byte"@] == Val::N(0xff));
        assert("byte"@ != "cur"@);
        assert("byte"@ != "acc"@);
        assert(e2.contains_key("byte"@));
        assert(e2["byte"@] == e1["byte"@]);
    }
    lemma_reduce(way, e2, mems, acc, len);
    lemma_fold_binary(way, address(off, v), off, Seq::empty(), Seq::empty());
    assert(term_value(get("vec_end"@), e2, mems) == Some(Val::N(address(off, v))));
    assert(term_value(get("off"@), e2, mems) == Some(Val::N(off)));
    assert(term_value(any_vec(), e2, mems) == Some(
        Val::N(
            if address(off, v) != off {
                1
            } else {
                0
            },
        ),
    ));
    assert(address(off, v) == off <==> v == 0);
    let e3 = code_done(reduce_any(way), e2, mems, len)->0;
    assert(code_done(reduce_any(way), e2, mems, len) is Some);
    assert(on_the_way(e3, off, len, v));
    assert(e3.contains_key("byte"@) && e3["byte"@] == Val::N(
        folded(way, m, off as int, v) as nat,
    ));
    lemma_tail_loop(way, k, e3, mems, off, len, v, len);
    assert(code_done(both(setup(way), vec_loop(way, k)), env, mems, len) == Some(e2));
    assert(code_done(both(both(setup(way), vec_loop(way, k)), reduce_any(way)), env, mems, len)
        == Some(e3));
}

// ---------------------------------------------------------------------------
// Their texts
// ---------------------------------------------------------------------------

/// How a condition begins, up to white space.
pub open spec fn if_text(c: Term) -> Seq<char> {
    squeezed("(if "@) + squeezed(term_text(c)) + squeezed(" (then "@)
}

pub(crate) proof fn lemma_then_word()
    ensures
        squeezed(" (then "@) == squeezed(" (then"@),
{
    broadcast use {lemma_squeezed_add, lemma_add_nothing};

    lemma_blank_literals();
    reveal_strlit(" (then ");
    reveal_strlit(" (then");
    reveal_strlit(" ");
    assert(" (then "@ =~= " (then"@ + " "@);
}

pub(crate) proof fn lemma_when_text(c: Term, s: Code)
    ensures
        squeezed(code_text(Code::When(c, Box::new(s)))) == if_text(c) + squeezed(code_text(s)) + (
        squeezed(")"@) + squeezed(")"@)),
{
    broadcast use lemma_squeezed_add;

    let h = if_text(c) + squeezed(code_text(s));
    let e = squeezed(")"@);
    assert(h + e + e =~= h + (e + e));
}

proof fn lemma_head_text(way: Fold, stem: Seq<char>, k: nat)
    ensures
        ({
            let f = kernel(way, stem, k);
            &&& squeezed(f.name) == squeezed(stem) + squeezed(decimal(k))
            &&& squeezed(declared_text("param"@, f.params, f.params.len() as int)) == declared_word("param"@, "off"@, "i32"@) + declared_word("param"@, "len"@, "i32"@)
            &&& squeezed(declared_text("local"@, f.locals, f.locals.len() as int)) == declared_word("local"@, "cur"@, "i32"@) + declared_word("local"@, "end"@, "i32"@) + declared_word("local"@, "vec_end"@, "i32"@) + declared_word("local"@, "acc"@, "v128"@) + declared_word("local"@, "tmp"@, "i64"@) + declared_word("local"@, "byte"@, "i32"@)
        }),
{
    broadcast use {lemma_squeezed_add, lemma_nothing_add};

    let f = kernel(way, stem, k);
    lemma_declared("param"@, f.params, 1);
    lemma_declared("param"@, f.params, 2);
    lemma_declared("local"@, f.locals, 1);
    lemma_declared("local"@, f.locals, 2);
    lemma_declared("local"@, f.locals, 3);
    lemma_declared("local"@, f.locals, 4);
    lemma_declared("local"@, f.locals, 5);
    lemma_declared("local"@, f.locals, 6);
    assert(squeezed(declared_text("param"@, f.params, 0)) == Seq::<char>::empty());
    assert(squeezed(declared_text("local"@, f.locals, 0)) == Seq::<char>::empty());
}

spec fn reduce_text(way: Fold) -> Seq<char> {
    squeezed(code_text(join_lanes(way))) + squeezed(code_text(halve(way, "32"@))) + squeezed(
        code_text(halve(way, "16"@)),
    ) + squeezed(code_text(halve(way, "8"@))) + squeezed(code_text(take_byte()))
}

proof fn lemma_fold_text(way: Fold, stem: Seq<char>, k: nat)
    ensures
        ({
            let set = squeezed(code_text(set_cur())) + squeezed(code_text(set_end())) + squeezed(
                code_text(set_vec_end()),
            ) + squeezed(code_text(set_acc(way)));
            let vec = opening_text(
                "vec_done"@,
                "vec_continue"@,
                bin("i32.eq"@, get("cur"@), get("vec_end"@)),
            ) + (squeezed(code_text(fold_vec(way, k))) + squeezed(code_text(step_by("16"@))))
                + closing_text("vec_continue"@);
            let tail = opening_text(
                "tail_done"@,
                "tail_continue"@,
                bin("i32.eq"@, get("cur"@), get("end"@)),
            ) + (squeezed(code_text(fold_single(way, k))) + squeezed(code_text(step_by("1"@))))
                + closing_text("tail_continue"@);
            squeezed(kernel_text(kernel(way, stem, k))) == head_text(kernel(way, stem, k)) + (
            match way {
                Fold::And => set + squeezed(code_text(set_byte())) + vec + (if_text(any_vec())
                    + reduce_text(way) + (squeezed(")"@) + squeezed(")"@))) + tail,
                _ => set + vec + reduce_text(way) + tail,
            }) + squeezed(term_text(get("byte"@))) + squeezed(")"@)
        }),
{
    broadcast use lemma_squeezed_add;

    let vec_cond = bin("i32.eq"@, get("cur"@), get("vec_end"@));
    let tail_cond = bin("i32.eq"@, get("cur"@), get("end"@));
    lemma_both_text(set_cur(), set_end());
    lemma_both_text(both(set_cur(), set_end()), set_vec_end());
    lemma_both_text(places(), set_acc(way));
    lemma_both_text(both(places(), set_acc(way)), set_byte());
    let body = both(fold_vec(way, k), step_by("16"@));
    lemma_both_text(fold_vec(way, k), step_by("16"@));
    lemma_until_text("vec_done"@, "vec_continue"@, vec_cond, body);
    let s1 = both(join_lanes(way), halve(way, "32"@));
    let s2 = both(s1, halve(way, "16"@));
    let s3 = both(s2, halve(way, "8"@));
    lemma_both_text(join_lanes(way), halve(way, "32"@));
    lemma_both_text(s1, halve(way, "16"@));
    lemma_both_text(s2, halve(way, "8"@));
    lemma_both_text(s3, take_byte());
    lemma_when_text(any_vec(), reduce(way));
    let single = both(fold_single(way, k), step_by("1"@));
    lemma_both_text(fold_single(way, k), step_by("1"@));
    lemma_until_text("tail_done"@, "tail_continue"@, tail_cond, single);
    lemma_both_text(setup(way), vec_loop(way, k));
    lemma_both_text(both(setup(way), vec_loop(way, k)), reduce_any(way));
    lemma_both_text(both(both(setup(way), vec_loop(way, k)), reduce_any(way)), tail_loop(way, k));
}

proof fn lemma_plain_words_0(k: nat)
    ensures
        fill("  "@, k) == "  "@,
        fill("(func $"@, k) == "(func $"@,
        fill("tvm_simd_xor_fold_u8_p"@, k) == "tvm_simd_xor_fold_u8_p"@,
        fill(" (export \""@, k) == " (export \""@,
        fill("\")"@, k) == "\")"@,
        fill("\n"@, k) == "\n"@,
        fill("("@, k) == "("@,
        fill("param"@, k) == "param"@,
        fill(" $"@, k) == " $"@,
        fill("off"@, k) == "off"@,
        fill(" "@, k) == " "@,
        fill("i32"@, k) == "i32"@,
        fill(")"@, k) == ")"@,
        fill("len"@, k) == "len"@,
{
    reveal_strlit("  ");
    lemma_fill_plain("  "@, k);
    reveal_strlit("(func $");
    lemma_fill_plain("(func $"@, k);
    reveal_strlit("tvm_simd_xor_fold_u8_p");
    lemma_fill_plain("tvm_simd_xor_fold_u8_p"@, k);
    reveal_strlit(" (export \"");
    lemma_fill_plain(" (export \""@, k);
    reveal_strlit("\")");
    lemma_fill_plain("\")"@, k);
    reveal_strlit("\n");
    lemma_fill_plain("\n"@, k);
    reveal_strlit("(");
    lemma_fill_plain("("@, k);
    reveal_strlit("param");
    lemma_fill_plain("param"@, k);
    reveal_strlit(" $");
    lemma_fill_plain(" $"@, k);
    reveal_strlit("off");
    lemma_fill_plain("off"@, k);
    reveal_strlit(" ");
    lemma_fill_plain(" "@, k);
    reveal_strlit("i32");
    lemma_fill_plain("i32"@, k);
    reveal_strlit(")");
    lemma_fill_plain(")"@, k);
    reveal_strlit("len");
    lemma_fill_plain("len"@, k);
}

proof fn lemma_plain_words_1(k: nat)
    ensures
        fill("(result "@, k) == "(result "@,
        fill("local"@, k) == "local"@,
        fill("cur"@, k) == "cur"@,
        fill("end"@, k) == "end"@,
        fill("vec_end"@, k) == "vec_end"@,
        fill("acc"@, k) == "acc"@,
        fill("v128"@, k) == "v128"@,
        fill("tmp"@, k) == "tmp"@,
        fill("i64"@, k) == "i64"@,
        fill("byte"@, k) == "byte"@,
        fill("(local.set $"@, k) == "(local.set $"@,
        fill("(local.get $"@, k) == "(local.get $"@,
        fill("i32.add"@, k) == "i32.add"@,
        fill("i32.and"@, k) == "i32.and"@,
{
    reveal_strlit("(result ");
    lemma_fill_plain("(result "@, k);
    reveal_strlit("local");
    lemma_fill_plain("local"@, k);
    reveal_strlit("cur");
    lemma_fill_plain("cur"@, k);
    reveal_strlit("end");
    lemma_fill_plain("end"@, k);
    reveal_strlit("vec_end");
    lemma_fill_plain("vec_end"@, k);
    reveal_strlit("acc");
    lemma_fill_plain("acc"@, k);
    reveal_strlit("v128");
    lemma_fill_plain("v128"@, k);
    reveal_strlit("tmp");
    lemma_fill_plain("tmp"@, k);
    reveal_strlit("i64");
    lemma_fill_plain("i64"@, k);
    reveal_strlit("byte");
    lemma_fill_plain("byte"@, k);
    reveal_strlit("(local.set $");
    lemma_fill_plain("(local.set $"@, k);
    reveal_strlit("(local.get $");
    lemma_fill_plain("(local.get $"@, k);
    reveal_strlit("i32.add");
    lemma_fill_plain("i32.add"@, k);
    reveal_strlit("i32.and");
    lemma_fill_plain("i32.and"@, k);
}

proof fn lemma_plain_words_2(k: nat)
    ensures
        fill("i32.const"@, k) == "i32.const"@,
        fill("-16"@, k) == "-16"@,
        fill("v128.const"@, k) == "v128.const"@,
        fill("i64x2 0 0"@, k) == "i64x2 0 0"@,
        fill("(block $"@, k) == "(block $"@,
        fill("vec_done"@, k) == "vec_done"@,
        fill(" (loop $"@, k) == " (loop $"@,
        fill("vec_continue"@, k) == "vec_continue"@,
        fill(" (br_if $"@, k) == " (br_if $"@,
        fill("i32.eq"@, k) == "i32.eq"@,
        fill("v128.xor"@, k) == "v128.xor"@,
        fill("v128.load"@, k) == "v128.load"@,
        fill("16"@, k) == "16"@,
        fill("(br $"@, k) == "(br $"@,
{
    reveal_strlit("i32.const");
    lemma_fill_plain("i32.const"@, k);
    reveal_strlit("-16");
    lemma_fill_plain("-16"@, k);
    reveal_strlit("v128.const");
    lemma_fill_plain("v128.const"@, k);
    reveal_strlit("i64x2 0 0");
    lemma_fill_plain("i64x2 0 0"@, k);
    reveal_strlit("(block $");
    lemma_fill_plain("(block $"@, k);
    reveal_strlit("vec_done");
    lemma_fill_plain("vec_done"@, k);
    reveal_strlit(" (loop $");
    lemma_fill_plain(" (loop $"@, k);
    reveal_strlit("vec_continue");
    lemma_fill_plain("vec_continue"@, k);
    reveal_strlit(" (br_if $");
    lemma_fill_plain(" (br_if $"@, k);
    reveal_strlit("i32.eq");
    lemma_fill_plain("i32.eq"@, k);
    reveal_strlit("v128.xor");
    lemma_fill_plain("v128.xor"@, k);
    reveal_strlit("v128.load");
    lemma_fill_plain("v128.load"@, k);
    reveal_strlit("16");
    lemma_fill_plain("16"@, k);
    reveal_strlit("(br $");
    lemma_fill_plain("(br $"@, k);
}

proof fn lemma_plain_words_3(k: nat)
    ensures
        fill("i64.xor"@, k) == "i64.xor"@,
        fill("i64x2.extract_lane 0"@, k) == "i64x2.extract_lane 0"@,
        fill("i64x2.extract_lane 1"@, k) == "i64x2.extract_lane 1"@,
        fill("i64.shr_u"@, k) == "i64.shr_u"@,
        fill("i64.const"@, k) == "i64.const"@,
        fill("32"@, k) == "32"@,
        fill("8"@, k) == "8"@,
        fill("i32.wrap_i64"@, k) == "i32.wrap_i64"@,
        fill("0xff"@, k) == "0xff"@,
        fill("tail_done"@, k) == "tail_done"@,
        fill("tail_continue"@, k) == "tail_continue"@,
        fill("i32.xor"@, k) == "i32.xor"@,
        fill("i32.load8_u"@, k) == "i32.load8_u"@,
        fill("1"@, k) == "1"@,
{
    reveal_strlit("i64.xor");
    lemma_fill_plain("i64.xor"@, k);
    reveal_strlit("i64x2.extract_lane 0");
    lemma_fill_plain("i64x2.extract_lane 0"@, k);
    reveal_strlit("i64x2.extract_lane 1");
    lemma_fill_plain("i64x2.extract_lane 1"@, k);
    reveal_strlit("i64.shr_u");
    lemma_fill_plain("i64.shr_u"@, k);
    reveal_strlit("i64.const");
    lemma_fill_plain("i64.const"@, k);
    reveal_strlit("32");
    lemma_fill_plain("32"@, k);
    reveal_strlit("8");
    lemma_fill_plain("8"@, k);
    reveal_strlit("i32.wrap_i64");
    lemma_fill_plain("i32.wrap_i64"@, k);
    reveal_strlit("0xff");
    lemma_fill_plain("0xff"@, k);
    reveal_strlit("tail_done");
    lemma_fill_plain("tail_done"@, k);
    reveal_strlit("tail_continue");
    lemma_fill_plain("tail_continue"@, k);
    reveal_strlit("i32.xor");
    lemma_fill_plain("i32.xor"@, k);
    reveal_strlit("i32.load8_u");
    lemma_fill_plain("i32.load8_u"@, k);
    reveal_strlit("1");
    lemma_fill_plain("1"@, k);
}

proof fn lemma_plain_words_4(k: nat)
    ensures
        fill("tvm_simd_or_fold_u8_p"@, k) == "tvm_simd_or_fold_u8_p"@,
        fill("v128.or"@, k) == "v128.or"@,
        fill("i64.or"@, k) == "i64.or"@,
        fill("i32.or"@, k) == "i32.or"@,
        fill("tvm_simd_and_fold_u8_p"@, k) == "tvm_simd_and_fold_u8_p"@,
        fill("i64x2 -1 -1"@, k) == "i64x2 -1 -1"@,
        fill("v128.and"@, k) == "v128.and"@,
        fill("(if "@, k) == "(if "@,
        fill("i32.ne"@, k) == "i32.ne"@,
        fill(" (then"@, k) == " (then"@,
        fill("i64.and"@, k) == "i64.and"@,
{
    reveal_strlit("tvm_simd_or_fold_u8_p");
    lemma_fill_plain("tvm_simd_or_fold_u8_p"@, k);
    reveal_strlit("v128.or");
    lemma_fill_plain("v128.or"@, k);
    reveal_strlit("i64.or");
    lemma_fill_plain("i64.or"@, k);
    reveal_strlit("i32.or");
    lemma_fill_plain("i32.or"@, k);
    reveal_strlit("tvm_simd_and_fold_u8_p");
    lemma_fill_plain("tvm_simd_and_fold_u8_p"@, k);
    reveal_strlit("i64x2 -1 -1");
    lemma_fill_plain("i64x2 -1 -1"@, k);
    reveal_strlit("v128.and");
    lemma_fill_plain("v128.and"@, k);
    reveal_strlit("(if ");
    lemma_fill_plain("(if "@, k);
    reveal_strlit("i32.ne");
    lemma_fill_plain("i32.ne"@, k);
    reveal_strlit(" (then");
    lemma_fill_plain(" (then"@, k);
    reveal_strlit("i64.and");
    lemma_fill_plain("i64.and"@, k);
}

/// The words of the kernels have no place for a number.
proof fn lemma_plain_words(k: nat)
    ensures
        fill("  "@, k) == "  "@,
        fill("(func $"@, k) == "(func $"@,
        fill("tvm_simd_xor_fold_u8_p"@, k) == "tvm_simd_xor_fold_u8_p"@,
        fill(" (export \""@, k) == " (export \""@,
        fill("\")"@, k) == "\")"@,
        fill("\n"@, k) == "\n"@,
        fill("("@, k) == "("@,
        fill("param"@, k) == "param"@,
        fill(" $"@, k) == " $"@,
        fill("off"@, k) == "off"@,
        fill(" "@, k) == " "@,
        fill("i32"@, k) == "i32"@,
        fill(")"@, k) == ")"@,
        fill("len"@, k) == "len"@,
        fill("(result "@, k) == "(result "@,
        fill("local"@, k) == "local"@,
        fill("cur"@, k) == "cur"@,
        fill("end"@, k) == "end"@,
        fill("vec_end"@, k) == "vec_end"@,
        fill("acc"@, k) == "acc"@,
        fill("v128"@, k) == "v128"@,
        fill("tmp"@, k) == "tmp"@,
        fill("i64"@, k) == "i64"@,
        fill("byte"@, k) == "byte"@,
        fill("(local.set $"@, k) == "(local.set $"@,
        fill("(local.get $"@, k) == "(local.get $"@,
        fill("i32.add"@, k) == "i32.add"@,
        fill("i32.and"@, k) == "i32.and"@,
        fill("i32.const"@, k) == "i32.const"@,
        fill("-16"@, k) == "-16"@,
        fill("v128.const"@, k) == "v128.const"@,
        fill("i64x2 0 0"@, k) == "i64x2 0 0"@,
        fill("(block $"@, k) == "(block $"@,
        fill("vec_done"@, k) == "vec_done"@,
        fill(" (loop $"@, k) == " (loop $"@,
        fill("vec_continue"@, k) == "vec_continue"@,
        fill(" (br_if $"@, k) == " (br_if $"@,
        fill("i32.eq"@, k) == "i32.eq"@,
        fill("v128.xor"@, k) == "v128.xor"@,
        fill("v128.load"@, k) == "v128.load"@,
        fill("16"@, k) == "16"@,
        fill("(br $"@, k) == "(br $"@,
        fill("i64.xor"@, k) == "i64.xor"@,
        fill("i64x2.extract_lane 0"@, k) == "i64x2.extract_lane 0"@,
        fill("i64x2.extract_lane 1"@, k) == "i64x2.extract_lane 1"@,
        fill("i64.shr_u"@, k) == "i64.shr_u"@,
        fill("i64.const"@, k) == "i64.const"@,
        fill("32"@, k) == "32"@,
        fill("8"@, k) == "8"@,
        fill("i32.wrap_i64"@, k) == "i32.wrap_i64"@,
        fill("0xff"@, k) == "0xff"@,
        fill("tail_done"@, k) == "tail_done"@,
        fill("tail_continue"@, k) == "tail_continue"@,
        fill("i32.xor"@, k) == "i32.xor"@,
        fill("i32.load8_u"@, k) == "i32.load8_u"@,
        fill("1"@, k) == "1"@,
        fill("tvm_simd_or_fold_u8_p"@, k) == "tvm_simd_or_fold_u8_p"@,
        fill("v128.or"@, k) == "v128.or"@,
        fill("i64.or"@, k) == "i64.or"@,
        fill("i32.or"@, k) == "i32.or"@,
        fill("tvm_simd_and_fold_u8_p"@, k) == "tvm_simd_and_fold_u8_p"@,
        fill("i64x2 -1 -1"@, k) == "i64x2 -1 -1"@,
        fill("v128.and"@, k) == "v128.and"@,
        fill("(if "@, k) == "(if "@,
        fill("i32.ne"@, k) == "i32.ne"@,
        fill(" (then"@, k) == " (then"@,
        fill("i64.and"@, k) == "i64.and"@,
{
    lemma_plain_words_0(k);
    lemma_plain_words_1(k);
    lemma_plain_words_2(k);
    lemma_plain_words_3(k);
    lemma_plain_words_4(k);
}

proof fn lemma_xor_head_words()
    ensures
        "  (func $tvm_simd_xor_fold_u8_p@ (export \"tvm_simd_xor_fold_u8_p@\")\n        (param $off i32) (param $len i32) (result i32)\n    (local $cur i32) (local $end i32) (local $vec_end i32)\n    (local $acc v128) (local $tmp i64) (local $byte i32)\n"@ == ("  "@ + "(func $"@) + ("tvm_simd_xor_fold_u8_p"@ + "@"@) + " (export \""@
        + ("tvm_simd_xor_fold_u8_p"@ + "@"@) + "\")"@ + (((("\n"@ + "  "@ + "  "@ + "  "@ + "  "@)
        + "("@) + "param"@ + " $"@ + "off"@ + " "@ + "i32"@ + ")"@) + ((" "@ + "("@) + "param"@
        + " $"@ + "len"@ + " "@ + "i32"@ + ")"@)) + (" "@ + "(result "@) + "i32"@ + ")"@
        + (((((((("\n"@ + "  "@ + "  "@) + "("@) + "local"@ + " $"@ + "cur"@ + " "@ + "i32"@
        + ")"@) + ((" "@ + "("@) + "local"@ + " $"@ + "end"@ + " "@ + "i32"@ + ")"@)) + ((" "@
        + "("@) + "local"@ + " $"@ + "vec_end"@ + " "@ + "i32"@ + ")"@)) + ((("\n"@ + "  "@
        + "  "@) + "("@) + "local"@ + " $"@ + "acc"@ + " "@ + "v128"@ + ")"@)) + ((" "@ + "("@)
        + "local"@ + " $"@ + "tmp"@ + " "@ + "i64"@ + ")"@)) + ((" "@ + "("@) + "local"@ + " $"@
        + "byte"@ + " "@ + "i32"@ + ")"@)) + "\n"@,
{
    reveal_strlit("  (func $tvm_simd_xor_fold_u8_p@ (export \"tvm_simd_xor_fold_u8_p@\")\n        (param $off i32) (param $len i32) (result i32)\n    (local $cur i32) (local $end i32) (local $vec_end i32)\n    (local $acc v128) (local $tmp i64) (local $byte i32)\n");
    reveal_strlit("  ");
    reveal_strlit("(func $");
    reveal_strlit("tvm_simd_xor_fold_u8_p");
    reveal_strlit("@");
    reveal_strlit(" (export \"");
    reveal_strlit("\")");
    reveal_strlit("\n");
    reveal_strlit("(");
    reveal_strlit("param");
    reveal_strlit(" $");
    reveal_strlit("off");
    reveal_strlit(" ");
    reveal_strlit("i32");
    reveal_strlit(")");
    reveal_strlit("len");
    reveal_strlit("(result ");
    reveal_strlit("local");
    reveal_strlit("cur");
    reveal_strlit("end");
    reveal_strlit("vec_end");
    reveal_strlit("acc");
    reveal_strlit("v128");
    reveal_strlit("tmp");
    reveal_strlit("i64");
    reveal_strlit("byte");
    assert("  (func $tvm_simd_xor_fold_u8_p@ (export \"tvm_simd_xor_fold_u8_p@\")\n        (param $off i32) (param $len i32) (result i32)\n    (local $cur i32) (local $end i32) (local $vec_end i32)\n    (local $acc v128) (local $tmp i64) (local $byte i32)\n"@ =~= ("  "@ + "(func $"@) + ("tvm_simd_xor_fold_u8_p"@ + "@"@) + " (export \""@
        + ("tvm_simd_xor_fold_u8_p"@ + "@"@) + "\")"@ + (((("\n"@ + "  "@ + "  "@ + "  "@ + "  "@)
        + "("@) + "param"@ + " $"@ + "off"@ + " "@ + "i32"@ + ")"@) + ((" "@ + "("@) + "param"@
        + " $"@ + "len"@ + " "@ + "i32"@ + ")"@)) + (" "@ + "(result "@) + "i32"@ + ")"@
        + (((((((("\n"@ + "  "@ + "  "@) + "("@) + "local"@ + " $"@ + "cur"@ + " "@ + "i32"@
        + ")"@) + ((" "@ + "("@) + "local"@ + " $"@ + "end"@ + " "@ + "i32"@ + ")"@)) + ((" "@
        + "("@) + "local"@ + " $"@ + "vec_end"@ + " "@ + "i32"@ + ")"@)) + ((("\n"@ + "  "@
        + "  "@) + "("@) + "local"@ + " $"@ + "acc"@ + " "@ + "v128"@ + ")"@)) + ((" "@ + "("@)
        + "local"@ + " $"@ + "tmp"@ + " "@ + "i64"@ + ")"@)) + ((" "@ + "("@) + "local"@ + " $"@
        + "byte"@ + " "@ + "i32"@ + ")"@)) + "\n"@);
}

proof fn lemma_xor_head_filled(k: nat)
    ensures
        fill("  (func $tvm_simd_xor_fold_u8_p@ (export \"tvm_simd_xor_fold_u8_p@\")\n        (param $off i32) (param $len i32) (result i32)\n    (local $cur i32) (local $end i32) (local $vec_end i32)\n    (local $acc v128) (local $tmp i64) (local $byte i32)\n"@, k) == ("  "@ + "(func $"@) + ("tvm_simd_xor_fold_u8_p"@ + decimal(k)) + " (export \""@
        + ("tvm_simd_xor_fold_u8_p"@ + decimal(k)) + "\")"@ + (((("\n"@ + "  "@ + "  "@ + "  "@
        + "  "@) + "("@) + "param"@ + " $"@ + "off"@ + " "@ + "i32"@ + ")"@) + ((" "@ + "("@)
        + "param"@ + " $"@ + "len"@ + " "@ + "i32"@ + ")"@)) + (" "@ + "(result "@) + "i32"@
        + ")"@ + (((((((("\n"@ + "  "@ + "  "@) + "("@) + "local"@ + " $"@ + "cur"@ + " "@
        + "i32"@ + ")"@) + ((" "@ + "("@) + "local"@ + " $"@ + "end"@ + " "@ + "i32"@ + ")"@))
        + ((" "@ + "("@) + "local"@ + " $"@ + "vec_end"@ + " "@ + "i32"@ + ")"@)) + ((("\n"@
        + "  "@ + "  "@) + "("@) + "local"@ + " $"@ + "acc"@ + " "@ + "v128"@ + ")"@)) + ((" "@
        + "("@) + "local"@ + " $"@ + "tmp"@ + " "@ + "i64"@ + ")"@)) + ((" "@ + "("@) + "local"@
        + " $"@ + "byte"@ + " "@ + "i32"@ + ")"@)) + "\n"@,
{
    broadcast use lemma_fill_add;

    lemma_xor_head_words();
    lemma_plain_words(k);
    lemma_fill_place(k);
}

proof fn lemma_xor_head(k: nat)
    ensures
        squeezed(fill("  (func $tvm_simd_xor_fold_u8_p@ (export \"tvm_simd_xor_fold_u8_p@\")\n        (param $off i32) (param $len i32) (result i32)\n    (local $cur i32) (local $end i32) (local $vec_end i32)\n    (local $acc v128) (local $tmp i64) (local $byte i32)\n"@, k)) == head_text(kernel(Fold::Xor, "tvm_simd_xor_fold_u8_p"@, k)),
{
    broadcast use {lemma_squeezed_add, lemma_add_nothing, lemma_nothing_add};

    lemma_blank_literals();
    lemma_xor_head_filled(k);
    lemma_head_text(Fold::Xor, "tvm_simd_xor_fold_u8_p"@, k);
}

proof fn lemma_xor_cur_text(k: nat)
    ensures
        squeezed(code_text(set_cur())) == squeezed("(local.set $"@) + squeezed("cur"@) + (squeezed("(local.get $"@)
        + squeezed("off"@) + squeezed(")"@)) + squeezed(")"@),
{
    lemma_get_text("off"@);
    lemma_assign_text("cur"@, get("off"@));
    assert(set_cur() == Code::Assign("cur"@, get("off"@)));
}

proof fn lemma_xor_cur_words()
    ensures
        "    (local.set $cur (local.get $off))\n"@ == (("  "@ + "  "@) + "(local.set $"@ + "cur"@ + " "@ + ("(local.get $"@ + "off"@ + ")"@)
        + ")"@) + "\n"@,
{
    reveal_strlit("    (local.set $cur (local.get $off))\n");
    reveal_strlit("  ");
    reveal_strlit("(local.set $");
    reveal_strlit("cur");
    reveal_strlit(" ");
    reveal_strlit("(local.get $");
    reveal_strlit("off");
    reveal_strlit(")");
    reveal_strlit("\n");
    assert("    (local.set $cur (local.get $off))\n"@ =~= (("  "@ + "  "@) + "(local.set $"@ + "cur"@ + " "@ + ("(local.get $"@ + "off"@ + ")"@)
        + ")"@) + "\n"@);
}

proof fn lemma_xor_cur_filled(k: nat)
    ensures
        fill("    (local.set $cur (local.get $off))\n"@, k) == (("  "@ + "  "@) + "(local.set $"@ + "cur"@ + " "@ + ("(local.get $"@ + "off"@ + ")"@)
        + ")"@) + "\n"@,
{
    broadcast use lemma_fill_add;

    lemma_xor_cur_words();
    lemma_plain_words(k);
}

proof fn lemma_xor_cur(k: nat)
    ensures
        squeezed(fill("    (local.set $cur (local.get $off))\n"@, k)) == squeezed(code_text(set_cur())),
{
    broadcast use {lemma_squeezed_add, lemma_add_nothing, lemma_nothing_add};

    lemma_blank_literals();
    lemma_xor_cur_filled(k);
    lemma_xor_cur_text(k);
}

proof fn lemma_xor_end_text(k: nat)
    ensures
        squeezed(code_text(set_end())) == squeezed("(local.set $"@) + squeezed("end"@) + (squeezed("("@) + squeezed("i32.add"@)
        + (squeezed("(local.get $"@) + squeezed("off"@) + squeezed(")"@))
        + (squeezed("(local.get $"@) + squeezed("len"@) + squeezed(")"@)) + squeezed(")"@))
        + squeezed(")"@),
{
    lemma_get_text("off"@);
    lemma_get_text("len"@);
    lemma_bin_text("i32.add"@, get("off"@), get("len"@));
    lemma_assign_text("end"@, bin("i32.add"@, get("off"@), get("len"@)));
    assert(set_end() == Code::Assign("end"@, bin("i32.add"@, get("off"@), get("len"@))));
}

proof fn lemma_xor_end_words()
    ensures
        "    (local.set $end (i32.add (local.get $off) (local.get $len)))\n"@ == (("  "@ + "  "@) + "(local.set $"@ + "end"@ + " "@ + ("("@ + "i32.add"@ + " "@
        + ("(local.get $"@ + "off"@ + ")"@) + " "@ + ("(local.get $"@ + "len"@ + ")"@) + ")"@)
        + ")"@) + "\n"@,
{
    reveal_strlit("    (local.set $end (i32.add (local.get $off) (local.get $len)))\n");
    reveal_strlit("  ");
    reveal_strlit("(local.set $");
    reveal_strlit("end");
    reveal_strlit(" ");
    reveal_strlit("(");
    reveal_strlit("i32.add");
    reveal_strlit("(local.get $");
    reveal_strlit("off");
    reveal_strlit(")");
    reveal_strlit("len");
    reveal_strlit("\n");
    assert("    (local.set $end (i32.add (local.get $off) (local.get $len)))\n"@ =~= (("  "@ + "  "@) + "(local.set $"@ + "end"@ + " "@ + ("("@ + "i32.add"@ + " "@
        + ("(local.get $"@ + "off"@ + ")"@) + " "@ + ("(local.get $"@ + "len"@ + ")"@) + ")"@)
        + ")"@) + "\n"@);
}

proof fn lemma_xor_end_filled(k: nat)
    ensures
        fill("    (local.set $end (i32.add (local.get $off) (local.get $len)))\n"@, k) == (("  "@ + "  "@) + "(local.set $"@ + "end"@ + " "@ + ("("@ + "i32.add"@ + " "@
        + ("(local.get $"@ + "off"@ + ")"@) + " "@ + ("(local.get $"@ + "len"@ + ")"@) + ")"@)
        + ")"@) + "\n"@,
{
    broadcast use lemma_fill_add;

    lemma_xor_end_words();
    lemma_plain_words(k);
}

proof fn lemma_xor_end(k: nat)
    ensures
        squeezed(fill("    (local.set $end (i32.add (local.get $off) (local.get $len)))\n"@, k)) == squeezed(code_text(set_end())),
{
    broadcast use {lemma_squeezed_add, lemma_add_nothing, lemma_nothing_add};

    lemma_blank_literals();
    lemma_xor_end_filled(k);
    lemma_xor_end_text(k);
}

proof fn lemma_xor_vec_end_text(k: nat)
    ensures
        squeezed(code_text(set_vec_end())) == squeezed("(local.set $"@) + squeezed("vec_end"@) + (squeezed("("@) + squeezed("i32.add"@)
        + (squeezed("(local.get $"@) + squeezed("off"@) + squeezed(")"@)) + (squeezed("("@)
        + squeezed("i32.and"@) + (squeezed("(local.get $"@) + squeezed("len"@) + squeezed(")"@))
        + (squeezed("("@) + squeezed("i32.const"@) + squeezed("-16"@) + squeezed(")"@))
        + squeezed(")"@)) + squeezed(")"@)) + squeezed(")"@),
{
    lemma_get_text("off"@);
    lemma_get_text("len"@);
    lemma_lit_text("i32.const"@, "-16"@);
    lemma_bin_text("i32.and"@, get("len"@), Term::Lit("i32.const"@, "-16"@));
    lemma_bin_text("i32.add"@, get("off"@), bin("i32.and"@, get("len"@), Term::Lit("i32.const"@, "-16"@)));
    lemma_assign_text("vec_end"@, bin("i32.add"@, get("off"@), bin("i32.and"@, get("len"@), Term::Lit("i32.const"@, "-16"@))));
    assert(set_vec_end() == Code::Assign("vec_end"@, bin("i32.add"@, get("off"@), bin("i32.and"@, get("len"@), Term::Lit("i32.const"@, "-16"@)))));
}

proof fn lemma_xor_vec_end_words()
    ensures
        "    (local.set $vec_end\n      (i32.add (local.get $off)\n               (i32.and (local.get $len) (i32.const -16))))\n"@ == (("  "@ + "  "@) + "(local.set $"@ + "vec_end"@ + ("\n"@ + "  "@ + "  "@ + "  "@) + ("("@
        + "i32.add"@ + " "@ + ("(local.get $"@ + "off"@ + ")"@) + ("\n"@ + "  "@ + "  "@ + "  "@
        + "  "@ + "  "@ + "  "@ + "  "@ + " "@) + ("("@ + "i32.and"@ + " "@ + ("(local.get $"@
        + "len"@ + ")"@) + " "@ + ("("@ + "i32.const"@ + " "@ + "-16"@ + ")"@) + ")"@) + ")"@)
        + ")"@) + "\n"@,
{
    reveal_strlit("    (local.set $vec_end\n      (i32.add (local.get $off)\n               (i32.and (local.get $len) (i32.const -16))))\n");
    reveal_strlit("  ");
    reveal_strlit("(local.set $");
    reveal_strlit("vec_end");
    reveal_strlit("\n");
    reveal_strlit("(");
    reveal_strlit("i32.add");
    reveal_strlit(" ");
    reveal_strlit("(local.get $");
    reveal_strlit("off");
    reveal_strlit(")");
    reveal_strlit("i32.and");
    reveal_strlit("len");
    reveal_strlit("i32.const");
    reveal_strlit("-16");
    assert("    (local.set $vec_end\n      (i32.add (local.get $off)\n               (i32.and (local.get $len) (i32.const -16))))\n"@ =~= (("  "@ + "  "@) + "(local.set $"@ + "vec_end"@ + ("\n"@ + "  "@ + "  "@ + "  "@) + ("("@
        + "i32.add"@ + " "@ + ("(local.get $"@ + "off"@ + ")"@) + ("\n"@ + "  "@ + "  "@ + "  "@
        + "  "@ + "  "@ + "  "@ + "  "@ + " "@) + ("("@ + "i32.and"@ + " "@ + ("(local.get $"@
        + "len"@ + ")"@) + " "@ + ("("@ + "i32.const"@ + " "@ + "-16"@ + ")"@) + ")"@) + ")"@)
        + ")"@) + "\n"@);
}

proof fn lemma_xor_vec_end_filled(k: nat)
    ensures
        fill("    (local.set $vec_end\n      (i32.add (local.get $off)\n               (i32.and (local.get $len) (i32.const -16))))\n"@, k) == (("  "@ + "  "@) + "(local.set $"@ + "vec_end"@ + ("\n"@ + "  "@ + "  "@ + "  "@) + ("("@
        + "i32.add"@ + " "@ + ("(local.get $"@ + "off"@ + ")"@) + ("\n"@ + "  "@ + "  "@ + "  "@
        + "  "@ + "  "@ + "  "@ + "  "@ + " "@) + ("("@ + "i32.and"@ + " "@ + ("(local.get $"@
        + "len"@ + ")"@) + " "@ + ("("@ + "i32.const"@ + " "@ + "-16"@ + ")"@) + ")"@) + ")"@)
        + ")"@) + "\n"@,
{
    broadcast use lemma_fill_add;

    lemma_xor_vec_end_words();
    lemma_plain_words(k);
}

proof fn lemma_xor_vec_end(k: nat)
    ensures
        squeezed(fill("    (local.set $vec_end\n      (i32.add (local.get $off)\n               (i32.and (local.get $len) (i32.const -16))))\n"@, k)) == squeezed(code_text(set_vec_end())),
{
    broadcast use {lemma_squeezed_add, lemma_add_nothing, lemma_nothing_add};

    lemma_blank_literals();
    lemma_xor_vec_end_filled(k);
    lemma_xor_vec_end_text(k);
}

proof fn lemma_xor_acc_text(k: nat)
    ensures
        squeezed(code_text(set_acc(Fold::Xor))) == squeezed("(local.set $"@) + squeezed("acc"@) + (squeezed("("@) + squeezed("v128.const"@)
        + squeezed("i64x2 0 0"@) + squeezed(")"@)) + squeezed(")"@),
{
    lemma_lit_text("v128.const"@, "i64x2 0 0"@);
    lemma_assign_text("acc"@, Term::Lit("v128.const"@, "i64x2 0 0"@));
    assert(set_acc(Fold::Xor) == Code::Assign("acc"@, Term::Lit("v128.const"@, "i64x2 0 0"@)));
}

proof fn lemma_xor_acc_words()
    ensures
        "    (local.set $acc (v128.const i64x2 0 0))\n"@ == (("  "@ + "  "@) + "(local.set $"@ + "acc"@ + " "@ + ("("@ + "v128.const"@ + " "@
        + "i64x2 0 0"@ + ")"@) + ")"@) + "\n"@,
{
    reveal_strlit("    (local.set $acc (v128.const i64x2 0 0))\n");
    reveal_strlit("  ");
    reveal_strlit("(local.set $");
    reveal_strlit("acc");
    reveal_strlit(" ");
    reveal_strlit("(");
    reveal_strlit("v128.const");
    reveal_strlit("i64x2 0 0");
    reveal_strlit(")");
    reveal_strlit("\n");
    assert("    (local.set $acc (v128.const i64x2 0 0))\n"@ =~= (("  "@ + "  "@) + "(local.set $"@ + "acc"@ + " "@ + ("("@ + "v128.const"@ + " "@
        + "i64x2 0 0"@ + ")"@) + ")"@) + "\n"@);
}

proof fn lemma_xor_acc_filled(k: nat)
    ensures
        fill("    (local.set $acc (v128.const i64x2 0 0))\n"@, k) == (("  "@ + "  "@) + "(local.set $"@ + "acc"@ + " "@ + ("("@ + "v128.const"@ + " "@
        + "i64x2 0 0"@ + ")"@) + ")"@) + "\n"@,
{
    broadcast use lemma_fill_add;

    lemma_xor_acc_words();
    lemma_plain_words(k);
}

proof fn lemma_xor_acc(k: nat)
    ensures
        squeezed(fill("    (local.set $acc (v128.const i64x2 0 0))\n"@, k)) == squeezed(code_text(set_acc(Fold::Xor))),
{
    broadcast use {lemma_squeezed_add, lemma_add_nothing, lemma_nothing_add};

    lemma_blank_literals();
    lemma_xor_acc_filled(k);
    lemma_xor_acc_text(k);
}

proof fn lemma_xor_vec_words()
    ensures
        "    (block $vec_done\n      (loop $vec_continue\n        (br_if $vec_done (i32.eq (local.get $cur) (local.get $vec_end)))\n"@ == (("  "@ + "  "@) + "(block $"@) + "vec_done"@ + ("\n"@ + "  "@ + "  "@ + " "@)
        + " (loop $"@ + "vec_continue"@ + ("\n"@ + "  "@ + "  "@ + "  "@ + " "@) + " (br_if $"@
        + "vec_done"@ + " "@ + ("("@ + "i32.eq"@ + " "@ + ("(local.get $"@ + "cur"@ + ")"@) + " "@
        + ("(local.get $"@ + "vec_end"@ + ")"@) + ")"@) + ")"@ + "\n"@,
{
    reveal_strlit("    (block $vec_done\n      (loop $vec_continue\n        (br_if $vec_done (i32.eq (local.get $cur) (local.get $vec_end)))\n");
    reveal_strlit("  ");
    reveal_strlit("(block $");
    reveal_strlit("vec_done");
    reveal_strlit("\n");
    reveal_strlit(" ");
    reveal_strlit(" (loop $");
    reveal_strlit("vec_continue");
    reveal_strlit(" (br_if $");
    reveal_strlit("(");
    reveal_strlit("i32.eq");
    reveal_strlit("(local.get $");
    reveal_strlit("cur");
    reveal_strlit(")");
    reveal_strlit("vec_end");
    assert("    (block $vec_done\n      (loop $vec_continue\n        (br_if $vec_done (i32.eq (local.get $cur) (local.get $vec_end)))\n"@ =~= (("  "@ + "  "@) + "(block $"@) + "vec_done"@ + ("\n"@ + "  "@ + "  "@ + " "@)
        + " (loop $"@ + "vec_continue"@ + ("\n"@ + "  "@ + "  "@ + "  "@ + " "@) + " (br_if $"@
        + "vec_done"@ + " "@ + ("("@ + "i32.eq"@ + " "@ + ("(local.get $"@ + "cur"@ + ")"@) + " "@
        + ("(local.get $"@ + "vec_end"@ + ")"@) + ")"@) + ")"@ + "\n"@);
}

proof fn lemma_xor_vec_filled(k: nat)
    ensures
        fill("    (block $vec_done\n      (loop $vec_continue\n        (br_if $vec_done (i32.eq (local.get $cur) (local.get $vec_end)))\n"@, k) == (("  "@ + "  "@) + "(block $"@) + "vec_done"@ + ("\n"@ + "  "@ + "  "@ + " "@)
        + " (loop $"@ + "vec_continue"@ + ("\n"@ + "  "@ + "  "@ + "  "@ + " "@) + " (br_if $"@
        + "vec_done"@ + " "@ + ("("@ + "i32.eq"@ + " "@ + ("(local.get $"@ + "cur"@ + ")"@) + " "@
        + ("(local.get $"@ + "vec_end"@ + ")"@) + ")"@) + ")"@ + "\n"@,
{
    broadcast use lemma_fill_add;

    lemma_xor_vec_words();
    lemma_plain_words(k);
}

proof fn lemma_xor_vec(k: nat)
    ensures
        squeezed(fill("    (block $vec_done\n      (loop $vec_continue\n        (br_if $vec_done (i32.eq (local.get $cur) (local.get $vec_end)))\n"@, k)) == opening_text("vec_done"@, "vec_continue"@, bin("i32.eq"@, get("cur"@), get("vec_end"@))),
{
    broadcast use {lemma_squeezed_add, lemma_add_nothing, lemma_nothing_add};

    lemma_blank_literals();
    lemma_xor_vec_filled(k);
    lemma_get_text("cur"@);
    lemma_get_text("vec_end"@);
    lemma_bin_text("i32.eq"@, get("cur"@), get("vec_end"@));
}

proof fn lemma_xor_fold_text(k: nat)
    ensures
        squeezed(code_text(fold_vec(Fold::Xor, k))) == squeezed("(local.set $"@) + squeezed("acc"@) + (squeezed("("@) + squeezed("v128.xor"@)
        + (squeezed("(local.get $"@) + squeezed("acc"@) + squeezed(")"@)) + (squeezed("("@)
        + squeezed("v128.load"@) + squeezed(decimal(k)) + (squeezed("(local.get $"@)
        + squeezed("cur"@) + squeezed(")"@)) + squeezed(")"@)) + squeezed(")"@)) + squeezed(")"@),
{
    lemma_get_text("acc"@);
    lemma_get_text("cur"@);
    lemma_load_text("v128.load"@, k, get("cur"@));
    lemma_bin_text("v128.xor"@, get("acc"@), Term::Load("v128.load"@, k, Box::new(get("cur"@))));
    lemma_assign_text("acc"@, bin("v128.xor"@, get("acc"@), Term::Load("v128.load"@, k, Box::new(get("cur"@)))));
    assert(fold_vec(Fold::Xor, k) == Code::Assign("acc"@, bin("v128.xor"@, get("acc"@), Term::Load("v128.load"@, k, Box::new(get("cur"@))))));
}

proof fn lemma_xor_fold_words()
    ensures
        "        (local.set $acc\n          (v128.xor (local.get $acc) (v128.load @ (local.get $cur))))\n"@ == (("  "@ + "  "@ + "  "@ + "  "@) + "(local.set $"@ + "acc"@ + ("\n"@ + "  "@ + "  "@
        + "  "@ + "  "@ + "  "@) + ("("@ + "v128.xor"@ + " "@ + ("(local.get $"@ + "acc"@ + ")"@)
        + " "@ + ("("@ + "v128.load"@ + " "@ + "@"@ + " "@ + ("(local.get $"@ + "cur"@ + ")"@)
        + ")"@) + ")"@) + ")"@) + "\n"@,
{
    reveal_strlit("        (local.set $acc\n          (v128.xor (local.get $acc) (v128.load @ (local.get $cur))))\n");
    reveal_strlit("  ");
    reveal_strlit("(local.set $");
    reveal_strlit("acc");
    reveal_strlit("\n");
    reveal_strlit("(");
    reveal_strlit("v128.xor");
    reveal_strlit(" ");
    reveal_strlit("(local.get $");
    reveal_strlit(")");
    reveal_strlit("v128.load");
    reveal_strlit("@");
    reveal_strlit("cur");
    assert("        (local.set $acc\n          (v128.xor (local.get $acc) (v128.load @ (local.get $cur))))\n"@ =~= (("  "@ + "  "@ + "  "@ + "  "@) + "(local.set $"@ + "acc"@ + ("\n"@ + "  "@ + "  "@
        + "  "@ + "  "@ + "  "@) + ("("@ + "v128.xor"@ + " "@ + ("(local.get $"@ + "acc"@ + ")"@)
        + " "@ + ("("@ + "v128.load"@ + " "@ + "@"@ + " "@ + ("(local.get $"@ + "cur"@ + ")"@)
        + ")"@) + ")"@) + ")"@) + "\n"@);
}

proof fn lemma_xor_fold_filled(k: nat)
    ensures
        fill("        (local.set $acc\n          (v128.xor (local.get $acc) (v128.load @ (local.get $cur))))\n"@, k) == (("  "@ + "  "@ + "  "@ + "  "@) + "(local.set $"@ + "acc"@ + ("\n"@ + "  "@ + "  "@
        + "  "@ + "  "@ + "  "@) + ("("@ + "v128.xor"@ + " "@ + ("(local.get $"@ + "acc"@ + ")"@)
        + " "@ + ("("@ + "v128.load"@ + " "@ + decimal(k) + " "@ + ("(local.get $"@ + "cur"@
        + ")"@) + ")"@) + ")"@) + ")"@) + "\n"@,
{
    broadcast use lemma_fill_add;

    lemma_xor_fold_words();
    lemma_plain_words(k);
    lemma_fill_place(k);
}

proof fn lemma_xor_fold(k: nat)
    ensures
        squeezed(fill("        (local.set $acc\n          (v128.xor (local.get $acc) (v128.load @ (local.get $cur))))\n"@, k)) == squeezed(code_text(fold_vec(Fold::Xor, k))),
{
    broadcast use {lemma_squeezed_add, lemma_add_nothing, lemma_nothing_add};

    lemma_blank_literals();
    lemma_xor_fold_filled(k);
    lemma_xor_fold_text(k);
}

proof fn lemma_xor_step_text(k: nat)
    ensures
        squeezed(code_text(step_by("16"@))) == squeezed("(local.set $"@) + squeezed("cur"@) + (squeezed("("@) + squeezed("i32.add"@)
        + (squeezed("(local.get $"@) + squeezed("cur"@) + squeezed(")"@)) + (squeezed("("@)
        + squeezed("i32.const"@) + squeezed("16"@) + squeezed(")"@)) + squeezed(")"@))
        + squeezed(")"@),
{
    lemma_get_text("cur"@);
    lemma_lit_text("i32.const"@, "16"@);
    lemma_bin_text("i32.add"@, get("cur"@), Term::Lit("i32.const"@, "16"@));
    lemma_assign_text("cur"@, bin("i32.add"@, get("cur"@), Term::Lit("i32.const"@, "16"@)));
    assert(step_by("16"@) == Code::Assign("cur"@, bin("i32.add"@, get("cur"@), Term::Lit("i32.const"@, "16"@))));
}

proof fn lemma_xor_step_words()
    ensures
        "        (local.set $cur (i32.add (local.get $cur) (i32.const 16)))\n"@ == (("  "@ + "  "@ + "  "@ + "  "@) + "(local.set $"@ + "cur"@ + " "@ + ("("@ + "i32.add"@
        + " "@ + ("(local.get $"@ + "cur"@ + ")"@) + " "@ + ("("@ + "i32.const"@ + " "@ + "16"@
        + ")"@) + ")"@) + ")"@) + "\n"@,
{
    reveal_strlit("        (local.set $cur (i32.add (local.get $cur) (i32.const 16)))\n");
    reveal_strlit("  ");
    reveal_strlit("(local.set $");
    reveal_strlit("cur");
    reveal_strlit(" ");
    reveal_strlit("(");
    reveal_strlit("i32.add");
    reveal_strlit("(local.get $");
    reveal_strlit(")");
    reveal_strlit("i32.const");
    reveal_strlit("16");
    reveal_strlit("\n");
    assert("        (local.set $cur (i32.add (local.get $cur) (i32.const 16)))\n"@ =~= (("  "@ + "  "@ + "  "@ + "  "@) + "(local.set $"@ + "cur"@ + " "@ + ("("@ + "i32.add"@
        + " "@ + ("(local.get $"@ + "cur"@ + ")"@) + " "@ + ("("@ + "i32.const"@ + " "@ + "16"@
        + ")"@) + ")"@) + ")"@) + "\n"@);
}

proof fn lemma_xor_step_filled(k: nat)
    ensures
        fill("        (local.set $cur (i32.add (local.get $cur) (i32.const 16)))\n"@, k) == (("  "@ + "  "@ + "  "@ + "  "@) + "(local.set $"@ + "cur"@ + " "@ + ("("@ + "i32.add"@
        + " "@ + ("(local.get $"@ + "cur"@ + ")"@) + " "@ + ("("@ + "i32.const"@ + " "@ + "16"@
        + ")"@) + ")"@) + ")"@) + "\n"@,
{
    broadcast use lemma_fill_add;

    lemma_xor_step_words();
    lemma_plain_words(k);
}

proof fn lemma_xor_step(k: nat)
    ensures
        squeezed(fill("        (local.set $cur (i32.add (local.get $cur) (i32.const 16)))\n"@, k)) == squeezed(code_text(step_by("16"@))),
{
    broadcast use {lemma_squeezed_add, lemma_add_nothing, lemma_nothing_add};

    lemma_blank_literals();
    lemma_xor_step_filled(k);
    lemma_xor_step_text(k);
}

proof fn lemma_xor_again_words()
    ensures
        "        (br $vec_continue)))\n"@ == (("  "@ + "  "@ + "  "@ + "  "@) + "(br $"@) + "vec_continue"@ + ")"@ + ")"@ + ")"@
        + "\n"@,
{
    reveal_strlit("        (br $vec_continue)))\n");
    reveal_strlit("  ");
    reveal_strlit("(br $");
    reveal_strlit("vec_continue");
    reveal_strlit(")");
    reveal_strlit("\n");
    assert("        (br $vec_continue)))\n"@ =~= (("  "@ + "  "@ + "  "@ + "  "@) + "(br $"@) + "vec_continue"@ + ")"@ + ")"@ + ")"@
        + "\n"@);
}

proof fn lemma_xor_again_filled(k: nat)
    ensures
        fill("        (br $vec_continue)))\n"@, k) == (("  "@ + "  "@ + "  "@ + "  "@) + "(br $"@) + "vec_continue"@ + ")"@ + ")"@ + ")"@
        + "\n"@,
{
    broadcast use lemma_fill_add;

    lemma_xor_again_words();
    lemma_plain_words(k);
}

proof fn lemma_xor_again(k: nat)
    ensures
        squeezed(fill("        (br $vec_continue)))\n"@, k)) == closing_text("vec_continue"@),
{
    broadcast use {lemma_squeezed_add, lemma_add_nothing, lemma_nothing_add};

    lemma_blank_literals();
    lemma_xor_again_filled(k);
}

proof fn lemma_xor_join_text(k: nat)
    ensures
        squeezed(code_text(join_lanes(Fold::Xor))) == squeezed("(local.set $"@) + squeezed("tmp"@) + (squeezed("("@) + squeezed("i64.xor"@)
        + (squeezed("("@) + squeezed("i64x2.extract_lane 0"@) + (squeezed("(local.get $"@)
        + squeezed("acc"@) + squeezed(")"@)) + squeezed(")"@)) + (squeezed("("@)
        + squeezed("i64x2.extract_lane 1"@) + (squeezed("(local.get $"@) + squeezed("acc"@)
        + squeezed(")"@)) + squeezed(")"@)) + squeezed(")"@)) + squeezed(")"@),
{
    lemma_get_text("acc"@);
    lemma_un_text("i64x2.extract_lane 0"@, get("acc"@));
    lemma_un_text("i64x2.extract_lane 1"@, get("acc"@));
    lemma_bin_text("i64.xor"@, un("i64x2.extract_lane 0"@, get("acc"@)), un("i64x2.extract_lane 1"@, get("acc"@)));
    lemma_assign_text("tmp"@, bin("i64.xor"@, un("i64x2.extract_lane 0"@, get("acc"@)), un("i64x2.extract_lane 1"@, get("acc"@))));
    assert(join_lanes(Fold::Xor) == Code::Assign("tmp"@, bin("i64.xor"@, un("i64x2.extract_lane 0"@, get("acc"@)), un("i64x2.extract_lane 1"@, get("acc"@)))));
}

proof fn lemma_xor_join_words()
    ensures
        "    (local.set $tmp\n      (i64.xor\n        (i64x2.extract_lane 0 (local.get $acc))\n        (i64x2.extract_lane 1 (local.get $acc))))\n"@ == (("  "@ + "  "@) + "(local.set $"@ + "tmp"@ + ("\n"@ + "  "@ + "  "@ + "  "@) + ("("@
        + "i64.xor"@ + ("\n"@ + "  "@ + "  "@ + "  "@ + "  "@) + ("("@ + "i64x2.extract_lane 0"@
        + " "@ + ("(local.get $"@ + "acc"@ + ")"@) + ")"@) + ("\n"@ + "  "@ + "  "@ + "  "@
        + "  "@) + ("("@ + "i64x2.extract_lane 1"@ + " "@ + ("(local.get $"@ + "acc"@ + ")"@)
        + ")"@) + ")"@) + ")"@) + "\n"@,
{
    reveal_strlit("    (local.set $tmp\n      (i64.xor\n        (i64x2.extract_lane 0 (local.get $acc))\n        (i64x2.extract_lane 1 (local.get $acc))))\n");
    reveal_strlit("  ");
    reveal_strlit("(local.set $");
    reveal_strlit("tmp");
    reveal_strlit("\n");
    reveal_strlit("(");
    reveal_strlit("i64.xor");
    reveal_strlit("i64x2.extract_lane 0");
    reveal_strlit(" ");
    reveal_strlit("(local.get $");
    reveal_strlit("acc");
    reveal_strlit(")");
    reveal_strlit("i64x2.extract_lane 1");
    assert("    (local.set $tmp\n      (i64.xor\n        (i64x2.extract_lane 0 (local.get $acc))\n        (i64x2.extract_lane 1 (local.get $acc))))\n"@ =~= (("  "@ + "  "@) + "(local.set $"@ + "tmp"@ + ("\n"@ + "  "@ + "  "@ + "  "@) + ("("@
        + "i64.xor"@ + ("\n"@ + "  "@ + "  "@ + "  "@ + "  "@) + ("("@ + "i64x2.extract_lane 0"@
        + " "@ + ("(local.get $"@ + "acc"@ + ")"@) + ")"@) + ("\n"@ + "  "@ + "  "@ + "  "@
        + "  "@) + ("("@ + "i64x2.extract_lane 1"@ + " "@ + ("(local.get $"@ + "acc"@ + ")"@)
        + ")"@) + ")"@) + ")"@) + "\n"@);
}

proof fn lemma_xor_join_filled(k: nat)
    ensures
        fill("    (local.set $tmp\n      (i64.xor\n        (i64x2.extract_lane 0 (local.get $acc))\n        (i64x2.extract_lane 1 (local.get $acc))))\n"@, k) == (("  "@ + "  "@) + "(local.set $"@ + "tmp"@ + ("\n"@ + "  "@ + "  "@ + "  "@) + ("("@
        + "i64.xor"@ + ("\n"@ + "  "@ + "  "@ + "  "@ + "  "@) + ("("@ + "i64x2.extract_lane 0"@
        + " "@ + ("(local.get $"@ + "acc"@ + ")"@) + ")"@) + ("\n"@ + "  "@ + "  "@ + "  "@
        + "  "@) + ("("@ + "i64x2.extract_lane 1"@ + " "@ + ("(local.get $"@ + "acc"@ + ")"@)
        + ")"@) + ")"@) + ")"@) + "\n"@,
{
    broadcast use lemma_fill_add;

    lemma_xor_join_words();
    lemma_plain_words(k);
}

proof fn lemma_xor_join(k: nat)
    ensures
        squeezed(fill("    (local.set $tmp\n      (i64.xor\n        (i64x2.extract_lane 0 (local.get $acc))\n        (i64x2.extract_lane 1 (local.get $acc))))\n"@, k)) == squeezed(code_text(join_lanes(Fold::Xor))),
{
    broadcast use {lemma_squeezed_add, lemma_add_nothing, lemma_nothing_add};

    lemma_blank_literals();
    lemma_xor_join_filled(k);
    lemma_xor_join_text(k);
}

proof fn lemma_xor_h32_text(k: nat)
    ensures
        squeezed(code_text(halve(Fold::Xor, "32"@))) == squeezed("(local.set $"@) + squeezed("tmp"@) + (squeezed("("@) + squeezed("i64.xor"@)
        + (squeezed("(local.get $"@) + squeezed("tmp"@) + squeezed(")"@)) + (squeezed("("@)
        + squeezed("i64.shr_u"@) + (squeezed("(local.get $"@) + squeezed("tmp"@) + squeezed(")"@))
        + (squeezed("("@) + squeezed("i64.const"@) + squeezed("32"@) + squeezed(")"@))
        + squeezed(")"@)) + squeezed(")"@)) + squeezed(")"@),
{
    lemma_get_text("tmp"@);
    lemma_lit_text("i64.const"@, "32"@);
    lemma_bin_text("i64.shr_u"@, get("tmp"@), Term::Lit("i64.const"@, "32"@));
    lemma_bin_text("i64.xor"@, get("tmp"@), bin("i64.shr_u"@, get("tmp"@), Term::Lit("i64.const"@, "32"@)));
    lemma_assign_text("tmp"@, bin("i64.xor"@, get("tmp"@), bin("i64.shr_u"@, get("tmp"@), Term::Lit("i64.const"@, "32"@))));
    assert(halve(Fold::Xor, "32"@) == Code::Assign("tmp"@, bin("i64.xor"@, get("tmp"@), bin("i64.shr_u"@, get("tmp"@), Term::Lit("i64.const"@, "32"@)))));
}

proof fn lemma_xor_h32_words()
    ensures
        "    (local.set $tmp\n      (i64.xor (local.get $tmp) (i64.shr_u (local.get $tmp) (i64.const 32))))\n"@ == (("  "@ + "  "@) + "(local.set $"@ + "tmp"@ + ("\n"@ + "  "@ + "  "@ + "  "@) + ("("@
        + "i64.xor"@ + " "@ + ("(local.get $"@ + "tmp"@ + ")"@) + " "@ + ("("@ + "i64.shr_u"@
        + " "@ + ("(local.get $"@ + "tmp"@ + ")"@) + " "@ + ("("@ + "i64.const"@ + " "@ + "32"@
        + ")"@) + ")"@) + ")"@) + ")"@) + "\n"@,
{
    reveal_strlit("    (local.set $tmp\n      (i64.xor (local.get $tmp) (i64.shr_u (local.get $tmp) (i64.const 32))))\n");
    reveal_strlit("  ");
    reveal_strlit("(local.set $");
    reveal_strlit("tmp");
    reveal_strlit("\n");
    reveal_strlit("(");
    reveal_strlit("i64.xor");
    reveal_strlit(" ");
    reveal_strlit("(local.get $");
    reveal_strlit(")");
    reveal_strlit("i64.shr_u");
    reveal_strlit("i64.const");
    reveal_strlit("32");
    assert("    (local.set $tmp\n      (i64.xor (local.get $tmp) (i64.shr_u (local.get $tmp) (i64.const 32))))\n"@ =~= (("  "@ + "  "@) + "(local.set $"@ + "tmp"@ + ("\n"@ + "  "@ + "  "@ + "  "@) + ("("@
        + "i64.xor"@ + " "@ + ("(local.get $"@ + "tmp"@ + ")"@) + " "@ + ("("@ + "i64.shr_u"@
        + " "@ + ("(local.get $"@ + "tmp"@ + ")"@) + " "@ + ("("@ + "i64.const"@ + " "@ + "32"@
        + ")"@) + ")"@) + ")"@) + ")"@) + "\n"@);
}

proof fn lemma_xor_h32_filled(k: nat)
    ensures
        fill("    (local.set $tmp\n      (i64.xor (local.get $tmp) (i64.shr_u (local.get $tmp) (i64.const 32))))\n"@, k) == (("  "@ + "  "@) + "(local.set $"@ + "tmp"@ + ("\n"@ + "  "@ + "  "@ + "  "@) + ("("@
        + "i64.xor"@ + " "@ + ("(local.get $"@ + "tmp"@ + ")"@) + " "@ + ("("@ + "i64.shr_u"@
        + " "@ + ("(local.get $"@ + "tmp"@ + ")"@) + " "@ + ("("@ + "i64.const"@ + " "@ + "32"@
        + ")"@) + ")"@) + ")"@) + ")"@) + "\n"@,
{
    broadcast use lemma_fill_add;

    lemma_xor_h32_words();
    lemma_plain_words(k);
}

proof fn lemma_xor_h32(k: nat)
    ensures
        squeezed(fill("    (local.set $tmp\n      (i64.xor (local.get $tmp) (i64.shr_u (local.get $tmp) (i64.const 32))))\n"@, k)) == squeezed(code_text(halve(Fold::Xor, "32"@))),
{
    broadcast use {lemma_squeezed_add, lemma_add_nothing, lemma_nothing_add};

    lemma_blank_literals();
    lemma_xor_h32_filled(k);
    lemma_xor_h32_text(k);
}

proof fn lemma_xor_h16_text(k: nat)
    ensures
        squeezed(code_text(halve(Fold::Xor, "16"@))) == squeezed("(local.set $"@) + squeezed("tmp"@) + (squeezed("("@) + squeezed("i64.xor"@)
        + (squeezed("(local.get $"@) + squeezed("tmp"@) + squeezed(")"@)) + (squeezed("("@)
        + squeezed("i64.shr_u"@) + (squeezed("(local.get $"@) + squeezed("tmp"@) + squeezed(")"@))
        + (squeezed("("@) + squeezed("i64.const"@) + squeezed("16"@) + squeezed(")"@))
        + squeezed(")"@)) + squeezed(")"@)) + squeezed(")"@),
{
    lemma_get_text("tmp"@);
    lemma_lit_text("i64.const"@, "16"@);
    lemma_bin_text("i64.shr_u"@, get("tmp"@), Term::Lit("i64.const"@, "16"@));
    lemma_bin_text("i64.xor"@, get("tmp"@), bin("i64.shr_u"@, get("tmp"@), Term::Lit("i64.const"@, "16"@)));
    lemma_assign_text("tmp"@, bin("i64.xor"@, get("tmp"@), bin("i64.shr_u"@, get("tmp"@), Term::Lit("i64.const"@, "16"@))));
    assert(halve(Fold::Xor, "16"@) == Code::Assign("tmp"@, bin("i64.xor"@, get("tmp"@), bin("i64.shr_u"@, get("tmp"@), Term::Lit("i64.const"@, "16"@)))));
}

proof fn lemma_xor_h16_words()
    ensures
        "    (local.set $tmp\n      (i64.xor (local.get $tmp) (i64.shr_u (local.get $tmp) (i64.const 16))))\n"@ == (("  "@ + "  "@) + "(local.set $"@ + "tmp"@ + ("\n"@ + "  "@ + "  "@ + "  "@) + ("("@
        + "i64.xor"@ + " "@ + ("(local.get $"@ + "tmp"@ + ")"@) + " "@ + ("("@ + "i64.shr_u"@
        + " "@ + ("(local.get $"@ + "tmp"@ + ")"@) + " "@ + ("("@ + "i64.const"@ + " "@ + "16"@
        + ")"@) + ")"@) + ")"@) + ")"@) + "\n"@,
{
    reveal_strlit("    (local.set $tmp\n      (i64.xor (local.get $tmp) (i64.shr_u (local.get $tmp) (i64.const 16))))\n");
    reveal_strlit("  ");
    reveal_strlit("(local.set $");
    reveal_strlit("tmp");
    reveal_strlit("\n");
    reveal_strlit("(");
    reveal_strlit("i64.xor");
    reveal_strlit(" ");
    reveal_strlit("(local.get $");
    reveal_strlit(")");
    reveal_strlit("i64.shr_u");
    reveal_strlit("i64.const");
    reveal_strlit("16");
    assert("    (local.set $tmp\n      (i64.xor (local.get $tmp) (i64.shr_u (local.get $tmp) (i64.const 16))))\n"@ =~= (("  "@ + "  "@) + "(local.set $"@ + "tmp"@ + ("\n"@ + "  "@ + "  "@ + "  "@) + ("("@
        + "i64.xor"@ + " "@ + ("(local.get $"@ + "tmp"@ + ")"@) + " "@ + ("("@ + "i64.shr_u"@
        + " "@ + ("(local.get $"@ + "tmp"@ + ")"@) + " "@ + ("("@ + "i64.const"@ + " "@ + "16"@
        + ")"@) + ")"@) + ")"@) + ")"@) + "\n"@);
}

proof fn lemma_xor_h16_filled(k: nat)
    ensures
        fill("    (local.set $tmp\n      (i64.xor (local.get $tmp) (i64.shr_u (local.get $tmp) (i64.const 16))))\n"@, k) == (("  "@ + "  "@) + "(local.set $"@ + "tmp"@ + ("\n"@ + "  "@ + "  "@ + "  "@) + ("("@
        + "i64.xor"@ + " "@ + ("(local.get $"@ + "tmp"@ + ")"@) + " "@ + ("("@ + "i64.shr_u"@
        + " "@ + ("(local.get $"@ + "tmp"@ + ")"@) + " "@ + ("("@ + "i64.const"@ + " "@ + "16"@
        + ")"@) + ")"@) + ")"@) + ")"@) + "\n"@,
{
    broadcast use lemma_fill_add;

    lemma_xor_h16_words();
    lemma_plain_words(k);
}

proof fn lemma_xor_h16(k: nat)
    ensures
        squeezed(fill("    (local.set $tmp\n      (i64.xor (local.get $tmp) (i64.shr_u (local.get $tmp) (i64.const 16))))\n"@, k)) == squeezed(code_text(halve(Fold::Xor, "16"@))),
{
    broadcast use {lemma_squeezed_add, lemma_add_nothing, lemma_nothing_add};

    lemma_blank_literals();
    lemma_xor_h16_filled(k);
    lemma_xor_h16_text(k);
}

proof fn lemma_xor_h8_text(k: nat)
    ensures
        squeezed(code_text(halve(Fold::Xor, "8"@))) == squeezed("(local.set $"@) + squeezed("tmp"@) + (squeezed("("@) + squeezed("i64.xor"@)
        + (squeezed("(local.get $"@) + squeezed("tmp"@) + squeezed(")"@)) + (squeezed("("@)
        + squeezed("i64.shr_u"@) + (squeezed("(local.get $"@) + squeezed("tmp"@) + squeezed(")"@))
        + (squeezed("("@) + squeezed("i64.const"@) + squeezed("8"@) + squeezed(")"@))
        + squeezed(")"@)) + squeezed(")"@)) + squeezed(")"@),
{
    lemma_get_text("tmp"@);
    lemma_lit_text("i64.const"@, "8"@);
    lemma_bin_text("i64.shr_u"@, get("tmp"@), Term::Lit("i64.const"@, "8"@));
    lemma_bin_text("i64.xor"@, get("tmp"@), bin("i64.shr_u"@, get("tmp"@), Term::Lit("i64.const"@, "8"@)));
    lemma_assign_text("tmp"@, bin("i64.xor"@, get("tmp"@), bin("i64.shr_u"@, get("tmp"@), Term::Lit("i64.const"@, "8"@))));
    assert(halve(Fold::Xor, "8"@) == Code::Assign("tmp"@, bin("i64.xor"@, get("tmp"@), bin("i64.shr_u"@, get("tmp"@), Term::Lit("i64.const"@, "8"@)))));
}

proof fn lemma_xor_h8_words()
    ensures
        "    (local.set $tmp\n      (i64.xor (local.get $tmp) (i64.shr_u (local.get $tmp) (i64.const 8))))\n"@ == (("  "@ + "  "@) + "(local.set $"@ + "tmp"@ + ("\n"@ + "  "@ + "  "@ + "  "@) + ("("@
        + "i64.xor"@ + " "@ + ("(local.get $"@ + "tmp"@ + ")"@) + " "@ + ("("@ + "i64.shr_u"@
        + " "@ + ("(local.get $"@ + "tmp"@ + ")"@) + " "@ + ("("@ + "i64.const"@ + " "@ + "8"@
        + ")"@) + ")"@) + ")"@) + ")"@) + "\n"@,
{
    reveal_strlit("    (local.set $tmp\n      (i64.xor (local.get $tmp) (i64.shr_u (local.get $tmp) (i64.const 8))))\n");
    reveal_strlit("  ");
    reveal_strlit("(local.set $");
    reveal_strlit("tmp");
    reveal_strlit("\n");
    reveal_strlit("(");
    reveal_strlit("i64.xor");
    reveal_strlit(" ");
    reveal_strlit("(local.get $");
    reveal_strlit(")");
    reveal_strlit("i64.shr_u");
    reveal_strlit("i64.const");
    reveal_strlit("8");
    assert("    (local.set $tmp\n      (i64.xor (local.get $tmp) (i64.shr_u (local.get $tmp) (i64.const 8))))\n"@ =~= (("  "@ + "  "@) + "(local.set $"@ + "tmp"@ + ("\n"@ + "  "@ + "  "@ + "  "@) + ("("@
        + "i64.xor"@ + " "@ + ("(local.get $"@ + "tmp"@ + ")"@) + " "@ + ("("@ + "i64.shr_u"@
        + " "@ + ("(local.get $"@ + "tmp"@ + ")"@) + " "@ + ("("@ + "i64.const"@ + " "@ + "8"@
        + ")"@) + ")"@) + ")"@) + ")"@) + "\n"@);
}

proof fn lemma_xor_h8_filled(k: nat)
    ensures
        fill("    (local.set $tmp\n      (i64.xor (local.get $tmp) (i64.shr_u (local.get $tmp) (i64.const 8))))\n"@, k) == (("  "@ + "  "@) + "(local.set $"@ + "tmp"@ + ("\n"@ + "  "@ + "  "@ + "  "@) + ("("@
        + "i64.xor"@ + " "@ + ("(local.get $"@ + "tmp"@ + ")"@) + " "@ + ("("@ + "i64.shr_u"@
        + " "@ + ("(local.get $"@ + "tmp"@ + ")"@) + " "@ + ("("@ + "i64.const"@ + " "@ + "8"@
        + ")"@) + ")"@) + ")"@) + ")"@) + "\n"@,
{
    broadcast use lemma_fill_add;

    lemma_xor_h8_words();
    lemma_plain_words(k);
}

proof fn lemma_xor_h8(k: nat)
    ensures
        squeezed(fill("    (local.set $tmp\n      (i64.xor (local.get $tmp) (i64.shr_u (local.get $tmp) (i64.const 8))))\n"@, k)) == squeezed(code_text(halve(Fold::Xor, "8"@))),
{
    broadcast use {lemma_squeezed_add, lemma_add_nothing, lemma_nothing_add};

    lemma_blank_literals();
    lemma_xor_h8_filled(k);
    lemma_xor_h8_text(k);
}

proof fn lemma_xor_take_text(k: nat)
    ensures
        squeezed(code_text(take_byte())) == squeezed("(local.set $"@) + squeezed("byte"@) + (squeezed("("@) + squeezed("i32.and"@)
        + (squeezed("("@) + squeezed("i32.wrap_i64"@) + (squeezed("(local.get $"@)
        + squeezed("tmp"@) + squeezed(")"@)) + squeezed(")"@)) + (squeezed("("@)
        + squeezed("i32.const"@) + squeezed("0xff"@) + squeezed(")"@)) + squeezed(")"@))
        + squeezed(")"@),
{
    lemma_get_text("tmp"@);
    lemma_un_text("i32.wrap_i64"@, get("tmp"@));
    lemma_lit_text("i32.const"@, "0xff"@);
    lemma_bin_text("i32.and"@, un("i32.wrap_i64"@, get("tmp"@)), Term::Lit("i32.const"@, "0xff"@));
    lemma_assign_text("byte"@, bin("i32.and"@, un("i32.wrap_i64"@, get("tmp"@)), Term::Lit("i32.const"@, "0xff"@)));
    assert(take_byte() == Code::Assign("byte"@, bin("i32.and"@, un("i32.wrap_i64"@, get("tmp"@)), Term::Lit("i32.const"@, "0xff"@))));
}

proof fn lemma_xor_take_words()
    ensures
        "    (local.set $byte (i32.and (i32.wrap_i64 (local.get $tmp)) (i32.const 0xff)))\n"@ == (("  "@ + "  "@) + "(local.set $"@ + "byte"@ + " "@ + ("("@ + "i32.and"@ + " "@ + ("("@
        + "i32.wrap_i64"@ + " "@ + ("(local.get $"@ + "tmp"@ + ")"@) + ")"@) + " "@ + ("("@
        + "i32.const"@ + " "@ + "0xff"@ + ")"@) + ")"@) + ")"@) + "\n"@,
{
    reveal_strlit("    (local.set $byte (i32.and (i32.wrap_i64 (local.get $tmp)) (i32.const 0xff)))\n");
    reveal_strlit("  ");
    reveal_strlit("(local.set $");
    reveal_strlit("byte");
    reveal_strlit(" ");
    reveal_strlit("(");
    reveal_strlit("i32.and");
    reveal_strlit("i32.wrap_i64");
    reveal_strlit("(local.get $");
    reveal_strlit("tmp");
    reveal_strlit(")");
    reveal_strlit("i32.const");
    reveal_strlit("0xff");
    reveal_strlit("\n");
    assert("    (local.set $byte (i32.and (i32.wrap_i64 (local.get $tmp)) (i32.const 0xff)))\n"@ =~= (("  "@ + "  "@) + "(local.set $"@ + "byte"@ + " "@ + ("("@ + "i32.and"@ + " "@ + ("("@
        + "i32.wrap_i64"@ + " "@ + ("(local.get $"@ + "tmp"@ + ")"@) + ")"@) + " "@ + ("("@
        + "i32.const"@ + " "@ + "0xff"@ + ")"@) + ")"@) + ")"@) + "\n"@);
}

proof fn lemma_xor_take_filled(k: nat)
    ensures
        fill("    (local.set $byte (i32.and (i32.wrap_i64 (local.get $tmp)) (i32.const 0xff)))\n"@, k) == (("  "@ + "  "@) + "(local.set $"@ + "byte"@ + " "@ + ("("@ + "i32.and"@ + " "@ + ("("@
        + "i32.wrap_i64"@ + " "@ + ("(local.get $"@ + "tmp"@ + ")"@) + ")"@) + " "@ + ("("@
        + "i32.const"@ + " "@ + "0xff"@ + ")"@) + ")"@) + ")"@) + "\n"@,
{
    broadcast use lemma_fill_add;

    lemma_xor_take_words();
    lemma_plain_words(k);
}

proof fn lemma_xor_take(k: nat)
    ensures
        squeezed(fill("    (local.set $byte (i32.and (i32.wrap_i64 (local.get $tmp)) (i32.const 0xff)))\n"@, k)) == squeezed(code_text(take_byte())),
{
    broadcast use {lemma_squeezed_add, lemma_add_nothing, lemma_nothing_add};

    lemma_blank_literals();
    lemma_xor_take_filled(k);
    lemma_xor_take_text(k);
}

proof fn lemma_xor_tail_words()
    ensures
        "    (block $tail_done\n      (loop $tail_continue\n        (br_if $tail_done (i32.eq (local.get $cur) (local.get $end)))\n"@ == (("  "@ + "  "@) + "(block $"@) + "tail_done"@ + ("\n"@ + "  "@ + "  "@ + " "@)
        + " (loop $"@ + "tail_continue"@ + ("\n"@ + "  "@ + "  "@ + "  "@ + " "@) + " (br_if $"@
        + "tail_done"@ + " "@ + ("("@ + "i32.eq"@ + " "@ + ("(local.get $"@ + "cur"@ + ")"@)
        + " "@ + ("(local.get $"@ + "end"@ + ")"@) + ")"@) + ")"@ + "\n"@,
{
    reveal_strlit("    (block $tail_done\n      (loop $tail_continue\n        (br_if $tail_done (i32.eq (local.get $cur) (local.get $end)))\n");
    reveal_strlit("  ");
    reveal_strlit("(block $");
    reveal_strlit("tail_done");
    reveal_strlit("\n");
    reveal_strlit(" ");
    reveal_strlit(" (loop $");
    reveal_strlit("tail_continue");
    reveal_strlit(" (br_if $");
    reveal_strlit("(");
    reveal_strlit("i32.eq");
    reveal_strlit("(local.get $");
    reveal_strlit("cur");
    reveal_strlit(")");
    reveal_strlit("end");
    assert("    (block $tail_done\n      (loop $tail_continue\n        (br_if $tail_done (i32.eq (local.get $cur) (local.get $end)))\n"@ =~= (("  "@ + "  "@) + "(block $"@) + "tail_done"@ + ("\n"@ + "  "@ + "  "@ + " "@)
        + " (loop $"@ + "tail_continue"@ + ("\n"@ + "  "@ + "  "@ + "  "@ + " "@) + " (br_if $"@
        + "tail_done"@ + " "@ + ("("@ + "i32.eq"@ + " "@ + ("(local.get $"@ + "cur"@ + ")"@)
        + " "@ + ("(local.get $"@ + "end"@ + ")"@) + ")"@) + ")"@ + "\n"@);
}

proof fn lemma_xor_tail_filled(k: nat)
    ensures
        fill("    (block $tail_done\n      (loop $tail_continue\n        (br_if $tail_done (i32.eq (local.get $cur) (local.get $end)))\n"@, k) == (("  "@ + "  "@) + "(block $"@) + "tail_done"@ + ("\n"@ + "  "@ + "  "@ + " "@)
        + " (loop $"@ + "tail_continue"@ + ("\n"@ + "  "@ + "  "@ + "  "@ + " "@) + " (br_if $"@
        + "tail_done"@ + " "@ + ("("@ + "i32.eq"@ + " "@ + ("(local.get $"@ + "cur"@ + ")"@)
        + " "@ + ("(local.get $"@ + "end"@ + ")"@) + ")"@) + ")"@ + "\n"@,
{
    broadcast use lemma_fill_add;

    lemma_xor_tail_words();
    lemma_plain_words(k);
}

proof fn lemma_xor_tail(k: nat)
    ensures
        squeezed(fill("    (block $tail_done\n      (loop $tail_continue\n        (br_if $tail_done (i32.eq (local.get $cur) (local.get $end)))\n"@, k)) == opening_text("tail_done"@, "tail_continue"@, bin("i32.eq"@, get("cur"@), get("end"@))),
{
    broadcast use {lemma_squeezed_add, lemma_add_nothing, lemma_nothing_add};

    lemma_blank_literals();
    lemma_xor_tail_filled(k);
    lemma_get_text("cur"@);
    lemma_get_text("end"@);
    lemma_bin_text("i32.eq"@, get("cur"@), get("end"@));
}

proof fn lemma_xor_single_text(k: nat)
    ensures
        squeezed(code_text(fold_single(Fold::Xor, k))) == squeezed("(local.set $"@) + squeezed("byte"@) + (squeezed("("@) + squeezed("i32.xor"@)
        + (squeezed("(local.get $"@) + squeezed("byte"@) + squeezed(")"@)) + (squeezed("("@)
        + squeezed("i32.load8_u"@) + squeezed(decimal(k)) + (squeezed("(local.get $"@)
        + squeezed("cur"@) + squeezed(")"@)) + squeezed(")"@)) + squeezed(")"@)) + squeezed(")"@),
{
    lemma_get_text("byte"@);
    lemma_get_text("cur"@);
    lemma_load_text("i32.load8_u"@, k, get("cur"@));
    lemma_bin_text("i32.xor"@, get("byte"@), Term::Load("i32.load8_u"@, k, Box::new(get("cur"@))));
    lemma_assign_text("byte"@, bin("i32.xor"@, get("byte"@), Term::Load("i32.load8_u"@, k, Box::new(get("cur"@)))));
    assert(fold_single(Fold::Xor, k) == Code::Assign("byte"@, bin("i32.xor"@, get("byte"@), Term::Load("i32.load8_u"@, k, Box::new(get("cur"@))))));
}

proof fn lemma_xor_single_words()
    ensures
        "        (local.set $byte\n          (i32.xor (local.get $byte)\n                   (i32.load8_u @ (local.get $cur))))\n"@ == (("  "@ + "  "@ + "  "@ + "  "@) + "(local.set $"@ + "byte"@ + ("\n"@ + "  "@ + "  "@
        + "  "@ + "  "@ + "  "@) + ("("@ + "i32.xor"@ + " "@ + ("(local.get $"@ + "byte"@ + ")"@)
        + ("\n"@ + "  "@ + "  "@ + "  "@ + "  "@ + "  "@ + "  "@ + "  "@ + "  "@ + "  "@ + " "@)
        + ("("@ + "i32.load8_u"@ + " "@ + "@"@ + " "@ + ("(local.get $"@ + "cur"@ + ")"@) + ")"@)
        + ")"@) + ")"@) + "\n"@,
{
    reveal_strlit("        (local.set $byte\n          (i32.xor (local.get $byte)\n                   (i32.load8_u @ (local.get $cur))))\n");
    reveal_strlit("  ");
    reveal_strlit("(local.set $");
    reveal_strlit("byte");
    reveal_strlit("\n");
    reveal_strlit("(");
    reveal_strlit("i32.xor");
    reveal_strlit(" ");
    reveal_strlit("(local.get $");
    reveal_strlit(")");
    reveal_strlit("i32.load8_u");
    reveal_strlit("@");
    reveal_strlit("cur");
    assert("        (local.set $byte\n          (i32.xor (local.get $byte)\n                   (i32.load8_u @ (local.get $cur))))\n"@ =~= (("  "@ + "  "@ + "  "@ + "  "@) + "(local.set $"@ + "byte"@ + ("\n"@ + "  "@ + "  "@
        + "  "@ + "  "@ + "  "@) + ("("@ + "i32.xor"@ + " "@ + ("(local.get $"@ + "byte"@ + ")"@)
        + ("\n"@ + "  "@ + "  "@ + "  "@ + "  "@ + "  "@ + "  "@ + "  "@ + "  "@ + "  "@ + " "@)
        + ("("@ + "i32.load8_u"@ + " "@ + "@"@ + " "@ + ("(local.get $"@ + "cur"@ + ")"@) + ")"@)
        + ")"@) + ")"@) + "\n"@);
}

proof fn lemma_xor_single_filled(k: nat)
    ensures
        fill("        (local.set $byte\n          (i32.xor (local.get $byte)\n                   (i32.load8_u @ (local.get $cur))))\n"@, k) == (("  "@ + "  "@ + "  "@ + "  "@) + "(local.set $"@ + "byte"@ + ("\n"@ + "  "@ + "  "@
        + "  "@ + "  "@ + "  "@) + ("("@ + "i32.xor"@ + " "@ + ("(local.get $"@ + "byte"@ + ")"@)
        + ("\n"@ + "  "@ + "  "@ + "  "@ + "  "@ + "  "@ + "  "@ + "  "@ + "  "@ + "  "@ + " "@)
        + ("("@ + "i32.load8_u"@ + " "@ + decimal(k) + " "@ + ("(local.get $"@ + "cur"@ + ")"@)
        + ")"@) + ")"@) + ")"@) + "\n"@,
{
    broadcast use lemma_fill_add;

    lemma_xor_single_words();
    lemma_plain_words(k);
    lemma_fill_place(k);
}

proof fn lemma_xor_single(k: nat)
    ensures
        squeezed(fill("        (local.set $byte\n          (i32.xor (local.get $byte)\n                   (i32.load8_u @ (local.get $cur))))\n"@, k)) == squeezed(code_text(fold_single(Fold::Xor, k))),
{
    broadcast use {lemma_squeezed_add, lemma_add_nothing, lemma_nothing_add};

    lemma_blank_literals();
    lemma_xor_single_filled(k);
    lemma_xor_single_text(k);
}

proof fn lemma_xor_next_text(k: nat)
    ensures
        squeezed(code_text(step_by("1"@))) == squeezed("(local.set $"@) + squeezed("cur"@) + (squeezed("("@) + squeezed("i32.add"@)
        + (squeezed("(local.get $"@) + squeezed("cur"@) + squeezed(")"@)) + (squeezed("("@)
        + squeezed("i32.const"@) + squeezed("1"@) + squeezed(")"@)) + squeezed(")"@))
        + squeezed(")"@),
{
    lemma_get_text("cur"@);
    lemma_lit_text("i32.const"@, "1"@);
    lemma_bin_text("i32.add"@, get("cur"@), Term::Lit("i32.const"@, "1"@));
    lemma_assign_text("cur"@, bin("i32.add"@, get("cur"@), Term::Lit("i32.const"@, "1"@)));
    assert(step_by("1"@) == Code::Assign("cur"@, bin("i32.add"@, get("cur"@), Term::Lit("i32.const"@, "1"@))));
}

proof fn lemma_xor_next_words()
    ensures
        "        (local.set $cur (i32.add (local.get $cur) (i32.const 1)))\n"@ == (("  "@ + "  "@ + "  "@ + "  "@) + "(local.set $"@ + "cur"@ + " "@ + ("("@ + "i32.add"@
        + " "@ + ("(local.get $"@ + "cur"@ + ")"@) + " "@ + ("("@ + "i32.const"@ + " "@ + "1"@
        + ")"@) + ")"@) + ")"@) + "\n"@,
{
    reveal_strlit("        (local.set $cur (i32.add (local.get $cur) (i32.const 1)))\n");
    reveal_strlit("  ");
    reveal_strlit("(local.set $");
    reveal_strlit("cur");
    reveal_strlit(" ");
    reveal_strlit("(");
    reveal_strlit("i32.add");
    reveal_strlit("(local.get $");
    reveal_strlit(")");
    reveal_strlit("i32.const");
    reveal_strlit("1");
    reveal_strlit("\n");
    assert("        (local.set $cur (i32.add (local.get $cur) (i32.const 1)))\n"@ =~= (("  "@ + "  "@ + "  "@ + "  "@) + "(local.set $"@ + "cur"@ + " "@ + ("("@ + "i32.add"@
        + " "@ + ("(local.get $"@ + "cur"@ + ")"@) + " "@ + ("("@ + "i32.const"@ + " "@ + "1"@
        + ")"@) + ")"@) + ")"@) + "\n"@);
}

proof fn lemma_xor_next_filled(k: nat)
    ensures
        fill("        (local.set $cur (i32.add (local.get $cur) (i32.const 1)))\n"@, k) == (("  "@ + "  "@ + "  "@ + "  "@) + "(local.set $"@ + "cur"@ + " "@ + ("("@ + "i32.add"@
        + " "@ + ("(local.get $"@ + "cur"@ + ")"@) + " "@ + ("("@ + "i32.const"@ + " "@ + "1"@
        + ")"@) + ")"@) + ")"@) + "\n"@,
{
    broadcast use lemma_fill_add;

    lemma_xor_next_words();
    lemma_plain_words(k);
}

proof fn lemma_xor_next(k: nat)
    ensures
        squeezed(fill("        (local.set $cur (i32.add (local.get $cur) (i32.const 1)))\n"@, k)) == squeezed(code_text(step_by("1"@))),
{
    broadcast use {lemma_squeezed_add, lemma_add_nothing, lemma_nothing_add};

    lemma_blank_literals();
    lemma_xor_next_filled(k);
    lemma_xor_next_text(k);
}

proof fn lemma_xor_back_words()
    ensures
        "        (br $tail_continue)))\n"@ == (("  "@ + "  "@ + "  "@ + "  "@) + "(br $"@) + "tail_continue"@ + ")"@ + ")"@ + ")"@
        + "\n"@,
{
    reveal_strlit("        (br $tail_continue)))\n");
    reveal_strlit("  ");
    reveal_strlit("(br $");
    reveal_strlit("tail_continue");
    reveal_strlit(")");
    reveal_strlit("\n");
    assert("        (br $tail_continue)))\n"@ =~= (("  "@ + "  "@ + "  "@ + "  "@) + "(br $"@) + "tail_continue"@ + ")"@ + ")"@ + ")"@
        + "\n"@);
}

proof fn lemma_xor_back_filled(k: nat)
    ensures
        fill("        (br $tail_continue)))\n"@, k) == (("  "@ + "  "@ + "  "@ + "  "@) + "(br $"@) + "tail_continue"@ + ")"@ + ")"@ + ")"@
        + "\n"@,
{
    broadcast use lemma_fill_add;

    lemma_xor_back_words();
    lemma_plain_words(k);
}

proof fn lemma_xor_back(k: nat)
    ensures
        squeezed(fill("        (br $tail_continue)))\n"@, k)) == closing_text("tail_continue"@),
{
    broadcast use {lemma_squeezed_add, lemma_add_nothing, lemma_nothing_add};

    lemma_blank_literals();
    lemma_xor_back_filled(k);
}

proof fn lemma_xor_value_words()
    ensures
        "    (local.get $byte))\n"@ == ((("  "@ + "  "@) + "(local.get $"@) + "byte"@ + ")"@) + ")"@ + "\n"@,
{
    reveal_strlit("    (local.get $byte))\n");
    reveal_strlit("  ");
    reveal_strlit("(local.get $");
    reveal_strlit("byte");
    reveal_strlit(")");
    reveal_strlit("\n");
    assert("    (local.get $byte))\n"@ =~= ((("  "@ + "  "@) + "(local.get $"@) + "byte"@ + ")"@) + ")"@ + "\n"@);
}

proof fn lemma_xor_value_filled(k: nat)
    ensures
        fill("    (local.get $byte))\n"@, k) == ((("  "@ + "  "@) + "(local.get $"@) + "byte"@ + ")"@) + ")"@ + "\n"@,
{
    broadcast use lemma_fill_add;

    lemma_xor_value_words();
    lemma_plain_words(k);
}

proof fn lemma_xor_value(k: nat)
    ensures
        squeezed(fill("    (local.get $byte))\n"@, k)) == squeezed(term_text(get("byte"@))) + squeezed(")"@),
{
    broadcast use {lemma_squeezed_add, lemma_add_nothing, lemma_nothing_add};

    lemma_blank_literals();
    lemma_xor_value_filled(k);
    lemma_get_text("byte"@);
}

#[verifier::rlimit(100)]
proof fn lemma_xor_template()
    ensures
        SIMD_XOR_FOLD@ == "  (func $tvm_simd_xor_fold_u8_p@ (export \"tvm_simd_xor_fold_u8_p@\")\n        (param $off i32) (param $len i32) (result i32)\n    (local $cur i32) (local $end i32) (local $vec_end i32)\n    (local $acc v128) (local $tmp i64) (local $byte i32)\n"@
        + "    (local.set $cur (local.get $off))\n"@
        + "    (local.set $end (i32.add (local.get $off) (local.get $len)))\n"@
        + "    (local.set $vec_end\n      (i32.add (local.get $off)\n               (i32.and (local.get $len) (i32.const -16))))\n"@
        + "    (local.set $acc (v128.const i64x2 0 0))\n"@
        + "    (block $vec_done\n      (loop $vec_continue\n        (br_if $vec_done (i32.eq (local.get $cur) (local.get $vec_end)))\n"@
        + "        (local.set $acc\n          (v128.xor (local.get $acc) (v128.load @ (local.get $cur))))\n"@
        + "        (local.set $cur (i32.add (local.get $cur) (i32.const 16)))\n"@
        + "        (br $vec_continue)))\n"@
        + "    (local.set $tmp\n      (i64.xor\n        (i64x2.extract_lane 0 (local.get $acc))\n        (i64x2.extract_lane 1 (local.get $acc))))\n"@
        + "    (local.set $tmp\n      (i64.xor (local.get $tmp) (i64.shr_u (local.get $tmp) (i64.const 32))))\n"@
        + "    (local.set $tmp\n      (i64.xor (local.get $tmp) (i64.shr_u (local.get $tmp) (i64.const 16))))\n"@
        + "    (local.set $tmp\n      (i64.xor (local.get $tmp) (i64.shr_u (local.get $tmp) (i64.const 8))))\n"@
        + "    (local.set $byte (i32.and (i32.wrap_i64 (local.get $tmp)) (i32.const 0xff)))\n"@
        + "    (block $tail_done\n      (loop $tail_continue\n        (br_if $tail_done (i32.eq (local.get $cur) (local.get $end)))\n"@
        + "        (local.set $byte\n          (i32.xor (local.get $byte)\n                   (i32.load8_u @ (local.get $cur))))\n"@
        + "        (local.set $cur (i32.add (local.get $cur) (i32.const 1)))\n"@
        + "        (br $tail_continue)))\n"@ + "    (local.get $byte))\n"@,
{
    reveal_strlit("  (func $tvm_simd_xor_fold_u8_p@ (export \"tvm_simd_xor_fold_u8_p@\")\n        (param $off i32) (param $len i32) (result i32)\n    (local $cur i32) (local $end i32) (local $vec_end i32)\n    (local $acc v128) (local $tmp i64) (local $byte i32)\n");
    reveal_strlit("    (local.set $cur (local.get $off))\n");
    reveal_strlit("    (local.set $end (i32.add (local.get $off) (local.get $len)))\n");
    reveal_strlit("    (local.set $vec_end\n      (i32.add (local.get $off)\n               (i32.and (local.get $len) (i32.const -16))))\n");
    reveal_strlit("    (local.set $acc (v128.const i64x2 0 0))\n");
    reveal_strlit("    (block $vec_done\n      (loop $vec_continue\n        (br_if $vec_done (i32.eq (local.get $cur) (local.get $vec_end)))\n");
    reveal_strlit("        (local.set $acc\n          (v128.xor (local.get $acc) (v128.load @ (local.get $cur))))\n");
    reveal_strlit("        (local.set $cur (i32.add (local.get $cur) (i32.const 16)))\n");
    reveal_strlit("        (br $vec_continue)))\n");
    reveal_strlit("    (local.set $tmp\n      (i64.xor\n        (i64x2.extract_lane 0 (local.get $acc))\n        (i64x2.extract_lane 1 (local.get $acc))))\n");
    reveal_strlit("    (local.set $tmp\n      (i64.xor (local.get $tmp) (i64.shr_u (local.get $tmp) (i64.const 32))))\n");
    reveal_strlit("    (local.set $tmp\n      (i64.xor (local.get $tmp) (i64.shr_u (local.get $tmp) (i64.const 16))))\n");
    reveal_strlit("    (local.set $tmp\n      (i64.xor (local.get $tmp) (i64.shr_u (local.get $tmp) (i64.const 8))))\n");
    reveal_strlit("    (local.set $byte (i32.and (i32.wrap_i64 (local.get $tmp)) (i32.const 0xff)))\n");
    reveal_strlit("    (block $tail_done\n      (loop $tail_continue\n        (br_if $tail_done (i32.eq (local.get $cur) (local.get $end)))\n");
    reveal_strlit("        (local.set $byte\n          (i32.xor (local.get $byte)\n                   (i32.load8_u @ (local.get $cur))))\n");
    reveal_strlit("        (local.set $cur (i32.add (local.get $cur) (i32.const 1)))\n");
    reveal_strlit("        (br $tail_continue)))\n");
    reveal_strlit("    (local.get $byte))\n");
    reveal_strlit(r#"  (func $tvm_simd_xor_fold_u8_p@ (export "tvm_simd_xor_fold_u8_p@")
        (param $off i32) (param $len i32) (result i32)
    (local $cur i32) (local $end i32) (local $vec_end i32)
    (local $acc v128) (local $tmp i64) (local $byte i32)
    (local.set $cur (local.get $off))
    (local.set $end (i32.add (local.get $off) (local.get $len)))
    (local.set $vec_end
      (i32.add (local.get $off)
               (i32.and (local.get $len) (i32.const -16))))
    (local.set $acc (v128.const i64x2 0 0))
    (block $vec_done
      (loop $vec_continue
        (br_if $vec_done (i32.eq (local.get $cur) (local.get $vec_end)))
        (local.set $acc
          (v128.xor (local.get $acc) (v128.load @ (local.get $cur))))
        (local.set $cur (i32.add (local.get $cur) (i32.const 16)))
        (br $vec_continue)))
    (local.set $tmp
      (i64.xor
        (i64x2.extract_lane 0 (local.get $acc))
        (i64x2.extract_lane 1 (local.get $acc))))
    (local.set $tmp
      (i64.xor (local.get $tmp) (i64.shr_u (local.get $tmp) (i64.const 32))))
    (local.set $tmp
      (i64.xor (local.get $tmp) (i64.shr_u (local.get $tmp) (i64.const 16))))
    (local.set $tmp
      (i64.xor (local.get $tmp) (i64.shr_u (local.get $tmp) (i64.const 8))))
    (local.set $byte (i32.and (i32.wrap_i64 (local.get $tmp)) (i32.const 0xff)))
    (block $tail_done
      (loop $tail_continue
        (br_if $tail_done (i32.eq (local.get $cur) (local.get $end)))
        (local.set $byte
          (i32.xor (local.get $byte)
                   (i32.load8_u @ (local.get $cur))))
        (local.set $cur (i32.add (local.get $cur) (i32.const 1)))
        (br $tail_continue)))
    (local.get $byte))
"#);
    assert(SIMD_XOR_FOLD@ =~= "  (func $tvm_simd_xor_fold_u8_p@ (export \"tvm_simd_xor_fold_u8_p@\")\n        (param $off i32) (param $len i32) (result i32)\n    (local $cur i32) (local $end i32) (local $vec_end i32)\n    (local $acc v128) (local $tmp i64) (local $byte i32)\n"@
        + "    (local.set $cur (local.get $off))\n"@
        + "    (local.set $end (i32.add (local.get $off) (local.get $len)))\n"@
        + "    (local.set $vec_end\n      (i32.add (local.get $off)\n               (i32.and (local.get $len) (i32.const -16))))\n"@
        + "    (local.set $acc (v128.const i64x2 0 0))\n"@
        + "    (block $vec_done\n      (loop $vec_continue\n        (br_if $vec_done (i32.eq (local.get $cur) (local.get $vec_end)))\n"@
        + "        (local.set $acc\n          (v128.xor (local.get $acc) (v128.load @ (local.get $cur))))\n"@
        + "        (local.set $cur (i32.add (local.get $cur) (i32.const 16)))\n"@
        + "        (br $vec_continue)))\n"@
        + "    (local.set $tmp\n      (i64.xor\n        (i64x2.extract_lane 0 (local.get $acc))\n        (i64x2.extract_lane 1 (local.get $acc))))\n"@
        + "    (local.set $tmp\n      (i64.xor (local.get $tmp) (i64.shr_u (local.get $tmp) (i64.const 32))))\n"@
        + "    (local.set $tmp\n      (i64.xor (local.get $tmp) (i64.shr_u (local.get $tmp) (i64.const 16))))\n"@
        + "    (local.set $tmp\n      (i64.xor (local.get $tmp) (i64.shr_u (local.get $tmp) (i64.const 8))))\n"@
        + "    (local.set $byte (i32.and (i32.wrap_i64 (local.get $tmp)) (i32.const 0xff)))\n"@
        + "    (block $tail_done\n      (loop $tail_continue\n        (br_if $tail_done (i32.eq (local.get $cur) (local.get $end)))\n"@
        + "        (local.set $byte\n          (i32.xor (local.get $byte)\n                   (i32.load8_u @ (local.get $cur))))\n"@
        + "        (local.set $cur (i32.add (local.get $cur) (i32.const 1)))\n"@
        + "        (br $tail_continue)))\n"@ + "    (local.get $byte))\n"@);
}

proof fn lemma_xor_fill(k: nat)
    ensures
        fill(SIMD_XOR_FOLD@, k) == fill("  (func $tvm_simd_xor_fold_u8_p@ (export \"tvm_simd_xor_fold_u8_p@\")\n        (param $off i32) (param $len i32) (result i32)\n    (local $cur i32) (local $end i32) (local $vec_end i32)\n    (local $acc v128) (local $tmp i64) (local $byte i32)\n"@, k)
        + fill("    (local.set $cur (local.get $off))\n"@, k)
        + fill("    (local.set $end (i32.add (local.get $off) (local.get $len)))\n"@, k)
        + fill("    (local.set $vec_end\n      (i32.add (local.get $off)\n               (i32.and (local.get $len) (i32.const -16))))\n"@, k)
        + fill("    (local.set $acc (v128.const i64x2 0 0))\n"@, k)
        + fill("    (block $vec_done\n      (loop $vec_continue\n        (br_if $vec_done (i32.eq (local.get $cur) (local.get $vec_end)))\n"@, k)
        + fill("        (local.set $acc\n          (v128.xor (local.get $acc) (v128.load @ (local.get $cur))))\n"@, k)
        + fill("        (local.set $cur (i32.add (local.get $cur) (i32.const 16)))\n"@, k)
        + fill("        (br $vec_continue)))\n"@, k)
        + fill("    (local.set $tmp\n      (i64.xor\n        (i64x2.extract_lane 0 (local.get $acc))\n        (i64x2.extract_lane 1 (local.get $acc))))\n"@, k)
        + fill("    (local.set $tmp\n      (i64.xor (local.get $tmp) (i64.shr_u (local.get $tmp) (i64.const 32))))\n"@, k)
        + fill("    (local.set $tmp\n      (i64.xor (local.get $tmp) (i64.shr_u (local.get $tmp) (i64.const 16))))\n"@, k)
        + fill("    (local.set $tmp\n      (i64.xor (local.get $tmp) (i64.shr_u (local.get $tmp) (i64.const 8))))\n"@, k)
        + fill("    (local.set $byte (i32.and (i32.wrap_i64 (local.get $tmp)) (i32.const 0xff)))\n"@, k)
        + fill("    (block $tail_done\n      (loop $tail_continue\n        (br_if $tail_done (i32.eq (local.get $cur) (local.get $end)))\n"@, k)
        + fill("        (local.set $byte\n          (i32.xor (local.get $byte)\n                   (i32.load8_u @ (local.get $cur))))\n"@, k)
        + fill("        (local.set $cur (i32.add (local.get $cur) (i32.const 1)))\n"@, k)
        + fill("        (br $tail_continue)))\n"@, k) + fill("    (local.get $byte))\n"@, k),
{
    broadcast use lemma_fill_add;

    lemma_xor_template();
}

proof fn lemma_xor_kernel_text(k: nat)
    ensures
        squeezed(fill(SIMD_XOR_FOLD@, k)) == squeezed(kernel_text(kernel(Fold::Xor, "tvm_simd_xor_fold_u8_p"@, k))),
{
    lemma_xor_fill(k);
    let p0 = fill("  (func $tvm_simd_xor_fold_u8_p@ (export \"tvm_simd_xor_fold_u8_p@\")\n        (param $off i32) (param $len i32) (result i32)\n    (local $cur i32) (local $end i32) (local $vec_end i32)\n    (local $acc v128) (local $tmp i64) (local $byte i32)\n"@, k);
    lemma_xor_head(k);
    let p1 = fill("    (local.set $cur (local.get $off))\n"@, k);
    lemma_xor_cur(k);
    let p2 = fill("    (local.set $end (i32.add (local.get $off) (local.get $len)))\n"@, k);
    lemma_xor_end(k);
    let p3 = fill("    (local.set $vec_end\n      (i32.add (local.get $off)\n               (i32.and (local.get $len) (i32.const -16))))\n"@, k);
    lemma_xor_vec_end(k);
    let p4 = fill("    (local.set $acc (v128.const i64x2 0 0))\n"@, k);
    lemma_xor_acc(k);
    let p5 = fill("    (block $vec_done\n      (loop $vec_continue\n        (br_if $vec_done (i32.eq (local.get $cur) (local.get $vec_end)))\n"@, k);
    lemma_xor_vec(k);
    let p6 = fill("        (local.set $acc\n          (v128.xor (local.get $acc) (v128.load @ (local.get $cur))))\n"@, k);
    lemma_xor_fold(k);
    let p7 = fill("        (local.set $cur (i32.add (local.get $cur) (i32.const 16)))\n"@, k);
    lemma_xor_step(k);
    let p8 = fill("        (br $vec_continue)))\n"@, k);
    lemma_xor_again(k);
    let p9 = fill("    (local.set $tmp\n      (i64.xor\n        (i64x2.extract_lane 0 (local.get $acc))\n        (i64x2.extract_lane 1 (local.get $acc))))\n"@, k);
    lemma_xor_join(k);
    let p10 = fill("    (local.set $tmp\n      (i64.xor (local.get $tmp) (i64.shr_u (local.get $tmp) (i64.const 32))))\n"@, k);
    lemma_xor_h32(k);
    let p11 = fill("    (local.set $tmp\n      (i64.xor (local.get $tmp) (i64.shr_u (local.get $tmp) (i64.const 16))))\n"@, k);
    lemma_xor_h16(k);
    let p12 = fill("    (local.set $tmp\n      (i64.xor (local.get $tmp) (i64.shr_u (local.get $tmp) (i64.const 8))))\n"@, k);
    lemma_xor_h8(k);
    let p13 = fill("    (local.set $byte (i32.and (i32.wrap_i64 (local.get $tmp)) (i32.const 0xff)))\n"@, k);
    lemma_xor_take(k);
    let p14 = fill("    (block $tail_done\n      (loop $tail_continue\n        (br_if $tail_done (i32.eq (local.get $cur) (local.get $end)))\n"@, k);
    lemma_xor_tail(k);
    let p15 = fill("        (local.set $byte\n          (i32.xor (local.get $byte)\n                   (i32.load8_u @ (local.get $cur))))\n"@, k);
    lemma_xor_single(k);
    let p16 = fill("        (local.set $cur (i32.add (local.get $cur) (i32.const 1)))\n"@, k);
    lemma_xor_next(k);
    let p17 = fill("        (br $tail_continue)))\n"@, k);
    lemma_xor_back(k);
    let p18 = fill("    (local.get $byte))\n"@, k);
    lemma_xor_value(k);
    lemma_squeezed_add(p0, p1);
    lemma_squeezed_add(p0 + p1, p2);
    lemma_squeezed_add(p0 + p1 + p2, p3);
    lemma_squeezed_add(p0 + p1 + p2 + p3, p4);
    lemma_squeezed_add(p0 + p1 + p2 + p3 + p4, p5);
    lemma_squeezed_add(p0 + p1 + p2 + p3 + p4 + p5, p6);
    lemma_squeezed_add(p0 + p1 + p2 + p3 + p4 + p5 + p6, p7);
    lemma_squeezed_add(p0 + p1 + p2 + p3 + p4 + p5 + p6 + p7, p8);
    lemma_squeezed_add(p0 + p1 + p2 + p3 + p4 + p5 + p6 + p7 + p8, p9);
    lemma_squeezed_add(p0 + p1 + p2 + p3 + p4 + p5 + p6 + p7 + p8 + p9, p10);
    lemma_squeezed_add(p0 + p1 + p2 + p3 + p4 + p5 + p6 + p7 + p8 + p9 + p10, p11);
    lemma_squeezed_add(p0 + p1 + p2 + p3 + p4 + p5 + p6 + p7 + p8 + p9 + p10 + p11, p12);
    lemma_squeezed_add(p0 + p1 + p2 + p3 + p4 + p5 + p6 + p7 + p8 + p9 + p10 + p11 + p12, p13);
    lemma_squeezed_add(p0 + p1 + p2 + p3 + p4 + p5 + p6 + p7 + p8 + p9 + p10 + p11 + p12 + p13, p14);
    lemma_squeezed_add(p0 + p1 + p2 + p3 + p4 + p5 + p6 + p7 + p8 + p9 + p10 + p11 + p12 + p13 + p14, p15);
    lemma_squeezed_add(p0 + p1 + p2 + p3 + p4 + p5 + p6 + p7 + p8 + p9 + p10 + p11 + p12 + p13 + p14 + p15, p16);
    lemma_squeezed_add(p0 + p1 + p2 + p3 + p4 + p5 + p6 + p7 + p8 + p9 + p10 + p11 + p12 + p13 + p14 + p15 + p16, p17);
    lemma_squeezed_add(p0 + p1 + p2 + p3 + p4 + p5 + p6 + p7 + p8 + p9 + p10 + p11 + p12 + p13 + p14 + p15 + p16 + p17, p18);
    lemma_fold_text(Fold::Xor, "tvm_simd_xor_fold_u8_p"@, k);
    lemma_xor_regroup(
        squeezed(p0),
        squeezed(p1),
        squeezed(p2),
        squeezed(p3),
        squeezed(p4),
        squeezed(p5),
        squeezed(p6),
        squeezed(p7),
        squeezed(p8),
        squeezed(p9),
        squeezed(p10),
        squeezed(p11),
        squeezed(p12),
        squeezed(p13),
        squeezed(p14),
        squeezed(p15),
        squeezed(p16),
        squeezed(p17),
        squeezed(term_text(get("byte"@))),
        squeezed(")"@),
    );
}

proof fn lemma_xor_regroup(
    x0: Seq<char>,
    x1: Seq<char>,
    x2: Seq<char>,
    x3: Seq<char>,
    x4: Seq<char>,
    x5: Seq<char>,
    x6: Seq<char>,
    x7: Seq<char>,
    x8: Seq<char>,
    x9: Seq<char>,
    x10: Seq<char>,
    x11: Seq<char>,
    x12: Seq<char>,
    x13: Seq<char>,
    x14: Seq<char>,
    x15: Seq<char>,
    x16: Seq<char>,
    x17: Seq<char>,
    v: Seq<char>,
    z: Seq<char>,
)
    ensures
        x0 + x1 + x2 + x3 + x4 + x5 + x6 + x7 + x8 + x9 + x10 + x11 + x12 + x13 + x14 + x15 + x16
        + x17 + (v + z) == x0 + (x1 + x2 + x3 + x4 + (x5 + (x6 + x7) + x8) + (x9 + x10 + x11 + x12 + x13) + (x14
        + (x15 + x16) + x17)) + v + z,
{
    broadcast use lemma_add_assoc;

}

proof fn lemma_or_head_words()
    ensures
        "  (func $tvm_simd_or_fold_u8_p@ (export \"tvm_simd_or_fold_u8_p@\")\n        (param $off i32) (param $len i32) (result i32)\n    (local $cur i32) (local $end i32) (local $vec_end i32)\n    (local $acc v128) (local $tmp i64) (local $byte i32)\n"@ == ("  "@ + "(func $"@) + ("tvm_simd_or_fold_u8_p"@ + "@"@) + " (export \""@
        + ("tvm_simd_or_fold_u8_p"@ + "@"@) + "\")"@ + (((("\n"@ + "  "@ + "  "@ + "  "@ + "  "@)
        + "("@) + "param"@ + " $"@ + "off"@ + " "@ + "i32"@ + ")"@) + ((" "@ + "("@) + "param"@
        + " $"@ + "len"@ + " "@ + "i32"@ + ")"@)) + (" "@ + "(result "@) + "i32"@ + ")"@
        + (((((((("\n"@ + "  "@ + "  "@) + "("@) + "local"@ + " $"@ + "cur"@ + " "@ + "i32"@
        + ")"@) + ((" "@ + "("@) + "local"@ + " $"@ + "end"@ + " "@ + "i32"@ + ")"@)) + ((" "@
        + "("@) + "local"@ + " $"@ + "vec_end"@ + " "@ + "i32"@ + ")"@)) + ((("\n"@ + "  "@
        + "  "@) + "("@) + "local"@ + " $"@ + "acc"@ + " "@ + "v128"@ + ")"@)) + ((" "@ + "("@)
        + "local"@ + " $"@ + "tmp"@ + " "@ + "i64"@ + ")"@)) + ((" "@ + "("@) + "local"@ + " $"@
        + "byte"@ + " "@ + "i32"@ + ")"@)) + "\n"@,
{
    reveal_strlit("  (func $tvm_simd_or_fold_u8_p@ (export \"tvm_simd_or_fold_u8_p@\")\n        (param $off i32) (param $len i32) (result i32)\n    (local $cur i32) (local $end i32) (local $vec_end i32)\n    (local $acc v128) (local $tmp i64) (local $byte i32)\n");
    reveal_strlit("  ");
    reveal_strlit("(func $");
    reveal_strlit("tvm_simd_or_fold_u8_p");
    reveal_strlit("@");
    reveal_strlit(" (export \"");
    reveal_strlit("\")");
    reveal_strlit("\n");
    reveal_strlit("(");
    reveal_strlit("param");
    reveal_strlit(" $");
    reveal_strlit("off");
    reveal_strlit(" ");
    reveal_strlit("i32");
    reveal_strlit(")");
    reveal_strlit("len");
    reveal_strlit("(result ");
    reveal_strlit("local");
    reveal_strlit("cur");
    reveal_strlit("end");
    reveal_strlit("vec_end");
    reveal_strlit("acc");
    reveal_strlit("v128");
    reveal_strlit("tmp");
    reveal_strlit("i64");
    reveal_strlit("byte");
    assert("  (func $tvm_simd_or_fold_u8_p@ (export \"tvm_simd_or_fold_u8_p@\")\n        (param $off i32) (param $len i32) (result i32)\n    (local $cur i32) (local $end i32) (local $vec_end i32)\n    (local $acc v128) (local $tmp i64) (local $byte i32)\n"@ =~= ("  "@ + "(func $"@) + ("tvm_simd_or_fold_u8_p"@ + "@"@) + " (export \""@
        + ("tvm_simd_or_fold_u8_p"@ + "@"@) + "\")"@ + (((("\n"@ + "  "@ + "  "@ + "  "@ + "  "@)
        + "("@) + "param"@ + " $"@ + "off"@ + " "@ + "i32"@ + ")"@) + ((" "@ + "("@) + "param"@
        + " $"@ + "len"@ + " "@ + "i32"@ + ")"@)) + (" "@ + "(result "@) + "i32"@ + ")"@
        + (((((((("\n"@ + "  "@ + "  "@) + "("@) + "local"@ + " $"@ + "cur"@ + " "@ + "i32"@
        + ")"@) + ((" "@ + "("@) + "local"@ + " $"@ + "end"@ + " "@ + "i32"@ + ")"@)) + ((" "@
        + "("@) + "local"@ + " $"@ + "vec_end"@ + " "@ + "i32"@ + ")"@)) + ((("\n"@ + "  "@
        + "  "@) + "("@) + "local"@ + " $"@ + "acc"@ + " "@ + "v128"@ + ")"@)) + ((" "@ + "("@)
        + "local"@ + " $"@ + "tmp"@ + " "@ + "i64"@ + ")"@)) + ((" "@ + "("@) + "local"@ + " $"@
        + "byte"@ + " "@ + "i32"@ + ")"@)) + "\n"@);
}

proof fn lemma_or_head_filled(k: nat)
    ensures
        fill("  (func $tvm_simd_or_fold_u8_p@ (export \"tvm_simd_or_fold_u8_p@\")\n        (param $off i32) (param $len i32) (result i32)\n    (local $cur i32) (local $end i32) (local $vec_end i32)\n    (local $acc v128) (local $tmp i64) (local $byte i32)\n"@, k) == ("  "@ + "(func $"@) + ("tvm_simd_or_fold_u8_p"@ + decimal(k)) + " (export \""@
        + ("tvm_simd_or_fold_u8_p"@ + decimal(k)) + "\")"@ + (((("\n"@ + "  "@ + "  "@ + "  "@
        + "  "@) + "("@) + "param"@ + " $"@ + "off"@ + " "@ + "i32"@ + ")"@) + ((" "@ + "("@)
        + "param"@ + " $"@ + "len"@ + " "@ + "i32"@ + ")"@)) + (" "@ + "(result "@) + "i32"@
        + ")"@ + (((((((("\n"@ + "  "@ + "  "@) + "("@) + "local"@ + " $"@ + "cur"@ + " "@
        + "i32"@ + ")"@) + ((" "@ + "("@) + "local"@ + " $"@ + "end"@ + " "@ + "i32"@ + ")"@))
        + ((" "@ + "("@) + "local"@ + " $"@ + "vec_end"@ + " "@ + "i32"@ + ")"@)) + ((("\n"@
        + "  "@ + "  "@) + "("@) + "local"@ + " $"@ + "acc"@ + " "@ + "v128"@ + ")"@)) + ((" "@
        + "("@) + "local"@ + " $"@ + "tmp"@ + " "@ + "i64"@ + ")"@)) + ((" "@ + "("@) + "local"@
        + " $"@ + "byte"@ + " "@ + "i32"@ + ")"@)) + "\n"@,
{
    broadcast use lemma_fill_add;

    lemma_or_head_words();
    lemma_plain_words(k);
    lemma_fill_place(k);
}

proof fn lemma_or_head(k: nat)
    ensures
        squeezed(fill("  (func $tvm_simd_or_fold_u8_p@ (export \"tvm_simd_or_fold_u8_p@\")\n        (param $off i32) (param $len i32) (result i32)\n    (local $cur i32) (local $end i32) (local $vec_end i32)\n    (local $acc v128) (local $tmp i64) (local $byte i32)\n"@, k)) == head_text(kernel(Fold::Or, "tvm_simd_or_fold_u8_p"@, k)),
{
    broadcast use {lemma_squeezed_add, lemma_add_nothing, lemma_nothing_add};

    lemma_blank_literals();
    lemma_or_head_filled(k);
    lemma_head_text(Fold::Or, "tvm_simd_or_fold_u8_p"@, k);
}

proof fn lemma_or_cur_text(k: nat)
    ensures
        squeezed(code_text(set_cur())) == squeezed("(local.set $"@) + squeezed("cur"@) + (squeezed("(local.get $"@)
        + squeezed("off"@) + squeezed(")"@)) + squeezed(")"@),
{
    lemma_get_text("off"@);
    lemma_assign_text("cur"@, get("off"@));
    assert(set_cur() == Code::Assign("cur"@, get("off"@)));
}

proof fn lemma_or_cur_words()
    ensures
        "    (local.set $cur (local.get $off))\n"@ == (("  "@ + "  "@) + "(local.set $"@ + "cur"@ + " "@ + ("(local.get $"@ + "off"@ + ")"@)
        + ")"@) + "\n"@,
{
    reveal_strlit("    (local.set $cur (local.get $off))\n");
    reveal_strlit("  ");
    reveal_strlit("(local.set $");
    reveal_strlit("cur");
    reveal_strlit(" ");
    reveal_strlit("(local.get $");
    reveal_strlit("off");
    reveal_strlit(")");
    reveal_strlit("\n");
    assert("    (local.set $cur (local.get $off))\n"@ =~= (("  "@ + "  "@) + "(local.set $"@ + "cur"@ + " "@ + ("(local.get $"@ + "off"@ + ")"@)
        + ")"@) + "\n"@);
}

proof fn lemma_or_cur_filled(k: nat)
    ensures
        fill("    (local.set $cur (local.get $off))\n"@, k) == (("  "@ + "  "@) + "(local.set $"@ + "cur"@ + " "@ + ("(local.get $"@ + "off"@ + ")"@)
        + ")"@) + "\n"@,
{
    broadcast use lemma_fill_add;

    lemma_or_cur_words();
    lemma_plain_words(k);
}

proof fn lemma_or_cur(k: nat)
    ensures
        squeezed(fill("    (local.set $cur (local.get $off))\n"@, k)) == squeezed(code_text(set_cur())),
{
    broadcast use {lemma_squeezed_add, lemma_add_nothing, lemma_nothing_add};

    lemma_blank_literals();
    lemma_or_cur_filled(k);
    lemma_or_cur_text(k);
}

proof fn lemma_or_end_text(k: nat)
    ensures
        squeezed(code_text(set_end())) == squeezed("(local.set $"@) + squeezed("end"@) + (squeezed("("@) + squeezed("i32.add"@)
        + (squeezed("(local.get $"@) + squeezed("off"@) + squeezed(")"@))
        + (squeezed("(local.get $"@) + squeezed("len"@) + squeezed(")"@)) + squeezed(")"@))
        + squeezed(")"@),
{
    lemma_get_text("off"@);
    lemma_get_text("len"@);
    lemma_bin_text("i32.add"@, get("off"@), get("len"@));
    lemma_assign_text("end"@, bin("i32.add"@, get("off"@), get("len"@)));
    assert(set_end() == Code::Assign("end"@, bin("i32.add"@, get("off"@), get("len"@))));
}

proof fn lemma_or_end_words()
    ensures
        "    (local.set $end (i32.add (local.get $off) (local.get $len)))\n"@ == (("  "@ + "  "@) + "(local.set $"@ + "end"@ + " "@ + ("("@ + "i32.add"@ + " "@
        + ("(local.get $"@ + "off"@ + ")"@) + " "@ + ("(local.get $"@ + "len"@ + ")"@) + ")"@)
        + ")"@) + "\n"@,
{
    reveal_strlit("    (local.set $end (i32.add (local.get $off) (local.get $len)))\n");
    reveal_strlit("  ");
    reveal_strlit("(local.set $");
    reveal_strlit("end");
    reveal_strlit(" ");
    reveal_strlit("(");
    reveal_strlit("i32.add");
    reveal_strlit("(local.get $");
    reveal_strlit("off");
    reveal_strlit(")");
    reveal_strlit("len");
    reveal_strlit("\n");
    assert("    (local.set $end (i32.add (local.get $off) (local.get $len)))\n"@ =~= (("  "@ + "  "@) + "(local.set $"@ + "end"@ + " "@ + ("("@ + "i32.add"@ + " "@
        + ("(local.get $"@ + "off"@ + ")"@) + " "@ + ("(local.get $"@ + "len"@ + ")"@) + ")"@)
        + ")"@) + "\n"@);
}

proof fn lemma_or_end_filled(k: nat)
    ensures
        fill("    (local.set $end (i32.add (local.get $off) (local.get $len)))\n"@, k) == (("  "@ + "  "@) + "(local.set $"@ + "end"@ + " "@ + ("("@ + "i32.add"@ + " "@
        + ("(local.get $"@ + "off"@ + ")"@) + " "@ + ("(local.get $"@ + "len"@ + ")"@) + ")"@)
        + ")"@) + "\n"@,
{
    broadcast use lemma_fill_add;

    lemma_or_end_words();
    lemma_plain_words(k);
}

proof fn lemma_or_end(k: nat)
    ensures
        squeezed(fill("    (local.set $end (i32.add (local.get $off) (local.get $len)))\n"@, k)) == squeezed(code_text(set_end())),
{
    broadcast use {lemma_squeezed_add, lemma_add_nothing, lemma_nothing_add};

    lemma_blank_literals();
    lemma_or_end_filled(k);
    lemma_or_end_text(k);
}

proof fn lemma_or_vec_end_text(k: nat)
    ensures
        squeezed(code_text(set_vec_end())) == squeezed("(local.set $"@) + squeezed("vec_end"@) + (squeezed("("@) + squeezed("i32.add"@)
        + (squeezed("(local.get $"@) + squeezed("off"@) + squeezed(")"@)) + (squeezed("("@)
        + squeezed("i32.and"@) + (squeezed("(local.get $"@) + squeezed("len"@) + squeezed(")"@))
        + (squeezed("("@) + squeezed("i32.const"@) + squeezed("-16"@) + squeezed(")"@))
        + squeezed(")"@)) + squeezed(")"@)) + squeezed(")"@),
{
    lemma_get_text("off"@);
    lemma_get_text("len"@);
    lemma_lit_text("i32.const"@, "-16"@);
    lemma_bin_text("i32.and"@, get("len"@), Term::Lit("i32.const"@, "-16"@));
    lemma_bin_text("i32.add"@, get("off"@), bin("i32.and"@, get("len"@), Term::Lit("i32.const"@, "-16"@)));
    lemma_assign_text("vec_end"@, bin("i32.add"@, get("off"@), bin("i32.and"@, get("len"@), Term::Lit("i32.const"@, "-16"@))));
    assert(set_vec_end() == Code::Assign("vec_end"@, bin("i32.add"@, get("off"@), bin("i32.and"@, get("len"@), Term::Lit("i32.const"@, "-16"@)))));
}

proof fn lemma_or_vec_end_words()
    ensures
        "    (local.set $vec_end\n      (i32.add (local.get $off)\n               (i32.and (local.get $len) (i32.const -16))))\n"@ == (("  "@ + "  "@) + "(local.set $"@ + "vec_end"@ + ("\n"@ + "  "@ + "  "@ + "  "@) + ("("@
        + "i32.add"@ + " "@ + ("(local.get $"@ + "off"@ + ")"@) + ("\n"@ + "  "@ + "  "@ + "  "@
        + "  "@ + "  "@ + "  "@ + "  "@ + " "@) + ("("@ + "i32.and"@ + " "@ + ("(local.get $"@
        + "len"@ + ")"@) + " "@ + ("("@ + "i32.const"@ + " "@ + "-16"@ + ")"@) + ")"@) + ")"@)
        + ")"@) + "\n"@,
{
    reveal_strlit("    (local.set $vec_end\n      (i32.add (local.get $off)\n               (i32.and (local.get $len) (i32.const -16))))\n");
    reveal_strlit("  ");
    reveal_strlit("(local.set $");
    reveal_strlit("vec_end");
    reveal_strlit("\n");
    reveal_strlit("(");
    reveal_strlit("i32.add");
    reveal_strlit(" ");
    reveal_strlit("(local.get $");
    reveal_strlit("off");
    reveal_strlit(")");
    reveal_strlit("i32.and");
    reveal_strlit("len");
    reveal_strlit("i32.const");
    reveal_strlit("-16");
    assert("    (local.set $vec_end\n      (i32.add (local.get $off)\n               (i32.and (local.get $len) (i32.const -16))))\n"@ =~= (("  "@ + "  "@) + "(local.set $"@ + "vec_end"@ + ("\n"@ + "  "@ + "  "@ + "  "@) + ("("@
        + "i32.add"@ + " "@ + ("(local.get $"@ + "off"@ + ")"@) + ("\n"@ + "  "@ + "  "@ + "  "@
        + "  "@ + "  "@ + "  "@ + "  "@ + " "@) + ("("@ + "i32.and"@ + " "@ + ("(local.get $"@
        + "len"@ + ")"@) + " "@ + ("("@ + "i32.const"@ + " "@ + "-16"@ + ")"@) + ")"@) + ")"@)
        + ")"@) + "\n"@);
}

proof fn lemma_or_vec_end_filled(k: nat)
    ensures
        fill("    (local.set $vec_end\n      (i32.add (local.get $off)\n               (i32.and (local.get $len) (i32.const -16))))\n"@, k) == (("  "@ + "  "@) + "(local.set $"@ + "vec_end"@ + ("\n"@ + "  "@ + "  "@ + "  "@) + ("("@
        + "i32.add"@ + " "@ + ("(local.get $"@ + "off"@ + ")"@) + ("\n"@ + "  "@ + "  "@ + "  "@
        + "  "@ + "  "@ + "  "@ + "  "@ + " "@) + ("("@ + "i32.and"@ + " "@ + ("(local.get $"@
        + "len"@ + ")"@) + " "@ + ("("@ + "i32.const"@ + " "@ + "-16"@ + ")"@) + ")"@) + ")"@)
        + ")"@) + "\n"@,
{
    broadcast use lemma_fill_add;

    lemma_or_vec_end_words();
    lemma_plain_words(k);
}

proof fn lemma_or_vec_end(k: nat)
    ensures
        squeezed(fill("    (local.set $vec_end\n      (i32.add (local.get $off)\n               (i32.and (local.get $len) (i32.const -16))))\n"@, k)) == squeezed(code_text(set_vec_end())),
{
    broadcast use {lemma_squeezed_add, lemma_add_nothing, lemma_nothing_add};

    lemma_blank_literals();
    lemma_or_vec_end_filled(k);
    lemma_or_vec_end_text(k);
}

proof fn lemma_or_acc_text(k: nat)
    ensures
        squeezed(code_text(set_acc(Fold::Or))) == squeezed("(local.set $"@) + squeezed("acc"@) + (squeezed("("@) + squeezed("v128.const"@)
        + squeezed("i64x2 0 0"@) + squeezed(")"@)) + squeezed(")"@),
{
    lemma_lit_text("v128.const"@, "i64x2 0 0"@);
    lemma_assign_text("acc"@, Term::Lit("v128.const"@, "i64x2 0 0"@));
    assert(set_acc(Fold::Or) == Code::Assign("acc"@, Term::Lit("v128.const"@, "i64x2 0 0"@)));
}

proof fn lemma_or_acc_words()
    ensures
        "    (local.set $acc (v128.const i64x2 0 0))\n"@ == (("  "@ + "  "@) + "(local.set $"@ + "acc"@ + " "@ + ("("@ + "v128.const"@ + " "@
        + "i64x2 0 0"@ + ")"@) + ")"@) + "\n"@,
{
    reveal_strlit("    (local.set $acc (v128.const i64x2 0 0))\n");
    reveal_strlit("  ");
    reveal_strlit("(local.set $");
    reveal_strlit("acc");
    reveal_strlit(" ");
    reveal_strlit("(");
    reveal_strlit("v128.const");
    reveal_strlit("i64x2 0 0");
    reveal_strlit(")");
    reveal_strlit("\n");
    assert("    (local.set $acc (v128.const i64x2 0 0))\n"@ =~= (("  "@ + "  "@) + "(local.set $"@ + "acc"@ + " "@ + ("("@ + "v128.const"@ + " "@
        + "i64x2 0 0"@ + ")"@) + ")"@) + "\n"@);
}

proof fn lemma_or_acc_filled(k: nat)
    ensures
        fill("    (local.set $acc (v128.const i64x2 0 0))\n"@, k) == (("  "@ + "  "@) + "(local.set $"@ + "acc"@ + " "@ + ("("@ + "v128.const"@ + " "@
        + "i64x2 0 0"@ + ")"@) + ")"@) + "\n"@,
{
    broadcast use lemma_fill_add;

    lemma_or_acc_words();
    lemma_plain_words(k);
}

proof fn lemma_or_acc(k: nat)
    ensures
        squeezed(fill("    (local.set $acc (v128.const i64x2 0 0))\n"@, k)) == squeezed(code_text(set_acc(Fold::Or))),
{
    broadcast use {lemma_squeezed_add, lemma_add_nothing, lemma_nothing_add};

    lemma_blank_literals();
    lemma_or_acc_filled(k);
    lemma_or_acc_text(k);
}

proof fn lemma_or_vec_words()
    ensures
        "    (block $vec_done\n      (loop $vec_continue\n        (br_if $vec_done (i32.eq (local.get $cur) (local.get $vec_end)))\n"@ == (("  "@ + "  "@) + "(block $"@) + "vec_done"@ + ("\n"@ + "  "@ + "  "@ + " "@)
        + " (loop $"@ + "vec_continue"@ + ("\n"@ + "  "@ + "  "@ + "  "@ + " "@) + " (br_if $"@
        + "vec_done"@ + " "@ + ("("@ + "i32.eq"@ + " "@ + ("(local.get $"@ + "cur"@ + ")"@) + " "@
        + ("(local.get $"@ + "vec_end"@ + ")"@) + ")"@) + ")"@ + "\n"@,
{
    reveal_strlit("    (block $vec_done\n      (loop $vec_continue\n        (br_if $vec_done (i32.eq (local.get $cur) (local.get $vec_end)))\n");
    reveal_strlit("  ");
    reveal_strlit("(block $");
    reveal_strlit("vec_done");
    reveal_strlit("\n");
    reveal_strlit(" ");
    reveal_strlit(" (loop $");
    reveal_strlit("vec_continue");
    reveal_strlit(" (br_if $");
    reveal_strlit("(");
    reveal_strlit("i32.eq");
    reveal_strlit("(local.get $");
    reveal_strlit("cur");
    reveal_strlit(")");
    reveal_strlit("vec_end");
    assert("    (block $vec_done\n      (loop $vec_continue\n        (br_if $vec_done (i32.eq (local.get $cur) (local.get $vec_end)))\n"@ =~= (("  "@ + "  "@) + "(block $"@) + "vec_done"@ + ("\n"@ + "  "@ + "  "@ + " "@)
        + " (loop $"@ + "vec_continue"@ + ("\n"@ + "  "@ + "  "@ + "  "@ + " "@) + " (br_if $"@
        + "vec_done"@ + " "@ + ("("@ + "i32.eq"@ + " "@ + ("(local.get $"@ + "cur"@ + ")"@) + " "@
        + ("(local.get $"@ + "vec_end"@ + ")"@) + ")"@) + ")"@ + "\n"@);
}

proof fn lemma_or_vec_filled(k: nat)
    ensures
        fill("    (block $vec_done\n      (loop $vec_continue\n        (br_if $vec_done (i32.eq (local.get $cur) (local.get $vec_end)))\n"@, k) == (("  "@ + "  "@) + "(block $"@) + "vec_done"@ + ("\n"@ + "  "@ + "  "@ + " "@)
        + " (loop $"@ + "vec_continue"@ + ("\n"@ + "  "@ + "  "@ + "  "@ + " "@) + " (br_if $"@
        + "vec_done"@ + " "@ + ("("@ + "i32.eq"@ + " "@ + ("(local.get $"@ + "cur"@ + ")"@) + " "@
        + ("(local.get $"@ + "vec_end"@ + ")"@) + ")"@) + ")"@ + "\n"@,
{
    broadcast use lemma_fill_add;

    lemma_or_vec_words();
    lemma_plain_words(k);
}

proof fn lemma_or_vec(k: nat)
    ensures
        squeezed(fill("    (block $vec_done\n      (loop $vec_continue\n        (br_if $vec_done (i32.eq (local.get $cur) (local.get $vec_end)))\n"@, k)) == opening_text("vec_done"@, "vec_continue"@, bin("i32.eq"@, get("cur"@), get("vec_end"@))),
{
    broadcast use {lemma_squeezed_add, lemma_add_nothing, lemma_nothing_add};

    lemma_blank_literals();
    lemma_or_vec_filled(k);
    lemma_get_text("cur"@);
    lemma_get_text("vec_end"@);
    lemma_bin_text("i32.eq"@, get("cur"@), get("vec_end"@));
}

proof fn lemma_or_fold_text(k: nat)
    ensures
        squeezed(code_text(fold_vec(Fold::Or, k))) == squeezed("(local.set $"@) + squeezed("acc"@) + (squeezed("("@) + squeezed("v128.or"@)
        + (squeezed("(local.get $"@) + squeezed("acc"@) + squeezed(")"@)) + (squeezed("("@)
        + squeezed("v128.load"@) + squeezed(decimal(k)) + (squeezed("(local.get $"@)
        + squeezed("cur"@) + squeezed(")"@)) + squeezed(")"@)) + squeezed(")"@)) + squeezed(")"@),
{
    lemma_get_text("acc"@);
    lemma_get_text("cur"@);
    lemma_load_text("v128.load"@, k, get("cur"@));
    lemma_bin_text("v128.or"@, get("acc"@), Term::Load("v128.load"@, k, Box::new(get("cur"@))));
    lemma_assign_text("acc"@, bin("v128.or"@, get("acc"@), Term::Load("v128.load"@, k, Box::new(get("cur"@)))));
    assert(fold_vec(Fold::Or, k) == Code::Assign("acc"@, bin("v128.or"@, get("acc"@), Term::Load("v128.load"@, k, Box::new(get("cur"@))))));
}

proof fn lemma_or_fold_words()
    ensures
        "        (local.set $acc\n          (v128.or (local.get $acc) (v128.load @ (local.get $cur))))\n"@ == (("  "@ + "  "@ + "  "@ + "  "@) + "(local.set $"@ + "acc"@ + ("\n"@ + "  "@ + "  "@
        + "  "@ + "  "@ + "  "@) + ("("@ + "v128.or"@ + " "@ + ("(local.get $"@ + "acc"@ + ")"@)
        + " "@ + ("("@ + "v128.load"@ + " "@ + "@"@ + " "@ + ("(local.get $"@ + "cur"@ + ")"@)
        + ")"@) + ")"@) + ")"@) + "\n"@,
{
    reveal_strlit("        (local.set $acc\n          (v128.or (local.get $acc) (v128.load @ (local.get $cur))))\n");
    reveal_strlit("  ");
    reveal_strlit("(local.set $");
    reveal_strlit("acc");
    reveal_strlit("\n");
    reveal_strlit("(");
    reveal_strlit("v128.or");
    reveal_strlit(" ");
    reveal_strlit("(local.get $");
    reveal_strlit(")");
    reveal_strlit("v128.load");
    reveal_strlit("@");
    reveal_strlit("cur");
    assert("        (local.set $acc\n          (v128.or (local.get $acc) (v128.load @ (local.get $cur))))\n"@ =~= (("  "@ + "  "@ + "  "@ + "  "@) + "(local.set $"@ + "acc"@ + ("\n"@ + "  "@ + "  "@
        + "  "@ + "  "@ + "  "@) + ("("@ + "v128.or"@ + " "@ + ("(local.get $"@ + "acc"@ + ")"@)
        + " "@ + ("("@ + "v128.load"@ + " "@ + "@"@ + " "@ + ("(local.get $"@ + "cur"@ + ")"@)
        + ")"@) + ")"@) + ")"@) + "\n"@);
}

proof fn lemma_or_fold_filled(k: nat)
    ensures
        fill("        (local.set $acc\n          (v128.or (local.get $acc) (v128.load @ (local.get $cur))))\n"@, k) == (("  "@ + "  "@ + "  "@ + "  "@) + "(local.set $"@ + "acc"@ + ("\n"@ + "  "@ + "  "@
        + "  "@ + "  "@ + "  "@) + ("("@ + "v128.or"@ + " "@ + ("(local.get $"@ + "acc"@ + ")"@)
        + " "@ + ("("@ + "v128.load"@ + " "@ + decimal(k) + " "@ + ("(local.get $"@ + "cur"@
        + ")"@) + ")"@) + ")"@) + ")"@) + "\n"@,
{
    broadcast use lemma_fill_add;

    lemma_or_fold_words();
    lemma_plain_words(k);
    lemma_fill_place(k);
}

proof fn lemma_or_fold(k: nat)
    ensures
        squeezed(fill("        (local.set $acc\n          (v128.or (local.get $acc) (v128.load @ (local.get $cur))))\n"@, k)) == squeezed(code_text(fold_vec(Fold::Or, k))),
{
    broadcast use {lemma_squeezed_add, lemma_add_nothing, lemma_nothing_add};

    lemma_blank_literals();
    lemma_or_fold_filled(k);
    lemma_or_fold_text(k);
}

proof fn lemma_or_step_text(k: nat)
    ensures
        squeezed(code_text(step_by("16"@))) == squeezed("(local.set $"@) + squeezed("cur"@) + (squeezed("("@) + squeezed("i32.add"@)
        + (squeezed("(local.get $"@) + squeezed("cur"@) + squeezed(")"@)) + (squeezed("("@)
        + squeezed("i32.const"@) + squeezed("16"@) + squeezed(")"@)) + squeezed(")"@))
        + squeezed(")"@),
{
    lemma_get_text("cur"@);
    lemma_lit_text("i32.const"@, "16"@);
    lemma_bin_text("i32.add"@, get("cur"@), Term::Lit("i32.const"@, "16"@));
    lemma_assign_text("cur"@, bin("i32.add"@, get("cur"@), Term::Lit("i32.const"@, "16"@)));
    assert(step_by("16"@) == Code::Assign("cur"@, bin("i32.add"@, get("cur"@), Term::Lit("i32.const"@, "16"@))));
}

proof fn lemma_or_step_words()
    ensures
        "        (local.set $cur (i32.add (local.get $cur) (i32.const 16)))\n"@ == (("  "@ + "  "@ + "  "@ + "  "@) + "(local.set $"@ + "cur"@ + " "@ + ("("@ + "i32.add"@
        + " "@ + ("(local.get $"@ + "cur"@ + ")"@) + " "@ + ("("@ + "i32.const"@ + " "@ + "16"@
        + ")"@) + ")"@) + ")"@) + "\n"@,
{
    reveal_strlit("        (local.set $cur (i32.add (local.get $cur) (i32.const 16)))\n");
    reveal_strlit("  ");
    reveal_strlit("(local.set $");
    reveal_strlit("cur");
    reveal_strlit(" ");
    reveal_strlit("(");
    reveal_strlit("i32.add");
    reveal_strlit("(local.get $");
    reveal_strlit(")");
    reveal_strlit("i32.const");
    reveal_strlit("16");
    reveal_strlit("\n");
    assert("        (local.set $cur (i32.add (local.get $cur) (i32.const 16)))\n"@ =~= (("  "@ + "  "@ + "  "@ + "  "@) + "(local.set $"@ + "cur"@ + " "@ + ("("@ + "i32.add"@
        + " "@ + ("(local.get $"@ + "cur"@ + ")"@) + " "@ + ("("@ + "i32.const"@ + " "@ + "16"@
        + ")"@) + ")"@) + ")"@) + "\n"@);
}

proof fn lemma_or_step_filled(k: nat)
    ensures
        fill("        (local.set $cur (i32.add (local.get $cur) (i32.const 16)))\n"@, k) == (("  "@ + "  "@ + "  "@ + "  "@) + "(local.set $"@ + "cur"@ + " "@ + ("("@ + "i32.add"@
        + " "@ + ("(local.get $"@ + "cur"@ + ")"@) + " "@ + ("("@ + "i32.const"@ + " "@ + "16"@
        + ")"@) + ")"@) + ")"@) + "\n"@,
{
    broadcast use lemma_fill_add;

    lemma_or_step_words();
    lemma_plain_words(k);
}

proof fn lemma_or_step(k: nat)
    ensures
        squeezed(fill("        (local.set $cur (i32.add (local.get $cur) (i32.const 16)))\n"@, k)) == squeezed(code_text(step_by("16"@))),
{
    broadcast use {lemma_squeezed_add, lemma_add_nothing, lemma_nothing_add};

    lemma_blank_literals();
    lemma_or_step_filled(k);
    lemma_or_step_text(k);
}

proof fn lemma_or_again_words()
    ensures
        "        (br $vec_continue)))\n"@ == (("  "@ + "  "@ + "  "@ + "  "@) + "(br $"@) + "vec_continue"@ + ")"@ + ")"@ + ")"@
        + "\n"@,
{
    reveal_strlit("        (br $vec_continue)))\n");
    reveal_strlit("  ");
    reveal_strlit("(br $");
    reveal_strlit("vec_continue");
    reveal_strlit(")");
    reveal_strlit("\n");
    assert("        (br $vec_continue)))\n"@ =~= (("  "@ + "  "@ + "  "@ + "  "@) + "(br $"@) + "vec_continue"@ + ")"@ + ")"@ + ")"@
        + "\n"@);
}

proof fn lemma_or_again_filled(k: nat)
    ensures
        fill("        (br $vec_continue)))\n"@, k) == (("  "@ + "  "@ + "  "@ + "  "@) + "(br $"@) + "vec_continue"@ + ")"@ + ")"@ + ")"@
        + "\n"@,
{
    broadcast use lemma_fill_add;

    lemma_or_again_words();
    lemma_plain_words(k);
}

proof fn lemma_or_again(k: nat)
    ensures
        squeezed(fill("        (br $vec_continue)))\n"@, k)) == closing_text("vec_continue"@),
{
    broadcast use {lemma_squeezed_add, lemma_add_nothing, lemma_nothing_add};

    lemma_blank_literals();
    lemma_or_again_filled(k);
}

proof fn lemma_or_join_text(k: nat)
    ensures
        squeezed(code_text(join_lanes(Fold::Or))) == squeezed("(local.set $"@) + squeezed("tmp"@) + (squeezed("("@) + squeezed("i64.or"@)
        + (squeezed("("@) + squeezed("i64x2.extract_lane 0"@) + (squeezed("(local.get $"@)
        + squeezed("acc"@) + squeezed(")"@)) + squeezed(")"@)) + (squeezed("("@)
        + squeezed("i64x2.extract_lane 1"@) + (squeezed("(local.get $"@) + squeezed("acc"@)
        + squeezed(")"@)) + squeezed(")"@)) + squeezed(")"@)) + squeezed(")"@),
{
    lemma_get_text("acc"@);
    lemma_un_text("i64x2.extract_lane 0"@, get("acc"@));
    lemma_un_text("i64x2.extract_lane 1"@, get("acc"@));
    lemma_bin_text("i64.or"@, un("i64x2.extract_lane 0"@, get("acc"@)), un("i64x2.extract_lane 1"@, get("acc"@)));
    lemma_assign_text("tmp"@, bin("i64.or"@, un("i64x2.extract_lane 0"@, get("acc"@)), un("i64x2.extract_lane 1"@, get("acc"@))));
    assert(join_lanes(Fold::Or) == Code::Assign("tmp"@, bin("i64.or"@, un("i64x2.extract_lane 0"@, get("acc"@)), un("i64x2.extract_lane 1"@, get("acc"@)))));
}

proof fn lemma_or_join_words()
    ensures
        "    (local.set $tmp\n      (i64.or\n        (i64x2.extract_lane 0 (local.get $acc))\n        (i64x2.extract_lane 1 (local.get $acc))))\n"@ == (("  "@ + "  "@) + "(local.set $"@ + "tmp"@ + ("\n"@ + "  "@ + "  "@ + "  "@) + ("("@
        + "i64.or"@ + ("\n"@ + "  "@ + "  "@ + "  "@ + "  "@) + ("("@ + "i64x2.extract_lane 0"@
        + " "@ + ("(local.get $"@ + "acc"@ + ")"@) + ")"@) + ("\n"@ + "  "@ + "  "@ + "  "@
        + "  "@) + ("("@ + "i64x2.extract_lane 1"@ + " "@ + ("(local.get $"@ + "acc"@ + ")"@)
        + ")"@) + ")"@) + ")"@) + "\n"@,
{
    reveal_strlit("    (local.set $tmp\n      (i64.or\n        (i64x2.extract_lane 0 (local.get $acc))\n        (i64x2.extract_lane 1 (local.get $acc))))\n");
    reveal_strlit("  ");
    reveal_strlit("(local.set $");
    reveal_strlit("tmp");
    reveal_strlit("\n");
    reveal_strlit("(");
    reveal_strlit("i64.or");
    reveal_strlit("i64x2.extract_lane 0");
    reveal_strlit(" ");
    reveal_strlit("(local.get $");
    reveal_strlit("acc");
    reveal_strlit(")");
    reveal_strlit("i64x2.extract_lane 1");
    assert("    (local.set $tmp\n      (i64.or\n        (i64x2.extract_lane 0 (local.get $acc))\n        (i64x2.extract_lane 1 (local.get $acc))))\n"@ =~= (("  "@ + "  "@) + "(local.set $"@ + "tmp"@ + ("\n"@ + "  "@ + "  "@ + "  "@) + ("("@
        + "i64.or"@ + ("\n"@ + "  "@ + "  "@ + "  "@ + "  "@) + ("("@ + "i64x2.extract_lane 0"@
        + " "@ + ("(local.get $"@ + "acc"@ + ")"@) + ")"@) + ("\n"@ + "  "@ + "  "@ + "  "@
        + "  "@) + ("("@ + "i64x2.extract_lane 1"@ + " "@ + ("(local.get $"@ + "acc"@ + ")"@)
        + ")"@) + ")"@) + ")"@) + "\n"@);
}

proof fn lemma_or_join_filled(k: nat)
    ensures
        fill("    (local.set $tmp\n      (i64.or\n        (i64x2.extract_lane 0 (local.get $acc))\n        (i64x2.extract_lane 1 (local.get $acc))))\n"@, k) == (("  "@ + "  "@) + "(local.set $"@ + "tmp"@ + ("\n"@ + "  "@ + "  "@ + "  "@) + ("("@
        + "i64.or"@ + ("\n"@ + "  "@ + "  "@ + "  "@ + "  "@) + ("("@ + "i64x2.extract_lane 0"@
        + " "@ + ("(local.get $"@ + "acc"@ + ")"@) + ")"@) + ("\n"@ + "  "@ + "  "@ + "  "@
        + "  "@) + ("("@ + "i64x2.extract_lane 1"@ + " "@ + ("(local.get $"@ + "acc"@ + ")"@)
        + ")"@) + ")"@) + ")"@) + "\n"@,
{
    broadcast use lemma_fill_add;

    lemma_or_join_words();
    lemma_plain_words(k);
}

proof fn lemma_or_join(k: nat)
    ensures
        squeezed(fill("    (local.set $tmp\n      (i64.or\n        (i64x2.extract_lane 0 (local.get $acc))\n        (i64x2.extract_lane 1 (local.get $acc))))\n"@, k)) == squeezed(code_text(join_lanes(Fold::Or))),
{
    broadcast use {lemma_squeezed_add, lemma_add_nothing, lemma_nothing_add};

    lemma_blank_literals();
    lemma_or_join_filled(k);
    lemma_or_join_text(k);
}

proof fn lemma_or_h32_text(k: nat)
    ensures
        squeezed(code_text(halve(Fold::Or, "32"@))) == squeezed("(local.set $"@) + squeezed("tmp"@) + (squeezed("("@) + squeezed("i64.or"@)
        + (squeezed("(local.get $"@) + squeezed("tmp"@) + squeezed(")"@)) + (squeezed("("@)
        + squeezed("i64.shr_u"@) + (squeezed("(local.get $"@) + squeezed("tmp"@) + squeezed(")"@))
        + (squeezed("("@) + squeezed("i64.const"@) + squeezed("32"@) + squeezed(")"@))
        + squeezed(")"@)) + squeezed(")"@)) + squeezed(")"@),
{
    lemma_get_text("tmp"@);
    lemma_lit_text("i64.const"@, "32"@);
    lemma_bin_text("i64.shr_u"@, get("tmp"@), Term::Lit("i64.const"@, "32"@));
    lemma_bin_text("i64.or"@, get("tmp"@), bin("i64.shr_u"@, get("tmp"@), Term::Lit("i64.const"@, "32"@)));
    lemma_assign_text("tmp"@, bin("i64.or"@, get("tmp"@), bin("i64.shr_u"@, get("tmp"@), Term::Lit("i64.const"@, "32"@))));
    assert(halve(Fold::Or, "32"@) == Code::Assign("tmp"@, bin("i64.or"@, get("tmp"@), bin("i64.shr_u"@, get("tmp"@), Term::Lit("i64.const"@, "32"@)))));
}

proof fn lemma_or_h32_words()
    ensures
        "    (local.set $tmp\n      (i64.or (local.get $tmp) (i64.shr_u (local.get $tmp) (i64.const 32))))\n"@ == (("  "@ + "  "@) + "(local.set $"@ + "tmp"@ + ("\n"@ + "  "@ + "  "@ + "  "@) + ("("@
        + "i64.or"@ + " "@ + ("(local.get $"@ + "tmp"@ + ")"@) + " "@ + ("("@ + "i64.shr_u"@
        + " "@ + ("(local.get $"@ + "tmp"@ + ")"@) + " "@ + ("("@ + "i64.const"@ + " "@ + "32"@
        + ")"@) + ")"@) + ")"@) + ")"@) + "\n"@,
{
    reveal_strlit("    (local.set $tmp\n      (i64.or (local.get $tmp) (i64.shr_u (local.get $tmp) (i64.const 32))))\n");
    reveal_strlit("  ");
    reveal_strlit("(local.set $");
    reveal_strlit("tmp");
    reveal_strlit("\n");
    reveal_strlit("(");
    reveal_strlit("i64.or");
    reveal_strlit(" ");
    reveal_strlit("(local.get $");
    reveal_strlit(")");
    reveal_strlit("i64.shr_u");
    reveal_strlit("i64.const");
    reveal_strlit("32");
    assert("    (local.set $tmp\n      (i64.or (local.get $tmp) (i64.shr_u (local.get $tmp) (i64.const 32))))\n"@ =~= (("  "@ + "  "@) + "(local.set $"@ + "tmp"@ + ("\n"@ + "  "@ + "  "@ + "  "@) + ("("@
        + "i64.or"@ + " "@ + ("(local.get $"@ + "tmp"@ + ")"@) + " "@ + ("("@ + "i64.shr_u"@
        + " "@ + ("(local.get $"@ + "tmp"@ + ")"@) + " "@ + ("("@ + "i64.const"@ + " "@ + "32"@
        + ")"@) + ")"@) + ")"@) + ")"@) + "\n"@);
}

proof fn lemma_or_h32_filled(k: nat)
    ensures
        fill("    (local.set $tmp\n      (i64.or (local.get $tmp) (i64.shr_u (local.get $tmp) (i64.const 32))))\n"@, k) == (("  "@ + "  "@) + "(local.set $"@ + "tmp"@ + ("\n"@ + "  "@ + "  "@ + "  "@) + ("("@
        + "i64.or"@ + " "@ + ("(local.get $"@ + "tmp"@ + ")"@) + " "@ + ("("@ + "i64.shr_u"@
        + " "@ + ("(local.get $"@ + "tmp"@ + ")"@) + " "@ + ("("@ + "i64.const"@ + " "@ + "32"@
        + ")"@) + ")"@) + ")"@) + ")"@) + "\n"@,
{
    broadcast use lemma_fill_add;

    lemma_or_h32_words();
    lemma_plain_words(k);
}

proof fn lemma_or_h32(k: nat)
    ensures
        squeezed(fill("    (local.set $tmp\n      (i64.or (local.get $tmp) (i64.shr_u (local.get $tmp) (i64.const 32))))\n"@, k)) == squeezed(code_text(halve(Fold::Or, "32"@))),
{
    broadcast use {lemma_squeezed_add, lemma_add_nothing, lemma_nothing_add};

    lemma_blank_literals();
    lemma_or_h32_filled(k);
    lemma_or_h32_text(k);
}

proof fn lemma_or_h16_text(k: nat)
    ensures
        squeezed(code_text(halve(Fold::Or, "16"@))) == squeezed("(local.set $"@) + squeezed("tmp"@) + (squeezed("("@) + squeezed("i64.or"@)
        + (squeezed("(local.get $"@) + squeezed("tmp"@) + squeezed(")"@)) + (squeezed("("@)
        + squeezed("i64.shr_u"@) + (squeezed("(local.get $"@) + squeezed("tmp"@) + squeezed(")"@))
        + (squeezed("("@) + squeezed("i64.const"@) + squeezed("16"@) + squeezed(")"@))
        + squeezed(")"@)) + squeezed(")"@)) + squeezed(")"@),
{
    lemma_get_text("tmp"@);
    lemma_lit_text("i64.const"@, "16"@);
    lemma_bin_text("i64.shr_u"@, get("tmp"@), Term::Lit("i64.const"@, "16"@));
    lemma_bin_text("i64.or"@, get("tmp"@), bin("i64.shr_u"@, get("tmp"@), Term::Lit("i64.const"@, "16"@)));
    lemma_assign_text("tmp"@, bin("i64.or"@, get("tmp"@), bin("i64.shr_u"@, get("tmp"@), Term::Lit("i64.const"@, "16"@))));
    assert(halve(Fold::Or, "16"@) == Code::Assign("tmp"@, bin("i64.or"@, get("tmp"@), bin("i64.shr_u"@, get("tmp"@), Term::Lit("i64.const"@, "16"@)))));
}

proof fn lemma_or_h16_words()
    ensures
        "    (local.set $tmp\n      (i64.or (local.get $tmp) (i64.shr_u (local.get $tmp) (i64.const 16))))\n"@ == (("  "@ + "  "@) + "(local.set $"@ + "tmp"@ + ("\n"@ + "  "@ + "  "@ + "  "@) + ("("@
        + "i64.or"@ + " "@ + ("(local.get $"@ + "tmp"@ + ")"@) + " "@ + ("("@ + "i64.shr_u"@
        + " "@ + ("(local.get $"@ + "tmp"@ + ")"@) + " "@ + ("("@ + "i64.const"@ + " "@ + "16"@
        + ")"@) + ")"@) + ")"@) + ")"@) + "\n"@,
{
    reveal_strlit("    (local.set $tmp\n      (i64.or (local.get $tmp) (i64.shr_u (local.get $tmp) (i64.const 16))))\n");
    reveal_strlit("  ");
    reveal_strlit("(local.set $");
    reveal_strlit("tmp");
    reveal_strlit("\n");
    reveal_strlit("(");
    reveal_strlit("i64.or");
    reveal_strlit(" ");
    reveal_strlit("(local.get $");
    reveal_strlit(")");
    reveal_strlit("i64.shr_u");
    reveal_strlit("i64.const");
    reveal_strlit("16");
    assert("    (local.set $tmp\n      (i64.or (local.get $tmp) (i64.shr_u (local.get $tmp) (i64.const 16))))\n"@ =~= (("  "@ + "  "@) + "(local.set $"@ + "tmp"@ + ("\n"@ + "  "@ + "  "@ + "  "@) + ("("@
        + "i64.or"@ + " "@ + ("(local.get $"@ + "tmp"@ + ")"@) + " "@ + ("("@ + "i64.shr_u"@
        + " "@ + ("(local.get $"@ + "tmp"@ + ")"@) + " "@ + ("("@ + "i64.const"@ + " "@ + "16"@
        + ")"@) + ")"@) + ")"@) + ")"@) + "\n"@);
}

proof fn lemma_or_h16_filled(k: nat)
    ensures
        fill("    (local.set $tmp\n      (i64.or (local.get $tmp) (i64.shr_u (local.get $tmp) (i64.const 16))))\n"@, k) == (("  "@ + "  "@) + "(local.set $"@ + "tmp"@ + ("\n"@ + "  "@ + "  "@ + "  "@) + ("("@
        + "i64.or"@ + " "@ + ("(local.get $"@ + "tmp"@ + ")"@) + " "@ + ("("@ + "i64.shr_u"@
        + " "@ + ("(local.get $"@ + "tmp"@ + ")"@) + " "@ + ("("@ + "i64.const"@ + " "@ + "16"@
        + ")"@) + ")"@) + ")"@) + ")"@) + "\n"@,
{
    broadcast use lemma_fill_add;

    lemma_or_h16_words();
    lemma_plain_words(k);
}

proof fn lemma_or_h16(k: nat)
    ensures
        squeezed(fill("    (local.set $tmp\n      (i64.or (local.get $tmp) (i64.shr_u (local.get $tmp) (i64.const 16))))\n"@, k)) == squeezed(code_text(halve(Fold::Or, "16"@))),
{
    broadcast use {lemma_squeezed_add, lemma_add_nothing, lemma_nothing_add};

    lemma_blank_literals();
    lemma_or_h16_filled(k);
    lemma_or_h16_text(k);
}

proof fn lemma_or_h8_text(k: nat)
    ensures
        squeezed(code_text(halve(Fold::Or, "8"@))) == squeezed("(local.set $"@) + squeezed("tmp"@) + (squeezed("("@) + squeezed("i64.or"@)
        + (squeezed("(local.get $"@) + squeezed("tmp"@) + squeezed(")"@)) + (squeezed("("@)
        + squeezed("i64.shr_u"@) + (squeezed("(local.get $"@) + squeezed("tmp"@) + squeezed(")"@))
        + (squeezed("("@) + squeezed("i64.const"@) + squeezed("8"@) + squeezed(")"@))
        + squeezed(")"@)) + squeezed(")"@)) + squeezed(")"@),
{
    lemma_get_text("tmp"@);
    lemma_lit_text("i64.const"@, "8"@);
    lemma_bin_text("i64.shr_u"@, get("tmp"@), Term::Lit("i64.const"@, "8"@));
    lemma_bin_text("i64.or"@, get("tmp"@), bin("i64.shr_u"@, get("tmp"@), Term::Lit("i64.const"@, "8"@)));
    lemma_assign_text("tmp"@, bin("i64.or"@, get("tmp"@), bin("i64.shr_u"@, get("tmp"@), Term::Lit("i64.const"@, "8"@))));
    assert(halve(Fold::Or, "8"@) == Code::Assign("tmp"@, bin("i64.or"@, get("tmp"@), bin("i64.shr_u"@, get("tmp"@), Term::Lit("i64.const"@, "8"@)))));
}

proof fn lemma_or_h8_words()
    ensures
        "    (local.set $tmp\n      (i64.or (local.get $tmp) (i64.shr_u (local.get $tmp) (i64.const 8))))\n"@ == (("  "@ + "  "@) + "(local.set $"@ + "tmp"@ + ("\n"@ + "  "@ + "  "@ + "  "@) + ("("@
        + "i64.or"@ + " "@ + ("(local.get $"@ + "tmp"@ + ")"@) + " "@ + ("("@ + "i64.shr_u"@
        + " "@ + ("(local.get $"@ + "tmp"@ + ")"@) + " "@ + ("("@ + "i64.const"@ + " "@ + "8"@
        + ")"@) + ")"@) + ")"@) + ")"@) + "\n"@,
{
    reveal_strlit("    (local.set $tmp\n      (i64.or (local.get $tmp) (i64.shr_u (local.get $tmp) (i64.const 8))))\n");
    reveal_strlit("  ");
    reveal_strlit("(local.set $");
    reveal_strlit("tmp");
    reveal_strlit("\n");
    reveal_strlit("(");
    reveal_strlit("i64.or");
    reveal_strlit(" ");
    reveal_strlit("(local.get $");
    reveal_strlit(")");
    reveal_strlit("i64.shr_u");
    reveal_strlit("i64.const");
    reveal_strlit("8");
    assert("    (local.set $tmp\n      (i64.or (local.get $tmp) (i64.shr_u (local.get $tmp) (i64.const 8))))\n"@ =~= (("  "@ + "  "@) + "(local.set $"@ + "tmp"@ + ("\n"@ + "  "@ + "  "@ + "  "@) + ("("@
        + "i64.or"@ + " "@ + ("(local.get $"@ + "tmp"@ + ")"@) + " "@ + ("("@ + "i64.shr_u"@
        + " "@ + ("(local.get $"@ + "tmp"@ + ")"@) + " "@ + ("("@ + "i64.const"@ + " "@ + "8"@
        + ")"@) + ")"@) + ")"@) + ")"@) + "\n"@);
}

proof fn lemma_or_h8_filled(k: nat)
    ensures
        fill("    (local.set $tmp\n      (i64.or (local.get $tmp) (i64.shr_u (local.get $tmp) (i64.const 8))))\n"@, k) == (("  "@ + "  "@) + "(local.set $"@ + "tmp"@ + ("\n"@ + "  "@ + "  "@ + "  "@) + ("("@
        + "i64.or"@ + " "@ + ("(local.get $"@ + "tmp"@ + ")"@) + " "@ + ("("@ + "i64.shr_u"@
        + " "@ + ("(local.get $"@ + "tmp"@ + ")"@) + " "@ + ("("@ + "i64.const"@ + " "@ + "8"@
        + ")"@) + ")"@) + ")"@) + ")"@) + "\n"@,
{
    broadcast use lemma_fill_add;

    lemma_or_h8_words();
    lemma_plain_words(k);
}

proof fn lemma_or_h8(k: nat)
    ensures
        squeezed(fill("    (local.set $tmp\n      (i64.or (local.get $tmp) (i64.shr_u (local.get $tmp) (i64.const 8))))\n"@, k)) == squeezed(code_text(halve(Fold::Or, "8"@))),
{
    broadcast use {lemma_squeezed_add, lemma_add_nothing, lemma_nothing_add};

    lemma_blank_literals();
    lemma_or_h8_filled(k);
    lemma_or_h8_text(k);
}

proof fn lemma_or_take_text(k: nat)
    ensures
        squeezed(code_text(take_byte())) == squeezed("(local.set $"@) + squeezed("byte"@) + (squeezed("("@) + squeezed("i32.and"@)
        + (squeezed("("@) + squeezed("i32.wrap_i64"@) + (squeezed("(local.get $"@)
        + squeezed("tmp"@) + squeezed(")"@)) + squeezed(")"@)) + (squeezed("("@)
        + squeezed("i32.const"@) + squeezed("0xff"@) + squeezed(")"@)) + squeezed(")"@))
        + squeezed(")"@),
{
    lemma_get_text("tmp"@);
    lemma_un_text("i32.wrap_i64"@, get("tmp"@));
    lemma_lit_text("i32.const"@, "0xff"@);
    lemma_bin_text("i32.and"@, un("i32.wrap_i64"@, get("tmp"@)), Term::Lit("i32.const"@, "0xff"@));
    lemma_assign_text("byte"@, bin("i32.and"@, un("i32.wrap_i64"@, get("tmp"@)), Term::Lit("i32.const"@, "0xff"@)));
    assert(take_byte() == Code::Assign("byte"@, bin("i32.and"@, un("i32.wrap_i64"@, get("tmp"@)), Term::Lit("i32.const"@, "0xff"@))));
}

proof fn lemma_or_take_words()
    ensures
        "    (local.set $byte (i32.and (i32.wrap_i64 (local.get $tmp)) (i32.const 0xff)))\n"@ == (("  "@ + "  "@) + "(local.set $"@ + "byte"@ + " "@ + ("("@ + "i32.and"@ + " "@ + ("("@
        + "i32.wrap_i64"@ + " "@ + ("(local.get $"@ + "tmp"@ + ")"@) + ")"@) + " "@ + ("("@
        + "i32.const"@ + " "@ + "0xff"@ + ")"@) + ")"@) + ")"@) + "\n"@,
{
    reveal_strlit("    (local.set $byte (i32.and (i32.wrap_i64 (local.get $tmp)) (i32.const 0xff)))\n");
    reveal_strlit("  ");
    reveal_strlit("(local.set $");
    reveal_strlit("byte");
    reveal_strlit(" ");
    reveal_strlit("(");
    reveal_strlit("i32.and");
    reveal_strlit("i32.wrap_i64");
    reveal_strlit("(local.get $");
    reveal_strlit("tmp");
    reveal_strlit(")");
    reveal_strlit("i32.const");
    reveal_strlit("0xff");
    reveal_strlit("\n");
    assert("    (local.set $byte (i32.and (i32.wrap_i64 (local.get $tmp)) (i32.const 0xff)))\n"@ =~= (("  "@ + "  "@) + "(local.set $"@ + "byte"@ + " "@ + ("("@ + "i32.and"@ + " "@ + ("("@
        + "i32.wrap_i64"@ + " "@ + ("(local.get $"@ + "tmp"@ + ")"@) + ")"@) + " "@ + ("("@
        + "i32.const"@ + " "@ + "0xff"@ + ")"@) + ")"@) + ")"@) + "\n"@);
}

proof fn lemma_or_take_filled(k: nat)
    ensures
        fill("    (local.set $byte (i32.and (i32.wrap_i64 (local.get $tmp)) (i32.const 0xff)))\n"@, k) == (("  "@ + "  "@) + "(local.set $"@ + "byte"@ + " "@ + ("("@ + "i32.and"@ + " "@ + ("("@
        + "i32.wrap_i64"@ + " "@ + ("(local.get $"@ + "tmp"@ + ")"@) + ")"@) + " "@ + ("("@
        + "i32.const"@ + " "@ + "0xff"@ + ")"@) + ")"@) + ")"@) + "\n"@,
{
    broadcast use lemma_fill_add;

    lemma_or_take_words();
    lemma_plain_words(k);
}

proof fn lemma_or_take(k: nat)
    ensures
        squeezed(fill("    (local.set $byte (i32.and (i32.wrap_i64 (local.get $tmp)) (i32.const 0xff)))\n"@, k)) == squeezed(code_text(take_byte())),
{
    broadcast use {lemma_squeezed_add, lemma_add_nothing, lemma_nothing_add};

    lemma_blank_literals();
    lemma_or_take_filled(k);
    lemma_or_take_text(k);
}

proof fn lemma_or_tail_words()
    ensures
        "    (block $tail_done\n      (loop $tail_continue\n        (br_if $tail_done (i32.eq (local.get $cur) (local.get $end)))\n"@ == (("  "@ + "  "@) + "(block $"@) + "tail_done"@ + ("\n"@ + "  "@ + "  "@ + " "@)
        + " (loop $"@ + "tail_continue"@ + ("\n"@ + "  "@ + "  "@ + "  "@ + " "@) + " (br_if $"@
        + "tail_done"@ + " "@ + ("("@ + "i32.eq"@ + " "@ + ("(local.get $"@ + "cur"@ + ")"@)
        + " "@ + ("(local.get $"@ + "end"@ + ")"@) + ")"@) + ")"@ + "\n"@,
{
    reveal_strlit("    (block $tail_done\n      (loop $tail_continue\n        (br_if $tail_done (i32.eq (local.get $cur) (local.get $end)))\n");
    reveal_strlit("  ");
    reveal_strlit("(block $");
    reveal_strlit("tail_done");
    reveal_strlit("\n");
    reveal_strlit(" ");
    reveal_strlit(" (loop $");
    reveal_strlit("tail_continue");
    reveal_strlit(" (br_if $");
    reveal_strlit("(");
    reveal_strlit("i32.eq");
    reveal_strlit("(local.get $");
    reveal_strlit("cur");
    reveal_strlit(")");
    reveal_strlit("end");
    assert("    (block $tail_done\n      (loop $tail_continue\n        (br_if $tail_done (i32.eq (local.get $cur) (local.get $end)))\n"@ =~= (("  "@ + "  "@) + "(block $"@) + "tail_done"@ + ("\n"@ + "  "@ + "  "@ + " "@)
        + " (loop $"@ + "tail_continue"@ + ("\n"@ + "  "@ + "  "@ + "  "@ + " "@) + " (br_if $"@
        + "tail_done"@ + " "@ + ("("@ + "i32.eq"@ + " "@ + ("(local.get $"@ + "cur"@ + ")"@)
        + " "@ + ("(local.get $"@ + "end"@ + ")"@) + ")"@) + ")"@ + "\n"@);
}

proof fn lemma_or_tail_filled(k: nat)
    ensures
        fill("    (block $tail_done\n      (loop $tail_continue\n        (br_if $tail_done (i32.eq (local.get $cur) (local.get $end)))\n"@, k) == (("  "@ + "  "@) + "(block $"@) + "tail_done"@ + ("\n"@ + "  "@ + "  "@ + " "@)
        + " (loop $"@ + "tail_continue"@ + ("\n"@ + "  "@ + "  "@ + "  "@ + " "@) + " (br_if $"@
        + "tail_done"@ + " "@ + ("("@ + "i32.eq"@ + " "@ + ("(local.get $"@ + "cur"@ + ")"@)
        + " "@ + ("(local.get $"@ + "end"@ + ")"@) + ")"@) + ")"@ + "\n"@,
{
    broadcast use lemma_fill_add;

    lemma_or_tail_words();
    lemma_plain_words(k);
}

proof fn lemma_or_tail(k: nat)
    ensures
        squeezed(fill("    (block $tail_done\n      (loop $tail_continue\n        (br_if $tail_done (i32.eq (local.get $cur) (local.get $end)))\n"@, k)) == opening_text("tail_done"@, "tail_continue"@, bin("i32.eq"@, get("cur"@), get("end"@))),
{
    broadcast use {lemma_squeezed_add, lemma_add_nothing, lemma_nothing_add};

    lemma_blank_literals();
    lemma_or_tail_filled(k);
    lemma_get_text("cur"@);
    lemma_get_text("end"@);
    lemma_bin_text("i32.eq"@, get("cur"@), get("end"@));
}

proof fn lemma_or_single_text(k: nat)
    ensures
        squeezed(code_text(fold_single(Fold::Or, k))) == squeezed("(local.set $"@) + squeezed("byte"@) + (squeezed("("@) + squeezed("i32.or"@)
        + (squeezed("(local.get $"@) + squeezed("byte"@) + squeezed(")"@)) + (squeezed("("@)
        + squeezed("i32.load8_u"@) + squeezed(decimal(k)) + (squeezed("(local.get $"@)
        + squeezed("cur"@) + squeezed(")"@)) + squeezed(")"@)) + squeezed(")"@)) + squeezed(")"@),
{
    lemma_get_text("byte"@);
    lemma_get_text("cur"@);
    lemma_load_text("i32.load8_u"@, k, get("cur"@));
    lemma_bin_text("i32.or"@, get("byte"@), Term::Load("i32.load8_u"@, k, Box::new(get("cur"@))));
    lemma_assign_text("byte"@, bin("i32.or"@, get("byte"@), Term::Load("i32.load8_u"@, k, Box::new(get("cur"@)))));
    assert(fold_single(Fold::Or, k) == Code::Assign("byte"@, bin("i32.or"@, get("byte"@), Term::Load("i32.load8_u"@, k, Box::new(get("cur"@))))));
}

proof fn lemma_or_single_words()
    ensures
        "        (local.set $byte\n          (i32.or (local.get $byte)\n                  (i32.load8_u @ (local.get $cur))))\n"@ == (("  "@ + "  "@ + "  "@ + "  "@) + "(local.set $"@ + "byte"@ + ("\n"@ + "  "@ + "  "@
        + "  "@ + "  "@ + "  "@) + ("("@ + "i32.or"@ + " "@ + ("(local.get $"@ + "byte"@ + ")"@)
        + ("\n"@ + "  "@ + "  "@ + "  "@ + "  "@ + "  "@ + "  "@ + "  "@ + "  "@ + "  "@) + ("("@
        + "i32.load8_u"@ + " "@ + "@"@ + " "@ + ("(local.get $"@ + "cur"@ + ")"@) + ")"@) + ")"@)
        + ")"@) + "\n"@,
{
    reveal_strlit("        (local.set $byte\n          (i32.or (local.get $byte)\n                  (i32.load8_u @ (local.get $cur))))\n");
    reveal_strlit("  ");
    reveal_strlit("(local.set $");
    reveal_strlit("byte");
    reveal_strlit("\n");
    reveal_strlit("(");
    reveal_strlit("i32.or");
    reveal_strlit(" ");
    reveal_strlit("(local.get $");
    reveal_strlit(")");
    reveal_strlit("i32.load8_u");
    reveal_strlit("@");
    reveal_strlit("cur");
    assert("        (local.set $byte\n          (i32.or (local.get $byte)\n                  (i32.load8_u @ (local.get $cur))))\n"@ =~= (("  "@ + "  "@ + "  "@ + "  "@) + "(local.set $"@ + "byte"@ + ("\n"@ + "  "@ + "  "@
        + "  "@ + "  "@ + "  "@) + ("("@ + "i32.or"@ + " "@ + ("(local.get $"@ + "byte"@ + ")"@)
        + ("\n"@ + "  "@ + "  "@ + "  "@ + "  "@ + "  "@ + "  "@ + "  "@ + "  "@ + "  "@) + ("("@
        + "i32.load8_u"@ + " "@ + "@"@ + " "@ + ("(local.get $"@ + "cur"@ + ")"@) + ")"@) + ")"@)
        + ")"@) + "\n"@);
}

proof fn lemma_or_single_filled(k: nat)
    ensures
        fill("        (local.set $byte\n          (i32.or (local.get $byte)\n                  (i32.load8_u @ (local.get $cur))))\n"@, k) == (("  "@ + "  "@ + "  "@ + "  "@) + "(local.set $"@ + "byte"@ + ("\n"@ + "  "@ + "  "@
        + "  "@ + "  "@ + "  "@) + ("("@ + "i32.or"@ + " "@ + ("(local.get $"@ + "byte"@ + ")"@)
        + ("\n"@ + "  "@ + "  "@ + "  "@ + "  "@ + "  "@ + "  "@ + "  "@ + "  "@ + "  "@) + ("("@
        + "i32.load8_u"@ + " "@ + decimal(k) + " "@ + ("(local.get $"@ + "cur"@ + ")"@) + ")"@)
        + ")"@) + ")"@) + "\n"@,
{
    broadcast use lemma_fill_add;

    lemma_or_single_words();
    lemma_plain_words(k);
    lemma_fill_place(k);
}

proof fn lemma_or_single(k: nat)
    ensures
        squeezed(fill("        (local.set $byte\n          (i32.or (local.get $byte)\n                  (i32.load8_u @ (local.get $cur))))\n"@, k)) == squeezed(code_text(fold_single(Fold::Or, k))),
{
    broadcast use {lemma_squeezed_add, lemma_add_nothing, lemma_nothing_add};

    lemma_blank_literals();
    lemma_or_single_filled(k);
    lemma_or_single_text(k);
}

proof fn lemma_or_next_text(k: nat)
    ensures
        squeezed(code_text(step_by("1"@))) == squeezed("(local.set $"@) + squeezed("cur"@) + (squeezed("("@) + squeezed("i32.add"@)
        + (squeezed("(local.get $"@) + squeezed("cur"@) + squeezed(")"@)) + (squeezed("("@)
        + squeezed("i32.const"@) + squeezed("1"@) + squeezed(")"@)) + squeezed(")"@))
        + squeezed(")"@),
{
    lemma_get_text("cur"@);
    lemma_lit_text("i32.const"@, "1"@);
    lemma_bin_text("i32.add"@, get("cur"@), Term::Lit("i32.const"@, "1"@));
    lemma_assign_text("cur"@, bin("i32.add"@, get("cur"@), Term::Lit("i32.const"@, "1"@)));
    assert(step_by("1"@) == Code::Assign("cur"@, bin("i32.add"@, get("cur"@), Term::Lit("i32.const"@, "1"@))));
}

proof fn lemma_or_next_words()
    ensures
        "        (local.set $cur (i32.add (local.get $cur) (i32.const 1)))\n"@ == (("  "@ + "  "@ + "  "@ + "  "@) + "(local.set $"@ + "cur"@ + " "@ + ("("@ + "i32.add"@
        + " "@ + ("(local.get $"@ + "cur"@ + ")"@) + " "@ + ("("@ + "i32.const"@ + " "@ + "1"@
        + ")"@) + ")"@) + ")"@) + "\n"@,
{
    reveal_strlit("        (local.set $cur (i32.add (local.get $cur) (i32.const 1)))\n");
    reveal_strlit("  ");
    reveal_strlit("(local.set $");
    reveal_strlit("cur");
    reveal_strlit(" ");
    reveal_strlit("(");
    reveal_strlit("i32.add");
    reveal_strlit("(local.get $");
    reveal_strlit(")");
    reveal_strlit("i32.const");
    reveal_strlit("1");
    reveal_strlit("\n");
    assert("        (local.set $cur (i32.add (local.get $cur) (i32.const 1)))\n"@ =~= (("  "@ + "  "@ + "  "@ + "  "@) + "(local.set $"@ + "cur"@ + " "@ + ("("@ + "i32.add"@
        + " "@ + ("(local.get $"@ + "cur"@ + ")"@) + " "@ + ("("@ + "i32.const"@ + " "@ + "1"@
        + ")"@) + ")"@) + ")"@) + "\n"@);
}

proof fn lemma_or_next_filled(k: nat)
    ensures
        fill("        (local.set $cur (i32.add (local.get $cur) (i32.const 1)))\n"@, k) == (("  "@ + "  "@ + "  "@ + "  "@) + "(local.set $"@ + "cur"@ + " "@ + ("("@ + "i32.add"@
        + " "@ + ("(local.get $"@ + "cur"@ + ")"@) + " "@ + ("("@ + "i32.const"@ + " "@ + "1"@
        + ")"@) + ")"@) + ")"@) + "\n"@,
{
    broadcast use lemma_fill_add;

    lemma_or_next_words();
    lemma_plain_words(k);
}

proof fn lemma_or_next(k: nat)
    ensures
        squeezed(fill("        (local.set $cur (i32.add (local.get $cur) (i32.const 1)))\n"@, k)) == squeezed(code_text(step_by("1"@))),
{
    broadcast use {lemma_squeezed_add, lemma_add_nothing, lemma_nothing_add};

    lemma_blank_literals();
    lemma_or_next_filled(k);
    lemma_or_next_text(k);
}

proof fn lemma_or_back_words()
    ensures
        "        (br $tail_continue)))\n"@ == (("  "@ + "  "@ + "  "@ + "  "@) + "(br $"@) + "tail_continue"@ + ")"@ + ")"@ + ")"@
        + "\n"@,
{
    reveal_strlit("        (br $tail_continue)))\n");
    reveal_strlit("  ");
    reveal_strlit("(br $");
    reveal_strlit("tail_continue");
    reveal_strlit(")");
    reveal_strlit("\n");
    assert("        (br $tail_continue)))\n"@ =~= (("  "@ + "  "@ + "  "@ + "  "@) + "(br $"@) + "tail_continue"@ + ")"@ + ")"@ + ")"@
        + "\n"@);
}

proof fn lemma_or_back_filled(k: nat)
    ensures
        fill("        (br $tail_continue)))\n"@, k) == (("  "@ + "  "@ + "  "@ + "  "@) + "(br $"@) + "tail_continue"@ + ")"@ + ")"@ + ")"@
        + "\n"@,
{
    broadcast use lemma_fill_add;

    lemma_or_back_words();
    lemma_plain_words(k);
}

proof fn lemma_or_back(k: nat)
    ensures
        squeezed(fill("        (br $tail_continue)))\n"@, k)) == closing_text("tail_continue"@),
{
    broadcast use {lemma_squeezed_add, lemma_add_nothing, lemma_nothing_add};

    lemma_blank_literals();
    lemma_or_back_filled(k);
}

proof fn lemma_or_value_words()
    ensures
        "    (local.get $byte))\n"@ == ((("  "@ + "  "@) + "(local.get $"@) + "byte"@ + ")"@) + ")"@ + "\n"@,
{
    reveal_strlit("    (local.get $byte))\n");
    reveal_strlit("  ");
    reveal_strlit("(local.get $");
    reveal_strlit("byte");
    reveal_strlit(")");
    reveal_strlit("\n");
    assert("    (local.get $byte))\n"@ =~= ((("  "@ + "  "@) + "(local.get $"@) + "byte"@ + ")"@) + ")"@ + "\n"@);
}

proof fn lemma_or_value_filled(k: nat)
    ensures
        fill("    (local.get $byte))\n"@, k) == ((("  "@ + "  "@) + "(local.get $"@) + "byte"@ + ")"@) + ")"@ + "\n"@,
{
    broadcast use lemma_fill_add;

    lemma_or_value_words();
    lemma_plain_words(k);
}

proof fn lemma_or_value(k: nat)
    ensures
        squeezed(fill("    (local.get $byte))\n"@, k)) == squeezed(term_text(get("byte"@))) + squeezed(")"@),
{
    broadcast use {lemma_squeezed_add, lemma_add_nothing, lemma_nothing_add};

    lemma_blank_literals();
    lemma_or_value_filled(k);
    lemma_get_text("byte"@);
}

#[verifier::rlimit(100)]
proof fn lemma_or_template()
    ensures
        SIMD_OR_FOLD@ == "  (func $tvm_simd_or_fold_u8_p@ (export \"tvm_simd_or_fold_u8_p@\")\n        (param $off i32) (param $len i32) (result i32)\n    (local $cur i32) (local $end i32) (local $vec_end i32)\n    (local $acc v128) (local $tmp i64) (local $byte i32)\n"@
        + "    (local.set $cur (local.get $off))\n"@
        + "    (local.set $end (i32.add (local.get $off) (local.get $len)))\n"@
        + "    (local.set $vec_end\n      (i32.add (local.get $off)\n               (i32.and (local.get $len) (i32.const -16))))\n"@
        + "    (local.set $acc (v128.const i64x2 0 0))\n"@
        + "    (block $vec_done\n      (loop $vec_continue\n        (br_if $vec_done (i32.eq (local.get $cur) (local.get $vec_end)))\n"@
        + "        (local.set $acc\n          (v128.or (local.get $acc) (v128.load @ (local.get $cur))))\n"@
        + "        (local.set $cur (i32.add (local.get $cur) (i32.const 16)))\n"@
        + "        (br $vec_continue)))\n"@
        + "    (local.set $tmp\n      (i64.or\n        (i64x2.extract_lane 0 (local.get $acc))\n        (i64x2.extract_lane 1 (local.get $acc))))\n"@
        + "    (local.set $tmp\n      (i64.or (local.get $tmp) (i64.shr_u (local.get $tmp) (i64.const 32))))\n"@
        + "    (local.set $tmp\n      (i64.or (local.get $tmp) (i64.shr_u (local.get $tmp) (i64.const 16))))\n"@
        + "    (local.set $tmp\n      (i64.or (local.get $tmp) (i64.shr_u (local.get $tmp) (i64.const 8))))\n"@
        + "    (local.set $byte (i32.and (i32.wrap_i64 (local.get $tmp)) (i32.const 0xff)))\n"@
        + "    (block $tail_done\n      (loop $tail_continue\n        (br_if $tail_done (i32.eq (local.get $cur) (local.get $end)))\n"@
        + "        (local.set $byte\n          (i32.or (local.get $byte)\n                  (i32.load8_u @ (local.get $cur))))\n"@
        + "        (local.set $cur (i32.add (local.get $cur) (i32.const 1)))\n"@
        + "        (br $tail_continue)))\n"@ + "    (local.get $byte))\n"@,
{
    reveal_strlit("  (func $tvm_simd_or_fold_u8_p@ (export \"tvm_simd_or_fold_u8_p@\")\n        (param $off i32) (param $len i32) (result i32)\n    (local $cur i32) (local $end i32) (local $vec_end i32)\n    (local $acc v128) (local $tmp i64) (local $byte i32)\n");
    reveal_strlit("    (local.set $cur (local.get $off))\n");
    reveal_strlit("    (local.set $end (i32.add (local.get $off) (local.get $len)))\n");
    reveal_strlit("    (local.set $vec_end\n      (i32.add (local.get $off)\n               (i32.and (local.get $len) (i32.const -16))))\n");
    reveal_strlit("    (local.set $acc (v128.const i64x2 0 0))\n");
    reveal_strlit("    (block $vec_done\n      (loop $vec_continue\n        (br_if $vec_done (i32.eq (local.get $cur) (local.get $vec_end)))\n");
    reveal_strlit("        (local.set $acc\n          (v128.or (local.get $acc) (v128.load @ (local.get $cur))))\n");
    reveal_strlit("        (local.set $cur (i32.add (local.get $cur) (i32.const 16)))\n");
    reveal_strlit("        (br $vec_continue)))\n");
    reveal_strlit("    (local.set $tmp\n      (i64.or\n        (i64x2.extract_lane 0 (local.get $acc))\n        (i64x2.extract_lane 1 (local.get $acc))))\n");
    reveal_strlit("    (local.set $tmp\n      (i64.or (local.get $tmp) (i64.shr_u (local.get $tmp) (i64.const 32))))\n");
    reveal_strlit("    (local.set $tmp\n      (i64.or (local.get $tmp) (i64.shr_u (local.get $tmp) (i64.const 16))))\n");
    reveal_strlit("    (local.set $tmp\n      (i64.or (local.get $tmp) (i64.shr_u (local.get $tmp) (i64.const 8))))\n");
    reveal_strlit("    (local.set $byte (i32.and (i32.wrap_i64 (local.get $tmp)) (i32.const 0xff)))\n");
    reveal_strlit("    (block $tail_done\n      (loop $tail_continue\n        (br_if $tail_done (i32.eq (local.get $cur) (local.get $end)))\n");
    reveal_strlit("        (local.set $byte\n          (i32.or (local.get $byte)\n                  (i32.load8_u @ (local.get $cur))))\n");
    reveal_strlit("        (local.set $cur (i32.add (local.get $cur) (i32.const 1)))\n");
    reveal_strlit("        (br $tail_continue)))\n");
    reveal_strlit("    (local.get $byte))\n");
    reveal_strlit(r#"  (func $tvm_simd_or_fold_u8_p@ (export "tvm_simd_or_fold_u8_p@")
        (param $off i32) (param $len i32) (result i32)
    (local $cur i32) (local $end i32) (local $vec_end i32)
    (local $acc v128) (local $tmp i64) (local $byte i32)
    (local.set $cur (local.get $off))
    (local.set $end (i32.add (local.get $off) (local.get $len)))
    (local.set $vec_end
      (i32.add (local.get $off)
               (i32.and (local.get $len) (i32.const -16))))
    (local.set $acc (v128.const i64x2 0 0))
    (block $vec_done
      (loop $vec_continue
        (br_if $vec_done (i32.eq (local.get $cur) (local.get $vec_end)))
        (local.set $acc
          (v128.or (local.get $acc) (v128.load @ (local.get $cur))))
        (local.set $cur (i32.add (local.get $cur) (i32.const 16)))
        (br $vec_continue)))
    (local.set $tmp
      (i64.or
        (i64x2.extract_lane 0 (local.get $acc))
        (i64x2.extract_lane 1 (local.get $acc))))
    (local.set $tmp
      (i64.or (local.get $tmp) (i64.shr_u (local.get $tmp) (i64.const 32))))
    (local.set $tmp
      (i64.or (local.get $tmp) (i64.shr_u (local.get $tmp) (i64.const 16))))
    (local.set $tmp
      (i64.or (local.get $tmp) (i64.shr_u (local.get $tmp) (i64.const 8))))
    (local.set $byte (i32.and (i32.wrap_i64 (local.get $tmp)) (i32.const 0xff)))
    (block $tail_done
      (loop $tail_continue
        (br_if $tail_done (i32.eq (local.get $cur) (local.get $end)))
        (local.set $byte
          (i32.or (local.get $byte)
                  (i32.load8_u @ (local.get $cur))))
        (local.set $cur (i32.add (local.get $cur) (i32.const 1)))
        (br $tail_continue)))
    (local.get $byte))
"#);
    assert(SIMD_OR_FOLD@ =~= "  (func $tvm_simd_or_fold_u8_p@ (export \"tvm_simd_or_fold_u8_p@\")\n        (param $off i32) (param $len i32) (result i32)\n    (local $cur i32) (local $end i32) (local $vec_end i32)\n    (local $acc v128) (local $tmp i64) (local $byte i32)\n"@
        + "    (local.set $cur (local.get $off))\n"@
        + "    (local.set $end (i32.add (local.get $off) (local.get $len)))\n"@
        + "    (local.set $vec_end\n      (i32.add (local.get $off)\n               (i32.and (local.get $len) (i32.const -16))))\n"@
        + "    (local.set $acc (v128.const i64x2 0 0))\n"@
        + "    (block $vec_done\n      (loop $vec_continue\n        (br_if $vec_done (i32.eq (local.get $cur) (local.get $vec_end)))\n"@
        + "        (local.set $acc\n          (v128.or (local.get $acc) (v128.load @ (local.get $cur))))\n"@
        + "        (local.set $cur (i32.add (local.get $cur) (i32.const 16)))\n"@
        + "        (br $vec_continue)))\n"@
        + "    (local.set $tmp\n      (i64.or\n        (i64x2.extract_lane 0 (local.get $acc))\n        (i64x2.extract_lane 1 (local.get $acc))))\n"@
        + "    (local.set $tmp\n      (i64.or (local.get $tmp) (i64.shr_u (local.get $tmp) (i64.const 32))))\n"@
        + "    (local.set $tmp\n      (i64.or (local.get $tmp) (i64.shr_u (local.get $tmp) (i64.const 16))))\n"@
        + "    (local.set $tmp\n      (i64.or (local.get $tmp) (i64.shr_u (local.get $tmp) (i64.const 8))))\n"@
        + "    (local.set $byte (i32.and (i32.wrap_i64 (local.get $tmp)) (i32.const 0xff)))\n"@
        + "    (block $tail_done\n      (loop $tail_continue\n        (br_if $tail_done (i32.eq (local.get $cur) (local.get $end)))\n"@
        + "        (local.set $byte\n          (i32.or (local.get $byte)\n                  (i32.load8_u @ (local.get $cur))))\n"@
        + "        (local.set $cur (i32.add (local.get $cur) (i32.const 1)))\n"@
        + "        (br $tail_continue)))\n"@ + "    (local.get $byte))\n"@);
}

proof fn lemma_or_fill(k: nat)
    ensures
        fill(SIMD_OR_FOLD@, k) == fill("  (func $tvm_simd_or_fold_u8_p@ (export \"tvm_simd_or_fold_u8_p@\")\n        (param $off i32) (param $len i32) (result i32)\n    (local $cur i32) (local $end i32) (local $vec_end i32)\n    (local $acc v128) (local $tmp i64) (local $byte i32)\n"@, k)
        + fill("    (local.set $cur (local.get $off))\n"@, k)
        + fill("    (local.set $end (i32.add (local.get $off) (local.get $len)))\n"@, k)
        + fill("    (local.set $vec_end\n      (i32.add (local.get $off)\n               (i32.and (local.get $len) (i32.const -16))))\n"@, k)
        + fill("    (local.set $acc (v128.const i64x2 0 0))\n"@, k)
        + fill("    (block $vec_done\n      (loop $vec_continue\n        (br_if $vec_done (i32.eq (local.get $cur) (local.get $vec_end)))\n"@, k)
        + fill("        (local.set $acc\n          (v128.or (local.get $acc) (v128.load @ (local.get $cur))))\n"@, k)
        + fill("        (local.set $cur (i32.add (local.get $cur) (i32.const 16)))\n"@, k)
        + fill("        (br $vec_continue)))\n"@, k)
        + fill("    (local.set $tmp\n      (i64.or\n        (i64x2.extract_lane 0 (local.get $acc))\n        (i64x2.extract_lane 1 (local.get $acc))))\n"@, k)
        + fill("    (local.set $tmp\n      (i64.or (local.get $tmp) (i64.shr_u (local.get $tmp) (i64.const 32))))\n"@, k)
        + fill("    (local.set $tmp\n      (i64.or (local.get $tmp) (i64.shr_u (local.get $tmp) (i64.const 16))))\n"@, k)
        + fill("    (local.set $tmp\n      (i64.or (local.get $tmp) (i64.shr_u (local.get $tmp) (i64.const 8))))\n"@, k)
        + fill("    (local.set $byte (i32.and (i32.wrap_i64 (local.get $tmp)) (i32.const 0xff)))\n"@, k)
        + fill("    (block $tail_done\n      (loop $tail_continue\n        (br_if $tail_done (i32.eq (local.get $cur) (local.get $end)))\n"@, k)
        + fill("        (local.set $byte\n          (i32.or (local.get $byte)\n                  (i32.load8_u @ (local.get $cur))))\n"@, k)
        + fill("        (local.set $cur (i32.add (local.get $cur) (i32.const 1)))\n"@, k)
        + fill("        (br $tail_continue)))\n"@, k) + fill("    (local.get $byte))\n"@, k),
{
    broadcast use lemma_fill_add;

    lemma_or_template();
}

proof fn lemma_or_kernel_text(k: nat)
    ensures
        squeezed(fill(SIMD_OR_FOLD@, k)) == squeezed(kernel_text(kernel(Fold::Or, "tvm_simd_or_fold_u8_p"@, k))),
{
    lemma_or_fill(k);
    let p0 = fill("  (func $tvm_simd_or_fold_u8_p@ (export \"tvm_simd_or_fold_u8_p@\")\n        (param $off i32) (param $len i32) (result i32)\n    (local $cur i32) (local $end i32) (local $vec_end i32)\n    (local $acc v128) (local $tmp i64) (local $byte i32)\n"@, k);
    lemma_or_head(k);
    let p1 = fill("    (local.set $cur (local.get $off))\n"@, k);
    lemma_or_cur(k);
    let p2 = fill("    (local.set $end (i32.add (local.get $off) (local.get $len)))\n"@, k);
    lemma_or_end(k);
    let p3 = fill("    (local.set $vec_end\n      (i32.add (local.get $off)\n               (i32.and (local.get $len) (i32.const -16))))\n"@, k);
    lemma_or_vec_end(k);
    let p4 = fill("    (local.set $acc (v128.const i64x2 0 0))\n"@, k);
    lemma_or_acc(k);
    let p5 = fill("    (block $vec_done\n      (loop $vec_continue\n        (br_if $vec_done (i32.eq (local.get $cur) (local.get $vec_end)))\n"@, k);
    lemma_or_vec(k);
    let p6 = fill("        (local.set $acc\n          (v128.or (local.get $acc) (v128.load @ (local.get $cur))))\n"@, k);
    lemma_or_fold(k);
    let p7 = fill("        (local.set $cur (i32.add (local.get $cur) (i32.const 16)))\n"@, k);
    lemma_or_step(k);
    let p8 = fill("        (br $vec_continue)))\n"@, k);
    lemma_or_again(k);
    let p9 = fill("    (local.set $tmp\n      (i64.or\n        (i64x2.extract_lane 0 (local.get $acc))\n        (i64x2.extract_lane 1 (local.get $acc))))\n"@, k);
    lemma_or_join(k);
    let p10 = fill("    (local.set $tmp\n      (i64.or (local.get $tmp) (i64.shr_u (local.get $tmp) (i64.const 32))))\n"@, k);
    lemma_or_h32(k);
    let p11 = fill("    (local.set $tmp\n      (i64.or (local.get $tmp) (i64.shr_u (local.get $tmp) (i64.const 16))))\n"@, k);
    lemma_or_h16(k);
    let p12 = fill("    (local.set $tmp\n      (i64.or (local.get $tmp) (i64.shr_u (local.get $tmp) (i64.const 8))))\n"@, k);
    lemma_or_h8(k);
    let p13 = fill("    (local.set $byte (i32.and (i32.wrap_i64 (local.get $tmp)) (i32.const 0xff)))\n"@, k);
    lemma_or_take(k);
    let p14 = fill("    (block $tail_done\n      (loop $tail_continue\n        (br_if $tail_done (i32.eq (local.get $cur) (local.get $end)))\n"@, k);
    lemma_or_tail(k);
    let p15 = fill("        (local.set $byte\n          (i32.or (local.get $byte)\n                  (i32.load8_u @ (local.get $cur))))\n"@, k);
    lemma_or_single(k);
    let p16 = fill("        (local.set $cur (i32.add (local.get $cur) (i32.const 1)))\n"@, k);
    lemma_or_next(k);
    let p17 = fill("        (br $tail_continue)))\n"@, k);
    lemma_or_back(k);
    let p18 = fill("    (local.get $byte))\n"@, k);
    lemma_or_value(k);
    lemma_squeezed_add(p0, p1);
    lemma_squeezed_add(p0 + p1, p2);
    lemma_squeezed_add(p0 + p1 + p2, p3);
    lemma_squeezed_add(p0 + p1 + p2 + p3, p4);
    lemma_squeezed_add(p0 + p1 + p2 + p3 + p4, p5);
    lemma_squeezed_add(p0 + p1 + p2 + p3 + p4 + p5, p6);
    lemma_squeezed_add(p0 + p1 + p2 + p3 + p4 + p5 + p6, p7);
    lemma_squeezed_add(p0 + p1 + p2 + p3 + p4 + p5 + p6 + p7, p8);
    lemma_squeezed_add(p0 + p1 + p2 + p3 + p4 + p5 + p6 + p7 + p8, p9);
    lemma_squeezed_add(p0 + p1 + p2 + p3 + p4 + p5 + p6 + p7 + p8 + p9, p10);
    lemma_squeezed_add(p0 + p1 + p2 + p3 + p4 + p5 + p6 + p7 + p8 + p9 + p10, p11);
    lemma_squeezed_add(p0 + p1 + p2 + p3 + p4 + p5 + p6 + p7 + p8 + p9 + p10 + p11, p12);
    lemma_squeezed_add(p0 + p1 + p2 + p3 + p4 + p5 + p6 + p7 + p8 + p9 + p10 + p11 + p12, p13);
    lemma_squeezed_add(p0 + p1 + p2 + p3 + p4 + p5 + p6 + p7 + p8 + p9 + p10 + p11 + p12 + p13, p14);
    lemma_squeezed_add(p0 + p1 + p2 + p3 + p4 + p5 + p6 + p7 + p8 + p9 + p10 + p11 + p12 + p13 + p14, p15);
    lemma_squeezed_add(p0 + p1 + p2 + p3 + p4 + p5 + p6 + p7 + p8 + p9 + p10 + p11 + p12 + p13 + p14 + p15, p16);
    lemma_squeezed_add(p0 + p1 + p2 + p3 + p4 + p5 + p6 + p7 + p8 + p9 + p10 + p11 + p12 + p13 + p14 + p15 + p16, p17);
    lemma_squeezed_add(p0 + p1 + p2 + p3 + p4 + p5 + p6 + p7 + p8 + p9 + p10 + p11 + p12 + p13 + p14 + p15 + p16 + p17, p18);
    lemma_fold_text(Fold::Or, "tvm_simd_or_fold_u8_p"@, k);
    lemma_or_regroup(
        squeezed(p0),
        squeezed(p1),
        squeezed(p2),
        squeezed(p3),
        squeezed(p4),
        squeezed(p5),
        squeezed(p6),
        squeezed(p7),
        squeezed(p8),
        squeezed(p9),
        squeezed(p10),
        squeezed(p11),
        squeezed(p12),
        squeezed(p13),
        squeezed(p14),
        squeezed(p15),
        squeezed(p16),
        squeezed(p17),
        squeezed(term_text(get("byte"@))),
        squeezed(")"@),
    );
}

proof fn lemma_or_regroup(
    x0: Seq<char>,
    x1: Seq<char>,
    x2: Seq<char>,
    x3: Seq<char>,
    x4: Seq<char>,
    x5: Seq<char>,
    x6: Seq<char>,
    x7: Seq<char>,
    x8: Seq<char>,
    x9: Seq<char>,
    x10: Seq<char>,
    x11: Seq<char>,
    x12: Seq<char>,
    x13: Seq<char>,
    x14: Seq<char>,
    x15: Seq<char>,
    x16: Seq<char>,
    x17: Seq<char>,
    v: Seq<char>,
    z: Seq<char>,
)
    ensures
        x0 + x1 + x2 + x3 + x4 + x5 + x6 + x7 + x8 + x9 + x10 + x11 + x12 + x13 + x14 + x15 + x16
        + x17 + (v + z) == x0 + (x1 + x2 + x3 + x4 + (x5 + (x6 + x7) + x8) + (x9 + x10 + x11 + x12 + x13) + (x14
        + (x15 + x16) + x17)) + v + z,
{
    broadcast use lemma_add_assoc;

}

proof fn lemma_and_head_words()
    ensures
        "  (func $tvm_simd_and_fold_u8_p@ (export \"tvm_simd_and_fold_u8_p@\")\n        (param $off i32) (param $len i32) (result i32)\n    (local $cur i32) (local $end i32) (local $vec_end i32)\n    (local $acc v128) (local $tmp i64) (local $byte i32)\n"@ == ("  "@ + "(func $"@) + ("tvm_simd_and_fold_u8_p"@ + "@"@) + " (export \""@
        + ("tvm_simd_and_fold_u8_p"@ + "@"@) + "\")"@ + (((("\n"@ + "  "@ + "  "@ + "  "@ + "  "@)
        + "("@) + "param"@ + " $"@ + "off"@ + " "@ + "i32"@ + ")"@) + ((" "@ + "("@) + "param"@
        + " $"@ + "len"@ + " "@ + "i32"@ + ")"@)) + (" "@ + "(result "@) + "i32"@ + ")"@
        + (((((((("\n"@ + "  "@ + "  "@) + "("@) + "local"@ + " $"@ + "cur"@ + " "@ + "i32"@
        + ")"@) + ((" "@ + "("@) + "local"@ + " $"@ + "end"@ + " "@ + "i32"@ + ")"@)) + ((" "@
        + "("@) + "local"@ + " $"@ + "vec_end"@ + " "@ + "i32"@ + ")"@)) + ((("\n"@ + "  "@
        + "  "@) + "("@) + "local"@ + " $"@ + "acc"@ + " "@ + "v128"@ + ")"@)) + ((" "@ + "("@)
        + "local"@ + " $"@ + "tmp"@ + " "@ + "i64"@ + ")"@)) + ((" "@ + "("@) + "local"@ + " $"@
        + "byte"@ + " "@ + "i32"@ + ")"@)) + "\n"@,
{
    reveal_strlit("  (func $tvm_simd_and_fold_u8_p@ (export \"tvm_simd_and_fold_u8_p@\")\n        (param $off i32) (param $len i32) (result i32)\n    (local $cur i32) (local $end i32) (local $vec_end i32)\n    (local $acc v128) (local $tmp i64) (local $byte i32)\n");
    reveal_strlit("  ");
    reveal_strlit("(func $");
    reveal_strlit("tvm_simd_and_fold_u8_p");
    reveal_strlit("@");
    reveal_strlit(" (export \"");
    reveal_strlit("\")");
    reveal_strlit("\n");
    reveal_strlit("(");
    reveal_strlit("param");
    reveal_strlit(" $");
    reveal_strlit("off");
    reveal_strlit(" ");
    reveal_strlit("i32");
    reveal_strlit(")");
    reveal_strlit("len");
    reveal_strlit("(result ");
    reveal_strlit("local");
    reveal_strlit("cur");
    reveal_strlit("end");
    reveal_strlit("vec_end");
    reveal_strlit("acc");
    reveal_strlit("v128");
    reveal_strlit("tmp");
    reveal_strlit("i64");
    reveal_strlit("byte");
    assert("  (func $tvm_simd_and_fold_u8_p@ (export \"tvm_simd_and_fold_u8_p@\")\n        (param $off i32) (param $len i32) (result i32)\n    (local $cur i32) (local $end i32) (local $vec_end i32)\n    (local $acc v128) (local $tmp i64) (local $byte i32)\n"@ =~= ("  "@ + "(func $"@) + ("tvm_simd_and_fold_u8_p"@ + "@"@) + " (export \""@
        + ("tvm_simd_and_fold_u8_p"@ + "@"@) + "\")"@ + (((("\n"@ + "  "@ + "  "@ + "  "@ + "  "@)
        + "("@) + "param"@ + " $"@ + "off"@ + " "@ + "i32"@ + ")"@) + ((" "@ + "("@) + "param"@
        + " $"@ + "len"@ + " "@ + "i32"@ + ")"@)) + (" "@ + "(result "@) + "i32"@ + ")"@
        + (((((((("\n"@ + "  "@ + "  "@) + "("@) + "local"@ + " $"@ + "cur"@ + " "@ + "i32"@
        + ")"@) + ((" "@ + "("@) + "local"@ + " $"@ + "end"@ + " "@ + "i32"@ + ")"@)) + ((" "@
        + "("@) + "local"@ + " $"@ + "vec_end"@ + " "@ + "i32"@ + ")"@)) + ((("\n"@ + "  "@
        + "  "@) + "("@) + "local"@ + " $"@ + "acc"@ + " "@ + "v128"@ + ")"@)) + ((" "@ + "("@)
        + "local"@ + " $"@ + "tmp"@ + " "@ + "i64"@ + ")"@)) + ((" "@ + "("@) + "local"@ + " $"@
        + "byte"@ + " "@ + "i32"@ + ")"@)) + "\n"@);
}

proof fn lemma_and_head_filled(k: nat)
    ensures
        fill("  (func $tvm_simd_and_fold_u8_p@ (export \"tvm_simd_and_fold_u8_p@\")\n        (param $off i32) (param $len i32) (result i32)\n    (local $cur i32) (local $end i32) (local $vec_end i32)\n    (local $acc v128) (local $tmp i64) (local $byte i32)\n"@, k) == ("  "@ + "(func $"@) + ("tvm_simd_and_fold_u8_p"@ + decimal(k)) + " (export \""@
        + ("tvm_simd_and_fold_u8_p"@ + decimal(k)) + "\")"@ + (((("\n"@ + "  "@ + "  "@ + "  "@
        + "  "@) + "("@) + "param"@ + " $"@ + "off"@ + " "@ + "i32"@ + ")"@) + ((" "@ + "("@)
        + "param"@ + " $"@ + "len"@ + " "@ + "i32"@ + ")"@)) + (" "@ + "(result "@) + "i32"@
        + ")"@ + (((((((("\n"@ + "  "@ + "  "@) + "("@) + "local"@ + " $"@ + "cur"@ + " "@
        + "i32"@ + ")"@) + ((" "@ + "("@) + "local"@ + " $"@ + "end"@ + " "@ + "i32"@ + ")"@))
        + ((" "@ + "("@) + "local"@ + " $"@ + "vec_end"@ + " "@ + "i32"@ + ")"@)) + ((("\n"@
        + "  "@ + "  "@) + "("@) + "local"@ + " $"@ + "acc"@ + " "@ + "v128"@ + ")"@)) + ((" "@
        + "("@) + "local"@ + " $"@ + "tmp"@ + " "@ + "i64"@ + ")"@)) + ((" "@ + "("@) + "local"@
        + " $"@ + "byte"@ + " "@ + "i32"@ + ")"@)) + "\n"@,
{
    broadcast use lemma_fill_add;

    lemma_and_head_words();
    lemma_plain_words(k);
    lemma_fill_place(k);
}

proof fn lemma_and_head(k: nat)
    ensures
        squeezed(fill("  (func $tvm_simd_and_fold_u8_p@ (export \"tvm_simd_and_fold_u8_p@\")\n        (param $off i32) (param $len i32) (result i32)\n    (local $cur i32) (local $end i32) (local $vec_end i32)\n    (local $acc v128) (local $tmp i64) (local $byte i32)\n"@, k)) == head_text(kernel(Fold::And, "tvm_simd_and_fold_u8_p"@, k)),
{
    broadcast use {lemma_squeezed_add, lemma_add_nothing, lemma_nothing_add};

    lemma_blank_literals();
    lemma_and_head_filled(k);
    lemma_head_text(Fold::And, "tvm_simd_and_fold_u8_p"@, k);
}

proof fn lemma_and_cur_text(k: nat)
    ensures
        squeezed(code_text(set_cur())) == squeezed("(local.set $"@) + squeezed("cur"@) + (squeezed("(local.get $"@)
        + squeezed("off"@) + squeezed(")"@)) + squeezed(")"@),
{
    lemma_get_text("off"@);
    lemma_assign_text("cur"@, get("off"@));
    assert(set_cur() == Code::Assign("cur"@, get("off"@)));
}

proof fn lemma_and_cur_words()
    ensures
        "    (local.set $cur (local.get $off))\n"@ == (("  "@ + "  "@) + "(local.set $"@ + "cur"@ + " "@ + ("(local.get $"@ + "off"@ + ")"@)
        + ")"@) + "\n"@,
{
    reveal_strlit("    (local.set $cur (local.get $off))\n");
    reveal_strlit("  ");
    reveal_strlit("(local.set $");
    reveal_strlit("cur");
    reveal_strlit(" ");
    reveal_strlit("(local.get $");
    reveal_strlit("off");
    reveal_strlit(")");
    reveal_strlit("\n");
    assert("    (local.set $cur (local.get $off))\n"@ =~= (("  "@ + "  "@) + "(local.set $"@ + "cur"@ + " "@ + ("(local.get $"@ + "off"@ + ")"@)
        + ")"@) + "\n"@);
}

proof fn lemma_and_cur_filled(k: nat)
    ensures
        fill("    (local.set $cur (local.get $off))\n"@, k) == (("  "@ + "  "@) + "(local.set $"@ + "cur"@ + " "@ + ("(local.get $"@ + "off"@ + ")"@)
        + ")"@) + "\n"@,
{
    broadcast use lemma_fill_add;

    lemma_and_cur_words();
    lemma_plain_words(k);
}

proof fn lemma_and_cur(k: nat)
    ensures
        squeezed(fill("    (local.set $cur (local.get $off))\n"@, k)) == squeezed(code_text(set_cur())),
{
    broadcast use {lemma_squeezed_add, lemma_add_nothing, lemma_nothing_add};

    lemma_blank_literals();
    lemma_and_cur_filled(k);
    lemma_and_cur_text(k);
}

proof fn lemma_and_end_text(k: nat)
    ensures
        squeezed(code_text(set_end())) == squeezed("(local.set $"@) + squeezed("end"@) + (squeezed("("@) + squeezed("i32.add"@)
        + (squeezed("(local.get $"@) + squeezed("off"@) + squeezed(")"@))
        + (squeezed("(local.get $"@) + squeezed("len"@) + squeezed(")"@)) + squeezed(")"@))
        + squeezed(")"@),
{
    lemma_get_text("off"@);
    lemma_get_text("len"@);
    lemma_bin_text("i32.add"@, get("off"@), get("len"@));
    lemma_assign_text("end"@, bin("i32.add"@, get("off"@), get("len"@)));
    assert(set_end() == Code::Assign("end"@, bin("i32.add"@, get("off"@), get("len"@))));
}

proof fn lemma_and_end_words()
    ensures
        "    (local.set $end (i32.add (local.get $off) (local.get $len)))\n"@ == (("  "@ + "  "@) + "(local.set $"@ + "end"@ + " "@ + ("("@ + "i32.add"@ + " "@
        + ("(local.get $"@ + "off"@ + ")"@) + " "@ + ("(local.get $"@ + "len"@ + ")"@) + ")"@)
        + ")"@) + "\n"@,
{
    reveal_strlit("    (local.set $end (i32.add (local.get $off) (local.get $len)))\n");
    reveal_strlit("  ");
    reveal_strlit("(local.set $");
    reveal_strlit("end");
    reveal_strlit(" ");
    reveal_strlit("(");
    reveal_strlit("i32.add");
    reveal_strlit("(local.get $");
    reveal_strlit("off");
    reveal_strlit(")");
    reveal_strlit("len");
    reveal_strlit("\n");
    assert("    (local.set $end (i32.add (local.get $off) (local.get $len)))\n"@ =~= (("  "@ + "  "@) + "(local.set $"@ + "end"@ + " "@ + ("("@ + "i32.add"@ + " "@
        + ("(local.get $"@ + "off"@ + ")"@) + " "@ + ("(local.get $"@ + "len"@ + ")"@) + ")"@)
        + ")"@) + "\n"@);
}

proof fn lemma_and_end_filled(k: nat)
    ensures
        fill("    (local.set $end (i32.add (local.get $off) (local.get $len)))\n"@, k) == (("  "@ + "  "@) + "(local.set $"@ + "end"@ + " "@ + ("("@ + "i32.add"@ + " "@
        + ("(local.get $"@ + "off"@ + ")"@) + " "@ + ("(local.get $"@ + "len"@ + ")"@) + ")"@)
        + ")"@) + "\n"@,
{
    broadcast use lemma_fill_add;

    lemma_and_end_words();
    lemma_plain_words(k);
}

proof fn lemma_and_end(k: nat)
    ensures
        squeezed(fill("    (local.set $end (i32.add (local.get $off) (local.get $len)))\n"@, k)) == squeezed(code_text(set_end())),
{
    broadcast use {lemma_squeezed_add, lemma_add_nothing, lemma_nothing_add};

    lemma_blank_literals();
    lemma_and_end_filled(k);
    lemma_and_end_text(k);
}

proof fn lemma_and_vec_end_text(k: nat)
    ensures
        squeezed(code_text(set_vec_end())) == squeezed("(local.set $"@) + squeezed("vec_end"@) + (squeezed("("@) + squeezed("i32.add"@)
        + (squeezed("(local.get $"@) + squeezed("off"@) + squeezed(")"@)) + (squeezed("("@)
        + squeezed("i32.and"@) + (squeezed("(local.get $"@) + squeezed("len"@) + squeezed(")"@))
        + (squeezed("("@) + squeezed("i32.const"@) + squeezed("-16"@) + squeezed(")"@))
        + squeezed(")"@)) + squeezed(")"@)) + squeezed(")"@),
{
    lemma_get_text("off"@);
    lemma_get_text("len"@);
    lemma_lit_text("i32.const"@, "-16"@);
    lemma_bin_text("i32.and"@, get("len"@), Term::Lit("i32.const"@, "-16"@));
    lemma_bin_text("i32.add"@, get("off"@), bin("i32.and"@, get("len"@), Term::Lit("i32.const"@, "-16"@)));
    lemma_assign_text("vec_end"@, bin("i32.add"@, get("off"@), bin("i32.and"@, get("len"@), Term::Lit("i32.const"@, "-16"@))));
    assert(set_vec_end() == Code::Assign("vec_end"@, bin("i32.add"@, get("off"@), bin("i32.and"@, get("len"@), Term::Lit("i32.const"@, "-16"@)))));
}

proof fn lemma_and_vec_end_words()
    ensures
        "    (local.set $vec_end\n      (i32.add (local.get $off)\n               (i32.and (local.get $len) (i32.const -16))))\n"@ == (("  "@ + "  "@) + "(local.set $"@ + "vec_end"@ + ("\n"@ + "  "@ + "  "@ + "  "@) + ("("@
        + "i32.add"@ + " "@ + ("(local.get $"@ + "off"@ + ")"@) + ("\n"@ + "  "@ + "  "@ + "  "@
        + "  "@ + "  "@ + "  "@ + "  "@ + " "@) + ("("@ + "i32.and"@ + " "@ + ("(local.get $"@
        + "len"@ + ")"@) + " "@ + ("("@ + "i32.const"@ + " "@ + "-16"@ + ")"@) + ")"@) + ")"@)
        + ")"@) + "\n"@,
{
    reveal_strlit("    (local.set $vec_end\n      (i32.add (local.get $off)\n               (i32.and (local.get $len) (i32.const -16))))\n");
    reveal_strlit("  ");
    reveal_strlit("(local.set $");
    reveal_strlit("vec_end");
    reveal_strlit("\n");
    reveal_strlit("(");
    reveal_strlit("i32.add");
    reveal_strlit(" ");
    reveal_strlit("(local.get $");
    reveal_strlit("off");
    reveal_strlit(")");
    reveal_strlit("i32.and");
    reveal_strlit("len");
    reveal_strlit("i32.const");
    reveal_strlit("-16");
    assert("    (local.set $vec_end\n      (i32.add (local.get $off)\n               (i32.and (local.get $len) (i32.const -16))))\n"@ =~= (("  "@ + "  "@) + "(local.set $"@ + "vec_end"@ + ("\n"@ + "  "@ + "  "@ + "  "@) + ("("@
        + "i32.add"@ + " "@ + ("(local.get $"@ + "off"@ + ")"@) + ("\n"@ + "  "@ + "  "@ + "  "@
        + "  "@ + "  "@ + "  "@ + "  "@ + " "@) + ("("@ + "i32.and"@ + " "@ + ("(local.get $"@
        + "len"@ + ")"@) + " "@ + ("("@ + "i32.const"@ + " "@ + "-16"@ + ")"@) + ")"@) + ")"@)
        + ")"@) + "\n"@);
}

proof fn lemma_and_vec_end_filled(k: nat)
    ensures
        fill("    (local.set $vec_end\n      (i32.add (local.get $off)\n               (i32.and (local.get $len) (i32.const -16))))\n"@, k) == (("  "@ + "  "@) + "(local.set $"@ + "vec_end"@ + ("\n"@ + "  "@ + "  "@ + "  "@) + ("("@
        + "i32.add"@ + " "@ + ("(local.get $"@ + "off"@ + ")"@) + ("\n"@ + "  "@ + "  "@ + "  "@
        + "  "@ + "  "@ + "  "@ + "  "@ + " "@) + ("("@ + "i32.and"@ + " "@ + ("(local.get $"@
        + "len"@ + ")"@) + " "@ + ("("@ + "i32.const"@ + " "@ + "-16"@ + ")"@) + ")"@) + ")"@)
        + ")"@) + "\n"@,
{
    broadcast use lemma_fill_add;

    lemma_and_vec_end_words();
    lemma_plain_words(k);
}

proof fn lemma_and_vec_end(k: nat)
    ensures
        squeezed(fill("    (local.set $vec_end\n      (i32.add (local.get $off)\n               (i32.and (local.get $len) (i32.const -16))))\n"@, k)) == squeezed(code_text(set_vec_end())),
{
    broadcast use {lemma_squeezed_add, lemma_add_nothing, lemma_nothing_add};

    lemma_blank_literals();
    lemma_and_vec_end_filled(k);
    lemma_and_vec_end_text(k);
}

proof fn lemma_and_acc_text(k: nat)
    ensures
        squeezed(code_text(set_acc(Fold::And))) == squeezed("(local.set $"@) + squeezed("acc"@) + (squeezed("("@) + squeezed("v128.const"@)
        + squeezed("i64x2 -1 -1"@) + squeezed(")"@)) + squeezed(")"@),
{
    lemma_lit_text("v128.const"@, "i64x2 -1 -1"@);
    lemma_assign_text("acc"@, Term::Lit("v128.const"@, "i64x2 -1 -1"@));
    assert(set_acc(Fold::And) == Code::Assign("acc"@, Term::Lit("v128.const"@, "i64x2 -1 -1"@)));
}

proof fn lemma_and_acc_words()
    ensures
        "    (local.set $acc (v128.const i64x2 -1 -1))\n"@ == (("  "@ + "  "@) + "(local.set $"@ + "acc"@ + " "@ + ("("@ + "v128.const"@ + " "@
        + "i64x2 -1 -1"@ + ")"@) + ")"@) + "\n"@,
{
    reveal_strlit("    (local.set $acc (v128.const i64x2 -1 -1))\n");
    reveal_strlit("  ");
    reveal_strlit("(local.set $");
    reveal_strlit("acc");
    reveal_strlit(" ");
    reveal_strlit("(");
    reveal_strlit("v128.const");
    reveal_strlit("i64x2 -1 -1");
    reveal_strlit(")");
    reveal_strlit("\n");
    assert("    (local.set $acc (v128.const i64x2 -1 -1))\n"@ =~= (("  "@ + "  "@) + "(local.set $"@ + "acc"@ + " "@ + ("("@ + "v128.const"@ + " "@
        + "i64x2 -1 -1"@ + ")"@) + ")"@) + "\n"@);
}

proof fn lemma_and_acc_filled(k: nat)
    ensures
        fill("    (local.set $acc (v128.const i64x2 -1 -1))\n"@, k) == (("  "@ + "  "@) + "(local.set $"@ + "acc"@ + " "@ + ("("@ + "v128.const"@ + " "@
        + "i64x2 -1 -1"@ + ")"@) + ")"@) + "\n"@,
{
    broadcast use lemma_fill_add;

    lemma_and_acc_words();
    lemma_plain_words(k);
}

proof fn lemma_and_acc(k: nat)
    ensures
        squeezed(fill("    (local.set $acc (v128.const i64x2 -1 -1))\n"@, k)) == squeezed(code_text(set_acc(Fold::And))),
{
    broadcast use {lemma_squeezed_add, lemma_add_nothing, lemma_nothing_add};

    lemma_blank_literals();
    lemma_and_acc_filled(k);
    lemma_and_acc_text(k);
}

proof fn lemma_and_start_text(k: nat)
    ensures
        squeezed(code_text(set_byte())) == squeezed("(local.set $"@) + squeezed("byte"@) + (squeezed("("@) + squeezed("i32.const"@)
        + squeezed("0xff"@) + squeezed(")"@)) + squeezed(")"@),
{
    lemma_lit_text("i32.const"@, "0xff"@);
    lemma_assign_text("byte"@, Term::Lit("i32.const"@, "0xff"@));
    assert(set_byte() == Code::Assign("byte"@, Term::Lit("i32.const"@, "0xff"@)));
}

proof fn lemma_and_start_words()
    ensures
        "    (local.set $byte (i32.const 0xff))\n"@ == (("  "@ + "  "@) + "(local.set $"@ + "byte"@ + " "@ + ("("@ + "i32.const"@ + " "@
        + "0xff"@ + ")"@) + ")"@) + "\n"@,
{
    reveal_strlit("    (local.set $byte (i32.const 0xff))\n");
    reveal_strlit("  ");
    reveal_strlit("(local.set $");
    reveal_strlit("byte");
    reveal_strlit(" ");
    reveal_strlit("(");
    reveal_strlit("i32.const");
    reveal_strlit("0xff");
    reveal_strlit(")");
    reveal_strlit("\n");
    assert("    (local.set $byte (i32.const 0xff))\n"@ =~= (("  "@ + "  "@) + "(local.set $"@ + "byte"@ + " "@ + ("("@ + "i32.const"@ + " "@
        + "0xff"@ + ")"@) + ")"@) + "\n"@);
}

proof fn lemma_and_start_filled(k: nat)
    ensures
        fill("    (local.set $byte (i32.const 0xff))\n"@, k) == (("  "@ + "  "@) + "(local.set $"@ + "byte"@ + " "@ + ("("@ + "i32.const"@ + " "@
        + "0xff"@ + ")"@) + ")"@) + "\n"@,
{
    broadcast use lemma_fill_add;

    lemma_and_start_words();
    lemma_plain_words(k);
}

proof fn lemma_and_start(k: nat)
    ensures
        squeezed(fill("    (local.set $byte (i32.const 0xff))\n"@, k)) == squeezed(code_text(set_byte())),
{
    broadcast use {lemma_squeezed_add, lemma_add_nothing, lemma_nothing_add};

    lemma_blank_literals();
    lemma_and_start_filled(k);
    lemma_and_start_text(k);
}

proof fn lemma_and_vec_words()
    ensures
        "    (block $vec_done\n      (loop $vec_continue\n        (br_if $vec_done (i32.eq (local.get $cur) (local.get $vec_end)))\n"@ == (("  "@ + "  "@) + "(block $"@) + "vec_done"@ + ("\n"@ + "  "@ + "  "@ + " "@)
        + " (loop $"@ + "vec_continue"@ + ("\n"@ + "  "@ + "  "@ + "  "@ + " "@) + " (br_if $"@
        + "vec_done"@ + " "@ + ("("@ + "i32.eq"@ + " "@ + ("(local.get $"@ + "cur"@ + ")"@) + " "@
        + ("(local.get $"@ + "vec_end"@ + ")"@) + ")"@) + ")"@ + "\n"@,
{
    reveal_strlit("    (block $vec_done\n      (loop $vec_continue\n        (br_if $vec_done (i32.eq (local.get $cur) (local.get $vec_end)))\n");
    reveal_strlit("  ");
    reveal_strlit("(block $");
    reveal_strlit("vec_done");
    reveal_strlit("\n");
    reveal_strlit(" ");
    reveal_strlit(" (loop $");
    reveal_strlit("vec_continue");
    reveal_strlit(" (br_if $");
    reveal_strlit("(");
    reveal_strlit("i32.eq");
    reveal_strlit("(local.get $");
    reveal_strlit("cur");
    reveal_strlit(")");
    reveal_strlit("vec_end");
    assert("    (block $vec_done\n      (loop $vec_continue\n        (br_if $vec_done (i32.eq (local.get $cur) (local.get $vec_end)))\n"@ =~= (("  "@ + "  "@) + "(block $"@) + "vec_done"@ + ("\n"@ + "  "@ + "  "@ + " "@)
        + " (loop $"@ + "vec_continue"@ + ("\n"@ + "  "@ + "  "@ + "  "@ + " "@) + " (br_if $"@
        + "vec_done"@ + " "@ + ("("@ + "i32.eq"@ + " "@ + ("(local.get $"@ + "cur"@ + ")"@) + " "@
        + ("(local.get $"@ + "vec_end"@ + ")"@) + ")"@) + ")"@ + "\n"@);
}

proof fn lemma_and_vec_filled(k: nat)
    ensures
        fill("    (block $vec_done\n      (loop $vec_continue\n        (br_if $vec_done (i32.eq (local.get $cur) (local.get $vec_end)))\n"@, k) == (("  "@ + "  "@) + "(block $"@) + "vec_done"@ + ("\n"@ + "  "@ + "  "@ + " "@)
        + " (loop $"@ + "vec_continue"@ + ("\n"@ + "  "@ + "  "@ + "  "@ + " "@) + " (br_if $"@
        + "vec_done"@ + " "@ + ("("@ + "i32.eq"@ + " "@ + ("(local.get $"@ + "cur"@ + ")"@) + " "@
        + ("(local.get $"@ + "vec_end"@ + ")"@) + ")"@) + ")"@ + "\n"@,
{
    broadcast use lemma_fill_add;

    lemma_and_vec_words();
    lemma_plain_words(k);
}

proof fn lemma_and_vec(k: nat)
    ensures
        squeezed(fill("    (block $vec_done\n      (loop $vec_continue\n        (br_if $vec_done (i32.eq (local.get $cur) (local.get $vec_end)))\n"@, k)) == opening_text("vec_done"@, "vec_continue"@, bin("i32.eq"@, get("cur"@), get("vec_end"@))),
{
    broadcast use {lemma_squeezed_add, lemma_add_nothing, lemma_nothing_add};

    lemma_blank_literals();
    lemma_and_vec_filled(k);
    lemma_get_text("cur"@);
    lemma_get_text("vec_end"@);
    lemma_bin_text("i32.eq"@, get("cur"@), get("vec_end"@));
}

proof fn lemma_and_fold_text(k: nat)
    ensures
        squeezed(code_text(fold_vec(Fold::And, k))) == squeezed("(local.set $"@) + squeezed("acc"@) + (squeezed("("@) + squeezed("v128.and"@)
        + (squeezed("(local.get $"@) + squeezed("acc"@) + squeezed(")"@)) + (squeezed("("@)
        + squeezed("v128.load"@) + squeezed(decimal(k)) + (squeezed("(local.get $"@)
        + squeezed("cur"@) + squeezed(")"@)) + squeezed(")"@)) + squeezed(")"@)) + squeezed(")"@),
{
    lemma_get_text("acc"@);
    lemma_get_text("cur"@);
    lemma_load_text("v128.load"@, k, get("cur"@));
    lemma_bin_text("v128.and"@, get("acc"@), Term::Load("v128.load"@, k, Box::new(get("cur"@))));
    lemma_assign_text("acc"@, bin("v128.and"@, get("acc"@), Term::Load("v128.load"@, k, Box::new(get("cur"@)))));
    assert(fold_vec(Fold::And, k) == Code::Assign("acc"@, bin("v128.and"@, get("acc"@), Term::Load("v128.load"@, k, Box::new(get("cur"@))))));
}

proof fn lemma_and_fold_words()
    ensures
        "        (local.set $acc\n          (v128.and (local.get $acc) (v128.load @ (local.get $cur))))\n"@ == (("  "@ + "  "@ + "  "@ + "  "@) + "(local.set $"@ + "acc"@ + ("\n"@ + "  "@ + "  "@
        + "  "@ + "  "@ + "  "@) + ("("@ + "v128.and"@ + " "@ + ("(local.get $"@ + "acc"@ + ")"@)
        + " "@ + ("("@ + "v128.load"@ + " "@ + "@"@ + " "@ + ("(local.get $"@ + "cur"@ + ")"@)
        + ")"@) + ")"@) + ")"@) + "\n"@,
{
    reveal_strlit("        (local.set $acc\n          (v128.and (local.get $acc) (v128.load @ (local.get $cur))))\n");
    reveal_strlit("  ");
    reveal_strlit("(local.set $");
    reveal_strlit("acc");
    reveal_strlit("\n");
    reveal_strlit("(");
    reveal_strlit("v128.and");
    reveal_strlit(" ");
    reveal_strlit("(local.get $");
    reveal_strlit(")");
    reveal_strlit("v128.load");
    reveal_strlit("@");
    reveal_strlit("cur");
    assert("        (local.set $acc\n          (v128.and (local.get $acc) (v128.load @ (local.get $cur))))\n"@ =~= (("  "@ + "  "@ + "  "@ + "  "@) + "(local.set $"@ + "acc"@ + ("\n"@ + "  "@ + "  "@
        + "  "@ + "  "@ + "  "@) + ("("@ + "v128.and"@ + " "@ + ("(local.get $"@ + "acc"@ + ")"@)
        + " "@ + ("("@ + "v128.load"@ + " "@ + "@"@ + " "@ + ("(local.get $"@ + "cur"@ + ")"@)
        + ")"@) + ")"@) + ")"@) + "\n"@);
}

proof fn lemma_and_fold_filled(k: nat)
    ensures
        fill("        (local.set $acc\n          (v128.and (local.get $acc) (v128.load @ (local.get $cur))))\n"@, k) == (("  "@ + "  "@ + "  "@ + "  "@) + "(local.set $"@ + "acc"@ + ("\n"@ + "  "@ + "  "@
        + "  "@ + "  "@ + "  "@) + ("("@ + "v128.and"@ + " "@ + ("(local.get $"@ + "acc"@ + ")"@)
        + " "@ + ("("@ + "v128.load"@ + " "@ + decimal(k) + " "@ + ("(local.get $"@ + "cur"@
        + ")"@) + ")"@) + ")"@) + ")"@) + "\n"@,
{
    broadcast use lemma_fill_add;

    lemma_and_fold_words();
    lemma_plain_words(k);
    lemma_fill_place(k);
}

proof fn lemma_and_fold(k: nat)
    ensures
        squeezed(fill("        (local.set $acc\n          (v128.and (local.get $acc) (v128.load @ (local.get $cur))))\n"@, k)) == squeezed(code_text(fold_vec(Fold::And, k))),
{
    broadcast use {lemma_squeezed_add, lemma_add_nothing, lemma_nothing_add};

    lemma_blank_literals();
    lemma_and_fold_filled(k);
    lemma_and_fold_text(k);
}

proof fn lemma_and_step_text(k: nat)
    ensures
        squeezed(code_text(step_by("16"@))) == squeezed("(local.set $"@) + squeezed("cur"@) + (squeezed("("@) + squeezed("i32.add"@)
        + (squeezed("(local.get $"@) + squeezed("cur"@) + squeezed(")"@)) + (squeezed("("@)
        + squeezed("i32.const"@) + squeezed("16"@) + squeezed(")"@)) + squeezed(")"@))
        + squeezed(")"@),
{
    lemma_get_text("cur"@);
    lemma_lit_text("i32.const"@, "16"@);
    lemma_bin_text("i32.add"@, get("cur"@), Term::Lit("i32.const"@, "16"@));
    lemma_assign_text("cur"@, bin("i32.add"@, get("cur"@), Term::Lit("i32.const"@, "16"@)));
    assert(step_by("16"@) == Code::Assign("cur"@, bin("i32.add"@, get("cur"@), Term::Lit("i32.const"@, "16"@))));
}

proof fn lemma_and_step_words()
    ensures
        "        (local.set $cur (i32.add (local.get $cur) (i32.const 16)))\n"@ == (("  "@ + "  "@ + "  "@ + "  "@) + "(local.set $"@ + "cur"@ + " "@ + ("("@ + "i32.add"@
        + " "@ + ("(local.get $"@ + "cur"@ + ")"@) + " "@ + ("("@ + "i32.const"@ + " "@ + "16"@
        + ")"@) + ")"@) + ")"@) + "\n"@,
{
    reveal_strlit("        (local.set $cur (i32.add (local.get $cur) (i32.const 16)))\n");
    reveal_strlit("  ");
    reveal_strlit("(local.set $");
    reveal_strlit("cur");
    reveal_strlit(" ");
    reveal_strlit("(");
    reveal_strlit("i32.add");
    reveal_strlit("(local.get $");
    reveal_strlit(")");
    reveal_strlit("i32.const");
    reveal_strlit("16");
    reveal_strlit("\n");
    assert("        (local.set $cur (i32.add (local.get $cur) (i32.const 16)))\n"@ =~= (("  "@ + "  "@ + "  "@ + "  "@) + "(local.set $"@ + "cur"@ + " "@ + ("("@ + "i32.add"@
        + " "@ + ("(local.get $"@ + "cur"@ + ")"@) + " "@ + ("("@ + "i32.const"@ + " "@ + "16"@
        + ")"@) + ")"@) + ")"@) + "\n"@);
}

proof fn lemma_and_step_filled(k: nat)
    ensures
        fill("        (local.set $cur (i32.add (local.get $cur) (i32.const 16)))\n"@, k) == (("  "@ + "  "@ + "  "@ + "  "@) + "(local.set $"@ + "cur"@ + " "@ + ("("@ + "i32.add"@
        + " "@ + ("(local.get $"@ + "cur"@ + ")"@) + " "@ + ("("@ + "i32.const"@ + " "@ + "16"@
        + ")"@) + ")"@) + ")"@) + "\n"@,
{
    broadcast use lemma_fill_add;

    lemma_and_step_words();
    lemma_plain_words(k);
}

proof fn lemma_and_step(k: nat)
    ensures
        squeezed(fill("        (local.set $cur (i32.add (local.get $cur) (i32.const 16)))\n"@, k)) == squeezed(code_text(step_by("16"@))),
{
    broadcast use {lemma_squeezed_add, lemma_add_nothing, lemma_nothing_add};

    lemma_blank_literals();
    lemma_and_step_filled(k);
    lemma_and_step_text(k);
}

proof fn lemma_and_again_words()
    ensures
        "        (br $vec_continue)))\n"@ == (("  "@ + "  "@ + "  "@ + "  "@) + "(br $"@) + "vec_continue"@ + ")"@ + ")"@ + ")"@
        + "\n"@,
{
    reveal_strlit("        (br $vec_continue)))\n");
    reveal_strlit("  ");
    reveal_strlit("(br $");
    reveal_strlit("vec_continue");
    reveal_strlit(")");
    reveal_strlit("\n");
    assert("        (br $vec_continue)))\n"@ =~= (("  "@ + "  "@ + "  "@ + "  "@) + "(br $"@) + "vec_continue"@ + ")"@ + ")"@ + ")"@
        + "\n"@);
}

proof fn lemma_and_again_filled(k: nat)
    ensures
        fill("        (br $vec_continue)))\n"@, k) == (("  "@ + "  "@ + "  "@ + "  "@) + "(br $"@) + "vec_continue"@ + ")"@ + ")"@ + ")"@
        + "\n"@,
{
    broadcast use lemma_fill_add;

    lemma_and_again_words();
    lemma_plain_words(k);
}

proof fn lemma_and_again(k: nat)
    ensures
        squeezed(fill("        (br $vec_continue)))\n"@, k)) == closing_text("vec_continue"@),
{
    broadcast use {lemma_squeezed_add, lemma_add_nothing, lemma_nothing_add};

    lemma_blank_literals();
    lemma_and_again_filled(k);
}

proof fn lemma_and_any_words()
    ensures
        "    (if (i32.ne (local.get $vec_end) (local.get $off))\n      (then\n"@ == (("  "@ + "  "@) + "(if "@) + ("("@ + "i32.ne"@ + " "@ + ("(local.get $"@ + "vec_end"@
        + ")"@) + " "@ + ("(local.get $"@ + "off"@ + ")"@) + ")"@) + ("\n"@ + "  "@ + "  "@
        + " "@) + " (then"@ + "\n"@,
{
    reveal_strlit("    (if (i32.ne (local.get $vec_end) (local.get $off))\n      (then\n");
    reveal_strlit("  ");
    reveal_strlit("(if ");
    reveal_strlit("(");
    reveal_strlit("i32.ne");
    reveal_strlit(" ");
    reveal_strlit("(local.get $");
    reveal_strlit("vec_end");
    reveal_strlit(")");
    reveal_strlit("off");
    reveal_strlit("\n");
    reveal_strlit(" (then");
    assert("    (if (i32.ne (local.get $vec_end) (local.get $off))\n      (then\n"@ =~= (("  "@ + "  "@) + "(if "@) + ("("@ + "i32.ne"@ + " "@ + ("(local.get $"@ + "vec_end"@
        + ")"@) + " "@ + ("(local.get $"@ + "off"@ + ")"@) + ")"@) + ("\n"@ + "  "@ + "  "@
        + " "@) + " (then"@ + "\n"@);
}

proof fn lemma_and_any_filled(k: nat)
    ensures
        fill("    (if (i32.ne (local.get $vec_end) (local.get $off))\n      (then\n"@, k) == (("  "@ + "  "@) + "(if "@) + ("("@ + "i32.ne"@ + " "@ + ("(local.get $"@ + "vec_end"@
        + ")"@) + " "@ + ("(local.get $"@ + "off"@ + ")"@) + ")"@) + ("\n"@ + "  "@ + "  "@
        + " "@) + " (then"@ + "\n"@,
{
    broadcast use lemma_fill_add;

    lemma_and_any_words();
    lemma_plain_words(k);
}

proof fn lemma_and_any(k: nat)
    ensures
        squeezed(fill("    (if (i32.ne (local.get $vec_end) (local.get $off))\n      (then\n"@, k)) == if_text(any_vec()),
{
    broadcast use {lemma_squeezed_add, lemma_add_nothing, lemma_nothing_add};

    lemma_blank_literals();
    lemma_and_any_filled(k);
    lemma_get_text("vec_end"@);
    lemma_get_text("off"@);
    lemma_bin_text("i32.ne"@, get("vec_end"@), get("off"@));
    lemma_then_word();
}

proof fn lemma_and_join_text(k: nat)
    ensures
        squeezed(code_text(join_lanes(Fold::And))) == squeezed("(local.set $"@) + squeezed("tmp"@) + (squeezed("("@) + squeezed("i64.and"@)
        + (squeezed("("@) + squeezed("i64x2.extract_lane 0"@) + (squeezed("(local.get $"@)
        + squeezed("acc"@) + squeezed(")"@)) + squeezed(")"@)) + (squeezed("("@)
        + squeezed("i64x2.extract_lane 1"@) + (squeezed("(local.get $"@) + squeezed("acc"@)
        + squeezed(")"@)) + squeezed(")"@)) + squeezed(")"@)) + squeezed(")"@),
{
    lemma_get_text("acc"@);
    lemma_un_text("i64x2.extract_lane 0"@, get("acc"@));
    lemma_un_text("i64x2.extract_lane 1"@, get("acc"@));
    lemma_bin_text("i64.and"@, un("i64x2.extract_lane 0"@, get("acc"@)), un("i64x2.extract_lane 1"@, get("acc"@)));
    lemma_assign_text("tmp"@, bin("i64.and"@, un("i64x2.extract_lane 0"@, get("acc"@)), un("i64x2.extract_lane 1"@, get("acc"@))));
    assert(join_lanes(Fold::And) == Code::Assign("tmp"@, bin("i64.and"@, un("i64x2.extract_lane 0"@, get("acc"@)), un("i64x2.extract_lane 1"@, get("acc"@)))));
}

proof fn lemma_and_join_words()
    ensures
        "        (local.set $tmp\n          (i64.and\n            (i64x2.extract_lane 0 (local.get $acc))\n            (i64x2.extract_lane 1 (local.get $acc))))\n"@ == (("  "@ + "  "@ + "  "@ + "  "@) + "(local.set $"@ + "tmp"@ + ("\n"@ + "  "@ + "  "@
        + "  "@ + "  "@ + "  "@) + ("("@ + "i64.and"@ + ("\n"@ + "  "@ + "  "@ + "  "@ + "  "@
        + "  "@ + "  "@) + ("("@ + "i64x2.extract_lane 0"@ + " "@ + ("(local.get $"@ + "acc"@
        + ")"@) + ")"@) + ("\n"@ + "  "@ + "  "@ + "  "@ + "  "@ + "  "@ + "  "@) + ("("@
        + "i64x2.extract_lane 1"@ + " "@ + ("(local.get $"@ + "acc"@ + ")"@) + ")"@) + ")"@)
        + ")"@) + "\n"@,
{
    reveal_strlit("        (local.set $tmp\n          (i64.and\n            (i64x2.extract_lane 0 (local.get $acc))\n            (i64x2.extract_lane 1 (local.get $acc))))\n");
    reveal_strlit("  ");
    reveal_strlit("(local.set $");
    reveal_strlit("tmp");
    reveal_strlit("\n");
    reveal_strlit("(");
    reveal_strlit("i64.and");
    reveal_strlit("i64x2.extract_lane 0");
    reveal_strlit(" ");
    reveal_strlit("(local.get $");
    reveal_strlit("acc");
    reveal_strlit(")");
    reveal_strlit("i64x2.extract_lane 1");
    assert("        (local.set $tmp\n          (i64.and\n            (i64x2.extract_lane 0 (local.get $acc))\n            (i64x2.extract_lane 1 (local.get $acc))))\n"@ =~= (("  "@ + "  "@ + "  "@ + "  "@) + "(local.set $"@ + "tmp"@ + ("\n"@ + "  "@ + "  "@
        + "  "@ + "  "@ + "  "@) + ("("@ + "i64.and"@ + ("\n"@ + "  "@ + "  "@ + "  "@ + "  "@
        + "  "@ + "  "@) + ("("@ + "i64x2.extract_lane 0"@ + " "@ + ("(local.get $"@ + "acc"@
        + ")"@) + ")"@) + ("\n"@ + "  "@ + "  "@ + "  "@ + "  "@ + "  "@ + "  "@) + ("("@
        + "i64x2.extract_lane 1"@ + " "@ + ("(local.get $"@ + "acc"@ + ")"@) + ")"@) + ")"@)
        + ")"@) + "\n"@);
}

proof fn lemma_and_join_filled(k: nat)
    ensures
        fill("        (local.set $tmp\n          (i64.and\n            (i64x2.extract_lane 0 (local.get $acc))\n            (i64x2.extract_lane 1 (local.get $acc))))\n"@, k) == (("  "@ + "  "@ + "  "@ + "  "@) + "(local.set $"@ + "tmp"@ + ("\n"@ + "  "@ + "  "@
        + "  "@ + "  "@ + "  "@) + ("("@ + "i64.and"@ + ("\n"@ + "  "@ + "  "@ + "  "@ + "  "@
        + "  "@ + "  "@) + ("("@ + "i64x2.extract_lane 0"@ + " "@ + ("(local.get $"@ + "acc"@
        + ")"@) + ")"@) + ("\n"@ + "  "@ + "  "@ + "  "@ + "  "@ + "  "@ + "  "@) + ("("@
        + "i64x2.extract_lane 1"@ + " "@ + ("(local.get $"@ + "acc"@ + ")"@) + ")"@) + ")"@)
        + ")"@) + "\n"@,
{
    broadcast use lemma_fill_add;

    lemma_and_join_words();
    lemma_plain_words(k);
}

proof fn lemma_and_join(k: nat)
    ensures
        squeezed(fill("        (local.set $tmp\n          (i64.and\n            (i64x2.extract_lane 0 (local.get $acc))\n            (i64x2.extract_lane 1 (local.get $acc))))\n"@, k)) == squeezed(code_text(join_lanes(Fold::And))),
{
    broadcast use {lemma_squeezed_add, lemma_add_nothing, lemma_nothing_add};

    lemma_blank_literals();
    lemma_and_join_filled(k);
    lemma_and_join_text(k);
}

proof fn lemma_and_h32_text(k: nat)
    ensures
        squeezed(code_text(halve(Fold::And, "32"@))) == squeezed("(local.set $"@) + squeezed("tmp"@) + (squeezed("("@) + squeezed("i64.and"@)
        + (squeezed("(local.get $"@) + squeezed("tmp"@) + squeezed(")"@)) + (squeezed("("@)
        + squeezed("i64.shr_u"@) + (squeezed("(local.get $"@) + squeezed("tmp"@) + squeezed(")"@))
        + (squeezed("("@) + squeezed("i64.const"@) + squeezed("32"@) + squeezed(")"@))
        + squeezed(")"@)) + squeezed(")"@)) + squeezed(")"@),
{
    lemma_get_text("tmp"@);
    lemma_lit_text("i64.const"@, "32"@);
    lemma_bin_text("i64.shr_u"@, get("tmp"@), Term::Lit("i64.const"@, "32"@));
    lemma_bin_text("i64.and"@, get("tmp"@), bin("i64.shr_u"@, get("tmp"@), Term::Lit("i64.const"@, "32"@)));
    lemma_assign_text("tmp"@, bin("i64.and"@, get("tmp"@), bin("i64.shr_u"@, get("tmp"@), Term::Lit("i64.const"@, "32"@))));
    assert(halve(Fold::And, "32"@) == Code::Assign("tmp"@, bin("i64.and"@, get("tmp"@), bin("i64.shr_u"@, get("tmp"@), Term::Lit("i64.const"@, "32"@)))));
}

proof fn lemma_and_h32_words()
    ensures
        "        (local.set $tmp\n          (i64.and (local.get $tmp) (i64.shr_u (local.get $tmp) (i64.const 32))))\n"@ == (("  "@ + "  "@ + "  "@ + "  "@) + "(local.set $"@ + "tmp"@ + ("\n"@ + "  "@ + "  "@
        + "  "@ + "  "@ + "  "@) + ("("@ + "i64.and"@ + " "@ + ("(local.get $"@ + "tmp"@ + ")"@)
        + " "@ + ("("@ + "i64.shr_u"@ + " "@ + ("(local.get $"@ + "tmp"@ + ")"@) + " "@ + ("("@
        + "i64.const"@ + " "@ + "32"@ + ")"@) + ")"@) + ")"@) + ")"@) + "\n"@,
{
    reveal_strlit("        (local.set $tmp\n          (i64.and (local.get $tmp) (i64.shr_u (local.get $tmp) (i64.const 32))))\n");
    reveal_strlit("  ");
    reveal_strlit("(local.set $");
    reveal_strlit("tmp");
    reveal_strlit("\n");
    reveal_strlit("(");
    reveal_strlit("i64.and");
    reveal_strlit(" ");
    reveal_strlit("(local.get $");
    reveal_strlit(")");
    reveal_strlit("i64.shr_u");
    reveal_strlit("i64.const");
    reveal_strlit("32");
    assert("        (local.set $tmp\n          (i64.and (local.get $tmp) (i64.shr_u (local.get $tmp) (i64.const 32))))\n"@ =~= (("  "@ + "  "@ + "  "@ + "  "@) + "(local.set $"@ + "tmp"@ + ("\n"@ + "  "@ + "  "@
        + "  "@ + "  "@ + "  "@) + ("("@ + "i64.and"@ + " "@ + ("(local.get $"@ + "tmp"@ + ")"@)
        + " "@ + ("("@ + "i64.shr_u"@ + " "@ + ("(local.get $"@ + "tmp"@ + ")"@) + " "@ + ("("@
        + "i64.const"@ + " "@ + "32"@ + ")"@) + ")"@) + ")"@) + ")"@) + "\n"@);
}

proof fn lemma_and_h32_filled(k: nat)
    ensures
        fill("        (local.set $tmp\n          (i64.and (local.get $tmp) (i64.shr_u (local.get $tmp) (i64.const 32))))\n"@, k) == (("  "@ + "  "@ + "  "@ + "  "@) + "(local.set $"@ + "tmp"@ + ("\n"@ + "  "@ + "  "@
        + "  "@ + "  "@ + "  "@) + ("("@ + "i64.and"@ + " "@ + ("(local.get $"@ + "tmp"@ + ")"@)
        + " "@ + ("("@ + "i64.shr_u"@ + " "@ + ("(local.get $"@ + "tmp"@ + ")"@) + " "@ + ("("@
        + "i64.const"@ + " "@ + "32"@ + ")"@) + ")"@) + ")"@) + ")"@) + "\n"@,
{
    broadcast use lemma_fill_add;

    lemma_and_h32_words();
    lemma_plain_words(k);
}

proof fn lemma_and_h32(k: nat)
    ensures
        squeezed(fill("        (local.set $tmp\n          (i64.and (local.get $tmp) (i64.shr_u (local.get $tmp) (i64.const 32))))\n"@, k)) == squeezed(code_text(halve(Fold::And, "32"@))),
{
    broadcast use {lemma_squeezed_add, lemma_add_nothing, lemma_nothing_add};

    lemma_blank_literals();
    lemma_and_h32_filled(k);
    lemma_and_h32_text(k);
}

proof fn lemma_and_h16_text(k: nat)
    ensures
        squeezed(code_text(halve(Fold::And, "16"@))) == squeezed("(local.set $"@) + squeezed("tmp"@) + (squeezed("("@) + squeezed("i64.and"@)
        + (squeezed("(local.get $"@) + squeezed("tmp"@) + squeezed(")"@)) + (squeezed("("@)
        + squeezed("i64.shr_u"@) + (squeezed("(local.get $"@) + squeezed("tmp"@) + squeezed(")"@))
        + (squeezed("("@) + squeezed("i64.const"@) + squeezed("16"@) + squeezed(")"@))
        + squeezed(")"@)) + squeezed(")"@)) + squeezed(")"@),
{
    lemma_get_text("tmp"@);
    lemma_lit_text("i64.const"@, "16"@);
    lemma_bin_text("i64.shr_u"@, get("tmp"@), Term::Lit("i64.const"@, "16"@));
    lemma_bin_text("i64.and"@, get("tmp"@), bin("i64.shr_u"@, get("tmp"@), Term::Lit("i64.const"@, "16"@)));
    lemma_assign_text("tmp"@, bin("i64.and"@, get("tmp"@), bin("i64.shr_u"@, get("tmp"@), Term::Lit("i64.const"@, "16"@))));
    assert(halve(Fold::And, "16"@) == Code::Assign("tmp"@, bin("i64.and"@, get("tmp"@), bin("i64.shr_u"@, get("tmp"@), Term::Lit("i64.const"@, "16"@)))));
}

proof fn lemma_and_h16_words()
    ensures
        "        (local.set $tmp\n          (i64.and (local.get $tmp) (i64.shr_u (local.get $tmp) (i64.const 16))))\n"@ == (("  "@ + "  "@ + "  "@ + "  "@) + "(local.set $"@ + "tmp"@ + ("\n"@ + "  "@ + "  "@
        + "  "@ + "  "@ + "  "@) + ("("@ + "i64.and"@ + " "@ + ("(local.get $"@ + "tmp"@ + ")"@)
        + " "@ + ("("@ + "i64.shr_u"@ + " "@ + ("(local.get $"@ + "tmp"@ + ")"@) + " "@ + ("("@
        + "i64.const"@ + " "@ + "16"@ + ")"@) + ")"@) + ")"@) + ")"@) + "\n"@,
{
    reveal_strlit("        (local.set $tmp\n          (i64.and (local.get $tmp) (i64.shr_u (local.get $tmp) (i64.const 16))))\n");
    reveal_strlit("  ");
    reveal_strlit("(local.set $");
    reveal_strlit("tmp");
    reveal_strlit("\n");
    reveal_strlit("(");
    reveal_strlit("i64.and");
    reveal_strlit(" ");
    reveal_strlit("(local.get $");
    reveal_strlit(")");
    reveal_strlit("i64.shr_u");
    reveal_strlit("i64.const");
    reveal_strlit("16");
    assert("        (local.set $tmp\n          (i64.and (local.get $tmp) (i64.shr_u (local.get $tmp) (i64.const 16))))\n"@ =~= (("  "@ + "  "@ + "  "@ + "  "@) + "(local.set $"@ + "tmp"@ + ("\n"@ + "  "@ + "  "@
        + "  "@ + "  "@ + "  "@) + ("("@ + "i64.and"@ + " "@ + ("(local.get $"@ + "tmp"@ + ")"@)
        + " "@ + ("("@ + "i64.shr_u"@ + " "@ + ("(local.get $"@ + "tmp"@ + ")"@) + " "@ + ("("@
        + "i64.const"@ + " "@ + "16"@ + ")"@) + ")"@) + ")"@) + ")"@) + "\n"@);
}

proof fn lemma_and_h16_filled(k: nat)
    ensures
        fill("        (local.set $tmp\n          (i64.and (local.get $tmp) (i64.shr_u (local.get $tmp) (i64.const 16))))\n"@, k) == (("  "@ + "  "@ + "  "@ + "  "@) + "(local.set $"@ + "tmp"@ + ("\n"@ + "  "@ + "  "@
        + "  "@ + "  "@ + "  "@) + ("("@ + "i64.and"@ + " "@ + ("(local.get $"@ + "tmp"@ + ")"@)
        + " "@ + ("("@ + "i64.shr_u"@ + " "@ + ("(local.get $"@ + "tmp"@ + ")"@) + " "@ + ("("@
        + "i64.const"@ + " "@ + "16"@ + ")"@) + ")"@) + ")"@) + ")"@) + "\n"@,
{
    broadcast use lemma_fill_add;

    lemma_and_h16_words();
    lemma_plain_words(k);
}

proof fn lemma_and_h16(k: nat)
    ensures
        squeezed(fill("        (local.set $tmp\n          (i64.and (local.get $tmp) (i64.shr_u (local.get $tmp) (i64.const 16))))\n"@, k)) == squeezed(code_text(halve(Fold::And, "16"@))),
{
    broadcast use {lemma_squeezed_add, lemma_add_nothing, lemma_nothing_add};

    lemma_blank_literals();
    lemma_and_h16_filled(k);
    lemma_and_h16_text(k);
}

proof fn lemma_and_h8_text(k: nat)
    ensures
        squeezed(code_text(halve(Fold::And, "8"@))) == squeezed("(local.set $"@) + squeezed("tmp"@) + (squeezed("("@) + squeezed("i64.and"@)
        + (squeezed("(local.get $"@) + squeezed("tmp"@) + squeezed(")"@)) + (squeezed("("@)
        + squeezed("i64.shr_u"@) + (squeezed("(local.get $"@) + squeezed("tmp"@) + squeezed(")"@))
        + (squeezed("("@) + squeezed("i64.const"@) + squeezed("8"@) + squeezed(")"@))
        + squeezed(")"@)) + squeezed(")"@)) + squeezed(")"@),
{
    lemma_get_text("tmp"@);
    lemma_lit_text("i64.const"@, "8"@);
    lemma_bin_text("i64.shr_u"@, get("tmp"@), Term::Lit("i64.const"@, "8"@));
    lemma_bin_text("i64.and"@, get("tmp"@), bin("i64.shr_u"@, get("tmp"@), Term::Lit("i64.const"@, "8"@)));
    lemma_assign_text("tmp"@, bin("i64.and"@, get("tmp"@), bin("i64.shr_u"@, get("tmp"@), Term::Lit("i64.const"@, "8"@))));
    assert(halve(Fold::And, "8"@) == Code::Assign("tmp"@, bin("i64.and"@, get("tmp"@), bin("i64.shr_u"@, get("tmp"@), Term::Lit("i64.const"@, "8"@)))));
}

proof fn lemma_and_h8_words()
    ensures
        "        (local.set $tmp\n          (i64.and (local.get $tmp) (i64.shr_u (local.get $tmp) (i64.const 8))))\n"@ == (("  "@ + "  "@ + "  "@ + "  "@) + "(local.set $"@ + "tmp"@ + ("\n"@ + "  "@ + "  "@
        + "  "@ + "  "@ + "  "@) + ("("@ + "i64.and"@ + " "@ + ("(local.get $"@ + "tmp"@ + ")"@)
        + " "@ + ("("@ + "i64.shr_u"@ + " "@ + ("(local.get $"@ + "tmp"@ + ")"@) + " "@ + ("("@
        + "i64.const"@ + " "@ + "8"@ + ")"@) + ")"@) + ")"@) + ")"@) + "\n"@,
{
    reveal_strlit("        (local.set $tmp\n          (i64.and (local.get $tmp) (i64.shr_u (local.get $tmp) (i64.const 8))))\n");
    reveal_strlit("  ");
    reveal_strlit("(local.set $");
    reveal_strlit("tmp");
    reveal_strlit("\n");
    reveal_strlit("(");
    reveal_strlit("i64.and");
    reveal_strlit(" ");
    reveal_strlit("(local.get $");
    reveal_strlit(")");
    reveal_strlit("i64.shr_u");
    reveal_strlit("i64.const");
    reveal_strlit("8");
    assert("        (local.set $tmp\n          (i64.and (local.get $tmp) (i64.shr_u (local.get $tmp) (i64.const 8))))\n"@ =~= (("  "@ + "  "@ + "  "@ + "  "@) + "(local.set $"@ + "tmp"@ + ("\n"@ + "  "@ + "  "@
        + "  "@ + "  "@ + "  "@) + ("("@ + "i64.and"@ + " "@ + ("(local.get $"@ + "tmp"@ + ")"@)
        + " "@ + ("("@ + "i64.shr_u"@ + " "@ + ("(local.get $"@ + "tmp"@ + ")"@) + " "@ + ("("@
        + "i64.const"@ + " "@ + "8"@ + ")"@) + ")"@) + ")"@) + ")"@) + "\n"@);
}

proof fn lemma_and_h8_filled(k: nat)
    ensures
        fill("        (local.set $tmp\n          (i64.and (local.get $tmp) (i64.shr_u (local.get $tmp) (i64.const 8))))\n"@, k) == (("  "@ + "  "@ + "  "@ + "  "@) + "(local.set $"@ + "tmp"@ + ("\n"@ + "  "@ + "  "@
        + "  "@ + "  "@ + "  "@) + ("("@ + "i64.and"@ + " "@ + ("(local.get $"@ + "tmp"@ + ")"@)
        + " "@ + ("("@ + "i64.shr_u"@ + " "@ + ("(local.get $"@ + "tmp"@ + ")"@) + " "@ + ("("@
        + "i64.const"@ + " "@ + "8"@ + ")"@) + ")"@) + ")"@) + ")"@) + "\n"@,
{
    broadcast use lemma_fill_add;

    lemma_and_h8_words();
    lemma_plain_words(k);
}

proof fn lemma_and_h8(k: nat)
    ensures
        squeezed(fill("        (local.set $tmp\n          (i64.and (local.get $tmp) (i64.shr_u (local.get $tmp) (i64.const 8))))\n"@, k)) == squeezed(code_text(halve(Fold::And, "8"@))),
{
    broadcast use {lemma_squeezed_add, lemma_add_nothing, lemma_nothing_add};

    lemma_blank_literals();
    lemma_and_h8_filled(k);
    lemma_and_h8_text(k);
}

proof fn lemma_and_take_text(k: nat)
    ensures
        squeezed(code_text(take_byte())) == squeezed("(local.set $"@) + squeezed("byte"@) + (squeezed("("@) + squeezed("i32.and"@)
        + (squeezed("("@) + squeezed("i32.wrap_i64"@) + (squeezed("(local.get $"@)
        + squeezed("tmp"@) + squeezed(")"@)) + squeezed(")"@)) + (squeezed("("@)
        + squeezed("i32.const"@) + squeezed("0xff"@) + squeezed(")"@)) + squeezed(")"@))
        + squeezed(")"@),
{
    lemma_get_text("tmp"@);
    lemma_un_text("i32.wrap_i64"@, get("tmp"@));
    lemma_lit_text("i32.const"@, "0xff"@);
    lemma_bin_text("i32.and"@, un("i32.wrap_i64"@, get("tmp"@)), Term::Lit("i32.const"@, "0xff"@));
    lemma_assign_text("byte"@, bin("i32.and"@, un("i32.wrap_i64"@, get("tmp"@)), Term::Lit("i32.const"@, "0xff"@)));
    assert(take_byte() == Code::Assign("byte"@, bin("i32.and"@, un("i32.wrap_i64"@, get("tmp"@)), Term::Lit("i32.const"@, "0xff"@))));
}

proof fn lemma_and_take_words()
    ensures
        "        (local.set $byte\n          (i32.and (i32.wrap_i64 (local.get $tmp)) (i32.const 0xff)))"@ == ("  "@ + "  "@ + "  "@ + "  "@) + "(local.set $"@ + "byte"@ + ("\n"@ + "  "@ + "  "@
        + "  "@ + "  "@ + "  "@) + ("("@ + "i32.and"@ + " "@ + ("("@ + "i32.wrap_i64"@ + " "@
        + ("(local.get $"@ + "tmp"@ + ")"@) + ")"@) + " "@ + ("("@ + "i32.const"@ + " "@ + "0xff"@
        + ")"@) + ")"@) + ")"@,
{
    reveal_strlit("        (local.set $byte\n          (i32.and (i32.wrap_i64 (local.get $tmp)) (i32.const 0xff)))");
    reveal_strlit("  ");
    reveal_strlit("(local.set $");
    reveal_strlit("byte");
    reveal_strlit("\n");
    reveal_strlit("(");
    reveal_strlit("i32.and");
    reveal_strlit(" ");
    reveal_strlit("i32.wrap_i64");
    reveal_strlit("(local.get $");
    reveal_strlit("tmp");
    reveal_strlit(")");
    reveal_strlit("i32.const");
    reveal_strlit("0xff");
    assert("        (local.set $byte\n          (i32.and (i32.wrap_i64 (local.get $tmp)) (i32.const 0xff)))"@ =~= ("  "@ + "  "@ + "  "@ + "  "@) + "(local.set $"@ + "byte"@ + ("\n"@ + "  "@ + "  "@
        + "  "@ + "  "@ + "  "@) + ("("@ + "i32.and"@ + " "@ + ("("@ + "i32.wrap_i64"@ + " "@
        + ("(local.get $"@ + "tmp"@ + ")"@) + ")"@) + " "@ + ("("@ + "i32.const"@ + " "@ + "0xff"@
        + ")"@) + ")"@) + ")"@);
}

proof fn lemma_and_take_filled(k: nat)
    ensures
        fill("        (local.set $byte\n          (i32.and (i32.wrap_i64 (local.get $tmp)) (i32.const 0xff)))"@, k) == ("  "@ + "  "@ + "  "@ + "  "@) + "(local.set $"@ + "byte"@ + ("\n"@ + "  "@ + "  "@
        + "  "@ + "  "@ + "  "@) + ("("@ + "i32.and"@ + " "@ + ("("@ + "i32.wrap_i64"@ + " "@
        + ("(local.get $"@ + "tmp"@ + ")"@) + ")"@) + " "@ + ("("@ + "i32.const"@ + " "@ + "0xff"@
        + ")"@) + ")"@) + ")"@,
{
    broadcast use lemma_fill_add;

    lemma_and_take_words();
    lemma_plain_words(k);
}

proof fn lemma_and_take(k: nat)
    ensures
        squeezed(fill("        (local.set $byte\n          (i32.and (i32.wrap_i64 (local.get $tmp)) (i32.const 0xff)))"@, k)) == squeezed(code_text(take_byte())),
{
    broadcast use {lemma_squeezed_add, lemma_add_nothing, lemma_nothing_add};

    lemma_blank_literals();
    lemma_and_take_filled(k);
    lemma_and_take_text(k);
}

proof fn lemma_and_fi_words()
    ensures
        "))\n"@ == ")"@ + ")"@ + "\n"@,
{
    reveal_strlit("))\n");
    reveal_strlit(")");
    reveal_strlit("\n");
    assert("))\n"@ =~= ")"@ + ")"@ + "\n"@);
}

proof fn lemma_and_fi_filled(k: nat)
    ensures
        fill("))\n"@, k) == ")"@ + ")"@ + "\n"@,
{
    broadcast use lemma_fill_add;

    lemma_and_fi_words();
    lemma_plain_words(k);
}

proof fn lemma_and_fi(k: nat)
    ensures
        squeezed(fill("))\n"@, k)) == squeezed(")"@) + squeezed(")"@),
{
    broadcast use {lemma_squeezed_add, lemma_add_nothing, lemma_nothing_add};

    lemma_blank_literals();
    lemma_and_fi_filled(k);
}

proof fn lemma_and_tail_words()
    ensures
        "    (block $tail_done\n      (loop $tail_continue\n        (br_if $tail_done (i32.eq (local.get $cur) (local.get $end)))\n"@ == (("  "@ + "  "@) + "(block $"@) + "tail_done"@ + ("\n"@ + "  "@ + "  "@ + " "@)
        + " (loop $"@ + "tail_continue"@ + ("\n"@ + "  "@ + "  "@ + "  "@ + " "@) + " (br_if $"@
        + "tail_done"@ + " "@ + ("("@ + "i32.eq"@ + " "@ + ("(local.get $"@ + "cur"@ + ")"@)
        + " "@ + ("(local.get $"@ + "end"@ + ")"@) + ")"@) + ")"@ + "\n"@,
{
    reveal_strlit("    (block $tail_done\n      (loop $tail_continue\n        (br_if $tail_done (i32.eq (local.get $cur) (local.get $end)))\n");
    reveal_strlit("  ");
    reveal_strlit("(block $");
    reveal_strlit("tail_done");
    reveal_strlit("\n");
    reveal_strlit(" ");
    reveal_strlit(" (loop $");
    reveal_strlit("tail_continue");
    reveal_strlit(" (br_if $");
    reveal_strlit("(");
    reveal_strlit("i32.eq");
    reveal_strlit("(local.get $");
    reveal_strlit("cur");
    reveal_strlit(")");
    reveal_strlit("end");
    assert("    (block $tail_done\n      (loop $tail_continue\n        (br_if $tail_done (i32.eq (local.get $cur) (local.get $end)))\n"@ =~= (("  "@ + "  "@) + "(block $"@) + "tail_done"@ + ("\n"@ + "  "@ + "  "@ + " "@)
        + " (loop $"@ + "tail_continue"@ + ("\n"@ + "  "@ + "  "@ + "  "@ + " "@) + " (br_if $"@
        + "tail_done"@ + " "@ + ("("@ + "i32.eq"@ + " "@ + ("(local.get $"@ + "cur"@ + ")"@)
        + " "@ + ("(local.get $"@ + "end"@ + ")"@) + ")"@) + ")"@ + "\n"@);
}

proof fn lemma_and_tail_filled(k: nat)
    ensures
        fill("    (block $tail_done\n      (loop $tail_continue\n        (br_if $tail_done (i32.eq (local.get $cur) (local.get $end)))\n"@, k) == (("  "@ + "  "@) + "(block $"@) + "tail_done"@ + ("\n"@ + "  "@ + "  "@ + " "@)
        + " (loop $"@ + "tail_continue"@ + ("\n"@ + "  "@ + "  "@ + "  "@ + " "@) + " (br_if $"@
        + "tail_done"@ + " "@ + ("("@ + "i32.eq"@ + " "@ + ("(local.get $"@ + "cur"@ + ")"@)
        + " "@ + ("(local.get $"@ + "end"@ + ")"@) + ")"@) + ")"@ + "\n"@,
{
    broadcast use lemma_fill_add;

    lemma_and_tail_words();
    lemma_plain_words(k);
}

proof fn lemma_and_tail(k: nat)
    ensures
        squeezed(fill("    (block $tail_done\n      (loop $tail_continue\n        (br_if $tail_done (i32.eq (local.get $cur) (local.get $end)))\n"@, k)) == opening_text("tail_done"@, "tail_continue"@, bin("i32.eq"@, get("cur"@), get("end"@))),
{
    broadcast use {lemma_squeezed_add, lemma_add_nothing, lemma_nothing_add};

    lemma_blank_literals();
    lemma_and_tail_filled(k);
    lemma_get_text("cur"@);
    lemma_get_text("end"@);
    lemma_bin_text("i32.eq"@, get("cur"@), get("end"@));
}

proof fn lemma_and_single_text(k: nat)
    ensures
        squeezed(code_text(fold_single(Fold::And, k))) == squeezed("(local.set $"@) + squeezed("byte"@) + (squeezed("("@) + squeezed("i32.and"@)
        + (squeezed("(local.get $"@) + squeezed("byte"@) + squeezed(")"@)) + (squeezed("("@)
        + squeezed("i32.load8_u"@) + squeezed(decimal(k)) + (squeezed("(local.get $"@)
        + squeezed("cur"@) + squeezed(")"@)) + squeezed(")"@)) + squeezed(")"@)) + squeezed(")"@),
{
    lemma_get_text("byte"@);
    lemma_get_text("cur"@);
    lemma_load_text("i32.load8_u"@, k, get("cur"@));
    lemma_bin_text("i32.and"@, get("byte"@), Term::Load("i32.load8_u"@, k, Box::new(get("cur"@))));
    lemma_assign_text("byte"@, bin("i32.and"@, get("byte"@), Term::Load("i32.load8_u"@, k, Box::new(get("cur"@)))));
    assert(fold_single(Fold::And, k) == Code::Assign("byte"@, bin("i32.and"@, get("byte"@), Term::Load("i32.load8_u"@, k, Box::new(get("cur"@))))));
}

proof fn lemma_and_single_words()
    ensures
        "        (local.set $byte\n          (i32.and (local.get $byte)\n                   (i32.load8_u @ (local.get $cur))))\n"@ == (("  "@ + "  "@ + "  "@ + "  "@) + "(local.set $"@ + "byte"@ + ("\n"@ + "  "@ + "  "@
        + "  "@ + "  "@ + "  "@) + ("("@ + "i32.and"@ + " "@ + ("(local.get $"@ + "byte"@ + ")"@)
        + ("\n"@ + "  "@ + "  "@ + "  "@ + "  "@ + "  "@ + "  "@ + "  "@ + "  "@ + "  "@ + " "@)
        + ("("@ + "i32.load8_u"@ + " "@ + "@"@ + " "@ + ("(local.get $"@ + "cur"@ + ")"@) + ")"@)
        + ")"@) + ")"@) + "\n"@,
{
    reveal_strlit("        (local.set $byte\n          (i32.and (local.get $byte)\n                   (i32.load8_u @ (local.get $cur))))\n");
    reveal_strlit("  ");
    reveal_strlit("(local.set $");
    reveal_strlit("byte");
    reveal_strlit("\n");
    reveal_strlit("(");
    reveal_strlit("i32.and");
    reveal_strlit(" ");
    reveal_strlit("(local.get $");
    reveal_strlit(")");
    reveal_strlit("i32.load8_u");
    reveal_strlit("@");
    reveal_strlit("cur");
    assert("        (local.set $byte\n          (i32.and (local.get $byte)\n                   (i32.load8_u @ (local.get $cur))))\n"@ =~= (("  "@ + "  "@ + "  "@ + "  "@) + "(local.set $"@ + "byte"@ + ("\n"@ + "  "@ + "  "@
        + "  "@ + "  "@ + "  "@) + ("("@ + "i32.and"@ + " "@ + ("(local.get $"@ + "byte"@ + ")"@)
        + ("\n"@ + "  "@ + "  "@ + "  "@ + "  "@ + "  "@ + "  "@ + "  "@ + "  "@ + "  "@ + " "@)
        + ("("@ + "i32.load8_u"@ + " "@ + "@"@ + " "@ + ("(local.get $"@ + "cur"@ + ")"@) + ")"@)
        + ")"@) + ")"@) + "\n"@);
}

proof fn lemma_and_single_filled(k: nat)
    ensures
        fill("        (local.set $byte\n          (i32.and (local.get $byte)\n                   (i32.load8_u @ (local.get $cur))))\n"@, k) == (("  "@ + "  "@ + "  "@ + "  "@) + "(local.set $"@ + "byte"@ + ("\n"@ + "  "@ + "  "@
        + "  "@ + "  "@ + "  "@) + ("("@ + "i32.and"@ + " "@ + ("(local.get $"@ + "byte"@ + ")"@)
        + ("\n"@ + "  "@ + "  "@ + "  "@ + "  "@ + "  "@ + "  "@ + "  "@ + "  "@ + "  "@ + " "@)
        + ("("@ + "i32.load8_u"@ + " "@ + decimal(k) + " "@ + ("(local.get $"@ + "cur"@ + ")"@)
        + ")"@) + ")"@) + ")"@) + "\n"@,
{
    broadcast use lemma_fill_add;

    lemma_and_single_words();
    lemma_plain_words(k);
    lemma_fill_place(k);
}

proof fn lemma_and_single(k: nat)
    ensures
        squeezed(fill("        (local.set $byte\n          (i32.and (local.get $byte)\n                   (i32.load8_u @ (local.get $cur))))\n"@, k)) == squeezed(code_text(fold_single(Fold::And, k))),
{
    broadcast use {lemma_squeezed_add, lemma_add_nothing, lemma_nothing_add};

    lemma_blank_literals();
    lemma_and_single_filled(k);
    lemma_and_single_text(k);
}

proof fn lemma_and_next_text(k: nat)
    ensures
        squeezed(code_text(step_by("1"@))) == squeezed("(local.set $"@) + squeezed("cur"@) + (squeezed("("@) + squeezed("i32.add"@)
        + (squeezed("(local.get $"@) + squeezed("cur"@) + squeezed(")"@)) + (squeezed("("@)
        + squeezed("i32.const"@) + squeezed("1"@) + squeezed(")"@)) + squeezed(")"@))
        + squeezed(")"@),
{
    lemma_get_text("cur"@);
    lemma_lit_text("i32.const"@, "1"@);
    lemma_bin_text("i32.add"@, get("cur"@), Term::Lit("i32.const"@, "1"@));
    lemma_assign_text("cur"@, bin("i32.add"@, get("cur"@), Term::Lit("i32.const"@, "1"@)));
    assert(step_by("1"@) == Code::Assign("cur"@, bin("i32.add"@, get("cur"@), Term::Lit("i32.const"@, "1"@))));
}

proof fn lemma_and_next_words()
    ensures
        "        (local.set $cur (i32.add (local.get $cur) (i32.const 1)))\n"@ == (("  "@ + "  "@ + "  "@ + "  "@) + "(local.set $"@ + "cur"@ + " "@ + ("("@ + "i32.add"@
        + " "@ + ("(local.get $"@ + "cur"@ + ")"@) + " "@ + ("("@ + "i32.const"@ + " "@ + "1"@
        + ")"@) + ")"@) + ")"@) + "\n"@,
{
    reveal_strlit("        (local.set $cur (i32.add (local.get $cur) (i32.const 1)))\n");
    reveal_strlit("  ");
    reveal_strlit("(local.set $");
    reveal_strlit("cur");
    reveal_strlit(" ");
    reveal_strlit("(");
    reveal_strlit("i32.add");
    reveal_strlit("(local.get $");
    reveal_strlit(")");
    reveal_strlit("i32.const");
    reveal_strlit("1");
    reveal_strlit("\n");
    assert("        (local.set $cur (i32.add (local.get $cur) (i32.const 1)))\n"@ =~= (("  "@ + "  "@ + "  "@ + "  "@) + "(local.set $"@ + "cur"@ + " "@ + ("("@ + "i32.add"@
        + " "@ + ("(local.get $"@ + "cur"@ + ")"@) + " "@ + ("("@ + "i32.const"@ + " "@ + "1"@
        + ")"@) + ")"@) + ")"@) + "\n"@);
}

proof fn lemma_and_next_filled(k: nat)
    ensures
        fill("        (local.set $cur (i32.add (local.get $cur) (i32.const 1)))\n"@, k) == (("  "@ + "  "@ + "  "@ + "  "@) + "(local.set $"@ + "cur"@ + " "@ + ("("@ + "i32.add"@
        + " "@ + ("(local.get $"@ + "cur"@ + ")"@) + " "@ + ("("@ + "i32.const"@ + " "@ + "1"@
        + ")"@) + ")"@) + ")"@) + "\n"@,
{
    broadcast use lemma_fill_add;

    lemma_and_next_words();
    lemma_plain_words(k);
}

proof fn lemma_and_next(k: nat)
    ensures
        squeezed(fill("        (local.set $cur (i32.add (local.get $cur) (i32.const 1)))\n"@, k)) == squeezed(code_text(step_by("1"@))),
{
    broadcast use {lemma_squeezed_add, lemma_add_nothing, lemma_nothing_add};

    lemma_blank_literals();
    lemma_and_next_filled(k);
    lemma_and_next_text(k);
}

proof fn lemma_and_back_words()
    ensures
        "        (br $tail_continue)))\n"@ == (("  "@ + "  "@ + "  "@ + "  "@) + "(br $"@) + "tail_continue"@ + ")"@ + ")"@ + ")"@
        + "\n"@,
{
    reveal_strlit("        (br $tail_continue)))\n");
    reveal_strlit("  ");
    reveal_strlit("(br $");
    reveal_strlit("tail_continue");
    reveal_strlit(")");
    reveal_strlit("\n");
    assert("        (br $tail_continue)))\n"@ =~= (("  "@ + "  "@ + "  "@ + "  "@) + "(br $"@) + "tail_continue"@ + ")"@ + ")"@ + ")"@
        + "\n"@);
}

proof fn lemma_and_back_filled(k: nat)
    ensures
        fill("        (br $tail_continue)))\n"@, k) == (("  "@ + "  "@ + "  "@ + "  "@) + "(br $"@) + "tail_continue"@ + ")"@ + ")"@ + ")"@
        + "\n"@,
{
    broadcast use lemma_fill_add;

    lemma_and_back_words();
    lemma_plain_words(k);
}

proof fn lemma_and_back(k: nat)
    ensures
        squeezed(fill("        (br $tail_continue)))\n"@, k)) == closing_text("tail_continue"@),
{
    broadcast use {lemma_squeezed_add, lemma_add_nothing, lemma_nothing_add};

    lemma_blank_literals();
    lemma_and_back_filled(k);
}

proof fn lemma_and_value_words()
    ensures
        "    (local.get $byte))\n"@ == ((("  "@ + "  "@) + "(local.get $"@) + "byte"@ + ")"@) + ")"@ + "\n"@,
{
    reveal_strlit("    (local.get $byte))\n");
    reveal_strlit("  ");
    reveal_strlit("(local.get $");
    reveal_strlit("byte");
    reveal_strlit(")");
    reveal_strlit("\n");
    assert("    (local.get $byte))\n"@ =~= ((("  "@ + "  "@) + "(local.get $"@) + "byte"@ + ")"@) + ")"@ + "\n"@);
}

proof fn lemma_and_value_filled(k: nat)
    ensures
        fill("    (local.get $byte))\n"@, k) == ((("  "@ + "  "@) + "(local.get $"@) + "byte"@ + ")"@) + ")"@ + "\n"@,
{
    broadcast use lemma_fill_add;

    lemma_and_value_words();
    lemma_plain_words(k);
}

proof fn lemma_and_value(k: nat)
    ensures
        squeezed(fill("    (local.get $byte))\n"@, k)) == squeezed(term_text(get("byte"@))) + squeezed(")"@),
{
    broadcast use {lemma_squeezed_add, lemma_add_nothing, lemma_nothing_add};

    lemma_blank_literals();
    lemma_and_value_filled(k);
    lemma_get_text("byte"@);
}

#[verifier::rlimit(100)]
proof fn lemma_and_template()
    ensures
        SIMD_AND_FOLD@ == "  (func $tvm_simd_and_fold_u8_p@ (export \"tvm_simd_and_fold_u8_p@\")\n        (param $off i32) (param $len i32) (result i32)\n    (local $cur i32) (local $end i32) (local $vec_end i32)\n    (local $acc v128) (local $tmp i64) (local $byte i32)\n"@
        + "    (local.set $cur (local.get $off))\n"@
        + "    (local.set $end (i32.add (local.get $off) (local.get $len)))\n"@
        + "    (local.set $vec_end\n      (i32.add (local.get $off)\n               (i32.and (local.get $len) (i32.const -16))))\n"@
        + "    (local.set $acc (v128.const i64x2 -1 -1))\n"@
        + "    (local.set $byte (i32.const 0xff))\n"@
        + "    (block $vec_done\n      (loop $vec_continue\n        (br_if $vec_done (i32.eq (local.get $cur) (local.get $vec_end)))\n"@
        + "        (local.set $acc\n          (v128.and (local.get $acc) (v128.load @ (local.get $cur))))\n"@
        + "        (local.set $cur (i32.add (local.get $cur) (i32.const 16)))\n"@
        + "        (br $vec_continue)))\n"@
        + "    (if (i32.ne (local.get $vec_end) (local.get $off))\n      (then\n"@
        + "        (local.set $tmp\n          (i64.and\n            (i64x2.extract_lane 0 (local.get $acc))\n            (i64x2.extract_lane 1 (local.get $acc))))\n"@
        + "        (local.set $tmp\n          (i64.and (local.get $tmp) (i64.shr_u (local.get $tmp) (i64.const 32))))\n"@
        + "        (local.set $tmp\n          (i64.and (local.get $tmp) (i64.shr_u (local.get $tmp) (i64.const 16))))\n"@
        + "        (local.set $tmp\n          (i64.and (local.get $tmp) (i64.shr_u (local.get $tmp) (i64.const 8))))\n"@
        + "        (local.set $byte\n          (i32.and (i32.wrap_i64 (local.get $tmp)) (i32.const 0xff)))"@
        + "))\n"@
        + "    (block $tail_done\n      (loop $tail_continue\n        (br_if $tail_done (i32.eq (local.get $cur) (local.get $end)))\n"@
        + "        (local.set $byte\n          (i32.and (local.get $byte)\n                   (i32.load8_u @ (local.get $cur))))\n"@
        + "        (local.set $cur (i32.add (local.get $cur) (i32.const 1)))\n"@
        + "        (br $tail_continue)))\n"@ + "    (local.get $byte))\n"@,
{
    reveal_strlit("  (func $tvm_simd_and_fold_u8_p@ (export \"tvm_simd_and_fold_u8_p@\")\n        (param $off i32) (param $len i32) (result i32)\n    (local $cur i32) (local $end i32) (local $vec_end i32)\n    (local $acc v128) (local $tmp i64) (local $byte i32)\n");
    reveal_strlit("    (local.set $cur (local.get $off))\n");
    reveal_strlit("    (local.set $end (i32.add (local.get $off) (local.get $len)))\n");
    reveal_strlit("    (local.set $vec_end\n      (i32.add (local.get $off)\n               (i32.and (local.get $len) (i32.const -16))))\n");
    reveal_strlit("    (local.set $acc (v128.const i64x2 -1 -1))\n");
    reveal_strlit("    (local.set $byte (i32.const 0xff))\n");
    reveal_strlit("    (block $vec_done\n      (loop $vec_continue\n        (br_if $vec_done (i32.eq (local.get $cur) (local.get $vec_end)))\n");
    reveal_strlit("        (local.set $acc\n          (v128.and (local.get $acc) (v128.load @ (local.get $cur))))\n");
    reveal_strlit("        (local.set $cur (i32.add (local.get $cur) (i32.const 16)))\n");
    reveal_strlit("        (br $vec_continue)))\n");
    reveal_strlit("    (if (i32.ne (local.get $vec_end) (local.get $off))\n      (then\n");
    reveal_strlit("        (local.set $tmp\n          (i64.and\n            (i64x2.extract_lane 0 (local.get $acc))\n            (i64x2.extract_lane 1 (local.get $acc))))\n");
    reveal_strlit("        (local.set $tmp\n          (i64.and (local.get $tmp) (i64.shr_u (local.get $tmp) (i64.const 32))))\n");
    reveal_strlit("        (local.set $tmp\n          (i64.and (local.get $tmp) (i64.shr_u (local.get $tmp) (i64.const 16))))\n");
    reveal_strlit("        (local.set $tmp\n          (i64.and (local.get $tmp) (i64.shr_u (local.get $tmp) (i64.const 8))))\n");
    reveal_strlit("        (local.set $byte\n          (i32.and (i32.wrap_i64 (local.get $tmp)) (i32.const 0xff)))");
    reveal_strlit("))\n");
    reveal_strlit("    (block $tail_done\n      (loop $tail_continue\n        (br_if $tail_done (i32.eq (local.get $cur) (local.get $end)))\n");
    reveal_strlit("        (local.set $byte\n          (i32.and (local.get $byte)\n                   (i32.load8_u @ (local.get $cur))))\n");
    reveal_strlit("        (local.set $cur (i32.add (local.get $cur) (i32.const 1)))\n");
    reveal_strlit("        (br $tail_continue)))\n");
    reveal_strlit("    (local.get $byte))\n");
    reveal_strlit(r#"  (func $tvm_simd_and_fold_u8_p@ (export "tvm_simd_and_fold_u8_p@")
        (param $off i32) (param $len i32) (result i32)
    (local $cur i32) (local $end i32) (local $vec_end i32)
    (local $acc v128) (local $tmp i64) (local $byte i32)
    (local.set $cur (local.get $off))
    (local.set $end (i32.add (local.get $off) (local.get $len)))
    (local.set $vec_end
      (i32.add (local.get $off)
               (i32.and (local.get $len) (i32.const -16))))
    (local.set $acc (v128.const i64x2 -1 -1))
    (local.set $byte (i32.const 0xff))
    (block $vec_done
      (loop $vec_continue
        (br_if $vec_done (i32.eq (local.get $cur) (local.get $vec_end)))
        (local.set $acc
          (v128.and (local.get $acc) (v128.load @ (local.get $cur))))
        (local.set $cur (i32.add (local.get $cur) (i32.const 16)))
        (br $vec_continue)))
    (if (i32.ne (local.get $vec_end) (local.get $off))
      (then
        (local.set $tmp
          (i64.and
            (i64x2.extract_lane 0 (local.get $acc))
            (i64x2.extract_lane 1 (local.get $acc))))
        (local.set $tmp
          (i64.and (local.get $tmp) (i64.shr_u (local.get $tmp) (i64.const 32))))
        (local.set $tmp
          (i64.and (local.get $tmp) (i64.shr_u (local.get $tmp) (i64.const 16))))
        (local.set $tmp
          (i64.and (local.get $tmp) (i64.shr_u (local.get $tmp) (i64.const 8))))
        (local.set $byte
          (i32.and (i32.wrap_i64 (local.get $tmp)) (i32.const 0xff)))))
    (block $tail_done
      (loop $tail_continue
        (br_if $tail_done (i32.eq (local.get $cur) (local.get $end)))
        (local.set $byte
          (i32.and (local.get $byte)
                   (i32.load8_u @ (local.get $cur))))
        (local.set $cur (i32.add (local.get $cur) (i32.const 1)))
        (br $tail_continue)))
    (local.get $byte))
"#);
    assert(SIMD_AND_FOLD@ =~= "  (func $tvm_simd_and_fold_u8_p@ (export \"tvm_simd_and_fold_u8_p@\")\n        (param $off i32) (param $len i32) (result i32)\n    (local $cur i32) (local $end i32) (local $vec_end i32)\n    (local $acc v128) (local $tmp i64) (local $byte i32)\n"@
        + "    (local.set $cur (local.get $off))\n"@
        + "    (local.set $end (i32.add (local.get $off) (local.get $len)))\n"@
        + "    (local.set $vec_end\n      (i32.add (local.get $off)\n               (i32.and (local.get $len) (i32.const -16))))\n"@
        + "    (local.set $acc (v128.const i64x2 -1 -1))\n"@
        + "    (local.set $byte (i32.const 0xff))\n"@
        + "    (block $vec_done\n      (loop $vec_continue\n        (br_if $vec_done (i32.eq (local.get $cur) (local.get $vec_end)))\n"@
        + "        (local.set $acc\n          (v128.and (local.get $acc) (v128.load @ (local.get $cur))))\n"@
        + "        (local.set $cur (i32.add (local.get $cur) (i32.const 16)))\n"@
        + "        (br $vec_continue)))\n"@
        + "    (if (i32.ne (local.get $vec_end) (local.get $off))\n      (then\n"@
        + "        (local.set $tmp\n          (i64.and\n            (i64x2.extract_lane 0 (local.get $acc))\n            (i64x2.extract_lane 1 (local.get $acc))))\n"@
        + "        (local.set $tmp\n          (i64.and (local.get $tmp) (i64.shr_u (local.get $tmp) (i64.const 32))))\n"@
        + "        (local.set $tmp\n          (i64.and (local.get $tmp) (i64.shr_u (local.get $tmp) (i64.const 16))))\n"@
        + "        (local.set $tmp\n          (i64.and (local.get $tmp) (i64.shr_u (local.get $tmp) (i64.const 8))))\n"@
        + "        (local.set $byte\n          (i32.and (i32.wrap_i64 (local.get $tmp)) (i32.const 0xff)))"@
        + "))\n"@
        + "    (block $tail_done\n      (loop $tail_continue\n        (br_if $tail_done (i32.eq (local.get $cur) (local.get $end)))\n"@
        + "        (local.set $byte\n          (i32.and (local.get $byte)\n                   (i32.load8_u @ (local.get $cur))))\n"@
        + "        (local.set $cur (i32.add (local.get $cur) (i32.const 1)))\n"@
        + "        (br $tail_continue)))\n"@ + "    (local.get $byte))\n"@);
}

proof fn lemma_and_fill(k: nat)
    ensures
        fill(SIMD_AND_FOLD@, k) == fill("  (func $tvm_simd_and_fold_u8_p@ (export \"tvm_simd_and_fold_u8_p@\")\n        (param $off i32) (param $len i32) (result i32)\n    (local $cur i32) (local $end i32) (local $vec_end i32)\n    (local $acc v128) (local $tmp i64) (local $byte i32)\n"@, k)
        + fill("    (local.set $cur (local.get $off))\n"@, k)
        + fill("    (local.set $end (i32.add (local.get $off) (local.get $len)))\n"@, k)
        + fill("    (local.set $vec_end\n      (i32.add (local.get $off)\n               (i32.and (local.get $len) (i32.const -16))))\n"@, k)
        + fill("    (local.set $acc (v128.const i64x2 -1 -1))\n"@, k)
        + fill("    (local.set $byte (i32.const 0xff))\n"@, k)
        + fill("    (block $vec_done\n      (loop $vec_continue\n        (br_if $vec_done (i32.eq (local.get $cur) (local.get $vec_end)))\n"@, k)
        + fill("        (local.set $acc\n          (v128.and (local.get $acc) (v128.load @ (local.get $cur))))\n"@, k)
        + fill("        (local.set $cur (i32.add (local.get $cur) (i32.const 16)))\n"@, k)
        + fill("        (br $vec_continue)))\n"@, k)
        + fill("    (if (i32.ne (local.get $vec_end) (local.get $off))\n      (then\n"@, k)
        + fill("        (local.set $tmp\n          (i64.and\n            (i64x2.extract_lane 0 (local.get $acc))\n            (i64x2.extract_lane 1 (local.get $acc))))\n"@, k)
        + fill("        (local.set $tmp\n          (i64.and (local.get $tmp) (i64.shr_u (local.get $tmp) (i64.const 32))))\n"@, k)
        + fill("        (local.set $tmp\n          (i64.and (local.get $tmp) (i64.shr_u (local.get $tmp) (i64.const 16))))\n"@, k)
        + fill("        (local.set $tmp\n          (i64.and (local.get $tmp) (i64.shr_u (local.get $tmp) (i64.const 8))))\n"@, k)
        + fill("        (local.set $byte\n          (i32.and (i32.wrap_i64 (local.get $tmp)) (i32.const 0xff)))"@, k)
        + fill("))\n"@, k)
        + fill("    (block $tail_done\n      (loop $tail_continue\n        (br_if $tail_done (i32.eq (local.get $cur) (local.get $end)))\n"@, k)
        + fill("        (local.set $byte\n          (i32.and (local.get $byte)\n                   (i32.load8_u @ (local.get $cur))))\n"@, k)
        + fill("        (local.set $cur (i32.add (local.get $cur) (i32.const 1)))\n"@, k)
        + fill("        (br $tail_continue)))\n"@, k) + fill("    (local.get $byte))\n"@, k),
{
    broadcast use lemma_fill_add;

    lemma_and_template();
}

proof fn lemma_and_kernel_text(k: nat)
    ensures
        squeezed(fill(SIMD_AND_FOLD@, k)) == squeezed(kernel_text(kernel(Fold::And, "tvm_simd_and_fold_u8_p"@, k))),
{
    lemma_and_fill(k);
    let p0 = fill("  (func $tvm_simd_and_fold_u8_p@ (export \"tvm_simd_and_fold_u8_p@\")\n        (param $off i32) (param $len i32) (result i32)\n    (local $cur i32) (local $end i32) (local $vec_end i32)\n    (local $acc v128) (local $tmp i64) (local $byte i32)\n"@, k);
    lemma_and_head(k);
    let p1 = fill("    (local.set $cur (local.get $off))\n"@, k);
    lemma_and_cur(k);
    let p2 = fill("    (local.set $end (i32.add (local.get $off) (local.get $len)))\n"@, k);
    lemma_and_end(k);
    let p3 = fill("    (local.set $vec_end\n      (i32.add (local.get $off)\n               (i32.and (local.get $len) (i32.const -16))))\n"@, k);
    lemma_and_vec_end(k);
    let p4 = fill("    (local.set $acc (v128.const i64x2 -1 -1))\n"@, k);
    lemma_and_acc(k);
    let p5 = fill("    (local.set $byte (i32.const 0xff))\n"@, k);
    lemma_and_start(k);
    let p6 = fill("    (block $vec_done\n      (loop $vec_continue\n        (br_if $vec_done (i32.eq (local.get $cur) (local.get $vec_end)))\n"@, k);
    lemma_and_vec(k);
    let p7 = fill("        (local.set $acc\n          (v128.and (local.get $acc) (v128.load @ (local.get $cur))))\n"@, k);
    lemma_and_fold(k);
    let p8 = fill("        (local.set $cur (i32.add (local.get $cur) (i32.const 16)))\n"@, k);
    lemma_and_step(k);
    let p9 = fill("        (br $vec_continue)))\n"@, k);
    lemma_and_again(k);
    let p10 = fill("    (if (i32.ne (local.get $vec_end) (local.get $off))\n      (then\n"@, k);
    lemma_and_any(k);
    let p11 = fill("        (local.set $tmp\n          (i64.and\n            (i64x2.extract_lane 0 (local.get $acc))\n            (i64x2.extract_lane 1 (local.get $acc))))\n"@, k);
    lemma_and_join(k);
    let p12 = fill("        (local.set $tmp\n          (i64.and (local.get $tmp) (i64.shr_u (local.get $tmp) (i64.const 32))))\n"@, k);
    lemma_and_h32(k);
    let p13 = fill("        (local.set $tmp\n          (i64.and (local.get $tmp) (i64.shr_u (local.get $tmp) (i64.const 16))))\n"@, k);
    lemma_and_h16(k);
    let p14 = fill("        (local.set $tmp\n          (i64.and (local.get $tmp) (i64.shr_u (local.get $tmp) (i64.const 8))))\n"@, k);
    lemma_and_h8(k);
    let p15 = fill("        (local.set $byte\n          (i32.and (i32.wrap_i64 (local.get $tmp)) (i32.const 0xff)))"@, k);
    lemma_and_take(k);
    let p16 = fill("))\n"@, k);
    lemma_and_fi(k);
    let p17 = fill("    (block $tail_done\n      (loop $tail_continue\n        (br_if $tail_done (i32.eq (local.get $cur) (local.get $end)))\n"@, k);
    lemma_and_tail(k);
    let p18 = fill("        (local.set $byte\n          (i32.and (local.get $byte)\n                   (i32.load8_u @ (local.get $cur))))\n"@, k);
    lemma_and_single(k);
    let p19 = fill("        (local.set $cur (i32.add (local.get $cur) (i32.const 1)))\n"@, k);
    lemma_and_next(k);
    let p20 = fill("        (br $tail_continue)))\n"@, k);
    lemma_and_back(k);
    let p21 = fill("    (local.get $byte))\n"@, k);
    lemma_and_value(k);
    lemma_squeezed_add(p0, p1);
    lemma_squeezed_add(p0 + p1, p2);
    lemma_squeezed_add(p0 + p1 + p2, p3);
    lemma_squeezed_add(p0 + p1 + p2 + p3, p4);
    lemma_squeezed_add(p0 + p1 + p2 + p3 + p4, p5);
    lemma_squeezed_add(p0 + p1 + p2 + p3 + p4 + p5, p6);
    lemma_squeezed_add(p0 + p1 + p2 + p3 + p4 + p5 + p6, p7);
    lemma_squeezed_add(p0 + p1 + p2 + p3 + p4 + p5 + p6 + p7, p8);
    lemma_squeezed_add(p0 + p1 + p2 + p3 + p4 + p5 + p6 + p7 + p8, p9);
    lemma_squeezed_add(p0 + p1 + p2 + p3 + p4 + p5 + p6 + p7 + p8 + p9, p10);
    lemma_squeezed_add(p0 + p1 + p2 + p3 + p4 + p5 + p6 + p7 + p8 + p9 + p10, p11);
    lemma_squeezed_add(p0 + p1 + p2 + p3 + p4 + p5 + p6 + p7 + p8 + p9 + p10 + p11, p12);
    lemma_squeezed_add(p0 + p1 + p2 + p3 + p4 + p5 + p6 + p7 + p8 + p9 + p10 + p11 + p12, p13);
    lemma_squeezed_add(p0 + p1 + p2 + p3 + p4 + p5 + p6 + p7 + p8 + p9 + p10 + p11 + p12 + p13, p14);
    lemma_squeezed_add(p0 + p1 + p2 + p3 + p4 + p5 + p6 + p7 + p8 + p9 + p10 + p11 + p12 + p13 + p14, p15);
    lemma_squeezed_add(p0 + p1 + p2 + p3 + p4 + p5 + p6 + p7 + p8 + p9 + p10 + p11 + p12 + p13 + p14 + p15, p16);
    lemma_squeezed_add(p0 + p1 + p2 + p3 + p4 + p5 + p6 + p7 + p8 + p9 + p10 + p11 + p12 + p13 + p14 + p15 + p16, p17);
    lemma_squeezed_add(p0 + p1 + p2 + p3 + p4 + p5 + p6 + p7 + p8 + p9 + p10 + p11 + p12 + p13 + p14 + p15 + p16 + p17, p18);
    lemma_squeezed_add(p0 + p1 + p2 + p3 + p4 + p5 + p6 + p7 + p8 + p9 + p10 + p11 + p12 + p13 + p14 + p15 + p16 + p17 + p18, p19);
    lemma_squeezed_add(p0 + p1 + p2 + p3 + p4 + p5 + p6 + p7 + p8 + p9 + p10 + p11 + p12 + p13 + p14 + p15 + p16 + p17 + p18 + p19, p20);
    lemma_squeezed_add(p0 + p1 + p2 + p3 + p4 + p5 + p6 + p7 + p8 + p9 + p10 + p11 + p12 + p13 + p14 + p15 + p16 + p17 + p18 + p19 + p20, p21);
    lemma_fold_text(Fold::And, "tvm_simd_and_fold_u8_p"@, k);
    lemma_and_regroup(
        squeezed(p0),
        squeezed(p1),
        squeezed(p2),
        squeezed(p3),
        squeezed(p4),
        squeezed(p5),
        squeezed(p6),
        squeezed(p7),
        squeezed(p8),
        squeezed(p9),
        squeezed(p10),
        squeezed(p11),
        squeezed(p12),
        squeezed(p13),
        squeezed(p14),
        squeezed(p15),
        squeezed(p16),
        squeezed(p17),
        squeezed(p18),
        squeezed(p19),
        squeezed(p20),
        squeezed(term_text(get("byte"@))),
        squeezed(")"@),
    );
}

proof fn lemma_and_regroup(
    x0: Seq<char>,
    x1: Seq<char>,
    x2: Seq<char>,
    x3: Seq<char>,
    x4: Seq<char>,
    x5: Seq<char>,
    x6: Seq<char>,
    x7: Seq<char>,
    x8: Seq<char>,
    x9: Seq<char>,
    x10: Seq<char>,
    x11: Seq<char>,
    x12: Seq<char>,
    x13: Seq<char>,
    x14: Seq<char>,
    x15: Seq<char>,
    x16: Seq<char>,
    x17: Seq<char>,
    x18: Seq<char>,
    x19: Seq<char>,
    x20: Seq<char>,
    v: Seq<char>,
    z: Seq<char>,
)
    ensures
        x0 + x1 + x2 + x3 + x4 + x5 + x6 + x7 + x8 + x9 + x10 + x11 + x12 + x13 + x14 + x15 + x16
        + x17 + x18 + x19 + x20 + (v + z) == x0 + (x1 + x2 + x3 + x4 + x5 + (x6 + (x7 + x8) + x9) + (x10 + (x11 + x12 + x13 + x14
        + x15) + x16) + (x17 + (x18 + x19) + x20)) + v + z,
{
    broadcast use lemma_add_assoc;

}

// ---------------------------------------------------------------------------
// In a module
// ---------------------------------------------------------------------------

/// The kernel of pool `k` hands out what the bytes of the range fold into, whatever the
/// memories hold.
pub open spec fn folds_up(f: Kernel, k: nat, way: Fold) -> bool {
    forall|mems: Seq<Seq<u8>>, off: nat, len: nat|
        k < mems.len() && off < 0x1_0000_0000 && len < 0x1_0000_0000 && off + len
            <= mems[k as int].len() && mems[k as int].len() <= 0x1_0000_0000 ==> #[trigger] ran(
            f,
            args2(off, len),
            mems,
            len,
        ) == Some(Val::N(folded(way, mems[k as int], off as int, len) as nat))
}

/// The text holds a kernel of this name that folds ranges of pool `k`.
pub open spec fn has_folding_kernel(text: Seq<char>, stem: Seq<char>, k: nat, way: Fold) -> bool {
    exists|f: Kernel|
        f.name == pool_name(stem, k) && #[trigger] holds_part(text, kernel_text(f)) && folds_up(
            f,
            k,
            way,
        )
}

proof fn lemma_folds_up(way: Fold, stem: Seq<char>, k: nat)
    ensures
        folds_up(kernel(way, stem, k), k, way),
{
    let f = kernel(way, stem, k);
    assert forall|mems: Seq<Seq<u8>>, off: nat, len: nat|
        k < mems.len() && off < 0x1_0000_0000 && len < 0x1_0000_0000 && off + len
            <= mems[k as int].len() && mems[k as int].len() <= 0x1_0000_0000 implies #[trigger] ran(
        f,
        args2(off, len),
        mems,
        len,
    ) == Some(Val::N(folded(way, mems[k as int], off as int, len) as nat)) by {
        lemma_kernel(way, stem, k, mems, off, len);
    }
}

/// Every module has, for each of its pools, kernels that hand out the exclusive or, the
/// disjunction and the conjunction of all bytes of a range, whatever its length and place.
pub proof fn law_module_folds_ranges(p: ModuleParams, k: nat)
    requires
        k < p.n_pools,
    ensures
        has_folding_kernel(module_text(p), "tvm_simd_xor_fold_u8_p"@, k, Fold::Xor),
        has_folding_kernel(module_text(p), "tvm_simd_or_fold_u8_p"@, k, Fold::Or),
        has_folding_kernel(module_text(p), "tvm_simd_and_fold_u8_p"@, k, Fold::And),
{
    let f = kernel(Fold::Xor, "tvm_simd_xor_fold_u8_p"@, k);
    lemma_xor_kernel_text(k);
    lemma_holds_itself(fill(SIMD_XOR_FOLD@, k), kernel_text(f));
    lemma_reducers_in_module(p, k, kernel_text(f));
    lemma_folds_up(Fold::Xor, "tvm_simd_xor_fold_u8_p"@, k);
    let g = kernel(Fold::Or, "tvm_simd_or_fold_u8_p"@, k);
    lemma_or_kernel_text(k);
    lemma_holds_itself(fill(SIMD_OR_FOLD@, k), kernel_text(g));
    lemma_reducers_in_module(p, k, kernel_text(g));
    lemma_folds_up(Fold::Or, "tvm_simd_or_fold_u8_p"@, k);
    let h = kernel(Fold::And, "tvm_simd_and_fold_u8_p"@, k);
    lemma_and_kernel_text(k);
    lemma_holds_itself(fill(SIMD_AND_FOLD@, k), kernel_text(h));
    lemma_reducers_in_module(p, k, kernel_text(h));
    lemma_folds_up(Fold::And, "tvm_simd_and_fold_u8_p"@, k);
}

} // verus!
