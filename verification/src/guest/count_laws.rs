//! What the kernel that counts a byte does: every place of the range that holds it counts
//! once, in whole vectors first and byte by byte behind them.
use vstd::prelude::*;
use crate::text::decimal;
use super::copy_laws::{lemma_fill_add, lemma_fill_place, lemma_fill_plain, pool_name};
use super::fold_laws::{if_text, lemma_then_word, lemma_when_text};
use super::indirect_laws::{holds_part, lemma_holds_itself};
use super::kernel_laws::{
    address, bin, both, closing_text, get, head_text, lemma_assign_text, lemma_bin_text,
    lemma_binary, lemma_both_text, lemma_constants, lemma_get_text, lemma_lit_text,
    lemma_load_text, lemma_loads, lemma_places, lemma_reached, lemma_reducers_in_module,
    lemma_step, lemma_un_text, lemma_unary, lemma_until_text, lemma_variables, on_the_way,
    opening_text, set_cur, set_end, set_vec_end, step_by, un, vec_len,
};
use super::kernels::SIMD_COUNT_BYTE;
use super::meaning::{
    declared_text, lemma_add_assoc, lemma_add_nothing, lemma_blank_literals, lemma_nothing_add,
    lemma_squeezed_add, squeezed,
};
use super::module::{module_text, ModuleParams};
use super::shell_laws::{args3, declared_word, lemma_declared};
use super::vector::{
    applied, bound_params, code_done, code_text, combined, entered, kernel_text, ones, ran,
    term_text, term_value, top_bits, Code, Kernel, Term, Val,
};
use super::wat::fill;

verus! {

// ---------------------------------------------------------------------------
// The kernel
// ---------------------------------------------------------------------------

spec fn spread() -> Code {
    Code::Assign("broadcast"@, un("i8x16.splat"@, get("byte"@)))
}

spec fn same_bytes(k: nat) -> Term {
    bin(
        "i8x16.eq"@,
        Term::Load("v128.load"@, k, Box::new(get("cur"@))),
        get("broadcast"@),
    )
}

spec fn count_vec(k: nat) -> Code {
    Code::Assign(
        "count"@,
        bin("i32.add"@, get("count"@), un("i32.popcnt"@, un("i8x16.bitmask"@, same_bytes(k)))),
    )
}

spec fn vec_loop(k: nat) -> Code {
    Code::Until(
        "vec_done"@,
        "vec_continue"@,
        bin("i32.eq"@, get("cur"@), get("vec_end"@)),
        Box::new(both(count_vec(k), step_by("16"@))),
    )
}

spec fn is_byte(k: nat) -> Term {
    bin("i32.eq"@, Term::Load("i32.load8_u"@, k, Box::new(get("cur"@))), get("byte"@))
}

spec fn count_one() -> Code {
    Code::Assign("count"@, bin("i32.add"@, get("count"@), Term::Lit("i32.const"@, "1"@)))
}

spec fn count_single(k: nat) -> Code {
    Code::When(is_byte(k), Box::new(count_one()))
}

spec fn tail_loop(k: nat) -> Code {
    Code::Until(
        "tail_done"@,
        "tail_continue"@,
        bin("i32.eq"@, get("cur"@), get("end"@)),
        Box::new(both(count_single(k), step_by("1"@))),
    )
}

spec fn setup() -> Code {
    both(both(both(set_cur(), set_end()), set_vec_end()), spread())
}

spec fn kernel(stem: Seq<char>, k: nat) -> Kernel {
    Kernel {
        name: pool_name(stem, k),
        params: seq![("off"@, "i32"@), ("len"@, "i32"@), ("byte"@, "i32"@)],
        result: "i32"@,
        locals: seq![
            ("cur"@, "i32"@),
            ("end"@, "i32"@),
            ("vec_end"@, "i32"@),
            ("broadcast"@, "v128"@),
            ("count"@, "i32"@),
        ],
        code: both(both(setup(), vec_loop(k)), tail_loop(k)),
        value: get("count"@),
    }
}

// ---------------------------------------------------------------------------
// What it comes to
// ---------------------------------------------------------------------------

/// How many of the `n` bytes from `at` on are this byte.
pub open spec fn occurrences(bytes: Seq<u8>, at: int, n: nat, byte: u8) -> nat
    decreases n,
{
    if n == 0 {
        0
    } else {
        occurrences(bytes, at, (n - 1) as nat, byte) + (if bytes[at + n - 1] == byte {
            1nat
        } else {
            0
        })
    }
}

proof fn lemma_occurrences_bound(m: Seq<u8>, at: int, n: nat, byte: u8)
    ensures
        occurrences(m, at, n, byte) <= n,
    decreases n,
{
    if n > 0 {
        lemma_occurrences_bound(m, at, (n - 1) as nat, byte);
    }
}

proof fn lemma_occurrences_split(m: Seq<u8>, at: int, c: nat, n: nat, byte: u8)
    ensures
        occurrences(m, at, c + n, byte) == occurrences(m, at, c, byte) + occurrences(
            m,
            at + c,
            n,
            byte,
        ),
    decreases n,
{
    if n > 0 {
        lemma_occurrences_split(m, at, c, (n - 1) as nat, byte);
    }
}

/// The first of the bytes counts apart from the rest.
proof fn lemma_occurrences_first(m: Seq<u8>, at: int, n: nat, byte: u8)
    requires
        n > 0,
    ensures
        occurrences(m, at, n, byte) == (if m[at] == byte {
            1nat
        } else {
            0
        }) + occurrences(m, at + 1, (n - 1) as nat, byte),
{
    lemma_occurrences_split(m, at, 1, (n - 1) as nat, byte);
    reveal_with_fuel(occurrences, 2);
}

/// The one bits of a mask are the bytes that were the same.
proof fn lemma_mask(z: Seq<u8>, m: Seq<u8>, at: int, byte: u8, i: int)
    requires
        0 <= i <= 16,
        forall|j: int|
            0 <= j < 16 ==> #[trigger] z[j] == (if m[at + j] == byte {
                0xffu8
            } else {
                0
            }),
    ensures
        ones(top_bits(z, i)) == occurrences(m, at + i, (16 - i) as nat, byte),
    decreases 16 - i,
{
    if i < 16 {
        lemma_mask(z, m, at, byte, i + 1);
        lemma_occurrences_first(m, at + i, (16 - i) as nat, byte);
        let rest = top_bits(z, i + 1);
        let b = if z[i] >= 128 {
            1nat
        } else {
            0
        };
        let n = top_bits(z, i);
        assert(n == b + 2 * rest);
        assert(n % 2 == b && n / 2 == rest);
        assert(z[i] == (if m[at + i] == byte {
            0xffu8
        } else {
            0
        }));
        assert(ones(n) == b + ones(rest)) by {
            if n == 0 {
                assert(rest == 0);
            }
        }
    }
}

proof fn lemma_locals()
    ensures
        "count"@ != "cur"@,
        "count"@ != "end"@,
        "count"@ != "vec_end"@,
        "count"@ != "broadcast"@,
        "count"@ != "byte"@,
        "broadcast"@ != "cur"@,
        "broadcast"@ != "end"@,
        "broadcast"@ != "vec_end"@,
        "broadcast"@ != "byte"@,
        "byte"@ != "cur"@,
        "byte"@ != "end"@,
        "byte"@ != "vec_end"@,
        "byte"@ != "off"@,
        "byte"@ != "len"@,
        "broadcast"@ != "off"@,
        "broadcast"@ != "len"@,
        "count"@ != "off"@,
        "count"@ != "len"@,
{
    reveal_strlit("count");
    reveal_strlit("broadcast");
    reveal_strlit("byte");
    reveal_strlit("cur");
    reveal_strlit("end");
    reveal_strlit("vec_end");
    reveal_strlit("off");
    reveal_strlit("len");
    assert("count"@.len() == 5 && "broadcast"@.len() == 9 && "byte"@.len() == 4 && "cur"@.len() == 3
        && "end"@.len() == 3 && "vec_end"@.len() == 7 && "off"@.len() == 3 && "len"@.len() == 3);
}

pub(crate) proof fn lemma_count_ops(n: nat, v: Seq<u8>, w: Seq<u8>)
    ensures
        ({
            let r = applied("i8x16.splat"@, Val::N(n));
            r is Some && r->0 is V && r->0->V_0.len() == 16 && forall|i: int|
                0 <= i < 16 ==> #[trigger] r->0->V_0[i] == (n % 256) as u8
        }),
        applied("i8x16.bitmask"@, Val::V(v)) == Some(Val::N(top_bits(v, 0))),
        ({
            let r = combined("i8x16.eq"@, Val::V(v), Val::V(w));
            r is Some && r->0 is V && r->0->V_0.len() == 16 && forall|i: int|
                0 <= i < 16 ==> #[trigger] r->0->V_0[i] == (if v[i] == w[i] {
                    0xffu8
                } else {
                    0
                })
        }),
{
    reveal_strlit("i8x16.splat");
    reveal_strlit("i32.ctz");
    assert("i32.ctz"@.len() == 7);
    reveal_strlit("i32.popcnt");
    reveal_strlit("i64.extend_i32_u");
    reveal_strlit("i32.wrap_i64");
    reveal_strlit("i8x16.bitmask");
    reveal_strlit("i16x8.extadd_pairwise_i8x16_u");
    reveal_strlit("i32x4.extadd_pairwise_i16x8_u");
    reveal_strlit("i64x2.extend_low_i32x4_u");
    reveal_strlit("i64x2.extend_high_i32x4_u");
    reveal_strlit("i8x16.popcnt");
    reveal_strlit("i64x2.extract_lane 0");
    reveal_strlit("i64x2.extract_lane 1");
    reveal_strlit("i8x16.eq");
    reveal_strlit("i64x2.add");
    reveal_strlit("v128.xor");
    reveal_strlit("v128.or");
    reveal_strlit("v128.and");
    assert("i8x16.splat"@.len() == 11 && "i32.popcnt"@.len() == 10 && "i64.extend_i32_u"@.len()
        == 16 && "i32.wrap_i64"@.len() == 12);
    assert("i8x16.bitmask"@.len() == 13 && "i16x8.extadd_pairwise_i8x16_u"@.len() == 29
        && "i32x4.extadd_pairwise_i16x8_u"@.len() == 29 && "i64x2.extend_low_i32x4_u"@.len() == 24
        && "i64x2.extend_high_i32x4_u"@.len() == 25 && "i8x16.popcnt"@.len() == 12
        && "i64x2.extract_lane 0"@.len() == 20 && "i64x2.extract_lane 1"@.len() == 20);
    assert("i8x16.eq"@.len() == 8 && "i64x2.add"@.len() == 9 && "v128.xor"@.len() == 8
        && "v128.or"@.len() == 7 && "v128.and"@.len() == 8);
    assert("i8x16.eq"@[0] == 'i' && "v128.xor"@[0] == 'v' && "v128.and"@[0] == 'v');
}

/// The locals while the kernel runs.
spec fn counting(env: Map<Seq<char>, Val>, byte: u8, sum: nat) -> bool {
    &&& env.contains_key("byte"@) && env["byte"@] == Val::N(byte as nat)
    &&& env.contains_key("count"@) && env["count"@] == Val::N(sum)
}

proof fn lemma_vec_loop(
    k: nat,
    env: Map<Seq<char>, Val>,
    mems: Seq<Seq<u8>>,
    off: nat,
    len: nat,
    byte: u8,
    s: Seq<u8>,
    c: nat,
    fuel: nat,
)
    requires
        k < mems.len(),
        off < 0x1_0000_0000,
        len < 0x1_0000_0000,
        off + len <= mems[k as int].len(),
        mems[k as int].len() <= 0x1_0000_0000,
        c <= vec_len(len),
        c % 16 == 0,
        fuel * 16 >= vec_len(len) - c,
        on_the_way(env, off, len, c),
        env.contains_key("vec_end"@),
        env["vec_end"@] == Val::N(address(off, vec_len(len))),
        env.contains_key("broadcast"@),
        env["broadcast"@] == Val::V(s),
        forall|i: int| 0 <= i < 16 ==> #[trigger] s[i] == byte,
        counting(env, byte, occurrences(mems[k as int], off as int, c, byte)),
    ensures
        ({
            let r = code_done(vec_loop(k), env, mems, fuel);
            &&& r is Some
            &&& on_the_way(r->0, off, len, vec_len(len))
            &&& counting(
                r->0,
                byte,
                occurrences(mems[k as int], off as int, vec_len(len), byte),
            )
        }),
    decreases vec_len(len) - c,
{
    let m = mems[k as int];
    let v = vec_len(len);
    lemma_reached("vec_end"@, env, mems, off, c, v);
    if c < v {
        assert(c + 16 <= v);
        lemma_locals();
        lemma_variables();
        lemma_constants();
        let at = address(off, c);
        assert(at == off + c);
        let x = m.subrange(at as int, at as int + 16);
        lemma_loads(k, at, env, mems);
        lemma_count_ops(0, x, s);
        let z = combined("i8x16.eq"@, Val::V(x), Val::V(s))->0->V_0;
        assert(term_value(get("broadcast"@), env, mems) == Some(Val::V(s)));
        assert(term_value(same_bytes(k), env, mems) == Some(Val::V(z)));
        lemma_count_ops(0, z, s);
        let mask = top_bits(z, 0);
        assert(term_value(un("i8x16.bitmask"@, same_bytes(k)), env, mems) == Some(Val::N(mask)));
        lemma_unary(z, mask);
        let add = un("i32.popcnt"@, un("i8x16.bitmask"@, same_bytes(k)));
        assert(term_value(add, env, mems) == Some(Val::N(ones(mask))));
        assert forall|j: int| 0 <= j < 16 implies #[trigger] z[j] == (if m[at + j] == byte {
            0xffu8
        } else {
            0
        }) by {
            assert(x[j] == m[at + j]);
            assert(s[j] == byte);
        }
        lemma_mask(z, m, at as int, byte, 0);
        let sum = occurrences(m, off as int, c, byte);
        lemma_occurrences_split(m, off as int, c, 16, byte);
        lemma_occurrences_bound(m, off as int, c + 16, byte);
        let next = occurrences(m, off as int, c + 16, byte);
        lemma_binary(sum, ones(mask), Seq::empty(), Seq::empty());
        assert(term_value(get("count"@), env, mems) == Some(Val::N(sum)));
        let e1 = env.insert("count"@, Val::N(next));
        assert(code_done(count_vec(k), env, mems, fuel) == Some(e1));
        lemma_step("16"@, 16, e1, mems, at, fuel);
        let e2 = e1.insert("cur"@, Val::N((at + 16) % 0x1_0000_0000));
        assert(address(off, c + 16) == (at + 16) % 0x1_0000_0000);
        let body = both(count_vec(k), step_by("16"@));
        assert(code_done(body, env, mems, fuel) == Some(e2));
        lemma_vec_loop(k, e2, mems, off, len, byte, s, c + 16, (fuel - 1) as nat);
        assert(code_done(vec_loop(k), env, mems, fuel) == code_done(
            vec_loop(k),
            e2,
            mems,
            (fuel - 1) as nat,
        ));
    }
}

proof fn lemma_tail_loop(
    k: nat,
    env: Map<Seq<char>, Val>,
    mems: Seq<Seq<u8>>,
    off: nat,
    len: nat,
    byte: u8,
    c: nat,
    fuel: nat,
)
    requires
        k < mems.len(),
        off < 0x1_0000_0000,
        len < 0x1_0000_0000,
        off + len <= mems[k as int].len(),
        mems[k as int].len() <= 0x1_0000_0000,
        c <= len,
        fuel >= len - c,
        on_the_way(env, off, len, c),
        counting(env, byte, occurrences(mems[k as int], off as int, c, byte)),
    ensures
        ({
            let r = code_done(tail_loop(k), env, mems, fuel);
            &&& r is Some
            &&& counting(r->0, byte, occurrences(mems[k as int], off as int, len, byte))
        }),
    decreases len - c,
{
    let m = mems[k as int];
    lemma_reached("end"@, env, mems, off, c, len);
    if c < len {
        lemma_locals();
        lemma_variables();
        lemma_constants();
        let at = address(off, c);
        assert(at == off + c);
        let b = m[at as int];
        let sum = occurrences(m, off as int, c, byte);
        let next = occurrences(m, off as int, c + 1, byte);
        lemma_loads(k, at, env, mems);
        lemma_binary(b as nat, byte as nat, Seq::empty(), Seq::empty());
        assert(term_value(get("byte"@), env, mems) == Some(Val::N(byte as nat)));
        assert(term_value(is_byte(k), env, mems) == Some(
            Val::N(
                if b == byte {
                    1
                } else {
                    0
                },
            ),
        ));
        lemma_binary(sum, 1, Seq::empty(), Seq::empty());
        lemma_occurrences_bound(m, off as int, c + 1, byte);
        assert(term_value(get("count"@), env, mems) == Some(Val::N(sum)));
        assert(term_value(Term::Lit("i32.const"@, "1"@), env, mems) == Some(Val::N(1)));
        assert(b == byte ==> code_done(count_one(), env, mems, fuel) == Some(
            env.insert("count"@, Val::N(next)),
        ));
        let e1 = if b == byte {
            env.insert("count"@, Val::N(next))
        } else {
            env
        };
        assert(code_done(count_single(k), env, mems, fuel) == Some(e1));
        lemma_step("1"@, 1, e1, mems, at, fuel);
        let e2 = e1.insert("cur"@, Val::N((at + 1) % 0x1_0000_0000));
        assert(address(off, c + 1) == (at + 1) % 0x1_0000_0000);
        let body = both(count_single(k), step_by("1"@));
        assert(code_done(body, env, mems, fuel) == Some(e2));
        lemma_tail_loop(k, e2, mems, off, len, byte, c + 1, (fuel - 1) as nat);
        assert(code_done(tail_loop(k), env, mems, fuel) == code_done(
            tail_loop(k),
            e2,
            mems,
            (fuel - 1) as nat,
        ));
    }
}

proof fn lemma_kernel(
    stem: Seq<char>,
    k: nat,
    mems: Seq<Seq<u8>>,
    off: nat,
    len: nat,
    byte: u8,
)
    requires
        k < mems.len(),
        off < 0x1_0000_0000,
        len < 0x1_0000_0000,
        off + len <= mems[k as int].len(),
        mems[k as int].len() <= 0x1_0000_0000,
    ensures
        ran(kernel(stem, k), args3(off, len, byte as nat), mems, len) == Some(
            Val::N(occurrences(mems[k as int], off as int, len, byte)),
        ),
{
    let f = kernel(stem, k);
    let m = mems[k as int];
    let args = args3(off, len, byte as nat);
    lemma_locals();
    lemma_variables();
    reveal_with_fuel(bound_params, 4);
    reveal_with_fuel(entered, 6);
    reveal_strlit("v128");
    reveal_strlit("i32");
    assert("v128"@.len() == 4 && "i32"@.len() == 3);
    let env = entered(f, args, 5);
    assert(env.contains_key("off"@) && env["off"@] == Val::N(off));
    assert(env.contains_key("len"@) && env["len"@] == Val::N(len));
    assert(env.contains_key("byte"@) && env["byte"@] == Val::N(byte as nat));
    assert(env.contains_key("count"@) && env["count"@] == Val::N(0));
    let e1 = lemma_places(env, mems, off, len, len);
    lemma_count_ops(byte as nat, Seq::empty(), Seq::empty());
    let s = applied("i8x16.splat"@, Val::N(byte as nat))->0->V_0;
    assert(term_value(get("byte"@), e1, mems) == Some(Val::N(byte as nat)));
    let e2 = e1.insert("broadcast"@, Val::V(s));
    assert(code_done(spread(), e1, mems, len) == Some(e2));
    assert(code_done(setup(), env, mems, len) == Some(e2));
    lemma_vec_loop(k, e2, mems, off, len, byte, s, 0, len);
    let e3 = code_done(vec_loop(k), e2, mems, len)->0;
    lemma_tail_loop(k, e3, mems, off, len, byte, vec_len(len), len);
    assert(code_done(both(setup(), vec_loop(k)), env, mems, len) == Some(e3));
}

// ---------------------------------------------------------------------------
// Its text
// ---------------------------------------------------------------------------

proof fn lemma_head_text(stem: Seq<char>, k: nat)
    ensures
        ({
            let f = kernel(stem, k);
            &&& squeezed(f.name) == squeezed(stem) + squeezed(decimal(k))
            &&& squeezed(declared_text("param"@, f.params, f.params.len() as int)) == declared_word("param"@, "off"@, "i32"@) + declared_word("param"@, "len"@, "i32"@) + declared_word("param"@, "byte"@, "i32"@)
            &&& squeezed(declared_text("local"@, f.locals, f.locals.len() as int)) == declared_word("local"@, "cur"@, "i32"@) + declared_word("local"@, "end"@, "i32"@) + declared_word("local"@, "vec_end"@, "i32"@) + declared_word("local"@, "broadcast"@, "v128"@) + declared_word("local"@, "count"@, "i32"@)
        }),
{
    broadcast use {lemma_squeezed_add, lemma_nothing_add};

    let f = kernel(stem, k);
    lemma_declared("param"@, f.params, 1);
    lemma_declared("param"@, f.params, 2);
    lemma_declared("param"@, f.params, 3);
    lemma_declared("local"@, f.locals, 1);
    lemma_declared("local"@, f.locals, 2);
    lemma_declared("local"@, f.locals, 3);
    lemma_declared("local"@, f.locals, 4);
    lemma_declared("local"@, f.locals, 5);
    assert(squeezed(declared_text("param"@, f.params, 0)) == Seq::<char>::empty());
    assert(squeezed(declared_text("local"@, f.locals, 0)) == Seq::<char>::empty());
}

proof fn lemma_count_text(stem: Seq<char>, k: nat)
    ensures
        squeezed(kernel_text(kernel(stem, k))) == head_text(kernel(stem, k)) + (squeezed(
            code_text(set_cur()),
        ) + squeezed(code_text(set_end())) + squeezed(code_text(set_vec_end())) + squeezed(
            code_text(spread()),
        ) + (opening_text(
            "vec_done"@,
            "vec_continue"@,
            bin("i32.eq"@, get("cur"@), get("vec_end"@)),
        ) + (squeezed(code_text(count_vec(k))) + squeezed(code_text(step_by("16"@))))
            + closing_text("vec_continue"@)) + (opening_text(
            "tail_done"@,
            "tail_continue"@,
            bin("i32.eq"@, get("cur"@), get("end"@)),
        ) + (if_text(is_byte(k)) + squeezed(code_text(count_one())) + (squeezed(")"@) + squeezed(
            ")"@,
        )) + squeezed(code_text(step_by("1"@)))) + closing_text("tail_continue"@))) + squeezed(
            term_text(get("count"@)),
        ) + squeezed(")"@),
{
    broadcast use lemma_squeezed_add;

    let vec_cond = bin("i32.eq"@, get("cur"@), get("vec_end"@));
    let tail_cond = bin("i32.eq"@, get("cur"@), get("end"@));
    lemma_both_text(set_cur(), set_end());
    lemma_both_text(both(set_cur(), set_end()), set_vec_end());
    lemma_both_text(both(both(set_cur(), set_end()), set_vec_end()), spread());
    let body = both(count_vec(k), step_by("16"@));
    lemma_both_text(count_vec(k), step_by("16"@));
    lemma_until_text("vec_done"@, "vec_continue"@, vec_cond, body);
    let single = both(count_single(k), step_by("1"@));
    lemma_when_text(is_byte(k), count_one());
    lemma_both_text(count_single(k), step_by("1"@));
    lemma_until_text("tail_done"@, "tail_continue"@, tail_cond, single);
    lemma_both_text(setup(), vec_loop(k));
    lemma_both_text(both(setup(), vec_loop(k)), tail_loop(k));
}

proof fn lemma_plain_words_0(k: nat)
    ensures
        fill("  "@, k) == "  "@,
        fill("(func $"@, k) == "(func $"@,
        fill("tvm_simd_count_byte_p"@, k) == "tvm_simd_count_byte_p"@,
        fill(" (export \""@, k) == " (export \""@,
        fill("\")"@, k) == "\")"@,
        fill("\n"@, k) == "\n"@,
        fill("("@, k) == "("@,
        fill("param"@, k) == "param"@,
        fill(" $"@, k) == " $"@,
        fill("off"@, k) == "off"@,
        fill(" "@, k) == " "@,
        fill("i32"@, k) == "i32"@,
        fill(")"@, k) == ")"@,
        fill("len"@, k) == "len"@,
{
    reveal_strlit("  ");
    lemma_fill_plain("  "@, k);
    reveal_strlit("(func $");
    lemma_fill_plain("(func $"@, k);
    reveal_strlit("tvm_simd_count_byte_p");
    lemma_fill_plain("tvm_simd_count_byte_p"@, k);
    reveal_strlit(" (export \"");
    lemma_fill_plain(" (export \""@, k);
    reveal_strlit("\")");
    lemma_fill_plain("\")"@, k);
    reveal_strlit("\n");
    lemma_fill_plain("\n"@, k);
    reveal_strlit("(");
    lemma_fill_plain("("@, k);
    reveal_strlit("param");
    lemma_fill_plain("param"@, k);
    reveal_strlit(" $");
    lemma_fill_plain(" $"@, k);
    reveal_strlit("off");
    lemma_fill_plain("off"@, k);
    reveal_strlit(" ");
    lemma_fill_plain(" "@, k);
    reveal_strlit("i32");
    lemma_fill_plain("i32"@, k);
    reveal_strlit(")");
    lemma_fill_plain(")"@, k);
    reveal_strlit("len");
    lemma_fill_plain("len"@, k);
}

proof fn lemma_plain_words_1(k: nat)
    ensures
        fill("byte"@, k) == "byte"@,
        fill("(result "@, k) == "(result "@,
        fill("local"@, k) == "local"@,
        fill("cur"@, k) == "cur"@,
        fill("end"@, k) == "end"@,
        fill("vec_end"@, k) == "vec_end"@,
        fill("broadcast"@, k) == "broadcast"@,
        fill("v128"@, k) == "v128"@,
        fill("count"@, k) == "count"@,
        fill("(local.set $"@, k) == "(local.set $"@,
        fill("(local.get $"@, k) == "(local.get $"@,
        fill("i32.add"@, k) == "i32.add"@,
        fill("i32.and"@, k) == "i32.and"@,
        fill("i32.const"@, k) == "i32.const"@,
{
    reveal_strlit("byte");
    lemma_fill_plain("byte"@, k);
    reveal_strlit("(result ");
    lemma_fill_plain("(result "@, k);
    reveal_strlit("local");
    lemma_fill_plain("local"@, k);
    reveal_strlit("cur");
    lemma_fill_plain("cur"@, k);
    reveal_strlit("end");
    lemma_fill_plain("end"@, k);
    reveal_strlit("vec_end");
    lemma_fill_plain("vec_end"@, k);
    reveal_strlit("broadcast");
    lemma_fill_plain("broadcast"@, k);
    reveal_strlit("v128");
    lemma_fill_plain("v128"@, k);
    reveal_strlit("count");
    lemma_fill_plain("count"@, k);
    reveal_strlit("(local.set $");
    lemma_fill_plain("(local.set $"@, k);
    reveal_strlit("(local.get $");
    lemma_fill_plain("(local.get $"@, k);
    reveal_strlit("i32.add");
    lemma_fill_plain("i32.add"@, k);
    reveal_strlit("i32.and");
    lemma_fill_plain("i32.and"@, k);
    reveal_strlit("i32.const");
    lemma_fill_plain("i32.const"@, k);
}

proof fn lemma_plain_words_2(k: nat)
    ensures
        fill("-16"@, k) == "-16"@,
        fill("i8x16.splat"@, k) == "i8x16.splat"@,
        fill("(block $"@, k) == "(block $"@,
        fill("vec_done"@, k) == "vec_done"@,
        fill(" (loop $"@, k) == " (loop $"@,
        fill("vec_continue"@, k) == "vec_continue"@,
        fill(" (br_if $"@, k) == " (br_if $"@,
        fill("i32.eq"@, k) == "i32.eq"@,
        fill("i32.popcnt"@, k) == "i32.popcnt"@,
        fill("i8x16.bitmask"@, k) == "i8x16.bitmask"@,
        fill("i8x16.eq"@, k) == "i8x16.eq"@,
        fill("v128.load"@, k) == "v128.load"@,
        fill("16"@, k) == "16"@,
        fill("(br $"@, k) == "(br $"@,
{
    reveal_strlit("-16");
    lemma_fill_plain("-16"@, k);
    reveal_strlit("i8x16.splat");
    lemma_fill_plain("i8x16.splat"@, k);
    reveal_strlit("(block $");
    lemma_fill_plain("(block $"@, k);
    reveal_strlit("vec_done");
    lemma_fill_plain("vec_done"@, k);
    reveal_strlit(" (loop $");
    lemma_fill_plain(" (loop $"@, k);
    reveal_strlit("vec_continue");
    lemma_fill_plain("vec_continue"@, k);
    reveal_strlit(" (br_if $");
    lemma_fill_plain(" (br_if $"@, k);
    reveal_strlit("i32.eq");
    lemma_fill_plain("i32.eq"@, k);
    reveal_strlit("i32.popcnt");
    lemma_fill_plain("i32.popcnt"@, k);
    reveal_strlit("i8x16.bitmask");
    lemma_fill_plain("i8x16.bitmask"@, k);
    reveal_strlit("i8x16.eq");
    lemma_fill_plain("i8x16.eq"@, k);
    reveal_strlit("v128.load");
    lemma_fill_plain("v128.load"@, k);
    reveal_strlit("16");
    lemma_fill_plain("16"@, k);
    reveal_strlit("(br $");
    lemma_fill_plain("(br $"@, k);
}

proof fn lemma_plain_words_3(k: nat)
    ensures
        fill("tail_done"@, k) == "tail_done"@,
        fill("tail_continue"@, k) == "tail_continue"@,
        fill("(if "@, k) == "(if "@,
        fill("i32.load8_u"@, k) == "i32.load8_u"@,
        fill(" (then"@, k) == " (then"@,
        fill("1"@, k) == "1"@,
{
    reveal_strlit("tail_done");
    lemma_fill_plain("tail_done"@, k);
    reveal_strlit("tail_continue");
    lemma_fill_plain("tail_continue"@, k);
    reveal_strlit("(if ");
    lemma_fill_plain("(if "@, k);
    reveal_strlit("i32.load8_u");
    lemma_fill_plain("i32.load8_u"@, k);
    reveal_strlit(" (then");
    lemma_fill_plain(" (then"@, k);
    reveal_strlit("1");
    lemma_fill_plain("1"@, k);
}

/// The words of the kernels have no place for a number.
proof fn lemma_plain_words(k: nat)
    ensures
        fill("  "@, k) == "  "@,
        fill("(func $"@, k) == "(func $"@,
        fill("tvm_simd_count_byte_p"@, k) == "tvm_simd_count_byte_p"@,
        fill(" (export \""@, k) == " (export \""@,
        fill("\")"@, k) == "\")"@,
        fill("\n"@, k) == "\n"@,
        fill("("@, k) == "("@,
        fill("param"@, k) == "param"@,
        fill(" $"@, k) == " $"@,
        fill("off"@, k) == "off"@,
        fill(" "@, k) == " "@,
        fill("i32"@, k) == "i32"@,
        fill(")"@, k) == ")"@,
        fill("len"@, k) == "len"@,
        fill("byte"@, k) == "byte"@,
        fill("(result "@, k) == "(result "@,
        fill("local"@, k) == "local"@,
        fill("cur"@, k) == "cur"@,
        fill("end"@, k) == "end"@,
        fill("vec_end"@, k) == "vec_end"@,
        fill("broadcast"@, k) == "broadcast"@,
        fill("v128"@, k) == "v128"@,
        fill("count"@, k) == "count"@,
        fill("(local.set $"@, k) == "(local.set $"@,
        fill("(local.get $"@, k) == "(local.get $"@,
        fill("i32.add"@, k) == "i32.add"@,
        fill("i32.and"@, k) == "i32.and"@,
        fill("i32.const"@, k) == "i32.const"@,
        fill("-16"@, k) == "-16"@,
        fill("i8x16.splat"@, k) == "i8x16.splat"@,
        fill("(block $"@, k) == "(block $"@,
        fill("vec_done"@, k) == "vec_done"@,
        fill(" (loop $"@, k) == " (loop $"@,
        fill("vec_continue"@, k) == "vec_continue"@,
        fill(" (br_if $"@, k) == " (br_if $"@,
        fill("i32.eq"@, k) == "i32.eq"@,
        fill("i32.popcnt"@, k) == "i32.popcnt"@,
        fill("i8x16.bitmask"@, k) == "i8x16.bitmask"@,
        fill("i8x16.eq"@, k) == "i8x16.eq"@,
        fill("v128.load"@, k) == "v128.load"@,
        fill("16"@, k) == "16"@,
        fill("(br $"@, k) == "(br $"@,
        fill("tail_done"@, k) == "tail_done"@,
        fill("tail_continue"@, k) == "tail_continue"@,
        fill("(if "@, k) == "(if "@,
        fill("i32.load8_u"@, k) == "i32.load8_u"@,
        fill(" (then"@, k) == " (then"@,
        fill("1"@, k) == "1"@,
{
    lemma_plain_words_0(k);
    lemma_plain_words_1(k);
    lemma_plain_words_2(k);
    lemma_plain_words_3(k);
}

proof fn lemma_count_head_words()
    ensures
        "  (func $tvm_simd_count_byte_p@ (export \"tvm_simd_count_byte_p@\")\n        (param $off i32) (param $len i32) (param $byte i32) (result i32)\n    (local $cur i32) (local $end i32) (local $vec_end i32)\n    (local $broadcast v128) (local $count i32)\n"@ == ("  "@ + "(func $"@) + ("tvm_simd_count_byte_p"@ + "@"@) + " (export \""@
        + ("tvm_simd_count_byte_p"@ + "@"@) + "\")"@ + ((((("\n"@ + "  "@ + "  "@ + "  "@ + "  "@)
        + "("@) + "param"@ + " $"@ + "off"@ + " "@ + "i32"@ + ")"@) + ((" "@ + "("@) + "param"@
        + " $"@ + "len"@ + " "@ + "i32"@ + ")"@)) + ((" "@ + "("@) + "param"@ + " $"@ + "byte"@
        + " "@ + "i32"@ + ")"@)) + (" "@ + "(result "@) + "i32"@ + ")"@ + ((((((("\n"@ + "  "@
        + "  "@) + "("@) + "local"@ + " $"@ + "cur"@ + " "@ + "i32"@ + ")"@) + ((" "@ + "("@)
        + "local"@ + " $"@ + "end"@ + " "@ + "i32"@ + ")"@)) + ((" "@ + "("@) + "local"@ + " $"@
        + "vec_end"@ + " "@ + "i32"@ + ")"@)) + ((("\n"@ + "  "@ + "  "@) + "("@) + "local"@
        + " $"@ + "broadcast"@ + " "@ + "v128"@ + ")"@)) + ((" "@ + "("@) + "local"@ + " $"@
        + "count"@ + " "@ + "i32"@ + ")"@)) + "\n"@,
{
    reveal_strlit("  (func $tvm_simd_count_byte_p@ (export \"tvm_simd_count_byte_p@\")\n        (param $off i32) (param $len i32) (param $byte i32) (result i32)\n    (local $cur i32) (local $end i32) (local $vec_end i32)\n    (local $broadcast v128) (local $count i32)\n");
    reveal_strlit("  ");
    reveal_strlit("(func $");
    reveal_strlit("tvm_simd_count_byte_p");
    reveal_strlit("@");
    reveal_strlit(" (export \"");
    reveal_strlit("\")");
    reveal_strlit("\n");
    reveal_strlit("(");
    reveal_strlit("param");
    reveal_strlit(" $");
    reveal_strlit("off");
    reveal_strlit(" ");
    reveal_strlit("i32");
    reveal_strlit(")");
    reveal_strlit("len");
    reveal_strlit("byte");
    reveal_strlit("(result ");
    reveal_strlit("local");
    reveal_strlit("cur");
    reveal_strlit("end");
    reveal_strlit("vec_end");
    reveal_strlit("broadcast");
    reveal_strlit("v128");
    reveal_strlit("count");
    assert("  (func $tvm_simd_count_byte_p@ (export \"tvm_simd_count_byte_p@\")\n        (param $off i32) (param $len i32) (param $byte i32) (result i32)\n    (local $cur i32) (local $end i32) (local $vec_end i32)\n    (local $broadcast v128) (local $count i32)\n"@ =~= ("  "@ + "(func $"@) + ("tvm_simd_count_byte_p"@ + "@"@) + " (export \""@
        + ("tvm_simd_count_byte_p"@ + "@"@) + "\")"@ + ((((("\n"@ + "  "@ + "  "@ + "  "@ + "  "@)
        + "("@) + "param"@ + " $"@ + "off"@ + " "@ + "i32"@ + ")"@) + ((" "@ + "("@) + "param"@
        + " $"@ + "len"@ + " "@ + "i32"@ + ")"@)) + ((" "@ + "("@) + "param"@ + " $"@ + "byte"@
        + " "@ + "i32"@ + ")"@)) + (" "@ + "(result "@) + "i32"@ + ")"@ + ((((((("\n"@ + "  "@
        + "  "@) + "("@) + "local"@ + " $"@ + "cur"@ + " "@ + "i32"@ + ")"@) + ((" "@ + "("@)
        + "local"@ + " $"@ + "end"@ + " "@ + "i32"@ + ")"@)) + ((" "@ + "("@) + "local"@ + " $"@
        + "vec_end"@ + " "@ + "i32"@ + ")"@)) + ((("\n"@ + "  "@ + "  "@) + "("@) + "local"@
        + " $"@ + "broadcast"@ + " "@ + "v128"@ + ")"@)) + ((" "@ + "("@) + "local"@ + " $"@
        + "count"@ + " "@ + "i32"@ + ")"@)) + "\n"@);
}

proof fn lemma_count_head_filled(k: nat)
    ensures
        fill("  (func $tvm_simd_count_byte_p@ (export \"tvm_simd_count_byte_p@\")\n        (param $off i32) (param $len i32) (param $byte i32) (result i32)\n    (local $cur i32) (local $end i32) (local $vec_end i32)\n    (local $broadcast v128) (local $count i32)\n"@, k) == ("  "@ + "(func $"@) + ("tvm_simd_count_byte_p"@ + decimal(k)) + " (export \""@
        + ("tvm_simd_count_byte_p"@ + decimal(k)) + "\")"@ + ((((("\n"@ + "  "@ + "  "@ + "  "@
        + "  "@) + "("@) + "param"@ + " $"@ + "off"@ + " "@ + "i32"@ + ")"@) + ((" "@ + "("@)
        + "param"@ + " $"@ + "len"@ + " "@ + "i32"@ + ")"@)) + ((" "@ + "("@) + "param"@ + " $"@
        + "byte"@ + " "@ + "i32"@ + ")"@)) + (" "@ + "(result "@) + "i32"@ + ")"@ + ((((((("\n"@
        + "  "@ + "  "@) + "("@) + "local"@ + " $"@ + "cur"@ + " "@ + "i32"@ + ")"@) + ((" "@
        + "("@) + "local"@ + " $"@ + "end"@ + " "@ + "i32"@ + ")"@)) + ((" "@ + "("@) + "local"@
        + " $"@ + "vec_end"@ + " "@ + "i32"@ + ")"@)) + ((("\n"@ + "  "@ + "  "@) + "("@)
        + "local"@ + " $"@ + "broadcast"@ + " "@ + "v128"@ + ")"@)) + ((" "@ + "("@) + "local"@
        + " $"@ + "count"@ + " "@ + "i32"@ + ")"@)) + "\n"@,
{
    broadcast use lemma_fill_add;

    lemma_count_head_words();
    lemma_plain_words(k);
    lemma_fill_place(k);
}

proof fn lemma_count_head(k: nat)
    ensures
        squeezed(fill("  (func $tvm_simd_count_byte_p@ (export \"tvm_simd_count_byte_p@\")\n        (param $off i32) (param $len i32) (param $byte i32) (result i32)\n    (local $cur i32) (local $end i32) (local $vec_end i32)\n    (local $broadcast v128) (local $count i32)\n"@, k)) == head_text(kernel("tvm_simd_count_byte_p"@, k)),
{
    broadcast use {lemma_squeezed_add, lemma_add_nothing, lemma_nothing_add};

    lemma_blank_literals();
    lemma_count_head_filled(k);
    lemma_head_text("tvm_simd_count_byte_p"@, k);
}

proof fn lemma_count_cur_text(k: nat)
    ensures
        squeezed(code_text(set_cur())) == squeezed("(local.set $"@) + squeezed("cur"@) + (squeezed("(local.get $"@)
        + squeezed("off"@) + squeezed(")"@)) + squeezed(")"@),
{
    lemma_get_text("off"@);
    lemma_assign_text("cur"@, get("off"@));
    assert(set_cur() == Code::Assign("cur"@, get("off"@)));
}

proof fn lemma_count_cur_words()
    ensures
        "    (local.set $cur (local.get $off))\n"@ == (("  "@ + "  "@) + "(local.set $"@ + "cur"@ + " "@ + ("(local.get $"@ + "off"@ + ")"@)
        + ")"@) + "\n"@,
{
    reveal_strlit("    (local.set $cur (local.get $off))\n");
    reveal_strlit("  ");
    reveal_strlit("(local.set $");
    reveal_strlit("cur");
    reveal_strlit(" ");
    reveal_strlit("(local.get $");
    reveal_strlit("off");
    reveal_strlit(")");
    reveal_strlit("\n");
    assert("    (local.set $cur (local.get $off))\n"@ =~= (("  "@ + "  "@) + "(local.set $"@ + "cur"@ + " "@ + ("(local.get $"@ + "off"@ + ")"@)
        + ")"@) + "\n"@);
}

proof fn lemma_count_cur_filled(k: nat)
    ensures
        fill("    (local.set $cur (local.get $off))\n"@, k) == (("  "@ + "  "@) + "(local.set $"@ + "cur"@ + " "@ + ("(local.get $"@ + "off"@ + ")"@)
        + ")"@) + "\n"@,
{
    broadcast use lemma_fill_add;

    lemma_count_cur_words();
    lemma_plain_words(k);
}

proof fn lemma_count_cur(k: nat)
    ensures
        squeezed(fill("    (local.set $cur (local.get $off))\n"@, k)) == squeezed(code_text(set_cur())),
{
    broadcast use {lemma_squeezed_add, lemma_add_nothing, lemma_nothing_add};

    lemma_blank_literals();
    lemma_count_cur_filled(k);
    lemma_count_cur_text(k);
}

proof fn lemma_count_end_text(k: nat)
    ensures
        squeezed(code_text(set_end())) == squeezed("(local.set $"@) + squeezed("end"@) + (squeezed("("@) + squeezed("i32.add"@)
        + (squeezed("(local.get $"@) + squeezed("off"@) + squeezed(")"@))
        + (squeezed("(local.get $"@) + squeezed("len"@) + squeezed(")"@)) + squeezed(")"@))
        + squeezed(")"@),
{
    lemma_get_text("off"@);
    lemma_get_text("len"@);
    lemma_bin_text("i32.add"@, get("off"@), get("len"@));
    lemma_assign_text("end"@, bin("i32.add"@, get("off"@), get("len"@)));
    assert(set_end() == Code::Assign("end"@, bin("i32.add"@, get("off"@), get("len"@))));
}

proof fn lemma_count_end_words()
    ensures
        "    (local.set $end (i32.add (local.get $off) (local.get $len)))\n"@ == (("  "@ + "  "@) + "(local.set $"@ + "end"@ + " "@ + ("("@ + "i32.add"@ + " "@
        + ("(local.get $"@ + "off"@ + ")"@) + " "@ + ("(local.get $"@ + "len"@ + ")"@) + ")"@)
        + ")"@) + "\n"@,
{
    reveal_strlit("    (local.set $end (i32.add (local.get $off) (local.get $len)))\n");
    reveal_strlit("  ");
    reveal_strlit("(local.set $");
    reveal_strlit("end");
    reveal_strlit(" ");
    reveal_strlit("(");
    reveal_strlit("i32.add");
    reveal_strlit("(local.get $");
    reveal_strlit("off");
    reveal_strlit(")");
    reveal_strlit("len");
    reveal_strlit("\n");
    assert("    (local.set $end (i32.add (local.get $off) (local.get $len)))\n"@ =~= (("  "@ + "  "@) + "(local.set $"@ + "end"@ + " "@ + ("("@ + "i32.add"@ + " "@
        + ("(local.get $"@ + "off"@ + ")"@) + " "@ + ("(local.get $"@ + "len"@ + ")"@) + ")"@)
        + ")"@) + "\n"@);
}

proof fn lemma_count_end_filled(k: nat)
    ensures
        fill("    (local.set $end (i32.add (local.get $off) (local.get $len)))\n"@, k) == (("  "@ + "  "@) + "(local.set $"@ + "end"@ + " "@ + ("("@ + "i32.add"@ + " "@
        + ("(local.get $"@ + "off"@ + ")"@) + " "@ + ("(local.get $"@ + "len"@ + ")"@) + ")"@)
        + ")"@) + "\n"@,
{
    broadcast use lemma_fill_add;

    lemma_count_end_words();
    lemma_plain_words(k);
}

proof fn lemma_count_end(k: nat)
    ensures
        squeezed(fill("    (local.set $end (i32.add (local.get $off) (local.get $len)))\n"@, k)) == squeezed(code_text(set_end())),
{
    broadcast use {lemma_squeezed_add, lemma_add_nothing, lemma_nothing_add};

    lemma_blank_literals();
    lemma_count_end_filled(k);
    lemma_count_end_text(k);
}

proof fn lemma_count_vec_end_text(k: nat)
    ensures
        squeezed(code_text(set_vec_end())) == squeezed("(local.set $"@) + squeezed("vec_end"@) + (squeezed("("@) + squeezed("i32.add"@)
        + (squeezed("(local.get $"@) + squeezed("off"@) + squeezed(")"@)) + (squeezed("("@)
        + squeezed("i32.and"@) + (squeezed("(local.get $"@) + squeezed("len"@) + squeezed(")"@))
        + (squeezed("("@) + squeezed("i32.const"@) + squeezed("-16"@) + squeezed(")"@))
        + squeezed(")"@)) + squeezed(")"@)) + squeezed(")"@),
{
    lemma_get_text("off"@);
    lemma_get_text("len"@);
    lemma_lit_text("i32.const"@, "-16"@);
    lemma_bin_text("i32.and"@, get("len"@), Term::Lit("i32.const"@, "-16"@));
    lemma_bin_text("i32.add"@, get("off"@), bin("i32.and"@, get("len"@), Term::Lit("i32.const"@, "-16"@)));
    lemma_assign_text("vec_end"@, bin("i32.add"@, get("off"@), bin("i32.and"@, get("len"@), Term::Lit("i32.const"@, "-16"@))));
    assert(set_vec_end() == Code::Assign("vec_end"@, bin("i32.add"@, get("off"@), bin("i32.and"@, get("len"@), Term::Lit("i32.const"@, "-16"@)))));
}

proof fn lemma_count_vec_end_words()
    ensures
        "    (local.set $vec_end\n      (i32.add (local.get $off)\n               (i32.and (local.get $len) (i32.const -16))))\n"@ == (("  "@ + "  "@) + "(local.set $"@ + "vec_end"@ + ("\n"@ + "  "@ + "  "@ + "  "@) + ("("@
        + "i32.add"@ + " "@ + ("(local.get $"@ + "off"@ + ")"@) + ("\n"@ + "  "@ + "  "@ + "  "@
        + "  "@ + "  "@ + "  "@ + "  "@ + " "@) + ("("@ + "i32.and"@ + " "@ + ("(local.get $"@
        + "len"@ + ")"@) + " "@ + ("("@ + "i32.const"@ + " "@ + "-16"@ + ")"@) + ")"@) + ")"@)
        + ")"@) + "\n"@,
{
    reveal_strlit("    (local.set $vec_end\n      (i32.add (local.get $off)\n               (i32.and (local.get $len) (i32.const -16))))\n");
    reveal_strlit("  ");
    reveal_strlit("(local.set $");
    reveal_strlit("vec_end");
    reveal_strlit("\n");
    reveal_strlit("(");
    reveal_strlit("i32.add");
    reveal_strlit(" ");
    reveal_strlit("(local.get $");
    reveal_strlit("off");
    reveal_strlit(")");
    reveal_strlit("i32.and");
    reveal_strlit("len");
    reveal_strlit("i32.const");
    reveal_strlit("-16");
    assert("    (local.set $vec_end\n      (i32.add (local.get $off)\n               (i32.and (local.get $len) (i32.const -16))))\n"@ =~= (("  "@ + "  "@) + "(local.set $"@ + "vec_end"@ + ("\n"@ + "  "@ + "  "@ + "  "@) + ("("@
        + "i32.add"@ + " "@ + ("(local.get $"@ + "off"@ + ")"@) + ("\n"@ + "  "@ + "  "@ + "  "@
        + "  "@ + "  "@ + "  "@ + "  "@ + " "@) + ("("@ + "i32.and"@ + " "@ + ("(local.get $"@
        + "len"@ + ")"@) + " "@ + ("("@ + "i32.const"@ + " "@ + "-16"@ + ")"@) + ")"@) + ")"@)
        + ")"@) + "\n"@);
}

proof fn lemma_count_vec_end_filled(k: nat)
    ensures
        fill("    (local.set $vec_end\n      (i32.add (local.get $off)\n               (i32.and (local.get $len) (i32.const -16))))\n"@, k) == (("  "@ + "  "@) + "(local.set $"@ + "vec_end"@ + ("\n"@ + "  "@ + "  "@ + "  "@) + ("("@
        + "i32.add"@ + " "@ + ("(local.get $"@ + "off"@ + ")"@) + ("\n"@ + "  "@ + "  "@ + "  "@
        + "  "@ + "  "@ + "  "@ + "  "@ + " "@) + ("("@ + "i32.and"@ + " "@ + ("(local.get $"@
        + "len"@ + ")"@) + " "@ + ("("@ + "i32.const"@ + " "@ + "-16"@ + ")"@) + ")"@) + ")"@)
        + ")"@) + "\n"@,
{
    broadcast use lemma_fill_add;

    lemma_count_vec_end_words();
    lemma_plain_words(k);
}

proof fn lemma_count_vec_end(k: nat)
    ensures
        squeezed(fill("    (local.set $vec_end\n      (i32.add (local.get $off)\n               (i32.and (local.get $len) (i32.const -16))))\n"@, k)) == squeezed(code_text(set_vec_end())),
{
    broadcast use {lemma_squeezed_add, lemma_add_nothing, lemma_nothing_add};

    lemma_blank_literals();
    lemma_count_vec_end_filled(k);
    lemma_count_vec_end_text(k);
}

proof fn lemma_count_spread_text(k: nat)
    ensures
        squeezed(code_text(spread())) == squeezed("(local.set $"@) + squeezed("broadcast"@) + (squeezed("("@)
        + squeezed("i8x16.splat"@) + (squeezed("(local.get $"@) + squeezed("byte"@)
        + squeezed(")"@)) + squeezed(")"@)) + squeezed(")"@),
{
    lemma_get_text("byte"@);
    lemma_un_text("i8x16.splat"@, get("byte"@));
    lemma_assign_text("broadcast"@, un("i8x16.splat"@, get("byte"@)));
    assert(spread() == Code::Assign("broadcast"@, un("i8x16.splat"@, get("byte"@))));
}

proof fn lemma_count_spread_words()
    ensures
        "    (local.set $broadcast (i8x16.splat (local.get $byte)))\n"@ == (("  "@ + "  "@) + "(local.set $"@ + "broadcast"@ + " "@ + ("("@ + "i8x16.splat"@ + " "@
        + ("(local.get $"@ + "byte"@ + ")"@) + ")"@) + ")"@) + "\n"@,
{
    reveal_strlit("    (local.set $broadcast (i8x16.splat (local.get $byte)))\n");
    reveal_strlit("  ");
    reveal_strlit("(local.set $");
    reveal_strlit("broadcast");
    reveal_strlit(" ");
    reveal_strlit("(");
    reveal_strlit("i8x16.splat");
    reveal_strlit("(local.get $");
    reveal_strlit("byte");
    reveal_strlit(")");
    reveal_strlit("\n");
    assert("    (local.set $broadcast (i8x16.splat (local.get $byte)))\n"@ =~= (("  "@ + "  "@) + "(local.set $"@ + "broadcast"@ + " "@ + ("("@ + "i8x16.splat"@ + " "@
        + ("(local.get $"@ + "byte"@ + ")"@) + ")"@) + ")"@) + "\n"@);
}

proof fn lemma_count_spread_filled(k: nat)
    ensures
        fill("    (local.set $broadcast (i8x16.splat (local.get $byte)))\n"@, k) == (("  "@ + "  "@) + "(local.set $"@ + "broadcast"@ + " "@ + ("("@ + "i8x16.splat"@ + " "@
        + ("(local.get $"@ + "byte"@ + ")"@) + ")"@) + ")"@) + "\n"@,
{
    broadcast use lemma_fill_add;

    lemma_count_spread_words();
    lemma_plain_words(k);
}

proof fn lemma_count_spread(k: nat)
    ensures
        squeezed(fill("    (local.set $broadcast (i8x16.splat (local.get $byte)))\n"@, k)) == squeezed(code_text(spread())),
{
    broadcast use {lemma_squeezed_add, lemma_add_nothing, lemma_nothing_add};

    lemma_blank_literals();
    lemma_count_spread_filled(k);
    lemma_count_spread_text(k);
}

proof fn lemma_count_vec_words()
    ensures
        "    (block $vec_done\n      (loop $vec_continue\n        (br_if $vec_done (i32.eq (local.get $cur) (local.get $vec_end)))\n"@ == (("  "@ + "  "@) + "(block $"@) + "vec_done"@ + ("\n"@ + "  "@ + "  "@ + " "@)
        + " (loop $"@ + "vec_continue"@ + ("\n"@ + "  "@ + "  "@ + "  "@ + " "@) + " (br_if $"@
        + "vec_done"@ + " "@ + ("("@ + "i32.eq"@ + " "@ + ("(local.get $"@ + "cur"@ + ")"@) + " "@
        + ("(local.get $"@ + "vec_end"@ + ")"@) + ")"@) + ")"@ + "\n"@,
{
    reveal_strlit("    (block $vec_done\n      (loop $vec_continue\n        (br_if $vec_done (i32.eq (local.get $cur) (local.get $vec_end)))\n");
    reveal_strlit("  ");
    reveal_strlit("(block $");
    reveal_strlit("vec_done");
    reveal_strlit("\n");
    reveal_strlit(" ");
    reveal_strlit(" (loop $");
    reveal_strlit("vec_continue");
    reveal_strlit(" (br_if $");
    reveal_strlit("(");
    reveal_strlit("i32.eq");
    reveal_strlit("(local.get $");
    reveal_strlit("cur");
    reveal_strlit(")");
    reveal_strlit("vec_end");
    assert("    (block $vec_done\n      (loop $vec_continue\n        (br_if $vec_done (i32.eq (local.get $cur) (local.get $vec_end)))\n"@ =~= (("  "@ + "  "@) + "(block $"@) + "vec_done"@ + ("\n"@ + "  "@ + "  "@ + " "@)
        + " (loop $"@ + "vec_continue"@ + ("\n"@ + "  "@ + "  "@ + "  "@ + " "@) + " (br_if $"@
        + "vec_done"@ + " "@ + ("("@ + "i32.eq"@ + " "@ + ("(local.get $"@ + "cur"@ + ")"@) + " "@
        + ("(local.get $"@ + "vec_end"@ + ")"@) + ")"@) + ")"@ + "\n"@);
}

proof fn lemma_count_vec_filled(k: nat)
    ensures
        fill("    (block $vec_done\n      (loop $vec_continue\n        (br_if $vec_done (i32.eq (local.get $cur) (local.get $vec_end)))\n"@, k) == (("  "@ + "  "@) + "(block $"@) + "vec_done"@ + ("\n"@ + "  "@ + "  "@ + " "@)
        + " (loop $"@ + "vec_continue"@ + ("\n"@ + "  "@ + "  "@ + "  "@ + " "@) + " (br_if $"@
        + "vec_done"@ + " "@ + ("("@ + "i32.eq"@ + " "@ + ("(local.get $"@ + "cur"@ + ")"@) + " "@
        + ("(local.get $"@ + "vec_end"@ + ")"@) + ")"@) + ")"@ + "\n"@,
{
    broadcast use lemma_fill_add;

    lemma_count_vec_words();
    lemma_plain_words(k);
}

proof fn lemma_count_vec(k: nat)
    ensures
        squeezed(fill("    (block $vec_done\n      (loop $vec_continue\n        (br_if $vec_done (i32.eq (local.get $cur) (local.get $vec_end)))\n"@, k)) == opening_text("vec_done"@, "vec_continue"@, bin("i32.eq"@, get("cur"@), get("vec_end"@))),
{
    broadcast use {lemma_squeezed_add, lemma_add_nothing, lemma_nothing_add};

    lemma_blank_literals();
    lemma_count_vec_filled(k);
    lemma_get_text("cur"@);
    lemma_get_text("vec_end"@);
    lemma_bin_text("i32.eq"@, get("cur"@), get("vec_end"@));
}

proof fn lemma_count_add_text(k: nat)
    ensures
        squeezed(code_text(count_vec(k))) == squeezed("(local.set $"@) + squeezed("count"@) + (squeezed("("@) + squeezed("i32.add"@)
        + (squeezed("(local.get $"@) + squeezed("count"@) + squeezed(")"@)) + (squeezed("("@)
        + squeezed("i32.popcnt"@) + (squeezed("("@) + squeezed("i8x16.bitmask"@) + (squeezed("("@)
        + squeezed("i8x16.eq"@) + (squeezed("("@) + squeezed("v128.load"@) + squeezed(decimal(k))
        + (squeezed("(local.get $"@) + squeezed("cur"@) + squeezed(")"@)) + squeezed(")"@))
        + (squeezed("(local.get $"@) + squeezed("broadcast"@) + squeezed(")"@)) + squeezed(")"@))
        + squeezed(")"@)) + squeezed(")"@)) + squeezed(")"@)) + squeezed(")"@),
{
    lemma_get_text("count"@);
    lemma_get_text("cur"@);
    lemma_load_text("v128.load"@, k, get("cur"@));
    lemma_get_text("broadcast"@);
    lemma_bin_text("i8x16.eq"@, Term::Load("v128.load"@, k, Box::new(get("cur"@))), get("broadcast"@));
    lemma_un_text("i8x16.bitmask"@, bin("i8x16.eq"@, Term::Load("v128.load"@, k, Box::new(get("cur"@))), get("broadcast"@)));
    lemma_un_text("i32.popcnt"@, un("i8x16.bitmask"@, bin("i8x16.eq"@, Term::Load("v128.load"@, k, Box::new(get("cur"@))), get("broadcast"@))));
    lemma_bin_text("i32.add"@, get("count"@), un("i32.popcnt"@, un("i8x16.bitmask"@, bin("i8x16.eq"@, Term::Load("v128.load"@, k, Box::new(get("cur"@))), get("broadcast"@)))));
    lemma_assign_text("count"@, bin("i32.add"@, get("count"@), un("i32.popcnt"@, un("i8x16.bitmask"@, bin("i8x16.eq"@, Term::Load("v128.load"@, k, Box::new(get("cur"@))), get("broadcast"@))))));
    assert(count_vec(k) == Code::Assign("count"@, bin("i32.add"@, get("count"@), un("i32.popcnt"@, un("i8x16.bitmask"@, bin("i8x16.eq"@, Term::Load("v128.load"@, k, Box::new(get("cur"@))), get("broadcast"@)))))));
}

proof fn lemma_count_add_words()
    ensures
        "        (local.set $count\n          (i32.add (local.get $count)\n            (i32.popcnt\n              (i8x16.bitmask\n                (i8x16.eq\n                  (v128.load @ (local.get $cur))\n                  (local.get $broadcast))))))\n"@ == (("  "@ + "  "@ + "  "@ + "  "@) + "(local.set $"@ + "count"@ + ("\n"@ + "  "@ + "  "@
        + "  "@ + "  "@ + "  "@) + ("("@ + "i32.add"@ + " "@ + ("(local.get $"@ + "count"@ + ")"@)
        + ("\n"@ + "  "@ + "  "@ + "  "@ + "  "@ + "  "@ + "  "@) + ("("@ + "i32.popcnt"@ + ("\n"@
        + "  "@ + "  "@ + "  "@ + "  "@ + "  "@ + "  "@ + "  "@) + ("("@ + "i8x16.bitmask"@
        + ("\n"@ + "  "@ + "  "@ + "  "@ + "  "@ + "  "@ + "  "@ + "  "@ + "  "@) + ("("@
        + "i8x16.eq"@ + ("\n"@ + "  "@ + "  "@ + "  "@ + "  "@ + "  "@ + "  "@ + "  "@ + "  "@
        + "  "@) + ("("@ + "v128.load"@ + " "@ + "@"@ + " "@ + ("(local.get $"@ + "cur"@ + ")"@)
        + ")"@) + ("\n"@ + "  "@ + "  "@ + "  "@ + "  "@ + "  "@ + "  "@ + "  "@ + "  "@ + "  "@)
        + ("(local.get $"@ + "broadcast"@ + ")"@) + ")"@) + ")"@) + ")"@) + ")"@) + ")"@) + "\n"@,
{
    reveal_strlit("        (local.set $count\n          (i32.add (local.get $count)\n            (i32.popcnt\n              (i8x16.bitmask\n                (i8x16.eq\n                  (v128.load @ (local.get $cur))\n                  (local.get $broadcast))))))\n");
    reveal_strlit("  ");
    reveal_strlit("(local.set $");
    reveal_strlit("count");
    reveal_strlit("\n");
    reveal_strlit("(");
    reveal_strlit("i32.add");
    reveal_strlit(" ");
    reveal_strlit("(local.get $");
    reveal_strlit(")");
    reveal_strlit("i32.popcnt");
    reveal_strlit("i8x16.bitmask");
    reveal_strlit("i8x16.eq");
    reveal_strlit("v128.load");
    reveal_strlit("@");
    reveal_strlit("cur");
    reveal_strlit("broadcast");
    assert("        (local.set $count\n          (i32.add (local.get $count)\n            (i32.popcnt\n              (i8x16.bitmask\n                (i8x16.eq\n                  (v128.load @ (local.get $cur))\n                  (local.get $broadcast))))))\n"@ =~= (("  "@ + "  "@ + "  "@ + "  "@) + "(local.set $"@ + "count"@ + ("\n"@ + "  "@ + "  "@
        + "  "@ + "  "@ + "  "@) + ("("@ + "i32.add"@ + " "@ + ("(local.get $"@ + "count"@ + ")"@)
        + ("\n"@ + "  "@ + "  "@ + "  "@ + "  "@ + "  "@ + "  "@) + ("("@ + "i32.popcnt"@ + ("\n"@
        + "  "@ + "  "@ + "  "@ + "  "@ + "  "@ + "  "@ + "  "@) + ("("@ + "i8x16.bitmask"@
        + ("\n"@ + "  "@ + "  "@ + "  "@ + "  "@ + "  "@ + "  "@ + "  "@ + "  "@) + ("("@
        + "i8x16.eq"@ + ("\n"@ + "  "@ + "  "@ + "  "@ + "  "@ + "  "@ + "  "@ + "  "@ + "  "@
        + "  "@) + ("("@ + "v128.load"@ + " "@ + "@"@ + " "@ + ("(local.get $"@ + "cur"@ + ")"@)
        + ")"@) + ("\n"@ + "  "@ + "  "@ + "  "@ + "  "@ + "  "@ + "  "@ + "  "@ + "  "@ + "  "@)
        + ("(local.get $"@ + "broadcast"@ + ")"@) + ")"@) + ")"@) + ")"@) + ")"@) + ")"@) + "\n"@);
}

proof fn lemma_count_add_filled(k: nat)
    ensures
        fill("        (local.set $count\n          (i32.add (local.get $count)\n            (i32.popcnt\n              (i8x16.bitmask\n                (i8x16.eq\n                  (v128.load @ (local.get $cur))\n                  (local.get $broadcast))))))\n"@, k) == (("  "@ + "  "@ + "  "@ + "  "@) + "(local.set $"@ + "count"@ + ("\n"@ + "  "@ + "  "@
        + "  "@ + "  "@ + "  "@) + ("("@ + "i32.add"@ + " "@ + ("(local.get $"@ + "count"@ + ")"@)
        + ("\n"@ + "  "@ + "  "@ + "  "@ + "  "@ + "  "@ + "  "@) + ("("@ + "i32.popcnt"@ + ("\n"@
        + "  "@ + "  "@ + "  "@ + "  "@ + "  "@ + "  "@ + "  "@) + ("("@ + "i8x16.bitmask"@
        + ("\n"@ + "  "@ + "  "@ + "  "@ + "  "@ + "  "@ + "  "@ + "  "@ + "  "@) + ("("@
        + "i8x16.eq"@ + ("\n"@ + "  "@ + "  "@ + "  "@ + "  "@ + "  "@ + "  "@ + "  "@ + "  "@
        + "  "@) + ("("@ + "v128.load"@ + " "@ + decimal(k) + " "@ + ("(local.get $"@ + "cur"@
        + ")"@) + ")"@) + ("\n"@ + "  "@ + "  "@ + "  "@ + "  "@ + "  "@ + "  "@ + "  "@ + "  "@
        + "  "@) + ("(local.get $"@ + "broadcast"@ + ")"@) + ")"@) + ")"@) + ")"@) + ")"@) + ")"@)
        + "\n"@,
{
    broadcast use lemma_fill_add;

    lemma_count_add_words();
    lemma_plain_words(k);
    lemma_fill_place(k);
}

proof fn lemma_count_add(k: nat)
    ensures
        squeezed(fill("        (local.set $count\n          (i32.add (local.get $count)\n            (i32.popcnt\n              (i8x16.bitmask\n                (i8x16.eq\n                  (v128.load @ (local.get $cur))\n                  (local.get $broadcast))))))\n"@, k)) == squeezed(code_text(count_vec(k))),
{
    broadcast use {lemma_squeezed_add, lemma_add_nothing, lemma_nothing_add};

    lemma_blank_literals();
    lemma_count_add_filled(k);
    lemma_count_add_text(k);
}

proof fn lemma_count_step_text(k: nat)
    ensures
        squeezed(code_text(step_by("16"@))) == squeezed("(local.set $"@) + squeezed("cur"@) + (squeezed("("@) + squeezed("i32.add"@)
        + (squeezed("(local.get $"@) + squeezed("cur"@) + squeezed(")"@)) + (squeezed("("@)
        + squeezed("i32.const"@) + squeezed("16"@) + squeezed(")"@)) + squeezed(")"@))
        + squeezed(")"@),
{
    lemma_get_text("cur"@);
    lemma_lit_text("i32.const"@, "16"@);
    lemma_bin_text("i32.add"@, get("cur"@), Term::Lit("i32.const"@, "16"@));
    lemma_assign_text("cur"@, bin("i32.add"@, get("cur"@), Term::Lit("i32.const"@, "16"@)));
    assert(step_by("16"@) == Code::Assign("cur"@, bin("i32.add"@, get("cur"@), Term::Lit("i32.const"@, "16"@))));
}

proof fn lemma_count_step_words()
    ensures
        "        (local.set $cur (i32.add (local.get $cur) (i32.const 16)))\n"@ == (("  "@ + "  "@ + "  "@ + "  "@) + "(local.set $"@ + "cur"@ + " "@ + ("("@ + "i32.add"@
        + " "@ + ("(local.get $"@ + "cur"@ + ")"@) + " "@ + ("("@ + "i32.const"@ + " "@ + "16"@
        + ")"@) + ")"@) + ")"@) + "\n"@,
{
    reveal_strlit("        (local.set $cur (i32.add (local.get $cur) (i32.const 16)))\n");
    reveal_strlit("  ");
    reveal_strlit("(local.set $");
    reveal_strlit("cur");
    reveal_strlit(" ");
    reveal_strlit("(");
    reveal_strlit("i32.add");
    reveal_strlit("(local.get $");
    reveal_strlit(")");
    reveal_strlit("i32.const");
    reveal_strlit("16");
    reveal_strlit("\n");
    assert("        (local.set $cur (i32.add (local.get $cur) (i32.const 16)))\n"@ =~= (("  "@ + "  "@ + "  "@ + "  "@) + "(local.set $"@ + "cur"@ + " "@ + ("("@ + "i32.add"@
        + " "@ + ("(local.get $"@ + "cur"@ + ")"@) + " "@ + ("("@ + "i32.const"@ + " "@ + "16"@
        + ")"@) + ")"@) + ")"@) + "\n"@);
}

proof fn lemma_count_step_filled(k: nat)
    ensures
        fill("        (local.set $cur (i32.add (local.get $cur) (i32.const 16)))\n"@, k) == (("  "@ + "  "@ + "  "@ + "  "@) + "(local.set $"@ + "cur"@ + " "@ + ("("@ + "i32.add"@
        + " "@ + ("(local.get $"@ + "cur"@ + ")"@) + " "@ + ("("@ + "i32.const"@ + " "@ + "16"@
        + ")"@) + ")"@) + ")"@) + "\n"@,
{
    broadcast use lemma_fill_add;

    lemma_count_step_words();
    lemma_plain_words(k);
}

proof fn lemma_count_step(k: nat)
    ensures
        squeezed(fill("        (local.set $cur (i32.add (local.get $cur) (i32.const 16)))\n"@, k)) == squeezed(code_text(step_by("16"@))),
{
    broadcast use {lemma_squeezed_add, lemma_add_nothing, lemma_nothing_add};

    lemma_blank_literals();
    lemma_count_step_filled(k);
    lemma_count_step_text(k);
}

proof fn lemma_count_again_words()
    ensures
        "        (br $vec_continue)))\n"@ == (("  "@ + "  "@ + "  "@ + "  "@) + "(br $"@) + "vec_continue"@ + ")"@ + ")"@ + ")"@
        + "\n"@,
{
    reveal_strlit("        (br $vec_continue)))\n");
    reveal_strlit("  ");
    reveal_strlit("(br $");
    reveal_strlit("vec_continue");
    reveal_strlit(")");
    reveal_strlit("\n");
    assert("        (br $vec_continue)))\n"@ =~= (("  "@ + "  "@ + "  "@ + "  "@) + "(br $"@) + "vec_continue"@ + ")"@ + ")"@ + ")"@
        + "\n"@);
}

proof fn lemma_count_again_filled(k: nat)
    ensures
        fill("        (br $vec_continue)))\n"@, k) == (("  "@ + "  "@ + "  "@ + "  "@) + "(br $"@) + "vec_continue"@ + ")"@ + ")"@ + ")"@
        + "\n"@,
{
    broadcast use lemma_fill_add;

    lemma_count_again_words();
    lemma_plain_words(k);
}

proof fn lemma_count_again(k: nat)
    ensures
        squeezed(fill("        (br $vec_continue)))\n"@, k)) == closing_text("vec_continue"@),
{
    broadcast use {lemma_squeezed_add, lemma_add_nothing, lemma_nothing_add};

    lemma_blank_literals();
    lemma_count_again_filled(k);
}

proof fn lemma_count_tail_words()
    ensures
        "    (block $tail_done\n      (loop $tail_continue\n        (br_if $tail_done (i32.eq (local.get $cur) (local.get $end)))\n"@ == (("  "@ + "  "@) + "(block $"@) + "tail_done"@ + ("\n"@ + "  "@ + "  "@ + " "@)
        + " (loop $"@ + "tail_continue"@ + ("\n"@ + "  "@ + "  "@ + "  "@ + " "@) + " (br_if $"@
        + "tail_done"@ + " "@ + ("("@ + "i32.eq"@ + " "@ + ("(local.get $"@ + "cur"@ + ")"@)
        + " "@ + ("(local.get $"@ + "end"@ + ")"@) + ")"@) + ")"@ + "\n"@,
{
    reveal_strlit("    (block $tail_done\n      (loop $tail_continue\n        (br_if $tail_done (i32.eq (local.get $cur) (local.get $end)))\n");
    reveal_strlit("  ");
    reveal_strlit("(block $");
    reveal_strlit("tail_done");
    reveal_strlit("\n");
    reveal_strlit(" ");
    reveal_strlit(" (loop $");
    reveal_strlit("tail_continue");
    reveal_strlit(" (br_if $");
    reveal_strlit("(");
    reveal_strlit("i32.eq");
    reveal_strlit("(local.get $");
    reveal_strlit("cur");
    reveal_strlit(")");
    reveal_strlit("end");
    assert("    (block $tail_done\n      (loop $tail_continue\n        (br_if $tail_done (i32.eq (local.get $cur) (local.get $end)))\n"@ =~= (("  "@ + "  "@) + "(block $"@) + "tail_done"@ + ("\n"@ + "  "@ + "  "@ + " "@)
        + " (loop $"@ + "tail_continue"@ + ("\n"@ + "  "@ + "  "@ + "  "@ + " "@) + " (br_if $"@
        + "tail_done"@ + " "@ + ("("@ + "i32.eq"@ + " "@ + ("(local.get $"@ + "cur"@ + ")"@)
        + " "@ + ("(local.get $"@ + "end"@ + ")"@) + ")"@) + ")"@ + "\n"@);
}

proof fn lemma_count_tail_filled(k: nat)
    ensures
        fill("    (block $tail_done\n      (loop $tail_continue\n        (br_if $tail_done (i32.eq (local.get $cur) (local.get $end)))\n"@, k) == (("  "@ + "  "@) + "(block $"@) + "tail_done"@ + ("\n"@ + "  "@ + "  "@ + " "@)
        + " (loop $"@ + "tail_continue"@ + ("\n"@ + "  "@ + "  "@ + "  "@ + " "@) + " (br_if $"@
        + "tail_done"@ + " "@ + ("("@ + "i32.eq"@ + " "@ + ("(local.get $"@ + "cur"@ + ")"@)
        + " "@ + ("(local.get $"@ + "end"@ + ")"@) + ")"@) + ")"@ + "\n"@,
{
    broadcast use lemma_fill_add;

    lemma_count_tail_words();
    lemma_plain_words(k);
}

proof fn lemma_count_tail(k: nat)
    ensures
        squeezed(fill("    (block $tail_done\n      (loop $tail_continue\n        (br_if $tail_done (i32.eq (local.get $cur) (local.get $end)))\n"@, k)) == opening_text("tail_done"@, "tail_continue"@, bin("i32.eq"@, get("cur"@), get("end"@))),
{
    broadcast use {lemma_squeezed_add, lemma_add_nothing, lemma_nothing_add};

    lemma_blank_literals();
    lemma_count_tail_filled(k);
    lemma_get_text("cur"@);
    lemma_get_text("end"@);
    lemma_bin_text("i32.eq"@, get("cur"@), get("end"@));
}

proof fn lemma_count_same_words()
    ensures
        "        (if (i32.eq (i32.load8_u @ (local.get $cur)) (local.get $byte))\n          (then"@ == (("  "@ + "  "@ + "  "@ + "  "@) + "(if "@) + ("("@ + "i32.eq"@ + " "@ + ("("@
        + "i32.load8_u"@ + " "@ + "@"@ + " "@ + ("(local.get $"@ + "cur"@ + ")"@) + ")"@) + " "@
        + ("(local.get $"@ + "byte"@ + ")"@) + ")"@) + ("\n"@ + "  "@ + "  "@ + "  "@ + "  "@
        + " "@) + " (then"@,
{
    reveal_strlit("        (if (i32.eq (i32.load8_u @ (local.get $cur)) (local.get $byte))\n          (then");
    reveal_strlit("  ");
    reveal_strlit("(if ");
    reveal_strlit("(");
    reveal_strlit("i32.eq");
    reveal_strlit(" ");
    reveal_strlit("i32.load8_u");
    reveal_strlit("@");
    reveal_strlit("(local.get $");
    reveal_strlit("cur");
    reveal_strlit(")");
    reveal_strlit("byte");
    reveal_strlit("\n");
    reveal_strlit(" (then");
    assert("        (if (i32.eq (i32.load8_u @ (local.get $cur)) (local.get $byte))\n          (then"@ =~= (("  "@ + "  "@ + "  "@ + "  "@) + "(if "@) + ("("@ + "i32.eq"@ + " "@ + ("("@
        + "i32.load8_u"@ + " "@ + "@"@ + " "@ + ("(local.get $"@ + "cur"@ + ")"@) + ")"@) + " "@
        + ("(local.get $"@ + "byte"@ + ")"@) + ")"@) + ("\n"@ + "  "@ + "  "@ + "  "@ + "  "@
        + " "@) + " (then"@);
}

proof fn lemma_count_same_filled(k: nat)
    ensures
        fill("        (if (i32.eq (i32.load8_u @ (local.get $cur)) (local.get $byte))\n          (then"@, k) == (("  "@ + "  "@ + "  "@ + "  "@) + "(if "@) + ("("@ + "i32.eq"@ + " "@ + ("("@
        + "i32.load8_u"@ + " "@ + decimal(k) + " "@ + ("(local.get $"@ + "cur"@ + ")"@) + ")"@)
        + " "@ + ("(local.get $"@ + "byte"@ + ")"@) + ")"@) + ("\n"@ + "  "@ + "  "@ + "  "@
        + "  "@ + " "@) + " (then"@,
{
    broadcast use lemma_fill_add;

    lemma_count_same_words();
    lemma_plain_words(k);
    lemma_fill_place(k);
}

proof fn lemma_count_same(k: nat)
    ensures
        squeezed(fill("        (if (i32.eq (i32.load8_u @ (local.get $cur)) (local.get $byte))\n          (then"@, k)) == if_text(is_byte(k)),
{
    broadcast use {lemma_squeezed_add, lemma_add_nothing, lemma_nothing_add};

    lemma_blank_literals();
    lemma_count_same_filled(k);
    lemma_get_text("cur"@);
    lemma_load_text("i32.load8_u"@, k, get("cur"@));
    lemma_get_text("byte"@);
    lemma_bin_text("i32.eq"@, Term::Load("i32.load8_u"@, k, Box::new(get("cur"@))), get("byte"@));
    lemma_then_word();
}

proof fn lemma_count_one_text(k: nat)
    ensures
        squeezed(code_text(count_one())) == squeezed("(local.set $"@) + squeezed("count"@) + (squeezed("("@) + squeezed("i32.add"@)
        + (squeezed("(local.get $"@) + squeezed("count"@) + squeezed(")"@)) + (squeezed("("@)
        + squeezed("i32.const"@) + squeezed("1"@) + squeezed(")"@)) + squeezed(")"@))
        + squeezed(")"@),
{
    lemma_get_text("count"@);
    lemma_lit_text("i32.const"@, "1"@);
    lemma_bin_text("i32.add"@, get("count"@), Term::Lit("i32.const"@, "1"@));
    lemma_assign_text("count"@, bin("i32.add"@, get("count"@), Term::Lit("i32.const"@, "1"@)));
    assert(count_one() == Code::Assign("count"@, bin("i32.add"@, get("count"@), Term::Lit("i32.const"@, "1"@))));
}

proof fn lemma_count_one_words()
    ensures
        " (local.set $count (i32.add (local.get $count) (i32.const 1)))"@ == " "@ + "(local.set $"@ + "count"@ + " "@ + ("("@ + "i32.add"@ + " "@ + ("(local.get $"@
        + "count"@ + ")"@) + " "@ + ("("@ + "i32.const"@ + " "@ + "1"@ + ")"@) + ")"@) + ")"@,
{
    reveal_strlit(" (local.set $count (i32.add (local.get $count) (i32.const 1)))");
    reveal_strlit(" ");
    reveal_strlit("(local.set $");
    reveal_strlit("count");
    reveal_strlit("(");
    reveal_strlit("i32.add");
    reveal_strlit("(local.get $");
    reveal_strlit(")");
    reveal_strlit("i32.const");
    reveal_strlit("1");
    assert(" (local.set $count (i32.add (local.get $count) (i32.const 1)))"@ =~= " "@ + "(local.set $"@ + "count"@ + " "@ + ("("@ + "i32.add"@ + " "@ + ("(local.get $"@
        + "count"@ + ")"@) + " "@ + ("("@ + "i32.const"@ + " "@ + "1"@ + ")"@) + ")"@) + ")"@);
}

proof fn lemma_count_one_filled(k: nat)
    ensures
        fill(" (local.set $count (i32.add (local.get $count) (i32.const 1)))"@, k) == " "@ + "(local.set $"@ + "count"@ + " "@ + ("("@ + "i32.add"@ + " "@ + ("(local.get $"@
        + "count"@ + ")"@) + " "@ + ("("@ + "i32.const"@ + " "@ + "1"@ + ")"@) + ")"@) + ")"@,
{
    broadcast use lemma_fill_add;

    lemma_count_one_words();
    lemma_plain_words(k);
}

proof fn lemma_count_one(k: nat)
    ensures
        squeezed(fill(" (local.set $count (i32.add (local.get $count) (i32.const 1)))"@, k)) == squeezed(code_text(count_one())),
{
    broadcast use {lemma_squeezed_add, lemma_add_nothing, lemma_nothing_add};

    lemma_blank_literals();
    lemma_count_one_filled(k);
    lemma_count_one_text(k);
}

proof fn lemma_count_fi_words()
    ensures
        "))\n"@ == ")"@ + ")"@ + "\n"@,
{
    reveal_strlit("))\n");
    reveal_strlit(")");
    reveal_strlit("\n");
    assert("))\n"@ =~= ")"@ + ")"@ + "\n"@);
}

proof fn lemma_count_fi_filled(k: nat)
    ensures
        fill("))\n"@, k) == ")"@ + ")"@ + "\n"@,
{
    broadcast use lemma_fill_add;

    lemma_count_fi_words();
    lemma_plain_words(k);
}

proof fn lemma_count_fi(k: nat)
    ensures
        squeezed(fill("))\n"@, k)) == squeezed(")"@) + squeezed(")"@),
{
    broadcast use {lemma_squeezed_add, lemma_add_nothing, lemma_nothing_add};

    lemma_blank_literals();
    lemma_count_fi_filled(k);
}

proof fn lemma_count_next_text(k: nat)
    ensures
        squeezed(code_text(step_by("1"@))) == squeezed("(local.set $"@) + squeezed("cur"@) + (squeezed("("@) + squeezed("i32.add"@)
        + (squeezed("(local.get $"@) + squeezed("cur"@) + squeezed(")"@)) + (squeezed("("@)
        + squeezed("i32.const"@) + squeezed("1"@) + squeezed(")"@)) + squeezed(")"@))
        + squeezed(")"@),
{
    lemma_get_text("cur"@);
    lemma_lit_text("i32.const"@, "1"@);
    lemma_bin_text("i32.add"@, get("cur"@), Term::Lit("i32.const"@, "1"@));
    lemma_assign_text("cur"@, bin("i32.add"@, get("cur"@), Term::Lit("i32.const"@, "1"@)));
    assert(step_by("1"@) == Code::Assign("cur"@, bin("i32.add"@, get("cur"@), Term::Lit("i32.const"@, "1"@))));
}

proof fn lemma_count_next_words()
    ensures
        "        (local.set $cur (i32.add (local.get $cur) (i32.const 1)))\n"@ == (("  "@ + "  "@ + "  "@ + "  "@) + "(local.set $"@ + "cur"@ + " "@ + ("("@ + "i32.add"@
        + " "@ + ("(local.get $"@ + "cur"@ + ")"@) + " "@ + ("("@ + "i32.const"@ + " "@ + "1"@
        + ")"@) + ")"@) + ")"@) + "\n"@,
{
    reveal_strlit("        (local.set $cur (i32.add (local.get $cur) (i32.const 1)))\n");
    reveal_strlit("  ");
    reveal_strlit("(local.set $");
    reveal_strlit("cur");
    reveal_strlit(" ");
    reveal_strlit("(");
    reveal_strlit("i32.add");
    reveal_strlit("(local.get $");
    reveal_strlit(")");
    reveal_strlit("i32.const");
    reveal_strlit("1");
    reveal_strlit("\n");
    assert("        (local.set $cur (i32.add (local.get $cur) (i32.const 1)))\n"@ =~= (("  "@ + "  "@ + "  "@ + "  "@) + "(local.set $"@ + "cur"@ + " "@ + ("("@ + "i32.add"@
        + " "@ + ("(local.get $"@ + "cur"@ + ")"@) + " "@ + ("("@ + "i32.const"@ + " "@ + "1"@
        + ")"@) + ")"@) + ")"@) + "\n"@);
}

proof fn lemma_count_next_filled(k: nat)
    ensures
        fill("        (local.set $cur (i32.add (local.get $cur) (i32.const 1)))\n"@, k) == (("  "@ + "  "@ + "  "@ + "  "@) + "(local.set $"@ + "cur"@ + " "@ + ("("@ + "i32.add"@
        + " "@ + ("(local.get $"@ + "cur"@ + ")"@) + " "@ + ("("@ + "i32.const"@ + " "@ + "1"@
        + ")"@) + ")"@) + ")"@) + "\n"@,
{
    broadcast use lemma_fill_add;

    lemma_count_next_words();
    lemma_plain_words(k);
}

proof fn lemma_count_next(k: nat)
    ensures
        squeezed(fill("        (local.set $cur (i32.add (local.get $cur) (i32.const 1)))\n"@, k)) == squeezed(code_text(step_by("1"@))),
{
    broadcast use {lemma_squeezed_add, lemma_add_nothing, lemma_nothing_add};

    lemma_blank_literals();
    lemma_count_next_filled(k);
    lemma_count_next_text(k);
}

proof fn lemma_count_back_words()
    ensures
        "        (br $tail_continue)))\n"@ == (("  "@ + "  "@ + "  "@ + "  "@) + "(br $"@) + "tail_continue"@ + ")"@ + ")"@ + ")"@
        + "\n"@,
{
    reveal_strlit("        (br $tail_continue)))\n");
    reveal_strlit("  ");
    reveal_strlit("(br $");
    reveal_strlit("tail_continue");
    reveal_strlit(")");
    reveal_strlit("\n");
    assert("        (br $tail_continue)))\n"@ =~= (("  "@ + "  "@ + "  "@ + "  "@) + "(br $"@) + "tail_continue"@ + ")"@ + ")"@ + ")"@
        + "\n"@);
}

proof fn lemma_count_back_filled(k: nat)
    ensures
        fill("        (br $tail_continue)))\n"@, k) == (("  "@ + "  "@ + "  "@ + "  "@) + "(br $"@) + "tail_continue"@ + ")"@ + ")"@ + ")"@
        + "\n"@,
{
    broadcast use lemma_fill_add;

    lemma_count_back_words();
    lemma_plain_words(k);
}

proof fn lemma_count_back(k: nat)
    ensures
        squeezed(fill("        (br $tail_continue)))\n"@, k)) == closing_text("tail_continue"@),
{
    broadcast use {lemma_squeezed_add, lemma_add_nothing, lemma_nothing_add};

    lemma_blank_literals();
    lemma_count_back_filled(k);
}

proof fn lemma_count_value_words()
    ensures
        "    (local.get $count))\n"@ == ((("  "@ + "  "@) + "(local.get $"@) + "count"@ + ")"@) + ")"@ + "\n"@,
{
    reveal_strlit("    (local.get $count))\n");
    reveal_strlit("  ");
    reveal_strlit("(local.get $");
    reveal_strlit("count");
    reveal_strlit(")");
    reveal_strlit("\n");
    assert("    (local.get $count))\n"@ =~= ((("  "@ + "  "@) + "(local.get $"@) + "count"@ + ")"@) + ")"@ + "\n"@);
}

proof fn lemma_count_value_filled(k: nat)
    ensures
        fill("    (local.get $count))\n"@, k) == ((("  "@ + "  "@) + "(local.get $"@) + "count"@ + ")"@) + ")"@ + "\n"@,
{
    broadcast use lemma_fill_add;

    lemma_count_value_words();
    lemma_plain_words(k);
}

proof fn lemma_count_value(k: nat)
    ensures
        squeezed(fill("    (local.get $count))\n"@, k)) == squeezed(term_text(get("count"@))) + squeezed(")"@),
{
    broadcast use {lemma_squeezed_add, lemma_add_nothing, lemma_nothing_add};

    lemma_blank_literals();
    lemma_count_value_filled(k);
    lemma_get_text("count"@);
}

#[verifier::rlimit(100)]
proof fn lemma_count_template()
    ensures
        SIMD_COUNT_BYTE@ == "  (func $tvm_simd_count_byte_p@ (export \"tvm_simd_count_byte_p@\")\n        (param $off i32) (param $len i32) (param $byte i32) (result i32)\n    (local $cur i32) (local $end i32) (local $vec_end i32)\n    (local $broadcast v128) (local $count i32)\n"@
        + "    (local.set $cur (local.get $off))\n"@
        + "    (local.set $end (i32.add (local.get $off) (local.get $len)))\n"@
        + "    (local.set $vec_end\n      (i32.add (local.get $off)\n               (i32.and (local.get $len) (i32.const -16))))\n"@
        + "    (local.set $broadcast (i8x16.splat (local.get $byte)))\n"@
        + "    (block $vec_done\n      (loop $vec_continue\n        (br_if $vec_done (i32.eq (local.get $cur) (local.get $vec_end)))\n"@
        + "        (local.set $count\n          (i32.add (local.get $count)\n            (i32.popcnt\n              (i8x16.bitmask\n                (i8x16.eq\n                  (v128.load @ (local.get $cur))\n                  (local.get $broadcast))))))\n"@
        + "        (local.set $cur (i32.add (local.get $cur) (i32.const 16)))\n"@
        + "        (br $vec_continue)))\n"@
        + "    (block $tail_done\n      (loop $tail_continue\n        (br_if $tail_done (i32.eq (local.get $cur) (local.get $end)))\n"@
        + "        (if (i32.eq (i32.load8_u @ (local.get $cur)) (local.get $byte))\n          (then"@
        + " (local.set $count (i32.add (local.get $count) (i32.const 1)))"@ + "))\n"@
        + "        (local.set $cur (i32.add (local.get $cur) (i32.const 1)))\n"@
        + "        (br $tail_continue)))\n"@ + "    (local.get $count))\n"@,
{
    reveal_strlit("  (func $tvm_simd_count_byte_p@ (export \"tvm_simd_count_byte_p@\")\n        (param $off i32) (param $len i32) (param $byte i32) (result i32)\n    (local $cur i32) (local $end i32) (local $vec_end i32)\n    (local $broadcast v128) (local $count i32)\n");
    reveal_strlit("    (local.set $cur (local.get $off))\n");
    reveal_strlit("    (local.set $end (i32.add (local.get $off) (local.get $len)))\n");
    reveal_strlit("    (local.set $vec_end\n      (i32.add (local.get $off)\n               (i32.and (local.get $len) (i32.const -16))))\n");
    reveal_strlit("    (local.set $broadcast (i8x16.splat (local.get $byte)))\n");
    reveal_strlit("    (block $vec_done\n      (loop $vec_continue\n        (br_if $vec_done (i32.eq (local.get $cur) (local.get $vec_end)))\n");
    reveal_strlit("        (local.set $count\n          (i32.add (local.get $count)\n            (i32.popcnt\n              (i8x16.bitmask\n                (i8x16.eq\n                  (v128.load @ (local.get $cur))\n                  (local.get $broadcast))))))\n");
    reveal_strlit("        (local.set $cur (i32.add (local.get $cur) (i32.const 16)))\n");
    reveal_strlit("        (br $vec_continue)))\n");
    reveal_strlit("    (block $tail_done\n      (loop $tail_continue\n        (br_if $tail_done (i32.eq (local.get $cur) (local.get $end)))\n");
    reveal_strlit("        (if (i32.eq (i32.load8_u @ (local.get $cur)) (local.get $byte))\n          (then");
    reveal_strlit(" (local.set $count (i32.add (local.get $count) (i32.const 1)))");
    reveal_strlit("))\n");
    reveal_strlit("        (local.set $cur (i32.add (local.get $cur) (i32.const 1)))\n");
    reveal_strlit("        (br $tail_continue)))\n");
    reveal_strlit("    (local.get $count))\n");
    reveal_strlit(r#"  (func $tvm_simd_count_byte_p@ (export "tvm_simd_count_byte_p@")
        (param $off i32) (param $len i32) (param $byte i32) (result i32)
    (local $cur i32) (local $end i32) (local $vec_end i32)
    (local $broadcast v128) (local $count i32)
    (local.set $cur (local.get $off))
    (local.set $end (i32.add (local.get $off) (local.get $len)))
    (local.set $vec_end
      (i32.add (local.get $off)
               (i32.and (local.get $len) (i32.const -16))))
    (local.set $broadcast (i8x16.splat (local.get $byte)))
    (block $vec_done
      (loop $vec_continue
        (br_if $vec_done (i32.eq (local.get $cur) (local.get $vec_end)))
        (local.set $count
          (i32.add (local.get $count)
            (i32.popcnt
              (i8x16.bitmask
                (i8x16.eq
                  (v128.load @ (local.get $cur))
                  (local.get $broadcast))))))
        (local.set $cur (i32.add (local.get $cur) (i32.const 16)))
        (br $vec_continue)))
    (block $tail_done
      (loop $tail_continue
        (br_if $tail_done (i32.eq (local.get $cur) (local.get $end)))
        (if (i32.eq (i32.load8_u @ (local.get $cur)) (local.get $byte))
          (then (local.set $count (i32.add (local.get $count) (i32.const 1)))))
        (local.set $cur (i32.add (local.get $cur) (i32.const 1)))
        (br $tail_continue)))
    (local.get $count))
"#);
    assert(SIMD_COUNT_BYTE@ =~= "  (func $tvm_simd_count_byte_p@ (export \"tvm_simd_count_byte_p@\")\n        (param $off i32) (param $len i32) (param $byte i32) (result i32)\n    (local $cur i32) (local $end i32) (local $vec_end i32)\n    (local $broadcast v128) (local $count i32)\n"@
        + "    (local.set $cur (local.get $off))\n"@
        + "    (local.set $end (i32.add (local.get $off) (local.get $len)))\n"@
        + "    (local.set $vec_end\n      (i32.add (local.get $off)\n               (i32.and (local.get $len) (i32.const -16))))\n"@
        + "    (local.set $broadcast (i8x16.splat (local.get $byte)))\n"@
        + "    (block $vec_done\n      (loop $vec_continue\n        (br_if $vec_done (i32.eq (local.get $cur) (local.get $vec_end)))\n"@
        + "        (local.set $count\n          (i32.add (local.get $count)\n            (i32.popcnt\n              (i8x16.bitmask\n                (i8x16.eq\n                  (v128.load @ (local.get $cur))\n                  (local.get $broadcast))))))\n"@
        + "        (local.set $cur (i32.add (local.get $cur) (i32.const 16)))\n"@
        + "        (br $vec_continue)))\n"@
        + "    (block $tail_done\n      (loop $tail_continue\n        (br_if $tail_done (i32.eq (local.get $cur) (local.get $end)))\n"@
        + "        (if (i32.eq (i32.load8_u @ (local.get $cur)) (local.get $byte))\n          (then"@
        + " (local.set $count (i32.add (local.get $count) (i32.const 1)))"@ + "))\n"@
        + "        (local.set $cur (i32.add (local.get $cur) (i32.const 1)))\n"@
        + "        (br $tail_continue)))\n"@ + "    (local.get $count))\n"@);
}

proof fn lemma_count_fill(k: nat)
    ensures
        fill(SIMD_COUNT_BYTE@, k) == fill("  (func $tvm_simd_count_byte_p@ (export \"tvm_simd_count_byte_p@\")\n        (param $off i32) (param $len i32) (param $byte i32) (result i32)\n    (local $cur i32) (local $end i32) (local $vec_end i32)\n    (local $broadcast v128) (local $count i32)\n"@, k)
        + fill("    (local.set $cur (local.get $off))\n"@, k)
        + fill("    (local.set $end (i32.add (local.get $off) (local.get $len)))\n"@, k)
        + fill("    (local.set $vec_end\n      (i32.add (local.get $off)\n               (i32.and (local.get $len) (i32.const -16))))\n"@, k)
        + fill("    (local.set $broadcast (i8x16.splat (local.get $byte)))\n"@, k)
        + fill("    (block $vec_done\n      (loop $vec_continue\n        (br_if $vec_done (i32.eq (local.get $cur) (local.get $vec_end)))\n"@, k)
        + fill("        (local.set $count\n          (i32.add (local.get $count)\n            (i32.popcnt\n              (i8x16.bitmask\n                (i8x16.eq\n                  (v128.load @ (local.get $cur))\n                  (local.get $broadcast))))))\n"@, k)
        + fill("        (local.set $cur (i32.add (local.get $cur) (i32.const 16)))\n"@, k)
        + fill("        (br $vec_continue)))\n"@, k)
        + fill("    (block $tail_done\n      (loop $tail_continue\n        (br_if $tail_done (i32.eq (local.get $cur) (local.get $end)))\n"@, k)
        + fill("        (if (i32.eq (i32.load8_u @ (local.get $cur)) (local.get $byte))\n          (then"@, k)
        + fill(" (local.set $count (i32.add (local.get $count) (i32.const 1)))"@, k)
        + fill("))\n"@, k)
        + fill("        (local.set $cur (i32.add (local.get $cur) (i32.const 1)))\n"@, k)
        + fill("        (br $tail_continue)))\n"@, k) + fill("    (local.get $count))\n"@, k),
{
    broadcast use lemma_fill_add;

    lemma_count_template();
}

proof fn lemma_count_kernel_text(k: nat)
    ensures
        squeezed(fill(SIMD_COUNT_BYTE@, k)) == squeezed(kernel_text(kernel("tvm_simd_count_byte_p"@, k))),
{
    lemma_count_fill(k);
    let p0 = fill("  (func $tvm_simd_count_byte_p@ (export \"tvm_simd_count_byte_p@\")\n        (param $off i32) (param $len i32) (param $byte i32) (result i32)\n    (local $cur i32) (local $end i32) (local $vec_end i32)\n    (local $broadcast v128) (local $count i32)\n"@, k);
    lemma_count_head(k);
    let p1 = fill("    (local.set $cur (local.get $off))\n"@, k);
    lemma_count_cur(k);
    let p2 = fill("    (local.set $end (i32.add (local.get $off) (local.get $len)))\n"@, k);
    lemma_count_end(k);
    let p3 = fill("    (local.set $vec_end\n      (i32.add (local.get $off)\n               (i32.and (local.get $len) (i32.const -16))))\n"@, k);
    lemma_count_vec_end(k);
    let p4 = fill("    (local.set $broadcast (i8x16.splat (local.get $byte)))\n"@, k);
    lemma_count_spread(k);
    let p5 = fill("    (block $vec_done\n      (loop $vec_continue\n        (br_if $vec_done (i32.eq (local.get $cur) (local.get $vec_end)))\n"@, k);
    lemma_count_vec(k);
    let p6 = fill("        (local.set $count\n          (i32.add (local.get $count)\n            (i32.popcnt\n              (i8x16.bitmask\n                (i8x16.eq\n                  (v128.load @ (local.get $cur))\n                  (local.get $broadcast))))))\n"@, k);
    lemma_count_add(k);
    let p7 = fill("        (local.set $cur (i32.add (local.get $cur) (i32.const 16)))\n"@, k);
    lemma_count_step(k);
    let p8 = fill("        (br $vec_continue)))\n"@, k);
    lemma_count_again(k);
    let p9 = fill("    (block $tail_done\n      (loop $tail_continue\n        (br_if $tail_done (i32.eq (local.get $cur) (local.get $end)))\n"@, k);
    lemma_count_tail(k);
    let p10 = fill("        (if (i32.eq (i32.load8_u @ (local.get $cur)) (local.get $byte))\n          (then"@, k);
    lemma_count_same(k);
    let p11 = fill(" (local.set $count (i32.add (local.get $count) (i32.const 1)))"@, k);
    lemma_count_one(k);
    let p12 = fill("))\n"@, k);
    lemma_count_fi(k);
    let p13 = fill("        (local.set $cur (i32.add (local.get $cur) (i32.const 1)))\n"@, k);
    lemma_count_next(k);
    let p14 = fill("        (br $tail_continue)))\n"@, k);
    lemma_count_back(k);
    let p15 = fill("    (local.get $count))\n"@, k);
    lemma_count_value(k);
    lemma_squeezed_add(p0, p1);
    lemma_squeezed_add(p0 + p1, p2);
    lemma_squeezed_add(p0 + p1 + p2, p3);
    lemma_squeezed_add(p0 + p1 + p2 + p3, p4);
    lemma_squeezed_add(p0 + p1 + p2 + p3 + p4, p5);
    lemma_squeezed_add(p0 + p1 + p2 + p3 + p4 + p5, p6);
    lemma_squeezed_add(p0 + p1 + p2 + p3 + p4 + p5 + p6, p7);
    lemma_squeezed_add(p0 + p1 + p2 + p3 + p4 + p5 + p6 + p7, p8);
    lemma_squeezed_add(p0 + p1 + p2 + p3 + p4 + p5 + p6 + p7 + p8, p9);
    lemma_squeezed_add(p0 + p1 + p2 + p3 + p4 + p5 + p6 + p7 + p8 + p9, p10);
    lemma_squeezed_add(p0 + p1 + p2 + p3 + p4 + p5 + p6 + p7 + p8 + p9 + p10, p11);
    lemma_squeezed_add(p0 + p1 + p2 + p3 + p4 + p5 + p6 + p7 + p8 + p9 + p10 + p11, p12);
    lemma_squeezed_add(p0 + p1 + p2 + p3 + p4 + p5 + p6 + p7 + p8 + p9 + p10 + p11 + p12, p13);
    lemma_squeezed_add(p0 + p1 + p2 + p3 + p4 + p5 + p6 + p7 + p8 + p9 + p10 + p11 + p12 + p13, p14);
    lemma_squeezed_add(p0 + p1 + p2 + p3 + p4 + p5 + p6 + p7 + p8 + p9 + p10 + p11 + p12 + p13 + p14, p15);
    lemma_count_text("tvm_simd_count_byte_p"@, k);
    lemma_count_regroup(
        squeezed(p0),
        squeezed(p1),
        squeezed(p2),
        squeezed(p3),
        squeezed(p4),
        squeezed(p5),
        squeezed(p6),
        squeezed(p7),
        squeezed(p8),
        squeezed(p9),
        squeezed(p10),
        squeezed(p11),
        squeezed(p12),
        squeezed(p13),
        squeezed(p14),
        squeezed(term_text(get("count"@))),
        squeezed(")"@),
    );
}

proof fn lemma_count_regroup(
    x0: Seq<char>,
    x1: Seq<char>,
    x2: Seq<char>,
    x3: Seq<char>,
    x4: Seq<char>,
    x5: Seq<char>,
    x6: Seq<char>,
    x7: Seq<char>,
    x8: Seq<char>,
    x9: Seq<char>,
    x10: Seq<char>,
    x11: Seq<char>,
    x12: Seq<char>,
    x13: Seq<char>,
    x14: Seq<char>,
    v: Seq<char>,
    z: Seq<char>,
)
    ensures
        x0 + x1 + x2 + x3 + x4 + x5 + x6 + x7 + x8 + x9 + x10 + x11 + x12 + x13 + x14 + (v + z) == x0 + (x1 + x2 + x3 + x4 + (x5 + (x6 + x7) + x8) + (x9 + (x10 + x11 + x12 + x13) + x14))
        + v + z,
{
    broadcast use lemma_add_assoc;

}

// ---------------------------------------------------------------------------
// In a module
// ---------------------------------------------------------------------------

/// The kernel of pool `k` hands out how often a byte occurs in the range, whatever the
/// memories hold.
pub open spec fn counts_byte(f: Kernel, k: nat) -> bool {
    forall|mems: Seq<Seq<u8>>, off: nat, len: nat, byte: u8|
        k < mems.len() && off < 0x1_0000_0000 && len < 0x1_0000_0000 && off + len
            <= mems[k as int].len() && mems[k as int].len() <= 0x1_0000_0000 ==> #[trigger] ran(
            f,
            args3(off, len, byte as nat),
            mems,
            len,
        ) == Some(Val::N(occurrences(mems[k as int], off as int, len, byte)))
}

/// Every module has, for each of its pools, a kernel that counts how often a byte occurs in a
/// range, whatever its length and place.
pub proof fn law_module_counts_bytes(p: ModuleParams, k: nat)
    requires
        k < p.n_pools,
    ensures
        exists|f: Kernel|
            f.name == pool_name("tvm_simd_count_byte_p"@, k) && #[trigger] holds_part(
                module_text(p),
                kernel_text(f),
            ) && counts_byte(f, k),
{
    let f = kernel("tvm_simd_count_byte_p"@, k);
    lemma_count_kernel_text(k);
    lemma_holds_itself(fill(SIMD_COUNT_BYTE@, k), kernel_text(f));
    lemma_reducers_in_module(p, k, kernel_text(f));
    assert forall|mems: Seq<Seq<u8>>, off: nat, len: nat, byte: u8|
        k < mems.len() && off < 0x1_0000_0000 && len < 0x1_0000_0000 && off + len
            <= mems[k as int].len() && mems[k as int].len() <= 0x1_0000_0000 implies #[trigger] ran(
        f,
        args3(off, len, byte as nat),
        mems,
        len,
    ) == Some(Val::N(occurrences(mems[k as int], off as int, len, byte))) by {
        lemma_kernel("tvm_simd_count_byte_p"@, k, mems, off, len, byte);
    }
}

} // verus!
