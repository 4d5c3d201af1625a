//! What the kernel that looks for a byte does: it hands out the first place of the range that
//! holds the byte, or minus one.
use vstd::prelude::*;
use crate::text::decimal;
use super::copy_laws::{lemma_fill_add, lemma_fill_place, lemma_fill_plain, pool_name};
use super::count_laws::lemma_count_ops;
use super::fold_laws::lemma_then_word;
use super::indirect_laws::{holds_part, lemma_holds_itself};
use super::kernel_laws::{
    address, bin, both, closing_text, get, head_text, lemma_assign_text, lemma_bin_text,
    lemma_binary, lemma_both_text, lemma_constants, lemma_get_text, lemma_lit_text,
    lemma_load_text, lemma_loads, lemma_places, lemma_reached, lemma_reducers_in_module,
    lemma_step, lemma_un_text, lemma_until_text, lemma_variables, on_the_way, opening_text,
    set_cur, set_end, set_vec_end, step_by, un, vec_len,
};
use super::kernels::SIMD_FIND_BYTE;
use super::meaning::{
    declared_text, lemma_add_assoc, lemma_add_nothing, lemma_blank_literals, lemma_nothing_add,
    lemma_squeezed_add, squeezed,
};
use super::module::{module_text, ModuleParams};
use super::shell_laws::{args3, declared_word, lemma_declared};
use super::vector::{
    applied, bound_params, came_out, code_done, code_end, code_text, combined, constant, entered,
    kernel_text, lemma_goes_on, low_zeros, term_text, term_value, top_bits, Code, End, Kernel,
    Term, Val,
};
use super::wat::fill;

verus! {

// ---------------------------------------------------------------------------
// The kernel
// ---------------------------------------------------------------------------

spec fn spread() -> Code {
    Code::Assign("broadcast"@, un("i8x16.splat"@, get("byte"@)))
}

spec fn set_mask(k: nat) -> Code {
    Code::Assign(
        "mask"@,
        un(
            "i8x16.bitmask"@,
            bin(
                "i8x16.eq"@,
                Term::Load("v128.load"@, k, Box::new(get("cur"@))),
                get("broadcast"@),
            ),
        ),
    )
}

spec fn any_same() -> Term {
    bin("i32.ne"@, get("mask"@), Term::Lit("i32.const"@, "0"@))
}

spec fn place_in_vec() -> Term {
    bin(
        "i32.sub"@,
        bin("i32.add"@, get("cur"@), un("i32.ctz"@, get("mask"@))),
        get("off"@),
    )
}

spec fn vec_loop(k: nat) -> Code {
    Code::Until(
        "vec_done"@,
        "vec_continue"@,
        bin("i32.eq"@, get("cur"@), get("vec_end"@)),
        Box::new(both(both(set_mask(k), Code::Exit(any_same(), place_in_vec())), step_by("16"@))),
    )
}

spec fn is_byte(k: nat) -> Term {
    bin("i32.eq"@, Term::Load("i32.load8_u"@, k, Box::new(get("cur"@))), get("byte"@))
}

spec fn place_here() -> Term {
    bin("i32.sub"@, get("cur"@), get("off"@))
}

spec fn tail_loop(k: nat) -> Code {
    Code::Until(
        "tail_done"@,
        "tail_continue"@,
        bin("i32.eq"@, get("cur"@), get("end"@)),
        Box::new(both(Code::Exit(is_byte(k), place_here()), step_by("1"@))),
    )
}

spec fn setup() -> Code {
    both(both(both(set_cur(), set_end()), set_vec_end()), spread())
}

spec fn nowhere() -> Term {
    Term::Lit("i32.const"@, "-1"@)
}

spec fn kernel(stem: Seq<char>, k: nat) -> Kernel {
    Kernel {
        name: pool_name(stem, k),
        params: seq![("off"@, "i32"@), ("len"@, "i32"@), ("byte"@, "i32"@)],
        result: "i32"@,
        locals: seq![
            ("cur"@, "i32"@),
            ("end"@, "i32"@),
            ("vec_end"@, "i32"@),
            ("broadcast"@, "v128"@),
            ("mask"@, "i32"@),
        ],
        code: both(both(setup(), vec_loop(k)), tail_loop(k)),
        value: nowhere(),
    }
}

// ---------------------------------------------------------------------------
// What it comes to
// ---------------------------------------------------------------------------

/// None of the `n` bytes from `at` on is this byte.
pub open spec fn lacks(bytes: Seq<u8>, at: int, n: int, byte: u8) -> bool {
    forall|i: int| 0 <= i < n ==> #[trigger] bytes[at + i] != byte
}

/// The first place of the byte among the `n` bytes from `at` on, or minus one as a number of
/// 32 bits.
pub open spec fn is_first(bytes: Seq<u8>, at: int, n: int, byte: u8, r: nat) -> bool {
    ||| r < n && bytes[at + r] == byte && lacks(bytes, at, r as int, byte)
    ||| r == 0xffff_ffff && lacks(bytes, at, n, byte)
}

/// The lowest bit of a mask is the first byte that was the same.
proof fn lemma_mask(z: Seq<u8>, m: Seq<u8>, at: int, byte: u8, i: int)
    requires
        0 <= i <= 16,
        forall|j: int|
            0 <= j < 16 ==> #[trigger] z[j] == (if m[at + j] == byte {
                0xffu8
            } else {
                0
            }),
    ensures
        ({
            let n = top_bits(z, i);
            let r = low_zeros(n);
            &&& n == 0 ==> forall|j: int| i <= j < 16 ==> #[trigger] m[at + j] != byte
            &&& n != 0 ==> i + r < 16 && m[at + i + r] == byte && forall|j: int|
                i <= j < i + r ==> #[trigger] m[at + j] != byte
        }),
    decreases 16 - i,
{
    if i < 16 {
        lemma_mask(z, m, at, byte, i + 1);
        let rest = top_bits(z, i + 1);
        let n = top_bits(z, i);
        assert(z[i] == (if m[at + i] == byte {
            0xffu8
        } else {
            0
        }));
        if m[at + i] == byte {
            assert(n == 1 + 2 * rest);
            assert(low_zeros(n) == 0);
        } else {
            assert(n == 2 * rest);
            assert(n / 2 == rest && n % 2 == 0);
        }
    }
}

proof fn lemma_locals()
    ensures
        "mask"@ != "cur"@,
        "mask"@ != "end"@,
        "mask"@ != "vec_end"@,
        "mask"@ != "broadcast"@,
        "mask"@ != "byte"@,
        "mask"@ != "off"@,
        "mask"@ != "len"@,
        "broadcast"@ != "cur"@,
        "broadcast"@ != "end"@,
        "broadcast"@ != "vec_end"@,
        "broadcast"@ != "byte"@,
        "broadcast"@ != "off"@,
        "broadcast"@ != "len"@,
        "byte"@ != "cur"@,
        "byte"@ != "end"@,
        "byte"@ != "vec_end"@,
        "byte"@ != "off"@,
        "byte"@ != "len"@,
{
    reveal_strlit("mask");
    reveal_strlit("broadcast");
    reveal_strlit("byte");
    reveal_strlit("cur");
    reveal_strlit("end");
    reveal_strlit("vec_end");
    reveal_strlit("off");
    reveal_strlit("len");
    assert("mask"@.len() == 4 && "broadcast"@.len() == 9 && "byte"@.len() == 4 && "cur"@.len() == 3
        && "end"@.len() == 3 && "vec_end"@.len() == 7 && "off"@.len() == 3 && "len"@.len() == 3);
    assert("mask"@[0] == 'm' && "byte"@[0] == 'b');
}

proof fn lemma_find_ops(x: nat, y: nat)
    ensures
        combined("i32.sub"@, Val::N(x), Val::N(y)) == Some(
            Val::N(((x - y) % 0x1_0000_0000) as nat),
        ),
        combined("i32.ne"@, Val::N(x), Val::N(y)) == Some(
            Val::N(
                if x != y {
                    1
                } else {
                    0
                },
            ),
        ),
        applied("i32.ctz"@, Val::N(x)) == Some(Val::N(low_zeros(x))),
        constant("i32.const"@, "0"@) == Some(Val::N(0)),
        constant("i32.const"@, "-1"@) == Some(Val::N(0xffff_ffff)),
{
    reveal_strlit("i32.add");
    reveal_strlit("i64.add");
    reveal_strlit("i32.and");
    reveal_strlit("i32.eq");
    reveal_strlit("i32.ne");
    reveal_strlit("i32.sub");
    assert("i32.add"@.len() == 7 && "i64.add"@.len() == 7 && "i32.and"@.len() == 7
        && "i32.sub"@.len() == 7 && "i32.eq"@.len() == 6 && "i32.ne"@.len() == 6);
    assert("i32.add"@[4] == 'a' && "i64.add"@[4] == 'a' && "i32.and"@[4] == 'a' && "i32.sub"@[4]
        == 's' && "i32.eq"@[4] == 'e' && "i32.ne"@[4] == 'n');
    reveal_strlit("i32.popcnt");
    reveal_strlit("i64.extend_i32_u");
    reveal_strlit("i32.wrap_i64");
    reveal_strlit("i32.ctz");
    assert("i32.popcnt"@.len() == 10 && "i64.extend_i32_u"@.len() == 16 && "i32.wrap_i64"@.len()
        == 12 && "i32.ctz"@.len() == 7);
    reveal_strlit("i32.const");
    reveal_strlit("v128.const");
    reveal_strlit("1");
    reveal_strlit("16");
    reveal_strlit("-16");
    reveal_strlit("0xff");
    reveal_strlit("0");
    reveal_strlit("-1");
    assert("i32.const"@.len() == 9 && "v128.const"@.len() == 10 && "1"@.len() == 1 && "16"@.len()
        == 2 && "-16"@.len() == 3 && "0xff"@.len() == 4 && "0"@.len() == 1 && "-1"@.len() == 2);
    assert("1"@[0] == '1' && "0"@[0] == '0' && "16"@[0] == '1' && "-1"@[0] == '-');
}

/// How far an address lies behind the start.
proof fn lemma_distance(off: nat, c: nat, j: nat)
    requires
        off < 0x1_0000_0000,
        c + j < 0x1_0000_0000,
    ensures
        (((address(off, c) + j) % 0x1_0000_0000) - off) % 0x1_0000_0000 == c + j,
{
}

/// The locals while the kernel runs.
spec fn seeking(env: Map<Seq<char>, Val>, off: nat, byte: u8) -> bool {
    &&& env.contains_key("byte"@) && env["byte"@] == Val::N(byte as nat)
    &&& env.contains_key("off"@) && env["off"@] == Val::N(off)
}

proof fn lemma_vec_loop(
    k: nat,
    env: Map<Seq<char>, Val>,
    mems: Seq<Seq<u8>>,
    off: nat,
    len: nat,
    byte: u8,
    s: Seq<u8>,
    c: nat,
    fuel: nat,
)
    requires
        k < mems.len(),
        off < 0x1_0000_0000,
        len < 0x1_0000_0000,
        off + len <= mems[k as int].len(),
        mems[k as int].len() <= 0x1_0000_0000,
        c <= vec_len(len),
        c % 16 == 0,
        fuel * 16 >= vec_len(len) - c,
        on_the_way(env, off, len, c),
        env.contains_key("vec_end"@),
        env["vec_end"@] == Val::N(address(off, vec_len(len))),
        env.contains_key("broadcast"@),
        env["broadcast"@] == Val::V(s),
        forall|i: int| 0 <= i < 16 ==> #[trigger] s[i] == byte,
        seeking(env, off, byte),
        lacks(mems[k as int], off as int, c as int, byte),
    ensures
        ({
            let r = code_end(vec_loop(k), env, mems, fuel);
            &&& r is Some
            &&& match r->0 {
                End::On(e) => on_the_way(e, off, len, vec_len(len)) && seeking(e, off, byte)
                    && lacks(mems[k as int], off as int, vec_len(len) as int, byte),
                End::Out(v) => v is N && v->N_0 < len && mems[k as int][(off + v->N_0) as int] == byte
                    && lacks(mems[k as int], off as int, v->N_0 as int, byte),
            }
        }),
    decreases vec_len(len) - c,
{
    let m = mems[k as int];
    let v = vec_len(len);
    lemma_reached("vec_end"@, env, mems, off, c, v);
    if c < v {
        assert(c + 16 <= v);
        lemma_locals();
        lemma_variables();
        lemma_constants();
        let at = address(off, c);
        assert(at == off + c);
        let x = m.subrange(at as int, at as int + 16);
        lemma_loads(k, at, env, mems);
        lemma_count_ops(0, x, s);
        let z = combined("i8x16.eq"@, Val::V(x), Val::V(s))->0->V_0;
        let same = bin(
            "i8x16.eq"@,
            Term::Load("v128.load"@, k, Box::new(get("cur"@))),
            get("broadcast"@),
        );
        assert(term_value(get("broadcast"@), env, mems) == Some(Val::V(s)));
        assert(term_value(same, env, mems) == Some(Val::V(z)));
        lemma_count_ops(0, z, s);
        let mask = top_bits(z, 0);
        let e1 = env.insert("mask"@, Val::N(mask));
        assert(code_end(set_mask(k), env, mems, fuel) == Some(End::On(e1)));
        assert forall|j: int| 0 <= j < 16 implies #[trigger] z[j] == (if m[at + j] == byte {
            0xffu8
        } else {
            0
        }) by {
            assert(x[j] == m[at + j]);
            assert(s[j] == byte);
        }
        lemma_mask(z, m, at as int, byte, 0);
        lemma_find_ops(mask, 0);
        assert(term_value(get("mask"@), e1, mems) == Some(Val::N(mask)));
        assert(term_value(Term::Lit("i32.const"@, "0"@), e1, mems) == Some(Val::N(0)));
        assert(term_value(any_same(), e1, mems) == Some(
            Val::N(
                if mask != 0 {
                    1
                } else {
                    0
                },
            ),
        ));
        let exit = Code::Exit(any_same(), place_in_vec());
        let first = both(set_mask(k), exit);
        let body = both(first, step_by("16"@));
        if mask != 0 {
            let j = low_zeros(mask);
            lemma_binary(at, j, Seq::empty(), Seq::empty());
            assert(term_value(get("cur"@), e1, mems) == Some(Val::N(at)));
            assert(term_value(un("i32.ctz"@, get("mask"@)), e1, mems) == Some(Val::N(j)));
            let sum = bin("i32.add"@, get("cur"@), un("i32.ctz"@, get("mask"@)));
            let to = (at + j) % 0x1_0000_0000;
            assert(term_value(sum, e1, mems) == Some(Val::N(to)));
            assert(term_value(get("off"@), e1, mems) == Some(Val::N(off)));
            lemma_find_ops(to, off);
            lemma_distance(off, c, j);
            assert(term_value(place_in_vec(), e1, mems) == Some(Val::N(c + j)));
            let out = End::Out(Val::N(c + j));
            assert(code_end(exit, e1, mems, fuel) == Some(out));
            assert(code_end(first, env, mems, fuel) == Some(out));
            assert(code_end(body, env, mems, fuel) == Some(out));
            assert(code_end(vec_loop(k), env, mems, fuel) == Some(out));
            assert forall|i: int| 0 <= i < c + j implies #[trigger] m[off + i] != byte by {
                if i >= c {
                    assert(m[at + (i - c)] != byte);
                }
            }
            assert(m[at as int + 0 + j] == byte);
        } else {
            assert(code_end(exit, e1, mems, fuel) == Some(End::On(e1)));
            assert(code_end(first, env, mems, fuel) == Some(End::On(e1)));
            lemma_step("16"@, 16, e1, mems, at, fuel);
            lemma_goes_on(step_by("16"@), e1, mems, fuel);
            let e2 = e1.insert("cur"@, Val::N((at + 16) % 0x1_0000_0000));
            assert(address(off, c + 16) == (at + 16) % 0x1_0000_0000);
            assert(code_end(body, env, mems, fuel) == Some(End::On(e2)));
            assert forall|i: int| 0 <= i < c + 16 implies #[trigger] m[off + i] != byte by {
                if i >= c {
                    assert(m[at + (i - c)] != byte);
                }
            }
            lemma_vec_loop(k, e2, mems, off, len, byte, s, c + 16, (fuel - 1) as nat);
            assert(code_end(vec_loop(k), env, mems, fuel) == code_end(
                vec_loop(k),
                e2,
                mems,
                (fuel - 1) as nat,
            ));
        }
    }
}

proof fn lemma_tail_loop(
    k: nat,
    env: Map<Seq<char>, Val>,
    mems: Seq<Seq<u8>>,
    off: nat,
    len: nat,
    byte: u8,
    c: nat,
    fuel: nat,
)
    requires
        k < mems.len(),
        off < 0x1_0000_0000,
        len < 0x1_0000_0000,
        off + len <= mems[k as int].len(),
        mems[k as int].len() <= 0x1_0000_0000,
        c <= len,
        fuel >= len - c,
        on_the_way(env, off, len, c),
        seeking(env, off, byte),
        lacks(mems[k as int], off as int, c as int, byte),
    ensures
        ({
            let r = code_end(tail_loop(k), env, mems, fuel);
            &&& r is Some
            &&& match r->0 {
                End::On(e) => lacks(mems[k as int], off as int, len as int, byte),
                End::Out(v) => v is N && v->N_0 < len && mems[k as int][(off + v->N_0) as int] == byte
                    && lacks(mems[k as int], off as int, v->N_0 as int, byte),
            }
        }),
    decreases len - c,
{
    let m = mems[k as int];
    lemma_reached("end"@, env, mems, off, c, len);
    if c < len {
        lemma_locals();
        lemma_variables();
        lemma_constants();
        let at = address(off, c);
        assert(at == off + c);
        let b = m[at as int];
        lemma_loads(k, at, env, mems);
        lemma_binary(b as nat, byte as nat, Seq::empty(), Seq::empty());
        assert(term_value(get("byte"@), env, mems) == Some(Val::N(byte as nat)));
        assert(term_value(is_byte(k), env, mems) == Some(
            Val::N(
                if b == byte {
                    1
                } else {
                    0
                },
            ),
        ));
        let exit = Code::Exit(is_byte(k), place_here());
        let body = both(exit, step_by("1"@));
        if b == byte {
            assert(term_value(get("cur"@), env, mems) == Some(Val::N(at)));
            assert(term_value(get("off"@), env, mems) == Some(Val::N(off)));
            lemma_find_ops(at, off);
            lemma_distance(off, c, 0);
            assert(term_value(place_here(), env, mems) == Some(Val::N(c)));
            let out = End::Out(Val::N(c));
            assert(code_end(exit, env, mems, fuel) == Some(out));
            assert(code_end(body, env, mems, fuel) == Some(out));
            assert(code_end(tail_loop(k), env, mems, fuel) == Some(out));
        } else {
            assert(code_end(exit, env, mems, fuel) == Some(End::On(env)));
            lemma_step("1"@, 1, env, mems, at, fuel);
            lemma_goes_on(step_by("1"@), env, mems, fuel);
            let e2 = env.insert("cur"@, Val::N((at + 1) % 0x1_0000_0000));
            assert(address(off, c + 1) == (at + 1) % 0x1_0000_0000);
            assert(code_end(body, env, mems, fuel) == Some(End::On(e2)));
            lemma_tail_loop(k, e2, mems, off, len, byte, c + 1, (fuel - 1) as nat);
            assert(code_end(tail_loop(k), env, mems, fuel) == code_end(
                tail_loop(k),
                e2,
                mems,
                (fuel - 1) as nat,
            ));
        }
    }
}

proof fn lemma_kernel(
    stem: Seq<char>,
    k: nat,
    mems: Seq<Seq<u8>>,
    off: nat,
    len: nat,
    byte: u8,
)
    requires
        k < mems.len(),
        off < 0x1_0000_0000,
        len < 0x1_0000_0000,
        off + len <= mems[k as int].len(),
        mems[k as int].len() <= 0x1_0000_0000,
    ensures
        ({
            let r = came_out(kernel(stem, k), args3(off, len, byte as nat), mems, len);
            &&& r is Some
            &&& r->0 is N
            &&& is_first(mems[k as int], off as int, len as int, byte, r->0->N_0)
        }),
{
    let f = kernel(stem, k);
    let m = mems[k as int];
    let args = args3(off, len, byte as nat);
    lemma_locals();
    lemma_variables();
    reveal_with_fuel(bound_params, 4);
    reveal_with_fuel(entered, 6);
    let env = entered(f, args, 5);
    assert(env.contains_key("off"@) && env["off"@] == Val::N(off));
    assert(env.contains_key("len"@) && env["len"@] == Val::N(len));
    assert(env.contains_key("byte"@) && env["byte"@] == Val::N(byte as nat));
    let e1 = lemma_places(env, mems, off, len, len);
    lemma_count_ops(byte as nat, Seq::empty(), Seq::empty());
    lemma_find_ops(0, 0);
    let s = applied("i8x16.splat"@, Val::N(byte as nat))->0->V_0;
    assert(term_value(get("byte"@), e1, mems) == Some(Val::N(byte as nat)));
    let e2 = e1.insert("broadcast"@, Val::V(s));
    assert(code_done(spread(), e1, mems, len) == Some(e2));
    assert(code_done(setup(), env, mems, len) == Some(e2));
    lemma_goes_on(setup(), env, mems, len);
    lemma_vec_loop(k, e2, mems, off, len, byte, s, 0, len);
    let r = code_end(vec_loop(k), e2, mems, len);
    let front = both(setup(), vec_loop(k));
    assert(code_end(front, env, mems, len) == r);
    if r->0 is On {
        let e3 = r->0->On_0;
        lemma_tail_loop(k, e3, mems, off, len, byte, vec_len(len), len);
        assert(code_end(f.code, env, mems, len) == code_end(tail_loop(k), e3, mems, len));
    } else {
        assert(code_end(f.code, env, mems, len) == r);
    }
    assert forall|e: Map<Seq<char>, Val>| #[trigger]
        term_value(nowhere(), e, mems) == Some(Val::N(0xffff_ffff)) by {
    }
}

// ---------------------------------------------------------------------------
// Its text
// ---------------------------------------------------------------------------

proof fn lemma_exit_text(c: Term, v: Term)
    ensures
        squeezed(code_text(Code::Exit(c, v))) == squeezed("(if "@) + squeezed(term_text(c))
            + squeezed(" (then "@) + squeezed("(return "@) + squeezed(term_text(v)) + squeezed(
            ")"@,
        ) + squeezed(")"@) + squeezed(")"@),
{
    broadcast use lemma_squeezed_add;

}

proof fn lemma_head_text(stem: Seq<char>, k: nat)
    ensures
        ({
            let f = kernel(stem, k);
            &&& squeezed(f.name) == squeezed(stem) + squeezed(decimal(k))
            &&& squeezed(declared_text("param"@, f.params, f.params.len() as int)) == declared_word("param"@, "off"@, "i32"@) + declared_word("param"@, "len"@, "i32"@) + declared_word("param"@, "byte"@, "i32"@)
            &&& squeezed(declared_text("local"@, f.locals, f.locals.len() as int)) == declared_word("local"@, "cur"@, "i32"@) + declared_word("local"@, "end"@, "i32"@) + declared_word("local"@, "vec_end"@, "i32"@) + declared_word("local"@, "broadcast"@, "v128"@) + declared_word("local"@, "mask"@, "i32"@)
        }),
{
    broadcast use {lemma_squeezed_add, lemma_nothing_add};

    let f = kernel(stem, k);
    lemma_declared("param"@, f.params, 1);
    lemma_declared("param"@, f.params, 2);
    lemma_declared("param"@, f.params, 3);
    lemma_declared("local"@, f.locals, 1);
    lemma_declared("local"@, f.locals, 2);
    lemma_declared("local"@, f.locals, 3);
    lemma_declared("local"@, f.locals, 4);
    lemma_declared("local"@, f.locals, 5);
    assert(squeezed(declared_text("param"@, f.params, 0)) == Seq::<char>::empty());
    assert(squeezed(declared_text("local"@, f.locals, 0)) == Seq::<char>::empty());
}

proof fn lemma_find_text(stem: Seq<char>, k: nat)
    ensures
        squeezed(kernel_text(kernel(stem, k))) == head_text(kernel(stem, k)) + (squeezed(
            code_text(set_cur()),
        ) + squeezed(code_text(set_end())) + squeezed(code_text(set_vec_end())) + squeezed(
            code_text(spread()),
        ) + (opening_text(
            "vec_done"@,
            "vec_continue"@,
            bin("i32.eq"@, get("cur"@), get("vec_end"@)),
        ) + (squeezed(code_text(set_mask(k))) + squeezed(
            code_text(Code::Exit(any_same(), place_in_vec())),
        ) + squeezed(code_text(step_by("16"@)))) + closing_text("vec_continue"@)) + (opening_text(
            "tail_done"@,
            "tail_continue"@,
            bin("i32.eq"@, get("cur"@), get("end"@)),
        ) + (squeezed(code_text(Code::Exit(is_byte(k), place_here()))) + squeezed(
            code_text(step_by("1"@)),
        )) + closing_text("tail_continue"@))) + squeezed(term_text(nowhere())) + squeezed(")"@),
{
    broadcast use lemma_squeezed_add;

    let vec_cond = bin("i32.eq"@, get("cur"@), get("vec_end"@));
    let tail_cond = bin("i32.eq"@, get("cur"@), get("end"@));
    lemma_both_text(set_cur(), set_end());
    lemma_both_text(both(set_cur(), set_end()), set_vec_end());
    lemma_both_text(both(both(set_cur(), set_end()), set_vec_end()), spread());
    let there = Code::Exit(any_same(), place_in_vec());
    let body = both(both(set_mask(k), there), step_by("16"@));
    lemma_both_text(set_mask(k), there);
    lemma_both_text(both(set_mask(k), there), step_by("16"@));
    lemma_until_text("vec_done"@, "vec_continue"@, vec_cond, body);
    let here = Code::Exit(is_byte(k), place_here());
    lemma_both_text(here, step_by("1"@));
    lemma_until_text("tail_done"@, "tail_continue"@, tail_cond, both(here, step_by("1"@)));
    lemma_both_text(setup(), vec_loop(k));
    lemma_both_text(both(setup(), vec_loop(k)), tail_loop(k));
}

proof fn lemma_plain_words_0(k: nat)
    ensures
        fill("  "@, k) == "  "@,
        fill("(func $"@, k) == "(func $"@,
        fill("tvm_simd_find_byte_p"@, k) == "tvm_simd_find_byte_p"@,
        fill(" (export \""@, k) == " (export \""@,
        fill("\")"@, k) == "\")"@,
        fill("\n"@, k) == "\n"@,
        fill("("@, k) == "("@,
        fill("param"@, k) == "param"@,
        fill(" $"@, k) == " $"@,
        fill("off"@, k) == "off"@,
        fill(" "@, k) == " "@,
        fill("i32"@, k) == "i32"@,
        fill(")"@, k) == ")"@,
        fill("len"@, k) == "len"@,
{
    reveal_strlit("  ");
    lemma_fill_plain("  "@, k);
    reveal_strlit("(func $");
    lemma_fill_plain("(func $"@, k);
    reveal_strlit("tvm_simd_find_byte_p");
    lemma_fill_plain("tvm_simd_find_byte_p"@, k);
    reveal_strlit(" (export \"");
    lemma_fill_plain(" (export \""@, k);
    reveal_strlit("\")");
    lemma_fill_plain("\")"@, k);
    reveal_strlit("\n");
    lemma_fill_plain("\n"@, k);
    reveal_strlit("(");
    lemma_fill_plain("("@, k);
    reveal_strlit("param");
    lemma_fill_plain("param"@, k);
    reveal_strlit(" $");
    lemma_fill_plain(" $"@, k);
    reveal_strlit("off");
    lemma_fill_plain("off"@, k);
    reveal_strlit(" ");
    lemma_fill_plain(" "@, k);
    reveal_strlit("i32");
    lemma_fill_plain("i32"@, k);
    reveal_strlit(")");
    lemma_fill_plain(")"@, k);
    reveal_strlit("len");
    lemma_fill_plain("len"@, k);
}

proof fn lemma_plain_words_1(k: nat)
    ensures
        fill("byte"@, k) == "byte"@,
        fill("(result "@, k) == "(result "@,
        fill("local"@, k) == "local"@,
        fill("cur"@, k) == "cur"@,
        fill("end"@, k) == "end"@,
        fill("vec_end"@, k) == "vec_end"@,
        fill("broadcast"@, k) == "broadcast"@,
        fill("v128"@, k) == "v128"@,
        fill("mask"@, k) == "mask"@,
        fill("(local.set $"@, k) == "(local.set $"@,
        fill("(local.get $"@, k) == "(local.get $"@,
        fill("i32.add"@, k) == "i32.add"@,
        fill("i32.and"@, k) == "i32.and"@,
        fill("i32.const"@, k) == "i32.const"@,
{
    reveal_strlit("byte");
    lemma_fill_plain("byte"@, k);
    reveal_strlit("(result ");
    lemma_fill_plain("(result "@, k);
    reveal_strlit("local");
    lemma_fill_plain("local"@, k);
    reveal_strlit("cur");
    lemma_fill_plain("cur"@, k);
    reveal_strlit("end");
    lemma_fill_plain("end"@, k);
    reveal_strlit("vec_end");
    lemma_fill_plain("vec_end"@, k);
    reveal_strlit("broadcast");
    lemma_fill_plain("broadcast"@, k);
    reveal_strlit("v128");
    lemma_fill_plain("v128"@, k);
    reveal_strlit("mask");
    lemma_fill_plain("mask"@, k);
    reveal_strlit("(local.set $");
    lemma_fill_plain("(local.set $"@, k);
    reveal_strlit("(local.get $");
    lemma_fill_plain("(local.get $"@, k);
    reveal_strlit("i32.add");
    lemma_fill_plain("i32.add"@, k);
    reveal_strlit("i32.and");
    lemma_fill_plain("i32.and"@, k);
    reveal_strlit("i32.const");
    lemma_fill_plain("i32.const"@, k);
}

proof fn lemma_plain_words_2(k: nat)
    ensures
        fill("-16"@, k) == "-16"@,
        fill("i8x16.splat"@, k) == "i8x16.splat"@,
        fill("(block $"@, k) == "(block $"@,
        fill("vec_done"@, k) == "vec_done"@,
        fill(" (loop $"@, k) == " (loop $"@,
        fill("vec_continue"@, k) == "vec_continue"@,
        fill(" (br_if $"@, k) == " (br_if $"@,
        fill("i32.eq"@, k) == "i32.eq"@,
        fill("i8x16.bitmask"@, k) == "i8x16.bitmask"@,
        fill("i8x16.eq"@, k) == "i8x16.eq"@,
        fill("v128.load"@, k) == "v128.load"@,
        fill("(if "@, k) == "(if "@,
        fill("i32.ne"@, k) == "i32.ne"@,
        fill("0"@, k) == "0"@,
{
    reveal_strlit("-16");
    lemma_fill_plain("-16"@, k);
    reveal_strlit("i8x16.splat");
    lemma_fill_plain("i8x16.splat"@, k);
    reveal_strlit("(block $");
    lemma_fill_plain("(block $"@, k);
    reveal_strlit("vec_done");
    lemma_fill_plain("vec_done"@, k);
    reveal_strlit(" (loop $");
    lemma_fill_plain(" (loop $"@, k);
    reveal_strlit("vec_continue");
    lemma_fill_plain("vec_continue"@, k);
    reveal_strlit(" (br_if $");
    lemma_fill_plain(" (br_if $"@, k);
    reveal_strlit("i32.eq");
    lemma_fill_plain("i32.eq"@, k);
    reveal_strlit("i8x16.bitmask");
    lemma_fill_plain("i8x16.bitmask"@, k);
    reveal_strlit("i8x16.eq");
    lemma_fill_plain("i8x16.eq"@, k);
    reveal_strlit("v128.load");
    lemma_fill_plain("v128.load"@, k);
    reveal_strlit("(if ");
    lemma_fill_plain("(if "@, k);
    reveal_strlit("i32.ne");
    lemma_fill_plain("i32.ne"@, k);
    reveal_strlit("0");
    lemma_fill_plain("0"@, k);
}

proof fn lemma_plain_words_3(k: nat)
    ensures
        fill(" (then"@, k) == " (then"@,
        fill("(return "@, k) == "(return "@,
        fill("i32.sub"@, k) == "i32.sub"@,
        fill("i32.ctz"@, k) == "i32.ctz"@,
        fill("16"@, k) == "16"@,
        fill("(br $"@, k) == "(br $"@,
        fill("tail_done"@, k) == "tail_done"@,
        fill("tail_continue"@, k) == "tail_continue"@,
        fill("i32.load8_u"@, k) == "i32.load8_u"@,
        fill("1"@, k) == "1"@,
        fill("-1"@, k) == "-1"@,
{
    reveal_strlit(" (then");
    lemma_fill_plain(" (then"@, k);
    reveal_strlit("(return ");
    lemma_fill_plain("(return "@, k);
    reveal_strlit("i32.sub");
    lemma_fill_plain("i32.sub"@, k);
    reveal_strlit("i32.ctz");
    lemma_fill_plain("i32.ctz"@, k);
    reveal_strlit("16");
    lemma_fill_plain("16"@, k);
    reveal_strlit("(br $");
    lemma_fill_plain("(br $"@, k);
    reveal_strlit("tail_done");
    lemma_fill_plain("tail_done"@, k);
    reveal_strlit("tail_continue");
    lemma_fill_plain("tail_continue"@, k);
    reveal_strlit("i32.load8_u");
    lemma_fill_plain("i32.load8_u"@, k);
    reveal_strlit("1");
    lemma_fill_plain("1"@, k);
    reveal_strlit("-1");
    lemma_fill_plain("-1"@, k);
}

/// The words of the kernels have no place for a number.
proof fn lemma_plain_words(k: nat)
    ensures
        fill("  "@, k) == "  "@,
        fill("(func $"@, k) == "(func $"@,
        fill("tvm_simd_find_byte_p"@, k) == "tvm_simd_find_byte_p"@,
        fill(" (export \""@, k) == " (export \""@,
        fill("\")"@, k) == "\")"@,
        fill("\n"@, k) == "\n"@,
        fill("("@, k) == "("@,
        fill("param"@, k) == "param"@,
        fill(" $"@, k) == " $"@,
        fill("off"@, k) == "off"@,
        fill(" "@, k) == " "@,
        fill("i32"@, k) == "i32"@,
        fill(")"@, k) == ")"@,
        fill("len"@, k) == "len"@,
        fill("byte"@, k) == "byte"@,
        fill("(result "@, k) == "(result "@,
        fill("local"@, k) == "local"@,
        fill("cur"@, k) == "cur"@,
        fill("end"@, k) == "end"@,
        fill("vec_end"@, k) == "vec_end"@,
        fill("broadcast"@, k) == "broadcast"@,
        fill("v128"@, k) == "v128"@,
        fill("mask"@, k) == "mask"@,
        fill("(local.set $"@, k) == "(local.set $"@,
        fill("(local.get $"@, k) == "(local.get $"@,
        fill("i32.add"@, k) == "i32.add"@,
        fill("i32.and"@, k) == "i32.and"@,
        fill("i32.const"@, k) == "i32.const"@,
        fill("-16"@, k) == "-16"@,
        fill("i8x16.splat"@, k) == "i8x16.splat"@,
        fill("(block $"@, k) == "(block $"@,
        fill("vec_done"@, k) == "vec_done"@,
        fill(" (loop $"@, k) == " (loop $"@,
        fill("vec_continue"@, k) == "vec_continue"@,
        fill(" (br_if $"@, k) == " (br_if $"@,
        fill("i32.eq"@, k) == "i32.eq"@,
        fill("i8x16.bitmask"@, k) == "i8x16.bitmask"@,
        fill("i8x16.eq"@, k) == "i8x16.eq"@,
        fill("v128.load"@, k) == "v128.load"@,
        fill("(if "@, k) == "(if "@,
        fill("i32.ne"@, k) == "i32.ne"@,
        fill("0"@, k) == "0"@,
        fill(" (then"@, k) == " (then"@,
        fill("(return "@, k) == "(return "@,
        fill("i32.sub"@, k) == "i32.sub"@,
        fill("i32.ctz"@, k) == "i32.ctz"@,
        fill("16"@, k) == "16"@,
        fill("(br $"@, k) == "(br $"@,
        fill("tail_done"@, k) == "tail_done"@,
        fill("tail_continue"@, k) == "tail_continue"@,
        fill("i32.load8_u"@, k) == "i32.load8_u"@,
        fill("1"@, k) == "1"@,
        fill("-1"@, k) == "-1"@,
{
    lemma_plain_words_0(k);
    lemma_plain_words_1(k);
    lemma_plain_words_2(k);
    lemma_plain_words_3(k);
}

proof fn lemma_find_head_words()
    ensures
        "  (func $tvm_simd_find_byte_p@ (export \"tvm_simd_find_byte_p@\")\n        (param $off i32) (param $len i32) (param $byte i32) (result i32)\n    (local $cur i32) (local $end i32) (local $vec_end i32)\n    (local $broadcast v128) (local $mask i32)\n"@ == ("  "@ + "(func $"@) + ("tvm_simd_find_byte_p"@ + "@"@) + " (export \""@
        + ("tvm_simd_find_byte_p"@ + "@"@) + "\")"@ + ((((("\n"@ + "  "@ + "  "@ + "  "@ + "  "@)
        + "("@) + "param"@ + " $"@ + "off"@ + " "@ + "i32"@ + ")"@) + ((" "@ + "("@) + "param"@
        + " $"@ + "len"@ + " "@ + "i32"@ + ")"@)) + ((" "@ + "("@) + "param"@ + " $"@ + "byte"@
        + " "@ + "i32"@ + ")"@)) + (" "@ + "(result "@) + "i32"@ + ")"@ + ((((((("\n"@ + "  "@
        + "  "@) + "("@) + "local"@ + " $"@ + "cur"@ + " "@ + "i32"@ + ")"@) + ((" "@ + "("@)
        + "local"@ + " $"@ + "end"@ + " "@ + "i32"@ + ")"@)) + ((" "@ + "("@) + "local"@ + " $"@
        + "vec_end"@ + " "@ + "i32"@ + ")"@)) + ((("\n"@ + "  "@ + "  "@) + "("@) + "local"@
        + " $"@ + "broadcast"@ + " "@ + "v128"@ + ")"@)) + ((" "@ + "("@) + "local"@ + " $"@
        + "mask"@ + " "@ + "i32"@ + ")"@)) + "\n"@,
{
    reveal_strlit("  (func $tvm_simd_find_byte_p@ (export \"tvm_simd_find_byte_p@\")\n        (param $off i32) (param $len i32) (param $byte i32) (result i32)\n    (local $cur i32) (local $end i32) (local $vec_end i32)\n    (local $broadcast v128) (local $mask i32)\n");
    reveal_strlit("  ");
    reveal_strlit("(func $");
    reveal_strlit("tvm_simd_find_byte_p");
    reveal_strlit("@");
    reveal_strlit(" (export \"");
    reveal_strlit("\")");
    reveal_strlit("\n");
    reveal_strlit("(");
    reveal_strlit("param");
    reveal_strlit(" $");
    reveal_strlit("off");
    reveal_strlit(" ");
    reveal_strlit("i32");
    reveal_strlit(")");
    reveal_strlit("len");
    reveal_strlit("byte");
    reveal_strlit("(result ");
    reveal_strlit("local");
    reveal_strlit("cur");
    reveal_strlit("end");
    reveal_strlit("vec_end");
    reveal_strlit("broadcast");
    reveal_strlit("v128");
    reveal_strlit("mask");
    assert("  (func $tvm_simd_find_byte_p@ (export \"tvm_simd_find_byte_p@\")\n        (param $off i32) (param $len i32) (param $byte i32) (result i32)\n    (local $cur i32) (local $end i32) (local $vec_end i32)\n    (local $broadcast v128) (local $mask i32)\n"@ =~= ("  "@ + "(func $"@) + ("tvm_simd_find_byte_p"@ + "@"@) + " (export \""@
        + ("tvm_simd_find_byte_p"@ + "@"@) + "\")"@ + ((((("\n"@ + "  "@ + "  "@ + "  "@ + "  "@)
        + "("@) + "param"@ + " $"@ + "off"@ + " "@ + "i32"@ + ")"@) + ((" "@ + "("@) + "param"@
        + " $"@ + "len"@ + " "@ + "i32"@ + ")"@)) + ((" "@ + "("@) + "param"@ + " $"@ + "byte"@
        + " "@ + "i32"@ + ")"@)) + (" "@ + "(result "@) + "i32"@ + ")"@ + ((((((("\n"@ + "  "@
        + "  "@) + "("@) + "local"@ + " $"@ + "cur"@ + " "@ + "i32"@ + ")"@) + ((" "@ + "("@)
        + "local"@ + " $"@ + "end"@ + " "@ + "i32"@ + ")"@)) + ((" "@ + "("@) + "local"@ + " $"@
        + "vec_end"@ + " "@ + "i32"@ + ")"@)) + ((("\n"@ + "  "@ + "  "@) + "("@) + "local"@
        + " $"@ + "broadcast"@ + " "@ + "v128"@ + ")"@)) + ((" "@ + "("@) + "local"@ + " $"@
        + "mask"@ + " "@ + "i32"@ + ")"@)) + "\n"@);
}

proof fn lemma_find_head_filled(k: nat)
    ensures
        fill("  (func $tvm_simd_find_byte_p@ (export \"tvm_simd_find_byte_p@\")\n        (param $off i32) (param $len i32) (param $byte i32) (result i32)\n    (local $cur i32) (local $end i32) (local $vec_end i32)\n    (local $broadcast v128) (local $mask i32)\n"@, k) == ("  "@ + "(func $"@) + ("tvm_simd_find_byte_p"@ + decimal(k)) + " (export \""@
        + ("tvm_simd_find_byte_p"@ + decimal(k)) + "\")"@ + ((((("\n"@ + "  "@ + "  "@ + "  "@
        + "  "@) + "("@) + "param"@ + " $"@ + "off"@ + " "@ + "i32"@ + ")"@) + ((" "@ + "("@)
        + "param"@ + " $"@ + "len"@ + " "@ + "i32"@ + ")"@)) + ((" "@ + "("@) + "param"@ + " $"@
        + "byte"@ + " "@ + "i32"@ + ")"@)) + (" "@ + "(result "@) + "i32"@ + ")"@ + ((((((("\n"@
        + "  "@ + "  "@) + "("@) + "local"@ + " $"@ + "cur"@ + " "@ + "i32"@ + ")"@) + ((" "@
        + "("@) + "local"@ + " $"@ + "end"@ + " "@ + "i32"@ + ")"@)) + ((" "@ + "("@) + "local"@
        + " $"@ + "vec_end"@ + " "@ + "i32"@ + ")"@)) + ((("\n"@ + "  "@ + "  "@) + "("@)
        + "local"@ + " $"@ + "broadcast"@ + " "@ + "v128"@ + ")"@)) + ((" "@ + "("@) + "local"@
        + " $"@ + "mask"@ + " "@ + "i32"@ + ")"@)) + "\n"@,
{
    broadcast use lemma_fill_add;

    lemma_find_head_words();
    lemma_plain_words(k);
    lemma_fill_place(k);
}

proof fn lemma_find_head(k: nat)
    ensures
        squeezed(fill("  (func $tvm_simd_find_byte_p@ (export \"tvm_simd_find_byte_p@\")\n        (param $off i32) (param $len i32) (param $byte i32) (result i32)\n    (local $cur i32) (local $end i32) (local $vec_end i32)\n    (local $broadcast v128) (local $mask i32)\n"@, k)) == head_text(kernel("tvm_simd_find_byte_p"@, k)),
{
    broadcast use {lemma_squeezed_add, lemma_add_nothing, lemma_nothing_add};

    lemma_blank_literals();
    lemma_find_head_filled(k);
    lemma_head_text("tvm_simd_find_byte_p"@, k);
}

proof fn lemma_find_cur_text(k: nat)
    ensures
        squeezed(code_text(set_cur())) == squeezed("(local.set $"@) + squeezed("cur"@) + (squeezed("(local.get $"@)
        + squeezed("off"@) + squeezed(")"@)) + squeezed(")"@),
{
    lemma_get_text("off"@);
    lemma_assign_text("cur"@, get("off"@));
    assert(set_cur() == Code::Assign("cur"@, get("off"@)));
}

proof fn lemma_find_cur_words()
    ensures
        "    (local.set $cur (local.get $off))\n"@ == (("  "@ + "  "@) + "(local.set $"@ + "cur"@ + " "@ + ("(local.get $"@ + "off"@ + ")"@)
        + ")"@) + "\n"@,
{
    reveal_strlit("    (local.set $cur (local.get $off))\n");
    reveal_strlit("  ");
    reveal_strlit("(local.set $");
    reveal_strlit("cur");
    reveal_strlit(" ");
    reveal_strlit("(local.get $");
    reveal_strlit("off");
    reveal_strlit(")");
    reveal_strlit("\n");
    assert("    (local.set $cur (local.get $off))\n"@ =~= (("  "@ + "  "@) + "(local.set $"@ + "cur"@ + " "@ + ("(local.get $"@ + "off"@ + ")"@)
        + ")"@) + "\n"@);
}

proof fn lemma_find_cur_filled(k: nat)
    ensures
        fill("    (local.set $cur (local.get $off))\n"@, k) == (("  "@ + "  "@) + "(local.set $"@ + "cur"@ + " "@ + ("(local.get $"@ + "off"@ + ")"@)
        + ")"@) + "\n"@,
{
    broadcast use lemma_fill_add;

    lemma_find_cur_words();
    lemma_plain_words(k);
}

proof fn lemma_find_cur(k: nat)
    ensures
        squeezed(fill("    (local.set $cur (local.get $off))\n"@, k)) == squeezed(code_text(set_cur())),
{
    broadcast use {lemma_squeezed_add, lemma_add_nothing, lemma_nothing_add};

    lemma_blank_literals();
    lemma_find_cur_filled(k);
    lemma_find_cur_text(k);
}

proof fn lemma_find_end_text(k: nat)
    ensures
        squeezed(code_text(set_end())) == squeezed("(local.set $"@) + squeezed("end"@) + (squeezed("("@) + squeezed("i32.add"@)
        + (squeezed("(local.get $"@) + squeezed("off"@) + squeezed(")"@))
        + (squeezed("(local.get $"@) + squeezed("len"@) + squeezed(")"@)) + squeezed(")"@))
        + squeezed(")"@),
{
    lemma_get_text("off"@);
    lemma_get_text("len"@);
    lemma_bin_text("i32.add"@, get("off"@), get("len"@));
    lemma_assign_text("end"@, bin("i32.add"@, get("off"@), get("len"@)));
    assert(set_end() == Code::Assign("end"@, bin("i32.add"@, get("off"@), get("len"@))));
}

proof fn lemma_find_end_words()
    ensures
        "    (local.set $end (i32.add (local.get $off) (local.get $len)))\n"@ == (("  "@ + "  "@) + "(local.set $"@ + "end"@ + " "@ + ("("@ + "i32.add"@ + " "@
        + ("(local.get $"@ + "off"@ + ")"@) + " "@ + ("(local.get $"@ + "len"@ + ")"@) + ")"@)
        + ")"@) + "\n"@,
{
    reveal_strlit("    (local.set $end (i32.add (local.get $off) (local.get $len)))\n");
    reveal_strlit("  ");
    reveal_strlit("(local.set $");
    reveal_strlit("end");
    reveal_strlit(" ");
    reveal_strlit("(");
    reveal_strlit("i32.add");
    reveal_strlit("(local.get $");
    reveal_strlit("off");
    reveal_strlit(")");
    reveal_strlit("len");
    reveal_strlit("\n");
    assert("    (local.set $end (i32.add (local.get $off) (local.get $len)))\n"@ =~= (("  "@ + "  "@) + "(local.set $"@ + "end"@ + " "@ + ("("@ + "i32.add"@ + " "@
        + ("(local.get $"@ + "off"@ + ")"@) + " "@ + ("(local.get $"@ + "len"@ + ")"@) + ")"@)
        + ")"@) + "\n"@);
}

proof fn lemma_find_end_filled(k: nat)
    ensures
        fill("    (local.set $end (i32.add (local.get $off) (local.get $len)))\n"@, k) == (("  "@ + "  "@) + "(local.set $"@ + "end"@ + " "@ + ("("@ + "i32.add"@ + " "@
        + ("(local.get $"@ + "off"@ + ")"@) + " "@ + ("(local.get $"@ + "len"@ + ")"@) + ")"@)
        + ")"@) + "\n"@,
{
    broadcast use lemma_fill_add;

    lemma_find_end_words();
    lemma_plain_words(k);
}

proof fn lemma_find_end(k: nat)
    ensures
        squeezed(fill("    (local.set $end (i32.add (local.get $off) (local.get $len)))\n"@, k)) == squeezed(code_text(set_end())),
{
    broadcast use {lemma_squeezed_add, lemma_add_nothing, lemma_nothing_add};

    lemma_blank_literals();
    lemma_find_end_filled(k);
    lemma_find_end_text(k);
}

proof fn lemma_find_vec_end_text(k: nat)
    ensures
        squeezed(code_text(set_vec_end())) == squeezed("(local.set $"@) + squeezed("vec_end"@) + (squeezed("("@) + squeezed("i32.add"@)
        + (squeezed("(local.get $"@) + squeezed("off"@) + squeezed(")"@)) + (squeezed("("@)
        + squeezed("i32.and"@) + (squeezed("(local.get $"@) + squeezed("len"@) + squeezed(")"@))
        + (squeezed("("@) + squeezed("i32.const"@) + squeezed("-16"@) + squeezed(")"@))
        + squeezed(")"@)) + squeezed(")"@)) + squeezed(")"@),
{
    lemma_get_text("off"@);
    lemma_get_text("len"@);
    lemma_lit_text("i32.const"@, "-16"@);
    lemma_bin_text("i32.and"@, get("len"@), Term::Lit("i32.const"@, "-16"@));
    lemma_bin_text("i32.add"@, get("off"@), bin("i32.and"@, get("len"@), Term::Lit("i32.const"@, "-16"@)));
    lemma_assign_text("vec_end"@, bin("i32.add"@, get("off"@), bin("i32.and"@, get("len"@), Term::Lit("i32.const"@, "-16"@))));
    assert(set_vec_end() == Code::Assign("vec_end"@, bin("i32.add"@, get("off"@), bin("i32.and"@, get("len"@), Term::Lit("i32.const"@, "-16"@)))));
}

proof fn lemma_find_vec_end_words()
    ensures
        "    (local.set $vec_end\n      (i32.add (local.get $off)\n               (i32.and (local.get $len) (i32.const -16))))\n"@ == (("  "@ + "  "@) + "(local.set $"@ + "vec_end"@ + ("\n"@ + "  "@ + "  "@ + "  "@) + ("("@
        + "i32.add"@ + " "@ + ("(local.get $"@ + "off"@ + ")"@) + ("\n"@ + "  "@ + "  "@ + "  "@
        + "  "@ + "  "@ + "  "@ + "  "@ + " "@) + ("("@ + "i32.and"@ + " "@ + ("(local.get $"@
        + "len"@ + ")"@) + " "@ + ("("@ + "i32.const"@ + " "@ + "-16"@ + ")"@) + ")"@) + ")"@)
        + ")"@) + "\n"@,
{
    reveal_strlit("    (local.set $vec_end\n      (i32.add (local.get $off)\n               (i32.and (local.get $len) (i32.const -16))))\n");
    reveal_strlit("  ");
    reveal_strlit("(local.set $");
    reveal_strlit("vec_end");
    reveal_strlit("\n");
    reveal_strlit("(");
    reveal_strlit("i32.add");
    reveal_strlit(" ");
    reveal_strlit("(local.get $");
    reveal_strlit("off");
    reveal_strlit(")");
    reveal_strlit("i32.and");
    reveal_strlit("len");
    reveal_strlit("i32.const");
    reveal_strlit("-16");
    assert("    (local.set $vec_end\n      (i32.add (local.get $off)\n               (i32.and (local.get $len) (i32.const -16))))\n"@ =~= (("  "@ + "  "@) + "(local.set $"@ + "vec_end"@ + ("\n"@ + "  "@ + "  "@ + "  "@) + ("("@
        + "i32.add"@ + " "@ + ("(local.get $"@ + "off"@ + ")"@) + ("\n"@ + "  "@ + "  "@ + "  "@
        + "  "@ + "  "@ + "  "@ + "  "@ + " "@) + ("("@ + "i32.and"@ + " "@ + ("(local.get $"@
        + "len"@ + ")"@) + " "@ + ("("@ + "i32.const"@ + " "@ + "-16"@ + ")"@) + ")"@) + ")"@)
        + ")"@) + "\n"@);
}

proof fn lemma_find_vec_end_filled(k: nat)
    ensures
        fill("    (local.set $vec_end\n      (i32.add (local.get $off)\n               (i32.and (local.get $len) (i32.const -16))))\n"@, k) == (("  "@ + "  "@) + "(local.set $"@ + "vec_end"@ + ("\n"@ + "  "@ + "  "@ + "  "@) + ("("@
        + "i32.add"@ + " "@ + ("(local.get $"@ + "off"@ + ")"@) + ("\n"@ + "  "@ + "  "@ + "  "@
        + "  "@ + "  "@ + "  "@ + "  "@ + " "@) + ("("@ + "i32.and"@ + " "@ + ("(local.get $"@
        + "len"@ + ")"@) + " "@ + ("("@ + "i32.const"@ + " "@ + "-16"@ + ")"@) + ")"@) + ")"@)
        + ")"@) + "\n"@,
{
    broadcast use lemma_fill_add;

    lemma_find_vec_end_words();
    lemma_plain_words(k);
}

proof fn lemma_find_vec_end(k: nat)
    ensures
        squeezed(fill("    (local.set $vec_end\n      (i32.add (local.get $off)\n               (i32.and (local.get $len) (i32.const -16))))\n"@, k)) == squeezed(code_text(set_vec_end())),
{
    broadcast use {lemma_squeezed_add, lemma_add_nothing, lemma_nothing_add};

    lemma_blank_literals();
    lemma_find_vec_end_filled(k);
    lemma_find_vec_end_text(k);
}

proof fn lemma_find_spread_text(k: nat)
    ensures
        squeezed(code_text(spread())) == squeezed("(local.set $"@) + squeezed("broadcast"@) + (squeezed("("@)
        + squeezed("i8x16.splat"@) + (squeezed("(local.get $"@) + squeezed("byte"@)
        + squeezed(")"@)) + squeezed(")"@)) + squeezed(")"@),
{
    lemma_get_text("byte"@);
    lemma_un_text("i8x16.splat"@, get("byte"@));
    lemma_assign_text("broadcast"@, un("i8x16.splat"@, get("byte"@)));
    assert(spread() == Code::Assign("broadcast"@, un("i8x16.splat"@, get("byte"@))));
}

proof fn lemma_find_spread_words()
    ensures
        "    (local.set $broadcast (i8x16.splat (local.get $byte)))\n"@ == (("  "@ + "  "@) + "(local.set $"@ + "broadcast"@ + " "@ + ("("@ + "i8x16.splat"@ + " "@
        + ("(local.get $"@ + "byte"@ + ")"@) + ")"@) + ")"@) + "\n"@,
{
    reveal_strlit("    (local.set $broadcast (i8x16.splat (local.get $byte)))\n");
    reveal_strlit("  ");
    reveal_strlit("(local.set $");
    reveal_strlit("broadcast");
    reveal_strlit(" ");
    reveal_strlit("(");
    reveal_strlit("i8x16.splat");
    reveal_strlit("(local.get $");
    reveal_strlit("byte");
    reveal_strlit(")");
    reveal_strlit("\n");
    assert("    (local.set $broadcast (i8x16.splat (local.get $byte)))\n"@ =~= (("  "@ + "  "@) + "(local.set $"@ + "broadcast"@ + " "@ + ("("@ + "i8x16.splat"@ + " "@
        + ("(local.get $"@ + "byte"@ + ")"@) + ")"@) + ")"@) + "\n"@);
}

proof fn lemma_find_spread_filled(k: nat)
    ensures
        fill("    (local.set $broadcast (i8x16.splat (local.get $byte)))\n"@, k) == (("  "@ + "  "@) + "(local.set $"@ + "broadcast"@ + " "@ + ("("@ + "i8x16.splat"@ + " "@
        + ("(local.get $"@ + "byte"@ + ")"@) + ")"@) + ")"@) + "\n"@,
{
    broadcast use lemma_fill_add;

    lemma_find_spread_words();
    lemma_plain_words(k);
}

proof fn lemma_find_spread(k: nat)
    ensures
        squeezed(fill("    (local.set $broadcast (i8x16.splat (local.get $byte)))\n"@, k)) == squeezed(code_text(spread())),
{
    broadcast use {lemma_squeezed_add, lemma_add_nothing, lemma_nothing_add};

    lemma_blank_literals();
    lemma_find_spread_filled(k);
    lemma_find_spread_text(k);
}

proof fn lemma_find_vec_words()
    ensures
        "    (block $vec_done\n      (loop $vec_continue\n        (br_if $vec_done (i32.eq (local.get $cur) (local.get $vec_end)))\n"@ == (("  "@ + "  "@) + "(block $"@) + "vec_done"@ + ("\n"@ + "  "@ + "  "@ + " "@)
        + " (loop $"@ + "vec_continue"@ + ("\n"@ + "  "@ + "  "@ + "  "@ + " "@) + " (br_if $"@
        + "vec_done"@ + " "@ + ("("@ + "i32.eq"@ + " "@ + ("(local.get $"@ + "cur"@ + ")"@) + " "@
        + ("(local.get $"@ + "vec_end"@ + ")"@) + ")"@) + ")"@ + "\n"@,
{
    reveal_strlit("    (block $vec_done\n      (loop $vec_continue\n        (br_if $vec_done (i32.eq (local.get $cur) (local.get $vec_end)))\n");
    reveal_strlit("  ");
    reveal_strlit("(block $");
    reveal_strlit("vec_done");
    reveal_strlit("\n");
    reveal_strlit(" ");
    reveal_strlit(" (loop $");
    reveal_strlit("vec_continue");
    reveal_strlit(" (br_if $");
    reveal_strlit("(");
    reveal_strlit("i32.eq");
    reveal_strlit("(local.get $");
    reveal_strlit("cur");
    reveal_strlit(")");
    reveal_strlit("vec_end");
    assert("    (block $vec_done\n      (loop $vec_continue\n        (br_if $vec_done (i32.eq (local.get $cur) (local.get $vec_end)))\n"@ =~= (("  "@ + "  "@) + "(block $"@) + "vec_done"@ + ("\n"@ + "  "@ + "  "@ + " "@)
        + " (loop $"@ + "vec_continue"@ + ("\n"@ + "  "@ + "  "@ + "  "@ + " "@) + " (br_if $"@
        + "vec_done"@ + " "@ + ("("@ + "i32.eq"@ + " "@ + ("(local.get $"@ + "cur"@ + ")"@) + " "@
        + ("(local.get $"@ + "vec_end"@ + ")"@) + ")"@) + ")"@ + "\n"@);
}

proof fn lemma_find_vec_filled(k: nat)
    ensures
        fill("    (block $vec_done\n      (loop $vec_continue\n        (br_if $vec_done (i32.eq (local.get $cur) (local.get $vec_end)))\n"@, k) == (("  "@ + "  "@) + "(block $"@) + "vec_done"@ + ("\n"@ + "  "@ + "  "@ + " "@)
        + " (loop $"@ + "vec_continue"@ + ("\n"@ + "  "@ + "  "@ + "  "@ + " "@) + " (br_if $"@
        + "vec_done"@ + " "@ + ("("@ + "i32.eq"@ + " "@ + ("(local.get $"@ + "cur"@ + ")"@) + " "@
        + ("(local.get $"@ + "vec_end"@ + ")"@) + ")"@) + ")"@ + "\n"@,
{
    broadcast use lemma_fill_add;

    lemma_find_vec_words();
    lemma_plain_words(k);
}

proof fn lemma_find_vec(k: nat)
    ensures
        squeezed(fill("    (block $vec_done\n      (loop $vec_continue\n        (br_if $vec_done (i32.eq (local.get $cur) (local.get $vec_end)))\n"@, k)) == opening_text("vec_done"@, "vec_continue"@, bin("i32.eq"@, get("cur"@), get("vec_end"@))),
{
    broadcast use {lemma_squeezed_add, lemma_add_nothing, lemma_nothing_add};

    lemma_blank_literals();
    lemma_find_vec_filled(k);
    lemma_get_text("cur"@);
    lemma_get_text("vec_end"@);
    lemma_bin_text("i32.eq"@, get("cur"@), get("vec_end"@));
}

proof fn lemma_find_mask_text(k: nat)
    ensures
        squeezed(code_text(set_mask(k))) == squeezed("(local.set $"@) + squeezed("mask"@) + (squeezed("("@)
        + squeezed("i8x16.bitmask"@) + (squeezed("("@) + squeezed("i8x16.eq"@) + (squeezed("("@)
        + squeezed("v128.load"@) + squeezed(decimal(k)) + (squeezed("(local.get $"@)
        + squeezed("cur"@) + squeezed(")"@)) + squeezed(")"@)) + (squeezed("(local.get $"@)
        + squeezed("broadcast"@) + squeezed(")"@)) + squeezed(")"@)) + squeezed(")"@))
        + squeezed(")"@),
{
    lemma_get_text("cur"@);
    lemma_load_text("v128.load"@, k, get("cur"@));
    lemma_get_text("broadcast"@);
    lemma_bin_text("i8x16.eq"@, Term::Load("v128.load"@, k, Box::new(get("cur"@))), get("broadcast"@));
    lemma_un_text("i8x16.bitmask"@, bin("i8x16.eq"@, Term::Load("v128.load"@, k, Box::new(get("cur"@))), get("broadcast"@)));
    lemma_assign_text("mask"@, un("i8x16.bitmask"@, bin("i8x16.eq"@, Term::Load("v128.load"@, k, Box::new(get("cur"@))), get("broadcast"@))));
    assert(set_mask(k) == Code::Assign("mask"@, un("i8x16.bitmask"@, bin("i8x16.eq"@, Term::Load("v128.load"@, k, Box::new(get("cur"@))), get("broadcast"@)))));
}

proof fn lemma_find_mask_words()
    ensures
        "        (local.set $mask\n          (i8x16.bitmask\n            (i8x16.eq\n              (v128.load @ (local.get $cur))\n              (local.get $broadcast))))\n"@ == (("  "@ + "  "@ + "  "@ + "  "@) + "(local.set $"@ + "mask"@ + ("\n"@ + "  "@ + "  "@
        + "  "@ + "  "@ + "  "@) + ("("@ + "i8x16.bitmask"@ + ("\n"@ + "  "@ + "  "@ + "  "@
        + "  "@ + "  "@ + "  "@) + ("("@ + "i8x16.eq"@ + ("\n"@ + "  "@ + "  "@ + "  "@ + "  "@
        + "  "@ + "  "@ + "  "@) + ("("@ + "v128.load"@ + " "@ + "@"@ + " "@ + ("(local.get $"@
        + "cur"@ + ")"@) + ")"@) + ("\n"@ + "  "@ + "  "@ + "  "@ + "  "@ + "  "@ + "  "@ + "  "@)
        + ("(local.get $"@ + "broadcast"@ + ")"@) + ")"@) + ")"@) + ")"@) + "\n"@,
{
    reveal_strlit("        (local.set $mask\n          (i8x16.bitmask\n            (i8x16.eq\n              (v128.load @ (local.get $cur))\n              (local.get $broadcast))))\n");
    reveal_strlit("  ");
    reveal_strlit("(local.set $");
    reveal_strlit("mask");
    reveal_strlit("\n");
    reveal_strlit("(");
    reveal_strlit("i8x16.bitmask");
    reveal_strlit("i8x16.eq");
    reveal_strlit("v128.load");
    reveal_strlit(" ");
    reveal_strlit("@");
    reveal_strlit("(local.get $");
    reveal_strlit("cur");
    reveal_strlit(")");
    reveal_strlit("broadcast");
    assert("        (local.set $mask\n          (i8x16.bitmask\n            (i8x16.eq\n              (v128.load @ (local.get $cur))\n              (local.get $broadcast))))\n"@ =~= (("  "@ + "  "@ + "  "@ + "  "@) + "(local.set $"@ + "mask"@ + ("\n"@ + "  "@ + "  "@
        + "  "@ + "  "@ + "  "@) + ("("@ + "i8x16.bitmask"@ + ("\n"@ + "  "@ + "  "@ + "  "@
        + "  "@ + "  "@ + "  "@) + ("("@ + "i8x16.eq"@ + ("\n"@ + "  "@ + "  "@ + "  "@ + "  "@
        + "  "@ + "  "@ + "  "@) + ("("@ + "v128.load"@ + " "@ + "@"@ + " "@ + ("(local.get $"@
        + "cur"@ + ")"@) + ")"@) + ("\n"@ + "  "@ + "  "@ + "  "@ + "  "@ + "  "@ + "  "@ + "  "@)
        + ("(local.get $"@ + "broadcast"@ + ")"@) + ")"@) + ")"@) + ")"@) + "\n"@);
}

proof fn lemma_find_mask_filled(k: nat)
    ensures
        fill("        (local.set $mask\n          (i8x16.bitmask\n            (i8x16.eq\n              (v128.load @ (local.get $cur))\n              (local.get $broadcast))))\n"@, k) == (("  "@ + "  "@ + "  "@ + "  "@) + "(local.set $"@ + "mask"@ + ("\n"@ + "  "@ + "  "@
        + "  "@ + "  "@ + "  "@) + ("("@ + "i8x16.bitmask"@ + ("\n"@ + "  "@ + "  "@ + "  "@
        + "  "@ + "  "@ + "  "@) + ("("@ + "i8x16.eq"@ + ("\n"@ + "  "@ + "  "@ + "  "@ + "  "@
        + "  "@ + "  "@ + "  "@) + ("("@ + "v128.load"@ + " "@ + decimal(k) + " "@
        + ("(local.get $"@ + "cur"@ + ")"@) + ")"@) + ("\n"@ + "  "@ + "  "@ + "  "@ + "  "@
        + "  "@ + "  "@ + "  "@) + ("(local.get $"@ + "broadcast"@ + ")"@) + ")"@) + ")"@) + ")"@)
        + "\n"@,
{
    broadcast use lemma_fill_add;

    lemma_find_mask_words();
    lemma_plain_words(k);
    lemma_fill_place(k);
}

proof fn lemma_find_mask(k: nat)
    ensures
        squeezed(fill("        (local.set $mask\n          (i8x16.bitmask\n            (i8x16.eq\n              (v128.load @ (local.get $cur))\n              (local.get $broadcast))))\n"@, k)) == squeezed(code_text(set_mask(k))),
{
    broadcast use {lemma_squeezed_add, lemma_add_nothing, lemma_nothing_add};

    lemma_blank_literals();
    lemma_find_mask_filled(k);
    lemma_find_mask_text(k);
}

proof fn lemma_find_there_text(k: nat)
    ensures
        squeezed(code_text(Code::Exit(any_same(), place_in_vec()))) == squeezed("(if "@) + (squeezed("("@) + squeezed("i32.ne"@) + (squeezed("(local.get $"@) + squeezed("mask"@) + squeezed(")"@)) + (squeezed("("@) + squeezed("i32.const"@) + squeezed("0"@) + squeezed(")"@)) + squeezed(")"@)) + squeezed(" (then"@) + squeezed("(return "@) + (squeezed("("@) + squeezed("i32.sub"@) + (squeezed("("@) + squeezed("i32.add"@) + (squeezed("(local.get $"@) + squeezed("cur"@) + squeezed(")"@)) + (squeezed("("@) + squeezed("i32.ctz"@) + (squeezed("(local.get $"@) + squeezed("mask"@) + squeezed(")"@)) + squeezed(")"@)) + squeezed(")"@)) + (squeezed("(local.get $"@) + squeezed("off"@) + squeezed(")"@)) + squeezed(")"@)) + squeezed(")"@) + squeezed(")"@) + squeezed(")"@),
{
    lemma_get_text("mask"@);
    lemma_lit_text("i32.const"@, "0"@);
    lemma_bin_text("i32.ne"@, get("mask"@), Term::Lit("i32.const"@, "0"@));
    lemma_get_text("cur"@);
    lemma_un_text("i32.ctz"@, get("mask"@));
    lemma_bin_text("i32.add"@, get("cur"@), un("i32.ctz"@, get("mask"@)));
    lemma_get_text("off"@);
    lemma_bin_text("i32.sub"@, bin("i32.add"@, get("cur"@), un("i32.ctz"@, get("mask"@))), get("off"@));
    lemma_then_word();
    lemma_exit_text(bin("i32.ne"@, get("mask"@), Term::Lit("i32.const"@, "0"@)), bin("i32.sub"@, bin("i32.add"@, get("cur"@), un("i32.ctz"@, get("mask"@))), get("off"@)));
}

proof fn lemma_find_there_words()
    ensures
        "        (if (i32.ne (local.get $mask) (i32.const 0))\n          (then\n            (return (i32.sub\n              (i32.add (local.get $cur) (i32.ctz (local.get $mask)))\n              (local.get $off)))))\n"@ == (("  "@ + "  "@ + "  "@ + "  "@) + "(if "@) + ("("@ + "i32.ne"@ + " "@ + ("(local.get $"@
        + "mask"@ + ")"@) + " "@ + ("("@ + "i32.const"@ + " "@ + "0"@ + ")"@) + ")"@) + ("\n"@
        + "  "@ + "  "@ + "  "@ + "  "@ + " "@) + " (then"@ + ("\n"@ + "  "@ + "  "@ + "  "@
        + "  "@ + "  "@ + "  "@) + "(return "@ + ("("@ + "i32.sub"@ + ("\n"@ + "  "@ + "  "@
        + "  "@ + "  "@ + "  "@ + "  "@ + "  "@) + ("("@ + "i32.add"@ + " "@ + ("(local.get $"@
        + "cur"@ + ")"@) + " "@ + ("("@ + "i32.ctz"@ + " "@ + ("(local.get $"@ + "mask"@ + ")"@)
        + ")"@) + ")"@) + ("\n"@ + "  "@ + "  "@ + "  "@ + "  "@ + "  "@ + "  "@ + "  "@)
        + ("(local.get $"@ + "off"@ + ")"@) + ")"@) + ")"@ + ")"@ + ")"@ + "\n"@,
{
    reveal_strlit("        (if (i32.ne (local.get $mask) (i32.const 0))\n          (then\n            (return (i32.sub\n              (i32.add (local.get $cur) (i32.ctz (local.get $mask)))\n              (local.get $off)))))\n");
    reveal_strlit("  ");
    reveal_strlit("(if ");
    reveal_strlit("(");
    reveal_strlit("i32.ne");
    reveal_strlit(" ");
    reveal_strlit("(local.get $");
    reveal_strlit("mask");
    reveal_strlit(")");
    reveal_strlit("i32.const");
    reveal_strlit("0");
    reveal_strlit("\n");
    reveal_strlit(" (then");
    reveal_strlit("(return ");
    reveal_strlit("i32.sub");
    reveal_strlit("i32.add");
    reveal_strlit("cur");
    reveal_strlit("i32.ctz");
    reveal_strlit("off");
    assert("        (if (i32.ne (local.get $mask) (i32.const 0))\n          (then\n            (return (i32.sub\n              (i32.add (local.get $cur) (i32.ctz (local.get $mask)))\n              (local.get $off)))))\n"@ =~= (("  "@ + "  "@ + "  "@ + "  "@) + "(if "@) + ("("@ + "i32.ne"@ + " "@ + ("(local.get $"@
        + "mask"@ + ")"@) + " "@ + ("("@ + "i32.const"@ + " "@ + "0"@ + ")"@) + ")"@) + ("\n"@
        + "  "@ + "  "@ + "  "@ + "  "@ + " "@) + " (then"@ + ("\n"@ + "  "@ + "  "@ + "  "@
        + "  "@ + "  "@ + "  "@) + "(return "@ + ("("@ + "i32.sub"@ + ("\n"@ + "  "@ + "  "@
        + "  "@ + "  "@ + "  "@ + "  "@ + "  "@) + ("("@ + "i32.add"@ + " "@ + ("(local.get $"@
        + "cur"@ + ")"@) + " "@ + ("("@ + "i32.ctz"@ + " "@ + ("(local.get $"@ + "mask"@ + ")"@)
        + ")"@) + ")"@) + ("\n"@ + "  "@ + "  "@ + "  "@ + "  "@ + "  "@ + "  "@ + "  "@)
        + ("(local.get $"@ + "off"@ + ")"@) + ")"@) + ")"@ + ")"@ + ")"@ + "\n"@);
}

proof fn lemma_find_there_filled(k: nat)
    ensures
        fill("        (if (i32.ne (local.get $mask) (i32.const 0))\n          (then\n            (return (i32.sub\n              (i32.add (local.get $cur) (i32.ctz (local.get $mask)))\n              (local.get $off)))))\n"@, k) == (("  "@ + "  "@ + "  "@ + "  "@) + "(if "@) + ("("@ + "i32.ne"@ + " "@ + ("(local.get $"@
        + "mask"@ + ")"@) + " "@ + ("("@ + "i32.const"@ + " "@ + "0"@ + ")"@) + ")"@) + ("\n"@
        + "  "@ + "  "@ + "  "@ + "  "@ + " "@) + " (then"@ + ("\n"@ + "  "@ + "  "@ + "  "@
        + "  "@ + "  "@ + "  "@) + "(return "@ + ("("@ + "i32.sub"@ + ("\n"@ + "  "@ + "  "@
        + "  "@ + "  "@ + "  "@ + "  "@ + "  "@) + ("("@ + "i32.add"@ + " "@ + ("(local.get $"@
        + "cur"@ + ")"@) + " "@ + ("("@ + "i32.ctz"@ + " "@ + ("(local.get $"@ + "mask"@ + ")"@)
        + ")"@) + ")"@) + ("\n"@ + "  "@ + "  "@ + "  "@ + "  "@ + "  "@ + "  "@ + "  "@)
        + ("(local.get $"@ + "off"@ + ")"@) + ")"@) + ")"@ + ")"@ + ")"@ + "\n"@,
{
    broadcast use lemma_fill_add;

    lemma_find_there_words();
    lemma_plain_words(k);
}

proof fn lemma_find_there(k: nat)
    ensures
        squeezed(fill("        (if (i32.ne (local.get $mask) (i32.const 0))\n          (then\n            (return (i32.sub\n              (i32.add (local.get $cur) (i32.ctz (local.get $mask)))\n              (local.get $off)))))\n"@, k)) == squeezed(code_text(Code::Exit(any_same(), place_in_vec()))),
{
    broadcast use {lemma_squeezed_add, lemma_add_nothing, lemma_nothing_add};

    lemma_blank_literals();
    lemma_find_there_filled(k);
    lemma_find_there_text(k);
}

proof fn lemma_find_step_text(k: nat)
    ensures
        squeezed(code_text(step_by("16"@))) == squeezed("(local.set $"@) + squeezed("cur"@) + (squeezed("("@) + squeezed("i32.add"@)
        + (squeezed("(local.get $"@) + squeezed("cur"@) + squeezed(")"@)) + (squeezed("("@)
        + squeezed("i32.const"@) + squeezed("16"@) + squeezed(")"@)) + squeezed(")"@))
        + squeezed(")"@),
{
    lemma_get_text("cur"@);
    lemma_lit_text("i32.const"@, "16"@);
    lemma_bin_text("i32.add"@, get("cur"@), Term::Lit("i32.const"@, "16"@));
    lemma_assign_text("cur"@, bin("i32.add"@, get("cur"@), Term::Lit("i32.const"@, "16"@)));
    assert(step_by("16"@) == Code::Assign("cur"@, bin("i32.add"@, get("cur"@), Term::Lit("i32.const"@, "16"@))));
}

proof fn lemma_find_step_words()
    ensures
        "        (local.set $cur (i32.add (local.get $cur) (i32.const 16)))\n"@ == (("  "@ + "  "@ + "  "@ + "  "@) + "(local.set $"@ + "cur"@ + " "@ + ("("@ + "i32.add"@
        + " "@ + ("(local.get $"@ + "cur"@ + ")"@) + " "@ + ("("@ + "i32.const"@ + " "@ + "16"@
        + ")"@) + ")"@) + ")"@) + "\n"@,
{
    reveal_strlit("        (local.set $cur (i32.add (local.get $cur) (i32.const 16)))\n");
    reveal_strlit("  ");
    reveal_strlit("(local.set $");
    reveal_strlit("cur");
    reveal_strlit(" ");
    reveal_strlit("(");
    reveal_strlit("i32.add");
    reveal_strlit("(local.get $");
    reveal_strlit(")");
    reveal_strlit("i32.const");
    reveal_strlit("16");
    reveal_strlit("\n");
    assert("        (local.set $cur (i32.add (local.get $cur) (i32.const 16)))\n"@ =~= (("  "@ + "  "@ + "  "@ + "  "@) + "(local.set $"@ + "cur"@ + " "@ + ("("@ + "i32.add"@
        + " "@ + ("(local.get $"@ + "cur"@ + ")"@) + " "@ + ("("@ + "i32.const"@ + " "@ + "16"@
        + ")"@) + ")"@) + ")"@) + "\n"@);
}

proof fn lemma_find_step_filled(k: nat)
    ensures
        fill("        (local.set $cur (i32.add (local.get $cur) (i32.const 16)))\n"@, k) == (("  "@ + "  "@ + "  "@ + "  "@) + "(local.set $"@ + "cur"@ + " "@ + ("("@ + "i32.add"@
        + " "@ + ("(local.get $"@ + "cur"@ + ")"@) + " "@ + ("("@ + "i32.const"@ + " "@ + "16"@
        + ")"@) + ")"@) + ")"@) + "\n"@,
{
    broadcast use lemma_fill_add;

    lemma_find_step_words();
    lemma_plain_words(k);
}

proof fn lemma_find_step(k: nat)
    ensures
        squeezed(fill("        (local.set $cur (i32.add (local.get $cur) (i32.const 16)))\n"@, k)) == squeezed(code_text(step_by("16"@))),
{
    broadcast use {lemma_squeezed_add, lemma_add_nothing, lemma_nothing_add};

    lemma_blank_literals();
    lemma_find_step_filled(k);
    lemma_find_step_text(k);
}

proof fn lemma_find_again_words()
    ensures
        "        (br $vec_continue)))\n"@ == (("  "@ + "  "@ + "  "@ + "  "@) + "(br $"@) + "vec_continue"@ + ")"@ + ")"@ + ")"@
        + "\n"@,
{
    reveal_strlit("        (br $vec_continue)))\n");
    reveal_strlit("  ");
    reveal_strlit("(br $");
    reveal_strlit("vec_continue");
    reveal_strlit(")");
    reveal_strlit("\n");
    assert("        (br $vec_continue)))\n"@ =~= (("  "@ + "  "@ + "  "@ + "  "@) + "(br $"@) + "vec_continue"@ + ")"@ + ")"@ + ")"@
        + "\n"@);
}

proof fn lemma_find_again_filled(k: nat)
    ensures
        fill("        (br $vec_continue)))\n"@, k) == (("  "@ + "  "@ + "  "@ + "  "@) + "(br $"@) + "vec_continue"@ + ")"@ + ")"@ + ")"@
        + "\n"@,
{
    broadcast use lemma_fill_add;

    lemma_find_again_words();
    lemma_plain_words(k);
}

proof fn lemma_find_again(k: nat)
    ensures
        squeezed(fill("        (br $vec_continue)))\n"@, k)) == closing_text("vec_continue"@),
{
    broadcast use {lemma_squeezed_add, lemma_add_nothing, lemma_nothing_add};

    lemma_blank_literals();
    lemma_find_again_filled(k);
}

proof fn lemma_find_tail_words()
    ensures
        "    (block $tail_done\n      (loop $tail_continue\n        (br_if $tail_done (i32.eq (local.get $cur) (local.get $end)))\n"@ == (("  "@ + "  "@) + "(block $"@) + "tail_done"@ + ("\n"@ + "  "@ + "  "@ + " "@)
        + " (loop $"@ + "tail_continue"@ + ("\n"@ + "  "@ + "  "@ + "  "@ + " "@) + " (br_if $"@
        + "tail_done"@ + " "@ + ("("@ + "i32.eq"@ + " "@ + ("(local.get $"@ + "cur"@ + ")"@)
        + " "@ + ("(local.get $"@ + "end"@ + ")"@) + ")"@) + ")"@ + "\n"@,
{
    reveal_strlit("    (block $tail_done\n      (loop $tail_continue\n        (br_if $tail_done (i32.eq (local.get $cur) (local.get $end)))\n");
    reveal_strlit("  ");
    reveal_strlit("(block $");
    reveal_strlit("tail_done");
    reveal_strlit("\n");
    reveal_strlit(" ");
    reveal_strlit(" (loop $");
    reveal_strlit("tail_continue");
    reveal_strlit(" (br_if $");
    reveal_strlit("(");
    reveal_strlit("i32.eq");
    reveal_strlit("(local.get $");
    reveal_strlit("cur");
    reveal_strlit(")");
    reveal_strlit("end");
    assert("    (block $tail_done\n      (loop $tail_continue\n        (br_if $tail_done (i32.eq (local.get $cur) (local.get $end)))\n"@ =~= (("  "@ + "  "@) + "(block $"@) + "tail_done"@ + ("\n"@ + "  "@ + "  "@ + " "@)
        + " (loop $"@ + "tail_continue"@ + ("\n"@ + "  "@ + "  "@ + "  "@ + " "@) + " (br_if $"@
        + "tail_done"@ + " "@ + ("("@ + "i32.eq"@ + " "@ + ("(local.get $"@ + "cur"@ + ")"@)
        + " "@ + ("(local.get $"@ + "end"@ + ")"@) + ")"@) + ")"@ + "\n"@);
}

proof fn lemma_find_tail_filled(k: nat)
    ensures
        fill("    (block $tail_done\n      (loop $tail_continue\n        (br_if $tail_done (i32.eq (local.get $cur) (local.get $end)))\n"@, k) == (("  "@ + "  "@) + "(block $"@) + "tail_done"@ + ("\n"@ + "  "@ + "  "@ + " "@)
        + " (loop $"@ + "tail_continue"@ + ("\n"@ + "  "@ + "  "@ + "  "@ + " "@) + " (br_if $"@
        + "tail_done"@ + " "@ + ("("@ + "i32.eq"@ + " "@ + ("(local.get $"@ + "cur"@ + ")"@)
        + " "@ + ("(local.get $"@ + "end"@ + ")"@) + ")"@) + ")"@ + "\n"@,
{
    broadcast use lemma_fill_add;

    lemma_find_tail_words();
    lemma_plain_words(k);
}

proof fn lemma_find_tail(k: nat)
    ensures
        squeezed(fill("    (block $tail_done\n      (loop $tail_continue\n        (br_if $tail_done (i32.eq (local.get $cur) (local.get $end)))\n"@, k)) == opening_text("tail_done"@, "tail_continue"@, bin("i32.eq"@, get("cur"@), get("end"@))),
{
    broadcast use {lemma_squeezed_add, lemma_add_nothing, lemma_nothing_add};

    lemma_blank_literals();
    lemma_find_tail_filled(k);
    lemma_get_text("cur"@);
    lemma_get_text("end"@);
    lemma_bin_text("i32.eq"@, get("cur"@), get("end"@));
}

proof fn lemma_find_here_text(k: nat)
    ensures
        squeezed(code_text(Code::Exit(is_byte(k), place_here()))) == squeezed("(if "@) + (squeezed("("@) + squeezed("i32.eq"@) + (squeezed("("@) + squeezed("i32.load8_u"@) + squeezed(decimal(k)) + (squeezed("(local.get $"@) + squeezed("cur"@) + squeezed(")"@)) + squeezed(")"@)) + (squeezed("(local.get $"@) + squeezed("byte"@) + squeezed(")"@)) + squeezed(")"@)) + squeezed(" (then"@) + squeezed("(return "@) + (squeezed("("@) + squeezed("i32.sub"@) + (squeezed("(local.get $"@) + squeezed("cur"@) + squeezed(")"@)) + (squeezed("(local.get $"@) + squeezed("off"@) + squeezed(")"@)) + squeezed(")"@)) + squeezed(")"@) + squeezed(")"@) + squeezed(")"@),
{
    lemma_get_text("cur"@);
    lemma_load_text("i32.load8_u"@, k, get("cur"@));
    lemma_get_text("byte"@);
    lemma_bin_text("i32.eq"@, Term::Load("i32.load8_u"@, k, Box::new(get("cur"@))), get("byte"@));
    lemma_get_text("off"@);
    lemma_bin_text("i32.sub"@, get("cur"@), get("off"@));
    lemma_then_word();
    lemma_exit_text(bin("i32.eq"@, Term::Load("i32.load8_u"@, k, Box::new(get("cur"@))), get("byte"@)), bin("i32.sub"@, get("cur"@), get("off"@)));
}

proof fn lemma_find_here_words()
    ensures
        "        (if (i32.eq (i32.load8_u @ (local.get $cur)) (local.get $byte))\n          (then\n            (return (i32.sub (local.get $cur) (local.get $off)))))\n"@ == (("  "@ + "  "@ + "  "@ + "  "@) + "(if "@) + ("("@ + "i32.eq"@ + " "@ + ("("@
        + "i32.load8_u"@ + " "@ + "@"@ + " "@ + ("(local.get $"@ + "cur"@ + ")"@) + ")"@) + " "@
        + ("(local.get $"@ + "byte"@ + ")"@) + ")"@) + ("\n"@ + "  "@ + "  "@ + "  "@ + "  "@
        + " "@) + " (then"@ + ("\n"@ + "  "@ + "  "@ + "  "@ + "  "@ + "  "@ + "  "@)
        + "(return "@ + ("("@ + "i32.sub"@ + " "@ + ("(local.get $"@ + "cur"@ + ")"@) + " "@
        + ("(local.get $"@ + "off"@ + ")"@) + ")"@) + ")"@ + ")"@ + ")"@ + "\n"@,
{
    reveal_strlit("        (if (i32.eq (i32.load8_u @ (local.get $cur)) (local.get $byte))\n          (then\n            (return (i32.sub (local.get $cur) (local.get $off)))))\n");
    reveal_strlit("  ");
    reveal_strlit("(if ");
    reveal_strlit("(");
    reveal_strlit("i32.eq");
    reveal_strlit(" ");
    reveal_strlit("i32.load8_u");
    reveal_strlit("@");
    reveal_strlit("(local.get $");
    reveal_strlit("cur");
    reveal_strlit(")");
    reveal_strlit("byte");
    reveal_strlit("\n");
    reveal_strlit(" (then");
    reveal_strlit("(return ");
    reveal_strlit("i32.sub");
    reveal_strlit("off");
    assert("        (if (i32.eq (i32.load8_u @ (local.get $cur)) (local.get $byte))\n          (then\n            (return (i32.sub (local.get $cur) (local.get $off)))))\n"@ =~= (("  "@ + "  "@ + "  "@ + "  "@) + "(if "@) + ("("@ + "i32.eq"@ + " "@ + ("("@
        + "i32.load8_u"@ + " "@ + "@"@ + " "@ + ("(local.get $"@ + "cur"@ + ")"@) + ")"@) + " "@
        + ("(local.get $"@ + "byte"@ + ")"@) + ")"@) + ("\n"@ + "  "@ + "  "@ + "  "@ + "  "@
        + " "@) + " (then"@ + ("\n"@ + "  "@ + "  "@ + "  "@ + "  "@ + "  "@ + "  "@)
        + "(return "@ + ("("@ + "i32.sub"@ + " "@ + ("(local.get $"@ + "cur"@ + ")"@) + " "@
        + ("(local.get $"@ + "off"@ + ")"@) + ")"@) + ")"@ + ")"@ + ")"@ + "\n"@);
}

proof fn lemma_find_here_filled(k: nat)
    ensures
        fill("        (if (i32.eq (i32.load8_u @ (local.get $cur)) (local.get $byte))\n          (then\n            (return (i32.sub (local.get $cur) (local.get $off)))))\n"@, k) == (("  "@ + "  "@ + "  "@ + "  "@) + "(if "@) + ("("@ + "i32.eq"@ + " "@ + ("("@
        + "i32.load8_u"@ + " "@ + decimal(k) + " "@ + ("(local.get $"@ + "cur"@ + ")"@) + ")"@)
        + " "@ + ("(local.get $"@ + "byte"@ + ")"@) + ")"@) + ("\n"@ + "  "@ + "  "@ + "  "@
        + "  "@ + " "@) + " (then"@ + ("\n"@ + "  "@ + "  "@ + "  "@ + "  "@ + "  "@ + "  "@)
        + "(return "@ + ("("@ + "i32.sub"@ + " "@ + ("(local.get $"@ + "cur"@ + ")"@) + " "@
        + ("(local.get $"@ + "off"@ + ")"@) + ")"@) + ")"@ + ")"@ + ")"@ + "\n"@,
{
    broadcast use lemma_fill_add;

    lemma_find_here_words();
    lemma_plain_words(k);
    lemma_fill_place(k);
}

proof fn lemma_find_here(k: nat)
    ensures
        squeezed(fill("        (if (i32.eq (i32.load8_u @ (local.get $cur)) (local.get $byte))\n          (then\n            (return (i32.sub (local.get $cur) (local.get $off)))))\n"@, k)) == squeezed(code_text(Code::Exit(is_byte(k), place_here()))),
{
    broadcast use {lemma_squeezed_add, lemma_add_nothing, lemma_nothing_add};

    lemma_blank_literals();
    lemma_find_here_filled(k);
    lemma_find_here_text(k);
}

proof fn lemma_find_next_text(k: nat)
    ensures
        squeezed(code_text(step_by("1"@))) == squeezed("(local.set $"@) + squeezed("cur"@) + (squeezed("("@) + squeezed("i32.add"@)
        + (squeezed("(local.get $"@) + squeezed("cur"@) + squeezed(")"@)) + (squeezed("("@)
        + squeezed("i32.const"@) + squeezed("1"@) + squeezed(")"@)) + squeezed(")"@))
        + squeezed(")"@),
{
    lemma_get_text("cur"@);
    lemma_lit_text("i32.const"@, "1"@);
    lemma_bin_text("i32.add"@, get("cur"@), Term::Lit("i32.const"@, "1"@));
    lemma_assign_text("cur"@, bin("i32.add"@, get("cur"@), Term::Lit("i32.const"@, "1"@)));
    assert(step_by("1"@) == Code::Assign("cur"@, bin("i32.add"@, get("cur"@), Term::Lit("i32.const"@, "1"@))));
}

proof fn lemma_find_next_words()
    ensures
        "        (local.set $cur (i32.add (local.get $cur) (i32.const 1)))\n"@ == (("  "@ + "  "@ + "  "@ + "  "@) + "(local.set $"@ + "cur"@ + " "@ + ("("@ + "i32.add"@
        + " "@ + ("(local.get $"@ + "cur"@ + ")"@) + " "@ + ("("@ + "i32.const"@ + " "@ + "1"@
        + ")"@) + ")"@) + ")"@) + "\n"@,
{
    reveal_strlit("        (local.set $cur (i32.add (local.get $cur) (i32.const 1)))\n");
    reveal_strlit("  ");
    reveal_strlit("(local.set $");
    reveal_strlit("cur");
    reveal_strlit(" ");
    reveal_strlit("(");
    reveal_strlit("i32.add");
    reveal_strlit("(local.get $");
    reveal_strlit(")");
    reveal_strlit("i32.const");
    reveal_strlit("1");
    reveal_strlit("\n");
    assert("        (local.set $cur (i32.add (local.get $cur) (i32.const 1)))\n"@ =~= (("  "@ + "  "@ + "  "@ + "  "@) + "(local.set $"@ + "cur"@ + " "@ + ("("@ + "i32.add"@
        + " "@ + ("(local.get $"@ + "cur"@ + ")"@) + " "@ + ("("@ + "i32.const"@ + " "@ + "1"@
        + ")"@) + ")"@) + ")"@) + "\n"@);
}

proof fn lemma_find_next_filled(k: nat)
    ensures
        fill("        (local.set $cur (i32.add (local.get $cur) (i32.const 1)))\n"@, k) == (("  "@ + "  "@ + "  "@ + "  "@) + "(local.set $"@ + "cur"@ + " "@ + ("("@ + "i32.add"@
        + " "@ + ("(local.get $"@ + "cur"@ + ")"@) + " "@ + ("("@ + "i32.const"@ + " "@ + "1"@
        + ")"@) + ")"@) + ")"@) + "\n"@,
{
    broadcast use lemma_fill_add;

    lemma_find_next_words();
    lemma_plain_words(k);
}

proof fn lemma_find_next(k: nat)
    ensures
        squeezed(fill("        (local.set $cur (i32.add (local.get $cur) (i32.const 1)))\n"@, k)) == squeezed(code_text(step_by("1"@))),
{
    broadcast use {lemma_squeezed_add, lemma_add_nothing, lemma_nothing_add};

    lemma_blank_literals();
    lemma_find_next_filled(k);
    lemma_find_next_text(k);
}

proof fn lemma_find_back_words()
    ensures
        "        (br $tail_continue)))\n"@ == (("  "@ + "  "@ + "  "@ + "  "@) + "(br $"@) + "tail_continue"@ + ")"@ + ")"@ + ")"@
        + "\n"@,
{
    reveal_strlit("        (br $tail_continue)))\n");
    reveal_strlit("  ");
    reveal_strlit("(br $");
    reveal_strlit("tail_continue");
    reveal_strlit(")");
    reveal_strlit("\n");
    assert("        (br $tail_continue)))\n"@ =~= (("  "@ + "  "@ + "  "@ + "  "@) + "(br $"@) + "tail_continue"@ + ")"@ + ")"@ + ")"@
        + "\n"@);
}

proof fn lemma_find_back_filled(k: nat)
    ensures
        fill("        (br $tail_continue)))\n"@, k) == (("  "@ + "  "@ + "  "@ + "  "@) + "(br $"@) + "tail_continue"@ + ")"@ + ")"@ + ")"@
        + "\n"@,
{
    broadcast use lemma_fill_add;

    lemma_find_back_words();
    lemma_plain_words(k);
}

proof fn lemma_find_back(k: nat)
    ensures
        squeezed(fill("        (br $tail_continue)))\n"@, k)) == closing_text("tail_continue"@),
{
    broadcast use {lemma_squeezed_add, lemma_add_nothing, lemma_nothing_add};

    lemma_blank_literals();
    lemma_find_back_filled(k);
}

proof fn lemma_find_value_words()
    ensures
        "    (i32.const -1))\n"@ == ((("  "@ + "  "@) + "("@) + "i32.const"@ + " "@ + "-1"@ + ")"@) + ")"@ + "\n"@,
{
    reveal_strlit("    (i32.const -1))\n");
    reveal_strlit("  ");
    reveal_strlit("(");
    reveal_strlit("i32.const");
    reveal_strlit(" ");
    reveal_strlit("-1");
    reveal_strlit(")");
    reveal_strlit("\n");
    assert("    (i32.const -1))\n"@ =~= ((("  "@ + "  "@) + "("@) + "i32.const"@ + " "@ + "-1"@ + ")"@) + ")"@ + "\n"@);
}

proof fn lemma_find_value_filled(k: nat)
    ensures
        fill("    (i32.const -1))\n"@, k) == ((("  "@ + "  "@) + "("@) + "i32.const"@ + " "@ + "-1"@ + ")"@) + ")"@ + "\n"@,
{
    broadcast use lemma_fill_add;

    lemma_find_value_words();
    lemma_plain_words(k);
}

proof fn lemma_find_value(k: nat)
    ensures
        squeezed(fill("    (i32.const -1))\n"@, k)) == squeezed(term_text(nowhere())) + squeezed(")"@),
{
    broadcast use {lemma_squeezed_add, lemma_add_nothing, lemma_nothing_add};

    lemma_blank_literals();
    lemma_find_value_filled(k);
    lemma_lit_text("i32.const"@, "-1"@);
}

#[verifier::rlimit(100)]
proof fn lemma_find_template()
    ensures
        SIMD_FIND_BYTE@ == "  (func $tvm_simd_find_byte_p@ (export \"tvm_simd_find_byte_p@\")\n        (param $off i32) (param $len i32) (param $byte i32) (result i32)\n    (local $cur i32) (local $end i32) (local $vec_end i32)\n    (local $broadcast v128) (local $mask i32)\n"@
        + "    (local.set $cur (local.get $off))\n"@
        + "    (local.set $end (i32.add (local.get $off) (local.get $len)))\n"@
        + "    (local.set $vec_end\n      (i32.add (local.get $off)\n               (i32.and (local.get $len) (i32.const -16))))\n"@
        + "    (local.set $broadcast (i8x16.splat (local.get $byte)))\n"@
        + "    (block $vec_done\n      (loop $vec_continue\n        (br_if $vec_done (i32.eq (local.get $cur) (local.get $vec_end)))\n"@
        + "        (local.set $mask\n          (i8x16.bitmask\n            (i8x16.eq\n              (v128.load @ (local.get $cur))\n              (local.get $broadcast))))\n"@
        + "        (if (i32.ne (local.get $mask) (i32.const 0))\n          (then\n            (return (i32.sub\n              (i32.add (local.get $cur) (i32.ctz (local.get $mask)))\n              (local.get $off)))))\n"@
        + "        (local.set $cur (i32.add (local.get $cur) (i32.const 16)))\n"@
        + "        (br $vec_continue)))\n"@
        + "    (block $tail_done\n      (loop $tail_continue\n        (br_if $tail_done (i32.eq (local.get $cur) (local.get $end)))\n"@
        + "        (if (i32.eq (i32.load8_u @ (local.get $cur)) (local.get $byte))\n          (then\n            (return (i32.sub (local.get $cur) (local.get $off)))))\n"@
        + "        (local.set $cur (i32.add (local.get $cur) (i32.const 1)))\n"@
        + "        (br $tail_continue)))\n"@ + "    (i32.const -1))\n"@,
{
    reveal_strlit("  (func $tvm_simd_find_byte_p@ (export \"tvm_simd_find_byte_p@\")\n        (param $off i32) (param $len i32) (param $byte i32) (result i32)\n    (local $cur i32) (local $end i32) (local $vec_end i32)\n    (local $broadcast v128) (local $mask i32)\n");
    reveal_strlit("    (local.set $cur (local.get $off))\n");
    reveal_strlit("    (local.set $end (i32.add (local.get $off) (local.get $len)))\n");
    reveal_strlit("    (local.set $vec_end\n      (i32.add (local.get $off)\n               (i32.and (local.get $len) (i32.const -16))))\n");
    reveal_strlit("    (local.set $broadcast (i8x16.splat (local.get $byte)))\n");
    reveal_strlit("    (block $vec_done\n      (loop $vec_continue\n        (br_if $vec_done (i32.eq (local.get $cur) (local.get $vec_end)))\n");
    reveal_strlit("        (local.set $mask\n          (i8x16.bitmask\n            (i8x16.eq\n              (v128.load @ (local.get $cur))\n              (local.get $broadcast))))\n");
    reveal_strlit("        (if (i32.ne (local.get $mask) (i32.const 0))\n          (then\n            (return (i32.sub\n              (i32.add (local.get $cur) (i32.ctz (local.get $mask)))\n              (local.get $off)))))\n");
    reveal_strlit("        (local.set $cur (i32.add (local.get $cur) (i32.const 16)))\n");
    reveal_strlit("        (br $vec_continue)))\n");
    reveal_strlit("    (block $tail_done\n      (loop $tail_continue\n        (br_if $tail_done (i32.eq (local.get $cur) (local.get $end)))\n");
    reveal_strlit("        (if (i32.eq (i32.load8_u @ (local.get $cur)) (local.get $byte))\n          (then\n            (return (i32.sub (local.get $cur) (local.get $off)))))\n");
    reveal_strlit("        (local.set $cur (i32.add (local.get $cur) (i32.const 1)))\n");
    reveal_strlit("        (br $tail_continue)))\n");
    reveal_strlit("    (i32.const -1))\n");
    reveal_strlit(r#"  (func $tvm_simd_find_byte_p@ (export "tvm_simd_find_byte_p@")
        (param $off i32) (param $len i32) (param $byte i32) (result i32)
    (local $cur i32) (local $end i32) (local $vec_end i32)
    (local $broadcast v128) (local $mask i32)
    (local.set $cur (local.get $off))
    (local.set $end (i32.add (local.get $off) (local.get $len)))
    (local.set $vec_end
      (i32.add (local.get $off)
               (i32.and (local.get $len) (i32.const -16))))
    (local.set $broadcast (i8x16.splat (local.get $byte)))
    (block $vec_done
      (loop $vec_continue
        (br_if $vec_done (i32.eq (local.get $cur) (local.get $vec_end)))
        (local.set $mask
          (i8x16.bitmask
            (i8x16.eq
              (v128.load @ (local.get $cur))
              (local.get $broadcast))))
        (if (i32.ne (local.get $mask) (i32.const 0))
          (then
            (return (i32.sub
              (i32.add (local.get $cur) (i32.ctz (local.get $mask)))
              (local.get $off)))))
        (local.set $cur (i32.add (local.get $cur) (i32.const 16)))
        (br $vec_continue)))
    (block $tail_done
      (loop $tail_continue
        (br_if $tail_done (i32.eq (local.get $cur) (local.get $end)))
        (if (i32.eq (i32.load8_u @ (local.get $cur)) (local.get $byte))
          (then
            (return (i32.sub (local.get $cur) (local.get $off)))))
        (local.set $cur (i32.add (local.get $cur) (i32.const 1)))
        (br $tail_continue)))
    (i32.const -1))
"#);
    assert(SIMD_FIND_BYTE@ =~= "  (func $tvm_simd_find_byte_p@ (export \"tvm_simd_find_byte_p@\")\n        (param $off i32) (param $len i32) (param $byte i32) (result i32)\n    (local $cur i32) (local $end i32) (local $vec_end i32)\n    (local $broadcast v128) (local $mask i32)\n"@
        + "    (local.set $cur (local.get $off))\n"@
        + "    (local.set $end (i32.add (local.get $off) (local.get $len)))\n"@
        + "    (local.set $vec_end\n      (i32.add (local.get $off)\n               (i32.and (local.get $len) (i32.const -16))))\n"@
        + "    (local.set $broadcast (i8x16.splat (local.get $byte)))\n"@
        + "    (block $vec_done\n      (loop $vec_continue\n        (br_if $vec_done (i32.eq (local.get $cur) (local.get $vec_end)))\n"@
        + "        (local.set $mask\n          (i8x16.bitmask\n            (i8x16.eq\n              (v128.load @ (local.get $cur))\n              (local.get $broadcast))))\n"@
        + "        (if (i32.ne (local.get $mask) (i32.const 0))\n          (then\n            (return (i32.sub\n              (i32.add (local.get $cur) (i32.ctz (local.get $mask)))\n              (local.get $off)))))\n"@
        + "        (local.set $cur (i32.add (local.get $cur) (i32.const 16)))\n"@
        + "        (br $vec_continue)))\n"@
        + "    (block $tail_done\n      (loop $tail_continue\n        (br_if $tail_done (i32.eq (local.get $cur) (local.get $end)))\n"@
        + "        (if (i32.eq (i32.load8_u @ (local.get $cur)) (local.get $byte))\n          (then\n            (return (i32.sub (local.get $cur) (local.get $off)))))\n"@
        + "        (local.set $cur (i32.add (local.get $cur) (i32.const 1)))\n"@
        + "        (br $tail_continue)))\n"@ + "    (i32.const -1))\n"@);
}

proof fn lemma_find_fill(k: nat)
    ensures
        fill(SIMD_FIND_BYTE@, k) == fill("  (func $tvm_simd_find_byte_p@ (export \"tvm_simd_find_byte_p@\")\n        (param $off i32) (param $len i32) (param $byte i32) (result i32)\n    (local $cur i32) (local $end i32) (local $vec_end i32)\n    (local $broadcast v128) (local $mask i32)\n"@, k)
        + fill("    (local.set $cur (local.get $off))\n"@, k)
        + fill("    (local.set $end (i32.add (local.get $off) (local.get $len)))\n"@, k)
        + fill("    (local.set $vec_end\n      (i32.add (local.get $off)\n               (i32.and (local.get $len) (i32.const -16))))\n"@, k)
        + fill("    (local.set $broadcast (i8x16.splat (local.get $byte)))\n"@, k)
        + fill("    (block $vec_done\n      (loop $vec_continue\n        (br_if $vec_done (i32.eq (local.get $cur) (local.get $vec_end)))\n"@, k)
        + fill("        (local.set $mask\n          (i8x16.bitmask\n            (i8x16.eq\n              (v128.load @ (local.get $cur))\n              (local.get $broadcast))))\n"@, k)
        + fill("        (if (i32.ne (local.get $mask) (i32.const 0))\n          (then\n            (return (i32.sub\n              (i32.add (local.get $cur) (i32.ctz (local.get $mask)))\n              (local.get $off)))))\n"@, k)
        + fill("        (local.set $cur (i32.add (local.get $cur) (i32.const 16)))\n"@, k)
        + fill("        (br $vec_continue)))\n"@, k)
        + fill("    (block $tail_done\n      (loop $tail_continue\n        (br_if $tail_done (i32.eq (local.get $cur) (local.get $end)))\n"@, k)
        + fill("        (if (i32.eq (i32.load8_u @ (local.get $cur)) (local.get $byte))\n          (then\n            (return (i32.sub (local.get $cur) (local.get $off)))))\n"@, k)
        + fill("        (local.set $cur (i32.add (local.get $cur) (i32.const 1)))\n"@, k)
        + fill("        (br $tail_continue)))\n"@, k) + fill("    (i32.const -1))\n"@, k),
{
    broadcast use lemma_fill_add;

    lemma_find_template();
}

proof fn lemma_find_kernel_text(k: nat)
    ensures
        squeezed(fill(SIMD_FIND_BYTE@, k)) == squeezed(kernel_text(kernel("tvm_simd_find_byte_p"@, k))),
{
    lemma_find_fill(k);
    let p0 = fill("  (func $tvm_simd_find_byte_p@ (export \"tvm_simd_find_byte_p@\")\n        (param $off i32) (param $len i32) (param $byte i32) (result i32)\n    (local $cur i32) (local $end i32) (local $vec_end i32)\n    (local $broadcast v128) (local $mask i32)\n"@, k);
    lemma_find_head(k);
    let p1 = fill("    (local.set $cur (local.get $off))\n"@, k);
    lemma_find_cur(k);
    let p2 = fill("    (local.set $end (i32.add (local.get $off) (local.get $len)))\n"@, k);
    lemma_find_end(k);
    let p3 = fill("    (local.set $vec_end\n      (i32.add (local.get $off)\n               (i32.and (local.get $len) (i32.const -16))))\n"@, k);
    lemma_find_vec_end(k);
    let p4 = fill("    (local.set $broadcast (i8x16.splat (local.get $byte)))\n"@, k);
    lemma_find_spread(k);
    let p5 = fill("    (block $vec_done\n      (loop $vec_continue\n        (br_if $vec_done (i32.eq (local.get $cur) (local.get $vec_end)))\n"@, k);
    lemma_find_vec(k);
    let p6 = fill("        (local.set $mask\n          (i8x16.bitmask\n            (i8x16.eq\n              (v128.load @ (local.get $cur))\n              (local.get $broadcast))))\n"@, k);
    lemma_find_mask(k);
    let p7 = fill("        (if (i32.ne (local.get $mask) (i32.const 0))\n          (then\n            (return (i32.sub\n              (i32.add (local.get $cur) (i32.ctz (local.get $mask)))\n              (local.get $off)))))\n"@, k);
    lemma_find_there(k);
    let p8 = fill("        (local.set $cur (i32.add (local.get $cur) (i32.const 16)))\n"@, k);
    lemma_find_step(k);
    let p9 = fill("        (br $vec_continue)))\n"@, k);
    lemma_find_again(k);
    let p10 = fill("    (block $tail_done\n      (loop $tail_continue\n        (br_if $tail_done (i32.eq (local.get $cur) (local.get $end)))\n"@, k);
    lemma_find_tail(k);
    let p11 = fill("        (if (i32.eq (i32.load8_u @ (local.get $cur)) (local.get $byte))\n          (then\n            (return (i32.sub (local.get $cur) (local.get $off)))))\n"@, k);
    lemma_find_here(k);
    let p12 = fill("        (local.set $cur (i32.add (local.get $cur) (i32.const 1)))\n"@, k);
    lemma_find_next(k);
    let p13 = fill("        (br $tail_continue)))\n"@, k);
    lemma_find_back(k);
    let p14 = fill("    (i32.const -1))\n"@, k);
    lemma_find_value(k);
    lemma_squeezed_add(p0, p1);
    lemma_squeezed_add(p0 + p1, p2);
    lemma_squeezed_add(p0 + p1 + p2, p3);
    lemma_squeezed_add(p0 + p1 + p2 + p3, p4);
    lemma_squeezed_add(p0 + p1 + p2 + p3 + p4, p5);
    lemma_squeezed_add(p0 + p1 + p2 + p3 + p4 + p5, p6);
    lemma_squeezed_add(p0 + p1 + p2 + p3 + p4 + p5 + p6, p7);
    lemma_squeezed_add(p0 + p1 + p2 + p3 + p4 + p5 + p6 + p7, p8);
    lemma_squeezed_add(p0 + p1 + p2 + p3 + p4 + p5 + p6 + p7 + p8, p9);
    lemma_squeezed_add(p0 + p1 + p2 + p3 + p4 + p5 + p6 + p7 + p8 + p9, p10);
    lemma_squeezed_add(p0 + p1 + p2 + p3 + p4 + p5 + p6 + p7 + p8 + p9 + p10, p11);
    lemma_squeezed_add(p0 + p1 + p2 + p3 + p4 + p5 + p6 + p7 + p8 + p9 + p10 + p11, p12);
    lemma_squeezed_add(p0 + p1 + p2 + p3 + p4 + p5 + p6 + p7 + p8 + p9 + p10 + p11 + p12, p13);
    lemma_squeezed_add(p0 + p1 + p2 + p3 + p4 + p5 + p6 + p7 + p8 + p9 + p10 + p11 + p12 + p13, p14);
    lemma_find_text("tvm_simd_find_byte_p"@, k);
    lemma_find_regroup(
        squeezed(p0),
        squeezed(p1),
        squeezed(p2),
        squeezed(p3),
        squeezed(p4),
        squeezed(p5),
        squeezed(p6),
        squeezed(p7),
        squeezed(p8),
        squeezed(p9),
        squeezed(p10),
        squeezed(p11),
        squeezed(p12),
        squeezed(p13),
        squeezed(term_text(nowhere())),
        squeezed(")"@),
    );
}

proof fn lemma_find_regroup(
    x0: Seq<char>,
    x1: Seq<char>,
    x2: Seq<char>,
    x3: Seq<char>,
    x4: Seq<char>,
    x5: Seq<char>,
    x6: Seq<char>,
    x7: Seq<char>,
    x8: Seq<char>,
    x9: Seq<char>,
    x10: Seq<char>,
    x11: Seq<char>,
    x12: Seq<char>,
    x13: Seq<char>,
    v: Seq<char>,
    z: Seq<char>,
)
    ensures
        x0 + x1 + x2 + x3 + x4 + x5 + x6 + x7 + x8 + x9 + x10 + x11 + x12 + x13 + (v + z) == x0 + (x1 + x2 + x3 + x4 + (x5 + (x6 + x7 + x8) + x9) + (x10 + (x11 + x12) + x13)) + v + z,
{
    broadcast use lemma_add_assoc;

}

// ---------------------------------------------------------------------------
// In a module
// ---------------------------------------------------------------------------

/// The kernel of pool `k` hands out the first place of a byte in the range, whatever the
/// memories hold, and minus one where there is none.
pub open spec fn finds_byte(f: Kernel, k: nat) -> bool {
    forall|mems: Seq<Seq<u8>>, off: nat, len: nat, byte: u8|
        k < mems.len() && off < 0x1_0000_0000 && len < 0x1_0000_0000 && off + len
            <= mems[k as int].len() && mems[k as int].len() <= 0x1_0000_0000 ==> {
            let r = #[trigger] came_out(f, args3(off, len, byte as nat), mems, len);
            &&& r is Some
            &&& r->0 is N
            &&& is_first(mems[k as int], off as int, len as int, byte, r->0->N_0)
        }
}

/// Every module has, for each of its pools, a kernel that finds the first place of a byte in a
/// range, whatever its length and place.
pub proof fn law_module_finds_bytes(p: ModuleParams, k: nat)
    requires
        k < p.n_pools,
    ensures
        exists|f: Kernel|
            f.name == pool_name("tvm_simd_find_byte_p"@, k) && #[trigger] holds_part(
                module_text(p),
                kernel_text(f),
            ) && finds_byte(f, k),
{
    let f = kernel("tvm_simd_find_byte_p"@, k);
    lemma_find_kernel_text(k);
    lemma_holds_itself(fill(SIMD_FIND_BYTE@, k), kernel_text(f));
    lemma_reducers_in_module(p, k, kernel_text(f));
    assert forall|mems: Seq<Seq<u8>>, off: nat, len: nat, byte: u8|
        k < mems.len() && off < 0x1_0000_0000 && len < 0x1_0000_0000 && off + len
            <= mems[k as int].len() && mems[k as int].len() <= 0x1_0000_0000 implies {
        let r = #[trigger] came_out(f, args3(off, len, byte as nat), mems, len);
        &&& r is Some
        &&& r->0 is N
        &&& is_first(mems[k as int], off as int, len as int, byte, r->0->N_0)
    } by {
        lemma_kernel("tvm_simd_find_byte_p"@, k, mems, off, len, byte);
    }
}

} // verus!
