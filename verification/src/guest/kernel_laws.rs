//! What the kernels that add up a range do: every byte of the range counts once, in whole
//! vectors first and byte by byte behind them.
use vstd::prelude::*;
use crate::text::decimal;
use super::copy_laws::{lemma_fill_add, lemma_fill_place, lemma_fill_plain, pool_name};
use super::dispatch::{indirect_text, per_pool, reducers_text, typed_helpers_text};
use super::indirect_laws::{holds_part, lemma_holds_itself, lemma_holds_left, lemma_holds_right};
use super::kernels::{
    INTRA_POOL_COPY, SIMD_AND_FOLD, SIMD_COUNT_BYTE, SIMD_FIND_BYTE, SIMD_MIN_MAX, SIMD_OR_FOLD,
    SIMD_POPCOUNT, SIMD_SUM_U8, SIMD_XOR_FOLD,
};
use super::meaning::{
    declared_text, lemma_add_assoc, lemma_add_nothing, lemma_blank_literals, lemma_nothing_add, lemma_squeezed_add,
    number_of, power, squeezed,
};
use super::module::{module_text, with_body, with_dispatchers, with_memories, ModuleParams};
use super::shell_laws::{args2, declared_word, lemma_declared};
use super::vector::{
    all_zero, applied, bits_counted, bound_params, code_done, code_text, combined, constant, entered,
    kernel_text, lane, lanes_added, lemma_byte_lane, lemma_lane_bound, lemma_lanes,
    lemma_ones_small, lemma_powers, of_lanes, ones, pairs_added, ran, term_text, term_value,
    widened, Code, Kernel, Term, Val,
};
use super::wat::fill;

verus! {

// ---------------------------------------------------------------------------
// The kernels
// ---------------------------------------------------------------------------

pub open spec fn get(x: Seq<char>) -> Term {
    Term::Get(x)
}

pub open spec fn un(op: Seq<char>, a: Term) -> Term {
    Term::Un(op, Box::new(a))
}

pub open spec fn bin(op: Seq<char>, a: Term, b: Term) -> Term {
    Term::Bin(op, Box::new(a), Box::new(b))
}

pub open spec fn both(s: Code, t: Code) -> Code {
    Code::Both(Box::new(s), Box::new(t))
}

pub open spec fn step_by(word: Seq<char>) -> Code {
    Code::Assign("cur"@, bin("i32.add"@, get("cur"@), Term::Lit("i32.const"@, word)))
}

pub open spec fn set_cur() -> Code {
    Code::Assign("cur"@, get("off"@))
}

pub open spec fn set_end() -> Code {
    Code::Assign("end"@, bin("i32.add"@, get("off"@), get("len"@)))
}

pub open spec fn set_vec_end() -> Code {
    Code::Assign(
        "vec_end"@,
        bin(
            "i32.add"@,
            get("off"@),
            bin("i32.and"@, get("len"@), Term::Lit("i32.const"@, "-16"@)),
        ),
    )
}

spec fn set_acc() -> Code {
    Code::Assign("acc"@, Term::Lit("v128.const"@, "i64x2 0 0"@))
}

/// The name of the vector of partial sums.
spec fn part_name(pop: bool) -> Seq<char> {
    if pop {
        "tmp"@
    } else {
        "quads"@
    }
}

/// The sixteen numbers that a round adds up.
spec fn window(pop: bool, k: nat) -> Term {
    let bytes = Term::Load("v128.load"@, k, Box::new(get("cur"@)));
    if pop {
        un("i8x16.popcnt"@, bytes)
    } else {
        bytes
    }
}

spec fn set_part(pop: bool, k: nat) -> Code {
    Code::Assign(
        part_name(pop),
        un(
            "i32x4.extadd_pairwise_i16x8_u"@,
            un("i16x8.extadd_pairwise_i8x16_u"@, window(pop, k)),
        ),
    )
}

spec fn add_part(pop: bool) -> Code {
    Code::Assign(
        "acc"@,
        bin(
            "i64x2.add"@,
            bin(
                "i64x2.add"@,
                get("acc"@),
                un("i64x2.extend_low_i32x4_u"@, get(part_name(pop))),
            ),
            un("i64x2.extend_high_i32x4_u"@, get(part_name(pop))),
        ),
    )
}

spec fn vec_body(pop: bool, k: nat) -> Code {
    both(both(set_part(pop, k), add_part(pop)), step_by("16"@))
}

spec fn vec_loop(pop: bool, k: nat) -> Code {
    Code::Until(
        "vec_done"@,
        "vec_continue"@,
        bin("i32.eq"@, get("cur"@), get("vec_end"@)),
        Box::new(vec_body(pop, k)),
    )
}

spec fn set_scalar() -> Code {
    Code::Assign(
        "scalar"@,
        bin(
            "i64.add"@,
            un("i64x2.extract_lane 0"@, get("acc"@)),
            un("i64x2.extract_lane 1"@, get("acc"@)),
        ),
    )
}

/// The number that the tail adds for one byte.
spec fn single(pop: bool, k: nat) -> Term {
    if pop {
        un(
            "i64.extend_i32_u"@,
            un("i32.popcnt"@, Term::Load("i32.load8_u"@, k, Box::new(get("cur"@)))),
        )
    } else {
        Term::Load("i64.load8_u"@, k, Box::new(get("cur"@)))
    }
}

spec fn add_single(pop: bool, k: nat) -> Code {
    Code::Assign("scalar"@, bin("i64.add"@, get("scalar"@), single(pop, k)))
}

spec fn tail_loop(pop: bool, k: nat) -> Code {
    Code::Until(
        "tail_done"@,
        "tail_continue"@,
        bin("i32.eq"@, get("cur"@), get("end"@)),
        Box::new(both(add_single(pop, k), step_by("1"@))),
    )
}

spec fn setup() -> Code {
    both(both(both(set_cur(), set_end()), set_vec_end()), set_acc())
}

spec fn kernel_code(pop: bool, k: nat) -> Code {
    both(both(both(setup(), vec_loop(pop, k)), set_scalar()), tail_loop(pop, k))
}

spec fn kernel(pop: bool, stem: Seq<char>, k: nat) -> Kernel {
    Kernel {
        name: pool_name(stem, k),
        params: seq![("off"@, "i32"@), ("len"@, "i32"@)],
        result: "i64"@,
        locals: seq![
            ("cur"@, "i32"@),
            ("end"@, "i32"@),
            ("vec_end"@, "i32"@),
            ("acc"@, "v128"@),
            (part_name(pop), "v128"@),
            ("scalar"@, "i64"@),
        ],
        code: kernel_code(pop, k),
        value: get("scalar"@),
    }
}

// ---------------------------------------------------------------------------
// What they come to
// ---------------------------------------------------------------------------

/// What one byte counts: its one bits, or itself.
pub open spec fn measure(bits: bool, b: u8) -> nat {
    if bits {
        ones(b as nat)
    } else {
        b as nat
    }
}

/// What `n` bytes from `at` on count together.
pub open spec fn measured(bits: bool, bytes: Seq<u8>, at: int, n: nat) -> nat
    decreases n,
{
    if n == 0 {
        0
    } else {
        measured(bits, bytes, at, (n - 1) as nat) + measure(bits, bytes[at + n - 1])
    }
}

proof fn lemma_measured_bound(bits: bool, bytes: Seq<u8>, at: int, n: nat)
    ensures
        measured(bits, bytes, at, n) <= 255 * n,
    decreases n,
{
    if n > 0 {
        lemma_measured_bound(bits, bytes, at, (n - 1) as nat);
        lemma_ones_small(bytes[at + n - 1] as nat);
    }
}

/// The address `c` bytes behind `off`.
pub open spec fn address(off: nat, c: nat) -> nat {
    (off + c) % 0x1_0000_0000
}

pub(crate) proof fn lemma_variables()
    ensures
        "cur"@ != "end"@,
        "cur"@ != "vec_end"@,
        "cur"@ != "acc"@,
        "cur"@ != "quads"@,
        "cur"@ != "tmp"@,
        "cur"@ != "scalar"@,
        "cur"@ != "off"@,
        "cur"@ != "len"@,
        "end"@ != "vec_end"@,
        "end"@ != "acc"@,
        "end"@ != "quads"@,
        "end"@ != "tmp"@,
        "end"@ != "scalar"@,
        "end"@ != "off"@,
        "end"@ != "len"@,
        "vec_end"@ != "acc"@,
        "vec_end"@ != "quads"@,
        "vec_end"@ != "tmp"@,
        "acc"@ != "quads"@,
        "acc"@ != "tmp"@,
        "acc"@ != "scalar"@,
        "off"@ != "len"@,
        "off"@ != "vec_end"@,
        "off"@ != "acc"@,
        "off"@ != "quads"@,
        "off"@ != "tmp"@,
        "off"@ != "scalar"@,
        "len"@ != "vec_end"@,
        "len"@ != "acc"@,
        "len"@ != "quads"@,
        "len"@ != "tmp"@,
        "len"@ != "scalar"@,
{
    reveal_strlit("cur");
    reveal_strlit("end");
    reveal_strlit("vec_end");
    reveal_strlit("acc");
    reveal_strlit("quads");
    reveal_strlit("tmp");
    reveal_strlit("scalar");
    reveal_strlit("off");
    reveal_strlit("len");
    assert("cur"@[0] == 'c' && "end"@[0] == 'e' && "acc"@[0] == 'a' && "tmp"@[0] == 't'
        && "off"@[0] == 'o' && "len"@[0] == 'l');
    assert("cur"@.len() == 3 && "end"@.len() == 3 && "acc"@.len() == 3 && "tmp"@.len() == 3
        && "off"@.len() == 3 && "len"@.len() == 3);
    assert("vec_end"@.len() == 7 && "quads"@.len() == 5 && "scalar"@.len() == 6);
}

pub(crate) proof fn lemma_constants()
    ensures
        constant("i32.const"@, "1"@) == Some(Val::N(1)),
        constant("i32.const"@, "16"@) == Some(Val::N(16)),
        constant("i32.const"@, "-16"@) == Some(Val::N(0xffff_fff0)),
        constant("v128.const"@, "i64x2 0 0"@) == Some(Val::V(all_zero())),
{
    reveal_strlit("i32.const");
    reveal_strlit("v128.const");
    reveal_strlit("1");
    reveal_strlit("16");
    reveal_strlit("-16");
    assert("i32.const"@.len() == 9 && "v128.const"@.len() == 10);
    assert("1"@.len() == 1 && "16"@.len() == 2 && "-16"@.len() == 3);
}

pub(crate) proof fn lemma_unary(v: Seq<u8>, n: nat)
    ensures
        applied("i16x8.extadd_pairwise_i8x16_u"@, Val::V(v)) == Some(Val::V(pairs_added(v, 1))),
        applied("i32x4.extadd_pairwise_i16x8_u"@, Val::V(v)) == Some(Val::V(pairs_added(v, 2))),
        applied("i64x2.extend_low_i32x4_u"@, Val::V(v)) == Some(Val::V(widened(v, 0))),
        applied("i64x2.extend_high_i32x4_u"@, Val::V(v)) == Some(Val::V(widened(v, 2))),
        applied("i8x16.popcnt"@, Val::V(v)) == Some(Val::V(bits_counted(v))),
        applied("i64x2.extract_lane 0"@, Val::V(v)) == Some(Val::N(lane(v, 8, 0))),
        applied("i64x2.extract_lane 1"@, Val::V(v)) == Some(Val::N(lane(v, 8, 1))),
        applied("i32.popcnt"@, Val::N(n)) == Some(Val::N(ones(n))),
        applied("i64.extend_i32_u"@, Val::N(n)) == Some(Val::N(n)),
{
    reveal_strlit("i16x8.extadd_pairwise_i8x16_u");
    reveal_strlit("i32x4.extadd_pairwise_i16x8_u");
    reveal_strlit("i64x2.extend_low_i32x4_u");
    reveal_strlit("i64x2.extend_high_i32x4_u");
    reveal_strlit("i8x16.popcnt");
    reveal_strlit("i64x2.extract_lane 0");
    reveal_strlit("i64x2.extract_lane 1");
    reveal_strlit("i32.popcnt");
    reveal_strlit("i64.extend_i32_u");
    assert("i16x8.extadd_pairwise_i8x16_u"@.len() == 29);
    assert("i32x4.extadd_pairwise_i16x8_u"@.len() == 29);
    assert("i16x8.extadd_pairwise_i8x16_u"@[1] == '1');
    assert("i32x4.extadd_pairwise_i16x8_u"@[1] == '3');
    assert("i64x2.extend_low_i32x4_u"@.len() == 24);
    assert("i64x2.extend_high_i32x4_u"@.len() == 25);
    assert("i8x16.popcnt"@.len() == 12);
    assert("i64x2.extract_lane 0"@.len() == 20);
    assert("i64x2.extract_lane 1"@.len() == 20);
    assert("i64x2.extract_lane 0"@[19] == '0');
    assert("i64x2.extract_lane 1"@[19] == '1');
    assert("i32.popcnt"@.len() == 10);
    assert("i64.extend_i32_u"@.len() == 16);
}

pub(crate) proof fn lemma_binary(x: nat, y: nat, v: Seq<u8>, w: Seq<u8>)
    ensures
        combined("i32.add"@, Val::N(x), Val::N(y)) == Some(Val::N((x + y) % 0x1_0000_0000)),
        combined("i64.add"@, Val::N(x), Val::N(y)) == Some(
            Val::N((x + y) % 0x1_0000_0000_0000_0000),
        ),
        combined("i32.and"@, Val::N(x), Val::N(y)) == Some(Val::N((x as u32 & y as u32) as nat)),
        combined("i32.eq"@, Val::N(x), Val::N(y)) == Some(
            Val::N(
                if x == y {
                    1
                } else {
                    0
                },
            ),
        ),
        combined("i64x2.add"@, Val::V(v), Val::V(w)) == Some(Val::V(lanes_added(v, w))),
{
    reveal_strlit("i32.add");
    reveal_strlit("i64.add");
    reveal_strlit("i32.and");
    reveal_strlit("i32.eq");
    reveal_strlit("i64x2.add");
    assert("i32.add"@.len() == 7 && "i64.add"@.len() == 7 && "i32.and"@.len() == 7);
    assert("i32.add"@[1] == '3' && "i64.add"@[1] == '6' && "i32.and"@[1] == '3');
    assert("i32.add"@[5] == 'd' && "i32.and"@[5] == 'n');
    assert("i32.eq"@.len() == 6);
}

pub(crate) proof fn lemma_loads(k: nat, at: nat, env: Map<Seq<char>, Val>, mems: Seq<Seq<u8>>)
    requires
        k < mems.len(),
        env.contains_key("cur"@),
        env["cur"@] == Val::N(at),
        at < mems[k as int].len(),
    ensures
        at + 16 <= mems[k as int].len() ==> term_value(
            Term::Load("v128.load"@, k, Box::new(get("cur"@))),
            env,
            mems,
        ) == Some(Val::V(mems[k as int].subrange(at as int, at as int + 16))),
        term_value(Term::Load("i64.load8_u"@, k, Box::new(get("cur"@))), env, mems) == Some(
            Val::N(mems[k as int][at as int] as nat),
        ),
        term_value(Term::Load("i32.load8_u"@, k, Box::new(get("cur"@))), env, mems) == Some(
            Val::N(mems[k as int][at as int] as nat),
        ),
{
    reveal_strlit("v128.load");
    reveal_strlit("i64.load8_u");
    reveal_strlit("i32.load8_u");
    assert("v128.load"@.len() == 9 && "i64.load8_u"@.len() == 11 && "i32.load8_u"@.len() == 11);
    assert(term_value(get("cur"@), env, mems) == Some(Val::N(at)));
}

/// The bytes of a round as they are counted.
spec fn counted_bytes(bits: bool, x: Seq<u8>) -> Seq<u8> {
    if bits {
        bits_counted(x)
    } else {
        x
    }
}

proof fn lemma_pairs(y: Seq<u8>)
    requires
        y.len() == 16,
    ensures
        ({
            let q = pairs_added(pairs_added(y, 1), 2);
            &&& q.len() == 16
            &&& forall|i: int|
                0 <= i < 4 ==> #[trigger] lane(q, 4, i) == y[4 * i] + y[4 * i + 1] + y[4 * i + 2]
                    + y[4 * i + 3]
        }),
{
    lemma_powers();
    let ps = Seq::new(8, |i: int| lane(y, 1, 2 * i) + lane(y, 1, 2 * i + 1));
    assert forall|i: int| 0 <= i < 8 implies #[trigger] ps[i] == y[2 * i] + y[2 * i + 1] && ps[i]
        < power(2) by {
        lemma_byte_lane(y, 2 * i);
        lemma_byte_lane(y, 2 * i + 1);
    }
    let p = pairs_added(y, 1);
    assert(p == of_lanes(2, ps));
    assert forall|i: int| 0 <= i < 8 implies #[trigger] lane(p, 2, i) == ps[i] by {
        lemma_lanes(2, ps, i);
    }
    let qs = Seq::new(4, |i: int| lane(p, 2, 2 * i) + lane(p, 2, 2 * i + 1));
    assert forall|i: int| 0 <= i < 4 implies #[trigger] qs[i] == y[4 * i] + y[4 * i + 1] + y[4 * i
        + 2] + y[4 * i + 3] && qs[i] < power(4) by {
        assert(lane(p, 2, 2 * i) == ps[2 * i]);
        assert(lane(p, 2, 2 * i + 1) == ps[2 * i + 1]);
    }
    let q = pairs_added(p, 2);
    assert(q == of_lanes(4, qs));
    lemma_lanes(4, qs, 0);
    assert forall|i: int| 0 <= i < 4 implies #[trigger] lane(q, 4, i) == y[4 * i] + y[4 * i + 1]
        + y[4 * i + 2] + y[4 * i + 3] by {
        lemma_lanes(4, qs, i);
    }
}

proof fn lemma_widened(q: Seq<u8>, from: int)
    requires
        q.len() == 16,
        from == 0 || from == 2,
    ensures
        lane(widened(q, from), 8, 0) == lane(q, 4, from),
        lane(widened(q, from), 8, 1) == lane(q, 4, from + 1),
{
    lemma_powers();
    let ls = Seq::new(2, |i: int| lane(q, 4, i + from));
    assert forall|i: int| 0 <= i < 2 implies #[trigger] ls[i] < power(8) by {
        lemma_lane_bound(q, 4, i + from);
    }
    lemma_lanes(8, ls, 0);
    lemma_lanes(8, ls, 1);
    assert(widened(q, from) == of_lanes(8, ls));
}

proof fn lemma_added(x: Seq<u8>, y: Seq<u8>)
    requires
        lane(x, 8, 0) + lane(y, 8, 0) < 0x1_0000_0000_0000_0000,
        lane(x, 8, 1) + lane(y, 8, 1) < 0x1_0000_0000_0000_0000,
    ensures
        lane(lanes_added(x, y), 8, 0) == lane(x, 8, 0) + lane(y, 8, 0),
        lane(lanes_added(x, y), 8, 1) == lane(x, 8, 1) + lane(y, 8, 1),
        lanes_added(x, y).len() == 16,
{
    lemma_powers();
    let ls = Seq::new(2, |i: int| (lane(x, 8, i) + lane(y, 8, i)) % 0x1_0000_0000_0000_0000);
    assert forall|i: int| 0 <= i < 2 implies #[trigger] ls[i] < power(8) by {
    }
    lemma_lanes(8, ls, 0);
    lemma_lanes(8, ls, 1);
    assert(lanes_added(x, y) == of_lanes(8, ls));
}

/// What the two lanes of the accumulator hold together.
spec fn held(v: Seq<u8>) -> nat {
    lane(v, 8, 0) + lane(v, 8, 1)
}

/// The accumulator behind a round.
spec fn next_acc(acc: Seq<u8>, y: Seq<u8>) -> Seq<u8> {
    let q = pairs_added(pairs_added(y, 1), 2);
    lanes_added(lanes_added(acc, widened(q, 0)), widened(q, 2))
}

proof fn lemma_next_acc(acc: Seq<u8>, bits: bool, m: Seq<u8>, at: int, x: Seq<u8>)
    requires
        held(acc) < 0x1000_0000_0000_0000,
        0 <= at,
        at + 16 <= m.len(),
        x == m.subrange(at, at + 16),
    ensures
        next_acc(acc, counted_bytes(bits, x)).len() == 16,
        held(next_acc(acc, counted_bytes(bits, x))) == held(acc) + measured(bits, m, at, 16),
{
    let y = counted_bytes(bits, x);
    let q = pairs_added(pairs_added(y, 1), 2);
    lemma_pairs(y);
    lemma_widened(q, 0);
    lemma_widened(q, 2);
    assert(lane(q, 4, 0) == y[0] + y[1] + y[2] + y[3]);
    assert(lane(q, 4, 1) == y[4] + y[5] + y[6] + y[7]);
    assert(lane(q, 4, 2) == y[8] + y[9] + y[10] + y[11]);
    assert(lane(q, 4, 3) == y[12] + y[13] + y[14] + y[15]);
    lemma_added(acc, widened(q, 0));
    lemma_added(lanes_added(acc, widened(q, 0)), widened(q, 2));
    assert forall|i: int| 0 <= i < 16 implies #[trigger] y[i] as nat == measure(bits, m[at + i]) by {
        assert(x[i] == m[at + i]);
        lemma_ones_small(x[i] as nat);
    }
    lemma_sixteen(bits, m, at);
    assert(y[0] as nat == measure(bits, m[at + 0]));
}

proof fn lemma_sixteen(bits: bool, m: Seq<u8>, at: int)
    ensures
        measured(bits, m, at, 16) == measure(bits, m[at]) + measure(bits, m[at + 1]) + measure(
            bits,
            m[at + 2],
        ) + measure(bits, m[at + 3]) + measure(bits, m[at + 4]) + measure(bits, m[at + 5])
            + measure(bits, m[at + 6]) + measure(bits, m[at + 7]) + measure(bits, m[at + 8])
            + measure(bits, m[at + 9]) + measure(bits, m[at + 10]) + measure(bits, m[at + 11])
            + measure(bits, m[at + 12]) + measure(bits, m[at + 13]) + measure(bits, m[at + 14])
            + measure(bits, m[at + 15]),
{
    reveal_with_fuel(measured, 17);
}

proof fn lemma_measured_split(bits: bool, m: Seq<u8>, at: int, c: nat, n: nat)
    ensures
        measured(bits, m, at, c + n) == measured(bits, m, at, c) + measured(bits, m, at + c, n),
    decreases n,
{
    if n > 0 {
        lemma_measured_split(bits, m, at, c, (n - 1) as nat);
    }
}

/// The locals while a kernel runs, `c` bytes behind its start.
pub open spec fn on_the_way(
    env: Map<Seq<char>, Val>,
    off: nat,
    len: nat,
    c: nat,
) -> bool {
    &&& env.contains_key("cur"@) && env["cur"@] == Val::N(address(off, c))
    &&& env.contains_key("end"@) && env["end"@] == Val::N(address(off, len))
}

pub open spec fn vec_len(len: nat) -> nat {
    (len - len % 16) as nat
}

proof fn lemma_vec_round(
    bits: bool,
    k: nat,
    env: Map<Seq<char>, Val>,
    mems: Seq<Seq<u8>>,
    off: nat,
    len: nat,
    c: nat,
    acc: Seq<u8>,
    fuel: nat,
)
    requires
        k < mems.len(),
        off + len <= mems[k as int].len(),
        mems[k as int].len() <= 0x1_0000_0000,
        c + 16 <= len,
        on_the_way(env, off, len, c),
        env.contains_key("acc"@),
        env["acc"@] == Val::V(acc),
    ensures
        ({
            let x = mems[k as int].subrange((off + c) as int, (off + c) as int + 16);
            let y = counted_bytes(bits, x);
            code_done(vec_body(bits, k), env, mems, fuel) == Some(
                env.insert(part_name(bits), Val::V(pairs_added(pairs_added(y, 1), 2))).insert(
                    "acc"@,
                    Val::V(next_acc(acc, y)),
                ).insert("cur"@, Val::N(address(off, c + 16))),
            )
        }),
{
    lemma_variables();
    lemma_constants();
    let at = address(off, c);
    assert(at == off + c);
    let x = mems[k as int].subrange(at as int, at as int + 16);
    let y = counted_bytes(bits, x);
    let p = pairs_added(y, 1);
    let q = pairs_added(p, 2);
    lemma_loads(k, at, env, mems);
    lemma_unary(x, 0);
    lemma_unary(y, 0);
    lemma_unary(p, 0);
    assert(term_value(window(bits, k), env, mems) == Some(Val::V(y)));
    assert(term_value(un("i16x8.extadd_pairwise_i8x16_u"@, window(bits, k)), env, mems) == Some(
        Val::V(p),
    ));
    let e1 = env.insert(part_name(bits), Val::V(q));
    assert(code_done(set_part(bits, k), env, mems, fuel) == Some(e1));
    lemma_unary(q, 0);
    let part = get(part_name(bits));
    assert(term_value(part, e1, mems) == Some(Val::V(q)));
    assert(term_value(get("acc"@), e1, mems) == Some(Val::V(acc)));
    let low = un("i64x2.extend_low_i32x4_u"@, part);
    let high = un("i64x2.extend_high_i32x4_u"@, part);
    assert(term_value(low, e1, mems) == Some(Val::V(widened(q, 0))));
    assert(term_value(high, e1, mems) == Some(Val::V(widened(q, 2))));
    lemma_binary(0, 0, acc, widened(q, 0));
    let a1 = lanes_added(acc, widened(q, 0));
    assert(term_value(bin("i64x2.add"@, get("acc"@), low), e1, mems) == Some(Val::V(a1)));
    lemma_binary(0, 0, a1, widened(q, 2));
    let e2 = e1.insert("acc"@, Val::V(next_acc(acc, y)));
    assert(code_done(add_part(bits), e1, mems, fuel) == Some(e2));
    lemma_step("16"@, 16, e2, mems, at, fuel);
    assert(address(off, c + 16) == (at + 16) % 0x1_0000_0000);
    assert(code_done(both(set_part(bits, k), add_part(bits)), env, mems, fuel) == Some(e2));
}

pub(crate) proof fn lemma_step(
    word: Seq<char>,
    by: nat,
    env: Map<Seq<char>, Val>,
    mems: Seq<Seq<u8>>,
    at: nat,
    fuel: nat,
)
    requires
        constant("i32.const"@, word) == Some(Val::N(by)),
        env.contains_key("cur"@),
        env["cur"@] == Val::N(at),
    ensures
        code_done(step_by(word), env, mems, fuel) == Some(
            env.insert("cur"@, Val::N((at + by) % 0x1_0000_0000)),
        ),
{
    lemma_binary(at, by, Seq::empty(), Seq::empty());
    assert(term_value(get("cur"@), env, mems) == Some(Val::N(at)));
    assert(term_value(Term::Lit("i32.const"@, word), env, mems) == Some(Val::N(by)));
}

pub(crate) proof fn lemma_reached(
    stop: Seq<char>,
    env: Map<Seq<char>, Val>,
    mems: Seq<Seq<u8>>,
    off: nat,
    c: nat,
    e: nat,
)
    requires
        off < 0x1_0000_0000,
        c <= e < 0x1_0000_0000,
        env.contains_key("cur"@),
        env["cur"@] == Val::N(address(off, c)),
        env.contains_key(stop),
        env[stop] == Val::N(address(off, e)),
    ensures
        term_value(bin("i32.eq"@, get("cur"@), get(stop)), env, mems) == Some(
            Val::N(
                if c == e {
                    1
                } else {
                    0
                },
            ),
        ),
{
    lemma_binary(address(off, c), address(off, e), Seq::empty(), Seq::empty());
    assert(term_value(get("cur"@), env, mems) == Some(Val::N(address(off, c))));
    assert(term_value(get(stop), env, mems) == Some(Val::N(address(off, e))));
}

proof fn lemma_vec_loop(
    bits: bool,
    k: nat,
    env: Map<Seq<char>, Val>,
    mems: Seq<Seq<u8>>,
    off: nat,
    len: nat,
    c: nat,
    acc: Seq<u8>,
    fuel: nat,
)
    requires
        k < mems.len(),
        off < 0x1_0000_0000,
        len < 0x1_0000_0000,
        off + len <= mems[k as int].len(),
        mems[k as int].len() <= 0x1_0000_0000,
        c <= vec_len(len),
        c % 16 == 0,
        fuel * 16 >= vec_len(len) - c,
        on_the_way(env, off, len, c),
        env.contains_key("vec_end"@),
        env["vec_end"@] == Val::N(address(off, vec_len(len))),
        env.contains_key("acc"@),
        env["acc"@] == Val::V(acc),
        acc.len() == 16,
        held(acc) == measured(bits, mems[k as int], off as int, c),
    ensures
        ({
            let r = code_done(vec_loop(bits, k), env, mems, fuel);
            let e = r->0;
            &&& r is Some
            &&& on_the_way(e, off, len, vec_len(len))
            &&& e.contains_key("acc"@)
            &&& e["acc"@] is V
            &&& held(e["acc"@]->V_0) == measured(bits, mems[k as int], off as int, vec_len(len))
        }),
    decreases vec_len(len) - c,
{
    let m = mems[k as int];
    let v = vec_len(len);
    lemma_reached("vec_end"@, env, mems, off, c, v);
    if c < v {
        assert(c + 16 <= v);
        lemma_vec_round(bits, k, env, mems, off, len, c, acc, fuel);
        let x = m.subrange((off + c) as int, (off + c) as int + 16);
        let y = counted_bytes(bits, x);
        let a2 = next_acc(acc, y);
        let e2 = code_done(vec_body(bits, k), env, mems, fuel)->0;
        lemma_measured_bound(bits, m, off as int, c);
        lemma_next_acc(acc, bits, m, (off + c) as int, x);
        lemma_measured_split(bits, m, off as int, c, 16);
        lemma_variables();
        lemma_vec_loop(bits, k, e2, mems, off, len, c + 16, a2, (fuel - 1) as nat);
        assert(code_done(vec_loop(bits, k), env, mems, fuel) == code_done(
            vec_loop(bits, k),
            e2,
            mems,
            (fuel - 1) as nat,
        ));
    }
}

proof fn lemma_tail_round(
    bits: bool,
    k: nat,
    env: Map<Seq<char>, Val>,
    mems: Seq<Seq<u8>>,
    off: nat,
    len: nat,
    c: nat,
    sum: nat,
    fuel: nat,
)
    requires
        k < mems.len(),
        off + len <= mems[k as int].len(),
        mems[k as int].len() <= 0x1_0000_0000,
        c < len,
        on_the_way(env, off, len, c),
        env.contains_key("scalar"@),
        env["scalar"@] == Val::N(sum),
        sum < 0x1000_0000_0000_0000,
    ensures
        code_done(both(add_single(bits, k), step_by("1"@)), env, mems, fuel) == Some(
            env.insert(
                "scalar"@,
                Val::N(sum + measure(bits, mems[k as int][(off + c) as int])),
            ).insert("cur"@, Val::N(address(off, c + 1))),
        ),
{
    lemma_variables();
    lemma_constants();
    let at = address(off, c);
    assert(at == off + c);
    let b = mems[k as int][at as int] as nat;
    lemma_loads(k, at, env, mems);
    lemma_unary(Seq::empty(), b);
    lemma_unary(Seq::empty(), ones(b));
    lemma_ones_small(b);
    let n = measure(bits, mems[k as int][at as int]);
    let byte = Term::Load("i32.load8_u"@, k, Box::new(get("cur"@)));
    assert(bits ==> term_value(un("i32.popcnt"@, byte), env, mems) == Some(Val::N(ones(b))));
    assert(term_value(single(bits, k), env, mems) == Some(Val::N(n)));
    assert(term_value(get("scalar"@), env, mems) == Some(Val::N(sum)));
    lemma_binary(sum, n, Seq::empty(), Seq::empty());
    let e1 = env.insert("scalar"@, Val::N(sum + n));
    assert(code_done(add_single(bits, k), env, mems, fuel) == Some(e1));
    lemma_step("1"@, 1, e1, mems, at, fuel);
    assert(address(off, c + 1) == (at + 1) % 0x1_0000_0000);
}

proof fn lemma_tail_loop(
    bits: bool,
    k: nat,
    env: Map<Seq<char>, Val>,
    mems: Seq<Seq<u8>>,
    off: nat,
    len: nat,
    c: nat,
    fuel: nat,
)
    requires
        k < mems.len(),
        off < 0x1_0000_0000,
        len < 0x1_0000_0000,
        off + len <= mems[k as int].len(),
        mems[k as int].len() <= 0x1_0000_0000,
        c <= len,
        fuel >= len - c,
        on_the_way(env, off, len, c),
        env.contains_key("scalar"@),
        env["scalar"@] == Val::N(measured(bits, mems[k as int], off as int, c)),
    ensures
        ({
            let r = code_done(tail_loop(bits, k), env, mems, fuel);
            &&& r is Some
            &&& (r->0).contains_key("scalar"@)
            &&& r->0["scalar"@] == Val::N(measured(bits, mems[k as int], off as int, len))
        }),
    decreases len - c,
{
    let m = mems[k as int];
    lemma_reached("end"@, env, mems, off, c, len);
    if c < len {
        let sum = measured(bits, m, off as int, c);
        lemma_measured_bound(bits, m, off as int, c);
        lemma_tail_round(bits, k, env, mems, off, len, c, sum, fuel);
        let body = both(add_single(bits, k), step_by("1"@));
        let e2 = code_done(body, env, mems, fuel)->0;
        lemma_variables();
        assert(measured(bits, m, off as int, c + 1) == sum + measure(bits, m[(off + c) as int]));
        lemma_tail_loop(bits, k, e2, mems, off, len, c + 1, (fuel - 1) as nat);
        assert(code_done(tail_loop(bits, k), env, mems, fuel) == code_done(
            tail_loop(bits, k),
            e2,
            mems,
            (fuel - 1) as nat,
        ));
    }
}

/// The setup that all kernels share.
pub(crate) proof fn lemma_places(
    env: Map<Seq<char>, Val>,
    mems: Seq<Seq<u8>>,
    off: nat,
    len: nat,
    fuel: nat,
) -> (e3: Map<Seq<char>, Val>)
    requires
        off < 0x1_0000_0000,
        len < 0x1_0000_0000,
        env.contains_key("off"@),
        env["off"@] == Val::N(off),
        env.contains_key("len"@),
        env["len"@] == Val::N(len),
    ensures
        code_done(both(both(set_cur(), set_end()), set_vec_end()), env, mems, fuel) == Some(e3),
        e3 == env.insert("cur"@, Val::N(address(off, 0))).insert(
            "end"@,
            Val::N(address(off, len)),
        ).insert("vec_end"@, Val::N(address(off, vec_len(len)))),
{
    lemma_variables();
    lemma_constants();
    let e1 = env.insert("cur"@, Val::N(off));
    assert(term_value(get("off"@), env, mems) == Some(Val::N(off)));
    assert(code_done(set_cur(), env, mems, fuel) == Some(e1));
    lemma_binary(off, len, Seq::empty(), Seq::empty());
    assert(term_value(get("off"@), e1, mems) == Some(Val::N(off)));
    assert(term_value(get("len"@), e1, mems) == Some(Val::N(len)));
    let e2 = e1.insert("end"@, Val::N(address(off, len)));
    assert(code_done(set_end(), e1, mems, fuel) == Some(e2));
    assert(term_value(get("off"@), e2, mems) == Some(Val::N(off)));
    assert(term_value(get("len"@), e2, mems) == Some(Val::N(len)));
    lemma_binary(len, 0xffff_fff0, Seq::empty(), Seq::empty());
    let n = len as u32;
    assert(n & 0xffff_fff0u32 == n - n % 16) by (bit_vector);
    assert((n & 0xffff_fff0u32) as nat == vec_len(len));
    let mask = bin("i32.and"@, get("len"@), Term::Lit("i32.const"@, "-16"@));
    assert(term_value(Term::Lit("i32.const"@, "-16"@), e2, mems) == Some(Val::N(0xffff_fff0)));
    assert(term_value(mask, e2, mems) == Some(Val::N(vec_len(len))));
    lemma_binary(off, vec_len(len), Seq::empty(), Seq::empty());
    let e3 = e2.insert("vec_end"@, Val::N(address(off, vec_len(len))));
    assert(code_done(set_vec_end(), e2, mems, fuel) == Some(e3));
    assert(code_done(both(set_cur(), set_end()), env, mems, fuel) == Some(e2));
    assert(code_done(both(both(set_cur(), set_end()), set_vec_end()), env, mems, fuel) == Some(e3));
    assert(address(off, 0) == off);
    e3
}

proof fn lemma_setup(env: Map<Seq<char>, Val>, mems: Seq<Seq<u8>>, off: nat, len: nat, fuel: nat)
    requires
        off < 0x1_0000_0000,
        len < 0x1_0000_0000,
        env.contains_key("off"@),
        env["off"@] == Val::N(off),
        env.contains_key("len"@),
        env["len"@] == Val::N(len),
    ensures
        code_done(setup(), env, mems, fuel) == Some(
            env.insert("cur"@, Val::N(address(off, 0))).insert(
                "end"@,
                Val::N(address(off, len)),
            ).insert("vec_end"@, Val::N(address(off, vec_len(len)))).insert(
                "acc"@,
                Val::V(all_zero()),
            ),
        ),
{
    lemma_constants();
    let e3 = lemma_places(env, mems, off, len, fuel);
    assert(term_value(Term::Lit("v128.const"@, "i64x2 0 0"@), e3, mems) == Some(
        Val::V(all_zero()),
    ));
    assert(code_done(set_acc(), e3, mems, fuel) == Some(e3.insert("acc"@, Val::V(all_zero()))));
}

proof fn lemma_zero_acc()
    ensures
        held(all_zero()) == 0,
{
    let z = all_zero();
    assert forall|i: int| 0 <= i < 2 implies #[trigger] lane(z, 8, i) == 0 by {
        lemma_zeros(z.subrange(8 * i, 8 * i + 8));
    }
}

proof fn lemma_zeros(b: Seq<u8>)
    requires
        forall|i: int| 0 <= i < b.len() ==> #[trigger] b[i] == 0,
    ensures
        number_of(b) == 0,
    decreases b.len(),
{
    if b.len() > 0 {
        assert forall|i: int| 0 <= i < b.skip(1).len() implies #[trigger] b.skip(1)[i] == 0 by {
            assert(b.skip(1)[i] == b[i + 1]);
        }
        lemma_zeros(b.skip(1));
    }
}

proof fn lemma_kernel(
    bits: bool,
    stem: Seq<char>,
    k: nat,
    mems: Seq<Seq<u8>>,
    off: nat,
    len: nat,
)
    requires
        k < mems.len(),
        off < 0x1_0000_0000,
        len < 0x1_0000_0000,
        off + len <= mems[k as int].len(),
        mems[k as int].len() <= 0x1_0000_0000,
    ensures
        ran(kernel(bits, stem, k), args2(off, len), mems, len) == Some(
            Val::N(measured(bits, mems[k as int], off as int, len)),
        ),
{
    let f = kernel(bits, stem, k);
    let m = mems[k as int];
    let args = args2(off, len);
    lemma_variables();
    reveal_with_fuel(bound_params, 3);
    reveal_with_fuel(entered, 7);
    let env = entered(f, args, 6);
    assert(env.contains_key("off"@) && env["off"@] == Val::N(off));
    assert(env.contains_key("len"@) && env["len"@] == Val::N(len));
    lemma_setup(env, mems, off, len, len);
    let z = all_zero();
    let e1 = code_done(setup(), env, mems, len)->0;
    lemma_zero_acc();
    lemma_vec_loop(bits, k, e1, mems, off, len, 0, z, len);
    let e2 = code_done(vec_loop(bits, k), e1, mems, len)->0;
    let acc = e2["acc"@]->V_0;
    lemma_unary(acc, 0);
    lemma_binary(lane(acc, 8, 0), lane(acc, 8, 1), Seq::empty(), Seq::empty());
    lemma_measured_bound(bits, m, off as int, vec_len(len));
    assert(term_value(get("acc"@), e2, mems) == Some(Val::V(acc)));
    let a = un("i64x2.extract_lane 0"@, get("acc"@));
    let b = un("i64x2.extract_lane 1"@, get("acc"@));
    assert(term_value(a, e2, mems) == Some(Val::N(lane(acc, 8, 0))));
    assert(term_value(b, e2, mems) == Some(Val::N(lane(acc, 8, 1))));
    let e3 = e2.insert("scalar"@, Val::N(held(acc)));
    assert(code_done(set_scalar(), e2, mems, len) == Some(e3));
    lemma_tail_loop(bits, k, e3, mems, off, len, vec_len(len), len);
    assert(code_done(both(setup(), vec_loop(bits, k)), env, mems, len) == Some(e2));
    assert(code_done(both(both(setup(), vec_loop(bits, k)), set_scalar()), env, mems, len) == Some(
        e3,
    ));
}

// ---------------------------------------------------------------------------
// Their texts
// ---------------------------------------------------------------------------

pub(crate) proof fn lemma_get_text(x: Seq<char>)
    ensures
        squeezed(term_text(get(x))) == squeezed("(local.get $"@) + squeezed(x) + squeezed(")"@),
{
    broadcast use lemma_squeezed_add;

}

pub(crate) proof fn lemma_lit_text(op: Seq<char>, word: Seq<char>)
    ensures
        squeezed(term_text(Term::Lit(op, word))) == squeezed("("@) + squeezed(op) + squeezed(word)
            + squeezed(")"@),
{
    broadcast use {lemma_squeezed_add, lemma_add_nothing};

    lemma_blank_literals();
}

pub(crate) proof fn lemma_un_text(op: Seq<char>, a: Term)
    ensures
        squeezed(term_text(un(op, a))) == squeezed("("@) + squeezed(op) + squeezed(term_text(a))
            + squeezed(")"@),
{
    broadcast use {lemma_squeezed_add, lemma_add_nothing};

    lemma_blank_literals();
}

pub(crate) proof fn lemma_bin_text(op: Seq<char>, a: Term, b: Term)
    ensures
        squeezed(term_text(bin(op, a, b))) == squeezed("("@) + squeezed(op) + squeezed(term_text(a))
            + squeezed(term_text(b)) + squeezed(")"@),
{
    broadcast use {lemma_squeezed_add, lemma_add_nothing};

    lemma_blank_literals();
}

pub(crate) proof fn lemma_load_text(op: Seq<char>, k: nat, a: Term)
    ensures
        squeezed(term_text(Term::Load(op, k, Box::new(a)))) == squeezed("("@) + squeezed(op)
            + squeezed(decimal(k)) + squeezed(term_text(a)) + squeezed(")"@),
{
    broadcast use {lemma_squeezed_add, lemma_add_nothing};

    lemma_blank_literals();
}

pub(crate) proof fn lemma_assign_text(x: Seq<char>, e: Term)
    ensures
        squeezed(code_text(Code::Assign(x, e))) == squeezed("(local.set $"@) + squeezed(x)
            + squeezed(term_text(e)) + squeezed(")"@),
{
    broadcast use {lemma_squeezed_add, lemma_add_nothing};

    lemma_blank_literals();
}

/// How a loop begins, up to white space.
pub open spec fn opening_text(out: Seq<char>, again: Seq<char>, c: Term) -> Seq<char> {
    squeezed("(block $"@) + squeezed(out) + squeezed(" (loop $"@) + squeezed(again) + squeezed(
        " (br_if $"@,
    ) + squeezed(out) + squeezed(term_text(c)) + squeezed(")"@)
}

/// How a loop ends, up to white space.
pub open spec fn closing_text(again: Seq<char>) -> Seq<char> {
    squeezed("(br $"@) + squeezed(again) + squeezed(")"@) + squeezed(")"@) + squeezed(")"@)
}

pub(crate) proof fn lemma_until_text(out: Seq<char>, again: Seq<char>, c: Term, s: Code)
    ensures
        squeezed(code_text(Code::Until(out, again, c, Box::new(s)))) == opening_text(out, again, c)
            + squeezed(code_text(s)) + closing_text(again),
{
    broadcast use {lemma_squeezed_add, lemma_add_nothing};

    lemma_blank_literals();
    let h = opening_text(out, again, c) + squeezed(code_text(s));
    let a = squeezed("(br $"@);
    let b = squeezed(again);
    let e = squeezed(")"@);
    assert(h + (a + b + e + e + e) =~= h + a + b + e + e + e);
    assert(squeezed(code_text(Code::Until(out, again, c, Box::new(s)))) == h + a + b + e + e + e);
}

/// A kernel up to its locals, without white space.
pub open spec fn head_text(f: Kernel) -> Seq<char> {
    squeezed("(func $"@) + squeezed(f.name) + squeezed(" (export \""@) + squeezed(f.name)
        + squeezed("\")"@) + squeezed(declared_text("param"@, f.params, f.params.len() as int))
        + squeezed("(result "@) + squeezed(f.result) + squeezed(")"@) + squeezed(
        declared_text("local"@, f.locals, f.locals.len() as int),
    )
}

proof fn lemma_head_text(pop: bool, stem: Seq<char>, k: nat)
    ensures
        ({
            let f = kernel(pop, stem, k);
            &&& squeezed(f.name) == squeezed(stem) + squeezed(decimal(k))
            &&& squeezed(declared_text("param"@, f.params, f.params.len() as int))
                == declared_word("param"@, "off"@, "i32"@) + declared_word("param"@, "len"@, "i32"@)
            &&& squeezed(declared_text("local"@, f.locals, f.locals.len() as int))
                == declared_word("local"@, "cur"@, "i32"@) + declared_word("local"@, "end"@, "i32"@)
                + declared_word("local"@, "vec_end"@, "i32"@) + declared_word(
                "local"@,
                "acc"@,
                "v128"@,
            ) + declared_word("local"@, part_name(pop), "v128"@) + declared_word(
                "local"@,
                "scalar"@,
                "i64"@,
            )
        }),
{
    broadcast use {lemma_squeezed_add, lemma_nothing_add};

    let f = kernel(pop, stem, k);
    lemma_declared("param"@, f.params, 1);
    lemma_declared("param"@, f.params, 2);
    lemma_declared("local"@, f.locals, 1);
    lemma_declared("local"@, f.locals, 2);
    lemma_declared("local"@, f.locals, 3);
    lemma_declared("local"@, f.locals, 4);
    lemma_declared("local"@, f.locals, 5);
    lemma_declared("local"@, f.locals, 6);
    assert(squeezed(declared_text("param"@, f.params, 0)) == Seq::<char>::empty());
    assert(squeezed(declared_text("local"@, f.locals, 0)) == Seq::<char>::empty());
}

pub(crate) proof fn lemma_both_text(s: Code, t: Code)
    ensures
        squeezed(code_text(both(s, t))) == squeezed(code_text(s)) + squeezed(code_text(t)),
{
    lemma_squeezed_add(code_text(s), code_text(t));
}

proof fn lemma_kernel_text(pop: bool, stem: Seq<char>, k: nat)
    ensures
        squeezed(kernel_text(kernel(pop, stem, k))) == head_text(kernel(pop, stem, k)) + (squeezed(
            code_text(set_cur()),
        ) + squeezed(code_text(set_end())) + squeezed(code_text(set_vec_end())) + squeezed(
            code_text(set_acc()),
        ) + (opening_text(
            "vec_done"@,
            "vec_continue"@,
            bin("i32.eq"@, get("cur"@), get("vec_end"@)),
        ) + (squeezed(code_text(set_part(pop, k))) + squeezed(code_text(add_part(pop))) + squeezed(
            code_text(step_by("16"@)),
        )) + closing_text("vec_continue"@)) + squeezed(code_text(set_scalar())) + (opening_text(
            "tail_done"@,
            "tail_continue"@,
            bin("i32.eq"@, get("cur"@), get("end"@)),
        ) + (squeezed(code_text(add_single(pop, k))) + squeezed(code_text(step_by("1"@))))
            + closing_text("tail_continue"@))) + squeezed(term_text(get("scalar"@))) + squeezed(
            ")"@,
        ),
{
    broadcast use lemma_squeezed_add;

    let vec_cond = bin("i32.eq"@, get("cur"@), get("vec_end"@));
    let tail_cond = bin("i32.eq"@, get("cur"@), get("end"@));
    lemma_both_text(set_cur(), set_end());
    lemma_both_text(both(set_cur(), set_end()), set_vec_end());
    lemma_both_text(both(both(set_cur(), set_end()), set_vec_end()), set_acc());
    lemma_both_text(set_part(pop, k), add_part(pop));
    lemma_both_text(both(set_part(pop, k), add_part(pop)), step_by("16"@));
    lemma_until_text("vec_done"@, "vec_continue"@, vec_cond, vec_body(pop, k));
    lemma_both_text(setup(), vec_loop(pop, k));
    lemma_both_text(both(setup(), vec_loop(pop, k)), set_scalar());
    let body = both(add_single(pop, k), step_by("1"@));
    lemma_both_text(add_single(pop, k), step_by("1"@));
    lemma_until_text("tail_done"@, "tail_continue"@, tail_cond, body);
    lemma_both_text(both(both(setup(), vec_loop(pop, k)), set_scalar()), tail_loop(pop, k));
}

proof fn lemma_regroup(
    h: Seq<char>,
    a: Seq<char>,
    b: Seq<char>,
    c: Seq<char>,
    d: Seq<char>,
    e: Seq<char>,
    f: Seq<char>,
    g: Seq<char>,
    i: Seq<char>,
    j: Seq<char>,
    l: Seq<char>,
    m: Seq<char>,
    n: Seq<char>,
    o: Seq<char>,
    p: Seq<char>,
    q: Seq<char>,
    r: Seq<char>,
)
    ensures
        h + a + b + c + d + e + f + g + i + j + l + m + n + o + p + (q + r) == h + (a + b + c + d + (e
            + (f + g + i) + j) + l + (m + (n + o) + p)) + q + r,
{
    broadcast use lemma_add_assoc;

}

proof fn lemma_plain_words_0(k: nat)
    ensures
        fill("  "@, k) == "  "@,
        fill("(func $"@, k) == "(func $"@,
        fill("tvm_simd_sum_u8_p"@, k) == "tvm_simd_sum_u8_p"@,
        fill(" (export \""@, k) == " (export \""@,
        fill("\")"@, k) == "\")"@,
        fill("\n"@, k) == "\n"@,
        fill("("@, k) == "("@,
        fill("param"@, k) == "param"@,
        fill(" $"@, k) == " $"@,
        fill("off"@, k) == "off"@,
        fill(" "@, k) == " "@,
        fill("i32"@, k) == "i32"@,
        fill(")"@, k) == ")"@,
        fill("len"@, k) == "len"@,
{
    reveal_strlit("  ");
    lemma_fill_plain("  "@, k);
    reveal_strlit("(func $");
    lemma_fill_plain("(func $"@, k);
    reveal_strlit("tvm_simd_sum_u8_p");
    lemma_fill_plain("tvm_simd_sum_u8_p"@, k);
    reveal_strlit(" (export \"");
    lemma_fill_plain(" (export \""@, k);
    reveal_strlit("\")");
    lemma_fill_plain("\")"@, k);
    reveal_strlit("\n");
    lemma_fill_plain("\n"@, k);
    reveal_strlit("(");
    lemma_fill_plain("("@, k);
    reveal_strlit("param");
    lemma_fill_plain("param"@, k);
    reveal_strlit(" $");
    lemma_fill_plain(" $"@, k);
    reveal_strlit("off");
    lemma_fill_plain("off"@, k);
    reveal_strlit(" ");
    lemma_fill_plain(" "@, k);
    reveal_strlit("i32");
    lemma_fill_plain("i32"@, k);
    reveal_strlit(")");
    lemma_fill_plain(")"@, k);
    reveal_strlit("len");
    lemma_fill_plain("len"@, k);
}

proof fn lemma_plain_words_1(k: nat)
    ensures
        fill("(result "@, k) == "(result "@,
        fill("i64"@, k) == "i64"@,
        fill("local"@, k) == "local"@,
        fill("cur"@, k) == "cur"@,
        fill("end"@, k) == "end"@,
        fill("vec_end"@, k) == "vec_end"@,
        fill("acc"@, k) == "acc"@,
        fill("v128"@, k) == "v128"@,
        fill("quads"@, k) == "quads"@,
        fill("scalar"@, k) == "scalar"@,
        fill("(local.set $"@, k) == "(local.set $"@,
        fill("(local.get $"@, k) == "(local.get $"@,
        fill("i32.add"@, k) == "i32.add"@,
        fill("i32.and"@, k) == "i32.and"@,
{
    reveal_strlit("(result ");
    lemma_fill_plain("(result "@, k);
    reveal_strlit("i64");
    lemma_fill_plain("i64"@, k);
    reveal_strlit("local");
    lemma_fill_plain("local"@, k);
    reveal_strlit("cur");
    lemma_fill_plain("cur"@, k);
    reveal_strlit("end");
    lemma_fill_plain("end"@, k);
    reveal_strlit("vec_end");
    lemma_fill_plain("vec_end"@, k);
    reveal_strlit("acc");
    lemma_fill_plain("acc"@, k);
    reveal_strlit("v128");
    lemma_fill_plain("v128"@, k);
    reveal_strlit("quads");
    lemma_fill_plain("quads"@, k);
    reveal_strlit("scalar");
    lemma_fill_plain("scalar"@, k);
    reveal_strlit("(local.set $");
    lemma_fill_plain("(local.set $"@, k);
    reveal_strlit("(local.get $");
    lemma_fill_plain("(local.get $"@, k);
    reveal_strlit("i32.add");
    lemma_fill_plain("i32.add"@, k);
    reveal_strlit("i32.and");
    lemma_fill_plain("i32.and"@, k);
}

proof fn lemma_plain_words_2(k: nat)
    ensures
        fill("i32.const"@, k) == "i32.const"@,
        fill("-16"@, k) == "-16"@,
        fill("v128.const"@, k) == "v128.const"@,
        fill("i64x2 0 0"@, k) == "i64x2 0 0"@,
        fill("(block $"@, k) == "(block $"@,
        fill("vec_done"@, k) == "vec_done"@,
        fill(" (loop $"@, k) == " (loop $"@,
        fill("vec_continue"@, k) == "vec_continue"@,
        fill(" (br_if $"@, k) == " (br_if $"@,
        fill("i32.eq"@, k) == "i32.eq"@,
        fill("i32x4.extadd_pairwise_i16x8_u"@, k) == "i32x4.extadd_pairwise_i16x8_u"@,
        fill("i16x8.extadd_pairwise_i8x16_u"@, k) == "i16x8.extadd_pairwise_i8x16_u"@,
        fill("v128.load"@, k) == "v128.load"@,
        fill("i64x2.add"@, k) == "i64x2.add"@,
{
    reveal_strlit("i32.const");
    lemma_fill_plain("i32.const"@, k);
    reveal_strlit("-16");
    lemma_fill_plain("-16"@, k);
    reveal_strlit("v128.const");
    lemma_fill_plain("v128.const"@, k);
    reveal_strlit("i64x2 0 0");
    lemma_fill_plain("i64x2 0 0"@, k);
    reveal_strlit("(block $");
    lemma_fill_plain("(block $"@, k);
    reveal_strlit("vec_done");
    lemma_fill_plain("vec_done"@, k);
    reveal_strlit(" (loop $");
    lemma_fill_plain(" (loop $"@, k);
    reveal_strlit("vec_continue");
    lemma_fill_plain("vec_continue"@, k);
    reveal_strlit(" (br_if $");
    lemma_fill_plain(" (br_if $"@, k);
    reveal_strlit("i32.eq");
    lemma_fill_plain("i32.eq"@, k);
    reveal_strlit("i32x4.extadd_pairwise_i16x8_u");
    lemma_fill_plain("i32x4.extadd_pairwise_i16x8_u"@, k);
    reveal_strlit("i16x8.extadd_pairwise_i8x16_u");
    lemma_fill_plain("i16x8.extadd_pairwise_i8x16_u"@, k);
    reveal_strlit("v128.load");
    lemma_fill_plain("v128.load"@, k);
    reveal_strlit("i64x2.add");
    lemma_fill_plain("i64x2.add"@, k);
}

proof fn lemma_plain_words_3(k: nat)
    ensures
        fill("i64x2.extend_low_i32x4_u"@, k) == "i64x2.extend_low_i32x4_u"@,
        fill("i64x2.extend_high_i32x4_u"@, k) == "i64x2.extend_high_i32x4_u"@,
        fill("16"@, k) == "16"@,
        fill("(br $"@, k) == "(br $"@,
        fill("i64.add"@, k) == "i64.add"@,
        fill("i64x2.extract_lane 0"@, k) == "i64x2.extract_lane 0"@,
        fill("i64x2.extract_lane 1"@, k) == "i64x2.extract_lane 1"@,
        fill("tail_done"@, k) == "tail_done"@,
        fill("tail_continue"@, k) == "tail_continue"@,
        fill("i64.load8_u"@, k) == "i64.load8_u"@,
        fill("1"@, k) == "1"@,
        fill("tvm_simd_popcount_p"@, k) == "tvm_simd_popcount_p"@,
        fill("tmp"@, k) == "tmp"@,
        fill("i8x16.popcnt"@, k) == "i8x16.popcnt"@,
{
    reveal_strlit("i64x2.extend_low_i32x4_u");
    lemma_fill_plain("i64x2.extend_low_i32x4_u"@, k);
    reveal_strlit("i64x2.extend_high_i32x4_u");
    lemma_fill_plain("i64x2.extend_high_i32x4_u"@, k);
    reveal_strlit("16");
    lemma_fill_plain("16"@, k);
    reveal_strlit("(br $");
    lemma_fill_plain("(br $"@, k);
    reveal_strlit("i64.add");
    lemma_fill_plain("i64.add"@, k);
    reveal_strlit("i64x2.extract_lane 0");
    lemma_fill_plain("i64x2.extract_lane 0"@, k);
    reveal_strlit("i64x2.extract_lane 1");
    lemma_fill_plain("i64x2.extract_lane 1"@, k);
    reveal_strlit("tail_done");
    lemma_fill_plain("tail_done"@, k);
    reveal_strlit("tail_continue");
    lemma_fill_plain("tail_continue"@, k);
    reveal_strlit("i64.load8_u");
    lemma_fill_plain("i64.load8_u"@, k);
    reveal_strlit("1");
    lemma_fill_plain("1"@, k);
    reveal_strlit("tvm_simd_popcount_p");
    lemma_fill_plain("tvm_simd_popcount_p"@, k);
    reveal_strlit("tmp");
    lemma_fill_plain("tmp"@, k);
    reveal_strlit("i8x16.popcnt");
    lemma_fill_plain("i8x16.popcnt"@, k);
}

proof fn lemma_plain_words_4(k: nat)
    ensures
        fill("i64.extend_i32_u"@, k) == "i64.extend_i32_u"@,
        fill("i32.popcnt"@, k) == "i32.popcnt"@,
        fill("i32.load8_u"@, k) == "i32.load8_u"@,
{
    reveal_strlit("i64.extend_i32_u");
    lemma_fill_plain("i64.extend_i32_u"@, k);
    reveal_strlit("i32.popcnt");
    lemma_fill_plain("i32.popcnt"@, k);
    reveal_strlit("i32.load8_u");
    lemma_fill_plain("i32.load8_u"@, k);
}

/// The words of the kernels have no place for a number.
proof fn lemma_plain_words(k: nat)
    ensures
        fill("  "@, k) == "  "@,
        fill("(func $"@, k) == "(func $"@,
        fill("tvm_simd_sum_u8_p"@, k) == "tvm_simd_sum_u8_p"@,
        fill(" (export \""@, k) == " (export \""@,
        fill("\")"@, k) == "\")"@,
        fill("\n"@, k) == "\n"@,
        fill("("@, k) == "("@,
        fill("param"@, k) == "param"@,
        fill(" $"@, k) == " $"@,
        fill("off"@, k) == "off"@,
        fill(" "@, k) == " "@,
        fill("i32"@, k) == "i32"@,
        fill(")"@, k) == ")"@,
        fill("len"@, k) == "len"@,
        fill("(result "@, k) == "(result "@,
        fill("i64"@, k) == "i64"@,
        fill("local"@, k) == "local"@,
        fill("cur"@, k) == "cur"@,
        fill("end"@, k) == "end"@,
        fill("vec_end"@, k) == "vec_end"@,
        fill("acc"@, k) == "acc"@,
        fill("v128"@, k) == "v128"@,
        fill("quads"@, k) == "quads"@,
        fill("scalar"@, k) == "scalar"@,
        fill("(local.set $"@, k) == "(local.set $"@,
        fill("(local.get $"@, k) == "(local.get $"@,
        fill("i32.add"@, k) == "i32.add"@,
        fill("i32.and"@, k) == "i32.and"@,
        fill("i32.const"@, k) == "i32.const"@,
        fill("-16"@, k) == "-16"@,
        fill("v128.const"@, k) == "v128.const"@,
        fill("i64x2 0 0"@, k) == "i64x2 0 0"@,
        fill("(block $"@, k) == "(block $"@,
        fill("vec_done"@, k) == "vec_done"@,
        fill(" (loop $"@, k) == " (loop $"@,
        fill("vec_continue"@, k) == "vec_continue"@,
        fill(" (br_if $"@, k) == " (br_if $"@,
        fill("i32.eq"@, k) == "i32.eq"@,
        fill("i32x4.extadd_pairwise_i16x8_u"@, k) == "i32x4.extadd_pairwise_i16x8_u"@,
        fill("i16x8.extadd_pairwise_i8x16_u"@, k) == "i16x8.extadd_pairwise_i8x16_u"@,
        fill("v128.load"@, k) == "v128.load"@,
        fill("i64x2.add"@, k) == "i64x2.add"@,
        fill("i64x2.extend_low_i32x4_u"@, k) == "i64x2.extend_low_i32x4_u"@,
        fill("i64x2.extend_high_i32x4_u"@, k) == "i64x2.extend_high_i32x4_u"@,
        fill("16"@, k) == "16"@,
        fill("(br $"@, k) == "(br $"@,
        fill("i64.add"@, k) == "i64.add"@,
        fill("i64x2.extract_lane 0"@, k) == "i64x2.extract_lane 0"@,
        fill("i64x2.extract_lane 1"@, k) == "i64x2.extract_lane 1"@,
        fill("tail_done"@, k) == "tail_done"@,
        fill("tail_continue"@, k) == "tail_continue"@,
        fill("i64.load8_u"@, k) == "i64.load8_u"@,
        fill("1"@, k) == "1"@,
        fill("tvm_simd_popcount_p"@, k) == "tvm_simd_popcount_p"@,
        fill("tmp"@, k) == "tmp"@,
        fill("i8x16.popcnt"@, k) == "i8x16.popcnt"@,
        fill("i64.extend_i32_u"@, k) == "i64.extend_i32_u"@,
        fill("i32.popcnt"@, k) == "i32.popcnt"@,
        fill("i32.load8_u"@, k) == "i32.load8_u"@,
{
    lemma_plain_words_0(k);
    lemma_plain_words_1(k);
    lemma_plain_words_2(k);
    lemma_plain_words_3(k);
    lemma_plain_words_4(k);
}

proof fn lemma_sum_head_words()
    ensures
        "  (func $tvm_simd_sum_u8_p@ (export \"tvm_simd_sum_u8_p@\")\n        (param $off i32) (param $len i32) (result i64)\n    (local $cur i32) (local $end i32) (local $vec_end i32)\n    (local $acc v128) (local $quads v128) (local $scalar i64)\n"@ == ("  "@ + "(func $"@) + ("tvm_simd_sum_u8_p"@ + "@"@) + " (export \""@
        + ("tvm_simd_sum_u8_p"@ + "@"@) + "\")"@ + (((("\n"@ + "  "@ + "  "@ + "  "@ + "  "@)
        + "("@) + "param"@ + " $"@ + "off"@ + " "@ + "i32"@ + ")"@) + ((" "@ + "("@) + "param"@
        + " $"@ + "len"@ + " "@ + "i32"@ + ")"@)) + (" "@ + "(result "@) + "i64"@ + ")"@
        + (((((((("\n"@ + "  "@ + "  "@) + "("@) + "local"@ + " $"@ + "cur"@ + " "@ + "i32"@
        + ")"@) + ((" "@ + "("@) + "local"@ + " $"@ + "end"@ + " "@ + "i32"@ + ")"@)) + ((" "@
        + "("@) + "local"@ + " $"@ + "vec_end"@ + " "@ + "i32"@ + ")"@)) + ((("\n"@ + "  "@
        + "  "@) + "("@) + "local"@ + " $"@ + "acc"@ + " "@ + "v128"@ + ")"@)) + ((" "@ + "("@)
        + "local"@ + " $"@ + "quads"@ + " "@ + "v128"@ + ")"@)) + ((" "@ + "("@) + "local"@
        + " $"@ + "scalar"@ + " "@ + "i64"@ + ")"@)) + "\n"@,
{
    reveal_strlit("  (func $tvm_simd_sum_u8_p@ (export \"tvm_simd_sum_u8_p@\")\n        (param $off i32) (param $len i32) (result i64)\n    (local $cur i32) (local $end i32) (local $vec_end i32)\n    (local $acc v128) (local $quads v128) (local $scalar i64)\n");
    reveal_strlit("  ");
    reveal_strlit("(func $");
    reveal_strlit("tvm_simd_sum_u8_p");
    reveal_strlit("@");
    reveal_strlit(" (export \"");
    reveal_strlit("\")");
    reveal_strlit("\n");
    reveal_strlit("(");
    reveal_strlit("param");
    reveal_strlit(" $");
    reveal_strlit("off");
    reveal_strlit(" ");
    reveal_strlit("i32");
    reveal_strlit(")");
    reveal_strlit("len");
    reveal_strlit("(result ");
    reveal_strlit("i64");
    reveal_strlit("local");
    reveal_strlit("cur");
    reveal_strlit("end");
    reveal_strlit("vec_end");
    reveal_strlit("acc");
    reveal_strlit("v128");
    reveal_strlit("quads");
    reveal_strlit("scalar");
    assert("  (func $tvm_simd_sum_u8_p@ (export \"tvm_simd_sum_u8_p@\")\n        (param $off i32) (param $len i32) (result i64)\n    (local $cur i32) (local $end i32) (local $vec_end i32)\n    (local $acc v128) (local $quads v128) (local $scalar i64)\n"@ =~= ("  "@ + "(func $"@) + ("tvm_simd_sum_u8_p"@ + "@"@) + " (export \""@
        + ("tvm_simd_sum_u8_p"@ + "@"@) + "\")"@ + (((("\n"@ + "  "@ + "  "@ + "  "@ + "  "@)
        + "("@) + "param"@ + " $"@ + "off"@ + " "@ + "i32"@ + ")"@) + ((" "@ + "("@) + "param"@
        + " $"@ + "len"@ + " "@ + "i32"@ + ")"@)) + (" "@ + "(result "@) + "i64"@ + ")"@
        + (((((((("\n"@ + "  "@ + "  "@) + "("@) + "local"@ + " $"@ + "cur"@ + " "@ + "i32"@
        + ")"@) + ((" "@ + "("@) + "local"@ + " $"@ + "end"@ + " "@ + "i32"@ + ")"@)) + ((" "@
        + "("@) + "local"@ + " $"@ + "vec_end"@ + " "@ + "i32"@ + ")"@)) + ((("\n"@ + "  "@
        + "  "@) + "("@) + "local"@ + " $"@ + "acc"@ + " "@ + "v128"@ + ")"@)) + ((" "@ + "("@)
        + "local"@ + " $"@ + "quads"@ + " "@ + "v128"@ + ")"@)) + ((" "@ + "("@) + "local"@
        + " $"@ + "scalar"@ + " "@ + "i64"@ + ")"@)) + "\n"@);
}

proof fn lemma_sum_head_filled(k: nat)
    ensures
        fill("  (func $tvm_simd_sum_u8_p@ (export \"tvm_simd_sum_u8_p@\")\n        (param $off i32) (param $len i32) (result i64)\n    (local $cur i32) (local $end i32) (local $vec_end i32)\n    (local $acc v128) (local $quads v128) (local $scalar i64)\n"@, k) == ("  "@ + "(func $"@) + ("tvm_simd_sum_u8_p"@ + decimal(k)) + " (export \""@
        + ("tvm_simd_sum_u8_p"@ + decimal(k)) + "\")"@ + (((("\n"@ + "  "@ + "  "@ + "  "@
        + "  "@) + "("@) + "param"@ + " $"@ + "off"@ + " "@ + "i32"@ + ")"@) + ((" "@ + "("@)
        + "param"@ + " $"@ + "len"@ + " "@ + "i32"@ + ")"@)) + (" "@ + "(result "@) + "i64"@
        + ")"@ + (((((((("\n"@ + "  "@ + "  "@) + "("@) + "local"@ + " $"@ + "cur"@ + " "@
        + "i32"@ + ")"@) + ((" "@ + "("@) + "local"@ + " $"@ + "end"@ + " "@ + "i32"@ + ")"@))
        + ((" "@ + "("@) + "local"@ + " $"@ + "vec_end"@ + " "@ + "i32"@ + ")"@)) + ((("\n"@
        + "  "@ + "  "@) + "("@) + "local"@ + " $"@ + "acc"@ + " "@ + "v128"@ + ")"@)) + ((" "@
        + "("@) + "local"@ + " $"@ + "quads"@ + " "@ + "v128"@ + ")"@)) + ((" "@ + "("@)
        + "local"@ + " $"@ + "scalar"@ + " "@ + "i64"@ + ")"@)) + "\n"@,
{
    broadcast use lemma_fill_add;

    lemma_sum_head_words();
    lemma_plain_words(k);
    lemma_fill_place(k);
}

proof fn lemma_sum_head(k: nat)
    ensures
        squeezed(fill("  (func $tvm_simd_sum_u8_p@ (export \"tvm_simd_sum_u8_p@\")\n        (param $off i32) (param $len i32) (result i64)\n    (local $cur i32) (local $end i32) (local $vec_end i32)\n    (local $acc v128) (local $quads v128) (local $scalar i64)\n"@, k)) == head_text(kernel(false, "tvm_simd_sum_u8_p"@, k)),
{
    broadcast use {lemma_squeezed_add, lemma_add_nothing, lemma_nothing_add};

    lemma_blank_literals();
    lemma_sum_head_filled(k);
    lemma_head_text(false, "tvm_simd_sum_u8_p"@, k);
}

proof fn lemma_sum_cur_text(k: nat)
    ensures
        squeezed(code_text(set_cur())) == squeezed("(local.set $"@) + squeezed("cur"@) + (squeezed("(local.get $"@)
        + squeezed("off"@) + squeezed(")"@)) + squeezed(")"@),
{
    lemma_get_text("off"@);
    lemma_assign_text("cur"@, get("off"@));
    assert(set_cur() == Code::Assign("cur"@, get("off"@)));
}

proof fn lemma_sum_cur_words()
    ensures
        "    (local.set $cur (local.get $off))\n"@ == (("  "@ + "  "@) + "(local.set $"@ + "cur"@ + " "@ + ("(local.get $"@ + "off"@ + ")"@)
        + ")"@) + "\n"@,
{
    reveal_strlit("    (local.set $cur (local.get $off))\n");
    reveal_strlit("  ");
    reveal_strlit("(local.set $");
    reveal_strlit("cur");
    reveal_strlit(" ");
    reveal_strlit("(local.get $");
    reveal_strlit("off");
    reveal_strlit(")");
    reveal_strlit("\n");
    assert("    (local.set $cur (local.get $off))\n"@ =~= (("  "@ + "  "@) + "(local.set $"@ + "cur"@ + " "@ + ("(local.get $"@ + "off"@ + ")"@)
        + ")"@) + "\n"@);
}

proof fn lemma_sum_cur_filled(k: nat)
    ensures
        fill("    (local.set $cur (local.get $off))\n"@, k) == (("  "@ + "  "@) + "(local.set $"@ + "cur"@ + " "@ + ("(local.get $"@ + "off"@ + ")"@)
        + ")"@) + "\n"@,
{
    broadcast use lemma_fill_add;

    lemma_sum_cur_words();
    lemma_plain_words(k);
}

proof fn lemma_sum_cur(k: nat)
    ensures
        squeezed(fill("    (local.set $cur (local.get $off))\n"@, k)) == squeezed(code_text(set_cur())),
{
    broadcast use {lemma_squeezed_add, lemma_add_nothing, lemma_nothing_add};

    lemma_blank_literals();
    lemma_sum_cur_filled(k);
    lemma_sum_cur_text(k);
}

proof fn lemma_sum_end_text(k: nat)
    ensures
        squeezed(code_text(set_end())) == squeezed("(local.set $"@) + squeezed("end"@) + (squeezed("("@) + squeezed("i32.add"@)
        + (squeezed("(local.get $"@) + squeezed("off"@) + squeezed(")"@))
        + (squeezed("(local.get $"@) + squeezed("len"@) + squeezed(")"@)) + squeezed(")"@))
        + squeezed(")"@),
{
    lemma_get_text("off"@);
    lemma_get_text("len"@);
    lemma_bin_text("i32.add"@, get("off"@), get("len"@));
    lemma_assign_text("end"@, bin("i32.add"@, get("off"@), get("len"@)));
    assert(set_end() == Code::Assign("end"@, bin("i32.add"@, get("off"@), get("len"@))));
}

proof fn lemma_sum_end_words()
    ensures
        "    (local.set $end (i32.add (local.get $off) (local.get $len)))\n"@ == (("  "@ + "  "@) + "(local.set $"@ + "end"@ + " "@ + ("("@ + "i32.add"@ + " "@
        + ("(local.get $"@ + "off"@ + ")"@) + " "@ + ("(local.get $"@ + "len"@ + ")"@) + ")"@)
        + ")"@) + "\n"@,
{
    reveal_strlit("    (local.set $end (i32.add (local.get $off) (local.get $len)))\n");
    reveal_strlit("  ");
    reveal_strlit("(local.set $");
    reveal_strlit("end");
    reveal_strlit(" ");
    reveal_strlit("(");
    reveal_strlit("i32.add");
    reveal_strlit("(local.get $");
    reveal_strlit("off");
    reveal_strlit(")");
    reveal_strlit("len");
    reveal_strlit("\n");
    assert("    (local.set $end (i32.add (local.get $off) (local.get $len)))\n"@ =~= (("  "@ + "  "@) + "(local.set $"@ + "end"@ + " "@ + ("("@ + "i32.add"@ + " "@
        + ("(local.get $"@ + "off"@ + ")"@) + " "@ + ("(local.get $"@ + "len"@ + ")"@) + ")"@)
        + ")"@) + "\n"@);
}

proof fn lemma_sum_end_filled(k: nat)
    ensures
        fill("    (local.set $end (i32.add (local.get $off) (local.get $len)))\n"@, k) == (("  "@ + "  "@) + "(local.set $"@ + "end"@ + " "@ + ("("@ + "i32.add"@ + " "@
        + ("(local.get $"@ + "off"@ + ")"@) + " "@ + ("(local.get $"@ + "len"@ + ")"@) + ")"@)
        + ")"@) + "\n"@,
{
    broadcast use lemma_fill_add;

    lemma_sum_end_words();
    lemma_plain_words(k);
}

proof fn lemma_sum_end(k: nat)
    ensures
        squeezed(fill("    (local.set $end (i32.add (local.get $off) (local.get $len)))\n"@, k)) == squeezed(code_text(set_end())),
{
    broadcast use {lemma_squeezed_add, lemma_add_nothing, lemma_nothing_add};

    lemma_blank_literals();
    lemma_sum_end_filled(k);
    lemma_sum_end_text(k);
}

proof fn lemma_sum_vec_end_text(k: nat)
    ensures
        squeezed(code_text(set_vec_end())) == squeezed("(local.set $"@) + squeezed("vec_end"@) + (squeezed("("@) + squeezed("i32.add"@)
        + (squeezed("(local.get $"@) + squeezed("off"@) + squeezed(")"@)) + (squeezed("("@)
        + squeezed("i32.and"@) + (squeezed("(local.get $"@) + squeezed("len"@) + squeezed(")"@))
        + (squeezed("("@) + squeezed("i32.const"@) + squeezed("-16"@) + squeezed(")"@))
        + squeezed(")"@)) + squeezed(")"@)) + squeezed(")"@),
{
    lemma_get_text("off"@);
    lemma_get_text("len"@);
    lemma_lit_text("i32.const"@, "-16"@);
    lemma_bin_text("i32.and"@, get("len"@), Term::Lit("i32.const"@, "-16"@));
    lemma_bin_text("i32.add"@, get("off"@), bin("i32.and"@, get("len"@), Term::Lit("i32.const"@, "-16"@)));
    lemma_assign_text("vec_end"@, bin("i32.add"@, get("off"@), bin("i32.and"@, get("len"@), Term::Lit("i32.const"@, "-16"@))));
    assert(set_vec_end() == Code::Assign("vec_end"@, bin("i32.add"@, get("off"@), bin("i32.and"@, get("len"@), Term::Lit("i32.const"@, "-16"@)))));
}

proof fn lemma_sum_vec_end_words()
    ensures
        "    (local.set $vec_end\n      (i32.add (local.get $off)\n               (i32.and (local.get $len) (i32.const -16))))\n"@ == (("  "@ + "  "@) + "(local.set $"@ + "vec_end"@ + ("\n"@ + "  "@ + "  "@ + "  "@) + ("("@
        + "i32.add"@ + " "@ + ("(local.get $"@ + "off"@ + ")"@) + ("\n"@ + "  "@ + "  "@ + "  "@
        + "  "@ + "  "@ + "  "@ + "  "@ + " "@) + ("("@ + "i32.and"@ + " "@ + ("(local.get $"@
        + "len"@ + ")"@) + " "@ + ("("@ + "i32.const"@ + " "@ + "-16"@ + ")"@) + ")"@) + ")"@)
        + ")"@) + "\n"@,
{
    reveal_strlit("    (local.set $vec_end\n      (i32.add (local.get $off)\n               (i32.and (local.get $len) (i32.const -16))))\n");
    reveal_strlit("  ");
    reveal_strlit("(local.set $");
    reveal_strlit("vec_end");
    reveal_strlit("\n");
    reveal_strlit("(");
    reveal_strlit("i32.add");
    reveal_strlit(" ");
    reveal_strlit("(local.get $");
    reveal_strlit("off");
    reveal_strlit(")");
    reveal_strlit("i32.and");
    reveal_strlit("len");
    reveal_strlit("i32.const");
    reveal_strlit("-16");
    assert("    (local.set $vec_end\n      (i32.add (local.get $off)\n               (i32.and (local.get $len) (i32.const -16))))\n"@ =~= (("  "@ + "  "@) + "(local.set $"@ + "vec_end"@ + ("\n"@ + "  "@ + "  "@ + "  "@) + ("("@
        + "i32.add"@ + " "@ + ("(local.get $"@ + "off"@ + ")"@) + ("\n"@ + "  "@ + "  "@ + "  "@
        + "  "@ + "  "@ + "  "@ + "  "@ + " "@) + ("("@ + "i32.and"@ + " "@ + ("(local.get $"@
        + "len"@ + ")"@) + " "@ + ("("@ + "i32.const"@ + " "@ + "-16"@ + ")"@) + ")"@) + ")"@)
        + ")"@) + "\n"@);
}

proof fn lemma_sum_vec_end_filled(k: nat)
    ensures
        fill("    (local.set $vec_end\n      (i32.add (local.get $off)\n               (i32.and (local.get $len) (i32.const -16))))\n"@, k) == (("  "@ + "  "@) + "(local.set $"@ + "vec_end"@ + ("\n"@ + "  "@ + "  "@ + "  "@) + ("("@
        + "i32.add"@ + " "@ + ("(local.get $"@ + "off"@ + ")"@) + ("\n"@ + "  "@ + "  "@ + "  "@
        + "  "@ + "  "@ + "  "@ + "  "@ + " "@) + ("("@ + "i32.and"@ + " "@ + ("(local.get $"@
        + "len"@ + ")"@) + " "@ + ("("@ + "i32.const"@ + " "@ + "-16"@ + ")"@) + ")"@) + ")"@)
        + ")"@) + "\n"@,
{
    broadcast use lemma_fill_add;

    lemma_sum_vec_end_words();
    lemma_plain_words(k);
}

proof fn lemma_sum_vec_end(k: nat)
    ensures
        squeezed(fill("    (local.set $vec_end\n      (i32.add (local.get $off)\n               (i32.and (local.get $len) (i32.const -16))))\n"@, k)) == squeezed(code_text(set_vec_end())),
{
    broadcast use {lemma_squeezed_add, lemma_add_nothing, lemma_nothing_add};

    lemma_blank_literals();
    lemma_sum_vec_end_filled(k);
    lemma_sum_vec_end_text(k);
}

proof fn lemma_sum_acc_text(k: nat)
    ensures
        squeezed(code_text(set_acc())) == squeezed("(local.set $"@) + squeezed("acc"@) + (squeezed("("@) + squeezed("v128.const"@)
        + squeezed("i64x2 0 0"@) + squeezed(")"@)) + squeezed(")"@),
{
    lemma_lit_text("v128.const"@, "i64x2 0 0"@);
    lemma_assign_text("acc"@, Term::Lit("v128.const"@, "i64x2 0 0"@));
    assert(set_acc() == Code::Assign("acc"@, Term::Lit("v128.const"@, "i64x2 0 0"@)));
}

proof fn lemma_sum_acc_words()
    ensures
        "    (local.set $acc (v128.const i64x2 0 0))\n"@ == (("  "@ + "  "@) + "(local.set $"@ + "acc"@ + " "@ + ("("@ + "v128.const"@ + " "@
        + "i64x2 0 0"@ + ")"@) + ")"@) + "\n"@,
{
    reveal_strlit("    (local.set $acc (v128.const i64x2 0 0))\n");
    reveal_strlit("  ");
    reveal_strlit("(local.set $");
    reveal_strlit("acc");
    reveal_strlit(" ");
    reveal_strlit("(");
    reveal_strlit("v128.const");
    reveal_strlit("i64x2 0 0");
    reveal_strlit(")");
    reveal_strlit("\n");
    assert("    (local.set $acc (v128.const i64x2 0 0))\n"@ =~= (("  "@ + "  "@) + "(local.set $"@ + "acc"@ + " "@ + ("("@ + "v128.const"@ + " "@
        + "i64x2 0 0"@ + ")"@) + ")"@) + "\n"@);
}

proof fn lemma_sum_acc_filled(k: nat)
    ensures
        fill("    (local.set $acc (v128.const i64x2 0 0))\n"@, k) == (("  "@ + "  "@) + "(local.set $"@ + "acc"@ + " "@ + ("("@ + "v128.const"@ + " "@
        + "i64x2 0 0"@ + ")"@) + ")"@) + "\n"@,
{
    broadcast use lemma_fill_add;

    lemma_sum_acc_words();
    lemma_plain_words(k);
}

proof fn lemma_sum_acc(k: nat)
    ensures
        squeezed(fill("    (local.set $acc (v128.const i64x2 0 0))\n"@, k)) == squeezed(code_text(set_acc())),
{
    broadcast use {lemma_squeezed_add, lemma_add_nothing, lemma_nothing_add};

    lemma_blank_literals();
    lemma_sum_acc_filled(k);
    lemma_sum_acc_text(k);
}

proof fn lemma_sum_vec_words()
    ensures
        "    (block $vec_done\n      (loop $vec_continue\n        (br_if $vec_done (i32.eq (local.get $cur) (local.get $vec_end)))\n"@ == (("  "@ + "  "@) + "(block $"@) + "vec_done"@ + ("\n"@ + "  "@ + "  "@ + " "@)
        + " (loop $"@ + "vec_continue"@ + ("\n"@ + "  "@ + "  "@ + "  "@ + " "@) + " (br_if $"@
        + "vec_done"@ + " "@ + ("("@ + "i32.eq"@ + " "@ + ("(local.get $"@ + "cur"@ + ")"@) + " "@
        + ("(local.get $"@ + "vec_end"@ + ")"@) + ")"@) + ")"@ + "\n"@,
{
    reveal_strlit("    (block $vec_done\n      (loop $vec_continue\n        (br_if $vec_done (i32.eq (local.get $cur) (local.get $vec_end)))\n");
    reveal_strlit("  ");
    reveal_strlit("(block $");
    reveal_strlit("vec_done");
    reveal_strlit("\n");
    reveal_strlit(" ");
    reveal_strlit(" (loop $");
    reveal_strlit("vec_continue");
    reveal_strlit(" (br_if $");
    reveal_strlit("(");
    reveal_strlit("i32.eq");
    reveal_strlit("(local.get $");
    reveal_strlit("cur");
    reveal_strlit(")");
    reveal_strlit("vec_end");
    assert("    (block $vec_done\n      (loop $vec_continue\n        (br_if $vec_done (i32.eq (local.get $cur) (local.get $vec_end)))\n"@ =~= (("  "@ + "  "@) + "(block $"@) + "vec_done"@ + ("\n"@ + "  "@ + "  "@ + " "@)
        + " (loop $"@ + "vec_continue"@ + ("\n"@ + "  "@ + "  "@ + "  "@ + " "@) + " (br_if $"@
        + "vec_done"@ + " "@ + ("("@ + "i32.eq"@ + " "@ + ("(local.get $"@ + "cur"@ + ")"@) + " "@
        + ("(local.get $"@ + "vec_end"@ + ")"@) + ")"@) + ")"@ + "\n"@);
}

proof fn lemma_sum_vec_filled(k: nat)
    ensures
        fill("    (block $vec_done\n      (loop $vec_continue\n        (br_if $vec_done (i32.eq (local.get $cur) (local.get $vec_end)))\n"@, k) == (("  "@ + "  "@) + "(block $"@) + "vec_done"@ + ("\n"@ + "  "@ + "  "@ + " "@)
        + " (loop $"@ + "vec_continue"@ + ("\n"@ + "  "@ + "  "@ + "  "@ + " "@) + " (br_if $"@
        + "vec_done"@ + " "@ + ("("@ + "i32.eq"@ + " "@ + ("(local.get $"@ + "cur"@ + ")"@) + " "@
        + ("(local.get $"@ + "vec_end"@ + ")"@) + ")"@) + ")"@ + "\n"@,
{
    broadcast use lemma_fill_add;

    lemma_sum_vec_words();
    lemma_plain_words(k);
}

proof fn lemma_sum_vec(k: nat)
    ensures
        squeezed(fill("    (block $vec_done\n      (loop $vec_continue\n        (br_if $vec_done (i32.eq (local.get $cur) (local.get $vec_end)))\n"@, k)) == opening_text("vec_done"@, "vec_continue"@, bin("i32.eq"@, get("cur"@), get("vec_end"@))),
{
    broadcast use {lemma_squeezed_add, lemma_add_nothing, lemma_nothing_add};

    lemma_blank_literals();
    lemma_sum_vec_filled(k);
    lemma_get_text("cur"@);
    lemma_get_text("vec_end"@);
    lemma_bin_text("i32.eq"@, get("cur"@), get("vec_end"@));
}

proof fn lemma_sum_part_text(k: nat)
    ensures
        squeezed(code_text(set_part(false, k))) == squeezed("(local.set $"@) + squeezed("quads"@) + (squeezed("("@)
        + squeezed("i32x4.extadd_pairwise_i16x8_u"@) + (squeezed("("@)
        + squeezed("i16x8.extadd_pairwise_i8x16_u"@) + (squeezed("("@) + squeezed("v128.load"@)
        + squeezed(decimal(k)) + (squeezed("(local.get $"@) + squeezed("cur"@) + squeezed(")"@))
        + squeezed(")"@)) + squeezed(")"@)) + squeezed(")"@)) + squeezed(")"@),
{
    lemma_get_text("cur"@);
    lemma_load_text("v128.load"@, k, get("cur"@));
    lemma_un_text("i16x8.extadd_pairwise_i8x16_u"@, Term::Load("v128.load"@, k, Box::new(get("cur"@))));
    lemma_un_text("i32x4.extadd_pairwise_i16x8_u"@, un("i16x8.extadd_pairwise_i8x16_u"@, Term::Load("v128.load"@, k, Box::new(get("cur"@)))));
    lemma_assign_text("quads"@, un("i32x4.extadd_pairwise_i16x8_u"@, un("i16x8.extadd_pairwise_i8x16_u"@, Term::Load("v128.load"@, k, Box::new(get("cur"@))))));
    assert(set_part(false, k) == Code::Assign("quads"@, un("i32x4.extadd_pairwise_i16x8_u"@, un("i16x8.extadd_pairwise_i8x16_u"@, Term::Load("v128.load"@, k, Box::new(get("cur"@)))))));
}

proof fn lemma_sum_part_words()
    ensures
        "        (local.set $quads\n          (i32x4.extadd_pairwise_i16x8_u\n            (i16x8.extadd_pairwise_i8x16_u\n              (v128.load @ (local.get $cur)))))\n"@ == (("  "@ + "  "@ + "  "@ + "  "@) + "(local.set $"@ + "quads"@ + ("\n"@ + "  "@ + "  "@
        + "  "@ + "  "@ + "  "@) + ("("@ + "i32x4.extadd_pairwise_i16x8_u"@ + ("\n"@ + "  "@
        + "  "@ + "  "@ + "  "@ + "  "@ + "  "@) + ("("@ + "i16x8.extadd_pairwise_i8x16_u"@
        + ("\n"@ + "  "@ + "  "@ + "  "@ + "  "@ + "  "@ + "  "@ + "  "@) + ("("@ + "v128.load"@
        + " "@ + "@"@ + " "@ + ("(local.get $"@ + "cur"@ + ")"@) + ")"@) + ")"@) + ")"@) + ")"@)
        + "\n"@,
{
    reveal_strlit("        (local.set $quads\n          (i32x4.extadd_pairwise_i16x8_u\n            (i16x8.extadd_pairwise_i8x16_u\n              (v128.load @ (local.get $cur)))))\n");
    reveal_strlit("  ");
    reveal_strlit("(local.set $");
    reveal_strlit("quads");
    reveal_strlit("\n");
    reveal_strlit("(");
    reveal_strlit("i32x4.extadd_pairwise_i16x8_u");
    reveal_strlit("i16x8.extadd_pairwise_i8x16_u");
    reveal_strlit("v128.load");
    reveal_strlit(" ");
    reveal_strlit("@");
    reveal_strlit("(local.get $");
    reveal_strlit("cur");
    reveal_strlit(")");
    assert("        (local.set $quads\n          (i32x4.extadd_pairwise_i16x8_u\n            (i16x8.extadd_pairwise_i8x16_u\n              (v128.load @ (local.get $cur)))))\n"@ =~= (("  "@ + "  "@ + "  "@ + "  "@) + "(local.set $"@ + "quads"@ + ("\n"@ + "  "@ + "  "@
        + "  "@ + "  "@ + "  "@) + ("("@ + "i32x4.extadd_pairwise_i16x8_u"@ + ("\n"@ + "  "@
        + "  "@ + "  "@ + "  "@ + "  "@ + "  "@) + ("("@ + "i16x8.extadd_pairwise_i8x16_u"@
        + ("\n"@ + "  "@ + "  "@ + "  "@ + "  "@ + "  "@ + "  "@ + "  "@) + ("("@ + "v128.load"@
        + " "@ + "@"@ + " "@ + ("(local.get $"@ + "cur"@ + ")"@) + ")"@) + ")"@) + ")"@) + ")"@)
        + "\n"@);
}

proof fn lemma_sum_part_filled(k: nat)
    ensures
        fill("        (local.set $quads\n          (i32x4.extadd_pairwise_i16x8_u\n            (i16x8.extadd_pairwise_i8x16_u\n              (v128.load @ (local.get $cur)))))\n"@, k) == (("  "@ + "  "@ + "  "@ + "  "@) + "(local.set $"@ + "quads"@ + ("\n"@ + "  "@ + "  "@
        + "  "@ + "  "@ + "  "@) + ("("@ + "i32x4.extadd_pairwise_i16x8_u"@ + ("\n"@ + "  "@
        + "  "@ + "  "@ + "  "@ + "  "@ + "  "@) + ("("@ + "i16x8.extadd_pairwise_i8x16_u"@
        + ("\n"@ + "  "@ + "  "@ + "  "@ + "  "@ + "  "@ + "  "@ + "  "@) + ("("@ + "v128.load"@
        + " "@ + decimal(k) + " "@ + ("(local.get $"@ + "cur"@ + ")"@) + ")"@) + ")"@) + ")"@)
        + ")"@) + "\n"@,
{
    broadcast use lemma_fill_add;

    lemma_sum_part_words();
    lemma_plain_words(k);
    lemma_fill_place(k);
}

proof fn lemma_sum_part(k: nat)
    ensures
        squeezed(fill("        (local.set $quads\n          (i32x4.extadd_pairwise_i16x8_u\n            (i16x8.extadd_pairwise_i8x16_u\n              (v128.load @ (local.get $cur)))))\n"@, k)) == squeezed(code_text(set_part(false, k))),
{
    broadcast use {lemma_squeezed_add, lemma_add_nothing, lemma_nothing_add};

    lemma_blank_literals();
    lemma_sum_part_filled(k);
    lemma_sum_part_text(k);
}

proof fn lemma_sum_add_text(k: nat)
    ensures
        squeezed(code_text(add_part(false))) == squeezed("(local.set $"@) + squeezed("acc"@) + (squeezed("("@) + squeezed("i64x2.add"@)
        + (squeezed("("@) + squeezed("i64x2.add"@) + (squeezed("(local.get $"@) + squeezed("acc"@)
        + squeezed(")"@)) + (squeezed("("@) + squeezed("i64x2.extend_low_i32x4_u"@)
        + (squeezed("(local.get $"@) + squeezed("quads"@) + squeezed(")"@)) + squeezed(")"@))
        + squeezed(")"@)) + (squeezed("("@) + squeezed("i64x2.extend_high_i32x4_u"@)
        + (squeezed("(local.get $"@) + squeezed("quads"@) + squeezed(")"@)) + squeezed(")"@))
        + squeezed(")"@)) + squeezed(")"@),
{
    lemma_get_text("acc"@);
    lemma_get_text("quads"@);
    lemma_un_text("i64x2.extend_low_i32x4_u"@, get("quads"@));
    lemma_bin_text("i64x2.add"@, get("acc"@), un("i64x2.extend_low_i32x4_u"@, get("quads"@)));
    lemma_un_text("i64x2.extend_high_i32x4_u"@, get("quads"@));
    lemma_bin_text("i64x2.add"@, bin("i64x2.add"@, get("acc"@), un("i64x2.extend_low_i32x4_u"@, get("quads"@))), un("i64x2.extend_high_i32x4_u"@, get("quads"@)));
    lemma_assign_text("acc"@, bin("i64x2.add"@, bin("i64x2.add"@, get("acc"@), un("i64x2.extend_low_i32x4_u"@, get("quads"@))), un("i64x2.extend_high_i32x4_u"@, get("quads"@))));
    assert(add_part(false) == Code::Assign("acc"@, bin("i64x2.add"@, bin("i64x2.add"@, get("acc"@), un("i64x2.extend_low_i32x4_u"@, get("quads"@))), un("i64x2.extend_high_i32x4_u"@, get("quads"@)))));
}

proof fn lemma_sum_add_words()
    ensures
        "        (local.set $acc\n          (i64x2.add\n            (i64x2.add\n              (local.get $acc)\n              (i64x2.extend_low_i32x4_u (local.get $quads)))\n            (i64x2.extend_high_i32x4_u (local.get $quads))))\n"@ == (("  "@ + "  "@ + "  "@ + "  "@) + "(local.set $"@ + "acc"@ + ("\n"@ + "  "@ + "  "@
        + "  "@ + "  "@ + "  "@) + ("("@ + "i64x2.add"@ + ("\n"@ + "  "@ + "  "@ + "  "@ + "  "@
        + "  "@ + "  "@) + ("("@ + "i64x2.add"@ + ("\n"@ + "  "@ + "  "@ + "  "@ + "  "@ + "  "@
        + "  "@ + "  "@) + ("(local.get $"@ + "acc"@ + ")"@) + ("\n"@ + "  "@ + "  "@ + "  "@
        + "  "@ + "  "@ + "  "@ + "  "@) + ("("@ + "i64x2.extend_low_i32x4_u"@ + " "@
        + ("(local.get $"@ + "quads"@ + ")"@) + ")"@) + ")"@) + ("\n"@ + "  "@ + "  "@ + "  "@
        + "  "@ + "  "@ + "  "@) + ("("@ + "i64x2.extend_high_i32x4_u"@ + " "@ + ("(local.get $"@
        + "quads"@ + ")"@) + ")"@) + ")"@) + ")"@) + "\n"@,
{
    reveal_strlit("        (local.set $acc\n          (i64x2.add\n            (i64x2.add\n              (local.get $acc)\n              (i64x2.extend_low_i32x4_u (local.get $quads)))\n            (i64x2.extend_high_i32x4_u (local.get $quads))))\n");
    reveal_strlit("  ");
    reveal_strlit("(local.set $");
    reveal_strlit("acc");
    reveal_strlit("\n");
    reveal_strlit("(");
    reveal_strlit("i64x2.add");
    reveal_strlit("(local.get $");
    reveal_strlit(")");
    reveal_strlit("i64x2.extend_low_i32x4_u");
    reveal_strlit(" ");
    reveal_strlit("quads");
    reveal_strlit("i64x2.extend_high_i32x4_u");
    assert("        (local.set $acc\n          (i64x2.add\n            (i64x2.add\n              (local.get $acc)\n              (i64x2.extend_low_i32x4_u (local.get $quads)))\n            (i64x2.extend_high_i32x4_u (local.get $quads))))\n"@ =~= (("  "@ + "  "@ + "  "@ + "  "@) + "(local.set $"@ + "acc"@ + ("\n"@ + "  "@ + "  "@
        + "  "@ + "  "@ + "  "@) + ("("@ + "i64x2.add"@ + ("\n"@ + "  "@ + "  "@ + "  "@ + "  "@
        + "  "@ + "  "@) + ("("@ + "i64x2.add"@ + ("\n"@ + "  "@ + "  "@ + "  "@ + "  "@ + "  "@
        + "  "@ + "  "@) + ("(local.get $"@ + "acc"@ + ")"@) + ("\n"@ + "  "@ + "  "@ + "  "@
        + "  "@ + "  "@ + "  "@ + "  "@) + ("("@ + "i64x2.extend_low_i32x4_u"@ + " "@
        + ("(local.get $"@ + "quads"@ + ")"@) + ")"@) + ")"@) + ("\n"@ + "  "@ + "  "@ + "  "@
        + "  "@ + "  "@ + "  "@) + ("("@ + "i64x2.extend_high_i32x4_u"@ + " "@ + ("(local.get $"@
        + "quads"@ + ")"@) + ")"@) + ")"@) + ")"@) + "\n"@);
}

proof fn lemma_sum_add_filled(k: nat)
    ensures
        fill("        (local.set $acc\n          (i64x2.add\n            (i64x2.add\n              (local.get $acc)\n              (i64x2.extend_low_i32x4_u (local.get $quads)))\n            (i64x2.extend_high_i32x4_u (local.get $quads))))\n"@, k) == (("  "@ + "  "@ + "  "@ + "  "@) + "(local.set $"@ + "acc"@ + ("\n"@ + "  "@ + "  "@
        + "  "@ + "  "@ + "  "@) + ("("@ + "i64x2.add"@ + ("\n"@ + "  "@ + "  "@ + "  "@ + "  "@
        + "  "@ + "  "@) + ("("@ + "i64x2.add"@ + ("\n"@ + "  "@ + "  "@ + "  "@ + "  "@ + "  "@
        + "  "@ + "  "@) + ("(local.get $"@ + "acc"@ + ")"@) + ("\n"@ + "  "@ + "  "@ + "  "@
        + "  "@ + "  "@ + "  "@ + "  "@) + ("("@ + "i64x2.extend_low_i32x4_u"@ + " "@
        + ("(local.get $"@ + "quads"@ + ")"@) + ")"@) + ")"@) + ("\n"@ + "  "@ + "  "@ + "  "@
        + "  "@ + "  "@ + "  "@) + ("("@ + "i64x2.extend_high_i32x4_u"@ + " "@ + ("(local.get $"@
        + "quads"@ + ")"@) + ")"@) + ")"@) + ")"@) + "\n"@,
{
    broadcast use lemma_fill_add;

    lemma_sum_add_words();
    lemma_plain_words(k);
}

proof fn lemma_sum_add(k: nat)
    ensures
        squeezed(fill("        (local.set $acc\n          (i64x2.add\n            (i64x2.add\n              (local.get $acc)\n              (i64x2.extend_low_i32x4_u (local.get $quads)))\n            (i64x2.extend_high_i32x4_u (local.get $quads))))\n"@, k)) == squeezed(code_text(add_part(false))),
{
    broadcast use {lemma_squeezed_add, lemma_add_nothing, lemma_nothing_add};

    lemma_blank_literals();
    lemma_sum_add_filled(k);
    lemma_sum_add_text(k);
}

proof fn lemma_sum_step_text(k: nat)
    ensures
        squeezed(code_text(step_by("16"@))) == squeezed("(local.set $"@) + squeezed("cur"@) + (squeezed("("@) + squeezed("i32.add"@)
        + (squeezed("(local.get $"@) + squeezed("cur"@) + squeezed(")"@)) + (squeezed("("@)
        + squeezed("i32.const"@) + squeezed("16"@) + squeezed(")"@)) + squeezed(")"@))
        + squeezed(")"@),
{
    lemma_get_text("cur"@);
    lemma_lit_text("i32.const"@, "16"@);
    lemma_bin_text("i32.add"@, get("cur"@), Term::Lit("i32.const"@, "16"@));
    lemma_assign_text("cur"@, bin("i32.add"@, get("cur"@), Term::Lit("i32.const"@, "16"@)));
    assert(step_by("16"@) == Code::Assign("cur"@, bin("i32.add"@, get("cur"@), Term::Lit("i32.const"@, "16"@))));
}

proof fn lemma_sum_step_words()
    ensures
        "        (local.set $cur (i32.add (local.get $cur) (i32.const 16)))\n"@ == (("  "@ + "  "@ + "  "@ + "  "@) + "(local.set $"@ + "cur"@ + " "@ + ("("@ + "i32.add"@
        + " "@ + ("(local.get $"@ + "cur"@ + ")"@) + " "@ + ("("@ + "i32.const"@ + " "@ + "16"@
        + ")"@) + ")"@) + ")"@) + "\n"@,
{
    reveal_strlit("        (local.set $cur (i32.add (local.get $cur) (i32.const 16)))\n");
    reveal_strlit("  ");
    reveal_strlit("(local.set $");
    reveal_strlit("cur");
    reveal_strlit(" ");
    reveal_strlit("(");
    reveal_strlit("i32.add");
    reveal_strlit("(local.get $");
    reveal_strlit(")");
    reveal_strlit("i32.const");
    reveal_strlit("16");
    reveal_strlit("\n");
    assert("        (local.set $cur (i32.add (local.get $cur) (i32.const 16)))\n"@ =~= (("  "@ + "  "@ + "  "@ + "  "@) + "(local.set $"@ + "cur"@ + " "@ + ("("@ + "i32.add"@
        + " "@ + ("(local.get $"@ + "cur"@ + ")"@) + " "@ + ("("@ + "i32.const"@ + " "@ + "16"@
        + ")"@) + ")"@) + ")"@) + "\n"@);
}

proof fn lemma_sum_step_filled(k: nat)
    ensures
        fill("        (local.set $cur (i32.add (local.get $cur) (i32.const 16)))\n"@, k) == (("  "@ + "  "@ + "  "@ + "  "@) + "(local.set $"@ + "cur"@ + " "@ + ("("@ + "i32.add"@
        + " "@ + ("(local.get $"@ + "cur"@ + ")"@) + " "@ + ("("@ + "i32.const"@ + " "@ + "16"@
        + ")"@) + ")"@) + ")"@) + "\n"@,
{
    broadcast use lemma_fill_add;

    lemma_sum_step_words();
    lemma_plain_words(k);
}

proof fn lemma_sum_step(k: nat)
    ensures
        squeezed(fill("        (local.set $cur (i32.add (local.get $cur) (i32.const 16)))\n"@, k)) == squeezed(code_text(step_by("16"@))),
{
    broadcast use {lemma_squeezed_add, lemma_add_nothing, lemma_nothing_add};

    lemma_blank_literals();
    lemma_sum_step_filled(k);
    lemma_sum_step_text(k);
}

proof fn lemma_sum_again_words()
    ensures
        "        (br $vec_continue)))\n"@ == (("  "@ + "  "@ + "  "@ + "  "@) + "(br $"@) + "vec_continue"@ + ")"@ + ")"@ + ")"@
        + "\n"@,
{
    reveal_strlit("        (br $vec_continue)))\n");
    reveal_strlit("  ");
    reveal_strlit("(br $");
    reveal_strlit("vec_continue");
    reveal_strlit(")");
    reveal_strlit("\n");
    assert("        (br $vec_continue)))\n"@ =~= (("  "@ + "  "@ + "  "@ + "  "@) + "(br $"@) + "vec_continue"@ + ")"@ + ")"@ + ")"@
        + "\n"@);
}

proof fn lemma_sum_again_filled(k: nat)
    ensures
        fill("        (br $vec_continue)))\n"@, k) == (("  "@ + "  "@ + "  "@ + "  "@) + "(br $"@) + "vec_continue"@ + ")"@ + ")"@ + ")"@
        + "\n"@,
{
    broadcast use lemma_fill_add;

    lemma_sum_again_words();
    lemma_plain_words(k);
}

proof fn lemma_sum_again(k: nat)
    ensures
        squeezed(fill("        (br $vec_continue)))\n"@, k)) == closing_text("vec_continue"@),
{
    broadcast use {lemma_squeezed_add, lemma_add_nothing, lemma_nothing_add};

    lemma_blank_literals();
    lemma_sum_again_filled(k);
}

proof fn lemma_sum_scalar_text(k: nat)
    ensures
        squeezed(code_text(set_scalar())) == squeezed("(local.set $"@) + squeezed("scalar"@) + (squeezed("("@) + squeezed("i64.add"@)
        + (squeezed("("@) + squeezed("i64x2.extract_lane 0"@) + (squeezed("(local.get $"@)
        + squeezed("acc"@) + squeezed(")"@)) + squeezed(")"@)) + (squeezed("("@)
        + squeezed("i64x2.extract_lane 1"@) + (squeezed("(local.get $"@) + squeezed("acc"@)
        + squeezed(")"@)) + squeezed(")"@)) + squeezed(")"@)) + squeezed(")"@),
{
    lemma_get_text("acc"@);
    lemma_un_text("i64x2.extract_lane 0"@, get("acc"@));
    lemma_un_text("i64x2.extract_lane 1"@, get("acc"@));
    lemma_bin_text("i64.add"@, un("i64x2.extract_lane 0"@, get("acc"@)), un("i64x2.extract_lane 1"@, get("acc"@)));
    lemma_assign_text("scalar"@, bin("i64.add"@, un("i64x2.extract_lane 0"@, get("acc"@)), un("i64x2.extract_lane 1"@, get("acc"@))));
    assert(set_scalar() == Code::Assign("scalar"@, bin("i64.add"@, un("i64x2.extract_lane 0"@, get("acc"@)), un("i64x2.extract_lane 1"@, get("acc"@)))));
}

proof fn lemma_sum_scalar_words()
    ensures
        "    (local.set $scalar\n      (i64.add\n        (i64x2.extract_lane 0 (local.get $acc))\n        (i64x2.extract_lane 1 (local.get $acc))))\n"@ == (("  "@ + "  "@) + "(local.set $"@ + "scalar"@ + ("\n"@ + "  "@ + "  "@ + "  "@) + ("("@
        + "i64.add"@ + ("\n"@ + "  "@ + "  "@ + "  "@ + "  "@) + ("("@ + "i64x2.extract_lane 0"@
        + " "@ + ("(local.get $"@ + "acc"@ + ")"@) + ")"@) + ("\n"@ + "  "@ + "  "@ + "  "@
        + "  "@) + ("("@ + "i64x2.extract_lane 1"@ + " "@ + ("(local.get $"@ + "acc"@ + ")"@)
        + ")"@) + ")"@) + ")"@) + "\n"@,
{
    reveal_strlit("    (local.set $scalar\n      (i64.add\n        (i64x2.extract_lane 0 (local.get $acc))\n        (i64x2.extract_lane 1 (local.get $acc))))\n");
    reveal_strlit("  ");
    reveal_strlit("(local.set $");
    reveal_strlit("scalar");
    reveal_strlit("\n");
    reveal_strlit("(");
    reveal_strlit("i64.add");
    reveal_strlit("i64x2.extract_lane 0");
    reveal_strlit(" ");
    reveal_strlit("(local.get $");
    reveal_strlit("acc");
    reveal_strlit(")");
    reveal_strlit("i64x2.extract_lane 1");
    assert("    (local.set $scalar\n      (i64.add\n        (i64x2.extract_lane 0 (local.get $acc))\n        (i64x2.extract_lane 1 (local.get $acc))))\n"@ =~= (("  "@ + "  "@) + "(local.set $"@ + "scalar"@ + ("\n"@ + "  "@ + "  "@ + "  "@) + ("("@
        + "i64.add"@ + ("\n"@ + "  "@ + "  "@ + "  "@ + "  "@) + ("("@ + "i64x2.extract_lane 0"@
        + " "@ + ("(local.get $"@ + "acc"@ + ")"@) + ")"@) + ("\n"@ + "  "@ + "  "@ + "  "@
        + "  "@) + ("("@ + "i64x2.extract_lane 1"@ + " "@ + ("(local.get $"@ + "acc"@ + ")"@)
        + ")"@) + ")"@) + ")"@) + "\n"@);
}

proof fn lemma_sum_scalar_filled(k: nat)
    ensures
        fill("    (local.set $scalar\n      (i64.add\n        (i64x2.extract_lane 0 (local.get $acc))\n        (i64x2.extract_lane 1 (local.get $acc))))\n"@, k) == (("  "@ + "  "@) + "(local.set $"@ + "scalar"@ + ("\n"@ + "  "@ + "  "@ + "  "@) + ("("@
        + "i64.add"@ + ("\n"@ + "  "@ + "  "@ + "  "@ + "  "@) + ("("@ + "i64x2.extract_lane 0"@
        + " "@ + ("(local.get $"@ + "acc"@ + ")"@) + ")"@) + ("\n"@ + "  "@ + "  "@ + "  "@
        + "  "@) + ("("@ + "i64x2.extract_lane 1"@ + " "@ + ("(local.get $"@ + "acc"@ + ")"@)
        + ")"@) + ")"@) + ")"@) + "\n"@,
{
    broadcast use lemma_fill_add;

    lemma_sum_scalar_words();
    lemma_plain_words(k);
}

proof fn lemma_sum_scalar(k: nat)
    ensures
        squeezed(fill("    (local.set $scalar\n      (i64.add\n        (i64x2.extract_lane 0 (local.get $acc))\n        (i64x2.extract_lane 1 (local.get $acc))))\n"@, k)) == squeezed(code_text(set_scalar())),
{
    broadcast use {lemma_squeezed_add, lemma_add_nothing, lemma_nothing_add};

    lemma_blank_literals();
    lemma_sum_scalar_filled(k);
    lemma_sum_scalar_text(k);
}

proof fn lemma_sum_tail_words()
    ensures
        "    (block $tail_done\n      (loop $tail_continue\n        (br_if $tail_done (i32.eq (local.get $cur) (local.get $end)))\n"@ == (("  "@ + "  "@) + "(block $"@) + "tail_done"@ + ("\n"@ + "  "@ + "  "@ + " "@)
        + " (loop $"@ + "tail_continue"@ + ("\n"@ + "  "@ + "  "@ + "  "@ + " "@) + " (br_if $"@
        + "tail_done"@ + " "@ + ("("@ + "i32.eq"@ + " "@ + ("(local.get $"@ + "cur"@ + ")"@)
        + " "@ + ("(local.get $"@ + "end"@ + ")"@) + ")"@) + ")"@ + "\n"@,
{
    reveal_strlit("    (block $tail_done\n      (loop $tail_continue\n        (br_if $tail_done (i32.eq (local.get $cur) (local.get $end)))\n");
    reveal_strlit("  ");
    reveal_strlit("(block $");
    reveal_strlit("tail_done");
    reveal_strlit("\n");
    reveal_strlit(" ");
    reveal_strlit(" (loop $");
    reveal_strlit("tail_continue");
    reveal_strlit(" (br_if $");
    reveal_strlit("(");
    reveal_strlit("i32.eq");
    reveal_strlit("(local.get $");
    reveal_strlit("cur");
    reveal_strlit(")");
    reveal_strlit("end");
    assert("    (block $tail_done\n      (loop $tail_continue\n        (br_if $tail_done (i32.eq (local.get $cur) (local.get $end)))\n"@ =~= (("  "@ + "  "@) + "(block $"@) + "tail_done"@ + ("\n"@ + "  "@ + "  "@ + " "@)
        + " (loop $"@ + "tail_continue"@ + ("\n"@ + "  "@ + "  "@ + "  "@ + " "@) + " (br_if $"@
        + "tail_done"@ + " "@ + ("("@ + "i32.eq"@ + " "@ + ("(local.get $"@ + "cur"@ + ")"@)
        + " "@ + ("(local.get $"@ + "end"@ + ")"@) + ")"@) + ")"@ + "\n"@);
}

proof fn lemma_sum_tail_filled(k: nat)
    ensures
        fill("    (block $tail_done\n      (loop $tail_continue\n        (br_if $tail_done (i32.eq (local.get $cur) (local.get $end)))\n"@, k) == (("  "@ + "  "@) + "(block $"@) + "tail_done"@ + ("\n"@ + "  "@ + "  "@ + " "@)
        + " (loop $"@ + "tail_continue"@ + ("\n"@ + "  "@ + "  "@ + "  "@ + " "@) + " (br_if $"@
        + "tail_done"@ + " "@ + ("("@ + "i32.eq"@ + " "@ + ("(local.get $"@ + "cur"@ + ")"@)
        + " "@ + ("(local.get $"@ + "end"@ + ")"@) + ")"@) + ")"@ + "\n"@,
{
    broadcast use lemma_fill_add;

    lemma_sum_tail_words();
    lemma_plain_words(k);
}

proof fn lemma_sum_tail(k: nat)
    ensures
        squeezed(fill("    (block $tail_done\n      (loop $tail_continue\n        (br_if $tail_done (i32.eq (local.get $cur) (local.get $end)))\n"@, k)) == opening_text("tail_done"@, "tail_continue"@, bin("i32.eq"@, get("cur"@), get("end"@))),
{
    broadcast use {lemma_squeezed_add, lemma_add_nothing, lemma_nothing_add};

    lemma_blank_literals();
    lemma_sum_tail_filled(k);
    lemma_get_text("cur"@);
    lemma_get_text("end"@);
    lemma_bin_text("i32.eq"@, get("cur"@), get("end"@));
}

proof fn lemma_sum_single_text(k: nat)
    ensures
        squeezed(code_text(add_single(false, k))) == squeezed("(local.set $"@) + squeezed("scalar"@) + (squeezed("("@) + squeezed("i64.add"@)
        + (squeezed("(local.get $"@) + squeezed("scalar"@) + squeezed(")"@)) + (squeezed("("@)
        + squeezed("i64.load8_u"@) + squeezed(decimal(k)) + (squeezed("(local.get $"@)
        + squeezed("cur"@) + squeezed(")"@)) + squeezed(")"@)) + squeezed(")"@)) + squeezed(")"@),
{
    lemma_get_text("scalar"@);
    lemma_get_text("cur"@);
    lemma_load_text("i64.load8_u"@, k, get("cur"@));
    lemma_bin_text("i64.add"@, get("scalar"@), Term::Load("i64.load8_u"@, k, Box::new(get("cur"@))));
    lemma_assign_text("scalar"@, bin("i64.add"@, get("scalar"@), Term::Load("i64.load8_u"@, k, Box::new(get("cur"@)))));
    assert(add_single(false, k) == Code::Assign("scalar"@, bin("i64.add"@, get("scalar"@), Term::Load("i64.load8_u"@, k, Box::new(get("cur"@))))));
}

proof fn lemma_sum_single_words()
    ensures
        "        (local.set $scalar\n          (i64.add (local.get $scalar)\n                   (i64.load8_u @ (local.get $cur))))\n"@ == (("  "@ + "  "@ + "  "@ + "  "@) + "(local.set $"@ + "scalar"@ + ("\n"@ + "  "@ + "  "@
        + "  "@ + "  "@ + "  "@) + ("("@ + "i64.add"@ + " "@ + ("(local.get $"@ + "scalar"@
        + ")"@) + ("\n"@ + "  "@ + "  "@ + "  "@ + "  "@ + "  "@ + "  "@ + "  "@ + "  "@ + "  "@
        + " "@) + ("("@ + "i64.load8_u"@ + " "@ + "@"@ + " "@ + ("(local.get $"@ + "cur"@ + ")"@)
        + ")"@) + ")"@) + ")"@) + "\n"@,
{
    reveal_strlit("        (local.set $scalar\n          (i64.add (local.get $scalar)\n                   (i64.load8_u @ (local.get $cur))))\n");
    reveal_strlit("  ");
    reveal_strlit("(local.set $");
    reveal_strlit("scalar");
    reveal_strlit("\n");
    reveal_strlit("(");
    reveal_strlit("i64.add");
    reveal_strlit(" ");
    reveal_strlit("(local.get $");
    reveal_strlit(")");
    reveal_strlit("i64.load8_u");
    reveal_strlit("@");
    reveal_strlit("cur");
    assert("        (local.set $scalar\n          (i64.add (local.get $scalar)\n                   (i64.load8_u @ (local.get $cur))))\n"@ =~= (("  "@ + "  "@ + "  "@ + "  "@) + "(local.set $"@ + "scalar"@ + ("\n"@ + "  "@ + "  "@
        + "  "@ + "  "@ + "  "@) + ("("@ + "i64.add"@ + " "@ + ("(local.get $"@ + "scalar"@
        + ")"@) + ("\n"@ + "  "@ + "  "@ + "  "@ + "  "@ + "  "@ + "  "@ + "  "@ + "  "@ + "  "@
        + " "@) + ("("@ + "i64.load8_u"@ + " "@ + "@"@ + " "@ + ("(local.get $"@ + "cur"@ + ")"@)
        + ")"@) + ")"@) + ")"@) + "\n"@);
}

proof fn lemma_sum_single_filled(k: nat)
    ensures
        fill("        (local.set $scalar\n          (i64.add (local.get $scalar)\n                   (i64.load8_u @ (local.get $cur))))\n"@, k) == (("  "@ + "  "@ + "  "@ + "  "@) + "(local.set $"@ + "scalar"@ + ("\n"@ + "  "@ + "  "@
        + "  "@ + "  "@ + "  "@) + ("("@ + "i64.add"@ + " "@ + ("(local.get $"@ + "scalar"@
        + ")"@) + ("\n"@ + "  "@ + "  "@ + "  "@ + "  "@ + "  "@ + "  "@ + "  "@ + "  "@ + "  "@
        + " "@) + ("("@ + "i64.load8_u"@ + " "@ + decimal(k) + " "@ + ("(local.get $"@ + "cur"@
        + ")"@) + ")"@) + ")"@) + ")"@) + "\n"@,
{
    broadcast use lemma_fill_add;

    lemma_sum_single_words();
    lemma_plain_words(k);
    lemma_fill_place(k);
}

proof fn lemma_sum_single(k: nat)
    ensures
        squeezed(fill("        (local.set $scalar\n          (i64.add (local.get $scalar)\n                   (i64.load8_u @ (local.get $cur))))\n"@, k)) == squeezed(code_text(add_single(false, k))),
{
    broadcast use {lemma_squeezed_add, lemma_add_nothing, lemma_nothing_add};

    lemma_blank_literals();
    lemma_sum_single_filled(k);
    lemma_sum_single_text(k);
}

proof fn lemma_sum_next_text(k: nat)
    ensures
        squeezed(code_text(step_by("1"@))) == squeezed("(local.set $"@) + squeezed("cur"@) + (squeezed("("@) + squeezed("i32.add"@)
        + (squeezed("(local.get $"@) + squeezed("cur"@) + squeezed(")"@)) + (squeezed("("@)
        + squeezed("i32.const"@) + squeezed("1"@) + squeezed(")"@)) + squeezed(")"@))
        + squeezed(")"@),
{
    lemma_get_text("cur"@);
    lemma_lit_text("i32.const"@, "1"@);
    lemma_bin_text("i32.add"@, get("cur"@), Term::Lit("i32.const"@, "1"@));
    lemma_assign_text("cur"@, bin("i32.add"@, get("cur"@), Term::Lit("i32.const"@, "1"@)));
    assert(step_by("1"@) == Code::Assign("cur"@, bin("i32.add"@, get("cur"@), Term::Lit("i32.const"@, "1"@))));
}

proof fn lemma_sum_next_words()
    ensures
        "        (local.set $cur (i32.add (local.get $cur) (i32.const 1)))\n"@ == (("  "@ + "  "@ + "  "@ + "  "@) + "(local.set $"@ + "cur"@ + " "@ + ("("@ + "i32.add"@
        + " "@ + ("(local.get $"@ + "cur"@ + ")"@) + " "@ + ("("@ + "i32.const"@ + " "@ + "1"@
        + ")"@) + ")"@) + ")"@) + "\n"@,
{
    reveal_strlit("        (local.set $cur (i32.add (local.get $cur) (i32.const 1)))\n");
    reveal_strlit("  ");
    reveal_strlit("(local.set $");
    reveal_strlit("cur");
    reveal_strlit(" ");
    reveal_strlit("(");
    reveal_strlit("i32.add");
    reveal_strlit("(local.get $");
    reveal_strlit(")");
    reveal_strlit("i32.const");
    reveal_strlit("1");
    reveal_strlit("\n");
    assert("        (local.set $cur (i32.add (local.get $cur) (i32.const 1)))\n"@ =~= (("  "@ + "  "@ + "  "@ + "  "@) + "(local.set $"@ + "cur"@ + " "@ + ("("@ + "i32.add"@
        + " "@ + ("(local.get $"@ + "cur"@ + ")"@) + " "@ + ("("@ + "i32.const"@ + " "@ + "1"@
        + ")"@) + ")"@) + ")"@) + "\n"@);
}

proof fn lemma_sum_next_filled(k: nat)
    ensures
        fill("        (local.set $cur (i32.add (local.get $cur) (i32.const 1)))\n"@, k) == (("  "@ + "  "@ + "  "@ + "  "@) + "(local.set $"@ + "cur"@ + " "@ + ("("@ + "i32.add"@
        + " "@ + ("(local.get $"@ + "cur"@ + ")"@) + " "@ + ("("@ + "i32.const"@ + " "@ + "1"@
        + ")"@) + ")"@) + ")"@) + "\n"@,
{
    broadcast use lemma_fill_add;

    lemma_sum_next_words();
    lemma_plain_words(k);
}

proof fn lemma_sum_next(k: nat)
    ensures
        squeezed(fill("        (local.set $cur (i32.add (local.get $cur) (i32.const 1)))\n"@, k)) == squeezed(code_text(step_by("1"@))),
{
    broadcast use {lemma_squeezed_add, lemma_add_nothing, lemma_nothing_add};

    lemma_blank_literals();
    lemma_sum_next_filled(k);
    lemma_sum_next_text(k);
}

proof fn lemma_sum_back_words()
    ensures
        "        (br $tail_continue)))\n"@ == (("  "@ + "  "@ + "  "@ + "  "@) + "(br $"@) + "tail_continue"@ + ")"@ + ")"@ + ")"@
        + "\n"@,
{
    reveal_strlit("        (br $tail_continue)))\n");
    reveal_strlit("  ");
    reveal_strlit("(br $");
    reveal_strlit("tail_continue");
    reveal_strlit(")");
    reveal_strlit("\n");
    assert("        (br $tail_continue)))\n"@ =~= (("  "@ + "  "@ + "  "@ + "  "@) + "(br $"@) + "tail_continue"@ + ")"@ + ")"@ + ")"@
        + "\n"@);
}

proof fn lemma_sum_back_filled(k: nat)
    ensures
        fill("        (br $tail_continue)))\n"@, k) == (("  "@ + "  "@ + "  "@ + "  "@) + "(br $"@) + "tail_continue"@ + ")"@ + ")"@ + ")"@
        + "\n"@,
{
    broadcast use lemma_fill_add;

    lemma_sum_back_words();
    lemma_plain_words(k);
}

proof fn lemma_sum_back(k: nat)
    ensures
        squeezed(fill("        (br $tail_continue)))\n"@, k)) == closing_text("tail_continue"@),
{
    broadcast use {lemma_squeezed_add, lemma_add_nothing, lemma_nothing_add};

    lemma_blank_literals();
    lemma_sum_back_filled(k);
}

proof fn lemma_sum_value_words()
    ensures
        "    (local.get $scalar))\n"@ == ((("  "@ + "  "@) + "(local.get $"@) + "scalar"@ + ")"@) + ")"@ + "\n"@,
{
    reveal_strlit("    (local.get $scalar))\n");
    reveal_strlit("  ");
    reveal_strlit("(local.get $");
    reveal_strlit("scalar");
    reveal_strlit(")");
    reveal_strlit("\n");
    assert("    (local.get $scalar))\n"@ =~= ((("  "@ + "  "@) + "(local.get $"@) + "scalar"@ + ")"@) + ")"@ + "\n"@);
}

proof fn lemma_sum_value_filled(k: nat)
    ensures
        fill("    (local.get $scalar))\n"@, k) == ((("  "@ + "  "@) + "(local.get $"@) + "scalar"@ + ")"@) + ")"@ + "\n"@,
{
    broadcast use lemma_fill_add;

    lemma_sum_value_words();
    lemma_plain_words(k);
}

proof fn lemma_sum_value(k: nat)
    ensures
        squeezed(fill("    (local.get $scalar))\n"@, k)) == squeezed(term_text(get("scalar"@))) + squeezed(")"@),
{
    broadcast use {lemma_squeezed_add, lemma_add_nothing, lemma_nothing_add};

    lemma_blank_literals();
    lemma_sum_value_filled(k);
    lemma_get_text("scalar"@);
}

#[verifier::rlimit(100)]
proof fn lemma_sum_template()
    ensures
        SIMD_SUM_U8@ == "  (func $tvm_simd_sum_u8_p@ (export \"tvm_simd_sum_u8_p@\")\n        (param $off i32) (param $len i32) (result i64)\n    (local $cur i32) (local $end i32) (local $vec_end i32)\n    (local $acc v128) (local $quads v128) (local $scalar i64)\n"@
        + "    (local.set $cur (local.get $off))\n"@
        + "    (local.set $end (i32.add (local.get $off) (local.get $len)))\n"@
        + "    (local.set $vec_end\n      (i32.add (local.get $off)\n               (i32.and (local.get $len) (i32.const -16))))\n"@
        + "    (local.set $acc (v128.const i64x2 0 0))\n"@
        + "    (block $vec_done\n      (loop $vec_continue\n        (br_if $vec_done (i32.eq (local.get $cur) (local.get $vec_end)))\n"@
        + "        (local.set $quads\n          (i32x4.extadd_pairwise_i16x8_u\n            (i16x8.extadd_pairwise_i8x16_u\n              (v128.load @ (local.get $cur)))))\n"@
        + "        (local.set $acc\n          (i64x2.add\n            (i64x2.add\n              (local.get $acc)\n              (i64x2.extend_low_i32x4_u (local.get $quads)))\n            (i64x2.extend_high_i32x4_u (local.get $quads))))\n"@
        + "        (local.set $cur (i32.add (local.get $cur) (i32.const 16)))\n"@
        + "        (br $vec_continue)))\n"@
        + "    (local.set $scalar\n      (i64.add\n        (i64x2.extract_lane 0 (local.get $acc))\n        (i64x2.extract_lane 1 (local.get $acc))))\n"@
        + "    (block $tail_done\n      (loop $tail_continue\n        (br_if $tail_done (i32.eq (local.get $cur) (local.get $end)))\n"@
        + "        (local.set $scalar\n          (i64.add (local.get $scalar)\n                   (i64.load8_u @ (local.get $cur))))\n"@
        + "        (local.set $cur (i32.add (local.get $cur) (i32.const 1)))\n"@
        + "        (br $tail_continue)))\n"@ + "    (local.get $scalar))\n"@,
{
    reveal_strlit("  (func $tvm_simd_sum_u8_p@ (export \"tvm_simd_sum_u8_p@\")\n        (param $off i32) (param $len i32) (result i64)\n    (local $cur i32) (local $end i32) (local $vec_end i32)\n    (local $acc v128) (local $quads v128) (local $scalar i64)\n");
    reveal_strlit("    (local.set $cur (local.get $off))\n");
    reveal_strlit("    (local.set $end (i32.add (local.get $off) (local.get $len)))\n");
    reveal_strlit("    (local.set $vec_end\n      (i32.add (local.get $off)\n               (i32.and (local.get $len) (i32.const -16))))\n");
    reveal_strlit("    (local.set $acc (v128.const i64x2 0 0))\n");
    reveal_strlit("    (block $vec_done\n      (loop $vec_continue\n        (br_if $vec_done (i32.eq (local.get $cur) (local.get $vec_end)))\n");
    reveal_strlit("        (local.set $quads\n          (i32x4.extadd_pairwise_i16x8_u\n            (i16x8.extadd_pairwise_i8x16_u\n              (v128.load @ (local.get $cur)))))\n");
    reveal_strlit("        (local.set $acc\n          (i64x2.add\n            (i64x2.add\n              (local.get $acc)\n              (i64x2.extend_low_i32x4_u (local.get $quads)))\n            (i64x2.extend_high_i32x4_u (local.get $quads))))\n");
    reveal_strlit("        (local.set $cur (i32.add (local.get $cur) (i32.const 16)))\n");
    reveal_strlit("        (br $vec_continue)))\n");
    reveal_strlit("    (local.set $scalar\n      (i64.add\n        (i64x2.extract_lane 0 (local.get $acc))\n        (i64x2.extract_lane 1 (local.get $acc))))\n");
    reveal_strlit("    (block $tail_done\n      (loop $tail_continue\n        (br_if $tail_done (i32.eq (local.get $cur) (local.get $end)))\n");
    reveal_strlit("        (local.set $scalar\n          (i64.add (local.get $scalar)\n                   (i64.load8_u @ (local.get $cur))))\n");
    reveal_strlit("        (local.set $cur (i32.add (local.get $cur) (i32.const 1)))\n");
    reveal_strlit("        (br $tail_continue)))\n");
    reveal_strlit("    (local.get $scalar))\n");
    reveal_strlit(r#"  (func $tvm_simd_sum_u8_p@ (export "tvm_simd_sum_u8_p@")
        (param $off i32) (param $len i32) (result i64)
    (local $cur i32) (local $end i32) (local $vec_end i32)
    (local $acc v128) (local $quads v128) (local $scalar i64)
    (local.set $cur (local.get $off))
    (local.set $end (i32.add (local.get $off) (local.get $len)))
    (local.set $vec_end
      (i32.add (local.get $off)
               (i32.and (local.get $len) (i32.const -16))))
    (local.set $acc (v128.const i64x2 0 0))
    (block $vec_done
      (loop $vec_continue
        (br_if $vec_done (i32.eq (local.get $cur) (local.get $vec_end)))
        (local.set $quads
          (i32x4.extadd_pairwise_i16x8_u
            (i16x8.extadd_pairwise_i8x16_u
              (v128.load @ (local.get $cur)))))
        (local.set $acc
          (i64x2.add
            (i64x2.add
              (local.get $acc)
              (i64x2.extend_low_i32x4_u (local.get $quads)))
            (i64x2.extend_high_i32x4_u (local.get $quads))))
        (local.set $cur (i32.add (local.get $cur) (i32.const 16)))
        (br $vec_continue)))
    (local.set $scalar
      (i64.add
        (i64x2.extract_lane 0 (local.get $acc))
        (i64x2.extract_lane 1 (local.get $acc))))
    (block $tail_done
      (loop $tail_continue
        (br_if $tail_done (i32.eq (local.get $cur) (local.get $end)))
        (local.set $scalar
          (i64.add (local.get $scalar)
                   (i64.load8_u @ (local.get $cur))))
        (local.set $cur (i32.add (local.get $cur) (i32.const 1)))
        (br $tail_continue)))
    (local.get $scalar))
"#);
    assert(SIMD_SUM_U8@ =~= "  (func $tvm_simd_sum_u8_p@ (export \"tvm_simd_sum_u8_p@\")\n        (param $off i32) (param $len i32) (result i64)\n    (local $cur i32) (local $end i32) (local $vec_end i32)\n    (local $acc v128) (local $quads v128) (local $scalar i64)\n"@
        + "    (local.set $cur (local.get $off))\n"@
        + "    (local.set $end (i32.add (local.get $off) (local.get $len)))\n"@
        + "    (local.set $vec_end\n      (i32.add (local.get $off)\n               (i32.and (local.get $len) (i32.const -16))))\n"@
        + "    (local.set $acc (v128.const i64x2 0 0))\n"@
        + "    (block $vec_done\n      (loop $vec_continue\n        (br_if $vec_done (i32.eq (local.get $cur) (local.get $vec_end)))\n"@
        + "        (local.set $quads\n          (i32x4.extadd_pairwise_i16x8_u\n            (i16x8.extadd_pairwise_i8x16_u\n              (v128.load @ (local.get $cur)))))\n"@
        + "        (local.set $acc\n          (i64x2.add\n            (i64x2.add\n              (local.get $acc)\n              (i64x2.extend_low_i32x4_u (local.get $quads)))\n            (i64x2.extend_high_i32x4_u (local.get $quads))))\n"@
        + "        (local.set $cur (i32.add (local.get $cur) (i32.const 16)))\n"@
        + "        (br $vec_continue)))\n"@
        + "    (local.set $scalar\n      (i64.add\n        (i64x2.extract_lane 0 (local.get $acc))\n        (i64x2.extract_lane 1 (local.get $acc))))\n"@
        + "    (block $tail_done\n      (loop $tail_continue\n        (br_if $tail_done (i32.eq (local.get $cur) (local.get $end)))\n"@
        + "        (local.set $scalar\n          (i64.add (local.get $scalar)\n                   (i64.load8_u @ (local.get $cur))))\n"@
        + "        (local.set $cur (i32.add (local.get $cur) (i32.const 1)))\n"@
        + "        (br $tail_continue)))\n"@ + "    (local.get $scalar))\n"@);
}

proof fn lemma_sum_fill(k: nat)
    ensures
        fill(SIMD_SUM_U8@, k) == fill("  (func $tvm_simd_sum_u8_p@ (export \"tvm_simd_sum_u8_p@\")\n        (param $off i32) (param $len i32) (result i64)\n    (local $cur i32) (local $end i32) (local $vec_end i32)\n    (local $acc v128) (local $quads v128) (local $scalar i64)\n"@, k)
        + fill("    (local.set $cur (local.get $off))\n"@, k)
        + fill("    (local.set $end (i32.add (local.get $off) (local.get $len)))\n"@, k)
        + fill("    (local.set $vec_end\n      (i32.add (local.get $off)\n               (i32.and (local.get $len) (i32.const -16))))\n"@, k)
        + fill("    (local.set $acc (v128.const i64x2 0 0))\n"@, k)
        + fill("    (block $vec_done\n      (loop $vec_continue\n        (br_if $vec_done (i32.eq (local.get $cur) (local.get $vec_end)))\n"@, k)
        + fill("        (local.set $quads\n          (i32x4.extadd_pairwise_i16x8_u\n            (i16x8.extadd_pairwise_i8x16_u\n              (v128.load @ (local.get $cur)))))\n"@, k)
        + fill("        (local.set $acc\n          (i64x2.add\n            (i64x2.add\n              (local.get $acc)\n              (i64x2.extend_low_i32x4_u (local.get $quads)))\n            (i64x2.extend_high_i32x4_u (local.get $quads))))\n"@, k)
        + fill("        (local.set $cur (i32.add (local.get $cur) (i32.const 16)))\n"@, k)
        + fill("        (br $vec_continue)))\n"@, k)
        + fill("    (local.set $scalar\n      (i64.add\n        (i64x2.extract_lane 0 (local.get $acc))\n        (i64x2.extract_lane 1 (local.get $acc))))\n"@, k)
        + fill("    (block $tail_done\n      (loop $tail_continue\n        (br_if $tail_done (i32.eq (local.get $cur) (local.get $end)))\n"@, k)
        + fill("        (local.set $scalar\n          (i64.add (local.get $scalar)\n                   (i64.load8_u @ (local.get $cur))))\n"@, k)
        + fill("        (local.set $cur (i32.add (local.get $cur) (i32.const 1)))\n"@, k)
        + fill("        (br $tail_continue)))\n"@, k) + fill("    (local.get $scalar))\n"@, k),
{
    broadcast use lemma_fill_add;

    lemma_sum_template();
}

proof fn lemma_sum_text(k: nat)
    ensures
        squeezed(fill(SIMD_SUM_U8@, k)) == squeezed(kernel_text(kernel(false, "tvm_simd_sum_u8_p"@, k))),
{
    lemma_sum_fill(k);
    let p0 = fill("  (func $tvm_simd_sum_u8_p@ (export \"tvm_simd_sum_u8_p@\")\n        (param $off i32) (param $len i32) (result i64)\n    (local $cur i32) (local $end i32) (local $vec_end i32)\n    (local $acc v128) (local $quads v128) (local $scalar i64)\n"@, k);
    lemma_sum_head(k);
    let p1 = fill("    (local.set $cur (local.get $off))\n"@, k);
    lemma_sum_cur(k);
    let p2 = fill("    (local.set $end (i32.add (local.get $off) (local.get $len)))\n"@, k);
    lemma_sum_end(k);
    let p3 = fill("    (local.set $vec_end\n      (i32.add (local.get $off)\n               (i32.and (local.get $len) (i32.const -16))))\n"@, k);
    lemma_sum_vec_end(k);
    let p4 = fill("    (local.set $acc (v128.const i64x2 0 0))\n"@, k);
    lemma_sum_acc(k);
    let p5 = fill("    (block $vec_done\n      (loop $vec_continue\n        (br_if $vec_done (i32.eq (local.get $cur) (local.get $vec_end)))\n"@, k);
    lemma_sum_vec(k);
    let p6 = fill("        (local.set $quads\n          (i32x4.extadd_pairwise_i16x8_u\n            (i16x8.extadd_pairwise_i8x16_u\n              (v128.load @ (local.get $cur)))))\n"@, k);
    lemma_sum_part(k);
    let p7 = fill("        (local.set $acc\n          (i64x2.add\n            (i64x2.add\n              (local.get $acc)\n              (i64x2.extend_low_i32x4_u (local.get $quads)))\n            (i64x2.extend_high_i32x4_u (local.get $quads))))\n"@, k);
    lemma_sum_add(k);
    let p8 = fill("        (local.set $cur (i32.add (local.get $cur) (i32.const 16)))\n"@, k);
    lemma_sum_step(k);
    let p9 = fill("        (br $vec_continue)))\n"@, k);
    lemma_sum_again(k);
    let p10 = fill("    (local.set $scalar\n      (i64.add\n        (i64x2.extract_lane 0 (local.get $acc))\n        (i64x2.extract_lane 1 (local.get $acc))))\n"@, k);
    lemma_sum_scalar(k);
    let p11 = fill("    (block $tail_done\n      (loop $tail_continue\n        (br_if $tail_done (i32.eq (local.get $cur) (local.get $end)))\n"@, k);
    lemma_sum_tail(k);
    let p12 = fill("        (local.set $scalar\n          (i64.add (local.get $scalar)\n                   (i64.load8_u @ (local.get $cur))))\n"@, k);
    lemma_sum_single(k);
    let p13 = fill("        (local.set $cur (i32.add (local.get $cur) (i32.const 1)))\n"@, k);
    lemma_sum_next(k);
    let p14 = fill("        (br $tail_continue)))\n"@, k);
    lemma_sum_back(k);
    let p15 = fill("    (local.get $scalar))\n"@, k);
    lemma_sum_value(k);
    lemma_squeezed_add(p0, p1);
    lemma_squeezed_add(p0 + p1, p2);
    lemma_squeezed_add(p0 + p1 + p2, p3);
    lemma_squeezed_add(p0 + p1 + p2 + p3, p4);
    lemma_squeezed_add(p0 + p1 + p2 + p3 + p4, p5);
    lemma_squeezed_add(p0 + p1 + p2 + p3 + p4 + p5, p6);
    lemma_squeezed_add(p0 + p1 + p2 + p3 + p4 + p5 + p6, p7);
    lemma_squeezed_add(p0 + p1 + p2 + p3 + p4 + p5 + p6 + p7, p8);
    lemma_squeezed_add(p0 + p1 + p2 + p3 + p4 + p5 + p6 + p7 + p8, p9);
    lemma_squeezed_add(p0 + p1 + p2 + p3 + p4 + p5 + p6 + p7 + p8 + p9, p10);
    lemma_squeezed_add(p0 + p1 + p2 + p3 + p4 + p5 + p6 + p7 + p8 + p9 + p10, p11);
    lemma_squeezed_add(p0 + p1 + p2 + p3 + p4 + p5 + p6 + p7 + p8 + p9 + p10 + p11, p12);
    lemma_squeezed_add(p0 + p1 + p2 + p3 + p4 + p5 + p6 + p7 + p8 + p9 + p10 + p11 + p12, p13);
    lemma_squeezed_add(p0 + p1 + p2 + p3 + p4 + p5 + p6 + p7 + p8 + p9 + p10 + p11 + p12 + p13, p14);
    lemma_squeezed_add(p0 + p1 + p2 + p3 + p4 + p5 + p6 + p7 + p8 + p9 + p10 + p11 + p12 + p13 + p14, p15);
    lemma_kernel_text(false, "tvm_simd_sum_u8_p"@, k);
    lemma_regroup(
        squeezed(p0),
        squeezed(p1),
        squeezed(p2),
        squeezed(p3),
        squeezed(p4),
        squeezed(p5),
        squeezed(p6),
        squeezed(p7),
        squeezed(p8),
        squeezed(p9),
        squeezed(p10),
        squeezed(p11),
        squeezed(p12),
        squeezed(p13),
        squeezed(p14),
        squeezed(term_text(get("scalar"@))),
        squeezed(")"@),
    );
}

proof fn lemma_bits_head_words()
    ensures
        "  (func $tvm_simd_popcount_p@ (export \"tvm_simd_popcount_p@\")\n        (param $off i32) (param $len i32) (result i64)\n    (local $cur i32) (local $end i32) (local $vec_end i32)\n    (local $acc v128) (local $tmp v128) (local $scalar i64)\n"@ == ("  "@ + "(func $"@) + ("tvm_simd_popcount_p"@ + "@"@) + " (export \""@
        + ("tvm_simd_popcount_p"@ + "@"@) + "\")"@ + (((("\n"@ + "  "@ + "  "@ + "  "@ + "  "@)
        + "("@) + "param"@ + " $"@ + "off"@ + " "@ + "i32"@ + ")"@) + ((" "@ + "("@) + "param"@
        + " $"@ + "len"@ + " "@ + "i32"@ + ")"@)) + (" "@ + "(result "@) + "i64"@ + ")"@
        + (((((((("\n"@ + "  "@ + "  "@) + "("@) + "local"@ + " $"@ + "cur"@ + " "@ + "i32"@
        + ")"@) + ((" "@ + "("@) + "local"@ + " $"@ + "end"@ + " "@ + "i32"@ + ")"@)) + ((" "@
        + "("@) + "local"@ + " $"@ + "vec_end"@ + " "@ + "i32"@ + ")"@)) + ((("\n"@ + "  "@
        + "  "@) + "("@) + "local"@ + " $"@ + "acc"@ + " "@ + "v128"@ + ")"@)) + ((" "@ + "("@)
        + "local"@ + " $"@ + "tmp"@ + " "@ + "v128"@ + ")"@)) + ((" "@ + "("@) + "local"@ + " $"@
        + "scalar"@ + " "@ + "i64"@ + ")"@)) + "\n"@,
{
    reveal_strlit("  (func $tvm_simd_popcount_p@ (export \"tvm_simd_popcount_p@\")\n        (param $off i32) (param $len i32) (result i64)\n    (local $cur i32) (local $end i32) (local $vec_end i32)\n    (local $acc v128) (local $tmp v128) (local $scalar i64)\n");
    reveal_strlit("  ");
    reveal_strlit("(func $");
    reveal_strlit("tvm_simd_popcount_p");
    reveal_strlit("@");
    reveal_strlit(" (export \"");
    reveal_strlit("\")");
    reveal_strlit("\n");
    reveal_strlit("(");
    reveal_strlit("param");
    reveal_strlit(" $");
    reveal_strlit("off");
    reveal_strlit(" ");
    reveal_strlit("i32");
    reveal_strlit(")");
    reveal_strlit("len");
    reveal_strlit("(result ");
    reveal_strlit("i64");
    reveal_strlit("local");
    reveal_strlit("cur");
    reveal_strlit("end");
    reveal_strlit("vec_end");
    reveal_strlit("acc");
    reveal_strlit("v128");
    reveal_strlit("tmp");
    reveal_strlit("scalar");
    assert("  (func $tvm_simd_popcount_p@ (export \"tvm_simd_popcount_p@\")\n        (param $off i32) (param $len i32) (result i64)\n    (local $cur i32) (local $end i32) (local $vec_end i32)\n    (local $acc v128) (local $tmp v128) (local $scalar i64)\n"@ =~= ("  "@ + "(func $"@) + ("tvm_simd_popcount_p"@ + "@"@) + " (export \""@
        + ("tvm_simd_popcount_p"@ + "@"@) + "\")"@ + (((("\n"@ + "  "@ + "  "@ + "  "@ + "  "@)
        + "("@) + "param"@ + " $"@ + "off"@ + " "@ + "i32"@ + ")"@) + ((" "@ + "("@) + "param"@
        + " $"@ + "len"@ + " "@ + "i32"@ + ")"@)) + (" "@ + "(result "@) + "i64"@ + ")"@
        + (((((((("\n"@ + "  "@ + "  "@) + "("@) + "local"@ + " $"@ + "cur"@ + " "@ + "i32"@
        + ")"@) + ((" "@ + "("@) + "local"@ + " $"@ + "end"@ + " "@ + "i32"@ + ")"@)) + ((" "@
        + "("@) + "local"@ + " $"@ + "vec_end"@ + " "@ + "i32"@ + ")"@)) + ((("\n"@ + "  "@
        + "  "@) + "("@) + "local"@ + " $"@ + "acc"@ + " "@ + "v128"@ + ")"@)) + ((" "@ + "("@)
        + "local"@ + " $"@ + "tmp"@ + " "@ + "v128"@ + ")"@)) + ((" "@ + "("@) + "local"@ + " $"@
        + "scalar"@ + " "@ + "i64"@ + ")"@)) + "\n"@);
}

proof fn lemma_bits_head_filled(k: nat)
    ensures
        fill("  (func $tvm_simd_popcount_p@ (export \"tvm_simd_popcount_p@\")\n        (param $off i32) (param $len i32) (result i64)\n    (local $cur i32) (local $end i32) (local $vec_end i32)\n    (local $acc v128) (local $tmp v128) (local $scalar i64)\n"@, k) == ("  "@ + "(func $"@) + ("tvm_simd_popcount_p"@ + decimal(k)) + " (export \""@
        + ("tvm_simd_popcount_p"@ + decimal(k)) + "\")"@ + (((("\n"@ + "  "@ + "  "@ + "  "@
        + "  "@) + "("@) + "param"@ + " $"@ + "off"@ + " "@ + "i32"@ + ")"@) + ((" "@ + "("@)
        + "param"@ + " $"@ + "len"@ + " "@ + "i32"@ + ")"@)) + (" "@ + "(result "@) + "i64"@
        + ")"@ + (((((((("\n"@ + "  "@ + "  "@) + "("@) + "local"@ + " $"@ + "cur"@ + " "@
        + "i32"@ + ")"@) + ((" "@ + "("@) + "local"@ + " $"@ + "end"@ + " "@ + "i32"@ + ")"@))
        + ((" "@ + "("@) + "local"@ + " $"@ + "vec_end"@ + " "@ + "i32"@ + ")"@)) + ((("\n"@
        + "  "@ + "  "@) + "("@) + "local"@ + " $"@ + "acc"@ + " "@ + "v128"@ + ")"@)) + ((" "@
        + "("@) + "local"@ + " $"@ + "tmp"@ + " "@ + "v128"@ + ")"@)) + ((" "@ + "("@) + "local"@
        + " $"@ + "scalar"@ + " "@ + "i64"@ + ")"@)) + "\n"@,
{
    broadcast use lemma_fill_add;

    lemma_bits_head_words();
    lemma_plain_words(k);
    lemma_fill_place(k);
}

proof fn lemma_bits_head(k: nat)
    ensures
        squeezed(fill("  (func $tvm_simd_popcount_p@ (export \"tvm_simd_popcount_p@\")\n        (param $off i32) (param $len i32) (result i64)\n    (local $cur i32) (local $end i32) (local $vec_end i32)\n    (local $acc v128) (local $tmp v128) (local $scalar i64)\n"@, k)) == head_text(kernel(true, "tvm_simd_popcount_p"@, k)),
{
    broadcast use {lemma_squeezed_add, lemma_add_nothing, lemma_nothing_add};

    lemma_blank_literals();
    lemma_bits_head_filled(k);
    lemma_head_text(true, "tvm_simd_popcount_p"@, k);
}

proof fn lemma_bits_cur_text(k: nat)
    ensures
        squeezed(code_text(set_cur())) == squeezed("(local.set $"@) + squeezed("cur"@) + (squeezed("(local.get $"@)
        + squeezed("off"@) + squeezed(")"@)) + squeezed(")"@),
{
    lemma_get_text("off"@);
    lemma_assign_text("cur"@, get("off"@));
    assert(set_cur() == Code::Assign("cur"@, get("off"@)));
}

proof fn lemma_bits_cur_words()
    ensures
        "    (local.set $cur (local.get $off))\n"@ == (("  "@ + "  "@) + "(local.set $"@ + "cur"@ + " "@ + ("(local.get $"@ + "off"@ + ")"@)
        + ")"@) + "\n"@,
{
    reveal_strlit("    (local.set $cur (local.get $off))\n");
    reveal_strlit("  ");
    reveal_strlit("(local.set $");
    reveal_strlit("cur");
    reveal_strlit(" ");
    reveal_strlit("(local.get $");
    reveal_strlit("off");
    reveal_strlit(")");
    reveal_strlit("\n");
    assert("    (local.set $cur (local.get $off))\n"@ =~= (("  "@ + "  "@) + "(local.set $"@ + "cur"@ + " "@ + ("(local.get $"@ + "off"@ + ")"@)
        + ")"@) + "\n"@);
}

proof fn lemma_bits_cur_filled(k: nat)
    ensures
        fill("    (local.set $cur (local.get $off))\n"@, k) == (("  "@ + "  "@) + "(local.set $"@ + "cur"@ + " "@ + ("(local.get $"@ + "off"@ + ")"@)
        + ")"@) + "\n"@,
{
    broadcast use lemma_fill_add;

    lemma_bits_cur_words();
    lemma_plain_words(k);
}

proof fn lemma_bits_cur(k: nat)
    ensures
        squeezed(fill("    (local.set $cur (local.get $off))\n"@, k)) == squeezed(code_text(set_cur())),
{
    broadcast use {lemma_squeezed_add, lemma_add_nothing, lemma_nothing_add};

    lemma_blank_literals();
    lemma_bits_cur_filled(k);
    lemma_bits_cur_text(k);
}

proof fn lemma_bits_end_text(k: nat)
    ensures
        squeezed(code_text(set_end())) == squeezed("(local.set $"@) + squeezed("end"@) + (squeezed("("@) + squeezed("i32.add"@)
        + (squeezed("(local.get $"@) + squeezed("off"@) + squeezed(")"@))
        + (squeezed("(local.get $"@) + squeezed("len"@) + squeezed(")"@)) + squeezed(")"@))
        + squeezed(")"@),
{
    lemma_get_text("off"@);
    lemma_get_text("len"@);
    lemma_bin_text("i32.add"@, get("off"@), get("len"@));
    lemma_assign_text("end"@, bin("i32.add"@, get("off"@), get("len"@)));
    assert(set_end() == Code::Assign("end"@, bin("i32.add"@, get("off"@), get("len"@))));
}

proof fn lemma_bits_end_words()
    ensures
        "    (local.set $end (i32.add (local.get $off) (local.get $len)))\n"@ == (("  "@ + "  "@) + "(local.set $"@ + "end"@ + " "@ + ("("@ + "i32.add"@ + " "@
        + ("(local.get $"@ + "off"@ + ")"@) + " "@ + ("(local.get $"@ + "len"@ + ")"@) + ")"@)
        + ")"@) + "\n"@,
{
    reveal_strlit("    (local.set $end (i32.add (local.get $off) (local.get $len)))\n");
    reveal_strlit("  ");
    reveal_strlit("(local.set $");
    reveal_strlit("end");
    reveal_strlit(" ");
    reveal_strlit("(");
    reveal_strlit("i32.add");
    reveal_strlit("(local.get $");
    reveal_strlit("off");
    reveal_strlit(")");
    reveal_strlit("len");
    reveal_strlit("\n");
    assert("    (local.set $end (i32.add (local.get $off) (local.get $len)))\n"@ =~= (("  "@ + "  "@) + "(local.set $"@ + "end"@ + " "@ + ("("@ + "i32.add"@ + " "@
        + ("(local.get $"@ + "off"@ + ")"@) + " "@ + ("(local.get $"@ + "len"@ + ")"@) + ")"@)
        + ")"@) + "\n"@);
}

proof fn lemma_bits_end_filled(k: nat)
    ensures
        fill("    (local.set $end (i32.add (local.get $off) (local.get $len)))\n"@, k) == (("  "@ + "  "@) + "(local.set $"@ + "end"@ + " "@ + ("("@ + "i32.add"@ + " "@
        + ("(local.get $"@ + "off"@ + ")"@) + " "@ + ("(local.get $"@ + "len"@ + ")"@) + ")"@)
        + ")"@) + "\n"@,
{
    broadcast use lemma_fill_add;

    lemma_bits_end_words();
    lemma_plain_words(k);
}

proof fn lemma_bits_end(k: nat)
    ensures
        squeezed(fill("    (local.set $end (i32.add (local.get $off) (local.get $len)))\n"@, k)) == squeezed(code_text(set_end())),
{
    broadcast use {lemma_squeezed_add, lemma_add_nothing, lemma_nothing_add};

    lemma_blank_literals();
    lemma_bits_end_filled(k);
    lemma_bits_end_text(k);
}

proof fn lemma_bits_vec_end_text(k: nat)
    ensures
        squeezed(code_text(set_vec_end())) == squeezed("(local.set $"@) + squeezed("vec_end"@) + (squeezed("("@) + squeezed("i32.add"@)
        + (squeezed("(local.get $"@) + squeezed("off"@) + squeezed(")"@)) + (squeezed("("@)
        + squeezed("i32.and"@) + (squeezed("(local.get $"@) + squeezed("len"@) + squeezed(")"@))
        + (squeezed("("@) + squeezed("i32.const"@) + squeezed("-16"@) + squeezed(")"@))
        + squeezed(")"@)) + squeezed(")"@)) + squeezed(")"@),
{
    lemma_get_text("off"@);
    lemma_get_text("len"@);
    lemma_lit_text("i32.const"@, "-16"@);
    lemma_bin_text("i32.and"@, get("len"@), Term::Lit("i32.const"@, "-16"@));
    lemma_bin_text("i32.add"@, get("off"@), bin("i32.and"@, get("len"@), Term::Lit("i32.const"@, "-16"@)));
    lemma_assign_text("vec_end"@, bin("i32.add"@, get("off"@), bin("i32.and"@, get("len"@), Term::Lit("i32.const"@, "-16"@))));
    assert(set_vec_end() == Code::Assign("vec_end"@, bin("i32.add"@, get("off"@), bin("i32.and"@, get("len"@), Term::Lit("i32.const"@, "-16"@)))));
}

proof fn lemma_bits_vec_end_words()
    ensures
        "    (local.set $vec_end\n      (i32.add (local.get $off)\n               (i32.and (local.get $len) (i32.const -16))))\n"@ == (("  "@ + "  "@) + "(local.set $"@ + "vec_end"@ + ("\n"@ + "  "@ + "  "@ + "  "@) + ("("@
        + "i32.add"@ + " "@ + ("(local.get $"@ + "off"@ + ")"@) + ("\n"@ + "  "@ + "  "@ + "  "@
        + "  "@ + "  "@ + "  "@ + "  "@ + " "@) + ("("@ + "i32.and"@ + " "@ + ("(local.get $"@
        + "len"@ + ")"@) + " "@ + ("("@ + "i32.const"@ + " "@ + "-16"@ + ")"@) + ")"@) + ")"@)
        + ")"@) + "\n"@,
{
    reveal_strlit("    (local.set $vec_end\n      (i32.add (local.get $off)\n               (i32.and (local.get $len) (i32.const -16))))\n");
    reveal_strlit("  ");
    reveal_strlit("(local.set $");
    reveal_strlit("vec_end");
    reveal_strlit("\n");
    reveal_strlit("(");
    reveal_strlit("i32.add");
    reveal_strlit(" ");
    reveal_strlit("(local.get $");
    reveal_strlit("off");
    reveal_strlit(")");
    reveal_strlit("i32.and");
    reveal_strlit("len");
    reveal_strlit("i32.const");
    reveal_strlit("-16");
    assert("    (local.set $vec_end\n      (i32.add (local.get $off)\n               (i32.and (local.get $len) (i32.const -16))))\n"@ =~= (("  "@ + "  "@) + "(local.set $"@ + "vec_end"@ + ("\n"@ + "  "@ + "  "@ + "  "@) + ("("@
        + "i32.add"@ + " "@ + ("(local.get $"@ + "off"@ + ")"@) + ("\n"@ + "  "@ + "  "@ + "  "@
        + "  "@ + "  "@ + "  "@ + "  "@ + " "@) + ("("@ + "i32.and"@ + " "@ + ("(local.get $"@
        + "len"@ + ")"@) + " "@ + ("("@ + "i32.const"@ + " "@ + "-16"@ + ")"@) + ")"@) + ")"@)
        + ")"@) + "\n"@);
}

proof fn lemma_bits_vec_end_filled(k: nat)
    ensures
        fill("    (local.set $vec_end\n      (i32.add (local.get $off)\n               (i32.and (local.get $len) (i32.const -16))))\n"@, k) == (("  "@ + "  "@) + "(local.set $"@ + "vec_end"@ + ("\n"@ + "  "@ + "  "@ + "  "@) + ("("@
        + "i32.add"@ + " "@ + ("(local.get $"@ + "off"@ + ")"@) + ("\n"@ + "  "@ + "  "@ + "  "@
        + "  "@ + "  "@ + "  "@ + "  "@ + " "@) + ("("@ + "i32.and"@ + " "@ + ("(local.get $"@
        + "len"@ + ")"@) + " "@ + ("("@ + "i32.const"@ + " "@ + "-16"@ + ")"@) + ")"@) + ")"@)
        + ")"@) + "\n"@,
{
    broadcast use lemma_fill_add;

    lemma_bits_vec_end_words();
    lemma_plain_words(k);
}

proof fn lemma_bits_vec_end(k: nat)
    ensures
        squeezed(fill("    (local.set $vec_end\n      (i32.add (local.get $off)\n               (i32.and (local.get $len) (i32.const -16))))\n"@, k)) == squeezed(code_text(set_vec_end())),
{
    broadcast use {lemma_squeezed_add, lemma_add_nothing, lemma_nothing_add};

    lemma_blank_literals();
    lemma_bits_vec_end_filled(k);
    lemma_bits_vec_end_text(k);
}

proof fn lemma_bits_acc_text(k: nat)
    ensures
        squeezed(code_text(set_acc())) == squeezed("(local.set $"@) + squeezed("acc"@) + (squeezed("("@) + squeezed("v128.const"@)
        + squeezed("i64x2 0 0"@) + squeezed(")"@)) + squeezed(")"@),
{
    lemma_lit_text("v128.const"@, "i64x2 0 0"@);
    lemma_assign_text("acc"@, Term::Lit("v128.const"@, "i64x2 0 0"@));
    assert(set_acc() == Code::Assign("acc"@, Term::Lit("v128.const"@, "i64x2 0 0"@)));
}

proof fn lemma_bits_acc_words()
    ensures
        "    (local.set $acc (v128.const i64x2 0 0))\n"@ == (("  "@ + "  "@) + "(local.set $"@ + "acc"@ + " "@ + ("("@ + "v128.const"@ + " "@
        + "i64x2 0 0"@ + ")"@) + ")"@) + "\n"@,
{
    reveal_strlit("    (local.set $acc (v128.const i64x2 0 0))\n");
    reveal_strlit("  ");
    reveal_strlit("(local.set $");
    reveal_strlit("acc");
    reveal_strlit(" ");
    reveal_strlit("(");
    reveal_strlit("v128.const");
    reveal_strlit("i64x2 0 0");
    reveal_strlit(")");
    reveal_strlit("\n");
    assert("    (local.set $acc (v128.const i64x2 0 0))\n"@ =~= (("  "@ + "  "@) + "(local.set $"@ + "acc"@ + " "@ + ("("@ + "v128.const"@ + " "@
        + "i64x2 0 0"@ + ")"@) + ")"@) + "\n"@);
}

proof fn lemma_bits_acc_filled(k: nat)
    ensures
        fill("    (local.set $acc (v128.const i64x2 0 0))\n"@, k) == (("  "@ + "  "@) + "(local.set $"@ + "acc"@ + " "@ + ("("@ + "v128.const"@ + " "@
        + "i64x2 0 0"@ + ")"@) + ")"@) + "\n"@,
{
    broadcast use lemma_fill_add;

    lemma_bits_acc_words();
    lemma_plain_words(k);
}

proof fn lemma_bits_acc(k: nat)
    ensures
        squeezed(fill("    (local.set $acc (v128.const i64x2 0 0))\n"@, k)) == squeezed(code_text(set_acc())),
{
    broadcast use {lemma_squeezed_add, lemma_add_nothing, lemma_nothing_add};

    lemma_blank_literals();
    lemma_bits_acc_filled(k);
    lemma_bits_acc_text(k);
}

proof fn lemma_bits_vec_words()
    ensures
        "    (block $vec_done\n      (loop $vec_continue\n        (br_if $vec_done (i32.eq (local.get $cur) (local.get $vec_end)))\n"@ == (("  "@ + "  "@) + "(block $"@) + "vec_done"@ + ("\n"@ + "  "@ + "  "@ + " "@)
        + " (loop $"@ + "vec_continue"@ + ("\n"@ + "  "@ + "  "@ + "  "@ + " "@) + " (br_if $"@
        + "vec_done"@ + " "@ + ("("@ + "i32.eq"@ + " "@ + ("(local.get $"@ + "cur"@ + ")"@) + " "@
        + ("(local.get $"@ + "vec_end"@ + ")"@) + ")"@) + ")"@ + "\n"@,
{
    reveal_strlit("    (block $vec_done\n      (loop $vec_continue\n        (br_if $vec_done (i32.eq (local.get $cur) (local.get $vec_end)))\n");
    reveal_strlit("  ");
    reveal_strlit("(block $");
    reveal_strlit("vec_done");
    reveal_strlit("\n");
    reveal_strlit(" ");
    reveal_strlit(" (loop $");
    reveal_strlit("vec_continue");
    reveal_strlit(" (br_if $");
    reveal_strlit("(");
    reveal_strlit("i32.eq");
    reveal_strlit("(local.get $");
    reveal_strlit("cur");
    reveal_strlit(")");
    reveal_strlit("vec_end");
    assert("    (block $vec_done\n      (loop $vec_continue\n        (br_if $vec_done (i32.eq (local.get $cur) (local.get $vec_end)))\n"@ =~= (("  "@ + "  "@) + "(block $"@) + "vec_done"@ + ("\n"@ + "  "@ + "  "@ + " "@)
        + " (loop $"@ + "vec_continue"@ + ("\n"@ + "  "@ + "  "@ + "  "@ + " "@) + " (br_if $"@
        + "vec_done"@ + " "@ + ("("@ + "i32.eq"@ + " "@ + ("(local.get $"@ + "cur"@ + ")"@) + " "@
        + ("(local.get $"@ + "vec_end"@ + ")"@) + ")"@) + ")"@ + "\n"@);
}

proof fn lemma_bits_vec_filled(k: nat)
    ensures
        fill("    (block $vec_done\n      (loop $vec_continue\n        (br_if $vec_done (i32.eq (local.get $cur) (local.get $vec_end)))\n"@, k) == (("  "@ + "  "@) + "(block $"@) + "vec_done"@ + ("\n"@ + "  "@ + "  "@ + " "@)
        + " (loop $"@ + "vec_continue"@ + ("\n"@ + "  "@ + "  "@ + "  "@ + " "@) + " (br_if $"@
        + "vec_done"@ + " "@ + ("("@ + "i32.eq"@ + " "@ + ("(local.get $"@ + "cur"@ + ")"@) + " "@
        + ("(local.get $"@ + "vec_end"@ + ")"@) + ")"@) + ")"@ + "\n"@,
{
    broadcast use lemma_fill_add;

    lemma_bits_vec_words();
    lemma_plain_words(k);
}

proof fn lemma_bits_vec(k: nat)
    ensures
        squeezed(fill("    (block $vec_done\n      (loop $vec_continue\n        (br_if $vec_done (i32.eq (local.get $cur) (local.get $vec_end)))\n"@, k)) == opening_text("vec_done"@, "vec_continue"@, bin("i32.eq"@, get("cur"@), get("vec_end"@))),
{
    broadcast use {lemma_squeezed_add, lemma_add_nothing, lemma_nothing_add};

    lemma_blank_literals();
    lemma_bits_vec_filled(k);
    lemma_get_text("cur"@);
    lemma_get_text("vec_end"@);
    lemma_bin_text("i32.eq"@, get("cur"@), get("vec_end"@));
}

proof fn lemma_bits_part_text(k: nat)
    ensures
        squeezed(code_text(set_part(true, k))) == squeezed("(local.set $"@) + squeezed("tmp"@) + (squeezed("("@)
        + squeezed("i32x4.extadd_pairwise_i16x8_u"@) + (squeezed("("@)
        + squeezed("i16x8.extadd_pairwise_i8x16_u"@) + (squeezed("("@) + squeezed("i8x16.popcnt"@)
        + (squeezed("("@) + squeezed("v128.load"@) + squeezed(decimal(k))
        + (squeezed("(local.get $"@) + squeezed("cur"@) + squeezed(")"@)) + squeezed(")"@))
        + squeezed(")"@)) + squeezed(")"@)) + squeezed(")"@)) + squeezed(")"@),
{
    lemma_get_text("cur"@);
    lemma_load_text("v128.load"@, k, get("cur"@));
    lemma_un_text("i8x16.popcnt"@, Term::Load("v128.load"@, k, Box::new(get("cur"@))));
    lemma_un_text("i16x8.extadd_pairwise_i8x16_u"@, un("i8x16.popcnt"@, Term::Load("v128.load"@, k, Box::new(get("cur"@)))));
    lemma_un_text("i32x4.extadd_pairwise_i16x8_u"@, un("i16x8.extadd_pairwise_i8x16_u"@, un("i8x16.popcnt"@, Term::Load("v128.load"@, k, Box::new(get("cur"@))))));
    lemma_assign_text("tmp"@, un("i32x4.extadd_pairwise_i16x8_u"@, un("i16x8.extadd_pairwise_i8x16_u"@, un("i8x16.popcnt"@, Term::Load("v128.load"@, k, Box::new(get("cur"@)))))));
    assert(set_part(true, k) == Code::Assign("tmp"@, un("i32x4.extadd_pairwise_i16x8_u"@, un("i16x8.extadd_pairwise_i8x16_u"@, un("i8x16.popcnt"@, Term::Load("v128.load"@, k, Box::new(get("cur"@))))))));
}

proof fn lemma_bits_part_words()
    ensures
        "        (local.set $tmp\n          (i32x4.extadd_pairwise_i16x8_u\n            (i16x8.extadd_pairwise_i8x16_u\n              (i8x16.popcnt\n                (v128.load @ (local.get $cur))))))\n"@ == (("  "@ + "  "@ + "  "@ + "  "@) + "(local.set $"@ + "tmp"@ + ("\n"@ + "  "@ + "  "@
        + "  "@ + "  "@ + "  "@) + ("("@ + "i32x4.extadd_pairwise_i16x8_u"@ + ("\n"@ + "  "@
        + "  "@ + "  "@ + "  "@ + "  "@ + "  "@) + ("("@ + "i16x8.extadd_pairwise_i8x16_u"@
        + ("\n"@ + "  "@ + "  "@ + "  "@ + "  "@ + "  "@ + "  "@ + "  "@) + ("("@
        + "i8x16.popcnt"@ + ("\n"@ + "  "@ + "  "@ + "  "@ + "  "@ + "  "@ + "  "@ + "  "@
        + "  "@) + ("("@ + "v128.load"@ + " "@ + "@"@ + " "@ + ("(local.get $"@ + "cur"@ + ")"@)
        + ")"@) + ")"@) + ")"@) + ")"@) + ")"@) + "\n"@,
{
    reveal_strlit("        (local.set $tmp\n          (i32x4.extadd_pairwise_i16x8_u\n            (i16x8.extadd_pairwise_i8x16_u\n              (i8x16.popcnt\n                (v128.load @ (local.get $cur))))))\n");
    reveal_strlit("  ");
    reveal_strlit("(local.set $");
    reveal_strlit("tmp");
    reveal_strlit("\n");
    reveal_strlit("(");
    reveal_strlit("i32x4.extadd_pairwise_i16x8_u");
    reveal_strlit("i16x8.extadd_pairwise_i8x16_u");
    reveal_strlit("i8x16.popcnt");
    reveal_strlit("v128.load");
    reveal_strlit(" ");
    reveal_strlit("@");
    reveal_strlit("(local.get $");
    reveal_strlit("cur");
    reveal_strlit(")");
    assert("        (local.set $tmp\n          (i32x4.extadd_pairwise_i16x8_u\n            (i16x8.extadd_pairwise_i8x16_u\n              (i8x16.popcnt\n                (v128.load @ (local.get $cur))))))\n"@ =~= (("  "@ + "  "@ + "  "@ + "  "@) + "(local.set $"@ + "tmp"@ + ("\n"@ + "  "@ + "  "@
        + "  "@ + "  "@ + "  "@) + ("("@ + "i32x4.extadd_pairwise_i16x8_u"@ + ("\n"@ + "  "@
        + "  "@ + "  "@ + "  "@ + "  "@ + "  "@) + ("("@ + "i16x8.extadd_pairwise_i8x16_u"@
        + ("\n"@ + "  "@ + "  "@ + "  "@ + "  "@ + "  "@ + "  "@ + "  "@) + ("("@
        + "i8x16.popcnt"@ + ("\n"@ + "  "@ + "  "@ + "  "@ + "  "@ + "  "@ + "  "@ + "  "@
        + "  "@) + ("("@ + "v128.load"@ + " "@ + "@"@ + " "@ + ("(local.get $"@ + "cur"@ + ")"@)
        + ")"@) + ")"@) + ")"@) + ")"@) + ")"@) + "\n"@);
}

proof fn lemma_bits_part_filled(k: nat)
    ensures
        fill("        (local.set $tmp\n          (i32x4.extadd_pairwise_i16x8_u\n            (i16x8.extadd_pairwise_i8x16_u\n              (i8x16.popcnt\n                (v128.load @ (local.get $cur))))))\n"@, k) == (("  "@ + "  "@ + "  "@ + "  "@) + "(local.set $"@ + "tmp"@ + ("\n"@ + "  "@ + "  "@
        + "  "@ + "  "@ + "  "@) + ("("@ + "i32x4.extadd_pairwise_i16x8_u"@ + ("\n"@ + "  "@
        + "  "@ + "  "@ + "  "@ + "  "@ + "  "@) + ("("@ + "i16x8.extadd_pairwise_i8x16_u"@
        + ("\n"@ + "  "@ + "  "@ + "  "@ + "  "@ + "  "@ + "  "@ + "  "@) + ("("@
        + "i8x16.popcnt"@ + ("\n"@ + "  "@ + "  "@ + "  "@ + "  "@ + "  "@ + "  "@ + "  "@
        + "  "@) + ("("@ + "v128.load"@ + " "@ + decimal(k) + " "@ + ("(local.get $"@ + "cur"@
        + ")"@) + ")"@) + ")"@) + ")"@) + ")"@) + ")"@) + "\n"@,
{
    broadcast use lemma_fill_add;

    lemma_bits_part_words();
    lemma_plain_words(k);
    lemma_fill_place(k);
}

proof fn lemma_bits_part(k: nat)
    ensures
        squeezed(fill("        (local.set $tmp\n          (i32x4.extadd_pairwise_i16x8_u\n            (i16x8.extadd_pairwise_i8x16_u\n              (i8x16.popcnt\n                (v128.load @ (local.get $cur))))))\n"@, k)) == squeezed(code_text(set_part(true, k))),
{
    broadcast use {lemma_squeezed_add, lemma_add_nothing, lemma_nothing_add};

    lemma_blank_literals();
    lemma_bits_part_filled(k);
    lemma_bits_part_text(k);
}

proof fn lemma_bits_add_text(k: nat)
    ensures
        squeezed(code_text(add_part(true))) == squeezed("(local.set $"@) + squeezed("acc"@) + (squeezed("("@) + squeezed("i64x2.add"@)
        + (squeezed("("@) + squeezed("i64x2.add"@) + (squeezed("(local.get $"@) + squeezed("acc"@)
        + squeezed(")"@)) + (squeezed("("@) + squeezed("i64x2.extend_low_i32x4_u"@)
        + (squeezed("(local.get $"@) + squeezed("tmp"@) + squeezed(")"@)) + squeezed(")"@))
        + squeezed(")"@)) + (squeezed("("@) + squeezed("i64x2.extend_high_i32x4_u"@)
        + (squeezed("(local.get $"@) + squeezed("tmp"@) + squeezed(")"@)) + squeezed(")"@))
        + squeezed(")"@)) + squeezed(")"@),
{
    lemma_get_text("acc"@);
    lemma_get_text("tmp"@);
    lemma_un_text("i64x2.extend_low_i32x4_u"@, get("tmp"@));
    lemma_bin_text("i64x2.add"@, get("acc"@), un("i64x2.extend_low_i32x4_u"@, get("tmp"@)));
    lemma_un_text("i64x2.extend_high_i32x4_u"@, get("tmp"@));
    lemma_bin_text("i64x2.add"@, bin("i64x2.add"@, get("acc"@), un("i64x2.extend_low_i32x4_u"@, get("tmp"@))), un("i64x2.extend_high_i32x4_u"@, get("tmp"@)));
    lemma_assign_text("acc"@, bin("i64x2.add"@, bin("i64x2.add"@, get("acc"@), un("i64x2.extend_low_i32x4_u"@, get("tmp"@))), un("i64x2.extend_high_i32x4_u"@, get("tmp"@))));
    assert(add_part(true) == Code::Assign("acc"@, bin("i64x2.add"@, bin("i64x2.add"@, get("acc"@), un("i64x2.extend_low_i32x4_u"@, get("tmp"@))), un("i64x2.extend_high_i32x4_u"@, get("tmp"@)))));
}

proof fn lemma_bits_add_words()
    ensures
        "        (local.set $acc\n          (i64x2.add\n            (i64x2.add\n              (local.get $acc)\n              (i64x2.extend_low_i32x4_u (local.get $tmp)))\n            (i64x2.extend_high_i32x4_u (local.get $tmp))))\n"@ == (("  "@ + "  "@ + "  "@ + "  "@) + "(local.set $"@ + "acc"@ + ("\n"@ + "  "@ + "  "@
        + "  "@ + "  "@ + "  "@) + ("("@ + "i64x2.add"@ + ("\n"@ + "  "@ + "  "@ + "  "@ + "  "@
        + "  "@ + "  "@) + ("("@ + "i64x2.add"@ + ("\n"@ + "  "@ + "  "@ + "  "@ + "  "@ + "  "@
        + "  "@ + "  "@) + ("(local.get $"@ + "acc"@ + ")"@) + ("\n"@ + "  "@ + "  "@ + "  "@
        + "  "@ + "  "@ + "  "@ + "  "@) + ("("@ + "i64x2.extend_low_i32x4_u"@ + " "@
        + ("(local.get $"@ + "tmp"@ + ")"@) + ")"@) + ")"@) + ("\n"@ + "  "@ + "  "@ + "  "@
        + "  "@ + "  "@ + "  "@) + ("("@ + "i64x2.extend_high_i32x4_u"@ + " "@ + ("(local.get $"@
        + "tmp"@ + ")"@) + ")"@) + ")"@) + ")"@) + "\n"@,
{
    reveal_strlit("        (local.set $acc\n          (i64x2.add\n            (i64x2.add\n              (local.get $acc)\n              (i64x2.extend_low_i32x4_u (local.get $tmp)))\n            (i64x2.extend_high_i32x4_u (local.get $tmp))))\n");
    reveal_strlit("  ");
    reveal_strlit("(local.set $");
    reveal_strlit("acc");
    reveal_strlit("\n");
    reveal_strlit("(");
    reveal_strlit("i64x2.add");
    reveal_strlit("(local.get $");
    reveal_strlit(")");
    reveal_strlit("i64x2.extend_low_i32x4_u");
    reveal_strlit(" ");
    reveal_strlit("tmp");
    reveal_strlit("i64x2.extend_high_i32x4_u");
    assert("        (local.set $acc\n          (i64x2.add\n            (i64x2.add\n              (local.get $acc)\n              (i64x2.extend_low_i32x4_u (local.get $tmp)))\n            (i64x2.extend_high_i32x4_u (local.get $tmp))))\n"@ =~= (("  "@ + "  "@ + "  "@ + "  "@) + "(local.set $"@ + "acc"@ + ("\n"@ + "  "@ + "  "@
        + "  "@ + "  "@ + "  "@) + ("("@ + "i64x2.add"@ + ("\n"@ + "  "@ + "  "@ + "  "@ + "  "@
        + "  "@ + "  "@) + ("("@ + "i64x2.add"@ + ("\n"@ + "  "@ + "  "@ + "  "@ + "  "@ + "  "@
        + "  "@ + "  "@) + ("(local.get $"@ + "acc"@ + ")"@) + ("\n"@ + "  "@ + "  "@ + "  "@
        + "  "@ + "  "@ + "  "@ + "  "@) + ("("@ + "i64x2.extend_low_i32x4_u"@ + " "@
        + ("(local.get $"@ + "tmp"@ + ")"@) + ")"@) + ")"@) + ("\n"@ + "  "@ + "  "@ + "  "@
        + "  "@ + "  "@ + "  "@) + ("("@ + "i64x2.extend_high_i32x4_u"@ + " "@ + ("(local.get $"@
        + "tmp"@ + ")"@) + ")"@) + ")"@) + ")"@) + "\n"@);
}

proof fn lemma_bits_add_filled(k: nat)
    ensures
        fill("        (local.set $acc\n          (i64x2.add\n            (i64x2.add\n              (local.get $acc)\n              (i64x2.extend_low_i32x4_u (local.get $tmp)))\n            (i64x2.extend_high_i32x4_u (local.get $tmp))))\n"@, k) == (("  "@ + "  "@ + "  "@ + "  "@) + "(local.set $"@ + "acc"@ + ("\n"@ + "  "@ + "  "@
        + "  "@ + "  "@ + "  "@) + ("("@ + "i64x2.add"@ + ("\n"@ + "  "@ + "  "@ + "  "@ + "  "@
        + "  "@ + "  "@) + ("("@ + "i64x2.add"@ + ("\n"@ + "  "@ + "  "@ + "  "@ + "  "@ + "  "@
        + "  "@ + "  "@) + ("(local.get $"@ + "acc"@ + ")"@) + ("\n"@ + "  "@ + "  "@ + "  "@
        + "  "@ + "  "@ + "  "@ + "  "@) + ("("@ + "i64x2.extend_low_i32x4_u"@ + " "@
        + ("(local.get $"@ + "tmp"@ + ")"@) + ")"@) + ")"@) + ("\n"@ + "  "@ + "  "@ + "  "@
        + "  "@ + "  "@ + "  "@) + ("("@ + "i64x2.extend_high_i32x4_u"@ + " "@ + ("(local.get $"@
        + "tmp"@ + ")"@) + ")"@) + ")"@) + ")"@) + "\n"@,
{
    broadcast use lemma_fill_add;

    lemma_bits_add_words();
    lemma_plain_words(k);
}

proof fn lemma_bits_add(k: nat)
    ensures
        squeezed(fill("        (local.set $acc\n          (i64x2.add\n            (i64x2.add\n              (local.get $acc)\n              (i64x2.extend_low_i32x4_u (local.get $tmp)))\n            (i64x2.extend_high_i32x4_u (local.get $tmp))))\n"@, k)) == squeezed(code_text(add_part(true))),
{
    broadcast use {lemma_squeezed_add, lemma_add_nothing, lemma_nothing_add};

    lemma_blank_literals();
    lemma_bits_add_filled(k);
    lemma_bits_add_text(k);
}

proof fn lemma_bits_step_text(k: nat)
    ensures
        squeezed(code_text(step_by("16"@))) == squeezed("(local.set $"@) + squeezed("cur"@) + (squeezed("("@) + squeezed("i32.add"@)
        + (squeezed("(local.get $"@) + squeezed("cur"@) + squeezed(")"@)) + (squeezed("("@)
        + squeezed("i32.const"@) + squeezed("16"@) + squeezed(")"@)) + squeezed(")"@))
        + squeezed(")"@),
{
    lemma_get_text("cur"@);
    lemma_lit_text("i32.const"@, "16"@);
    lemma_bin_text("i32.add"@, get("cur"@), Term::Lit("i32.const"@, "16"@));
    lemma_assign_text("cur"@, bin("i32.add"@, get("cur"@), Term::Lit("i32.const"@, "16"@)));
    assert(step_by("16"@) == Code::Assign("cur"@, bin("i32.add"@, get("cur"@), Term::Lit("i32.const"@, "16"@))));
}

proof fn lemma_bits_step_words()
    ensures
        "        (local.set $cur (i32.add (local.get $cur) (i32.const 16)))\n"@ == (("  "@ + "  "@ + "  "@ + "  "@) + "(local.set $"@ + "cur"@ + " "@ + ("("@ + "i32.add"@
        + " "@ + ("(local.get $"@ + "cur"@ + ")"@) + " "@ + ("("@ + "i32.const"@ + " "@ + "16"@
        + ")"@) + ")"@) + ")"@) + "\n"@,
{
    reveal_strlit("        (local.set $cur (i32.add (local.get $cur) (i32.const 16)))\n");
    reveal_strlit("  ");
    reveal_strlit("(local.set $");
    reveal_strlit("cur");
    reveal_strlit(" ");
    reveal_strlit("(");
    reveal_strlit("i32.add");
    reveal_strlit("(local.get $");
    reveal_strlit(")");
    reveal_strlit("i32.const");
    reveal_strlit("16");
    reveal_strlit("\n");
    assert("        (local.set $cur (i32.add (local.get $cur) (i32.const 16)))\n"@ =~= (("  "@ + "  "@ + "  "@ + "  "@) + "(local.set $"@ + "cur"@ + " "@ + ("("@ + "i32.add"@
        + " "@ + ("(local.get $"@ + "cur"@ + ")"@) + " "@ + ("("@ + "i32.const"@ + " "@ + "16"@
        + ")"@) + ")"@) + ")"@) + "\n"@);
}

proof fn lemma_bits_step_filled(k: nat)
    ensures
        fill("        (local.set $cur (i32.add (local.get $cur) (i32.const 16)))\n"@, k) == (("  "@ + "  "@ + "  "@ + "  "@) + "(local.set $"@ + "cur"@ + " "@ + ("("@ + "i32.add"@
        + " "@ + ("(local.get $"@ + "cur"@ + ")"@) + " "@ + ("("@ + "i32.const"@ + " "@ + "16"@
        + ")"@) + ")"@) + ")"@) + "\n"@,
{
    broadcast use lemma_fill_add;

    lemma_bits_step_words();
    lemma_plain_words(k);
}

proof fn lemma_bits_step(k: nat)
    ensures
        squeezed(fill("        (local.set $cur (i32.add (local.get $cur) (i32.const 16)))\n"@, k)) == squeezed(code_text(step_by("16"@))),
{
    broadcast use {lemma_squeezed_add, lemma_add_nothing, lemma_nothing_add};

    lemma_blank_literals();
    lemma_bits_step_filled(k);
    lemma_bits_step_text(k);
}

proof fn lemma_bits_again_words()
    ensures
        "        (br $vec_continue)))\n"@ == (("  "@ + "  "@ + "  "@ + "  "@) + "(br $"@) + "vec_continue"@ + ")"@ + ")"@ + ")"@
        + "\n"@,
{
    reveal_strlit("        (br $vec_continue)))\n");
    reveal_strlit("  ");
    reveal_strlit("(br $");
    reveal_strlit("vec_continue");
    reveal_strlit(")");
    reveal_strlit("\n");
    assert("        (br $vec_continue)))\n"@ =~= (("  "@ + "  "@ + "  "@ + "  "@) + "(br $"@) + "vec_continue"@ + ")"@ + ")"@ + ")"@
        + "\n"@);
}

proof fn lemma_bits_again_filled(k: nat)
    ensures
        fill("        (br $vec_continue)))\n"@, k) == (("  "@ + "  "@ + "  "@ + "  "@) + "(br $"@) + "vec_continue"@ + ")"@ + ")"@ + ")"@
        + "\n"@,
{
    broadcast use lemma_fill_add;

    lemma_bits_again_words();
    lemma_plain_words(k);
}

proof fn lemma_bits_again(k: nat)
    ensures
        squeezed(fill("        (br $vec_continue)))\n"@, k)) == closing_text("vec_continue"@),
{
    broadcast use {lemma_squeezed_add, lemma_add_nothing, lemma_nothing_add};

    lemma_blank_literals();
    lemma_bits_again_filled(k);
}

proof fn lemma_bits_scalar_text(k: nat)
    ensures
        squeezed(code_text(set_scalar())) == squeezed("(local.set $"@) + squeezed("scalar"@) + (squeezed("("@) + squeezed("i64.add"@)
        + (squeezed("("@) + squeezed("i64x2.extract_lane 0"@) + (squeezed("(local.get $"@)
        + squeezed("acc"@) + squeezed(")"@)) + squeezed(")"@)) + (squeezed("("@)
        + squeezed("i64x2.extract_lane 1"@) + (squeezed("(local.get $"@) + squeezed("acc"@)
        + squeezed(")"@)) + squeezed(")"@)) + squeezed(")"@)) + squeezed(")"@),
{
    lemma_get_text("acc"@);
    lemma_un_text("i64x2.extract_lane 0"@, get("acc"@));
    lemma_un_text("i64x2.extract_lane 1"@, get("acc"@));
    lemma_bin_text("i64.add"@, un("i64x2.extract_lane 0"@, get("acc"@)), un("i64x2.extract_lane 1"@, get("acc"@)));
    lemma_assign_text("scalar"@, bin("i64.add"@, un("i64x2.extract_lane 0"@, get("acc"@)), un("i64x2.extract_lane 1"@, get("acc"@))));
    assert(set_scalar() == Code::Assign("scalar"@, bin("i64.add"@, un("i64x2.extract_lane 0"@, get("acc"@)), un("i64x2.extract_lane 1"@, get("acc"@)))));
}

proof fn lemma_bits_scalar_words()
    ensures
        "    (local.set $scalar\n      (i64.add\n        (i64x2.extract_lane 0 (local.get $acc))\n        (i64x2.extract_lane 1 (local.get $acc))))\n"@ == (("  "@ + "  "@) + "(local.set $"@ + "scalar"@ + ("\n"@ + "  "@ + "  "@ + "  "@) + ("("@
        + "i64.add"@ + ("\n"@ + "  "@ + "  "@ + "  "@ + "  "@) + ("("@ + "i64x2.extract_lane 0"@
        + " "@ + ("(local.get $"@ + "acc"@ + ")"@) + ")"@) + ("\n"@ + "  "@ + "  "@ + "  "@
        + "  "@) + ("("@ + "i64x2.extract_lane 1"@ + " "@ + ("(local.get $"@ + "acc"@ + ")"@)
        + ")"@) + ")"@) + ")"@) + "\n"@,
{
    reveal_strlit("    (local.set $scalar\n      (i64.add\n        (i64x2.extract_lane 0 (local.get $acc))\n        (i64x2.extract_lane 1 (local.get $acc))))\n");
    reveal_strlit("  ");
    reveal_strlit("(local.set $");
    reveal_strlit("scalar");
    reveal_strlit("\n");
    reveal_strlit("(");
    reveal_strlit("i64.add");
    reveal_strlit("i64x2.extract_lane 0");
    reveal_strlit(" ");
    reveal_strlit("(local.get $");
    reveal_strlit("acc");
    reveal_strlit(")");
    reveal_strlit("i64x2.extract_lane 1");
    assert("    (local.set $scalar\n      (i64.add\n        (i64x2.extract_lane 0 (local.get $acc))\n        (i64x2.extract_lane 1 (local.get $acc))))\n"@ =~= (("  "@ + "  "@) + "(local.set $"@ + "scalar"@ + ("\n"@ + "  "@ + "  "@ + "  "@) + ("("@
        + "i64.add"@ + ("\n"@ + "  "@ + "  "@ + "  "@ + "  "@) + ("("@ + "i64x2.extract_lane 0"@
        + " "@ + ("(local.get $"@ + "acc"@ + ")"@) + ")"@) + ("\n"@ + "  "@ + "  "@ + "  "@
        + "  "@) + ("("@ + "i64x2.extract_lane 1"@ + " "@ + ("(local.get $"@ + "acc"@ + ")"@)
        + ")"@) + ")"@) + ")"@) + "\n"@);
}

proof fn lemma_bits_scalar_filled(k: nat)
    ensures
        fill("    (local.set $scalar\n      (i64.add\n        (i64x2.extract_lane 0 (local.get $acc))\n        (i64x2.extract_lane 1 (local.get $acc))))\n"@, k) == (("  "@ + "  "@) + "(local.set $"@ + "scalar"@ + ("\n"@ + "  "@ + "  "@ + "  "@) + ("("@
        + "i64.add"@ + ("\n"@ + "  "@ + "  "@ + "  "@ + "  "@) + ("("@ + "i64x2.extract_lane 0"@
        + " "@ + ("(local.get $"@ + "acc"@ + ")"@) + ")"@) + ("\n"@ + "  "@ + "  "@ + "  "@
        + "  "@) + ("("@ + "i64x2.extract_lane 1"@ + " "@ + ("(local.get $"@ + "acc"@ + ")"@)
        + ")"@) + ")"@) + ")"@) + "\n"@,
{
    broadcast use lemma_fill_add;

    lemma_bits_scalar_words();
    lemma_plain_words(k);
}

proof fn lemma_bits_scalar(k: nat)
    ensures
        squeezed(fill("    (local.set $scalar\n      (i64.add\n        (i64x2.extract_lane 0 (local.get $acc))\n        (i64x2.extract_lane 1 (local.get $acc))))\n"@, k)) == squeezed(code_text(set_scalar())),
{
    broadcast use {lemma_squeezed_add, lemma_add_nothing, lemma_nothing_add};

    lemma_blank_literals();
    lemma_bits_scalar_filled(k);
    lemma_bits_scalar_text(k);
}

proof fn lemma_bits_tail_words()
    ensures
        "    (block $tail_done\n      (loop $tail_continue\n        (br_if $tail_done (i32.eq (local.get $cur) (local.get $end)))\n"@ == (("  "@ + "  "@) + "(block $"@) + "tail_done"@ + ("\n"@ + "  "@ + "  "@ + " "@)
        + " (loop $"@ + "tail_continue"@ + ("\n"@ + "  "@ + "  "@ + "  "@ + " "@) + " (br_if $"@
        + "tail_done"@ + " "@ + ("("@ + "i32.eq"@ + " "@ + ("(local.get $"@ + "cur"@ + ")"@)
        + " "@ + ("(local.get $"@ + "end"@ + ")"@) + ")"@) + ")"@ + "\n"@,
{
    reveal_strlit("    (block $tail_done\n      (loop $tail_continue\n        (br_if $tail_done (i32.eq (local.get $cur) (local.get $end)))\n");
    reveal_strlit("  ");
    reveal_strlit("(block $");
    reveal_strlit("tail_done");
    reveal_strlit("\n");
    reveal_strlit(" ");
    reveal_strlit(" (loop $");
    reveal_strlit("tail_continue");
    reveal_strlit(" (br_if $");
    reveal_strlit("(");
    reveal_strlit("i32.eq");
    reveal_strlit("(local.get $");
    reveal_strlit("cur");
    reveal_strlit(")");
    reveal_strlit("end");
    assert("    (block $tail_done\n      (loop $tail_continue\n        (br_if $tail_done (i32.eq (local.get $cur) (local.get $end)))\n"@ =~= (("  "@ + "  "@) + "(block $"@) + "tail_done"@ + ("\n"@ + "  "@ + "  "@ + " "@)
        + " (loop $"@ + "tail_continue"@ + ("\n"@ + "  "@ + "  "@ + "  "@ + " "@) + " (br_if $"@
        + "tail_done"@ + " "@ + ("("@ + "i32.eq"@ + " "@ + ("(local.get $"@ + "cur"@ + ")"@)
        + " "@ + ("(local.get $"@ + "end"@ + ")"@) + ")"@) + ")"@ + "\n"@);
}

proof fn lemma_bits_tail_filled(k: nat)
    ensures
        fill("    (block $tail_done\n      (loop $tail_continue\n        (br_if $tail_done (i32.eq (local.get $cur) (local.get $end)))\n"@, k) == (("  "@ + "  "@) + "(block $"@) + "tail_done"@ + ("\n"@ + "  "@ + "  "@ + " "@)
        + " (loop $"@ + "tail_continue"@ + ("\n"@ + "  "@ + "  "@ + "  "@ + " "@) + " (br_if $"@
        + "tail_done"@ + " "@ + ("("@ + "i32.eq"@ + " "@ + ("(local.get $"@ + "cur"@ + ")"@)
        + " "@ + ("(local.get $"@ + "end"@ + ")"@) + ")"@) + ")"@ + "\n"@,
{
    broadcast use lemma_fill_add;

    lemma_bits_tail_words();
    lemma_plain_words(k);
}

proof fn lemma_bits_tail(k: nat)
    ensures
        squeezed(fill("    (block $tail_done\n      (loop $tail_continue\n        (br_if $tail_done (i32.eq (local.get $cur) (local.get $end)))\n"@, k)) == opening_text("tail_done"@, "tail_continue"@, bin("i32.eq"@, get("cur"@), get("end"@))),
{
    broadcast use {lemma_squeezed_add, lemma_add_nothing, lemma_nothing_add};

    lemma_blank_literals();
    lemma_bits_tail_filled(k);
    lemma_get_text("cur"@);
    lemma_get_text("end"@);
    lemma_bin_text("i32.eq"@, get("cur"@), get("end"@));
}

proof fn lemma_bits_single_text(k: nat)
    ensures
        squeezed(code_text(add_single(true, k))) == squeezed("(local.set $"@) + squeezed("scalar"@) + (squeezed("("@) + squeezed("i64.add"@)
        + (squeezed("(local.get $"@) + squeezed("scalar"@) + squeezed(")"@)) + (squeezed("("@)
        + squeezed("i64.extend_i32_u"@) + (squeezed("("@) + squeezed("i32.popcnt"@)
        + (squeezed("("@) + squeezed("i32.load8_u"@) + squeezed(decimal(k))
        + (squeezed("(local.get $"@) + squeezed("cur"@) + squeezed(")"@)) + squeezed(")"@))
        + squeezed(")"@)) + squeezed(")"@)) + squeezed(")"@)) + squeezed(")"@),
{
    lemma_get_text("scalar"@);
    lemma_get_text("cur"@);
    lemma_load_text("i32.load8_u"@, k, get("cur"@));
    lemma_un_text("i32.popcnt"@, Term::Load("i32.load8_u"@, k, Box::new(get("cur"@))));
    lemma_un_text("i64.extend_i32_u"@, un("i32.popcnt"@, Term::Load("i32.load8_u"@, k, Box::new(get("cur"@)))));
    lemma_bin_text("i64.add"@, get("scalar"@), un("i64.extend_i32_u"@, un("i32.popcnt"@, Term::Load("i32.load8_u"@, k, Box::new(get("cur"@))))));
    lemma_assign_text("scalar"@, bin("i64.add"@, get("scalar"@), un("i64.extend_i32_u"@, un("i32.popcnt"@, Term::Load("i32.load8_u"@, k, Box::new(get("cur"@)))))));
    assert(add_single(true, k) == Code::Assign("scalar"@, bin("i64.add"@, get("scalar"@), un("i64.extend_i32_u"@, un("i32.popcnt"@, Term::Load("i32.load8_u"@, k, Box::new(get("cur"@))))))));
}

proof fn lemma_bits_single_words()
    ensures
        "        (local.set $scalar\n          (i64.add (local.get $scalar)\n            (i64.extend_i32_u\n              (i32.popcnt (i32.load8_u @ (local.get $cur))))))\n"@ == (("  "@ + "  "@ + "  "@ + "  "@) + "(local.set $"@ + "scalar"@ + ("\n"@ + "  "@ + "  "@
        + "  "@ + "  "@ + "  "@) + ("("@ + "i64.add"@ + " "@ + ("(local.get $"@ + "scalar"@
        + ")"@) + ("\n"@ + "  "@ + "  "@ + "  "@ + "  "@ + "  "@ + "  "@) + ("("@
        + "i64.extend_i32_u"@ + ("\n"@ + "  "@ + "  "@ + "  "@ + "  "@ + "  "@ + "  "@ + "  "@)
        + ("("@ + "i32.popcnt"@ + " "@ + ("("@ + "i32.load8_u"@ + " "@ + "@"@ + " "@
        + ("(local.get $"@ + "cur"@ + ")"@) + ")"@) + ")"@) + ")"@) + ")"@) + ")"@) + "\n"@,
{
    reveal_strlit("        (local.set $scalar\n          (i64.add (local.get $scalar)\n            (i64.extend_i32_u\n              (i32.popcnt (i32.load8_u @ (local.get $cur))))))\n");
    reveal_strlit("  ");
    reveal_strlit("(local.set $");
    reveal_strlit("scalar");
    reveal_strlit("\n");
    reveal_strlit("(");
    reveal_strlit("i64.add");
    reveal_strlit(" ");
    reveal_strlit("(local.get $");
    reveal_strlit(")");
    reveal_strlit("i64.extend_i32_u");
    reveal_strlit("i32.popcnt");
    reveal_strlit("i32.load8_u");
    reveal_strlit("@");
    reveal_strlit("cur");
    assert("        (local.set $scalar\n          (i64.add (local.get $scalar)\n            (i64.extend_i32_u\n              (i32.popcnt (i32.load8_u @ (local.get $cur))))))\n"@ =~= (("  "@ + "  "@ + "  "@ + "  "@) + "(local.set $"@ + "scalar"@ + ("\n"@ + "  "@ + "  "@
        + "  "@ + "  "@ + "  "@) + ("("@ + "i64.add"@ + " "@ + ("(local.get $"@ + "scalar"@
        + ")"@) + ("\n"@ + "  "@ + "  "@ + "  "@ + "  "@ + "  "@ + "  "@) + ("("@
        + "i64.extend_i32_u"@ + ("\n"@ + "  "@ + "  "@ + "  "@ + "  "@ + "  "@ + "  "@ + "  "@)
        + ("("@ + "i32.popcnt"@ + " "@ + ("("@ + "i32.load8_u"@ + " "@ + "@"@ + " "@
        + ("(local.get $"@ + "cur"@ + ")"@) + ")"@) + ")"@) + ")"@) + ")"@) + ")"@) + "\n"@);
}

proof fn lemma_bits_single_filled(k: nat)
    ensures
        fill("        (local.set $scalar\n          (i64.add (local.get $scalar)\n            (i64.extend_i32_u\n              (i32.popcnt (i32.load8_u @ (local.get $cur))))))\n"@, k) == (("  "@ + "  "@ + "  "@ + "  "@) + "(local.set $"@ + "scalar"@ + ("\n"@ + "  "@ + "  "@
        + "  "@ + "  "@ + "  "@) + ("("@ + "i64.add"@ + " "@ + ("(local.get $"@ + "scalar"@
        + ")"@) + ("\n"@ + "  "@ + "  "@ + "  "@ + "  "@ + "  "@ + "  "@) + ("("@
        + "i64.extend_i32_u"@ + ("\n"@ + "  "@ + "  "@ + "  "@ + "  "@ + "  "@ + "  "@ + "  "@)
        + ("("@ + "i32.popcnt"@ + " "@ + ("("@ + "i32.load8_u"@ + " "@ + decimal(k) + " "@
        + ("(local.get $"@ + "cur"@ + ")"@) + ")"@) + ")"@) + ")"@) + ")"@) + ")"@) + "\n"@,
{
    broadcast use lemma_fill_add;

    lemma_bits_single_words();
    lemma_plain_words(k);
    lemma_fill_place(k);
}

proof fn lemma_bits_single(k: nat)
    ensures
        squeezed(fill("        (local.set $scalar\n          (i64.add (local.get $scalar)\n            (i64.extend_i32_u\n              (i32.popcnt (i32.load8_u @ (local.get $cur))))))\n"@, k)) == squeezed(code_text(add_single(true, k))),
{
    broadcast use {lemma_squeezed_add, lemma_add_nothing, lemma_nothing_add};

    lemma_blank_literals();
    lemma_bits_single_filled(k);
    lemma_bits_single_text(k);
}

proof fn lemma_bits_next_text(k: nat)
    ensures
        squeezed(code_text(step_by("1"@))) == squeezed("(local.set $"@) + squeezed("cur"@) + (squeezed("("@) + squeezed("i32.add"@)
        + (squeezed("(local.get $"@) + squeezed("cur"@) + squeezed(")"@)) + (squeezed("("@)
        + squeezed("i32.const"@) + squeezed("1"@) + squeezed(")"@)) + squeezed(")"@))
        + squeezed(")"@),
{
    lemma_get_text("cur"@);
    lemma_lit_text("i32.const"@, "1"@);
    lemma_bin_text("i32.add"@, get("cur"@), Term::Lit("i32.const"@, "1"@));
    lemma_assign_text("cur"@, bin("i32.add"@, get("cur"@), Term::Lit("i32.const"@, "1"@)));
    assert(step_by("1"@) == Code::Assign("cur"@, bin("i32.add"@, get("cur"@), Term::Lit("i32.const"@, "1"@))));
}

proof fn lemma_bits_next_words()
    ensures
        "        (local.set $cur (i32.add (local.get $cur) (i32.const 1)))\n"@ == (("  "@ + "  "@ + "  "@ + "  "@) + "(local.set $"@ + "cur"@ + " "@ + ("("@ + "i32.add"@
        + " "@ + ("(local.get $"@ + "cur"@ + ")"@) + " "@ + ("("@ + "i32.const"@ + " "@ + "1"@
        + ")"@) + ")"@) + ")"@) + "\n"@,
{
    reveal_strlit("        (local.set $cur (i32.add (local.get $cur) (i32.const 1)))\n");
    reveal_strlit("  ");
    reveal_strlit("(local.set $");
    reveal_strlit("cur");
    reveal_strlit(" ");
    reveal_strlit("(");
    reveal_strlit("i32.add");
    reveal_strlit("(local.get $");
    reveal_strlit(")");
    reveal_strlit("i32.const");
    reveal_strlit("1");
    reveal_strlit("\n");
    assert("        (local.set $cur (i32.add (local.get $cur) (i32.const 1)))\n"@ =~= (("  "@ + "  "@ + "  "@ + "  "@) + "(local.set $"@ + "cur"@ + " "@ + ("("@ + "i32.add"@
        + " "@ + ("(local.get $"@ + "cur"@ + ")"@) + " "@ + ("("@ + "i32.const"@ + " "@ + "1"@
        + ")"@) + ")"@) + ")"@) + "\n"@);
}

proof fn lemma_bits_next_filled(k: nat)
    ensures
        fill("        (local.set $cur (i32.add (local.get $cur) (i32.const 1)))\n"@, k) == (("  "@ + "  "@ + "  "@ + "  "@) + "(local.set $"@ + "cur"@ + " "@ + ("("@ + "i32.add"@
        + " "@ + ("(local.get $"@ + "cur"@ + ")"@) + " "@ + ("("@ + "i32.const"@ + " "@ + "1"@
        + ")"@) + ")"@) + ")"@) + "\n"@,
{
    broadcast use lemma_fill_add;

    lemma_bits_next_words();
    lemma_plain_words(k);
}

proof fn lemma_bits_next(k: nat)
    ensures
        squeezed(fill("        (local.set $cur (i32.add (local.get $cur) (i32.const 1)))\n"@, k)) == squeezed(code_text(step_by("1"@))),
{
    broadcast use {lemma_squeezed_add, lemma_add_nothing, lemma_nothing_add};

    lemma_blank_literals();
    lemma_bits_next_filled(k);
    lemma_bits_next_text(k);
}

proof fn lemma_bits_back_words()
    ensures
        "        (br $tail_continue)))\n"@ == (("  "@ + "  "@ + "  "@ + "  "@) + "(br $"@) + "tail_continue"@ + ")"@ + ")"@ + ")"@
        + "\n"@,
{
    reveal_strlit("        (br $tail_continue)))\n");
    reveal_strlit("  ");
    reveal_strlit("(br $");
    reveal_strlit("tail_continue");
    reveal_strlit(")");
    reveal_strlit("\n");
    assert("        (br $tail_continue)))\n"@ =~= (("  "@ + "  "@ + "  "@ + "  "@) + "(br $"@) + "tail_continue"@ + ")"@ + ")"@ + ")"@
        + "\n"@);
}

proof fn lemma_bits_back_filled(k: nat)
    ensures
        fill("        (br $tail_continue)))\n"@, k) == (("  "@ + "  "@ + "  "@ + "  "@) + "(br $"@) + "tail_continue"@ + ")"@ + ")"@ + ")"@
        + "\n"@,
{
    broadcast use lemma_fill_add;

    lemma_bits_back_words();
    lemma_plain_words(k);
}

proof fn lemma_bits_back(k: nat)
    ensures
        squeezed(fill("        (br $tail_continue)))\n"@, k)) == closing_text("tail_continue"@),
{
    broadcast use {lemma_squeezed_add, lemma_add_nothing, lemma_nothing_add};

    lemma_blank_literals();
    lemma_bits_back_filled(k);
}

proof fn lemma_bits_value_words()
    ensures
        "    (local.get $scalar))\n"@ == ((("  "@ + "  "@) + "(local.get $"@) + "scalar"@ + ")"@) + ")"@ + "\n"@,
{
    reveal_strlit("    (local.get $scalar))\n");
    reveal_strlit("  ");
    reveal_strlit("(local.get $");
    reveal_strlit("scalar");
    reveal_strlit(")");
    reveal_strlit("\n");
    assert("    (local.get $scalar))\n"@ =~= ((("  "@ + "  "@) + "(local.get $"@) + "scalar"@ + ")"@) + ")"@ + "\n"@);
}

proof fn lemma_bits_value_filled(k: nat)
    ensures
        fill("    (local.get $scalar))\n"@, k) == ((("  "@ + "  "@) + "(local.get $"@) + "scalar"@ + ")"@) + ")"@ + "\n"@,
{
    broadcast use lemma_fill_add;

    lemma_bits_value_words();
    lemma_plain_words(k);
}

proof fn lemma_bits_value(k: nat)
    ensures
        squeezed(fill("    (local.get $scalar))\n"@, k)) == squeezed(term_text(get("scalar"@))) + squeezed(")"@),
{
    broadcast use {lemma_squeezed_add, lemma_add_nothing, lemma_nothing_add};

    lemma_blank_literals();
    lemma_bits_value_filled(k);
    lemma_get_text("scalar"@);
}

#[verifier::rlimit(100)]
proof fn lemma_bits_template()
    ensures
        SIMD_POPCOUNT@ == "  (func $tvm_simd_popcount_p@ (export \"tvm_simd_popcount_p@\")\n        (param $off i32) (param $len i32) (result i64)\n    (local $cur i32) (local $end i32) (local $vec_end i32)\n    (local $acc v128) (local $tmp v128) (local $scalar i64)\n"@
        + "    (local.set $cur (local.get $off))\n"@
        + "    (local.set $end (i32.add (local.get $off) (local.get $len)))\n"@
        + "    (local.set $vec_end\n      (i32.add (local.get $off)\n               (i32.and (local.get $len) (i32.const -16))))\n"@
        + "    (local.set $acc (v128.const i64x2 0 0))\n"@
        + "    (block $vec_done\n      (loop $vec_continue\n        (br_if $vec_done (i32.eq (local.get $cur) (local.get $vec_end)))\n"@
        + "        (local.set $tmp\n          (i32x4.extadd_pairwise_i16x8_u\n            (i16x8.extadd_pairwise_i8x16_u\n              (i8x16.popcnt\n                (v128.load @ (local.get $cur))))))\n"@
        + "        (local.set $acc\n          (i64x2.add\n            (i64x2.add\n              (local.get $acc)\n              (i64x2.extend_low_i32x4_u (local.get $tmp)))\n            (i64x2.extend_high_i32x4_u (local.get $tmp))))\n"@
        + "        (local.set $cur (i32.add (local.get $cur) (i32.const 16)))\n"@
        + "        (br $vec_continue)))\n"@
        + "    (local.set $scalar\n      (i64.add\n        (i64x2.extract_lane 0 (local.get $acc))\n        (i64x2.extract_lane 1 (local.get $acc))))\n"@
        + "    (block $tail_done\n      (loop $tail_continue\n        (br_if $tail_done (i32.eq (local.get $cur) (local.get $end)))\n"@
        + "        (local.set $scalar\n          (i64.add (local.get $scalar)\n            (i64.extend_i32_u\n              (i32.popcnt (i32.load8_u @ (local.get $cur))))))\n"@
        + "        (local.set $cur (i32.add (local.get $cur) (i32.const 1)))\n"@
        + "        (br $tail_continue)))\n"@ + "    (local.get $scalar))\n"@,
{
    reveal_strlit("  (func $tvm_simd_popcount_p@ (export \"tvm_simd_popcount_p@\")\n        (param $off i32) (param $len i32) (result i64)\n    (local $cur i32) (local $end i32) (local $vec_end i32)\n    (local $acc v128) (local $tmp v128) (local $scalar i64)\n");
    reveal_strlit("    (local.set $cur (local.get $off))\n");
    reveal_strlit("    (local.set $end (i32.add (local.get $off) (local.get $len)))\n");
    reveal_strlit("    (local.set $vec_end\n      (i32.add (local.get $off)\n               (i32.and (local.get $len) (i32.const -16))))\n");
    reveal_strlit("    (local.set $acc (v128.const i64x2 0 0))\n");
    reveal_strlit("    (block $vec_done\n      (loop $vec_continue\n        (br_if $vec_done (i32.eq (local.get $cur) (local.get $vec_end)))\n");
    reveal_strlit("        (local.set $tmp\n          (i32x4.extadd_pairwise_i16x8_u\n            (i16x8.extadd_pairwise_i8x16_u\n              (i8x16.popcnt\n                (v128.load @ (local.get $cur))))))\n");
    reveal_strlit("        (local.set $acc\n          (i64x2.add\n            (i64x2.add\n              (local.get $acc)\n              (i64x2.extend_low_i32x4_u (local.get $tmp)))\n            (i64x2.extend_high_i32x4_u (local.get $tmp))))\n");
    reveal_strlit("        (local.set $cur (i32.add (local.get $cur) (i32.const 16)))\n");
    reveal_strlit("        (br $vec_continue)))\n");
    reveal_strlit("    (local.set $scalar\n      (i64.add\n        (i64x2.extract_lane 0 (local.get $acc))\n        (i64x2.extract_lane 1 (local.get $acc))))\n");
    reveal_strlit("    (block $tail_done\n      (loop $tail_continue\n        (br_if $tail_done (i32.eq (local.get $cur) (local.get $end)))\n");
    reveal_strlit("        (local.set $scalar\n          (i64.add (local.get $scalar)\n            (i64.extend_i32_u\n              (i32.popcnt (i32.load8_u @ (local.get $cur))))))\n");
    reveal_strlit("        (local.set $cur (i32.add (local.get $cur) (i32.const 1)))\n");
    reveal_strlit("        (br $tail_continue)))\n");
    reveal_strlit("    (local.get $scalar))\n");
    reveal_strlit(r#"  (func $tvm_simd_popcount_p@ (export "tvm_simd_popcount_p@")
        (param $off i32) (param $len i32) (result i64)
    (local $cur i32) (local $end i32) (local $vec_end i32)
    (local $acc v128) (local $tmp v128) (local $scalar i64)
    (local.set $cur (local.get $off))
    (local.set $end (i32.add (local.get $off) (local.get $len)))
    (local.set $vec_end
      (i32.add (local.get $off)
               (i32.and (local.get $len) (i32.const -16))))
    (local.set $acc (v128.const i64x2 0 0))
    (block $vec_done
      (loop $vec_continue
        (br_if $vec_done (i32.eq (local.get $cur) (local.get $vec_end)))
        (local.set $tmp
          (i32x4.extadd_pairwise_i16x8_u
            (i16x8.extadd_pairwise_i8x16_u
              (i8x16.popcnt
                (v128.load @ (local.get $cur))))))
        (local.set $acc
          (i64x2.add
            (i64x2.add
              (local.get $acc)
              (i64x2.extend_low_i32x4_u (local.get $tmp)))
            (i64x2.extend_high_i32x4_u (local.get $tmp))))
        (local.set $cur (i32.add (local.get $cur) (i32.const 16)))
        (br $vec_continue)))
    (local.set $scalar
      (i64.add
        (i64x2.extract_lane 0 (local.get $acc))
        (i64x2.extract_lane 1 (local.get $acc))))
    (block $tail_done
      (loop $tail_continue
        (br_if $tail_done (i32.eq (local.get $cur) (local.get $end)))
        (local.set $scalar
          (i64.add (local.get $scalar)
            (i64.extend_i32_u
              (i32.popcnt (i32.load8_u @ (local.get $cur))))))
        (local.set $cur (i32.add (local.get $cur) (i32.const 1)))
        (br $tail_continue)))
    (local.get $scalar))
"#);
    assert(SIMD_POPCOUNT@ =~= "  (func $tvm_simd_popcount_p@ (export \"tvm_simd_popcount_p@\")\n        (param $off i32) (param $len i32) (result i64)\n    (local $cur i32) (local $end i32) (local $vec_end i32)\n    (local $acc v128) (local $tmp v128) (local $scalar i64)\n"@
        + "    (local.set $cur (local.get $off))\n"@
        + "    (local.set $end (i32.add (local.get $off) (local.get $len)))\n"@
        + "    (local.set $vec_end\n      (i32.add (local.get $off)\n               (i32.and (local.get $len) (i32.const -16))))\n"@
        + "    (local.set $acc (v128.const i64x2 0 0))\n"@
        + "    (block $vec_done\n      (loop $vec_continue\n        (br_if $vec_done (i32.eq (local.get $cur) (local.get $vec_end)))\n"@
        + "        (local.set $tmp\n          (i32x4.extadd_pairwise_i16x8_u\n            (i16x8.extadd_pairwise_i8x16_u\n              (i8x16.popcnt\n                (v128.load @ (local.get $cur))))))\n"@
        + "        (local.set $acc\n          (i64x2.add\n            (i64x2.add\n              (local.get $acc)\n              (i64x2.extend_low_i32x4_u (local.get $tmp)))\n            (i64x2.extend_high_i32x4_u (local.get $tmp))))\n"@
        + "        (local.set $cur (i32.add (local.get $cur) (i32.const 16)))\n"@
        + "        (br $vec_continue)))\n"@
        + "    (local.set $scalar\n      (i64.add\n        (i64x2.extract_lane 0 (local.get $acc))\n        (i64x2.extract_lane 1 (local.get $acc))))\n"@
        + "    (block $tail_done\n      (loop $tail_continue\n        (br_if $tail_done (i32.eq (local.get $cur) (local.get $end)))\n"@
        + "        (local.set $scalar\n          (i64.add (local.get $scalar)\n            (i64.extend_i32_u\n              (i32.popcnt (i32.load8_u @ (local.get $cur))))))\n"@
        + "        (local.set $cur (i32.add (local.get $cur) (i32.const 1)))\n"@
        + "        (br $tail_continue)))\n"@ + "    (local.get $scalar))\n"@);
}

proof fn lemma_bits_fill(k: nat)
    ensures
        fill(SIMD_POPCOUNT@, k) == fill("  (func $tvm_simd_popcount_p@ (export \"tvm_simd_popcount_p@\")\n        (param $off i32) (param $len i32) (result i64)\n    (local $cur i32) (local $end i32) (local $vec_end i32)\n    (local $acc v128) (local $tmp v128) (local $scalar i64)\n"@, k)
        + fill("    (local.set $cur (local.get $off))\n"@, k)
        + fill("    (local.set $end (i32.add (local.get $off) (local.get $len)))\n"@, k)
        + fill("    (local.set $vec_end\n      (i32.add (local.get $off)\n               (i32.and (local.get $len) (i32.const -16))))\n"@, k)
        + fill("    (local.set $acc (v128.const i64x2 0 0))\n"@, k)
        + fill("    (block $vec_done\n      (loop $vec_continue\n        (br_if $vec_done (i32.eq (local.get $cur) (local.get $vec_end)))\n"@, k)
        + fill("        (local.set $tmp\n          (i32x4.extadd_pairwise_i16x8_u\n            (i16x8.extadd_pairwise_i8x16_u\n              (i8x16.popcnt\n                (v128.load @ (local.get $cur))))))\n"@, k)
        + fill("        (local.set $acc\n          (i64x2.add\n            (i64x2.add\n              (local.get $acc)\n              (i64x2.extend_low_i32x4_u (local.get $tmp)))\n            (i64x2.extend_high_i32x4_u (local.get $tmp))))\n"@, k)
        + fill("        (local.set $cur (i32.add (local.get $cur) (i32.const 16)))\n"@, k)
        + fill("        (br $vec_continue)))\n"@, k)
        + fill("    (local.set $scalar\n      (i64.add\n        (i64x2.extract_lane 0 (local.get $acc))\n        (i64x2.extract_lane 1 (local.get $acc))))\n"@, k)
        + fill("    (block $tail_done\n      (loop $tail_continue\n        (br_if $tail_done (i32.eq (local.get $cur) (local.get $end)))\n"@, k)
        + fill("        (local.set $scalar\n          (i64.add (local.get $scalar)\n            (i64.extend_i32_u\n              (i32.popcnt (i32.load8_u @ (local.get $cur))))))\n"@, k)
        + fill("        (local.set $cur (i32.add (local.get $cur) (i32.const 1)))\n"@, k)
        + fill("        (br $tail_continue)))\n"@, k) + fill("    (local.get $scalar))\n"@, k),
{
    broadcast use lemma_fill_add;

    lemma_bits_template();
}

proof fn lemma_bits_text(k: nat)
    ensures
        squeezed(fill(SIMD_POPCOUNT@, k)) == squeezed(kernel_text(kernel(true, "tvm_simd_popcount_p"@, k))),
{
    lemma_bits_fill(k);
    let p0 = fill("  (func $tvm_simd_popcount_p@ (export \"tvm_simd_popcount_p@\")\n        (param $off i32) (param $len i32) (result i64)\n    (local $cur i32) (local $end i32) (local $vec_end i32)\n    (local $acc v128) (local $tmp v128) (local $scalar i64)\n"@, k);
    lemma_bits_head(k);
    let p1 = fill("    (local.set $cur (local.get $off))\n"@, k);
    lemma_bits_cur(k);
    let p2 = fill("    (local.set $end (i32.add (local.get $off) (local.get $len)))\n"@, k);
    lemma_bits_end(k);
    let p3 = fill("    (local.set $vec_end\n      (i32.add (local.get $off)\n               (i32.and (local.get $len) (i32.const -16))))\n"@, k);
    lemma_bits_vec_end(k);
    let p4 = fill("    (local.set $acc (v128.const i64x2 0 0))\n"@, k);
    lemma_bits_acc(k);
    let p5 = fill("    (block $vec_done\n      (loop $vec_continue\n        (br_if $vec_done (i32.eq (local.get $cur) (local.get $vec_end)))\n"@, k);
    lemma_bits_vec(k);
    let p6 = fill("        (local.set $tmp\n          (i32x4.extadd_pairwise_i16x8_u\n            (i16x8.extadd_pairwise_i8x16_u\n              (i8x16.popcnt\n                (v128.load @ (local.get $cur))))))\n"@, k);
    lemma_bits_part(k);
    let p7 = fill("        (local.set $acc\n          (i64x2.add\n            (i64x2.add\n              (local.get $acc)\n              (i64x2.extend_low_i32x4_u (local.get $tmp)))\n            (i64x2.extend_high_i32x4_u (local.get $tmp))))\n"@, k);
    lemma_bits_add(k);
    let p8 = fill("        (local.set $cur (i32.add (local.get $cur) (i32.const 16)))\n"@, k);
    lemma_bits_step(k);
    let p9 = fill("        (br $vec_continue)))\n"@, k);
    lemma_bits_again(k);
    let p10 = fill("    (local.set $scalar\n      (i64.add\n        (i64x2.extract_lane 0 (local.get $acc))\n        (i64x2.extract_lane 1 (local.get $acc))))\n"@, k);
    lemma_bits_scalar(k);
    let p11 = fill("    (block $tail_done\n      (loop $tail_continue\n        (br_if $tail_done (i32.eq (local.get $cur) (local.get $end)))\n"@, k);
    lemma_bits_tail(k);
    let p12 = fill("        (local.set $scalar\n          (i64.add (local.get $scalar)\n            (i64.extend_i32_u\n              (i32.popcnt (i32.load8_u @ (local.get $cur))))))\n"@, k);
    lemma_bits_single(k);
    let p13 = fill("        (local.set $cur (i32.add (local.get $cur) (i32.const 1)))\n"@, k);
    lemma_bits_next(k);
    let p14 = fill("        (br $tail_continue)))\n"@, k);
    lemma_bits_back(k);
    let p15 = fill("    (local.get $scalar))\n"@, k);
    lemma_bits_value(k);
    lemma_squeezed_add(p0, p1);
    lemma_squeezed_add(p0 + p1, p2);
    lemma_squeezed_add(p0 + p1 + p2, p3);
    lemma_squeezed_add(p0 + p1 + p2 + p3, p4);
    lemma_squeezed_add(p0 + p1 + p2 + p3 + p4, p5);
    lemma_squeezed_add(p0 + p1 + p2 + p3 + p4 + p5, p6);
    lemma_squeezed_add(p0 + p1 + p2 + p3 + p4 + p5 + p6, p7);
    lemma_squeezed_add(p0 + p1 + p2 + p3 + p4 + p5 + p6 + p7, p8);
    lemma_squeezed_add(p0 + p1 + p2 + p3 + p4 + p5 + p6 + p7 + p8, p9);
    lemma_squeezed_add(p0 + p1 + p2 + p3 + p4 + p5 + p6 + p7 + p8 + p9, p10);
    lemma_squeezed_add(p0 + p1 + p2 + p3 + p4 + p5 + p6 + p7 + p8 + p9 + p10, p11);
    lemma_squeezed_add(p0 + p1 + p2 + p3 + p4 + p5 + p6 + p7 + p8 + p9 + p10 + p11, p12);
    lemma_squeezed_add(p0 + p1 + p2 + p3 + p4 + p5 + p6 + p7 + p8 + p9 + p10 + p11 + p12, p13);
    lemma_squeezed_add(p0 + p1 + p2 + p3 + p4 + p5 + p6 + p7 + p8 + p9 + p10 + p11 + p12 + p13, p14);
    lemma_squeezed_add(p0 + p1 + p2 + p3 + p4 + p5 + p6 + p7 + p8 + p9 + p10 + p11 + p12 + p13 + p14, p15);
    lemma_kernel_text(true, "tvm_simd_popcount_p"@, k);
    lemma_regroup(
        squeezed(p0),
        squeezed(p1),
        squeezed(p2),
        squeezed(p3),
        squeezed(p4),
        squeezed(p5),
        squeezed(p6),
        squeezed(p7),
        squeezed(p8),
        squeezed(p9),
        squeezed(p10),
        squeezed(p11),
        squeezed(p12),
        squeezed(p13),
        squeezed(p14),
        squeezed(term_text(get("scalar"@))),
        squeezed(")"@),
    );
}

// ---------------------------------------------------------------------------
// In a module
// ---------------------------------------------------------------------------

/// The kernel of pool `k` hands out what the bytes of the range count together, whatever the
/// memories hold: their sum, or the number of their one bits.
pub open spec fn adds_up(f: Kernel, k: nat, bits: bool) -> bool {
    forall|mems: Seq<Seq<u8>>, off: nat, len: nat|
        k < mems.len() && off < 0x1_0000_0000 && len < 0x1_0000_0000 && off + len
            <= mems[k as int].len() && mems[k as int].len() <= 0x1_0000_0000 ==> #[trigger] ran(
            f,
            args2(off, len),
            mems,
            len,
        ) == Some(Val::N(measured(bits, mems[k as int], off as int, len)))
}

/// The text holds a kernel of this name that adds up ranges of pool `k`.
pub open spec fn has_adding_kernel(text: Seq<char>, stem: Seq<char>, k: nat, bits: bool) -> bool {
    exists|f: Kernel|
        f.name == pool_name(stem, k) && #[trigger] holds_part(text, kernel_text(f)) && adds_up(
            f,
            k,
            bits,
        )
}

proof fn lemma_in_per_pool(template: Seq<char>, n: int, k: int, part: Seq<char>)
    requires
        0 <= k < n,
        holds_part(fill(template, k as nat), part),
    ensures
        holds_part(per_pool(template, n), part),
    decreases n,
{
    let before = per_pool(template, n - 1);
    let last = fill(template, (n - 1) as nat);
    if k < n - 1 {
        lemma_in_per_pool(template, n - 1, k, part);
        lemma_holds_left(before, last, part);
    } else {
        lemma_holds_right(before, last, part);
    }
}

pub(crate) proof fn lemma_module_end(p: ModuleParams, g: Seq<char>, part: Seq<char>)
    requires
        holds_part(g, part),
    ensures
        holds_part(with_body(g, p.user_body@), part),
{
    let h = g + "\n  ;; --- user body begins ---\n"@;
    let i = h + p.user_body@;
    let j = i + "\n  ;; --- user body ends ---\n"@;
    lemma_holds_left(g, "\n  ;; --- user body begins ---\n"@, part);
    lemma_holds_left(h, p.user_body@, part);
    lemma_holds_left(i, "\n  ;; --- user body ends ---\n"@, part);
    lemma_holds_left(j, ")\n"@, part);
}

/// Every module has, for each of its pools, a kernel that sums the bytes of a range: each byte
/// of the range counts once, whatever the length and the place of the range.
pub proof fn law_module_sums_ranges(p: ModuleParams, k: nat)
    requires
        k < p.n_pools,
    ensures
        has_adding_kernel(module_text(p), "tvm_simd_sum_u8_p"@, k, false),
{
    let n = p.n_pools;
    let f = kernel(false, "tvm_simd_sum_u8_p"@, k);
    let part = kernel_text(f);
    lemma_sum_text(k);
    lemma_holds_itself(fill(SIMD_SUM_U8@, k), part);
    lemma_in_per_pool(SIMD_SUM_U8@, n as int, k as int, part);
    let out = with_memories(
        "(module\n"@,
        p.initial_pages_per_pool,
        p.max_pages_per_pool,
        n as int,
    ) + "\n"@;
    let d = with_dispatchers(out, n) + typed_helpers_text(n as int) + per_pool(
        INTRA_POOL_COPY@,
        n as int,
    ) + indirect_text(n);
    let sums = per_pool(SIMD_SUM_U8@, n as int);
    lemma_holds_right(d, sums, part);
    lemma_holds_left(d + sums, reducers_text(n as int), part);
    lemma_module_end(p, d + sums + reducers_text(n as int), part);
    lemma_adds_up(false, "tvm_simd_sum_u8_p"@, k);
}

proof fn lemma_adds_up(bits: bool, stem: Seq<char>, k: nat)
    ensures
        adds_up(kernel(bits, stem, k), k, bits),
{
    let f = kernel(bits, stem, k);
    assert forall|mems: Seq<Seq<u8>>, off: nat, len: nat|
        k < mems.len() && off < 0x1_0000_0000 && len < 0x1_0000_0000 && off + len
            <= mems[k as int].len() && mems[k as int].len() <= 0x1_0000_0000 implies #[trigger] ran(
        f,
        args2(off, len),
        mems,
        len,
    ) == Some(Val::N(measured(bits, mems[k as int], off as int, len))) by {
        lemma_kernel(bits, stem, k, mems, off, len);
    }
}

/// The reducers of one pool.
spec fn reducers_of(k: nat) -> Seq<char> {
    fill(SIMD_XOR_FOLD@, k) + fill(SIMD_AND_FOLD@, k) + fill(SIMD_OR_FOLD@, k) + fill(
        SIMD_COUNT_BYTE@,
        k,
    ) + fill(SIMD_POPCOUNT@, k) + fill(SIMD_FIND_BYTE@, k) + fill(SIMD_MIN_MAX@, k)
}

proof fn lemma_seven(
    t: Seq<char>,
    a: Seq<char>,
    b: Seq<char>,
    c: Seq<char>,
    d: Seq<char>,
    e: Seq<char>,
    f: Seq<char>,
    g: Seq<char>,
)
    ensures
        t + a + b + c + d + e + f + g == t + (a + b + c + d + e + f + g),
{
    broadcast use lemma_add_assoc;

}

proof fn lemma_in_reducers(n: int, k: int, part: Seq<char>)
    requires
        0 <= k < n,
        holds_part(reducers_of(k as nat), part),
    ensures
        holds_part(reducers_text(n), part),
    decreases n,
{
    let before = reducers_text(n - 1);
    let j = (n - 1) as nat;
    lemma_seven(
        before,
        fill(SIMD_XOR_FOLD@, j),
        fill(SIMD_AND_FOLD@, j),
        fill(SIMD_OR_FOLD@, j),
        fill(SIMD_COUNT_BYTE@, j),
        fill(SIMD_POPCOUNT@, j),
        fill(SIMD_FIND_BYTE@, j),
        fill(SIMD_MIN_MAX@, j),
    );
    assert(reducers_text(n) == before + reducers_of(j));
    if k < n - 1 {
        lemma_in_reducers(n - 1, k, part);
        lemma_holds_left(before, reducers_of(j), part);
    } else {
        lemma_holds_right(before, reducers_of(j), part);
    }
}

/// What the reducers of a pool hold, every module holds.
pub(crate) proof fn lemma_reducers_in_module(p: ModuleParams, k: nat, part: Seq<char>)
    requires
        k < p.n_pools,
        holds_part(fill(SIMD_XOR_FOLD@, k), part) || holds_part(fill(SIMD_AND_FOLD@, k), part)
            || holds_part(fill(SIMD_OR_FOLD@, k), part) || holds_part(
            fill(SIMD_COUNT_BYTE@, k),
            part,
        ) || holds_part(fill(SIMD_POPCOUNT@, k), part) || holds_part(
            fill(SIMD_FIND_BYTE@, k),
            part,
        ) || holds_part(fill(SIMD_MIN_MAX@, k), part),
    ensures
        holds_part(module_text(p), part),
{
    let n = p.n_pools;
    let a = fill(SIMD_XOR_FOLD@, k);
    let b = a + fill(SIMD_AND_FOLD@, k);
    let c = b + fill(SIMD_OR_FOLD@, k);
    let d = c + fill(SIMD_COUNT_BYTE@, k);
    let e = d + fill(SIMD_POPCOUNT@, k);
    let f = e + fill(SIMD_FIND_BYTE@, k);
    lemma_either(a, fill(SIMD_AND_FOLD@, k), part);
    lemma_either(b, fill(SIMD_OR_FOLD@, k), part);
    lemma_either(c, fill(SIMD_COUNT_BYTE@, k), part);
    lemma_either(d, fill(SIMD_POPCOUNT@, k), part);
    lemma_either(e, fill(SIMD_FIND_BYTE@, k), part);
    lemma_either(f, fill(SIMD_MIN_MAX@, k), part);
    lemma_in_reducers(n as int, k as int, part);
    let out = with_memories(
        "(module\n"@,
        p.initial_pages_per_pool,
        p.max_pages_per_pool,
        n as int,
    ) + "\n"@;
    let front = with_dispatchers(out, n) + typed_helpers_text(n as int) + per_pool(
        INTRA_POOL_COPY@,
        n as int,
    ) + indirect_text(n) + per_pool(SIMD_SUM_U8@, n as int);
    lemma_holds_right(front, reducers_text(n as int), part);
    lemma_module_end(p, front + reducers_text(n as int), part);
}

proof fn lemma_either(a: Seq<char>, b: Seq<char>, part: Seq<char>)
    ensures
        holds_part(a, part) || holds_part(b, part) ==> holds_part(a + b, part),
{
    if holds_part(a, part) {
        lemma_holds_left(a, b, part);
    } else if holds_part(b, part) {
        lemma_holds_right(a, b, part);
    }
}

/// Every module has, for each of its pools, a kernel that counts the one bits of a range.
pub proof fn law_module_counts_bits(p: ModuleParams, k: nat)
    requires
        k < p.n_pools,
    ensures
        has_adding_kernel(module_text(p), "tvm_simd_popcount_p"@, k, true),
{
    let f = kernel(true, "tvm_simd_popcount_p"@, k);
    lemma_bits_text(k);
    lemma_holds_itself(fill(SIMD_POPCOUNT@, k), kernel_text(f));
    lemma_reducers_in_module(p, k, kernel_text(f));
    lemma_adds_up(true, "tvm_simd_popcount_p"@, k);
}

} // verus!
