//! The part of the WebAssembly text format that the kernels are written in, with its meaning:
//! loops, and values of 128 bits beside plain numbers.
use vstd::prelude::*;
use crate::text::decimal;
use super::meaning::{bytes_of, declared_text, number_of, power};

verus! {

// ---------------------------------------------------------------------------
// Syntax
// ---------------------------------------------------------------------------

/// An expression.
pub enum Term {
    /// `(local.get $x)`
    Get(Seq<char>),
    /// `(op word)`
    Lit(Seq<char>, Seq<char>),
    /// `(op a)`
    Un(Seq<char>, Box<Term>),
    /// `(op a b)`
    Bin(Seq<char>, Box<Term>, Box<Term>),
    /// `(op memory address)`
    Load(Seq<char>, nat, Box<Term>),
}

/// A statement.
pub enum Code {
    /// `(local.set $x value)`
    Assign(Seq<char>, Term),
    /// `(block $out (loop $again (br_if $out condition) body (br $again)))`
    Until(Seq<char>, Seq<char>, Term, Box<Code>),
    /// `(if condition (then s))`
    When(Term, Box<Code>),
    /// `(if condition (then (return value)))`
    Exit(Term, Term),
    /// One after the other.
    Both(Box<Code>, Box<Code>),
}

/// A function that is exported under its own name. It runs its code, and then hands out its
/// value. Its locals start at zero.
pub struct Kernel {
    pub name: Seq<char>,
    /// Names and types.
    pub params: Seq<(Seq<char>, Seq<char>)>,
    pub result: Seq<char>,
    /// Names and types.
    pub locals: Seq<(Seq<char>, Seq<char>)>,
    pub code: Code,
    pub value: Term,
}

pub open spec fn term_text(e: Term) -> Seq<char>
    decreases e,
{
    match e {
        Term::Get(x) => "(local.get $"@ + x + ")"@,
        Term::Lit(op, word) => "("@ + op + " "@ + word + ")"@,
        Term::Un(op, a) => "("@ + op + " "@ + term_text(*a) + ")"@,
        Term::Bin(op, a, b) => "("@ + op + " "@ + term_text(*a) + " "@ + term_text(*b) + ")"@,
        Term::Load(op, k, a) => "("@ + op + " "@ + decimal(k) + " "@ + term_text(*a) + ")"@,
    }
}

pub open spec fn code_text(s: Code) -> Seq<char>
    decreases s,
{
    match s {
        Code::Assign(x, e) => "(local.set $"@ + x + " "@ + term_text(e) + ")"@,
        Code::Until(out, again, c, s) => "(block $"@ + out + " (loop $"@ + again + " (br_if $"@
            + out + " "@ + term_text(c) + ")"@ + code_text(*s) + "(br $"@ + again + ")"@ + ")"@
            + ")"@,
        Code::When(c, s) => "(if "@ + term_text(c) + " (then "@ + code_text(*s) + ")"@ + ")"@,
        Code::Exit(c, v) => "(if "@ + term_text(c) + " (then "@ + "(return "@ + term_text(v) + ")"@
            + ")"@ + ")"@,
        Code::Both(s, t) => code_text(*s) + code_text(*t),
    }
}

pub open spec fn kernel_text(f: Kernel) -> Seq<char> {
    "(func $"@ + f.name + " (export \""@ + f.name + "\")"@ + declared_text(
        "param"@,
        f.params,
        f.params.len() as int,
    ) + "(result "@ + f.result + ")"@ + declared_text("local"@, f.locals, f.locals.len() as int)
        + code_text(f.code) + term_text(f.value) + ")"@
}

// ---------------------------------------------------------------------------
// Meaning
// ---------------------------------------------------------------------------

/// A plain number, or the sixteen bytes of a value of 128 bits, the lowest first.
pub enum Val {
    N(nat),
    V(Seq<u8>),
}

/// The value of 128 bits that is zero.
pub open spec fn all_zero() -> Seq<u8> {
    Seq::new(16, |i: int| 0u8)
}

/// The lane of `w` bytes at place `i`.
pub open spec fn lane(v: Seq<u8>, w: nat, i: int) -> nat {
    number_of(v.subrange(w * i, w * i + w))
}

/// The bytes of lanes of `w` bytes each.
pub open spec fn of_lanes(w: nat, lanes: Seq<nat>) -> Seq<u8>
    decreases lanes.len(),
{
    if lanes.len() == 0 {
        Seq::empty()
    } else {
        of_lanes(w, lanes.drop_last()) + bytes_of(lanes.last(), w)
    }
}

/// The number of one bits.
pub open spec fn ones(n: nat) -> nat
    decreases n,
{
    if n == 0 {
        0
    } else {
        n % 2 + ones(n / 2)
    }
}

/// The sums of neighbours among the lanes of `w` bytes, in lanes twice as wide.
pub open spec fn pairs_added(v: Seq<u8>, w: nat) -> Seq<u8> {
    of_lanes(2 * w, Seq::new(8nat / w, |i: int| lane(v, w, 2 * i) + lane(v, w, 2 * i + 1)))
}

/// Two lanes of four bytes, from the given one on, in lanes of eight.
pub open spec fn widened(v: Seq<u8>, from: int) -> Seq<u8> {
    of_lanes(8, Seq::new(2, |i: int| lane(v, 4, i + from)))
}

/// The sums of the lanes of eight bytes.
pub open spec fn lanes_added(x: Seq<u8>, y: Seq<u8>) -> Seq<u8> {
    of_lanes(
        8,
        Seq::new(2, |i: int| (lane(x, 8, i) + lane(y, 8, i)) % 0x1_0000_0000_0000_0000),
    )
}

/// The number of one bits of each byte.
pub open spec fn bits_counted(v: Seq<u8>) -> Seq<u8> {
    Seq::new(16, |i: int| ones(v[i] as nat) as u8)
}

/// The top bits of the bytes from `i` on, the lowest first.
pub open spec fn top_bits(v: Seq<u8>, i: int) -> nat
    decreases 16 - i,
{
    if i >= 16 {
        0
    } else {
        (if v[i] >= 128 { 1nat } else { 0 }) + 2 * top_bits(v, i + 1)
    }
}

/// The number of zero bits below the lowest one bit.
pub open spec fn low_zeros(n: nat) -> nat
    decreases n,
{
    if n == 0 {
        32
    } else if n % 2 == 1 {
        0
    } else {
        1 + low_zeros(n / 2)
    }
}

/// What a constant stands for.
pub open spec fn constant(op: Seq<char>, word: Seq<char>) -> Option<Val> {
    if op == "i32.const"@ && word == "1"@ {
        Some(Val::N(1))
    } else if op == "i32.const"@ && word == "16"@ {
        Some(Val::N(16))
    } else if op == "i32.const"@ && word == "-16"@ {
        Some(Val::N(0xffff_fff0))
    } else if op == "v128.const"@ && word == "i64x2 0 0"@ {
        Some(Val::V(all_zero()))
    } else if op == "v128.const"@ && word == "i64x2 -1 -1"@ {
        Some(Val::V(Seq::new(16, |i: int| 0xffu8)))
    } else if op == "i32.const"@ && word == "0xff"@ {
        Some(Val::N(0xff))
    } else if op == "i32.const"@ && word == "0"@ {
        Some(Val::N(0))
    } else if op == "i32.const"@ && word == "-1"@ {
        Some(Val::N(0xffff_ffff))
    } else if op == "i64.const"@ && word == "32"@ {
        Some(Val::N(32))
    } else if op == "i64.const"@ && word == "16"@ {
        Some(Val::N(16))
    } else if op == "i64.const"@ && word == "8"@ {
        Some(Val::N(8))
    } else {
        None
    }
}

/// The operations on one value.
pub open spec fn applied(op: Seq<char>, a: Val) -> Option<Val> {
    match a {
        Val::V(v) => if op == "i16x8.extadd_pairwise_i8x16_u"@ {
            Some(Val::V(pairs_added(v, 1)))
        } else if op == "i32x4.extadd_pairwise_i16x8_u"@ {
            Some(Val::V(pairs_added(v, 2)))
        } else if op == "i64x2.extend_low_i32x4_u"@ {
            Some(Val::V(widened(v, 0)))
        } else if op == "i64x2.extend_high_i32x4_u"@ {
            Some(Val::V(widened(v, 2)))
        } else if op == "i8x16.popcnt"@ {
            Some(Val::V(bits_counted(v)))
        } else if op == "i64x2.extract_lane 0"@ {
            Some(Val::N(lane(v, 8, 0)))
        } else if op == "i64x2.extract_lane 1"@ {
            Some(Val::N(lane(v, 8, 1)))
        } else if op == "i8x16.bitmask"@ {
            Some(Val::N(top_bits(v, 0)))
        } else {
            None
        },
        Val::N(n) => if op == "i32.popcnt"@ {
            Some(Val::N(ones(n)))
        } else if op == "i64.extend_i32_u"@ {
            Some(Val::N(n))
        } else if op == "i32.wrap_i64"@ {
            Some(Val::N(n % 0x1_0000_0000))
        } else if op == "i32.ctz"@ {
            Some(Val::N(low_zeros(n)))
        } else if op == "i8x16.splat"@ {
            Some(Val::V(Seq::new(16, |i: int| (n % 256) as u8)))
        } else {
            None
        },
    }
}

/// The operations on two values.
pub open spec fn combined(op: Seq<char>, a: Val, b: Val) -> Option<Val> {
    match (a, b) {
        (Val::N(x), Val::N(y)) => if op == "i32.add"@ {
            Some(Val::N((x + y) % 0x1_0000_0000))
        } else if op == "i64.add"@ {
            Some(Val::N((x + y) % 0x1_0000_0000_0000_0000))
        } else if op == "i32.and"@ {
            Some(Val::N((x as u32 & y as u32) as nat))
        } else if op == "i32.eq"@ {
            Some(Val::N(if x == y { 1 } else { 0 }))
        } else if op == "i32.ne"@ {
            Some(Val::N(if x != y { 1 } else { 0 }))
        } else if op == "i32.sub"@ {
            Some(Val::N(((x - y) % 0x1_0000_0000) as nat))
        } else if op == "i64.shr_u"@ {
            Some(Val::N((x as u64 >> (y % 64) as u64) as nat))
        } else if op == "i32.xor"@ {
            Some(Val::N((x as u32 ^ y as u32) as nat))
        } else if op == "i32.or"@ {
            Some(Val::N((x as u32 | y as u32) as nat))
        } else if op == "i64.xor"@ {
            Some(Val::N((x as u64 ^ y as u64) as nat))
        } else if op == "i64.or"@ {
            Some(Val::N((x as u64 | y as u64) as nat))
        } else if op == "i64.and"@ {
            Some(Val::N((x as u64 & y as u64) as nat))
        } else {
            None
        },
        (Val::V(x), Val::V(y)) => if op == "i64x2.add"@ {
            Some(Val::V(lanes_added(x, y)))
        } else if op == "v128.xor"@ {
            Some(Val::V(Seq::new(16, |i: int| x[i] ^ y[i])))
        } else if op == "v128.or"@ {
            Some(Val::V(Seq::new(16, |i: int| x[i] | y[i])))
        } else if op == "v128.and"@ {
            Some(Val::V(Seq::new(16, |i: int| x[i] & y[i])))
        } else if op == "i8x16.eq"@ {
            Some(Val::V(Seq::new(16, |i: int| if x[i] == y[i] { 0xffu8 } else { 0 })))
        } else {
            None
        },
        _ => None,
    }
}

/// The value of an expression; none where it traps.
pub open spec fn term_value(e: Term, env: Map<Seq<char>, Val>, mems: Seq<Seq<u8>>) -> Option<Val>
    decreases e,
{
    match e {
        Term::Get(x) => if env.contains_key(x) {
            Some(env[x])
        } else {
            None
        },
        Term::Lit(op, word) => constant(op, word),
        Term::Un(op, a) => match term_value(*a, env, mems) {
            Some(x) => applied(op, x),
            None => None,
        },
        Term::Bin(op, a, b) => match (term_value(*a, env, mems), term_value(*b, env, mems)) {
            (Some(x), Some(y)) => combined(op, x, y),
            _ => None,
        },
        Term::Load(op, k, a) => match term_value(*a, env, mems) {
            Some(Val::N(at)) => if k >= mems.len() {
                None
            } else if op == "v128.load"@ && at + 16 <= mems[k as int].len() {
                Some(Val::V(mems[k as int].subrange(at as int, at as int + 16)))
            } else if (op == "i64.load8_u"@ || op == "i32.load8_u"@) && at < mems[k as int].len() {
                Some(Val::N(mems[k as int][at as int] as nat))
            } else {
                None
            },
            _ => None,
        },
    }
}

/// What a statement does to the locals; nothing where it traps, may leave the function, or a
/// loop has not come to its end after `fuel` rounds.
pub open spec fn code_done(
    s: Code,
    env: Map<Seq<char>, Val>,
    mems: Seq<Seq<u8>>,
    fuel: nat,
) -> Option<Map<Seq<char>, Val>>
    decreases s, fuel,
{
    match s {
        Code::Assign(x, e) => match term_value(e, env, mems) {
            Some(v) => Some(env.insert(x, v)),
            None => None,
        },
        Code::Until(_, _, c, body) => match term_value(c, env, mems) {
            Some(Val::N(x)) => if x != 0 {
                Some(env)
            } else if fuel == 0 {
                None
            } else {
                match code_done(*body, env, mems, fuel) {
                    Some(e2) => code_done(s, e2, mems, (fuel - 1) as nat),
                    None => None,
                }
            },
            _ => None,
        },
        Code::When(c, body) => match term_value(c, env, mems) {
            Some(Val::N(x)) => if x != 0 {
                code_done(*body, env, mems, fuel)
            } else {
                Some(env)
            },
            _ => None,
        },
        Code::Exit(_, _) => None,
        Code::Both(s, t) => match code_done(*s, env, mems, fuel) {
            Some(e2) => code_done(*t, e2, mems, fuel),
            None => None,
        },
    }
}

/// How a statement ends: it goes on with these locals, or leaves the function with a value.
pub enum End {
    On(Map<Seq<char>, Val>),
    Out(Val),
}

/// How a statement ends that may leave the function; nothing where it traps or a loop has not
/// come to its end after `fuel` rounds.
pub open spec fn code_end(
    s: Code,
    env: Map<Seq<char>, Val>,
    mems: Seq<Seq<u8>>,
    fuel: nat,
) -> Option<End>
    decreases s, fuel,
{
    match s {
        Code::Assign(x, e) => match term_value(e, env, mems) {
            Some(v) => Some(End::On(env.insert(x, v))),
            None => None,
        },
        Code::Until(_, _, c, body) => match term_value(c, env, mems) {
            Some(Val::N(x)) => if x != 0 {
                Some(End::On(env))
            } else if fuel == 0 {
                None
            } else {
                match code_end(*body, env, mems, fuel) {
                    Some(End::On(e2)) => code_end(s, e2, mems, (fuel - 1) as nat),
                    other => other,
                }
            },
            _ => None,
        },
        Code::When(c, body) => match term_value(c, env, mems) {
            Some(Val::N(x)) => if x != 0 {
                code_end(*body, env, mems, fuel)
            } else {
                Some(End::On(env))
            },
            _ => None,
        },
        Code::Exit(c, v) => match term_value(c, env, mems) {
            Some(Val::N(x)) => if x == 0 {
                Some(End::On(env))
            } else {
                match term_value(v, env, mems) {
                    Some(out) => Some(End::Out(out)),
                    None => None,
                }
            },
            _ => None,
        },
        Code::Both(s, t) => match code_end(*s, env, mems, fuel) {
            Some(End::On(e2)) => code_end(*t, e2, mems, fuel),
            other => other,
        },
    }
}

/// Code that does not leave the function goes on.
pub proof fn lemma_goes_on(s: Code, env: Map<Seq<char>, Val>, mems: Seq<Seq<u8>>, fuel: nat)
    ensures
        code_done(s, env, mems, fuel) matches Some(e) ==> code_end(s, env, mems, fuel) == Some(
            End::On(e),
        ),
    decreases s, fuel,
{
    match s {
        Code::Until(_, _, c, body) => {
            if fuel > 0 {
                lemma_goes_on(*body, env, mems, fuel);
                if code_done(*body, env, mems, fuel) is Some {
                    lemma_goes_on(s, code_done(*body, env, mems, fuel)->0, mems, (fuel - 1) as nat);
                }
            }
        },
        Code::When(c, body) => {
            lemma_goes_on(*body, env, mems, fuel);
        },
        Code::Both(a, b) => {
            lemma_goes_on(*a, env, mems, fuel);
            if code_done(*a, env, mems, fuel) is Some {
                lemma_goes_on(*b, code_done(*a, env, mems, fuel)->0, mems, fuel);
            }
        },
        _ => {},
    }
}

/// What a call hands out that may leave early; nothing where it traps, or where a loop has not
/// come to its end after `fuel` rounds.
pub open spec fn came_out(f: Kernel, args: Seq<nat>, mems: Seq<Seq<u8>>, fuel: nat) -> Option<Val> {
    if args.len() != f.params.len() {
        None
    } else {
        match code_end(f.code, entered(f, args, f.locals.len() as int), mems, fuel) {
            Some(End::On(env)) => term_value(f.value, env, mems),
            Some(End::Out(v)) => Some(v),
            None => None,
        }
    }
}

/// What a local of this type holds at first.
pub open spec fn zero_of(ty: Seq<char>) -> Val {
    if ty == "v128"@ {
        Val::V(all_zero())
    } else {
        Val::N(0)
    }
}

/// The parameters, bound to the arguments, and the first `n` locals.
pub open spec fn entered(f: Kernel, args: Seq<nat>, n: int) -> Map<Seq<char>, Val>
    decreases n,
{
    if n <= 0 {
        bound_params(f.params, args, f.params.len() as int)
    } else {
        entered(f, args, n - 1).insert(f.locals[n - 1].0, zero_of(f.locals[n - 1].1))
    }
}

/// The first `n` parameters, bound to the arguments.
pub open spec fn bound_params(
    params: Seq<(Seq<char>, Seq<char>)>,
    args: Seq<nat>,
    n: int,
) -> Map<Seq<char>, Val>
    decreases n,
{
    if n <= 0 {
        Map::empty()
    } else {
        bound_params(params, args, n - 1).insert(params[n - 1].0, Val::N(args[n - 1]))
    }
}

/// What a call hands out; nothing where it traps, or where a loop has not come to its end
/// after `fuel` rounds.
pub open spec fn ran(f: Kernel, args: Seq<nat>, mems: Seq<Seq<u8>>, fuel: nat) -> Option<Val> {
    if args.len() != f.params.len() {
        None
    } else {
        match code_done(f.code, entered(f, args, f.locals.len() as int), mems, fuel) {
            Some(env) => term_value(f.value, env, mems),
            None => None,
        }
    }
}

// ---------------------------------------------------------------------------
// Lanes
// ---------------------------------------------------------------------------

/// What lanes are made of is what they hold.
pub proof fn lemma_lanes(w: nat, lanes: Seq<nat>, i: int)
    requires
        w > 0,
        0 <= i < lanes.len(),
        forall|j: int| 0 <= j < lanes.len() ==> #[trigger] lanes[j] < power(w),
    ensures
        lane(of_lanes(w, lanes), w, i) == lanes[i],
        of_lanes(w, lanes).len() == w * lanes.len(),
    decreases lanes.len(),
{
    let rest = lanes.drop_last();
    let n = rest.len();
    let all = of_lanes(w, lanes);
    let before = of_lanes(w, rest);
    let last = bytes_of(lanes.last(), w);
    super::meaning::lemma_number_mod(lanes.last(), w);
    assert(last.len() == w);
    if n > 0 {
        lemma_lanes(w, rest, 0);
    } else {
        assert(before.len() == 0);
        assert(w * n == 0) by (nonlinear_arith)
            requires
                n == 0,
        ;
    }
    assert(before.len() == w * n);
    assert(w * n + w == w * (n + 1)) by (nonlinear_arith);
    if i < n {
        lemma_lanes(w, rest, i);
        assert(0 <= w * i && w * i + w <= w * n) by (nonlinear_arith)
            requires
                0 <= i < n,
                w > 0,
        ;
        assert(all.subrange(w * i, w * i + w) =~= before.subrange(w * i, w * i + w));
    } else {
        assert(all.subrange(w * i, w * i + w) =~= last);
        assert(lanes[i] < power(w));
    }
}

pub proof fn lemma_lane_bound(v: Seq<u8>, w: nat, i: int)
    requires
        0 <= w * i,
        w * i + w <= v.len(),
    ensures
        lane(v, w, i) < power(w),
{
    lemma_number_bound(v.subrange(w * i, w * i + w));
}

proof fn lemma_number_bound(b: Seq<u8>)
    ensures
        number_of(b) < power(b.len()),
    decreases b.len(),
{
    if b.len() > 0 {
        lemma_number_bound(b.skip(1));
    }
}

pub proof fn lemma_byte_lane(v: Seq<u8>, i: int)
    requires
        0 <= i < v.len(),
    ensures
        lane(v, 1, i) == v[i],
{
    let b = v.subrange(1 * i, 1 * i + 1);
    assert(b =~= seq![v[i]]);
    assert(b.skip(1) =~= Seq::<u8>::empty());
    reveal_with_fuel(number_of, 2);
}

pub proof fn lemma_powers()
    ensures
        power(1) == 0x100,
        power(2) == 0x1_0000,
        power(4) == 0x1_0000_0000,
        power(8) == 0x1_0000_0000_0000_0000,
{
    reveal_with_fuel(power, 10);
}

pub proof fn lemma_ones_small(n: nat)
    requires
        n < 256,
    ensures
        ones(n) <= 8,
{
    reveal_with_fuel(ones, 10);
}

} // verus!
