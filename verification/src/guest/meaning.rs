//! The part of the WebAssembly text format that the dispatchers are written in, with
//! its meaning: expressions, statements and functions over several memories, how they are
//! written down, and what they compute.
use vstd::prelude::*;
use crate::text::decimal;

verus! {

// ---------------------------------------------------------------------------
// Syntax
// ---------------------------------------------------------------------------

/// An expression.
pub enum Expr {
    /// `(local.get $x)`
    Get(Seq<char>),
    /// `(i32.const n)`
    Num(nat),
    /// `(op a b)`
    Bin(Seq<char>, Box<Expr>, Box<Expr>),
    /// `(op memory address)`
    Load(Seq<char>, nat, Box<Expr>),
    /// `(memory.size memory)`
    Size(nat),
    /// `(if (result type) condition (then a) (else b))`
    Pick(Seq<char>, Box<Expr>, Box<Expr>, Box<Expr>),
}

/// A statement.
pub enum Stmt {
    Nothing,
    /// `unreachable`
    Trap,
    /// `(local.set $x value)`
    Assign(Seq<char>, Expr),
    /// `(op memory address value)`
    Store(Seq<char>, nat, Expr, Expr),
    /// `(memory.copy to from to_address from_address length)`
    Copy(nat, nat, Expr, Expr, Expr),
    /// `(drop (memory.grow memory pages))`
    Grow(nat, Expr),
    /// `(if condition (then s))`
    When(Expr, Box<Stmt>),
    /// `(if condition (then s) (else t))`
    Either(Expr, Box<Stmt>, Box<Stmt>),
    /// One after the other.
    Both(Box<Stmt>, Box<Stmt>),
}

/// A function that is exported under its own name. It runs its code, and then hands out
/// its value, if it has one.
pub struct Func {
    pub name: Seq<char>,
    /// Names and types.
    pub params: Seq<(Seq<char>, Seq<char>)>,
    pub result: Option<Seq<char>>,
    /// Names and types.
    pub locals: Seq<(Seq<char>, Seq<char>)>,
    pub code: Stmt,
    pub value: Option<Expr>,
}

pub open spec fn expr_text(e: Expr) -> Seq<char>
    decreases e,
{
    match e {
        Expr::Get(x) => "(local.get $"@ + x + ")"@,
        Expr::Num(n) => "(i32.const "@ + decimal(n) + ")"@,
        Expr::Bin(op, a, b) => "("@ + op + " "@ + expr_text(*a) + " "@ + expr_text(*b) + ")"@,
        Expr::Load(op, k, a) => "("@ + op + " "@ + decimal(k) + " "@ + expr_text(*a) + ")"@,
        Expr::Size(k) => "(memory.size "@ + decimal(k) + ")"@,
        Expr::Pick(ty, c, a, b) => "(if (result "@ + ty + ") "@ + expr_text(*c) + " (then "@
            + expr_text(*a) + ") (else "@ + expr_text(*b) + "))"@,
    }
}

pub open spec fn stmt_text(s: Stmt) -> Seq<char>
    decreases s,
{
    match s {
        Stmt::Nothing => Seq::empty(),
        Stmt::Trap => "unreachable"@,
        Stmt::Assign(x, e) => "(local.set $"@ + x + " "@ + expr_text(e) + ")"@,
        Stmt::Store(op, k, a, v) => "("@ + op + " "@ + decimal(k) + " "@ + expr_text(a) + " "@
            + expr_text(v) + ")"@,
        Stmt::Copy(d, s, a, b, n) => "(memory.copy "@ + decimal(d) + " "@ + decimal(s) + " "@
            + expr_text(a) + " "@ + expr_text(b) + " "@ + expr_text(n) + ")"@,
        Stmt::Grow(k, n) => "(drop (memory.grow "@ + decimal(k) + " "@ + expr_text(n) + "))"@,
        Stmt::When(c, s) => "(if "@ + expr_text(c) + " (then "@ + stmt_text(*s) + "))"@,
        Stmt::Either(c, s, t) => "(if "@ + expr_text(c) + " (then "@ + stmt_text(*s) + ") (else "@
            + stmt_text(*t) + "))"@,
        Stmt::Both(s, t) => stmt_text(*s) + stmt_text(*t),
    }
}

/// Declarations of parameters or locals, the first `n` of them.
pub open spec fn declared_text(
    word: Seq<char>,
    vars: Seq<(Seq<char>, Seq<char>)>,
    n: int,
) -> Seq<char>
    decreases n,
{
    if n <= 0 {
        Seq::empty()
    } else {
        declared_text(word, vars, n - 1) + "("@ + word + " $"@ + vars[n - 1].0 + " "@ + vars[n
            - 1].1 + ")"@
    }
}

pub open spec fn func_text(f: Func) -> Seq<char> {
    "(func $"@ + f.name + " (export \""@ + f.name + "\")"@ + declared_text(
        "param"@,
        f.params,
        f.params.len() as int,
    ) + (match f.result {
        Some(ty) => "(result "@ + ty + ")"@,
        None => Seq::empty(),
    }) + declared_text("local"@, f.locals, f.locals.len() as int) + stmt_text(f.code) + (
    match f.value {
        Some(e) => expr_text(e),
        None => Seq::empty(),
    }) + ")"@
}

/// White space carries no meaning between the words of a text.
pub open spec fn is_blank(c: char) -> bool {
    c == ' ' || c == '\n'
}

/// A text without its white space.
pub open spec fn squeezed(s: Seq<char>) -> Seq<char>
    decreases s.len(),
{
    if s.len() == 0 {
        Seq::empty()
    } else if is_blank(s.last()) {
        squeezed(s.drop_last())
    } else {
        squeezed(s.drop_last()).push(s.last())
    }
}

/// The text holds this function, up to white space.
pub open spec fn offers(text: Seq<char>, f: Func) -> bool {
    exists|a: Seq<char>, b: Seq<char>|
        squeezed(text) == #[trigger] (a + squeezed(func_text(f)) + b)
}

// ---------------------------------------------------------------------------
// Meaning
// ---------------------------------------------------------------------------

/// The memories, and the most pages that one may have.
pub struct World {
    pub mems: Seq<Seq<u8>>,
    pub max_pages: nat,
}

/// The number that the bytes stand for, the lowest byte first.
pub open spec fn number_of(b: Seq<u8>) -> nat
    decreases b.len(),
{
    if b.len() == 0 {
        0
    } else {
        b[0] as nat + 256 * number_of(b.skip(1))
    }
}

/// The lowest `n` bytes of a number, the lowest first.
pub open spec fn bytes_of(v: nat, n: nat) -> Seq<u8>
    decreases n,
{
    if n == 0 {
        Seq::empty()
    } else {
        seq![(v % 256) as u8] + bytes_of(v / 256, (n - 1) as nat)
    }
}

/// How many bytes a load reads.
pub open spec fn load_width(op: Seq<char>) -> Option<nat> {
    if op == "i32.load8_u"@ {
        Some(1)
    } else if op == "i32.load16_u"@ {
        Some(2)
    } else if op == "i32.load"@ {
        Some(4)
    } else if op == "i64.load8_u"@ {
        Some(1)
    } else if op == "i64.load16_u"@ {
        Some(2)
    } else if op == "i64.load32_u"@ {
        Some(4)
    } else if op == "i64.load"@ {
        Some(8)
    } else {
        None
    }
}

/// How many bytes a store writes.
pub open spec fn store_width(op: Seq<char>) -> Option<nat> {
    if op == "i32.store8"@ {
        Some(1)
    } else if op == "i32.store16"@ {
        Some(2)
    } else if op == "i32.store"@ {
        Some(4)
    } else if op == "i64.store8"@ {
        Some(1)
    } else if op == "i64.store16"@ {
        Some(2)
    } else if op == "i64.store32"@ {
        Some(4)
    } else if op == "i64.store"@ {
        Some(8)
    } else {
        None
    }
}

/// One or zero, as comparisons answer.
pub open spec fn truth(b: bool) -> nat {
    if b {
        1
    } else {
        0
    }
}

/// The two-place operations on 32-bit numbers.
pub open spec fn computed(op: Seq<char>, a: nat, b: nat) -> Option<nat> {
    if op == "i32.lt_u"@ {
        Some(truth(a < b))
    } else if op == "i32.ge_u"@ {
        Some(truth(a >= b))
    } else if op == "i32.gt_u"@ {
        Some(truth(a > b))
    } else if op == "i32.ne"@ {
        Some(truth(a != b))
    } else if op == "i32.add"@ {
        Some((a + b) % 0x1_0000_0000)
    } else if op == "i32.sub"@ {
        Some(((a - b) % 0x1_0000_0000) as nat)
    } else if op == "i32.shr_u"@ {
        Some((a as u32 >> ((b % 32) as u32)) as nat)
    } else if op == "i32.and"@ {
        Some((a as u32 & b as u32) as nat)
    } else {
        None
    }
}

/// The value of an expression; none where it traps.
pub open spec fn value_of(e: Expr, env: Map<Seq<char>, nat>, w: World) -> Option<nat>
    decreases e,
{
    match e {
        Expr::Get(x) => if env.contains_key(x) {
            Some(env[x])
        } else {
            None
        },
        Expr::Num(n) => Some(n),
        Expr::Bin(op, a, b) => match (value_of(*a, env, w), value_of(*b, env, w)) {
            (Some(x), Some(y)) => computed(op, x, y),
            _ => None,
        },
        Expr::Load(op, k, a) => match (load_width(op), value_of(*a, env, w)) {
            (Some(n), Some(at)) => if k < w.mems.len() && at + n <= w.mems[k as int].len() {
                Some(number_of(w.mems[k as int].subrange(at as int, (at + n) as int)))
            } else {
                None
            },
            _ => None,
        },
        Expr::Size(k) => if k < w.mems.len() {
            Some(w.mems[k as int].len() / 65536)
        } else {
            None
        },
        Expr::Pick(_, c, a, b) => match value_of(*c, env, w) {
            Some(x) => if x != 0 {
                value_of(*a, env, w)
            } else {
                value_of(*b, env, w)
            },
            None => None,
        },
    }
}

/// `bytes` with `data` in place of what stands from `at` on.
pub open spec fn laid_over(bytes: Seq<u8>, at: int, data: Seq<u8>) -> Seq<u8> {
    bytes.subrange(0, at) + data + bytes.subrange(at + data.len(), bytes.len() as int)
}

/// Memory `k` after it was asked to grow by `pages` pages: it gets them, zeroed, if it
/// may have so many.
pub open spec fn grown(w: World, k: int, pages: nat) -> World {
    let m = w.mems[k];
    if m.len() / 65536 + pages <= w.max_pages {
        World { mems: w.mems.update(k, m + Seq::new(65536 * pages, |i: int| 0u8)), ..w }
    } else {
        w
    }
}

/// What a statement does; nothing where it traps.
pub open spec fn done(s: Stmt, env: Map<Seq<char>, nat>, w: World) -> Option<
    (Map<Seq<char>, nat>, World),
>
    decreases s,
{
    match s {
        Stmt::Nothing => Some((env, w)),
        Stmt::Trap => None,
        Stmt::Assign(x, e) => match value_of(e, env, w) {
            Some(v) => Some((env.insert(x, v), w)),
            None => None,
        },
        Stmt::Store(op, k, a, v) => match (
            store_width(op),
            value_of(a, env, w),
            value_of(v, env, w),
        ) {
            (Some(n), Some(at), Some(x)) => if k < w.mems.len() && at + n <= w.mems[k as int].len() {
                Some(
                    (
                        env,
                        World {
                            mems: w.mems.update(
                                k as int,
                                laid_over(w.mems[k as int], at as int, bytes_of(x, n)),
                            ),
                            ..w
                        },
                    ),
                )
            } else {
                None
            },
            _ => None,
        },
        Stmt::Copy(d, s, a, b, n) => match (
            value_of(a, env, w),
            value_of(b, env, w),
            value_of(n, env, w),
        ) {
            (Some(to), Some(from), Some(len)) => if d < w.mems.len() && s < w.mems.len() && to + len
                <= w.mems[d as int].len() && from + len <= w.mems[s as int].len() {
                let data = w.mems[s as int].subrange(from as int, (from + len) as int);
                Some(
                    (
                        env,
                        World {
                            mems: w.mems.update(
                                d as int,
                                laid_over(w.mems[d as int], to as int, data),
                            ),
                            ..w
                        },
                    ),
                )
            } else {
                None
            },
            _ => None,
        },
        Stmt::Grow(k, n) => match value_of(n, env, w) {
            Some(pages) => if k < w.mems.len() {
                Some((env, grown(w, k as int, pages)))
            } else {
                None
            },
            None => None,
        },
        Stmt::When(c, s) => match value_of(c, env, w) {
            Some(x) => if x != 0 {
                done(*s, env, w)
            } else {
                Some((env, w))
            },
            None => None,
        },
        Stmt::Either(c, s, t) => match value_of(c, env, w) {
            Some(x) => if x != 0 {
                done(*s, env, w)
            } else {
                done(*t, env, w)
            },
            None => None,
        },
        Stmt::Both(s, t) => match done(*s, env, w) {
            Some((e2, w2)) => done(*t, e2, w2),
            None => None,
        },
    }
}

/// The first `n` parameters, bound to the arguments.
pub open spec fn bound(
    params: Seq<(Seq<char>, Seq<char>)>,
    args: Seq<nat>,
    n: int,
) -> Map<Seq<char>, nat>
    decreases n,
{
    if n <= 0 {
        Map::empty()
    } else {
        bound(params, args, n - 1).insert(params[n - 1].0, args[n - 1])
    }
}

/// The memories after a call, and what it hands out; nothing where it traps. A call of a
/// function without a result hands out zero.
pub open spec fn called(f: Func, args: Seq<nat>, w: World) -> Option<(World, nat)> {
    if args.len() != f.params.len() {
        None
    } else {
        match done(f.code, bound(f.params, args, f.params.len() as int), w) {
            None => None,
            Some((env, w2)) => match f.value {
                None => Some((w2, 0)),
                Some(e) => match value_of(e, env, w2) {
                    Some(v) => Some((w2, v)),
                    None => None,
                },
            },
        }
    }
}

// ---------------------------------------------------------------------------
// Lemmas
// ---------------------------------------------------------------------------

pub broadcast proof fn lemma_squeezed_add(a: Seq<char>, b: Seq<char>)
    ensures
        #[trigger] squeezed(a + b) == squeezed(a) + squeezed(b),
    decreases b.len(),
{
    if b.len() == 0 {
        assert(a + b =~= a);
        assert(squeezed(a) + squeezed(b) =~= squeezed(a));
    } else {
        let c = b.drop_last();
        assert((a + b).drop_last() =~= a + c);
        lemma_squeezed_add(a, c);
        assert((squeezed(a) + squeezed(c)).push(b.last()) =~= squeezed(a) + squeezed(c).push(
            b.last(),
        ));
    }
}

pub broadcast proof fn lemma_add_assoc(a: Seq<char>, b: Seq<char>, c: Seq<char>)
    ensures
        #[trigger] (a + (b + c)) == (a + b) + c,
{
    assert(a + (b + c) =~= (a + b) + c);
}

pub broadcast proof fn lemma_add_nothing(a: Seq<char>)
    ensures
        #[trigger] (a + Seq::<char>::empty()) == a,
{
    assert(a + Seq::<char>::empty() =~= a);
}

pub broadcast proof fn lemma_nothing_add(a: Seq<char>)
    ensures
        #[trigger] (Seq::<char>::empty() + a) == a,
{
    assert(Seq::<char>::empty() + a =~= a);
}

/// How texts are put together.
pub broadcast group group_text {
    lemma_squeezed_add,
    lemma_add_assoc,
    lemma_add_nothing,
    lemma_nothing_add,
}

pub proof fn lemma_blank_literals()
    ensures
        squeezed(" "@) == Seq::<char>::empty(),
        squeezed("  "@) == Seq::<char>::empty(),
        squeezed("\n"@) == Seq::<char>::empty(),
{
    reveal_strlit(" ");
    reveal_strlit("  ");
    reveal_strlit("\n");
    reveal_with_fuel(squeezed, 4);
}

pub proof fn lemma_number_of_bytes(v: nat, n: nat)
    ensures
        bytes_of(v, n).len() == n,
        n == 1 && v < 0x100 ==> number_of(bytes_of(v, n)) == v,
        n == 4 && v < 0x1_0000_0000 ==> number_of(bytes_of(v, n)) == v,
        n == 8 && v < 0x1_0000_0000_0000_0000 ==> number_of(bytes_of(v, n)) == v,
    decreases n,
{
    lemma_number_mod(v, n);
    if n == 1 {
        assert(power(1) == 0x100) by {
            reveal_with_fuel(power, 10);
        }
    } else if n == 4 {
        assert(power(4) == 0x1_0000_0000) by {
            reveal_with_fuel(power, 10);
        }
    } else if n == 8 {
        assert(power(8) == 0x1_0000_0000_0000_0000) by {
            reveal_with_fuel(power, 10);
        }
    }
}

/// 256 to the power of `n`.
pub open spec fn power(n: nat) -> nat
    decreases n,
{
    if n == 0 {
        1
    } else {
        256 * power((n - 1) as nat)
    }
}

pub(crate) proof fn lemma_number_mod(v: nat, n: nat)
    ensures
        bytes_of(v, n).len() == n,
        v < power(n) ==> number_of(bytes_of(v, n)) == v,
    decreases n,
{
    if n > 0 {
        lemma_number_mod(v / 256, (n - 1) as nat);
        let b = bytes_of(v, n);
        assert(b.skip(1) =~= bytes_of(v / 256, (n - 1) as nat));
        assert(b[0] == (v % 256) as u8);
    }
}

/// Text that is moved in holds the same words.
pub proof fn lemma_indented_squeezed(body: Seq<char>, cols: nat)
    ensures
        squeezed(super::wat::indented(body, cols)) == squeezed(body),
{
    lemma_indented_prefix(body, cols, body.len() as int);
    assert(body.subrange(0, body.len() as int) =~= body);
    let t = super::wat::indented_prefix(body, cols, body.len() as int);
    assert(t.push('\n').drop_last() =~= t);
}

proof fn lemma_spaces_squeezed(n: nat)
    ensures
        squeezed(super::wat::spaces(n)) == Seq::<char>::empty(),
    decreases n,
{
    if n > 0 {
        lemma_spaces_squeezed((n - 1) as nat);
        assert(super::wat::spaces(n).drop_last() =~= super::wat::spaces((n - 1) as nat));
    }
}

proof fn lemma_indented_prefix(body: Seq<char>, cols: nat, n: int)
    requires
        0 <= n <= body.len(),
    ensures
        squeezed(super::wat::indented_prefix(body, cols, n)) == squeezed(body.subrange(0, n)),
    decreases n,
{
    broadcast use lemma_squeezed_add;

    if n > 0 {
        lemma_indented_prefix(body, cols, n - 1);
        lemma_spaces_squeezed(cols);
        let p = super::wat::indented_prefix(body, cols, n - 1);
        let s = body.subrange(0, n);
        assert(s.drop_last() =~= body.subrange(0, n - 1));
        assert(s.last() == body[n - 1]);
        assert(p.push(body[n - 1]).drop_last() =~= p);
        let q = p + super::wat::spaces(cols);
        assert(q.push(body[n - 1]).drop_last() =~= q);
        assert(squeezed(q) =~= squeezed(p));
    }
}

} // verus!
