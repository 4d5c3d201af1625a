//! What the functions of a generated module do: the loads, stores and copies that take
//! their pool at run time, and those of one pool.
use vstd::prelude::*;
use crate::text::decimal;
use super::dispatch::{copy_from_dispatcher, copy_helpers_text, copy_to_dispatcher, dispatch_tree, indirect_text, law_dispatch_picks_pool, load_dispatcher, load_text, per_pool, picked, reducers_text, store_dispatcher, store_text, typed_helpers_text, Tree};
use super::kernels::{INTRA_POOL_COPY, SIMD_SUM_U8};
use super::meaning::{
    bound, bytes_of, called, declared_text, done, expr_text, func_text, group_text, laid_over,
    lemma_add_assoc, lemma_blank_literals, lemma_indented_squeezed, lemma_number_of_bytes,
    lemma_squeezed_add, load_width, number_of, offers, squeezed, stmt_text, store_width, truth,
    value_of, Expr, Func, Stmt, World,
};
use super::module::{module_text, spill_module_text, with_body, with_dispatchers, with_memories, ModuleParams, WASI_IMPORTS, WASI_SPILL_HELPERS};

verus! {

// ---------------------------------------------------------------------------
// Loads by pool number
// ---------------------------------------------------------------------------

spec fn load_expr(t: Tree, op: Seq<char>, ty: Seq<char>) -> Expr
    decreases t,
{
    match t {
        Tree::Leaf(k) => Expr::Load(op, k as nat, Box::new(Expr::Get("off"@))),
        Tree::Node(mid, l, r) => Expr::Pick(
            ty,
            Box::new(
                Expr::Bin(
                    "i32.lt_u"@,
                    Box::new(Expr::Get("pool"@)),
                    Box::new(Expr::Num(mid as nat)),
                ),
            ),
            Box::new(load_expr(*l, op, ty)),
            Box::new(load_expr(*r, op, ty)),
        ),
    }
}

/// The check that stands first in a function that takes a pool.
pub open spec fn pool_check(name: Seq<char>, n: u32) -> Stmt {
    Stmt::When(
        Expr::Bin("i32.ge_u"@, Box::new(Expr::Get(name)), Box::new(Expr::Num(n as nat))),
        Box::new(Stmt::Trap),
    )
}

spec fn load_func(name: Seq<char>, op: Seq<char>, ty: Seq<char>, n: u32) -> Func {
    Func {
        name,
        params: seq![("pool"@, "i32"@), ("off"@, "i32"@)],
        result: Some(ty),
        locals: Seq::empty(),
        code: pool_check("pool"@, n),
        value: Some(load_expr(dispatch_tree(0, n), op, ty)),
    }
}

/// The literals of the generator, taken apart into the words of the grammar.
pub(crate) proof fn lemma_tree_words()
    ensures
        squeezed(" (then "@) == squeezed("  (then "@),
        squeezed(") (else "@) == squeezed("  )\n  (else "@),
        squeezed("))"@) == squeezed("  ))\n"@),
        squeezed("))\n"@) == squeezed(")"@) + squeezed(")"@),
{
    broadcast use lemma_squeezed_add;

    lemma_blank_literals();
    reveal_strlit(" ");
    reveal_strlit("  ");
    reveal_strlit("\n");
    reveal_strlit("(then ");
    reveal_strlit(" (then ");
    reveal_strlit("  (then ");
    reveal_strlit(")");
    reveal_strlit("(else ");
    reveal_strlit(") (else ");
    reveal_strlit("  )\n  (else ");
    reveal_strlit("))");
    reveal_strlit("  ))\n");
    reveal_strlit("))\n");
    assert("  (then "@ =~= " "@ + " (then "@);
    assert(") (else "@ =~= ")"@ + " "@ + "(else "@);
    assert("  )\n  (else "@ =~= "  "@ + ")"@ + "\n"@ + "  "@ + "(else "@);
    assert("  ))\n"@ =~= "  "@ + "))"@ + "\n"@);
    assert("))\n"@ =~= ")"@ + ")"@ + "\n"@);
    let e = Seq::<char>::empty();
    assert(e + squeezed(" (then "@) =~= squeezed(" (then "@));
    assert(squeezed(")"@) + e + squeezed("(else "@) =~= e + squeezed(")"@) + e + e + squeezed(
        "(else "@,
    ));
    assert(e + squeezed("))"@) + e =~= squeezed("))"@));
    assert(squeezed(")"@) + squeezed(")"@) + e =~= squeezed(")"@) + squeezed(")"@));
}

proof fn lemma_load_words()
    ensures
        squeezed(" (local.get $off))\n"@) == squeezed("(local.get $"@) + squeezed("off"@)
            + squeezed(")"@) + squeezed(")"@),
        squeezed(") (i32.lt_u (local.get $pool) (i32.const "@) == squeezed(") "@) + squeezed("("@)
            + squeezed("i32.lt_u"@) + squeezed("(local.get $"@) + squeezed("pool"@) + squeezed(
            ")"@,
        ) + squeezed("(i32.const "@),
{
    broadcast use lemma_squeezed_add;

    lemma_blank_literals();
    reveal_strlit(" ");
    reveal_strlit("\n");
    reveal_strlit("(");
    reveal_strlit(")");
    reveal_strlit(") ");
    reveal_strlit("off");
    reveal_strlit("pool");
    reveal_strlit("i32.lt_u");
    reveal_strlit("(local.get $");
    reveal_strlit("(i32.const ");
    reveal_strlit(" (local.get $off))\n");
    reveal_strlit(") (i32.lt_u (local.get $pool) (i32.const ");
    assert(" (local.get $off))\n"@ =~= " "@ + "(local.get $"@ + "off"@ + ")"@ + ")"@ + "\n"@);
    assert(") (i32.lt_u (local.get $pool) (i32.const "@ =~= ") "@ + "("@ + "i32.lt_u"@ + " "@
        + "(local.get $"@ + "pool"@ + ")"@ + " "@ + "(i32.const "@);
    let e = Seq::<char>::empty();
    let a = squeezed("(local.get $"@);
    let b = squeezed("off"@);
    let c = squeezed(")"@);
    assert(e + a + b + c + c + e =~= a + b + c + c);
    let d = squeezed(") "@) + squeezed("("@) + squeezed("i32.lt_u"@);
    let f = a + squeezed("pool"@) + c;
    assert(d + e + a + squeezed("pool"@) + c + e + squeezed("(i32.const "@) =~= d + a + squeezed(
        "pool"@,
    ) + c + squeezed("(i32.const "@));
}

/// The text of a tree of loads is that of the expression, up to white space.
proof fn lemma_load_text(t: Tree, op: Seq<char>, ty: Seq<char>)
    ensures
        squeezed(load_text(t, op, ty)) == squeezed(expr_text(load_expr(t, op, ty))),
    decreases t,
{
    broadcast use {lemma_squeezed_add, lemma_add_assoc};

    lemma_blank_literals();
    lemma_load_words();
    lemma_tree_words();
    let e = Seq::<char>::empty();
    match t {
        Tree::Leaf(k) => {
            let x = squeezed("("@) + squeezed(op);
            let d = squeezed(decimal(k as nat));
            let g = squeezed("(local.get $"@) + squeezed("off"@) + squeezed(")"@);
            assert(expr_text(Expr::Get("off"@)) == "(local.get $"@ + "off"@ + ")"@);
            assert(squeezed(load_text(t, op, ty)) == x + e + d + (g + squeezed(")"@)));
            assert(squeezed(expr_text(load_expr(t, op, ty))) == x + e + d + e + g + squeezed(
                ")"@,
            ));
            assert(x + e + d + (g + squeezed(")"@)) =~= x + e + d + e + g + squeezed(")"@));
        },
        Tree::Node(mid, l, r) => {
            lemma_load_text(*l, op, ty);
            lemma_load_text(*r, op, ty);
            lemma_indented_squeezed(load_text(*l, op, ty), 4);
            lemma_indented_squeezed(load_text(*r, op, ty), 4);
            let c = Expr::Bin(
                "i32.lt_u"@,
                Box::new(Expr::Get("pool"@)),
                Box::new(Expr::Num(mid as nat)),
            );
            let sl = squeezed(expr_text(load_expr(*l, op, ty)));
            let sr = squeezed(expr_text(load_expr(*r, op, ty)));
            let head = squeezed("(if (result "@) + squeezed(ty);
            let g = squeezed("(local.get $"@) + squeezed("pool"@) + squeezed(")"@);
            let num = squeezed("(i32.const "@) + squeezed(decimal(mid as nat)) + squeezed(")"@);
            assert(expr_text(Expr::Get("pool"@)) == "(local.get $"@ + "pool"@ + ")"@);
            assert(expr_text(Expr::Num(mid as nat)) == "(i32.const "@ + decimal(mid as nat)
                + ")"@);
            let test = squeezed("("@) + squeezed("i32.lt_u"@) + e + g + e + num + squeezed(")"@);
            assert(squeezed(expr_text(c)) == test);
            assert(squeezed(expr_text(load_expr(t, op, ty))) == head + squeezed(") "@) + test
                + squeezed(" (then "@) + sl + squeezed(") (else "@) + sr + squeezed("))"@));
            let lit = squeezed(") "@) + squeezed("("@) + squeezed("i32.lt_u"@) + squeezed(
                "(local.get $"@,
            ) + squeezed("pool"@) + squeezed(")"@) + squeezed("(i32.const "@);
            assert(squeezed(load_text(t, op, ty)) == head + lit + squeezed(decimal(mid as nat)) + (
            squeezed(")"@) + squeezed(")"@)) + squeezed(" (then "@) + sl + squeezed(") (else "@)
                + sr + squeezed("))"@));
            assert(head + lit + squeezed(decimal(mid as nat)) + (squeezed(")"@) + squeezed(")"@))
                =~= head + squeezed(") "@) + test);
        },
    }
}

/// The words that every dispatcher starts and ends with.
pub(crate) proof fn lemma_frame_words()
    ensures
        squeezed("  (func $"@) == squeezed("(func $"@),
        squeezed(")\n"@) == squeezed(")"@),
        squeezed("  )\n"@) == squeezed(")"@),
        squeezed(")) (then unreachable))\n"@) == squeezed(")"@) + squeezed(")"@) + squeezed(
            " (then "@,
        ) + squeezed("unreachable"@) + squeezed("))"@),
        squeezed("    (if (i32.ge_u (local.get $pool) (i32.const "@) == squeezed("(if "@)
            + squeezed("("@) + squeezed("i32.ge_u"@) + squeezed("(local.get $"@) + squeezed(
            "pool"@,
        ) + squeezed(")"@) + squeezed("(i32.const "@),
{
    broadcast use lemma_squeezed_add;

    lemma_blank_literals();
    reveal_strlit(" ");
    reveal_strlit("  ");
    reveal_strlit("\n");
    reveal_strlit("(");
    reveal_strlit(")");
    reveal_strlit("))");
    reveal_strlit(")\n");
    reveal_strlit("  )\n");
    reveal_strlit("(func $");
    reveal_strlit("  (func $");
    reveal_strlit("pool");
    reveal_strlit("(if ");
    reveal_strlit(" (then ");
    reveal_strlit("unreachable");
    reveal_strlit("i32.ge_u");
    reveal_strlit("(local.get $");
    reveal_strlit("(i32.const ");
    reveal_strlit(")) (then unreachable))\n");
    reveal_strlit("    (if (i32.ge_u (local.get $pool) (i32.const ");
    let e = Seq::<char>::empty();
    assert("  (func $"@ =~= "  "@ + "(func $"@);
    assert(e + squeezed("(func $"@) =~= squeezed("(func $"@));
    assert(")\n"@ =~= ")"@ + "\n"@);
    assert("  )\n"@ =~= "  "@ + ")"@ + "\n"@);
    assert(squeezed(")"@) + e =~= squeezed(")"@));
    assert(e + squeezed(")"@) + e =~= squeezed(")"@));
    assert(")) (then unreachable))\n"@ =~= ")"@ + ")"@ + " (then "@ + "unreachable"@ + "))"@
        + "\n"@);
    let t = squeezed(")"@) + squeezed(")"@) + squeezed(" (then "@) + squeezed("unreachable"@)
        + squeezed("))"@);
    assert(t + e =~= t);
    assert("    (if (i32.ge_u (local.get $pool) (i32.const "@ =~= "  "@ + "  "@ + "(if "@ + "("@
        + "i32.ge_u"@ + " "@ + "(local.get $"@ + "pool"@ + ")"@ + " "@ + "(i32.const "@);
    let a = squeezed("(if "@) + squeezed("("@) + squeezed("i32.ge_u"@);
    let b = squeezed("(local.get $"@) + squeezed("pool"@) + squeezed(")"@);
    assert(e + e + squeezed("(if "@) + squeezed("("@) + squeezed("i32.ge_u"@) + e + squeezed(
        "(local.get $"@,
    ) + squeezed("pool"@) + squeezed(")"@) + e + squeezed("(i32.const "@) =~= squeezed("(if "@)
        + squeezed("("@) + squeezed("i32.ge_u"@) + squeezed("(local.get $"@) + squeezed("pool"@)
        + squeezed(")"@) + squeezed("(i32.const "@));
}

/// One declaration without its white space.
pub open spec fn declared_word(word: Seq<char>, name: Seq<char>, ty: Seq<char>) -> Seq<char> {
    squeezed("("@) + squeezed(word) + squeezed(" $"@) + squeezed(name) + squeezed(ty) + squeezed(
        ")"@,
    )
}

pub(crate) proof fn lemma_declared(word: Seq<char>, vars: Seq<(Seq<char>, Seq<char>)>, n: int)
    requires
        0 < n <= vars.len(),
    ensures
        squeezed(declared_text(word, vars, n)) == squeezed(declared_text(word, vars, n - 1))
            + declared_word(word, vars[n - 1].0, vars[n - 1].1),
{
    broadcast use lemma_squeezed_add;

    lemma_blank_literals();
    let e = Seq::<char>::empty();
    let before = squeezed(declared_text(word, vars, n - 1));
    let a = squeezed("("@) + squeezed(word) + squeezed(" $"@) + squeezed(vars[n - 1].0);
    let ty = squeezed(vars[n - 1].1);
    let c = squeezed(")"@);
    assert(before + squeezed("("@) + squeezed(word) + squeezed(" $"@) + squeezed(vars[n - 1].0) + e
        + ty + c =~= before + (a + ty + c));
}

proof fn lemma_load_head()
    ensures
        squeezed("\") (param $pool i32) (param $off i32) (result "@) == squeezed("\")"@)
            + declared_word("param"@, "pool"@, "i32"@) + declared_word("param"@, "off"@, "i32"@)
            + squeezed("(result "@),
{
    broadcast use lemma_squeezed_add;

    lemma_blank_literals();
    reveal_strlit(" ");
    reveal_strlit("(");
    reveal_strlit(")");
    reveal_strlit("\")");
    reveal_strlit("param");
    reveal_strlit(" $");
    reveal_strlit("pool");
    reveal_strlit("off");
    reveal_strlit("i32");
    reveal_strlit("(result ");
    reveal_strlit("\") (param $pool i32) (param $off i32) (result ");
    let p = "("@ + "param"@ + " $"@ + "pool"@ + " "@ + "i32"@ + ")"@;
    let o = "("@ + "param"@ + " $"@ + "off"@ + " "@ + "i32"@ + ")"@;
    assert(p.len() == 17);
    assert(o.len() == 16);
    assert("\") (param $pool i32) (param $off i32) (result "@ =~= "\")"@ + " "@ + p + " "@ + o
        + " "@ + "(result "@);
    let e = Seq::<char>::empty();
    let sp = declared_word("param"@, "pool"@, "i32"@);
    let so = declared_word("param"@, "off"@, "i32"@);
    assert(squeezed(p) =~= sp);
    assert(squeezed(o) =~= so);
    assert(squeezed("\")"@) + e + sp + e + so + e + squeezed("(result "@) =~= squeezed("\")"@) + sp
        + so + squeezed("(result "@));
}

/// The text of the check for a pool that exists, up to white space.
pub(crate) proof fn lemma_check_text(n: u32)
    ensures
        squeezed(stmt_text(pool_check("pool"@, n))) == squeezed(
            "    (if (i32.ge_u (local.get $pool) (i32.const "@,
        ) + squeezed(decimal(n as nat)) + squeezed(")) (then unreachable))\n"@),
{
    broadcast use lemma_squeezed_add;

    lemma_blank_literals();
    lemma_frame_words();
    let e = Seq::<char>::empty();
    let c = Expr::Bin("i32.ge_u"@, Box::new(Expr::Get("pool"@)), Box::new(Expr::Num(n as nat)));
    let g = squeezed("(local.get $"@) + squeezed("pool"@) + squeezed(")"@);
    let num = squeezed("(i32.const "@) + squeezed(decimal(n as nat)) + squeezed(")"@);
    assert(squeezed(expr_text(Expr::Get("pool"@))) == g);
    assert(squeezed(expr_text(Expr::Num(n as nat))) == num);
    assert(squeezed(expr_text(c)) == squeezed("("@) + squeezed("i32.ge_u"@) + e + g + e + num
        + squeezed(")"@));
    assert(squeezed(stmt_text(Stmt::Trap)) == squeezed("unreachable"@));
    assert(squeezed(stmt_text(pool_check("pool"@, n))) =~= squeezed("(if "@) + squeezed(expr_text(c))
        + squeezed(" (then "@) + squeezed("unreachable"@) + squeezed("))"@));
    let lit = squeezed("(if "@) + squeezed("("@) + squeezed("i32.ge_u"@) + squeezed("(local.get $"@)
        + squeezed("pool"@) + squeezed(")"@) + squeezed("(i32.const "@);
    let d = squeezed(decimal(n as nat));
    let tail = squeezed(")"@) + squeezed(")"@) + squeezed(" (then "@) + squeezed("unreachable"@)
        + squeezed("))"@);
    assert(squeezed("(if "@) + squeezed(expr_text(c)) + squeezed(" (then "@) + squeezed(
        "unreachable"@,
    ) + squeezed("))"@) =~= lit + d + tail);
}

/// The text of a dispatcher for loads is that of the function, up to white space.
proof fn lemma_load_dispatcher(name: Seq<char>, op: Seq<char>, ty: Seq<char>, n: u32)
    ensures
        squeezed(load_dispatcher(name, op, ty, n)) == squeezed(
            func_text(load_func(name, op, ty, n)),
        ),
{
    broadcast use group_text;

    lemma_blank_literals();
    lemma_frame_words();
    lemma_load_head();
    lemma_check_text(n);
    let f = load_func(name, op, ty, n);
    let t = dispatch_tree(0, n);
    lemma_load_text(t, op, ty);
    lemma_indented_squeezed(load_text(t, op, ty), 4);
    let e = Seq::<char>::empty();
    lemma_declared("param"@, f.params, 2);
    lemma_declared("param"@, f.params, 1);
    assert(squeezed(declared_text("param"@, f.params, 0)) == e);
    assert(squeezed(declared_text("local"@, f.locals, 0)) == e);
    let sp = declared_word("param"@, "pool"@, "i32"@);
    let so = declared_word("param"@, "off"@, "i32"@);
    assert(squeezed(declared_text("param"@, f.params, 2)) == sp + so);
    let body = squeezed(expr_text(load_expr(t, op, ty)));
    let check = squeezed(stmt_text(f.code));
    let start = squeezed("(func $"@) + squeezed(name) + squeezed(" (export \""@) + squeezed(name);
    let res = squeezed("(result "@) + squeezed(ty) + squeezed(")"@);
    assert(squeezed(func_text(f)) == start + squeezed("\")"@) + (sp + so) + res + e + check + body
        + squeezed(")"@));
    assert(squeezed(load_dispatcher(name, op, ty, n)) == start + (squeezed("\")"@) + sp + so
        + squeezed("(result "@)) + squeezed(ty) + squeezed(")"@) + check + body + squeezed(")"@));
    assert(start + squeezed("\")"@) + (sp + so) + res + e + check + body + squeezed(")"@) == start
        + (squeezed("\")"@) + sp + so + squeezed("(result "@)) + squeezed(ty) + squeezed(")"@)
        + check + body + squeezed(")"@));
}

pub(crate) proof fn lemma_op_names()
    ensures
        "i32.ge_u"@ != "i32.lt_u"@,
        "off"@ != "pool"@,
        "val"@ != "pool"@,
        "val"@ != "off"@,
        load_width("i32.load8_u"@) == Some(1nat),
        load_width("i32.load"@) == Some(4nat),
        load_width("i64.load"@) == Some(8nat),
        store_width("i32.store8"@) == Some(1nat),
        store_width("i32.store"@) == Some(4nat),
        store_width("i64.store"@) == Some(8nat),
{
    reveal_strlit("i32.ge_u");
    reveal_strlit("i32.lt_u");
    reveal_strlit("off");
    reveal_strlit("pool");
    reveal_strlit("val");
    reveal_strlit("i32.load8_u");
    reveal_strlit("i32.load16_u");
    reveal_strlit("i32.load");
    reveal_strlit("i64.load8_u");
    reveal_strlit("i64.load16_u");
    reveal_strlit("i64.load32_u");
    reveal_strlit("i64.load");
    reveal_strlit("i32.store8");
    reveal_strlit("i32.store16");
    reveal_strlit("i32.store");
    reveal_strlit("i64.store8");
    reveal_strlit("i64.store16");
    reveal_strlit("i64.store32");
    reveal_strlit("i64.store");
    assert("i32.ge_u"@[4] != "i32.lt_u"@[4]);
    assert("off"@.len() != "pool"@.len());
    assert("val"@.len() != "pool"@.len());
    assert("val"@[0] != "off"@[0]);
    assert("i32.load"@.len() != "i32.load8_u"@.len() && "i32.load"@.len() != "i32.load16_u"@.len());
    assert("i64.load"@[1] != "i32.load"@[1]);
    assert("i64.load"@.len() == 8);
    assert("i32.store"@.len() == 9);
    assert("i64.store"@[1] != "i32.store"@[1]);
    assert("i64.store"@.len() == 9);
}

proof fn lemma_load_value(
    t: Tree,
    op: Seq<char>,
    ty: Seq<char>,
    env: Map<Seq<char>, nat>,
    w: World,
    pool: u32,
)
    requires
        env.contains_key("pool"@),
        env["pool"@] == pool,
    ensures
        value_of(load_expr(t, op, ty), env, w) == value_of(
            Expr::Load(op, picked(t, pool) as nat, Box::new(Expr::Get("off"@))),
            env,
            w,
        ),
    decreases t,
{
    match t {
        Tree::Leaf(k) => {},
        Tree::Node(mid, l, r) => {
            lemma_load_value(*l, op, ty, env, w, pool);
            lemma_load_value(*r, op, ty, env, w, pool);
            let c = Expr::Bin(
                "i32.lt_u"@,
                Box::new(Expr::Get("pool"@)),
                Box::new(Expr::Num(mid as nat)),
            );
            assert(value_of(Expr::Get("pool"@), env, w) == Some(pool as nat));
            assert(value_of(Expr::Num(mid as nat), env, w) == Some(mid as nat));
            assert(value_of(c, env, w) == Some(truth(pool < mid)));
        },
    }
}

/// The check traps exactly on a pool that does not exist.
pub(crate) proof fn lemma_check_done(name: Seq<char>, n: u32, env: Map<Seq<char>, nat>, w: World)
    requires
        env.contains_key(name),
    ensures
        done(pool_check(name, n), env, w) == (if env[name] >= n {
            None
        } else {
            Some((env, w))
        }),
{
    lemma_op_names();
    let c = Expr::Bin("i32.ge_u"@, Box::new(Expr::Get(name)), Box::new(Expr::Num(n as nat)));
    assert(value_of(Expr::Get(name), env, w) == Some(env[name]));
    assert(value_of(Expr::Num(n as nat), env, w) == Some(n as nat));
    assert(value_of(c, env, w) == Some(truth(env[name] >= n)));
    assert(done(Stmt::Trap, env, w) is None);
}

/// Two arguments.
pub open spec fn args2(a: nat, b: nat) -> Seq<nat> {
    seq![a, b]
}

/// Three arguments.
pub open spec fn args3(a: nat, b: nat, c: nat) -> Seq<nat> {
    seq![a, b, c]
}

/// A load of `width` bytes by pool and offset, over `n` pools: it hands out the number
/// that stands at the offset of the pool and changes nothing, and traps on a pool that does
/// not exist and on bytes that do not all lie inside the pool.
pub open spec fn loads(f: Func, n: u32, width: nat) -> bool {
    forall|w: World, pool: nat, off: nat|
        w.mems.len() == n ==> #[trigger] called(f, args2(pool, off), w) == (if pool < n && off
            + width <= w.mems[pool as int].len() {
            Some(
                (w, number_of(w.mems[pool as int].subrange(off as int, (off + width) as int))),
            )
        } else {
            None
        })
}

/// A store of `width` bytes by pool, offset and value, over `n` pools: the lowest bytes of
/// the value stand at the offset of the pool afterwards, and nothing else has changed. It
/// traps where a load would.
pub open spec fn stores(f: Func, n: u32, width: nat) -> bool {
    forall|w: World, pool: nat, off: nat, v: nat|
        w.mems.len() == n ==> #[trigger] called(f, args3(pool, off, v), w) == (if pool < n && off
            + width <= w.mems[pool as int].len() {
            Some(
                (
                    World {
                        mems: w.mems.update(
                            pool as int,
                            laid_over(w.mems[pool as int], off as int, bytes_of(v, width)),
                        ),
                        ..w
                    },
                    0nat,
                ),
            )
        } else {
            None
        })
}

proof fn lemma_load_func(name: Seq<char>, op: Seq<char>, ty: Seq<char>, n: u32, width: nat)
    requires
        n > 0,
        load_width(op) == Some(width),
    ensures
        loads(load_func(name, op, ty, n), n, width),
{
    lemma_op_names();
    let f = load_func(name, op, ty, n);
    assert forall|w: World, pool: nat, off: nat| w.mems.len() == n implies #[trigger] called(
        f,
        args2(pool, off),
        w,
    ) == (if pool < n && off + width <= w.mems[pool as int].len() {
        Some((w, number_of(w.mems[pool as int].subrange(off as int, (off + width) as int))))
    } else {
        None
    }) by {
        let args = args2(pool, off);
        let env = bound(f.params, args, 2);
        reveal_with_fuel(bound, 3);
        assert(env == Map::<Seq<char>, nat>::empty().insert("pool"@, pool).insert("off"@, off));
        lemma_check_done("pool"@, n, env, w);
        if pool < n {
            let t = dispatch_tree(0, n);
            lemma_load_value(t, op, ty, env, w, pool as u32);
            law_dispatch_picks_pool(0, n, pool as u32);
            assert(value_of(Expr::Get("off"@), env, w) == Some(off));
        }
    }
}

// ---------------------------------------------------------------------------
// Stores by pool number
// ---------------------------------------------------------------------------

spec fn store_stmt(t: Tree, op: Seq<char>) -> Stmt
    decreases t,
{
    match t {
        Tree::Leaf(k) => Stmt::Store(op, k as nat, Expr::Get("off"@), Expr::Get("val"@)),
        Tree::Node(mid, l, r) => Stmt::Either(
            Expr::Bin(
                "i32.lt_u"@,
                Box::new(Expr::Get("pool"@)),
                Box::new(Expr::Num(mid as nat)),
            ),
            Box::new(store_stmt(*l, op)),
            Box::new(store_stmt(*r, op)),
        ),
    }
}

spec fn store_func(name: Seq<char>, op: Seq<char>, ty: Seq<char>, n: u32) -> Func {
    Func {
        name,
        params: seq![("pool"@, "i32"@), ("off"@, "i32"@), ("val"@, ty)],
        result: None,
        locals: Seq::empty(),
        code: Stmt::Both(
            Box::new(pool_check("pool"@, n)),
            Box::new(store_stmt(dispatch_tree(0, n), op)),
        ),
        value: None,
    }
}

proof fn lemma_store_words()
    ensures
        squeezed(" (local.get $off) (local.get $val))\n"@) == squeezed("(local.get $"@) + squeezed(
            "off"@,
        ) + squeezed(")"@) + squeezed("(local.get $"@) + squeezed("val"@) + squeezed(")"@)
            + squeezed(")"@),
        squeezed("(if (i32.lt_u (local.get $pool) (i32.const "@) == squeezed("(if "@) + squeezed(
            "("@,
        ) + squeezed("i32.lt_u"@) + squeezed("(local.get $"@) + squeezed("pool"@) + squeezed(")"@)
            + squeezed("(i32.const "@),
{
    broadcast use lemma_squeezed_add;

    lemma_blank_literals();
    reveal_strlit(" ");
    reveal_strlit("\n");
    reveal_strlit("(");
    reveal_strlit(")");
    reveal_strlit("(if ");
    reveal_strlit("off");
    reveal_strlit("val");
    reveal_strlit("pool");
    reveal_strlit("i32.lt_u");
    reveal_strlit("(local.get $");
    reveal_strlit("(i32.const ");
    reveal_strlit(" (local.get $off) (local.get $val))\n");
    reveal_strlit("(if (i32.lt_u (local.get $pool) (i32.const ");
    let e = Seq::<char>::empty();
    let a = squeezed("(local.get $"@);
    let c = squeezed(")"@);
    assert(" (local.get $off) (local.get $val))\n"@ =~= " "@ + "(local.get $"@ + "off"@ + ")"@
        + " "@ + "(local.get $"@ + "val"@ + ")"@ + ")"@ + "\n"@);
    assert(e + a + squeezed("off"@) + c + e + a + squeezed("val"@) + c + c + e =~= a + squeezed(
        "off"@,
    ) + c + a + squeezed("val"@) + c + c);
    assert("(if (i32.lt_u (local.get $pool) (i32.const "@ =~= "(if "@ + "("@ + "i32.lt_u"@ + " "@
        + "(local.get $"@ + "pool"@ + ")"@ + " "@ + "(i32.const "@);
    let d = squeezed("(if "@) + squeezed("("@) + squeezed("i32.lt_u"@);
    assert(d + e + a + squeezed("pool"@) + c + e + squeezed("(i32.const "@) =~= d + a + squeezed(
        "pool"@,
    ) + c + squeezed("(i32.const "@));
}

proof fn lemma_store_leaf(k: u32, op: Seq<char>)
    ensures
        squeezed(store_text(Tree::Leaf(k), op)) == squeezed(
            stmt_text(store_stmt(Tree::Leaf(k), op)),
        ),
{
    broadcast use group_text;

    lemma_blank_literals();
    lemma_store_words();
    let g = squeezed("(local.get $"@) + squeezed("off"@) + squeezed(")"@);
    let v = squeezed("(local.get $"@) + squeezed("val"@) + squeezed(")"@);
    assert(squeezed(expr_text(Expr::Get("off"@))) == g);
    assert(squeezed(expr_text(Expr::Get("val"@))) == v);
}

/// The text of a comparison of the pool, up to white space.
proof fn lemma_test_text(mid: u32)
    ensures
        squeezed(
            expr_text(
                Expr::Bin(
                    "i32.lt_u"@,
                    Box::new(Expr::Get("pool"@)),
                    Box::new(Expr::Num(mid as nat)),
                ),
            ),
        ) == squeezed("("@) + squeezed("i32.lt_u"@) + squeezed("(local.get $"@) + squeezed("pool"@)
            + squeezed(")"@) + squeezed("(i32.const "@) + squeezed(decimal(mid as nat)) + squeezed(
            ")"@,
        ) + squeezed(")"@),
{
    broadcast use group_text;

    lemma_blank_literals();
    let g = squeezed("(local.get $"@) + squeezed("pool"@) + squeezed(")"@);
    let num = squeezed("(i32.const "@) + squeezed(decimal(mid as nat)) + squeezed(")"@);
    assert(squeezed(expr_text(Expr::Get("pool"@))) == g);
    assert(squeezed(expr_text(Expr::Num(mid as nat))) == num);
}

/// The text of a tree of stores is that of the statement, up to white space.
proof fn lemma_store_text(t: Tree, op: Seq<char>)
    ensures
        squeezed(store_text(t, op)) == squeezed(stmt_text(store_stmt(t, op))),
    decreases t,
{
    match t {
        Tree::Leaf(k) => lemma_store_leaf(k, op),
        Tree::Node(mid, l, r) => {
            lemma_store_text(*l, op);
            lemma_store_text(*r, op);
            lemma_store_node(mid, l, r, op);
        },
    }
}

proof fn lemma_store_node(mid: u32, l: Box<Tree>, r: Box<Tree>, op: Seq<char>)
    requires
        squeezed(store_text(*l, op)) == squeezed(stmt_text(store_stmt(*l, op))),
        squeezed(store_text(*r, op)) == squeezed(stmt_text(store_stmt(*r, op))),
    ensures
        squeezed(store_text(Tree::Node(mid, l, r), op)) == squeezed(
            stmt_text(store_stmt(Tree::Node(mid, l, r), op)),
        ),
{
    broadcast use group_text;

    lemma_blank_literals();
    lemma_store_words();
    lemma_tree_words();
    lemma_test_text(mid);
    lemma_indented_squeezed(store_text(*l, op), 4);
    lemma_indented_squeezed(store_text(*r, op), 4);
    let t = Tree::Node(mid, l, r);
    let c = Expr::Bin(
        "i32.lt_u"@,
        Box::new(Expr::Get("pool"@)),
        Box::new(Expr::Num(mid as nat)),
    );
    let sl = squeezed(store_text(*l, op));
    let sr = squeezed(store_text(*r, op));
    assert(squeezed(stmt_text(store_stmt(t, op))) == squeezed("(if "@) + squeezed(expr_text(c))
        + squeezed(" (then "@) + sl + squeezed(") (else "@) + sr + squeezed("))"@));
}

proof fn lemma_store_head()
    ensures
        squeezed("\") (param $pool i32) (param $off i32) (param $val "@) == squeezed("\")"@)
            + declared_word("param"@, "pool"@, "i32"@) + declared_word("param"@, "off"@, "i32"@) + (
        squeezed("("@) + squeezed("param"@) + squeezed(" $"@) + squeezed("val"@)),
{
    broadcast use lemma_squeezed_add;

    lemma_blank_literals();
    reveal_strlit(" ");
    reveal_strlit("(");
    reveal_strlit(")");
    reveal_strlit("\")");
    reveal_strlit("param");
    reveal_strlit(" $");
    reveal_strlit("pool");
    reveal_strlit("off");
    reveal_strlit("val");
    reveal_strlit("i32");
    reveal_strlit("\") (param $pool i32) (param $off i32) (param $val ");
    let p = "("@ + "param"@ + " $"@ + "pool"@ + " "@ + "i32"@ + ")"@;
    let o = "("@ + "param"@ + " $"@ + "off"@ + " "@ + "i32"@ + ")"@;
    let v = "("@ + "param"@ + " $"@ + "val"@ + " "@;
    assert(p.len() == 17);
    assert(o.len() == 16);
    assert("\") (param $pool i32) (param $off i32) (param $val "@ =~= "\")"@ + " "@ + p + " "@ + o
        + " "@ + v);
    let e = Seq::<char>::empty();
    let sp = declared_word("param"@, "pool"@, "i32"@);
    let so = declared_word("param"@, "off"@, "i32"@);
    let sv = squeezed("("@) + squeezed("param"@) + squeezed(" $"@) + squeezed("val"@);
    assert(squeezed(p) =~= sp);
    assert(squeezed(o) =~= so);
    assert(squeezed(v) =~= sv);
    assert(squeezed("\")"@) + e + sp + e + so + e + sv =~= squeezed("\")"@) + sp + so + sv);
}

/// The text of a dispatcher for stores is that of the function, up to white space.
proof fn lemma_store_dispatcher(name: Seq<char>, op: Seq<char>, ty: Seq<char>, n: u32)
    ensures
        squeezed(store_dispatcher(name, op, ty, n)) == squeezed(
            func_text(store_func(name, op, ty, n)),
        ),
{
    broadcast use group_text;

    lemma_blank_literals();
    lemma_frame_words();
    lemma_store_head();
    lemma_check_text(n);
    let f = store_func(name, op, ty, n);
    let t = dispatch_tree(0, n);
    lemma_store_text(t, op);
    lemma_indented_squeezed(store_text(t, op), 4);
    let e = Seq::<char>::empty();
    lemma_declared("param"@, f.params, 3);
    lemma_declared("param"@, f.params, 2);
    lemma_declared("param"@, f.params, 1);
    assert(squeezed(declared_text("param"@, f.params, 0)) == e);
    assert(squeezed(declared_text("local"@, f.locals, 0)) == e);
    let sp = declared_word("param"@, "pool"@, "i32"@);
    let so = declared_word("param"@, "off"@, "i32"@);
    let sv = declared_word("param"@, "val"@, ty);
    assert(squeezed(declared_text("param"@, f.params, 3)) == sp + so + sv);
    let body = squeezed(stmt_text(store_stmt(t, op)));
    let check = squeezed(stmt_text(pool_check("pool"@, n)));
    assert(squeezed(stmt_text(f.code)) == check + body);
    let start = squeezed("(func $"@) + squeezed(name) + squeezed(" (export \""@) + squeezed(name);
    let half = squeezed("("@) + squeezed("param"@) + squeezed(" $"@) + squeezed("val"@);
    assert(squeezed(func_text(f)) == start + squeezed("\")"@) + (sp + so + sv) + e + e + (check
        + body) + e + squeezed(")"@));
    assert(squeezed(store_dispatcher(name, op, ty, n)) == start + (squeezed("\")"@) + sp + so
        + half) + squeezed(ty) + squeezed(")"@) + check + body + squeezed(")"@));
    assert(half + squeezed(ty) + squeezed(")"@) == sv);
    assert(start + squeezed("\")"@) + (sp + so + sv) + e + e + (check + body) + e + squeezed(")"@)
        == start + (squeezed("\")"@) + sp + so + half) + squeezed(ty) + squeezed(")"@) + check
        + body + squeezed(")"@));
}

proof fn lemma_store_done(
    t: Tree,
    op: Seq<char>,
    env: Map<Seq<char>, nat>,
    w: World,
    pool: u32,
)
    requires
        env.contains_key("pool"@),
        env["pool"@] == pool,
    ensures
        done(store_stmt(t, op), env, w) == done(
            Stmt::Store(op, picked(t, pool) as nat, Expr::Get("off"@), Expr::Get("val"@)),
            env,
            w,
        ),
    decreases t,
{
    match t {
        Tree::Leaf(k) => {},
        Tree::Node(mid, l, r) => {
            lemma_store_done(*l, op, env, w, pool);
            lemma_store_done(*r, op, env, w, pool);
            let c = Expr::Bin(
                "i32.lt_u"@,
                Box::new(Expr::Get("pool"@)),
                Box::new(Expr::Num(mid as nat)),
            );
            assert(value_of(Expr::Get("pool"@), env, w) == Some(pool as nat));
            assert(value_of(Expr::Num(mid as nat), env, w) == Some(mid as nat));
            assert(value_of(c, env, w) == Some(truth(pool < mid)));
        },
    }
}

proof fn lemma_store_func(name: Seq<char>, op: Seq<char>, ty: Seq<char>, n: u32, width: nat)
    requires
        n > 0,
        store_width(op) == Some(width),
    ensures
        stores(store_func(name, op, ty, n), n, width),
{
    lemma_op_names();
    let f = store_func(name, op, ty, n);
    assert forall|w: World, pool: nat, off: nat, v: nat| w.mems.len() == n implies #[trigger] called(
        f,
        args3(pool, off, v),
        w,
    ) == (if pool < n && off + width <= w.mems[pool as int].len() {
        Some(
            (
                World {
                    mems: w.mems.update(
                        pool as int,
                        laid_over(w.mems[pool as int], off as int, bytes_of(v, width)),
                    ),
                    ..w
                },
                0nat,
            ),
        )
    } else {
        None
    }) by {
        let args = args3(pool, off, v);
        let env = bound(f.params, args, 3);
        reveal_with_fuel(bound, 4);
        assert(env == Map::<Seq<char>, nat>::empty().insert("pool"@, pool).insert(
            "off"@,
            off,
        ).insert("val"@, v));
        lemma_check_done("pool"@, n, env, w);
        if pool < n {
            let t = dispatch_tree(0, n);
            lemma_store_done(t, op, env, w, pool as u32);
            law_dispatch_picks_pool(0, n, pool as u32);
            assert(value_of(Expr::Get("off"@), env, w) == Some(off));
            assert(value_of(Expr::Get("val"@), env, w) == Some(v));
        }
    }
}

// ---------------------------------------------------------------------------
// The module holds them
// ---------------------------------------------------------------------------

pub(crate) proof fn lemma_offers_left(a: Seq<char>, b: Seq<char>, f: Func)
    requires
        offers(a, f),
    ensures
        offers(a + b, f),
{
    lemma_squeezed_add(a, b);
    let x = squeezed(func_text(f));
    let (p, q) = choose|p: Seq<char>, q: Seq<char>| squeezed(a) == #[trigger] (p + x + q);
    assert(squeezed(a + b) =~= p + x + (q + squeezed(b)));
}

pub(crate) proof fn lemma_offers_right(a: Seq<char>, b: Seq<char>, f: Func)
    requires
        offers(b, f),
    ensures
        offers(a + b, f),
{
    lemma_squeezed_add(a, b);
    let x = squeezed(func_text(f));
    let (p, q) = choose|p: Seq<char>, q: Seq<char>| squeezed(b) == #[trigger] (p + x + q);
    assert(squeezed(a + b) =~= (squeezed(a) + p) + x + q);
}

pub(crate) proof fn lemma_offers_itself(text: Seq<char>, f: Func)
    requires
        squeezed(text) == squeezed(func_text(f)),
    ensures
        offers(text, f),
{
    let e = Seq::<char>::empty();
    assert(squeezed(text) =~= e + squeezed(func_text(f)) + e);
}

/// Whatever stands behind it, a text offers what it starts with.
pub(crate) proof fn lemma_dispatchers_in_module(p: ModuleParams, spilling: bool, f: Func)
    requires
        forall|out: Seq<char>| #[trigger] offers(with_dispatchers(out, p.n_pools), f),
    ensures
        offers(shell_text(p, spilling), f),
{
    let n = p.n_pools;
    let head = if spilling {
        "(module\n"@ + WASI_IMPORTS@
    } else {
        "(module\n"@
    };
    let out = with_memories(head, p.initial_pages_per_pool, p.max_pages_per_pool, n as int)
        + "\n"@;
    let a = with_dispatchers(out, n);
    if spilling {
        lemma_offers_left(a, WASI_SPILL_HELPERS@, f);
        lemma_offers_in_body(a + WASI_SPILL_HELPERS@, p.user_body@, f);
    } else {
        let b = a + typed_helpers_text(n as int);
        let c = b + per_pool(INTRA_POOL_COPY@, n as int);
        let d = c + indirect_text(n);
        let e = d + per_pool(SIMD_SUM_U8@, n as int);
        lemma_offers_left(a, typed_helpers_text(n as int), f);
        lemma_offers_left(b, per_pool(INTRA_POOL_COPY@, n as int), f);
        lemma_offers_left(c, indirect_text(n), f);
        lemma_offers_left(d, per_pool(SIMD_SUM_U8@, n as int), f);
        lemma_offers_left(e, reducers_text(n as int), f);
        lemma_offers_in_body(e + reducers_text(n as int), p.user_body@, f);
    }
}

pub(crate) proof fn lemma_offers_in_body(a: Seq<char>, body: Seq<char>, f: Func)
    requires
        offers(a, f),
    ensures
        offers(with_body(a, body), f),
{
    let b = a + "\n  ;; --- user body begins ---\n"@;
    let c = b + body;
    let d = c + "\n  ;; --- user body ends ---\n"@;
    lemma_offers_left(a, "\n  ;; --- user body begins ---\n"@, f);
    lemma_offers_left(b, body, f);
    lemma_offers_left(c, "\n  ;; --- user body ends ---\n"@, f);
    lemma_offers_left(d, ")\n"@, f);
}

/// The text of a module, with or without the helpers that spill.
pub open spec fn shell_text(p: ModuleParams, spilling: bool) -> Seq<char> {
    if spilling {
        spill_module_text(p)
    } else {
        module_text(p)
    }
}

/// The module has a load under this name.
pub open spec fn has_load(text: Seq<char>, name: Seq<char>, n: u32, width: nat) -> bool {
    exists|f: Func| f.name == name && #[trigger] offers(text, f) && loads(f, n, width)
}

/// The module has a store under this name.
pub open spec fn has_store(text: Seq<char>, name: Seq<char>, n: u32, width: nat) -> bool {
    exists|f: Func| f.name == name && #[trigger] offers(text, f) && stores(f, n, width)
}

/// Every generated module has the loads and stores of one, four and eight bytes that take
/// their pool at run time, and they read and write just those bytes of that pool.
pub proof fn law_module_loads_and_stores(p: ModuleParams, spilling: bool)
    requires
        p.n_pools > 0,
    ensures
        has_load(shell_text(p, spilling), "tvm_load_u8"@, p.n_pools, 1),
        has_load(shell_text(p, spilling), "tvm_load_u32"@, p.n_pools, 4),
        has_load(shell_text(p, spilling), "tvm_load_i64"@, p.n_pools, 8),
        has_store(shell_text(p, spilling), "tvm_store_u8"@, p.n_pools, 1),
        has_store(shell_text(p, spilling), "tvm_store_u32"@, p.n_pools, 4),
        has_store(shell_text(p, spilling), "tvm_store_i64"@, p.n_pools, 8),
{
    lemma_op_names();
    assert(has_load(shell_text(p, spilling), "tvm_load_u8"@, p.n_pools, 1)) by {
        let f = load_func("tvm_load_u8"@, "i32.load8_u"@, "i32"@, p.n_pools);
        lemma_load_func("tvm_load_u8"@, "i32.load8_u"@, "i32"@, p.n_pools, 1);
        assert forall|out: Seq<char>| #[trigger] offers(with_dispatchers(out, p.n_pools), f) by {
            lemma_dispatchers_offer(out, p.n_pools);
        }
        lemma_dispatchers_in_module(p, spilling, f);
    }
    assert(has_load(shell_text(p, spilling), "tvm_load_u32"@, p.n_pools, 4)) by {
        let f = load_func("tvm_load_u32"@, "i32.load"@, "i32"@, p.n_pools);
        lemma_load_func("tvm_load_u32"@, "i32.load"@, "i32"@, p.n_pools, 4);
        assert forall|out: Seq<char>| #[trigger] offers(with_dispatchers(out, p.n_pools), f) by {
            lemma_dispatchers_offer(out, p.n_pools);
        }
        lemma_dispatchers_in_module(p, spilling, f);
    }
    assert(has_load(shell_text(p, spilling), "tvm_load_i64"@, p.n_pools, 8)) by {
        let f = load_func("tvm_load_i64"@, "i64.load"@, "i64"@, p.n_pools);
        lemma_load_func("tvm_load_i64"@, "i64.load"@, "i64"@, p.n_pools, 8);
        assert forall|out: Seq<char>| #[trigger] offers(with_dispatchers(out, p.n_pools), f) by {
            lemma_dispatchers_offer(out, p.n_pools);
        }
        lemma_dispatchers_in_module(p, spilling, f);
    }
    assert(has_store(shell_text(p, spilling), "tvm_store_u8"@, p.n_pools, 1)) by {
        let f = store_func("tvm_store_u8"@, "i32.store8"@, "i32"@, p.n_pools);
        lemma_store_func("tvm_store_u8"@, "i32.store8"@, "i32"@, p.n_pools, 1);
        assert forall|out: Seq<char>| #[trigger] offers(with_dispatchers(out, p.n_pools), f) by {
            lemma_dispatchers_offer(out, p.n_pools);
        }
        lemma_dispatchers_in_module(p, spilling, f);
    }
    assert(has_store(shell_text(p, spilling), "tvm_store_u32"@, p.n_pools, 4)) by {
        let f = store_func("tvm_store_u32"@, "i32.store"@, "i32"@, p.n_pools);
        lemma_store_func("tvm_store_u32"@, "i32.store"@, "i32"@, p.n_pools, 4);
        assert forall|out: Seq<char>| #[trigger] offers(with_dispatchers(out, p.n_pools), f) by {
            lemma_dispatchers_offer(out, p.n_pools);
        }
        lemma_dispatchers_in_module(p, spilling, f);
    }
    assert(has_store(shell_text(p, spilling), "tvm_store_i64"@, p.n_pools, 8)) by {
        let f = store_func("tvm_store_i64"@, "i64.store"@, "i64"@, p.n_pools);
        lemma_store_func("tvm_store_i64"@, "i64.store"@, "i64"@, p.n_pools, 8);
        assert forall|out: Seq<char>| #[trigger] offers(with_dispatchers(out, p.n_pools), f) by {
            lemma_dispatchers_offer(out, p.n_pools);
        }
        lemma_dispatchers_in_module(p, spilling, f);
    }
}

proof fn lemma_dispatchers_offer(out: Seq<char>, n: u32)
    ensures
        offers(
            with_dispatchers(out, n),
            load_func("tvm_load_u8"@, "i32.load8_u"@, "i32"@, n),
        ),
        offers(with_dispatchers(out, n), load_func("tvm_load_u32"@, "i32.load"@, "i32"@, n)),
        offers(with_dispatchers(out, n), load_func("tvm_load_i64"@, "i64.load"@, "i64"@, n)),
        offers(
            with_dispatchers(out, n),
            store_func("tvm_store_u8"@, "i32.store8"@, "i32"@, n),
        ),
        offers(with_dispatchers(out, n), store_func("tvm_store_u32"@, "i32.store"@, "i32"@, n)),
        offers(with_dispatchers(out, n), store_func("tvm_store_i64"@, "i64.store"@, "i64"@, n)),
{
    let d1 = load_dispatcher("tvm_load_u8"@, "i32.load8_u"@, "i32"@, n);
    let d2 = load_dispatcher("tvm_load_u32"@, "i32.load"@, "i32"@, n);
    let d3 = load_dispatcher("tvm_load_i64"@, "i64.load"@, "i64"@, n);
    let d4 = store_dispatcher("tvm_store_u8"@, "i32.store8"@, "i32"@, n);
    let d5 = store_dispatcher("tvm_store_u32"@, "i32.store"@, "i32"@, n);
    let d6 = store_dispatcher("tvm_store_i64"@, "i64.store"@, "i64"@, n);
    let f1 = load_func("tvm_load_u8"@, "i32.load8_u"@, "i32"@, n);
    let f2 = load_func("tvm_load_u32"@, "i32.load"@, "i32"@, n);
    let f3 = load_func("tvm_load_i64"@, "i64.load"@, "i64"@, n);
    let f4 = store_func("tvm_store_u8"@, "i32.store8"@, "i32"@, n);
    let f5 = store_func("tvm_store_u32"@, "i32.store"@, "i32"@, n);
    let f6 = store_func("tvm_store_i64"@, "i64.store"@, "i64"@, n);
    lemma_load_dispatcher("tvm_load_u8"@, "i32.load8_u"@, "i32"@, n);
    lemma_load_dispatcher("tvm_load_u32"@, "i32.load"@, "i32"@, n);
    lemma_load_dispatcher("tvm_load_i64"@, "i64.load"@, "i64"@, n);
    lemma_store_dispatcher("tvm_store_u8"@, "i32.store8"@, "i32"@, n);
    lemma_store_dispatcher("tvm_store_u32"@, "i32.store"@, "i32"@, n);
    lemma_store_dispatcher("tvm_store_i64"@, "i64.store"@, "i64"@, n);
    lemma_offers_itself(d1, f1);
    lemma_offers_itself(d2, f2);
    lemma_offers_itself(d3, f3);
    lemma_offers_itself(d4, f4);
    lemma_offers_itself(d5, f5);
    lemma_offers_itself(d6, f6);
    lemma_offers_right(out, d1, f1);
    lemma_offers_right(out + d1, d2, f2);
    lemma_offers_right(out + d1 + d2, d3, f3);
    lemma_offers_right(out + d1 + d2 + d3, d4, f4);
    lemma_offers_right(out + d1 + d2 + d3 + d4, d5, f5);
    lemma_offers_right(out + d1 + d2 + d3 + d4 + d5, d6, f6);
    lemma_offers_left(out + d1, d2, f1);
    lemma_offers_left(out + d1 + d2, d3, f1);
    lemma_offers_left(out + d1 + d2, d3, f2);
    lemma_offers_left(out + d1 + d2 + d3, d4, f1);
    lemma_offers_left(out + d1 + d2 + d3, d4, f2);
    lemma_offers_left(out + d1 + d2 + d3, d4, f3);
    lemma_offers_left(out + d1 + d2 + d3 + d4, d5, f1);
    lemma_offers_left(out + d1 + d2 + d3 + d4, d5, f2);
    lemma_offers_left(out + d1 + d2 + d3 + d4, d5, f3);
    lemma_offers_left(out + d1 + d2 + d3 + d4, d5, f4);
    let all = out + d1 + d2 + d3 + d4 + d5 + d6;
    lemma_offers_left(out + d1 + d2 + d3 + d4 + d5, d6, f1);
    lemma_offers_left(out + d1 + d2 + d3 + d4 + d5, d6, f2);
    lemma_offers_left(out + d1 + d2 + d3 + d4 + d5, d6, f3);
    lemma_offers_left(out + d1 + d2 + d3 + d4 + d5, d6, f4);
    lemma_offers_left(out + d1 + d2 + d3 + d4 + d5, d6, f5);
    lemma_offers_before_copies(all, n, f1);
    lemma_offers_before_copies(all, n, f2);
    lemma_offers_before_copies(all, n, f3);
    lemma_offers_before_copies(all, n, f4);
    lemma_offers_before_copies(all, n, f5);
    lemma_offers_before_copies(all, n, f6);
}

proof fn lemma_offers_before_copies(all: Seq<char>, n: u32, f: Func)
    requires
        offers(all, f),
    ensures
        offers(
            all + copy_to_dispatcher(n) + copy_from_dispatcher(n) + copy_helpers_text(n as int),
            f,
        ),
{
    let a = all + copy_to_dispatcher(n);
    let b = a + copy_from_dispatcher(n);
    lemma_offers_left(all, copy_to_dispatcher(n), f);
    lemma_offers_left(a, copy_from_dispatcher(n), f);
    lemma_offers_left(b, copy_helpers_text(n as int), f);
}

proof fn lemma_laid_over(bytes: Seq<u8>, at: int, data: Seq<u8>)
    requires
        0 <= at,
        at + data.len() <= bytes.len(),
    ensures
        laid_over(bytes, at, data).len() == bytes.len(),
        laid_over(bytes, at, data).subrange(at, at + data.len()) == data,
        forall|b: int|
            0 <= b < bytes.len() && (b < at || b >= at + data.len()) ==> #[trigger] laid_over(
                bytes,
                at,
                data,
            )[b] == bytes[b],
{
    assert(laid_over(bytes, at, data).subrange(at, at + data.len()) =~= data);
}

/// A load of a module gives back what the store of the same width put there.
pub open spec fn gives_back(
    text: Seq<char>,
    load_name: Seq<char>,
    store_name: Seq<char>,
    width: nat,
    w: World,
    pool: nat,
    off: nat,
    v: nat,
) -> bool {
    exists|load: Func, store: Func|
        {
            &&& load.name == load_name
            &&& store.name == store_name
            &&& #[trigger] offers(text, load)
            &&& #[trigger] offers(text, store)
            &&& called(store, seq![pool, off, v], w) matches Some((after, _)) && called(
                load,
                seq![pool, off],
                after,
            ) == Some((after, v))
        }
}

/// In every generated module, a load that follows a store of the same width at the same
/// pool and offset gives back the stored number, all of it, wherever that lies inside the
/// pool: for one byte, four bytes and eight bytes.
pub proof fn law_load_gives_back_store(
    p: ModuleParams,
    spilling: bool,
    w: World,
    pool: nat,
    off: nat,
    v: nat,
)
    requires
        w.mems.len() == p.n_pools,
        pool < p.n_pools,
    ensures
        off + 1 <= w.mems[pool as int].len() && v < 0x100 ==> gives_back(
            shell_text(p, spilling),
            "tvm_load_u8"@,
            "tvm_store_u8"@,
            1,
            w,
            pool,
            off,
            v,
        ),
        off + 4 <= w.mems[pool as int].len() && v < 0x1_0000_0000 ==> gives_back(
            shell_text(p, spilling),
            "tvm_load_u32"@,
            "tvm_store_u32"@,
            4,
            w,
            pool,
            off,
            v,
        ),
        off + 8 <= w.mems[pool as int].len() && v < 0x1_0000_0000_0000_0000 ==> gives_back(
            shell_text(p, spilling),
            "tvm_load_i64"@,
            "tvm_store_i64"@,
            8,
            w,
            pool,
            off,
            v,
        ),
{
    law_module_loads_and_stores(p, spilling);
    let text = shell_text(p, spilling);
    lemma_gives_back(text, "tvm_load_u8"@, "tvm_store_u8"@, p.n_pools, 1, w, pool, off, v);
    lemma_gives_back(text, "tvm_load_u32"@, "tvm_store_u32"@, p.n_pools, 4, w, pool, off, v);
    lemma_gives_back(text, "tvm_load_i64"@, "tvm_store_i64"@, p.n_pools, 8, w, pool, off, v);
}

proof fn lemma_gives_back(
    text: Seq<char>,
    load_name: Seq<char>,
    store_name: Seq<char>,
    n: u32,
    width: nat,
    w: World,
    pool: nat,
    off: nat,
    v: nat,
)
    requires
        has_load(text, load_name, n, width),
        has_store(text, store_name, n, width),
        w.mems.len() == n,
        pool < n,
    ensures
        off + width <= w.mems[pool as int].len() && number_of(bytes_of(v, width)) == v
            && bytes_of(v, width).len() == width ==> gives_back(
            text,
            load_name,
            store_name,
            width,
            w,
            pool,
            off,
            v,
        ),
        width == 1 && v < 0x100 || width == 4 && v < 0x1_0000_0000 || width == 8 && v
            < 0x1_0000_0000_0000_0000 ==> number_of(bytes_of(v, width)) == v && bytes_of(
            v,
            width,
        ).len() == width,
{
    lemma_number_of_bytes(v, width);
    let load = choose|f: Func|
        f.name == load_name && #[trigger] offers(text, f) && loads(f, n, width);
    let store = choose|f: Func|
        f.name == store_name && #[trigger] offers(text, f) && stores(f, n, width);
    if off + width <= w.mems[pool as int].len() && number_of(bytes_of(v, width)) == v {
        let data = bytes_of(v, width);
        let m = w.mems[pool as int];
        lemma_laid_over(m, off as int, data);
        let after = World { mems: w.mems.update(pool as int, laid_over(m, off as int, data)), ..w };
        assert(called(store, args3(pool, off, v), w) == Some((after, 0nat)));
        assert(called(load, args2(pool, off), after) == Some((after, v)));
        assert(offers(text, load) && offers(text, store));
    }
}

/// A store changes no byte outside its own, in its pool or in another.
pub proof fn law_store_is_local(
    f: Func,
    n: u32,
    width: nat,
    w: World,
    pool: nat,
    off: nat,
    v: nat,
    after: World,
    r: nat,
    k: int,
    b: int,
)
    requires
        stores(f, n, width),
        w.mems.len() == n,
        called(f, args3(pool, off, v), w) == Some((after, r)),
        0 <= k < n,
        0 <= b < w.mems[k].len(),
        k != pool || b < off || b >= off + width,
    ensures
        after.mems.len() == n,
        after.mems[k].len() == w.mems[k].len(),
        after.mems[k][b] == w.mems[k][b],
{
    lemma_number_of_bytes(v, width);
    lemma_laid_over(w.mems[pool as int], off as int, bytes_of(v, width));
}

} // verus!
