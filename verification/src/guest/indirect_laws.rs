//! What the loads that go through a function table do: each calls the load of the pool that it
//! is asked for.
use vstd::prelude::*;
use crate::text::decimal;
use super::copy_laws::{lemma_fill_add, lemma_fill_place, lemma_fill_plain, pool_name};
use super::dispatch::{indirect_text, per_pool, reducers_text, typed_helpers_text, INDIRECT_TYPES};
use super::kernels::{INDIRECT_LOADS, INTRA_POOL_COPY, SIMD_SUM_U8};
use super::meaning::{
    bound, declared_text, done, expr_text, lemma_add_nothing, lemma_blank_literals,
    lemma_nothing_add, lemma_squeezed_add, squeezed, stmt_text, value_of, Expr, Stmt, World,
};
use super::module::{module_text, with_body, with_dispatchers, with_memories, ModuleParams};
use super::shell_laws::{
    args2, declared_word, lemma_check_done, lemma_check_text, lemma_declared, pool_check,
};
use super::wat::fill;

verus! {

// ---------------------------------------------------------------------------
// Calls through a table
// ---------------------------------------------------------------------------

/// A function that is exported under its own name, runs its code, and then calls the
/// function at a place of a table, with one argument, and hands out what that gives.
pub struct TableCall {
    pub name: Seq<char>,
    /// Names and types.
    pub params: Seq<(Seq<char>, Seq<char>)>,
    pub result: Seq<char>,
    pub code: Stmt,
    pub table: Seq<char>,
    pub sig: Seq<char>,
    pub arg: Expr,
    pub place: Expr,
}

pub open spec fn call_text(f: TableCall) -> Seq<char> {
    "(func $"@ + f.name + " (export \""@ + f.name + "\")"@ + declared_text(
        "param"@,
        f.params,
        f.params.len() as int,
    ) + "(result "@ + f.result + ")"@ + stmt_text(f.code) + "(call_indirect $"@ + f.table
        + " (type $"@ + f.sig + ")"@ + " "@ + expr_text(f.arg) + " "@ + expr_text(f.place) + ")"@
        + ")"@
}

/// The names of functions, the first `n` of them.
pub open spec fn listed_names(names: Seq<Seq<char>>, n: int) -> Seq<char>
    decreases n,
{
    if n <= 0 {
        Seq::empty()
    } else {
        listed_names(names, n - 1) + " $"@ + names[n - 1]
    }
}

/// A table that holds the named functions, in their order.
pub open spec fn table_text(name: Seq<char>, names: Seq<Seq<char>>) -> Seq<char> {
    "(table $"@ + name + " funcref (elem"@ + listed_names(names, names.len() as int) + ")"@ + ")"@
}

/// The type of functions from an address to a value.
pub open spec fn sig_text(name: Seq<char>, result: Seq<char>) -> Seq<char> {
    "(type $"@ + name + " (func (param i32) (result "@ + result + ")"@ + ")"@ + ")"@
}

/// The place in the table that a call goes to, and the argument that it hands on; nothing
/// where it traps before.
pub open spec fn target_of(f: TableCall, args: Seq<nat>, w: World) -> Option<(nat, nat)> {
    if args.len() != f.params.len() {
        None
    } else {
        match done(f.code, bound(f.params, args, f.params.len() as int), w) {
            None => None,
            Some((env, w2)) => match (value_of(f.arg, env, w2), value_of(f.place, env, w2)) {
                (Some(a), Some(i)) => Some((i, a)),
                _ => None,
            },
        }
    }
}

/// The text holds the part, up to white space.
pub open spec fn holds_part(text: Seq<char>, part: Seq<char>) -> bool {
    exists|a: Seq<char>, b: Seq<char>|
        squeezed(text) == #[trigger] (a + squeezed(part) + b)
}

pub(crate) proof fn lemma_holds_left(a: Seq<char>, b: Seq<char>, part: Seq<char>)
    requires
        holds_part(a, part),
    ensures
        holds_part(a + b, part),
{
    lemma_squeezed_add(a, b);
    let x = squeezed(part);
    let (p, q) = choose|p: Seq<char>, q: Seq<char>| squeezed(a) == #[trigger] (p + x + q);
    assert(squeezed(a + b) =~= p + x + (q + squeezed(b)));
}

pub(crate) proof fn lemma_holds_right(a: Seq<char>, b: Seq<char>, part: Seq<char>)
    requires
        holds_part(b, part),
    ensures
        holds_part(a + b, part),
{
    lemma_squeezed_add(a, b);
    let x = squeezed(part);
    let (p, q) = choose|p: Seq<char>, q: Seq<char>| squeezed(b) == #[trigger] (p + x + q);
    assert(squeezed(a + b) =~= (squeezed(a) + p) + x + q);
}

pub(crate) proof fn lemma_holds_itself(text: Seq<char>, part: Seq<char>)
    requires
        squeezed(text) == squeezed(part),
    ensures
        holds_part(text, part),
{
    let e = Seq::<char>::empty();
    assert(squeezed(text) =~= e + squeezed(part) + e);
}

// ---------------------------------------------------------------------------
// Words
// ---------------------------------------------------------------------------

/// The indirect load of a byte, for `n` pools.
spec fn load_u8_text(n: nat) -> Seq<char> {
    "  (func $tvm_load_u8_indirect (export \"tvm_load_u8_indirect\")\n        (param $pool i32) (param $off i32) (result i32)\n"@ + "    (if (i32.ge_u (local.get $pool) (i32.const "@
        + decimal(n) + ")) (then unreachable))\n"@
        + "    (call_indirect $tvm_tbl_load_u8 (type $tvm_indirect_load_u8)\n      (local.get $off) (local.get $pool)))\n"@
}

/// The indirect load of four bytes, for `n` pools.
spec fn load_u32_text(n: nat) -> Seq<char> {
    "  (func $tvm_load_u32_indirect (export \"tvm_load_u32_indirect\")\n        (param $pool i32) (param $off i32) (result i32)\n"@ + "    (if (i32.ge_u (local.get $pool) (i32.const "@
        + decimal(n) + ")) (then unreachable))\n"@
        + "    (call_indirect $tvm_tbl_load_u32 (type $tvm_indirect_load_u32)\n      (local.get $off) (local.get $pool)))\n"@
}

/// The indirect load of eight bytes, for `n` pools.
spec fn load_i64_text(n: nat) -> Seq<char> {
    "  (func $tvm_load_i64_indirect (export \"tvm_load_i64_indirect\")\n        (param $pool i32) (param $off i32) (result i64)\n"@ + "    (if (i32.ge_u (local.get $pool) (i32.const "@
        + decimal(n) + ")) (then unreachable))\n"@
        + "    (call_indirect $tvm_tbl_load_i64 (type $tvm_indirect_load_i64)\n      (local.get $off) (local.get $pool)))\n"@
}

#[verifier::rlimit(60)]
proof fn lemma_fill_indirect(n: nat)
    ensures
        fill(INDIRECT_LOADS@, n) == load_u8_text(n) + load_u32_text(n) + load_i64_text(n),
{
    broadcast use lemma_fill_add;

    lemma_template();
    lemma_fill_place(n);
    lemma_fill_u8(n);
    lemma_fill_u32(n);
    lemma_fill_i64(n);
}

/// The same with a place for the number.
spec fn open_u8_text() -> Seq<char> {
    "  (func $tvm_load_u8_indirect (export \"tvm_load_u8_indirect\")\n        (param $pool i32) (param $off i32) (result i32)\n"@ + "    (if (i32.ge_u (local.get $pool) (i32.const "@ + "@"@
        + ")) (then unreachable))\n"@ + "    (call_indirect $tvm_tbl_load_u8 (type $tvm_indirect_load_u8)\n      (local.get $off) (local.get $pool)))\n"@
}

proof fn lemma_fill_u8(n: nat)
    ensures
        fill(open_u8_text(), n) == load_u8_text(n),
{
    broadcast use lemma_fill_add;

    lemma_fill_place(n);
    reveal_strlit("  (func $tvm_load_u8_indirect (export \"tvm_load_u8_indirect\")\n        (param $pool i32) (param $off i32) (result i32)\n");
    lemma_fill_plain("  (func $tvm_load_u8_indirect (export \"tvm_load_u8_indirect\")\n        (param $pool i32) (param $off i32) (result i32)\n"@, n);
    reveal_strlit("    (if (i32.ge_u (local.get $pool) (i32.const ");
    lemma_fill_plain("    (if (i32.ge_u (local.get $pool) (i32.const "@, n);
    reveal_strlit(")) (then unreachable))\n");
    lemma_fill_plain(")) (then unreachable))\n"@, n);
    reveal_strlit("    (call_indirect $tvm_tbl_load_u8 (type $tvm_indirect_load_u8)\n      (local.get $off) (local.get $pool)))\n");
    lemma_fill_plain("    (call_indirect $tvm_tbl_load_u8 (type $tvm_indirect_load_u8)\n      (local.get $off) (local.get $pool)))\n"@, n);
}

/// The same with a place for the number.
spec fn open_u32_text() -> Seq<char> {
    "  (func $tvm_load_u32_indirect (export \"tvm_load_u32_indirect\")\n        (param $pool i32) (param $off i32) (result i32)\n"@ + "    (if (i32.ge_u (local.get $pool) (i32.const "@ + "@"@
        + ")) (then unreachable))\n"@ + "    (call_indirect $tvm_tbl_load_u32 (type $tvm_indirect_load_u32)\n      (local.get $off) (local.get $pool)))\n"@
}

proof fn lemma_fill_u32(n: nat)
    ensures
        fill(open_u32_text(), n) == load_u32_text(n),
{
    broadcast use lemma_fill_add;

    lemma_fill_place(n);
    reveal_strlit("  (func $tvm_load_u32_indirect (export \"tvm_load_u32_indirect\")\n        (param $pool i32) (param $off i32) (result i32)\n");
    lemma_fill_plain("  (func $tvm_load_u32_indirect (export \"tvm_load_u32_indirect\")\n        (param $pool i32) (param $off i32) (result i32)\n"@, n);
    reveal_strlit("    (if (i32.ge_u (local.get $pool) (i32.const ");
    lemma_fill_plain("    (if (i32.ge_u (local.get $pool) (i32.const "@, n);
    reveal_strlit(")) (then unreachable))\n");
    lemma_fill_plain(")) (then unreachable))\n"@, n);
    reveal_strlit("    (call_indirect $tvm_tbl_load_u32 (type $tvm_indirect_load_u32)\n      (local.get $off) (local.get $pool)))\n");
    lemma_fill_plain("    (call_indirect $tvm_tbl_load_u32 (type $tvm_indirect_load_u32)\n      (local.get $off) (local.get $pool)))\n"@, n);
}

/// The same with a place for the number.
spec fn open_i64_text() -> Seq<char> {
    "  (func $tvm_load_i64_indirect (export \"tvm_load_i64_indirect\")\n        (param $pool i32) (param $off i32) (result i64)\n"@ + "    (if (i32.ge_u (local.get $pool) (i32.const "@ + "@"@
        + ")) (then unreachable))\n"@ + "    (call_indirect $tvm_tbl_load_i64 (type $tvm_indirect_load_i64)\n      (local.get $off) (local.get $pool)))\n"@
}

proof fn lemma_fill_i64(n: nat)
    ensures
        fill(open_i64_text(), n) == load_i64_text(n),
{
    broadcast use lemma_fill_add;

    lemma_fill_place(n);
    reveal_strlit("  (func $tvm_load_i64_indirect (export \"tvm_load_i64_indirect\")\n        (param $pool i32) (param $off i32) (result i64)\n");
    lemma_fill_plain("  (func $tvm_load_i64_indirect (export \"tvm_load_i64_indirect\")\n        (param $pool i32) (param $off i32) (result i64)\n"@, n);
    reveal_strlit("    (if (i32.ge_u (local.get $pool) (i32.const ");
    lemma_fill_plain("    (if (i32.ge_u (local.get $pool) (i32.const "@, n);
    reveal_strlit(")) (then unreachable))\n");
    lemma_fill_plain(")) (then unreachable))\n"@, n);
    reveal_strlit("    (call_indirect $tvm_tbl_load_i64 (type $tvm_indirect_load_i64)\n      (local.get $off) (local.get $pool)))\n");
    lemma_fill_plain("    (call_indirect $tvm_tbl_load_i64 (type $tvm_indirect_load_i64)\n      (local.get $off) (local.get $pool)))\n"@, n);
}

#[verifier::rlimit(100)]
proof fn lemma_template()
    ensures
        INDIRECT_LOADS@ == open_u8_text() + open_u32_text() + open_i64_text(),
{
    reveal_strlit("  (func $tvm_load_u8_indirect (export \"tvm_load_u8_indirect\")\n        (param $pool i32) (param $off i32) (result i32)\n");
    reveal_strlit("    (if (i32.ge_u (local.get $pool) (i32.const ");
    reveal_strlit("@");
    reveal_strlit(")) (then unreachable))\n");
    reveal_strlit("    (call_indirect $tvm_tbl_load_u8 (type $tvm_indirect_load_u8)\n      (local.get $off) (local.get $pool)))\n");
    reveal_strlit("  (func $tvm_load_u32_indirect (export \"tvm_load_u32_indirect\")\n        (param $pool i32) (param $off i32) (result i32)\n");
    reveal_strlit("    (call_indirect $tvm_tbl_load_u32 (type $tvm_indirect_load_u32)\n      (local.get $off) (local.get $pool)))\n");
    reveal_strlit("  (func $tvm_load_i64_indirect (export \"tvm_load_i64_indirect\")\n        (param $pool i32) (param $off i32) (result i64)\n");
    reveal_strlit("    (call_indirect $tvm_tbl_load_i64 (type $tvm_indirect_load_i64)\n      (local.get $off) (local.get $pool)))\n");
    reveal_strlit(r#"  (func $tvm_load_u8_indirect (export "tvm_load_u8_indirect")
        (param $pool i32) (param $off i32) (result i32)
    (if (i32.ge_u (local.get $pool) (i32.const @)) (then unreachable))
    (call_indirect $tvm_tbl_load_u8 (type $tvm_indirect_load_u8)
      (local.get $off) (local.get $pool)))
  (func $tvm_load_u32_indirect (export "tvm_load_u32_indirect")
        (param $pool i32) (param $off i32) (result i32)
    (if (i32.ge_u (local.get $pool) (i32.const @)) (then unreachable))
    (call_indirect $tvm_tbl_load_u32 (type $tvm_indirect_load_u32)
      (local.get $off) (local.get $pool)))
  (func $tvm_load_i64_indirect (export "tvm_load_i64_indirect")
        (param $pool i32) (param $off i32) (result i64)
    (if (i32.ge_u (local.get $pool) (i32.const @)) (then unreachable))
    (call_indirect $tvm_tbl_load_i64 (type $tvm_indirect_load_i64)
      (local.get $off) (local.get $pool)))
"#);
    assert(INDIRECT_LOADS@ =~= open_u8_text() + open_u32_text() + open_i64_text());
}

proof fn lemma_pool_params()
    ensures
        squeezed("(param $pool i32)"@) == declared_word("param"@, "pool"@, "i32"@),
        squeezed("(param $off i32)"@) == declared_word("param"@, "off"@, "i32"@),
{
    broadcast use {lemma_squeezed_add, lemma_add_nothing, lemma_nothing_add};

    lemma_blank_literals();
    reveal_strlit("(");
    reveal_strlit("param");
    reveal_strlit(" $");
    reveal_strlit("pool");
    reveal_strlit("off");
    reveal_strlit(" ");
    reveal_strlit("i32");
    reveal_strlit(")");
    reveal_strlit("(param $pool i32)");
    reveal_strlit("(param $off i32)");
    assert("(param $pool i32)"@ =~= "("@ + "param"@ + " $"@ + "pool"@ + " "@ + "i32"@ + ")"@);
    assert("(param $off i32)"@ =~= "("@ + "param"@ + " $"@ + "off"@ + " "@ + "i32"@ + ")"@);
}

proof fn lemma_head_u8()
    ensures
        squeezed("  (func $tvm_load_u8_indirect (export \"tvm_load_u8_indirect\")\n        (param $pool i32) (param $off i32) (result i32)\n"@) == squeezed("(func $"@) + squeezed("tvm_load_u8_indirect"@) + squeezed(" (export \""@)
                + squeezed("tvm_load_u8_indirect"@) + squeezed("\")"@)
                + declared_word("param"@, "pool"@, "i32"@)
                + declared_word("param"@, "off"@, "i32"@) + squeezed("(result "@)
                + squeezed("i32"@) + squeezed(")"@),
{
    broadcast use {lemma_squeezed_add, lemma_add_nothing, lemma_nothing_add};

    lemma_blank_literals();
    lemma_pool_params();
    reveal_strlit("  (func $tvm_load_u8_indirect (export \"tvm_load_u8_indirect\")\n        (param $pool i32) (param $off i32) (result i32)\n");
    reveal_strlit("  ");
    reveal_strlit("(func $");
    reveal_strlit("tvm_load_u8_indirect");
    reveal_strlit(" (export \"");
    reveal_strlit("\")");
    reveal_strlit("\n");
    reveal_strlit("(param $pool i32)");
    reveal_strlit(" ");
    reveal_strlit("(param $off i32)");
    reveal_strlit("(result ");
    reveal_strlit("i32");
    reveal_strlit(")");
    assert("  (func $tvm_load_u8_indirect (export \"tvm_load_u8_indirect\")\n        (param $pool i32) (param $off i32) (result i32)\n"@ =~= "  "@ + "(func $"@ + "tvm_load_u8_indirect"@ + " (export \""@ + "tvm_load_u8_indirect"@
            + "\")"@ + "\n"@ + "  "@ + "  "@ + "  "@ + "  "@ + "(param $pool i32)"@ + " "@
            + "(param $off i32)"@ + " "@ + "(result "@ + "i32"@ + ")"@ + "\n"@);
}

proof fn lemma_tail_u8()
    ensures
        squeezed("    (call_indirect $tvm_tbl_load_u8 (type $tvm_indirect_load_u8)\n      (local.get $off) (local.get $pool)))\n"@) == squeezed("(call_indirect $"@) + squeezed("tvm_tbl_load_u8"@) + squeezed(" (type $"@)
                + squeezed("tvm_indirect_load_u8"@) + squeezed(")"@) + squeezed("(local.get $"@)
                + squeezed("off"@) + squeezed(")"@) + squeezed("(local.get $"@)
                + squeezed("pool"@) + squeezed(")"@) + squeezed(")"@) + squeezed(")"@),
{
    broadcast use {lemma_squeezed_add, lemma_add_nothing, lemma_nothing_add};

    lemma_blank_literals();
    reveal_strlit("    (call_indirect $tvm_tbl_load_u8 (type $tvm_indirect_load_u8)\n      (local.get $off) (local.get $pool)))\n");
    reveal_strlit("  ");
    reveal_strlit("(call_indirect $");
    reveal_strlit("tvm_tbl_load_u8");
    reveal_strlit(" (type $");
    reveal_strlit("tvm_indirect_load_u8");
    reveal_strlit(")");
    reveal_strlit("\n");
    reveal_strlit("(local.get $");
    reveal_strlit("off");
    reveal_strlit(" ");
    reveal_strlit("pool");
    assert("    (call_indirect $tvm_tbl_load_u8 (type $tvm_indirect_load_u8)\n      (local.get $off) (local.get $pool)))\n"@ =~= "  "@ + "  "@ + "(call_indirect $"@ + "tvm_tbl_load_u8"@ + " (type $"@
            + "tvm_indirect_load_u8"@ + ")"@ + "\n"@ + "  "@ + "  "@ + "  "@ + "(local.get $"@
            + "off"@ + ")"@ + " "@ + "(local.get $"@ + "pool"@ + ")"@ + ")"@ + ")"@ + "\n"@);
}

proof fn lemma_head_u32()
    ensures
        squeezed("  (func $tvm_load_u32_indirect (export \"tvm_load_u32_indirect\")\n        (param $pool i32) (param $off i32) (result i32)\n"@) == squeezed("(func $"@) + squeezed("tvm_load_u32_indirect"@) + squeezed(" (export \""@)
                + squeezed("tvm_load_u32_indirect"@) + squeezed("\")"@)
                + declared_word("param"@, "pool"@, "i32"@)
                + declared_word("param"@, "off"@, "i32"@) + squeezed("(result "@)
                + squeezed("i32"@) + squeezed(")"@),
{
    broadcast use {lemma_squeezed_add, lemma_add_nothing, lemma_nothing_add};

    lemma_blank_literals();
    lemma_pool_params();
    reveal_strlit("  (func $tvm_load_u32_indirect (export \"tvm_load_u32_indirect\")\n        (param $pool i32) (param $off i32) (result i32)\n");
    reveal_strlit("  ");
    reveal_strlit("(func $");
    reveal_strlit("tvm_load_u32_indirect");
    reveal_strlit(" (export \"");
    reveal_strlit("\")");
    reveal_strlit("\n");
    reveal_strlit("(param $pool i32)");
    reveal_strlit(" ");
    reveal_strlit("(param $off i32)");
    reveal_strlit("(result ");
    reveal_strlit("i32");
    reveal_strlit(")");
    assert("  (func $tvm_load_u32_indirect (export \"tvm_load_u32_indirect\")\n        (param $pool i32) (param $off i32) (result i32)\n"@ =~= "  "@ + "(func $"@ + "tvm_load_u32_indirect"@ + " (export \""@ + "tvm_load_u32_indirect"@
            + "\")"@ + "\n"@ + "  "@ + "  "@ + "  "@ + "  "@ + "(param $pool i32)"@ + " "@
            + "(param $off i32)"@ + " "@ + "(result "@ + "i32"@ + ")"@ + "\n"@);
}

proof fn lemma_tail_u32()
    ensures
        squeezed("    (call_indirect $tvm_tbl_load_u32 (type $tvm_indirect_load_u32)\n      (local.get $off) (local.get $pool)))\n"@) == squeezed("(call_indirect $"@) + squeezed("tvm_tbl_load_u32"@) + squeezed(" (type $"@)
                + squeezed("tvm_indirect_load_u32"@) + squeezed(")"@) + squeezed("(local.get $"@)
                + squeezed("off"@) + squeezed(")"@) + squeezed("(local.get $"@)
                + squeezed("pool"@) + squeezed(")"@) + squeezed(")"@) + squeezed(")"@),
{
    broadcast use {lemma_squeezed_add, lemma_add_nothing, lemma_nothing_add};

    lemma_blank_literals();
    reveal_strlit("    (call_indirect $tvm_tbl_load_u32 (type $tvm_indirect_load_u32)\n      (local.get $off) (local.get $pool)))\n");
    reveal_strlit("  ");
    reveal_strlit("(call_indirect $");
    reveal_strlit("tvm_tbl_load_u32");
    reveal_strlit(" (type $");
    reveal_strlit("tvm_indirect_load_u32");
    reveal_strlit(")");
    reveal_strlit("\n");
    reveal_strlit("(local.get $");
    reveal_strlit("off");
    reveal_strlit(" ");
    reveal_strlit("pool");
    assert("    (call_indirect $tvm_tbl_load_u32 (type $tvm_indirect_load_u32)\n      (local.get $off) (local.get $pool)))\n"@ =~= "  "@ + "  "@ + "(call_indirect $"@ + "tvm_tbl_load_u32"@ + " (type $"@
            + "tvm_indirect_load_u32"@ + ")"@ + "\n"@ + "  "@ + "  "@ + "  "@ + "(local.get $"@
            + "off"@ + ")"@ + " "@ + "(local.get $"@ + "pool"@ + ")"@ + ")"@ + ")"@ + "\n"@);
}

proof fn lemma_head_i64()
    ensures
        squeezed("  (func $tvm_load_i64_indirect (export \"tvm_load_i64_indirect\")\n        (param $pool i32) (param $off i32) (result i64)\n"@) == squeezed("(func $"@) + squeezed("tvm_load_i64_indirect"@) + squeezed(" (export \""@)
                + squeezed("tvm_load_i64_indirect"@) + squeezed("\")"@)
                + declared_word("param"@, "pool"@, "i32"@)
                + declared_word("param"@, "off"@, "i32"@) + squeezed("(result "@)
                + squeezed("i64"@) + squeezed(")"@),
{
    broadcast use {lemma_squeezed_add, lemma_add_nothing, lemma_nothing_add};

    lemma_blank_literals();
    lemma_pool_params();
    reveal_strlit("  (func $tvm_load_i64_indirect (export \"tvm_load_i64_indirect\")\n        (param $pool i32) (param $off i32) (result i64)\n");
    reveal_strlit("  ");
    reveal_strlit("(func $");
    reveal_strlit("tvm_load_i64_indirect");
    reveal_strlit(" (export \"");
    reveal_strlit("\")");
    reveal_strlit("\n");
    reveal_strlit("(param $pool i32)");
    reveal_strlit(" ");
    reveal_strlit("(param $off i32)");
    reveal_strlit("(result ");
    reveal_strlit("i64");
    reveal_strlit(")");
    assert("  (func $tvm_load_i64_indirect (export \"tvm_load_i64_indirect\")\n        (param $pool i32) (param $off i32) (result i64)\n"@ =~= "  "@ + "(func $"@ + "tvm_load_i64_indirect"@ + " (export \""@ + "tvm_load_i64_indirect"@
            + "\")"@ + "\n"@ + "  "@ + "  "@ + "  "@ + "  "@ + "(param $pool i32)"@ + " "@
            + "(param $off i32)"@ + " "@ + "(result "@ + "i64"@ + ")"@ + "\n"@);
}

proof fn lemma_tail_i64()
    ensures
        squeezed("    (call_indirect $tvm_tbl_load_i64 (type $tvm_indirect_load_i64)\n      (local.get $off) (local.get $pool)))\n"@) == squeezed("(call_indirect $"@) + squeezed("tvm_tbl_load_i64"@) + squeezed(" (type $"@)
                + squeezed("tvm_indirect_load_i64"@) + squeezed(")"@) + squeezed("(local.get $"@)
                + squeezed("off"@) + squeezed(")"@) + squeezed("(local.get $"@)
                + squeezed("pool"@) + squeezed(")"@) + squeezed(")"@) + squeezed(")"@),
{
    broadcast use {lemma_squeezed_add, lemma_add_nothing, lemma_nothing_add};

    lemma_blank_literals();
    reveal_strlit("    (call_indirect $tvm_tbl_load_i64 (type $tvm_indirect_load_i64)\n      (local.get $off) (local.get $pool)))\n");
    reveal_strlit("  ");
    reveal_strlit("(call_indirect $");
    reveal_strlit("tvm_tbl_load_i64");
    reveal_strlit(" (type $");
    reveal_strlit("tvm_indirect_load_i64");
    reveal_strlit(")");
    reveal_strlit("\n");
    reveal_strlit("(local.get $");
    reveal_strlit("off");
    reveal_strlit(" ");
    reveal_strlit("pool");
    assert("    (call_indirect $tvm_tbl_load_i64 (type $tvm_indirect_load_i64)\n      (local.get $off) (local.get $pool)))\n"@ =~= "  "@ + "  "@ + "(call_indirect $"@ + "tvm_tbl_load_i64"@ + " (type $"@
            + "tvm_indirect_load_i64"@ + ")"@ + "\n"@ + "  "@ + "  "@ + "  "@ + "(local.get $"@
            + "off"@ + ")"@ + " "@ + "(local.get $"@ + "pool"@ + ")"@ + ")"@ + ")"@ + "\n"@);
}

proof fn lemma_regroup(
    f: Seq<char>,
    n: Seq<char>,
    e: Seq<char>,
    q: Seq<char>,
    p1: Seq<char>,
    p2: Seq<char>,
    r: Seq<char>,
    t: Seq<char>,
    c: Seq<char>,
    check: Seq<char>,
    i: Seq<char>,
    tb: Seq<char>,
    y: Seq<char>,
    s: Seq<char>,
    g: Seq<char>,
    off: Seq<char>,
    pool: Seq<char>,
)
    ensures
        (f + n + e + n + q + p1 + p2 + r + t + c) + check + (i + tb + y + s + c + g + off + c + g
            + pool + c + c + c) == f + n + e + n + q + (p1 + p2) + r + t + c + check + i + tb + y + s
            + c + (g + off + c) + (g + pool + c) + c + c,
{
    let a = f + n + e + n + q;
    assert(a + p1 + p2 =~= a + (p1 + p2));
    let h = a + (p1 + p2) + r + t + c + check;
    let z = i + tb + y + s + c;
    assert(h + i + tb + y + s + c =~= h + z);
    assert((h + z) + (g + off + c) + (g + pool + c) + c + c =~= h + (z + g + off + c + g + pool + c
        + c + c));
}

/// The indirect load of a table, for `n` pools.
spec fn table_load(name: Seq<char>, ty: Seq<char>, table: Seq<char>, sig: Seq<char>, n: u32) -> TableCall {
    TableCall {
        name,
        params: seq![("pool"@, "i32"@), ("off"@, "i32"@)],
        result: ty,
        code: pool_check("pool"@, n),
        table,
        sig,
        arg: Expr::Get("off"@),
        place: Expr::Get("pool"@),
    }
}

proof fn lemma_call_text(
    name: Seq<char>,
    ty: Seq<char>,
    table: Seq<char>,
    sig: Seq<char>,
    n: u32,
)
    ensures
        squeezed(call_text(table_load(name, ty, table, sig, n))) == squeezed("(func $"@) + squeezed(
            name,
        ) + squeezed(" (export \""@) + squeezed(name) + squeezed("\")"@) + (declared_word(
            "param"@,
            "pool"@,
            "i32"@,
        ) + declared_word("param"@, "off"@, "i32"@)) + squeezed("(result "@) + squeezed(ty)
            + squeezed(")"@) + squeezed(stmt_text(pool_check("pool"@, n))) + squeezed(
            "(call_indirect $"@,
        ) + squeezed(table) + squeezed(" (type $"@) + squeezed(sig) + squeezed(")"@) + (squeezed(
            "(local.get $"@,
        ) + squeezed("off"@) + squeezed(")"@)) + (squeezed("(local.get $"@) + squeezed("pool"@)
            + squeezed(")"@)) + squeezed(")"@) + squeezed(")"@),
{
    broadcast use {lemma_squeezed_add, lemma_add_nothing, lemma_nothing_add};

    lemma_blank_literals();
    let f = table_load(name, ty, table, sig, n);
    lemma_declared("param"@, f.params, 2);
    lemma_declared("param"@, f.params, 1);
    assert(squeezed(declared_text("param"@, f.params, 0)) == Seq::<char>::empty());
    assert(squeezed(expr_text(Expr::Get("off"@))) == squeezed("(local.get $"@) + squeezed("off"@)
        + squeezed(")"@));
    assert(squeezed(expr_text(Expr::Get("pool"@))) == squeezed("(local.get $"@) + squeezed("pool"@)
        + squeezed(")"@));
}

proof fn lemma_text_u8(n: u32)
    ensures
        squeezed(load_u8_text(n as nat)) == squeezed(
            call_text(
                table_load(
                    "tvm_load_u8_indirect"@,
                    "i32"@,
                    "tvm_tbl_load_u8"@,
                    "tvm_indirect_load_u8"@,
                    n,
                ),
            ),
        ),
{
    let a = "  (func $tvm_load_u8_indirect (export \"tvm_load_u8_indirect\")\n        (param $pool i32) (param $off i32) (result i32)\n"@;
    let b = "    (if (i32.ge_u (local.get $pool) (i32.const "@;
    let c = ")) (then unreachable))\n"@;
    let d = decimal(n as nat);
    let z = "    (call_indirect $tvm_tbl_load_u8 (type $tvm_indirect_load_u8)\n      (local.get $off) (local.get $pool)))\n"@;
    lemma_squeezed_add(a, b);
    lemma_squeezed_add(a + b, d);
    lemma_squeezed_add(a + b + d, c);
    lemma_squeezed_add(a + b + d + c, z);
    lemma_head_u8();
    lemma_tail_u8();
    lemma_check_text(n);
    lemma_call_text("tvm_load_u8_indirect"@, "i32"@, "tvm_tbl_load_u8"@, "tvm_indirect_load_u8"@, n);
    let check = squeezed(b) + squeezed(d) + squeezed(c);
    assert(squeezed(a) + squeezed(b) + squeezed(d) + squeezed(c) =~= squeezed(a) + check);
    lemma_regroup(
        squeezed("(func $"@),
        squeezed("tvm_load_u8_indirect"@),
        squeezed(" (export \""@),
        squeezed("\")"@),
        declared_word("param"@, "pool"@, "i32"@),
        declared_word("param"@, "off"@, "i32"@),
        squeezed("(result "@),
        squeezed("i32"@),
        squeezed(")"@),
        check,
        squeezed("(call_indirect $"@),
        squeezed("tvm_tbl_load_u8"@),
        squeezed(" (type $"@),
        squeezed("tvm_indirect_load_u8"@),
        squeezed("(local.get $"@),
        squeezed("off"@),
        squeezed("pool"@),
    );
}

proof fn lemma_text_u32(n: u32)
    ensures
        squeezed(load_u32_text(n as nat)) == squeezed(
            call_text(
                table_load(
                    "tvm_load_u32_indirect"@,
                    "i32"@,
                    "tvm_tbl_load_u32"@,
                    "tvm_indirect_load_u32"@,
                    n,
                ),
            ),
        ),
{
    let a = "  (func $tvm_load_u32_indirect (export \"tvm_load_u32_indirect\")\n        (param $pool i32) (param $off i32) (result i32)\n"@;
    let b = "    (if (i32.ge_u (local.get $pool) (i32.const "@;
    let c = ")) (then unreachable))\n"@;
    let d = decimal(n as nat);
    let z = "    (call_indirect $tvm_tbl_load_u32 (type $tvm_indirect_load_u32)\n      (local.get $off) (local.get $pool)))\n"@;
    lemma_squeezed_add(a, b);
    lemma_squeezed_add(a + b, d);
    lemma_squeezed_add(a + b + d, c);
    lemma_squeezed_add(a + b + d + c, z);
    lemma_head_u32();
    lemma_tail_u32();
    lemma_check_text(n);
    lemma_call_text("tvm_load_u32_indirect"@, "i32"@, "tvm_tbl_load_u32"@, "tvm_indirect_load_u32"@, n);
    let check = squeezed(b) + squeezed(d) + squeezed(c);
    assert(squeezed(a) + squeezed(b) + squeezed(d) + squeezed(c) =~= squeezed(a) + check);
    lemma_regroup(
        squeezed("(func $"@),
        squeezed("tvm_load_u32_indirect"@),
        squeezed(" (export \""@),
        squeezed("\")"@),
        declared_word("param"@, "pool"@, "i32"@),
        declared_word("param"@, "off"@, "i32"@),
        squeezed("(result "@),
        squeezed("i32"@),
        squeezed(")"@),
        check,
        squeezed("(call_indirect $"@),
        squeezed("tvm_tbl_load_u32"@),
        squeezed(" (type $"@),
        squeezed("tvm_indirect_load_u32"@),
        squeezed("(local.get $"@),
        squeezed("off"@),
        squeezed("pool"@),
    );
}

proof fn lemma_text_i64(n: u32)
    ensures
        squeezed(load_i64_text(n as nat)) == squeezed(
            call_text(
                table_load(
                    "tvm_load_i64_indirect"@,
                    "i64"@,
                    "tvm_tbl_load_i64"@,
                    "tvm_indirect_load_i64"@,
                    n,
                ),
            ),
        ),
{
    let a = "  (func $tvm_load_i64_indirect (export \"tvm_load_i64_indirect\")\n        (param $pool i32) (param $off i32) (result i64)\n"@;
    let b = "    (if (i32.ge_u (local.get $pool) (i32.const "@;
    let c = ")) (then unreachable))\n"@;
    let d = decimal(n as nat);
    let z = "    (call_indirect $tvm_tbl_load_i64 (type $tvm_indirect_load_i64)\n      (local.get $off) (local.get $pool)))\n"@;
    lemma_squeezed_add(a, b);
    lemma_squeezed_add(a + b, d);
    lemma_squeezed_add(a + b + d, c);
    lemma_squeezed_add(a + b + d + c, z);
    lemma_head_i64();
    lemma_tail_i64();
    lemma_check_text(n);
    lemma_call_text("tvm_load_i64_indirect"@, "i64"@, "tvm_tbl_load_i64"@, "tvm_indirect_load_i64"@, n);
    let check = squeezed(b) + squeezed(d) + squeezed(c);
    assert(squeezed(a) + squeezed(b) + squeezed(d) + squeezed(c) =~= squeezed(a) + check);
    lemma_regroup(
        squeezed("(func $"@),
        squeezed("tvm_load_i64_indirect"@),
        squeezed(" (export \""@),
        squeezed("\")"@),
        declared_word("param"@, "pool"@, "i32"@),
        declared_word("param"@, "off"@, "i32"@),
        squeezed("(result "@),
        squeezed("i64"@),
        squeezed(")"@),
        check,
        squeezed("(call_indirect $"@),
        squeezed("tvm_tbl_load_i64"@),
        squeezed(" (type $"@),
        squeezed("tvm_indirect_load_i64"@),
        squeezed("(local.get $"@),
        squeezed("off"@),
        squeezed("pool"@),
    );
}

proof fn lemma_type_words()
    ensures
        squeezed("  (type $tvm_indirect_load_u8 (func (param i32) (result i32)))\n"@) == squeezed("(type $"@) + squeezed("tvm_indirect_load_u8"@)
                + squeezed(" (func (param i32) (result "@) + squeezed("i32"@) + squeezed(")"@)
                + squeezed(")"@) + squeezed(")"@),
        squeezed("  (type $tvm_indirect_load_u32 (func (param i32) (result i32)))\n"@) == squeezed("(type $"@) + squeezed("tvm_indirect_load_u32"@)
                + squeezed(" (func (param i32) (result "@) + squeezed("i32"@) + squeezed(")"@)
                + squeezed(")"@) + squeezed(")"@),
        squeezed("  (type $tvm_indirect_load_i64 (func (param i32) (result i64)))\n"@) == squeezed("(type $"@) + squeezed("tvm_indirect_load_i64"@)
                + squeezed(" (func (param i32) (result "@) + squeezed("i64"@) + squeezed(")"@)
                + squeezed(")"@) + squeezed(")"@),
{
    broadcast use {lemma_squeezed_add, lemma_add_nothing, lemma_nothing_add};

    lemma_blank_literals();
    reveal_strlit("  (type $tvm_indirect_load_u8 (func (param i32) (result i32)))\n");
    reveal_strlit("  ");
    reveal_strlit("(type $");
    reveal_strlit("tvm_indirect_load_u8");
    reveal_strlit(" (func (param i32) (result ");
    reveal_strlit("i32");
    reveal_strlit(")");
    reveal_strlit("\n");
    reveal_strlit("  (type $tvm_indirect_load_u32 (func (param i32) (result i32)))\n");
    reveal_strlit("tvm_indirect_load_u32");
    reveal_strlit("  (type $tvm_indirect_load_i64 (func (param i32) (result i64)))\n");
    reveal_strlit("tvm_indirect_load_i64");
    reveal_strlit("i64");
    assert("  (type $tvm_indirect_load_u8 (func (param i32) (result i32)))\n"@ =~= "  "@ + "(type $"@ + "tvm_indirect_load_u8"@ + " (func (param i32) (result "@ + "i32"@
            + ")"@ + ")"@ + ")"@ + "\n"@);
    assert("  (type $tvm_indirect_load_u32 (func (param i32) (result i32)))\n"@ =~= "  "@ + "(type $"@ + "tvm_indirect_load_u32"@ + " (func (param i32) (result "@ + "i32"@
            + ")"@ + ")"@ + ")"@ + "\n"@);
    assert("  (type $tvm_indirect_load_i64 (func (param i32) (result i64)))\n"@ =~= "  "@ + "(type $"@ + "tvm_indirect_load_i64"@ + " (func (param i32) (result "@ + "i64"@
            + ")"@ + ")"@ + ")"@ + "\n"@);
}

#[verifier::rlimit(60)]
proof fn lemma_types()
    ensures
        INDIRECT_TYPES@ == "  (type $tvm_indirect_load_u8 (func (param i32) (result i32)))\n"@
            + "  (type $tvm_indirect_load_u32 (func (param i32) (result i32)))\n"@
            + "  (type $tvm_indirect_load_i64 (func (param i32) (result i64)))\n"@,
{
    reveal_strlit("  (type $tvm_indirect_load_u8 (func (param i32) (result i32)))\n");
    reveal_strlit("  (type $tvm_indirect_load_u32 (func (param i32) (result i32)))\n");
    reveal_strlit("  (type $tvm_indirect_load_i64 (func (param i32) (result i64)))\n");
    reveal_strlit(r#"  (type $tvm_indirect_load_u8 (func (param i32) (result i32)))
  (type $tvm_indirect_load_u32 (func (param i32) (result i32)))
  (type $tvm_indirect_load_i64 (func (param i32) (result i64)))
"#);
    assert(INDIRECT_TYPES@ =~= "  (type $tvm_indirect_load_u8 (func (param i32) (result i32)))\n"@ + "  (type $tvm_indirect_load_u32 (func (param i32) (result i32)))\n"@ + "  (type $tvm_indirect_load_i64 (func (param i32) (result i64)))\n"@);
}

proof fn lemma_sig_u8()
    ensures
        squeezed("  (type $tvm_indirect_load_u8 (func (param i32) (result i32)))\n"@) == squeezed(
            sig_text("tvm_indirect_load_u8"@, "i32"@),
        ),
{
    broadcast use lemma_squeezed_add;

    lemma_type_words();
}

proof fn lemma_sig_u32()
    ensures
        squeezed("  (type $tvm_indirect_load_u32 (func (param i32) (result i32)))\n"@) == squeezed(
            sig_text("tvm_indirect_load_u32"@, "i32"@),
        ),
{
    broadcast use lemma_squeezed_add;

    lemma_type_words();
}

proof fn lemma_sig_i64()
    ensures
        squeezed("  (type $tvm_indirect_load_i64 (func (param i32) (result i64)))\n"@) == squeezed(
            sig_text("tvm_indirect_load_i64"@, "i64"@),
        ),
{
    broadcast use lemma_squeezed_add;

    lemma_type_words();
}

/// The names of the loads of the pools.
pub open spec fn pool_names(stem: Seq<char>, n: nat) -> Seq<Seq<char>> {
    Seq::new(n, |k: int| pool_name(stem, k as nat))
}

proof fn lemma_listed(stem: Seq<char>, entry: Seq<char>, n: nat, m: int)
    requires
        0 <= m <= n,
        forall|k: nat| squeezed(#[trigger] fill(entry, k)) == squeezed(" $"@) + squeezed(stem) + squeezed(
            decimal(k),
        ),
    ensures
        squeezed(per_pool(entry, m)) == squeezed(listed_names(pool_names(stem, n), m)),
    decreases m,
{
    broadcast use lemma_squeezed_add;

    if m > 0 {
        lemma_listed(stem, entry, n, m - 1);
        let k = (m - 1) as nat;
        assert(pool_names(stem, n)[m - 1] == pool_name(stem, k));
        let before = squeezed(per_pool(entry, m - 1));
        let a = squeezed(" $"@);
        let b = squeezed(stem);
        let c = squeezed(decimal(k));
        assert(squeezed(fill(entry, k)) == a + b + c);
        assert(squeezed(pool_name(stem, k)) == b + c);
        assert(before + (a + b + c) =~= before + a + (b + c));
    }
}

proof fn lemma_entry_u8(k: nat)
    ensures
        squeezed(fill(" $tvm_load_u8_p@"@, k)) == squeezed(" $"@) + squeezed("tvm_load_u8_p"@) + squeezed(decimal(k)),
{
    broadcast use {lemma_fill_add, lemma_squeezed_add};

    lemma_fill_place(k);
    reveal_strlit(" $tvm_load_u8_p@");
    reveal_strlit("tvm_load_u8_p");
    reveal_strlit(" $");
    reveal_strlit("@");
    assert(" $tvm_load_u8_p@"@ =~= " $"@ + "tvm_load_u8_p"@ + "@"@);
    lemma_fill_plain(" $"@, k);
    lemma_fill_plain("tvm_load_u8_p"@, k);
}

/// The table of these loads.
spec fn table_u8(n: u32) -> Seq<char> {
    "  (table $tvm_tbl_load_u8 funcref (elem"@ + per_pool(" $tvm_load_u8_p@"@, n as int) + "))\n"@
}

proof fn lemma_table_u8(n: u32)
    ensures
        squeezed(table_u8(n)) == squeezed(
            table_text("tvm_tbl_load_u8"@, pool_names("tvm_load_u8_p"@, n as nat)),
        ),
{
    broadcast use lemma_squeezed_add;

    lemma_table_words();
    assert forall|k: nat| squeezed(#[trigger] fill(" $tvm_load_u8_p@"@, k)) == squeezed(" $"@) + squeezed(
        "tvm_load_u8_p"@,
    ) + squeezed(decimal(k)) by {
        lemma_entry_u8(k);
    }
    lemma_listed("tvm_load_u8_p"@, " $tvm_load_u8_p@"@, n as nat, n as int);
    let names = pool_names("tvm_load_u8_p"@, n as nat);
    let h = squeezed("(table $"@) + squeezed("tvm_tbl_load_u8"@) + squeezed(" funcref (elem"@);
    let l = squeezed(listed_names(names, n as int));
    let c = squeezed(")"@);
    assert(names.len() == n);
    assert(h + l + (c + c) =~= h + l + c + c);
}

proof fn lemma_entry_u32(k: nat)
    ensures
        squeezed(fill(" $tvm_load_u32_p@"@, k)) == squeezed(" $"@) + squeezed("tvm_load_u32_p"@) + squeezed(decimal(k)),
{
    broadcast use {lemma_fill_add, lemma_squeezed_add};

    lemma_fill_place(k);
    reveal_strlit(" $tvm_load_u32_p@");
    reveal_strlit("tvm_load_u32_p");
    reveal_strlit(" $");
    reveal_strlit("@");
    assert(" $tvm_load_u32_p@"@ =~= " $"@ + "tvm_load_u32_p"@ + "@"@);
    lemma_fill_plain(" $"@, k);
    lemma_fill_plain("tvm_load_u32_p"@, k);
}

/// The table of these loads.
spec fn table_u32(n: u32) -> Seq<char> {
    "  (table $tvm_tbl_load_u32 funcref (elem"@ + per_pool(" $tvm_load_u32_p@"@, n as int) + "))\n"@
}

proof fn lemma_table_u32(n: u32)
    ensures
        squeezed(table_u32(n)) == squeezed(
            table_text("tvm_tbl_load_u32"@, pool_names("tvm_load_u32_p"@, n as nat)),
        ),
{
    broadcast use lemma_squeezed_add;

    lemma_table_words();
    assert forall|k: nat| squeezed(#[trigger] fill(" $tvm_load_u32_p@"@, k)) == squeezed(" $"@) + squeezed(
        "tvm_load_u32_p"@,
    ) + squeezed(decimal(k)) by {
        lemma_entry_u32(k);
    }
    lemma_listed("tvm_load_u32_p"@, " $tvm_load_u32_p@"@, n as nat, n as int);
    let names = pool_names("tvm_load_u32_p"@, n as nat);
    let h = squeezed("(table $"@) + squeezed("tvm_tbl_load_u32"@) + squeezed(" funcref (elem"@);
    let l = squeezed(listed_names(names, n as int));
    let c = squeezed(")"@);
    assert(names.len() == n);
    assert(h + l + (c + c) =~= h + l + c + c);
}

proof fn lemma_entry_i64(k: nat)
    ensures
        squeezed(fill(" $tvm_load_i64_p@"@, k)) == squeezed(" $"@) + squeezed("tvm_load_i64_p"@) + squeezed(decimal(k)),
{
    broadcast use {lemma_fill_add, lemma_squeezed_add};

    lemma_fill_place(k);
    reveal_strlit(" $tvm_load_i64_p@");
    reveal_strlit("tvm_load_i64_p");
    reveal_strlit(" $");
    reveal_strlit("@");
    assert(" $tvm_load_i64_p@"@ =~= " $"@ + "tvm_load_i64_p"@ + "@"@);
    lemma_fill_plain(" $"@, k);
    lemma_fill_plain("tvm_load_i64_p"@, k);
}

/// The table of these loads.
spec fn table_i64(n: u32) -> Seq<char> {
    "  (table $tvm_tbl_load_i64 funcref (elem"@ + per_pool(" $tvm_load_i64_p@"@, n as int) + "))\n"@
}

proof fn lemma_table_i64(n: u32)
    ensures
        squeezed(table_i64(n)) == squeezed(
            table_text("tvm_tbl_load_i64"@, pool_names("tvm_load_i64_p"@, n as nat)),
        ),
{
    broadcast use lemma_squeezed_add;

    lemma_table_words();
    assert forall|k: nat| squeezed(#[trigger] fill(" $tvm_load_i64_p@"@, k)) == squeezed(" $"@) + squeezed(
        "tvm_load_i64_p"@,
    ) + squeezed(decimal(k)) by {
        lemma_entry_i64(k);
    }
    lemma_listed("tvm_load_i64_p"@, " $tvm_load_i64_p@"@, n as nat, n as int);
    let names = pool_names("tvm_load_i64_p"@, n as nat);
    let h = squeezed("(table $"@) + squeezed("tvm_tbl_load_i64"@) + squeezed(" funcref (elem"@);
    let l = squeezed(listed_names(names, n as int));
    let c = squeezed(")"@);
    assert(names.len() == n);
    assert(h + l + (c + c) =~= h + l + c + c);
}

proof fn lemma_table_words()
    ensures
        squeezed("  (table $tvm_tbl_load_u8 funcref (elem"@) == squeezed("(table $"@) + squeezed("tvm_tbl_load_u8"@) + squeezed(" funcref (elem"@),
        squeezed("  (table $tvm_tbl_load_u32 funcref (elem"@) == squeezed("(table $"@) + squeezed("tvm_tbl_load_u32"@) + squeezed(" funcref (elem"@),
        squeezed("  (table $tvm_tbl_load_i64 funcref (elem"@) == squeezed("(table $"@) + squeezed("tvm_tbl_load_i64"@) + squeezed(" funcref (elem"@),
        squeezed("))\n"@) == squeezed(")"@) + squeezed(")"@),
{
    broadcast use {lemma_squeezed_add, lemma_add_nothing, lemma_nothing_add};

    lemma_blank_literals();
    reveal_strlit("  (table $tvm_tbl_load_u8 funcref (elem");
    reveal_strlit("  ");
    reveal_strlit("(table $");
    reveal_strlit("tvm_tbl_load_u8");
    reveal_strlit(" funcref (elem");
    reveal_strlit("  (table $tvm_tbl_load_u32 funcref (elem");
    reveal_strlit("tvm_tbl_load_u32");
    reveal_strlit("  (table $tvm_tbl_load_i64 funcref (elem");
    reveal_strlit("tvm_tbl_load_i64");
    reveal_strlit("))\n");
    reveal_strlit(")");
    reveal_strlit("\n");
    assert("  (table $tvm_tbl_load_u8 funcref (elem"@ =~= "  "@ + "(table $"@ + "tvm_tbl_load_u8"@ + " funcref (elem"@);
    assert("  (table $tvm_tbl_load_u32 funcref (elem"@ =~= "  "@ + "(table $"@ + "tvm_tbl_load_u32"@ + " funcref (elem"@);
    assert("  (table $tvm_tbl_load_i64 funcref (elem"@ =~= "  "@ + "(table $"@ + "tvm_tbl_load_i64"@ + " funcref (elem"@);
    assert("))\n"@ =~= ")"@ + ")"@ + "\n"@);
}

// ---------------------------------------------------------------------------
// In a module
// ---------------------------------------------------------------------------

proof fn lemma_indirect_parts(n: u32)
    requires
        n > 0,
    ensures
        indirect_text(n) == INDIRECT_TYPES@ + table_u8(n) + table_u32(n) + table_i64(n) + fill(
            INDIRECT_LOADS@,
            n as nat,
        ),
{
    let t = INDIRECT_TYPES@;
    let z = fill(INDIRECT_LOADS@, n as nat);
    let e = "))\n"@;
    lemma_flat(
        t,
        "  (table $tvm_tbl_load_u8 funcref (elem"@,
        per_pool(" $tvm_load_u8_p@"@, n as int),
        "  (table $tvm_tbl_load_u32 funcref (elem"@,
        per_pool(" $tvm_load_u32_p@"@, n as int),
        "  (table $tvm_tbl_load_i64 funcref (elem"@,
        per_pool(" $tvm_load_i64_p@"@, n as int),
        e,
        z,
    );
}

proof fn lemma_flat(
    t: Seq<char>,
    a: Seq<char>,
    b: Seq<char>,
    c: Seq<char>,
    d: Seq<char>,
    f: Seq<char>,
    g: Seq<char>,
    e: Seq<char>,
    z: Seq<char>,
)
    ensures
        t + a + b + e + c + d + e + f + g + e + z == t + (a + b + e) + (c + d + e) + (f + g + e) + z,
{
    assert(t + a + b + e =~= t + (a + b + e));
    let u = t + (a + b + e);
    assert(u + c + d + e =~= u + (c + d + e));
    let v = u + (c + d + e);
    assert(v + f + g + e =~= v + (f + g + e));
}

/// What the text of the indirect loads holds, every module holds.
proof fn lemma_indirect_in_module(p: ModuleParams, part: Seq<char>)
    requires
        holds_part(indirect_text(p.n_pools), part),
    ensures
        holds_part(module_text(p), part),
{
    let n = p.n_pools;
    let out = with_memories(
        "(module\n"@,
        p.initial_pages_per_pool,
        p.max_pages_per_pool,
        n as int,
    ) + "\n"@;
    let c = with_dispatchers(out, n) + typed_helpers_text(n as int) + per_pool(
        INTRA_POOL_COPY@,
        n as int,
    );
    let d = c + indirect_text(n);
    let e = d + per_pool(SIMD_SUM_U8@, n as int);
    let g = e + reducers_text(n as int);
    lemma_holds_right(c, indirect_text(n), part);
    lemma_holds_left(d, per_pool(SIMD_SUM_U8@, n as int), part);
    lemma_holds_left(e, reducers_text(n as int), part);
    let h = g + "\n  ;; --- user body begins ---\n"@;
    let i = h + p.user_body@;
    let j = i + "\n  ;; --- user body ends ---\n"@;
    lemma_holds_left(g, "\n  ;; --- user body begins ---\n"@, part);
    lemma_holds_left(h, p.user_body@, part);
    lemma_holds_left(i, "\n  ;; --- user body ends ---\n"@, part);
    lemma_holds_left(j, ")\n"@, part);
    assert(module_text(p) == with_body(g, p.user_body@));
}

proof fn lemma_target(
    name: Seq<char>,
    ty: Seq<char>,
    table: Seq<char>,
    sig: Seq<char>,
    n: u32,
    pool: nat,
    off: nat,
    w: World,
)
    ensures
        target_of(table_load(name, ty, table, sig, n), args2(pool, off), w) == (if pool < n {
            Some((pool, off))
        } else {
            None
        }),
{
    let f = table_load(name, ty, table, sig, n);
    let args = args2(pool, off);
    reveal_strlit("pool");
    reveal_strlit("off");
    assert("pool"@.len() != "off"@.len());
    reveal_with_fuel(bound, 3);
    let env = bound(f.params, args, 2);
    assert(env.contains_key("pool"@) && env["pool"@] == pool);
    assert(env.contains_key("off"@) && env["off"@] == off);
    lemma_check_done("pool"@, n, env, w);
    assert(value_of(Expr::Get("off"@), env, w) == Some(off));
    assert(value_of(Expr::Get("pool"@), env, w) == Some(pool));
}

/// The module has a function of this name that calls the load of the pool it is asked for:
/// place `k` of its table holds the load of pool `k`, the type of the functions in the table
/// is that of these loads, the address is handed on, and a pool that does not exist traps.
pub open spec fn has_indirect_load(
    text: Seq<char>,
    name: Seq<char>,
    stem: Seq<char>,
    ty: Seq<char>,
    n: u32,
) -> bool {
    exists|f: TableCall, names: Seq<Seq<char>>| #[trigger]
        goes_through(f, names, text, name, stem, ty, n)
}

/// What `has_indirect_load` says of one function and its table.
pub open spec fn goes_through(
    f: TableCall,
    names: Seq<Seq<char>>,
    text: Seq<char>,
    name: Seq<char>,
    stem: Seq<char>,
    ty: Seq<char>,
    n: u32,
) -> bool {
    &&& f.name == name
    &&& f.result == ty
    &&& f.params.len() == 2
    &&& holds_part(text, call_text(f))
    &&& holds_part(text, table_text(f.table, names))
    &&& holds_part(text, sig_text(f.sig, ty))
    &&& names.len() == n
    &&& forall|k: int| 0 <= k < n ==> #[trigger] names[k] == pool_name(stem, k as nat)
    &&& forall|pool: nat, off: nat, w: World| #[trigger]
        target_of(f, args2(pool, off), w) == (if pool < n {
            Some((pool, off))
        } else {
            None
        })
}

proof fn lemma_holds_u8(p: ModuleParams)
    requires
        p.n_pools > 0,
    ensures
        has_indirect_load(module_text(p), "tvm_load_u8_indirect"@, "tvm_load_u8_p"@, "i32"@, p.n_pools),
{
    let n = p.n_pools;
    let f = table_load("tvm_load_u8_indirect"@, "i32"@, "tvm_tbl_load_u8"@, "tvm_indirect_load_u8"@, n);
    let names = pool_names("tvm_load_u8_p"@, n as nat);
    let t = INDIRECT_TYPES@;
    let a = table_u8(n);
    let b = table_u32(n);
    let c = table_i64(n);
    let z = fill(INDIRECT_LOADS@, n as nat);
    lemma_indirect_parts(n);
    lemma_fill_indirect(n as nat);
    lemma_types();
    let call = call_text(f);
    lemma_text_u8(n);
    lemma_holds_itself(load_u8_text(n as nat), call);
    lemma_holds_left(load_u8_text(n as nat), load_u32_text(n as nat), call);
    lemma_holds_left(load_u8_text(n as nat) + load_u32_text(n as nat), load_i64_text(n as nat), call);
    lemma_holds_right(t + a + b + c, z, call);
    lemma_indirect_in_module(p, call);
    let table = table_text("tvm_tbl_load_u8"@, names);
    lemma_table_u8(n);
    lemma_holds_itself(table_u8(n), table);
    lemma_holds_right(t, a, table);
    lemma_holds_left(t + a, b, table);
    lemma_holds_left(t + a + b, c, table);
    lemma_holds_left(t + a + b + c, z, table);
    lemma_indirect_in_module(p, table);
    let sig = sig_text("tvm_indirect_load_u8"@, "i32"@);
    let t0 = "  (type $tvm_indirect_load_u8 (func (param i32) (result i32)))\n"@;
    let t1 = "  (type $tvm_indirect_load_u32 (func (param i32) (result i32)))\n"@;
    let t2 = "  (type $tvm_indirect_load_i64 (func (param i32) (result i64)))\n"@;
    lemma_sig_u8();
    lemma_holds_itself(t0, sig);
    lemma_holds_left(t0, t1, sig);
    lemma_holds_left(t0 + t1, t2, sig);
    lemma_holds_left(t, a, sig);
    lemma_holds_left(t + a, b, sig);
    lemma_holds_left(t + a + b, c, sig);
    lemma_holds_left(t + a + b + c, z, sig);
    lemma_indirect_in_module(p, sig);
    assert forall|pool: nat, off: nat, w: World| #[trigger]
        target_of(f, args2(pool, off), w) == (if pool < n {
            Some((pool, off))
        } else {
            None
        }) by {
        lemma_target(f.name, f.result, f.table, f.sig, n, pool, off, w);
    }
    assert(goes_through(f, names, module_text(p), "tvm_load_u8_indirect"@, "tvm_load_u8_p"@, "i32"@, n));
}

proof fn lemma_holds_u32(p: ModuleParams)
    requires
        p.n_pools > 0,
    ensures
        has_indirect_load(module_text(p), "tvm_load_u32_indirect"@, "tvm_load_u32_p"@, "i32"@, p.n_pools),
{
    let n = p.n_pools;
    let f = table_load("tvm_load_u32_indirect"@, "i32"@, "tvm_tbl_load_u32"@, "tvm_indirect_load_u32"@, n);
    let names = pool_names("tvm_load_u32_p"@, n as nat);
    let t = INDIRECT_TYPES@;
    let a = table_u8(n);
    let b = table_u32(n);
    let c = table_i64(n);
    let z = fill(INDIRECT_LOADS@, n as nat);
    lemma_indirect_parts(n);
    lemma_fill_indirect(n as nat);
    lemma_types();
    let call = call_text(f);
    lemma_text_u32(n);
    lemma_holds_itself(load_u32_text(n as nat), call);
    lemma_holds_right(load_u8_text(n as nat), load_u32_text(n as nat), call);
    lemma_holds_left(load_u8_text(n as nat) + load_u32_text(n as nat), load_i64_text(n as nat), call);
    lemma_holds_right(t + a + b + c, z, call);
    lemma_indirect_in_module(p, call);
    let table = table_text("tvm_tbl_load_u32"@, names);
    lemma_table_u32(n);
    lemma_holds_itself(table_u32(n), table);
    lemma_holds_right(t + a, b, table);
    lemma_holds_left(t + a + b, c, table);
    lemma_holds_left(t + a + b + c, z, table);
    lemma_indirect_in_module(p, table);
    let sig = sig_text("tvm_indirect_load_u32"@, "i32"@);
    let t0 = "  (type $tvm_indirect_load_u8 (func (param i32) (result i32)))\n"@;
    let t1 = "  (type $tvm_indirect_load_u32 (func (param i32) (result i32)))\n"@;
    let t2 = "  (type $tvm_indirect_load_i64 (func (param i32) (result i64)))\n"@;
    lemma_sig_u32();
    lemma_holds_itself(t1, sig);
    lemma_holds_right(t0, t1, sig);
    lemma_holds_left(t0 + t1, t2, sig);
    lemma_holds_left(t, a, sig);
    lemma_holds_left(t + a, b, sig);
    lemma_holds_left(t + a + b, c, sig);
    lemma_holds_left(t + a + b + c, z, sig);
    lemma_indirect_in_module(p, sig);
    assert forall|pool: nat, off: nat, w: World| #[trigger]
        target_of(f, args2(pool, off), w) == (if pool < n {
            Some((pool, off))
        } else {
            None
        }) by {
        lemma_target(f.name, f.result, f.table, f.sig, n, pool, off, w);
    }
    assert(goes_through(f, names, module_text(p), "tvm_load_u32_indirect"@, "tvm_load_u32_p"@, "i32"@, n));
}

proof fn lemma_holds_i64(p: ModuleParams)
    requires
        p.n_pools > 0,
    ensures
        has_indirect_load(module_text(p), "tvm_load_i64_indirect"@, "tvm_load_i64_p"@, "i64"@, p.n_pools),
{
    let n = p.n_pools;
    let f = table_load("tvm_load_i64_indirect"@, "i64"@, "tvm_tbl_load_i64"@, "tvm_indirect_load_i64"@, n);
    let names = pool_names("tvm_load_i64_p"@, n as nat);
    let t = INDIRECT_TYPES@;
    let a = table_u8(n);
    let b = table_u32(n);
    let c = table_i64(n);
    let z = fill(INDIRECT_LOADS@, n as nat);
    lemma_indirect_parts(n);
    lemma_fill_indirect(n as nat);
    lemma_types();
    let call = call_text(f);
    lemma_text_i64(n);
    lemma_holds_itself(load_i64_text(n as nat), call);
    lemma_holds_right(load_u8_text(n as nat) + load_u32_text(n as nat), load_i64_text(n as nat), call);
    lemma_holds_right(t + a + b + c, z, call);
    lemma_indirect_in_module(p, call);
    let table = table_text("tvm_tbl_load_i64"@, names);
    lemma_table_i64(n);
    lemma_holds_itself(table_i64(n), table);
    lemma_holds_right(t + a + b, c, table);
    lemma_holds_left(t + a + b + c, z, table);
    lemma_indirect_in_module(p, table);
    let sig = sig_text("tvm_indirect_load_i64"@, "i64"@);
    let t0 = "  (type $tvm_indirect_load_u8 (func (param i32) (result i32)))\n"@;
    let t1 = "  (type $tvm_indirect_load_u32 (func (param i32) (result i32)))\n"@;
    let t2 = "  (type $tvm_indirect_load_i64 (func (param i32) (result i64)))\n"@;
    lemma_sig_i64();
    lemma_holds_itself(t2, sig);
    lemma_holds_right(t0 + t1, t2, sig);
    lemma_holds_left(t, a, sig);
    lemma_holds_left(t + a, b, sig);
    lemma_holds_left(t + a + b, c, sig);
    lemma_holds_left(t + a + b + c, z, sig);
    lemma_indirect_in_module(p, sig);
    assert forall|pool: nat, off: nat, w: World| #[trigger]
        target_of(f, args2(pool, off), w) == (if pool < n {
            Some((pool, off))
        } else {
            None
        }) by {
        lemma_target(f.name, f.result, f.table, f.sig, n, pool, off, w);
    }
    assert(goes_through(f, names, module_text(p), "tvm_load_i64_indirect"@, "tvm_load_i64_p"@, "i64"@, n));
}

/// Every module has loads that go through a table, and each of them calls the load of the
/// pool that it is asked for, of its own width.
pub proof fn law_module_indirect_loads(p: ModuleParams)
    requires
        p.n_pools > 0,
    ensures
        has_indirect_load(
            module_text(p),
            "tvm_load_u8_indirect"@,
            "tvm_load_u8_p"@,
            "i32"@,
            p.n_pools,
        ),
        has_indirect_load(
            module_text(p),
            "tvm_load_u32_indirect"@,
            "tvm_load_u32_p"@,
            "i32"@,
            p.n_pools,
        ),
        has_indirect_load(
            module_text(p),
            "tvm_load_i64_indirect"@,
            "tvm_load_i64_p"@,
            "i64"@,
            p.n_pools,
        ),
{
    lemma_holds_u8(p);
    lemma_holds_u32(p);
    lemma_holds_i64(p);
}

} // verus!
