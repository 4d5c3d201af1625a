//! What the loads and stores of one pool do, and what every generated module declares.
use vstd::prelude::*;
use crate::text::decimal;
use super::copy_laws::{lemma_fill_add, lemma_fill_place, lemma_fill_plain, pool_name};
use super::dispatch::{indirect_text, per_pool, reducers_text, typed_helpers_text};
use super::kernels::{INTRA_POOL_COPY, LOAD_I64, LOAD_U32, LOAD_U8, SIMD_SUM_U8, STORE_I64, STORE_U32, STORE_U8};
use super::meaning::{bound, bytes_of, called, declared_text, done, expr_text, func_text, laid_over, lemma_add_nothing, lemma_blank_literals, lemma_nothing_add, lemma_squeezed_add, load_width, number_of, offers, squeezed, stmt_text, store_width, value_of, Expr, Func, Stmt, World};
use super::module::{module_text, spill_module_text, with_body, with_dispatchers, with_memories, ModuleParams, WASI_IMPORTS, WASI_SPILL_HELPERS};
use super::shell_laws::{args2, declared_word, lemma_declared, lemma_offers_in_body, lemma_offers_itself, lemma_offers_left, lemma_offers_right, lemma_op_names};
use super::wat::fill;

verus! {

proof fn lemma_fill_load_u8(k: nat)
    ensures
        fill(LOAD_U8@, k) == "  (func $tvm_load_u8_p"@ + decimal(k) + " (export \"tvm_load_u8_p"@ + decimal(k)
                + "\") (param $off i32) (result i32) (i32.load8_u "@ + decimal(k)
                + " (local.get $off)))\n"@,
{
    broadcast use lemma_fill_add;

    lemma_fill_place(k);
    reveal_strlit("  (func $tvm_load_u8_p");
    reveal_strlit(" (export \"tvm_load_u8_p");
    reveal_strlit("\") (param $off i32) (result i32) (i32.load8_u ");
    reveal_strlit(" (local.get $off)))\n");
    reveal_strlit("@");
    reveal_strlit(r#"  (func $tvm_load_u8_p@ (export "tvm_load_u8_p@") (param $off i32) (result i32) (i32.load8_u @ (local.get $off)))
"#);
    assert(LOAD_U8@ =~= "  (func $tvm_load_u8_p"@ + "@"@ + " (export \"tvm_load_u8_p"@ + "@"@
            + "\") (param $off i32) (result i32) (i32.load8_u "@ + "@"@
            + " (local.get $off)))\n"@);
    lemma_fill_plain("  (func $tvm_load_u8_p"@, k);
    lemma_fill_plain(" (export \"tvm_load_u8_p"@, k);
    lemma_fill_plain("\") (param $off i32) (result i32) (i32.load8_u "@, k);
    lemma_fill_plain(" (local.get $off)))\n"@, k);
}

proof fn lemma_fill_load_u32(k: nat)
    ensures
        fill(LOAD_U32@, k) == "  (func $tvm_load_u32_p"@ + decimal(k) + " (export \"tvm_load_u32_p"@ + decimal(k)
                + "\") (param $off i32) (result i32) (i32.load "@ + decimal(k)
                + " (local.get $off)))\n"@,
{
    broadcast use lemma_fill_add;

    lemma_fill_place(k);
    reveal_strlit("  (func $tvm_load_u32_p");
    reveal_strlit(" (export \"tvm_load_u32_p");
    reveal_strlit("\") (param $off i32) (result i32) (i32.load ");
    reveal_strlit(" (local.get $off)))\n");
    reveal_strlit("@");
    reveal_strlit(r#"  (func $tvm_load_u32_p@ (export "tvm_load_u32_p@") (param $off i32) (result i32) (i32.load @ (local.get $off)))
"#);
    assert(LOAD_U32@ =~= "  (func $tvm_load_u32_p"@ + "@"@ + " (export \"tvm_load_u32_p"@ + "@"@
            + "\") (param $off i32) (result i32) (i32.load "@ + "@"@ + " (local.get $off)))\n"@);
    lemma_fill_plain("  (func $tvm_load_u32_p"@, k);
    lemma_fill_plain(" (export \"tvm_load_u32_p"@, k);
    lemma_fill_plain("\") (param $off i32) (result i32) (i32.load "@, k);
    lemma_fill_plain(" (local.get $off)))\n"@, k);
}

proof fn lemma_fill_load_i64(k: nat)
    ensures
        fill(LOAD_I64@, k) == "  (func $tvm_load_i64_p"@ + decimal(k) + " (export \"tvm_load_i64_p"@ + decimal(k)
                + "\") (param $off i32) (result i64) (i64.load "@ + decimal(k)
                + " (local.get $off)))\n"@,
{
    broadcast use lemma_fill_add;

    lemma_fill_place(k);
    reveal_strlit("  (func $tvm_load_i64_p");
    reveal_strlit(" (export \"tvm_load_i64_p");
    reveal_strlit("\") (param $off i32) (result i64) (i64.load ");
    reveal_strlit(" (local.get $off)))\n");
    reveal_strlit("@");
    reveal_strlit(r#"  (func $tvm_load_i64_p@ (export "tvm_load_i64_p@") (param $off i32) (result i64) (i64.load @ (local.get $off)))
"#);
    assert(LOAD_I64@ =~= "  (func $tvm_load_i64_p"@ + "@"@ + " (export \"tvm_load_i64_p"@ + "@"@
            + "\") (param $off i32) (result i64) (i64.load "@ + "@"@ + " (local.get $off)))\n"@);
    lemma_fill_plain("  (func $tvm_load_i64_p"@, k);
    lemma_fill_plain(" (export \"tvm_load_i64_p"@, k);
    lemma_fill_plain("\") (param $off i32) (result i64) (i64.load "@, k);
    lemma_fill_plain(" (local.get $off)))\n"@, k);
}

proof fn lemma_fill_store_u8(k: nat)
    ensures
        fill(STORE_U8@, k) == "  (func $tvm_store_u8_p"@ + decimal(k) + " (export \"tvm_store_u8_p"@ + decimal(k)
                + "\") (param $off i32) (param $v i32) (i32.store8 "@ + decimal(k)
                + " (local.get $off) (local.get $v)))\n"@,
{
    broadcast use lemma_fill_add;

    lemma_fill_place(k);
    reveal_strlit("  (func $tvm_store_u8_p");
    reveal_strlit(" (export \"tvm_store_u8_p");
    reveal_strlit("\") (param $off i32) (param $v i32) (i32.store8 ");
    reveal_strlit(" (local.get $off) (local.get $v)))\n");
    reveal_strlit("@");
    reveal_strlit(r#"  (func $tvm_store_u8_p@ (export "tvm_store_u8_p@") (param $off i32) (param $v i32) (i32.store8 @ (local.get $off) (local.get $v)))
"#);
    assert(STORE_U8@ =~= "  (func $tvm_store_u8_p"@ + "@"@ + " (export \"tvm_store_u8_p"@ + "@"@
            + "\") (param $off i32) (param $v i32) (i32.store8 "@ + "@"@
            + " (local.get $off) (local.get $v)))\n"@);
    lemma_fill_plain("  (func $tvm_store_u8_p"@, k);
    lemma_fill_plain(" (export \"tvm_store_u8_p"@, k);
    lemma_fill_plain("\") (param $off i32) (param $v i32) (i32.store8 "@, k);
    lemma_fill_plain(" (local.get $off) (local.get $v)))\n"@, k);
}

proof fn lemma_fill_store_u32(k: nat)
    ensures
        fill(STORE_U32@, k) == "  (func $tvm_store_u32_p"@ + decimal(k) + " (export \"tvm_store_u32_p"@ + decimal(k)
                + "\") (param $off i32) (param $v i32) (i32.store "@ + decimal(k)
                + " (local.get $off) (local.get $v)))\n"@,
{
    broadcast use lemma_fill_add;

    lemma_fill_place(k);
    reveal_strlit("  (func $tvm_store_u32_p");
    reveal_strlit(" (export \"tvm_store_u32_p");
    reveal_strlit("\") (param $off i32) (param $v i32) (i32.store ");
    reveal_strlit(" (local.get $off) (local.get $v)))\n");
    reveal_strlit("@");
    reveal_strlit(r#"  (func $tvm_store_u32_p@ (export "tvm_store_u32_p@") (param $off i32) (param $v i32) (i32.store @ (local.get $off) (local.get $v)))
"#);
    assert(STORE_U32@ =~= "  (func $tvm_store_u32_p"@ + "@"@ + " (export \"tvm_store_u32_p"@ + "@"@
            + "\") (param $off i32) (param $v i32) (i32.store "@ + "@"@
            + " (local.get $off) (local.get $v)))\n"@);
    lemma_fill_plain("  (func $tvm_store_u32_p"@, k);
    lemma_fill_plain(" (export \"tvm_store_u32_p"@, k);
    lemma_fill_plain("\") (param $off i32) (param $v i32) (i32.store "@, k);
    lemma_fill_plain(" (local.get $off) (local.get $v)))\n"@, k);
}

proof fn lemma_fill_store_i64(k: nat)
    ensures
        fill(STORE_I64@, k) == "  (func $tvm_store_i64_p"@ + decimal(k) + " (export \"tvm_store_i64_p"@ + decimal(k)
                + "\") (param $off i32) (param $v i64) (i64.store "@ + decimal(k)
                + " (local.get $off) (local.get $v)))\n"@,
{
    broadcast use lemma_fill_add;

    lemma_fill_place(k);
    reveal_strlit("  (func $tvm_store_i64_p");
    reveal_strlit(" (export \"tvm_store_i64_p");
    reveal_strlit("\") (param $off i32) (param $v i64) (i64.store ");
    reveal_strlit(" (local.get $off) (local.get $v)))\n");
    reveal_strlit("@");
    reveal_strlit(r#"  (func $tvm_store_i64_p@ (export "tvm_store_i64_p@") (param $off i32) (param $v i64) (i64.store @ (local.get $off) (local.get $v)))
"#);
    assert(STORE_I64@ =~= "  (func $tvm_store_i64_p"@ + "@"@ + " (export \"tvm_store_i64_p"@ + "@"@
            + "\") (param $off i32) (param $v i64) (i64.store "@ + "@"@
            + " (local.get $off) (local.get $v)))\n"@);
    lemma_fill_plain("  (func $tvm_store_i64_p"@, k);
    lemma_fill_plain(" (export \"tvm_store_i64_p"@, k);
    lemma_fill_plain("\") (param $off i32) (param $v i64) (i64.store "@, k);
    lemma_fill_plain(" (local.get $off) (local.get $v)))\n"@, k);
}

/// How the loads and stores of one pool name themselves.
proof fn lemma_typed_names_0()
    ensures
        squeezed("  (func $tvm_load_u8_p"@) == squeezed("(func $"@) + squeezed("tvm_load_u8_p"@),
        squeezed(" (export \"tvm_load_u8_p"@) == squeezed(" (export \""@) + squeezed("tvm_load_u8_p"@),
        squeezed("  (func $tvm_load_u32_p"@) == squeezed("(func $"@) + squeezed("tvm_load_u32_p"@),
        squeezed(" (export \"tvm_load_u32_p"@) == squeezed(" (export \""@) + squeezed("tvm_load_u32_p"@),
        squeezed("  (func $tvm_load_i64_p"@) == squeezed("(func $"@) + squeezed("tvm_load_i64_p"@),
        squeezed(" (export \"tvm_load_i64_p"@) == squeezed(" (export \""@) + squeezed("tvm_load_i64_p"@),
{
    broadcast use {lemma_squeezed_add, lemma_add_nothing, lemma_nothing_add};

    lemma_blank_literals();
    reveal_strlit("  (func $tvm_load_u8_p");
    reveal_strlit("  ");
    reveal_strlit("(func $");
    reveal_strlit("tvm_load_u8_p");
    reveal_strlit(" (export \"tvm_load_u8_p");
    reveal_strlit(" (export \"");
    reveal_strlit("  (func $tvm_load_u32_p");
    reveal_strlit("tvm_load_u32_p");
    reveal_strlit(" (export \"tvm_load_u32_p");
    reveal_strlit("  (func $tvm_load_i64_p");
    reveal_strlit("tvm_load_i64_p");
    reveal_strlit(" (export \"tvm_load_i64_p");
    assert("  (func $tvm_load_u8_p"@ =~= "  "@ + "(func $"@ + "tvm_load_u8_p"@);
    assert(" (export \"tvm_load_u8_p"@ =~= " (export \""@ + "tvm_load_u8_p"@);
    assert("  (func $tvm_load_u32_p"@ =~= "  "@ + "(func $"@ + "tvm_load_u32_p"@);
    assert(" (export \"tvm_load_u32_p"@ =~= " (export \""@ + "tvm_load_u32_p"@);
    assert("  (func $tvm_load_i64_p"@ =~= "  "@ + "(func $"@ + "tvm_load_i64_p"@);
    assert(" (export \"tvm_load_i64_p"@ =~= " (export \""@ + "tvm_load_i64_p"@);
}

/// How the loads and stores of one pool name themselves.
proof fn lemma_typed_names_1()
    ensures
        squeezed("  (func $tvm_store_u8_p"@) == squeezed("(func $"@) + squeezed("tvm_store_u8_p"@),
        squeezed(" (export \"tvm_store_u8_p"@) == squeezed(" (export \""@) + squeezed("tvm_store_u8_p"@),
        squeezed("  (func $tvm_store_u32_p"@) == squeezed("(func $"@) + squeezed("tvm_store_u32_p"@),
        squeezed(" (export \"tvm_store_u32_p"@) == squeezed(" (export \""@) + squeezed("tvm_store_u32_p"@),
        squeezed("  (func $tvm_store_i64_p"@) == squeezed("(func $"@) + squeezed("tvm_store_i64_p"@),
        squeezed(" (export \"tvm_store_i64_p"@) == squeezed(" (export \""@) + squeezed("tvm_store_i64_p"@),
{
    broadcast use {lemma_squeezed_add, lemma_add_nothing, lemma_nothing_add};

    lemma_blank_literals();
    reveal_strlit("  (func $tvm_store_u8_p");
    reveal_strlit("  ");
    reveal_strlit("(func $");
    reveal_strlit("tvm_store_u8_p");
    reveal_strlit(" (export \"tvm_store_u8_p");
    reveal_strlit(" (export \"");
    reveal_strlit("  (func $tvm_store_u32_p");
    reveal_strlit("tvm_store_u32_p");
    reveal_strlit(" (export \"tvm_store_u32_p");
    reveal_strlit("  (func $tvm_store_i64_p");
    reveal_strlit("tvm_store_i64_p");
    reveal_strlit(" (export \"tvm_store_i64_p");
    assert("  (func $tvm_store_u8_p"@ =~= "  "@ + "(func $"@ + "tvm_store_u8_p"@);
    assert(" (export \"tvm_store_u8_p"@ =~= " (export \""@ + "tvm_store_u8_p"@);
    assert("  (func $tvm_store_u32_p"@ =~= "  "@ + "(func $"@ + "tvm_store_u32_p"@);
    assert(" (export \"tvm_store_u32_p"@ =~= " (export \""@ + "tvm_store_u32_p"@);
    assert("  (func $tvm_store_i64_p"@ =~= "  "@ + "(func $"@ + "tvm_store_i64_p"@);
    assert(" (export \"tvm_store_i64_p"@ =~= " (export \""@ + "tvm_store_i64_p"@);
}

/// Declarations of parameters, up to white space.
proof fn lemma_one_param()
    ensures
        squeezed(" (param $off i32)"@) == declared_word("param"@, "off"@, "i32"@),
        squeezed(" (param $v i32)"@) == declared_word("param"@, "v"@, "i32"@),
        squeezed(" (param $v i64)"@) == declared_word("param"@, "v"@, "i64"@),
{
    broadcast use {lemma_squeezed_add, lemma_add_nothing, lemma_nothing_add};

    lemma_blank_literals();
    reveal_strlit(" ");
    reveal_strlit("(");
    reveal_strlit("param");
    reveal_strlit(" $");
    reveal_strlit("i32");
    reveal_strlit("i64");
    reveal_strlit(")");
    reveal_strlit("off");
    reveal_strlit("v");
    reveal_strlit(" (param $off i32)");
    reveal_strlit(" (param $v i32)");
    reveal_strlit(" (param $v i64)");
    assert(" (param $off i32)"@ =~= " "@ + "("@ + "param"@ + " $"@ + "off"@ + " "@ + "i32"@ + ")"@);
    assert(" (param $v i32)"@ =~= " "@ + "("@ + "param"@ + " $"@ + "v"@ + " "@ + "i32"@ + ")"@);
    assert(" (param $v i64)"@ =~= " "@ + "("@ + "param"@ + " $"@ + "v"@ + " "@ + "i64"@ + ")"@);
}

proof fn lemma_head_load_u8()
    ensures
        squeezed("\") (param $off i32) (result i32) (i32.load8_u "@) == squeezed("\")"@) + declared_word("param"@, "off"@, "i32"@) + squeezed("(result "@)
                + squeezed("i32"@) + squeezed(")"@) + squeezed("("@) + squeezed("i32.load8_u"@),
{
    broadcast use {lemma_squeezed_add, lemma_add_nothing, lemma_nothing_add};

    lemma_blank_literals();
    lemma_one_param();
    reveal_strlit("\") (param $off i32) (result i32) (i32.load8_u ");
    reveal_strlit("\")");
    reveal_strlit(" (param $off i32)");
    reveal_strlit(" ");
    reveal_strlit("(result ");
    reveal_strlit("i32");
    reveal_strlit(")");
    reveal_strlit("(");
    reveal_strlit("i32.load8_u");
    assert("\") (param $off i32) (result i32) (i32.load8_u "@ =~= "\")"@ + " (param $off i32)"@ + " "@ + "(result "@ + "i32"@ + ")"@ + " "@ + "("@
            + "i32.load8_u"@ + " "@);
}

proof fn lemma_head_load_u32()
    ensures
        squeezed("\") (param $off i32) (result i32) (i32.load "@) == squeezed("\")"@) + declared_word("param"@, "off"@, "i32"@) + squeezed("(result "@)
                + squeezed("i32"@) + squeezed(")"@) + squeezed("("@) + squeezed("i32.load"@),
{
    broadcast use {lemma_squeezed_add, lemma_add_nothing, lemma_nothing_add};

    lemma_blank_literals();
    lemma_one_param();
    reveal_strlit("\") (param $off i32) (result i32) (i32.load ");
    reveal_strlit("\")");
    reveal_strlit(" (param $off i32)");
    reveal_strlit(" ");
    reveal_strlit("(result ");
    reveal_strlit("i32");
    reveal_strlit(")");
    reveal_strlit("(");
    reveal_strlit("i32.load");
    assert("\") (param $off i32) (result i32) (i32.load "@ =~= "\")"@ + " (param $off i32)"@ + " "@ + "(result "@ + "i32"@ + ")"@ + " "@ + "("@
            + "i32.load"@ + " "@);
}

proof fn lemma_head_load_i64()
    ensures
        squeezed("\") (param $off i32) (result i64) (i64.load "@) == squeezed("\")"@) + declared_word("param"@, "off"@, "i32"@) + squeezed("(result "@)
                + squeezed("i64"@) + squeezed(")"@) + squeezed("("@) + squeezed("i64.load"@),
{
    broadcast use {lemma_squeezed_add, lemma_add_nothing, lemma_nothing_add};

    lemma_blank_literals();
    lemma_one_param();
    reveal_strlit("\") (param $off i32) (result i64) (i64.load ");
    reveal_strlit("\")");
    reveal_strlit(" (param $off i32)");
    reveal_strlit(" ");
    reveal_strlit("(result ");
    reveal_strlit("i64");
    reveal_strlit(")");
    reveal_strlit("(");
    reveal_strlit("i64.load");
    assert("\") (param $off i32) (result i64) (i64.load "@ =~= "\")"@ + " (param $off i32)"@ + " "@ + "(result "@ + "i64"@ + ")"@ + " "@ + "("@
            + "i64.load"@ + " "@);
}

proof fn lemma_head_store_u8()
    ensures
        squeezed("\") (param $off i32) (param $v i32) (i32.store8 "@) == squeezed("\")"@) + declared_word("param"@, "off"@, "i32"@)
                + declared_word("param"@, "v"@, "i32"@) + squeezed("("@)
                + squeezed("i32.store8"@),
{
    broadcast use {lemma_squeezed_add, lemma_add_nothing, lemma_nothing_add};

    lemma_blank_literals();
    lemma_one_param();
    reveal_strlit("\") (param $off i32) (param $v i32) (i32.store8 ");
    reveal_strlit("\")");
    reveal_strlit(" (param $off i32)");
    reveal_strlit(" (param $v i32)");
    reveal_strlit(" ");
    reveal_strlit("(");
    reveal_strlit("i32.store8");
    assert("\") (param $off i32) (param $v i32) (i32.store8 "@ =~= "\")"@ + " (param $off i32)"@ + " (param $v i32)"@ + " "@ + "("@ + "i32.store8"@ + " "@);
}

proof fn lemma_head_store_u32()
    ensures
        squeezed("\") (param $off i32) (param $v i32) (i32.store "@) == squeezed("\")"@) + declared_word("param"@, "off"@, "i32"@)
                + declared_word("param"@, "v"@, "i32"@) + squeezed("("@) + squeezed("i32.store"@),
{
    broadcast use {lemma_squeezed_add, lemma_add_nothing, lemma_nothing_add};

    lemma_blank_literals();
    lemma_one_param();
    reveal_strlit("\") (param $off i32) (param $v i32) (i32.store ");
    reveal_strlit("\")");
    reveal_strlit(" (param $off i32)");
    reveal_strlit(" (param $v i32)");
    reveal_strlit(" ");
    reveal_strlit("(");
    reveal_strlit("i32.store");
    assert("\") (param $off i32) (param $v i32) (i32.store "@ =~= "\")"@ + " (param $off i32)"@ + " (param $v i32)"@ + " "@ + "("@ + "i32.store"@ + " "@);
}

proof fn lemma_head_store_i64()
    ensures
        squeezed("\") (param $off i32) (param $v i64) (i64.store "@) == squeezed("\")"@) + declared_word("param"@, "off"@, "i32"@)
                + declared_word("param"@, "v"@, "i64"@) + squeezed("("@) + squeezed("i64.store"@),
{
    broadcast use {lemma_squeezed_add, lemma_add_nothing, lemma_nothing_add};

    lemma_blank_literals();
    lemma_one_param();
    reveal_strlit("\") (param $off i32) (param $v i64) (i64.store ");
    reveal_strlit("\")");
    reveal_strlit(" (param $off i32)");
    reveal_strlit(" (param $v i64)");
    reveal_strlit(" ");
    reveal_strlit("(");
    reveal_strlit("i64.store");
    assert("\") (param $off i32) (param $v i64) (i64.store "@ =~= "\")"@ + " (param $off i32)"@ + " (param $v i64)"@ + " "@ + "("@ + "i64.store"@ + " "@);
}

/// How the loads and stores of one pool end.
proof fn lemma_typed_ends()
    ensures
        squeezed(" (local.get $off)))\n"@) == squeezed("(local.get $"@) + squeezed("off"@) + squeezed(")"@) + squeezed(")"@)
                + squeezed(")"@),
        squeezed(" (local.get $off) (local.get $v)))\n"@) == squeezed("(local.get $"@) + squeezed("off"@) + squeezed(")"@)
                + squeezed("(local.get $"@) + squeezed("v"@) + squeezed(")"@) + squeezed(")"@)
                + squeezed(")"@),
{
    broadcast use {lemma_squeezed_add, lemma_add_nothing, lemma_nothing_add};

    lemma_blank_literals();
    reveal_strlit(" (local.get $off)))\n");
    reveal_strlit(" ");
    reveal_strlit("(local.get $");
    reveal_strlit("off");
    reveal_strlit(")");
    reveal_strlit("\n");
    reveal_strlit(" (local.get $off) (local.get $v)))\n");
    reveal_strlit("v");
    assert(" (local.get $off)))\n"@ =~= " "@ + "(local.get $"@ + "off"@ + ")"@ + ")"@ + ")"@ + "\n"@);
    assert(" (local.get $off) (local.get $v)))\n"@ =~= " "@ + "(local.get $"@ + "off"@ + ")"@ + " "@ + "(local.get $"@ + "v"@ + ")"@ + ")"@
            + ")"@ + "\n"@);
}

/// The load of pool `k`.
spec fn pool_load(name: Seq<char>, op: Seq<char>, ty: Seq<char>, k: nat) -> Func {
    Func {
        name,
        params: seq![("off"@, "i32"@)],
        result: Some(ty),
        locals: Seq::empty(),
        code: Stmt::Nothing,
        value: Some(Expr::Load(op, k, Box::new(Expr::Get("off"@)))),
    }
}

/// The store of pool `k`.
spec fn pool_store(name: Seq<char>, op: Seq<char>, ty: Seq<char>, k: nat) -> Func {
    Func {
        name,
        params: seq![("off"@, "i32"@), ("v"@, ty)],
        result: None,
        locals: Seq::empty(),
        code: Stmt::Store(op, k, Expr::Get("off"@), Expr::Get("v"@)),
        value: None,
    }
}

proof fn lemma_pool_load_text(name: Seq<char>, op: Seq<char>, ty: Seq<char>, k: nat)
    ensures
        squeezed(func_text(pool_load(name, op, ty, k))) == squeezed("(func $"@) + squeezed(name)
            + squeezed(" (export \""@) + squeezed(name) + squeezed("\")"@) + declared_word(
            "param"@,
            "off"@,
            "i32"@,
        ) + (squeezed("(result "@) + squeezed(ty) + squeezed(")"@)) + (squeezed("("@) + squeezed(op)
            + squeezed(decimal(k)) + (squeezed("(local.get $"@) + squeezed("off"@) + squeezed(")"@))
            + squeezed(")"@)) + squeezed(")"@),
{
    broadcast use {lemma_squeezed_add, lemma_add_nothing, lemma_nothing_add};

    lemma_blank_literals();
    let f = pool_load(name, op, ty, k);
    lemma_declared("param"@, f.params, 1);
    assert(squeezed(declared_text("param"@, f.params, 0)) == Seq::<char>::empty());
    assert(squeezed(declared_text("local"@, f.locals, 0)) == Seq::<char>::empty());
    assert(squeezed(stmt_text(Stmt::Nothing)) == Seq::<char>::empty());
    assert(squeezed(expr_text(Expr::Get("off"@))) == squeezed("(local.get $"@) + squeezed("off"@)
        + squeezed(")"@));
}

proof fn lemma_pool_store_text(name: Seq<char>, op: Seq<char>, ty: Seq<char>, k: nat)
    ensures
        squeezed(func_text(pool_store(name, op, ty, k))) == squeezed("(func $"@) + squeezed(name)
            + squeezed(" (export \""@) + squeezed(name) + squeezed("\")"@) + (declared_word(
            "param"@,
            "off"@,
            "i32"@,
        ) + declared_word("param"@, "v"@, ty)) + (squeezed("("@) + squeezed(op) + squeezed(
            decimal(k),
        ) + (squeezed("(local.get $"@) + squeezed("off"@) + squeezed(")"@)) + (squeezed(
            "(local.get $"@,
        ) + squeezed("v"@) + squeezed(")"@)) + squeezed(")"@)) + squeezed(")"@),
{
    broadcast use {lemma_squeezed_add, lemma_add_nothing, lemma_nothing_add};

    lemma_blank_literals();
    let f = pool_store(name, op, ty, k);
    lemma_declared("param"@, f.params, 2);
    lemma_declared("param"@, f.params, 1);
    assert(squeezed(declared_text("param"@, f.params, 0)) == Seq::<char>::empty());
    assert(squeezed(declared_text("local"@, f.locals, 0)) == Seq::<char>::empty());
    assert(squeezed(expr_text(Expr::Get("off"@))) == squeezed("(local.get $"@) + squeezed("off"@)
        + squeezed(")"@));
    assert(squeezed(expr_text(Expr::Get("v"@))) == squeezed("(local.get $"@) + squeezed("v"@)
        + squeezed(")"@));
}

proof fn lemma_regroup_load(
    f: Seq<char>,
    n: Seq<char>,
    d: Seq<char>,
    e: Seq<char>,
    q: Seq<char>,
    p: Seq<char>,
    r: Seq<char>,
    ty: Seq<char>,
    c: Seq<char>,
    o: Seq<char>,
    op: Seq<char>,
    g: Seq<char>,
    x: Seq<char>,
)
    ensures
        (f + n) + d + (e + n) + d + (q + p + r + ty + c + o + op) + d + (g + x + c + c + c) == f + (n
            + d) + e + (n + d) + q + p + (r + ty + c) + (o + op + d + (g + x + c) + c) + c,
{
    let a = f + (n + d) + e + (n + d) + q + p;
    assert((f + n) + d + (e + n) + d + (q + p + r + ty + c + o + op) =~= a + (r + ty + c) + o + op);
    assert((a + (r + ty + c) + o + op) + d + (g + x + c + c + c) =~= a + (r + ty + c) + (o + op + d
        + (g + x + c) + c) + c);
}

proof fn lemma_regroup_store(
    f: Seq<char>,
    n: Seq<char>,
    d: Seq<char>,
    e: Seq<char>,
    q: Seq<char>,
    p: Seq<char>,
    v: Seq<char>,
    o: Seq<char>,
    op: Seq<char>,
    g: Seq<char>,
    x: Seq<char>,
    y: Seq<char>,
    c: Seq<char>,
)
    ensures
        (f + n) + d + (e + n) + d + (q + p + v + o + op) + d + (g + x + c + g + y + c + c + c) == f
            + (n + d) + e + (n + d) + q + (p + v) + (o + op + d + (g + x + c) + (g + y + c) + c)
            + c,
{
    let a = f + (n + d) + e + (n + d) + q + (p + v);
    assert((f + n) + d + (e + n) + d + (q + p + v + o + op) =~= a + o + op);
    assert((a + o + op) + d + (g + x + c + g + y + c + c + c) =~= a + (o + op + d + (g + x + c) + (g
        + y + c) + c) + c);
}

proof fn lemma_text_load_u8(k: nat)
    ensures
        squeezed(fill(LOAD_U8@, k)) == squeezed(
            func_text(pool_load(pool_name("tvm_load_u8_p"@, k), "i32.load8_u"@, "i32"@, k)),
        ),
{
    broadcast use lemma_squeezed_add;

    lemma_fill_load_u8(k);
    lemma_typed_names_0();
    lemma_typed_names_1();
    lemma_head_load_u8();
    lemma_typed_ends();
    lemma_pool_load_text(pool_name("tvm_load_u8_p"@, k), "i32.load8_u"@, "i32"@, k);
    lemma_regroup_load(
        squeezed("(func $"@),
        squeezed("tvm_load_u8_p"@),
        squeezed(decimal(k)),
        squeezed(" (export \""@),
        squeezed("\")"@),
        declared_word("param"@, "off"@, "i32"@),
        squeezed("(result "@),
        squeezed("i32"@),
        squeezed(")"@),
        squeezed("("@),
        squeezed("i32.load8_u"@),
        squeezed("(local.get $"@),
        squeezed("off"@),
    );
}

proof fn lemma_text_load_u32(k: nat)
    ensures
        squeezed(fill(LOAD_U32@, k)) == squeezed(
            func_text(pool_load(pool_name("tvm_load_u32_p"@, k), "i32.load"@, "i32"@, k)),
        ),
{
    broadcast use lemma_squeezed_add;

    lemma_fill_load_u32(k);
    lemma_typed_names_0();
    lemma_typed_names_1();
    lemma_head_load_u32();
    lemma_typed_ends();
    lemma_pool_load_text(pool_name("tvm_load_u32_p"@, k), "i32.load"@, "i32"@, k);
    lemma_regroup_load(
        squeezed("(func $"@),
        squeezed("tvm_load_u32_p"@),
        squeezed(decimal(k)),
        squeezed(" (export \""@),
        squeezed("\")"@),
        declared_word("param"@, "off"@, "i32"@),
        squeezed("(result "@),
        squeezed("i32"@),
        squeezed(")"@),
        squeezed("("@),
        squeezed("i32.load"@),
        squeezed("(local.get $"@),
        squeezed("off"@),
    );
}

proof fn lemma_text_load_i64(k: nat)
    ensures
        squeezed(fill(LOAD_I64@, k)) == squeezed(
            func_text(pool_load(pool_name("tvm_load_i64_p"@, k), "i64.load"@, "i64"@, k)),
        ),
{
    broadcast use lemma_squeezed_add;

    lemma_fill_load_i64(k);
    lemma_typed_names_0();
    lemma_typed_names_1();
    lemma_head_load_i64();
    lemma_typed_ends();
    lemma_pool_load_text(pool_name("tvm_load_i64_p"@, k), "i64.load"@, "i64"@, k);
    lemma_regroup_load(
        squeezed("(func $"@),
        squeezed("tvm_load_i64_p"@),
        squeezed(decimal(k)),
        squeezed(" (export \""@),
        squeezed("\")"@),
        declared_word("param"@, "off"@, "i32"@),
        squeezed("(result "@),
        squeezed("i64"@),
        squeezed(")"@),
        squeezed("("@),
        squeezed("i64.load"@),
        squeezed("(local.get $"@),
        squeezed("off"@),
    );
}

proof fn lemma_text_store_u8(k: nat)
    ensures
        squeezed(fill(STORE_U8@, k)) == squeezed(
            func_text(pool_store(pool_name("tvm_store_u8_p"@, k), "i32.store8"@, "i32"@, k)),
        ),
{
    broadcast use lemma_squeezed_add;

    lemma_fill_store_u8(k);
    lemma_typed_names_0();
    lemma_typed_names_1();
    lemma_head_store_u8();
    lemma_typed_ends();
    lemma_pool_store_text(pool_name("tvm_store_u8_p"@, k), "i32.store8"@, "i32"@, k);
    lemma_regroup_store(
        squeezed("(func $"@),
        squeezed("tvm_store_u8_p"@),
        squeezed(decimal(k)),
        squeezed(" (export \""@),
        squeezed("\")"@),
        declared_word("param"@, "off"@, "i32"@),
        declared_word("param"@, "v"@, "i32"@),
        squeezed("("@),
        squeezed("i32.store8"@),
        squeezed("(local.get $"@),
        squeezed("off"@),
        squeezed("v"@),
        squeezed(")"@),
    );
}

proof fn lemma_text_store_u32(k: nat)
    ensures
        squeezed(fill(STORE_U32@, k)) == squeezed(
            func_text(pool_store(pool_name("tvm_store_u32_p"@, k), "i32.store"@, "i32"@, k)),
        ),
{
    broadcast use lemma_squeezed_add;

    lemma_fill_store_u32(k);
    lemma_typed_names_0();
    lemma_typed_names_1();
    lemma_head_store_u32();
    lemma_typed_ends();
    lemma_pool_store_text(pool_name("tvm_store_u32_p"@, k), "i32.store"@, "i32"@, k);
    lemma_regroup_store(
        squeezed("(func $"@),
        squeezed("tvm_store_u32_p"@),
        squeezed(decimal(k)),
        squeezed(" (export \""@),
        squeezed("\")"@),
        declared_word("param"@, "off"@, "i32"@),
        declared_word("param"@, "v"@, "i32"@),
        squeezed("("@),
        squeezed("i32.store"@),
        squeezed("(local.get $"@),
        squeezed("off"@),
        squeezed("v"@),
        squeezed(")"@),
    );
}

proof fn lemma_text_store_i64(k: nat)
    ensures
        squeezed(fill(STORE_I64@, k)) == squeezed(
            func_text(pool_store(pool_name("tvm_store_i64_p"@, k), "i64.store"@, "i64"@, k)),
        ),
{
    broadcast use lemma_squeezed_add;

    lemma_fill_store_i64(k);
    lemma_typed_names_0();
    lemma_typed_names_1();
    lemma_head_store_i64();
    lemma_typed_ends();
    lemma_pool_store_text(pool_name("tvm_store_i64_p"@, k), "i64.store"@, "i64"@, k);
    lemma_regroup_store(
        squeezed("(func $"@),
        squeezed("tvm_store_i64_p"@),
        squeezed(decimal(k)),
        squeezed(" (export \""@),
        squeezed("\")"@),
        declared_word("param"@, "off"@, "i32"@),
        declared_word("param"@, "v"@, "i64"@),
        squeezed("("@),
        squeezed("i64.store"@),
        squeezed("(local.get $"@),
        squeezed("off"@),
        squeezed("v"@),
        squeezed(")"@),
    );
}

/// One argument.
pub open spec fn args1(a: nat) -> Seq<nat> {
    seq![a]
}

/// The load of pool `k`: the number of `width` bytes at the offset.
pub open spec fn loads_pool(f: Func, n: u32, k: nat, width: nat) -> bool {
    forall|w: World, off: nat|
        w.mems.len() == n ==> #[trigger] called(f, args1(off), w) == (if off + width
            <= w.mems[k as int].len() {
            Some((w, number_of(w.mems[k as int].subrange(off as int, (off + width) as int))))
        } else {
            None
        })
}

/// The store of pool `k`: the lowest `width` bytes of the value stand at the offset.
pub open spec fn stores_pool(f: Func, n: u32, k: nat, width: nat) -> bool {
    forall|w: World, off: nat, v: nat|
        w.mems.len() == n ==> #[trigger] called(f, args2(off, v), w) == (if off + width
            <= w.mems[k as int].len() {
            Some(
                (
                    World {
                        mems: w.mems.update(
                            k as int,
                            laid_over(w.mems[k as int], off as int, bytes_of(v, width)),
                        ),
                        ..w
                    },
                    0nat,
                ),
            )
        } else {
            None
        })
}

proof fn lemma_pool_load(name: Seq<char>, op: Seq<char>, ty: Seq<char>, n: u32, k: nat, width: nat)
    requires
        k < n,
        load_width(op) == Some(width),
    ensures
        loads_pool(pool_load(name, op, ty, k), n, k, width),
{
    let f = pool_load(name, op, ty, k);
    assert forall|w: World, off: nat| w.mems.len() == n implies #[trigger] called(
        f,
        args1(off),
        w,
    ) == (if off + width <= w.mems[k as int].len() {
        Some((w, number_of(w.mems[k as int].subrange(off as int, (off + width) as int))))
    } else {
        None
    }) by {
        let env = bound(f.params, args1(off), 1);
        reveal_with_fuel(bound, 3);
        assert(env == Map::<Seq<char>, nat>::empty().insert("off"@, off));
        assert(done(Stmt::Nothing, env, w) == Some((env, w)));
        assert(value_of(Expr::Get("off"@), env, w) == Some(off));
    }
}

proof fn lemma_pool_store(name: Seq<char>, op: Seq<char>, ty: Seq<char>, n: u32, k: nat, width: nat)
    requires
        k < n,
        store_width(op) == Some(width),
    ensures
        stores_pool(pool_store(name, op, ty, k), n, k, width),
{
    let f = pool_store(name, op, ty, k);
    reveal_strlit("off");
    reveal_strlit("v");
    assert("off"@.len() != "v"@.len());
    assert forall|w: World, off: nat, v: nat| w.mems.len() == n implies #[trigger] called(
        f,
        args2(off, v),
        w,
    ) == (if off + width <= w.mems[k as int].len() {
        Some(
            (
                World {
                    mems: w.mems.update(
                        k as int,
                        laid_over(w.mems[k as int], off as int, bytes_of(v, width)),
                    ),
                    ..w
                },
                0nat,
            ),
        )
    } else {
        None
    }) by {
        let env = bound(f.params, args2(off, v), 2);
        reveal_with_fuel(bound, 3);
        assert(env == Map::<Seq<char>, nat>::empty().insert("off"@, off).insert("v"@, v));
        assert(value_of(Expr::Get("off"@), env, w) == Some(off));
        assert(value_of(Expr::Get("v"@), env, w) == Some(v));
    }
}

/// The text has a load of pool `k` under this name.
pub open spec fn has_pool_load(
    text: Seq<char>,
    stem: Seq<char>,
    n: u32,
    k: nat,
    width: nat,
) -> bool {
    exists|f: Func|
        f.name == pool_name(stem, k) && #[trigger] offers(text, f) && loads_pool(f, n, k, width)
}

/// The text has a store of pool `k` under this name.
pub open spec fn has_pool_store(
    text: Seq<char>,
    stem: Seq<char>,
    n: u32,
    k: nat,
    width: nat,
) -> bool {
    exists|f: Func|
        f.name == pool_name(stem, k) && #[trigger] offers(text, f) && stores_pool(f, n, k, width)
}

/// One of the six helpers of pool `k` stands among those of all pools.
proof fn lemma_in_typed(n: int, k: int, f: Func)
    requires
        0 <= k < n,
        offers(typed_of(k as nat), f),
    ensures
        offers(typed_helpers_text(n), f),
    decreases n,
{
    let before = typed_helpers_text(n - 1);
    if k < n - 1 {
        lemma_in_typed(n - 1, k, f);
    }
    let j = (n - 1) as nat;
    lemma_typed_step(n);
    if k < n - 1 {
        lemma_offers_left(before, typed_of(j), f);
    } else {
        lemma_offers_right(before, typed_of(j), f);
    }
}

/// The six helpers of one pool.
spec fn typed_of(k: nat) -> Seq<char> {
    fill(LOAD_U8@, k) + fill(LOAD_U32@, k) + fill(LOAD_I64@, k) + fill(STORE_U8@, k) + fill(
        STORE_U32@,
        k,
    ) + fill(STORE_I64@, k)
}

proof fn lemma_typed_step(n: int)
    requires
        n > 0,
    ensures
        typed_helpers_text(n) == typed_helpers_text(n - 1) + typed_of((n - 1) as nat),
{
    let k = (n - 1) as nat;
    lemma_six(
        typed_helpers_text(n - 1),
        fill(LOAD_U8@, k),
        fill(LOAD_U32@, k),
        fill(LOAD_I64@, k),
        fill(STORE_U8@, k),
        fill(STORE_U32@, k),
        fill(STORE_I64@, k),
    );
}

proof fn lemma_six(
    t: Seq<char>,
    a: Seq<char>,
    b: Seq<char>,
    c: Seq<char>,
    d: Seq<char>,
    e: Seq<char>,
    f: Seq<char>,
)
    ensures
        t + a + b + c + d + e + f == t + (a + b + c + d + e + f),
{
    assert(t + a + b + c + d + e + f =~= t + (a + b + c + d + e + f));
}

proof fn lemma_typed_in_module(p: ModuleParams, k: nat, f: Func)
    requires
        k < p.n_pools,
        offers(typed_of(k), f),
    ensures
        offers(module_text(p), f),
{
    let n = p.n_pools;
    let out = with_memories(
        "(module\n"@,
        p.initial_pages_per_pool,
        p.max_pages_per_pool,
        n as int,
    ) + "\n"@;
    let a = with_dispatchers(out, n);
    let b = a + typed_helpers_text(n as int);
    let c = b + per_pool(INTRA_POOL_COPY@, n as int);
    let d = c + indirect_text(n);
    let e = d + per_pool(SIMD_SUM_U8@, n as int);
    lemma_in_typed(n as int, k as int, f);
    lemma_offers_right(a, typed_helpers_text(n as int), f);
    lemma_offers_left(b, per_pool(INTRA_POOL_COPY@, n as int), f);
    lemma_offers_left(c, indirect_text(n), f);
    lemma_offers_left(d, per_pool(SIMD_SUM_U8@, n as int), f);
    lemma_offers_left(e, reducers_text(n as int), f);
    lemma_offers_in_body(e + reducers_text(n as int), p.user_body@, f);
}

proof fn lemma_one_of_six(k: nat, f: Func)
    requires
        offers(fill(LOAD_U8@, k), f) || offers(fill(LOAD_U32@, k), f) || offers(
            fill(LOAD_I64@, k),
            f,
        ) || offers(fill(STORE_U8@, k), f) || offers(fill(STORE_U32@, k), f) || offers(
            fill(STORE_I64@, k),
            f,
        ),
    ensures
        offers(typed_of(k), f),
{
    let a = fill(LOAD_U8@, k);
    let b = fill(LOAD_U32@, k);
    let c = fill(LOAD_I64@, k);
    let d = fill(STORE_U8@, k);
    let e = fill(STORE_U32@, k);
    let g = fill(STORE_I64@, k);
    if offers(g, f) {
        lemma_offers_right(a + b + c + d + e, g, f);
    } else {
        if offers(e, f) {
            lemma_offers_right(a + b + c + d, e, f);
        } else {
            if offers(d, f) {
                lemma_offers_right(a + b + c, d, f);
            } else {
                if offers(c, f) {
                    lemma_offers_right(a + b, c, f);
                } else {
                    if offers(b, f) {
                        lemma_offers_right(a, b, f);
                    } else {
                        lemma_offers_left(a, b, f);
                    }
                    lemma_offers_left(a + b, c, f);
                }
                lemma_offers_left(a + b + c, d, f);
            }
            lemma_offers_left(a + b + c + d, e, f);
        }
        lemma_offers_left(a + b + c + d + e, g, f);
    }
}

/// Every module has the loads and stores of each pool, and they read and write just their
/// bytes of that pool.
pub proof fn law_module_pool_loads_and_stores(p: ModuleParams, k: nat)
    requires
        k < p.n_pools,
    ensures
        has_pool_load(module_text(p), "tvm_load_u8_p"@, p.n_pools, k, 1),
        has_pool_load(module_text(p), "tvm_load_u32_p"@, p.n_pools, k, 4),
        has_pool_load(module_text(p), "tvm_load_i64_p"@, p.n_pools, k, 8),
        has_pool_store(module_text(p), "tvm_store_u8_p"@, p.n_pools, k, 1),
        has_pool_store(module_text(p), "tvm_store_u32_p"@, p.n_pools, k, 4),
        has_pool_store(module_text(p), "tvm_store_i64_p"@, p.n_pools, k, 8),
{
    lemma_op_names();
    assert(has_pool_load(module_text(p), "tvm_load_u8_p"@, p.n_pools, k, 1)) by {
        let f = pool_load(pool_name("tvm_load_u8_p"@, k), "i32.load8_u"@, "i32"@, k);
        lemma_pool_load(pool_name("tvm_load_u8_p"@, k), "i32.load8_u"@, "i32"@, p.n_pools, k, 1);
        lemma_text_load_u8(k);
        lemma_offers_itself(fill(LOAD_U8@, k), f);
        lemma_one_of_six(k, f);
        lemma_typed_in_module(p, k, f);
    }
    assert(has_pool_load(module_text(p), "tvm_load_u32_p"@, p.n_pools, k, 4)) by {
        let f = pool_load(pool_name("tvm_load_u32_p"@, k), "i32.load"@, "i32"@, k);
        lemma_pool_load(pool_name("tvm_load_u32_p"@, k), "i32.load"@, "i32"@, p.n_pools, k, 4);
        lemma_text_load_u32(k);
        lemma_offers_itself(fill(LOAD_U32@, k), f);
        lemma_one_of_six(k, f);
        lemma_typed_in_module(p, k, f);
    }
    assert(has_pool_load(module_text(p), "tvm_load_i64_p"@, p.n_pools, k, 8)) by {
        let f = pool_load(pool_name("tvm_load_i64_p"@, k), "i64.load"@, "i64"@, k);
        lemma_pool_load(pool_name("tvm_load_i64_p"@, k), "i64.load"@, "i64"@, p.n_pools, k, 8);
        lemma_text_load_i64(k);
        lemma_offers_itself(fill(LOAD_I64@, k), f);
        lemma_one_of_six(k, f);
        lemma_typed_in_module(p, k, f);
    }
    assert(has_pool_store(module_text(p), "tvm_store_u8_p"@, p.n_pools, k, 1)) by {
        let f = pool_store(pool_name("tvm_store_u8_p"@, k), "i32.store8"@, "i32"@, k);
        lemma_pool_store(pool_name("tvm_store_u8_p"@, k), "i32.store8"@, "i32"@, p.n_pools, k, 1);
        lemma_text_store_u8(k);
        lemma_offers_itself(fill(STORE_U8@, k), f);
        lemma_one_of_six(k, f);
        lemma_typed_in_module(p, k, f);
    }
    assert(has_pool_store(module_text(p), "tvm_store_u32_p"@, p.n_pools, k, 4)) by {
        let f = pool_store(pool_name("tvm_store_u32_p"@, k), "i32.store"@, "i32"@, k);
        lemma_pool_store(pool_name("tvm_store_u32_p"@, k), "i32.store"@, "i32"@, p.n_pools, k, 4);
        lemma_text_store_u32(k);
        lemma_offers_itself(fill(STORE_U32@, k), f);
        lemma_one_of_six(k, f);
        lemma_typed_in_module(p, k, f);
    }
    assert(has_pool_store(module_text(p), "tvm_store_i64_p"@, p.n_pools, k, 8)) by {
        let f = pool_store(pool_name("tvm_store_i64_p"@, k), "i64.store"@, "i64"@, k);
        lemma_pool_store(pool_name("tvm_store_i64_p"@, k), "i64.store"@, "i64"@, p.n_pools, k, 8);
        lemma_text_store_i64(k);
        lemma_offers_itself(fill(STORE_I64@, k), f);
        lemma_one_of_six(k, f);
        lemma_typed_in_module(p, k, f);
    }
}

// ---------------------------------------------------------------------------
// Memories and the user body
// ---------------------------------------------------------------------------

/// `part` stands somewhere in `whole`.
pub open spec fn stands_in(part: Seq<char>, whole: Seq<char>) -> bool {
    exists|a: Seq<char>, b: Seq<char>| whole == #[trigger] (a + part + b)
}

proof fn lemma_stands_left(part: Seq<char>, a: Seq<char>, b: Seq<char>)
    requires
        stands_in(part, a),
    ensures
        stands_in(part, a + b),
{
    let (x, y) = choose|x: Seq<char>, y: Seq<char>| a == #[trigger] (x + part + y);
    assert(a + b =~= x + part + (y + b));
}

/// The declaration of memory `k`.
pub open spec fn memory_line(k: nat, initial: u32, max: u32) -> Seq<char> {
    "  (memory (export \"mem"@ + decimal(k) + "\") "@ + decimal(initial as nat) + " "@ + decimal(
        max as nat,
    ) + ")\n"@
}

proof fn lemma_memory_line(out: Seq<char>, initial: u32, max: u32, n: int, k: int)
    requires
        0 <= k < n,
    ensures
        stands_in(memory_line(k as nat, initial, max), with_memories(out, initial, max, n)),
    decreases n,
{
    let line = memory_line((n - 1) as nat, initial, max);
    let before = with_memories(out, initial, max, n - 1);
    assert(with_memories(out, initial, max, n) =~= before + line);
    if k < n - 1 {
        lemma_memory_line(out, initial, max, n - 1, k);
        lemma_stands_left(memory_line(k as nat, initial, max), before, line);
    } else {
        assert(before + line =~= before + line + Seq::<char>::empty());
    }
}

/// Every generated module declares one memory for each pool, exported by its number, with
/// the pages that were asked for.
pub proof fn law_module_declares_memories(p: ModuleParams, spilling: bool, k: nat)
    requires
        k < p.n_pools,
    ensures
        stands_in(
            memory_line(k, p.initial_pages_per_pool, p.max_pages_per_pool),
            if spilling {
                spill_module_text(p)
            } else {
                module_text(p)
            },
        ),
{
    let n = p.n_pools;
    let head = if spilling {
        "(module\n"@ + WASI_IMPORTS@
    } else {
        "(module\n"@
    };
    let mems = with_memories(head, p.initial_pages_per_pool, p.max_pages_per_pool, n as int);
    let line = memory_line(k, p.initial_pages_per_pool, p.max_pages_per_pool);
    lemma_memory_line(head, p.initial_pages_per_pool, p.max_pages_per_pool, n as int, k as int);
    lemma_stands_left(line, mems, "\n"@);
    lemma_through_dispatchers(line, mems + "\n"@, n);
    let a = with_dispatchers(mems + "\n"@, n);
    if spilling {
        lemma_stands_left(line, a, WASI_SPILL_HELPERS@);
        lemma_stands_in_body(line, a + WASI_SPILL_HELPERS@, p.user_body@);
    } else {
        let b = a + typed_helpers_text(n as int);
        let c = b + per_pool(INTRA_POOL_COPY@, n as int);
        let d = c + indirect_text(n);
        let e = d + per_pool(SIMD_SUM_U8@, n as int);
        lemma_stands_left(line, a, typed_helpers_text(n as int));
        lemma_stands_left(line, b, per_pool(INTRA_POOL_COPY@, n as int));
        lemma_stands_left(line, c, indirect_text(n));
        lemma_stands_left(line, d, per_pool(SIMD_SUM_U8@, n as int));
        lemma_stands_left(line, e, reducers_text(n as int));
        lemma_stands_in_body(line, e + reducers_text(n as int), p.user_body@);
    }
}

proof fn lemma_stands_in_body(part: Seq<char>, a: Seq<char>, body: Seq<char>)
    requires
        stands_in(part, a),
    ensures
        stands_in(part, with_body(a, body)),
{
    let b = a + "\n  ;; --- user body begins ---\n"@;
    let c = b + body;
    let d = c + "\n  ;; --- user body ends ---\n"@;
    lemma_stands_left(part, a, "\n  ;; --- user body begins ---\n"@);
    lemma_stands_left(part, b, body);
    lemma_stands_left(part, c, "\n  ;; --- user body ends ---\n"@);
    lemma_stands_left(part, d, ")\n"@);
}

proof fn lemma_through_dispatchers(part: Seq<char>, out: Seq<char>, n: u32)
    requires
        stands_in(part, out),
    ensures
        stands_in(part, with_dispatchers(out, n)),
{
    lemma_starts_with(out, n);
    let tail = choose|tail: Seq<char>| with_dispatchers(out, n) == #[trigger] (out + tail);
    lemma_stands_left(part, out, tail);
}

/// The dispatchers are put behind what is there.
proof fn lemma_starts_with(out: Seq<char>, n: u32)
    ensures
        exists|tail: Seq<char>| with_dispatchers(out, n) == #[trigger] (out + tail),
{
    let all = with_dispatchers(out, n);
    assert(all.len() >= out.len());
    assert(forall|i: int| 0 <= i < out.len() ==> all[i] == out[i]);
    let tail = all.subrange(out.len() as int, all.len() as int);
    assert(all =~= out + tail);
}

/// Every generated module ends with the user body as it was given, and the end of the
/// module.
pub proof fn law_module_holds_user_body(p: ModuleParams, spilling: bool)
    ensures
        exists|a: Seq<char>|
            (if spilling {
                spill_module_text(p)
            } else {
                module_text(p)
            }) == #[trigger] (a + p.user_body@ + ("\n  ;; --- user body ends ---\n"@ + ")\n"@)),
{
    let text = if spilling {
        spill_module_text(p)
    } else {
        module_text(p)
    };
    let n = p.n_pools;
    let head = if spilling {
        "(module\n"@ + WASI_IMPORTS@
    } else {
        "(module\n"@
    };
    let out = with_memories(head, p.initial_pages_per_pool, p.max_pages_per_pool, n as int)
        + "\n"@;
    let d = with_dispatchers(out, n);
    let front = if spilling {
        d + WASI_SPILL_HELPERS@
    } else {
        d + typed_helpers_text(n as int) + per_pool(INTRA_POOL_COPY@, n as int) + indirect_text(n)
            + per_pool(SIMD_SUM_U8@, n as int) + reducers_text(n as int)
    };
    let a = front + "\n  ;; --- user body begins ---\n"@;
    assert(text == with_body(front, p.user_body@));
    assert(text =~= a + p.user_body@ + ("\n  ;; --- user body ends ---\n"@ + ")\n"@));
}

} // verus!
