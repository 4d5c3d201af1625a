//! What the copies of a generated module do: from a pool into the default memory, from
//! there into a pool, which grows as needed, and inside one pool.
use vstd::prelude::*;
use crate::text::decimal;
use super::dispatch::{copy_from_dispatcher, copy_helpers_text, copy_leaf, copy_param, copy_text, copy_to_dispatcher, dispatch_tree, indirect_text, law_dispatch_picks_pool, load_dispatcher, per_pool, picked, reducers_text, store_dispatcher, typed_helpers_text, Tree, COPY_FROM_HEAD, COPY_TO_HEAD, GROW_POOL};
use super::kernels::{COPY_FROM_DEFAULT, COPY_TO_DEFAULT, INTRA_POOL_COPY, SIMD_SUM_U8};
use super::module::{module_text, with_dispatchers, with_memories, ModuleParams};
use super::shell_laws::{args3, declared_word, lemma_check_done, lemma_declared, lemma_dispatchers_in_module, lemma_frame_words, lemma_offers_in_body, lemma_offers_itself, lemma_offers_left, lemma_offers_right, lemma_tree_words, pool_check, shell_text};
use super::meaning::{
    bound, called, computed, declared_text, done, expr_text, func_text, group_text, laid_over,
    lemma_add_nothing, lemma_blank_literals, lemma_nothing_add, lemma_squeezed_add,
    lemma_indented_squeezed, offers, squeezed, stmt_text, truth, value_of, Expr, Func, Stmt,
    World,
};
use super::wat::{fill, filled};

verus! {

// ---------------------------------------------------------------------------
// Templates
// ---------------------------------------------------------------------------

pub broadcast proof fn lemma_fill_add(a: Seq<char>, b: Seq<char>, k: nat)
    ensures
        #[trigger] fill(a + b, k) == fill(a, k) + fill(b, k),
{
    lemma_filled_add(a, b, k, b.len() as int);
    assert(filled(b, k, b.len() as int) == fill(b, k));
}

proof fn lemma_filled_add(a: Seq<char>, b: Seq<char>, k: nat, n: int)
    requires
        0 <= n <= b.len(),
    ensures
        filled(a + b, k, a.len() + n) == fill(a, k) + filled(b, k, n),
    decreases n,
{
    if n == 0 {
        lemma_filled_prefix(a, b, k, a.len() as int);
        assert(fill(a, k) + Seq::<char>::empty() =~= fill(a, k));
    } else {
        lemma_filled_add(a, b, k, n - 1);
        assert((a + b)[a.len() + n - 1] == b[n - 1]);
        let x = fill(a, k);
        let y = filled(b, k, n - 1);
        assert((x + y) + decimal(k) =~= x + (y + decimal(k)));
        assert((x + y).push(b[n - 1]) =~= x + y.push(b[n - 1]));
    }
}

proof fn lemma_filled_prefix(a: Seq<char>, b: Seq<char>, k: nat, n: int)
    requires
        0 <= n <= a.len(),
    ensures
        filled(a + b, k, n) == filled(a, k, n),
    decreases n,
{
    if n > 0 {
        lemma_filled_prefix(a, b, k, n - 1);
        assert((a + b)[n - 1] == a[n - 1]);
    }
}

/// A text without a place for a number stays as it is.
pub(crate) proof fn lemma_fill_plain(s: Seq<char>, k: nat)
    requires
        forall|i: int| 0 <= i < s.len() ==> #[trigger] s[i] != '@',
    ensures
        fill(s, k) == s,
{
    lemma_filled_plain(s, k, s.len() as int);
    assert(s.subrange(0, s.len() as int) =~= s);
}

proof fn lemma_filled_plain(s: Seq<char>, k: nat, n: int)
    requires
        0 <= n <= s.len(),
        forall|i: int| 0 <= i < s.len() ==> #[trigger] s[i] != '@',
    ensures
        filled(s, k, n) == s.subrange(0, n),
    decreases n,
{
    if n > 0 {
        lemma_filled_plain(s, k, n - 1);
        assert(s.subrange(0, n - 1).push(s[n - 1]) =~= s.subrange(0, n));
    } else {
        assert(filled(s, k, 0) =~= s.subrange(0, 0));
    }
}

pub(crate) proof fn lemma_fill_place(k: nat)
    ensures
        fill("@"@, k) == decimal(k),
{
    reveal_strlit("@");
    reveal_with_fuel(filled, 3);
    assert(Seq::<char>::empty() + decimal(k) =~= decimal(k));
}

proof fn lemma_fill_copy_to_default(k: nat)
    ensures
        fill(COPY_TO_DEFAULT@, k) == "  (func $tvm_copy_to_default_p"@ + decimal(k) + " (export \"tvm_copy_to_default_p"@
                + decimal(k)
                + "\")\n        (param $src_off i32) (param $dst_off i32) (param $len i32)\n    (memory.copy 0 "@
                + decimal(k) + " (local.get $dst_off) (local.get $src_off) (local.get $len)))\n"@,
{
    broadcast use lemma_fill_add;

    lemma_fill_place(k);
    reveal_strlit("  (func $tvm_copy_to_default_p");
    reveal_strlit(" (export \"tvm_copy_to_default_p");
    reveal_strlit("\")\n        (param $src_off i32) (param $dst_off i32) (param $len i32)\n    (memory.copy 0 ");
    reveal_strlit(" (local.get $dst_off) (local.get $src_off) (local.get $len)))\n");
    reveal_strlit("@");
    reveal_strlit(r#"  (func $tvm_copy_to_default_p@ (export "tvm_copy_to_default_p@")
        (param $src_off i32) (param $dst_off i32) (param $len i32)
    (memory.copy 0 @ (local.get $dst_off) (local.get $src_off) (local.get $len)))
"#);
    assert(COPY_TO_DEFAULT@ =~= "  (func $tvm_copy_to_default_p"@ + "@"@ + " (export \"tvm_copy_to_default_p"@ + "@"@
            + "\")\n        (param $src_off i32) (param $dst_off i32) (param $len i32)\n    (memory.copy 0 "@
            + "@"@ + " (local.get $dst_off) (local.get $src_off) (local.get $len)))\n"@);
    lemma_fill_plain("  (func $tvm_copy_to_default_p"@, k);
    lemma_fill_plain(" (export \"tvm_copy_to_default_p"@, k);
    lemma_fill_plain("\")\n        (param $src_off i32) (param $dst_off i32) (param $len i32)\n    (memory.copy 0 "@, k);
    lemma_fill_plain(" (local.get $dst_off) (local.get $src_off) (local.get $len)))\n"@, k);
}

proof fn lemma_fill_intra_pool_copy(k: nat)
    ensures
        fill(INTRA_POOL_COPY@, k) == "  (func $tvm_intra_pool_copy_p"@ + decimal(k) + " (export \"tvm_intra_pool_copy_p"@
                + decimal(k)
                + "\")\n        (param $dst_off i32) (param $src_off i32) (param $len i32)\n    (memory.copy "@
                + decimal(k) + " "@ + decimal(k)
                + " (local.get $dst_off) (local.get $src_off) (local.get $len)))\n"@,
{
    broadcast use lemma_fill_add;

    lemma_fill_place(k);
    reveal_strlit("  (func $tvm_intra_pool_copy_p");
    reveal_strlit(" (export \"tvm_intra_pool_copy_p");
    reveal_strlit("\")\n        (param $dst_off i32) (param $src_off i32) (param $len i32)\n    (memory.copy ");
    reveal_strlit(" ");
    reveal_strlit(" (local.get $dst_off) (local.get $src_off) (local.get $len)))\n");
    reveal_strlit("@");
    reveal_strlit(r#"  (func $tvm_intra_pool_copy_p@ (export "tvm_intra_pool_copy_p@")
        (param $dst_off i32) (param $src_off i32) (param $len i32)
    (memory.copy @ @ (local.get $dst_off) (local.get $src_off) (local.get $len)))
"#);
    assert(INTRA_POOL_COPY@ =~= "  (func $tvm_intra_pool_copy_p"@ + "@"@ + " (export \"tvm_intra_pool_copy_p"@ + "@"@
            + "\")\n        (param $dst_off i32) (param $src_off i32) (param $len i32)\n    (memory.copy "@
            + "@"@ + " "@ + "@"@
            + " (local.get $dst_off) (local.get $src_off) (local.get $len)))\n"@);
    lemma_fill_plain("  (func $tvm_intra_pool_copy_p"@, k);
    lemma_fill_plain(" (export \"tvm_intra_pool_copy_p"@, k);
    lemma_fill_plain("\")\n        (param $dst_off i32) (param $src_off i32) (param $len i32)\n    (memory.copy "@, k);
    lemma_fill_plain(" "@, k);
    lemma_fill_plain(" (local.get $dst_off) (local.get $src_off) (local.get $len)))\n"@, k);
}

proof fn lemma_fill_copy_to_head(k: nat)
    ensures
        fill(COPY_TO_HEAD@, k) == "  (func $tvm_copy_to_default (export \"tvm_copy_to_default\")\n        (param $src_pool i32) (param $src_off i32) (param $dst_off i32) (param $len i32)\n    (if (i32.ge_u (local.get $src_pool) (i32.const "@
                + decimal(k) + ")) (then unreachable))\n"@,
{
    broadcast use lemma_fill_add;

    lemma_fill_place(k);
    reveal_strlit("  (func $tvm_copy_to_default (export \"tvm_copy_to_default\")\n        (param $src_pool i32) (param $src_off i32) (param $dst_off i32) (param $len i32)\n    (if (i32.ge_u (local.get $src_pool) (i32.const ");
    reveal_strlit(")) (then unreachable))\n");
    reveal_strlit("@");
    reveal_strlit(r#"  (func $tvm_copy_to_default (export "tvm_copy_to_default")
        (param $src_pool i32) (param $src_off i32) (param $dst_off i32) (param $len i32)
    (if (i32.ge_u (local.get $src_pool) (i32.const @)) (then unreachable))
"#);
    assert(COPY_TO_HEAD@ =~= "  (func $tvm_copy_to_default (export \"tvm_copy_to_default\")\n        (param $src_pool i32) (param $src_off i32) (param $dst_off i32) (param $len i32)\n    (if (i32.ge_u (local.get $src_pool) (i32.const "@
            + "@"@ + ")) (then unreachable))\n"@);
    lemma_fill_plain("  (func $tvm_copy_to_default (export \"tvm_copy_to_default\")\n        (param $src_pool i32) (param $src_off i32) (param $dst_off i32) (param $len i32)\n    (if (i32.ge_u (local.get $src_pool) (i32.const "@, k);
    lemma_fill_plain(")) (then unreachable))\n"@, k);
}

proof fn lemma_fill_copy_from_head(k: nat)
    ensures
        fill(COPY_FROM_HEAD@, k) == "  (func $tvm_copy_from_default (export \"tvm_copy_from_default\")\n        (param $dst_pool i32) (param $dst_off i32) (param $src_off i32) (param $len i32)\n        (local $end i32)\n    (if (i32.ge_u (local.get $dst_pool) (i32.const "@
                + decimal(k)
                + ")) (then unreachable))\n    (local.set $end (i32.add (local.get $dst_off) (local.get $len)))\n(if (i32.lt_u (local.get $end) (local.get $dst_off)) (then unreachable))\n"@,
{
    broadcast use lemma_fill_add;

    lemma_fill_place(k);
    reveal_strlit("  (func $tvm_copy_from_default (export \"tvm_copy_from_default\")\n        (param $dst_pool i32) (param $dst_off i32) (param $src_off i32) (param $len i32)\n        (local $end i32)\n    (if (i32.ge_u (local.get $dst_pool) (i32.const ");
    reveal_strlit(")) (then unreachable))\n    (local.set $end (i32.add (local.get $dst_off) (local.get $len)))\n(if (i32.lt_u (local.get $end) (local.get $dst_off)) (then unreachable))\n");
    reveal_strlit("@");
    reveal_strlit(r#"  (func $tvm_copy_from_default (export "tvm_copy_from_default")
        (param $dst_pool i32) (param $dst_off i32) (param $src_off i32) (param $len i32)
        (local $end i32)
    (if (i32.ge_u (local.get $dst_pool) (i32.const @)) (then unreachable))
    (local.set $end (i32.add (local.get $dst_off) (local.get $len)))
(if (i32.lt_u (local.get $end) (local.get $dst_off)) (then unreachable))
"#);
    assert(COPY_FROM_HEAD@ =~= "  (func $tvm_copy_from_default (export \"tvm_copy_from_default\")\n        (param $dst_pool i32) (param $dst_off i32) (param $src_off i32) (param $len i32)\n        (local $end i32)\n    (if (i32.ge_u (local.get $dst_pool) (i32.const "@
            + "@"@
            + ")) (then unreachable))\n    (local.set $end (i32.add (local.get $dst_off) (local.get $len)))\n(if (i32.lt_u (local.get $end) (local.get $dst_off)) (then unreachable))\n"@);
    lemma_fill_plain("  (func $tvm_copy_from_default (export \"tvm_copy_from_default\")\n        (param $dst_pool i32) (param $dst_off i32) (param $src_off i32) (param $len i32)\n        (local $end i32)\n    (if (i32.ge_u (local.get $dst_pool) (i32.const "@, k);
    lemma_fill_plain(")) (then unreachable))\n    (local.set $end (i32.add (local.get $dst_off) (local.get $len)))\n(if (i32.lt_u (local.get $end) (local.get $dst_off)) (then unreachable))\n"@, k);
}

proof fn lemma_fill_grow_pool(k: nat)
    ensures
        fill(GROW_POOL@, k) == "(if (i32.gt_u\n      (i32.add (i32.shr_u (local.get $end) (i32.const 16)) (i32.ne (i32.and (local.get $end) (i32.const 65535)) (i32.const 0)))\n      (memory.size "@
                + decimal(k) + "))\n  (then\n    (drop\n      (memory.grow "@ + decimal(k)
                + "\n        (i32.sub\n          (i32.add (i32.shr_u (local.get $end) (i32.const 16)) (i32.ne (i32.and (local.get $end) (i32.const 65535)) (i32.const 0)))\n          (memory.size "@
                + decimal(k) + "))))))\n"@,
{
    broadcast use lemma_fill_add;

    lemma_fill_place(k);
    reveal_strlit("(if (i32.gt_u\n      (i32.add (i32.shr_u (local.get $end) (i32.const 16)) (i32.ne (i32.and (local.get $end) (i32.const 65535)) (i32.const 0)))\n      (memory.size ");
    reveal_strlit("))\n  (then\n    (drop\n      (memory.grow ");
    reveal_strlit("\n        (i32.sub\n          (i32.add (i32.shr_u (local.get $end) (i32.const 16)) (i32.ne (i32.and (local.get $end) (i32.const 65535)) (i32.const 0)))\n          (memory.size ");
    reveal_strlit("))))))\n");
    reveal_strlit("@");
    reveal_strlit(r#"(if (i32.gt_u
      (i32.add (i32.shr_u (local.get $end) (i32.const 16)) (i32.ne (i32.and (local.get $end) (i32.const 65535)) (i32.const 0)))
      (memory.size @))
  (then
    (drop
      (memory.grow @
        (i32.sub
          (i32.add (i32.shr_u (local.get $end) (i32.const 16)) (i32.ne (i32.and (local.get $end) (i32.const 65535)) (i32.const 0)))
          (memory.size @))))))
"#);
    assert(GROW_POOL@ =~= "(if (i32.gt_u\n      (i32.add (i32.shr_u (local.get $end) (i32.const 16)) (i32.ne (i32.and (local.get $end) (i32.const 65535)) (i32.const 0)))\n      (memory.size "@
            + "@"@ + "))\n  (then\n    (drop\n      (memory.grow "@ + "@"@
            + "\n        (i32.sub\n          (i32.add (i32.shr_u (local.get $end) (i32.const 16)) (i32.ne (i32.and (local.get $end) (i32.const 65535)) (i32.const 0)))\n          (memory.size "@
            + "@"@ + "))))))\n"@);
    lemma_fill_plain("(if (i32.gt_u\n      (i32.add (i32.shr_u (local.get $end) (i32.const 16)) (i32.ne (i32.and (local.get $end) (i32.const 65535)) (i32.const 0)))\n      (memory.size "@, k);
    lemma_fill_plain("))\n  (then\n    (drop\n      (memory.grow "@, k);
    lemma_fill_plain("\n        (i32.sub\n          (i32.add (i32.shr_u (local.get $end) (i32.const 16)) (i32.ne (i32.and (local.get $end) (i32.const 65535)) (i32.const 0)))\n          (memory.size "@, k);
    lemma_fill_plain("))))))\n"@, k);
}

proof fn lemma_fill_copy_from_default(k: nat)
    ensures
        fill(COPY_FROM_DEFAULT@, k) == "  (func $tvm_copy_from_default_p"@ + decimal(k)
                + " (export \"tvm_copy_from_default_p"@ + decimal(k)
                + "\")\n        (param $dst_off i32) (param $src_off i32) (param $len i32)\n        (local $end i32)\n    (local.set $end (i32.add (local.get $dst_off) (local.get $len)))\n    (if (i32.lt_u (local.get $end) (local.get $dst_off)) (then unreachable))\n    (if (i32.gt_u\n          (i32.add (i32.shr_u (local.get $end) (i32.const 16)) (i32.ne (i32.and (local.get $end) (i32.const 65535)) (i32.const 0)))\n          (memory.size "@
                + decimal(k) + "))\n      (then\n        (drop\n          (memory.grow "@
                + decimal(k)
                + "\n            (i32.sub\n              (i32.add (i32.shr_u (local.get $end) (i32.const 16)) (i32.ne (i32.and (local.get $end) (i32.const 65535)) (i32.const 0)))\n              (memory.size "@
                + decimal(k) + "))))))\n    (memory.copy "@ + decimal(k)
                + " 0 (local.get $dst_off) (local.get $src_off) (local.get $len)))\n"@,
{
    broadcast use lemma_fill_add;

    lemma_fill_place(k);
    reveal_strlit("  (func $tvm_copy_from_default_p");
    reveal_strlit(" (export \"tvm_copy_from_default_p");
    reveal_strlit("\")\n        (param $dst_off i32) (param $src_off i32) (param $len i32)\n        (local $end i32)\n    (local.set $end (i32.add (local.get $dst_off) (local.get $len)))\n    (if (i32.lt_u (local.get $end) (local.get $dst_off)) (then unreachable))\n    (if (i32.gt_u\n          (i32.add (i32.shr_u (local.get $end) (i32.const 16)) (i32.ne (i32.and (local.get $end) (i32.const 65535)) (i32.const 0)))\n          (memory.size ");
    reveal_strlit("))\n      (then\n        (drop\n          (memory.grow ");
    reveal_strlit("\n            (i32.sub\n              (i32.add (i32.shr_u (local.get $end) (i32.const 16)) (i32.ne (i32.and (local.get $end) (i32.const 65535)) (i32.const 0)))\n              (memory.size ");
    reveal_strlit("))))))\n    (memory.copy ");
    reveal_strlit(" 0 (local.get $dst_off) (local.get $src_off) (local.get $len)))\n");
    reveal_strlit("@");
    reveal_strlit(r#"  (func $tvm_copy_from_default_p@ (export "tvm_copy_from_default_p@")
        (param $dst_off i32) (param $src_off i32) (param $len i32)
        (local $end i32)
    (local.set $end (i32.add (local.get $dst_off) (local.get $len)))
    (if (i32.lt_u (local.get $end) (local.get $dst_off)) (then unreachable))
    (if (i32.gt_u
          (i32.add (i32.shr_u (local.get $end) (i32.const 16)) (i32.ne (i32.and (local.get $end) (i32.const 65535)) (i32.const 0)))
          (memory.size @))
      (then
        (drop
          (memory.grow @
            (i32.sub
              (i32.add (i32.shr_u (local.get $end) (i32.const 16)) (i32.ne (i32.and (local.get $end) (i32.const 65535)) (i32.const 0)))
              (memory.size @))))))
    (memory.copy @ 0 (local.get $dst_off) (local.get $src_off) (local.get $len)))
"#);
    assert(COPY_FROM_DEFAULT@ =~= "  (func $tvm_copy_from_default_p"@ + "@"@ + " (export \"tvm_copy_from_default_p"@ + "@"@
            + "\")\n        (param $dst_off i32) (param $src_off i32) (param $len i32)\n        (local $end i32)\n    (local.set $end (i32.add (local.get $dst_off) (local.get $len)))\n    (if (i32.lt_u (local.get $end) (local.get $dst_off)) (then unreachable))\n    (if (i32.gt_u\n          (i32.add (i32.shr_u (local.get $end) (i32.const 16)) (i32.ne (i32.and (local.get $end) (i32.const 65535)) (i32.const 0)))\n          (memory.size "@
            + "@"@ + "))\n      (then\n        (drop\n          (memory.grow "@ + "@"@
            + "\n            (i32.sub\n              (i32.add (i32.shr_u (local.get $end) (i32.const 16)) (i32.ne (i32.and (local.get $end) (i32.const 65535)) (i32.const 0)))\n              (memory.size "@
            + "@"@ + "))))))\n    (memory.copy "@ + "@"@
            + " 0 (local.get $dst_off) (local.get $src_off) (local.get $len)))\n"@);
    lemma_fill_plain("  (func $tvm_copy_from_default_p"@, k);
    lemma_fill_plain(" (export \"tvm_copy_from_default_p"@, k);
    lemma_fill_plain("\")\n        (param $dst_off i32) (param $src_off i32) (param $len i32)\n        (local $end i32)\n    (local.set $end (i32.add (local.get $dst_off) (local.get $len)))\n    (if (i32.lt_u (local.get $end) (local.get $dst_off)) (then unreachable))\n    (if (i32.gt_u\n          (i32.add (i32.shr_u (local.get $end) (i32.const 16)) (i32.ne (i32.and (local.get $end) (i32.const 65535)) (i32.const 0)))\n          (memory.size "@, k);
    lemma_fill_plain("))\n      (then\n        (drop\n          (memory.grow "@, k);
    lemma_fill_plain("\n            (i32.sub\n              (i32.add (i32.shr_u (local.get $end) (i32.const 16)) (i32.ne (i32.and (local.get $end) (i32.const 65535)) (i32.const 0)))\n              (memory.size "@, k);
    lemma_fill_plain("))))))\n    (memory.copy "@, k);
    lemma_fill_plain(" 0 (local.get $dst_off) (local.get $src_off) (local.get $len)))\n"@, k);
}

// ---------------------------------------------------------------------------
// Words
// ---------------------------------------------------------------------------

/// Declarations of parameters, up to white space.
proof fn lemma_params()
    ensures
        squeezed(" (param $src_pool i32)"@) == declared_word("param"@, "src_pool"@, "i32"@),
        squeezed(" (param $dst_pool i32)"@) == declared_word("param"@, "dst_pool"@, "i32"@),
        squeezed(" (param $src_off i32)"@) == declared_word("param"@, "src_off"@, "i32"@),
        squeezed(" (param $dst_off i32)"@) == declared_word("param"@, "dst_off"@, "i32"@),
        squeezed(" (param $len i32)"@) == declared_word("param"@, "len"@, "i32"@),
{
    broadcast use {lemma_squeezed_add, lemma_add_nothing, lemma_nothing_add};

    lemma_blank_literals();
    reveal_strlit(" ");
    reveal_strlit("(");
    reveal_strlit("param");
    reveal_strlit(" $");
    reveal_strlit("i32");
    reveal_strlit(")");
    reveal_strlit("src_pool");
    reveal_strlit(" (param $src_pool i32)");
    reveal_strlit("dst_pool");
    reveal_strlit(" (param $dst_pool i32)");
    reveal_strlit("src_off");
    reveal_strlit(" (param $src_off i32)");
    reveal_strlit("dst_off");
    reveal_strlit(" (param $dst_off i32)");
    reveal_strlit("len");
    reveal_strlit(" (param $len i32)");
    assert(" (param $src_pool i32)"@ =~= " "@ + "("@ + "param"@ + " $"@ + "src_pool"@ + " "@ + "i32"@ + ")"@);
    assert(" (param $dst_pool i32)"@ =~= " "@ + "("@ + "param"@ + " $"@ + "dst_pool"@ + " "@ + "i32"@ + ")"@);
    assert(" (param $src_off i32)"@ =~= " "@ + "("@ + "param"@ + " $"@ + "src_off"@ + " "@ + "i32"@ + ")"@);
    assert(" (param $dst_off i32)"@ =~= " "@ + "("@ + "param"@ + " $"@ + "dst_off"@ + " "@ + "i32"@ + ")"@);
    assert(" (param $len i32)"@ =~= " "@ + "("@ + "param"@ + " $"@ + "len"@ + " "@ + "i32"@ + ")"@);
}

/// The words of the copies.
proof fn lemma_copy_words()
    ensures
        squeezed("(memory.copy 0 "@) == squeezed("(memory.copy "@) + squeezed("0"@),
        squeezed(" (local.get $dst_off) (local.get $src_off) (local.get $len))\n"@) == squeezed("(local.get $"@) + squeezed("dst_off"@) + squeezed(")"@)
                + squeezed("(local.get $"@) + squeezed("src_off"@) + squeezed(")"@)
                + squeezed("(local.get $"@) + squeezed("len"@) + squeezed(")"@) + squeezed(")"@),
        squeezed(" 0 (local.get $dst_off) (local.get $src_off) (local.get $len))\n"@) == squeezed("0"@)
                + squeezed(" (local.get $dst_off) (local.get $src_off) (local.get $len))\n"@),
        squeezed("(if (i32.lt_u (local.get $"@) == squeezed("(if "@) + squeezed("("@) + squeezed("i32.lt_u"@)
                + squeezed("(local.get $"@),
        squeezed(") (i32.const "@) == squeezed(")"@) + squeezed("(i32.const "@),
{
    broadcast use {lemma_squeezed_add, lemma_add_nothing, lemma_nothing_add};

    lemma_blank_literals();
    reveal_strlit("(memory.copy 0 ");
    reveal_strlit("(memory.copy ");
    reveal_strlit("0");
    reveal_strlit(" ");
    reveal_strlit(" (local.get $dst_off) (local.get $src_off) (local.get $len))\n");
    reveal_strlit("(local.get $");
    reveal_strlit("dst_off");
    reveal_strlit(")");
    reveal_strlit("src_off");
    reveal_strlit("len");
    reveal_strlit("\n");
    reveal_strlit(" 0 (local.get $dst_off) (local.get $src_off) (local.get $len))\n");
    reveal_strlit("(if (i32.lt_u (local.get $");
    reveal_strlit("(if ");
    reveal_strlit("(");
    reveal_strlit("i32.lt_u");
    reveal_strlit(") (i32.const ");
    reveal_strlit("(i32.const ");
    assert("(memory.copy 0 "@ =~= "(memory.copy "@ + "0"@ + " "@);
    assert(" (local.get $dst_off) (local.get $src_off) (local.get $len))\n"@ =~= " "@ + "(local.get $"@ + "dst_off"@ + ")"@ + " "@ + "(local.get $"@ + "src_off"@ + ")"@
            + " "@ + "(local.get $"@ + "len"@ + ")"@ + ")"@ + "\n"@);
    assert(" 0 (local.get $dst_off) (local.get $src_off) (local.get $len))\n"@ =~= " "@ + "0"@ + " (local.get $dst_off) (local.get $src_off) (local.get $len))\n"@);
    assert("(if (i32.lt_u (local.get $"@ =~= "(if "@ + "("@ + "i32.lt_u"@ + " "@ + "(local.get $"@);
    assert(") (i32.const "@ =~= ")"@ + " "@ + "(i32.const "@);
}

/// The bytes from `src_off` of one memory go to `dst_off` of another.
spec fn plain_copy(d: nat, s: nat) -> Stmt {
    Stmt::Copy(d, s, Expr::Get("dst_off"@), Expr::Get("src_off"@), Expr::Get("len"@))
}

/// The text of a copy, up to white space.
proof fn lemma_plain_copy_text(d: nat, s: nat)
    ensures
        squeezed(stmt_text(plain_copy(d, s))) == squeezed("(memory.copy "@) + squeezed(decimal(d))
            + squeezed(decimal(s)) + squeezed(
            " (local.get $dst_off) (local.get $src_off) (local.get $len))\n"@,
        ),
{
    broadcast use {lemma_squeezed_add, lemma_add_nothing, lemma_nothing_add};

    lemma_blank_literals();
    lemma_copy_words();
    let a = squeezed("(local.get $"@) + squeezed("dst_off"@) + squeezed(")"@);
    let b = squeezed("(local.get $"@) + squeezed("src_off"@) + squeezed(")"@);
    let c = squeezed("(local.get $"@) + squeezed("len"@) + squeezed(")"@);
    assert(squeezed(expr_text(Expr::Get("dst_off"@))) == a);
    assert(squeezed(expr_text(Expr::Get("src_off"@))) == b);
    assert(squeezed(expr_text(Expr::Get("len"@))) == c);
    let h = squeezed("(memory.copy "@) + squeezed(decimal(d)) + squeezed(decimal(s));
    assert(squeezed(stmt_text(plain_copy(d, s))) == h + a + b + c + squeezed(")"@));
    let l = squeezed("(local.get $"@) + squeezed("dst_off"@) + squeezed(")"@) + squeezed(
        "(local.get $"@,
    ) + squeezed("src_off"@) + squeezed(")"@) + squeezed("(local.get $"@) + squeezed("len"@)
        + squeezed(")"@) + squeezed(")"@);
    assert(a + b + c + squeezed(")"@) =~= l);
    assert(h + a + b + c + squeezed(")"@) =~= h + (a + b + c + squeezed(")"@)));
}

proof fn lemma_zero_text()
    ensures
        decimal(0) == "0"@,
{
    reveal_strlit("0");
    assert(decimal(0) =~= "0"@);
}

/// The end of a copy that is the last of its function.
proof fn lemma_end_words()
    ensures
        squeezed(" (local.get $dst_off) (local.get $src_off) (local.get $len)))\n"@) == squeezed("(local.get $"@) + squeezed("dst_off"@) + squeezed(")"@)
                + squeezed("(local.get $"@) + squeezed("src_off"@) + squeezed(")"@)
                + squeezed("(local.get $"@) + squeezed("len"@) + squeezed(")"@) + squeezed(")"@)
                + squeezed(")"@),
{
    broadcast use {lemma_squeezed_add, lemma_add_nothing, lemma_nothing_add};

    lemma_blank_literals();
    reveal_strlit(" (local.get $dst_off) (local.get $src_off) (local.get $len)))\n");
    reveal_strlit(" ");
    reveal_strlit("(local.get $");
    reveal_strlit("dst_off");
    reveal_strlit(")");
    reveal_strlit("src_off");
    reveal_strlit("len");
    reveal_strlit("\n");
    assert(" (local.get $dst_off) (local.get $src_off) (local.get $len)))\n"@ =~= " "@ + "(local.get $"@ + "dst_off"@ + ")"@ + " "@ + "(local.get $"@ + "src_off"@ + ")"@
            + " "@ + "(local.get $"@ + "len"@ + ")"@ + ")"@ + ")"@ + "\n"@);
}

/// How the copy into the default memory names itself.
proof fn lemma_to_default_names()
    ensures
        squeezed("  (func $tvm_copy_to_default_p"@) == squeezed("(func $"@) + squeezed("tvm_copy_to_default_p"@),
        squeezed(" (export \"tvm_copy_to_default_p"@) == squeezed(" (export \""@) + squeezed("tvm_copy_to_default_p"@),
{
    broadcast use {lemma_squeezed_add, lemma_add_nothing, lemma_nothing_add};

    lemma_blank_literals();
    reveal_strlit("  (func $tvm_copy_to_default_p");
    reveal_strlit("  ");
    reveal_strlit("(func $");
    reveal_strlit("tvm_copy_to_default_p");
    reveal_strlit(" (export \"tvm_copy_to_default_p");
    reveal_strlit(" (export \"");
    assert("  (func $tvm_copy_to_default_p"@ =~= "  "@ + "(func $"@ + "tvm_copy_to_default_p"@);
    assert(" (export \"tvm_copy_to_default_p"@ =~= " (export \""@ + "tvm_copy_to_default_p"@);
}

/// How the copy into the default memory starts.
proof fn lemma_to_default_head()
    ensures
        squeezed("\")\n        (param $src_off i32) (param $dst_off i32) (param $len i32)\n    (memory.copy 0 "@) == squeezed("\")"@) + declared_word("param"@, "src_off"@, "i32"@)
                + declared_word("param"@, "dst_off"@, "i32"@)
                + declared_word("param"@, "len"@, "i32"@) + squeezed("(memory.copy 0 "@),
{
    broadcast use {lemma_squeezed_add, lemma_add_nothing, lemma_nothing_add};

    lemma_blank_literals();
    lemma_params();
    reveal_strlit("\")\n        (param $src_off i32) (param $dst_off i32) (param $len i32)\n    (memory.copy 0 ");
    reveal_strlit("\")");
    reveal_strlit("\n");
    reveal_strlit("  ");
    reveal_strlit(" ");
    reveal_strlit(" (param $src_off i32)");
    reveal_strlit(" (param $dst_off i32)");
    reveal_strlit(" (param $len i32)");
    reveal_strlit("(memory.copy 0 ");
    assert("\")\n        (param $src_off i32) (param $dst_off i32) (param $len i32)\n    (memory.copy 0 "@ =~= "\")"@ + "\n"@ + "  "@ + "  "@ + "  "@ + " "@ + " (param $src_off i32)"@
            + " (param $dst_off i32)"@ + " (param $len i32)"@ + "\n"@ + "  "@ + "  "@
            + "(memory.copy 0 "@);
}

/// How the copy inside a pool names itself.
proof fn lemma_intra_names()
    ensures
        squeezed("  (func $tvm_intra_pool_copy_p"@) == squeezed("(func $"@) + squeezed("tvm_intra_pool_copy_p"@),
        squeezed(" (export \"tvm_intra_pool_copy_p"@) == squeezed(" (export \""@) + squeezed("tvm_intra_pool_copy_p"@),
{
    broadcast use {lemma_squeezed_add, lemma_add_nothing, lemma_nothing_add};

    lemma_blank_literals();
    reveal_strlit("  (func $tvm_intra_pool_copy_p");
    reveal_strlit("  ");
    reveal_strlit("(func $");
    reveal_strlit("tvm_intra_pool_copy_p");
    reveal_strlit(" (export \"tvm_intra_pool_copy_p");
    reveal_strlit(" (export \"");
    assert("  (func $tvm_intra_pool_copy_p"@ =~= "  "@ + "(func $"@ + "tvm_intra_pool_copy_p"@);
    assert(" (export \"tvm_intra_pool_copy_p"@ =~= " (export \""@ + "tvm_intra_pool_copy_p"@);
}

/// How the copy inside a pool starts.
proof fn lemma_intra_head()
    ensures
        squeezed("\")\n        (param $dst_off i32) (param $src_off i32) (param $len i32)\n    (memory.copy "@) == squeezed("\")"@) + declared_word("param"@, "dst_off"@, "i32"@)
                + declared_word("param"@, "src_off"@, "i32"@)
                + declared_word("param"@, "len"@, "i32"@) + squeezed("(memory.copy "@),
{
    broadcast use {lemma_squeezed_add, lemma_add_nothing, lemma_nothing_add};

    lemma_blank_literals();
    lemma_params();
    reveal_strlit("\")\n        (param $dst_off i32) (param $src_off i32) (param $len i32)\n    (memory.copy ");
    reveal_strlit("\")");
    reveal_strlit("\n");
    reveal_strlit("  ");
    reveal_strlit(" ");
    reveal_strlit(" (param $dst_off i32)");
    reveal_strlit(" (param $src_off i32)");
    reveal_strlit(" (param $len i32)");
    reveal_strlit("(memory.copy ");
    assert("\")\n        (param $dst_off i32) (param $src_off i32) (param $len i32)\n    (memory.copy "@ =~= "\")"@ + "\n"@ + "  "@ + "  "@ + "  "@ + " "@ + " (param $dst_off i32)"@
            + " (param $src_off i32)"@ + " (param $len i32)"@ + "\n"@ + "  "@ + "  "@
            + "(memory.copy "@);
}

/// A function of three numbers that only runs its code.
spec fn helper_func(name: Seq<char>, a: Seq<char>, b: Seq<char>, code: Stmt) -> Func {
    Func {
        name,
        params: seq![(a, "i32"@), (b, "i32"@), ("len"@, "i32"@)],
        result: None,
        locals: Seq::empty(),
        code,
        value: None,
    }
}

proof fn lemma_helper_text(name: Seq<char>, a: Seq<char>, b: Seq<char>, code: Stmt)
    ensures
        squeezed(func_text(helper_func(name, a, b, code))) == squeezed("(func $"@) + squeezed(name)
            + squeezed(" (export \""@) + squeezed(name) + squeezed("\")"@) + (declared_word(
            "param"@,
            a,
            "i32"@,
        ) + declared_word("param"@, b, "i32"@) + declared_word("param"@, "len"@, "i32"@))
            + squeezed(stmt_text(code)) + squeezed(")"@),
{
    broadcast use {lemma_squeezed_add, lemma_add_nothing, lemma_nothing_add};

    let f = helper_func(name, a, b, code);
    lemma_declared("param"@, f.params, 3);
    lemma_declared("param"@, f.params, 2);
    lemma_declared("param"@, f.params, 1);
    assert(squeezed(declared_text("param"@, f.params, 0)) == Seq::<char>::empty());
    assert(squeezed(declared_text("local"@, f.locals, 0)) == Seq::<char>::empty());
}

/// The name of the helper of one pool.
pub open spec fn pool_name(stem: Seq<char>, k: nat) -> Seq<char> {
    stem + decimal(k)
}

proof fn lemma_to_default_text(k: nat)
    ensures
        squeezed(fill(COPY_TO_DEFAULT@, k)) == squeezed(
            func_text(
                helper_func(
                    pool_name("tvm_copy_to_default_p"@, k),
                    "src_off"@,
                    "dst_off"@,
                    plain_copy(0, k),
                ),
            ),
        ),
{
    broadcast use group_text;

    lemma_fill_copy_to_default(k);
    lemma_to_default_names();
    lemma_to_default_head();
    lemma_copy_words();
    lemma_end_words();
    lemma_zero_text();
    lemma_plain_copy_text(0, k);
    lemma_helper_text(
        pool_name("tvm_copy_to_default_p"@, k),
        "src_off"@,
        "dst_off"@,
        plain_copy(0, k),
    );
}

proof fn lemma_intra_text(k: nat)
    ensures
        squeezed(fill(INTRA_POOL_COPY@, k)) == squeezed(
            func_text(
                helper_func(
                    pool_name("tvm_intra_pool_copy_p"@, k),
                    "dst_off"@,
                    "src_off"@,
                    plain_copy(k, k),
                ),
            ),
        ),
{
    broadcast use group_text;

    lemma_fill_intra_pool_copy(k);
    lemma_intra_names();
    lemma_intra_head();
    lemma_blank_literals();
    lemma_copy_words();
    lemma_end_words();
    lemma_plain_copy_text(k, k);
    lemma_helper_text(
        pool_name("tvm_intra_pool_copy_p"@, k),
        "dst_off"@,
        "src_off"@,
        plain_copy(k, k),
    );
}

// ---------------------------------------------------------------------------
// Growing
// ---------------------------------------------------------------------------

/// `(local.get $end)` rounded up to whole pages.
spec fn pages_expr() -> Expr {
    Expr::Bin(
        "i32.add"@,
        Box::new(
            Expr::Bin("i32.shr_u"@, Box::new(Expr::Get("end"@)), Box::new(Expr::Num(16))),
        ),
        Box::new(
            Expr::Bin(
                "i32.ne"@,
                Box::new(
                    Expr::Bin("i32.and"@, Box::new(Expr::Get("end"@)), Box::new(Expr::Num(65535))),
                ),
                Box::new(Expr::Num(0)),
            ),
        ),
    )
}

/// Memory `k` grows until it holds `$end` bytes.
spec fn grow_stmt(k: nat) -> Stmt {
    Stmt::When(
        Expr::Bin("i32.gt_u"@, Box::new(pages_expr()), Box::new(Expr::Size(k))),
        Box::new(
            Stmt::Grow(
                k,
                Expr::Bin("i32.sub"@, Box::new(pages_expr()), Box::new(Expr::Size(k))),
            ),
        ),
    )
}

/// The words of the number of pages.
proof fn lemma_pages_words()
    ensures
        squeezed("(i32.add (i32.shr_u (local.get $end) (i32.const 16)) "@) == squeezed("("@) + squeezed("i32.add"@) + squeezed("("@) + squeezed("i32.shr_u"@)
                + squeezed("(local.get $"@) + squeezed("end"@) + squeezed(")"@)
                + squeezed("(i32.const "@) + squeezed("16"@) + squeezed(")"@) + squeezed(")"@),
        squeezed("(i32.ne (i32.and (local.get $end) (i32.const 65535)) (i32.const 0)))"@) == squeezed("("@) + squeezed("i32.ne"@) + squeezed("("@) + squeezed("i32.and"@)
                + squeezed("(local.get $"@) + squeezed("end"@) + squeezed(")"@)
                + squeezed("(i32.const "@) + squeezed("65535"@) + squeezed(")"@) + squeezed(")"@)
                + squeezed("(i32.const "@) + squeezed("0"@) + squeezed(")"@) + squeezed(")"@)
                + squeezed(")"@),
{
    broadcast use {lemma_squeezed_add, lemma_add_nothing, lemma_nothing_add};

    lemma_blank_literals();
    reveal_strlit("(i32.add (i32.shr_u (local.get $end) (i32.const 16)) ");
    reveal_strlit("(");
    reveal_strlit("i32.add");
    reveal_strlit(" ");
    reveal_strlit("i32.shr_u");
    reveal_strlit("(local.get $");
    reveal_strlit("end");
    reveal_strlit(")");
    reveal_strlit("(i32.const ");
    reveal_strlit("16");
    reveal_strlit("(i32.ne (i32.and (local.get $end) (i32.const 65535)) (i32.const 0)))");
    reveal_strlit("i32.ne");
    reveal_strlit("i32.and");
    reveal_strlit("65535");
    reveal_strlit("0");
    assert("(i32.add (i32.shr_u (local.get $end) (i32.const 16)) "@ =~= "("@ + "i32.add"@ + " "@ + "("@ + "i32.shr_u"@ + " "@ + "(local.get $"@ + "end"@ + ")"@
            + " "@ + "(i32.const "@ + "16"@ + ")"@ + ")"@ + " "@);
    assert("(i32.ne (i32.and (local.get $end) (i32.const 65535)) (i32.const 0)))"@ =~= "("@ + "i32.ne"@ + " "@ + "("@ + "i32.and"@ + " "@ + "(local.get $"@ + "end"@ + ")"@
            + " "@ + "(i32.const "@ + "65535"@ + ")"@ + ")"@ + " "@ + "(i32.const "@ + "0"@
            + ")"@ + ")"@ + ")"@);
}

proof fn lemma_number_texts()
    ensures
        decimal(16) == "16"@,
        decimal(65535) == "65535"@,
{
    reveal_strlit("16");
    reveal_strlit("65535");
    reveal_with_fuel(decimal, 7);
    assert(decimal(16) =~= "16"@);
    assert(decimal(6553) =~= seq!['6', '5', '5', '3']);
    assert(decimal(65535) =~= "65535"@);
}

spec fn half_pages() -> Expr {
    Expr::Bin("i32.shr_u"@, Box::new(Expr::Get("end"@)), Box::new(Expr::Num(16)))
}

spec fn odd_bytes() -> Expr {
    Expr::Bin(
        "i32.ne"@,
        Box::new(Expr::Bin("i32.and"@, Box::new(Expr::Get("end"@)), Box::new(Expr::Num(65535)))),
        Box::new(Expr::Num(0)),
    )
}

proof fn lemma_half_text()
    ensures
        squeezed("("@) + squeezed("i32.add"@) + squeezed(expr_text(half_pages())) == squeezed(
            "(i32.add (i32.shr_u (local.get $end) (i32.const 16)) "@,
        ),
{
    broadcast use group_text;

    lemma_blank_literals();
    lemma_number_texts();
    lemma_pages_words();
    let g = squeezed("(local.get $"@) + squeezed("end"@) + squeezed(")"@);
    let n = squeezed("(i32.const "@) + squeezed("16"@) + squeezed(")"@);
    assert(squeezed(expr_text(Expr::Get("end"@))) == g);
    assert(squeezed(expr_text(Expr::Num(16))) == n);
    assert(squeezed(expr_text(half_pages())) == squeezed("("@) + squeezed("i32.shr_u"@) + g + n
        + squeezed(")"@));
}

proof fn lemma_odd_text()
    ensures
        squeezed(expr_text(odd_bytes())) + squeezed(")"@) == squeezed(
            "(i32.ne (i32.and (local.get $end) (i32.const 65535)) (i32.const 0)))"@,
        ),
{
    broadcast use group_text;

    lemma_blank_literals();
    lemma_number_texts();
    lemma_zero_text();
    lemma_pages_words();
    let g = squeezed("(local.get $"@) + squeezed("end"@) + squeezed(")"@);
    let n = squeezed("(i32.const "@) + squeezed("65535"@) + squeezed(")"@);
    let z = squeezed("(i32.const "@) + squeezed("0"@) + squeezed(")"@);
    let a = Expr::Bin("i32.and"@, Box::new(Expr::Get("end"@)), Box::new(Expr::Num(65535)));
    assert(squeezed(expr_text(Expr::Get("end"@))) == g);
    assert(squeezed(expr_text(Expr::Num(65535))) == n);
    assert(squeezed(expr_text(Expr::Num(0))) == z);
    assert(squeezed(expr_text(a)) == squeezed("("@) + squeezed("i32.and"@) + g + n + squeezed(
        ")"@,
    ));
    assert(squeezed(expr_text(odd_bytes())) == squeezed("("@) + squeezed("i32.ne"@) + squeezed(
        expr_text(a),
    ) + z + squeezed(")"@));
}

/// The test of a growth, in parts.
proof fn lemma_grow_first()
    ensures
        squeezed("(if (i32.gt_u\n      (i32.add (i32.shr_u (local.get $end) (i32.const 16)) (i32.ne (i32.and (local.get $end) (i32.const 65535)) (i32.const 0)))\n      (memory.size "@) == squeezed("(if (i32.gt_u\n      "@)
                + squeezed("(i32.add (i32.shr_u (local.get $end) (i32.const 16)) "@)
                + squeezed("(i32.ne (i32.and (local.get $end) (i32.const 65535)) (i32.const 0)))"@)
                + squeezed("\n      (memory.size "@),
{
    broadcast use lemma_squeezed_add;

    reveal_strlit("(if (i32.gt_u\n      (i32.add (i32.shr_u (local.get $end) (i32.const 16)) (i32.ne (i32.and (local.get $end) (i32.const 65535)) (i32.const 0)))\n      (memory.size ");
    reveal_strlit("(if (i32.gt_u\n      ");
    reveal_strlit("(i32.add (i32.shr_u (local.get $end) (i32.const 16)) ");
    reveal_strlit("(i32.ne (i32.and (local.get $end) (i32.const 65535)) (i32.const 0)))");
    reveal_strlit("\n      (memory.size ");
    assert("(if (i32.gt_u\n      (i32.add (i32.shr_u (local.get $end) (i32.const 16)) (i32.ne (i32.and (local.get $end) (i32.const 65535)) (i32.const 0)))\n      (memory.size "@ =~= "(if (i32.gt_u\n      "@ + "(i32.add (i32.shr_u (local.get $end) (i32.const 16)) "@
            + "(i32.ne (i32.and (local.get $end) (i32.const 65535)) (i32.const 0)))"@
            + "\n      (memory.size "@);
}

/// The amount of a growth, in parts.
proof fn lemma_grow_third()
    ensures
        squeezed("\n        (i32.sub\n          (i32.add (i32.shr_u (local.get $end) (i32.const 16)) (i32.ne (i32.and (local.get $end) (i32.const 65535)) (i32.const 0)))\n          (memory.size "@) == squeezed("\n        (i32.sub\n          "@)
                + squeezed("(i32.add (i32.shr_u (local.get $end) (i32.const 16)) "@)
                + squeezed("(i32.ne (i32.and (local.get $end) (i32.const 65535)) (i32.const 0)))"@)
                + squeezed("\n          (memory.size "@),
{
    broadcast use lemma_squeezed_add;

    reveal_strlit("\n        (i32.sub\n          (i32.add (i32.shr_u (local.get $end) (i32.const 16)) (i32.ne (i32.and (local.get $end) (i32.const 65535)) (i32.const 0)))\n          (memory.size ");
    reveal_strlit("\n        (i32.sub\n          ");
    reveal_strlit("(i32.add (i32.shr_u (local.get $end) (i32.const 16)) ");
    reveal_strlit("(i32.ne (i32.and (local.get $end) (i32.const 65535)) (i32.const 0)))");
    reveal_strlit("\n          (memory.size ");
    assert("\n        (i32.sub\n          (i32.add (i32.shr_u (local.get $end) (i32.const 16)) (i32.ne (i32.and (local.get $end) (i32.const 65535)) (i32.const 0)))\n          (memory.size "@ =~= "\n        (i32.sub\n          "@
            + "(i32.add (i32.shr_u (local.get $end) (i32.const 16)) "@
            + "(i32.ne (i32.and (local.get $end) (i32.const 65535)) (i32.const 0)))"@
            + "\n          (memory.size "@);
}

/// The words of a growth.
proof fn lemma_grow_words()
    ensures
        squeezed("(if (i32.gt_u\n      "@) == squeezed("(if "@) + squeezed("("@) + squeezed("i32.gt_u"@),
        squeezed("\n      (memory.size "@) == squeezed("(memory.size "@),
        squeezed("))\n  (then\n    (drop\n      (memory.grow "@) == squeezed(")"@) + squeezed(")"@) + squeezed("(then"@) + squeezed("(drop"@)
                + squeezed("(memory.grow "@),
        squeezed("\n        (i32.sub\n          "@) == squeezed("("@) + squeezed("i32.sub"@),
        squeezed("\n          (memory.size "@) == squeezed("(memory.size "@),
        squeezed("))))))\n"@) == squeezed(")"@) + squeezed(")"@) + squeezed(")"@) + squeezed(")"@) + squeezed(")"@)
                + squeezed(")"@),
        squeezed(" (then "@) == squeezed("(then"@),
        squeezed("(drop (memory.grow "@) == squeezed("(drop"@) + squeezed("(memory.grow "@),
        squeezed("))"@) == squeezed(")"@) + squeezed(")"@),
{
    broadcast use {lemma_squeezed_add, lemma_add_nothing, lemma_nothing_add};

    lemma_blank_literals();
    reveal_strlit("(if (i32.gt_u\n      ");
    reveal_strlit("(if ");
    reveal_strlit("(");
    reveal_strlit("i32.gt_u");
    reveal_strlit("\n");
    reveal_strlit("  ");
    reveal_strlit("\n      (memory.size ");
    reveal_strlit("(memory.size ");
    reveal_strlit("))\n  (then\n    (drop\n      (memory.grow ");
    reveal_strlit(")");
    reveal_strlit("(then");
    reveal_strlit("(drop");
    reveal_strlit("(memory.grow ");
    reveal_strlit("\n        (i32.sub\n          ");
    reveal_strlit("i32.sub");
    reveal_strlit("\n          (memory.size ");
    reveal_strlit("))))))\n");
    reveal_strlit(" (then ");
    reveal_strlit(" ");
    reveal_strlit("(drop (memory.grow ");
    reveal_strlit("))");
    assert("(if (i32.gt_u\n      "@ =~= "(if "@ + "("@ + "i32.gt_u"@ + "\n"@ + "  "@ + "  "@ + "  "@);
    assert("\n      (memory.size "@ =~= "\n"@ + "  "@ + "  "@ + "  "@ + "(memory.size "@);
    assert("))\n  (then\n    (drop\n      (memory.grow "@ =~= ")"@ + ")"@ + "\n"@ + "  "@ + "(then"@ + "\n"@ + "  "@ + "  "@ + "(drop"@ + "\n"@ + "  "@
            + "  "@ + "  "@ + "(memory.grow "@);
    assert("\n        (i32.sub\n          "@ =~= "\n"@ + "  "@ + "  "@ + "  "@ + "  "@ + "("@ + "i32.sub"@ + "\n"@ + "  "@ + "  "@ + "  "@
            + "  "@ + "  "@);
    assert("\n          (memory.size "@ =~= "\n"@ + "  "@ + "  "@ + "  "@ + "  "@ + "  "@ + "(memory.size "@);
    assert("))))))\n"@ =~= ")"@ + ")"@ + ")"@ + ")"@ + ")"@ + ")"@ + "\n"@);
    assert(" (then "@ =~= " "@ + "(then"@ + " "@);
    assert("(drop (memory.grow "@ =~= "(drop"@ + " "@ + "(memory.grow "@);
    assert("))"@ =~= ")"@ + ")"@);
}

proof fn lemma_pages_text()
    ensures
        squeezed(expr_text(pages_expr())) == squeezed(
            "(i32.add (i32.shr_u (local.get $end) (i32.const 16)) "@,
        ) + squeezed("(i32.ne (i32.and (local.get $end) (i32.const 65535)) (i32.const 0)))"@),
{
    broadcast use group_text;

    lemma_blank_literals();
    lemma_half_text();
    lemma_odd_text();
    assert(squeezed(expr_text(pages_expr())) == squeezed("("@) + squeezed("i32.add"@) + squeezed(
        expr_text(half_pages()),
    ) + squeezed(expr_text(odd_bytes())) + squeezed(")"@));
}

/// The text that grows a pool is that of the statement, up to white space.
proof fn lemma_grow_text(k: nat)
    ensures
        squeezed(fill(GROW_POOL@, k)) == squeezed(stmt_text(grow_stmt(k))),
{
    broadcast use group_text;

    lemma_blank_literals();
    lemma_fill_grow_pool(k);
    lemma_grow_first();
    lemma_grow_third();
    lemma_grow_words();
    lemma_pages_text();
    let pg = squeezed(expr_text(pages_expr()));
    let size = squeezed("(memory.size "@) + squeezed(decimal(k)) + squeezed(")"@);
    assert(squeezed(expr_text(Expr::Size(k))) == size);
    let test = Expr::Bin("i32.gt_u"@, Box::new(pages_expr()), Box::new(Expr::Size(k)));
    let more = Expr::Bin("i32.sub"@, Box::new(pages_expr()), Box::new(Expr::Size(k)));
    assert(squeezed(expr_text(test)) == squeezed("("@) + squeezed("i32.gt_u"@) + pg + size
        + squeezed(")"@));
    assert(squeezed(expr_text(more)) == squeezed("("@) + squeezed("i32.sub"@) + pg + size
        + squeezed(")"@));
    let grow = Stmt::Grow(k, more);
    assert(squeezed(stmt_text(grow)) == squeezed("(drop (memory.grow "@) + squeezed(decimal(k))
        + squeezed(expr_text(more)) + squeezed("))"@));
    assert(squeezed(stmt_text(grow_stmt(k))) == squeezed("(if "@) + squeezed(expr_text(test))
        + squeezed(" (then "@) + squeezed(stmt_text(grow)) + squeezed("))"@));
}

// ---------------------------------------------------------------------------
// Copies by pool number
// ---------------------------------------------------------------------------

spec fn leaf_stmt(to_default: bool, k: nat) -> Stmt {
    if to_default {
        plain_copy(0, k)
    } else {
        Stmt::Both(Box::new(grow_stmt(k)), Box::new(plain_copy(k, 0)))
    }
}

spec fn pool_test(name: Seq<char>, mid: u32) -> Expr {
    Expr::Bin("i32.lt_u"@, Box::new(Expr::Get(name)), Box::new(Expr::Num(mid as nat)))
}

spec fn copy_stmt(t: Tree, to_default: bool) -> Stmt
    decreases t,
{
    match t {
        Tree::Leaf(k) => leaf_stmt(to_default, k as nat),
        Tree::Node(mid, l, r) => Stmt::Either(
            pool_test(copy_param(to_default), mid),
            Box::new(copy_stmt(*l, to_default)),
            Box::new(copy_stmt(*r, to_default)),
        ),
    }
}

proof fn lemma_leaf_text(to_default: bool, k: u32)
    ensures
        squeezed(copy_leaf(to_default, k)) == squeezed(stmt_text(leaf_stmt(to_default, k as nat))),
{
    broadcast use group_text;

    lemma_copy_words();
    lemma_zero_text();
    if to_default {
        lemma_plain_copy_text(0, k as nat);
    } else {
        lemma_plain_copy_text(k as nat, 0);
        lemma_grow_text(k as nat);
    }
}

/// The text of a comparison of a pool, up to white space.
proof fn lemma_pool_test_text(name: Seq<char>, mid: u32)
    ensures
        squeezed(expr_text(pool_test(name, mid))) == squeezed("("@) + squeezed("i32.lt_u"@)
            + squeezed("(local.get $"@) + squeezed(name) + squeezed(")"@) + squeezed("(i32.const "@)
            + squeezed(decimal(mid as nat)) + squeezed(")"@) + squeezed(")"@),
{
    broadcast use group_text;

    lemma_blank_literals();
    let g = squeezed("(local.get $"@) + squeezed(name) + squeezed(")"@);
    let num = squeezed("(i32.const "@) + squeezed(decimal(mid as nat)) + squeezed(")"@);
    assert(squeezed(expr_text(Expr::Get(name))) == g);
    assert(squeezed(expr_text(Expr::Num(mid as nat))) == num);
}

/// The text of a tree of copies is that of the statement, up to white space.
proof fn lemma_copy_text(t: Tree, to_default: bool)
    ensures
        squeezed(copy_text(t, to_default)) == squeezed(stmt_text(copy_stmt(t, to_default))),
    decreases t,
{
    match t {
        Tree::Leaf(k) => lemma_leaf_text(to_default, k),
        Tree::Node(mid, l, r) => {
            lemma_copy_text(*l, to_default);
            lemma_copy_text(*r, to_default);
            lemma_copy_node(mid, l, r, to_default);
        },
    }
}

proof fn lemma_copy_node(mid: u32, l: Box<Tree>, r: Box<Tree>, to_default: bool)
    requires
        squeezed(copy_text(*l, to_default)) == squeezed(stmt_text(copy_stmt(*l, to_default))),
        squeezed(copy_text(*r, to_default)) == squeezed(stmt_text(copy_stmt(*r, to_default))),
    ensures
        squeezed(copy_text(Tree::Node(mid, l, r), to_default)) == squeezed(
            stmt_text(copy_stmt(Tree::Node(mid, l, r), to_default)),
        ),
{
    broadcast use group_text;

    lemma_blank_literals();
    lemma_copy_words();
    lemma_tree_words();
    lemma_pool_test_text(copy_param(to_default), mid);
    lemma_indented_squeezed(copy_text(*l, to_default), 4);
    lemma_indented_squeezed(copy_text(*r, to_default), 4);
    let t = Tree::Node(mid, l, r);
    let sl = squeezed(copy_text(*l, to_default));
    let sr = squeezed(copy_text(*r, to_default));
    assert(squeezed(stmt_text(copy_stmt(t, to_default))) == squeezed("(if "@) + squeezed(
        expr_text(pool_test(copy_param(to_default), mid)),
    ) + squeezed(" (then "@) + sl + squeezed(") (else "@) + sr + squeezed("))"@));
}

/// The text of the check for a pool that exists, up to white space.
proof fn lemma_pool_check_text(name: Seq<char>, n: u32)
    ensures
        squeezed(stmt_text(pool_check(name, n))) == squeezed("(if "@) + squeezed("("@) + squeezed(
            "i32.ge_u"@,
        ) + squeezed("(local.get $"@) + squeezed(name) + squeezed(")"@) + squeezed("(i32.const "@)
            + squeezed(decimal(n as nat)) + squeezed(")) (then unreachable))\n"@),
{
    broadcast use group_text;

    lemma_blank_literals();
    lemma_frame_words();
    let g = squeezed("(local.get $"@) + squeezed(name) + squeezed(")"@);
    let num = squeezed("(i32.const "@) + squeezed(decimal(n as nat)) + squeezed(")"@);
    let c = Expr::Bin("i32.ge_u"@, Box::new(Expr::Get(name)), Box::new(Expr::Num(n as nat)));
    assert(squeezed(expr_text(Expr::Get(name))) == g);
    assert(squeezed(expr_text(Expr::Num(n as nat))) == num);
    assert(squeezed(expr_text(c)) == squeezed("("@) + squeezed("i32.ge_u"@) + g + num + squeezed(
        ")"@,
    ));
    assert(squeezed(stmt_text(Stmt::Trap)) == squeezed("unreachable"@));
    assert(squeezed(stmt_text(pool_check(name, n))) == squeezed("(if "@) + squeezed(expr_text(c))
        + squeezed(" (then "@) + squeezed("unreachable"@) + squeezed("))"@));
}

/// The head of the copy into the default memory, in parts.
proof fn lemma_to_head_parts()
    ensures
        squeezed("  (func $tvm_copy_to_default (export \"tvm_copy_to_default\")\n        (param $src_pool i32) (param $src_off i32) (param $dst_off i32) (param $len i32)\n    (if (i32.ge_u (local.get $src_pool) (i32.const "@) == squeezed("  (func $tvm_copy_to_default (export \"tvm_copy_to_default\")"@)
                + squeezed("\n        (param $src_pool i32) (param $src_off i32) (param $dst_off i32) (param $len i32)\n    "@)
                + squeezed("(if (i32.ge_u (local.get $src_pool) (i32.const "@),
{
    broadcast use lemma_squeezed_add;

    reveal_strlit("  (func $tvm_copy_to_default (export \"tvm_copy_to_default\")\n        (param $src_pool i32) (param $src_off i32) (param $dst_off i32) (param $len i32)\n    (if (i32.ge_u (local.get $src_pool) (i32.const ");
    reveal_strlit("  (func $tvm_copy_to_default (export \"tvm_copy_to_default\")");
    reveal_strlit("\n        (param $src_pool i32) (param $src_off i32) (param $dst_off i32) (param $len i32)\n    ");
    reveal_strlit("(if (i32.ge_u (local.get $src_pool) (i32.const ");
    assert("  (func $tvm_copy_to_default (export \"tvm_copy_to_default\")\n        (param $src_pool i32) (param $src_off i32) (param $dst_off i32) (param $len i32)\n    (if (i32.ge_u (local.get $src_pool) (i32.const "@ =~= "  (func $tvm_copy_to_default (export \"tvm_copy_to_default\")"@
            + "\n        (param $src_pool i32) (param $src_off i32) (param $dst_off i32) (param $len i32)\n    "@
            + "(if (i32.ge_u (local.get $src_pool) (i32.const "@);
}

/// How the copy into the default memory names itself and checks its pool.
proof fn lemma_to_head_name()
    ensures
        squeezed("  (func $tvm_copy_to_default (export \"tvm_copy_to_default\")"@) == squeezed("(func $"@) + squeezed("tvm_copy_to_default"@) + squeezed(" (export \""@)
                + squeezed("tvm_copy_to_default"@) + squeezed("\")"@),
        squeezed("(if (i32.ge_u (local.get $src_pool) (i32.const "@) == squeezed("(if "@) + squeezed("("@) + squeezed("i32.ge_u"@)
                + squeezed("(local.get $"@) + squeezed("src_pool"@) + squeezed(")"@)
                + squeezed("(i32.const "@),
{
    broadcast use {lemma_squeezed_add, lemma_add_nothing, lemma_nothing_add};

    lemma_blank_literals();
    reveal_strlit("  (func $tvm_copy_to_default (export \"tvm_copy_to_default\")");
    reveal_strlit("  ");
    reveal_strlit("(func $");
    reveal_strlit("tvm_copy_to_default");
    reveal_strlit(" (export \"");
    reveal_strlit("\")");
    reveal_strlit("(if (i32.ge_u (local.get $src_pool) (i32.const ");
    reveal_strlit("(if ");
    reveal_strlit("(");
    reveal_strlit("i32.ge_u");
    reveal_strlit(" ");
    reveal_strlit("(local.get $");
    reveal_strlit("src_pool");
    reveal_strlit(")");
    reveal_strlit("(i32.const ");
    assert("  (func $tvm_copy_to_default (export \"tvm_copy_to_default\")"@ =~= "  "@ + "(func $"@ + "tvm_copy_to_default"@ + " (export \""@ + "tvm_copy_to_default"@
            + "\")"@);
    assert("(if (i32.ge_u (local.get $src_pool) (i32.const "@ =~= "(if "@ + "("@ + "i32.ge_u"@ + " "@ + "(local.get $"@ + "src_pool"@ + ")"@ + " "@
            + "(i32.const "@);
}

/// What the copy into the default memory takes.
proof fn lemma_to_head_params()
    ensures
        squeezed("\n        (param $src_pool i32) (param $src_off i32) (param $dst_off i32) (param $len i32)\n    "@) == declared_word("param"@, "src_pool"@, "i32"@)
                + declared_word("param"@, "src_off"@, "i32"@)
                + declared_word("param"@, "dst_off"@, "i32"@)
                + declared_word("param"@, "len"@, "i32"@),
{
    broadcast use {lemma_squeezed_add, lemma_add_nothing, lemma_nothing_add};

    lemma_blank_literals();
    lemma_params();
    reveal_strlit("\n        (param $src_pool i32) (param $src_off i32) (param $dst_off i32) (param $len i32)\n    ");
    reveal_strlit("\n");
    reveal_strlit("  ");
    reveal_strlit(" ");
    reveal_strlit(" (param $src_pool i32)");
    reveal_strlit(" (param $src_off i32)");
    reveal_strlit(" (param $dst_off i32)");
    reveal_strlit(" (param $len i32)");
    assert("\n        (param $src_pool i32) (param $src_off i32) (param $dst_off i32) (param $len i32)\n    "@ =~= "\n"@ + "  "@ + "  "@ + "  "@ + " "@ + " (param $src_pool i32)"@
            + " (param $src_off i32)"@ + " (param $dst_off i32)"@ + " (param $len i32)"@ + "\n"@
            + "  "@ + "  "@);
}

spec fn copy_to_func(n: u32) -> Func {
    Func {
        name: "tvm_copy_to_default"@,
        params: seq![
            ("src_pool"@, "i32"@),
            ("src_off"@, "i32"@),
            ("dst_off"@, "i32"@),
            ("len"@, "i32"@),
        ],
        result: None,
        locals: Seq::empty(),
        code: Stmt::Both(
            Box::new(pool_check("src_pool"@, n)),
            Box::new(copy_stmt(dispatch_tree(0, n), true)),
        ),
        value: None,
    }
}

/// The text of a function of four numbers, up to white space.
proof fn lemma_four_text(f: Func)
    requires
        f.params.len() == 4,
        f.result is None,
        f.value is None,
    ensures
        squeezed(func_text(f)) == squeezed("(func $"@) + squeezed(f.name) + squeezed(" (export \""@)
            + squeezed(f.name) + squeezed("\")"@) + (declared_word(
            "param"@,
            f.params[0].0,
            f.params[0].1,
        ) + declared_word("param"@, f.params[1].0, f.params[1].1) + declared_word(
            "param"@,
            f.params[2].0,
            f.params[2].1,
        ) + declared_word("param"@, f.params[3].0, f.params[3].1)) + squeezed(
            declared_text("local"@, f.locals, f.locals.len() as int),
        ) + squeezed(stmt_text(f.code)) + squeezed(")"@),
{
    broadcast use {lemma_squeezed_add, lemma_add_nothing, lemma_nothing_add};

    lemma_declared("param"@, f.params, 4);
    lemma_declared("param"@, f.params, 3);
    lemma_declared("param"@, f.params, 2);
    lemma_declared("param"@, f.params, 1);
    assert(squeezed(declared_text("param"@, f.params, 0)) == Seq::<char>::empty());
}

proof fn lemma_regroup(
    start: Seq<char>,
    params: Seq<char>,
    a: Seq<char>,
    b: Seq<char>,
    c: Seq<char>,
    body: Seq<char>,
    end: Seq<char>,
)
    ensures
        (start + params + a) + b + c + body + end == start + params + ((a + b + c) + body) + end,
{
    assert((start + params + a) + b + c + body + end =~= start + params + ((a + b + c) + body)
        + end);
}

/// The text of the copy into the default memory is that of the function, up to white space.
proof fn lemma_copy_to_text(n: u32)
    ensures
        squeezed(copy_to_dispatcher(n)) == squeezed(func_text(copy_to_func(n))),
{
    broadcast use {lemma_squeezed_add, lemma_add_nothing, lemma_nothing_add};

    let f = copy_to_func(n);
    let t = dispatch_tree(0, n);
    lemma_blank_literals();
    lemma_fill_copy_to_head(n as nat);
    lemma_to_head_parts();
    lemma_to_head_name();
    lemma_to_head_params();
    lemma_frame_words();
    lemma_pool_check_text("src_pool"@, n);
    lemma_copy_text(t, true);
    lemma_indented_squeezed(copy_text(t, true), 4);
    lemma_four_text(f);
    assert(squeezed(declared_text("local"@, f.locals, 0)) == Seq::<char>::empty());
    assert(squeezed(stmt_text(f.code)) == squeezed(stmt_text(pool_check("src_pool"@, n)))
        + squeezed(copy_text(t, true)));
    lemma_regroup(
        squeezed("  (func $tvm_copy_to_default (export \"tvm_copy_to_default\")"@),
        squeezed("\n        (param $src_pool i32) (param $src_off i32) (param $dst_off i32) (param $len i32)\n    "@),
        squeezed("(if (i32.ge_u (local.get $src_pool) (i32.const "@),
        squeezed(decimal(n as nat)),
        squeezed(")) (then unreachable))\n"@),
        squeezed(copy_text(t, true)),
        squeezed(")"@),
    );
}

// ---------------------------------------------------------------------------
// Copies into a pool
// ---------------------------------------------------------------------------

/// `$end` is where the copy ends.
spec fn set_end() -> Stmt {
    Stmt::Assign(
        "end"@,
        Expr::Bin("i32.add"@, Box::new(Expr::Get("dst_off"@)), Box::new(Expr::Get("len"@))),
    )
}

/// A copy that wraps around traps.
spec fn no_wrap() -> Stmt {
    Stmt::When(
        Expr::Bin("i32.lt_u"@, Box::new(Expr::Get("end"@)), Box::new(Expr::Get("dst_off"@))),
        Box::new(Stmt::Trap),
    )
}

/// The words of where a copy ends.
proof fn lemma_end_statements()
    ensures
        squeezed("(local.set $end (i32.add (local.get $dst_off) (local.get $len)))"@) == squeezed("(local.set $"@) + squeezed("end"@) + squeezed("("@) + squeezed("i32.add"@)
                + squeezed("(local.get $"@) + squeezed("dst_off"@) + squeezed(")"@)
                + squeezed("(local.get $"@) + squeezed("len"@) + squeezed(")"@) + squeezed(")"@)
                + squeezed(")"@),
        squeezed("(if (i32.lt_u (local.get $end) (local.get $dst_off)) (then unreachable))"@) == squeezed("(if "@) + squeezed("("@) + squeezed("i32.lt_u"@)
                + squeezed("(local.get $"@) + squeezed("end"@) + squeezed(")"@)
                + squeezed("(local.get $"@) + squeezed("dst_off"@) + squeezed(")"@)
                + squeezed(")"@) + squeezed(" (then "@) + squeezed("unreachable"@)
                + squeezed("))"@),
        squeezed("(local $end i32)"@) == squeezed("("@) + squeezed("local"@) + squeezed(" $"@) + squeezed("end"@)
                + squeezed("i32"@) + squeezed(")"@),
{
    broadcast use {lemma_squeezed_add, lemma_add_nothing, lemma_nothing_add};

    lemma_blank_literals();
    reveal_strlit("(local.set $end (i32.add (local.get $dst_off) (local.get $len)))");
    reveal_strlit("(local.set $");
    reveal_strlit("end");
    reveal_strlit(" ");
    reveal_strlit("(");
    reveal_strlit("i32.add");
    reveal_strlit("(local.get $");
    reveal_strlit("dst_off");
    reveal_strlit(")");
    reveal_strlit("len");
    reveal_strlit("(if (i32.lt_u (local.get $end) (local.get $dst_off)) (then unreachable))");
    reveal_strlit("(if ");
    reveal_strlit("i32.lt_u");
    reveal_strlit(" (then ");
    reveal_strlit("unreachable");
    reveal_strlit("))");
    reveal_strlit("(local $end i32)");
    reveal_strlit("local");
    reveal_strlit(" $");
    reveal_strlit("i32");
    assert("(local.set $end (i32.add (local.get $dst_off) (local.get $len)))"@ =~= "(local.set $"@ + "end"@ + " "@ + "("@ + "i32.add"@ + " "@ + "(local.get $"@ + "dst_off"@
            + ")"@ + " "@ + "(local.get $"@ + "len"@ + ")"@ + ")"@ + ")"@);
    assert("(if (i32.lt_u (local.get $end) (local.get $dst_off)) (then unreachable))"@ =~= "(if "@ + "("@ + "i32.lt_u"@ + " "@ + "(local.get $"@ + "end"@ + ")"@ + " "@
            + "(local.get $"@ + "dst_off"@ + ")"@ + ")"@ + " (then "@ + "unreachable"@ + "))"@);
    assert("(local $end i32)"@ =~= "("@ + "local"@ + " $"@ + "end"@ + " "@ + "i32"@ + ")"@);
}

proof fn lemma_set_end_text()
    ensures
        squeezed(stmt_text(set_end())) == squeezed("(local.set $end (i32.add (local.get $dst_off) (local.get $len)))"@),
        squeezed(stmt_text(no_wrap())) == squeezed("(if (i32.lt_u (local.get $end) (local.get $dst_off)) (then unreachable))"@),
{
    broadcast use group_text;

    lemma_blank_literals();
    lemma_end_statements();
    let d = squeezed("(local.get $"@) + squeezed("dst_off"@) + squeezed(")"@);
    let l = squeezed("(local.get $"@) + squeezed("len"@) + squeezed(")"@);
    let e = squeezed("(local.get $"@) + squeezed("end"@) + squeezed(")"@);
    assert(squeezed(expr_text(Expr::Get("dst_off"@))) == d);
    assert(squeezed(expr_text(Expr::Get("len"@))) == l);
    assert(squeezed(expr_text(Expr::Get("end"@))) == e);
    let sum = Expr::Bin("i32.add"@, Box::new(Expr::Get("dst_off"@)), Box::new(Expr::Get("len"@)));
    assert(squeezed(expr_text(sum)) == squeezed("("@) + squeezed("i32.add"@) + d + l + squeezed(
        ")"@,
    ));
    assert(squeezed(stmt_text(set_end())) == squeezed("(local.set $"@) + squeezed("end"@)
        + squeezed(expr_text(sum)) + squeezed(")"@));
    let less = Expr::Bin("i32.lt_u"@, Box::new(Expr::Get("end"@)), Box::new(Expr::Get("dst_off"@)));
    assert(squeezed(expr_text(less)) == squeezed("("@) + squeezed("i32.lt_u"@) + e + d + squeezed(
        ")"@,
    ));
    assert(squeezed(stmt_text(Stmt::Trap)) == squeezed("unreachable"@));
    assert(squeezed(stmt_text(no_wrap())) == squeezed("(if "@) + squeezed(expr_text(less))
        + squeezed(" (then "@) + squeezed("unreachable"@) + squeezed("))"@));
}

spec fn end_local() -> Seq<(Seq<char>, Seq<char>)> {
    seq![("end"@, "i32"@)]
}

proof fn lemma_end_local()
    ensures
        squeezed(declared_text("local"@, end_local(), 1)) == squeezed("(local $end i32)"@),
{
    broadcast use {lemma_squeezed_add, lemma_add_nothing, lemma_nothing_add};

    lemma_end_statements();
    lemma_declared("local"@, end_local(), 1);
    assert(squeezed(declared_text("local"@, end_local(), 0)) == Seq::<char>::empty());
}

/// The head of the copy into a pool, in parts.
proof fn lemma_from_head_parts()
    ensures
        squeezed("  (func $tvm_copy_from_default (export \"tvm_copy_from_default\")\n        (param $dst_pool i32) (param $dst_off i32) (param $src_off i32) (param $len i32)\n        (local $end i32)\n    (if (i32.ge_u (local.get $dst_pool) (i32.const "@) == squeezed("  (func $tvm_copy_from_default (export \"tvm_copy_from_default\")"@)
                + squeezed("\n        (param $dst_pool i32) (param $dst_off i32) (param $src_off i32) (param $len i32)\n        "@)
                + squeezed("(local $end i32)"@) + squeezed("\n    "@)
                + squeezed("(if (i32.ge_u (local.get $dst_pool) (i32.const "@),
{
    broadcast use lemma_squeezed_add;

    reveal_strlit("  (func $tvm_copy_from_default (export \"tvm_copy_from_default\")\n        (param $dst_pool i32) (param $dst_off i32) (param $src_off i32) (param $len i32)\n        (local $end i32)\n    (if (i32.ge_u (local.get $dst_pool) (i32.const ");
    reveal_strlit("  (func $tvm_copy_from_default (export \"tvm_copy_from_default\")");
    reveal_strlit("\n        (param $dst_pool i32) (param $dst_off i32) (param $src_off i32) (param $len i32)\n        ");
    reveal_strlit("(local $end i32)");
    reveal_strlit("\n    ");
    reveal_strlit("(if (i32.ge_u (local.get $dst_pool) (i32.const ");
    assert("  (func $tvm_copy_from_default (export \"tvm_copy_from_default\")\n        (param $dst_pool i32) (param $dst_off i32) (param $src_off i32) (param $len i32)\n        (local $end i32)\n    (if (i32.ge_u (local.get $dst_pool) (i32.const "@ =~= "  (func $tvm_copy_from_default (export \"tvm_copy_from_default\")"@
            + "\n        (param $dst_pool i32) (param $dst_off i32) (param $src_off i32) (param $len i32)\n        "@
            + "(local $end i32)"@ + "\n    "@
            + "(if (i32.ge_u (local.get $dst_pool) (i32.const "@);
}

/// What follows the pool check of the copy into a pool, in parts.
proof fn lemma_from_tail_parts()
    ensures
        squeezed(")) (then unreachable))\n    (local.set $end (i32.add (local.get $dst_off) (local.get $len)))\n(if (i32.lt_u (local.get $end) (local.get $dst_off)) (then unreachable))\n"@) == squeezed(")) (then unreachable))\n"@) + squeezed("    "@)
                + squeezed("(local.set $end (i32.add (local.get $dst_off) (local.get $len)))"@)
                + squeezed("\n"@)
                + squeezed("(if (i32.lt_u (local.get $end) (local.get $dst_off)) (then unreachable))"@)
                + squeezed("\n"@),
{
    broadcast use lemma_squeezed_add;

    reveal_strlit(")) (then unreachable))\n    (local.set $end (i32.add (local.get $dst_off) (local.get $len)))\n(if (i32.lt_u (local.get $end) (local.get $dst_off)) (then unreachable))\n");
    reveal_strlit(")) (then unreachable))\n");
    reveal_strlit("    ");
    reveal_strlit("(local.set $end (i32.add (local.get $dst_off) (local.get $len)))");
    reveal_strlit("\n");
    reveal_strlit("(if (i32.lt_u (local.get $end) (local.get $dst_off)) (then unreachable))");
    assert(")) (then unreachable))\n    (local.set $end (i32.add (local.get $dst_off) (local.get $len)))\n(if (i32.lt_u (local.get $end) (local.get $dst_off)) (then unreachable))\n"@ =~= ")) (then unreachable))\n"@ + "    "@
            + "(local.set $end (i32.add (local.get $dst_off) (local.get $len)))"@ + "\n"@
            + "(if (i32.lt_u (local.get $end) (local.get $dst_off)) (then unreachable))"@ + "\n"@);
}

/// How the copy into a pool names itself and checks its pool.
proof fn lemma_from_head_name()
    ensures
        squeezed("  (func $tvm_copy_from_default (export \"tvm_copy_from_default\")"@) == squeezed("(func $"@) + squeezed("tvm_copy_from_default"@) + squeezed(" (export \""@)
                + squeezed("tvm_copy_from_default"@) + squeezed("\")"@),
        squeezed("(if (i32.ge_u (local.get $dst_pool) (i32.const "@) == squeezed("(if "@) + squeezed("("@) + squeezed("i32.ge_u"@)
                + squeezed("(local.get $"@) + squeezed("dst_pool"@) + squeezed(")"@)
                + squeezed("(i32.const "@),
{
    broadcast use {lemma_squeezed_add, lemma_add_nothing, lemma_nothing_add};

    lemma_blank_literals();
    reveal_strlit("  (func $tvm_copy_from_default (export \"tvm_copy_from_default\")");
    reveal_strlit("  ");
    reveal_strlit("(func $");
    reveal_strlit("tvm_copy_from_default");
    reveal_strlit(" (export \"");
    reveal_strlit("\")");
    reveal_strlit("(if (i32.ge_u (local.get $dst_pool) (i32.const ");
    reveal_strlit("(if ");
    reveal_strlit("(");
    reveal_strlit("i32.ge_u");
    reveal_strlit(" ");
    reveal_strlit("(local.get $");
    reveal_strlit("dst_pool");
    reveal_strlit(")");
    reveal_strlit("(i32.const ");
    assert("  (func $tvm_copy_from_default (export \"tvm_copy_from_default\")"@ =~= "  "@ + "(func $"@ + "tvm_copy_from_default"@ + " (export \""@ + "tvm_copy_from_default"@
            + "\")"@);
    assert("(if (i32.ge_u (local.get $dst_pool) (i32.const "@ =~= "(if "@ + "("@ + "i32.ge_u"@ + " "@ + "(local.get $"@ + "dst_pool"@ + ")"@ + " "@
            + "(i32.const "@);
}

/// What the copy into a pool takes.
proof fn lemma_from_head_params()
    ensures
        squeezed("\n        (param $dst_pool i32) (param $dst_off i32) (param $src_off i32) (param $len i32)\n        "@) == declared_word("param"@, "dst_pool"@, "i32"@)
                + declared_word("param"@, "dst_off"@, "i32"@)
                + declared_word("param"@, "src_off"@, "i32"@)
                + declared_word("param"@, "len"@, "i32"@),
{
    broadcast use {lemma_squeezed_add, lemma_add_nothing, lemma_nothing_add};

    lemma_blank_literals();
    lemma_params();
    reveal_strlit("\n        (param $dst_pool i32) (param $dst_off i32) (param $src_off i32) (param $len i32)\n        ");
    reveal_strlit("\n");
    reveal_strlit("  ");
    reveal_strlit(" ");
    reveal_strlit(" (param $dst_pool i32)");
    reveal_strlit(" (param $dst_off i32)");
    reveal_strlit(" (param $src_off i32)");
    reveal_strlit(" (param $len i32)");
    assert("\n        (param $dst_pool i32) (param $dst_off i32) (param $src_off i32) (param $len i32)\n        "@ =~= "\n"@ + "  "@ + "  "@ + "  "@ + " "@ + " (param $dst_pool i32)"@
            + " (param $dst_off i32)"@ + " (param $src_off i32)"@ + " (param $len i32)"@ + "\n"@
            + "  "@ + "  "@ + "  "@ + "  "@);
}

proof fn lemma_wide_blanks()
    ensures
        squeezed("\n    "@) == Seq::<char>::empty(),
        squeezed("    "@) == Seq::<char>::empty(),
{
    broadcast use {lemma_squeezed_add, lemma_add_nothing};

    lemma_blank_literals();
    reveal_strlit("\n    ");
    reveal_strlit("    ");
    reveal_strlit("  ");
    reveal_strlit("\n");
    assert("\n    "@ =~= "\n"@ + "  "@ + "  "@);
    assert("    "@ =~= "  "@ + "  "@);
}

spec fn copy_from_func(n: u32) -> Func {
    Func {
        name: "tvm_copy_from_default"@,
        params: seq![
            ("dst_pool"@, "i32"@),
            ("dst_off"@, "i32"@),
            ("src_off"@, "i32"@),
            ("len"@, "i32"@),
        ],
        result: None,
        locals: end_local(),
        code: Stmt::Both(
            Box::new(pool_check("dst_pool"@, n)),
            Box::new(
                Stmt::Both(
                    Box::new(set_end()),
                    Box::new(
                        Stmt::Both(
                            Box::new(no_wrap()),
                            Box::new(copy_stmt(dispatch_tree(0, n), false)),
                        ),
                    ),
                ),
            ),
        ),
        value: None,
    }
}

proof fn lemma_regroup_from(
    start: Seq<char>,
    params: Seq<char>,
    local: Seq<char>,
    a: Seq<char>,
    b: Seq<char>,
    c: Seq<char>,
    set: Seq<char>,
    wrap: Seq<char>,
    body: Seq<char>,
    end: Seq<char>,
)
    ensures
        (start + params + local + a) + b + (c + set + wrap) + body + end == start + params + local + (
        (a + b + c) + (set + (wrap + body))) + end,
{
    assert((start + params + local + a) + b + (c + set + wrap) + body + end =~= start + params
        + local + ((a + b + c) + (set + (wrap + body))) + end);
}

/// The text of the copy into a pool is that of the function, up to white space.
proof fn lemma_copy_from_text(n: u32)
    ensures
        squeezed(copy_from_dispatcher(n)) == squeezed(func_text(copy_from_func(n))),
{
    broadcast use {lemma_squeezed_add, lemma_add_nothing, lemma_nothing_add};

    let f = copy_from_func(n);
    let t = dispatch_tree(0, n);
    lemma_blank_literals();
    lemma_wide_blanks();
    lemma_fill_copy_from_head(n as nat);
    lemma_from_head_parts();
    lemma_from_tail_parts();
    lemma_from_head_name();
    lemma_from_head_params();
    lemma_frame_words();
    lemma_set_end_text();
    lemma_end_local();
    lemma_pool_check_text("dst_pool"@, n);
    lemma_copy_text(t, false);
    lemma_indented_squeezed(copy_text(t, false), 4);
    lemma_four_text(f);
    let body = squeezed(copy_text(t, false));
    let rest = Stmt::Both(Box::new(no_wrap()), Box::new(copy_stmt(t, false)));
    let more = Stmt::Both(Box::new(set_end()), Box::new(rest));
    assert(squeezed(stmt_text(rest)) == squeezed(stmt_text(no_wrap())) + body);
    assert(squeezed(stmt_text(more)) == squeezed(stmt_text(set_end())) + squeezed(stmt_text(rest)));
    assert(squeezed(stmt_text(f.code)) == squeezed(stmt_text(pool_check("dst_pool"@, n)))
        + squeezed(stmt_text(more)));
    lemma_regroup_from(
        squeezed("  (func $tvm_copy_from_default (export \"tvm_copy_from_default\")"@),
        squeezed("\n        (param $dst_pool i32) (param $dst_off i32) (param $src_off i32) (param $len i32)\n        "@),
        squeezed("(local $end i32)"@),
        squeezed("(if (i32.ge_u (local.get $dst_pool) (i32.const "@),
        squeezed(decimal(n as nat)),
        squeezed(")) (then unreachable))\n"@),
        squeezed(stmt_text(set_end())),
        squeezed(stmt_text(no_wrap())),
        body,
        squeezed(")"@),
    );
}

/// How the copy into one pool names itself.
proof fn lemma_from_names()
    ensures
        squeezed("  (func $tvm_copy_from_default_p"@) == squeezed("(func $"@) + squeezed("tvm_copy_from_default_p"@),
        squeezed(" (export \"tvm_copy_from_default_p"@) == squeezed(" (export \""@) + squeezed("tvm_copy_from_default_p"@),
{
    broadcast use {lemma_squeezed_add, lemma_add_nothing, lemma_nothing_add};

    lemma_blank_literals();
    reveal_strlit("  (func $tvm_copy_from_default_p");
    reveal_strlit("  ");
    reveal_strlit("(func $");
    reveal_strlit("tvm_copy_from_default_p");
    reveal_strlit(" (export \"tvm_copy_from_default_p");
    reveal_strlit(" (export \"");
    assert("  (func $tvm_copy_from_default_p"@ =~= "  "@ + "(func $"@ + "tvm_copy_from_default_p"@);
    assert(" (export \"tvm_copy_from_default_p"@ =~= " (export \""@ + "tvm_copy_from_default_p"@);
}

/// The start of the copy into one pool, in parts.
proof fn lemma_from_pool_parts()
    ensures
        squeezed("\")\n        (param $dst_off i32) (param $src_off i32) (param $len i32)\n        (local $end i32)\n    (local.set $end (i32.add (local.get $dst_off) (local.get $len)))\n    (if (i32.lt_u (local.get $end) (local.get $dst_off)) (then unreachable))\n    (if (i32.gt_u\n          (i32.add (i32.shr_u (local.get $end) (i32.const 16)) (i32.ne (i32.and (local.get $end) (i32.const 65535)) (i32.const 0)))\n          (memory.size "@) == squeezed("\")\n        (param $dst_off i32) (param $src_off i32) (param $len i32)\n        "@)
                + squeezed("(local $end i32)"@) + squeezed("\n    "@)
                + squeezed("(local.set $end (i32.add (local.get $dst_off) (local.get $len)))"@)
                + squeezed("\n    "@)
                + squeezed("(if (i32.lt_u (local.get $end) (local.get $dst_off)) (then unreachable))"@)
                + squeezed("\n    "@) + squeezed("(if (i32.gt_u\n          "@)
                + squeezed("(i32.add (i32.shr_u (local.get $end) (i32.const 16)) "@)
                + squeezed("(i32.ne (i32.and (local.get $end) (i32.const 65535)) (i32.const 0)))"@)
                + squeezed("\n          (memory.size "@),
{
    broadcast use lemma_squeezed_add;

    reveal_strlit("\")\n        (param $dst_off i32) (param $src_off i32) (param $len i32)\n        (local $end i32)\n    (local.set $end (i32.add (local.get $dst_off) (local.get $len)))\n    (if (i32.lt_u (local.get $end) (local.get $dst_off)) (then unreachable))\n    (if (i32.gt_u\n          (i32.add (i32.shr_u (local.get $end) (i32.const 16)) (i32.ne (i32.and (local.get $end) (i32.const 65535)) (i32.const 0)))\n          (memory.size ");
    reveal_strlit("\")\n        (param $dst_off i32) (param $src_off i32) (param $len i32)\n        ");
    reveal_strlit("(local $end i32)");
    reveal_strlit("\n    ");
    reveal_strlit("(local.set $end (i32.add (local.get $dst_off) (local.get $len)))");
    reveal_strlit("(if (i32.lt_u (local.get $end) (local.get $dst_off)) (then unreachable))");
    reveal_strlit("(if (i32.gt_u\n          ");
    reveal_strlit("(i32.add (i32.shr_u (local.get $end) (i32.const 16)) ");
    reveal_strlit("(i32.ne (i32.and (local.get $end) (i32.const 65535)) (i32.const 0)))");
    reveal_strlit("\n          (memory.size ");
    assert("\")\n        (param $dst_off i32) (param $src_off i32) (param $len i32)\n        (local $end i32)\n    (local.set $end (i32.add (local.get $dst_off) (local.get $len)))\n    (if (i32.lt_u (local.get $end) (local.get $dst_off)) (then unreachable))\n    (if (i32.gt_u\n          (i32.add (i32.shr_u (local.get $end) (i32.const 16)) (i32.ne (i32.and (local.get $end) (i32.const 65535)) (i32.const 0)))\n          (memory.size "@ =~= "\")\n        (param $dst_off i32) (param $src_off i32) (param $len i32)\n        "@
            + "(local $end i32)"@ + "\n    "@
            + "(local.set $end (i32.add (local.get $dst_off) (local.get $len)))"@ + "\n    "@
            + "(if (i32.lt_u (local.get $end) (local.get $dst_off)) (then unreachable))"@
            + "\n    "@ + "(if (i32.gt_u\n          "@
            + "(i32.add (i32.shr_u (local.get $end) (i32.const 16)) "@
            + "(i32.ne (i32.and (local.get $end) (i32.const 65535)) (i32.const 0)))"@
            + "\n          (memory.size "@);
}

/// How much one pool grows, in parts.
proof fn lemma_from_pool_amount()
    ensures
        squeezed("\n            (i32.sub\n              (i32.add (i32.shr_u (local.get $end) (i32.const 16)) (i32.ne (i32.and (local.get $end) (i32.const 65535)) (i32.const 0)))\n              (memory.size "@) == squeezed("\n            (i32.sub\n              "@)
                + squeezed("(i32.add (i32.shr_u (local.get $end) (i32.const 16)) "@)
                + squeezed("(i32.ne (i32.and (local.get $end) (i32.const 65535)) (i32.const 0)))"@)
                + squeezed("\n              (memory.size "@),
{
    broadcast use lemma_squeezed_add;

    reveal_strlit("\n            (i32.sub\n              (i32.add (i32.shr_u (local.get $end) (i32.const 16)) (i32.ne (i32.and (local.get $end) (i32.const 65535)) (i32.const 0)))\n              (memory.size ");
    reveal_strlit("\n            (i32.sub\n              ");
    reveal_strlit("(i32.add (i32.shr_u (local.get $end) (i32.const 16)) ");
    reveal_strlit("(i32.ne (i32.and (local.get $end) (i32.const 65535)) (i32.const 0)))");
    reveal_strlit("\n              (memory.size ");
    assert("\n            (i32.sub\n              (i32.add (i32.shr_u (local.get $end) (i32.const 16)) (i32.ne (i32.and (local.get $end) (i32.const 65535)) (i32.const 0)))\n              (memory.size "@ =~= "\n            (i32.sub\n              "@
            + "(i32.add (i32.shr_u (local.get $end) (i32.const 16)) "@
            + "(i32.ne (i32.and (local.get $end) (i32.const 65535)) (i32.const 0)))"@
            + "\n              (memory.size "@);
}

/// What the copy into one pool takes.
proof fn lemma_from_pool_params()
    ensures
        squeezed("\")\n        (param $dst_off i32) (param $src_off i32) (param $len i32)\n        "@) == squeezed("\")"@) + declared_word("param"@, "dst_off"@, "i32"@)
                + declared_word("param"@, "src_off"@, "i32"@)
                + declared_word("param"@, "len"@, "i32"@),
{
    broadcast use {lemma_squeezed_add, lemma_add_nothing, lemma_nothing_add};

    lemma_blank_literals();
    lemma_params();
    reveal_strlit("\")\n        (param $dst_off i32) (param $src_off i32) (param $len i32)\n        ");
    reveal_strlit("\")");
    reveal_strlit("\n");
    reveal_strlit("  ");
    reveal_strlit(" ");
    reveal_strlit(" (param $dst_off i32)");
    reveal_strlit(" (param $src_off i32)");
    reveal_strlit(" (param $len i32)");
    assert("\")\n        (param $dst_off i32) (param $src_off i32) (param $len i32)\n        "@ =~= "\")"@ + "\n"@ + "  "@ + "  "@ + "  "@ + " "@ + " (param $dst_off i32)"@
            + " (param $src_off i32)"@ + " (param $len i32)"@ + "\n"@ + "  "@ + "  "@ + "  "@
            + "  "@);
}

/// The words of the copy into one pool.
proof fn lemma_from_pool_words()
    ensures
        squeezed("(if (i32.gt_u\n          "@) == squeezed("(if "@) + squeezed("("@) + squeezed("i32.gt_u"@),
        squeezed("\n          (memory.size "@) == squeezed("(memory.size "@),
        squeezed("))\n      (then\n        (drop\n          (memory.grow "@) == squeezed(")"@) + squeezed(")"@) + squeezed("(then"@) + squeezed("(drop"@)
                + squeezed("(memory.grow "@),
        squeezed("\n            (i32.sub\n              "@) == squeezed("("@) + squeezed("i32.sub"@),
        squeezed("\n              (memory.size "@) == squeezed("(memory.size "@),
        squeezed("))))))\n    (memory.copy "@) == squeezed(")"@) + squeezed(")"@) + squeezed(")"@) + squeezed(")"@) + squeezed(")"@)
                + squeezed(")"@) + squeezed("(memory.copy "@),
        squeezed(" 0 (local.get $dst_off) (local.get $src_off) (local.get $len)))\n"@) == squeezed("0"@)
                + squeezed(" (local.get $dst_off) (local.get $src_off) (local.get $len)))\n"@),
{
    broadcast use {lemma_squeezed_add, lemma_add_nothing, lemma_nothing_add};

    lemma_blank_literals();
    reveal_strlit("(if (i32.gt_u\n          ");
    reveal_strlit("(if ");
    reveal_strlit("(");
    reveal_strlit("i32.gt_u");
    reveal_strlit("\n");
    reveal_strlit("  ");
    reveal_strlit("\n          (memory.size ");
    reveal_strlit("(memory.size ");
    reveal_strlit("))\n      (then\n        (drop\n          (memory.grow ");
    reveal_strlit(")");
    reveal_strlit("(then");
    reveal_strlit("(drop");
    reveal_strlit("(memory.grow ");
    reveal_strlit("\n            (i32.sub\n              ");
    reveal_strlit("i32.sub");
    reveal_strlit("\n              (memory.size ");
    reveal_strlit("))))))\n    (memory.copy ");
    reveal_strlit("(memory.copy ");
    reveal_strlit(" 0 (local.get $dst_off) (local.get $src_off) (local.get $len)))\n");
    reveal_strlit(" ");
    reveal_strlit("0");
    reveal_strlit(" (local.get $dst_off) (local.get $src_off) (local.get $len)))\n");
    assert("(if (i32.gt_u\n          "@ =~= "(if "@ + "("@ + "i32.gt_u"@ + "\n"@ + "  "@ + "  "@ + "  "@ + "  "@ + "  "@);
    assert("\n          (memory.size "@ =~= "\n"@ + "  "@ + "  "@ + "  "@ + "  "@ + "  "@ + "(memory.size "@);
    assert("))\n      (then\n        (drop\n          (memory.grow "@ =~= ")"@ + ")"@ + "\n"@ + "  "@ + "  "@ + "  "@ + "(then"@ + "\n"@ + "  "@ + "  "@ + "  "@
            + "  "@ + "(drop"@ + "\n"@ + "  "@ + "  "@ + "  "@ + "  "@ + "  "@ + "(memory.grow "@);
    assert("\n            (i32.sub\n              "@ =~= "\n"@ + "  "@ + "  "@ + "  "@ + "  "@ + "  "@ + "  "@ + "("@ + "i32.sub"@ + "\n"@ + "  "@
            + "  "@ + "  "@ + "  "@ + "  "@ + "  "@ + "  "@);
    assert("\n              (memory.size "@ =~= "\n"@ + "  "@ + "  "@ + "  "@ + "  "@ + "  "@ + "  "@ + "  "@ + "(memory.size "@);
    assert("))))))\n    (memory.copy "@ =~= ")"@ + ")"@ + ")"@ + ")"@ + ")"@ + ")"@ + "\n"@ + "  "@ + "  "@ + "(memory.copy "@);
    assert(" 0 (local.get $dst_off) (local.get $src_off) (local.get $len)))\n"@ =~= " "@ + "0"@ + " (local.get $dst_off) (local.get $src_off) (local.get $len)))\n"@);
}

spec fn pool_from_code(k: nat) -> Stmt {
    Stmt::Both(
        Box::new(set_end()),
        Box::new(
            Stmt::Both(
                Box::new(no_wrap()),
                Box::new(Stmt::Both(Box::new(grow_stmt(k)), Box::new(plain_copy(k, 0)))),
            ),
        ),
    )
}

spec fn pool_from_func(k: nat) -> Func {
    Func {
        locals: end_local(),
        ..helper_func(
            pool_name("tvm_copy_from_default_p"@, k),
            "dst_off"@,
            "src_off"@,
            pool_from_code(k),
        )
    }
}

proof fn lemma_pool_from_func_text(k: nat)
    ensures
        squeezed(func_text(pool_from_func(k))) == squeezed("(func $"@) + squeezed(
            pool_name("tvm_copy_from_default_p"@, k),
        ) + squeezed(" (export \""@) + squeezed(pool_name("tvm_copy_from_default_p"@, k))
            + squeezed("\")"@) + (declared_word("param"@, "dst_off"@, "i32"@) + declared_word(
            "param"@,
            "src_off"@,
            "i32"@,
        ) + declared_word("param"@, "len"@, "i32"@)) + squeezed("(local $end i32)"@) + squeezed(
            stmt_text(pool_from_code(k)),
        ) + squeezed(")"@),
{
    broadcast use {lemma_squeezed_add, lemma_add_nothing, lemma_nothing_add};

    let f = pool_from_func(k);
    lemma_end_local();
    lemma_declared("param"@, f.params, 3);
    lemma_declared("param"@, f.params, 2);
    lemma_declared("param"@, f.params, 1);
    assert(squeezed(declared_text("param"@, f.params, 0)) == Seq::<char>::empty());
}

proof fn lemma_regroup_start(
    q: Seq<char>,
    a: Seq<char>,
    b: Seq<char>,
    c: Seq<char>,
    l: Seq<char>,
    s: Seq<char>,
    w: Seq<char>,
    y: Seq<char>,
    p1: Seq<char>,
    p2: Seq<char>,
    z: Seq<char>,
)
    ensures
        (q + a + b + c) + l + s + w + y + p1 + p2 + z == q + (a + b + c) + l + s + w + (y + p1 + p2
            + z),
{
    assert((q + a + b + c) + l + s + w + y + p1 + p2 + z =~= q + (a + b + c) + l + s + w + (y + p1
        + p2 + z));
}

proof fn lemma_regroup_pool(
    f: Seq<char>,
    n: Seq<char>,
    d: Seq<char>,
    e: Seq<char>,
    q: Seq<char>,
    p: Seq<char>,
    l: Seq<char>,
    s: Seq<char>,
    w: Seq<char>,
    t: Seq<char>,
    g: Seq<char>,
    h: Seq<char>,
    six: Seq<char>,
    m: Seq<char>,
    z: Seq<char>,
    r: Seq<char>,
    end: Seq<char>,
)
    ensures
        (f + n) + d + (e + n) + d + (q + p + l + s + w + t) + d + g + d + h + d + (six + m) + d + (z
            + (r + end)) == f + (n + d) + e + (n + d) + q + p + l + (s + (w + ((t + d + g + d + h
            + d + six) + (m + d + z + r)))) + end,
{
    assert((f + n) + d + (e + n) + d + (q + p + l + s + w + t) =~= f + (n + d) + e + (n + d) + q + p
        + l + s + w + t);
    let x = f + (n + d) + e + (n + d) + q + p + l;
    assert((x + s + w + t) + d + g + d + h + d + (six + m) + d + (z + (r + end)) =~= x + (s + (w
        + ((t + d + g + d + h + d + six) + (m + d + z + r)))) + end);
}

/// The text of the copy into one pool is that of the function, up to white space.
proof fn lemma_pool_from_text(k: nat)
    ensures
        squeezed(fill(COPY_FROM_DEFAULT@, k)) == squeezed(func_text(pool_from_func(k))),
{
    broadcast use {lemma_squeezed_add, lemma_add_nothing, lemma_nothing_add};

    lemma_blank_literals();
    lemma_wide_blanks();
    lemma_zero_text();
    lemma_fill_copy_from_default(k);
    lemma_fill_grow_pool(k);
    lemma_grow_first();
    lemma_grow_third();
    lemma_grow_words();
    lemma_grow_text(k);
    lemma_from_names();
    lemma_from_pool_parts();
    lemma_from_pool_amount();
    lemma_from_pool_params();
    lemma_from_pool_words();
    lemma_end_words();
    lemma_copy_words();
    lemma_set_end_text();
    lemma_plain_copy_text(k, 0);
    lemma_pool_from_func_text(k);
    let grow = squeezed(stmt_text(grow_stmt(k)));
    let copy = squeezed(stmt_text(plain_copy(k, 0)));
    let last = Stmt::Both(Box::new(grow_stmt(k)), Box::new(plain_copy(k, 0)));
    let rest = Stmt::Both(Box::new(no_wrap()), Box::new(last));
    assert(squeezed(stmt_text(last)) == grow + copy);
    assert(squeezed(stmt_text(rest)) == squeezed(stmt_text(no_wrap())) + (grow + copy));
    assert(squeezed(stmt_text(pool_from_code(k))) == squeezed(stmt_text(set_end())) + (squeezed(
        stmt_text(no_wrap()),
    ) + (grow + copy)));
    let d1 = declared_word("param"@, "dst_off"@, "i32"@);
    let d2 = declared_word("param"@, "src_off"@, "i32"@);
    let d3 = declared_word("param"@, "len"@, "i32"@);
    lemma_regroup_start(
        squeezed("\")"@),
        d1,
        d2,
        d3,
        squeezed("(local $end i32)"@),
        squeezed("(local.set $end (i32.add (local.get $dst_off) (local.get $len)))"@),
        squeezed("(if (i32.lt_u (local.get $end) (local.get $dst_off)) (then unreachable))"@),
        squeezed("(if (i32.gt_u\n          "@),
        squeezed("(i32.add (i32.shr_u (local.get $end) (i32.const 16)) "@),
        squeezed("(i32.ne (i32.and (local.get $end) (i32.const 65535)) (i32.const 0)))"@),
        squeezed("\n          (memory.size "@),
    );
    lemma_regroup_pool(
        squeezed("(func $"@),
        squeezed("tvm_copy_from_default_p"@),
        squeezed(decimal(k)),
        squeezed(" (export \""@),
        squeezed("\")"@),
        d1 + d2 + d3,
        squeezed("(local $end i32)"@),
        squeezed("(local.set $end (i32.add (local.get $dst_off) (local.get $len)))"@),
        squeezed("(if (i32.lt_u (local.get $end) (local.get $dst_off)) (then unreachable))"@),
        squeezed("(if (i32.gt_u\n      (i32.add (i32.shr_u (local.get $end) (i32.const 16)) (i32.ne (i32.and (local.get $end) (i32.const 65535)) (i32.const 0)))\n      (memory.size "@),
        squeezed("))\n  (then\n    (drop\n      (memory.grow "@),
        squeezed("\n        (i32.sub\n          (i32.add (i32.shr_u (local.get $end) (i32.const 16)) (i32.ne (i32.and (local.get $end) (i32.const 65535)) (i32.const 0)))\n          (memory.size "@),
        squeezed("))))))\n"@),
        squeezed("(memory.copy "@),
        squeezed("0"@),
        squeezed(" (local.get $dst_off) (local.get $src_off) (local.get $len))\n"@),
        squeezed(")"@),
    );
}

// ---------------------------------------------------------------------------
// What the copies do
// ---------------------------------------------------------------------------

/// Four arguments.
pub open spec fn args4(a: nat, b: nat, c: nat, d: nat) -> Seq<nat> {
    seq![a, b, c, d]
}

/// What a copy of `len` bytes from one memory to another comes to: the bytes that the
/// source holds stand in the destination afterwards, and everything else is as it was. It
/// traps where either range does not lie inside its memory.
pub open spec fn copy_result(w: World, d: int, s: int, to: nat, from: nat, len: nat) -> Option<
    (World, nat),
> {
    if to + len <= w.mems[d].len() && from + len <= w.mems[s].len() {
        Some(
            (
                World {
                    mems: w.mems.update(
                        d,
                        laid_over(
                            w.mems[d],
                            to as int,
                            w.mems[s].subrange(from as int, (from + len) as int),
                        ),
                    ),
                    ..w
                },
                0nat,
            ),
        )
    } else {
        None
    }
}

proof fn lemma_copy_names()
    ensures
        "src_off"@ != "dst_off"@,
        "len"@ != "dst_off"@,
        "len"@ != "src_off"@,
        "end"@ != "dst_off"@,
        "end"@ != "src_off"@,
        "end"@ != "len"@,
        "end"@ != "dst_pool"@,
        "src_pool"@ != "src_off"@,
        "src_pool"@ != "dst_off"@,
        "src_pool"@ != "len"@,
        "dst_pool"@ != "src_off"@,
        "dst_pool"@ != "dst_off"@,
        "dst_pool"@ != "len"@,
{
    reveal_strlit("src_off");
    reveal_strlit("dst_off");
    reveal_strlit("src_pool");
    reveal_strlit("dst_pool");
    reveal_strlit("len");
    reveal_strlit("end");
    assert("src_off"@[0] != "dst_off"@[0]);
    assert("end"@[0] != "len"@[0]);
    assert("len"@.len() == 3 && "end"@.len() == 3);
    assert("src_off"@.len() == 7 && "dst_off"@.len() == 7);
    assert("src_pool"@.len() == 8 && "dst_pool"@.len() == 8);
}

proof fn lemma_copy_ops(a: nat, b: nat)
    ensures
        computed("i32.lt_u"@, a, b) == Some(truth(a < b)),
        computed("i32.gt_u"@, a, b) == Some(truth(a > b)),
        computed("i32.ne"@, a, b) == Some(truth(a != b)),
        computed("i32.add"@, a, b) == Some((a + b) % 0x1_0000_0000),
        computed("i32.sub"@, a, b) == Some(((a - b) % 0x1_0000_0000) as nat),
        computed("i32.shr_u"@, a, b) == Some((a as u32 >> ((b % 32) as u32)) as nat),
        computed("i32.and"@, a, b) == Some((a as u32 & b as u32) as nat),
{
    reveal_strlit("i32.lt_u");
    reveal_strlit("i32.ge_u");
    reveal_strlit("i32.gt_u");
    reveal_strlit("i32.ne");
    reveal_strlit("i32.add");
    reveal_strlit("i32.sub");
    reveal_strlit("i32.shr_u");
    reveal_strlit("i32.and");
    assert("i32.gt_u"@[4] != "i32.lt_u"@[4]);
    assert("i32.gt_u"@[5] != "i32.ge_u"@[5]);
    assert("i32.ne"@.len() == 6 && "i32.gt_u"@.len() == 8 && "i32.shr_u"@.len() == 9);
    assert("i32.lt_u"@.len() == 8 && "i32.ge_u"@.len() == 8);
    assert("i32.add"@.len() == 7 && "i32.sub"@.len() == 7 && "i32.and"@.len() == 7);
    assert("i32.sub"@[4] != "i32.add"@[4]);
    assert("i32.and"@[5] != "i32.add"@[5]);
    assert("i32.and"@[4] != "i32.sub"@[4]);
}

proof fn lemma_plain_copy_done(
    d: nat,
    s: nat,
    env: Map<Seq<char>, nat>,
    w: World,
    to: nat,
    from: nat,
    len: nat,
)
    requires
        env.contains_key("dst_off"@) && env["dst_off"@] == to,
        env.contains_key("src_off"@) && env["src_off"@] == from,
        env.contains_key("len"@) && env["len"@] == len,
        d < w.mems.len(),
        s < w.mems.len(),
    ensures
        done(plain_copy(d, s), env, w) == (match copy_result(
            w,
            d as int,
            s as int,
            to,
            from,
            len,
        ) {
            Some((w2, _)) => Some((env, w2)),
            None => None,
        }),
{
    assert(value_of(Expr::Get("dst_off"@), env, w) == Some(to));
    assert(value_of(Expr::Get("src_off"@), env, w) == Some(from));
    assert(value_of(Expr::Get("len"@), env, w) == Some(len));
}

/// The number of pages that hold `end` bytes.
pub open spec fn pages_for(end: nat) -> nat {
    (end + 65535) / 65536
}

proof fn lemma_pages_value(env: Map<Seq<char>, nat>, w: World, end: nat)
    requires
        env.contains_key("end"@) && env["end"@] == end,
        end < 0x1_0000_0000,
    ensures
        value_of(pages_expr(), env, w) == Some(pages_for(end)),
{
    let x = end as u32;
    assert(x >> 16u32 == x / 65536) by (bit_vector);
    assert(x & 65535u32 == x % 65536) by (bit_vector);
    lemma_copy_ops(end, 16);
    lemma_copy_ops(end, 65535);
    lemma_copy_ops((x & 65535u32) as nat, 0);
    assert(value_of(Expr::Get("end"@), env, w) == Some(end));
    assert(value_of(Expr::Num(16), env, w) == Some(16nat));
    assert(value_of(Expr::Num(65535), env, w) == Some(65535nat));
    assert(value_of(Expr::Num(0), env, w) == Some(0nat));
    assert((16nat % 32) as u32 == 16u32);
    assert(value_of(half_pages(), env, w) == Some((end / 65536) as nat));
    let a = Expr::Bin("i32.and"@, Box::new(Expr::Get("end"@)), Box::new(Expr::Num(65535)));
    assert(value_of(a, env, w) == Some((end % 65536) as nat));
    assert(value_of(odd_bytes(), env, w) == Some(truth(end % 65536 != 0)));
    lemma_copy_ops((end / 65536) as nat, truth(end % 65536 != 0));
    assert(pages_expr() == Expr::Bin(
        "i32.add"@,
        Box::new(half_pages()),
        Box::new(odd_bytes()),
    ));
}

/// Memories are made of whole pages, and none is larger than it may be.
pub open spec fn in_pages(w: World) -> bool {
    &&& w.max_pages <= 65536
    &&& forall|k: int|
        0 <= k < w.mems.len() ==> (#[trigger] w.mems[k]).len() % 65536 == 0 && w.mems[k].len()
            <= 65536 * w.max_pages
}

/// A memory with zeros behind it, up to the whole pages that hold `end` bytes.
pub open spec fn widened(m: Seq<u8>, end: nat) -> Seq<u8> {
    let want = 65536 * pages_for(end);
    if want > m.len() {
        m + Seq::new((want - m.len()) as nat, |i: int| 0u8)
    } else {
        m
    }
}

proof fn lemma_grow_done(k: nat, env: Map<Seq<char>, nat>, w: World, end: nat)
    requires
        env.contains_key("end"@) && env["end"@] == end,
        end < 0x1_0000_0000,
        k < w.mems.len(),
        in_pages(w),
        pages_for(end) <= w.max_pages,
    ensures
        done(grow_stmt(k), env, w) == Some(
            (
                env,
                World { mems: w.mems.update(k as int, widened(w.mems[k as int], end)), ..w },
            ),
        ),
{
    let m = w.mems[k as int];
    let have = (m.len() / 65536) as nat;
    let need = pages_for(end);
    lemma_pages_value(env, w, end);
    lemma_copy_ops(need, have);
    assert(m.len() == 65536 * have);
    assert(value_of(Expr::Size(k), env, w) == Some(have));
    let test = Expr::Bin("i32.gt_u"@, Box::new(pages_expr()), Box::new(Expr::Size(k)));
    let more = Expr::Bin("i32.sub"@, Box::new(pages_expr()), Box::new(Expr::Size(k)));
    assert(value_of(test, env, w) == Some(truth(need > have)));
    if need > have {
        assert(value_of(more, env, w) == Some((need - have) as nat));
        let zeros = Seq::new(65536 * ((need - have) as nat), |i: int| 0u8);
        assert(65536 * ((need - have) as nat) == 65536 * need - m.len());
        assert(zeros =~= Seq::new((65536 * need - m.len()) as nat, |i: int| 0u8));
        assert(done(Stmt::Grow(k, more), env, w) == Some(
            (env, World { mems: w.mems.update(k as int, m + zeros), ..w }),
        ));
    } else {
        assert(w.mems.update(k as int, m) =~= w.mems);
    }
}

/// The memories after a copy into pool `k`, which grows first.
pub open spec fn copied_in(w: World, k: int, to: nat, from: nat, len: nat) -> Option<(World, nat)> {
    copy_result(
        World { mems: w.mems.update(k, widened(w.mems[k], to + len)), ..w },
        k,
        0,
        to,
        from,
        len,
    )
}

proof fn lemma_copy_tree_done(
    t: Tree,
    to_default: bool,
    env: Map<Seq<char>, nat>,
    w: World,
    pool: u32,
)
    requires
        env.contains_key(copy_param(to_default)),
        env[copy_param(to_default)] == pool,
    ensures
        done(copy_stmt(t, to_default), env, w) == done(
            leaf_stmt(to_default, picked(t, pool) as nat),
            env,
            w,
        ),
    decreases t,
{
    match t {
        Tree::Leaf(k) => {},
        Tree::Node(mid, l, r) => {
            let name = copy_param(to_default);
            lemma_copy_tree_done(*l, to_default, env, w, pool);
            lemma_copy_tree_done(*r, to_default, env, w, pool);
            assert(value_of(Expr::Get(name), env, w) == Some(pool as nat));
            assert(value_of(Expr::Num(mid as nat), env, w) == Some(mid as nat));
            assert(value_of(pool_test(name, mid), env, w) == Some(truth(pool < mid)));
        },
    }
}

/// A copy of a pool into the default memory, over `n` pools.
pub open spec fn copies_out(f: Func, n: u32) -> bool {
    forall|w: World, pool: nat, from: nat, to: nat, len: nat|
        w.mems.len() == n ==> #[trigger] called(f, args4(pool, from, to, len), w) == (if pool < n {
            copy_result(w, 0, pool as int, to, from, len)
        } else {
            None
        })
}

/// A copy of the default memory into a pool, over `n` pools. The pool grows as far as it
/// may; a pool that does not exist, and an end that is no offset, trap.
pub open spec fn copies_in(f: Func, n: u32) -> bool {
    forall|w: World, pool: nat, to: nat, from: nat, len: nat|
        w.mems.len() == n && in_pages(w) && to < 0x1_0000_0000 && len < 0x1_0000_0000 ==> {
            &&& pool >= n || to + len >= 0x1_0000_0000 ==> #[trigger] called(
                f,
                args4(pool, to, from, len),
                w,
            ) is None
            &&& pool < n && to + len < 0x1_0000_0000 && to + len <= 65536 * w.max_pages ==> called(
                f,
                args4(pool, to, from, len),
                w,
            ) == copied_in(w, pool as int, to, from, len)
        }
}

proof fn lemma_copy_to_func(n: u32)
    requires
        n > 0,
    ensures
        copies_out(copy_to_func(n), n),
{
    lemma_copy_names();
    let f = copy_to_func(n);
    assert forall|w: World, pool: nat, from: nat, to: nat, len: nat|
        w.mems.len() == n implies #[trigger] called(f, args4(pool, from, to, len), w) == (if pool
        < n {
        copy_result(w, 0, pool as int, to, from, len)
    } else {
        None
    }) by {
        let args = args4(pool, from, to, len);
        let env = bound(f.params, args, 4);
        reveal_with_fuel(bound, 5);
        assert(env == Map::<Seq<char>, nat>::empty().insert("src_pool"@, pool).insert(
            "src_off"@,
            from,
        ).insert("dst_off"@, to).insert("len"@, len));
        lemma_check_done("src_pool"@, n, env, w);
        if pool < n {
            let t = dispatch_tree(0, n);
            lemma_copy_tree_done(t, true, env, w, pool as u32);
            law_dispatch_picks_pool(0, n, pool as u32);
            lemma_plain_copy_done(0, pool, env, w, to, from, len);
        }
    }
}

/// What the shared part of the copies into a pool comes to.
proof fn lemma_end_done(env: Map<Seq<char>, nat>, w: World, to: nat, len: nat)
    requires
        env.contains_key("dst_off"@) && env["dst_off"@] == to,
        env.contains_key("len"@) && env["len"@] == len,
        to < 0x1_0000_0000,
        len < 0x1_0000_0000,
    ensures
        done(set_end(), env, w) == Some((env.insert("end"@, (to + len) % 0x1_0000_0000), w)),
        ({
            let env2 = env.insert("end"@, (to + len) % 0x1_0000_0000);
            done(no_wrap(), env2, w) == (if to + len >= 0x1_0000_0000 {
                None
            } else {
                Some((env2, w))
            })
        }),
{
    lemma_copy_names();
    lemma_copy_ops(to, len);
    let end = (to + len) % 0x1_0000_0000;
    lemma_copy_ops(end, to);
    let env2 = env.insert("end"@, end);
    assert(value_of(Expr::Get("dst_off"@), env, w) == Some(to));
    assert(value_of(Expr::Get("len"@), env, w) == Some(len));
    assert(value_of(Expr::Get("end"@), env2, w) == Some(end));
    assert(value_of(Expr::Get("dst_off"@), env2, w) == Some(to));
    let less = Expr::Bin("i32.lt_u"@, Box::new(Expr::Get("end"@)), Box::new(Expr::Get("dst_off"@)));
    assert(value_of(less, env2, w) == Some(truth(end < to)));
    assert(done(Stmt::Trap, env2, w) is None);
    let sum = Expr::Bin("i32.add"@, Box::new(Expr::Get("dst_off"@)), Box::new(Expr::Get("len"@)));
    assert(value_of(sum, env, w) == Some(end));
}

proof fn lemma_leaf_done(
    k: nat,
    env: Map<Seq<char>, nat>,
    w: World,
    to: nat,
    from: nat,
    len: nat,
)
    requires
        env.contains_key("dst_off"@) && env["dst_off"@] == to,
        env.contains_key("src_off"@) && env["src_off"@] == from,
        env.contains_key("len"@) && env["len"@] == len,
        env.contains_key("end"@) && env["end"@] == to + len,
        to + len < 0x1_0000_0000,
        to + len <= 65536 * w.max_pages,
        k < w.mems.len(),
        in_pages(w),
    ensures
        done(leaf_stmt(false, k), env, w) == (match copied_in(w, k as int, to, from, len) {
            Some((w2, _)) => Some((env, w2)),
            None => None,
        }),
{
    let w1 = World { mems: w.mems.update(k as int, widened(w.mems[k as int], to + len)), ..w };
    assert(pages_for(to + len) <= w.max_pages);
    lemma_grow_done(k, env, w, to + len);
    lemma_plain_copy_done(k, 0, env, w1, to, from, len);
}

proof fn lemma_copy_from_func(n: u32)
    requires
        n > 0,
    ensures
        copies_in(copy_from_func(n), n),
{
    lemma_copy_names();
    let f = copy_from_func(n);
    let t = dispatch_tree(0, n);
    let rest = Stmt::Both(Box::new(no_wrap()), Box::new(copy_stmt(t, false)));
    let more = Stmt::Both(Box::new(set_end()), Box::new(rest));
    assert forall|w: World, pool: nat, to: nat, from: nat, len: nat|
        w.mems.len() == n && in_pages(w) && to < 0x1_0000_0000 && len < 0x1_0000_0000 implies {
        &&& pool >= n || to + len >= 0x1_0000_0000 ==> #[trigger] called(
            f,
            args4(pool, to, from, len),
            w,
        ) is None
        &&& pool < n && to + len < 0x1_0000_0000 && to + len <= 65536 * w.max_pages ==> called(
            f,
            args4(pool, to, from, len),
            w,
        ) == copied_in(w, pool as int, to, from, len)
    } by {
        let args = args4(pool, to, from, len);
        let env = bound(f.params, args, 4);
        reveal_with_fuel(bound, 5);
        assert(env == Map::<Seq<char>, nat>::empty().insert("dst_pool"@, pool).insert(
            "dst_off"@,
            to,
        ).insert("src_off"@, from).insert("len"@, len));
        lemma_check_done("dst_pool"@, n, env, w);
        if pool < n {
            lemma_end_done(env, w, to, len);
            let env2 = env.insert("end"@, (to + len) % 0x1_0000_0000);
            assert(done(more, env, w) == done(rest, env2, w));
            if to + len < 0x1_0000_0000 {
                assert(done(rest, env2, w) == done(copy_stmt(t, false), env2, w));
                lemma_copy_tree_done(t, false, env2, w, pool as u32);
                law_dispatch_picks_pool(0, n, pool as u32);
                if to + len <= 65536 * w.max_pages {
                    lemma_leaf_done(pool, env2, w, to, from, len);
                }
            }
        }
    }
}

/// The helper of one pool that copies into the default memory.
pub open spec fn copies_pool_out(f: Func, n: u32, k: nat) -> bool {
    forall|w: World, from: nat, to: nat, len: nat|
        w.mems.len() == n ==> #[trigger] called(f, args3(from, to, len), w) == copy_result(
            w,
            0,
            k as int,
            to,
            from,
            len,
        )
}

/// The helper of one pool that copies inside it.
pub open spec fn copies_inside(f: Func, n: u32, k: nat) -> bool {
    forall|w: World, to: nat, from: nat, len: nat|
        w.mems.len() == n ==> #[trigger] called(f, args3(to, from, len), w) == copy_result(
            w,
            k as int,
            k as int,
            to,
            from,
            len,
        )
}

/// The helper of one pool that copies into it.
pub open spec fn copies_pool_in(f: Func, n: u32, k: nat) -> bool {
    forall|w: World, to: nat, from: nat, len: nat|
        w.mems.len() == n && in_pages(w) && to < 0x1_0000_0000 && len < 0x1_0000_0000 ==> {
            &&& to + len >= 0x1_0000_0000 ==> #[trigger] called(f, args3(to, from, len), w) is None
            &&& to + len < 0x1_0000_0000 && to + len <= 65536 * w.max_pages ==> called(
                f,
                args3(to, from, len),
                w,
            ) == copied_in(w, k as int, to, from, len)
        }
}

proof fn lemma_pool_copies(n: u32, k: nat)
    requires
        k < n,
    ensures
        copies_pool_out(
            helper_func(
                pool_name("tvm_copy_to_default_p"@, k),
                "src_off"@,
                "dst_off"@,
                plain_copy(0, k),
            ),
            n,
            k,
        ),
        copies_inside(
            helper_func(
                pool_name("tvm_intra_pool_copy_p"@, k),
                "dst_off"@,
                "src_off"@,
                plain_copy(k, k),
            ),
            n,
            k,
        ),
{
    lemma_copy_names();
    reveal_with_fuel(bound, 4);
    let f = helper_func(
        pool_name("tvm_copy_to_default_p"@, k),
        "src_off"@,
        "dst_off"@,
        plain_copy(0, k),
    );
    assert forall|w: World, from: nat, to: nat, len: nat| w.mems.len() == n implies #[trigger] called(
        f,
        args3(from, to, len),
        w,
    ) == copy_result(w, 0, k as int, to, from, len) by {
        let env = bound(f.params, args3(from, to, len), 3);
        assert(env == Map::<Seq<char>, nat>::empty().insert("src_off"@, from).insert(
            "dst_off"@,
            to,
        ).insert("len"@, len));
        lemma_plain_copy_done(0, k, env, w, to, from, len);
    }
    let g = helper_func(
        pool_name("tvm_intra_pool_copy_p"@, k),
        "dst_off"@,
        "src_off"@,
        plain_copy(k, k),
    );
    assert forall|w: World, to: nat, from: nat, len: nat| w.mems.len() == n implies #[trigger] called(
        g,
        args3(to, from, len),
        w,
    ) == copy_result(w, k as int, k as int, to, from, len) by {
        let env = bound(g.params, args3(to, from, len), 3);
        assert(env == Map::<Seq<char>, nat>::empty().insert("dst_off"@, to).insert(
            "src_off"@,
            from,
        ).insert("len"@, len));
        lemma_plain_copy_done(k, k, env, w, to, from, len);
    }
}

proof fn lemma_pool_from_call(n: u32, k: nat, w: World, to: nat, from: nat, len: nat)
    requires
        k < n,
        w.mems.len() == n,
        in_pages(w),
        to < 0x1_0000_0000,
        len < 0x1_0000_0000,
    ensures
        to + len >= 0x1_0000_0000 ==> called(pool_from_func(k), args3(to, from, len), w) is None,
        to + len < 0x1_0000_0000 && to + len <= 65536 * w.max_pages ==> called(
            pool_from_func(k),
            args3(to, from, len),
            w,
        ) == copied_in(w, k as int, to, from, len),
{
    lemma_copy_names();
    let f = pool_from_func(k);
    let rest = Stmt::Both(Box::new(no_wrap()), Box::new(leaf_stmt(false, k)));
    assert(pool_from_code(k) == Stmt::Both(Box::new(set_end()), Box::new(rest)));
    let env = bound(f.params, args3(to, from, len), 3);
    assert(env == Map::<Seq<char>, nat>::empty().insert("dst_off"@, to).insert(
        "src_off"@,
        from,
    ).insert("len"@, len)) by {
        reveal_with_fuel(bound, 4);
    }
    lemma_end_done(env, w, to, len);
    let env2 = env.insert("end"@, (to + len) % 0x1_0000_0000);
    assert(done(pool_from_code(k), env, w) == done(rest, env2, w));
    if to + len < 0x1_0000_0000 {
        assert(done(rest, env2, w) == done(leaf_stmt(false, k), env2, w));
        if to + len <= 65536 * w.max_pages {
            lemma_leaf_done(k, env2, w, to, from, len);
        }
    }
}

proof fn lemma_pool_from_func(n: u32, k: nat)
    requires
        k < n,
    ensures
        copies_pool_in(pool_from_func(k), n, k),
{
    assert forall|w: World, to: nat, from: nat, len: nat|
        w.mems.len() == n && in_pages(w) && to < 0x1_0000_0000 && len < 0x1_0000_0000 implies {
        &&& to + len >= 0x1_0000_0000 ==> #[trigger] called(
            pool_from_func(k),
            args3(to, from, len),
            w,
        ) is None
        &&& to + len < 0x1_0000_0000 && to + len <= 65536 * w.max_pages ==> called(
            pool_from_func(k),
            args3(to, from, len),
            w,
        ) == copied_in(w, k as int, to, from, len)
    } by {
        lemma_pool_from_call(n, k, w, to, from, len);
    }
}

/// The text has a function of this name that copies a pool into the default memory.
pub open spec fn has_copy_out(text: Seq<char>, n: u32) -> bool {
    exists|f: Func|
        f.name == "tvm_copy_to_default"@ && #[trigger] offers(text, f) && copies_out(f, n)
}

/// The text has a function of this name that copies the default memory into a pool.
pub open spec fn has_copy_in(text: Seq<char>, n: u32) -> bool {
    exists|f: Func|
        f.name == "tvm_copy_from_default"@ && #[trigger] offers(text, f) && copies_in(f, n)
}

/// The text has the copies of pool `k`.
pub open spec fn has_pool_copies(text: Seq<char>, n: u32, k: nat) -> bool {
    &&& exists|f: Func|
        f.name == pool_name("tvm_copy_to_default_p"@, k) && #[trigger] offers(text, f)
            && copies_pool_out(f, n, k)
    &&& exists|f: Func|
        f.name == pool_name("tvm_copy_from_default_p"@, k) && #[trigger] offers(text, f)
            && copies_pool_in(f, n, k)
}

/// The text has the copy inside pool `k`.
pub open spec fn has_copy_inside(text: Seq<char>, n: u32, k: nat) -> bool {
    exists|f: Func|
        f.name == pool_name("tvm_intra_pool_copy_p"@, k) && #[trigger] offers(text, f)
            && copies_inside(f, n, k)
}

proof fn lemma_in_copy_helpers(n: int, k: int, f: Func)
    requires
        0 <= k < n,
        offers(fill(COPY_TO_DEFAULT@, k as nat), f) || offers(
            fill(COPY_FROM_DEFAULT@, k as nat),
            f,
        ),
    ensures
        offers(copy_helpers_text(n), f),
    decreases n,
{
    let before = copy_helpers_text(n - 1);
    let a = fill(COPY_TO_DEFAULT@, (n - 1) as nat);
    let b = fill(COPY_FROM_DEFAULT@, (n - 1) as nat);
    if k < n - 1 {
        lemma_in_copy_helpers(n - 1, k, f);
        lemma_offers_left(before, a, f);
        lemma_offers_left(before + a, b, f);
    } else if offers(a, f) {
        lemma_offers_right(before, a, f);
        lemma_offers_left(before + a, b, f);
    } else {
        lemma_offers_right(before + a, b, f);
    }
}

proof fn lemma_in_per_pool(template: Seq<char>, n: int, k: int, f: Func)
    requires
        0 <= k < n,
        offers(fill(template, k as nat), f),
    ensures
        offers(per_pool(template, n), f),
    decreases n,
{
    let before = per_pool(template, n - 1);
    let a = fill(template, (n - 1) as nat);
    if k < n - 1 {
        lemma_in_per_pool(template, n - 1, k, f);
        lemma_offers_left(before, a, f);
    } else {
        lemma_offers_right(before, a, f);
    }
}

/// The copies stand last among the dispatchers.
proof fn lemma_copies_in_dispatchers(out: Seq<char>, n: u32, f: Func)
    requires
        offers(copy_to_dispatcher(n), f) || offers(copy_from_dispatcher(n), f) || offers(
            copy_helpers_text(n as int),
            f,
        ),
    ensures
        offers(with_dispatchers(out, n), f),
{
    let all = out + load_dispatcher("tvm_load_u8"@, "i32.load8_u"@, "i32"@, n) + load_dispatcher(
        "tvm_load_u32"@,
        "i32.load"@,
        "i32"@,
        n,
    ) + load_dispatcher("tvm_load_i64"@, "i64.load"@, "i64"@, n) + store_dispatcher(
        "tvm_store_u8"@,
        "i32.store8"@,
        "i32"@,
        n,
    ) + store_dispatcher("tvm_store_u32"@, "i32.store"@, "i32"@, n) + store_dispatcher(
        "tvm_store_i64"@,
        "i64.store"@,
        "i64"@,
        n,
    );
    let a = copy_to_dispatcher(n);
    let b = copy_from_dispatcher(n);
    let c = copy_helpers_text(n as int);
    if offers(c, f) {
        lemma_offers_right(all + a + b, c, f);
    } else {
        if offers(b, f) {
            lemma_offers_right(all + a, b, f);
        } else {
            lemma_offers_right(all, a, f);
            lemma_offers_left(all + a, b, f);
        }
        lemma_offers_left(all + a + b, c, f);
    }
}

/// Every generated module has the copies between its pools and the default memory, by pool
/// number and for each pool, and they move just the bytes asked for. Copies into a pool
/// make it grow, up to the pages that it may have.
pub proof fn law_module_copies(p: ModuleParams, spilling: bool, k: nat)
    requires
        k < p.n_pools,
    ensures
        has_copy_out(shell_text(p, spilling), p.n_pools),
        has_copy_in(shell_text(p, spilling), p.n_pools),
        has_pool_copies(shell_text(p, spilling), p.n_pools, k),
        has_copy_inside(module_text(p), p.n_pools, k),
{
    let n = p.n_pools;
    assert(has_copy_out(shell_text(p, spilling), n)) by {
        let f = copy_to_func(n);
        lemma_copy_to_func(n);
        lemma_copy_to_text(n);
        lemma_offers_itself(copy_to_dispatcher(n), f);
        assert forall|out: Seq<char>| #[trigger] offers(with_dispatchers(out, n), f) by {
            lemma_copies_in_dispatchers(out, n, f);
        }
        lemma_dispatchers_in_module(p, spilling, f);
    }
    assert(has_copy_in(shell_text(p, spilling), n)) by {
        let f = copy_from_func(n);
        lemma_copy_from_func(n);
        lemma_copy_from_text(n);
        lemma_offers_itself(copy_from_dispatcher(n), f);
        assert forall|out: Seq<char>| #[trigger] offers(with_dispatchers(out, n), f) by {
            lemma_copies_in_dispatchers(out, n, f);
        }
        lemma_dispatchers_in_module(p, spilling, f);
    }
    assert(has_pool_copies(shell_text(p, spilling), n, k)) by {
        let f = helper_func(
            pool_name("tvm_copy_to_default_p"@, k),
            "src_off"@,
            "dst_off"@,
            plain_copy(0, k),
        );
        lemma_pool_copies(n, k);
        lemma_to_default_text(k);
        lemma_offers_itself(fill(COPY_TO_DEFAULT@, k), f);
        lemma_in_copy_helpers(n as int, k as int, f);
        assert forall|out: Seq<char>| #[trigger] offers(with_dispatchers(out, n), f) by {
            lemma_copies_in_dispatchers(out, n, f);
        }
        lemma_dispatchers_in_module(p, spilling, f);
        let g = pool_from_func(k);
        lemma_pool_from_func(n, k);
        lemma_pool_from_text(k);
        lemma_offers_itself(fill(COPY_FROM_DEFAULT@, k), g);
        lemma_in_copy_helpers(n as int, k as int, g);
        assert forall|out: Seq<char>| #[trigger] offers(with_dispatchers(out, n), g) by {
            lemma_copies_in_dispatchers(out, n, g);
        }
        lemma_dispatchers_in_module(p, spilling, g);
    }
    assert(has_copy_inside(module_text(p), n, k)) by {
        let f = helper_func(
            pool_name("tvm_intra_pool_copy_p"@, k),
            "dst_off"@,
            "src_off"@,
            plain_copy(k, k),
        );
        lemma_pool_copies(n, k);
        lemma_intra_text(k);
        lemma_offers_itself(fill(INTRA_POOL_COPY@, k), f);
        lemma_in_per_pool(INTRA_POOL_COPY@, n as int, k as int, f);
        lemma_intra_in_module(p, f);
    }
}

proof fn lemma_intra_in_module(p: ModuleParams, f: Func)
    requires
        offers(per_pool(INTRA_POOL_COPY@, p.n_pools as int), f),
    ensures
        offers(module_text(p), f),
{
    let n = p.n_pools;
    let out = with_memories(
        "(module\n"@,
        p.initial_pages_per_pool,
        p.max_pages_per_pool,
        n as int,
    ) + "\n"@;
    let b = with_dispatchers(out, n) + typed_helpers_text(n as int);
    let c = b + per_pool(INTRA_POOL_COPY@, n as int);
    let d = c + indirect_text(n);
    let e = d + per_pool(SIMD_SUM_U8@, n as int);
    lemma_offers_right(b, per_pool(INTRA_POOL_COPY@, n as int), f);
    lemma_offers_left(c, indirect_text(n), f);
    lemma_offers_left(d, per_pool(SIMD_SUM_U8@, n as int), f);
    lemma_offers_left(e, reducers_text(n as int), f);
    lemma_offers_in_body(e + reducers_text(n as int), p.user_body@, f);
}

/// What a copy that succeeds does, byte by byte: the destination holds what the source
/// held before, every other byte of every memory is what it was.
pub proof fn law_copy_result_moves_bytes(
    w: World,
    d: int,
    s: int,
    to: nat,
    from: nat,
    len: nat,
    after: World,
    r: nat,
    k: int,
    b: int,
)
    requires
        0 <= d < w.mems.len(),
        0 <= s < w.mems.len(),
        copy_result(w, d, s, to, from, len) == Some((after, r)),
        0 <= k < w.mems.len(),
        0 <= b < w.mems[k].len(),
    ensures
        after.mems.len() == w.mems.len(),
        after.mems[k].len() == w.mems[k].len(),
        k == d && to <= b < to + len ==> after.mems[k][b] == w.mems[s][from + (b - to)],
        k != d || b < to || b >= to + len ==> after.mems[k][b] == w.mems[k][b],
{
}

/// A copy into a pool succeeds wherever the source lies inside the default memory and
/// the end inside what the pool may have: the pool grows to hold it, the copied bytes stand
/// in it, what it held stays, and what is new is zero.
pub proof fn law_copied_in_grows(w: World, k: int, to: nat, from: nat, len: nat, b: int)
    requires
        in_pages(w),
        0 <= k < w.mems.len(),
        to + len <= 65536 * w.max_pages,
        from + len <= w.mems[0].len(),
    ensures
        copied_in(w, k, to, from, len) is Some,
        ({
            let after = (copied_in(w, k, to, from, len)->0).0;
            let m = after.mems[k];
            &&& m.len() >= to + len
            &&& m.len() >= w.mems[k].len()
            &&& m.len() <= 65536 * w.max_pages
            &&& 0 <= b < m.len() ==> m[b] == (if to <= b < to + len {
                w.mems[0][from + (b - to)]
            } else if b < w.mems[k].len() {
                w.mems[k][b]
            } else {
                0u8
            })
            &&& forall|o: int|
                0 <= o < w.mems.len() && o != k ==> #[trigger] after.mems[o] == w.mems[o]
        }),
{
    let end = to + len;
    let wide = widened(w.mems[k], end);
    assert(pages_for(end) <= w.max_pages);
    assert(65536 * pages_for(end) <= 65536 * w.max_pages) by (nonlinear_arith)
        requires
            pages_for(end) <= w.max_pages,
    ;
    assert(65536 * pages_for(end) >= end);
    let w1 = World { mems: w.mems.update(k, wide), ..w };
    assert(w1.mems[0].len() >= w.mems[0].len());
    assert(forall|i: int| 0 <= i < w.mems[0].len() ==> w1.mems[0][i] == w.mems[0][i]);
}

} // verus!
