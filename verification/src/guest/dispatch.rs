//! The functions that pick a memory by number. The memory of a load or store is
//! fixed in the instruction, so a run-time pool number is looked up in a
//! balanced tree of comparisons whose leaves name the memories.
use vstd::prelude::*;
use vstd::arithmetic::power2::pow2;
use crate::text::{decimal, push_decimal};
use super::kernels::{COPY_FROM_DEFAULT, COPY_TO_DEFAULT, INDIRECT_LOADS, INTRA_POOL_COPY, LOAD_I64, LOAD_U32, LOAD_U8, SIMD_AND_FOLD, SIMD_COUNT_BYTE, SIMD_FIND_BYTE, SIMD_MIN_MAX, SIMD_OR_FOLD, SIMD_POPCOUNT, SIMD_SUM_U8, SIMD_XOR_FOLD, STORE_I64, STORE_U32, STORE_U8};
use super::wat::{fill, indent_into, indented, push_filled};

verus! {

// ---------------------------------------------------------------------------
// The dispatch tree
// ---------------------------------------------------------------------------

/// A tree of comparisons: below the bound go left, else right.
pub enum Tree {
    Leaf(u32),
    Node(u32, Box<Tree>, Box<Tree>),
}

/// The balanced tree over the pools from `lo` up to `hi`.
pub open spec fn dispatch_tree(lo: u32, hi: u32) -> Tree
    decreases hi - lo,
{
    if hi <= lo + 1 {
        Tree::Leaf(lo)
    } else {
        let mid = (lo + (hi - lo) / 2) as u32;
        Tree::Node(mid, Box::new(dispatch_tree(lo, mid)), Box::new(dispatch_tree(mid, hi)))
    }
}

/// The memory that the tree picks for a pool number.
pub open spec fn picked(t: Tree, pool: u32) -> u32
    decreases t,
{
    match t {
        Tree::Leaf(k) => k,
        Tree::Node(mid, l, r) => if pool < mid {
            picked(*l, pool)
        } else {
            picked(*r, pool)
        },
    }
}

/// How many comparisons the tree holds.
pub open spec fn comparisons(t: Tree) -> nat
    decreases t,
{
    match t {
        Tree::Leaf(_) => 0,
        Tree::Node(_, l, r) => 1 + comparisons(*l) + comparisons(*r),
    }
}

/// How many comparisons one lookup takes at most.
pub open spec fn depth(t: Tree) -> nat
    decreases t,
{
    match t {
        Tree::Leaf(_) => 0,
        Tree::Node(_, l, r) => 1 + (if depth(*l) >= depth(*r) {
            depth(*l)
        } else {
            depth(*r)
        }),
    }
}

/// The tree picks exactly the memory that was asked for.
pub proof fn law_dispatch_picks_pool(lo: u32, hi: u32, pool: u32)
    requires
        lo <= pool < hi,
    ensures
        picked(dispatch_tree(lo, hi), pool) == pool,
    decreases hi - lo,
{
    if hi > lo + 1 {
        let mid = (lo + (hi - lo) / 2) as u32;
        if pool < mid {
            law_dispatch_picks_pool(lo, mid, pool);
        } else {
            law_dispatch_picks_pool(mid, hi, pool);
        }
    }
}

/// A tree over `n` pools holds `n - 1` comparisons.
pub proof fn law_dispatch_comparisons(lo: u32, hi: u32)
    requires
        lo < hi,
    ensures
        comparisons(dispatch_tree(lo, hi)) == hi - lo - 1,
    decreases hi - lo,
{
    if hi > lo + 1 {
        let mid = (lo + (hi - lo) / 2) as u32;
        law_dispatch_comparisons(lo, mid);
        law_dispatch_comparisons(mid, hi);
    }
}

/// One lookup among at most 2^d pools takes at most d comparisons.
pub proof fn law_dispatch_depth(lo: u32, hi: u32, d: nat)
    requires
        lo < hi,
        hi - lo <= pow2(d),
    ensures
        depth(dispatch_tree(lo, hi)) <= d,
    decreases hi - lo,
{
    if hi > lo + 1 {
        let mid = (lo + (hi - lo) / 2) as u32;
        if d == 0 {
            vstd::arithmetic::power2::lemma2_to64();
        } else {
            vstd::arithmetic::power2::lemma_pow2_unfold(d);
            let e = (d - 1) as nat;
            law_dispatch_depth(lo, mid, e);
            law_dispatch_depth(mid, hi, e);
        }
    }
}

// ---------------------------------------------------------------------------
// The tree as text
// ---------------------------------------------------------------------------

/// The text of a tree whose leaves load.
pub open spec fn load_text(t: Tree, op: Seq<char>, ty: Seq<char>) -> Seq<char>
    decreases t,
{
    match t {
        Tree::Leaf(k) => "("@ + op + " "@ + decimal(k as nat) + " (local.get $off))\n"@,
        Tree::Node(mid, l, r) => "(if (result "@ + ty
            + ") (i32.lt_u (local.get $pool) (i32.const "@ + decimal(mid as nat) + "))\n"@
            + "  (then "@ + indented(load_text(*l, op, ty), 4) + "  )\n  (else "@ + indented(
            load_text(*r, op, ty),
            4,
        ) + "  ))\n"@,
    }
}

/// The text of a tree whose leaves store.
pub open spec fn store_text(t: Tree, op: Seq<char>) -> Seq<char>
    decreases t,
{
    match t {
        Tree::Leaf(k) => "("@ + op + " "@ + decimal(k as nat)
            + " (local.get $off) (local.get $val))\n"@,
        Tree::Node(mid, l, r) => "(if (i32.lt_u (local.get $pool) (i32.const "@ + decimal(
            mid as nat,
        ) + "))\n"@ + "  (then "@ + indented(store_text(*l, op), 4) + "  )\n  (else "@ + indented(
            store_text(*r, op),
            4,
        ) + "  ))\n"@,
    }
}

/// The text that grows pool `@` to hold `$end` bytes.
pub const GROW_POOL: &'static str = r#"(if (i32.gt_u
      (i32.add (i32.shr_u (local.get $end) (i32.const 16)) (i32.ne (i32.and (local.get $end) (i32.const 65535)) (i32.const 0)))
      (memory.size @))
  (then
    (drop
      (memory.grow @
        (i32.sub
          (i32.add (i32.shr_u (local.get $end) (i32.const 16)) (i32.ne (i32.and (local.get $end) (i32.const 65535)) (i32.const 0)))
          (memory.size @))))))
"#;

/// The text of one copy: into the default memory, or from it into a pool that
/// grows first.
pub open spec fn copy_leaf(to_default: bool, k: u32) -> Seq<char> {
    if to_default {
        "(memory.copy 0 "@ + decimal(k as nat)
            + " (local.get $dst_off) (local.get $src_off) (local.get $len))\n"@
    } else {
        fill(GROW_POOL@, k as nat) + "(memory.copy "@ + decimal(k as nat)
            + " 0 (local.get $dst_off) (local.get $src_off) (local.get $len))\n"@
    }
}

/// The name of the parameter that holds the pool of a copy.
pub open spec fn copy_param(to_default: bool) -> Seq<char> {
    if to_default {
        "src_pool"@
    } else {
        "dst_pool"@
    }
}

/// The text of a tree whose leaves copy.
pub open spec fn copy_text(t: Tree, to_default: bool) -> Seq<char>
    decreases t,
{
    match t {
        Tree::Leaf(k) => copy_leaf(to_default, k),
        Tree::Node(mid, l, r) => "(if (i32.lt_u (local.get $"@ + copy_param(to_default)
            + ") (i32.const "@ + decimal(mid as nat) + "))\n"@ + "  (then "@ + indented(
            copy_text(*l, to_default),
            4,
        ) + "  )\n  (else "@ + indented(copy_text(*r, to_default), 4) + "  ))\n"@,
    }
}

fn build_load_bst(op: &str, ty: &str, lo: u32, hi: u32) -> (r: String)
    requires
        lo < hi,
    ensures
        r@ == load_text(dispatch_tree(lo, hi), op@, ty@),
    decreases hi - lo,
{
    if hi - lo == 1 {
        let mut s = "(".to_owned();
        s.append(op);
        s.append(" ");
        push_decimal(&mut s, lo as u64);
        s.append(" (local.get $off))\n");
        return s;
    }
    let mid: u32 = lo + (hi - lo) / 2;
    let left = build_load_bst(op, ty, lo, mid);
    let right = build_load_bst(op, ty, mid, hi);
    let mut s = "(if (result ".to_owned();
    s.append(ty);
    s.append(") (i32.lt_u (local.get $pool) (i32.const ");
    push_decimal(&mut s, mid as u64);
    s.append("))\n");
    s.append("  (then ");
    indent_into(&mut s, left.as_str(), 4);
    s.append("  )\n  (else ");
    indent_into(&mut s, right.as_str(), 4);
    s.append("  ))\n");
    s
}

fn build_store_bst(op: &str, lo: u32, hi: u32) -> (r: String)
    requires
        lo < hi,
    ensures
        r@ == store_text(dispatch_tree(lo, hi), op@),
    decreases hi - lo,
{
    if hi - lo == 1 {
        let mut s = "(".to_owned();
        s.append(op);
        s.append(" ");
        push_decimal(&mut s, lo as u64);
        s.append(" (local.get $off) (local.get $val))\n");
        return s;
    }
    let mid: u32 = lo + (hi - lo) / 2;
    let left = build_store_bst(op, lo, mid);
    let right = build_store_bst(op, mid, hi);
    let mut s = "(if (i32.lt_u (local.get $pool) (i32.const ".to_owned();
    push_decimal(&mut s, mid as u64);
    s.append("))\n");
    s.append("  (then ");
    indent_into(&mut s, left.as_str(), 4);
    s.append("  )\n  (else ");
    indent_into(&mut s, right.as_str(), 4);
    s.append("  ))\n");
    s
}

fn build_copy_bst(to_default: bool, lo: u32, hi: u32) -> (r: String)
    requires
        lo < hi,
    ensures
        r@ == copy_text(dispatch_tree(lo, hi), to_default),
    decreases hi - lo,
{
    if hi - lo == 1 {
        if to_default {
            let mut s = "(memory.copy 0 ".to_owned();
            push_decimal(&mut s, lo as u64);
            s.append(" (local.get $dst_off) (local.get $src_off) (local.get $len))\n");
            return s;
        }
        let mut s = String::new();
        push_filled(&mut s, GROW_POOL, lo);
        assert(s@ =~= fill(GROW_POOL@, lo as nat));
        s.append("(memory.copy ");
        push_decimal(&mut s, lo as u64);
        s.append(" 0 (local.get $dst_off) (local.get $src_off) (local.get $len))\n");
        return s;
    }
    let mid: u32 = lo + (hi - lo) / 2;
    let left = build_copy_bst(to_default, lo, mid);
    let right = build_copy_bst(to_default, mid, hi);
    let mut s = "(if (i32.lt_u (local.get $".to_owned();
    s.append(
        if to_default {
            "src_pool"
        } else {
            "dst_pool"
        },
    );
    s.append(") (i32.const ");
    push_decimal(&mut s, mid as u64);
    s.append("))\n");
    s.append("  (then ");
    indent_into(&mut s, left.as_str(), 4);
    s.append("  )\n  (else ");
    indent_into(&mut s, right.as_str(), 4);
    s.append("  ))\n");
    s
}

// ---------------------------------------------------------------------------
// Dispatchers
// ---------------------------------------------------------------------------

/// The text of a load that takes the pool at run time: it traps on a pool that
/// does not exist, then looks the memory up.
pub open spec fn load_dispatcher(name: Seq<char>, op: Seq<char>, ty: Seq<char>, n: u32) -> Seq<
    char,
> {
    "  (func $"@ + name + " (export \""@ + name
        + "\") (param $pool i32) (param $off i32) (result "@ + ty + ")\n"@
        + "    (if (i32.ge_u (local.get $pool) (i32.const "@ + decimal(n as nat)
        + ")) (then unreachable))\n"@ + indented(load_text(dispatch_tree(0, n), op, ty), 4)
        + "  )\n"@
}

/// The dispatcher for a load.
pub fn emit_load_dispatcher(func_name: &str, op_name: &str, result_ty: &str, n_pools: u32) -> (r:
    String)
    requires
        n_pools > 0,
    ensures
        r@ == load_dispatcher(func_name@, op_name@, result_ty@, n_pools),
{
    let mut s = "  (func $".to_owned();
    s.append(func_name);
    s.append(" (export \"");
    s.append(func_name);
    s.append("\") (param $pool i32) (param $off i32) (result ");
    s.append(result_ty);
    s.append(")\n");
    s.append("    (if (i32.ge_u (local.get $pool) (i32.const ");
    push_decimal(&mut s, n_pools as u64);
    s.append(")) (then unreachable))\n");
    let body = build_load_bst(op_name, result_ty, 0, n_pools);
    indent_into(&mut s, body.as_str(), 4);
    s.append("  )\n");
    s
}

/// The text of a store that takes the pool at run time.
pub open spec fn store_dispatcher(name: Seq<char>, op: Seq<char>, ty: Seq<char>, n: u32) -> Seq<
    char,
> {
    "  (func $"@ + name + " (export \""@ + name
        + "\") (param $pool i32) (param $off i32) (param $val "@ + ty + ")\n"@
        + "    (if (i32.ge_u (local.get $pool) (i32.const "@ + decimal(n as nat)
        + ")) (then unreachable))\n"@ + indented(store_text(dispatch_tree(0, n), op), 4) + "  )\n"@
}

/// The dispatcher for a store.
pub fn emit_store_dispatcher(func_name: &str, op_name: &str, value_ty: &str, n_pools: u32) -> (r:
    String)
    requires
        n_pools > 0,
    ensures
        r@ == store_dispatcher(func_name@, op_name@, value_ty@, n_pools),
{
    let mut s = "  (func $".to_owned();
    s.append(func_name);
    s.append(" (export \"");
    s.append(func_name);
    s.append("\") (param $pool i32) (param $off i32) (param $val ");
    s.append(value_ty);
    s.append(")\n");
    s.append("    (if (i32.ge_u (local.get $pool) (i32.const ");
    push_decimal(&mut s, n_pools as u64);
    s.append(")) (then unreachable))\n");
    let body = build_store_bst(op_name, 0, n_pools);
    indent_into(&mut s, body.as_str(), 4);
    s.append("  )\n");
    s
}

/// The head of the copy into the default memory.
pub const COPY_TO_HEAD: &'static str = r#"  (func $tvm_copy_to_default (export "tvm_copy_to_default")
        (param $src_pool i32) (param $src_off i32) (param $dst_off i32) (param $len i32)
    (if (i32.ge_u (local.get $src_pool) (i32.const @)) (then unreachable))
"#;

/// The head of the copy from the default memory.
pub const COPY_FROM_HEAD: &'static str = r#"  (func $tvm_copy_from_default (export "tvm_copy_from_default")
        (param $dst_pool i32) (param $dst_off i32) (param $src_off i32) (param $len i32)
        (local $end i32)
    (if (i32.ge_u (local.get $dst_pool) (i32.const @)) (then unreachable))
    (local.set $end (i32.add (local.get $dst_off) (local.get $len)))
(if (i32.lt_u (local.get $end) (local.get $dst_off)) (then unreachable))
"#;

/// The text of the copy from a pool into the default memory.
pub open spec fn copy_to_dispatcher(n: u32) -> Seq<char> {
    fill(COPY_TO_HEAD@, n as nat) + indented(copy_text(dispatch_tree(0, n), true), 4) + "  )\n"@
}

/// The copy from a pool into the default memory.
pub fn emit_bulk_copy_dispatcher(n_pools: u32) -> (r: String)
    requires
        n_pools > 0,
    ensures
        r@ == copy_to_dispatcher(n_pools),
{
    let mut s = String::new();
    push_filled(&mut s, COPY_TO_HEAD, n_pools);
    assert(s@ =~= fill(COPY_TO_HEAD@, n_pools as nat));
    let body = build_copy_bst(true, 0, n_pools);
    indent_into(&mut s, body.as_str(), 4);
    s.append("  )\n");
    s
}

/// The text of the copy from the default memory into a pool, which grows as needed.
pub open spec fn copy_from_dispatcher(n: u32) -> Seq<char> {
    fill(COPY_FROM_HEAD@, n as nat) + indented(copy_text(dispatch_tree(0, n), false), 4) + "  )\n"@
}

/// The copy from the default memory into a pool.
pub fn emit_bulk_copy_from_default_dispatcher(n_pools: u32) -> (r: String)
    requires
        n_pools > 0,
    ensures
        r@ == copy_from_dispatcher(n_pools),
{
    let mut s = String::new();
    push_filled(&mut s, COPY_FROM_HEAD, n_pools);
    assert(s@ =~= fill(COPY_FROM_HEAD@, n_pools as nat));
    let body = build_copy_bst(false, 0, n_pools);
    indent_into(&mut s, body.as_str(), 4);
    s.append("  )\n");
    s
}

// ---------------------------------------------------------------------------
// Helpers that exist once per pool
// ---------------------------------------------------------------------------

/// The text of one helper for each of the first `n` pools.
pub open spec fn per_pool(template: Seq<char>, n: int) -> Seq<char>
    decreases n,
{
    if n <= 0 {
        Seq::empty()
    } else {
        per_pool(template, n - 1) + fill(template, (n - 1) as nat)
    }
}

fn emit_per_pool(template: &str, n_pools: u32) -> (r: String)
    ensures
        r@ == per_pool(template@, n_pools as int),
{
    let mut s = String::new();
    let mut k: u32 = 0;
    while k < n_pools
        invariant
            k <= n_pools,
            s@ == per_pool(template@, k as int),
        decreases n_pools - k,
    {
        push_filled(&mut s, template, k);
        k += 1;
    }
    s
}

/// The SIMD sum of every pool.
pub fn emit_specialized_simd_kernels(n_pools: u32) -> (r: String)
    ensures
        r@ == per_pool(SIMD_SUM_U8@, n_pools as int),
{
    emit_per_pool(SIMD_SUM_U8, n_pools)
}

/// The text of the SIMD reducers of the first `n` pools.
pub open spec fn reducers_text(n: int) -> Seq<char>
    decreases n,
{
    if n <= 0 {
        Seq::empty()
    } else {
        let k = (n - 1) as nat;
        reducers_text(n - 1) + fill(SIMD_XOR_FOLD@, k) + fill(SIMD_AND_FOLD@, k) + fill(
            SIMD_OR_FOLD@,
            k,
        ) + fill(SIMD_COUNT_BYTE@, k) + fill(SIMD_POPCOUNT@, k) + fill(SIMD_FIND_BYTE@, k) + fill(
            SIMD_MIN_MAX@,
            k,
        )
    }
}

/// The SIMD reducers of every pool.
pub fn emit_specialized_simd_reducers(n_pools: u32) -> (r: String)
    ensures
        r@ == reducers_text(n_pools as int),
{
    let mut s = String::new();
    let mut k: u32 = 0;
    while k < n_pools
        invariant
            k <= n_pools,
            s@ == reducers_text(k as int),
        decreases n_pools - k,
    {
        push_filled(&mut s, SIMD_XOR_FOLD, k);
        push_filled(&mut s, SIMD_AND_FOLD, k);
        push_filled(&mut s, SIMD_OR_FOLD, k);
        push_filled(&mut s, SIMD_COUNT_BYTE, k);
        push_filled(&mut s, SIMD_POPCOUNT, k);
        push_filled(&mut s, SIMD_FIND_BYTE, k);
        push_filled(&mut s, SIMD_MIN_MAX, k);
        k += 1;
    }
    s
}

/// The text of the copy helpers of the first `n` pools.
pub open spec fn copy_helpers_text(n: int) -> Seq<char>
    decreases n,
{
    if n <= 0 {
        Seq::empty()
    } else {
        copy_helpers_text(n - 1) + fill(COPY_TO_DEFAULT@, (n - 1) as nat) + fill(
            COPY_FROM_DEFAULT@,
            (n - 1) as nat,
        )
    }
}

/// The copy helpers of every pool: no lookup, one copy.
pub fn emit_specialized_copy_helpers(n_pools: u32) -> (r: String)
    ensures
        r@ == copy_helpers_text(n_pools as int),
{
    let mut s = String::new();
    let mut k: u32 = 0;
    while k < n_pools
        invariant
            k <= n_pools,
            s@ == copy_helpers_text(k as int),
        decreases n_pools - k,
    {
        push_filled(&mut s, COPY_TO_DEFAULT, k);
        push_filled(&mut s, COPY_FROM_DEFAULT, k);
        k += 1;
    }
    s
}

/// The copies inside every pool.
pub fn emit_specialized_intra_pool_copy(n_pools: u32) -> (r: String)
    ensures
        r@ == per_pool(INTRA_POOL_COPY@, n_pools as int),
{
    emit_per_pool(INTRA_POOL_COPY, n_pools)
}

/// The text of the typed loads and stores of the first `n` pools.
pub open spec fn typed_helpers_text(n: int) -> Seq<char>
    decreases n,
{
    if n <= 0 {
        Seq::empty()
    } else {
        let k = (n - 1) as nat;
        typed_helpers_text(n - 1) + fill(LOAD_U8@, k) + fill(LOAD_U32@, k) + fill(LOAD_I64@, k)
            + fill(STORE_U8@, k) + fill(STORE_U32@, k) + fill(STORE_I64@, k)
    }
}

/// The typed loads and stores of every pool.
pub fn emit_specialized_typed_helpers(n_pools: u32) -> (r: String)
    ensures
        r@ == typed_helpers_text(n_pools as int),
{
    let mut s = String::new();
    let mut k: u32 = 0;
    while k < n_pools
        invariant
            k <= n_pools,
            s@ == typed_helpers_text(k as int),
        decreases n_pools - k,
    {
        push_filled(&mut s, LOAD_U8, k);
        push_filled(&mut s, LOAD_U32, k);
        push_filled(&mut s, LOAD_I64, k);
        push_filled(&mut s, STORE_U8, k);
        push_filled(&mut s, STORE_U32, k);
        push_filled(&mut s, STORE_I64, k);
        k += 1;
    }
    s
}

/// The types of the functions in the load tables.
pub const INDIRECT_TYPES: &'static str = r#"  (type $tvm_indirect_load_u8 (func (param i32) (result i32)))
  (type $tvm_indirect_load_u32 (func (param i32) (result i32)))
  (type $tvm_indirect_load_i64 (func (param i32) (result i64)))
"#;

/// The text of the loads that go through a function table; none without pools.
pub open spec fn indirect_text(n: u32) -> Seq<char> {
    if n == 0 {
        Seq::empty()
    } else {
        INDIRECT_TYPES@ + "  (table $tvm_tbl_load_u8 funcref (elem"@ + per_pool(
            " $tvm_load_u8_p@"@,
            n as int,
        ) + "))\n"@ + "  (table $tvm_tbl_load_u32 funcref (elem"@ + per_pool(
            " $tvm_load_u32_p@"@,
            n as int,
        ) + "))\n"@ + "  (table $tvm_tbl_load_i64 funcref (elem"@ + per_pool(
            " $tvm_load_i64_p@"@,
            n as int,
        ) + "))\n"@ + fill(INDIRECT_LOADS@, n as nat)
    }
}

/// The loads that go through a function table.
pub fn emit_indirect_load_dispatchers(n_pools: u32) -> (r: String)
    ensures
        r@ == indirect_text(n_pools),
{
    if n_pools == 0 {
        return String::new();
    }
    let mut s = INDIRECT_TYPES.to_owned();
    s.append("  (table $tvm_tbl_load_u8 funcref (elem");
    s.append(emit_per_pool(" $tvm_load_u8_p@", n_pools).as_str());
    s.append("))\n");
    s.append("  (table $tvm_tbl_load_u32 funcref (elem");
    s.append(emit_per_pool(" $tvm_load_u32_p@", n_pools).as_str());
    s.append("))\n");
    s.append("  (table $tvm_tbl_load_i64 funcref (elem");
    s.append(emit_per_pool(" $tvm_load_i64_p@", n_pools).as_str());
    s.append("))\n");
    push_filled(&mut s, INDIRECT_LOADS, n_pools);
    s
}

} // verus!
