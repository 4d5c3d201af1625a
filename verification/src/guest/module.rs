//! The text of a whole module: pools, dispatchers, helpers, and a place for a
//! user body.
use vstd::prelude::*;
use crate::text::{decimal, push_decimal};
use super::dispatch::{copy_from_dispatcher, copy_helpers_text, copy_to_dispatcher, emit_bulk_copy_dispatcher, emit_bulk_copy_from_default_dispatcher, emit_indirect_load_dispatchers, emit_load_dispatcher, emit_specialized_copy_helpers, emit_specialized_intra_pool_copy, emit_specialized_simd_kernels, emit_specialized_simd_reducers, emit_specialized_typed_helpers, emit_store_dispatcher, indirect_text, load_dispatcher, per_pool, reducers_text, store_dispatcher, typed_helpers_text};
use super::kernels::{INTRA_POOL_COPY, SIMD_SUM_U8};

verus! {

/// The number of pools of a module that does not say otherwise.
pub const DEFAULT_POOL_COUNT: u32 = 64;

/// What a generated module looks like.
#[derive(Debug)]
pub struct ModuleParams {
    /// Number of memory pools. Each pool is a memory of its own.
    pub n_pools: u32,
    /// Initial pages per pool, of 64 KiB each.
    pub initial_pages_per_pool: u32,
    /// Maximum pages per pool; at most 65536.
    pub max_pages_per_pool: u32,
    /// Declarations to be put into the module.
    pub user_body: String,
}

impl Clone for ModuleParams {
    fn clone(&self) -> (r: Self)
        ensures
            r.n_pools == self.n_pools,
            r.initial_pages_per_pool == self.initial_pages_per_pool,
            r.max_pages_per_pool == self.max_pages_per_pool,
            r.user_body@ == self.user_body@,
    {
        ModuleParams {
            n_pools: self.n_pools,
            initial_pages_per_pool: self.initial_pages_per_pool,
            max_pages_per_pool: self.max_pages_per_pool,
            user_body: self.user_body.clone(),
        }
    }
}

impl Default for ModuleParams {
    fn default() -> (r: Self)
        ensures
            r.n_pools == 64,
            r.initial_pages_per_pool == 1,
            r.max_pages_per_pool == 65536,
            r.user_body@ == Seq::<char>::empty(),
    {
        ModuleParams {
            n_pools: DEFAULT_POOL_COUNT,
            initial_pages_per_pool: 1,
            max_pages_per_pool: 65536,
            user_body: String::new(),
        }
    }
}

/// `out` with the declarations of the first `n` memories behind it.
pub open spec fn with_memories(out: Seq<char>, initial: u32, max: u32, n: int) -> Seq<char>
    decreases n,
{
    if n <= 0 {
        out
    } else {
        with_memories(out, initial, max, n - 1) + "  (memory (export \"mem"@ + decimal(
            (n - 1) as nat,
        ) + "\") "@ + decimal(initial as nat) + " "@ + decimal(max as nat) + ")\n"@
    }
}

fn push_memories(s: &mut String, p: &ModuleParams)
    ensures
        final(s)@ == with_memories(
            old(s)@,
            p.initial_pages_per_pool,
            p.max_pages_per_pool,
            p.n_pools as int,
        ),
{
    let mut i: u32 = 0;
    while i < p.n_pools
        invariant
            i <= p.n_pools,
            s@ == with_memories(
                old(s)@,
                p.initial_pages_per_pool,
                p.max_pages_per_pool,
                i as int,
            ),
        decreases p.n_pools - i,
    {
        s.append("  (memory (export \"mem");
        push_decimal(s, i as u64);
        s.append("\") ");
        push_decimal(s, p.initial_pages_per_pool as u64);
        s.append(" ");
        push_decimal(s, p.max_pages_per_pool as u64);
        s.append(")\n");
        i += 1;
    }
}

/// `out` with the loads, stores and copies by pool number behind it.
pub open spec fn with_dispatchers(out: Seq<char>, n: u32) -> Seq<char> {
    out + load_dispatcher("tvm_load_u8"@, "i32.load8_u"@, "i32"@, n) + load_dispatcher(
        "tvm_load_u32"@,
        "i32.load"@,
        "i32"@,
        n,
    ) + load_dispatcher("tvm_load_i64"@, "i64.load"@, "i64"@, n) + store_dispatcher(
        "tvm_store_u8"@,
        "i32.store8"@,
        "i32"@,
        n,
    ) + store_dispatcher("tvm_store_u32"@, "i32.store"@, "i32"@, n) + store_dispatcher(
        "tvm_store_i64"@,
        "i64.store"@,
        "i64"@,
        n,
    ) + copy_to_dispatcher(n) + copy_from_dispatcher(n) + copy_helpers_text(n as int)
}

fn push_dispatchers(s: &mut String, n: u32)
    requires
        n > 0,
    ensures
        final(s)@ == with_dispatchers(old(s)@, n),
{
    s.append(emit_load_dispatcher("tvm_load_u8", "i32.load8_u", "i32", n).as_str());
    s.append(emit_load_dispatcher("tvm_load_u32", "i32.load", "i32", n).as_str());
    s.append(emit_load_dispatcher("tvm_load_i64", "i64.load", "i64", n).as_str());
    s.append(emit_store_dispatcher("tvm_store_u8", "i32.store8", "i32", n).as_str());
    s.append(emit_store_dispatcher("tvm_store_u32", "i32.store", "i32", n).as_str());
    s.append(emit_store_dispatcher("tvm_store_i64", "i64.store", "i64", n).as_str());
    s.append(emit_bulk_copy_dispatcher(n).as_str());
    s.append(emit_bulk_copy_from_default_dispatcher(n).as_str());
    s.append(emit_specialized_copy_helpers(n).as_str());
}

/// `out` with the user body and the end of the module behind it.
pub open spec fn with_body(out: Seq<char>, body: Seq<char>) -> Seq<char> {
    out + "\n  ;; --- user body begins ---\n"@ + body + "\n  ;; --- user body ends ---\n"@ + ")\n"@
}

fn push_body(s: &mut String, body: &String)
    ensures
        final(s)@ == with_body(old(s)@, body@),
{
    s.append("\n  ;; --- user body begins ---\n");
    s.append(body.as_str());
    s.append("\n  ;; --- user body ends ---\n");
    s.append(")\n");
}

/// The text of a module: the memories, the dispatchers, the helpers of every
/// pool, and the user body.
pub open spec fn module_text(p: ModuleParams) -> Seq<char> {
    let n = p.n_pools;
    with_body(
        with_dispatchers(
            with_memories(
                "(module\n"@,
                p.initial_pages_per_pool,
                p.max_pages_per_pool,
                n as int,
            ) + "\n"@,
            n,
        ) + typed_helpers_text(n as int) + per_pool(INTRA_POOL_COPY@, n as int) + indirect_text(n)
            + per_pool(SIMD_SUM_U8@, n as int) + reducers_text(n as int),
        p.user_body@,
    )
}

/// The text of a module that needs no imports.
pub fn tvm_guest_mm_module_template(p: &ModuleParams) -> (r: String)
    requires
        p.n_pools > 0,
    ensures
        r@ == module_text(*p),
{
    let mut s = "(module\n".to_owned();
    push_memories(&mut s, p);
    s.append("\n");
    push_dispatchers(&mut s, p.n_pools);
    s.append(emit_specialized_typed_helpers(p.n_pools).as_str());
    s.append(emit_specialized_intra_pool_copy(p.n_pools).as_str());
    s.append(emit_indirect_load_dispatchers(p.n_pools).as_str());
    s.append(emit_specialized_simd_kernels(p.n_pools).as_str());
    s.append(emit_specialized_simd_reducers(p.n_pools).as_str());
    push_body(&mut s, &p.user_body);
    s
}

// ---------------------------------------------------------------------------
// Spilling through WASI
// ---------------------------------------------------------------------------

/// The imports that spilling needs.
pub const WASI_IMPORTS: &'static str = r#"  ;; --- WASI imports for spill ---
  (import "wasi_snapshot_preview1" "fd_write"
    (func $wasi_fd_write
      (param i32) ;; fd
      (param i32) ;; iovec ptr (in default memory)
      (param i32) ;; iovec count
      (param i32) ;; nwritten ptr
      (result i32))) ;; errno
  (import "wasi_snapshot_preview1" "fd_read"
    (func $wasi_fd_read
      (param i32) ;; fd
      (param i32) ;; iovec ptr
      (param i32) ;; iovec count
      (param i32) ;; nread ptr
      (result i32)))

"#;

/// The functions that write a range of a pool to a file and read it back.
pub const WASI_SPILL_HELPERS: &'static str = r#"  (func (export "tvm_spill_to_fd")
        (param $pool i32) (param $src_off i32) (param $len i32) (param $fd i32)
        (result i32) ;; errno (0 = ok)
    ;; Step 1: copy pool bytes into default memory scratch (offset 0).
    (call $tvm_copy_to_default (local.get $pool) (local.get $src_off) (i32.const 0) (local.get $len))
    ;; Step 2: build iovec at offset = len.
    (i32.store (local.get $len) (i32.const 0))                               ;; iov.ptr = 0
    (i32.store (i32.add (local.get $len) (i32.const 4)) (local.get $len))    ;; iov.len = $len
    ;; Step 3: fd_write(fd, iovec_ptr=$len, iovec_count=1, nwritten_ptr=$len+8).
    (call $wasi_fd_write
      (local.get $fd)
      (local.get $len)
      (i32.const 1)
      (i32.add (local.get $len) (i32.const 8))))

  (func (export "tvm_load_from_fd")
        (param $pool i32) (param $dst_off i32) (param $len i32) (param $fd i32)
        (result i32) ;; errno (0 = ok)
        (local $errno i32)
    ;; Step 1: build iovec pointing at default-mem offset 0 with len bytes.
    (i32.store (local.get $len) (i32.const 0))
    (i32.store (i32.add (local.get $len) (i32.const 4)) (local.get $len))
    ;; Step 2: fd_read into default memory at offset 0.
    (local.set $errno (call $wasi_fd_read
      (local.get $fd)
      (local.get $len)
      (i32.const 1)
      (i32.add (local.get $len) (i32.const 8))))
    ;; Step 3: copy default memory bytes into target pool, if they were read.
    (if (i32.eqz (local.get $errno))
      (then
        (call $tvm_copy_from_default (local.get $pool) (local.get $dst_off) (i32.const 0) (local.get $len))))
    (local.get $errno))

"#;

/// The imports that spilling needs. They stand before any definition.
pub fn emit_wasi_imports() -> (r: String)
    ensures
        r@ == WASI_IMPORTS@,
{
    WASI_IMPORTS.to_owned()
}

/// The spill helpers. They pick the pool at run time, so their text does not
/// depend on the number of pools.
pub fn emit_wasi_spill_helpers(n_pools: u32) -> (r: String)
    ensures
        r@ == WASI_SPILL_HELPERS@,
{
    WASI_SPILL_HELPERS.to_owned()
}

/// The text of a module with spill helpers: the imports first, then the
/// memories, the dispatchers, the spill helpers and the user body.
pub open spec fn spill_module_text(p: ModuleParams) -> Seq<char> {
    let n = p.n_pools;
    with_body(
        with_dispatchers(
            with_memories(
                "(module\n"@ + WASI_IMPORTS@,
                p.initial_pages_per_pool,
                p.max_pages_per_pool,
                n as int,
            ) + "\n"@,
            n,
        ) + WASI_SPILL_HELPERS@,
        p.user_body@,
    )
}

/// The text of a module that can spill through WASI.
pub fn tvm_guest_mm_module_with_wasi_spill(p: &ModuleParams) -> (r: String)
    requires
        p.n_pools > 0,
    ensures
        r@ == spill_module_text(*p),
{
    let mut s = "(module\n".to_owned();
    s.append(emit_wasi_imports().as_str());
    push_memories(&mut s, p);
    s.append("\n");
    push_dispatchers(&mut s, p.n_pools);
    s.append(emit_wasi_spill_helpers(p.n_pools).as_str());
    push_body(&mut s, &p.user_body);
    s
}

} // verus!
