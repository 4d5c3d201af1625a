use tvm::guest::module::{tvm_guest_mm_module_template, ModuleParams};
use wasmtime::{Config, Engine, Linker, Module, Store};

// Workload: write `len` bytes from default memory pool 0 into pool
// 2 at offset `dst_off`. Uses `tvm_copy_from_default`. The default
// memory has 1 page (64 KiB); we keep `len` small enough to fit.
//
// Also exposes `write_p2_specialized` that targets pool 2
// specifically via `tvm_copy_from_default_p2` so we can confirm
// the per-pool specialized helper grows the same way.
const USER_BODY: &str = r#"
    ;; Stage a 16-byte payload into the default memory at offset 0.
    (data (i32.const 0) "\01\02\03\04\05\06\07\08\09\0a\0b\0c\0d\0e\0f\10")

    (func (export "write_p2_generic")
        (param $dst_off i32) (param $len i32)
      (call $tvm_copy_from_default
        (i32.const 2)              ;; dst_pool
        (local.get $dst_off)
        (i32.const 0)              ;; src_off in default memory
        (local.get $len)))

    (func (export "write_p2_specialized")
        (param $dst_off i32) (param $len i32)
      (call $tvm_copy_from_default_p2
        (local.get $dst_off)
        (i32.const 0)              ;; src_off in default memory
        (local.get $len)))

    ;; Read a single u32 back from pool 2 at runtime offset.
    (func (export "read_p2_u32") (param $off i32) (result i32)
      (call $tvm_load_u32 (i32.const 2) (local.get $off)))
"#;

fn build_module(initial_pages: u32, max_pages: u32) -> (Engine, Module) {
    let mut config = Config::new();
    config.memory_reservation(0);
    config.memory_reservation_for_growth(0);
    config.memory_guard_size(0);
    config.wasm_multi_memory(true);
    let engine = Engine::new(&config).unwrap();
    let p = ModuleParams {
        n_pools: 4,
        initial_pages_per_pool: initial_pages,
        max_pages_per_pool: max_pages,
        user_body: USER_BODY.to_string(),
    };
    let wat = tvm_guest_mm_module_template(&p);
    let module = Module::new(&engine, &wat).unwrap();
    (engine, module)
}

#[test]
fn generic_copy_from_default_grows_pool_past_initial_pages() {
    let (engine, module) = build_module(1, 16);
    let linker: Linker<()> = Linker::new(&engine);
    let mut store = Store::new(&engine, ());
    let instance = linker.instantiate(&mut store, &module).unwrap();

    let write =
        instance.get_typed_func::<(i32, i32), ()>(&mut store, "write_p2_generic").unwrap();
    let read = instance.get_typed_func::<i32, i32>(&mut store, "read_p2_u32").unwrap();

    let dst_off: i32 = 128 * 1024; // 2 × initial pool size
    write.call(&mut store, (dst_off, 16)).unwrap();

    // The first 4 bytes of the staged payload are 0x01, 0x02, 0x03,
    // 0x04 — little-endian read as 0x04030201.
    let got = read.call(&mut store, dst_off).unwrap();
    assert_eq!(
        got as u32, 0x04030201,
        "value written past initial_pages must read back via tvm_load_u32"
    );
}

#[test]
fn specialized_copy_from_default_grows_pool_past_initial_pages() {
    let (engine, module) = build_module(1, 16);
    let linker: Linker<()> = Linker::new(&engine);
    let mut store = Store::new(&engine, ());
    let instance = linker.instantiate(&mut store, &module).unwrap();

    let write = instance
        .get_typed_func::<(i32, i32), ()>(&mut store, "write_p2_specialized").unwrap();
    let read = instance.get_typed_func::<i32, i32>(&mut store, "read_p2_u32").unwrap();

    let dst_off: i32 = 256 * 1024; // 4 × initial pool size
    write.call(&mut store, (dst_off, 16)).unwrap();
    let got = read.call(&mut store, dst_off).unwrap();
    assert_eq!(
        got as u32, 0x04030201,
        "specialized helper must grow the destination pool too"
    );
}

#[test]
fn grow_at_exact_page_boundary() {
    let (engine, module) = build_module(1, 16);
    let linker: Linker<()> = Linker::new(&engine);
    let mut store = Store::new(&engine, ());
    let instance = linker.instantiate(&mut store, &module).unwrap();

    let write =
        instance.get_typed_func::<(i32, i32), ()>(&mut store, "write_p2_generic").unwrap();
    let read = instance.get_typed_func::<i32, i32>(&mut store, "read_p2_u32").unwrap();

    let dst_off: i32 = 65536; // exact pool size in bytes
    write.call(&mut store, (dst_off, 16)).unwrap();
    let got = read.call(&mut store, dst_off).unwrap();
    assert_eq!(got as u32, 0x04030201);
}

#[test]
fn grow_at_sqlite_lib_journal_boundary() {
    let (engine, module) = build_module(/*initial=*/ 4096, /*max=*/ 8192);
    let linker: Linker<()> = Linker::new(&engine);
    let mut store = Store::new(&engine, ());
    let instance = linker.instantiate(&mut store, &module).unwrap();

    let write =
        instance.get_typed_func::<(i32, i32), ()>(&mut store, "write_p2_generic").unwrap();
    let read = instance.get_typed_func::<i32, i32>(&mut store, "read_p2_u32").unwrap();

    let dst_off: i32 = 256 * 1024 * 1024; // 0x10000000
    write.call(&mut store, (dst_off, 16)).unwrap();
    let got = read.call(&mut store, dst_off).unwrap();
    assert_eq!(
        got as u32, 0x04030201,
        "first write past the 256 MiB pool boundary must grow + succeed"
    );
}

#[test]
fn explicit_memory_grow_on_non_default_pool() {
    let mut config = Config::new();
    config.memory_reservation(0);
    config.memory_reservation_for_growth(0);
    config.memory_guard_size(0);
    config.wasm_multi_memory(true);
    let engine = Engine::new(&config).unwrap();
    let wat = r#"
        (module
          (memory (export "m0") 1 16)
          (memory (export "m1") 1 16)
          (memory (export "m2") 1 16)
          (func (export "grow_p2") (param i32) (result i32)
            (memory.grow 2 (local.get 0)))
          (func (export "size_p2") (result i32)
            (memory.size 2))
        )
    "#;
    let module = Module::new(&engine, wat).unwrap();
    let linker: Linker<()> = Linker::new(&engine);
    let mut store = Store::new(&engine, ());
    let instance = linker.instantiate(&mut store, &module).unwrap();

    let size_p2 = instance.get_typed_func::<(), i32>(&mut store, "size_p2").unwrap();
    let grow_p2 = instance.get_typed_func::<i32, i32>(&mut store, "grow_p2").unwrap();

    assert_eq!(size_p2.call(&mut store, ()).unwrap(), 1, "initial pool 2 size");
    assert_eq!(grow_p2.call(&mut store, 3).unwrap(), 1, "grow returns previous size");
    assert_eq!(size_p2.call(&mut store, ()).unwrap(), 4, "pool 2 grew to 4 pages");
    // Try to grow past max (current=4, max=16, asking 13 = fail since 4+13=17>16).
    assert_eq!(grow_p2.call(&mut store, 13).unwrap(), -1, "over-cap grow returns -1");
    // memory.size unchanged.
    assert_eq!(size_p2.call(&mut store, ()).unwrap(), 4);
}

/// An engine that reserves the whole of each pool up front, with a guard behind
/// it, and knows 64-bit memories.
fn build_module_reserved(initial_pages: u32, max_pages: u32) -> (Engine, Module) {
    let mut config = Config::new();
    config.wasm_multi_memory(true);
    config.wasm_memory64(true);
    config.memory_reservation(512 * 1024 * 1024);
    config.memory_guard_size(64 * 1024 * 1024);
    let engine = Engine::new(&config).unwrap();
    let p = ModuleParams {
        n_pools: 4,
        initial_pages_per_pool: initial_pages,
        max_pages_per_pool: max_pages,
        user_body: USER_BODY.to_string(),
    };
    let wat = tvm_guest_mm_module_template(&p);
    let module = Module::new(&engine, &wat).unwrap();
    (engine, module)
}

#[test]
fn grow_at_boundary_under_sqlink_wasmtime_config() {
    let (engine, module) = build_module_reserved(4096, 8192);
    let linker: Linker<()> = Linker::new(&engine);
    let mut store = Store::new(&engine, ());
    let instance = linker.instantiate(&mut store, &module).unwrap();

    let write =
        instance.get_typed_func::<(i32, i32), ()>(&mut store, "write_p2_generic").unwrap();
    let read = instance.get_typed_func::<i32, i32>(&mut store, "read_p2_u32").unwrap();
    let dst_off: i32 = 256 * 1024 * 1024;
    write.call(&mut store, (dst_off, 4096)).unwrap();
    let got = read.call(&mut store, dst_off).unwrap();
    assert_eq!(got as u32, 0x04030201);
}

#[test]
fn grow_at_boundary_with_4kib_chunk_write() {
    let (engine, module) = build_module(/*initial=*/ 4096, /*max=*/ 8192);
    let linker: Linker<()> = Linker::new(&engine);
    let mut store = Store::new(&engine, ());
    let instance = linker.instantiate(&mut store, &module).unwrap();

    let write =
        instance.get_typed_func::<(i32, i32), ()>(&mut store, "write_p2_generic").unwrap();
    let read = instance.get_typed_func::<i32, i32>(&mut store, "read_p2_u32").unwrap();
    let dst_off: i32 = 256 * 1024 * 1024; // 0x10000000
    write.call(&mut store, (dst_off, 4096)).unwrap();
    let got = read.call(&mut store, dst_off).unwrap();
    assert_eq!(got as u32, 0x04030201);
}

#[test]
fn grow_to_max_pages_then_overflow_traps() {
    // Past `max_pages_per_pool` the grow returns -1 and the copy
    // traps — the grow request can't be satisfied. We accept the
    // trap; what we don't accept is corrupting memory or silently
    // succeeding past the configured cap.
    let (engine, module) = build_module(1, 2); // 1 page initial, 2 max
    let linker: Linker<()> = Linker::new(&engine);
    let mut store = Store::new(&engine, ());
    let instance = linker.instantiate(&mut store, &module).unwrap();
    let write =
        instance.get_typed_func::<(i32, i32), ()>(&mut store, "write_p2_generic").unwrap();

    // Offset that requires more pages than max allows.
    let result = write.call(&mut store, (3 * 65536, 16));
    assert!(
        result.is_err(),
        "writing past max_pages must still trap; got Ok"
    );
}

#[test]
fn pages_are_counted_up_to_the_last_one() {
    for text in [tvm::guest::dispatch::GROW_POOL, tvm::guest::kernels::COPY_FROM_DEFAULT] {
        let from = text.find("(i32.gt_u").unwrap() + "(i32.gt_u".len();
        let to = text.find("(memory.size @)").unwrap();
        let wat = format!(
            "(module (func (export \"pages\") (param $end i32) (result i32) {}))",
            &text[from..to]
        );
        let engine = Engine::default();
        let module = Module::new(&engine, &wat).unwrap();
        let mut store = Store::new(&engine, ());
        let instance = Linker::new(&engine).instantiate(&mut store, &module).unwrap();
        let pages = instance.get_typed_func::<i32, i32>(&mut store, "pages").unwrap();
        for (end, want) in [
            (0u32, 0),
            (1, 1),
            (65535, 1),
            (65536, 1),
            (65537, 2),
            (0xffff_0000, 65535),
            (0xffff_0001, 65536),
            (0xffff_ffff, 65536),
        ] {
            assert_eq!(pages.call(&mut store, end as i32).unwrap(), want);
        }
    }
}
