use std::io::Write;
use wasmtime::{Caller, Config, Engine, Linker, Module, Store};
use tvm::guest::module::{tvm_guest_mm_module_with_wasi_spill, ModuleParams};

#[test]
fn wasi_spill_module_compiles_and_links() {
    let mut config = Config::new();
    config.memory_reservation(0);
    config.memory_reservation_for_growth(0);
    config.memory_guard_size(0);
    config.wasm_multi_memory(true);
    let engine = Engine::new(&config).unwrap();

    let user_body = r#"
        (func (export "noop"))
    "#;
    let p = ModuleParams {
        n_pools: 4,
        initial_pages_per_pool: 1,
        max_pages_per_pool: 16,
        user_body: user_body.to_string(),
    };
    let wat = tvm_guest_mm_module_with_wasi_spill(&p);

    // The module won't instantiate without a wasi linker, but we can
    // verify it compiles to a valid wasm binary.
    let _module = Module::new(&engine, &wat).unwrap();
}

#[test]
fn wasi_spill_module_has_required_exports() {
    let mut config = Config::new();
    config.memory_reservation(0);
    config.memory_reservation_for_growth(0);
    config.memory_guard_size(0);
    config.wasm_multi_memory(true);
    let engine = Engine::new(&config).unwrap();
    let p = ModuleParams::default();
    let wat = tvm_guest_mm_module_with_wasi_spill(&p);
    let module = Module::new(&engine, &wat).unwrap();

    // Verify the module exports both spill helpers.
    let exports: Vec<String> = module.exports().map(|e| e.name().to_string()).collect();
    assert!(exports.iter().any(|e| e == "tvm_spill_to_fd"));
    assert!(exports.iter().any(|e| e == "tvm_load_from_fd"));

    // Memories should still all be present — one per pool.
    let n_memories = exports.iter().filter(|e| e.starts_with("mem")).count();
    assert_eq!(n_memories, tvm::guest::module::DEFAULT_POOL_COUNT as usize);

}

#[test]
fn wasi_spill_module_imports_match_wasi_pt() {
    let mut config = Config::new();
    config.memory_reservation(0);
    config.memory_reservation_for_growth(0);
    config.memory_guard_size(0);
    config.wasm_multi_memory(true);
    let engine = Engine::new(&config).unwrap();
    let p = ModuleParams::default();
    let wat = tvm_guest_mm_module_with_wasi_spill(&p);
    let module = Module::new(&engine, &wat).unwrap();

    // The module imports two WASI functions, both from wasi_snapshot_preview1.
    let imports: Vec<(String, String)> = module
        .imports()
        .map(|i| (i.module().to_string(), i.name().to_string()))
        .collect();
    assert!(imports
        .iter()
        .any(|(m, n)| m == "wasi_snapshot_preview1" && n == "fd_write"));
    assert!(imports
        .iter()
        .any(|(m, n)| m == "wasi_snapshot_preview1" && n == "fd_read"));

}

#[test]
fn end_to_end_marker() {
    let mut buf: Vec<u8> = Vec::new();
    buf.write_all(b"wasi-spill smoke").unwrap();
    assert!(!buf.is_empty());
}

#[test]
fn a_load_hands_on_what_the_read_answered() {
    let mut config = Config::new();
    config.memory_reservation(0);
    config.memory_reservation_for_growth(0);
    config.memory_guard_size(0);
    config.wasm_multi_memory(true);
    let engine = Engine::new(&config).unwrap();
    let p = ModuleParams {
        n_pools: 2,
        initial_pages_per_pool: 1,
        max_pages_per_pool: 4,
        user_body: String::new(),
    };
    let module = Module::new(&engine, tvm_guest_mm_module_with_wasi_spill(&p)).unwrap();
    let mut linker: Linker<i32> = Linker::new(&engine);
    linker
        .func_wrap(
            "wasi_snapshot_preview1",
            "fd_read",
            |mut caller: Caller<'_, i32>, _fd: i32, _iovec: i32, _count: i32, _nread: i32| -> i32 {
                let memory = caller.get_export("mem0").unwrap().into_memory().unwrap();
                memory.write(&mut caller, 0, &[9; 8]).unwrap();
                *caller.data()
            },
        )
        .unwrap();
    linker
        .func_wrap(
            "wasi_snapshot_preview1",
            "fd_write",
            |_fd: i32, _iovec: i32, _count: i32, _nwritten: i32| -> i32 { 0 },
        )
        .unwrap();
    let mut store = Store::new(&engine, 8);
    let instance = linker.instantiate(&mut store, &module).unwrap();
    let load = instance
        .get_typed_func::<(i32, i32, i32, i32), i32>(&mut store, "tvm_load_from_fd")
        .unwrap();
    let pool = instance.get_memory(&mut store, "mem1").unwrap();
    assert_eq!(load.call(&mut store, (1, 100, 8, 3)).unwrap(), 8);
    assert_eq!(pool.data(&store)[100..108], [0; 8]);
    *store.data_mut() = 0;
    assert_eq!(load.call(&mut store, (1, 100, 8, 3)).unwrap(), 0);
    assert_eq!(pool.data(&store)[100..108], [9; 8]);
}
