use tvm::link::link;
use wasmtime::{Config, Engine, Global, GlobalType, Instance, Linker, Module, Mutability, Store, Val, ValType};

/// A shell that has one of everything, so that every index of a user module has
/// to move.
const SHELL: &str = r#"
    (module
      (type $void (func))
      (type $bin (func (param i32 i32) (result i32)))
      (memory (export "mem0") 1 16)
      (memory (export "mem1") 1 16)
      (table $own 2 2 funcref)
      (global $own_global (mut i32) (i32.const 77))
      (func $private)
      (func $begin (global.set $own_global (i32.const 78)))
      (start $begin)
      (func $helper (export "helper") (type $bin)
        (i32.add (i32.mul (local.get 0) (i32.const 10)) (local.get 1)))
      (func (export "own_global") (result i32) (global.get $own_global))
      (func (export "own_init")
        (memory.init 1 $own_bytes (i32.const 0) (i32.const 0) (i32.const 2)))
      (func (export "own_byte") (param i32) (result i32)
        (i32.load8_u 1 (local.get 0)))
      (elem (table $own) (i32.const 0) func $private $private)
      (data $own_bytes "\aa\bb"))
"#;

const USER: &str = r#"
    (module
      (type $un (func (param i32) (result i32)))
      (type $two (func (param i32) (result i32 i32)))
      (import "tvm_mm" "helper" (func $helper (param i32 i32) (result i32)))
      (import "host" "log" (func $log (param i32)))
      (import "env" "base" (global $base i32))
      (memory 1)
      (table $spare 1 4 funcref)
      (table $t 4 8 funcref)
      (global $counter (mut i32) (i32.const 5))
      (global $from_import i32 (global.get $base))
      (func $double (type $un) (i32.mul (local.get 0) (i32.const 2)))
      (func $triple (type $un) (i32.mul (local.get 0) (i32.const 3)))
      (elem (table $t) (i32.const 0) func $double $triple)
      (elem $late func $triple $double)
      (data (i32.const 16) "\01\02\03\04")
      (data $bytes "\05\06\07\08")
      (func (export "via_helper") (param i32 i32) (result i32)
        (call $log (local.get 0))
        (call $helper (local.get 0) (local.get 1)))
      (func (export "tail") (param i32) (result i32)
        (return_call $double (local.get 0)))
      (func (export "indirect") (param i32 i32) (result i32)
        (call_indirect $t (type $un) (local.get 1) (local.get 0)))
      (func (export "tail_indirect") (param i32 i32) (result i32)
        (return_call_indirect $t (type $un) (local.get 1) (local.get 0)))
      (func (export "bump") (result i32)
        (global.set $counter (i32.add (global.get $counter) (i32.const 1)))
        (i32.add (global.get $counter) (global.get $from_import)))
      (func (export "fill_table") (result i32)
        (table.init $t $late (i32.const 2) (i32.const 0) (i32.const 2))
        (elem.drop $late)
        (table.copy $spare $t (i32.const 0) (i32.const 1) (i32.const 1))
        (table.set $t (i32.const 0) (ref.func $triple))
        (drop (table.grow $t (ref.func $double) (i32.const 2)))
        (table.fill $t (i32.const 4) (table.get $t (i32.const 2)) (i32.const 2))
        (table.size $t))
      (func (export "spare") (param i32) (result i32)
        (call_indirect $spare (type $un) (local.get 0) (i32.const 0)))
      (func (export "fill_memory") (result i32)
        (memory.init $bytes (i32.const 20) (i32.const 1) (i32.const 3))
        (data.drop $bytes)
        (memory.fill (i32.const 24) (i32.const 9) (i32.const 4))
        (memory.copy (i32.const 28) (i32.const 16) (i32.const 4))
        (drop (memory.grow (i32.const 1)))
        (memory.size))
      (func (export "byte") (param i32) (result i32)
        (i32.load8_u (local.get 0)))
      (func (export "blocks") (param i32) (result i32)
        (local.get 0)
        (block (type $two) (i32.const 1))
        (i32.add)
        (loop (type $un) (i32.const 10) (i32.add))
        (local.get 0)
        (if (type $un)
          (then (i32.const 100) (i32.add))
          (else (i32.const 200) (i32.add)))))
"#;

fn engine() -> Engine {
    let mut config = Config::new();
    config.wasm_multi_memory(true);
    config.memory_reservation(0);
    config.memory_reservation_for_growth(0);
    config.memory_guard_size(0);
    Engine::new(&config).unwrap()
}

fn instance() -> (Store<Vec<i32>>, Instance) {
    let shell = wat::parse_str(SHELL).unwrap();
    let user = wat::parse_str(USER).unwrap();
    let merged = match link(&shell, &user) {
        Ok(bytes) => bytes,
        Err(e) => panic!("{}", e.message()),
    };
    wasmparser::Validator::new().validate_all(&merged).unwrap();
    let engine = engine();
    let module = Module::new(&engine, &merged).unwrap();
    let mut store = Store::new(&engine, Vec::new());
    let mut linker: Linker<Vec<i32>> = Linker::new(&engine);
    linker
        .func_wrap("host", "log", |mut caller: wasmtime::Caller<'_, Vec<i32>>, v: i32| {
            caller.data_mut().push(v);
        })
        .unwrap();
    let base = Global::new(
        &mut store,
        GlobalType::new(ValType::I32, Mutability::Const),
        Val::I32(1000),
    )
    .unwrap();
    linker.define(&mut store, "env", "base", base).unwrap();
    let instance = linker.instantiate(&mut store, &module).unwrap();
    (store, instance)
}

fn call0(store: &mut Store<Vec<i32>>, i: &Instance, name: &str) -> i32 {
    i.get_typed_func::<(), i32>(&mut *store, name).unwrap().call(store, ()).unwrap()
}

fn call1(store: &mut Store<Vec<i32>>, i: &Instance, name: &str, a: i32) -> i32 {
    i.get_typed_func::<i32, i32>(&mut *store, name).unwrap().call(store, a).unwrap()
}

fn call2(store: &mut Store<Vec<i32>>, i: &Instance, name: &str, a: i32, b: i32) -> i32 {
    i.get_typed_func::<(i32, i32), i32>(&mut *store, name).unwrap().call(store, (a, b)).unwrap()
}

#[test]
fn calls_reach_helpers_imports_and_own_functions() {
    let (mut store, i) = instance();
    assert_eq!(call2(&mut store, &i, "via_helper", 4, 2), 42);
    assert_eq!(store.data(), &vec![4]);
    assert_eq!(call1(&mut store, &i, "tail", 21), 42);
}

#[test]
fn indirect_calls_go_through_the_users_table() {
    let (mut store, i) = instance();
    assert_eq!(call2(&mut store, &i, "indirect", 0, 7), 14);
    assert_eq!(call2(&mut store, &i, "indirect", 1, 7), 21);
    assert_eq!(call2(&mut store, &i, "tail_indirect", 1, 5), 15);
}

#[test]
fn globals_are_the_users_own_and_the_start_is_the_shells() {
    let (mut store, i) = instance();
    assert_eq!(call0(&mut store, &i, "bump"), 1006);
    assert_eq!(call0(&mut store, &i, "bump"), 1007);
    assert_eq!(call0(&mut store, &i, "own_global"), 78);
}

#[test]
fn table_instructions_name_the_users_tables_and_segments() {
    let (mut store, i) = instance();
    assert_eq!(call0(&mut store, &i, "fill_table"), 6);
    let expected = [3, 3, 3, 2, 3, 3];
    for (slot, factor) in expected.iter().enumerate() {
        assert_eq!(call2(&mut store, &i, "indirect", slot as i32, 10), 10 * factor, "slot {slot}");
    }
    assert_eq!(call1(&mut store, &i, "spare", 10), 30);
}

#[test]
fn memory_instructions_name_pool_zero_and_the_users_segments() {
    let (mut store, i) = instance();
    assert_eq!(call0(&mut store, &i, "fill_memory"), 2);
    let expected = [1, 2, 3, 4, 6, 7, 8, 0, 9, 9, 9, 9, 1, 2, 3, 4];
    for (at, byte) in expected.iter().enumerate() {
        assert_eq!(call1(&mut store, &i, "byte", 16 + at as i32), *byte, "byte {at}");
    }
    i.get_typed_func::<(), ()>(&mut store, "own_init").unwrap().call(&mut store, ()).unwrap();
    assert_eq!(call1(&mut store, &i, "own_byte", 1), 0xbb);
}

#[test]
fn block_types_name_the_users_types() {
    let (mut store, i) = instance();
    assert_eq!(call1(&mut store, &i, "blocks", 7), 7 + 1 + 10 + 100);
    assert_eq!(call1(&mut store, &i, "blocks", 0), 1 + 10 + 200);
}

fn refusal(shell: &str, user: &str) -> String {
    let shell = wat::parse_str(shell).unwrap();
    let user = wat::parse_str(user).unwrap();
    match link(&shell, &user) {
        Ok(_) => panic!("must be refused"),
        Err(e) => e.message(),
    }
}

const PLAIN_SHELL: &str = r#"(module (memory (export "mem0") 1))"#;

#[test]
fn every_refusal_has_its_message() {
    assert_eq!(
        refusal(r#"(module (import "a" "b" (func)))"#, "(module)"),
        "shell module must not have imports; found 1 (the shell template generates a self-contained module — was it post-processed?)"
    );
    assert_eq!(
        refusal(PLAIN_SHELL, r#"(module (import "tvm_mm" "nope" (func)))"#),
        "user imports `tvm_mm.nope` but the shell does not export a function with that name"
    );
    assert_eq!(
        refusal(PLAIN_SHELL, r#"(module (import "host" "m" (memory 1)))"#),
        "user module imports memory `host.m`; memory imports are not supported"
    );
    assert_eq!(
        refusal(PLAIN_SHELL, r#"(module (import "host" "t" (table 1 funcref)))"#),
        "user module imports `host.t`; only functions and globals can be forwarded"
    );
    assert_eq!(
        refusal(PLAIN_SHELL, "(module (func $f) (start $f))"),
        "user module declares a start function; not supported"
    );
    assert_eq!(
        refusal(PLAIN_SHELL, r#"(module (memory 1) (memory 1) (data (memory 1) (i32.const 0) "a"))"#),
        "user module references memory index 1 but only one (default) memory is supported"
    );
    for (body, text) in [
        ("(drop (memory.size 1))", "memory.size references memory 1; only 0 is supported"),
        (
            "(drop (memory.grow 1 (i32.const 1)))",
            "memory.grow references memory 1; only 0 is supported",
        ),
        (
            "(memory.fill 1 (i32.const 0) (i32.const 0) (i32.const 0))",
            "memory.fill references memory 1; only 0 is supported",
        ),
        (
            "(memory.copy 0 1 (i32.const 0) (i32.const 0) (i32.const 0))",
            "memory.copy uses non-default memory (1 → 0); not supported in user code",
        ),
        (
            "(memory.init 1 $d (i32.const 0) (i32.const 0) (i32.const 0))",
            "memory.init references memory 1 but only memory 0 is supported",
        ),
    ] {
        let user = format!("(module (memory 1) (memory 1) (data $d \"a\") (func {body}))");
        assert_eq!(refusal(PLAIN_SHELL, &user), text);
    }
    let null = wasmparser::Operator::RefNull { hty: wasmparser::HeapType::FUNC };
    assert_eq!(
        refusal(PLAIN_SHELL, "(module (func (drop (ref.null func))))"),
        format!(
            "unsupported operator in user code body: {null:?}\n\
             The linker handles the subset rustc emits for typical no_std cdylibs; \
             extend `map_simple_op` for other operators."
        )
    );
    assert_eq!(
        refusal(PLAIN_SHELL, "(module (global i32 (i32.add (i32.const 1) (i32.const 2))))"),
        "const-expr ended with non-End op: I32Const { value: 2 }"
    );
    assert!(
        refusal(PLAIN_SHELL, "(module (global v128 (v128.const i32x4 0 0 0 0)))")
            .starts_with("unsupported const-expr opcode: V128Const")
    );
    let text = refusal(PLAIN_SHELL, "(module (type (func)) (type (struct)))");
    assert!(
        text.starts_with(
            "parsing user module: non-func composite type encountered (only function types are supported): Struct("
        ),
        "{text}"
    );
    assert_eq!(
        refusal(PLAIN_SHELL, "(component (core module))"),
        "parsing user module: unexpected section in input wasm: id 1"
    );
}

#[test]
fn atomic_globals_of_the_shell_are_refused_where_they_would_move() {
    let shell = r#"(module
        (global $g (shared mut i32) (i32.const 3))
        (func (export "get") (result i32) (global.atomic.get seq_cst $g)))"#;
    let shell = wat::parse_str(shell).unwrap();
    let still = wat::parse_str(r#"(module (func (export "go")))"#).unwrap();
    assert!(link(&shell, &still).is_ok());
    let moves = wat::parse_str(r#"(module (import "env" "base" (global i32)))"#).unwrap();
    let text = link(&shell, &moves).unwrap_err().message();
    assert!(
        text.starts_with("operator in shell code body names a global that moves: GlobalAtomicGet"),
        "{text}"
    );
}

#[test]
fn references_to_types_are_valid_in_the_merged_module() {
    let shell = wat::parse_str(
        r#"(module
             (type (func (param i64 i64)))
             (type (func (result f32)))
             (memory 1))"#,
    )
    .unwrap();
    let user = wat::parse_str(
        r#"(module
             (type $un (func (param i32) (result i32)))
             (func $double (type $un) (i32.mul (local.get 0) (i32.const 2)))
             (global $none (ref null $un) (ref.null $un))
             (table 2 (ref null $un))
             (elem (i32.const 0) (ref null $un) (item (ref.func $double)) (item (ref.null $un)))
             (func (export "go") (param i32) (result i32)
               (local $f (ref null $un))
               (local.set $f (block (result (ref null $un)) (global.get $none)))
               (call_indirect (type $un) (local.get 0) (i32.const 0))))"#,
    )
    .unwrap();
    let merged = link(&shell, &user).unwrap();
    if let Err(e) = wasmparser::Validator::new().validate_all(&merged) {
        panic!("{e}");
    }
}

#[test]
fn references_to_types_follow_their_types() {
    let mut user = String::from("(module\n");
    for _ in 0..70 {
        user.push_str("  (type (func (param i32)))\n");
    }
    user.push_str(
        r#"  (type $t (func))
             (type (func (param (ref null (exact $t)) (ref (exact 3)) (ref null $t))))
             (global (ref null (exact $t)) (ref.null (exact $t)))
             (func (local (ref null (exact $t)))))"#,
    );
    let user = wat::parse_str(&user).unwrap();
    let shell = wat::parse_str("(module (type (func (result i64))) (type (func (result i32))))").unwrap();
    let merged = link(&shell, &user).unwrap();
    // Two types of the shell stand in front of the user's.
    let plain = |index: u32| {
        let index = index + 2;
        let index = wasmparser::PackedIndex::from_module_index(index).unwrap();
        wasmparser::HeapType::Concrete(index.unpack())
    };
    let heap = |ty: wasmparser::ValType| match ty {
        wasmparser::ValType::Ref(r) => (r.is_nullable(), r.heap_type()),
        other => panic!("{other:?}"),
    };
    let mut seen = 0;
    for payload in wasmparser::Parser::new(0).parse_all(&merged) {
        match payload.unwrap() {
            wasmparser::Payload::TypeSection(reader) => {
                let last = reader.into_iter().last().unwrap().unwrap();
                for ty in last.into_types() {
                    let params: Vec<(bool, wasmparser::HeapType)> =
                        ty.unwrap_func().params().iter().map(|p| heap(*p)).collect();
                    assert_eq!(
                        params,
                        vec![(true, plain(70)), (false, plain(3)), (true, plain(70))]
                    );
                    seen += 1;
                }
            }
            wasmparser::Payload::GlobalSection(reader) => {
                for global in reader {
                    let global = global.unwrap();
                    assert_eq!(heap(global.ty.content_type), (true, plain(70)));
                    let first = global.init_expr.get_operators_reader().read().unwrap();
                    assert_eq!(first, wasmparser::Operator::RefNull { hty: plain(70) });
                    seen += 1;
                }
            }
            wasmparser::Payload::CodeSectionEntry(body) => {
                for local in body.get_locals_reader().unwrap() {
                    assert_eq!(heap(local.unwrap().1), (true, plain(70)));
                    seen += 1;
                }
            }
            _ => {}
        }
    }
    assert_eq!(seen, 3);
}

#[test]
fn unreadable_input_is_refused_by_side() {
    let good = wat::parse_str(PLAIN_SHELL).unwrap();
    let bad = [0u8, 1, 2, 3];
    let e = link(&bad, &good).unwrap_err().message();
    assert!(e.starts_with("parsing shell module: "), "{e}");
    let e = link(&good, &bad).unwrap_err().message();
    assert!(e.starts_with("parsing user module: "), "{e}");
    let e = tvm::link::link_from_wat("(module", &good).unwrap_err().message();
    assert!(e.starts_with("parsing shell WAT: "), "{e}");
}

#[test]
fn a_shell_in_text_form_is_compiled() {
    let user = wat::parse_str(r#"(module (func (export "go")))"#).unwrap();
    let shell = wat::parse_str(PLAIN_SHELL).unwrap();
    assert_eq!(
        tvm::link::link_from_wat(PLAIN_SHELL, &user).unwrap(),
        link(&shell, &user).unwrap()
    );
}

#[test]
fn a_generated_shell_is_linked() {
    let params = tvm::guest::module::ModuleParams {
        n_pools: 2,
        initial_pages_per_pool: 1,
        max_pages_per_pool: 2,
        user_body: String::new(),
    };
    let user = wat::parse_str(
        r#"(module
             (import "tvm_mm" "tvm_store_u32" (func $store (param i32 i32 i32)))
             (import "tvm_mm" "tvm_load_u32" (func $load (param i32 i32) (result i32)))
             (import "host" "log" (func $log (param i32)))
             (func (export "go") (param i32 i32) (result i32)
               (call $log (local.get 1))
               (call $store (local.get 0) (i32.const 8) (local.get 1))
               (call $load (local.get 0) (i32.const 8))))"#,
    )
    .unwrap();
    let merged = match tvm::link::link_with_params(&params, &user) {
        Ok(bytes) => bytes,
        Err(e) => panic!("{}", e.message()),
    };
    let engine = engine();
    let module = Module::new(&engine, &merged).unwrap();
    let mut store = Store::new(&engine, Vec::new());
    let mut linker: Linker<Vec<i32>> = Linker::new(&engine);
    linker
        .func_wrap("host", "log", |mut caller: wasmtime::Caller<'_, Vec<i32>>, v: i32| {
            caller.data_mut().push(v);
        })
        .unwrap();
    let i = linker.instantiate(&mut store, &module).unwrap();
    assert_eq!(call2(&mut store, &i, "go", 0, 11), 11);
    assert_eq!(call2(&mut store, &i, "go", 1, 22), 22);
    assert_eq!(store.data(), &vec![11, 22]);
    let sum = i.get_typed_func::<(i32, i32), i64>(&mut store, "tvm_simd_sum_u8_p1").unwrap();
    assert_eq!(sum.call(&mut store, (0, 16)).unwrap(), 22);
}

#[test]
fn indices_of_more_than_one_byte_are_encoded() {
    let mut user = String::from("(module\n");
    for i in 0..200 {
        let params = (0..i % 20).map(|_| "i32 ").collect::<String>();
        let results = (0..i / 20).map(|_| "i64 ").collect::<String>();
        user.push_str(&format!("  (type (func (param {params}) (result {results})))\n"));
    }
    user.push_str(
        r#"
        (type $wide (func (param i32 i64 i32) (result i32)))
        (import "tvm_mm" "tvm_load_u32" (func $load (param i32 i32) (result i32)))
        (import "tvm_mm" "tvm_store_u32" (func $store (param i32 i32 i32)))
        (func (export "go") (param i32 i32) (result i32)
          (call $store (local.get 0) (i32.const 4) (local.get 1))
          (i32.const 1)
          (i64.const 2)
          (call $load (local.get 0) (i32.const 4))
          (block (type $wide)
            (local.set 0)
            (drop)
            (drop)
            (local.get 0))))
        "#,
    );
    let user = wat::parse_str(&user).unwrap();
    let params = tvm::guest::module::ModuleParams {
        n_pools: 16,
        initial_pages_per_pool: 1,
        max_pages_per_pool: 2,
        user_body: String::new(),
    };
    let merged = match tvm::link::link_with_params(&params, &user) {
        Ok(bytes) => bytes,
        Err(e) => panic!("{}", e.message()),
    };
    let engine = engine();
    let module = Module::new(&engine, &merged).unwrap();
    let mut store = Store::new(&engine, Vec::new());
    let i = Linker::new(&engine).instantiate(&mut store, &module).unwrap();
    assert_eq!(call2(&mut store, &i, "go", 15, 77), 77);
}
