use tvm::guest::dispatch::{
    emit_bulk_copy_dispatcher, emit_bulk_copy_from_default_dispatcher,
    emit_indirect_load_dispatchers, emit_load_dispatcher, emit_specialized_copy_helpers,
    emit_specialized_intra_pool_copy, emit_specialized_simd_kernels,
    emit_specialized_simd_reducers, emit_specialized_typed_helpers, emit_store_dispatcher,
};
use tvm::guest::module::{
    tvm_guest_mm_module_template, tvm_guest_mm_module_with_wasi_spill, ModuleParams,
};

fn wrap(n_pools: u32, body: &str) -> String {
    let mut s = String::from("(module\n");
    for i in 0..n_pools {
        s.push_str(&format!("  (memory {} 1)\n", i));
    }
    s.push_str(body);
    s.push_str(")\n");
    s
}

#[test]
fn load_dispatcher_parses_for_various_n() {
    for n in [1u32, 2, 3, 4, 7, 8, 16, 64, 256] {
        let body = emit_load_dispatcher("tvm_load_u8", "i32.load8_u", "i32", n);
        let module = wrap(n, &body);
        wat::parse_str(&module).unwrap_or_else(|e| {
            panic!(
                "n_pools={} failed to parse: {}\n--- module ---\n{}",
                n, e, module
            )
        });
    }
}

#[test]
fn store_dispatcher_parses_for_various_n() {
    for n in [1u32, 2, 5, 16, 64] {
        let body = emit_store_dispatcher("tvm_store_u32", "i32.store", "i32", n);
        wat::parse_str(wrap(n, &body)).expect("parse");
    }
}

#[test]
fn copy_dispatchers_parse() {
    for n in [1u32, 2, 3, 8, 64] {
        let mut body = String::new();
        body.push_str(&emit_bulk_copy_dispatcher(n));
        body.push_str(&emit_bulk_copy_from_default_dispatcher(n));
        wat::parse_str(wrap(n, &body)).expect("parse");
    }
}

#[test]
fn specialized_copy_helpers_parse() {
    for n in [1u32, 4, 16, 64] {
        let body = emit_specialized_copy_helpers(n);
        wat::parse_str(wrap(n, &body)).expect("parse");
    }
}

/// Dispatch tree depth must be `ceil(log2(n))` — verified by counting
/// `(if` occurrences along the deepest leaf path. Approximate: the
/// total number of `(if` statements should equal `n - 1`, since the
/// BST has n leaves and n-1 internal nodes.
#[test]
fn bst_depth_is_log_n() {
    // Count `(if ` occurrences (with trailing space to exclude e.g.
    // `(if`-prefixed identifiers).
    let s = emit_load_dispatcher("tvm_load_u32", "i32.load", "i32", 64);
    // 1 bounds-guard `if` + 63 BST internal `if`s = 64.
    let count = s.matches("(if ").count();
    assert_eq!(count, 64, "module:\n{}", s);
}

#[test]
fn simd_kernels_parse() {
    for n in [1u32, 4, 16] {
        let body = emit_specialized_simd_kernels(n);
        wat::parse_str(wrap(n, &body)).expect("parse");
    }
}

#[test]
fn indirect_load_dispatchers_parse() {
    for n in [1u32, 2, 4, 16, 64] {
        let mut body = emit_specialized_typed_helpers(n);
        body.push_str(&emit_indirect_load_dispatchers(n));
        wat::parse_str(wrap(n, &body))
            .unwrap_or_else(|e| panic!("indirect dispatchers n={} failed to parse: {}", n, e));
    }
}

#[test]
fn intra_pool_copy_helpers_parse() {
    for n in [1u32, 2, 4, 16] {
        let body = emit_specialized_intra_pool_copy(n);
        wat::parse_str(wrap(n, &body)).expect("parse");
    }
}

#[test]
fn specialized_typed_helpers_parse() {
    for n in [1u32, 2, 4, 16] {
        let body = emit_specialized_typed_helpers(n);
        wat::parse_str(wrap(n, &body)).expect("parse");
    }
}

#[test]
fn simd_reducers_parse() {
    for n in [1u32, 2, 4, 8] {
        let body = emit_specialized_simd_reducers(n);
        wat::parse_str(wrap(n, &body)).unwrap_or_else(|e| {
            panic!(
                "simd reducers n={} failed to parse: {}\n--- module ---\n{}",
                n,
                e,
                wrap(n, &body)
            )
        });
    }
}

/// Specialized helper is a single `memory.copy` — one line of body.
#[test]
fn specialized_helper_is_one_op() {
    let s = emit_specialized_copy_helpers(4);
    assert!(s.contains("(memory.copy 0 0"));
    assert!(s.contains("(memory.copy 0 1"));
    assert!(s.contains("(memory.copy 0 2"));
    assert!(s.contains("(memory.copy 0 3"));
    assert!(s.contains("(memory.copy 1 0"));
    assert!(s.contains("(memory.copy 2 0"));
    assert!(s.contains("(memory.copy 3 0"));
}

#[test]
fn empty_module_with_4_pools_compiles() {
    let p = ModuleParams {
        n_pools: 4,
        initial_pages_per_pool: 1,
        max_pages_per_pool: 16,
        user_body: String::new(),
    };
    let wat = tvm_guest_mm_module_template(&p);
    let bytes = wat::parse_str(&wat).expect("must parse");
    assert!(!bytes.is_empty());
}

#[test]
fn module_with_user_body_compiles() {
    let user = r#"
        (func (export "noop"))
        (func (export "answer") (result i32) (i32.const 42))
    "#;
    let p = ModuleParams {
        n_pools: 2,
        initial_pages_per_pool: 1,
        max_pages_per_pool: 4,
        user_body: user.to_string(),
    };
    let wat = tvm_guest_mm_module_template(&p);
    let bytes = wat::parse_str(&wat).expect("must parse");
    assert!(!bytes.is_empty());
}

#[test]
fn module_with_16_pools_compiles() {
    let p = ModuleParams::default();
    let wat = tvm_guest_mm_module_template(&p);
    wat::parse_str(&wat).expect("must parse with default 16 pools");
}

#[test]
fn wasi_spill_module_parses() {
    let p = ModuleParams {
        n_pools: 4,
        initial_pages_per_pool: 1,
        max_pages_per_pool: 16,
        user_body: String::new(),
    };
    let wat = tvm_guest_mm_module_with_wasi_spill(&p);
    let bytes = wat::parse_str(&wat).expect("must parse");
    assert!(!bytes.is_empty());
}

#[test]
fn wasi_spill_module_has_imports() {
    let p = ModuleParams {
        n_pools: 4,
        initial_pages_per_pool: 1,
        max_pages_per_pool: 16,
        user_body: String::new(),
    };
    let wat = tvm_guest_mm_module_with_wasi_spill(&p);
    assert!(wat.contains("wasi_snapshot_preview1"));
    assert!(wat.contains("fd_write"));
    assert!(wat.contains("fd_read"));
    assert!(wat.contains("tvm_spill_to_fd"));
    assert!(wat.contains("tvm_load_from_fd"));
}

