use tvm::link::error::LinkError;
use tvm::link::merge::LinkOptions;
use tvm::link::{link, link_with_options};

/// Minimal shell with two memories so we can test aliasing an
/// arbitrary pool, not just pool 0.
const TWO_MEM_SHELL: &str = r#"
    (module
      (memory (export "mem0") 1 256)
      (memory (export "mem1") 1 256)
      (func (export "tvm_load_u8") (param $pool i32) (param $off i32) (result i32)
        (i32.const 0))
      (func (export "tvm_store_u8") (param $pool i32) (param $off i32) (param $val i32)))
"#;

const USER_TVM_ONLY: &str = r#"
    (module
      (import "tvm_mm" "tvm_load_u8" (func $load (param i32 i32) (result i32)))
      (func (export "go") (param i32 i32) (result i32)
        local.get 0
        local.get 1
        call $load))
"#;

fn link_wat(shell: &str, user: &str, opts: &LinkOptions) -> Result<Vec<u8>, LinkError> {
    let shell_bytes = wat::parse_str(shell).unwrap();
    let user_bytes = wat::parse_str(user).unwrap();
    link_with_options(&shell_bytes, &user_bytes, opts)
}

/// Walk the export section and return (name, kind, index) triples.
fn exports_of(bytes: &[u8]) -> Vec<(String, wasmparser::ExternalKind, u32)> {
    let mut out = Vec::new();
    for payload in wasmparser::Parser::new(0).parse_all(bytes) {
        if let wasmparser::Payload::ExportSection(reader) = payload.unwrap() {
            for e in reader {
                let e = e.unwrap();
                out.push((e.name.to_string(), e.kind, e.index));
            }
        }
    }
    out
}

#[test]
fn alias_memory0_adds_export_named_memory() {
    let opts = LinkOptions {
        aliases: vec![("memory".to_string(), 0)],
    };
    let merged = link_wat(TWO_MEM_SHELL, USER_TVM_ONLY, &opts).unwrap();
    wasmparser::Validator::new_with_features(
        wasmparser::WasmFeatures::default() | wasmparser::WasmFeatures::MULTI_MEMORY,
    )
    .validate_all(&merged).unwrap();

    let exports = exports_of(&merged);
    let mem_exports: Vec<&(String, wasmparser::ExternalKind, u32)> = exports
        .iter()
        .filter(|(_, k, _)| matches!(k, wasmparser::ExternalKind::Memory))
        .collect();

    // mem0, mem1, plus the new "memory" alias for memory 0.
    assert!(
        mem_exports
            .iter()
            .any(|(n, _, idx)| n == "memory" && *idx == 0),
        "expected an export named `memory` referencing memory 0; got {:?}",
        mem_exports
    );
    // Originals must still be present.
    assert!(mem_exports.iter().any(|(n, _, idx)| n == "mem0" && *idx == 0));
    assert!(mem_exports.iter().any(|(n, _, idx)| n == "mem1" && *idx == 1));
}

#[test]
fn alias_arbitrary_pool_index() {
    let opts = LinkOptions {
        aliases: vec![("hot_memory".to_string(), 1)],
    };
    let merged = link_wat(TWO_MEM_SHELL, USER_TVM_ONLY, &opts).unwrap();
    let exports = exports_of(&merged);
    assert!(
        exports
            .iter()
            .any(|(n, k, idx)| n == "hot_memory"
                && matches!(k, wasmparser::ExternalKind::Memory)
                && *idx == 1),
        "expected `hot_memory` to alias memory index 1; got {:?}",
        exports
    );
}

#[test]
fn multiple_aliases_coexist() {
    let opts = LinkOptions {
        aliases: vec![
            ("memory".to_string(), 0),
            ("scratch".to_string(), 1),
        ],
    };
    let merged = link_wat(TWO_MEM_SHELL, USER_TVM_ONLY, &opts).unwrap();
    let exports = exports_of(&merged);
    assert!(exports.iter().any(|(n, _, idx)| n == "memory" && *idx == 0));
    assert!(exports.iter().any(|(n, _, idx)| n == "scratch" && *idx == 1));
}

#[test]
fn default_options_emit_no_aliases() {
    let shell_bytes = wat::parse_str(TWO_MEM_SHELL).unwrap();
    let user_bytes = wat::parse_str(USER_TVM_ONLY).unwrap();
    let merged = link(&shell_bytes, &user_bytes).unwrap();
    let exports = exports_of(&merged);
    assert!(
        !exports
            .iter()
            .any(|(n, _, _)| n == "memory"),
        "default link() must not synthesize a `memory` export; got {:?}",
        exports
    );
}

#[test]
fn alias_out_of_range_index_is_rejected() {
    let opts = LinkOptions {
        aliases: vec![("memory".to_string(), 99)],
    };
    let err = link_wat(TWO_MEM_SHELL, USER_TVM_ONLY, &opts).unwrap_err();
    let msg = err.message();
    assert!(
        msg.contains("99") && msg.to_lowercase().contains("memor"),
        "expected out-of-range alias rejection, got: {msg}"
    );
}

#[test]
fn alias_colliding_name_is_rejected() {
    let opts = LinkOptions {
        // `mem0` is already exported by the shell — duplicate name.
        aliases: vec![("mem0".to_string(), 0)],
    };
    let err = link_wat(TWO_MEM_SHELL, USER_TVM_ONLY, &opts).unwrap_err();
    let msg = err.message();
    assert!(
        msg.to_lowercase().contains("collide") || msg.contains("mem0"),
        "expected collision rejection, got: {msg}"
    );
}
