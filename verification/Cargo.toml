[package]
name = "tvm"
version = "0.1.0"
edition = "2021"
publish = false

[dependencies]
wasmparser = "=0.249.0"
wasm-encoder = { version = "=0.249.0", features = ["wasmparser"] }
wat = "=1.249.0"
hashbrown = "=0.16.1"
anyhow = "=1.0.104"
serde = { version = "=1.0.229", features = ["derive"] }
serde_json = "=1.0.154"
thiserror = "=2.0.21"
tempfile = "=3.27.0"
wasmtime = { version = "=45.0.3", default-features = false, features = ["cranelift", "runtime", "std", "wat"] }
wasmer = "*"
