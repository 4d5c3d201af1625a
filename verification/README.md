# tvm

Tiered virtual memory for WebAssembly, verified with Verus.

A directory of coordinated 32-bit memories stands in for one large linear memory.
Regions are typed, carry a placement policy, move between tiers, and are reached
through handles that are checked against the region's generation.

## Layout

- `src/` is the library. What it promises stands in contracts that Verus proves.
  - `allocator`, `blocks`: bump, free-list and slab allocation inside a region
  - `region`, `entry`, `directory`, `tiers`, `slices`, `concurrent`, `eviction`:
    regions, their tiers, and bulk eviction
  - `handle`, `cache`, `debug`, `error`, `metrics`, `remap`, `memory_region`, `facade`
  - `guest`: the generated multi-memory shell and the guest's own directory
  - `link`: linking a compiled module against the shell
  - `rt`: what a guest makes of the replies of its host
  - `cli`: the command lines of the tools
  - `bench`: the measured workloads, their data and their report
  - `laws`, `link::laws`, and the `law_` functions elsewhere: what holds across
    operations
- `tests/` runs the library, the linked modules under wasmtime among them.
- `app/` is ordinary Rust around the library: the tools, files, locks, futures,
  calls into a host, and floating-point statistics.

## What is trusted

The calls into `wasmparser`, `wasm-encoder` and `wat` stand behind small wrappers in
`src/link/outside.rs`; the calls into `hashbrown` in `src/remap.rs`. Beside them
stand `String::push` in `src/guest/wat.rs` and `slice::sort` in `src/bench/rank.rs`.
Each says in its comment what is believed of the outside function.
