use std::mem::size_of;
use tvm::allocator::{BumpAllocator, FreelistAllocator, RegionAllocator};
use tvm::cache::ResolveCache;
use tvm::handle::Handle;
use tvm::memory_region::VecBackedRegion;
use tvm::metrics::RegionMetrics;
use tvm::region::{Region, RegionKind, Residency};

fn region(id: u16, generation: u16) -> Region {
    Region {
        id,
        generation,
        kind: RegionKind::HotHeap,
        capacity: 64,
        used: 0,
        residency: Residency::Hot,
        pinned: false,
        pinnable: true,
        spillable: false,
    }
}

#[test]
fn bump_alloc_basic() {
    let mut a = BumpAllocator::new(64);
    assert_eq!(a.allocate(8, 1).unwrap(), 0);
    assert_eq!(a.allocate(8, 1).unwrap(), 8);
    assert!(a.allocate(64, 1).is_err());
}

#[test]
fn bump_alloc_alignment() {
    let mut a = BumpAllocator::new(64);
    assert_eq!(a.allocate(1, 1).unwrap(), 0);
    assert_eq!(a.allocate(4, 8).unwrap(), 8);
}

#[test]
fn freelist_alloc_dealloc_reuse() {
    let mut a = FreelistAllocator::new(64);
    let x = a.allocate(16, 1).unwrap();
    let y = a.allocate(16, 1).unwrap();
    assert_eq!(x, 0);
    assert_eq!(y, 16);
    a.dealloc(x).unwrap();
    // Reuse the freed block (first-fit).
    let z = a.allocate(8, 1).unwrap();
    assert_eq!(z, 0);
}

#[test]
fn freelist_coalesces_on_dealloc() {
    let mut a = FreelistAllocator::new(64);
    let x = a.allocate(16, 1).unwrap();
    let y = a.allocate(16, 1).unwrap();
    let z = a.allocate(16, 1).unwrap();
    a.dealloc(x).unwrap();
    a.dealloc(z).unwrap();
    a.dealloc(y).unwrap(); // middle frees → should coalesce all three
    // After full coalesce, single 64-byte alloc must succeed.
    let big = a.allocate(64, 1).unwrap();
    assert_eq!(big, 0);
}

#[test]
fn freelist_dealloc_unknown_offset_errors() {
    let mut a = FreelistAllocator::new(32);
    assert!(a.dealloc(0).is_err());
}

#[test]
fn miss_then_install_then_hit() {
    let mut c = ResolveCache::new();
    assert!(c.lookup(3).is_none());
    c.install(&region(3, 1));
    let hit = c.lookup(3).unwrap();
    assert_eq!(hit.generation, 1);
    assert!(hit.resident);
}

#[test]
fn invalidate_forces_miss() {
    let mut c = ResolveCache::new();
    c.install(&region(5, 7));
    c.invalidate(5);
    assert!(c.lookup(5).is_none());
}

#[test]
fn collision_evicts_old_slot() {
    let mut c = ResolveCache::new();
    c.install(&region(0, 1));
    c.install(&region(8, 1)); // same slot index
    assert!(c.lookup(0).is_none());
    assert!(c.lookup(8).is_some());
}

#[test]
fn pack_roundtrip() {
    let h = Handle {
        region_id: 7,
        generation: 42,
        offset: 0xDEAD_BEEF,
    };
    assert_eq!(Handle::unpack(h.pack()), h);
}

#[test]
fn null_handle() {
    assert!(Handle::null().is_null());
}

#[test]
fn report_sizes() {
    println!("size_of::<Region>() = {}", size_of::<Region>());
    println!(
        "size_of::<RegionMetrics>() = {}",
        size_of::<RegionMetrics>()
    );
    println!(
        "size_of::<RegionAllocator>() = {}",
        size_of::<RegionAllocator>()
    );
    println!("size_of::<Handle>() = {}", size_of::<Handle>());
    println!("size_of::<ResolveCache>() = {}", size_of::<ResolveCache>());
    println!(
        "size_of::<Option<VecBackedRegion>>() = {}",
        size_of::<Option<VecBackedRegion>>()
    );
}
