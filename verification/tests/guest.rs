use std::sync::{Arc, Mutex};
use tvm::allocator::AllocatorKind;
use tvm::error::TvmError;
use tvm::facade::TvmFacade;
use tvm::guest::directory::{GuestDirectory, Pool};
use tvm::guest::dispatcher::{Dispatch, FnDispatch};
use tvm::guest::facade::GuestTvm;
use tvm::guest::multi::MultiGuestTvm;
use tvm::handle::Handle;
use tvm::region::RegionKind;

type Pools = Arc<Mutex<Vec<Vec<u8>>>>;

fn fresh_pools(n_pools: usize, capacity: u32) -> Pools {
    Arc::new(Mutex::new(vec![vec![0u8; capacity as usize]; n_pools]))
}

fn stub_dispatch(pools: &Pools) -> impl Dispatch {
    let (reads, writes, copies) = (pools.clone(), pools.clone(), pools.clone());
    FnDispatch::new(
        move |pool: u32, off: u32, dst: &mut [u8]| -> Result<(), TvmError> {
            let pools = reads.lock().unwrap();
            let p = &pools[pool as usize];
            let start = off as usize;
            let end = start + dst.len();
            if end > p.len() {
                return Err(TvmError::OutOfBounds);
            }
            dst.copy_from_slice(&p[start..end]);
            Ok(())
        },
        move |pool: u32, off: u32, src: &[u8]| -> Result<(), TvmError> {
            let mut pools = writes.lock().unwrap();
            let p = &mut pools[pool as usize];
            let start = off as usize;
            let end = start + src.len();
            if end > p.len() {
                return Err(TvmError::OutOfBounds);
            }
            p[start..end].copy_from_slice(src);
            Ok(())
        },
        move |pool: u32, dst_off: u32, src_off: u32, len: u32| -> Result<(), TvmError> {
            let mut pools = copies.lock().unwrap();
            let p = &mut pools[pool as usize];
            let (s, d, n) = (src_off as usize, dst_off as usize, len as usize);
            if s + n > p.len() || d + n > p.len() {
                return Err(TvmError::OutOfBounds);
            }
            p.copy_within(s..s + n, d);
            Ok(())
        },
    )
}

fn pool_descs(first: usize, count: usize, capacity: u32) -> Vec<Pool> {
    (first..first + count)
        .map(|i| Pool {
            memory_index: i as u32,
            used: 0,
            capacity,
        })
        .collect()
}

fn dir(pool_count: u32, pool_capacity: u32) -> GuestDirectory {
    GuestDirectory::new(pool_descs(0, pool_count as usize, pool_capacity))
}

fn build_guest(n_pools: usize, capacity: u32) -> GuestTvm<impl Dispatch> {
    let pools = fresh_pools(n_pools, capacity);
    GuestTvm::new(pool_descs(0, n_pools, capacity), stub_dispatch(&pools))
}

fn build_compactable(n_pools: usize, capacity: u32) -> GuestTvm<impl Dispatch> {
    let mut g = build_guest(n_pools, capacity);
    g.default_allocator = AllocatorKind::Freelist;
    g
}

fn build_shards(n_shards: usize, pools_per_shard: usize, capacity: u32) -> MultiGuestTvm<impl Dispatch> {
    let pools = fresh_pools(n_shards * pools_per_shard, capacity);
    let mut shards = Vec::new();
    for s in 0..n_shards {
        shards.push(GuestTvm::new(
            pool_descs(s * pools_per_shard, pools_per_shard, capacity),
            stub_dispatch(&pools),
        ));
    }
    MultiGuestTvm::new(shards)
}

#[test]
fn hot_regions_land_in_low_band_round_robin() {
    // n=4 → mid=2 → hot band is pools [0, 2). HotHeap is Hot, so the
    // four HotHeap regions cycle through pools 0,1,0,1.
    let mut d = dir(4, 1024);
    let r0 = d
        .create_region(RegionKind::HotHeap, 128, AllocatorKind::Bump)
        .unwrap();
    let r1 = d
        .create_region(RegionKind::HotHeap, 128, AllocatorKind::Bump)
        .unwrap();
    let r2 = d
        .create_region(RegionKind::HotHeap, 128, AllocatorKind::Bump)
        .unwrap();
    let r3 = d
        .create_region(RegionKind::HotHeap, 128, AllocatorKind::Bump)
        .unwrap();
    let pools: [u32; 4] = [
        d.pool_of(r0).unwrap(),
        d.pool_of(r1).unwrap(),
        d.pool_of(r2).unwrap(),
        d.pool_of(r3).unwrap(),
    ];
    assert_eq!(pools, [0, 1, 0, 1]);
}

#[test]
fn warm_regions_land_in_high_band() {
    // PageStore is Warm → high band [2, 4).
    let mut d = dir(4, 1024);
    let r0 = d
        .create_region(RegionKind::PageStore, 128, AllocatorKind::Bump)
        .unwrap();
    let r1 = d
        .create_region(RegionKind::PageStore, 128, AllocatorKind::Bump)
        .unwrap();
    let r2 = d
        .create_region(RegionKind::PageStore, 128, AllocatorKind::Bump)
        .unwrap();
    let pools: [u32; 3] = [
        d.pool_of(r0).unwrap(),
        d.pool_of(r1).unwrap(),
        d.pool_of(r2).unwrap(),
    ];
    assert_eq!(pools, [2, 3, 2]);
}

#[test]
fn hot_band_falls_through_to_warm_when_full() {
    // n=2 → mid=1 → hot band is pool 0 only. After exhausting it,
    // a Hot region must fall through to pool 1.
    let mut d = dir(2, 100);
    d.create_region(RegionKind::HotHeap, 100, AllocatorKind::Bump)
        .unwrap();
    let r1 = d
        .create_region(RegionKind::HotHeap, 100, AllocatorKind::Bump)
        .unwrap();
    assert_eq!(d.pool_of(r1).unwrap(), 1);
}

#[test]
fn alloc_and_resolve_yields_correct_pool_offset() {
    let mut d = dir(2, 4096);
    let r = d
        .create_region(RegionKind::HotHeap, 1024, AllocatorKind::Bump)
        .unwrap();
    let h = d.allocate(r, 64).unwrap();
    let (pool, abs) = d.resolve(h).unwrap();
    assert_eq!(pool, 0);
    // Absolute offset = base + within-region offset. Region was first
    // allocation in pool 0 → base=0; first alloc inside region → off=0.
    assert_eq!(abs, 0);

    let h2 = d.allocate(r, 32).unwrap();
    let (_, abs2) = d.resolve(h2).unwrap();
    assert_eq!(abs2, 64);
}

#[test]
fn stale_handle_rejected_on_resolve() {
    let mut d = dir(1, 4096);
    let r = d
        .create_region(RegionKind::HotHeap, 1024, AllocatorKind::Bump)
        .unwrap();
    let h = d.allocate(r, 32).unwrap();
    // Hand-craft a stale handle (different generation).
    let stale = Handle {
        generation: 99,
        ..h
    };
    assert!(matches!(d.resolve(stale), Err(TvmError::StaleHandle)));
}

#[test]
fn out_of_capacity_falls_through_pools() {
    // n=3 → mid=2 → hot band [0,2), warm band [2,3).
    let mut d = dir(3, 100);
    d.create_region(RegionKind::HotHeap, 100, AllocatorKind::Bump)
        .unwrap();
    d.create_region(RegionKind::HotHeap, 100, AllocatorKind::Bump)
        .unwrap();
    // Third Hot region: hot band is full → falls through to warm.
    let r3 = d
        .create_region(RegionKind::HotHeap, 100, AllocatorKind::Bump)
        .unwrap();
    assert_eq!(d.pool_of(r3).unwrap(), 2);
    // Fourth: nowhere to put it.
    assert!(matches!(
        d.create_region(RegionKind::HotHeap, 1, AllocatorKind::Bump),
        Err(TvmError::AllocationFailed)
    ));
}

#[test]
fn slot_lookup_is_o1_dense() {
    // Sanity-check: ids start at 1, slots vec grows by exactly one
    // per create_region. region_info on a non-existent id returns
    // RegionNotFound without iterating.
    let mut d = dir(4, 4096);
    let r1 = d
        .create_region(RegionKind::HotHeap, 64, AllocatorKind::Bump)
        .unwrap();
    let r2 = d
        .create_region(RegionKind::HotHeap, 64, AllocatorKind::Bump)
        .unwrap();
    assert_eq!(r1, 1);
    assert_eq!(r2, 2);
    assert_eq!(d.slot_count(), 3); // null + r1 + r2
    assert!(matches!(
        d.region_info(99),
        Err(TvmError::RegionNotFound(99))
    ));
}

#[test]
fn facade_round_trip() {
    let mut g = build_guest(4, 4096);
    let r = g.create_region(RegionKind::HotHeap, 1024).unwrap();
    let h = g.allocate(r, 16).unwrap();
    g.write(h, b"facade-via-guest").unwrap();
    let mut buf = [0u8; 16];
    g.read(h, &mut buf).unwrap();
    assert_eq!(&buf, b"facade-via-guest");
}

#[test]
fn with_default_allocator_freelist_creates_compactable_regions() {
    let pools = fresh_pools(2, 4096);
    let descs = pool_descs(0, 2, 4096);
    let mut g = GuestTvm::with_default_allocator(
        descs,
        stub_dispatch(&pools),
        AllocatorKind::Freelist,
    );
    // Region inherits the default; compaction must succeed (Bump
    // would have returned UnsupportedAllocator).
    let r = g.create_region(RegionKind::HotHeap, 256).unwrap();
    let h = g.allocate(r, 64).unwrap();
    g.write(h, &[0x55; 64]).unwrap();
    g.compact_region(r)
        .expect("freelist regions are compactable");
}

#[test]
fn resolve_cache_hits_on_repeat_access() {
    // Indirect verification: same-region reads are fast and
    // correct. Hard to assert "cache hit" without exposing
    // counters; instead we assert correctness across a sequence
    // of reads/writes that would expose any cache staleness.
    let mut g = build_guest(2, 4096);
    let r1 = g.create_region(RegionKind::HotHeap, 256).unwrap();
    let r2 = g.create_region(RegionKind::HotHeap, 256).unwrap();
    let h1 = g.allocate(r1, 32).unwrap();
    let h2 = g.allocate(r2, 32).unwrap();

    for i in 0..100u32 {
        // Alternate writes/reads against r1 and r2 so the cache
        // gets evicted and re-warmed each iteration.
        g.write(h1, &[(i & 0xff) as u8; 32]).unwrap();
        g.write(h2, &[((i ^ 0xff) & 0xff) as u8; 32]).unwrap();
        let mut buf1 = [0u8; 32];
        let mut buf2 = [0u8; 32];
        g.read(h1, &mut buf1).unwrap();
        g.read(h2, &mut buf2).unwrap();
        assert_eq!(buf1[0], (i & 0xff) as u8);
        assert_eq!(buf2[0], ((i ^ 0xff) & 0xff) as u8);
    }
}

#[test]
fn round_trip_via_multi() {
    let mut m = build_shards(3, 2, 4096);
    let r = m.create_region(RegionKind::HotHeap, 1024).unwrap();
    let h = m.allocate(r, 16).unwrap();
    m.write(h, b"multi-guest-test").unwrap();
    let mut buf = [0u8; 16];
    m.read(h, &mut buf).unwrap();
    assert_eq!(&buf, b"multi-guest-test");
}

#[test]
fn places_round_robin_across_shards() {
    let mut m = build_shards(4, 2, 4096);
    let r0 = m.create_region(RegionKind::HotHeap, 256).unwrap();
    let r1 = m.create_region(RegionKind::HotHeap, 256).unwrap();
    let r2 = m.create_region(RegionKind::HotHeap, 256).unwrap();
    let r3 = m.create_region(RegionKind::HotHeap, 256).unwrap();
    assert_eq!(m.shard_of(r0).unwrap(), 0);
    assert_eq!(m.shard_of(r1).unwrap(), 1);
    assert_eq!(m.shard_of(r2).unwrap(), 2);
    assert_eq!(m.shard_of(r3).unwrap(), 3);
}

#[test]
fn falls_through_to_next_shard_when_one_is_full() {
    // Tiny shards: each holds exactly one region of 100 bytes.
    let mut m = build_shards(3, 1, 100);
    m.create_region(RegionKind::HotHeap, 100).unwrap(); // shard 0
    m.create_region(RegionKind::HotHeap, 100).unwrap(); // shard 1
    let r2 = m.create_region(RegionKind::HotHeap, 100).unwrap(); // shard 2
    assert_eq!(m.shard_of(r2).unwrap(), 2);
    // No room anywhere now.
    assert!(matches!(
        m.create_region(RegionKind::HotHeap, 1),
        Err(TvmError::AllocationFailed)
    ));
}

#[test]
fn region_info_surfaces_external_id() {
    let mut m = build_shards(2, 2, 4096);
    let r = m.create_region(RegionKind::HotHeap, 256).unwrap();
    let info = m.region_info(r).unwrap();
    assert_eq!(info.id, r); // external id, not the inner shard's id
}

#[test]
fn pin_routes_to_correct_shard() {
    let mut m = build_shards(2, 1, 4096);
    let r = m.create_region(RegionKind::HotHeap, 256).unwrap();
    m.pin(r).unwrap();
    assert!(m.region_info(r).unwrap().pinned);
    m.unpin(r).unwrap();
}

#[test]
fn stale_handle_rejected_by_underlying_shard() {
    let mut m = build_shards(2, 1, 4096);
    let r = m.create_region(RegionKind::HotHeap, 256).unwrap();
    let h = m.allocate(r, 32).unwrap();
    let stale = Handle { generation: 99, ..h };
    assert!(matches!(m.read(stale, &mut [0u8; 32]), Err(TvmError::StaleHandle)));
}

#[test]
fn compaction_packs_live_blocks_and_migrates_handles() {
    let mut g = build_compactable(2, 4096);
    let r = g.directory_mut()
        .create_region(RegionKind::HotHeap, 1024, AllocatorKind::Freelist)
        .unwrap();

    // Allocate four blocks of distinct sizes with distinct payloads.
    let h_a = g.directory_mut().allocate(r, 64).unwrap();
    let h_b = g.directory_mut().allocate(r, 128).unwrap();
    let h_c = g.directory_mut().allocate(r, 32).unwrap();
    let h_d = g.directory_mut().allocate(r, 96).unwrap();

    g.write(h_a, &[0xaa; 64]).unwrap();
    g.write(h_b, &[0xbb; 128]).unwrap();
    g.write(h_c, &[0xcc; 32]).unwrap();
    g.write(h_d, &[0xdd; 96]).unwrap();

    // Free B → leaves a 128-byte hole between A and C.
    g.directory_mut().dealloc(h_b).unwrap();

    // Compact. Live blocks A (64), C (32), D (96) should pack to
    // offsets 0, 64, 96.
    let remap = g.compact_region(r).expect("compaction must succeed");
    assert_eq!(remap.region_id, r);
    assert_eq!(remap.old_generation, 1);
    assert_eq!(remap.new_generation, 2);
    assert_eq!(remap.mapping.len(), 3);
    assert_eq!(remap.mapping.get(&h_a.offset).copied(), Some(0));
    assert_eq!(remap.mapping.get(&h_c.offset).copied(), Some(64));
    assert_eq!(remap.mapping.get(&h_d.offset).copied(), Some(96));

    // Old handles must fail validation now.
    let mut buf = [0u8; 64];
    assert!(matches!(g.read(h_a, &mut buf), Err(TvmError::StaleHandle)));

    // Migrated handles must read the correct data.
    let h_a2 = remap.migrate(h_a).expect("A migrate");
    let h_c2 = remap.migrate(h_c).expect("C migrate");
    let h_d2 = remap.migrate(h_d).expect("D migrate");

    let mut a_buf = [0u8; 64];
    g.read(h_a2, &mut a_buf).unwrap();
    assert!(a_buf.iter().all(|&b| b == 0xaa), "A bytes preserved");

    let mut c_buf = [0u8; 32];
    g.read(h_c2, &mut c_buf).unwrap();
    assert!(c_buf.iter().all(|&b| b == 0xcc), "C bytes preserved");

    let mut d_buf = [0u8; 96];
    g.read(h_d2, &mut d_buf).unwrap();
    assert!(d_buf.iter().all(|&b| b == 0xdd), "D bytes preserved");

    // After compaction, used = 64 + 32 + 96 = 192.
    let info = g.region_info(r).unwrap();
    assert_eq!(info.used, 192);
    assert_eq!(info.generation, 2);

    // Subsequent allocations come from the freed tail, not the hole.
    let h_e = g.directory_mut().allocate(r, 200).unwrap();
    assert_eq!(h_e.offset, 192, "next alloc starts at compacted cursor");
}

#[test]
fn compaction_rejects_pinned_region() {
    let mut g = build_compactable(1, 4096);
    let r = g.directory_mut()
        .create_region(RegionKind::HotHeap, 512, AllocatorKind::Freelist)
        .unwrap();
    g.directory_mut().allocate(r, 64).unwrap();
    g.directory_mut().pin(r).unwrap();
    assert!(matches!(g.compact_region(r), Err(TvmError::Pinned)));
}

#[test]
fn resolve_cache_invalidates_on_compaction() {
    // Hit the cache via a read on the original generation, then
    // compact (which bumps generation), then read via the migrated
    // handle. If the cache wasn't invalidated, the second read would
    // resolve to the OLD pool/base for the new generation — wrong.
    let mut g = build_compactable(1, 4096);
    let r = g.directory_mut()
        .create_region(RegionKind::HotHeap, 1024, AllocatorKind::Freelist)
        .unwrap();
    let h_a = g.directory_mut().allocate(r, 64).unwrap();
    let h_b = g.directory_mut().allocate(r, 32).unwrap();
    g.write(h_a, &[0xaa; 64]).unwrap();
    g.write(h_b, &[0xbb; 32]).unwrap();
    g.directory_mut().dealloc(h_a).unwrap();

    // Warm the cache by reading h_b (still on generation 1).
    let mut buf = [0u8; 32];
    g.read(h_b, &mut buf).unwrap();
    assert!(buf.iter().all(|&x| x == 0xbb));

    // Compact — h_b's offset shifts from 64 → 0 and generation → 2.
    let remap = g.compact_region(r).unwrap();
    let h_b_new = remap.migrate(h_b).unwrap();

    // The migrated handle must resolve correctly. If the cache held
    // stale data (gen=1, base reflecting pre-compact layout), this
    // read would either fail validation (good) or return wrong
    // bytes (bad).
    let mut buf2 = [0u8; 32];
    g.read(h_b_new, &mut buf2).unwrap();
    assert!(buf2.iter().all(|&x| x == 0xbb), "post-compact read must work");

    // The pre-compact handle must STILL fail (stale generation), not
    // be silently served by the cache.
    assert!(matches!(g.read(h_b, &mut buf), Err(TvmError::StaleHandle)));
}

#[test]
fn compaction_rejects_bump_allocator() {
    let mut g = build_compactable(1, 4096);
    let r = g.directory_mut()
        .create_region(RegionKind::HotHeap, 512, AllocatorKind::Bump)
        .unwrap();
    g.directory_mut().allocate(r, 64).unwrap();
    assert!(matches!(g.compact_region(r), Err(TvmError::UnsupportedAllocator)));
}

#[test]
fn guest_accesses_stay_inside_their_region() {
    let mut g = build_guest(1, 4096);
    let a = g.create_region(RegionKind::HotHeap, 64).unwrap();
    let b = g.create_region(RegionKind::HotHeap, 64).unwrap();
    let ha = g.allocate(a, 64).unwrap();
    let hb = g.allocate(b, 64).unwrap();
    g.write(hb, &[7; 64]).unwrap();
    assert!(matches!(g.write(ha, &[1; 65]), Err(TvmError::OutOfBounds)));
    assert!(matches!(g.read(ha, &mut [0; 65]), Err(TvmError::OutOfBounds)));
    g.write(ha, &[1; 64]).unwrap();
    let mut buf = [0u8; 64];
    g.read(hb, &mut buf).unwrap();
    assert_eq!(buf, [7; 64]);
}

#[test]
fn guest_regions_do_not_overlap() {
    let mut d = dir(3, 256);
    let mut placed: Vec<(u32, u32, u32)> = Vec::new();
    for size in [100u32, 60, 156, 40, 90] {
        if let Ok(r) = d.create_region(RegionKind::ObjectArena, size, AllocatorKind::Freelist) {
            let h = d.allocate(r, size).unwrap();
            let (pool, at) = d.resolve(h).unwrap();
            assert!(at + size <= 256);
            for (p, from, len) in &placed {
                assert!(*p != pool || from + len <= at || at + size <= *from);
            }
            placed.push((pool, at, size));
        }
    }
    assert_eq!(placed.len(), 5);
    assert_eq!(d.slot_count(), 6);
    assert!(!d.would_accept(RegionKind::HotHeap, 257));
    assert_eq!(d._residency_marker(), tvm::region::Residency::Hot);
}

#[test]
fn guest_refusals() {
    let mut g = build_guest(1, 128);
    assert!(matches!(
        g.create_region(RegionKind::HotHeap, 129),
        Err(TvmError::AllocationFailed)
    ));
    let r = g.create_region(RegionKind::ObjectArena, 64).unwrap();
    assert_eq!(r, 1);
    assert!(matches!(g.pin(r), Err(TvmError::PolicyViolation)));
    assert!(matches!(g.allocate(9, 1), Err(TvmError::RegionNotFound(9))));
    assert!(matches!(g.allocate(r, 65), Err(TvmError::AllocationFailed)));
}

#[test]
fn shards_are_counted_and_unpinned() {
    let mut m = build_shards(2, 1, 128);
    assert_eq!(m.shard_count(), 2);
    let r = m.create_region(RegionKind::HotHeap, 64).unwrap();
    m.pin(r).unwrap();
    m.unpin(r).unwrap();
    assert!(!m.region_info(r).unwrap().pinned);
    assert!(matches!(m.region_info(77), Err(TvmError::RegionNotFound(77))));
}

/// Pools that are memory, with a record of every copy asked for.
#[derive(Clone)]
struct Recorder {
    pools: Pools,
    copies: Arc<Mutex<Vec<(u32, u32, u32, u32)>>>,
    copies_allowed: usize,
}

impl Recorder {
    fn new(n_pools: usize, capacity: u32) -> Recorder {
        Recorder {
            pools: fresh_pools(n_pools, capacity),
            copies: Arc::new(Mutex::new(Vec::new())),
            copies_allowed: usize::MAX,
        }
    }
}

impl Dispatch for Recorder {
    fn read_bytes(&mut self, pool: u32, offset: u32, dst: &mut [u8]) -> Result<(), TvmError> {
        let at = offset as usize;
        dst.copy_from_slice(&self.pools.lock().unwrap()[pool as usize][at..at + dst.len()]);
        Ok(())
    }

    fn write_bytes(&mut self, pool: u32, offset: u32, src: &[u8]) -> Result<(), TvmError> {
        let at = offset as usize;
        self.pools.lock().unwrap()[pool as usize][at..at + src.len()].copy_from_slice(src);
        Ok(())
    }

    fn intra_pool_copy(&mut self, pool: u32, dst_off: u32, src_off: u32, len: u32) -> Result<(), TvmError> {
        if self.copies_allowed == 0 {
            return Err(TvmError::OutOfBounds);
        }
        self.copies_allowed -= 1;
        self.copies.lock().unwrap().push((pool, dst_off, src_off, len));
        let (s, d, n) = (src_off as usize, dst_off as usize, len as usize);
        self.pools.lock().unwrap()[pool as usize].copy_within(s..s + n, d);
        Ok(())
    }
}

#[test]
fn compaction_moves_only_what_has_to_move_in_ascending_order() {
    let recorder = Recorder::new(2, 4096);
    let mut g = GuestTvm::with_default_allocator(
        pool_descs(0, 2, 4096),
        recorder.clone(),
        AllocatorKind::Freelist,
    );
    let r = g.create_region(RegionKind::HotHeap, 1024).unwrap();
    assert_eq!(r, 1);
    let handles: Vec<Handle> =
        [64u32, 128, 32, 96].iter().map(|size| g.allocate(r, *size).unwrap()).collect();
    let offsets: Vec<u32> = handles.iter().map(|h| h.offset).collect();
    assert_eq!(offsets, vec![0, 64, 192, 224]);
    g.write(handles[0], &[1; 64]).unwrap();
    g.write(handles[2], &[3; 32]).unwrap();
    g.write(handles[3], &[4; 96]).unwrap();
    g.dealloc(handles[1]).unwrap();
    let remap = g.compact_region(r).unwrap();
    assert_eq!(*recorder.copies.lock().unwrap(), vec![(0, 64, 192, 32), (0, 96, 224, 96)]);
    assert_eq!((remap.old_generation, remap.new_generation), (1, 2));
    assert_eq!(remap.mapping.len(), 3);
    for (old, new) in [(0u32, 0u32), (192, 64), (224, 96)] {
        assert_eq!(remap.mapping.get(&old), Some(&new));
    }
    assert_eq!(g.region_info(r).unwrap().used, 192);
    for (h, byte, size) in [(handles[0], 1u8, 64usize), (handles[2], 3, 32), (handles[3], 4, 96)] {
        let moved = remap.clone().migrate(h).unwrap();
        let mut buf = vec![0u8; size];
        g.read(moved, &mut buf).unwrap();
        assert_eq!(buf, vec![byte; size]);
        assert!(matches!(g.read(h, &mut buf), Err(TvmError::StaleHandle)));
    }
    assert_eq!(remap.migrate(handles[1]), None);
    assert_eq!(g.allocate(r, 200).unwrap().offset, 192);
}

#[test]
fn a_copy_that_fails_ends_the_compaction() {
    let mut recorder = Recorder::new(1, 4096);
    recorder.copies_allowed = 1;
    let mut g = GuestTvm::with_default_allocator(
        pool_descs(0, 1, 4096),
        recorder.clone(),
        AllocatorKind::Freelist,
    );
    let r = g.create_region(RegionKind::HotHeap, 1024).unwrap();
    let first = g.allocate(r, 16).unwrap();
    g.allocate(r, 16).unwrap();
    g.allocate(r, 16).unwrap();
    g.dealloc(first).unwrap();
    assert!(matches!(g.compact_region(r), Err(TvmError::OutOfBounds)));
    assert_eq!(*recorder.copies.lock().unwrap(), vec![(0, 0, 16, 16)]);
    let info = g.region_info(r).unwrap();
    assert_eq!((info.generation, info.used), (1, 32));
}

#[test]
fn a_guest_read_gives_back_a_guest_write() {
    let recorder = Recorder::new(2, 256);
    let mut g = GuestTvm::new(pool_descs(0, 2, 256), recorder);
    let a = g.create_region(RegionKind::HotHeap, 100).unwrap();
    let b = g.create_region(RegionKind::HotHeap, 100).unwrap();
    let c = g.create_region(RegionKind::HotHeap, 100).unwrap();
    let handles: Vec<Handle> = [a, b, c].iter().map(|r| g.allocate(*r, 100).unwrap()).collect();
    for (i, h) in handles.iter().enumerate() {
        g.write(*h, &[i as u8 + 1; 100]).unwrap();
    }
    let inner = Handle { offset: 40, ..handles[1] };
    g.write(inner, &[9; 5]).unwrap();
    let mut buf = [0u8; 5];
    g.read(inner, &mut buf).unwrap();
    assert_eq!(buf, [9; 5]);
    let mut all = [0u8; 100];
    g.read(handles[1], &mut all).unwrap();
    assert!(all[..40].iter().chain(&all[45..]).all(|x| *x == 2));
    for (i, h) in [(0u8, handles[0]), (2, handles[2])] {
        g.read(h, &mut all).unwrap();
        assert_eq!(all, [i + 1; 100]);
    }
}

#[test]
fn live_guest_allocations_share_no_byte() {
    let mut d = dir(2, 512);
    let mut ranges: Vec<(u32, u32, u32)> = Vec::new();
    for kind in [AllocatorKind::Bump, AllocatorKind::Freelist, AllocatorKind::Slab { class_size: 16 }] {
        let r = d.create_region(RegionKind::HotHeap, 128, kind).unwrap();
        let first = d.allocate(r, 16).unwrap();
        let (base, at) = d.resolve(first).unwrap();
        for _ in 0..3 {
            let h = d.allocate(r, 16).unwrap();
            let (pool, place) = d.resolve(h).unwrap();
            assert_eq!((pool, place - at), (base, h.offset - first.offset));
            ranges.push((pool, place, 16));
        }
        ranges.push((base, at, 16));
        let stale = Handle { generation: first.generation + 1, ..first };
        assert!(matches!(d.resolve(stale), Err(TvmError::StaleHandle)));
    }
    for (i, (p, x, n)) in ranges.iter().enumerate() {
        assert!(x + n <= 512);
        for (q, y, m) in &ranges[i + 1..] {
            assert!(p != q || x + n <= *y || y + m <= *x);
        }
    }
    let unknown = Handle { region_id: 9, generation: 1, offset: 0 };
    assert!(matches!(d.resolve(unknown), Err(TvmError::RegionNotFound(9))));
}

/// Written against the facade alone.
fn store_twice<T: TvmFacade>(tvm: &mut T) -> Result<(u16, Handle), TvmError> {
    let r = tvm.create_region(RegionKind::HotHeap, 64)?;
    let info = tvm.region_info(r)?;
    assert_eq!((info.id, info.capacity, info.used, info.generation), (r, 64, 0, 1));
    assert!(!info.pinned && info.pinnable);
    let h = tvm.allocate(r, 16)?;
    assert_eq!((h.region_id, h.generation), (r, info.generation));
    assert!(tvm.region_info(r)?.used >= 16);
    tvm.write(h, &[6; 16])?;
    let mut buf = [1u8; 65];
    assert!(matches!(tvm.read(h, &mut buf), Err(TvmError::OutOfBounds)));
    let stale = Handle { generation: h.generation + 1, ..h };
    assert!(matches!(tvm.read(stale, &mut buf), Err(TvmError::StaleHandle)));
    let unknown = Handle { region_id: 500, ..h };
    assert!(matches!(tvm.read(unknown, &mut buf), Err(TvmError::RegionNotFound(500))));
    assert!(matches!(tvm.write(stale, &buf), Err(TvmError::StaleHandle)));
    assert_eq!(buf, [1; 65]);
    tvm.read(h, &mut buf[..16])?;
    assert_eq!(buf[..16], [6; 16]);
    tvm.pin(r)?;
    assert!(tvm.region_info(r)?.pinned);
    tvm.unpin(r)?;
    assert!(!tvm.region_info(r)?.pinned);
    assert!(matches!(tvm.region_info(500), Err(TvmError::RegionNotFound(500))));
    Ok((r, h))
}

#[test]
fn code_against_the_facade_runs_on_every_guest() {
    let mut one = build_guest(2, 256);
    let (first, _) = store_twice(&mut one).unwrap();
    let (second, _) = store_twice(&mut one).unwrap();
    assert_ne!(first, second);
    let mut many = build_shards(2, 1, 256);
    let (first, h) = store_twice(&mut many).unwrap();
    let (second, _) = store_twice(&mut many).unwrap();
    assert_ne!(first, second);
    let mut buf = [0u8; 16];
    many.read(h, &mut buf).unwrap();
    assert_eq!(buf, [6; 16]);
}

/// A deployment that only tells its tiers.
struct Tiers(Vec<tvm::region::Residency>);

impl tvm::facade::TvmSpill for Tiers {
    fn spill(&mut self, region: u16) -> Result<(), TvmError> {
        let tier = self.0.get_mut(region as usize).ok_or(TvmError::RegionNotFound(region))?;
        *tier = tvm::region::Residency::Cold;
        Ok(())
    }

    fn load(&mut self, region: u16) -> Result<(), TvmError> {
        let tier = self.0.get_mut(region as usize).ok_or(TvmError::RegionNotFound(region))?;
        *tier = tvm::region::Residency::Hot;
        Ok(())
    }
}

#[test]
fn spilling_can_be_offered_by_users() {
    use_spill(&mut Tiers(vec![tvm::region::Residency::Warm; 2]));
}

fn use_spill<T: tvm::facade::TvmSpill>(t: &mut T) {
    t.spill(1).unwrap();
    t.load(1).unwrap();
    assert!(matches!(t.spill(2), Err(TvmError::RegionNotFound(2))));
}
