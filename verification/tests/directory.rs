use std::collections::HashMap;
use tvm::allocator::{AllocatorKind, FreelistAllocator, RegionAllocator, SlabAllocator};
use tvm::blocks::align_up;
use tvm::cache::ResolveCache;
use tvm::concurrent::ConcurrentDirectory;
use tvm::debug::{dump_region_layout, fault_counts, validate_handle, validate_handles, HandleStatus};
use tvm::directory::RegionDirectory;
use tvm::error::{ErrorContext, TvmError};
use tvm::entry::RegionEntry;
use tvm::eviction::{eviction_order, total_resident, EvictionRun, WithinTier};
use tvm::handle::Handle;
use tvm::memory_region::{spill_file_name, BackingStore, MemoryRegion, VecBackedRegion};
use tvm::metrics::RegionMetrics;
use tvm::region::{advance_generation, PlacementPolicy, Region, RegionKind, Residency};

#[derive(Default)]
struct Store {
    map: HashMap<(u16, u16), Vec<u8>>,
    broken: bool,
}

impl BackingStore for Store {
    fn spill(&mut self, region_id: u16, generation: u16, bytes: &[u8]) -> Result<(), TvmError> {
        if self.broken {
            return Err(TvmError::BackingStore("full".to_string()));
        }
        self.map.insert((region_id, generation), bytes.to_vec());
        Ok(())
    }

    fn load(&mut self, region_id: u16, generation: u16) -> Result<Vec<u8>, TvmError> {
        self.map
            .get(&(region_id, generation))
            .cloned()
            .ok_or(TvmError::BackingStore("missing".to_string()))
    }
}

type Dir = RegionDirectory<VecBackedRegion>;

fn add(d: &mut Dir, kind: RegionKind, capacity: u32) -> u16 {
    d.create_region(kind, capacity, VecBackedRegion::new(capacity)).unwrap()
}

fn add_freelist(d: &mut Dir, capacity: u32) -> u16 {
    d.create_region_with(
        RegionKind::ObjectArena,
        capacity,
        AllocatorKind::Freelist,
        VecBackedRegion::new(capacity),
    )
    .unwrap()
}

#[test]
fn a_read_gives_back_what_was_written() {
    let mut d = Dir::new();
    let r = add(&mut d, RegionKind::HotHeap, 64);
    let h = d.allocate(r, 8).unwrap();
    let other = d.allocate(r, 8).unwrap();
    d.write(h, b"abcdefgh").unwrap();
    d.write(other, b"01234567").unwrap();
    let mut buf = [0u8; 8];
    d.read(h, &mut buf).unwrap();
    assert_eq!(&buf, b"abcdefgh");
    d.read(other, &mut buf).unwrap();
    assert_eq!(&buf, b"01234567");
    let m = d.metrics(r).unwrap().snapshot();
    assert_eq!((m.allocations, m.bytes_allocated), (2, 16));
    assert_eq!((m.bytes_written, m.bytes_read), (16, 16));
}

#[test]
fn refused_accesses_change_nothing() {
    let mut d = Dir::new();
    let r = add(&mut d, RegionKind::HotHeap, 16);
    let h = d.allocate(r, 16).unwrap();
    let mut buf = [7u8; 17];
    assert!(matches!(d.read(h, &mut buf), Err(TvmError::OutOfBounds)));
    assert_eq!(buf, [7u8; 17]);
    let ctx = d.take_last_error_context().unwrap();
    assert_eq!(
        ctx.display(),
        format!("[region={r}, gen=1, offset=0x0, len=17, capacity=16, note=\"read: end > capacity\"]")
    );
    assert!(d.take_last_error_context().is_none());
    let far = Handle { offset: u32::MAX, ..h };
    assert!(matches!(d.read(far, &mut buf), Err(TvmError::OutOfBounds)));
    let ctx = d.take_last_error_context().unwrap();
    assert_eq!((ctx.capacity, ctx.note), (None, Some("read: offset+len overflow u32")));
    assert!(matches!(d.write(h, &[0; 17]), Err(TvmError::OutOfBounds)));
    assert!(matches!(
        d.read(Handle { region_id: 9, ..h }, &mut buf),
        Err(TvmError::RegionNotFound(9))
    ));
}

#[test]
fn failed_allocations_leave_their_context() {
    let mut d = Dir::new();
    let r = add(&mut d, RegionKind::HotHeap, 16);
    assert!(matches!(d.allocate(r, 17), Err(TvmError::AllocationFailed)));
    let ctx = d.take_last_error_context().unwrap();
    assert_eq!((ctx.region_id, ctx.len, ctx.capacity), (Some(r), Some(17), Some(16)));
    assert_eq!(ctx.note, Some("alloc: requested size exceeds available"));
    assert!(matches!(d.alloc_aligned(r, 1, 3), Err(TvmError::AllocationFailed)));
}

#[test]
fn bumped_generations_make_handles_stale() {
    let mut d = Dir::new();
    let r = add(&mut d, RegionKind::HotHeap, 16);
    let h = d.allocate(r, 4).unwrap();
    assert_eq!(d.bump_generation(r).unwrap(), 2);
    assert!(matches!(d.read(h, &mut [0; 4]), Err(TvmError::StaleHandle)));
    assert!(matches!(d.write(h, &[0; 4]), Err(TvmError::StaleHandle)));
    assert_eq!(advance_generation(u16::MAX), 1);
    assert_eq!(advance_generation(7), 8);
}

#[test]
fn compaction_packs_and_migrates() {
    let mut d = Dir::new();
    let r = add_freelist(&mut d, 64);
    let a = d.allocate(r, 8).unwrap();
    let b = d.allocate(r, 16).unwrap();
    let c = d.allocate(r, 8).unwrap();
    d.write(a, &[1; 8]).unwrap();
    d.write(c, &[3; 8]).unwrap();
    d.dealloc(b).unwrap();
    let remap = d.compact_region(r).unwrap();
    assert_eq!((remap.old_generation, remap.new_generation), (1, 2));
    assert!(remap.migrate(b).is_none());
    assert!(remap.migrate(Handle { generation: 2, ..a }).is_none());
    let moved = remap.migrate(c).unwrap();
    assert_eq!(moved, Handle { region_id: r, generation: 2, offset: 8 });
    let mut buf = [0u8; 8];
    d.read(moved, &mut buf).unwrap();
    assert_eq!(buf, [3; 8]);
    assert!(matches!(d.read(c, &mut buf), Err(TvmError::StaleHandle)));
    assert_eq!(d.region_info(r).unwrap().used, 16);
}

#[test]
fn compaction_refusals() {
    let mut d = Dir::new();
    let bump = add(&mut d, RegionKind::HotHeap, 16);
    assert!(matches!(d.compact_region(bump), Err(TvmError::UnsupportedAllocator)));
    d.pin(bump).unwrap();
    assert!(matches!(d.compact_region(bump), Err(TvmError::Pinned)));
    let free = add_freelist(&mut d, 16);
    d.mark_external(free).unwrap();
    assert!(matches!(d.compact_region(free), Err(TvmError::NotResident)));
    assert!(matches!(d.compact_region(40), Err(TvmError::RegionNotFound(40))));
}

#[test]
fn a_load_restores_what_was_spilled() {
    let mut d = Dir::new();
    let mut store = Store::default();
    let r = add(&mut d, RegionKind::ObjectArena, 16);
    let h = d.allocate(r, 4).unwrap();
    d.write(h, b"cold").unwrap();
    d.spill_region(r, &mut store).unwrap();
    assert_eq!(d.region_info(r).unwrap().residency, Residency::Cold);
    let mut buf = [0u8; 4];
    assert!(matches!(d.read(h, &mut buf), Err(TvmError::NotResident)));
    d.spill_region(r, &mut store).unwrap();
    d.load_region(r, &mut store).unwrap();
    d.read(h, &mut buf).unwrap();
    assert_eq!(&buf, b"cold");
    let m = d.metrics(r).unwrap().snapshot();
    assert_eq!((m.demotions, m.promotions, m.faults), (1, 1, 1));
    assert_eq!(fault_counts(&d), vec![(r, 1)]);
}

#[test]
fn accesses_fault_cold_regions_in() {
    let mut d = Dir::new();
    let mut store = Store::default();
    let r = add(&mut d, RegionKind::ObjectArena, 16);
    let h = d.allocate(r, 4).unwrap();
    d.spill_region(r, &mut store).unwrap();
    d.write_or_fault(h, b"warm", &mut store).unwrap();
    d.spill_region(r, &mut store).unwrap();
    let mut buf = [0u8; 4];
    d.read_or_fault(h, &mut buf, &mut store).unwrap();
    assert_eq!(&buf, b"warm");
}

#[test]
fn pinned_and_unspillable_regions_stay() {
    let mut d = Dir::new();
    let mut store = Store::default();
    let hot = add(&mut d, RegionKind::HotHeap, 16);
    d.pin(hot).unwrap();
    assert!(matches!(d.spill_region(hot, &mut store), Err(TvmError::Pinned)));
    assert!(matches!(d.demote_region(hot, &mut store), Err(TvmError::Pinned)));
    assert!(matches!(d.mark_external(hot), Err(TvmError::Pinned)));
    d.unpin(hot).unwrap();
    assert!(matches!(d.spill_region(hot, &mut store), Err(TvmError::PolicyViolation)));
    let arena = add(&mut d, RegionKind::ObjectArena, 16);
    assert!(matches!(d.pin(arena), Err(TvmError::PolicyViolation)));
}

#[test]
fn ids_are_not_reused() {
    let mut d = Dir::new();
    let a = add(&mut d, RegionKind::HotHeap, 16);
    d.destroy_region(a).unwrap();
    assert!(matches!(d.destroy_region(a), Err(TvmError::RegionNotFound(_))));
    let b = add(&mut d, RegionKind::HotHeap, 16);
    assert_ne!(a, b);
    assert_eq!((d.len(), d.is_empty()), (1, false));
    assert_eq!(d.iter().iter().map(|r| r.id).collect::<Vec<_>>(), vec![b]);
}

#[test]
fn tiers_move_down_and_up() {
    let mut d = Dir::new();
    let mut store = Store::default();
    let r = add(&mut d, RegionKind::ObjectArena, 16);
    d.demote_region(r, &mut store).unwrap();
    assert_eq!(d.region_info(r).unwrap().residency, Residency::Warm);
    assert_eq!(d.warm_lru_back(), Some(r));
    d.demote_region(r, &mut store).unwrap();
    assert_eq!(d.region_info(r).unwrap().residency, Residency::Cold);
    assert_eq!(d.warm_lru_back(), None);
    assert!(matches!(d.demote_region(r, &mut store), Err(TvmError::NotResident)));
    d.promote_region(r, &mut store).unwrap();
    assert_eq!(d.region_info(r).unwrap().residency, Residency::Hot);
}

#[test]
fn eviction_takes_the_oldest_warm_region() {
    let mut d = Dir::new();
    let mut store = Store::default();
    let a = add(&mut d, RegionKind::PageStore, 16);
    let b = add(&mut d, RegionKind::PageStore, 16);
    assert_eq!(d.warm_lru_back(), Some(a));
    assert_eq!(d.evict_warm_region(&mut store).unwrap(), Some(a));
    assert_eq!(d.warm_lru_back(), Some(b));
    assert_eq!(d.evict_warm_region(&mut store).unwrap(), Some(b));
    assert_eq!(d.evict_warm_region(&mut store).unwrap(), None);
}

#[test]
fn a_failing_store_is_reported() {
    let mut d = Dir::new();
    let mut store = Store { broken: true, ..Store::default() };
    let r = add(&mut d, RegionKind::ObjectArena, 16);
    let e = d.spill_region(r, &mut store).unwrap_err();
    assert_eq!(e.message(), "backing store error: full");
}

#[test]
fn external_regions_come_from_a_loader() {
    let mut d = Dir::new();
    let r = add(&mut d, RegionKind::BlobArena, 4);
    let h = d.allocate(r, 4).unwrap();
    d.mark_external(r).unwrap();
    assert_eq!(d.region_info(r).unwrap().residency, Residency::External);
    let loader = |id: u16, generation: u16| -> Result<Vec<u8>, TvmError> {
        Ok(vec![id as u8, generation as u8, 8, 9])
    };
    d.load_external_region(r, &loader).unwrap();
    let mut buf = [0u8; 4];
    d.read(h, &mut buf).unwrap();
    assert_eq!(buf, [r as u8, 1, 8, 9]);
}

#[test]
fn snapshots_restore_contents() {
    let mut d = Dir::new();
    let r = add(&mut d, RegionKind::HotHeap, 4);
    let h = d.allocate(r, 4).unwrap();
    d.write(h, b"snap").unwrap();
    let bytes = d.snapshot_region(r).unwrap();
    d.write(h, b"lost").unwrap();
    d.restore_region(r, bytes).unwrap();
    let g = d.region_info(r).unwrap().generation;
    let mut buf = [0u8; 4];
    d.read(Handle { generation: g, ..h }, &mut buf).unwrap();
    assert_eq!(&buf, b"snap");
}

#[test]
fn copies_between_regions() {
    let mut d = Dir::new();
    let a = add(&mut d, RegionKind::HotHeap, 16);
    let b = add(&mut d, RegionKind::HotHeap, 16);
    let h = d.allocate(a, 4).unwrap();
    d.write(h, b"copy").unwrap();
    d.cross_region_copy(a, 0, b, 8, 4).unwrap();
    let there = Handle { region_id: b, generation: 1, offset: 8 };
    let mut buf = [0u8; 4];
    d.read(there, &mut buf).unwrap();
    assert_eq!(&buf, b"copy");
    assert!(matches!(d.cross_region_copy(a, 0, b, 14, 4), Err(TvmError::OutOfBounds)));
    d.read_into(h, b, 0, 4).unwrap();
    d.write_from(b, 8, Handle { offset: 4, ..h }, 4).unwrap();
    d.read(Handle { offset: 4, ..h }, &mut buf).unwrap();
    assert_eq!(&buf, b"copy");
}

#[test]
fn slices_give_direct_access() {
    let mut d = Dir::new();
    let r = add(&mut d, RegionKind::HotHeap, 16);
    let h = d.allocate(r, 4).unwrap();
    d.region_slice_mut_at(h, 4).unwrap().copy_from_slice(b"wxyz");
    assert_eq!(d.region_slice_at(h, 4).unwrap(), b"wxyz");
    assert!(d.region_slice_at(h, 17).is_err());
}

#[test]
fn handles_are_diagnosed() {
    let mut d = Dir::new();
    let mut store = Store::default();
    let r = add(&mut d, RegionKind::ObjectArena, 16);
    let h = d.allocate(r, 4).unwrap();
    assert_eq!(validate_handle(&d, h), HandleStatus::Valid);
    assert_eq!(validate_handle(&d, Handle { generation: 5, ..h }), HandleStatus::StaleGeneration);
    assert_eq!(validate_handle(&d, Handle { offset: 16, ..h }), HandleStatus::OutOfBounds);
    d.spill_region(r, &mut store).unwrap();
    let all = validate_handles(&d, &[h, Handle { region_id: 7, ..h }]);
    let statuses: Vec<HandleStatus> = all.iter().map(|(_, s)| *s).collect();
    assert_eq!(statuses, vec![HandleStatus::NotResident, HandleStatus::UnknownRegion]);
}

#[test]
fn the_layout_is_printed() {
    let mut d = Dir::new();
    let r = add(&mut d, RegionKind::HotHeap, 64);
    d.allocate(r, 10).unwrap();
    d.pin(r).unwrap();
    let want = format!(
        "regions: {}  (id  gen  kind          residency  pin  used/cap)\n  {:>3}  {:>3}  {:<13?} {:<10?} {:<3}  {}/{}\n",
        1, 0, 1, RegionKind::HotHeap, tvm::Residency::Hot, "yes", 10, 64
    );
    assert_eq!(dump_region_layout(&d), want);
    assert!(want.ends_with("\n    0    1  HotHeap Hot yes  10/64\n"), "{want}");
}

#[test]
fn handles_are_packed_and_shown() {
    let h = Handle { region_id: 3, generation: 1, offset: 16 };
    assert_eq!(h.pack(), 0x0003_0001_0000_0010);
    assert_eq!(Handle::from(0x0003_0001_0000_0010u64), h);
    assert_eq!(Handle::from(i64::from(Handle { region_id: 0xffff, ..h })).region_id, 0xffff);
    assert_eq!(h.display(), "r3@1+16");
    assert_eq!(h.debug(), "Handle(r3@gen1+0x10)");
    assert_eq!(Handle::null().display(), "<null>");
    assert_eq!(Handle::null().debug(), "Handle::NULL");
    assert_eq!(Handle::null().pack(), 0);
}

#[test]
fn every_error_has_its_message() {
    assert_eq!(TvmError::RegionNotFound(7).message(), "region not found: id=7");
    assert_eq!(TvmError::StaleHandle.message(), "stale handle: generation mismatch");
    assert_eq!(
        TvmError::OutOfBounds.message(),
        "out of bounds: access exceeds region capacity"
    );
    assert_eq!(
        TvmError::NotResident.message(),
        "region is not resident (Cold tier; load via load_region or auto-fault)"
    );
    assert_eq!(
        TvmError::AllocationFailed.message(),
        "allocation failed: region full or unsupported size"
    );
    assert_eq!(TvmError::Pinned.message(), "region is pinned: cannot spill or demote");
    assert_eq!(
        TvmError::UnsupportedAllocator.message(),
        "operation not supported by this allocator (e.g. compaction on Bump)"
    );
    assert_eq!(
        TvmError::PolicyViolation.message(),
        "policy violation: operation forbidden by region's PlacementPolicy"
    );
    assert_eq!(ErrorContext::default().display(), "[]");
}

#[test]
fn policies_of_the_kinds() {
    let hot = PlacementPolicy::for_kind(RegionKind::HotHeap);
    assert_eq!((hot.initial_residency, hot.pinnable, hot.spillable), (Residency::Hot, true, false));
    let page = PlacementPolicy::for_kind(RegionKind::PageStore);
    assert_eq!(page.initial_residency, Residency::Warm);
}

#[test]
fn slabs_hand_out_slots_of_one_size() {
    let mut s = SlabAllocator::new(64, 16);
    let a = s.allocate(16).unwrap();
    let b = s.allocate(16).unwrap();
    assert_eq!((a, b, s.used()), (0, 16, 32));
    assert!(s.allocate(17).is_err());
    assert!(s.allocate(15).is_err());
    s.dealloc(a).unwrap();
    assert!(s.dealloc(a).is_err());
    assert_eq!(s.allocate(16).unwrap(), a);
    s.allocate(16).unwrap();
    s.allocate(16).unwrap();
    assert!(s.allocate(16).is_err());
}

#[test]
fn a_freed_block_is_forgotten() {
    let mut f = FreelistAllocator::new(64);
    let a = f.allocate(16, 1).unwrap();
    let before = (f.used(), f.blocks());
    let b = f.allocate(8, 4).unwrap();
    f.dealloc(b).unwrap();
    assert_eq!((f.used(), f.blocks()), before);
    f.dealloc(a).unwrap();
    assert_eq!((f.used(), f.blocks()), (0, vec![]));
    assert_eq!(f.allocate(64, 1).unwrap(), 0);
    let r = RegionAllocator::new(AllocatorKind::Freelist, 8);
    assert!(r.supports_compaction());
    assert!(!RegionAllocator::new(AllocatorKind::Bump, 8).supports_compaction());
}

#[test]
fn alignment_rounds_up() {
    assert_eq!(align_up(13, 8), Some(16));
    assert_eq!(align_up(16, 8), Some(16));
    assert_eq!(align_up(u32::MAX, 2), None);
}

#[test]
fn counters_count() {
    let mut m = RegionMetrics::default();
    m.record_alloc(5);
    m.record_read(6);
    m.record_write(7);
    m.record_fault();
    m.record_promotion();
    m.record_demotion();
    let s = m.snapshot();
    assert_eq!((s.allocations, s.bytes_allocated, s.bytes_read, s.bytes_written), (1, 5, 6, 7));
    assert_eq!((s.faults, s.promotions, s.demotions), (1, 1, 1));
}

#[test]
fn the_cache_counts_hits_and_misses() {
    let mut d = Dir::new();
    let r = add(&mut d, RegionKind::HotHeap, 64);
    let region: Region = *d.region_info(r).unwrap();
    let mut c = ResolveCache::new();
    assert!(c.lookup_fast(r).is_none());
    c.install_with_data(&region, 4096, 64);
    let hit = c.lookup_fast(r).unwrap();
    assert_eq!((hit.data_ptr, hit.data_len, hit.generation), (4096, 64, 1));
    c.invalidate_all();
    assert!(c.lookup(r).is_none());
    assert_eq!((c.hits, c.misses), (1, 2));
}

#[test]
fn resident_bytes_and_eviction_order() {
    let mut d = ConcurrentDirectory::<VecBackedRegion>::new();
    let mut ids = Vec::new();
    for used in [30u32, 10, 20] {
        let id = d
            .create_region(RegionKind::ObjectArena, 64, VecBackedRegion::new(64))
            .unwrap();
        d.allocate(id, used).unwrap();
        ids.push(id);
    }
    let regions = d.list_regions().unwrap();
    assert_eq!(total_resident(&regions), 60);
    let order = |w| -> Vec<u16> { eviction_order(w, &regions).iter().map(|r| r.id).collect() };
    assert_eq!(order(WithinTier::LargestFirst), vec![ids[0], ids[2], ids[1]]);
    assert_eq!(order(WithinTier::SmallestFirst), vec![ids[1], ids[2], ids[0]]);
}

#[test]
fn plain_memory_regions() {
    let mut m = VecBackedRegion::from_bytes(vec![1, 2, 3, 4]);
    assert_eq!(m.len(), 4);
    m.write(1, &[9, 9]).unwrap();
    assert_eq!(m.snapshot(), vec![1, 9, 9, 4]);
    assert!(matches!(m.write(3, &[0, 0]), Err(TvmError::OutOfBounds)));
    let mut buf = [0u8; 2];
    assert!(m.read(2, &mut buf).is_ok());
    assert_eq!(buf, [9, 4]);
    assert_eq!(VecBackedRegion::restore(vec![5]).into_bytes(), vec![5]);
    assert_eq!(spill_file_name(3, 7), "region-3-gen-7.bin");
}

#[test]
fn a_compacted_region_has_its_free_space_in_one_piece() {
    let mut d = Dir::new();
    let r = add_freelist(&mut d, 64);
    let first = d.allocate(r, 16).unwrap();
    d.allocate(r, 16).unwrap();
    let third = d.allocate(r, 16).unwrap();
    d.allocate(r, 8).unwrap();
    d.dealloc(first).unwrap();
    d.dealloc(third).unwrap();
    assert!(d.allocate(r, 40).is_err());
    d.compact_region(r).unwrap();
    assert_eq!(d.allocate(r, 40).unwrap().offset, 24);
}

#[test]
fn a_bump_allocator_can_be_reset() {
    let mut a = tvm::allocator::BumpAllocator::new(16);
    a.allocate(16, 1).unwrap();
    a.reset();
    assert_eq!((a.used(), a.allocate(4, 1).unwrap()), (0, 0));
}

#[test]
fn concurrent_directories_report_metrics() {
    let mut d = ConcurrentDirectory::<VecBackedRegion>::default();
    let id = d.create_region(RegionKind::HotHeap, 16, VecBackedRegion::new(16)).unwrap();
    let h = d.allocate(id, 4).unwrap();
    d.write(h, b"abcd").unwrap();
    let mut buf = [0u8; 4];
    d.read(h, &mut buf).unwrap();
    let m = d.metrics_snapshot(id).unwrap();
    assert_eq!((m.bytes_allocated, m.bytes_written, m.bytes_read), (4, 4, 4));
    assert!(matches!(d.metrics_snapshot(5), Err(TvmError::RegionNotFound(5))));
}

#[test]
fn live_blocks_add_up_to_the_bytes_in_use() {
    let mut a = RegionAllocator::new(AllocatorKind::Freelist, 256);
    let mut live = Vec::new();
    for size in [40u32, 8, 64, 16, 32] {
        live.push((a.allocate(size, 8).unwrap(), size));
    }
    for at in [live[1].0, live[3].0] {
        a.dealloc(at).unwrap();
    }
    let blocks = a.allocated_blocks().unwrap();
    assert_eq!(blocks, vec![live[0], live[2], live[4]]);
    assert_eq!(blocks.iter().map(|b| b.1).sum::<u32>(), a.used());
    assert_eq!(a.used(), 136);
    assert!(a.supports_compaction());
    for kind in [AllocatorKind::Bump, AllocatorKind::Slab { class_size: 8 }] {
        let other = RegionAllocator::new(kind, 64);
        assert!(other.allocated_blocks().is_none());
        assert!(!other.supports_compaction());
    }
}

#[test]
fn invalidating_everything_counts_what_was_known() {
    let mut d = Dir::new();
    for _ in 0..11 {
        add(&mut d, RegionKind::HotHeap, 16);
    }
    let mut c = ResolveCache::new();
    for id in [1u16, 2, 9, 3] {
        c.install(d.region_info(id).unwrap());
    }
    let known = (0u16..11).filter(|id| c.lookup(*id).is_some()).count() as u64;
    assert_eq!(known, 3);
    let (hits, misses) = (c.hits, c.misses);
    c.invalidate_all();
    assert_eq!(c.invalidations, known);
    assert_eq!((c.hits, c.misses), (hits, misses));
    c.invalidate_all();
    assert_eq!(c.invalidations, known);
    assert!((0u16..11).all(|id| c.lookup(id).is_none()));
}

#[test]
fn a_run_of_eviction_takes_its_answers() {
    let mut d = ConcurrentDirectory::<VecBackedRegion>::new();
    for used in [30u32, 10, 20] {
        let id = d
            .create_region(RegionKind::ObjectArena, 64, VecBackedRegion::new(64))
            .unwrap();
        d.allocate(id, used).unwrap();
    }
    let regions = d.list_regions().unwrap();
    let mut run = EvictionRun::start(&regions, 10, WithinTier::LargestFirst);
    assert_eq!(run.candidate().unwrap().used, 30);
    run.take_answer(Err(TvmError::Pinned)).unwrap();
    assert_eq!(run.candidate().unwrap().used, 20);
    run.take_answer(Ok(())).unwrap();
    assert_eq!(run.candidate().unwrap().used, 10);
    assert!(matches!(
        run.take_answer(Err(TvmError::OutOfBounds)),
        Err(TvmError::OutOfBounds)
    ));
    assert!(run.candidate().is_none());
    let report = run.report();
    assert_eq!((report.bytes_freed, report.regions_spilled, report.target_met), (20, 1, false));
    assert!(EvictionRun::start(&regions, 60, WithinTier::LargestFirst).candidate().is_none());
}

#[test]
fn one_region_can_be_used_on_its_own() {
    let policy = PlacementPolicy::for_kind(RegionKind::HotHeap);
    let mut e = RegionEntry::create(
        4,
        RegionKind::HotHeap,
        32,
        AllocatorKind::Bump,
        policy,
        VecBackedRegion::new(32),
    );
    let h = e.allocate_aligned(8, 1).unwrap();
    assert_eq!((h.region_id, h.generation, h.offset), (4, 1, 0));
    e.write_through(h, &[5; 8]).unwrap();
    let mut buf = [0u8; 8];
    e.read_through(h, &mut buf).unwrap();
    assert_eq!(buf, [5; 8]);
    let stale = Handle { generation: 2, ..h };
    assert!(matches!(e.read_through(stale, &mut buf), Err(TvmError::StaleHandle)));
    assert!(matches!(e.write_through(stale, &buf), Err(TvmError::StaleHandle)));
    assert!(matches!(e.write_through(h, &[0; 33]), Err(TvmError::OutOfBounds)));
    e.pin().unwrap();
    assert!(e.meta.pinned);
    e.unpin();
    assert!(!e.meta.pinned);
}

#[test]
fn directories_share_one_slot_of_error_context() {
    let (mut a, mut b) = (Dir::new(), Dir::new());
    let ra = add(&mut a, RegionKind::HotHeap, 8);
    let rb = add(&mut b, RegionKind::HotHeap, 16);
    let mut slot: Option<ErrorContext> = None;
    assert!(a.allocate(ra, 9).is_err());
    a.hand_over_error_context(&mut slot);
    assert!(b.allocate(rb, 17).is_err());
    b.hand_over_error_context(&mut slot);
    assert!(a.allocate(ra, 8).is_ok());
    a.hand_over_error_context(&mut slot);
    let ctx = tvm::error::take_last_error_context(&mut slot).unwrap();
    assert_eq!((ctx.len, ctx.capacity), (Some(17), Some(16)));
    assert!(slot.is_none());
    assert!(a.take_last_error_context().is_none());
    assert!(b.take_last_error_context().is_none());
}
