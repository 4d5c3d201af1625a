use tvm::bench::pattern::{fill_pattern, next_state, shuffled};
use tvm::bench::plans::{
    handle_table, pages_needed, pages_to_grow, plan_columnar, plan_growth, plan_jvm,
    plan_large_ws, plan_list, plan_multi_region, plan_random, plan_sequential, plan_spill_driven,
    spill_cycle, SAMPLES, SEED, WARMUP_ROUNDS,
};
use tvm::bench::rank::{mann_whitney_wins, rank_sum};
use tvm::bench::rounds::{extent_of, Extent, RunConfig, Stage};
use tvm::bench::rows::{
    annotate_against_baseline, samples_with_mm, samples_with_optional, Class, Comparison, Row,
    Variant,
};
use tvm::bench::workloads::{
    bump_alloc_touch, column_filter_sum, columnar_filter_sum, gen_alloc_scan, large_ws_probe,
    list_walk, list_walk_within, multi_region_mix, random_chase, sum_first_bytes, sum_sequential,
};
use tvm::region::RegionKind;

#[test]
fn generator_steps() {
    assert_eq!(next_state(1), 270369);
    assert_eq!(next_state(270369), 67634689);
    assert_eq!(next_state(0), 0);
}

#[test]
fn pattern_of_a_seed() {
    let mut buf = [0u8; 2];
    fill_pattern(&mut buf, 0);
    assert_eq!(buf, [(270369u32 & 0xff) as u8, (67634689u32 & 0xff) as u8]);
    let mut zero = [9u8; 4];
    fill_pattern(&mut zero, u32::MAX);
    assert_eq!(zero, [0; 4]);
}

#[test]
fn shuffles_hold_every_number_once() {
    let order = shuffled(100, 5);
    let mut sorted = order.clone();
    sorted.sort();
    assert_eq!(sorted, (0..100).collect::<Vec<u32>>());
    assert_ne!(order, sorted);
    assert_eq!(shuffled(0, 5), Vec::<u32>::new());
}

#[test]
fn sequential_plan_and_sum() {
    let p = plan_sequential(1024);
    assert_eq!(p.data.len(), 1024);
    assert_eq!(p.regions, vec![(RegionKind::HotHeap, 5120)]);
    let want: u64 = p.data.iter().map(|b| *b as u64).sum();
    assert_eq!(sum_sequential(&p.data), want);
    assert_eq!(sum_sequential(&[]), 0);
}

#[test]
fn random_plan_goes_four_times_round() {
    let p = plan_random(1024);
    assert_eq!((p.cells, p.steps, p.bytes.len()), (256, 1024, 1024));
    assert_eq!(random_chase(&p.bytes, p.cells, p.steps), 2 * 256 * 255);
    assert_eq!(random_chase(&[], 0, 0), 0);
}

#[test]
fn list_plan_visits_every_node() {
    let p = plan_list(1024);
    assert_eq!((p.nodes, p.bytes.len()), (128, 1024));
    assert_eq!(list_walk(&p.bytes, p.head_offset), 128 * 127 / 2);
    assert_eq!(list_walk(&[], 0xffff_ffff), 0);
    assert_eq!(list_walk_within(&p.bytes, p.head_offset, 128), Some(128 * 127 / 2));
    assert_eq!(list_walk_within(&p.bytes, p.head_offset, 127), None);
    assert_eq!(list_walk_within(&[0; 8], 0, 1000), None);
    assert_eq!(list_walk_within(&[0; 8], 1, 1000), None);
}

#[test]
fn growth_plan_touches_blocks() {
    let p = plan_growth(16 * 1024);
    assert_eq!((p.block, p.count), (32, 512));
    let mut buf = vec![7u8; 16 * 1024];
    assert_eq!(bump_alloc_touch(&mut buf, p.count, p.block), 2 * (255 * 256 / 2));
    assert_eq!((buf[0], buf[32], buf[33], buf[32 * 257]), (0, 1, 7, 1));
    assert_eq!(sum_first_bytes(&buf, p.count, p.block), 2 * (255 * 256 / 2));
}

#[test]
fn multi_region_plan_is_a_partition() {
    let p = plan_multi_region(1024);
    assert_eq!((p.hot.len(), p.warm.len(), p.cold.len()), (614, 307, 103));
    assert_eq!(p.iters, 10_000);
    assert_eq!(
        p.regions,
        vec![
            (RegionKind::HotHeap, 678),
            (RegionKind::ObjectArena, 371),
            (RegionKind::ObjectArena, 167),
        ]
    );
    let mut flat = p.hot.clone();
    flat.extend_from_slice(&p.warm);
    flat.extend_from_slice(&p.cold);
    let mut state = SEED.wrapping_add(1);
    let mut want = 0u64;
    for _ in 0..p.iters {
        state = next_state(state);
        let part = match state % 100 {
            0..=89 => &p.hot,
            90..=98 => &p.warm,
            _ => &p.cold,
        };
        want += part[state as usize % part.len()] as u64;
    }
    assert_eq!(multi_region_mix(&flat, 614, 307, 103, p.iters, SEED), want);
}

#[test]
fn columnar_plan_takes_the_first_half() {
    let p = plan_columnar(1024);
    assert_eq!((p.n, p.threshold), (128, 64));
    assert_eq!(p.regions, vec![(RegionKind::HotHeap, 576), (RegionKind::HotHeap, 576)]);
    let want = 13 * (64 * 63 / 2);
    assert_eq!(column_filter_sum(&p.col_a, &p.col_b, p.n, p.threshold), want);
    let mut flat = p.col_a.clone();
    flat.extend_from_slice(&p.col_b);
    assert_eq!(columnar_filter_sum(&flat, p.n, p.threshold), want);
    assert_eq!(columnar_filter_sum(&flat, p.n, 0), 0);
}

#[test]
fn jvm_plan_scans_headers() {
    let p = plan_jvm(1024);
    assert_eq!(p.n, 32);
    let mut buf = vec![0xeeu8; 1024];
    assert_eq!(gen_alloc_scan(&mut buf, p.n), 32 * 31 / 2);
    assert_eq!(&buf[32..37], &[1, 0, 0, 0, 0xee]);
}

#[test]
fn large_ws_plan_has_a_block_per_region() {
    let p = plan_large_ws(1024);
    assert_eq!((p.n_blocks, p.block_size, p.iters), (16, 64, 10_000));
    assert_eq!(p.handles_offset, 4 * 1024 * 1024);
    assert_eq!(p.regions, vec![(RegionKind::HotHeap, 128); 16]);
    assert_eq!(p.block(3), &p.data[192..256]);
    let mut state = SEED.wrapping_add(1);
    let mut want = 0u64;
    for _ in 0..p.iters {
        state = next_state(state);
        want += p.data[(state % 16 * 64 + state % 64) as usize] as u64;
    }
    assert_eq!(large_ws_probe(&p.data, 64, 16, p.iters, SEED), want);
}

#[test]
fn handles_are_laid_out_in_little_endian() {
    assert_eq!(
        handle_table(&[0x0102_0304_0506_0708, 1]),
        vec![8, 7, 6, 5, 4, 3, 2, 1, 1, 0, 0, 0, 0, 0, 0, 0]
    );
}

#[test]
fn page_counts() {
    assert_eq!(pages_needed(0), 1);
    assert_eq!(pages_needed(65536), 1);
    assert_eq!(pages_needed(65537), 2);
    assert_eq!(pages_needed(u32::MAX), 65536);
    assert_eq!(pages_to_grow(65536, 4 * 1024 * 1024, 128), 64);
    assert_eq!(pages_to_grow(65 * 65536, 4 * 1024 * 1024, 128), 0);
}

#[test]
fn spill_plan_and_cycles() {
    let p = plan_spill_driven(1024);
    assert_eq!((p.resident_budget, p.n_tiers, p.cycles, p.touched), (1024, 4, 8, 64));
    assert_eq!(p.regions, vec![(RegionKind::ObjectArena, 1088); 4]);
    assert_eq!(
        p.infeasible,
        "infeasible: working set (4096 B) exceeds resident budget (1024 B); requires user-implemented swap"
    );
    assert_eq!(spill_cycle(0, 4), (0, vec![1, 2, 3]));
    assert_eq!(spill_cycle(6, 4), (2, vec![0, 1, 3]));
    assert_eq!(spill_cycle(5, 1), (0, vec![]));
}

#[test]
fn rows_stand_in_order() {
    assert_eq!(samples_with_optional("m32", None, "tvm"), vec!["m32", "tvm"]);
    assert_eq!(samples_with_optional("m32", Some("m64"), "tvm"), vec!["m32", "m64", "tvm"]);
    assert_eq!(
        samples_with_mm("m32", Some("m64"), Some("tvm-mm"), "tvm"),
        vec!["m32", "m64", "tvm-mm", "tvm"]
    );
    assert_eq!(samples_with_mm("m32", None, Some("tvm-mm"), "tvm"), vec!["m32", "tvm-mm", "tvm"]);
}

#[test]
fn rows_are_compared_with_the_first_and_with_m64() {
    let row = |variant, measured| Row { variant, measured };
    let rows = vec![
        row(Variant::M32, true),
        row(Variant::M64, false),
        row(Variant::M64, true),
        row(Variant::TvmMm, true),
        row(Variant::TvmUnified, true),
        row(Variant::Tvm, false),
        row(Variant::Tvm, true),
    ];
    let with = |no_ratio, m64_row| Comparison { is_baseline: false, no_ratio, m64_row };
    assert_eq!(
        annotate_against_baseline(&rows),
        vec![
            Comparison { is_baseline: true, no_ratio: false, m64_row: None },
            with(true, None),
            with(false, None),
            with(false, Some(2)),
            with(false, None),
            with(true, None),
            with(false, Some(2)),
        ]
    );
    assert_eq!(annotate_against_baseline(&vec![]), vec![]);
}

#[test]
fn names_in_a_report() {
    let variants = [Variant::M32, Variant::M64, Variant::TvmMm, Variant::TvmUnified, Variant::Tvm];
    let names: Vec<&str> = variants.iter().map(|v| v.name()).collect();
    assert_eq!(names, vec!["m32", "m64", "tvm-mm", "tvm-unified", "tvm"]);
    assert_eq!(Class::MultiRegion.name(), "multi_region_90_9_1");
    assert_eq!(Class::Sequential.name(), "sequential_sum");
    assert_eq!(Class::Jvm.name(), "jvm_gen_alloc_scan");
}

#[test]
fn rank_sums_share_ties() {
    // 1, 2, 2, 3: the two equal values share the rank 2.5.
    assert_eq!(rank_sum(&[2, 3], &[1, 2]), 5 + 8);
    assert_eq!(mann_whitney_wins(&[2, 3], &[1, 2]), 2 + 1 + 2 + 2);
    assert_eq!(mann_whitney_wins(&[], &[1]), 0);
    assert_eq!(mann_whitney_wins(&[5], &[5]), 1);
}

#[test]
fn mann_whitney_obvious_difference() {
    let a = vec![100u128, 110, 105, 95, 102];
    let b = vec![1000u128, 1100, 1050, 950, 1020];
    let u = mann_whitney_wins(&a, &b) as f64 / 2.0 / (a.len() as f64 * b.len() as f64);
    assert!(u < 0.05, "a clearly dominates b but U was {u}");
    assert_eq!(mann_whitney_wins(&b, &a), 50);
}

#[test]
fn rounds_are_warmed_up_and_measured() {
    let c = RunConfig::default();
    assert_eq!((c.warmup_rounds, c.samples, c.payload_bytes), (WARMUP_ROUNDS, SAMPLES, 0));
    let few = RunConfig { warmup_rounds: 2, samples: 3, payload_bytes: 0 };
    let mut calls = Vec::new();
    let mut stage = Stage::Setup;
    while stage != Stage::Finished {
        calls.push(stage);
        stage = few.next_stage(stage, true);
    }
    assert_eq!(
        calls,
        vec![
            Stage::Setup,
            Stage::Warmup(0),
            Stage::Warmup(1),
            Stage::Measured(0),
            Stage::Measured(1),
            Stage::Measured(2),
            Stage::Teardown,
        ]
    );
    for failed in calls {
        assert_eq!(few.next_stage(failed, false), Stage::Finished);
    }
    let none = RunConfig { warmup_rounds: 0, samples: 0, payload_bytes: 0 };
    assert_eq!(none.next_stage(Stage::Setup, true), Stage::Teardown);
    let most = RunConfig { warmup_rounds: usize::MAX, samples: usize::MAX, payload_bytes: 1 };
    assert_eq!(most.next_stage(Stage::Warmup(usize::MAX - 1), true), Stage::Measured(0));
    assert_eq!(most.next_stage(Stage::Measured(usize::MAX), true), Stage::Teardown);
}

#[test]
fn timings_have_an_extent() {
    let e = extent_of(&[30, 10, 20, 10, 40]);
    assert_eq!(e, Extent { count: 5, least: 10, greatest: 40 });
    assert_eq!(extent_of(&[]), Extent { count: 0, least: 0, greatest: 0 });
    assert_eq!(extent_of(&[7]), Extent { count: 1, least: 7, greatest: 7 });
}
