//! What each class of measurement prepares: its data, its regions, and the
//! arguments of the measured call.
use vstd::prelude::*;
use crate::memory_region::zeroed;
use crate::region::RegionKind;
use crate::text::{decimal, push_decimal};
use super::cells::{lemma_with_u32, put_u32, u32_at};
use super::pattern::{law_shuffle_is_an_order, pattern, pattern_bytes, seeded, shuffle_of, shuffled, sum_u32};
use super::shapes::{holds_list, is_ring, law_chase_reads_every_cell, law_list_reads_every_node, list_bytes, ring_bytes};
use super::workloads::{chase_sum, filter_sum, is_list, list_total};

verus! {

/// The seed of all prepared data.
pub const SEED: u32 = 0xDEAD_BEEF;

/// Rounds before the measured ones.
pub const WARMUP_ROUNDS: usize = 5;

/// Measured rounds.
pub const SAMPLES: usize = 50;

/// A region to be created: its kind and capacity.
pub type RegionSpec = (RegionKind, u32);

fn one_region(kind: RegionKind, capacity: u32) -> (r: Vec<RegionSpec>)
    ensures
        r@ == seq![(kind, capacity)],
{
    let mut v: Vec<RegionSpec> = Vec::new();
    v.push((kind, capacity));
    assert(v@ =~= seq![(kind, capacity)]);
    v
}

fn equal_regions(kind: RegionKind, capacity: u32, count: u32) -> (r: Vec<RegionSpec>)
    ensures
        r@ == Seq::new(count as nat, |i: int| (kind, capacity)),
{
    let mut v: Vec<RegionSpec> = Vec::new();
    let mut i: u32 = 0;
    while i < count
        invariant
            i <= count,
            v@ == Seq::new(i as nat, |i: int| (kind, capacity)),
        decreases count - i,
    {
        v.push((kind, capacity));
        i += 1;
        assert(v@ =~= Seq::new(i as nat, |i: int| (kind, capacity)));
    }
    v
}

/// The pages of 64 KiB that hold `size` bytes; at least one.
pub open spec fn pages_for(size: nat) -> nat {
    if size == 0 {
        1
    } else {
        (size + 65535) as nat / 65536
    }
}

/// The pages that hold `size` bytes; at least one.
pub fn pages_needed(size: u32) -> (r: u32)
    ensures
        r == pages_for(size as nat),
        r >= 1,
        size <= 65536 * r,
        r > 1 ==> 65536 * (r - 1) < size,
{
    let pages: u64 = (size as u64 + 65535) / 65536;
    if pages == 0 {
        1
    } else {
        pages as u32
    }
}

/// A sequential sum.
pub struct SequentialPlan {
    pub data: Vec<u8>,
    pub regions: Vec<RegionSpec>,
}

pub fn plan_sequential(size: u32) -> (r: SequentialPlan)
    requires
        size + 4096 <= u32::MAX,
    ensures
        r.data@ == pattern(SEED, size as nat),
        r.regions@ == seq![(RegionKind::HotHeap, (size + 4096) as u32)],
{
    SequentialPlan {
        data: pattern_bytes(size as usize, SEED),
        regions: one_region(RegionKind::HotHeap, size + 4096),
    }
}

/// A chase round a shuffled ring.
pub struct RandomPlan {
    pub cells: u32,
    pub steps: u32,
    pub bytes: Vec<u8>,
    pub regions: Vec<RegionSpec>,
}

pub fn plan_random(size: u32) -> (r: RandomPlan)
    requires
        size + 4096 <= u32::MAX,
    ensures
        r.cells == size / 4,
        r.steps == 4 * r.cells,
        is_ring(r.bytes@, shuffle_of(r.cells as nat, seeded(SEED, 7))),
        r.regions@ == seq![(RegionKind::HotHeap, (size + 4096) as u32)],
{
    let cells: u32 = size / 4;
    let ring = shuffled(cells, SEED.wrapping_add(7));
    RandomPlan {
        cells,
        steps: 4 * cells,
        bytes: ring_bytes(&ring),
        regions: one_region(RegionKind::HotHeap, size + 4096),
    }
}

/// The chase that is prepared goes four times round all cells.
pub proof fn law_random_plan(p: RandomPlan)
    requires
        0 < p.cells,
        p.steps == 4 * p.cells,
        is_ring(p.bytes@, shuffle_of(p.cells as nat, seeded(SEED, 7))),
    ensures
        chase_sum(p.bytes@, p.cells, p.steps as nat) == 2 * p.cells * (p.cells - 1),
{
    let order = shuffle_of(p.cells as nat, seeded(SEED, 7));
    law_shuffle_is_an_order(p.cells as nat, seeded(SEED, 7));
    law_chase_reads_every_cell(p.bytes@, order, 4);
    let n = p.cells as int;
    let total = sum_u32(order, n);
    assert(4 * total == 2 * n * (n - 1)) by (nonlinear_arith)
        requires
            2 * total == n * (n - 1),
    ;
}

/// A walk along a shuffled list.
pub struct ListPlan {
    pub nodes: u32,
    pub head_offset: u32,
    pub bytes: Vec<u8>,
    pub regions: Vec<RegionSpec>,
}

pub fn plan_list(size: u32) -> (r: ListPlan)
    requires
        8 <= size,
        size + 4096 <= u32::MAX,
    ensures
        r.nodes == size / 8,
        r.head_offset == 8 * shuffle_of(r.nodes as nat, seeded(SEED, 11))[0],
        holds_list(r.bytes@, shuffle_of(r.nodes as nat, seeded(SEED, 11))),
        is_list(r.bytes@, r.head_offset),
        r.regions@ == seq![(RegionKind::HotHeap, (size + 4096) as u32)],
{
    let nodes: u32 = size / 8;
    let order = shuffled(nodes, SEED.wrapping_add(11));
    let head_offset: u32 = order[0] * 8;
    let bytes = list_bytes(&order);
    proof {
        law_list_reads_every_node(bytes@, order@);
    }
    ListPlan {
        nodes,
        head_offset,
        bytes,
        regions: one_region(RegionKind::HotHeap, size + 4096),
    }
}

/// The walk that is prepared reads each node once.
pub proof fn law_list_plan(p: ListPlan)
    requires
        0 < p.nodes < 0x2000_0000,
        p.head_offset == 8 * shuffle_of(p.nodes as nat, seeded(SEED, 11))[0],
        holds_list(p.bytes@, shuffle_of(p.nodes as nat, seeded(SEED, 11))),
    ensures
        2 * list_total(p.bytes@, p.head_offset) == p.nodes * (p.nodes - 1),
{
    law_shuffle_is_an_order(p.nodes as nat, seeded(SEED, 11));
    law_list_reads_every_node(p.bytes@, shuffle_of(p.nodes as nat, seeded(SEED, 11)));
}

/// Blocks taken one behind the other.
pub struct GrowthPlan {
    pub block: u32,
    pub count: u32,
    pub regions: Vec<RegionSpec>,
}

pub fn plan_growth(size: u32) -> (r: GrowthPlan)
    requires
        size + 4096 <= u32::MAX,
    ensures
        r.block == 32,
        r.count == size / 32,
        r.regions@ == seq![(RegionKind::HotHeap, (size + 4096) as u32)],
{
    let block: u32 = 32;
    GrowthPlan {
        block,
        count: size / block,
        regions: one_region(RegionKind::HotHeap, size + 4096),
    }
}

/// Reads from a hot, a warm and a cold part.
pub struct MultiRegionPlan {
    pub hot: Vec<u8>,
    pub warm: Vec<u8>,
    pub cold: Vec<u8>,
    pub iters: u32,
    pub regions: Vec<RegionSpec>,
}

impl MultiRegionPlan {
    /// Six tenths of the size are hot, three tenths warm, the rest is cold.
    pub open spec fn is_for(&self, size: u32) -> bool {
        let hot = (size * 6 / 10) as nat;
        let warm = (size * 3 / 10) as nat;
        let cold = (size - hot - warm) as nat;
        &&& self.hot@ == pattern(SEED, hot)
        &&& self.warm@ == pattern(seeded(SEED, 1), warm)
        &&& self.cold@ == pattern(seeded(SEED, 2), cold)
        &&& self.iters == 10_000
        &&& self.regions@ == seq![
            (RegionKind::HotHeap, (hot + 64) as u32),
            (RegionKind::ObjectArena, (warm + 64) as u32),
            (RegionKind::ObjectArena, (cold + 64) as u32),
        ]
    }
}

pub fn plan_multi_region(size: u32) -> (r: MultiRegionPlan)
    requires
        size * 6 <= u32::MAX,
    ensures
        r.is_for(size),
{
    let hot_size: u32 = size * 6 / 10;
    let warm_size: u32 = size * 3 / 10;
    let cold_size: u32 = size - hot_size - warm_size;
    let mut regions: Vec<RegionSpec> = Vec::new();
    regions.push((RegionKind::HotHeap, hot_size + 64));
    regions.push((RegionKind::ObjectArena, warm_size + 64));
    regions.push((RegionKind::ObjectArena, cold_size + 64));
    let plan = MultiRegionPlan {
        hot: pattern_bytes(hot_size as usize, SEED),
        warm: pattern_bytes(warm_size as usize, SEED.wrapping_add(1)),
        cold: pattern_bytes(cold_size as usize, SEED.wrapping_add(2)),
        iters: 10_000,
        regions,
    };
    assert(plan.regions@ =~= seq![
        (RegionKind::HotHeap, (hot_size + 64) as u32),
        (RegionKind::ObjectArena, (warm_size + 64) as u32),
        (RegionKind::ObjectArena, (cold_size + 64) as u32),
    ]);
    plan
}

/// The three parts make up the whole size, and none of them is empty once the
/// size is at least four bytes.
pub proof fn law_partition_is_whole(p: MultiRegionPlan, size: u32)
    requires
        p.is_for(size),
    ensures
        p.hot@.len() + p.warm@.len() + p.cold@.len() == size,
        size >= 4 ==> p.hot@.len() > 0 && p.warm@.len() > 0 && p.cold@.len() > 0,
{
}

/// A filter over two columns.
pub struct ColumnarPlan {
    pub n: u32,
    pub threshold: u32,
    pub col_a: Vec<u8>,
    pub col_b: Vec<u8>,
    pub regions: Vec<RegionSpec>,
}

/// The value that stands in a row.
pub open spec fn row_value(i: int) -> u32 {
    (i * 13 % 0x1_0000_0000) as u32
}

impl ColumnarPlan {
    pub open spec fn is_for(&self, size: u32) -> bool {
        &&& self.n == size / 8
        &&& self.threshold == self.n / 2
        &&& self.col_a@.len() == self.n * 4
        &&& self.col_b@.len() == self.n * 4
        &&& forall|i: int| 0 <= i < self.n ==> #[trigger] u32_at(self.col_a@, 4 * i) == i
        &&& forall|i: int|
            0 <= i < self.n ==> #[trigger] u32_at(self.col_b@, 4 * i) == row_value(i)
        &&& self.regions@ == seq![
            (RegionKind::HotHeap, (self.n * 4 + 64) as u32),
            (RegionKind::HotHeap, (self.n * 4 + 64) as u32),
        ]
    }
}

pub fn plan_columnar(size: u32) -> (r: ColumnarPlan)
    ensures
        r.is_for(size),
{
    let n: u32 = size / 8;
    let mut col_a = zeroed(n as usize * 4);
    let mut col_b = zeroed(n as usize * 4);
    let mut i: u32 = 0;
    while i < n
        invariant
            i <= n,
            n <= 0x1fff_ffff,
            col_a@.len() == n * 4,
            col_b@.len() == n * 4,
            forall|k: int| 0 <= k < i ==> #[trigger] u32_at(col_a@, 4 * k) == k,
            forall|k: int| 0 <= k < i ==> #[trigger] u32_at(col_b@, 4 * k) == row_value(k),
        decreases n - i,
    {
        let off: usize = i as usize * 4;
        let v: u32 = i.wrapping_mul(13);
        let ghost a = col_a@;
        let ghost b = col_b@;
        proof {
            lemma_with_u32(a, off as int, i);
            lemma_with_u32(b, off as int, v);
        }
        put_u32(col_a.as_mut_slice(), off, i);
        put_u32(col_b.as_mut_slice(), off, v);
        assert(v == row_value(i as int));
        i += 1;
    }
    let mut regions: Vec<RegionSpec> = Vec::new();
    regions.push((RegionKind::HotHeap, n * 4 + 64));
    regions.push((RegionKind::HotHeap, n * 4 + 64));
    assert(regions@ =~= seq![
        (RegionKind::HotHeap, (n * 4 + 64) as u32),
        (RegionKind::HotHeap, (n * 4 + 64) as u32),
    ]);
    ColumnarPlan { n, threshold: n / 2, col_a, col_b, regions }
}

/// The sum of the values of the first `n` rows.
pub open spec fn row_sum(n: nat) -> nat
    decreases n,
{
    if n == 0 {
        0
    } else {
        row_sum((n - 1) as nat) + row_value(n - 1) as nat
    }
}

proof fn lemma_columnar_prefix(p: ColumnarPlan, size: u32, k: nat)
    requires
        p.is_for(size),
        k <= p.n,
    ensures
        filter_sum(p.col_a@, p.col_b@, p.threshold, k) == row_sum(
            if k <= p.threshold {
                k
            } else {
                p.threshold as nat
            },
        ),
    decreases k,
{
    if k > 0 {
        lemma_columnar_prefix(p, size, (k - 1) as nat);
        assert(u32_at(p.col_a@, 4 * (k - 1)) == k - 1);
        assert(u32_at(p.col_b@, 4 * (k - 1)) == row_value(k - 1));
    }
}

/// The filter that is prepared takes exactly the first half of the rows.
pub proof fn law_columnar_plan(p: ColumnarPlan, size: u32)
    requires
        p.is_for(size),
    ensures
        filter_sum(p.col_a@, p.col_b@, p.threshold, p.n as nat) == row_sum((p.n / 2) as nat),
{
    lemma_columnar_prefix(p, size, p.n as nat);
}

/// Objects with a header each.
pub struct JvmPlan {
    pub n: u32,
    pub regions: Vec<RegionSpec>,
}

pub fn plan_jvm(size: u32) -> (r: JvmPlan)
    requires
        size + 4096 <= u32::MAX,
    ensures
        r.n == size / 32,
        r.regions@ == seq![(RegionKind::HotHeap, (size + 4096) as u32)],
{
    JvmPlan { n: size / 32, regions: one_region(RegionKind::HotHeap, size + 4096) }
}

/// Reads scattered over many blocks, each a region of its own.
pub struct LargeWsPlan {
    pub n_blocks: u32,
    pub block_size: u32,
    pub iters: u32,
    pub data: Vec<u8>,
    pub handles_offset: u32,
    pub regions: Vec<RegionSpec>,
}

impl LargeWsPlan {
    pub open spec fn is_for(&self, size: u32) -> bool {
        &&& self.n_blocks == 16
        &&& self.block_size == size / 16
        &&& self.iters == 10_000
        &&& self.data@ == pattern(SEED, (16 * self.block_size) as nat)
        &&& self.handles_offset == 4 * 1024 * 1024
        &&& self.regions@ == Seq::new(
            16,
            |i: int| (RegionKind::HotHeap, (self.block_size + 64) as u32),
        )
    }

    /// The bytes of one block.
    pub fn block(&self, i: u32) -> (r: &[u8])
        requires
            exists|size: u32| self.is_for(size),
            i < self.n_blocks,
        ensures
            r@ == self.data@.subrange(i * self.block_size, (i + 1) * self.block_size),
    {
        let size: usize = self.block_size as usize;
        assert(0 <= i * size && (i + 1) * size <= 16 * size && (i + 1) * size == i * size + size)
            by (nonlinear_arith)
            requires
                0 <= i < 16,
                0 <= size,
        ;
        let off: usize = i as usize * size;
        vstd::slice::slice_subrange(self.data.as_slice(), off, off + size)
    }
}

pub fn plan_large_ws(size: u32) -> (r: LargeWsPlan)
    ensures
        r.is_for(size),
{
    let n_blocks: u32 = 16;
    let block_size: u32 = size / n_blocks;
    LargeWsPlan {
        n_blocks,
        block_size,
        iters: 10_000,
        data: pattern_bytes((n_blocks * block_size) as usize, SEED),
        handles_offset: 4 * 1024 * 1024,
        regions: equal_regions(RegionKind::HotHeap, block_size + 64, n_blocks),
    }
}

/// The bytes of a word of 64 bits, the lowest first.
pub open spec fn le_bytes(v: u64) -> Seq<u8> {
    seq![
        (v % 0x100) as u8,
        (v / 0x100 % 0x100) as u8,
        (v / 0x1_0000 % 0x100) as u8,
        (v / 0x100_0000 % 0x100) as u8,
        (v / 0x1_0000_0000 % 0x100) as u8,
        (v / 0x100_0000_0000 % 0x100) as u8,
        (v / 0x1_0000_0000_0000 % 0x100) as u8,
        (v / 0x100_0000_0000_0000) as u8,
    ]
}

/// The bytes of the first `n` packed handles, one behind the other.
pub open spec fn handle_bytes(handles: Seq<u64>, n: int) -> Seq<u8>
    decreases n,
{
    if n <= 0 {
        Seq::empty()
    } else {
        handle_bytes(handles, n - 1) + le_bytes(handles[n - 1])
    }
}

/// The bytes of packed handles, one behind the other.
pub fn handle_table(handles: &[u64]) -> (r: Vec<u8>)
    ensures
        r@ == handle_bytes(handles@, handles@.len() as int),
        r@.len() == 8 * handles@.len(),
{
    let n: usize = handles.len();
    let mut out: Vec<u8> = Vec::new();
    let mut i: usize = 0;
    while i < n
        invariant
            i <= n,
            n == handles@.len(),
            out@ == handle_bytes(handles@, i as int),
            out@.len() == 8 * i,
        decreases n - i,
    {
        let ghost before = out@;
        let v: u64 = handles[i];
        out.push((v % 0x100) as u8);
        out.push((v / 0x100 % 0x100) as u8);
        out.push((v / 0x1_0000 % 0x100) as u8);
        out.push((v / 0x100_0000 % 0x100) as u8);
        out.push((v / 0x1_0000_0000 % 0x100) as u8);
        out.push((v / 0x100_0000_0000 % 0x100) as u8);
        out.push((v / 0x1_0000_0000_0000 % 0x100) as u8);
        out.push((v / 0x100_0000_0000_0000) as u8);
        assert(out@ =~= before + le_bytes(v));
        i += 1;
    }
    out
}

/// The pages by which a memory of `current` bytes has to grow to hold `len`
/// bytes at `offset`.
pub open spec fn growth_for(current: nat, offset: nat, len: nat) -> nat {
    let needed = ((offset + len + 65535) as nat / 65536) * 65536;
    if current < needed {
        ((needed - current + 65535) as nat / 65536)
    } else {
        0
    }
}

/// The pages by which a memory has to grow to hold `len` bytes at `offset`.
pub fn pages_to_grow(current: u64, offset: u32, len: u32) -> (r: u64)
    ensures
        r == growth_for(current as nat, offset as nat, len as nat),
        current + 65536 * r >= offset + len,
        r > 0 ==> current + 65536 * (r - 1) < offset + len + 65535,
{
    let needed: u64 = ((offset as u64 + len as u64) + 65535) / 65536 * 65536;
    if current < needed {
        (needed - current + 65535) / 65536
    } else {
        0
    }
}

/// A working set of several times the resident budget.
pub struct SpillPlan {
    pub resident_budget: u32,
    pub n_tiers: u32,
    pub cycles: u32,
    /// The bytes that are read in a cycle.
    pub touched: u32,
    pub regions: Vec<RegionSpec>,
    /// Why the other variants cannot run.
    pub infeasible: String,
}

impl SpillPlan {
    pub open spec fn is_for(&self, size: u32) -> bool {
        &&& self.resident_budget == size
        &&& self.n_tiers == 4
        &&& self.cycles == 8
        &&& self.touched == 64
        &&& self.regions@ == Seq::new(4, |i: int| (RegionKind::ObjectArena, (size + 64) as u32))
        &&& self.infeasible@ == "infeasible: working set ("@ + decimal((size * 4) as nat)
            + " B) exceeds resident budget ("@ + decimal(size as nat)
            + " B); requires user-implemented swap"@
    }
}

pub fn plan_spill_driven(size: u32) -> (r: SpillPlan)
    requires
        size * 4 <= u32::MAX,
    ensures
        r.is_for(size),
{
    let n_tiers: u32 = 4;
    let mut infeasible = "infeasible: working set (".to_owned();
    push_decimal(&mut infeasible, (size * n_tiers) as u64);
    infeasible.append(" B) exceeds resident budget (");
    push_decimal(&mut infeasible, size as u64);
    infeasible.append(" B); requires user-implemented swap");
    SpillPlan {
        resident_budget: size,
        n_tiers,
        cycles: 8,
        touched: 64,
        regions: equal_regions(RegionKind::ObjectArena, size + 64, n_tiers),
        infeasible,
    }
}

/// The region that is read in a cycle.
pub open spec fn active_in(cycle: u32, n_tiers: u32) -> u32 {
    (cycle as int % n_tiers as int) as u32
}

/// The regions that are spilled before the active one is read.
pub open spec fn spilled_in(cycle: u32, n_tiers: u32, n: int) -> Seq<u32>
    decreases n,
{
    if n <= 0 {
        Seq::empty()
    } else if n - 1 != active_in(cycle, n_tiers) {
        spilled_in(cycle, n_tiers, n - 1).push((n - 1) as u32)
    } else {
        spilled_in(cycle, n_tiers, n - 1)
    }
}

/// Which region a cycle reads, and which it spills before: all the others.
pub fn spill_cycle(cycle: u32, n_tiers: u32) -> (r: (u32, Vec<u32>))
    requires
        n_tiers > 0,
    ensures
        r.0 == active_in(cycle, n_tiers),
        r.0 < n_tiers,
        r.1@ == spilled_in(cycle, n_tiers, n_tiers as int),
{
    let active: u32 = cycle % n_tiers;
    let mut spilled: Vec<u32> = Vec::new();
    let mut i: u32 = 0;
    while i < n_tiers
        invariant
            i <= n_tiers,
            active == active_in(cycle, n_tiers),
            spilled@ == spilled_in(cycle, n_tiers, i as int),
        decreases n_tiers - i,
    {
        if i != active {
            spilled.push(i);
        }
        i += 1;
    }
    (active, spilled)
}

proof fn lemma_spilled_in(cycle: u32, n_tiers: u32, n: int)
    requires
        n_tiers > 0,
        n <= n_tiers,
    ensures
        forall|k: u32| #[trigger]
            spilled_in(cycle, n_tiers, n).contains(k) <==> k < n && k != active_in(
                cycle,
                n_tiers,
            ),
    decreases n,
{
    if n > 0 {
        lemma_spilled_in(cycle, n_tiers, n - 1);
        let before = spilled_in(cycle, n_tiers, n - 1);
        let after = spilled_in(cycle, n_tiers, n);
        assert forall|k: u32| #[trigger] after.contains(k) <==> k < n && k != active_in(
            cycle,
            n_tiers,
        ) by {
            if n - 1 != active_in(cycle, n_tiers) {
                assert(after[after.len() - 1] == n - 1);
                if before.contains(k) {
                    let at = choose|i: int| 0 <= i < before.len() && before[i] == k;
                    assert(after[at] == k);
                }
                if after.contains(k) && k != n - 1 {
                    let at = choose|i: int| 0 <= i < after.len() && after[i] == k;
                    assert(before[at] == k);
                }
            }
        }
    }
}

/// A cycle spills every region but the one that it reads.
pub proof fn law_cycle_spills_the_others(cycle: u32, n_tiers: u32)
    requires
        n_tiers > 0,
    ensures
        forall|k: u32| #[trigger]
            spilled_in(cycle, n_tiers, n_tiers as int).contains(k) <==> k < n_tiers && k
                != active_in(cycle, n_tiers),
{
    lemma_spilled_in(cycle, n_tiers, n_tiers as int);
}

} // verus!
