//! Which regions bulk eviction spills, and in which order.
use vstd::prelude::*;
use crate::error::TvmError;
use crate::region::{Region, Residency};

verus! {

/// Within a tier, the order in which regions are considered for eviction.
#[derive(Clone, Copy, Debug, PartialEq, Eq, Structural)]
pub enum WithinTier {
    /// The region with the most used bytes first: fewest regions touched.
    LargestFirst,
    /// The region with the fewest used bytes first: least lost per spill.
    SmallestFirst,
    /// By ascending region id.
    InsertionOrder,
}

/// How bulk eviction chooses regions.
#[derive(Clone, Copy, Debug, PartialEq, Eq, Structural)]
#[non_exhaustive]
pub enum EvictionPolicy {
    /// Warm regions before hot ones; inside a tier, by `within_tier`.
    ColdestFirst { within_tier: WithinTier },
}

/// What a bulk eviction did. `target_met` tells whether the resident bytes are
/// at or below the target afterwards; that they are not is no error.
#[derive(Clone, Copy, Debug, PartialEq, Eq, Structural)]
#[non_exhaustive]
pub struct EvictionReport {
    pub bytes_freed: u64,
    pub regions_spilled: u16,
    pub target_met: bool,
}

/// A report of nothing done.
pub open spec fn empty_report() -> EvictionReport {
    EvictionReport { bytes_freed: 0, regions_spilled: 0, target_met: false }
}

impl Default for EvictionReport {
    fn default() -> (r: Self)
        ensures
            r == empty_report(),
    {
        EvictionReport { bytes_freed: 0, regions_spilled: 0, target_met: false }
    }
}

/// The bytes of a region in this tier count as resident.
pub open spec fn resident(t: Residency) -> bool {
    t == Residency::Hot || t == Residency::Warm
}

/// Whether the bytes of a region in this tier count as resident.
pub fn counts_toward_resident(t: Residency) -> (r: bool)
    ensures
        r == resident(t),
{
    matches!(t, Residency::Hot | Residency::Warm)
}

/// The used bytes of the resident ones among the first `n` regions.
pub open spec fn resident_bytes(regions: Seq<Region>, n: int) -> int
    decreases n,
{
    if n <= 0 {
        0
    } else {
        resident_bytes(regions, n - 1) + (if resident(regions[n - 1].residency) {
            regions[n - 1].used as int
        } else {
            0
        })
    }
}

/// The used bytes of all resident regions.
pub fn total_resident(regions: &Vec<Region>) -> (r: u64)
    requires
        regions@.len() <= 0x1_0000,
    ensures
        r == resident_bytes(regions@, regions@.len() as int),
{
    let mut total: u64 = 0;
    let mut i: usize = 0;
    while i < regions.len()
        invariant
            i <= regions@.len() <= 0x1_0000,
            total == resident_bytes(regions@, i as int),
            total <= i * 0xffff_ffff,
        decreases regions@.len() - i,
    {
        assert(total + regions@[i as int].used <= (i + 1) * 0xffff_ffff);
        if counts_toward_resident(regions[i].residency) {
            total = total + regions[i].used as u64;
        }
        i += 1;
    }
    total
}

/// The region may be spilled by bulk eviction.
pub open spec fn eligible(r: Region) -> bool {
    !r.pinned && r.spillable && resident(r.residency)
}

/// `a` comes before `b` in its tier. Equal sizes go by ascending id.
pub open spec fn before_in_tier(w: WithinTier, a: Region, b: Region) -> bool {
    match w {
        WithinTier::LargestFirst => a.used > b.used || (a.used == b.used && a.id < b.id),
        WithinTier::SmallestFirst => a.used < b.used || (a.used == b.used && a.id < b.id),
        WithinTier::InsertionOrder => a.id < b.id,
    }
}

/// `a` is spilled before `b`: warm before hot, then by the order inside the tier.
pub open spec fn spilled_before(w: WithinTier, a: Region, b: Region) -> bool {
    if a.residency == b.residency {
        before_in_tier(w, a, b)
    } else {
        a.residency == Residency::Warm
    }
}

/// `order` holds exactly the eligible regions, each before those that are
/// spilled after it.
pub open spec fn is_eviction_order(w: WithinTier, regions: Seq<Region>, order: Seq<Region>) -> bool {
    &&& forall|i: int, j: int|
        0 <= i < j < order.len() ==> spilled_before(w, #[trigger] order[i], #[trigger] order[j])
    &&& forall|i: int|
        0 <= i < order.len() ==> eligible(#[trigger] order[i]) && regions.contains(order[i])
    &&& forall|r: Region| eligible(r) && #[trigger] regions.contains(r) ==> order.contains(r)
}

/// There is only one eviction order.
pub proof fn law_eviction_order_unique(
    w: WithinTier,
    regions: Seq<Region>,
    a: Seq<Region>,
    b: Seq<Region>,
)
    requires
        is_eviction_order(w, regions, a),
        is_eviction_order(w, regions, b),
    ensures
        a == b,
{
    lemma_sorted_unique(w, a, b);
}

proof fn lemma_sorted_unique(w: WithinTier, a: Seq<Region>, b: Seq<Region>)
    requires
        forall|i: int, j: int|
            0 <= i < j < a.len() ==> spilled_before(w, #[trigger] a[i], #[trigger] a[j]),
        forall|i: int, j: int|
            0 <= i < j < b.len() ==> spilled_before(w, #[trigger] b[i], #[trigger] b[j]),
        forall|i: int| 0 <= i < a.len() ==> eligible(#[trigger] a[i]) && b.contains(a[i]),
        forall|i: int| 0 <= i < b.len() ==> eligible(#[trigger] b[i]) && a.contains(b[i]),
    ensures
        a == b,
    decreases a.len(),
{
    if a.len() == 0 {
        if b.len() > 0 {
            assert(a.contains(b[0]));
        }
        assert(a =~= b);
    } else {
        let x = a[a.len() - 1];
        assert(b.contains(x));
        let j = choose|j: int| 0 <= j < b.len() && b[j] == x;
        let y = b[b.len() - 1];
        assert(a.contains(y));
        let i = choose|i: int| 0 <= i < a.len() && a[i] == y;
        if i < a.len() - 1 {
            assert(spilled_before(w, a[i], a[a.len() - 1]));
        }
        if j < b.len() - 1 {
            assert(spilled_before(w, b[j], b[b.len() - 1]));
        }
        assert(x == y);
        let a2 = a.drop_last();
        let b2 = b.drop_last();
        assert forall|i: int| 0 <= i < a2.len() implies eligible(#[trigger] a2[i]) && b2.contains(
            a2[i],
        ) by {
            assert(a2[i] == a[i]);
            assert(spilled_before(w, a[i], a[a.len() - 1]));
            let k = choose|k: int| 0 <= k < b.len() && b[k] == a[i];
            assert(k != b.len() - 1);
            assert(b2[k] == a[i]);
        }
        assert forall|i: int| 0 <= i < b2.len() implies eligible(#[trigger] b2[i]) && a2.contains(
            b2[i],
        ) by {
            assert(b2[i] == b[i]);
            assert(spilled_before(w, b[i], b[b.len() - 1]));
            let k = choose|k: int| 0 <= k < a.len() && a[k] == b[i];
            assert(k != a.len() - 1);
            assert(a2[k] == b[i]);
        }
        lemma_sorted_unique(w, a2, b2);
        assert(a =~= a2.push(x));
        assert(b =~= b2.push(y));
    }
}

/// Whether `a` is spilled before `b`.
pub fn precedes(w: WithinTier, a: &Region, b: &Region) -> (r: bool)
    ensures
        r == spilled_before(w, *a, *b),
{
    if a.residency == b.residency {
        match w {
            WithinTier::LargestFirst => a.used > b.used || (a.used == b.used && a.id < b.id),
            WithinTier::SmallestFirst => a.used < b.used || (a.used == b.used && a.id < b.id),
            WithinTier::InsertionOrder => a.id < b.id,
        }
    } else {
        a.residency == Residency::Warm
    }
}

/// The eligible regions in the order in which they are to be spilled.
pub fn eviction_order(w: WithinTier, regions: &Vec<Region>) -> (r: Vec<Region>)
    requires
        forall|i: int, j: int|
            0 <= i < j < regions@.len() ==> (#[trigger] regions@[i]).id < (#[trigger] regions@[j]).id,
    ensures
        is_eviction_order(w, regions@, r@),
{
    let mut order: Vec<Region> = Vec::new();
    let mut i: usize = 0;
    assert(regions@.subrange(0, 0) =~= Seq::empty());
    while i < regions.len()
        invariant
            i <= regions@.len(),
            forall|i: int, j: int|
                0 <= i < j < regions@.len() ==> (#[trigger] regions@[i]).id < (
                #[trigger] regions@[j]).id,
            is_eviction_order(w, regions@.subrange(0, i as int), order@),
        decreases regions@.len() - i,
    {
        let r: Region = regions[i];
        let ghost seen = regions@.subrange(0, i as int);
        let ghost more = regions@.subrange(0, i + 1);
        let ghost before = order@;
        assert(more =~= seen.push(r));
        assert(forall|x: Region| seen.contains(x) ==> #[trigger] more.contains(x)) by {
            assert forall|x: Region| seen.contains(x) implies #[trigger] more.contains(x) by {
                let k = choose|k: int| 0 <= k < seen.len() && seen[k] == x;
                assert(more[k] == x);
            }
        }
        assert(more.contains(r)) by {
            assert(more[i as int] == r);
        }
        assert forall|x: Region| #[trigger] more.contains(x) implies x == r || seen.contains(x) by {
            let k = choose|k: int| 0 <= k < more.len() && more[k] == x;
            if k < i {
                assert(seen[k] == x);
            }
        }
        if !r.pinned && r.spillable && counts_toward_resident(r.residency) {
            let mut at: usize = order.len();
            while at > 0 && precedes(w, &r, &order[at - 1])
                invariant
                    at <= order@.len(),
                    order@ == before,
                    forall|k: int|
                        at <= k < order@.len() ==> spilled_before(w, r, #[trigger] order@[k]),
                decreases at,
            {
                at -= 1;
            }
            proof {
                assert forall|k: int| 0 <= k < at implies spilled_before(
                    w,
                    #[trigger] before[k],
                    r,
                ) by {
                    let last = before[at - 1];
                    assert(eligible(last) && seen.contains(last));
                    let s = choose|s: int| 0 <= s < seen.len() && seen[s] == last;
                    assert(regions@[s].id < regions@[i as int].id);
                    assert(spilled_before(w, last, r));
                    if k < at - 1 {
                        assert(spilled_before(w, before[k], before[at - 1]));
                        assert(eligible(before[k]));
                    }
                }
            }
            order.insert(at, r);
            proof {
                let o = order@;
                assert(o =~= before.insert(at as int, r));
                assert forall|a: int, b: int| 0 <= a < b < o.len() implies spilled_before(
                    w,
                    #[trigger] o[a],
                    #[trigger] o[b],
                ) by {
                    if a < at && b > at {
                        assert(spilled_before(w, before[a], before[b - 1]));
                    } else if a < at && b < at {
                        assert(spilled_before(w, before[a], before[b]));
                    } else if a > at {
                        assert(spilled_before(w, before[a - 1], before[b - 1]));
                    } else if a == at {
                        assert(o[b] == before[b - 1]);
                    }
                }
                assert forall|k: int| 0 <= k < o.len() implies eligible(#[trigger] o[k])
                    && more.contains(o[k]) by {
                    if k < at {
                        assert(eligible(before[k]) && seen.contains(before[k]));
                    } else if k > at {
                        assert(eligible(before[k - 1]) && seen.contains(before[k - 1]));
                    }
                }
                assert forall|x: Region|
                    eligible(x) && #[trigger] more.contains(x) implies o.contains(x) by {
                    if x == r {
                        assert(o[at as int] == r);
                    } else {
                        assert(before.contains(x));
                        let k = choose|k: int| 0 <= k < before.len() && before[k] == x;
                        let k2 = if k < at {
                            k
                        } else {
                            k + 1
                        };
                        assert(o[k2] == x);
                    }
                }
            }
        }
        i += 1;
    }
    assert(regions@.subrange(0, i as int) =~= regions@);
    order
}

/// A spill failed for a reason that only takes the region out of the running.
pub open spec fn passed_over(e: TvmError) -> bool {
    e is Pinned || e is PolicyViolation || e is NotResident || e is RegionNotFound
}

/// The report after one more region of `used` bytes.
pub open spec fn one_more(report: EvictionReport, used: u32) -> EvictionReport {
    EvictionReport {
        bytes_freed: if report.bytes_freed + used > u64::MAX {
            u64::MAX
        } else {
            (report.bytes_freed + used) as u64
        },
        regions_spilled: if report.regions_spilled == u16::MAX {
            u16::MAX
        } else {
            (report.regions_spilled + 1) as u16
        },
        target_met: report.target_met,
    }
}

/// The resident bytes left of `current` after `used` of them went.
pub open spec fn left(current: u64, used: u32) -> u64 {
    if current >= used {
        (current - used) as u64
    } else {
        0
    }
}

/// A bulk eviction under way: what to spill next, and what came of it so far.
/// Whoever runs it spills one region after the other and hands the answers in.
pub struct EvictionRun {
    order: Vec<Region>,
    next: usize,
    current: u64,
    target: u64,
    report: EvictionReport,
}

impl EvictionRun {
    pub closed spec fn wf(&self) -> bool {
        self.next <= self.order@.len()
    }

    /// The regions that have not been tried yet, in their order.
    pub closed spec fn rest(&self) -> Seq<Region> {
        self.order@.subrange(self.next as int, self.order@.len() as int)
    }

    /// The bytes that are resident by now.
    pub closed spec fn resident_now(&self) -> u64 {
        self.current
    }

    pub closed spec fn goal(&self) -> u64 {
        self.target
    }

    /// What was done so far.
    pub closed spec fn so_far(&self) -> EvictionReport {
        self.report
    }

    /// A run over the given regions, none of them spilled yet.
    pub fn start(regions: &Vec<Region>, target: u64, within: WithinTier) -> (r: Self)
        requires
            regions@.len() <= 0x1_0000,
            forall|i: int, j: int|
                0 <= i < j < regions@.len() ==> (#[trigger] regions@[i]).id < (
                #[trigger] regions@[j]).id,
        ensures
            r.wf(),
            is_eviction_order(within, regions@, r.rest()),
            r.resident_now() == resident_bytes(regions@, regions@.len() as int),
            r.goal() == target,
            r.so_far() == empty_report(),
    {
        let order: Vec<Region> = eviction_order(within, regions);
        assert(order@.subrange(0, order@.len() as int) =~= order@);
        EvictionRun {
            order,
            next: 0,
            current: total_resident(regions),
            target,
            report: EvictionReport::default(),
        }
    }

    /// The region to be spilled next: none where the target is met or no region is left.
    pub fn candidate(&self) -> (r: Option<Region>)
        requires
            self.wf(),
        ensures
            r == (if self.resident_now() > self.goal() && self.rest().len() > 0 {
                Some(self.rest()[0])
            } else {
                None
            }),
    {
        if self.current > self.target && self.next < self.order.len() {
            Some(self.order[self.next])
        } else {
            None
        }
    }

    /// Takes in what came of spilling the next region. A region that turned out
    /// not to be spillable is passed over; any other failure is handed on.
    pub fn take_answer(&mut self, answer: Result<(), TvmError>) -> (r: Result<(), TvmError>)
        requires
            old(self).wf(),
            old(self).rest().len() > 0,
        ensures
            final(self).wf(),
            final(self).rest() == old(self).rest().drop_first(),
            final(self).goal() == old(self).goal(),
            match answer {
                Ok(_) => {
                    let used = old(self).rest()[0].used;
                    &&& r is Ok
                    &&& final(self).resident_now() == left(old(self).resident_now(), used)
                    &&& final(self).so_far() == one_more(old(self).so_far(), used)
                },
                Err(e) => {
                    &&& final(self).resident_now() == old(self).resident_now()
                    &&& final(self).so_far() == old(self).so_far()
                    &&& if passed_over(e) {
                        r is Ok
                    } else {
                        r == answer
                    }
                },
            },
    {
        let count: usize = self.order.len();
        assert(self.next < count);
        let used: u32 = self.order[self.next].used;
        self.next = self.next + 1;
        assert(self.rest() =~= old(self).rest().drop_first());
        match answer {
            Ok(_) => {
                self.current = self.current.saturating_sub(used as u64);
                self.report.bytes_freed = self.report.bytes_freed.saturating_add(used as u64);
                self.report.regions_spilled = if self.report.regions_spilled == 0xffff {
                    0xffff
                } else {
                    self.report.regions_spilled + 1
                };
                Ok(())
            },
            Err(TvmError::Pinned) => Ok(()),
            Err(TvmError::PolicyViolation) => Ok(()),
            Err(TvmError::NotResident) => Ok(()),
            Err(TvmError::RegionNotFound(_)) => Ok(()),
            Err(e) => Err(e),
        }
    }

    /// What the run did, and whether the target is met.
    pub fn report(&self) -> (r: EvictionReport)
        ensures
            r == (EvictionReport {
                target_met: self.resident_now() <= self.goal(),
                ..self.so_far()
            }),
    {
        EvictionReport { target_met: self.current <= self.target, ..self.report }
    }
}

} // verus!
