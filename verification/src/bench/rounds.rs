//! The rounds of a measurement.
use vstd::prelude::*;
use super::plans::{SAMPLES, WARMUP_ROUNDS};

verus! {

/// How often a workload runs.
#[derive(Clone, Copy, Debug, PartialEq, Eq, Structural)]
pub struct RunConfig {
    /// Rounds before the measured ones.
    pub warmup_rounds: usize,
    /// Measured rounds.
    pub samples: usize,
    /// The bytes of a round, for the throughput; 0 where there is none to report.
    pub payload_bytes: u64,
}

impl Default for RunConfig {
    fn default() -> (r: Self)
        ensures
            r == (RunConfig { warmup_rounds: 5, samples: 50, payload_bytes: 0 }),
    {
        RunConfig { warmup_rounds: WARMUP_ROUNDS, samples: SAMPLES, payload_bytes: 0 }
    }
}

/// What a measurement calls next.
#[derive(Clone, Copy, Debug, PartialEq, Eq, Structural)]
pub enum Stage {
    /// The set-up, before any round.
    Setup,
    /// A round that is not measured; how many came before it.
    Warmup(usize),
    /// A round that is measured; how many came before it.
    Measured(usize),
    /// The tear-down, after all rounds.
    Teardown,
    /// Nothing more.
    Finished,
}

impl RunConfig {
    /// What comes once the warm-up is over.
    pub open spec fn after_warmup(&self) -> Stage {
        if self.samples > 0 {
            Stage::Measured(0)
        } else {
            Stage::Teardown
        }
    }

    /// What comes behind a call that succeeded.
    pub open spec fn follows(&self, stage: Stage) -> Stage {
        match stage {
            Stage::Setup => if self.warmup_rounds > 0 {
                Stage::Warmup(0)
            } else {
                self.after_warmup()
            },
            Stage::Warmup(i) => if i + 1 < self.warmup_rounds {
                Stage::Warmup((i + 1) as usize)
            } else {
                self.after_warmup()
            },
            Stage::Measured(i) => if i + 1 < self.samples {
                Stage::Measured((i + 1) as usize)
            } else {
                Stage::Teardown
            },
            Stage::Teardown => Stage::Finished,
            Stage::Finished => Stage::Finished,
        }
    }

    /// The next call, behind `stage` and what came of it. A failure ends the
    /// measurement at once, without the tear-down.
    pub fn next_stage(&self, stage: Stage, succeeded: bool) -> (r: Stage)
        ensures
            r == (if succeeded {
                self.follows(stage)
            } else {
                Stage::Finished
            }),
    {
        if !succeeded {
            return Stage::Finished;
        }
        match stage {
            Stage::Setup => if self.warmup_rounds > 0 {
                return Stage::Warmup(0);
            },
            Stage::Warmup(i) => if i < self.warmup_rounds && i + 1 < self.warmup_rounds {
                return Stage::Warmup(i + 1);
            },
            Stage::Measured(i) => return if i < self.samples && i + 1 < self.samples {
                Stage::Measured(i + 1)
            } else {
                Stage::Teardown
            },
            Stage::Teardown => return Stage::Finished,
            Stage::Finished => return Stage::Finished,
        }
        if self.samples > 0 {
            Stage::Measured(0)
        } else {
            Stage::Teardown
        }
    }
}

/// Call number `n` of a measurement in which every call succeeds.
pub open spec fn stage_at(c: RunConfig, n: nat) -> Stage
    decreases n,
{
    if n == 0 {
        Stage::Setup
    } else {
        c.follows(stage_at(c, (n - 1) as nat))
    }
}

/// A measurement in which every call succeeds is one set-up, the warm-up rounds,
/// the measured rounds, and one tear-down, in this order.
pub proof fn law_order_of_calls(c: RunConfig, n: nat)
    ensures
        stage_at(c, n) == (if n == 0 {
            Stage::Setup
        } else if n <= c.warmup_rounds {
            Stage::Warmup((n - 1) as usize)
        } else if n <= c.warmup_rounds + c.samples {
            Stage::Measured((n - 1 - c.warmup_rounds) as usize)
        } else if n == c.warmup_rounds + c.samples + 1 {
            Stage::Teardown
        } else {
            Stage::Finished
        }),
    decreases n,
{
    if n > 0 {
        law_order_of_calls(c, (n - 1) as nat);
    }
}

/// How many timings there are, with the shortest and the longest.
#[derive(Clone, Copy, Debug, PartialEq, Eq, Structural)]
pub struct Extent {
    pub count: usize,
    pub least: u128,
    pub greatest: u128,
}

/// The number, the least and the greatest of some timings; both are zero where
/// there are none.
pub fn extent_of(timings: &[u128]) -> (r: Extent)
    ensures
        r.count == timings@.len(),
        timings@.len() == 0 ==> r.least == 0 && r.greatest == 0,
        timings@.len() > 0 ==> timings@.contains(r.least) && timings@.contains(r.greatest),
        forall|i: int| 0 <= i < timings@.len() ==> r.least <= #[trigger] timings@[i] <= r.greatest,
{
    let n: usize = timings.len();
    if n == 0 {
        return Extent { count: 0, least: 0, greatest: 0 };
    }
    let mut least: u128 = timings[0];
    let mut greatest: u128 = timings[0];
    let mut i: usize = 1;
    while i < n
        invariant
            1 <= i <= n,
            n == timings@.len(),
            timings@.contains(least),
            timings@.contains(greatest),
            forall|j: int| 0 <= j < i ==> least <= #[trigger] timings@[j] <= greatest,
        decreases n - i,
    {
        let t: u128 = timings[i];
        if t < least {
            least = t;
        }
        if t > greatest {
            greatest = t;
        }
        i += 1;
    }
    Extent { count: n, least, greatest }
}

} // verus!
