use vstd::prelude::*;
use crate::stats::{mean_of, mean_of_prefix};

verus! {

/// The wall time that the measured runs of one pair should take together:
/// 2.5 seconds.
pub const TARGET_NANOS: u64 = 2_500_000_000;

/// How many measured runs serve as initial estimates: `min(max_runs, 2)`.
pub open spec fn initial_estimates(max_runs: u32) -> nat {
    if max_runs < 2 {
        max_runs as nat
    } else {
        2
    }
}

/// `clamp(min_runs, max_runs, TARGET_NANOS / mean_ns)`, where a mean of zero
/// asks for as many runs as a `u32` holds; `max_runs` wins over `min_runs`.
pub open spec fn target_count_spec(min_runs: u32, max_runs: u32, mean_ns: int) -> int {
    let raw = if mean_ns <= 0 {
        u32::MAX as int
    } else {
        TARGET_NANOS as int / mean_ns
    };
    let at_least = if raw < min_runs { min_runs as int } else { raw };
    if at_least > max_runs {
        max_runs as int
    } else {
        at_least
    }
}

/// The number of measured runs of a pair whose measured durations start with
/// `s`: the initial estimates, then up to the target count that their mean
/// gives.
pub open spec fn planned_runs(min_runs: u32, max_runs: u32, s: Seq<u64>) -> int {
    let k = initial_estimates(max_runs);
    if k == 0 {
        0
    } else {
        let t = target_count_spec(min_runs, max_runs, mean_of(s.take(k as int)));
        if t < k {
            k as int
        } else {
            t
        }
    }
}

/// The number of measured runs that a mean run time of `mean_ns` calls for.
pub fn target_count(min_runs: u32, max_runs: u32, mean_ns: u64) -> (r: u32)
    ensures
        r == target_count_spec(min_runs, max_runs, mean_ns as int),
{
    let raw: u64 = if mean_ns == 0 {
        u32::MAX as u64
    } else {
        TARGET_NANOS / mean_ns
    };
    let at_least: u64 = if raw < min_runs as u64 {
        min_runs as u64
    } else {
        raw
    };
    if at_least > max_runs as u64 {
        max_runs
    } else {
        at_least as u32
    }
}

/// What the driver of a sampler does next.
#[derive(Debug, Clone, Copy, PartialEq, Eq, Structural)]
pub enum SamplerAction {
    /// One unmeasured warmup run.
    Warmup,
    /// One measured run.
    Measure,
    /// The sample set is complete.
    Done,
}

/// Adaptive sampler of one (test, tool) pair: warmup runs, then `min(max_runs, 2)`
/// initial estimates, then the runs that their mean calls for. A failed run ends
/// the pair, and the driver drops the sampler with whatever it held.
pub struct Sampler {
    min_runs: u32,
    max_runs: u32,
    warmup_left: u32,
    target: usize,
    samples: Vec<u64>,
}

impl Sampler {
    pub closed spec fn min_runs(&self) -> u32 {
        self.min_runs
    }

    pub closed spec fn max_runs(&self) -> u32 {
        self.max_runs
    }

    /// Warmup runs still to do.
    pub closed spec fn warmup_left(&self) -> nat {
        self.warmup_left as nat
    }

    /// The measured durations so far, in the order they were taken.
    pub closed spec fn samples(&self) -> Seq<u64> {
        self.samples@
    }

    /// The number of measured runs known to be needed so far.
    pub closed spec fn target(&self) -> nat {
        self.target as nat
    }

    pub open spec fn wf(&self) -> bool {
        let k = initial_estimates(self.max_runs());
        &&& self.samples().len() <= self.target()
        &&& self.warmup_left() > 0 ==> self.samples().len() == 0
        &&& self.samples().len() < k ==> self.target() == k
        &&& self.samples().len() >= k ==> self.target() == planned_runs(
            self.min_runs(),
            self.max_runs(),
            self.samples(),
        )
    }

    /// The action that `next_action` returns.
    pub open spec fn action(&self) -> SamplerAction {
        if self.warmup_left() > 0 {
            SamplerAction::Warmup
        } else if self.samples().len() < self.target() {
            SamplerAction::Measure
        } else {
            SamplerAction::Done
        }
    }

    /// A sampler that first runs `warmup` unmeasured runs.
    pub fn new(min_runs: u32, max_runs: u32, warmup: u32) -> (r: Sampler)
        ensures
            r.wf(),
            r.min_runs() == min_runs,
            r.max_runs() == max_runs,
            r.warmup_left() == warmup,
            r.samples().len() == 0,
    {
        let k: usize = if max_runs < 2 {
            max_runs as usize
        } else {
            2
        };
        let r = Sampler { min_runs, max_runs, warmup_left: warmup, target: k, samples: Vec::new() };
        proof {
            if k == 0 {
                assert(planned_runs(min_runs, max_runs, r.samples()) == 0);
            }
        }
        r
    }

    /// What the driver does next.
    pub fn next_action(&self) -> (a: SamplerAction)
        requires
            self.wf(),
        ensures
            a == self.action(),
    {
        if self.warmup_left > 0 {
            SamplerAction::Warmup
        } else if self.samples.len() < self.target {
            SamplerAction::Measure
        } else {
            SamplerAction::Done
        }
    }

    /// Notes that a warmup run succeeded; its duration is not kept.
    pub fn record_warmup(&mut self)
        requires
            old(self).wf(),
            old(self).action() == SamplerAction::Warmup,
        ensures
            final(self).wf(),
            final(self).warmup_left() == old(self).warmup_left() - 1,
            final(self).samples() == old(self).samples(),
            final(self).target() == old(self).target(),
            final(self).min_runs() == old(self).min_runs(),
            final(self).max_runs() == old(self).max_runs(),
    {
        self.warmup_left = self.warmup_left - 1;
    }

    /// Appends the duration of a measured run. Once the initial estimates are in,
    /// the target follows from their mean.
    pub fn record_sample(&mut self, nanos: u64)
        requires
            old(self).wf(),
            old(self).action() == SamplerAction::Measure,
        ensures
            final(self).wf(),
            final(self).samples() == old(self).samples().push(nanos),
            final(self).warmup_left() == 0,
            final(self).min_runs() == old(self).min_runs(),
            final(self).max_runs() == old(self).max_runs(),
    {
        let ghost old_samples = self.samples@;
        self.samples.push(nanos);
        let k: usize = if self.max_runs < 2 {
            self.max_runs as usize
        } else {
            2
        };
        if self.samples.len() == k {
            let mean = mean_of_prefix(&self.samples, k);
            let t = target_count(self.min_runs, self.max_runs, mean) as usize;
            self.target = if t < k {
                k
            } else {
                t
            };
            proof {
                assert(self.samples@.take(k as int) == self.samples@);
            }
        } else {
            proof {
                if self.samples@.len() > k {
                    assert(self.samples@.take(k as int) == old_samples.take(k as int));
                }
            }
        }
    }

    /// The sample set: every measured duration, in the order taken.
    pub fn into_samples(self) -> (r: Vec<u64>)
        ensures
            r@ == self.samples(),
    {
        self.samples
    }
}

/// With a run budget of one, the sampler takes exactly one measured run, an
/// initial estimate, whatever it measured: it measures while it has no sample
/// and is done once it has one.
pub proof fn lemma_single_run_budget(s: Sampler)
    requires
        s.wf(),
        s.max_runs() == 1,
        s.warmup_left() == 0,
    ensures
        initial_estimates(1) == 1,
        s.samples().len() <= 1,
        s.samples().len() == 0 ==> s.action() == SamplerAction::Measure,
        s.samples().len() == 1 ==> s.action() == SamplerAction::Done,
{
}

/// A finished sampler holds exactly the planned number of measured runs.
pub proof fn lemma_done_holds_planned_runs(s: Sampler)
    requires
        s.wf(),
        s.max_runs() >= 1,
        s.action() == SamplerAction::Done,
    ensures
        s.samples().len() == planned_runs(s.min_runs(), s.max_runs(), s.samples()),
        s.samples().len() >= initial_estimates(s.max_runs()),
{
}

/// A finished sample set holds at most `max_runs` durations, and at least
/// `min_runs` of them unless that exceeds `max_runs`.
pub proof fn lemma_planned_within_bounds(min_runs: u32, max_runs: u32, s: Seq<u64>)
    requires
        max_runs > 0,
    ensures
        planned_runs(min_runs, max_runs, s) <= max_runs,
        min_runs <= max_runs ==> min_runs <= planned_runs(min_runs, max_runs, s),
{
}

} // verus!
