use vstd::prelude::*;
use crate::config::{BenchifyConfig, Test, Tool, runner_index};
use crate::error::{PairError, RunFailure};
use crate::results::{BenchifyResults, PairResult};
use crate::sampler::{Sampler, SamplerAction};

verus! {

/// The result of one (test, tool) pair: its sample set, or why it has none.
pub type Outcome = Result<Vec<u64>, PairError>;

/// Every sample set among `os` holds at least one duration.
pub open spec fn outcomes_nonempty(os: Seq<Outcome>) -> bool {
    forall|i: int| 0 <= i < os.len() && (#[trigger] os[i]) is Ok ==> os[i]->Ok_0@.len() > 0
}

/// Where an execution stands.
#[derive(Debug, Clone, Copy, PartialEq, Eq, Structural)]
pub enum Stage {
    /// Every preparation is to run up front, before any measurement.
    PrepareAll,
    /// The current pair is to be prepared.
    Prepare,
    /// The current pair is being sampled.
    Sample,
    /// The current pair's sample set is complete and its cleanup is due.
    Cleanup,
    /// Every pair has an outcome.
    Finished,
    /// A preparation failed in the up-front phase; nothing was measured.
    Aborted,
}

/// What the driver of an execution does next. `test` and `tool` index the
/// configuration's tests and tools.
#[derive(Debug, Clone, Copy, PartialEq, Eq, Structural)]
pub enum Step {
    /// Run every pair's preparation, in parallel, and report whether all succeeded.
    PrepareAll,
    /// Run the pair's preparation, if its runner has one.
    Prepare { test: usize, tool: usize },
    /// One unmeasured run of the pair.
    Warmup { test: usize, tool: usize },
    /// One measured run of the pair.
    Measure { test: usize, tool: usize },
    /// Run the pair's cleanup, if its runner has one.
    Cleanup { test: usize, tool: usize },
    /// Nothing is left to do.
    Finished,
    /// The run is abandoned.
    Aborted,
}

/// The decisions of a benchmark run over every (test, tool) pair, test-major and
/// in declaration order: prepare, warm up, sample, clean up. The driver performs
/// each step and reports how it went.
pub struct Execution {
    n_tests: usize,
    n_tools: usize,
    parallel: bool,
    min_runs: u32,
    max_runs: u32,
    warmups: Vec<u32>,
    stage: Stage,
    pair: usize,
    sampler: Sampler,
    outcomes: Vec<Outcome>,
}

impl Execution {
    pub closed spec fn n_tests(&self) -> nat {
        self.n_tests as nat
    }

    pub closed spec fn n_tools(&self) -> nat {
        self.n_tools as nat
    }

    pub open spec fn n_pairs(&self) -> nat {
        self.n_tests() * self.n_tools()
    }

    pub closed spec fn parallel(&self) -> bool {
        self.parallel
    }

    pub closed spec fn min_runs(&self) -> u32 {
        self.min_runs
    }

    pub closed spec fn max_runs(&self) -> u32 {
        self.max_runs
    }

    /// Warmup runs of each pair, by pair index.
    pub closed spec fn warmups(&self) -> Seq<u32> {
        self.warmups@
    }

    pub closed spec fn stage(&self) -> Stage {
        self.stage
    }

    /// Index of the current pair: test `pair / n_tools`, tool `pair % n_tools`.
    pub closed spec fn pair(&self) -> nat {
        self.pair as nat
    }

    pub closed spec fn sampler(&self) -> Sampler {
        self.sampler
    }

    /// The outcomes of the pairs done so far, by pair index.
    pub closed spec fn outcomes(&self) -> Seq<Outcome> {
        self.outcomes@
    }

    /// A sampler that has not started yet on pair `p`.
    pub open spec fn fresh_sampler(&self, s: Sampler, p: int) -> bool {
        &&& s.wf()
        &&& s.min_runs() == self.min_runs()
        &&& s.max_runs() == self.max_runs()
        &&& s.warmup_left() == self.warmups()[p]
        &&& s.samples().len() == 0
    }

    pub open spec fn wf(&self) -> bool {
        &&& self.wf_base()
        &&& self.stage() == Stage::Sample ==> self.sampler().action() != SamplerAction::Done
        &&& self.stage() == Stage::Cleanup ==> self.sampler().action() == SamplerAction::Done
            && self.sampler().samples().len() > 0
    }

    /// The well-formedness of an execution, but for what the current stage asks
    /// of the sampler.
    pub open spec fn wf_base(&self) -> bool {
        &&& self.n_pairs() <= usize::MAX
        &&& self.warmups().len() == self.n_pairs()
        &&& self.max_runs() >= 1
        &&& self.sampler().wf()
        &&& self.sampler().min_runs() == self.min_runs()
        &&& self.sampler().max_runs() == self.max_runs()
        &&& self.stage() == Stage::PrepareAll ==> self.parallel() && self.pair() == 0
            && self.outcomes().len() == 0
        &&& self.stage() == Stage::Aborted ==> self.parallel() && self.outcomes().len() == 0
        &&& self.stage() == Stage::Prepare ==> !self.parallel()
        &&& (self.stage() == Stage::Prepare || self.stage() == Stage::Sample || self.stage()
            == Stage::Cleanup) ==> self.pair() < self.n_pairs() && self.outcomes().len()
            == self.pair()
        &&& self.stage() == Stage::Finished ==> self.outcomes().len() == self.n_pairs()
        &&& outcomes_nonempty(self.outcomes())
    }

    /// The step that `next_step` returns.
    pub open spec fn step(&self) -> Step {
        let test = (self.pair() / self.n_tools()) as usize;
        let tool = (self.pair() % self.n_tools()) as usize;
        match self.stage() {
            Stage::PrepareAll => Step::PrepareAll,
            Stage::Prepare => Step::Prepare { test, tool },
            Stage::Sample => if self.sampler().action() == SamplerAction::Warmup {
                Step::Warmup { test, tool }
            } else {
                Step::Measure { test, tool }
            },
            Stage::Cleanup => Step::Cleanup { test, tool },
            Stage::Finished => Step::Finished,
            Stage::Aborted => Step::Aborted,
        }
    }

    /// `self` has moved on to pair `p` after `old`: the next pair's first step is
    /// due, or every pair is done. Configuration and finished outcomes stay.
    pub open spec fn moved_to(&self, old: Execution, p: int) -> bool {
        &&& self.same_setup(old)
        &&& if p == self.n_pairs() {
            self.stage() == Stage::Finished
        } else {
            &&& self.pair() == p
            &&& if self.parallel() {
                self.stage() == Stage::Sample && self.fresh_sampler(self.sampler(), p)
            } else {
                self.stage() == Stage::Prepare
            }
        }
    }

    /// `self` has the configuration of `old`.
    pub open spec fn same_setup(&self, old: Execution) -> bool {
        &&& self.n_tests() == old.n_tests()
        &&& self.n_tools() == old.n_tools()
        &&& self.parallel() == old.parallel()
        &&& self.min_runs() == old.min_runs()
        &&& self.max_runs() == old.max_runs()
        &&& self.warmups() == old.warmups()
    }

    proof fn lemma_pair_in_range(&self)
        requires
            self.pair() < self.n_pairs(),
        ensures
            self.n_tools() > 0,
            self.pair() / self.n_tools() <= self.pair(),
            self.pair() / self.n_tools() < self.n_tests(),
            self.pair() % self.n_tools() < self.n_tools(),
    {
        let p = self.pair() as int;
        let a = self.n_tests() as int;
        let b = self.n_tools() as int;
        assert(b > 0) by (nonlinear_arith)
            requires p < a * b, p >= 0, a >= 0, b >= 0;
        assert(p / b < a) by (nonlinear_arith)
            requires p < a * b, p >= 0, b > 0;
        assert(p % b < b) by (nonlinear_arith)
            requires b > 0;
        assert(p / b <= p) by (nonlinear_arith)
            requires b > 0, p >= 0;
    }

    /// A run over `n_tests` tests and `n_tools` tools, where pair
    /// `test * n_tools + tool` has `warmups[test * n_tools + tool]` warmup runs.
    pub fn new(
        n_tests: usize,
        n_tools: usize,
        parallel: bool,
        min_runs: u32,
        max_runs: u32,
        warmups: Vec<u32>,
    ) -> (r: Execution)
        requires
            warmups@.len() == n_tests * n_tools,
            max_runs >= 1,
        ensures
            r.wf(),
            r.n_tests() == n_tests,
            r.n_tools() == n_tools,
            r.parallel() == parallel,
            r.min_runs() == min_runs,
            r.max_runs() == max_runs,
            r.warmups() == warmups@,
            r.outcomes().len() == 0,
            parallel ==> r.stage() == Stage::PrepareAll,
            !parallel && r.n_pairs() == 0 ==> r.stage() == Stage::Finished,
            !parallel && r.n_pairs() > 0 ==> r.stage() == Stage::Prepare && r.pair() == 0,
    {
        let n_pairs = warmups.len();
        let stage = if parallel {
            Stage::PrepareAll
        } else if n_pairs == 0 {
            Stage::Finished
        } else {
            Stage::Prepare
        };
        Execution {
            n_tests,
            n_tools,
            parallel,
            min_runs,
            max_runs,
            warmups,
            stage,
            pair: 0,
            sampler: Sampler::new(min_runs, max_runs, 0),
            outcomes: Vec::new(),
        }
    }

    /// The step the driver performs next.
    pub fn next_step(&self) -> (s: Step)
        requires
            self.wf(),
        ensures
            s == self.step(),
    {
        if matches!(self.stage, Stage::Prepare) || matches!(self.stage, Stage::Sample) || matches!(
            self.stage,
            Stage::Cleanup
        ) {
            proof {
                self.lemma_pair_in_range();
            }
        }
        let test = if self.n_tools == 0 { 0 } else { self.pair / self.n_tools };
        let tool = if self.n_tools == 0 { 0 } else { self.pair % self.n_tools };
        match self.stage {
            Stage::PrepareAll => Step::PrepareAll,
            Stage::Prepare => Step::Prepare { test, tool },
            Stage::Sample => match self.sampler.next_action() {
                SamplerAction::Warmup => Step::Warmup { test, tool },
                _ => Step::Measure { test, tool },
            },
            Stage::Cleanup => Step::Cleanup { test, tool },
            Stage::Finished => Step::Finished,
            Stage::Aborted => Step::Aborted,
        }
    }

    /// Whether every pair has an outcome.
    pub fn is_finished(&self) -> (r: bool)
        ensures
            r == (self.stage() == Stage::Finished),
    {
        matches!(self.stage, Stage::Finished)
    }

    /// Starts sampling pair `self.pair` with a fresh sampler.
    fn start_sampling(&mut self)
        requires
            old(self).wf_base(),
            old(self).pair() < old(self).n_pairs(),
            old(self).outcomes().len() == old(self).pair(),
            old(self).stage() == Stage::Prepare || old(self).parallel(),
        ensures
            final(self).wf(),
            final(self).same_setup(*old(self)),
            final(self).pair() == old(self).pair(),
            final(self).outcomes() == old(self).outcomes(),
            final(self).stage() == Stage::Sample,
            final(self).fresh_sampler(final(self).sampler(), final(self).pair() as int),
    {
        let w = self.warmups[self.pair];
        self.sampler = Sampler::new(self.min_runs, self.max_runs, w);
        self.stage = Stage::Sample;
    }

    /// Records the outcome of the current pair and moves to the next one.
    fn finish_pair(&mut self, outcome: Outcome)
        requires
            old(self).wf_base(),
            old(self).pair() < old(self).n_pairs(),
            old(self).outcomes().len() == old(self).pair(),
            outcome is Ok ==> outcome->Ok_0@.len() > 0,
            old(self).stage() == Stage::Prepare || old(self).stage() == Stage::Sample || old(
                self,
            ).stage() == Stage::Cleanup,
        ensures
            final(self).wf(),
            final(self).outcomes() == old(self).outcomes().push(outcome),
            final(self).moved_to(*old(self), old(self).pair() + 1int),
    {
        self.outcomes.push(outcome);
        self.pair = self.pair + 1;
        if self.pair == self.warmups.len() {
            self.stage = Stage::Finished;
        } else if self.parallel {
            self.start_sampling();
        } else {
            self.stage = Stage::Prepare;
        }
    }

    /// Reports the up-front preparation of every pair: on any failure the run is
    /// abandoned before anything is measured.
    pub fn on_all_prepared(&mut self, all_ok: bool)
        requires
            old(self).wf(),
            old(self).stage() == Stage::PrepareAll,
        ensures
            final(self).wf(),
            final(self).outcomes() == old(self).outcomes(),
            !all_ok ==> final(self).stage() == Stage::Aborted && final(self).same_setup(*old(self)),
            all_ok ==> final(self).moved_to(*old(self), 0int),
    {
        if !all_ok {
            self.stage = Stage::Aborted;
        } else if self.warmups.len() == 0 {
            self.stage = Stage::Finished;
        } else {
            self.start_sampling();
        }
    }

    /// Reports the preparation of the current pair. A failure becomes the pair's
    /// outcome and the run moves on to the next pair.
    pub fn on_prepared(&mut self, r: Result<(), RunFailure>)
        requires
            old(self).wf(),
            old(self).stage() == Stage::Prepare,
        ensures
            final(self).wf(),
            match r {
                Ok(_) => {
                    &&& final(self).same_setup(*old(self))
                    &&& final(self).stage() == Stage::Sample
                    &&& final(self).pair() == old(self).pair()
                    &&& final(self).outcomes() == old(self).outcomes()
                    &&& final(self).fresh_sampler(final(self).sampler(), old(self).pair() as int)
                },
                Err(e) => {
                    &&& final(self).outcomes() == old(self).outcomes().push(
                        Err(PairError::Prepare(e)),
                    )
                    &&& final(self).moved_to(*old(self), old(self).pair() + 1int)
                },
            },
    {
        match r {
            Ok(_) => self.start_sampling(),
            Err(e) => self.finish_pair(Err(PairError::Prepare(e))),
        }
    }

    /// Reports a warmup or measured run of the current pair. A failure becomes the
    /// pair's outcome, dropping what was measured, and the run moves on.
    pub fn on_run(&mut self, r: Result<u64, RunFailure>)
        requires
            old(self).wf(),
            old(self).stage() == Stage::Sample,
        ensures
            final(self).wf(),
            match r {
                Ok(nanos) => {
                    &&& final(self).same_setup(*old(self))
                    &&& final(self).pair() == old(self).pair()
                    &&& final(self).outcomes() == old(self).outcomes()
                    &&& if old(self).sampler().action() == SamplerAction::Warmup {
                        &&& final(self).stage() == Stage::Sample
                        &&& final(self).sampler().samples() == old(self).sampler().samples()
                        &&& final(self).sampler().warmup_left() == old(self).sampler().warmup_left() - 1
                    } else {
                        &&& final(self).sampler().samples() == old(self).sampler().samples().push(nanos)
                        &&& final(self).stage() == if final(self).sampler().action()
                            == SamplerAction::Done {
                            Stage::Cleanup
                        } else {
                            Stage::Sample
                        }
                    }
                },
                Err(e) => {
                    &&& final(self).outcomes() == old(self).outcomes().push(
                        if old(self).sampler().action() == SamplerAction::Warmup {
                            Err(PairError::Warmup(e))
                        } else {
                            Err(PairError::Measure(e))
                        },
                    )
                    &&& final(self).moved_to(*old(self), old(self).pair() + 1int)
                },
            },
    {
        let warming = match self.sampler.next_action() {
            SamplerAction::Warmup => true,
            _ => false,
        };
        match r {
            Ok(nanos) => {
                if warming {
                    self.sampler.record_warmup();
                } else {
                    self.sampler.record_sample(nanos);
                    match self.sampler.next_action() {
                        SamplerAction::Done => {
                            self.stage = Stage::Cleanup;
                        },
                        _ => {},
                    }
                }
            },
            Err(e) => {
                if warming {
                    self.finish_pair(Err(PairError::Warmup(e)));
                } else {
                    self.finish_pair(Err(PairError::Measure(e)));
                }
            },
        }
    }

    /// Reports the cleanup of the current pair, which completes it: its sample set
    /// on success, the failure otherwise.
    pub fn on_cleanup(&mut self, r: Result<(), RunFailure>)
        requires
            old(self).wf(),
            old(self).stage() == Stage::Cleanup,
        ensures
            final(self).wf(),
            final(self).outcomes().len() == old(self).outcomes().len() + 1,
            final(self).outcomes().take(old(self).outcomes().len() as int) == old(self).outcomes(),
            match r {
                Ok(_) => {
                    let o = final(self).outcomes().last();
                    o is Ok && o->Ok_0@ == old(self).sampler().samples()
                },
                Err(e) => final(self).outcomes().last() == Err::<Vec<u64>, PairError>(
                    PairError::Cleanup(e),
                ),
            },
            final(self).moved_to(*old(self), old(self).pair() + 1int),
    {
        let mut s = Sampler::new(self.min_runs, self.max_runs, 0);
        std::mem::swap(&mut s, &mut self.sampler);
        let samples = s.into_samples();
        match r {
            Ok(_) => self.finish_pair(Ok(samples)),
            Err(e) => self.finish_pair(Err(PairError::Cleanup(e))),
        }
    }

    /// The outcome of every pair, by pair index.
    pub fn into_outcomes(self) -> (r: Vec<Outcome>)
        requires
            self.wf(),
            self.stage() == Stage::Finished,
        ensures
            r@ == self.outcomes(),
            r@.len() == self.n_pairs(),
            outcomes_nonempty(r@),
    {
        self.outcomes
    }
}

/// A run is only ever abandoned during the up-front parallel preparation, and
/// nothing was measured for any pair.
pub proof fn lemma_abort_measures_nothing(e: Execution)
    requires
        e.wf(),
        e.stage() == Stage::Aborted,
    ensures
        e.parallel(),
        e.outcomes().len() == 0,
        e.step() == Step::Aborted,
{
}

/// Warmup runs of a pair: its runner's count if set, else the global one, else none.
pub open spec fn pair_warmup(test: Test, tool: Tool, global: Option<u32>) -> u32 {
    let own = match runner_index(tool.runners@, test.tag@) {
        Some(i) => tool.runners@[i].1.warmup,
        None => None,
    };
    match own {
        Some(n) => n,
        None => match global {
            Some(n) => n,
            None => 0,
        },
    }
}

proof fn lemma_pair_index(t: int, k: int, n: int)
    requires
        0 <= t,
        0 <= k < n,
    ensures
        (t * n + k) / n == t,
        (t * n + k) % n == k,
        (t + 1) * n == t * n + n,
{
    vstd::arithmetic::div_mod::lemma_fundamental_div_mod_converse(t * n + k, n, t, k);
    assert((t + 1) * n == t * n + n) by (nonlinear_arith);
}

impl BenchifyConfig {
    /// The run over every (test, tool) pair of this configuration, test-major and
    /// in declaration order.
    pub fn execution(&self) -> (r: Execution)
        requires
            self.spec_max_runs() >= 1,
            self.tests@.len() * self.tools@.len() <= usize::MAX,
        ensures
            r.wf(),
            r.n_tests() == self.tests@.len(),
            r.n_tools() == self.tools@.len(),
            r.parallel() == (self.parallel_prep == Some(true)),
            r.min_runs() == self.spec_min_runs(),
            r.max_runs() == self.spec_max_runs(),
            forall|p: int|
                0 <= p < r.n_pairs() ==> #[trigger] r.warmups()[p] == pair_warmup(
                    self.tests@[p / self.tools@.len() as int],
                    self.tools@[p % self.tools@.len() as int],
                    self.warmup,
                ),
            r.outcomes().len() == 0,
            r.parallel() ==> r.stage() == Stage::PrepareAll,
            !r.parallel() && r.n_pairs() == 0 ==> r.stage() == Stage::Finished,
            !r.parallel() && r.n_pairs() > 0 ==> r.stage() == Stage::Prepare && r.pair() == 0,
    {
        let n = self.tools.len();
        let mut warmups: Vec<u32> = Vec::new();
        let mut t: usize = 0;
        while t < self.tests.len()
            invariant
                n == self.tools@.len(),
                self.tests@.len() * n <= usize::MAX,
                0 <= t <= self.tests@.len(),
                warmups@.len() == t * n,
                forall|p: int|
                    0 <= p < warmups@.len() ==> #[trigger] warmups@[p] == pair_warmup(
                        self.tests@[p / n as int],
                        self.tools@[p % n as int],
                        self.warmup,
                    ),
            decreases self.tests@.len() - t,
        {
            let test = &self.tests[t];
            let mut k: usize = 0;
            proof {
                assert(t * n + n <= self.tests@.len() * n) by (nonlinear_arith)
                    requires t < self.tests@.len(), n >= 0;
            }
            while k < n
                invariant
                    n == self.tools@.len(),
                    self.tests@.len() * n <= usize::MAX,
                    0 <= t < self.tests@.len(),
                    t * n + n <= self.tests@.len() * n,
                    test == self.tests@[t as int],
                    0 <= k <= n,
                    warmups@.len() == t * n + k,
                    forall|p: int|
                        0 <= p < warmups@.len() ==> #[trigger] warmups@[p] == pair_warmup(
                            self.tests@[p / n as int],
                            self.tools@[p % n as int],
                            self.warmup,
                        ),
                decreases n - k,
            {
                let tool = &self.tools[k];
                let own = match tool.runner_for(&test.tag) {
                    Some(runner) => runner.warmup,
                    None => None,
                };
                let w = match own {
                    Some(w) => w,
                    None => match self.warmup {
                        Some(w) => w,
                        None => 0,
                    },
                };
                proof {
                    lemma_pair_index(t as int, k as int, n as int);
                }
                warmups.push(w);
                k = k + 1;
            }
            proof {
                assert((t + 1) * n == t * n + n) by (nonlinear_arith);
            }
            t = t + 1;
        }
        let r = Execution::new(
            self.tests.len(),
            n,
            self.parallel_prep(),
            self.min_runs(),
            self.max_runs(),
            warmups,
        );
        r
    }

    /// The results of a finished run: pair `p` is test `p / n_tools` against tool
    /// `p % n_tools`.
    pub fn results_of(&self, outcomes: Vec<Outcome>) -> (r: BenchifyResults)
        requires
            outcomes@.len() == self.tests@.len() * self.tools@.len(),
            outcomes_nonempty(outcomes@),
        ensures
            r.wf(),
            r.main_tool == self.main_tool,
            r.results@.len() == outcomes@.len(),
            forall|p: int|
                0 <= p < r.results@.len() ==> {
                    let n = self.tools@.len() as int;
                    &&& (#[trigger] r.results@[p]).test == self.tests@[p / n].name
                    &&& r.results@[p].tool == self.tools@[p % n].name
                    &&& r.results@[p].outcome == outcomes@[p]
                },
    {
        let ghost all = outcomes@;
        let mut rest = outcomes;
        let n = self.tools.len();
        let mut results: Vec<PairResult> = Vec::new();
        let mut t: usize = 0;
        while t < self.tests.len()
            invariant
                n == self.tools@.len(),
                all.len() == self.tests@.len() * n,
                0 <= t <= self.tests@.len(),
                results@.len() == t * n,
                rest@ == all.skip(t * n),
                forall|p: int|
                    0 <= p < results@.len() ==> {
                        &&& (#[trigger] results@[p]).test == self.tests@[p / n as int].name
                        &&& results@[p].tool == self.tools@[p % n as int].name
                        &&& results@[p].outcome == all[p]
                    },
            decreases self.tests@.len() - t,
        {
            proof {
                assert(t * n + n <= self.tests@.len() * n) by (nonlinear_arith)
                    requires t < self.tests@.len(), n >= 0;
            }
            let mut k: usize = 0;
            while k < n
                invariant
                    n == self.tools@.len(),
                    all.len() == self.tests@.len() * n,
                    0 <= t < self.tests@.len(),
                    t * n + n <= self.tests@.len() * n,
                    0 <= k <= n,
                    results@.len() == t * n + k,
                    rest@ == all.skip(t * n + k),
                    forall|p: int|
                        0 <= p < results@.len() ==> {
                            &&& (#[trigger] results@[p]).test == self.tests@[p / n as int].name
                            &&& results@[p].tool == self.tools@[p % n as int].name
                            &&& results@[p].outcome == all[p]
                        },
                decreases n - k,
            {
                proof {
                    lemma_pair_index(t as int, k as int, n as int);
                }
                let outcome = rest.remove(0);
                results.push(
                    PairResult {
                        test: self.tests[t].name.clone(),
                        tool: self.tools[k].name.clone(),
                        outcome,
                    },
                );
                proof {
                    assert(rest@ == all.skip(t * n + k + 1));
                }
                k = k + 1;
            }
            proof {
                assert((t + 1) * n == t * n + n) by (nonlinear_arith);
            }
            t = t + 1;
        }
        let main_tool = match &self.main_tool {
            Some(m) => Some(m.clone()),
            None => None,
        };
        let r = BenchifyResults { results, main_tool };
        proof {
            let os = r.results@.map_values(|x: PairResult| x.outcome);
            assert(os =~= all);
        }
        r
    }
}

} // verus!
