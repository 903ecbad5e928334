use vstd::prelude::*;

verus! {

/// A tag: the category of a test, which selects the runner of each tool.
pub type Tag = String;

/// Per-tag recipe of a tool: optional preparation, the run step (an argument
/// list or a shell command, exactly one of them), optional cleanup and an
/// optional number of warmup runs.
#[derive(Debug, Clone)]
pub struct Runner {
    pub warmup: Option<u32>,
    pub prepare: Option<String>,
    pub run_args: Option<Vec<String>>,
    pub run_cmd: Option<String>,
    pub cleanup: Option<String>,
}

/// A program under comparison, with a runner for each tag.
#[derive(Debug, Clone)]
pub struct Tool {
    pub name: String,
    pub program: String,
    pub existence_confirmation: Option<Vec<String>>,
    pub install_instructions: String,
    pub runners: Vec<(Tag, Runner)>,
}

/// A named workload applied to every tool.
#[derive(Debug, Clone)]
pub struct Test {
    pub name: String,
    pub tag: Tag,
    pub file: Option<String>,
    pub extra_args: Option<Vec<String>>,
    pub stdin_from_cmd: Option<String>,
    pub stdout_is_timing: Option<bool>,
}

/// A whole benchmark description.
#[derive(Debug, Clone)]
pub struct BenchifyConfig {
    pub benchify_version: usize,
    pub parallel_prep: Option<bool>,
    pub warmup: Option<u32>,
    pub min_runs: Option<u32>,
    pub max_runs: Option<u32>,
    pub main_tool: Option<String>,
    pub results_dir: Option<String>,
    pub tags: Vec<Tag>,
    pub tools: Vec<Tool>,
    pub tests: Vec<Test>,
}

/// The index of the first runner of `runners` whose tag is `tag`, if any.
pub open spec fn runner_index(runners: Seq<(Tag, Runner)>, tag: Seq<char>) -> Option<int> {
    if exists|i: int| 0 <= i < runners.len() && (#[trigger] runners[i]).0@ == tag {
        let i = choose|i: int|
            0 <= i < runners.len() && (#[trigger] runners[i]).0@ == tag && forall|j: int|
                0 <= j < i ==> (#[trigger] runners[j]).0@ != tag;
        Some(i)
    } else {
        None
    }
}

/// The default minimum number of measured runs.
pub const DEFAULT_MIN_RUNS: u32 = 10;

/// The default maximum number of measured runs.
pub const DEFAULT_MAX_RUNS: u32 = 1000;

impl Tool {
    /// The runner for `tag`: the first one whose tag it is.
    pub fn runner_for(&self, tag: &Tag) -> (r: Option<&Runner>)
        ensures
            match runner_index(self.runners@, tag@) {
                Some(i) => r == Some(&self.runners@[i].1),
                None => r is None,
            },
    {
        let mut i: usize = 0;
        while i < self.runners.len()
            invariant
                0 <= i <= self.runners@.len(),
                forall|j: int| 0 <= j < i ==> (#[trigger] self.runners@[j]).0@ != tag@,
            decreases self.runners@.len() - i,
        {
            if self.runners[i].0 == *tag {
                proof {
                    let k = i as int;
                    assert(0 <= k < self.runners@.len() && self.runners@[k].0@ == tag@ && forall|j: int|
                        0 <= j < k ==> (#[trigger] self.runners@[j]).0@ != tag@);
                    let c = runner_index(self.runners@, tag@)->Some_0;
                    if c < k {
                        assert(self.runners@[c].0@ != tag@);
                    }
                    if c > k {
                        assert(self.runners@[k].0@ != tag@);
                    }
                }
                return Some(&self.runners[i].1);
            }
            i = i + 1;
        }
        None
    }
}

impl BenchifyConfig {
    pub open spec fn spec_min_runs(&self) -> u32 {
        match self.min_runs {
            Some(n) => n,
            None => DEFAULT_MIN_RUNS,
        }
    }

    pub open spec fn spec_max_runs(&self) -> u32 {
        match self.max_runs {
            Some(n) => n,
            None => DEFAULT_MAX_RUNS,
        }
    }

    /// The minimum number of measured runs per pair; 10 unless set.
    pub fn min_runs(&self) -> (r: u32)
        ensures
            r == self.spec_min_runs(),
    {
        match self.min_runs {
            Some(n) => n,
            None => DEFAULT_MIN_RUNS,
        }
    }

    /// The maximum number of measured runs per pair; 1000 unless set.
    pub fn max_runs(&self) -> (r: u32)
        ensures
            r == self.spec_max_runs(),
    {
        match self.max_runs {
            Some(n) => n,
            None => DEFAULT_MAX_RUNS,
        }
    }

    /// Whether every preparation runs up front, in parallel; off unless set.
    pub fn parallel_prep(&self) -> (r: bool)
        ensures
            r == (self.parallel_prep == Some(true)),
    {
        match self.parallel_prep {
            None => false,
            Some(b) => b,
        }
    }

    /// The directory that results are written to; `./benchify-results/` unless set.
    pub fn results_dir(&self) -> (r: String)
        ensures
            match self.results_dir {
                Some(d) => r@ == d@,
                None => r@ == "./benchify-results/"@,
            },
    {
        match &self.results_dir {
            Some(d) => d.clone(),
            None => "./benchify-results/".to_owned(),
        }
    }
}

} // verus!
