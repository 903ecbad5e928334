use vstd::prelude::*;
use crate::config::{BenchifyConfig, Tool, runner_index};
use crate::template::runner_needs_file;

verus! {

/// A problem of a configuration, found before anything runs. `tool`, `runner`
/// and `test` index the configuration's tools, a tool's runners and its tests.
#[derive(Debug, Clone, Copy, PartialEq, Eq, Structural)]
pub enum ConfigError {
    /// Only version 1 of the format is known.
    UnsupportedVersion(usize),
    /// The minimum number of runs exceeds the maximum.
    MinAboveMax { min_runs: u32, max_runs: u32 },
    /// The maximum number of runs is zero, which leaves no sample to summarise.
    NoRuns,
    /// The results directory exists as a file.
    ResultsDirIsFile,
    /// The main tool is none of the tools.
    UnknownMainTool,
    /// A runner sets neither or both of an argument list and a shell command.
    RunStepNotUnique { tool: usize, runner: usize },
    /// A declared tag has no runner in the tool.
    MissingRunners { tool: usize },
    /// A runner of the tool has a tag that is not declared.
    ExtraRunners { tool: usize },
    /// The tool's program could not be run.
    NotRunnable { tool: usize },
    /// The test's tag is not declared.
    UnknownTag { test: usize },
    /// The test's file does not exist.
    MissingFile { test: usize },
    /// The test has no file, and the runner of some tool for its tag needs one.
    FileNeeded { test: usize },
}

/// `tag` is one of the declared tags.
pub open spec fn tag_declared(c: BenchifyConfig, tag: Seq<char>) -> bool {
    exists|i: int| 0 <= i < c.tags@.len() && (#[trigger] c.tags@[i])@ == tag
}

/// Some declared tag has no runner in `tool`.
pub open spec fn lacks_runner(c: BenchifyConfig, tool: Tool) -> bool {
    exists|i: int| 0 <= i < c.tags@.len() && runner_index(tool.runners@, (#[trigger] c.tags@[i])@) is None
}

/// Some runner of `tool` has an undeclared tag.
pub open spec fn has_extra_runner(c: BenchifyConfig, tool: Tool) -> bool {
    exists|j: int| 0 <= j < tool.runners@.len() && !tag_declared(c, (#[trigger] tool.runners@[j]).0@)
}

/// `tag` is declared and the runner of some tool for it needs a file.
pub open spec fn tag_needs_file(c: BenchifyConfig, tag: Seq<char>) -> bool {
    &&& tag_declared(c, tag)
    &&& exists|k: int|
        0 <= k < c.tools@.len() && match runner_index((#[trigger] c.tools@[k]).runners@, tag) {
            Some(j) => runner_needs_file(c.tools@[k].runners@[j].1),
            None => false,
        }
}

/// `e` alone when `b` holds, nothing otherwise.
pub open spec fn when(b: bool, e: ConfigError) -> Seq<ConfigError> {
    if b {
        seq![e]
    } else {
        Seq::empty()
    }
}

/// A main tool is named and it is none of the tools.
pub open spec fn main_tool_unknown(c: BenchifyConfig) -> bool {
    match c.main_tool {
        Some(m) => forall|k: int| 0 <= k < c.tools@.len() ==> (#[trigger] c.tools@[k]).name@ != m@,
        None => false,
    }
}

/// The problems of the configuration as a whole, in the order they are checked.
#[verifier::opaque]
pub open spec fn global_problems(c: BenchifyConfig, results_dir_is_file: bool) -> Seq<ConfigError> {
    when(c.benchify_version != 1, ConfigError::UnsupportedVersion(c.benchify_version))
        + when(
        c.spec_min_runs() > c.spec_max_runs(),
        ConfigError::MinAboveMax { min_runs: c.spec_min_runs(), max_runs: c.spec_max_runs() },
    ) + when(c.spec_max_runs() == 0, ConfigError::NoRuns) + when(
        results_dir_is_file,
        ConfigError::ResultsDirIsFile,
    ) + when(main_tool_unknown(c), ConfigError::UnknownMainTool)
}

/// The runners among the first `n` of tool `k` that set neither or both of an
/// argument list and a shell command.
pub open spec fn runner_problems(c: BenchifyConfig, k: int, n: int) -> Seq<ConfigError>
    decreases n,
{
    if n <= 0 {
        Seq::empty()
    } else {
        let r = c.tools@[k].runners@[n - 1].1;
        runner_problems(c, k, n - 1) + when(
            (r.run_cmd is Some) == (r.run_args is Some),
            ConfigError::RunStepNotUnique { tool: k as usize, runner: (n - 1) as usize },
        )
    }
}

/// The problems of tool `k`, in the order they are checked.
#[verifier::opaque]
pub open spec fn tool_problems(c: BenchifyConfig, runnable: Seq<bool>, k: int) -> Seq<ConfigError> {
    let tool = c.tools@[k];
    runner_problems(c, k, tool.runners@.len() as int) + when(
        lacks_runner(c, tool),
        ConfigError::MissingRunners { tool: k as usize },
    ) + when(has_extra_runner(c, tool), ConfigError::ExtraRunners { tool: k as usize }) + when(
        !runnable[k],
        ConfigError::NotRunnable { tool: k as usize },
    )
}

/// The problems of the first `n` tools.
pub open spec fn tools_problems(c: BenchifyConfig, runnable: Seq<bool>, n: int) -> Seq<ConfigError>
    decreases n,
{
    if n <= 0 {
        Seq::empty()
    } else {
        tools_problems(c, runnable, n - 1) + tool_problems(c, runnable, n - 1)
    }
}

/// The problems of test `t`, in the order they are checked.
#[verifier::opaque]
pub open spec fn test_problems(c: BenchifyConfig, file_exists: Seq<bool>, t: int) -> Seq<ConfigError> {
    let test = c.tests@[t];
    when(!tag_declared(c, test.tag@), ConfigError::UnknownTag { test: t as usize }) + if test.file is Some {
        when(!file_exists[t], ConfigError::MissingFile { test: t as usize })
    } else {
        when(tag_needs_file(c, test.tag@), ConfigError::FileNeeded { test: t as usize })
    }
}

/// The problems of the first `n` tests.
pub open spec fn tests_problems(c: BenchifyConfig, file_exists: Seq<bool>, n: int) -> Seq<ConfigError>
    decreases n,
{
    if n <= 0 {
        Seq::empty()
    } else {
        tests_problems(c, file_exists, n - 1) + test_problems(c, file_exists, n - 1)
    }
}

/// Every problem of `c`, in the order they are checked: the whole, then each
/// tool, then each test. `results_dir_is_file`, `runnable` (by tool) and
/// `file_exists` (by test) are what the file system and the tools' programs showed.
pub open spec fn config_problems(
    c: BenchifyConfig,
    results_dir_is_file: bool,
    runnable: Seq<bool>,
    file_exists: Seq<bool>,
) -> Seq<ConfigError> {
    global_problems(c, results_dir_is_file) + tools_problems(c, runnable, c.tools@.len() as int)
        + tests_problems(c, file_exists, c.tests@.len() as int)
}

impl BenchifyConfig {
    /// Whether `tag` is one of the declared tags.
    pub fn declares_tag(&self, tag: &String) -> (r: bool)
        ensures
            r == tag_declared(*self, tag@),
    {
        let mut i: usize = 0;
        while i < self.tags.len()
            invariant
                0 <= i <= self.tags@.len(),
                forall|k: int| 0 <= k < i ==> (#[trigger] self.tags@[k])@ != tag@,
            decreases self.tags@.len() - i,
        {
            if self.tags[i] == *tag {
                return true;
            }
            i = i + 1;
        }
        false
    }

    /// Whether a test of tag `tag` needs a file: the tag is declared and the
    /// runner of some tool for it mentions `{FILE}`.
    pub fn tag_needs_file(&self, tag: &String) -> (r: bool)
        ensures
            r == tag_needs_file(*self, tag@),
    {
        if !self.declares_tag(tag) {
            return false;
        }
        let mut k: usize = 0;
        while k < self.tools.len()
            invariant
                tag_declared(*self, tag@),
                0 <= k <= self.tools@.len(),
                forall|t: int|
                    0 <= t < k ==> match runner_index((#[trigger] self.tools@[t]).runners@, tag@) {
                        Some(j) => !runner_needs_file(self.tools@[t].runners@[j].1),
                        None => true,
                    },
            decreases self.tools@.len() - k,
        {
            match self.tools[k].runner_for(tag) {
                Some(r) => {
                    if r.needs_file() {
                        return true;
                    }
                },
                None => {},
            }
            k = k + 1;
        }
        false
    }

    /// Whether some declared tag has no runner in `tool`.
    fn lacks_runner(&self, tool: &Tool) -> (r: bool)
        ensures
            r == lacks_runner(*self, *tool),
    {
        let mut i: usize = 0;
        while i < self.tags.len()
            invariant
                0 <= i <= self.tags@.len(),
                forall|t: int| 0 <= t < i ==> runner_index(tool.runners@, (#[trigger] self.tags@[t])@) is Some,
            decreases self.tags@.len() - i,
        {
            if tool.runner_for(&self.tags[i]).is_none() {
                return true;
            }
            i = i + 1;
        }
        false
    }

    /// Whether some runner of `tool` has an undeclared tag.
    fn has_extra_runner(&self, tool: &Tool) -> (r: bool)
        ensures
            r == has_extra_runner(*self, *tool),
    {
        let mut j: usize = 0;
        while j < tool.runners.len()
            invariant
                0 <= j <= tool.runners@.len(),
                forall|t: int| 0 <= t < j ==> tag_declared(*self, (#[trigger] tool.runners@[t]).0@),
            decreases tool.runners@.len() - j,
        {
            if !self.declares_tag(&tool.runners[j].0) {
                return true;
            }
            j = j + 1;
        }
        false
    }

    fn check_whole(&self, results_dir_is_file: bool) -> (errs: Vec<ConfigError>)
        ensures
            errs@ == global_problems(*self, results_dir_is_file),
    {
        let mut errs: Vec<ConfigError> = Vec::new();
        if self.benchify_version != 1 {
            errs.push(ConfigError::UnsupportedVersion(self.benchify_version));
        }
        let min_runs = self.min_runs();
        let max_runs = self.max_runs();
        if min_runs > max_runs {
            errs.push(ConfigError::MinAboveMax { min_runs, max_runs });
        }
        if max_runs == 0 {
            errs.push(ConfigError::NoRuns);
        }
        if results_dir_is_file {
            errs.push(ConfigError::ResultsDirIsFile);
        }
        if let Some(m) = &self.main_tool {
            let mut known = false;
            let mut k: usize = 0;
            while k < self.tools.len()
                invariant
                    self.main_tool == Some(*m),
                    0 <= k <= self.tools@.len(),
                    known == exists|t: int| 0 <= t < k && (#[trigger] self.tools@[t]).name@ == m@,
                decreases self.tools@.len() - k,
            {
                if self.tools[k].name == *m {
                    known = true;
                }
                k = k + 1;
            }
            if !known {
                errs.push(ConfigError::UnknownMainTool);
            }
        }
        proof {
            reveal(global_problems);
            assert(errs@ =~= global_problems(*self, results_dir_is_file));
        }
        errs
    }

    fn check_tool(&self, k: usize, runnable: &Vec<bool>, errs: &mut Vec<ConfigError>)
        requires
            k < self.tools@.len(),
            runnable@.len() == self.tools@.len(),
        ensures
            final(errs)@ == old(errs)@ + tool_problems(*self, runnable@, k as int),
    {
        let tool = &self.tools[k];
        let ghost before = errs@;
        let mut j: usize = 0;
        while j < tool.runners.len()
            invariant
                tool == self.tools@[k as int],
                0 <= k < self.tools@.len(),
                0 <= j <= tool.runners@.len(),
                errs@ == before + runner_problems(*self, k as int, j as int),
            decreases tool.runners@.len() - j,
        {
            let runner = &tool.runners[j].1;
            if runner.run_cmd.is_some() == runner.run_args.is_some() {
                errs.push(ConfigError::RunStepNotUnique { tool: k, runner: j });
            }
            proof {
                assert(errs@ =~= before + runner_problems(*self, k as int, j + 1));
            }
            j = j + 1;
        }
        if self.lacks_runner(tool) {
            errs.push(ConfigError::MissingRunners { tool: k });
        }
        if self.has_extra_runner(tool) {
            errs.push(ConfigError::ExtraRunners { tool: k });
        }
        if !runnable[k] {
            errs.push(ConfigError::NotRunnable { tool: k });
        }
        proof {
            reveal(tool_problems);
            assert(errs@ =~= before + tool_problems(*self, runnable@, k as int));
        }
    }

    fn check_test(&self, t: usize, file_exists: &Vec<bool>, errs: &mut Vec<ConfigError>)
        requires
            t < self.tests@.len(),
            file_exists@.len() == self.tests@.len(),
        ensures
            final(errs)@ == old(errs)@ + test_problems(*self, file_exists@, t as int),
    {
        let ghost before = errs@;
        let test = &self.tests[t];
        if !self.declares_tag(&test.tag) {
            errs.push(ConfigError::UnknownTag { test: t });
        }
        if test.file.is_some() {
            if !file_exists[t] {
                errs.push(ConfigError::MissingFile { test: t });
            }
        } else if self.tag_needs_file(&test.tag) {
            errs.push(ConfigError::FileNeeded { test: t });
        }
        proof {
            reveal(test_problems);
            assert(errs@ =~= before + test_problems(*self, file_exists@, t as int));
        }
    }

    /// Every problem of this configuration, in the order they are checked.
    /// `results_dir_is_file` tells whether the results directory exists as a
    /// file, `runnable` whether each tool's program could be run, and
    /// `file_exists` whether each test's file exists.
    pub fn confirm_config_sanity(
        &self,
        results_dir_is_file: bool,
        runnable: &Vec<bool>,
        file_exists: &Vec<bool>,
    ) -> (r: Vec<ConfigError>)
        requires
            runnable@.len() == self.tools@.len(),
            file_exists@.len() == self.tests@.len(),
        ensures
            r@ == config_problems(*self, results_dir_is_file, runnable@, file_exists@),
    {
        let mut errs = self.check_whole(results_dir_is_file);
        let mut k: usize = 0;
        while k < self.tools.len()
            invariant
                runnable@.len() == self.tools@.len(),
                0 <= k <= self.tools@.len(),
                errs@ == global_problems(*self, results_dir_is_file) + tools_problems(
                    *self,
                    runnable@,
                    k as int,
                ),
            decreases self.tools@.len() - k,
        {
            self.check_tool(k, runnable, &mut errs);
            proof {
                assert(errs@ =~= global_problems(*self, results_dir_is_file) + tools_problems(
                    *self,
                    runnable@,
                    k + 1,
                ));
            }
            k = k + 1;
        }
        let ghost upto_tools = errs@;
        let mut t: usize = 0;
        while t < self.tests.len()
            invariant
                file_exists@.len() == self.tests@.len(),
                0 <= t <= self.tests@.len(),
                errs@ == upto_tools + tests_problems(*self, file_exists@, t as int),
            decreases self.tests@.len() - t,
        {
            self.check_test(t, file_exists, &mut errs);
            proof {
                assert(errs@ =~= upto_tools + tests_problems(*self, file_exists@, t + 1));
            }
            t = t + 1;
        }
        errs
    }
}

} // verus!
