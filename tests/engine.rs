use benchify::config::{BenchifyConfig, Runner, Test, Tool};
use benchify::error::{PairError, RunFailure};
use benchify::execution::Step;
use benchify::sanity::ConfigError;
use benchify::results::{comparison_point, format_summary, ratio_milli, BenchifyResults, PairResult};
use benchify::sampler::{target_count, Sampler, SamplerAction};
use benchify::stats::{isqrt, Statistics};
use benchify::template::{contains_str, replace_str, same_text, RunStep};
use benchify::wait_for_free_cpu::{restrict_free_cpus_to, WaitForFreeCPU};

const MS: u64 = 1_000_000;

fn s(x: &str) -> String {
    x.to_string()
}

fn shell_runner(cmd: &str) -> Runner {
    Runner { warmup: None, prepare: None, run_args: None, run_cmd: Some(s(cmd)), cleanup: None }
}

fn tool(name: &str, runners: Vec<(String, Runner)>) -> Tool {
    Tool {
        name: s(name),
        program: s(name),
        existence_confirmation: None,
        install_instructions: s(""),
        runners,
    }
}

fn test_case(name: &str, tag: &str) -> Test {
    Test {
        name: s(name),
        tag: s(tag),
        file: None,
        extra_args: None,
        stdin_from_cmd: None,
        stdout_is_timing: None,
    }
}

fn config(tools: Vec<Tool>, tests: Vec<Test>, min: u32, max: u32, parallel: bool) -> BenchifyConfig {
    BenchifyConfig {
        benchify_version: 1,
        parallel_prep: Some(parallel),
        warmup: None,
        min_runs: Some(min),
        max_runs: Some(max),
        main_tool: None,
        results_dir: None,
        tags: vec![s("t")],
        tools,
        tests,
    }
}

fn drive_sampler(sampler: &mut Sampler, nanos: u64) -> usize {
    let mut runs = 0;
    loop {
        match sampler.next_action() {
            SamplerAction::Warmup => sampler.record_warmup(),
            SamplerAction::Measure => {
                runs += 1;
                sampler.record_sample(nanos);
            }
            SamplerAction::Done => return runs,
        }
    }
}

#[test]
fn statistics_of_four_samples() {
    let st = Statistics::new(&vec![10, 20, 30, 40]);
    assert_eq!(st.mean, 25);
    assert_eq!(st.min, 10);
    assert_eq!(st.max, 40);
    assert_eq!(st.count, 4);
    // squared deviations 500, over 3 gives 166, whose square root is 12
    assert_eq!(st.sample_stddev, 12);
}

#[test]
fn statistics_of_single_sample() {
    let st = Statistics::new(&vec![7 * MS]);
    assert_eq!(st.mean, 7 * MS);
    assert_eq!(st.sample_stddev, 0);
    assert_eq!(st.min, 7 * MS);
    assert_eq!(st.max, 7 * MS);
    assert_eq!(st.count, 1);
}

#[test]
fn statistics_mean_between_min_and_max() {
    let data = vec![5 * MS, 1 * MS, 9 * MS, 3 * MS, 3 * MS];
    let st = Statistics::new(&data);
    assert!(st.min <= st.mean && st.mean <= st.max);
    assert_eq!(st.min, 1 * MS);
    assert_eq!(st.max, 9 * MS);
}

#[test]
fn statistics_mean_is_arithmetic_mean() {
    let st = Statistics::new(&vec![1 * MS, 2 * MS, 6 * MS]);
    assert_eq!(st.mean, 3 * MS);
    let st = Statistics::new(&vec![1, 2]);
    assert_eq!(st.mean, 1);
}

#[test]
fn statistics_of_huge_durations() {
    let st = Statistics::new(&vec![u64::MAX, u64::MAX, 0]);
    assert_eq!(st.mean, (2 * (u64::MAX as u128) / 3) as u64);
    assert_eq!(st.max, u64::MAX);
    assert_eq!(st.min, 0);
}

#[test]
fn integer_square_roots() {
    assert_eq!(isqrt(0), 0);
    assert_eq!(isqrt(1), 1);
    assert_eq!(isqrt(15), 3);
    assert_eq!(isqrt(16), 4);
    assert_eq!(isqrt(u128::MAX), u64::MAX);
}

#[test]
fn target_count_for_fifty_millisecond_runs() {
    assert_eq!(target_count(10, 1000, 50 * MS), 50);
}

#[test]
fn target_count_clamps() {
    assert_eq!(target_count(10, 1000, 1), 1000);
    assert_eq!(target_count(10, 1000, 0), 1000);
    assert_eq!(target_count(10, 1000, 2_000 * MS), 10);
    assert_eq!(target_count(20, 5, 1 * MS), 5);
}

#[test]
fn sampler_takes_fifty_runs_at_fifty_milliseconds() {
    let mut sampler = Sampler::new(10, 1000, 0);
    let runs = drive_sampler(&mut sampler, 50 * MS);
    assert_eq!(runs, 50);
    let samples = sampler.into_samples();
    assert_eq!(samples.len(), 50);
    assert!(samples.iter().all(|&d| d == 50 * MS));
}

#[test]
fn sampler_with_one_run_budget() {
    let mut sampler = Sampler::new(10, 1, 0);
    assert_eq!(drive_sampler(&mut sampler, 1), 1);
    assert_eq!(sampler.into_samples(), vec![1]);
    let mut sampler = Sampler::new(1, 1, 0);
    assert_eq!(drive_sampler(&mut sampler, 10_000 * MS), 1);
}

#[test]
fn sampler_keeps_initial_estimates_when_target_is_lower() {
    let mut sampler = Sampler::new(1, 1000, 0);
    assert_eq!(drive_sampler(&mut sampler, 3_000 * MS), 2);
}

#[test]
fn sampler_runs_warmups_first() {
    let mut sampler = Sampler::new(3, 3, 2);
    assert_eq!(sampler.next_action(), SamplerAction::Warmup);
    sampler.record_warmup();
    assert_eq!(sampler.next_action(), SamplerAction::Warmup);
    sampler.record_warmup();
    assert_eq!(sampler.next_action(), SamplerAction::Measure);
    sampler.record_sample(4);
    sampler.record_sample(5);
    sampler.record_sample(6);
    assert_eq!(sampler.next_action(), SamplerAction::Done);
    assert_eq!(sampler.into_samples(), vec![4, 5, 6]);
}

#[test]
fn limiter_bounds_slots_by_ceiling() {
    let mut w = WaitForFreeCPU::with_total(4);
    for _ in 0..4 {
        assert!(w.try_acquire());
    }
    assert!(!w.try_acquire());
    assert_eq!(w.in_use_now(), 4);
    w.release();
    assert!(w.try_acquire());
    assert!(!w.try_acquire());
}

#[test]
fn limiter_set_limit_is_clamped() {
    let mut w = WaitForFreeCPU::with_total(4);
    assert!(w.try_acquire());
    assert!(w.try_acquire());
    restrict_free_cpus_to(&mut w, 1);
    assert_eq!(w.ceiling_now(), 2);
    assert!(!w.try_acquire());
    restrict_free_cpus_to(&mut w, 100);
    assert_eq!(w.ceiling_now(), 4);
    w.release();
    w.release();
    restrict_free_cpus_to(&mut w, 1);
    assert_eq!(w.ceiling_now(), 1);
    assert!(w.try_acquire());
    assert!(!w.try_acquire());
}

#[test]
fn limiter_for_this_host() {
    let w = WaitForFreeCPU::new();
    assert!(w.total_now() >= 1);
    assert_eq!(w.ceiling_now(), w.total_now());
    assert_eq!(w.in_use_now(), 0);
}

#[test]
fn self_reported_timing_longer_than_measured_fails() {
    let mut t = test_case("a", "t");
    t.stdout_is_timing = Some(true);
    assert_eq!(
        t.check_run(true, Some(0), 100 * MS, Some(150 * MS)),
        Err(RunFailure::Misreported { reported_ns: 150 * MS, elapsed_ns: 100 * MS })
    );
    assert_eq!(t.check_run(true, Some(0), 100 * MS, Some(80 * MS)), Ok(80 * MS));
    assert_eq!(
        t.check_run(true, Some(0), 100 * MS, Some(100 * MS)),
        Err(RunFailure::Misreported { reported_ns: 100 * MS, elapsed_ns: 100 * MS })
    );
    assert_eq!(t.check_run(true, Some(0), 100 * MS, None), Err(RunFailure::MalformedTiming));
}

#[test]
fn run_results_without_self_timing() {
    let t = test_case("a", "t");
    assert_eq!(t.check_run(true, Some(0), 100 * MS, Some(80 * MS)), Ok(100 * MS));
    assert_eq!(t.check_run(false, Some(3), 100 * MS, None), Err(RunFailure::NonZeroExit(Some(3))));
    assert_eq!(t.check_run(false, None, 100 * MS, None), Err(RunFailure::NonZeroExit(None)));
}

#[test]
fn ratio_of_twenty_five_to_ten_milliseconds() {
    assert_eq!(ratio_milli(25 * MS, 10 * MS), 2500);
    assert_eq!(ratio_milli(10 * MS, 10 * MS), 1000);
    assert_eq!(ratio_milli(1, 3), 333);
    assert_eq!(ratio_milli(2, 3), 667);
}

fn run_pairs(cfg: &BenchifyConfig, nanos: &dyn Fn(usize, usize) -> u64) -> Vec<Step> {
    let mut exec = cfg.execution();
    let mut steps = Vec::new();
    loop {
        let step = exec.next_step();
        steps.push(step);
        match step {
            Step::PrepareAll => exec.on_all_prepared(true),
            Step::Prepare { .. } => exec.on_prepared(Ok(())),
            Step::Warmup { .. } => exec.on_run(Ok(1)),
            Step::Measure { test, tool } => exec.on_run(Ok(nanos(test, tool))),
            Step::Cleanup { .. } => exec.on_cleanup(Ok(())),
            Step::Finished | Step::Aborted => break,
        }
    }
    steps
}

#[test]
fn end_to_end_fast_and_slow() {
    let tools = vec![
        tool("fast", vec![(s("t"), shell_runner("true"))]),
        tool("slow", vec![(s("t"), shell_runner("sleep 0.01"))]),
    ];
    let cfg = config(tools, vec![test_case("only", "t")], 3, 3, false);
    let mut exec = cfg.execution();
    let mut measured = [0usize; 2];
    loop {
        match exec.next_step() {
            Step::Prepare { .. } => exec.on_prepared(Ok(())),
            Step::Warmup { .. } => exec.on_run(Ok(1)),
            Step::Measure { tool, .. } => {
                measured[tool] += 1;
                exec.on_run(Ok(if tool == 0 { 1 * MS } else { 10 * MS }));
            }
            Step::Cleanup { .. } => exec.on_cleanup(Ok(())),
            Step::Finished => break,
            other => panic!("unexpected step {:?}", other),
        }
    }
    assert_eq!(measured, [3, 3]);
    let outcomes = exec.into_outcomes();
    let results = cfg.results_of(outcomes);
    for r in &results.results {
        assert_eq!(r.outcome.as_ref().unwrap().len(), 3);
    }
    let by_test = results.results_by_test();
    assert_eq!(by_test.len(), 1);
    assert_eq!(by_test[0].0, "only");
    assert_eq!(by_test[0].1.len(), 2);
    assert_eq!(comparison_point(None, &by_test[0].1), Some(0));
    assert_eq!(by_test[0].1[0].0, "fast");
    let rows = format_summary(None, &by_test[0].1);
    assert!(rows[0].is_baseline);
    assert!(!rows[1].is_baseline);
    assert_eq!(rows[0].ratio_milli, Some(1000));
    assert_eq!(rows[1].ratio_milli, Some(10000));
}

#[test]
fn pairs_run_test_major() {
    let tools = vec![
        tool("a", vec![(s("t"), shell_runner("true"))]),
        tool("b", vec![(s("t"), shell_runner("true"))]),
    ];
    let cfg = config(tools, vec![test_case("x", "t"), test_case("y", "t")], 1, 1, false);
    let steps = run_pairs(&cfg, &|_, _| 5);
    let prepared: Vec<(usize, usize)> = steps
        .iter()
        .filter_map(|s| match s {
            Step::Prepare { test, tool } => Some((*test, *tool)),
            _ => None,
        })
        .collect();
    assert_eq!(prepared, vec![(0, 0), (0, 1), (1, 0), (1, 1)]);
}

#[test]
fn parallel_preparation_failure_aborts_before_measuring() {
    let tools = vec![tool("a", vec![(s("t"), shell_runner("true"))])];
    let cfg = config(tools, vec![test_case("x", "t")], 3, 3, true);
    let mut exec = cfg.execution();
    assert_eq!(exec.next_step(), Step::PrepareAll);
    exec.on_all_prepared(false);
    assert_eq!(exec.next_step(), Step::Aborted);
    assert!(!exec.is_finished());
}

#[test]
fn parallel_preparation_success_skips_per_pair_preparation() {
    let tools = vec![tool("a", vec![(s("t"), shell_runner("true"))])];
    let cfg = config(tools, vec![test_case("x", "t")], 2, 2, true);
    let steps = run_pairs(&cfg, &|_, _| 5);
    assert_eq!(steps[0], Step::PrepareAll);
    assert!(!steps.iter().any(|s| matches!(s, Step::Prepare { .. })));
    assert_eq!(steps.iter().filter(|s| matches!(s, Step::Measure { .. })).count(), 2);
}

#[test]
fn failures_are_recorded_per_pair() {
    let tools = vec![
        tool("a", vec![(s("t"), shell_runner("true"))]),
        tool("b", vec![(s("t"), shell_runner("false"))]),
    ];
    let mut cfg = config(tools, vec![test_case("x", "t")], 2, 2, false);
    cfg.warmup = Some(1);
    let mut exec = cfg.execution();
    // pair (x, a): preparation fails
    assert_eq!(exec.next_step(), Step::Prepare { test: 0, tool: 0 });
    exec.on_prepared(Err(RunFailure::NonZeroExit(Some(1))));
    // pair (x, b): warmup, one measured run, then a failure
    assert_eq!(exec.next_step(), Step::Prepare { test: 0, tool: 1 });
    exec.on_prepared(Ok(()));
    assert_eq!(exec.next_step(), Step::Warmup { test: 0, tool: 1 });
    exec.on_run(Ok(3));
    assert_eq!(exec.next_step(), Step::Measure { test: 0, tool: 1 });
    exec.on_run(Ok(3));
    exec.on_run(Err(RunFailure::NonZeroExit(Some(2))));
    assert_eq!(exec.next_step(), Step::Finished);
    let outcomes = exec.into_outcomes();
    assert_eq!(outcomes[0], Err(PairError::Prepare(RunFailure::NonZeroExit(Some(1)))));
    assert_eq!(outcomes[1], Err(PairError::Measure(RunFailure::NonZeroExit(Some(2)))));
}

#[test]
fn warmup_and_cleanup_failures() {
    let mut runner = shell_runner("true");
    runner.warmup = Some(2);
    let tools = vec![tool("a", vec![(s("t"), runner)])];
    let cfg = config(tools, vec![test_case("x", "t"), test_case("y", "t")], 1, 1, false);
    let mut exec = cfg.execution();
    exec.on_prepared(Ok(()));
    assert_eq!(exec.next_step(), Step::Warmup { test: 0, tool: 0 });
    exec.on_run(Err(RunFailure::Spawn(s("no such program"))));
    exec.on_prepared(Ok(()));
    exec.on_run(Ok(1));
    exec.on_run(Ok(1));
    exec.on_run(Ok(7));
    assert_eq!(exec.next_step(), Step::Cleanup { test: 1, tool: 0 });
    exec.on_cleanup(Err(RunFailure::NonZeroExit(None)));
    let outcomes = exec.into_outcomes();
    assert_eq!(outcomes[0], Err(PairError::Warmup(RunFailure::Spawn(s("no such program")))));
    assert_eq!(outcomes[1], Err(PairError::Cleanup(RunFailure::NonZeroExit(None))));
}

#[test]
fn empty_configuration_finishes_at_once() {
    let cfg = config(vec![], vec![test_case("x", "t")], 1, 1, false);
    let exec = cfg.execution();
    assert!(exec.is_finished());
    assert_eq!(exec.next_step(), Step::Finished);
    assert_eq!(exec.into_outcomes().len(), 0);
}

fn pair(test: &str, tool: &str, outcome: Result<Vec<u64>, PairError>) -> PairResult {
    PairResult { test: s(test), tool: s(tool), outcome }
}

#[test]
fn grouping_by_test_and_by_tool() {
    let failed = || Err(PairError::Measure(RunFailure::NonZeroExit(Some(1))));
    let results = BenchifyResults {
        results: vec![
            pair("t1", "A", failed()),
            pair("t1", "B", Ok(vec![2])),
            pair("t2", "A", Ok(vec![3])),
            pair("t2", "B", Ok(vec![4])),
            pair("t1", "C", failed()),
        ],
        main_tool: None,
    };
    let by_test = results.results_by_test();
    assert_eq!(by_test.len(), 2);
    assert_eq!(by_test[0].0, "t1");
    let names: Vec<&String> = by_test[0].1.iter().map(|e| e.0).collect();
    assert_eq!(names, vec!["A", "B", "C"]);
    assert_eq!(by_test[1].0, "t2");
    assert_eq!(by_test[1].1.len(), 2);

    let by_tool = results.results_by_executor();
    let keys: Vec<&String> = by_tool.iter().map(|g| g.0).collect();
    assert_eq!(keys, vec!["A", "B"]);
    assert_eq!(by_tool[0].1.len(), 1);
    assert_eq!(by_tool[0].1[0].0, "t2");
    assert_eq!(by_tool[1].1.len(), 2);
}

#[test]
fn comparison_point_selection() {
    let ok_a: Result<Vec<u64>, PairError> = Ok(vec![30]);
    let ok_b: Result<Vec<u64>, PairError> = Ok(vec![10]);
    let ok_c: Result<Vec<u64>, PairError> = Ok(vec![10]);
    let bad: Result<Vec<u64>, PairError> = Err(PairError::Prepare(RunFailure::MissingRunner));
    let (a, b, c, d) = (s("a"), s("b"), s("c"), s("d"));
    let entries = vec![(&a, &ok_a), (&b, &ok_b), (&c, &ok_c), (&d, &bad)];
    // fastest, first among equals
    assert_eq!(comparison_point(None, &entries), Some(1));
    // the configured main tool
    assert_eq!(comparison_point(Some(&a), &entries), Some(0));
    // a main tool without a sample set gives no comparison point
    assert_eq!(comparison_point(Some(&d), &entries), None);
    let unknown = s("zzz");
    assert_eq!(comparison_point(Some(&unknown), &entries), None);
    let only_bad = vec![(&d, &bad)];
    assert_eq!(comparison_point(None, &only_bad), None);
    let rows = format_summary(None, &only_bad);
    assert_eq!(rows.len(), 1);
    assert!(rows[0].stats.is_err());
    assert_eq!(rows[0].ratio_milli, None);
}

#[test]
fn summary_rows_against_main_tool() {
    let base: Result<Vec<u64>, PairError> = Ok(vec![10 * MS, 10 * MS]);
    let other: Result<Vec<u64>, PairError> = Ok(vec![20 * MS, 30 * MS]);
    let (a, b) = (s("base"), s("other"));
    let entries = vec![(&b, &other), (&a, &base)];
    let rows = format_summary(Some(&a), &entries);
    assert!(rows[1].is_baseline);
    assert_eq!(rows[0].ratio_milli, Some(2500));
    assert_eq!(rows[1].ratio_milli, Some(1000));
    let st = rows[0].stats.as_ref().unwrap();
    assert_eq!(st.mean, 25 * MS);
    assert_eq!(st.count, 2);
}

#[test]
fn interpolation_fills_placeholders() {
    let mut t = test_case("big", "parse");
    t.file = Some(s("data.json"));
    t.extra_args = Some(vec![s("-x"), s("y z")]);
    assert_eq!(t.interpolated_into("run {NAME} {TAG} {FILE}"), "run big parse data.json");
    assert_eq!(t.interpolated_into("cmd {...}"), "cmd '-x' 'y z'");
    assert_eq!(t.interpolated_into("cmd \"{...}\""), "cmd -x y z");
    assert_eq!(t.interpolated_into("cmd '{...}'"), "cmd -x y z");
    assert_eq!(t.interpolated_into("{NAME}{NAME}"), "bigbig");
}

#[test]
fn interpolation_without_file_or_extras() {
    let t = test_case("n", "g");
    assert_eq!(t.interpolated_into("a {FILE} {...} b"), "a {FILE}  b");
}

#[test]
fn interpolation_of_arguments() {
    let mut t = test_case("n", "g");
    t.extra_args = Some(vec![s("p"), s("q")]);
    let args = vec![s("--name={NAME}"), s("..."), s("x"), s("{...}")];
    assert_eq!(t.interpolated_into_args(&args), vec!["--name=n", "p", "q", "x", "p", "q"]);
}

#[test]
fn runner_file_needs() {
    let mut r = shell_runner("cat");
    assert!(!r.needs_file());
    r.run_args = Some(vec![s("a"), s("<{FILE}>")]);
    assert!(r.needs_file());
    let mut r = shell_runner("cat");
    r.cleanup = Some(s("rm {FILE}"));
    assert!(r.needs_file());
    let r = shell_runner("cat {FILE}");
    assert!(r.needs_file());
}

#[test]
fn text_helpers() {
    assert!(contains_str("abcde", "cd"));
    assert!(!contains_str("abcde", "ce"));
    assert!(contains_str("abc", ""));
    assert_eq!(replace_str("aaaa", "aa", "b"), "bb");
    assert_eq!(replace_str("abc", "x", "y"), "abc");
    assert!(same_text("ab", "ab"));
    assert!(!same_text("ab", "abc"));
}

#[test]
fn run_steps_of_runners() {
    let mut t = test_case("n", "t");
    t.extra_args = Some(vec![s("e")]);
    let mut args_runner = shell_runner("x");
    args_runner.run_cmd = None;
    args_runner.run_args = Some(vec![s("{NAME}"), s("...")]);
    args_runner.prepare = Some(s("mk {NAME}"));
    let mut both = shell_runner("x");
    both.run_args = Some(vec![]);
    let mut neither = shell_runner("x");
    neither.run_cmd = None;
    let shell = tool("s", vec![(s("t"), shell_runner("echo {TAG}"))]);
    match shell.run_step(&t) {
        Ok(RunStep::Shell(c)) => assert_eq!(c, "echo t"),
        other => panic!("unexpected {:?}", other),
    }
    let args = tool("a", vec![(s("t"), args_runner)]);
    match args.run_step(&t) {
        Ok(RunStep::Args(a)) => assert_eq!(a, vec!["n", "e"]),
        other => panic!("unexpected {:?}", other),
    }
    assert_eq!(args.prepare_command(&t), Ok(Some(s("mk n"))));
    assert_eq!(args.cleanup_command(&t), Ok(None));
    let b = tool("b", vec![(s("t"), both)]);
    assert!(matches!(b.run_step(&t), Err(RunFailure::InvalidRunStep)));
    let n = tool("n", vec![(s("t"), neither)]);
    assert!(matches!(n.run_step(&t), Err(RunFailure::InvalidRunStep)));
    let other_tag = tool("o", vec![(s("u"), shell_runner("x"))]);
    assert!(matches!(other_tag.run_step(&t), Err(RunFailure::MissingRunner)));
    assert_eq!(other_tag.prepare_command(&t), Err(RunFailure::MissingRunner));
}

#[test]
fn runner_lookup_and_warmups() {
    let mut r1 = shell_runner("one");
    r1.warmup = Some(4);
    let t1 = tool("a", vec![(s("u"), shell_runner("zero")), (s("t"), r1)]);
    let found = t1.runner_for(&s("t")).unwrap();
    assert_eq!(found.run_cmd, Some(s("one")));
    assert!(t1.runner_for(&s("v")).is_none());
    let cfg = config(vec![t1], vec![test_case("x", "t")], 1, 1, false);
    let mut exec = cfg.execution();
    exec.on_prepared(Ok(()));
    let mut warmups = 0;
    while let Step::Warmup { .. } = exec.next_step() {
        warmups += 1;
        exec.on_run(Ok(1));
    }
    assert_eq!(warmups, 4);
}

#[test]
fn stdin_command_is_interpolated() {
    let mut t = test_case("n", "t");
    assert_eq!(t.stdin_command(), None);
    t.stdin_from_cmd = Some(s("gen {NAME}"));
    assert_eq!(t.stdin_command(), Some(s("gen n")));
}

#[test]
fn configuration_defaults() {
    let mut cfg = config(vec![], vec![], 1, 1, false);
    cfg.min_runs = None;
    cfg.max_runs = None;
    cfg.parallel_prep = None;
    assert_eq!(cfg.min_runs(), 10);
    assert_eq!(cfg.max_runs(), 1000);
    assert!(!cfg.parallel_prep());
    assert_eq!(cfg.results_dir(), "./benchify-results/");
    cfg.results_dir = Some(s("out"));
    assert_eq!(cfg.results_dir(), "out");
}

#[test]
fn execution_stage_after_start() {
    let cfg = config(vec![tool("a", vec![(s("t"), shell_runner("x"))])], vec![test_case("x", "t")], 1, 1, false);
    let exec = cfg.execution();
    assert_eq!(exec.next_step(), Step::Prepare { test: 0, tool: 0 });
}

#[test]
fn sound_configuration_has_no_problems() {
    let mut r = shell_runner("cat {FILE}");
    r.prepare = Some(s("true"));
    let tools = vec![tool("a", vec![(s("t"), r)])];
    let mut t = test_case("x", "t");
    t.file = Some(s("in.txt"));
    let mut cfg = config(tools, vec![t], 1, 5, false);
    cfg.main_tool = Some(s("a"));
    assert_eq!(cfg.confirm_config_sanity(false, &vec![true], &vec![true]), vec![]);
    assert!(cfg.declares_tag(&s("t")));
    assert!(!cfg.declares_tag(&s("u")));
    assert!(cfg.tag_needs_file(&s("t")));
}

#[test]
fn configuration_problems_in_order() {
    let mut both = shell_runner("x");
    both.run_args = Some(vec![s("y")]);
    let a = tool("a", vec![(s("t"), shell_runner("ok")), (s("t2"), both)]);
    let b = tool("b", vec![(s("u"), shell_runner("cat {FILE}"))]);
    let c = tool("c", vec![(s("t"), shell_runner("cat {FILE}")), (s("t2"), shell_runner("x"))]);
    let mut with_file = test_case("f", "t");
    with_file.file = Some(s("missing.txt"));
    let tests = vec![test_case("bad tag", "zz"), with_file, test_case("needs file", "t")];
    let mut cfg = config(vec![a, b, c], tests, 5, 3, false);
    cfg.benchify_version = 2;
    cfg.main_tool = Some(s("nobody"));
    cfg.tags = vec![s("t"), s("t2")];
    let errs = cfg.confirm_config_sanity(true, &vec![true, false, true], &vec![true, false, true]);
    assert_eq!(
        errs,
        vec![
            ConfigError::UnsupportedVersion(2),
            ConfigError::MinAboveMax { min_runs: 5, max_runs: 3 },
            ConfigError::ResultsDirIsFile,
            ConfigError::UnknownMainTool,
            ConfigError::RunStepNotUnique { tool: 0, runner: 1 },
            ConfigError::MissingRunners { tool: 1 },
            ConfigError::ExtraRunners { tool: 1 },
            ConfigError::NotRunnable { tool: 1 },
            ConfigError::UnknownTag { test: 0 },
            ConfigError::MissingFile { test: 1 },
            ConfigError::FileNeeded { test: 2 },
        ]
    );
}

#[test]
fn zero_maximum_runs_is_a_problem() {
    let cfg = config(vec![], vec![], 0, 0, false);
    assert_eq!(cfg.confirm_config_sanity(false, &vec![], &vec![]), vec![ConfigError::NoRuns]);
}
