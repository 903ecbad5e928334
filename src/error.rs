use vstd::prelude::*;

verus! {

/// Why one execution of a command did not give a usable result.
#[derive(Debug, Clone, PartialEq, Eq)]
pub enum RunFailure {
    /// The program or the shell could not be started; the text says why.
    Spawn(String),
    /// The command exited unsuccessfully, with this code if it had one.
    NonZeroExit(Option<i32>),
    /// The command was to report its own timing on stdout and did not print a
    /// number of seconds.
    MalformedTiming,
    /// The self-reported duration was not strictly less than the measured one.
    Misreported { reported_ns: u64, elapsed_ns: u64 },
    /// The tool has no runner for the test's tag.
    MissingRunner,
    /// The runner sets neither or both of an argument list and a shell command.
    InvalidRunStep,
}

/// Why a (test, tool) pair has no sample set; the phase is that of the failure.
#[derive(Debug, Clone, PartialEq, Eq)]
pub enum PairError {
    Prepare(RunFailure),
    Warmup(RunFailure),
    Measure(RunFailure),
    Cleanup(RunFailure),
}

} // verus!
