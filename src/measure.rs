use vstd::prelude::*;
use crate::config::Test;
use crate::error::RunFailure;

verus! {

impl Test {
    /// Whether the program's stdout is the authoritative timing of a run.
    pub open spec fn self_timed(&self) -> bool {
        self.stdout_is_timing == Some(true)
    }

    /// Judges one finished run of this test: `exit_ok` tells whether the program
    /// exited successfully, `elapsed_ns` is the wall time measured around it and
    /// `reported_ns` the duration read from its stdout (`None` when that was not
    /// a number). A self-report counts only when strictly less than the wall time.
    pub fn check_run(
        &self,
        exit_ok: bool,
        exit_code: Option<i32>,
        elapsed_ns: u64,
        reported_ns: Option<u64>,
    ) -> (r: Result<u64, RunFailure>)
        ensures
            !exit_ok ==> r == Err::<u64, RunFailure>(RunFailure::NonZeroExit(exit_code)),
            exit_ok && !self.self_timed() ==> r == Ok::<u64, RunFailure>(elapsed_ns),
            exit_ok && self.self_timed() && reported_ns is None ==> r == Err::<u64, RunFailure>(
                RunFailure::MalformedTiming,
            ),
            exit_ok && self.self_timed() && reported_ns is Some ==> {
                let x = reported_ns->Some_0;
                if x < elapsed_ns {
                    r == Ok::<u64, RunFailure>(x)
                } else {
                    r == Err::<u64, RunFailure>(
                        RunFailure::Misreported { reported_ns: x, elapsed_ns },
                    )
                }
            },
    {
        if !exit_ok {
            return Err(RunFailure::NonZeroExit(exit_code));
        }
        let self_timed = match self.stdout_is_timing {
            Some(b) => b,
            None => false,
        };
        if !self_timed {
            return Ok(elapsed_ns);
        }
        match reported_ns {
            None => Err(RunFailure::MalformedTiming),
            Some(x) => if x < elapsed_ns {
                Ok(x)
            } else {
                Err(RunFailure::Misreported { reported_ns: x, elapsed_ns })
            },
        }
    }
}

} // verus!
