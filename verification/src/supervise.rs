//! The decisions around running a test binary: when a run is over, when a
//! hung run is killed, whether the unmutated crate is fit to mutate, and, where
//! integration suites are named, which build or run comes next.
use vstd::prelude::*;

verus! {

/// What to do next while waiting for a test run.
#[derive(Clone, Copy, Debug, PartialEq, Eq, Structural)]
pub enum WaitStep {
    /// The run is over, with this exit status (`None` where it was killed).
    Done(Option<i32>),
    /// The run is past its deadline: kill it, and count it as not passing.
    Kill,
    /// Sleep one poll interval and look again.
    Sleep,
}

/// The next step while waiting: `exited` is `Some` once the child has exited,
/// holding its exit code (`None` where a signal ended it, which counts as
/// status 1); `elapsed` is how long it has run and `timeout` how long it may.
pub fn wait_step(exited: Option<Option<i32>>, elapsed: u128, timeout: u128) -> (r: WaitStep)
    ensures
        exited matches Some(c) ==> r == WaitStep::Done(Some(
            match c {
                Some(x) => x,
                None => 1i32,
            },
        )),
        exited is None && elapsed >= timeout ==> r == WaitStep::Kill,
        exited is None && elapsed < timeout ==> r == WaitStep::Sleep,
{
    match exited {
        Some(Some(code)) => WaitStep::Done(Some(code)),
        Some(None) => WaitStep::Done(Some(1)),
        None => if elapsed >= timeout {
            WaitStep::Kill
        } else {
            WaitStep::Sleep
        },
    }
}

/// Whether the unmutated crate built: `built` is the build's outcome, with
/// rustc's standard error where it failed.
pub fn baseline_build_verdict(built: &Result<(), String>) -> (r: Result<(), String>)
    ensures
        built is Ok ==> r is Ok,
        built matches Err(stderr) ==> (r matches Err(e) && e@ == "the unmutated crate failed to build:\n"@
            + stderr@),
{
    match built {
        Ok(()) => Ok(()),
        Err(stderr) => {
            let mut e = "the unmutated crate failed to build:\n".to_owned();
            e.append(stderr.as_str());
            Err(e)
        },
    }
}

/// Whether the unmutated tests pass: only an exit with status 0 does (a
/// failure or a timeout, `None`, does not).
pub fn baseline_test_verdict(exit: Option<i32>) -> (r: Result<(), String>)
    ensures
        exit == Some(0i32) ==> r is Ok,
        exit != Some(0i32) ==> (r matches Err(e) && e@
            == "the unmutated tests do not pass; fix them first"@),
{
    if exit == Some(0i32) {
        Ok(())
    } else {
        Err("the unmutated tests do not pass; fix them first".to_owned())
    }
}

/// What to do next with a mutant's builds: the test binary, then the library,
/// then each integration suite, in order, stopping at the first failure.
#[derive(Clone, Copy, Debug, PartialEq, Eq, Structural)]
pub enum BuildStep {
    /// Run build `i`.
    Build(usize),
    /// The builds are over: whether every one succeeded.
    Done(bool),
}

/// The next build, after the builds so far (`built[i]` whether build `i`
/// succeeded) out of `builds`: stop at the first failure, else run the next
/// one, else report that all succeeded.
pub fn next_build(built: &Vec<bool>, builds: usize) -> (r: BuildStep)
    ensures
        (exists|i: int| 0 <= i < built.len() && !built@[i]) ==> r == BuildStep::Done(false),
        (forall|i: int| 0 <= i < built.len() ==> built@[i]) && built.len() < builds ==> r
            == BuildStep::Build(built.len()),
        (forall|i: int| 0 <= i < built.len() ==> built@[i]) && built.len() >= builds ==> r
            == BuildStep::Done(true),
{
    let mut i: usize = 0;
    while i < built.len()
        invariant
            i <= built.len(),
            forall|j: int| 0 <= j < i ==> built@[j],
        decreases built.len() - i,
    {
        if !built[i] {
            return BuildStep::Done(false);
        }
        i = i + 1;
    }
    if built.len() < builds {
        BuildStep::Build(built.len())
    } else {
        BuildStep::Done(true)
    }
}

/// Whether a test run passed: it exited with status 0.
pub open spec fn run_passed(exit: Option<i32>) -> bool {
    exit == Some(0i32)
}

/// What to do next with a mutant's test runs: the unit tests, then each
/// integration suite, in order, stopping at the first failure.
#[derive(Clone, Copy, Debug, PartialEq, Eq, Structural)]
pub enum RunStep {
    /// Run test binary `i`.
    Run(usize),
    /// The runs are over, with the status that decides the mutant: the first
    /// failing run's (`None` for a timeout), or 0 where every run passed.
    Done(Option<i32>),
}

/// The next test run, after the runs so far (`exits[i]` the exit status of
/// run `i`, `None` where it timed out) out of `runs`: stop at the first run
/// that did not pass, else run the next one, else report that all passed.
pub fn next_run(exits: &Vec<Option<i32>>, runs: usize) -> (r: RunStep)
    ensures
        (exists|i: int| 0 <= i < exits.len() && !run_passed(exits@[i])) ==> (r matches RunStep::Done(
            e,
        ) && exists|i: int|
            0 <= i < exits.len() && e == exits@[i] && !run_passed(e) && forall|j: int|
                0 <= j < i ==> run_passed(exits@[j])),
        (forall|i: int| 0 <= i < exits.len() ==> run_passed(exits@[i])) && exits.len() < runs ==> r
            == RunStep::Run(exits.len()),
        (forall|i: int| 0 <= i < exits.len() ==> run_passed(exits@[i])) && exits.len() >= runs ==> r
            == RunStep::Done(Some(0i32)),
{
    let mut i: usize = 0;
    while i < exits.len()
        invariant
            i <= exits.len(),
            forall|j: int| 0 <= j < i ==> run_passed(exits@[j]),
        decreases exits.len() - i,
    {
        if exits[i] != Some(0i32) {
            return RunStep::Done(exits[i]);
        }
        i = i + 1;
    }
    if exits.len() < runs {
        RunStep::Run(exits.len())
    } else {
        RunStep::Done(Some(0i32))
    }
}

/// A mutant is caught by its runs as soon as one of them fails: when the
/// runs are over, the deciding status passes exactly when every run passed.
pub proof fn runs_stop_at_first_failure(exits: Seq<Option<i32>>, e: Option<i32>)
    requires
        (exists|i: int| 0 <= i < exits.len() && e == exits[i] && !run_passed(e) && forall|j: int|
            0 <= j < i ==> run_passed(exits[j])) || ((forall|i: int|
            0 <= i < exits.len() ==> run_passed(exits[i])) && e == Some(0i32)),
    ensures
        run_passed(e) <==> forall|i: int| 0 <= i < exits.len() ==> run_passed(exits[i]),
{
}

} // verus!
