use mutants::supervise::{
    baseline_build_verdict, baseline_test_verdict, next_build, next_run, wait_step, BuildStep,
    RunStep, WaitStep,
};

#[test]
fn decides_the_next_wait_step() {
    assert_eq!(wait_step(Some(Some(0)), 5, 10), WaitStep::Done(Some(0)));
    assert_eq!(wait_step(Some(Some(101)), 50, 10), WaitStep::Done(Some(101)));
    assert_eq!(wait_step(Some(None), 1, 10), WaitStep::Done(Some(1)));
    assert_eq!(wait_step(None, 10, 10), WaitStep::Kill);
    assert_eq!(wait_step(None, 11, 10), WaitStep::Kill);
    assert_eq!(wait_step(None, 9, 10), WaitStep::Sleep);
}

#[test]
fn judges_the_unmutated_crate() {
    assert_eq!(baseline_build_verdict(&Ok(())), Ok(()));
    assert_eq!(
        baseline_build_verdict(&Err("error[E0308]".to_owned())),
        Err("the unmutated crate failed to build:\nerror[E0308]".to_owned())
    );
    assert_eq!(baseline_test_verdict(Some(0)), Ok(()));
    let refused = Err("the unmutated tests do not pass; fix them first".to_owned());
    assert_eq!(baseline_test_verdict(Some(101)), refused);
    assert_eq!(baseline_test_verdict(None), refused);
}

#[test]
fn builds_in_order_until_one_fails() {
    assert_eq!(next_build(&vec![], 3), BuildStep::Build(0));
    assert_eq!(next_build(&vec![true], 3), BuildStep::Build(1));
    assert_eq!(next_build(&vec![true, false], 3), BuildStep::Done(false));
    assert_eq!(next_build(&vec![true, true, true], 3), BuildStep::Done(true));
    assert_eq!(next_build(&vec![], 0), BuildStep::Done(true));
}

#[test]
fn runs_suites_in_order_until_one_fails() {
    assert_eq!(next_run(&vec![], 3), RunStep::Run(0));
    assert_eq!(next_run(&vec![Some(0)], 3), RunStep::Run(1));
    assert_eq!(next_run(&vec![Some(0), Some(101)], 3), RunStep::Done(Some(101)));
    assert_eq!(next_run(&vec![Some(0), None], 3), RunStep::Done(None));
    assert_eq!(next_run(&vec![Some(0), Some(0), Some(0)], 3), RunStep::Done(Some(0)));
    assert_eq!(next_run(&vec![Some(0)], 1), RunStep::Done(Some(0)));
}
