use alfa::orchestrator::{Action, Orchestrator, Phase, VerifyOutcome};

#[test]
fn empty_manifest_completes_at_once() {
    let run = Orchestrator::new(0);
    assert_eq!(run.phase, Phase::Complete);
    assert_eq!(run.next_action(), Action::Finished);
    assert_eq!(run.report.attempted, 0);
    assert_eq!(run.report.failed, 0);
}

#[test]
fn mismatch_is_one_soft_failure_and_the_run_continues() {
    let mut run = Orchestrator::new(2);
    assert_eq!(run.next_action(), Action::FetchPackage(0));
    run.on_fetch_result(true);
    assert_eq!(run.next_action(), Action::VerifyPackage(0));
    run.on_verify_result(VerifyOutcome::Mismatch);
    // exactly one soft failure recorded, and the next package is processed
    assert_eq!(run.report.attempted, 1);
    assert_eq!(run.report.failed, 1);
    assert_eq!(run.phase, Phase::Fetching);
    assert_eq!(run.next_action(), Action::FetchPackage(1));
}

#[test]
fn fetch_failure_aborts_the_whole_run() {
    let mut run = Orchestrator::new(2);
    run.on_fetch_result(false);
    // nothing was verified, nothing tallied, and no later package runs
    assert_eq!(run.phase, Phase::Aborted);
    assert_eq!(run.next_action(), Action::Halted);
    assert_eq!(run.report.attempted, 0);
    assert_eq!(run.report.failed, 0);
}

#[test]
fn unreadable_download_aborts_the_whole_run() {
    let mut run = Orchestrator::new(2);
    run.on_fetch_result(true);
    run.on_verify_result(VerifyOutcome::Unreadable);
    assert_eq!(run.phase, Phase::Aborted);
    assert_eq!(run.report.attempted, 0);
}

#[test]
fn one_mismatch_of_two_gates_completion_behind_confirmation() {
    let mut run = Orchestrator::new(2);
    run.on_fetch_result(true);
    run.on_verify_result(VerifyOutcome::Match);
    run.on_fetch_result(true);
    run.on_verify_result(VerifyOutcome::Mismatch);
    assert_eq!(run.report.attempted, 2);
    assert_eq!(run.report.failed, 1);
    assert_eq!(run.phase, Phase::Confirming);
    assert_eq!(run.next_action(), Action::AskConfirmation);
    run.on_confirmation(true);
    assert_eq!(run.phase, Phase::Complete);
}

#[test]
fn declining_the_confirmation_aborts() {
    let mut run = Orchestrator::new(1);
    run.on_fetch_result(true);
    run.on_verify_result(VerifyOutcome::Mismatch);
    assert_eq!(run.phase, Phase::Confirming);
    run.on_confirmation(false);
    assert_eq!(run.phase, Phase::Aborted);
}

#[test]
fn all_matches_complete_without_any_prompt() {
    let mut run = Orchestrator::new(2);
    run.on_fetch_result(true);
    run.on_verify_result(VerifyOutcome::Match);
    assert_eq!(run.phase, Phase::Fetching);
    run.on_fetch_result(true);
    run.on_verify_result(VerifyOutcome::Match);
    assert_eq!(run.report.attempted, 2);
    assert_eq!(run.report.failed, 0);
    assert_eq!(run.phase, Phase::Complete);
    assert_eq!(run.next_action(), Action::Finished);
}

#[test]
fn first_fetch_error_halts_before_any_verification() {
    let mut run = Orchestrator::new(2);
    assert_eq!(run.next_action(), Action::FetchPackage(0));
    run.on_fetch_result(false);
    assert_eq!(run.phase, Phase::Aborted);
    assert_eq!(run.report.attempted, 0);
    assert_eq!(run.report.failed, 0);
    assert_eq!(run.next_action(), Action::Halted);
}
