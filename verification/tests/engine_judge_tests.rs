use acc::engine::{poll_step, ExecutionOutcome, PollAction, PollEvent};
use acc::judge::{judge_case, judge_run, remove_last_indent};
use acc::status::Status;

#[test]
fn successful_exit_drains_output() {
    let action = poll_step(PollEvent::Exited { success: true }, 5, 2000);
    assert_eq!(action, PollAction::DrainOutput);
}

#[test]
fn nonzero_exit_fails_runtime() {
    let action = poll_step(PollEvent::Exited { success: false }, 5, 2000);
    assert_eq!(action, PollAction::FailRuntime);
}

#[test]
fn running_before_deadline_keeps_waiting() {
    assert_eq!(poll_step(PollEvent::Running, 1999, 2000), PollAction::KeepWaiting);
    assert_eq!(poll_step(PollEvent::Running, 2000, 2000), PollAction::KeepWaiting);
}

#[test]
fn running_past_deadline_is_killed() {
    assert_eq!(poll_step(PollEvent::Running, 2001, 2000), PollAction::KillAndTimeout);
    assert_eq!(poll_step(PollEvent::Running, 3_600_000, 2000), PollAction::KillAndTimeout);
}

#[test]
fn unqueryable_process_aborts_the_run() {
    assert_eq!(poll_step(PollEvent::Unqueryable, 0, 2000), PollAction::AbortRun);
}

#[test]
fn normalization_strips_one_trailing_newline() {
    assert_eq!(remove_last_indent("5\n"), "5");
    assert_eq!(remove_last_indent("5"), "5");
    assert_eq!(remove_last_indent("5\n\n"), "5\n");
    assert_eq!(remove_last_indent(""), "");
}

#[test]
fn echoed_input_is_accepted() {
    let outcome = ExecutionOutcome::Completed("1 2 3\n".to_string());
    assert_eq!(judge_case(&outcome, "1 2 3\n"), Status::AC);
}

#[test]
fn echoed_input_matches_up_to_one_trailing_newline() {
    let outcome = ExecutionOutcome::Completed("42\n".to_string());
    assert_eq!(judge_case(&outcome, "42"), Status::AC);
}

#[test]
fn deeper_trailing_whitespace_still_differs() {
    let outcome = ExecutionOutcome::Completed("42\n\n".to_string());
    assert_eq!(judge_case(&outcome, "42"), Status::WA);
}

#[test]
fn wrong_output_is_wa() {
    let outcome = ExecutionOutcome::Completed("7\n".to_string());
    assert_eq!(judge_case(&outcome, "8\n"), Status::WA);
}

#[test]
fn runtime_error_is_re_whatever_was_expected() {
    assert_eq!(judge_case(&ExecutionOutcome::RuntimeError, "anything"), Status::RE);
    assert_eq!(judge_case(&ExecutionOutcome::RuntimeError, ""), Status::RE);
}

#[test]
fn timeout_is_tle() {
    assert_eq!(judge_case(&ExecutionOutcome::TimedOut, "5\n"), Status::TLE);
}

#[test]
fn whole_run_aggregates_to_the_worst_status() {
    let outcomes = vec![
        ExecutionOutcome::Completed("1\n".to_string()),
        ExecutionOutcome::TimedOut,
        ExecutionOutcome::Completed("9\n".to_string()),
        ExecutionOutcome::RuntimeError,
    ];
    let expecteds = vec![
        "1\n".to_string(),
        "2\n".to_string(),
        "3\n".to_string(),
        "4\n".to_string(),
    ];
    let (statuses, verdict) = judge_run(&outcomes, &expecteds);
    assert_eq!(statuses, vec![Status::AC, Status::TLE, Status::WA, Status::RE]);
    assert_eq!(verdict, Status::WA);
}

#[test]
fn clean_run_aggregates_to_ac() {
    let outcomes = vec![
        ExecutionOutcome::Completed("a\n".to_string()),
        ExecutionOutcome::Completed("b".to_string()),
    ];
    let expecteds = vec!["a".to_string(), "b\n".to_string()];
    let (statuses, verdict) = judge_run(&outcomes, &expecteds);
    assert_eq!(statuses, vec![Status::AC, Status::AC]);
    assert_eq!(verdict, Status::AC);
}
