use vstd::prelude::*;

verus! {

/// What one poll of the candidate process reported: it exited (with or
/// without success), it is still running, or its handle could no longer be
/// queried at all.
#[derive(Copy, Clone, Debug, PartialEq, Eq, Structural)]
pub enum PollEvent {
    Exited { success: bool },
    Running,
    Unqueryable,
}

/// What the engine must do next after one poll.
#[derive(Copy, Clone, Debug, PartialEq, Eq, Structural)]
pub enum PollAction {
    /// The process exited successfully: drain its captured stdout and hand the
    /// text to the verifier.
    DrainOutput,
    /// The process exited with a non-zero status: report a runtime error; its
    /// stdout is never consulted.
    FailRuntime,
    /// The process is still running and the deadline has not passed: yield the
    /// scheduling slice and poll again.
    KeepWaiting,
    /// The deadline has passed while the process still runs: kill it
    /// unconditionally and report a timeout.
    KillAndTimeout,
    /// The process handle became unqueryable: abort the whole run.
    AbortRun,
}

/// Result of one execution attempt, consumed immediately by the verifier.
#[derive(Debug, Clone)]
pub enum ExecutionOutcome {
    /// Exited zero within the deadline; carries the captured stdout text.
    Completed(String),
    /// Exited with a non-zero status within the deadline.
    RuntimeError,
    /// Still running when the deadline passed; the process was killed.
    TimedOut,
}

/// The decision the poll loop takes after each poll of the candidate process.
pub open spec fn spec_poll_step(event: PollEvent, elapsed_ms: u128, timeout_ms: u16) -> PollAction {
    match event {
        PollEvent::Exited { success } => if success {
            PollAction::DrainOutput
        } else {
            PollAction::FailRuntime
        },
        PollEvent::Running => if elapsed_ms > timeout_ms as u128 {
            PollAction::KillAndTimeout
        } else {
            PollAction::KeepWaiting
        },
        PollEvent::Unqueryable => PollAction::AbortRun,
    }
}

/// One step of the engine's poll loop: races the candidate's termination
/// against the wall-clock deadline. An exit decides by its status alone; a
/// still-running process is killed exactly when the elapsed time strictly
/// exceeds the timeout; an unqueryable handle aborts the run.
pub fn poll_step(event: PollEvent, elapsed_ms: u128, timeout_ms: u16) -> (action: PollAction)
    ensures
        action == spec_poll_step(event, elapsed_ms, timeout_ms),
{
    match event {
        PollEvent::Exited { success } => {
            if success {
                PollAction::DrainOutput
            } else {
                PollAction::FailRuntime
            }
        },
        PollEvent::Running => {
            if elapsed_ms > timeout_ms as u128 {
                PollAction::KillAndTimeout
            } else {
                PollAction::KeepWaiting
            }
        },
        PollEvent::Unqueryable => PollAction::AbortRun,
    }
}

/// A candidate that is still running past the deadline is always killed and
/// never waited on further, whatever the elapsed time beyond the deadline.
pub proof fn lemma_timeout_forces_kill(elapsed_ms: u128, timeout_ms: u16)
    requires
        elapsed_ms > timeout_ms as u128,
    ensures
        spec_poll_step(PollEvent::Running, elapsed_ms, timeout_ms) == PollAction::KillAndTimeout,
{
}

/// A non-zero exit is classified as a runtime failure no matter how much time
/// had elapsed: its output is never drained.
pub proof fn lemma_nonzero_exit_fails(elapsed_ms: u128, timeout_ms: u16)
    ensures
        spec_poll_step(PollEvent::Exited { success: false }, elapsed_ms, timeout_ms)
            == PollAction::FailRuntime,
{
}

} // verus!
