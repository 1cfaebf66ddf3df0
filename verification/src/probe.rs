//! The decisions of a time-limited wait for an `ffprobe` child process: after each
//! poll, read its output, give up, or wait and poll again.

use vstd::prelude::*;

verus! {

/// How long to sleep between two polls, in milliseconds.
pub const POLL_INTERVAL_MILLIS: u64 = 50;

/// What a non-blocking wait on the child reported.
#[derive(Clone, Copy, Debug, PartialEq, Eq, Structural)]
pub enum WaitOutcome {
    /// The child has exited; `success` tells whether its status was success.
    Exited { success: bool },
    /// The child is still running.
    Running,
    /// The wait itself failed.
    Failed,
}

/// What to do after a poll.
#[derive(Clone, Copy, Debug, PartialEq, Eq, Structural)]
pub enum ProbeStep {
    /// Read the child's standard output and take the duration from it.
    ReadOutput,
    /// Read the child's standard error and report the failure.
    ReadErrorOutput,
    /// Kill the child: the time limit has passed.
    KillTimedOut,
    /// Sleep this many milliseconds, then poll again.
    Sleep { millis: u64 },
    /// Kill the child: the wait failed.
    KillWaitFailed,
}

/// The step after a poll that reported `outcome`, `elapsed_nanos` after the child
/// started, with a time limit of `timeout_nanos`.
pub open spec fn next_probe_step_spec(outcome: WaitOutcome, elapsed_nanos: u128, timeout_nanos: u128) -> ProbeStep {
    match outcome {
        WaitOutcome::Exited { success } => if success {
            ProbeStep::ReadOutput
        } else {
            ProbeStep::ReadErrorOutput
        },
        WaitOutcome::Running => if elapsed_nanos >= timeout_nanos {
            ProbeStep::KillTimedOut
        } else {
            ProbeStep::Sleep { millis: POLL_INTERVAL_MILLIS }
        },
        WaitOutcome::Failed => ProbeStep::KillWaitFailed,
    }
}

/// The step after a poll that reported `outcome`, `elapsed_nanos` after the child
/// started, with a time limit of `timeout_nanos`.
pub fn next_probe_step(outcome: WaitOutcome, elapsed_nanos: u128, timeout_nanos: u128) -> (step: ProbeStep)
    ensures
        step == next_probe_step_spec(outcome, elapsed_nanos, timeout_nanos),
{
    match outcome {
        WaitOutcome::Exited { success } => {
            if success {
                ProbeStep::ReadOutput
            } else {
                ProbeStep::ReadErrorOutput
            }
        },
        WaitOutcome::Running => {
            if elapsed_nanos >= timeout_nanos {
                ProbeStep::KillTimedOut
            } else {
                ProbeStep::Sleep { millis: POLL_INTERVAL_MILLIS }
            }
        },
        WaitOutcome::Failed => ProbeStep::KillWaitFailed,
    }
}

/// A child that is still running is killed once the time limit has passed, and
/// before that is polled again after a pause of [`POLL_INTERVAL_MILLIS`].
pub proof fn lemma_running_child_bounded_by_timeout(elapsed_nanos: u128, timeout_nanos: u128)
    ensures
        elapsed_nanos >= timeout_nanos ==> next_probe_step_spec(
            WaitOutcome::Running,
            elapsed_nanos,
            timeout_nanos,
        ) == ProbeStep::KillTimedOut,
        elapsed_nanos < timeout_nanos ==> next_probe_step_spec(
            WaitOutcome::Running,
            elapsed_nanos,
            timeout_nanos,
        ) == (ProbeStep::Sleep { millis: POLL_INTERVAL_MILLIS }),
{
}

} // verus!
