use quill::probe::{next_probe_step, ProbeStep, WaitOutcome, POLL_INTERVAL_MILLIS};

#[test]
fn exited_child() {
    assert_eq!(next_probe_step(WaitOutcome::Exited { success: true }, 0, 5), ProbeStep::ReadOutput);
    assert_eq!(next_probe_step(WaitOutcome::Exited { success: false }, 99, 5), ProbeStep::ReadErrorOutput);
}

#[test]
fn running_child_waits_until_timeout() {
    assert_eq!(next_probe_step(WaitOutcome::Running, 4, 5), ProbeStep::Sleep { millis: 50 });
    assert_eq!(POLL_INTERVAL_MILLIS, 50);
    assert_eq!(next_probe_step(WaitOutcome::Running, 5, 5), ProbeStep::KillTimedOut);
    assert_eq!(next_probe_step(WaitOutcome::Running, 6, 5), ProbeStep::KillTimedOut);
}

#[test]
fn failed_wait() {
    assert_eq!(next_probe_step(WaitOutcome::Failed, 0, 5), ProbeStep::KillWaitFailed);
}
