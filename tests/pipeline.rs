use telemetry_export::error::Error;
use telemetry_export::pipeline::{
    export_step, shutdown_should_wait, submit_result, Action, Failure, Phase, SubmitError, Target, TrySendOutcome,
};

#[test]
fn full_queue_rejects_without_counting() {
    assert_eq!(submit_result(TrySendOutcome::Full), (Err(SubmitError::QueueFull), false));
}

#[test]
fn accepted_batch_counts_as_pending() {
    assert_eq!(submit_result(TrySendOutcome::Accepted), (Ok(()), true));
}

#[test]
fn closed_queue_rejects_without_counting() {
    assert_eq!(submit_result(TrySendOutcome::Disconnected), (Err(SubmitError::Disconnected), false));
}

#[test]
fn shutdown_with_nothing_pending_returns_at_once() {
    assert!(!shutdown_should_wait(0, 5_000_000_000, 0));
}

#[test]
fn shutdown_waits_for_pending_work_until_deadline() {
    assert!(shutdown_should_wait(1, 5_000_000_000, 3));
    assert!(shutdown_should_wait(4_999_999_999, 5_000_000_000, 1));
    assert!(!shutdown_should_wait(5_000_000_000, 5_000_000_000, 3));
    assert!(!shutdown_should_wait(7_000_000_000, 5_000_000_000, 3));
}

#[test]
fn failing_authorizer_releases_pending_and_never_sends() {
    let mut pending: usize = 0;
    let (result, count) = submit_result(TrySendOutcome::Accepted);
    assert!(result.is_ok());
    if count {
        pending += 1;
    }
    assert_eq!(pending, 1);
    let mut phase = Phase::Encoded;
    let mut reports = vec![];
    for _ in 0..4 {
        let step = export_step(phase, false, false);
        assert!(!matches!(step.action, Action::Send(_)));
        if step.release_pending {
            pending -= 1;
        }
        if let Some(f) = step.report {
            reports.push(f);
        }
        phase = step.next;
    }
    assert_eq!(pending, 0);
    assert_eq!(phase, Phase::Done);
    assert_eq!(reports, vec![Failure::Authorization(Target::Traces)]);
}

#[test]
fn successful_export_with_logs_goes_through_both_requests() {
    let mut phase = Phase::Encoded;
    let mut actions = vec![];
    let mut releases = 0;
    loop {
        let step = export_step(phase, true, true);
        actions.push(step.action);
        if step.release_pending {
            releases += 1;
        }
        phase = step.next;
        if step.action == Action::Finish {
            break;
        }
    }
    assert_eq!(releases, 1);
    assert_eq!(
        actions,
        vec![
            Action::Authorize(Target::Traces),
            Action::Send(Target::Traces),
            Action::Authorize(Target::Logs),
            Action::Send(Target::Logs),
            Action::Finish,
        ]
    );
}

#[test]
fn transport_failure_is_reported_and_log_request_still_runs() {
    let step = export_step(Phase::Sending(Target::Traces), true, false);
    assert_eq!(step.report, Some(Failure::Transport(Target::Traces)));
    assert_eq!(step.action, Action::Authorize(Target::Logs));
    assert!(!step.release_pending);
}

#[test]
fn failures_become_exporter_errors() {
    let e = Error::from_failure(Failure::Authorization(Target::Traces), "no token".to_string());
    assert_eq!(e, Error::Authorizer("no token".to_string()));
    assert_eq!(e.exporter_name(), "stackdriver");
    let t = Error::from_failure(Failure::Transport(Target::Logs), "unavailable".to_string());
    assert_eq!(t, Error::Transport("unavailable".to_string()));
}

#[test]
fn pending_is_released_only_when_the_export_ends() {
    assert!(!export_step(Phase::Encoded, false, true).release_pending);
    assert!(!export_step(Phase::Authorizing(Target::Traces), false, true).release_pending);
    let last = export_step(Phase::Sending(Target::Traces), false, true);
    assert!(last.release_pending);
    assert_eq!(last.action, Action::Finish);
    assert!(!export_step(Phase::Sending(Target::Traces), true, true).release_pending);
    assert!(export_step(Phase::Sending(Target::Logs), true, false).release_pending);
    assert!(!export_step(Phase::Done, true, true).release_pending);
}
