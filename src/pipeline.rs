//! Decisions of the submission queue, of the export of one dequeued batch, and
//! of the shutdown drain. The runtime that owns the queue, the pending counter
//! and the network performs what these decide.
use vstd::prelude::*;

verus! {

/// What the bounded queue answered to a non-blocking offer of a batch.
#[derive(Clone, Copy, Debug, PartialEq, Eq)]
pub enum TrySendOutcome {
    Accepted,
    Full,
    Disconnected,
}

/// Why a batch was not accepted for export.
#[derive(Clone, Copy, Debug, PartialEq, Eq)]
pub enum SubmitError {
    QueueFull,
    Disconnected,
}

/// The result that the producer sees for an offer, and whether the pending
/// count goes up by one.
pub open spec fn submit_spec(outcome: TrySendOutcome) -> (Result<(), SubmitError>, bool) {
    match outcome {
        TrySendOutcome::Accepted => (Ok(()), true),
        TrySendOutcome::Full => (Err(SubmitError::QueueFull), false),
        TrySendOutcome::Disconnected => (Err(SubmitError::Disconnected), false),
    }
}

/// Decides what a submission returns once the queue has answered: success
/// and one more pending batch when it accepted the batch, else the matching
/// error and no change of the count.
pub fn submit_result(outcome: TrySendOutcome) -> (r: (Result<(), SubmitError>, bool))
    ensures
        r == submit_spec(outcome),
{
    match outcome {
        TrySendOutcome::Accepted => (Ok(()), true),
        TrySendOutcome::Full => (Err(SubmitError::QueueFull), false),
        TrySendOutcome::Disconnected => (Err(SubmitError::Disconnected), false),
    }
}

/// The pending count after a submission whose queue answered `outcome`.
pub open spec fn pending_after_submit(pending: int, outcome: TrySendOutcome) -> int {
    if submit_spec(outcome).1 {
        pending + 1
    } else {
        pending
    }
}

/// A saturated queue makes a submission fail with `QueueFull` and leaves the
/// pending count unchanged.
pub proof fn lemma_full_queue_rejects(pending: int)
    ensures
        submit_spec(TrySendOutcome::Full).0 == Err::<(), SubmitError>(SubmitError::QueueFull),
        pending_after_submit(pending, TrySendOutcome::Full) == pending,
{
}

/// Whether the shutdown drain keeps waiting: while work is pending and the
/// deadline has not passed.
pub open spec fn shutdown_wait_spec(elapsed_nanos: u128, max_nanos: u128, pending: usize) -> bool {
    elapsed_nanos < max_nanos && pending > 0
}

/// Decides, at one poll of the shutdown drain, whether to keep waiting.
pub fn shutdown_should_wait(elapsed_nanos: u128, max_nanos: u128, pending: usize) -> (r: bool)
    ensures
        r == shutdown_wait_spec(elapsed_nanos, max_nanos, pending),
{
    elapsed_nanos < max_nanos && pending > 0
}

/// The shutdown drain stops at its first poll when nothing is pending, keeps
/// waiting for pending work before the deadline, and stops once the deadline
/// has passed, whatever is pending.
pub proof fn lemma_shutdown_bounded(elapsed_nanos: u128, max_nanos: u128, pending: usize)
    ensures
        pending == 0 ==> !shutdown_wait_spec(elapsed_nanos, max_nanos, pending),
        pending > 0 && elapsed_nanos < max_nanos ==> shutdown_wait_spec(elapsed_nanos, max_nanos, pending),
        elapsed_nanos >= max_nanos ==> !shutdown_wait_spec(elapsed_nanos, max_nanos, pending),
{
}

/// Which request of a batch an action concerns.
#[derive(Clone, Copy, Debug, PartialEq, Eq)]
pub enum Target {
    Traces,
    Logs,
}

/// Where the export of one dequeued, encoded batch stands.
#[derive(Clone, Copy, Debug, PartialEq, Eq)]
pub enum Phase {
    Encoded,
    Authorizing(Target),
    Sending(Target),
    Done,
}

/// What the runtime does next for the batch.
#[derive(Clone, Copy, Debug, PartialEq, Eq)]
pub enum Action {
    Authorize(Target),
    Send(Target),
    Finish,
}

/// A failure to report; it ends that request, never the worker pool.
#[derive(Clone, Copy, Debug, PartialEq, Eq)]
pub enum Failure {
    Authorization(Target),
    Transport(Target),
}

/// One transition of a batch's export.
#[derive(Clone, Copy, Debug, PartialEq, Eq)]
pub struct Step {
    pub next: Phase,
    pub action: Action,
    pub report: Option<Failure>,
    /// The batch stops counting as pending.
    pub release_pending: bool,
}

/// The step after the traces request is done: the log request when the batch
/// carries log entries, else the end.
pub open spec fn after_traces(has_logs: bool, report: Option<Failure>) -> Step {
    if has_logs {
        Step { next: Phase::Authorizing(Target::Logs), action: Action::Authorize(Target::Logs), report, release_pending: false }
    } else {
        Step { next: Phase::Done, action: Action::Finish, report, release_pending: true }
    }
}

/// The transition from `phase` once the last action ended with `succeeded`:
/// an encoded batch has its traces request authorized; an authorized request
/// is sent; a request that failed to be authorized is reported and not sent;
/// after the traces request comes the log request, if any; then the export is
/// done, and only on that last step, once every authorization and send of the
/// batch has ended, does the batch stop counting as pending.
pub open spec fn step_spec(phase: Phase, has_logs: bool, succeeded: bool) -> Step {
    match phase {
        Phase::Encoded => Step {
            next: Phase::Authorizing(Target::Traces),
            action: Action::Authorize(Target::Traces),
            report: None,
            release_pending: false,
        },
        Phase::Authorizing(t) => if succeeded {
            Step { next: Phase::Sending(t), action: Action::Send(t), report: None, release_pending: false }
        } else {
            match t {
                Target::Traces => after_traces(has_logs, Some(Failure::Authorization(t))),
                Target::Logs => Step {
                    next: Phase::Done,
                    action: Action::Finish,
                    report: Some(Failure::Authorization(t)),
                    release_pending: true,
                },
            }
        },
        Phase::Sending(t) => {
            let report = if succeeded { None } else { Some(Failure::Transport(t)) };
            match t {
                Target::Traces => after_traces(has_logs, report),
                Target::Logs => Step { next: Phase::Done, action: Action::Finish, report, release_pending: true },
            }
        },
        Phase::Done => Step { next: Phase::Done, action: Action::Finish, report: None, release_pending: false },
    }
}

/// Decides the next step of a batch's export.
pub fn export_step(phase: Phase, has_logs: bool, succeeded: bool) -> (r: Step)
    ensures
        r == step_spec(phase, has_logs, succeeded),
{
    match phase {
        Phase::Encoded => Step {
            next: Phase::Authorizing(Target::Traces),
            action: Action::Authorize(Target::Traces),
            report: None,
            release_pending: false,
        },
        Phase::Authorizing(t) => if succeeded {
            Step { next: Phase::Sending(t), action: Action::Send(t), report: None, release_pending: false }
        } else {
            match t {
                Target::Traces => if has_logs {
                    Step {
                        next: Phase::Authorizing(Target::Logs),
                        action: Action::Authorize(Target::Logs),
                        report: Some(Failure::Authorization(t)),
                        release_pending: false,
                    }
                } else {
                    Step { next: Phase::Done, action: Action::Finish, report: Some(Failure::Authorization(t)), release_pending: true }
                },
                Target::Logs => Step {
                    next: Phase::Done,
                    action: Action::Finish,
                    report: Some(Failure::Authorization(t)),
                    release_pending: true,
                },
            }
        },
        Phase::Sending(t) => {
            let report = if succeeded { None } else { Some(Failure::Transport(t)) };
            match t {
                Target::Traces => if has_logs {
                    Step {
                        next: Phase::Authorizing(Target::Logs),
                        action: Action::Authorize(Target::Logs),
                        report,
                        release_pending: false,
                    }
                } else {
                    Step { next: Phase::Done, action: Action::Finish, report, release_pending: true }
                },
                Target::Logs => Step { next: Phase::Done, action: Action::Finish, report, release_pending: true },
            }
        },
        Phase::Done => Step { next: Phase::Done, action: Action::Finish, report: None, release_pending: false },
    }
}

/// A step releases the pending count exactly when it ends an export that
/// was not already done: after the last authorization or send of the batch.
pub proof fn lemma_release_only_at_end(phase: Phase, has_logs: bool, succeeded: bool)
    ensures
        step_spec(phase, has_logs, succeeded).release_pending <==> (step_spec(phase, has_logs, succeeded).action is Finish
            && !(phase is Done)),
        !(step_spec(Phase::Encoded, has_logs, succeeded).release_pending),
{
}

/// The steps of a batch's export from `phase` when every action ends as
/// `outcomes` says, one outcome for each step.
pub open spec fn run_steps(phase: Phase, has_logs: bool, outcomes: Seq<bool>) -> Seq<Step>
    decreases outcomes.len(),
{
    if outcomes.len() == 0 {
        Seq::empty()
    } else {
        let s = step_spec(phase, has_logs, outcomes[0]);
        seq![s] + run_steps(s.next, has_logs, outcomes.drop_first())
    }
}

/// The number of steps that release the pending count.
pub open spec fn releases(steps: Seq<Step>) -> int
    decreases steps.len(),
{
    if steps.len() == 0 {
        0
    } else {
        (if steps[0].release_pending { 1int } else { 0int }) + releases(steps.drop_first())
    }
}

/// Once a submission has counted a batch as pending, an export whose
/// authorization always fails reports the failure, never sends the traces
/// request (nor a log request), and, once driven to its end, brings the count
/// back where it was (to zero from zero), on its last step only.
pub proof fn lemma_failed_authorization_releases(pending: int, has_logs: bool, outcomes: Seq<bool>)
    requires
        forall|i: int| 0 <= i < outcomes.len() ==> !#[trigger] outcomes[i],
        outcomes.len() >= 3,
    ensures
        pending_after_submit(pending, TrySendOutcome::Accepted) - releases(
            run_steps(Phase::Encoded, has_logs, outcomes),
        ) == pending,
        forall|i: int|
            0 <= i < outcomes.len() ==> !(#[trigger] run_steps(Phase::Encoded, has_logs, outcomes)[i].action is Send),
        forall|i: int|
            0 <= i < outcomes.len() && (#[trigger] run_steps(Phase::Encoded, has_logs, outcomes)[i]).release_pending
                ==> run_steps(Phase::Encoded, has_logs, outcomes)[i].action is Finish,
        run_steps(Phase::Encoded, has_logs, outcomes)[1].report == Some(Failure::Authorization(Target::Traces)),
{
    lemma_failing_steps(Phase::Encoded, has_logs, outcomes);
    let rest = outcomes.drop_first();
    assert(rest[0] == outcomes[1]);
    let first = step_spec(Phase::Encoded, has_logs, outcomes[0]);
    let tail = run_steps(first.next, has_logs, rest);
    assert(run_steps(Phase::Encoded, has_logs, outcomes) == seq![first] + tail);
    assert(tail[0] == step_spec(Phase::Authorizing(Target::Traces), has_logs, rest[0]));
    assert(run_steps(Phase::Encoded, has_logs, outcomes)[1] == tail[0]);
}

/// How many failing steps take an export from `phase` to its end.
spec fn failing_steps_to_finish(phase: Phase, has_logs: bool) -> int {
    let logs: int = if has_logs { 1 } else { 0 };
    match phase {
        Phase::Encoded => 2 + logs,
        Phase::Authorizing(Target::Traces) => 1 + logs,
        Phase::Authorizing(Target::Logs) => 1,
        _ => 0,
    }
}

/// Driving an export whose actions all fail: nothing is sent, only a
/// finishing step releases the count, and it is released once if the export
/// reaches its end, never otherwise.
proof fn lemma_failing_steps(phase: Phase, has_logs: bool, outcomes: Seq<bool>)
    requires
        forall|i: int| 0 <= i < outcomes.len() ==> !#[trigger] outcomes[i],
        !(phase is Sending),
    ensures
        forall|i: int|
            0 <= i < outcomes.len() ==> !(#[trigger] run_steps(phase, has_logs, outcomes)[i].action is Send),
        forall|i: int|
            0 <= i < outcomes.len() && (#[trigger] run_steps(phase, has_logs, outcomes)[i]).release_pending
                ==> run_steps(phase, has_logs, outcomes)[i].action is Finish,
        run_steps(phase, has_logs, outcomes).len() == outcomes.len(),
        releases(run_steps(phase, has_logs, outcomes)) == if !(phase is Done) && outcomes.len()
            >= failing_steps_to_finish(phase, has_logs) {
            1int
        } else {
            0int
        },
    decreases outcomes.len(),
{
    if outcomes.len() > 0 {
        let s = step_spec(phase, has_logs, outcomes[0]);
        let rest = outcomes.drop_first();
        assert forall|i: int| 0 <= i < rest.len() implies !#[trigger] rest[i] by {
            assert(rest[i] == outcomes[i + 1]);
        }
        lemma_failing_steps(s.next, has_logs, rest);
        let all = run_steps(phase, has_logs, outcomes);
        assert(all == seq![s] + run_steps(s.next, has_logs, rest));
        assert(all.drop_first() == run_steps(s.next, has_logs, rest));
        assert forall|i: int| 0 <= i < outcomes.len() implies !(#[trigger] all[i].action is Send) by {
            if i > 0 {
                assert(all[i] == run_steps(s.next, has_logs, rest)[i - 1]);
            }
        }
        assert forall|i: int| 0 <= i < outcomes.len() && (#[trigger] all[i]).release_pending implies all[i].action is Finish by {
            if i > 0 {
                assert(all[i] == run_steps(s.next, has_logs, rest)[i - 1]);
            }
        }
    }
}

} // verus!
