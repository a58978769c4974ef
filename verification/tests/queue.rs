use std::collections::HashMap;

use panedeck::entry::EntryKind;
use panedeck::path::NativePath;
use panedeck::plan::{OperationPlan, OperationPlanner, OperationRequest};
use panedeck::probe::{FileIdentity, PathPreflightState, PreflightProbe, ProbeError};
use panedeck::queue::{
    CancellationCheckpoint, DecisionReason, JobEventKind, JobFailureCode, JobProgress, JobQueue,
    JobQueueError, JobState,
};

struct FakeProbe(HashMap<Vec<u8>, PathPreflightState>);

impl PreflightProbe for FakeProbe {
    fn inspect(&self, path: &NativePath) -> Result<Option<PathPreflightState>, ProbeError> {
        Ok(self.0.get(&path.to_bytes()).copied())
    }
}

fn plan(seed: u128) -> OperationPlan {
    let parent = format!("/target-{seed}");
    let state = PathPreflightState {
        identity: Some(FileIdentity {
            volume_id: 1,
            file_id: seed,
        }),
        kind: EntryKind::Directory,
        byte_len: 0,
        is_readable: true,
        is_writable: true,
    };
    let probe = FakeProbe(HashMap::from([(parent.clone().into_bytes(), state)]));
    OperationPlanner
        .plan(
            OperationRequest::CreateDirectory {
                parent: NativePath::new(&parent),
                name: b"new-folder".to_vec(),
            },
            &probe,
        )
        .ok()
        .expect("fixture plan should be valid")
}

#[test]
fn enforces_bounded_concurrency_and_fifo_claiming() {
    let mut queue = JobQueue::new(2);
    let first = queue.enqueue(plan(1)).expect("enqueue");
    let second = queue.enqueue(plan(2)).expect("enqueue");
    let third = queue.enqueue(plan(3)).expect("enqueue");
    assert_eq!(queue.claim_next(), Some(first));
    assert_eq!(queue.claim_next(), Some(second));
    assert_eq!(queue.claim_next(), None);
    queue.mark_validation_succeeded(first).expect("validate");
    queue.mark_completed(first).expect("complete");
    assert_eq!(queue.claim_next(), Some(third));
    assert_eq!(queue.active_jobs(), 2);
}

#[test]
fn supports_explainable_terminal_states() {
    let mut queue = JobQueue::new(3);
    let completed = queue.enqueue(plan(1)).expect("enqueue");
    let partial = queue.enqueue(plan(2)).expect("enqueue");
    let failed = queue.enqueue(plan(3)).expect("enqueue");
    for expected in [completed, partial, failed] {
        assert_eq!(queue.claim_next(), Some(expected));
        queue.mark_validation_succeeded(expected).expect("validate");
    }
    queue.mark_completed(completed).expect("complete");
    queue.mark_partially_failed(partial, 4, 1).expect("partial");
    queue
        .mark_failed(failed, JobFailureCode::Execution)
        .expect("fail");
    assert_eq!(queue.state(completed), Ok(&JobState::Completed));
    assert_eq!(
        queue.state(partial),
        Ok(&JobState::PartiallyFailed {
            completed_items: 4,
            failed_items: 1
        })
    );
    assert_eq!(
        queue.state(failed),
        Ok(&JobState::Failed {
            code: JobFailureCode::Execution
        })
    );
}

#[test]
fn models_decision_wait_and_rejects_invalid_transitions() {
    let mut queue = JobQueue::new(1);
    let id = queue.enqueue(plan(1)).expect("enqueue");
    assert!(matches!(
        queue.mark_completed(id),
        Err(JobQueueError::InvalidTransition { .. })
    ));
    queue.claim_next();
    queue.mark_validation_succeeded(id).expect("validate");
    queue
        .await_decision(id, DecisionReason::Conflict)
        .expect("wait");
    assert_eq!(
        queue.state(id),
        Ok(&JobState::AwaitingDecision {
            reason: DecisionReason::Conflict
        })
    );
    queue.resume_after_decision(id).expect("resume");
    assert_eq!(queue.state(id), Ok(&JobState::Running));
}

#[test]
fn active_cancellation_only_applies_at_a_safe_checkpoint() {
    let mut queue = JobQueue::new(1);
    let id = queue.enqueue(plan(1)).expect("enqueue");
    queue.claim_next();
    queue.mark_validation_succeeded(id).expect("validate");
    queue.request_cancel(id).expect("request cancellation");
    assert_eq!(queue.state(id), Ok(&JobState::Running));
    assert!(queue.cancellation_requested(id).expect("known job"));
    assert_eq!(
        queue.cancellation_checkpoint(id).expect("checkpoint"),
        CancellationCheckpoint::Stop
    );
    assert_eq!(queue.state(id), Ok(&JobState::Cancelled));
    assert_eq!(queue.active_jobs(), 0);
}

#[test]
fn queued_cancellation_never_consumes_a_slot() {
    let mut queue = JobQueue::new(1);
    let cancelled = queue.enqueue(plan(1)).expect("enqueue");
    let next = queue.enqueue(plan(2)).expect("enqueue");
    queue.request_cancel(cancelled).expect("cancel");
    assert_eq!(queue.claim_next(), Some(next));
    assert_eq!(queue.state(cancelled), Ok(&JobState::Cancelled));
}

#[test]
fn validation_failure_releases_the_slot_for_the_next_job() {
    let mut queue = JobQueue::new(1);
    let failed = queue.enqueue(plan(1)).expect("enqueue");
    let next = queue.enqueue(plan(2)).expect("enqueue");
    assert_eq!(queue.claim_next(), Some(failed));
    queue
        .mark_validation_failed(failed)
        .expect("validation failure");

    assert_eq!(
        queue.state(failed),
        Ok(&JobState::Failed {
            code: JobFailureCode::Validation
        })
    );
    assert_eq!(queue.claim_next(), Some(next));
}

#[test]
fn emits_and_validates_progress() {
    let mut queue = JobQueue::new(1);
    let id = queue.enqueue(plan(1)).expect("enqueue");
    queue.claim_next();
    queue.mark_validation_succeeded(id).expect("validate");
    let progress = JobProgress::new(3, 10, 1).expect("valid progress");
    queue.report_progress(id, progress).expect("report");
    assert_eq!(
        JobProgress::new(11, 10, 0),
        Err(JobQueueError::InvalidProgress)
    );
    assert!(queue
        .drain_events()
        .into_iter()
        .any(|event| event.kind == JobEventKind::Progress(progress)));
}

#[test]
fn terminal_jobs_refuse_every_further_transition() {
    let mut queue = JobQueue::new(1);
    let id = queue.enqueue(plan(1)).expect("enqueue");
    queue.claim_next();
    queue.mark_validation_failed(id).expect("fail validation");
    let failed = JobState::Failed { code: JobFailureCode::Validation };
    assert_eq!(
        queue.request_cancel(id),
        Err(JobQueueError::InvalidTransition { from: failed, action: "request cancellation" })
    );
    assert_eq!(
        queue.cancellation_checkpoint(id),
        Err(JobQueueError::InvalidTransition { from: failed, action: "check cancellation" })
    );
    assert_eq!(
        queue.mark_validation_succeeded(id),
        Err(JobQueueError::InvalidTransition { from: failed, action: "start execution" })
    );
    assert_eq!(queue.state(id), Ok(&failed));
    assert_eq!(queue.active_jobs(), 0);
}

#[test]
fn event_sequences_increase_and_draining_empties_the_log() {
    let mut queue = JobQueue::new(1);
    let id = queue.enqueue(plan(1)).expect("enqueue");
    queue.claim_next();
    queue.request_cancel(id).expect("request");
    queue.request_cancel(id).expect("second request records nothing new");
    let events = queue.drain_events();
    let sequences: Vec<u64> = events.iter().map(|event| event.sequence).collect();
    assert_eq!(sequences, vec![1, 2, 3]);
    assert_eq!(events[0].kind, JobEventKind::StateChanged(JobState::Queued));
    assert_eq!(events[1].kind, JobEventKind::StateChanged(JobState::Validating));
    assert_eq!(events[2].kind, JobEventKind::CancellationRequested);
    assert!(queue.drain_events().is_empty());
    assert_eq!(queue.cancellation_checkpoint(id), Ok(CancellationCheckpoint::Stop));
    assert_eq!(queue.drain_events()[0].sequence, 4);
}

#[test]
fn unknown_jobs_and_partial_failures_without_failures_are_errors() {
    let mut queue = JobQueue::new(1);
    let id = queue.enqueue(plan(1)).expect("enqueue");
    let other = {
        let mut scratch = JobQueue::new(1);
        scratch.enqueue(plan(2)).unwrap();
        scratch.enqueue(plan(3)).unwrap()
    };
    assert_eq!(queue.state(other), Err(JobQueueError::UnknownJob));
    assert_eq!(queue.mark_partially_failed(id, 3, 0), Err(JobQueueError::InvalidProgress));
    assert_eq!(queue.cancellation_requested(other), Err(JobQueueError::UnknownJob));
    assert!(queue.plan(id).is_ok());
    assert!(JobState::Cancelled.is_terminal());
    assert!(!JobState::Running.is_terminal());
}

#[test]
fn events_are_numbered_in_recording_order_across_drains() {
    let mut queue = JobQueue::new(1);
    queue.enqueue(plan(1)).expect("enqueue");
    queue.enqueue(plan(2)).expect("enqueue");
    let first: Vec<u64> = queue.drain_events().into_iter().map(|event| event.sequence).collect();
    assert_eq!(first, vec![1, 2]);
    assert!(queue.drain_events().is_empty());
    queue.claim_next();
    let second: Vec<u64> = queue.drain_events().into_iter().map(|event| event.sequence).collect();
    assert_eq!(second, vec![3]);
}
