use std::time::Duration;

use panedeck::queue::{JobEvent, JobEventKind, JobId, JobProgress, JobState};
use panedeck::throttle::FrontendEventThrottle;

fn nanos(duration: Duration) -> u64 {
    duration.as_nanos() as u64
}

fn id(value: u64) -> JobId {
    JobId::from_raw(value).expect("non-zero")
}

fn progress(sequence: u64, completed: u64) -> JobEvent {
    JobEvent {
        sequence,
        job_id: id(1),
        kind: JobEventKind::Progress(JobProgress::new(completed, 10, 0).expect("valid progress")),
    }
}

#[test]
fn coalesces_progress_until_the_interval_elapses() {
    let start = 1_000_000_000u64;
    let mut throttle = FrontendEventThrottle::new(nanos(Duration::from_millis(100)));
    throttle.push(progress(1, 1), start);
    throttle.push(progress(2, 2), start + nanos(Duration::from_millis(10)));
    throttle.push(progress(3, 3), start + nanos(Duration::from_millis(20)));
    assert_eq!(throttle.drain_ready().len(), 1);

    throttle.flush_due(start + nanos(Duration::from_millis(100)));
    assert_eq!(throttle.drain_ready(), vec![progress(3, 3)]);
}

#[test]
fn terminal_event_flushes_latest_progress_and_is_never_dropped() {
    let start = 1_000_000_000u64;
    let mut throttle = FrontendEventThrottle::new(nanos(Duration::from_secs(1)));
    throttle.push(progress(1, 1), start);
    throttle.drain_ready();
    throttle.push(progress(2, 10), start + nanos(Duration::from_millis(10)));
    let terminal = JobEvent {
        sequence: 3,
        job_id: id(1),
        kind: JobEventKind::StateChanged(JobState::Completed),
    };
    throttle.push(terminal.clone(), start + nanos(Duration::from_millis(20)));

    assert_eq!(throttle.drain_ready(), vec![progress(2, 10), terminal]);
}

#[test]
fn state_changes_bypass_progress_throttling() {
    let now = 1_000_000_000u64;
    let mut throttle = FrontendEventThrottle::new(nanos(Duration::from_secs(1)));
    let state = JobEvent {
        sequence: 1,
        job_id: id(1),
        kind: JobEventKind::StateChanged(JobState::Running),
    };
    throttle.push(state.clone(), now);
    assert_eq!(throttle.drain_ready(), vec![state]);
}

#[test]
fn released_samples_come_out_by_sequence_then_job() {
    let mut throttle = FrontendEventThrottle::new(100);
    let sample = |sequence: u64, job: u64| JobEvent {
        sequence,
        job_id: id(job),
        kind: JobEventKind::Progress(JobProgress::new(1, 2, 0).unwrap()),
    };
    for job in [3, 1, 2] {
        throttle.push(sample(job, job), 0);
    }
    throttle.drain_ready();
    throttle.push(sample(9, 3), 10);
    throttle.push(sample(7, 1), 10);
    throttle.push(sample(7, 2), 10);
    throttle.flush_due(50);
    assert!(throttle.drain_ready().is_empty());
    throttle.flush_due(100);
    assert_eq!(throttle.drain_ready(), vec![sample(7, 1), sample(7, 2), sample(9, 3)]);
    throttle.flush_due(1_000);
    assert!(throttle.drain_ready().is_empty());
}

#[test]
fn cancellation_requests_and_clock_steps_backwards_are_handled() {
    let mut throttle = FrontendEventThrottle::new(100);
    let cancel = JobEvent { sequence: 5, job_id: id(4), kind: JobEventKind::CancellationRequested };
    throttle.push(cancel.clone(), 0);
    throttle.push(progress(6, 1), 500);
    throttle.push(progress(7, 2), 400);
    assert_eq!(throttle.drain_ready(), vec![cancel, progress(6, 1)]);
    throttle.flush_due(650);
    assert_eq!(throttle.drain_ready(), vec![progress(7, 2)]);
}
