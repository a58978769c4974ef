//! A bounded, first-in first-out queue of operation plans, with the life
//! cycle of each job as a state machine.

use vstd::prelude::*;

use crate::plan::{OperationPlan, PlanModel};

verus! {

/// Identifies a job. Never zero.
#[derive(Clone, Copy, Debug, PartialEq, Eq, Structural, Hash, PartialOrd, Ord)]
pub struct JobId(u64);

impl View for JobId {
    type V = u64;

    closed spec fn view(&self) -> u64 {
        self.0
    }
}

impl JobId {
    #[verifier::type_invariant]
    closed spec fn non_zero(self) -> bool {
        self.0 != 0
    }

    /// The identifier with this value; `None` for zero.
    pub fn from_raw(value: u64) -> (id: Option<Self>)
        ensures
            id is Some <==> value != 0,
            id matches Some(i) ==> i@ == value,
    {
        if value == 0 {
            None
        } else {
            Some(JobId(value))
        }
    }

    pub fn get(self) -> (value: u64)
        ensures
            value == self@,
            value != 0,
    {
        proof {
            use_type_invariant(self);
        }
        self.0
    }

    /// Two identifiers are equal exactly when their values are.
    pub proof fn lemma_view_injective(self, other: Self)
        ensures
            (self == other) <==> (self@ == other@),
    {
    }
}

#[derive(Clone, Copy, Debug, PartialEq, Eq, Structural)]
pub enum DecisionReason {
    Conflict,
    ExternalChange,
}

#[derive(Clone, Copy, Debug, PartialEq, Eq, Structural)]
pub enum JobFailureCode {
    Validation,
    Execution,
    DecisionRejected,
}

#[derive(Clone, Copy, Debug, PartialEq, Eq, Structural)]
pub enum JobState {
    Queued,
    Validating,
    Running,
    AwaitingDecision { reason: DecisionReason },
    Completed,
    PartiallyFailed { completed_items: u64, failed_items: u64 },
    Failed { code: JobFailureCode },
    Cancelled,
}

/// A job in one of these states holds an execution slot.
pub open spec fn is_active_state(state: JobState) -> bool {
    state is Validating || state is Running || state is AwaitingDecision
}

/// No transition leaves these states.
pub open spec fn is_terminal_state(state: JobState) -> bool {
    state is Completed || state is PartiallyFailed || state is Failed || state is Cancelled
}

impl JobState {
    pub fn is_terminal(&self) -> (terminal: bool)
        ensures
            terminal == is_terminal_state(*self),
    {
        match self {
            JobState::Completed | JobState::PartiallyFailed { .. } | JobState::Failed { .. }
            | JobState::Cancelled => true,
            _ => false,
        }
    }
}

#[derive(Clone, Copy, Debug, PartialEq, Eq, Structural)]
pub struct JobProgress {
    completed_units: u64,
    total_units: u64,
    failed_items: u64,
}

impl View for JobProgress {
    type V = (u64, u64, u64);

    closed spec fn view(&self) -> (u64, u64, u64) {
        (self.completed_units, self.total_units, self.failed_items)
    }
}

impl JobProgress {
    /// Progress of `completed_units` out of `total_units`; more completed than
    /// total is refused.
    pub fn new(completed_units: u64, total_units: u64, failed_items: u64) -> (progress: Result<
        Self,
        JobQueueError,
    >)
        ensures
            progress is Err <==> completed_units > total_units,
            progress matches Err(e) ==> e == JobQueueError::InvalidProgress,
            progress matches Ok(p) ==> p@ == (completed_units, total_units, failed_items),
    {
        if completed_units > total_units {
            return Err(JobQueueError::InvalidProgress);
        }
        Ok(JobProgress { completed_units, total_units, failed_items })
    }

    pub fn completed_units(self) -> (units: u64)
        ensures
            units == self@.0,
    {
        self.completed_units
    }

    pub fn total_units(self) -> (units: u64)
        ensures
            units == self@.1,
    {
        self.total_units
    }

    pub fn failed_items(self) -> (items: u64)
        ensures
            items == self@.2,
    {
        self.failed_items
    }
}

#[derive(Clone, Copy, Debug, PartialEq, Eq, Structural)]
pub enum JobEventKind {
    StateChanged(JobState),
    Progress(JobProgress),
    CancellationRequested,
}

#[derive(Clone, Copy, Debug, PartialEq, Eq, Structural)]
pub struct JobEvent {
    pub sequence: u64,
    pub job_id: JobId,
    pub kind: JobEventKind,
}

#[derive(Clone, Copy, Debug, PartialEq, Eq, Structural)]
pub enum CancellationCheckpoint {
    Continue,
    Stop,
}

#[derive(Clone, Copy, Debug, PartialEq, Eq)]
pub enum JobQueueError {
    UnknownJob,
    InvalidTransition { from: JobState, action: &'static str },
    InvalidProgress,
    IdentifierExhausted,
}

/// The coarse state a transition is allowed from.
#[derive(Clone, Copy, Debug, PartialEq, Eq, Structural)]
pub enum JobStateTag {
    Queued,
    Validating,
    Running,
    AwaitingDecision,
    Terminal,
}

pub open spec fn tag_of(state: JobState) -> JobStateTag {
    match state {
        JobState::Queued => JobStateTag::Queued,
        JobState::Validating => JobStateTag::Validating,
        JobState::Running => JobStateTag::Running,
        JobState::AwaitingDecision { .. } => JobStateTag::AwaitingDecision,
        _ => JobStateTag::Terminal,
    }
}

fn tag_of_state(state: &JobState) -> (tag: JobStateTag)
    ensures
        tag == tag_of(*state),
{
    match state {
        JobState::Queued => JobStateTag::Queued,
        JobState::Validating => JobStateTag::Validating,
        JobState::Running => JobStateTag::Running,
        JobState::AwaitingDecision { .. } => JobStateTag::AwaitingDecision,
        _ => JobStateTag::Terminal,
    }
}

/// One job: its state and whether cancellation was asked for.
pub struct JobModel {
    pub state: JobState,
    pub cancellation_requested: bool,
}

/// The queue: its slot limit and the slots in use, the next event sequence
/// number, the identifiers still waiting in order, the jobs (job `i` has
/// identifier `i + 1`), their plans, and the events not yet drained as
/// (sequence, job identifier, kind), with how many events were ever
/// recorded.
pub struct QueueModel {
    pub max_concurrency: usize,
    pub active_jobs: usize,
    pub next_sequence: u64,
    pub pending: Seq<u64>,
    pub jobs: Seq<JobModel>,
    pub plans: Seq<PlanModel>,
    pub events: Seq<(u64, u64, JobEventKind)>,
    pub emitted: nat,
}

/// How many jobs hold a slot.
pub open spec fn count_active(jobs: Seq<JobModel>) -> nat
    decreases jobs.len(),
{
    if jobs.len() == 0 {
        0
    } else {
        count_active(jobs.drop_last()) + if is_active_state(jobs.last().state) {
            1nat
        } else {
            0nat
        }
    }
}

pub open spec fn known_job(queue: QueueModel, id: u64) -> bool {
    1 <= id <= queue.jobs.len()
}

pub open spec fn state_of_job(queue: QueueModel, id: u64) -> JobState {
    queue.jobs[id - 1].state
}

/// Events carry increasing sequence numbers below the next one; once the
/// counter saturates, the maximum repeats.
pub open spec fn events_sequenced(events: Seq<(u64, u64, JobEventKind)>, next_sequence: u64) -> bool {
    &&& forall|i: int|
        0 <= i < events.len() ==> (#[trigger] events[i]).0 < next_sequence || (events[i].0
            == u64::MAX && next_sequence == u64::MAX)
    &&& forall|i: int, j: int|
        0 <= i < j < events.len() ==> (#[trigger] events[i]).0 < (#[trigger] events[j]).0 || events[j].0
            == u64::MAX
}

/// The sequence number of the `n`-th event ever recorded: `n`, held at the
/// end of the counter.
pub open spec fn event_number(n: int) -> u64 {
    if n >= u64::MAX {
        u64::MAX
    } else {
        n as u64
    }
}

/// Events are numbered by the order in which they were recorded: of
/// `emitted` events so far, the pending ones are the last, and the next one
/// will be number `emitted + 1`.
pub open spec fn events_numbered(events: Seq<(u64, u64, JobEventKind)>, emitted: nat, next_sequence: u64) -> bool {
    &&& events.len() <= emitted
    &&& next_sequence == event_number(emitted + 1int)
    &&& forall|i: int|
        0 <= i < events.len() ==> (#[trigger] events[i]).0 == event_number(emitted - events.len() + i + 1)
}

/// The invariant every queue keeps.
pub open spec fn queue_well_formed(queue: QueueModel) -> bool {
    &&& queue.max_concurrency > 0
    &&& queue.jobs.len() < u64::MAX
    &&& queue.plans.len() == queue.jobs.len()
    &&& queue.active_jobs == count_active(queue.jobs)
    &&& queue.active_jobs <= queue.max_concurrency
    &&& forall|i: int| 0 <= i < queue.pending.len() ==> known_job(queue, #[trigger] queue.pending[i])
    &&& forall|i: int|
        0 <= i < queue.jobs.len() && (#[trigger] queue.jobs[i]).state == JobState::Queued
            ==> queue.pending.contains((i + 1) as u64)
    &&& forall|i: int| 0 <= i < queue.events.len() ==> known_job(queue, (#[trigger] queue.events[i]).1)
    &&& events_sequenced(queue.events, queue.next_sequence)
    &&& events_numbered(queue.events, queue.emitted, queue.next_sequence)
}

pub open spec fn next_sequence_after(sequence: u64) -> u64 {
    if sequence == u64::MAX {
        u64::MAX
    } else {
        (sequence + 1) as u64
    }
}

/// The queue after recording an event for job `id`.
pub open spec fn emit_model(queue: QueueModel, id: u64, kind: JobEventKind) -> QueueModel {
    QueueModel {
        events: queue.events.push((queue.next_sequence, id, kind)),
        next_sequence: next_sequence_after(queue.next_sequence),
        emitted: queue.emitted + 1,
        ..queue
    }
}

pub open spec fn set_job_model(queue: QueueModel, id: u64, job: JobModel) -> QueueModel {
    QueueModel { jobs: queue.jobs.update(id - 1, job), ..queue }
}

pub open spec fn with_state(queue: QueueModel, id: u64, state: JobState) -> QueueModel {
    set_job_model(
        queue,
        id,
        JobModel { state, cancellation_requested: queue.jobs[id - 1].cancellation_requested },
    )
}

/// One slot fewer in use, never below zero.
pub open spec fn release_slot(active_jobs: usize) -> usize {
    if active_jobs == 0 {
        0
    } else {
        (active_jobs - 1) as usize
    }
}

/// Moves job `id` from an allowed state to `next` and records the change;
/// `frees_slot` gives its slot back.
pub open spec fn transition_model(
    queue: QueueModel,
    id: u64,
    allowed: Seq<JobStateTag>,
    next: JobState,
    action: &'static str,
    frees_slot: bool,
) -> Result<QueueModel, JobQueueError> {
    if !known_job(queue, id) {
        Err(JobQueueError::UnknownJob)
    } else if !allowed.contains(tag_of(state_of_job(queue, id))) {
        Err(JobQueueError::InvalidTransition { from: state_of_job(queue, id), action })
    } else {
        let moved = emit_model(with_state(queue, id, next), id, JobEventKind::StateChanged(next));
        if frees_slot {
            Ok(QueueModel { active_jobs: release_slot(moved.active_jobs), ..moved })
        } else {
            Ok(moved)
        }
    }
}

/// A queue operation ended as `outcome` describes: on success the queue is
/// the new one, on failure it is unchanged.
pub open spec fn applied(
    before: QueueModel,
    after: QueueModel,
    result: Result<(), JobQueueError>,
    outcome: Result<QueueModel, JobQueueError>,
) -> bool {
    match result {
        Ok(_) => outcome == Ok::<QueueModel, JobQueueError>(after),
        Err(error) => outcome == Err::<QueueModel, JobQueueError>(error) && after == before,
    }
}

proof fn lemma_count_update(jobs: Seq<JobModel>, index: int, job: JobModel)
    requires
        0 <= index < jobs.len(),
    ensures
        count_active(jobs.update(index, job)) + (if is_active_state(jobs[index].state) {
            1int
        } else {
            0int
        }) == count_active(jobs) + (if is_active_state(job.state) {
            1int
        } else {
            0int
        }),
    decreases jobs.len(),
{
    let updated = jobs.update(index, job);
    if index == jobs.len() - 1 {
        assert(updated.drop_last() =~= jobs.drop_last());
    } else {
        lemma_count_update(jobs.drop_last(), index, job);
        assert(updated.drop_last() =~= jobs.drop_last().update(index, job));
    }
}

proof fn lemma_count_positive(jobs: Seq<JobModel>, index: int)
    requires
        0 <= index < jobs.len(),
        is_active_state(jobs[index].state),
    ensures
        count_active(jobs) > 0,
    decreases jobs.len(),
{
    if index < jobs.len() - 1 {
        lemma_count_positive(jobs.drop_last(), index);
    }
}

proof fn lemma_emit_sequenced(events: Seq<(u64, u64, JobEventKind)>, next_sequence: u64, id: u64, kind: JobEventKind)
    requires
        events_sequenced(events, next_sequence),
    ensures
        events_sequenced(events.push((next_sequence, id, kind)), next_sequence_after(next_sequence)),
{
    let pushed = events.push((next_sequence, id, kind));
    let next = next_sequence_after(next_sequence);
    assert forall|i: int| 0 <= i < pushed.len() implies (#[trigger] pushed[i]).0 < next || (pushed[i].0
        == u64::MAX && next == u64::MAX) by {
        if i < events.len() {
            assert(pushed[i] == events[i]);
        }
    }
    assert forall|i: int, j: int| 0 <= i < j < pushed.len() implies (#[trigger] pushed[i]).0 < (
    #[trigger] pushed[j]).0 || pushed[j].0 == u64::MAX by {
        assert(pushed[i] == events[i]);
        if j < events.len() {
            assert(pushed[j] == events[j]);
        }
    }
}

/// Recording an event keeps a queue well formed.
proof fn lemma_emit_well_formed(queue: QueueModel, id: u64, kind: JobEventKind)
    requires
        queue_well_formed(queue),
        known_job(queue, id),
    ensures
        queue_well_formed(emit_model(queue, id, kind)),
{
    let after = emit_model(queue, id, kind);
    lemma_emit_sequenced(queue.events, queue.next_sequence, id, kind);
    assert forall|i: int| 0 <= i < after.events.len() implies (#[trigger] after.events[i]).0 == event_number(
        after.emitted - after.events.len() + i + 1,
    ) by {
        if i < queue.events.len() {
            assert(after.events[i] == queue.events[i]);
        }
    }
    assert forall|i: int| 0 <= i < after.events.len() implies known_job(after, (#[trigger] after.events[i]).1) by {
        if i < queue.events.len() {
            assert(after.events[i] == queue.events[i]);
        }
    }
    assert forall|i: int|
        0 <= i < after.jobs.len() && (#[trigger] after.jobs[i]).state == JobState::Queued implies after.pending.contains(
        (i + 1) as u64) by {
        assert(queue.jobs[i] == after.jobs[i]);
    }
}

/// Changing the state of a job between states that agree on holding a slot,
/// and never into the queued state, keeps a queue well formed when the slot
/// count follows.
proof fn lemma_state_change_well_formed(queue: QueueModel, id: u64, job: JobModel, active_jobs: usize)
    requires
        queue_well_formed(queue),
        known_job(queue, id),
        job.state != JobState::Queued,
        active_jobs + (if is_active_state(state_of_job(queue, id)) {
            1int
        } else {
            0int
        }) == queue.active_jobs + (if is_active_state(job.state) {
            1int
        } else {
            0int
        }),
        active_jobs <= queue.max_concurrency,
    ensures
        queue_well_formed(QueueModel { active_jobs, ..set_job_model(queue, id, job) }),
{
    let after = QueueModel { active_jobs, ..set_job_model(queue, id, job) };
    lemma_count_update(queue.jobs, id - 1, job);
    assert forall|i: int|
        0 <= i < after.jobs.len() && (#[trigger] after.jobs[i]).state == JobState::Queued implies after.pending.contains(
        (i + 1) as u64) by {
        assert(i != id - 1);
        assert(after.jobs[i] == queue.jobs[i]);
    }
    assert forall|i: int| 0 <= i < after.pending.len() implies known_job(after, #[trigger] after.pending[i]) by {
        assert(after.pending[i] == queue.pending[i]);
    }
    assert forall|i: int| 0 <= i < after.events.len() implies known_job(after, (#[trigger] after.events[i]).1) by {
        assert(after.events[i] == queue.events[i]);
    }
}

struct JobRecord {
    plan: OperationPlan,
    state: JobState,
    cancellation_requested: bool,
}

/// A deterministic queue that grants at most `max_concurrency` execution
/// slots. Executors call `cancellation_checkpoint` only after leaving the
/// file system in a consistent state.
pub struct JobQueue {
    max_concurrency: usize,
    active_jobs: usize,
    next_sequence: u64,
    pending: Vec<JobId>,
    jobs: Vec<JobRecord>,
    events: Vec<JobEvent>,
    emitted: Ghost<nat>,
}

impl View for JobQueue {
    type V = QueueModel;

    closed spec fn view(&self) -> QueueModel {
        QueueModel {
            max_concurrency: self.max_concurrency,
            active_jobs: self.active_jobs,
            next_sequence: self.next_sequence,
            pending: Seq::new(self.pending@.len(), |i: int| self.pending@[i]@),
            jobs: Seq::new(
                self.jobs@.len(),
                |i: int|
                    JobModel {
                        state: self.jobs@[i].state,
                        cancellation_requested: self.jobs@[i].cancellation_requested,
                    },
            ),
            plans: Seq::new(self.jobs@.len(), |i: int| self.jobs@[i].plan@),
            events: Seq::new(
                self.events@.len(),
                |i: int| (self.events@[i].sequence, self.events@[i].job_id@, self.events@[i].kind),
            ),
            emitted: self.emitted@,
        }
    }
}

impl JobQueue {
    /// An empty queue with `max_concurrency` execution slots.
    pub fn new(max_concurrency: usize) -> (queue: Self)
        requires
            max_concurrency > 0,
        ensures
            queue_well_formed(queue@),
            queue@.max_concurrency == max_concurrency,
            queue@.active_jobs == 0,
            queue@.next_sequence == 1,
            queue@.pending.len() == 0,
            queue@.jobs.len() == 0,
            queue@.events.len() == 0,
            queue@.emitted == 0,
    {
        let queue = JobQueue {
            max_concurrency,
            active_jobs: 0,
            next_sequence: 1,
            pending: Vec::new(),
            jobs: Vec::new(),
            events: Vec::new(),
            emitted: Ghost(0),
        };
        assert(queue@.jobs =~= seq![]);
        assert(queue@.pending =~= seq![]);
        assert(queue@.events =~= seq![]);
        queue
    }

    /// Records an event for job `id`.
    fn emit(&mut self, id: JobId, kind: JobEventKind)
        ensures
            final(self)@ == emit_model(old(self)@, id@, kind),
    {
        let sequence = self.next_sequence;
        self.next_sequence = self.next_sequence.saturating_add(1);
        self.events.push(JobEvent { sequence, job_id: id, kind });
        self.emitted = Ghost(self.emitted@ + 1);
        assert(self@.events =~= old(self)@.events.push((sequence, id@, kind)));
        assert(self@.jobs =~= old(self)@.jobs);
        assert(self@.plans =~= old(self)@.plans);
        assert(self@.pending =~= old(self)@.pending);
    }

    /// The index of job `id`, if the queue knows it.
    fn index_of(&self, id: JobId) -> (index: Option<usize>)
        ensures
            index is Some <==> known_job(self@, id@),
            index matches Some(i) ==> i == id@ - 1 && i < self.jobs@.len(),
    {
        let raw = id.get();
        if raw <= self.jobs.len() as u64 {
            Some((raw - 1) as usize)
        } else {
            None
        }
    }

    /// Replaces the state of the job at `index`.
    fn set_state(&mut self, index: usize, state: JobState)
        requires
            index < old(self).jobs@.len(),
            old(self).jobs@.len() < u64::MAX,
        ensures
            final(self)@ == with_state(old(self)@, (index + 1) as u64, state),
    {
        let ghost before = self@;
        self.jobs[index].state = state;
        assert(self@.jobs =~= before.jobs.update(index as int, JobModel { state, cancellation_requested: before.jobs[index as int].cancellation_requested }));
        assert(self@.plans =~= before.plans);
    }

    /// Moves job `id` from one of the `allowed` states to `next`.
    fn transition(
        &mut self,
        id: JobId,
        allowed: &[JobStateTag],
        next: JobState,
        action: &'static str,
        frees_slot: bool,
    ) -> (result: Result<(), JobQueueError>)
        requires
            queue_well_formed(old(self)@),
            forall|i: int|
                0 <= i < allowed@.len() ==> (#[trigger] allowed@[i] is Validating || allowed@[i] is Running
                    || allowed@[i] is AwaitingDecision),
            next != JobState::Queued,
            is_active_state(next) == !frees_slot,
        ensures
            queue_well_formed(final(self)@),
            applied(
                old(self)@,
                final(self)@,
                result,
                transition_model(old(self)@, id@, allowed@, next, action, frees_slot),
            ),
    {
        let index = match self.index_of(id) {
            None => {
                return Err(JobQueueError::UnknownJob);
            },
            Some(index) => index,
        };
        let current = self.jobs[index].state;
        assert(current == state_of_job(self@, id@));
        let tag = tag_of_state(&current);
        if !tag_allowed(allowed, tag) {
            return Err(JobQueueError::InvalidTransition { from: current, action });
        }
        let ghost before = self@;
        proof {
            let k = choose|k: int| 0 <= k < allowed@.len() && allowed@[k] == tag;
            assert(allowed@[k] is Validating || allowed@[k] is Running || allowed@[k] is AwaitingDecision);
            assert(is_active_state(current));
            lemma_count_positive(before.jobs, index as int);
        }
        let new_active = if frees_slot {
            self.active_jobs.saturating_sub(1)
        } else {
            self.active_jobs
        };
        proof {
            lemma_state_change_well_formed(
                before,
                id@,
                JobModel { state: next, cancellation_requested: before.jobs[index as int].cancellation_requested },
                new_active,
            );
        }
        self.set_state(index, next);
        self.active_jobs = new_active;
        let ghost changed = self@;
        self.emit(id, JobEventKind::StateChanged(next));
        proof {
            lemma_emit_well_formed(changed, id@, JobEventKind::StateChanged(next));
        }
        Ok(())
    }

    /// Adds a plan as a queued job at the back of the queue.
    pub fn enqueue(&mut self, plan: OperationPlan) -> (result: Result<JobId, JobQueueError>)
        requires
            queue_well_formed(old(self)@),
        ensures
            queue_well_formed(final(self)@),
            match result {
                Ok(id) => {
                    &&& old(self)@.jobs.len() + 1 < u64::MAX
                    &&& id@ == old(self)@.jobs.len() + 1
                    &&& final(self)@ == emit_model(
                        QueueModel {
                            pending: old(self)@.pending.push(id@),
                            jobs: old(self)@.jobs.push(
                                JobModel { state: JobState::Queued, cancellation_requested: false },
                            ),
                            plans: old(self)@.plans.push(plan@),
                            ..old(self)@
                        },
                        id@,
                        JobEventKind::StateChanged(JobState::Queued),
                    )
                },
                Err(error) => {
                    &&& error == JobQueueError::IdentifierExhausted
                    &&& old(self)@.jobs.len() + 1 >= u64::MAX
                    &&& final(self)@ == old(self)@
                },
            },
    {
        let count = self.jobs.len();
        if count as u64 >= u64::MAX - 1 {
            return Err(JobQueueError::IdentifierExhausted);
        }
        let id = match JobId::from_raw(count as u64 + 1) {
            Some(id) => id,
            None => {
                return Err(JobQueueError::IdentifierExhausted);
            },
        };
        let ghost before = self@;
        let ghost plan_model = plan@;
        self.jobs.push(JobRecord { plan, state: JobState::Queued, cancellation_requested: false });
        self.pending.push(id);
        let ghost added = self@;
        assert(added.jobs =~= before.jobs.push(
            JobModel { state: JobState::Queued, cancellation_requested: false },
        ));
        assert(added.plans =~= before.plans.push(plan_model));
        assert(added.pending =~= before.pending.push(id@));
        assert(added.events =~= before.events);
        proof {
            assert(count_active(added.jobs.drop_last()) == count_active(before.jobs)) by {
                assert(added.jobs.drop_last() =~= before.jobs);
            }
            assert forall|i: int| 0 <= i < added.pending.len() implies known_job(added, #[trigger] added.pending[i]) by {
                if i < before.pending.len() {
                    assert(added.pending[i] == before.pending[i]);
                }
            }
            assert forall|i: int|
                0 <= i < added.jobs.len() && (#[trigger] added.jobs[i]).state == JobState::Queued implies added.pending.contains(
                (i + 1) as u64) by {
                if i < before.jobs.len() {
                    assert(added.jobs[i] == before.jobs[i]);
                    let k = choose|k: int| 0 <= k < before.pending.len() && before.pending[k] == (i + 1) as u64;
                    assert(added.pending[k] == before.pending[k]);
                } else {
                    assert(added.pending[added.pending.len() - 1] == id@);
                }
            }
            assert forall|i: int| 0 <= i < added.events.len() implies known_job(added, (#[trigger] added.events[i]).1) by {
                assert(added.events[i] == before.events[i]);
            }
        }
        self.emit(id, JobEventKind::StateChanged(JobState::Queued));
        proof {
            lemma_emit_well_formed(added, id@, JobEventKind::StateChanged(JobState::Queued));
        }
        Ok(id)
    }

    /// The plan of job `id`.
    pub fn plan(&self, id: JobId) -> (plan: Result<&OperationPlan, JobQueueError>)
        ensures
            match plan {
                Ok(p) => known_job(self@, id@) && p@ == self@.plans[id@ - 1],
                Err(error) => !known_job(self@, id@) && error == JobQueueError::UnknownJob,
            },
    {
        match self.index_of(id) {
            Some(index) => Ok(&self.jobs[index].plan),
            None => Err(JobQueueError::UnknownJob),
        }
    }

    /// The state of job `id`.
    pub fn state(&self, id: JobId) -> (state: Result<&JobState, JobQueueError>)
        ensures
            match state {
                Ok(s) => known_job(self@, id@) && *s == state_of_job(self@, id@),
                Err(error) => !known_job(self@, id@) && error == JobQueueError::UnknownJob,
            },
    {
        match self.index_of(id) {
            Some(index) => Ok(&self.jobs[index].state),
            None => Err(JobQueueError::UnknownJob),
        }
    }

    pub fn active_jobs(&self) -> (active: usize)
        ensures
            active == self@.active_jobs,
    {
        self.active_jobs
    }

    /// Whether cancellation was asked for job `id`.
    pub fn cancellation_requested(&self, id: JobId) -> (requested: Result<bool, JobQueueError>)
        ensures
            match requested {
                Ok(r) => known_job(self@, id@) && r == self@.jobs[id@ - 1].cancellation_requested,
                Err(error) => !known_job(self@, id@) && error == JobQueueError::UnknownJob,
            },
    {
        match self.index_of(id) {
            Some(index) => Ok(self.jobs[index].cancellation_requested),
            None => Err(JobQueueError::UnknownJob),
        }
    }
}

fn tag_allowed(allowed: &[JobStateTag], tag: JobStateTag) -> (found: bool)
    ensures
        found == allowed@.contains(tag),
{
    let mut i: usize = 0;
    while i < allowed.len()
        invariant
            i <= allowed@.len(),
            forall|j: int| 0 <= j < i ==> allowed@[j] != tag,
        decreases allowed.len() - i,
    {
        if allowed[i] == tag {
            return true;
        }
        i += 1;
    }
    false
}


/// Whether job `id` is known and waiting in the queued state.
pub open spec fn is_queued(queue: QueueModel, id: u64) -> bool {
    known_job(queue, id) && state_of_job(queue, id) == JobState::Queued
}

/// The first position at or after `from` in the pending list whose job is
/// still queued; the length of the list when there is none.
pub open spec fn first_queued_from(queue: QueueModel, from: int) -> int
    decreases queue.pending.len() - from,
{
    if from < 0 || from >= queue.pending.len() {
        queue.pending.len() as int
    } else if is_queued(queue, queue.pending[from]) {
        from
    } else {
        first_queued_from(queue, from + 1)
    }
}

/// What claiming does: with a free slot, the first still-queued job in
/// pending order moves to validation and everything before it leaves the
/// pending list; without one, nothing changes.
pub open spec fn claim_model(queue: QueueModel) -> (QueueModel, Option<u64>) {
    if queue.active_jobs >= queue.max_concurrency {
        (queue, None)
    } else {
        let k = first_queued_from(queue, 0);
        if k >= queue.pending.len() {
            (QueueModel { pending: Seq::empty(), ..queue }, None)
        } else {
            let id = queue.pending[k];
            let validating = with_state(
                QueueModel {
                    pending: queue.pending.skip(k + 1),
                    active_jobs: (queue.active_jobs + 1) as usize,
                    ..queue
                },
                id,
                JobState::Validating,
            );
            (emit_model(validating, id, JobEventKind::StateChanged(JobState::Validating)), Some(id))
        }
    }
}

/// What reporting progress does: only a running job reports, and the report
/// becomes an event.
pub open spec fn progress_model(queue: QueueModel, id: u64, progress: JobProgress) -> Result<
    QueueModel,
    JobQueueError,
> {
    if !known_job(queue, id) {
        Err(JobQueueError::UnknownJob)
    } else if state_of_job(queue, id) != JobState::Running {
        Err(JobQueueError::InvalidTransition { from: state_of_job(queue, id), action: "report progress" })
    } else {
        Ok(emit_model(queue, id, JobEventKind::Progress(progress)))
    }
}

/// What a cancellation request does: a queued job is cancelled at once and
/// keeps no slot; an active job only records the request, once.
pub open spec fn cancel_request_model(queue: QueueModel, id: u64) -> Result<QueueModel, JobQueueError> {
    if !known_job(queue, id) {
        Err(JobQueueError::UnknownJob)
    } else if is_terminal_state(state_of_job(queue, id)) {
        Err(
            JobQueueError::InvalidTransition {
                from: state_of_job(queue, id),
                action: "request cancellation",
            },
        )
    } else if state_of_job(queue, id) == JobState::Queued {
        Ok(
            emit_model(
                with_state(queue, id, JobState::Cancelled),
                id,
                JobEventKind::StateChanged(JobState::Cancelled),
            ),
        )
    } else if queue.jobs[id - 1].cancellation_requested {
        Ok(queue)
    } else {
        Ok(
            emit_model(
                set_job_model(
                    queue,
                    id,
                    JobModel { state: state_of_job(queue, id), cancellation_requested: true },
                ),
                id,
                JobEventKind::CancellationRequested,
            ),
        )
    }
}

pub open spec fn active_tags() -> Seq<JobStateTag> {
    seq![JobStateTag::Validating, JobStateTag::Running, JobStateTag::AwaitingDecision]
}

/// What a cancellation checkpoint does: an active job without a request
/// continues; with one it is cancelled and gives its slot back.
pub open spec fn checkpoint_model(queue: QueueModel, id: u64) -> Result<
    (QueueModel, CancellationCheckpoint),
    JobQueueError,
> {
    if !known_job(queue, id) {
        Err(JobQueueError::UnknownJob)
    } else if !is_active_state(state_of_job(queue, id)) {
        Err(JobQueueError::InvalidTransition { from: state_of_job(queue, id), action: "check cancellation" })
    } else if !queue.jobs[id - 1].cancellation_requested {
        Ok((queue, CancellationCheckpoint::Continue))
    } else {
        match transition_model(queue, id, active_tags(), JobState::Cancelled, "cancel", true) {
            Ok(after) => Ok((after, CancellationCheckpoint::Stop)),
            Err(error) => Err(error),
        }
    }
}

proof fn lemma_first_queued(queue: QueueModel, from: int)
    requires
        0 <= from <= queue.pending.len(),
    ensures
        from <= first_queued_from(queue, from) <= queue.pending.len(),
        forall|j: int|
            from <= j < first_queued_from(queue, from) ==> !is_queued(queue, #[trigger] queue.pending[j]),
        first_queued_from(queue, from) < queue.pending.len() ==> is_queued(
            queue,
            queue.pending[first_queued_from(queue, from)],
        ),
    decreases queue.pending.len() - from,
{
    if from < queue.pending.len() && !is_queued(queue, queue.pending[from]) {
        lemma_first_queued(queue, from + 1);
    }
}

/// Claiming keeps a queue well formed.
proof fn lemma_claim_well_formed(queue: QueueModel)
    requires
        queue_well_formed(queue),
    ensures
        queue_well_formed(claim_model(queue).0),
{
    if queue.active_jobs < queue.max_concurrency {
        lemma_first_queued(queue, 0);
        let k = first_queued_from(queue, 0);
        if k >= queue.pending.len() {
            let after = QueueModel { pending: Seq::empty(), ..queue };
            assert forall|i: int|
                0 <= i < after.jobs.len() && (#[trigger] after.jobs[i]).state == JobState::Queued implies after.pending.contains(
                (i + 1) as u64) by {
                let p = choose|p: int| 0 <= p < queue.pending.len() && queue.pending[p] == (i + 1) as u64;
                assert(!is_queued(queue, queue.pending[p]));
            }
            assert forall|i: int| 0 <= i < after.events.len() implies known_job(after, (#[trigger] after.events[i]).1) by {
                assert(after.events[i] == queue.events[i]);
            }
        } else {
            let id = queue.pending[k];
            let skipped = QueueModel {
                pending: queue.pending.skip(k + 1),
                active_jobs: (queue.active_jobs + 1) as usize,
                ..queue
            };
            let job = JobModel {
                state: JobState::Validating,
                cancellation_requested: queue.jobs[id - 1].cancellation_requested,
            };
            let validating = with_state(skipped, id, JobState::Validating);
            lemma_count_update(queue.jobs, id - 1, job);
            assert forall|i: int|
                0 <= i < validating.jobs.len() && (#[trigger] validating.jobs[i]).state
                    == JobState::Queued implies validating.pending.contains((i + 1) as u64) by {
                assert(i != id - 1);
                assert(validating.jobs[i] == queue.jobs[i]);
                let p = choose|p: int| 0 <= p < queue.pending.len() && queue.pending[p] == (i + 1) as u64;
                assert(is_queued(queue, queue.pending[p]));
                assert(p > k);
                assert(validating.pending[p - k - 1] == queue.pending[p]);
            }
            assert forall|i: int| 0 <= i < validating.pending.len() implies known_job(
                validating,
                #[trigger] validating.pending[i],
            ) by {
                assert(validating.pending[i] == queue.pending[i + k + 1]);
            }
            assert forall|i: int| 0 <= i < validating.events.len() implies known_job(
                validating,
                (#[trigger] validating.events[i]).1,
            ) by {
                assert(validating.events[i] == queue.events[i]);
            }
            assert(queue_well_formed(validating));
            lemma_emit_well_formed(validating, id, JobEventKind::StateChanged(JobState::Validating));
        }
    }
}

/// Recording a cancellation request keeps a queue well formed.
proof fn lemma_request_well_formed(queue: QueueModel, id: u64)
    requires
        queue_well_formed(queue),
        known_job(queue, id),
    ensures
        queue_well_formed(
            set_job_model(queue, id, JobModel { state: state_of_job(queue, id), cancellation_requested: true }),
        ),
{
    let job = JobModel { state: state_of_job(queue, id), cancellation_requested: true };
    let after = set_job_model(queue, id, job);
    lemma_count_update(queue.jobs, id - 1, job);
    assert forall|i: int|
        0 <= i < after.jobs.len() && (#[trigger] after.jobs[i]).state == JobState::Queued implies after.pending.contains(
        (i + 1) as u64) by {
        if i != id - 1 {
            assert(after.jobs[i] == queue.jobs[i]);
        }
    }
    assert forall|i: int| 0 <= i < after.pending.len() implies known_job(after, #[trigger] after.pending[i]) by {
        assert(after.pending[i] == queue.pending[i]);
    }
    assert forall|i: int| 0 <= i < after.events.len() implies known_job(after, (#[trigger] after.events[i]).1) by {
        assert(after.events[i] == queue.events[i]);
    }
}


impl JobQueue {
    /// Claims the next queued plan for validation when a concurrency slot
    /// exists.
    pub fn claim_next(&mut self) -> (claimed: Option<JobId>)
        requires
            queue_well_formed(old(self)@),
        ensures
            queue_well_formed(final(self)@),
            final(self)@ == claim_model(old(self)@).0,
            claimed matches Some(id) ==> claim_model(old(self)@).1 == Some(id@),
            claimed is None ==> claim_model(old(self)@).1 is None,
    {
        proof {
            lemma_claim_well_formed(self@);
        }
        if self.active_jobs >= self.max_concurrency {
            return None;
        }
        let ghost before = self@;
        let mut i: usize = 0;
        while i < self.pending.len()
            invariant
                self@ == before,
                queue_well_formed(before),
                0 <= i <= before.pending.len(),
                first_queued_from(before, 0) == first_queued_from(before, i as int),
            ensures
                self@ == before,
                0 <= i <= before.pending.len(),
                first_queued_from(before, 0) == first_queued_from(before, i as int),
                i < before.pending.len() ==> is_queued(before, before.pending[i as int]),
            decreases self.pending.len() - i,
        {
            let id = self.pending[i];
            assert(before.pending[i as int] == id@);
            if let Some(index) = self.index_of(id) {
                if self.jobs[index].state == JobState::Queued {
                    break;
                }
            }
            i += 1;
        }
        proof {
            lemma_first_queued(before, i as int);
        }
        if i >= self.pending.len() {
            self.pending = Vec::new();
            assert(self@.pending =~= Seq::<u64>::empty());
            assert(self@.jobs =~= before.jobs);
            assert(self@.plans =~= before.plans);
            assert(self@.events =~= before.events);
            return None;
        }
        let id = self.pending[i];
        assert(before.pending[i as int] == id@);
        assert(known_job(before, id@));
        let index = match self.index_of(id) {
            Some(index) => index,
            None => {
                return None;
            },
        };
        let rest = self.pending.split_off(i + 1);
        self.pending = rest;
        self.active_jobs = self.active_jobs + 1;
        let ghost skipped = self@;
        assert(skipped.pending =~= before.pending.skip(i + 1));
        assert(skipped.jobs =~= before.jobs);
        assert(skipped.plans =~= before.plans);
        assert(skipped.events =~= before.events);
        assert(first_queued_from(before, i as int) == i);
        assert(index as int == id@ - 1);
        self.set_state(index, JobState::Validating);
        assert((index + 1) as u64 == id@);
        assert(self@ == with_state(skipped, id@, JobState::Validating));
        self.emit(id, JobEventKind::StateChanged(JobState::Validating));
        Some(id)
    }

    pub fn mark_validation_succeeded(&mut self, id: JobId) -> (result: Result<(), JobQueueError>)
        requires
            queue_well_formed(old(self)@),
        ensures
            queue_well_formed(final(self)@),
            applied(
                old(self)@,
                final(self)@,
                result,
                transition_model(
                    old(self)@,
                    id@,
                    seq![JobStateTag::Validating],
                    JobState::Running,
                    "start execution",
                    false,
                ),
            ),
    {
        let allowed = [JobStateTag::Validating];
        assert(allowed@ =~= seq![JobStateTag::Validating]);
        self.transition(id, &allowed, JobState::Running, "start execution", false)
    }

    pub fn mark_validation_failed(&mut self, id: JobId) -> (result: Result<(), JobQueueError>)
        requires
            queue_well_formed(old(self)@),
        ensures
            queue_well_formed(final(self)@),
            applied(
                old(self)@,
                final(self)@,
                result,
                transition_model(
                    old(self)@,
                    id@,
                    seq![JobStateTag::Validating],
                    JobState::Failed { code: JobFailureCode::Validation },
                    "fail validation",
                    true,
                ),
            ),
    {
        let allowed = [JobStateTag::Validating];
        assert(allowed@ =~= seq![JobStateTag::Validating]);
        self.transition(
            id,
            &allowed,
            JobState::Failed { code: JobFailureCode::Validation },
            "fail validation",
            true,
        )
    }

    pub fn report_progress(&mut self, id: JobId, progress: JobProgress) -> (result: Result<
        (),
        JobQueueError,
    >)
        requires
            queue_well_formed(old(self)@),
        ensures
            queue_well_formed(final(self)@),
            applied(old(self)@, final(self)@, result, progress_model(old(self)@, id@, progress)),
    {
        let index = match self.index_of(id) {
            Some(index) => index,
            None => {
                return Err(JobQueueError::UnknownJob);
            },
        };
        let state = self.jobs[index].state;
        if state != JobState::Running {
            return Err(JobQueueError::InvalidTransition { from: state, action: "report progress" });
        }
        proof {
            lemma_emit_well_formed(self@, id@, JobEventKind::Progress(progress));
        }
        self.emit(id, JobEventKind::Progress(progress));
        Ok(())
    }

    pub fn await_decision(&mut self, id: JobId, reason: DecisionReason) -> (result: Result<
        (),
        JobQueueError,
    >)
        requires
            queue_well_formed(old(self)@),
        ensures
            queue_well_formed(final(self)@),
            applied(
                old(self)@,
                final(self)@,
                result,
                transition_model(
                    old(self)@,
                    id@,
                    seq![JobStateTag::Running],
                    JobState::AwaitingDecision { reason },
                    "wait for a decision",
                    false,
                ),
            ),
    {
        let allowed = [JobStateTag::Running];
        assert(allowed@ =~= seq![JobStateTag::Running]);
        self.transition(id, &allowed, JobState::AwaitingDecision { reason }, "wait for a decision", false)
    }

    pub fn resume_after_decision(&mut self, id: JobId) -> (result: Result<(), JobQueueError>)
        requires
            queue_well_formed(old(self)@),
        ensures
            queue_well_formed(final(self)@),
            applied(
                old(self)@,
                final(self)@,
                result,
                transition_model(
                    old(self)@,
                    id@,
                    seq![JobStateTag::AwaitingDecision],
                    JobState::Running,
                    "resume after a decision",
                    false,
                ),
            ),
    {
        let allowed = [JobStateTag::AwaitingDecision];
        assert(allowed@ =~= seq![JobStateTag::AwaitingDecision]);
        self.transition(id, &allowed, JobState::Running, "resume after a decision", false)
    }

    pub fn mark_completed(&mut self, id: JobId) -> (result: Result<(), JobQueueError>)
        requires
            queue_well_formed(old(self)@),
        ensures
            queue_well_formed(final(self)@),
            applied(
                old(self)@,
                final(self)@,
                result,
                transition_model(
                    old(self)@,
                    id@,
                    seq![JobStateTag::Running],
                    JobState::Completed,
                    "complete",
                    true,
                ),
            ),
    {
        let allowed = [JobStateTag::Running];
        assert(allowed@ =~= seq![JobStateTag::Running]);
        self.transition(id, &allowed, JobState::Completed, "complete", true)
    }

    /// A partial failure must name at least one failed item.
    pub fn mark_partially_failed(&mut self, id: JobId, completed_items: u64, failed_items: u64) -> (result:
        Result<(), JobQueueError>)
        requires
            queue_well_formed(old(self)@),
        ensures
            queue_well_formed(final(self)@),
            failed_items == 0 ==> result == Err::<(), JobQueueError>(JobQueueError::InvalidProgress)
                && final(self)@ == old(self)@,
            failed_items != 0 ==> applied(
                old(self)@,
                final(self)@,
                result,
                transition_model(
                    old(self)@,
                    id@,
                    seq![JobStateTag::Running],
                    JobState::PartiallyFailed { completed_items, failed_items },
                    "finish with partial failure",
                    true,
                ),
            ),
    {
        if failed_items == 0 {
            return Err(JobQueueError::InvalidProgress);
        }
        let allowed = [JobStateTag::Running];
        assert(allowed@ =~= seq![JobStateTag::Running]);
        self.transition(
            id,
            &allowed,
            JobState::PartiallyFailed { completed_items, failed_items },
            "finish with partial failure",
            true,
        )
    }

    pub fn mark_failed(&mut self, id: JobId, code: JobFailureCode) -> (result: Result<(), JobQueueError>)
        requires
            queue_well_formed(old(self)@),
        ensures
            queue_well_formed(final(self)@),
            applied(
                old(self)@,
                final(self)@,
                result,
                transition_model(
                    old(self)@,
                    id@,
                    seq![JobStateTag::Running, JobStateTag::AwaitingDecision],
                    JobState::Failed { code },
                    "fail",
                    true,
                ),
            ),
    {
        let allowed = [JobStateTag::Running, JobStateTag::AwaitingDecision];
        assert(allowed@ =~= seq![JobStateTag::Running, JobStateTag::AwaitingDecision]);
        self.transition(id, &allowed, JobState::Failed { code }, "fail", true)
    }

    /// Queued jobs cancel immediately. Active jobs only record intent; the
    /// executor must reach `cancellation_checkpoint` before cancellation
    /// occurs.
    pub fn request_cancel(&mut self, id: JobId) -> (result: Result<(), JobQueueError>)
        requires
            queue_well_formed(old(self)@),
        ensures
            queue_well_formed(final(self)@),
            applied(old(self)@, final(self)@, result, cancel_request_model(old(self)@, id@)),
    {
        let index = match self.index_of(id) {
            Some(index) => index,
            None => {
                return Err(JobQueueError::UnknownJob);
            },
        };
        let state = self.jobs[index].state;
        if state.is_terminal() {
            return Err(JobQueueError::InvalidTransition { from: state, action: "request cancellation" });
        }
        let ghost before = self@;
        if state == JobState::Queued {
            proof {
                lemma_state_change_well_formed(
                    before,
                    id@,
                    JobModel {
                        state: JobState::Cancelled,
                        cancellation_requested: before.jobs[index as int].cancellation_requested,
                    },
                    before.active_jobs,
                );
            }
            self.set_state(index, JobState::Cancelled);
            let ghost changed = self@;
            proof {
                lemma_emit_well_formed(changed, id@, JobEventKind::StateChanged(JobState::Cancelled));
            }
            self.emit(id, JobEventKind::StateChanged(JobState::Cancelled));
        } else if !self.jobs[index].cancellation_requested {
            self.jobs[index].cancellation_requested = true;
            let ghost changed = self@;
            assert(changed.jobs =~= before.jobs.update(
                index as int,
                JobModel { state, cancellation_requested: true },
            ));
            assert(changed.plans =~= before.plans);
            proof {
                lemma_request_well_formed(before, id@);
                lemma_emit_well_formed(changed, id@, JobEventKind::CancellationRequested);
            }
            self.emit(id, JobEventKind::CancellationRequested);
        }
        Ok(())
    }

    /// Where an executor may stop: a requested cancellation takes effect
    /// here.
    pub fn cancellation_checkpoint(&mut self, id: JobId) -> (result: Result<
        CancellationCheckpoint,
        JobQueueError,
    >)
        requires
            queue_well_formed(old(self)@),
        ensures
            queue_well_formed(final(self)@),
            match checkpoint_model(old(self)@, id@) {
                Ok((after, checkpoint)) => result == Ok::<CancellationCheckpoint, JobQueueError>(
                    checkpoint,
                ) && final(self)@ == after,
                Err(error) => result == Err::<CancellationCheckpoint, JobQueueError>(error)
                    && final(self)@ == old(self)@,
            },
    {
        let index = match self.index_of(id) {
            Some(index) => index,
            None => {
                return Err(JobQueueError::UnknownJob);
            },
        };
        let state = self.jobs[index].state;
        match state {
            JobState::Validating | JobState::Running | JobState::AwaitingDecision { .. } => {},
            _ => {
                return Err(JobQueueError::InvalidTransition { from: state, action: "check cancellation" });
            },
        }
        if !self.jobs[index].cancellation_requested {
            return Ok(CancellationCheckpoint::Continue);
        }
        let allowed = [JobStateTag::Validating, JobStateTag::Running, JobStateTag::AwaitingDecision];
        assert(allowed@ =~= seq![JobStateTag::Validating, JobStateTag::Running, JobStateTag::AwaitingDecision]);
        assert(allowed@ == active_tags());
        match self.transition(id, &allowed, JobState::Cancelled, "cancel", true) {
            Ok(()) => Ok(CancellationCheckpoint::Stop),
            Err(error) => Err(error),
        }
    }

    /// Hands out the events recorded so far, oldest first, and forgets them.
    pub fn drain_events(&mut self) -> (events: Vec<JobEvent>)
        requires
            queue_well_formed(old(self)@),
        ensures
            queue_well_formed(final(self)@),
            final(self)@ == (QueueModel { events: Seq::empty(), ..old(self)@ }),
            events@.len() == old(self)@.events.len(),
            forall|i: int|
                0 <= i < events@.len() ==> (#[trigger] events@[i]).sequence == old(self)@.events[i].0
                    && events@[i].job_id@ == old(self)@.events[i].1 && events@[i].kind
                    == old(self)@.events[i].2,
    {
        let mut drained = Vec::new();
        std::mem::swap(&mut drained, &mut self.events);
        assert(self@.events =~= Seq::<(u64, u64, JobEventKind)>::empty());
        assert(self@.jobs =~= old(self)@.jobs);
        assert(self@.plans =~= old(self)@.plans);
        assert(self@.pending =~= old(self)@.pending);
        drained
    }
}


/// Bounded concurrency: in every queue the operations can reach, the jobs
/// that hold a slot (validating, running or awaiting a decision) are exactly
/// the counted ones, and there are never more of them than slots.
pub proof fn law_active_jobs_within_limit(queue: QueueModel)
    requires
        queue_well_formed(queue),
    ensures
        queue.active_jobs == count_active(queue.jobs),
        count_active(queue.jobs) <= queue.max_concurrency,
{
}

/// Events come out in the order they were recorded, with increasing
/// sequence numbers (which only repeat once the counter is exhausted).
pub proof fn law_event_sequences_increase(queue: QueueModel, i: int, j: int)
    requires
        queue_well_formed(queue),
        0 <= i < j < queue.events.len(),
    ensures
        queue.events[i].0 < queue.events[j].0 || queue.events[j].0 == u64::MAX,
{
}

/// Events are numbered by the order in which they are recorded: of the
/// events recorded so far, the `n`-th carries sequence `n` (held at
/// `u64::MAX` once the counter runs out), the pending events are the latest
/// ones, and the next event will carry the next number. A new queue has
/// recorded none, each recorded event counts one, and draining forgets the
/// pending events without changing the count.
pub proof fn law_nth_event_carries_sequence_n(queue: QueueModel, i: int)
    requires
        queue_well_formed(queue),
        0 <= i < queue.events.len(),
    ensures
        queue.events.len() <= queue.emitted,
        queue.events[i].0 == event_number(queue.emitted - queue.events.len() + i + 1),
        queue.next_sequence == event_number(queue.emitted + 1int),
{
}

/// First in, first out: a claimed job is the earliest job in pending order
/// that is still queued, and it moves to validation holding one more slot.
pub proof fn law_claim_is_first_in_first_out(queue: QueueModel)
    requires
        queue_well_formed(queue),
    ensures
        claim_model(queue).1 matches Some(id) ==> {
            &&& exists|k: int|
                0 <= k < queue.pending.len() && queue.pending[k] == id && forall|j: int|
                    0 <= j < k ==> !is_queued(queue, #[trigger] queue.pending[j])
            &&& is_queued(queue, id)
            &&& state_of_job(claim_model(queue).0, id) == JobState::Validating
            &&& claim_model(queue).0.active_jobs == queue.active_jobs + 1
        },
{
    lemma_first_queued(queue, 0);
    if queue.active_jobs < queue.max_concurrency {
        let k = first_queued_from(queue, 0);
        if k < queue.pending.len() {
            assert(queue.pending[k] == claim_model(queue).1->0);
        }
    }
}

/// A claim only comes back empty when every slot is taken or no job is
/// waiting.
pub proof fn law_claim_refused_only_when_full_or_idle(queue: QueueModel)
    requires
        queue_well_formed(queue),
        claim_model(queue).1 is None,
    ensures
        queue.active_jobs >= queue.max_concurrency || forall|i: int|
            0 <= i < queue.jobs.len() ==> (#[trigger] queue.jobs[i]).state != JobState::Queued,
{
    lemma_first_queued(queue, 0);
    if queue.active_jobs < queue.max_concurrency {
        assert forall|i: int| 0 <= i < queue.jobs.len() implies (#[trigger] queue.jobs[i]).state
            != JobState::Queued by {
            if queue.jobs[i].state == JobState::Queued {
                let p = choose|p: int| 0 <= p < queue.pending.len() && queue.pending[p] == (i + 1) as u64;
                assert(!is_queued(queue, queue.pending[p]));
            }
        }
    }
}

/// Terminal states are final: every operation on a job that has finished
/// is refused as an invalid transition, and claiming never touches it.
pub proof fn law_terminal_states_are_final(
    queue: QueueModel,
    id: u64,
    allowed: Seq<JobStateTag>,
    next: JobState,
    action: &'static str,
    frees_slot: bool,
    progress: JobProgress,
)
    requires
        queue_well_formed(queue),
        known_job(queue, id),
        is_terminal_state(state_of_job(queue, id)),
        !allowed.contains(JobStateTag::Terminal),
    ensures
        transition_model(queue, id, allowed, next, action, frees_slot) == Err::<QueueModel, JobQueueError>(
            JobQueueError::InvalidTransition { from: state_of_job(queue, id), action },
        ),
        cancel_request_model(queue, id) is Err,
        checkpoint_model(queue, id) is Err,
        progress_model(queue, id, progress) is Err,
        state_of_job(claim_model(queue).0, id) == state_of_job(queue, id),
{
    lemma_first_queued(queue, 0);
}

/// Cancelling a job that is still queued takes effect at once and never
/// consumes a slot.
pub proof fn law_queued_cancellation_keeps_slots(queue: QueueModel, id: u64)
    requires
        queue_well_formed(queue),
        is_queued(queue, id),
    ensures
        cancel_request_model(queue, id) matches Ok(after) && state_of_job(after, id) == JobState::Cancelled
            && after.active_jobs == queue.active_jobs,
{
}

/// Cancelling an active job only records the request; the job keeps its
/// state and slot until its executor reaches a checkpoint, where it stops,
/// is cancelled and gives the slot back.
pub proof fn law_active_cancellation_waits_for_checkpoint(queue: QueueModel, id: u64)
    requires
        queue_well_formed(queue),
        known_job(queue, id),
        is_active_state(state_of_job(queue, id)),
    ensures
        cancel_request_model(queue, id) matches Ok(requested) && {
            &&& state_of_job(requested, id) == state_of_job(queue, id)
            &&& requested.active_jobs == queue.active_jobs
            &&& checkpoint_model(requested, id) matches Ok((stopped, checkpoint)) && {
                &&& checkpoint == CancellationCheckpoint::Stop
                &&& state_of_job(stopped, id) == JobState::Cancelled
                &&& stopped.active_jobs == queue.active_jobs - 1
            }
        },
{
    lemma_count_positive(queue.jobs, id - 1);
    let requested = cancel_request_model(queue, id)->Ok_0;
    assert(active_tags().contains(tag_of(state_of_job(requested, id)))) by {
        let tag = tag_of(state_of_job(requested, id));
        if tag == JobStateTag::Validating {
            assert(active_tags()[0] == tag);
        } else if tag == JobStateTag::Running {
            assert(active_tags()[1] == tag);
        } else {
            assert(active_tags()[2] == tag);
        }
    }
}

} // verus!
