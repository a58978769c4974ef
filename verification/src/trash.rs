//! Moving the sources of a trash plan to the system trash.

use vstd::prelude::*;

use crate::path::{NativePath, PathModel};
use crate::plan::{
    revalidate_model, snapshot_for_plan, OperationKind, OperationPlan, OperationPlanner, PlanModel,
    PlanValidationErrorKind,
};
use crate::probe::{PreflightProbe, PreflightSnapshot, SnapshotModel};

verus! {

#[derive(Clone, Copy, Debug, PartialEq, Eq, Structural)]
pub enum TrashBackendError {
    PermissionDenied,
    NotFound,
    Unsupported,
    Platform,
}

/// Injectable system-trash boundary. It deliberately has no permanent-delete
/// operation.
pub trait TrashBackend {
    fn move_to_trash(&self, path: &NativePath) -> Result<(), TrashBackendError>;
}

#[derive(Clone, Copy, Debug, PartialEq, Eq, Structural)]
pub enum TrashErrorCode {
    InvalidPlan,
    SourceChanged,
    PermissionDenied,
    Unsupported,
    Platform,
}

#[derive(Clone, Copy, Debug, PartialEq, Eq, Structural)]
pub enum TrashItemOutcome {
    Trashed,
    Failed(TrashErrorCode),
}

#[derive(Clone, Copy, Debug, PartialEq, Eq, Structural)]
pub struct TrashItemResult {
    pub source_index: usize,
    pub outcome: TrashItemOutcome,
}

#[derive(Clone, Debug, PartialEq, Eq)]
pub struct TrashBatchResult {
    pub items: Vec<TrashItemResult>,
}

/// How a failed revalidation is reported for every item.
pub open spec fn trash_validation_code(kind: PlanValidationErrorKind) -> TrashErrorCode {
    match kind {
        PlanValidationErrorKind::MissingSource { .. } | PlanValidationErrorKind::SourceChanged {
            ..
        } => TrashErrorCode::SourceChanged,
        PlanValidationErrorKind::ParentNotWritable => TrashErrorCode::PermissionDenied,
        _ => TrashErrorCode::InvalidPlan,
    }
}

/// How a failure of the trash backend is reported.
pub open spec fn backend_code(error: TrashBackendError) -> TrashErrorCode {
    match error {
        TrashBackendError::PermissionDenied => TrashErrorCode::PermissionDenied,
        TrashBackendError::NotFound => TrashErrorCode::SourceChanged,
        TrashBackendError::Unsupported => TrashErrorCode::Unsupported,
        TrashBackendError::Platform => TrashErrorCode::Platform,
    }
}

/// The outcome of one item, given what the backend answered.
pub open spec fn trash_outcome(answer: Result<(), TrashBackendError>) -> TrashItemOutcome {
    match answer {
        Ok(_) => TrashItemOutcome::Trashed,
        Err(error) => TrashItemOutcome::Failed(backend_code(error)),
    }
}

/// `items` reports each of `count` items, in order, as failed with `code`.
pub open spec fn trash_all_failed(items: Seq<TrashItemResult>, count: nat, code: TrashErrorCode) -> bool {
    &&& items.len() == count
    &&& forall|i: int|
        0 <= i < count ==> (#[trigger] items[i]).source_index == i && items[i].outcome
            == TrashItemOutcome::Failed(code)
}

/// `answer` is one that asking `backend` to trash a path named `path` can
/// give.
pub open spec fn backend_answer<B: TrashBackend>(backend: &B, path: PathModel, answer: Result<(), TrashBackendError>) -> bool {
    exists|asked: &NativePath| asked@ == path && #[trigger] call_ensures(B::move_to_trash, (backend, asked), answer)
}

/// What trashing a plan through `backend` gives when the disk answers as
/// `snapshot` says: a plan of another kind, or one that no longer holds,
/// fails item by item without the backend; otherwise each source, in order,
/// has the outcome of the answer `backend` gives when asked to trash that
/// source.
pub open spec fn trash_batch_matches<B: TrashBackend>(
    backend: &B,
    plan: PlanModel,
    snapshot: SnapshotModel,
    items: Seq<TrashItemResult>,
) -> bool {
    if plan.kind != OperationKind::Trash {
        trash_all_failed(items, plan.sources.len(), TrashErrorCode::InvalidPlan)
    } else {
        match revalidate_model(plan, snapshot) {
            Err(kind) => trash_all_failed(items, plan.sources.len(), trash_validation_code(kind)),
            Ok(_) => {
                &&& items.len() == plan.sources.len()
                &&& forall|i: int|
                    0 <= i < items.len() ==> (#[trigger] items[i]).source_index == i && exists|
                        answer: Result<(), TrashBackendError>,
                    |
                        #[trigger] backend_answer(backend, plan.sources[i].path, answer) && items[i].outcome
                            == trash_outcome(answer)
            },
        }
    }
}

fn map_validation_error(kind: &PlanValidationErrorKind) -> (code: TrashErrorCode)
    ensures
        code == trash_validation_code(*kind),
{
    match kind {
        PlanValidationErrorKind::MissingSource { .. } | PlanValidationErrorKind::SourceChanged {
            ..
        } => TrashErrorCode::SourceChanged,
        PlanValidationErrorKind::ParentNotWritable => TrashErrorCode::PermissionDenied,
        _ => TrashErrorCode::InvalidPlan,
    }
}

impl TrashItemOutcome {
    /// The outcome of one item, given what the backend answered.
    pub fn from_backend(answer: Result<(), TrashBackendError>) -> (outcome: Self)
        ensures
            outcome == trash_outcome(answer),
    {
        match answer {
            Ok(()) => TrashItemOutcome::Trashed,
            Err(error) => TrashItemOutcome::Failed(
                match error {
                    TrashBackendError::PermissionDenied => TrashErrorCode::PermissionDenied,
                    TrashBackendError::NotFound => TrashErrorCode::SourceChanged,
                    TrashBackendError::Unsupported => TrashErrorCode::Unsupported,
                    TrashBackendError::Platform => TrashErrorCode::Platform,
                },
            ),
        }
    }
}

fn trash_failed_for_all(count: usize, code: TrashErrorCode) -> (result: TrashBatchResult)
    ensures
        trash_all_failed(result.items@, count as nat, code),
{
    let mut items: Vec<TrashItemResult> = Vec::new();
    let mut i: usize = 0;
    while i < count
        invariant
            i <= count,
            trash_all_failed(items@, i as nat, code),
        decreases count - i,
    {
        items.push(TrashItemResult { source_index: i, outcome: TrashItemOutcome::Failed(code) });
        i += 1;
    }
    TrashBatchResult { items }
}

#[derive(Clone, Copy, Debug, Default)]
pub struct TrashExecutor;

impl TrashExecutor {
    /// Trashes the sources of `plan` through `backend`, after checking the
    /// plan against the disk as `snapshot` describes it.
    pub fn execute_with_snapshot<B: TrashBackend>(
        &self,
        plan: &OperationPlan,
        snapshot: &PreflightSnapshot,
        backend: &B,
    ) -> (result: TrashBatchResult)
        ensures
            trash_batch_matches(backend, plan@, snapshot@, result.items@),
    {
        let sources = plan.sources();
        let count = sources.len();
        assert(count == plan@.sources.len());
        if plan.kind() != OperationKind::Trash {
            return trash_failed_for_all(count, TrashErrorCode::InvalidPlan);
        }
        match OperationPlanner.revalidate_with_snapshot(plan, snapshot) {
            Err(error) => {
                return trash_failed_for_all(count, map_validation_error(error.kind()));
            },
            Ok(()) => {},
        }
        let mut items: Vec<TrashItemResult> = Vec::new();
        let mut i: usize = 0;
        while i < count
            invariant
                i <= count,
                count == sources@.len(),
                crate::plan::sources_model(sources@) == plan@.sources,
                items@.len() == i,
                forall|j: int|
                    0 <= j < i ==> (#[trigger] items@[j]).source_index == j && exists|
                        answer: Result<(), TrashBackendError>,
                    |
                        #[trigger] backend_answer(backend, plan@.sources[j].path, answer) && items@[j].outcome
                            == trash_outcome(answer),
            decreases count - i,
        {
            let path = sources[i].native_path();
            assert(path@ == plan@.sources[i as int].path);
            let answer = backend.move_to_trash(path);
            assert(backend_answer(backend, plan@.sources[i as int].path, answer));
            let outcome = TrashItemOutcome::from_backend(answer);
            let ghost before = items@;
            items.push(TrashItemResult { source_index: i, outcome });
            assert forall|j: int| 0 <= j < i + 1 implies (#[trigger] items@[j]).source_index == j && exists|
                answer: Result<(), TrashBackendError>,
            |
                #[trigger] backend_answer(backend, plan@.sources[j].path, answer) && items@[j].outcome
                    == trash_outcome(answer) by {
                if j < i {
                    assert(items@[j] == before[j]);
                } else {
                    assert(backend_answer(backend, plan@.sources[j].path, answer));
                }
            }
            i += 1;
        }
        TrashBatchResult { items }
    }

    /// Trashes the sources of `plan` through `backend`, after checking the
    /// plan against the disk through `probe`.
    pub fn execute<P: PreflightProbe, B: TrashBackend>(
        &self,
        plan: &OperationPlan,
        probe: &P,
        backend: &B,
    ) -> (result: TrashBatchResult)
        ensures
            exists|snapshot: SnapshotModel|
                #[trigger] trash_batch_matches(backend, plan@, snapshot, result.items@)
                    && crate::plan::revalidation_snapshot(probe, plan@, snapshot),
    {
        let snapshot = snapshot_for_plan(plan, probe);
        self.execute_with_snapshot(plan, &snapshot, backend)
    }
}

/// Trashing reports one result per source, in the order of the sources,
/// whatever the disk and the backend answer; once the plan holds, the
/// result of each source is the backend's answer for that very source.
pub proof fn law_trash_reports_every_item<B: TrashBackend>(
    backend: &B,
    plan: PlanModel,
    snapshot: SnapshotModel,
    items: Seq<TrashItemResult>,
)
    requires
        trash_batch_matches(backend, plan, snapshot, items),
    ensures
        items.len() == plan.sources.len(),
        forall|i: int| 0 <= i < items.len() ==> (#[trigger] items[i]).source_index == i,
        plan.kind == OperationKind::Trash && revalidate_model(plan, snapshot) is Ok ==> forall|i: int|
            0 <= i < items.len() ==> (#[trigger] items[i]).source_index == i && exists|
                answer: Result<(), TrashBackendError>,
            |
                #[trigger] backend_answer(backend, plan.sources[i].path, answer) && items[i].outcome
                    == trash_outcome(answer),
{
}

} // verus!
