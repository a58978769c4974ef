//! Copying the sources of a copy plan: the decisions around the byte work.
//!
//! The byte work itself (staging files, committing them) is I/O and stays
//! with the caller, who drives a [`CopyRun`]: it asks for the next item,
//! reports each item's outcome and each chunk of copied bytes, and stops
//! when the run says the batch is complete.

use vstd::prelude::*;

use crate::error::IoErrorKind;
use crate::path::{parent_model, NativePath, PathModel};
use crate::plan::{
    revalidate_model, snapshot_for_plan, OperationKind, OperationPlan, OperationPlanner, PlanModel,
    PlanValidationErrorKind, SourceModel,
};
use crate::probe::{
    answer_paths, answered_by, estimate_at, probe_estimate_answer, PreflightProbe, PreflightSnapshot,
    SnapshotModel,
};

verus! {

/// Whether the user asked to stop a running copy.
pub trait CopyCancellation {
    fn is_cancelled(&self) -> bool;
}

/// A cancellation that is never requested.
#[derive(Clone, Copy, Debug, Default)]
pub struct NeverCancel;

impl CopyCancellation for NeverCancel {
    fn is_cancelled(&self) -> (cancelled: bool)
        ensures
            !cancelled,
    {
        false
    }
}

#[derive(Clone, Copy, Debug, PartialEq, Eq, Structural)]
pub struct CopyProgress {
    pub source_index: usize,
    pub bytes_copied: u64,
    pub total_bytes: u64,
}

/// Receives progress while bytes are copied.
pub trait CopyProgressObserver {
    fn on_progress(&mut self, progress: CopyProgress);
}

#[derive(Clone, Copy, Debug, PartialEq, Eq, Structural)]
pub enum CopyErrorCode {
    InvalidPlan,
    SourceChanged,
    Conflict,
    PermissionDenied,
    Cancelled,
    UnsupportedEntry,
    Io,
}

#[derive(Clone, Copy, Debug, PartialEq, Eq, Structural)]
pub enum CopyItemOutcome {
    Copied,
    Failed(CopyErrorCode),
}

#[derive(Clone, Copy, Debug, PartialEq, Eq, Structural)]
pub struct CopyItemResult {
    pub source_index: usize,
    pub outcome: CopyItemOutcome,
}

#[derive(Clone, Debug, PartialEq, Eq)]
pub struct CopyBatchResult {
    pub items: Vec<CopyItemResult>,
}

/// How a failed revalidation is reported for every item.
pub open spec fn copy_validation_code(kind: PlanValidationErrorKind) -> CopyErrorCode {
    match kind {
        PlanValidationErrorKind::Conflict { .. } | PlanValidationErrorKind::TargetChanged { .. } =>
            CopyErrorCode::Conflict,
        PlanValidationErrorKind::SourceChanged { .. } | PlanValidationErrorKind::MissingSource {
            ..
        } => CopyErrorCode::SourceChanged,
        PlanValidationErrorKind::SourceNotReadable { .. } | PlanValidationErrorKind::ParentNotWritable =>
            CopyErrorCode::PermissionDenied,
        _ => CopyErrorCode::InvalidPlan,
    }
}

/// How a failure of the operating system is reported.
pub open spec fn copy_io_code(kind: IoErrorKind) -> CopyErrorCode {
    match kind {
        IoErrorKind::AlreadyExists => CopyErrorCode::Conflict,
        IoErrorKind::NotFound => CopyErrorCode::SourceChanged,
        IoErrorKind::PermissionDenied => CopyErrorCode::PermissionDenied,
        _ => CopyErrorCode::Io,
    }
}

/// `a + b`, held at `u64::MAX`.
pub open spec fn saturating_sum(a: u64, b: u64) -> u64 {
    if a + b > u64::MAX {
        u64::MAX
    } else {
        (a + b) as u64
    }
}

/// The bytes copying `source` takes: the probe's estimate, or the length
/// the plan recorded when there is none.
pub open spec fn copy_bytes_of(snapshot: SnapshotModel, source: SourceModel) -> u64 {
    match estimate_at(snapshot, source.path) {
        Ok(Some(bytes)) => bytes,
        _ => source.byte_len,
    }
}

/// The bytes copying all `sources` takes, held at `u64::MAX`.
pub open spec fn copy_total(snapshot: SnapshotModel, sources: Seq<SourceModel>) -> u64
    decreases sources.len(),
{
    if sources.len() == 0 {
        0
    } else {
        saturating_sum(copy_total(snapshot, sources.drop_last()), copy_bytes_of(snapshot, sources.last()))
    }
}

/// Items `start` up to `count`, each failed with `code`.
pub open spec fn copy_failed_from(start: nat, count: nat, code: CopyErrorCode) -> Seq<CopyItemResult> {
    Seq::new(
        (count - start) as nat,
        |k: int| CopyItemResult { source_index: (start + k) as usize, outcome: CopyItemOutcome::Failed(code) },
    )
}

/// A copy batch in progress: how many items it has, the bytes it expects
/// and has copied so far, and the results of the items done, in order.
pub struct CopyRunModel {
    pub count: usize,
    pub total_bytes: u64,
    pub bytes_copied: u64,
    pub items: Seq<CopyItemResult>,
}

/// Every result recorded so far sits at the position of its item.
pub open spec fn copy_run_well_formed(run: CopyRunModel) -> bool {
    &&& run.items.len() <= run.count
    &&& forall|i: int| 0 <= i < run.items.len() ==> (#[trigger] run.items[i]).source_index == i
}

/// The run a copy plan starts, when the disk answers as `snapshot` says: a
/// plan of another kind or shape, or one that no longer holds, is complete
/// at once with every item failed; otherwise no item is done yet.
pub open spec fn copy_prepared(plan: PlanModel, snapshot: SnapshotModel, count: usize) -> CopyRunModel {
    if plan.kind != OperationKind::Copy || plan.sources.len() != plan.targets.len() {
        CopyRunModel {
            count,
            total_bytes: 0,
            bytes_copied: 0,
            items: copy_failed_from(0, count as nat, CopyErrorCode::InvalidPlan),
        }
    } else {
        match revalidate_model(plan, snapshot) {
            Err(kind) => CopyRunModel {
                count,
                total_bytes: 0,
                bytes_copied: 0,
                items: copy_failed_from(0, count as nat, copy_validation_code(kind)),
            },
            Ok(_) => CopyRunModel {
                count,
                total_bytes: copy_total(snapshot, plan.sources),
                bytes_copied: 0,
                items: Seq::empty(),
            },
        }
    }
}

/// The run after the next item ended as `result` says. A cancelled item
/// cancels every item after it.
pub open spec fn copy_recorded(run: CopyRunModel, result: Result<(), CopyErrorCode>) -> CopyRunModel {
    let index = run.items.len();
    match result {
        Ok(_) => CopyRunModel {
            items: run.items.push(CopyItemResult { source_index: index as usize, outcome: CopyItemOutcome::Copied }),
            ..run
        },
        Err(code) => {
            let failed = run.items.push(
                CopyItemResult { source_index: index as usize, outcome: CopyItemOutcome::Failed(code) },
            );
            if code == CopyErrorCode::Cancelled {
                CopyRunModel {
                    items: failed + copy_failed_from(index + 1, run.count as nat, CopyErrorCode::Cancelled),
                    ..run
                }
            } else {
                CopyRunModel { items: failed, ..run }
            }
        },
    }
}

fn failed_from(items: &mut Vec<CopyItemResult>, start: usize, count: usize, code: CopyErrorCode)
    requires
        start <= count,
    ensures
        final(items)@ == old(items)@ + copy_failed_from(start as nat, count as nat, code),
{
    let ghost original = items@;
    let mut i = start;
    while i < count
        invariant
            start <= i <= count,
            items@ == original + copy_failed_from(start as nat, i as nat, code),
        decreases count - i,
    {
        items.push(CopyItemResult { source_index: i, outcome: CopyItemOutcome::Failed(code) });
        i += 1;
        assert(items@ =~= original + copy_failed_from(start as nat, i as nat, code));
    }
}

impl CopyErrorCode {
    /// How a failure of the operating system is reported.
    pub fn from_io_error(kind: IoErrorKind) -> (code: Self)
        ensures
            code == copy_io_code(kind),
    {
        match kind {
            IoErrorKind::AlreadyExists => CopyErrorCode::Conflict,
            IoErrorKind::NotFound => CopyErrorCode::SourceChanged,
            IoErrorKind::PermissionDenied => CopyErrorCode::PermissionDenied,
            _ => CopyErrorCode::Io,
        }
    }

    /// How a failed revalidation is reported.
    pub fn from_validation_error(kind: &PlanValidationErrorKind) -> (code: Self)
        ensures
            code == copy_validation_code(*kind),
    {
        match kind {
            PlanValidationErrorKind::Conflict { .. } | PlanValidationErrorKind::TargetChanged {
                ..
            } => CopyErrorCode::Conflict,
            PlanValidationErrorKind::SourceChanged { .. }
            | PlanValidationErrorKind::MissingSource { .. } => CopyErrorCode::SourceChanged,
            PlanValidationErrorKind::SourceNotReadable { .. }
            | PlanValidationErrorKind::ParentNotWritable => CopyErrorCode::PermissionDenied,
            _ => CopyErrorCode::InvalidPlan,
        }
    }
}

/// What to do with the next item of a copy.
pub enum CopyStep {
    /// Every item has a result.
    Done,
    /// The item was settled without copying; go on with the next one.
    Skipped,
    /// Copy `source` to `target` through a staging entry in
    /// `staging_parent`, then record the result.
    Copy { index: usize, source: NativePath, target: NativePath, staging_parent: NativePath },
}

/// A copy batch in progress.
pub struct CopyRun {
    count: usize,
    total_bytes: u64,
    bytes_copied: u64,
    items: Vec<CopyItemResult>,
}

impl View for CopyRun {
    type V = CopyRunModel;

    closed spec fn view(&self) -> CopyRunModel {
        CopyRunModel {
            count: self.count,
            total_bytes: self.total_bytes,
            bytes_copied: self.bytes_copied,
            items: self.items@,
        }
    }
}

impl CopyRun {
    /// The item to copy next; `None` once every item has a result.
    pub fn next_index(&self) -> (index: Option<usize>)
        ensures
            index == if self@.items.len() < self@.count {
                Some(self@.items.len() as usize)
            } else {
                None::<usize>
            },
    {
        if self.items.len() < self.count {
            Some(self.items.len())
        } else {
            None
        }
    }

    pub fn total_bytes(&self) -> (total: u64)
        ensures
            total == self@.total_bytes,
    {
        self.total_bytes
    }

    pub fn bytes_copied(&self) -> (copied: u64)
        ensures
            copied == self@.bytes_copied,
    {
        self.bytes_copied
    }

    /// Cancellation was observed before the next item: it and every item
    /// after it are cancelled.
    pub fn cancel_remaining(&mut self)
        requires
            copy_run_well_formed(old(self)@),
        ensures
            copy_run_well_formed(final(self)@),
            final(self)@ == (CopyRunModel {
                items: old(self)@.items + copy_failed_from(
                    old(self)@.items.len(),
                    old(self)@.count as nat,
                    CopyErrorCode::Cancelled,
                ),
                ..old(self)@
            }),
    {
        let start = self.items.len();
        failed_from(&mut self.items, start, self.count, CopyErrorCode::Cancelled);
    }

    /// Records how the next item ended.
    pub fn record(&mut self, result: Result<(), CopyErrorCode>)
        requires
            copy_run_well_formed(old(self)@),
            old(self)@.items.len() < old(self)@.count,
        ensures
            copy_run_well_formed(final(self)@),
            final(self)@ == copy_recorded(old(self)@, result),
    {
        let index = self.items.len();
        match result {
            Ok(()) => {
                self.items.push(CopyItemResult { source_index: index, outcome: CopyItemOutcome::Copied });
            },
            Err(code) => {
                self.items.push(CopyItemResult { source_index: index, outcome: CopyItemOutcome::Failed(code) });
                if code == CopyErrorCode::Cancelled {
                    failed_from(&mut self.items, index + 1, self.count, CopyErrorCode::Cancelled);
                }
            },
        }
    }

    /// Counts `read` more bytes copied for the next item and reports the
    /// progress that makes.
    pub fn add_copied_bytes(&mut self, read: u64) -> (progress: CopyProgress)
        requires
            old(self)@.items.len() < old(self)@.count,
        ensures
            final(self)@ == (CopyRunModel {
                bytes_copied: saturating_sum(old(self)@.bytes_copied, read),
                ..old(self)@
            }),
            progress == (CopyProgress {
                source_index: old(self)@.items.len() as usize,
                bytes_copied: final(self)@.bytes_copied,
                total_bytes: old(self)@.total_bytes,
            }),
    {
        self.bytes_copied = self.bytes_copied.saturating_add(read);
        CopyProgress {
            source_index: self.items.len(),
            bytes_copied: self.bytes_copied,
            total_bytes: self.total_bytes,
        }
    }

    /// Decides what happens to the next item of `plan`: nothing once every
    /// item has a result; every remaining item is cancelled when
    /// cancellation was observed; an item whose target has no parent fails
    /// as an invalid plan; otherwise the item is to be copied through a
    /// staging entry in the target's parent.
    pub fn begin_item(&mut self, plan: &OperationPlan, cancelled: bool) -> (step: CopyStep)
        requires
            copy_run_well_formed(old(self)@),
        ensures
            copy_run_well_formed(final(self)@),
            old(self)@.items.len() >= old(self)@.count ==> step is Done && final(self)@ == old(self)@,
            old(self)@.items.len() < old(self)@.count && cancelled ==> step is Done && final(self)@ == (
            CopyRunModel {
                items: old(self)@.items + copy_failed_from(
                    old(self)@.items.len(),
                    old(self)@.count as nat,
                    CopyErrorCode::Cancelled,
                ),
                ..old(self)@
            }),
            old(self)@.items.len() < old(self)@.count && !cancelled ==> {
                let index = old(self)@.items.len() as int;
                if index < plan@.sources.len() && index < plan@.targets.len() && parent_model(
                    plan@.targets[index].path,
                ) is Some {
                    &&& step matches CopyStep::Copy { index: i, source, target, staging_parent } && i == index
                        && source@ == plan@.sources[index].path && target@ == plan@.targets[index].path
                        && staging_parent@ == parent_model(plan@.targets[index].path)->0
                    &&& final(self)@ == old(self)@
                } else {
                    &&& step is Skipped
                    &&& final(self)@ == copy_recorded(old(self)@, Err(CopyErrorCode::InvalidPlan))
                }
            },
    {
        let index = self.items.len();
        if index >= self.count {
            return CopyStep::Done;
        }
        if cancelled {
            self.cancel_remaining();
            return CopyStep::Done;
        }
        let sources = plan.sources();
        let targets = plan.targets();
        if index >= sources.len() || index >= targets.len() {
            self.record(Err(CopyErrorCode::InvalidPlan));
            return CopyStep::Skipped;
        }
        let target = targets[index].native_path();
        match target.parent() {
            Some(staging_parent) => CopyStep::Copy {
                index,
                source: sources[index].native_path().duplicate(),
                target: target.duplicate(),
                staging_parent,
            },
            None => {
                self.record(Err(CopyErrorCode::InvalidPlan));
                CopyStep::Skipped
            },
        }
    }

    /// The results of the batch.
    pub fn into_result(self) -> (result: CopyBatchResult)
        ensures
            result.items@ == self@.items,
    {
        CopyBatchResult { items: self.items }
    }
}

fn copy_total_exec(snapshot: &PreflightSnapshot, plan: &OperationPlan) -> (total: u64)
    ensures
        total == copy_total(snapshot@, plan@.sources),
{
    let sources = plan.sources();
    let mut total: u64 = 0;
    let mut i: usize = 0;
    while i < sources.len()
        invariant
            i <= sources@.len(),
            sources@.len() == plan@.sources.len(),
            forall|j: int| 0 <= j < sources@.len() ==> sources@[j]@ == #[trigger] plan@.sources[j],
            total == copy_total(snapshot@, plan@.sources.take(i as int)),
        decreases sources.len() - i,
    {
        let source = &sources[i];
        let bytes = match snapshot.estimate_of(source.native_path()) {
            Ok(Some(bytes)) => bytes,
            _ => source.byte_len(),
        };
        assert(plan@.sources.take(i + 1).drop_last() =~= plan@.sources.take(i as int));
        total = total.saturating_add(bytes);
        i += 1;
    }
    assert(plan@.sources.take(i as int) =~= plan@.sources);
    total
}

/// Whether a source of a move leaves the volume of its target's parent.
pub open spec fn crosses_volume(source: crate::plan::SourceModel, target: crate::plan::TargetModel) -> bool {
    source.identity.volume_id != target.parent_identity.volume_id
}

/// The first `count` sources whose copy size a run asks for, in order:
/// every source, or only those that cross volumes.
pub open spec fn estimated_sources(
    sources: Seq<crate::plan::SourceModel>,
    targets: Seq<crate::plan::TargetModel>,
    only_crossing: bool,
    count: nat,
) -> Seq<PathModel>
    decreases count,
{
    if count == 0 {
        seq![]
    } else {
        let i = count - 1;
        let asked: Seq<PathModel> = if !only_crossing || crosses_volume(sources[i], targets[i]) {
            seq![sources[i].path]
        } else {
            seq![]
        };
        estimated_sources(sources, targets, only_crossing, (count - 1) as nat) + asked
    }
}

/// Records in `snapshot` the probe's copy size of each source of `plan`, in
/// order: every source, or only those that cross volumes.
pub(crate) fn record_estimates<P: PreflightProbe>(
    plan: &OperationPlan,
    probe: &P,
    snapshot: &mut PreflightSnapshot,
    only_crossing: bool,
)
    requires
        only_crossing ==> plan@.targets.len() == plan@.sources.len(),
    ensures
        final(snapshot)@.states == old(snapshot)@.states,
        final(snapshot)@.spaces == old(snapshot)@.spaces,
        final(snapshot)@.estimates.take(old(snapshot)@.estimates.len() as int) == old(snapshot)@.estimates,
        answer_paths(final(snapshot)@.estimates.skip(old(snapshot)@.estimates.len() as int)) == estimated_sources(
            plan@.sources,
            plan@.targets,
            only_crossing,
            plan@.sources.len(),
        ),
        forall|k: int|
            old(snapshot)@.estimates.len() <= k < final(snapshot)@.estimates.len() ==> probe_estimate_answer(
                probe,
                (#[trigger] final(snapshot)@.estimates[k]).0,
                final(snapshot)@.estimates[k].1,
            ),
        crate::plan::revalidation_snapshot(probe, plan@, old(snapshot)@) ==> crate::plan::estimating_snapshot(
            probe,
            plan@,
            final(snapshot)@,
            estimated_sources(plan@.sources, plan@.targets, only_crossing, plan@.sources.len()),
        ),
{
    let ghost before = snapshot@;
    let sources = plan.sources();
    let targets = plan.targets();
    assert(answer_paths(snapshot@.estimates.skip(before.estimates.len() as int)) =~= Seq::<PathModel>::empty());
    let mut i: usize = 0;
    while i < sources.len()
        invariant
            i <= sources@.len(),
            crate::plan::sources_model(sources@) == plan@.sources,
            crate::plan::targets_model(targets@) == plan@.targets,
            only_crossing ==> plan@.targets.len() == plan@.sources.len(),
            snapshot@.states == before.states,
            snapshot@.spaces == before.spaces,
            snapshot@.estimates.len() >= before.estimates.len(),
            snapshot@.estimates.take(before.estimates.len() as int) == before.estimates,
            answer_paths(snapshot@.estimates.skip(before.estimates.len() as int)) == estimated_sources(
                plan@.sources,
                plan@.targets,
                only_crossing,
                i as nat,
            ),
            forall|k: int|
                before.estimates.len() <= k < snapshot@.estimates.len() ==> probe_estimate_answer(
                    probe,
                    (#[trigger] snapshot@.estimates[k]).0,
                    snapshot@.estimates[k].1,
                ),
        decreases sources.len() - i,
    {
        let path = sources[i].native_path();
        assert(path@ == plan@.sources[i as int].path);
        let asks = if only_crossing {
            sources[i].identity().volume_id != targets[i].parent_identity().volume_id
        } else {
            true
        };
        assert(asks == (!only_crossing || crosses_volume(plan@.sources[i as int], plan@.targets[i as int])));
        let ghost previous = snapshot@;
        if asks {
            let estimate = probe.estimated_copy_bytes(path);
            assert(probe_estimate_answer(probe, path@, estimate));
            snapshot.record_estimate(path.duplicate(), estimate);
            assert(snapshot@.estimates.take(before.estimates.len() as int) =~= previous.estimates.take(
                before.estimates.len() as int,
            ));
            assert(snapshot@.estimates.skip(before.estimates.len() as int) =~= previous.estimates.skip(
                before.estimates.len() as int,
            ).push((path@, estimate)));
            proof {
                crate::probe::lemma_answer_paths_push(
                    previous.estimates.skip(before.estimates.len() as int),
                    (path@, estimate),
                );
            }
        }
        assert(answer_paths(snapshot@.estimates.skip(before.estimates.len() as int)) =~= estimated_sources(
            plan@.sources,
            plan@.targets,
            only_crossing,
            (i + 1) as nat,
        ));
        i += 1;
    }
    proof {
        if crate::plan::revalidation_snapshot(probe, plan@, before) {
            assert(snapshot@.estimates.skip(0) =~= snapshot@.estimates);
        }
    }
}

/// Whether copying `plan` gets past its checks when the disk answers as
/// `snapshot` says; only then are copy sizes asked for.
pub open spec fn copy_proceeds(plan: PlanModel, snapshot: SnapshotModel) -> bool {
    &&& plan.kind == OperationKind::Copy
    &&& plan.sources.len() == plan.targets.len()
    &&& revalidate_model(plan, snapshot) is Ok
}

#[derive(Clone, Copy, Debug, Default)]
pub struct CopyExecutor;

impl CopyExecutor {
    /// Starts copying `plan` after checking it against the disk as
    /// `snapshot` describes it.
    pub fn prepare_with_snapshot(&self, plan: &OperationPlan, snapshot: &PreflightSnapshot) -> (run:
        CopyRun)
        ensures
            copy_run_well_formed(run@),
            run@ == copy_prepared(plan@, snapshot@, plan@.sources.len() as usize),
            run@.count == plan@.sources.len(),
    {
        let count = plan.sources().len();
        let mut items: Vec<CopyItemResult> = Vec::new();
        if plan.kind() != OperationKind::Copy || count != plan.targets().len() {
            failed_from(&mut items, 0, count, CopyErrorCode::InvalidPlan);
            assert(items@ =~= copy_failed_from(0, count as nat, CopyErrorCode::InvalidPlan));
            return CopyRun { count, total_bytes: 0, bytes_copied: 0, items };
        }
        match OperationPlanner.revalidate_with_snapshot(plan, snapshot) {
            Err(error) => {
                let code = CopyErrorCode::from_validation_error(error.kind());
                failed_from(&mut items, 0, count, code);
                assert(items@ =~= copy_failed_from(0, count as nat, code));
                return CopyRun { count, total_bytes: 0, bytes_copied: 0, items };
            },
            Ok(()) => {},
        }
        let total_bytes = copy_total_exec(snapshot, plan);
        CopyRun { count, total_bytes, bytes_copied: 0, items }
    }

    /// Starts copying `plan` after checking it against the disk through
    /// `probe`, which also estimates the bytes each source takes.
    pub fn prepare<P: PreflightProbe>(&self, plan: &OperationPlan, probe: &P) -> (run: CopyRun)
        ensures
            copy_run_well_formed(run@),
            exists|snapshot: SnapshotModel|
                run@ == #[trigger] copy_prepared(plan@, snapshot, plan@.sources.len() as usize)
                    && crate::plan::estimating_snapshot(
                    probe,
                    plan@,
                    snapshot,
                    if copy_proceeds(plan@, snapshot) {
                        estimated_sources(plan@.sources, plan@.targets, false, plan@.sources.len())
                    } else {
                        Seq::<PathModel>::empty()
                    },
                ),
    {
        let mut snapshot = snapshot_for_plan(plan, probe);
        let ghost checked = snapshot@;
        if plan.kind() == OperationKind::Copy && plan.sources().len() == plan.targets().len() {
            if OperationPlanner.revalidate_with_snapshot(plan, &snapshot).is_ok() {
                record_estimates(plan, probe, &mut snapshot, false);
            }
        }
        proof {
            crate::plan::lemma_revalidate_ignores_estimates(plan@, checked, snapshot@);
            if !copy_proceeds(plan@, snapshot@) {
                assert(answer_paths(snapshot@.estimates) =~= Seq::<PathModel>::empty());
            }
        }
        self.prepare_with_snapshot(plan, &snapshot)
    }
}

/// A copy reports one result per item, in item order, once the run is
/// complete.
pub proof fn law_copy_reports_every_item(run: CopyRunModel)
    requires
        copy_run_well_formed(run),
        run.items.len() >= run.count,
    ensures
        run.items.len() == run.count,
        forall|i: int| 0 <= i < run.count ==> (#[trigger] run.items[i]).source_index == i,
{
}

/// Cancellation stops a copy: once an item is cancelled, the run is
/// complete and every later item is cancelled too.
pub proof fn law_copy_cancellation_stops_the_batch(run: CopyRunModel)
    requires
        copy_run_well_formed(run),
        run.items.len() < run.count,
    ensures
        ({
            let after = copy_recorded(run, Err(CopyErrorCode::Cancelled));
            &&& copy_run_well_formed(after)
            &&& after.items.len() == run.count
            &&& forall|i: int|
                run.items.len() <= i < run.count ==> (#[trigger] after.items[i]).outcome
                    == CopyItemOutcome::Failed(CopyErrorCode::Cancelled)
        }),
{
}

} // verus!
