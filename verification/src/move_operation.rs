//! Moving the sources of a move plan: the decisions around the disk work.
//!
//! A source on the target's volume is renamed in place. Any other source is
//! copied to a staging entry, verified, committed, verified again, and only
//! then removed; the caller performs these steps and reports each result to
//! a [`CrossVolumeStage`], and reports each item's outcome to a [`MoveRun`].

use vstd::prelude::*;

use crate::copy::{
    copy_bytes_of, estimated_sources, record_estimates, saturating_sum, CopyErrorCode, CopyProgress,
};
use crate::error::IoErrorKind;
use crate::path::{byte_strings, bytes_equal, parent_model, NativePath, PathModel};
use crate::reader::RawMetadata;
use crate::plan::{
    revalidate_model, snapshot_for_plan, OperationKind, OperationPlan, OperationPlanner, PlanModel,
    PlanValidationErrorKind, SourceModel, TargetModel,
};
use crate::probe::{answer_paths, PreflightProbe, PreflightSnapshot, SnapshotModel};

verus! {

#[derive(Clone, Copy, Debug, PartialEq, Eq, Structural)]
pub enum MoveErrorCode {
    InvalidPlan,
    SourceChanged,
    Conflict,
    PermissionDenied,
    Cancelled,
    VerificationFailed,
    UnsupportedEntry,
    Io,
}

#[derive(Clone, Copy, Debug, PartialEq, Eq, Structural)]
pub enum MoveItemOutcome {
    Moved,
    Failed(MoveErrorCode),
    CopiedButSourceNotRemoved(MoveErrorCode),
}

#[derive(Clone, Copy, Debug, PartialEq, Eq, Structural)]
pub struct MoveItemResult {
    pub source_index: usize,
    pub outcome: MoveItemOutcome,
}

#[derive(Clone, Debug, PartialEq, Eq)]
pub struct MoveBatchResult {
    pub items: Vec<MoveItemResult>,
}

/// Removes a source once its copy has been verified.
pub trait SourceRemover {
    fn remove_source(&self, path: &NativePath) -> Result<(), MoveErrorCode>;
}

/// How one item moves.
#[derive(Clone, Copy, Debug, PartialEq, Eq, Structural)]
pub enum MoveRoute {
    /// An atomic rename that never replaces an existing target.
    SameVolume,
    /// Copy, verify, commit, verify, remove.
    AcrossVolumes,
}

pub open spec fn move_validation_code(kind: PlanValidationErrorKind) -> MoveErrorCode {
    match kind {
        PlanValidationErrorKind::Conflict { .. } | PlanValidationErrorKind::TargetChanged { .. } =>
            MoveErrorCode::Conflict,
        PlanValidationErrorKind::MissingSource { .. } | PlanValidationErrorKind::SourceChanged {
            ..
        } => MoveErrorCode::SourceChanged,
        PlanValidationErrorKind::SourceNotReadable { .. } | PlanValidationErrorKind::ParentNotWritable
        | PlanValidationErrorKind::ParentChanged { .. } => MoveErrorCode::PermissionDenied,
        _ => MoveErrorCode::InvalidPlan,
    }
}

pub open spec fn move_io_code(kind: IoErrorKind) -> MoveErrorCode {
    match kind {
        IoErrorKind::AlreadyExists => MoveErrorCode::Conflict,
        IoErrorKind::NotFound => MoveErrorCode::SourceChanged,
        IoErrorKind::PermissionDenied => MoveErrorCode::PermissionDenied,
        _ => MoveErrorCode::Io,
    }
}

pub open spec fn move_copy_code(code: CopyErrorCode) -> MoveErrorCode {
    match code {
        CopyErrorCode::InvalidPlan => MoveErrorCode::InvalidPlan,
        CopyErrorCode::SourceChanged => MoveErrorCode::SourceChanged,
        CopyErrorCode::Conflict => MoveErrorCode::Conflict,
        CopyErrorCode::PermissionDenied => MoveErrorCode::PermissionDenied,
        CopyErrorCode::Cancelled => MoveErrorCode::Cancelled,
        CopyErrorCode::UnsupportedEntry => MoveErrorCode::UnsupportedEntry,
        CopyErrorCode::Io => MoveErrorCode::Io,
    }
}

impl MoveErrorCode {
    pub fn from_io_error(kind: IoErrorKind) -> (code: Self)
        ensures
            code == move_io_code(kind),
    {
        match kind {
            IoErrorKind::AlreadyExists => MoveErrorCode::Conflict,
            IoErrorKind::NotFound => MoveErrorCode::SourceChanged,
            IoErrorKind::PermissionDenied => MoveErrorCode::PermissionDenied,
            _ => MoveErrorCode::Io,
        }
    }

    pub fn from_copy_error(code: CopyErrorCode) -> (moved: Self)
        ensures
            moved == move_copy_code(code),
    {
        match code {
            CopyErrorCode::InvalidPlan => MoveErrorCode::InvalidPlan,
            CopyErrorCode::SourceChanged => MoveErrorCode::SourceChanged,
            CopyErrorCode::Conflict => MoveErrorCode::Conflict,
            CopyErrorCode::PermissionDenied => MoveErrorCode::PermissionDenied,
            CopyErrorCode::Cancelled => MoveErrorCode::Cancelled,
            CopyErrorCode::UnsupportedEntry => MoveErrorCode::UnsupportedEntry,
            CopyErrorCode::Io => MoveErrorCode::Io,
        }
    }

    pub fn from_validation_error(kind: &PlanValidationErrorKind) -> (code: Self)
        ensures
            code == move_validation_code(*kind),
    {
        match kind {
            PlanValidationErrorKind::Conflict { .. } | PlanValidationErrorKind::TargetChanged {
                ..
            } => MoveErrorCode::Conflict,
            PlanValidationErrorKind::MissingSource { .. }
            | PlanValidationErrorKind::SourceChanged { .. } => MoveErrorCode::SourceChanged,
            PlanValidationErrorKind::SourceNotReadable { .. }
            | PlanValidationErrorKind::ParentNotWritable
            | PlanValidationErrorKind::ParentChanged { .. } => MoveErrorCode::PermissionDenied,
            _ => MoveErrorCode::InvalidPlan,
        }
    }
}

impl MoveItemOutcome {
    /// The outcome of a same-volume item, given how the rename went.
    pub fn from_rename(result: Result<(), MoveErrorCode>) -> (outcome: Self)
        ensures
            outcome == match result {
                Ok(_) => MoveItemOutcome::Moved,
                Err(code) => MoveItemOutcome::Failed(code),
            },
    {
        match result {
            Ok(()) => MoveItemOutcome::Moved,
            Err(code) => MoveItemOutcome::Failed(code),
        }
    }
}

/// The stages of a move across volumes.
#[derive(Clone, Copy, Debug, PartialEq, Eq, Structural)]
pub enum CrossVolumeStage {
    /// Copying to a staging entry, checking cancellation, verifying the
    /// staged copy and committing it to the target.
    Staging,
    /// Verifying the committed target against the source.
    VerifyingTarget,
    /// Removing the source.
    RemovingSource,
}

#[derive(Clone, Copy, Debug, PartialEq, Eq, Structural)]
pub enum CrossVolumeNext {
    Continue(CrossVolumeStage),
    Finished(MoveItemOutcome),
}

/// Where a cross-volume move goes after `stage` ended as `result` says.
pub open spec fn cross_volume_next(stage: CrossVolumeStage, result: Result<(), MoveErrorCode>) -> CrossVolumeNext {
    match (stage, result) {
        (CrossVolumeStage::Staging, Ok(_)) => CrossVolumeNext::Continue(CrossVolumeStage::VerifyingTarget),
        (CrossVolumeStage::Staging, Err(code)) => CrossVolumeNext::Finished(MoveItemOutcome::Failed(code)),
        (CrossVolumeStage::VerifyingTarget, Ok(_)) => CrossVolumeNext::Continue(
            CrossVolumeStage::RemovingSource,
        ),
        (CrossVolumeStage::VerifyingTarget, Err(code)) => CrossVolumeNext::Finished(
            MoveItemOutcome::CopiedButSourceNotRemoved(code),
        ),
        (CrossVolumeStage::RemovingSource, Ok(_)) => CrossVolumeNext::Finished(MoveItemOutcome::Moved),
        (CrossVolumeStage::RemovingSource, Err(code)) => CrossVolumeNext::Finished(
            MoveItemOutcome::CopiedButSourceNotRemoved(code),
        ),
    }
}

impl CrossVolumeStage {
    /// Where the move goes after this stage ended as `result` says.
    pub fn advance(self, result: Result<(), MoveErrorCode>) -> (next: CrossVolumeNext)
        ensures
            next == cross_volume_next(self, result),
    {
        match (self, result) {
            (CrossVolumeStage::Staging, Ok(())) => CrossVolumeNext::Continue(CrossVolumeStage::VerifyingTarget),
            (CrossVolumeStage::Staging, Err(code)) => CrossVolumeNext::Finished(MoveItemOutcome::Failed(code)),
            (CrossVolumeStage::VerifyingTarget, Ok(())) => CrossVolumeNext::Continue(
                CrossVolumeStage::RemovingSource,
            ),
            (CrossVolumeStage::VerifyingTarget, Err(code)) => CrossVolumeNext::Finished(
                MoveItemOutcome::CopiedButSourceNotRemoved(code),
            ),
            (CrossVolumeStage::RemovingSource, Ok(())) => CrossVolumeNext::Finished(MoveItemOutcome::Moved),
            (CrossVolumeStage::RemovingSource, Err(code)) => CrossVolumeNext::Finished(
                MoveItemOutcome::CopiedButSourceNotRemoved(code),
            ),
        }
    }
}

/// A source is only ever removed after both its staged copy and its
/// committed target were verified, and a move across volumes only reports
/// success once the source is gone.
pub proof fn law_source_removed_only_after_verification(
    stage: CrossVolumeStage,
    result: Result<(), MoveErrorCode>,
)
    ensures
        cross_volume_next(stage, result) == CrossVolumeNext::Continue(CrossVolumeStage::RemovingSource)
            ==> stage == CrossVolumeStage::VerifyingTarget && result is Ok,
        cross_volume_next(stage, result) == CrossVolumeNext::Continue(CrossVolumeStage::VerifyingTarget)
            ==> stage == CrossVolumeStage::Staging && result is Ok,
        cross_volume_next(stage, result) == CrossVolumeNext::Finished(MoveItemOutcome::Moved) ==> stage
            == CrossVolumeStage::RemovingSource && result is Ok,
{
}

pub open spec fn move_route(source: SourceModel, target: TargetModel) -> MoveRoute {
    if source.identity.volume_id == target.parent_identity.volume_id {
        MoveRoute::SameVolume
    } else {
        MoveRoute::AcrossVolumes
    }
}

/// The bytes a move copies: those of the sources that cross volumes.
pub open spec fn move_total(snapshot: SnapshotModel, sources: Seq<SourceModel>, targets: Seq<TargetModel>, count: nat) -> u64
    decreases count,
{
    if count == 0 {
        0
    } else {
        let before = move_total(snapshot, sources, targets, (count - 1) as nat);
        if move_route(sources[count - 1], targets[count - 1]) == MoveRoute::SameVolume {
            before
        } else {
            saturating_sum(before, copy_bytes_of(snapshot, sources[count - 1]))
        }
    }
}

pub open spec fn move_failed_from(start: nat, count: nat, code: MoveErrorCode) -> Seq<MoveItemResult> {
    Seq::new(
        (count - start) as nat,
        |k: int| MoveItemResult { source_index: (start + k) as usize, outcome: MoveItemOutcome::Failed(code) },
    )
}

/// A move batch in progress: its item count, the route of each item, the
/// bytes it expects to copy and has copied, and the results so far.
pub struct MoveRunModel {
    pub count: usize,
    pub routes: Seq<MoveRoute>,
    pub total_bytes: u64,
    pub bytes_copied: u64,
    pub items: Seq<MoveItemResult>,
}

pub open spec fn move_run_well_formed(run: MoveRunModel) -> bool {
    &&& run.items.len() <= run.count
    &&& run.items.len() < run.count ==> run.routes.len() == run.count
    &&& forall|i: int| 0 <= i < run.items.len() ==> (#[trigger] run.items[i]).source_index == i
}

pub open spec fn move_prepared(plan: PlanModel, snapshot: SnapshotModel, count: usize) -> MoveRunModel {
    if plan.kind != OperationKind::Move || plan.sources.len() != plan.targets.len() {
        MoveRunModel {
            count,
            routes: Seq::empty(),
            total_bytes: 0,
            bytes_copied: 0,
            items: move_failed_from(0, count as nat, MoveErrorCode::InvalidPlan),
        }
    } else {
        match revalidate_model(plan, snapshot) {
            Err(kind) => MoveRunModel {
                count,
                routes: Seq::empty(),
                total_bytes: 0,
                bytes_copied: 0,
                items: move_failed_from(0, count as nat, move_validation_code(kind)),
            },
            Ok(_) => MoveRunModel {
                count,
                routes: Seq::new(plan.sources.len(), |i: int| move_route(plan.sources[i], plan.targets[i])),
                total_bytes: move_total(snapshot, plan.sources, plan.targets, plan.sources.len()),
                bytes_copied: 0,
                items: Seq::empty(),
            },
        }
    }
}

/// The run after the next item ended with `outcome`; a cancelled item
/// cancels every item after it.
pub open spec fn move_recorded(run: MoveRunModel, outcome: MoveItemOutcome) -> MoveRunModel {
    let index = run.items.len();
    let pushed = run.items.push(MoveItemResult { source_index: index as usize, outcome });
    if outcome == MoveItemOutcome::Failed(MoveErrorCode::Cancelled) {
        MoveRunModel {
            items: pushed + move_failed_from(index + 1, run.count as nat, MoveErrorCode::Cancelled),
            ..run
        }
    } else {
        MoveRunModel { items: pushed, ..run }
    }
}

fn move_failed_items(items: &mut Vec<MoveItemResult>, start: usize, count: usize, code: MoveErrorCode)
    requires
        start <= count,
    ensures
        final(items)@ == old(items)@ + move_failed_from(start as nat, count as nat, code),
{
    let ghost original = items@;
    let mut i = start;
    while i < count
        invariant
            start <= i <= count,
            items@ == original + move_failed_from(start as nat, i as nat, code),
        decreases count - i,
    {
        items.push(MoveItemResult { source_index: i, outcome: MoveItemOutcome::Failed(code) });
        i += 1;
        assert(items@ =~= original + move_failed_from(start as nat, i as nat, code));
    }
}

/// What to do with the next item of a move.
pub enum MoveStep {
    /// Every item has a result.
    Done,
    /// The item was settled without touching the disk; go on with the next.
    Skipped,
    /// Rename `source` to `target` on their common volume.
    Rename { index: usize, source: NativePath, target: NativePath },
    /// Move `source` to `target` across volumes, staging the copy in
    /// `staging_parent`.
    AcrossVolumes { index: usize, source: NativePath, target: NativePath, staging_parent: NativePath },
}

/// A move batch in progress.
pub struct MoveRun {
    count: usize,
    routes: Vec<MoveRoute>,
    total_bytes: u64,
    bytes_copied: u64,
    items: Vec<MoveItemResult>,
}

impl View for MoveRun {
    type V = MoveRunModel;

    closed spec fn view(&self) -> MoveRunModel {
        MoveRunModel {
            count: self.count,
            routes: self.routes@,
            total_bytes: self.total_bytes,
            bytes_copied: self.bytes_copied,
            items: self.items@,
        }
    }
}

impl MoveRun {
    /// The item to move next and its route; `None` once every item has a
    /// result.
    pub fn next_item(&self) -> (next: Option<(usize, MoveRoute)>)
        requires
            move_run_well_formed(self@),
        ensures
            next == if self@.items.len() < self@.count {
                Some((self@.items.len() as usize, self@.routes[self@.items.len() as int]))
            } else {
                None::<(usize, MoveRoute)>
            },
    {
        let index = self.items.len();
        if index < self.count {
            Some((index, self.routes[index]))
        } else {
            None
        }
    }

    pub fn total_bytes(&self) -> (total: u64)
        ensures
            total == self@.total_bytes,
    {
        self.total_bytes
    }

    /// Cancellation was observed before the next item.
    pub fn cancel_remaining(&mut self)
        requires
            move_run_well_formed(old(self)@),
        ensures
            move_run_well_formed(final(self)@),
            final(self)@ == (MoveRunModel {
                items: old(self)@.items + move_failed_from(
                    old(self)@.items.len(),
                    old(self)@.count as nat,
                    MoveErrorCode::Cancelled,
                ),
                ..old(self)@
            }),
    {
        let start = self.items.len();
        move_failed_items(&mut self.items, start, self.count, MoveErrorCode::Cancelled);
    }

    /// Records how the next item ended.
    pub fn record(&mut self, outcome: MoveItemOutcome)
        requires
            move_run_well_formed(old(self)@),
            old(self)@.items.len() < old(self)@.count,
        ensures
            move_run_well_formed(final(self)@),
            final(self)@ == move_recorded(old(self)@, outcome),
    {
        let index = self.items.len();
        self.items.push(MoveItemResult { source_index: index, outcome });
        if outcome == MoveItemOutcome::Failed(MoveErrorCode::Cancelled) {
            move_failed_items(&mut self.items, index + 1, self.count, MoveErrorCode::Cancelled);
        }
    }

    /// Counts `read` more bytes copied for the next item and reports the
    /// progress that makes.
    pub fn add_copied_bytes(&mut self, read: u64) -> (progress: CopyProgress)
        requires
            old(self)@.items.len() < old(self)@.count,
        ensures
            final(self)@ == (MoveRunModel {
                bytes_copied: saturating_sum(old(self)@.bytes_copied, read),
                ..old(self)@
            }),
            progress == (CopyProgress {
                source_index: old(self)@.items.len() as usize,
                bytes_copied: final(self)@.bytes_copied,
                total_bytes: old(self)@.total_bytes,
            }),
    {
        self.bytes_copied = self.bytes_copied.saturating_add(read);
        CopyProgress {
            source_index: self.items.len(),
            bytes_copied: self.bytes_copied,
            total_bytes: self.total_bytes,
        }
    }

    /// Decides what happens to the next item of `plan`: nothing once every
    /// item has a result; every remaining item is cancelled when
    /// cancellation was observed; an item on one volume is renamed in
    /// place; an item across volumes is staged in its target's parent, and
    /// fails as an invalid plan when the target has no parent.
    pub fn begin_item(&mut self, plan: &OperationPlan, cancelled: bool) -> (step: MoveStep)
        requires
            move_run_well_formed(old(self)@),
        ensures
            move_run_well_formed(final(self)@),
            old(self)@.items.len() >= old(self)@.count ==> step is Done && final(self)@ == old(self)@,
            old(self)@.items.len() < old(self)@.count && cancelled ==> step is Done && final(self)@ == (
            MoveRunModel {
                items: old(self)@.items + move_failed_from(
                    old(self)@.items.len(),
                    old(self)@.count as nat,
                    MoveErrorCode::Cancelled,
                ),
                ..old(self)@
            }),
            old(self)@.items.len() < old(self)@.count && !cancelled ==> {
                let index = old(self)@.items.len() as int;
                if !(index < plan@.sources.len() && index < plan@.targets.len()) {
                    &&& step is Skipped
                    &&& final(self)@ == move_recorded(old(self)@, MoveItemOutcome::Failed(MoveErrorCode::InvalidPlan))
                } else if old(self)@.routes[index] == MoveRoute::SameVolume {
                    &&& step matches MoveStep::Rename { index: i, source, target } && i == index && source@
                        == plan@.sources[index].path && target@ == plan@.targets[index].path
                    &&& final(self)@ == old(self)@
                } else if parent_model(plan@.targets[index].path) is None {
                    &&& step is Skipped
                    &&& final(self)@ == move_recorded(old(self)@, MoveItemOutcome::Failed(MoveErrorCode::InvalidPlan))
                } else {
                    &&& step matches MoveStep::AcrossVolumes { index: i, source, target, staging_parent } && i
                        == index && source@ == plan@.sources[index].path && target@ == plan@.targets[index].path
                        && staging_parent@ == parent_model(plan@.targets[index].path)->0
                    &&& final(self)@ == old(self)@
                }
            },
    {
        let index = self.items.len();
        if index >= self.count {
            return MoveStep::Done;
        }
        if cancelled {
            self.cancel_remaining();
            return MoveStep::Done;
        }
        let sources = plan.sources();
        let targets = plan.targets();
        if index >= sources.len() || index >= targets.len() {
            self.record(MoveItemOutcome::Failed(MoveErrorCode::InvalidPlan));
            return MoveStep::Skipped;
        }
        let source = sources[index].native_path();
        let target = targets[index].native_path();
        match self.routes[index] {
            MoveRoute::SameVolume => MoveStep::Rename { index, source: source.duplicate(), target: target.duplicate() },
            MoveRoute::AcrossVolumes => match target.parent() {
                Some(staging_parent) => MoveStep::AcrossVolumes {
                    index,
                    source: source.duplicate(),
                    target: target.duplicate(),
                    staging_parent,
                },
                None => {
                    self.record(MoveItemOutcome::Failed(MoveErrorCode::InvalidPlan));
                    MoveStep::Skipped
                },
            },
        }
    }

    pub fn into_result(self) -> (result: MoveBatchResult)
        ensures
            result.items@ == self@.items,
    {
        MoveBatchResult { items: self.items }
    }
}

/// Whether moving `plan` gets past its checks when the disk answers as
/// `snapshot` says; only then are the copy sizes of the sources that cross
/// volumes asked for.
pub open spec fn move_proceeds(plan: PlanModel, snapshot: SnapshotModel) -> bool {
    &&& plan.kind == OperationKind::Move
    &&& plan.sources.len() == plan.targets.len()
    &&& revalidate_model(plan, snapshot) is Ok
}

#[derive(Clone, Copy, Debug, Default)]
pub struct MoveExecutor;

impl MoveExecutor {
    /// Starts moving `plan` after checking it against the disk as
    /// `snapshot` describes it.
    pub fn prepare_with_snapshot(&self, plan: &OperationPlan, snapshot: &PreflightSnapshot) -> (run:
        MoveRun)
        ensures
            move_run_well_formed(run@),
            run@ == move_prepared(plan@, snapshot@, plan@.sources.len() as usize),
    {
        let sources = plan.sources();
        let targets = plan.targets();
        let count = sources.len();
        let mut items: Vec<MoveItemResult> = Vec::new();
        if plan.kind() != OperationKind::Move || count != targets.len() {
            move_failed_items(&mut items, 0, count, MoveErrorCode::InvalidPlan);
            assert(items@ =~= move_failed_from(0, count as nat, MoveErrorCode::InvalidPlan));
            return MoveRun { count, routes: Vec::new(), total_bytes: 0, bytes_copied: 0, items };
        }
        match OperationPlanner.revalidate_with_snapshot(plan, snapshot) {
            Err(error) => {
                let code = MoveErrorCode::from_validation_error(error.kind());
                move_failed_items(&mut items, 0, count, code);
                assert(items@ =~= move_failed_from(0, count as nat, code));
                return MoveRun { count, routes: Vec::new(), total_bytes: 0, bytes_copied: 0, items };
            },
            Ok(()) => {},
        }
        let ghost model = plan@;
        let mut routes: Vec<MoveRoute> = Vec::new();
        let mut total: u64 = 0;
        let mut i: usize = 0;
        while i < count
            invariant
                i <= count,
                count == sources@.len() == targets@.len(),
                model.sources.len() == count && model.targets.len() == count,
                forall|j: int| 0 <= j < count ==> sources@[j]@ == #[trigger] model.sources[j],
                forall|j: int| 0 <= j < count ==> targets@[j]@ == #[trigger] model.targets[j],
                routes@ == Seq::new(i as nat, |j: int| move_route(model.sources[j], model.targets[j])),
                total == move_total(snapshot@, model.sources, model.targets, i as nat),
            decreases count - i,
        {
            let source = &sources[i];
            let target = &targets[i];
            assert(source@ == model.sources[i as int]);
            assert(target@ == model.targets[i as int]);
            if source.identity().volume_id == target.parent_identity().volume_id {
                routes.push(MoveRoute::SameVolume);
            } else {
                let bytes = match snapshot.estimate_of(source.native_path()) {
                    Ok(Some(bytes)) => bytes,
                    _ => source.byte_len(),
                };
                total = total.saturating_add(bytes);
                routes.push(MoveRoute::AcrossVolumes);
            }
            i += 1;
            assert(routes@ =~= Seq::new(i as nat, |j: int| move_route(model.sources[j], model.targets[j])));
        }
        MoveRun { count, routes, total_bytes: total, bytes_copied: 0, items }
    }

    /// Starts moving `plan` after checking it against the disk through
    /// `probe`, which also estimates the bytes each source takes.
    pub fn prepare<P: PreflightProbe>(&self, plan: &OperationPlan, probe: &P) -> (run: MoveRun)
        ensures
            move_run_well_formed(run@),
            exists|snapshot: SnapshotModel|
                run@ == #[trigger] move_prepared(plan@, snapshot, plan@.sources.len() as usize)
                    && crate::plan::estimating_snapshot(
                    probe,
                    plan@,
                    snapshot,
                    if move_proceeds(plan@, snapshot) {
                        estimated_sources(plan@.sources, plan@.targets, true, plan@.sources.len())
                    } else {
                        Seq::<PathModel>::empty()
                    },
                ),
    {
        let mut snapshot = snapshot_for_plan(plan, probe);
        let ghost checked = snapshot@;
        if plan.kind() == OperationKind::Move && plan.sources().len() == plan.targets().len() {
            if OperationPlanner.revalidate_with_snapshot(plan, &snapshot).is_ok() {
                record_estimates(plan, probe, &mut snapshot, true);
            }
        }
        proof {
            crate::plan::lemma_revalidate_ignores_estimates(plan@, checked, snapshot@);
            if !move_proceeds(plan@, snapshot@) {
                assert(answer_paths(snapshot@.estimates) =~= Seq::<PathModel>::empty());
            }
        }
        self.prepare_with_snapshot(plan, &snapshot)
    }
}

/// A move reports one result per item, in item order, once the run is
/// complete; a cancelled item cancels every later one.
pub proof fn law_move_reports_every_item(run: MoveRunModel, outcome: MoveItemOutcome)
    requires
        move_run_well_formed(run),
    ensures
        run.items.len() >= run.count ==> forall|i: int|
            0 <= i < run.count ==> (#[trigger] run.items[i]).source_index == i,
        run.items.len() < run.count ==> move_run_well_formed(move_recorded(run, outcome)),
        run.items.len() < run.count && outcome == MoveItemOutcome::Failed(MoveErrorCode::Cancelled)
            ==> move_recorded(run, outcome).items.len() == run.count,
{
}

/// What checking a copy against its source takes next, given what the
/// operating system reports of both without following links.
#[derive(Clone, Copy, Debug, PartialEq, Eq, Structural)]
pub enum CopyCheck {
    /// They are not the same kind of entry, or two files differ in length:
    /// the copy fails verification.
    Differs,
    /// Two links: their targets must be equal.
    Links,
    /// Two directories: their children must have the same names, and each
    /// child must check out.
    Children,
    /// Two files of one length: their contents must be equal.
    Contents,
    /// Neither a link, a directory nor a file: it cannot be verified.
    Unsupported,
}

pub open spec fn copy_check_model(source: RawMetadata, copy: RawMetadata) -> CopyCheck {
    if source.is_symlink != copy.is_symlink || source.is_dir != copy.is_dir || source.is_file != copy.is_file {
        CopyCheck::Differs
    } else if source.is_symlink {
        CopyCheck::Links
    } else if source.is_dir {
        CopyCheck::Children
    } else if source.is_file {
        if source.byte_len != copy.byte_len {
            CopyCheck::Differs
        } else {
            CopyCheck::Contents
        }
    } else {
        CopyCheck::Unsupported
    }
}

/// Decides how a copy is checked against its source.
pub fn check_copy(source: RawMetadata, copy: RawMetadata) -> (check: CopyCheck)
    ensures
        check == copy_check_model(source, copy),
{
    if source.is_symlink != copy.is_symlink || source.is_dir != copy.is_dir || source.is_file != copy.is_file {
        CopyCheck::Differs
    } else if source.is_symlink {
        CopyCheck::Links
    } else if source.is_dir {
        CopyCheck::Children
    } else if source.is_file {
        if source.byte_len != copy.byte_len {
            CopyCheck::Differs
        } else {
            CopyCheck::Contents
        }
    } else {
        CopyCheck::Unsupported
    }
}

/// Whether `copy` lists the names `source` lists: as many, and each of
/// `source` among them. A directory never holds a name twice, so for the
/// children of two directories this is equality of their name sets.
pub open spec fn same_names_model(source: Seq<Seq<u8>>, copy: Seq<Seq<u8>>) -> bool {
    &&& source.len() == copy.len()
    &&& forall|i: int| 0 <= i < source.len() ==> copy.contains(#[trigger] source[i])
}

pub fn same_names(source: &Vec<Vec<u8>>, copy: &Vec<Vec<u8>>) -> (same: bool)
    ensures
        same == same_names_model(byte_strings(source@), byte_strings(copy@)),
{
    let ghost left = byte_strings(source@);
    let ghost right = byte_strings(copy@);
    if source.len() != copy.len() {
        return false;
    }
    let mut i: usize = 0;
    while i < source.len()
        invariant
            i <= source@.len(),
            left == byte_strings(source@),
            right == byte_strings(copy@),
            forall|k: int| 0 <= k < i ==> right.contains(#[trigger] left[k]),
        decreases source.len() - i,
    {
        let mut found = false;
        let mut j: usize = 0;
        while j < copy.len()
            invariant
                i < source@.len(),
                j <= copy@.len(),
                left == byte_strings(source@),
                right == byte_strings(copy@),
                found ==> right.contains(left[i as int]),
                !found ==> forall|m: int| 0 <= m < j ==> right[m] != left[i as int],
            decreases copy.len() - j,
        {
            if bytes_equal(source[i].as_slice(), copy[j].as_slice()) {
                assert(right[j as int] == left[i as int]);
                found = true;
            }
            j += 1;
        }
        if !found {
            assert(!right.contains(left[i as int]));
            assert(!same_names_model(left, right));
            return false;
        }
        i += 1;
    }
    true
}

/// What comparing the next chunks read from a file and its copy decides.
#[derive(Clone, Copy, Debug, PartialEq, Eq, Structural)]
pub enum ChunkCheck {
    /// The chunks differ: the copy fails verification.
    Differs,
    /// The chunks agree and the files go on.
    Same,
    /// Both files ended together: the contents are equal.
    Finished,
}

/// Compares the chunks read at the same offset of a file and of its copy.
pub fn check_chunk(source: &[u8], copy: &[u8]) -> (check: ChunkCheck)
    ensures
        check == if source@ != copy@ {
            ChunkCheck::Differs
        } else if source@.len() == 0 {
            ChunkCheck::Finished
        } else {
            ChunkCheck::Same
        },
{
    if source.len() != copy.len() || !bytes_equal(source, copy) {
        ChunkCheck::Differs
    } else if source.len() == 0 {
        ChunkCheck::Finished
    } else {
        ChunkCheck::Same
    }
}

} // verus!
