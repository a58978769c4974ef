//! Renaming an entry and creating a directory, as planned.

use vstd::prelude::*;

use crate::error::IoErrorKind;
use crate::path::{NativePath, PathModel};
use crate::plan::{
    revalidate_model, snapshot_for_plan, OperationKind, OperationPlan, OperationPlanner, PlanModel,
    PlanValidationErrorKind,
};
use crate::probe::{PreflightProbe, PreflightSnapshot, SnapshotModel};

verus! {

#[derive(Clone, Copy, Debug, PartialEq, Eq, Structural)]
pub enum MutationErrorCode {
    InvalidName,
    InvalidPlan,
    SourceChanged,
    TargetConflict,
    PermissionDenied,
    Io,
}

/// The one change to the disk that a valid mutation plan asks for.
pub enum MutationStep {
    Rename { from: NativePath, to: NativePath },
    CreateDirectory { path: NativePath },
}

pub enum MutationStepModel {
    Rename { from: PathModel, to: PathModel },
    CreateDirectory { path: PathModel },
}

impl View for MutationStep {
    type V = MutationStepModel;

    open spec fn view(&self) -> MutationStepModel {
        match self {
            MutationStep::Rename { from, to } => MutationStepModel::Rename { from: from@, to: to@ },
            MutationStep::CreateDirectory { path } => MutationStepModel::CreateDirectory { path: path@ },
        }
    }
}

/// How a failed revalidation is reported.
pub open spec fn mutation_validation_code(kind: PlanValidationErrorKind) -> MutationErrorCode {
    match kind {
        PlanValidationErrorKind::InvalidName => MutationErrorCode::InvalidName,
        PlanValidationErrorKind::Conflict { .. } | PlanValidationErrorKind::TargetChanged { .. } =>
            MutationErrorCode::TargetConflict,
        PlanValidationErrorKind::MissingSource { .. } | PlanValidationErrorKind::SourceChanged {
            ..
        } => MutationErrorCode::SourceChanged,
        PlanValidationErrorKind::ParentNotWritable | PlanValidationErrorKind::SourceNotReadable {
            ..
        } => MutationErrorCode::PermissionDenied,
        _ => MutationErrorCode::InvalidPlan,
    }
}

/// How a failure of the operating system is reported.
pub open spec fn mutation_io_code(kind: IoErrorKind) -> MutationErrorCode {
    match kind {
        IoErrorKind::AlreadyExists => MutationErrorCode::TargetConflict,
        IoErrorKind::NotFound => MutationErrorCode::SourceChanged,
        IoErrorKind::PermissionDenied => MutationErrorCode::PermissionDenied,
        IoErrorKind::InvalidInput | IoErrorKind::InvalidData => MutationErrorCode::InvalidName,
        _ => MutationErrorCode::Io,
    }
}

/// The step a plan asks for once it has been revalidated: a rename of one
/// source to one target, or the creation of one target directory; any
/// other shape is an invalid plan.
pub open spec fn mutation_step_model(plan: PlanModel) -> Result<MutationStepModel, MutationErrorCode> {
    if plan.kind == OperationKind::Rename && plan.sources.len() == 1 && plan.targets.len() == 1 {
        Ok(MutationStepModel::Rename { from: plan.sources[0].path, to: plan.targets[0].path })
    } else if plan.kind == OperationKind::CreateDirectory && plan.sources.len() == 0
        && plan.targets.len() == 1 {
        Ok(MutationStepModel::CreateDirectory { path: plan.targets[0].path })
    } else {
        Err(MutationErrorCode::InvalidPlan)
    }
}

/// What preparing a mutation gives when the disk answers as `snapshot` says.
pub open spec fn mutation_prepared(plan: PlanModel, snapshot: SnapshotModel) -> Result<
    MutationStepModel,
    MutationErrorCode,
> {
    match revalidate_model(plan, snapshot) {
        Err(kind) => Err(mutation_validation_code(kind)),
        Ok(_) => mutation_step_model(plan),
    }
}

pub open spec fn step_result_model(result: Result<MutationStep, MutationErrorCode>) -> Result<
    MutationStepModel,
    MutationErrorCode,
> {
    match result {
        Ok(step) => Ok(step@),
        Err(code) => Err(code),
    }
}

impl MutationErrorCode {
    /// How a failure of the operating system is reported.
    pub fn from_io_error(kind: IoErrorKind) -> (code: Self)
        ensures
            code == mutation_io_code(kind),
    {
        match kind {
            IoErrorKind::AlreadyExists => MutationErrorCode::TargetConflict,
            IoErrorKind::NotFound => MutationErrorCode::SourceChanged,
            IoErrorKind::PermissionDenied => MutationErrorCode::PermissionDenied,
            IoErrorKind::InvalidInput | IoErrorKind::InvalidData => MutationErrorCode::InvalidName,
            _ => MutationErrorCode::Io,
        }
    }

    /// How a failed revalidation is reported.
    pub fn from_validation_error(kind: &PlanValidationErrorKind) -> (code: Self)
        ensures
            code == mutation_validation_code(*kind),
    {
        match kind {
            PlanValidationErrorKind::InvalidName => MutationErrorCode::InvalidName,
            PlanValidationErrorKind::Conflict { .. } | PlanValidationErrorKind::TargetChanged {
                ..
            } => MutationErrorCode::TargetConflict,
            PlanValidationErrorKind::MissingSource { .. }
            | PlanValidationErrorKind::SourceChanged { .. } => MutationErrorCode::SourceChanged,
            PlanValidationErrorKind::ParentNotWritable
            | PlanValidationErrorKind::SourceNotReadable { .. } => MutationErrorCode::PermissionDenied,
            _ => MutationErrorCode::InvalidPlan,
        }
    }
}

#[derive(Clone, Copy, Debug, Default)]
pub struct MutationExecutor;

impl MutationExecutor {
    /// Revalidates `plan` against the disk as `snapshot` describes it and
    /// names the change it asks for.
    pub fn prepare_with_snapshot(&self, plan: &OperationPlan, snapshot: &PreflightSnapshot) -> (step:
        Result<MutationStep, MutationErrorCode>)
        ensures
            step_result_model(step) == mutation_prepared(plan@, snapshot@),
    {
        match OperationPlanner.revalidate_with_snapshot(plan, snapshot) {
            Err(error) => {
                return Err(MutationErrorCode::from_validation_error(error.kind()));
            },
            Ok(()) => {},
        }
        let sources = plan.sources();
        let targets = plan.targets();
        match plan.kind() {
            OperationKind::Rename => {
                if sources.len() == 1 && targets.len() == 1 {
                    return Ok(
                        MutationStep::Rename {
                            from: sources[0].native_path().duplicate(),
                            to: targets[0].native_path().duplicate(),
                        },
                    );
                }
            },
            OperationKind::CreateDirectory => {
                if sources.len() == 0 && targets.len() == 1 {
                    return Ok(MutationStep::CreateDirectory { path: targets[0].native_path().duplicate() });
                }
            },
            _ => {},
        }
        Err(MutationErrorCode::InvalidPlan)
    }

    /// Revalidates `plan` against the disk through `probe` and names the
    /// change it asks for; performing it is left to the caller.
    pub fn prepare<P: PreflightProbe>(&self, plan: &OperationPlan, probe: &P) -> (step: Result<
        MutationStep,
        MutationErrorCode,
    >)
        ensures
            exists|snapshot: SnapshotModel|
                #[trigger] mutation_prepared(plan@, snapshot) == step_result_model(step)
                    && crate::plan::revalidation_snapshot(probe, plan@, snapshot),
    {
        let snapshot = snapshot_for_plan(plan, probe);
        self.prepare_with_snapshot(plan, &snapshot)
    }
}

} // verus!
