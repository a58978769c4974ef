//! Preflight planning of file operations, and revalidation of a plan just
//! before it runs. Both read the disk only through probe answers.

use vstd::prelude::*;

use crate::entry::EntryKind;
use crate::path::{
    file_name_model, is_current_dir, is_parent_dir, join_model, parent_model, parse_path,
    starts_with_model, NativePath, PathModel,
};
use crate::probe::{
    answer_paths, answered_by, estimate_at, lemma_answer_paths_push, lemma_answered_after_space,
    lemma_answered_after_state, probe_space_answer, probe_state_answer, space_at, state_at,
    FileIdentity, PathPreflightState, PreflightProbe,
    PreflightSnapshot, ProbeError, SizeAnswer, SnapshotModel, StateAnswer,
};

verus! {

pub open spec fn paths_model(paths: Seq<NativePath>) -> Seq<PathModel> {
    Seq::new(paths.len(), |i: int| paths[i]@)
}

/// What an operation request asks for, with paths in their abstract form.
pub enum RequestModel {
    Copy { sources: Seq<PathModel>, destination_directory: PathModel },
    Move { sources: Seq<PathModel>, destination_directory: PathModel },
    Rename { source: PathModel, new_name: Seq<u8> },
    CreateDirectory { parent: PathModel, name: Seq<u8> },
    Trash { sources: Seq<PathModel> },
}

pub enum OperationRequest {
    Copy { sources: Vec<NativePath>, destination_directory: NativePath },
    Move { sources: Vec<NativePath>, destination_directory: NativePath },
    Rename { source: NativePath, new_name: Vec<u8> },
    CreateDirectory { parent: NativePath, name: Vec<u8> },
    Trash { sources: Vec<NativePath> },
}

impl View for OperationRequest {
    type V = RequestModel;

    open spec fn view(&self) -> RequestModel {
        match self {
            OperationRequest::Copy { sources, destination_directory } => RequestModel::Copy {
                sources: paths_model(sources@),
                destination_directory: destination_directory@,
            },
            OperationRequest::Move { sources, destination_directory } => RequestModel::Move {
                sources: paths_model(sources@),
                destination_directory: destination_directory@,
            },
            OperationRequest::Rename { source, new_name } => RequestModel::Rename {
                source: source@,
                new_name: new_name@,
            },
            OperationRequest::CreateDirectory { parent, name } => RequestModel::CreateDirectory {
                parent: parent@,
                name: name@,
            },
            OperationRequest::Trash { sources } => RequestModel::Trash {
                sources: paths_model(sources@),
            },
        }
    }
}

#[derive(Clone, Copy, Debug, PartialEq, Eq, Structural)]
pub enum OperationKind {
    Copy,
    Move,
    Rename,
    CreateDirectory,
    Trash,
}

#[derive(Clone, Copy, Debug, PartialEq, Eq, Structural)]
pub enum PlanValidationErrorKind {
    EmptySources,
    InvalidName,
    MissingSource { source_index: usize },
    MissingDestination,
    DestinationNotDirectory,
    SourceNotReadable { source_index: usize },
    ParentNotWritable,
    IdentityUnavailable,
    SamePath { source_index: usize },
    DirectoryIntoItself { source_index: usize },
    Conflict { target_index: usize },
    InsufficientSpace { required: u64, available: u64 },
    SourceChanged { source_index: usize },
    ParentChanged { target_index: usize },
    TargetChanged { target_index: usize },
    ProbeFailed(ProbeError),
}

#[derive(Clone, Copy, Debug, PartialEq, Eq, Structural)]
pub struct PlanValidationError {
    kind: PlanValidationErrorKind,
}

impl View for PlanValidationError {
    type V = PlanValidationErrorKind;

    closed spec fn view(&self) -> PlanValidationErrorKind {
        self.kind
    }
}

impl PlanValidationError {
    pub fn new(kind: PlanValidationErrorKind) -> (error: Self)
        ensures
            error@ == kind,
    {
        PlanValidationError { kind }
    }

    pub fn kind(&self) -> (kind: &PlanValidationErrorKind)
        ensures
            *kind == self@,
    {
        &self.kind
    }
}

pub struct SourceModel {
    pub path: PathModel,
    pub identity: FileIdentity,
    pub kind: EntryKind,
    pub byte_len: u64,
    pub parent: Option<(PathModel, FileIdentity)>,
}

pub struct TargetModel {
    pub path: PathModel,
    pub parent: PathModel,
    pub parent_identity: FileIdentity,
    pub expected_existing_identity: Option<FileIdentity>,
}

/// An operation plan: its kind, its sources and targets in order, and the
/// space it needs per directory.
pub struct PlanModel {
    pub kind: OperationKind,
    pub sources: Seq<SourceModel>,
    pub targets: Seq<TargetModel>,
    pub spaces: Seq<(PathModel, u64)>,
}

pub struct PlannedSource {
    path: NativePath,
    identity: FileIdentity,
    kind: EntryKind,
    byte_len: u64,
    parent: Option<(NativePath, FileIdentity)>,
}

impl View for PlannedSource {
    type V = SourceModel;

    closed spec fn view(&self) -> SourceModel {
        SourceModel {
            path: self.path@,
            identity: self.identity,
            kind: self.kind,
            byte_len: self.byte_len,
            parent: match self.parent {
                Some(p) => Some((p.0@, p.1)),
                None => None,
            },
        }
    }
}

impl PlannedSource {
    pub fn native_path(&self) -> (path: &NativePath)
        ensures
            path@ == self@.path,
    {
        &self.path
    }

    pub fn identity(&self) -> (identity: FileIdentity)
        ensures
            identity == self@.identity,
    {
        self.identity
    }

    pub fn kind(&self) -> (kind: EntryKind)
        ensures
            kind == self@.kind,
    {
        self.kind
    }

    pub fn byte_len(&self) -> (byte_len: u64)
        ensures
            byte_len == self@.byte_len,
    {
        self.byte_len
    }

    /// The parent directory whose identity the plan recorded, if any.
    pub fn parent(&self) -> (parent: Option<(&NativePath, FileIdentity)>)
        ensures
            parent is Some <==> self@.parent is Some,
            parent matches Some(p) ==> Some((p.0@, p.1)) == self@.parent,
    {
        match &self.parent {
            Some(p) => Some((&p.0, p.1)),
            None => None,
        }
    }
}

pub struct PlannedTarget {
    path: NativePath,
    parent: NativePath,
    parent_identity: FileIdentity,
    expected_existing_identity: Option<FileIdentity>,
}

impl View for PlannedTarget {
    type V = TargetModel;

    closed spec fn view(&self) -> TargetModel {
        TargetModel {
            path: self.path@,
            parent: self.parent@,
            parent_identity: self.parent_identity,
            expected_existing_identity: self.expected_existing_identity,
        }
    }
}

impl PlannedTarget {
    pub fn native_path(&self) -> (path: &NativePath)
        ensures
            path@ == self@.path,
    {
        &self.path
    }

    pub fn parent_path(&self) -> (parent: &NativePath)
        ensures
            parent@ == self@.parent,
    {
        &self.parent
    }

    pub fn expected_existing_identity(&self) -> (identity: Option<FileIdentity>)
        ensures
            identity == self@.expected_existing_identity,
    {
        self.expected_existing_identity
    }

    pub fn parent_identity(&self) -> (identity: FileIdentity)
        ensures
            identity == self@.parent_identity,
    {
        self.parent_identity
    }
}

struct SpaceRequirement {
    directory: NativePath,
    required: u64,
}

/// Immutable result of successful preflight validation.
pub struct OperationPlan {
    kind: OperationKind,
    sources: Vec<PlannedSource>,
    targets: Vec<PlannedTarget>,
    space_requirements: Vec<SpaceRequirement>,
}

pub open spec fn sources_model(sources: Seq<PlannedSource>) -> Seq<SourceModel> {
    Seq::new(sources.len(), |i: int| sources[i]@)
}

pub open spec fn targets_model(targets: Seq<PlannedTarget>) -> Seq<TargetModel> {
    Seq::new(targets.len(), |i: int| targets[i]@)
}

impl View for OperationPlan {
    type V = PlanModel;

    closed spec fn view(&self) -> PlanModel {
        PlanModel {
            kind: self.kind,
            sources: sources_model(self.sources@),
            targets: targets_model(self.targets@),
            spaces: Seq::new(
                self.space_requirements@.len(),
                |i: int|
                    (self.space_requirements@[i].directory@, self.space_requirements@[i].required),
            ),
        }
    }
}

impl OperationPlan {
    pub fn kind(&self) -> (kind: OperationKind)
        ensures
            kind == self@.kind,
    {
        self.kind
    }

    pub fn sources(&self) -> (sources: &[PlannedSource])
        ensures
            sources_model(sources@) == self@.sources,
    {
        self.sources.as_slice()
    }

    pub fn targets(&self) -> (targets: &[PlannedTarget])
        ensures
            targets_model(targets@) == self@.targets,
    {
        self.targets.as_slice()
    }
}

/// The outcome of a planning step: a value, or the first rule it broke.
pub type Outcome<T> = Result<T, PlanValidationErrorKind>;

pub open spec fn probe_failed<T>(error: ProbeError) -> Outcome<T> {
    Err(PlanValidationErrorKind::ProbeFailed(error))
}

/// A source must exist.
pub open spec fn required_source(snapshot: SnapshotModel, source: PathModel, source_index: usize) -> Outcome<
    PathPreflightState,
> {
    match state_at(snapshot, source) {
        Err(error) => probe_failed(error),
        Ok(None) => Err(PlanValidationErrorKind::MissingSource { source_index }),
        Ok(Some(state)) => Ok(state),
    }
}

/// A destination must exist and be a directory.
pub open spec fn required_destination(snapshot: SnapshotModel, destination: PathModel) -> Outcome<
    PathPreflightState,
> {
    match state_at(snapshot, destination) {
        Err(error) => probe_failed(error),
        Ok(None) => Err(PlanValidationErrorKind::MissingDestination),
        Ok(Some(state)) => if state.kind != EntryKind::Directory {
            Err(PlanValidationErrorKind::DestinationNotDirectory)
        } else {
            Ok(state)
        },
    }
}

pub open spec fn required_identity(state: PathPreflightState) -> Outcome<FileIdentity> {
    match state.identity {
        Some(identity) => Ok(identity),
        None => Err(PlanValidationErrorKind::IdentityUnavailable),
    }
}

/// The parent of a path must be a writable directory with an identity.
pub open spec fn required_writable_parent(snapshot: SnapshotModel, path: PathModel) -> Outcome<
    (PathModel, FileIdentity),
> {
    match parent_model(path) {
        None => Err(PlanValidationErrorKind::InvalidName),
        Some(parent) => match required_destination(snapshot, parent) {
            Err(error) => Err(error),
            Ok(state) => if !state.is_writable {
                Err(PlanValidationErrorKind::ParentNotWritable)
            } else {
                match required_identity(state) {
                    Err(error) => Err(error),
                    Ok(identity) => Ok((parent, identity)),
                }
            },
        },
    }
}

/// A new name must be exactly one ordinary component, without NUL bytes.
pub open spec fn valid_name(name: Seq<u8>) -> bool {
    let model = parse_path(name);
    &&& !model.absolute
    &&& model.components.len() == 1
    &&& !is_current_dir(model.components[0])
    &&& !is_parent_dir(model.components[0])
    &&& forall|i: int| 0 <= i < name.len() ==> name[i] != 0
}

/// The component a valid name stands for.
pub open spec fn name_component(name: Seq<u8>) -> Seq<u8> {
    parse_path(name).components[0]
}

pub open spec fn add_required_space(total: Option<u64>, bytes: Option<u64>) -> Option<u64> {
    match (total, bytes) {
        (Some(t), Some(b)) => if t + b <= u64::MAX {
            Some((t + b) as u64)
        } else {
            None
        },
        _ => None,
    }
}

/// One source of a copy or move: its planned source and target, and the
/// space needed so far.
pub open spec fn transfer_item(
    kind: OperationKind,
    destination: PathModel,
    destination_identity: FileIdentity,
    snapshot: SnapshotModel,
    source: PathModel,
    source_index: usize,
    required: Option<u64>,
) -> Outcome<(SourceModel, TargetModel, Option<u64>)> {
    match required_source(snapshot, source, source_index) {
        Err(error) => Err(error),
        Ok(state) => if !state.is_readable {
            Err(PlanValidationErrorKind::SourceNotReadable { source_index })
        } else {
            match required_identity(state) {
                Err(error) => Err(error),
                Ok(identity) => match file_name_model(source) {
                    None => Err(PlanValidationErrorKind::InvalidName),
                    Some(name) => {
                        let target = join_model(destination, name);
                        if target == source {
                            Err(PlanValidationErrorKind::SamePath { source_index })
                        } else if state.kind == EntryKind::Directory && starts_with_model(
                            destination,
                            source,
                        ) {
                            Err(PlanValidationErrorKind::DirectoryIntoItself { source_index })
                        } else {
                            match state_at(snapshot, target) {
                                Err(error) => probe_failed(error),
                                Ok(Some(existing)) => if existing.identity == Some(identity) {
                                    Err(PlanValidationErrorKind::SamePath { source_index })
                                } else {
                                    Err(PlanValidationErrorKind::Conflict { target_index: source_index })
                                },
                                Ok(None) => {
                                    let parent: Outcome<Option<(PathModel, FileIdentity)>> = if kind
                                        == OperationKind::Move {
                                        match required_writable_parent(snapshot, source) {
                                            Err(error) => Err(error),
                                            Ok(found) => Ok(Some(found)),
                                        }
                                    } else {
                                        Ok(None)
                                    };
                                    match parent {
                                        Err(error) => Err(error),
                                        Ok(recorded) => {
                                            let needs_copy_space = kind == OperationKind::Copy
                                                || identity.volume_id
                                                != destination_identity.volume_id;
                                            let space: Outcome<Option<u64>> = if needs_copy_space {
                                                match estimate_at(snapshot, source) {
                                                    Err(error) => probe_failed(error),
                                                    Ok(bytes) => Ok(add_required_space(required, bytes)),
                                                }
                                            } else {
                                                Ok(required)
                                            };
                                            match space {
                                                Err(error) => Err(error),
                                                Ok(space) => Ok(
                                                    (
                                                        SourceModel {
                                                            path: source,
                                                            identity,
                                                            kind: state.kind,
                                                            byte_len: state.byte_len,
                                                            parent: recorded,
                                                        },
                                                        TargetModel {
                                                            path: target,
                                                            parent: destination,
                                                            parent_identity: destination_identity,
                                                            expected_existing_identity: None,
                                                        },
                                                        space,
                                                    ),
                                                ),
                                            }
                                        },
                                    }
                                },
                            }
                        }
                    },
                },
            }
        },
    }
}

/// The first `count` sources of a copy or move, planned in order.
pub open spec fn transfer_items(
    kind: OperationKind,
    destination: PathModel,
    destination_identity: FileIdentity,
    snapshot: SnapshotModel,
    sources: Seq<PathModel>,
    count: nat,
) -> Outcome<(Seq<SourceModel>, Seq<TargetModel>, Option<u64>)>
    decreases count,
{
    if count == 0 {
        Ok((seq![], seq![], Some(0u64)))
    } else {
        match transfer_items(kind, destination, destination_identity, snapshot, sources, (count - 1) as nat) {
            Err(error) => Err(error),
            Ok(done) => match transfer_item(
                kind,
                destination,
                destination_identity,
                snapshot,
                sources[count - 1],
                (count - 1) as usize,
                done.2,
            ) {
                Err(error) => Err(error),
                Ok(item) => Ok((done.0.push(item.0), done.1.push(item.1), item.2)),
            },
        }
    }
}

/// The space requirement of a transfer, checked against what is available.
pub open spec fn space_requirement(snapshot: SnapshotModel, directory: PathModel, required: Option<u64>) -> Outcome<
    Seq<(PathModel, u64)>,
> {
    match required {
        None => Ok(seq![]),
        Some(required) => if required == 0 {
            Ok(seq![])
        } else {
            match space_at(snapshot, directory) {
                Err(error) => probe_failed(error),
                Ok(Some(available)) => if available < required {
                    Err(PlanValidationErrorKind::InsufficientSpace { required, available })
                } else {
                    Ok(seq![(directory, required)])
                },
                Ok(None) => Ok(seq![(directory, required)]),
            }
        },
    }
}

/// Plans a copy or a move of `sources` into `destination`.
pub open spec fn plan_transfer(
    kind: OperationKind,
    sources: Seq<PathModel>,
    destination: PathModel,
    snapshot: SnapshotModel,
) -> Outcome<PlanModel> {
    if sources.len() == 0 {
        Err(PlanValidationErrorKind::EmptySources)
    } else {
        match required_destination(snapshot, destination) {
            Err(error) => Err(error),
            Ok(state) => match required_identity(state) {
                Err(error) => Err(error),
                Ok(identity) => if !state.is_writable {
                    Err(PlanValidationErrorKind::ParentNotWritable)
                } else {
                    match transfer_items(kind, destination, identity, snapshot, sources, sources.len()) {
                        Err(error) => Err(error),
                        Ok(items) => match space_requirement(snapshot, destination, items.2) {
                            Err(error) => Err(error),
                            Ok(spaces) => Ok(
                                PlanModel { kind, sources: items.0, targets: items.1, spaces },
                            ),
                        },
                    }
                },
            },
        }
    }
}

/// Plans renaming `source` to `new_name` in its own directory.
pub open spec fn plan_rename(source: PathModel, new_name: Seq<u8>, snapshot: SnapshotModel) -> Outcome<PlanModel> {
    if !valid_name(new_name) {
        Err(PlanValidationErrorKind::InvalidName)
    } else {
        match required_source(snapshot, source, 0) {
            Err(error) => Err(error),
            Ok(state) => match required_identity(state) {
                Err(error) => Err(error),
                Ok(identity) => match required_writable_parent(snapshot, source) {
                    Err(error) => Err(error),
                    Ok(found) => {
                        let parent = found.0;
                        let parent_identity = found.1;
                        let target = join_model(parent, name_component(new_name));
                        if target == source {
                            Err(PlanValidationErrorKind::SamePath { source_index: 0 })
                        } else {
                            let expected: Outcome<Option<FileIdentity>> = match state_at(snapshot, target) {
                                Err(error) => probe_failed(error),
                                Ok(Some(existing)) => if existing.identity == Some(identity) {
                                    Ok(Some(identity))
                                } else {
                                    Err(PlanValidationErrorKind::Conflict { target_index: 0 })
                                },
                                Ok(None) => Ok(None),
                            };
                            match expected {
                                Err(error) => Err(error),
                                Ok(expected) => Ok(
                                    PlanModel {
                                        kind: OperationKind::Rename,
                                        sources: seq![
                                            SourceModel {
                                                path: source,
                                                identity,
                                                kind: state.kind,
                                                byte_len: state.byte_len,
                                                parent: Some((parent, parent_identity)),
                                            },
                                        ],
                                        targets: seq![
                                            TargetModel {
                                                path: target,
                                                parent,
                                                parent_identity,
                                                expected_existing_identity: expected,
                                            },
                                        ],
                                        spaces: seq![],
                                    },
                                ),
                            }
                        }
                    },
                },
            },
        }
    }
}

/// Plans creating a directory `name` inside `parent`.
pub open spec fn plan_create_directory(parent: PathModel, name: Seq<u8>, snapshot: SnapshotModel) -> Outcome<
    PlanModel,
> {
    if !valid_name(name) {
        Err(PlanValidationErrorKind::InvalidName)
    } else {
        match required_destination(snapshot, parent) {
            Err(error) => Err(error),
            Ok(state) => match required_identity(state) {
                Err(error) => Err(error),
                Ok(identity) => if !state.is_writable {
                    Err(PlanValidationErrorKind::ParentNotWritable)
                } else {
                    let target = join_model(parent, name_component(name));
                    match state_at(snapshot, target) {
                        Err(error) => probe_failed(error),
                        Ok(Some(_)) => Err(PlanValidationErrorKind::Conflict { target_index: 0 }),
                        Ok(None) => Ok(
                            PlanModel {
                                kind: OperationKind::CreateDirectory,
                                sources: seq![],
                                targets: seq![
                                    TargetModel {
                                        path: target,
                                        parent,
                                        parent_identity: identity,
                                        expected_existing_identity: None,
                                    },
                                ],
                                spaces: seq![],
                            },
                        ),
                    }
                },
            },
        }
    }
}

/// One source of a move to the trash.
pub open spec fn trash_item(snapshot: SnapshotModel, source: PathModel, source_index: usize) -> Outcome<
    SourceModel,
> {
    match required_source(snapshot, source, source_index) {
        Err(error) => Err(error),
        Ok(state) => match required_identity(state) {
            Err(error) => Err(error),
            Ok(identity) => match required_writable_parent(snapshot, source) {
                Err(error) => Err(error),
                Ok(parent) => Ok(
                    SourceModel {
                        path: source,
                        identity,
                        kind: state.kind,
                        byte_len: state.byte_len,
                        parent: Some(parent),
                    },
                ),
            },
        },
    }
}

pub open spec fn trash_items(snapshot: SnapshotModel, sources: Seq<PathModel>, count: nat) -> Outcome<
    Seq<SourceModel>,
>
    decreases count,
{
    if count == 0 {
        Ok(seq![])
    } else {
        match trash_items(snapshot, sources, (count - 1) as nat) {
            Err(error) => Err(error),
            Ok(done) => match trash_item(snapshot, sources[count - 1], (count - 1) as usize) {
                Err(error) => Err(error),
                Ok(item) => Ok(done.push(item)),
            },
        }
    }
}

/// Plans moving `sources` to the trash.
pub open spec fn plan_trash(sources: Seq<PathModel>, snapshot: SnapshotModel) -> Outcome<PlanModel> {
    if sources.len() == 0 {
        Err(PlanValidationErrorKind::EmptySources)
    } else {
        match trash_items(snapshot, sources, sources.len()) {
            Err(error) => Err(error),
            Ok(items) => Ok(
                PlanModel { kind: OperationKind::Trash, sources: items, targets: seq![], spaces: seq![] },
            ),
        }
    }
}

/// The plan a request leads to, given the probe's answers.
pub open spec fn plan_model(request: RequestModel, snapshot: SnapshotModel) -> Outcome<PlanModel> {
    match request {
        RequestModel::Copy { sources, destination_directory } => plan_transfer(
            OperationKind::Copy,
            sources,
            destination_directory,
            snapshot,
        ),
        RequestModel::Move { sources, destination_directory } => plan_transfer(
            OperationKind::Move,
            sources,
            destination_directory,
            snapshot,
        ),
        RequestModel::Rename { source, new_name } => plan_rename(source, new_name, snapshot),
        RequestModel::CreateDirectory { parent, name } => plan_create_directory(parent, name, snapshot),
        RequestModel::Trash { sources } => plan_trash(sources, snapshot),
    }
}

/// A planned source must still be there, unchanged, readable when it will be
/// read, and with its recorded parent unchanged and writable.
pub open spec fn revalidate_source(
    kind: OperationKind,
    snapshot: SnapshotModel,
    source: SourceModel,
    source_index: usize,
) -> Outcome<()> {
    match state_at(snapshot, source.path) {
        Err(error) => probe_failed(error),
        Ok(None) => Err(PlanValidationErrorKind::SourceChanged { source_index }),
        Ok(Some(state)) => if state.identity != Some(source.identity) {
            Err(PlanValidationErrorKind::SourceChanged { source_index })
        } else if (kind == OperationKind::Copy || kind == OperationKind::Move) && !state.is_readable {
            Err(PlanValidationErrorKind::SourceChanged { source_index })
        } else {
            match source.parent {
                None => Ok(()),
                Some(parent) => match state_at(snapshot, parent.0) {
                    Err(error) => probe_failed(error),
                    Ok(None) => Err(PlanValidationErrorKind::SourceChanged { source_index }),
                    Ok(Some(parent_state)) => if parent_state.identity != Some(parent.1)
                        || !parent_state.is_writable {
                        Err(PlanValidationErrorKind::SourceChanged { source_index })
                    } else {
                        Ok(())
                    },
                },
            }
        },
    }
}

/// A planned target's parent must be unchanged and writable, and the target
/// must hold what the plan expected there.
pub open spec fn revalidate_target(snapshot: SnapshotModel, target: TargetModel, target_index: usize) -> Outcome<
    (),
> {
    match state_at(snapshot, target.parent) {
        Err(error) => probe_failed(error),
        Ok(None) => Err(PlanValidationErrorKind::ParentChanged { target_index }),
        Ok(Some(parent_state)) => if parent_state.identity != Some(target.parent_identity)
            || !parent_state.is_writable {
            Err(PlanValidationErrorKind::ParentChanged { target_index })
        } else {
            match state_at(snapshot, target.path) {
                Err(error) => probe_failed(error),
                Ok(found) => {
                    let identity = match found {
                        Some(state) => state.identity,
                        None => None,
                    };
                    if identity != target.expected_existing_identity {
                        Err(PlanValidationErrorKind::TargetChanged { target_index })
                    } else {
                        Ok(())
                    }
                },
            }
        },
    }
}

/// A space requirement must still fit when the space is known.
pub open spec fn revalidate_space(snapshot: SnapshotModel, requirement: (PathModel, u64)) -> Outcome<()> {
    match space_at(snapshot, requirement.0) {
        Err(error) => probe_failed(error),
        Ok(Some(available)) => if available < requirement.1 {
            Err(PlanValidationErrorKind::InsufficientSpace { required: requirement.1, available })
        } else {
            Ok(())
        },
        Ok(None) => Ok(()),
    }
}

pub open spec fn revalidate_sources(
    kind: OperationKind,
    snapshot: SnapshotModel,
    sources: Seq<SourceModel>,
    count: nat,
) -> Outcome<()>
    decreases count,
{
    if count == 0 {
        Ok(())
    } else {
        match revalidate_sources(kind, snapshot, sources, (count - 1) as nat) {
            Err(error) => Err(error),
            Ok(_) => revalidate_source(kind, snapshot, sources[count - 1], (count - 1) as usize),
        }
    }
}

pub open spec fn revalidate_targets(snapshot: SnapshotModel, targets: Seq<TargetModel>, count: nat) -> Outcome<
    (),
>
    decreases count,
{
    if count == 0 {
        Ok(())
    } else {
        match revalidate_targets(snapshot, targets, (count - 1) as nat) {
            Err(error) => Err(error),
            Ok(_) => revalidate_target(snapshot, targets[count - 1], (count - 1) as usize),
        }
    }
}

pub open spec fn revalidate_spaces(snapshot: SnapshotModel, spaces: Seq<(PathModel, u64)>, count: nat) -> Outcome<
    (),
>
    decreases count,
{
    if count == 0 {
        Ok(())
    } else {
        match revalidate_spaces(snapshot, spaces, (count - 1) as nat) {
            Err(error) => Err(error),
            Ok(_) => revalidate_space(snapshot, spaces[count - 1]),
        }
    }
}

/// Whether a plan still holds: sources first, then targets, then space; the
/// first broken rule is reported.
pub open spec fn revalidate_model(plan: PlanModel, snapshot: SnapshotModel) -> Outcome<()> {
    match revalidate_sources(plan.kind, snapshot, plan.sources, plan.sources.len()) {
        Err(error) => Err(error),
        Ok(_) => match revalidate_targets(snapshot, plan.targets, plan.targets.len()) {
            Err(error) => Err(error),
            Ok(_) => revalidate_spaces(snapshot, plan.spaces, plan.spaces.len()),
        },
    }
}

pub open spec fn plan_result_model(result: Result<OperationPlan, PlanValidationError>) -> Outcome<PlanModel> {
    match result {
        Ok(plan) => Ok(plan@),
        Err(error) => Err(error@),
    }
}

pub open spec fn check_result_model(result: Result<(), PlanValidationError>) -> Outcome<()> {
    match result {
        Ok(_) => Ok(()),
        Err(error) => Err(error@),
    }
}

spec fn spaces_model(spaces: Seq<SpaceRequirement>) -> Seq<(PathModel, u64)> {
    Seq::new(spaces.len(), |i: int| (spaces[i].directory@, spaces[i].required))
}

fn required_source_exec(snapshot: &PreflightSnapshot, source: &NativePath, source_index: usize) -> (state:
    Outcome<PathPreflightState>)
    ensures
        state == required_source(snapshot@, source@, source_index),
{
    match snapshot.state_of(source) {
        Err(error) => Err(PlanValidationErrorKind::ProbeFailed(error)),
        Ok(None) => Err(PlanValidationErrorKind::MissingSource { source_index }),
        Ok(Some(state)) => Ok(state),
    }
}

fn required_destination_exec(snapshot: &PreflightSnapshot, destination: &NativePath) -> (state:
    Outcome<PathPreflightState>)
    ensures
        state == required_destination(snapshot@, destination@),
{
    match snapshot.state_of(destination) {
        Err(error) => Err(PlanValidationErrorKind::ProbeFailed(error)),
        Ok(None) => Err(PlanValidationErrorKind::MissingDestination),
        Ok(Some(state)) => {
            if state.kind != EntryKind::Directory {
                Err(PlanValidationErrorKind::DestinationNotDirectory)
            } else {
                Ok(state)
            }
        },
    }
}

fn required_identity_exec(state: PathPreflightState) -> (identity: Outcome<FileIdentity>)
    ensures
        identity == required_identity(state),
{
    match state.identity {
        Some(identity) => Ok(identity),
        None => Err(PlanValidationErrorKind::IdentityUnavailable),
    }
}

fn required_writable_parent_exec(snapshot: &PreflightSnapshot, path: &NativePath) -> (parent: Outcome<
    (NativePath, FileIdentity),
>)
    ensures
        match parent {
            Ok(found) => required_writable_parent(snapshot@, path@) == Ok::<_, PlanValidationErrorKind>(
                (found.0@, found.1),
            ),
            Err(error) => required_writable_parent(snapshot@, path@) == Err::<(PathModel, FileIdentity), _>(
                error,
            ),
        },
{
    let parent = match path.parent() {
        None => {
            return Err(PlanValidationErrorKind::InvalidName);
        },
        Some(parent) => parent,
    };
    let state = match required_destination_exec(snapshot, &parent) {
        Err(error) => {
            return Err(error);
        },
        Ok(state) => state,
    };
    if !state.is_writable {
        return Err(PlanValidationErrorKind::ParentNotWritable);
    }
    match required_identity_exec(state) {
        Err(error) => Err(error),
        Ok(identity) => Ok((parent, identity)),
    }
}

/// The component a new name stands for, when the name is valid.
fn validate_name(name: &[u8]) -> (component: Option<Vec<u8>>)
    ensures
        component is Some <==> valid_name(name@),
        component matches Some(c) ==> c@ == name_component(name@) && crate::path::appendable_component(
            c@,
        ),
{
    let mut i: usize = 0;
    while i < name.len()
        invariant
            i <= name@.len(),
            forall|j: int| 0 <= j < i ==> name@[j] != 0,
        decreases name.len() - i,
    {
        if name[i] == 0 {
            return None;
        }
        i += 1;
    }
    let parsed = NativePath::from_bytes(name);
    if parsed.is_absolute() || parsed.component_count() != 1 {
        return None;
    }
    parsed.file_name()
}

fn add_required_space_exec(total: Option<u64>, bytes: Option<u64>) -> (sum: Option<u64>)
    ensures
        sum == add_required_space(total, bytes),
{
    match (total, bytes) {
        (Some(t), Some(b)) => t.checked_add(b),
        _ => None,
    }
}

fn identity_is(found: Option<FileIdentity>, identity: FileIdentity) -> (same: bool)
    ensures
        same == (found == Some(identity)),
{
    match found {
        Some(id) => id == identity,
        None => false,
    }
}

fn same_identity_option(left: Option<FileIdentity>, right: Option<FileIdentity>) -> (same: bool)
    ensures
        same == (left == right),
{
    match (left, right) {
        (Some(a), Some(b)) => a == b,
        (None, None) => true,
        _ => false,
    }
}

#[verifier::rlimit(50)]
fn transfer_item_exec(
    kind: OperationKind,
    destination: &NativePath,
    destination_identity: FileIdentity,
    snapshot: &PreflightSnapshot,
    source: &NativePath,
    source_index: usize,
    required: Option<u64>,
) -> (item: Outcome<(PlannedSource, PlannedTarget, Option<u64>)>)
    ensures
        match item {
            Ok(v) => transfer_item(
                kind,
                destination@,
                destination_identity,
                snapshot@,
                source@,
                source_index,
                required,
            ) == Ok::<_, PlanValidationErrorKind>((v.0@, v.1@, v.2)),
            Err(error) => transfer_item(
                kind,
                destination@,
                destination_identity,
                snapshot@,
                source@,
                source_index,
                required,
            ) == Err::<(SourceModel, TargetModel, Option<u64>), _>(error),
        },
{
    let state = match required_source_exec(snapshot, source, source_index) {
        Err(error) => {
            return Err(error);
        },
        Ok(state) => state,
    };
    if !state.is_readable {
        return Err(PlanValidationErrorKind::SourceNotReadable { source_index });
    }
    let identity = match required_identity_exec(state) {
        Err(error) => {
            return Err(error);
        },
        Ok(identity) => identity,
    };
    let name = match source.file_name() {
        None => {
            return Err(PlanValidationErrorKind::InvalidName);
        },
        Some(name) => name,
    };
    let target = destination.join_component(name.as_slice());
    if target.same_path(source) {
        return Err(PlanValidationErrorKind::SamePath { source_index });
    }
    if state.kind == EntryKind::Directory && destination.starts_with(source) {
        return Err(PlanValidationErrorKind::DirectoryIntoItself { source_index });
    }
    match snapshot.state_of(&target) {
        Err(error) => {
            return Err(PlanValidationErrorKind::ProbeFailed(error));
        },
        Ok(Some(existing)) => {
            if identity_is(existing.identity, identity) {
                return Err(PlanValidationErrorKind::SamePath { source_index });
            } else {
                return Err(PlanValidationErrorKind::Conflict { target_index: source_index });
            }
        },
        Ok(None) => {},
    }
    let parent = if kind == OperationKind::Move {
        match required_writable_parent_exec(snapshot, source) {
            Err(error) => {
                return Err(error);
            },
            Ok(found) => Some(found),
        }
    } else {
        None
    };
    let needs_copy_space = kind == OperationKind::Copy || identity.volume_id
        != destination_identity.volume_id;
    let space = if needs_copy_space {
        match snapshot.estimate_of(source) {
            Err(error) => {
                return Err(PlanValidationErrorKind::ProbeFailed(error));
            },
            Ok(bytes) => add_required_space_exec(required, bytes),
        }
    } else {
        required
    };
    let planned_source = PlannedSource {
        path: source.duplicate(),
        identity,
        kind: state.kind,
        byte_len: state.byte_len,
        parent,
    };
    let planned_target = PlannedTarget {
        path: target,
        parent: destination.duplicate(),
        parent_identity: destination_identity,
        expected_existing_identity: None,
    };
    Ok((planned_source, planned_target, space))
}

proof fn lemma_transfer_error_persists(
    kind: OperationKind,
    destination: PathModel,
    destination_identity: FileIdentity,
    snapshot: SnapshotModel,
    sources: Seq<PathModel>,
    count: nat,
    total: nat,
)
    requires
        count <= total,
        transfer_items(kind, destination, destination_identity, snapshot, sources, count) is Err,
    ensures
        transfer_items(kind, destination, destination_identity, snapshot, sources, total)
            == transfer_items(kind, destination, destination_identity, snapshot, sources, count),
    decreases total,
{
    if total > count {
        lemma_transfer_error_persists(
            kind,
            destination,
            destination_identity,
            snapshot,
            sources,
            count,
            (total - 1) as nat,
        );
    }
}

fn space_requirement_exec(snapshot: &PreflightSnapshot, directory: &NativePath, required: Option<u64>) -> (spaces:
    Outcome<Vec<SpaceRequirement>>)
    ensures
        match spaces {
            Ok(v) => space_requirement(snapshot@, directory@, required) == Ok::<_, PlanValidationErrorKind>(
                spaces_model(v@),
            ),
            Err(error) => space_requirement(snapshot@, directory@, required) == Err::<Seq<(PathModel, u64)>, _>(
                error,
            ),
        },
{
    let required = match required {
        None => {
            let none: Vec<SpaceRequirement> = Vec::new();
            assert(spaces_model(none@) =~= seq![]);
            return Ok(none);
        },
        Some(required) => required,
    };
    if required == 0 {
        let none: Vec<SpaceRequirement> = Vec::new();
        assert(spaces_model(none@) =~= seq![]);
        return Ok(none);
    }
    match snapshot.space_of(directory) {
        Err(error) => {
            return Err(PlanValidationErrorKind::ProbeFailed(error));
        },
        Ok(Some(available)) => {
            if available < required {
                return Err(PlanValidationErrorKind::InsufficientSpace { required, available });
            }
        },
        Ok(None) => {},
    }
    let mut spaces: Vec<SpaceRequirement> = Vec::new();
    spaces.push(SpaceRequirement { directory: directory.duplicate(), required });
    assert(spaces_model(spaces@) =~= seq![(directory@, required)]);
    Ok(spaces)
}

fn plan_transfer_exec(
    kind: OperationKind,
    sources: &Vec<NativePath>,
    destination: &NativePath,
    snapshot: &PreflightSnapshot,
) -> (plan: Result<OperationPlan, PlanValidationError>)
    ensures
        plan_result_model(plan) == plan_transfer(kind, paths_model(sources@), destination@, snapshot@),
{
    if sources.len() == 0 {
        return Err(PlanValidationError::new(PlanValidationErrorKind::EmptySources));
    }
    let state = match required_destination_exec(snapshot, destination) {
        Err(error) => {
            return Err(PlanValidationError::new(error));
        },
        Ok(state) => state,
    };
    let identity = match required_identity_exec(state) {
        Err(error) => {
            return Err(PlanValidationError::new(error));
        },
        Ok(identity) => identity,
    };
    if !state.is_writable {
        return Err(PlanValidationError::new(PlanValidationErrorKind::ParentNotWritable));
    }
    let ghost source_models = paths_model(sources@);
    let mut planned_sources: Vec<PlannedSource> = Vec::new();
    let mut planned_targets: Vec<PlannedTarget> = Vec::new();
    let mut required: Option<u64> = Some(0);
    assert(sources_model(planned_sources@) =~= seq![]);
    assert(targets_model(planned_targets@) =~= seq![]);
    let mut i: usize = 0;
    while i < sources.len()
        invariant
            i <= sources@.len(),
            source_models == paths_model(sources@),
            sources@.len() > 0,
            required_destination(snapshot@, destination@) == Ok::<_, PlanValidationErrorKind>(state),
            required_identity(state) == Ok::<_, PlanValidationErrorKind>(identity),
            state.is_writable,
            transfer_items(kind, destination@, identity, snapshot@, source_models, i as nat) == Ok::<
                _,
                PlanValidationErrorKind,
            >((sources_model(planned_sources@), targets_model(planned_targets@), required)),
        decreases sources.len() - i,
    {
        let item = transfer_item_exec(
            kind,
            destination,
            identity,
            snapshot,
            &sources[i],
            i,
            required,
        );
        assert(source_models[i as int] == sources@[i as int]@);
        match item {
            Err(error) => {
                proof {
                    assert(transfer_items(
                        kind,
                        destination@,
                        identity,
                        snapshot@,
                        source_models,
                        (i + 1) as nat,
                    ) == Err::<(Seq<SourceModel>, Seq<TargetModel>, Option<u64>), _>(error));
                    lemma_transfer_error_persists(
                        kind,
                        destination@,
                        identity,
                        snapshot@,
                        source_models,
                        (i + 1) as nat,
                        sources@.len(),
                    );
                }
                return Err(PlanValidationError::new(error));
            },
            Ok((planned_source, planned_target, space)) => {
                let ghost before_sources = sources_model(planned_sources@);
                let ghost before_targets = targets_model(planned_targets@);
                planned_sources.push(planned_source);
                planned_targets.push(planned_target);
                required = space;
                assert(sources_model(planned_sources@) =~= before_sources.push(planned_source@));
                assert(targets_model(planned_targets@) =~= before_targets.push(planned_target@));
            },
        }
        i += 1;
    }
    let space_requirements = match space_requirement_exec(snapshot, destination, required) {
        Err(error) => {
            return Err(PlanValidationError::new(error));
        },
        Ok(spaces) => spaces,
    };
    let plan = OperationPlan {
        kind,
        sources: planned_sources,
        targets: planned_targets,
        space_requirements,
    };
    assert(plan@.spaces =~= spaces_model(plan.space_requirements@));
    Ok(plan)
}

fn plan_rename_exec(source: &NativePath, new_name: &Vec<u8>, snapshot: &PreflightSnapshot) -> (plan:
    Result<OperationPlan, PlanValidationError>)
    ensures
        plan_result_model(plan) == plan_rename(source@, new_name@, snapshot@),
{
    let component = match validate_name(new_name.as_slice()) {
        None => {
            return Err(PlanValidationError::new(PlanValidationErrorKind::InvalidName));
        },
        Some(component) => component,
    };
    let state = match required_source_exec(snapshot, source, 0) {
        Err(error) => {
            return Err(PlanValidationError::new(error));
        },
        Ok(state) => state,
    };
    let identity = match required_identity_exec(state) {
        Err(error) => {
            return Err(PlanValidationError::new(error));
        },
        Ok(identity) => identity,
    };
    let (parent, parent_identity) = match required_writable_parent_exec(snapshot, source) {
        Err(error) => {
            return Err(PlanValidationError::new(error));
        },
        Ok(found) => found,
    };
    let target = parent.join_component(component.as_slice());
    if target.same_path(source) {
        return Err(PlanValidationError::new(PlanValidationErrorKind::SamePath { source_index: 0 }));
    }
    let expected = match snapshot.state_of(&target) {
        Err(error) => {
            return Err(PlanValidationError::new(PlanValidationErrorKind::ProbeFailed(error)));
        },
        Ok(Some(existing)) => {
            if identity_is(existing.identity, identity) {
                Some(identity)
            } else {
                return Err(
                    PlanValidationError::new(PlanValidationErrorKind::Conflict { target_index: 0 }),
                );
            }
        },
        Ok(None) => None,
    };
    let mut sources: Vec<PlannedSource> = Vec::new();
    sources.push(
        PlannedSource {
            path: source.duplicate(),
            identity,
            kind: state.kind,
            byte_len: state.byte_len,
            parent: Some((parent.duplicate(), parent_identity)),
        },
    );
    let mut targets: Vec<PlannedTarget> = Vec::new();
    targets.push(
        PlannedTarget {
            path: target,
            parent,
            parent_identity,
            expected_existing_identity: expected,
        },
    );
    let plan = OperationPlan {
        kind: OperationKind::Rename,
        sources,
        targets,
        space_requirements: Vec::new(),
    };
    assert(plan@.sources =~= seq![plan.sources@[0]@]);
    assert(plan@.targets =~= seq![plan.targets@[0]@]);
    assert(plan@.spaces =~= seq![]);
    Ok(plan)
}

fn plan_create_directory_exec(parent: &NativePath, name: &Vec<u8>, snapshot: &PreflightSnapshot) -> (plan:
    Result<OperationPlan, PlanValidationError>)
    ensures
        plan_result_model(plan) == plan_create_directory(parent@, name@, snapshot@),
{
    let component = match validate_name(name.as_slice()) {
        None => {
            return Err(PlanValidationError::new(PlanValidationErrorKind::InvalidName));
        },
        Some(component) => component,
    };
    let state = match required_destination_exec(snapshot, parent) {
        Err(error) => {
            return Err(PlanValidationError::new(error));
        },
        Ok(state) => state,
    };
    let identity = match required_identity_exec(state) {
        Err(error) => {
            return Err(PlanValidationError::new(error));
        },
        Ok(identity) => identity,
    };
    if !state.is_writable {
        return Err(PlanValidationError::new(PlanValidationErrorKind::ParentNotWritable));
    }
    let target = parent.join_component(component.as_slice());
    match snapshot.state_of(&target) {
        Err(error) => {
            return Err(PlanValidationError::new(PlanValidationErrorKind::ProbeFailed(error)));
        },
        Ok(Some(_)) => {
            return Err(
                PlanValidationError::new(PlanValidationErrorKind::Conflict { target_index: 0 }),
            );
        },
        Ok(None) => {},
    }
    let mut targets: Vec<PlannedTarget> = Vec::new();
    targets.push(
        PlannedTarget {
            path: target,
            parent: parent.duplicate(),
            parent_identity: identity,
            expected_existing_identity: None,
        },
    );
    let plan = OperationPlan {
        kind: OperationKind::CreateDirectory,
        sources: Vec::new(),
        targets,
        space_requirements: Vec::new(),
    };
    assert(plan@.sources =~= seq![]);
    assert(plan@.targets =~= seq![plan.targets@[0]@]);
    assert(plan@.spaces =~= seq![]);
    Ok(plan)
}

fn trash_item_exec(snapshot: &PreflightSnapshot, source: &NativePath, source_index: usize) -> (item:
    Outcome<PlannedSource>)
    ensures
        match item {
            Ok(planned) => trash_item(snapshot@, source@, source_index) == Ok::<_, PlanValidationErrorKind>(
                planned@,
            ),
            Err(error) => trash_item(snapshot@, source@, source_index) == Err::<SourceModel, _>(error),
        },
{
    let state = match required_source_exec(snapshot, source, source_index) {
        Err(error) => {
            return Err(error);
        },
        Ok(state) => state,
    };
    let identity = match required_identity_exec(state) {
        Err(error) => {
            return Err(error);
        },
        Ok(identity) => identity,
    };
    let parent = match required_writable_parent_exec(snapshot, source) {
        Err(error) => {
            return Err(error);
        },
        Ok(found) => found,
    };
    Ok(
        PlannedSource {
            path: source.duplicate(),
            identity,
            kind: state.kind,
            byte_len: state.byte_len,
            parent: Some(parent),
        },
    )
}

proof fn lemma_trash_error_persists(
    snapshot: SnapshotModel,
    sources: Seq<PathModel>,
    count: nat,
    total: nat,
)
    requires
        count <= total,
        trash_items(snapshot, sources, count) is Err,
    ensures
        trash_items(snapshot, sources, total) == trash_items(snapshot, sources, count),
    decreases total,
{
    if total > count {
        lemma_trash_error_persists(snapshot, sources, count, (total - 1) as nat);
    }
}

fn plan_trash_exec(sources: &Vec<NativePath>, snapshot: &PreflightSnapshot) -> (plan: Result<
    OperationPlan,
    PlanValidationError,
>)
    ensures
        plan_result_model(plan) == plan_trash(paths_model(sources@), snapshot@),
{
    if sources.len() == 0 {
        return Err(PlanValidationError::new(PlanValidationErrorKind::EmptySources));
    }
    let ghost source_models = paths_model(sources@);
    let mut planned: Vec<PlannedSource> = Vec::new();
    assert(sources_model(planned@) =~= seq![]);
    let mut i: usize = 0;
    while i < sources.len()
        invariant
            i <= sources@.len(),
            sources@.len() > 0,
            source_models == paths_model(sources@),
            trash_items(snapshot@, source_models, i as nat) == Ok::<_, PlanValidationErrorKind>(
                sources_model(planned@),
            ),
        decreases sources.len() - i,
    {
        let item = trash_item_exec(snapshot, &sources[i], i);
        assert(source_models[i as int] == sources@[i as int]@);
        match item {
            Err(error) => {
                proof {
                    assert(trash_items(snapshot@, source_models, (i + 1) as nat) == Err::<
                        Seq<SourceModel>,
                        _,
                    >(error));
                    lemma_trash_error_persists(
                        snapshot@,
                        source_models,
                        (i + 1) as nat,
                        sources@.len(),
                    );
                }
                return Err(PlanValidationError::new(error));
            },
            Ok(source) => {
                let ghost before = sources_model(planned@);
                planned.push(source);
                assert(sources_model(planned@) =~= before.push(source@));
            },
        }
        i += 1;
    }
    let plan = OperationPlan {
        kind: OperationKind::Trash,
        sources: planned,
        targets: Vec::new(),
        space_requirements: Vec::new(),
    };
    assert(plan@.targets =~= seq![]);
    assert(plan@.spaces =~= seq![]);
    Ok(plan)
}

fn revalidate_source_exec(
    kind: OperationKind,
    snapshot: &PreflightSnapshot,
    source: &PlannedSource,
    source_index: usize,
) -> (check: Outcome<()>)
    ensures
        check == revalidate_source(kind, snapshot@, source@, source_index),
{
    let state = match snapshot.state_of(&source.path) {
        Err(error) => {
            return Err(PlanValidationErrorKind::ProbeFailed(error));
        },
        Ok(None) => {
            return Err(PlanValidationErrorKind::SourceChanged { source_index });
        },
        Ok(Some(state)) => state,
    };
    if !identity_is(state.identity, source.identity) {
        return Err(PlanValidationErrorKind::SourceChanged { source_index });
    }
    if (kind == OperationKind::Copy || kind == OperationKind::Move) && !state.is_readable {
        return Err(PlanValidationErrorKind::SourceChanged { source_index });
    }
    match &source.parent {
        None => Ok(()),
        Some((parent, parent_identity)) => match snapshot.state_of(parent) {
            Err(error) => Err(PlanValidationErrorKind::ProbeFailed(error)),
            Ok(None) => Err(PlanValidationErrorKind::SourceChanged { source_index }),
            Ok(Some(parent_state)) => {
                if !identity_is(parent_state.identity, *parent_identity)
                    || !parent_state.is_writable {
                    Err(PlanValidationErrorKind::SourceChanged { source_index })
                } else {
                    Ok(())
                }
            },
        },
    }
}

fn revalidate_target_exec(snapshot: &PreflightSnapshot, target: &PlannedTarget, target_index: usize) -> (check:
    Outcome<()>)
    ensures
        check == revalidate_target(snapshot@, target@, target_index),
{
    let parent_state = match snapshot.state_of(&target.parent) {
        Err(error) => {
            return Err(PlanValidationErrorKind::ProbeFailed(error));
        },
        Ok(None) => {
            return Err(PlanValidationErrorKind::ParentChanged { target_index });
        },
        Ok(Some(state)) => state,
    };
    if !identity_is(parent_state.identity, target.parent_identity) || !parent_state.is_writable {
        return Err(PlanValidationErrorKind::ParentChanged { target_index });
    }
    match snapshot.state_of(&target.path) {
        Err(error) => Err(PlanValidationErrorKind::ProbeFailed(error)),
        Ok(found) => {
            let identity = match found {
                Some(state) => state.identity,
                None => None,
            };
            if !same_identity_option(identity, target.expected_existing_identity) {
                Err(PlanValidationErrorKind::TargetChanged { target_index })
            } else {
                Ok(())
            }
        },
    }
}

fn revalidate_space_exec(snapshot: &PreflightSnapshot, requirement: &SpaceRequirement) -> (check:
    Outcome<()>)
    ensures
        check == revalidate_space(snapshot@, (requirement.directory@, requirement.required)),
{
    match snapshot.space_of(&requirement.directory) {
        Err(error) => Err(PlanValidationErrorKind::ProbeFailed(error)),
        Ok(Some(available)) => {
            if available < requirement.required {
                Err(
                    PlanValidationErrorKind::InsufficientSpace {
                        required: requirement.required,
                        available,
                    },
                )
            } else {
                Ok(())
            }
        },
        Ok(None) => Ok(()),
    }
}

proof fn lemma_sources_error_persists(
    kind: OperationKind,
    snapshot: SnapshotModel,
    sources: Seq<SourceModel>,
    count: nat,
    total: nat,
)
    requires
        count <= total,
        revalidate_sources(kind, snapshot, sources, count) is Err,
    ensures
        revalidate_sources(kind, snapshot, sources, total) == revalidate_sources(
            kind,
            snapshot,
            sources,
            count,
        ),
    decreases total,
{
    if total > count {
        lemma_sources_error_persists(kind, snapshot, sources, count, (total - 1) as nat);
    }
}

proof fn lemma_targets_error_persists(
    snapshot: SnapshotModel,
    targets: Seq<TargetModel>,
    count: nat,
    total: nat,
)
    requires
        count <= total,
        revalidate_targets(snapshot, targets, count) is Err,
    ensures
        revalidate_targets(snapshot, targets, total) == revalidate_targets(snapshot, targets, count),
    decreases total,
{
    if total > count {
        lemma_targets_error_persists(snapshot, targets, count, (total - 1) as nat);
    }
}

proof fn lemma_spaces_error_persists(
    snapshot: SnapshotModel,
    spaces: Seq<(PathModel, u64)>,
    count: nat,
    total: nat,
)
    requires
        count <= total,
        revalidate_spaces(snapshot, spaces, count) is Err,
    ensures
        revalidate_spaces(snapshot, spaces, total) == revalidate_spaces(snapshot, spaces, count),
    decreases total,
{
    if total > count {
        lemma_spaces_error_persists(snapshot, spaces, count, (total - 1) as nat);
    }
}

fn revalidate_exec(plan: &OperationPlan, snapshot: &PreflightSnapshot) -> (check: Outcome<()>)
    ensures
        check == revalidate_model(plan@, snapshot@),
{
    let ghost model = plan@;
    let mut i: usize = 0;
    while i < plan.sources.len()
        invariant
            i <= plan.sources@.len(),
            model == plan@,
            revalidate_sources(model.kind, snapshot@, model.sources, i as nat) == Ok::<
                (),
                PlanValidationErrorKind,
            >(()),
        decreases plan.sources.len() - i,
    {
        let check = revalidate_source_exec(plan.kind, snapshot, &plan.sources[i], i);
        assert(model.sources[i as int] == plan.sources@[i as int]@);
        if let Err(error) = check {
            proof {
                assert(revalidate_sources(model.kind, snapshot@, model.sources, (i + 1) as nat)
                    == Err::<(), _>(error));
                lemma_sources_error_persists(
                    model.kind,
                    snapshot@,
                    model.sources,
                    (i + 1) as nat,
                    model.sources.len(),
                );
            }
            return Err(error);
        }
        i += 1;
    }
    let mut j: usize = 0;
    while j < plan.targets.len()
        invariant
            j <= plan.targets@.len(),
            model == plan@,
            revalidate_sources(model.kind, snapshot@, model.sources, model.sources.len()) == Ok::<
                (),
                PlanValidationErrorKind,
            >(()),
            revalidate_targets(snapshot@, model.targets, j as nat) == Ok::<(), PlanValidationErrorKind>(()),
        decreases plan.targets.len() - j,
    {
        let check = revalidate_target_exec(snapshot, &plan.targets[j], j);
        assert(model.targets[j as int] == plan.targets@[j as int]@);
        if let Err(error) = check {
            proof {
                assert(revalidate_targets(snapshot@, model.targets, (j + 1) as nat) == Err::<(), _>(
                    error,
                ));
                lemma_targets_error_persists(
                    snapshot@,
                    model.targets,
                    (j + 1) as nat,
                    model.targets.len(),
                );
            }
            return Err(error);
        }
        j += 1;
    }
    let mut k: usize = 0;
    while k < plan.space_requirements.len()
        invariant
            k <= plan.space_requirements@.len(),
            model == plan@,
            revalidate_sources(model.kind, snapshot@, model.sources, model.sources.len()) == Ok::<
                (),
                PlanValidationErrorKind,
            >(()),
            revalidate_targets(snapshot@, model.targets, model.targets.len()) == Ok::<
                (),
                PlanValidationErrorKind,
            >(()),
            revalidate_spaces(snapshot@, model.spaces, k as nat) == Ok::<(), PlanValidationErrorKind>(()),
        decreases plan.space_requirements.len() - k,
    {
        let check = revalidate_space_exec(snapshot, &plan.space_requirements[k]);
        if let Err(error) = check {
            proof {
                assert(revalidate_spaces(snapshot@, model.spaces, (k + 1) as nat) == Err::<(), _>(
                    error,
                ));
                lemma_spaces_error_persists(
                    snapshot@,
                    model.spaces,
                    (k + 1) as nat,
                    model.spaces.len(),
                );
            }
            return Err(error);
        }
        k += 1;
    }
    Ok(())
}

fn record_inspection<P: PreflightProbe>(probe: &P, snapshot: &mut PreflightSnapshot, path: &NativePath) -> (answer:
    StateAnswer)
    ensures
        final(snapshot)@ == (SnapshotModel { states: old(snapshot)@.states.push((path@, answer)), ..old(snapshot)@ }),
        call_ensures(P::inspect, (probe, path), answer),
        probe_state_answer(probe, path@, answer),
{
    let answer = probe.inspect(path);
    snapshot.record_state(path.duplicate(), answer);
    answer
}

/// What planning a transfer inspects for one source: the source, the
/// target it would get, then, for a move, its parent.
pub open spec fn transfer_source_inspections(destination: PathModel, source: PathModel, is_move: bool) -> Seq<
    PathModel,
> {
    let target: Seq<PathModel> = match file_name_model(source) {
        Some(name) => seq![join_model(destination, name)],
        None => seq![],
    };
    let parent: Seq<PathModel> = if is_move {
        match parent_model(source) {
            Some(parent) => seq![parent],
            None => seq![],
        }
    } else {
        seq![]
    };
    seq![source] + target + parent
}

/// What planning a transfer inspects for its sources, in order.
pub open spec fn transfer_inspections(destination: PathModel, sources: Seq<PathModel>, is_move: bool) -> Seq<
    PathModel,
>
    decreases sources.len(),
{
    if sources.len() == 0 {
        seq![]
    } else {
        transfer_inspections(destination, sources.drop_last(), is_move) + transfer_source_inspections(
            destination,
            sources.last(),
            is_move,
        )
    }
}

/// The volume an inspection reports, when it reports an identity.
pub open spec fn answer_volume(answer: StateAnswer) -> Option<u64> {
    match answer {
        Ok(Some(state)) => match state.identity {
            Some(identity) => Some(identity.volume_id),
            None => None,
        },
        _ => None,
    }
}

/// Both inspections report a volume, and the volumes differ.
pub open spec fn crosses_volumes(source_answer: StateAnswer, destination_answer: StateAnswer) -> bool {
    &&& answer_volume(source_answer) is Some
    &&& answer_volume(destination_answer) is Some
    &&& answer_volume(source_answer) != answer_volume(destination_answer)
}

/// The answer recorded for source `i` of a transfer, when the states hold
/// the destination's answer first and then each source's inspections.
pub open spec fn source_answer_at(
    destination: PathModel,
    sources: Seq<PathModel>,
    states: Seq<(PathModel, StateAnswer)>,
    i: int,
    is_move: bool,
) -> StateAnswer {
    states[1 + transfer_inspections(destination, sources.take(i), is_move).len() as int].1
}

/// The sources whose copy size planning the first `count` sources asks
/// for: every source of a copy, and each source of a move that the
/// recorded answers place on another volume than the destination.
pub open spec fn transfer_estimates(
    destination: PathModel,
    sources: Seq<PathModel>,
    states: Seq<(PathModel, StateAnswer)>,
    is_move: bool,
    count: nat,
) -> Seq<PathModel>
    decreases count,
{
    if count == 0 {
        seq![]
    } else {
        let i = count - 1;
        let asked: Seq<PathModel> = if !is_move || crosses_volumes(
            source_answer_at(destination, sources, states, i, is_move),
            states[0].1,
        ) {
            seq![sources[i]]
        } else {
            seq![]
        };
        transfer_estimates(destination, sources, states, is_move, (count - 1) as nat) + asked
    }
}

/// What planning a move to the trash inspects: each source, then its
/// parent.
pub open spec fn trash_inspections(sources: Seq<PathModel>) -> Seq<PathModel>
    decreases sources.len(),
{
    if sources.len() == 0 {
        seq![]
    } else {
        let parent: Seq<PathModel> = match parent_model(sources.last()) {
            Some(parent) => seq![parent],
            None => seq![],
        };
        trash_inspections(sources.drop_last()) + seq![sources.last()] + parent
    }
}

/// The target a new name would give inside `parent`, when the name is
/// valid.
pub open spec fn named_target(parent: PathModel, name: Seq<u8>) -> Seq<PathModel> {
    if valid_name(name) {
        seq![join_model(parent, name_component(name))]
    } else {
        seq![]
    }
}

/// The paths planning `request` inspects, in order.
pub open spec fn request_inspections(request: RequestModel) -> Seq<PathModel> {
    if request_precheck(request) is Some {
        seq![]
    } else {
        match request {
            RequestModel::Copy { sources, destination_directory } => seq![destination_directory]
                + transfer_inspections(destination_directory, sources, false),
            RequestModel::Move { sources, destination_directory } => seq![destination_directory]
                + transfer_inspections(destination_directory, sources, true),
            RequestModel::Rename { source, new_name } => seq![source] + match parent_model(source) {
                Some(parent) => seq![parent] + named_target(parent, new_name),
                None => seq![],
            },
            RequestModel::CreateDirectory { parent, name } => seq![parent] + named_target(parent, name),
            RequestModel::Trash { sources } => trash_inspections(sources),
        }
    }
}

/// The checks a request meets before anything is asked of the disk: a
/// transfer or a move to the trash needs a source, and a new name must be
/// one valid component. The error for a request that fails one.
pub open spec fn request_precheck(request: RequestModel) -> Option<PlanValidationErrorKind> {
    match request {
        RequestModel::Copy { sources, .. } | RequestModel::Move { sources, .. } | RequestModel::Trash {
            sources,
        } => if sources.len() == 0 {
            Some(PlanValidationErrorKind::EmptySources)
        } else {
            None
        },
        RequestModel::Rename { new_name, .. } => if !valid_name(new_name) {
            Some(PlanValidationErrorKind::InvalidName)
        } else {
            None
        },
        RequestModel::CreateDirectory { name, .. } => if !valid_name(name) {
            Some(PlanValidationErrorKind::InvalidName)
        } else {
            None
        },
    }
}

/// A snapshot holds exactly what planning `request` asks `probe`: the
/// inspections of [`request_inspections`], the copy sizes of
/// [`request_estimates`] and the free space of [`request_spaces`], every
/// answer being the probe's.
pub open spec fn request_snapshot<P: PreflightProbe>(probe: &P, request: RequestModel, snapshot: SnapshotModel) -> bool {
    &&& answered_by(probe, snapshot)
    &&& answer_paths(snapshot.states) == request_inspections(request)
    &&& answer_paths(snapshot.estimates) == request_estimates(request, snapshot.states)
    &&& answer_paths(snapshot.spaces) == request_spaces(request, snapshot)
}

/// A snapshot holds exactly what revalidating `plan` asks `probe`: the
/// inspections of [`revalidation_inspections`], no copy size, and the free
/// space of each directory with a space requirement, every answer being
/// the probe's.
pub open spec fn revalidation_snapshot<P: PreflightProbe>(probe: &P, plan: PlanModel, snapshot: SnapshotModel) -> bool {
    &&& answered_by(probe, snapshot)
    &&& answer_paths(snapshot.states) == revalidation_inspections(plan)
    &&& snapshot.estimates.len() == 0
    &&& answer_paths(snapshot.spaces) == plan.spaces.map_values(|space: (PathModel, u64)| space.0)
}

/// A revalidation snapshot that also holds the probe's copy size of each
/// path in `estimated`, in order.
pub open spec fn estimating_snapshot<P: PreflightProbe>(
    probe: &P,
    plan: PlanModel,
    snapshot: SnapshotModel,
    estimated: Seq<PathModel>,
) -> bool {
    &&& answered_by(probe, snapshot)
    &&& answer_paths(snapshot.states) == revalidation_inspections(plan)
    &&& answer_paths(snapshot.estimates) == estimated
    &&& answer_paths(snapshot.spaces) == plan.spaces.map_values(|space: (PathModel, u64)| space.0)
}

/// A request that fails a check made before probing is refused with that
/// check's error, whatever the disk holds.
proof fn lemma_precheck_decides(request: RequestModel, snapshot: SnapshotModel)
    requires
        request_precheck(request) is Some,
    ensures
        plan_model(request, snapshot) == Err::<PlanModel, PlanValidationErrorKind>(
            request_precheck(request)->Some_0,
        ),
{
}

/// The paths planning `request` asks copy sizes for, given the recorded
/// inspections.
pub open spec fn request_estimates(request: RequestModel, states: Seq<(PathModel, StateAnswer)>) -> Seq<
    PathModel,
> {
    match request {
        RequestModel::Copy { sources, destination_directory } => transfer_estimates(
            destination_directory,
            sources,
            states,
            false,
            sources.len(),
        ),
        RequestModel::Move { sources, destination_directory } => transfer_estimates(
            destination_directory,
            sources,
            states,
            true,
            sources.len(),
        ),
        _ => seq![],
    }
}

/// What the answered copy sizes add up to: an error when an answer failed,
/// nothing when a size is unknown or the sum does not fit.
pub open spec fn answered_space(answers: Seq<(PathModel, SizeAnswer)>) -> Result<Option<u64>, ()>
    decreases answers.len(),
{
    if answers.len() == 0 {
        Ok(Some(0u64))
    } else {
        match answered_space(answers.drop_last()) {
            Err(_) => Err(()),
            Ok(total) => match answers.last().1 {
                Err(_) => Err(()),
                Ok(bytes) => Ok(add_required_space(total, bytes)),
            },
        }
    }
}

/// Whether the answered copy sizes add up to some space that is needed.
pub open spec fn needs_space(answers: Seq<(PathModel, SizeAnswer)>) -> bool {
    answered_space(answers) matches Ok(Some(total)) && total > 0
}

/// The directories planning `request` asks free space for: the
/// destination of a transfer whose answered copy sizes add up to some
/// space, as the plan will require it.
pub open spec fn request_spaces(request: RequestModel, snapshot: SnapshotModel) -> Seq<PathModel> {
    match request {
        RequestModel::Copy { destination_directory, .. } | RequestModel::Move {
            destination_directory,
            ..
        } => if request_precheck(request) is None && needs_space(snapshot.estimates) {
            seq![destination_directory]
        } else {
            seq![]
        },
        _ => seq![],
    }
}

proof fn lemma_transfer_inspections_step(destination: PathModel, sources: Seq<PathModel>, i: int, is_move: bool)
    requires
        0 <= i < sources.len(),
    ensures
        transfer_inspections(destination, sources.take(i + 1), is_move) == transfer_inspections(
            destination,
            sources.take(i),
            is_move,
        ) + transfer_source_inspections(destination, sources[i], is_move),
        transfer_source_inspections(destination, sources[i], is_move).len() >= 1,
{
    assert(sources.take(i + 1).drop_last() =~= sources.take(i));
}

proof fn lemma_transfer_estimates_frame(
    destination: PathModel,
    sources: Seq<PathModel>,
    left: Seq<(PathModel, StateAnswer)>,
    right: Seq<(PathModel, StateAnswer)>,
    is_move: bool,
    count: nat,
)
    requires
        count <= sources.len(),
        0 < left.len() <= right.len(),
        forall|k: int| 0 <= k < left.len() ==> left[k] == right[k],
        1 + transfer_inspections(destination, sources.take(count as int), is_move).len() <= left.len(),
    ensures
        transfer_estimates(destination, sources, left, is_move, count) == transfer_estimates(
            destination,
            sources,
            right,
            is_move,
            count,
        ),
    decreases count,
{
    if count > 0 {
        let i = count - 1;
        lemma_transfer_inspections_step(destination, sources, i, is_move);
        lemma_transfer_estimates_frame(destination, sources, left, right, is_move, (count - 1) as nat);
        let position: int = 1 + transfer_inspections(destination, sources.take(i), is_move).len() as int;
        assert(left[position] == right[position]);
        assert(left[0] == right[0]);
    }
}

proof fn lemma_trash_inspections_step(sources: Seq<PathModel>, i: int)
    requires
        0 <= i < sources.len(),
    ensures
        trash_inspections(sources.take(i + 1)) == trash_inspections(sources.take(i)) + seq![sources[i]]
            + match parent_model(sources[i]) {
            Some(parent) => seq![parent],
            None => Seq::<PathModel>::empty(),
        },
{
    assert(sources.take(i + 1).drop_last() =~= sources.take(i));
}

/// Asks the probe everything that planning a copy or move may read: the
/// destination, then for each source its inspections, and its copy size
/// where [`transfer_estimates`] says so; then the free space of the
/// destination, if the answered sizes add up to some space.
fn transfer_snapshot<P: PreflightProbe>(
    probe: &P,
    sources: &Vec<NativePath>,
    destination_directory: &NativePath,
    is_move: bool,
) -> (snapshot: PreflightSnapshot)
    ensures
        answer_paths(snapshot@.states) == seq![destination_directory@] + transfer_inspections(
            destination_directory@,
            paths_model(sources@),
            is_move,
        ),
        answer_paths(snapshot@.estimates) == transfer_estimates(
            destination_directory@,
            paths_model(sources@),
            snapshot@.states,
            is_move,
            sources@.len(),
        ),
        answer_paths(snapshot@.spaces) == if needs_space(snapshot@.estimates) {
            seq![destination_directory@]
        } else {
            Seq::<PathModel>::empty()
        },
        answered_by(probe, snapshot@),
{
    let ghost paths = paths_model(sources@);
    let ghost destination = destination_directory@;
    let mut snapshot = PreflightSnapshot::new();
    let ghost empty = snapshot@;
    let destination_answer = record_inspection(probe, &mut snapshot, destination_directory);
    proof {
        lemma_answered_after_state(probe, empty, destination, destination_answer);
        lemma_answer_paths_push(empty.states, (destination, destination_answer));
        assert(transfer_inspections(destination, paths.take(0), is_move) =~= Seq::<PathModel>::empty());
        assert(answer_paths(snapshot@.states) =~= seq![destination] + transfer_inspections(
            destination,
            paths.take(0),
            is_move,
        ));
        assert(answer_paths(snapshot@.estimates) =~= Seq::<PathModel>::empty());
    }
    let destination_volume = match destination_answer {
        Ok(Some(state)) => match state.identity {
            Some(identity) => Some(identity.volume_id),
            None => None,
        },
        _ => None,
    };
    let mut required: Option<u64> = Some(0);
    let mut failed = false;
    let mut i: usize = 0;
    while i < sources.len()
        invariant
            i <= sources@.len(),
            paths == paths_model(sources@),
            destination == destination_directory@,
            snapshot@.states.len() >= 1,
            snapshot@.states[0] == (destination, destination_answer),
            destination_volume == answer_volume(destination_answer),
            answer_paths(snapshot@.states) == seq![destination] + transfer_inspections(
                destination,
                paths.take(i as int),
                is_move,
            ),
            answer_paths(snapshot@.estimates) == transfer_estimates(
                destination,
                paths,
                snapshot@.states,
                is_move,
                i as nat,
            ),
            answered_space(snapshot@.estimates) == if failed {
                Err::<Option<u64>, ()>(())
            } else {
                Ok::<Option<u64>, ()>(required)
            },
            snapshot@.spaces.len() == 0,
            answered_by(probe, snapshot@),
        decreases sources.len() - i,
    {
        let source = &sources[i];
        assert(source@ == paths[i as int]);
        let ghost before = snapshot@;
        let answer = record_inspection(probe, &mut snapshot, source);
        proof {
            lemma_answered_after_state(probe, before, source@, answer);
            lemma_answer_paths_push(before.states, (source@, answer));
        }
        let ghost after_source = snapshot@;
        if let Some(name) = source.file_name() {
            let target = destination_directory.join_component(name.as_slice());
            let ghost middle = snapshot@;
            let target_answer = record_inspection(probe, &mut snapshot, &target);
            proof {
                lemma_answered_after_state(probe, middle, target@, target_answer);
                lemma_answer_paths_push(middle.states, (target@, target_answer));
            }
        }
        let ghost after_target = snapshot@;
        let needs_estimate = if is_move {
            if let Some(parent) = source.parent() {
                let ghost middle = snapshot@;
                let parent_answer = record_inspection(probe, &mut snapshot, &parent);
                proof {
                    lemma_answered_after_state(probe, middle, parent@, parent_answer);
                    lemma_answer_paths_push(middle.states, (parent@, parent_answer));
                }
            }
            match (answer, destination_volume) {
                (Ok(Some(state)), Some(volume)) => match state.identity {
                    Some(identity) => identity.volume_id != volume,
                    None => false,
                },
                _ => false,
            }
        } else {
            true
        };
        proof {
            lemma_transfer_inspections_step(destination, paths, i as int, is_move);
            assert(answer_paths(snapshot@.states) =~= seq![destination] + transfer_inspections(
                destination,
                paths.take(i + 1),
                is_move,
            ));
            assert(snapshot@.states[before.states.len() as int] == (source@, answer));
            assert(source_answer_at(destination, paths, snapshot@.states, i as int, is_move) == answer);
            assert(needs_estimate == (!is_move || crosses_volumes(answer, destination_answer)));
            lemma_transfer_estimates_frame(destination, paths, before.states, snapshot@.states, is_move, i as nat);
        }
        if needs_estimate {
            let estimate = probe.estimated_copy_bytes(source);
            let ghost before_estimate = snapshot@;
            snapshot.record_estimate(source.duplicate(), estimate);
            proof {
                assert(crate::probe::probe_estimate_answer(probe, source@, estimate));
                crate::probe::lemma_answered_after_estimate(probe, before_estimate, source@, estimate);
                lemma_answer_paths_push(before_estimate.estimates, (source@, estimate));
                assert(snapshot@.estimates.drop_last() =~= before_estimate.estimates);
            }
            match estimate {
                Ok(bytes) => {
                    required = match (required, bytes) {
                        (Some(total), Some(more)) => total.checked_add(more),
                        _ => None,
                    };
                },
                Err(_) => {
                    failed = true;
                },
            }
        }
        proof {
            assert(answer_paths(snapshot@.estimates) =~= transfer_estimates(
                destination,
                paths,
                snapshot@.states,
                is_move,
                (i + 1) as nat,
            ));
        }
        i += 1;
    }
    assert(paths.take(i as int) =~= paths);
    let asks_space = match required {
        Some(total) => !failed && total > 0,
        None => false,
    };
    if asks_space {
        let space = probe.available_space(destination_directory);
        let ghost before_space = snapshot@;
        snapshot.record_space(destination_directory.duplicate(), space);
        proof {
            assert(probe_space_answer(probe, destination, space));
            lemma_answered_after_space(probe, before_space, destination, space);
            lemma_answer_paths_push(before_space.spaces, (destination, space));
            assert(answer_paths(before_space.spaces) =~= Seq::<PathModel>::empty());
        }
    } else {
        assert(answer_paths(snapshot@.spaces) =~= Seq::<PathModel>::empty());
    }
    snapshot
}

/// The snapshot of a request refused before probing: nothing is asked.
fn empty_snapshot(request: &OperationRequest) -> (snapshot: PreflightSnapshot)
    requires
        request_precheck(request@) is Some,
    ensures
        snapshot@.states.len() == 0,
        snapshot@.estimates.len() == 0,
        snapshot@.spaces.len() == 0,
        answer_paths(snapshot@.states) == request_inspections(request@),
        answer_paths(snapshot@.estimates) == request_estimates(request@, snapshot@.states),
        answer_paths(snapshot@.spaces) == request_spaces(request@, snapshot@),
{
    let snapshot = PreflightSnapshot::new();
    assert(answer_paths(snapshot@.states) =~= Seq::<PathModel>::empty());
    assert(answer_paths(snapshot@.estimates) =~= Seq::<PathModel>::empty());
    assert(answer_paths(snapshot@.spaces) =~= Seq::<PathModel>::empty());
    assert(answered_space(snapshot@.estimates) == Ok::<Option<u64>, ()>(Some(0u64)));
    snapshot
}

/// Asks the probe everything that planning `request` may read: it inspects
/// the paths of [`request_inspections`] in order, asks for the copy sizes of
/// [`request_estimates`] and the free space of [`request_spaces`]; every
/// answer recorded is the probe's.
fn snapshot_for_request<P: PreflightProbe>(request: &OperationRequest, probe: &P) -> (snapshot:
    PreflightSnapshot)
    ensures
        request_snapshot(probe, request@, snapshot@),
{
    match request {
        OperationRequest::Copy { sources, destination_directory } => {
            if sources.len() == 0 {
                return empty_snapshot(request);
            }
            transfer_snapshot(probe, sources, destination_directory, false)
        },
        OperationRequest::Move { sources, destination_directory } => {
            if sources.len() == 0 {
                return empty_snapshot(request);
            }
            transfer_snapshot(probe, sources, destination_directory, true)
        },
        OperationRequest::Rename { source, new_name } => {
            let component = match validate_name(new_name.as_slice()) {
                Some(component) => component,
                None => {
                    return empty_snapshot(request);
                },
            };
            let mut snapshot = PreflightSnapshot::new();
            let ghost empty = snapshot@;
            let answer = record_inspection(probe, &mut snapshot, source);
            proof {
                lemma_answered_after_state(probe, empty, source@, answer);
                lemma_answer_paths_push(empty.states, (source@, answer));
            }
            if let Some(parent) = source.parent() {
                let ghost middle = snapshot@;
                let parent_answer = record_inspection(probe, &mut snapshot, &parent);
                proof {
                    lemma_answered_after_state(probe, middle, parent@, parent_answer);
                    lemma_answer_paths_push(middle.states, (parent@, parent_answer));
                }
                let target = parent.join_component(component.as_slice());
                let ghost last = snapshot@;
                let target_answer = record_inspection(probe, &mut snapshot, &target);
                proof {
                    lemma_answered_after_state(probe, last, target@, target_answer);
                    lemma_answer_paths_push(last.states, (target@, target_answer));
                }
                assert(answer_paths(snapshot@.states) =~= request_inspections(request@));
            } else {
                assert(answer_paths(snapshot@.states) =~= request_inspections(request@));
            }
            assert(answer_paths(snapshot@.estimates) =~= Seq::<PathModel>::empty());
            assert(answer_paths(snapshot@.spaces) =~= Seq::<PathModel>::empty());
            snapshot
        },
        OperationRequest::CreateDirectory { parent, name } => {
            let component = match validate_name(name.as_slice()) {
                Some(component) => component,
                None => {
                    return empty_snapshot(request);
                },
            };
            let mut snapshot = PreflightSnapshot::new();
            let ghost empty = snapshot@;
            let answer = record_inspection(probe, &mut snapshot, parent);
            proof {
                lemma_answered_after_state(probe, empty, parent@, answer);
                lemma_answer_paths_push(empty.states, (parent@, answer));
            }
            let target = parent.join_component(component.as_slice());
            let ghost middle = snapshot@;
            let target_answer = record_inspection(probe, &mut snapshot, &target);
            proof {
                lemma_answered_after_state(probe, middle, target@, target_answer);
                lemma_answer_paths_push(middle.states, (target@, target_answer));
            }
            assert(answer_paths(snapshot@.states) =~= request_inspections(request@));
            assert(answer_paths(snapshot@.estimates) =~= Seq::<PathModel>::empty());
            assert(answer_paths(snapshot@.spaces) =~= Seq::<PathModel>::empty());
            snapshot
        },
        OperationRequest::Trash { sources } => {
            let ghost paths = paths_model(sources@);
            let mut snapshot = PreflightSnapshot::new();
            assert(answer_paths(snapshot@.states) =~= trash_inspections(paths.take(0)));
            let mut i: usize = 0;
            while i < sources.len()
                invariant
                    i <= sources@.len(),
                    paths == paths_model(sources@),
                    answer_paths(snapshot@.states) == trash_inspections(paths.take(i as int)),
                    snapshot@.estimates.len() == 0,
                    snapshot@.spaces.len() == 0,
                    answered_by(probe, snapshot@),
                decreases sources.len() - i,
            {
                let ghost before = snapshot@;
                let answer = record_inspection(probe, &mut snapshot, &sources[i]);
                proof {
                    lemma_answered_after_state(probe, before, sources@[i as int]@, answer);
                    lemma_answer_paths_push(before.states, (sources@[i as int]@, answer));
                    lemma_trash_inspections_step(paths, i as int);
                }
                if let Some(parent) = sources[i].parent() {
                    let ghost middle = snapshot@;
                    let parent_answer = record_inspection(probe, &mut snapshot, &parent);
                    proof {
                        lemma_answered_after_state(probe, middle, parent@, parent_answer);
                        lemma_answer_paths_push(middle.states, (parent@, parent_answer));
                    }
                }
                assert(answer_paths(snapshot@.states) =~= trash_inspections(paths.take(i + 1)));
                i += 1;
            }
            assert(paths.take(i as int) =~= paths);
            assert(answer_paths(snapshot@.estimates) =~= Seq::<PathModel>::empty());
            assert(answer_paths(snapshot@.spaces) =~= Seq::<PathModel>::empty());
            snapshot
        },
    }
}

/// What revalidating a source inspects: the source, then its recorded
/// parent.
pub open spec fn source_inspections(source: SourceModel) -> Seq<PathModel> {
    match source.parent {
        Some((parent, _)) => seq![source.path, parent],
        None => seq![source.path],
    }
}

pub open spec fn sources_inspections(sources: Seq<SourceModel>) -> Seq<PathModel>
    decreases sources.len(),
{
    if sources.len() == 0 {
        seq![]
    } else {
        sources_inspections(sources.drop_last()) + source_inspections(sources.last())
    }
}

/// What revalidating a target inspects: its parent, then the target.
pub open spec fn targets_inspections(targets: Seq<TargetModel>) -> Seq<PathModel>
    decreases targets.len(),
{
    if targets.len() == 0 {
        seq![]
    } else {
        targets_inspections(targets.drop_last()) + seq![targets.last().parent, targets.last().path]
    }
}

/// The paths revalidating a plan inspects, in order: each source and its
/// recorded parent, then each target's parent and the target.
pub open spec fn revalidation_inspections(plan: PlanModel) -> Seq<PathModel> {
    sources_inspections(plan.sources) + targets_inspections(plan.targets)
}

/// Asks the probe everything that revalidating `plan` reads: it inspects
/// the paths of [`revalidation_inspections`], in order, and asks for the
/// space in each directory with a space requirement; every answer recorded
/// is the probe's.
pub(crate) fn snapshot_for_plan<P: PreflightProbe>(plan: &OperationPlan, probe: &P) -> (snapshot:
    PreflightSnapshot)
    ensures
        answer_paths(snapshot@.states) == revalidation_inspections(plan@),
        snapshot@.estimates.len() == 0,
        answer_paths(snapshot@.spaces) == plan@.spaces.map_values(|space: (PathModel, u64)| space.0),
        answered_by(probe, snapshot@),
        revalidation_snapshot(probe, plan@, snapshot@),
{
    let mut snapshot = PreflightSnapshot::new();
    assert(answer_paths(snapshot@.states) =~= Seq::<PathModel>::empty());
    let mut i: usize = 0;
    while i < plan.sources.len()
        invariant
            i <= plan.sources@.len(),
            plan@.sources == sources_model(plan.sources@),
            answer_paths(snapshot@.states) == sources_inspections(plan@.sources.take(i as int)),
            snapshot@.estimates.len() == 0,
            snapshot@.spaces.len() == 0,
            answered_by(probe, snapshot@),
        decreases plan.sources.len() - i,
    {
        let source = &plan.sources[i];
        let ghost model = source@;
        assert(model == plan@.sources[i as int]);
        assert(plan@.sources.take(i + 1).drop_last() =~= plan@.sources.take(i as int));
        let ghost before = snapshot@;
        let answer = record_inspection(probe, &mut snapshot, &source.path);
        proof {
            lemma_answered_after_state(probe, before, source.path@, answer);
            lemma_answer_paths_push(before.states, (source.path@, answer));
        }
        if let Some((parent, _)) = &source.parent {
            let ghost middle = snapshot@;
            let answer = record_inspection(probe, &mut snapshot, parent);
            proof {
                lemma_answered_after_state(probe, middle, parent@, answer);
                lemma_answer_paths_push(middle.states, (parent@, answer));
                assert(answer_paths(snapshot@.states) =~= sources_inspections(plan@.sources.take(i as int))
                    + source_inspections(model));
            }
        } else {
            assert(answer_paths(snapshot@.states) =~= sources_inspections(plan@.sources.take(i as int))
                + source_inspections(model));
        }
        i += 1;
    }
    assert(plan@.sources.take(i as int) =~= plan@.sources);
    let ghost sources_done = answer_paths(snapshot@.states);
    let mut j: usize = 0;
    assert(targets_inspections(plan@.targets.take(0)) =~= Seq::<PathModel>::empty());
    assert(answer_paths(snapshot@.states) =~= sources_done + targets_inspections(plan@.targets.take(0)));
    while j < plan.targets.len()
        invariant
            j <= plan.targets@.len(),
            plan@.targets == targets_model(plan.targets@),
            sources_done == sources_inspections(plan@.sources),
            answer_paths(snapshot@.states) == sources_done + targets_inspections(plan@.targets.take(j as int)),
            snapshot@.estimates.len() == 0,
            snapshot@.spaces.len() == 0,
            answered_by(probe, snapshot@),
        decreases plan.targets.len() - j,
    {
        let target = &plan.targets[j];
        let ghost model = target@;
        assert(model == plan@.targets[j as int]);
        assert(plan@.targets.take(j + 1).drop_last() =~= plan@.targets.take(j as int));
        let ghost before = snapshot@;
        let answer = record_inspection(probe, &mut snapshot, &target.parent);
        proof {
            lemma_answered_after_state(probe, before, target.parent@, answer);
            lemma_answer_paths_push(before.states, (target.parent@, answer));
        }
        let ghost middle = snapshot@;
        let answer = record_inspection(probe, &mut snapshot, &target.path);
        proof {
            lemma_answered_after_state(probe, middle, target.path@, answer);
            lemma_answer_paths_push(middle.states, (target.path@, answer));
            assert(answer_paths(snapshot@.states) =~= sources_done + targets_inspections(
                plan@.targets.take(j + 1),
            ));
        }
        j += 1;
    }
    assert(plan@.targets.take(j as int) =~= plan@.targets);
    let ghost states_done = snapshot@.states;
    let mut k: usize = 0;
    while k < plan.space_requirements.len()
        invariant
            k <= plan.space_requirements@.len(),
            plan@.spaces.len() == plan.space_requirements@.len(),
            forall|m: int|
                0 <= m < plan@.spaces.len() ==> #[trigger] plan@.spaces[m] == (
                    plan.space_requirements@[m].directory@,
                    plan.space_requirements@[m].required,
                ),
            snapshot@.states == states_done,
            snapshot@.estimates.len() == 0,
            answer_paths(snapshot@.spaces) == plan@.spaces.take(k as int).map_values(
                |space: (PathModel, u64)| space.0,
            ),
            answered_by(probe, snapshot@),
        decreases plan.space_requirements.len() - k,
    {
        let directory = &plan.space_requirements[k].directory;
        assert(plan@.spaces[k as int].0 == directory@);
        let space = probe.available_space(directory);
        assert(probe_space_answer(probe, directory@, space));
        let ghost before = snapshot@;
        snapshot.record_space(directory.duplicate(), space);
        proof {
            lemma_answered_after_space(probe, before, directory@, space);
            lemma_answer_paths_push(before.spaces, (directory@, space));
            assert(plan@.spaces.take(k + 1).map_values(|space: (PathModel, u64)| space.0) =~= plan@.spaces.take(
                k as int,
            ).map_values(|space: (PathModel, u64)| space.0).push(directory@));
        }
        k += 1;
    }
    assert(plan@.spaces.take(k as int) =~= plan@.spaces);
    snapshot
}

/// Creates operation plans and revalidates them.
#[derive(Clone, Copy, Debug)]
pub struct OperationPlanner;

impl OperationPlanner {
    /// Plans `request` against a fixed set of probe answers.
    pub fn plan_with_snapshot(&self, request: OperationRequest, snapshot: &PreflightSnapshot) -> (plan:
        Result<OperationPlan, PlanValidationError>)
        ensures
            plan_result_model(plan) == plan_model(request@, snapshot@),
    {
        match request {
            OperationRequest::Copy { sources, destination_directory } => plan_transfer_exec(
                OperationKind::Copy,
                &sources,
                &destination_directory,
                snapshot,
            ),
            OperationRequest::Move { sources, destination_directory } => plan_transfer_exec(
                OperationKind::Move,
                &sources,
                &destination_directory,
                snapshot,
            ),
            OperationRequest::Rename { source, new_name } => plan_rename_exec(
                &source,
                &new_name,
                snapshot,
            ),
            OperationRequest::CreateDirectory { parent, name } => plan_create_directory_exec(
                &parent,
                &name,
                snapshot,
            ),
            OperationRequest::Trash { sources } => plan_trash_exec(&sources, snapshot),
        }
    }

    /// Checks a plan against a fixed set of probe answers.
    pub fn revalidate_with_snapshot(&self, plan: &OperationPlan, snapshot: &PreflightSnapshot) -> (check:
        Result<(), PlanValidationError>)
        ensures
            check_result_model(check) == revalidate_model(plan@, snapshot@),
    {
        match revalidate_exec(plan, snapshot) {
            Ok(()) => Ok(()),
            Err(error) => Err(PlanValidationError::new(error)),
        }
    }

    /// Plans `request`, reading the disk through `probe`. A request that
    /// fails a check of its own (no source, an invalid name) is refused
    /// before anything is asked. Otherwise the probe is asked exactly what
    /// [`request_snapshot`] lists, and the result is the plan its answers
    /// lead to.
    pub fn plan<P: PreflightProbe>(&self, request: OperationRequest, probe: &P) -> (plan: Result<
        OperationPlan,
        PlanValidationError,
    >)
        ensures
            exists|snapshot: SnapshotModel|
                plan_result_model(plan) == #[trigger] plan_model(request@, snapshot) && request_snapshot(
                    probe,
                    request@,
                    snapshot,
                ),
            request_precheck(request@) matches Some(kind) ==> plan_result_model(plan) == Err::<
                PlanModel,
                PlanValidationErrorKind,
            >(kind) && request_inspections(request@).len() == 0,
    {
        let snapshot = snapshot_for_request(&request, probe);
        proof {
            if request_precheck(request@) is Some {
                lemma_precheck_decides(request@, snapshot@);
            }
        }
        let ghost model = request@;
        let plan = self.plan_with_snapshot(request, &snapshot);
        assert(plan_result_model(plan) == plan_model(model, snapshot@));
        plan
    }

    /// Checks that nothing a plan relies on has changed, reading the disk
    /// through `probe`. The result is what the probe's answers lead to.
    pub fn revalidate<P: PreflightProbe>(&self, plan: &OperationPlan, probe: &P) -> (check: Result<
        (),
        PlanValidationError,
    >)
        ensures
            exists|snapshot: SnapshotModel|
                check_result_model(check) == #[trigger] revalidate_model(plan@, snapshot)
                    && revalidation_snapshot(probe, plan@, snapshot),
    {
        let snapshot = snapshot_for_plan(plan, probe);
        let check = self.revalidate_with_snapshot(plan, &snapshot);
        assert(check_result_model(check) == revalidate_model(plan@, snapshot@));
        check
    }
}

proof fn lemma_revalidate_sources_ignore_estimates(
    kind: OperationKind,
    left: SnapshotModel,
    right: SnapshotModel,
    sources: Seq<SourceModel>,
    count: nat,
)
    requires
        left.states == right.states,
    ensures
        revalidate_sources(kind, left, sources, count) == revalidate_sources(kind, right, sources, count),
    decreases count,
{
    if count > 0 {
        lemma_revalidate_sources_ignore_estimates(kind, left, right, sources, (count - 1) as nat);
        assert(state_at(left, sources[count - 1].path) == state_at(right, sources[count - 1].path));
    }
}

proof fn lemma_revalidate_targets_ignore_estimates(
    left: SnapshotModel,
    right: SnapshotModel,
    targets: Seq<TargetModel>,
    count: nat,
)
    requires
        left.states == right.states,
    ensures
        revalidate_targets(left, targets, count) == revalidate_targets(right, targets, count),
    decreases count,
{
    if count > 0 {
        lemma_revalidate_targets_ignore_estimates(left, right, targets, (count - 1) as nat);
    }
}

proof fn lemma_revalidate_spaces_ignore_estimates(
    left: SnapshotModel,
    right: SnapshotModel,
    spaces: Seq<(PathModel, u64)>,
    count: nat,
)
    requires
        left.spaces == right.spaces,
    ensures
        revalidate_spaces(left, spaces, count) == revalidate_spaces(right, spaces, count),
    decreases count,
{
    if count > 0 {
        lemma_revalidate_spaces_ignore_estimates(left, right, spaces, (count - 1) as nat);
    }
}

/// Revalidation reads inspections and free space, never copy sizes.
pub(crate) proof fn lemma_revalidate_ignores_estimates(plan: PlanModel, left: SnapshotModel, right: SnapshotModel)
    requires
        left.states == right.states,
        left.spaces == right.spaces,
    ensures
        revalidate_model(plan, left) == revalidate_model(plan, right),
{
    lemma_revalidate_sources_ignore_estimates(plan.kind, left, right, plan.sources, plan.sources.len());
    lemma_revalidate_targets_ignore_estimates(left, right, plan.targets, plan.targets.len());
    lemma_revalidate_spaces_ignore_estimates(left, right, plan.spaces, plan.spaces.len());
}

/// `path` still names a writable directory with the given identity.
pub open spec fn writable_directory_at(snapshot: SnapshotModel, path: PathModel, identity: FileIdentity) -> bool {
    state_at(snapshot, path) matches Ok(Some(state)) && state.identity == Some(identity)
        && state.is_writable
}

proof fn lemma_sources_prefix(
    kind: OperationKind,
    snapshot: SnapshotModel,
    left: Seq<SourceModel>,
    right: Seq<SourceModel>,
    count: nat,
)
    requires
        count <= left.len(),
        count <= right.len(),
        forall|i: int| 0 <= i < count ==> left[i] == right[i],
    ensures
        revalidate_sources(kind, snapshot, left, count) == revalidate_sources(kind, snapshot, right, count),
    decreases count,
{
    if count > 0 {
        lemma_sources_prefix(kind, snapshot, left, right, (count - 1) as nat);
        assert(left[count - 1] == right[count - 1]);
    }
}

proof fn lemma_targets_prefix(
    snapshot: SnapshotModel,
    left: Seq<TargetModel>,
    right: Seq<TargetModel>,
    count: nat,
)
    requires
        count <= left.len(),
        count <= right.len(),
        forall|i: int| 0 <= i < count ==> left[i] == right[i],
    ensures
        revalidate_targets(snapshot, left, count) == revalidate_targets(snapshot, right, count),
    decreases count,
{
    if count > 0 {
        lemma_targets_prefix(snapshot, left, right, (count - 1) as nat);
        assert(left[count - 1] == right[count - 1]);
    }
}

proof fn lemma_transfer_item_revalidates(
    kind: OperationKind,
    destination: PathModel,
    destination_identity: FileIdentity,
    snapshot: SnapshotModel,
    source: PathModel,
    source_index: usize,
    required: Option<u64>,
)
    requires
        kind == OperationKind::Copy || kind == OperationKind::Move,
        writable_directory_at(snapshot, destination, destination_identity),
        transfer_item(kind, destination, destination_identity, snapshot, source, source_index, required) is Ok,
    ensures
        ({
            let item = transfer_item(
                kind,
                destination,
                destination_identity,
                snapshot,
                source,
                source_index,
                required,
            )->Ok_0;
            &&& revalidate_source(kind, snapshot, item.0, source_index) == Ok::<(), PlanValidationErrorKind>(())
            &&& revalidate_target(snapshot, item.1, source_index) == Ok::<(), PlanValidationErrorKind>(())
        }),
{
}

proof fn lemma_transfer_items_revalidate(
    kind: OperationKind,
    destination: PathModel,
    destination_identity: FileIdentity,
    snapshot: SnapshotModel,
    sources: Seq<PathModel>,
    count: nat,
)
    requires
        count <= sources.len(),
        kind == OperationKind::Copy || kind == OperationKind::Move,
        writable_directory_at(snapshot, destination, destination_identity),
        transfer_items(kind, destination, destination_identity, snapshot, sources, count) is Ok,
    ensures
        ({
            let items = transfer_items(
                kind,
                destination,
                destination_identity,
                snapshot,
                sources,
                count,
            )->Ok_0;
            &&& items.0.len() == count
            &&& items.1.len() == count
            &&& revalidate_sources(kind, snapshot, items.0, count) == Ok::<(), PlanValidationErrorKind>(())
            &&& revalidate_targets(snapshot, items.1, count) == Ok::<(), PlanValidationErrorKind>(())
        }),
    decreases count,
{
    if count > 0 {
        let previous = (count - 1) as nat;
        lemma_transfer_items_revalidate(
            kind,
            destination,
            destination_identity,
            snapshot,
            sources,
            previous,
        );
        let done = transfer_items(kind, destination, destination_identity, snapshot, sources, previous)->Ok_0;
        lemma_transfer_item_revalidates(
            kind,
            destination,
            destination_identity,
            snapshot,
            sources[count - 1],
            previous as usize,
            done.2,
        );
        let item = transfer_item(
            kind,
            destination,
            destination_identity,
            snapshot,
            sources[count - 1],
            previous as usize,
            done.2,
        )->Ok_0;
        lemma_sources_prefix(kind, snapshot, done.0, done.0.push(item.0), previous);
        lemma_targets_prefix(snapshot, done.1, done.1.push(item.1), previous);
    }
}

proof fn lemma_trash_items_revalidate(snapshot: SnapshotModel, sources: Seq<PathModel>, count: nat)
    requires
        count <= sources.len(),
        trash_items(snapshot, sources, count) is Ok,
    ensures
        trash_items(snapshot, sources, count)->Ok_0.len() == count,
        revalidate_sources(OperationKind::Trash, snapshot, trash_items(snapshot, sources, count)->Ok_0, count)
            == Ok::<(), PlanValidationErrorKind>(()),
    decreases count,
{
    if count > 0 {
        let previous = (count - 1) as nat;
        lemma_trash_items_revalidate(snapshot, sources, previous);
        let done = trash_items(snapshot, sources, previous)->Ok_0;
        let item = trash_item(snapshot, sources[count - 1], previous as usize)->Ok_0;
        lemma_sources_prefix(OperationKind::Trash, snapshot, done, done.push(item), previous);
    }
}

proof fn lemma_space_requirement_revalidates(
    snapshot: SnapshotModel,
    directory: PathModel,
    required: Option<u64>,
)
    requires
        space_requirement(snapshot, directory, required) is Ok,
    ensures
        ({
            let spaces = space_requirement(snapshot, directory, required)->Ok_0;
            revalidate_spaces(snapshot, spaces, spaces.len()) == Ok::<(), PlanValidationErrorKind>(())
        }),
{
    let spaces = space_requirement(snapshot, directory, required)->Ok_0;
    assert(revalidate_spaces(snapshot, spaces, 0) == Ok::<(), PlanValidationErrorKind>(()));
    if spaces.len() == 1 {
        assert(revalidate_space(snapshot, spaces[0]) == Ok::<(), PlanValidationErrorKind>(()));
    }
}

/// A planned target is free in `snapshot`, or, where the plan expects an
/// existing entry, it is that very entry.
pub open spec fn target_free_or_expected(snapshot: SnapshotModel, target: TargetModel) -> bool {
    match target.expected_existing_identity {
        None => state_at(snapshot, target.path) is Ok && state_at(snapshot, target.path)->Ok_0 is None,
        Some(identity) => state_at(snapshot, target.path) matches Ok(Some(state)) && state.identity == Some(
            identity,
        ),
    }
}

proof fn lemma_transfer_targets_free(
    kind: OperationKind,
    destination: PathModel,
    destination_identity: FileIdentity,
    snapshot: SnapshotModel,
    sources: Seq<PathModel>,
    count: nat,
)
    requires
        count <= sources.len(),
        transfer_items(kind, destination, destination_identity, snapshot, sources, count) is Ok,
    ensures
        ({
            let targets = transfer_items(
                kind,
                destination,
                destination_identity,
                snapshot,
                sources,
                count,
            )->Ok_0.1;
            &&& targets.len() == count
            &&& forall|i: int|
                0 <= i < count ==> (#[trigger] targets[i]).expected_existing_identity is None
                    && target_free_or_expected(snapshot, targets[i])
        }),
    decreases count,
{
    if count > 0 {
        let previous = (count - 1) as nat;
        lemma_transfer_targets_free(kind, destination, destination_identity, snapshot, sources, previous);
        let done = transfer_items(kind, destination, destination_identity, snapshot, sources, previous)->Ok_0;
        let item = transfer_item(
            kind,
            destination,
            destination_identity,
            snapshot,
            sources[count - 1],
            previous as usize,
            done.2,
        )->Ok_0;
        let targets = done.1.push(item.1);
        assert forall|i: int| 0 <= i < count implies (#[trigger] targets[i]).expected_existing_identity is None
            && target_free_or_expected(snapshot, targets[i]) by {
            if i < previous {
                assert(targets[i] == done.1[i]);
            }
        }
    }
}

/// What planning one source of a transfer must have seen: the source exists,
/// and a directory source is not the destination or one of its ancestors.
pub open spec fn never_into_itself(snapshot: SnapshotModel, destination: PathModel, source: PathModel) -> bool {
    state_at(snapshot, source) matches Ok(Some(state)) && (state.kind == EntryKind::Directory
        ==> !starts_with_model(destination, source))
}

proof fn lemma_transfer_items_never_into_itself(
    kind: OperationKind,
    destination: PathModel,
    destination_identity: FileIdentity,
    snapshot: SnapshotModel,
    sources: Seq<PathModel>,
    count: nat,
)
    requires
        count <= sources.len(),
        transfer_items(kind, destination, destination_identity, snapshot, sources, count) is Ok,
    ensures
        forall|i: int| 0 <= i < count ==> never_into_itself(snapshot, destination, #[trigger] sources[i]),
    decreases count,
{
    if count > 0 {
        lemma_transfer_items_never_into_itself(
            kind,
            destination,
            destination_identity,
            snapshot,
            sources,
            (count - 1) as nat,
        );
    }
}

/// A folder is never copied or moved into itself: in every copy or move
/// that is planned, each source exists, and no source that is a directory
/// is the destination or an ancestor of it.
pub proof fn law_no_directory_into_itself(request: RequestModel, snapshot: SnapshotModel)
    requires
        plan_model(request, snapshot) is Ok,
    ensures
        match request {
            RequestModel::Copy { sources, destination_directory } | RequestModel::Move {
                sources,
                destination_directory,
            } => forall|i: int|
                0 <= i < sources.len() ==> (state_at(snapshot, #[trigger] sources[i]) matches Ok(Some(state))
                    && (state.kind == EntryKind::Directory ==> !starts_with_model(
                    destination_directory,
                    sources[i],
                ))),
            _ => true,
        },
{
    match request {
        RequestModel::Copy { sources, destination_directory } | RequestModel::Move {
            sources,
            destination_directory,
        } => {
            let kind = if request is Copy {
                OperationKind::Copy
            } else {
                OperationKind::Move
            };
            let destination_state = required_destination(snapshot, destination_directory)->Ok_0;
            let identity = required_identity(destination_state)->Ok_0;
            lemma_transfer_items_never_into_itself(
                kind,
                destination_directory,
                identity,
                snapshot,
                sources,
                sources.len(),
            );
            assert forall|i: int| 0 <= i < sources.len() implies (state_at(snapshot, #[trigger] sources[i]) matches Ok(
                Some(state),
            ) && (state.kind == EntryKind::Directory ==> !starts_with_model(destination_directory, sources[i]))) by {
                assert(never_into_itself(snapshot, destination_directory, sources[i]));
            }
        },
        _ => {},
    }
}

/// What planning one source of a copy or move must have seen, and what it
/// records: the source exists, is readable and has an identity, which the
/// plan keeps; a directory source is not the destination or one of its
/// ancestors; its target is its own name inside the destination, a path
/// other than the source; and a move records the source's parent as a
/// writable directory.
pub open spec fn transfer_source_checked(
    is_move: bool,
    snapshot: SnapshotModel,
    destination: PathModel,
    path: PathModel,
    source: SourceModel,
    target: TargetModel,
) -> bool {
    &&& source.path == path
    &&& match state_at(snapshot, path) {
        Ok(Some(state)) => state.is_readable && state.identity == Some(source.identity) && (state.kind
            == EntryKind::Directory ==> !starts_with_model(destination, path)),
        _ => false,
    }
    &&& match file_name_model(path) {
        Some(name) => target.path == join_model(destination, name),
        None => false,
    }
    &&& target.parent == destination
    &&& target.path != path
    &&& is_move ==> writable_parent_recorded(snapshot, path, source.parent)
}

proof fn lemma_transfer_items_checked(
    kind: OperationKind,
    destination: PathModel,
    destination_identity: FileIdentity,
    snapshot: SnapshotModel,
    sources: Seq<PathModel>,
    count: nat,
)
    requires
        count <= sources.len(),
        transfer_items(kind, destination, destination_identity, snapshot, sources, count) is Ok,
    ensures
        ({
            let items = transfer_items(kind, destination, destination_identity, snapshot, sources, count)->Ok_0;
            &&& items.0.len() == count
            &&& items.1.len() == count
            &&& forall|i: int|
                0 <= i < count ==> transfer_source_checked(
                    kind == OperationKind::Move,
                    snapshot,
                    destination,
                    sources[i],
                    #[trigger] items.0[i],
                    items.1[i],
                )
        }),
    decreases count,
{
    if count > 0 {
        lemma_transfer_items_checked(kind, destination, destination_identity, snapshot, sources, (count - 1) as nat);
        let done = transfer_items(kind, destination, destination_identity, snapshot, sources, (count - 1) as nat)->Ok_0;
        let items = transfer_items(kind, destination, destination_identity, snapshot, sources, count)->Ok_0;
        assert forall|i: int| 0 <= i < count implies transfer_source_checked(
            kind == OperationKind::Move,
            snapshot,
            destination,
            sources[i],
            #[trigger] items.0[i],
            items.1[i],
        ) by {
            if i < count - 1 {
                assert(items.0[i] == done.0[i]);
                assert(items.1[i] == done.1[i]);
            }
        }
    }
}

/// Every planned copy or move keeps one planned source and one target per
/// requested source, in order: each source exists, is readable and keeps
/// its identity; its target is its own name inside the destination and
/// never the source itself; a move records each source's parent as a
/// writable directory.
pub proof fn law_transfer_plans_check_each_source(request: RequestModel, snapshot: SnapshotModel)
    requires
        plan_model(request, snapshot) is Ok,
    ensures
        match request {
            RequestModel::Copy { sources, destination_directory } | RequestModel::Move {
                sources,
                destination_directory,
            } => {
                let plan = plan_model(request, snapshot)->Ok_0;
                &&& plan.sources.len() == sources.len()
                &&& plan.targets.len() == sources.len()
                &&& forall|i: int|
                    0 <= i < sources.len() ==> transfer_source_checked(
                        request is Move,
                        snapshot,
                        destination_directory,
                        sources[i],
                        #[trigger] plan.sources[i],
                        plan.targets[i],
                    )
            },
            _ => true,
        },
{
    match request {
        RequestModel::Copy { sources, destination_directory } | RequestModel::Move {
            sources,
            destination_directory,
        } => {
            let kind = if request is Copy {
                OperationKind::Copy
            } else {
                OperationKind::Move
            };
            let destination_state = required_destination(snapshot, destination_directory)->Ok_0;
            let identity = required_identity(destination_state)->Ok_0;
            lemma_transfer_items_checked(kind, destination_directory, identity, snapshot, sources, sources.len());
        },
        _ => {},
    }
}

/// A rename or a new directory is planned only for a valid name, as one
/// target: the name inside the parent directory. A rename keeps the source
/// with its identity and records its parent as a writable directory, and
/// never targets the source itself; a new directory's parent is a writable
/// directory with the recorded identity.
pub proof fn law_rename_and_create_plans(request: RequestModel, snapshot: SnapshotModel)
    requires
        plan_model(request, snapshot) is Ok,
    ensures
        match request {
            RequestModel::Rename { source, new_name } => {
                let plan = plan_model(request, snapshot)->Ok_0;
                &&& valid_name(new_name)
                &&& plan.sources.len() == 1
                &&& plan.targets.len() == 1
                &&& plan.sources[0].path == source
                &&& (match state_at(snapshot, source) {
                    Ok(Some(state)) => state.identity == Some(plan.sources[0].identity),
                    _ => false,
                })
                &&& writable_parent_recorded(snapshot, source, plan.sources[0].parent)
                &&& parent_model(source) is Some
                &&& plan.targets[0].path == join_model(parent_model(source)->0, name_component(new_name))
                &&& plan.targets[0].path != source
            },
            RequestModel::CreateDirectory { parent, name } => {
                let plan = plan_model(request, snapshot)->Ok_0;
                &&& valid_name(name)
                &&& plan.sources.len() == 0
                &&& plan.targets.len() == 1
                &&& plan.targets[0].path == join_model(parent, name_component(name))
                &&& plan.targets[0].parent == parent
                &&& (match state_at(snapshot, parent) {
                    Ok(Some(state)) => state.kind == EntryKind::Directory && state.is_writable && state.identity
                        == Some(plan.targets[0].parent_identity),
                    _ => false,
                })
            },
            _ => true,
        },
{
}

/// What a plan that still holds finds on disk for one source: the source
/// with the identity it was planned with, readable when it is to be read,
/// and its recorded parent, if any, with its identity and writable.
pub open spec fn source_still_holds(kind: OperationKind, snapshot: SnapshotModel, source: SourceModel) -> bool {
    &&& match state_at(snapshot, source.path) {
        Ok(Some(state)) => state.identity == Some(source.identity) && ((kind == OperationKind::Copy || kind
            == OperationKind::Move) ==> state.is_readable),
        _ => false,
    }
    &&& match source.parent {
        Some((parent, identity)) => match state_at(snapshot, parent) {
            Ok(Some(state)) => state.identity == Some(identity) && state.is_writable,
            _ => false,
        },
        None => true,
    }
}

/// What a plan that still holds finds on disk for one target: its parent
/// with its identity and writable, and at the target what the plan
/// expected there (nothing, or the entry it expected).
pub open spec fn target_still_holds(snapshot: SnapshotModel, target: TargetModel) -> bool {
    &&& match state_at(snapshot, target.parent) {
        Ok(Some(state)) => state.identity == Some(target.parent_identity) && state.is_writable,
        _ => false,
    }
    &&& match state_at(snapshot, target.path) {
        Ok(Some(state)) => state.identity == target.expected_existing_identity,
        Ok(None) => target.expected_existing_identity is None,
        Err(_) => false,
    }
}

proof fn lemma_revalidated_sources(kind: OperationKind, snapshot: SnapshotModel, sources: Seq<SourceModel>, count: nat)
    requires
        count <= sources.len(),
        revalidate_sources(kind, snapshot, sources, count) is Ok,
    ensures
        forall|i: int| 0 <= i < count ==> source_still_holds(kind, snapshot, #[trigger] sources[i]),
    decreases count,
{
    if count > 0 {
        lemma_revalidated_sources(kind, snapshot, sources, (count - 1) as nat);
    }
}

proof fn lemma_revalidated_targets(snapshot: SnapshotModel, targets: Seq<TargetModel>, count: nat)
    requires
        count <= targets.len(),
        revalidate_targets(snapshot, targets, count) is Ok,
    ensures
        forall|i: int| 0 <= i < count ==> target_still_holds(snapshot, #[trigger] targets[i]),
    decreases count,
{
    if count > 0 {
        lemma_revalidated_targets(snapshot, targets, (count - 1) as nat);
        let target = targets[count - 1];
        if let Ok(Some(state)) = state_at(snapshot, target.path) {
            assert(state.identity == target.expected_existing_identity);
        }
    }
}

proof fn lemma_revalidated_spaces(snapshot: SnapshotModel, spaces: Seq<(PathModel, u64)>, count: nat)
    requires
        count <= spaces.len(),
        revalidate_spaces(snapshot, spaces, count) is Ok,
    ensures
        forall|i: int|
            0 <= i < count ==> !(space_at(snapshot, (#[trigger] spaces[i]).0) is Err) && (space_at(snapshot, spaces[i].0)
                matches Ok(Some(available)) ==> spaces[i].1 <= available),
    decreases count,
{
    if count > 0 {
        lemma_revalidated_spaces(snapshot, spaces, (count - 1) as nat);
    }
}

/// A plan only passes revalidation when nothing it relies on has changed:
/// every source is still there with its identity (readable when it is to
/// be read) and its recorded parent still writable with its identity;
/// every target's parent is still writable with its identity and the
/// target holds what the plan expected; and every space requirement still
/// fits what the destination reports.
pub proof fn law_revalidation_checks_everything(plan: PlanModel, snapshot: SnapshotModel)
    requires
        revalidate_model(plan, snapshot) is Ok,
    ensures
        forall|i: int| 0 <= i < plan.sources.len() ==> source_still_holds(plan.kind, snapshot, #[trigger] plan.sources[i]),
        forall|i: int| 0 <= i < plan.targets.len() ==> target_still_holds(snapshot, #[trigger] plan.targets[i]),
        forall|i: int|
            0 <= i < plan.spaces.len() ==> !(space_at(snapshot, (#[trigger] plan.spaces[i]).0) is Err) && (space_at(
                snapshot,
                plan.spaces[i].0,
            ) matches Ok(Some(available)) ==> plan.spaces[i].1 <= available),
{
    lemma_revalidated_sources(plan.kind, snapshot, plan.sources, plan.sources.len());
    lemma_revalidated_targets(snapshot, plan.targets, plan.targets.len());
    lemma_revalidated_spaces(snapshot, plan.spaces, plan.spaces.len());
}

/// The bytes a transfer copies, summed without bound: the estimated size of
/// every source of a copy, and of each source of a move that changes
/// volume; nothing when one of those sizes is unknown.
pub open spec fn copied_bytes(
    is_move: bool,
    destination_volume: u64,
    snapshot: SnapshotModel,
    sources: Seq<PathModel>,
    count: nat,
) -> Option<int>
    decreases count,
{
    if count == 0 {
        Some(0)
    } else {
        let before = copied_bytes(is_move, destination_volume, snapshot, sources, (count - 1) as nat);
        let source = sources[count - 1];
        let copied = !is_move || (state_at(snapshot, source) matches Ok(Some(state)) && state.identity matches Some(
            identity,
        ) && identity.volume_id != destination_volume);
        if !copied {
            before
        } else {
            match (before, estimate_at(snapshot, source)) {
                (Some(total), Ok(Some(bytes))) => Some(total + bytes),
                _ => None,
            }
        }
    }
}

proof fn lemma_transfer_items_space(
    kind: OperationKind,
    destination: PathModel,
    destination_identity: FileIdentity,
    snapshot: SnapshotModel,
    sources: Seq<PathModel>,
    count: nat,
    total: int,
)
    requires
        count <= sources.len(),
        kind == OperationKind::Copy || kind == OperationKind::Move,
        transfer_items(kind, destination, destination_identity, snapshot, sources, count) is Ok,
        copied_bytes(kind == OperationKind::Move, destination_identity.volume_id, snapshot, sources, count) == Some(
            total,
        ),
        total <= u64::MAX,
    ensures
        0 <= total,
        transfer_items(kind, destination, destination_identity, snapshot, sources, count)->Ok_0.2 == Some(
            total as u64,
        ),
    decreases count,
{
    if count > 0 {
        let is_move = kind == OperationKind::Move;
        let before = copied_bytes(is_move, destination_identity.volume_id, snapshot, sources, (count - 1) as nat);
        let source = sources[count - 1];
        let copied = !is_move || (state_at(snapshot, source) matches Ok(Some(state)) && state.identity matches Some(
            identity,
        ) && identity.volume_id != destination_identity.volume_id);
        let previous_total: int = if copied {
            total - estimate_at(snapshot, source)->Ok_0->Some_0
        } else {
            total
        };
        assert(before == Some(previous_total));
        lemma_transfer_items_space(
            kind,
            destination,
            destination_identity,
            snapshot,
            sources,
            (count - 1) as nat,
            previous_total,
        );
    }
}

/// Space is checked for everything a transfer copies: when the sizes of
/// all the sources it copies are known and their sum fits, a planned copy
/// or move requires exactly that sum in its destination (nothing when it
/// is zero), and the destination was not reported to hold less.
pub proof fn law_space_covers_every_copied_source(request: RequestModel, snapshot: SnapshotModel, total: int)
    requires
        plan_model(request, snapshot) is Ok,
    ensures
        match request {
            RequestModel::Copy { sources, destination_directory } | RequestModel::Move {
                sources,
                destination_directory,
            } => {
                state_at(snapshot, destination_directory) matches Ok(Some(destination)) && destination.identity matches Some(
                    identity,
                ) && copied_bytes(request is Move, identity.volume_id, snapshot, sources, sources.len()) == Some(total)
                    && total <= u64::MAX ==> {
                    let plan = plan_model(request, snapshot)->Ok_0;
                    &&& total > 0 ==> plan.spaces == seq![(destination_directory, total as u64)]
                    &&& total > 0 ==> !(space_at(snapshot, destination_directory) matches Ok(Some(available))
                        && available < total)
                    &&& total == 0 ==> plan.spaces.len() == 0
                }
            },
            _ => true,
        },
{
    match request {
        RequestModel::Copy { sources, destination_directory } | RequestModel::Move {
            sources,
            destination_directory,
        } => {
            let kind = if request is Copy {
                OperationKind::Copy
            } else {
                OperationKind::Move
            };
            let destination_state = required_destination(snapshot, destination_directory)->Ok_0;
            let identity = required_identity(destination_state)->Ok_0;
            if copied_bytes(request is Move, identity.volume_id, snapshot, sources, sources.len()) == Some(total)
                && total <= u64::MAX {
                lemma_transfer_items_space(
                    kind,
                    destination_directory,
                    identity,
                    snapshot,
                    sources,
                    sources.len(),
                    total,
                );
            }
        },
        _ => {},
    }
}

/// `parent` is the recorded parent of `path`: its parent directory, which
/// the snapshot shows writable and with the recorded identity.
pub open spec fn writable_parent_recorded(
    snapshot: SnapshotModel,
    path: PathModel,
    parent: Option<(PathModel, FileIdentity)>,
) -> bool {
    match parent {
        Some((directory, identity)) => parent_model(path) == Some(directory) && match state_at(snapshot, directory) {
            Ok(Some(state)) => state.kind == EntryKind::Directory && state.identity == Some(identity)
                && state.is_writable,
            _ => false,
        },
        None => false,
    }
}

/// What planning one source of a move to the trash must have seen: the
/// source exists, and its parent is a writable directory whose identity is
/// recorded.
pub open spec fn trash_source_checked(snapshot: SnapshotModel, path: PathModel, source: SourceModel) -> bool {
    &&& source.path == path
    &&& state_at(snapshot, path) matches Ok(Some(state)) && state.identity == Some(source.identity)
    &&& writable_parent_recorded(snapshot, path, source.parent)
}

proof fn lemma_trash_items_checked(snapshot: SnapshotModel, sources: Seq<PathModel>, count: nat)
    requires
        count <= sources.len(),
        trash_items(snapshot, sources, count) is Ok,
    ensures
        trash_items(snapshot, sources, count)->Ok_0.len() == count,
        forall|i: int|
            0 <= i < count ==> trash_source_checked(
                snapshot,
                sources[i],
                #[trigger] trash_items(snapshot, sources, count)->Ok_0[i],
            ),
    decreases count,
{
    if count > 0 {
        lemma_trash_items_checked(snapshot, sources, (count - 1) as nat);
        let done = trash_items(snapshot, sources, (count - 1) as nat)->Ok_0;
        let all = trash_items(snapshot, sources, count)->Ok_0;
        assert forall|i: int| 0 <= i < count implies trash_source_checked(snapshot, sources[i], #[trigger] all[i]) by {
            if i < count - 1 {
                assert(all[i] == done[i]);
            }
        }
    }
}

/// Nothing goes to the trash from a folder that cannot be changed: every
/// source of a planned move to the trash exists with its recorded
/// identity, and records its parent, a writable directory with the
/// recorded identity, so revalidation checks that parent again.
pub proof fn law_trash_sources_have_writable_parents(request: RequestModel, snapshot: SnapshotModel)
    requires
        plan_model(request, snapshot) is Ok,
    ensures
        match request {
            RequestModel::Trash { sources } => {
                let plan = plan_model(request, snapshot)->Ok_0;
                &&& plan.sources.len() == sources.len()
                &&& forall|i: int|
                    0 <= i < sources.len() ==> {
                        &&& (#[trigger] plan.sources[i]).path == sources[i]
                        &&& writable_parent_recorded(snapshot, sources[i], plan.sources[i].parent)
                    }
            },
            _ => true,
        },
{
    if let RequestModel::Trash { sources } = request {
        lemma_trash_items_checked(snapshot, sources, sources.len());
        let plan = plan_model(request, snapshot)->Ok_0;
        assert forall|i: int| 0 <= i < sources.len() implies {
            &&& (#[trigger] plan.sources[i]).path == sources[i]
            &&& writable_parent_recorded(snapshot, sources[i], plan.sources[i].parent)
        } by {
            assert(trash_source_checked(snapshot, sources[i], plan.sources[i]));
        }
    }
}

/// No plan overwrites anything: every target of a plan is free when it is
/// planned, except the one target of a rename whose new spelling names the
/// source itself, and that target is exactly the source.
pub proof fn law_plans_never_overwrite(request: RequestModel, snapshot: SnapshotModel)
    requires
        plan_model(request, snapshot) is Ok,
    ensures
        ({
            let plan = plan_model(request, snapshot)->Ok_0;
            &&& forall|i: int|
                0 <= i < plan.targets.len() ==> target_free_or_expected(snapshot, #[trigger] plan.targets[i])
            &&& forall|i: int|
                0 <= i < plan.targets.len() && (#[trigger] plan.targets[i]).expected_existing_identity is Some
                    ==> plan.kind == OperationKind::Rename && plan.sources.len() == 1
                    && plan.targets[i].expected_existing_identity == Some(plan.sources[0].identity)
        }),
{
    match request {
        RequestModel::Copy { sources, destination_directory } => {
            let destination_state = required_destination(snapshot, destination_directory)->Ok_0;
            let identity = required_identity(destination_state)->Ok_0;
            lemma_transfer_targets_free(
                OperationKind::Copy,
                destination_directory,
                identity,
                snapshot,
                sources,
                sources.len(),
            );
        },
        RequestModel::Move { sources, destination_directory } => {
            let destination_state = required_destination(snapshot, destination_directory)->Ok_0;
            let identity = required_identity(destination_state)->Ok_0;
            lemma_transfer_targets_free(
                OperationKind::Move,
                destination_directory,
                identity,
                snapshot,
                sources,
                sources.len(),
            );
        },
        RequestModel::Rename { source, new_name } => {
            let plan = plan_model(request, snapshot)->Ok_0;
            assert(target_free_or_expected(snapshot, plan.targets[0]));
        },
        RequestModel::CreateDirectory { parent, name } => {
            let plan = plan_model(request, snapshot)->Ok_0;
            assert(target_free_or_expected(snapshot, plan.targets[0]));
        },
        RequestModel::Trash { sources } => {
            let plan = plan_model(request, snapshot)->Ok_0;
            assert(plan.targets.len() == 0);
        },
    }
}

/// A plan made from a set of probe answers passes revalidation against the
/// same answers: as long as nothing on disk changes, a plan stays valid.
pub proof fn law_plan_revalidates(request: RequestModel, snapshot: SnapshotModel)
    requires
        plan_model(request, snapshot) is Ok,
    ensures
        revalidate_model(plan_model(request, snapshot)->Ok_0, snapshot) == Ok::<(), PlanValidationErrorKind>(()),
{
    match request {
        RequestModel::Copy { sources, destination_directory } => {
            let destination_state = required_destination(snapshot, destination_directory)->Ok_0;
            let identity = required_identity(destination_state)->Ok_0;
            lemma_transfer_items_revalidate(
                OperationKind::Copy,
                destination_directory,
                identity,
                snapshot,
                sources,
                sources.len(),
            );
            let items = transfer_items(
                OperationKind::Copy,
                destination_directory,
                identity,
                snapshot,
                sources,
                sources.len(),
            )->Ok_0;
            lemma_space_requirement_revalidates(snapshot, destination_directory, items.2);
        },
        RequestModel::Move { sources, destination_directory } => {
            let destination_state = required_destination(snapshot, destination_directory)->Ok_0;
            let identity = required_identity(destination_state)->Ok_0;
            lemma_transfer_items_revalidate(
                OperationKind::Move,
                destination_directory,
                identity,
                snapshot,
                sources,
                sources.len(),
            );
            let items = transfer_items(
                OperationKind::Move,
                destination_directory,
                identity,
                snapshot,
                sources,
                sources.len(),
            )->Ok_0;
            lemma_space_requirement_revalidates(snapshot, destination_directory, items.2);
        },
        RequestModel::Rename { source, new_name } => {
            let plan = plan_model(request, snapshot)->Ok_0;
            let found = required_writable_parent(snapshot, source)->Ok_0;
            assert(writable_directory_at(snapshot, found.0, found.1));
            assert(revalidate_sources(plan.kind, snapshot, plan.sources, 0) == Ok::<(), PlanValidationErrorKind>(()));
            assert(revalidate_source(plan.kind, snapshot, plan.sources[0], 0) == Ok::<(), PlanValidationErrorKind>(()));
            assert(revalidate_sources(plan.kind, snapshot, plan.sources, 1) == Ok::<(), PlanValidationErrorKind>(()));
            assert(revalidate_targets(snapshot, plan.targets, 0) == Ok::<(), PlanValidationErrorKind>(()));
            assert(revalidate_target(snapshot, plan.targets[0], 0) == Ok::<(), PlanValidationErrorKind>(()));
            assert(revalidate_targets(snapshot, plan.targets, 1) == Ok::<(), PlanValidationErrorKind>(()));
        },
        RequestModel::CreateDirectory { parent, name } => {
            let plan = plan_model(request, snapshot)->Ok_0;
            assert(revalidate_sources(plan.kind, snapshot, plan.sources, 0) == Ok::<(), PlanValidationErrorKind>(()));
            assert(revalidate_targets(snapshot, plan.targets, 0) == Ok::<(), PlanValidationErrorKind>(()));
            assert(revalidate_target(snapshot, plan.targets[0], 0) == Ok::<(), PlanValidationErrorKind>(()));
            assert(revalidate_targets(snapshot, plan.targets, 1) == Ok::<(), PlanValidationErrorKind>(()));
        },
        RequestModel::Trash { sources } => {
            lemma_trash_items_revalidate(snapshot, sources, sources.len());
        },
    }
}

} // verus!
