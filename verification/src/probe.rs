//! Read-only probing of the disk before a file operation, and fixed sets of
//! probe answers.

use vstd::prelude::*;

use crate::entry::EntryKind;
use crate::error::IoErrorKind;
use crate::path::{NativePath, PathModel};
use crate::reader::{kind_of, RawMetadata};

verus! {

#[derive(Clone, Copy, Debug, PartialEq, Eq, Structural, Hash)]
pub struct FileIdentity {
    pub volume_id: u64,
    pub file_id: u128,
}

#[derive(Clone, Copy, Debug, PartialEq, Eq, Structural)]
pub struct PathPreflightState {
    pub identity: Option<FileIdentity>,
    pub kind: EntryKind,
    pub byte_len: u64,
    pub is_readable: bool,
    pub is_writable: bool,
}

#[derive(Clone, Copy, Debug, PartialEq, Eq, Structural)]
pub enum ProbeError {
    PermissionDenied,
    InvalidPath,
    Io,
}

/// Read-only facts required to create or revalidate an operation plan. There
/// is deliberately no method that changes the disk.
pub trait PreflightProbe {
    fn inspect(&self, path: &NativePath) -> Result<Option<PathPreflightState>, ProbeError>;

    /// The bytes a copy of `path` needs. Unless a probe knows better, the
    /// length that inspecting `path` reports.
    fn estimated_copy_bytes(&self, path: &NativePath) -> (answer: Result<Option<u64>, ProbeError>)
        default_ensures
            exists|inspected: StateAnswer|
                #[trigger] call_ensures(Self::inspect, (self, path), inspected) && answer == inspected_size(
                    inspected,
                ),
    {
        let inspected = self.inspect(path);
        match inspected {
            Ok(Some(state)) => Ok(Some(state.byte_len)),
            Ok(None) => Ok(None),
            Err(error) => Err(error),
        }
    }

    /// The space available in `directory`. Unless a probe knows better,
    /// unknown.
    fn available_space(&self, directory: &NativePath) -> (answer: Result<Option<u64>, ProbeError>)
        default_ensures
            answer == Ok::<Option<u64>, ProbeError>(None),
    {
        Ok(None)
    }
}

/// The size an inspection reports: the length of what exists, nothing
/// where nothing exists, and the inspection's failure.
pub open spec fn inspected_size(answer: Result<Option<PathPreflightState>, ProbeError>) -> Result<
    Option<u64>,
    ProbeError,
> {
    match answer {
        Ok(Some(state)) => Ok(Some(state.byte_len)),
        Ok(None) => Ok(None),
        Err(error) => Err(error),
    }
}

pub type StateAnswer = Result<Option<PathPreflightState>, ProbeError>;

pub type SizeAnswer = Result<Option<u64>, ProbeError>;

/// What a probe answered, path by path; a later answer for the same path
/// replaces an earlier one.
pub struct SnapshotModel {
    pub states: Seq<(PathModel, StateAnswer)>,
    pub estimates: Seq<(PathModel, SizeAnswer)>,
    pub spaces: Seq<(PathModel, SizeAnswer)>,
}

/// `answer` is one that inspecting a path named `path` through `probe` can
/// give.
pub open spec fn probe_state_answer<P: PreflightProbe>(probe: &P, path: PathModel, answer: StateAnswer) -> bool {
    exists|asked: &NativePath| asked@ == path && #[trigger] call_ensures(P::inspect, (probe, asked), answer)
}

/// `answer` is one that asking `probe` for the copy size of a path named
/// `path` can give.
pub open spec fn probe_estimate_answer<P: PreflightProbe>(probe: &P, path: PathModel, answer: SizeAnswer) -> bool {
    exists|asked: &NativePath|
        asked@ == path && #[trigger] call_ensures(P::estimated_copy_bytes, (probe, asked), answer)
}

/// `answer` is one that asking `probe` for the space in a directory named
/// `directory` can give.
pub open spec fn probe_space_answer<P: PreflightProbe>(probe: &P, directory: PathModel, answer: SizeAnswer) -> bool {
    exists|asked: &NativePath| asked@ == directory && #[trigger] call_ensures(P::available_space, (probe, asked), answer)
}

/// Every answer `snapshot` records is one `probe` gave for that path.
pub open spec fn answered_by<P: PreflightProbe>(probe: &P, snapshot: SnapshotModel) -> bool {
    &&& forall|i: int|
        0 <= i < snapshot.states.len() ==> probe_state_answer(
            probe,
            (#[trigger] snapshot.states[i]).0,
            snapshot.states[i].1,
        )
    &&& forall|i: int|
        0 <= i < snapshot.estimates.len() ==> probe_estimate_answer(
            probe,
            (#[trigger] snapshot.estimates[i]).0,
            snapshot.estimates[i].1,
        )
    &&& forall|i: int|
        0 <= i < snapshot.spaces.len() ==> probe_space_answer(
            probe,
            (#[trigger] snapshot.spaces[i]).0,
            snapshot.spaces[i].1,
        )
}

/// The paths answers were recorded for, in order.
pub open spec fn answer_paths<A>(answers: Seq<(PathModel, A)>) -> Seq<PathModel> {
    Seq::new(answers.len(), |i: int| answers[i].0)
}

pub(crate) proof fn lemma_answer_paths_push<A>(answers: Seq<(PathModel, A)>, answer: (PathModel, A))
    ensures
        answer_paths(answers.push(answer)) == answer_paths(answers).push(answer.0),
{
    assert(answer_paths(answers.push(answer)) =~= answer_paths(answers).push(answer.0));
}

/// Recording an inspection the probe gave keeps a snapshot answered by it.
pub(crate) proof fn lemma_answered_after_state<P: PreflightProbe>(
    probe: &P,
    before: SnapshotModel,
    path: PathModel,
    answer: StateAnswer,
)
    requires
        answered_by(probe, before),
        probe_state_answer(probe, path, answer),
    ensures
        answered_by(probe, SnapshotModel { states: before.states.push((path, answer)), ..before }),
{
    let after = SnapshotModel { states: before.states.push((path, answer)), ..before };
    assert forall|i: int| 0 <= i < after.states.len() implies probe_state_answer(
        probe,
        (#[trigger] after.states[i]).0,
        after.states[i].1,
    ) by {
        if i < before.states.len() {
            assert(after.states[i] == before.states[i]);
        }
    }
}

/// Recording a size the probe gave keeps a snapshot answered by it.
pub(crate) proof fn lemma_answered_after_estimate<P: PreflightProbe>(
    probe: &P,
    before: SnapshotModel,
    path: PathModel,
    answer: SizeAnswer,
)
    requires
        answered_by(probe, before),
        probe_estimate_answer(probe, path, answer),
    ensures
        answered_by(probe, SnapshotModel { estimates: before.estimates.push((path, answer)), ..before }),
{
    let after = SnapshotModel { estimates: before.estimates.push((path, answer)), ..before };
    assert forall|i: int| 0 <= i < after.estimates.len() implies probe_estimate_answer(
        probe,
        (#[trigger] after.estimates[i]).0,
        after.estimates[i].1,
    ) by {
        if i < before.estimates.len() {
            assert(after.estimates[i] == before.estimates[i]);
        }
    }
}

/// Recording a free space the probe gave keeps a snapshot answered by it.
pub(crate) proof fn lemma_answered_after_space<P: PreflightProbe>(
    probe: &P,
    before: SnapshotModel,
    directory: PathModel,
    answer: SizeAnswer,
)
    requires
        answered_by(probe, before),
        probe_space_answer(probe, directory, answer),
    ensures
        answered_by(probe, SnapshotModel { spaces: before.spaces.push((directory, answer)), ..before }),
{
    let after = SnapshotModel { spaces: before.spaces.push((directory, answer)), ..before };
    assert forall|i: int| 0 <= i < after.spaces.len() implies probe_space_answer(
        probe,
        (#[trigger] after.spaces[i]).0,
        after.spaces[i].1,
    ) by {
        if i < before.spaces.len() {
            assert(after.spaces[i] == before.spaces[i]);
        }
    }
}

/// The last answer recorded for `path`, or `default` when there is none.
pub open spec fn latest_answer<A>(answers: Seq<(PathModel, A)>, path: PathModel, default: A) -> A
    decreases answers.len(),
{
    if answers.len() == 0 {
        default
    } else if answers.last().0 == path {
        answers.last().1
    } else {
        latest_answer(answers.drop_last(), path, default)
    }
}

/// What inspecting `path` gives: nothing is there unless recorded.
pub open spec fn state_at(snapshot: SnapshotModel, path: PathModel) -> StateAnswer {
    latest_answer(snapshot.states, path, Ok(None))
}

/// The size a copy of `path` needs; unless recorded, the length it was
/// inspected with.
pub open spec fn estimate_at(snapshot: SnapshotModel, path: PathModel) -> SizeAnswer {
    let inspected = match state_at(snapshot, path) {
        Ok(Some(state)) => Ok(Some(state.byte_len)),
        Ok(None) => Ok(None),
        Err(error) => Err(error),
    };
    latest_answer(snapshot.estimates, path, inspected)
}

/// The space available in `directory`; unknown unless recorded.
pub open spec fn space_at(snapshot: SnapshotModel, directory: PathModel) -> SizeAnswer {
    latest_answer(snapshot.spaces, directory, Ok(None))
}

/// A fixed set of probe answers. Planning against it is a function of the
/// answers alone.
pub struct PreflightSnapshot {
    states: Vec<(NativePath, StateAnswer)>,
    estimates: Vec<(NativePath, SizeAnswer)>,
    spaces: Vec<(NativePath, SizeAnswer)>,
}

pub open spec fn answers_model<A>(answers: Seq<(NativePath, A)>) -> Seq<(PathModel, A)> {
    Seq::new(answers.len(), |i: int| (answers[i].0@, answers[i].1))
}

impl View for PreflightSnapshot {
    type V = SnapshotModel;

    closed spec fn view(&self) -> SnapshotModel {
        SnapshotModel {
            states: answers_model(self.states@),
            estimates: answers_model(self.estimates@),
            spaces: answers_model(self.spaces@),
        }
    }
}

fn find_latest<A: Copy>(answers: &Vec<(NativePath, A)>, path: &NativePath, default: A) -> (answer: A)
    ensures
        answer == latest_answer(answers_model(answers@), path@, default),
{
    let mut i = answers.len();
    assert(answers_model(answers@).take(i as int) =~= answers_model(answers@));
    while i > 0
        invariant
            i <= answers@.len(),
            latest_answer(answers_model(answers@), path@, default) == latest_answer(
                answers_model(answers@).take(i as int),
                path@,
                default,
            ),
        decreases i,
    {
        let ghost prefix = answers_model(answers@).take(i as int);
        assert(prefix.drop_last() =~= answers_model(answers@).take(i - 1));
        if answers[i - 1].0.same_path(path) {
            return answers[i - 1].1;
        }
        i -= 1;
    }
    assert(answers_model(answers@).take(0) =~= Seq::<(PathModel, A)>::empty());
    default
}

fn push_answer<A>(answers: &mut Vec<(NativePath, A)>, path: NativePath, answer: A)
    ensures
        answers_model(final(answers)@) == answers_model(old(answers)@).push((path@, answer)),
{
    answers.push((path, answer));
    assert(answers_model(answers@) =~= answers_model(old(answers)@).push((path@, answer)));
}

impl PreflightSnapshot {
    /// A snapshot in which nothing exists and nothing is measured.
    pub fn new() -> (snapshot: Self)
        ensures
            snapshot@.states.len() == 0,
            snapshot@.estimates.len() == 0,
            snapshot@.spaces.len() == 0,
    {
        let snapshot = PreflightSnapshot {
            states: Vec::new(),
            estimates: Vec::new(),
            spaces: Vec::new(),
        };
        assert(snapshot@.states =~= seq![]);
        assert(snapshot@.estimates =~= seq![]);
        assert(snapshot@.spaces =~= seq![]);
        snapshot
    }

    /// Records what inspecting `path` gives.
    pub fn record_state(&mut self, path: NativePath, answer: StateAnswer)
        ensures
            final(self)@ == (SnapshotModel {
                states: old(self)@.states.push((path@, answer)),
                ..old(self)@
            }),
    {
        push_answer(&mut self.states, path, answer);
    }

    /// Records that `path` exists in `state`.
    pub fn insert_state(&mut self, path: NativePath, state: PathPreflightState)
        ensures
            final(self)@ == (SnapshotModel {
                states: old(self)@.states.push((path@, Ok(Some(state)))),
                ..old(self)@
            }),
    {
        self.record_state(path, Ok(Some(state)));
    }

    /// Records the size a copy of `path` needs.
    pub fn record_estimate(&mut self, path: NativePath, answer: SizeAnswer)
        ensures
            final(self)@ == (SnapshotModel {
                estimates: old(self)@.estimates.push((path@, answer)),
                ..old(self)@
            }),
    {
        push_answer(&mut self.estimates, path, answer);
    }

    /// Records the space available in `directory`.
    pub fn record_space(&mut self, directory: NativePath, answer: SizeAnswer)
        ensures
            final(self)@ == (SnapshotModel {
                spaces: old(self)@.spaces.push((directory@, answer)),
                ..old(self)@
            }),
    {
        push_answer(&mut self.spaces, directory, answer);
    }

    pub fn state_of(&self, path: &NativePath) -> (answer: StateAnswer)
        ensures
            answer == state_at(self@, path@),
    {
        find_latest(&self.states, path, Ok(None))
    }

    pub fn estimate_of(&self, path: &NativePath) -> (answer: SizeAnswer)
        ensures
            answer == estimate_at(self@, path@),
    {
        let inspected = match self.state_of(path) {
            Ok(Some(state)) => Ok(Some(state.byte_len)),
            Ok(None) => Ok(None),
            Err(error) => Err(error),
        };
        find_latest(&self.estimates, path, inspected)
    }

    pub fn space_of(&self, directory: &NativePath) -> (answer: SizeAnswer)
        ensures
            answer == space_at(self@, directory@),
    {
        find_latest(&self.spaces, directory, Ok(None))
    }
}

impl PreflightProbe for PreflightSnapshot {
    fn inspect(&self, path: &NativePath) -> (answer: StateAnswer)
        ensures
            answer == state_at(self@, path@),
    {
        self.state_of(path)
    }

    fn estimated_copy_bytes(&self, path: &NativePath) -> (answer: SizeAnswer)
        ensures
            answer == estimate_at(self@, path@),
    {
        self.estimate_of(path)
    }

    fn available_space(&self, directory: &NativePath) -> (answer: SizeAnswer)
        ensures
            answer == space_at(self@, directory@),
    {
        self.space_of(directory)
    }
}


/// How a failure of the operating system is reported by a probe.
pub open spec fn probe_io_error(kind: IoErrorKind) -> ProbeError {
    match kind {
        IoErrorKind::PermissionDenied => ProbeError::PermissionDenied,
        IoErrorKind::InvalidData | IoErrorKind::InvalidInput => ProbeError::InvalidPath,
        _ => ProbeError::Io,
    }
}

impl ProbeError {
    /// A short description that names no path.
    pub fn message(&self) -> (text: &'static str)
        ensures
            text@ == match *self {
                ProbeError::PermissionDenied => "permission denied during preflight"@,
                ProbeError::InvalidPath => "invalid path during preflight"@,
                ProbeError::Io => "I/O error during preflight"@,
            },
    {
        match self {
            ProbeError::PermissionDenied => "permission denied during preflight",
            ProbeError::InvalidPath => "invalid path during preflight",
            ProbeError::Io => "I/O error during preflight",
        }
    }

    /// How a failure of the operating system is reported by a probe.
    pub fn from_io_error(kind: IoErrorKind) -> (error: Self)
        ensures
            error == probe_io_error(kind),
    {
        match kind {
            IoErrorKind::PermissionDenied => ProbeError::PermissionDenied,
            IoErrorKind::InvalidData | IoErrorKind::InvalidInput => ProbeError::InvalidPath,
            _ => ProbeError::Io,
        }
    }
}

/// Whether anyone may read and write an entry with these Unix permission
/// bits: a directory counts as readable when any read or search bit is set.
pub open spec fn permission_model(mode: u32, is_directory: bool) -> (bool, bool) {
    let readable_mask: u32 = if is_directory {
        0o555
    } else {
        0o444
    };
    ((mode & readable_mask) != 0, (mode & 0o222) != 0)
}

pub fn permission_bits(mode: u32, is_directory: bool) -> (access: (bool, bool))
    ensures
        access == permission_model(mode, is_directory),
{
    let readable_mask: u32 = if is_directory {
        0o555
    } else {
        0o444
    };
    ((mode & readable_mask) != 0, (mode & 0o222) != 0)
}

/// The state a probe reports for an entry, from what the operating system
/// said about it without following links.
pub fn preflight_state(raw: RawMetadata, identity: Option<FileIdentity>, mode: u32) -> (state: PathPreflightState)
    ensures
        state == (PathPreflightState {
            identity,
            kind: kind_of(raw),
            byte_len: raw.byte_len,
            is_readable: permission_model(mode, raw.is_dir).0,
            is_writable: permission_model(mode, raw.is_dir).1,
        }),
{
    let kind = if raw.is_symlink {
        EntryKind::Symlink
    } else if raw.is_dir {
        EntryKind::Directory
    } else if raw.is_file {
        EntryKind::File
    } else {
        EntryKind::Other
    };
    let (is_readable, is_writable) = permission_bits(mode, raw.is_dir);
    PathPreflightState { identity, kind, byte_len: raw.byte_len, is_readable, is_writable }
}

/// Adds the length of one more file to the bytes a copy needs; a total that
/// does not fit is an error.
pub fn add_copy_bytes(total: u64, byte_len: u64) -> (sum: Result<u64, ProbeError>)
    ensures
        total + byte_len <= u64::MAX ==> sum == Ok::<u64, ProbeError>((total + byte_len) as u64),
        total + byte_len > u64::MAX ==> sum == Err::<u64, ProbeError>(ProbeError::Io),
{
    match total.checked_add(byte_len) {
        Some(sum) => Ok(sum),
        None => Err(ProbeError::Io),
    }
}

} // verus!
