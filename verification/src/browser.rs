//! The browsing service's vocabulary and decisions: requests and answers
//! that cross the IPC boundary, the sessions it keeps, and how each kind of
//! failure is reported. Reading, watching and locking stay with the caller.

use vstd::prelude::*;

use crate::entry::{EntryKind, SymlinkTarget};
use crate::error::AccessErrorKind;
use crate::id::{DirectoryReference, DirectorySessionId, EntryReference};
use crate::ipc::{DirectoryReferenceDto, EntryReferenceDto, EntrySnapshotDto};
use crate::path::{decode_lossy, parse_path, NativePath, PathModel, parent_model};
use crate::reader::{
    BatchSize, DirectoryReadError, DirectoryReadEvent, DirectoryReadOptions, SortDirection,
    SortField, SortSpec,
};
use crate::session::{resolve_model, DirectorySession, DirectorySessionModel};
use crate::watcher::{WatchError, WatchSignal};
use vstd::string::StringSliceAdditionalSpecFns;

verus! {

/// How many directory sessions the service remembers.
pub const MAX_STORED_SESSIONS: usize = 128;

/// How many entries one listing batch holds.
pub const LISTING_BATCH_SIZE: usize = 256;

#[derive(Clone, Copy, Debug, PartialEq, Eq, Structural)]
pub enum PaneIdDto {
    Left,
    Right,
}

impl PaneIdDto {
    /// The position of the pane, left first.
    pub fn index(self) -> (index: usize)
        ensures
            index == match self {
                PaneIdDto::Left => 0usize,
                PaneIdDto::Right => 1usize,
            },
    {
        match self {
            PaneIdDto::Left => 0,
            PaneIdDto::Right => 1,
        }
    }
}

#[derive(Clone, Copy, Debug, PartialEq, Eq, Structural)]
pub enum SortFieldDto {
    Name,
    Size,
    ModifiedAt,
    Kind,
}

#[derive(Clone, Copy, Debug, PartialEq, Eq, Structural)]
pub enum SortDirectionDto {
    Ascending,
    Descending,
}

#[derive(Clone, Debug, PartialEq, Eq)]
pub struct NavigateDirectoryRequestDto {
    pub pane: PaneIdDto,
    pub path: String,
    pub show_hidden: bool,
    pub sort_field: SortFieldDto,
    pub sort_direction: SortDirectionDto,
}

#[derive(Clone, Debug, PartialEq, Eq)]
pub struct NavigateChildRequestDto {
    pub pane: PaneIdDto,
    pub entry: EntryReferenceDto,
    pub show_hidden: bool,
    pub sort_field: SortFieldDto,
    pub sort_direction: SortDirectionDto,
}

#[derive(Clone, Debug, PartialEq, Eq)]
pub struct NavigateKnownRequestDto {
    pub pane: PaneIdDto,
    pub directory: DirectoryReferenceDto,
    pub show_hidden: bool,
    pub sort_field: SortFieldDto,
    pub sort_direction: SortDirectionDto,
}

#[derive(Clone, Debug, PartialEq, Eq)]
pub struct WatchDirectoryRequestDto {
    pub pane: PaneIdDto,
    pub directory: DirectoryReferenceDto,
}

#[derive(Clone, Copy, Debug, PartialEq, Eq, Structural)]
pub struct StopDirectoryWatchRequestDto {
    pub pane: PaneIdDto,
    pub watch_id: u64,
}

#[derive(Clone, Copy, Debug, PartialEq, Eq, Structural)]
pub enum DirectoryWatchReasonDto {
    Changed,
    WatchFailed,
}

#[derive(Clone, Copy, Debug, PartialEq, Eq, Structural)]
pub struct DirectoryWatchEventDto {
    pub pane: PaneIdDto,
    pub watch_id: u64,
    pub reason: DirectoryWatchReasonDto,
}

#[derive(Clone, Copy, Debug, PartialEq, Eq, Structural)]
pub enum BrowseErrorCode {
    InvalidPath,
    NotFound,
    PermissionDenied,
    NotDirectory,
    StaleReference,
    Cancelled,
    Io,
}

/// A failed navigation. It names the kind of failure only, never a path.
#[derive(Clone, Copy, Debug, PartialEq, Eq, Structural)]
pub struct BrowseErrorDto {
    pub code: BrowseErrorCode,
}

impl BrowseErrorDto {
    /// The error's description: its code, and never a path.
    pub fn message(&self) -> (text: &'static str)
        ensures
            text@ == browse_error_message(self.code),
    {
        match self.code {
            BrowseErrorCode::InvalidPath => "directory navigation failed: InvalidPath",
            BrowseErrorCode::NotFound => "directory navigation failed: NotFound",
            BrowseErrorCode::PermissionDenied => "directory navigation failed: PermissionDenied",
            BrowseErrorCode::NotDirectory => "directory navigation failed: NotDirectory",
            BrowseErrorCode::StaleReference => "directory navigation failed: StaleReference",
            BrowseErrorCode::Cancelled => "directory navigation failed: Cancelled",
            BrowseErrorCode::Io => "directory navigation failed: Io",
        }
    }
}

/// The description of a failed navigation: a fixed prefix and the code's
/// name.
pub open spec fn browse_error_message(code: BrowseErrorCode) -> Seq<char> {
    match code {
        BrowseErrorCode::InvalidPath => "directory navigation failed: InvalidPath"@,
        BrowseErrorCode::NotFound => "directory navigation failed: NotFound"@,
        BrowseErrorCode::PermissionDenied => "directory navigation failed: PermissionDenied"@,
        BrowseErrorCode::NotDirectory => "directory navigation failed: NotDirectory"@,
        BrowseErrorCode::StaleReference => "directory navigation failed: StaleReference"@,
        BrowseErrorCode::Cancelled => "directory navigation failed: Cancelled"@,
        BrowseErrorCode::Io => "directory navigation failed: Io"@,
    }
}

#[derive(Clone, Debug, PartialEq, Eq)]
pub struct DirectoryListingDto {
    pub directory: DirectoryReferenceDto,
    pub display_path: String,
    pub can_go_up: bool,
    pub entries: Vec<EntrySnapshotDto>,
    pub warnings: Vec<BrowseErrorCode>,
}

pub fn error(code: BrowseErrorCode) -> (dto: BrowseErrorDto)
    ensures
        dto.code == code,
{
    BrowseErrorDto { code }
}

pub open spec fn sort_field_of(value: SortFieldDto) -> SortField {
    match value {
        SortFieldDto::Name => SortField::Name,
        SortFieldDto::Size => SortField::Size,
        SortFieldDto::ModifiedAt => SortField::ModifiedAt,
        SortFieldDto::Kind => SortField::Kind,
    }
}

pub fn map_sort_field(value: SortFieldDto) -> (field: SortField)
    ensures
        field == sort_field_of(value),
{
    match value {
        SortFieldDto::Name => SortField::Name,
        SortFieldDto::Size => SortField::Size,
        SortFieldDto::ModifiedAt => SortField::ModifiedAt,
        SortFieldDto::Kind => SortField::Kind,
    }
}

pub open spec fn sort_direction_of(value: SortDirectionDto) -> SortDirection {
    match value {
        SortDirectionDto::Ascending => SortDirection::Ascending,
        SortDirectionDto::Descending => SortDirection::Descending,
    }
}

pub fn map_sort_direction(value: SortDirectionDto) -> (direction: SortDirection)
    ensures
        direction == sort_direction_of(value),
{
    match value {
        SortDirectionDto::Ascending => SortDirection::Ascending,
        SortDirectionDto::Descending => SortDirection::Descending,
    }
}

/// The options a listing is read with: batches of [`LISTING_BATCH_SIZE`],
/// hidden entries and order as the request asks.
pub fn read_options(show_hidden: bool, sort_field: SortFieldDto, sort_direction: SortDirectionDto) -> (options:
    DirectoryReadOptions)
    ensures
        options.batch_size@ == LISTING_BATCH_SIZE,
        options.show_hidden == show_hidden,
        options.sort == (SortSpec {
            field: sort_field_of(sort_field),
            direction: sort_direction_of(sort_direction),
        }),
{
    let batch_size = match BatchSize::new(LISTING_BATCH_SIZE) {
        Some(size) => size,
        None => {
            proof {
                assert(false);
            }
            BatchSize::new(1).unwrap()
        },
    };
    DirectoryReadOptions {
        batch_size,
        show_hidden,
        sort: SortSpec { field: map_sort_field(sort_field), direction: map_sort_direction(sort_direction) },
    }
}

pub open spec fn browse_code_of_access(kind: AccessErrorKind) -> BrowseErrorCode {
    match kind {
        AccessErrorKind::NotFound => BrowseErrorCode::NotFound,
        AccessErrorKind::PermissionDenied => BrowseErrorCode::PermissionDenied,
        AccessErrorKind::NotDirectory => BrowseErrorCode::NotDirectory,
        AccessErrorKind::InvalidPath => BrowseErrorCode::InvalidPath,
        AccessErrorKind::UnsupportedFileType | AccessErrorKind::Io => BrowseErrorCode::Io,
    }
}

pub fn map_access_error(kind: AccessErrorKind) -> (code: BrowseErrorCode)
    ensures
        code == browse_code_of_access(kind),
{
    match kind {
        AccessErrorKind::NotFound => BrowseErrorCode::NotFound,
        AccessErrorKind::PermissionDenied => BrowseErrorCode::PermissionDenied,
        AccessErrorKind::NotDirectory => BrowseErrorCode::NotDirectory,
        AccessErrorKind::InvalidPath => BrowseErrorCode::InvalidPath,
        AccessErrorKind::UnsupportedFileType | AccessErrorKind::Io => BrowseErrorCode::Io,
    }
}

pub open spec fn browse_code_of_read(error: DirectoryReadError) -> BrowseErrorCode {
    match error {
        DirectoryReadError::Access(access) => browse_code_of_access(access@.kind),
        DirectoryReadError::Cancelled => BrowseErrorCode::Cancelled,
        DirectoryReadError::InvalidModel(_) => BrowseErrorCode::InvalidPath,
        DirectoryReadError::WorkerFailed => BrowseErrorCode::Io,
    }
}

pub fn map_read_error(value: DirectoryReadError) -> (dto: BrowseErrorDto)
    ensures
        dto.code == browse_code_of_read(value),
{
    match value {
        DirectoryReadError::Access(access) => error(map_access_error(access.kind())),
        DirectoryReadError::Cancelled => error(BrowseErrorCode::Cancelled),
        DirectoryReadError::InvalidModel(_) => error(BrowseErrorCode::InvalidPath),
        DirectoryReadError::WorkerFailed => error(BrowseErrorCode::Io),
    }
}

pub open spec fn browse_code_of_watch(value: WatchError) -> BrowseErrorCode {
    match value {
        WatchError::NotFound => BrowseErrorCode::NotFound,
        WatchError::PermissionDenied => BrowseErrorCode::PermissionDenied,
        WatchError::NotDirectory => BrowseErrorCode::NotDirectory,
        WatchError::Io => BrowseErrorCode::Io,
    }
}

pub fn map_watch_error(value: WatchError) -> (dto: BrowseErrorDto)
    ensures
        dto.code == browse_code_of_watch(value),
{
    error(
        match value {
            WatchError::NotFound => BrowseErrorCode::NotFound,
            WatchError::PermissionDenied => BrowseErrorCode::PermissionDenied,
            WatchError::NotDirectory => BrowseErrorCode::NotDirectory,
            WatchError::Io => BrowseErrorCode::Io,
        },
    )
}

/// The event the interface gets for a watch signal.
pub fn watch_event(pane: PaneIdDto, watch_id: u64, signal: WatchSignal) -> (event: DirectoryWatchEventDto)
    ensures
        event == (DirectoryWatchEventDto {
            pane,
            watch_id,
            reason: match signal {
                WatchSignal::RescanRequired => DirectoryWatchReasonDto::Changed,
                WatchSignal::WatchFailed => DirectoryWatchReasonDto::WatchFailed,
            },
        }),
{
    DirectoryWatchEventDto {
        pane,
        watch_id,
        reason: match signal {
            WatchSignal::RescanRequired => DirectoryWatchReasonDto::Changed,
            WatchSignal::WatchFailed => DirectoryWatchReasonDto::WatchFailed,
        },
    }
}

/// The directory a path request opens: only an absolute path is accepted.
pub fn requested_path(path: &str) -> (root: Result<NativePath, BrowseErrorDto>)
    ensures
        match root {
            Ok(p) => p@ == parse_path(path.spec_bytes()) && p@.absolute,
            Err(e) => !parse_path(path.spec_bytes()).absolute && e.code == BrowseErrorCode::InvalidPath,
        },
{
    let native = NativePath::new(path);
    if !native.is_absolute() {
        return Err(error(BrowseErrorCode::InvalidPath));
    }
    Ok(native)
}

/// The text of a path as the interface shows it: its bytes, exactly as
/// given, rendered as text.
pub fn display_path(root: &NativePath) -> (text: String)
    ensures
        text@ == crate::path::display_model(root.native_bytes()).0,
{
    let bytes = root.to_bytes();
    let (text, _) = decode_lossy(bytes.as_slice());
    text
}

/// The sessions the service remembers, oldest first.
pub struct SessionStore {
    sessions: Vec<DirectorySession>,
}

pub open spec fn sessions_model(sessions: Seq<DirectorySession>) -> Seq<DirectorySessionModel> {
    sessions.map_values(|s: DirectorySession| s@)
}

/// The newest remembered session with identifier `id`, if any.
pub open spec fn find_session(sessions: Seq<DirectorySessionModel>, id: u64) -> Option<DirectorySessionModel>
    decreases sessions.len(),
{
    if sessions.len() == 0 {
        None
    } else if sessions.last().id@ == id {
        Some(sessions.last())
    } else {
        find_session(sessions.drop_last(), id)
    }
}

/// The sessions after remembering `session`: only the newest
/// [`MAX_STORED_SESSIONS`] stay.
pub open spec fn stored_after(sessions: Seq<DirectorySessionModel>, session: DirectorySessionModel) -> Seq<DirectorySessionModel> {
    let all = sessions.push(session);
    if all.len() > MAX_STORED_SESSIONS {
        all.skip(all.len() - MAX_STORED_SESSIONS)
    } else {
        all
    }
}

impl View for SessionStore {
    type V = Seq<DirectorySessionModel>;

    closed spec fn view(&self) -> Seq<DirectorySessionModel> {
        sessions_model(self.sessions@)
    }
}

impl SessionStore {
    /// The store never holds more than [`MAX_STORED_SESSIONS`] sessions.
    #[verifier::type_invariant]
    spec fn bounded(self) -> bool {
        self.sessions.len() <= MAX_STORED_SESSIONS
    }

    pub fn new() -> (store: Self)
        ensures
            store@ == Seq::<DirectorySessionModel>::empty(),
    {
        let store = SessionStore { sessions: Vec::new() };
        assert(store@ =~= Seq::<DirectorySessionModel>::empty());
        store
    }

    pub fn len(&self) -> (count: usize)
        ensures
            count == self@.len(),
    {
        self.sessions.len()
    }

    /// Remembers `session`, forgetting the oldest ones beyond
    /// [`MAX_STORED_SESSIONS`].
    pub fn insert(&mut self, session: DirectorySession)
        ensures
            final(self)@ == stored_after(old(self)@, session@),
            final(self)@.len() <= MAX_STORED_SESSIONS,
    {
        proof {
            use_type_invariant(&*self);
        }
        let ghost before = self@;
        let ghost added = session@;
        let mut sessions: Vec<DirectorySession> = Vec::new();
        std::mem::swap(&mut sessions, &mut self.sessions);
        assert(sessions_model(sessions@) == before);
        sessions.push(session);
        assert(sessions_model(sessions@) =~= before.push(added));
        if sessions.len() > MAX_STORED_SESSIONS {
            let excess = sessions.len() - MAX_STORED_SESSIONS;
            let kept = sessions.split_off(excess);
            assert(sessions_model(kept@) =~= before.push(added).skip(excess as int));
            self.sessions = kept;
        } else {
            self.sessions = sessions;
        }
    }

    /// The newest remembered session with identifier `id`.
    pub fn get(&self, id: DirectorySessionId) -> (found: Option<&DirectorySession>)
        ensures
            match found {
                Some(s) => find_session(self@, id@) == Some(s@),
                None => find_session(self@, id@) is None,
            },
    {
        let mut i = self.sessions.len();
        assert(self@.take(i as int) =~= self@);
        while i > 0
            invariant
                i <= self.sessions@.len(),
                find_session(self@, id@) == find_session(self@.take(i as int), id@),
            decreases i,
        {
            let ghost prefix = self@.take(i as int);
            assert(prefix.drop_last() =~= self@.take(i - 1));
            if self.sessions[i - 1].reference().session_id().get() == id.get() {
                assert(prefix.last() == self.sessions@[i - 1]@);
                return Some(&self.sessions[i - 1]);
            }
            i -= 1;
        }
        None
    }

    /// The root of the remembered session a directory capability names; a
    /// capability that does not parse or names no remembered session is
    /// stale.
    pub fn known_root(&self, reference: DirectoryReferenceDto) -> (root: Result<NativePath, BrowseErrorDto>)
        ensures
            path_result(root) == known_root_model(self@, reference.session_id@),
    {
        let ghost text = reference.session_id@;
        let parsed: Result<DirectoryReference, crate::ipc::IpcReferenceError> = DirectoryReference::try_from(
            reference,
        );
        let reference = match parsed {
            Ok(r) => r,
            Err(_) => {
                return Err(error(BrowseErrorCode::StaleReference));
            },
        };
        proof {
            crate::id::lemma_raw_reference_views(crate::ipc::identifier_model(text)->Some_0, 1);
        }
        match self.get(reference.session_id()) {
            Some(session) => Ok(session.native_root().duplicate()),
            None => Err(error(BrowseErrorCode::StaleReference)),
        }
    }

    /// The directory an entry capability opens: it must name an entry of a
    /// remembered session that is a directory or a link to one.
    pub fn child_directory(&self, entry: EntryReferenceDto) -> (path: Result<NativePath, BrowseErrorDto>)
        ensures
            path_result(path) == child_directory_model(self@, entry),
    {
        let parsed: Result<EntryReference, crate::ipc::IpcReferenceError> = EntryReference::try_from(entry);
        let reference = match parsed {
            Ok(r) => r,
            Err(_) => {
                return Err(error(BrowseErrorCode::StaleReference));
            },
        };
        proof {
            crate::id::lemma_entry_reference_from_raw(reference);
        }
        let session = match self.get(reference.session_id()) {
            Some(session) => session,
            None => {
                return Err(error(BrowseErrorCode::StaleReference));
            },
        };
        let resolved = match session.resolve(reference) {
            Ok(resolved) => resolved,
            Err(_) => {
                return Err(error(BrowseErrorCode::StaleReference));
            },
        };
        let metadata = resolved.metadata();
        let directory_like = match metadata.kind() {
            EntryKind::Directory => true,
            _ => match metadata.symlink_target() {
                Some(SymlinkTarget::Directory) => true,
                _ => false,
            },
        };
        if !directory_like {
            return Err(error(BrowseErrorCode::NotDirectory));
        }
        Ok(resolved.native_path().duplicate())
    }

    /// The parent of the directory a capability names; a root has none.
    pub fn parent_directory(&self, reference: DirectoryReferenceDto) -> (parent: Result<NativePath, BrowseErrorDto>)
        ensures
            path_result(parent) == match known_root_model(self@, reference.session_id@) {
                Err(code) => Err(code),
                Ok(root) => match parent_model(root) {
                    Some(p) => Ok(p),
                    None => Err(BrowseErrorCode::NotDirectory),
                },
            },
    {
        let root = self.known_root(reference)?;
        match root.parent() {
            Some(parent) => Ok(parent),
            None => Err(error(BrowseErrorCode::NotDirectory)),
        }
    }
}

pub open spec fn path_result(result: Result<NativePath, BrowseErrorDto>) -> Result<PathModel, BrowseErrorCode> {
    match result {
        Ok(path) => Ok(path@),
        Err(error) => Err(error.code),
    }
}

/// The root of the remembered session a directory capability names; a
/// capability that does not parse, or names no remembered session, is
/// stale.
pub open spec fn known_root_model(sessions: Seq<DirectorySessionModel>, session_id: Seq<char>) -> Result<
    PathModel,
    BrowseErrorCode,
> {
    match crate::ipc::identifier_model(session_id) {
        None => Err(BrowseErrorCode::StaleReference),
        Some(raw) => match find_session(sessions, raw) {
            Some(session) => Ok(session.root),
            None => Err(BrowseErrorCode::StaleReference),
        },
    }
}

/// The directory an entry capability opens: it must name an entry of a
/// remembered session, and that entry must be a directory or a link to
/// one.
pub open spec fn child_directory_model(sessions: Seq<DirectorySessionModel>, entry: EntryReferenceDto) -> Result<
    PathModel,
    BrowseErrorCode,
> {
    match crate::ipc::entry_reference_from_dto(entry) {
        Err(_) => Err(BrowseErrorCode::StaleReference),
        Ok(reference) => match find_session(sessions, reference@.0@) {
            None => Err(BrowseErrorCode::StaleReference),
            Some(session) => match resolve_model(session, reference@.0, reference@.1@) {
                Err(_) => Err(BrowseErrorCode::StaleReference),
                Ok(found) => if is_directory_like(found.metadata.kind, found.metadata.symlink_target) {
                    Ok(found.path)
                } else {
                    Err(BrowseErrorCode::NotDirectory)
                },
            },
        },
    }
}

/// Whether an entry of this kind can be opened as a directory.
pub open spec fn is_directory_like(kind: EntryKind, symlink_target: Option<SymlinkTarget>) -> bool {
    kind == EntryKind::Directory || symlink_target == Some(SymlinkTarget::Directory)
}

/// The store never holds more than [`MAX_STORED_SESSIONS`] sessions, and
/// the session just stored is the one its identifier finds.
pub proof fn law_store_is_bounded_and_finds_the_newest(
    sessions: Seq<DirectorySessionModel>,
    session: DirectorySessionModel,
)
    requires
        sessions.len() <= MAX_STORED_SESSIONS,
    ensures
        stored_after(sessions, session).len() <= MAX_STORED_SESSIONS,
        find_session(stored_after(sessions, session), session.id@) == Some(session),
{
    let after = stored_after(sessions, session);
    assert(after.last() == session);
}

/// Collects the events of one read into the entries and warnings of a
/// listing.
pub struct ListingCollector {
    pub entries: Vec<EntrySnapshotDto>,
    pub warnings: Vec<BrowseErrorCode>,
}

impl ListingCollector {
    pub fn new() -> (collector: Self)
        ensures
            collector.entries@.len() == 0,
            collector.warnings@.len() == 0,
    {
        ListingCollector { entries: Vec::new(), warnings: Vec::new() }
    }

    /// Takes one event; `false` once the read has completed.
    pub fn absorb(&mut self, event: &DirectoryReadEvent) -> (more: bool)
        ensures
            more == !(event is Completed),
            match event {
                DirectoryReadEvent::Batch(batch) => final(self).warnings@ == old(self).warnings@
                    && final(self).entries@.len() == old(self).entries@.len() + batch.entries@.len()
                    && final(self).entries@.take(old(self).entries@.len() as int) == old(self).entries@
                    && forall|i: int|
                    0 <= i < batch.entries@.len() ==> #[trigger] entry_snapshot_of(
                        final(self).entries@[old(self).entries@.len() + i],
                        batch.entries@[i],
                    ),
                DirectoryReadEvent::EntryError { error, .. } => final(self).entries@ == old(self).entries@
                    && final(self).warnings@ == old(self).warnings@.push(browse_code_of_access(error@.kind)),
                DirectoryReadEvent::Completed { .. } => final(self).entries@ == old(self).entries@
                    && final(self).warnings@ == old(self).warnings@,
            },
    {
        match event {
            DirectoryReadEvent::Batch(batch) => {
                let ghost start = self.entries@;
                let mut i: usize = 0;
                while i < batch.entries.len()
                    invariant
                        i <= batch.entries@.len(),
                        self.entries@.len() == start.len() + i,
                        self.entries@.take(start.len() as int) == start,
                        self.warnings@ == old(self).warnings@,
                        start == old(self).entries@,
                        forall|j: int|
                            0 <= j < i ==> #[trigger] entry_snapshot_of(
                                self.entries@[start.len() + j],
                                batch.entries@[j],
                            ),
                    decreases batch.entries.len() - i,
                {
                    let ghost before = self.entries@;
                    let snapshot = EntrySnapshotDto::from_summary(&batch.entries[i]);
                    self.entries.push(snapshot);
                    assert(self.entries@.take(start.len() as int) =~= before.take(start.len() as int));
                    assert forall|j: int| 0 <= j < i + 1 implies #[trigger] entry_snapshot_of(
                        self.entries@[start.len() + j],
                        batch.entries@[j],
                    ) by {
                        if j < i {
                            assert(self.entries@[start.len() + j] == before[start.len() + j]);
                        }
                    }
                    i += 1;
                }
                true
            },
            DirectoryReadEvent::EntryError { error, .. } => {
                self.warnings.push(map_access_error(error.kind()));
                true
            },
            DirectoryReadEvent::Completed { .. } => false,
        }
    }
}

/// `dto` is the snapshot of the listed entry `summary`.
pub open spec fn entry_snapshot_of(dto: EntrySnapshotDto, summary: crate::reader::DirectoryEntrySummary) -> bool {
    &&& dto.reference.session_id@ == crate::ipc::decimal_chars(summary@.session_id@ as nat)
    &&& dto.reference.entry_id@ == crate::ipc::decimal_chars(summary@.entry_id as nat)
    &&& dto.display_name@ == summary@.display_name
    &&& dto.display_name_is_lossy == summary@.display_name_is_lossy
    &&& crate::ipc::snapshot_matches_metadata(dto, summary@.metadata)
}

} // verus!
