//! The server-owned mapping from opaque references to native paths.

use vstd::prelude::*;

use crate::entry::{EntryMetadata, EntryMetadataModel, FileEntry, FileEntryModel};
use crate::id::{DirectoryReference, DirectorySessionId, EntryId, EntryReference};
use crate::path::{
    display_model, file_name_model, parent_model, DisplayName, NativePath, PathModel,
};

verus! {

#[derive(Clone, Copy, Debug, PartialEq, Eq, Structural)]
pub enum SessionModelError {
    RootMustBeAbsolute,
    EntryMustBeDirectChild,
    EntryHasNoFileName,
    DuplicateEntry,
    EntryIdSpaceExhausted,
}

impl SessionModelError {
    /// A short description that names no path.
    pub fn message(&self) -> (text: &'static str)
        ensures
            text@ == match *self {
                SessionModelError::RootMustBeAbsolute => "directory session root must be absolute"@,
                SessionModelError::EntryMustBeDirectChild => "entry must be a direct child of the session root"@,
                SessionModelError::EntryHasNoFileName => "entry path has no file name"@,
                SessionModelError::DuplicateEntry => "entry is already registered in this session"@,
                SessionModelError::EntryIdSpaceExhausted => "directory session entry id space is exhausted"@,
            },
    {
        match self {
            SessionModelError::RootMustBeAbsolute => "directory session root must be absolute",
            SessionModelError::EntryMustBeDirectChild => "entry must be a direct child of the session root",
            SessionModelError::EntryHasNoFileName => "entry path has no file name",
            SessionModelError::DuplicateEntry => "entry is already registered in this session",
            SessionModelError::EntryIdSpaceExhausted => "directory session entry id space is exhausted",
        }
    }
}

#[derive(Clone, Copy, Debug, PartialEq, Eq, Structural)]
pub enum ResolveReferenceError {
    ForeignSession,
    UnknownEntry,
}

impl ResolveReferenceError {
    /// A short description that names no path.
    pub fn message(&self) -> (text: &'static str)
        ensures
            text@ == match *self {
                ResolveReferenceError::ForeignSession => "entry reference belongs to another directory session"@,
                ResolveReferenceError::UnknownEntry => "entry reference is not registered in this directory session"@,
            },
    {
        match self {
            ResolveReferenceError::ForeignSession => "entry reference belongs to another directory session",
            ResolveReferenceError::UnknownEntry => "entry reference is not registered in this directory session",
        }
    }
}

/// A directory session: its identifier, its root and its entries, where the
/// entry at index `i` has identifier `i + 1`.
pub struct DirectorySessionModel {
    pub id: DirectorySessionId,
    pub root: PathModel,
    pub entries: Seq<FileEntryModel>,
}

/// Whether `path` is already registered in the session.
pub open spec fn registers_path(session: DirectorySessionModel, path: PathModel) -> bool {
    exists|i: int| 0 <= i < session.entries.len() && #[trigger] session.entries[i].path == path
}

/// What registering `path` leads to: the first rule it breaks, or success.
pub open spec fn register_outcome(session: DirectorySessionModel, path: PathModel) -> Result<
    (),
    SessionModelError,
> {
    if parent_model(path) != Some(session.root) {
        Err(SessionModelError::EntryMustBeDirectChild)
    } else if registers_path(session, path) {
        Err(SessionModelError::DuplicateEntry)
    } else if file_name_model(path) is None {
        Err(SessionModelError::EntryHasNoFileName)
    } else if session.entries.len() + 1 >= u64::MAX {
        Err(SessionModelError::EntryIdSpaceExhausted)
    } else {
        Ok(())
    }
}

/// The entry that registering `path` with `metadata` adds.
pub open spec fn new_entry_model(
    session: DirectorySessionModel,
    path: PathModel,
    metadata: EntryMetadataModel,
) -> FileEntryModel {
    let name = display_model(file_name_model(path)->0);
    FileEntryModel {
        id: (session.entries.len() + 1) as u64,
        path,
        display_name: name.0,
        display_name_is_lossy: name.1,
        metadata,
    }
}

/// The session after a successful registration.
pub open spec fn registered_model(
    session: DirectorySessionModel,
    path: PathModel,
    metadata: EntryMetadataModel,
) -> DirectorySessionModel {
    DirectorySessionModel {
        entries: session.entries.push(new_entry_model(session, path, metadata)),
        ..session
    }
}

/// What a reference resolves to in a session.
pub open spec fn resolve_model(
    session: DirectorySessionModel,
    session_id: DirectorySessionId,
    entry_id: u64,
) -> Result<FileEntryModel, ResolveReferenceError> {
    if session_id != session.id {
        Err(ResolveReferenceError::ForeignSession)
    } else if 1 <= entry_id <= session.entries.len() {
        Ok(session.entries[entry_id - 1])
    } else {
        Err(ResolveReferenceError::UnknownEntry)
    }
}

/// Entry `i` carries identifier `i + 1`, and the identifiers have not run out.
pub open spec fn session_well_formed(session: DirectorySessionModel) -> bool {
    &&& session.root.absolute
    &&& session.entries.len() < u64::MAX
    &&& forall|i: int| 0 <= i < session.entries.len() ==> #[trigger] session.entries[i].id == i + 1
}

/// Server-owned mapping from opaque references to native paths. It is never
/// serialised: IPC consumers can only hand references back, and the
/// application resolves them through this session.
pub struct DirectorySession {
    id: DirectorySessionId,
    root: NativePath,
    entries: Vec<FileEntry>,
}

impl View for DirectorySession {
    type V = DirectorySessionModel;

    closed spec fn view(&self) -> DirectorySessionModel {
        DirectorySessionModel {
            id: self.id,
            root: self.root@,
            entries: Seq::new(self.entries@.len(), |i: int| self.entries@[i]@),
        }
    }
}

impl DirectorySession {
    #[verifier::type_invariant]
    closed spec fn well_formed(self) -> bool {
        session_well_formed(self@)
    }

    /// An empty session rooted at an absolute path.
    pub fn new(id: DirectorySessionId, root: NativePath) -> (session: Result<
        Self,
        SessionModelError,
    >)
        ensures
            session is Err <==> !root@.absolute,
            session matches Err(e) ==> e == SessionModelError::RootMustBeAbsolute,
            session matches Ok(s) ==> s@ == (DirectorySessionModel {
                id,
                root: root@,
                entries: seq![],
            }),
    {
        if !root.is_absolute() {
            return Err(SessionModelError::RootMustBeAbsolute);
        }
        let session = DirectorySession { id, root, entries: Vec::new() };
        assert(session@.entries =~= seq![]);
        Ok(session)
    }

    pub fn reference(&self) -> (reference: DirectoryReference)
        ensures
            reference@ == self@.id,
    {
        DirectoryReference::new(self.id)
    }

    pub fn native_root(&self) -> (root: &NativePath)
        ensures
            root@ == self@.root,
    {
        &self.root
    }

    pub fn len(&self) -> (count: usize)
        ensures
            count == self@.entries.len(),
    {
        self.entries.len()
    }

    pub fn is_empty(&self) -> (empty: bool)
        ensures
            empty == (self@.entries.len() == 0),
    {
        self.entries.len() == 0
    }

    /// Registers a direct child of the root and hands out its reference. On
    /// failure the session is unchanged.
    pub fn register_entry(&mut self, native_path: NativePath, metadata: EntryMetadata) -> (result:
        Result<EntryReference, SessionModelError>)
        ensures
            match result {
                Ok(reference) => {
                    &&& register_outcome(old(self)@, native_path@) is Ok
                    &&& reference@.0 == old(self)@.id
                    &&& reference@.1@ == old(self)@.entries.len() + 1
                    &&& final(self)@ == registered_model(old(self)@, native_path@, metadata@)
                },
                Err(error) => {
                    &&& register_outcome(old(self)@, native_path@) == Err::<(), _>(error)
                    &&& final(self)@ == old(self)@
                },
            },
    {
        proof {
            use_type_invariant(&*self);
        }
        let parent = native_path.parent();
        let is_child = match &parent {
            Some(p) => p.same_path(&self.root),
            None => false,
        };
        if !is_child {
            return Err(SessionModelError::EntryMustBeDirectChild);
        }
        assert(parent_model(native_path@) == Some(self@.root));
        let mut i: usize = 0;
        while i < self.entries.len()
            invariant
                i <= self@.entries.len(),
                self@ == old(self)@,
                parent_model(native_path@) == Some(self@.root),
                self@.entries.len() == self.entries@.len(),
                forall|j: int| 0 <= j < i ==> self@.entries[j].path != native_path@,
            decreases self.entries.len() - i,
        {
            if self.entries[i].native_path().same_path(&native_path) {
                assert(self@.entries[i as int].path == native_path@);
                assert(registers_path(self@, native_path@));
                return Err(SessionModelError::DuplicateEntry);
            }
            i += 1;
        }
        let file_name = match native_path.file_name() {
            Some(name) => name,
            None => {
                return Err(SessionModelError::EntryHasNoFileName);
            },
        };
        let count = self.entries.len();
        if count as u64 >= u64::MAX - 1 {
            return Err(SessionModelError::EntryIdSpaceExhausted);
        }
        let entry_id = match EntryId::from_raw(count as u64 + 1) {
            Some(id) => id,
            None => {
                return Err(SessionModelError::EntryIdSpaceExhausted);
            },
        };
        let display_name = DisplayName::from_bytes(file_name.as_slice());
        let entry = FileEntry::new(entry_id, native_path, display_name, metadata);
        let ghost previous = self@;
        let mut entries: Vec<FileEntry> = Vec::new();
        std::mem::swap(&mut entries, &mut self.entries);
        entries.push(entry);
        proof {
            let model = Seq::new(entries@.len(), |k: int| entries@[k]@);
            assert(model =~= previous.entries.push(new_entry_model(previous, native_path@, metadata@)));
            assert forall|k: int| 0 <= k < model.len() implies #[trigger] model[k].id == k + 1 by {
                if k < previous.entries.len() {
                    assert(model[k] == previous.entries[k]);
                }
            }
        }
        self.entries = entries;
        assert(self@.entries =~= previous.entries.push(
            new_entry_model(previous, native_path@, metadata@),
        ));
        Ok(EntryReference::new(self.id, entry_id))
    }

    /// The entry a reference names, if it belongs to this session.
    pub fn resolve(&self, reference: EntryReference) -> (entry: Result<
        &FileEntry,
        ResolveReferenceError,
    >)
        ensures
            match entry {
                Ok(e) => resolve_model(self@, reference@.0, reference@.1@) == Ok::<_, ResolveReferenceError>(e@),
                Err(error) => resolve_model(self@, reference@.0, reference@.1@) == Err::<FileEntryModel, _>(error),
            },
    {
        if reference.session_id() != self.id {
            return Err(ResolveReferenceError::ForeignSession);
        }
        let raw = reference.entry_id().get();
        if raw as usize <= self.entries.len() && raw as usize >= 1 && raw <= self.entries.len() as u64 {
            Ok(&self.entries[raw as usize - 1])
        } else {
            Err(ResolveReferenceError::UnknownEntry)
        }
    }
}

/// Registering an entry makes its new reference resolve to exactly that
/// entry, and leaves every earlier reference resolving as it did before.
pub proof fn law_resolve_after_register(
    session: DirectorySessionModel,
    path: PathModel,
    metadata: EntryMetadataModel,
    session_id: DirectorySessionId,
    entry_id: u64,
)
    requires
        session_well_formed(session),
        register_outcome(session, path) is Ok,
    ensures
        resolve_model(registered_model(session, path, metadata), session.id, (session.entries.len() + 1) as u64)
            == Ok::<_, ResolveReferenceError>(new_entry_model(session, path, metadata)),
        entry_id != session.entries.len() + 1 ==> resolve_model(
            registered_model(session, path, metadata),
            session_id,
            entry_id,
        ) == resolve_model(session, session_id, entry_id),
        session_well_formed(registered_model(session, path, metadata)),
{
    let after = registered_model(session, path, metadata);
    assert(after.entries.len() == session.entries.len() + 1);
    if 1 <= entry_id <= session.entries.len() {
        assert(after.entries[entry_id - 1] == session.entries[entry_id - 1]);
    }
    assert forall|i: int| 0 <= i < after.entries.len() implies #[trigger] after.entries[i].id == i + 1 by {
        if i < session.entries.len() {
            assert(after.entries[i] == session.entries[i]);
        }
    }
}

/// The session after trying to register each of `attempts`, in turn; a
/// failed attempt leaves it unchanged.
pub open spec fn register_each(
    session: DirectorySessionModel,
    attempts: Seq<(PathModel, EntryMetadataModel)>,
) -> DirectorySessionModel
    decreases attempts.len(),
{
    if attempts.len() == 0 {
        session
    } else {
        let before = register_each(session, attempts.drop_last());
        if register_outcome(before, attempts.last().0) is Ok {
            registered_model(before, attempts.last().0, attempts.last().1)
        } else {
            before
        }
    }
}

/// How many of `attempts` succeed when tried in turn.
pub open spec fn successful_registrations(
    session: DirectorySessionModel,
    attempts: Seq<(PathModel, EntryMetadataModel)>,
) -> nat
    decreases attempts.len(),
{
    if attempts.len() == 0 {
        0
    } else {
        let before = register_each(session, attempts.drop_last());
        successful_registrations(session, attempts.drop_last()) + if register_outcome(
            before,
            attempts.last().0,
        ) is Ok {
            1nat
        } else {
            0nat
        }
    }
}

/// Over any run of registrations, the session's length counts the ones that
/// succeeded: each success adds exactly one entry after the earlier ones, a
/// failure adds none, and every entry keeps an identifier of its own.
pub proof fn law_length_counts_registrations(
    session: DirectorySessionModel,
    attempts: Seq<(PathModel, EntryMetadataModel)>,
)
    requires
        session_well_formed(session),
    ensures
        register_each(session, attempts).entries.len() == session.entries.len() + successful_registrations(
            session,
            attempts,
        ),
        register_each(session, attempts).entries.take(session.entries.len() as int) == session.entries,
        session_well_formed(register_each(session, attempts)),
        forall|i: int, j: int|
            0 <= i < j < register_each(session, attempts).entries.len() ==> (#[trigger] register_each(
                session,
                attempts,
            ).entries[i]).id != (#[trigger] register_each(session, attempts).entries[j]).id,
    decreases attempts.len(),
{
    if attempts.len() > 0 {
        law_length_counts_registrations(session, attempts.drop_last());
        let before = register_each(session, attempts.drop_last());
        if register_outcome(before, attempts.last().0) is Ok {
            law_resolve_after_register(before, attempts.last().0, attempts.last().1, before.id, 0);
            let after = registered_model(before, attempts.last().0, attempts.last().1);
            assert(after.entries.take(session.entries.len() as int) =~= before.entries.take(
                session.entries.len() as int,
            ));
        }
    }
    let after = register_each(session, attempts);
    assert forall|i: int, j: int| 0 <= i < j < after.entries.len() implies (#[trigger] after.entries[i]).id
        != (#[trigger] after.entries[j]).id by {
        assert(after.entries[i].id == i + 1);
        assert(after.entries[j].id == j + 1);
    }
}

/// A reference resolves only to the entry registered under its identifier,
/// and never through a session other than its own.
pub proof fn law_resolution_is_faithful(
    session: DirectorySessionModel,
    session_id: DirectorySessionId,
    entry_id: u64,
)
    requires
        session_well_formed(session),
    ensures
        session_id != session.id ==> resolve_model(session, session_id, entry_id)
            == Err::<FileEntryModel, _>(ResolveReferenceError::ForeignSession),
        resolve_model(session, session_id, entry_id) matches Ok(entry) ==> {
            &&& entry.id == entry_id
            &&& session.entries.contains(entry)
        },
{
    if let Ok(entry) = resolve_model(session, session_id, entry_id) {
        assert(session.entries[entry_id - 1] == entry);
    }
}

} // verus!
