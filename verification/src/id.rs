//! Opaque, non-zero identifiers and the references built from them.

use vstd::prelude::*;

verus! {

/// Identifies one open directory session. Never zero.
#[derive(Clone, Copy, PartialEq, Eq, Structural, Hash, PartialOrd, Ord, Debug)]
pub struct DirectorySessionId(u64);

impl View for DirectorySessionId {
    type V = u64;

    closed spec fn view(&self) -> u64 {
        self.0
    }
}

impl DirectorySessionId {
    #[verifier::type_invariant]
    closed spec fn non_zero(self) -> bool {
        self.0 != 0
    }

    /// The identifier with this value; `None` for zero.
    pub fn from_raw(value: u64) -> (id: Option<Self>)
        ensures
            id is Some <==> value != 0,
            id matches Some(i) ==> i@ == value,
    {
        if value == 0 {
            None
        } else {
            Some(DirectorySessionId(value))
        }
    }

    pub fn get(self) -> (value: u64)
        ensures
            value == self@,
            value != 0,
    {
        proof {
            use_type_invariant(self);
        }
        self.0
    }

    /// Two identifiers are equal exactly when their values are.
    pub proof fn lemma_view_injective(self, other: Self)
        ensures
            (self == other) <==> (self@ == other@),
    {
    }
}

/// Identifies one entry inside a directory session. Never zero.
#[derive(Clone, Copy, PartialEq, Eq, Structural, Hash, PartialOrd, Ord, Debug)]
pub struct EntryId(u64);

impl View for EntryId {
    type V = u64;

    closed spec fn view(&self) -> u64 {
        self.0
    }
}

impl EntryId {
    #[verifier::type_invariant]
    closed spec fn non_zero(self) -> bool {
        self.0 != 0
    }

    /// The identifier with this value; `None` for zero.
    pub fn from_raw(value: u64) -> (id: Option<Self>)
        ensures
            id is Some <==> value != 0,
            id matches Some(i) ==> i@ == value,
    {
        if value == 0 {
            None
        } else {
            Some(EntryId(value))
        }
    }

    pub fn get(self) -> (value: u64)
        ensures
            value == self@,
            value != 0,
    {
        proof {
            use_type_invariant(self);
        }
        self.0
    }

    /// Two identifiers are equal exactly when their values are.
    pub proof fn lemma_view_injective(self, other: Self)
        ensures
            (self == other) <==> (self@ == other@),
    {
    }
}

/// Opaque reference to an open directory session.
#[derive(Clone, Copy, PartialEq, Eq, Structural, Hash, Debug)]
pub struct DirectoryReference {
    session_id: DirectorySessionId,
}

impl View for DirectoryReference {
    type V = DirectorySessionId;

    closed spec fn view(&self) -> DirectorySessionId {
        self.session_id
    }
}

impl DirectoryReference {
    pub fn new(session_id: DirectorySessionId) -> (reference: Self)
        ensures
            reference@ == session_id,
    {
        DirectoryReference { session_id }
    }

    pub fn session_id(self) -> (session_id: DirectorySessionId)
        ensures
            session_id == self@,
    {
        self.session_id
    }
}

/// Opaque reference to an entry owned by one directory session.
#[derive(Clone, Copy, PartialEq, Eq, Structural, Hash, Debug)]
pub struct EntryReference {
    session_id: DirectorySessionId,
    entry_id: EntryId,
}

impl View for EntryReference {
    type V = (DirectorySessionId, EntryId);

    closed spec fn view(&self) -> (DirectorySessionId, EntryId) {
        (self.session_id, self.entry_id)
    }
}

impl EntryReference {
    pub fn new(session_id: DirectorySessionId, entry_id: EntryId) -> (reference: Self)
        ensures
            reference@ == (session_id, entry_id),
    {
        EntryReference { session_id, entry_id }
    }

    pub fn session_id(self) -> (session_id: DirectorySessionId)
        ensures
            session_id == self@.0,
    {
        self.session_id
    }

    pub fn entry_id(self) -> (entry_id: EntryId)
        ensures
            entry_id == self@.1,
    {
        self.entry_id
    }
}


/// The reference to the directory session with identifier `session`.
pub closed spec fn directory_reference_from_raw(session: u64) -> DirectoryReference {
    DirectoryReference { session_id: DirectorySessionId(session) }
}

/// The reference to entry `entry` of the directory session `session`.
pub closed spec fn entry_reference_from_raw(session: u64, entry: u64) -> EntryReference {
    EntryReference { session_id: DirectorySessionId(session), entry_id: EntryId(entry) }
}

/// A directory reference is determined by the value of its identifier.
pub proof fn lemma_directory_reference_from_raw(directory: DirectoryReference)
    ensures
        directory == directory_reference_from_raw(directory@@),
{
}

/// An entry reference is determined by the values of its identifiers.
pub proof fn lemma_entry_reference_from_raw(entry: EntryReference)
    ensures
        entry == entry_reference_from_raw(entry@.0@, entry@.1@),
{
}




/// The references built from raw identifiers carry those identifiers.
pub proof fn lemma_raw_reference_views(session: u64, entry: u64)
    ensures
        directory_reference_from_raw(session)@@ == session,
        entry_reference_from_raw(session, entry)@.0@ == session,
        entry_reference_from_raw(session, entry)@.1@ == entry,
{
}

} // verus!
