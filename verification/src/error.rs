//! Path-free errors for failed file access.

use vstd::prelude::*;

use crate::id::{DirectoryReference, EntryReference};

verus! {

#[derive(Clone, Copy, Debug, PartialEq, Eq, Structural)]
pub enum AccessOperation {
    OpenDirectory,
    ReadEntry,
    ReadMetadata,
    ReadSymlink,
}

#[derive(Clone, Copy, Debug, PartialEq, Eq, Structural)]
pub enum AccessErrorKind {
    NotFound,
    PermissionDenied,
    NotDirectory,
    InvalidPath,
    UnsupportedFileType,
    Io,
}

#[derive(Clone, Copy, Debug, PartialEq, Eq, Structural)]
pub enum AccessSubject {
    Directory(DirectoryReference),
    Entry(EntryReference),
    Unresolved,
}

/// The parts of a [`FileAccessError`].
pub struct FileAccessErrorModel {
    pub operation: AccessOperation,
    pub kind: AccessErrorKind,
    pub subject: AccessSubject,
}

/// A failed access, named by operation, kind and opaque subject. It holds no
/// native path, so it may cross the IPC boundary.
#[derive(Clone, Copy, Debug, PartialEq, Eq, Structural)]
pub struct FileAccessError {
    operation: AccessOperation,
    kind: AccessErrorKind,
    subject: AccessSubject,
}

impl View for FileAccessError {
    type V = FileAccessErrorModel;

    closed spec fn view(&self) -> FileAccessErrorModel {
        FileAccessErrorModel { operation: self.operation, kind: self.kind, subject: self.subject }
    }
}

impl FileAccessError {
    pub fn new(operation: AccessOperation, kind: AccessErrorKind, subject: AccessSubject) -> (error:
        Self)
        ensures
            error@ == (FileAccessErrorModel { operation, kind, subject }),
    {
        FileAccessError { operation, kind, subject }
    }

    pub fn operation(self) -> (operation: AccessOperation)
        ensures
            operation == self@.operation,
    {
        self.operation
    }

    pub fn kind(self) -> (kind: AccessErrorKind)
        ensures
            kind == self@.kind,
    {
        self.kind
    }

    pub fn subject(self) -> (subject: AccessSubject)
        ensures
            subject == self@.subject,
    {
        self.subject
    }
}


/// The kinds of operating-system failure that the library tells apart. The
/// I/O edge maps `std::io::ErrorKind` onto these; every other kind is
/// `Other`.
#[derive(Clone, Copy, Debug, PartialEq, Eq, Structural)]
pub enum IoErrorKind {
    NotFound,
    PermissionDenied,
    AlreadyExists,
    NotADirectory,
    InvalidInput,
    InvalidData,
    Other,
}

} // verus!
