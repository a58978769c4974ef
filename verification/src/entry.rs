//! Entries of a directory and their metadata.

use vstd::prelude::*;

use crate::id::EntryId;
use crate::path::{DisplayName, NativePath, PathModel};

verus! {

#[derive(Clone, Copy, Debug, PartialEq, Eq, Structural)]
pub enum EntryKind {
    File,
    Directory,
    Symlink,
    Other,
}

#[derive(Clone, Copy, Debug, PartialEq, Eq, Structural)]
pub enum SymlinkTarget {
    File,
    Directory,
    Other,
    Missing,
    Unknown,
}

/// The metadata of an entry, field by field. A modification time counts
/// nanoseconds from the Unix epoch, negative before it.
pub struct EntryMetadataModel {
    pub kind: EntryKind,
    pub byte_len: Option<u64>,
    pub modified_at: Option<i128>,
    pub is_hidden: bool,
    pub is_read_only: bool,
    pub symlink_target: Option<SymlinkTarget>,
}

#[derive(Clone, Copy, Debug, PartialEq, Eq)]
pub struct EntryMetadata {
    kind: EntryKind,
    byte_len: Option<u64>,
    modified_at: Option<i128>,
    is_hidden: bool,
    is_read_only: bool,
    symlink_target: Option<SymlinkTarget>,
}

impl View for EntryMetadata {
    type V = EntryMetadataModel;

    closed spec fn view(&self) -> EntryMetadataModel {
        EntryMetadataModel {
            kind: self.kind,
            byte_len: self.byte_len,
            modified_at: self.modified_at,
            is_hidden: self.is_hidden,
            is_read_only: self.is_read_only,
            symlink_target: self.symlink_target,
        }
    }
}

impl EntryMetadata {
    /// Metadata of the given kind with nothing else known.
    pub fn new(kind: EntryKind) -> (metadata: Self)
        ensures
            metadata@ == (EntryMetadataModel {
                kind,
                byte_len: None,
                modified_at: None,
                is_hidden: false,
                is_read_only: false,
                symlink_target: None,
            }),
    {
        EntryMetadata {
            kind,
            byte_len: None,
            modified_at: None,
            is_hidden: false,
            is_read_only: false,
            symlink_target: None,
        }
    }

    pub fn with_byte_len(self, byte_len: u64) -> (metadata: Self)
        ensures
            metadata@ == (EntryMetadataModel { byte_len: Some(byte_len), ..self@ }),
    {
        EntryMetadata { byte_len: Some(byte_len), ..self }
    }

    /// Sets the modification time, in nanoseconds from the Unix epoch.
    pub fn with_modified_at(self, modified_at: i128) -> (metadata: Self)
        ensures
            metadata@ == (EntryMetadataModel { modified_at: Some(modified_at), ..self@ }),
    {
        EntryMetadata { modified_at: Some(modified_at), ..self }
    }

    pub fn with_hidden(self, is_hidden: bool) -> (metadata: Self)
        ensures
            metadata@ == (EntryMetadataModel { is_hidden, ..self@ }),
    {
        EntryMetadata { is_hidden, ..self }
    }

    pub fn with_read_only(self, is_read_only: bool) -> (metadata: Self)
        ensures
            metadata@ == (EntryMetadataModel { is_read_only, ..self@ }),
    {
        EntryMetadata { is_read_only, ..self }
    }

    pub fn with_symlink_target(self, target: SymlinkTarget) -> (metadata: Self)
        ensures
            metadata@ == (EntryMetadataModel { symlink_target: Some(target), ..self@ }),
    {
        EntryMetadata { symlink_target: Some(target), ..self }
    }

    pub fn kind(&self) -> (kind: EntryKind)
        ensures
            kind == self@.kind,
    {
        self.kind
    }

    pub fn byte_len(&self) -> (byte_len: Option<u64>)
        ensures
            byte_len == self@.byte_len,
    {
        self.byte_len
    }

    /// The modification time in nanoseconds from the Unix epoch, if known.
    pub fn modified_at(&self) -> (modified_at: Option<i128>)
        ensures
            modified_at == self@.modified_at,
    {
        self.modified_at
    }

    pub fn is_hidden(&self) -> (is_hidden: bool)
        ensures
            is_hidden == self@.is_hidden,
    {
        self.is_hidden
    }

    pub fn is_read_only(&self) -> (is_read_only: bool)
        ensures
            is_read_only == self@.is_read_only,
    {
        self.is_read_only
    }

    pub fn symlink_target(&self) -> (target: Option<SymlinkTarget>)
        ensures
            target == self@.symlink_target,
    {
        self.symlink_target
    }
}

/// One registered entry, field by field.
pub struct FileEntryModel {
    pub id: u64,
    pub path: PathModel,
    pub display_name: Seq<char>,
    pub display_name_is_lossy: bool,
    pub metadata: EntryMetadataModel,
}

/// One entry registered inside a directory session.
pub struct FileEntry {
    id: EntryId,
    native_path: NativePath,
    display_name: DisplayName,
    metadata: EntryMetadata,
}

impl View for FileEntry {
    type V = FileEntryModel;

    closed spec fn view(&self) -> FileEntryModel {
        FileEntryModel {
            id: self.id@,
            path: self.native_path@,
            display_name: self.display_name@.0,
            display_name_is_lossy: self.display_name@.1,
            metadata: self.metadata@,
        }
    }
}

impl FileEntry {
    pub(crate) fn new(
        id: EntryId,
        native_path: NativePath,
        display_name: DisplayName,
        metadata: EntryMetadata,
    ) -> (entry: Self)
        ensures
            entry@ == (FileEntryModel {
                id: id@,
                path: native_path@,
                display_name: display_name@.0,
                display_name_is_lossy: display_name@.1,
                metadata: metadata@,
            }),
    {
        FileEntry { id, native_path, display_name, metadata }
    }

    pub fn id(&self) -> (id: EntryId)
        ensures
            id@ == self@.id,
    {
        self.id
    }

    pub fn native_path(&self) -> (path: &NativePath)
        ensures
            path@ == self@.path,
    {
        &self.native_path
    }

    pub fn display_name(&self) -> (name: &DisplayName)
        ensures
            name@ == (self@.display_name, self@.display_name_is_lossy),
    {
        &self.display_name
    }

    pub fn metadata(&self) -> (metadata: &EntryMetadata)
        ensures
            metadata@ == self@.metadata,
    {
        &self.metadata
    }
}

} // verus!
