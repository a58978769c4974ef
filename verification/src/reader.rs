//! Reading a directory: which entries are listed, in what order, and how
//! they reach the interface in batches.
//!
//! Enumerating the directory and reading metadata is I/O and stays with the
//! caller. The caller hands each entry it found to this module as a
//! [`PendingEntry`], sorts them with [`sort_pending`], and feeds them one by
//! one to a [`DirectoryListing`], which registers them in a directory
//! session and says which events to send.

use vstd::prelude::*;

use crate::entry::{EntryKind, EntryMetadata, EntryMetadataModel, SymlinkTarget};
use crate::error::{
    AccessErrorKind, AccessOperation, AccessSubject, FileAccessError, FileAccessErrorModel,
    IoErrorKind,
};
use crate::id::{DirectoryReference, DirectorySessionId, EntryReference};
use crate::path::{NativePath, PathModel};
use crate::session::{
    new_entry_model, register_outcome, registered_model, DirectorySession, DirectorySessionModel,
    SessionModelError,
};

verus! {

broadcast use vstd::seq_lib::group_to_multiset_ensures;

/// Identifies one read request. Never zero.
#[derive(Clone, Copy, Debug, PartialEq, Eq, Structural, Hash)]
pub struct ReadRequestId(u64);

impl View for ReadRequestId {
    type V = u64;

    closed spec fn view(&self) -> u64 {
        self.0
    }
}

impl ReadRequestId {
    #[verifier::type_invariant]
    closed spec fn non_zero(self) -> bool {
        self.0 != 0
    }

    /// The identifier with this value; `None` for zero.
    pub fn from_raw(value: u64) -> (id: Option<Self>)
        ensures
            id is Some <==> value != 0,
            id matches Some(i) ==> i@ == value,
    {
        if value == 0 {
            None
        } else {
            Some(ReadRequestId(value))
        }
    }

    pub fn get(self) -> (value: u64)
        ensures
            value == self@,
            value != 0,
    {
        proof {
            use_type_invariant(self);
        }
        self.0
    }
}

#[derive(Clone, Copy, Debug, PartialEq, Eq, Structural)]
pub enum SortField {
    Name,
    Size,
    ModifiedAt,
    Kind,
}

#[derive(Clone, Copy, Debug, PartialEq, Eq, Structural)]
pub enum SortDirection {
    Ascending,
    Descending,
}

#[derive(Clone, Copy, Debug, PartialEq, Eq, Structural)]
pub struct SortSpec {
    pub field: SortField,
    pub direction: SortDirection,
}

impl Default for SortSpec {
    /// By name, ascending.
    fn default() -> (sort: Self)
        ensures
            sort == (SortSpec { field: SortField::Name, direction: SortDirection::Ascending }),
    {
        SortSpec { field: SortField::Name, direction: SortDirection::Ascending }
    }
}

/// How many entries one batch holds. Never zero.
#[derive(Clone, Copy, Debug, PartialEq, Eq, Structural)]
pub struct BatchSize(usize);

impl View for BatchSize {
    type V = usize;

    closed spec fn view(&self) -> usize {
        self.0
    }
}

impl BatchSize {
    #[verifier::type_invariant]
    closed spec fn non_zero(self) -> bool {
        self.0 != 0
    }

    /// The batch size with this value; `None` for zero.
    pub fn new(value: usize) -> (size: Option<Self>)
        ensures
            size is Some <==> value != 0,
            size matches Some(s) ==> s@ == value,
    {
        if value == 0 {
            None
        } else {
            Some(BatchSize(value))
        }
    }

    pub fn get(self) -> (value: usize)
        ensures
            value == self@,
            value != 0,
    {
        proof {
            use_type_invariant(self);
        }
        self.0
    }
}

#[derive(Clone, Copy, Debug, PartialEq, Eq, Structural)]
pub struct DirectoryReadOptions {
    pub batch_size: BatchSize,
    pub show_hidden: bool,
    pub sort: SortSpec,
}

impl Default for DirectoryReadOptions {
    /// Batches of 256, hidden entries left out, sorted by name.
    fn default() -> (options: Self)
        ensures
            options.batch_size@ == 256,
            !options.show_hidden,
            options.sort == (SortSpec { field: SortField::Name, direction: SortDirection::Ascending }),
    {
        DirectoryReadOptions {
            batch_size: BatchSize(256),
            show_hidden: false,
            sort: SortSpec { field: SortField::Name, direction: SortDirection::Ascending },
        }
    }
}

/// How a failure of the operating system is reported for an entry.
pub open spec fn access_error_kind(kind: IoErrorKind) -> AccessErrorKind {
    match kind {
        IoErrorKind::NotFound => AccessErrorKind::NotFound,
        IoErrorKind::PermissionDenied => AccessErrorKind::PermissionDenied,
        IoErrorKind::NotADirectory => AccessErrorKind::NotDirectory,
        IoErrorKind::InvalidInput | IoErrorKind::InvalidData => AccessErrorKind::InvalidPath,
        _ => AccessErrorKind::Io,
    }
}

/// How a failure of the operating system is reported for an entry.
pub fn map_io_error_kind(kind: IoErrorKind) -> (mapped: AccessErrorKind)
    ensures
        mapped == access_error_kind(kind),
{
    match kind {
        IoErrorKind::NotFound => AccessErrorKind::NotFound,
        IoErrorKind::PermissionDenied => AccessErrorKind::PermissionDenied,
        IoErrorKind::NotADirectory => AccessErrorKind::NotDirectory,
        IoErrorKind::InvalidInput | IoErrorKind::InvalidData => AccessErrorKind::InvalidPath,
        _ => AccessErrorKind::Io,
    }
}

/// A name is hidden when it starts with a dot. (A name whose first bytes are
/// not valid UTF-8 does not render with a leading dot either.)
pub open spec fn hidden_name(name: Seq<u8>) -> bool {
    name.len() > 0 && name[0] == 0x2e
}

pub fn is_hidden_name(name: &[u8]) -> (hidden: bool)
    ensures
        hidden == hidden_name(name@),
{
    name.len() > 0 && name[0] == 0x2e
}

/// Whether an entry with this name is listed under `options`.
pub fn is_listed(name: &[u8], options: &DirectoryReadOptions) -> (listed: bool)
    ensures
        listed == (options.show_hidden || !hidden_name(name@)),
{
    options.show_hidden || !is_hidden_name(name)
}

/// What a link points to, given what following it gave: a file, a
/// directory or something else when it resolved, missing when nothing is
/// there, unknown on any other failure.
pub open spec fn symlink_target_model(followed: Result<(bool, bool), IoErrorKind>) -> SymlinkTarget {
    match followed {
        Ok((is_file, is_dir)) => if is_file {
            SymlinkTarget::File
        } else if is_dir {
            SymlinkTarget::Directory
        } else {
            SymlinkTarget::Other
        },
        Err(IoErrorKind::NotFound) => SymlinkTarget::Missing,
        Err(_) => SymlinkTarget::Unknown,
    }
}

/// What a link points to; `followed` holds whether the followed entry is a
/// file and whether it is a directory, or why it could not be followed.
pub fn symlink_target_from(followed: Result<(bool, bool), IoErrorKind>) -> (target: SymlinkTarget)
    ensures
        target == symlink_target_model(followed),
{
    match followed {
        Ok((is_file, is_dir)) => if is_file {
            SymlinkTarget::File
        } else if is_dir {
            SymlinkTarget::Directory
        } else {
            SymlinkTarget::Other
        },
        Err(IoErrorKind::NotFound) => SymlinkTarget::Missing,
        Err(_) => SymlinkTarget::Unknown,
    }
}

/// The file-type flags and attributes of an entry, as the operating system
/// reported them without following links.
#[derive(Clone, Copy, Debug, PartialEq, Eq, Structural)]
pub struct RawMetadata {
    pub is_symlink: bool,
    pub is_dir: bool,
    pub is_file: bool,
    pub byte_len: u64,
    pub is_read_only: bool,
    pub modified_at: Option<i128>,
}

pub open spec fn kind_of(raw: RawMetadata) -> EntryKind {
    if raw.is_symlink {
        EntryKind::Symlink
    } else if raw.is_dir {
        EntryKind::Directory
    } else if raw.is_file {
        EntryKind::File
    } else {
        EntryKind::Other
    }
}

pub open spec fn metadata_model(raw: RawMetadata, symlink_target: Option<SymlinkTarget>, is_hidden: bool) -> EntryMetadataModel {
    EntryMetadataModel {
        kind: kind_of(raw),
        byte_len: Some(raw.byte_len),
        modified_at: raw.modified_at,
        is_hidden,
        is_read_only: raw.is_read_only,
        symlink_target: symlink_target,
    }
}

/// The metadata of an entry from what the operating system reported.
pub fn metadata_from(raw: RawMetadata, symlink_target: Option<SymlinkTarget>, is_hidden: bool) -> (metadata:
    EntryMetadata)
    ensures
        metadata@ == metadata_model(raw, symlink_target, is_hidden),
{
    let kind = if raw.is_symlink {
        EntryKind::Symlink
    } else if raw.is_dir {
        EntryKind::Directory
    } else if raw.is_file {
        EntryKind::File
    } else {
        EntryKind::Other
    };
    let mut result = EntryMetadata::new(kind).with_byte_len(raw.byte_len).with_hidden(
        is_hidden,
    ).with_read_only(raw.is_read_only);
    if let Some(modified_at) = raw.modified_at {
        result = result.with_modified_at(modified_at);
    }
    if let Some(target) = symlink_target {
        result = result.with_symlink_target(target);
    }
    result
}

/// An entry found in the directory, before it is registered.
pub struct PendingEntry {
    pub path: NativePath,
    pub sort_name: Vec<u8>,
    pub metadata: EntryMetadata,
    pub access_error: Option<AccessErrorKind>,
}

pub struct PendingModel {
    pub path: PathModel,
    pub name: Seq<u8>,
    pub metadata: EntryMetadataModel,
    pub access_error: Option<AccessErrorKind>,
}

impl View for PendingEntry {
    type V = PendingModel;

    open spec fn view(&self) -> PendingModel {
        PendingModel {
            path: self.path@,
            name: self.sort_name@,
            metadata: self.metadata@,
            access_error: self.access_error,
        }
    }
}

/// The entry that reading the metadata of `path` (named `name`) gives: an
/// entry that vanished meanwhile is skipped; one whose metadata cannot be
/// read is still listed, as an entry of another kind with the error noted.
pub open spec fn pending_model(
    path: PathModel,
    name: Seq<u8>,
    metadata: Result<EntryMetadataModel, IoErrorKind>,
) -> Option<PendingModel> {
    match metadata {
        Ok(metadata) => Some(PendingModel { path, name, metadata, access_error: None }),
        Err(IoErrorKind::NotFound) => None,
        Err(kind) => Some(
            PendingModel {
                path,
                name,
                metadata: EntryMetadataModel {
                    kind: EntryKind::Other,
                    byte_len: None,
                    modified_at: None,
                    is_hidden: false,
                    is_read_only: false,
                    symlink_target: None,
                },
                access_error: Some(access_error_kind(kind)),
            },
        ),
    }
}

impl PendingEntry {
    /// The entry that reading the metadata of `path` gave.
    pub fn from_metadata(path: NativePath, name: Vec<u8>, metadata: Result<EntryMetadata, IoErrorKind>) -> (entry:
        Option<Self>)
        ensures
            match entry {
                Some(e) => pending_model(
                    path@,
                    name@,
                    match metadata {
                        Ok(m) => Ok(m@),
                        Err(k) => Err(k),
                    },
                ) == Some(e@),
                None => pending_model(
                    path@,
                    name@,
                    match metadata {
                        Ok(m) => Ok(m@),
                        Err(k) => Err(k),
                    },
                ) is None,
            },
    {
        match metadata {
            Ok(metadata) => Some(PendingEntry { path, sort_name: name, metadata, access_error: None }),
            Err(IoErrorKind::NotFound) => None,
            Err(kind) => Some(
                PendingEntry {
                    path,
                    sort_name: name,
                    metadata: EntryMetadata::new(EntryKind::Other),
                    access_error: Some(map_io_error_kind(kind)),
                },
            ),
        }
    }
}

/// Byte-wise lexicographic order, the order of native names.
pub open spec fn bytes_before(a: Seq<u8>, b: Seq<u8>) -> bool
    decreases a.len(),
{
    if b.len() == 0 {
        false
    } else if a.len() == 0 {
        true
    } else if a[0] != b[0] {
        a[0] < b[0]
    } else {
        bytes_before(a.drop_first(), b.drop_first())
    }
}

/// Byte-wise order is a strict order: irreflexive, asymmetric, transitive.
pub proof fn lemma_bytes_before_order(a: Seq<u8>, b: Seq<u8>, c: Seq<u8>)
    ensures
        bytes_before(a, b) ==> !bytes_before(b, a),
        bytes_before(a, b) && bytes_before(b, c) ==> bytes_before(a, c),
        !bytes_before(a, a),
{
    lemma_bytes_before_strict(a, b, c);
}

proof fn lemma_bytes_before_strict(a: Seq<u8>, b: Seq<u8>, c: Seq<u8>)
    ensures
        bytes_before(a, b) ==> !bytes_before(b, a),
        bytes_before(a, b) && bytes_before(b, c) ==> bytes_before(a, c),
        !bytes_before(a, a),
    decreases a.len(),
{
    if a.len() > 0 && b.len() > 0 && c.len() > 0 {
        lemma_bytes_before_strict(a.drop_first(), b.drop_first(), c.drop_first());
    }
    if a.len() > 0 {
        lemma_bytes_before_strict(a.drop_first(), a.drop_first(), a.drop_first());
    }
    if a.len() > 0 && b.len() > 0 {
        lemma_bytes_before_strict(a.drop_first(), b.drop_first(), a.drop_first());
    }
}

/// The rank of a kind when sorting by kind: directories first.
pub open spec fn kind_rank(kind: EntryKind) -> int {
    match kind {
        EntryKind::Directory => 0,
        EntryKind::File => 1,
        EntryKind::Symlink => 2,
        EntryKind::Other => 3,
    }
}

/// The value an entry is sorted by for `field`, before its name breaks
/// ties; an unknown size or time sorts first.
pub open spec fn sort_key(metadata: EntryMetadataModel, field: SortField) -> int {
    match field {
        SortField::Name => 0,
        SortField::Size => match metadata.byte_len {
            Some(len) => len as int,
            None => -1,
        },
        SortField::ModifiedAt => match metadata.modified_at {
            Some(time) => time as int,
            None => i128::MIN - 1,
        },
        SortField::Kind => kind_rank(metadata.kind),
    }
}

/// Ascending order: by key, then by name.
pub open spec fn ascending_before(left: PendingModel, right: PendingModel, field: SortField) -> bool {
    sort_key(left.metadata, field) < sort_key(right.metadata, field) || (sort_key(left.metadata, field)
        == sort_key(right.metadata, field) && bytes_before(left.name, right.name))
}

/// Whether `left` is listed before `right` under `sort`.
pub open spec fn listed_before(left: PendingModel, right: PendingModel, sort: SortSpec) -> bool {
    match sort.direction {
        SortDirection::Ascending => ascending_before(left, right, sort.field),
        SortDirection::Descending => ascending_before(right, left, sort.field),
    }
}

proof fn lemma_listed_before_strict(a: PendingModel, b: PendingModel, c: PendingModel, sort: SortSpec)
    ensures
        listed_before(a, b, sort) ==> !listed_before(b, a, sort),
        listed_before(a, b, sort) && listed_before(b, c, sort) ==> listed_before(a, c, sort),
{
    lemma_bytes_before_strict(a.name, b.name, c.name);
    lemma_bytes_before_strict(b.name, a.name, c.name);
    lemma_bytes_before_strict(c.name, b.name, a.name);
}

/// No entry is listed after one it should come before.
pub open spec fn in_listing_order(entries: Seq<PendingModel>, sort: SortSpec) -> bool {
    forall|i: int, j: int|
        0 <= i < j < entries.len() ==> !listed_before(#[trigger] entries[j], #[trigger] entries[i], sort)
}

/// `first` may come before `second` by modification time: an unknown time
/// comes before every known one, and known times never go back.
pub open spec fn time_not_after(first: Option<i128>, second: Option<i128>) -> bool {
    match (first, second) {
        (Some(a), Some(b)) => a <= b,
        (Some(_), None) => false,
        (None, _) => true,
    }
}

/// `first` may come before `second` by size: an unknown size comes before
/// every known one, and known sizes never shrink.
pub open spec fn size_not_after(first: Option<u64>, second: Option<u64>) -> bool {
    match (first, second) {
        (Some(a), Some(b)) => a <= b,
        (Some(_), None) => false,
        (None, _) => true,
    }
}

/// `first` may come before `second` by kind: directories, then files, then
/// links, then everything else.
pub open spec fn kind_not_after(first: EntryKind, second: EntryKind) -> bool {
    &&& second == EntryKind::Directory ==> first == EntryKind::Directory
    &&& second == EntryKind::File ==> first == EntryKind::Directory || first == EntryKind::File
    &&& second == EntryKind::Symlink ==> first != EntryKind::Other
}

/// A listing follows its sort field: sorted by modification time, size or
/// kind, every entry comes no later by that field than the entries after
/// it (earlier first when ascending, later first when descending), and
/// equal keys, or a sort by name, fall back to the byte order of the
/// names.
pub proof fn law_listing_follows_the_sort_field(
    entries: Seq<PendingModel>,
    direction: SortDirection,
    i: int,
    j: int,
)
    requires
        0 <= i < j < entries.len(),
    ensures
        ({
            let first = if direction == SortDirection::Ascending {
                entries[i]
            } else {
                entries[j]
            };
            let second = if direction == SortDirection::Ascending {
                entries[j]
            } else {
                entries[i]
            };
            &&& in_listing_order(entries, SortSpec { field: SortField::ModifiedAt, direction }) ==> time_not_after(
                first.metadata.modified_at,
                second.metadata.modified_at,
            )
            &&& in_listing_order(entries, SortSpec { field: SortField::Size, direction }) ==> size_not_after(
                first.metadata.byte_len,
                second.metadata.byte_len,
            )
            &&& in_listing_order(entries, SortSpec { field: SortField::Kind, direction }) ==> kind_not_after(
                first.metadata.kind,
                second.metadata.kind,
            )
            &&& in_listing_order(entries, SortSpec { field: SortField::Name, direction }) ==> !bytes_before(
                second.name,
                first.name,
            )
        }),
{
    assert(entries[i] == entries[i]);
    assert(entries[j] == entries[j]);
}

pub open spec fn pending_models(entries: Seq<PendingEntry>) -> Seq<PendingModel> {
    entries.map_values(|e: PendingEntry| e@)
}

fn bytes_before_exec(a: &[u8], b: &[u8]) -> (before: bool)
    ensures
        before == bytes_before(a@, b@),
{
    let mut i: usize = 0;
    assert(a@.skip(0) =~= a@ && b@.skip(0) =~= b@);
    while i < a.len() && i < b.len()
        invariant
            i <= a@.len() && i <= b@.len(),
            bytes_before(a@, b@) == bytes_before(a@.skip(i as int), b@.skip(i as int)),
        decreases a.len() - i,
    {
        if a[i] != b[i] {
            return a[i] < b[i];
        }
        assert(a@.skip(i as int).drop_first() =~= a@.skip(i + 1));
        assert(b@.skip(i as int).drop_first() =~= b@.skip(i + 1));
        i += 1;
    }
    i < b.len()
}

fn key_order(left: &EntryMetadata, right: &EntryMetadata, field: SortField) -> (order: i8)
    ensures
        order == -1 <==> sort_key(left@, field) < sort_key(right@, field),
        order == 0 <==> sort_key(left@, field) == sort_key(right@, field),
        order == 1 <==> sort_key(left@, field) > sort_key(right@, field),
{
    match field {
        SortField::Name => 0,
        SortField::Size => match (left.byte_len(), right.byte_len()) {
            (None, None) => 0,
            (None, Some(_)) => -1,
            (Some(_), None) => 1,
            (Some(l), Some(r)) => if l < r {
                -1
            } else if l == r {
                0
            } else {
                1
            },
        },
        SortField::ModifiedAt => match (left.modified_at(), right.modified_at()) {
            (None, None) => 0,
            (None, Some(_)) => -1,
            (Some(_), None) => 1,
            (Some(l), Some(r)) => if l < r {
                -1
            } else if l == r {
                0
            } else {
                1
            },
        },
        SortField::Kind => {
            let l = rank_of(left.kind());
            let r = rank_of(right.kind());
            if l < r {
                -1
            } else if l == r {
                0
            } else {
                1
            }
        },
    }
}

fn rank_of(kind: EntryKind) -> (rank: u8)
    ensures
        rank == kind_rank(kind),
{
    match kind {
        EntryKind::Directory => 0,
        EntryKind::File => 1,
        EntryKind::Symlink => 2,
        EntryKind::Other => 3,
    }
}

/// Whether `left` is listed before `right` under `sort`.
pub fn is_listed_before(left: &PendingEntry, right: &PendingEntry, sort: SortSpec) -> (before: bool)
    ensures
        before == listed_before(left@, right@, sort),
{
    let (first, second) = match sort.direction {
        SortDirection::Ascending => (left, right),
        SortDirection::Descending => (right, left),
    };
    let order = key_order(&first.metadata, &second.metadata, sort.field);
    order == -1 || (order == 0 && bytes_before_exec(first.sort_name.as_slice(), second.sort_name.as_slice()))
}

/// Sorts the entries found in a directory into listing order.
pub fn sort_pending(entries: Vec<PendingEntry>, sort: SortSpec) -> (sorted: Vec<PendingEntry>)
    ensures
        pending_models(sorted@).to_multiset() == pending_models(entries@).to_multiset(),
        in_listing_order(pending_models(sorted@), sort),
{
    let ghost original = pending_models(entries@);
    let mut remaining = entries;
    let mut sorted: Vec<PendingEntry> = Vec::new();
    while remaining.len() > 0
        invariant
            pending_models(sorted@).to_multiset().add(pending_models(remaining@).to_multiset())
                == original.to_multiset(),
            in_listing_order(pending_models(sorted@), sort),
        decreases remaining.len(),
    {
        let ghost before_remaining = remaining@;
        let entry = remaining.pop().unwrap();
        proof {
            assert(pending_models(before_remaining) =~= pending_models(remaining@).push(entry@));
            vstd::seq_lib::to_multiset_build(pending_models(remaining@), entry@);
        }
        let mut p: usize = 0;
        while p < sorted.len() && !is_listed_before(&entry, &sorted[p], sort)
            invariant
                p <= sorted@.len(),
                forall|i: int| 0 <= i < p ==> !listed_before(entry@, #[trigger] sorted@[i]@, sort),
            decreases sorted.len() - p,
        {
            p += 1;
        }
        let ghost old_sorted = pending_models(sorted@);
        proof {
            assert forall|i: int| p <= i < old_sorted.len() implies !listed_before(
                #[trigger] old_sorted[i],
                entry@,
                sort,
            ) by {
                assert(listed_before(entry@, old_sorted[p as int], sort));
                lemma_listed_before_strict(entry@, old_sorted[p as int], old_sorted[i], sort);
                lemma_listed_before_strict(old_sorted[i], entry@, old_sorted[p as int], sort);
            }
        }
        let ghost e = entry@;
        sorted.insert(p, entry);
        proof {
            let new_sorted = pending_models(sorted@);
            assert(new_sorted =~= old_sorted.insert(p as int, e));
            vstd::seq_lib::to_multiset_insert(old_sorted, p as int, e);
            assert forall|i: int, j: int| 0 <= i < j < new_sorted.len() implies !listed_before(
                #[trigger] new_sorted[j],
                #[trigger] new_sorted[i],
                sort,
            ) by {
                if j < p {
                    assert(new_sorted[i] == old_sorted[i] && new_sorted[j] == old_sorted[j]);
                } else if j == p {
                    assert(new_sorted[i] == old_sorted[i]);
                } else if i < p {
                    assert(new_sorted[i] == old_sorted[i] && new_sorted[j] == old_sorted[j - 1]);
                } else if i == p {
                    assert(new_sorted[j] == old_sorted[j - 1]);
                } else {
                    assert(new_sorted[i] == old_sorted[i - 1] && new_sorted[j] == old_sorted[j - 1]);
                }
            }
        }
    }
    proof {
        assert(pending_models(remaining@) =~= Seq::<PendingModel>::empty());
        assert(pending_models(remaining@).to_multiset() =~= vstd::multiset::Multiset::empty());
    }
    sorted
}


/// One listed entry as the interface sees it: a reference, never a path.
#[derive(Clone, Debug, PartialEq, Eq)]
pub struct DirectoryEntrySummary {
    pub reference: EntryReference,
    pub display_name: String,
    pub display_name_is_lossy: bool,
    pub metadata: EntryMetadata,
}

pub struct SummaryModel {
    pub session_id: DirectorySessionId,
    pub entry_id: u64,
    pub display_name: Seq<char>,
    pub display_name_is_lossy: bool,
    pub metadata: EntryMetadataModel,
}

impl View for DirectoryEntrySummary {
    type V = SummaryModel;

    open spec fn view(&self) -> SummaryModel {
        SummaryModel {
            session_id: self.reference@.0,
            entry_id: self.reference@.1@,
            display_name: self.display_name@,
            display_name_is_lossy: self.display_name_is_lossy,
            metadata: self.metadata@,
        }
    }
}

#[derive(Clone, Debug, PartialEq, Eq)]
pub struct DirectoryBatch {
    pub request_id: ReadRequestId,
    pub entries: Vec<DirectoryEntrySummary>,
}

#[derive(Clone, Debug, PartialEq, Eq)]
pub enum DirectoryReadEvent {
    Batch(DirectoryBatch),
    EntryError { request_id: ReadRequestId, error: FileAccessError },
    Completed { request_id: ReadRequestId, entry_count: usize },
}

/// Whom a failed access concerns.
pub enum SubjectModel {
    Directory(DirectorySessionId),
    Entry(DirectorySessionId, u64),
    Unresolved,
}

pub open spec fn subject_model(subject: AccessSubject) -> SubjectModel {
    match subject {
        AccessSubject::Directory(reference) => SubjectModel::Directory(reference@),
        AccessSubject::Entry(reference) => SubjectModel::Entry(reference@.0, reference@.1@),
        AccessSubject::Unresolved => SubjectModel::Unresolved,
    }
}

pub enum ReadEventModel {
    Batch { request_id: u64, entries: Seq<SummaryModel> },
    EntryError { request_id: u64, operation: AccessOperation, kind: AccessErrorKind, subject: SubjectModel },
    Completed { request_id: u64, entry_count: usize },
}

pub open spec fn summaries_model(entries: Seq<DirectoryEntrySummary>) -> Seq<SummaryModel> {
    entries.map_values(|e: DirectoryEntrySummary| e@)
}

impl View for DirectoryReadEvent {
    type V = ReadEventModel;

    open spec fn view(&self) -> ReadEventModel {
        match self {
            DirectoryReadEvent::Batch(batch) => ReadEventModel::Batch {
                request_id: batch.request_id@,
                entries: summaries_model(batch.entries@),
            },
            DirectoryReadEvent::EntryError { request_id, error } => ReadEventModel::EntryError {
                request_id: request_id@,
                operation: error@.operation,
                kind: error@.kind,
                subject: subject_model(error@.subject),
            },
            DirectoryReadEvent::Completed { request_id, entry_count } => ReadEventModel::Completed {
                request_id: request_id@,
                entry_count: *entry_count,
            },
        }
    }
}

pub open spec fn events_model(events: Seq<DirectoryReadEvent>) -> Seq<ReadEventModel> {
    events.map_values(|e: DirectoryReadEvent| e@)
}

impl DirectoryReadEvent {
    /// The request an event belongs to.
    pub fn request_id(&self) -> (id: ReadRequestId)
        ensures
            id@ == match self@ {
                ReadEventModel::Batch { request_id, .. } => request_id,
                ReadEventModel::EntryError { request_id, .. } => request_id,
                ReadEventModel::Completed { request_id, .. } => request_id,
            },
    {
        match self {
            DirectoryReadEvent::Batch(batch) => batch.request_id,
            DirectoryReadEvent::EntryError { request_id, .. } => *request_id,
            DirectoryReadEvent::Completed { request_id, .. } => *request_id,
        }
    }
}

#[derive(Clone, Copy, Debug, PartialEq, Eq, Structural)]
pub enum DirectoryReadError {
    Access(FileAccessError),
    InvalidModel(SessionModelError),
    Cancelled,
    WorkerFailed,
}

impl DirectoryReadError {
    /// The error for a directory that could not be opened.
    pub fn open_failed(session_id: DirectorySessionId, kind: IoErrorKind) -> (error: Self)
        ensures
            error matches DirectoryReadError::Access(access) && access@.operation
                == AccessOperation::OpenDirectory && access@.kind == access_error_kind(kind)
                && subject_model(access@.subject) == SubjectModel::Directory(session_id),
    {
        DirectoryReadError::Access(
            FileAccessError::new(
                AccessOperation::OpenDirectory,
                map_io_error_kind(kind),
                AccessSubject::Directory(DirectoryReference::new(session_id)),
            ),
        )
    }
}

/// What the interface is told about a registered entry.
pub open spec fn summary_of(session_id: DirectorySessionId, entry: crate::entry::FileEntryModel) -> SummaryModel {
    SummaryModel {
        session_id,
        entry_id: entry.id,
        display_name: entry.display_name,
        display_name_is_lossy: entry.display_name_is_lossy,
        metadata: entry.metadata,
    }
}

/// A listing in progress: its request, batch size, the session the entries
/// are registered in, and the summaries not yet sent.
pub struct ListingModel {
    pub request_id: u64,
    pub batch_size: usize,
    pub session: DirectorySessionModel,
    pub batch: Seq<SummaryModel>,
}

/// Batches are consecutive runs of the registered entries, in order: the
/// summaries not yet sent are those of the last entries, fewer than a
/// batch.
pub open spec fn listing_well_formed(listing: ListingModel) -> bool {
    let count = listing.session.entries.len() as int;
    &&& crate::session::session_well_formed(listing.session)
    &&& listing.batch_size > 0
    &&& listing.batch.len() < listing.batch_size
    &&& listing.batch.len() == count % (listing.batch_size as int)
    &&& forall|i: int|
        0 <= i < listing.batch.len() ==> #[trigger] listing.batch[i] == summary_of(
            listing.session.id,
            listing.session.entries[count - listing.batch.len() + i],
        )
}

/// The summary that registering `entry` adds.
pub open spec fn added_summary(listing: ListingModel, entry: PendingModel) -> SummaryModel {
    summary_of(listing.session.id, new_entry_model(listing.session, entry.path, entry.metadata))
}

/// The listing after registering `entry`: its summary joins the batch, and
/// a full batch is sent.
pub open spec fn listing_added(listing: ListingModel, entry: PendingModel) -> ListingModel {
    let full = listing.batch.push(added_summary(listing, entry));
    ListingModel {
        session: registered_model(listing.session, entry.path, entry.metadata),
        batch: if full.len() == listing.batch_size {
            Seq::empty()
        } else {
            full
        },
        ..listing
    }
}

/// The events registering `entry` sends: its metadata error, if any, and
/// then the batch it fills, if it fills one.
pub open spec fn added_events(listing: ListingModel, entry: PendingModel) -> Seq<ReadEventModel> {
    let full = listing.batch.push(added_summary(listing, entry));
    let error_events = match entry.access_error {
        Some(kind) => seq![
            ReadEventModel::EntryError {
                request_id: listing.request_id,
                operation: AccessOperation::ReadMetadata,
                kind,
                subject: SubjectModel::Entry(listing.session.id, (listing.session.entries.len() + 1) as u64),
            },
        ],
        None => Seq::empty(),
    };
    if full.len() == listing.batch_size {
        error_events.push(ReadEventModel::Batch { request_id: listing.request_id, entries: full })
    } else {
        error_events
    }
}

/// The events that end a listing: the last, partial batch if there is one,
/// then the entry count.
pub open spec fn finished_events(listing: ListingModel) -> Seq<ReadEventModel> {
    let completed = ReadEventModel::Completed {
        request_id: listing.request_id,
        entry_count: listing.session.entries.len() as usize,
    };
    if listing.batch.len() > 0 {
        seq![ReadEventModel::Batch { request_id: listing.request_id, entries: listing.batch }, completed]
    } else {
        seq![completed]
    }
}

proof fn lemma_count_mod_step(count: int, size: int)
    requires
        size > 0,
        count >= 0,
    ensures
        count % size <= count,
        (count + 1) % size == if count % size + 1 == size {
            0
        } else {
            count % size + 1
        },
{
    let q = count / size;
    let r = count % size;
    vstd::arithmetic::div_mod::lemma_fundamental_div_mod(count, size);
    vstd::arithmetic::div_mod::lemma_mod_bound(count, size);
    vstd::arithmetic::div_mod::lemma_div_pos_is_pos(count, size);
    assert(count == size * q + r);
    assert(size * q >= 0) by (nonlinear_arith)
        requires
            size > 0,
            q >= 0,
    ;
    if r + 1 == size {
        assert(count + 1 == (q + 1) * size + 0) by (nonlinear_arith)
            requires
                count == size * q + r,
                r + 1 == size,
        ;
        vstd::arithmetic::div_mod::lemma_fundamental_div_mod_converse(count + 1, size, q + 1, 0);
    } else {
        assert(count + 1 == q * size + (r + 1)) by (nonlinear_arith)
            requires
                count == size * q + r,
        ;
        vstd::arithmetic::div_mod::lemma_fundamental_div_mod_converse(count + 1, size, q, r + 1);
    }
}

/// Registers the entries of one read in a directory session, in listing
/// order, and says which events to send.
pub struct DirectoryListing {
    request_id: ReadRequestId,
    batch_size: BatchSize,
    session: DirectorySession,
    batch: Vec<DirectoryEntrySummary>,
}

impl View for DirectoryListing {
    type V = ListingModel;

    closed spec fn view(&self) -> ListingModel {
        ListingModel {
            request_id: self.request_id@,
            batch_size: self.batch_size@,
            session: self.session@,
            batch: summaries_model(self.batch@),
        }
    }
}

impl DirectoryListing {
    /// Starts the listing of `root` for request `request_id`, in a new
    /// session `session_id`. The root must be absolute.
    pub fn new(request_id: ReadRequestId, session_id: DirectorySessionId, root: NativePath, batch_size: BatchSize) -> (listing:
        Result<Self, DirectoryReadError>)
        ensures
            listing is Err <==> !root@.absolute,
            listing matches Err(error) ==> error == DirectoryReadError::InvalidModel(
                SessionModelError::RootMustBeAbsolute,
            ),
            listing matches Ok(l) ==> listing_well_formed(l@) && l@ == (ListingModel {
                request_id: request_id@,
                batch_size: batch_size@,
                session: DirectorySessionModel { id: session_id, root: root@, entries: seq![] },
                batch: seq![],
            }),
    {
        proof {
            use_type_invariant(batch_size);
        }
        match DirectorySession::new(session_id, root) {
            Err(error) => Err(DirectoryReadError::InvalidModel(error)),
            Ok(session) => {
                let listing = DirectoryListing { request_id, batch_size, session, batch: Vec::new() };
                assert(listing@.batch =~= seq![]);
                Ok(listing)
            },
        }
    }

    /// The reference of the session the entries are registered in.
    pub fn reference(&self) -> (reference: DirectoryReference)
        ensures
            reference@ == self@.session.id,
    {
        self.session.reference()
    }

    /// The event for an entry of the directory that could not be read.
    pub fn enumeration_error(&self, kind: IoErrorKind) -> (event: DirectoryReadEvent)
        ensures
            event@ == (ReadEventModel::EntryError {
                request_id: self@.request_id,
                operation: AccessOperation::ReadEntry,
                kind: access_error_kind(kind),
                subject: SubjectModel::Directory(self@.session.id),
            }),
    {
        DirectoryReadEvent::EntryError {
            request_id: self.request_id,
            error: FileAccessError::new(
                AccessOperation::ReadEntry,
                map_io_error_kind(kind),
                AccessSubject::Directory(self.session.reference()),
            ),
        }
    }

    /// Registers the next entry. On failure nothing changes.
    pub fn add(&mut self, entry: PendingEntry) -> (events: Result<Vec<DirectoryReadEvent>, DirectoryReadError>)
        requires
            listing_well_formed(old(self)@),
        ensures
            listing_well_formed(final(self)@),
            match register_outcome(old(self)@.session, entry@.path) {
                Err(error) => events == Err::<Vec<DirectoryReadEvent>, DirectoryReadError>(
                    DirectoryReadError::InvalidModel(error),
                ) && final(self)@ == old(self)@,
                Ok(_) => events matches Ok(sent) && events_model(sent@) == added_events(old(self)@, entry@)
                    && final(self)@ == listing_added(old(self)@, entry@),
            },
    {
        let ghost before = self@;
        let ghost model = entry@;
        let PendingEntry { path, sort_name: _, metadata, access_error } = entry;
        proof {
            lemma_count_mod_step(before.session.entries.len() as int, before.batch_size as int);
        }
        let reference = match self.session.register_entry(path, metadata) {
            Ok(reference) => reference,
            Err(error) => {
                return Err(DirectoryReadError::InvalidModel(error));
            },
        };
        proof {
            crate::session::law_resolve_after_register(
                before.session,
                model.path,
                model.metadata,
                before.session.id,
                0,
            );
        }
        let resolved = match self.session.resolve(reference) {
            Ok(resolved) => resolved,
            Err(_) => {
                proof {
                    assert(false);
                }
                return Err(DirectoryReadError::WorkerFailed);
            },
        };
        let summary = DirectoryEntrySummary {
            reference,
            display_name: resolved.display_name().as_str().to_owned(),
            display_name_is_lossy: resolved.display_name().is_lossy(),
            metadata: *resolved.metadata(),
        };
        assert(summary@ == added_summary(before, model));
        let mut events: Vec<DirectoryReadEvent> = Vec::new();
        if let Some(kind) = access_error {
            events.push(
                DirectoryReadEvent::EntryError {
                    request_id: self.request_id,
                    error: FileAccessError::new(
                        AccessOperation::ReadMetadata,
                        kind,
                        AccessSubject::Entry(reference),
                    ),
                },
            );
        }
        let ghost error_events = events_model(events@);
        self.batch.push(summary);
        let ghost full = summaries_model(self.batch@);
        assert(full =~= before.batch.push(added_summary(before, model)));
        if self.batch.len() == self.batch_size.get() {
            let mut sent: Vec<DirectoryEntrySummary> = Vec::new();
            std::mem::swap(&mut sent, &mut self.batch);
            events.push(DirectoryReadEvent::Batch(DirectoryBatch { request_id: self.request_id, entries: sent }));
            assert(events_model(events@) =~= error_events.push(
                ReadEventModel::Batch { request_id: before.request_id, entries: full },
            ));
            assert(self@.batch =~= Seq::<SummaryModel>::empty());
        }
        proof {
            let count = before.session.entries.len() as int;
            lemma_count_mod_step(count, before.batch_size as int);
            let after = self@;
            assert(after.session == registered_model(before.session, model.path, model.metadata));
            assert(after.session.entries.len() == count + 1);
            assert forall|i: int| 0 <= i < after.batch.len() implies #[trigger] after.batch[i] == summary_of(
                after.session.id,
                after.session.entries[after.session.entries.len() - after.batch.len() + i],
            ) by {
                if i < before.batch.len() {
                    assert(after.batch[i] == before.batch[i]);
                    assert(after.session.entries[count - before.batch.len() + i] == before.session.entries[count
                        - before.batch.len() + i]);
                }
            }
            assert(events_model(events@) =~= added_events(before, model));
        }
        Ok(events)
    }

    /// Ends the listing: the events to send last, and the session that now
    /// holds every entry.
    pub fn finish(self) -> (result: (Vec<DirectoryReadEvent>, DirectorySession))
        requires
            listing_well_formed(self@),
        ensures
            events_model(result.0@) == finished_events(self@),
            result.1@ == self@.session,
    {
        let ghost model = self@;
        let DirectoryListing { request_id, batch_size: _, session, batch } = self;
        let mut events: Vec<DirectoryReadEvent> = Vec::new();
        if batch.len() > 0 {
            events.push(DirectoryReadEvent::Batch(DirectoryBatch { request_id, entries: batch }));
        }
        let entry_count = session.len();
        events.push(DirectoryReadEvent::Completed { request_id, entry_count });
        assert(events_model(events@) =~= finished_events(model));
        (events, session)
    }
}

/// Listing delivers each registered entry exactly once, in registration
/// order: registering an entry either keeps the pending run of summaries
/// growing by that entry, or sends the full run as a batch of exactly the
/// batch size; the listing stays well formed either way.
pub proof fn law_batches_follow_listing_order(listing: ListingModel, entry: PendingModel)
    requires
        listing_well_formed(listing),
        register_outcome(listing.session, entry.path) is Ok,
    ensures
        listing_well_formed(listing_added(listing, entry)),
        listing.batch.len() + 1 == listing.batch_size ==> listing_added(listing, entry).batch.len() == 0,
        listing.batch.len() + 1 < listing.batch_size ==> listing_added(listing, entry).batch == listing.batch.push(
            added_summary(listing, entry),
        ),
{
    let count = listing.session.entries.len() as int;
    lemma_count_mod_step(count, listing.batch_size as int);
    let after = listing_added(listing, entry);
    crate::session::law_resolve_after_register(listing.session, entry.path, entry.metadata, listing.session.id, 0);
    assert forall|i: int| 0 <= i < after.batch.len() implies #[trigger] after.batch[i] == summary_of(
        after.session.id,
        after.session.entries[after.session.entries.len() - after.batch.len() + i],
    ) by {
        if i < listing.batch.len() {
            assert(after.batch[i] == listing.batch[i]);
            assert(after.session.entries[count - listing.batch.len() + i] == listing.session.entries[count
                - listing.batch.len() + i]);
        }
    }
}

} // verus!
