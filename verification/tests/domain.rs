use panedeck::entry::{EntryKind, EntryMetadata, SymlinkTarget};
use panedeck::error::{AccessErrorKind, AccessOperation, AccessSubject, FileAccessError};
use panedeck::id::{DirectorySessionId, EntryId, EntryReference};
use panedeck::path::NativePath;
use panedeck::probe::ProbeError;
use panedeck::session::{DirectorySession, ResolveReferenceError, SessionModelError};
use panedeck::{product_name, PRODUCT_NAME};

fn session_id(value: u64) -> DirectorySessionId {
    DirectorySessionId::from_raw(value).expect("test session ids are non-zero")
}

fn entry_reference() -> EntryReference {
    EntryReference::new(
        DirectorySessionId::from_raw(1).unwrap(),
        EntryId::from_raw(2).unwrap(),
    )
}

#[test]
fn product_name_is_stable() {
    assert_eq!(PRODUCT_NAME, "PaneDeck");
}

#[test]
fn represents_permission_denied_without_a_native_path() {
    let error = FileAccessError::new(
        AccessOperation::ReadMetadata,
        AccessErrorKind::PermissionDenied,
        AccessSubject::Entry(entry_reference()),
    );

    assert_eq!(error.kind(), AccessErrorKind::PermissionDenied);
    assert!(!format!("{error:?}").contains('/'));
}

#[test]
fn represents_an_entry_that_disappeared() {
    let error = FileAccessError::new(
        AccessOperation::ReadEntry,
        AccessErrorKind::NotFound,
        AccessSubject::Entry(entry_reference()),
    );

    assert_eq!(error.kind(), AccessErrorKind::NotFound);
}

#[test]
fn rejects_relative_roots_and_non_child_entries() {
    assert_eq!(
        DirectorySession::new(session_id(1), NativePath::new("relative"))
            .err()
            .expect("relative roots must fail"),
        SessionModelError::RootMustBeAbsolute
    );

    let mut session = DirectorySession::new(session_id(1), NativePath::new("/tmp/panedeck-model"))
        .ok()
        .expect("absolute root is valid");
    let result = session.register_entry(
        NativePath::new("/tmp/outside"),
        EntryMetadata::new(EntryKind::File),
    );
    assert_eq!(
        result.expect_err("outside entries must fail"),
        SessionModelError::EntryMustBeDirectChild
    );
}

#[test]
fn models_hidden_read_only_and_symlink_entries() {
    let root = NativePath::new("/tmp/panedeck-model");
    let mut session = DirectorySession::new(session_id(1), root.duplicate()).ok().unwrap();
    let reference = session
        .register_entry(
            root.join_component(b".linked"),
            EntryMetadata::new(EntryKind::Symlink)
                .with_hidden(true)
                .with_read_only(true)
                .with_symlink_target(SymlinkTarget::Missing),
        )
        .unwrap();
    let entry = session.resolve(reference).ok().unwrap();

    assert_eq!(entry.metadata().kind(), EntryKind::Symlink);
    assert_eq!(
        entry.metadata().symlink_target(),
        Some(SymlinkTarget::Missing)
    );
    assert!(entry.metadata().is_hidden());
    assert!(entry.metadata().is_read_only());
}

#[test]
fn rejects_foreign_and_unknown_references() {
    let session = DirectorySession::new(session_id(7), NativePath::new("/tmp/panedeck-model"))
        .ok()
        .unwrap();

    let foreign = EntryReference::new(
        session_id(8),
        EntryId::from_raw(1).expect("non-zero entry id"),
    );
    assert_eq!(
        session.resolve(foreign).err().expect("foreign id must fail"),
        ResolveReferenceError::ForeignSession
    );

    let unknown = EntryReference::new(
        session_id(7),
        EntryId::from_raw(99).expect("non-zero entry id"),
    );
    assert_eq!(
        session.resolve(unknown).err().expect("unknown id must fail"),
        ResolveReferenceError::UnknownEntry
    );
}

#[test]
fn preserves_non_utf8_native_names() {
    let root = NativePath::new("/tmp/panedeck-model");
    let native_name = b"report-\xff.bin".to_vec();
    let native_path = root.join_component(&native_name);
    let mut session = DirectorySession::new(session_id(1), root).ok().unwrap();
    let reference = session
        .register_entry(
            native_path,
            EntryMetadata::new(EntryKind::File).with_byte_len(42),
        )
        .unwrap();
    let entry = session.resolve(reference).ok().unwrap();

    assert_eq!(entry.native_path().file_name().unwrap(), native_name);
    assert!(entry.display_name().is_lossy());
    assert_eq!(entry.display_name().as_str(), "report-\u{fffd}.bin");
}

#[test]
fn product_name_function_matches_the_constant() {
    assert_eq!(product_name(), "PaneDeck");
}

#[test]
fn app_name_is_stable() {
    assert_eq!(product_name(), "PaneDeck");
}

#[test]
fn registering_twice_is_a_duplicate_and_later_references_stay_valid() {
    let root = NativePath::new("/srv/data");
    let mut session = DirectorySession::new(session_id(3), root.duplicate()).ok().unwrap();
    let first = session
        .register_entry(root.join_component(b"a.txt"), EntryMetadata::new(EntryKind::File))
        .unwrap();
    assert_eq!(
        session.register_entry(root.join_component(b"a.txt"), EntryMetadata::new(EntryKind::File)),
        Err(SessionModelError::DuplicateEntry)
    );
    let second = session
        .register_entry(root.join_component(b"b"), EntryMetadata::new(EntryKind::Directory))
        .unwrap();
    assert_eq!(first.entry_id().get(), 1);
    assert_eq!(second.entry_id().get(), 2);
    assert_eq!(session.len(), 2);
    assert_ne!(session.resolve(first).ok().unwrap().id(), session.resolve(second).ok().unwrap().id());
    assert_eq!(session.resolve(first).ok().unwrap().display_name().as_str(), "a.txt");
    assert_eq!(session.resolve(second).ok().unwrap().metadata().kind(), EntryKind::Directory);
}

#[test]
fn a_root_itself_is_not_a_child_entry() {
    let mut session = DirectorySession::new(session_id(3), NativePath::new("/srv")).ok().unwrap();
    assert_eq!(
        session.register_entry(NativePath::new("/"), EntryMetadata::new(EntryKind::Directory)),
        Err(SessionModelError::EntryMustBeDirectChild)
    );
    assert!(session.is_empty());
}

#[test]
fn paths_keep_their_bytes_and_compare_by_components() {
    let path = NativePath::new("/a//b/");
    assert!(path.is_absolute());
    assert_eq!(path.component_count(), 2);
    assert_eq!(path.to_bytes(), b"/a//b/".to_vec());
    assert_eq!(NativePath::from_bytes(b"a//b").to_bytes(), b"a//b".to_vec());
    let parent = path.parent().unwrap();
    assert_eq!(parent.to_bytes(), b"/a".to_vec());
    assert_eq!(NativePath::new("x//y/./z/").parent().unwrap().to_bytes(), b"x//y".to_vec());
    assert_eq!(NativePath::new("/a").parent().unwrap().to_bytes(), b"/".to_vec());
    assert_eq!(NativePath::new("a").parent().unwrap().to_bytes(), b"".to_vec());
    assert_eq!(NativePath::new("/a/").join_component(b"b").to_bytes(), b"/a/b".to_vec());
    assert_eq!(NativePath::new("/a").join_component(b"b").to_bytes(), b"/a/b".to_vec());
    assert!(path.starts_with(&parent));
    assert!(NativePath::new("/").parent().is_none());
    assert_eq!(NativePath::from_bytes(b"x/\xfe").file_name().unwrap(), b"\xfe".to_vec());
    assert!(NativePath::new("a/b").same_path(&NativePath::new("a/b/")));
}

#[test]
fn rendered_paths_read_back_as_the_same_path() {
    for bytes in [&b"/"[..], b"", b"/a/\xfe\xff/c", b"./x/..", b"rel/name"] {
        let path = NativePath::from_bytes(bytes);
        let again = NativePath::from_bytes(&path.to_bytes());
        assert!(again.same_path(&path));
        assert_eq!(again.to_bytes(), path.to_bytes());
    }
    assert_eq!(NativePath::from_bytes(b"./x/..").to_bytes(), b"./x/..".to_vec());
}

#[test]
fn error_descriptions_name_no_path() {
    assert_eq!(SessionModelError::RootMustBeAbsolute.message(), "directory session root must be absolute");
    assert_eq!(SessionModelError::DuplicateEntry.message(), "entry is already registered in this session");
    assert_eq!(
        ResolveReferenceError::ForeignSession.message(),
        "entry reference belongs to another directory session"
    );
    assert_eq!(ProbeError::Io.message(), "I/O error during preflight");
}

#[test]
fn identifiers_are_never_zero() {
    assert!(DirectorySessionId::from_raw(0).is_none());
    assert!(EntryId::from_raw(0).is_none());
    assert_eq!(EntryId::from_raw(5).unwrap().get(), 5);
}
