use panedeck::browser::{SessionStore, BrowseErrorCode};
use panedeck::entry::{EntryKind, EntryMetadata};
use panedeck::id::{DirectoryReference, DirectorySessionId, EntryReference};
use panedeck::ipc::{
    parse_u64, render_decimal, DirectoryReferenceDto, EntryKindDto, EntryReferenceDto,
    EntrySnapshotDto, IpcReferenceError,
};
use panedeck::path::NativePath;
use panedeck::session::{DirectorySession, ResolveReferenceError};

fn session_id(value: u64) -> DirectorySessionId {
    DirectorySessionId::from_raw(value).expect("test session ids are non-zero")
}

#[test]
fn forged_but_well_formed_ids_do_not_resolve() {
    let session = DirectorySession::new(session_id(4), NativePath::new("/tmp/panedeck-ipc"))
        .ok()
        .unwrap();
    let forged = EntryReference::try_from(EntryReferenceDto {
        session_id: "4".to_owned(),
        entry_id: "999".to_owned(),
    })
    .unwrap();

    assert_eq!(
        session.resolve(forged).err().unwrap(),
        ResolveReferenceError::UnknownEntry
    );
}

#[test]
fn rejects_path_fields_and_invalid_ids_from_json() {
    let invalid_id = EntryReferenceDto {
        session_id: "1".to_owned(),
        entry_id: "../../escape".to_owned(),
    };
    assert_eq!(
        EntryReference::try_from(invalid_id).unwrap_err(),
        IpcReferenceError::InvalidEntryId
    );
}

#[test]
fn json_reference_round_trip_preserves_non_utf8_native_path() {
    let root = NativePath::new("/tmp/panedeck-ipc");
    let native_name = b"asset-\xff.raw".to_vec();
    let expected_path = root.join_component(&native_name);
    let mut session = DirectorySession::new(session_id(11), root).ok().unwrap();
    let reference = session
        .register_entry(
            expected_path.duplicate(),
            EntryMetadata::new(EntryKind::File).with_byte_len(u64::MAX),
        )
        .unwrap();

    let dto = EntryReferenceDto::from_reference(reference);
    assert!(!dto.session_id.contains("/tmp"));
    assert!(!dto.entry_id.contains("/tmp"));
    let round_tripped_reference = EntryReference::try_from(dto.clone()).unwrap();
    let entry = session.resolve(round_tripped_reference).ok().unwrap();

    assert!(entry.native_path().same_path(&expected_path));
    assert!(entry.display_name().is_lossy());

    let snapshot = EntrySnapshotDto::from_entry(session.reference(), entry);
    assert_eq!(snapshot.byte_len.as_deref(), Some("18446744073709551615"));
    assert!(snapshot.display_name_is_lossy);
    assert_eq!(snapshot.reference, dto);
}

#[test]
fn decimal_text_round_trips_and_rejects_what_parse_rejects() {
    for value in [0u64, 7, 10, 99, 100, 1_234_567_890, u64::MAX] {
        let text = render_decimal(value as u128);
        assert_eq!(text, value.to_string());
        assert_eq!(parse_u64(&text), Some(value));
    }
    assert_eq!(render_decimal(u128::MAX), u128::MAX.to_string());
    for text in ["", "+", "-1", "1a", " 1", "18446744073709551616", "99999999999999999999x", "1.0"] {
        assert_eq!(parse_u64(text), text.parse::<u64>().ok(), "{text}");
    }
    for text in ["+12", "007", "0", "18446744073709551615"] {
        assert_eq!(parse_u64(text), text.parse::<u64>().ok(), "{text}");
    }
}

#[test]
fn zero_and_malformed_identifiers_are_rejected_in_order() {
    assert_eq!(
        DirectoryReference::try_from(DirectoryReferenceDto { session_id: "0".to_owned() }),
        Err(IpcReferenceError::InvalidSessionId)
    );
    assert_eq!(
        EntryReference::try_from(EntryReferenceDto {
            session_id: "x".to_owned(),
            entry_id: "x".to_owned(),
        }),
        Err(IpcReferenceError::InvalidSessionId)
    );
    assert_eq!(
        EntryReference::try_from(EntryReferenceDto {
            session_id: "+3".to_owned(),
            entry_id: "0".to_owned(),
        }),
        Err(IpcReferenceError::InvalidEntryId)
    );
    let reference = DirectoryReference::try_from(DirectoryReferenceDto { session_id: "+42".to_owned() }).unwrap();
    assert_eq!(reference.session_id().get(), 42);
    assert_eq!(DirectoryReferenceDto::from_reference(reference).session_id, "42");
}

#[test]
fn snapshots_render_times_and_kinds() {
    let root = NativePath::new("/data");
    let mut session = DirectorySession::new(session_id(2), root.duplicate()).ok().unwrap();
    let before_epoch = session
        .register_entry(
            root.join_component(b"old"),
            EntryMetadata::new(EntryKind::Directory).with_modified_at(-5),
        )
        .unwrap();
    let after_epoch = session
        .register_entry(
            root.join_component(b"new"),
            EntryMetadata::new(EntryKind::Symlink).with_modified_at(1_700_000_000_123_456_789),
        )
        .unwrap();
    let old = EntrySnapshotDto::from_entry(session.reference(), session.resolve(before_epoch).ok().unwrap());
    let new = EntrySnapshotDto::from_entry(session.reference(), session.resolve(after_epoch).ok().unwrap());
    assert_eq!(old.modified_at_unix_millis, None);
    assert_eq!(old.kind, EntryKindDto::Directory);
    assert_eq!(old.byte_len, None);
    assert_eq!(new.modified_at_unix_millis.as_deref(), Some("1700000000123"));
    assert_eq!(new.kind, EntryKindDto::Symlink);
    assert_eq!(new.reference.session_id, "2");
    assert_eq!(new.reference.entry_id, "2");
}

#[test]
fn stale_references_are_reported_by_the_session_store() {
    let store = SessionStore::new();
    let result = store.known_root(DirectoryReferenceDto { session_id: "5".to_owned() });
    assert_eq!(result.err().map(|error| error.code), Some(BrowseErrorCode::StaleReference));
}
