use panedeck::browser::{
    display_path, map_watch_error, requested_path, watch_event, BrowseErrorCode,
    DirectoryWatchReasonDto, PaneIdDto, SessionStore, MAX_STORED_SESSIONS,
};
use panedeck::entry::{EntryKind, EntryMetadata, SymlinkTarget};
use panedeck::id::DirectorySessionId;
use panedeck::ipc::{DirectoryReferenceDto, EntryReferenceDto};
use panedeck::locations::{LocalLocationKindDto, LocalLocationService};
use panedeck::path::NativePath;
use panedeck::session::DirectorySession;
use panedeck::watcher::{WatchError, WatchSignal};

fn session(id: u64, root: &str) -> DirectorySession {
    DirectorySession::new(DirectorySessionId::from_raw(id).unwrap(), NativePath::new(root))
        .ok()
        .unwrap()
}

#[test]
fn rejects_relative_paths_with_a_structured_error() {
    assert_eq!(requested_path("relative").err().map(|e| e.code), Some(BrowseErrorCode::InvalidPath));
    assert!(requested_path("/tmp").is_ok());
}

#[test]
fn store_keeps_only_the_newest_sessions() {
    let mut store = SessionStore::new();
    for id in 1..=(MAX_STORED_SESSIONS as u64 + 2) {
        store.insert(session(id, "/tmp"));
    }
    assert_eq!(store.len(), MAX_STORED_SESSIONS);
    assert!(store.get(DirectorySessionId::from_raw(1).unwrap()).is_none());
    assert!(store.get(DirectorySessionId::from_raw(2).unwrap()).is_none());
    assert!(store.get(DirectorySessionId::from_raw(3).unwrap()).is_some());
    let root = store.known_root(DirectoryReferenceDto { session_id: "130".to_owned() }).ok().unwrap();
    assert_eq!(root.to_bytes(), b"/tmp".to_vec());
}

#[test]
fn child_parent_and_stale_navigation() {
    let mut directory = session(5, "/data");
    let root = NativePath::new("/data");
    let child = directory
        .register_entry(root.join_component(b"child"), EntryMetadata::new(EntryKind::Directory))
        .unwrap();
    let file = directory
        .register_entry(root.join_component(b"file.txt"), EntryMetadata::new(EntryKind::File))
        .unwrap();
    let link = directory
        .register_entry(
            root.join_component(b"link"),
            EntryMetadata::new(EntryKind::Symlink).with_symlink_target(SymlinkTarget::Directory),
        )
        .unwrap();
    let mut store = SessionStore::new();
    store.insert(directory);
    let dto = |reference| EntryReferenceDto::from_reference(reference);
    assert_eq!(store.child_directory(dto(child)).ok().unwrap().to_bytes(), b"/data/child".to_vec());
    assert_eq!(store.child_directory(dto(link)).ok().unwrap().to_bytes(), b"/data/link".to_vec());
    assert_eq!(store.child_directory(dto(file)).err().map(|e| e.code), Some(BrowseErrorCode::NotDirectory));
    assert_eq!(
        store
            .child_directory(EntryReferenceDto { session_id: "5".to_owned(), entry_id: "77".to_owned() })
            .err()
            .map(|e| e.code),
        Some(BrowseErrorCode::StaleReference)
    );
    assert_eq!(
        store.parent_directory(DirectoryReferenceDto { session_id: "5".to_owned() }).ok().unwrap().to_bytes(),
        b"/".to_vec()
    );
    store.insert(session(6, "/"));
    assert_eq!(
        store.parent_directory(DirectoryReferenceDto { session_id: "6".to_owned() }).err().map(|e| e.code),
        Some(BrowseErrorCode::NotDirectory)
    );
}

#[test]
fn watch_events_and_errors_name_no_path() {
    let event = watch_event(PaneIdDto::Right, 3, WatchSignal::WatchFailed);
    assert_eq!(event.reason, DirectoryWatchReasonDto::WatchFailed);
    assert_eq!(event.pane.index(), 1);
    let error = map_watch_error(WatchError::PermissionDenied);
    assert_eq!(error.code, BrowseErrorCode::PermissionDenied);
    assert!(!error.message().contains('/'));
    assert_eq!(display_path(&NativePath::from_bytes(b"/a/\xff")), "/a/\u{fffd}");
}

#[test]
fn discovers_standard_locations_and_sorted_mounted_volumes() {
    let service = LocalLocationService;
    let home = NativePath::new("/home/user");
    let standard: Vec<_> = service
        .standard_locations(Some(home))
        .into_iter()
        .enumerate()
        .map(|(index, candidate)| candidate.into_dto(index < 3))
        .collect();
    let volumes = vec![
        service.volume_location(b"Zeta", NativePath::new("/Volumes/Zeta")).into_dto(true),
        service.volume_location(b"Alpha", NativePath::new("/Volumes/Alpha")).into_dto(true),
    ];
    let result = service.assemble(standard, Some(volumes));

    assert_eq!(result.locations[0].kind, LocalLocationKindDto::Home);
    assert_eq!(result.locations[1].path, "/home/user/Desktop");
    assert!(result.locations[1].available);
    assert!(!result.locations[3].available);
    let volume_names = result
        .locations
        .iter()
        .filter(|location| location.kind == LocalLocationKindDto::Volume)
        .map(|location| location.name.as_str())
        .collect::<Vec<_>>();
    assert_eq!(volume_names, ["Alpha", "Zeta"]);
    assert_eq!(result.locations[4].id, "volume:Alpha");
    assert!(!result.volume_scan_failed);
}

#[test]
fn missing_home_and_unreadable_volume_root_are_non_fatal() {
    let service = LocalLocationService;
    let standard: Vec<_> = service
        .standard_locations(None)
        .into_iter()
        .map(|candidate| candidate.into_dto(true))
        .collect();
    let result = service.assemble(standard, None);
    assert!(result.locations.is_empty());
    assert!(result.volume_scan_failed);
    assert!(service.standard_locations(Some(NativePath::new("relative/home"))).is_empty());
}
