use panedeck::browser::{
    map_access_error, map_read_error, read_options, BrowseErrorCode, ListingCollector,
    SortDirectionDto, SortFieldDto,
};
use panedeck::entry::{EntryKind, EntryMetadata, SymlinkTarget};
use panedeck::error::{AccessErrorKind, IoErrorKind};
use panedeck::id::DirectorySessionId;
use panedeck::path::NativePath;
use panedeck::reader::{
    is_hidden_name, is_listed, map_io_error_kind, metadata_from, sort_pending, symlink_target_from,
    BatchSize, DirectoryListing, DirectoryReadError, DirectoryReadEvent, DirectoryReadOptions,
    PendingEntry, RawMetadata, ReadRequestId, SortDirection, SortField, SortSpec,
};
use panedeck::session::SessionModelError;
use panedeck::watcher::{merge_pending, DirectoryWatcher, WatchDebounce, WatchError, WatchSignal};

fn pending(root: &NativePath, name: &[u8], metadata: EntryMetadata) -> PendingEntry {
    PendingEntry {
        path: root.join_component(name),
        sort_name: name.to_vec(),
        metadata,
        access_error: None,
    }
}

fn names(entries: &[PendingEntry]) -> Vec<Vec<u8>> {
    entries.iter().map(|entry| entry.sort_name.clone()).collect()
}

#[test]
fn maps_permission_denied_to_a_structured_error_kind() {
    assert_eq!(
        map_io_error_kind(IoErrorKind::PermissionDenied),
        AccessErrorKind::PermissionDenied
    );
}

#[test]
fn entry_disappearing_before_metadata_is_skipped() {
    let root = NativePath::new("/tmp");
    assert!(PendingEntry::from_metadata(root.join_component(b"vanishing"), b"vanishing".to_vec(), Err(IoErrorKind::NotFound)).is_none());
    let unreadable = PendingEntry::from_metadata(
        root.join_component(b"locked"),
        b"locked".to_vec(),
        Err(IoErrorKind::PermissionDenied),
    )
    .unwrap();
    assert_eq!(unreadable.metadata.kind(), EntryKind::Other);
    assert_eq!(unreadable.access_error, Some(AccessErrorKind::PermissionDenied));
}

#[test]
fn filters_hidden_entries_and_sorts_names() {
    let root = NativePath::new("/tmp/list");
    let options = DirectoryReadOptions::default();
    let candidates: Vec<&[u8]> = vec![b"beta", b".hidden", b"alpha", b"Zulu"];
    let listed: Vec<PendingEntry> = candidates
        .into_iter()
        .filter(|name| is_listed(name, &options))
        .map(|name| pending(&root, name, EntryMetadata::new(EntryKind::File)))
        .collect();
    let sorted = sort_pending(listed, options.sort);
    assert_eq!(names(&sorted), vec![b"Zulu".to_vec(), b"alpha".to_vec(), b"beta".to_vec()]);
    assert!(is_hidden_name(b".hidden"));
    assert!(!is_hidden_name(b""));
}

#[test]
fn sorts_by_size_in_descending_order() {
    let root = NativePath::new("/tmp/list");
    let entries = vec![
        pending(&root, b"small", EntryMetadata::new(EntryKind::File).with_byte_len(1)),
        pending(&root, b"large", EntryMetadata::new(EntryKind::File).with_byte_len(100)),
        pending(&root, b"medium", EntryMetadata::new(EntryKind::File).with_byte_len(10)),
        pending(&root, b"unknown", EntryMetadata::new(EntryKind::File)),
    ];
    let sorted = sort_pending(entries, SortSpec { field: SortField::Size, direction: SortDirection::Descending });
    assert_eq!(
        names(&sorted),
        vec![b"large".to_vec(), b"medium".to_vec(), b"small".to_vec(), b"unknown".to_vec()]
    );
    let kinds = vec![
        pending(&root, b"b-file", EntryMetadata::new(EntryKind::File)),
        pending(&root, b"link", EntryMetadata::new(EntryKind::Symlink)),
        pending(&root, b"z-dir", EntryMetadata::new(EntryKind::Directory)),
        pending(&root, b"a-file", EntryMetadata::new(EntryKind::File)),
    ];
    let sorted = sort_pending(kinds, SortSpec { field: SortField::Kind, direction: SortDirection::Ascending });
    assert_eq!(
        names(&sorted),
        vec![b"z-dir".to_vec(), b"a-file".to_vec(), b"b-file".to_vec(), b"link".to_vec()]
    );
}

fn listing(batch: usize) -> DirectoryListing {
    DirectoryListing::new(
        ReadRequestId::from_raw(9).unwrap(),
        DirectorySessionId::from_raw(3).unwrap(),
        NativePath::new("/tmp/list"),
        BatchSize::new(batch).unwrap(),
    )
    .ok()
    .unwrap()
}

#[test]
fn reads_entries_in_full_batches_then_completes() {
    let root = NativePath::new("/tmp/list");
    let mut listing = listing(2);
    let mut events = Vec::new();
    for index in 0..5u8 {
        let name = [b'e', b'0' + index];
        events.extend(listing.add(pending(&root, &name, EntryMetadata::new(EntryKind::File))).unwrap());
    }
    let (tail, session) = listing.finish();
    events.extend(tail);
    let sizes: Vec<usize> = events
        .iter()
        .map(|event| match event {
            DirectoryReadEvent::Batch(batch) => batch.entries.len(),
            _ => 0,
        })
        .collect();
    assert_eq!(sizes, vec![2, 2, 1, 0]);
    assert!(matches!(events[3], DirectoryReadEvent::Completed { entry_count: 5, .. }));
    assert!(events.iter().all(|event| event.request_id().get() == 9));
    assert_eq!(session.len(), 5);
    let mut names_seen = Vec::new();
    for event in &events {
        if let DirectoryReadEvent::Batch(batch) = event {
            for entry in &batch.entries {
                names_seen.push(entry.display_name.clone());
                assert_eq!(session.resolve(entry.reference).ok().unwrap().display_name().as_str(), entry.display_name);
            }
        }
    }
    assert_eq!(names_seen, vec!["e0", "e1", "e2", "e3", "e4"]);
}

#[test]
fn reads_empty_directory() {
    let (events, session) = listing(256).finish();
    assert!(session.is_empty());
    assert!(matches!(events.as_slice(), [DirectoryReadEvent::Completed { entry_count: 0, .. }]));
}

#[test]
fn metadata_errors_are_reported_and_bad_entries_refused() {
    let root = NativePath::new("/tmp/list");
    let mut listing = listing(256);
    let mut entry = pending(&root, b"locked", EntryMetadata::new(EntryKind::Other));
    entry.access_error = Some(AccessErrorKind::PermissionDenied);
    let events = listing.add(entry).unwrap();
    assert_eq!(events.len(), 1);
    match &events[0] {
        DirectoryReadEvent::EntryError { error, .. } => assert_eq!(error.kind(), AccessErrorKind::PermissionDenied),
        _ => panic!("expected an entry error"),
    }
    let outside = PendingEntry {
        path: NativePath::new("/elsewhere/x"),
        sort_name: b"x".to_vec(),
        metadata: EntryMetadata::new(EntryKind::File),
        access_error: None,
    };
    assert_eq!(
        listing.add(outside).err(),
        Some(DirectoryReadError::InvalidModel(SessionModelError::EntryMustBeDirectChild))
    );
    assert!(matches!(
        DirectoryListing::new(
            ReadRequestId::from_raw(1).unwrap(),
            DirectorySessionId::from_raw(1).unwrap(),
            NativePath::new("relative"),
            BatchSize::new(1).unwrap(),
        ),
        Err(DirectoryReadError::InvalidModel(SessionModelError::RootMustBeAbsolute))
    ));
    match listing.enumeration_error(IoErrorKind::Other) {
        DirectoryReadEvent::EntryError { error, .. } => assert_eq!(error.kind(), AccessErrorKind::Io),
        _ => panic!("expected an entry error"),
    }
    let open_failed = DirectoryReadError::open_failed(DirectorySessionId::from_raw(2).unwrap(), IoErrorKind::PermissionDenied);
    assert_eq!(map_read_error(open_failed).code, BrowseErrorCode::PermissionDenied);
    assert_eq!(map_read_error(DirectoryReadError::Cancelled).code, BrowseErrorCode::Cancelled);
}

#[test]
fn metadata_is_built_from_what_the_system_reports() {
    let raw = RawMetadata {
        is_symlink: true,
        is_dir: false,
        is_file: false,
        byte_len: 12,
        is_read_only: true,
        modified_at: Some(5),
    };
    let target = symlink_target_from(Ok((false, true)));
    assert_eq!(target, SymlinkTarget::Directory);
    let metadata = metadata_from(raw, Some(target), true);
    assert_eq!(metadata.kind(), EntryKind::Symlink);
    assert_eq!(metadata.byte_len(), Some(12));
    assert_eq!(metadata.modified_at(), Some(5));
    assert!(metadata.is_hidden() && metadata.is_read_only());
    assert_eq!(symlink_target_from(Err(IoErrorKind::NotFound)), SymlinkTarget::Missing);
    assert_eq!(symlink_target_from(Err(IoErrorKind::PermissionDenied)), SymlinkTarget::Unknown);
}

#[test]
fn listing_collector_gathers_snapshots_and_warnings() {
    let root = NativePath::new("/tmp/list");
    let mut listing = listing(1);
    let batch = listing.add(pending(&root, b"one", EntryMetadata::new(EntryKind::File))).unwrap();
    let mut collector = ListingCollector::new();
    for event in &batch {
        assert!(collector.absorb(event));
    }
    assert!(collector.absorb(&listing.enumeration_error(IoErrorKind::NotFound)));
    let (tail, _) = listing.finish();
    assert!(!collector.absorb(&tail[0]));
    assert_eq!(collector.entries.len(), 1);
    assert_eq!(collector.entries[0].display_name, "one");
    assert_eq!(collector.warnings, vec![BrowseErrorCode::NotFound]);
    assert_eq!(map_access_error(AccessErrorKind::UnsupportedFileType), BrowseErrorCode::Io);
    let options = read_options(true, SortFieldDto::Size, SortDirectionDto::Descending);
    assert_eq!(options.batch_size.get(), 256);
    assert!(options.show_hidden);
    assert_eq!(options.sort, SortSpec { field: SortField::Size, direction: SortDirection::Descending });
}

#[test]
fn watch_signals_are_debounced_and_failures_kept() {
    let mut debounce = WatchDebounce::new();
    debounce.notify(true, 1_000);
    assert_eq!(debounce.poll(1_000 + 100_000_000), None);
    debounce.notify(false, 1_000 + 100_000_000);
    debounce.notify(true, 1_000 + 120_000_000);
    assert_eq!(debounce.poll(1_000 + 200_000_000), None);
    assert_eq!(debounce.poll(1_000 + 270_000_000), Some(WatchSignal::WatchFailed));
    assert_eq!(debounce.poll(2_000_000_000), None);
    assert_eq!(merge_pending(None, WatchSignal::RescanRequired, u64::MAX).1, u64::MAX);
    assert_eq!(DirectoryWatcher.validate_root(Ok(false)), Err(WatchError::NotDirectory));
    assert_eq!(DirectoryWatcher.validate_root(Err(IoErrorKind::NotFound)), Err(WatchError::NotFound));
    assert_eq!(DirectoryWatcher.validate_root(Ok(true)), Ok(()));
}
