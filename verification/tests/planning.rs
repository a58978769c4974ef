use std::cell::Cell;
use std::collections::HashMap;

use panedeck::copy::{CopyErrorCode, CopyExecutor, CopyItemOutcome, CopyProgress};
use panedeck::entry::EntryKind;
use panedeck::error::IoErrorKind;
use panedeck::move_operation::{
    check_chunk, check_copy, same_names, ChunkCheck, CopyCheck, CrossVolumeNext, CrossVolumeStage, MoveErrorCode, MoveExecutor, MoveItemOutcome, MoveRoute,
};
use panedeck::mutation::{MutationErrorCode, MutationExecutor, MutationStep};
use panedeck::path::NativePath;
use panedeck::plan::{
    OperationKind, OperationPlan, OperationPlanner, OperationRequest, PlanValidationErrorKind,
};
use panedeck::platform::SystemTrashAdapter;
use panedeck::reader::RawMetadata;
use panedeck::probe::{
    permission_bits, FileIdentity, PathPreflightState, PreflightProbe, PreflightSnapshot,
    ProbeError,
};
use panedeck::trash::{
    TrashBackend, TrashBackendError, TrashErrorCode, TrashExecutor, TrashItemOutcome,
};

#[derive(Default)]
struct FakeProbe {
    paths: HashMap<Vec<u8>, PathPreflightState>,
    estimated_sizes: HashMap<Vec<u8>, u64>,
    spaces: HashMap<Vec<u8>, u64>,
    inspections: Cell<usize>,
    estimates_asked: Cell<usize>,
    spaces_asked: Cell<usize>,
}

impl FakeProbe {
    fn insert(&mut self, path: &str, state: PathPreflightState) {
        self.paths.insert(path.as_bytes().to_vec(), state);
    }
}

impl PreflightProbe for FakeProbe {
    fn inspect(&self, path: &NativePath) -> Result<Option<PathPreflightState>, ProbeError> {
        self.inspections.set(self.inspections.get() + 1);
        Ok(self.paths.get(&path.to_bytes()).copied())
    }

    fn estimated_copy_bytes(&self, path: &NativePath) -> Result<Option<u64>, ProbeError> {
        self.estimates_asked.set(self.estimates_asked.get() + 1);
        Ok(self.estimated_sizes.get(&path.to_bytes()).copied())
    }

    fn available_space(&self, directory: &NativePath) -> Result<Option<u64>, ProbeError> {
        self.spaces_asked.set(self.spaces_asked.get() + 1);
        Ok(self.spaces.get(&directory.to_bytes()).copied())
    }
}

fn identity(volume_id: u64, file_id: u128) -> FileIdentity {
    FileIdentity { volume_id, file_id }
}

fn state(volume_id: u64, file_id: u128, kind: EntryKind) -> PathPreflightState {
    PathPreflightState {
        identity: Some(identity(volume_id, file_id)),
        kind,
        byte_len: 10,
        is_readable: true,
        is_writable: true,
    }
}

fn base_probe() -> FakeProbe {
    let mut probe = FakeProbe::default();
    probe.insert("/source", state(1, 1, EntryKind::Directory));
    probe.insert("/source/a", state(1, 2, EntryKind::File));
    probe.insert("/destination", state(2, 3, EntryKind::Directory));
    probe.estimated_sizes.insert(b"/source/a".to_vec(), 10);
    probe.spaces.insert(b"/destination".to_vec(), 100);
    probe
}

fn copy_request() -> OperationRequest {
    OperationRequest::Copy {
        sources: vec![NativePath::new("/source/a")],
        destination_directory: NativePath::new("/destination"),
    }
}

fn plan_error(request: OperationRequest, probe: &FakeProbe) -> PlanValidationErrorKind {
    *OperationPlanner.plan(request, probe).err().expect("plan must be refused").kind()
}

#[test]
fn creates_immutable_copy_plan_with_identity_and_space_snapshot() {
    let probe = base_probe();
    let plan = OperationPlanner.plan(copy_request(), &probe).ok().unwrap();

    assert_eq!(plan.kind(), OperationKind::Copy);
    assert_eq!(plan.sources().len(), 1);
    assert_eq!(plan.sources()[0].identity(), identity(1, 2));
    assert_eq!(plan.targets().len(), 1);
    assert!(OperationPlanner.revalidate(&plan, &probe).is_ok());
}

#[test]
fn rejects_conflict_same_path_directory_into_itself_and_insufficient_space() {
    let mut same_path = base_probe();
    same_path.insert("/source", state(1, 1, EntryKind::Directory));
    let error = plan_error(
        OperationRequest::Copy {
            sources: vec![NativePath::new("/source/a")],
            destination_directory: NativePath::new("/source"),
        },
        &same_path,
    );
    assert!(matches!(error, PlanValidationErrorKind::SamePath { .. }));

    let mut into_itself = base_probe();
    into_itself.insert("/source/child", state(1, 4, EntryKind::Directory));
    let error = plan_error(
        OperationRequest::Move {
            sources: vec![NativePath::new("/source")],
            destination_directory: NativePath::new("/source/child"),
        },
        &into_itself,
    );
    assert!(matches!(error, PlanValidationErrorKind::DirectoryIntoItself { .. }));

    let mut conflict = base_probe();
    conflict.insert("/destination/a", state(2, 5, EntryKind::File));
    let error = plan_error(copy_request(), &conflict);
    assert!(matches!(error, PlanValidationErrorKind::Conflict { .. }));

    let mut no_space = base_probe();
    no_space.spaces.insert(b"/destination".to_vec(), 5);
    let error = plan_error(copy_request(), &no_space);
    assert_eq!(
        error,
        PlanValidationErrorKind::InsufficientSpace {
            required: 10,
            available: 5,
        }
    );
}

#[test]
fn checks_permissions_and_revalidates_changed_disk_state() {
    let mut denied = base_probe();
    denied.paths.get_mut(b"/destination".as_slice()).unwrap().is_writable = false;
    let error = plan_error(copy_request(), &denied);
    assert_eq!(error, PlanValidationErrorKind::ParentNotWritable);

    let original = base_probe();
    let plan = OperationPlanner.plan(copy_request(), &original).ok().unwrap();
    let mut changed = base_probe();
    changed.insert("/destination/a", state(2, 99, EntryKind::File));
    let error = OperationPlanner.revalidate(&plan, &changed).unwrap_err();
    assert!(matches!(error.kind(), PlanValidationErrorKind::TargetChanged { .. }));

    let mut replaced_source = base_probe();
    replaced_source.insert("/source/a", state(1, 100, EntryKind::File));
    let error = OperationPlanner.revalidate(&plan, &replaced_source).unwrap_err();
    assert!(matches!(error.kind(), PlanValidationErrorKind::SourceChanged { .. }));
}

#[test]
fn same_volume_move_does_not_require_copy_space() {
    let mut probe = base_probe();
    probe.insert("/destination", state(1, 3, EntryKind::Directory));
    probe.spaces.insert(b"/destination".to_vec(), 0);

    let plan = OperationPlanner
        .plan(
            OperationRequest::Move {
                sources: vec![NativePath::new("/source/a")],
                destination_directory: NativePath::new("/destination"),
            },
            &probe,
        )
        .ok()
        .unwrap();

    assert_eq!(plan.kind(), OperationKind::Move);
    assert!(OperationPlanner.revalidate(&plan, &probe).is_ok());
}

#[test]
fn plans_move_rename_create_directory_and_trash() {
    let probe = base_probe();
    let planner = OperationPlanner;
    let move_plan = planner
        .plan(
            OperationRequest::Move {
                sources: vec![NativePath::new("/source/a")],
                destination_directory: NativePath::new("/destination"),
            },
            &probe,
        )
        .ok()
        .unwrap();
    assert_eq!(move_plan.kind(), OperationKind::Move);

    let rename_plan = planner
        .plan(
            OperationRequest::Rename {
                source: NativePath::new("/source/a"),
                new_name: b"renamed".to_vec(),
            },
            &probe,
        )
        .ok()
        .unwrap();
    assert_eq!(rename_plan.kind(), OperationKind::Rename);

    let create_plan = planner
        .plan(
            OperationRequest::CreateDirectory {
                parent: NativePath::new("/destination"),
                name: b"new-folder".to_vec(),
            },
            &probe,
        )
        .ok()
        .unwrap();
    assert_eq!(create_plan.kind(), OperationKind::CreateDirectory);

    let trash_plan = planner
        .plan(
            OperationRequest::Trash {
                sources: vec![NativePath::new("/source/a")],
            },
            &probe,
        )
        .ok()
        .unwrap();
    assert_eq!(trash_plan.kind(), OperationKind::Trash);
}

#[test]
fn rejects_empty_separator_and_nul_names() {
    let probe = base_probe();
    for name in [b"".to_vec(), b"nested/name".to_vec(), b".".to_vec(), b"..".to_vec(), b"a\0b".to_vec()] {
        let error = plan_error(
            OperationRequest::Rename {
                source: NativePath::new("/source/a"),
                new_name: name,
            },
            &probe,
        );
        assert_eq!(error, PlanValidationErrorKind::InvalidName);
    }
    assert_eq!(
        plan_error(OperationRequest::Trash { sources: Vec::new() }, &probe),
        PlanValidationErrorKind::EmptySources
    );
}

#[test]
fn snapshot_answers_replace_earlier_ones() {
    let mut snapshot = PreflightSnapshot::new();
    let path = NativePath::new("/x");
    assert_eq!(snapshot.inspect(&path), Ok(None));
    snapshot.insert_state(path.duplicate(), state(1, 1, EntryKind::File));
    snapshot.insert_state(path.duplicate(), state(1, 2, EntryKind::File));
    assert_eq!(snapshot.inspect(&path), Ok(Some(state(1, 2, EntryKind::File))));
    assert_eq!(snapshot.estimated_copy_bytes(&path), Ok(Some(10)));
    snapshot.record_estimate(path.duplicate(), Ok(Some(3)));
    assert_eq!(snapshot.estimated_copy_bytes(&path), Ok(Some(3)));
    assert_eq!(snapshot.available_space(&path), Ok(None));
    assert_eq!(permission_bits(0o700, true), (true, true));
    assert_eq!(permission_bits(0o111, true), (true, false));
    assert_eq!(permission_bits(0o111, false), (false, false));
    assert_eq!(ProbeError::from_io_error(IoErrorKind::InvalidData), ProbeError::InvalidPath);
}

fn planned(request: OperationRequest, probe: &FakeProbe) -> OperationPlan {
    OperationPlanner.plan(request, probe).ok().unwrap()
}

#[test]
fn copy_runs_report_every_item_and_stop_at_cancellation() {
    let mut probe = base_probe();
    probe.insert("/source/b", state(1, 6, EntryKind::File));
    probe.insert("/source/c", state(1, 7, EntryKind::File));
    probe.estimated_sizes.insert(b"/source/b".to_vec(), 20);
    let plan = planned(
        OperationRequest::Copy {
            sources: vec![NativePath::new("/source/a"), NativePath::new("/source/b"), NativePath::new("/source/c")],
            destination_directory: NativePath::new("/destination"),
        },
        &probe,
    );
    let mut run = CopyExecutor.prepare(&plan, &probe);
    assert_eq!(run.total_bytes(), 40);
    assert_eq!(run.next_index(), Some(0));
    assert_eq!(run.add_copied_bytes(7), CopyProgress { source_index: 0, bytes_copied: 7, total_bytes: 40 });
    run.record(Ok(()));
    assert_eq!(run.next_index(), Some(1));
    run.record(Err(CopyErrorCode::Cancelled));
    assert_eq!(run.next_index(), None);
    let result = run.into_result();
    let outcomes: Vec<_> = result.items.iter().map(|item| (item.source_index, item.outcome)).collect();
    assert_eq!(
        outcomes,
        vec![
            (0, CopyItemOutcome::Copied),
            (1, CopyItemOutcome::Failed(CopyErrorCode::Cancelled)),
            (2, CopyItemOutcome::Failed(CopyErrorCode::Cancelled)),
        ]
    );
}

#[test]
fn copy_of_a_changed_plan_fails_every_item() {
    let plan = planned(copy_request(), &base_probe());
    let mut changed = base_probe();
    changed.insert("/destination/a", state(2, 9, EntryKind::File));
    let result = CopyExecutor.prepare(&plan, &changed).into_result();
    assert_eq!(result.items.len(), 1);
    assert_eq!(result.items[0].outcome, CopyItemOutcome::Failed(CopyErrorCode::Conflict));

    let move_plan = planned(
        OperationRequest::Move {
            sources: vec![NativePath::new("/source/a")],
            destination_directory: NativePath::new("/destination"),
        },
        &base_probe(),
    );
    let wrong_kind = CopyExecutor.prepare(&move_plan, &base_probe()).into_result();
    assert_eq!(wrong_kind.items[0].outcome, CopyItemOutcome::Failed(CopyErrorCode::InvalidPlan));
    assert_eq!(CopyErrorCode::from_io_error(IoErrorKind::AlreadyExists), CopyErrorCode::Conflict);
    assert_eq!(CopyErrorCode::from_io_error(IoErrorKind::NotADirectory), CopyErrorCode::Io);
}

#[test]
fn insufficient_space_is_rejected_before_copying() {
    let mut probe = base_probe();
    probe.estimated_sizes.insert(b"/source/a".to_vec(), 1_000);
    probe.spaces.insert(b"/destination".to_vec(), 10);
    let error = plan_error(copy_request(), &probe);
    assert_eq!(
        error,
        PlanValidationErrorKind::InsufficientSpace { required: 1_000, available: 10 }
    );
}

#[test]
fn move_runs_route_by_volume_and_stage_cross_volume_work() {
    let probe = base_probe();
    let across = planned(
        OperationRequest::Move {
            sources: vec![NativePath::new("/source/a")],
            destination_directory: NativePath::new("/destination"),
        },
        &probe,
    );
    let mut run = MoveExecutor.prepare(&across, &probe);
    assert_eq!(run.total_bytes(), 10);
    assert_eq!(run.next_item(), Some((0, MoveRoute::AcrossVolumes)));
    let mut stage = CrossVolumeStage::Staging;
    let mut outcome = None;
    for result in [Ok(()), Ok(()), Err(MoveErrorCode::PermissionDenied)] {
        match stage.advance(result) {
            CrossVolumeNext::Continue(next) => stage = next,
            CrossVolumeNext::Finished(done) => outcome = Some(done),
        }
    }
    assert_eq!(outcome, Some(MoveItemOutcome::CopiedButSourceNotRemoved(MoveErrorCode::PermissionDenied)));
    run.record(outcome.unwrap());
    assert_eq!(run.next_item(), None);
    assert_eq!(CrossVolumeStage::Staging.advance(Err(MoveErrorCode::VerificationFailed)), CrossVolumeNext::Finished(MoveItemOutcome::Failed(MoveErrorCode::VerificationFailed)));
    assert_eq!(CrossVolumeStage::RemovingSource.advance(Ok(())), CrossVolumeNext::Finished(MoveItemOutcome::Moved));
    assert_eq!(MoveItemOutcome::from_rename(Err(MoveErrorCode::Conflict)), MoveItemOutcome::Failed(MoveErrorCode::Conflict));
    assert_eq!(MoveErrorCode::from_copy_error(CopyErrorCode::Cancelled), MoveErrorCode::Cancelled);

    let mut local = base_probe();
    local.insert("/destination", state(1, 3, EntryKind::Directory));
    let same_volume = planned(
        OperationRequest::Move {
            sources: vec![NativePath::new("/source/a")],
            destination_directory: NativePath::new("/destination"),
        },
        &local,
    );
    let run = MoveExecutor.prepare(&same_volume, &local);
    assert_eq!(run.total_bytes(), 0);
    assert_eq!(run.next_item(), Some((0, MoveRoute::SameVolume)));
}

#[test]
fn mutation_steps_follow_the_plan() {
    let probe = base_probe();
    let rename = planned(
        OperationRequest::Rename {
            source: NativePath::new("/source/a"),
            new_name: b"after.txt".to_vec(),
        },
        &probe,
    );
    match MutationExecutor.prepare(&rename, &probe) {
        Ok(MutationStep::Rename { from, to }) => {
            assert_eq!(from.to_bytes(), b"/source/a".to_vec());
            assert_eq!(to.to_bytes(), b"/source/after.txt".to_vec());
        }
        _ => panic!("expected a rename step"),
    }
    let mut occupied = base_probe();
    occupied.insert("/source/after.txt", state(1, 42, EntryKind::File));
    assert!(matches!(
        MutationExecutor.prepare(&rename, &occupied),
        Err(MutationErrorCode::TargetConflict)
    ));
    assert_eq!(MutationErrorCode::from_io_error(IoErrorKind::InvalidInput), MutationErrorCode::InvalidName);
}

#[test]
fn rename_onto_another_entry_conflicts_but_case_only_rename_is_planned() {
    let mut probe = base_probe();
    probe.insert("/source/existing.txt", state(1, 7, EntryKind::File));
    assert!(matches!(
        plan_error(
            OperationRequest::Rename {
                source: NativePath::new("/source/a"),
                new_name: b"existing.txt".to_vec(),
            },
            &probe,
        ),
        PlanValidationErrorKind::Conflict { target_index: 0 }
    ));

    // On a case-insensitive volume the new spelling names the source itself.
    probe.insert("/source/A", state(1, 2, EntryKind::File));
    let plan = planned(
        OperationRequest::Rename {
            source: NativePath::new("/source/a"),
            new_name: b"A".to_vec(),
        },
        &probe,
    );
    assert_eq!(plan.targets()[0].expected_existing_identity(), Some(identity(1, 2)));
    match MutationExecutor.prepare(&plan, &probe) {
        Ok(MutationStep::Rename { from, to }) => {
            assert_eq!(from.to_bytes(), b"/source/a".to_vec());
            assert_eq!(to.to_bytes(), b"/source/A".to_vec());
        }
        _ => panic!("expected a rename step"),
    }
}

#[test]
fn requests_failing_their_own_checks_never_reach_the_probe() {
    let probe = base_probe();
    for name in [b"".to_vec(), b"nested/name".to_vec()] {
        assert_eq!(
            plan_error(
                OperationRequest::Rename { source: NativePath::new("/source/a"), new_name: name },
                &probe,
            ),
            PlanValidationErrorKind::InvalidName
        );
    }
    assert_eq!(
        plan_error(
            OperationRequest::CreateDirectory { parent: NativePath::new("/destination"), name: b"..".to_vec() },
            &probe,
        ),
        PlanValidationErrorKind::InvalidName
    );
    assert_eq!(
        plan_error(
            OperationRequest::Copy { sources: Vec::new(), destination_directory: NativePath::new("/destination") },
            &probe,
        ),
        PlanValidationErrorKind::EmptySources
    );
    assert_eq!(probe.inspections.get(), 0);
}

#[test]
fn sizes_and_space_are_asked_only_where_needed() {
    let mut empty_source = base_probe();
    empty_source.estimated_sizes.insert(b"/source/a".to_vec(), 0);
    planned(copy_request(), &empty_source);
    assert_eq!(empty_source.estimates_asked.get(), 1);
    assert_eq!(empty_source.spaces_asked.get(), 0);

    let sized = base_probe();
    planned(copy_request(), &sized);
    assert_eq!(sized.spaces_asked.get(), 1);

    let mut local = base_probe();
    local.insert("/destination", state(1, 3, EntryKind::Directory));
    let same_volume = planned(
        OperationRequest::Move {
            sources: vec![NativePath::new("/source/a")],
            destination_directory: NativePath::new("/destination"),
        },
        &local,
    );
    let asked_while_planning = local.estimates_asked.get();
    assert_eq!(asked_while_planning, 0);
    MoveExecutor.prepare(&same_volume, &local);
    assert_eq!(local.estimates_asked.get(), 0);

    let mut changed = base_probe();
    let plan = planned(copy_request(), &changed);
    changed.insert("/source/a", state(1, 99, EntryKind::File));
    let before = changed.estimates_asked.get();
    CopyExecutor.prepare(&plan, &changed);
    assert_eq!(changed.estimates_asked.get(), before);
}

#[test]
fn copies_are_checked_against_their_sources() {
    let file = |byte_len| RawMetadata {
        is_symlink: false,
        is_dir: false,
        is_file: true,
        byte_len,
        is_read_only: false,
        modified_at: None,
    };
    let directory = RawMetadata { is_dir: true, is_file: false, ..file(0) };
    assert_eq!(check_copy(file(3), file(3)), CopyCheck::Contents);
    assert_eq!(check_copy(file(3), file(4)), CopyCheck::Differs);
    assert_eq!(check_copy(file(3), directory), CopyCheck::Differs);
    assert_eq!(check_copy(directory, directory), CopyCheck::Children);
    assert_eq!(check_chunk(b"abc", b"abc"), ChunkCheck::Same);
    assert_eq!(check_chunk(b"abc", b"abd"), ChunkCheck::Differs);
    assert_eq!(check_chunk(b"", b""), ChunkCheck::Finished);
    assert!(same_names(&vec![b"a".to_vec(), b"b".to_vec()], &vec![b"b".to_vec(), b"a".to_vec()]));
    assert!(!same_names(&vec![b"a".to_vec()], &vec![b"c".to_vec()]));
}

struct MockTrash {
    calls: Cell<usize>,
    fail_at: Option<usize>,
    error: TrashBackendError,
}

impl TrashBackend for MockTrash {
    fn move_to_trash(&self, _path: &NativePath) -> Result<(), TrashBackendError> {
        let index = self.calls.get();
        self.calls.set(index + 1);
        if self.fail_at == Some(index) {
            Err(self.error)
        } else {
            Ok(())
        }
    }
}

fn trash_probe() -> FakeProbe {
    let mut probe = base_probe();
    probe.insert("/source/b", state(1, 6, EntryKind::File));
    probe.insert("/source/c", state(1, 7, EntryKind::File));
    probe
}

#[test]
fn returns_a_result_for_every_item_and_maps_permission_errors() {
    let probe = trash_probe();
    let plan = planned(
        OperationRequest::Trash {
            sources: vec![NativePath::new("/source/a"), NativePath::new("/source/b"), NativePath::new("/source/c")],
        },
        &probe,
    );
    let backend = MockTrash { calls: Cell::new(0), fail_at: Some(1), error: TrashBackendError::PermissionDenied };
    let result = TrashExecutor.execute(&plan, &probe, &backend);
    assert_eq!(result.items.len(), 3);
    assert_eq!(result.items[0].outcome, TrashItemOutcome::Trashed);
    assert_eq!(result.items[1].outcome, TrashItemOutcome::Failed(TrashErrorCode::PermissionDenied));
    assert_eq!(result.items[2].outcome, TrashItemOutcome::Trashed);
    assert_eq!(backend.calls.get(), 3);
}

#[test]
fn changed_source_prevents_any_backend_call() {
    let probe = trash_probe();
    let plan = planned(
        OperationRequest::Trash { sources: vec![NativePath::new("/source/a")] },
        &probe,
    );
    let mut changed = trash_probe();
    changed.paths.remove(b"/source/a".as_slice());
    let backend = MockTrash { calls: Cell::new(0), fail_at: None, error: TrashBackendError::Platform };
    let result = TrashExecutor.execute(&plan, &changed, &backend);
    assert_eq!(result.items[0].outcome, TrashItemOutcome::Failed(TrashErrorCode::SourceChanged));
    assert_eq!(backend.calls.get(), 0);
}

#[test]
fn non_macos_adapter_reports_unsupported() {
    assert_eq!(
        SystemTrashAdapter.move_to_trash(&NativePath::new("/not-used")),
        Err(TrashBackendError::Unsupported)
    );
}
