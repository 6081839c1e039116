use hmm_app::ids::ModId;
use hmm_app::import_task::{
    check_archive_path, ArchivePathFacts, ModImportTaskError, ModImportTaskService,
    StartImportModRevisionTaskRequest, StartImportModTaskRequest,
};
use hmm_app::tasks::{TaskKind, TaskManager, TaskManagerError, TaskStatus};
use hmm_app::write_gate::{ModStorageWriteGate, ModStorageWriteGateError};

/// An absolute path to a regular file that exists on the test machine.
const EXISTING_FILE: &str = "/etc/passwd";
/// An absolute path to a directory that exists on the test machine.
const EXISTING_DIRECTORY: &str = "/";
/// An absolute path that does not exist.
const MISSING_FILE: &str = "/hmm-app-missing-directory/missing.zip";

#[test]
fn start_import_task_rejects_relative_paths() {
    let mut service = ModImportTaskService::default();
    let error = service
        .start_import_mod_task(StartImportModTaskRequest {
            archive_path: String::from("relative.zip"),
        })
        .expect_err("relative path rejected");

    assert_eq!(error, ModImportTaskError::ArchivePathNotAbsolute);
}

#[test]
fn start_import_task_returns_stable_task_id_for_existing_file() {
    let mut service = ModImportTaskService::new(TaskManager::new());
    let task = service
        .start_import_mod_task(StartImportModTaskRequest {
            archive_path: EXISTING_FILE.to_owned(),
        })
        .expect("task starts");

    assert!(task.task_id.starts_with("mod-import-"));
    assert!(!task.task_id.contains("passwd"));
    assert!(!task.task_id.contains('\\'));
    assert!(!task.task_id.contains('/'));
    assert_eq!(task.kind, TaskKind::ModImport);
    assert_eq!(task.status, TaskStatus::Queued);
    assert_eq!(
        service.task_manager().task_status(&task.task_id),
        Some(TaskStatus::Queued)
    );
}

#[test]
fn start_import_task_is_refused_while_storage_writes_are_frozen() {
    let mut write_gate = ModStorageWriteGate::new();
    write_gate
        .begin_migration(|| Ok::<(), ModStorageWriteGateError>(()))
        .expect("migration admitted");
    let mut service = ModImportTaskService::new(TaskManager::new()).with_write_gate(write_gate);

    let error = service
        .start_import_mod_task(StartImportModTaskRequest {
            archive_path: EXISTING_FILE.to_owned(),
        })
        .expect_err("frozen writes refuse the import");

    assert_eq!(error.error_code(), "mod_storage_migration_in_progress");
    assert_eq!(
        service.task_manager().has_active_task_of_kind(TaskKind::ModImport),
        Ok(false),
        "a refused import must not leave a queued task behind"
    );

    service.end_migration(true);
    let error = service
        .start_import_mod_revision_task(StartImportModRevisionTaskRequest {
            archive_path: EXISTING_FILE.to_owned(),
            mod_id: ModId::new("mod-a"),
        })
        .expect_err("switched root refuses until restart");
    assert_eq!(error.error_code(), "mod_storage_restart_required");
}

#[test]
fn start_import_task_rejects_missing_paths() {
    let mut service = ModImportTaskService::default();
    let error = service
        .start_import_mod_task(StartImportModTaskRequest {
            archive_path: MISSING_FILE.to_owned(),
        })
        .expect_err("missing path rejected");

    assert_eq!(error, ModImportTaskError::ArchiveFileNotFound);
}

#[test]
fn start_import_task_rejects_directories() {
    let mut service = ModImportTaskService::default();
    let error = service
        .start_import_mod_task(StartImportModTaskRequest {
            archive_path: EXISTING_DIRECTORY.to_owned(),
        })
        .expect_err("directory path rejected");

    assert_eq!(error, ModImportTaskError::ArchivePathIsNotFile);
}

#[test]
fn start_revision_import_task_accepts_explicit_logical_mod_id() {
    let mut service = ModImportTaskService::new(TaskManager::new());

    let task = service
        .start_import_mod_revision_task(StartImportModRevisionTaskRequest {
            archive_path: EXISTING_FILE.to_owned(),
            mod_id: ModId::new("mod-a"),
        })
        .expect("revision import task starts");

    assert_eq!(task.kind, TaskKind::ModImport);
    assert_eq!(task.status, TaskStatus::Queued);
    assert!(!task.task_id.contains("mod-a"));
    assert_eq!(
        service.task_manager().task_status(&task.task_id),
        Some(TaskStatus::Queued)
    );
}

#[test]
fn start_revision_import_task_rejects_empty_logical_mod_id() {
    let mut service = ModImportTaskService::default();
    let error = service
        .start_import_mod_revision_task(StartImportModRevisionTaskRequest {
            archive_path: String::from("unused.zip"),
            mod_id: ModId::new("  "),
        })
        .expect_err("empty logical Mod id rejected before path access");

    assert_eq!(error, ModImportTaskError::ModIdEmpty);
    assert_eq!(error.error_code(), "mod_id_empty");
}

#[test]
fn empty_archive_path_is_rejected_first() {
    let mut service = ModImportTaskService::default();
    let error = service
        .start_import_mod_task(StartImportModTaskRequest { archive_path: String::new() })
        .expect_err("empty path rejected");
    assert_eq!(error, ModImportTaskError::ArchivePathEmpty);
    assert_eq!(error.error_code(), "archive_path_empty");
}

#[test]
fn archive_path_checks_run_in_order() {
    let all = ArchivePathFacts { absolute: true, found: true, is_file: true };
    assert_eq!(check_archive_path("/a.zip", all), Ok(()));
    assert_eq!(
        check_archive_path("/a.zip", ArchivePathFacts { is_file: false, ..all }),
        Err(ModImportTaskError::ArchivePathIsNotFile)
    );
    assert_eq!(
        check_archive_path("/a.zip", ArchivePathFacts { found: false, is_file: false, ..all }),
        Err(ModImportTaskError::ArchiveFileNotFound)
    );
    assert_eq!(
        check_archive_path("", all),
        Err(ModImportTaskError::ArchivePathEmpty)
    );
}

#[test]
fn registry_failures_map_to_stable_import_codes() {
    let error = ModImportTaskError::from(TaskManagerError::TaskIdGenerationFailed("x".into()));
    assert_eq!(error, ModImportTaskError::TaskIdGenerationFailed("x".into()));
    assert_eq!(error.error_code(), "task_id_generation_failed");
    let error = ModImportTaskError::from(TaskManagerError::TaskNotFound("t".into()));
    assert_eq!(error.error_code(), "task_registration_failed");
}
