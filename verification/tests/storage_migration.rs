use hmm_app::ids::GameId;
use hmm_app::metadata::PortFailure;
use hmm_app::storage_migration::{
    queued_mod_storage_migration_event, settle_pending_mod_storage_migration, JournalCalls, MigratorCalls, SettingWrites,
    ModStorageMigrationError, ModStorageMigrationFailure, ModStorageMigrationJournal,
    ModStorageMigrationJournalRepository, ModStorageMigrationPorts, ModStorageMigrationSettlement,
    ModStorageMigrationState, ModStorageMigrationTaskError, ModStorageMigrationTaskService,
    ModStorageMigrator, MOD_STORAGE_MIGRATION_CANCELLED_PHASE, MOD_STORAGE_MIGRATION_COMPLETED_PHASE,
    MOD_STORAGE_MIGRATION_COPYING_PHASE, MOD_STORAGE_MIGRATION_FAILED_PHASE,
    MOD_STORAGE_MIGRATION_JOURNAL_VERSION, MOD_STORAGE_MIGRATION_QUEUED_PHASE,
    MOD_STORAGE_MIGRATION_SWITCHING_PHASE, MOD_STORAGE_MIGRATION_VERIFYING_PHASE,
};
use hmm_app::storage_settings::{
    InspectorCalls,
    GameRootSource, ModStorageDirectoryError, ModStorageDirectoryInspection,
    ModStorageDirectoryInspector,
};
use hmm_app::tasks::{TaskKind, TaskManager, TaskProgressEvent, TaskStatus};
use hmm_app::write_gate::{ModStorageWriteFreeze, ModStorageWriteGate, ModStorageWriteGateError};
use std::cell::{Cell, RefCell};
use std::rc::Rc;

const GAME_ROOT: &str = "/games/mhw";
const DEFAULT_ROOT: &str = "/app-data/mod-import";
const CUSTOM_ROOT: &str = "/srv/hmm-mods";
const OTHER_ROOT: &str = "/srv/other-mods";
/// A directory that exists on the test machine.
const EXISTING_SOURCE_ROOT: &str = "/";
/// A directory that does not exist.
const MISSING_SOURCE_ROOT: &str = "/hmm-missing-source-directory";

fn packages() -> Vec<String> {
    vec!["mod-import-1-0".to_owned(), "mod-import-2-0".to_owned()]
}

#[derive(Default)]
struct FakeMigrator {
    packages: Vec<String>,
    list_error: Option<ModStorageMigrationError>,
    fail_copy_on: Option<String>,
    fail_verify_on: Option<String>,
    fail_remove_on: Option<String>,
    missing_in_target: Vec<String>,
    source_root: String,
    target_root: String,
    /// A cancel request is made right before the call with this label.
    cancel_on: Option<String>,
    calls: RefCell<Vec<String>>,
}

#[derive(Default)]
struct FakeJournal {
    current: RefCell<Option<ModStorageMigrationJournal>>,
    saved: RefCell<Vec<ModStorageMigrationJournal>>,
    cleared: Cell<usize>,
    fail_save_in_state: Option<ModStorageMigrationState>,
    fail_load: bool,
    /// A cancel request is made right before a journal in this state is saved.
    cancel_on_save: Option<ModStorageMigrationState>,
}

#[derive(Default)]
struct FakeSettings {
    stored: RefCell<Option<String>>,
    fail_save: bool,
}

#[derive(Default)]
struct FakeInspector {
    inspect_error: Option<ModStorageDirectoryError>,
    claim_error: Option<ModStorageDirectoryError>,
    overlap_pairs: Vec<(String, String)>,
    inspected: RefCell<Vec<(String, Vec<String>, String)>>,
    claimed: RefCell<Vec<String>>,
}

struct Shared {
    migrator: FakeMigrator,
    journal: FakeJournal,
    settings: FakeSettings,
    inspector: FakeInspector,
    cancel_requested: Cell<bool>,
}

impl Shared {
    fn record(&self, label: String) {
        if self.migrator.cancel_on.as_deref() == Some(label.as_str()) {
            self.cancel_requested.set(true);
        }
        self.migrator.calls.borrow_mut().push(label);
    }

    fn root_label(&self, root: &str) -> &'static str {
        if root == self.migrator.source_root {
            "source"
        } else if root == self.migrator.target_root {
            "target"
        } else {
            "other"
        }
    }

    fn calls(&self) -> Vec<String> {
        self.migrator.calls.borrow().clone()
    }

    fn saved_states(&self) -> Vec<ModStorageMigrationState> {
        self.journal.saved.borrow().iter().map(|journal| journal.state).collect()
    }

    fn current(&self) -> Option<ModStorageMigrationJournal> {
        self.journal.current.borrow().clone()
    }
}

#[derive(Clone)]
struct Migrator(Rc<Shared>);

impl ModStorageMigrator for Migrator {
    // The record exists for the proofs only; nothing reads it at run time.
    fn calls(&self) -> MigratorCalls {
        unreachable!()
    }

    fn list_packages(&mut self, root: &str) -> Result<Vec<String>, ModStorageMigrationError> {
        self.0.record(format!("list:{}", self.0.root_label(root)));
        if let Some(error) = self.0.migrator.list_error {
            return Err(error);
        }
        Ok(self.0.migrator.packages.clone())
    }

    fn copy_package(&mut self, source_root: &str, target_root: &str, package_id: &str) -> Result<(), ModStorageMigrationError> {
        assert_eq!(self.0.root_label(source_root), "source");
        assert_eq!(self.0.root_label(target_root), "target");
        self.0.record(format!("copy:{package_id}"));
        if self.0.cancel_requested.get() {
            return Err(ModStorageMigrationError::Cancelled);
        }
        if self.0.migrator.fail_copy_on.as_deref() == Some(package_id) {
            return Err(ModStorageMigrationError::CopyFailed);
        }
        Ok(())
    }

    fn verify_package(&mut self, _source_root: &str, _target_root: &str, package_id: &str) -> Result<(), ModStorageMigrationError> {
        self.0.record(format!("verify:{package_id}"));
        if self.0.cancel_requested.get() {
            return Err(ModStorageMigrationError::Cancelled);
        }
        if self.0.migrator.fail_verify_on.as_deref() == Some(package_id) {
            return Err(ModStorageMigrationError::VerifyMismatch);
        }
        Ok(())
    }

    fn remove_package(&mut self, root: &str, package_id: &str) -> Result<(), ModStorageMigrationError> {
        self.0.record(format!("remove:{}:{package_id}", self.0.root_label(root)));
        if self.0.migrator.fail_remove_on.as_deref() == Some(package_id) {
            return Err(ModStorageMigrationError::PackageUnreadable);
        }
        Ok(())
    }

    fn package_exists(&mut self, root: &str, package_id: &str) -> Result<bool, ModStorageMigrationError> {
        self.0.record(format!("exists:{}:{package_id}", self.0.root_label(root)));
        Ok(!self.0.migrator.missing_in_target.iter().any(|missing| missing == package_id))
    }
}

#[derive(Clone)]
struct Journal(Rc<Shared>);

impl ModStorageMigrationJournalRepository for Journal {
    // The record exists for the proofs only; nothing reads it at run time.
    fn calls(&self) -> JournalCalls {
        unreachable!()
    }

    fn load(&mut self) -> Result<Option<ModStorageMigrationJournal>, ModStorageMigrationError> {
        if self.0.journal.fail_load {
            return Err(ModStorageMigrationError::JournalUnavailable);
        }
        Ok(self.0.current())
    }

    fn save(&mut self, journal: &ModStorageMigrationJournal) -> Result<(), ModStorageMigrationError> {
        if self.0.journal.cancel_on_save == Some(journal.state) {
            self.0.cancel_requested.set(true);
        }
        if self.0.journal.fail_save_in_state == Some(journal.state) {
            return Err(ModStorageMigrationError::JournalUnavailable);
        }
        self.0.journal.saved.borrow_mut().push(journal.clone());
        *self.0.journal.current.borrow_mut() = Some(journal.clone());
        Ok(())
    }

    fn clear(&mut self) -> Result<(), ModStorageMigrationError> {
        self.0.journal.cleared.set(self.0.journal.cleared.get() + 1);
        *self.0.journal.current.borrow_mut() = None;
        Ok(())
    }
}

#[derive(Clone)]
struct Ports(Rc<Shared>);

impl GameRootSource for Ports {
    fn game_root(&self, _game_id: &GameId) -> Result<Option<String>, PortFailure> {
        Ok(Some(GAME_ROOT.to_owned()))
    }
}

impl ModStorageDirectoryInspector for Ports {
    fn inspector_calls(&self) -> InspectorCalls {
        // The record exists for the proofs only; nothing reads it at run time.
        unreachable!()
    }

    fn inspect(
        &mut self,
        directory: &str,
        exclusive_roots: &Vec<String>,
        current_root: &str,
    ) -> Result<ModStorageDirectoryInspection, ModStorageDirectoryError> {
        self.0.inspector.inspected.borrow_mut().push((
            directory.to_owned(),
            exclusive_roots.clone(),
            current_root.to_owned(),
        ));
        if self.directories_overlap(directory, current_root) {
            return Err(ModStorageDirectoryError::OverlapsCurrentRoot);
        }
        if let Some(error) = &self.0.inspector.inspect_error {
            return Err(error.clone());
        }
        Ok(ModStorageDirectoryInspection { exists: false, claimed: false })
    }

    fn claim(&mut self, directory: &str) -> Result<(), ModStorageDirectoryError> {
        self.0.inspector.claimed.borrow_mut().push(directory.to_owned());
        match &self.0.inspector.claim_error {
            Some(error) => Err(error.clone()),
            None => Ok(()),
        }
    }

    fn sandbox_directory_has_entries(&mut self, _root: &str) -> Result<bool, ModStorageDirectoryError> {
        Ok(true)
    }

    fn directories_overlap(&mut self, left: &str, right: &str) -> bool {
        left == right
            || self
                .0
                .inspector
                .overlap_pairs
                .iter()
                .any(|(a, b)| (a == left && b == right) || (a == right && b == left))
    }
}

impl ModStorageMigrationPorts for Ports {
    // The record exists for the proofs only; nothing reads it at run time.
    fn setting_writes(&self) -> SettingWrites {
        unreachable!()
    }

    fn write_configured(&mut self, directory: &Option<String>) -> Result<(), PortFailure> {
        if self.0.settings.fail_save {
            return Err(PortFailure);
        }
        *self.0.settings.stored.borrow_mut() = directory.clone();
        Ok(())
    }

    fn now_unix_millis(&self) -> Result<u128, PortFailure> {
        Ok(4_200)
    }

    fn cancellation_requested(&self, _task_id: &str) -> bool {
        self.0.cancel_requested.get()
    }
}

struct HarnessOptions {
    effective_root: &'static str,
    configured: Option<&'static str>,
    target_root: &'static str,
    migrator: FakeMigrator,
    journal: FakeJournal,
    settings: FakeSettings,
    inspector: FakeInspector,
}

impl Default for HarnessOptions {
    fn default() -> Self {
        HarnessOptions {
            effective_root: DEFAULT_ROOT,
            configured: None,
            target_root: CUSTOM_ROOT,
            migrator: FakeMigrator { packages: packages(), ..FakeMigrator::default() },
            journal: FakeJournal::default(),
            settings: FakeSettings::default(),
            inspector: FakeInspector::default(),
        }
    }
}

struct Harness {
    tasks: TaskManager,
    gate: ModStorageWriteGate,
    shared: Rc<Shared>,
    service: ModStorageMigrationTaskService<Migrator, Journal, Ports>,
}

fn harness(options: HarnessOptions) -> Harness {
    let shared = Rc::new(Shared {
        migrator: FakeMigrator {
            source_root: options.effective_root.to_owned(),
            target_root: options.target_root.to_owned(),
            ..options.migrator
        },
        journal: options.journal,
        settings: FakeSettings {
            stored: RefCell::new(options.configured.map(str::to_owned)),
            ..options.settings
        },
        inspector: options.inspector,
        cancel_requested: Cell::new(false),
    });
    let service = ModStorageMigrationTaskService::new(
        Migrator(Rc::clone(&shared)),
        Journal(Rc::clone(&shared)),
        Ports(Rc::clone(&shared)),
        vec![GameId::new("mhw")],
        options.effective_root.to_owned(),
        DEFAULT_ROOT.to_owned(),
    );
    Harness { tasks: TaskManager::new(), gate: ModStorageWriteGate::new(), shared, service }
}

impl Harness {
    fn start(&mut self, directory: Option<&str>) -> Result<hmm_app::storage_migration::ModStorageMigrationLaunch, ModStorageMigrationTaskError> {
        self.service.start(&mut self.tasks, &mut self.gate, directory.map(str::to_owned))
    }

    fn run(&mut self, launch: hmm_app::storage_migration::ModStorageMigrationLaunch) -> Result<Vec<TaskProgressEvent>, ModStorageMigrationTaskError> {
        self.service.run(&mut self.tasks, &mut self.gate, launch)
    }

    fn stored_dir(&self) -> Option<String> {
        self.shared.settings.stored.borrow().clone()
    }
}

fn phases(events: &[TaskProgressEvent]) -> Vec<(String, Option<u64>, Option<u64>)> {
    events.iter().map(|event| (event.phase.clone(), event.current, event.total)).collect()
}

#[test]
fn start_inspects_claims_registers_a_queued_task_and_freezes_writes() {
    let mut h = harness(HarnessOptions::default());

    let launch = h.start(Some(CUSTOM_ROOT)).expect("migration starts");

    assert!(launch.task.task_id.starts_with("mod-storage-migration-"));
    assert_eq!(launch.task.kind, TaskKind::ModStorageMigration);
    assert_eq!(launch.task.status, TaskStatus::Queued);
    assert_eq!(launch.source_root, DEFAULT_ROOT);
    assert_eq!(launch.target_root, CUSTOM_ROOT);
    assert_eq!(launch.configured_target.as_deref(), Some(CUSTOM_ROOT));
    assert_eq!(
        h.shared.inspector.inspected.borrow().as_slice(),
        [(CUSTOM_ROOT.to_owned(), vec![GAME_ROOT.to_owned()], DEFAULT_ROOT.to_owned())]
    );
    assert_eq!(h.shared.inspector.claimed.borrow().as_slice(), [CUSTOM_ROOT.to_owned()]);
    assert_eq!(h.gate.freeze(), ModStorageWriteFreeze::Migration);
    assert_eq!(h.tasks.task_status(&launch.task.task_id), Some(TaskStatus::Queued));
    assert!(h.shared.calls().is_empty(), "start does no package IO");
}

#[test]
fn start_is_refused_while_an_import_is_active_and_leaves_the_gate_open() {
    let mut h = harness(HarnessOptions::default());
    let import = h.tasks.create_task(TaskKind::ModImport).expect("import task");

    let error = h.start(Some(CUSTOM_ROOT)).expect_err("active import blocks the migration");

    assert_eq!(error, ModStorageMigrationTaskError::ImportsActive);
    assert_eq!(error.code(), "mod_storage_migration_imports_active");
    assert_eq!(h.gate.freeze(), ModStorageWriteFreeze::Open);
    assert_eq!(h.tasks.has_active_task_of_kind(TaskKind::ModStorageMigration), Ok(false));

    h.tasks.fail_task(&import.task_id).expect("import ends");
    h.start(Some(CUSTOM_ROOT)).expect("migration starts once the import ended");
}

#[test]
fn start_is_refused_while_writes_are_frozen_before_touching_the_target() {
    let mut h = harness(HarnessOptions::default());
    h.gate
        .admit_root_switch(|| Ok::<(), ()>(()))
        .expect("switch admitted")
        .expect("switch write");

    let error = h.start(Some(CUSTOM_ROOT)).expect_err("frozen gate refuses");

    assert_eq!(error.code(), "mod_storage_restart_required");
    assert!(h.shared.inspector.claimed.borrow().is_empty());
}

#[test]
fn start_refuses_the_current_root_and_a_default_target_when_the_default_is_in_effect() {
    let mut h = harness(HarnessOptions::default());

    assert_eq!(
        h.start(Some(DEFAULT_ROOT)),
        Err(ModStorageMigrationTaskError::Directory(ModStorageDirectoryError::OverlapsCurrentRoot))
    );
    assert_eq!(
        h.start(None),
        Err(ModStorageMigrationTaskError::Directory(ModStorageDirectoryError::OverlapsCurrentRoot))
    );
    assert_eq!(h.gate.freeze(), ModStorageWriteFreeze::Open);
    assert!(h.shared.inspector.claimed.borrow().is_empty());
}

#[test]
fn start_back_to_the_default_root_skips_marker_handling_but_still_checks_nesting() {
    let mut to_default = harness(HarnessOptions {
        effective_root: CUSTOM_ROOT,
        configured: Some(CUSTOM_ROOT),
        target_root: DEFAULT_ROOT,
        ..HarnessOptions::default()
    });

    let launch = to_default.start(None).expect("migration to default");

    assert_eq!(launch.target_root, DEFAULT_ROOT);
    assert_eq!(launch.configured_target, None);
    assert!(to_default.shared.inspector.inspected.borrow().is_empty());
    assert!(to_default.shared.inspector.claimed.borrow().is_empty());

    let mut nested = harness(HarnessOptions {
        effective_root: CUSTOM_ROOT,
        configured: Some(CUSTOM_ROOT),
        target_root: DEFAULT_ROOT,
        inspector: FakeInspector {
            overlap_pairs: vec![(DEFAULT_ROOT.to_owned(), CUSTOM_ROOT.to_owned())],
            ..FakeInspector::default()
        },
        ..HarnessOptions::default()
    });
    assert_eq!(
        nested.start(None),
        Err(ModStorageMigrationTaskError::Directory(ModStorageDirectoryError::OverlapsCurrentRoot))
    );
}

#[test]
fn start_does_not_freeze_when_claiming_fails() {
    let mut h = harness(HarnessOptions {
        inspector: FakeInspector {
            claim_error: Some(ModStorageDirectoryError::NotWritable),
            ..FakeInspector::default()
        },
        ..HarnessOptions::default()
    });

    let error = h.start(Some(CUSTOM_ROOT)).expect_err("claim failure");

    assert_eq!(error.code(), "mod_storage_dir_not_writable");
    assert_eq!(h.gate.freeze(), ModStorageWriteFreeze::Open);
}

#[test]
fn run_copies_verifies_every_package_then_switches_and_freezes_until_restart() {
    let mut h = harness(HarnessOptions::default());
    let launch = h.start(Some(CUSTOM_ROOT)).expect("migration starts");
    assert_eq!(queued_mod_storage_migration_event(&launch).phase, MOD_STORAGE_MIGRATION_QUEUED_PHASE);

    let events = h.run(launch.clone()).expect("runner");

    assert_eq!(
        phases(&events),
        vec![
            (MOD_STORAGE_MIGRATION_COPYING_PHASE.to_owned(), Some(0), Some(2)),
            (MOD_STORAGE_MIGRATION_VERIFYING_PHASE.to_owned(), Some(0), Some(2)),
            (MOD_STORAGE_MIGRATION_COPYING_PHASE.to_owned(), Some(1), Some(2)),
            (MOD_STORAGE_MIGRATION_VERIFYING_PHASE.to_owned(), Some(1), Some(2)),
            (MOD_STORAGE_MIGRATION_SWITCHING_PHASE.to_owned(), Some(2), Some(2)),
            (MOD_STORAGE_MIGRATION_COMPLETED_PHASE.to_owned(), Some(2), Some(2)),
        ]
    );
    assert!(events.iter().all(|event| event.error.is_none()));
    assert_eq!(events.last().expect("terminal").status, TaskStatus::Completed);
    assert_eq!(
        h.shared.calls(),
        vec![
            "list:source",
            "copy:mod-import-1-0",
            "verify:mod-import-1-0",
            "copy:mod-import-2-0",
            "verify:mod-import-2-0",
        ]
    );
    assert_eq!(h.shared.saved_states(), vec![ModStorageMigrationState::Copying, ModStorageMigrationState::Switched]);
    let journal = h.shared.current().expect("journal kept for startup cleanup");
    assert_eq!(journal.state, ModStorageMigrationState::Switched);
    assert_eq!(journal.source_root, DEFAULT_ROOT);
    assert_eq!(journal.target_root, CUSTOM_ROOT);
    assert_eq!(journal.packages, packages());
    assert_eq!(journal.started_at_unix_millis, 4_200);
    assert_eq!(h.shared.journal.cleared.get(), 0);
    assert_eq!(h.stored_dir().as_deref(), Some(CUSTOM_ROOT));
    assert_eq!(h.gate.freeze(), ModStorageWriteFreeze::RestartRequired);
    assert_eq!(h.tasks.task_status(&launch.task.task_id), Some(TaskStatus::Completed));
}

#[test]
fn run_back_to_the_default_root_clears_the_setting() {
    let mut h = harness(HarnessOptions {
        effective_root: CUSTOM_ROOT,
        configured: Some(CUSTOM_ROOT),
        target_root: DEFAULT_ROOT,
        ..HarnessOptions::default()
    });
    let launch = h.start(None).expect("migration starts");

    let events = h.run(launch).expect("runner");

    assert_eq!(events.last().expect("terminal").phase, MOD_STORAGE_MIGRATION_COMPLETED_PHASE);
    assert_eq!(h.stored_dir(), None);
    assert_eq!(h.shared.current().expect("journal").target_root, DEFAULT_ROOT);
}

#[test]
fn run_rolls_back_every_copy_when_a_package_fails_to_copy() {
    let mut h = harness(HarnessOptions {
        migrator: FakeMigrator {
            packages: packages(),
            fail_copy_on: Some("mod-import-2-0".to_owned()),
            ..FakeMigrator::default()
        },
        ..HarnessOptions::default()
    });
    let launch = h.start(Some(CUSTOM_ROOT)).expect("migration starts");

    let events = h.run(launch.clone()).expect("runner");

    let terminal = events.last().expect("terminal");
    assert_eq!(terminal.phase, MOD_STORAGE_MIGRATION_FAILED_PHASE);
    assert_eq!(terminal.status, TaskStatus::Failed);
    assert_eq!(terminal.error.as_deref(), Some("mod_storage_migration_copy_failed"));
    assert_eq!(
        h.shared.calls(),
        vec![
            "list:source",
            "copy:mod-import-1-0",
            "verify:mod-import-1-0",
            "copy:mod-import-2-0",
            "remove:target:mod-import-1-0",
            "remove:target:mod-import-2-0",
        ]
    );
    assert_eq!(h.shared.saved_states(), vec![ModStorageMigrationState::Copying]);
    assert_eq!(h.shared.journal.cleared.get(), 1);
    assert_eq!(h.shared.current(), None);
    assert_eq!(h.stored_dir(), None);
    assert_eq!(h.gate.freeze(), ModStorageWriteFreeze::Open);
    assert_eq!(h.tasks.task_status(&launch.task.task_id), Some(TaskStatus::Failed));
}

#[test]
fn run_rolls_back_when_verification_finds_a_mismatch() {
    let mut h = harness(HarnessOptions {
        migrator: FakeMigrator {
            packages: packages(),
            fail_verify_on: Some("mod-import-1-0".to_owned()),
            ..FakeMigrator::default()
        },
        ..HarnessOptions::default()
    });
    let launch = h.start(Some(CUSTOM_ROOT)).expect("migration starts");

    let events = h.run(launch).expect("runner");

    assert_eq!(events.last().expect("terminal").error.as_deref(), Some("mod_storage_migration_verify_mismatch"));
    assert_eq!(
        h.shared.calls(),
        vec!["list:source", "copy:mod-import-1-0", "verify:mod-import-1-0", "remove:target:mod-import-1-0"]
    );
    assert_eq!(h.stored_dir(), None);
    assert_eq!(h.gate.freeze(), ModStorageWriteFreeze::Open);
}

#[test]
fn run_keeps_the_journal_when_rollback_cannot_remove_a_copy() {
    let mut h = harness(HarnessOptions {
        migrator: FakeMigrator {
            packages: packages(),
            fail_copy_on: Some("mod-import-2-0".to_owned()),
            fail_remove_on: Some("mod-import-1-0".to_owned()),
            ..FakeMigrator::default()
        },
        ..HarnessOptions::default()
    });
    let launch = h.start(Some(CUSTOM_ROOT)).expect("migration starts");

    let events = h.run(launch).expect("runner");

    assert_eq!(events.last().expect("terminal").error.as_deref(), Some("mod_storage_migration_copy_failed"));
    assert_eq!(h.shared.journal.cleared.get(), 0);
    assert_eq!(h.shared.current().expect("journal kept").state, ModStorageMigrationState::Copying);
    assert_eq!(h.gate.freeze(), ModStorageWriteFreeze::Open);
    assert_eq!(h.stored_dir(), None);
}

#[test]
fn run_rolls_back_when_the_settings_write_fails_after_all_packages_passed() {
    let mut h = harness(HarnessOptions {
        settings: FakeSettings { fail_save: true, ..FakeSettings::default() },
        ..HarnessOptions::default()
    });
    let launch = h.start(Some(CUSTOM_ROOT)).expect("migration starts");

    let events = h.run(launch.clone()).expect("runner");

    let terminal = events.last().expect("terminal");
    assert_eq!(terminal.status, TaskStatus::Failed);
    assert_eq!(terminal.error.as_deref(), Some("mod_storage_migration_settings_unavailable"));
    assert_eq!(h.shared.saved_states(), vec![ModStorageMigrationState::Copying, ModStorageMigrationState::Switched]);
    assert_eq!(h.shared.current(), None, "switched journal rolled back");
    assert_eq!(h.shared.calls().iter().filter(|call| call.starts_with("remove:target:")).count(), 2);
    assert_eq!(h.gate.freeze(), ModStorageWriteFreeze::Open);
    assert_eq!(h.tasks.task_status(&launch.task.task_id), Some(TaskStatus::Failed));
}

#[test]
fn run_fails_without_copying_when_the_journal_cannot_be_written() {
    let mut h = harness(HarnessOptions {
        journal: FakeJournal { fail_save_in_state: Some(ModStorageMigrationState::Copying), ..FakeJournal::default() },
        ..HarnessOptions::default()
    });
    let launch = h.start(Some(CUSTOM_ROOT)).expect("migration starts");

    let events = h.run(launch).expect("runner");

    assert_eq!(events.last().expect("terminal").error.as_deref(), Some("mod_storage_migration_journal_unavailable"));
    assert_eq!(h.shared.calls(), vec!["list:source"]);
    assert_eq!(h.gate.freeze(), ModStorageWriteFreeze::Open);
}

#[test]
fn cancelling_between_packages_rolls_back_and_reopens_the_gate() {
    let mut h = harness(HarnessOptions {
        migrator: FakeMigrator {
            packages: packages(),
            cancel_on: Some("verify:mod-import-1-0".to_owned()),
            ..FakeMigrator::default()
        },
        ..HarnessOptions::default()
    });
    let launch = h.start(Some(CUSTOM_ROOT)).expect("migration starts");

    let events = h.run(launch.clone()).expect("runner");

    let terminal = events.last().expect("terminal");
    assert_eq!(terminal.phase, MOD_STORAGE_MIGRATION_CANCELLED_PHASE);
    assert_eq!(terminal.status, TaskStatus::Cancelled);
    assert_eq!(terminal.error, None);
    assert_eq!(
        h.shared.calls(),
        vec!["list:source", "copy:mod-import-1-0", "verify:mod-import-1-0", "remove:target:mod-import-1-0"]
    );
    assert_eq!(h.shared.current(), None);
    assert_eq!(h.stored_dir(), None);
    assert_eq!(h.gate.freeze(), ModStorageWriteFreeze::Open);
    assert_eq!(h.tasks.task_status(&launch.task.task_id), Some(TaskStatus::Cancelled));
}

#[test]
fn a_cancel_request_during_the_switch_is_deferred_and_the_switch_completes() {
    let mut h = harness(HarnessOptions {
        journal: FakeJournal { cancel_on_save: Some(ModStorageMigrationState::Switched), ..FakeJournal::default() },
        ..HarnessOptions::default()
    });
    let launch = h.start(Some(CUSTOM_ROOT)).expect("migration starts");

    let events = h.run(launch.clone()).expect("runner");

    assert!(h.shared.cancel_requested.get(), "the request was made during the switch");
    assert_eq!(events.last().expect("terminal").phase, MOD_STORAGE_MIGRATION_COMPLETED_PHASE);
    assert_eq!(h.stored_dir().as_deref(), Some(CUSTOM_ROOT));
    assert_eq!(h.gate.freeze(), ModStorageWriteFreeze::RestartRequired);
    assert_eq!(h.tasks.task_status(&launch.task.task_id), Some(TaskStatus::Completed));
    assert!(h.tasks.cancel_task(&launch.task.task_id).is_err(), "a completed migration cannot be cancelled");
}

#[test]
fn a_launch_cancelled_before_running_emits_only_the_cancelled_event() {
    let mut h = harness(HarnessOptions::default());
    let launch = h.start(Some(CUSTOM_ROOT)).expect("migration starts");
    h.tasks.cancel_task(&launch.task.task_id).expect("cancel queued task");

    let events = h.run(launch).expect("runner");

    assert_eq!(phases(&events), vec![(MOD_STORAGE_MIGRATION_CANCELLED_PHASE.to_owned(), None, None)]);
    assert!(h.shared.calls().is_empty());
    assert_eq!(h.gate.freeze(), ModStorageWriteFreeze::Open);
}

#[test]
fn abort_queued_fails_the_task_and_reopens_the_gate() {
    let mut h = harness(HarnessOptions::default());
    let launch = h.start(Some(CUSTOM_ROOT)).expect("migration starts");

    h.service.abort_queued(&mut h.tasks, &mut h.gate, &launch).expect("abort queued launch");

    assert_eq!(h.tasks.task_status(&launch.task.task_id), Some(TaskStatus::Failed));
    assert_eq!(h.gate.freeze(), ModStorageWriteFreeze::Open);
    assert_eq!(h.service.abort_queued(&mut h.tasks, &mut h.gate, &launch), Ok(()));
}

#[test]
fn task_error_codes_are_stable() {
    assert_eq!(ModStorageMigrationTaskError::TaskUnavailable.code(), "mod_storage_migration_task_unavailable");
    assert_eq!(ModStorageMigrationTaskError::GameConfigUnavailable.code(), "game_config_unavailable");
    assert_eq!(
        ModStorageMigrationTaskError::Gate(ModStorageWriteGateError::MigrationInProgress).code(),
        "mod_storage_migration_in_progress"
    );
    assert_eq!(
        ModStorageMigrationFailure::Migration(ModStorageMigrationError::Cancelled).code(),
        "mod_storage_migration_cancelled"
    );
}

fn pending_journal(state: ModStorageMigrationState, source_root: &str) -> ModStorageMigrationJournal {
    ModStorageMigrationJournal {
        version: MOD_STORAGE_MIGRATION_JOURNAL_VERSION,
        state,
        source_root: source_root.to_owned(),
        target_root: CUSTOM_ROOT.to_owned(),
        packages: packages(),
        started_at_unix_millis: 1,
    }
}

fn settlement_fixture(
    source_root: &str,
    migrator: FakeMigrator,
    journal: FakeJournal,
) -> (Journal, Migrator, Rc<Shared>) {
    let shared = Rc::new(Shared {
        migrator: FakeMigrator {
            source_root: source_root.to_owned(),
            target_root: CUSTOM_ROOT.to_owned(),
            ..migrator
        },
        journal,
        settings: FakeSettings::default(),
        inspector: FakeInspector::default(),
        cancel_requested: Cell::new(false),
    });
    (Journal(Rc::clone(&shared)), Migrator(Rc::clone(&shared)), shared)
}

fn with_pending(journal: ModStorageMigrationJournal) -> FakeJournal {
    FakeJournal { current: RefCell::new(Some(journal)), ..FakeJournal::default() }
}

#[test]
fn settlement_without_a_journal_does_nothing() {
    let (mut journal, mut migrator, shared) =
        settlement_fixture(EXISTING_SOURCE_ROOT, FakeMigrator::default(), FakeJournal::default());

    let settlement = settle_pending_mod_storage_migration(&mut journal, &mut migrator, Some(CUSTOM_ROOT));

    assert_eq!(settlement, ModStorageMigrationSettlement::NoJournal);
    assert!(shared.calls().is_empty());
}

#[test]
fn settlement_cleans_the_source_once_the_switched_target_is_in_effect() {
    let (mut journal, mut migrator, shared) = settlement_fixture(
        EXISTING_SOURCE_ROOT,
        FakeMigrator::default(),
        with_pending(pending_journal(ModStorageMigrationState::Switched, EXISTING_SOURCE_ROOT)),
    );

    let settlement = settle_pending_mod_storage_migration(&mut journal, &mut migrator, Some(CUSTOM_ROOT));

    assert_eq!(settlement, ModStorageMigrationSettlement::SourceCleaned { package_count: 2 });
    assert_eq!(
        shared.calls(),
        vec![
            "exists:target:mod-import-1-0",
            "exists:target:mod-import-2-0",
            "remove:source:mod-import-1-0",
            "remove:source:mod-import-2-0",
        ]
    );
    assert_eq!(shared.journal.cleared.get(), 1);
    assert_eq!(shared.current(), None);
}

#[test]
fn settlement_keeps_the_journal_when_a_target_package_is_missing() {
    let (mut journal, mut migrator, shared) = settlement_fixture(
        EXISTING_SOURCE_ROOT,
        FakeMigrator { missing_in_target: vec!["mod-import-2-0".to_owned()], ..FakeMigrator::default() },
        with_pending(pending_journal(ModStorageMigrationState::Switched, EXISTING_SOURCE_ROOT)),
    );

    let settlement = settle_pending_mod_storage_migration(&mut journal, &mut migrator, Some(CUSTOM_ROOT));

    assert_eq!(
        settlement,
        ModStorageMigrationSettlement::CleanupBlocked(ModStorageMigrationError::TargetPackageMissing)
    );
    assert!(shared.calls().iter().all(|call| call.starts_with("exists:")));
    assert_eq!(shared.journal.cleared.get(), 0);
}

#[test]
fn settlement_keeps_the_journal_while_the_source_root_is_unavailable() {
    let (mut journal, mut migrator, shared) = settlement_fixture(
        MISSING_SOURCE_ROOT,
        FakeMigrator::default(),
        with_pending(pending_journal(ModStorageMigrationState::Switched, MISSING_SOURCE_ROOT)),
    );

    let settlement = settle_pending_mod_storage_migration(&mut journal, &mut migrator, Some(CUSTOM_ROOT));

    assert_eq!(
        settlement,
        ModStorageMigrationSettlement::CleanupBlocked(ModStorageMigrationError::SourceUnavailable)
    );
    assert!(shared.calls().is_empty());
    assert_eq!(shared.journal.cleared.get(), 0);
}

#[test]
fn settlement_rolls_back_a_copying_journal_from_the_target() {
    let (mut journal, mut migrator, shared) = settlement_fixture(
        EXISTING_SOURCE_ROOT,
        FakeMigrator::default(),
        with_pending(pending_journal(ModStorageMigrationState::Copying, EXISTING_SOURCE_ROOT)),
    );

    let settlement = settle_pending_mod_storage_migration(&mut journal, &mut migrator, Some(EXISTING_SOURCE_ROOT));

    assert_eq!(settlement, ModStorageMigrationSettlement::RolledBack { package_count: 2 });
    assert_eq!(shared.calls(), vec!["remove:target:mod-import-1-0", "remove:target:mod-import-2-0"]);
    assert_eq!(shared.current(), None);
}

#[test]
fn settlement_rolls_back_a_switched_journal_whose_setting_never_switched() {
    let (mut journal, mut migrator, shared) = settlement_fixture(
        EXISTING_SOURCE_ROOT,
        FakeMigrator::default(),
        with_pending(pending_journal(ModStorageMigrationState::Switched, EXISTING_SOURCE_ROOT)),
    );

    let settlement = settle_pending_mod_storage_migration(&mut journal, &mut migrator, Some(EXISTING_SOURCE_ROOT));

    assert_eq!(settlement, ModStorageMigrationSettlement::RolledBack { package_count: 2 });
    assert!(shared.calls().iter().all(|call| call.starts_with("remove:target:")));
}

#[test]
fn settlement_reports_a_blocked_rollback_and_keeps_the_journal() {
    let (mut journal, mut migrator, shared) = settlement_fixture(
        EXISTING_SOURCE_ROOT,
        FakeMigrator { fail_remove_on: Some("mod-import-1-0".to_owned()), ..FakeMigrator::default() },
        with_pending(pending_journal(ModStorageMigrationState::Copying, EXISTING_SOURCE_ROOT)),
    );

    let settlement = settle_pending_mod_storage_migration(&mut journal, &mut migrator, Some(EXISTING_SOURCE_ROOT));

    assert_eq!(
        settlement,
        ModStorageMigrationSettlement::RollbackBlocked(ModStorageMigrationError::PackageUnreadable)
    );
    assert_eq!(shared.journal.cleared.get(), 0);
}

#[test]
fn settlement_defers_when_no_action_is_safe() {
    let (mut journal, mut migrator, shared) = settlement_fixture(
        EXISTING_SOURCE_ROOT,
        FakeMigrator::default(),
        with_pending(pending_journal(ModStorageMigrationState::Copying, EXISTING_SOURCE_ROOT)),
    );

    assert_eq!(settle_pending_mod_storage_migration(&mut journal, &mut migrator, None), ModStorageMigrationSettlement::Deferred);
    assert_eq!(
        settle_pending_mod_storage_migration(&mut journal, &mut migrator, Some(CUSTOM_ROOT)),
        ModStorageMigrationSettlement::Deferred
    );
    assert!(shared.calls().is_empty());
    assert_eq!(shared.journal.cleared.get(), 0);

    let (mut unreadable, mut migrator, _) = settlement_fixture(
        EXISTING_SOURCE_ROOT,
        FakeMigrator::default(),
        FakeJournal { fail_load: true, ..FakeJournal::default() },
    );
    assert_eq!(
        settle_pending_mod_storage_migration(&mut unreadable, &mut migrator, Some(OTHER_ROOT)),
        ModStorageMigrationSettlement::JournalUnreadable(ModStorageMigrationError::JournalUnavailable)
    );
}

#[test]
fn settlement_compares_roots_as_paths_not_as_text() {
    let (mut journal, mut migrator, shared) = settlement_fixture(
        EXISTING_SOURCE_ROOT,
        FakeMigrator::default(),
        with_pending(pending_journal(ModStorageMigrationState::Switched, EXISTING_SOURCE_ROOT)),
    );

    let settlement = settle_pending_mod_storage_migration(&mut journal, &mut migrator, Some("/srv/hmm-mods/"));

    assert_eq!(settlement, ModStorageMigrationSettlement::SourceCleaned { package_count: 2 });
    assert_eq!(
        shared.calls(),
        vec![
            "exists:target:mod-import-1-0",
            "exists:target:mod-import-2-0",
            "remove:source:mod-import-1-0",
            "remove:source:mod-import-2-0",
        ]
    );
}

#[test]
fn start_refuses_the_current_root_written_with_a_trailing_separator() {
    let mut h = harness(HarnessOptions::default());

    assert_eq!(
        h.start(Some("/app-data/mod-import/")),
        Err(ModStorageMigrationTaskError::Directory(ModStorageDirectoryError::OverlapsCurrentRoot))
    );
    assert_eq!(h.gate.freeze(), ModStorageWriteFreeze::Open);
}
