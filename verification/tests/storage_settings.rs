use hmm_app::ids::GameId;
use hmm_app::metadata::PortFailure;
use hmm_app::storage_settings::{
    InspectorCalls,
    GameRootSource, ModStorageDirectoryError, ModStorageDirectoryInspection,
    ModStorageDirectoryInspector, ModStorageDirectoryValidation, ModStorageSettingsError,
    ModStorageSettingsPorts, ModStorageSettingsService, ModStorageSettingsSnapshot,
};
use hmm_app::write_gate::{ModStorageWriteFreeze, ModStorageWriteGate, ModStorageWriteGateError};
use std::cell::RefCell;
use std::rc::Rc;

const GAME_ROOT: &str = "/games/mhw";
const CANDIDATE: &str = "/srv/hmm-mods";
const DEFAULT_ROOT: &str = "/app-data/mod-import";

type InspectionRecord = (String, Vec<String>, String);

struct FakePorts {
    stored: RefCell<Option<String>>,
    fail_load: bool,
    revisions: usize,
    inspect_result: Result<ModStorageDirectoryInspection, ModStorageDirectoryError>,
    claim_result: Result<(), ModStorageDirectoryError>,
    sandbox_has_entries: bool,
    overlap_pairs: Vec<(String, String)>,
    inspected: RefCell<Vec<InspectionRecord>>,
    claimed: RefCell<Vec<String>>,
}

impl Default for FakePorts {
    fn default() -> Self {
        FakePorts {
            stored: RefCell::new(None),
            fail_load: false,
            revisions: 0,
            inspect_result: Ok(ModStorageDirectoryInspection { exists: false, claimed: false }),
            claim_result: Ok(()),
            sandbox_has_entries: false,
            overlap_pairs: Vec::new(),
            inspected: RefCell::new(Vec::new()),
            claimed: RefCell::new(Vec::new()),
        }
    }
}

#[derive(Clone)]
struct Ports(Rc<FakePorts>);

impl std::ops::Deref for Ports {
    type Target = FakePorts;

    fn deref(&self) -> &FakePorts {
        &self.0
    }
}

impl GameRootSource for Ports {
    fn game_root(&self, game_id: &GameId) -> Result<Option<String>, PortFailure> {
        Ok(if game_id.as_str() == "mhw" { Some(GAME_ROOT.to_owned()) } else { None })
    }
}

impl ModStorageDirectoryInspector for Ports {
    fn inspector_calls(&self) -> InspectorCalls {
        // The record exists for the proofs only; nothing reads it at run time.
        unreachable!()
    }

    fn inspect(
        &mut self,
        directory: &str,
        exclusive_roots: &Vec<String>,
        current_root: &str,
    ) -> Result<ModStorageDirectoryInspection, ModStorageDirectoryError> {
        self.inspected.borrow_mut().push((
            directory.to_owned(),
            exclusive_roots.clone(),
            current_root.to_owned(),
        ));
        for root in exclusive_roots {
            if self.directories_overlap(directory, root) {
                return Err(ModStorageDirectoryError::OverlapsGameRoot);
            }
        }
        if self.directories_overlap(directory, current_root) {
            return Err(ModStorageDirectoryError::OverlapsCurrentRoot);
        }
        self.inspect_result.clone()
    }

    fn claim(&mut self, directory: &str) -> Result<(), ModStorageDirectoryError> {
        self.claimed.borrow_mut().push(directory.to_owned());
        self.claim_result.clone()
    }

    fn sandbox_directory_has_entries(&mut self, _root: &str) -> Result<bool, ModStorageDirectoryError> {
        Ok(self.sandbox_has_entries)
    }

    fn directories_overlap(&mut self, left: &str, right: &str) -> bool {
        self.overlap_pairs
            .iter()
            .any(|(a, b)| (a == left && b == right) || (a == right && b == left))
    }
}

impl ModStorageSettingsPorts for Ports {
    fn configured(&self) -> Result<Option<String>, PortFailure> {
        if self.fail_load {
            return Err(PortFailure);
        }
        Ok(self.stored.borrow().clone())
    }

    fn write_configured(&self, directory: &Option<String>) -> Result<(), PortFailure> {
        *self.stored.borrow_mut() = directory.clone();
        Ok(())
    }

    fn catalog_revision_count(&self) -> Result<usize, PortFailure> {
        Ok(self.revisions)
    }
}

struct Harness {
    ports: Rc<FakePorts>,
    gate: ModStorageWriteGate,
    service: ModStorageSettingsService<Ports>,
}

fn harness(ports: FakePorts, startup_configured: Option<&str>) -> Harness {
    let ports = Rc::new(ports);
    let service = ModStorageSettingsService::new(
        Ports(Rc::clone(&ports)),
        vec![GameId::new("mhw")],
        startup_configured.unwrap_or(DEFAULT_ROOT).to_owned(),
        DEFAULT_ROOT.to_owned(),
        startup_configured.map(str::to_owned),
    );
    Harness { ports, gate: ModStorageWriteGate::new(), service }
}

#[test]
fn get_reports_default_root_and_empty_library_without_restart() {
    let mut h = harness(FakePorts::default(), None);

    let snapshot = h.service.get(&h.gate).expect("snapshot");

    assert_eq!(
        snapshot,
        ModStorageSettingsSnapshot {
            effective_root: DEFAULT_ROOT.to_owned(),
            default_root: DEFAULT_ROOT.to_owned(),
            configured: None,
            library_empty: true,
            restart_required: false,
            writes_frozen: ModStorageWriteFreeze::Open,
        }
    );
}

#[test]
fn validate_passes_configured_game_roots_to_the_inspector_and_reports_verdicts() {
    let mut h = harness(FakePorts::default(), None);

    let verdict = h.service.validate(CANDIDATE).expect("validate");

    assert_eq!(
        verdict,
        ModStorageDirectoryValidation { ok: true, code: None, exists: false, claimed: false }
    );
    assert_eq!(
        h.ports.inspected.borrow().as_slice(),
        [(CANDIDATE.to_owned(), vec![GAME_ROOT.to_owned()], DEFAULT_ROOT.to_owned())]
    );
}

#[test]
fn validate_reports_a_candidate_overlapping_the_current_root() {
    let ports = FakePorts {
        overlap_pairs: vec![(CANDIDATE.to_owned(), DEFAULT_ROOT.to_owned())],
        ..FakePorts::default()
    };
    let mut h = harness(ports, None);

    let verdict = h.service.validate(CANDIDATE).expect("validate");

    assert_eq!(verdict.code.as_deref(), Some("mod_storage_dir_overlaps_current_root"));
    assert_eq!(
        h.service.set(&mut h.gate, Some(CANDIDATE.to_owned())).expect_err("set enforces the same rule"),
        ModStorageSettingsError::Directory(ModStorageDirectoryError::OverlapsCurrentRoot)
    );
}

#[test]
fn validate_turns_inspector_errors_into_stable_codes_without_failing() {
    let ports = FakePorts {
        inspect_result: Err(ModStorageDirectoryError::MarkerRequired),
        ..FakePorts::default()
    };
    let mut h = harness(ports, None);

    let verdict = h.service.validate(CANDIDATE).expect("validate");

    assert_eq!(
        verdict,
        ModStorageDirectoryValidation {
            ok: false,
            code: Some("mod_storage_dir_marker_required".to_owned()),
            exists: false,
            claimed: false,
        }
    );
}

#[test]
fn set_with_an_empty_library_claims_the_directory_and_persists_it() {
    let mut h = harness(FakePorts::default(), None);

    let snapshot = h.service.set(&mut h.gate, Some(CANDIDATE.to_owned())).expect("set storage directory");

    assert_eq!(h.ports.claimed.borrow().as_slice(), [CANDIDATE.to_owned()]);
    assert_eq!(*h.ports.stored.borrow(), Some(CANDIDATE.to_owned()));
    assert_eq!(snapshot.configured, Some(CANDIDATE.to_owned()));
    assert!(snapshot.restart_required);
    assert_eq!(snapshot.effective_root, DEFAULT_ROOT);
    assert_eq!(snapshot.writes_frozen, ModStorageWriteFreeze::RestartRequired);
    assert_eq!(h.gate.ensure_open().map_err(|error| error.code()), Err("mod_storage_restart_required"));
}

#[test]
fn set_is_refused_while_a_migration_runs_and_after_a_switch_without_touching_the_directory() {
    let mut h = harness(FakePorts::default(), None);
    h.gate
        .begin_migration(|| Ok::<(), ModStorageWriteGateError>(()))
        .expect("migration admitted");

    let error = h.service.set(&mut h.gate, Some(CANDIDATE.to_owned())).expect_err("frozen gate refuses the change");

    assert_eq!(error.code(), "mod_storage_migration_in_progress");
    assert!(h.ports.claimed.borrow().is_empty());
    assert_eq!(*h.ports.stored.borrow(), None);

    h.gate.end_migration(true);
    assert_eq!(
        h.service
            .set(&mut h.gate, Some(CANDIDATE.to_owned()))
            .expect_err("a switched root waits for the restart")
            .code(),
        "mod_storage_restart_required"
    );
    assert_eq!(h.service.get(&h.gate).expect("snapshot").writes_frozen, ModStorageWriteFreeze::RestartRequired);
}

#[test]
fn set_refuses_while_the_catalog_holds_revisions() {
    let mut h = harness(FakePorts { revisions: 1, ..FakePorts::default() }, None);

    let error = h.service.set(&mut h.gate, Some(CANDIDATE.to_owned())).expect_err("non-empty library requires migration");

    assert_eq!(error, ModStorageSettingsError::MigrationRequired);
    assert_eq!(error.code(), "mod_storage_migration_required");
    assert!(h.ports.claimed.borrow().is_empty());
    assert_eq!(*h.ports.stored.borrow(), None);
}

#[test]
fn set_refuses_while_the_sandbox_directory_holds_entries_even_with_an_empty_catalog() {
    let mut h = harness(FakePorts { sandbox_has_entries: true, ..FakePorts::default() }, None);

    let error = h.service.set(&mut h.gate, Some(CANDIDATE.to_owned())).expect_err("orphan sandboxes require migration");

    assert_eq!(error, ModStorageSettingsError::MigrationRequired);
    assert!(!h.service.get(&h.gate).expect("snapshot").library_empty);
}

#[test]
fn set_rejects_a_directory_overlapping_a_game_root_before_claiming() {
    let ports = FakePorts {
        overlap_pairs: vec![(CANDIDATE.to_owned(), GAME_ROOT.to_owned())],
        ..FakePorts::default()
    };
    let mut h = harness(ports, None);

    let error = h.service.set(&mut h.gate, Some(CANDIDATE.to_owned())).expect_err("overlap must be rejected");

    assert_eq!(error, ModStorageSettingsError::Directory(ModStorageDirectoryError::OverlapsGameRoot));
    assert!(h.ports.claimed.borrow().is_empty());
}

#[test]
fn set_does_not_persist_when_claiming_fails() {
    let ports = FakePorts { claim_result: Err(ModStorageDirectoryError::NotWritable), ..FakePorts::default() };
    let mut h = harness(ports, None);

    let error = h.service.set(&mut h.gate, Some(CANDIDATE.to_owned())).expect_err("claim failure fails the change");

    assert_eq!(error.code(), "mod_storage_dir_not_writable");
    assert_eq!(*h.ports.stored.borrow(), None);
    assert_eq!(h.gate.freeze(), ModStorageWriteFreeze::Open);
}

#[test]
fn set_to_none_restores_the_default_and_reports_restart_when_it_changes() {
    let ports = FakePorts { stored: RefCell::new(Some(CANDIDATE.to_owned())), ..FakePorts::default() };
    let mut h = harness(ports, Some(CANDIDATE));

    let snapshot = h.service.set(&mut h.gate, None).expect("reset to default");

    assert_eq!(snapshot.configured, None);
    assert!(snapshot.restart_required);
    assert_eq!(snapshot.effective_root, CANDIDATE);
    assert!(h.ports.claimed.borrow().is_empty());
}

#[test]
fn set_to_the_same_value_is_a_no_op_even_with_a_full_library() {
    let ports = FakePorts {
        stored: RefCell::new(Some(CANDIDATE.to_owned())),
        revisions: 1,
        ..FakePorts::default()
    };
    let mut h = harness(ports, Some(CANDIDATE));

    let snapshot = h.service.set(&mut h.gate, Some(CANDIDATE.to_owned())).expect("re-setting the current value");

    assert!(!snapshot.restart_required);
    assert!(!snapshot.library_empty);
    assert!(h.ports.claimed.borrow().is_empty());
}

#[test]
fn unreadable_settings_surface_as_settings_unavailable() {
    let mut h = harness(FakePorts { fail_load: true, ..FakePorts::default() }, None);

    assert_eq!(h.service.get(&h.gate).expect_err("unreadable settings"), ModStorageSettingsError::SettingsUnavailable);
    assert_eq!(
        h.service.set(&mut h.gate, Some(CANDIDATE.to_owned())).expect_err("unreadable settings").code(),
        "app_settings_unavailable"
    );
}

#[test]
fn error_codes_are_stable() {
    assert_eq!(ModStorageSettingsError::MigrationRequired.code(), "mod_storage_migration_required");
    assert_eq!(ModStorageSettingsError::SettingsUnavailable.code(), "app_settings_unavailable");
    assert_eq!(ModStorageSettingsError::LibraryUnavailable.code(), "mod_library_unavailable");
    assert_eq!(ModStorageSettingsError::GameConfigUnavailable.code(), "game_config_unavailable");
    assert_eq!(
        ModStorageSettingsError::WriteFrozen(ModStorageWriteGateError::RestartRequired).code(),
        "mod_storage_restart_required"
    );
}

#[test]
fn set_to_the_same_directory_with_a_trailing_separator_is_a_no_op() {
    let ports = FakePorts {
        stored: RefCell::new(Some(CANDIDATE.to_owned())),
        revisions: 1,
        ..FakePorts::default()
    };
    let mut h = harness(ports, Some(CANDIDATE));

    let snapshot = h.service.set(&mut h.gate, Some(format!("{CANDIDATE}/"))).expect("the same directory");

    assert!(!snapshot.restart_required);
    assert!(h.ports.claimed.borrow().is_empty());
    assert_eq!(h.gate.freeze(), ModStorageWriteFreeze::Open);
}
