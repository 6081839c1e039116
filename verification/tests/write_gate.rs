use hmm_app::write_gate::{ModStorageWriteFreeze, ModStorageWriteGate, ModStorageWriteGateError};

#[test]
fn a_fresh_gate_admits_writers_and_reports_no_freeze() {
    let barrier = ModStorageWriteGate::new();

    assert_eq!(barrier.freeze(), ModStorageWriteFreeze::Open);
    assert_eq!(barrier.ensure_open(), Ok(()));
    assert_eq!(barrier.admit_writer(|| 7), Ok(7));
}

#[test]
fn begin_migration_freezes_writers_until_the_outcome_is_known() {
    let mut barrier = ModStorageWriteGate::new();

    barrier.begin_migration(|| Ok::<(), ModStorageWriteGateError>(()))
        .expect("open barrier admits a migration");

    assert_eq!(barrier.freeze(), ModStorageWriteFreeze::Migration);
    assert_eq!(
        barrier.ensure_open(),
        Err(ModStorageWriteGateError::MigrationInProgress)
    );
    let mut registered = false;
    assert_eq!(
        barrier.admit_writer(|| registered = true),
        Err(ModStorageWriteGateError::MigrationInProgress)
    );
    assert!(!registered, "a refused writer must not register anything");
    assert_eq!(
        barrier.begin_migration(|| Ok::<(), ModStorageWriteGateError>(())),
        Err(ModStorageWriteGateError::MigrationInProgress)
    );

    barrier.end_migration(false);
    assert_eq!(barrier.freeze(), ModStorageWriteFreeze::Open);
    assert_eq!(barrier.ensure_open(), Ok(()));
}

#[test]
fn a_switched_migration_keeps_writes_frozen_until_restart() {
    let mut barrier = ModStorageWriteGate::new();
    barrier.begin_migration(|| Ok::<(), ModStorageWriteGateError>(()))
        .expect("migration admitted");

    barrier.end_migration(true);

    assert_eq!(barrier.freeze(), ModStorageWriteFreeze::RestartRequired);
    assert_eq!(
        barrier.ensure_open(),
        Err(ModStorageWriteGateError::RestartRequired)
    );
    assert_eq!(
        barrier.begin_migration(|| Ok::<(), ModStorageWriteGateError>(())),
        Err(ModStorageWriteGateError::RestartRequired)
    );
    barrier.end_migration(false);
    assert_eq!(
        barrier.freeze(),
        ModStorageWriteFreeze::RestartRequired,
        "ending a migration never reopens a barrier that is not in the migration state"
    );
}

#[derive(Debug, PartialEq, Eq)]
enum ReadinessError {
    Barrier(ModStorageWriteGateError),
    ImportsRunning,
}

impl From<ModStorageWriteGateError> for ReadinessError {
    fn from(error: ModStorageWriteGateError) -> Self {
        Self::Barrier(error)
    }
}

#[test]
fn a_failing_readiness_check_leaves_the_gate_open() {
    let mut barrier = ModStorageWriteGate::new();

    let error = barrier
        .begin_migration(|| Err::<(), ReadinessError>(ReadinessError::ImportsRunning))
        .expect_err("readiness failure propagates");

    assert_eq!(error, ReadinessError::ImportsRunning);
    assert_eq!(barrier.freeze(), ModStorageWriteFreeze::Open);
    assert_eq!(barrier.ensure_open(), Ok(()));

    barrier.begin_migration(|| Ok::<(), ReadinessError>(()))
        .expect("migration admitted");
    let mut readiness_ran = false;
    let error = barrier
        .begin_migration(|| {
            readiness_ran = true;
            Ok::<(), ReadinessError>(())
        })
        .expect_err("frozen barrier refuses before readiness runs");
    assert_eq!(
        error,
        ReadinessError::Barrier(ModStorageWriteGateError::MigrationInProgress)
    );
    assert!(!readiness_ran);
}

#[test]
fn a_successful_root_switch_freezes_writes_until_restart() {
    let mut barrier = ModStorageWriteGate::new();

    let failed = barrier
        .admit_root_switch(|| Err::<(), &str>("settings write failed"))
        .expect("open barrier admits the switch");
    assert_eq!(failed, Err("settings write failed"));
    assert_eq!(
        barrier.freeze(),
        ModStorageWriteFreeze::Open,
        "a failed write leaves the barrier open"
    );

    let switched = barrier
        .admit_root_switch(|| Ok::<u8, &str>(1))
        .expect("open barrier admits the switch");
    assert_eq!(switched, Ok(1));
    assert_eq!(barrier.freeze(), ModStorageWriteFreeze::RestartRequired);
    assert_eq!(
        barrier.ensure_open().map_err(|error| error.code()),
        Err("mod_storage_restart_required")
    );
    assert_eq!(
        barrier.admit_root_switch(|| Ok::<u8, &str>(2)),
        Err(ModStorageWriteGateError::RestartRequired)
    );
    assert_eq!(
        ModStorageWriteGateError::MigrationInProgress.code(),
        "mod_storage_migration_in_progress"
    );
}

#[test]
fn default_gate_is_open_and_freeze_errors_follow_the_state() {
    assert_eq!(ModStorageWriteGate::default().freeze(), ModStorageWriteFreeze::Open);
    assert_eq!(ModStorageWriteFreeze::default(), ModStorageWriteFreeze::Open);
    assert_eq!(
        hmm_app::write_gate::freeze_error(ModStorageWriteFreeze::Migration),
        Err(ModStorageWriteGateError::MigrationInProgress)
    );
    assert_eq!(
        ModStorageWriteGateError::RestartRequired.message(),
        "the mod storage directory changed; restart before writing to the library"
    );
}
