//! Storage-root migration task.
//!
//! Moves every package below `<source>/sandboxes` into a new root without ever leaving the
//! library half-migrated: packages are copied and verified one by one, the setting is switched
//! only after the last package passed, and the source copies are deleted at the next start,
//! once the new root is in effect. A journal is persisted before every irreversible step so a
//! crash can be finished or rolled back by `settle_pending_mod_storage_migration`.
//!
//! Sandbox writers are refused for the whole session through the storage write barrier.
use crate::ids::GameId;
use crate::import_task::TaskStarted;
use crate::metadata::PortFailure;
use crate::storage_settings::{
    configured_game_roots, directory_error_code, same_path, GameRootSource, InspectorCall,
    InspectorCalls, ModStorageDirectoryError, ModStorageDirectoryInspection, ModStorageDirectoryInspector,
};
use crate::tasks::{
    is_active_status, lemma_with_status_reads_back, observe_task_progress, with_status, TaskEntry,
    TaskKind, TaskManager, TaskProgressEvent, TaskProgressObserver, TaskStatus,
    NoopTaskProgressObserver,
};
use crate::write_gate::{
    after_end_migration, freeze_error_spec, write_gate_error_code, ModStorageWriteFreeze,
    ModStorageWriteGate, ModStorageWriteGateError,
};
use vstd::prelude::*;

verus! {

pub const MOD_STORAGE_MIGRATION_QUEUED_PHASE: &'static str = "mod_storage.migration.queued";

pub const MOD_STORAGE_MIGRATION_COPYING_PHASE: &'static str = "mod_storage.migration.copying";

pub const MOD_STORAGE_MIGRATION_VERIFYING_PHASE: &'static str = "mod_storage.migration.verifying";

pub const MOD_STORAGE_MIGRATION_SWITCHING_PHASE: &'static str = "mod_storage.migration.switching";

pub const MOD_STORAGE_MIGRATION_COMPLETED_PHASE: &'static str = "mod_storage.migration.completed";

pub const MOD_STORAGE_MIGRATION_FAILED_PHASE: &'static str = "mod_storage.migration.failed";

/// Emitted when a cancel request is accepted; the runner is still removing the copies it made.
/// The terminal `cancelled` follows once the rollback finished.
pub const MOD_STORAGE_MIGRATION_CANCELLING_PHASE: &'static str = "mod_storage.migration.cancelling";

pub const MOD_STORAGE_MIGRATION_CANCELLED_PHASE: &'static str = "mod_storage.migration.cancelled";

/// Format version of the migration journal.
pub const MOD_STORAGE_MIGRATION_JOURNAL_VERSION: u32 = 1;

/// Why moving packages between roots failed.
#[derive(Debug, Clone, Copy, PartialEq, Eq, Structural)]
pub enum ModStorageMigrationError {
    Cancelled,
    CopyFailed,
    VerifyMismatch,
    PackageUnreadable,
    SourceUnavailable,
    TargetPackageMissing,
    JournalUnavailable,
}

pub open spec fn migration_error_code(error: ModStorageMigrationError) -> Seq<char> {
    match error {
        ModStorageMigrationError::Cancelled => "mod_storage_migration_cancelled"@,
        ModStorageMigrationError::CopyFailed => "mod_storage_migration_copy_failed"@,
        ModStorageMigrationError::VerifyMismatch => "mod_storage_migration_verify_mismatch"@,
        ModStorageMigrationError::PackageUnreadable => "mod_storage_migration_package_unreadable"@,
        ModStorageMigrationError::SourceUnavailable => "mod_storage_migration_source_unavailable"@,
        ModStorageMigrationError::TargetPackageMissing =>
            "mod_storage_migration_target_package_missing"@,
        ModStorageMigrationError::JournalUnavailable => "mod_storage_migration_journal_unavailable"@,
    }
}

impl ModStorageMigrationError {
    pub fn code(self) -> (r: &'static str)
        ensures
            r@ == migration_error_code(self),
    {
        match self {
            ModStorageMigrationError::Cancelled => "mod_storage_migration_cancelled",
            ModStorageMigrationError::CopyFailed => "mod_storage_migration_copy_failed",
            ModStorageMigrationError::VerifyMismatch => "mod_storage_migration_verify_mismatch",
            ModStorageMigrationError::PackageUnreadable => "mod_storage_migration_package_unreadable",
            ModStorageMigrationError::SourceUnavailable => "mod_storage_migration_source_unavailable",
            ModStorageMigrationError::TargetPackageMissing =>
                "mod_storage_migration_target_package_missing",
            ModStorageMigrationError::JournalUnavailable =>
                "mod_storage_migration_journal_unavailable",
        }
    }
}

#[derive(Debug, Clone, Copy, PartialEq, Eq, Structural)]
pub enum ModStorageMigrationState {
    /// Packages are being copied; the setting still names the source.
    Copying,
    /// The setting was switched (or is about to be) to the target.
    Switched,
}

/// What a migration persists before each irreversible step.
#[derive(Debug, Clone, PartialEq, Eq)]
pub struct ModStorageMigrationJournal {
    pub version: u32,
    pub state: ModStorageMigrationState,
    pub source_root: String,
    pub target_root: String,
    pub packages: Vec<String>,
    pub started_at_unix_millis: u128,
}

/// A registered, not yet running migration.
#[derive(Debug, Clone, PartialEq, Eq)]
pub struct ModStorageMigrationLaunch {
    pub task: TaskStarted,
    pub source_root: String,
    pub target_root: String,
    /// Value written to the settings on success (`None` = back to the default root).
    pub configured_target: Option<String>,
}

/// Refusals before a task exists. Failures of the migration itself are terminal task events.
#[derive(Debug, Clone, PartialEq, Eq)]
pub enum ModStorageMigrationTaskError {
    Gate(ModStorageWriteGateError),
    Directory(ModStorageDirectoryError),
    ImportsActive,
    GameConfigUnavailable,
    TaskUnavailable,
}

pub open spec fn migration_task_error_code(error: ModStorageMigrationTaskError) -> Seq<char> {
    match error {
        ModStorageMigrationTaskError::Gate(e) => write_gate_error_code(e),
        ModStorageMigrationTaskError::Directory(e) => directory_error_code(e),
        ModStorageMigrationTaskError::ImportsActive => "mod_storage_migration_imports_active"@,
        ModStorageMigrationTaskError::GameConfigUnavailable => "game_config_unavailable"@,
        ModStorageMigrationTaskError::TaskUnavailable => "mod_storage_migration_task_unavailable"@,
    }
}

impl ModStorageMigrationTaskError {
    pub fn code(&self) -> (r: &str)
        ensures
            r@ == migration_task_error_code(*self),
    {
        match self {
            ModStorageMigrationTaskError::Gate(e) => e.code(),
            ModStorageMigrationTaskError::Directory(e) => e.code(),
            ModStorageMigrationTaskError::ImportsActive => "mod_storage_migration_imports_active",
            ModStorageMigrationTaskError::GameConfigUnavailable => "game_config_unavailable",
            ModStorageMigrationTaskError::TaskUnavailable => "mod_storage_migration_task_unavailable",
        }
    }
}

impl From<ModStorageWriteGateError> for ModStorageMigrationTaskError {
    fn from(error: ModStorageWriteGateError) -> (r: Self) {
        ModStorageMigrationTaskError::Gate(error)
    }
}

impl vstd::std_specs::convert::FromSpecImpl<ModStorageWriteGateError> for ModStorageMigrationTaskError {
    open spec fn obeys_from_spec() -> bool {
        true
    }

    open spec fn from_spec(error: ModStorageWriteGateError) -> Self {
        ModStorageMigrationTaskError::Gate(error)
    }
}

/// Stable code carried by the `failed` event.
#[derive(Debug, Clone, Copy, PartialEq, Eq, Structural)]
pub enum ModStorageMigrationFailure {
    Migration(ModStorageMigrationError),
    /// Every package was copied and verified, but the settings could not be written; the copies
    /// were rolled back and the source stays in effect.
    SettingsUnavailable,
}

pub open spec fn migration_failure_code(failure: ModStorageMigrationFailure) -> Seq<char> {
    match failure {
        ModStorageMigrationFailure::Migration(e) => migration_error_code(e),
        ModStorageMigrationFailure::SettingsUnavailable =>
            "mod_storage_migration_settings_unavailable"@,
    }
}

impl ModStorageMigrationFailure {
    pub fn code(self) -> (r: &'static str)
        ensures
            r@ == migration_failure_code(self),
    {
        match self {
            ModStorageMigrationFailure::Migration(e) => e.code(),
            ModStorageMigrationFailure::SettingsUnavailable =>
                "mod_storage_migration_settings_unavailable",
        }
    }
}

/// One call the migrator answered: what it was asked and what it answered.
pub enum MigratorCall {
    List { root: Seq<char>, answer: Result<Vec<String>, ModStorageMigrationError> },
    Copy {
        source_root: Seq<char>,
        target_root: Seq<char>,
        package: Seq<char>,
        answer: Result<(), ModStorageMigrationError>,
    },
    Verify {
        source_root: Seq<char>,
        target_root: Seq<char>,
        package: Seq<char>,
        answer: Result<(), ModStorageMigrationError>,
    },
    Remove { root: Seq<char>, package: Seq<char>, answer: Result<(), ModStorageMigrationError> },
    Exists { root: Seq<char>, package: Seq<char>, answer: Result<bool, ModStorageMigrationError> },
}

/// One call the journal repository answered.
pub enum JournalCall {
    Load { answer: Result<Option<ModStorageMigrationJournal>, ModStorageMigrationError> },
    Save { journal: ModStorageMigrationJournal, answer: Result<(), ModStorageMigrationError> },
    Clear { answer: Result<(), ModStorageMigrationError> },
}

/// The record of the calls a migrator answered.
pub type MigratorCalls = Seq<MigratorCall>;

/// The record of the calls a journal repository answered.
pub type JournalCalls = Seq<JournalCall>;

/// The record of the setting writes the ports answered.
pub type SettingWrites = Seq<(Option<String>, Result<(), PortFailure>)>;

/// Moves package directories between storage roots. `calls` is the record of every call the
/// migrator answered, oldest first; each call appends itself with its answer.
pub trait ModStorageMigrator {
    spec fn calls(&self) -> Seq<MigratorCall>;

    fn list_packages(&mut self, root: &str) -> (r: Result<Vec<String>, ModStorageMigrationError>)
        ensures
            final(self).calls() == old(self).calls().push(MigratorCall::List { root: root@, answer: r }),
    ;

    fn copy_package(&mut self, source_root: &str, target_root: &str, package_id: &str) -> (r: Result<
        (),
        ModStorageMigrationError,
    >)
        ensures
            final(self).calls() == old(self).calls().push(
                MigratorCall::Copy {
                    source_root: source_root@,
                    target_root: target_root@,
                    package: package_id@,
                    answer: r,
                },
            ),
    ;

    fn verify_package(&mut self, source_root: &str, target_root: &str, package_id: &str) -> (r: Result<
        (),
        ModStorageMigrationError,
    >)
        ensures
            final(self).calls() == old(self).calls().push(
                MigratorCall::Verify {
                    source_root: source_root@,
                    target_root: target_root@,
                    package: package_id@,
                    answer: r,
                },
            ),
    ;

    fn remove_package(&mut self, root: &str, package_id: &str) -> (r: Result<(), ModStorageMigrationError>)
        ensures
            final(self).calls() == old(self).calls().push(
                MigratorCall::Remove { root: root@, package: package_id@, answer: r },
            ),
    ;

    fn package_exists(&mut self, root: &str, package_id: &str) -> (r: Result<bool, ModStorageMigrationError>)
        ensures
            final(self).calls() == old(self).calls().push(
                MigratorCall::Exists { root: root@, package: package_id@, answer: r },
            ),
    ;
}

/// Where the migration journal lives between processes. `calls` is the record of every call
/// the repository answered, oldest first.
pub trait ModStorageMigrationJournalRepository {
    spec fn calls(&self) -> Seq<JournalCall>;

    fn load(&mut self) -> (r: Result<Option<ModStorageMigrationJournal>, ModStorageMigrationError>)
        ensures
            final(self).calls() == old(self).calls().push(JournalCall::Load { answer: r }),
    ;

    fn save(&mut self, journal: &ModStorageMigrationJournal) -> (r: Result<(), ModStorageMigrationError>)
        ensures
            final(self).calls() == old(self).calls().push(JournalCall::Save { journal: *journal, answer: r }),
    ;

    fn clear(&mut self) -> (r: Result<(), ModStorageMigrationError>)
        ensures
            final(self).calls() == old(self).calls().push(JournalCall::Clear { answer: r }),
    ;
}

/// The packages named by the copy calls, in order.
pub open spec fn copied_in(calls: Seq<MigratorCall>) -> Seq<Seq<char>>
    decreases calls.len(),
{
    if calls.len() == 0 {
        Seq::empty()
    } else {
        match calls.last() {
            MigratorCall::Copy { package, .. } => copied_in(calls.drop_last()).push(package),
            _ => copied_in(calls.drop_last()),
        }
    }
}

/// The migrator calls hold no removal.
pub open spec fn no_removal(calls: Seq<MigratorCall>) -> bool {
    forall|i: int| 0 <= i < calls.len() ==> !((#[trigger] calls[i]) is Remove)
}

/// The journal calls hold no clearing.
pub open spec fn no_clearing(calls: Seq<JournalCall>) -> bool {
    forall|i: int| 0 <= i < calls.len() ==> !((#[trigger] calls[i]) is Clear)
}

pub open spec fn names(packages: Seq<String>) -> Seq<Seq<char>> {
    packages.map_values(|p: String| p@)
}

/// Each package copied from `source` to `target` and then verified, all answered `Ok`, in order.
pub open spec fn copy_verify_calls(source: Seq<char>, target: Seq<char>, packages: Seq<String>) -> Seq<MigratorCall>
    decreases packages.len(),
{
    if packages.len() == 0 {
        Seq::empty()
    } else {
        copy_verify_calls(source, target, packages.drop_last()).push(
            MigratorCall::Copy { source_root: source, target_root: target, package: packages.last()@, answer: Ok(()) },
        ).push(
            MigratorCall::Verify { source_root: source, target_root: target, package: packages.last()@, answer: Ok(()) },
        )
    }
}

/// Removals of the named packages from `root`, in order, with these answers.
pub open spec fn removals_named(
    root: Seq<char>,
    packages: Seq<Seq<char>>,
    answers: Seq<Result<(), ModStorageMigrationError>>,
) -> Seq<MigratorCall> {
    Seq::new(answers.len(), |i: int| MigratorCall::Remove { root, package: packages[i], answer: answers[i] })
}

/// Every one of the answers is `Ok`.
pub open spec fn all_ok(answers: Seq<Result<(), ModStorageMigrationError>>) -> bool {
    forall|i: int| 0 <= i < answers.len() ==> (#[trigger] answers[i]) is Ok
}

/// Rolling back copies: each copied package removed from `target`, in order and whatever each
/// removal answered, then the journal cleared only when every removal succeeded.
pub open spec fn rolled_back(
    target: Seq<char>,
    copied: Seq<Seq<char>>,
    mcalls: Seq<MigratorCall>,
    jcalls: Seq<JournalCall>,
) -> bool {
    exists|answers: Seq<Result<(), ModStorageMigrationError>>, cleared: Result<(), ModStorageMigrationError>|
        answers.len() == copied.len() && mcalls == #[trigger] removals_named(target, copied, answers) && jcalls
            == #[trigger] clear_call(all_ok(answers), cleared)
}

/// No setting write of these succeeded.
pub open spec fn no_write_succeeded(writes: Seq<(Option<String>, Result<(), PortFailure>)>) -> bool {
    forall|i: int| 0 <= i < writes.len() ==> (#[trigger] writes[i]).1 is Err
}

/// What a migration run did through its ports. A run that did not start calls nothing. A
/// completed run listed the source, copied and then verified every listed package in order
/// (each answered `Ok`), reports the listed count, wrote the target setting once, and kept the
/// journal. A started run that failed or was cancelled removed every package it had begun to
/// copy from the target, cleared the journal only if every removal succeeded, and never
/// switched the setting.
pub open spec fn run_effects(
    launch: ModStorageMigrationLaunch,
    started: bool,
    events: Seq<TaskProgressEvent>,
    m_before: Seq<MigratorCall>,
    m_after: Seq<MigratorCall>,
    j_before: Seq<JournalCall>,
    j_after: Seq<JournalCall>,
    w_before: Seq<(Option<String>, Result<(), PortFailure>)>,
    w_after: Seq<(Option<String>, Result<(), PortFailure>)>,
) -> bool {
    &&& !started ==> m_after == m_before && j_after == j_before && w_after == w_before
    &&& events.last().status == TaskStatus::Completed ==> {
        &&& exists|listed: Vec<String>|
            m_after == m_before + seq![MigratorCall::List { root: launch.source_root@, answer: Ok(listed) }]
                + #[trigger] copy_verify_calls(launch.source_root@, launch.target_root@, listed@)
                && events.last().total == Some(listed@.len() as u64)
        &&& w_after == w_before.push((launch.configured_target, Ok(())))
        &&& exists|jm: Seq<JournalCall>| j_after == j_before + jm && #[trigger] no_clearing(jm)
    }
    &&& started && (events.last().status == TaskStatus::Failed || events.last().status == TaskStatus::Cancelled)
        ==> exists|
        m: Seq<MigratorCall>,
        mr: Seq<MigratorCall>,
        jm: Seq<JournalCall>,
        jr: Seq<JournalCall>,
        w: Seq<(Option<String>, Result<(), PortFailure>)>,
    |
        #![trigger rolled_back(launch.target_root@, copied_in(m), mr, jr), no_clearing(jm), no_write_succeeded(w)]
        m_after == m_before + m + mr && no_removal(m) && j_after == j_before + jm + jr && no_clearing(jm)
            && rolled_back(launch.target_root@, copied_in(m), mr, jr) && w_after == w_before + w
            && no_write_succeeded(w)
}

/// Everything else the migration task reads or writes outside itself.
pub trait ModStorageMigrationPorts: GameRootSource + ModStorageDirectoryInspector {
    /// The setting writes answered so far, oldest first, each with its answer.
    spec fn setting_writes(&self) -> Seq<(Option<String>, Result<(), PortFailure>)>;

    /// Persists the storage directory setting (`None` = back to the default root).
    fn write_configured(&mut self, directory: &Option<String>) -> (r: Result<(), PortFailure>)
        ensures
            final(self).setting_writes() == old(self).setting_writes().push((*directory, r)),
    ;

    fn now_unix_millis(&self) -> Result<u128, PortFailure>;

    /// Whether the user asked to cancel the running task `task_id`.
    fn cancellation_requested(&self, task_id: &str) -> bool;
}

/// `event` belongs to the task of `launch`.
pub open spec fn event_of_launch(event: TaskProgressEvent, launch: ModStorageMigrationLaunch) -> bool {
    event.task_id@ == launch.task.task_id@ && event.kind == launch.task.kind
}

/// `event` ends the task: completed, failed with a code, or cancelled without one.
pub open spec fn is_terminal_event(event: TaskProgressEvent) -> bool {
    ||| event.status == TaskStatus::Completed && event.phase@ == MOD_STORAGE_MIGRATION_COMPLETED_PHASE@
        && event.error is None
    ||| event.status == TaskStatus::Failed && event.phase@ == MOD_STORAGE_MIGRATION_FAILED_PHASE@
        && event.error is Some
    ||| event.status == TaskStatus::Cancelled && event.phase@
        == MOD_STORAGE_MIGRATION_CANCELLED_PHASE@ && event.error is None
}

/// A well-formed run: events of the launch's task, all running but the last, which is
/// terminal.
pub open spec fn is_run_report(events: Seq<TaskProgressEvent>, launch: ModStorageMigrationLaunch) -> bool {
    &&& events.len() > 0
    &&& is_terminal_event(events.last())
    &&& forall|i: int| 0 <= i < events.len() ==> #[trigger] event_of_launch(events[i], launch)
    &&& forall|i: int| 0 <= i < events.len() - 1 ==> (#[trigger] events[i]).status == TaskStatus::Running
}

/// Every event belongs to the task of `launch` and reports it running.
pub open spec fn running_events_of(events: Seq<TaskProgressEvent>, launch: ModStorageMigrationLaunch) -> bool {
    forall|i: int|
        0 <= i < events.len() ==> #[trigger] event_of_launch(events[i], launch) && events[i].status
            == TaskStatus::Running
}

proof fn lemma_running_events_push(
    events: Seq<TaskProgressEvent>,
    launch: ModStorageMigrationLaunch,
    event: TaskProgressEvent,
)
    requires
        running_events_of(events, launch),
        event_of_launch(event, launch),
        event.status == TaskStatus::Running,
    ensures
        running_events_of(events.push(event), launch),
{
    assert forall|i: int| 0 <= i < events.push(event).len() implies #[trigger] event_of_launch(
        events.push(event)[i],
        launch,
    ) && events.push(event)[i].status == TaskStatus::Running by {
        if i < events.len() {
            assert(events.push(event)[i] == events[i]);
            assert(event_of_launch(events[i], launch));
        }
    }
}

/// A run report made of running events followed by one terminal event.
proof fn lemma_run_report(
    events: Seq<TaskProgressEvent>,
    launch: ModStorageMigrationLaunch,
    last: TaskProgressEvent,
)
    requires
        running_events_of(events, launch),
        event_of_launch(last, launch),
        is_terminal_event(last),
    ensures
        is_run_report(events.push(last), launch),
{
    let report = events.push(last);
    assert forall|i: int| 0 <= i < report.len() implies #[trigger] event_of_launch(report[i], launch) by {
        if i < events.len() {
            assert(report[i] == events[i]);
            assert(event_of_launch(events[i], launch));
        }
    }
    assert forall|i: int| 0 <= i < report.len() - 1 implies (#[trigger] report[i]).status
        == TaskStatus::Running by {
        assert(report[i] == events[i]);
        assert(event_of_launch(events[i], launch));
    }
}

/// The run reported a completed migration.
pub open spec fn run_completed(r: Result<Vec<TaskProgressEvent>, ModStorageMigrationTaskError>) -> bool {
    r matches Ok(events) && events@.len() > 0 && events@.last().status == TaskStatus::Completed
}

/// `progress` is `(packages done, packages total)`; events without it carry neither figure.
fn migration_event(
    launch: &ModStorageMigrationLaunch,
    status: TaskStatus,
    phase: &str,
    progress: Option<(u64, u64)>,
    error: Option<&str>,
) -> (r: TaskProgressEvent)
    ensures
        event_of_launch(r, *launch),
        r.status == status,
        r.phase@ == phase@,
        progress matches Some((c, t)) ==> r.current == Some(c) && r.total == Some(t),
        progress is None ==> r.current is None && r.total is None,
        error is None <==> r.error is None,
{
    let mut event = TaskProgressEvent::new(
        launch.task.task_id.clone(),
        launch.task.kind,
        status,
        phase,
    );
    match progress {
        Some((current, total)) => {
            event.current = Some(current);
            event.total = Some(total);
        },
        None => {},
    }
    match error {
        Some(code) => {
            event.error = Some(code.to_owned());
        },
        None => {},
    }
    event
}

/// The queued event the command layer emits before returning the task identity.
pub fn queued_mod_storage_migration_event(launch: &ModStorageMigrationLaunch) -> (r: TaskProgressEvent)
    ensures
        event_of_launch(r, *launch),
        r.status == launch.task.status,
        r.phase@ == MOD_STORAGE_MIGRATION_QUEUED_PHASE@,
        r.current is None && r.total is None && r.error is None,
{
    migration_event(launch, launch.task.status, MOD_STORAGE_MIGRATION_QUEUED_PHASE, None, None)
}

/// `event` reports the running task of `launch` in `phase` at package `current` of `total`.
pub open spec fn progress_event(
    event: TaskProgressEvent,
    launch: ModStorageMigrationLaunch,
    phase: Seq<char>,
    current: u64,
    total: u64,
) -> bool {
    &&& event_of_launch(event, launch)
    &&& event.status == TaskStatus::Running
    &&& event.phase@ == phase
    &&& event.current == Some(current)
    &&& event.total == Some(total)
    &&& event.error is None
}

/// The first `done` packages of `total` were each reported copying, then verifying, in order.
pub open spec fn copied_and_verified(
    events: Seq<TaskProgressEvent>,
    launch: ModStorageMigrationLaunch,
    done: nat,
    total: u64,
) -> bool {
    &&& events.len() == 2 * done
    &&& forall|i: int|
        0 <= i < done ==> progress_event(
            #[trigger] events[2 * i],
            launch,
            MOD_STORAGE_MIGRATION_COPYING_PHASE@,
            i as u64,
            total,
        ) && progress_event(events[2 * i + 1], launch, MOD_STORAGE_MIGRATION_VERIFYING_PHASE@, i as u64, total)
}

/// The events of a completed migration of `total` packages: every package copied then
/// verified, in order, then the switch, then completion.
pub open spec fn completed_run(events: Seq<TaskProgressEvent>, launch: ModStorageMigrationLaunch, total: u64) -> bool {
    &&& events.len() == 2 * total + 2
    &&& copied_and_verified(events.subrange(0, 2 * total), launch, total as nat, total)
    &&& progress_event(events[2 * total], launch, MOD_STORAGE_MIGRATION_SWITCHING_PHASE@, total, total)
    &&& events[2 * total + 1].status == TaskStatus::Completed
    &&& events[2 * total + 1].current == Some(total)
    &&& events[2 * total + 1].total == Some(total)
}

enum MigrationStop {
    Cancelled,
    Failed(ModStorageMigrationFailure),
    /// The task registry itself broke; there is no honest terminal event to emit.
    TaskUnavailable,
}

fn stop_for(error: ModStorageMigrationError) -> (r: MigrationStop)
    ensures
        error == ModStorageMigrationError::Cancelled ==> r is Cancelled,
        error != ModStorageMigrationError::Cancelled ==> r == MigrationStop::Failed(
            ModStorageMigrationFailure::Migration(error),
        ),
{
    match error {
        ModStorageMigrationError::Cancelled => MigrationStop::Cancelled,
        other => MigrationStop::Failed(ModStorageMigrationFailure::Migration(other)),
    }
}

/// The migration's own readiness check once the task is registered: nothing is left to refuse.
fn migration_ready() -> (r: Result<(), ModStorageMigrationTaskError>)
    ensures
        r is Ok,
{
    Ok(())
}

/// `directory`, or the default root when it is `None`.
pub open spec fn migration_target(directory: Option<String>, default_root: Seq<char>) -> Seq<char> {
    match directory {
        Some(d) => d@,
        None => default_root,
    }
}

/// What the storage ports answered while a migration target was checked. Answers to questions
/// that were not asked (inspection and claim of the default root, overlap of a chosen one) are
/// ignored.
pub struct MigrationDirectoryAnswers {
    /// The game roots could be read.
    pub roots_read: bool,
    pub inspect: Result<(), ModStorageDirectoryError>,
    pub claim: Result<(), ModStorageDirectoryError>,
    /// The default root and the current root contain one another.
    pub overlap: bool,
}

/// A chosen directory needs the game roots, the inspector's and then the claim's consent, each
/// refusal reported as it came; the default root only must not overlap the current root.
pub open spec fn directory_admission_spec(custom: bool, a: MigrationDirectoryAnswers) -> Result<
    (),
    ModStorageMigrationTaskError,
> {
    if custom {
        if !a.roots_read {
            Err(ModStorageMigrationTaskError::GameConfigUnavailable)
        } else {
            match a.inspect {
                Err(e) => Err(ModStorageMigrationTaskError::Directory(e)),
                Ok(()) => match a.claim {
                    Err(e) => Err(ModStorageMigrationTaskError::Directory(e)),
                    Ok(()) => Ok(()),
                },
            }
        }
    } else if a.overlap {
        Err(ModStorageMigrationTaskError::Directory(ModStorageDirectoryError::OverlapsCurrentRoot))
    } else {
        Ok(())
    }
}

/// The directory check, then no import may be queued or running.
pub open spec fn start_admission_spec(custom: bool, a: MigrationDirectoryAnswers, imports_active: bool) -> Result<
    (),
    ModStorageMigrationTaskError,
> {
    match directory_admission_spec(custom, a) {
        Err(e) => Err(e),
        Ok(()) => if imports_active {
            Err(ModStorageMigrationTaskError::ImportsActive)
        } else {
            Ok(())
        },
    }
}

/// `r` is what starting a migration gives once the barrier is open and the target differs
/// from the current root: the admission refusal, or a launch (or a registry refusal, when no
/// fresh task identity could be drawn).
pub open spec fn start_result_fits(
    directory: Option<String>,
    a: MigrationDirectoryAnswers,
    tasks: TaskManager,
    r: Result<ModStorageMigrationLaunch, ModStorageMigrationTaskError>,
) -> bool {
    match start_admission_spec(directory is Some, a, tasks.has_active_of_kind(TaskKind::ModImport)) {
        Err(e) => r == Err::<ModStorageMigrationLaunch, _>(e),
        Ok(()) => r is Ok || r == Err::<ModStorageMigrationLaunch, _>(ModStorageMigrationTaskError::TaskUnavailable),
    }
}

/// A target that names the current root is refused as overlapping it; any other is admitted as
/// `start_result_fits` says.
pub open spec fn start_outcome(
    directory: Option<String>,
    same_root: bool,
    a: MigrationDirectoryAnswers,
    tasks: TaskManager,
    r: Result<ModStorageMigrationLaunch, ModStorageMigrationTaskError>,
) -> bool {
    if same_root {
        r == Err::<ModStorageMigrationLaunch, _>(
            ModStorageMigrationTaskError::Directory(ModStorageDirectoryError::OverlapsCurrentRoot),
        )
    } else {
        start_result_fits(directory, a, tasks, r)
    }
}

/// What an inspection answer says of the candidate: passed, or refused with its error.
pub open spec fn inspection_verdict(
    answer: Result<ModStorageDirectoryInspection, ModStorageDirectoryError>,
) -> Result<(), ModStorageDirectoryError> {
    match answer {
        Ok(_) => Ok(()),
        Err(e) => Err(e),
    }
}

/// The inspector calls that checking a migration target makes, with the answers `a` that came
/// back: a chosen directory is inspected (once the game roots are read) against the current
/// root and claimed only after the inspection passed; the default root is only compared with
/// the current root for overlap.
pub open spec fn admission_inspector_calls(
    directory: Option<String>,
    default_root: Seq<char>,
    current_root: Seq<char>,
    a: MigrationDirectoryAnswers,
    calls: InspectorCalls,
) -> bool {
    match directory {
        Some(d) => if !a.roots_read {
            calls.len() == 0
        } else {
            &&& calls.len() >= 1
            &&& (calls[0] matches InspectorCall::Inspect { directory: dir, current_root: cur, answer, .. }
                && dir == d@ && cur == current_root && inspection_verdict(answer) == a.inspect)
            &&& (a.inspect is Ok ==> calls.len() == 2 && calls[1] == InspectorCall::Claim {
                directory: d@,
                answer: a.claim,
            })
            &&& (a.inspect is Err ==> calls.len() == 1)
        },
        None => calls == seq![InspectorCall::Overlap { left: default_root, right: current_root, answer: a.overlap }],
    }
}

/// `start_outcome`, with the inspector calls `calls` it made: none for a target that is the
/// current root, else those of `admission_inspector_calls`.
pub open spec fn start_trace(
    directory: Option<String>,
    same_root: bool,
    a: MigrationDirectoryAnswers,
    tasks: TaskManager,
    r: Result<ModStorageMigrationLaunch, ModStorageMigrationTaskError>,
    default_root: Seq<char>,
    current_root: Seq<char>,
    calls: InspectorCalls,
) -> bool {
    &&& start_outcome(directory, same_root, a, tasks, r)
    &&& same_root ==> calls.len() == 0
    &&& !same_root ==> admission_inspector_calls(directory, default_root, current_root, a, calls)
}

/// Decides a migration target from the ports' answers.
pub fn directory_admission(custom: bool, a: MigrationDirectoryAnswers) -> (r: Result<(), ModStorageMigrationTaskError>)
    ensures
        r == directory_admission_spec(custom, a),
{
    if custom {
        if !a.roots_read {
            return Err(ModStorageMigrationTaskError::GameConfigUnavailable);
        }
        match a.inspect {
            Err(e) => Err(ModStorageMigrationTaskError::Directory(e)),
            Ok(()) => match a.claim {
                Err(e) => Err(ModStorageMigrationTaskError::Directory(e)),
                Ok(()) => Ok(()),
            },
        }
    } else if a.overlap {
        Err(ModStorageMigrationTaskError::Directory(ModStorageDirectoryError::OverlapsCurrentRoot))
    } else {
        Ok(())
    }
}

pub struct ModStorageMigrationTaskService<
    M: ModStorageMigrator,
    J: ModStorageMigrationJournalRepository,
    P: ModStorageMigrationPorts,
> {
    migrator: M,
    journal: J,
    ports: P,
    game_ids: Vec<GameId>,
    /// Root the running process resolved at startup: the migration source.
    effective_root: String,
    default_root: String,
}

impl<
    M: ModStorageMigrator,
    J: ModStorageMigrationJournalRepository,
    P: ModStorageMigrationPorts,
> ModStorageMigrationTaskService<M, J, P> {
    /// The games whose roots are looked up.
    pub closed spec fn game_ids_view(&self) -> Seq<GameId> {
        self.game_ids@
    }

    pub closed spec fn effective_root_view(&self) -> Seq<char> {
        self.effective_root@
    }

    pub closed spec fn default_root_view(&self) -> Seq<char> {
        self.default_root@
    }

    pub fn new(
        migrator: M,
        journal: J,
        ports: P,
        game_ids: Vec<GameId>,
        effective_root: String,
        default_root: String,
    ) -> (r: Self)
        ensures
            r.effective_root_view() == effective_root@,
            r.default_root_view() == default_root@,
    {
        ModStorageMigrationTaskService {
            migrator,
            journal,
            ports,
            game_ids,
            effective_root,
            default_root,
        }
    }

    /// The calls the migrator answered so far.
    pub closed spec fn migrator_calls(&self) -> Seq<MigratorCall> {
        self.migrator.calls()
    }

    /// The calls the journal repository answered so far.
    pub closed spec fn journal_calls(&self) -> Seq<JournalCall> {
        self.journal.calls()
    }

    /// The calls the directory inspector answered so far.
    pub closed spec fn inspector_calls(&self) -> InspectorCalls {
        self.ports.inspector_calls()
    }

    /// The setting writes answered so far.
    pub closed spec fn setting_writes(&self) -> Seq<(Option<String>, Result<(), PortFailure>)> {
        self.ports.setting_writes()
    }

    fn game_roots(&self) -> (r: Result<Vec<String>, ModStorageMigrationTaskError>)
        ensures
            r matches Err(e) ==> e == ModStorageMigrationTaskError::GameConfigUnavailable,
            self.game_ids_view().len() == 0 ==> (r matches Ok(roots) && roots@.len() == 0),
    {
        match configured_game_roots(&self.ports, &self.game_ids) {
            Ok(roots) => Ok(roots),
            Err(_) => Err(ModStorageMigrationTaskError::GameConfigUnavailable),
        }
    }

    /// Validates and claims the target, then registers a queued task and freezes sandbox
    /// writes. Refused while writes are frozen, for a target that is the current root, and
    /// while an import task is queued or running.
    #[verifier::spinoff_prover]
    pub fn start(
        &mut self,
        tasks: &mut TaskManager,
        gate: &mut ModStorageWriteGate,
        directory: Option<String>,
    ) -> (r: Result<ModStorageMigrationLaunch, ModStorageMigrationTaskError>)
        requires
            old(tasks).wf(),
        ensures
            final(tasks).wf(),
            final(self).effective_root_view() == old(self).effective_root_view(),
            final(self).default_root_view() == old(self).default_root_view(),
            final(self).game_ids_view() == old(self).game_ids_view(),
            final(self).migrator_calls() == old(self).migrator_calls(),
            final(self).journal_calls() == old(self).journal_calls(),
            old(gate)@ != ModStorageWriteFreeze::Open ==> r == Err::<
                ModStorageMigrationLaunch,
                _,
            >(ModStorageMigrationTaskError::Gate(freeze_error_spec(old(gate)@)->Err_0))
                && final(self).inspector_calls() == old(self).inspector_calls(),
            old(gate)@ == ModStorageWriteFreeze::Open && migration_target(
                directory,
                old(self).default_root_view(),
            ) == old(self).effective_root_view() ==> r == Err::<ModStorageMigrationLaunch, _>(
                ModStorageMigrationTaskError::Directory(
                    ModStorageDirectoryError::OverlapsCurrentRoot,
                ),
            ),
            r is Err ==> final(gate)@ == old(gate)@ && final(tasks).entries() == old(
                tasks,
            ).entries(),
            r == Err::<ModStorageMigrationLaunch, _>(ModStorageMigrationTaskError::ImportsActive)
                ==> old(tasks).has_active_of_kind(TaskKind::ModImport),
            old(gate)@ == ModStorageWriteFreeze::Open ==> exists|
                same_root: bool,
                a: MigrationDirectoryAnswers,
                calls: InspectorCalls,
            |
                (migration_target(directory, old(self).default_root_view()) == old(self).effective_root_view()
                    ==> same_root) && final(self).inspector_calls() == old(self).inspector_calls() + calls
                    && #[trigger] start_trace(
                    directory,
                    same_root,
                    a,
                    *old(tasks),
                    r,
                    old(self).default_root_view(),
                    old(self).effective_root_view(),
                    calls,
                ),
            r matches Ok(launch) ==> {
                &&& crate::tasks::is_task_id_of(launch.task.task_id@, TaskKind::ModStorageMigration)
                &&& old(gate)@ == ModStorageWriteFreeze::Open
                &&& final(gate)@ == ModStorageWriteFreeze::Migration
                &&& !old(tasks).has_active_of_kind(TaskKind::ModImport)
                &&& launch.task.kind == TaskKind::ModStorageMigration
                &&& launch.task.status == TaskStatus::Queued
                &&& old(tasks).status_of(launch.task.task_id@) is None
                &&& final(tasks).entries() == old(tasks).entries().push(
                    TaskEntry {
                        task_id: launch.task.task_id@,
                        kind: TaskKind::ModStorageMigration,
                        status: TaskStatus::Queued,
                    },
                )
                &&& launch.source_root@ == old(self).effective_root_view()
                &&& launch.target_root@ == migration_target(directory, old(self).default_root_view())
                &&& launch.target_root@ != old(self).effective_root_view()
                &&& launch.configured_target == directory
            },
    {
        match gate.ensure_open() {
            Err(e) => {
                return Err(ModStorageMigrationTaskError::Gate(e));
            },
            Ok(()) => {},
        }
        let ghost calls0 = self.ports.inspector_calls();
        let target_root = match &directory {
            Some(d) => d.clone(),
            None => self.default_root.clone(),
        };
        if same_path(target_root.as_str(), self.effective_root.as_str()) {
            proof {
                let a = MigrationDirectoryAnswers { roots_read: true, inspect: Ok(()), claim: Ok(()), overlap: false };
                assert(self.inspector_calls() =~= old(self).inspector_calls() + Seq::<InspectorCall>::empty());
                assert(start_trace(
                    directory,
                    true,
                    a,
                    *old(tasks),
                    Err::<ModStorageMigrationLaunch, _>(ModStorageMigrationTaskError::Directory(ModStorageDirectoryError::OverlapsCurrentRoot)),
                    old(self).default_root_view(),
                    old(self).effective_root_view(),
                    Seq::<InspectorCall>::empty(),
                ));
            }
            return Err(
                ModStorageMigrationTaskError::Directory(
                    ModStorageDirectoryError::OverlapsCurrentRoot,
                ),
            );
        }
        let custom = directory.is_some();
        let ghost mut made: InspectorCalls = Seq::empty();
        let answers = match &directory {
            Some(d) => match self.game_roots() {
                Err(_) => MigrationDirectoryAnswers { roots_read: false, inspect: Ok(()), claim: Ok(()), overlap: false },
                Ok(roots) => {
                    let inspected = self.ports.inspect(d.as_str(), &roots, self.effective_root.as_str());
                    let ghost inspect_call = InspectorCall::Inspect {
                        directory: d@,
                        exclusive_roots: roots@,
                        current_root: self.effective_root@,
                        answer: inspected,
                    };
                    match inspected {
                        Err(e) => {
                            proof {
                                made = seq![inspect_call];
                            }
                            MigrationDirectoryAnswers { roots_read: true, inspect: Err(e), claim: Ok(()), overlap: false }
                        },
                        Ok(_) => {
                            let claimed = self.ports.claim(d.as_str());
                            proof {
                                made = seq![inspect_call, InspectorCall::Claim { directory: d@, answer: claimed }];
                            }
                            MigrationDirectoryAnswers { roots_read: true, inspect: Ok(()), claim: claimed, overlap: false }
                        },
                    }
                },
            },
            // The default root is the application's own data directory: no marker, no probe, but
            // it still must not nest with the current root.
            None => {
                let overlap = self.ports.directories_overlap(target_root.as_str(), self.effective_root.as_str());
                proof {
                    made = seq![InspectorCall::Overlap { left: target_root@, right: self.effective_root@, answer: overlap }];
                }
                MigrationDirectoryAnswers { roots_read: true, inspect: Ok(()), claim: Ok(()), overlap }
            },
        };
        let ghost seen = answers;
        proof {
            assert(self.ports.inspector_calls() =~= calls0 + made);
            assert(self.inspector_calls() =~= old(self).inspector_calls() + made);
            assert(admission_inspector_calls(
                directory,
                old(self).default_root_view(),
                old(self).effective_root_view(),
                seen,
                made,
            ));
        }
        match directory_admission(custom, answers) {
            Err(e) => {
                proof {
                    assert(start_trace(directory, false, seen, *old(tasks), Err::<ModStorageMigrationLaunch, _>(e), old(self).default_root_view(), old(self).effective_root_view(), made));
                }
                return Err(e);
            },
            Ok(()) => {},
        }
        match tasks.has_active_task_of_kind(TaskKind::ModImport) {
            Ok(true) => {
                proof {
                    assert(start_trace(
                        directory,
                        false,
                        seen,
                        *old(tasks),
                        Err::<ModStorageMigrationLaunch, _>(ModStorageMigrationTaskError::ImportsActive),
                        old(self).default_root_view(),
                        old(self).effective_root_view(),
                        made,
                    ));
                }
                return Err(ModStorageMigrationTaskError::ImportsActive);
            },
            Ok(false) => {},
            Err(_) => {
                proof {
                    assert(start_trace(
                        directory,
                        false,
                        seen,
                        *old(tasks),
                        Err::<ModStorageMigrationLaunch, _>(ModStorageMigrationTaskError::TaskUnavailable),
                        old(self).default_root_view(),
                        old(self).effective_root_view(),
                        made,
                    ));
                }
                return Err(ModStorageMigrationTaskError::TaskUnavailable);
            },
        }
        let record = match tasks.create_task(TaskKind::ModStorageMigration) {
            Ok(record) => record,
            Err(e) => {
                proof {
                    assert(start_trace(
                        directory,
                        false,
                        seen,
                        *old(tasks),
                        Err::<ModStorageMigrationLaunch, _>(ModStorageMigrationTaskError::TaskUnavailable),
                        old(self).default_root_view(),
                        old(self).effective_root_view(),
                        made,
                    ));
                }
                return Err(ModStorageMigrationTaskError::TaskUnavailable);
            },
        };
        let frozen = gate.begin_migration(migration_ready);
        proof {
            assert(start_trace(
                directory,
                false,
                seen,
                *old(tasks),
                Ok::<ModStorageMigrationLaunch, ModStorageMigrationTaskError>(ModStorageMigrationLaunch {
                    task: TaskStarted { task_id: record.task_id, kind: record.kind, status: record.status },
                    source_root: self.effective_root,
                    target_root,
                    configured_target: directory,
                }),
                old(self).default_root_view(),
                old(self).effective_root_view(),
                made,
            ));
        }
        proof {
            assert(frozen is Ok);
        }
        Ok(
            ModStorageMigrationLaunch {
                task: TaskStarted {
                    task_id: record.task_id,
                    kind: record.kind,
                    status: record.status,
                },
                source_root: self.effective_root.clone(),
                target_root,
                configured_target: directory,
            },
        )
    }

    /// Closes a launch that could not be handed to the runner and reopens the barrier:
    /// nothing has been copied yet. A task that is still queued or running is failed.
    pub fn abort_queued(
        &self,
        tasks: &mut TaskManager,
        gate: &mut ModStorageWriteGate,
        launch: &ModStorageMigrationLaunch,
    ) -> (r: Result<(), ModStorageMigrationTaskError>)
        requires
            old(tasks).wf(),
        ensures
            final(tasks).wf(),
            final(gate)@ == after_end_migration(old(gate)@, false),
            r is Ok <==> old(tasks).status_of(launch.task.task_id@) is Some,
            r is Err ==> r == Err::<(), _>(ModStorageMigrationTaskError::TaskUnavailable),
            (old(tasks).status_of(launch.task.task_id@) matches Some(s) && is_active_status(s))
                ==> final(tasks).status_of(launch.task.task_id@) == Some(TaskStatus::Failed),
            !(old(tasks).status_of(launch.task.task_id@) matches Some(s) && is_active_status(s))
                ==> final(tasks).entries() == old(tasks).entries(),
    {
        let result = match tasks.task_status(launch.task.task_id.as_str()) {
            Some(TaskStatus::Queued) | Some(TaskStatus::Running) => {
                let ghost before = tasks.entries();
                match tasks.fail_task(launch.task.task_id.as_str()) {
                    Ok(_) => {
                        proof {
                            lemma_with_status_reads_back(
                                *tasks,
                                before,
                                launch.task.task_id@,
                                launch.task.task_id@,
                                TaskStatus::Failed,
                            );
                        }
                        Ok(())
                    },
                    Err(_) => Err(ModStorageMigrationTaskError::TaskUnavailable),
                }
            },
            Some(_) => Ok(()),
            None => Err(ModStorageMigrationTaskError::TaskUnavailable),
        };
        gate.end_migration(false);
        result
    }

    /// Runs the migration with no live observer and returns the event sequence.
    pub fn run(
        &mut self,
        tasks: &mut TaskManager,
        gate: &mut ModStorageWriteGate,
        launch: ModStorageMigrationLaunch,
    ) -> (r: Result<Vec<TaskProgressEvent>, ModStorageMigrationTaskError>)
        requires
            old(tasks).wf(),
        ensures
            final(tasks).wf(),
            final(gate)@ == after_end_migration(old(gate)@, run_completed(r)),
            r matches Ok(events) ==> is_run_report(events@, launch),
            r is Err ==> r == Err::<Vec<TaskProgressEvent>, _>(
                ModStorageMigrationTaskError::TaskUnavailable,
            ),
            r matches Ok(events) ==> final(tasks).status_of(launch.task.task_id@) == Some(
                events@.last().status,
            ),
            r matches Ok(events) ==> (events@.last().status == TaskStatus::Completed ==> completed_run(
                events@,
                launch,
                events@.last().total.unwrap(),
            )),
            r matches Ok(events) ==> run_effects(
                launch,
                old(tasks).status_of(launch.task.task_id@) == Some(TaskStatus::Queued),
                events@,
                old(self).migrator_calls(),
                final(self).migrator_calls(),
                old(self).journal_calls(),
                final(self).journal_calls(),
                old(self).setting_writes(),
                final(self).setting_writes(),
            ),
            old(tasks).status_of(launch.task.task_id@) == Some(TaskStatus::Queued) ==> r is Ok,
    {
        self.run_with_observer(tasks, gate, launch, &NoopTaskProgressObserver)
    }

    /// Runs the migration and returns the event sequence; live progress goes through
    /// `observer`. Only a broken task registry returns `Err`: failure and cancellation are
    /// terminal events, and both leave the source root in effect with the target rolled back
    /// and the barrier reopened. A completed run keeps writes frozen until restart.
    pub fn run_with_observer<O: TaskProgressObserver>(
        &mut self,
        tasks: &mut TaskManager,
        gate: &mut ModStorageWriteGate,
        launch: ModStorageMigrationLaunch,
        observer: &O,
    ) -> (r: Result<Vec<TaskProgressEvent>, ModStorageMigrationTaskError>)
        requires
            old(tasks).wf(),
        ensures
            final(tasks).wf(),
            final(gate)@ == after_end_migration(old(gate)@, run_completed(r)),
            r matches Ok(events) ==> is_run_report(events@, launch),
            r is Err ==> r == Err::<Vec<TaskProgressEvent>, _>(
                ModStorageMigrationTaskError::TaskUnavailable,
            ),
            r matches Ok(events) ==> final(tasks).status_of(launch.task.task_id@) == Some(
                events@.last().status,
            ),
            r matches Ok(events) ==> (events@.last().status == TaskStatus::Completed
                ==> events@.last().current == events@.last().total && events@.last().total is Some),
            r matches Ok(events) ==> (events@.last().status == TaskStatus::Completed ==> completed_run(
                events@,
                launch,
                events@.last().total.unwrap(),
            )),
            r matches Ok(events) ==> run_effects(
                launch,
                old(tasks).status_of(launch.task.task_id@) == Some(TaskStatus::Queued),
                events@,
                old(self).migrator_calls(),
                final(self).migrator_calls(),
                old(self).journal_calls(),
                final(self).journal_calls(),
                old(self).setting_writes(),
                final(self).setting_writes(),
            ),
            old(tasks).status_of(launch.task.task_id@) == Some(TaskStatus::Queued) ==> r is Ok,
            old(tasks).status_of(launch.task.task_id@) == Some(TaskStatus::Cancelled) ==> (r matches Ok(
                events,
            ) && events@.len() == 1 && events@[0].status == TaskStatus::Cancelled),
    {
        let task_id = launch.task.task_id.clone();
        let current = tasks.task_status(task_id.as_str());
        if current == Some(TaskStatus::Cancelled) {
            gate.end_migration(false);
            let mut events: Vec<TaskProgressEvent> = Vec::new();
            let event = migration_event(
                &launch,
                TaskStatus::Cancelled,
                MOD_STORAGE_MIGRATION_CANCELLED_PHASE,
                None,
                None,
            );
            proof {
                lemma_run_report(events@, launch, event);
            }
            observe_task_progress(&mut events, observer, event);
            return Ok(events);
        }
        let ghost queued = tasks.entries();
        match tasks.start_task(task_id.as_str()) {
            Ok(_) => {},
            Err(_) => {
                gate.end_migration(false);
                return Err(ModStorageMigrationTaskError::TaskUnavailable);
            },
        }
        proof {
            lemma_with_status_reads_back(*tasks, queued, task_id@, task_id@, TaskStatus::Running);
        }
        let mut events: Vec<TaskProgressEvent> = Vec::new();
        let mut copied: Vec<String> = Vec::new();
        let mut package_count: u64 = 0;
        let ghost m0 = self.migrator_calls();
        let ghost j0 = self.journal_calls();
        let ghost w0 = self.setting_writes();
        let outcome = self.migrate(
            &*tasks,
            &launch,
            &mut copied,
            &mut package_count,
            &mut events,
            observer,
        );
        let ghost m = choose|m: Seq<MigratorCall>|
            self.migrator_calls() == m0 + m && #[trigger] copied_in(m) == names(copied@) && no_removal(m);
        let ghost jm = choose|jm: Seq<JournalCall>| self.journal_calls() == j0 + jm && #[trigger] no_clearing(jm);
        let ghost m1 = self.migrator_calls();
        let ghost j1 = self.journal_calls();
        let ghost w1 = self.setting_writes();
        let ghost running = tasks.entries();
        match outcome {
            Ok(()) => {
                gate.end_migration(true);
                match tasks.complete_task(task_id.as_str()) {
                    Ok(_) => {},
                    Err(_) => {
                        return Err(ModStorageMigrationTaskError::TaskUnavailable);
                    },
                }
                proof {
                    lemma_with_status_reads_back(
                        *tasks,
                        running,
                        task_id@,
                        task_id@,
                        TaskStatus::Completed,
                    );
                }
                let event = migration_event(
                    &launch,
                    TaskStatus::Completed,
                    MOD_STORAGE_MIGRATION_COMPLETED_PHASE,
                    Some((package_count, package_count)),
                    None,
                );
                proof {
                    lemma_run_report(events@, launch, event);
                }
                let ghost migrated = events@;
                observe_task_progress(&mut events, observer, event);
                proof {
                    assert(events@.subrange(0, 2 * package_count) =~= migrated.subrange(0, 2 * package_count));
                    assert(events@[2 * package_count] == migrated[2 * package_count]);
                    assert(completed_run(events@, launch, package_count));
                    let listed = choose|listed: Vec<String>|
                        m1 == m0 + seq![MigratorCall::List { root: launch.source_root@, answer: Ok(listed) }]
                            + #[trigger] copy_verify_calls(launch.source_root@, launch.target_root@, listed@)
                            && package_count == listed@.len() && copied@ == listed@;
                    assert(events@.last().total == Some(listed@.len() as u64));
                    assert(no_clearing(jm));
                }
                Ok(events)
            },
            Err(MigrationStop::Cancelled) => {
                match tasks.cancel_task(task_id.as_str()) {
                    Ok(_) => {},
                    Err(_) => {
                        self.roll_back(gate, &launch, &copied);
                        return Err(ModStorageMigrationTaskError::TaskUnavailable);
                    },
                }
                proof {
                    lemma_with_status_reads_back(
                        *tasks,
                        running,
                        task_id@,
                        task_id@,
                        TaskStatus::Cancelled,
                    );
                }
                self.roll_back(gate, &launch, &copied);
                proof {
                    let (mr, jr) = choose|mr: Seq<MigratorCall>, jr: Seq<JournalCall>|
                        self.migrator_calls() == m1 + mr && self.journal_calls() == j1 + jr && #[trigger] rolled_back(
                            launch.target_root@,
                            names(copied@),
                            mr,
                            jr,
                        );
                    let w = choose|w: Seq<(Option<String>, Result<(), PortFailure>)>|
                        w1 == w0 + w && #[trigger] no_write_succeeded(w);
                    assert(self.migrator_calls() =~= m0 + m + mr);
                    assert(self.journal_calls() =~= j0 + jm + jr);
                    assert(rolled_back(launch.target_root@, copied_in(m), mr, jr));
                    assert(no_clearing(jm));
                    assert(no_write_succeeded(w));
                }
                let event = migration_event(
                    &launch,
                    TaskStatus::Cancelled,
                    MOD_STORAGE_MIGRATION_CANCELLED_PHASE,
                    None,
                    None,
                );
                proof {
                    lemma_run_report(events@, launch, event);
                }
                observe_task_progress(&mut events, observer, event);
                Ok(events)
            },
            Err(MigrationStop::Failed(failure)) => {
                self.roll_back(gate, &launch, &copied);
                proof {
                    let (mr, jr) = choose|mr: Seq<MigratorCall>, jr: Seq<JournalCall>|
                        self.migrator_calls() == m1 + mr && self.journal_calls() == j1 + jr && #[trigger] rolled_back(
                            launch.target_root@,
                            names(copied@),
                            mr,
                            jr,
                        );
                    let w = choose|w: Seq<(Option<String>, Result<(), PortFailure>)>|
                        w1 == w0 + w && #[trigger] no_write_succeeded(w);
                    assert(self.migrator_calls() =~= m0 + m + mr);
                    assert(self.journal_calls() =~= j0 + jm + jr);
                    assert(rolled_back(launch.target_root@, copied_in(m), mr, jr));
                    assert(no_clearing(jm));
                    assert(no_write_succeeded(w));
                }
                match tasks.fail_task(task_id.as_str()) {
                    Ok(_) => {},
                    Err(_) => {
                        return Err(ModStorageMigrationTaskError::TaskUnavailable);
                    },
                }
                proof {
                    lemma_with_status_reads_back(
                        *tasks,
                        running,
                        task_id@,
                        task_id@,
                        TaskStatus::Failed,
                    );
                }
                let event = migration_event(
                    &launch,
                    TaskStatus::Failed,
                    MOD_STORAGE_MIGRATION_FAILED_PHASE,
                    None,
                    Some(failure.code()),
                );
                proof {
                    lemma_run_report(events@, launch, event);
                }
                observe_task_progress(&mut events, observer, event);
                Ok(events)
            },
            Err(MigrationStop::TaskUnavailable) => {
                self.roll_back(gate, &launch, &copied);
                Err(ModStorageMigrationTaskError::TaskUnavailable)
            },
        }
    }

    /// Copies and verifies every package of the source, in the order the migrator lists
    /// them, then switches the journal and the setting. Each copy is registered in `copied`
    /// before it starts, so an interrupted, partial copy is rolled back too.
    #[verifier::spinoff_prover]
    #[verifier::rlimit(40)]
    fn migrate<O: TaskProgressObserver>(
        &mut self,
        tasks: &TaskManager,
        launch: &ModStorageMigrationLaunch,
        copied: &mut Vec<String>,
        package_count: &mut u64,
        events: &mut Vec<TaskProgressEvent>,
        observer: &O,
    ) -> (r: Result<(), MigrationStop>)
        requires
            tasks.wf(),
            tasks.status_of(launch.task.task_id@) == Some(TaskStatus::Running),
            old(events)@.len() == 0,
            old(copied)@.len() == 0,
        ensures
            !(r matches Err(MigrationStop::TaskUnavailable)),
            exists|m: Seq<MigratorCall>|
                final(self).migrator_calls() == old(self).migrator_calls() + m && #[trigger] copied_in(m) == names(
                    final(copied)@,
                ) && no_removal(m),
            exists|jm: Seq<JournalCall>|
                final(self).journal_calls() == old(self).journal_calls() + jm && #[trigger] no_clearing(jm),
            r is Ok ==> exists|listed: Vec<String>|
                final(self).migrator_calls() == old(self).migrator_calls() + seq![
                    MigratorCall::List { root: launch.source_root@, answer: Ok(listed) },
                ] + #[trigger] copy_verify_calls(launch.source_root@, launch.target_root@, listed@)
                    && *final(package_count) == listed@.len() && final(copied)@ == listed@,
            r is Ok ==> final(self).setting_writes() == old(self).setting_writes().push((launch.configured_target, Ok(()))),
            r is Err ==> exists|w: Seq<(Option<String>, Result<(), PortFailure>)>|
                final(self).setting_writes() == old(self).setting_writes() + w && #[trigger] no_write_succeeded(w),
            running_events_of(final(events)@, *launch),
            r is Ok ==> *final(package_count) as int == final(copied)@.len(),
            r is Ok ==> final(events)@.len() == 2 * *final(package_count) + 1 && copied_and_verified(
                final(events)@.subrange(0, 2 * *final(package_count)),
                *launch,
                *final(package_count) as nat,
                *final(package_count),
            ) && progress_event(
                final(events)@[2 * *final(package_count)],
                *launch,
                MOD_STORAGE_MIGRATION_SWITCHING_PHASE@,
                *final(package_count),
                *final(package_count),
            ),
    {
        let ghost m0 = self.migrator.calls();
        let ghost j0 = self.journal.calls();
        let ghost w0 = self.ports.setting_writes();
        let task_id = launch.task.task_id.as_str();
        let listed = self.migrator.list_packages(launch.source_root.as_str());
        let ghost list_call = MigratorCall::List { root: launch.source_root@, answer: listed };
        proof {
            assert(copied_in(seq![list_call]) =~= Seq::<Seq<char>>::empty()) by {
                assert(seq![list_call].drop_last() =~= Seq::<MigratorCall>::empty());
                assert(copied_in(Seq::<MigratorCall>::empty()) == Seq::<Seq<char>>::empty());
                assert(seq![list_call].last() == list_call);
            }
            assert(no_removal(seq![list_call]));
            assert(self.migrator.calls() == m0 + seq![list_call]);
            assert(self.journal.calls() =~= j0 + Seq::<JournalCall>::empty());
            assert(self.ports.setting_writes() =~= w0 + Seq::<(Option<String>, Result<(), PortFailure>)>::empty());
            assert(names(copied@) =~= Seq::<Seq<char>>::empty());
        }
        let packages = match listed {
            Ok(p) => p,
            Err(e) => {
                proof {
                    assert(no_write_succeeded(Seq::<(Option<String>, Result<(), PortFailure>)>::empty()));
                    assert(no_clearing(Seq::<JournalCall>::empty()));
                }
                return Err(stop_for(e));
            },
        };
        let total: u64 = packages.len() as u64;
        *package_count = total;
        let started = match self.ports.now_unix_millis() {
            Ok(now) => now,
            // Informational only: a broken clock must not block a migration.
            Err(_) => 0,
        };
        let mut journal = ModStorageMigrationJournal {
            version: MOD_STORAGE_MIGRATION_JOURNAL_VERSION,
            state: ModStorageMigrationState::Copying,
            source_root: launch.source_root.clone(),
            target_root: launch.target_root.clone(),
            packages: packages.clone(),
            started_at_unix_millis: started,
        };
        let saved = self.journal.save(&journal);
        let ghost j1 = self.journal.calls();
        proof {
            assert(j1 =~= j0 + seq![JournalCall::Save { journal, answer: saved }]);
            assert(no_clearing(seq![JournalCall::Save { journal, answer: saved }]));
            assert(no_write_succeeded(Seq::<(Option<String>, Result<(), PortFailure>)>::empty()));
        }
        match saved {
            Ok(()) => {},
            Err(_) => {
                return Err(stop_for(ModStorageMigrationError::JournalUnavailable));
            },
        }
        let ghost first_save = seq![JournalCall::Save { journal, answer: Ok::<(), ModStorageMigrationError>(()) }];
        proof {
            assert(saved is Ok);
            assert(saved->Ok_0 == ());
            assert(saved == Ok::<(), ModStorageMigrationError>(()));
            assert(j1 =~= j0 + first_save);
            assert(no_clearing(first_save));
        }
        let ghost mut mm: Seq<MigratorCall> = seq![list_call];
        proof {
            assert(packages@.subrange(0, 0) =~= Seq::<String>::empty());
            assert(mm =~= seq![list_call] + copy_verify_calls(launch.source_root@, launch.target_root@, packages@.subrange(0, 0)));
            assert(no_removal(mm));
        }
        let mut index: usize = 0;
        while index < packages.len()
            invariant
                index <= packages@.len(),
                total as int == packages@.len(),
                *package_count == total,
                copied@.len() == index,
                copied@ == packages@.subrange(0, index as int),
                list_call == (MigratorCall::List { root: launch.source_root@, answer: Ok::<Vec<String>, ModStorageMigrationError>(packages) }),
                mm == seq![list_call] + copy_verify_calls(launch.source_root@, launch.target_root@, packages@.subrange(0, index as int)),
                self.migrator.calls() == m0 + mm,
                copied_in(mm) == names(copied@),
                no_removal(mm),
                self.journal.calls() == j1,
                j1 == j0 + first_save,
                no_clearing(first_save),
                self.ports.setting_writes() == w0,
                m0 == old(self).migrator.calls(),
                j0 == old(self).journal.calls(),
                w0 == old(self).ports.setting_writes(),
                running_events_of(events@, *launch),
                copied_and_verified(events@, *launch, index as nat, total),
            decreases packages@.len() - index,
        {
            let ghost before = events@;
            if self.ports.cancellation_requested(task_id) {
                proof {
                    assert(no_clearing(first_save));
                    assert(copied_in(mm) == names(copied@));
                    assert(no_write_succeeded(Seq::<(Option<String>, Result<(), PortFailure>)>::empty()));
                    assert(self.ports.setting_writes() =~= w0 + Seq::<(Option<String>, Result<(), PortFailure>)>::empty());
                }
                return Err(MigrationStop::Cancelled);
            }
            let event = migration_event(
                launch,
                TaskStatus::Running,
                MOD_STORAGE_MIGRATION_COPYING_PHASE,
                Some((index as u64, total)),
                None,
            );
            let ghost copying = event;
            proof {
                lemma_running_events_push(events@, *launch, event);
            }
            observe_task_progress(events, observer, event);
            proof {
                assert(events@ == before.push(copying));
            }
            let ghost copied_before = copied@;
            copied.push(packages[index].clone());
            let copy_answer = self.migrator.copy_package(
                launch.source_root.as_str(),
                launch.target_root.as_str(),
                packages[index].as_str(),
            );
            let ghost copy_call = MigratorCall::Copy {
                source_root: launch.source_root@,
                target_root: launch.target_root@,
                package: packages@[index as int]@,
                answer: copy_answer,
            };
            proof {
                let next = mm.push(copy_call);
                assert(next.drop_last() =~= mm);
                assert(names(copied@) =~= names(copied_before).push(packages@[index as int]@));
                assert(copied_in(next) == names(copied@));
                assert(no_removal(next)) by {
                    assert forall|k: int| 0 <= k < next.len() implies !((#[trigger] next[k]) is Remove) by {
                        if k < mm.len() {
                            assert(next[k] == mm[k]);
                        }
                    }
                }
                assert(self.migrator.calls() =~= m0 + next);
                mm = next;
            }
            match copy_answer {
                Ok(()) => {
                    proof {
                        assert(copy_answer->Ok_0 == ());
                        assert(copy_answer == Ok::<(), ModStorageMigrationError>(()));
                    }
                },
                Err(e) => {
                    proof {
                        assert(no_write_succeeded(Seq::<(Option<String>, Result<(), PortFailure>)>::empty()));
                        assert(self.ports.setting_writes() =~= w0 + Seq::<(Option<String>, Result<(), PortFailure>)>::empty());
                        assert(no_clearing(seq![JournalCall::Save { journal, answer: Ok::<(), ModStorageMigrationError>(()) }]));
                    }
                    return Err(stop_for(e));
                },
            }
            let event = migration_event(
                launch,
                TaskStatus::Running,
                MOD_STORAGE_MIGRATION_VERIFYING_PHASE,
                Some((index as u64, total)),
                None,
            );
            let ghost verifying = event;
            let ghost mid = events@;
            proof {
                lemma_running_events_push(events@, *launch, event);
            }
            observe_task_progress(events, observer, event);
            proof {
                assert(events@ == mid.push(verifying));
            }
            let verify_answer = self.migrator.verify_package(
                launch.source_root.as_str(),
                launch.target_root.as_str(),
                packages[index].as_str(),
            );
            let ghost verify_call = MigratorCall::Verify {
                source_root: launch.source_root@,
                target_root: launch.target_root@,
                package: packages@[index as int]@,
                answer: verify_answer,
            };
            proof {
                let next = mm.push(verify_call);
                assert(next.drop_last() =~= mm);
                assert(copied_in(next) == names(copied@));
                assert(no_removal(next)) by {
                    assert forall|k: int| 0 <= k < next.len() implies !((#[trigger] next[k]) is Remove) by {
                        if k < mm.len() {
                            assert(next[k] == mm[k]);
                        }
                    }
                }
                assert(self.migrator.calls() =~= m0 + next);
                mm = next;
            }
            match verify_answer {
                Ok(()) => {
                    proof {
                        assert(verify_answer->Ok_0 == ());
                        assert(verify_answer == Ok::<(), ModStorageMigrationError>(()));
                    }
                },
                Err(e) => {
                    proof {
                        assert(no_write_succeeded(Seq::<(Option<String>, Result<(), PortFailure>)>::empty()));
                        assert(self.ports.setting_writes() =~= w0 + Seq::<(Option<String>, Result<(), PortFailure>)>::empty());
                        assert(no_clearing(seq![JournalCall::Save { journal, answer: Ok::<(), ModStorageMigrationError>(()) }]));
                    }
                    return Err(stop_for(e));
                },
            }
            proof {
                let p = packages@.subrange(0, index + 1);
                assert(p.drop_last() =~= packages@.subrange(0, index as int));
                assert(mm =~= seq![list_call] + copy_verify_calls(launch.source_root@, launch.target_root@, p));
            }
            proof {
                assert(events@.len() == before.len() + 2);
                assert(before.len() == 2 * index);
                assert(events@[2 * index as int] == copying);
                assert(events@[2 * index as int + 1] == verifying);
                assert(progress_event(copying, *launch, MOD_STORAGE_MIGRATION_COPYING_PHASE@, index as u64, total));
                assert(progress_event(verifying, *launch, MOD_STORAGE_MIGRATION_VERIFYING_PHASE@, index as u64, total));
                assert forall|i: int| 0 <= i < index + 1 implies progress_event(
                    #[trigger] events@[2 * i],
                    *launch,
                    MOD_STORAGE_MIGRATION_COPYING_PHASE@,
                    i as u64,
                    total,
                ) && progress_event(events@[2 * i + 1], *launch, MOD_STORAGE_MIGRATION_VERIFYING_PHASE@, i as u64, total) by {
                    if i < index {
                        assert(events@[2 * i] == before[2 * i]);
                        assert(events@[2 * i + 1] == before[2 * i + 1]);
                    }
                }
                assert(events@.len() == 2 * ((index + 1) as nat));
                assert(copied_and_verified(events@, *launch, (index + 1) as nat, total));
            }
            index = index + 1;
        }
        // Point of no return: a cancel request that arrives after this check is not honoured,
        // so the journal and the setting cannot diverge because of a late cancellation.
        proof {
            assert(packages@.subrange(0, packages@.len() as int) =~= packages@);
            assert(copied_in(mm) == names(copied@));
            assert(no_write_succeeded(Seq::<(Option<String>, Result<(), PortFailure>)>::empty()));
            assert(self.ports.setting_writes() =~= w0 + Seq::<(Option<String>, Result<(), PortFailure>)>::empty());
        }
        if self.ports.cancellation_requested(task_id) {
            return Err(MigrationStop::Cancelled);
        }
        match tasks.task_status(task_id) {
            Some(TaskStatus::Running) => {},
            _ => {
                return Err(MigrationStop::TaskUnavailable);
            },
        }
        let event = migration_event(
            launch,
            TaskStatus::Running,
            MOD_STORAGE_MIGRATION_SWITCHING_PHASE,
            Some((total, total)),
            None,
        );
        proof {
            lemma_running_events_push(events@, *launch, event);
        }
        let ghost before_switch = events@;
        observe_task_progress(events, observer, event);
        proof {
            assert(events@.subrange(0, 2 * total) =~= before_switch);
        }
        journal.state = ModStorageMigrationState::Switched;
        let switched = self.journal.save(&journal);
        let ghost saves = first_save.push(JournalCall::Save { journal, answer: switched });
        proof {
            assert(self.journal.calls() =~= j0 + saves);
            assert(no_clearing(saves)) by {
                assert forall|k: int| 0 <= k < saves.len() implies !((#[trigger] saves[k]) is Clear) by {
                    if k < first_save.len() {
                        assert(saves[k] == first_save[k]);
                    }
                }
            }
        }
        match switched {
            Ok(()) => {},
            Err(_) => {
                return Err(stop_for(ModStorageMigrationError::JournalUnavailable));
            },
        }
        let written = self.ports.write_configured(&launch.configured_target);
        proof {
            let w = seq![(launch.configured_target, written)];
            assert(self.ports.setting_writes() =~= w0 + w);
            if written is Err {
                assert(no_write_succeeded(w));
            }
            assert(self.migrator.calls() == m0 + mm);
            assert(mm == seq![list_call] + copy_verify_calls(launch.source_root@, launch.target_root@, packages@));
            assert(copied@ == packages@);
        }
        match written {
            Ok(()) => {
                proof {
                    assert(written->Ok_0 == ());
                    assert(written == Ok::<(), PortFailure>(()));
                    assert(self.ports.setting_writes() =~= w0.push((launch.configured_target, Ok::<(), PortFailure>(()))));
                }
                Ok(())
            },
            Err(_) => Err(MigrationStop::Failed(ModStorageMigrationFailure::SettingsUnavailable)),
        }
    }

    /// Removes the copies made so far and the journal; the setting was never switched. When a
    /// copy cannot be removed the journal is kept so the next start retries the rollback.
    fn roll_back(
        &mut self,
        gate: &mut ModStorageWriteGate,
        launch: &ModStorageMigrationLaunch,
        copied: &Vec<String>,
    )
        ensures
            final(gate)@ == after_end_migration(old(gate)@, false),
            exists|mcalls: Seq<MigratorCall>, jcalls: Seq<JournalCall>|
                final(self).migrator_calls() == old(self).migrator_calls() + mcalls && final(self).journal_calls()
                    == old(self).journal_calls() + jcalls && #[trigger] rolled_back(
                    launch.target_root@,
                    names(copied@),
                    mcalls,
                    jcalls,
                ),
            final(self).setting_writes() == old(self).setting_writes(),
    {
        let ghost m0 = self.migrator.calls();
        let ghost j0 = self.journal.calls();
        let ghost mut answers: Seq<Result<(), ModStorageMigrationError>> = Seq::empty();
        let mut complete = true;
        let mut i: usize = 0;
        while i < copied.len()
            invariant
                i <= copied@.len(),
                answers.len() == i,
                self.migrator.calls() == m0 + removals_named(launch.target_root@, names(copied@), answers),
                self.journal.calls() == j0,
                self.ports.setting_writes() == old(self).ports.setting_writes(),
                complete == all_ok(answers),
            decreases copied@.len() - i,
        {
            let answer = self.migrator.remove_package(launch.target_root.as_str(), copied[i].as_str());
            let ghost prev = answers;
            proof {
                let next = answers.push(answer);
                assert(removals_named(launch.target_root@, names(copied@), next) =~= removals_named(
                    launch.target_root@,
                    names(copied@),
                    answers,
                ).push(MigratorCall::Remove { root: launch.target_root@, package: copied@[i as int]@, answer }));
                answers = next;
            }
            if answer.is_err() {
                complete = false;
            }
            proof {
                assert(answers[answers.len() - 1] == answer);
                assert forall|k: int| 0 <= k < prev.len() implies answers[k] == prev[k] by {}
                if complete {
                    assert forall|k: int| 0 <= k < answers.len() implies (#[trigger] answers[k]) is Ok by {
                        if k < prev.len() {
                            assert(answers[k] == prev[k]);
                        }
                    }
                } else if answer is Ok {
                    let k = choose|k: int| 0 <= k < prev.len() && !((#[trigger] prev[k]) is Ok);
                    assert(answers[k] == prev[k]);
                }
            }
            i = i + 1;
        }
        let mut cleared: Result<(), ModStorageMigrationError> = Ok(());
        if complete {
            cleared = self.journal.clear();
        }
        proof {
            let mc = removals_named(launch.target_root@, names(copied@), answers);
            let jc = clear_call(all_ok(answers), cleared);
            assert(self.journal.calls() =~= j0 + jc);
            assert(rolled_back(launch.target_root@, names(copied@), mc, jc));
        }
        gate.end_migration(false);
    }
}

/// What the startup settlement did with a journal left behind by a previous process.
#[derive(Debug, Clone, PartialEq, Eq)]
pub enum ModStorageMigrationSettlement {
    NoJournal,
    /// The switched root is in effect; the source copies were removed and the journal cleared.
    SourceCleaned { package_count: u64 },
    /// The switched root is in effect but the source could not be cleaned yet. Journal kept.
    CleanupBlocked(ModStorageMigrationError),
    /// The setting never switched; the listed packages were removed from the target and the
    /// journal cleared.
    RolledBack { package_count: u64 },
    /// Rollback could not remove every listed package; journal kept for the next start.
    RollbackBlocked(ModStorageMigrationError),
    /// The effective root is unknown, or names the journal's target while the journal still
    /// says `copying`; no action is safe, so the journal is kept.
    Deferred,
    JournalUnreadable(ModStorageMigrationError),
}

/// What may be done with a pending journal.
#[derive(Debug, Clone, Copy, PartialEq, Eq, Structural)]
pub enum ModStorageMigrationSettlementRoute {
    Defer,
    /// The switch took effect: remove the source copies.
    CleanSource,
    /// The switch never took effect: remove the target copies.
    RollBack,
}

pub open spec fn settlement_route_spec(
    state: ModStorageMigrationState,
    in_effect: Option<bool>,
) -> ModStorageMigrationSettlementRoute {
    match in_effect {
        None => ModStorageMigrationSettlementRoute::Defer,
        Some(true) => match state {
            ModStorageMigrationState::Switched => ModStorageMigrationSettlementRoute::CleanSource,
            ModStorageMigrationState::Copying => ModStorageMigrationSettlementRoute::Defer,
        },
        Some(false) => ModStorageMigrationSettlementRoute::RollBack,
    }
}

pub open spec fn opt_str_view(value: Option<&str>) -> Option<Seq<char>> {
    match value {
        Some(s) => Some(s@),
        None => None,
    }
}

/// Decides what a pending journal allows, given whether its target is the root in effect
/// (`None` when the settings could not be read).
pub fn settlement_route(
    state: ModStorageMigrationState,
    in_effect: Option<bool>,
) -> (r: ModStorageMigrationSettlementRoute)
    ensures
        r == settlement_route_spec(state, in_effect),
{
    match in_effect {
        None => ModStorageMigrationSettlementRoute::Defer,
        Some(true) => match state {
            ModStorageMigrationState::Switched => ModStorageMigrationSettlementRoute::CleanSource,
            ModStorageMigrationState::Copying => ModStorageMigrationSettlementRoute::Defer,
        },
        Some(false) => ModStorageMigrationSettlementRoute::RollBack,
    }
}

/// Whether `path` names an existing directory (`std::path::Path::is_dir`). The file system
/// decides; nothing is promised about the answer.
#[verifier::external_body]
fn path_is_dir(path: &str) -> bool {
    std::path::Path::new(path).is_dir()
}

/// The first package, from `i` on, that the target was not confirmed to hold, with the reason.
pub open spec fn first_unconfirmed(answers: Seq<Result<bool, ModStorageMigrationError>>, i: int) -> Option<
    ModStorageMigrationError,
>
    decreases answers.len() - i,
{
    if i < 0 || i >= answers.len() {
        None
    } else {
        match answers[i] {
            Ok(true) => first_unconfirmed(answers, i + 1),
            Ok(false) => Some(ModStorageMigrationError::TargetPackageMissing),
            Err(e) => Some(e),
        }
    }
}

/// The first failed removal from `i` on.
pub open spec fn first_failed_removal(answers: Seq<Result<(), ModStorageMigrationError>>, i: int) -> Option<
    ModStorageMigrationError,
>
    decreases answers.len() - i,
{
    if i < 0 || i >= answers.len() {
        None
    } else {
        match answers[i] {
            Ok(()) => first_failed_removal(answers, i + 1),
            Err(e) => Some(e),
        }
    }
}

/// Cleaning the source once the switch took effect: the source must be a directory, every
/// package must be confirmed in the target (in journal order) before any source copy is
/// removed, then every source copy is removed and the journal cleared; the first failure
/// blocks the cleanup.
pub open spec fn clean_source_spec(
    is_dir: bool,
    confirmations: Seq<Result<bool, ModStorageMigrationError>>,
    removals: Seq<Result<(), ModStorageMigrationError>>,
    cleared: Result<(), ModStorageMigrationError>,
    package_count: u64,
) -> ModStorageMigrationSettlement {
    if !is_dir {
        ModStorageMigrationSettlement::CleanupBlocked(ModStorageMigrationError::SourceUnavailable)
    } else {
        match first_unconfirmed(confirmations, 0) {
            Some(e) => ModStorageMigrationSettlement::CleanupBlocked(e),
            None => match first_failed_removal(removals, 0) {
                Some(e) => ModStorageMigrationSettlement::CleanupBlocked(e),
                None => match cleared {
                    Ok(()) => ModStorageMigrationSettlement::SourceCleaned { package_count },
                    Err(e) => ModStorageMigrationSettlement::CleanupBlocked(e),
                },
            },
        }
    }
}

/// Rolling back a switch that never took effect: every target copy is removed, then the
/// journal cleared; the first failure blocks the rollback.
pub open spec fn rollback_spec(
    removals: Seq<Result<(), ModStorageMigrationError>>,
    cleared: Result<(), ModStorageMigrationError>,
    package_count: u64,
) -> ModStorageMigrationSettlement {
    match first_failed_removal(removals, 0) {
        Some(e) => ModStorageMigrationSettlement::RollbackBlocked(e),
        None => match cleared {
            Ok(()) => ModStorageMigrationSettlement::RolledBack { package_count },
            Err(e) => ModStorageMigrationSettlement::RollbackBlocked(e),
        },
    }
}

/// No package is unconfirmed exactly when the target was confirmed to hold every one.
pub proof fn lemma_all_confirmed(answers: Seq<Result<bool, ModStorageMigrationError>>, i: int)
    requires
        0 <= i <= answers.len(),
    ensures
        first_unconfirmed(answers, i) is None <==> forall|k: int| i <= k < answers.len() ==> #[trigger] answers[k]
            == Ok::<bool, ModStorageMigrationError>(true),
    decreases answers.len() - i,
{
    if i < answers.len() {
        lemma_all_confirmed(answers, i + 1);
        if answers[i] == Ok::<bool, ModStorageMigrationError>(true) {
            assert forall|k: int| i <= k < answers.len() && (forall|m: int| i + 1 <= m < answers.len() ==> #[trigger] answers[m]
                == Ok::<bool, ModStorageMigrationError>(true)) implies answers[k] == Ok::<bool, ModStorageMigrationError>(true) by {
                if k > i {
                    assert(answers[k] == Ok::<bool, ModStorageMigrationError>(true));
                }
            }
        }
    }
}

/// The source copies are removed only after the target was confirmed to hold every package: a
/// cleaned source, or any removal at all being asked for, means every confirmation came back
/// present.
pub proof fn lemma_source_removed_only_after_confirmation(
    is_dir: bool,
    confirmations: Seq<Result<bool, ModStorageMigrationError>>,
    removals: Seq<Result<(), ModStorageMigrationError>>,
    cleared: Result<(), ModStorageMigrationError>,
    package_count: u64,
)
    requires
        clean_source_spec(is_dir, confirmations, removals, cleared, package_count) is SourceCleaned,
    ensures
        is_dir,
        forall|k: int| 0 <= k < confirmations.len() ==> #[trigger] confirmations[k] == Ok::<bool, ModStorageMigrationError>(true),
{
    lemma_all_confirmed(confirmations, 0);
}

fn first_unconfirmed_exec(answers: &Vec<Result<bool, ModStorageMigrationError>>) -> (r: Option<ModStorageMigrationError>)
    ensures
        r == first_unconfirmed(answers@, 0),
{
    let mut i: usize = 0;
    while i < answers.len()
        invariant
            i <= answers@.len(),
            first_unconfirmed(answers@, 0) == first_unconfirmed(answers@, i as int),
        decreases answers@.len() - i,
    {
        match answers[i] {
            Ok(true) => {},
            Ok(false) => {
                return Some(ModStorageMigrationError::TargetPackageMissing);
            },
            Err(e) => {
                return Some(e);
            },
        }
        i = i + 1;
    }
    None
}

fn first_failed_removal_exec(answers: &Vec<Result<(), ModStorageMigrationError>>) -> (r: Option<ModStorageMigrationError>)
    ensures
        r == first_failed_removal(answers@, 0),
{
    let mut i: usize = 0;
    while i < answers.len()
        invariant
            i <= answers@.len(),
            first_failed_removal(answers@, 0) == first_failed_removal(answers@, i as int),
        decreases answers@.len() - i,
    {
        match answers[i] {
            Ok(()) => {},
            Err(e) => {
                return Some(e);
            },
        }
        i = i + 1;
    }
    None
}

/// Settles the clean-source route from what the file system and the ports answered, one
/// confirmation and one removal per package in journal order.
pub fn clean_source_settlement(
    is_dir: bool,
    confirmations: &Vec<Result<bool, ModStorageMigrationError>>,
    removals: &Vec<Result<(), ModStorageMigrationError>>,
    cleared: Result<(), ModStorageMigrationError>,
    package_count: u64,
) -> (r: ModStorageMigrationSettlement)
    ensures
        r == clean_source_spec(is_dir, confirmations@, removals@, cleared, package_count),
{
    if !is_dir {
        return ModStorageMigrationSettlement::CleanupBlocked(ModStorageMigrationError::SourceUnavailable);
    }
    match first_unconfirmed_exec(confirmations) {
        Some(e) => ModStorageMigrationSettlement::CleanupBlocked(e),
        None => match first_failed_removal_exec(removals) {
            Some(e) => ModStorageMigrationSettlement::CleanupBlocked(e),
            None => match cleared {
                Ok(()) => ModStorageMigrationSettlement::SourceCleaned { package_count },
                Err(e) => ModStorageMigrationSettlement::CleanupBlocked(e),
            },
        },
    }
}

/// Settles the rollback route from the removal and journal answers, one removal per package.
pub fn rollback_settlement(
    removals: &Vec<Result<(), ModStorageMigrationError>>,
    cleared: Result<(), ModStorageMigrationError>,
    package_count: u64,
) -> (r: ModStorageMigrationSettlement)
    ensures
        r == rollback_spec(removals@, cleared, package_count),
{
    match first_failed_removal_exec(removals) {
        Some(e) => ModStorageMigrationSettlement::RollbackBlocked(e),
        None => match cleared {
            Ok(()) => ModStorageMigrationSettlement::RolledBack { package_count },
            Err(e) => ModStorageMigrationSettlement::RollbackBlocked(e),
        },
    }
}

/// Fills the answers of packages that were never asked about, after a failure ended the
/// confirmations; they follow the failure, so they decide nothing.
fn pad_confirmations(answers: &mut Vec<Result<bool, ModStorageMigrationError>>, n: usize)
    ensures
        final(answers)@.len() == if old(answers)@.len() < n { n as int } else { old(answers)@.len() as int },
        forall|k: int| 0 <= k < old(answers)@.len() ==> #[trigger] final(answers)@[k] == old(answers)@[k],
        forall|k: int| old(answers)@.len() <= k < final(answers)@.len() ==> #[trigger] final(answers)@[k]
            == Ok::<bool, ModStorageMigrationError>(true),
{
    while answers.len() < n
        invariant
            forall|k: int| 0 <= k < old(answers)@.len() ==> #[trigger] answers@[k] == old(answers)@[k],
            forall|k: int| old(answers)@.len() <= k < answers@.len() ==> #[trigger] answers@[k]
                == Ok::<bool, ModStorageMigrationError>(true),
            old(answers)@.len() <= answers@.len(),
            answers@.len() <= (if old(answers)@.len() < n { n as int } else { old(answers)@.len() as int }),
        decreases n - answers@.len(),
    {
        answers.push(Ok(true));
    }
}

fn pad_removals(answers: &mut Vec<Result<(), ModStorageMigrationError>>, n: usize)
    ensures
        final(answers)@.len() == if old(answers)@.len() < n { n as int } else { old(answers)@.len() as int },
        forall|k: int| 0 <= k < old(answers)@.len() ==> #[trigger] final(answers)@[k] == old(answers)@[k],
        forall|k: int| old(answers)@.len() <= k < final(answers)@.len() ==> #[trigger] final(answers)@[k]
            == Ok::<(), ModStorageMigrationError>(()),
{
    while answers.len() < n
        invariant
            forall|k: int| 0 <= k < old(answers)@.len() ==> #[trigger] answers@[k] == old(answers)@[k],
            forall|k: int| old(answers)@.len() <= k < answers@.len() ==> #[trigger] answers@[k]
                == Ok::<(), ModStorageMigrationError>(()),
            old(answers)@.len() <= answers@.len(),
            answers@.len() <= (if old(answers)@.len() < n { n as int } else { old(answers)@.len() as int }),
        decreases n - answers@.len(),
    {
        answers.push(Ok(()));
    }
}



/// The package checks asked of the target, in journal order.
pub open spec fn exists_calls(
    root: Seq<char>,
    packages: Seq<String>,
    answers: Seq<Result<bool, ModStorageMigrationError>>,
) -> Seq<MigratorCall> {
    Seq::new(answers.len(), |i: int| MigratorCall::Exists { root, package: packages[i]@, answer: answers[i] })
}

/// The package removals asked of `root`, in order.
pub open spec fn removal_calls(
    root: Seq<char>,
    packages: Seq<String>,
    answers: Seq<Result<(), ModStorageMigrationError>>,
) -> Seq<MigratorCall> {
    Seq::new(answers.len(), |i: int| MigratorCall::Remove { root, package: packages[i]@, answer: answers[i] })
}

/// All `n` packages were confirmed present.
pub open spec fn confirmed_all(answers: Seq<Result<bool, ModStorageMigrationError>>, n: int) -> bool {
    answers.len() == n && forall|k: int| 0 <= k < n ==> #[trigger] answers[k] == Ok::<bool, ModStorageMigrationError>(true)
}

/// All `n` removals succeeded.
pub open spec fn removed_all(answers: Seq<Result<(), ModStorageMigrationError>>, n: int) -> bool {
    answers.len() == n && forall|k: int| 0 <= k < n ==> (#[trigger] answers[k]) is Ok
}

/// The packages were asked about in order until the first one not confirmed present.
pub open spec fn asked_until_unconfirmed(answers: Seq<Result<bool, ModStorageMigrationError>>, n: int) -> bool {
    &&& answers.len() <= n
    &&& forall|k: int| 0 <= k < answers.len() - 1 ==> #[trigger] answers[k] == Ok::<bool, ModStorageMigrationError>(true)
    &&& answers.len() < n ==> answers.len() > 0 && answers.last() != Ok::<bool, ModStorageMigrationError>(true)
}

/// The packages were removed in order until the first failed removal.
pub open spec fn asked_until_failed(answers: Seq<Result<(), ModStorageMigrationError>>, n: int) -> bool {
    &&& answers.len() <= n
    &&& forall|k: int| 0 <= k < answers.len() - 1 ==> (#[trigger] answers[k]) is Ok
    &&& answers.len() < n ==> answers.len() > 0 && answers.last() is Err
}

/// The journal is cleared, with this answer, exactly when `done`.
pub open spec fn clear_call(done: bool, cleared: Result<(), ModStorageMigrationError>) -> Seq<JournalCall> {
    if done {
        seq![JournalCall::Clear { answer: cleared }]
    } else {
        Seq::empty()
    }
}

/// Answers never asked, after a failure: they follow the failure, so they decide nothing.
pub open spec fn padded_confirmations(answers: Seq<Result<bool, ModStorageMigrationError>>, n: int) -> Seq<
    Result<bool, ModStorageMigrationError>,
> {
    answers + Seq::new((n - answers.len()) as nat, |i: int| Ok::<bool, ModStorageMigrationError>(true))
}

pub open spec fn padded_removals(answers: Seq<Result<(), ModStorageMigrationError>>, n: int) -> Seq<
    Result<(), ModStorageMigrationError>,
> {
    answers + Seq::new((n - answers.len()) as nat, |i: int| Ok::<(), ModStorageMigrationError>(()))
}

/// The calls settling along `route` made of the migrator (`mcalls`) and of the journal
/// (`jcalls`), and what they gave: nothing when deferred; when cleaning the source, nothing
/// unless the source is a directory, then every package checked in the target in order until
/// one is not confirmed, source copies removed only once all were confirmed (in order, until
/// a removal fails), and the journal cleared only once all were removed; when rolling back,
/// the target copies removed in order until one fails, and the journal cleared once all were.
pub open spec fn settlement_calls(
    pending: ModStorageMigrationJournal,
    route: ModStorageMigrationSettlementRoute,
    r: ModStorageMigrationSettlement,
    mcalls: Seq<MigratorCall>,
    jcalls: Seq<JournalCall>,
) -> bool {
    let n = pending.packages@.len() as int;
    match route {
        ModStorageMigrationSettlementRoute::Defer => mcalls.len() == 0 && jcalls.len() == 0
            && r == ModStorageMigrationSettlement::Deferred,
        ModStorageMigrationSettlementRoute::CleanSource => exists|
            is_dir: bool,
            conf: Seq<Result<bool, ModStorageMigrationError>>,
            rems: Seq<Result<(), ModStorageMigrationError>>,
            cleared: Result<(), ModStorageMigrationError>,
        |
            {
                &&& mcalls == exists_calls(pending.target_root@, pending.packages@, conf) + removal_calls(
                    pending.source_root@,
                    pending.packages@,
                    rems,
                )
                &&& !is_dir ==> conf.len() == 0 && rems.len() == 0 && jcalls.len() == 0
                &&& is_dir ==> asked_until_unconfirmed(conf, n)
                &&& is_dir && confirmed_all(conf, n) ==> asked_until_failed(rems, n)
                &&& !confirmed_all(conf, n) ==> rems.len() == 0
                &&& is_dir ==> jcalls == clear_call(confirmed_all(conf, n) && removed_all(rems, n), cleared)
                &&& r == #[trigger] clean_source_spec(
                    is_dir,
                    padded_confirmations(conf, n),
                    padded_removals(rems, n),
                    cleared,
                    n as u64,
                )
            },
        ModStorageMigrationSettlementRoute::RollBack => exists|
            rems: Seq<Result<(), ModStorageMigrationError>>,
            cleared: Result<(), ModStorageMigrationError>,
        |
            {
                &&& mcalls == removal_calls(pending.target_root@, pending.packages@, rems)
                &&& asked_until_failed(rems, n)
                &&& jcalls == clear_call(removed_all(rems, n), cleared)
                &&& r == #[trigger] rollback_spec(padded_removals(rems, n), cleared, n as u64)
            },
    }
}

/// What settling a loaded journal gives: the route follows the path comparison's answer (the
/// target is in effect when the texts are equal), and `r` settles the journal along it with
/// the calls `mcalls` and `jcalls`.
pub open spec fn settles_loaded(
    pending: ModStorageMigrationJournal,
    effective_root: Option<Seq<char>>,
    r: ModStorageMigrationSettlement,
    mcalls: Seq<MigratorCall>,
    jcalls: Seq<JournalCall>,
) -> bool {
    &&& exists|in_effect: Option<bool>|
        #[trigger] in_effect_answer(pending.target_root@, effective_root, in_effect) && settled_along(
            pending,
            settlement_route_spec(pending.state, in_effect),
            r,
        ) && settlement_calls(pending, settlement_route_spec(pending.state, in_effect), r, mcalls, jcalls)
    &&& effective_root == Some(pending.target_root@) ==> settled_along(
        pending,
        settlement_route_spec(pending.state, Some(true)),
        r,
    ) && settlement_calls(pending, settlement_route_spec(pending.state, Some(true)), r, mcalls, jcalls)
    &&& effective_root is None ==> r == ModStorageMigrationSettlement::Deferred && mcalls.len() == 0 && jcalls.len()
        == 0
}

/// What settling at start gives for what the journal repository loaded, and the calls it
/// made: the load first; without a journal or when it cannot be read, nothing else and
/// `NoJournal` or the repository's error; else the loaded journal settled.
pub open spec fn settles_pending(
    loaded: Result<Option<ModStorageMigrationJournal>, ModStorageMigrationError>,
    effective_root: Option<Seq<char>>,
    r: ModStorageMigrationSettlement,
    mcalls: Seq<MigratorCall>,
    jcalls: Seq<JournalCall>,
) -> bool {
    &&& jcalls.len() >= 1
    &&& jcalls[0] == JournalCall::Load { answer: loaded }
    &&& match loaded {
        Ok(None) => r == ModStorageMigrationSettlement::NoJournal && mcalls.len() == 0 && jcalls.len() == 1,
        Err(e) => r == ModStorageMigrationSettlement::JournalUnreadable(e) && mcalls.len() == 0 && jcalls.len() == 1,
        Ok(Some(p)) => settles_loaded(p, effective_root, r, mcalls, jcalls.drop_first()),
    }
}

/// Where the journal's target stands against the root in effect, as the path comparison
/// answered: unknown when the settings could not be read; in effect, at least, when the two
/// texts are equal.
pub open spec fn in_effect_answer(target_root: Seq<char>, effective_root: Option<Seq<char>>, in_effect: Option<bool>) -> bool {
    match effective_root {
        None => in_effect is None,
        Some(root) => in_effect is Some && (root == target_root ==> in_effect == Some(true)),
    }
}

/// `r` settles `pending` along `route`: nothing when deferred; the source copies removed, or
/// blocked as `clean_source_spec` says; the target copies removed, or blocked as
/// `rollback_spec` says.
pub open spec fn settled_along(
    pending: ModStorageMigrationJournal,
    route: ModStorageMigrationSettlementRoute,
    r: ModStorageMigrationSettlement,
) -> bool {
    &&& route == ModStorageMigrationSettlementRoute::Defer ==> r == ModStorageMigrationSettlement::Deferred
    &&& route == ModStorageMigrationSettlementRoute::CleanSource ==> exists|
        is_dir: bool,
        confirmations: Seq<Result<bool, ModStorageMigrationError>>,
        removals: Seq<Result<(), ModStorageMigrationError>>,
        cleared: Result<(), ModStorageMigrationError>,
    |
        confirmations.len() == pending.packages@.len() && removals.len() == pending.packages@.len() && r
            == #[trigger] clean_source_spec(is_dir, confirmations, removals, cleared, pending.packages@.len() as u64)
    &&& route == ModStorageMigrationSettlementRoute::RollBack ==> exists|
        removals: Seq<Result<(), ModStorageMigrationError>>,
        cleared: Result<(), ModStorageMigrationError>,
    |
        removals.len() == pending.packages@.len() && r == #[trigger] rollback_spec(
            removals,
            cleared,
            pending.packages@.len() as u64,
        )
}

/// Finishes or rolls back the migration recorded in `pending`. Source copies are only ever
/// removed once the journal's target is the root in effect and the journal says the switch
/// happened; target copies only when the target is not in effect.
#[verifier::loop_isolation(false)]
pub fn settle_loaded_mod_storage_migration<J: ModStorageMigrationJournalRepository, M: ModStorageMigrator>(
    journal: &mut J,
    migrator: &mut M,
    pending: &ModStorageMigrationJournal,
    effective_root: Option<&str>,
) -> (r: ModStorageMigrationSettlement)
    ensures
        exists|mcalls: Seq<MigratorCall>, jcalls: Seq<JournalCall>|
            final(migrator).calls() == old(migrator).calls() + mcalls && final(journal).calls() == old(journal).calls()
                + jcalls && #[trigger] settles_loaded(*pending, opt_str_view(effective_root), r, mcalls, jcalls),
{
    let ghost m0 = migrator.calls();
    let ghost j0 = journal.calls();
    let ghost mut mc: Seq<MigratorCall> = Seq::empty();
    let ghost mut jc: Seq<JournalCall> = Seq::empty();
    let package_count: u64 = pending.packages.len() as u64;
    let in_effect = match effective_root {
        None => None,
        Some(root) => Some(same_path(root, pending.target_root.as_str())),
    };
    proof {
        assert(in_effect_answer(pending.target_root@, opt_str_view(effective_root), in_effect));
    }
    let ghost route = settlement_route_spec(pending.state, in_effect);
    let r = match settlement_route(pending.state, in_effect) {
        ModStorageMigrationSettlementRoute::Defer => {
            proof {
                assert(migrator.calls() == m0 + mc);
                assert(journal.calls() == j0 + jc);
            }
            ModStorageMigrationSettlement::Deferred
        },
        ModStorageMigrationSettlementRoute::CleanSource => {
            let n = pending.packages.len();
            let is_dir = path_is_dir(pending.source_root.as_str());
            let mut confirmations: Vec<Result<bool, ModStorageMigrationError>> = Vec::new();
            let mut removals: Vec<Result<(), ModStorageMigrationError>> = Vec::new();
            let mut cleared: Result<(), ModStorageMigrationError> = Ok(());
            if is_dir {
                let mut all_present = true;
                let mut i: usize = 0;
                while i < n && all_present
                    invariant
                        n == pending.packages@.len(),
                        i <= n,
                        confirmations@.len() == i,
                        migrator.calls() == m0 + exists_calls(pending.target_root@, pending.packages@, confirmations@),
                        journal.calls() == j0,
                        removals@.len() == 0,
                        forall|k: int| 0 <= k < i - 1 ==> #[trigger] confirmations@[k] == Ok::<bool, ModStorageMigrationError>(true),
                        all_present == (i == 0 || confirmations@[i - 1] == Ok::<bool, ModStorageMigrationError>(true)),
                    decreases n - i,
                {
                    let ghost before = confirmations@;
                    let answer = migrator.package_exists(pending.target_root.as_str(), pending.packages[i].as_str());
                    all_present = match answer {
                        Ok(true) => true,
                        _ => false,
                    };
                    confirmations.push(answer);
                    proof {
                        assert(exists_calls(pending.target_root@, pending.packages@, confirmations@) =~= exists_calls(
                            pending.target_root@,
                            pending.packages@,
                            before,
                        ).push(MigratorCall::Exists { root: pending.target_root@, package: pending.packages@[i as int]@, answer }));
                    }
                    i = i + 1;
                }
                proof {
                    if all_present {
                        assert(confirmed_all(confirmations@, n as int));
                    } else {
                        assert(!confirmed_all(confirmations@, n as int));
                    }
                }
                if all_present {
                    let ghost conf = confirmations@;
                    let mut all_removed = true;
                    let mut j: usize = 0;
                    while j < n && all_removed
                        invariant
                            n == pending.packages@.len(),
                            j <= n,
                            removals@.len() == j,
                            confirmations@ == conf,
                            migrator.calls() == m0 + exists_calls(pending.target_root@, pending.packages@, conf)
                                + removal_calls(pending.source_root@, pending.packages@, removals@),
                            journal.calls() == j0,
                            forall|k: int| 0 <= k < j - 1 ==> (#[trigger] removals@[k]) is Ok,
                            all_removed == (j == 0 || removals@[j - 1] is Ok),
                        decreases n - j,
                    {
                        let ghost before = removals@;
                        let answer = migrator.remove_package(pending.source_root.as_str(), pending.packages[j].as_str());
                        all_removed = answer.is_ok();
                        removals.push(answer);
                        proof {
                            assert(removal_calls(pending.source_root@, pending.packages@, removals@) =~= removal_calls(
                                pending.source_root@,
                                pending.packages@,
                                before,
                            ).push(MigratorCall::Remove { root: pending.source_root@, package: pending.packages@[j as int]@, answer }));
                            assert(m0 + exists_calls(pending.target_root@, pending.packages@, conf) + removal_calls(
                                pending.source_root@,
                                pending.packages@,
                                removals@,
                            ) =~= (m0 + exists_calls(pending.target_root@, pending.packages@, conf) + removal_calls(
                                pending.source_root@,
                                pending.packages@,
                                before,
                            )).push(MigratorCall::Remove { root: pending.source_root@, package: pending.packages@[j as int]@, answer }));
                        }
                        j = j + 1;
                    }
                    proof {
                        if all_removed {
                            assert(removed_all(removals@, n as int));
                        } else {
                            assert(!removed_all(removals@, n as int));
                        }
                    }
                    if all_removed {
                        cleared = journal.clear();
                    }
                }
            }
            let ghost conf_asked = confirmations@;
            let ghost rems_asked = removals@;
            proof {
                mc = exists_calls(pending.target_root@, pending.packages@, conf_asked) + removal_calls(
                    pending.source_root@,
                    pending.packages@,
                    rems_asked,
                );
                jc = journal.calls().subrange(j0.len() as int, journal.calls().len() as int);
                assert(journal.calls() =~= j0 + jc);
                if is_dir {
                    assert(jc =~= clear_call(confirmed_all(conf_asked, n as int) && removed_all(rems_asked, n as int), cleared));
                } else {
                    assert(jc =~= Seq::<JournalCall>::empty());
                }
                assert(migrator.calls() =~= m0 + mc);
            }
            pad_confirmations(&mut confirmations, n);
            pad_removals(&mut removals, n);
            proof {
                assert(confirmations@ =~= padded_confirmations(conf_asked, n as int));
                assert(removals@ =~= padded_removals(rems_asked, n as int));
            }
            let r = clean_source_settlement(is_dir, &confirmations, &removals, cleared, package_count);
            proof {
                assert(r == clean_source_spec(is_dir, confirmations@, removals@, cleared, package_count));
                assert(settlement_calls(*pending, route, r, mc, jc));
            }
            r
        },
        ModStorageMigrationSettlementRoute::RollBack => {
            let n = pending.packages.len();
            let mut removals: Vec<Result<(), ModStorageMigrationError>> = Vec::new();
            let mut cleared: Result<(), ModStorageMigrationError> = Ok(());
            let mut all_removed = true;
            let mut i: usize = 0;
            while i < n && all_removed
                invariant
                    n == pending.packages@.len(),
                    i <= n,
                    removals@.len() == i,
                    migrator.calls() == m0 + removal_calls(pending.target_root@, pending.packages@, removals@),
                    journal.calls() == j0,
                    forall|k: int| 0 <= k < i - 1 ==> (#[trigger] removals@[k]) is Ok,
                    all_removed == (i == 0 || removals@[i - 1] is Ok),
                decreases n - i,
            {
                let ghost before = removals@;
                let answer = migrator.remove_package(pending.target_root.as_str(), pending.packages[i].as_str());
                all_removed = answer.is_ok();
                removals.push(answer);
                proof {
                    assert(removal_calls(pending.target_root@, pending.packages@, removals@) =~= removal_calls(
                        pending.target_root@,
                        pending.packages@,
                        before,
                    ).push(MigratorCall::Remove { root: pending.target_root@, package: pending.packages@[i as int]@, answer }));
                }
                i = i + 1;
            }
            proof {
                if all_removed {
                    assert(removed_all(removals@, n as int));
                } else {
                    assert(!removed_all(removals@, n as int));
                }
            }
            if all_removed {
                cleared = journal.clear();
            }
            let ghost rems_asked = removals@;
            proof {
                mc = removal_calls(pending.target_root@, pending.packages@, rems_asked);
                jc = journal.calls().subrange(j0.len() as int, journal.calls().len() as int);
                assert(journal.calls() =~= j0 + jc);
                assert(jc =~= clear_call(removed_all(rems_asked, n as int), cleared));
            }
            pad_removals(&mut removals, n);
            proof {
                assert(removals@ =~= padded_removals(rems_asked, n as int));
            }
            let r = rollback_settlement(&removals, cleared, package_count);
            proof {
                assert(r == rollback_spec(removals@, cleared, package_count));
                assert(settlement_calls(*pending, route, r, mc, jc));
            }
            r
        },
    };
    proof {
        assert(settlement_calls(*pending, route, r, mc, jc));
        assert(settles_loaded(*pending, opt_str_view(effective_root), r, mc, jc));
    }
    r
}

/// Finishes or rolls back a migration interrupted before the previous process exited. Runs
/// once per start, after the storage root is resolved and before any sandbox writer exists.
/// `effective_root` is `None` when the settings could not be read.
pub fn settle_pending_mod_storage_migration<
    J: ModStorageMigrationJournalRepository,
    M: ModStorageMigrator,
>(journal: &mut J, migrator: &mut M, effective_root: Option<&str>) -> (r: ModStorageMigrationSettlement)
    ensures
        exists|
            loaded: Result<Option<ModStorageMigrationJournal>, ModStorageMigrationError>,
            mcalls: Seq<MigratorCall>,
            jcalls: Seq<JournalCall>,
        |
            final(migrator).calls() == old(migrator).calls() + mcalls && final(journal).calls() == old(journal).calls()
                + jcalls && #[trigger] settles_pending(loaded, opt_str_view(effective_root), r, mcalls, jcalls),
        effective_root is None ==> (r is NoJournal || r is JournalUnreadable || r is Deferred),
        (r is SourceCleaned || r is CleanupBlocked || r is RolledBack || r is RollbackBlocked)
            ==> effective_root is Some,
{
    let ghost m0 = migrator.calls();
    let ghost j0 = journal.calls();
    let loaded = journal.load();
    let ghost seen = loaded;
    let ghost j1 = journal.calls();
    let r = match loaded {
        Ok(Some(pending)) => settle_loaded_mod_storage_migration(journal, migrator, &pending, effective_root),
        Ok(None) => ModStorageMigrationSettlement::NoJournal,
        Err(e) => ModStorageMigrationSettlement::JournalUnreadable(e),
    };
    proof {
        let mc = migrator.calls().subrange(m0.len() as int, migrator.calls().len() as int);
        let rest = journal.calls().subrange(j1.len() as int, journal.calls().len() as int);
        let jc = seq![JournalCall::Load { answer: seen }] + rest;
        match seen {
            Ok(Some(p)) => {
                let (m2, j2) = choose|m2: Seq<MigratorCall>, j2: Seq<JournalCall>|
                    migrator.calls() == m0 + m2 && journal.calls() == j1 + j2 && #[trigger] settles_loaded(
                        p,
                        opt_str_view(effective_root),
                        r,
                        m2,
                        j2,
                    );
                assert(mc =~= m2);
                assert(rest =~= j2);
                assert(jc.drop_first() =~= rest);
            },
            _ => {
                assert(mc =~= Seq::<MigratorCall>::empty());
                assert(rest =~= Seq::<JournalCall>::empty());
            },
        }
        assert(migrator.calls() =~= m0 + mc);
        assert(journal.calls() =~= j0 + jc);
        assert(settles_pending(seen, opt_str_view(effective_root), r, mc, jc));
    }
    r
}

} // verus!
