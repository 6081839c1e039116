//! Mod storage directory settings. The effective storage root is fixed when the process
//! starts; this service reads and writes the setting and validates candidate directories. A
//! change takes effect after a restart, is only allowed while the library is empty, and
//! freezes sandbox writes until that restart.
use crate::ids::GameId;
use crate::metadata::PortFailure;
use crate::write_gate::{
    freeze_error_spec, write_gate_error_code, ModStorageWriteFreeze, ModStorageWriteGate,
    ModStorageWriteGateError,
};
use vstd::prelude::*;

verus! {

/// Why a directory cannot serve as storage root, as the directory inspector reports it.
#[derive(Debug, Clone, PartialEq, Eq)]
pub enum ModStorageDirectoryError {
    OverlapsGameRoot,
    OverlapsCurrentRoot,
    MarkerRequired,
    NotWritable,
    /// Any other refusal, with the inspector's stable code.
    Rejected { code: String },
}

pub open spec fn directory_error_code(error: ModStorageDirectoryError) -> Seq<char> {
    match error {
        ModStorageDirectoryError::OverlapsGameRoot => "mod_storage_dir_overlaps_game_root"@,
        ModStorageDirectoryError::OverlapsCurrentRoot => "mod_storage_dir_overlaps_current_root"@,
        ModStorageDirectoryError::MarkerRequired => "mod_storage_dir_marker_required"@,
        ModStorageDirectoryError::NotWritable => "mod_storage_dir_not_writable"@,
        ModStorageDirectoryError::Rejected { code } => code@,
    }
}

impl ModStorageDirectoryError {
    pub fn code(&self) -> (r: &str)
        ensures
            r@ == directory_error_code(*self),
    {
        match self {
            ModStorageDirectoryError::OverlapsGameRoot => "mod_storage_dir_overlaps_game_root",
            ModStorageDirectoryError::OverlapsCurrentRoot => "mod_storage_dir_overlaps_current_root",
            ModStorageDirectoryError::MarkerRequired => "mod_storage_dir_marker_required",
            ModStorageDirectoryError::NotWritable => "mod_storage_dir_not_writable",
            ModStorageDirectoryError::Rejected { code } => code.as_str(),
        }
    }
}

#[derive(Debug, Clone, PartialEq, Eq)]
pub enum ModStorageSettingsError {
    Directory(ModStorageDirectoryError),
    MigrationRequired,
    WriteFrozen(ModStorageWriteGateError),
    SettingsUnavailable,
    LibraryUnavailable,
    GameConfigUnavailable,
}

pub open spec fn settings_error_code(error: ModStorageSettingsError) -> Seq<char> {
    match error {
        ModStorageSettingsError::Directory(e) => directory_error_code(e),
        ModStorageSettingsError::MigrationRequired => "mod_storage_migration_required"@,
        ModStorageSettingsError::WriteFrozen(e) => write_gate_error_code(e),
        ModStorageSettingsError::SettingsUnavailable => "app_settings_unavailable"@,
        ModStorageSettingsError::LibraryUnavailable => "mod_library_unavailable"@,
        ModStorageSettingsError::GameConfigUnavailable => "game_config_unavailable"@,
    }
}

impl ModStorageSettingsError {
    pub fn code(&self) -> (r: &str)
        ensures
            r@ == settings_error_code(*self),
    {
        match self {
            ModStorageSettingsError::Directory(e) => e.code(),
            ModStorageSettingsError::MigrationRequired => "mod_storage_migration_required",
            ModStorageSettingsError::WriteFrozen(e) => e.code(),
            ModStorageSettingsError::SettingsUnavailable => "app_settings_unavailable",
            ModStorageSettingsError::LibraryUnavailable => "mod_library_unavailable",
            ModStorageSettingsError::GameConfigUnavailable => "game_config_unavailable",
        }
    }
}

/// Facts the settings page needs.
#[derive(Debug, Clone, PartialEq, Eq)]
pub struct ModStorageSettingsSnapshot {
    /// Root in effect for this process.
    pub effective_root: String,
    pub default_root: String,
    /// Persisted setting right now (may differ from `effective_root` until restart).
    pub configured: Option<String>,
    /// No revision in the catalog and no entry below `<effective root>/sandboxes`.
    pub library_empty: bool,
    /// The persisted setting differs from what this process started with.
    pub restart_required: bool,
    /// Whether sandbox writes are refused right now.
    pub writes_frozen: ModStorageWriteFreeze,
}

/// Result of a read-only directory check. Failures are facts to display, not errors.
#[derive(Debug, Clone, PartialEq, Eq)]
pub struct ModStorageDirectoryValidation {
    pub ok: bool,
    pub code: Option<String>,
    pub exists: bool,
    pub claimed: bool,
}

/// What the inspector found about an acceptable directory.
#[derive(Debug, Clone, Copy, PartialEq, Eq, Structural)]
pub struct ModStorageDirectoryInspection {
    pub exists: bool,
    pub claimed: bool,
}

pub open spec fn opt_str_view(value: Option<String>) -> Option<Seq<char>> {
    match value {
        Some(s) => Some(s@),
        None => None,
    }
}

/// Turns an inspection into the facts the page displays.
pub fn validation_from_inspection(
    inspection: Result<ModStorageDirectoryInspection, ModStorageDirectoryError>,
) -> (r: ModStorageDirectoryValidation)
    ensures
        inspection matches Ok(found) ==> r.ok && r.code is None && r.exists == found.exists
            && r.claimed == found.claimed,
        inspection matches Err(e) ==> !r.ok && opt_str_view(r.code) == Some(directory_error_code(e))
            && !r.exists && !r.claimed,
{
    match inspection {
        Ok(found) => ModStorageDirectoryValidation {
            ok: true,
            code: None,
            exists: found.exists,
            claimed: found.claimed,
        },
        Err(e) => ModStorageDirectoryValidation {
            ok: false,
            code: Some(e.code().to_owned()),
            exists: false,
            claimed: false,
        },
    }
}

/// `std::path::Path` equality of two paths: they are equal when their components are. Equal
/// texts always name the same path; which other texts do (trailing or repeated separators,
/// `.` components, `\` on Windows) is the platform's path syntax, and is not stated.
#[verifier::external_body]
pub(crate) fn same_path(a: &str, b: &str) -> (r: bool)
    ensures
        a@ == b@ ==> r,
{
    std::path::Path::new(a) == std::path::Path::new(b)
}

/// Two settings name the same directory: both default, or both paths and equal as paths.
pub fn same_setting(left: &Option<String>, right: &Option<String>) -> (r: bool)
    ensures
        opt_str_view(*left) == opt_str_view(*right) ==> r,
        (left is None) != (right is None) ==> !r,
{
    match (left, right) {
        (None, None) => true,
        (Some(l), Some(x)) => same_path(l.as_str(), x.as_str()),
        _ => false,
    }
}

/// Checks and claims candidate storage directories on disk.
/// One call a directory inspector answered: what it was asked and what it answered.
pub enum InspectorCall {
    Inspect {
        directory: Seq<char>,
        exclusive_roots: Seq<String>,
        current_root: Seq<char>,
        answer: Result<ModStorageDirectoryInspection, ModStorageDirectoryError>,
    },
    Claim { directory: Seq<char>, answer: Result<(), ModStorageDirectoryError> },
    SandboxHasEntries { root: Seq<char>, answer: Result<bool, ModStorageDirectoryError> },
    Overlap { left: Seq<char>, right: Seq<char>, answer: bool },
}

/// The record of the calls a directory inspector answered.
pub type InspectorCalls = Seq<InspectorCall>;

/// Checks and claims candidate storage directories on disk. `inspector_calls` is the record of
/// every call answered, oldest first; each call appends itself with its answer.
pub trait ModStorageDirectoryInspector {
    spec fn inspector_calls(&self) -> InspectorCalls;

    /// Read-only check of a candidate against the game roots and the current root.
    fn inspect(
        &mut self,
        directory: &str,
        exclusive_roots: &Vec<String>,
        current_root: &str,
    ) -> (r: Result<ModStorageDirectoryInspection, ModStorageDirectoryError>)
        ensures
            final(self).inspector_calls() == old(self).inspector_calls().push(
                InspectorCall::Inspect {
                    directory: directory@,
                    exclusive_roots: exclusive_roots@,
                    current_root: current_root@,
                    answer: r,
                },
            ),
    ;

    /// Marks a directory as this application's storage root.
    fn claim(&mut self, directory: &str) -> (r: Result<(), ModStorageDirectoryError>)
        ensures
            final(self).inspector_calls() == old(self).inspector_calls().push(
                InspectorCall::Claim { directory: directory@, answer: r },
            ),
    ;

    /// Whether `<root>/sandboxes` holds any entry.
    fn sandbox_directory_has_entries(&mut self, root: &str) -> (r: Result<bool, ModStorageDirectoryError>)
        ensures
            final(self).inspector_calls() == old(self).inspector_calls().push(
                InspectorCall::SandboxHasEntries { root: root@, answer: r },
            ),
    ;

    /// Whether one directory contains the other (or both are the same).
    fn directories_overlap(&mut self, left: &str, right: &str) -> (r: bool)
        ensures
            final(self).inspector_calls() == old(self).inspector_calls().push(
                InspectorCall::Overlap { left: left@, right: right@, answer: r },
            ),
    ;
}

/// The configured games.
pub trait GameRootSource {
    /// Root directory of a game, if the game is configured.
    fn game_root(&self, game_id: &GameId) -> Result<Option<String>, PortFailure>;
}

/// Root directories of the configured games among `game_ids`, in their order; a game that is
/// not configured contributes nothing, and the first failing lookup fails the whole list.
pub fn configured_game_roots<G: GameRootSource>(source: &G, game_ids: &Vec<GameId>) -> (r: Result<
    Vec<String>,
    PortFailure,
>)
    ensures
        r matches Ok(roots) ==> roots.len() <= game_ids.len(),
        game_ids@.len() == 0 ==> (r matches Ok(roots) && roots@.len() == 0),
{
    let mut roots: Vec<String> = Vec::new();
    let mut i: usize = 0;
    while i < game_ids.len()
        invariant
            i <= game_ids.len(),
            roots.len() <= i,
        decreases game_ids.len() - i,
    {
        match source.game_root(&game_ids[i]) {
            Ok(Some(root)) => {
                roots.push(root);
            },
            Ok(None) => {},
            Err(e) => {
                return Err(e);
            },
        }
        i = i + 1;
    }
    Ok(roots)
}

/// What the settings service reads and writes outside itself.
pub trait ModStorageSettingsPorts: GameRootSource + ModStorageDirectoryInspector {
    /// The persisted storage directory setting.
    fn configured(&self) -> Result<Option<String>, PortFailure>;

    /// Persists the storage directory setting (`None` = back to the default root).
    fn write_configured(&self, directory: &Option<String>) -> Result<(), PortFailure>;

    /// Number of revisions in the import catalog.
    fn catalog_revision_count(&self) -> Result<usize, PortFailure>;
}

pub struct ModStorageSettingsService<P: ModStorageSettingsPorts> {
    ports: P,
    game_ids: Vec<GameId>,
    effective_root: String,
    default_root: String,
    startup_configured: Option<String>,
}

impl<P: ModStorageSettingsPorts> ModStorageSettingsService<P> {
    /// The games whose roots are looked up.
    pub closed spec fn game_ids_view(&self) -> Seq<GameId> {
        self.game_ids@
    }

    pub closed spec fn effective_root_view(&self) -> Seq<char> {
        self.effective_root@
    }

    pub closed spec fn startup_view(&self) -> Option<Seq<char>> {
        opt_str_view(self.startup_configured)
    }

    pub fn new(
        ports: P,
        game_ids: Vec<GameId>,
        effective_root: String,
        default_root: String,
        startup_configured: Option<String>,
    ) -> (r: Self)
        ensures
            r.effective_root_view() == effective_root@,
            r.startup_view() == opt_str_view(startup_configured),
    {
        ModStorageSettingsService {
            ports,
            game_ids,
            effective_root,
            default_root,
            startup_configured,
        }
    }

    pub fn effective_root(&self) -> (r: &str)
        ensures
            r@ == self.effective_root_view(),
    {
        self.effective_root.as_str()
    }

    /// The page's facts for a persisted setting: a restart is required exactly when the
    /// setting names another directory than the one this process started with.
    fn snapshot(&self, freeze: ModStorageWriteFreeze, configured: Option<String>, library_empty: bool) -> (r:
        ModStorageSettingsSnapshot)
        ensures
            r.effective_root@ == self.effective_root_view(),
            r.configured == configured,
            r.library_empty == library_empty,
            opt_str_view(configured) == self.startup_view() ==> !r.restart_required,
            (configured is None) != (self.startup_view() is None) ==> r.restart_required,
            r.writes_frozen == freeze,
    {
        let restart_required = !same_setting(&configured, &self.startup_configured);
        ModStorageSettingsSnapshot {
            effective_root: self.effective_root.clone(),
            default_root: self.default_root.clone(),
            configured,
            library_empty,
            restart_required,
            writes_frozen: freeze,
        }
    }

    /// Reads the persisted setting.
    fn persisted_configured(&self) -> (r: Result<Option<String>, ModStorageSettingsError>)
        ensures
            r matches Err(e) ==> e == ModStorageSettingsError::SettingsUnavailable,
    {
        match self.ports.configured() {
            Ok(c) => Ok(c),
            Err(_) => Err(ModStorageSettingsError::SettingsUnavailable),
        }
    }

    /// The library is empty when the catalog holds no revision and the sandbox directory of
    /// the effective root holds no entry; the directory is only looked at for an empty catalog.
    fn library_is_empty(&mut self) -> (r: Result<bool, ModStorageSettingsError>)
        ensures
            final(self).effective_root_view() == old(self).effective_root_view(),
            final(self).startup_view() == old(self).startup_view(),
            final(self).game_ids_view() == old(self).game_ids_view(),
            r matches Err(e) ==> (e == ModStorageSettingsError::LibraryUnavailable
                || e is Directory),
    {
        let revisions = match self.ports.catalog_revision_count() {
            Ok(n) => n,
            Err(_) => {
                return Err(ModStorageSettingsError::LibraryUnavailable);
            },
        };
        if revisions > 0 {
            return Ok(false);
        }
        match self.ports.sandbox_directory_has_entries(self.effective_root.as_str()) {
            Ok(has_entries) => Ok(!has_entries),
            Err(e) => Err(ModStorageSettingsError::Directory(e)),
        }
    }

    fn game_roots(&self) -> (r: Result<Vec<String>, ModStorageSettingsError>)
        ensures
            r matches Err(e) ==> e == ModStorageSettingsError::GameConfigUnavailable,
            self.game_ids_view().len() == 0 ==> (r matches Ok(roots) && roots@.len() == 0),
    {
        match configured_game_roots(&self.ports, &self.game_ids) {
            Ok(roots) => Ok(roots),
            Err(_) => Err(ModStorageSettingsError::GameConfigUnavailable),
        }
    }

    /// The page's facts; `gate` is the storage write barrier shared with the sandbox writers.
    pub fn get(&mut self, gate: &ModStorageWriteGate) -> (r: Result<ModStorageSettingsSnapshot, ModStorageSettingsError>)
        ensures
            r matches Ok(s) ==> s.writes_frozen == gate@ && s.effective_root@ == old(self).effective_root_view()
                && (opt_str_view(s.configured) == old(self).startup_view() ==> !s.restart_required)
                && ((s.configured is None) != (old(self).startup_view() is None) ==> s.restart_required),
            r matches Err(e) ==> (e == ModStorageSettingsError::SettingsUnavailable || e
                == ModStorageSettingsError::LibraryUnavailable || e is Directory),
    {
        let configured = match self.persisted_configured() {
            Ok(c) => c,
            Err(e) => {
                return Err(e);
            },
        };
        let library_empty = match self.library_is_empty() {
            Ok(e) => e,
            Err(e) => {
                return Err(e);
            },
        };
        Ok(self.snapshot(gate.freeze(), configured, library_empty))
    }

    /// Read-only check of a candidate directory against every rule `set` enforces, minus the
    /// empty-library rule. The inspector's verdict is a fact to display, never an error.
    pub fn validate(&mut self, directory: &str) -> (r: Result<
        ModStorageDirectoryValidation,
        ModStorageSettingsError,
    >)
        ensures
            r matches Err(e) ==> e == ModStorageSettingsError::GameConfigUnavailable,
            old(self).game_ids_view().len() == 0 ==> r is Ok,
            r matches Ok(v) ==> (v.ok ==> v.code is None) && (!v.ok ==> v.code is Some && !v.exists && !v.claimed),
    {
        let roots = match self.game_roots() {
            Ok(r) => r,
            Err(e) => {
                return Err(e);
            },
        };
        let inspection = self.ports.inspect(directory, &roots, self.effective_root.as_str());
        Ok(validation_from_inspection(inspection))
    }

    /// Persists a new storage root (`None` = back to the default). An unchanged setting is
    /// reported as it is; a change is refused while writes are frozen or the library holds
    /// packages, and once persisted it freezes sandbox writes until restart.
    pub fn set(&mut self, gate: &mut ModStorageWriteGate, directory: Option<String>) -> (r: Result<
        ModStorageSettingsSnapshot,
        ModStorageSettingsError,
    >)
        ensures
            final(gate)@ == old(gate)@ || (r is Ok && old(gate)@ == ModStorageWriteFreeze::Open
                && final(gate)@ == ModStorageWriteFreeze::RestartRequired),
            r is Err ==> final(gate)@ == old(gate)@,
            r matches Err(ModStorageSettingsError::WriteFrozen(g)) ==> Err::<(), _>(g)
                == freeze_error_spec(old(gate)@),
            r matches Ok(s) ==> opt_str_view(s.configured) == opt_str_view(directory)
                && s.writes_frozen == final(gate)@ && s.effective_root@ == old(self).effective_root_view()
                && (opt_str_view(directory) == old(self).startup_view() ==> !s.restart_required)
                && ((directory is None) != (old(self).startup_view() is None) ==> s.restart_required),
            final(gate)@ != old(gate)@ ==> (r matches Ok(s) && s.library_empty),
    {
        let current = match self.persisted_configured() {
            Ok(c) => c,
            Err(e) => {
                return Err(e);
            },
        };
        if same_setting(&current, &directory) {
            let library_empty = match self.library_is_empty() {
                Ok(e) => e,
                Err(e) => {
                    return Err(e);
                },
            };
            return Ok(self.snapshot(gate.freeze(), directory, library_empty));
        }
        match gate.ensure_open() {
            Err(e) => {
                return Err(ModStorageSettingsError::WriteFrozen(e));
            },
            Ok(()) => {},
        }
        let empty = match self.library_is_empty() {
            Ok(e) => e,
            Err(e) => {
                return Err(e);
            },
        };
        if !empty {
            return Err(ModStorageSettingsError::MigrationRequired);
        }
        match &directory {
            Some(d) => {
                let roots = match self.game_roots() {
                    Ok(r) => r,
                    Err(e) => {
                        return Err(e);
                    },
                };
                match self.ports.inspect(d.as_str(), &roots, self.effective_root.as_str()) {
                    Err(e) => {
                        return Err(ModStorageSettingsError::Directory(e));
                    },
                    Ok(_) => {},
                }
                match self.ports.claim(d.as_str()) {
                    Err(e) => {
                        return Err(ModStorageSettingsError::Directory(e));
                    },
                    Ok(()) => {},
                }
            },
            None => {},
        }
        let ports = &self.ports;
        let outcome = gate.admit_root_switch(|| ports.write_configured(&directory));
        match outcome {
            Err(e) => {
                return Err(ModStorageSettingsError::WriteFrozen(e));
            },
            Ok(Err(_)) => {
                return Err(ModStorageSettingsError::SettingsUnavailable);
            },
            Ok(Ok(())) => {},
        }
        Ok(self.snapshot(gate.freeze(), directory, true))
    }
}

} // verus!
