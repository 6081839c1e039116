//! Admission of mod import tasks: the archive path is checked, then the task is registered
//! under the storage write barrier so a migration admitted right afterwards sees it.
use crate::ids::ModId;
use crate::tasks::{task_id_prefix, TaskKind, TaskManager, TaskManagerError, TaskRecord, TaskStatus};
use crate::text::{is_blank, is_blank_str};
use crate::write_gate::{
    freeze_error_spec, write_gate_error_code, ModStorageWriteFreeze, ModStorageWriteGate,
    ModStorageWriteGateError,
};
use vstd::prelude::*;

verus! {

#[derive(Debug, Clone, PartialEq, Eq)]
pub struct StartImportModTaskRequest {
    pub archive_path: String,
}

#[derive(Debug, Clone, PartialEq, Eq)]
pub struct StartImportModRevisionTaskRequest {
    pub archive_path: String,
    pub mod_id: ModId,
}

#[derive(Debug, Clone, PartialEq, Eq)]
pub struct TaskStarted {
    pub task_id: String,
    pub kind: TaskKind,
    pub status: TaskStatus,
}

#[derive(Debug, Clone, PartialEq, Eq)]
pub enum ModImportTaskError {
    ArchivePathEmpty,
    ArchivePathNotAbsolute,
    ArchiveFileNotFound,
    ArchivePathIsNotFile,
    ModIdEmpty,
    TaskIdGenerationFailed(String),
    TaskRegistrationFailed(String),
    /// The storage root is migrating or already switched.
    StorageWriteFrozen(ModStorageWriteGateError),
}

/// Stable code of an import refusal.
pub open spec fn import_error_code(error: ModImportTaskError) -> Seq<char> {
    match error {
        ModImportTaskError::ArchivePathEmpty => "archive_path_empty"@,
        ModImportTaskError::ArchivePathNotAbsolute => "archive_path_not_absolute"@,
        ModImportTaskError::ArchiveFileNotFound => "archive_file_not_found"@,
        ModImportTaskError::ArchivePathIsNotFile => "archive_path_is_not_file"@,
        ModImportTaskError::ModIdEmpty => "mod_id_empty"@,
        ModImportTaskError::TaskIdGenerationFailed(_) => "task_id_generation_failed"@,
        ModImportTaskError::TaskRegistrationFailed(_) => "task_registration_failed"@,
        ModImportTaskError::StorageWriteFrozen(e) => write_gate_error_code(e),
    }
}

impl ModImportTaskError {
    pub fn error_code(&self) -> (r: &'static str)
        ensures
            r@ == import_error_code(*self),
    {
        match self {
            ModImportTaskError::ArchivePathEmpty => "archive_path_empty",
            ModImportTaskError::ArchivePathNotAbsolute => "archive_path_not_absolute",
            ModImportTaskError::ArchiveFileNotFound => "archive_file_not_found",
            ModImportTaskError::ArchivePathIsNotFile => "archive_path_is_not_file",
            ModImportTaskError::ModIdEmpty => "mod_id_empty",
            ModImportTaskError::TaskIdGenerationFailed(_) => "task_id_generation_failed",
            ModImportTaskError::TaskRegistrationFailed(_) => "task_registration_failed",
            ModImportTaskError::StorageWriteFrozen(e) => e.code(),
        }
    }
}

/// What the file system says about an archive path at the moment of the request.
#[derive(Debug, Clone, Copy, PartialEq, Eq)]
pub struct ArchivePathFacts {
    pub absolute: bool,
    pub found: bool,
    pub is_file: bool,
}

/// The refusal owed for an archive path, checked in this order: empty, relative, missing,
/// not a regular file.
pub open spec fn archive_path_check(path: Seq<char>, facts: ArchivePathFacts) -> Result<
    (),
    ModImportTaskError,
> {
    if path.len() == 0 {
        Err(ModImportTaskError::ArchivePathEmpty)
    } else if !facts.absolute {
        Err(ModImportTaskError::ArchivePathNotAbsolute)
    } else if !facts.found {
        Err(ModImportTaskError::ArchiveFileNotFound)
    } else if !facts.is_file {
        Err(ModImportTaskError::ArchivePathIsNotFile)
    } else {
        Ok(())
    }
}

pub fn check_archive_path(path: &str, facts: ArchivePathFacts) -> (r: Result<
    (),
    ModImportTaskError,
>)
    ensures
        r == archive_path_check(path@, facts),
{
    if path.is_empty() {
        Err(ModImportTaskError::ArchivePathEmpty)
    } else if !facts.absolute {
        Err(ModImportTaskError::ArchivePathNotAbsolute)
    } else if !facts.found {
        Err(ModImportTaskError::ArchiveFileNotFound)
    } else if !facts.is_file {
        Err(ModImportTaskError::ArchivePathIsNotFile)
    } else {
        Ok(())
    }
}

/// A path that no platform takes as absolute: it does not start with a separator (`/` or `\\`)
/// and names no drive (`:` at index 1).
pub open spec fn plainly_relative(path: Seq<char>) -> bool {
    path.len() == 0 || (path[0] != '/' && path[0] != '\\' && !(path.len() > 1 && path[1] == ':'))
}

/// `std::path::Path::is_absolute`; the answer depends on the platform's path syntax, but on
/// every platform an absolute path starts with a root or a prefix: `/` on Unix, `\\` (root
/// or UNC/verbatim prefix) or a drive letter and `:` on Windows.
#[verifier::external_body]
fn path_is_absolute(path: &str) -> (r: bool)
    ensures
        plainly_relative(path@) ==> !r,
{
    std::path::Path::new(path).is_absolute()
}

/// `std::path::Path::exists`; the answer depends on the file system at the time of the call.
#[verifier::external_body]
fn path_exists(path: &str) -> bool {
    std::path::Path::new(path).exists()
}

/// `std::path::Path::is_file`; the answer depends on the file system at the time of the call.
#[verifier::external_body]
fn path_is_file(path: &str) -> bool {
    std::path::Path::new(path).is_file()
}

/// Looks up the facts the archive check needs, only as far as the check gets.
fn probe_archive_path(path: &str) -> (r: ArchivePathFacts)
    ensures
        path@.len() == 0 ==> (r == ArchivePathFacts { absolute: false, found: false, is_file: false }),
        !r.absolute ==> !r.found && !r.is_file,
        !r.found ==> !r.is_file,
        plainly_relative(path@) ==> !r.absolute,
{
    if path.is_empty() {
        return ArchivePathFacts { absolute: false, found: false, is_file: false };
    }
    let absolute = path_is_absolute(path);
    if !absolute {
        return ArchivePathFacts { absolute, found: false, is_file: false };
    }
    let found = path_exists(path);
    if !found {
        return ArchivePathFacts { absolute, found, is_file: false };
    }
    ArchivePathFacts { absolute, found, is_file: path_is_file(path) }
}

/// Maps a registry failure to the import error the caller reports.
pub open spec fn registration_error(error: TaskManagerError) -> ModImportTaskError {
    match error {
        TaskManagerError::TaskIdGenerationFailed(message) =>
            ModImportTaskError::TaskIdGenerationFailed(message),
        TaskManagerError::TaskNotFound(task_id) => ModImportTaskError::TaskRegistrationFailed(
            task_id,
        ),
        TaskManagerError::TaskCannotTransition { task_id, .. } =>
            ModImportTaskError::TaskRegistrationFailed(task_id),
    }
}

impl From<TaskManagerError> for ModImportTaskError {
    fn from(error: TaskManagerError) -> (r: Self)
        ensures
            r == registration_error(error),
    {
        match error {
            TaskManagerError::TaskIdGenerationFailed(message) =>
                ModImportTaskError::TaskIdGenerationFailed(message),
            TaskManagerError::TaskNotFound(task_id) => ModImportTaskError::TaskRegistrationFailed(
                task_id,
            ),
            TaskManagerError::TaskCannotTransition { task_id, .. } =>
                ModImportTaskError::TaskRegistrationFailed(task_id),
        }
    }
}

impl vstd::std_specs::convert::FromSpecImpl<TaskManagerError> for ModImportTaskError {
    open spec fn obeys_from_spec() -> bool {
        true
    }

    open spec fn from_spec(v: TaskManagerError) -> Self {
        registration_error(v)
    }
}

pub struct ModImportTaskService {
    task_manager: TaskManager,
    write_gate: ModStorageWriteGate,
}

impl ModImportTaskService {
    pub closed spec fn tasks(&self) -> TaskManager {
        self.task_manager
    }

    pub closed spec fn freeze_state(&self) -> ModStorageWriteFreeze {
        self.write_gate@
    }

    pub open spec fn wf(&self) -> bool {
        self.tasks().wf()
    }

    pub fn new(task_manager: TaskManager) -> (r: Self)
        ensures
            r.tasks() == task_manager,
            r.freeze_state() == ModStorageWriteFreeze::Open,
    {
        ModImportTaskService { task_manager, write_gate: ModStorageWriteGate::new() }
    }

    /// Shares the storage write barrier with the migration task and the other sandbox writers.
    pub fn with_write_gate(self, write_gate: ModStorageWriteGate) -> (r: Self)
        ensures
            r.tasks() == self.tasks(),
            r.freeze_state() == write_gate@,
    {
        ModImportTaskService { task_manager: self.task_manager, write_gate }
    }

    pub fn task_manager(&self) -> (r: &TaskManager)
        ensures
            *r == self.tasks(),
    {
        &self.task_manager
    }

    pub fn write_gate(&self) -> (r: &ModStorageWriteGate)
        ensures
            r@ == self.freeze_state(),
    {
        &self.write_gate
    }

    /// The task registry and the storage write barrier, for the services that share them.
    pub fn into_parts(self) -> (r: (TaskManager, ModStorageWriteGate))
        ensures
            r.0 == self.tasks(),
            r.1@ == self.freeze_state(),
    {
        (self.task_manager, self.write_gate)
    }

    /// Ends a migration on the barrier this service admits imports through.
    pub fn end_migration(&mut self, switched: bool)
        ensures
            final(self).freeze_state() == crate::write_gate::after_end_migration(old(self).freeze_state(), switched),
            final(self).tasks() == old(self).tasks(),
    {
        self.write_gate.end_migration(switched);
    }

    pub fn start_import_mod_task(&mut self, request: StartImportModTaskRequest) -> (r: Result<
        TaskStarted,
        ModImportTaskError,
    >)
        requires
            old(self).wf(),
        ensures
            final(self).wf(),
            final(self).freeze_state() == old(self).freeze_state(),
            Self::start_outcome(old(self), final(self), request.archive_path@, r),
            exists|facts: ArchivePathFacts|
                Self::facts_possible(request.archive_path@, facts) && #[trigger] Self::start_with_facts_outcome(
                    old(self),
                    final(self),
                    request.archive_path@,
                    facts,
                    r,
                ),
    {
        self.start_task(request.archive_path)
    }

    pub fn start_import_mod_revision_task(
        &mut self,
        request: StartImportModRevisionTaskRequest,
    ) -> (r: Result<TaskStarted, ModImportTaskError>)
        requires
            old(self).wf(),
        ensures
            final(self).wf(),
            final(self).freeze_state() == old(self).freeze_state(),
            is_blank(request.mod_id@) ==> r == Err::<TaskStarted, _>(ModImportTaskError::ModIdEmpty)
                && final(self).tasks().entries() == old(self).tasks().entries(),
            !is_blank(request.mod_id@) ==> Self::start_outcome(
                old(self),
                final(self),
                request.archive_path@,
                r,
            ),
            !is_blank(request.mod_id@) ==> exists|facts: ArchivePathFacts|
                Self::facts_possible(request.archive_path@, facts) && #[trigger] Self::start_with_facts_outcome(
                    old(self),
                    final(self),
                    request.archive_path@,
                    facts,
                    r,
                ),
    {
        if is_blank_str(request.mod_id.as_str()) {
            return Err(ModImportTaskError::ModIdEmpty);
        }
        self.start_task(request.archive_path)
    }

    /// What starting an import from `path` does, whatever the file system answered:
    /// a refused path or a frozen barrier registers nothing; an admitted import registers exactly
    /// one queued `ModImport` task and reports it.
    pub open spec fn start_outcome(
        before: &Self,
        after: &Self,
        path: Seq<char>,
        r: Result<TaskStarted, ModImportTaskError>,
    ) -> bool {
        &&& path.len() == 0 ==> r == Err::<TaskStarted, _>(ModImportTaskError::ArchivePathEmpty)
        &&& (r matches Err(e) && (e matches ModImportTaskError::ArchivePathEmpty
            || e matches ModImportTaskError::ArchivePathNotAbsolute
            || e matches ModImportTaskError::ArchiveFileNotFound
            || e matches ModImportTaskError::ArchivePathIsNotFile
            || e matches ModImportTaskError::StorageWriteFrozen(_)) ==> after.tasks().entries()
            == before.tasks().entries())
        &&& (r matches Err(ModImportTaskError::StorageWriteFrozen(g)) ==> Err::<(), _>(g)
            == freeze_error_spec(before.freeze_state()))
        &&& (r is Ok || r matches Err(ModImportTaskError::TaskIdGenerationFailed(_))
            || r matches Err(ModImportTaskError::TaskRegistrationFailed(_)))
            ==> before.freeze_state() == ModStorageWriteFreeze::Open
        &&& (path.len() != 0 && before.freeze_state() != ModStorageWriteFreeze::Open) ==> r is Err
        &&& (r matches Ok(started) ==> {
            &&& started.kind == TaskKind::ModImport
            &&& started.status == TaskStatus::Queued
            &&& before.tasks().status_of(started.task_id@) is None
            &&& after.tasks().entries() == before.tasks().entries().push(
                crate::tasks::TaskEntry {
                    task_id: started.task_id@,
                    kind: TaskKind::ModImport,
                    status: TaskStatus::Queued,
                },
            )
        })
    }

    /// What the file system may have answered for `path`: nothing is looked up past the first
    /// refusal, and a plainly relative path is never absolute.
    pub open spec fn facts_possible(path: Seq<char>, facts: ArchivePathFacts) -> bool {
        &&& path.len() == 0 ==> (facts == ArchivePathFacts { absolute: false, found: false, is_file: false })
        &&& !facts.absolute ==> !facts.found && !facts.is_file
        &&& !facts.found ==> !facts.is_file
        &&& plainly_relative(path) ==> !facts.absolute
    }

    /// Starting an import from `path` given what the file system answered: the path refusal
    /// first; then, when the storage barrier is frozen, its refusal; otherwise one queued
    /// `ModImport` task is registered under a fresh `mod-import-` identity, or the registry
    /// refuses because the drawn identity is taken. Only a registered task changes the registry.
    pub open spec fn start_with_facts_outcome(
        before: &Self,
        after: &Self,
        path: Seq<char>,
        facts: ArchivePathFacts,
        r: Result<TaskStarted, ModImportTaskError>,
    ) -> bool {
        match archive_path_check(path, facts) {
            Err(e) => r == Err::<TaskStarted, _>(e) && after.tasks().entries() == before.tasks().entries(),
            Ok(()) => if before.freeze_state() != ModStorageWriteFreeze::Open {
                &&& r matches Err(ModImportTaskError::StorageWriteFrozen(g))
                &&& Err::<(), _>(r->Err_0->StorageWriteFrozen_0) == freeze_error_spec(before.freeze_state())
                &&& after.tasks().entries() == before.tasks().entries()
            } else {
                match r {
                    Ok(started) => {
                        &&& crate::tasks::is_task_id_of(started.task_id@, TaskKind::ModImport)
                        &&& started.kind == TaskKind::ModImport
                        &&& started.status == TaskStatus::Queued
                        &&& before.tasks().status_of(started.task_id@) is None
                        &&& after.tasks().entries() == before.tasks().entries().push(
                            crate::tasks::TaskEntry {
                                task_id: started.task_id@,
                                kind: TaskKind::ModImport,
                                status: TaskStatus::Queued,
                            },
                        )
                    },
                    Err(e) => {
                        &&& e matches ModImportTaskError::TaskIdGenerationFailed(id)
                        &&& (before.tasks().status_of(e->TaskIdGenerationFailed_0@) is Some
                            || e->TaskIdGenerationFailed_0@ == task_id_prefix(TaskKind::ModImport))
                        &&& after.tasks().entries() == before.tasks().entries()
                    },
                }
            },
        }
    }

    /// Starts an import from `archive_path` given the file-system facts read for it.
    pub fn start_import_with_facts(&mut self, archive_path: String, facts: ArchivePathFacts) -> (r: Result<
        TaskStarted,
        ModImportTaskError,
    >)
        requires
            old(self).wf(),
        ensures
            final(self).wf(),
            final(self).freeze_state() == old(self).freeze_state(),
            Self::start_with_facts_outcome(old(self), final(self), archive_path@, facts, r),
    {
        match check_archive_path(archive_path.as_str(), facts) {
            Err(e) => {
                return Err(e);
            },
            Ok(()) => {},
        }
        match self.write_gate.ensure_open() {
            Err(e) => {
                return Err(ModImportTaskError::StorageWriteFrozen(e));
            },
            Ok(()) => {},
        }
        match self.task_manager.create_task(TaskKind::ModImport) {
            Ok(task) => Ok(TaskStarted { task_id: task.task_id, kind: task.kind, status: task.status }),
            Err(error) => {
                let r = ModImportTaskError::from(error);
                Err(r)
            },
        }
    }

    fn start_task(&mut self, archive_path: String) -> (r: Result<TaskStarted, ModImportTaskError>)
        requires
            old(self).wf(),
        ensures
            final(self).wf(),
            final(self).freeze_state() == old(self).freeze_state(),
            Self::start_outcome(old(self), final(self), archive_path@, r),
            exists|facts: ArchivePathFacts|
                Self::facts_possible(archive_path@, facts) && #[trigger] Self::start_with_facts_outcome(
                    old(self),
                    final(self),
                    archive_path@,
                    facts,
                    r,
                ),
    {
        let ghost path = archive_path@;
        let facts = probe_archive_path(archive_path.as_str());
        let r = self.start_import_with_facts(archive_path, facts);
        proof {
            assert(Self::facts_possible(path, facts));
        }
        r
    }
}

impl Default for ModImportTaskService {
    fn default() -> (r: Self)
        ensures
            r.tasks().entries().len() == 0,
            r.wf(),
            r.freeze_state() == ModStorageWriteFreeze::Open,
    {
        ModImportTaskService::new(TaskManager::new())
    }
}

} // verus!
