//! Write barrier over `<storage root>/sandboxes`.
//!
//! A storage-root migration copies every package out of the effective root and then switches
//! the persisted setting; the running process keeps reading the old root until restart. The
//! barrier refuses new sandbox writers from the moment a migration is admitted until the process
//! restarts. Reads are never gated.
//!
//! The barrier is a plain state machine over [`ModStorageWriteFreeze`]; callers that share it
//! between threads hold it behind their own lock, so every check-and-act below happens on one
//! exclusive borrow.
use vstd::prelude::*;

verus! {

/// Why sandbox writes are currently refused.
#[derive(Debug, Clone, Copy, PartialEq, Eq, Structural)]
pub enum ModStorageWriteFreeze {
    Open,
    /// A migration task is copying packages; the setting still names the current root.
    Migration,
    /// The setting now names another root; writes wait for the restart.
    RestartRequired,
}

impl Default for ModStorageWriteFreeze {
    fn default() -> (r: Self)
        ensures
            r == ModStorageWriteFreeze::Open,
    {
        ModStorageWriteFreeze::Open
    }
}

#[derive(Debug, Clone, Copy, PartialEq, Eq, Structural)]
pub enum ModStorageWriteGateError {
    MigrationInProgress,
    RestartRequired,
}

/// Stable code of a barrier refusal.
pub open spec fn write_gate_error_code(error: ModStorageWriteGateError) -> Seq<char> {
    match error {
        ModStorageWriteGateError::MigrationInProgress => "mod_storage_migration_in_progress"@,
        ModStorageWriteGateError::RestartRequired => "mod_storage_restart_required"@,
    }
}

/// Human readable message of a barrier refusal.
pub open spec fn write_gate_error_message(error: ModStorageWriteGateError) -> Seq<char> {
    match error {
        ModStorageWriteGateError::MigrationInProgress => "a mod storage migration is in progress"@,
        ModStorageWriteGateError::RestartRequired =>
            "the mod storage directory changed; restart before writing to the library"@,
    }
}

impl ModStorageWriteGateError {
    pub fn code(self) -> (r: &'static str)
        ensures
            r@ == write_gate_error_code(self),
    {
        match self {
            ModStorageWriteGateError::MigrationInProgress => "mod_storage_migration_in_progress",
            ModStorageWriteGateError::RestartRequired => "mod_storage_restart_required",
        }
    }

    pub fn message(self) -> (r: &'static str)
        ensures
            r@ == write_gate_error_message(self),
    {
        match self {
            ModStorageWriteGateError::MigrationInProgress => "a mod storage migration is in progress",
            ModStorageWriteGateError::RestartRequired =>
                "the mod storage directory changed; restart before writing to the library",
        }
    }
}

/// The refusal a barrier in state `freeze` answers with, if any.
pub open spec fn freeze_error_spec(freeze: ModStorageWriteFreeze) -> Result<
    (),
    ModStorageWriteGateError,
> {
    match freeze {
        ModStorageWriteFreeze::Open => Ok(()),
        ModStorageWriteFreeze::Migration => Err(ModStorageWriteGateError::MigrationInProgress),
        ModStorageWriteFreeze::RestartRequired => Err(ModStorageWriteGateError::RestartRequired),
    }
}

/// State after `end_migration(switched)`.
pub open spec fn after_end_migration(
    freeze: ModStorageWriteFreeze,
    switched: bool,
) -> ModStorageWriteFreeze {
    if freeze == ModStorageWriteFreeze::Migration {
        if switched {
            ModStorageWriteFreeze::RestartRequired
        } else {
            ModStorageWriteFreeze::Open
        }
    } else {
        freeze
    }
}

pub fn freeze_error(freeze: ModStorageWriteFreeze) -> (r: Result<(), ModStorageWriteGateError>)
    ensures
        r == freeze_error_spec(freeze),
{
    match freeze {
        ModStorageWriteFreeze::Open => Ok(()),
        ModStorageWriteFreeze::Migration => Err(ModStorageWriteGateError::MigrationInProgress),
        ModStorageWriteFreeze::RestartRequired => Err(ModStorageWriteGateError::RestartRequired),
    }
}

#[derive(Debug)]
pub struct ModStorageWriteGate {
    state: ModStorageWriteFreeze,
}

impl View for ModStorageWriteGate {
    type V = ModStorageWriteFreeze;

    closed spec fn view(&self) -> ModStorageWriteFreeze {
        self.state
    }
}

impl Default for ModStorageWriteGate {
    fn default() -> (r: Self)
        ensures
            r@ == ModStorageWriteFreeze::Open,
    {
        ModStorageWriteGate { state: ModStorageWriteFreeze::Open }
    }
}

impl ModStorageWriteGate {
    pub fn new() -> (r: Self)
        ensures
            r@ == ModStorageWriteFreeze::Open,
    {
        ModStorageWriteGate { state: ModStorageWriteFreeze::Open }
    }

    pub fn freeze(&self) -> (r: ModStorageWriteFreeze)
        ensures
            r == self@,
    {
        self.state
    }

    /// Fails while writes are frozen.
    pub fn ensure_open(&self) -> (r: Result<(), ModStorageWriteGateError>)
        ensures
            r == freeze_error_spec(self@),
    {
        freeze_error(self.state)
    }

    /// Runs `register` only when the barrier is open; a frozen barrier refuses without running it.
    pub fn admit_writer<T, F: FnOnce() -> T>(&self, register: F) -> (r: Result<
        T,
        ModStorageWriteGateError,
    >)
        requires
            self@ == ModStorageWriteFreeze::Open ==> call_requires(register, ()),
        ensures
            self@ != ModStorageWriteFreeze::Open ==> r is Err && Err::<(), _>(r->Err_0)
                == freeze_error_spec(self@),
            self@ == ModStorageWriteFreeze::Open ==> (r matches Ok(v) && call_ensures(
                register,
                (),
                v,
            )),
    {
        match freeze_error(self.state) {
            Err(e) => Err(e),
            Ok(()) => Ok(register()),
        }
    }

    /// Freezes writes for a migration once `ready` agrees; a frozen barrier fails before `ready`
    /// runs. Errors from `ready` propagate unchanged and leave the barrier as it was.
    pub fn begin_migration<E: From<ModStorageWriteGateError>, F: FnOnce() -> Result<(), E>>(
        &mut self,
        ready: F,
    ) -> (r: Result<(), E>)
        requires
            old(self)@ == ModStorageWriteFreeze::Open ==> call_requires(ready, ()),
        ensures
            old(self)@ != ModStorageWriteFreeze::Open ==> {
                &&& final(self)@ == old(self)@
                &&& (r matches Err(e) && call_ensures(
                    E::from,
                    (freeze_error_spec(old(self)@)->Err_0,),
                    e,
                ))
            },
            old(self)@ == ModStorageWriteFreeze::Open ==> {
                &&& call_ensures(ready, (), r)
                &&& r is Ok ==> final(self)@ == ModStorageWriteFreeze::Migration
                &&& r is Err ==> final(self)@ == ModStorageWriteFreeze::Open
            },
    {
        match freeze_error(self.state) {
            Err(e) => Err(E::from(e)),
            Ok(()) => {
                let outcome = ready();
                if outcome.is_ok() {
                    self.state = ModStorageWriteFreeze::Migration;
                }
                outcome
            },
        }
    }

    /// Ends the migration freeze: a rolled-back migration reopens the barrier, a switched one keeps
    /// writes frozen until restart. A barrier that is not migrating is left alone.
    pub fn end_migration(&mut self, switched: bool)
        ensures
            final(self)@ == after_end_migration(old(self)@, switched),
    {
        if self.state == ModStorageWriteFreeze::Migration {
            self.state =
                if switched {
                    ModStorageWriteFreeze::RestartRequired
                } else {
                    ModStorageWriteFreeze::Open
                };
        }
    }

    /// Empty-library root switch: runs the settings write under the barrier and, when it
    /// succeeds, freezes writes until restart in the same critical section.
    pub fn admit_root_switch<T, E, F: FnOnce() -> Result<T, E>>(&mut self, write: F) -> (r: Result<
        Result<T, E>,
        ModStorageWriteGateError,
    >)
        requires
            old(self)@ == ModStorageWriteFreeze::Open ==> call_requires(write, ()),
        ensures
            old(self)@ != ModStorageWriteFreeze::Open ==> {
                &&& final(self)@ == old(self)@
                &&& (r matches Err(e) && Err::<(), _>(e) == freeze_error_spec(old(self)@))
            },
            old(self)@ == ModStorageWriteFreeze::Open ==> {
                &&& (r matches Ok(outcome) && call_ensures(write, (), outcome))
                &&& (r matches Ok(outcome) && (outcome is Ok ==> final(self)@
                    == ModStorageWriteFreeze::RestartRequired))
                &&& (r matches Ok(outcome) && (outcome is Err ==> final(self)@
                    == ModStorageWriteFreeze::Open))
            },
    {
        match freeze_error(self.state) {
            Err(e) => Err(e),
            Ok(()) => {
                let outcome = write();
                if outcome.is_ok() {
                    self.state = ModStorageWriteFreeze::RestartRequired;
                }
                Ok(outcome)
            },
        }
    }
}

/// A frozen barrier refuses every writer, every migration and every root switch: only the open
/// state admits anything.
pub proof fn lemma_frozen_gate_refuses(freeze: ModStorageWriteFreeze)
    ensures
        freeze_error_spec(freeze) is Ok <==> freeze == ModStorageWriteFreeze::Open,
{
}

/// Once the setting names another root, nothing but a restart reopens the barrier: ending a
/// migration leaves it alone, and every admitting operation is refused.
pub proof fn lemma_restart_required_is_absorbing(switched: bool)
    ensures
        after_end_migration(ModStorageWriteFreeze::RestartRequired, switched)
            == ModStorageWriteFreeze::RestartRequired,
        freeze_error_spec(ModStorageWriteFreeze::RestartRequired) == Err::<(), _>(
            ModStorageWriteGateError::RestartRequired,
        ),
{
}

/// Ending a migration never reopens a barrier that is not in the migration state.
pub proof fn lemma_end_migration_only_touches_migration(
    freeze: ModStorageWriteFreeze,
    switched: bool,
)
    requires
        freeze != ModStorageWriteFreeze::Migration,
    ensures
        after_end_migration(freeze, switched) == freeze,
{
}

/// A migration admitted on an open barrier ends open when rolled back and frozen until restart
/// when switched.
pub proof fn lemma_migration_outcome(switched: bool)
    ensures
        after_end_migration(ModStorageWriteFreeze::Migration, switched) == (if switched {
            ModStorageWriteFreeze::RestartRequired
        } else {
            ModStorageWriteFreeze::Open
        }),
        freeze_error_spec(after_end_migration(ModStorageWriteFreeze::Migration, false)) is Ok,
        freeze_error_spec(after_end_migration(ModStorageWriteFreeze::Migration, true)) is Err,
{
}

} // verus!
