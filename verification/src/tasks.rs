//! Registry of background tasks: identities, kinds and lifecycle status.
use vstd::prelude::*;

verus! {

#[derive(Debug, Clone, Copy, PartialEq, Eq, Structural)]
pub enum TaskKind {
    ModImport,
    ModStorageMigration,
}

#[derive(Debug, Clone, Copy, PartialEq, Eq, Structural)]
pub enum TaskStatus {
    Queued,
    Running,
    Completed,
    Failed,
    Cancelled,
}

/// `true` for a task that has not reached a terminal status.
pub open spec fn is_active_status(status: TaskStatus) -> bool {
    status == TaskStatus::Queued || status == TaskStatus::Running
}

/// Prefix of the identities of tasks of `kind`.
pub open spec fn task_id_prefix(kind: TaskKind) -> Seq<char> {
    match kind {
        TaskKind::ModImport => "mod-import-"@,
        TaskKind::ModStorageMigration => "mod-storage-migration-"@,
    }
}

pub fn task_id_prefix_str(kind: TaskKind) -> (r: &'static str)
    ensures
        r@ == task_id_prefix(kind),
{
    match kind {
        TaskKind::ModImport => "mod-import-",
        TaskKind::ModStorageMigration => "mod-storage-migration-",
    }
}

#[derive(Debug, Clone, PartialEq, Eq)]
pub struct TaskRecord {
    pub task_id: String,
    pub kind: TaskKind,
    pub status: TaskStatus,
}

#[derive(Debug, Clone, PartialEq, Eq)]
pub enum TaskManagerError {
    TaskIdGenerationFailed(String),
    TaskNotFound(String),
    TaskCannotTransition { task_id: String, from: TaskStatus, to: TaskStatus },
}

/// One progress notification of a background task, as the UI receives it.
#[derive(Debug, Clone, PartialEq, Eq)]
pub struct TaskProgressEvent {
    pub task_id: String,
    pub kind: TaskKind,
    pub status: TaskStatus,
    pub phase: String,
    pub current: Option<u64>,
    pub total: Option<u64>,
    pub error: Option<String>,
}

impl TaskProgressEvent {
    /// An event without progress figures and without error.
    pub fn new(task_id: String, kind: TaskKind, status: TaskStatus, phase: &str) -> (r: Self)
        ensures
            r.task_id == task_id,
            r.kind == kind,
            r.status == status,
            r.phase@ == phase@,
            r.current is None,
            r.total is None,
            r.error is None,
    {
        TaskProgressEvent {
            task_id,
            kind,
            status,
            phase: phase.to_owned(),
            current: None,
            total: None,
            error: None,
        }
    }
}

/// Receives progress events as they happen.
pub trait TaskProgressObserver {
    fn observe(&self, event: &TaskProgressEvent);
}

/// An observer that ignores every event.
pub struct NoopTaskProgressObserver;

impl TaskProgressObserver for NoopTaskProgressObserver {
    fn observe(&self, event: &TaskProgressEvent) {
    }
}

/// Hands `event` to `observer` and appends it to `events`.
pub fn observe_task_progress<O: TaskProgressObserver>(
    events: &mut Vec<TaskProgressEvent>,
    observer: &O,
    event: TaskProgressEvent,
)
    ensures
        final(events)@ == old(events)@.push(event),
{
    observer.observe(&event);
    events.push(event);
}

/// Snapshot of one registered task as the contracts see it.
pub struct TaskEntry {
    pub task_id: Seq<char>,
    pub kind: TaskKind,
    pub status: TaskStatus,
}

pub struct TaskManager {
    tasks: Vec<TaskRecord>,
}

/// A character of a hyphenated UUID as `Display` writes it: a lowercase hex digit or `-`.
pub open spec fn is_token_char(c: char) -> bool {
    ('0' <= c && c <= '9') || ('a' <= c && c <= 'f') || c == '-'
}

/// A task identity of `kind`: the kind's prefix followed by a hyphenated UUID, so it holds no
/// path separator.
pub open spec fn is_task_id_of(id: Seq<char>, kind: TaskKind) -> bool {
    &&& id.len() == task_id_prefix(kind).len() + 36
    &&& id.subrange(0, task_id_prefix(kind).len() as int) == task_id_prefix(kind)
    &&& forall|i: int| task_id_prefix(kind).len() <= i < id.len() ==> is_token_char(#[trigger] id[i])
}

/// `getrandom::fill` on 16 bytes, read as a native-endian `u128`: the operating system's random
/// source, or `None` when it failed. Nothing is promised of the bits.
#[verifier::external_body]
fn os_random_u128() -> Option<u128> {
    let mut bytes = [0u8; 16];
    match getrandom::fill(&mut bytes) {
        Ok(()) => Some(u128::from_ne_bytes(bytes)),
        Err(_) => None,
    }
}

/// `uuid::Builder::from_random_bytes` on the big-endian bytes of `random`, written by the
/// `Display` of `Uuid`: the version 4 UUID of those bits in its 36-character lowercase
/// hyphenated form (hex digits and `-`).
#[verifier::external_body]
fn hyphenated_v4(random: u128) -> (r: String)
    ensures
        r@.len() == 36,
        forall|i: int| 0 <= i < 36 ==> is_token_char(#[trigger] r@[i]),
{
    uuid::Builder::from_random_bytes(random.to_be_bytes()).into_uuid().to_string()
}

/// A fresh random token (a hyphenated version 4 UUID), or `None` when the operating system's
/// random source failed.
pub(crate) fn random_task_token() -> (r: Option<String>)
    ensures
        r matches Some(t) ==> t@.len() == 36 && forall|i: int| 0 <= i < 36 ==> is_token_char(#[trigger] t@[i]),
{
    match os_random_u128() {
        Some(bits) => Some(hyphenated_v4(bits)),
        None => None,
    }
}

impl TaskManager {
    /// The registered tasks, oldest first.
    pub closed spec fn entries(&self) -> Seq<TaskEntry> {
        Seq::new(
            self.tasks@.len(),
            |i: int|
                TaskEntry {
                    task_id: self.tasks@[i].task_id@,
                    kind: self.tasks@[i].kind,
                    status: self.tasks@[i].status,
                },
        )
    }

    /// No two registered tasks share an identity.
    pub open spec fn wf(&self) -> bool {
        forall|i: int, j: int|
            0 <= i < self.entries().len() && 0 <= j < self.entries().len() && i != j
                ==> #[trigger] self.entries()[i].task_id != #[trigger] self.entries()[j].task_id
    }

    /// Status of the task with identity `task_id`, if registered.
    pub open spec fn status_of(&self, task_id: Seq<char>) -> Option<TaskStatus> {
        if exists|i: int| 0 <= i < self.entries().len() && #[trigger] self.entries()[i].task_id
            == task_id {
            let i = choose|i: int|
                0 <= i < self.entries().len() && #[trigger] self.entries()[i].task_id == task_id;
            Some(self.entries()[i].status)
        } else {
            None
        }
    }

    /// Whether a task of `kind` is queued or running.
    pub open spec fn has_active_of_kind(&self, kind: TaskKind) -> bool {
        exists|i: int|
            0 <= i < self.entries().len() && #[trigger] self.entries()[i].kind == kind
                && is_active_status(self.entries()[i].status)
    }

    pub fn new() -> (r: Self)
        ensures
            r.entries().len() == 0,
            r.wf(),
    {
        TaskManager { tasks: Vec::new() }
    }

    fn find(&self, task_id: &str) -> (r: Option<usize>)
        ensures
            r matches Some(i) ==> i < self.entries().len() && self.entries()[i as int].task_id
                == task_id@,
            r is None ==> forall|i: int|
                0 <= i < self.entries().len() ==> #[trigger] self.entries()[i].task_id
                    != task_id@,
    {
        let mut i: usize = 0;
        while i < self.tasks.len()
            invariant
                0 <= i <= self.tasks@.len(),
                forall|k: int| 0 <= k < i ==> #[trigger] self.entries()[k].task_id != task_id@,
            decreases self.tasks@.len() - i,
        {
            if crate::text::str_equal(self.tasks[i].task_id.as_str(), task_id) {
                return Some(i);
            }
            i = i + 1;
        }
        None
    }

    /// Registers a queued task of `kind` under a fresh identity made of the kind's prefix and
    /// a random token. The identity cannot be generated when it is already registered, or when
    /// no random token could be had (the error then carries the bare prefix).
    pub fn create_task(&mut self, kind: TaskKind) -> (r: Result<TaskRecord, TaskManagerError>)
        requires
            old(self).wf(),
        ensures
            final(self).wf(),
            r matches Ok(record) ==> {
                &&& is_task_id_of(record.task_id@, kind)
                &&& record.kind == kind
                &&& record.status == TaskStatus::Queued
                &&& record.task_id@.subrange(0, task_id_prefix(kind).len() as int)
                    == task_id_prefix(kind)
                &&& task_id_prefix(kind).len() <= record.task_id@.len()
                &&& old(self).status_of(record.task_id@) is None
                &&& final(self).entries() == old(self).entries().push(
                    TaskEntry { task_id: record.task_id@, kind, status: TaskStatus::Queued },
                )
            },
            r is Err ==> final(self).entries() == old(self).entries(),
            r matches Err(e) ==> (e matches TaskManagerError::TaskIdGenerationFailed(id) && (old(self).status_of(
                id@,
            ) is Some || id@ == task_id_prefix(kind)) && task_id_prefix(kind).len() <= id@.len() && id@.subrange(
                0,
                task_id_prefix(kind).len() as int,
            ) == task_id_prefix(kind)),
    {
        let mut task_id = task_id_prefix_str(kind).to_owned();
        let token = match random_task_token() {
            Some(t) => t,
            None => {
                proof {
                    assert(task_id@.subrange(0, task_id_prefix(kind).len() as int) =~= task_id_prefix(kind));
                }
                return Err(TaskManagerError::TaskIdGenerationFailed(task_id));
            },
        };
        task_id.append(token.as_str());
        proof {
            let p = task_id_prefix(kind);
            assert(task_id@ == p + token@);
            assert forall|i: int| p.len() <= i < task_id@.len() implies is_token_char(#[trigger] task_id@[i]) by {
                assert(task_id@[i] == token@[i - p.len()]);
            }
        }
        match self.find(task_id.as_str()) {
            Some(i) => {
                proof {
                    assert(self.entries()[i as int].task_id == task_id@);
                    assert(task_id@.subrange(0, task_id_prefix(kind).len() as int) =~= task_id_prefix(kind));
                }
                return Err(TaskManagerError::TaskIdGenerationFailed(task_id));
            },
            None => {},
        }
        let record = TaskRecord { task_id: task_id.clone(), kind, status: TaskStatus::Queued };
        let ghost before = self.entries();
        self.tasks.push(TaskRecord { task_id, kind, status: TaskStatus::Queued });
        proof {
            assert(self.entries() =~= before.push(
                TaskEntry { task_id: record.task_id@, kind, status: TaskStatus::Queued },
            ));
            assert(record.task_id@.subrange(0, task_id_prefix(kind).len() as int)
                =~= task_id_prefix(kind));
        }
        Ok(record)
    }

    pub fn task_status(&self, task_id: &str) -> (r: Option<TaskStatus>)
        requires
            self.wf(),
        ensures
            r == self.status_of(task_id@),
    {
        match self.find(task_id) {
            Some(i) => Some(self.tasks[i].status),
            None => None,
        }
    }

    pub fn has_active_task_of_kind(&self, kind: TaskKind) -> (r: Result<bool, TaskManagerError>)
        ensures
            r == Ok::<bool, TaskManagerError>(self.has_active_of_kind(kind)),
    {
        let mut i: usize = 0;
        while i < self.tasks.len()
            invariant
                0 <= i <= self.tasks@.len(),
                forall|k: int|
                    0 <= k < i ==> !(#[trigger] self.entries()[k].kind == kind && is_active_status(
                        self.entries()[k].status,
                    )),
            decreases self.tasks@.len() - i,
        {
            let status = self.tasks[i].status;
            if self.tasks[i].kind == kind && (status == TaskStatus::Queued || status
                == TaskStatus::Running) {
                proof {
                    assert(self.entries()[i as int].kind == kind);
                }
                return Ok(true);
            }
            i = i + 1;
        }
        Ok(false)
    }
}

/// `entries` with the status of the task named `task_id` replaced by `status`.
pub open spec fn with_status(entries: Seq<TaskEntry>, task_id: Seq<char>, status: TaskStatus) -> Seq<
    TaskEntry,
> {
    Seq::new(
        entries.len(),
        |k: int|
            if entries[k].task_id == task_id {
                TaskEntry { task_id: entries[k].task_id, kind: entries[k].kind, status }
            } else {
                entries[k]
            },
    )
}

/// Outcome of asking the registry to move a task from one of the `from` statuses to `to`.
pub open spec fn transition_outcome(
    current: Option<TaskStatus>,
    from_queued: bool,
    from_running: bool,
) -> bool {
    match current {
        Some(TaskStatus::Queued) => from_queued,
        Some(TaskStatus::Running) => from_running,
        _ => false,
    }
}

impl TaskManager {
    /// Moves the task named `task_id` to `to` when its status is `Queued` (and `from_queued`)
    /// or `Running` (and `from_running`); anything else is refused and changes nothing.
    fn transition(&mut self, task_id: &str, from_queued: bool, from_running: bool, to: TaskStatus) -> (r:
        Result<TaskRecord, TaskManagerError>)
        requires
            old(self).wf(),
        ensures
            final(self).wf(),
            r is Ok <==> transition_outcome(
                old(self).status_of(task_id@),
                from_queued,
                from_running,
            ),
            r matches Ok(record) ==> record.task_id@ == task_id@ && record.status == to
                && final(self).entries() == with_status(old(self).entries(), task_id@, to),
            r matches Err(e) ==> final(self).entries() == old(self).entries() && (
            old(self).status_of(task_id@) is None <==> e is TaskNotFound),
    {
        match self.find(task_id) {
            None => {
                proof {
                    assert(!exists|i: int|
                        0 <= i < self.entries().len() && #[trigger] self.entries()[i].task_id
                            == task_id@);
                }
                Err(TaskManagerError::TaskNotFound(task_id.to_owned()))
            },
            Some(i) => {
                proof {
                    assert(self.status_of(task_id@) == Some(self.entries()[i as int].status)) by {
                        let j = choose|j: int|
                            0 <= j < self.entries().len() && #[trigger] self.entries()[j].task_id
                                == task_id@;
                        if j != i as int {
                            assert(self.entries()[j].task_id == self.entries()[i as int].task_id);
                        }
                    }
                }
                let status = self.tasks[i].status;
                let allowed = match status {
                    TaskStatus::Queued => from_queued,
                    TaskStatus::Running => from_running,
                    _ => false,
                };
                if !allowed {
                    return Err(
                        TaskManagerError::TaskCannotTransition {
                            task_id: task_id.to_owned(),
                            from: status,
                            to,
                        },
                    );
                }
                let kind = self.tasks[i].kind;
                let id = self.tasks[i].task_id.clone();
                let ghost before = self.entries();
                self.tasks.set(i, TaskRecord { task_id: id, kind, status: to });
                proof {
                    assert forall|k: int| 0 <= k < before.len() implies #[trigger] self.entries()[k]
                        == with_status(before, task_id@, to)[k] by {
                        if k != i as int {
                            assert(before[k].task_id != before[i as int].task_id);
                        }
                    }
                    assert(self.entries() =~= with_status(before, task_id@, to));
                }
                Ok(TaskRecord { task_id: task_id.to_owned(), kind, status: to })
            },
        }
    }

    /// `Queued` to `Running`.
    pub fn start_task(&mut self, task_id: &str) -> (r: Result<TaskRecord, TaskManagerError>)
        requires
            old(self).wf(),
        ensures
            final(self).wf(),
            r is Ok <==> old(self).status_of(task_id@) == Some(TaskStatus::Queued),
            r is Ok ==> final(self).entries() == with_status(
                old(self).entries(),
                task_id@,
                TaskStatus::Running,
            ),
            r is Err ==> final(self).entries() == old(self).entries(),
    {
        self.transition(task_id, true, false, TaskStatus::Running)
    }

    /// `Running` to `Completed`.
    pub fn complete_task(&mut self, task_id: &str) -> (r: Result<TaskRecord, TaskManagerError>)
        requires
            old(self).wf(),
        ensures
            final(self).wf(),
            r is Ok <==> old(self).status_of(task_id@) == Some(TaskStatus::Running),
            r is Ok ==> final(self).entries() == with_status(
                old(self).entries(),
                task_id@,
                TaskStatus::Completed,
            ),
            r is Err ==> final(self).entries() == old(self).entries(),
    {
        self.transition(task_id, false, true, TaskStatus::Completed)
    }

    /// `Queued` or `Running` to `Failed`.
    pub fn fail_task(&mut self, task_id: &str) -> (r: Result<TaskRecord, TaskManagerError>)
        requires
            old(self).wf(),
        ensures
            final(self).wf(),
            r is Ok <==> (old(self).status_of(task_id@) matches Some(s) && is_active_status(s)),
            r is Ok ==> final(self).entries() == with_status(
                old(self).entries(),
                task_id@,
                TaskStatus::Failed,
            ),
            r is Err ==> final(self).entries() == old(self).entries(),
    {
        self.transition(task_id, true, true, TaskStatus::Failed)
    }

    /// `Queued` or `Running` to `Cancelled`.
    pub fn cancel_task(&mut self, task_id: &str) -> (r: Result<TaskRecord, TaskManagerError>)
        requires
            old(self).wf(),
        ensures
            final(self).wf(),
            r is Ok <==> (old(self).status_of(task_id@) matches Some(s) && is_active_status(s)),
            r is Ok ==> final(self).entries() == with_status(
                old(self).entries(),
                task_id@,
                TaskStatus::Cancelled,
            ),
            r is Err ==> final(self).entries() == old(self).entries(),
    {
        self.transition(task_id, true, true, TaskStatus::Cancelled)
    }
}

/// After a transition the named task carries the new status and every other task keeps its own.
pub proof fn lemma_with_status_reads_back(
    manager: TaskManager,
    entries: Seq<TaskEntry>,
    task_id: Seq<char>,
    other: Seq<char>,
    status: TaskStatus,
)
    requires
        manager.wf(),
        manager.entries() == with_status(entries, task_id, status),
        exists|i: int| 0 <= i < entries.len() && #[trigger] entries[i].task_id == task_id,
    ensures
        manager.status_of(task_id) == Some(status),
{
    let i = choose|i: int| 0 <= i < entries.len() && #[trigger] entries[i].task_id == task_id;
    assert(manager.entries()[i].task_id == task_id);
    let j = choose|j: int| 0 <= j < manager.entries().len() && #[trigger] manager.entries()[j].task_id == task_id;
    if j != i {
        assert(manager.entries()[j].task_id == manager.entries()[i].task_id);
    }
}

impl Default for TaskManager {
    fn default() -> (r: Self)
        ensures
            r.entries().len() == 0,
    {
        TaskManager::new()
    }
}

} // verus!
