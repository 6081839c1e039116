//! The recovery record of a reinstall commit: which pre-reinstall snapshot each target has,
//! who cleans it up, and the steps that move a snapshot from stored to cleaned while the
//! record on disk keeps up with what was done.
use crate::attachments::InstallManifest;
use crate::metadata::PortFailure;
use crate::preflight::{PreparedReinstallTarget, PreparedSourceFile};
use crate::reinstall::{InstalledFileSummary, ReinstallCommitError, ReinstallCommitPhase, ReinstallTargetClass};
use crate::text::str_equal;
use vstd::prelude::*;

verus! {

/// What a snapshot of a target's pre-reinstall file is kept for.
#[derive(Debug, Clone, Copy, PartialEq, Eq, Structural)]
pub enum ReinstallSnapshotPurpose {
    OriginalBackupCandidate,
    TransactionRollback,
}

/// Who removes a stored snapshot.
#[derive(Debug, Clone, Copy, PartialEq, Eq, Structural)]
pub enum ReinstallSnapshotCleanupOwner {
    Transaction,
    PromoteOnCommit,
    Manifest,
}

/// The snapshot of one target.
#[derive(Debug, Clone, PartialEq, Eq)]
pub enum ReinstallSnapshotState {
    NotRequired,
    PreStateAbsent,
    Stored { snapshot_ref: String, purpose: ReinstallSnapshotPurpose, cleanup_owner: ReinstallSnapshotCleanupOwner },
    CleanupPending { snapshot_ref: String, purpose: ReinstallSnapshotPurpose },
    Cleaned { purpose: ReinstallSnapshotPurpose },
}

/// One target of a reinstall as its recovery record keeps it.
#[derive(Debug, Clone, PartialEq, Eq)]
pub struct ReinstallRecoveryTarget {
    pub target_path: String,
    pub class: ReinstallTargetClass,
    pub pre_state: Option<InstalledFileSummary>,
    pub candidate_state: Option<InstalledFileSummary>,
    pub snapshot: ReinstallSnapshotState,
    pub original_backup_ref: Option<String>,
}

#[derive(Debug, Clone, Copy, PartialEq, Eq, Structural)]
pub enum ReinstallRecoveryTransactionStatus {
    Planned,
    Committing,
    Completed,
    RollbackRequired,
    RolledBack,
    RepairRequired,
}

/// The recovery record of one reinstall.
#[derive(Debug, Clone, PartialEq, Eq)]
pub struct ReinstallRecoveryTransaction {
    pub profile_id: String,
    pub mod_id: String,
    pub old_revision_id: String,
    pub candidate_revision_id: String,
    pub plan_token: String,
    pub plan_hash: String,
    pub status: ReinstallRecoveryTransactionStatus,
    pub pre_reinstall_manifest: InstallManifest,
    pub targets: Vec<ReinstallRecoveryTarget>,
}

/// Why a cleanup step stopped: a snapshot could not be removed, or the record could not be
/// saved (or does not list the target).
#[derive(Debug, Clone, Copy, PartialEq, Eq, Structural)]
pub enum CleanupProgressError {
    Resource,
    Recovery,
}

/// Where recovery records are kept.
pub trait ReinstallRecoveryTransactionRepository {
    fn save_transaction(&self, transaction: &ReinstallRecoveryTransaction) -> Result<(), PortFailure>;
}

/// Where pre-reinstall snapshots are kept.
pub trait ReinstallSnapshotStore {
    fn store_snapshot(&self, target_path: &str, bytes: &[u8]) -> Result<String, PortFailure>;

    fn read_snapshot(&self, snapshot_ref: &str) -> Result<Option<Vec<u8>>, PortFailure>;

    fn remove_snapshot(&self, snapshot_ref: &str) -> Result<(), PortFailure>;
}

/// The reference of a snapshot that still exists.
pub open spec fn snapshot_ref_spec(state: ReinstallSnapshotState) -> Option<Seq<char>> {
    match state {
        ReinstallSnapshotState::Stored { snapshot_ref, .. } => Some(snapshot_ref@),
        ReinstallSnapshotState::CleanupPending { snapshot_ref, .. } => Some(snapshot_ref@),
        _ => None,
    }
}

pub fn snapshot_ref(target: &ReinstallRecoveryTarget) -> (r: Option<&str>)
    ensures
        match r {
            Some(s) => snapshot_ref_spec(target.snapshot) == Some(s@),
            None => snapshot_ref_spec(target.snapshot) is None,
        },
{
    match &target.snapshot {
        ReinstallSnapshotState::Stored { snapshot_ref, .. } => Some(snapshot_ref.as_str()),
        ReinstallSnapshotState::CleanupPending { snapshot_ref, .. } => Some(snapshot_ref.as_str()),
        _ => None,
    }
}

/// Position of the candidate file a target ends up with: the one of highest layer priority,
/// the last of them where several share it.
pub open spec fn is_candidate_position(files: Seq<PreparedSourceFile>, k: int) -> bool {
    &&& 0 <= k < files.len()
    &&& forall|j: int| 0 <= j < files.len() ==> (#[trigger] files[j]).provider.layer.priority <= files[k].provider.layer.priority
    &&& forall|j: int| k < j < files.len() ==> (#[trigger] files[j]).provider.layer.priority < files[k].provider.layer.priority
}

pub fn candidate_file(target: &PreparedReinstallTarget) -> (r: Option<usize>)
    ensures
        match r {
            Some(k) => is_candidate_position(target.candidate_files@, k as int),
            None => target.candidate_files@.len() == 0,
        },
{
    let files = &target.candidate_files;
    if files.len() == 0 {
        return None;
    }
    let mut best: usize = 0;
    let mut k: usize = 1;
    while k < files.len()
        invariant
            0 < files@.len(),
            1 <= k <= files@.len(),
            0 <= best < k,
            forall|j: int| 0 <= j < k ==> (#[trigger] files@[j]).provider.layer.priority <= files@[best as int].provider.layer.priority,
            forall|j: int| best < j < k ==> (#[trigger] files@[j]).provider.layer.priority < files@[best as int].provider.layer.priority,
        decreases files@.len() - k,
    {
        if files[k].provider.layer.priority >= files[best].provider.layer.priority {
            best = k;
        }
        k = k + 1;
    }
    Some(best)
}

pub open spec fn promoted(state: ReinstallSnapshotState) -> ReinstallSnapshotState {
    match state {
        ReinstallSnapshotState::Stored { snapshot_ref, purpose, cleanup_owner } => if cleanup_owner
            == ReinstallSnapshotCleanupOwner::PromoteOnCommit {
            ReinstallSnapshotState::Stored { snapshot_ref, purpose, cleanup_owner: ReinstallSnapshotCleanupOwner::Manifest }
        } else {
            state
        },
        _ => state,
    }
}

pub(crate) fn clone_summary_opt(s: &Option<InstalledFileSummary>) -> (r: Option<InstalledFileSummary>)
    ensures
        r == *s,
{
    match s {
        Some(x) => Some(InstalledFileSummary { size_bytes: x.size_bytes, sha256: x.sha256.clone() }),
        None => None,
    }
}

pub(crate) fn clone_opt_string(s: &Option<String>) -> (r: Option<String>)
    ensures
        r == *s,
{
    match s {
        Some(x) => Some(x.clone()),
        None => None,
    }
}

/// The target with another snapshot.
fn with_snapshot(t: &ReinstallRecoveryTarget, snapshot: ReinstallSnapshotState) -> (r: ReinstallRecoveryTarget)
    ensures
        r == (ReinstallRecoveryTarget { snapshot, ..*t }),
{
    ReinstallRecoveryTarget {
        target_path: t.target_path.clone(),
        class: t.class,
        pre_state: clone_summary_opt(&t.pre_state),
        candidate_state: clone_summary_opt(&t.candidate_state),
        snapshot,
        original_backup_ref: clone_opt_string(&t.original_backup_ref),
    }
}

/// Hands the snapshots that were to become original backups over to the manifest once the
/// reinstall is committed; every other snapshot stays as it is.
pub fn promote_manifest_snapshots(transaction: &mut ReinstallRecoveryTransaction)
    ensures
        final(transaction).targets@.len() == old(transaction).targets@.len(),
        forall|i: int|
            0 <= i < old(transaction).targets@.len() ==> #[trigger] final(transaction).targets@[i] == (
            ReinstallRecoveryTarget { snapshot: promoted(old(transaction).targets@[i].snapshot), ..old(transaction).targets@[i] }),
        final(transaction).profile_id == old(transaction).profile_id,
        final(transaction).mod_id == old(transaction).mod_id,
        final(transaction).old_revision_id == old(transaction).old_revision_id,
        final(transaction).candidate_revision_id == old(transaction).candidate_revision_id,
        final(transaction).plan_token == old(transaction).plan_token,
        final(transaction).plan_hash == old(transaction).plan_hash,
        final(transaction).status == old(transaction).status,
        final(transaction).pre_reinstall_manifest == old(transaction).pre_reinstall_manifest,
{
    let ghost before = transaction.targets@;
    let mut k: usize = 0;
    while k < transaction.targets.len()
        invariant
            transaction.targets@.len() == before.len(),
            0 <= k <= before.len(),
            forall|i: int| 0 <= i < k ==> #[trigger] transaction.targets@[i] == (ReinstallRecoveryTarget {
                snapshot: promoted(before[i].snapshot),
                ..before[i]
            }),
            forall|i: int| k <= i < before.len() ==> #[trigger] transaction.targets@[i] == before[i],
            transaction.profile_id == old(transaction).profile_id,
            transaction.mod_id == old(transaction).mod_id,
            transaction.old_revision_id == old(transaction).old_revision_id,
            transaction.candidate_revision_id == old(transaction).candidate_revision_id,
            transaction.plan_token == old(transaction).plan_token,
            transaction.plan_hash == old(transaction).plan_hash,
            transaction.status == old(transaction).status,
            transaction.pre_reinstall_manifest == old(transaction).pre_reinstall_manifest,
            before == old(transaction).targets@,
        decreases before.len() - k,
    {
        let next = match &transaction.targets[k].snapshot {
            ReinstallSnapshotState::Stored { snapshot_ref, purpose, cleanup_owner } => {
                if *cleanup_owner == ReinstallSnapshotCleanupOwner::PromoteOnCommit {
                    Some(ReinstallSnapshotState::Stored {
                        snapshot_ref: snapshot_ref.clone(),
                        purpose: *purpose,
                        cleanup_owner: ReinstallSnapshotCleanupOwner::Manifest,
                    })
                } else {
                    None
                }
            },
            _ => None,
        };
        match next {
            Some(state) => {
                let updated = with_snapshot(&transaction.targets[k], state);
                transaction.targets.set(k, updated);
            },
            None => {
                assert(promoted(before[k as int].snapshot) == before[k as int].snapshot);
                assert(before[k as int] == (ReinstallRecoveryTarget {
                    snapshot: promoted(before[k as int].snapshot),
                    ..before[k as int]
                }));
            },
        }
        k = k + 1;
    }
}

/// Position of the first target of the record with the path.
pub open spec fn target_index_from(targets: Seq<ReinstallRecoveryTarget>, path: Seq<char>, k: int) -> Option<int>
    decreases targets.len() - k,
{
    if k < 0 || k >= targets.len() {
        None
    } else if targets[k].target_path@ == path {
        Some(k)
    } else {
        target_index_from(targets, path, k + 1)
    }
}

/// A snapshot the record still has to remove: stored under the transaction's care (or to be
/// promoted), or already marked for removal.
pub open spec fn cleanable(state: ReinstallSnapshotState) -> bool {
    match state {
        ReinstallSnapshotState::Stored { cleanup_owner, .. } => cleanup_owner != ReinstallSnapshotCleanupOwner::Manifest,
        ReinstallSnapshotState::CleanupPending { .. } => true,
        _ => false,
    }
}

pub open spec fn pending_of(state: ReinstallSnapshotState) -> ReinstallSnapshotState {
    match state {
        ReinstallSnapshotState::Stored { snapshot_ref, purpose, .. } => ReinstallSnapshotState::CleanupPending {
            snapshot_ref,
            purpose,
        },
        _ => state,
    }
}

pub open spec fn cleaned_of(state: ReinstallSnapshotState) -> ReinstallSnapshotState {
    match state {
        ReinstallSnapshotState::Stored { purpose, .. } => ReinstallSnapshotState::Cleaned { purpose },
        ReinstallSnapshotState::CleanupPending { purpose, .. } => ReinstallSnapshotState::Cleaned { purpose },
        _ => state,
    }
}

pub open spec fn with_state(targets: Seq<ReinstallRecoveryTarget>, i: int, state: ReinstallSnapshotState) -> Seq<
    ReinstallRecoveryTarget,
> {
    targets.update(i, ReinstallRecoveryTarget { snapshot: state, ..targets[i] })
}

/// What one cleanup step leaves in the record: nothing changes for a target the record does not
/// list or whose snapshot is not the record's to remove; otherwise the snapshot is marked for
/// removal and saved, removed, then marked cleaned and saved. A failed save puts back the state
/// last saved, so the record in memory stays the one on disk.
pub open spec fn cleanup_outcome(
    before: Seq<ReinstallRecoveryTarget>,
    path: Seq<char>,
    r: Result<(), CleanupProgressError>,
    after: Seq<ReinstallRecoveryTarget>,
) -> bool {
    match target_index_from(before, path, 0) {
        None => r == Err::<(), CleanupProgressError>(CleanupProgressError::Recovery) && after == before,
        Some(i) => {
            let state = before[i].snapshot;
            if !cleanable(state) {
                r == Ok::<(), CleanupProgressError>(()) && after == before
            } else {
                match r {
                    Ok(()) => after == with_state(before, i, cleaned_of(state)),
                    Err(CleanupProgressError::Resource) => after == with_state(before, i, pending_of(state)),
                    Err(CleanupProgressError::Recovery) => after == before || after == with_state(
                        before,
                        i,
                        pending_of(state),
                    ),
                }
            }
        },
    }
}

fn find_target(targets: &Vec<ReinstallRecoveryTarget>, path: &str) -> (r: Option<usize>)
    ensures
        match r {
            Some(k) => target_index_from(targets@, path@, 0) == Some(k as int) && k < targets@.len(),
            None => target_index_from(targets@, path@, 0) is None,
        },
{
    let mut k: usize = 0;
    while k < targets.len()
        invariant
            0 <= k <= targets@.len(),
            target_index_from(targets@, path@, 0) == target_index_from(targets@, path@, k as int),
        decreases targets@.len() - k,
    {
        if str_equal(targets[k].target_path.as_str(), path) {
            return Some(k);
        }
        k = k + 1;
    }
    None
}

fn clone_state(state: &ReinstallSnapshotState) -> (r: ReinstallSnapshotState)
    ensures
        r == *state,
{
    match state {
        ReinstallSnapshotState::NotRequired => ReinstallSnapshotState::NotRequired,
        ReinstallSnapshotState::PreStateAbsent => ReinstallSnapshotState::PreStateAbsent,
        ReinstallSnapshotState::Stored { snapshot_ref, purpose, cleanup_owner } => ReinstallSnapshotState::Stored {
            snapshot_ref: snapshot_ref.clone(),
            purpose: *purpose,
            cleanup_owner: *cleanup_owner,
        },
        ReinstallSnapshotState::CleanupPending { snapshot_ref, purpose } => ReinstallSnapshotState::CleanupPending {
            snapshot_ref: snapshot_ref.clone(),
            purpose: *purpose,
        },
        ReinstallSnapshotState::Cleaned { purpose } => ReinstallSnapshotState::Cleaned { purpose: *purpose },
    }
}

/// One cleanup step for the snapshot of `target_path`, keeping the saved record in step.
pub fn cleanup_target_snapshot<R: ReinstallRecoveryTransactionRepository, S: ReinstallSnapshotStore>(
    recovery: &R,
    snapshots: &S,
    transaction: &mut ReinstallRecoveryTransaction,
    target_path: &str,
) -> (r: Result<(), CleanupProgressError>)
    ensures
        *final(transaction) == (ReinstallRecoveryTransaction { targets: final(transaction).targets, ..*old(transaction) }),
        cleanup_outcome(old(transaction).targets@, target_path@, r, final(transaction).targets@),
{
    let ghost before = transaction.targets@;
    let i = match find_target(&transaction.targets, target_path) {
        Some(i) => i,
        None => {
            return Err(CleanupProgressError::Recovery);
        },
    };
    let state = clone_state(&transaction.targets[i].snapshot);
    if !match &state {
        ReinstallSnapshotState::Stored { cleanup_owner, .. } => *cleanup_owner != ReinstallSnapshotCleanupOwner::Manifest,
        ReinstallSnapshotState::CleanupPending { .. } => true,
        _ => false,
    } {
        return Ok(());
    }
    let (reference, purpose) = match &state {
        ReinstallSnapshotState::Stored { snapshot_ref, purpose, .. } => (snapshot_ref.clone(), *purpose),
        ReinstallSnapshotState::CleanupPending { snapshot_ref, purpose } => (snapshot_ref.clone(), *purpose),
        _ => {
            return Ok(());
        },
    };
    let pending = ReinstallSnapshotState::CleanupPending { snapshot_ref: reference.clone(), purpose };
    assert(pending == pending_of(state));
    let was_stored = match &state {
        ReinstallSnapshotState::Stored { .. } => true,
        _ => false,
    };
    if was_stored {
        let updated = with_snapshot(&transaction.targets[i], clone_state(&pending));
        transaction.targets.set(i, updated);
        if recovery.save_transaction(transaction).is_err() {
            let restored = with_snapshot(&transaction.targets[i], clone_state(&state));
            transaction.targets.set(i, restored);
            proof {
                assert(transaction.targets@ =~= before);
            }
            return Err(CleanupProgressError::Recovery);
        }
    }
    proof {
        if state is CleanupPending {
            assert(before =~= with_state(before, i as int, pending_of(state)));
        }
        assert(transaction.targets@ =~= with_state(before, i as int, pending_of(state)));
    }
    if snapshots.remove_snapshot(reference.as_str()).is_err() {
        return Err(CleanupProgressError::Resource);
    }
    let cleaned = with_snapshot(&transaction.targets[i], ReinstallSnapshotState::Cleaned { purpose });
    transaction.targets.set(i, cleaned);
    if recovery.save_transaction(transaction).is_err() {
        let back = with_snapshot(&transaction.targets[i], pending);
        transaction.targets.set(i, back);
        proof {
            assert(transaction.targets@ =~= with_state(before, i as int, pending_of(state)));
        }
        return Err(CleanupProgressError::Recovery);
    }
    proof {
        assert(transaction.targets@ =~= with_state(before, i as int, cleaned_of(state)));
    }
    Ok(())
}

/// Writes to the game directory.
pub trait InstallGameWriter {
    fn write_game_file(&self, target_path: &str, bytes: &[u8]) -> Result<(), PortFailure>;

    fn remove_game_file(&self, target_path: &str) -> Result<(), PortFailure>;
}

/// The kind of snapshot a target needs before the reinstall touches it: none for a retained
/// target, a note that nothing was there for a new target on an empty path, an original-backup
/// candidate (promoted on commit) for a new target over a player's file, a rollback snapshot for
/// a replaced or stale target.
pub open spec fn snapshot_plan(target: PreparedReinstallTarget, snapshot: ReinstallSnapshotState) -> bool {
    match target.class {
        ReinstallTargetClass::Retained => snapshot == ReinstallSnapshotState::NotRequired,
        ReinstallTargetClass::Added => if target.pre_file is None {
            snapshot == ReinstallSnapshotState::PreStateAbsent
        } else {
            snapshot matches ReinstallSnapshotState::Stored { purpose, cleanup_owner, .. }
                && purpose == ReinstallSnapshotPurpose::OriginalBackupCandidate
                && cleanup_owner == ReinstallSnapshotCleanupOwner::PromoteOnCommit
        },
        _ => target.pre_file is Some && (snapshot matches ReinstallSnapshotState::Stored { purpose, cleanup_owner, .. }
            && purpose == ReinstallSnapshotPurpose::TransactionRollback
            && cleanup_owner == ReinstallSnapshotCleanupOwner::Transaction),
    }
}

/// The summary of the file the target ends up with.
pub open spec fn candidate_state_spec(target: PreparedReinstallTarget) -> Option<InstalledFileSummary> {
    if target.candidate_files@.len() == 0 {
        None
    } else {
        let k = choose|k: int| is_candidate_position(target.candidate_files@, k);
        Some(target.candidate_files@[k].summary)
    }
}

/// `r` records `target` with `snapshot`.
pub open spec fn recorded(r: ReinstallRecoveryTarget, target: PreparedReinstallTarget) -> bool {
    &&& r.target_path == target.target_path
    &&& r.class == target.class
    &&& r.pre_state == match target.pre_file {
        Some(f) => Some(f.summary),
        None => None,
    }
    &&& r.candidate_state == candidate_state_spec(target)
    &&& r.original_backup_ref == target.original_backup_ref
    &&& snapshot_plan(target, r.snapshot)
}

proof fn lemma_candidate_position_unique(files: Seq<PreparedSourceFile>, a: int, b: int)
    requires
        is_candidate_position(files, a),
        is_candidate_position(files, b),
    ensures
        a == b,
{
    if a < b {
        assert(files[b].provider.layer.priority < files[a].provider.layer.priority);
        assert(files[b].provider.layer.priority <= files[a].provider.layer.priority);
        assert(files[a].provider.layer.priority <= files[b].provider.layer.priority);
    } else if b < a {
        assert(files[a].provider.layer.priority < files[b].provider.layer.priority);
        assert(files[b].provider.layer.priority <= files[a].provider.layer.priority);
    }
}

fn candidate_summary(target: &PreparedReinstallTarget) -> (r: Option<InstalledFileSummary>)
    ensures
        r == candidate_state_spec(*target),
{
    match candidate_file(target) {
        Some(k) => {
            proof {
                let c = choose|c: int| is_candidate_position(target.candidate_files@, c);
                lemma_candidate_position_unique(target.candidate_files@, c, k as int);
            }
            let f = &target.candidate_files[k];
            Some(InstalledFileSummary { size_bytes: f.summary.size_bytes, sha256: f.summary.sha256.clone() })
        },
        None => None,
    }
}

fn remove_snapshots_best_effort<S: ReinstallSnapshotStore>(snapshots: &S, refs: &Vec<String>) {
    let mut k: usize = refs.len();
    while k > 0
        invariant
            k <= refs@.len(),
        decreases k,
    {
        k = k - 1;
        let _ = snapshots.remove_snapshot(refs[k].as_str());
    }
}

/// The recovery targets of a reinstall with their snapshots taken: when a snapshot cannot be
/// stored, the snapshots stored so far are removed (last first) and the commit fails in its
/// snapshot phase.
pub fn plan_recovery_targets<S: ReinstallSnapshotStore>(snapshots: &S, targets: &Vec<PreparedReinstallTarget>) -> (r:
    Result<Vec<ReinstallRecoveryTarget>, ReinstallCommitError>)
    ensures
        match r {
            Ok(planned) => planned@.len() == targets@.len() && forall|i: int|
                0 <= i < targets@.len() ==> recorded(#[trigger] planned@[i], targets@[i]),
            Err(e) => e == ReinstallCommitError::Failed { phase: ReinstallCommitPhase::Snapshot },
        },
{
    let mut planned: Vec<ReinstallRecoveryTarget> = Vec::new();
    let mut created: Vec<String> = Vec::new();
    let mut k: usize = 0;
    while k < targets.len()
        invariant
            0 <= k <= targets@.len(),
            planned@.len() == k,
            forall|i: int| 0 <= i < k ==> recorded(#[trigger] planned@[i], targets@[i]),
        decreases targets@.len() - k,
    {
        let target = &targets[k];
        let snapshot = match target.class {
            ReinstallTargetClass::Retained => ReinstallSnapshotState::NotRequired,
            _ => {
                let added = match target.class {
                    ReinstallTargetClass::Added => true,
                    _ => false,
                };
                match &target.pre_file {
                    None => {
                        if added {
                            ReinstallSnapshotState::PreStateAbsent
                        } else {
                            remove_snapshots_best_effort(snapshots, &created);
                            return Err(ReinstallCommitError::Failed { phase: ReinstallCommitPhase::Snapshot });
                        }
                    },
                    Some(file) => match snapshots.store_snapshot(target.target_path.as_str(), file.bytes.as_slice()) {
                        Ok(reference) => {
                            created.push(reference.clone());
                            if added {
                                ReinstallSnapshotState::Stored {
                                    snapshot_ref: reference,
                                    purpose: ReinstallSnapshotPurpose::OriginalBackupCandidate,
                                    cleanup_owner: ReinstallSnapshotCleanupOwner::PromoteOnCommit,
                                }
                            } else {
                                ReinstallSnapshotState::Stored {
                                    snapshot_ref: reference,
                                    purpose: ReinstallSnapshotPurpose::TransactionRollback,
                                    cleanup_owner: ReinstallSnapshotCleanupOwner::Transaction,
                                }
                            }
                        },
                        Err(_) => {
                            remove_snapshots_best_effort(snapshots, &created);
                            return Err(ReinstallCommitError::Failed { phase: ReinstallCommitPhase::Snapshot });
                        },
                    },
                }
            },
        };
        let pre_state = match &target.pre_file {
            Some(f) => Some(InstalledFileSummary { size_bytes: f.summary.size_bytes, sha256: f.summary.sha256.clone() }),
            None => None,
        };
        planned.push(
            ReinstallRecoveryTarget {
                target_path: target.target_path.clone(),
                class: target.class,
                pre_state,
                candidate_state: candidate_summary(target),
                snapshot,
                original_backup_ref: clone_opt_string(&target.original_backup_ref),
            },
        );
        k = k + 1;
    }
    Ok(planned)
}

/// Puts a changed target back from its snapshot: a new target's path is emptied again, a stored
/// snapshot is written back, and a target without snapshot needs nothing. A snapshot that cannot
/// be read fails.
pub fn restore_target<G: InstallGameWriter, S: ReinstallSnapshotStore>(
    game: &G,
    snapshots: &S,
    target: &ReinstallRecoveryTarget,
) -> (r: Result<(), ()>)
    ensures
        (target.snapshot is NotRequired || target.snapshot is CleanupPending || target.snapshot is Cleaned) ==> r is Ok,
{
    match &target.snapshot {
        ReinstallSnapshotState::NotRequired => Ok(()),
        ReinstallSnapshotState::PreStateAbsent => match game.remove_game_file(target.target_path.as_str()) {
            Ok(()) => Ok(()),
            Err(_) => Err(()),
        },
        ReinstallSnapshotState::Stored { snapshot_ref, .. } => {
            let bytes = match snapshots.read_snapshot(snapshot_ref.as_str()) {
                Ok(Some(b)) => b,
                _ => {
                    return Err(());
                },
            };
            match game.write_game_file(target.target_path.as_str(), bytes.as_slice()) {
                Ok(()) => Ok(()),
                Err(_) => Err(()),
            }
        },
        ReinstallSnapshotState::CleanupPending { .. } => Ok(()),
        ReinstallSnapshotState::Cleaned { .. } => Ok(()),
    }
}

/// Makes one target what the reinstall wants: a retained target is left alone, a replaced or
/// new target gets its candidate file, a stale target gets its original backup back or is
/// removed. A replaced or new target without candidate file fails before touching the game.
pub fn apply_target<G: InstallGameWriter>(game: &G, target: &PreparedReinstallTarget) -> (r: Result<(), ()>)
    ensures
        target.class == ReinstallTargetClass::Retained ==> r is Ok,
        (target.class == ReinstallTargetClass::Replaced || target.class == ReinstallTargetClass::Added)
            && target.candidate_files@.len() == 0 ==> r is Err,
{
    match target.class {
        ReinstallTargetClass::Retained => Ok(()),
        ReinstallTargetClass::Stale => {
            let written = match &target.original_backup_file {
                Some(original) => game.write_game_file(target.target_path.as_str(), original.bytes.as_slice()),
                None => game.remove_game_file(target.target_path.as_str()),
            };
            match written {
                Ok(()) => Ok(()),
                Err(_) => Err(()),
            }
        },
        _ => match candidate_file(target) {
            Some(k) => match game.write_game_file(
                target.target_path.as_str(),
                target.candidate_files[k].bytes.as_slice(),
            ) {
                Ok(()) => Ok(()),
                Err(_) => Err(()),
            },
            None => Err(()),
        },
    }
}

} // verus!
