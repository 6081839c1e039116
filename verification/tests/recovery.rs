use hmm_app::attachments::{FileLayer, InstallAction, InstallManifest};
use hmm_app::metadata::PortFailure;
use hmm_app::preflight::{PreparedFile, PreparedReinstallTarget, PreparedSourceFile};
use hmm_app::recovery::{
    apply_target, candidate_file, cleanup_target_snapshot, plan_recovery_targets,
    promote_manifest_snapshots, restore_target, snapshot_ref, CleanupProgressError,
    InstallGameWriter, ReinstallRecoveryTarget, ReinstallRecoveryTransaction,
    ReinstallRecoveryTransactionRepository, ReinstallRecoveryTransactionStatus,
    ReinstallSnapshotCleanupOwner, ReinstallSnapshotPurpose, ReinstallSnapshotState,
    ReinstallSnapshotStore,
};
use hmm_app::reinstall::{summarize, ReinstallCommitError, ReinstallCommitPhase, ReinstallTargetClass};
use std::cell::{Cell, RefCell};

fn source(file: &str, priority: i32, bytes: &[u8]) -> PreparedSourceFile {
    PreparedSourceFile {
        provider: InstallAction {
            mod_id: "mod".to_owned(),
            package_file_id: file.to_owned(),
            target_path: "data/file".to_owned(),
            layer: FileLayer {
                name: "base".to_owned(),
                priority,
            },
        },
        summary: summarize(bytes),
        bytes: bytes.to_vec(),
    }
}

fn prepared_target(path: &str, class: ReinstallTargetClass, pre: Option<&[u8]>, sources: Vec<PreparedSourceFile>) -> PreparedReinstallTarget {
    PreparedReinstallTarget {
        target_path: path.to_owned(),
        class,
        pre_file: pre.map(|b| PreparedFile {
            summary: summarize(b),
            bytes: b.to_vec(),
        }),
        candidate_files: sources,
        original_backup_ref: None,
        original_backup_file: None,
    }
}

fn recovery_target(path: &str, snapshot: ReinstallSnapshotState) -> ReinstallRecoveryTarget {
    ReinstallRecoveryTarget {
        target_path: path.to_owned(),
        class: ReinstallTargetClass::Replaced,
        pre_state: None,
        candidate_state: None,
        snapshot,
        original_backup_ref: None,
    }
}

fn stored(reference: &str, owner: ReinstallSnapshotCleanupOwner) -> ReinstallSnapshotState {
    ReinstallSnapshotState::Stored {
        snapshot_ref: reference.to_owned(),
        purpose: ReinstallSnapshotPurpose::TransactionRollback,
        cleanup_owner: owner,
    }
}

fn transaction(targets: Vec<ReinstallRecoveryTarget>) -> ReinstallRecoveryTransaction {
    ReinstallRecoveryTransaction {
        profile_id: "profile".to_owned(),
        mod_id: "mod".to_owned(),
        old_revision_id: "rev-1".to_owned(),
        candidate_revision_id: "rev-2".to_owned(),
        plan_token: "token".to_owned(),
        plan_hash: "hash".to_owned(),
        status: ReinstallRecoveryTransactionStatus::Committing,
        pre_reinstall_manifest: InstallManifest {
            profile_id: "profile".to_owned(),
            entries: vec![],
        },
        targets,
    }
}

struct Records {
    saves: RefCell<Vec<ReinstallRecoveryTransaction>>,
    fail_on: Cell<Option<usize>>,
}

impl ReinstallRecoveryTransactionRepository for Records {
    fn save_transaction(&self, transaction: &ReinstallRecoveryTransaction) -> Result<(), PortFailure> {
        let n = self.saves.borrow().len();
        if self.fail_on.get() == Some(n) {
            self.saves.borrow_mut().push(transaction.clone());
            return Err(PortFailure);
        }
        self.saves.borrow_mut().push(transaction.clone());
        Ok(())
    }
}

fn records(fail_on: Option<usize>) -> Records {
    Records {
        saves: RefCell::new(vec![]),
        fail_on: Cell::new(fail_on),
    }
}

struct Snapshots {
    removed: RefCell<Vec<String>>,
    stored: RefCell<Vec<String>>,
    fail_remove: bool,
    fail_store_at: Option<usize>,
    content: Option<Vec<u8>>,
}

impl ReinstallSnapshotStore for Snapshots {
    fn store_snapshot(&self, target_path: &str, _bytes: &[u8]) -> Result<String, PortFailure> {
        if self.fail_store_at == Some(self.stored.borrow().len()) {
            return Err(PortFailure);
        }
        let reference = format!("snap:{target_path}");
        self.stored.borrow_mut().push(reference.clone());
        Ok(reference)
    }

    fn read_snapshot(&self, _snapshot_ref: &str) -> Result<Option<Vec<u8>>, PortFailure> {
        Ok(self.content.clone())
    }

    fn remove_snapshot(&self, snapshot_ref: &str) -> Result<(), PortFailure> {
        if self.fail_remove {
            return Err(PortFailure);
        }
        self.removed.borrow_mut().push(snapshot_ref.to_owned());
        Ok(())
    }
}

fn snapshots(fail_remove: bool) -> Snapshots {
    Snapshots {
        removed: RefCell::new(vec![]),
        stored: RefCell::new(vec![]),
        fail_remove,
        fail_store_at: None,
        content: Some(b"old".to_vec()),
    }
}

struct Game {
    writes: RefCell<Vec<(String, Vec<u8>)>>,
    removals: RefCell<Vec<String>>,
}

impl InstallGameWriter for Game {
    fn write_game_file(&self, target_path: &str, bytes: &[u8]) -> Result<(), PortFailure> {
        self.writes.borrow_mut().push((target_path.to_owned(), bytes.to_vec()));
        Ok(())
    }

    fn remove_game_file(&self, target_path: &str) -> Result<(), PortFailure> {
        self.removals.borrow_mut().push(target_path.to_owned());
        Ok(())
    }
}

fn game() -> Game {
    Game {
        writes: RefCell::new(vec![]),
        removals: RefCell::new(vec![]),
    }
}

#[test]
fn the_candidate_file_is_the_last_of_highest_priority() {
    let target = prepared_target(
        "data/file",
        ReinstallTargetClass::Replaced,
        None,
        vec![source("a", 1, b"a"), source("b", 3, b"b"), source("c", 3, b"c"), source("d", 2, b"d")],
    );
    assert_eq!(candidate_file(&target), Some(2));
    let empty = prepared_target("data/file", ReinstallTargetClass::Replaced, None, vec![]);
    assert_eq!(candidate_file(&empty), None);
}

#[test]
fn committing_promotes_only_snapshots_meant_for_the_manifest() {
    let mut record = transaction(vec![
        recovery_target("a", stored("s-a", ReinstallSnapshotCleanupOwner::PromoteOnCommit)),
        recovery_target("b", stored("s-b", ReinstallSnapshotCleanupOwner::Transaction)),
        recovery_target("c", ReinstallSnapshotState::PreStateAbsent),
    ]);
    promote_manifest_snapshots(&mut record);
    assert_eq!(record.targets[0].snapshot, stored("s-a", ReinstallSnapshotCleanupOwner::Manifest));
    assert_eq!(record.targets[1].snapshot, stored("s-b", ReinstallSnapshotCleanupOwner::Transaction));
    assert_eq!(record.targets[2].snapshot, ReinstallSnapshotState::PreStateAbsent);
    assert_eq!(snapshot_ref(&record.targets[0]), Some("s-a"));
    assert_eq!(snapshot_ref(&record.targets[2]), None);
}

#[test]
fn cleanup_marks_removes_and_records_a_stored_snapshot() {
    let mut record = transaction(vec![recovery_target("a", stored("s-a", ReinstallSnapshotCleanupOwner::Transaction))]);
    let repo = records(None);
    let store = snapshots(false);
    assert_eq!(cleanup_target_snapshot(&repo, &store, &mut record, "a"), Ok(()));
    assert_eq!(
        record.targets[0].snapshot,
        ReinstallSnapshotState::Cleaned {
            purpose: ReinstallSnapshotPurpose::TransactionRollback
        }
    );
    let saves = repo.saves.borrow();
    assert_eq!(saves.len(), 2);
    assert_eq!(
        saves[0].targets[0].snapshot,
        ReinstallSnapshotState::CleanupPending {
            snapshot_ref: "s-a".to_owned(),
            purpose: ReinstallSnapshotPurpose::TransactionRollback
        }
    );
    assert_eq!(*store.removed.borrow(), vec!["s-a".to_owned()]);
}

#[test]
fn cleanup_keeps_the_record_in_step_with_what_was_saved() {
    let original = transaction(vec![recovery_target("a", stored("s-a", ReinstallSnapshotCleanupOwner::Transaction))]);

    let mut first_save_fails = original.clone();
    assert_eq!(
        cleanup_target_snapshot(&records(Some(0)), &snapshots(false), &mut first_save_fails, "a"),
        Err(CleanupProgressError::Recovery)
    );
    assert_eq!(first_save_fails, original);

    let mut removal_fails = original.clone();
    assert_eq!(
        cleanup_target_snapshot(&records(None), &snapshots(true), &mut removal_fails, "a"),
        Err(CleanupProgressError::Resource)
    );
    let pending = ReinstallSnapshotState::CleanupPending {
        snapshot_ref: "s-a".to_owned(),
        purpose: ReinstallSnapshotPurpose::TransactionRollback,
    };
    assert_eq!(removal_fails.targets[0].snapshot, pending);

    let mut second_save_fails = original.clone();
    assert_eq!(
        cleanup_target_snapshot(&records(Some(1)), &snapshots(false), &mut second_save_fails, "a"),
        Err(CleanupProgressError::Recovery)
    );
    assert_eq!(second_save_fails.targets[0].snapshot, pending);

    let mut missing = original.clone();
    assert_eq!(
        cleanup_target_snapshot(&records(None), &snapshots(false), &mut missing, "b"),
        Err(CleanupProgressError::Recovery)
    );

    let manifest_owned = transaction(vec![recovery_target("a", stored("s-a", ReinstallSnapshotCleanupOwner::Manifest))]);
    let mut untouched = manifest_owned.clone();
    let repo = records(None);
    assert_eq!(cleanup_target_snapshot(&repo, &snapshots(false), &mut untouched, "a"), Ok(()));
    assert_eq!(untouched, manifest_owned);
    assert!(repo.saves.borrow().is_empty());
}

#[test]
fn snapshots_are_planned_by_target_class() {
    let targets = vec![
        prepared_target("keep", ReinstallTargetClass::Retained, Some(b"k"), vec![]),
        prepared_target("new-empty", ReinstallTargetClass::Added, None, vec![source("n", 0, b"n")]),
        prepared_target("new-over", ReinstallTargetClass::Added, Some(b"player"), vec![source("o", 0, b"o")]),
        prepared_target("replace", ReinstallTargetClass::Replaced, Some(b"old"), vec![source("r", 0, b"r")]),
    ];
    let store = snapshots(false);
    let planned = plan_recovery_targets(&store, &targets).unwrap();
    assert_eq!(planned.len(), 4);
    assert_eq!(planned[0].snapshot, ReinstallSnapshotState::NotRequired);
    assert_eq!(planned[1].snapshot, ReinstallSnapshotState::PreStateAbsent);
    assert_eq!(planned[1].candidate_state, Some(summarize(b"n")));
    assert_eq!(
        planned[2].snapshot,
        ReinstallSnapshotState::Stored {
            snapshot_ref: "snap:new-over".to_owned(),
            purpose: ReinstallSnapshotPurpose::OriginalBackupCandidate,
            cleanup_owner: ReinstallSnapshotCleanupOwner::PromoteOnCommit
        }
    );
    assert_eq!(planned[3].snapshot, stored("snap:replace", ReinstallSnapshotCleanupOwner::Transaction));
    assert_eq!(planned[3].pre_state, Some(summarize(b"old")));

    let failing = Snapshots {
        fail_store_at: Some(1),
        ..snapshots(false)
    };
    assert_eq!(
        plan_recovery_targets(&failing, &targets).err(),
        Some(ReinstallCommitError::Failed {
            phase: ReinstallCommitPhase::Snapshot
        })
    );
    assert_eq!(*failing.removed.borrow(), vec!["snap:new-over".to_owned()]);
}

#[test]
fn targets_are_applied_and_restored_by_class_and_snapshot() {
    let g = game();
    let replaced = prepared_target("data/file", ReinstallTargetClass::Replaced, Some(b"old"), vec![source("a", 0, b"new")]);
    assert_eq!(apply_target(&g, &replaced), Ok(()));
    assert_eq!(g.writes.borrow()[0], ("data/file".to_owned(), b"new".to_vec()));
    let stale = prepared_target("data/stale", ReinstallTargetClass::Stale, Some(b"x"), vec![]);
    assert_eq!(apply_target(&g, &stale), Ok(()));
    assert_eq!(*g.removals.borrow(), vec!["data/stale".to_owned()]);
    let no_candidate = prepared_target("data/none", ReinstallTargetClass::Added, None, vec![]);
    assert_eq!(apply_target(&g, &no_candidate), Err(()));

    let restored = game();
    let store = snapshots(false);
    assert_eq!(
        restore_target(&restored, &store, &recovery_target("data/file", stored("s", ReinstallSnapshotCleanupOwner::Transaction))),
        Ok(())
    );
    assert_eq!(restored.writes.borrow()[0], ("data/file".to_owned(), b"old".to_vec()));
    assert_eq!(
        restore_target(&restored, &store, &recovery_target("data/new", ReinstallSnapshotState::PreStateAbsent)),
        Ok(())
    );
    assert_eq!(*restored.removals.borrow(), vec!["data/new".to_owned()]);
    let unreadable = Snapshots {
        content: None,
        ..snapshots(false)
    };
    assert_eq!(
        restore_target(&restored, &unreadable, &recovery_target("data/file", stored("s", ReinstallSnapshotCleanupOwner::Transaction))),
        Err(())
    );
}
