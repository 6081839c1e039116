use hmm_app::attachments::{
    CandidateSourceReader, FileLayer, InstallAction, InstallManifest, InstallManifestEntry,
};
use hmm_app::metadata::PortFailure;
use hmm_app::preflight::{
    build_prepared_targets, finish_preparation, preflight_installed, ReinstallClassificationRefusal, preload_candidate, InstallBackupStore,
    InstallGameFileSystem, PreparedFile, PreparedReinstall, PreparedSourceFile,
    ReinstallPreparation, ReinstallTargetClassification,
};
use hmm_app::ids::ModRevisionId;
use hmm_app::reinstall::{
    summarize, GamePrerequisiteDecision, ReinstallBlockingReason, ReinstallPlanPreview,
    ReinstallPreviewStatus, ReinstallTargetClass, ReinstallTargetCounts,
};
use std::collections::HashMap;

struct Game(HashMap<String, Vec<u8>>);

impl InstallGameFileSystem for Game {
    fn read_game_file(&self, target_path: &str) -> Result<Option<Vec<u8>>, PortFailure> {
        if target_path == "unreadable" {
            return Err(PortFailure);
        }
        Ok(self.0.get(target_path).cloned())
    }
}

struct Backups(HashMap<String, Vec<u8>>);

impl InstallBackupStore for Backups {
    fn read_backup(&self, backup_ref: &str) -> Result<Option<Vec<u8>>, PortFailure> {
        Ok(self.0.get(backup_ref).cloned())
    }
}

fn entry(mod_id: &str, target: &str, file: &str, priority: i32, bytes: &[u8]) -> InstallManifestEntry {
    InstallManifestEntry {
        target_path: target.to_owned(),
        mod_id: mod_id.to_owned(),
        revision_id: Some("rev-1".to_owned()),
        package_file_id: file.to_owned(),
        layer: FileLayer {
            name: "base".to_owned(),
            priority,
        },
        backup_ref: None,
        installed_file: Some(summarize(bytes)),
        adopted: false,
    }
}

fn manifest(entries: Vec<InstallManifestEntry>) -> InstallManifest {
    InstallManifest {
        profile_id: "profile".to_owned(),
        entries,
    }
}

#[test]
fn installed_targets_are_checked_in_target_order_with_the_winning_layer() {
    let mut low = entry("mod", "b/file", "low", 0, b"low");
    low.backup_ref = Some("backup-1".to_owned());
    let high = entry("mod", "b/file", "high", 5, b"high");
    let other = entry("mod", "a/file", "a", 0, b"a");
    let foreign = entry("other", "c/file", "c", 0, b"c");
    let game = Game(HashMap::from([
        ("b/file".to_owned(), b"high".to_vec()),
        ("a/file".to_owned(), b"a".to_vec()),
        ("new/file".to_owned(), b"new".to_vec()),
    ]));
    let backups = Backups(HashMap::from([("backup-1".to_owned(), b"orig".to_vec())]));
    let result = preflight_installed(
        &game,
        &backups,
        "mod",
        "rev-1",
        &manifest(vec![low, high, other, foreign]),
        &vec!["b/file".to_owned(), "new/file".to_owned(), "gone/file".to_owned()],
    )
    .unwrap();
    assert_eq!(result.states.len(), 2);
    assert_eq!(result.states[0].target_path, "a/file");
    assert_eq!(result.states[1].target_path, "b/file");
    assert_eq!(result.states[1].final_file, summarize(b"high"));
    assert_eq!(result.states[1].providers.len(), 2);
    assert_eq!(result.states[1].revision_id, "rev-1");
    let targets = result
        .target_files
        .iter()
        .map(|(t, f)| (t.as_str(), f.is_some()))
        .collect::<Vec<_>>();
    assert_eq!(
        targets,
        vec![("a/file", true), ("b/file", true), ("new/file", true), ("gone/file", false)]
    );
    assert_eq!(result.backup_files.len(), 1);
    assert_eq!(result.backup_files[0].0, "backup-1");
    assert_eq!(result.backup_files[0].1.summary, summarize(b"orig"));
}

#[test]
fn changed_missing_or_unrecorded_targets_block_the_reinstall() {
    let run = |entries: Vec<InstallManifestEntry>, files: Vec<(&str, &[u8])>| {
        let game = Game(
            files
                .into_iter()
                .map(|(k, v)| (k.to_owned(), v.to_vec()))
                .collect(),
        );
        preflight_installed(
            &game,
            &Backups(HashMap::new()),
            "mod",
            "rev-1",
            &manifest(entries),
            &vec![],
        )
        .err()
    };
    assert_eq!(
        run(vec![entry("mod", "t", "f", 0, b"old")], vec![("t", b"new")]),
        Some(ReinstallBlockingReason::TargetChanged)
    );
    assert_eq!(
        run(vec![entry("mod", "t", "f", 0, b"old")], vec![]),
        Some(ReinstallBlockingReason::TargetMissing)
    );
    assert_eq!(
        run(vec![entry("mod", "unreadable", "f", 0, b"old")], vec![]),
        Some(ReinstallBlockingReason::TargetReadFailed)
    );
    let mut unrecorded = entry("mod", "t", "f", 0, b"old");
    unrecorded.installed_file = None;
    assert_eq!(
        run(vec![unrecorded], vec![("t", b"old")]),
        Some(ReinstallBlockingReason::ManifestStateUnsafe)
    );
    let mut first = entry("mod", "t", "f", 0, b"old");
    first.backup_ref = Some("one".to_owned());
    let mut second = entry("mod", "t", "g", 0, b"old");
    second.backup_ref = Some("two".to_owned());
    assert_eq!(
        run(vec![first, second], vec![("t", b"old")]),
        Some(ReinstallBlockingReason::ManifestStateUnsafe)
    );
    let mut blank = entry("mod", "t", "f", 0, b"old");
    blank.backup_ref = Some("  ".to_owned());
    assert_eq!(
        run(vec![blank], vec![("t", b"old")]),
        Some(ReinstallBlockingReason::ManifestStateUnsafe)
    );
    let mut missing_backup = entry("mod", "t", "f", 0, b"old");
    missing_backup.backup_ref = Some("lost".to_owned());
    assert_eq!(
        run(vec![missing_backup], vec![("t", b"old")]),
        Some(ReinstallBlockingReason::BackupMissing)
    );
}

struct Source(HashMap<String, Vec<u8>>);

impl CandidateSourceReader for Source {
    fn read_candidate_source_file(
        &self,
        _candidate_revision_id: &str,
        package_file_id: &str,
    ) -> Result<Vec<u8>, PortFailure> {
        self.0.get(package_file_id).cloned().ok_or(PortFailure)
    }
}

fn action(file: &str, target: &str, priority: i32) -> InstallAction {
    InstallAction {
        mod_id: "mod".to_owned(),
        package_file_id: file.to_owned(),
        target_path: target.to_owned(),
        layer: FileLayer {
            name: "base".to_owned(),
            priority,
        },
    }
}

#[test]
fn candidate_files_are_read_and_grouped_by_target() {
    let source = Source(HashMap::from([
        ("one".to_owned(), b"one".to_vec()),
        ("two".to_owned(), b"two".to_vec()),
        ("three".to_owned(), b"three".to_vec()),
    ]));
    let actions = vec![
        action("one", "z/target", 1),
        action("two", "a/target", 0),
        action("three", "z/target", 1),
    ];
    let (states, facts) = preload_candidate(&source, "rev-2", &actions).unwrap();
    assert_eq!(facts.len(), 3);
    assert_eq!(facts[1].summary, summarize(b"two"));
    assert_eq!(states.len(), 2);
    assert_eq!(states[0].target_path, "a/target");
    assert_eq!(states[1].target_path, "z/target");
    assert_eq!(states[1].providers.len(), 2);
    assert_eq!(states[1].final_file, summarize(b"three"));
    assert_eq!(states[1].revision_id, "rev-2");

    let missing = Source(HashMap::new());
    assert_eq!(
        preload_candidate(&missing, "rev-2", &actions).err().map(|_| ()),
        Some(())
    );
    assert!(matches!(
        preload_candidate(&missing, "rev-2", &actions),
        Err(ReinstallBlockingReason::SourceUnavailable)
    ));
}

fn prepared(bytes: &[u8]) -> PreparedFile {
    PreparedFile {
        summary: summarize(bytes),
        bytes: bytes.to_vec(),
    }
}

fn source(file: &str, target: &str, bytes: &[u8]) -> PreparedSourceFile {
    PreparedSourceFile {
        provider: action(file, target, 0),
        summary: summarize(bytes),
        bytes: bytes.to_vec(),
    }
}

fn classified(target: &str, class: ReinstallTargetClass) -> ReinstallTargetClassification {
    ReinstallTargetClassification {
        target_path: target.to_owned(),
        class,
    }
}

#[test]
fn prepared_targets_come_in_target_order_with_their_facts() {
    let mut first = entry("mod", "b/file", "low", 0, b"low");
    first.backup_ref = Some("backup-b".to_owned());
    let second = entry("other", "b/file", "x", 1, b"x");
    let targets = build_prepared_targets(
        &manifest(vec![second, first]),
        &vec![
            classified("b/file", ReinstallTargetClass::Replaced),
            classified("a/file", ReinstallTargetClass::Added),
            classified("b/file", ReinstallTargetClass::Retained),
        ],
        &vec![
            source("one", "b/file", b"one"),
            source("two", "a/file", b"two"),
            source("three", "b/file", b"three"),
        ],
        &vec![
            ("b/file".to_owned(), Some(prepared(b"now"))),
            ("a/file".to_owned(), None),
        ],
        &vec![("backup-b".to_owned(), prepared(b"orig"))],
    );
    assert_eq!(targets.len(), 3);
    assert_eq!(targets[0].target_path, "a/file");
    assert_eq!(targets[0].class, ReinstallTargetClass::Added);
    assert!(targets[0].pre_file.is_none());
    assert_eq!(targets[0].candidate_files.len(), 1);
    assert_eq!(targets[0].original_backup_ref, None);
    assert_eq!(targets[1].target_path, "b/file");
    assert_eq!(targets[1].class, ReinstallTargetClass::Replaced);
    assert_eq!(targets[1].pre_file.as_ref().unwrap().bytes, b"now".to_vec());
    let files: Vec<&str> = targets[1]
        .candidate_files
        .iter()
        .map(|f| f.provider.package_file_id.as_str())
        .collect();
    assert_eq!(files, vec!["one", "three"]);
    assert_eq!(targets[1].original_backup_ref.as_deref(), Some("backup-b"));
    assert_eq!(targets[1].original_backup_file.as_ref().unwrap().summary, summarize(b"orig"));
    assert_eq!(targets[2].class, ReinstallTargetClass::Retained);
    assert!(targets[2].pre_file.is_none());
    assert!(targets[2].candidate_files.is_empty());
    assert_eq!(targets[2].original_backup_ref.as_deref(), Some("backup-b"));
}

fn decision() -> GamePrerequisiteDecision {
    GamePrerequisiteDecision {
        status: "ready".to_owned(),
        rules_version: None,
        codes: vec![],
    }
}

#[test]
fn a_ready_preparation_previews_its_revisions_counts_and_token() {
    let counts = ReinstallTargetCounts {
        retained: 1,
        replaced: 2,
        added: 0,
        stale: 1,
    };
    let prepared = PreparedReinstall {
        installed_revision_id: ModRevisionId::new("rev-1"),
        candidate_revision_id: ModRevisionId::new("rev-2"),
        old_manifest: manifest(vec![]),
        source_files: vec![],
        backup_files: vec![],
        targets: vec![],
        counts,
        prerequisite_decision: decision(),
        plan_token: "token".to_owned(),
        plan_hash: "hash".to_owned(),
    };
    assert_eq!(prepared.plan_token(), "token");
    let preview = ReinstallPreparation::Ready(Box::new(prepared)).into_preview();
    assert_eq!(preview.status, ReinstallPreviewStatus::Ready);
    assert_eq!(preview.installed_revision.unwrap().revision_id.as_str(), "rev-1");
    assert_eq!(preview.candidate_revision.unwrap().revision_id.as_str(), "rev-2");
    assert_eq!(preview.counts, counts);
    assert!(preview.blocking_reasons.is_empty());
    assert_eq!(preview.plan_token.as_deref(), Some("token"));

    let blocked = ReinstallPlanPreview::blocked_preview(
        None,
        None,
        ReinstallBlockingReason::CandidateNotReady,
        decision(),
    );
    assert_eq!(
        ReinstallPreparation::Blocked(blocked.clone()).into_preview(),
        blocked
    );
    let preparation = ReinstallPlanPreview::blocked(
        None,
        None,
        ReinstallBlockingReason::CandidateNotReady,
        decision(),
    );
    assert_eq!(preparation.into_preview(), blocked);
}

#[test]
fn an_unsummarized_first_target_is_unsafe_before_anything_is_read() {
    let mut first = entry("mod", "a/file", "a", 0, b"a");
    first.installed_file = None;
    let second = entry("mod", "unreadable", "u", 0, b"u");
    let result = preflight_installed(
        &Game(HashMap::new()),
        &Backups(HashMap::new()),
        "mod",
        "rev-1",
        &manifest(vec![second, first]),
        &vec![],
    );
    assert_eq!(result.err(), Some(ReinstallBlockingReason::ManifestStateUnsafe));
}

#[test]
fn finishing_a_preparation_counts_classes_and_keeps_the_token() {
    let ready = finish_preparation(
        ModRevisionId::new("rev-1"),
        ModRevisionId::new("rev-2"),
        manifest(vec![]),
        Ok(vec![
            classified("b/file", ReinstallTargetClass::Replaced),
            classified("a/file", ReinstallTargetClass::Added),
        ]),
        vec![source("one", "b/file", b"one"), source("two", "a/file", b"two")],
        vec![("b/file".to_owned(), Some(prepared(b"now"))), ("a/file".to_owned(), None)],
        vec![],
        decision(),
        "token".to_owned(),
    );
    match ready {
        ReinstallPreparation::Ready(p) => {
            assert_eq!(p.counts, ReinstallTargetCounts { retained: 0, replaced: 1, added: 1, stale: 0 });
            assert_eq!(p.plan_token, "token");
            assert_eq!(p.plan_hash, "token");
            assert_eq!(p.targets[0].target_path, "a/file");
            assert_eq!(p.targets[1].target_path, "b/file");
        },
        _ => panic!("expected a ready preparation"),
    }
    let blocked = finish_preparation(
        ModRevisionId::new("rev-1"),
        ModRevisionId::new("rev-2"),
        manifest(vec![]),
        Err(ReinstallClassificationRefusal::CrossModTargetOwnership),
        vec![],
        vec![],
        vec![],
        decision(),
        "token".to_owned(),
    );
    let preview = blocked.into_preview();
    assert_eq!(preview.blocking_reasons[0].reason, ReinstallBlockingReason::CrossModTargetConflict);
}
