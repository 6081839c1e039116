use hmm_app::attachments::{
    eq_ignore_ascii_case, retain_installed_attachments, same_windows_key,
    verify_retarget_inventory, CandidateSourceReader, FileLayer, InstallAction, InstallManifest,
    InstallManifestEntry, InstallPlan, RetargetExclusionReason, RetargetPolicyExcludedFile,
};
use hmm_app::metadata::PortFailure;
use hmm_app::reinstall::{summarize, ReinstallBlockingReason};

fn entry(mod_id: &str, name: &str) -> InstallManifestEntry {
    InstallManifestEntry {
        target_path: format!("content/{name}"),
        mod_id: mod_id.to_owned(),
        revision_id: Some("revision".to_owned()),
        package_file_id: name.to_owned(),
        layer: FileLayer {
            name: "base".to_owned(),
            priority: 0,
        },
        backup_ref: None,
        installed_file: None,
        adopted: false,
    }
}

fn action_for(entry: &InstallManifestEntry) -> InstallAction {
    InstallAction {
        mod_id: entry.mod_id.clone(),
        package_file_id: entry.package_file_id.clone(),
        target_path: entry.target_path.clone(),
        layer: entry.layer.clone(),
    }
}

fn excluded(entry: &InstallManifestEntry) -> RetargetPolicyExcludedFile {
    RetargetPolicyExcludedFile {
        package_file_id: entry.package_file_id.clone(),
        original_path: entry.target_path.clone(),
        reason: RetargetExclusionReason::ExecutableOrScript,
    }
}

#[test]
fn source_inventory_cannot_discard_a_missing_attachment_or_model() {
    let model = entry("mod", "model.bin");
    let attachment = entry("mod", "helper.dll");
    let manifest = InstallManifest {
        profile_id: "profile".to_owned(),
        entries: vec![model.clone(), attachment.clone()],
    };
    let plan = InstallPlan {
        actions: vec![action_for(&model)],
    };
    assert_eq!(
        verify_retarget_inventory("mod", &manifest, &plan, &vec![]),
        Err(ReinstallBlockingReason::SourceUnavailable)
    );
    let excluded_attachment = excluded(&attachment);
    verify_retarget_inventory("mod", &manifest, &plan, &vec![excluded_attachment.clone()]).unwrap();
    assert_eq!(
        verify_retarget_inventory(
            "mod",
            &manifest,
            &InstallPlan { actions: vec![] },
            &vec![excluded_attachment]
        ),
        Err(ReinstallBlockingReason::SourceUnavailable)
    );
}

struct Source(Vec<u8>);

impl CandidateSourceReader for Source {
    fn read_candidate_source_file(
        &self,
        _candidate_revision_id: &str,
        _package_file_id: &str,
    ) -> Result<Vec<u8>, PortFailure> {
        Ok(self.0.clone())
    }
}

struct MissingSource;

impl CandidateSourceReader for MissingSource {
    fn read_candidate_source_file(
        &self,
        _candidate_revision_id: &str,
        _package_file_id: &str,
    ) -> Result<Vec<u8>, PortFailure> {
        Err(PortFailure)
    }
}

fn installed_attachment(bytes: &[u8]) -> InstallManifestEntry {
    let mut attachment = entry("mod", "helper.dll");
    attachment.installed_file = Some(summarize(bytes));
    attachment
}

#[test]
fn an_owned_attachment_with_matching_bytes_is_kept_in_the_plan() {
    let attachment = installed_attachment(b"helper");
    let manifest = InstallManifest {
        profile_id: "profile".to_owned(),
        entries: vec![attachment.clone()],
    };
    let mut plan = InstallPlan { actions: vec![] };
    let retention = retain_installed_attachments(
        &Source(b"helper".to_vec()),
        "mod",
        "revision",
        &manifest,
        &mut plan,
        &vec![excluded(&attachment)],
        false,
    )
    .unwrap();
    assert_eq!(retention.counts.retained, 1);
    assert_eq!(retention.counts.excluded, 0);
    assert_eq!(retention.retained_targets, vec!["content/helper.dll".to_owned()]);
    assert_eq!(plan.actions, vec![action_for(&attachment)]);
}

#[test]
fn an_excluded_file_without_an_installed_entry_stays_excluded() {
    let attachment = installed_attachment(b"helper");
    let manifest = InstallManifest {
        profile_id: "profile".to_owned(),
        entries: vec![],
    };
    let mut plan = InstallPlan { actions: vec![] };
    let retention = retain_installed_attachments(
        &MissingSource,
        "mod",
        "revision",
        &manifest,
        &mut plan,
        &vec![excluded(&attachment)],
        false,
    )
    .unwrap();
    assert_eq!(retention.counts.excluded, 1);
    assert_eq!(retention.counts.retained, 0);
    assert!(plan.actions.is_empty());
}

#[test]
fn changed_bytes_or_unreadable_sources_block_the_reinstall() {
    let attachment = installed_attachment(b"helper");
    let manifest = InstallManifest {
        profile_id: "profile".to_owned(),
        entries: vec![attachment.clone()],
    };
    let mut plan = InstallPlan { actions: vec![] };
    assert_eq!(
        retain_installed_attachments(
            &Source(b"changed".to_vec()),
            "mod",
            "revision",
            &manifest,
            &mut plan,
            &vec![excluded(&attachment)],
            false,
        )
        .err(),
        Some(ReinstallBlockingReason::InstalledAttachmentUnverified)
    );
    assert_eq!(
        retain_installed_attachments(
            &MissingSource,
            "mod",
            "revision",
            &manifest,
            &mut plan,
            &vec![excluded(&attachment)],
            false,
        )
        .err(),
        Some(ReinstallBlockingReason::SourceUnavailable)
    );
}

#[test]
fn duplicate_exclusions_and_conflicting_targets_are_refused() {
    let attachment = installed_attachment(b"helper");
    let manifest = InstallManifest {
        profile_id: "profile".to_owned(),
        entries: vec![attachment.clone()],
    };
    let file = excluded(&attachment);
    let mut plan = InstallPlan { actions: vec![] };
    assert_eq!(
        retain_installed_attachments(
            &Source(b"helper".to_vec()),
            "mod",
            "revision",
            &manifest,
            &mut plan,
            &vec![file.clone(), file.clone()],
            false,
        )
        .err(),
        Some(ReinstallBlockingReason::CandidateNotReady)
    );

    let mut other = entry("other", "helper.dll");
    other.target_path = "CONTENT\\helper.DLL".to_owned();
    let shared = InstallManifest {
        profile_id: "profile".to_owned(),
        entries: vec![attachment.clone(), other],
    };
    let mut plan = InstallPlan { actions: vec![] };
    assert_eq!(
        retain_installed_attachments(
            &Source(b"helper".to_vec()),
            "mod",
            "revision",
            &shared,
            &mut plan,
            &vec![file.clone()],
            false,
        )
        .err(),
        Some(ReinstallBlockingReason::CrossModTargetConflict)
    );

    let mut planned = action_for(&entry("mod", "other.bin"));
    planned.target_path = "content/HELPER.dll".to_owned();
    let mut plan = InstallPlan {
        actions: vec![planned],
    };
    assert_eq!(
        retain_installed_attachments(
            &Source(b"helper".to_vec()),
            "mod",
            "revision",
            &manifest,
            &mut plan,
            &vec![file],
            false,
        )
        .err(),
        Some(ReinstallBlockingReason::PlanConflict)
    );
}

#[test]
fn an_entry_of_another_revision_needs_a_verified_original_install() {
    let mut attachment = installed_attachment(b"helper");
    attachment.revision_id = None;
    let manifest = InstallManifest {
        profile_id: "profile".to_owned(),
        entries: vec![attachment.clone()],
    };
    let mut plan = InstallPlan { actions: vec![] };
    assert_eq!(
        retain_installed_attachments(
            &Source(b"helper".to_vec()),
            "mod",
            "revision",
            &manifest,
            &mut plan,
            &vec![excluded(&attachment)],
            false,
        )
        .err(),
        Some(ReinstallBlockingReason::InstalledAttachmentUnverified)
    );
    let retention = retain_installed_attachments(
        &Source(b"helper".to_vec()),
        "mod",
        "revision",
        &manifest,
        &mut plan,
        &vec![excluded(&attachment)],
        true,
    )
    .unwrap();
    assert_eq!(retention.counts.retained, 1);
}

#[test]
fn windows_keys_ignore_case_and_separators() {
    assert!(same_windows_key("Content\\Helper.DLL", "content/helper.dll"));
    assert!(!same_windows_key("content/a", "content/b"));
    assert!(eq_ignore_ascii_case("Content/Helper.DLL", "content/helper.dll"));
    assert!(!eq_ignore_ascii_case("content\\helper.dll", "content/helper.dll"));
}
