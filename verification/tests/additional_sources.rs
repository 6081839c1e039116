use hmm_app::additional_sources::{check_additional_sources, AdditionalSourceRead};
use hmm_app::attachments::{FileLayer, InstallAction, InstallManifest, InstallManifestEntry, InstallPlan};
use hmm_app::metadata::PortFailure;
use hmm_app::reinstall::{summarize, ReinstallBlockingReason};

fn layer() -> FileLayer {
    FileLayer { name: "base".to_owned(), priority: 0 }
}

fn plan() -> InstallPlan {
    InstallPlan {
        actions: vec![InstallAction {
            mod_id: "mod".to_owned(),
            package_file_id: "extra".to_owned(),
            target_path: "Data/Extra.esp".to_owned(),
            layer: layer(),
        }],
    }
}

fn manifest(adopted: bool, content: &[u8]) -> InstallManifest {
    InstallManifest {
        profile_id: "profile".to_owned(),
        entries: vec![InstallManifestEntry {
            target_path: "data\\extra.ESP".to_owned(),
            mod_id: "mod".to_owned(),
            revision_id: Some("rev-1".to_owned()),
            package_file_id: "extra".to_owned(),
            layer: layer(),
            backup_ref: None,
            installed_file: Some(summarize(content)),
            adopted,
        }],
    }
}

fn read(id: &str, original: Result<Vec<u8>, PortFailure>, current: Result<Option<Vec<u8>>, PortFailure>) -> AdditionalSourceRead {
    AdditionalSourceRead { package_file_id: id.to_owned(), original, current }
}

#[test]
fn additional_sources_verified_when_installed_copy_is_unchanged() {
    let reads = vec![read("extra", Ok(b"orig".to_vec()), Ok(Some(b"same".to_vec())))];
    let facts = check_additional_sources("mod", &manifest(false, b"same"), &plan(), &reads).unwrap();
    assert_eq!(facts.len(), 1);
    assert_eq!(facts[0].package_file_id, "extra");
    assert_eq!(facts[0].target_path, "data\\extra.ESP");
    assert_eq!(facts[0].original, summarize(b"orig"));
    assert_eq!(facts[0].current, summarize(b"same"));
}

#[test]
fn additional_sources_refuse_each_unverifiable_file() {
    let ok_read = || read("extra", Ok(b"orig".to_vec()), Ok(Some(b"same".to_vec())));
    let check = |m: &InstallManifest, r: AdditionalSourceRead| check_additional_sources("mod", m, &plan(), &vec![r]);
    assert_eq!(
        check(&manifest(false, b"same"), read("unplanned", Ok(vec![]), Ok(None))),
        Err(ReinstallBlockingReason::OriginalInstallUnverified)
    );
    assert_eq!(check(&manifest(true, b"same"), ok_read()), Err(ReinstallBlockingReason::OriginalInstallUnverified));
    assert_eq!(
        check(&manifest(false, b"same"), read("extra", Err(PortFailure), Ok(Some(b"same".to_vec())))),
        Err(ReinstallBlockingReason::SourceUnavailable)
    );
    assert_eq!(
        check(&manifest(false, b"same"), read("extra", Ok(vec![]), Err(PortFailure))),
        Err(ReinstallBlockingReason::TargetReadFailed)
    );
    assert_eq!(
        check(&manifest(false, b"same"), read("extra", Ok(vec![]), Ok(None))),
        Err(ReinstallBlockingReason::TargetMissing)
    );
    assert_eq!(check(&manifest(false, b"other"), ok_read()), Err(ReinstallBlockingReason::TargetChanged));
    assert_eq!(check_additional_sources("mod", &manifest(false, b"x"), &plan(), &vec![]), Ok(vec![]));
}
