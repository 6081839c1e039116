use hmm_app::ids::ModRevisionId;
use hmm_app::metadata::PortFailure;
use hmm_app::reinstall::{
    ReinstallCandidatePlanError, GamePrerequisiteDecision, InstallManifestValidationError, ReinstallBlockingReason, ReinstallPreviewError,
    ReinstallPreviewStatus,
};
use hmm_app::attachments::{FileLayer, InstallAction, InstallManifestEntry};
use hmm_app::replacement_context::{
    plan_checks, PlanActionFacts, PlanCheckAnswers, prepare_decision, AdmissionManifestFacts, CandidateRevisionFacts, PrepareStep, PreparationAnswers,
    installed_replacement_context, InstalledReplacementReinstallResolution, InstalledRevisionError, ReplacementBinding,
    ReplacementContextAnswers, ReplacementManifestFacts,
};

fn decision() -> GamePrerequisiteDecision {
    GamePrerequisiteDecision { status: "ready".to_owned(), rules_version: Some(1), codes: vec![] }
}

fn binding(mod_id: &str, source: &str) -> ReplacementBinding {
    ReplacementBinding { mod_id: mod_id.to_owned(), source_id: source.to_owned() }
}

fn answers(bindings: Vec<ReplacementBinding>) -> ReplacementContextAnswers {
    ReplacementContextAnswers {
        prerequisites_blocked: false,
        catalog_mod: Ok(()),
        manifest: Ok(Some(ReplacementManifestFacts {
            profile_id: "profile".to_owned(),
            validation: Ok(()),
            trusts_entries: true,
            bindings,
        })),
        active_recovery: Ok(0),
        installed_revision: Ok(ModRevisionId::new("rev-1")),
        installed_revision_owner: Ok(Some("mod".to_owned())),
    }
}

fn resolve(a: ReplacementContextAnswers) -> Result<InstalledReplacementReinstallResolution, ReinstallPreviewError> {
    installed_replacement_context(decision(), "profile", "mod", a)
}

fn blocked_reason(r: Result<InstalledReplacementReinstallResolution, ReinstallPreviewError>) -> ReinstallBlockingReason {
    match r {
        Ok(InstalledReplacementReinstallResolution::Blocked(p)) => {
            assert_eq!(p.status, ReinstallPreviewStatus::Blocked);
            assert_eq!(p.blocking_reasons.len(), 1);
            p.blocking_reasons[0].reason
        },
        other => panic!("expected a blocked preview, got {other:?}"),
    }
}

#[test]
fn replacement_context_is_ready_with_the_mods_single_binding() {
    let r = resolve(answers(vec![binding("other", "s0"), binding("mod", "s1")]));
    match r {
        Ok(InstalledReplacementReinstallResolution::Ready(c)) => {
            assert_eq!(c.installed_revision_id.as_str(), "rev-1");
            assert_eq!(c.installed_binding, binding("mod", "s1"));
        },
        other => panic!("expected a ready context, got {other:?}"),
    }
}

#[test]
fn replacement_context_blocks_in_order() {
    let mut a = answers(vec![binding("mod", "s1")]);
    a.prerequisites_blocked = true;
    a.catalog_mod = Err(PortFailure);
    assert_eq!(blocked_reason(resolve(a)), ReinstallBlockingReason::PrerequisitesBlocked);

    let mut a = answers(vec![binding("mod", "s1")]);
    a.catalog_mod = Err(PortFailure);
    assert_eq!(resolve(a), Err(ReinstallPreviewError::CatalogUnavailable));

    let mut a = answers(vec![]);
    a.manifest = Ok(None);
    assert_eq!(blocked_reason(resolve(a)), ReinstallBlockingReason::NotInstalled);

    let mut a = answers(vec![]);
    a.manifest = Err(PortFailure);
    assert_eq!(resolve(a), Err(ReinstallPreviewError::ManifestUnavailable));

    let mut a = answers(vec![]);
    if let Ok(Some(m)) = &mut a.manifest {
        m.validation = Err(InstallManifestValidationError::MixedRevisionSet);
    }
    assert_eq!(blocked_reason(resolve(a)), ReinstallBlockingReason::InstalledRevisionUnknown);

    let mut a = answers(vec![]);
    a.active_recovery = Ok(1);
    assert_eq!(blocked_reason(resolve(a)), ReinstallBlockingReason::ManifestStateUnsafe);

    let mut a = answers(vec![]);
    a.active_recovery = Err(PortFailure);
    assert_eq!(resolve(a), Err(ReinstallPreviewError::RecoveryUnavailable));

    let mut a = answers(vec![]);
    a.installed_revision = Err(InstalledRevisionError::ModNotInstalled);
    assert_eq!(blocked_reason(resolve(a)), ReinstallBlockingReason::NotInstalled);

    let mut a = answers(vec![]);
    a.installed_revision_owner = Ok(Some("other".to_owned()));
    assert_eq!(blocked_reason(resolve(a)), ReinstallBlockingReason::InstalledRevisionUnknown);

    let a = answers(vec![binding("mod", "s1"), binding("mod", "s2")]);
    let r = resolve(a);
    match &r {
        Ok(InstalledReplacementReinstallResolution::Blocked(p)) => {
            assert_eq!(p.installed_revision.as_ref().map(|s| s.revision_id.as_str().to_owned()), Some("rev-1".to_owned()));
            assert_eq!(p.candidate_revision.as_ref().map(|s| s.revision_id.as_str().to_owned()), Some("rev-1".to_owned()));
        },
        _ => panic!("expected a blocked preview"),
    }
    assert_eq!(blocked_reason(r), ReinstallBlockingReason::CandidateNotReady);
}

fn preparation(candidate: &str, installed: &str) -> PreparationAnswers {
    PreparationAnswers {
        prerequisites_blocked: false,
        candidate: Ok(Some(CandidateRevisionFacts { revision_id: ModRevisionId::new(candidate), mod_id: "mod".to_owned() })),
        catalog_mod: Ok(()),
        manifest: Ok(Some(AdmissionManifestFacts {
            profile_id: "profile".to_owned(),
            validation: Ok(()),
            trusts_entries: true,
        })),
        active_recovery: Ok(0),
        installed_revision: Ok(ModRevisionId::new(installed)),
        installed_revision_owner: Ok(Some("mod".to_owned())),
        planner: Some(Ok(())),
    }
}

fn decide(a: PreparationAnswers, candidate: &str, allow_same: bool) -> PrepareStep {
    prepare_decision(decision(), "profile", "mod", &ModRevisionId::new(candidate), allow_same, a)
}

fn step_reason(step: PrepareStep) -> ReinstallBlockingReason {
    match step {
        PrepareStep::Blocked(p) => p.blocking_reasons[0].reason,
        _ => panic!("expected a blocked preview"),
    }
}

#[test]
fn prepare_decision_admits_a_new_candidate_revision() {
    match decide(preparation("rev-2", "rev-1"), "rev-2", false) {
        PrepareStep::Proceed { installed_revision_id, candidate_revision_id } => {
            assert_eq!(installed_revision_id.as_str(), "rev-1");
            assert_eq!(candidate_revision_id.as_str(), "rev-2");
        },
        _ => panic!("expected the admission to proceed"),
    }
}

#[test]
fn prepare_decision_blocks_and_fails_in_order() {
    assert_eq!(step_reason(decide(preparation("rev-1", "rev-1"), "rev-1", false)), ReinstallBlockingReason::CandidateAlreadyInstalled);
    assert!(matches!(decide(preparation("rev-1", "rev-1"), "rev-1", true), PrepareStep::Proceed { .. }));

    let mut a = preparation("rev-2", "rev-1");
    a.candidate = Ok(None);
    assert_eq!(step_reason(decide(a, "rev-2", false)), ReinstallBlockingReason::CandidateNotFound);

    let mut a = preparation("rev-2", "rev-1");
    a.candidate = Ok(Some(CandidateRevisionFacts { revision_id: ModRevisionId::new("rev-2"), mod_id: "other".to_owned() }));
    assert_eq!(step_reason(decide(a, "rev-2", false)), ReinstallBlockingReason::CandidateOwnerMismatch);

    let a = preparation("rev-3", "rev-1");
    assert!(matches!(decide(a, "rev-2", false), PrepareStep::Failed(ReinstallPreviewError::CatalogUnavailable)));

    let mut a = preparation("rev-2", "rev-1");
    a.planner = Some(Err(ReinstallCandidatePlanError::NotReady));
    assert_eq!(step_reason(decide(a, "rev-2", false)), ReinstallBlockingReason::CandidateNotReady);

    let mut a = preparation("rev-2", "rev-1");
    a.planner = Some(Err(ReinstallCandidatePlanError::Unavailable));
    assert!(matches!(decide(a, "rev-2", false), PrepareStep::Failed(ReinstallPreviewError::CandidatePlanUnavailable)));

    let mut a = preparation("rev-2", "rev-1");
    a.installed_revision_owner = Ok(None);
    assert_eq!(step_reason(decide(a, "rev-2", false)), ReinstallBlockingReason::InstalledRevisionUnknown);

    let mut a = preparation("rev-2", "rev-1");
    a.prerequisites_blocked = true;
    assert_eq!(step_reason(decide(a, "rev-2", false)), ReinstallBlockingReason::PrerequisitesBlocked);
}

fn plan_action(mod_id: &str, target: &str, provider_target: &str) -> PlanActionFacts {
    PlanActionFacts {
        target_path: target.to_owned(),
        provider: InstallAction {
            mod_id: mod_id.to_owned(),
            package_file_id: "f".to_owned(),
            target_path: provider_target.to_owned(),
            layer: FileLayer { name: "base".to_owned(), priority: 0 },
        },
    }
}

fn manifest_entry(mod_id: &str, target: &str) -> InstallManifestEntry {
    InstallManifestEntry {
        target_path: target.to_owned(),
        mod_id: mod_id.to_owned(),
        revision_id: None,
        package_file_id: "f".to_owned(),
        layer: FileLayer { name: "base".to_owned(), priority: 0 },
        backup_ref: None,
        installed_file: None,
        adopted: false,
    }
}

fn plan_answers() -> PlanCheckAnswers {
    PlanCheckAnswers {
        blocking_conflicts: false,
        bindings_valid: true,
        binding_mods: vec!["mod".to_owned()],
        same_revision_target_switch: false,
    }
}

#[test]
fn plan_checks_refuse_in_order() {
    let actions = vec![plan_action("mod", "a", "a")];
    let entries = vec![manifest_entry("mod", "b")];
    assert_eq!(plan_checks("mod", false, false, &entries, &actions, &plan_answers()), None);

    let mut a = plan_answers();
    a.blocking_conflicts = true;
    assert_eq!(plan_checks("mod", false, false, &entries, &vec![], &a), Some(ReinstallBlockingReason::PlanConflict));
    assert_eq!(
        plan_checks("mod", false, false, &entries, &vec![], &plan_answers()),
        Some(ReinstallBlockingReason::CandidateNotReady)
    );
    let mut a = plan_answers();
    a.binding_mods = vec!["other".to_owned()];
    assert_eq!(plan_checks("mod", false, false, &entries, &actions, &a), Some(ReinstallBlockingReason::CandidateNotReady));
    assert_eq!(
        plan_checks("mod", false, true, &entries, &actions, &plan_answers()),
        Some(ReinstallBlockingReason::CandidateNotReady)
    );
    assert_eq!(
        plan_checks("mod", true, false, &entries, &actions, &plan_answers()),
        Some(ReinstallBlockingReason::CandidateAlreadyInstalled)
    );
    assert_eq!(
        plan_checks("mod", false, false, &entries, &vec![plan_action("other", "a", "a")], &plan_answers()),
        Some(ReinstallBlockingReason::CrossModTargetConflict)
    );
    assert_eq!(
        plan_checks("mod", false, false, &vec![manifest_entry("mod", "b"), manifest_entry("other", "b")], &actions, &plan_answers()),
        Some(ReinstallBlockingReason::CrossModTargetConflict)
    );
    assert_eq!(
        plan_checks("mod", false, false, &vec![manifest_entry("other", "a")], &actions, &plan_answers()),
        Some(ReinstallBlockingReason::CrossModTargetConflict)
    );
}
