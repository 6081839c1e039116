//! The installed side of a replacement reinstall: before a Mod installed through a replacement
//! binding may be reinstalled, the prerequisites must allow installs, the profile's manifest must
//! be present, its own, consistent, trusted and free of pending recovery, the installed revision
//! must be known to the catalog as the Mod's, and the Mod must hold exactly one binding. The
//! admission of a reinstall preview makes the same checks around the candidate revision.
use crate::attachments::InstallManifestEntry;
use crate::ids::ModRevisionId;
use crate::metadata::PortFailure;
use crate::reinstall::{
    id_view, manifest_validation_blocking_reason, manifest_validation_reason, revision_view, GamePrerequisiteDecision,
    InstallManifestValidationError, ReinstallBlockingReason, ReinstallPlanPreview, ReinstallPreviewError,
    ReinstallPreviewStatus, ReinstallTargetCounts, ReinstallBlockingReasonSummary, ReinstallCandidatePlanError,
};
use crate::text::str_equal;
use vstd::prelude::*;

verus! {

/// A replacement binding the manifest records: the Mod it installs and the source it binds.
#[derive(Debug, Clone, PartialEq, Eq)]
pub struct ReplacementBinding {
    pub mod_id: String,
    pub source_id: String,
}

/// What the profile's manifest says that the resolution reads.
pub struct ReplacementManifestFacts {
    pub profile_id: String,
    /// The manifest's own consistency check.
    pub validation: Result<(), InstallManifestValidationError>,
    /// The manifest's status lets its entries be trusted.
    pub trusts_entries: bool,
    /// The replacement bindings, in manifest order.
    pub bindings: Vec<ReplacementBinding>,
}

/// Why the installed revision could not be read from the manifest.
#[derive(Debug, Clone, Copy, PartialEq, Eq, Structural)]
pub enum InstalledRevisionError {
    /// No entry of the manifest belongs to the Mod.
    ModNotInstalled,
    /// The Mod's entries name no single revision.
    Unresolved,
}

/// What the ports answered, in the order they are asked.
pub struct ReplacementContextAnswers {
    /// The prerequisite rules block installs.
    pub prerequisites_blocked: bool,
    /// The catalog's lookup of the Mod.
    pub catalog_mod: Result<(), PortFailure>,
    /// The profile's manifest, if it has one.
    pub manifest: Result<Option<ReplacementManifestFacts>, PortFailure>,
    /// How many recovery transactions of the profile are pending.
    pub active_recovery: Result<usize, PortFailure>,
    /// The installed revision the manifest names for the Mod.
    pub installed_revision: Result<ModRevisionId, InstalledRevisionError>,
    /// The Mod the catalog files that revision under, if it knows the revision.
    pub installed_revision_owner: Result<Option<String>, PortFailure>,
}

/// The installed context of a replacement reinstall.
#[derive(Debug, Clone, PartialEq, Eq)]
pub struct InstalledReplacementReinstallContext {
    pub installed_revision_id: ModRevisionId,
    pub installed_binding: ReplacementBinding,
}

#[derive(Debug, Clone, PartialEq, Eq)]
pub enum InstalledReplacementReinstallResolution {
    Ready(InstalledReplacementReinstallContext),
    Blocked(ReinstallPlanPreview),
}

/// The outcome of the resolution, as facts.
pub enum ReplacementOutcome {
    Failed(ReinstallPreviewError),
    Blocked(Option<Seq<char>>, Option<Seq<char>>, ReinstallBlockingReason),
    Ready(Seq<char>, ReplacementBinding),
}

/// The Mod's bindings, in manifest order.
pub open spec fn mod_bindings(bindings: Seq<ReplacementBinding>, mod_id: Seq<char>) -> Seq<ReplacementBinding>
    decreases bindings.len(),
{
    if bindings.len() == 0 {
        Seq::empty()
    } else if bindings.last().mod_id@ == mod_id {
        mod_bindings(bindings.drop_last(), mod_id).push(bindings.last())
    } else {
        mod_bindings(bindings.drop_last(), mod_id)
    }
}

/// The resolution from the answers: prerequisites, catalog, manifest presence, ownership,
/// consistency, recovery and trust, the installed revision, its owner, then the one binding.
pub open spec fn replacement_outcome(profile_id: Seq<char>, mod_id: Seq<char>, a: ReplacementContextAnswers) -> ReplacementOutcome {
    if a.prerequisites_blocked {
        ReplacementOutcome::Blocked(None, None, ReinstallBlockingReason::PrerequisitesBlocked)
    } else if a.catalog_mod is Err {
        ReplacementOutcome::Failed(ReinstallPreviewError::CatalogUnavailable)
    } else {
        match a.manifest {
            Err(_) => ReplacementOutcome::Failed(ReinstallPreviewError::ManifestUnavailable),
            Ok(None) => ReplacementOutcome::Blocked(None, None, ReinstallBlockingReason::NotInstalled),
            Ok(Some(m)) => if m.profile_id@ != profile_id {
                ReplacementOutcome::Blocked(None, None, ReinstallBlockingReason::ManifestStateUnsafe)
            } else if m.validation is Err {
                ReplacementOutcome::Blocked(None, None, manifest_validation_reason(m.validation->Err_0))
            } else {
                match a.active_recovery {
                    Err(_) => ReplacementOutcome::Failed(ReinstallPreviewError::RecoveryUnavailable),
                    Ok(n) => if n > 0 || !m.trusts_entries {
                        ReplacementOutcome::Blocked(None, None, ReinstallBlockingReason::ManifestStateUnsafe)
                    } else {
                        match a.installed_revision {
                            Err(InstalledRevisionError::ModNotInstalled) => ReplacementOutcome::Blocked(
                                None,
                                None,
                                ReinstallBlockingReason::NotInstalled,
                            ),
                            Err(InstalledRevisionError::Unresolved) => ReplacementOutcome::Blocked(
                                None,
                                None,
                                ReinstallBlockingReason::InstalledRevisionUnknown,
                            ),
                            Ok(installed) => match a.installed_revision_owner {
                                Err(_) => ReplacementOutcome::Failed(ReinstallPreviewError::CatalogUnavailable),
                                Ok(owner) => if !(owner matches Some(o) && o@ == mod_id) {
                                    ReplacementOutcome::Blocked(
                                        Some(installed@),
                                        None,
                                        ReinstallBlockingReason::InstalledRevisionUnknown,
                                    )
                                } else if mod_bindings(m.bindings@, mod_id).len() != 1 {
                                    ReplacementOutcome::Blocked(
                                        Some(installed@),
                                        Some(installed@),
                                        ReinstallBlockingReason::CandidateNotReady,
                                    )
                                } else {
                                    ReplacementOutcome::Ready(installed@, mod_bindings(m.bindings@, mod_id)[0])
                                },
                            },
                        }
                    },
                }
            },
        }
    }
}

/// `r` is the resolution `outcome` describes; a blocked preview carries `prerequisite`.
pub open spec fn resolution_is(
    r: Result<InstalledReplacementReinstallResolution, ReinstallPreviewError>,
    outcome: ReplacementOutcome,
    prerequisite: GamePrerequisiteDecision,
) -> bool {
    match outcome {
        ReplacementOutcome::Failed(e) => r == Err::<InstalledReplacementReinstallResolution, _>(e),
        ReplacementOutcome::Blocked(installed, candidate, reason) => match r {
            Ok(InstalledReplacementReinstallResolution::Blocked(p)) => {
                &&& p.status == ReinstallPreviewStatus::Blocked
                &&& p.prerequisite_decision == prerequisite
                &&& revision_view(p.installed_revision) == installed
                &&& revision_view(p.candidate_revision) == candidate
                &&& p.counts == (ReinstallTargetCounts { retained: 0, replaced: 0, added: 0, stale: 0 })
                &&& p.blocking_reasons@ == seq![ReinstallBlockingReasonSummary { reason, count: 1 }]
                &&& p.plan_token is None
            },
            _ => false,
        },
        ReplacementOutcome::Ready(installed, binding) => match r {
            Ok(InstalledReplacementReinstallResolution::Ready(c)) => c.installed_revision_id@ == installed
                && c.installed_binding == binding,
            _ => false,
        },
    }
}

fn blocked(
    prerequisite: GamePrerequisiteDecision,
    installed: Option<ModRevisionId>,
    candidate: Option<ModRevisionId>,
    reason: ReinstallBlockingReason,
) -> (r: Result<InstalledReplacementReinstallResolution, ReinstallPreviewError>)
    ensures
        resolution_is(r, ReplacementOutcome::Blocked(id_view(installed), id_view(candidate), reason), prerequisite),
{
    Ok(
        InstalledReplacementReinstallResolution::Blocked(
            ReinstallPlanPreview::blocked_preview(installed, candidate, reason, prerequisite),
        ),
    )
}

fn clone_binding(b: &ReplacementBinding) -> (r: ReplacementBinding)
    ensures
        r == *b,
{
    ReplacementBinding { mod_id: b.mod_id.clone(), source_id: b.source_id.clone() }
}

/// The positions of the Mod's bindings, in manifest order.
fn mod_binding_positions(bindings: &Vec<ReplacementBinding>, mod_id: &str) -> (r: Vec<usize>)
    ensures
        r@.len() == mod_bindings(bindings@, mod_id@).len(),
        forall|i: int| 0 <= i < r@.len() ==> r@[i] < bindings@.len() && bindings@[#[trigger] r@[i] as int] == mod_bindings(
            bindings@,
            mod_id@,
        )[i],
{
    let mut positions: Vec<usize> = Vec::new();
    let mut k: usize = 0;
    while k < bindings.len()
        invariant
            0 <= k <= bindings@.len(),
            positions@.len() == mod_bindings(bindings@.subrange(0, k as int), mod_id@).len(),
            forall|i: int|
                0 <= i < positions@.len() ==> positions@[i] < bindings@.len() && bindings@[#[trigger] positions@[i] as int]
                    == mod_bindings(bindings@.subrange(0, k as int), mod_id@)[i],
        decreases bindings@.len() - k,
    {
        let ghost before = bindings@.subrange(0, k as int);
        let ghost after = bindings@.subrange(0, k + 1);
        proof {
            assert(after.drop_last() =~= before);
            assert(after.last() == bindings@[k as int]);
        }
        if str_equal(bindings[k].mod_id.as_str(), mod_id) {
            positions.push(k);
            proof {
                assert(mod_bindings(after, mod_id@) == mod_bindings(before, mod_id@).push(bindings@[k as int]));
            }
        } else {
            proof {
                assert(mod_bindings(after, mod_id@) == mod_bindings(before, mod_id@));
            }
        }
        k = k + 1;
    }
    proof {
        assert(bindings@.subrange(0, bindings@.len() as int) =~= bindings@);
    }
    positions
}

/// Resolves the installed side of a replacement reinstall of `mod_id` in `profile_id` from what
/// the ports answered; a blocked resolution carries `prerequisite` in its preview.
pub fn installed_replacement_context(
    prerequisite: GamePrerequisiteDecision,
    profile_id: &str,
    mod_id: &str,
    answers: ReplacementContextAnswers,
) -> (r: Result<InstalledReplacementReinstallResolution, ReinstallPreviewError>)
    ensures
        resolution_is(r, replacement_outcome(profile_id@, mod_id@, answers), prerequisite),
{
    let ghost a = answers;
    if answers.prerequisites_blocked {
        return blocked(prerequisite, None, None, ReinstallBlockingReason::PrerequisitesBlocked);
    }
    if answers.catalog_mod.is_err() {
        return Err(ReinstallPreviewError::CatalogUnavailable);
    }
    let manifest = match answers.manifest {
        Err(_) => return Err(ReinstallPreviewError::ManifestUnavailable),
        Ok(None) => return blocked(prerequisite, None, None, ReinstallBlockingReason::NotInstalled),
        Ok(Some(m)) => m,
    };
    if !str_equal(manifest.profile_id.as_str(), profile_id) {
        return blocked(prerequisite, None, None, ReinstallBlockingReason::ManifestStateUnsafe);
    }
    match manifest.validation {
        Err(e) => return blocked(prerequisite, None, None, manifest_validation_blocking_reason(e)),
        Ok(()) => {},
    }
    let active = match answers.active_recovery {
        Err(_) => return Err(ReinstallPreviewError::RecoveryUnavailable),
        Ok(n) => n,
    };
    if active > 0 || !manifest.trusts_entries {
        return blocked(prerequisite, None, None, ReinstallBlockingReason::ManifestStateUnsafe);
    }
    let installed = match answers.installed_revision {
        Err(InstalledRevisionError::ModNotInstalled) => {
            return blocked(prerequisite, None, None, ReinstallBlockingReason::NotInstalled);
        },
        Err(InstalledRevisionError::Unresolved) => {
            return blocked(prerequisite, None, None, ReinstallBlockingReason::InstalledRevisionUnknown);
        },
        Ok(id) => id,
    };
    let owned = match answers.installed_revision_owner {
        Err(_) => return Err(ReinstallPreviewError::CatalogUnavailable),
        Ok(Some(owner)) => str_equal(owner.as_str(), mod_id),
        Ok(None) => false,
    };
    if !owned {
        return blocked(prerequisite, Some(installed), None, ReinstallBlockingReason::InstalledRevisionUnknown);
    }
    let positions = mod_binding_positions(&manifest.bindings, mod_id);
    if positions.len() != 1 {
        let again = installed.duplicate();
        return blocked(prerequisite, Some(installed), Some(again), ReinstallBlockingReason::CandidateNotReady);
    }
    let binding = clone_binding(&manifest.bindings[positions[0]]);
    proof {
        assert(binding == mod_bindings(manifest.bindings@, mod_id@)[0]);
    }
    Ok(
        InstalledReplacementReinstallResolution::Ready(
            InstalledReplacementReinstallContext { installed_revision_id: installed, installed_binding: binding },
        ),
    )
}

/// The candidate revision as the catalog filed it.
pub struct CandidateRevisionFacts {
    pub revision_id: ModRevisionId,
    pub mod_id: String,
}

/// What the profile's manifest says that the admission of a reinstall reads.
pub struct AdmissionManifestFacts {
    pub profile_id: String,
    /// The manifest's own consistency check.
    pub validation: Result<(), InstallManifestValidationError>,
    /// The manifest's status lets its entries be trusted.
    pub trusts_entries: bool,
}

/// What the ports answered while admitting a reinstall preview, in the order they are asked.
pub struct PreparationAnswers {
    pub prerequisites_blocked: bool,
    /// The catalog's lookup of the candidate revision.
    pub candidate: Result<Option<CandidateRevisionFacts>, PortFailure>,
    /// The catalog's lookup of the Mod.
    pub catalog_mod: Result<(), PortFailure>,
    pub manifest: Result<Option<AdmissionManifestFacts>, PortFailure>,
    pub active_recovery: Result<usize, PortFailure>,
    pub installed_revision: Result<ModRevisionId, InstalledRevisionError>,
    pub installed_revision_owner: Result<Option<String>, PortFailure>,
    /// The planner's answer, when the plan is not given but built (`None`: a plan was given).
    pub planner: Option<Result<(), ReinstallCandidatePlanError>>,
}

/// Where the admission of a reinstall preview ends.
pub enum PrepareStep {
    Failed(ReinstallPreviewError),
    Blocked(ReinstallPlanPreview),
    /// Admitted: the installed and the candidate revision; the plan is the given or built one.
    Proceed { installed_revision_id: ModRevisionId, candidate_revision_id: ModRevisionId },
}

/// The admission's outcome as facts: blocked with the revisions known so far and a reason,
/// failed, or admitted with both revisions.
pub enum PrepareOutcome {
    Failed(ReinstallPreviewError),
    Blocked(Option<Seq<char>>, Option<Seq<char>>, ReinstallBlockingReason),
    Proceed(Seq<char>, Seq<char>),
}

/// The checks after the candidate was found: the manifest, then the installed revision, then
/// the same-revision rule, then the planner.
pub open spec fn admission_after_candidate(
    profile_id: Seq<char>,
    mod_id: Seq<char>,
    candidate: Seq<char>,
    allow_same_revision: bool,
    a: PreparationAnswers,
) -> PrepareOutcome {
    if a.catalog_mod is Err {
        PrepareOutcome::Failed(ReinstallPreviewError::CatalogUnavailable)
    } else {
        match a.manifest {
            Err(_) => PrepareOutcome::Failed(ReinstallPreviewError::ManifestUnavailable),
            Ok(None) => PrepareOutcome::Blocked(None, Some(candidate), ReinstallBlockingReason::NotInstalled),
            Ok(Some(m)) => if m.profile_id@ != profile_id {
                PrepareOutcome::Blocked(None, Some(candidate), ReinstallBlockingReason::ManifestStateUnsafe)
            } else if m.validation is Err {
                PrepareOutcome::Blocked(None, Some(candidate), manifest_validation_reason(m.validation->Err_0))
            } else {
                match a.active_recovery {
                    Err(_) => PrepareOutcome::Failed(ReinstallPreviewError::RecoveryUnavailable),
                    Ok(n) => if n > 0 || !m.trusts_entries {
                        PrepareOutcome::Blocked(None, Some(candidate), ReinstallBlockingReason::ManifestStateUnsafe)
                    } else {
                        match a.installed_revision {
                            Err(InstalledRevisionError::ModNotInstalled) => PrepareOutcome::Blocked(
                                None,
                                Some(candidate),
                                ReinstallBlockingReason::NotInstalled,
                            ),
                            Err(InstalledRevisionError::Unresolved) => PrepareOutcome::Blocked(
                                None,
                                Some(candidate),
                                ReinstallBlockingReason::InstalledRevisionUnknown,
                            ),
                            Ok(installed) => match a.installed_revision_owner {
                                Err(_) => PrepareOutcome::Failed(ReinstallPreviewError::CatalogUnavailable),
                                Ok(owner) => if !(owner matches Some(o) && o@ == mod_id) {
                                    PrepareOutcome::Blocked(
                                        None,
                                        Some(candidate),
                                        ReinstallBlockingReason::InstalledRevisionUnknown,
                                    )
                                } else if installed@ == candidate && !allow_same_revision {
                                    PrepareOutcome::Blocked(
                                        Some(installed@),
                                        Some(candidate),
                                        ReinstallBlockingReason::CandidateAlreadyInstalled,
                                    )
                                } else {
                                    match a.planner {
                                        Some(Err(ReinstallCandidatePlanError::NotReady)) => PrepareOutcome::Blocked(
                                            Some(installed@),
                                            Some(candidate),
                                            ReinstallBlockingReason::CandidateNotReady,
                                        ),
                                        Some(Err(ReinstallCandidatePlanError::Unavailable)) => PrepareOutcome::Failed(
                                            ReinstallPreviewError::CandidatePlanUnavailable,
                                        ),
                                        _ => PrepareOutcome::Proceed(installed@, candidate),
                                    }
                                },
                            },
                        }
                    },
                }
            },
        }
    }
}

/// The admission of a reinstall preview of `candidate_revision_id` for `mod_id` in
/// `profile_id`: prerequisites, then the candidate (found, filed under its own id, owned by the
/// Mod), then the checks `admission_after_candidate` makes.
pub open spec fn admission_outcome(
    profile_id: Seq<char>,
    mod_id: Seq<char>,
    candidate_revision_id: Seq<char>,
    allow_same_revision: bool,
    a: PreparationAnswers,
) -> PrepareOutcome {
    if a.prerequisites_blocked {
        PrepareOutcome::Blocked(None, None, ReinstallBlockingReason::PrerequisitesBlocked)
    } else {
        match a.candidate {
            Err(_) => PrepareOutcome::Failed(ReinstallPreviewError::CatalogUnavailable),
            Ok(None) => PrepareOutcome::Blocked(None, None, ReinstallBlockingReason::CandidateNotFound),
            Ok(Some(c)) => if c.revision_id@ != candidate_revision_id {
                PrepareOutcome::Failed(ReinstallPreviewError::CatalogUnavailable)
            } else if c.mod_id@ != mod_id {
                PrepareOutcome::Blocked(None, Some(c.revision_id@), ReinstallBlockingReason::CandidateOwnerMismatch)
            } else {
                admission_after_candidate(profile_id, mod_id, c.revision_id@, allow_same_revision, a)
            },
        }
    }
}

pub open spec fn step_is(r: PrepareStep, outcome: PrepareOutcome, prerequisite: GamePrerequisiteDecision) -> bool {
    match outcome {
        PrepareOutcome::Failed(e) => r == PrepareStep::Failed(e),
        PrepareOutcome::Blocked(installed, candidate, reason) => match r {
            PrepareStep::Blocked(p) => {
                &&& p.status == ReinstallPreviewStatus::Blocked
                &&& p.prerequisite_decision == prerequisite
                &&& revision_view(p.installed_revision) == installed
                &&& revision_view(p.candidate_revision) == candidate
                &&& p.counts == (ReinstallTargetCounts { retained: 0, replaced: 0, added: 0, stale: 0 })
                &&& p.blocking_reasons@ == seq![ReinstallBlockingReasonSummary { reason, count: 1 }]
                &&& p.plan_token is None
            },
            _ => false,
        },
        PrepareOutcome::Proceed(installed, candidate) => match r {
            PrepareStep::Proceed { installed_revision_id, candidate_revision_id } => installed_revision_id@ == installed
                && candidate_revision_id@ == candidate,
            _ => false,
        },
    }
}

fn blocked_step(
    prerequisite: GamePrerequisiteDecision,
    installed: Option<ModRevisionId>,
    candidate: Option<ModRevisionId>,
    reason: ReinstallBlockingReason,
) -> (r: PrepareStep)
    ensures
        step_is(r, PrepareOutcome::Blocked(id_view(installed), id_view(candidate), reason), prerequisite),
{
    PrepareStep::Blocked(ReinstallPlanPreview::blocked_preview(installed, candidate, reason, prerequisite))
}

/// Decides the admission of a reinstall preview from what the ports answered; a blocked
/// admission carries `prerequisite` in its preview.
pub fn prepare_decision(
    prerequisite: GamePrerequisiteDecision,
    profile_id: &str,
    mod_id: &str,
    candidate_revision_id: &ModRevisionId,
    allow_same_revision_target_switch: bool,
    answers: PreparationAnswers,
) -> (r: PrepareStep)
    ensures
        step_is(
            r,
            admission_outcome(profile_id@, mod_id@, candidate_revision_id@, allow_same_revision_target_switch, answers),
            prerequisite,
        ),
{
    if answers.prerequisites_blocked {
        return blocked_step(prerequisite, None, None, ReinstallBlockingReason::PrerequisitesBlocked);
    }
    let candidate = match answers.candidate {
        Err(_) => return PrepareStep::Failed(ReinstallPreviewError::CatalogUnavailable),
        Ok(None) => return blocked_step(prerequisite, None, None, ReinstallBlockingReason::CandidateNotFound),
        Ok(Some(c)) => c,
    };
    if !str_equal(candidate.revision_id.as_str(), candidate_revision_id.as_str()) {
        return PrepareStep::Failed(ReinstallPreviewError::CatalogUnavailable);
    }
    let cand = candidate.revision_id;
    if !str_equal(candidate.mod_id.as_str(), mod_id) {
        return blocked_step(prerequisite, None, Some(cand), ReinstallBlockingReason::CandidateOwnerMismatch);
    }
    if answers.catalog_mod.is_err() {
        return PrepareStep::Failed(ReinstallPreviewError::CatalogUnavailable);
    }
    let manifest = match answers.manifest {
        Err(_) => return PrepareStep::Failed(ReinstallPreviewError::ManifestUnavailable),
        Ok(None) => return blocked_step(prerequisite, None, Some(cand), ReinstallBlockingReason::NotInstalled),
        Ok(Some(m)) => m,
    };
    if !str_equal(manifest.profile_id.as_str(), profile_id) {
        return blocked_step(prerequisite, None, Some(cand), ReinstallBlockingReason::ManifestStateUnsafe);
    }
    match manifest.validation {
        Err(e) => return blocked_step(prerequisite, None, Some(cand), manifest_validation_blocking_reason(e)),
        Ok(()) => {},
    }
    let active = match answers.active_recovery {
        Err(_) => return PrepareStep::Failed(ReinstallPreviewError::RecoveryUnavailable),
        Ok(n) => n,
    };
    if active > 0 || !manifest.trusts_entries {
        return blocked_step(prerequisite, None, Some(cand), ReinstallBlockingReason::ManifestStateUnsafe);
    }
    let installed = match answers.installed_revision {
        Err(InstalledRevisionError::ModNotInstalled) => {
            return blocked_step(prerequisite, None, Some(cand), ReinstallBlockingReason::NotInstalled);
        },
        Err(InstalledRevisionError::Unresolved) => {
            return blocked_step(prerequisite, None, Some(cand), ReinstallBlockingReason::InstalledRevisionUnknown);
        },
        Ok(id) => id,
    };
    let owned = match answers.installed_revision_owner {
        Err(_) => return PrepareStep::Failed(ReinstallPreviewError::CatalogUnavailable),
        Ok(Some(owner)) => str_equal(owner.as_str(), mod_id),
        Ok(None) => false,
    };
    if !owned {
        return blocked_step(prerequisite, None, Some(cand), ReinstallBlockingReason::InstalledRevisionUnknown);
    }
    if str_equal(installed.as_str(), cand.as_str()) && !allow_same_revision_target_switch {
        return blocked_step(prerequisite, Some(installed), Some(cand), ReinstallBlockingReason::CandidateAlreadyInstalled);
    }
    match answers.planner {
        Some(Err(ReinstallCandidatePlanError::NotReady)) => {
            return blocked_step(prerequisite, Some(installed), Some(cand), ReinstallBlockingReason::CandidateNotReady);
        },
        Some(Err(ReinstallCandidatePlanError::Unavailable)) => {
            return PrepareStep::Failed(ReinstallPreviewError::CandidatePlanUnavailable);
        },
        _ => {},
    }
    PrepareStep::Proceed { installed_revision_id: installed, candidate_revision_id: cand }
}

/// One action of a candidate plan: the target it writes and the provider it writes from.
pub struct PlanActionFacts {
    pub target_path: String,
    pub provider: crate::attachments::InstallAction,
}

/// What the plan's own checks answered.
pub struct PlanCheckAnswers {
    /// The plan holds a conflict that blocks it.
    pub blocking_conflicts: bool,
    /// The plan's replacement bindings fit the profile and the candidate revision.
    pub bindings_valid: bool,
    /// The Mods the plan's replacement bindings belong to.
    pub binding_mods: Vec<String>,
    /// Reinstalling the installed revision only switches the target of its replacement binding.
    pub same_revision_target_switch: bool,
}

/// A target the reinstall protects: one the Mod has installed or the plan writes.
pub open spec fn protected_target(
    entries: Seq<InstallManifestEntry>,
    mod_id: Seq<char>,
    actions: Seq<PlanActionFacts>,
    target: Seq<char>,
) -> bool {
    ||| exists|k: int| 0 <= k < entries.len() && (#[trigger] entries[k]).mod_id@ == mod_id && entries[k].target_path@ == target
    ||| exists|k: int| 0 <= k < actions.len() && (#[trigger] actions[k]).target_path@ == target
}

/// The plan's checks once the candidate is admitted, in order: a blocking conflict, an empty
/// plan, bindings that do not fit or belong to another Mod, a target switch of another
/// revision, a same-revision reinstall that switches nothing, an action of another Mod or
/// written elsewhere than its provider's target, and another Mod's file at a protected target.
pub open spec fn plan_check_spec(
    mod_id: Seq<char>,
    same_revision: bool,
    allow_same_revision_target_switch: bool,
    entries: Seq<InstallManifestEntry>,
    actions: Seq<PlanActionFacts>,
    a: PlanCheckAnswers,
) -> Option<ReinstallBlockingReason> {
    if a.blocking_conflicts {
        Some(ReinstallBlockingReason::PlanConflict)
    } else if actions.len() == 0 {
        Some(ReinstallBlockingReason::CandidateNotReady)
    } else if !a.bindings_valid || exists|k: int| 0 <= k < a.binding_mods@.len() && (#[trigger] a.binding_mods@[k])@ != mod_id {
        Some(ReinstallBlockingReason::CandidateNotReady)
    } else if allow_same_revision_target_switch && !same_revision {
        Some(ReinstallBlockingReason::CandidateNotReady)
    } else if same_revision && !a.same_revision_target_switch {
        Some(ReinstallBlockingReason::CandidateAlreadyInstalled)
    } else if exists|k: int|
        0 <= k < actions.len() && ((#[trigger] actions[k]).provider.mod_id@ != mod_id || actions[k].provider.target_path@
            != actions[k].target_path@) {
        Some(ReinstallBlockingReason::CrossModTargetConflict)
    } else if exists|k: int|
        0 <= k < entries.len() && (#[trigger] entries[k]).mod_id@ != mod_id && protected_target(
            entries,
            mod_id,
            actions,
            entries[k].target_path@,
        ) {
        Some(ReinstallBlockingReason::CrossModTargetConflict)
    } else {
        None
    }
}

fn is_protected(entries: &Vec<InstallManifestEntry>, mod_id: &str, actions: &Vec<PlanActionFacts>, target: &str) -> (r: bool)
    ensures
        r == protected_target(entries@, mod_id@, actions@, target@),
{
    let mut k: usize = 0;
    while k < entries.len()
        invariant
            0 <= k <= entries@.len(),
            forall|j: int| 0 <= j < k ==> !((#[trigger] entries@[j]).mod_id@ == mod_id@ && entries@[j].target_path@ == target@),
        decreases entries@.len() - k,
    {
        if str_equal(entries[k].mod_id.as_str(), mod_id) && str_equal(entries[k].target_path.as_str(), target) {
            return true;
        }
        k = k + 1;
    }
    let mut a: usize = 0;
    while a < actions.len()
        invariant
            0 <= a <= actions@.len(),
            forall|j: int| 0 <= j < entries@.len() ==> !((#[trigger] entries@[j]).mod_id@ == mod_id@ && entries@[j].target_path@ == target@),
            forall|j: int| 0 <= j < a ==> (#[trigger] actions@[j]).target_path@ != target@,
        decreases actions@.len() - a,
    {
        if str_equal(actions[a].target_path.as_str(), target) {
            return true;
        }
        a = a + 1;
    }
    false
}

/// Checks a candidate plan once the candidate is admitted; `None` when the reinstall may go on
/// to read the targets.
#[verifier::loop_isolation(false)]
pub fn plan_checks(
    mod_id: &str,
    same_revision: bool,
    allow_same_revision_target_switch: bool,
    entries: &Vec<InstallManifestEntry>,
    actions: &Vec<PlanActionFacts>,
    answers: &PlanCheckAnswers,
) -> (r: Option<ReinstallBlockingReason>)
    ensures
        r == plan_check_spec(mod_id@, same_revision, allow_same_revision_target_switch, entries@, actions@, *answers),
{
    if answers.blocking_conflicts {
        return Some(ReinstallBlockingReason::PlanConflict);
    }
    if actions.len() == 0 {
        return Some(ReinstallBlockingReason::CandidateNotReady);
    }
    if !answers.bindings_valid {
        return Some(ReinstallBlockingReason::CandidateNotReady);
    }
    let mut b: usize = 0;
    while b < answers.binding_mods.len()
        invariant
            0 <= b <= answers.binding_mods@.len(),
            forall|j: int| 0 <= j < b ==> (#[trigger] answers.binding_mods@[j])@ == mod_id@,
        decreases answers.binding_mods@.len() - b,
    {
        if !str_equal(answers.binding_mods[b].as_str(), mod_id) {
            assert(answers.binding_mods@[b as int]@ != mod_id@);
            return Some(ReinstallBlockingReason::CandidateNotReady);
        }
        b = b + 1;
    }
    if allow_same_revision_target_switch && !same_revision {
        return Some(ReinstallBlockingReason::CandidateNotReady);
    }
    if same_revision && !answers.same_revision_target_switch {
        return Some(ReinstallBlockingReason::CandidateAlreadyInstalled);
    }
    let mut k: usize = 0;
    while k < actions.len()
        invariant
            0 <= k <= actions@.len(),
            forall|j: int|
                0 <= j < k ==> !((#[trigger] actions@[j]).provider.mod_id@ != mod_id@ || actions@[j].provider.target_path@
                    != actions@[j].target_path@),
        decreases actions@.len() - k,
    {
        let action = &actions[k];
        if !str_equal(action.provider.mod_id.as_str(), mod_id) || !str_equal(
            action.provider.target_path.as_str(),
            action.target_path.as_str(),
        ) {
            assert(actions@[k as int].provider.mod_id@ != mod_id@ || actions@[k as int].provider.target_path@
                != actions@[k as int].target_path@);
            return Some(ReinstallBlockingReason::CrossModTargetConflict);
        }
        k = k + 1;
    }
    let mut e: usize = 0;
    while e < entries.len()
        invariant
            0 <= e <= entries@.len(),
            forall|j: int|
                0 <= j < e ==> !((#[trigger] entries@[j]).mod_id@ != mod_id@ && protected_target(
                    entries@,
                    mod_id@,
                    actions@,
                    entries@[j].target_path@,
                )),
        decreases entries@.len() - e,
    {
        let entry = &entries[e];
        if !str_equal(entry.mod_id.as_str(), mod_id) && is_protected(entries, mod_id, actions, entry.target_path.as_str()) {
            assert(entries@[e as int].mod_id@ != mod_id@ && protected_target(
                entries@,
                mod_id@,
                actions@,
                entries@[e as int].target_path@,
            ));
            return Some(ReinstallBlockingReason::CrossModTargetConflict);
        }
        e = e + 1;
    }
    None
}

} // verus!
