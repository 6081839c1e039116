//! Reinstall preview and commit vocabulary: statuses, blocking reasons, per-target counts,
//! installed-file summaries, and the stable codes of commit failures.
use crate::ids::ModRevisionId;
use crate::text::{decimal, decimal_string};
use vstd::prelude::*;

verus! {

#[derive(Debug, Clone, Copy, PartialEq, Eq, Structural)]
pub enum ReinstallPreviewStatus {
    Ready,
    Blocked,
}

#[derive(Debug, Clone, Copy, PartialEq, Eq, Structural)]
pub struct ReinstallTargetCounts {
    pub retained: usize,
    pub replaced: usize,
    pub added: usize,
    pub stale: usize,
}

impl Default for ReinstallTargetCounts {
    fn default() -> (r: Self)
        ensures
            r == (ReinstallTargetCounts { retained: 0, replaced: 0, added: 0, stale: 0 }),
    {
        ReinstallTargetCounts { retained: 0, replaced: 0, added: 0, stale: 0 }
    }
}

#[derive(Debug, Clone, Copy, PartialEq, Eq, PartialOrd, Ord, Structural)]
pub enum ReinstallBlockingReason {
    PrerequisitesBlocked,
    NotInstalled,
    CandidateNotFound,
    CandidateNotReady,
    CandidateOwnerMismatch,
    CandidateAlreadyInstalled,
    ManifestStateUnsafe,
    InstalledRevisionUnknown,
    SourceUnavailable,
    TargetMissing,
    TargetChanged,
    TargetReadFailed,
    BackupMissing,
    BackupReadFailed,
    PlanConflict,
    CrossModTargetConflict,
    InstalledAttachmentUnverified,
    OriginalInstallUnverified,
}

#[derive(Debug, Clone, Copy, PartialEq, Eq, Structural)]
pub struct ReinstallBlockingReasonSummary {
    pub reason: ReinstallBlockingReason,
    pub count: usize,
}

#[derive(Debug, Clone, Copy, PartialEq, Eq, Structural)]
pub enum ReinstallCandidatePlanError {
    NotReady,
    Unavailable,
}

#[derive(Debug, Clone, Copy, PartialEq, Eq, Structural)]
pub enum ReinstallPreviewError {
    CatalogUnavailable,
    ManifestUnavailable,
    RecoveryUnavailable,
    CandidatePlanUnavailable,
}

/// How a reinstall treats one install target.
#[derive(Debug, Clone, Copy, PartialEq, Eq, Structural)]
pub enum ReinstallTargetClass {
    Retained,
    Replaced,
    Added,
    Stale,
}

/// Number of targets of `class` in `classes`.
pub open spec fn class_count(classes: Seq<ReinstallTargetClass>, class: ReinstallTargetClass) -> nat
    decreases classes.len(),
{
    if classes.len() == 0 {
        0
    } else {
        class_count(classes.drop_last(), class) + if classes.last() == class {
            1nat
        } else {
            0nat
        }
    }
}

/// Tallies the targets of a reinstall plan by class.
pub fn count_targets(classes: &Vec<ReinstallTargetClass>) -> (r: ReinstallTargetCounts)
    ensures
        r.retained == class_count(classes@, ReinstallTargetClass::Retained),
        r.replaced == class_count(classes@, ReinstallTargetClass::Replaced),
        r.added == class_count(classes@, ReinstallTargetClass::Added),
        r.stale == class_count(classes@, ReinstallTargetClass::Stale),
        r.retained + r.replaced + r.added + r.stale == classes@.len(),
{
    let mut counts = ReinstallTargetCounts::default();
    let mut i: usize = 0;
    while i < classes.len()
        invariant
            0 <= i <= classes@.len(),
            counts.retained == class_count(classes@.take(i as int), ReinstallTargetClass::Retained),
            counts.replaced == class_count(classes@.take(i as int), ReinstallTargetClass::Replaced),
            counts.added == class_count(classes@.take(i as int), ReinstallTargetClass::Added),
            counts.stale == class_count(classes@.take(i as int), ReinstallTargetClass::Stale),
            counts.retained + counts.replaced + counts.added + counts.stale == i,
        decreases classes@.len() - i,
    {
        proof {
            assert(classes@.take(i + 1).drop_last() =~= classes@.take(i as int));
        }
        match classes[i] {
            ReinstallTargetClass::Retained => counts.retained = counts.retained + 1,
            ReinstallTargetClass::Replaced => counts.replaced = counts.replaced + 1,
            ReinstallTargetClass::Added => counts.added = counts.added + 1,
            ReinstallTargetClass::Stale => counts.stale = counts.stale + 1,
        }
        i = i + 1;
    }
    proof {
        assert(classes@.take(classes@.len() as int) =~= classes@);
    }
    counts
}

/// The blocking reasons of a preview blocked by a single reason.
pub fn single_blocking_reason(reason: ReinstallBlockingReason) -> (r: Vec<
    ReinstallBlockingReasonSummary,
>)
    ensures
        r@ == seq![ReinstallBlockingReasonSummary { reason, count: 1 }],
{
    let mut v = Vec::new();
    v.push(ReinstallBlockingReasonSummary { reason, count: 1 });
    proof {
        assert(v@ =~= seq![ReinstallBlockingReasonSummary { reason, count: 1 }]);
    }
    v
}

/// Why an install manifest failed its own consistency check.
#[derive(Debug, Clone, Copy, PartialEq, Eq, Structural)]
pub enum InstallManifestValidationError {
    UnsupportedSchemaVersion,
    RevisionedEntriesRequireSchemaV2,
    MixedRevisionSet,
    MultipleRevisionSet,
    DuplicateReplacementBindingId,
    DuplicateReplacementBindingMod,
    ReplacementBindingProfileMismatch,
    ReplacementBindingOwnerMissing,
    ReplacementBindingRevisionMismatch,
}

/// How an inconsistent manifest blocks a reinstall: inconsistent revision facts make the
/// installed revision unknown, every other inconsistency makes the manifest unsafe to act on.
pub open spec fn manifest_validation_reason(error: InstallManifestValidationError) -> ReinstallBlockingReason {
    match error {
        InstallManifestValidationError::RevisionedEntriesRequireSchemaV2
        | InstallManifestValidationError::MixedRevisionSet
        | InstallManifestValidationError::MultipleRevisionSet => ReinstallBlockingReason::InstalledRevisionUnknown,
        _ => ReinstallBlockingReason::ManifestStateUnsafe,
    }
}

pub fn manifest_validation_blocking_reason(error: InstallManifestValidationError) -> (r: ReinstallBlockingReason)
    ensures
        r == manifest_validation_reason(error),
{
    match error {
        InstallManifestValidationError::UnsupportedSchemaVersion => ReinstallBlockingReason::ManifestStateUnsafe,
        InstallManifestValidationError::RevisionedEntriesRequireSchemaV2
        | InstallManifestValidationError::MixedRevisionSet
        | InstallManifestValidationError::MultipleRevisionSet => ReinstallBlockingReason::InstalledRevisionUnknown,
        InstallManifestValidationError::DuplicateReplacementBindingId
        | InstallManifestValidationError::DuplicateReplacementBindingMod
        | InstallManifestValidationError::ReplacementBindingProfileMismatch
        | InstallManifestValidationError::ReplacementBindingOwnerMissing
        | InstallManifestValidationError::ReplacementBindingRevisionMismatch => ReinstallBlockingReason::ManifestStateUnsafe,
    }
}

/// What the game's prerequisite rules decided about installs: the decision's status, the
/// version of the rules that made it and the codes of the findings behind it.
#[derive(Debug, Clone, PartialEq, Eq)]
pub struct GamePrerequisiteDecision {
    pub status: String,
    pub rules_version: Option<u32>,
    pub codes: Vec<String>,
}

#[derive(Debug, Clone, PartialEq, Eq)]
pub struct ReinstallRevisionSummary {
    pub revision_id: ModRevisionId,
}

/// What the reinstall confirmation shows.
#[derive(Debug, Clone, PartialEq, Eq)]
pub struct ReinstallPlanPreview {
    pub status: ReinstallPreviewStatus,
    pub prerequisite_decision: GamePrerequisiteDecision,
    pub installed_revision: Option<ReinstallRevisionSummary>,
    pub candidate_revision: Option<ReinstallRevisionSummary>,
    pub counts: ReinstallTargetCounts,
    pub blocking_reasons: Vec<ReinstallBlockingReasonSummary>,
    pub plan_token: Option<String>,
}

pub open spec fn revision_view(revision: Option<ReinstallRevisionSummary>) -> Option<Seq<char>> {
    match revision {
        Some(r) => Some(r.revision_id@),
        None => None,
    }
}

pub open spec fn id_view(revision: Option<ModRevisionId>) -> Option<Seq<char>> {
    match revision {
        Some(r) => Some(r@),
        None => None,
    }
}

fn revision_summary(revision_id: Option<ModRevisionId>) -> (r: Option<ReinstallRevisionSummary>)
    ensures
        revision_view(r) == id_view(revision_id),
{
    match revision_id {
        Some(id) => Some(ReinstallRevisionSummary { revision_id: id }),
        None => None,
    }
}

impl ReinstallPlanPreview {
    /// A preview blocked by one reason: no counts, no plan token, the reason counted once.
    pub fn blocked_preview(
        installed_revision: Option<ModRevisionId>,
        candidate_revision: Option<ModRevisionId>,
        reason: ReinstallBlockingReason,
        prerequisite_decision: GamePrerequisiteDecision,
    ) -> (r: Self)
        ensures
            r.status == ReinstallPreviewStatus::Blocked,
            r.prerequisite_decision == prerequisite_decision,
            revision_view(r.installed_revision) == id_view(installed_revision),
            revision_view(r.candidate_revision) == id_view(candidate_revision),
            r.counts == (ReinstallTargetCounts { retained: 0, replaced: 0, added: 0, stale: 0 }),
            r.blocking_reasons@ == seq![ReinstallBlockingReasonSummary { reason, count: 1 }],
            r.plan_token is None,
    {
        ReinstallPlanPreview {
            status: ReinstallPreviewStatus::Blocked,
            prerequisite_decision,
            installed_revision: revision_summary(installed_revision),
            candidate_revision: revision_summary(candidate_revision),
            counts: ReinstallTargetCounts::default(),
            blocking_reasons: single_blocking_reason(reason),
            plan_token: None,
        }
    }
}

/// Size and SHA-256 (lowercase hex) of a file as installed.
#[derive(Debug, Clone, PartialEq, Eq)]
pub struct InstalledFileSummary {
    pub size_bytes: u64,
    pub sha256: String,
}

/// Name for the SHA-256 digest of `bytes` (FIPS 180-4).
pub uninterp spec fn spec_sha256(bytes: Seq<u8>) -> Seq<u8>;

/// `sha2::Sha256::digest`: the 32-byte SHA-256 digest of `bytes`.
#[verifier::external_body]
pub(crate) fn sha256_digest(bytes: &[u8]) -> (r: Vec<u8>)
    ensures
        r@ == spec_sha256(bytes@),
        r@.len() == 32,
{
    <sha2::Sha256 as sha2::Digest>::digest(bytes).to_vec()
}

/// Lowercase hexadecimal digit of `d < 16`.
pub open spec fn hex_digit(d: nat) -> char {
    if d < 10 {
        crate::text::digit_char(d)
    } else if d == 10 {
        'a'
    } else if d == 11 {
        'b'
    } else if d == 12 {
        'c'
    } else if d == 13 {
        'd'
    } else if d == 14 {
        'e'
    } else {
        'f'
    }
}

/// Lowercase hex encoding, two digits per byte.
pub open spec fn hex_lower(bytes: Seq<u8>) -> Seq<char>
    decreases bytes.len(),
{
    if bytes.len() == 0 {
        Seq::empty()
    } else {
        hex_lower(bytes.drop_last()) + seq![
            hex_digit((bytes.last() / 16) as nat),
            hex_digit((bytes.last() % 16) as nat),
        ]
    }
}

fn hex_char(d: u8) -> (c: char)
    requires
        d < 16,
    ensures
        c == hex_digit(d as nat),
{
    if d < 10 {
        let digits = crate::text::decimal_chars(d as u128);
        proof {
            assert(digits@ == crate::text::decimal(d as nat));
        }
        digits[0]
    } else if d == 10 {
        'a'
    } else if d == 11 {
        'b'
    } else if d == 12 {
        'c'
    } else if d == 13 {
        'd'
    } else if d == 14 {
        'e'
    } else {
        'f'
    }
}

pub fn hex_encode(bytes: &[u8]) -> (r: String)
    ensures
        r@ == hex_lower(bytes@),
{
    let mut out: Vec<char> = Vec::new();
    let mut i: usize = 0;
    while i < bytes.len()
        invariant
            0 <= i <= bytes@.len(),
            out@ == hex_lower(bytes@.take(i as int)),
        decreases bytes@.len() - i,
    {
        let b = bytes[i];
        out.push(hex_char(b / 16));
        out.push(hex_char(b % 16));
        proof {
            assert(bytes@.take(i + 1).drop_last() =~= bytes@.take(i as int));
            assert(out@ =~= hex_lower(bytes@.take(i + 1)));
        }
        i = i + 1;
    }
    proof {
        assert(bytes@.take(bytes@.len() as int) =~= bytes@);
    }
    crate::text::string_from_chars(out.as_slice())
}

/// Summary of a file's bytes: its length and the lowercase hex SHA-256 of its content.
pub fn summarize(bytes: &[u8]) -> (r: InstalledFileSummary)
    requires
        bytes@.len() <= u64::MAX,
    ensures
        r.size_bytes == bytes@.len(),
        r.sha256@ == hex_lower(spec_sha256(bytes@)),
        r.sha256@.len() == 64,
{
    let digest = sha256_digest(bytes);
    let hex = hex_encode(digest.as_slice());
    proof {
        lemma_hex_len(spec_sha256(bytes@));
    }
    InstalledFileSummary { size_bytes: bytes.len() as u64, sha256: hex }
}

proof fn lemma_hex_len(bytes: Seq<u8>)
    ensures
        hex_lower(bytes).len() == 2 * bytes.len(),
    decreases bytes.len(),
{
    if bytes.len() > 0 {
        lemma_hex_len(bytes.drop_last());
    }
}

#[derive(Debug, Clone, Copy, PartialEq, Eq, Structural)]
pub enum ReinstallCommitPhase {
    Revalidation,
    Snapshot,
    Recovery,
    Mutation,
    Manifest,
    Rollback,
    PostCommit,
    Cleanup,
}

pub open spec fn commit_phase_code(phase: ReinstallCommitPhase) -> Seq<char> {
    match phase {
        ReinstallCommitPhase::Revalidation => "revalidation"@,
        ReinstallCommitPhase::Snapshot => "snapshot"@,
        ReinstallCommitPhase::Recovery => "recovery"@,
        ReinstallCommitPhase::Mutation => "mutation"@,
        ReinstallCommitPhase::Manifest => "manifest"@,
        ReinstallCommitPhase::Rollback => "rollback"@,
        ReinstallCommitPhase::PostCommit => "post_commit"@,
        ReinstallCommitPhase::Cleanup => "cleanup"@,
    }
}

impl ReinstallCommitPhase {
    pub fn code(self) -> (r: &'static str)
        ensures
            r@ == commit_phase_code(self),
    {
        match self {
            ReinstallCommitPhase::Revalidation => "revalidation",
            ReinstallCommitPhase::Snapshot => "snapshot",
            ReinstallCommitPhase::Recovery => "recovery",
            ReinstallCommitPhase::Mutation => "mutation",
            ReinstallCommitPhase::Manifest => "manifest",
            ReinstallCommitPhase::Rollback => "rollback",
            ReinstallCommitPhase::PostCommit => "post_commit",
            ReinstallCommitPhase::Cleanup => "cleanup",
        }
    }
}

#[derive(Debug, Clone, Copy, PartialEq, Eq, Structural)]
pub enum ReinstallCommitError {
    PreviewStale,
    Failed { phase: ReinstallCommitPhase },
    RolledBack { failed_phase: ReinstallCommitPhase, cleanup_pending: bool },
    RollbackRequired { failed_phase: ReinstallCommitPhase },
    RepairRequired { failed_phase: ReinstallCommitPhase },
    PostCommit,
    CleanupPending,
}

/// Error code of a failure in `phase`.
pub open spec fn phase_error_code_spec(phase: ReinstallCommitPhase) -> Seq<char> {
    match phase {
        ReinstallCommitPhase::Revalidation => "install_reinstall_failed:revalidation"@,
        ReinstallCommitPhase::Snapshot => "install_reinstall_failed:snapshot"@,
        ReinstallCommitPhase::Recovery => "install_reinstall_failed:recovery"@,
        ReinstallCommitPhase::Mutation => "install_reinstall_failed:commit"@,
        ReinstallCommitPhase::Manifest => "install_reinstall_failed:manifest"@,
        ReinstallCommitPhase::Rollback => "install_reinstall_failed:rollback"@,
        ReinstallCommitPhase::PostCommit => "install_reinstall_failed:post_commit"@,
        ReinstallCommitPhase::Cleanup => "install_reinstall_failed:cleanup"@,
    }
}

pub fn phase_error_code(phase: ReinstallCommitPhase) -> (r: &'static str)
    ensures
        r@ == phase_error_code_spec(phase),
{
    match phase {
        ReinstallCommitPhase::Revalidation => "install_reinstall_failed:revalidation",
        ReinstallCommitPhase::Snapshot => "install_reinstall_failed:snapshot",
        ReinstallCommitPhase::Recovery => "install_reinstall_failed:recovery",
        ReinstallCommitPhase::Mutation => "install_reinstall_failed:commit",
        ReinstallCommitPhase::Manifest => "install_reinstall_failed:manifest",
        ReinstallCommitPhase::Rollback => "install_reinstall_failed:rollback",
        ReinstallCommitPhase::PostCommit => "install_reinstall_failed:post_commit",
        ReinstallCommitPhase::Cleanup => "install_reinstall_failed:cleanup",
    }
}

pub open spec fn commit_error_code(error: ReinstallCommitError) -> Seq<char> {
    match error {
        ReinstallCommitError::PreviewStale => "install_reinstall_failed:preview_stale"@,
        ReinstallCommitError::Failed { phase } => phase_error_code_spec(phase),
        ReinstallCommitError::RolledBack { failed_phase, .. } => phase_error_code_spec(failed_phase),
        ReinstallCommitError::RollbackRequired { .. } => "install_reinstall_failed:rollback"@,
        ReinstallCommitError::RepairRequired { .. } => "install_reinstall_failed:repair"@,
        ReinstallCommitError::PostCommit => "install_reinstall_failed:post_commit"@,
        ReinstallCommitError::CleanupPending => "install_reinstall_failed:cleanup"@,
    }
}

impl ReinstallCommitError {
    pub fn code(&self) -> (r: &'static str)
        ensures
            r@ == commit_error_code(*self),
    {
        match self {
            ReinstallCommitError::PreviewStale => "install_reinstall_failed:preview_stale",
            ReinstallCommitError::Failed { phase } => phase_error_code(*phase),
            ReinstallCommitError::RolledBack { failed_phase, .. } => phase_error_code(*failed_phase),
            ReinstallCommitError::RollbackRequired { .. } => "install_reinstall_failed:rollback",
            ReinstallCommitError::RepairRequired { .. } => "install_reinstall_failed:repair",
            ReinstallCommitError::PostCommit => "install_reinstall_failed:post_commit",
            ReinstallCommitError::CleanupPending => "install_reinstall_failed:cleanup",
        }
    }
}

/// Seconds since the Unix epoch (`SystemTime::now().duration_since(UNIX_EPOCH)`); `None` when
/// the system clock is before the epoch. The value depends on the clock.
#[verifier::external_body]
fn unix_seconds_now() -> Option<u64> {
    match std::time::SystemTime::now().duration_since(std::time::UNIX_EPOCH) {
        Ok(duration) => Some(duration.as_secs()),
        Err(_) => None,
    }
}

/// Completion stamp of a manifest written at `seconds` after the epoch (0 for a clock before
/// the epoch).
pub open spec fn manifest_timestamp_spec(seconds: Option<u64>) -> Seq<char> {
    "unix:"@ + decimal(
        match seconds {
            Some(s) => s as nat,
            None => 0,
        },
    )
}

pub fn manifest_timestamp_at(seconds: Option<u64>) -> (r: String)
    ensures
        r@ == manifest_timestamp_spec(seconds),
{
    let s: u64 = match seconds {
        Some(s) => s,
        None => 0,
    };
    let mut stamp = "unix:".to_owned();
    let digits = decimal_string(s as u128);
    stamp.append(digits.as_str());
    stamp
}

/// Completion stamp of a manifest written now.
pub fn manifest_timestamp() -> (r: String)
    ensures
        exists|seconds: Option<u64>| r@ == manifest_timestamp_spec(seconds),
{
    let seconds = unix_seconds_now();
    manifest_timestamp_at(seconds)
}

} // verus!
