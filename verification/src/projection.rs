//! The persisted projection of the Mod library: how a library query is asked of it, how its
//! rows turn back into library pages, and how it is kept in step with the catalog.
use crate::diagnostics::StoredImportPreviewImage;
use crate::ids::{ModId, ModRevisionId, ProfileId};
use crate::library::{
    CategoryLabel, InstallManifestStatus, InstallManifestStatusSummary, ModLibraryItem,
    clone_string_option,
};
use crate::library_query::{
    ModLibraryFilter, ModLibraryPage, ModLibraryPageItem, ModLibraryProfileContext, ModLibraryQuery,
    ModLibraryQueryError, validate_query, validate_query_spec,
};
use crate::diagnostics::{preview_image_rejection_reason_key, rejection_reason_key};
use crate::library_query::{argmin_from, name_order, sort_by_name};
use crate::library_query::{ensure_unique_mod_ids, validated_statuses, ModLibraryStatusProvider};
use crate::metadata::{opt_view, PortFailure};
use crate::reinstall::{hex_encode, hex_lower, sha256_digest, spec_sha256};
use crate::text::{chars_of, decimal, decimal_chars, decimal_string, normalize_key, normalize_key_spec};
use vstd::utf8::encode_utf8;
use vstd::prelude::*;

verus! {

/// Install status of a Mod as the projection stores it; a Mod that is not installed has no
/// row at all.
#[derive(Debug, Clone, Copy, PartialEq, Eq, Structural)]
pub enum ModLibraryProjectionStatus {
    Installed,
    CommittedCleanupPending,
    CleanupPending,
    RollbackRequired,
    RepairRequired,
}

/// Install status a projection query filters on.
#[derive(Debug, Clone, Copy, PartialEq, Eq, Structural)]
pub enum ModLibraryProjectionQueryStatus {
    NotInstalled,
    Installed,
    CommittedCleanupPending,
    CleanupPending,
    RollbackRequired,
    RepairRequired,
    Unknown,
}

pub open spec fn query_status_code(status: ModLibraryProjectionQueryStatus) -> Seq<char> {
    match status {
        ModLibraryProjectionQueryStatus::NotInstalled => "not_installed"@,
        ModLibraryProjectionQueryStatus::Installed => "installed"@,
        ModLibraryProjectionQueryStatus::CommittedCleanupPending => "committed_cleanup_pending"@,
        ModLibraryProjectionQueryStatus::CleanupPending => "cleanup_pending"@,
        ModLibraryProjectionQueryStatus::RollbackRequired => "rollback_required"@,
        ModLibraryProjectionQueryStatus::RepairRequired => "repair_required"@,
        ModLibraryProjectionQueryStatus::Unknown => "unknown"@,
    }
}

impl ModLibraryProjectionQueryStatus {
    pub fn as_str(self) -> (r: &'static str)
        ensures
            r@ == query_status_code(self),
    {
        match self {
            ModLibraryProjectionQueryStatus::NotInstalled => "not_installed",
            ModLibraryProjectionQueryStatus::Installed => "installed",
            ModLibraryProjectionQueryStatus::CommittedCleanupPending => "committed_cleanup_pending",
            ModLibraryProjectionQueryStatus::CleanupPending => "cleanup_pending",
            ModLibraryProjectionQueryStatus::RollbackRequired => "rollback_required",
            ModLibraryProjectionQueryStatus::RepairRequired => "repair_required",
            ModLibraryProjectionQueryStatus::Unknown => "unknown",
        }
    }
}

#[derive(Debug, Clone, PartialEq, Eq)]
pub enum ModLibraryProjectionQueryFilter {
    All,
    Status(ModLibraryProjectionQueryStatus),
    Category(String),
}

#[derive(Debug, Clone, PartialEq, Eq)]
pub struct ModLibraryProjectionProfileQuery {
    pub profile_id: ProfileId,
    pub source_fingerprint: String,
}

/// A page request against the projection, pinned to the fingerprints it was built from.
#[derive(Debug, Clone, PartialEq, Eq)]
pub struct ModLibraryProjectionQueryRequest {
    pub source_fingerprint: String,
    pub profile: Option<ModLibraryProjectionProfileQuery>,
    pub normalized_search: String,
    pub filter: ModLibraryProjectionQueryFilter,
    pub page: u64,
    pub page_size: u32,
}

#[derive(Debug, Clone, Copy, PartialEq, Eq, Structural)]
pub enum ModLibraryProjectionQueryError {
    Unavailable,
    CategoryNotFound,
    ProfileUnavailable,
}

#[derive(Debug, Clone, Copy, PartialEq, Eq, Structural)]
pub enum ModLibraryProjectionReadiness {
    Complete,
    Dirty,
}

/// The state of the global projection.
#[derive(Debug, Clone, PartialEq, Eq)]
pub struct ModLibraryProjectionState {
    pub generation: u64,
    pub source_fingerprint: Option<String>,
    pub readiness: ModLibraryProjectionReadiness,
}

impl ModLibraryProjectionState {
    /// Complete, and built from the catalog state `fingerprint` names.
    pub open spec fn complete_for(self, fingerprint: Seq<char>) -> bool {
        self.readiness == ModLibraryProjectionReadiness::Complete && opt_view(self.source_fingerprint)
            == Some(fingerprint)
    }

    pub fn is_complete_for(&self, fingerprint: &str) -> (r: bool)
        ensures
            r == self.complete_for(fingerprint@),
    {
        match (&self.readiness, &self.source_fingerprint) {
            (ModLibraryProjectionReadiness::Complete, Some(f)) => crate::text::str_equal(f.as_str(), fingerprint),
            _ => false,
        }
    }
}

/// The state of one profile's status projection.
#[derive(Debug, Clone, PartialEq, Eq)]
pub struct ModLibraryProfileProjectionState {
    pub profile_id: ProfileId,
    pub source_fingerprint: Option<String>,
    pub readiness: ModLibraryProjectionReadiness,
}

/// A category label of a projected row; `category_id` is absent for labels of no user category.
#[derive(Debug, Clone, PartialEq, Eq)]
pub struct ModLibraryProjectionLabel {
    pub category_id: Option<String>,
    pub name: String,
    pub color: Option<String>,
}

/// One library entry as the projection stores it.
#[derive(Debug, Clone, PartialEq, Eq)]
pub struct ModLibraryProjectionRecord {
    pub mod_id: ModId,
    pub display_revision_id: ModRevisionId,
    pub package_id: String,
    pub display_name: String,
    pub author: Option<String>,
    pub version_label: Option<String>,
    pub size_label: String,
    pub preview_image: StoredImportPreviewImage,
    pub external_import_adapter_id: Option<String>,
    pub labels: Vec<ModLibraryProjectionLabel>,
}

/// The install facts of one Mod in a profile projection.
#[derive(Debug, Clone, PartialEq, Eq)]
pub struct ModLibraryProjectionStatusRecord {
    pub mod_id: ModId,
    pub status: ModLibraryProjectionStatus,
    pub managed_file_count: u64,
    pub backup_count: u64,
}

#[derive(Debug, Clone, PartialEq, Eq)]
pub struct ModLibraryProjectionPageItem {
    pub record: ModLibraryProjectionRecord,
    pub status: Option<ModLibraryProjectionStatusRecord>,
}

#[derive(Debug, Clone, PartialEq, Eq)]
pub struct ModLibraryProjectionPage {
    pub items: Vec<ModLibraryProjectionPageItem>,
    pub page: u64,
    pub page_size: u32,
    pub library_total: usize,
    pub matching_total: usize,
}

/// What a global rebuild writes.
pub struct ModLibraryProjectionSnapshot {
    pub source_fingerprint: String,
    pub records: Vec<ModLibraryProjectionRecord>,
    pub profiles: Vec<ModLibraryProfileProjection>,
}

/// What a profile rebuild writes.
pub struct ModLibraryProfileProjection {
    pub profile_id: ProfileId,
    pub source_fingerprint: String,
    pub statuses: Vec<ModLibraryProjectionStatusRecord>,
}

/// How a library install status is stored: `NotInstalled` has no row, `Unknown` cannot be
/// stored.
pub open spec fn projection_status_spec(status: InstallManifestStatus) -> Result<
    Option<ModLibraryProjectionStatus>,
    ModLibraryQueryError,
> {
    match status {
        InstallManifestStatus::NotInstalled => Ok(None),
        InstallManifestStatus::Installed => Ok(Some(ModLibraryProjectionStatus::Installed)),
        InstallManifestStatus::CommittedCleanupPending => Ok(
            Some(ModLibraryProjectionStatus::CommittedCleanupPending),
        ),
        InstallManifestStatus::CleanupPending => Ok(Some(ModLibraryProjectionStatus::CleanupPending)),
        InstallManifestStatus::RollbackRequired => Ok(Some(ModLibraryProjectionStatus::RollbackRequired)),
        InstallManifestStatus::RepairRequired => Ok(Some(ModLibraryProjectionStatus::RepairRequired)),
        InstallManifestStatus::Unknown => Err(ModLibraryQueryError::StatusUnavailable),
    }
}

pub fn projection_status(status: InstallManifestStatus) -> (r: Result<
    Option<ModLibraryProjectionStatus>,
    ModLibraryQueryError,
>)
    ensures
        r == projection_status_spec(status),
{
    match status {
        InstallManifestStatus::NotInstalled => Ok(None),
        InstallManifestStatus::Installed => Ok(Some(ModLibraryProjectionStatus::Installed)),
        InstallManifestStatus::CommittedCleanupPending => Ok(
            Some(ModLibraryProjectionStatus::CommittedCleanupPending),
        ),
        InstallManifestStatus::CleanupPending => Ok(Some(ModLibraryProjectionStatus::CleanupPending)),
        InstallManifestStatus::RollbackRequired => Ok(Some(ModLibraryProjectionStatus::RollbackRequired)),
        InstallManifestStatus::RepairRequired => Ok(Some(ModLibraryProjectionStatus::RepairRequired)),
        InstallManifestStatus::Unknown => Err(ModLibraryQueryError::StatusUnavailable),
    }
}

pub open spec fn query_status_spec(status: InstallManifestStatus) -> ModLibraryProjectionQueryStatus {
    match status {
        InstallManifestStatus::NotInstalled => ModLibraryProjectionQueryStatus::NotInstalled,
        InstallManifestStatus::Installed => ModLibraryProjectionQueryStatus::Installed,
        InstallManifestStatus::CommittedCleanupPending => ModLibraryProjectionQueryStatus::CommittedCleanupPending,
        InstallManifestStatus::CleanupPending => ModLibraryProjectionQueryStatus::CleanupPending,
        InstallManifestStatus::RollbackRequired => ModLibraryProjectionQueryStatus::RollbackRequired,
        InstallManifestStatus::RepairRequired => ModLibraryProjectionQueryStatus::RepairRequired,
        InstallManifestStatus::Unknown => ModLibraryProjectionQueryStatus::Unknown,
    }
}

pub fn status_to_query_status(status: InstallManifestStatus) -> (r: ModLibraryProjectionQueryStatus)
    ensures
        r == query_status_spec(status),
{
    match status {
        InstallManifestStatus::NotInstalled => ModLibraryProjectionQueryStatus::NotInstalled,
        InstallManifestStatus::Installed => ModLibraryProjectionQueryStatus::Installed,
        InstallManifestStatus::CommittedCleanupPending => ModLibraryProjectionQueryStatus::CommittedCleanupPending,
        InstallManifestStatus::CleanupPending => ModLibraryProjectionQueryStatus::CleanupPending,
        InstallManifestStatus::RollbackRequired => ModLibraryProjectionQueryStatus::RollbackRequired,
        InstallManifestStatus::RepairRequired => ModLibraryProjectionQueryStatus::RepairRequired,
        InstallManifestStatus::Unknown => ModLibraryProjectionQueryStatus::Unknown,
    }
}

pub open spec fn install_status_spec(status: ModLibraryProjectionStatus) -> InstallManifestStatus {
    match status {
        ModLibraryProjectionStatus::Installed => InstallManifestStatus::Installed,
        ModLibraryProjectionStatus::CommittedCleanupPending => InstallManifestStatus::CommittedCleanupPending,
        ModLibraryProjectionStatus::CleanupPending => InstallManifestStatus::CleanupPending,
        ModLibraryProjectionStatus::RollbackRequired => InstallManifestStatus::RollbackRequired,
        ModLibraryProjectionStatus::RepairRequired => InstallManifestStatus::RepairRequired,
    }
}

pub fn install_status_from_projection(status: ModLibraryProjectionStatus) -> (r: InstallManifestStatus)
    ensures
        r == install_status_spec(status),
        projection_status_spec(r) == Ok::<_, ModLibraryQueryError>(Some(status)),
{
    match status {
        ModLibraryProjectionStatus::Installed => InstallManifestStatus::Installed,
        ModLibraryProjectionStatus::CommittedCleanupPending => InstallManifestStatus::CommittedCleanupPending,
        ModLibraryProjectionStatus::CleanupPending => InstallManifestStatus::CleanupPending,
        ModLibraryProjectionStatus::RollbackRequired => InstallManifestStatus::RollbackRequired,
        ModLibraryProjectionStatus::RepairRequired => InstallManifestStatus::RepairRequired,
    }
}

/// A status stored in the projection reads back as the status it was stored from.
pub proof fn lemma_projection_status_round_trip(status: InstallManifestStatus)
    ensures
        projection_status_spec(status) matches Ok(Some(p)) ==> install_status_spec(p) == status,
        projection_status_spec(status) matches Ok(None) ==> status == InstallManifestStatus::NotInstalled,
{
}

pub open spec fn map_query_error_spec(error: ModLibraryProjectionQueryError) -> ModLibraryQueryError {
    match error {
        ModLibraryProjectionQueryError::Unavailable => ModLibraryQueryError::LibraryUnavailable,
        ModLibraryProjectionQueryError::CategoryNotFound => ModLibraryQueryError::CategoryNotFound,
        ModLibraryProjectionQueryError::ProfileUnavailable => ModLibraryQueryError::StatusUnavailable,
    }
}

pub fn map_projection_query_error(error: ModLibraryProjectionQueryError) -> (r: ModLibraryQueryError)
    ensures
        r == map_query_error_spec(error),
{
    match error {
        ModLibraryProjectionQueryError::Unavailable => ModLibraryQueryError::LibraryUnavailable,
        ModLibraryProjectionQueryError::CategoryNotFound => ModLibraryQueryError::CategoryNotFound,
        ModLibraryProjectionQueryError::ProfileUnavailable => ModLibraryQueryError::StatusUnavailable,
    }
}

/// The projection filter of a library filter.
pub open spec fn filter_matches(filter: ModLibraryFilter, projected: ModLibraryProjectionQueryFilter) -> bool {
    match filter {
        ModLibraryFilter::All => projected == ModLibraryProjectionQueryFilter::All,
        ModLibraryFilter::Status(s) => projected == ModLibraryProjectionQueryFilter::Status(query_status_spec(s)),
        ModLibraryFilter::Category(c) => projected matches ModLibraryProjectionQueryFilter::Category(p) && p@ == c@,
    }
}

/// The projection request for a library query: a profile query exactly when the query has a
/// profile and a profile fingerprint is known (either alone is an inconsistency), pinned to
/// the global fingerprint, which must be known.
pub open spec fn query_request_refusal(
    query: ModLibraryQuery,
    state: ModLibraryProjectionState,
    profile_fingerprint: Option<Seq<char>>,
) -> Option<ModLibraryQueryError> {
    if query.profile_context is Some && profile_fingerprint is None {
        Some(ModLibraryQueryError::StatusUnavailable)
    } else if query.profile_context is None && profile_fingerprint is Some {
        Some(ModLibraryQueryError::LibraryUnavailable)
    } else if state.source_fingerprint is None {
        Some(ModLibraryQueryError::LibraryUnavailable)
    } else {
        None
    }
}

pub open spec fn request_matches(
    request: ModLibraryProjectionQueryRequest,
    query: ModLibraryQuery,
    state: ModLibraryProjectionState,
    profile_fingerprint: Option<Seq<char>>,
) -> bool {
    &&& opt_view(state.source_fingerprint) == Some(request.source_fingerprint@)
    &&& match (query.profile_context, request.profile) {
        (Some(c), Some(p)) => p.profile_id@ == c.profile_id@ && profile_fingerprint == Some(p.source_fingerprint@),
        (None, None) => true,
        _ => false,
    }
    &&& request.normalized_search@ == normalize_key_spec(query.search@)
    &&& filter_matches(query.filter, request.filter)
    &&& request.page == query.page
    &&& request.page_size == query.page_size
}

pub fn projection_query_request(
    query: &ModLibraryQuery,
    state: &ModLibraryProjectionState,
    profile_fingerprint: Option<String>,
) -> (r: Result<ModLibraryProjectionQueryRequest, ModLibraryQueryError>)
    ensures
        query_request_refusal(*query, *state, opt_view(profile_fingerprint)) matches Some(e) ==> r == Err::<
            ModLibraryProjectionQueryRequest,
            _,
        >(e),
        query_request_refusal(*query, *state, opt_view(profile_fingerprint)) is None ==> (r matches Ok(req)
            && request_matches(req, *query, *state, opt_view(profile_fingerprint))),
{
    let filter = match &query.filter {
        ModLibraryFilter::All => ModLibraryProjectionQueryFilter::All,
        ModLibraryFilter::Status(status) => ModLibraryProjectionQueryFilter::Status(status_to_query_status(*status)),
        ModLibraryFilter::Category(category_id) => ModLibraryProjectionQueryFilter::Category(category_id.clone()),
    };
    let profile = match (&query.profile_context, profile_fingerprint) {
        (Some(context), Some(source_fingerprint)) => Some(
            ModLibraryProjectionProfileQuery { profile_id: context.profile_id.duplicate(), source_fingerprint },
        ),
        (Some(_), None) => {
            return Err(ModLibraryQueryError::StatusUnavailable);
        },
        (None, None) => None,
        (None, Some(_)) => {
            return Err(ModLibraryQueryError::LibraryUnavailable);
        },
    };
    let source_fingerprint = match &state.source_fingerprint {
        Some(f) => f.clone(),
        None => {
            return Err(ModLibraryQueryError::LibraryUnavailable);
        },
    };
    Ok(
        ModLibraryProjectionQueryRequest {
            source_fingerprint,
            profile,
            normalized_search: normalize_key(query.search.as_str()),
            filter,
            page: query.page,
            page_size: query.page_size,
        },
    )
}

/// The install summary a projected row gives in a profile: the stored status and counts, or
/// not installed with no files when the profile has no row for the Mod.
pub open spec fn summary_from_row(
    context: ModLibraryProfileContext,
    mod_id: Seq<char>,
    status: Option<ModLibraryProjectionStatusRecord>,
    summary: InstallManifestStatusSummary,
) -> bool {
    &&& summary.profile_id@ == context.profile_id@
    &&& summary.mod_id@ == mod_id
    &&& summary.installed_revision_id is None
    &&& summary.adopted_file_count is None
    &&& match status {
        Some(s) => summary.status == install_status_spec(s.status) && summary.managed_file_count
            == s.managed_file_count && summary.backup_count == s.backup_count,
        None => summary.status == InstallManifestStatus::NotInstalled && summary.managed_file_count == 0
            && summary.backup_count == 0,
    }
}

/// Why a projected row cannot be shown: a status row for another Mod or with counts past the
/// machine's range in a profile, or any status row without a profile.
pub open spec fn row_refusal(
    record: ModLibraryProjectionRecord,
    status: Option<ModLibraryProjectionStatusRecord>,
    context: Option<ModLibraryProfileContext>,
) -> Option<ModLibraryQueryError> {
    match context {
        Some(_) => match status {
            Some(s) => if s.mod_id@ != record.mod_id@ || s.managed_file_count > usize::MAX || s.backup_count
                > usize::MAX {
                Some(ModLibraryQueryError::StatusUnavailable)
            } else {
                None
            },
            None => None,
        },
        None => if status is Some {
            Some(ModLibraryQueryError::LibraryUnavailable)
        } else {
            None
        },
    }
}

pub open spec fn label_shown(label: ModLibraryProjectionLabel, shown: CategoryLabel) -> bool {
    shown.name@ == label.name@ && opt_view(shown.color) == opt_view(label.color)
}

pub open spec fn item_from_record(record: ModLibraryProjectionRecord, item: ModLibraryItem) -> bool {
    &&& item.id@ == record.mod_id@
    &&& item.name@ == record.display_name@
    &&& opt_view(item.author) == opt_view(record.author)
    &&& opt_view(item.version_label) == opt_view(record.version_label)
    &&& item.size_label@ == record.size_label@
    &&& opt_view(item.external_import_adapter_id) == opt_view(record.external_import_adapter_id)
    &&& item.category_labels@.len() == record.labels@.len()
    &&& forall|k: int|
        0 <= k < record.labels@.len() ==> label_shown(record.labels@[k], #[trigger] item.category_labels@[k])
}

pub fn projection_page_item_to_app(
    page_item: ModLibraryProjectionPageItem,
    context: Option<&ModLibraryProfileContext>,
) -> (r: Result<ModLibraryPageItem, ModLibraryQueryError>)
    ensures
        row_refusal(
            page_item.record,
            page_item.status,
            match context {
                Some(c) => Some(*c),
                None => None,
            },
        ) matches Some(e) ==> r == Err::<ModLibraryPageItem, _>(e),
        row_refusal(
            page_item.record,
            page_item.status,
            match context {
                Some(c) => Some(*c),
                None => None,
            },
        ) is None ==> (r matches Ok(item) && item_from_record(page_item.record, item.item) && match context {
            Some(c) => item.install_summary matches Some(s) && summary_from_row(
                *c,
                page_item.record.mod_id@,
                page_item.status,
                s,
            ),
            None => item.install_summary is None,
        }),
{
    let ModLibraryProjectionPageItem { record, status } = page_item;
    let install_summary = match context {
        Some(context) => {
            let (s, managed_file_count, backup_count) = match &status {
                Some(row) => {
                    if !crate::text::str_equal(row.mod_id.as_str(), record.mod_id.as_str()) {
                        return Err(ModLibraryQueryError::StatusUnavailable);
                    }
                    if row.managed_file_count as u128 > usize::MAX as u128 || row.backup_count as u128
                        > usize::MAX as u128 {
                        return Err(ModLibraryQueryError::StatusUnavailable);
                    }
                    (
                        install_status_from_projection(row.status),
                        row.managed_file_count as usize,
                        row.backup_count as usize,
                    )
                },
                None => (InstallManifestStatus::NotInstalled, 0, 0),
            };
            Some(
                InstallManifestStatusSummary {
                    profile_id: context.profile_id.duplicate(),
                    mod_id: record.mod_id.duplicate(),
                    status: s,
                    managed_file_count,
                    backup_count,
                    installed_revision_id: None,
                    adopted_file_count: None,
                },
            )
        },
        None => {
            if status.is_some() {
                return Err(ModLibraryQueryError::LibraryUnavailable);
            }
            None
        },
    };
    let mut labels: Vec<CategoryLabel> = Vec::new();
    let mut k: usize = 0;
    while k < record.labels.len()
        invariant
            0 <= k <= record.labels@.len(),
            labels@.len() == k,
            forall|j: int| 0 <= j < k ==> label_shown(record.labels@[j], #[trigger] labels@[j]),
        decreases record.labels@.len() - k,
    {
        let label = &record.labels[k];
        labels.push(CategoryLabel { name: label.name.clone(), color: clone_string_option(&label.color) });
        k = k + 1;
    }
    Ok(
        ModLibraryPageItem {
            item: ModLibraryItem {
                id: record.mod_id.as_str().to_owned(),
                name: record.display_name,
                author: record.author,
                version_label: record.version_label,
                size_label: record.size_label,
                category_labels: labels,
                external_import_adapter_id: record.external_import_adapter_id,
            },
            install_summary,
        },
    )
}


/// `count` bytes of `n`, least significant first.
pub open spec fn le_bytes(n: nat, count: nat) -> Seq<u8>
    decreases count,
{
    if count == 0 {
        Seq::empty()
    } else {
        seq![(n % 256) as u8] + le_bytes(n / 256, (count - 1) as nat)
    }
}

/// A text field of a fingerprint: its UTF-8 length as eight little-endian bytes, then its
/// UTF-8 bytes.
pub open spec fn text_bytes(s: Seq<char>) -> Seq<u8> {
    le_bytes(encode_utf8(s).len(), 8) + encode_utf8(s)
}

/// An optional text field: a zero byte when absent, a one byte and the text when present.
pub open spec fn opt_text_bytes(value: Option<Seq<char>>) -> Seq<u8> {
    match value {
        Some(s) => seq![1u8] + text_bytes(s),
        None => seq![0u8],
    }
}

fn push_bytes(buf: &mut Vec<u8>, bytes: &[u8])
    ensures
        final(buf)@ == old(buf)@ + bytes@,
{
    let mut k: usize = 0;
    while k < bytes.len()
        invariant
            0 <= k <= bytes@.len(),
            buf@ == old(buf)@ + bytes@.subrange(0, k as int),
        decreases bytes@.len() - k,
    {
        buf.push(bytes[k]);
        proof {
            assert(bytes@.subrange(0, k + 1) =~= bytes@.subrange(0, k as int).push(bytes@[k as int]));
        }
        k = k + 1;
    }
    proof {
        assert(bytes@.subrange(0, bytes@.len() as int) =~= bytes@);
    }
}

fn push_le_u64(buf: &mut Vec<u8>, n: u64)
    ensures
        final(buf)@ == old(buf)@ + le_bytes(n as nat, 8),
{
    let mut v: u64 = n;
    let mut i: usize = 0;
    while i < 8
        invariant
            0 <= i <= 8,
            old(buf)@ + le_bytes(n as nat, 8) == buf@ + le_bytes(v as nat, (8 - i) as nat),
        decreases 8 - i,
    {
        proof {
            assert(le_bytes(v as nat, (8 - i) as nat) == seq![(v % 256) as u8] + le_bytes(
                (v / 256) as nat,
                (8 - i - 1) as nat,
            ));
            assert(buf@ + le_bytes(v as nat, (8 - i) as nat) =~= buf@.push((v % 256) as u8) + le_bytes(
                (v / 256) as nat,
                (8 - i - 1) as nat,
            ));
        }
        buf.push((v % 256) as u8);
        v = v / 256;
        i = i + 1;
    }
    proof {
        assert(buf@ + le_bytes(v as nat, 0) =~= buf@);
    }
}

fn push_text(buf: &mut Vec<u8>, s: &str)
    ensures
        final(buf)@ == old(buf)@ + text_bytes(s@),
{
    let bytes = s.as_bytes();
    proof {
        assert(bytes@ == encode_utf8(s@));
    }
    push_le_u64(buf, bytes.len() as u64);
    push_bytes(buf, bytes);
    proof {
        assert(old(buf)@ + le_bytes(encode_utf8(s@).len(), 8) + encode_utf8(s@) =~= old(buf)@ + text_bytes(
            s@,
        ));
    }
}

fn push_opt_text(buf: &mut Vec<u8>, value: &Option<String>)
    ensures
        final(buf)@ == old(buf)@ + opt_text_bytes(opt_view(*value)),
{
    match value {
        Some(s) => {
            buf.push(1u8);
            push_text(buf, s.as_str());
            proof {
                assert(old(buf)@.push(1u8) + text_bytes(s@) =~= old(buf)@ + (seq![1u8] + text_bytes(s@)));
            }
        },
        None => {
            buf.push(0u8);
            proof {
                assert(old(buf)@.push(0u8) =~= old(buf)@ + seq![0u8]);
            }
        },
    }
}

/// The fingerprint bytes of a stored preview image.
pub open spec fn preview_bytes(preview: StoredImportPreviewImage) -> Seq<u8> {
    match preview {
        StoredImportPreviewImage::Thumbnail { thumbnail_url, width, height, content_hash, variant } => seq![1u8]
            + text_bytes(thumbnail_url@) + le_bytes(width as nat, 8) + le_bytes(height as nat, 8) + text_bytes(
            content_hash@,
        ) + text_bytes(variant@),
        StoredImportPreviewImage::Fallback { reason } => seq![0u8] + text_bytes(rejection_reason_key(reason)),
    }
}

fn push_preview(buf: &mut Vec<u8>, preview: &StoredImportPreviewImage)
    ensures
        final(buf)@ == old(buf)@ + preview_bytes(*preview),
{
    match preview {
        StoredImportPreviewImage::Thumbnail { thumbnail_url, width, height, content_hash, variant } => {
            buf.push(1u8);
            push_text(buf, thumbnail_url.as_str());
            push_le_u64(buf, *width as u64);
            push_le_u64(buf, *height as u64);
            push_text(buf, content_hash.as_str());
            push_text(buf, variant.as_str());
            proof {
                assert(buf@ =~= old(buf)@ + preview_bytes(*preview));
            }
        },
        StoredImportPreviewImage::Fallback { reason } => {
            buf.push(0u8);
            push_text(buf, preview_image_rejection_reason_key(*reason));
            proof {
                assert(buf@ =~= old(buf)@ + preview_bytes(*preview));
            }
        },
    }
}

/// The fingerprint bytes of a label.
pub open spec fn label_bytes(label: ModLibraryProjectionLabel) -> Seq<u8> {
    opt_text_bytes(opt_view(label.category_id)) + text_bytes(label.name@) + opt_text_bytes(opt_view(label.color))
}

/// A length-prefixed text, as sort keys spell it.
pub open spec fn key_field(s: Seq<char>) -> Seq<char> {
    decimal(s.len()) + seq![':'] + s
}

pub open spec fn opt_key_field(value: Option<Seq<char>>) -> Seq<char> {
    match value {
        Some(s) => seq!['1'] + key_field(s),
        None => seq!['0'],
    }
}

/// The sort key of a label: its category id, name and color, each length-prefixed, so that
/// two labels share a key only when they are the same label.
pub open spec fn label_key(label: ModLibraryProjectionLabel) -> Seq<char> {
    opt_key_field(opt_view(label.category_id)) + key_field(label.name@) + opt_key_field(opt_view(label.color))
}

fn key_field_chars(s: &str) -> (r: Vec<char>)
    ensures
        r@ == key_field(s@),
{
    let chars = chars_of(s);
    let mut out = decimal_chars(chars.len() as u128);
    out.push(':');
    let mut k: usize = 0;
    while k < chars.len()
        invariant
            chars@ == s@,
            0 <= k <= chars@.len(),
            out@ == decimal(s@.len()) + seq![':'] + s@.subrange(0, k as int),
        decreases chars@.len() - k,
    {
        out.push(chars[k]);
        proof {
            assert(s@.subrange(0, k + 1) =~= s@.subrange(0, k as int).push(s@[k as int]));
            assert(out@ =~= decimal(s@.len()) + seq![':'] + s@.subrange(0, k + 1));
        }
        k = k + 1;
    }
    proof {
        assert(s@.subrange(0, s@.len() as int) =~= s@);
    }
    out
}

fn opt_key_field_chars(value: &Option<String>) -> (r: Vec<char>)
    ensures
        r@ == opt_key_field(opt_view(*value)),
{
    match value {
        Some(s) => {
            let mut out: Vec<char> = Vec::new();
            out.push('1');
            let rest = key_field_chars(s.as_str());
            let mut k: usize = 0;
            while k < rest.len()
                invariant
                    0 <= k <= rest@.len(),
                    out@ == seq!['1'] + rest@.subrange(0, k as int),
                decreases rest@.len() - k,
            {
                out.push(rest[k]);
                proof {
                    assert(rest@.subrange(0, k + 1) =~= rest@.subrange(0, k as int).push(rest@[k as int]));
                    assert(out@ =~= seq!['1'] + rest@.subrange(0, k + 1));
                }
                k = k + 1;
            }
            proof {
                assert(rest@.subrange(0, rest@.len() as int) =~= rest@);
            }
            out
        },
        None => {
            let mut out: Vec<char> = Vec::new();
            out.push('0');
            proof {
                assert(out@ =~= seq!['0']);
            }
            out
        },
    }
}

fn append_chars(out: &mut Vec<char>, more: &Vec<char>)
    ensures
        final(out)@ == old(out)@ + more@,
{
    let mut k: usize = 0;
    while k < more.len()
        invariant
            0 <= k <= more@.len(),
            out@ == old(out)@ + more@.subrange(0, k as int),
        decreases more@.len() - k,
    {
        out.push(more[k]);
        proof {
            assert(more@.subrange(0, k + 1) =~= more@.subrange(0, k as int).push(more@[k as int]));
        }
        k = k + 1;
    }
    proof {
        assert(more@.subrange(0, more@.len() as int) =~= more@);
    }
}

fn label_key_chars(label: &ModLibraryProjectionLabel) -> (r: Vec<char>)
    ensures
        r@ == label_key(*label),
{
    let mut out = opt_key_field_chars(&label.category_id);
    let name = key_field_chars(label.name.as_str());
    append_chars(&mut out, &name);
    let color = opt_key_field_chars(&label.color);
    append_chars(&mut out, &color);
    proof {
        assert(out@ =~= label_key(*label));
    }
    out
}

/// The indices `0..n`.
pub open spec fn indices(n: nat) -> Seq<usize> {
    Seq::new(n, |i: int| i as usize)
}

pub(crate) fn index_vec(n: usize) -> (r: Vec<usize>)
    ensures
        r@ == indices(n as nat),
{
    let mut out: Vec<usize> = Vec::new();
    let mut k: usize = 0;
    while k < n
        invariant
            0 <= k <= n,
            out@ == indices(k as nat),
        decreases n - k,
    {
        out.push(k);
        proof {
            assert(out@ =~= indices((k + 1) as nat));
        }
        k = k + 1;
    }
    out
}

pub open spec fn label_keys(labels: Seq<ModLibraryProjectionLabel>) -> Seq<Seq<char>> {
    labels.map_values(|l: ModLibraryProjectionLabel| label_key(l))
}

/// The labels of a record in key order.
pub open spec fn label_order(labels: Seq<ModLibraryProjectionLabel>) -> Seq<usize> {
    name_order(label_keys(labels), label_keys(labels), indices(labels.len()))
}

pub open spec fn labels_bytes(labels: Seq<ModLibraryProjectionLabel>, order: Seq<usize>) -> Seq<u8>
    decreases order.len(),
{
    if order.len() == 0 {
        Seq::empty()
    } else {
        labels_bytes(labels, order.drop_last()) + label_bytes(labels[order.last() as int])
    }
}

/// The fingerprint bytes of a record; its labels in key order, so that the order the catalog
/// lists them in does not matter.
pub open spec fn record_bytes(record: ModLibraryProjectionRecord) -> Seq<u8> {
    text_bytes(record.mod_id@) + text_bytes(record.display_revision_id@) + text_bytes(record.package_id@)
        + text_bytes(record.display_name@) + opt_text_bytes(opt_view(record.author)) + opt_text_bytes(
        opt_view(record.version_label),
    ) + opt_text_bytes(opt_view(record.external_import_adapter_id)) + text_bytes(record.size_label@)
        + preview_bytes(record.preview_image) + labels_bytes(record.labels@, label_order(record.labels@))
}

pub(crate) proof fn lemma_name_order_in_range(keys: Seq<Seq<char>>, rem: Seq<usize>, n: nat)
    requires
        forall|k: int| 0 <= k < rem.len() ==> #[trigger] rem[k] < n,
    ensures
        forall|k: int| 0 <= k < name_order(keys, keys, rem).len() ==> #[trigger] name_order(keys, keys, rem)[k] < n,
    decreases rem.len(),
{
    if rem.len() > 0 {
        let m = argmin_from(keys, keys, rem, 1, 0);
        if 0 <= m < rem.len() {
            let rest = rem.remove(m);
            assert forall|k: int| 0 <= k < rest.len() implies #[trigger] rest[k] < n by {
                if k < m {
                    assert(rest[k] == rem[k]);
                } else {
                    assert(rest[k] == rem[k + 1]);
                }
            }
            lemma_name_order_in_range(keys, rest, n);
            let whole = name_order(keys, keys, rem);
            assert forall|k: int| 0 <= k < whole.len() implies #[trigger] whole[k] < n by {
                if k > 0 {
                    assert(whole[k] == name_order(keys, keys, rest)[k - 1]);
                }
            }
        }
    }
}

fn push_labels(buf: &mut Vec<u8>, labels: &Vec<ModLibraryProjectionLabel>)
    ensures
        final(buf)@ == old(buf)@ + labels_bytes(labels@, label_order(labels@)),
{
    let mut keys: Vec<Vec<char>> = Vec::new();
    let mut k: usize = 0;
    while k < labels.len()
        invariant
            0 <= k <= labels@.len(),
            keys@.len() == k,
            forall|j: int| 0 <= j < k ==> (#[trigger] keys@[j])@ == label_key(labels@[j]),
        decreases labels@.len() - k,
    {
        keys.push(label_key_chars(&labels[k]));
        k = k + 1;
    }
    let ghost lk = label_keys(labels@);
    proof {
        assert(keys@.map_values(|v: Vec<char>| v@) =~= lk);
    }
    let order = sort_by_name(&keys, &keys, index_vec(labels.len()));
    proof {
        lemma_name_order_in_range(lk, indices(labels@.len()), labels@.len());
    }
    let mut j: usize = 0;
    while j < order.len()
        invariant
            order@ == label_order(labels@),
            forall|x: int| 0 <= x < order@.len() ==> #[trigger] order@[x] < labels@.len(),
            0 <= j <= order@.len(),
            buf@ == old(buf)@ + labels_bytes(labels@, order@.subrange(0, j as int)),
        decreases order@.len() - j,
    {
        let label = &labels[order[j]];
        push_opt_text(buf, &label.category_id);
        push_text(buf, label.name.as_str());
        push_opt_text(buf, &label.color);
        proof {
            assert(order@.subrange(0, j + 1).drop_last() =~= order@.subrange(0, j as int));
            assert(buf@ =~= old(buf)@ + labels_bytes(labels@, order@.subrange(0, j + 1)));
        }
        j = j + 1;
    }
    proof {
        assert(order@.subrange(0, order@.len() as int) =~= order@);
    }
}

#[verifier::rlimit(40)]
fn push_record(buf: &mut Vec<u8>, record: &ModLibraryProjectionRecord)
    ensures
        final(buf)@ == old(buf)@ + record_bytes(*record),
{
    push_text(buf, record.mod_id.as_str());
    push_text(buf, record.display_revision_id.as_str());
    push_text(buf, record.package_id.as_str());
    push_text(buf, record.display_name.as_str());
    push_opt_text(buf, &record.author);
    push_opt_text(buf, &record.version_label);
    push_opt_text(buf, &record.external_import_adapter_id);
    push_text(buf, record.size_label.as_str());
    push_preview(buf, &record.preview_image);
    push_labels(buf, &record.labels);
    proof {
        assert(buf@ =~= old(buf)@ + record_bytes(*record));
    }
}

pub open spec fn record_keys(records: Seq<ModLibraryProjectionRecord>) -> Seq<Seq<char>> {
    records.map_values(|r: ModLibraryProjectionRecord| r.mod_id@)
}

/// The records in Mod id order.
pub open spec fn record_order(records: Seq<ModLibraryProjectionRecord>) -> Seq<usize> {
    name_order(record_keys(records), record_keys(records), indices(records.len()))
}

pub open spec fn records_bytes(records: Seq<ModLibraryProjectionRecord>, order: Seq<usize>) -> Seq<u8>
    decreases order.len(),
{
    if order.len() == 0 {
        Seq::empty()
    } else {
        records_bytes(records, order.drop_last()) + record_bytes(records[order.last() as int])
    }
}

/// Fingerprint of the catalog rows a global projection is built from: the lowercase hex
/// SHA-256 of the rows' bytes in Mod id order.
pub fn fingerprint_records(records: &Vec<ModLibraryProjectionRecord>) -> (r: String)
    ensures
        r@ == hex_lower(spec_sha256(records_bytes(records@, record_order(records@)))),
{
    let mut keys: Vec<Vec<char>> = Vec::new();
    let mut k: usize = 0;
    while k < records.len()
        invariant
            0 <= k <= records@.len(),
            keys@.len() == k,
            forall|j: int| 0 <= j < k ==> (#[trigger] keys@[j])@ == records@[j].mod_id@,
        decreases records@.len() - k,
    {
        keys.push(chars_of(records[k].mod_id.as_str()));
        k = k + 1;
    }
    let ghost rk = record_keys(records@);
    proof {
        assert(keys@.map_values(|v: Vec<char>| v@) =~= rk);
    }
    let order = sort_by_name(&keys, &keys, index_vec(records.len()));
    proof {
        lemma_name_order_in_range(rk, indices(records@.len()), records@.len());
    }
    let mut buf: Vec<u8> = Vec::new();
    let mut j: usize = 0;
    while j < order.len()
        invariant
            order@ == record_order(records@),
            forall|x: int| 0 <= x < order@.len() ==> #[trigger] order@[x] < records@.len(),
            0 <= j <= order@.len(),
            buf@ == records_bytes(records@, order@.subrange(0, j as int)),
        decreases order@.len() - j,
    {
        push_record(&mut buf, &records[order[j]]);
        proof {
            assert(order@.subrange(0, j + 1).drop_last() =~= order@.subrange(0, j as int));
        }
        j = j + 1;
    }
    proof {
        assert(order@.subrange(0, order@.len() as int) =~= order@);
    }
    let digest = sha256_digest(buf.as_slice());
    hex_encode(digest.as_slice())
}

/// The fingerprint bytes of an install summary.
pub open spec fn summary_bytes(summary: InstallManifestStatusSummary) -> Seq<u8> {
    text_bytes(summary.mod_id@) + text_bytes(query_status_code(query_status_spec(summary.status))) + text_bytes(
        decimal(summary.managed_file_count as nat),
    ) + text_bytes(decimal(summary.backup_count as nat))
}

pub open spec fn summary_keys(summaries: Seq<InstallManifestStatusSummary>) -> Seq<Seq<char>> {
    summaries.map_values(|s: InstallManifestStatusSummary| s.mod_id@)
}

pub open spec fn summary_order(summaries: Seq<InstallManifestStatusSummary>) -> Seq<usize> {
    name_order(summary_keys(summaries), summary_keys(summaries), indices(summaries.len()))
}

pub open spec fn summaries_bytes(summaries: Seq<InstallManifestStatusSummary>, order: Seq<usize>) -> Seq<u8>
    decreases order.len(),
{
    if order.len() == 0 {
        Seq::empty()
    } else {
        summaries_bytes(summaries, order.drop_last()) + summary_bytes(summaries[order.last() as int])
    }
}

/// Fingerprint of the install facts a profile projection is built from: the lowercase hex
/// SHA-256 of the summaries' bytes in Mod id order.
pub fn fingerprint_summaries(summaries: &Vec<InstallManifestStatusSummary>) -> (r: String)
    ensures
        r@ == hex_lower(spec_sha256(summaries_bytes(summaries@, summary_order(summaries@)))),
{
    let mut keys: Vec<Vec<char>> = Vec::new();
    let mut k: usize = 0;
    while k < summaries.len()
        invariant
            0 <= k <= summaries@.len(),
            keys@.len() == k,
            forall|j: int| 0 <= j < k ==> (#[trigger] keys@[j])@ == summaries@[j].mod_id@,
        decreases summaries@.len() - k,
    {
        keys.push(chars_of(summaries[k].mod_id.as_str()));
        k = k + 1;
    }
    let ghost sk = summary_keys(summaries@);
    proof {
        assert(keys@.map_values(|v: Vec<char>| v@) =~= sk);
    }
    let order = sort_by_name(&keys, &keys, index_vec(summaries.len()));
    proof {
        lemma_name_order_in_range(sk, indices(summaries@.len()), summaries@.len());
    }
    let mut buf: Vec<u8> = Vec::new();
    let mut j: usize = 0;
    while j < order.len()
        invariant
            order@ == summary_order(summaries@),
            forall|x: int| 0 <= x < order@.len() ==> #[trigger] order@[x] < summaries@.len(),
            0 <= j <= order@.len(),
            buf@ == summaries_bytes(summaries@, order@.subrange(0, j as int)),
        decreases order@.len() - j,
    {
        let summary = &summaries[order[j]];
        push_text(&mut buf, summary.mod_id.as_str());
        push_text(&mut buf, status_to_query_status(summary.status).as_str());
        let managed = decimal_string(summary.managed_file_count as u128);
        push_text(&mut buf, managed.as_str());
        let backups = decimal_string(summary.backup_count as u128);
        push_text(&mut buf, backups.as_str());
        proof {
            assert(order@.subrange(0, j + 1).drop_last() =~= order@.subrange(0, j as int));
            assert(buf@ =~= summaries_bytes(summaries@, order@.subrange(0, j + 1)));
        }
        j = j + 1;
    }
    proof {
        assert(order@.subrange(0, order@.len() as int) =~= order@);
    }
    let digest = sha256_digest(buf.as_slice());
    hex_encode(digest.as_slice())
}


/// The page item a projected row shows as, in `context`.
pub open spec fn shown_row(
    row: ModLibraryProjectionPageItem,
    context: Option<ModLibraryProfileContext>,
    item: ModLibraryPageItem,
) -> bool {
    &&& item_from_record(row.record, item.item)
    &&& match context {
        Some(c) => item.install_summary matches Some(s) && summary_from_row(c, row.record.mod_id@, row.status, s),
        None => item.install_summary is None,
    }
}

pub open spec fn some_context(context: Option<&ModLibraryProfileContext>) -> Option<ModLibraryProfileContext> {
    match context {
        Some(c) => Some(*c),
        None => None,
    }
}

/// The library page of a projection page: every row shown in order, or the refusal of the
/// first row that cannot be shown.
pub fn page_from_projection(page: ModLibraryProjectionPage, context: Option<&ModLibraryProfileContext>) -> (r:
    Result<ModLibraryPage, ModLibraryQueryError>)
    ensures
        r matches Ok(p) ==> p.items@.len() == page.items@.len() && p.page == page.page && p.page_size
            == page.page_size && p.library_total == page.library_total && p.matching_total
            == page.matching_total && forall|k: int|
            0 <= k < page.items@.len() ==> shown_row(page.items@[k], some_context(context), #[trigger] p.items@[k]),
        r matches Err(e) ==> exists|k: int|
            0 <= k < page.items@.len() && row_refusal(
                (#[trigger] page.items@[k]).record,
                page.items@[k].status,
                some_context(context),
            ) == Some(e),
        (forall|k: int|
            0 <= k < page.items@.len() ==> row_refusal(
                (#[trigger] page.items@[k]).record,
                page.items@[k].status,
                some_context(context),
            ) is None) ==> r is Ok,
{
    let ModLibraryProjectionPage { items, page: number, page_size, library_total, matching_total } = page;
    let ghost rows = items@;
    let mut shown: Vec<ModLibraryPageItem> = Vec::new();
    let total = items.len();
    let mut rest = items;
    let mut k: usize = 0;
    while rest.len() > 0
        invariant
            rows == page.items@,
            rows.len() == total,
            k + rest@.len() == rows.len(),
            shown@.len() == k,
            rest@ == rows.subrange(k as int, rows.len() as int),
            forall|j: int| 0 <= j < k ==> shown_row(rows[j], some_context(context), #[trigger] shown@[j]),
            forall|j: int| 0 <= j < k ==> row_refusal(#[trigger] rows[j].record, rows[j].status, some_context(context)) is None,
        decreases rest@.len(),
    {
        let row = rest.remove(0);
        proof {
            assert(row == rows[k as int]);
            assert(rest@ =~= rows.subrange(k + 1, rows.len() as int));
        }
        match projection_page_item_to_app(row, context) {
            Ok(item) => {
                shown.push(item);
            },
            Err(e) => {
                proof {
                    assert(row_refusal(rows[k as int].record, rows[k as int].status, some_context(context))
                        == Some(e));
                }
                return Err(e);
            },
        }
        k = k + 1;
    }
    Ok(ModLibraryPage { items: shown, page: number, page_size, library_total, matching_total })
}

/// The global projection's storage.
pub trait ModLibraryProjectionRepository {
    fn state(&self) -> Result<ModLibraryProjectionState, PortFailure>;

    fn mark_dirty(&self, observed_source_fingerprint: Option<&str>) -> Result<(), PortFailure>;

    fn rebuild(&self, snapshot: &ModLibraryProjectionSnapshot) -> Result<ModLibraryProjectionState, PortFailure>;

    fn profile_state(&self, profile_id: &ProfileId) -> Result<Option<ModLibraryProfileProjectionState>, PortFailure>;

    fn mark_profile_dirty(&self, profile_id: &ProfileId, observed_source_fingerprint: Option<&str>) -> Result<
        (),
        PortFailure,
    >;

    fn replace_profile(&self, projection: &ModLibraryProfileProjection) -> Result<
        ModLibraryProfileProjectionState,
        PortFailure,
    >;
}

/// Reads the current catalog rows the projection mirrors.
pub trait ModLibraryProjectionRecordSource {
    fn get_mod_library_projection_records(&self) -> Result<Vec<ModLibraryProjectionRecord>, PortFailure>;
}

/// What authoritative writes have reported about the projection's freshness, and the
/// exclusion between a refresh and those writes.
pub trait ProjectionFreshness {
    /// Waits until no authoritative write is in progress and keeps new ones out.
    fn begin_refresh(&self) -> Result<(), PortFailure>;

    fn end_refresh(&self);

    fn global_is_unavailable(&self) -> bool;

    fn profile_is_unavailable(&self, profile_id: &ProfileId) -> bool;

    fn clear_profile(&self, profile_id: &ProfileId);
}

/// Pages through the projection.
pub trait ModLibraryProjectionQueryRepository {
    fn query(&self, request: &ModLibraryProjectionQueryRequest) -> Result<
        ModLibraryProjectionPage,
        ModLibraryProjectionQueryError,
    >;
}

pub open spec fn status_row(summary: InstallManifestStatusSummary, status: ModLibraryProjectionStatus) -> ModLibraryProjectionStatusRecord {
    ModLibraryProjectionStatusRecord {
        mod_id: summary.mod_id,
        status,
        managed_file_count: summary.managed_file_count as u64,
        backup_count: summary.backup_count as u64,
    }
}

/// The rows a profile projection stores for install summaries: one per installed Mod, in
/// order; an unknown status cannot be stored.
pub open spec fn status_rows(summaries: Seq<InstallManifestStatusSummary>) -> Result<
    Seq<ModLibraryProjectionStatusRecord>,
    ModLibraryQueryError,
>
    decreases summaries.len(),
{
    if summaries.len() == 0 {
        Ok(Seq::empty())
    } else {
        match status_rows(summaries.drop_last()) {
            Err(e) => Err(e),
            Ok(rows) => match projection_status_spec(summaries.last().status) {
                Err(e) => Err(e),
                Ok(None) => Ok(rows),
                Ok(Some(p)) => Ok(rows.push(status_row(summaries.last(), p))),
            },
        }
    }
}

pub fn profile_status_rows(summaries: &Vec<InstallManifestStatusSummary>) -> (r: Result<
    Vec<ModLibraryProjectionStatusRecord>,
    ModLibraryQueryError,
>)
    ensures
        match status_rows(summaries@) {
            Ok(rows) => r matches Ok(v) && v@ == rows,
            Err(e) => r == Err::<Vec<ModLibraryProjectionStatusRecord>, _>(e),
        },
{
    let mut rows: Vec<ModLibraryProjectionStatusRecord> = Vec::new();
    let mut k: usize = 0;
    while k < summaries.len()
        invariant
            0 <= k <= summaries@.len(),
            status_rows(summaries@.subrange(0, k as int)) == Ok::<_, ModLibraryQueryError>(rows@),
        decreases summaries@.len() - k,
    {
        let summary = &summaries[k];
        proof {
            assert(summaries@.subrange(0, k + 1).drop_last() =~= summaries@.subrange(0, k as int));
            assert(summaries@.subrange(0, k + 1).last() == summaries@[k as int]);
        }
        match projection_status(summary.status) {
            Err(e) => {
                proof {
                    lemma_status_rows_err_extends(summaries@, (k + 1) as nat);
                }
                return Err(e);
            },
            Ok(None) => {},
            Ok(Some(status)) => {
                rows.push(
                    ModLibraryProjectionStatusRecord {
                        mod_id: summary.mod_id.duplicate(),
                        status,
                        managed_file_count: summary.managed_file_count as u64,
                        backup_count: summary.backup_count as u64,
                    },
                );
            },
        }
        k = k + 1;
    }
    proof {
        assert(summaries@.subrange(0, summaries@.len() as int) =~= summaries@);
    }
    Ok(rows)
}

/// Once a prefix of the summaries cannot be stored, no longer prefix can.
proof fn lemma_status_rows_err_extends(summaries: Seq<InstallManifestStatusSummary>, k: nat)
    requires
        k <= summaries.len(),
        status_rows(summaries.subrange(0, k as int)) is Err,
    ensures
        status_rows(summaries) == status_rows(summaries.subrange(0, k as int)),
    decreases summaries.len() - k,
{
    if k < summaries.len() {
        assert(summaries.subrange(0, k + 1 as int).drop_last() =~= summaries.subrange(0, k as int));
        lemma_status_rows_err_extends(summaries, k + 1);
    } else {
        assert(summaries.subrange(0, k as int) =~= summaries);
    }
}

/// Keeps the persisted projection in step with the catalog and the install manifests.
pub struct ModLibraryProjectionRefreshService<
    L: ModLibraryProjectionRecordSource,
    P: ModLibraryStatusProvider,
    R: ModLibraryProjectionRepository,
    F: ProjectionFreshness,
> {
    library_service: L,
    status_provider: P,
    repository: R,
    freshness_guard: F,
}

impl<
    L: ModLibraryProjectionRecordSource,
    P: ModLibraryStatusProvider,
    R: ModLibraryProjectionRepository,
    F: ProjectionFreshness,
> ModLibraryProjectionRefreshService<L, P, R, F> {
    pub closed spec fn library_service_spec(&self) -> L {
        self.library_service
    }

    pub closed spec fn status_provider_spec(&self) -> P {
        self.status_provider
    }

    pub closed spec fn repository_spec(&self) -> R {
        self.repository
    }

    pub closed spec fn freshness_guard_spec(&self) -> F {
        self.freshness_guard
    }

    pub fn new(library_service: L, status_provider: P, repository: R, freshness_guard: F) -> (r: Self)
        ensures
            r.library_service_spec() == library_service,
            r.status_provider_spec() == status_provider,
            r.repository_spec() == repository,
            r.freshness_guard_spec() == freshness_guard,
    {
        ModLibraryProjectionRefreshService { library_service, status_provider, repository, freshness_guard }
    }

    /// Makes sure the global projection, and the profile projection of `profile_context`,
    /// are complete, rebuilding what is not; returns the global state and the profile's
    /// fingerprint (present exactly when a profile was asked for).
    pub fn ensure(&self, profile_context: Option<&ModLibraryProfileContext>) -> (r: Result<
        (ModLibraryProjectionState, Option<String>),
        ModLibraryQueryError,
    >)
        ensures
            r matches Ok(v) ==> (v.1 is Some <==> profile_context is Some),
            r matches Err(e) ==> (e == ModLibraryQueryError::LibraryUnavailable || e
                == ModLibraryQueryError::StatusUnavailable),
    {
        match self.freshness_guard.begin_refresh() {
            Err(_) => {
                return Err(ModLibraryQueryError::LibraryUnavailable);
            },
            Ok(()) => {},
        }
        let result = self.ensure_during_refresh(profile_context);
        self.freshness_guard.end_refresh();
        result
    }

    fn ensure_during_refresh(&self, profile_context: Option<&ModLibraryProfileContext>) -> (r: Result<
        (ModLibraryProjectionState, Option<String>),
        ModLibraryQueryError,
    >)
        ensures
            r matches Ok(v) ==> (v.1 is Some <==> profile_context is Some),
            r matches Err(e) ==> (e == ModLibraryQueryError::LibraryUnavailable || e
                == ModLibraryQueryError::StatusUnavailable),
    {
        if self.freshness_guard.global_is_unavailable() {
            return Err(ModLibraryQueryError::LibraryUnavailable);
        }
        let mut records: Option<Vec<ModLibraryProjectionRecord>> = None;
        let mut state = match self.repository.state() {
            Ok(s) => s,
            Err(_) => {
                return Err(ModLibraryQueryError::LibraryUnavailable);
            },
        };
        let current = match &state.source_fingerprint {
            Some(f) => state.is_complete_for(f.as_str()),
            None => false,
        };
        if !current {
            match self.repository.mark_dirty(None) {
                Err(_) => {
                    return Err(ModLibraryQueryError::LibraryUnavailable);
                },
                Ok(()) => {},
            }
            let current_records = match self.library_service.get_mod_library_projection_records() {
                Ok(r) => r,
                Err(_) => {
                    return Err(ModLibraryQueryError::LibraryUnavailable);
                },
            };
            let source_fingerprint = fingerprint_records(&current_records);
            let snapshot = ModLibraryProjectionSnapshot {
                source_fingerprint,
                records: current_records,
                profiles: Vec::new(),
            };
            state = match self.repository.rebuild(&snapshot) {
                Ok(s) => s,
                Err(_) => {
                    return Err(ModLibraryQueryError::LibraryUnavailable);
                },
            };
            let ModLibraryProjectionSnapshot { records: rebuilt_from, .. } = snapshot;
            records = Some(rebuilt_from);
        }
        let profile_fingerprint = match profile_context {
            Some(context) => {
                if self.freshness_guard.profile_is_unavailable(&context.profile_id) {
                    return Err(ModLibraryQueryError::StatusUnavailable);
                }
                let current_profile = match self.repository.profile_state(&context.profile_id) {
                    Ok(p) => p,
                    Err(_) => {
                        return Err(ModLibraryQueryError::StatusUnavailable);
                    },
                };
                let kept = match current_profile {
                    Some(profile) => match (profile.readiness, profile.source_fingerprint) {
                        (ModLibraryProjectionReadiness::Complete, Some(f)) => Some(f),
                        _ => None,
                    },
                    None => None,
                };
                match kept {
                    Some(f) => Some(f),
                    None => match self.rebuild_profile(context, &mut records) {
                        Ok(f) => Some(f),
                        Err(e) => {
                            return Err(e);
                        },
                    },
                }
            },
            None => None,
        };
        Ok((state, profile_fingerprint))
    }

    /// Rebuilds the status projection of one profile from the install summaries of the
    /// current catalog rows (reusing `records` when the global rebuild just read them) and
    /// returns its fingerprint.
    fn rebuild_profile(
        &self,
        context: &ModLibraryProfileContext,
        records: &mut Option<Vec<ModLibraryProjectionRecord>>,
    ) -> (r: Result<String, ModLibraryQueryError>)
        ensures
            r matches Err(e) ==> e == ModLibraryQueryError::StatusUnavailable,
            r is Ok ==> (*final(records)) is None,
            (*old(records)) is None ==> (*final(records)) is None,
            r matches Ok(fp) ==> exists|s: Seq<InstallManifestStatusSummary>|
                fp@ == hex_lower(spec_sha256(#[trigger] summaries_bytes(s, summary_order(s)))),
    {
        match self.repository.mark_profile_dirty(&context.profile_id, None) {
            Err(_) => {
                return Err(ModLibraryQueryError::StatusUnavailable);
            },
            Ok(()) => {},
        }
        let current_records = match records.take() {
            Some(r) => r,
            None => match self.library_service.get_mod_library_projection_records() {
                Ok(r) => r,
                Err(_) => {
                    return Err(ModLibraryQueryError::StatusUnavailable);
                },
            },
        };
        let mut mod_ids: Vec<ModId> = Vec::new();
        let mut k: usize = 0;
        while k < current_records.len()
            invariant
                0 <= k <= current_records@.len(),
                mod_ids@.len() == k,
            decreases current_records@.len() - k,
        {
            mod_ids.push(current_records[k].mod_id.duplicate());
            k = k + 1;
        }
        match ensure_unique_mod_ids(mod_ids.as_slice()) {
            Err(_) => {
                return Err(ModLibraryQueryError::StatusUnavailable);
            },
            Ok(()) => {},
        }
        let summaries = match self.status_provider.query_statuses(context, mod_ids.as_slice()) {
            Ok(s) => s,
            Err(_) => {
                return Err(ModLibraryQueryError::StatusUnavailable);
            },
        };
        let aligned = match validated_statuses(context, mod_ids.as_slice(), &summaries) {
            Ok(a) => a,
            Err(_) => {
                return Err(ModLibraryQueryError::StatusUnavailable);
            },
        };
        let statuses = match profile_status_rows(&aligned) {
            Ok(rows) => rows,
            Err(_) => {
                return Err(ModLibraryQueryError::StatusUnavailable);
            },
        };
        let fingerprint = fingerprint_summaries(&aligned);
        let projection = ModLibraryProfileProjection {
            profile_id: context.profile_id.duplicate(),
            source_fingerprint: fingerprint.clone(),
            statuses,
        };
        match self.repository.replace_profile(&projection) {
            Err(_) => {
                return Err(ModLibraryQueryError::StatusUnavailable);
            },
            Ok(_) => {},
        }
        self.freshness_guard.clear_profile(&context.profile_id);
        proof {
            assert(fingerprint@ == hex_lower(spec_sha256(summaries_bytes(aligned@, summary_order(aligned@)))));
        }
        Ok(fingerprint)
    }
}

/// Library queries answered from the persisted projection.
pub struct ModLibraryProjectionQueryService<
    Q: ModLibraryProjectionQueryRepository,
    L: ModLibraryProjectionRecordSource,
    P: ModLibraryStatusProvider,
    R: ModLibraryProjectionRepository,
    F: ProjectionFreshness,
> {
    query_repository: Q,
    refresh_service: ModLibraryProjectionRefreshService<L, P, R, F>,
}

impl<
    Q: ModLibraryProjectionQueryRepository,
    L: ModLibraryProjectionRecordSource,
    P: ModLibraryStatusProvider,
    R: ModLibraryProjectionRepository,
    F: ProjectionFreshness,
> ModLibraryProjectionQueryService<Q, L, P, R, F> {
    pub closed spec fn query_repository_spec(&self) -> Q {
        self.query_repository
    }

    pub closed spec fn refresh_service_spec(&self) -> ModLibraryProjectionRefreshService<L, P, R, F> {
        self.refresh_service
    }

    pub fn new_projection(query_repository: Q, refresh_service: ModLibraryProjectionRefreshService<L, P, R, F>) -> (r:
        Self)
        ensures
            r.query_repository_spec() == query_repository,
            r.refresh_service_spec() == refresh_service,
    {
        ModLibraryProjectionQueryService { query_repository, refresh_service }
    }

    /// Validates the query, brings the projection up to date, asks it for the page and shows
    /// its rows.
    pub fn query(&self, query: ModLibraryQuery) -> (r: Result<ModLibraryPage, ModLibraryQueryError>)
        ensures
            validate_query_spec(query) is Err ==> r == Err::<ModLibraryPage, _>(validate_query_spec(query)->Err_0),
    {
        match validate_query(&query) {
            Err(e) => {
                return Err(e);
            },
            Ok(()) => {},
        }
        let context = match &query.profile_context {
            Some(c) => Some(c),
            None => None,
        };
        let (state, profile_fingerprint) = match self.refresh_service.ensure(context) {
            Ok(v) => v,
            Err(e) => {
                return Err(e);
            },
        };
        let request = match projection_query_request(&query, &state, profile_fingerprint) {
            Ok(r) => r,
            Err(e) => {
                return Err(e);
            },
        };
        let page = match self.query_repository.query(&request) {
            Ok(p) => p,
            Err(e) => {
                return Err(map_projection_query_error(e));
            },
        };
        page_from_projection(page, context)
    }
}

} // verus!
