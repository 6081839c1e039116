//! Preview-image diagnostics: counts over the import analyses, the reasons of fallbacks, and
//! which categories of data an exported diagnostics package includes.
use crate::text::{decimal, decimal_string};
use vstd::prelude::*;

verus! {

/// Why an imported package has no thumbnail.
#[derive(Debug, Clone, Copy, PartialEq, Eq, Structural)]
pub enum PreviewImageRejectionReason {
    Missing,
    TooLarge,
    TooManyCandidates,
    UnsupportedFormat,
    DecodeFailed,
    PixelLimitExceeded,
    CacheWriteFailed,
}

/// Preview image recorded for an imported package.
#[derive(Debug, Clone, PartialEq, Eq)]
pub enum StoredImportPreviewImage {
    Thumbnail { thumbnail_url: String, width: u32, height: u32, content_hash: String, variant: String },
    Fallback { reason: PreviewImageRejectionReason },
}

#[derive(Debug, Clone, Copy, PartialEq, Eq, Structural)]
pub struct PreviewImageFallbackDiagnostic {
    pub reason: PreviewImageRejectionReason,
    pub count: usize,
}

#[derive(Debug, Clone, Copy, PartialEq, Eq, Structural)]
pub enum PreviewImageDiagnosticExportCategoryId {
    PreviewImageSummary,
    ThumbnailFiles,
    ThumbnailUrls,
    RawPackageContent,
}

#[derive(Debug, Clone, Copy, PartialEq, Eq, Structural)]
pub enum PreviewImageDiagnosticExportCategoryStatus {
    Included,
    Excluded,
}

#[derive(Debug, Clone, Copy, PartialEq, Eq, Structural)]
pub enum PreviewImageDiagnosticExportExclusionReason {
    DerivedImageContent,
    OpaqueResourceReference,
    ThirdPartyModContent,
}

#[derive(Debug, Clone, Copy, PartialEq, Eq, Structural)]
pub struct PreviewImageDiagnosticExportCategory {
    pub category: PreviewImageDiagnosticExportCategoryId,
    pub status: PreviewImageDiagnosticExportCategoryStatus,
    pub reason: Option<PreviewImageDiagnosticExportExclusionReason>,
}

#[derive(Debug, Clone, PartialEq, Eq)]
pub struct PreviewImageDiagnosticsSummary {
    pub total_imported_mods: usize,
    pub thumbnail_count: usize,
    pub fallback_count: usize,
    pub fallback_reasons: Vec<PreviewImageFallbackDiagnostic>,
    pub export_categories: Vec<PreviewImageDiagnosticExportCategory>,
}

pub const PREVIEW_IMAGE_DIAGNOSTICS_ENTRY_NAME: &'static str = "preview-image-diagnostics.json";

/// The export policy: the summary is included; thumbnails, their URLs and raw package content
/// are excluded, each for its reason.
pub open spec fn export_categories_spec() -> Seq<PreviewImageDiagnosticExportCategory> {
    seq![
        PreviewImageDiagnosticExportCategory {
            category: PreviewImageDiagnosticExportCategoryId::PreviewImageSummary,
            status: PreviewImageDiagnosticExportCategoryStatus::Included,
            reason: None,
        },
        PreviewImageDiagnosticExportCategory {
            category: PreviewImageDiagnosticExportCategoryId::ThumbnailFiles,
            status: PreviewImageDiagnosticExportCategoryStatus::Excluded,
            reason: Some(PreviewImageDiagnosticExportExclusionReason::DerivedImageContent),
        },
        PreviewImageDiagnosticExportCategory {
            category: PreviewImageDiagnosticExportCategoryId::ThumbnailUrls,
            status: PreviewImageDiagnosticExportCategoryStatus::Excluded,
            reason: Some(PreviewImageDiagnosticExportExclusionReason::OpaqueResourceReference),
        },
        PreviewImageDiagnosticExportCategory {
            category: PreviewImageDiagnosticExportCategoryId::RawPackageContent,
            status: PreviewImageDiagnosticExportCategoryStatus::Excluded,
            reason: Some(PreviewImageDiagnosticExportExclusionReason::ThirdPartyModContent),
        },
    ]
}

pub fn preview_image_diagnostic_export_categories() -> (r: Vec<PreviewImageDiagnosticExportCategory>)
    ensures
        r@ == export_categories_spec(),
{
    let mut v: Vec<PreviewImageDiagnosticExportCategory> = Vec::new();
    v.push(
        PreviewImageDiagnosticExportCategory {
            category: PreviewImageDiagnosticExportCategoryId::PreviewImageSummary,
            status: PreviewImageDiagnosticExportCategoryStatus::Included,
            reason: None,
        },
    );
    v.push(
        PreviewImageDiagnosticExportCategory {
            category: PreviewImageDiagnosticExportCategoryId::ThumbnailFiles,
            status: PreviewImageDiagnosticExportCategoryStatus::Excluded,
            reason: Some(PreviewImageDiagnosticExportExclusionReason::DerivedImageContent),
        },
    );
    v.push(
        PreviewImageDiagnosticExportCategory {
            category: PreviewImageDiagnosticExportCategoryId::ThumbnailUrls,
            status: PreviewImageDiagnosticExportCategoryStatus::Excluded,
            reason: Some(PreviewImageDiagnosticExportExclusionReason::OpaqueResourceReference),
        },
    );
    v.push(
        PreviewImageDiagnosticExportCategory {
            category: PreviewImageDiagnosticExportCategoryId::RawPackageContent,
            status: PreviewImageDiagnosticExportCategoryStatus::Excluded,
            reason: Some(PreviewImageDiagnosticExportExclusionReason::ThirdPartyModContent),
        },
    );
    proof {
        assert(v@ =~= export_categories_spec());
    }
    v
}

pub open spec fn rejection_reason_key(reason: PreviewImageRejectionReason) -> Seq<char> {
    match reason {
        PreviewImageRejectionReason::Missing => "missing"@,
        PreviewImageRejectionReason::TooLarge => "too_large"@,
        PreviewImageRejectionReason::TooManyCandidates => "too_many_candidates"@,
        PreviewImageRejectionReason::UnsupportedFormat => "unsupported_format"@,
        PreviewImageRejectionReason::DecodeFailed => "decode_failed"@,
        PreviewImageRejectionReason::PixelLimitExceeded => "pixel_limit_exceeded"@,
        PreviewImageRejectionReason::CacheWriteFailed => "cache_write_failed"@,
    }
}

pub fn preview_image_rejection_reason_key(reason: PreviewImageRejectionReason) -> (r: &'static str)
    ensures
        r@ == rejection_reason_key(reason),
{
    match reason {
        PreviewImageRejectionReason::Missing => "missing",
        PreviewImageRejectionReason::TooLarge => "too_large",
        PreviewImageRejectionReason::TooManyCandidates => "too_many_candidates",
        PreviewImageRejectionReason::UnsupportedFormat => "unsupported_format",
        PreviewImageRejectionReason::DecodeFailed => "decode_failed",
        PreviewImageRejectionReason::PixelLimitExceeded => "pixel_limit_exceeded",
        PreviewImageRejectionReason::CacheWriteFailed => "cache_write_failed",
    }
}

pub open spec fn category_key(category: PreviewImageDiagnosticExportCategoryId) -> Seq<char> {
    match category {
        PreviewImageDiagnosticExportCategoryId::PreviewImageSummary => "preview_image_summary"@,
        PreviewImageDiagnosticExportCategoryId::ThumbnailFiles => "thumbnail_files"@,
        PreviewImageDiagnosticExportCategoryId::ThumbnailUrls => "thumbnail_urls"@,
        PreviewImageDiagnosticExportCategoryId::RawPackageContent => "raw_package_content"@,
    }
}

pub fn diagnostic_export_category_key(category: PreviewImageDiagnosticExportCategoryId) -> (r:
    &'static str)
    ensures
        r@ == category_key(category),
{
    match category {
        PreviewImageDiagnosticExportCategoryId::PreviewImageSummary => "preview_image_summary",
        PreviewImageDiagnosticExportCategoryId::ThumbnailFiles => "thumbnail_files",
        PreviewImageDiagnosticExportCategoryId::ThumbnailUrls => "thumbnail_urls",
        PreviewImageDiagnosticExportCategoryId::RawPackageContent => "raw_package_content",
    }
}

pub open spec fn category_status_key(status: PreviewImageDiagnosticExportCategoryStatus) -> Seq<
    char,
> {
    match status {
        PreviewImageDiagnosticExportCategoryStatus::Included => "included"@,
        PreviewImageDiagnosticExportCategoryStatus::Excluded => "excluded"@,
    }
}

pub fn diagnostic_export_category_status_key(status: PreviewImageDiagnosticExportCategoryStatus) -> (r:
    &'static str)
    ensures
        r@ == category_status_key(status),
{
    match status {
        PreviewImageDiagnosticExportCategoryStatus::Included => "included",
        PreviewImageDiagnosticExportCategoryStatus::Excluded => "excluded",
    }
}

pub open spec fn exclusion_reason_key(reason: PreviewImageDiagnosticExportExclusionReason) -> Seq<
    char,
> {
    match reason {
        PreviewImageDiagnosticExportExclusionReason::DerivedImageContent => "derived_image_content"@,
        PreviewImageDiagnosticExportExclusionReason::OpaqueResourceReference =>
            "opaque_resource_reference"@,
        PreviewImageDiagnosticExportExclusionReason::ThirdPartyModContent =>
            "third_party_mod_content"@,
    }
}

pub fn diagnostic_export_exclusion_reason_key(reason: PreviewImageDiagnosticExportExclusionReason) -> (r:
    &'static str)
    ensures
        r@ == exclusion_reason_key(reason),
{
    match reason {
        PreviewImageDiagnosticExportExclusionReason::DerivedImageContent => "derived_image_content",
        PreviewImageDiagnosticExportExclusionReason::OpaqueResourceReference =>
            "opaque_resource_reference",
        PreviewImageDiagnosticExportExclusionReason::ThirdPartyModContent =>
            "third_party_mod_content",
    }
}

/// Number of thumbnails among `previews`.
pub open spec fn thumbnail_count_spec(previews: Seq<StoredImportPreviewImage>) -> nat
    decreases previews.len(),
{
    if previews.len() == 0 {
        0
    } else {
        thumbnail_count_spec(previews.drop_last()) + if previews.last() is Thumbnail {
            1nat
        } else {
            0nat
        }
    }
}

/// Number of fallbacks with `reason` among `previews`.
pub open spec fn reason_count(previews: Seq<StoredImportPreviewImage>, reason: PreviewImageRejectionReason) -> nat
    decreases previews.len(),
{
    if previews.len() == 0 {
        0
    } else {
        reason_count(previews.drop_last(), reason) + if previews.last() matches
            StoredImportPreviewImage::Fallback { reason: r } && r == reason {
            1nat
        } else {
            0nat
        }
    }
}

/// Number of fallbacks among `previews`.
pub open spec fn fallback_count_spec(previews: Seq<StoredImportPreviewImage>) -> nat
    decreases previews.len(),
{
    if previews.len() == 0 {
        0
    } else {
        fallback_count_spec(previews.drop_last()) + if previews.last() is Fallback {
            1nat
        } else {
            0nat
        }
    }
}

/// The distinct fallback reasons of `previews`, in the order they first occur.
pub open spec fn reasons_in_order(previews: Seq<StoredImportPreviewImage>) -> Seq<PreviewImageRejectionReason>
    decreases previews.len(),
{
    if previews.len() == 0 {
        Seq::empty()
    } else {
        let prev = reasons_in_order(previews.drop_last());
        match previews.last() {
            StoredImportPreviewImage::Fallback { reason } => if prev.contains(reason) {
                prev
            } else {
                prev.push(reason)
            },
            _ => prev,
        }
    }
}

/// The fallback histogram of `previews`: one entry per distinct reason in first-occurrence
/// order, with the number of fallbacks of that reason.
pub open spec fn fallback_histogram(previews: Seq<StoredImportPreviewImage>) -> Seq<PreviewImageFallbackDiagnostic> {
    reasons_in_order(previews).map_values(
        |reason: PreviewImageRejectionReason|
            PreviewImageFallbackDiagnostic { reason, count: reason_count(previews, reason) as usize },
    )
}

/// Summarizes the preview outcome of every import analysis.
pub fn preview_image_diagnostics_from_stored(previews: &Vec<StoredImportPreviewImage>) -> (r:
    PreviewImageDiagnosticsSummary)
    ensures
        r.total_imported_mods == previews@.len(),
        r.thumbnail_count == thumbnail_count_spec(previews@),
        r.fallback_count == fallback_count_spec(previews@),
        r.fallback_reasons@ == fallback_histogram(previews@),
        r.export_categories@ == export_categories_spec(),
        r.thumbnail_count + r.fallback_count == r.total_imported_mods,
{
    let n = previews.len();
    let mut thumbnails: usize = 0;
    let mut fallbacks: usize = 0;
    let mut reasons: Vec<PreviewImageFallbackDiagnostic> = Vec::new();
    let mut i: usize = 0;
    while i < n
        invariant
            n == previews@.len(),
            0 <= i <= n,
            thumbnails == thumbnail_count_spec(previews@.take(i as int)),
            fallbacks == fallback_count_spec(previews@.take(i as int)),
            thumbnails + fallbacks == i,
            reasons@ == fallback_histogram(previews@.take(i as int)),
        decreases n - i,
    {
        let ghost prefix = previews@.take(i as int);
        let ghost next = previews@.take(i + 1);
        proof {
            assert(next.drop_last() =~= prefix);
            assert(next.last() == previews@[i as int]);
        }
        match &previews[i] {
            StoredImportPreviewImage::Thumbnail { .. } => {
                thumbnails = thumbnails + 1;
                proof {
                    lemma_histogram_step(prefix, next);
                }
            },
            StoredImportPreviewImage::Fallback { reason } => {
                fallbacks = fallbacks + 1;
                increment_fallback_reason(&mut reasons, *reason, Ghost(prefix), Ghost(next));
            },
        }
        i = i + 1;
    }
    proof {
        assert(previews@.take(n as int) =~= previews@);
    }
    PreviewImageDiagnosticsSummary {
        total_imported_mods: n,
        thumbnail_count: thumbnails,
        fallback_count: fallbacks,
        fallback_reasons: reasons,
        export_categories: preview_image_diagnostic_export_categories(),
    }
}

proof fn lemma_reason_count_le(previews: Seq<StoredImportPreviewImage>, reason: PreviewImageRejectionReason)
    ensures
        reason_count(previews, reason) <= previews.len(),
    decreases previews.len(),
{
    if previews.len() > 0 {
        lemma_reason_count_le(previews.drop_last(), reason);
    }
}

proof fn lemma_reason_count_positive(previews: Seq<StoredImportPreviewImage>, reason: PreviewImageRejectionReason)
    ensures
        reasons_in_order(previews).contains(reason) <==> reason_count(previews, reason) > 0,
    decreases previews.len(),
{
    if previews.len() > 0 {
        lemma_reason_count_positive(previews.drop_last(), reason);
        let prev = reasons_in_order(previews.drop_last());
        match previews.last() {
            StoredImportPreviewImage::Fallback { reason: r } => {
                if !prev.contains(r) {
                    if reasons_in_order(previews).contains(reason) && reason != r {
                        let k = choose|k: int| 0 <= k < prev.push(r).len() && prev.push(r)[k] == reason;
                        assert(prev[k] == reason);
                    }
                    if prev.contains(reason) {
                        let k = choose|k: int| 0 <= k < prev.len() && prev[k] == reason;
                        assert(prev.push(r)[k] == reason);
                    }
                    if reason == r {
                        assert(prev.push(r)[prev.len() as int] == r);
                    }
                }
            },
            _ => {},
        }
    }
}

proof fn lemma_reasons_distinct(previews: Seq<StoredImportPreviewImage>)
    ensures
        reasons_in_order(previews).no_duplicates(),
    decreases previews.len(),
{
    if previews.len() > 0 {
        lemma_reasons_distinct(previews.drop_last());
        let prev = reasons_in_order(previews.drop_last());
        match previews.last() {
            StoredImportPreviewImage::Fallback { reason } => {
                if !prev.contains(reason) {
                    let q = prev.push(reason);
                    assert forall|a: int, b: int| 0 <= a < q.len() && 0 <= b < q.len() && a != b implies q[a] != q[b] by {
                        if a == prev.len() as int {
                            assert(q[b] == prev[b]);
                        } else if b == prev.len() as int {
                            assert(q[a] == prev[a]);
                        }
                    }
                }
            },
            _ => {},
        }
    }
}

/// A thumbnail leaves the fallback histogram unchanged.
proof fn lemma_histogram_step(prefix: Seq<StoredImportPreviewImage>, next: Seq<StoredImportPreviewImage>)
    requires
        next.len() == prefix.len() + 1,
        next.drop_last() == prefix,
        next.last() is Thumbnail,
    ensures
        fallback_histogram(next) == fallback_histogram(prefix),
{
    assert forall|reason: PreviewImageRejectionReason| reason_count(next, reason) == reason_count(prefix, reason) by {}
    assert(fallback_histogram(next) =~= fallback_histogram(prefix));
}

/// Counts one more fallback with `reason`: the entry of that reason goes up by one, or a new
/// entry is appended.
fn increment_fallback_reason(
    fallback_reasons: &mut Vec<PreviewImageFallbackDiagnostic>,
    reason: PreviewImageRejectionReason,
    Ghost(prefix): Ghost<Seq<StoredImportPreviewImage>>,
    Ghost(next): Ghost<Seq<StoredImportPreviewImage>>,
)
    requires
        old(fallback_reasons)@ == fallback_histogram(prefix),
        next.len() == prefix.len() + 1,
        next.drop_last() == prefix,
        next.last() == (StoredImportPreviewImage::Fallback { reason }),
        prefix.len() < usize::MAX,
    ensures
        final(fallback_reasons)@ == fallback_histogram(next),
{
    proof {
        lemma_reason_count_le(prefix, reason);
        assert forall|r: PreviewImageRejectionReason| r != reason implies reason_count(next, r)
            == reason_count(prefix, r) by {}
        assert(reason_count(next, reason) == reason_count(prefix, reason) + 1);
    }
    let ghost order = reasons_in_order(prefix);
    let n = fallback_reasons.len();
    let mut k: usize = 0;
    while k < n
        invariant
            n == fallback_reasons@.len(),
            fallback_reasons@ == fallback_histogram(prefix),
            order == reasons_in_order(prefix),
            reason_count(prefix, reason) <= prefix.len(),
            prefix.len() < usize::MAX,
            next.len() == prefix.len() + 1,
            next.drop_last() == prefix,
            next.last() == (StoredImportPreviewImage::Fallback { reason }),
            forall|r: PreviewImageRejectionReason| r != reason ==> reason_count(next, r)
                == #[trigger] reason_count(prefix, r),
            reason_count(next, reason) == reason_count(prefix, reason) + 1,
            0 <= k <= n,
            forall|x: int| 0 <= x < k ==> #[trigger] order[x] != reason,
        decreases n - k,
    {
        if fallback_reasons[k].reason == reason {
            let entry = fallback_reasons[k];
            proof {
                assert(order[k as int] == reason);
                assert(order.contains(reason));
                lemma_reason_count_positive(prefix, reason);
                assert(fallback_histogram(prefix)[k as int] == PreviewImageFallbackDiagnostic {
                    reason: order[k as int],
                    count: reason_count(prefix, order[k as int]) as usize,
                });
                assert(entry.count == reason_count(prefix, reason));
            }
            fallback_reasons[k] = PreviewImageFallbackDiagnostic { reason, count: entry.count + 1 };
            proof {
                assert(reasons_in_order(next) == order);
                lemma_reasons_distinct(prefix);
                assert forall|x: int| 0 <= x < order.len() && x != k implies #[trigger] order[x] != reason by {
                    assert(order[k as int] == reason);
                }
                assert(fallback_reasons@ =~= fallback_histogram(next));
            }
            return;
        }
        k = k + 1;
    }
    proof {
        assert(!order.contains(reason));
        lemma_reason_count_positive(prefix, reason);
        assert(reason_count(prefix, reason) == 0);
        assert(reasons_in_order(next) == order.push(reason));
    }
    fallback_reasons.push(PreviewImageFallbackDiagnostic { reason, count: 1 });
    proof {
        assert(fallback_reasons@ =~= fallback_histogram(next));
    }
}

/// Name of the diagnostics package exported at `unix_millis`.
pub open spec fn export_file_name_spec(unix_millis: u128) -> Seq<char> {
    "preview-image-diagnostics-"@ + decimal(unix_millis as nat) + ".zip"@
}

pub fn export_file_name(unix_millis: u128) -> (r: String)
    ensures
        r@ == export_file_name_spec(unix_millis),
{
    let mut name = "preview-image-diagnostics-".to_owned();
    let digits = decimal_string(unix_millis);
    name.append(digits.as_str());
    name.append(".zip");
    name
}

} // verus!
