//! Preview images of imported packages: which scanned candidates are processed, which result
//! is kept, and how the chosen image is listed, selected and recorded.
use crate::diagnostics::{PreviewImageRejectionReason, StoredImportPreviewImage};
use crate::metadata::PortFailure;
use vstd::prelude::*;

verus! {

/// Bounds of preview-image processing.
#[derive(Debug, Clone, Copy, PartialEq, Eq, Structural)]
pub struct PreviewImagePolicy {
    /// How many scanned candidates are considered, in scan order.
    pub max_candidates_per_package: usize,
    /// Longest edge of a produced thumbnail, in pixels.
    pub output_max_edge_px: u32,
}

/// Candidates considered by default.
pub const DEFAULT_MAX_CANDIDATES_PER_PACKAGE: usize = 8;

/// Thumbnail edge produced by default.
pub const DEFAULT_OUTPUT_MAX_EDGE_PX: u32 = 768;

impl PreviewImagePolicy {
    pub fn default_policy() -> (r: Self)
        ensures
            r.max_candidates_per_package == DEFAULT_MAX_CANDIDATES_PER_PACKAGE,
            r.output_max_edge_px == DEFAULT_OUTPUT_MAX_EDGE_PX,
    {
        PreviewImagePolicy {
            max_candidates_per_package: DEFAULT_MAX_CANDIDATES_PER_PACKAGE,
            output_max_edge_px: DEFAULT_OUTPUT_MAX_EDGE_PX,
        }
    }

    /// A usable policy considers at least one candidate and produces a non-empty image.
    pub open spec fn is_valid(self) -> bool {
        self.max_candidates_per_package >= 1 && self.output_max_edge_px >= 1
    }

    pub fn validate(&self) -> (r: bool)
        ensures
            r == self.is_valid(),
    {
        self.max_candidates_per_package >= 1 && self.output_max_edge_px >= 1
    }
}

/// Where a candidate image lives inside a package.
#[derive(Debug, Clone, PartialEq, Eq)]
pub struct PreviewImageSourceRef {
    pub package_id: String,
    pub logical_path: String,
}

/// An image file the scanner found in a package.
#[derive(Debug, Clone, PartialEq, Eq)]
pub struct PreviewImageCandidate {
    pub source_ref: PreviewImageSourceRef,
    pub file_name: String,
    pub compressed_size: u64,
    pub priority: u32,
}

/// A cached thumbnail.
#[derive(Debug, Clone, PartialEq, Eq)]
pub struct ThumbnailRef {
    pub package_id: String,
    pub content_hash: String,
    pub variant: String,
}

#[derive(Debug, Clone, PartialEq, Eq)]
pub struct ProcessedPreviewImage {
    pub thumbnail_ref: ThumbnailRef,
    pub width: u32,
    pub height: u32,
    pub content_hash: String,
}

/// What processing one candidate, or a whole package, produced.
#[derive(Debug, Clone, PartialEq, Eq)]
pub enum PreviewImageProcessingResult {
    Thumbnail(ProcessedPreviewImage),
    Fallback(PreviewImageRejectionReason),
}

/// The preview image shown for an imported package.
#[derive(Debug, Clone, PartialEq, Eq)]
pub enum ImportPreviewImage {
    Thumbnail { thumbnail_url: String, width: u32, height: u32, content_hash: String, variant: String },
    Fallback { reason: PreviewImageRejectionReason },
}

/// The import record whose preview image the services read and replace.
#[derive(Debug, Clone, PartialEq, Eq)]
pub struct StoredModImportAnalysis {
    pub mod_id: String,
    pub task_id: String,
    pub package_id: String,
    pub display_name: String,
    pub preview_image: StoredImportPreviewImage,
}

#[derive(Debug, Clone, PartialEq, Eq)]
pub struct PreviewImageCandidateSummary {
    pub candidate_index: usize,
    pub file_name: String,
    pub compressed_size_bytes: u64,
}

#[derive(Debug, Clone, PartialEq, Eq)]
pub struct PreviewImageCandidateList {
    pub mod_id: String,
    pub candidates: Vec<PreviewImageCandidateSummary>,
}

/// Why preview processing stopped.
#[derive(Debug, Clone, Copy, PartialEq, Eq, Structural)]
pub enum PreviewImageError {
    /// The policy allows no candidate or no image size.
    InvalidPolicy,
    /// The cancellation token fired.
    Cancelled,
    /// A scanner, processor, repository or locator failed.
    Unavailable,
}

impl PreviewImageError {
    pub fn message(self) -> (r: &'static str)
        ensures
            self == PreviewImageError::Cancelled ==> r@ == "preview image processing cancelled"@,
    {
        match self {
            PreviewImageError::InvalidPolicy => "preview image policy is invalid",
            PreviewImageError::Cancelled => "preview image processing cancelled",
            PreviewImageError::Unavailable => "preview image processing failed",
        }
    }
}

/// Tells long-running work that it should stop.
pub trait CancellationToken {
    fn is_cancelled(&self) -> bool;
}

/// A token that never fires.
pub struct NeverCancelled;

impl CancellationToken for NeverCancelled {
    fn is_cancelled(&self) -> (r: bool)
        ensures
            !r,
    {
        false
    }
}

/// Lists the candidate images of a package, best first.
pub trait PackagePreviewScanner {
    fn scan_candidates<T: CancellationToken>(
        &self,
        package_id: &str,
        sandbox_root: &str,
        policy: &PreviewImagePolicy,
        cancellation_token: &T,
    ) -> Result<Vec<PreviewImageCandidate>, PortFailure>;
}

/// Decodes one candidate and writes its thumbnail.
pub trait PreviewImageProcessor {
    fn process_candidate<T: CancellationToken>(
        &self,
        sandbox_root: &str,
        candidate: &PreviewImageCandidate,
        policy: &PreviewImagePolicy,
        cancellation_token: &T,
    ) -> Result<PreviewImageProcessingResult, PortFailure>;
}

/// Turns a cached thumbnail into the URL the interface loads.
pub trait ThumbnailStore {
    fn resolve_url(&self, thumbnail_ref: &ThumbnailRef) -> Result<String, PortFailure>;
}

/// The import records of the library.
pub trait ModImportAnalysisRepository {
    fn get_analysis(&self, mod_id: &str) -> Result<Option<StoredModImportAnalysis>, PortFailure>;

    fn save_analysis(&self, analysis: &StoredModImportAnalysis) -> Result<(), PortFailure>;
}

/// Finds the sandbox directory an imported package was unpacked into.
pub trait ModImportSandboxLocator {
    fn sandbox_root_for_package(&self, package_id: &str) -> Result<String, PortFailure>;
}

fn ensure_not_cancelled<T: CancellationToken>(cancellation_token: &T) -> (r: Result<(), PreviewImageError>)
    ensures
        r matches Err(e) ==> e == PreviewImageError::Cancelled,
{
    if cancellation_token.is_cancelled() {
        Err(PreviewImageError::Cancelled)
    } else {
        Ok(())
    }
}

/// The candidates considered under a limit: the first `max` in scan order.
pub open spec fn bounded_spec<A>(candidates: Seq<A>, max: usize) -> Seq<A> {
    if candidates.len() <= max {
        candidates
    } else {
        candidates.subrange(0, max as int)
    }
}

pub fn bounded_candidates(candidates: Vec<PreviewImageCandidate>, max: usize) -> (r: Vec<PreviewImageCandidate>)
    ensures
        r@ == bounded_spec(candidates@, max),
{
    let mut candidates = candidates;
    if candidates.len() > max {
        candidates.truncate(max);
    }
    candidates
}

/// What processing the considered candidates in order gives for the processor's answers: the
/// first thumbnail, an unavailable processor, or the last fallback reason (`Missing` when no
/// candidate was processed).
pub open spec fn preview_outcome(answers: Seq<Result<PreviewImageProcessingResult, ()>>) -> Result<
    PreviewImageProcessingResult,
    PreviewImageError,
>
    decreases answers.len(),
{
    if answers.len() == 0 {
        Ok(PreviewImageProcessingResult::Fallback(PreviewImageRejectionReason::Missing))
    } else {
        match preview_outcome(answers.drop_last()) {
            Ok(PreviewImageProcessingResult::Fallback(_)) => match answers.last() {
                Err(_) => Err(PreviewImageError::Unavailable),
                Ok(result) => Ok(result),
            },
            other => other,
        }
    }
}

/// The listing of a candidate: its position among the considered ones, its name and size.
pub open spec fn summary_of(index: int, candidate: PreviewImageCandidate, summary: PreviewImageCandidateSummary) -> bool {
    &&& summary.candidate_index == index
    &&& summary.file_name@ == candidate.file_name@
    &&& summary.compressed_size_bytes == candidate.compressed_size
}

pub fn candidate_summaries(candidates: &Vec<PreviewImageCandidate>, max: usize) -> (r: Vec<
    PreviewImageCandidateSummary,
>)
    ensures
        r@.len() == bounded_spec(candidates@, max).len(),
        forall|k: int| 0 <= k < r@.len() ==> summary_of(k, candidates@[k], #[trigger] r@[k]),
{
    let mut out: Vec<PreviewImageCandidateSummary> = Vec::new();
    let n = if candidates.len() < max {
        candidates.len()
    } else {
        max
    };
    let mut k: usize = 0;
    while k < n
        invariant
            n <= candidates@.len(),
            n == bounded_spec(candidates@, max).len(),
            0 <= k <= n,
            out@.len() == k,
            forall|j: int| 0 <= j < k ==> summary_of(j, candidates@[j], #[trigger] out@[j]),
        decreases n - k,
    {
        let candidate = &candidates[k];
        out.push(
            PreviewImageCandidateSummary {
                candidate_index: k,
                file_name: candidate.file_name.clone(),
                compressed_size_bytes: candidate.compressed_size,
            },
        );
        k = k + 1;
    }
    out
}

/// The shown image of a processing result: a fallback keeps its reason, a thumbnail carries
/// its size, hash and variant, with the URL the store resolved for it.
pub open spec fn shown_image_matches(result: PreviewImageProcessingResult, shown: ImportPreviewImage) -> bool {
    match result {
        PreviewImageProcessingResult::Fallback(reason) => shown == ImportPreviewImage::Fallback { reason },
        PreviewImageProcessingResult::Thumbnail(t) => match shown {
            ImportPreviewImage::Thumbnail { thumbnail_url, width, height, content_hash, variant } => {
                &&& width == t.width
                &&& height == t.height
                &&& content_hash@ == t.content_hash@
                &&& variant@ == t.thumbnail_ref.variant@
            },
            ImportPreviewImage::Fallback { reason } => false,
        },
    }
}

/// The image shown for a thumbnail whose URL was resolved (`Ok`) or could not be (`Err`): the
/// latter is shown as a cache-write fallback.
pub fn shown_thumbnail(thumbnail: ProcessedPreviewImage, url: Result<String, PortFailure>) -> (r: ImportPreviewImage)
    ensures
        url matches Ok(u) ==> (r matches ImportPreviewImage::Thumbnail { thumbnail_url, .. } && thumbnail_url@
            == u@) && shown_image_matches(PreviewImageProcessingResult::Thumbnail(thumbnail), r),
        url is Err ==> r == (ImportPreviewImage::Fallback { reason: PreviewImageRejectionReason::CacheWriteFailed }),
{
    match url {
        Ok(thumbnail_url) => ImportPreviewImage::Thumbnail {
            thumbnail_url,
            width: thumbnail.width,
            height: thumbnail.height,
            content_hash: thumbnail.content_hash,
            variant: thumbnail.thumbnail_ref.variant,
        },
        Err(_) => ImportPreviewImage::Fallback { reason: PreviewImageRejectionReason::CacheWriteFailed },
    }
}

/// The image shown for a processing result; only a thumbnail asks the store for its URL.
pub fn preview_image_from_processing_result<S: ThumbnailStore>(
    result: PreviewImageProcessingResult,
    thumbnail_store: &S,
) -> (r: ImportPreviewImage)
    ensures
        shown_image_matches(result, r) || (result is Thumbnail && r == (ImportPreviewImage::Fallback {
            reason: PreviewImageRejectionReason::CacheWriteFailed,
        })),
{
    match result {
        PreviewImageProcessingResult::Thumbnail(thumbnail) => {
            let url = thumbnail_store.resolve_url(&thumbnail.thumbnail_ref);
            shown_thumbnail(thumbnail, url)
        },
        PreviewImageProcessingResult::Fallback(reason) => ImportPreviewImage::Fallback { reason },
    }
}

/// The record of a shown image: the same fields, field for field.
pub open spec fn stored_matches(shown: ImportPreviewImage, stored: StoredImportPreviewImage) -> bool {
    match (shown, stored) {
        (
            ImportPreviewImage::Thumbnail { thumbnail_url, width, height, content_hash, variant },
            StoredImportPreviewImage::Thumbnail {
                thumbnail_url: su,
                width: sw,
                height: sh,
                content_hash: sc,
                variant: sv,
            },
        ) => thumbnail_url@ == su@ && width == sw && height == sh && content_hash@ == sc@ && variant@
            == sv@,
        (ImportPreviewImage::Fallback { reason }, StoredImportPreviewImage::Fallback { reason: sr }) => reason
            == sr,
        _ => false,
    }
}

pub fn stored_preview_from_import(preview_image: &ImportPreviewImage) -> (r: StoredImportPreviewImage)
    ensures
        stored_matches(*preview_image, r),
{
    match preview_image {
        ImportPreviewImage::Thumbnail { thumbnail_url, width, height, content_hash, variant } =>
            StoredImportPreviewImage::Thumbnail {
            thumbnail_url: thumbnail_url.clone(),
            width: *width,
            height: *height,
            content_hash: content_hash.clone(),
            variant: variant.clone(),
        },
        ImportPreviewImage::Fallback { reason } => StoredImportPreviewImage::Fallback { reason: *reason },
    }
}

/// Scans a package and processes its candidates.
pub struct PreviewImageService<S: PackagePreviewScanner, P: PreviewImageProcessor> {
    policy: PreviewImagePolicy,
    scanner: S,
    processor: P,
}

impl<S: PackagePreviewScanner, P: PreviewImageProcessor> PreviewImageService<S, P> {
    pub fn new(policy: PreviewImagePolicy, scanner: S, processor: P) -> (r: Self)
        ensures
            r.policy_spec() == policy,
    {
        PreviewImageService { policy, scanner, processor }
    }

    pub closed spec fn policy_spec(&self) -> PreviewImagePolicy {
        self.policy
    }

    pub fn process_package_preview(&self, task_id: &str, package_id: &str, sandbox_root: &str) -> (r: Result<
        PreviewImageProcessingResult,
        PreviewImageError,
    >)
        ensures
            !self.policy_spec().is_valid() ==> r == Err::<PreviewImageProcessingResult, _>(
                PreviewImageError::InvalidPolicy,
            ),
    {
        self.process_package_preview_with_cancellation(task_id, package_id, sandbox_root, &NeverCancelled)
    }

    /// Processes the considered candidates in scan order and keeps the first thumbnail; when
    /// none yields one, the result is the last candidate's fallback reason (`Missing` when
    /// there is no candidate). The token is checked before the scan and before and after each
    /// candidate.
    pub fn process_package_preview_with_cancellation<T: CancellationToken>(
        &self,
        task_id: &str,
        package_id: &str,
        sandbox_root: &str,
        cancellation_token: &T,
    ) -> (r: Result<PreviewImageProcessingResult, PreviewImageError>)
        ensures
            !self.policy_spec().is_valid() ==> r == Err::<PreviewImageProcessingResult, _>(
                PreviewImageError::InvalidPolicy,
            ),
            r is Ok ==> exists|answers: Seq<Result<PreviewImageProcessingResult, ()>>|
                answers.len() <= self.policy_spec().max_candidates_per_package && r == #[trigger] preview_outcome(answers),
            r matches Err(e) ==> (e == PreviewImageError::InvalidPolicy || e == PreviewImageError::Cancelled || e
                == PreviewImageError::Unavailable),
    {
        if !self.policy.validate() {
            return Err(PreviewImageError::InvalidPolicy);
        }
        match ensure_not_cancelled(cancellation_token) {
            Err(e) => {
                return Err(e);
            },
            Ok(()) => {},
        }
        let candidates = match self.scanner.scan_candidates(
            package_id,
            sandbox_root,
            &self.policy,
            cancellation_token,
        ) {
            Ok(c) => c,
            Err(_) => {
                return Err(PreviewImageError::Unavailable);
            },
        };
        if candidates.len() == 0 {
            proof {
                assert(preview_outcome(Seq::empty()) == Ok::<PreviewImageProcessingResult, PreviewImageError>(
                    PreviewImageProcessingResult::Fallback(PreviewImageRejectionReason::Missing),
                ));
            }
            return Ok(PreviewImageProcessingResult::Fallback(PreviewImageRejectionReason::Missing));
        }
        let candidates = bounded_candidates(candidates, self.policy.max_candidates_per_package);
        let mut last_reason = PreviewImageRejectionReason::Missing;
        let ghost mut seen: Seq<Result<PreviewImageProcessingResult, ()>> = Seq::empty();
        let mut k: usize = 0;
        while k < candidates.len()
            invariant
                0 <= k <= candidates@.len(),
                candidates@.len() <= self.policy.max_candidates_per_package,
                self.policy.is_valid(),
                seen.len() == k,
                preview_outcome(seen) == Ok::<PreviewImageProcessingResult, PreviewImageError>(
                    PreviewImageProcessingResult::Fallback(last_reason),
                ),
            decreases candidates@.len() - k,
        {
            match ensure_not_cancelled(cancellation_token) {
                Err(e) => {
                    return Err(e);
                },
                Ok(()) => {},
            }
            match self.processor.process_candidate(
                sandbox_root,
                &candidates[k],
                &self.policy,
                cancellation_token,
            ) {
                Ok(PreviewImageProcessingResult::Thumbnail(thumbnail)) => {
                    proof {
                        let answers = seen.push(Ok(PreviewImageProcessingResult::Thumbnail(thumbnail)));
                        assert(answers.drop_last() =~= seen);
                        assert(preview_outcome(answers) == Ok::<PreviewImageProcessingResult, PreviewImageError>(
                            PreviewImageProcessingResult::Thumbnail(thumbnail),
                        ));
                    }
                    return Ok(PreviewImageProcessingResult::Thumbnail(thumbnail));
                },
                Ok(PreviewImageProcessingResult::Fallback(reason)) => {
                    proof {
                        let answers = seen.push(Ok(PreviewImageProcessingResult::Fallback(reason)));
                        assert(answers.drop_last() =~= seen);
                        seen = answers;
                    }
                    last_reason = reason;
                },
                Err(_) => {
                    return Err(PreviewImageError::Unavailable);
                },
            }
            match ensure_not_cancelled(cancellation_token) {
                Err(e) => {
                    return Err(e);
                },
                Ok(()) => {},
            }
            k = k + 1;
        }
        proof {
            assert(preview_outcome(seen) == Ok::<PreviewImageProcessingResult, PreviewImageError>(
                PreviewImageProcessingResult::Fallback(last_reason),
            ));
        }
        Ok(PreviewImageProcessingResult::Fallback(last_reason))
    }

    pub fn process_selected_package_preview(
        &self,
        task_id: &str,
        package_id: &str,
        sandbox_root: &str,
        selected_candidate_index: usize,
    ) -> (r: Result<PreviewImageProcessingResult, PreviewImageError>)
        ensures
            !self.policy_spec().is_valid() ==> r == Err::<PreviewImageProcessingResult, _>(
                PreviewImageError::InvalidPolicy,
            ),
            self.policy_spec().is_valid() && selected_candidate_index
                >= self.policy_spec().max_candidates_per_package ==> (r is Err || r
                == Ok::<_, PreviewImageError>(PreviewImageProcessingResult::Fallback(
                PreviewImageRejectionReason::Missing,
            ))),
    {
        self.process_selected_package_preview_with_cancellation(
            task_id,
            package_id,
            sandbox_root,
            selected_candidate_index,
            &NeverCancelled,
        )
    }

    /// Processes the candidate at `selected_candidate_index` among the considered ones; an
    /// index past them gives the `Missing` fallback without processing anything.
    pub fn process_selected_package_preview_with_cancellation<T: CancellationToken>(
        &self,
        task_id: &str,
        package_id: &str,
        sandbox_root: &str,
        selected_candidate_index: usize,
        cancellation_token: &T,
    ) -> (r: Result<PreviewImageProcessingResult, PreviewImageError>)
        ensures
            !self.policy_spec().is_valid() ==> r == Err::<PreviewImageProcessingResult, _>(
                PreviewImageError::InvalidPolicy,
            ),
            self.policy_spec().is_valid() && selected_candidate_index
                >= self.policy_spec().max_candidates_per_package ==> (r is Err || r
                == Ok::<_, PreviewImageError>(PreviewImageProcessingResult::Fallback(
                PreviewImageRejectionReason::Missing,
            ))),
    {
        if !self.policy.validate() {
            return Err(PreviewImageError::InvalidPolicy);
        }
        match ensure_not_cancelled(cancellation_token) {
            Err(e) => {
                return Err(e);
            },
            Ok(()) => {},
        }
        let candidates = match self.bounded(package_id, sandbox_root, cancellation_token) {
            Ok(c) => c,
            Err(e) => {
                return Err(e);
            },
        };
        if selected_candidate_index >= candidates.len() {
            return Ok(PreviewImageProcessingResult::Fallback(PreviewImageRejectionReason::Missing));
        }
        match ensure_not_cancelled(cancellation_token) {
            Err(e) => {
                return Err(e);
            },
            Ok(()) => {},
        }
        match self.processor.process_candidate(
            sandbox_root,
            &candidates[selected_candidate_index],
            &self.policy,
            cancellation_token,
        ) {
            Ok(result) => Ok(result),
            Err(_) => Err(PreviewImageError::Unavailable),
        }
    }

    fn bounded<T: CancellationToken>(&self, package_id: &str, sandbox_root: &str, cancellation_token: &T) -> (r:
        Result<Vec<PreviewImageCandidate>, PreviewImageError>)
        ensures
            r matches Ok(c) ==> c@.len() <= self.policy.max_candidates_per_package,
            r matches Err(e) ==> e == PreviewImageError::Unavailable,
    {
        match self.scanner.scan_candidates(package_id, sandbox_root, &self.policy, cancellation_token) {
            Ok(c) => Ok(bounded_candidates(c, self.policy.max_candidates_per_package)),
            Err(_) => Err(PreviewImageError::Unavailable),
        }
    }
}

/// Lists the candidates a player can pick as the preview image of a mod.
pub struct PreviewImageCandidateListService<
    R: ModImportAnalysisRepository,
    L: ModImportSandboxLocator,
    S: PackagePreviewScanner,
> {
    policy: PreviewImagePolicy,
    result_repository: R,
    sandbox_locator: L,
    scanner: S,
}

impl<R: ModImportAnalysisRepository, L: ModImportSandboxLocator, S: PackagePreviewScanner> PreviewImageCandidateListService<
    R,
    L,
    S,
> {
    pub fn new(policy: PreviewImagePolicy, result_repository: R, sandbox_locator: L, scanner: S) -> (r: Self)
        ensures
            r.policy_spec() == policy,
    {
        PreviewImageCandidateListService { policy, result_repository, sandbox_locator, scanner }
    }

    pub closed spec fn policy_spec(&self) -> PreviewImagePolicy {
        self.policy
    }

    /// The considered candidates of the mod's package (`None` for an unknown mod), each with
    /// its index, file name and compressed size.
    pub fn list_candidates(&self, mod_id: &str) -> (r: Result<Option<PreviewImageCandidateList>, PreviewImageError>)
        ensures
            !self.policy_spec().is_valid() ==> r == Err::<Option<PreviewImageCandidateList>, _>(
                PreviewImageError::InvalidPolicy,
            ),
            r matches Ok(Some(list)) ==> list.candidates@.len() <= self.policy_spec().max_candidates_per_package
                && forall|k: int| 0 <= k < list.candidates@.len() ==> (#[trigger] list.candidates@[k]).candidate_index == k,
    {
        if !self.policy.validate() {
            return Err(PreviewImageError::InvalidPolicy);
        }
        let record = match self.result_repository.get_analysis(mod_id) {
            Ok(Some(record)) => record,
            Ok(None) => {
                return Ok(None);
            },
            Err(_) => {
                return Err(PreviewImageError::Unavailable);
            },
        };
        let sandbox_root = match self.sandbox_locator.sandbox_root_for_package(record.package_id.as_str()) {
            Ok(root) => root,
            Err(_) => {
                return Err(PreviewImageError::Unavailable);
            },
        };
        let candidates = match self.scanner.scan_candidates(
            record.package_id.as_str(),
            sandbox_root.as_str(),
            &self.policy,
            &NeverCancelled,
        ) {
            Ok(c) => c,
            Err(_) => {
                return Err(PreviewImageError::Unavailable);
            },
        };
        let summaries = candidate_summaries(&candidates, self.policy.max_candidates_per_package);
        Ok(Some(PreviewImageCandidateList { mod_id: record.mod_id, candidates: summaries }))
    }
}

/// Processes the candidate a player picked and records it as the mod's preview image.
pub struct PreviewImageCandidateSelectionService<
    R: ModImportAnalysisRepository,
    L: ModImportSandboxLocator,
    S: PackagePreviewScanner,
    P: PreviewImageProcessor,
    T: ThumbnailStore,
> {
    result_repository: R,
    sandbox_locator: L,
    preview_image_service: PreviewImageService<S, P>,
    thumbnail_store: T,
}

impl<
    R: ModImportAnalysisRepository,
    L: ModImportSandboxLocator,
    S: PackagePreviewScanner,
    P: PreviewImageProcessor,
    T: ThumbnailStore,
> PreviewImageCandidateSelectionService<R, L, S, P, T> {
    pub fn new(
        policy: PreviewImagePolicy,
        result_repository: R,
        sandbox_locator: L,
        scanner: S,
        processor: P,
        thumbnail_store: T,
    ) -> (r: Self)
        ensures
            r.policy_spec() == policy,
    {
        PreviewImageCandidateSelectionService {
            result_repository,
            sandbox_locator,
            preview_image_service: PreviewImageService::new(policy, scanner, processor),
            thumbnail_store,
        }
    }

    pub closed spec fn policy_spec(&self) -> PreviewImagePolicy {
        self.preview_image_service.policy_spec()
    }

    /// `None` for an unknown mod; otherwise the image now shown, which is also written into the
    /// mod's import record.
    pub fn select_candidate(&self, mod_id: &str, candidate_index: usize) -> (r: Result<
        Option<ImportPreviewImage>,
        PreviewImageError,
    >)
        ensures
            self.policy_spec().is_valid() && candidate_index >= self.policy_spec().max_candidates_per_package
                ==> (r is Err || r is Ok && (r->Ok_0 is None || r->Ok_0 == Some(
                ImportPreviewImage::Fallback { reason: PreviewImageRejectionReason::Missing },
            ))),
    {
        let record = match self.result_repository.get_analysis(mod_id) {
            Ok(Some(record)) => record,
            Ok(None) => {
                return Ok(None);
            },
            Err(_) => {
                return Err(PreviewImageError::Unavailable);
            },
        };
        let sandbox_root = match self.sandbox_locator.sandbox_root_for_package(record.package_id.as_str()) {
            Ok(root) => root,
            Err(_) => {
                return Err(PreviewImageError::Unavailable);
            },
        };
        let result = match self.preview_image_service.process_selected_package_preview(
            "preview-image-candidate-selection",
            record.package_id.as_str(),
            sandbox_root.as_str(),
            candidate_index,
        ) {
            Ok(result) => result,
            Err(e) => {
                return Err(e);
            },
        };
        let preview_image = preview_image_from_processing_result(result, &self.thumbnail_store);
        let updated = StoredModImportAnalysis {
            mod_id: record.mod_id,
            task_id: record.task_id,
            package_id: record.package_id,
            display_name: record.display_name,
            preview_image: stored_preview_from_import(&preview_image),
        };
        match self.result_repository.save_analysis(&updated) {
            Ok(()) => Ok(Some(preview_image)),
            Err(_) => Err(PreviewImageError::Unavailable),
        }
    }
}

/// Produces the larger preview shown on a mod's detail page, without touching its record.
pub struct PreviewImageDetailService<
    R: ModImportAnalysisRepository,
    L: ModImportSandboxLocator,
    S: PackagePreviewScanner,
    P: PreviewImageProcessor,
    T: ThumbnailStore,
> {
    result_repository: R,
    sandbox_locator: L,
    preview_image_service: PreviewImageService<S, P>,
    thumbnail_store: T,
}

impl<
    R: ModImportAnalysisRepository,
    L: ModImportSandboxLocator,
    S: PackagePreviewScanner,
    P: PreviewImageProcessor,
    T: ThumbnailStore,
> PreviewImageDetailService<R, L, S, P, T> {
    pub fn new(
        policy: PreviewImagePolicy,
        result_repository: R,
        sandbox_locator: L,
        scanner: S,
        processor: P,
        thumbnail_store: T,
    ) -> (r: Self)
        ensures
            r.policy_spec() == policy,
    {
        PreviewImageDetailService {
            result_repository,
            sandbox_locator,
            preview_image_service: PreviewImageService::new(policy, scanner, processor),
            thumbnail_store,
        }
    }

    pub closed spec fn policy_spec(&self) -> PreviewImagePolicy {
        self.preview_image_service.policy_spec()
    }

    /// `None` for an unknown mod; otherwise the preview processed under this service's policy.
    pub fn get_detail_preview_image(&self, mod_id: &str) -> (r: Result<Option<ImportPreviewImage>, PreviewImageError>)
        ensures
            !self.policy_spec().is_valid() ==> !(r matches Ok(Some(_))),
    {
        let record = match self.result_repository.get_analysis(mod_id) {
            Ok(Some(record)) => record,
            Ok(None) => {
                return Ok(None);
            },
            Err(_) => {
                return Err(PreviewImageError::Unavailable);
            },
        };
        let sandbox_root = match self.sandbox_locator.sandbox_root_for_package(record.package_id.as_str()) {
            Ok(root) => root,
            Err(_) => {
                return Err(PreviewImageError::Unavailable);
            },
        };
        let result = match self.preview_image_service.process_package_preview(
            "preview-image-detail",
            record.package_id.as_str(),
            sandbox_root.as_str(),
        ) {
            Ok(result) => result,
            Err(e) => {
                return Err(e);
            },
        };
        Ok(Some(preview_image_from_processing_result(result, &self.thumbnail_store)))
    }
}

} // verus!
