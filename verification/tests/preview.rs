use hmm_app::diagnostics::{PreviewImageRejectionReason, StoredImportPreviewImage};
use hmm_app::metadata::PortFailure;
use hmm_app::preview::{
    bounded_candidates, candidate_summaries, stored_preview_from_import, CancellationToken,
    ImportPreviewImage, ModImportAnalysisRepository, ModImportSandboxLocator,
    PackagePreviewScanner, PreviewImageCandidate, PreviewImageCandidateListService,
    PreviewImageCandidateSelectionService, PreviewImageCandidateSummary,
    PreviewImageDetailService, PreviewImageError, PreviewImagePolicy,
    PreviewImageProcessingResult, PreviewImageProcessor, PreviewImageService,
    PreviewImageSourceRef, ProcessedPreviewImage, StoredModImportAnalysis, ThumbnailRef,
    ThumbnailStore,
};
use std::cell::{Cell, RefCell};
use std::rc::Rc;

fn preview_candidate(package_id: &str, logical_path: &str) -> PreviewImageCandidate {
    PreviewImageCandidate {
        source_ref: PreviewImageSourceRef {
            package_id: package_id.to_owned(),
            logical_path: logical_path.to_owned(),
        },
        file_name: logical_path
            .rsplit('/')
            .next()
            .unwrap_or(logical_path)
            .to_owned(),
        compressed_size: 0,
        priority: 0,
    }
}

fn thumbnail(package_id: &str, hash: &str, width: u32, height: u32) -> PreviewImageProcessingResult {
    PreviewImageProcessingResult::Thumbnail(ProcessedPreviewImage {
        thumbnail_ref: ThumbnailRef {
            package_id: package_id.to_owned(),
            content_hash: hash.to_owned(),
            variant: "preview-768".to_owned(),
        },
        width,
        height,
        content_hash: hash.to_owned(),
    })
}

fn default_policy() -> PreviewImagePolicy {
    PreviewImagePolicy::default_policy()
}

struct FakeScanner {
    candidates: Vec<PreviewImageCandidate>,
}

impl FakeScanner {
    fn new(candidates: Vec<PreviewImageCandidate>) -> Self {
        Self { candidates }
    }
}

impl PackagePreviewScanner for FakeScanner {
    fn scan_candidates<T: CancellationToken>(
        &self,
        _package_id: &str,
        _sandbox_root: &str,
        _policy: &PreviewImagePolicy,
        _cancellation_token: &T,
    ) -> Result<Vec<PreviewImageCandidate>, PortFailure> {
        Ok(self.candidates.clone())
    }
}

struct PanicScanner;

impl PackagePreviewScanner for PanicScanner {
    fn scan_candidates<T: CancellationToken>(
        &self,
        _package_id: &str,
        _sandbox_root: &str,
        _policy: &PreviewImagePolicy,
        _cancellation_token: &T,
    ) -> Result<Vec<PreviewImageCandidate>, PortFailure> {
        panic!("unknown mod should not scan candidates")
    }
}

struct RecordingProcessor {
    processed_paths: Rc<RefCell<Vec<String>>>,
    results: RefCell<Vec<PreviewImageProcessingResult>>,
}

impl RecordingProcessor {
    fn new(
        processed_paths: Rc<RefCell<Vec<String>>>,
        results: Vec<PreviewImageProcessingResult>,
    ) -> Self {
        Self {
            processed_paths,
            results: RefCell::new(results.into_iter().rev().collect()),
        }
    }
}

impl PreviewImageProcessor for RecordingProcessor {
    fn process_candidate<T: CancellationToken>(
        &self,
        _sandbox_root: &str,
        candidate: &PreviewImageCandidate,
        _policy: &PreviewImagePolicy,
        _cancellation_token: &T,
    ) -> Result<PreviewImageProcessingResult, PortFailure> {
        self.processed_paths
            .borrow_mut()
            .push(candidate.source_ref.logical_path.clone());
        Ok(self.results.borrow_mut().pop().expect("processor result"))
    }
}

fn fake_processor(results: Vec<PreviewImageProcessingResult>) -> RecordingProcessor {
    RecordingProcessor::new(Rc::new(RefCell::new(vec![])), results)
}

#[derive(Default)]
struct ToggleCancellationToken {
    cancelled: Cell<bool>,
}

impl ToggleCancellationToken {
    fn cancel_for_test(&self) {
        self.cancelled.set(true);
    }
}

impl CancellationToken for ToggleCancellationToken {
    fn is_cancelled(&self) -> bool {
        self.cancelled.get()
    }
}

struct CancellationObservingScanner {
    observed: Rc<RefCell<Vec<bool>>>,
    candidates: Vec<PreviewImageCandidate>,
}

impl PackagePreviewScanner for CancellationObservingScanner {
    fn scan_candidates<T: CancellationToken>(
        &self,
        _package_id: &str,
        _sandbox_root: &str,
        _policy: &PreviewImagePolicy,
        cancellation_token: &T,
    ) -> Result<Vec<PreviewImageCandidate>, PortFailure> {
        self.observed
            .borrow_mut()
            .push(cancellation_token.is_cancelled());
        Ok(self.candidates.clone())
    }
}

struct CancellationObservingProcessor {
    observed: Rc<RefCell<Vec<bool>>>,
}

impl PreviewImageProcessor for CancellationObservingProcessor {
    fn process_candidate<T: CancellationToken>(
        &self,
        _sandbox_root: &str,
        candidate: &PreviewImageCandidate,
        _policy: &PreviewImagePolicy,
        cancellation_token: &T,
    ) -> Result<PreviewImageProcessingResult, PortFailure> {
        self.observed
            .borrow_mut()
            .push(cancellation_token.is_cancelled());
        Ok(thumbnail(&candidate.source_ref.package_id, "hash", 4, 4))
    }
}

struct CancellingProcessor {
    processed_paths: Rc<RefCell<Vec<String>>>,
    cancellation_token: Rc<ToggleCancellationToken>,
}

impl PreviewImageProcessor for CancellingProcessor {
    fn process_candidate<T: CancellationToken>(
        &self,
        _sandbox_root: &str,
        candidate: &PreviewImageCandidate,
        _policy: &PreviewImagePolicy,
        _cancellation_token: &T,
    ) -> Result<PreviewImageProcessingResult, PortFailure> {
        self.processed_paths
            .borrow_mut()
            .push(candidate.source_ref.logical_path.clone());
        self.cancellation_token.cancel_for_test();
        Ok(PreviewImageProcessingResult::Fallback(
            PreviewImageRejectionReason::DecodeFailed,
        ))
    }
}

struct PolicyRecordingProcessor {
    observed_edges: Rc<RefCell<Vec<u32>>>,
}

impl PreviewImageProcessor for PolicyRecordingProcessor {
    fn process_candidate<T: CancellationToken>(
        &self,
        _sandbox_root: &str,
        candidate: &PreviewImageCandidate,
        policy: &PreviewImagePolicy,
        _cancellation_token: &T,
    ) -> Result<PreviewImageProcessingResult, PortFailure> {
        let edge = policy.output_max_edge_px;
        self.observed_edges.borrow_mut().push(edge);
        Ok(PreviewImageProcessingResult::Thumbnail(
            ProcessedPreviewImage {
                thumbnail_ref: ThumbnailRef {
                    package_id: candidate.source_ref.package_id.clone(),
                    content_hash: format!("hash-{edge}"),
                    variant: format!("preview-{edge}"),
                },
                width: edge,
                height: edge * 9 / 16,
                content_hash: format!("hash-{edge}"),
            },
        ))
    }
}

struct FakeModImportResultRepository {
    record: Rc<RefCell<Option<StoredModImportAnalysis>>>,
    save_calls: Rc<Cell<usize>>,
}

impl FakeModImportResultRepository {
    fn holding(record: Option<StoredModImportAnalysis>) -> Self {
        Self {
            record: Rc::new(RefCell::new(record)),
            save_calls: Rc::new(Cell::new(0)),
        }
    }

    fn sharing(&self) -> Self {
        Self {
            record: self.record.clone(),
            save_calls: self.save_calls.clone(),
        }
    }
}

impl ModImportAnalysisRepository for FakeModImportResultRepository {
    fn get_analysis(&self, mod_id: &str) -> Result<Option<StoredModImportAnalysis>, PortFailure> {
        Ok(self
            .record
            .borrow()
            .clone()
            .filter(|record| record.mod_id == mod_id))
    }

    fn save_analysis(&self, analysis: &StoredModImportAnalysis) -> Result<(), PortFailure> {
        self.save_calls.set(self.save_calls.get() + 1);
        *self.record.borrow_mut() = Some(analysis.clone());
        Ok(())
    }
}

struct FakeThumbnailStore;

impl ThumbnailStore for FakeThumbnailStore {
    fn resolve_url(&self, thumbnail_ref: &ThumbnailRef) -> Result<String, PortFailure> {
        Ok(format!(
            "thumbnail://{}/{}/{}",
            thumbnail_ref.package_id, thumbnail_ref.variant, thumbnail_ref.content_hash
        ))
    }
}

struct FailingThumbnailStore;

impl ThumbnailStore for FailingThumbnailStore {
    fn resolve_url(&self, _thumbnail_ref: &ThumbnailRef) -> Result<String, PortFailure> {
        Err(PortFailure)
    }
}

struct FakeSandboxLocator {
    located_packages: Rc<RefCell<Vec<String>>>,
}

impl ModImportSandboxLocator for FakeSandboxLocator {
    fn sandbox_root_for_package(&self, package_id: &str) -> Result<String, PortFailure> {
        self.located_packages
            .borrow_mut()
            .push(package_id.to_owned());
        Ok("sandbox".to_owned())
    }
}

fn locator() -> FakeSandboxLocator {
    FakeSandboxLocator {
        located_packages: Rc::new(RefCell::new(vec![])),
    }
}

fn stored_analysis(mod_id: &str, package_id: &str) -> StoredModImportAnalysis {
    StoredModImportAnalysis {
        mod_id: mod_id.to_owned(),
        task_id: "task-1".to_owned(),
        package_id: package_id.to_owned(),
        display_name: mod_id.to_owned(),
        preview_image: StoredImportPreviewImage::Fallback {
            reason: PreviewImageRejectionReason::Missing,
        },
    }
}

#[test]
fn returns_missing_fallback_when_no_candidates_exist() {
    let service = PreviewImageService::new(
        default_policy(),
        FakeScanner::new(vec![]),
        fake_processor(vec![]),
    );

    let result = service
        .process_package_preview("task-1", "pkg-1", "sandbox")
        .expect("preview result");

    assert_eq!(
        result,
        PreviewImageProcessingResult::Fallback(PreviewImageRejectionReason::Missing)
    );
}

#[test]
fn tries_next_candidate_after_fallback() {
    let service = PreviewImageService::new(
        default_policy(),
        FakeScanner::new(vec![
            preview_candidate("pkg-1", "bad.png"),
            preview_candidate("pkg-1", "good.png"),
        ]),
        fake_processor(vec![
            PreviewImageProcessingResult::Fallback(PreviewImageRejectionReason::DecodeFailed),
            thumbnail("pkg-1", "hash", 4, 4),
        ]),
    );

    let result = service
        .process_package_preview("task-1", "pkg-1", "sandbox")
        .expect("preview result");

    assert!(matches!(result, PreviewImageProcessingResult::Thumbnail(_)));
}

#[test]
fn returns_first_processed_thumbnail_without_resolving_url() {
    let service = PreviewImageService::new(
        default_policy(),
        FakeScanner::new(vec![preview_candidate("pkg-1", "good.png")]),
        fake_processor(vec![thumbnail("pkg-1", "hash", 4, 4)]),
    );

    let result = service
        .process_package_preview("task-1", "pkg-1", "sandbox")
        .expect("preview result");

    assert!(matches!(result, PreviewImageProcessingResult::Thumbnail(_)));
}

#[test]
fn processes_selected_candidate_by_bounded_scan_index() {
    let processed_paths = Rc::new(RefCell::new(Vec::new()));
    let service = PreviewImageService::new(
        default_policy(),
        FakeScanner::new(vec![
            preview_candidate("pkg-1", "first.png"),
            preview_candidate("pkg-1", "second.png"),
        ]),
        RecordingProcessor::new(processed_paths.clone(), vec![thumbnail("pkg-1", "hash", 4, 4)]),
    );

    let result = service
        .process_selected_package_preview("task-1", "pkg-1", "sandbox", 1)
        .expect("selected preview result");

    assert!(matches!(result, PreviewImageProcessingResult::Thumbnail(_)));
    assert_eq!(*processed_paths.borrow(), vec!["second.png".to_owned()]);
}

#[test]
fn selected_candidate_index_out_of_range_returns_missing_without_processing() {
    let processed_paths = Rc::new(RefCell::new(Vec::new()));
    let service = PreviewImageService::new(
        default_policy(),
        FakeScanner::new(vec![preview_candidate("pkg-1", "first.png")]),
        RecordingProcessor::new(processed_paths.clone(), vec![thumbnail("pkg-1", "hash", 4, 4)]),
    );

    let result = service
        .process_selected_package_preview("task-1", "pkg-1", "sandbox", 4)
        .expect("selected preview result");

    assert_eq!(
        result,
        PreviewImageProcessingResult::Fallback(PreviewImageRejectionReason::Missing)
    );
    assert!(processed_paths.borrow().is_empty());
}

#[test]
fn processes_only_policy_candidate_limit_when_scanner_returns_more() {
    let processed_paths = Rc::new(RefCell::new(Vec::new()));
    let service = PreviewImageService::new(
        PreviewImagePolicy {
            max_candidates_per_package: 2,
            ..default_policy()
        },
        FakeScanner::new(vec![
            preview_candidate("pkg-1", "first.png"),
            preview_candidate("pkg-1", "second.png"),
            preview_candidate("pkg-1", "third.png"),
        ]),
        RecordingProcessor::new(
            processed_paths.clone(),
            vec![
                PreviewImageProcessingResult::Fallback(PreviewImageRejectionReason::DecodeFailed),
                PreviewImageProcessingResult::Fallback(
                    PreviewImageRejectionReason::UnsupportedFormat,
                ),
                PreviewImageProcessingResult::Fallback(
                    PreviewImageRejectionReason::CacheWriteFailed,
                ),
            ],
        ),
    );

    let result = service
        .process_package_preview("task-1", "pkg-1", "sandbox")
        .expect("preview result");

    assert_eq!(
        result,
        PreviewImageProcessingResult::Fallback(PreviewImageRejectionReason::UnsupportedFormat)
    );
    assert_eq!(
        *processed_paths.borrow(),
        vec!["first.png".to_owned(), "second.png".to_owned()]
    );
}

#[test]
fn passes_cancellation_token_to_scanner_and_processor() {
    let observed = Rc::new(RefCell::new(Vec::new()));
    let service = PreviewImageService::new(
        default_policy(),
        CancellationObservingScanner {
            observed: observed.clone(),
            candidates: vec![preview_candidate("pkg-1", "preview.png")],
        },
        CancellationObservingProcessor {
            observed: observed.clone(),
        },
    );
    let cancellation_token = ToggleCancellationToken::default();

    let result = service
        .process_package_preview_with_cancellation(
            "task-1",
            "pkg-1",
            "sandbox",
            &cancellation_token,
        )
        .expect("preview result");

    assert!(matches!(result, PreviewImageProcessingResult::Thumbnail(_)));
    assert_eq!(observed.borrow().as_slice(), &[false, false]);
}

#[test]
fn stops_before_processing_next_candidate_when_cancelled() {
    let processed_paths = Rc::new(RefCell::new(Vec::new()));
    let cancellation_token = Rc::new(ToggleCancellationToken::default());
    let service = PreviewImageService::new(
        default_policy(),
        FakeScanner::new(vec![
            preview_candidate("pkg-1", "first.png"),
            preview_candidate("pkg-1", "second.png"),
        ]),
        CancellingProcessor {
            processed_paths: processed_paths.clone(),
            cancellation_token: cancellation_token.clone(),
        },
    );

    let error = service
        .process_package_preview_with_cancellation(
            "task-1",
            "pkg-1",
            "sandbox",
            cancellation_token.as_ref(),
        )
        .expect_err("cancellation stops preview processing");

    assert_eq!(error, PreviewImageError::Cancelled);
    assert!(error.message().contains("cancelled"));
    assert_eq!(*processed_paths.borrow(), vec!["first.png".to_owned()]);
}

#[test]
fn candidate_list_uses_import_record_and_returns_bounded_display_fields() {
    let located_packages = Rc::new(RefCell::new(Vec::new()));
    let service = PreviewImageCandidateListService::new(
        PreviewImagePolicy {
            max_candidates_per_package: 2,
            ..default_policy()
        },
        FakeModImportResultRepository::holding(Some(stored_analysis("mod-1", "pkg-1"))),
        FakeSandboxLocator {
            located_packages: located_packages.clone(),
        },
        FakeScanner::new(vec![
            preview_candidate("pkg-1", "nested/preview.png"),
            preview_candidate("pkg-1", "cover.webp"),
            preview_candidate("pkg-1", "extra.jpg"),
        ]),
    );

    let result = service
        .list_candidates("mod-1")
        .expect("candidate list succeeds")
        .expect("mod exists");

    assert_eq!(result.mod_id, "mod-1");
    assert_eq!(*located_packages.borrow(), vec!["pkg-1".to_owned()]);
    assert_eq!(
        result.candidates,
        vec![
            PreviewImageCandidateSummary {
                candidate_index: 0,
                file_name: "preview.png".to_owned(),
                compressed_size_bytes: 0,
            },
            PreviewImageCandidateSummary {
                candidate_index: 1,
                file_name: "cover.webp".to_owned(),
                compressed_size_bytes: 0,
            },
        ]
    );
}

#[test]
fn candidate_list_returns_none_for_unknown_mod_without_scanning() {
    let service = PreviewImageCandidateListService::new(
        default_policy(),
        FakeModImportResultRepository::holding(None),
        locator(),
        PanicScanner,
    );

    let result = service
        .list_candidates("missing-mod")
        .expect("candidate list query succeeds");

    assert!(result.is_none());
}

#[test]
fn selected_candidate_updates_import_record_with_resolved_thumbnail() {
    let repository = FakeModImportResultRepository::holding(Some(stored_analysis("mod-1", "pkg-1")));
    let processed_paths = Rc::new(RefCell::new(Vec::new()));
    let service = PreviewImageCandidateSelectionService::new(
        default_policy(),
        repository.sharing(),
        locator(),
        FakeScanner::new(vec![
            preview_candidate("pkg-1", "first.png"),
            preview_candidate("pkg-1", "second.png"),
        ]),
        RecordingProcessor::new(
            processed_paths.clone(),
            vec![thumbnail("pkg-1", "hash-2", 640, 360)],
        ),
        FakeThumbnailStore,
    );

    let result = service
        .select_candidate("mod-1", 1)
        .expect("selection succeeds")
        .expect("mod exists");

    assert_eq!(*processed_paths.borrow(), vec!["second.png".to_owned()]);
    assert_eq!(
        result,
        ImportPreviewImage::Thumbnail {
            thumbnail_url: "thumbnail://pkg-1/preview-768/hash-2".to_owned(),
            width: 640,
            height: 360,
            content_hash: "hash-2".to_owned(),
            variant: "preview-768".to_owned(),
        }
    );
    assert_eq!(
        repository
            .get_analysis("mod-1")
            .expect("record read succeeds")
            .expect("record exists")
            .preview_image,
        StoredImportPreviewImage::Thumbnail {
            thumbnail_url: "thumbnail://pkg-1/preview-768/hash-2".to_owned(),
            width: 640,
            height: 360,
            content_hash: "hash-2".to_owned(),
            variant: "preview-768".to_owned(),
        }
    );
}

#[test]
fn selected_candidate_returns_none_for_unknown_mod_without_scanning() {
    let service = PreviewImageCandidateSelectionService::new(
        default_policy(),
        FakeModImportResultRepository::holding(None),
        locator(),
        PanicScanner,
        fake_processor(vec![]),
        FakeThumbnailStore,
    );

    let result = service
        .select_candidate("missing-mod", 0)
        .expect("selection query succeeds");

    assert!(result.is_none());
}

#[test]
fn detail_preview_uses_larger_variant_without_updating_import_record() {
    let original = stored_analysis("mod-1", "pkg-1");
    let repository = FakeModImportResultRepository::holding(Some(original.clone()));
    let observed_edges = Rc::new(RefCell::new(Vec::new()));
    let service = PreviewImageDetailService::new(
        PreviewImagePolicy {
            output_max_edge_px: 1024,
            ..default_policy()
        },
        repository.sharing(),
        locator(),
        FakeScanner::new(vec![preview_candidate("pkg-1", "preview.png")]),
        PolicyRecordingProcessor {
            observed_edges: observed_edges.clone(),
        },
        FakeThumbnailStore,
    );

    let result = service
        .get_detail_preview_image("mod-1")
        .expect("detail preview succeeds")
        .expect("mod exists");

    assert_eq!(*observed_edges.borrow(), vec![1024]);
    assert_eq!(
        result,
        ImportPreviewImage::Thumbnail {
            thumbnail_url: "thumbnail://pkg-1/preview-1024/hash-1024".to_owned(),
            width: 1024,
            height: 576,
            content_hash: "hash-1024".to_owned(),
            variant: "preview-1024".to_owned(),
        }
    );
    assert_eq!(repository.save_calls.get(), 0);
    assert_eq!(
        repository
            .get_analysis("mod-1")
            .expect("record read succeeds")
            .expect("record exists")
            .preview_image,
        original.preview_image
    );
}

#[test]
fn an_unresolvable_thumbnail_is_recorded_as_a_cache_write_fallback() {
    let repository = FakeModImportResultRepository::holding(Some(stored_analysis("mod-1", "pkg-1")));
    let service = PreviewImageCandidateSelectionService::new(
        default_policy(),
        repository.sharing(),
        locator(),
        FakeScanner::new(vec![preview_candidate("pkg-1", "first.png")]),
        fake_processor(vec![thumbnail("pkg-1", "hash", 4, 4)]),
        FailingThumbnailStore,
    );

    let result = service.select_candidate("mod-1", 0).unwrap().unwrap();

    assert_eq!(
        result,
        ImportPreviewImage::Fallback {
            reason: PreviewImageRejectionReason::CacheWriteFailed
        }
    );
    assert_eq!(
        repository.get_analysis("mod-1").unwrap().unwrap().preview_image,
        StoredImportPreviewImage::Fallback {
            reason: PreviewImageRejectionReason::CacheWriteFailed
        }
    );
}

#[test]
fn a_policy_without_candidates_is_refused_before_scanning() {
    let service = PreviewImageService::new(
        PreviewImagePolicy {
            max_candidates_per_package: 0,
            ..default_policy()
        },
        PanicScanner,
        fake_processor(vec![]),
    );
    assert_eq!(
        service.process_package_preview("task-1", "pkg-1", "sandbox"),
        Err(PreviewImageError::InvalidPolicy)
    );
}

#[test]
fn bounded_candidates_and_summaries_keep_scan_order() {
    let candidates = vec![
        preview_candidate("pkg-1", "a.png"),
        preview_candidate("pkg-1", "b.png"),
        preview_candidate("pkg-1", "c.png"),
    ];
    let bounded = bounded_candidates(candidates.clone(), 2);
    assert_eq!(bounded.len(), 2);
    assert_eq!(bounded[1].file_name, "b.png");
    assert_eq!(bounded_candidates(candidates.clone(), 5).len(), 3);
    let summaries = candidate_summaries(&candidates, 5);
    assert_eq!(summaries.len(), 3);
    assert_eq!(summaries[2].candidate_index, 2);
    assert_eq!(summaries[2].file_name, "c.png");
    let stored = stored_preview_from_import(&ImportPreviewImage::Fallback {
        reason: PreviewImageRejectionReason::TooLarge,
    });
    assert_eq!(
        stored,
        StoredImportPreviewImage::Fallback {
            reason: PreviewImageRejectionReason::TooLarge
        }
    );
}
