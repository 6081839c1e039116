use hmm_app::diagnostics::{
    diagnostic_export_category_key, diagnostic_export_category_status_key,
    diagnostic_export_exclusion_reason_key, export_file_name,
    preview_image_diagnostic_export_categories, preview_image_diagnostics_from_stored,
    preview_image_rejection_reason_key, PreviewImageDiagnosticExportCategoryId,
    PreviewImageDiagnosticExportCategoryStatus, PreviewImageDiagnosticExportExclusionReason,
    PreviewImageDiagnosticExportCategory, PreviewImageFallbackDiagnostic,
    PreviewImageRejectionReason, StoredImportPreviewImage,
};

fn fallback(reason: PreviewImageRejectionReason) -> StoredImportPreviewImage {
    StoredImportPreviewImage::Fallback { reason }
}

fn thumbnail() -> StoredImportPreviewImage {
    StoredImportPreviewImage::Thumbnail {
        thumbnail_url: "thumbnail://pkg/preview-768/hash".to_owned(),
        width: 4,
        height: 4,
        content_hash: "hash".to_owned(),
        variant: "preview-768".to_owned(),
    }
}

#[test]
fn preview_image_rejection_reason_key_returns_contract_values() {
    assert_eq!(
        [
            preview_image_rejection_reason_key(PreviewImageRejectionReason::Missing),
            preview_image_rejection_reason_key(PreviewImageRejectionReason::TooLarge),
            preview_image_rejection_reason_key(PreviewImageRejectionReason::TooManyCandidates),
            preview_image_rejection_reason_key(PreviewImageRejectionReason::UnsupportedFormat),
            preview_image_rejection_reason_key(PreviewImageRejectionReason::DecodeFailed),
            preview_image_rejection_reason_key(PreviewImageRejectionReason::PixelLimitExceeded),
            preview_image_rejection_reason_key(PreviewImageRejectionReason::CacheWriteFailed),
        ],
        [
            "missing",
            "too_large",
            "too_many_candidates",
            "unsupported_format",
            "decode_failed",
            "pixel_limit_exceeded",
            "cache_write_failed",
        ]
    );
}

#[test]
fn diagnostics_count_thumbnails_and_fallback_reasons_in_first_seen_order() {
    let summary = preview_image_diagnostics_from_stored(&vec![
        fallback(PreviewImageRejectionReason::DecodeFailed),
        thumbnail(),
        fallback(PreviewImageRejectionReason::Missing),
        fallback(PreviewImageRejectionReason::DecodeFailed),
    ]);
    assert_eq!(summary.total_imported_mods, 4);
    assert_eq!(summary.thumbnail_count, 1);
    assert_eq!(summary.fallback_count, 3);
    assert_eq!(
        summary.fallback_reasons,
        vec![
            PreviewImageFallbackDiagnostic {
                reason: PreviewImageRejectionReason::DecodeFailed,
                count: 2
            },
            PreviewImageFallbackDiagnostic {
                reason: PreviewImageRejectionReason::Missing,
                count: 1
            },
        ]
    );
    assert_eq!(summary.export_categories, preview_image_diagnostic_export_categories());
    let empty = preview_image_diagnostics_from_stored(&vec![]);
    assert_eq!(empty.total_imported_mods, 0);
    assert!(empty.fallback_reasons.is_empty());
}

#[test]
fn only_the_summary_is_exported() {
    let categories = preview_image_diagnostic_export_categories();
    assert_eq!(categories.len(), 4);
    assert_eq!(
        categories[0].category,
        PreviewImageDiagnosticExportCategoryId::PreviewImageSummary
    );
    assert_eq!(
        categories[0].status,
        PreviewImageDiagnosticExportCategoryStatus::Included
    );
    assert!(categories[0].reason.is_none());
    assert!(categories[1..]
        .iter()
        .all(|c| c.status == PreviewImageDiagnosticExportCategoryStatus::Excluded
            && c.reason.is_some()));
    assert_eq!(
        diagnostic_export_category_key(PreviewImageDiagnosticExportCategoryId::ThumbnailUrls),
        "thumbnail_urls"
    );
    assert_eq!(
        diagnostic_export_category_status_key(PreviewImageDiagnosticExportCategoryStatus::Excluded),
        "excluded"
    );
    assert_eq!(
        diagnostic_export_exclusion_reason_key(
            PreviewImageDiagnosticExportExclusionReason::ThirdPartyModContent
        ),
        "third_party_mod_content"
    );
    assert_eq!(export_file_name(42), "preview-image-diagnostics-42.zip");
}

#[test]
fn library_service_summarizes_preview_image_diagnostics_without_content() {
    let previews = vec![
        StoredImportPreviewImage::Thumbnail {
            thumbnail_url: "thumbnail://pkg-thumbnail/preview-768/hash-1".to_owned(),
            width: 320,
            height: 180,
            content_hash: "hash-1".to_owned(),
            variant: "preview-768".to_owned(),
        },
        fallback(PreviewImageRejectionReason::Missing),
        fallback(PreviewImageRejectionReason::DecodeFailed),
        fallback(PreviewImageRejectionReason::DecodeFailed),
    ];

    let summary = preview_image_diagnostics_from_stored(&previews);

    assert_eq!(summary.total_imported_mods, 4);
    assert_eq!(summary.thumbnail_count, 1);
    assert_eq!(summary.fallback_count, 3);
    assert_eq!(
        summary.fallback_reasons,
        vec![
            PreviewImageFallbackDiagnostic {
                reason: PreviewImageRejectionReason::Missing,
                count: 1,
            },
            PreviewImageFallbackDiagnostic {
                reason: PreviewImageRejectionReason::DecodeFailed,
                count: 2,
            },
        ]
    );
    assert_eq!(
        summary.export_categories,
        vec![
            PreviewImageDiagnosticExportCategory {
                category: PreviewImageDiagnosticExportCategoryId::PreviewImageSummary,
                status: PreviewImageDiagnosticExportCategoryStatus::Included,
                reason: None,
            },
            PreviewImageDiagnosticExportCategory {
                category: PreviewImageDiagnosticExportCategoryId::ThumbnailFiles,
                status: PreviewImageDiagnosticExportCategoryStatus::Excluded,
                reason: Some(PreviewImageDiagnosticExportExclusionReason::DerivedImageContent),
            },
            PreviewImageDiagnosticExportCategory {
                category: PreviewImageDiagnosticExportCategoryId::ThumbnailUrls,
                status: PreviewImageDiagnosticExportCategoryStatus::Excluded,
                reason: Some(PreviewImageDiagnosticExportExclusionReason::OpaqueResourceReference),
            },
            PreviewImageDiagnosticExportCategory {
                category: PreviewImageDiagnosticExportCategoryId::RawPackageContent,
                status: PreviewImageDiagnosticExportCategoryStatus::Excluded,
                reason: Some(PreviewImageDiagnosticExportExclusionReason::ThirdPartyModContent),
            },
        ]
    );
}
