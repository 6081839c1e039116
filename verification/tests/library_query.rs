use hmm_app::ids::{GameId, ModId, ProfileId};
use hmm_app::library::{
    CategoryLabel, InstallManifestStatus, InstallManifestStatusSummary, ModLibraryItem,
    ModLibrarySnapshotItem,
};
use hmm_app::library_query::{
    ModLibraryFilter, ModLibraryPage, ModLibraryProfileContext, ModLibraryQuery,
    ModLibraryQueryError, ModLibraryQueryService, ModLibrarySource, ModLibraryStatusProvider,
    ModLibraryStatusProviderError, MAX_MOD_LIBRARY_SEARCH_CHARS,
};
use std::cell::RefCell;
use std::collections::HashMap;
use std::rc::Rc;

#[derive(Clone)]
struct Record {
    mod_id: String,
    name: String,
    author: Option<String>,
    tags: Vec<String>,
}

fn record(mod_id: &str, name: &str) -> Record {
    Record { mod_id: mod_id.to_owned(), name: name.to_owned(), author: None, tags: Vec::new() }
}

#[derive(Clone)]
struct Overlay {
    mod_id: String,
    name: Option<String>,
    author: Option<String>,
}

fn overlay(mod_id: &str, name: Option<&str>, author: Option<&str>) -> Overlay {
    Overlay { mod_id: mod_id.to_owned(), name: name.map(str::to_owned), author: author.map(str::to_owned) }
}

#[derive(Clone)]
struct Category {
    id: String,
    name: String,
}

fn category(id: &str, name: &str) -> Category {
    Category { id: id.to_owned(), name: name.to_owned() }
}

/// The library as the catalog, the metadata overlays and the user categories describe it.
struct FakeLibrary {
    records: Vec<Record>,
    overlays: Vec<Overlay>,
    categories: Vec<Category>,
    pairs: Vec<(String, Category)>,
    fail_library: bool,
    fail_metadata: bool,
    fail_category_get: bool,
}

impl ModLibrarySource for FakeLibrary {
    fn get_mod_library_snapshot(&self) -> Result<Vec<ModLibrarySnapshotItem>, ()> {
        if self.fail_library || self.fail_metadata {
            return Err(());
        }
        Ok(self
            .records
            .iter()
            .map(|record| {
                let overlay = self.overlays.iter().find(|o| o.mod_id == record.mod_id);
                let user_categories: Vec<&Category> = self
                    .pairs
                    .iter()
                    .filter(|(mod_id, _)| *mod_id == record.mod_id)
                    .map(|(_, category)| category)
                    .collect();
                let mut labels: Vec<CategoryLabel> = record
                    .tags
                    .iter()
                    .map(|tag| CategoryLabel { name: tag.clone(), color: None })
                    .collect();
                labels.extend(user_categories.iter().map(|c| CategoryLabel { name: c.name.clone(), color: None }));
                ModLibrarySnapshotItem {
                    item: ModLibraryItem {
                        id: record.mod_id.clone(),
                        name: overlay.and_then(|o| o.name.clone()).unwrap_or_else(|| record.name.clone()),
                        author: overlay.and_then(|o| o.author.clone()).or_else(|| record.author.clone()),
                        version_label: None,
                        size_label: String::new(),
                        category_labels: labels,
                        external_import_adapter_id: None,
                    },
                    user_category_ids: user_categories.iter().map(|c| c.id.clone()).collect(),
                }
            })
            .collect())
    }

    fn category_exists(&self, category_id: &str) -> Result<bool, ()> {
        if self.fail_category_get {
            return Err(());
        }
        Ok(self.categories.iter().any(|category| category.id == category_id))
    }
}

#[derive(Default)]
struct FakeStatusProvider {
    statuses: HashMap<String, InstallManifestStatus>,
    override_summaries: Option<Vec<InstallManifestStatusSummary>>,
    fail: bool,
    calls: RefCell<Vec<Vec<String>>>,
}

impl FakeStatusProvider {
    fn failing() -> Self {
        FakeStatusProvider { fail: true, ..FakeStatusProvider::default() }
    }
}

#[derive(Clone)]
struct Provider(Rc<FakeStatusProvider>);

impl ModLibraryStatusProvider for Provider {
    fn query_statuses(
        &self,
        context: &ModLibraryProfileContext,
        mod_ids: &[ModId],
    ) -> Result<Vec<InstallManifestStatusSummary>, ModLibraryStatusProviderError> {
        self.0.calls.borrow_mut().push(mod_ids.iter().map(|m| m.as_str().to_owned()).collect());
        if self.0.fail {
            return Err(ModLibraryStatusProviderError::Unavailable);
        }
        if let Some(summaries) = &self.0.override_summaries {
            return Ok(summaries.clone());
        }
        Ok(mod_ids
            .iter()
            .map(|mod_id| {
                let status = self.0.statuses.get(mod_id.as_str()).copied().unwrap_or(InstallManifestStatus::NotInstalled);
                InstallManifestStatusSummary {
                    profile_id: context.profile_id.clone(),
                    mod_id: mod_id.clone(),
                    status,
                    managed_file_count: usize::from(status == InstallManifestStatus::Installed),
                    backup_count: 0,
                    installed_revision_id: None,
                    adopted_file_count: None,
                }
            })
            .collect())
    }
}

type Service = ModLibraryQueryService<FakeLibrary, Provider>;

#[allow(clippy::too_many_arguments)]
fn test_service_with_failures(
    records: Vec<Record>,
    overlays: Vec<Overlay>,
    categories: Vec<Category>,
    pairs: Vec<(String, Category)>,
    fail_library: bool,
    fail_metadata: bool,
    fail_category_get: bool,
    provider: Rc<FakeStatusProvider>,
) -> Service {
    ModLibraryQueryService::new(
        FakeLibrary { records, overlays, categories, pairs, fail_library, fail_metadata, fail_category_get },
        Provider(provider),
    )
}

fn test_service(
    records: Vec<Record>,
    overlays: Vec<Overlay>,
    categories: Vec<Category>,
    pairs: Vec<(String, Category)>,
    provider: Rc<FakeStatusProvider>,
) -> Service {
    test_service_with_failures(records, overlays, categories, pairs, false, false, false, provider)
}

fn empty_service() -> Service {
    test_service(Vec::new(), Vec::new(), Vec::new(), Vec::new(), Rc::new(FakeStatusProvider::default()))
}

fn ids(page: &ModLibraryPage) -> Vec<&str> {
    page.items.iter().map(|entry| entry.item.id.as_str()).collect()
}

fn profile_context() -> ModLibraryProfileContext {
    ModLibraryProfileContext { game_id: GameId::new("mhw"), profile_id: ProfileId::new("profile-a") }
}

#[test]
fn validates_page_page_size_and_search_length() {
    let service = empty_service();

    assert_eq!(service.query(ModLibraryQuery { page: 0, ..ModLibraryQuery::default() }), Err(ModLibraryQueryError::PageInvalid));
    assert_eq!(
        service.query(ModLibraryQuery { page_size: 25, ..ModLibraryQuery::default() }),
        Err(ModLibraryQueryError::PageSizeUnsupported)
    );
    for page_size in [12, 24, 48, 96] {
        let page = service.query(ModLibraryQuery { page_size, ..ModLibraryQuery::default() }).expect("allowlisted page size");
        assert_eq!(page.page_size, page_size);
    }

    service
        .query(ModLibraryQuery { search: "界".repeat(MAX_MOD_LIBRARY_SEARCH_CHARS), ..ModLibraryQuery::default() })
        .expect("128 Unicode scalars are allowed");
    assert_eq!(
        service.query(ModLibraryQuery { search: "界".repeat(MAX_MOD_LIBRARY_SEARCH_CHARS + 1), ..ModLibraryQuery::default() }),
        Err(ModLibraryQueryError::SearchTooLong)
    );
}

#[test]
fn covers_page_boundaries_and_clamps_extreme_pages() {
    for count in [0_usize, 1, 11, 12, 13, 23, 24, 25, 95, 96, 97] {
        let records = (0..count).map(|index| record(&format!("mod-{index:03}"), &format!("Mod {index:03}"))).collect();
        let page = test_service(records, Vec::new(), Vec::new(), Vec::new(), Rc::new(FakeStatusProvider::default()))
            .query(ModLibraryQuery { page: u64::MAX, page_size: 12, ..ModLibraryQuery::default() })
            .expect("boundary query");

        let expected_page = if count == 0 { 1 } else { count.div_ceil(12) as u64 };
        let expected_items = if count == 0 { 0 } else { count - (expected_page as usize - 1) * 12 };
        assert_eq!(page.page, expected_page, "count={count}");
        assert_eq!(page.items.len(), expected_items, "count={count}");
        assert_eq!(page.library_total, count, "count={count}");
        assert_eq!(page.matching_total, count, "count={count}");
    }
}

#[test]
fn returns_only_the_requested_page_after_stable_sorting() {
    let records = (0..25).rev().map(|index| record(&format!("mod-{index:03}"), &format!("Mod {index:03}"))).collect();
    let page = test_service(records, Vec::new(), Vec::new(), Vec::new(), Rc::new(FakeStatusProvider::default()))
        .query(ModLibraryQuery { page: 2, page_size: 12, ..ModLibraryQuery::default() })
        .expect("second page");

    assert_eq!(page.page, 2);
    assert_eq!(page.items.len(), 12);
    assert_eq!(ids(&page).first(), Some(&"mod-012"));
    assert_eq!(ids(&page).last(), Some(&"mod-023"));
}

#[test]
fn searches_overlay_name_author_metadata_tags_and_user_category_names() {
    let mut name_record = record("mod-name", "  ÉPÉE   Alpha  ");
    name_record.author = Some("Import Author".to_owned());
    let mut tag_record = record("mod-tag", "Tag Candidate");
    tag_record.tags = vec!["Visual   FX".to_owned()];
    let user_category = category("cat-quest", "Quest Tools");
    let service = test_service(
        vec![
            name_record,
            record("mod-author", "Author Candidate"),
            record("mod-overlay-name", "Original Name"),
            tag_record,
            record("mod-category", "Category Candidate"),
        ],
        vec![overlay("mod-author", None, Some("Overlay Builder")), overlay("mod-overlay-name", Some("Renamed Sword"), None)],
        vec![user_category.clone()],
        vec![("mod-category".to_owned(), user_category)],
        Rc::new(FakeStatusProvider::default()),
    );

    for (search, expected_id) in [
        (" épée alpha ", "mod-name"),
        ("import author", "mod-name"),
        ("overlay builder", "mod-author"),
        ("renamed sword", "mod-overlay-name"),
        ("visual fx", "mod-tag"),
        ("quest tools", "mod-category"),
    ] {
        let page = service
            .query(ModLibraryQuery { search: search.to_owned(), page_size: 12, ..ModLibraryQuery::default() })
            .expect("search query");
        assert_eq!(ids(&page), vec![expected_id], "search={search}");
    }
}

#[test]
fn category_filter_uses_id_even_when_labels_are_equal() {
    let category_a = category("cat-a", "Shared");
    let category_b = category("cat-b", "Shared");
    let empty_category = category("cat-empty", "Empty");
    let service = test_service(
        vec![record("mod-a", "Alpha"), record("mod-b", "Beta")],
        Vec::new(),
        vec![category_a.clone(), category_b.clone(), empty_category.clone()],
        vec![("mod-a".to_owned(), category_a), ("mod-b".to_owned(), category_b)],
        Rc::new(FakeStatusProvider::default()),
    );

    let page = service
        .query(ModLibraryQuery { filter: ModLibraryFilter::Category("cat-b".to_owned()), page_size: 12, ..ModLibraryQuery::default() })
        .expect("category id query");
    assert_eq!(ids(&page), vec!["mod-b"]);

    let empty = service
        .query(ModLibraryQuery { filter: ModLibraryFilter::Category(empty_category.id), page_size: 12, ..ModLibraryQuery::default() })
        .expect("existing empty category");
    assert_eq!(empty.library_total, 2);
    assert_eq!(empty.matching_total, 0);
    assert_eq!(empty.page, 1);

    assert_eq!(
        service.query(ModLibraryQuery { filter: ModLibraryFilter::Category("missing".to_owned()), page_size: 12, ..ModLibraryQuery::default() }),
        Err(ModLibraryQueryError::CategoryNotFound)
    );
}

#[test]
fn status_is_merged_for_the_full_snapshot_before_filtering() {
    let provider = Rc::new(FakeStatusProvider {
        statuses: HashMap::from([
            ("mod-a".to_owned(), InstallManifestStatus::Installed),
            ("mod-b".to_owned(), InstallManifestStatus::CleanupPending),
            ("mod-c".to_owned(), InstallManifestStatus::NotInstalled),
        ]),
        ..FakeStatusProvider::default()
    });
    let service = test_service(
        vec![record("mod-a", "Alpha"), record("mod-b", "Beta"), record("mod-c", "Gamma")],
        Vec::new(),
        Vec::new(),
        Vec::new(),
        Rc::clone(&provider),
    );

    let page = service
        .query(ModLibraryQuery {
            profile_context: Some(profile_context()),
            filter: ModLibraryFilter::Status(InstallManifestStatus::CleanupPending),
            page_size: 12,
            ..ModLibraryQuery::default()
        })
        .expect("status filter");

    assert_eq!(ids(&page), vec!["mod-b"]);
    assert_eq!(page.items[0].install_summary.as_ref().map(|s| s.status), Some(InstallManifestStatus::CleanupPending));
    assert_eq!(*provider.calls.borrow(), vec![vec!["mod-a".to_owned(), "mod-b".to_owned(), "mod-c".to_owned()]]);
}

#[test]
fn profileless_queries_are_available_but_status_filter_fails_closed() {
    let provider = Rc::new(FakeStatusProvider::failing());
    let service = test_service(vec![record("mod-a", "Alpha")], Vec::new(), Vec::new(), Vec::new(), Rc::clone(&provider));

    let page = service.query(ModLibraryQuery { page_size: 12, ..ModLibraryQuery::default() }).expect("profileless all query");
    assert_eq!(ids(&page), vec!["mod-a"]);
    assert!(page.items[0].install_summary.is_none());
    assert!(provider.calls.borrow().is_empty());

    assert_eq!(
        service.query(ModLibraryQuery {
            filter: ModLibraryFilter::Status(InstallManifestStatus::Installed),
            page_size: 12,
            ..ModLibraryQuery::default()
        }),
        Err(ModLibraryQueryError::ProfileContextRequired)
    );
}

#[test]
fn overlay_is_applied_before_name_sort_and_mod_id_breaks_ties() {
    let page = test_service(
        vec![record("mod-b", "Same"), record("mod-a", "Same"), record("mod-c", "Zulu")],
        vec![overlay("mod-c", Some("Aardvark"), None)],
        Vec::new(),
        Vec::new(),
        Rc::new(FakeStatusProvider::default()),
    )
    .query(ModLibraryQuery { page_size: 12, ..ModLibraryQuery::default() })
    .expect("sorted query");

    assert_eq!(ids(&page), vec!["mod-c", "mod-a", "mod-b"]);
    assert_eq!(page.items[0].item.name, "Aardvark");
}

#[test]
fn repository_and_status_failures_return_stable_errors() {
    let library_failure = test_service_with_failures(
        vec![record("mod-a", "Alpha")], Vec::new(), Vec::new(), Vec::new(), true, false, false, Rc::new(FakeStatusProvider::default()),
    );
    assert_eq!(library_failure.query(ModLibraryQuery { page_size: 12, ..ModLibraryQuery::default() }), Err(ModLibraryQueryError::LibraryUnavailable));

    let metadata_failure = test_service_with_failures(
        vec![record("mod-a", "Alpha")], Vec::new(), Vec::new(), Vec::new(), false, true, false, Rc::new(FakeStatusProvider::default()),
    );
    assert_eq!(metadata_failure.query(ModLibraryQuery { page_size: 12, ..ModLibraryQuery::default() }), Err(ModLibraryQueryError::LibraryUnavailable));

    let category_failure = test_service_with_failures(
        vec![record("mod-a", "Alpha")], Vec::new(), vec![category("cat-a", "Category")], Vec::new(), false, false, true,
        Rc::new(FakeStatusProvider::default()),
    );
    assert_eq!(
        category_failure.query(ModLibraryQuery { filter: ModLibraryFilter::Category("cat-a".to_owned()), page_size: 12, ..ModLibraryQuery::default() }),
        Err(ModLibraryQueryError::LibraryUnavailable)
    );

    let status_failure = test_service(vec![record("mod-a", "Alpha")], Vec::new(), Vec::new(), Vec::new(), Rc::new(FakeStatusProvider::failing()));
    assert_eq!(
        status_failure.query(ModLibraryQuery { profile_context: Some(profile_context()), page_size: 12, ..ModLibraryQuery::default() }),
        Err(ModLibraryQueryError::StatusUnavailable)
    );
}

#[test]
fn malformed_status_responses_and_duplicate_library_ids_fail_closed() {
    let incomplete_provider = Rc::new(FakeStatusProvider { override_summaries: Some(Vec::new()), ..FakeStatusProvider::default() });
    let incomplete_status = test_service(vec![record("mod-a", "Alpha")], Vec::new(), Vec::new(), Vec::new(), incomplete_provider);
    assert_eq!(
        incomplete_status.query(ModLibraryQuery { profile_context: Some(profile_context()), page_size: 12, ..ModLibraryQuery::default() }),
        Err(ModLibraryQueryError::StatusUnavailable)
    );

    let duplicate_library = test_service(
        vec![record("mod-a", "Alpha"), record("mod-a", "Duplicate")], Vec::new(), Vec::new(), Vec::new(), Rc::new(FakeStatusProvider::default()),
    );
    assert_eq!(duplicate_library.query(ModLibraryQuery { page_size: 12, ..ModLibraryQuery::default() }), Err(ModLibraryQueryError::LibraryUnavailable));
}
