use hmm_app::ids::{GameId, ModId};
use hmm_app::metadata::PortFailure;
use hmm_app::package_contents::{
    check_content_root_choice, strip_content_root, GameInstallPolicy, PackageContentRoot,
    PackageContents, PackageContentsQueryError, PackageContentsQueryRequest, PathText,
    PackageContentsQueryService, PackageContentsSources, ScannedPackageContents,
    ScannedPackageFile,
};
use std::cell::RefCell;
use std::rc::Rc;

#[derive(Clone)]
struct StubAdapter {
    allowed_roots: Vec<String>,
    rejected_extensions: Vec<String>,
}

impl GameInstallPolicy for StubAdapter {
    fn installs_target(&self, _target_path: PathText) -> bool {
        // The verdicts exist for the proofs only; the methods below give them at run time.
        unreachable!()
    }

    fn rejects_file_name(&self, _file_name: PathText) -> bool {
        // The verdicts exist for the proofs only; the methods below give them at run time.
        unreachable!()
    }

    fn is_installable_target(&self, target_path: &str) -> bool {
        self.allowed_roots
            .iter()
            .any(|root| target_path.starts_with(&format!("{root}/")))
    }

    fn is_rejected_install_file_name(&self, file_name: &str) -> bool {
        self.rejected_extensions
            .iter()
            .any(|extension| file_name.to_ascii_lowercase().ends_with(&format!(".{extension}")))
    }
}

#[derive(Default)]
struct Choices {
    saved: RefCell<Option<(String, String)>>,
    cleared: RefCell<Vec<String>>,
}

struct Sources {
    adapter: StubAdapter,
    scan: Result<ScannedPackageContents, String>,
    choices: Rc<Choices>,
}

impl PackageContentsSources for Sources {
    type Policy = StubAdapter;

    fn game_policy(&self, game_id: &GameId) -> Option<StubAdapter> {
        if game_id.as_str() == "mhw" {
            Some(self.adapter.clone())
        } else {
            None
        }
    }

    fn analysis_package_id(&self, mod_id: &str) -> Result<Option<String>, PortFailure> {
        if mod_id != "mod-a" {
            return Ok(None);
        }
        Ok(Some("package-a".to_owned()))
    }

    fn sandbox_root_for_package(&self, package_id: &str) -> Result<String, PortFailure> {
        Ok(format!("/sandbox/{package_id}"))
    }

    fn scan_package_contents(
        &self,
        _package_id: &str,
        _sandbox_root: &str,
    ) -> Result<ScannedPackageContents, String> {
        self.scan.clone()
    }

    fn save_content_root(&self, package_id: &str, content_root: &str) -> Result<(), PortFailure> {
        *self.choices.saved.borrow_mut() = Some((package_id.to_owned(), content_root.to_owned()));
        Ok(())
    }

    fn clear_content_root(&self, package_id: &str) -> Result<(), PortFailure> {
        self.choices.cleared.borrow_mut().push(package_id.to_owned());
        Ok(())
    }
}

fn entry(package_file_id: &str) -> ScannedPackageFile {
    ScannedPackageFile { package_file_id: package_file_id.to_owned(), size_bytes: 1 }
}

fn adapter(rejected: Vec<String>) -> StubAdapter {
    StubAdapter { allowed_roots: vec!["nativePC".to_owned()], rejected_extensions: rejected }
}

fn service_with(
    scan: Result<ScannedPackageContents, String>,
    rejected: Vec<String>,
    choices: Rc<Choices>,
) -> PackageContentsQueryService<Sources> {
    PackageContentsQueryService::with_imported_mod_sources(Sources {
        adapter: adapter(rejected),
        scan,
        choices,
    })
}

fn service(contents: ScannedPackageContents) -> PackageContentsQueryService<Sources> {
    service_with(Ok(contents), vec!["exe".to_owned()], Rc::new(Choices::default()))
}

fn request() -> PackageContentsQueryRequest {
    PackageContentsQueryRequest { game_id: GameId::new("mhw"), mod_id: ModId::new("mod-a") }
}

fn query(contents: ScannedPackageContents) -> PackageContents {
    service(contents).query(request()).expect("package contents query")
}

#[test]
fn the_reject_list_hit_and_installability_are_reported_as_separate_facts() {
    let contents = query(ScannedPackageContents {
        entries: vec![
            entry("nativePC/wp/two/bs_two012/mod/bs_two012.mod3"),
            entry("nativePC/wp/two/bs_two012/mod/MHWTexConverter_by_Jodo.exe"),
        ],
        content_root: PackageContentRoot::Fallback,
        candidates: Vec::new(),
    });

    let model = &contents.entries[0];
    assert_eq!(model.target_path.as_deref(), Some("nativePC/wp/two/bs_two012/mod/bs_two012.mod3"));
    assert!(model.installable);
    assert!(!model.rejected_by_game);

    let executable = &contents.entries[1];
    assert!(executable.installable);
    assert!(executable.rejected_by_game);
}

#[test]
fn an_ambiguous_content_root_yields_entries_without_target_paths() {
    let contents = query(ScannedPackageContents {
        entries: vec![entry("大剑/nativePC/wp/two003.mod3"), entry("readme.txt")],
        content_root: PackageContentRoot::Ambiguous(vec!["大剑".to_owned(), "太刀".to_owned()]),
        candidates: Vec::new(),
    });

    assert_eq!(
        contents.content_root,
        PackageContentRoot::Ambiguous(vec!["大剑".to_owned(), "太刀".to_owned()])
    );
    assert_eq!(contents.entries.len(), 2);
    for item in &contents.entries {
        assert_eq!(item.target_path, None);
        assert!(!item.installable);
    }
}

#[test]
fn files_outside_the_content_root_are_listed_without_a_target_path() {
    let contents = query(ScannedPackageContents {
        entries: vec![
            entry("readme.txt"),
            entry("黑骑士大剑/nativePC/wp/two003.mod3"),
            entry("黑骑士大剑/预览.png"),
        ],
        content_root: PackageContentRoot::Single("黑骑士大剑".to_owned()),
        candidates: Vec::new(),
    });

    assert_eq!(contents.entries[0].target_path, None);
    assert!(!contents.entries[0].installable);
    assert_eq!(contents.entries[1].target_path.as_deref(), Some("nativePC/wp/two003.mod3"));
    assert!(contents.entries[1].installable);
    assert_eq!(contents.entries[2].target_path.as_deref(), Some("预览.png"));
    assert!(!contents.entries[2].installable);
}

#[test]
fn a_sibling_directory_sharing_the_content_root_prefix_is_not_swallowed() {
    let contents = query(ScannedPackageContents {
        entries: vec![entry("皮肤/nativePC/wp/two003.mod3"), entry("皮肤2/nativePC/wp/two019.mod3")],
        content_root: PackageContentRoot::Single("皮肤".to_owned()),
        candidates: Vec::new(),
    });

    assert_eq!(contents.entries[0].target_path.as_deref(), Some("nativePC/wp/two003.mod3"));
    assert_eq!(contents.entries[1].target_path, None);
}

#[test]
fn a_missing_mod_is_reported_distinctly_from_an_unavailable_sandbox() {
    let error = service(ScannedPackageContents {
        entries: Vec::new(),
        content_root: PackageContentRoot::Fallback,
        candidates: Vec::new(),
    })
    .query(PackageContentsQueryRequest {
        game_id: GameId::new("mhw"),
        mod_id: ModId::new("mod-missing"),
    })
    .expect_err("an unknown Mod fails");

    assert_eq!(error.code(), "package_contents_mod_not_found");
    assert_eq!(error, PackageContentsQueryError::ModNotFound { mod_id: ModId::new("mod-missing") });
}

#[test]
fn scan_failures_keep_their_own_stable_code() {
    let error = service_with(
        Err("imported_mod_file_scan_unsupported_entry".to_owned()),
        Vec::new(),
        Rc::new(Choices::default()),
    )
    .query(request())
    .expect_err("scan failures pass through");

    assert_eq!(error.code(), "imported_mod_file_scan_unsupported_entry");
}

fn collection_contents() -> ScannedPackageContents {
    ScannedPackageContents {
        entries: vec![entry("大剑/nativePC/wp/two003.mod3")],
        content_root: PackageContentRoot::Ambiguous(vec!["大剑".to_owned(), "太刀".to_owned()]),
        candidates: vec![String::new(), "大剑".to_owned(), "太刀".to_owned()],
    }
}

#[test]
fn a_chosen_content_root_is_persisted_against_the_package() {
    let choices = Rc::new(Choices::default());
    service_with(Ok(collection_contents()), Vec::new(), Rc::clone(&choices))
        .choose_content_root(request(), "太刀")
        .expect("a candidate can be chosen");

    assert_eq!(*choices.saved.borrow(), Some(("package-a".to_owned(), "太刀".to_owned())));
}

#[test]
fn a_content_root_outside_the_candidate_list_is_rejected_before_it_is_stored() {
    let choices = Rc::new(Choices::default());
    let error = service_with(Ok(collection_contents()), Vec::new(), Rc::clone(&choices))
        .choose_content_root(request(), "锤")
        .expect_err("a non-candidate is refused");

    assert_eq!(error.code(), "package_contents_content_root_not_a_candidate");
    assert_eq!(*choices.saved.borrow(), None);
}

#[test]
fn the_sandbox_root_itself_is_a_selectable_candidate() {
    let choices = Rc::new(Choices::default());
    service_with(Ok(collection_contents()), Vec::new(), Rc::clone(&choices))
        .choose_content_root(request(), "")
        .expect("the sandbox root is a candidate");

    assert_eq!(*choices.saved.borrow(), Some(("package-a".to_owned(), String::new())));
}

#[test]
fn clearing_a_choice_targets_the_same_package() {
    let choices = Rc::new(Choices::default());
    service_with(Ok(collection_contents()), Vec::new(), Rc::clone(&choices))
        .clear_content_root(request())
        .expect("clear");

    assert_eq!(*choices.cleared.borrow(), vec!["package-a"]);
}

#[test]
fn the_candidate_list_is_projected_independently_of_the_effective_root() {
    let contents = query(ScannedPackageContents {
        entries: Vec::new(),
        content_root: PackageContentRoot::Single("大剑".to_owned()),
        candidates: vec![String::new(), "大剑".to_owned(), "太刀".to_owned()],
    });

    assert_eq!(contents.content_root, PackageContentRoot::Single("大剑".to_owned()));
    assert_eq!(contents.candidates, vec![String::new(), "大剑".to_owned(), "太刀".to_owned()]);
}

#[test]
fn a_service_without_sources_and_an_unknown_game_fail_with_their_own_codes() {
    let empty: PackageContentsQueryService<Sources> = PackageContentsQueryService::new();
    assert_eq!(empty.query(request()).unwrap_err().code(), "package_contents_sources_unavailable");

    let error = service(collection_contents())
        .query(PackageContentsQueryRequest { game_id: GameId::new("other"), mod_id: ModId::new("mod-a") })
        .unwrap_err();
    assert_eq!(error, PackageContentsQueryError::GameAdapterNotFound { game_id: GameId::new("other") });
}

#[test]
fn content_root_stripping_works_by_path_segment() {
    assert_eq!(strip_content_root("a/b.txt", "").as_deref(), Some("a/b.txt"));
    assert_eq!(strip_content_root("root/x/y", "root").as_deref(), Some("x/y"));
    assert_eq!(strip_content_root("root2/x", "root"), None);
    assert_eq!(strip_content_root("root", "root"), None);
    assert!(check_content_root_choice(&vec!["a".to_owned()], "a").is_ok());
    assert_eq!(
        check_content_root_choice(&vec!["a".to_owned()], "b"),
        Err(PackageContentsQueryError::ContentRootNotACandidate)
    );
}
