use hmm_app::attachments::{FileLayer, InstallAction, InstallManifest, InstallManifestEntry};
use hmm_app::selection_plan::{plan_coverage, selection_providers, PlanConflict};
use hmm_app::metadata::PortFailure;
use hmm_app::plugin::{
    candidate_decision, choice_kind, file_effect, file_effects, GamePluginPolicy,
    RetargetFileDisposition, RetargetFileReason, chosen_files, confirmation_check, confirmation_required,
    same_revision, PluginCandidate, PluginCandidateDecision, PluginFileCheck, PluginFileChoice,
    PluginFileChoiceKind, PluginInventory, PluginManifestSource, PluginRevisionCatalog, PluginSelectionRepository,
    PluginSelectionScope, PluginSelectionService, PluginSelectionServiceError,
    PluginSelectionSnapshot,
};
use hmm_app::plugin_inventory::{plugin_inventory_from, ScannedPluginFile};
use hmm_app::reinstall::{summarize, InstalledFileSummary};
use std::cell::RefCell;

fn scope() -> PluginSelectionScope {
    PluginSelectionScope {
        game_id: "game".to_owned(),
        profile_id: "profile".to_owned(),
        mod_id: "mod".to_owned(),
        revision_id: "rev-1".to_owned(),
    }
}

fn file(id: &str, choice: PluginFileChoiceKind, content: &[u8]) -> PluginFileChoice {
    PluginFileChoice {
        package_file_id: id.to_owned(),
        target_path: format!("Data/{id}.esp"),
        source_file: summarize(content),
        choice,
        excluded_by_package_selection: false,
    }
}

fn installed(id: &str, content: &[u8]) -> InstallManifestEntry {
    InstallManifestEntry {
        target_path: format!("data/{}.ESP", id),
        mod_id: "mod".to_owned(),
        revision_id: Some("rev-1".to_owned()),
        package_file_id: id.to_owned(),
        layer: FileLayer {
            name: "base".to_owned(),
            priority: 0,
        },
        backup_ref: None,
        installed_file: Some(summarize(content)),
        adopted: false,
    }
}

fn manifest(entries: Vec<InstallManifestEntry>) -> Option<InstallManifest> {
    Some(InstallManifest {
        profile_id: "profile".to_owned(),
        entries,
    })
}

fn snapshot(inventory_id: &str, files: Vec<PluginFileChoice>) -> PluginSelectionSnapshot {
    PluginSelectionSnapshot {
        scope: scope(),
        policy_id: "policy".to_owned(),
        policy_version: 1,
        files,
        inventory_id: inventory_id.to_owned(),
    }
}

fn candidate(id: &str, selectable: bool, retain_only: bool) -> PluginCandidate {
    PluginCandidate {
        package_file_id: id.to_owned(),
        target_path: format!("Data/{id}.esp"),
        size_bytes: 4,
        check: PluginFileCheck::Supported,
        selected: false,
        selectable,
        installed: false,
        retain_only,
        excluded_by_package: false,
    }
}

#[test]
fn choice_kind_excludes_unselected_and_keeps_retain_only_files_installed() {
    assert_eq!(choice_kind(false, false), PluginFileChoiceKind::Exclude);
    assert_eq!(choice_kind(false, true), PluginFileChoiceKind::Exclude);
    assert_eq!(choice_kind(true, true), PluginFileChoiceKind::RetainInstalled);
    assert_eq!(choice_kind(true, false), PluginFileChoiceKind::Include);
    assert!(PluginFileChoiceKind::Include.is_included());
    assert!(PluginFileChoiceKind::RetainInstalled.is_included());
    assert!(!PluginFileChoiceKind::Exclude.is_included());
}

#[test]
fn unconfirmed_selection_passes_only_when_it_changes_nothing_installed() {
    let installed_manifest = manifest(vec![installed("a", b"aaaa")]);
    let unchanged = snapshot("inv", vec![file("a", PluginFileChoiceKind::Include, b"aaaa")]);
    assert_eq!(confirmation_check(&installed_manifest, &None, &unchanged), Ok(()));

    let changed_content = snapshot("inv", vec![file("a", PluginFileChoiceKind::Include, b"bbbb")]);
    assert_eq!(
        confirmation_check(&installed_manifest, &None, &changed_content),
        Err(PluginSelectionServiceError::ConfirmationRequired)
    );

    let removes_installed = snapshot("inv", vec![file("a", PluginFileChoiceKind::Exclude, b"aaaa")]);
    assert_eq!(
        confirmation_check(&installed_manifest, &None, &removes_installed),
        Err(PluginSelectionServiceError::ConfirmationRequired)
    );

    let adds_new = snapshot("inv", vec![file("b", PluginFileChoiceKind::Include, b"bbbb")]);
    assert_eq!(
        confirmation_check(&installed_manifest, &None, &adds_new),
        Err(PluginSelectionServiceError::ConfirmationRequired)
    );

    let leaves_out_new = snapshot("inv", vec![file("b", PluginFileChoiceKind::Exclude, b"bbbb")]);
    assert_eq!(confirmation_check(&installed_manifest, &None, &leaves_out_new), Ok(()));
}

#[test]
fn confirmed_selection_on_the_same_inventory_must_agree() {
    let empty = manifest(vec![]);
    let confirmed = Some(snapshot(
        "inv",
        vec![
            file("a", PluginFileChoiceKind::Include, b"aaaa"),
            file("b", PluginFileChoiceKind::RetainInstalled, b"bbbb"),
        ],
    ));
    let same = snapshot(
        "inv",
        vec![
            file("a", PluginFileChoiceKind::Include, b"aaaa"),
            file("b", PluginFileChoiceKind::Exclude, b"bbbb"),
        ],
    );
    assert_eq!(confirmation_check(&empty, &confirmed, &same), Ok(()));

    let still_installed = manifest(vec![installed("b", b"bbbb")]);
    assert_eq!(
        confirmation_check(&still_installed, &confirmed, &same),
        Err(PluginSelectionServiceError::InventoryChanged)
    );

    let flipped = snapshot(
        "inv",
        vec![
            file("a", PluginFileChoiceKind::Exclude, b"aaaa"),
            file("b", PluginFileChoiceKind::Exclude, b"bbbb"),
        ],
    );
    assert_eq!(
        confirmation_check(&empty, &confirmed, &flipped),
        Err(PluginSelectionServiceError::InventoryChanged)
    );

    let confirmed_itself = confirmed.clone().unwrap();
    assert_eq!(
        confirmation_check(&still_installed, &confirmed, &confirmed_itself),
        Ok(())
    );

    let other_inventory = snapshot("other", vec![file("a", PluginFileChoiceKind::Include, b"aaaa")]);
    assert_eq!(
        confirmation_check(&empty, &confirmed, &other_inventory),
        Err(PluginSelectionServiceError::ConfirmationRequired)
    );
}

#[test]
fn candidate_decision_follows_policy_installation_and_previous_choice() {
    let summary: InstalledFileSummary = summarize(b"aaaa");
    let existing = Some(installed("a", b"aaaa"));
    assert_eq!(
        candidate_decision(PluginFileCheck::Supported, false, &None, &summary, false, None),
        PluginCandidateDecision {
            selectable: true,
            selected: true,
            retain_only: false
        }
    );
    assert_eq!(
        candidate_decision(PluginFileCheck::Unsupported, true, &existing, &summary, false, None),
        PluginCandidateDecision {
            selectable: true,
            selected: true,
            retain_only: true
        }
    );
    assert_eq!(
        candidate_decision(PluginFileCheck::Unsupported, false, &existing, &summary, false, None),
        PluginCandidateDecision {
            selectable: false,
            selected: false,
            retain_only: false
        }
    );
    assert_eq!(
        candidate_decision(
            PluginFileCheck::Supported,
            true,
            &None,
            &summary,
            false,
            Some(PluginFileChoiceKind::Include)
        ),
        PluginCandidateDecision {
            selectable: true,
            selected: true,
            retain_only: false
        }
    );
    assert_eq!(
        candidate_decision(
            PluginFileCheck::Supported,
            false,
            &None,
            &summary,
            true,
            Some(PluginFileChoiceKind::Include)
        ),
        PluginCandidateDecision {
            selectable: false,
            selected: false,
            retain_only: false
        }
    );
}

#[test]
fn chosen_files_apply_the_players_choice_and_refuse_bad_ids() {
    let inventory = PluginInventory {
        selection: snapshot(
            "inv",
            vec![
                file("a", PluginFileChoiceKind::Exclude, b"aaaa"),
                file("b", PluginFileChoiceKind::Exclude, b"bbbb"),
                file("c", PluginFileChoiceKind::Include, b"cccc"),
            ],
        ),
        candidates: vec![
            candidate("a", true, false),
            candidate("b", true, true),
            candidate("c", false, false),
        ],
        confirmation_required: false,
    };
    let files = chosen_files(&inventory, &vec!["b".to_owned(), "a".to_owned()]).unwrap();
    let choices: Vec<PluginFileChoiceKind> = files.iter().map(|f| f.choice).collect();
    assert_eq!(
        choices,
        vec![
            PluginFileChoiceKind::Include,
            PluginFileChoiceKind::RetainInstalled,
            PluginFileChoiceKind::Exclude
        ]
    );
    assert_eq!(files[1].package_file_id, "b");
    assert_eq!(
        chosen_files(&inventory, &vec!["a".to_owned(), "a".to_owned()]),
        Err(PluginSelectionServiceError::InvalidSelection)
    );
    assert_eq!(
        chosen_files(&inventory, &vec!["c".to_owned()]),
        Err(PluginSelectionServiceError::InvalidSelection)
    );
    assert_eq!(
        chosen_files(&inventory, &vec!["missing".to_owned()]),
        Err(PluginSelectionServiceError::InvalidSelection)
    );
}

#[test]
fn same_revision_and_confirmation_requirement_read_the_manifest() {
    let m = manifest(vec![installed("a", b"aaaa")]);
    assert!(same_revision(&m, &scope()));
    let mut other = scope();
    other.revision_id = "rev-2".to_owned();
    assert!(!same_revision(&m, &other));
    assert!(!same_revision(&None, &scope()));

    let files = vec![
        file("a", PluginFileChoiceKind::Include, b"aaaa"),
        file("b", PluginFileChoiceKind::Exclude, b"bbbb"),
    ];
    let mut kept = candidate("a", true, false);
    kept.selected = true;
    kept.installed = true;
    let left_out = candidate("b", true, false);
    assert!(!confirmation_required(&m, &scope(), false, &vec![kept.clone(), left_out.clone()], &files));
    let mut removed = kept.clone();
    removed.selected = false;
    assert!(confirmation_required(&m, &scope(), false, &vec![removed.clone(), left_out], &files));
    assert!(!confirmation_required(&m, &scope(), true, &vec![removed], &files));
}

struct Selections {
    pending: Option<PluginSelectionSnapshot>,
    saved: RefCell<Vec<String>>,
    fail_save: bool,
}

impl PluginSelectionRepository for Selections {
    fn load_selection(&self, _scope: &PluginSelectionScope) -> Result<Option<PluginSelectionSnapshot>, PortFailure> {
        Ok(self.pending.clone())
    }

    fn save_selection(&self, selection: &PluginSelectionSnapshot) -> Result<(), PortFailure> {
        if self.fail_save {
            return Err(PortFailure);
        }
        self.saved.borrow_mut().push(selection.inventory_id.clone());
        Ok(())
    }
}

struct Catalog {
    revisions: Vec<(String, String)>,
    display: Option<String>,
}

impl PluginRevisionCatalog for Catalog {
    fn revision_mod_id(&self, revision_id: &str) -> Result<Option<String>, PortFailure> {
        Ok(self
            .revisions
            .iter()
            .find(|(revision, _)| revision == revision_id)
            .map(|(_, mod_id)| mod_id.clone()))
    }

    fn list_revision_ids(&self, mod_id: &str) -> Result<Vec<String>, PortFailure> {
        Ok(self
            .revisions
            .iter()
            .filter(|(_, owner)| owner == mod_id)
            .map(|(revision, _)| revision.clone())
            .collect())
    }

    fn display_revision_id(&self, _mod_id: &str) -> Result<Option<String>, PortFailure> {
        Ok(self.display.clone())
    }
}

fn catalog() -> Catalog {
    Catalog {
        revisions: vec![("rev-1".to_owned(), "mod".to_owned())],
        display: Some("rev-1".to_owned()),
    }
}

struct Manifests {
    manifest: Option<InstallManifest>,
    trusted: bool,
}

impl PluginManifestSource for Manifests {
    fn load_manifest(&self, _profile_id: &str) -> Result<Option<InstallManifest>, PortFailure> {
        Ok(self.manifest.clone())
    }

    fn trusts_entries(&self, _manifest: &InstallManifest) -> bool {
        self.trusted
    }
}

#[test]
fn service_checks_confirmation_against_trusted_manifest_and_records_selections() {
    let expected = snapshot("inv", vec![file("a", PluginFileChoiceKind::Include, b"aaaa")]);
    let service = PluginSelectionService::new(
        Selections {
            pending: None,
            saved: RefCell::new(vec![]),
            fail_save: false,
        },
        Manifests {
            manifest: manifest(vec![installed("a", b"aaaa")]),
            trusted: true,
        },
        catalog(),
        vec![EspPolicy],
    );
    assert_eq!(service.ensure_confirmed(&expected), Ok(()));
    service
        .record_approved_selections(&vec![expected.clone(), snapshot("second", vec![])])
        .unwrap();
    assert_eq!(*service.selections.saved.borrow(), vec!["inv".to_owned(), "second".to_owned()]);

    let untrusted = PluginSelectionService::new(
        Selections {
            pending: None,
            saved: RefCell::new(vec![]),
            fail_save: true,
        },
        Manifests {
            manifest: manifest(vec![installed("a", b"aaaa")]),
            trusted: false,
        },
        catalog(),
        vec![EspPolicy],
    );
    assert_eq!(
        untrusted.ensure_confirmed(&expected),
        Err(PluginSelectionServiceError::ManifestUnverified)
    );
    assert_eq!(
        untrusted.record_approved_selections(&vec![expected]),
        Err(PluginSelectionServiceError::Unavailable)
    );
}

struct EspPolicy;

impl GamePluginPolicy for EspPolicy {
    fn game_id(&self) -> String {
        "game".to_owned()
    }

    fn is_candidate(&self, target_path: &str) -> bool {
        target_path.ends_with(".esp")
    }
}

#[test]
fn file_effects_follow_each_choice() {
    let included = file_effect(&file("a", PluginFileChoiceKind::Include, b"a"), false);
    assert_eq!(included.target_path.as_deref(), Some("Data/a.esp"));
    assert_eq!(included.disposition, RetargetFileDisposition::PackageCompanion);
    assert_eq!(included.reason, RetargetFileReason::PluginSelected);
    let retained = file_effect(&file("b", PluginFileChoiceKind::RetainInstalled, b"b"), true);
    assert_eq!(retained.disposition, RetargetFileDisposition::InstalledAttachmentRetained);
    assert_eq!(retained.reason, RetargetFileReason::InstalledAttachment);
    let left_out_plugin = file_effect(&file("c", PluginFileChoiceKind::Exclude, b"c"), true);
    assert_eq!(left_out_plugin.target_path, None);
    assert_eq!(left_out_plugin.disposition, RetargetFileDisposition::PluginCandidate);
    assert_eq!(left_out_plugin.reason, RetargetFileReason::PluginNotIncluded);
    let left_out_other = file_effect(&file("d", PluginFileChoiceKind::Exclude, b"d"), false);
    assert_eq!(left_out_other.disposition, RetargetFileDisposition::PolicyExcluded);
    assert_eq!(left_out_other.reason, RetargetFileReason::ExecutablePolicy);

    let mut helper = file("e", PluginFileChoiceKind::Exclude, b"e");
    helper.target_path = "Data/e.dll".to_owned();
    let effects = file_effects(
        &vec![EspPolicy],
        &vec![
            snapshot("one", vec![file("a", PluginFileChoiceKind::Exclude, b"a")]),
            snapshot("two", vec![helper]),
        ],
    );
    assert_eq!(effects.len(), 2);
    assert_eq!(effects[0].package_file_id, "a");
    assert_eq!(effects[0].disposition, RetargetFileDisposition::PluginCandidate);
    assert_eq!(effects[1].source_path, "Data/e.dll");
    assert_eq!(effects[1].disposition, RetargetFileDisposition::PolicyExcluded);
}

fn scope_service(
    entries: Vec<InstallManifestEntry>,
    catalog: Catalog,
) -> PluginSelectionService<Selections, Manifests, Catalog, EspPolicy> {
    PluginSelectionService::new(
        Selections {
            pending: None,
            saved: RefCell::new(vec![]),
            fail_save: false,
        },
        Manifests {
            manifest: manifest(entries),
            trusted: true,
        },
        catalog,
        vec![EspPolicy],
    )
}

#[test]
fn resolve_scope_prefers_requested_then_installed_then_shown_revision() {
    let both = Catalog {
        revisions: vec![
            ("rev-1".to_owned(), "mod".to_owned()),
            ("rev-2".to_owned(), "mod".to_owned()),
        ],
        display: Some("rev-2".to_owned()),
    };
    let service = scope_service(vec![installed("a", b"a")], both);
    let requested = service
        .resolve_scope("game".to_owned(), "profile".to_owned(), "mod".to_owned(), Some("rev-2".to_owned()))
        .unwrap();
    assert_eq!(requested.revision_id, "rev-2");
    let installed_scope = service
        .resolve_scope("game".to_owned(), "profile".to_owned(), "mod".to_owned(), None)
        .unwrap();
    assert_eq!(installed_scope, scope());
    assert_eq!(
        service.resolve_scope("game".to_owned(), "profile".to_owned(), "mod".to_owned(), Some("rev-9".to_owned())),
        Err(PluginSelectionServiceError::SourceUnavailable)
    );

    let shown = scope_service(vec![], catalog())
        .resolve_scope("game".to_owned(), "profile".to_owned(), "mod".to_owned(), None)
        .unwrap();
    assert_eq!(shown.revision_id, "rev-1");

    let mut unnamed = installed("a", b"a");
    unnamed.revision_id = None;
    let ambiguous = Catalog {
        revisions: vec![
            ("rev-1".to_owned(), "mod".to_owned()),
            ("rev-2".to_owned(), "mod".to_owned()),
        ],
        display: None,
    };
    assert_eq!(
        scope_service(vec![unnamed.clone()], ambiguous)
            .resolve_scope("game".to_owned(), "profile".to_owned(), "mod".to_owned(), None),
        Err(PluginSelectionServiceError::ManifestUnverified)
    );
    assert_eq!(
        scope_service(vec![unnamed], catalog())
            .resolve_scope("game".to_owned(), "profile".to_owned(), "mod".to_owned(), None)
            .unwrap()
            .revision_id,
        "rev-1"
    );
    let no_mod = Catalog {
        revisions: vec![],
        display: None,
    };
    assert_eq!(
        scope_service(vec![], no_mod).resolve_scope("game".to_owned(), "profile".to_owned(), "other".to_owned(), None),
        Err(PluginSelectionServiceError::SourceUnavailable)
    );
}

#[test]
fn service_file_effects_use_its_policies() {
    let service = scope_service(vec![], catalog());
    let effects = service.file_effects(&vec![snapshot("one", vec![file("a", PluginFileChoiceKind::Exclude, b"a")])]);
    assert_eq!(effects.len(), 1);
    assert_eq!(effects[0].reason, RetargetFileReason::PluginNotIncluded);
}

fn scanned(id: &str, candidate: bool, attachment: bool, content: &[u8], check: PluginFileCheck) -> ScannedPluginFile {
    ScannedPluginFile {
        package_file_id: id.to_owned(),
        target_path: Some(format!("Data/{id}.esp")),
        is_candidate: candidate,
        is_excluded_attachment: attachment,
        read: Ok(content.to_vec()),
        check,
    }
}

fn inventory_of(
    items: Vec<ScannedPluginFile>,
    manifest: Option<InstallManifest>,
    owned: Vec<bool>,
    pending: Option<PluginSelectionSnapshot>,
) -> Result<Option<PluginInventory>, PluginSelectionServiceError> {
    plugin_inventory_from(&scope(), "policy", 1, "inv-1", &items, &Vec::new(), &manifest, &None, &owned, &pending)
}

#[test]
fn plugin_inventory_offers_policy_files_in_scan_order() {
    let items = vec![
        scanned("a", true, false, b"aaaa", PluginFileCheck::Supported),
        scanned("readme", false, false, b"text", PluginFileCheck::Supported),
        scanned("b", false, true, b"bb", PluginFileCheck::Supported),
    ];
    let inventory = inventory_of(items, None, vec![], None).unwrap().unwrap();
    assert_eq!(inventory.selection.inventory_id, "inv-1");
    assert_eq!(inventory.candidates.len(), 2);
    assert_eq!(inventory.candidates[0].package_file_id, "a");
    assert!(inventory.candidates[0].selected);
    assert_eq!(inventory.candidates[0].size_bytes, 4);
    assert_eq!(inventory.selection.files[0].source_file, summarize(b"aaaa"));
    assert_eq!(inventory.selection.files[0].choice, PluginFileChoiceKind::Include);
    assert_eq!(inventory.candidates[1].check, PluginFileCheck::PolicyExcluded);
    assert!(!inventory.candidates[1].selectable);
    assert_eq!(inventory.selection.files[1].choice, PluginFileChoiceKind::Exclude);
    assert!(inventory.confirmation_required);
}

#[test]
fn plugin_inventory_is_empty_without_policy_files_and_fails_on_unreadable_ones() {
    let items = vec![scanned("readme", false, false, b"text", PluginFileCheck::Supported)];
    assert_eq!(inventory_of(items, None, vec![], None), Ok(None));
    let mut broken = scanned("a", true, false, b"", PluginFileCheck::Supported);
    broken.read = Err(PortFailure);
    assert_eq!(inventory_of(vec![broken], None, vec![], None), Err(PluginSelectionServiceError::SourceUnavailable));
    let mut invalid = scanned("a", true, false, b"", PluginFileCheck::Supported);
    invalid.target_path = None;
    assert_eq!(inventory_of(vec![invalid], None, vec![], None), Err(PluginSelectionServiceError::SourceUnavailable));
}

#[test]
fn plugin_inventory_refuses_an_unverified_installed_attachment() {
    // The installed copy of the attachment differs from the package's bytes.
    let items = vec![scanned("b", false, true, b"new", PluginFileCheck::Supported)];
    let installed_old = manifest(vec![installed("b", b"old")]);
    assert_eq!(
        inventory_of(items, installed_old, vec![true], None),
        Err(PluginSelectionServiceError::ManifestUnverified)
    );
    // An unchanged installed copy is offered, kept as installed.
    let items = vec![scanned("b", false, true, b"same", PluginFileCheck::Supported)];
    let inventory = inventory_of(items, manifest(vec![installed("b", b"same")]), vec![true], None).unwrap().unwrap();
    assert!(inventory.candidates[0].installed);
    assert!(inventory.candidates[0].retain_only);
    assert_eq!(inventory.selection.files[0].choice, PluginFileChoiceKind::RetainInstalled);
    assert!(!inventory.confirmation_required);
}

#[test]
fn plugin_inventory_takes_the_pending_choice_made_on_the_same_inventory() {
    let items = vec![scanned("a", true, false, b"aaaa", PluginFileCheck::Supported)];
    let pending = snapshot("inv-1", vec![file("a", PluginFileChoiceKind::Exclude, b"aaaa")]);
    let inventory = inventory_of(items, None, vec![], Some(pending)).unwrap().unwrap();
    assert!(!inventory.candidates[0].selected);
    assert_eq!(inventory.selection.files[0].choice, PluginFileChoiceKind::Exclude);
    assert!(!inventory.confirmation_required);
    let other = snapshot("inv-0", vec![file("a", PluginFileChoiceKind::Exclude, b"aaaa")]);
    let items = vec![scanned("a", true, false, b"aaaa", PluginFileCheck::Supported)];
    let inventory = inventory_of(items, None, vec![], Some(other)).unwrap().unwrap();
    assert!(inventory.candidates[0].selected);
}

fn provider(mod_id: &str, id: &str, priority: i32) -> InstallAction {
    InstallAction {
        mod_id: mod_id.to_owned(),
        package_file_id: id.to_owned(),
        target_path: format!("Data/{id}.esp"),
        layer: FileLayer { name: format!("layer-{priority}"), priority },
    }
}

#[test]
fn selection_providers_replace_the_mods_selected_files_with_its_included_ones() {
    let selection = snapshot(
        "inv-1",
        vec![
            file("a", PluginFileChoiceKind::Include, b"a"),
            file("b", PluginFileChoiceKind::Exclude, b"b"),
            file("c", PluginFileChoiceKind::Include, b"c"),
        ],
    );
    let actions = vec![provider("mod", "a", 0), provider("mod", "readme", 0), provider("other", "x", 0)];
    let conflicts = vec![
        // The Mod's left-out file drops out; the other Mod's provider stands alone and is dropped.
        PlanConflict { providers: vec![provider("other", "y", 1), provider("mod", "b", 1)] },
        // Two providers remain: the conflict is kept and its selected file is not added again.
        PlanConflict { providers: vec![provider("other", "z", 1), provider("mod", "c", 1)] },
    ];
    let layer = FileLayer { name: "requested".to_owned(), priority: 9 };
    let mut installed_a = installed("a", b"a");
    installed_a.layer = FileLayer { name: "installed".to_owned(), priority: 3 };
    let result = selection_providers(&selection, &layer, &manifest(vec![installed_a]), &actions, &conflicts);
    let ids = result.providers.iter().map(|p| p.package_file_id.as_str()).collect::<Vec<_>>();
    assert_eq!(ids, vec!["readme", "x", "a"]);
    assert_eq!(result.providers[2].layer.name, "installed");
    assert_eq!(result.kept_conflicts.len(), 1);
    assert_eq!(result.kept_conflicts[0].providers.len(), 2);
    let without_manifest = selection_providers(&selection, &layer, &None, &actions, &vec![]);
    let ids = without_manifest.providers.iter().map(|p| p.package_file_id.as_str()).collect::<Vec<_>>();
    assert_eq!(ids, vec!["readme", "x", "a", "c"]);
    assert_eq!(without_manifest.providers[2].layer, layer);
}

#[test]
fn plan_coverage_requires_every_policy_file_to_be_included() {
    let actions = vec![provider("mod", "a", 0), provider("mod", "readme", 0)];
    let included = snapshot("inv-1", vec![file("a", PluginFileChoiceKind::Include, b"a")]);
    let excluded = snapshot("inv-1", vec![file("a", PluginFileChoiceKind::Exclude, b"a")]);
    assert_eq!(plan_coverage(true, &actions, &vec![true, false], &vec![included]), Ok(()));
    assert_eq!(
        plan_coverage(true, &actions, &vec![true, false], &vec![excluded]),
        Err(PluginSelectionServiceError::InvalidSelection)
    );
    assert_eq!(
        plan_coverage(true, &actions, &vec![true, true], &vec![snapshot("inv-1", vec![file("a", PluginFileChoiceKind::Include, b"a")])]),
        Err(PluginSelectionServiceError::InvalidSelection)
    );
    assert_eq!(plan_coverage(false, &actions, &vec![], &vec![]), Ok(()));
    assert_eq!(
        plan_coverage(false, &actions, &vec![], &vec![snapshot("inv-1", vec![])]),
        Err(PluginSelectionServiceError::InvalidSelection)
    );
}
