use hmm_app::metadata::PortFailure;
use hmm_app::statistics::{
    missing_size_targets, ModImportCatalogSnapshot, ModImportResultRepository,
    ModLibraryStatisticsService, ModPackageSizeReader, ModRevisionSizeUpdate, StoredLogicalMod,
    StoredModRevision, MOD_IMPORT_UPSERT_MAX_ENTRIES,
};
use std::cell::RefCell;
use std::rc::Rc;

struct Repository {
    snapshot: ModImportCatalogSnapshot,
    updates: Rc<RefCell<Vec<ModRevisionSizeUpdate>>>,
    batches: Rc<RefCell<Vec<usize>>>,
}

impl ModImportResultRepository for Repository {
    fn catalog_snapshot(&self) -> Result<ModImportCatalogSnapshot, PortFailure> {
        Ok(self.snapshot.clone())
    }

    fn fill_missing_content_sizes(
        &self,
        updates: &[ModRevisionSizeUpdate],
    ) -> Result<usize, PortFailure> {
        self.updates.borrow_mut().extend_from_slice(updates);
        self.batches.borrow_mut().push(updates.len());
        Ok(updates.len())
    }
}

struct Reader(Rc<RefCell<Vec<String>>>);

impl ModPackageSizeReader for Reader {
    fn read_content_size(&self, id: &str) -> Result<u64, PortFailure> {
        self.0.borrow_mut().push(id.into());
        if id == "missing" {
            return Err(PortFailure);
        }
        Ok(42)
    }
}

fn revision(id: &str, known: Option<u64>) -> StoredModRevision {
    StoredModRevision {
        revision_id: id.into(),
        mod_id: id.into(),
        package_id: id.into(),
        content_size_bytes: known,
    }
}

fn logical(id: &str) -> StoredLogicalMod {
    StoredLogicalMod {
        mod_id: id.into(),
        display_revision_id: id.into(),
    }
}

#[test]
fn only_missing_display_sizes_are_read_once_and_unavailable_packages_stay_unknown() {
    let mut snapshot = ModImportCatalogSnapshot {
        logical_mods: vec![],
        revisions: vec![],
    };
    for (id, known) in [
        ("old", Some(1)),
        ("display", None),
        ("known", Some(9)),
        ("missing", None),
    ] {
        snapshot.logical_mods.push(logical(id));
        snapshot.revisions.push(revision(id, known));
    }
    snapshot.logical_mods.remove(0);
    let updates = Rc::new(RefCell::new(vec![]));
    let reads = Rc::new(RefCell::new(vec![]));
    let repository = Repository {
        snapshot,
        updates: updates.clone(),
        batches: Rc::new(RefCell::new(vec![])),
    };
    let mut service = ModLibraryStatisticsService::new(repository, Reader(reads.clone()));
    assert_eq!(service.refresh_missing_sizes().unwrap(), 1);
    assert_eq!(service.refresh_missing_sizes().unwrap(), 0);
    assert_eq!(*reads.borrow(), vec!["display", "missing"]);
    let updates = updates.borrow();
    assert_eq!(updates.len(), 1);
    assert_eq!(updates[0].package_id, "display");
    assert_eq!(updates[0].content_size_bytes, 42);
}

#[test]
fn a_display_revision_of_another_mod_or_a_missing_one_is_not_measured() {
    let snapshot = ModImportCatalogSnapshot {
        logical_mods: vec![
            StoredLogicalMod {
                mod_id: "a".into(),
                display_revision_id: "rev-b".into(),
            },
            StoredLogicalMod {
                mod_id: "c".into(),
                display_revision_id: "nowhere".into(),
            },
            StoredLogicalMod {
                mod_id: "d".into(),
                display_revision_id: "rev-d".into(),
            },
        ],
        revisions: vec![
            StoredModRevision {
                revision_id: "rev-b".into(),
                mod_id: "b".into(),
                package_id: "pkg-b".into(),
                content_size_bytes: None,
            },
            StoredModRevision {
                revision_id: "rev-d".into(),
                mod_id: "d".into(),
                package_id: "pkg-d-old".into(),
                content_size_bytes: None,
            },
            StoredModRevision {
                revision_id: "rev-d".into(),
                mod_id: "d".into(),
                package_id: "pkg-d".into(),
                content_size_bytes: None,
            },
        ],
    };
    assert_eq!(missing_size_targets(&snapshot), vec![2]);
}

#[test]
fn sizes_are_written_in_bounded_batches() {
    let count = MOD_IMPORT_UPSERT_MAX_ENTRIES + 3;
    let mut snapshot = ModImportCatalogSnapshot {
        logical_mods: vec![],
        revisions: vec![],
    };
    for k in 0..count {
        let id = format!("mod-{k}");
        snapshot.logical_mods.push(logical(&id));
        snapshot.revisions.push(revision(&id, None));
    }
    let batches = Rc::new(RefCell::new(vec![]));
    let repository = Repository {
        snapshot,
        updates: Rc::new(RefCell::new(vec![])),
        batches: batches.clone(),
    };
    let mut service =
        ModLibraryStatisticsService::new(repository, Reader(Rc::new(RefCell::new(vec![]))));
    assert_eq!(service.refresh_missing_sizes().unwrap(), count);
    assert_eq!(*batches.borrow(), vec![MOD_IMPORT_UPSERT_MAX_ENTRIES, 3]);
}
