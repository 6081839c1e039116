use hmm_app::ids::{ModId, ModRevisionId};
use hmm_app::metadata::{ModMetadataOverlay, PortFailure};
use hmm_app::shortcuts::{
    ModMetadataReader, ModPackageDirectoryOpener, ModRevisionCatalog, ModShortcutError,
    ModShortcutService, OpenedFolders, StoredLogicalMod, StoredModRevision,
};
use std::cell::RefCell;
use std::rc::Rc;

struct Imports;

impl ModRevisionCatalog for Imports {
    fn get_mod(&self, id: &ModId) -> Result<Option<StoredLogicalMod>, PortFailure> {
        if id.as_str() == "missing" {
            return Ok(None);
        }
        Ok(Some(StoredLogicalMod {
            mod_id: id.duplicate(),
            origin_revision_id: ModRevisionId::new("original"),
            display_revision_id: ModRevisionId::new(if id.as_str() == "wrong-owner" {
                "wrong"
            } else {
                "display"
            }),
        }))
    }

    fn get_revision(&self, id: &ModRevisionId) -> Result<Option<StoredModRevision>, PortFailure> {
        Ok(Some(StoredModRevision {
            revision_id: id.duplicate(),
            mod_id: ModId::new("mod-a"),
            package_id: "display-package".into(),
            display_name: "Fixture".into(),
        }))
    }
}

struct Metadata(Option<u64>);

impl ModMetadataReader for Metadata {
    fn get(&self, id: &str) -> Result<Option<ModMetadataOverlay>, PortFailure> {
        Ok(Some(ModMetadataOverlay {
            mod_id: ModId::new(id),
            display_name: None,
            author: None,
            version: None,
            description: None,
            nexus_mod_id: self.0,
            updated_at: 0,
        }))
    }
}

#[derive(Default, Clone)]
struct Directories(Rc<RefCell<Vec<String>>>);

impl ModPackageDirectoryOpener for Directories {
    fn opened_folders(&self) -> OpenedFolders {
        // The record exists for the proofs only; nothing reads it at run time.
        unreachable!()
    }

    fn open_package_directory(&mut self, id: &str) -> Result<(), PortFailure> {
        self.0.borrow_mut().push(id.into());
        Ok(())
    }
}

fn service(id: Option<u64>) -> (ModShortcutService<Imports, Metadata, Directories>, Directories) {
    let opener = Directories::default();
    (
        ModShortcutService::new(
            Imports,
            Metadata(id),
            opener.clone(),
            "https://www.nexusmods.com/monsterhunterworld/mods/",
        ),
        opener,
    )
}

#[test]
fn opens_the_display_revision_package_instead_of_guessing_from_mod_id() {
    let (mut service, opener) = service(Some(8794));
    service.open_mod_folder("mod-a").unwrap();
    assert_eq!(*opener.0.borrow(), vec!["display-package"]);
    assert_eq!(
        service.nexus_page_url("mod-a").unwrap(),
        "https://www.nexusmods.com/monsterhunterworld/mods/8794"
    );
}

#[test]
fn rejects_deleted_and_mismatched_mods_without_opening_anything() {
    let (mut service, opener) = service(Some(8794));
    assert_eq!(service.open_mod_folder("missing"), Err(ModShortcutError::NotFound));
    assert_eq!(service.open_mod_folder("wrong-owner"), Err(ModShortcutError::Unavailable));
    assert_eq!(service.open_mod_folder(" "), Err(ModShortcutError::InvalidMod));
    assert_eq!(service.nexus_page_url("missing"), Err(ModShortcutError::NotFound));
    assert!(opener.0.borrow().is_empty());
}

#[test]
fn missing_and_zero_nexus_ids_do_not_produce_a_url() {
    for id in [None, Some(0)] {
        assert_eq!(service(id).0.nexus_page_url("mod-a"), Err(ModShortcutError::NexusIdMissing));
    }
}

#[test]
fn nexus_id_is_formatted_without_loss_of_integer_precision() {
    assert_eq!(
        service(Some(u64::MAX)).0.nexus_page_url("mod-a").unwrap(),
        "https://www.nexusmods.com/monsterhunterworld/mods/18446744073709551615"
    );
}

#[test]
fn overlong_mod_ids_are_refused_before_the_catalog_is_read() {
    let (mut service, opener) = service(Some(1));
    let long = "a".repeat(257);
    assert_eq!(service.open_mod_folder(&long), Err(ModShortcutError::InvalidMod));
    assert!(opener.0.borrow().is_empty());
    let exact = "a".repeat(256);
    assert_eq!(
        service.open_mod_folder(&exact),
        Err(ModShortcutError::Unavailable),
        "an identity of 256 bytes is looked up; the fixture's revision belongs to another Mod"
    );
}

#[test]
fn shortcut_error_codes_are_stable() {
    assert_eq!(ModShortcutError::InvalidMod.code(), "mod_shortcut_mod_invalid");
    assert_eq!(ModShortcutError::NotFound.code(), "mod_shortcut_mod_not_found");
    assert_eq!(ModShortcutError::Unavailable.code(), "mod_shortcut_unavailable");
    assert_eq!(ModShortcutError::FolderUnavailable.code(), "mod_folder_unavailable");
    assert_eq!(ModShortcutError::NexusIdMissing.code(), "mod_nexus_id_missing");
}
