use hmm_app::ids::ModId;
use hmm_app::metadata::{
    metadata_overlay_from_request, normalize_optional_string, AppClock, ModMetadataOverlay,
    ModMetadataRepository, ModMetadataService, PortFailure, UpdateModMetadataRequest,
};
use std::cell::RefCell;
use std::rc::Rc;

#[derive(Clone, Default)]
struct FakeMetadataRepository {
    overlays: Rc<RefCell<Vec<ModMetadataOverlay>>>,
}

impl ModMetadataRepository for FakeMetadataRepository {
    fn get(&self, mod_id: &str) -> Result<Option<ModMetadataOverlay>, PortFailure> {
        Ok(self
            .overlays
            .borrow()
            .iter()
            .find(|o| o.mod_id.as_str() == mod_id)
            .cloned())
    }

    fn save(&self, overlay: &ModMetadataOverlay) -> Result<(), PortFailure> {
        let mut overlays = self.overlays.borrow_mut();
        overlays.retain(|o| o.mod_id.as_str() != overlay.mod_id.as_str());
        overlays.push(overlay.clone());
        Ok(())
    }

    fn delete(&self, mod_id: &str) -> Result<(), PortFailure> {
        self.overlays.borrow_mut().retain(|o| o.mod_id.as_str() != mod_id);
        Ok(())
    }
}

struct FixedClock(u128);

impl AppClock for FixedClock {
    fn now_unix_millis(&self) -> Result<u128, PortFailure> {
        Ok(self.0)
    }
}

struct BrokenClock;

impl AppClock for BrokenClock {
    fn now_unix_millis(&self) -> Result<u128, PortFailure> {
        Err(PortFailure)
    }
}

fn request(display_name: Option<&str>, author: Option<&str>) -> UpdateModMetadataRequest {
    UpdateModMetadataRequest {
        mod_id: "mod-1".to_owned(),
        display_name: display_name.map(str::to_owned),
        author: author.map(str::to_owned),
        version: None,
        description: None,
        nexus_mod_id: None,
    }
}

#[test]
fn update_metadata_saves_overlay_with_clock_timestamp() {
    let repo = FakeMetadataRepository::default();
    let service = ModMetadataService::new(repo.clone(), FixedClock(5000));

    service.update_metadata(request(Some("Custom"), None)).unwrap();

    let overlay = repo.get("mod-1").unwrap().expect("should exist");
    assert_eq!(overlay.display_name, Some("Custom".to_owned()));
    assert_eq!(overlay.updated_at, 5000);
}

#[test]
fn delete_metadata_removes_overlay() {
    let repo = FakeMetadataRepository::default();
    let service = ModMetadataService::new(repo.clone(), FixedClock(1000));

    service.update_metadata(request(Some("Name"), None)).unwrap();
    service.delete_metadata("mod-1").unwrap();
    assert!(repo.get("mod-1").unwrap().is_none());
}

#[test]
fn get_metadata_returns_none_when_not_found() {
    let service = ModMetadataService::new(FakeMetadataRepository::default(), FixedClock(1000));
    assert!(service.get_metadata("nonexistent").unwrap().is_none());
}

#[test]
fn update_metadata_normalizes_empty_strings_to_none() {
    let repo = FakeMetadataRepository::default();
    let service = ModMetadataService::new(repo.clone(), FixedClock(1000));

    service
        .update_metadata(UpdateModMetadataRequest {
            mod_id: "mod-1".to_owned(),
            display_name: Some("".to_owned()),
            author: Some("   ".to_owned()),
            version: Some("  ".to_owned()),
            description: Some("".to_owned()),
            nexus_mod_id: Some(42),
        })
        .unwrap();

    let overlay = repo.get("mod-1").unwrap().expect("should exist");
    assert!(overlay.display_name.is_none());
    assert!(overlay.author.is_none());
    assert!(overlay.version.is_none());
    assert!(overlay.description.is_none());
    assert_eq!(overlay.nexus_mod_id, Some(42));
}

#[test]
fn update_metadata_trims_whitespace_from_strings() {
    let repo = FakeMetadataRepository::default();
    let service = ModMetadataService::new(repo.clone(), FixedClock(1000));

    service
        .update_metadata(request(Some("  Trimmed Name  "), Some("  Author  ")))
        .unwrap();

    let overlay = repo.get("mod-1").unwrap().expect("should exist");
    assert_eq!(overlay.display_name.as_deref(), Some("Trimmed Name"));
    assert_eq!(overlay.author.as_deref(), Some("Author"));
}

#[test]
fn a_broken_clock_stores_nothing() {
    let repo = FakeMetadataRepository::default();
    let service = ModMetadataService::new(repo.clone(), BrokenClock);
    assert_eq!(service.update_metadata(request(Some("Name"), None)), Err(PortFailure));
    assert!(repo.get("mod-1").unwrap().is_none());
}

#[test]
fn overlay_from_request_keeps_identity_and_figures() {
    let overlay = metadata_overlay_from_request(
        UpdateModMetadataRequest {
            mod_id: "mod-7".to_owned(),
            display_name: Some("\tName\n".to_owned()),
            author: None,
            version: Some(" 1.2 ".to_owned()),
            description: Some("text".to_owned()),
            nexus_mod_id: Some(7),
        },
        99,
    );
    assert_eq!(overlay.mod_id, ModId::new("mod-7"));
    assert_eq!(overlay.display_name.as_deref(), Some("Name"));
    assert_eq!(overlay.author, None);
    assert_eq!(overlay.version.as_deref(), Some("1.2"));
    assert_eq!(overlay.description.as_deref(), Some("text"));
    assert_eq!(overlay.nexus_mod_id, Some(7));
    assert_eq!(overlay.updated_at, 99);
}

#[test]
fn normalize_optional_string_trims_and_drops_blank_text() {
    assert_eq!(normalize_optional_string(None), None);
    assert_eq!(normalize_optional_string(Some(" ".to_owned())), None);
    assert_eq!(normalize_optional_string(Some(" a b ".to_owned())).as_deref(), Some("a b"));
}
