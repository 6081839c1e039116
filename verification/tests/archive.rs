use hmm_app::archive::{
    protected_roots_with, ModImportArchiveConsumeError, ModImportArchiveConsumer,
    ModImportArchiveConsumptionService, ModImportArchiveFingerprint,
};
use hmm_app::ids::GameId;
use hmm_app::metadata::PortFailure;
use hmm_app::storage_settings::GameRootSource;
use std::cell::RefCell;
use std::rc::Rc;

struct FakeConsumer {
    consumed: Rc<RefCell<Vec<(String, Vec<String>)>>>,
}

impl ModImportArchiveConsumer for FakeConsumer {
    fn fingerprint(
        &self,
        _archive_path: &str,
    ) -> Result<ModImportArchiveFingerprint, ModImportArchiveConsumeError> {
        Ok(fingerprint())
    }

    fn consume(
        &self,
        archive_path: &str,
        expected: &ModImportArchiveFingerprint,
        protected_roots: &Vec<String>,
    ) -> Result<(), ModImportArchiveConsumeError> {
        assert_eq!(*expected, fingerprint());
        self.consumed
            .borrow_mut()
            .push((archive_path.to_owned(), protected_roots.clone()));
        Ok(())
    }
}

struct FakeGameConfig {
    root: Option<String>,
    fail: bool,
}

impl GameRootSource for FakeGameConfig {
    fn game_root(&self, _game_id: &GameId) -> Result<Option<String>, PortFailure> {
        if self.fail {
            return Err(PortFailure);
        }
        Ok(self.root.clone())
    }
}

fn fingerprint() -> ModImportArchiveFingerprint {
    ModImportArchiveFingerprint {
        len: 42,
        modified_unix_millis: Some(1),
        identity: None,
    }
}

#[test]
fn consume_protects_fixed_roots_and_the_currently_configured_game_root() {
    let consumed = Rc::new(RefCell::new(vec![]));
    let service = ModImportArchiveConsumptionService::new(
        FakeConsumer {
            consumed: consumed.clone(),
        },
        FakeGameConfig {
            root: Some("/games/mhw".to_owned()),
            fail: false,
        },
        vec![GameId::new("mhw")],
        vec!["/app-data".to_owned(), "/srv/hmm-mods".to_owned()],
    );
    let archive = "/downloads/mod.zip";

    service
        .consume(archive, &fingerprint())
        .expect("consume delegates");

    assert_eq!(
        consumed.borrow().as_slice(),
        [(
            archive.to_owned(),
            vec![
                "/app-data".to_owned(),
                "/srv/hmm-mods".to_owned(),
                "/games/mhw".to_owned(),
            ]
        )]
    );
}

#[test]
fn consume_keeps_the_archive_when_the_game_configuration_cannot_be_read() {
    let consumed = Rc::new(RefCell::new(vec![]));
    let service = ModImportArchiveConsumptionService::new(
        FakeConsumer {
            consumed: consumed.clone(),
        },
        FakeGameConfig {
            root: None,
            fail: true,
        },
        vec![GameId::new("mhw")],
        Vec::new(),
    );

    assert_eq!(
        service.consume("/downloads/mod.zip", &fingerprint()),
        Err(ModImportArchiveConsumeError::Unavailable)
    );
    assert!(consumed.borrow().is_empty());
}

#[test]
fn protected_roots_keep_the_fixed_ones_first() {
    let roots = protected_roots_with(
        &vec!["/a".to_owned(), "/b".to_owned()],
        vec!["/c".to_owned()],
    );
    assert_eq!(roots, vec!["/a", "/b", "/c"]);
    assert_eq!(protected_roots_with(&vec![], vec![]), Vec::<String>::new());
}
