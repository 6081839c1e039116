use hmm_app::ids::{GameId, ProfileId};
use hmm_app::installation_scope::{
    GameConfigRepository, GameInstance, InstallWriteAdmission, InstallWriteAdmissionError,
    ModInstallationContext, ModInstallationScopeError, ModInstallationScopeRepository,
    ModInstallationScopeService,
};
use hmm_app::metadata::PortFailure;

struct Games(Result<Option<GameInstance>, PortFailure>);

impl GameConfigRepository for Games {
    fn load_game_instance(&self, _game_id: &GameId) -> Result<Option<GameInstance>, PortFailure> {
        self.0.clone()
    }
}

struct Scopes(&'static str);

impl ModInstallationScopeRepository for Scopes {
    fn resolve_scope(
        &self,
        game: &GameInstance,
    ) -> Result<ModInstallationContext, ModInstallationScopeError> {
        Ok(ModInstallationContext {
            game_id: game.game_id.clone(),
            scope_id: ProfileId::new(self.0),
        })
    }

    fn inspect_scope(
        &self,
        game: &GameInstance,
    ) -> Result<ModInstallationContext, ModInstallationScopeError> {
        self.resolve_scope(game)
    }
}

fn instance(game_id: &str) -> GameInstance {
    GameInstance {
        id: "instance".to_owned(),
        game_id: GameId::new(game_id),
        display_name: "Game".to_owned(),
        root_dir: "/games/mhw".to_owned(),
    }
}

#[test]
fn writes_are_admitted_only_into_the_current_scope_of_the_configured_game() {
    let service =
        ModInstallationScopeService::new(Games(Ok(Some(instance("mhw")))), Scopes("profile-a"));
    let game = GameId::new("mhw");
    assert_eq!(
        service.ensure_write_allowed(&game, &ProfileId::new("profile-a")),
        Ok(())
    );
    assert_eq!(
        service.ensure_write_allowed(&game, &ProfileId::new("profile-b")),
        Err(InstallWriteAdmissionError::SafetyRejected)
    );
    assert_eq!(
        service
            .require_current(&game, &ProfileId::new("profile-a"))
            .unwrap()
            .scope_id
            .as_str(),
        "profile-a"
    );
    assert_eq!(
        service
            .require_current(&game, &ProfileId::new("profile-b"))
            .err(),
        Some(ModInstallationScopeError::Mismatch)
    );
}

#[test]
fn a_missing_misconfigured_or_unreadable_game_has_no_scope() {
    let game = GameId::new("mhw");
    let missing = ModInstallationScopeService::new(Games(Ok(None)), Scopes("p"));
    assert_eq!(
        missing.context(&game).err(),
        Some(ModInstallationScopeError::GameUnavailable)
    );
    let other =
        ModInstallationScopeService::new(Games(Ok(Some(instance("mhws")))), Scopes("p"));
    assert_eq!(
        other.context(&game).err(),
        Some(ModInstallationScopeError::GameUnavailable)
    );
    let unreadable = ModInstallationScopeService::new(Games(Err(PortFailure)), Scopes("p"));
    assert_eq!(
        unreadable.context(&game).err(),
        Some(ModInstallationScopeError::Unavailable)
    );
    assert_eq!(
        unreadable.ensure_write_allowed(&game, &ProfileId::new("p")),
        Err(InstallWriteAdmissionError::SafetyRejected)
    );
}
