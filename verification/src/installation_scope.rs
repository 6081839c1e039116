//! Which installation scope (profile) of a game install writes go to, and the admission check
//! every install write passes: the game must be configured as itself and its current scope
//! must be the one the write was planned for.
use crate::ids::{GameId, ProfileId};
use crate::metadata::PortFailure;
use crate::text::str_equal;
use vstd::prelude::*;

verus! {

/// A configured game directory.
#[derive(Debug, Clone, PartialEq, Eq)]
pub struct GameInstance {
    pub id: String,
    pub game_id: GameId,
    pub display_name: String,
    pub root_dir: String,
}

/// The scope install writes of a game go to.
#[derive(Debug, Clone, PartialEq, Eq)]
pub struct ModInstallationContext {
    pub game_id: GameId,
    pub scope_id: ProfileId,
}

#[derive(Debug, Clone, Copy, PartialEq, Eq, Structural)]
pub enum ModInstallationScopeError {
    /// The game configuration could not be read.
    Unavailable,
    /// The game is not configured, or configured as another game.
    GameUnavailable,
    /// The current scope is not the one the caller expected.
    Mismatch,
}

#[derive(Debug, Clone, Copy, PartialEq, Eq, Structural)]
pub enum InstallWriteAdmissionError {
    SafetyRejected,
}

/// The game configuration.
pub trait GameConfigRepository {
    fn load_game_instance(&self, game_id: &GameId) -> Result<Option<GameInstance>, PortFailure>;
}

/// Resolves (creating when needed) or inspects the installation scope of a game.
pub trait ModInstallationScopeRepository {
    fn resolve_scope(&self, game: &GameInstance) -> Result<ModInstallationContext, ModInstallationScopeError>;

    fn inspect_scope(&self, game: &GameInstance) -> Result<ModInstallationContext, ModInstallationScopeError>;
}

/// Decides whether an install write for a game and scope may go ahead.
pub trait InstallWriteAdmission {
    fn ensure_write_allowed(&self, game_id: &GameId, scope_id: &ProfileId) -> Result<(), InstallWriteAdmissionError>;
}

pub struct ModInstallationScopeService<G: GameConfigRepository, S: ModInstallationScopeRepository> {
    games: G,
    scopes: S,
}

impl<G: GameConfigRepository, S: ModInstallationScopeRepository> ModInstallationScopeService<G, S> {
    pub closed spec fn games_spec(&self) -> G {
        self.games
    }

    pub closed spec fn scopes_spec(&self) -> S {
        self.scopes
    }

    pub fn new(games: G, scopes: S) -> (r: Self)
        ensures
            r.games_spec() == games,
            r.scopes_spec() == scopes,
    {
        ModInstallationScopeService { games, scopes }
    }

    pub fn context(&self, game_id: &GameId) -> (r: Result<ModInstallationContext, ModInstallationScopeError>) {
        let game = match self.game(game_id) {
            Ok(g) => g,
            Err(e) => {
                return Err(e);
            },
        };
        self.scopes.resolve_scope(&game)
    }

    /// The configured instance of `game_id`; one configured as another game is refused.
    fn game(&self, game_id: &GameId) -> (r: Result<GameInstance, ModInstallationScopeError>)
        ensures
            r matches Ok(g) ==> g.game_id@ == game_id@,
            r matches Err(e) ==> (e == ModInstallationScopeError::Unavailable || e
                == ModInstallationScopeError::GameUnavailable),
    {
        let game = match self.games.load_game_instance(game_id) {
            Err(_) => {
                return Err(ModInstallationScopeError::Unavailable);
            },
            Ok(None) => {
                return Err(ModInstallationScopeError::GameUnavailable);
            },
            Ok(Some(g)) => g,
        };
        if !str_equal(game.game_id.as_str(), game_id.as_str()) {
            return Err(ModInstallationScopeError::GameUnavailable);
        }
        Ok(game)
    }

    /// The current scope of the game, which must be `scope_id`.
    pub fn require_current(&self, game_id: &GameId, scope_id: &ProfileId) -> (r: Result<
        ModInstallationContext,
        ModInstallationScopeError,
    >)
        ensures
            r matches Ok(c) ==> c.scope_id@ == scope_id@,
    {
        let game = match self.game(game_id) {
            Ok(g) => g,
            Err(e) => {
                return Err(e);
            },
        };
        let context = match self.scopes.inspect_scope(&game) {
            Ok(c) => c,
            Err(e) => {
                return Err(e);
            },
        };
        if !str_equal(context.scope_id.as_str(), scope_id.as_str()) {
            return Err(ModInstallationScopeError::Mismatch);
        }
        Ok(context)
    }
}

impl<G: GameConfigRepository, S: ModInstallationScopeRepository> InstallWriteAdmission for ModInstallationScopeService<
    G,
    S,
> {
    /// A write is admitted only into the scope the game resolves to now.
    fn ensure_write_allowed(&self, game_id: &GameId, scope_id: &ProfileId) -> (r: Result<(), InstallWriteAdmissionError>) {
        let context = match self.context(game_id) {
            Ok(c) => c,
            Err(_) => {
                return Err(InstallWriteAdmissionError::SafetyRejected);
            },
        };
        if !str_equal(context.scope_id.as_str(), scope_id.as_str()) {
            return Err(InstallWriteAdmissionError::SafetyRejected);
        }
        Ok(())
    }
}

} // verus!
