//! Moving an imported zip instead of copying it: the library never keeps the archive (an import
//! unpacks it into the storage root), so moving means deleting the user's source file once the
//! import is durable. The consumer only deletes the very file that was fingerprinted, and
//! never one inside a game root, the Mod storage root or app-data.
use crate::ids::GameId;
use crate::metadata::PortFailure;
use crate::storage_settings::{configured_game_roots, GameRootSource};
use vstd::prelude::*;

verus! {

/// What identifies the archive that was read, so that a later swap at the same path is seen.
#[derive(Debug, Clone, PartialEq, Eq)]
pub struct ModImportArchiveFingerprint {
    pub len: u64,
    pub modified_unix_millis: Option<u128>,
    pub identity: Option<String>,
}

#[derive(Debug, Clone, Copy, PartialEq, Eq, Structural)]
pub enum ModImportArchiveConsumeError {
    /// The facts needed to decide could not be read; the archive is kept.
    Unavailable,
    /// The file at the path is no longer the one that was imported.
    Changed,
    /// The archive lies inside a protected root.
    Protected,
}

/// Fingerprints and deletes archives on disk.
pub trait ModImportArchiveConsumer {
    fn fingerprint(&self, archive_path: &str) -> Result<ModImportArchiveFingerprint, ModImportArchiveConsumeError>;

    fn consume(
        &self,
        archive_path: &str,
        expected: &ModImportArchiveFingerprint,
        protected_roots: &Vec<String>,
    ) -> Result<(), ModImportArchiveConsumeError>;
}

/// The roots an archive must not be deleted from: the fixed ones first, then the game roots
/// configured now.
pub fn protected_roots_with(fixed: &Vec<String>, game_roots: Vec<String>) -> (r: Vec<String>)
    ensures
        r@ == fixed@ + game_roots@,
{
    let mut roots: Vec<String> = Vec::new();
    let mut k: usize = 0;
    while k < fixed.len()
        invariant
            0 <= k <= fixed@.len(),
            roots@ == fixed@.subrange(0, k as int),
        decreases fixed@.len() - k,
    {
        roots.push(fixed[k].clone());
        proof {
            assert(fixed@.subrange(0, k + 1) =~= fixed@.subrange(0, k as int).push(fixed@[k as int]));
        }
        k = k + 1;
    }
    let mut rest = game_roots;
    let ghost tail = rest@;
    let mut j: usize = 0;
    let total = rest.len();
    while j < total
        invariant
            total == tail.len(),
            0 <= j <= total,
            rest@ == tail.subrange(j as int, total as int),
            roots@ == fixed@ + tail.subrange(0, j as int),
        decreases total - j,
    {
        let root = rest.remove(0);
        proof {
            assert(root == tail[j as int]);
            assert(rest@ =~= tail.subrange(j + 1, total as int));
            assert(tail.subrange(0, j + 1) =~= tail.subrange(0, j as int).push(tail[j as int]));
        }
        roots.push(root);
        proof {
            assert(roots@ =~= fixed@ + tail.subrange(0, j + 1));
        }
        j = j + 1;
    }
    proof {
        assert(fixed@.subrange(0, fixed@.len() as int) =~= fixed@);
        assert(tail.subrange(0, total as int) =~= tail);
    }
    roots
}

pub struct ModImportArchiveConsumptionService<C: ModImportArchiveConsumer, G: GameRootSource> {
    consumer: C,
    game_config: G,
    game_ids: Vec<GameId>,
    /// Roots protected whatever the game configuration says (app-data, the storage root).
    protected_roots: Vec<String>,
}

impl<C: ModImportArchiveConsumer, G: GameRootSource> ModImportArchiveConsumptionService<C, G> {
    pub closed spec fn consumer_spec(&self) -> C {
        self.consumer
    }

    pub closed spec fn game_config_spec(&self) -> G {
        self.game_config
    }

    pub closed spec fn game_ids_spec(&self) -> Seq<GameId> {
        self.game_ids@
    }

    /// The roots protected whatever the game configuration says.
    pub closed spec fn protected_roots_spec(&self) -> Seq<String> {
        self.protected_roots@
    }

    pub fn new(consumer: C, game_config: G, game_ids: Vec<GameId>, protected_roots: Vec<String>) -> (r: Self)
        ensures
            r.consumer_spec() == consumer,
            r.game_config_spec() == game_config,
            r.game_ids_spec() == game_ids@,
            r.protected_roots_spec() == protected_roots@,
    {
        ModImportArchiveConsumptionService { consumer, game_config, game_ids, protected_roots }
    }

    /// Taken before the archive is read.
    pub fn fingerprint(&self, archive_path: &str) -> (r: Result<
        ModImportArchiveFingerprint,
        ModImportArchiveConsumeError,
    >) {
        self.consumer.fingerprint(archive_path)
    }

    /// Deletes the archive once the import is durable. Game roots are read now, so a directory
    /// configured during the session is protected too; when the configuration cannot be read
    /// the archive is kept and the answer is `Unavailable`.
    pub fn consume(&self, archive_path: &str, fingerprint: &ModImportArchiveFingerprint) -> (r: Result<
        (),
        ModImportArchiveConsumeError,
    >) {
        let game_roots = match configured_game_roots(&self.game_config, &self.game_ids) {
            Ok(roots) => roots,
            Err(_) => {
                return Err(ModImportArchiveConsumeError::Unavailable);
            },
        };
        let roots = protected_roots_with(&self.protected_roots, game_roots);
        self.consumer.consume(archive_path, fingerprint, &roots)
    }
}

} // verus!
