//! Orders installation-state observations per game and profile, failed reads included. No
//! snapshot substitutes for a fresh repository read; the retained snapshot only identifies
//! the Mods whose state changed since the previous read.
use crate::ids::{insert_mod_id, mod_ids_contain, sorted_mod_ids, GameId, ModId, ProfileId};
use crate::installation_state::{
    InstallManifestQueryError, ModInstallationStateQueryService, ModInstallationStateSnapshot,
    ModInstallationStateSources,
};
use crate::library::InstallManifestStatusSummary;
use crate::library_query::{
    entry_before, lemma_entry_before_transitive, lemma_lex_irreflexive, lex_less, lex_lt,
};
use crate::tasks::random_task_token;
use crate::text::{chars_of, str_equal};
use vstd::prelude::*;

verus! {

/// Most Mod ids one update carries.
pub const MAX_MOD_INSTALLATION_STATE_IDS: usize = 2048;

/// Most game/profile scopes a session remembers.
pub const MAX_SCOPES: usize = 16;

#[derive(Debug, Clone, PartialEq, Eq)]
pub struct ModInstallationStateUpdate {
    pub game_id: GameId,
    pub profile_id: ProfileId,
    /// Identity of the observation sequence; a new one starts when a scope is first seen or
    /// was forgotten.
    pub epoch: String,
    /// Position of this read in the sequence.
    pub revision: u32,
    /// The receiver must drop what it holds for this scope.
    pub reset: bool,
    pub available: bool,
    pub mod_ids: Vec<ModId>,
    pub summaries: Vec<InstallManifestStatusSummary>,
}

struct ObservedScope {
    game_id: String,
    profile_id: ProfileId,
    epoch: String,
    revision: u32,
    snapshot: Option<ModInstallationStateSnapshot>,
}

pub open spec fn scopes_have(v: Seq<(Seq<char>, Seq<char>, Seq<char>, u32)>, game: Seq<char>, profile: Seq<char>) -> bool {
    exists|i: int| 0 <= i < v.len() && (#[trigger] v[i]).0 == game && v[i].1 == profile
}

pub open spec fn scope_in(v: Seq<(Seq<char>, Seq<char>, Seq<char>, u32)>, game: Seq<char>, profile: Seq<char>) -> (
    Seq<char>,
    Seq<char>,
    Seq<char>,
    u32,
) {
    v[choose|i: int| 0 <= i < v.len() && (#[trigger] v[i]).0 == game && v[i].1 == profile]
}

pub open spec fn scopes_unique(v: Seq<(Seq<char>, Seq<char>, Seq<char>, u32)>) -> bool {
    forall|i: int, j: int|
        0 <= i < j < v.len() ==> !((#[trigger] v[i]).0 == (#[trigger] v[j]).0 && v[i].1 == v[j].1)
}

/// Adding the scope of a key the others do not hold keeps one scope per key.
proof fn lemma_push_scope(
    rest: Seq<(Seq<char>, Seq<char>, Seq<char>, u32)>,
    after: Seq<(Seq<char>, Seq<char>, Seq<char>, u32)>,
    scope: (Seq<char>, Seq<char>, Seq<char>, u32),
)
    requires
        scopes_unique(rest),
        rest.len() < MAX_SCOPES,
        forall|k: int| 0 <= k < rest.len() ==> !((#[trigger] rest[k]).0 == scope.0 && rest[k].1 == scope.1),
        after == rest.push(scope),
    ensures
        scopes_unique(after),
        after.len() <= MAX_SCOPES,
        scopes_have(after, scope.0, scope.1),
        scope_in(after, scope.0, scope.1) == scope,
{
    assert forall|a: int, b: int| 0 <= a < b < after.len() implies !((#[trigger] after[a]).0 == (#[trigger] after[b]).0 && after[a].1 == after[b].1) by {
        assert(after[a] == rest[a]);
        if b < rest.len() {
            assert(after[b] == rest[b]);
        }
    }
    lemma_scope_in_unique(after, rest.len() as int);
}

proof fn lemma_scope_in_unique(v: Seq<(Seq<char>, Seq<char>, Seq<char>, u32)>, i: int)
    requires
        scopes_unique(v),
        0 <= i < v.len(),
    ensures
        scopes_have(v, v[i].0, v[i].1),
        scope_in(v, v[i].0, v[i].1) == v[i],
{
    let j = choose|j: int| 0 <= j < v.len() && (#[trigger] v[j]).0 == v[i].0 && v[j].1 == v[i].1;
    if j != i {
        if j < i {
            assert(!(v[j].0 == v[i].0 && v[j].1 == v[i].1));
        } else {
            assert(!(v[i].0 == v[j].0 && v[i].1 == v[j].1));
        }
    }
}

pub struct ModInstallationStateSession<S: ModInstallationStateSources> {
    query: ModInstallationStateQueryService<S>,
    scopes: Vec<ObservedScope>,
}

impl<S: ModInstallationStateSources> ModInstallationStateSession<S> {
    /// Game, profile, epoch and revision of every remembered scope.
    pub closed spec fn scopes_view(&self) -> Seq<(Seq<char>, Seq<char>, Seq<char>, u32)> {
        self.scopes@.map_values(
            |s: ObservedScope| (s.game_id@, s.profile_id@, s.epoch@, s.revision),
        )
    }

    /// Whether the scope of `game`/`profile` is remembered.
    pub open spec fn has_scope(&self, game: Seq<char>, profile: Seq<char>) -> bool {
        scopes_have(self.scopes_view(), game, profile)
    }

    /// The remembered scope of `game`/`profile`.
    pub open spec fn scope_of(&self, game: Seq<char>, profile: Seq<char>) -> (Seq<char>, Seq<char>, Seq<char>, u32) {
        scope_in(self.scopes_view(), game, profile)
    }

    /// At most one scope per game and profile, and never more than the bound.
    pub open spec fn wf(&self) -> bool {
        &&& self.scopes_view().len() <= MAX_SCOPES
        &&& scopes_unique(self.scopes_view())
    }

    pub fn new(query: ModInstallationStateQueryService<S>) -> (r: Self)
        ensures
            r.wf(),
            r.scopes_view().len() == 0,
    {
        ModInstallationStateSession { query, scopes: Vec::new() }
    }

    fn find_scope(&self, game_id: &str, profile_id: &ProfileId) -> (r: Option<usize>)
        ensures
            r matches Some(i) ==> i < self.scopes_view().len() && self.scopes_view()[i as int].0
                == game_id@ && self.scopes_view()[i as int].1 == profile_id@,
            r is None ==> !self.has_scope(game_id@, profile_id@),
    {
        let mut i: usize = 0;
        while i < self.scopes.len()
            invariant
                i <= self.scopes@.len(),
                self.scopes_view().len() == self.scopes@.len(),
                forall|k: int|
                    0 <= k < i ==> !((#[trigger] self.scopes_view()[k]).0 == game_id@
                        && self.scopes_view()[k].1 == profile_id@),
            decreases self.scopes@.len() - i,
        {
            if str_equal(self.scopes[i].game_id.as_str(), game_id) && str_equal(
                self.scopes[i].profile_id.as_str(),
                profile_id.as_str(),
            ) {
                return Some(i);
            }
            i = i + 1;
        }
        None
    }

    /// Position of the scope with the smallest key.
    fn first_scope(&self) -> (r: usize)
        requires
            self.scopes@.len() > 0,
        ensures
            r < self.scopes@.len(),
            forall|k: int|
                0 <= k < self.scopes_view().len() ==> !entry_before(
                    (#[trigger] self.scopes_view()[k]).0,
                    self.scopes_view()[k].1,
                    self.scopes_view()[r as int].0,
                    self.scopes_view()[r as int].1,
                ) || k == r,
    {
        let mut best: usize = 0;
        let mut i: usize = 1;
        while i < self.scopes.len()
            invariant
                1 <= i <= self.scopes@.len(),
                best < i,
                self.scopes_view().len() == self.scopes@.len(),
                forall|k: int|
                    0 <= k < i ==> !entry_before(
                        (#[trigger] self.scopes_view()[k]).0,
                        self.scopes_view()[k].1,
                        self.scopes_view()[best as int].0,
                        self.scopes_view()[best as int].1,
                    ) || k == best,
            decreases self.scopes@.len() - i,
        {
            let g_i = chars_of(self.scopes[i].game_id.as_str());
            let g_b = chars_of(self.scopes[best].game_id.as_str());
            let p_i = chars_of(self.scopes[i].profile_id.as_str());
            let p_b = chars_of(self.scopes[best].profile_id.as_str());
            let before = lex_less(&g_i, &g_b) || (str_equal(
                self.scopes[i].game_id.as_str(),
                self.scopes[best].game_id.as_str(),
            ) && lex_less(&p_i, &p_b));
            if before {
                proof {
                    assert forall|k: int| 0 <= k < i + 1 implies !entry_before(
                        (#[trigger] self.scopes_view()[k]).0,
                        self.scopes_view()[k].1,
                        self.scopes_view()[i as int].0,
                        self.scopes_view()[i as int].1,
                    ) || k == i by {
                        if k < i && entry_before(
                            self.scopes_view()[k].0,
                            self.scopes_view()[k].1,
                            self.scopes_view()[i as int].0,
                            self.scopes_view()[i as int].1,
                        ) {
                            lemma_entry_before_transitive(
                                self.scopes_view()[k].0,
                                self.scopes_view()[k].1,
                                self.scopes_view()[i as int].0,
                                self.scopes_view()[i as int].1,
                                self.scopes_view()[best as int].0,
                                self.scopes_view()[best as int].1,
                            );
                            lemma_lex_irreflexive(self.scopes_view()[best as int].0);
                            lemma_lex_irreflexive(self.scopes_view()[best as int].1);
                        }
                    }
                }
                best = i;
            }
            i = i + 1;
        }
        best
    }

    /// Reads the installation state of `profile_id` for the requested Mods. Every read is a
    /// fresh repository read and advances the scope's revision; the Mods whose state changed
    /// since the previous successful read of the scope are added to the requested ones unless
    /// that would exceed the bound, in which case the receiver is told to reset. A failed
    /// read carries no summaries and also asks for a reset. A scope seen for the first time
    /// gets a random epoch; when none can be drawn the read fails and nothing is remembered.
    pub fn read(&mut self, game_id: &GameId, profile_id: &ProfileId, mod_ids: &Vec<ModId>) -> (r:
        Result<ModInstallationStateUpdate, InstallManifestQueryError>)
        requires
            old(self).wf(),
        ensures
            final(self).wf(),
            mod_ids@.len() > MAX_MOD_INSTALLATION_STATE_IDS ==> r is Err && final(self).scopes_view()
                == old(self).scopes_view(),
            (mod_ids@.len() > MAX_MOD_INSTALLATION_STATE_IDS || (old(self).has_scope(game_id@, profile_id@)
                && old(self).scope_of(game_id@, profile_id@).3 == u32::MAX)) ==> r is Err,
            r is Err ==> (mod_ids@.len() > MAX_MOD_INSTALLATION_STATE_IDS || !old(self).has_scope(game_id@, profile_id@)
                || old(self).scope_of(game_id@, profile_id@).3 == u32::MAX),
            r is Err && !old(self).has_scope(game_id@, profile_id@) ==> final(self).scopes_view() == old(
                self,
            ).scopes_view(),
            r matches Ok(u) ==> {
                &&& u.game_id == *game_id
                &&& u.profile_id == *profile_id
                &&& final(self).has_scope(game_id@, profile_id@)
                &&& final(self).scope_of(game_id@, profile_id@).2 == u.epoch@
                &&& final(self).scope_of(game_id@, profile_id@).3 == u.revision
                &&& old(self).has_scope(game_id@, profile_id@) ==> u.epoch@ == old(self).scope_of(
                    game_id@,
                    profile_id@,
                ).2 && u.revision == old(self).scope_of(game_id@, profile_id@).3 + 1
                &&& !old(self).has_scope(game_id@, profile_id@) ==> u.revision == 1 && u.reset
                &&& !u.available ==> u.reset && u.summaries@.len() == 0
                &&& u.available ==> u.summaries@.len() == u.mod_ids@.len() && forall|k: int|
                    0 <= k < u.mod_ids@.len() ==> (#[trigger] u.summaries@[k]).mod_id@
                        == u.mod_ids@[k]@
                &&& sorted_mod_ids(u.mod_ids@)
                &&& u.mod_ids@.len() <= MAX_MOD_INSTALLATION_STATE_IDS
                &&& forall|k: int| 0 <= k < mod_ids@.len() ==> mod_ids_contain(u.mod_ids@, (#[trigger] mod_ids@[k])@)
            },
    {
        if mod_ids.len() > MAX_MOD_INSTALLATION_STATE_IDS {
            return Err(InstallManifestQueryError::ManifestUnavailable);
        }
        let ghost old_view = self.scopes_view();
        let ghost mut found_at: int = -1;
        let (mut scope, fresh_scope) = match self.find_scope(game_id.as_str(), profile_id) {
            Some(i) => {
                let s = self.scopes.remove(i);
                proof {
                    found_at = i as int;
                    assert(self.scopes_view() =~= old_view.remove(i as int));
                    lemma_scope_in_unique(old_view, i as int);
                }
                (s, false)
            },
            None => {
                let epoch = match random_task_token() {
                    Some(t) => t,
                    None => {
                        return Err(InstallManifestQueryError::ManifestUnavailable);
                    },
                };
                if self.scopes.len() >= MAX_SCOPES {
                    let first = self.first_scope();
                    let _ = self.scopes.remove(first);
                    proof {
                        assert(self.scopes_view() =~= old_view.remove(first as int));
                    }
                }
                (
                    ObservedScope {
                        game_id: game_id.as_str().to_owned(),
                        profile_id: profile_id.duplicate(),
                        epoch,
                        revision: 0,
                        snapshot: None,
                    },
                    true,
                )
            },
        };
        let ghost rest = self.scopes_view();
        proof {
            assert(fresh_scope <==> !old(self).has_scope(game_id@, profile_id@));
            assert(!fresh_scope ==> old_view[found_at] == (scope.game_id@, scope.profile_id@, scope.epoch@, scope.revision));
            assert(!fresh_scope ==> old(self).scope_of(game_id@, profile_id@) == old_view[found_at]);
            assert(fresh_scope ==> scope.revision == 0);
            assert(scope.game_id@ == game_id@ && scope.profile_id@ == profile_id@);
            assert(scopes_unique(rest)) by {
                assert forall|a: int, b: int| 0 <= a < b < rest.len() implies !((#[trigger] rest[a]).0 == (#[trigger] rest[b]).0 && rest[a].1 == rest[b].1) by {
                    if !fresh_scope {
                        let ra = if a < found_at { a } else { a + 1 };
                        let rb = if b < found_at { b } else { b + 1 };
                        assert(rest[a] == old_view[ra] && rest[b] == old_view[rb]);
                    } else if old_view.len() >= MAX_SCOPES {
                        let f = choose|f: int| 0 <= f < old_view.len() && rest =~= old_view.remove(f);
                        let ra = if a < f { a } else { a + 1 };
                        let rb = if b < f { b } else { b + 1 };
                        assert(rest[a] == old_view[ra] && rest[b] == old_view[rb]);
                    } else {
                        assert(rest[a] == old_view[a] && rest[b] == old_view[b]);
                    }
                }
            }
            assert(rest.len() < MAX_SCOPES);
            assert forall|k: int| 0 <= k < rest.len() implies !((#[trigger] rest[k]).0 == game_id@
                && rest[k].1 == profile_id@) by {
                if !fresh_scope {
                    let i = choose|i: int| 0 <= i < old_view.len() && (#[trigger] old_view[i]).0 == game_id@ && old_view[i].1 == profile_id@;
                }
            }
        }
        let revision = match scope.revision.checked_add(1) {
            Some(v) => v,
            None => {
                self.scopes.push(scope);
                proof {
                    assert(self.scopes_view() =~= rest.push((scope.game_id@, scope.profile_id@, scope.epoch@, scope.revision)));
                    lemma_push_scope(rest, self.scopes_view(), (scope.game_id@, scope.profile_id@, scope.epoch@, scope.revision));
                }
                return Err(InstallManifestQueryError::ManifestUnavailable);
            },
        };
        scope.revision = revision;
        let fresh = self.query.inspect(profile_id);
        let mut ids: Vec<ModId> = Vec::new();
        let mut k: usize = 0;
        while k < mod_ids.len()
            invariant
                k <= mod_ids@.len(),
                ids@.len() <= k,
                sorted_mod_ids(ids@),
                forall|j: int| 0 <= j < k ==> mod_ids_contain(ids@, (#[trigger] mod_ids@[j])@),
            decreases mod_ids@.len() - k,
        {
            insert_mod_id(&mut ids, mod_ids[k].duplicate());
            proof {
                assert forall|j: int| 0 <= j < k + 1 implies mod_ids_contain(ids@, (#[trigger] mod_ids@[j])@) by {
                    if j < k {
                        assert(mod_ids_contain(ids@, mod_ids@[j]@));
                    }
                }
            }
            k = k + 1;
        }
        let mut reset = scope.snapshot.is_none();
        match (&scope.snapshot, &fresh) {
            (Some(previous), Ok(current)) => {
                if previous.default_status != current.default_status {
                    reset = true;
                }
                let changed = current.changed_mod_ids(previous);
                let mut merged: Vec<ModId> = Vec::new();
                let mut j: usize = 0;
                while j < ids.len()
                    invariant
                        j <= ids@.len(),
                        merged@.len() <= j,
                        sorted_mod_ids(merged@),
                        sorted_mod_ids(ids@),
                        forall|x: int| 0 <= x < j ==> mod_ids_contain(merged@, (#[trigger] ids@[x])@),
                        forall|m: Seq<char>| #[trigger] mod_ids_contain(merged@, m) ==> mod_ids_contain(ids@, m),
                    decreases ids@.len() - j,
                {
                    insert_mod_id(&mut merged, ids[j].duplicate());
                    proof {
                        assert forall|x: int| 0 <= x < j + 1 implies mod_ids_contain(merged@, (#[trigger] ids@[x])@) by {
                            if x < j {
                                assert(mod_ids_contain(merged@, ids@[x]@));
                            }
                        }
                        assert forall|m: Seq<char>| #[trigger] mod_ids_contain(merged@, m) implies mod_ids_contain(ids@, m) by {
                            if m == ids@[j as int]@ {
                                assert(ids@[j as int]@ == m);
                            }
                        }
                    }
                    j = j + 1;
                }
                let mut c: usize = 0;
                while c < changed.len()
                    invariant
                        c <= changed@.len(),
                        sorted_mod_ids(merged@),
                        forall|x: int| 0 <= x < ids@.len() ==> mod_ids_contain(merged@, (#[trigger] ids@[x])@),
                    decreases changed@.len() - c,
                {
                    insert_mod_id(&mut merged, changed[c].duplicate());
                    proof {
                        assert forall|x: int| 0 <= x < ids@.len() implies mod_ids_contain(merged@, (#[trigger] ids@[x])@) by {
                            assert(mod_ids_contain(merged@, ids@[x]@) || true);
                        }
                    }
                    c = c + 1;
                }
                if merged.len() > MAX_MOD_INSTALLATION_STATE_IDS {
                    reset = true;
                } else {
                    proof {
                        assert forall|x: int| 0 <= x < mod_ids@.len() implies mod_ids_contain(merged@, (#[trigger] mod_ids@[x])@) by {
                            assert(mod_ids_contain(ids@, mod_ids@[x]@));
                            let y = choose|y: int| 0 <= y < ids@.len() && #[trigger] ids@[y]@ == mod_ids@[x]@;
                            assert(mod_ids_contain(merged@, ids@[y]@));
                        }
                    }
                    ids = merged;
                }
            },
            _ => {},
        }
        let mut summaries: Vec<InstallManifestStatusSummary> = Vec::new();
        let available = fresh.is_ok();
        match &fresh {
            Ok(current) => {
                let mut x: usize = 0;
                while x < ids.len()
                    invariant
                        x <= ids@.len(),
                        summaries@.len() == x,
                        forall|y: int| 0 <= y < x ==> (#[trigger] summaries@[y]).mod_id@ == ids@[y]@,
                    decreases ids@.len() - x,
                {
                    summaries.push(current.summary(&ids[x]));
                    x = x + 1;
                }
            },
            Err(_) => {},
        }
        if !available {
            reset = true;
        }
        scope.snapshot = match fresh {
            Ok(current) => Some(current),
            Err(_) => None,
        };
        let epoch = scope.epoch.clone();
        let update = ModInstallationStateUpdate {
            game_id: game_id.duplicate(),
            profile_id: profile_id.duplicate(),
            epoch,
            revision: scope.revision,
            reset,
            available,
            mod_ids: ids,
            summaries,
        };
        self.scopes.push(scope);
        proof {
            assert(self.scopes_view() =~= rest.push((scope.game_id@, scope.profile_id@, scope.epoch@, scope.revision)));
            lemma_push_scope(rest, self.scopes_view(), (scope.game_id@, scope.profile_id@, scope.epoch@, scope.revision));
        }
        Ok(update)
    }
}

} // verus!
