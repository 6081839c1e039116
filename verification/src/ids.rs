//! Identities of the domain: logical Mods, their revisions, profiles and games.
use crate::library_query::{lemma_lex_irreflexive, lemma_lex_total, lemma_lex_transitive, lex_less, lex_lt};
use crate::text::{chars_of, str_equal};
use vstd::prelude::*;

verus! {

/// Identity of a logical Mod.
#[derive(Debug, Clone, PartialEq, Eq, Hash, PartialOrd, Ord)]
pub struct ModId {
    value: String,
}

impl View for ModId {
    type V = Seq<char>;

    closed spec fn view(&self) -> Seq<char> {
        self.value@
    }
}

impl ModId {
    /// A copy of this identity.
    pub fn duplicate(&self) -> (r: Self)
        ensures
            r == *self,
    {
        ModId { value: self.value.clone() }
    }

    pub fn new(value: &str) -> (r: Self)
        ensures
            r@ == value@,
    {
        ModId { value: value.to_owned() }
    }

    pub fn as_str(&self) -> (r: &str)
        ensures
            r@ == self@,
    {
        self.value.as_str()
    }
}

/// Identity of one imported revision of a logical Mod.
#[derive(Debug, Clone, PartialEq, Eq, Hash, PartialOrd, Ord)]
pub struct ModRevisionId {
    value: String,
}

impl View for ModRevisionId {
    type V = Seq<char>;

    closed spec fn view(&self) -> Seq<char> {
        self.value@
    }
}

impl ModRevisionId {
    /// A copy of this identity.
    pub fn duplicate(&self) -> (r: Self)
        ensures
            r == *self,
    {
        ModRevisionId { value: self.value.clone() }
    }

    pub fn new(value: &str) -> (r: Self)
        ensures
            r@ == value@,
    {
        ModRevisionId { value: value.to_owned() }
    }

    pub fn as_str(&self) -> (r: &str)
        ensures
            r@ == self@,
    {
        self.value.as_str()
    }
}

/// Identity of a profile.
#[derive(Debug, Clone, PartialEq, Eq, Hash, PartialOrd, Ord)]
pub struct ProfileId {
    value: String,
}

impl View for ProfileId {
    type V = Seq<char>;

    closed spec fn view(&self) -> Seq<char> {
        self.value@
    }
}

impl ProfileId {
    /// A copy of this identity.
    pub fn duplicate(&self) -> (r: Self)
        ensures
            r == *self,
    {
        ProfileId { value: self.value.clone() }
    }

    pub fn new(value: &str) -> (r: Self)
        ensures
            r@ == value@,
    {
        ProfileId { value: value.to_owned() }
    }

    pub fn as_str(&self) -> (r: &str)
        ensures
            r@ == self@,
    {
        self.value.as_str()
    }
}

/// Identity of a supported game.
#[derive(Debug, Clone, PartialEq, Eq, Hash, PartialOrd, Ord)]
pub struct GameId {
    value: String,
}

impl View for GameId {
    type V = Seq<char>;

    closed spec fn view(&self) -> Seq<char> {
        self.value@
    }
}

impl GameId {
    /// A copy of this identity.
    pub fn duplicate(&self) -> (r: Self)
        ensures
            r == *self,
    {
        GameId { value: self.value.clone() }
    }

    pub fn new(value: &str) -> (r: Self)
        ensures
            r@ == value@,
    {
        GameId { value: value.to_owned() }
    }

    pub fn as_str(&self) -> (r: &str)
        ensures
            r@ == self@,
    {
        self.value.as_str()
    }
}

/// Mod ids in strictly increasing text order: a set, listed in order.
pub open spec fn sorted_mod_ids(ids: Seq<ModId>) -> bool {
    forall|i: int, j: int| 0 <= i < j < ids.len() ==> lex_lt((#[trigger] ids[i])@, (#[trigger] ids[j])@)
}

pub open spec fn mod_ids_contain(ids: Seq<ModId>, m: Seq<char>) -> bool {
    exists|i: int| 0 <= i < ids.len() && #[trigger] ids[i]@ == m
}

/// Adds `id` to an ordered set of Mod ids.
pub fn insert_mod_id(ids: &mut Vec<ModId>, id: ModId)
    requires
        sorted_mod_ids(old(ids)@),
    ensures
        sorted_mod_ids(final(ids)@),
        forall|m: Seq<char>| #[trigger] mod_ids_contain(final(ids)@, m) <==> (mod_ids_contain(old(ids)@, m) || m == id@),
        final(ids)@.len() <= old(ids)@.len() + 1,
{
    let key = chars_of(id.as_str());
    let mut p: usize = 0;
    while p < ids.len() && lex_less(&chars_of(ids[p].as_str()), &key)
        invariant
            p <= ids@.len(),
            key@ == id@,
            sorted_mod_ids(ids@),
            forall|k: int| 0 <= k < p ==> lex_lt((#[trigger] ids@[k])@, id@),
        decreases ids@.len() - p,
    {
        p = p + 1;
    }
    if p < ids.len() && str_equal(ids[p].as_str(), id.as_str()) {
        proof {
            assert(ids@[p as int]@ == id@);
        }
        return;
    }
    let ghost old_ids = ids@;
    proof {
        if p < old_ids.len() {
            lemma_lex_total(old_ids[p as int]@, id@);
        }
    }
    ids.insert(p, id);
    proof {
        assert forall|i: int, j: int| 0 <= i < j < ids@.len() implies lex_lt((#[trigger] ids@[i])@, (#[trigger] ids@[j])@) by {
            if j < p {
                assert(ids@[i] == old_ids[i] && ids@[j] == old_ids[j]);
            } else if j == p {
                assert(ids@[i] == old_ids[i]);
            } else if i == p {
                assert(ids@[j] == old_ids[j - 1]);
                if j - 1 > p {
                    lemma_lex_transitive(id@, old_ids[p as int]@, old_ids[j - 1]@);
                }
            } else if i < p {
                assert(ids@[i] == old_ids[i] && ids@[j] == old_ids[j - 1]);
                if j - 1 >= p {
                    lemma_lex_transitive(old_ids[i]@, id@, old_ids[p as int]@);
                    if j - 1 > p {
                        lemma_lex_transitive(old_ids[i]@, old_ids[p as int]@, old_ids[j - 1]@);
                    }
                }
            } else {
                assert(ids@[i] == old_ids[i - 1] && ids@[j] == old_ids[j - 1]);
            }
        }
        assert forall|m: Seq<char>| #[trigger] mod_ids_contain(ids@, m) <==> (mod_ids_contain(old_ids, m) || m == id@) by {
            if mod_ids_contain(ids@, m) {
                let x = choose|x: int| 0 <= x < ids@.len() && #[trigger] ids@[x]@ == m;
                if x < p {
                    assert(old_ids[x]@ == m);
                } else if x > p {
                    assert(old_ids[x - 1]@ == m);
                }
            }
            if mod_ids_contain(old_ids, m) {
                let x = choose|x: int| 0 <= x < old_ids.len() && #[trigger] old_ids[x]@ == m;
                if x < p {
                    assert(ids@[x]@ == m);
                } else {
                    assert(ids@[x + 1]@ == m);
                }
            }
            if m == id@ {
                assert(ids@[p as int]@ == m);
            }
        }
    }
}

} // verus!
