//! Mod library queries: validation, search, filter, stable name order and paging over a
//! snapshot of the library and the install status of its entries.
use crate::ids::{GameId, ModId, ProfileId};
use crate::library::{
    same_item, InstallManifestStatus, InstallManifestStatusSummary, ModLibraryItem,
    ModLibrarySnapshotItem,
};
use crate::text::{
    chars_of, contains_seq, contains_str, normalize_key, normalize_key_spec, str_equal,
};
use vstd::prelude::*;

verus! {

pub const DEFAULT_MOD_LIBRARY_PAGE_SIZE: u32 = 24;

pub const MAX_MOD_LIBRARY_SEARCH_CHARS: usize = 128;

#[derive(Debug, Clone, PartialEq, Eq)]
pub struct ModLibraryProfileContext {
    pub game_id: GameId,
    pub profile_id: ProfileId,
}

#[derive(Debug, Clone, PartialEq, Eq)]
pub enum ModLibraryFilter {
    All,
    Status(InstallManifestStatus),
    Category(String),
}

impl Default for ModLibraryFilter {
    fn default() -> (r: Self)
        ensures
            r is All,
    {
        ModLibraryFilter::All
    }
}

#[derive(Debug, Clone, Copy, PartialEq, Eq, Structural)]
pub enum ModLibrarySort {
    NameAsc,
}

impl Default for ModLibrarySort {
    fn default() -> (r: Self)
        ensures
            r == ModLibrarySort::NameAsc,
    {
        ModLibrarySort::NameAsc
    }
}

#[derive(Debug, Clone, PartialEq, Eq)]
pub struct ModLibraryQuery {
    pub profile_context: Option<ModLibraryProfileContext>,
    pub search: String,
    pub filter: ModLibraryFilter,
    pub sort: ModLibrarySort,
    pub page: u64,
    pub page_size: u32,
}

impl Default for ModLibraryQuery {
    fn default() -> (r: Self)
        ensures
            r.profile_context is None,
            r.search@.len() == 0,
            r.filter is All,
            r.sort == ModLibrarySort::NameAsc,
            r.page == 1,
            r.page_size == DEFAULT_MOD_LIBRARY_PAGE_SIZE,
    {
        ModLibraryQuery {
            profile_context: None,
            search: String::new(),
            filter: ModLibraryFilter::All,
            sort: ModLibrarySort::NameAsc,
            page: 1,
            page_size: DEFAULT_MOD_LIBRARY_PAGE_SIZE,
        }
    }
}

#[derive(Debug, Clone, PartialEq, Eq)]
pub struct ModLibraryPageItem {
    pub item: ModLibraryItem,
    pub install_summary: Option<InstallManifestStatusSummary>,
}

#[derive(Debug, Clone, PartialEq, Eq)]
pub struct ModLibraryPage {
    pub items: Vec<ModLibraryPageItem>,
    pub page: u64,
    pub page_size: u32,
    pub library_total: usize,
    pub matching_total: usize,
}

#[derive(Debug, Clone, Copy, PartialEq, Eq, Structural)]
pub enum ModLibraryStatusProviderError {
    Unavailable,
}

#[derive(Debug, Clone, Copy, PartialEq, Eq, Structural)]
pub enum ModLibraryQueryError {
    PageInvalid,
    PageSizeUnsupported,
    SearchTooLong,
    CategoryNotFound,
    ProfileContextRequired,
    LibraryUnavailable,
    StatusUnavailable,
}

/// Page sizes the library list offers.
pub open spec fn allowed_page_size(page_size: u32) -> bool {
    page_size == 12 || page_size == 24 || page_size == 48 || page_size == 96
}

/// The refusal a query earns before any data is read.
pub open spec fn validate_query_spec(query: ModLibraryQuery) -> Result<(), ModLibraryQueryError> {
    if query.page == 0 {
        Err(ModLibraryQueryError::PageInvalid)
    } else if !allowed_page_size(query.page_size) {
        Err(ModLibraryQueryError::PageSizeUnsupported)
    } else if query.search@.len() > MAX_MOD_LIBRARY_SEARCH_CHARS {
        Err(ModLibraryQueryError::SearchTooLong)
    } else if query.filter is Status && query.profile_context is None {
        Err(ModLibraryQueryError::ProfileContextRequired)
    } else {
        Ok(())
    }
}

/// The query rules: a query is accepted exactly when it asks for a page from 1 on, a page size
/// of 12, 24, 48 or 96, a search of at most 128 characters, and names a profile whenever it
/// filters by status; the first rule broken, in that order, gives the refusal.
pub proof fn lemma_query_rules(query: ModLibraryQuery)
    ensures
        validate_query_spec(query) is Ok <==> (query.page >= 1 && (query.page_size == 12 || query.page_size == 24
            || query.page_size == 48 || query.page_size == 96) && query.search@.len() <= 128 && (query.filter is Status
            ==> query.profile_context is Some)),
        query.page == 0 ==> validate_query_spec(query) == Err::<(), _>(ModLibraryQueryError::PageInvalid),
        query.page >= 1 && !(query.page_size == 12 || query.page_size == 24 || query.page_size == 48
            || query.page_size == 96) ==> validate_query_spec(query) == Err::<(), _>(
            ModLibraryQueryError::PageSizeUnsupported,
        ),
        validate_query_spec(query) == Err::<(), _>(ModLibraryQueryError::SearchTooLong) <==> (query.page >= 1 && (
        query.page_size == 12 || query.page_size == 24 || query.page_size == 48 || query.page_size == 96)
            && query.search@.len() > 128),
        validate_query_spec(query) == Err::<(), _>(ModLibraryQueryError::ProfileContextRequired) ==> query.filter is Status
            && query.profile_context is None,
{
}

pub fn validate_query(query: &ModLibraryQuery) -> (r: Result<(), ModLibraryQueryError>)
    ensures
        r == validate_query_spec(*query),
        r is Ok <==> (query.page >= 1 && (query.page_size == 12 || query.page_size == 24 || query.page_size == 48
            || query.page_size == 96) && query.search@.len() <= 128 && (query.filter is Status
            ==> query.profile_context is Some)),
{
    if query.page == 0 {
        return Err(ModLibraryQueryError::PageInvalid);
    }
    let ps = query.page_size;
    if !(ps == 12 || ps == 24 || ps == 48 || ps == 96) {
        return Err(ModLibraryQueryError::PageSizeUnsupported);
    }
    let chars = chars_of(query.search.as_str());
    if chars.len() > MAX_MOD_LIBRARY_SEARCH_CHARS {
        return Err(ModLibraryQueryError::SearchTooLong);
    }
    match (&query.filter, &query.profile_context) {
        (ModLibraryFilter::Status(_), None) => Err(ModLibraryQueryError::ProfileContextRequired),
        _ => Ok(()),
    }
}

/// No two entries share an identity.
pub open spec fn distinct_ids(ids: Seq<Seq<char>>) -> bool {
    forall|i: int, j: int|
        0 <= i < ids.len() && 0 <= j < ids.len() && i != j ==> #[trigger] ids[i] != #[trigger] ids[j]
}

pub open spec fn mod_id_views(mod_ids: Seq<ModId>) -> Seq<Seq<char>> {
    mod_ids.map_values(|m: ModId| m@)
}

pub fn ensure_unique_mod_ids(mod_ids: &[ModId]) -> (r: Result<(), ModLibraryQueryError>)
    ensures
        r is Ok <==> distinct_ids(mod_id_views(mod_ids@)),
        r is Err ==> r == Err::<(), _>(ModLibraryQueryError::LibraryUnavailable),
{
    let n = mod_ids.len();
    let mut i: usize = 0;
    while i < n
        invariant
            n == mod_ids@.len(),
            0 <= i <= n,
            forall|a: int, b: int|
                0 <= a < n && 0 <= b < i && a != b ==> #[trigger] mod_ids@[a]@
                    != #[trigger] mod_ids@[b]@,
        decreases n - i,
    {
        let mut j: usize = 0;
        while j < n
            invariant
                n == mod_ids@.len(),
                0 <= i < n,
                0 <= j <= n,
                forall|a: int, b: int|
                    0 <= a < n && 0 <= b < i && a != b ==> #[trigger] mod_ids@[a]@
                        != #[trigger] mod_ids@[b]@,
                forall|a: int| 0 <= a < j && a != i ==> #[trigger] mod_ids@[a]@ != mod_ids@[i as int]@,
            decreases n - j,
        {
            if j != i && str_equal(mod_ids[j].as_str(), mod_ids[i].as_str()) {
                proof {
                    assert(mod_id_views(mod_ids@)[j as int] == mod_id_views(mod_ids@)[i as int]);
                }
                return Err(ModLibraryQueryError::LibraryUnavailable);
            }
            j = j + 1;
        }
        i = i + 1;
    }
    proof {
        assert forall|a: int, b: int|
            0 <= a < mod_id_views(mod_ids@).len() && 0 <= b < mod_id_views(mod_ids@).len() && a
                != b implies #[trigger] mod_id_views(mod_ids@)[a] != #[trigger] mod_id_views(
            mod_ids@,
        )[b] by {
            assert(mod_ids@[a]@ != mod_ids@[b]@);
        }
    }
    Ok(())
}

/// Whether the status provider's answer is usable for `mod_ids` in `context`: every summary
/// belongs to the profile and to a requested Mod, no Mod is answered twice, and every requested
/// Mod is answered.
pub open spec fn status_answer_valid(
    profile: Seq<char>,
    mod_ids: Seq<Seq<char>>,
    summaries: Seq<InstallManifestStatusSummary>,
) -> bool {
    &&& forall|k: int| 0 <= k < summaries.len() ==> #[trigger] summaries[k].profile_id@ == profile
    &&& forall|k: int| 0 <= k < summaries.len() ==> mod_ids.contains(#[trigger] summaries[k].mod_id@)
    &&& forall|a: int, b: int|
        0 <= a < summaries.len() && 0 <= b < summaries.len() && a != b
            ==> #[trigger] summaries[a].mod_id@ != #[trigger] summaries[b].mod_id@
    &&& forall|i: int| 0 <= i < mod_ids.len() ==> #[trigger] answered(summaries, mod_ids[i])
}

/// Whether `s` agrees with one of `summaries`.
pub open spec fn summary_from(
    summaries: Seq<InstallManifestStatusSummary>,
    s: InstallManifestStatusSummary,
) -> bool {
    exists|k: int| 0 <= k < summaries.len() && s == #[trigger] summaries[k]
}

/// Whether some summary answers for the Mod `id`.
pub open spec fn answered(summaries: Seq<InstallManifestStatusSummary>, id: Seq<char>) -> bool {
    exists|k: int| 0 <= k < summaries.len() && #[trigger] summaries[k].mod_id@ == id
}

/// Checks the status provider's answer and lines it up with `mod_ids`: `r[i]` is the summary
/// of `mod_ids[i]`.
#[verifier::spinoff_prover]
#[verifier::rlimit(30)]
pub fn validated_statuses(
    context: &ModLibraryProfileContext,
    mod_ids: &[ModId],
    summaries: &Vec<InstallManifestStatusSummary>,
) -> (r: Result<Vec<InstallManifestStatusSummary>, ModLibraryQueryError>)
    requires
        distinct_ids(mod_id_views(mod_ids@)),
    ensures
        r is Ok <==> status_answer_valid(context.profile_id@, mod_id_views(mod_ids@), summaries@),
        r is Err ==> r == Err::<Vec<InstallManifestStatusSummary>, _>(
            ModLibraryQueryError::StatusUnavailable,
        ),
        r matches Ok(v) ==> v@.len() == mod_ids@.len() && forall|i: int|
            0 <= i < mod_ids@.len() ==> #[trigger] v@[i].mod_id@ == mod_ids@[i]@ && summary_from(
                summaries@,
                v@[i],
            ),
{
    let ghost ids = mod_id_views(mod_ids@);
    let ghost profile = context.profile_id@;
    let n = summaries.len();
    let m = mod_ids.len();
    let mut k: usize = 0;
    while k < n
        invariant
            n == summaries@.len(),
            m == mod_ids@.len(),
            ids == mod_id_views(mod_ids@),
            profile == context.profile_id@,
            0 <= k <= n,
            forall|a: int| 0 <= a < k ==> #[trigger] summaries@[a].profile_id@ == profile,
            forall|a: int| 0 <= a < k ==> ids.contains(#[trigger] summaries@[a].mod_id@),
            forall|a: int, b: int|
                0 <= a < k && 0 <= b < k && a != b ==> #[trigger] summaries@[a].mod_id@
                    != #[trigger] summaries@[b].mod_id@,
        decreases n - k,
    {
        if !str_equal(summaries[k].profile_id.as_str(), context.profile_id.as_str()) {
            return Err(ModLibraryQueryError::StatusUnavailable);
        }
        let mut found = false;
        let mut i: usize = 0;
        while i < m
            invariant
                n == summaries@.len(),
                m == mod_ids@.len(),
                ids == mod_id_views(mod_ids@),
                0 <= k < n,
                0 <= i <= m,
                found <==> exists|x: int| 0 <= x < i && ids[x] == summaries@[k as int].mod_id@,
            decreases m - i,
        {
            if str_equal(mod_ids[i].as_str(), summaries[k].mod_id.as_str()) {
                proof {
                    assert(ids[i as int] == mod_ids@[i as int]@);
                }
                found = true;
            }
            i = i + 1;
        }
        if !found {
            proof {
                assert(!ids.contains(summaries@[k as int].mod_id@));
            }
            return Err(ModLibraryQueryError::StatusUnavailable);
        }
        let mut b: usize = 0;
        while b < k
            invariant
                n == summaries@.len(),
                0 <= k < n,
                0 <= b <= k,
                forall|x: int| 0 <= x < b ==> #[trigger] summaries@[x].mod_id@ != summaries@[k as int].mod_id@,
            decreases k - b,
        {
            if str_equal(summaries[b].mod_id.as_str(), summaries[k].mod_id.as_str()) {
                return Err(ModLibraryQueryError::StatusUnavailable);
            }
            b = b + 1;
        }
        k = k + 1;
    }
    let mut out: Vec<InstallManifestStatusSummary> = Vec::new();
    let mut i: usize = 0;
    while i < m
        invariant
            n == summaries@.len(),
            m == mod_ids@.len(),
            ids == mod_id_views(mod_ids@),
            ids.len() == m,
            profile == context.profile_id@,
            0 <= i <= m,
            out@.len() == i,
            forall|a: int| 0 <= a < n ==> #[trigger] summaries@[a].profile_id@ == profile,
            forall|a: int| 0 <= a < n ==> ids.contains(#[trigger] summaries@[a].mod_id@),
            forall|a: int, b: int|
                0 <= a < n && 0 <= b < n && a != b ==> #[trigger] summaries@[a].mod_id@
                    != #[trigger] summaries@[b].mod_id@,
            forall|x: int| 0 <= x < i ==> #[trigger] answered(summaries@, ids[x]),
            forall|x: int|
                0 <= x < i ==> #[trigger] out@[x].mod_id@ == mod_ids@[x]@ && summary_from(
                    summaries@,
                    out@[x],
                ),
        decreases m - i,
    {
        let mut j: usize = 0;
        let mut hit: Option<usize> = None;
        while j < n
            invariant
                n == summaries@.len(),
                m == mod_ids@.len(),
                0 <= i < m,
                0 <= j <= n,
                hit matches Some(h) ==> h < n && summaries@[h as int].mod_id@ == mod_ids@[i as int]@,
                hit is None ==> forall|x: int| 0 <= x < j ==> #[trigger] summaries@[x].mod_id@ != mod_ids@[i as int]@,
            decreases n - j,
        {
            if hit.is_none() && str_equal(summaries[j].mod_id.as_str(), mod_ids[i].as_str()) {
                hit = Some(j);
            }
            j = j + 1;
        }
        match hit {
            Some(h) => {
                let s = summaries[h].duplicate();
                proof {
                    assert(ids[i as int] == mod_ids@[i as int]@);
                    assert(summaries@[h as int].mod_id@ == ids[i as int]);
                }
                let ghost before = out@;
                out.push(s);
                proof {
                    assert(out@[i as int] == s);
                    assert(out@[i as int] == summaries@[h as int]);
                    assert forall|x: int| 0 <= x < i + 1 implies #[trigger] answered(summaries@, ids[x]) by {
                        if x == i {
                            assert(summaries@[h as int].mod_id@ == ids[x]);
                        }
                    }
                    assert forall|x: int| 0 <= x < i + 1 implies #[trigger] out@[x].mod_id@ == mod_ids@[x]@ && summary_from(summaries@, out@[x]) by {
                        if x == i {
                            assert(out@[x] == summaries@[h as int]);
                        } else {
                            assert(out@[x] == before[x]);
                            assert(before[x].mod_id@ == mod_ids@[x]@);
                            assert(summary_from(summaries@, before[x]));
                        }
                    }
                }
            },
            None => {
                proof {
                    assert forall|kk: int| 0 <= kk < summaries@.len() implies #[trigger] summaries@[kk].mod_id@ != ids[i as int] by {
                        assert(ids[i as int] == mod_ids@[i as int]@);
                    }
                    assert(!answered(summaries@, ids[i as int]));
                    assert(!status_answer_valid(profile, ids, summaries@));
                }
                return Err(ModLibraryQueryError::StatusUnavailable);
            },
        }
        i = i + 1;
    }
    proof {
        assert(status_answer_valid(profile, ids, summaries@));
    }
    Ok(out)
}

/// Lexicographic order of code points (the order `String`'s `Ord` gives, since UTF-8
/// preserves code point order).
pub open spec fn lex_lt(a: Seq<char>, b: Seq<char>) -> bool
    decreases a.len(),
{
    if a.len() == 0 {
        b.len() > 0
    } else if b.len() == 0 {
        false
    } else if a[0] != b[0] {
        (a[0] as u32) < (b[0] as u32)
    } else {
        lex_lt(a.drop_first(), b.drop_first())
    }
}

/// No text comes before itself.
pub proof fn lemma_lex_irreflexive(a: Seq<char>)
    ensures
        !lex_lt(a, a),
    decreases a.len(),
{
    if a.len() > 0 {
        lemma_lex_irreflexive(a.drop_first());
    }
}

/// Of two different texts, exactly one comes first.
pub proof fn lemma_lex_total(a: Seq<char>, b: Seq<char>)
    ensures
        a != b ==> (lex_lt(a, b) || lex_lt(b, a)),
        !(lex_lt(a, b) && lex_lt(b, a)),
    decreases a.len(),
{
    if a.len() > 0 && b.len() > 0 {
        if a[0] == b[0] {
            lemma_lex_total(a.drop_first(), b.drop_first());
            if a != b {
                assert(a.drop_first() != b.drop_first()) by {
                    if a.drop_first() == b.drop_first() {
                        assert(a =~= seq![a[0]] + a.drop_first());
                        assert(b =~= seq![b[0]] + b.drop_first());
                    }
                }
            }
        } else {
            vstd::utf8::char_u32_cast(a[0], a[0] as u32);
            vstd::utf8::char_u32_cast(b[0], b[0] as u32);
        }
    } else if a.len() == 0 && b.len() == 0 {
        assert(a =~= b);
    }
}

/// Coming first is transitive.
pub proof fn lemma_lex_transitive(a: Seq<char>, b: Seq<char>, c: Seq<char>)
    requires
        lex_lt(a, b),
        lex_lt(b, c),
    ensures
        lex_lt(a, c),
    decreases a.len(),
{
    if a.len() > 0 && b.len() > 0 && c.len() > 0 {
        if a[0] == b[0] && b[0] == c[0] {
            lemma_lex_transitive(a.drop_first(), b.drop_first(), c.drop_first());
        }
    }
}

pub fn lex_less(a: &Vec<char>, b: &Vec<char>) -> (r: bool)
    ensures
        r == lex_lt(a@, b@),
{
    let mut i: usize = 0;
    proof {
        assert(a@.skip(0) =~= a@);
        assert(b@.skip(0) =~= b@);
    }
    while i < a.len() && i < b.len() && a[i] == b[i]
        invariant
            0 <= i <= a@.len(),
            i <= b@.len(),
            lex_lt(a@, b@) == lex_lt(a@.skip(i as int), b@.skip(i as int)),
        decreases a@.len() - i,
    {
        proof {
            assert(a@.skip(i as int).drop_first() =~= a@.skip(i + 1));
            assert(b@.skip(i as int).drop_first() =~= b@.skip(i + 1));
        }
        i = i + 1;
    }
    if i == a.len() {
        i < b.len()
    } else if i == b.len() {
        false
    } else {
        (a[i] as u32) < (b[i] as u32)
    }
}

/// Name order of the library: normalized name first, Mod id breaking ties.
pub open spec fn entry_before(k1: Seq<char>, id1: Seq<char>, k2: Seq<char>, id2: Seq<char>) -> bool {
    lex_lt(k1, k2) || (k1 == k2 && lex_lt(id1, id2))
}

/// Name order is transitive.
pub proof fn lemma_entry_before_transitive(
    k1: Seq<char>,
    id1: Seq<char>,
    k2: Seq<char>,
    id2: Seq<char>,
    k3: Seq<char>,
    id3: Seq<char>,
)
    requires
        entry_before(k1, id1, k2, id2),
        entry_before(k2, id2, k3, id3),
    ensures
        entry_before(k1, id1, k3, id3),
{
    if lex_lt(k1, k2) && lex_lt(k2, k3) {
        lemma_lex_transitive(k1, k2, k3);
    } else if lex_lt(id1, id2) && lex_lt(id2, id3) && k1 == k2 && k2 == k3 {
        lemma_lex_transitive(id1, id2, id3);
    }
}

/// Position in `rem[k..]` of the entry that comes first, `best` being the best so far.
pub open spec fn argmin_from(
    keys: Seq<Seq<char>>,
    ids: Seq<Seq<char>>,
    rem: Seq<usize>,
    k: int,
    best: int,
) -> int
    decreases rem.len() - k,
{
    if k >= rem.len() || k < 0 {
        best
    } else if entry_before(keys[rem[k] as int], ids[rem[k] as int], keys[rem[best] as int], ids[rem[best] as int]) {
        argmin_from(keys, ids, rem, k + 1, k)
    } else {
        argmin_from(keys, ids, rem, k + 1, best)
    }
}

/// The entries of `rem` in name order: the first one, then the rest in name order.
pub open spec fn name_order(keys: Seq<Seq<char>>, ids: Seq<Seq<char>>, rem: Seq<usize>) -> Seq<usize>
    decreases rem.len(),
{
    if rem.len() == 0 {
        Seq::empty()
    } else {
        let m = argmin_from(keys, ids, rem, 1, 0);
        if 0 <= m < rem.len() {
            seq![rem[m]] + name_order(keys, ids, rem.remove(m))
        } else {
            rem
        }
    }
}

pub(crate) proof fn lemma_argmin_bounds(keys: Seq<Seq<char>>, ids: Seq<Seq<char>>, rem: Seq<usize>, k: int, best: int)
    requires
        0 <= best < rem.len(),
        0 <= k,
    ensures
        0 <= argmin_from(keys, ids, rem, k, best) < rem.len(),
    decreases rem.len() - k,
{
    if k < rem.len() {
        if entry_before(keys[rem[k] as int], ids[rem[k] as int], keys[rem[best] as int], ids[rem[best] as int]) {
            lemma_argmin_bounds(keys, ids, rem, k + 1, k);
        } else {
            lemma_argmin_bounds(keys, ids, rem, k + 1, best);
        }
    }
}

/// Sorts the indices `rem` into name order.
pub(crate) fn sort_by_name(keys: &Vec<Vec<char>>, ids: &Vec<Vec<char>>, rem: Vec<usize>) -> (r: Vec<usize>)
    requires
        forall|k: int| 0 <= k < rem@.len() ==> #[trigger] rem@[k] < keys@.len(),
        keys@.len() == ids@.len(),
    ensures
        r@ == name_order(
            keys@.map_values(|v: Vec<char>| v@),
            ids@.map_values(|v: Vec<char>| v@),
            rem@,
        ),
{
    let ghost kv = keys@.map_values(|v: Vec<char>| v@);
    let ghost iv = ids@.map_values(|v: Vec<char>| v@);
    let ghost original = rem@;
    let mut rem = rem;
    let mut out: Vec<usize> = Vec::new();
    while rem.len() > 0
        invariant
            kv == keys@.map_values(|v: Vec<char>| v@),
            iv == ids@.map_values(|v: Vec<char>| v@),
            keys@.len() == ids@.len(),
            forall|k: int| 0 <= k < rem@.len() ==> #[trigger] rem@[k] < keys@.len(),
            name_order(kv, iv, original) == out@ + name_order(kv, iv, rem@),
        decreases rem@.len(),
    {
        let mut best: usize = 0;
        let mut k: usize = 1;
        while k < rem.len()
            invariant
                kv == keys@.map_values(|v: Vec<char>| v@),
                iv == ids@.map_values(|v: Vec<char>| v@),
                keys@.len() == ids@.len(),
                forall|x: int| 0 <= x < rem@.len() ==> #[trigger] rem@[x] < keys@.len(),
                rem@.len() > 0,
                1 <= k <= rem@.len(),
                0 <= best < rem@.len(),
                argmin_from(kv, iv, rem@, k as int, best as int) == argmin_from(kv, iv, rem@, 1, 0),
            decreases rem@.len() - k,
        {
            let a = rem[k];
            let b = rem[best];
            let before = lex_less(&keys[a], &keys[b]) || (!lex_less(&keys[b], &keys[a])
                && vec_chars_equal(&keys[a], &keys[b]) && lex_less(&ids[a], &ids[b]));
            proof {
                assert(kv[a as int] == keys@[a as int]@);
                assert(kv[b as int] == keys@[b as int]@);
                assert(iv[a as int] == ids@[a as int]@);
                assert(iv[b as int] == ids@[b as int]@);
            }
            if before {
                best = k;
            }
            k = k + 1;
        }
        let ghost rem_before = rem@;
        proof {
            lemma_argmin_bounds(kv, iv, rem@, 1, 0);
        }
        let chosen = rem.remove(best);
        out.push(chosen);
        proof {
            assert(name_order(kv, iv, rem_before) == seq![rem_before[best as int]] + name_order(
                kv,
                iv,
                rem_before.remove(best as int),
            ));
            assert(rem@ =~= rem_before.remove(best as int));
            assert(out@ + name_order(kv, iv, rem@) =~= (out@.drop_last() + seq![chosen])
                + name_order(kv, iv, rem@));
        }
    }
    proof {
        assert(name_order(kv, iv, rem@) =~= Seq::<usize>::empty());
        assert(out@ + Seq::<usize>::empty() =~= out@);
    }
    out
}

fn vec_chars_equal(a: &Vec<char>, b: &Vec<char>) -> (r: bool)
    ensures
        r == (a@ == b@),
{
    if a.len() != b.len() {
        return false;
    }
    let mut i: usize = 0;
    while i < a.len()
        invariant
            a@.len() == b@.len(),
            0 <= i <= a@.len(),
            forall|k: int| 0 <= k < i ==> a@[k] == b@[k],
        decreases a@.len() - i,
    {
        if a[i] != b[i] {
            return false;
        }
        i = i + 1;
    }
    proof {
        assert(a@ =~= b@);
    }
    true
}

/// Whether an entry matches the normalized search text: its name, its author or one of its
/// category labels contains it.
pub open spec fn matches_search_spec(item: ModLibraryItem, search: Seq<char>) -> bool {
    ||| search.len() == 0
    ||| contains_seq(normalize_key_spec(item.name@), search)
    ||| (item.author is Some && contains_seq(normalize_key_spec(item.author->0@), search))
    ||| exists|k: int|
        0 <= k < item.category_labels@.len() && contains_seq(
            normalize_key_spec(#[trigger] item.category_labels@[k].name@),
            search,
        )
}

/// Whether an entry passes the filter, given its install summary.
pub open spec fn matches_filter_spec(
    entry: ModLibrarySnapshotItem,
    summary: Option<InstallManifestStatusSummary>,
    filter: ModLibraryFilter,
) -> bool {
    match filter {
        ModLibraryFilter::All => true,
        ModLibraryFilter::Status(status) => summary is Some && summary->0.status == status,
        ModLibraryFilter::Category(category_id) => exists|k: int|
            0 <= k < entry.user_category_ids@.len() && #[trigger] entry.user_category_ids@[k]@
                == category_id@,
    }
}

pub fn matches_search(item: &ModLibraryItem, normalized_name: &str, search: &str) -> (r: bool)
    requires
        normalized_name@ == normalize_key_spec(item.name@),
    ensures
        r == matches_search_spec(*item, search@),
{
    if search.is_empty() {
        return true;
    }
    if contains_str(normalized_name, search) {
        return true;
    }
    match &item.author {
        Some(author) => {
            let key = normalize_key(author.as_str());
            if contains_str(key.as_str(), search) {
                return true;
            }
        },
        None => {},
    }
    let mut k: usize = 0;
    while k < item.category_labels.len()
        invariant
            0 <= k <= item.category_labels@.len(),
            forall|x: int|
                0 <= x < k ==> !contains_seq(
                    normalize_key_spec(#[trigger] item.category_labels@[x].name@),
                    search@,
                ),
        decreases item.category_labels@.len() - k,
    {
        let key = normalize_key(item.category_labels[k].name.as_str());
        if contains_str(key.as_str(), search) {
            return true;
        }
        k = k + 1;
    }
    false
}

pub fn matches_filter(
    entry: &ModLibrarySnapshotItem,
    summary: &Option<InstallManifestStatusSummary>,
    filter: &ModLibraryFilter,
) -> (r: bool)
    ensures
        r == matches_filter_spec(*entry, *summary, *filter),
{
    match filter {
        ModLibraryFilter::All => true,
        ModLibraryFilter::Status(status) => match summary {
            Some(s) => s.status == *status,
            None => false,
        },
        ModLibraryFilter::Category(category_id) => {
            let mut k: usize = 0;
            while k < entry.user_category_ids.len()
                invariant
                    *filter == ModLibraryFilter::Category(*category_id),
                    0 <= k <= entry.user_category_ids@.len(),
                    forall|x: int| 0 <= x < k ==> #[trigger] entry.user_category_ids@[x]@ != category_id@,
                decreases entry.user_category_ids@.len() - k,
            {
                if str_equal(entry.user_category_ids[k].as_str(), category_id.as_str()) {
                    proof {
                        assert(entry.user_category_ids@[k as int]@ == category_id@);
                    }
                    return true;
                }
                k = k + 1;
            }
            false
        },
    }
}

/// Number of pages needed for `total` entries.
pub open spec fn page_count(total: nat, page_size: nat) -> nat {
    if page_size == 0 {
        0
    } else {
        ((total + page_size - 1) / page_size as int) as nat
    }
}

/// The page actually shown: 1 for an empty result, else the requested page clamped to the last.
pub open spec fn clamped_page_spec(requested: u64, page_size: u32, total: usize) -> u64 {
    if total == 0 {
        1
    } else if requested <= page_count(total as nat, page_size as nat) {
        requested
    } else {
        page_count(total as nat, page_size as nat) as u64
    }
}

pub fn clamped_page(requested_page: u64, page_size: u32, matching_total: usize) -> (r: u64)
    requires
        page_size > 0,
    ensures
        r == clamped_page_spec(requested_page, page_size, matching_total),
{
    if matching_total == 0 {
        return 1;
    }
    let ps = page_size as u128;
    let total = matching_total as u128;
    let pages = (total + ps - 1) / ps;
    proof {
        assert(pages <= total) by (nonlinear_arith)
            requires
                pages as int == (total as int + ps as int - 1) / (ps as int),
                ps >= 1,
                total >= 1,
        ;
    }
    if (requested_page as u128) <= pages {
        requested_page
    } else {
        pages as u64
    }
}

/// Index of the first entry of `page`.
pub open spec fn page_start_spec(page: u64, page_size: u32, total: usize) -> int {
    if total == 0 {
        0
    } else {
        (page - 1) * page_size
    }
}

pub fn page_start(page: u64, page_size: u32, matching_total: usize) -> (r: usize)
    requires
        page >= 1,
        (page - 1) * page_size <= usize::MAX,
    ensures
        r == page_start_spec(page, page_size, matching_total),
{
    if matching_total == 0 {
        return 0;
    }
    let start = ((page - 1) as u128) * (page_size as u128);
    start as usize
}

/// Install summaries lined up with a snapshot: none without a profile, one per entry with one.
pub open spec fn statuses_aligned(
    snapshot: Seq<ModLibrarySnapshotItem>,
    statuses: Seq<Option<InstallManifestStatusSummary>>,
) -> bool {
    statuses.len() == snapshot.len()
}

/// Indices of the snapshot entries among the first `k` that pass search and filter.
pub open spec fn matching_upto(
    snapshot: Seq<ModLibrarySnapshotItem>,
    statuses: Seq<Option<InstallManifestStatusSummary>>,
    search: Seq<char>,
    filter: ModLibraryFilter,
    k: int,
) -> Seq<usize>
    decreases k,
{
    if k <= 0 {
        Seq::empty()
    } else {
        let prev = matching_upto(snapshot, statuses, search, filter, k - 1);
        if matches_search_spec(snapshot[k - 1].item, search) && matches_filter_spec(
            snapshot[k - 1],
            statuses[k - 1],
            filter,
        ) {
            prev.push((k - 1) as usize)
        } else {
            prev
        }
    }
}

/// Sort keys (normalized names) of a snapshot.
pub open spec fn name_keys(snapshot: Seq<ModLibrarySnapshotItem>) -> Seq<Seq<char>> {
    snapshot.map_values(|e: ModLibrarySnapshotItem| normalize_key_spec(e.item.name@))
}

/// Mod ids of a snapshot.
pub open spec fn entry_ids(snapshot: Seq<ModLibrarySnapshotItem>) -> Seq<Seq<char>> {
    snapshot.map_values(|e: ModLibrarySnapshotItem| e.item.id@)
}

/// The matching entries of the snapshot, in name order.
pub open spec fn ordered_matches(
    snapshot: Seq<ModLibrarySnapshotItem>,
    statuses: Seq<Option<InstallManifestStatusSummary>>,
    query: ModLibraryQuery,
) -> Seq<usize> {
    name_order(
        name_keys(snapshot),
        entry_ids(snapshot),
        matching_upto(
            snapshot,
            statuses,
            normalize_key_spec(query.search@),
            query.filter,
            snapshot.len() as int,
        ),
    )
}

proof fn lemma_matching_bounds(
    snapshot: Seq<ModLibrarySnapshotItem>,
    statuses: Seq<Option<InstallManifestStatusSummary>>,
    search: Seq<char>,
    filter: ModLibraryFilter,
    k: int,
)
    requires
        0 <= k,
    ensures
        matching_upto(snapshot, statuses, search, filter, k).len() <= k,
        forall|x: int|
            0 <= x < matching_upto(snapshot, statuses, search, filter, k).len() ==> #[trigger] matching_upto(
                snapshot,
                statuses,
                search,
                filter,
                k,
            )[x] < k,
    decreases k,
{
    if k > 0 {
        lemma_matching_bounds(snapshot, statuses, search, filter, k - 1);
    }
}

pub(crate) proof fn lemma_name_order_len(keys: Seq<Seq<char>>, ids: Seq<Seq<char>>, rem: Seq<usize>)
    ensures
        name_order(keys, ids, rem).len() == rem.len(),
        forall|x: int| 0 <= x < name_order(keys, ids, rem).len() ==> rem.contains(#[trigger] name_order(keys, ids, rem)[x]),
    decreases rem.len(),
{
    if rem.len() > 0 {
        lemma_argmin_bounds(keys, ids, rem, 1, 0);
        let m = argmin_from(keys, ids, rem, 1, 0);
        lemma_name_order_len(keys, ids, rem.remove(m));
        let rest = name_order(keys, ids, rem.remove(m));
        assert forall|x: int| 0 <= x < name_order(keys, ids, rem).len() implies rem.contains(#[trigger] name_order(keys, ids, rem)[x]) by {
            if x == 0 {
                assert(name_order(keys, ids, rem)[0] == rem[m]);
            } else {
                assert(name_order(keys, ids, rem)[x] == rest[x - 1]);
                assert(rem.remove(m).contains(rest[x - 1]));
                let y = choose|y: int| 0 <= y < rem.remove(m).len() && rem.remove(m)[y] == rest[x - 1];
                if y < m {
                    assert(rem[y] == rest[x - 1]);
                } else {
                    assert(rem[y + 1] == rest[x - 1]);
                }
            }
        }
    }
}

/// `order` lists entries in name order.
pub open spec fn sorted_by_name(keys: Seq<Seq<char>>, ids: Seq<Seq<char>>, order: Seq<usize>) -> bool {
    forall|i: int, j: int|
        0 <= i < j < order.len() ==> entry_before(
            keys[#[trigger] order[i] as int],
            ids[order[i] as int],
            keys[#[trigger] order[j] as int],
            ids[order[j] as int],
        )
}

/// The entries listed in `rem` have pairwise different ids.
pub open spec fn distinct_ids_at(ids: Seq<Seq<char>>, rem: Seq<usize>) -> bool {
    forall|x: int, y: int|
        0 <= x < y < rem.len() ==> ids[#[trigger] rem[x] as int] != ids[#[trigger] rem[y] as int]
}

/// The position `argmin_from` settles on holds an entry no other entry comes before.
pub(crate) proof fn lemma_argmin_minimal(keys: Seq<Seq<char>>, ids: Seq<Seq<char>>, rem: Seq<usize>, k: int, best: int)
    requires
        0 <= best < rem.len(),
        best < k,
        forall|x: int|
            0 <= x < k && x < rem.len() ==> !entry_before(
                keys[#[trigger] rem[x] as int],
                ids[rem[x] as int],
                keys[rem[best] as int],
                ids[rem[best] as int],
            ),
    ensures
        forall|x: int|
            0 <= x < rem.len() ==> !entry_before(
                keys[#[trigger] rem[x] as int],
                ids[rem[x] as int],
                keys[rem[argmin_from(keys, ids, rem, k, best)] as int],
                ids[rem[argmin_from(keys, ids, rem, k, best)] as int],
            ),
    decreases rem.len() - k,
{
    if k < rem.len() {
        let kk = keys[rem[k] as int];
        let ik = ids[rem[k] as int];
        let kb = keys[rem[best] as int];
        let ib = ids[rem[best] as int];
        if entry_before(kk, ik, kb, ib) {
            assert forall|x: int| 0 <= x < k + 1 && x < rem.len() implies !entry_before(
                keys[#[trigger] rem[x] as int],
                ids[rem[x] as int],
                kk,
                ik,
            ) by {
                if x == k {
                    lemma_lex_irreflexive(kk);
                    lemma_lex_irreflexive(ik);
                } else if entry_before(keys[rem[x] as int], ids[rem[x] as int], kk, ik) {
                    lemma_entry_before_transitive(keys[rem[x] as int], ids[rem[x] as int], kk, ik, kb, ib);
                }
            }
            lemma_argmin_minimal(keys, ids, rem, k + 1, k);
        } else {
            lemma_argmin_minimal(keys, ids, rem, k + 1, best);
        }
    }
}

/// Of two entries with different ids, exactly one comes first.
proof fn lemma_entry_before_total(k1: Seq<char>, id1: Seq<char>, k2: Seq<char>, id2: Seq<char>)
    requires
        id1 != id2,
    ensures
        entry_before(k1, id1, k2, id2) || entry_before(k2, id2, k1, id1),
{
    lemma_lex_total(k1, k2);
    lemma_lex_total(id1, id2);
}

/// Name order lists its entries in name order, each taken from `rem`.
pub proof fn lemma_name_order_sorted(keys: Seq<Seq<char>>, ids: Seq<Seq<char>>, rem: Seq<usize>)
    requires
        distinct_ids_at(ids, rem),
    ensures
        sorted_by_name(keys, ids, name_order(keys, ids, rem)),
    decreases rem.len(),
{
    if rem.len() > 0 {
        lemma_argmin_bounds(keys, ids, rem, 1, 0);
        let m = argmin_from(keys, ids, rem, 1, 0);
        lemma_lex_irreflexive(keys[rem[0] as int]);
        lemma_lex_irreflexive(ids[rem[0] as int]);
        lemma_argmin_minimal(keys, ids, rem, 1, 0);
        let rest_rem = rem.remove(m);
        assert(distinct_ids_at(ids, rest_rem)) by {
            assert forall|x: int, y: int| 0 <= x < y < rest_rem.len() implies ids[#[trigger] rest_rem[x] as int]
                != ids[#[trigger] rest_rem[y] as int] by {
                let xx = if x < m { x } else { x + 1 };
                let yy = if y < m { y } else { y + 1 };
                assert(rest_rem[x] == rem[xx] && rest_rem[y] == rem[yy]);
            }
        }
        lemma_name_order_sorted(keys, ids, rest_rem);
        lemma_name_order_len(keys, ids, rest_rem);
        let rest = name_order(keys, ids, rest_rem);
        let order = name_order(keys, ids, rem);
        assert(order == seq![rem[m]] + rest);
        assert forall|i: int, j: int| 0 <= i < j < order.len() implies entry_before(
            keys[#[trigger] order[i] as int],
            ids[order[i] as int],
            keys[#[trigger] order[j] as int],
            ids[order[j] as int],
        ) by {
            if i == 0 {
                assert(order[j] == rest[j - 1]);
                assert(rest_rem.contains(rest[j - 1]));
                let y = choose|y: int| 0 <= y < rest_rem.len() && rest_rem[y] == rest[j - 1];
                let yy = if y < m { y } else { y + 1 };
                assert(rem[yy] == rest[j - 1]);
                assert(!entry_before(keys[rem[yy] as int], ids[rem[yy] as int], keys[rem[m] as int], ids[rem[m] as int]));
                if yy < m {
                    assert(ids[rem[yy] as int] != ids[rem[m] as int]);
                } else {
                    assert(ids[rem[m] as int] != ids[rem[yy] as int]);
                }
                lemma_entry_before_total(keys[rem[m] as int], ids[rem[m] as int], keys[rem[yy] as int], ids[rem[yy] as int]);
            } else {
                assert(order[i] == rest[i - 1] && order[j] == rest[j - 1]);
            }
        }
    }
}

/// The matching positions rise strictly, and each holds an entry that matches.
proof fn lemma_matching_sound(
    snapshot: Seq<ModLibrarySnapshotItem>,
    statuses: Seq<Option<InstallManifestStatusSummary>>,
    search: Seq<char>,
    filter: ModLibraryFilter,
    k: int,
)
    requires
        0 <= k <= usize::MAX,
    ensures
        forall|a: int, b: int|
            0 <= a < b < matching_upto(snapshot, statuses, search, filter, k).len() ==> #[trigger] matching_upto(
                snapshot,
                statuses,
                search,
                filter,
                k,
            )[a] < #[trigger] matching_upto(snapshot, statuses, search, filter, k)[b],
        forall|a: int|
            0 <= a < matching_upto(snapshot, statuses, search, filter, k).len() ==> {
                let x = #[trigger] matching_upto(snapshot, statuses, search, filter, k)[a] as int;
                &&& matches_search_spec(snapshot[x].item, search)
                &&& matches_filter_spec(snapshot[x], statuses[x], filter)
            },
    decreases k,
{
    if k > 0 {
        lemma_matching_sound(snapshot, statuses, search, filter, k - 1);
        lemma_matching_bounds(snapshot, statuses, search, filter, k - 1);
        let prev = matching_upto(snapshot, statuses, search, filter, k - 1);
        let cur = matching_upto(snapshot, statuses, search, filter, k);
        if matches_search_spec(snapshot[k - 1].item, search) && matches_filter_spec(
            snapshot[k - 1],
            statuses[k - 1],
            filter,
        ) {
            assert(cur == prev.push((k - 1) as usize));
            assert forall|a: int, b: int| 0 <= a < b < cur.len() implies #[trigger] cur[a] < #[trigger] cur[b] by {
                if b == prev.len() {
                    assert(cur[a] == prev[a]);
                    assert(prev[a] < k - 1);
                    assert(cur[b] == (k - 1) as usize);
                } else {
                    assert(cur[a] == prev[a] && cur[b] == prev[b]);
                    assert(prev[a] < prev[b]);
                }
            }
            assert forall|a: int| 0 <= a < cur.len() implies {
                let x = #[trigger] cur[a] as int;
                &&& matches_search_spec(snapshot[x].item, search)
                &&& matches_filter_spec(snapshot[x], statuses[x], filter)
            } by {
                if a < prev.len() {
                    assert(cur[a] == prev[a]);
                    let x = prev[a] as int;
                    assert(matches_search_spec(snapshot[x].item, search));
                } else {
                    assert(cur[a] == (k - 1) as usize);
                }
            }
        } else {
            assert(cur == prev);
        }
    }
}

/// A page of a query holds, in name order, entries that match the query: each matches the
/// search, and with a status filter each carries that status. Needs distinct Mod ids, which the
/// query itself enforces before answering.
pub proof fn lemma_query_page_in_name_order(
    query: ModLibraryQuery,
    snapshot: Seq<ModLibrarySnapshotItem>,
    statuses: Seq<Option<InstallManifestStatusSummary>>,
    page: ModLibraryPage,
)
    requires
        validate_query_spec(query) is Ok,
        page_of(query, snapshot, statuses, page),
        distinct_ids(entry_ids(snapshot)),
        statuses.len() == snapshot.len(),
    ensures
        forall|t: int, u: int|
            0 <= t < u < page.items@.len() ==> entry_before(
                normalize_key_spec((#[trigger] page.items@[t]).item.name@),
                page.items@[t].item.id@,
                normalize_key_spec((#[trigger] page.items@[u]).item.name@),
                page.items@[u].item.id@,
            ),
        forall|t: int|
            0 <= t < page.items@.len() ==> matches_search_spec(
                (#[trigger] page.items@[t]).item,
                normalize_key_spec(query.search@),
            ),
        forall|t: int|
            0 <= t < page.items@.len() ==> (query.filter matches ModLibraryFilter::Status(s)
                ==> (#[trigger] page.items@[t]).install_summary matches Some(x) && x.status == s),
{
    let search = normalize_key_spec(query.search@);
    let n = snapshot.len() as int;
    let matching = matching_upto(snapshot, statuses, search, query.filter, n);
    let keys = name_keys(snapshot);
    let ids = entry_ids(snapshot);
    lemma_matching_sound(snapshot, statuses, search, query.filter, n);
    lemma_matching_bounds(snapshot, statuses, search, query.filter, n);
    assert(distinct_ids_at(ids, matching)) by {
        assert forall|x: int, y: int| 0 <= x < y < matching.len() implies ids[#[trigger] matching[x] as int]
            != ids[#[trigger] matching[y] as int] by {
            assert(matching[x] < matching[y]);
            assert(matching[y] < n);
            let i = matching[x] as int;
            let j = matching[y] as int;
            assert(ids[i] != ids[j]);
        }
    }
    lemma_name_order_sorted(keys, ids, matching);
    lemma_name_order_len(keys, ids, matching);
    let order = ordered_matches(snapshot, statuses, query);
    assert(order == name_order(keys, ids, matching));
    let start = page_start_spec(page.page, query.page_size, page.matching_total);
    assert forall|t: int| 0 <= t < page.items@.len() implies {
        &&& 0 <= start + t < order.len()
        &&& #[trigger] matching.contains(order[start + t])
        &&& 0 <= order[start + t] < n
    } by {
        assert(page.page >= 1);
        assert(start >= 0);
        assert(start + t < order.len());
        assert(matching.contains(order[start + t]));
        let y = choose|y: int| 0 <= y < matching.len() && matching[y] == order[start + t];
        assert(matching[y] < n);
    }
    assert forall|t: int, u: int| 0 <= t < u < page.items@.len() implies entry_before(
        normalize_key_spec((#[trigger] page.items@[t]).item.name@),
        page.items@[t].item.id@,
        normalize_key_spec((#[trigger] page.items@[u]).item.name@),
        page.items@[u].item.id@,
    ) by {
        let a = start + t;
        let b = start + u;
        assert(matching.contains(order[a]) && matching.contains(order[b]));
        assert(entry_before(keys[order[a] as int], ids[order[a] as int], keys[order[b] as int], ids[order[b] as int]));
        assert(same_item(page.items@[t].item, snapshot[order[a] as int].item));
        assert(same_item(page.items@[u].item, snapshot[order[b] as int].item));
    }
    assert forall|t: int| 0 <= t < page.items@.len() implies matches_search_spec(
        (#[trigger] page.items@[t]).item,
        search,
    ) by {
        let idx = order[start + t];
        assert(matching.contains(idx));
        let y = choose|y: int| 0 <= y < matching.len() && matching[y] == idx;
        assert(matches_search_spec(snapshot[idx as int].item, search));
        assert(same_item(page.items@[t].item, snapshot[idx as int].item));
    }
    assert forall|t: int| 0 <= t < page.items@.len() implies (query.filter matches ModLibraryFilter::Status(s)
        ==> (#[trigger] page.items@[t]).install_summary matches Some(x) && x.status == s) by {
        let idx = order[start + t];
        assert(matching.contains(idx));
        let y = choose|y: int| 0 <= y < matching.len() && matching[y] == idx;
        assert(matches_filter_spec(snapshot[idx as int], statuses[idx as int], query.filter));
        assert(page.items@[t].install_summary == statuses[idx as int]);
    }
}

/// `page` is the page `query` asks for over `snapshot`, whose entries have the install summaries
/// `statuses`: the totals, the clamped page number, and the entries of that page in name order.
pub open spec fn page_of(
    query: ModLibraryQuery,
    snapshot: Seq<ModLibrarySnapshotItem>,
    statuses: Seq<Option<InstallManifestStatusSummary>>,
    page: ModLibraryPage,
) -> bool {
    let order = ordered_matches(snapshot, statuses, query);
    let start = page_start_spec(page.page, query.page_size, page.matching_total);
    &&& page.library_total == snapshot.len()
    &&& page.matching_total == order.len()
    &&& page.page_size == query.page_size
    &&& page.page == clamped_page_spec(query.page, query.page_size, page.matching_total)
    &&& page.items@.len() == (if order.len() - start < query.page_size {
        order.len() - start
    } else {
        query.page_size as int
    })
    &&& forall|t: int|
        0 <= t < page.items@.len() ==> {
            let idx = order[start + t] as int;
            &&& same_item(#[trigger] page.items@[t].item, snapshot[idx].item)
            &&& page.items@[t].install_summary == statuses[idx]
        }
}

/// Builds the requested page of a library snapshot. `statuses[i]` is the install summary of
/// `snapshot[i]` (all `None` without a profile context).
pub fn build_page(
    query: &ModLibraryQuery,
    snapshot: &Vec<ModLibrarySnapshotItem>,
    statuses: &Vec<Option<InstallManifestStatusSummary>>,
) -> (r: ModLibraryPage)
    requires
        validate_query_spec(*query) is Ok,
        statuses_aligned(snapshot@, statuses@),
    ensures
        page_of(*query, snapshot@, statuses@, r),
{
    let n = snapshot.len();
    let search = normalize_key(query.search.as_str());
    let mut keys: Vec<Vec<char>> = Vec::new();
    let mut ids: Vec<Vec<char>> = Vec::new();
    let mut candidates: Vec<usize> = Vec::new();
    let mut i: usize = 0;
    while i < n
        invariant
            n == snapshot@.len(),
            statuses@.len() == n,
            search@ == normalize_key_spec(query.search@),
            0 <= i <= n,
            keys@.len() == i,
            ids@.len() == i,
            forall|x: int| 0 <= x < i ==> #[trigger] keys@[x]@ == normalize_key_spec(snapshot@[x].item.name@),
            forall|x: int| 0 <= x < i ==> #[trigger] ids@[x]@ == snapshot@[x].item.id@,
            candidates@ == matching_upto(snapshot@, statuses@, search@, query.filter, i as int),
        decreases n - i,
    {
        let entry = &snapshot[i];
        let key = normalize_key(entry.item.name.as_str());
        let hit = matches_search(&entry.item, key.as_str(), search.as_str()) && matches_filter(
            entry,
            &statuses[i],
            &query.filter,
        );
        if hit {
            candidates.push(i);
        }
        keys.push(chars_of(key.as_str()));
        ids.push(chars_of(entry.item.id.as_str()));
        i = i + 1;
    }
    proof {
        lemma_matching_bounds(snapshot@, statuses@, search@, query.filter, n as int);
        assert(keys@.map_values(|v: Vec<char>| v@) =~= name_keys(snapshot@));
        assert(ids@.map_values(|v: Vec<char>| v@) =~= entry_ids(snapshot@));
    }
    let order = sort_by_name(&keys, &ids, candidates);
    let ghost spec_order = ordered_matches(snapshot@, statuses@, *query);
    proof {
        assert(order@ == spec_order);
        let m = matching_upto(snapshot@, statuses@, search@, query.filter, n as int);
        lemma_name_order_len(name_keys(snapshot@), entry_ids(snapshot@), m);
        assert forall|x: int| 0 <= x < order@.len() implies #[trigger] order@[x] < n by {
            assert(m.contains(order@[x]));
        }
    }
    let matching_total = order.len();
    let page = clamped_page(query.page, query.page_size, matching_total);
    proof {
        if matching_total > 0 {
            let ps = query.page_size as int;
            let total = matching_total as int;
            let pages = page_count(total as nat, ps as nat) as int;
            assert((pages - 1) * ps < total) by (nonlinear_arith)
                requires
                    pages == (total + ps - 1) / ps,
                    ps >= 1,
                    total >= 1,
            ;
            assert(pages >= 1) by (nonlinear_arith)
                requires
                    pages == (total + ps - 1) / ps,
                    ps >= 1,
                    total >= 1,
            ;
            assert(1 <= page <= pages);
            assert((page - 1) * ps <= (pages - 1) * ps) by (nonlinear_arith)
                requires
                    1 <= page <= pages,
                    ps >= 1,
            ;
        }
    }
    let start = page_start(page, query.page_size, matching_total);
    let mut items: Vec<ModLibraryPageItem> = Vec::new();
    let ps = query.page_size as usize;
    let mut t: usize = 0;
    let count: usize = if matching_total - start < ps {
        matching_total - start
    } else {
        ps
    };
    while t < count
        invariant
            n == snapshot@.len(),
            statuses@.len() == n,
            order@ == spec_order,
            matching_total == order@.len(),
            start + count <= matching_total,
            start == page_start_spec(page, query.page_size, matching_total),
            forall|x: int| 0 <= x < order@.len() ==> #[trigger] order@[x] < n,
            0 <= t <= count,
            items@.len() == t,
            forall|x: int|
                0 <= x < t ==> {
                    let idx = spec_order[start + x] as int;
                    &&& same_item(#[trigger] items@[x].item, snapshot@[idx].item)
                    &&& items@[x].install_summary == statuses@[idx]
                },
        decreases count - t,
    {
        let idx = order[start + t];
        proof {
            assert(order@[start + t] < n);
        }
        let item = snapshot[idx].item.duplicate();
        let summary = match &statuses[idx] {
            Some(s) => Some(s.duplicate()),
            None => None,
        };
        items.push(ModLibraryPageItem { item, install_summary: summary });
        t = t + 1;
    }
    ModLibraryPage { items, page, page_size: query.page_size, library_total: n, matching_total }
}


/// The summary `summaries` gives for the Mod `id`.
pub open spec fn answer_for(
    summaries: Seq<InstallManifestStatusSummary>,
    id: Seq<char>,
) -> InstallManifestStatusSummary {
    summaries[choose|k: int| 0 <= k < summaries.len() && #[trigger] summaries[k].mod_id@ == id]
}

/// The status provider's answer lined up with the snapshot.
pub open spec fn aligned_answer(
    snapshot: Seq<ModLibrarySnapshotItem>,
    summaries: Seq<InstallManifestStatusSummary>,
) -> Seq<Option<InstallManifestStatusSummary>> {
    Seq::new(snapshot.len(), |i: int| Some(answer_for(summaries, snapshot[i].item.id@)))
}

/// No install summaries for any of `n` entries.
pub open spec fn no_statuses(n: nat) -> Seq<Option<InstallManifestStatusSummary>> {
    Seq::new(n, |i: int| None)
}

/// Whether the query needs install summaries: only with a profile and a non-empty library.
pub open spec fn needs_statuses(query: ModLibraryQuery, snapshot: Seq<ModLibrarySnapshotItem>) -> bool {
    query.profile_context is Some && snapshot.len() > 0
}

/// The refusal owed before install summaries are read, if any.
pub open spec fn pre_status_refusal(
    query: ModLibraryQuery,
    snapshot: Seq<ModLibrarySnapshotItem>,
    category_known: bool,
) -> Option<ModLibraryQueryError> {
    if validate_query_spec(query) is Err {
        Some(validate_query_spec(query)->Err_0)
    } else if query.filter is Category && !category_known {
        Some(ModLibraryQueryError::CategoryNotFound)
    } else if !distinct_ids(entry_ids(snapshot)) {
        Some(ModLibraryQueryError::LibraryUnavailable)
    } else {
        None
    }
}

proof fn lemma_answer_for(summaries: Seq<InstallManifestStatusSummary>, k: int)
    requires
        0 <= k < summaries.len(),
        forall|a: int, b: int|
            0 <= a < summaries.len() && 0 <= b < summaries.len() && a != b
                ==> #[trigger] summaries[a].mod_id@ != #[trigger] summaries[b].mod_id@,
    ensures
        answer_for(summaries, summaries[k].mod_id@) == summaries[k],
{
    let id = summaries[k].mod_id@;
    assert(summaries[k].mod_id@ == id);
    let c = choose|x: int| 0 <= x < summaries.len() && #[trigger] summaries[x].mod_id@ == id;
    if c != k {
        assert(summaries[c].mod_id@ != summaries[k].mod_id@);
    }
}

/// Answers a library query from a snapshot of the library. `category_known` says whether the
/// filtered category exists (consulted only for a category filter); `status_answer` is what the
/// status provider answered for the snapshot's Mod ids in the query's profile (consulted only
/// when the query has a profile and the library is not empty).
pub fn query_snapshot(
    query: &ModLibraryQuery,
    snapshot: &Vec<ModLibrarySnapshotItem>,
    category_known: bool,
    status_answer: &Result<Vec<InstallManifestStatusSummary>, ModLibraryStatusProviderError>,
) -> (r: Result<ModLibraryPage, ModLibraryQueryError>)
    ensures
        pre_status_refusal(*query, snapshot@, category_known) matches Some(e) ==> r == Err::<
            ModLibraryPage,
            _,
        >(e),
        pre_status_refusal(*query, snapshot@, category_known) is None ==> {
            if !needs_statuses(*query, snapshot@) {
                r matches Ok(p) && page_of(*query, snapshot@, no_statuses(snapshot@.len()), p)
            } else if status_answer matches Ok(summaries) && status_answer_valid(
                query.profile_context->0.profile_id@,
                entry_ids(snapshot@),
                summaries@,
            ) {
                r matches Ok(p) && page_of(
                    *query,
                    snapshot@,
                    aligned_answer(snapshot@, status_answer->Ok_0@),
                    p,
                )
            } else {
                r == Err::<ModLibraryPage, _>(ModLibraryQueryError::StatusUnavailable)
            }
        },
{
    match validate_query(query) {
        Err(e) => {
            return Err(e);
        },
        Ok(()) => {},
    }
    match &query.filter {
        ModLibraryFilter::Category(_) => {
            if !category_known {
                return Err(ModLibraryQueryError::CategoryNotFound);
            }
        },
        _ => {},
    }
    let n = snapshot.len();
    let mut mod_ids: Vec<ModId> = Vec::new();
    let mut i: usize = 0;
    while i < n
        invariant
            n == snapshot@.len(),
            0 <= i <= n,
            mod_ids@.len() == i,
            forall|x: int| 0 <= x < i ==> #[trigger] mod_ids@[x]@ == snapshot@[x].item.id@,
        decreases n - i,
    {
        mod_ids.push(ModId::new(snapshot[i].item.id.as_str()));
        i = i + 1;
    }
    proof {
        assert(mod_id_views(mod_ids@) =~= entry_ids(snapshot@));
    }
    match ensure_unique_mod_ids(mod_ids.as_slice()) {
        Err(e) => {
            return Err(e);
        },
        Ok(()) => {},
    }
    let mut statuses: Vec<Option<InstallManifestStatusSummary>> = Vec::new();
    match &query.profile_context {
        Some(context) if n > 0 => {
            let summaries = match status_answer {
                Err(_) => {
                    return Err(ModLibraryQueryError::StatusUnavailable);
                },
                Ok(summaries) => summaries,
            };
            let aligned = match validated_statuses(context, mod_ids.as_slice(), summaries) {
                Err(e) => {
                    return Err(e);
                },
                Ok(v) => v,
            };
            proof {
                assert(aligned@.len() == n);
                assert(forall|x: int| 0 <= x < n ==> #[trigger] aligned@[x].mod_id@ == mod_ids@[x]@);
                assert(forall|x: int| 0 <= x < n ==> #[trigger] aligned@[x].mod_id@ == mod_ids@[x]@ && summary_from(summaries@, aligned@[x]));
            }
            let mut k: usize = 0;
            while k < n
                invariant
                    n == snapshot@.len(),
                    aligned@.len() == n,
                    mod_ids@.len() == n,
                    status_answer_valid(context.profile_id@, entry_ids(snapshot@), summaries@),
                    forall|x: int|
                        0 <= x < n ==> #[trigger] aligned@[x].mod_id@ == mod_ids@[x]@
                            && summary_from(summaries@, aligned@[x]),
                    forall|x: int| 0 <= x < n ==> #[trigger] mod_ids@[x]@ == snapshot@[x].item.id@,
                    0 <= k <= n,
                    statuses@.len() == k,
                    forall|x: int|
                        0 <= x < k ==> #[trigger] statuses@[x] == Some(
                            answer_for(summaries@, snapshot@[x].item.id@),
                        ),
                decreases n - k,
            {
                let s = aligned[k].duplicate();
                proof {
                    assert(aligned@[k as int].mod_id@ == mod_ids@[k as int]@);
                    assert(summary_from(summaries@, aligned@[k as int]));
                    let j = choose|j: int| 0 <= j < summaries@.len() && aligned@[k as int] == #[trigger] summaries@[j];
                    lemma_answer_for(summaries@, j);
                    assert(summaries@[j].mod_id@ == snapshot@[k as int].item.id@);
                }
                statuses.push(Some(s));
                k = k + 1;
            }
            proof {
                assert(statuses@ =~= aligned_answer(snapshot@, summaries@));
            }
        },
        _ => {
            let mut k: usize = 0;
            while k < n
                invariant
                    0 <= k <= n,
                    statuses@.len() == k,
                    forall|x: int| 0 <= x < k ==> #[trigger] statuses@[x] is None,
                decreases n - k,
            {
                statuses.push(None);
                k = k + 1;
            }
            proof {
                assert(statuses@ =~= no_statuses(n as nat));
            }
        },
    }
    Ok(build_page(query, snapshot, &statuses))
}

/// Where install summaries come from.
pub trait ModLibraryStatusProvider {
    fn query_statuses(
        &self,
        context: &ModLibraryProfileContext,
        mod_ids: &[ModId],
    ) -> Result<Vec<InstallManifestStatusSummary>, ModLibraryStatusProviderError>;
}

/// Where the library snapshot comes from.
pub trait ModLibrarySource {
    fn get_mod_library_snapshot(&self) -> Result<Vec<ModLibrarySnapshotItem>, ()>;

    fn category_exists(&self, category_id: &str) -> Result<bool, ()>;
}

pub struct ModLibraryQueryService<L: ModLibrarySource, P: ModLibraryStatusProvider> {
    library: L,
    status_provider: P,
}

impl<L: ModLibrarySource, P: ModLibraryStatusProvider> ModLibraryQueryService<L, P> {
    pub closed spec fn library_spec(&self) -> L {
        self.library
    }

    pub closed spec fn status_provider_spec(&self) -> P {
        self.status_provider
    }

    pub fn new(library: L, status_provider: P) -> (r: Self)
        ensures
            r.library_spec() == library,
            r.status_provider_spec() == status_provider,
    {
        ModLibraryQueryService { library, status_provider }
    }

    /// Validates the query, reads the snapshot, checks the category, asks for install summaries
    /// only when the query has a profile and the library is not empty, and answers with
    /// [`query_snapshot`] over what came back. A failed read answers `LibraryUnavailable`, a
    /// failed status read `StatusUnavailable`.
    pub fn query(&self, query: ModLibraryQuery) -> (r: Result<ModLibraryPage, ModLibraryQueryError>)
        ensures
            validate_query_spec(query) is Err ==> r == Err::<ModLibraryPage, _>(
                validate_query_spec(query)->Err_0,
            ),
            r matches Ok(p) ==> p.page_size == query.page_size && p.page >= 1 && p.items@.len()
                <= query.page_size,
            r matches Ok(p) ==> exists|
                snapshot: Seq<ModLibrarySnapshotItem>,
                statuses: Seq<Option<InstallManifestStatusSummary>>,
            | #[trigger] page_of(query, snapshot, statuses, p),
    {
        match validate_query(&query) {
            Err(e) => {
                return Err(e);
            },
            Ok(()) => {},
        }
        let snapshot = match self.library.get_mod_library_snapshot() {
            Ok(s) => s,
            Err(_) => {
                return Err(ModLibraryQueryError::LibraryUnavailable);
            },
        };
        let category_known = match &query.filter {
            ModLibraryFilter::Category(category_id) => match self.library.category_exists(
                category_id.as_str(),
            ) {
                Ok(known) => known,
                Err(_) => {
                    return Err(ModLibraryQueryError::LibraryUnavailable);
                },
            },
            _ => true,
        };
        let status_answer = match &query.profile_context {
            Some(context) if snapshot.len() > 0 && category_known => {
                let mut mod_ids: Vec<ModId> = Vec::new();
                let mut i: usize = 0;
                while i < snapshot.len()
                    invariant
                        0 <= i <= snapshot@.len(),
                    decreases snapshot@.len() - i,
                {
                    mod_ids.push(ModId::new(snapshot[i].item.id.as_str()));
                    i = i + 1;
                }
                match ensure_unique_mod_ids(mod_ids.as_slice()) {
                    Err(e) => {
                        return Err(e);
                    },
                    Ok(()) => {},
                }
                self.status_provider.query_statuses(context, mod_ids.as_slice())
            },
            _ => Ok(Vec::new()),
        };
        let r = query_snapshot(&query, &snapshot, category_known, &status_answer);
        proof {
            if r is Ok {
                let p = r->Ok_0;
                let statuses = if needs_statuses(query, snapshot@) {
                    aligned_answer(snapshot@, status_answer->Ok_0@)
                } else {
                    no_statuses(snapshot@.len())
                };
                assert(page_of(query, snapshot@, statuses, p));
                let total = p.matching_total as int;
                let ps = query.page_size as int;
                if total > 0 {
                    let pages = page_count(total as nat, ps as nat) as int;
                    assert(pages >= 1) by (nonlinear_arith)
                        requires
                            pages == (total + ps - 1) / ps,
                            ps >= 1,
                            total >= 1,
                    ;
                }
            }
        }
        r
    }
}

} // verus!
