//! Library statistics filled in after the fact: the content size of displayed revisions that
//! were imported before sizes were recorded.
use crate::metadata::PortFailure;
use vstd::prelude::*;

verus! {

/// Largest batch of size updates written to the catalog at once.
pub const MOD_IMPORT_UPSERT_MAX_ENTRIES: usize = 500;

/// A logical mod of the import catalog and the revision it displays.
#[derive(Debug, Clone, PartialEq, Eq)]
pub struct StoredLogicalMod {
    pub mod_id: String,
    pub display_revision_id: String,
}

/// A revision of the import catalog with its recorded content size, if any.
#[derive(Debug, Clone, PartialEq, Eq)]
pub struct StoredModRevision {
    pub revision_id: String,
    pub mod_id: String,
    pub package_id: String,
    pub content_size_bytes: Option<u64>,
}

/// What the import catalog holds when statistics are refreshed.
#[derive(Debug, Clone, PartialEq, Eq)]
pub struct ModImportCatalogSnapshot {
    pub logical_mods: Vec<StoredLogicalMod>,
    pub revisions: Vec<StoredModRevision>,
}

/// A size measured for a revision that had none.
#[derive(Debug, Clone, PartialEq, Eq)]
pub struct ModRevisionSizeUpdate {
    pub mod_id: String,
    pub revision_id: String,
    pub package_id: String,
    pub content_size_bytes: u64,
}

/// Index of the revision a lookup by id finds: of several with one id, the last one.
pub open spec fn last_revision_index(revisions: Seq<StoredModRevision>, revision_id: Seq<char>) -> Option<
    int,
>
    decreases revisions.len(),
{
    if revisions.len() == 0 {
        None
    } else if revisions.last().revision_id@ == revision_id {
        Some(revisions.len() - 1)
    } else {
        last_revision_index(revisions.drop_last(), revision_id)
    }
}

/// Index of the revision whose size a logical mod still lacks: its display revision, when that
/// revision exists, belongs to the same mod and has no recorded size.
pub open spec fn size_target(revisions: Seq<StoredModRevision>, logical_mod: StoredLogicalMod) -> Option<
    int,
> {
    match last_revision_index(revisions, logical_mod.display_revision_id@) {
        Some(k) => if revisions[k].mod_id@ == logical_mod.mod_id@ && revisions[k].content_size_bytes is None {
            Some(k)
        } else {
            None
        },
        None => None,
    }
}

/// The revisions to measure, one per logical mod that lacks a size, in catalog order.
pub open spec fn size_targets(revisions: Seq<StoredModRevision>, logical_mods: Seq<StoredLogicalMod>) -> Seq<
    int,
>
    decreases logical_mods.len(),
{
    if logical_mods.len() == 0 {
        Seq::empty()
    } else {
        let rest = size_targets(revisions, logical_mods.drop_last());
        match size_target(revisions, logical_mods.last()) {
            Some(k) => rest.push(k),
            None => rest,
        }
    }
}

proof fn lemma_last_revision_index_in_range(revisions: Seq<StoredModRevision>, revision_id: Seq<char>)
    ensures
        last_revision_index(revisions, revision_id) matches Some(k) ==> 0 <= k < revisions.len(),
    decreases revisions.len(),
{
    if revisions.len() > 0 {
        lemma_last_revision_index_in_range(revisions.drop_last(), revision_id);
    }
}

fn find_last_revision(revisions: &Vec<StoredModRevision>, revision_id: &str) -> (r: Option<usize>)
    ensures
        match r {
            Some(k) => last_revision_index(revisions@, revision_id@) == Some(k as int),
            None => last_revision_index(revisions@, revision_id@) is None,
        },
{
    let mut found: Option<usize> = None;
    let mut k: usize = 0;
    while k < revisions.len()
        invariant
            0 <= k <= revisions@.len(),
            match found {
                Some(j) => last_revision_index(revisions@.subrange(0, k as int), revision_id@) == Some(
                    j as int,
                ),
                None => last_revision_index(revisions@.subrange(0, k as int), revision_id@) is None,
            },
        decreases revisions@.len() - k,
    {
        proof {
            assert(revisions@.subrange(0, k + 1).drop_last() =~= revisions@.subrange(0, k as int));
            assert(revisions@.subrange(0, k + 1).last() == revisions@[k as int]);
        }
        if crate::text::str_equal(revisions[k].revision_id.as_str(), revision_id) {
            found = Some(k);
        }
        k = k + 1;
    }
    proof {
        assert(revisions@.subrange(0, revisions@.len() as int) =~= revisions@);
    }
    found
}

/// Indices of the revisions whose content size is still to be measured, in catalog order.
pub fn missing_size_targets(snapshot: &ModImportCatalogSnapshot) -> (r: Vec<usize>)
    ensures
        r@.len() == size_targets(snapshot.revisions@, snapshot.logical_mods@).len(),
        forall|j: int|
            0 <= j < r@.len() ==> #[trigger] r@[j] as int == size_targets(
                snapshot.revisions@,
                snapshot.logical_mods@,
            )[j],
        forall|j: int| 0 <= j < r@.len() ==> #[trigger] r@[j] < snapshot.revisions@.len(),
{
    let revisions = &snapshot.revisions;
    let mods = &snapshot.logical_mods;
    let mut targets: Vec<usize> = Vec::new();
    let mut i: usize = 0;
    while i < mods.len()
        invariant
            0 <= i <= mods@.len(),
            targets@.len() == size_targets(revisions@, mods@.subrange(0, i as int)).len(),
            forall|j: int|
                0 <= j < targets@.len() ==> #[trigger] targets@[j] as int == size_targets(
                    revisions@,
                    mods@.subrange(0, i as int),
                )[j],
            forall|j: int| 0 <= j < targets@.len() ==> #[trigger] targets@[j] < revisions@.len(),
        decreases mods@.len() - i,
    {
        let ghost before = size_targets(revisions@, mods@.subrange(0, i as int));
        proof {
            assert(mods@.subrange(0, i + 1).drop_last() =~= mods@.subrange(0, i as int));
            assert(mods@.subrange(0, i + 1).last() == mods@[i as int]);
            lemma_last_revision_index_in_range(revisions@, mods@[i as int].display_revision_id@);
        }
        let logical_mod = &mods[i];
        match find_last_revision(revisions, logical_mod.display_revision_id.as_str()) {
            Some(k) => {
                let revision = &revisions[k];
                if crate::text::str_equal(revision.mod_id.as_str(), logical_mod.mod_id.as_str())
                    && revision.content_size_bytes.is_none() {
                    targets.push(k);
                    proof {
                        assert(size_targets(revisions@, mods@.subrange(0, i + 1)) == before.push(
                            k as int,
                        ));
                    }
                }
            },
            None => {},
        }
        i = i + 1;
    }
    proof {
        assert(mods@.subrange(0, mods@.len() as int) =~= mods@);
    }
    targets
}

/// The size update recorded for a measured revision.
pub fn size_update(revision: &StoredModRevision, content_size_bytes: u64) -> (r: ModRevisionSizeUpdate)
    ensures
        r.mod_id@ == revision.mod_id@,
        r.revision_id@ == revision.revision_id@,
        r.package_id@ == revision.package_id@,
        r.content_size_bytes == content_size_bytes,
{
    ModRevisionSizeUpdate {
        mod_id: revision.mod_id.clone(),
        revision_id: revision.revision_id.clone(),
        package_id: revision.package_id.clone(),
        content_size_bytes,
    }
}

/// The import catalog as the statistics refresh reads and fills it.
pub trait ModImportResultRepository {
    fn catalog_snapshot(&self) -> Result<ModImportCatalogSnapshot, PortFailure>;

    /// Writes sizes for revisions that still have none; returns how many rows changed.
    fn fill_missing_content_sizes(&self, updates: &[ModRevisionSizeUpdate]) -> Result<usize, PortFailure>;
}

/// Measures the content of an imported package.
pub trait ModPackageSizeReader {
    fn read_content_size(&self, package_id: &str) -> Result<u64, PortFailure>;
}

/// Runs once at desktop startup, outside the library query and game-write paths.
pub struct ModLibraryStatisticsService<R: ModImportResultRepository, Z: ModPackageSizeReader> {
    repository: R,
    size_reader: Z,
    started: bool,
}

impl<R: ModImportResultRepository, Z: ModPackageSizeReader> ModLibraryStatisticsService<R, Z> {
    pub fn new(repository: R, size_reader: Z) -> (r: Self)
        ensures
            !r.has_started(),
    {
        ModLibraryStatisticsService { repository, size_reader, started: false }
    }

    pub closed spec fn has_started(&self) -> bool {
        self.started
    }

    /// Measures each displayed revision without a recorded size and writes the sizes in
    /// batches of at most `MOD_IMPORT_UPSERT_MAX_ENTRIES`; returns how many rows changed. A
    /// package that cannot be measured stays unknown. Only the first call does any work: every
    /// later call returns `Ok(0)`.
    pub fn refresh_missing_sizes(&mut self) -> (r: Result<usize, PortFailure>)
        ensures
            final(self).has_started(),
            old(self).has_started() ==> r == Ok::<usize, PortFailure>(0),
    {
        if self.started {
            return Ok(0);
        }
        self.started = true;
        let snapshot = match self.repository.catalog_snapshot() {
            Ok(s) => s,
            Err(e) => {
                return Err(e);
            },
        };
        let targets = missing_size_targets(&snapshot);
        let mut updates: Vec<ModRevisionSizeUpdate> = Vec::new();
        let mut changed: usize = 0;
        let mut i: usize = 0;
        while i < targets.len()
            invariant
                self.started,
                !old(self).has_started(),
                0 <= i <= targets@.len(),
                updates@.len() < MOD_IMPORT_UPSERT_MAX_ENTRIES,
                forall|j: int| 0 <= j < targets@.len() ==> #[trigger] targets@[j] < snapshot.revisions@.len(),
            decreases targets@.len() - i,
        {
            let revision = &snapshot.revisions[targets[i]];
            match self.size_reader.read_content_size(revision.package_id.as_str()) {
                Ok(size) => {
                    updates.push(size_update(revision, size));
                },
                Err(_) => {},
            }
            if updates.len() == MOD_IMPORT_UPSERT_MAX_ENTRIES {
                match self.repository.fill_missing_content_sizes(updates.as_slice()) {
                    Ok(n) => {
                        changed = changed.saturating_add(n);
                    },
                    Err(e) => {
                        return Err(e);
                    },
                }
                updates = Vec::new();
            }
            i = i + 1;
        }
        match self.repository.fill_missing_content_sizes(updates.as_slice()) {
            Ok(n) => Ok(changed.saturating_add(n)),
            Err(e) => Err(e),
        }
    }
}

} // verus!
