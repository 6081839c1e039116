//! Durable installation bookkeeping for display: what the manifest, the recovery records and
//! the reinstall transactions of one profile say about each Mod. Nothing here reads game
//! files or backups; integrity verification and write admission stay elsewhere.
use crate::ids::{insert_mod_id, mod_ids_contain, sorted_mod_ids, ModId, ModRevisionId, ProfileId};
use crate::library::{InstallManifestStatus, InstallManifestStatusSummary};
use crate::metadata::PortFailure;
use crate::text::str_equal;
use vstd::prelude::*;

verus! {

#[derive(Debug, Clone, PartialEq, Eq)]
pub enum InstallManifestQueryError {
    ManifestUnavailable,
}

/// How far the entries of a manifest may be trusted.
#[derive(Debug, Clone, Copy, PartialEq, Eq, Structural)]
pub enum InstallManifestStatusConsumption {
    TrustEntries,
    InFlight,
    RollbackRequired,
    RepairRequired,
}

/// One managed file of a manifest, as far as the bookkeeping reads it.
#[derive(Debug, Clone, PartialEq, Eq)]
pub struct InstalledManifestEntry {
    pub mod_id: ModId,
    pub revision_id: Option<ModRevisionId>,
    pub has_backup: bool,
    pub adopted: bool,
}

/// A profile's install manifest: its owner, how far it may be trusted, whether it passed
/// validation, and its entries.
#[derive(Debug, Clone, PartialEq, Eq)]
pub struct InstalledManifestFacts {
    pub profile_id: ProfileId,
    pub consumption: InstallManifestStatusConsumption,
    pub valid: bool,
    pub entries: Vec<InstalledManifestEntry>,
}

#[derive(Debug, Clone, Copy, PartialEq, Eq, Structural)]
pub enum InstallRecoveryRecordStatus {
    Planned,
    Committing,
    RollbackRequired,
    RepairRequired,
    Completed,
    RolledBack,
}

/// An install recovery record: one per Mod with an unfinished file transaction. Each entry
/// says whether the file has a backup.
#[derive(Debug, Clone, PartialEq, Eq)]
pub struct InstallRecoveryRecordFacts {
    pub profile_id: ProfileId,
    pub mod_id: ModId,
    pub status: InstallRecoveryRecordStatus,
    pub entry_backups: Vec<bool>,
}

#[derive(Debug, Clone, Copy, PartialEq, Eq, Structural)]
pub enum ReinstallRecoveryTransactionStatus {
    Planned,
    Committing,
    RollbackRequired,
    RepairRequired,
    Completed,
    RolledBack,
}

/// A reinstall recovery transaction and whether it passed validation.
#[derive(Debug, Clone, PartialEq, Eq)]
pub struct ReinstallTransactionFacts {
    pub profile_id: ProfileId,
    pub mod_id: ModId,
    pub status: ReinstallRecoveryTransactionStatus,
    pub valid: bool,
}

/// The display facts of one summary: status, managed files, backups, adopted files and the
/// installed revision.
pub open spec fn summary_view(s: InstallManifestStatusSummary) -> (
    InstallManifestStatus,
    int,
    int,
    Option<int>,
    Option<Seq<char>>,
) {
    (
        s.status,
        s.managed_file_count as int,
        s.backup_count as int,
        match s.adopted_file_count {
            Some(n) => Some(n as int),
            None => None,
        },
        match s.installed_revision_id {
            Some(r) => Some(r@),
            None => None,
        },
    )
}

/// What a Mod without any bookkeeping shows.
pub open spec fn absent_view(default_status: InstallManifestStatus) -> (
    InstallManifestStatus,
    int,
    int,
    Option<int>,
    Option<Seq<char>>,
) {
    (default_status, 0, 0, Some(0), None)
}

/// Number of entries of Mod `m`.
pub open spec fn entry_count(entries: Seq<InstalledManifestEntry>, m: Seq<char>) -> int
    decreases entries.len(),
{
    if entries.len() == 0 {
        0
    } else {
        entry_count(entries.drop_last(), m) + if entries.last().mod_id@ == m {
            1int
        } else {
            0int
        }
    }
}

/// Number of entries of Mod `m` with a backup.
pub open spec fn backup_count(entries: Seq<InstalledManifestEntry>, m: Seq<char>) -> int
    decreases entries.len(),
{
    if entries.len() == 0 {
        0
    } else {
        backup_count(entries.drop_last(), m) + if entries.last().mod_id@ == m
            && entries.last().has_backup {
            1int
        } else {
            0int
        }
    }
}

/// Number of adopted entries of Mod `m`.
pub open spec fn adopted_count(entries: Seq<InstalledManifestEntry>, m: Seq<char>) -> int
    decreases entries.len(),
{
    if entries.len() == 0 {
        0
    } else {
        adopted_count(entries.drop_last(), m) + if entries.last().mod_id@ == m
            && entries.last().adopted {
            1int
        } else {
            0int
        }
    }
}

/// Revision recorded by the first entry of Mod `m`.
pub open spec fn first_revision(entries: Seq<InstalledManifestEntry>, m: Seq<char>) -> Option<
    Seq<char>,
>
    decreases entries.len(),
{
    if entries.len() == 0 {
        None
    } else if entry_count(entries.drop_last(), m) > 0 {
        first_revision(entries.drop_last(), m)
    } else if entries.last().mod_id@ == m {
        match entries.last().revision_id {
            Some(r) => Some(r@),
            None => None,
        }
    } else {
        None
    }
}

pub open spec fn consumption_status(c: InstallManifestStatusConsumption) -> InstallManifestStatus {
    match c {
        InstallManifestStatusConsumption::TrustEntries => InstallManifestStatus::Installed,
        InstallManifestStatusConsumption::InFlight => InstallManifestStatus::Unknown,
        InstallManifestStatusConsumption::RollbackRequired => InstallManifestStatus::RollbackRequired,
        InstallManifestStatusConsumption::RepairRequired => InstallManifestStatus::RepairRequired,
    }
}

/// Status of the Mods a manifest does not list: an untrusted manifest cannot prove even an
/// absent Mod safe.
pub open spec fn default_status_of(manifest: Option<InstalledManifestFacts>) -> InstallManifestStatus {
    match manifest {
        Some(f) => if consumption_status(f.consumption) != InstallManifestStatus::Installed {
            consumption_status(f.consumption)
        } else {
            InstallManifestStatus::NotInstalled
        },
        None => InstallManifestStatus::NotInstalled,
    }
}

/// What the manifest alone says of Mod `m`.
pub open spec fn manifest_view(manifest: Option<InstalledManifestFacts>, m: Seq<char>) -> (
    InstallManifestStatus,
    int,
    int,
    Option<int>,
    Option<Seq<char>>,
) {
    match manifest {
        Some(f) => if entry_count(f.entries@, m) > 0 {
            let status = consumption_status(f.consumption);
            (
                status,
                entry_count(f.entries@, m),
                backup_count(f.entries@, m),
                Some(adopted_count(f.entries@, m)),
                if status == InstallManifestStatus::Installed {
                    first_revision(f.entries@, m)
                } else {
                    None
                },
            )
        } else {
            absent_view(default_status_of(manifest))
        },
        None => absent_view(default_status_of(manifest)),
    }
}

/// The status a recovery record imposes, if it overrides the manifest at all.
pub open spec fn record_status(s: InstallRecoveryRecordStatus) -> Option<InstallManifestStatus> {
    match s {
        InstallRecoveryRecordStatus::Committing => Some(InstallManifestStatus::RollbackRequired),
        InstallRecoveryRecordStatus::RollbackRequired => Some(InstallManifestStatus::RollbackRequired),
        InstallRecoveryRecordStatus::RepairRequired => Some(InstallManifestStatus::RepairRequired),
        _ => None,
    }
}

pub open spec fn transaction_status(s: ReinstallRecoveryTransactionStatus) -> InstallManifestStatus {
    match s {
        ReinstallRecoveryTransactionStatus::Planned => InstallManifestStatus::RollbackRequired,
        ReinstallRecoveryTransactionStatus::Committing => InstallManifestStatus::RollbackRequired,
        ReinstallRecoveryTransactionStatus::RollbackRequired => InstallManifestStatus::RollbackRequired,
        ReinstallRecoveryTransactionStatus::RepairRequired => InstallManifestStatus::RepairRequired,
        ReinstallRecoveryTransactionStatus::Completed => InstallManifestStatus::CleanupPending,
        ReinstallRecoveryTransactionStatus::RolledBack => InstallManifestStatus::CleanupPending,
    }
}

pub open spec fn true_count(values: Seq<bool>) -> int
    decreases values.len(),
{
    if values.len() == 0 {
        0
    } else {
        true_count(values.drop_last()) + if values.last() {
            1int
        } else {
            0int
        }
    }
}

pub open spec fn has_record(records: Seq<InstallRecoveryRecordFacts>, m: Seq<char>) -> bool {
    exists|i: int| 0 <= i < records.len() && #[trigger] records[i].mod_id@ == m
}

pub open spec fn record_of(records: Seq<InstallRecoveryRecordFacts>, m: Seq<char>) -> InstallRecoveryRecordFacts {
    records[choose|i: int| 0 <= i < records.len() && #[trigger] records[i].mod_id@ == m]
}

pub open spec fn has_transaction(txs: Seq<ReinstallTransactionFacts>, m: Seq<char>) -> bool {
    exists|i: int| 0 <= i < txs.len() && #[trigger] txs[i].mod_id@ == m
}

pub open spec fn transaction_of(txs: Seq<ReinstallTransactionFacts>, m: Seq<char>) -> ReinstallTransactionFacts {
    txs[choose|i: int| 0 <= i < txs.len() && #[trigger] txs[i].mod_id@ == m]
}

/// `view` after the recovery records: an unfinished or broken record overrides the status
/// and drops the revision; its own file counts are used when the manifest had none.
pub open spec fn after_records(
    view: (InstallManifestStatus, int, int, Option<int>, Option<Seq<char>>),
    records: Seq<InstallRecoveryRecordFacts>,
    m: Seq<char>,
) -> (InstallManifestStatus, int, int, Option<int>, Option<Seq<char>>) {
    if has_record(records, m) && record_status(record_of(records, m).status) is Some {
        let r = record_of(records, m);
        (
            record_status(r.status)->0,
            if view.1 == 0 {
                r.entry_backups@.len() as int
            } else {
                view.1
            },
            if view.1 == 0 {
                true_count(r.entry_backups@)
            } else {
                view.2
            },
            view.3,
            None,
        )
    } else {
        view
    }
}

/// `view` after the reinstall transactions: an invalid transaction, or one that coexists
/// with a recovery record, makes the state unknown; a metadata read never proves a revision.
pub open spec fn after_transactions(
    view: (InstallManifestStatus, int, int, Option<int>, Option<Seq<char>>),
    records: Seq<InstallRecoveryRecordFacts>,
    txs: Seq<ReinstallTransactionFacts>,
    m: Seq<char>,
) -> (InstallManifestStatus, int, int, Option<int>, Option<Seq<char>>) {
    if has_transaction(txs, m) {
        let t = transaction_of(txs, m);
        (
            if !t.valid || has_record(records, m) {
                InstallManifestStatus::Unknown
            } else {
                transaction_status(t.status)
            },
            view.1,
            view.2,
            view.3,
            None,
        )
    } else {
        view
    }
}

/// What the bookkeeping says of Mod `m`.
pub open spec fn expected_view(
    manifest: Option<InstalledManifestFacts>,
    records: Seq<InstallRecoveryRecordFacts>,
    txs: Seq<ReinstallTransactionFacts>,
    m: Seq<char>,
) -> (InstallManifestStatus, int, int, Option<int>, Option<Seq<char>>) {
    after_transactions(after_records(manifest_view(manifest, m), records, m), records, txs, m)
}

/// Mods the bookkeeping lists explicitly.
pub open spec fn listed(
    manifest: Option<InstalledManifestFacts>,
    records: Seq<InstallRecoveryRecordFacts>,
    txs: Seq<ReinstallTransactionFacts>,
    m: Seq<char>,
) -> bool {
    ||| (manifest matches Some(f) && entry_count(f.entries@, m) > 0)
    ||| (has_record(records, m) && record_status(record_of(records, m).status) is Some)
    ||| has_transaction(txs, m)
}

/// The three sources are mutually consistent: all of the profile, the manifest valid, and at
/// most one record and one transaction per Mod.
pub open spec fn bookkeeping_consistent(
    profile_id: ProfileId,
    manifest: Option<InstalledManifestFacts>,
    records: Seq<InstallRecoveryRecordFacts>,
    txs: Seq<ReinstallTransactionFacts>,
) -> bool {
    &&& (manifest matches Some(f) ==> f.profile_id@ == profile_id@ && f.valid)
    &&& records_consistent(profile_id, records)
    &&& transactions_consistent(profile_id, txs)
}

/// No two summaries share a Mod.
pub open spec fn unique_mods(states: Seq<InstallManifestStatusSummary>) -> bool {
    forall|i: int, j: int|
        0 <= i < j < states.len() ==> (#[trigger] states[i]).mod_id@ != (#[trigger] states[j]).mod_id@
}

pub open spec fn stores(states: Seq<InstallManifestStatusSummary>, m: Seq<char>) -> bool {
    exists|i: int| 0 <= i < states.len() && #[trigger] states[i].mod_id@ == m
}

/// The first summary of Mod `m`.
pub open spec fn first_index(states: Seq<InstallManifestStatusSummary>, m: Seq<char>) -> int {
    choose|i: int|
        0 <= i < states.len() && states[i].mod_id@ == m && forall|k: int|
            0 <= k < i ==> #[trigger] states[k].mod_id@ != m
}

/// What summaries `states` show for Mod `m` when Mods without a summary show `default_status`.
pub open spec fn states_view(
    states: Seq<InstallManifestStatusSummary>,
    default_status: InstallManifestStatus,
    m: Seq<char>,
) -> (InstallManifestStatus, int, int, Option<int>, Option<Seq<char>>) {
    if stores(states, m) {
        summary_view(states[first_index(states, m)])
    } else {
        absent_view(default_status)
    }
}

/// Index of the first summary of `mod_id`.
fn position_of(states: &Vec<InstallManifestStatusSummary>, mod_id: &ModId) -> (r: Option<usize>)
    ensures
        r matches Some(i) ==> i < states@.len() && states@[i as int].mod_id@ == mod_id@ && forall|
            k: int,
        | 0 <= k < i ==> #[trigger] states@[k].mod_id@ != mod_id@,
        r is None ==> !stores(states@, mod_id@),
{
    let mut i: usize = 0;
    while i < states.len()
        invariant
            i <= states@.len(),
            forall|k: int| 0 <= k < i ==> #[trigger] states@[k].mod_id@ != mod_id@,
        decreases states@.len() - i,
    {
        if str_equal(states[i].mod_id.as_str(), mod_id.as_str()) {
            return Some(i);
        }
        i = i + 1;
    }
    None
}

/// With one summary per Mod, the first summary of a Mod is its only one.
proof fn lemma_first_index_unique(states: Seq<InstallManifestStatusSummary>, k: int)
    requires
        unique_mods(states),
        0 <= k < states.len(),
    ensures
        stores(states, states[k].mod_id@),
        first_index(states, states[k].mod_id@) == k,
{
    let m = states[k].mod_id@;
    assert(forall|x: int| 0 <= x < k ==> #[trigger] states[x].mod_id@ != m);
    assert(0 <= k < states.len() && states[k].mod_id@ == m && forall|x: int|
        0 <= x < k ==> #[trigger] states[x].mod_id@ != m);
    let j = first_index(states, m);
    if j != k {
        if j < k {
            assert(states[j].mod_id@ != states[k].mod_id@);
        } else {
            assert(states[k].mod_id@ != states[j].mod_id@);
        }
    }
}

#[derive(Debug, Clone, PartialEq, Eq)]
pub struct ModInstallationStateSnapshot {
    pub profile_id: ProfileId,
    pub default_status: InstallManifestStatus,
    pub states: Vec<InstallManifestStatusSummary>,
}

impl ModInstallationStateSnapshot {
    /// What the snapshot shows for Mod `m`.
    pub open spec fn view_of(&self, m: Seq<char>) -> (
        InstallManifestStatus,
        int,
        int,
        Option<int>,
        Option<Seq<char>>,
    ) {
        states_view(self.states@, self.default_status, m)
    }

    /// The profile the summary shown for Mod `m` names.
    pub open spec fn shown_profile(&self, m: Seq<char>) -> Seq<char> {
        if stores(self.states@, m) {
            self.states@[first_index(self.states@, m)].profile_id@
        } else {
            self.profile_id@
        }
    }

    /// The summaries shown for Mod `m` differ between the two snapshots.
    pub open spec fn differs_from(&self, previous: ModInstallationStateSnapshot, m: Seq<char>) -> bool {
        self.view_of(m) != previous.view_of(m) || self.shown_profile(m) != previous.shown_profile(m)
    }

    /// The summary shown for a Mod: its stored summary, or an empty one with the snapshot's
    /// default status.
    pub fn summary(&self, mod_id: &ModId) -> (r: InstallManifestStatusSummary)
        ensures
            summary_view(r) == self.view_of(mod_id@),
            r.mod_id@ == mod_id@,
            r.profile_id@ == self.shown_profile(mod_id@),
            !stores(self.states@, mod_id@) ==> r.mod_id == *mod_id && r.profile_id == self.profile_id,
    {
        match position_of(&self.states, mod_id) {
            Some(i) => {
                proof {
                    let j = first_index(self.states@, mod_id@);
                    assert(0 <= j < self.states@.len() && self.states@[j].mod_id@ == mod_id@
                        && forall|k: int| 0 <= k < j ==> #[trigger] self.states@[k].mod_id@
                            != mod_id@);
                    if j < i {
                    } else if i < j {
                        assert(self.states@[i as int].mod_id@ != mod_id@);
                    }
                }
                self.states[i].duplicate()
            },
            None => InstallManifestStatusSummary {
                profile_id: self.profile_id.duplicate(),
                mod_id: mod_id.duplicate(),
                status: self.default_status,
                managed_file_count: 0,
                backup_count: 0,
                adopted_file_count: Some(0),
                installed_revision_id: None,
            },
        }
    }
}

/// Whether two summaries show the same facts.
fn same_summary(a: &InstallManifestStatusSummary, b: &InstallManifestStatusSummary) -> (r: bool)
    ensures
        r == (summary_view(*a) == summary_view(*b) && a.profile_id@ == b.profile_id@ && a.mod_id@
            == b.mod_id@),
{
    let revisions_equal = match (&a.installed_revision_id, &b.installed_revision_id) {
        (Some(x), Some(y)) => str_equal(x.as_str(), y.as_str()),
        (None, None) => true,
        _ => false,
    };
    let adopted_equal = match (a.adopted_file_count, b.adopted_file_count) {
        (Some(x), Some(y)) => x == y,
        (None, None) => true,
        _ => false,
    };
    a.status == b.status && a.managed_file_count == b.managed_file_count && a.backup_count
        == b.backup_count && adopted_equal && revisions_equal && str_equal(
        a.profile_id.as_str(),
        b.profile_id.as_str(),
    ) && str_equal(a.mod_id.as_str(), b.mod_id.as_str())
}

impl ModInstallationStateSnapshot {
    /// The Mods, listed by either snapshot, whose shown summary differs between `previous` and
    /// this snapshot, as an ordered set.
    pub fn changed_mod_ids(&self, previous: &ModInstallationStateSnapshot) -> (r: Vec<ModId>)
        ensures
            sorted_mod_ids(r@),
            forall|m: Seq<char>| #[trigger] mod_ids_contain(r@, m) <==> ((stores(self.states@, m)
                || stores(previous.states@, m)) && self.differs_from(*previous, m)),
    {
        let mut changed: Vec<ModId> = Vec::new();
        let mut i: usize = 0;
        while i < self.states.len()
            invariant
                i <= self.states@.len(),
                sorted_mod_ids(changed@),
                forall|m: Seq<char>| #[trigger] mod_ids_contain(changed@, m) <==> ((exists|k: int|
                    0 <= k < i && #[trigger] self.states@[k].mod_id@ == m) && self.differs_from(*previous, m)),
            decreases self.states@.len() - i,
        {
            let id = &self.states[i].mod_id;
            let mine = self.summary(id);
            let theirs = previous.summary(id);
            if !same_summary(&mine, &theirs) {
                insert_mod_id(&mut changed, id.duplicate());
            }
            proof {
                assert forall|m: Seq<char>| #[trigger] mod_ids_contain(changed@, m) <==> ((exists|k: int|
                    0 <= k < i + 1 && #[trigger] self.states@[k].mod_id@ == m) && self.differs_from(*previous, m)) by {
                    if m == id@ {
                        assert(self.states@[i as int].mod_id@ == m);
                    } else if exists|k: int| 0 <= k < i + 1 && #[trigger] self.states@[k].mod_id@ == m {
                        let k = choose|k: int| 0 <= k < i + 1 && #[trigger] self.states@[k].mod_id@ == m;
                        assert(k < i);
                    }
                }
            }
            i = i + 1;
        }
        let mut j: usize = 0;
        while j < previous.states.len()
            invariant
                j <= previous.states@.len(),
                sorted_mod_ids(changed@),
                forall|m: Seq<char>| #[trigger] mod_ids_contain(changed@, m) <==> ((stores(self.states@, m)
                    || exists|k: int| 0 <= k < j && #[trigger] previous.states@[k].mod_id@ == m)
                    && self.differs_from(*previous, m)),
            decreases previous.states@.len() - j,
        {
            let id = &previous.states[j].mod_id;
            let mine = self.summary(id);
            let theirs = previous.summary(id);
            if !same_summary(&mine, &theirs) {
                insert_mod_id(&mut changed, id.duplicate());
            }
            proof {
                assert forall|m: Seq<char>| #[trigger] mod_ids_contain(changed@, m) <==> ((stores(self.states@, m)
                    || exists|k: int| 0 <= k < j + 1 && #[trigger] previous.states@[k].mod_id@ == m)
                    && self.differs_from(*previous, m)) by {
                    if m == id@ {
                        assert(previous.states@[j as int].mod_id@ == m);
                    } else if exists|k: int| 0 <= k < j + 1 && #[trigger] previous.states@[k].mod_id@ == m {
                        let k = choose|k: int| 0 <= k < j + 1 && #[trigger] previous.states@[k].mod_id@ == m;
                        assert(k < j);
                    }
                }
            }
            j = j + 1;
        }
        changed
    }
}

/// Where the bookkeeping of a profile is read from.
pub trait ModInstallationStateSources {
    fn load_manifest(&self, profile_id: &ProfileId) -> Result<Option<InstalledManifestFacts>, PortFailure>;

    fn list_records(&self, profile_id: &ProfileId) -> Result<Vec<InstallRecoveryRecordFacts>, PortFailure>;

    fn list_transactions(&self, profile_id: &ProfileId) -> Result<
        Vec<ReinstallTransactionFacts>,
        PortFailure,
    >;
}

/// Counts never exceed the number of entries.
proof fn lemma_counts_bounded(entries: Seq<InstalledManifestEntry>, m: Seq<char>)
    ensures
        0 <= backup_count(entries, m) <= entry_count(entries, m) <= entries.len(),
        0 <= adopted_count(entries, m) <= entry_count(entries, m),
    decreases entries.len(),
{
    if entries.len() > 0 {
        lemma_counts_bounded(entries.drop_last(), m);
    }
}

/// What the first entries of a manifest say about a Mod they list.
pub open spec fn prefix_view(
    entries: Seq<InstalledManifestEntry>,
    status: InstallManifestStatus,
    m: Seq<char>,
) -> (InstallManifestStatus, int, int, Option<int>, Option<Seq<char>>) {
    (
        status,
        entry_count(entries, m),
        backup_count(entries, m),
        Some(adopted_count(entries, m)),
        if status == InstallManifestStatus::Installed {
            first_revision(entries, m)
        } else {
            None
        },
    )
}

/// Appending an entry to a manifest prefix changes only the figures of that entry's Mod.
proof fn lemma_push_counts(before: Seq<InstalledManifestEntry>, entry: InstalledManifestEntry, m: Seq<char>)
    ensures
        entry_count(before.push(entry), m) == entry_count(before, m) + if entry.mod_id@ == m {
            1int
        } else {
            0int
        },
        backup_count(before.push(entry), m) == backup_count(before, m) + if entry.mod_id@ == m
            && entry.has_backup {
            1int
        } else {
            0int
        },
        adopted_count(before.push(entry), m) == adopted_count(before, m) + if entry.mod_id@ == m
            && entry.adopted {
            1int
        } else {
            0int
        },
        first_revision(before.push(entry), m) == if entry_count(before, m) > 0 {
            first_revision(before, m)
        } else if entry.mod_id@ == m {
            match entry.revision_id {
                Some(r) => Some(r@),
                None => None,
            }
        } else {
            None
        },
{
    assert(before.push(entry).drop_last() =~= before);
}

/// A Mod without entries has no recorded revision.
proof fn lemma_no_entry_no_revision(entries: Seq<InstalledManifestEntry>, m: Seq<char>)
    requires
        entry_count(entries, m) == 0,
    ensures
        first_revision(entries, m) is None,
    decreases entries.len(),
{
    if entries.len() > 0 {
        lemma_counts_bounded(entries.drop_last(), m);
        lemma_no_entry_no_revision(entries.drop_last(), m);
    }
}

/// The summaries built from the manifest prefix `entries` with status `status`.
pub open spec fn manifest_prefix_states(
    states: Seq<InstallManifestStatusSummary>,
    profile_id: ProfileId,
    entries: Seq<InstalledManifestEntry>,
    status: InstallManifestStatus,
) -> bool {
    &&& unique_mods(states)
    &&& forall|k: int| 0 <= k < states.len() ==> (#[trigger] states[k]).profile_id == profile_id
    &&& forall|m: Seq<char>| #[trigger] stores(states, m) <==> entry_count(entries, m) > 0
    &&& forall|k: int|
        0 <= k < states.len() ==> summary_view(#[trigger] states[k]) == prefix_view(
            entries,
            status,
            states[k].mod_id@,
        )
}

/// Adds one manifest entry to the summaries of the entries before it.
#[verifier::rlimit(60)]
#[verifier::spinoff_prover]
fn add_manifest_entry(
    states: &mut Vec<InstallManifestStatusSummary>,
    profile_id: &ProfileId,
    status: InstallManifestStatus,
    entry: &InstalledManifestEntry,
    Ghost(before): Ghost<Seq<InstalledManifestEntry>>,
)
    requires
        manifest_prefix_states(old(states)@, *profile_id, before, status),
        before.len() < usize::MAX,
    ensures
        manifest_prefix_states(final(states)@, *profile_id, before.push(*entry), status),
{
    let ghost after = before.push(*entry);
    let ghost old_states = states@;
    let ghost m_e = entry.mod_id@;
    proof {
        lemma_push_counts(before, *entry, m_e);
        lemma_counts_bounded(before, m_e);
        assert forall|m: Seq<char>| m != m_e implies #[trigger] prefix_view(after, status, m) == prefix_view(
            before,
            status,
            m,
        ) by {
            lemma_push_counts(before, *entry, m);
            lemma_counts_bounded(before, m);
            if entry_count(before, m) == 0 {
                lemma_no_entry_no_revision(before, m);
            }
        }
    }
    match position_of(states, &entry.mod_id) {
        Some(k) => {
            let current = &states[k];
            proof {
                lemma_first_index_unique(states@, k as int);
                assert(summary_view(old_states[k as int]) == prefix_view(before, status, m_e));
            }
            let adopted_file_count = match current.adopted_file_count {
                Some(n) => Some(
                    if entry.adopted {
                        n + 1
                    } else {
                        n
                    },
                ),
                None => None,
            };
            let updated = InstallManifestStatusSummary {
                profile_id: current.profile_id.duplicate(),
                mod_id: current.mod_id.duplicate(),
                status: current.status,
                managed_file_count: current.managed_file_count + 1,
                backup_count: if entry.has_backup {
                    current.backup_count + 1
                } else {
                    current.backup_count
                },
                adopted_file_count,
                installed_revision_id: match &current.installed_revision_id {
                    Some(r) => Some(r.duplicate()),
                    None => None,
                },
            };
            states.set(k, updated);
            proof {
                assert forall|x: int| 0 <= x < states@.len() implies summary_view(
                    #[trigger] states@[x],
                ) == prefix_view(after, status, states@[x].mod_id@) by {
                    if x != k as int {
                        assert(old_states[x].mod_id@ != old_states[k as int].mod_id@);
                        assert(summary_view(old_states[x]) == prefix_view(before, status, old_states[x].mod_id@));
                    }
                }
                assert forall|a: int, b: int| 0 <= a < b < states@.len() implies (
                #[trigger] states@[a]).mod_id@ != (#[trigger] states@[b]).mod_id@ by {
                    assert(old_states[a].mod_id@ != old_states[b].mod_id@);
                }
                assert forall|m: Seq<char>| #[trigger] stores(states@, m) <==> entry_count(after, m) > 0 by {
                    lemma_push_counts(before, *entry, m);
                    if stores(states@, m) {
                        let x = choose|x: int| 0 <= x < states@.len() && #[trigger] states@[x].mod_id@ == m;
                        assert(old_states[x].mod_id@ == m);
                        assert(stores(old_states, m));
                    }
                    if entry_count(after, m) > 0 {
                        if entry_count(before, m) > 0 {
                            assert(stores(old_states, m));
                            let x = choose|x: int| 0 <= x < old_states.len() && #[trigger] old_states[x].mod_id@ == m;
                            assert(states@[x].mod_id@ == m);
                        } else {
                            assert(states@[k as int].mod_id@ == m);
                        }
                    }
                }
            }
        },
        None => {
            proof {
                assert(!stores(old_states, m_e));
                assert(entry_count(before, m_e) == 0);
            }
            let summary = InstallManifestStatusSummary {
                profile_id: profile_id.duplicate(),
                mod_id: entry.mod_id.duplicate(),
                status,
                managed_file_count: 1,
                backup_count: if entry.has_backup {
                    1
                } else {
                    0
                },
                adopted_file_count: Some(
                    if entry.adopted {
                        1
                    } else {
                        0
                    },
                ),
                installed_revision_id: if status == InstallManifestStatus::Installed {
                    match &entry.revision_id {
                        Some(r) => Some(r.duplicate()),
                        None => None,
                    }
                } else {
                    None
                },
            };
            states.push(summary);
            proof {
                assert forall|x: int| 0 <= x < states@.len() implies summary_view(
                    #[trigger] states@[x],
                ) == prefix_view(after, status, states@[x].mod_id@) by {
                    if x < old_states.len() {
                        assert(states@[x] == old_states[x]);
                        assert(summary_view(old_states[x]) == prefix_view(before, status, old_states[x].mod_id@));
                        if old_states[x].mod_id@ == m_e {
                            assert(stores(old_states, m_e));
                        }
                    }
                }
                assert forall|a: int, b: int| 0 <= a < b < states@.len() implies (
                #[trigger] states@[a]).mod_id@ != (#[trigger] states@[b]).mod_id@ by {
                    assert(states@[a] == old_states[a]);
                    if b == old_states.len() {
                        if old_states[a].mod_id@ == m_e {
                            assert(stores(old_states, m_e));
                        }
                    } else {
                        assert(states@[b] == old_states[b]);
                    }
                }
                assert forall|m: Seq<char>| #[trigger] stores(states@, m) <==> entry_count(after, m) > 0 by {
                    lemma_push_counts(before, *entry, m);
                    if stores(states@, m) {
                        let x = choose|x: int| 0 <= x < states@.len() && #[trigger] states@[x].mod_id@ == m;
                        if x < old_states.len() {
                            assert(old_states[x].mod_id@ == m);
                            assert(stores(old_states, m));
                        }
                    }
                    if entry_count(after, m) > 0 {
                        if entry_count(before, m) > 0 {
                            assert(stores(old_states, m));
                            let x = choose|x: int| 0 <= x < old_states.len() && #[trigger] old_states[x].mod_id@ == m;
                            assert(states@[x].mod_id@ == m);
                        } else {
                            assert(states@[old_states.len() as int].mod_id@ == m);
                        }
                    }
                }
            }
        },
    }
}

/// One summary per Mod the manifest lists, in the order of their first entries.
fn manifest_states(profile_id: &ProfileId, manifest: &InstalledManifestFacts) -> (r: Vec<
    InstallManifestStatusSummary,
>)
    ensures
        manifest_prefix_states(r@, *profile_id, manifest.entries@, consumption_status(manifest.consumption)),
{
    let status = match manifest.consumption {
        InstallManifestStatusConsumption::TrustEntries => InstallManifestStatus::Installed,
        InstallManifestStatusConsumption::InFlight => InstallManifestStatus::Unknown,
        InstallManifestStatusConsumption::RollbackRequired => InstallManifestStatus::RollbackRequired,
        InstallManifestStatusConsumption::RepairRequired => InstallManifestStatus::RepairRequired,
    };
    let mut states: Vec<InstallManifestStatusSummary> = Vec::new();
    let mut i: usize = 0;
    proof {
        assert(manifest.entries@.subrange(0, 0) =~= Seq::<InstalledManifestEntry>::empty());
        assert forall|m: Seq<char>| #[trigger] stores(states@, m) <==> entry_count(
            manifest.entries@.subrange(0, 0),
            m,
        ) > 0 by {}
    }
    while i < manifest.entries.len()
        invariant
            i <= manifest.entries@.len(),
            status == consumption_status(manifest.consumption),
            manifest_prefix_states(states@, *profile_id, manifest.entries@.subrange(0, i as int), status),
        decreases manifest.entries@.len() - i,
    {
        add_manifest_entry(
            &mut states,
            profile_id,
            status,
            &manifest.entries[i],
            Ghost(manifest.entries@.subrange(0, i as int)),
        );
        proof {
            assert(manifest.entries@.subrange(0, i as int).push(manifest.entries@[i as int])
                =~= manifest.entries@.subrange(0, i + 1));
        }
        i = i + 1;
    }
    proof {
        assert(manifest.entries@.subrange(0, manifest.entries@.len() as int) =~= manifest.entries@);
    }
    states
}

/// Stores `summary` as the summary of its Mod: replaces that Mod's summary in place, or
/// appends one for a Mod without. Returns the position used.
fn store_summary(states: &mut Vec<InstallManifestStatusSummary>, summary: InstallManifestStatusSummary) -> (r:
    usize)
    ensures
        r <= old(states)@.len(),
        r < old(states)@.len() ==> final(states)@ == old(states)@.update(r as int, summary)
            && old(states)@[r as int].mod_id@ == summary.mod_id@,
        r == old(states)@.len() ==> final(states)@ == old(states)@.push(summary) && !stores(
            old(states)@,
            summary.mod_id@,
        ),
{
    match position_of(states, &summary.mod_id) {
        Some(k) => {
            states.set(k, summary);
            k
        },
        None => {
            let n = states.len();
            states.push(summary);
            n
        },
    }
}

/// The summary a Mod shows right now in `states`: its stored one or an empty one.
fn current_summary(
    states: &Vec<InstallManifestStatusSummary>,
    profile_id: &ProfileId,
    default_status: InstallManifestStatus,
    mod_id: &ModId,
) -> (r: InstallManifestStatusSummary)
    requires
        unique_mods(states@),
        forall|k: int| 0 <= k < states@.len() ==> (#[trigger] states@[k]).profile_id == *profile_id,
    ensures
        summary_view(r) == states_view(states@, default_status, mod_id@),
        r.mod_id@ == mod_id@,
        r.profile_id == *profile_id,
{
    match position_of(states, mod_id) {
        Some(k) => {
            proof {
                lemma_first_index_unique(states@, k as int);
            }
            states[k].duplicate()
        },
        None => InstallManifestStatusSummary {
            profile_id: profile_id.duplicate(),
            mod_id: mod_id.duplicate(),
            status: default_status,
            managed_file_count: 0,
            backup_count: 0,
            adopted_file_count: Some(0),
            installed_revision_id: None,
        },
    }
}

/// Records of `profile_id`, at most one per Mod.
pub open spec fn records_consistent(profile_id: ProfileId, records: Seq<InstallRecoveryRecordFacts>) -> bool {
    &&& forall|i: int| 0 <= i < records.len() ==> (#[trigger] records[i]).profile_id@ == profile_id@
    &&& forall|i: int, j: int|
        0 <= i < j < records.len() ==> (#[trigger] records[i]).mod_id@ != (#[trigger] records[j]).mod_id@
}

/// Transactions of `profile_id`, at most one per Mod.
pub open spec fn transactions_consistent(profile_id: ProfileId, txs: Seq<ReinstallTransactionFacts>) -> bool {
    &&& forall|i: int| 0 <= i < txs.len() ==> (#[trigger] txs[i]).profile_id@ == profile_id@
    &&& forall|i: int, j: int|
        0 <= i < j < txs.len() ==> (#[trigger] txs[i]).mod_id@ != (#[trigger] txs[j]).mod_id@
}

proof fn lemma_record_push(p: Seq<InstallRecoveryRecordFacts>, r: InstallRecoveryRecordFacts, m: Seq<char>)
    requires
        forall|i: int, j: int| 0 <= i < j < p.len() ==> (#[trigger] p[i]).mod_id@ != (#[trigger] p[j]).mod_id@,
        forall|j: int| 0 <= j < p.len() ==> (#[trigger] p[j]).mod_id@ != r.mod_id@,
    ensures
        has_record(p.push(r), m) <==> (has_record(p, m) || r.mod_id@ == m),
        has_record(p.push(r), m) ==> record_of(p.push(r), m) == if r.mod_id@ == m {
            r
        } else {
            record_of(p, m)
        },
{
    let q = p.push(r);
    if has_record(p, m) {
        let x = choose|x: int| 0 <= x < p.len() && #[trigger] p[x].mod_id@ == m;
        assert(q[x].mod_id@ == m);
    }
    if r.mod_id@ == m {
        assert(q[p.len() as int].mod_id@ == m);
    }
    if has_record(q, m) {
        let x = choose|x: int| 0 <= x < q.len() && #[trigger] q[x].mod_id@ == m;
        if x < p.len() {
            assert(p[x] == q[x]);
            assert(has_record(p, m));
            let y = choose|y: int| 0 <= y < p.len() && #[trigger] p[y].mod_id@ == m;
            if x != y {
                if x < y {
                    assert(p[x].mod_id@ != p[y].mod_id@);
                } else {
                    assert(p[y].mod_id@ != p[x].mod_id@);
                }
            }
        } else {
            assert(x == p.len());
        }
    }
}

proof fn lemma_transaction_push(p: Seq<ReinstallTransactionFacts>, t: ReinstallTransactionFacts, m: Seq<char>)
    requires
        forall|i: int, j: int| 0 <= i < j < p.len() ==> (#[trigger] p[i]).mod_id@ != (#[trigger] p[j]).mod_id@,
        forall|j: int| 0 <= j < p.len() ==> (#[trigger] p[j]).mod_id@ != t.mod_id@,
    ensures
        has_transaction(p.push(t), m) <==> (has_transaction(p, m) || t.mod_id@ == m),
        has_transaction(p.push(t), m) ==> transaction_of(p.push(t), m) == if t.mod_id@ == m {
            t
        } else {
            transaction_of(p, m)
        },
{
    let q = p.push(t);
    if has_transaction(p, m) {
        let x = choose|x: int| 0 <= x < p.len() && #[trigger] p[x].mod_id@ == m;
        assert(q[x].mod_id@ == m);
    }
    if t.mod_id@ == m {
        assert(q[p.len() as int].mod_id@ == m);
    }
    if has_transaction(q, m) {
        let x = choose|x: int| 0 <= x < q.len() && #[trigger] q[x].mod_id@ == m;
        if x < p.len() {
            assert(p[x] == q[x]);
            assert(has_transaction(p, m));
            let y = choose|y: int| 0 <= y < p.len() && #[trigger] p[y].mod_id@ == m;
            if x != y {
                if x < y {
                    assert(p[x].mod_id@ != p[y].mod_id@);
                } else {
                    assert(p[y].mod_id@ != p[x].mod_id@);
                }
            }
        } else {
            assert(x == p.len());
        }
    }
}

fn count_backups(entry_backups: &Vec<bool>) -> (r: usize)
    ensures
        r as int == true_count(entry_backups@),
{
    let mut n: usize = 0;
    let mut i: usize = 0;
    while i < entry_backups.len()
        invariant
            i <= entry_backups@.len(),
            n as int == true_count(entry_backups@.subrange(0, i as int)),
            n <= i,
        decreases entry_backups@.len() - i,
    {
        proof {
            assert(entry_backups@.subrange(0, i + 1).drop_last() =~= entry_backups@.subrange(0, i as int));
        }
        if entry_backups[i] {
            n = n + 1;
        }
        i = i + 1;
    }
    proof {
        assert(entry_backups@.subrange(0, entry_backups@.len() as int) =~= entry_backups@);
    }
    n
}

/// Mod `m` has a record among `records` that overrides the manifest.
pub open spec fn active_record(records: Seq<InstallRecoveryRecordFacts>, m: Seq<char>) -> bool {
    has_record(records, m) && record_status(record_of(records, m).status) is Some
}

/// `states` are the summaries after applying the records `p` to the summaries `base`.
#[verifier::opaque]
pub open spec fn record_stage(
    states: Seq<InstallManifestStatusSummary>,
    base: Seq<InstallManifestStatusSummary>,
    default_status: InstallManifestStatus,
    profile_id: ProfileId,
    p: Seq<InstallRecoveryRecordFacts>,
) -> bool {
    &&& unique_mods(states)
    &&& forall|k: int| 0 <= k < states.len() ==> (#[trigger] states[k]).profile_id == profile_id
    &&& forall|m: Seq<char>| #[trigger] stores(states, m) <==> (stores(base, m) || active_record(p, m))
    &&& forall|k: int|
        0 <= k < states.len() ==> summary_view(#[trigger] states[k]) == after_records(
            states_view(base, default_status, states[k].mod_id@),
            p,
            states[k].mod_id@,
        )
}

/// What a Mod shows in a stage is what the stage's rule says of it.
proof fn lemma_stage_view(
    states: Seq<InstallManifestStatusSummary>,
    default_status: InstallManifestStatus,
    m: Seq<char>,
) -> (k: int)
    requires
        unique_mods(states),
        stores(states, m),
    ensures
        0 <= k < states.len(),
        states[k].mod_id@ == m,
        states_view(states, default_status, m) == summary_view(states[k]),
{
    let k = choose|x: int| 0 <= x < states.len() && #[trigger] states[x].mod_id@ == m;
    lemma_first_index_unique(states, k);
    k
}

/// Storing a summary keeps one summary per Mod, all of the profile.
#[verifier::rlimit(50)]
#[verifier::spinoff_prover]
proof fn lemma_store_keeps_shape(
    old_states: Seq<InstallManifestStatusSummary>,
    new_states: Seq<InstallManifestStatusSummary>,
    idx: int,
    summary: InstallManifestStatusSummary,
    profile_id: ProfileId,
)
    requires
        unique_mods(old_states),
        forall|k: int| 0 <= k < old_states.len() ==> (#[trigger] old_states[k]).profile_id == profile_id,
        summary.profile_id == profile_id,
        0 <= idx <= old_states.len(),
        idx < old_states.len() ==> new_states == old_states.update(idx, summary)
            && old_states[idx].mod_id@ == summary.mod_id@,
        idx == old_states.len() ==> new_states == old_states.push(summary) && !stores(
            old_states,
            summary.mod_id@,
        ),
    ensures
        unique_mods(new_states),
        forall|k: int| 0 <= k < new_states.len() ==> (#[trigger] new_states[k]).profile_id == profile_id,
        forall|m: Seq<char>| #[trigger] stores(new_states, m) <==> (stores(old_states, m) || m == summary.mod_id@),
        forall|k: int| 0 <= k < new_states.len() && k != idx ==> #[trigger] new_states[k] == old_states[k],
        new_states[idx] == summary,
{
    assert forall|a: int, b: int| 0 <= a < b < new_states.len() implies (
    #[trigger] new_states[a]).mod_id@ != (#[trigger] new_states[b]).mod_id@ by {
        if a != idx && b != idx {
            assert(new_states[a] == old_states[a] && new_states[b] == old_states[b]);
        } else if a == idx {
            assert(new_states[b] == old_states[b]);
            if idx < old_states.len() {
                assert(old_states[a].mod_id@ != old_states[b].mod_id@);
            }
        } else {
            assert(new_states[a] == old_states[a]);
            if idx < old_states.len() {
                assert(old_states[a].mod_id@ != old_states[b].mod_id@);
            } else if old_states[a].mod_id@ == summary.mod_id@ {
                assert(stores(old_states, summary.mod_id@));
            }
        }
    }
    assert forall|m: Seq<char>| #[trigger] stores(new_states, m) <==> (stores(old_states, m) || m
        == summary.mod_id@) by {
        if stores(new_states, m) {
            let x = choose|x: int| 0 <= x < new_states.len() && #[trigger] new_states[x].mod_id@ == m;
            if x != idx {
                assert(old_states[x].mod_id@ == m);
            }
        }
        if stores(old_states, m) {
            let x = choose|x: int| 0 <= x < old_states.len() && #[trigger] old_states[x].mod_id@ == m;
            if x != idx {
                assert(new_states[x].mod_id@ == m);
            } else {
                assert(new_states[idx].mod_id@ == m);
            }
        }
        if m == summary.mod_id@ {
            assert(new_states[idx].mod_id@ == m);
        }
    }
}

/// Applying one more record keeps the record stage.
#[verifier::rlimit(50)]
#[verifier::spinoff_prover]
proof fn lemma_record_step(
    old_states: Seq<InstallManifestStatusSummary>,
    new_states: Seq<InstallManifestStatusSummary>,
    base: Seq<InstallManifestStatusSummary>,
    default_status: InstallManifestStatus,
    profile_id: ProfileId,
    p: Seq<InstallRecoveryRecordFacts>,
    r: InstallRecoveryRecordFacts,
    idx: int,
    summary: InstallManifestStatusSummary,
)
    requires
        record_stage(old_states, base, default_status, profile_id, p),
        unique_mods(base),
        forall|i: int, j: int| 0 <= i < j < p.len() ==> (#[trigger] p[i]).mod_id@ != (#[trigger] p[j]).mod_id@,
        forall|j: int| 0 <= j < p.len() ==> (#[trigger] p[j]).mod_id@ != r.mod_id@,
        summary.mod_id@ == r.mod_id@,
        summary.profile_id == profile_id,
        record_status(r.status) is Some,
        summary_view(summary) == after_records(
            states_view(base, default_status, r.mod_id@),
            p.push(r),
            r.mod_id@,
        ),
        0 <= idx <= old_states.len(),
        idx < old_states.len() ==> new_states == old_states.update(idx, summary)
            && old_states[idx].mod_id@ == summary.mod_id@,
        idx == old_states.len() ==> new_states == old_states.push(summary) && !stores(
            old_states,
            summary.mod_id@,
        ),
    ensures
        record_stage(new_states, base, default_status, profile_id, p.push(r)),
{
    reveal(record_stage);
    lemma_store_keeps_shape(old_states, new_states, idx, summary, profile_id);
    let q = p.push(r);
    assert forall|m: Seq<char>| #[trigger] stores(new_states, m) <==> (stores(base, m) || active_record(q, m)) by {
        lemma_record_push(p, r, m);
    }
    assert forall|k: int| 0 <= k < new_states.len() implies summary_view(#[trigger] new_states[k])
        == after_records(states_view(base, default_status, new_states[k].mod_id@), q, new_states[k].mod_id@) by {
        lemma_record_push(p, r, new_states[k].mod_id@);
        if k != idx {
            assert(new_states[k] == old_states[k]);
            assert(old_states[k].mod_id@ != r.mod_id@) by {
                if idx < old_states.len() {
                    assert(old_states[k].mod_id@ != old_states[idx].mod_id@);
                } else {
                    if old_states[k].mod_id@ == r.mod_id@ {
                        assert(stores(old_states, r.mod_id@));
                    }
                }
            }
        }
    }
}

/// A record that does not override the manifest leaves the stage as it is.
#[verifier::rlimit(50)]
#[verifier::spinoff_prover]
proof fn lemma_record_skip(
    states: Seq<InstallManifestStatusSummary>,
    base: Seq<InstallManifestStatusSummary>,
    default_status: InstallManifestStatus,
    profile_id: ProfileId,
    p: Seq<InstallRecoveryRecordFacts>,
    r: InstallRecoveryRecordFacts,
)
    requires
        record_stage(states, base, default_status, profile_id, p),
        forall|i: int, j: int| 0 <= i < j < p.len() ==> (#[trigger] p[i]).mod_id@ != (#[trigger] p[j]).mod_id@,
        forall|j: int| 0 <= j < p.len() ==> (#[trigger] p[j]).mod_id@ != r.mod_id@,
        record_status(r.status) is None,
    ensures
        record_stage(states, base, default_status, profile_id, p.push(r)),
{
    reveal(record_stage);
    let q = p.push(r);
    assert forall|m: Seq<char>| #[trigger] stores(states, m) <==> (stores(base, m) || active_record(q, m)) by {
        lemma_record_push(p, r, m);
    }
    assert forall|k: int| 0 <= k < states.len() implies summary_view(#[trigger] states[k])
        == after_records(states_view(base, default_status, states[k].mod_id@), q, states[k].mod_id@) by {
        lemma_record_push(p, r, states[k].mod_id@);
    }
}

proof fn lemma_record_stage_shape(
    states: Seq<InstallManifestStatusSummary>,
    base: Seq<InstallManifestStatusSummary>,
    default_status: InstallManifestStatus,
    profile_id: ProfileId,
    p: Seq<InstallRecoveryRecordFacts>,
)
    requires
        record_stage(states, base, default_status, profile_id, p),
    ensures
        unique_mods(states),
        forall|k: int| 0 <= k < states.len() ==> (#[trigger] states[k]).profile_id == profile_id,
{
    reveal(record_stage);
}

/// The summary a record imposes on a Mod whose summary was `view`.
proof fn lemma_record_summary(
    view: (InstallManifestStatus, int, int, Option<int>, Option<Seq<char>>),
    p: Seq<InstallRecoveryRecordFacts>,
    r: InstallRecoveryRecordFacts,
    summary: InstallManifestStatusSummary,
)
    requires
        forall|i: int, j: int| 0 <= i < j < p.len() ==> (#[trigger] p[i]).mod_id@ != (#[trigger] p[j]).mod_id@,
        forall|j: int| 0 <= j < p.len() ==> (#[trigger] p[j]).mod_id@ != r.mod_id@,
        record_status(r.status) == Some(summary.status),
        summary.managed_file_count == if view.1 == 0 {
            r.entry_backups@.len() as int
        } else {
            view.1
        },
        summary.backup_count == if view.1 == 0 {
            true_count(r.entry_backups@)
        } else {
            view.2
        },
        summary_view(summary).3 == view.3,
        summary.installed_revision_id is None,
    ensures
        summary_view(summary) == after_records(view, p.push(r), r.mod_id@),
{
    lemma_record_push(p, r, r.mod_id@);
}

/// A Mod without a record among `p` shows what it showed before the records.
#[verifier::rlimit(50)]
#[verifier::spinoff_prover]
proof fn lemma_unrecorded_shows_base(
    states: Seq<InstallManifestStatusSummary>,
    base: Seq<InstallManifestStatusSummary>,
    default_status: InstallManifestStatus,
    profile_id: ProfileId,
    p: Seq<InstallRecoveryRecordFacts>,
    m: Seq<char>,
)
    requires
        record_stage(states, base, default_status, profile_id, p),
        !stores(base, m) ==> states_view(base, default_status, m) == absent_view(default_status),
        forall|j: int| 0 <= j < p.len() ==> (#[trigger] p[j]).mod_id@ != m,
    ensures
        states_view(states, default_status, m) == states_view(base, default_status, m),
{
    reveal(record_stage);
    assert(!has_record(p, m));
    if stores(states, m) {
        let k = lemma_stage_view(states, default_status, m);
        assert(summary_view(states[k]) == after_records(states_view(base, default_status, m), p, m));
    } else {
        assert(!stores(base, m));
    }
}

/// Applies one recovery record to the summaries.
#[verifier::rlimit(50)]
#[verifier::spinoff_prover]
fn apply_record(
    states: &mut Vec<InstallManifestStatusSummary>,
    profile_id: &ProfileId,
    default_status: InstallManifestStatus,
    record: &InstallRecoveryRecordFacts,
    Ghost(base): Ghost<Seq<InstallManifestStatusSummary>>,
    Ghost(p): Ghost<Seq<InstallRecoveryRecordFacts>>,
)
    requires
        record_stage(old(states)@, base, default_status, *profile_id, p),
        unique_mods(base),
        !stores(base, record.mod_id@) ==> states_view(base, default_status, record.mod_id@)
            == absent_view(default_status),
        forall|i: int, j: int| 0 <= i < j < p.len() ==> (#[trigger] p[i]).mod_id@ != (#[trigger] p[j]).mod_id@,
        forall|j: int| 0 <= j < p.len() ==> (#[trigger] p[j]).mod_id@ != record.mod_id@,
    ensures
        record_stage(final(states)@, base, default_status, *profile_id, p.push(*record)),
{
    let status = match record.status {
        InstallRecoveryRecordStatus::Committing => InstallManifestStatus::RollbackRequired,
        InstallRecoveryRecordStatus::RollbackRequired => InstallManifestStatus::RollbackRequired,
        InstallRecoveryRecordStatus::RepairRequired => InstallManifestStatus::RepairRequired,
        _ => {
            proof {
                lemma_record_skip(states@, base, default_status, *profile_id, p, *record);
            }
            return;
        },
    };
    let ghost m_r = record.mod_id@;
    let ghost old_states = states@;
    proof {
        lemma_record_stage_shape(states@, base, default_status, *profile_id, p);
    }
    let current = current_summary(states, profile_id, default_status, &record.mod_id);
    proof {
        lemma_unrecorded_shows_base(old_states, base, default_status, *profile_id, p, m_r);
    }
    let first_files = current.managed_file_count == 0;
    let managed_file_count = if first_files {
        record.entry_backups.len()
    } else {
        current.managed_file_count
    };
    let backup_count = if first_files {
        count_backups(&record.entry_backups)
    } else {
        current.backup_count
    };
    let summary = InstallManifestStatusSummary {
        profile_id: current.profile_id,
        mod_id: current.mod_id,
        status,
        managed_file_count,
        backup_count,
        adopted_file_count: current.adopted_file_count,
        installed_revision_id: None,
    };
    proof {
        lemma_record_summary(states_view(base, default_status, m_r), p, *record, summary);
    }
    let idx = store_summary(states, summary);
    proof {
        lemma_record_step(
            old_states,
            states@,
            base,
            default_status,
            *profile_id,
            p,
            *record,
            idx as int,
            summary,
        );
    }
}

/// `states` are the summaries after applying the transactions `p` to the summaries `mid`.
#[verifier::opaque]
pub open spec fn transaction_stage(
    states: Seq<InstallManifestStatusSummary>,
    mid: Seq<InstallManifestStatusSummary>,
    default_status: InstallManifestStatus,
    profile_id: ProfileId,
    records: Seq<InstallRecoveryRecordFacts>,
    p: Seq<ReinstallTransactionFacts>,
) -> bool {
    &&& unique_mods(states)
    &&& forall|k: int| 0 <= k < states.len() ==> (#[trigger] states[k]).profile_id == profile_id
    &&& forall|m: Seq<char>| #[trigger] stores(states, m) <==> (stores(mid, m) || has_transaction(p, m))
    &&& forall|k: int|
        0 <= k < states.len() ==> summary_view(#[trigger] states[k]) == after_transactions(
            states_view(mid, default_status, states[k].mod_id@),
            records,
            p,
            states[k].mod_id@,
        )
}

proof fn lemma_transaction_stage_shape(
    states: Seq<InstallManifestStatusSummary>,
    mid: Seq<InstallManifestStatusSummary>,
    default_status: InstallManifestStatus,
    profile_id: ProfileId,
    records: Seq<InstallRecoveryRecordFacts>,
    p: Seq<ReinstallTransactionFacts>,
)
    requires
        transaction_stage(states, mid, default_status, profile_id, records, p),
    ensures
        unique_mods(states),
        forall|k: int| 0 <= k < states.len() ==> (#[trigger] states[k]).profile_id == profile_id,
{
    reveal(transaction_stage);
}

proof fn lemma_transaction_summary(
    view: (InstallManifestStatus, int, int, Option<int>, Option<Seq<char>>),
    records: Seq<InstallRecoveryRecordFacts>,
    p: Seq<ReinstallTransactionFacts>,
    t: ReinstallTransactionFacts,
    summary: InstallManifestStatusSummary,
)
    requires
        forall|i: int, j: int| 0 <= i < j < p.len() ==> (#[trigger] p[i]).mod_id@ != (#[trigger] p[j]).mod_id@,
        forall|j: int| 0 <= j < p.len() ==> (#[trigger] p[j]).mod_id@ != t.mod_id@,
        summary.status == if !t.valid || has_record(records, t.mod_id@) {
            InstallManifestStatus::Unknown
        } else {
            transaction_status(t.status)
        },
        summary_view(summary).1 == view.1,
        summary_view(summary).2 == view.2,
        summary_view(summary).3 == view.3,
        summary.installed_revision_id is None,
    ensures
        summary_view(summary) == after_transactions(view, records, p.push(t), t.mod_id@),
{
    lemma_transaction_push(p, t, t.mod_id@);
}

#[verifier::rlimit(50)]
#[verifier::spinoff_prover]
proof fn lemma_untransacted_shows_mid(
    states: Seq<InstallManifestStatusSummary>,
    mid: Seq<InstallManifestStatusSummary>,
    default_status: InstallManifestStatus,
    profile_id: ProfileId,
    records: Seq<InstallRecoveryRecordFacts>,
    p: Seq<ReinstallTransactionFacts>,
    m: Seq<char>,
)
    requires
        transaction_stage(states, mid, default_status, profile_id, records, p),
        forall|j: int| 0 <= j < p.len() ==> (#[trigger] p[j]).mod_id@ != m,
    ensures
        states_view(states, default_status, m) == states_view(mid, default_status, m),
{
    reveal(transaction_stage);
    assert(!has_transaction(p, m));
    if stores(states, m) {
        let k = lemma_stage_view(states, default_status, m);
        assert(summary_view(states[k]) == after_transactions(
            states_view(mid, default_status, m),
            records,
            p,
            m,
        ));
    }
}

#[verifier::rlimit(50)]
#[verifier::spinoff_prover]
proof fn lemma_transaction_step(
    old_states: Seq<InstallManifestStatusSummary>,
    new_states: Seq<InstallManifestStatusSummary>,
    mid: Seq<InstallManifestStatusSummary>,
    default_status: InstallManifestStatus,
    profile_id: ProfileId,
    records: Seq<InstallRecoveryRecordFacts>,
    p: Seq<ReinstallTransactionFacts>,
    t: ReinstallTransactionFacts,
    idx: int,
    summary: InstallManifestStatusSummary,
)
    requires
        transaction_stage(old_states, mid, default_status, profile_id, records, p),
        forall|i: int, j: int| 0 <= i < j < p.len() ==> (#[trigger] p[i]).mod_id@ != (#[trigger] p[j]).mod_id@,
        forall|j: int| 0 <= j < p.len() ==> (#[trigger] p[j]).mod_id@ != t.mod_id@,
        summary.mod_id@ == t.mod_id@,
        summary.profile_id == profile_id,
        summary_view(summary) == after_transactions(
            states_view(mid, default_status, t.mod_id@),
            records,
            p.push(t),
            t.mod_id@,
        ),
        0 <= idx <= old_states.len(),
        idx < old_states.len() ==> new_states == old_states.update(idx, summary)
            && old_states[idx].mod_id@ == summary.mod_id@,
        idx == old_states.len() ==> new_states == old_states.push(summary) && !stores(
            old_states,
            summary.mod_id@,
        ),
    ensures
        transaction_stage(new_states, mid, default_status, profile_id, records, p.push(t)),
{
    reveal(transaction_stage);
    lemma_store_keeps_shape(old_states, new_states, idx, summary, profile_id);
    let q = p.push(t);
    assert forall|m: Seq<char>| #[trigger] stores(new_states, m) <==> (stores(mid, m) || has_transaction(q, m)) by {
        lemma_transaction_push(p, t, m);
    }
    assert forall|k: int| 0 <= k < new_states.len() implies summary_view(#[trigger] new_states[k])
        == after_transactions(states_view(mid, default_status, new_states[k].mod_id@), records, q, new_states[k].mod_id@) by {
        lemma_transaction_push(p, t, new_states[k].mod_id@);
        if k != idx {
            assert(new_states[k] == old_states[k]);
            assert(old_states[k].mod_id@ != t.mod_id@) by {
                if idx < old_states.len() {
                    assert(old_states[k].mod_id@ != old_states[idx].mod_id@);
                } else {
                    if old_states[k].mod_id@ == t.mod_id@ {
                        assert(stores(old_states, t.mod_id@));
                    }
                }
            }
        }
    }
}

/// Whether `records` hold a record of `mod_id`.
fn has_record_of(records: &Vec<InstallRecoveryRecordFacts>, mod_id: &ModId) -> (r: bool)
    ensures
        r == has_record(records@, mod_id@),
{
    let mut i: usize = 0;
    while i < records.len()
        invariant
            i <= records@.len(),
            forall|k: int| 0 <= k < i ==> #[trigger] records@[k].mod_id@ != mod_id@,
        decreases records@.len() - i,
    {
        if str_equal(records[i].mod_id.as_str(), mod_id.as_str()) {
            proof {
                assert(records@[i as int].mod_id@ == mod_id@);
            }
            return true;
        }
        i = i + 1;
    }
    false
}

/// Applies one reinstall transaction to the summaries.
#[verifier::rlimit(50)]
#[verifier::spinoff_prover]
fn apply_transaction(
    states: &mut Vec<InstallManifestStatusSummary>,
    profile_id: &ProfileId,
    default_status: InstallManifestStatus,
    records: &Vec<InstallRecoveryRecordFacts>,
    transaction: &ReinstallTransactionFacts,
    Ghost(mid): Ghost<Seq<InstallManifestStatusSummary>>,
    Ghost(p): Ghost<Seq<ReinstallTransactionFacts>>,
)
    requires
        transaction_stage(old(states)@, mid, default_status, *profile_id, records@, p),
        forall|i: int, j: int| 0 <= i < j < p.len() ==> (#[trigger] p[i]).mod_id@ != (#[trigger] p[j]).mod_id@,
        forall|j: int| 0 <= j < p.len() ==> (#[trigger] p[j]).mod_id@ != transaction.mod_id@,
    ensures
        transaction_stage(final(states)@, mid, default_status, *profile_id, records@, p.push(*transaction)),
{
    let ghost m_t = transaction.mod_id@;
    let ghost old_states = states@;
    proof {
        lemma_transaction_stage_shape(states@, mid, default_status, *profile_id, records@, p);
    }
    let current = current_summary(states, profile_id, default_status, &transaction.mod_id);
    proof {
        lemma_untransacted_shows_mid(old_states, mid, default_status, *profile_id, records@, p, m_t);
    }
    let recorded = has_record_of(records, &transaction.mod_id);
    let status = if !transaction.valid || recorded {
        InstallManifestStatus::Unknown
    } else {
        match transaction.status {
            ReinstallRecoveryTransactionStatus::Planned => InstallManifestStatus::RollbackRequired,
            ReinstallRecoveryTransactionStatus::Committing => InstallManifestStatus::RollbackRequired,
            ReinstallRecoveryTransactionStatus::RollbackRequired =>
                InstallManifestStatus::RollbackRequired,
            ReinstallRecoveryTransactionStatus::RepairRequired => InstallManifestStatus::RepairRequired,
            ReinstallRecoveryTransactionStatus::Completed => InstallManifestStatus::CleanupPending,
            ReinstallRecoveryTransactionStatus::RolledBack => InstallManifestStatus::CleanupPending,
        }
    };
    let summary = InstallManifestStatusSummary {
        profile_id: current.profile_id,
        mod_id: current.mod_id,
        status,
        managed_file_count: current.managed_file_count,
        backup_count: current.backup_count,
        adopted_file_count: current.adopted_file_count,
        installed_revision_id: None,
    };
    proof {
        lemma_transaction_summary(states_view(mid, default_status, m_t), records@, p, *transaction, summary);
    }
    let idx = store_summary(states, summary);
    proof {
        lemma_transaction_step(
            old_states,
            states@,
            mid,
            default_status,
            *profile_id,
            records@,
            p,
            *transaction,
            idx as int,
            summary,
        );
    }
}

/// Applies every record, in order, refusing records of another profile and a second record
/// for the same Mod.
fn apply_records(
    states: &mut Vec<InstallManifestStatusSummary>,
    profile_id: &ProfileId,
    default_status: InstallManifestStatus,
    records: &Vec<InstallRecoveryRecordFacts>,
    Ghost(base): Ghost<Seq<InstallManifestStatusSummary>>,
) -> (r: Result<(), InstallManifestQueryError>)
    requires
        record_stage(old(states)@, base, default_status, *profile_id, Seq::empty()),
        unique_mods(base),
    ensures
        r is Ok <==> records_consistent(*profile_id, records@),
        r is Ok ==> record_stage(final(states)@, base, default_status, *profile_id, records@),
{
    let mut i: usize = 0;
    proof {
        assert(records@.subrange(0, 0) =~= Seq::<InstallRecoveryRecordFacts>::empty());
    }
    while i < records.len()
        invariant
            i <= records@.len(),
            unique_mods(base),
            record_stage(states@, base, default_status, *profile_id, records@.subrange(0, i as int)),
            records_consistent(*profile_id, records@.subrange(0, i as int)),
        decreases records@.len() - i,
    {
        let ghost prefix = records@.subrange(0, i as int);
        let record = &records[i];
        if !str_equal(record.profile_id.as_str(), profile_id.as_str()) {
            proof {
                assert(records@[i as int].profile_id@ != profile_id@);
            }
            return Err(InstallManifestQueryError::ManifestUnavailable);
        }
        let mut j: usize = 0;
        while j < i
            invariant
                j <= i < records@.len(),
                *record == records@[i as int],
                forall|k: int| 0 <= k < j ==> (#[trigger] records@[k]).mod_id@ != records@[i as int].mod_id@,
            decreases i - j,
        {
            if str_equal(records[j].mod_id.as_str(), record.mod_id.as_str()) {
                proof {
                    assert(records@[j as int].mod_id@ == records@[i as int].mod_id@);
                }
                return Err(InstallManifestQueryError::ManifestUnavailable);
            }
            j = j + 1;
        }
        proof {
            assert forall|k: int| 0 <= k < prefix.len() implies (#[trigger] prefix[k]).mod_id@
                != record.mod_id@ by {
                assert(prefix[k] == records@[k]);
            }
        }
        apply_record(states, profile_id, default_status, record, Ghost(base), Ghost(prefix));
        proof {
            assert(prefix.push(*record) =~= records@.subrange(0, i + 1));
            let next = records@.subrange(0, i + 1);
            assert forall|a: int, b: int| 0 <= a < b < next.len() implies (#[trigger] next[a]).mod_id@
                != (#[trigger] next[b]).mod_id@ by {
                if b < i {
                    assert(prefix[a] == next[a] && prefix[b] == next[b]);
                } else {
                    assert(next[a] == records@[a]);
                }
            }
        }
        i = i + 1;
    }
    proof {
        assert(records@.subrange(0, records@.len() as int) =~= records@);
    }
    Ok(())
}

/// Applies every transaction, in order, refusing transactions of another profile and a
/// second transaction for the same Mod.
fn apply_transactions(
    states: &mut Vec<InstallManifestStatusSummary>,
    profile_id: &ProfileId,
    default_status: InstallManifestStatus,
    records: &Vec<InstallRecoveryRecordFacts>,
    transactions: &Vec<ReinstallTransactionFacts>,
    Ghost(mid): Ghost<Seq<InstallManifestStatusSummary>>,
) -> (r: Result<(), InstallManifestQueryError>)
    requires
        transaction_stage(old(states)@, mid, default_status, *profile_id, records@, Seq::empty()),
    ensures
        r is Ok <==> transactions_consistent(*profile_id, transactions@),
        r is Ok ==> transaction_stage(final(states)@, mid, default_status, *profile_id, records@, transactions@),
{
    let mut i: usize = 0;
    proof {
        assert(transactions@.subrange(0, 0) =~= Seq::<ReinstallTransactionFacts>::empty());
    }
    while i < transactions.len()
        invariant
            i <= transactions@.len(),
            transaction_stage(states@, mid, default_status, *profile_id, records@, transactions@.subrange(0, i as int)),
            transactions_consistent(*profile_id, transactions@.subrange(0, i as int)),
        decreases transactions@.len() - i,
    {
        let ghost prefix = transactions@.subrange(0, i as int);
        let transaction = &transactions[i];
        if !str_equal(transaction.profile_id.as_str(), profile_id.as_str()) {
            proof {
                assert(transactions@[i as int].profile_id@ != profile_id@);
            }
            return Err(InstallManifestQueryError::ManifestUnavailable);
        }
        let mut j: usize = 0;
        while j < i
            invariant
                j <= i < transactions@.len(),
                *transaction == transactions@[i as int],
                forall|k: int| 0 <= k < j ==> (#[trigger] transactions@[k]).mod_id@ != transactions@[i as int].mod_id@,
            decreases i - j,
        {
            if str_equal(transactions[j].mod_id.as_str(), transaction.mod_id.as_str()) {
                proof {
                    assert(transactions@[j as int].mod_id@ == transactions@[i as int].mod_id@);
                }
                return Err(InstallManifestQueryError::ManifestUnavailable);
            }
            j = j + 1;
        }
        proof {
            assert forall|k: int| 0 <= k < prefix.len() implies (#[trigger] prefix[k]).mod_id@
                != transaction.mod_id@ by {
                assert(prefix[k] == transactions@[k]);
            }
        }
        apply_transaction(states, profile_id, default_status, records, transaction, Ghost(mid), Ghost(prefix));
        proof {
            assert(prefix.push(*transaction) =~= transactions@.subrange(0, i + 1));
            let next = transactions@.subrange(0, i + 1);
            assert forall|a: int, b: int| 0 <= a < b < next.len() implies (#[trigger] next[a]).mod_id@
                != (#[trigger] next[b]).mod_id@ by {
                if b < i {
                    assert(prefix[a] == next[a] && prefix[b] == next[b]);
                } else {
                    assert(next[a] == transactions@[a]);
                }
            }
        }
        i = i + 1;
    }
    proof {
        assert(transactions@.subrange(0, transactions@.len() as int) =~= transactions@);
    }
    Ok(())
}

/// Summaries with no records applied yet form the first record stage.
proof fn lemma_record_stage_start(
    states: Seq<InstallManifestStatusSummary>,
    default_status: InstallManifestStatus,
    profile_id: ProfileId,
)
    requires
        unique_mods(states),
        forall|k: int| 0 <= k < states.len() ==> (#[trigger] states[k]).profile_id == profile_id,
    ensures
        record_stage(states, states, default_status, profile_id, Seq::empty()),
{
    reveal(record_stage);
    assert forall|k: int| 0 <= k < states.len() implies summary_view(#[trigger] states[k])
        == after_records(states_view(states, default_status, states[k].mod_id@), Seq::empty(), states[k].mod_id@) by {
        lemma_first_index_unique(states, k);
    }
}

proof fn lemma_transaction_stage_start(
    states: Seq<InstallManifestStatusSummary>,
    default_status: InstallManifestStatus,
    profile_id: ProfileId,
    records: Seq<InstallRecoveryRecordFacts>,
)
    requires
        unique_mods(states),
        forall|k: int| 0 <= k < states.len() ==> (#[trigger] states[k]).profile_id == profile_id,
    ensures
        transaction_stage(states, states, default_status, profile_id, records, Seq::empty()),
{
    reveal(transaction_stage);
    assert forall|k: int| 0 <= k < states.len() implies summary_view(#[trigger] states[k])
        == after_transactions(states_view(states, default_status, states[k].mod_id@), records, Seq::empty(), states[k].mod_id@) by {
        lemma_first_index_unique(states, k);
    }
}

/// After the records, every Mod shows the record rule applied to what it showed before.
#[verifier::rlimit(50)]
#[verifier::spinoff_prover]
proof fn lemma_record_stage_view(
    states: Seq<InstallManifestStatusSummary>,
    base: Seq<InstallManifestStatusSummary>,
    default_status: InstallManifestStatus,
    profile_id: ProfileId,
    records: Seq<InstallRecoveryRecordFacts>,
    m: Seq<char>,
)
    requires
        record_stage(states, base, default_status, profile_id, records),
    ensures
        states_view(states, default_status, m) == after_records(
            states_view(base, default_status, m),
            records,
            m,
        ),
        stores(states, m) <==> (stores(base, m) || active_record(records, m)),
{
    reveal(record_stage);
    if stores(states, m) {
        let k = lemma_stage_view(states, default_status, m);
    }
}

#[verifier::rlimit(50)]
#[verifier::spinoff_prover]
proof fn lemma_transaction_stage_view(
    states: Seq<InstallManifestStatusSummary>,
    mid: Seq<InstallManifestStatusSummary>,
    default_status: InstallManifestStatus,
    profile_id: ProfileId,
    records: Seq<InstallRecoveryRecordFacts>,
    txs: Seq<ReinstallTransactionFacts>,
    m: Seq<char>,
)
    requires
        transaction_stage(states, mid, default_status, profile_id, records, txs),
    ensures
        states_view(states, default_status, m) == after_transactions(
            states_view(mid, default_status, m),
            records,
            txs,
            m,
        ),
        stores(states, m) <==> (stores(mid, m) || has_transaction(txs, m)),
{
    reveal(transaction_stage);
    if stores(states, m) {
        let k = lemma_stage_view(states, default_status, m);
    }
}

/// The manifest summaries show what the manifest says.
proof fn lemma_manifest_view(
    states: Seq<InstallManifestStatusSummary>,
    profile_id: ProfileId,
    manifest: InstalledManifestFacts,
    m: Seq<char>,
)
    requires
        manifest_prefix_states(
            states,
            profile_id,
            manifest.entries@,
            consumption_status(manifest.consumption),
        ),
    ensures
        states_view(states, default_status_of(Some(manifest)), m) == manifest_view(Some(manifest), m),
{
    if stores(states, m) {
        let k = lemma_stage_view(states, default_status_of(Some(manifest)), m);
    }
}

/// The install state of every Mod of a profile, from the profile's manifest, recovery
/// records and reinstall transactions. Any inconsistency among them (another profile's data,
/// an invalid manifest, two records or two transactions for one Mod) makes the whole
/// bookkeeping unavailable rather than guessed.
pub fn installation_state_from(
    profile_id: &ProfileId,
    manifest: Option<InstalledManifestFacts>,
    records: Vec<InstallRecoveryRecordFacts>,
    transactions: Vec<ReinstallTransactionFacts>,
) -> (r: Result<ModInstallationStateSnapshot, InstallManifestQueryError>)
    ensures
        r is Ok <==> bookkeeping_consistent(*profile_id, manifest, records@, transactions@),
        r matches Ok(snapshot) ==> {
            &&& snapshot.profile_id == *profile_id
            &&& snapshot.default_status == default_status_of(manifest)
            &&& unique_mods(snapshot.states@)
            &&& forall|m: Seq<char>| #[trigger] snapshot.view_of(m) == expected_view(
                manifest,
                records@,
                transactions@,
                m,
            )
            &&& forall|m: Seq<char>| #[trigger] stores(snapshot.states@, m) <==> listed(
                manifest,
                records@,
                transactions@,
                m,
            )
        },
{
    let default_status = match &manifest {
        Some(f) => match f.consumption {
            InstallManifestStatusConsumption::TrustEntries => InstallManifestStatus::NotInstalled,
            InstallManifestStatusConsumption::InFlight => InstallManifestStatus::Unknown,
            InstallManifestStatusConsumption::RollbackRequired =>
                InstallManifestStatus::RollbackRequired,
            InstallManifestStatusConsumption::RepairRequired => InstallManifestStatus::RepairRequired,
        },
        None => InstallManifestStatus::NotInstalled,
    };
    let mut states: Vec<InstallManifestStatusSummary> = match &manifest {
        Some(f) => {
            if !str_equal(f.profile_id.as_str(), profile_id.as_str()) || !f.valid {
                return Err(InstallManifestQueryError::ManifestUnavailable);
            }
            manifest_states(profile_id, f)
        },
        None => Vec::new(),
    };
    let ghost base = states@;
    proof {
        assert forall|m: Seq<char>| #[trigger] states_view(base, default_status, m) == manifest_view(manifest, m) by {
            match manifest {
                Some(f) => lemma_manifest_view(base, *profile_id, f, m),
                None => {},
            }
        }
        assert forall|m: Seq<char>| #[trigger] stores(base, m) <==> (manifest matches Some(f) && entry_count(f.entries@, m) > 0) by {
        }
        lemma_record_stage_start(base, default_status, *profile_id);
    }
    match apply_records(&mut states, profile_id, default_status, &records, Ghost(base)) {
        Ok(()) => {},
        Err(e) => {
            return Err(e);
        },
    }
    let ghost mid = states@;
    proof {
        lemma_record_stage_shape(mid, base, default_status, *profile_id, records@);
        lemma_transaction_stage_start(mid, default_status, *profile_id, records@);
    }
    match apply_transactions(&mut states, profile_id, default_status, &records, &transactions, Ghost(mid)) {
        Ok(()) => {},
        Err(e) => {
            return Err(e);
        },
    }
    let snapshot = ModInstallationStateSnapshot {
        profile_id: profile_id.duplicate(),
        default_status,
        states,
    };
    proof {
        lemma_transaction_stage_shape(snapshot.states@, mid, default_status, *profile_id, records@, transactions@);
        assert forall|m: Seq<char>| #[trigger] snapshot.view_of(m) == expected_view(
            manifest,
            records@,
            transactions@,
            m,
        ) by {
            lemma_transaction_stage_view(snapshot.states@, mid, default_status, *profile_id, records@, transactions@, m);
            lemma_record_stage_view(mid, base, default_status, *profile_id, records@, m);
        }
        assert forall|m: Seq<char>| #[trigger] stores(snapshot.states@, m) <==> listed(
            manifest,
            records@,
            transactions@,
            m,
        ) by {
            lemma_transaction_stage_view(snapshot.states@, mid, default_status, *profile_id, records@, transactions@, m);
            lemma_record_stage_view(mid, base, default_status, *profile_id, records@, m);
        }
        assert(unique_mods(snapshot.states@));
        assert(snapshot.default_status == default_status_of(manifest));
        assert(snapshot.profile_id == *profile_id);
    }
    Ok(snapshot)
}

/// Reads the installation bookkeeping of profiles for display.
pub struct ModInstallationStateQueryService<S: ModInstallationStateSources> {
    sources: S,
}

impl<S: ModInstallationStateSources> ModInstallationStateQueryService<S> {
    pub closed spec fn sources_spec(&self) -> S {
        self.sources
    }

    pub fn new(sources: S) -> (r: Self)
        ensures
            r.sources_spec() == sources,
    {
        ModInstallationStateQueryService { sources }
    }

    /// One metadata read of the profile's manifest, recovery records and reinstall
    /// transactions, combined as `installation_state_from` describes. A failed read is
    /// reported as unavailable.
    pub fn inspect(&self, profile_id: &ProfileId) -> (r: Result<
        ModInstallationStateSnapshot,
        InstallManifestQueryError,
    >)
        ensures
            r matches Ok(snapshot) ==> {
                &&& snapshot.profile_id == *profile_id
                &&& unique_mods(snapshot.states@)
                &&& exists|
                    manifest: Option<InstalledManifestFacts>,
                    records: Seq<InstallRecoveryRecordFacts>,
                    txs: Seq<ReinstallTransactionFacts>,
                |
                    bookkeeping_consistent(*profile_id, manifest, records, txs)
                        && snapshot.default_status == default_status_of(manifest) && forall|
                        m: Seq<char>,
                    | #[trigger] snapshot.view_of(m) == expected_view(manifest, records, txs, m)
            },
    {
        let manifest = match self.sources.load_manifest(profile_id) {
            Ok(m) => m,
            Err(_) => {
                return Err(InstallManifestQueryError::ManifestUnavailable);
            },
        };
        let records = match self.sources.list_records(profile_id) {
            Ok(r) => r,
            Err(_) => {
                return Err(InstallManifestQueryError::ManifestUnavailable);
            },
        };
        let transactions = match self.sources.list_transactions(profile_id) {
            Ok(t) => t,
            Err(_) => {
                return Err(InstallManifestQueryError::ManifestUnavailable);
            },
        };
        let ghost mf = manifest;
        let ghost rs = records@;
        let ghost ts = transactions@;
        let result = installation_state_from(profile_id, manifest, records, transactions);
        proof {
            if result is Ok {
                let snapshot = result->Ok_0;
                assert(bookkeeping_consistent(*profile_id, mf, rs, ts)
                    && snapshot.default_status == default_status_of(mf) && forall|m: Seq<char>|
                    #[trigger] snapshot.view_of(m) == expected_view(mf, rs, ts, m));
            }
        }
        result
    }
}

/// Told when a task changed the installation state of a Mod in a profile.
pub trait ModInstallationStateObserver {
    fn state_changed(&self, task_id: &str, game_id: &crate::ids::GameId, profile_id: &crate::ids::ProfileId, mod_id: &crate::ids::ModId);
}

} // verus!
