//! The added source files of a Mod's original install: before a reinstall may treat them as
//! part of what is installed, each must be planned, recorded as a managed install of the Mod
//! with a known summary, readable from the candidate revision, and still on disk unchanged.
use crate::attachments::{same_windows_key, windows_key, InstallAction, InstallManifest, InstallManifestEntry, InstallPlan};
use crate::metadata::PortFailure;
use crate::plugin::same_summary_exec;
use crate::reinstall::{hex_lower, spec_sha256, summarize, InstalledFileSummary, ReinstallBlockingReason};
use crate::text::str_equal;
use vstd::prelude::*;

verus! {

/// One added source file of the original install, with what the readers returned for it.
pub struct AdditionalSourceRead {
    pub package_file_id: String,
    /// The candidate revision's copy, as the original-source reader returned it.
    pub original: Result<Vec<u8>, PortFailure>,
    /// The installed copy, as the game reader returned it (`None`: nothing is there).
    pub current: Result<Option<Vec<u8>>, PortFailure>,
}

/// What was read and verified of one added source file.
#[derive(Debug, Clone, PartialEq, Eq)]
pub struct AdditionalSourceFacts {
    pub package_file_id: String,
    /// Summary of the candidate revision's copy.
    pub original: InstalledFileSummary,
    /// Where the file is installed.
    pub target_path: String,
    /// Summary of the installed copy.
    pub current: InstalledFileSummary,
}

/// The first planned action, from position `k` on, that installs the package file `id`.
pub open spec fn planned_action_from(actions: Seq<InstallAction>, id: Seq<char>, k: int) -> Option<InstallAction>
    decreases actions.len() - k,
{
    if k < 0 || k >= actions.len() {
        None
    } else if actions[k].package_file_id@ == id {
        Some(actions[k])
    } else {
        planned_action_from(actions, id, k + 1)
    }
}

/// `entry` records the Mod's install of package file `id` at `target` (Windows path identity).
pub open spec fn records_install(entry: InstallManifestEntry, mod_id: Seq<char>, id: Seq<char>, target: Seq<char>) -> bool {
    &&& windows_key(entry.target_path@) == windows_key(target)
    &&& entry.mod_id@ == mod_id
    &&& entry.package_file_id@ == id
}

/// The first manifest entry, from position `k` on, recording that install.
pub open spec fn install_entry_from(
    entries: Seq<InstallManifestEntry>,
    mod_id: Seq<char>,
    id: Seq<char>,
    target: Seq<char>,
    k: int,
) -> Option<InstallManifestEntry>
    decreases entries.len() - k,
{
    if k < 0 || k >= entries.len() {
        None
    } else if records_install(entries[k], mod_id, id, target) {
        Some(entries[k])
    } else {
        install_entry_from(entries, mod_id, id, target, k + 1)
    }
}

/// `summary` is the summary `summarize` gives of `bytes`: their length and the lowercase hex of
/// their SHA-256 digest.
pub open spec fn is_summary_of(summary: InstalledFileSummary, bytes: Seq<u8>) -> bool {
    summary.size_bytes == bytes.len() && summary.sha256@ == hex_lower(spec_sha256(bytes))
}

/// The recorded summary is the summary of `bytes`.
pub open spec fn recorded_as(installed: Option<InstalledFileSummary>, bytes: Seq<u8>) -> bool {
    match installed {
        Some(s) => is_summary_of(s, bytes),
        None => false,
    }
}

/// The check of one added source file: the entry that records it, or why it cannot be trusted.
/// Unplanned, unrecorded, adopted or unsummarised files make the original install unverified;
/// then the candidate's copy must be readable, and the installed copy readable, present and
/// unchanged.
pub open spec fn source_check(
    mod_id: Seq<char>,
    entries: Seq<InstallManifestEntry>,
    actions: Seq<InstallAction>,
    read: AdditionalSourceRead,
) -> Result<InstallManifestEntry, ReinstallBlockingReason> {
    match planned_action_from(actions, read.package_file_id@, 0) {
        None => Err(ReinstallBlockingReason::OriginalInstallUnverified),
        Some(action) => match install_entry_from(entries, mod_id, read.package_file_id@, action.target_path@, 0) {
            None => Err(ReinstallBlockingReason::OriginalInstallUnverified),
            Some(entry) => if entry.adopted || entry.installed_file is None {
                Err(ReinstallBlockingReason::OriginalInstallUnverified)
            } else {
                match read.original {
                    Err(_) => Err(ReinstallBlockingReason::SourceUnavailable),
                    Ok(_) => match read.current {
                        Err(_) => Err(ReinstallBlockingReason::TargetReadFailed),
                        Ok(None) => Err(ReinstallBlockingReason::TargetMissing),
                        Ok(Some(bytes)) => if recorded_as(entry.installed_file, bytes@) {
                            Ok(entry)
                        } else {
                            Err(ReinstallBlockingReason::TargetChanged)
                        },
                    },
                }
            },
        },
    }
}

/// The first refusal among the added source files, in the order they are checked.
pub open spec fn first_source_refusal(
    mod_id: Seq<char>,
    entries: Seq<InstallManifestEntry>,
    actions: Seq<InstallAction>,
    reads: Seq<AdditionalSourceRead>,
) -> Option<ReinstallBlockingReason>
    decreases reads.len(),
{
    if reads.len() == 0 {
        None
    } else {
        match first_source_refusal(mod_id, entries, actions, reads.drop_last()) {
            Some(e) => Some(e),
            None => match source_check(mod_id, entries, actions, reads.last()) {
                Err(e) => Some(e),
                Ok(_) => None,
            },
        }
    }
}

/// `facts` is what the checks of `read` found, `entry` being the entry that records it.
pub open spec fn facts_of(facts: AdditionalSourceFacts, read: AdditionalSourceRead, entry: InstallManifestEntry) -> bool {
    &&& facts.package_file_id@ == read.package_file_id@
    &&& facts.target_path@ == entry.target_path@
    &&& read.original matches Ok(bytes) && is_summary_of(facts.original, bytes@)
    &&& read.current matches Ok(Some(bytes)) && is_summary_of(facts.current, bytes@)
}

/// `facts` is what the checks of `read` found, and they passed.
pub open spec fn verified_source(
    mod_id: Seq<char>,
    entries: Seq<InstallManifestEntry>,
    actions: Seq<InstallAction>,
    read: AdditionalSourceRead,
    facts: AdditionalSourceFacts,
) -> bool {
    match source_check(mod_id, entries, actions, read) {
        Ok(entry) => facts_of(facts, read, entry),
        Err(_) => false,
    }
}

fn planned_target<'a>(plan: &'a InstallPlan, id: &str) -> (r: Option<&'a String>)
    ensures
        match planned_action_from(plan.actions@, id@, 0) {
            Some(a) => r == Some(&a.target_path),
            None => r is None,
        },
{
    let mut k: usize = 0;
    while k < plan.actions.len()
        invariant
            0 <= k <= plan.actions@.len(),
            planned_action_from(plan.actions@, id@, 0) == planned_action_from(plan.actions@, id@, k as int),
        decreases plan.actions@.len() - k,
    {
        if str_equal(plan.actions[k].package_file_id.as_str(), id) {
            return Some(&plan.actions[k].target_path);
        }
        k = k + 1;
    }
    None
}

fn install_entry<'a>(manifest: &'a InstallManifest, mod_id: &str, id: &str, target: &str) -> (r: Option<&'a InstallManifestEntry>)
    ensures
        match install_entry_from(manifest.entries@, mod_id@, id@, target@, 0) {
            Some(e) => r == Some(&e),
            None => r is None,
        },
{
    let mut k: usize = 0;
    while k < manifest.entries.len()
        invariant
            0 <= k <= manifest.entries@.len(),
            install_entry_from(manifest.entries@, mod_id@, id@, target@, 0) == install_entry_from(
                manifest.entries@,
                mod_id@,
                id@,
                target@,
                k as int,
            ),
        decreases manifest.entries@.len() - k,
    {
        let entry = &manifest.entries[k];
        if same_windows_key(entry.target_path.as_str(), target) && str_equal(entry.mod_id.as_str(), mod_id) && str_equal(
            entry.package_file_id.as_str(),
            id,
        ) {
            return Some(entry);
        }
        k = k + 1;
    }
    None
}

fn summary_of_bytes(bytes: &Vec<u8>) -> (r: InstalledFileSummary)
    ensures
        is_summary_of(r, bytes@),
{
    let n: usize = bytes.len();
    assert(n <= usize::MAX);
    assert(bytes@.len() <= u64::MAX);
    summarize(bytes.as_slice())
}

fn summary_is(installed: &Option<InstalledFileSummary>, summary: &InstalledFileSummary, bytes: Ghost<Seq<u8>>) -> (r: bool)
    requires
        summary.size_bytes == bytes@.len(),
        summary.sha256@ == hex_lower(spec_sha256(bytes@)),
    ensures
        r == recorded_as(*installed, bytes@),
{
    same_summary_exec(installed, summary)
}

/// Checks one added source file against the plan, the manifest and what was read of it.
pub fn check_additional_source(
    mod_id: &str,
    manifest: &InstallManifest,
    plan: &InstallPlan,
    read: &AdditionalSourceRead,
) -> (r: Result<AdditionalSourceFacts, ReinstallBlockingReason>)
    ensures
        match source_check(mod_id@, manifest.entries@, plan.actions@, *read) {
            Err(e) => r == Err::<AdditionalSourceFacts, ReinstallBlockingReason>(e),
            Ok(entry) => r matches Ok(facts) && facts_of(facts, *read, entry),
        },
{
    let id = read.package_file_id.as_str();
    let target = match planned_target(plan, id) {
        None => return Err(ReinstallBlockingReason::OriginalInstallUnverified),
        Some(t) => t,
    };
    let entry = match install_entry(manifest, mod_id, id, target.as_str()) {
        None => return Err(ReinstallBlockingReason::OriginalInstallUnverified),
        Some(e) => e,
    };
    if entry.adopted || entry.installed_file.is_none() {
        return Err(ReinstallBlockingReason::OriginalInstallUnverified);
    }
    let original = match &read.original {
        Err(_) => return Err(ReinstallBlockingReason::SourceUnavailable),
        Ok(bytes) => summary_of_bytes(bytes),
    };
    let current_bytes = match &read.current {
        Err(_) => return Err(ReinstallBlockingReason::TargetReadFailed),
        Ok(None) => return Err(ReinstallBlockingReason::TargetMissing),
        Ok(Some(bytes)) => bytes,
    };
    let current = summary_of_bytes(current_bytes);
    if !summary_is(&entry.installed_file, &current, Ghost(current_bytes@)) {
        return Err(ReinstallBlockingReason::TargetChanged);
    }
    let facts = AdditionalSourceFacts {
        package_file_id: read.package_file_id.clone(),
        original,
        target_path: entry.target_path.clone(),
        current,
    };
    Ok(facts)
}

/// Checks the added source files of the Mod's original install in order: the first refusal, or
/// what was read and verified of each.
pub fn check_additional_sources(
    mod_id: &str,
    manifest: &InstallManifest,
    plan: &InstallPlan,
    reads: &Vec<AdditionalSourceRead>,
) -> (r: Result<Vec<AdditionalSourceFacts>, ReinstallBlockingReason>)
    ensures
        match first_source_refusal(mod_id@, manifest.entries@, plan.actions@, reads@) {
            Some(e) => r == Err::<Vec<AdditionalSourceFacts>, ReinstallBlockingReason>(e),
            None => r matches Ok(facts) && facts@.len() == reads@.len() && forall|i: int|
                0 <= i < reads@.len() ==> verified_source(mod_id@, manifest.entries@, plan.actions@, #[trigger] reads@[i], facts@[i]),
        },
{
    let mut facts: Vec<AdditionalSourceFacts> = Vec::new();
    let mut k: usize = 0;
    while k < reads.len()
        invariant
            0 <= k <= reads@.len(),
            first_source_refusal(mod_id@, manifest.entries@, plan.actions@, reads@.subrange(0, k as int)) is None,
            facts@.len() == k,
            forall|i: int|
                0 <= i < k ==> verified_source(mod_id@, manifest.entries@, plan.actions@, #[trigger] reads@[i], facts@[i]),
        decreases reads@.len() - k,
    {
        let ghost after = reads@.subrange(0, k + 1);
        proof {
            assert(after.drop_last() =~= reads@.subrange(0, k as int));
            assert(after.last() == reads@[k as int]);
        }
        match check_additional_source(mod_id, manifest, plan, &reads[k]) {
            Err(e) => {
                proof {
                    lemma_refusal_prefix(mod_id@, manifest.entries@, plan.actions@, reads@, k + 1);
                }
                return Err(e);
            },
            Ok(f) => {
                facts.push(f);
            },
        }
        k = k + 1;
    }
    proof {
        assert(reads@.subrange(0, reads@.len() as int) =~= reads@);
    }
    Ok(facts)
}

proof fn lemma_refusal_prefix(
    mod_id: Seq<char>,
    entries: Seq<InstallManifestEntry>,
    actions: Seq<InstallAction>,
    reads: Seq<AdditionalSourceRead>,
    k: int,
)
    requires
        0 <= k <= reads.len(),
        first_source_refusal(mod_id, entries, actions, reads.subrange(0, k)) is Some,
    ensures
        first_source_refusal(mod_id, entries, actions, reads) == first_source_refusal(mod_id, entries, actions, reads.subrange(0, k)),
    decreases reads.len() - k,
{
    if k < reads.len() {
        assert(reads.subrange(0, k + 1).drop_last() =~= reads.subrange(0, k));
        lemma_refusal_prefix(mod_id, entries, actions, reads, k + 1);
    } else {
        assert(reads.subrange(0, k) =~= reads);
    }
}

} // verus!
