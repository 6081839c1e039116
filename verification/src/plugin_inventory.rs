//! The plugin inventory of a Mod revision: which scanned package files the game's plugin policy
//! cares about, how each is offered to the player, and when the installed facts are too weak to
//! offer anything.
use crate::attachments::{
    eq_ignore_ascii_case, eq_ignore_ascii_case_spec, same_windows_key, windows_key, FileLayer, InstallManifest,
    InstallManifestEntry,
};
use crate::recovery::{clone_opt_string, clone_summary_opt};
use crate::metadata::PortFailure;
use crate::plugin::{
    candidate_decision, candidate_decision_spec, choice_kind, choice_kind_spec, confirmation_required,
    confirmation_required_spec, contains_id, file_from, first_owner_from, has_id, owner, owner_position, same_revision,
    same_revision_spec, same_summary_exec, PluginCandidate, PluginFileCheck, PluginFileChoice, PluginFileChoiceKind,
    PluginInventory, PluginSelectionScope, PluginSelectionServiceError, PluginSelectionSnapshot,
};
use crate::reinstall::{hex_lower, spec_sha256, summarize, InstalledFileSummary};
use crate::text::str_equal;
use vstd::prelude::*;

verus! {

/// A package file the scanner listed, with what the game's plugin policy and the package reader
/// answered of it.
pub struct ScannedPluginFile {
    pub package_file_id: String,
    /// The install target of the scanned path, or `None` when the path is no valid install target.
    pub target_path: Option<String>,
    /// The policy takes the target for a plugin.
    pub is_candidate: bool,
    /// The policy excludes the target as an attachment.
    pub is_excluded_attachment: bool,
    /// The file's bytes as the package reader returned them (only asked of files the policy cares about).
    pub read: Result<Vec<u8>, PortFailure>,
    /// The policy's inspection of the bytes (only asked of plugin candidates).
    pub check: PluginFileCheck,
}

/// The policy cares about the file.
pub open spec fn item_kept(item: ScannedPluginFile) -> bool {
    item.target_path is Some && (item.is_candidate || item.is_excluded_attachment)
}

/// Why the file makes the inventory unavailable: an invalid target, or unreadable bytes of a
/// file the policy cares about.
pub open spec fn item_error(item: ScannedPluginFile) -> Option<PluginSelectionServiceError> {
    if item.target_path is None {
        Some(PluginSelectionServiceError::SourceUnavailable)
    } else if !item_kept(item) {
        None
    } else {
        match item.read {
            Err(_) => Some(PluginSelectionServiceError::SourceUnavailable),
            Ok(bytes) => if bytes@.len() > u64::MAX {
                Some(PluginSelectionServiceError::SourceUnavailable)
            } else {
                None
            },
        }
    }
}

/// The first error of the scan, in scan order.
pub open spec fn scan_error(items: Seq<ScannedPluginFile>) -> Option<PluginSelectionServiceError>
    decreases items.len(),
{
    if items.len() == 0 {
        None
    } else {
        match scan_error(items.drop_last()) {
            Some(e) => Some(e),
            None => item_error(items.last()),
        }
    }
}

/// The files the policy cares about, in scan order.
pub open spec fn kept_view(items: Seq<ScannedPluginFile>) -> Seq<ScannedPluginFile>
    decreases items.len(),
{
    if items.len() == 0 {
        Seq::empty()
    } else if item_kept(items.last()) {
        kept_view(items.drop_last()).push(items.last())
    } else {
        kept_view(items.drop_last())
    }
}

pub open spec fn item_bytes(item: ScannedPluginFile) -> Seq<u8> {
    match item.read {
        Ok(b) => b@,
        Err(_) => Seq::empty(),
    }
}

pub open spec fn item_target(item: ScannedPluginFile) -> Seq<char> {
    match item.target_path {
        Some(t) => t@,
        None => Seq::empty(),
    }
}

/// The recorded summary is the summary of these bytes.
pub open spec fn summary_matches(installed: Option<InstalledFileSummary>, bytes: Seq<u8>) -> bool {
    match installed {
        Some(s) => s.size_bytes == bytes.len() && s.sha256@ == hex_lower(spec_sha256(bytes)),
        None => false,
    }
}

/// The choice the applied selection made for the target (the first file there, compared
/// without ASCII case).
pub open spec fn applied_choice_from(files: Seq<PluginFileChoice>, target: Seq<char>, k: int) -> Option<PluginFileChoiceKind>
    decreases files.len() - k,
{
    if k < 0 || k >= files.len() {
        None
    } else if eq_ignore_ascii_case_spec(files[k].target_path@, target) {
        Some(files[k].choice)
    } else {
        applied_choice_from(files, target, k + 1)
    }
}

pub open spec fn applied_choice(applied: Option<PluginSelectionSnapshot>, target: Seq<char>) -> Option<PluginFileChoiceKind> {
    match applied {
        Some(a) => applied_choice_from(a.files@, target, 0),
        None => None,
    }
}

/// The pending selection, when it was made on this very inventory.
pub open spec fn matching_pending(pending: Option<PluginSelectionSnapshot>, inventory_id: Seq<char>) -> Option<
    PluginSelectionSnapshot,
> {
    match pending {
        Some(p) => if p.inventory_id@ == inventory_id {
            Some(p)
        } else {
            None
        },
        None => None,
    }
}

/// The choice the pending selection made for a package file (the first with its id).
pub open spec fn pending_choice_from(files: Seq<PluginFileChoice>, id: Seq<char>, k: int) -> Option<PluginFileChoiceKind>
    decreases files.len() - k,
{
    if k < 0 || k >= files.len() {
        None
    } else if files[k].package_file_id@ == id {
        Some(files[k].choice)
    } else {
        pending_choice_from(files, id, k + 1)
    }
}

pub open spec fn pending_choice(matching: Option<PluginSelectionSnapshot>, id: Seq<char>) -> Option<PluginFileChoiceKind> {
    match matching {
        Some(p) => pending_choice_from(p.files@, id, 0),
        None => None,
    }
}

/// The inventory context: the scope, the manifest, the package selection's exclusions, the
/// applied and the matching pending selection.
pub struct InventoryContext {
    pub scope: PluginSelectionScope,
    pub manifest: Option<InstallManifest>,
    pub excluded: Seq<String>,
    pub applied: Option<PluginSelectionSnapshot>,
    pub matching: Option<PluginSelectionSnapshot>,
}

/// `file` and `cand` are how the kept `item` is offered: the policy's check for a candidate (an
/// attachment counts as policy-excluded), the decision `candidate_decision_spec` takes, and a
/// pending choice on the same inventory overriding the selection where the file is selectable.
pub open spec fn offered(ctx: InventoryContext, item: ScannedPluginFile, file: PluginFileChoice, cand: PluginCandidate) -> bool {
    let bytes = item_bytes(item);
    let check = if item.is_candidate {
        item.check
    } else {
        PluginFileCheck::PolicyExcluded
    };
    let excluded = has_id(ctx.excluded, item.package_file_id@);
    let existing = owner(ctx.manifest, ctx.scope.mod_id@, file);
    let d = candidate_decision_spec(
        check,
        same_revision_spec(ctx.manifest, ctx.scope),
        existing,
        file.source_file,
        excluded,
        applied_choice(ctx.applied, item_target(item)),
    );
    let selected = match pending_choice(ctx.matching, item.package_file_id@) {
        Some(c) => d.selectable && c.included(),
        None => d.selected,
    };
    &&& file.package_file_id@ == item.package_file_id@
    &&& file.target_path@ == item_target(item)
    &&& file.source_file.size_bytes == bytes.len()
    &&& file.source_file.sha256@ == hex_lower(spec_sha256(bytes))
    &&& file.excluded_by_package_selection == excluded
    &&& file.choice == choice_kind_spec(selected, d.retain_only)
    &&& cand.package_file_id@ == item.package_file_id@
    &&& cand.target_path@ == item_target(item)
    &&& cand.size_bytes == bytes.len()
    &&& cand.check == check
    &&& cand.selected == selected
    &&& cand.selectable == d.selectable
    &&& cand.installed == existing is Some
    &&& cand.retain_only == d.retain_only
    &&& cand.excluded_by_package == excluded
}

/// The kept file is the verified, unchanged copy of the manifest entry.
pub open spec fn kept_matches_entry(item: ScannedPluginFile, e: InstallManifestEntry) -> bool {
    &&& item.package_file_id@ == e.package_file_id@
    &&& windows_key(item_target(item)) == windows_key(e.target_path@)
    &&& summary_matches(e.installed_file, item_bytes(item))
}

/// An installed file of the Mod that the policy owns (its target is a plugin or an excluded
/// attachment, or a kept file has its package id) is adopted or not verifiably the unchanged
/// copy of a kept file. Excluding such a file could delete a player's file, so nothing is offered.
pub open spec fn legacy_unverified(
    manifest: Option<InstallManifest>,
    mod_id: Seq<char>,
    owned: Seq<bool>,
    kept: Seq<ScannedPluginFile>,
) -> bool {
    match manifest {
        Some(m) => exists|k: int|
            0 <= k < m.entries@.len() && (#[trigger] m.entries@[k]).mod_id@ == mod_id && ((k < owned.len()
                && owned[k]) || exists|f: int| 0 <= f < kept.len() && kept[f].package_file_id@ == m.entries@[k].package_file_id@)
                && (m.entries@[k].adopted || !exists|f: int| 0 <= f < kept.len() && kept_matches_entry(kept[f], m.entries@[k])),
        None => false,
    }
}

/// The inventory of a scope from the scan: the first scan error; else, when the same revision is
/// installed and an owned installed file is unverified, a refusal; else nothing when the policy
/// cares about no file; else every kept file offered in scan order, under `inventory_id`, with
/// a confirmation required as `confirmation_required_spec` says.
pub open spec fn inventory_outcome(
    ctx: InventoryContext,
    policy_id: Seq<char>,
    policy_version: u32,
    inventory_id: Seq<char>,
    items: Seq<ScannedPluginFile>,
    owned: Seq<bool>,
    r: Result<Option<PluginInventory>, PluginSelectionServiceError>,
) -> bool {
    let kept = kept_view(items);
    match scan_error(items) {
        Some(e) => r == Err::<Option<PluginInventory>, PluginSelectionServiceError>(e),
        None => if same_revision_spec(ctx.manifest, ctx.scope) && legacy_unverified(ctx.manifest, ctx.scope.mod_id@, owned, kept) {
            r == Err::<Option<PluginInventory>, PluginSelectionServiceError>(PluginSelectionServiceError::ManifestUnverified)
        } else if kept.len() == 0 {
            r == Ok::<Option<PluginInventory>, PluginSelectionServiceError>(None)
        } else {
            &&& r matches Ok(Some(inv))
            &&& r->Ok_0->Some_0.selection.scope == ctx.scope
            &&& r->Ok_0->Some_0.selection.policy_id@ == policy_id
            &&& r->Ok_0->Some_0.selection.policy_version == policy_version
            &&& r->Ok_0->Some_0.selection.inventory_id@ == inventory_id
            &&& r->Ok_0->Some_0.selection.files@.len() == kept.len()
            &&& r->Ok_0->Some_0.candidates@.len() == kept.len()
            &&& forall|i: int|
                0 <= i < kept.len() ==> offered(
                    ctx,
                    kept[i],
                    #[trigger] r->Ok_0->Some_0.selection.files@[i],
                    r->Ok_0->Some_0.candidates@[i],
                )
            &&& r->Ok_0->Some_0.confirmation_required == confirmation_required_spec(
                ctx.manifest,
                ctx.scope,
                ctx.matching is Some,
                r->Ok_0->Some_0.candidates@,
                r->Ok_0->Some_0.selection.files@,
            )
        },
    }
}

proof fn lemma_scan_error_prefix(items: Seq<ScannedPluginFile>, k: int)
    requires
        0 <= k <= items.len(),
        scan_error(items.subrange(0, k)) is Some,
    ensures
        scan_error(items) == scan_error(items.subrange(0, k)),
    decreases items.len() - k,
{
    if k < items.len() {
        assert(items.subrange(0, k + 1).drop_last() =~= items.subrange(0, k));
        lemma_scan_error_prefix(items, k + 1);
    } else {
        assert(items.subrange(0, k) =~= items);
    }
}

proof fn lemma_owner_same_keys(entries: Seq<InstallManifestEntry>, mod_id: Seq<char>, a: PluginFileChoice, b: PluginFileChoice, k: int)
    requires
        a.package_file_id@ == b.package_file_id@,
        a.target_path@ == b.target_path@,
    ensures
        first_owner_from(entries, mod_id, a, k) == first_owner_from(entries, mod_id, b, k),
    decreases entries.len() - k,
{
    if 0 <= k < entries.len() {
        lemma_owner_same_keys(entries, mod_id, a, b, k + 1);
    }
}

proof fn lemma_file_from_some(files: Seq<PluginFileChoice>, id: Seq<char>, k: int, j: int)
    requires
        0 <= k <= j < files.len(),
        files[j].package_file_id@ == id,
    ensures
        file_from(files, id, k) is Some,
    decreases j - k,
{
    if files[k].package_file_id@ != id {
        lemma_file_from_some(files, id, k + 1, j);
    }
}

fn applied_choice_exec(applied: &Option<PluginSelectionSnapshot>, target: &str) -> (r: Option<PluginFileChoiceKind>)
    ensures
        r == applied_choice(*applied, target@),
{
    match applied {
        None => None,
        Some(a) => {
            let mut k: usize = 0;
            while k < a.files.len()
                invariant
                    *applied == Some(*a),
                    0 <= k <= a.files@.len(),
                    applied_choice_from(a.files@, target@, 0) == applied_choice_from(a.files@, target@, k as int),
                decreases a.files@.len() - k,
            {
                if eq_ignore_ascii_case(a.files[k].target_path.as_str(), target) {
                    return Some(a.files[k].choice);
                }
                k = k + 1;
            }
            None
        },
    }
}

fn pending_choice_exec(matching: &Option<&PluginSelectionSnapshot>, id: &str) -> (r: Option<PluginFileChoiceKind>)
    ensures
        r == match *matching {
            Some(p) => pending_choice_from(p.files@, id@, 0),
            None => None,
        },
{
    match matching {
        None => None,
        Some(p) => {
            let mut k: usize = 0;
            while k < p.files.len()
                invariant
                    *matching == Some(*p),
                    0 <= k <= p.files@.len(),
                    pending_choice_from(p.files@, id@, 0) == pending_choice_from(p.files@, id@, k as int),
                decreases p.files@.len() - k,
            {
                if str_equal(p.files[k].package_file_id.as_str(), id) {
                    return Some(p.files[k].choice);
                }
                k = k + 1;
            }
            None
        },
    }
}

fn clone_scope(scope: &PluginSelectionScope) -> (r: PluginSelectionScope)
    ensures
        r == *scope,
{
    PluginSelectionScope {
        game_id: scope.game_id.clone(),
        profile_id: scope.profile_id.clone(),
        mod_id: scope.mod_id.clone(),
        revision_id: scope.revision_id.clone(),
    }
}

fn clone_entry(e: &InstallManifestEntry) -> (r: InstallManifestEntry)
    ensures
        r == *e,
{
    InstallManifestEntry {
        target_path: e.target_path.clone(),
        mod_id: e.mod_id.clone(),
        revision_id: clone_opt_string(&e.revision_id),
        package_file_id: e.package_file_id.clone(),
        layer: FileLayer { name: e.layer.name.clone(), priority: e.layer.priority },
        backup_ref: clone_opt_string(&e.backup_ref),
        installed_file: clone_summary_opt(&e.installed_file),
        adopted: e.adopted,
    }
}

/// Whether some kept file is the verified, unchanged copy of entry `e`, or has its package id.
fn kept_facts(files: &Vec<PluginFileChoice>, e: &InstallManifestEntry) -> (r: (bool, bool))
    ensures
        r.0 == exists|f: int| 0 <= f < files@.len() && (#[trigger] files@[f]).package_file_id@ == e.package_file_id@,
        r.1 == exists|f: int|
            0 <= f < files@.len() && (#[trigger] files@[f]).package_file_id@ == e.package_file_id@ && windows_key(
                files@[f].target_path@,
            ) == windows_key(e.target_path@) && crate::plugin::same_summary(e.installed_file, files@[f].source_file),
{
    let mut has_id_match = false;
    let mut verified = false;
    let mut f: usize = 0;
    while f < files.len()
        invariant
            0 <= f <= files@.len(),
            has_id_match == exists|x: int| 0 <= x < f && (#[trigger] files@[x]).package_file_id@ == e.package_file_id@,
            verified == exists|x: int|
                0 <= x < f && (#[trigger] files@[x]).package_file_id@ == e.package_file_id@ && windows_key(
                    files@[x].target_path@,
                ) == windows_key(e.target_path@) && crate::plugin::same_summary(e.installed_file, files@[x].source_file),
        decreases files@.len() - f,
    {
        let file = &files[f];
        if str_equal(file.package_file_id.as_str(), e.package_file_id.as_str()) {
            has_id_match = true;
            if same_windows_key(file.target_path.as_str(), e.target_path.as_str()) && same_summary_exec(
                &e.installed_file,
                &file.source_file,
            ) {
                verified = true;
            }
        }
        f = f + 1;
    }
    (has_id_match, verified)
}

/// The inventory of `scope` from the scanned package files, the package selection's exclusions,
/// the profile's trusted manifest with the selection applied to it, the policy's ownership
/// answer for each manifest entry (in manifest order) and the pending selection; `inventory_id`
/// is the identity the selection snapshot derives from the inventory's facts.
#[verifier::rlimit(60)]
pub fn plugin_inventory_from(
    scope: &PluginSelectionScope,
    policy_id: &str,
    policy_version: u32,
    inventory_id: &str,
    scanned: &Vec<ScannedPluginFile>,
    excluded: &Vec<String>,
    manifest: &Option<InstallManifest>,
    applied: &Option<PluginSelectionSnapshot>,
    entry_policy_owned: &Vec<bool>,
    pending: &Option<PluginSelectionSnapshot>,
) -> (r: Result<Option<PluginInventory>, PluginSelectionServiceError>)
    ensures
        inventory_outcome(
            InventoryContext {
                scope: *scope,
                manifest: *manifest,
                excluded: excluded@,
                applied: *applied,
                matching: matching_pending(*pending, inventory_id@),
            },
            policy_id@,
            policy_version,
            inventory_id@,
            scanned@,
            entry_policy_owned@,
            r,
        ),
{
    let ghost ctx = InventoryContext {
        scope: *scope,
        manifest: *manifest,
        excluded: excluded@,
        applied: *applied,
        matching: matching_pending(*pending, inventory_id@),
    };
    let same = same_revision(manifest, scope);
    let matching: Option<&PluginSelectionSnapshot> = match pending {
        Some(p) => if str_equal(p.inventory_id.as_str(), inventory_id) {
            Some(p)
        } else {
            None
        },
        None => None,
    };
    let mut files: Vec<PluginFileChoice> = Vec::new();
    let mut candidates: Vec<PluginCandidate> = Vec::new();
    let mut k: usize = 0;
    while k < scanned.len()
        invariant
            0 <= k <= scanned@.len(),
            same == same_revision_spec(*manifest, *scope),
            ctx.scope == *scope && ctx.manifest == *manifest && ctx.excluded == excluded@ && ctx.applied == *applied,
            ctx.matching == matching_pending(*pending, inventory_id@),
            match matching {
                Some(p) => ctx.matching == Some(*p),
                None => ctx.matching is None,
            },
            scan_error(scanned@.subrange(0, k as int)) is None,
            files@.len() == kept_view(scanned@.subrange(0, k as int)).len(),
            candidates@.len() == files@.len(),
            forall|i: int|
                0 <= i < files@.len() ==> offered(
                    ctx,
                    kept_view(scanned@.subrange(0, k as int))[i],
                    #[trigger] files@[i],
                    candidates@[i],
                ),
        decreases scanned@.len() - k,
    {
        let ghost before = scanned@.subrange(0, k as int);
        let ghost after = scanned@.subrange(0, k + 1);
        proof {
            assert(after.drop_last() =~= before);
            assert(after.last() == scanned@[k as int]);
        }
        let item = &scanned[k];
        let target = match &item.target_path {
            None => {
                proof {
                    assert(scan_error(after) is Some);
                    lemma_scan_error_prefix(scanned@, k + 1);
                }
                return Err(PluginSelectionServiceError::SourceUnavailable);
            },
            Some(t) => t,
        };
        if !item.is_candidate && !item.is_excluded_attachment {
            proof {
                assert(kept_view(after) == kept_view(before));
            }
            k = k + 1;
            continue;
        }
        let bytes = match &item.read {
            Err(_) => {
                proof {
                    assert(scan_error(after) is Some);
                    lemma_scan_error_prefix(scanned@, k + 1);
                }
                return Err(PluginSelectionServiceError::SourceUnavailable);
            },
            Ok(b) => b,
        };
        if bytes.len() as u128 > u64::MAX as u128 {
            proof {
                assert(scan_error(after) is Some);
                lemma_scan_error_prefix(scanned@, k + 1);
            }
            return Err(PluginSelectionServiceError::SourceUnavailable);
        }
        let summary = summarize(bytes.as_slice());
        let check = if item.is_candidate {
            item.check
        } else {
            PluginFileCheck::PolicyExcluded
        };
        let excluded_by_package = contains_id(excluded, item.package_file_id.as_str());
        let previous = applied_choice_exec(applied, target.as_str());
        let probe = PluginFileChoice {
            package_file_id: item.package_file_id.clone(),
            target_path: target.clone(),
            source_file: crate::plugin::clone_summary(&summary),
            choice: PluginFileChoiceKind::Exclude,
            excluded_by_package_selection: excluded_by_package,
        };
        let position = owner_position(manifest, scope.mod_id.as_str(), &probe);
        let existing = match position {
            Some(p) => Some(clone_entry(&manifest.as_ref().unwrap().entries[p])),
            None => None,
        };
        let decision = candidate_decision(check, same, &existing, &summary, excluded_by_package, previous);
        let selected = match pending_choice_exec(&matching, item.package_file_id.as_str()) {
            Some(c) => decision.selectable && c.is_included(),
            None => decision.selected,
        };
        let file = PluginFileChoice {
            package_file_id: item.package_file_id.clone(),
            target_path: target.clone(),
            source_file: summary,
            choice: choice_kind(selected, decision.retain_only),
            excluded_by_package_selection: excluded_by_package,
        };
        let candidate = PluginCandidate {
            package_file_id: item.package_file_id.clone(),
            target_path: target.clone(),
            size_bytes: bytes.len() as u64,
            check,
            selected,
            selectable: decision.selectable,
            installed: position.is_some(),
            retain_only: decision.retain_only,
            excluded_by_package,
        };
        proof {
            if manifest.is_some() {
                lemma_owner_same_keys(manifest.unwrap().entries@, scope.mod_id@, file, probe, 0);
            }
            assert(owner(*manifest, scope.mod_id@, file) == owner(*manifest, scope.mod_id@, probe));
            assert(offered(ctx, scanned@[k as int], file, candidate));
            assert(kept_view(after) == kept_view(before).push(scanned@[k as int]));
        }
        let ghost files_before = files@;
        let ghost cands_before = candidates@;
        files.push(file);
        candidates.push(candidate);
        proof {
            assert forall|i: int| 0 <= i < files@.len() implies offered(
                ctx,
                kept_view(after)[i],
                #[trigger] files@[i],
                candidates@[i],
            ) by {
                if i < files_before.len() {
                    assert(files@[i] == files_before[i]);
                    assert(candidates@[i] == cands_before[i]);
                }
            }
        }
        k = k + 1;
    }
    proof {
        assert(scanned@.subrange(0, scanned@.len() as int) =~= scanned@);
    }
    let ghost kept = kept_view(scanned@);
    // An installed file the policy owns must be the verified, unchanged copy of a kept file:
    // excluding an unverified one could delete a player's file.
    if same {
        match manifest {
            Some(m) => {
                let mut e: usize = 0;
                while e < m.entries.len()
                    invariant
                        *manifest == Some(*m),
                        same,
                        same == same_revision_spec(*manifest, *scope),
                        scan_error(scanned@) is None,
                        kept == kept_view(scanned@),
                        ctx.scope == *scope && ctx.manifest == *manifest && ctx.excluded == excluded@ && ctx.applied == *applied,
                        ctx.matching == matching_pending(*pending, inventory_id@),
                        match matching {
                            Some(p) => ctx.matching == Some(*p),
                            None => ctx.matching is None,
                        },
                        0 <= e <= m.entries@.len(),
                        files@.len() == kept.len(),
                        candidates@.len() == files@.len(),
                        forall|i: int| 0 <= i < files@.len() ==> offered(ctx, kept[i], #[trigger] files@[i], candidates@[i]),
                        forall|x: int|
                            0 <= x < e ==> !((#[trigger] m.entries@[x]).mod_id@ == scope.mod_id@ && ((x
                                < entry_policy_owned@.len() && entry_policy_owned@[x]) || exists|f: int|
                                0 <= f < kept.len() && kept[f].package_file_id@ == m.entries@[x].package_file_id@)
                                && (m.entries@[x].adopted || !exists|f: int|
                                0 <= f < kept.len() && kept_matches_entry(kept[f], m.entries@[x]))),
                    decreases m.entries@.len() - e,
                {
                    let entry = &m.entries[e];
                    if str_equal(entry.mod_id.as_str(), scope.mod_id.as_str()) {
                        let facts = kept_facts(&files, entry);
                        let owned = (e < entry_policy_owned.len() && entry_policy_owned[e]) || facts.0;
                        proof {
                            assert((exists|f: int| 0 <= f < kept.len() && kept[f].package_file_id@ == entry.package_file_id@)
                                == facts.0) by {
                                if facts.0 {
                                    let f = choose|f: int| 0 <= f < files@.len() && (#[trigger] files@[f]).package_file_id@
                                        == entry.package_file_id@;
                                    assert(offered(ctx, kept[f], files@[f], candidates@[f]));
                                }
                                if exists|f: int| 0 <= f < kept.len() && kept[f].package_file_id@ == entry.package_file_id@ {
                                    let f = choose|f: int| 0 <= f < kept.len() && kept[f].package_file_id@ == entry.package_file_id@;
                                    assert(offered(ctx, kept[f], files@[f], candidates@[f]));
                                }
                            }
                            assert((exists|f: int| 0 <= f < kept.len() && kept_matches_entry(kept[f], *entry)) == facts.1) by {
                                if facts.1 {
                                    let f = choose|f: int|
                                        0 <= f < files@.len() && (#[trigger] files@[f]).package_file_id@ == entry.package_file_id@
                                            && windows_key(files@[f].target_path@) == windows_key(entry.target_path@)
                                            && crate::plugin::same_summary(entry.installed_file, files@[f].source_file);
                                    assert(offered(ctx, kept[f], files@[f], candidates@[f]));
                                    assert(kept_matches_entry(kept[f], *entry));
                                }
                                if exists|f: int| 0 <= f < kept.len() && kept_matches_entry(kept[f], *entry) {
                                    let f = choose|f: int| 0 <= f < kept.len() && kept_matches_entry(kept[f], *entry);
                                    assert(offered(ctx, kept[f], files@[f], candidates@[f]));
                                }
                            }
                        }
                        if owned && (entry.adopted || !facts.1) {
                            proof {
                                assert(legacy_unverified(*manifest, scope.mod_id@, entry_policy_owned@, kept));
                            }
                            return Err(PluginSelectionServiceError::ManifestUnverified);
                        }
                    }
                    e = e + 1;
                }
            },
            None => {},
        }
    }
    if files.len() == 0 {
        return Ok(None);
    }
    proof {
        assert forall|c: int| 0 <= c < candidates@.len() implies file_from(
            files@,
            (#[trigger] candidates@[c]).package_file_id@,
            0,
        ) is Some by {
            assert(offered(ctx, kept[c], files@[c], candidates@[c]));
            lemma_file_from_some(files@, candidates@[c].package_file_id@, 0, c);
        }
    }
    let confirmation = confirmation_required(manifest, scope, matching.is_some(), &candidates, &files);
    let selection = PluginSelectionSnapshot {
        scope: clone_scope(scope),
        policy_id: policy_id.to_owned(),
        policy_version,
        files,
        inventory_id: inventory_id.to_owned(),
    };
    Ok(Some(PluginInventory { selection, candidates, confirmation_required: confirmation }))
}

} // verus!
