//! Preflight of a reinstall against what is installed: every installed target of the Mod must
//! still hold exactly the bytes the manifest recorded, its backup reference must be usable,
//! and the files the reinstall will read (current targets and backups) are loaded up front.
use crate::attachments::{kept_action, InstallAction, InstallManifest, InstallManifestEntry};
use crate::library_query::{name_order, sort_by_name};
use crate::metadata::PortFailure;
use crate::projection::indices;
use crate::reinstall::{
    revision_view, summarize, GamePrerequisiteDecision, InstalledFileSummary, ReinstallBlockingReason,
    ReinstallPlanPreview, ReinstallPreviewStatus, ReinstallRevisionSummary, ReinstallTargetClass,
    ReinstallTargetCounts, ReinstallBlockingReasonSummary, id_view, class_count, count_targets,
};
use crate::ids::ModRevisionId;
use crate::metadata::opt_view;
use crate::text::{chars_of, is_blank, is_blank_str, str_equal};
use vstd::prelude::*;

verus! {

/// One target as a reinstall sees it: the revision that put it there, the providers writing
/// it (in manifest order) and the file that ends up there.
pub struct ReinstallTargetState {
    pub target_path: String,
    pub revision_id: String,
    pub providers: Vec<InstallAction>,
    pub final_file: InstalledFileSummary,
}

/// A file read during preflight, with its summary.
pub struct PreparedFile {
    pub summary: InstalledFileSummary,
    pub bytes: Vec<u8>,
}

/// What preflight read: the installed target states in target order, every target file the
/// reinstall touches (absent where the game has no file), and every backup it may restore.
pub struct InstalledPreflight {
    pub states: Vec<ReinstallTargetState>,
    pub target_files: Vec<(String, Option<PreparedFile>)>,
    pub backup_files: Vec<(String, PreparedFile)>,
}

/// Reads files of the game directory.
pub trait InstallGameFileSystem {
    fn read_game_file(&self, target_path: &str) -> Result<Option<Vec<u8>>, PortFailure>;
}

/// Reads stored backups.
pub trait InstallBackupStore {
    fn read_backup(&self, backup_ref: &str) -> Result<Option<Vec<u8>>, PortFailure>;
}

/// The targets of `mod_id`'s entries, each once, in manifest order.
pub open spec fn distinct_targets(entries: Seq<InstallManifestEntry>, mod_id: Seq<char>) -> Seq<Seq<char>>
    decreases entries.len(),
{
    if entries.len() == 0 {
        Seq::empty()
    } else {
        let rest = distinct_targets(entries.drop_last(), mod_id);
        let e = entries.last();
        if e.mod_id@ == mod_id && !rest.contains(e.target_path@) {
            rest.push(e.target_path@)
        } else {
            rest
        }
    }
}

/// The installed targets of `mod_id` in target order.
pub open spec fn installed_targets(entries: Seq<InstallManifestEntry>, mod_id: Seq<char>) -> Seq<Seq<char>> {
    let d = distinct_targets(entries, mod_id);
    name_order(d, d, indices(d.len())).map_values(|i: usize| d[i as int])
}

/// The entries of `mod_id` at `target`, in manifest order.
pub open spec fn target_group(entries: Seq<InstallManifestEntry>, mod_id: Seq<char>, target: Seq<char>) -> Seq<
    InstallManifestEntry,
>
    decreases entries.len(),
{
    if entries.len() == 0 {
        Seq::empty()
    } else {
        let rest = target_group(entries.drop_last(), mod_id, target);
        let e = entries.last();
        if e.mod_id@ == mod_id && e.target_path@ == target {
            rest.push(e)
        } else {
            rest
        }
    }
}

/// Position of the entry whose file ends up at the target: the highest layer priority, the
/// last one among equals.
pub open spec fn winner(group: Seq<InstallManifestEntry>) -> int
    decreases group.len(),
{
    if group.len() <= 1 {
        0
    } else {
        let b = winner(group.drop_last());
        if group.last().layer.priority >= group[b].layer.priority {
            group.len() - 1
        } else {
            b
        }
    }
}

/// The backup references of a group are usable: all present ones are the same, none is blank.
pub open spec fn refs_usable(group: Seq<InstallManifestEntry>) -> bool {
    &&& forall|i: int| 0 <= i < group.len() && (#[trigger] group[i]).backup_ref is Some ==> !is_blank(
        group[i].backup_ref->Some_0@,
    )
    &&& forall|i: int, j: int|
        0 <= i < group.len() && 0 <= j < group.len() && (#[trigger] group[i]).backup_ref is Some && (
        #[trigger] group[j]).backup_ref is Some ==> group[i].backup_ref->Some_0@ == group[j].backup_ref->Some_0@
}

proof fn lemma_winner_in_range(group: Seq<InstallManifestEntry>)
    ensures
        group.len() > 0 ==> 0 <= winner(group) < group.len(),
    decreases group.len(),
{
    if group.len() > 1 {
        lemma_winner_in_range(group.drop_last());
    }
}

fn collect_targets(entries: &Vec<InstallManifestEntry>, mod_id: &str) -> (r: Vec<String>)
    ensures
        r@.map_values(|s: String| s@) == distinct_targets(entries@, mod_id@),
{
    let mut out: Vec<String> = Vec::new();
    let mut i: usize = 0;
    while i < entries.len()
        invariant
            0 <= i <= entries@.len(),
            out@.map_values(|s: String| s@) == distinct_targets(entries@.subrange(0, i as int), mod_id@),
        decreases entries@.len() - i,
    {
        proof {
            assert(entries@.subrange(0, i + 1).drop_last() =~= entries@.subrange(0, i as int));
            assert(entries@.subrange(0, i + 1).last() == entries@[i as int]);
        }
        let e = &entries[i];
        if str_equal(e.mod_id.as_str(), mod_id) {
            let mut seen = false;
            let mut k: usize = 0;
            while k < out.len()
                invariant
                    0 <= k <= out@.len(),
                    seen <==> exists|j: int| 0 <= j < k && (#[trigger] out@[j])@ == e.target_path@,
                decreases out@.len() - k,
            {
                if str_equal(out[k].as_str(), e.target_path.as_str()) {
                    seen = true;
                }
                k = k + 1;
            }
            proof {
                let views = out@.map_values(|s: String| s@);
                if seen {
                    let j = choose|j: int| 0 <= j < out@.len() && (#[trigger] out@[j])@ == e.target_path@;
                    assert(views[j] == e.target_path@);
                } else {
                    assert forall|j: int| 0 <= j < views.len() implies views[j] != e.target_path@ by {
                        assert(out@[j]@ == views[j]);
                    }
                }
            }
            if !seen {
                out.push(e.target_path.clone());
                proof {
                    assert(out@.map_values(|s: String| s@) =~= distinct_targets(
                        entries@.subrange(0, i as int),
                        mod_id@,
                    ).push(e.target_path@));
                }
            }
        }
        i = i + 1;
    }
    proof {
        assert(entries@.subrange(0, entries@.len() as int) =~= entries@);
    }
    out
}

fn group_indices(entries: &Vec<InstallManifestEntry>, mod_id: &str, target: &str) -> (r: Vec<usize>)
    ensures
        r@.len() == target_group(entries@, mod_id@, target@).len(),
        forall|k: int| 0 <= k < r@.len() ==> #[trigger] r@[k] < entries@.len() && entries@[r@[k] as int]
            == target_group(entries@, mod_id@, target@)[k],
{
    let mut out: Vec<usize> = Vec::new();
    let mut i: usize = 0;
    while i < entries.len()
        invariant
            0 <= i <= entries@.len(),
            out@.len() == target_group(entries@.subrange(0, i as int), mod_id@, target@).len(),
            forall|k: int| 0 <= k < out@.len() ==> #[trigger] out@[k] < i && entries@[out@[k] as int]
                == target_group(entries@.subrange(0, i as int), mod_id@, target@)[k],
        decreases entries@.len() - i,
    {
        let ghost before = target_group(entries@.subrange(0, i as int), mod_id@, target@);
        proof {
            assert(entries@.subrange(0, i + 1).drop_last() =~= entries@.subrange(0, i as int));
            assert(entries@.subrange(0, i + 1).last() == entries@[i as int]);
        }
        let e = &entries[i];
        if str_equal(e.mod_id.as_str(), mod_id) && str_equal(e.target_path.as_str(), target) {
            out.push(i);
            proof {
                assert(target_group(entries@.subrange(0, i + 1), mod_id@, target@) == before.push(entries@[i as int]));
            }
        }
        i = i + 1;
    }
    proof {
        assert(entries@.subrange(0, entries@.len() as int) =~= entries@);
    }
    out
}

/// Position, among `group`, of the winning entry.
fn winner_position(entries: &Vec<InstallManifestEntry>, group: &Vec<usize>, ghost_group: Ghost<Seq<InstallManifestEntry>>) -> (r: usize)
    requires
        group@.len() > 0,
        group@.len() == ghost_group@.len(),
        forall|k: int| 0 <= k < group@.len() ==> #[trigger] group@[k] < entries@.len() && entries@[group@[k] as int]
            == ghost_group@[k],
    ensures
        r as int == winner(ghost_group@),
        r < group@.len(),
{
    let ghost g = ghost_group@;
    let mut best: usize = 0;
    let mut k: usize = 1;
    while k < group.len()
        invariant
            g == ghost_group@,
            group@.len() == g.len(),
            forall|x: int| 0 <= x < group@.len() ==> #[trigger] group@[x] < entries@.len() && entries@[group@[x] as int]
                == g[x],
            1 <= k <= g.len(),
            best as int == winner(g.subrange(0, k as int)),
            best < k,
        decreases g.len() - k,
    {
        proof {
            assert(g.subrange(0, k + 1).drop_last() =~= g.subrange(0, k as int));
            assert(g.subrange(0, k + 1).last() == g[k as int]);
            assert(g.subrange(0, k + 1)[best as int] == g[best as int]);
        }
        if entries[group[k]].layer.priority >= entries[group[best]].layer.priority {
            best = k;
        }
        k = k + 1;
    }
    proof {
        assert(g.subrange(0, g.len() as int) =~= g);
    }
    best
}

/// The usable backup reference of a group (`Ok(None)` when it has none), or `Err` when its
/// references are blank or disagree.
fn group_backup_ref(entries: &Vec<InstallManifestEntry>, group: &Vec<usize>, ghost_group: Ghost<Seq<InstallManifestEntry>>) -> (r: Result<
    Option<String>,
    (),
>)
    requires
        group@.len() == ghost_group@.len(),
        forall|k: int| 0 <= k < group@.len() ==> #[trigger] group@[k] < entries@.len() && entries@[group@[k] as int]
            == ghost_group@[k],
    ensures
        r is Ok <==> refs_usable(ghost_group@),
{
    let ghost g = ghost_group@;
    let mut found: Option<String> = None;
    let mut k: usize = 0;
    while k < group.len()
        invariant
            g == ghost_group@,
            group@.len() == g.len(),
            forall|x: int| 0 <= x < group@.len() ==> #[trigger] group@[x] < entries@.len() && entries@[group@[x] as int]
                == g[x],
            0 <= k <= g.len(),
            refs_usable(g.subrange(0, k as int)),
            found is None ==> forall|x: int| 0 <= x < k ==> (#[trigger] g[x]).backup_ref is None,
            found matches Some(f) ==> (exists|x: int| 0 <= x < k && (#[trigger] g[x]).backup_ref is Some
                && g[x].backup_ref->Some_0@ == f@) && forall|x: int|
                0 <= x < k && (#[trigger] g[x]).backup_ref is Some ==> g[x].backup_ref->Some_0@ == f@,
        decreases g.len() - k,
    {
        let ghost prefix = g.subrange(0, k as int);
        let ghost next = g.subrange(0, k + 1);
        match &entries[group[k]].backup_ref {
            None => {
                proof {
                    assert forall|i: int| 0 <= i < next.len() && (#[trigger] next[i]).backup_ref is Some implies !is_blank(
                        next[i].backup_ref->Some_0@,
                    ) by {
                        assert(next[i] == prefix[i]);
                    }
                    assert forall|i: int, j: int|
                        0 <= i < next.len() && 0 <= j < next.len() && (#[trigger] next[i]).backup_ref is Some && (
                        #[trigger] next[j]).backup_ref is Some implies next[i].backup_ref->Some_0@
                        == next[j].backup_ref->Some_0@ by {
                        assert(next[i] == prefix[i]);
                        assert(next[j] == prefix[j]);
                    }
                }
            },
            Some(reference) => {
                if is_blank_str(reference.as_str()) {
                    proof {
                        assert(!refs_usable(g)) by {
                            assert(g[k as int].backup_ref is Some);
                        }
                    }
                    return Err(());
                }
                match &found {
                    Some(f) => {
                        if !str_equal(f.as_str(), reference.as_str()) {
                            proof {
                                let w = choose|x: int| 0 <= x < k && (#[trigger] g[x]).backup_ref is Some
                                    && g[x].backup_ref->Some_0@ == f@;
                                assert(!refs_usable(g)) by {
                                    assert(g[w].backup_ref is Some && g[k as int].backup_ref is Some);
                                }
                            }
                            return Err(());
                        }
                    },
                    None => {
                        found = Some(reference.clone());
                    },
                }
                proof {
                    let f = found->Some_0;
                    assert forall|i: int| 0 <= i < next.len() && (#[trigger] next[i]).backup_ref is Some implies next[i].backup_ref->Some_0@
                        == f@ by {
                        if i < k {
                            assert(next[i] == g[i]);
                        }
                    }
                    assert forall|i: int| 0 <= i < next.len() && (#[trigger] next[i]).backup_ref is Some implies !is_blank(
                        next[i].backup_ref->Some_0@,
                    ) by {
                        if i < k {
                            assert(next[i] == prefix[i]);
                        }
                    }
                    assert(g[k as int].backup_ref->Some_0@ == f@);
                }
            },
        }
        k = k + 1;
    }
    proof {
        assert(g.subrange(0, g.len() as int) =~= g);
    }
    Ok(found)
}

/// The file read at an installed target is the one its state expects.
pub open spec fn fact_matches(fact: (String, Option<PreparedFile>), state: ReinstallTargetState) -> bool {
    &&& fact.0@ == state.target_path@
    &&& fact.1 is Some
    &&& fact.1->Some_0.summary.size_bytes == state.final_file.size_bytes
    &&& fact.1->Some_0.summary.sha256@ == state.final_file.sha256@
}

/// What preflight establishes of installed target `k` when it succeeds.
pub open spec fn state_matches(
    entries: Seq<InstallManifestEntry>,
    mod_id: Seq<char>,
    installed_revision_id: Seq<char>,
    target: Seq<char>,
    state: ReinstallTargetState,
) -> bool {
    let g = target_group(entries, mod_id, target);
    &&& g.len() > 0
    &&& state.target_path@ == target
    &&& state.revision_id@ == installed_revision_id
    &&& g[winner(g)].installed_file == Some(state.final_file)
    &&& refs_usable(g)
    &&& state.providers@ == g.map_values(|e: InstallManifestEntry| kept_action(e))
}

fn actions_of(entries: &Vec<InstallManifestEntry>, group: &Vec<usize>, ghost_group: Ghost<Seq<InstallManifestEntry>>) -> (r: Vec<
    InstallAction,
>)
    requires
        group@.len() == ghost_group@.len(),
        forall|k: int| 0 <= k < group@.len() ==> #[trigger] group@[k] < entries@.len() && entries@[group@[k] as int]
            == ghost_group@[k],
    ensures
        r@ == ghost_group@.map_values(|e: InstallManifestEntry| kept_action(e)),
{
    let mut out: Vec<InstallAction> = Vec::new();
    let mut k: usize = 0;
    while k < group.len()
        invariant
            group@.len() == ghost_group@.len(),
            forall|x: int| 0 <= x < group@.len() ==> #[trigger] group@[x] < entries@.len() && entries@[group@[x] as int]
                == ghost_group@[x],
            0 <= k <= group@.len(),
            out@ == ghost_group@.subrange(0, k as int).map_values(|e: InstallManifestEntry| kept_action(e)),
        decreases group@.len() - k,
    {
        let e = &entries[group[k]];
        let action = InstallAction {
            mod_id: e.mod_id.clone(),
            package_file_id: e.package_file_id.clone(),
            target_path: e.target_path.clone(),
            layer: crate::attachments::FileLayer { name: e.layer.name.clone(), priority: e.layer.priority },
        };
        proof {
            assert(action == kept_action(ghost_group@[k as int]));
        }
        out.push(action);
        proof {
            assert(out@ =~= ghost_group@.subrange(0, k + 1).map_values(|e: InstallManifestEntry| kept_action(e)));
        }
        k = k + 1;
    }
    proof {
        assert(ghost_group@.subrange(0, ghost_group@.len() as int) =~= ghost_group@);
    }
    out
}

fn clone_summary(s: &InstalledFileSummary) -> (r: InstalledFileSummary)
    ensures
        r == *s,
{
    InstalledFileSummary { size_bytes: s.size_bytes, sha256: s.sha256.clone() }
}

fn summaries_equal(a: &InstalledFileSummary, b: &InstalledFileSummary) -> (r: bool)
    ensures
        r == (a.size_bytes == b.size_bytes && a.sha256@ == b.sha256@),
{
    a.size_bytes == b.size_bytes && str_equal(a.sha256.as_str(), b.sha256.as_str())
}

fn read_summarized(bytes: Vec<u8>) -> (r: Option<PreparedFile>)
    ensures
        r is None <==> bytes@.len() > u64::MAX,
        r matches Some(f) ==> f.bytes@ == bytes@ && f.summary.size_bytes == bytes@.len()
            && f.summary.sha256@ == crate::reinstall::hex_lower(crate::reinstall::spec_sha256(bytes@)),
{
    if bytes.len() as u128 > u64::MAX as u128 {
        return None;
    }
    let summary = summarize(bytes.as_slice());
    Some(PreparedFile { summary, bytes })
}


/// A target whose manifest facts cannot be relied on: its winning entry records no installed
/// file, or its backup references disagree or are blank.
pub open spec fn target_unsafe(entries: Seq<InstallManifestEntry>, mod_id: Seq<char>, target: Seq<char>) -> bool {
    let g = target_group(entries, mod_id, target);
    g[winner(g)].installed_file is None || !refs_usable(g)
}

/// The first installed target, in target order, has a winning entry without an installed summary.
pub open spec fn first_target_unsummarized(entries: Seq<InstallManifestEntry>, mod_id: Seq<char>) -> bool {
    let targets = installed_targets(entries, mod_id);
    targets.len() > 0 && {
        let g = target_group(entries, mod_id, targets[0]);
        g[winner(g)].installed_file is None
    }
}

pub open spec fn game_read_view(read: Result<Option<Vec<u8>>, PortFailure>) -> Result<Option<Seq<u8>>, ()> {
    match read {
        Ok(Some(b)) => Ok(Some(b@)),
        Ok(None) => Ok(None),
        Err(_) => Err(()),
    }
}

/// What reading an installed target says: an unreadable file, a missing one, or bytes whose
/// length or SHA-256 differ from the recorded summary (or that cannot be summarized) block the
/// reinstall.
pub open spec fn installed_read_check(read: Result<Option<Seq<u8>>, ()>, expected: InstalledFileSummary) -> Result<
    (),
    ReinstallBlockingReason,
> {
    match read {
        Err(_) => Err(ReinstallBlockingReason::TargetReadFailed),
        Ok(None) => Err(ReinstallBlockingReason::TargetMissing),
        Ok(Some(bytes)) => if bytes.len() <= u64::MAX && bytes.len() == expected.size_bytes && crate::reinstall::hex_lower(
            crate::reinstall::spec_sha256(bytes),
        ) == expected.sha256@ {
            Ok(())
        } else {
            Err(ReinstallBlockingReason::TargetChanged)
        },
    }
}

/// Checks what was read at an installed target against the summary the manifest recorded.
pub fn check_installed_read(read: &Result<Option<Vec<u8>>, PortFailure>, expected: &InstalledFileSummary) -> (r: Result<
    (),
    ReinstallBlockingReason,
>)
    ensures
        r == installed_read_check(game_read_view(*read), *expected),
{
    match read {
        Err(_) => Err(ReinstallBlockingReason::TargetReadFailed),
        Ok(None) => Err(ReinstallBlockingReason::TargetMissing),
        Ok(Some(bytes)) => {
            if bytes.len() as u128 > u64::MAX as u128 {
                return Err(ReinstallBlockingReason::TargetChanged);
            }
            let actual = summarize(bytes.as_slice());
            if summaries_equal(&actual, expected) {
                Ok(())
            } else {
                Err(ReinstallBlockingReason::TargetChanged)
            }
        },
    }
}

/// Reads and checks every installed target of `requested_mod_id`, in target order: the
/// winning entry must record the installed file (else `ManifestStateUnsafe`), the game file
/// must be readable (`TargetReadFailed`), present (`TargetMissing`) and unchanged
/// (`TargetChanged`), and the target's backup references usable (`ManifestStateUnsafe`).
/// Then the candidate's other targets are read as they are (possibly absent), and every
/// backup reference is read (`BackupReadFailed`, `BackupMissing`).
#[verifier::rlimit(60)]
#[verifier::spinoff_prover]
pub fn preflight_installed<G: InstallGameFileSystem, B: InstallBackupStore>(
    game: &G,
    backups: &B,
    requested_mod_id: &str,
    installed_revision_id: &str,
    manifest: &InstallManifest,
    candidate_targets: &Vec<String>,
) -> (r: Result<InstalledPreflight, ReinstallBlockingReason>)
    ensures
        r matches Ok(p) ==> {
            &&& p.states@.len() == installed_targets(manifest.entries@, requested_mod_id@).len()
            &&& forall|k: int|
                0 <= k < p.states@.len() ==> state_matches(
                    manifest.entries@,
                    requested_mod_id@,
                    installed_revision_id@,
                    installed_targets(manifest.entries@, requested_mod_id@)[k],
                    #[trigger] p.states@[k],
                )
            &&& p.target_files@.len() >= p.states@.len()
            &&& forall|k: int|
                0 <= k < p.states@.len() ==> fact_matches(#[trigger] p.target_files@[k], p.states@[k])
        },
        r matches Err(e) ==> (e == ReinstallBlockingReason::ManifestStateUnsafe || e
            == ReinstallBlockingReason::TargetReadFailed || e == ReinstallBlockingReason::TargetMissing || e
            == ReinstallBlockingReason::TargetChanged || e == ReinstallBlockingReason::BackupReadFailed || e
            == ReinstallBlockingReason::BackupMissing),
        r == Err::<InstalledPreflight, _>(ReinstallBlockingReason::ManifestStateUnsafe) ==> exists|k: int|
            0 <= k < installed_targets(manifest.entries@, requested_mod_id@).len() && #[trigger] target_unsafe(
                manifest.entries@,
                requested_mod_id@,
                installed_targets(manifest.entries@, requested_mod_id@)[k],
            ),
        installed_targets(manifest.entries@, requested_mod_id@).len() == 0 && candidate_targets@.len() == 0 ==> r is Ok,
        first_target_unsummarized(manifest.entries@, requested_mod_id@) ==> r == Err::<InstalledPreflight, _>(
            ReinstallBlockingReason::ManifestStateUnsafe,
        ),
{
    let entries = &manifest.entries;
    let ghost ents = entries@;
    let targets = collect_targets(entries, requested_mod_id);
    let ghost d = targets@.map_values(|s: String| s@);
    let mut keys: Vec<Vec<char>> = Vec::new();
    let mut k: usize = 0;
    while k < targets.len()
        invariant
            0 <= k <= targets@.len(),
            keys@.len() == k,
            forall|j: int| 0 <= j < k ==> (#[trigger] keys@[j])@ == targets@[j]@,
        decreases targets@.len() - k,
    {
        keys.push(chars_of(targets[k].as_str()));
        k = k + 1;
    }
    proof {
        assert(keys@.map_values(|v: Vec<char>| v@) =~= d);
    }
    let order = sort_by_name(&keys, &keys, crate::projection::index_vec(targets.len()));
    proof {
        crate::projection::lemma_name_order_in_range(d, indices(d.len()), d.len());
    }
    let ghost ordered = installed_targets(ents, requested_mod_id@);
    proof {
        assert(ordered =~= order@.map_values(|i: usize| d[i as int]));
    }
    let mut states: Vec<ReinstallTargetState> = Vec::new();
    let mut target_files: Vec<(String, Option<PreparedFile>)> = Vec::new();
    let mut backup_refs: Vec<String> = Vec::new();
    let mut j: usize = 0;
    while j < order.len()
        invariant
            entries@ == ents,
            ents == manifest.entries@,
            d == targets@.map_values(|s: String| s@),
            d == distinct_targets(ents, requested_mod_id@),
            ordered == installed_targets(ents, requested_mod_id@),
            ordered.len() == order@.len(),
            forall|x: int| 0 <= x < order@.len() ==> #[trigger] order@[x] < targets@.len(),
            forall|x: int| 0 <= x < order@.len() ==> ordered[x] == d[#[trigger] order@[x] as int],
            0 <= j <= order@.len(),
            states@.len() == j,
            target_files@.len() == j,
            backup_refs@.len() <= j,
            forall|x: int|
                0 <= x < j ==> state_matches(
                    ents,
                    requested_mod_id@,
                    installed_revision_id@,
                    ordered[x],
                    #[trigger] states@[x],
                ),
            forall|x: int|
                0 <= x < j ==> fact_matches(#[trigger] target_files@[x], states@[x]),
            j > 0 ==> !first_target_unsummarized(ents, requested_mod_id@),
        decreases order@.len() - j,
    {
        let target = &targets[order[j]];
        proof {
            assert(target@ == d[order@[j as int] as int]);
            assert(d.contains(target@));
            lemma_distinct_target_has_group(ents, requested_mod_id@, target@);
        }
        let group = group_indices(entries, requested_mod_id, target.as_str());
        let ghost g = target_group(ents, requested_mod_id@, target@);
        let w = winner_position(entries, &group, Ghost(g));
        proof {
            lemma_winner_in_range(g);
        }
        let winner_entry = &entries[group[w]];
        let expected = match &winner_entry.installed_file {
            Some(f) => clone_summary(f),
            None => {
                proof {
                    assert(target_unsafe(ents, requested_mod_id@, ordered[j as int]));
                }
                return Err(ReinstallBlockingReason::ManifestStateUnsafe);
            },
        };
        proof {
            if j == 0 {
                assert(ordered[0] == target@);
                assert(!first_target_unsummarized(ents, requested_mod_id@));
            }
        }
        let read = game.read_game_file(target.as_str());
        match check_installed_read(&read, &expected) {
            Err(e) => {
                return Err(e);
            },
            Ok(()) => {},
        }
        let bytes = match read {
            Ok(Some(b)) => b,
            _ => {
                return Err(ReinstallBlockingReason::TargetReadFailed);
            },
        };
        let current = match read_summarized(bytes) {
            Some(c) => c,
            None => {
                return Err(ReinstallBlockingReason::TargetChanged);
            },
        };
        let reference = match group_backup_ref(entries, &group, Ghost(g)) {
            Ok(r) => r,
            Err(()) => {
                proof {
                    assert(target_unsafe(ents, requested_mod_id@, ordered[j as int]));
                }
                return Err(ReinstallBlockingReason::ManifestStateUnsafe);
            },
        };
        match reference {
            Some(rf) => {
                let mut known = false;
                let mut b: usize = 0;
                while b < backup_refs.len()
                    invariant
                        0 <= b <= backup_refs@.len(),
                    decreases backup_refs@.len() - b,
                {
                    if str_equal(backup_refs[b].as_str(), rf.as_str()) {
                        known = true;
                    }
                    b = b + 1;
                }
                if !known {
                    backup_refs.push(rf);
                }
            },
            None => {},
        }
        let providers = actions_of(entries, &group, Ghost(g));
        let state = ReinstallTargetState {
            target_path: target.clone(),
            revision_id: installed_revision_id.to_owned(),
            providers,
            final_file: expected,
        };
        proof {
            assert(state_matches(ents, requested_mod_id@, installed_revision_id@, ordered[j as int], state));
        }
        states.push(state);
        target_files.push((target.clone(), Some(current)));
        j = j + 1;
    }
    let ghost first_summarized = !first_target_unsummarized(manifest.entries@, requested_mod_id@);
    proof {
        assert(first_summarized);
    }
    let mut c: usize = 0;
    while c < candidate_targets.len()
        invariant
            first_summarized == !first_target_unsummarized(manifest.entries@, requested_mod_id@),
            first_summarized,
            0 <= c <= candidate_targets@.len(),
            backup_refs@.len() <= ordered.len(),
            states@.len() == ordered.len(),
            target_files@.len() >= states@.len(),
            forall|x: int|
                0 <= x < states@.len() ==> fact_matches(#[trigger] target_files@[x], states@[x]),
        decreases candidate_targets@.len() - c,
    {
        let candidate = &candidate_targets[c];
        let mut known = false;
        let mut t: usize = 0;
        while t < target_files.len()
            invariant
                0 <= t <= target_files@.len(),
            decreases target_files@.len() - t,
        {
            if str_equal(target_files[t].0.as_str(), candidate.as_str()) {
                known = true;
            }
            t = t + 1;
        }
        if !known {
            let file = match game.read_game_file(candidate.as_str()) {
                Err(_) => {
                    return Err(ReinstallBlockingReason::TargetReadFailed);
                },
                Ok(None) => None,
                Ok(Some(bytes)) => match read_summarized(bytes) {
                    Some(f) => Some(f),
                    None => {
                        return Err(ReinstallBlockingReason::TargetReadFailed);
                    },
                },
            };
            target_files.push((candidate.clone(), file));
        }
        c = c + 1;
    }
    let mut ref_keys: Vec<Vec<char>> = Vec::new();
    let mut x: usize = 0;
    while x < backup_refs.len()
        invariant
            0 <= x <= backup_refs@.len(),
            ref_keys@.len() == x,
            backup_refs@.len() <= ordered.len(),
        decreases backup_refs@.len() - x,
    {
        ref_keys.push(chars_of(backup_refs[x].as_str()));
        x = x + 1;
    }
    let ref_order = sort_by_name(&ref_keys, &ref_keys, crate::projection::index_vec(backup_refs.len()));
    proof {
        let rk = ref_keys@.map_values(|v: Vec<char>| v@);
        crate::projection::lemma_name_order_in_range(rk, indices(ref_keys@.len()), ref_keys@.len());
        crate::library_query::lemma_name_order_len(rk, rk, indices(ref_keys@.len()));
    }
    let mut backup_files: Vec<(String, PreparedFile)> = Vec::new();
    let mut y: usize = 0;
    while y < ref_order.len()
        invariant
            !first_target_unsummarized(manifest.entries@, requested_mod_id@),
            0 <= y <= ref_order@.len(),
            ref_keys@.len() == backup_refs@.len(),
            ref_order@.len() == backup_refs@.len(),
            backup_refs@.len() <= ordered.len(),
            ordered == installed_targets(manifest.entries@, requested_mod_id@),
            forall|z: int| 0 <= z < ref_order@.len() ==> #[trigger] ref_order@[z] < backup_refs@.len(),
        decreases ref_order@.len() - y,
    {
        let reference = &backup_refs[ref_order[y]];
        let file = match backups.read_backup(reference.as_str()) {
            Err(_) => {
                return Err(ReinstallBlockingReason::BackupReadFailed);
            },
            Ok(None) => {
                return Err(ReinstallBlockingReason::BackupMissing);
            },
            Ok(Some(bytes)) => match read_summarized(bytes) {
                Some(f) => f,
                None => {
                    return Err(ReinstallBlockingReason::BackupReadFailed);
                },
            },
        };
        backup_files.push((reference.clone(), file));
        y = y + 1;
    }
    Ok(InstalledPreflight { states, target_files, backup_files })
}

/// A target listed for the Mod has at least one entry there.
proof fn lemma_distinct_target_has_group(entries: Seq<InstallManifestEntry>, mod_id: Seq<char>, target: Seq<char>)
    requires
        distinct_targets(entries, mod_id).contains(target),
    ensures
        target_group(entries, mod_id, target).len() > 0,
    decreases entries.len(),
{
    if entries.len() > 0 {
        let rest = distinct_targets(entries.drop_last(), mod_id);
        if rest.contains(target) {
            lemma_distinct_target_has_group(entries.drop_last(), mod_id, target);
        } else {
            assert(entries.last().target_path@ == target);
        }
    }
}

/// A candidate package file read for a reinstall: the action that installs it and what it
/// holds.
pub struct PreparedSourceFile {
    pub provider: InstallAction,
    pub summary: InstalledFileSummary,
    pub bytes: Vec<u8>,
}

/// The targets the plan writes, each once, in plan order.
pub open spec fn action_targets(actions: Seq<InstallAction>) -> Seq<Seq<char>>
    decreases actions.len(),
{
    if actions.len() == 0 {
        Seq::empty()
    } else {
        let rest = action_targets(actions.drop_last());
        if rest.contains(actions.last().target_path@) {
            rest
        } else {
            rest.push(actions.last().target_path@)
        }
    }
}

/// The planned targets in target order.
pub open spec fn candidate_targets_in_order(actions: Seq<InstallAction>) -> Seq<Seq<char>> {
    let d = action_targets(actions);
    name_order(d, d, indices(d.len())).map_values(|i: usize| d[i as int])
}

/// Positions of the plan's actions at `target`, in plan order.
pub open spec fn action_group(actions: Seq<InstallAction>, target: Seq<char>) -> Seq<int>
    decreases actions.len(),
{
    if actions.len() == 0 {
        Seq::empty()
    } else {
        let rest = action_group(actions.drop_last(), target);
        if actions.last().target_path@ == target {
            rest.push(actions.len() - 1)
        } else {
            rest
        }
    }
}

/// Position, within `group`, of the action whose file ends up at the target: the highest layer
/// priority, the last one among equals.
pub open spec fn action_winner(actions: Seq<InstallAction>, group: Seq<int>) -> int
    decreases group.len(),
{
    if group.len() <= 1 {
        0
    } else {
        let b = action_winner(actions, group.drop_last());
        if actions[group.last()].layer.priority >= actions[group[b]].layer.priority {
            group.len() - 1
        } else {
            b
        }
    }
}

/// Reads every file the candidate plan installs and describes each planned target: its
/// providers in plan order and the file of the winning provider. An unreadable file is
/// `SourceUnavailable`.
#[verifier::rlimit(60)]
#[verifier::spinoff_prover]
pub fn preload_candidate<S: crate::attachments::CandidateSourceReader>(
    source: &S,
    candidate_revision_id: &str,
    actions: &Vec<InstallAction>,
) -> (r: Result<(Vec<ReinstallTargetState>, Vec<PreparedSourceFile>), ReinstallBlockingReason>)
    ensures
        r matches Ok(v) ==> {
            &&& v.1@.len() == actions@.len()
            &&& forall|k: int| 0 <= k < actions@.len() ==> (#[trigger] v.1@[k]).provider == actions@[k]
            &&& v.0@.len() == candidate_targets_in_order(actions@).len()
            &&& forall|k: int|
                0 <= k < v.0@.len() ==> {
                    let t = candidate_targets_in_order(actions@)[k];
                    let g = action_group(actions@, t);
                    &&& (#[trigger] v.0@[k]).target_path@ == t
                    &&& v.0@[k].revision_id@ == candidate_revision_id@
                    &&& g.len() > 0
                    &&& v.0@[k].providers@ == g.map_values(|i: int| actions@[i])
                    &&& v.0@[k].final_file == v.1@[g[action_winner(actions@, g)]].summary
                }
        },
        r matches Err(e) ==> e == ReinstallBlockingReason::SourceUnavailable,
{
    let mut facts: Vec<PreparedSourceFile> = Vec::new();
    let mut k: usize = 0;
    while k < actions.len()
        invariant
            0 <= k <= actions@.len(),
            facts@.len() == k,
            forall|j: int| 0 <= j < k ==> (#[trigger] facts@[j]).provider == actions@[j],
        decreases actions@.len() - k,
    {
        let action = &actions[k];
        let bytes = match source.read_candidate_source_file(candidate_revision_id, action.package_file_id.as_str()) {
            Ok(b) => b,
            Err(_) => {
                return Err(ReinstallBlockingReason::SourceUnavailable);
            },
        };
        if bytes.len() as u128 > u64::MAX as u128 {
            return Err(ReinstallBlockingReason::SourceUnavailable);
        }
        let summary = summarize(bytes.as_slice());
        let provider = InstallAction {
            mod_id: action.mod_id.clone(),
            package_file_id: action.package_file_id.clone(),
            target_path: action.target_path.clone(),
            layer: crate::attachments::FileLayer { name: action.layer.name.clone(), priority: action.layer.priority },
        };
        facts.push(PreparedSourceFile { provider, summary, bytes });
        k = k + 1;
    }
    let mut targets: Vec<String> = Vec::new();
    let mut i: usize = 0;
    while i < actions.len()
        invariant
            0 <= i <= actions@.len(),
            targets@.map_values(|s: String| s@) == action_targets(actions@.subrange(0, i as int)),
        decreases actions@.len() - i,
    {
        proof {
            assert(actions@.subrange(0, i + 1).drop_last() =~= actions@.subrange(0, i as int));
            assert(actions@.subrange(0, i + 1).last() == actions@[i as int]);
        }
        let t = &actions[i].target_path;
        let mut seen = false;
        let mut x: usize = 0;
        while x < targets.len()
            invariant
                0 <= x <= targets@.len(),
                seen <==> exists|j: int| 0 <= j < x && (#[trigger] targets@[j])@ == t@,
            decreases targets@.len() - x,
        {
            if str_equal(targets[x].as_str(), t.as_str()) {
                seen = true;
            }
            x = x + 1;
        }
        proof {
            let views = targets@.map_values(|s: String| s@);
            if seen {
                let j = choose|j: int| 0 <= j < targets@.len() && (#[trigger] targets@[j])@ == t@;
                assert(views[j] == t@);
            } else {
                assert forall|j: int| 0 <= j < views.len() implies views[j] != t@ by {
                    assert(targets@[j]@ == views[j]);
                }
            }
        }
        if !seen {
            targets.push(t.clone());
            proof {
                assert(targets@.map_values(|s: String| s@) =~= action_targets(actions@.subrange(0, i as int)).push(t@));
            }
        }
        i = i + 1;
    }
    proof {
        assert(actions@.subrange(0, actions@.len() as int) =~= actions@);
    }
    let ghost d = targets@.map_values(|s: String| s@);
    let mut keys: Vec<Vec<char>> = Vec::new();
    let mut y: usize = 0;
    while y < targets.len()
        invariant
            0 <= y <= targets@.len(),
            keys@.len() == y,
            forall|j: int| 0 <= j < y ==> (#[trigger] keys@[j])@ == targets@[j]@,
        decreases targets@.len() - y,
    {
        keys.push(chars_of(targets[y].as_str()));
        y = y + 1;
    }
    proof {
        assert(keys@.map_values(|v: Vec<char>| v@) =~= d);
    }
    let order = sort_by_name(&keys, &keys, crate::projection::index_vec(targets.len()));
    proof {
        crate::projection::lemma_name_order_in_range(d, indices(d.len()), d.len());
    }
    let ghost ordered = candidate_targets_in_order(actions@);
    proof {
        assert(ordered =~= order@.map_values(|i: usize| d[i as int]));
    }
    let mut states: Vec<ReinstallTargetState> = Vec::new();
    let mut j: usize = 0;
    while j < order.len()
        invariant
            d == targets@.map_values(|s: String| s@),
            d == action_targets(actions@),
            ordered == candidate_targets_in_order(actions@),
            ordered.len() == order@.len(),
            facts@.len() == actions@.len(),
            forall|x: int| 0 <= x < actions@.len() ==> (#[trigger] facts@[x]).provider == actions@[x],
            forall|x: int| 0 <= x < order@.len() ==> #[trigger] order@[x] < targets@.len(),
            forall|x: int| 0 <= x < order@.len() ==> ordered[x] == d[#[trigger] order@[x] as int],
            0 <= j <= order@.len(),
            states@.len() == j,
            forall|x: int|
                0 <= x < j ==> {
                    let t = ordered[x];
                    let g = action_group(actions@, t);
                    &&& (#[trigger] states@[x]).target_path@ == t
                    &&& states@[x].revision_id@ == candidate_revision_id@
                    &&& g.len() > 0
                    &&& states@[x].providers@ == g.map_values(|i: int| actions@[i])
                    &&& states@[x].final_file == facts@[g[action_winner(actions@, g)]].summary
                },
        decreases order@.len() - j,
    {
        let target = &targets[order[j]];
        proof {
            assert(target@ == d[order@[j as int] as int]);
            assert(d.contains(target@));
            lemma_action_target_has_group(actions@, target@);
        }
        let ghost g = action_group(actions@, target@);
        let mut group: Vec<usize> = Vec::new();
        let mut providers: Vec<InstallAction> = Vec::new();
        let mut best: usize = 0;
        let mut a: usize = 0;
        while a < actions.len()
            invariant
                0 <= a <= actions@.len(),
                g == action_group(actions@, target@),
                group@.len() == action_group(actions@.subrange(0, a as int), target@).len(),
                forall|x: int| 0 <= x < group@.len() ==> #[trigger] group@[x] as int == action_group(
                    actions@.subrange(0, a as int),
                    target@,
                )[x],
                forall|x: int| 0 <= x < group@.len() ==> #[trigger] group@[x] < a,
                providers@ == action_group(actions@.subrange(0, a as int), target@).map_values(|i: int| actions@[i]),
                group@.len() > 0 ==> best < group@.len() && best as int == action_winner(
                    actions@,
                    action_group(actions@.subrange(0, a as int), target@),
                ),
            decreases actions@.len() - a,
        {
            let ghost before = action_group(actions@.subrange(0, a as int), target@);
            proof {
                assert(actions@.subrange(0, a + 1).drop_last() =~= actions@.subrange(0, a as int));
                assert(actions@.subrange(0, a + 1).last() == actions@[a as int]);
            }
            if str_equal(actions[a].target_path.as_str(), target.as_str()) {
                if group.len() > 0 && actions[a].layer.priority >= actions[group[best]].layer.priority {
                    best = group.len();
                } else if group.len() == 0 {
                    best = 0;
                }
                group.push(a);
                let act = &actions[a];
                providers.push(InstallAction {
                    mod_id: act.mod_id.clone(),
                    package_file_id: act.package_file_id.clone(),
                    target_path: act.target_path.clone(),
                    layer: crate::attachments::FileLayer { name: act.layer.name.clone(), priority: act.layer.priority },
                });
                proof {
                    let after = action_group(actions@.subrange(0, a + 1), target@);
                    assert(after == before.push(a as int));
                    assert(after.drop_last() =~= before);
                    assert(providers@ =~= after.map_values(|i: int| actions@[i]));
                }
            }
            a = a + 1;
        }
        proof {
            assert(actions@.subrange(0, actions@.len() as int) =~= actions@);
        }
        let final_file = clone_summary(&facts[group[best]].summary);
        states.push(ReinstallTargetState {
            target_path: target.clone(),
            revision_id: candidate_revision_id.to_owned(),
            providers,
            final_file,
        });
        j = j + 1;
    }
    Ok((states, facts))
}

/// A planned target has at least one action.
proof fn lemma_action_target_has_group(actions: Seq<InstallAction>, target: Seq<char>)
    requires
        action_targets(actions).contains(target),
    ensures
        action_group(actions, target).len() > 0,
    decreases actions.len(),
{
    if actions.len() > 0 {
        let rest = action_targets(actions.drop_last());
        if rest.contains(target) {
            lemma_action_target_has_group(actions.drop_last(), target);
        } else {
            assert(actions.last().target_path@ == target);
        }
    }
}

/// How a reinstall classified one target.
pub struct ReinstallTargetClassification {
    pub target_path: String,
    pub class: ReinstallTargetClass,
}

/// Everything a reinstall needs about one target: what is there now, what the candidate
/// writes there, and the backup of what the Mod first replaced.
pub struct PreparedReinstallTarget {
    pub target_path: String,
    pub class: ReinstallTargetClass,
    pub pre_file: Option<PreparedFile>,
    pub candidate_files: Vec<PreparedSourceFile>,
    pub original_backup_ref: Option<String>,
    pub original_backup_file: Option<PreparedFile>,
}

pub open spec fn same_file(a: PreparedFile, b: PreparedFile) -> bool {
    a.summary == b.summary && a.bytes@ == b.bytes@
}

pub open spec fn same_opt_file(a: Option<PreparedFile>, b: Option<PreparedFile>) -> bool {
    match (a, b) {
        (Some(x), Some(y)) => same_file(x, y),
        (None, None) => true,
        _ => false,
    }
}

pub open spec fn same_source(a: PreparedSourceFile, b: PreparedSourceFile) -> bool {
    a.provider == b.provider && a.summary == b.summary && a.bytes@ == b.bytes@
}

/// The file recorded for a target path (the first record, as a map keyed by path keeps one).
pub open spec fn target_fact_from(facts: Seq<(String, Option<PreparedFile>)>, path: Seq<char>, k: int) -> Option<
    PreparedFile,
>
    decreases facts.len() - k,
{
    if k < 0 || k >= facts.len() {
        None
    } else if facts[k].0@ == path {
        facts[k].1
    } else {
        target_fact_from(facts, path, k + 1)
    }
}

/// The backup stored under a reference.
pub open spec fn backup_fact_from(facts: Seq<(String, PreparedFile)>, reference: Seq<char>, k: int) -> Option<
    PreparedFile,
>
    decreases facts.len() - k,
{
    if k < 0 || k >= facts.len() {
        None
    } else if facts[k].0@ == reference {
        Some(facts[k].1)
    } else {
        backup_fact_from(facts, reference, k + 1)
    }
}

/// The first backup reference the manifest records for a target path.
pub open spec fn backup_ref_from(entries: Seq<InstallManifestEntry>, path: Seq<char>, k: int) -> Option<Seq<char>>
    decreases entries.len() - k,
{
    if k < 0 || k >= entries.len() {
        None
    } else if entries[k].target_path@ == path && entries[k].backup_ref is Some {
        Some(entries[k].backup_ref.unwrap()@)
    } else {
        backup_ref_from(entries, path, k + 1)
    }
}

/// The candidate files written to a target path, in the order they came.
pub open spec fn sources_at(sources: Seq<PreparedSourceFile>, path: Seq<char>) -> Seq<PreparedSourceFile>
    decreases sources.len(),
{
    if sources.len() == 0 {
        Seq::empty()
    } else if sources.last().provider.target_path@ == path {
        sources_at(sources.drop_last(), path).push(sources.last())
    } else {
        sources_at(sources.drop_last(), path)
    }
}

/// No earlier classification names the same target; only the first one gets the target's
/// facts.
pub open spec fn first_of_target(classes: Seq<ReinstallTargetClassification>, i: int) -> bool {
    forall|j: int| 0 <= j < i ==> (#[trigger] classes[j]).target_path@ != classes[i].target_path@
}

/// `t` is the prepared target for classification `c`.
pub open spec fn target_built(
    t: PreparedReinstallTarget,
    c: ReinstallTargetClassification,
    first: bool,
    entries: Seq<InstallManifestEntry>,
    sources: Seq<PreparedSourceFile>,
    target_facts: Seq<(String, Option<PreparedFile>)>,
    backup_facts: Seq<(String, PreparedFile)>,
) -> bool {
    let path = c.target_path@;
    let expected_sources = if first {
        sources_at(sources, path)
    } else {
        Seq::empty()
    };
    &&& t.target_path@ == path
    &&& t.class == c.class
    &&& same_opt_file(t.pre_file, if first { target_fact_from(target_facts, path, 0) } else { None })
    &&& t.candidate_files@.len() == expected_sources.len()
    &&& forall|j: int| 0 <= j < expected_sources.len() ==> same_source(#[trigger] t.candidate_files@[j], expected_sources[j])
    &&& opt_view(t.original_backup_ref) == backup_ref_from(entries, path, 0)
    &&& same_opt_file(
        t.original_backup_file,
        match backup_ref_from(entries, path, 0) {
            Some(r) => backup_fact_from(backup_facts, r, 0),
            None => None,
        },
    )
}

pub open spec fn class_paths(classes: Seq<ReinstallTargetClassification>) -> Seq<Seq<char>> {
    classes.map_values(|c: ReinstallTargetClassification| c.target_path@)
}

fn clone_file(f: &PreparedFile) -> (r: PreparedFile)
    ensures
        same_file(r, *f),
{
    let bytes = f.bytes.clone();
    proof {
        assert(bytes@ =~= f.bytes@);
    }
    PreparedFile { summary: clone_summary(&f.summary), bytes }
}

fn clone_source(f: &PreparedSourceFile) -> (r: PreparedSourceFile)
    ensures
        same_source(r, *f),
{
    let bytes = f.bytes.clone();
    proof {
        assert(bytes@ =~= f.bytes@);
    }
    let provider = InstallAction {
        mod_id: f.provider.mod_id.clone(),
        package_file_id: f.provider.package_file_id.clone(),
        target_path: f.provider.target_path.clone(),
        layer: crate::attachments::FileLayer { name: f.provider.layer.name.clone(), priority: f.provider.layer.priority },
    };
    PreparedSourceFile { provider, summary: clone_summary(&f.summary), bytes }
}

fn find_target_fact(facts: &Vec<(String, Option<PreparedFile>)>, path: &str) -> (r: Option<PreparedFile>)
    ensures
        same_opt_file(r, target_fact_from(facts@, path@, 0)),
{
    let mut k: usize = 0;
    while k < facts.len()
        invariant
            0 <= k <= facts@.len(),
            target_fact_from(facts@, path@, 0) == target_fact_from(facts@, path@, k as int),
        decreases facts@.len() - k,
    {
        if str_equal(facts[k].0.as_str(), path) {
            return match &facts[k].1 {
                Some(f) => Some(clone_file(f)),
                None => None,
            };
        }
        k = k + 1;
    }
    None
}

fn find_backup_fact(facts: &Vec<(String, PreparedFile)>, reference: &str) -> (r: Option<PreparedFile>)
    ensures
        same_opt_file(r, backup_fact_from(facts@, reference@, 0)),
{
    let mut k: usize = 0;
    while k < facts.len()
        invariant
            0 <= k <= facts@.len(),
            backup_fact_from(facts@, reference@, 0) == backup_fact_from(facts@, reference@, k as int),
        decreases facts@.len() - k,
    {
        if str_equal(facts[k].0.as_str(), reference) {
            return Some(clone_file(&facts[k].1));
        }
        k = k + 1;
    }
    None
}

fn find_backup_ref(entries: &Vec<InstallManifestEntry>, path: &str) -> (r: Option<String>)
    ensures
        opt_view(r) == backup_ref_from(entries@, path@, 0),
{
    let mut k: usize = 0;
    while k < entries.len()
        invariant
            0 <= k <= entries@.len(),
            backup_ref_from(entries@, path@, 0) == backup_ref_from(entries@, path@, k as int),
        decreases entries@.len() - k,
    {
        if str_equal(entries[k].target_path.as_str(), path) {
            match &entries[k].backup_ref {
                Some(reference) => {
                    return Some(reference.clone());
                },
                None => {},
            }
        }
        k = k + 1;
    }
    None
}

fn collect_sources(sources: &Vec<PreparedSourceFile>, path: &str) -> (r: Vec<PreparedSourceFile>)
    ensures
        r@.len() == sources_at(sources@, path@).len(),
        forall|j: int| 0 <= j < r@.len() ==> same_source(#[trigger] r@[j], sources_at(sources@, path@)[j]),
{
    let mut out: Vec<PreparedSourceFile> = Vec::new();
    let mut k: usize = 0;
    while k < sources.len()
        invariant
            0 <= k <= sources@.len(),
            out@.len() == sources_at(sources@.subrange(0, k as int), path@).len(),
            forall|j: int| 0 <= j < out@.len() ==> same_source(#[trigger] out@[j], sources_at(sources@.subrange(0, k as int), path@)[j]),
        decreases sources@.len() - k,
    {
        let ghost before = sources_at(sources@.subrange(0, k as int), path@);
        proof {
            assert(sources@.subrange(0, k + 1).drop_last() =~= sources@.subrange(0, k as int));
            assert(sources@.subrange(0, k + 1).last() == sources@[k as int]);
        }
        if str_equal(sources[k].provider.target_path.as_str(), path) {
            let copy = clone_source(&sources[k]);
            let ghost old_out = out@;
            out.push(copy);
            proof {
                let after = sources_at(sources@.subrange(0, k + 1), path@);
                assert(after == before.push(sources@[k as int]));
                assert forall|j: int| 0 <= j < out@.len() implies same_source(#[trigger] out@[j], after[j]) by {
                    if j < old_out.len() {
                        assert(out@[j] == old_out[j]);
                    }
                }
            }
        }
        k = k + 1;
    }
    proof {
        assert(sources@.subrange(0, sources@.len() as int) =~= sources@);
    }
    out
}

fn is_first_of_target(classes: &Vec<ReinstallTargetClassification>, i: usize) -> (r: bool)
    requires
        i < classes@.len(),
    ensures
        r == first_of_target(classes@, i as int),
{
    let mut j: usize = 0;
    while j < i
        invariant
            i < classes@.len(),
            0 <= j <= i,
            forall|x: int| 0 <= x < j ==> (#[trigger] classes@[x]).target_path@ != classes@[i as int].target_path@,
        decreases i - j,
    {
        if str_equal(classes[j].target_path.as_str(), classes[i].target_path.as_str()) {
            return false;
        }
        j = j + 1;
    }
    true
}

/// The prepared targets of a reinstall, in target order: each classified target with the file
/// now there and the candidate files written to it (both only for the first classification of a
/// path), and the first backup reference the manifest records for the path with its backup.
pub fn build_prepared_targets(
    manifest: &InstallManifest,
    classifications: &Vec<ReinstallTargetClassification>,
    source_files: &Vec<PreparedSourceFile>,
    target_facts: &Vec<(String, Option<PreparedFile>)>,
    backup_facts: &Vec<(String, PreparedFile)>,
) -> (r: Vec<PreparedReinstallTarget>)
    ensures
        r@.len() == classifications@.len(),
        forall|k: int|
            0 <= k < r@.len() ==> {
                let order = name_order(class_paths(classifications@), class_paths(classifications@), indices(classifications@.len()));
                target_built(
                    #[trigger] r@[k],
                    classifications@[order[k] as int],
                    first_of_target(classifications@, order[k] as int),
                    manifest.entries@,
                    source_files@,
                    target_facts@,
                    backup_facts@,
                )
            },
{
    let mut keys: Vec<Vec<char>> = Vec::new();
    let mut k: usize = 0;
    while k < classifications.len()
        invariant
            0 <= k <= classifications@.len(),
            keys@.len() == k,
            forall|j: int| 0 <= j < k ==> (#[trigger] keys@[j])@ == classifications@[j].target_path@,
        decreases classifications@.len() - k,
    {
        keys.push(chars_of(classifications[k].target_path.as_str()));
        k = k + 1;
    }
    let ghost paths = class_paths(classifications@);
    proof {
        assert(keys@.map_values(|v: Vec<char>| v@) =~= paths);
    }
    let order = sort_by_name(&keys, &keys, crate::projection::index_vec(classifications.len()));
    proof {
        crate::projection::lemma_name_order_in_range(paths, indices(classifications@.len()), classifications@.len());
        crate::library_query::lemma_name_order_len(paths, paths, indices(classifications@.len()));
    }
    let mut out: Vec<PreparedReinstallTarget> = Vec::new();
    let mut n: usize = 0;
    while n < order.len()
        invariant
            order@ == name_order(paths, paths, indices(classifications@.len())),
            paths == class_paths(classifications@),
            order@.len() == classifications@.len(),
            forall|x: int| 0 <= x < order@.len() ==> #[trigger] order@[x] < classifications@.len(),
            0 <= n <= order@.len(),
            out@.len() == n,
            forall|x: int|
                0 <= x < n ==> target_built(
                    #[trigger] out@[x],
                    classifications@[order@[x] as int],
                    first_of_target(classifications@, order@[x] as int),
                    manifest.entries@,
                    source_files@,
                    target_facts@,
                    backup_facts@,
                ),
        decreases order@.len() - n,
    {
        let i = order[n];
        let c = &classifications[i];
        let first = is_first_of_target(classifications, i);
        let pre_file = if first {
            find_target_fact(target_facts, c.target_path.as_str())
        } else {
            None
        };
        let candidate_files = if first {
            collect_sources(source_files, c.target_path.as_str())
        } else {
            Vec::new()
        };
        let original_backup_ref = find_backup_ref(&manifest.entries, c.target_path.as_str());
        let original_backup_file = match &original_backup_ref {
            Some(reference) => find_backup_fact(backup_facts, reference.as_str()),
            None => None,
        };
        let target = PreparedReinstallTarget {
            target_path: c.target_path.clone(),
            class: c.class,
            pre_file,
            candidate_files,
            original_backup_ref,
            original_backup_file,
        };
        proof {
            assert(target_built(
                target,
                classifications@[i as int],
                first_of_target(classifications@, i as int),
                manifest.entries@,
                source_files@,
                target_facts@,
                backup_facts@,
            ));
        }
        let ghost old_out = out@;
        out.push(target);
        proof {
            assert forall|x: int| 0 <= x < n + 1 implies target_built(
                #[trigger] out@[x],
                classifications@[order@[x] as int],
                first_of_target(classifications@, order@[x] as int),
                manifest.entries@,
                source_files@,
                target_facts@,
                backup_facts@,
            ) by {
                if x < n {
                    assert(out@[x] == old_out[x]);
                }
            }
        }
        n = n + 1;
    }
    out
}

/// A reinstall that passed preview: the revisions it moves between, what it read and the token
/// that commits it.
pub struct PreparedReinstall {
    pub installed_revision_id: ModRevisionId,
    pub candidate_revision_id: ModRevisionId,
    pub old_manifest: InstallManifest,
    pub source_files: Vec<PreparedSourceFile>,
    pub backup_files: Vec<(String, PreparedFile)>,
    pub targets: Vec<PreparedReinstallTarget>,
    pub counts: ReinstallTargetCounts,
    pub prerequisite_decision: GamePrerequisiteDecision,
    pub plan_token: String,
    pub plan_hash: String,
}

impl PreparedReinstall {
    pub fn plan_token(&self) -> (r: &str)
        ensures
            r@ == self.plan_token@,
    {
        self.plan_token.as_str()
    }
}

/// What preparing a reinstall came to.
pub enum ReinstallPreparation {
    Ready(Box<PreparedReinstall>),
    Blocked(ReinstallPlanPreview),
}

impl ReinstallPreparation {
    /// The preview shown for a preparation: a ready one shows both revisions, its counts and its
    /// token with no blocking reason; a blocked one is its preview.
    pub fn into_preview(self) -> (r: ReinstallPlanPreview)
        ensures
            match self {
                ReinstallPreparation::Ready(p) => {
                    &&& r.status == ReinstallPreviewStatus::Ready
                    &&& r.prerequisite_decision == p.prerequisite_decision
                    &&& revision_view(r.installed_revision) == Some(p.installed_revision_id@)
                    &&& revision_view(r.candidate_revision) == Some(p.candidate_revision_id@)
                    &&& r.counts == p.counts
                    &&& r.blocking_reasons@.len() == 0
                    &&& r.plan_token == Some(p.plan_token)
                },
                ReinstallPreparation::Blocked(preview) => r == preview,
            },
    {
        match self {
            ReinstallPreparation::Ready(prepared) => {
                let p = *prepared;
                ReinstallPlanPreview {
                    status: ReinstallPreviewStatus::Ready,
                    prerequisite_decision: p.prerequisite_decision,
                    installed_revision: Some(ReinstallRevisionSummary { revision_id: p.installed_revision_id }),
                    candidate_revision: Some(ReinstallRevisionSummary { revision_id: p.candidate_revision_id }),
                    counts: p.counts,
                    blocking_reasons: Vec::new(),
                    plan_token: Some(p.plan_token),
                }
            },
            ReinstallPreparation::Blocked(preview) => preview,
        }
    }
}

impl ReinstallPlanPreview {
    /// A preparation blocked by one reason, previewed as `blocked_preview` does.
    pub fn blocked(
        installed_revision: Option<ModRevisionId>,
        candidate_revision: Option<ModRevisionId>,
        reason: ReinstallBlockingReason,
        prerequisite_decision: GamePrerequisiteDecision,
    ) -> (r: ReinstallPreparation)
        ensures
            match r {
                ReinstallPreparation::Blocked(p) => {
                    &&& p.status == ReinstallPreviewStatus::Blocked
                    &&& p.prerequisite_decision == prerequisite_decision
                    &&& revision_view(p.installed_revision) == id_view(installed_revision)
                    &&& revision_view(p.candidate_revision) == id_view(candidate_revision)
                    &&& p.counts == (ReinstallTargetCounts { retained: 0, replaced: 0, added: 0, stale: 0 })
                    &&& p.blocking_reasons@ == seq![ReinstallBlockingReasonSummary { reason, count: 1 }]
                    &&& p.plan_token is None
                },
                ReinstallPreparation::Ready(_) => false,
            },
    {
        ReinstallPreparation::Blocked(
            ReinstallPlanPreview::blocked_preview(installed_revision, candidate_revision, reason, prerequisite_decision),
        )
    }
}

/// Why the targets of a reinstall could not be classified.
#[derive(Debug, Clone, Copy, PartialEq, Eq, Structural)]
pub enum ReinstallClassificationRefusal {
    /// A target belongs to another Mod.
    CrossModTargetOwnership,
    /// The installed and the candidate states disagree in another way.
    Inconsistent,
}

pub open spec fn classification_reason(refusal: ReinstallClassificationRefusal) -> ReinstallBlockingReason {
    match refusal {
        ReinstallClassificationRefusal::CrossModTargetOwnership => ReinstallBlockingReason::CrossModTargetConflict,
        ReinstallClassificationRefusal::Inconsistent => ReinstallBlockingReason::PlanConflict,
    }
}

pub open spec fn classes_of(classifications: Seq<ReinstallTargetClassification>) -> Seq<ReinstallTargetClass> {
    classifications.map_values(|c: ReinstallTargetClassification| c.class)
}

/// The ready preparation of a classified reinstall: both revisions, the manifest and the files
/// read, the counts of each class (summing to the targets), the targets in target order, and
/// the plan token, which is also the plan's hash.
pub open spec fn ready_from(
    p: PreparedReinstall,
    installed: Seq<char>,
    candidate: Seq<char>,
    manifest: InstallManifest,
    classifications: Seq<ReinstallTargetClassification>,
    source_files: Seq<PreparedSourceFile>,
    target_facts: Seq<(String, Option<PreparedFile>)>,
    backup_facts: Seq<(String, PreparedFile)>,
    prerequisite: GamePrerequisiteDecision,
    plan_token: Seq<char>,
) -> bool {
    &&& p.installed_revision_id@ == installed
    &&& p.candidate_revision_id@ == candidate
    &&& p.old_manifest == manifest
    &&& p.source_files@ == source_files
    &&& p.backup_files@ == backup_facts
    &&& p.prerequisite_decision == prerequisite
    &&& p.plan_token@ == plan_token
    &&& p.plan_hash@ == plan_token
    &&& p.counts.retained == class_count(classes_of(classifications), ReinstallTargetClass::Retained)
    &&& p.counts.replaced == class_count(classes_of(classifications), ReinstallTargetClass::Replaced)
    &&& p.counts.added == class_count(classes_of(classifications), ReinstallTargetClass::Added)
    &&& p.counts.stale == class_count(classes_of(classifications), ReinstallTargetClass::Stale)
    &&& p.counts.retained + p.counts.replaced + p.counts.added + p.counts.stale == classifications.len()
    &&& p.targets@.len() == classifications.len()
    &&& forall|k: int|
        0 <= k < p.targets@.len() ==> {
            let order = name_order(class_paths(classifications), class_paths(classifications), indices(classifications.len()));
            target_built(
                #[trigger] p.targets@[k],
                classifications[order[k] as int],
                first_of_target(classifications, order[k] as int),
                manifest.entries@,
                source_files,
                target_facts,
                backup_facts,
            )
        }
}

/// Finishes a reinstall preparation once its targets were classified: a refused
/// classification blocks it with the matching reason; otherwise it is ready, as `ready_from`
/// says, under `plan_token`.
pub fn finish_preparation(
    installed_revision_id: ModRevisionId,
    candidate_revision_id: ModRevisionId,
    manifest: InstallManifest,
    classifications: Result<Vec<ReinstallTargetClassification>, ReinstallClassificationRefusal>,
    source_files: Vec<PreparedSourceFile>,
    target_facts: Vec<(String, Option<PreparedFile>)>,
    backup_facts: Vec<(String, PreparedFile)>,
    prerequisite_decision: GamePrerequisiteDecision,
    plan_token: String,
) -> (r: ReinstallPreparation)
    ensures
        match classifications {
            Err(refusal) => match r {
                ReinstallPreparation::Blocked(p) => {
                    &&& p.status == ReinstallPreviewStatus::Blocked
                    &&& p.prerequisite_decision == prerequisite_decision
                    &&& revision_view(p.installed_revision) == Some(installed_revision_id@)
                    &&& revision_view(p.candidate_revision) == Some(candidate_revision_id@)
                    &&& p.blocking_reasons@ == seq![
                        ReinstallBlockingReasonSummary { reason: classification_reason(refusal), count: 1 },
                    ]
                    &&& p.plan_token is None
                },
                ReinstallPreparation::Ready(_) => false,
            },
            Ok(cls) => match r {
                ReinstallPreparation::Ready(p) => ready_from(
                    *p,
                    installed_revision_id@,
                    candidate_revision_id@,
                    manifest,
                    cls@,
                    source_files@,
                    target_facts@,
                    backup_facts@,
                    prerequisite_decision,
                    plan_token@,
                ),
                ReinstallPreparation::Blocked(_) => false,
            },
        },
{
    let classifications = match classifications {
        Err(refusal) => {
            let reason = match refusal {
                ReinstallClassificationRefusal::CrossModTargetOwnership => ReinstallBlockingReason::CrossModTargetConflict,
                ReinstallClassificationRefusal::Inconsistent => ReinstallBlockingReason::PlanConflict,
            };
            return ReinstallPlanPreview::blocked(
                Some(installed_revision_id),
                Some(candidate_revision_id),
                reason,
                prerequisite_decision,
            );
        },
        Ok(c) => c,
    };
    let mut classes: Vec<ReinstallTargetClass> = Vec::new();
    let mut k: usize = 0;
    while k < classifications.len()
        invariant
            0 <= k <= classifications@.len(),
            classes@ == classes_of(classifications@).subrange(0, k as int),
        decreases classifications@.len() - k,
    {
        classes.push(classifications[k].class);
        proof {
            assert(classes_of(classifications@).subrange(0, k + 1) =~= classes_of(classifications@).subrange(
                0,
                k as int,
            ).push(classifications@[k as int].class));
        }
        k = k + 1;
    }
    proof {
        assert(classes_of(classifications@).subrange(0, classifications@.len() as int) =~= classes_of(classifications@));
    }
    let counts = count_targets(&classes);
    let targets = build_prepared_targets(&manifest, &classifications, &source_files, &target_facts, &backup_facts);
    let plan_hash = plan_token.clone();
    ReinstallPreparation::Ready(
        Box::new(
            PreparedReinstall {
                installed_revision_id,
                candidate_revision_id,
                old_manifest: manifest,
                source_files,
                backup_files: backup_facts,
                targets,
                counts,
                prerequisite_decision,
                plan_token,
                plan_hash,
            },
        ),
    )
}

} // verus!
