//! Applying a plugin selection to an install plan: the Mod's selected files leave the plan, the
//! included ones come back as providers of the Mod (in the layer they are installed in, if any),
//! and conflicts lose the Mod's left-out files; a conflict that still has two providers is kept,
//! and its selected files are not added again. A plan's plugin coverage requires every file the
//! game policy cares about to be included by a selection of its Mod.
use crate::attachments::{
    eq_ignore_ascii_case, eq_ignore_ascii_case_spec, FileLayer, InstallAction, InstallManifest, InstallManifestEntry,
};
use crate::plugin::{PluginFileChoice, PluginSelectionServiceError, PluginSelectionSnapshot};
use crate::text::str_equal;
use vstd::prelude::*;

verus! {

/// Providers of one target that the plan could not order.
#[derive(Debug, Clone, PartialEq, Eq)]
pub struct PlanConflict {
    pub providers: Vec<InstallAction>,
}

/// The providers a selection leaves in a plan, and the conflicts it keeps.
pub struct SelectionProviders {
    pub providers: Vec<InstallAction>,
    pub kept_conflicts: Vec<PlanConflict>,
}

/// Some file of the selection has the id.
pub open spec fn chosen_id(files: Seq<PluginFileChoice>, id: Seq<char>) -> bool {
    exists|k: int| 0 <= k < files.len() && (#[trigger] files[k]).package_file_id@ == id
}

/// The provider is one of the Mod's files that the selection chooses for.
pub open spec fn is_selected_file(files: Seq<PluginFileChoice>, mod_id: Seq<char>, p: InstallAction) -> bool {
    p.mod_id@ == mod_id && chosen_id(files, p.package_file_id@)
}

/// The choice made for an id: the last file of the selection with it.
pub open spec fn last_choice(files: Seq<PluginFileChoice>, id: Seq<char>) -> Option<PluginFileChoice>
    decreases files.len(),
{
    if files.len() == 0 {
        None
    } else if files.last().package_file_id@ == id {
        Some(files.last())
    } else {
        last_choice(files.drop_last(), id)
    }
}

/// A conflict keeps a provider unless it is the Mod's and its file is left out.
pub open spec fn conflict_keeps(files: Seq<PluginFileChoice>, mod_id: Seq<char>, p: InstallAction) -> bool {
    p.mod_id@ != mod_id || match last_choice(files, p.package_file_id@) {
        None => true,
        Some(f) => f.choice.included(),
    }
}

pub open spec fn retained_of(files: Seq<PluginFileChoice>, mod_id: Seq<char>, ps: Seq<InstallAction>) -> Seq<InstallAction>
    decreases ps.len(),
{
    if ps.len() == 0 {
        Seq::empty()
    } else if conflict_keeps(files, mod_id, ps.last()) {
        retained_of(files, mod_id, ps.drop_last()).push(ps.last())
    } else {
        retained_of(files, mod_id, ps.drop_last())
    }
}

/// The plan's actions that are not the Mod's selected files, in plan order.
pub open spec fn unselected(files: Seq<PluginFileChoice>, mod_id: Seq<char>, actions: Seq<InstallAction>) -> Seq<
    InstallAction,
>
    decreases actions.len(),
{
    if actions.len() == 0 {
        Seq::empty()
    } else if !is_selected_file(files, mod_id, actions.last()) {
        unselected(files, mod_id, actions.drop_last()).push(actions.last())
    } else {
        unselected(files, mod_id, actions.drop_last())
    }
}

/// The ids of the selected files among providers, in order.
pub open spec fn selected_ids(files: Seq<PluginFileChoice>, mod_id: Seq<char>, ps: Seq<InstallAction>) -> Seq<Seq<char>>
    decreases ps.len(),
{
    if ps.len() == 0 {
        Seq::empty()
    } else if is_selected_file(files, mod_id, ps.last()) {
        selected_ids(files, mod_id, ps.drop_last()).push(ps.last().package_file_id@)
    } else {
        selected_ids(files, mod_id, ps.drop_last())
    }
}

/// Walking the conflicts in order: the providers a resolved conflict hands back, the conflicts
/// kept, and the ids of selected files that stay in a kept conflict.
pub open spec fn conflict_walk(files: Seq<PluginFileChoice>, mod_id: Seq<char>, conflicts: Seq<PlanConflict>) -> (
    Seq<InstallAction>,
    Seq<Seq<InstallAction>>,
    Seq<Seq<char>>,
)
    decreases conflicts.len(),
{
    if conflicts.len() == 0 {
        (Seq::empty(), Seq::empty(), Seq::empty())
    } else {
        let (back, kept, ids) = conflict_walk(files, mod_id, conflicts.drop_last());
        let retained = retained_of(files, mod_id, conflicts.last().providers@);
        if retained.len() >= 2 {
            (back, kept.push(retained), ids + selected_ids(files, mod_id, retained))
        } else if retained.len() > 0 && retained[0].mod_id@ == mod_id && !is_selected_file(files, mod_id, retained[0]) {
            (back.push(retained[0]), kept, ids)
        } else {
            (back, kept, ids)
        }
    }
}

/// The first manifest entry that installs the file for the Mod in this revision (or in an
/// unrecorded one).
pub open spec fn installed_entry_for(
    entries: Seq<InstallManifestEntry>,
    mod_id: Seq<char>,
    revision_id: Seq<char>,
    id: Seq<char>,
    k: int,
) -> Option<InstallManifestEntry>
    decreases entries.len() - k,
{
    if k < 0 || k >= entries.len() {
        None
    } else if entries[k].mod_id@ == mod_id && entries[k].package_file_id@ == id && match entries[k].revision_id {
        Some(r) => r@ == revision_id,
        None => true,
    } {
        Some(entries[k])
    } else {
        installed_entry_for(entries, mod_id, revision_id, id, k + 1)
    }
}

/// The layer an included file goes into: the one it is installed in, else the requested one.
pub open spec fn layer_for(
    manifest: Option<InstallManifest>,
    mod_id: Seq<char>,
    revision_id: Seq<char>,
    id: Seq<char>,
    layer: FileLayer,
) -> FileLayer {
    match manifest {
        Some(m) => match installed_entry_for(m.entries@, mod_id, revision_id, id, 0) {
            Some(e) => e.layer,
            None => layer,
        },
        None => layer,
    }
}

/// The included files that are not held in a kept conflict, as providers of the Mod.
pub open spec fn included_providers(
    files: Seq<PluginFileChoice>,
    mod_id: Seq<char>,
    revision_id: Seq<char>,
    conflicting: Seq<Seq<char>>,
    manifest: Option<InstallManifest>,
    layer: FileLayer,
) -> Seq<(Seq<char>, Seq<char>, FileLayer)>
    decreases files.len(),
{
    if files.len() == 0 {
        Seq::empty()
    } else {
        let before = included_providers(files.drop_last(), mod_id, revision_id, conflicting, manifest, layer);
        let f = files.last();
        if f.choice.included() && !conflicting.contains(f.package_file_id@) {
            before.push((f.package_file_id@, f.target_path@, layer_for(manifest, mod_id, revision_id, f.package_file_id@, layer)))
        } else {
            before
        }
    }
}

/// `p` is the Mod's provider of the file `(id, target, layer)`.
pub open spec fn provides(p: InstallAction, mod_id: Seq<char>, file: (Seq<char>, Seq<char>, FileLayer)) -> bool {
    p.mod_id@ == mod_id && p.package_file_id@ == file.0 && p.target_path@ == file.1 && p.layer == file.2
}

proof fn lemma_chosen_last(files: Seq<PluginFileChoice>, id: Seq<char>)
    ensures
        last_choice(files, id) is Some <==> chosen_id(files, id),
    decreases files.len(),
{
    if files.len() > 0 {
        lemma_chosen_last(files.drop_last(), id);
        if chosen_id(files, id) && files.last().package_file_id@ != id {
            let k = choose|k: int| 0 <= k < files.len() && (#[trigger] files[k]).package_file_id@ == id;
            assert(files.drop_last()[k] == files[k]);
        }
        if chosen_id(files.drop_last(), id) {
            let k = choose|k: int| 0 <= k < files.len() - 1 && (#[trigger] files.drop_last()[k]).package_file_id@ == id;
            assert(files[k] == files.drop_last()[k]);
        }
    }
}

fn clone_layer(l: &FileLayer) -> (r: FileLayer)
    ensures
        r == *l,
{
    FileLayer { name: l.name.clone(), priority: l.priority }
}

fn clone_action(a: &InstallAction) -> (r: InstallAction)
    ensures
        r == *a,
{
    InstallAction {
        mod_id: a.mod_id.clone(),
        package_file_id: a.package_file_id.clone(),
        target_path: a.target_path.clone(),
        layer: clone_layer(&a.layer),
    }
}

fn last_choice_exec(files: &Vec<PluginFileChoice>, id: &str) -> (r: Option<usize>)
    ensures
        match last_choice(files@, id@) {
            Some(f) => r matches Some(k) && k < files@.len() && files@[k as int] == f,
            None => r is None,
        },
{
    let mut k: usize = files.len();
    proof {
        assert(files@.subrange(0, k as int) =~= files@);
    }
    while k > 0
        invariant
            k <= files@.len(),
            last_choice(files@, id@) == last_choice(files@.subrange(0, k as int), id@),
        decreases k,
    {
        let ghost pre = files@.subrange(0, k as int);
        proof {
            assert(pre.drop_last() =~= files@.subrange(0, k - 1));
        }
        if str_equal(files[k - 1].package_file_id.as_str(), id) {
            return Some(k - 1);
        }
        k = k - 1;
    }
    None
}

fn keeps(files: &Vec<PluginFileChoice>, mod_id: &str, p: &InstallAction) -> (r: bool)
    ensures
        r == conflict_keeps(files@, mod_id@, *p),
{
    if !str_equal(p.mod_id.as_str(), mod_id) {
        return true;
    }
    match last_choice_exec(files, p.package_file_id.as_str()) {
        None => true,
        Some(k) => files[k].choice.is_included(),
    }
}

fn selected(files: &Vec<PluginFileChoice>, mod_id: &str, p: &InstallAction) -> (r: bool)
    ensures
        r == is_selected_file(files@, mod_id@, *p),
{
    proof {
        lemma_chosen_last(files@, p.package_file_id@);
    }
    str_equal(p.mod_id.as_str(), mod_id) && last_choice_exec(files, p.package_file_id.as_str()).is_some()
}

fn layer_exec(
    manifest: &Option<InstallManifest>,
    mod_id: &str,
    revision_id: &str,
    id: &str,
    layer: &FileLayer,
) -> (r: FileLayer)
    ensures
        r == layer_for(*manifest, mod_id@, revision_id@, id@, *layer),
{
    match manifest {
        None => clone_layer(layer),
        Some(m) => {
            let mut k: usize = 0;
            while k < m.entries.len()
                invariant
                    *manifest == Some(*m),
                    0 <= k <= m.entries@.len(),
                    installed_entry_for(m.entries@, mod_id@, revision_id@, id@, 0) == installed_entry_for(
                        m.entries@,
                        mod_id@,
                        revision_id@,
                        id@,
                        k as int,
                    ),
                decreases m.entries@.len() - k,
            {
                let e = &m.entries[k];
                let revision_ok = match &e.revision_id {
                    Some(r) => str_equal(r.as_str(), revision_id),
                    None => true,
                };
                if str_equal(e.mod_id.as_str(), mod_id) && str_equal(e.package_file_id.as_str(), id) && revision_ok {
                    return clone_layer(&e.layer);
                }
                k = k + 1;
            }
            clone_layer(layer)
        },
    }
}

/// What `selection_providers` returns for the selection, the layer, the manifest, the plan's
/// actions and its conflicts.
pub open spec fn selection_applied(
    selection: PluginSelectionSnapshot,
    layer: FileLayer,
    manifest: Option<InstallManifest>,
    actions: Seq<InstallAction>,
    conflicts: Seq<PlanConflict>,
    r: SelectionProviders,
) -> bool {
    let files = selection.files@;
    let mod_id = selection.scope.mod_id@;
    let walk = conflict_walk(files, mod_id, conflicts);
    let base = unselected(files, mod_id, actions) + walk.0;
    let added = included_providers(files, mod_id, selection.scope.revision_id@, walk.2, manifest, layer);
    &&& r.providers@.len() == base.len() + added.len()
    &&& r.providers@.subrange(0, base.len() as int) == base
    &&& forall|i: int| 0 <= i < added.len() ==> provides(#[trigger] r.providers@[base.len() + i], mod_id, added[i])
    &&& r.kept_conflicts@.len() == walk.1.len()
    &&& forall|i: int| 0 <= i < walk.1.len() ==> (#[trigger] r.kept_conflicts@[i]).providers@ == walk.1[i]
}

fn retained_exec(files: &Vec<PluginFileChoice>, mod_id: &str, ps: &Vec<InstallAction>) -> (r: Vec<InstallAction>)
    ensures
        r@ == retained_of(files@, mod_id@, ps@),
{
    let mut out: Vec<InstallAction> = Vec::new();
    let mut t: usize = 0;
    while t < ps.len()
        invariant
            0 <= t <= ps@.len(),
            out@ == retained_of(files@, mod_id@, ps@.subrange(0, t as int)),
        decreases ps@.len() - t,
    {
        proof {
            assert(ps@.subrange(0, t + 1).drop_last() =~= ps@.subrange(0, t as int));
        }
        if keeps(files, mod_id, &ps[t]) {
            out.push(clone_action(&ps[t]));
        }
        t = t + 1;
    }
    proof {
        assert(ps@.subrange(0, ps@.len() as int) =~= ps@);
    }
    out
}

fn contains_text(ids: &Vec<String>, id: &str) -> (r: bool)
    ensures
        r == ids@.map_values(|s: String| s@).contains(id@),
{
    let ghost v = ids@.map_values(|s: String| s@);
    let mut k: usize = 0;
    while k < ids.len()
        invariant
            v == ids@.map_values(|s: String| s@),
            0 <= k <= ids@.len(),
            forall|j: int| 0 <= j < k ==> v[j] != id@,
        decreases ids@.len() - k,
    {
        if str_equal(ids[k].as_str(), id) {
            assert(v[k as int] == id@);
            return true;
        }
        k = k + 1;
    }
    false
}

/// The providers a selection leaves in a plan with these actions and conflicts: the plan's
/// actions but the Mod's selected files; for each conflict in order, the providers it keeps
/// (the Mod's left-out files dropped), kept as a conflict while two remain, else handing back
/// a lone provider of the Mod that the selection does not choose for; then each included file
/// not held in a kept conflict, in the layer it is installed in or else in `layer`.
pub fn selection_providers(
    selection: &PluginSelectionSnapshot,
    layer: &FileLayer,
    manifest: &Option<InstallManifest>,
    actions: &Vec<InstallAction>,
    conflicts: &Vec<PlanConflict>,
) -> (r: SelectionProviders)
    ensures
        selection_applied(*selection, *layer, *manifest, actions@, conflicts@, r),
{
    let files = &selection.files;
    let mod_id = selection.scope.mod_id.as_str();
    let ghost fs = files@;
    let ghost m = mod_id@;
    let mut providers: Vec<InstallAction> = Vec::new();
    let mut k: usize = 0;
    while k < actions.len()
        invariant
            fs == files@,
            m == mod_id@,
            0 <= k <= actions@.len(),
            providers@ == unselected(fs, m, actions@.subrange(0, k as int)),
        decreases actions@.len() - k,
    {
        proof {
            assert(actions@.subrange(0, k + 1).drop_last() =~= actions@.subrange(0, k as int));
            assert(actions@.subrange(0, k + 1).last() == actions@[k as int]);
        }
        if !selected(files, mod_id, &actions[k]) {
            providers.push(clone_action(&actions[k]));
        }
        k = k + 1;
    }
    proof {
        assert(actions@.subrange(0, actions@.len() as int) =~= actions@);
    }
    let ghost base0 = providers@;
    let mut kept: Vec<PlanConflict> = Vec::new();
    let mut conflicting: Vec<String> = Vec::new();
    let mut c: usize = 0;
    while c < conflicts.len()
        invariant
            fs == files@,
            m == mod_id@,
            0 <= c <= conflicts@.len(),
            base0 == unselected(fs, m, actions@),
            providers@ == base0 + conflict_walk(fs, m, conflicts@.subrange(0, c as int)).0,
            kept@.len() == conflict_walk(fs, m, conflicts@.subrange(0, c as int)).1.len(),
            forall|i: int|
                0 <= i < kept@.len() ==> (#[trigger] kept@[i]).providers@ == conflict_walk(
                    fs,
                    m,
                    conflicts@.subrange(0, c as int),
                ).1[i],
            conflicting@.map_values(|s: String| s@) == conflict_walk(fs, m, conflicts@.subrange(0, c as int)).2,
        decreases conflicts@.len() - c,
    {
        let ghost before = conflicts@.subrange(0, c as int);
        let ghost after = conflicts@.subrange(0, c + 1);
        proof {
            assert(after.drop_last() =~= before);
            assert(after.last() == conflicts@[c as int]);
        }
        let ghost w = conflict_walk(fs, m, before);
        let retained = retained_exec(files, mod_id, &conflicts[c].providers);
        proof {
            assert(retained@ == retained_of(fs, m, after.last().providers@));
        }
        if retained.len() >= 2 {
            let ghost ids0 = conflicting@.map_values(|s: String| s@);
            let mut u: usize = 0;
            while u < retained.len()
                invariant
                    fs == files@,
                    m == mod_id@,
                    0 <= u <= retained@.len(),
                    conflicting@.map_values(|s: String| s@) == ids0 + selected_ids(fs, m, retained@.subrange(0, u as int)),
                decreases retained@.len() - u,
            {
                proof {
                    assert(retained@.subrange(0, u + 1).drop_last() =~= retained@.subrange(0, u as int));
                    assert(retained@.subrange(0, u + 1).last() == retained@[u as int]);
                }
                if selected(files, mod_id, &retained[u]) {
                    let ghost prev = conflicting@;
                    conflicting.push(retained[u].package_file_id.clone());
                    proof {
                        assert(conflicting@.map_values(|s: String| s@) =~= prev.map_values(|s: String| s@).push(
                            retained@[u as int].package_file_id@,
                        ));
                        assert(ids0 + selected_ids(fs, m, retained@.subrange(0, u + 1)) =~= (ids0 + selected_ids(
                            fs,
                            m,
                            retained@.subrange(0, u as int),
                        )).push(retained@[u as int].package_file_id@));
                    }
                }
                u = u + 1;
            }
            proof {
                assert(retained@.subrange(0, retained@.len() as int) =~= retained@);
            }
            let ghost kept_before = kept@;
            let ghost kept_one = retained@;
            kept.push(PlanConflict { providers: retained });
            proof {
                assert(conflict_walk(fs, m, after) == (w.0, w.1.push(kept_one), w.2 + selected_ids(fs, m, kept_one)));
                assert forall|i: int| 0 <= i < kept@.len() implies (#[trigger] kept@[i]).providers@ == conflict_walk(
                    fs,
                    m,
                    after,
                ).1[i] by {
                    if i < kept_before.len() {
                        assert(kept@[i] == kept_before[i]);
                    }
                }
            }
        } else if retained.len() > 0 && str_equal(retained[0].mod_id.as_str(), mod_id) && !selected(
            files,
            mod_id,
            &retained[0],
        ) {
            let ghost prev = providers@;
            providers.push(clone_action(&retained[0]));
            proof {
                assert(conflict_walk(fs, m, after) == (w.0.push(retained@[0]), w.1, w.2));
                assert(providers@ =~= base0 + conflict_walk(fs, m, after).0);
            }
        } else {
            proof {
                assert(conflict_walk(fs, m, after) == w);
            }
        }
        c = c + 1;
    }
    proof {
        assert(conflicts@.subrange(0, conflicts@.len() as int) =~= conflicts@);
    }
    let ghost walk = conflict_walk(fs, m, conflicts@);
    let ghost base = base0 + walk.0;
    let revision_id = selection.scope.revision_id.as_str();
    proof {
        assert(providers@ == base);
        assert(providers@.subrange(0, base.len() as int) =~= base);
        assert(fs.subrange(0, 0) =~= Seq::<PluginFileChoice>::empty());
    }
    let mut f: usize = 0;
    while f < files.len()
        invariant
            0 <= f <= fs.len(),
            fs == files@,
            m == mod_id@,
            m == selection.scope.mod_id@,
            revision_id@ == selection.scope.revision_id@,
            conflicting@.map_values(|s: String| s@) == walk.2,
            providers@.len() == base.len() + included_providers(
                fs.subrange(0, f as int),
                m,
                revision_id@,
                walk.2,
                *manifest,
                *layer,
            ).len(),
            providers@.subrange(0, base.len() as int) == base,
            forall|i: int|
                0 <= i < providers@.len() - base.len() ==> provides(
                    #[trigger] providers@[base.len() + i],
                    m,
                    included_providers(fs.subrange(0, f as int), m, revision_id@, walk.2, *manifest, *layer)[i],
                ),
        decreases fs.len() - f,
    {
        let ghost before = fs.subrange(0, f as int);
        let ghost after = fs.subrange(0, f + 1);
        proof {
            assert(after.drop_last() =~= before);
            assert(after.last() == fs[f as int]);
        }
        let file = &files[f];
        if file.choice.is_included() && !contains_text(&conflicting, file.package_file_id.as_str()) {
            let layer_of = layer_exec(manifest, mod_id, revision_id, file.package_file_id.as_str(), layer);
            let ghost prev = providers@;
            providers.push(
                InstallAction {
                    mod_id: selection.scope.mod_id.clone(),
                    package_file_id: file.package_file_id.clone(),
                    target_path: file.target_path.clone(),
                    layer: layer_of,
                },
            );
            proof {
                assert(included_providers(after, m, revision_id@, walk.2, *manifest, *layer) == included_providers(
                    before,
                    m,
                    revision_id@,
                    walk.2,
                    *manifest,
                    *layer,
                ).push((fs[f as int].package_file_id@, fs[f as int].target_path@, layer_of)));
                assert(providers@.subrange(0, base.len() as int) =~= prev.subrange(0, base.len() as int));
                assert forall|i: int| 0 <= i < providers@.len() - base.len() implies provides(
                    #[trigger] providers@[base.len() + i],
                    m,
                    included_providers(after, m, revision_id@, walk.2, *manifest, *layer)[i],
                ) by {
                    if i < prev.len() - base.len() {
                        assert(providers@[base.len() + i] == prev[base.len() + i]);
                    }
                }
            }
        }
        else {
            proof {
                assert(included_providers(after, m, revision_id@, walk.2, *manifest, *layer) == included_providers(
                    before,
                    m,
                    revision_id@,
                    walk.2,
                    *manifest,
                    *layer,
                ));
            }
        }
        f = f + 1;
    }
    proof {
        assert(fs.subrange(0, fs.len() as int) =~= fs);
    }
    SelectionProviders { providers, kept_conflicts: kept }
}

/// The file of a selection covers the action: the same package file, included, at the same
/// target with ASCII case ignored.
pub open spec fn file_covers(file: PluginFileChoice, a: InstallAction) -> bool {
    &&& file.package_file_id@ == a.package_file_id@
    &&& file.choice.included()
    &&& eq_ignore_ascii_case_spec(file.target_path@, a.target_path@)
}

/// Some selection of the action's Mod has a file that covers it.
pub open spec fn covered(selections: Seq<PluginSelectionSnapshot>, a: InstallAction) -> bool {
    exists|s: int, f: int|
        0 <= s < selections.len() && (#[trigger] selections[s]).scope.mod_id@ == a.mod_id@ && 0 <= f
            < selections[s].files@.len() && file_covers(#[trigger] selections[s].files@[f], a)
}

/// The plan's plugin coverage: without a policy for the game, no selection may be recorded;
/// with one, every action whose target the policy cares about must be covered by a selection.
pub open spec fn coverage_holds(
    policy_found: bool,
    actions: Seq<InstallAction>,
    policy_cares: Seq<bool>,
    selections: Seq<PluginSelectionSnapshot>,
) -> bool {
    if !policy_found {
        selections.len() == 0
    } else {
        forall|i: int| 0 <= i < actions.len() && i < policy_cares.len() && policy_cares[i] ==> covered(selections, #[trigger] actions[i])
    }
}

fn covered_exec(selections: &Vec<PluginSelectionSnapshot>, a: &InstallAction) -> (r: bool)
    ensures
        r == covered(selections@, *a),
{
    let mut s: usize = 0;
    while s < selections.len()
        invariant
            0 <= s <= selections@.len(),
            forall|x: int, f: int|
                0 <= x < s && (#[trigger] selections@[x]).scope.mod_id@ == a.mod_id@ && 0 <= f < selections@[x].files@.len()
                    ==> !file_covers(#[trigger] selections@[x].files@[f], *a),
        decreases selections@.len() - s,
    {
        let selection = &selections[s];
        if str_equal(selection.scope.mod_id.as_str(), a.mod_id.as_str()) {
            let mut f: usize = 0;
            while f < selection.files.len()
                invariant
                    s < selections@.len(),
                    *selection == selections@[s as int],
                    selection.scope.mod_id@ == a.mod_id@,
                    0 <= f <= selection.files@.len(),
                    forall|y: int| 0 <= y < f ==> !file_covers(#[trigger] selection.files@[y], *a),
                    forall|x: int, g: int|
                        0 <= x < s && (#[trigger] selections@[x]).scope.mod_id@ == a.mod_id@ && 0 <= g
                            < selections@[x].files@.len() ==> !file_covers(#[trigger] selections@[x].files@[g], *a),
                decreases selection.files@.len() - f,
            {
                let file = &selection.files[f];
                if str_equal(file.package_file_id.as_str(), a.package_file_id.as_str()) && file.choice.is_included()
                    && eq_ignore_ascii_case(file.target_path.as_str(), a.target_path.as_str()) {
                    proof {
                        assert(file_covers(selections@[s as int].files@[f as int], *a));
                    }
                    return true;
                }
                f = f + 1;
            }
        }
        s = s + 1;
    }
    false
}

/// Checks the plan's plugin coverage; `policy_cares[i]` is the game policy's answer for the
/// target of action `i` (a plugin or an excluded attachment).
pub fn plan_coverage(
    policy_found: bool,
    actions: &Vec<InstallAction>,
    policy_cares: &Vec<bool>,
    selections: &Vec<PluginSelectionSnapshot>,
) -> (r: Result<(), PluginSelectionServiceError>)
    ensures
        r is Ok <==> coverage_holds(policy_found, actions@, policy_cares@, selections@),
        r is Err ==> r == Err::<(), _>(PluginSelectionServiceError::InvalidSelection),
{
    if !policy_found {
        return if selections.len() == 0 {
            Ok(())
        } else {
            Err(PluginSelectionServiceError::InvalidSelection)
        };
    }
    let mut i: usize = 0;
    while i < actions.len()
        invariant
            policy_found,
            0 <= i <= actions@.len(),
            forall|j: int| 0 <= j < i && j < policy_cares@.len() && policy_cares@[j] ==> covered(selections@, #[trigger] actions@[j]),
        decreases actions@.len() - i,
    {
        if i < policy_cares.len() && policy_cares[i] && !covered_exec(selections, &actions[i]) {
            return Err(PluginSelectionServiceError::InvalidSelection);
        }
        i = i + 1;
    }
    Ok(())
}

} // verus!
