//! Installed attachments across a same-revision reinstall: every installed file of the mod
//! must be accounted for by the new plan or by a policy exclusion, and an excluded file the
//! current installation verifiably owns is kept installed.
use crate::metadata::{opt_view, PortFailure};
use crate::profile::{windows_char, windows_path_char, char_from_ascii};
use crate::reinstall::{hex_lower, spec_sha256, summarize, InstalledFileSummary, ReinstallBlockingReason};
use crate::text::{chars_of, str_equal};
use vstd::prelude::*;

verus! {

/// The layer a file is installed in.
#[derive(Debug, Clone, PartialEq, Eq)]
pub struct FileLayer {
    pub name: String,
    pub priority: i32,
}

/// One installed file of the install manifest.
#[derive(Debug, Clone, PartialEq, Eq)]
pub struct InstallManifestEntry {
    pub target_path: String,
    pub mod_id: String,
    pub revision_id: Option<String>,
    pub package_file_id: String,
    pub layer: FileLayer,
    pub backup_ref: Option<String>,
    pub installed_file: Option<InstalledFileSummary>,
    pub adopted: bool,
}

/// What a profile has installed.
#[derive(Debug, Clone, PartialEq, Eq)]
pub struct InstallManifest {
    pub profile_id: String,
    pub entries: Vec<InstallManifestEntry>,
}

/// One file an install plan writes.
#[derive(Debug, Clone, PartialEq, Eq)]
pub struct InstallAction {
    pub mod_id: String,
    pub package_file_id: String,
    pub target_path: String,
    pub layer: FileLayer,
}

#[derive(Debug, Clone, PartialEq, Eq)]
pub struct InstallPlan {
    pub actions: Vec<InstallAction>,
}

/// Why a retargeting policy leaves a package file out of the plan.
#[derive(Debug, Clone, Copy, PartialEq, Eq, Structural)]
pub enum RetargetExclusionReason {
    ExecutableOrScript,
}

/// A package file the policy excluded, with the path it was installed to before.
#[derive(Debug, Clone, PartialEq, Eq)]
pub struct RetargetPolicyExcludedFile {
    pub package_file_id: String,
    pub original_path: String,
    pub reason: RetargetExclusionReason,
}

#[derive(Debug, Clone, Copy, PartialEq, Eq, Structural)]
pub struct ReinstallAttachmentCounts {
    pub retained: usize,
    pub excluded: usize,
}

pub struct AttachmentRetention {
    pub counts: ReinstallAttachmentCounts,
    pub retained_targets: Vec<String>,
}

/// Reads a file of the candidate revision's package.
pub trait CandidateSourceReader {
    fn read_candidate_source_file(&self, candidate_revision_id: &str, package_file_id: &str) -> Result<
        Vec<u8>,
        PortFailure,
    >;
}

/// How Windows identifies a path: `\` is `/` and ASCII letters ignore case.
pub open spec fn windows_key(path: Seq<char>) -> Seq<char> {
    path.map_values(|c: char| windows_path_char(c))
}

pub open spec fn ascii_lower(c: char) -> char {
    if 'A' <= c && c <= 'Z' {
        ((c as u32) + 32) as char
    } else {
        c
    }
}

/// Equality of two texts with ASCII letters compared without case.
pub open spec fn eq_ignore_ascii_case_spec(a: Seq<char>, b: Seq<char>) -> bool {
    a.len() == b.len() && forall|k: int| 0 <= k < a.len() ==> ascii_lower(#[trigger] a[k]) == ascii_lower(b[k])
}

fn ascii_lower_char(c: char) -> (r: char)
    ensures
        r == ascii_lower(c),
{
    if 'A' <= c && c <= 'Z' {
        let u = (c as u32) + 32;
        char_from_ascii(u)
    } else {
        c
    }
}

pub fn eq_ignore_ascii_case(a: &str, b: &str) -> (r: bool)
    ensures
        r == eq_ignore_ascii_case_spec(a@, b@),
{
    let x = chars_of(a);
    let y = chars_of(b);
    if x.len() != y.len() {
        return false;
    }
    let mut k: usize = 0;
    while k < x.len()
        invariant
            x@ == a@,
            y@ == b@,
            x@.len() == y@.len(),
            0 <= k <= x@.len(),
            forall|j: int| 0 <= j < k ==> ascii_lower(#[trigger] x@[j]) == ascii_lower(y@[j]),
        decreases x@.len() - k,
    {
        if ascii_lower_char(x[k]) != ascii_lower_char(y[k]) {
            return false;
        }
        k = k + 1;
    }
    true
}

/// Whether two paths name the same file on Windows.
pub fn same_windows_key(a: &str, b: &str) -> (r: bool)
    ensures
        r == (windows_key(a@) == windows_key(b@)),
{
    let x = chars_of(a);
    let y = chars_of(b);
    if x.len() != y.len() {
        proof {
            assert(windows_key(a@).len() != windows_key(b@).len());
        }
        return false;
    }
    let mut k: usize = 0;
    while k < x.len()
        invariant
            x@ == a@,
            y@ == b@,
            x@.len() == y@.len(),
            0 <= k <= x@.len(),
            forall|j: int| 0 <= j < k ==> windows_path_char(#[trigger] x@[j]) == windows_path_char(y@[j]),
        decreases x@.len() - k,
    {
        if windows_char(x[k]) != windows_char(y[k]) {
            proof {
                assert(windows_key(a@)[k as int] != windows_key(b@)[k as int]);
            }
            return false;
        }
        k = k + 1;
    }
    proof {
        assert(windows_key(a@) =~= windows_key(b@));
    }
    true
}

/// Every installed file of `mod_id` is written by the plan or excluded by the policy.
pub open spec fn inventory_complete(
    mod_id: Seq<char>,
    entries: Seq<InstallManifestEntry>,
    actions: Seq<InstallAction>,
    exclusions: Seq<RetargetPolicyExcludedFile>,
) -> bool {
    forall|i: int|
        0 <= i < entries.len() && (#[trigger] entries[i]).mod_id@ == mod_id ==> ((exists|a: int|
            0 <= a < actions.len() && (#[trigger] actions[a]).package_file_id@ == entries[i].package_file_id@)
            || (exists|x: int|
            0 <= x < exclusions.len() && (#[trigger] exclusions[x]).package_file_id@
                == entries[i].package_file_id@))
}

fn plan_or_exclusion_has(
    actions: &Vec<InstallAction>,
    exclusions: &Vec<RetargetPolicyExcludedFile>,
    package_file_id: &str,
) -> (r: bool)
    ensures
        r == ((exists|a: int|
            0 <= a < actions@.len() && (#[trigger] actions@[a]).package_file_id@ == package_file_id@)
            || (exists|x: int|
            0 <= x < exclusions@.len() && (#[trigger] exclusions@[x]).package_file_id@
                == package_file_id@)),
{
    let mut a: usize = 0;
    while a < actions.len()
        invariant
            0 <= a <= actions@.len(),
            forall|j: int| 0 <= j < a ==> (#[trigger] actions@[j]).package_file_id@ != package_file_id@,
        decreases actions@.len() - a,
    {
        if str_equal(actions[a].package_file_id.as_str(), package_file_id) {
            return true;
        }
        a = a + 1;
    }
    let mut x: usize = 0;
    while x < exclusions.len()
        invariant
            0 <= x <= exclusions@.len(),
            forall|j: int| 0 <= j < actions@.len() ==> (#[trigger] actions@[j]).package_file_id@ != package_file_id@,
            forall|j: int| 0 <= j < x ==> (#[trigger] exclusions@[j]).package_file_id@ != package_file_id@,
        decreases exclusions@.len() - x,
    {
        if str_equal(exclusions[x].package_file_id.as_str(), package_file_id) {
            return true;
        }
        x = x + 1;
    }
    false
}

/// A complete same-revision inventory says where each installed file of the mod goes: a
/// package file that disappeared from the source cannot pass as a policy deletion.
pub fn verify_retarget_inventory(
    mod_id: &str,
    manifest: &InstallManifest,
    plan: &InstallPlan,
    exclusions: &Vec<RetargetPolicyExcludedFile>,
) -> (r: Result<(), ReinstallBlockingReason>)
    ensures
        r is Ok <==> inventory_complete(mod_id@, manifest.entries@, plan.actions@, exclusions@),
        r matches Err(e) ==> e == ReinstallBlockingReason::SourceUnavailable,
{
    let entries = &manifest.entries;
    let mut i: usize = 0;
    while i < entries.len()
        invariant
            entries@ == manifest.entries@,
            0 <= i <= entries@.len(),
            forall|j: int|
                0 <= j < i && (#[trigger] entries@[j]).mod_id@ == mod_id@ ==> ((exists|a: int|
                    0 <= a < plan.actions@.len() && (#[trigger] plan.actions@[a]).package_file_id@
                        == entries@[j].package_file_id@) || (exists|x: int|
                    0 <= x < exclusions@.len() && (#[trigger] exclusions@[x]).package_file_id@
                        == entries@[j].package_file_id@)),
        decreases entries@.len() - i,
    {
        let entry = &entries[i];
        if str_equal(entry.mod_id.as_str(), mod_id) && !plan_or_exclusion_has(
            &plan.actions,
            exclusions,
            entry.package_file_id.as_str(),
        ) {
            proof {
                assert(entries@[i as int].mod_id@ == mod_id@);
                assert(manifest.entries@[i as int].mod_id@ == mod_id@);
                assert(!inventory_complete(mod_id@, manifest.entries@, plan.actions@, exclusions@));
            }
            return Err(ReinstallBlockingReason::SourceUnavailable);
        }
        i = i + 1;
    }
    Ok(())
}

/// Indices of the entries of `mod_id` an excluded file may refer to: the same package file,
/// or the same target as its original path.
pub open spec fn matching_entries(
    entries: Seq<InstallManifestEntry>,
    mod_id: Seq<char>,
    file: RetargetPolicyExcludedFile,
) -> Seq<int>
    decreases entries.len(),
{
    if entries.len() == 0 {
        Seq::empty()
    } else {
        let rest = matching_entries(entries.drop_last(), mod_id, file);
        let e = entries.last();
        if e.mod_id@ == mod_id && (e.package_file_id@ == file.package_file_id@ || windows_key(e.target_path@)
            == windows_key(file.original_path@)) {
            rest.push(entries.len() - 1)
        } else {
            rest
        }
    }
}

/// Progress through the exclusions: package file ids seen, original-path keys seen, the plan
/// so far, and how many files were left excluded and how many retained.
pub type RetentionProgress = (Set<Seq<char>>, Set<Seq<char>>, Seq<InstallAction>, nat, nat);

/// The plan action that keeps an installed entry in place.
pub open spec fn kept_action(entry: InstallManifestEntry) -> InstallAction {
    InstallAction {
        mod_id: entry.mod_id,
        package_file_id: entry.package_file_id,
        target_path: entry.target_path,
        layer: entry.layer,
    }
}

/// What one excluded file leads to, before its bytes are compared: `Ok(None)` when the mod has
/// no installed entry for it (it stays excluded), `Ok(Some(i))` when entry `i` is to be kept,
/// or the reason the reinstall is blocked.
pub open spec fn attachment_step(
    entries: Seq<InstallManifestEntry>,
    mod_id: Seq<char>,
    candidate_revision_id: Seq<char>,
    verified_original: bool,
    progress: RetentionProgress,
    file: RetargetPolicyExcludedFile,
) -> Result<Option<int>, ReinstallBlockingReason> {
    let m = matching_entries(entries, mod_id, file);
    if progress.0.contains(file.package_file_id@) || progress.1.contains(windows_key(file.original_path@)) {
        Err(ReinstallBlockingReason::CandidateNotReady)
    } else if m.len() == 0 {
        Ok(None)
    } else if m.len() > 1 {
        Err(ReinstallBlockingReason::InstalledAttachmentUnverified)
    } else {
        let e = entries[m[0]];
        if e.adopted || e.package_file_id@ != file.package_file_id@ || !eq_ignore_ascii_case_spec(
            e.target_path@,
            file.original_path@,
        ) || (opt_view(e.revision_id) != Some(candidate_revision_id) && !(e.revision_id is None
            && verified_original)) {
            Err(ReinstallBlockingReason::InstalledAttachmentUnverified)
        } else if exists|o: int|
            0 <= o < entries.len() && (#[trigger] entries[o]).mod_id@ != mod_id && windows_key(
                entries[o].target_path@,
            ) == windows_key(e.target_path@) {
            Err(ReinstallBlockingReason::CrossModTargetConflict)
        } else if exists|a: int|
            0 <= a < progress.2.len() && windows_key((#[trigger] progress.2[a]).target_path@)
                == windows_key(e.target_path@) {
            Err(ReinstallBlockingReason::PlanConflict)
        } else if e.installed_file is None {
            Err(ReinstallBlockingReason::InstalledAttachmentUnverified)
        } else {
            Ok(Some(m[0]))
        }
    }
}

pub open spec fn initial_progress(actions: Seq<InstallAction>) -> RetentionProgress {
    (
        Set::new(|id: Seq<char>| exists|a: int| 0 <= a < actions.len() && (#[trigger] actions[a]).package_file_id@ == id),
        Set::empty(),
        actions,
        0,
        0,
    )
}

/// Progress after `file` led to `step` (and, for a kept entry, its bytes matched).
pub open spec fn advance(
    entries: Seq<InstallManifestEntry>,
    progress: RetentionProgress,
    file: RetargetPolicyExcludedFile,
    step: Option<int>,
) -> RetentionProgress {
    let ids = progress.0.insert(file.package_file_id@);
    let paths = progress.1.insert(windows_key(file.original_path@));
    match step {
        None => (ids, paths, progress.2, progress.3 + 1, progress.4),
        Some(i) => (ids, paths, progress.2.push(kept_action(entries[i])), progress.3, progress.4 + 1),
    }
}

/// Progress after the first `k` exclusions, every kept entry's bytes having matched; an error
/// is the first blocking reason met.
pub open spec fn retention_progress(
    entries: Seq<InstallManifestEntry>,
    mod_id: Seq<char>,
    candidate_revision_id: Seq<char>,
    verified_original: bool,
    actions: Seq<InstallAction>,
    exclusions: Seq<RetargetPolicyExcludedFile>,
    k: nat,
) -> Result<RetentionProgress, ReinstallBlockingReason>
    decreases k,
{
    if k == 0 {
        Ok(initial_progress(actions))
    } else {
        match retention_progress(
            entries,
            mod_id,
            candidate_revision_id,
            verified_original,
            actions,
            exclusions,
            (k - 1) as nat,
        ) {
            Err(e) => Err(e),
            Ok(p) => match attachment_step(
                entries,
                mod_id,
                candidate_revision_id,
                verified_original,
                p,
                exclusions[k - 1],
            ) {
                Err(e) => Err(e),
                Ok(step) => Ok(advance(entries, p, exclusions[k - 1], step)),
            },
        }
    }
}

fn summaries_equal(a: &InstalledFileSummary, b: &InstalledFileSummary) -> (r: bool)
    ensures
        r == (a.size_bytes == b.size_bytes && a.sha256@ == b.sha256@),
{
    a.size_bytes == b.size_bytes && str_equal(a.sha256.as_str(), b.sha256.as_str())
}

fn string_set_contains(items: &Vec<String>, item: &str) -> (r: bool)
    ensures
        r == (exists|k: int| 0 <= k < items@.len() && (#[trigger] items@[k])@ == item@),
{
    let mut k: usize = 0;
    while k < items.len()
        invariant
            0 <= k <= items@.len(),
            forall|j: int| 0 <= j < k ==> (#[trigger] items@[j])@ != item@,
        decreases items@.len() - k,
    {
        if str_equal(items[k].as_str(), item) {
            return true;
        }
        k = k + 1;
    }
    false
}

fn key_set_contains(paths: &Vec<String>, path: &str) -> (r: bool)
    ensures
        r == (exists|k: int| 0 <= k < paths@.len() && windows_key((#[trigger] paths@[k])@) == windows_key(path@)),
{
    let mut k: usize = 0;
    while k < paths.len()
        invariant
            0 <= k <= paths@.len(),
            forall|j: int| 0 <= j < k ==> windows_key((#[trigger] paths@[j])@) != windows_key(path@),
        decreases paths@.len() - k,
    {
        if same_windows_key(paths[k].as_str(), path) {
            return true;
        }
        k = k + 1;
    }
    false
}

fn matching_entry_indices(entries: &Vec<InstallManifestEntry>, mod_id: &str, file: &RetargetPolicyExcludedFile) -> (r:
    Vec<usize>)
    ensures
        r@.len() == matching_entries(entries@, mod_id@, *file).len(),
        forall|j: int| 0 <= j < r@.len() ==> #[trigger] r@[j] as int == matching_entries(entries@, mod_id@, *file)[j],
        forall|j: int| 0 <= j < r@.len() ==> #[trigger] r@[j] < entries@.len(),
{
    let mut out: Vec<usize> = Vec::new();
    let mut i: usize = 0;
    while i < entries.len()
        invariant
            0 <= i <= entries@.len(),
            out@.len() == matching_entries(entries@.subrange(0, i as int), mod_id@, *file).len(),
            forall|j: int|
                0 <= j < out@.len() ==> #[trigger] out@[j] as int == matching_entries(
                    entries@.subrange(0, i as int),
                    mod_id@,
                    *file,
                )[j],
            forall|j: int| 0 <= j < out@.len() ==> #[trigger] out@[j] < i,
        decreases entries@.len() - i,
    {
        let ghost before = matching_entries(entries@.subrange(0, i as int), mod_id@, *file);
        proof {
            assert(entries@.subrange(0, i + 1).drop_last() =~= entries@.subrange(0, i as int));
            assert(entries@.subrange(0, i + 1).last() == entries@[i as int]);
        }
        let e = &entries[i];
        if str_equal(e.mod_id.as_str(), mod_id) && (str_equal(
            e.package_file_id.as_str(),
            file.package_file_id.as_str(),
        ) || same_windows_key(e.target_path.as_str(), file.original_path.as_str())) {
            out.push(i);
            proof {
                assert(matching_entries(entries@.subrange(0, i + 1), mod_id@, *file) == before.push(i as int));
            }
        }
        i = i + 1;
    }
    proof {
        assert(entries@.subrange(0, entries@.len() as int) =~= entries@);
    }
    out
}

fn other_mod_targets(entries: &Vec<InstallManifestEntry>, mod_id: &str, target: &str) -> (r: bool)
    ensures
        r == (exists|o: int|
            0 <= o < entries@.len() && (#[trigger] entries@[o]).mod_id@ != mod_id@ && windows_key(
                entries@[o].target_path@,
            ) == windows_key(target@)),
{
    let mut o: usize = 0;
    while o < entries.len()
        invariant
            0 <= o <= entries@.len(),
            forall|j: int|
                0 <= j < o ==> !((#[trigger] entries@[j]).mod_id@ != mod_id@ && windows_key(
                    entries@[j].target_path@,
                ) == windows_key(target@)),
        decreases entries@.len() - o,
    {
        if !str_equal(entries[o].mod_id.as_str(), mod_id) && same_windows_key(
            entries[o].target_path.as_str(),
            target,
        ) {
            return true;
        }
        o = o + 1;
    }
    false
}

fn plan_targets(actions: &Vec<InstallAction>, target: &str) -> (r: bool)
    ensures
        r == (exists|a: int|
            0 <= a < actions@.len() && windows_key((#[trigger] actions@[a]).target_path@) == windows_key(
                target@,
            )),
{
    let mut a: usize = 0;
    while a < actions.len()
        invariant
            0 <= a <= actions@.len(),
            forall|j: int| 0 <= j < a ==> windows_key((#[trigger] actions@[j]).target_path@) != windows_key(target@),
        decreases actions@.len() - a,
    {
        if same_windows_key(actions[a].target_path.as_str(), target) {
            return true;
        }
        a = a + 1;
    }
    false
}

proof fn lemma_ids_push(ids: Seq<String>, s: String, set: Set<Seq<char>>)
    requires
        forall|id: Seq<char>| set.contains(id) <==> exists|k: int| 0 <= k < ids.len() && (#[trigger] ids[k])@ == id,
    ensures
        forall|id: Seq<char>|
            set.insert(s@).contains(id) <==> exists|k: int|
                0 <= k < ids.push(s).len() && (#[trigger] ids.push(s)[k])@ == id,
{
    assert forall|id: Seq<char>| set.insert(s@).contains(id) <==> exists|k: int|
        0 <= k < ids.push(s).len() && (#[trigger] ids.push(s)[k])@ == id by {
        if set.contains(id) {
            let w = choose|w: int| 0 <= w < ids.len() && (#[trigger] ids[w])@ == id;
            assert(ids.push(s)[w]@ == id);
        }
        if id == s@ {
            assert(ids.push(s)[ids.len() as int]@ == id);
        }
        if exists|k: int| 0 <= k < ids.push(s).len() && (#[trigger] ids.push(s)[k])@ == id {
            let w = choose|k: int| 0 <= k < ids.push(s).len() && (#[trigger] ids.push(s)[k])@ == id;
            if w < ids.len() {
                assert(ids[w]@ == id);
            }
        }
    }
}

proof fn lemma_keys_push(paths: Seq<String>, s: String, set: Set<Seq<char>>)
    requires
        forall|key: Seq<char>|
            set.contains(key) <==> exists|k: int| 0 <= k < paths.len() && windows_key((#[trigger] paths[k])@) == key,
    ensures
        forall|key: Seq<char>|
            set.insert(windows_key(s@)).contains(key) <==> exists|k: int|
                0 <= k < paths.push(s).len() && windows_key((#[trigger] paths.push(s)[k])@) == key,
{
    assert forall|key: Seq<char>| set.insert(windows_key(s@)).contains(key) <==> exists|k: int|
        0 <= k < paths.push(s).len() && windows_key((#[trigger] paths.push(s)[k])@) == key by {
        if set.contains(key) {
            let w = choose|w: int| 0 <= w < paths.len() && windows_key((#[trigger] paths[w])@) == key;
            assert(paths.push(s)[w]@ == paths[w]@);
        }
        if key == windows_key(s@) {
            assert(paths.push(s)[paths.len() as int]@ == s@);
        }
        if exists|k: int| 0 <= k < paths.push(s).len() && windows_key((#[trigger] paths.push(s)[k])@) == key {
            let w = choose|k: int| 0 <= k < paths.push(s).len() && windows_key((#[trigger] paths.push(s)[k])@) == key;
            if w < paths.len() {
                assert(paths.push(s)[w]@ == paths[w]@);
            }
        }
    }
}

/// Whether the exec progress (ids, path keys, plan) stands for the spec progress.
pub open spec fn progress_held(
    ids: Seq<String>,
    paths: Seq<String>,
    actions: Seq<InstallAction>,
    counts: ReinstallAttachmentCounts,
    targets: Seq<String>,
    p: RetentionProgress,
) -> bool {
    &&& forall|id: Seq<char>| p.0.contains(id) <==> exists|k: int| 0 <= k < ids.len() && (#[trigger] ids[k])@ == id
    &&& forall|key: Seq<char>|
        p.1.contains(key) <==> exists|k: int| 0 <= k < paths.len() && windows_key((#[trigger] paths[k])@) == key
    &&& actions == p.2
    &&& counts.excluded == p.3
    &&& counts.retained == p.4
    &&& targets.len() == p.4
}

/// What the candidate package's bytes say of an installed attachment: an unreadable file leaves
/// the source unavailable, and bytes whose length or SHA-256 differ from the recorded summary
/// (or that cannot be summarized) leave the attachment unverified.
pub open spec fn attachment_bytes_check(
    read: Result<Seq<u8>, ()>,
    expected: Option<InstalledFileSummary>,
) -> Result<(), ReinstallBlockingReason> {
    match read {
        Err(_) => Err(ReinstallBlockingReason::SourceUnavailable),
        Ok(bytes) => match expected {
            Some(x) => if bytes.len() <= u64::MAX && bytes.len() == x.size_bytes && hex_lower(spec_sha256(bytes))
                == x.sha256@ {
                Ok(())
            } else {
                Err(ReinstallBlockingReason::InstalledAttachmentUnverified)
            },
            None => Err(ReinstallBlockingReason::InstalledAttachmentUnverified),
        },
    }
}

pub open spec fn read_view(read: Result<Vec<u8>, PortFailure>) -> Result<Seq<u8>, ()> {
    match read {
        Ok(b) => Ok(b@),
        Err(_) => Err(()),
    }
}

/// Checks the candidate package's bytes of an installed attachment against its recorded summary.
pub fn check_attachment_bytes(read: &Result<Vec<u8>, PortFailure>, expected: &InstalledFileSummary) -> (r: Result<
    (),
    ReinstallBlockingReason,
>)
    ensures
        r == attachment_bytes_check(read_view(*read), Some(*expected)),
{
    match read {
        Err(_) => Err(ReinstallBlockingReason::SourceUnavailable),
        Ok(bytes) => {
            if bytes.len() as u128 > u64::MAX as u128 {
                return Err(ReinstallBlockingReason::InstalledAttachmentUnverified);
            }
            let actual = summarize(bytes.as_slice());
            if summaries_equal(&actual, expected) {
                Ok(())
            } else {
                Err(ReinstallBlockingReason::InstalledAttachmentUnverified)
            }
        },
    }
}

/// The reinstall is blocked at exclusion `k` with `e`: the earlier exclusions went through,
/// leaving `plan_actions`, and exclusion `k` is refused with `e` before any read, or its kept
/// entry's bytes could not be read or no longer match.
pub open spec fn blocked_at(
    entries: Seq<InstallManifestEntry>,
    mod_id: Seq<char>,
    candidate_revision_id: Seq<char>,
    verified_original: bool,
    actions: Seq<InstallAction>,
    exclusions: Seq<RetargetPolicyExcludedFile>,
    k: nat,
    e: ReinstallBlockingReason,
    plan_actions: Seq<InstallAction>,
) -> bool {
    match retention_progress(entries, mod_id, candidate_revision_id, verified_original, actions, exclusions, k) {
        Ok(p) => {
            let step = attachment_step(entries, mod_id, candidate_revision_id, verified_original, p, exclusions[k as int]);
            &&& plan_actions == p.2
            &&& (step == Err::<Option<int>, ReinstallBlockingReason>(e) || (step matches Ok(Some(i)) && exists|
                read: Result<Seq<u8>, ()>,
            | #[trigger] attachment_bytes_check(read, entries[i].installed_file)
                == Err::<(), ReinstallBlockingReason>(e)))
        },
        Err(_) => false,
    }
}

/// Step `k` of the retention keeps nothing and reads nothing.
pub open spec fn quiet_step(
    entries: Seq<InstallManifestEntry>,
    mod_id: Seq<char>,
    candidate_revision_id: Seq<char>,
    verified_original: bool,
    actions: Seq<InstallAction>,
    exclusions: Seq<RetargetPolicyExcludedFile>,
    k: nat,
) -> bool {
    match retention_progress(entries, mod_id, candidate_revision_id, verified_original, actions, exclusions, k) {
        Ok(p) => attachment_step(entries, mod_id, candidate_revision_id, verified_original, p, exclusions[k as int])
            == Ok::<Option<int>, ReinstallBlockingReason>(None),
        Err(_) => true,
    }
}

/// When no step of the retention reads a candidate file and none refuses, no exclusion blocks
/// the reinstall: `retain_installed_attachments` then succeeds.
pub proof fn lemma_quiet_retention_is_never_blocked(
    entries: Seq<InstallManifestEntry>,
    mod_id: Seq<char>,
    candidate_revision_id: Seq<char>,
    verified_original: bool,
    actions: Seq<InstallAction>,
    exclusions: Seq<RetargetPolicyExcludedFile>,
    k: nat,
    e: ReinstallBlockingReason,
    plan_actions: Seq<InstallAction>,
)
    requires
        forall|j: nat|
            j < exclusions.len() ==> #[trigger] quiet_step(
                entries,
                mod_id,
                candidate_revision_id,
                verified_original,
                actions,
                exclusions,
                j,
            ),
        k < exclusions.len(),
    ensures
        !blocked_at(entries, mod_id, candidate_revision_id, verified_original, actions, exclusions, k, e, plan_actions),
{
    assert(quiet_step(entries, mod_id, candidate_revision_id, verified_original, actions, exclusions, k));
}

/// Keeps installed the excluded files the current installation verifiably owns: an entry of
/// the mod for exactly that package file at exactly the original path, not adopted, installed
/// from the candidate revision (or from an unrecorded revision when the original install was
/// verified), with no other mod and no planned file at its target, whose bytes in the
/// candidate package still match the installed summary. Each kept file is added to `plan`;
/// an excluded file without an installed entry stays excluded. Every other case blocks the
/// reinstall.
#[verifier::rlimit(60)]
#[verifier::spinoff_prover]
pub fn retain_installed_attachments<S: CandidateSourceReader>(
    source: &S,
    mod_id: &str,
    candidate_revision_id: &str,
    manifest: &InstallManifest,
    plan: &mut InstallPlan,
    exclusions: &Vec<RetargetPolicyExcludedFile>,
    verified_original: bool,
) -> (r: Result<AttachmentRetention, ReinstallBlockingReason>)
    ensures
        r matches Ok(ret) ==> (retention_progress(
            manifest.entries@,
            mod_id@,
            candidate_revision_id@,
            verified_original,
            old(plan).actions@,
            exclusions@,
            exclusions@.len(),
        ) matches Ok(p) && final(plan).actions@ == p.2 && ret.counts.excluded == p.3 && ret.counts.retained
            == p.4 && ret.retained_targets@.len() == p.4),
        r matches Err(e) ==> exists|k: nat|
            k < exclusions@.len() && #[trigger] blocked_at(
                manifest.entries@,
                mod_id@,
                candidate_revision_id@,
                verified_original,
                old(plan).actions@,
                exclusions@,
                k,
                e,
                final(plan).actions@,
            ),
{
    let ghost entries = manifest.entries@;
    let ghost initial = old(plan).actions@;
    let mut ids: Vec<String> = Vec::new();
    let mut a: usize = 0;
    while a < plan.actions.len()
        invariant
            plan.actions@ == initial,
            0 <= a <= initial.len(),
            ids@.len() == a,
            forall|j: int| 0 <= j < a ==> (#[trigger] ids@[j])@ == initial[j].package_file_id@,
        decreases initial.len() - a,
    {
        ids.push(plan.actions[a].package_file_id.clone());
        a = a + 1;
    }
    proof {
        let p0 = initial_progress(initial);
        assert forall|id: Seq<char>| p0.0.contains(id) <==> exists|k: int|
            0 <= k < ids@.len() && (#[trigger] ids@[k])@ == id by {
            if p0.0.contains(id) {
                let w = choose|w: int| 0 <= w < initial.len() && (#[trigger] initial[w]).package_file_id@ == id;
                assert(ids@[w]@ == id);
            }
            if exists|k: int| 0 <= k < ids@.len() && (#[trigger] ids@[k])@ == id {
                let w = choose|k: int| 0 <= k < ids@.len() && (#[trigger] ids@[k])@ == id;
                assert(initial[w].package_file_id@ == id);
            }
        }
    }
    let mut paths: Vec<String> = Vec::new();
    let mut counts = ReinstallAttachmentCounts { retained: 0, excluded: 0 };
    let mut retained_targets: Vec<String> = Vec::new();
    let mut x: usize = 0;
    while x < exclusions.len()
        invariant
            entries == manifest.entries@,
            initial == old(plan).actions@,
            0 <= x <= exclusions@.len(),
            retention_progress(
                entries,
                mod_id@,
                candidate_revision_id@,
                verified_original,
                initial,
                exclusions@,
                x as nat,
            ) matches Ok(p) && progress_held(ids@, paths@, plan.actions@, counts, retained_targets@, p),
            counts.excluded + counts.retained == x,
        decreases exclusions@.len() - x,
    {
        let ghost p = retention_progress(
            entries,
            mod_id@,
            candidate_revision_id@,
            verified_original,
            initial,
            exclusions@,
            x as nat,
        )->Ok_0;
        let ghost step = attachment_step(
            entries,
            mod_id@,
            candidate_revision_id@,
            verified_original,
            p,
            exclusions@[x as int],
        );
        proof {
            assert(retention_progress(
                entries,
                mod_id@,
                candidate_revision_id@,
                verified_original,
                initial,
                exclusions@,
                (x + 1) as nat,
            ) == match step {
                Err(e) => Err(e),
                Ok(s) => Ok(advance(entries, p, exclusions@[x as int], s)),
            });
        }
        let file = &exclusions[x];
        match file.reason {
            RetargetExclusionReason::ExecutableOrScript => {},
        }
        proof {
            assert(p.0.contains(file.package_file_id@) <==> exists|k: int|
                0 <= k < ids@.len() && (#[trigger] ids@[k])@ == file.package_file_id@);
            assert(p.1.contains(windows_key(file.original_path@)) <==> exists|k: int|
                0 <= k < paths@.len() && windows_key((#[trigger] paths@[k])@) == windows_key(file.original_path@));
        }
        if string_set_contains(&ids, file.package_file_id.as_str()) || key_set_contains(
            &paths,
            file.original_path.as_str(),
        ) {
            proof {
                assert(step == Err::<Option<int>, ReinstallBlockingReason>(ReinstallBlockingReason::CandidateNotReady));
                assert(blocked_at(
                    entries,
                    mod_id@,
                    candidate_revision_id@,
                    verified_original,
                    initial,
                    exclusions@,
                    x as nat,
                    ReinstallBlockingReason::CandidateNotReady,
                    plan.actions@,
                ));
            }
            return Err(ReinstallBlockingReason::CandidateNotReady);
        }
        let ghost ids_before = ids@;
        let ghost paths_before = paths@;
        let id_copy = file.package_file_id.clone();
        let path_copy = file.original_path.clone();
        ids.push(id_copy);
        paths.push(path_copy);
        proof {
            lemma_ids_push(ids_before, id_copy, p.0);
            lemma_keys_push(paths_before, path_copy, p.1);
        }
        let matches = matching_entry_indices(&manifest.entries, mod_id, file);
        if matches.len() == 0 {
            counts.excluded = counts.excluded + 1;
            proof {
                assert(step == Ok::<Option<int>, ReinstallBlockingReason>(None));
            }
            x = x + 1;
            continue;
        }
        if matches.len() > 1 {
            proof {
                assert(step == Err::<Option<int>, ReinstallBlockingReason>(
                    ReinstallBlockingReason::InstalledAttachmentUnverified,
                ));
                assert(blocked_at(
                    entries,
                    mod_id@,
                    candidate_revision_id@,
                    verified_original,
                    initial,
                    exclusions@,
                    x as nat,
                    ReinstallBlockingReason::InstalledAttachmentUnverified,
                    plan.actions@,
                ));
            }
            return Err(ReinstallBlockingReason::InstalledAttachmentUnverified);
        }
        let m0 = matches[0];
        let entry = &manifest.entries[m0];
        let revision_ok = match &entry.revision_id {
            Some(rev) => str_equal(rev.as_str(), candidate_revision_id),
            None => verified_original,
        };
        if entry.adopted || !str_equal(entry.package_file_id.as_str(), file.package_file_id.as_str())
            || !eq_ignore_ascii_case(entry.target_path.as_str(), file.original_path.as_str()) || !revision_ok {
            proof {
                assert(step == Err::<Option<int>, ReinstallBlockingReason>(
                    ReinstallBlockingReason::InstalledAttachmentUnverified,
                ));
                assert(blocked_at(
                    entries,
                    mod_id@,
                    candidate_revision_id@,
                    verified_original,
                    initial,
                    exclusions@,
                    x as nat,
                    ReinstallBlockingReason::InstalledAttachmentUnverified,
                    plan.actions@,
                ));
            }
            return Err(ReinstallBlockingReason::InstalledAttachmentUnverified);
        }
        if other_mod_targets(&manifest.entries, mod_id, entry.target_path.as_str()) {
            proof {
                assert(step == Err::<Option<int>, ReinstallBlockingReason>(
                    ReinstallBlockingReason::CrossModTargetConflict,
                ));
                assert(blocked_at(
                    entries,
                    mod_id@,
                    candidate_revision_id@,
                    verified_original,
                    initial,
                    exclusions@,
                    x as nat,
                    ReinstallBlockingReason::CrossModTargetConflict,
                    plan.actions@,
                ));
            }
            return Err(ReinstallBlockingReason::CrossModTargetConflict);
        }
        if plan_targets(&plan.actions, entry.target_path.as_str()) {
            proof {
                assert(step == Err::<Option<int>, ReinstallBlockingReason>(ReinstallBlockingReason::PlanConflict));
                assert(blocked_at(
                    entries,
                    mod_id@,
                    candidate_revision_id@,
                    verified_original,
                    initial,
                    exclusions@,
                    x as nat,
                    ReinstallBlockingReason::PlanConflict,
                    plan.actions@,
                ));
            }
            return Err(ReinstallBlockingReason::PlanConflict);
        }
        let expected = match &entry.installed_file {
            Some(f) => f,
            None => {
                proof {
                    assert(step == Err::<Option<int>, ReinstallBlockingReason>(
                        ReinstallBlockingReason::InstalledAttachmentUnverified,
                    ));
                    assert(blocked_at(
                    entries,
                    mod_id@,
                    candidate_revision_id@,
                    verified_original,
                    initial,
                    exclusions@,
                    x as nat,
                    ReinstallBlockingReason::InstalledAttachmentUnverified,
                    plan.actions@,
                ));
                }
                return Err(ReinstallBlockingReason::InstalledAttachmentUnverified);
            },
        };
        let read = source.read_candidate_source_file(candidate_revision_id, entry.package_file_id.as_str());
        match check_attachment_bytes(&read, expected) {
            Err(e) => {
                proof {
                    assert(step == Ok::<Option<int>, ReinstallBlockingReason>(Some(m0 as int)));
                    assert(entries[m0 as int].installed_file == Some(*expected));
                    assert(attachment_bytes_check(read_view(read), entries[m0 as int].installed_file)
                        == Err::<(), ReinstallBlockingReason>(e));
                    assert(blocked_at(
                        entries,
                        mod_id@,
                        candidate_revision_id@,
                        verified_original,
                        initial,
                        exclusions@,
                        x as nat,
                        e,
                        plan.actions@,
                    ));
                }
                return Err(e);
            },
            Ok(()) => {},
        }
        proof {
            assert(step == Ok::<Option<int>, ReinstallBlockingReason>(Some(m0 as int)));
        }
        let kept = InstallAction {
            mod_id: entry.mod_id.clone(),
            package_file_id: entry.package_file_id.clone(),
            target_path: entry.target_path.clone(),
            layer: FileLayer { name: entry.layer.name.clone(), priority: entry.layer.priority },
        };
        proof {
            assert(kept == kept_action(entries[m0 as int]));
        }
        plan.actions.push(kept);
        retained_targets.push(entry.target_path.clone());
        counts.retained = counts.retained + 1;
        x = x + 1;
    }
    Ok(AttachmentRetention { counts, retained_targets })
}

} // verus!
