//! Plugin selection: the ways a selection request can fail, with their stable codes and
//! messages, and the check that a plan's plugin choices are the ones the player confirmed.
use crate::attachments::{eq_ignore_ascii_case, eq_ignore_ascii_case_spec, InstallManifest, InstallManifestEntry};
use crate::metadata::PortFailure;
use crate::reinstall::InstalledFileSummary;
use crate::text::str_equal;
use vstd::prelude::*;

verus! {

#[derive(Debug, Clone, Copy, PartialEq, Eq, Structural)]
pub enum PluginSelectionServiceError {
    Unavailable,
    SourceUnavailable,
    InventoryChanged,
    InvalidSelection,
    ConfirmationRequired,
    ManifestUnverified,
}

pub open spec fn plugin_error_code(error: PluginSelectionServiceError) -> Seq<char> {
    match error {
        PluginSelectionServiceError::Unavailable => "plugin_selection_unavailable"@,
        PluginSelectionServiceError::SourceUnavailable => "plugin_source_unavailable"@,
        PluginSelectionServiceError::InventoryChanged => "plugin_inventory_changed"@,
        PluginSelectionServiceError::InvalidSelection => "plugin_selection_invalid"@,
        PluginSelectionServiceError::ConfirmationRequired => "plugin_selection_required"@,
        PluginSelectionServiceError::ManifestUnverified => "plugin_manifest_unverified"@,
    }
}

pub open spec fn plugin_error_message(error: PluginSelectionServiceError) -> Seq<char> {
    match error {
        PluginSelectionServiceError::Unavailable => "plugin selection is unavailable"@,
        PluginSelectionServiceError::SourceUnavailable => "plugin source is unavailable"@,
        PluginSelectionServiceError::InventoryChanged => "plugin selection inventory changed"@,
        PluginSelectionServiceError::InvalidSelection => "plugin selection is invalid"@,
        PluginSelectionServiceError::ConfirmationRequired => "plugin selection needs confirmation"@,
        PluginSelectionServiceError::ManifestUnverified => "installed plugin facts are not usable"@,
    }
}

impl PluginSelectionServiceError {
    pub fn code(self) -> (r: &'static str)
        ensures
            r@ == plugin_error_code(self),
    {
        match self {
            PluginSelectionServiceError::Unavailable => "plugin_selection_unavailable",
            PluginSelectionServiceError::SourceUnavailable => "plugin_source_unavailable",
            PluginSelectionServiceError::InventoryChanged => "plugin_inventory_changed",
            PluginSelectionServiceError::InvalidSelection => "plugin_selection_invalid",
            PluginSelectionServiceError::ConfirmationRequired => "plugin_selection_required",
            PluginSelectionServiceError::ManifestUnverified => "plugin_manifest_unverified",
        }
    }

    pub fn message(self) -> (r: &'static str)
        ensures
            r@ == plugin_error_message(self),
    {
        match self {
            PluginSelectionServiceError::Unavailable => "plugin selection is unavailable",
            PluginSelectionServiceError::SourceUnavailable => "plugin source is unavailable",
            PluginSelectionServiceError::InventoryChanged => "plugin selection inventory changed",
            PluginSelectionServiceError::InvalidSelection => "plugin selection is invalid",
            PluginSelectionServiceError::ConfirmationRequired => "plugin selection needs confirmation",
            PluginSelectionServiceError::ManifestUnverified => "installed plugin facts are not usable",
        }
    }
}

/// What a selection does with one plugin file.
#[derive(Debug, Clone, Copy, PartialEq, Eq, Structural)]
pub enum PluginFileChoiceKind {
    Include,
    RetainInstalled,
    Exclude,
}

impl PluginFileChoiceKind {
    /// Whether the file stays part of the installation.
    pub open spec fn included(self) -> bool {
        !(self is Exclude)
    }

    pub fn is_included(self) -> (r: bool)
        ensures
            r == self.included(),
    {
        match self {
            PluginFileChoiceKind::Exclude => false,
            _ => true,
        }
    }
}

pub open spec fn choice_kind_spec(selected: bool, retain_only: bool) -> PluginFileChoiceKind {
    if !selected {
        PluginFileChoiceKind::Exclude
    } else if retain_only {
        PluginFileChoiceKind::RetainInstalled
    } else {
        PluginFileChoiceKind::Include
    }
}

/// The choice for a file: left out unless selected, kept as installed when only the installed
/// copy can be kept.
pub fn choice_kind(selected: bool, retain_only: bool) -> (r: PluginFileChoiceKind)
    ensures
        r == choice_kind_spec(selected, retain_only),
{
    if !selected {
        PluginFileChoiceKind::Exclude
    } else if retain_only {
        PluginFileChoiceKind::RetainInstalled
    } else {
        PluginFileChoiceKind::Include
    }
}

/// The Mod revision in a profile a plugin selection is for.
#[derive(Debug, Clone, PartialEq, Eq)]
pub struct PluginSelectionScope {
    pub game_id: String,
    pub profile_id: String,
    pub mod_id: String,
    pub revision_id: String,
}

/// One plugin file of a selection and what happens to it.
#[derive(Debug, Clone, PartialEq, Eq)]
pub struct PluginFileChoice {
    pub package_file_id: String,
    pub target_path: String,
    pub source_file: InstalledFileSummary,
    pub choice: PluginFileChoiceKind,
    pub excluded_by_package_selection: bool,
}

/// The plugin choices for a scope, under the inventory they were made on.
#[derive(Debug, Clone, PartialEq, Eq)]
pub struct PluginSelectionSnapshot {
    pub scope: PluginSelectionScope,
    pub policy_id: String,
    pub policy_version: u32,
    pub files: Vec<PluginFileChoice>,
    pub inventory_id: String,
}

impl PluginSelectionSnapshot {
    pub fn scope(&self) -> (r: &PluginSelectionScope)
        ensures
            *r == self.scope,
    {
        &self.scope
    }

    pub fn files(&self) -> (r: &Vec<PluginFileChoice>)
        ensures
            *r == self.files,
    {
        &self.files
    }

    pub fn inventory_id(&self) -> (r: &str)
        ensures
            r@ == self.inventory_id@,
    {
        self.inventory_id.as_str()
    }
}

/// `entry` is the installed copy of `file` for the Mod.
pub open spec fn owns(entry: InstallManifestEntry, mod_id: Seq<char>, file: PluginFileChoice) -> bool {
    &&& entry.mod_id@ == mod_id
    &&& entry.package_file_id@ == file.package_file_id@
    &&& eq_ignore_ascii_case_spec(entry.target_path@, file.target_path@)
}

/// The first entry from position `k` on that is the installed copy of `file`.
pub open spec fn first_owner_from(
    entries: Seq<InstallManifestEntry>,
    mod_id: Seq<char>,
    file: PluginFileChoice,
    k: int,
) -> Option<InstallManifestEntry>
    decreases entries.len() - k,
{
    if k < 0 || k >= entries.len() {
        None
    } else if owns(entries[k], mod_id, file) {
        Some(entries[k])
    } else {
        first_owner_from(entries, mod_id, file, k + 1)
    }
}

/// The manifest entry that holds the installed copy of `file`, if the profile has one.
pub open spec fn owner(manifest: Option<InstallManifest>, mod_id: Seq<char>, file: PluginFileChoice) -> Option<
    InstallManifestEntry,
> {
    match manifest {
        Some(m) => first_owner_from(m.entries@, mod_id, file, 0),
        None => None,
    }
}

pub open spec fn same_summary(installed: Option<InstalledFileSummary>, source: InstalledFileSummary) -> bool {
    match installed {
        Some(s) => s.size_bytes == source.size_bytes && s.sha256@ == source.sha256@,
        None => false,
    }
}

/// The installed copy is the managed, unchanged copy of this revision's file.
pub open spec fn unchanged_copy(entry: InstallManifestEntry, scope: PluginSelectionScope, file: PluginFileChoice) -> bool {
    &&& !entry.adopted
    &&& match entry.revision_id {
        Some(r) => r@ == scope.revision_id@,
        None => true,
    }
    &&& same_summary(entry.installed_file, file.source_file)
}

/// A file's choice needs no confirmation: an included file is already installed unchanged, a
/// left-out file is not installed.
pub open spec fn file_confirmed(manifest: Option<InstallManifest>, scope: PluginSelectionScope, file: PluginFileChoice) -> bool {
    match owner(manifest, scope.mod_id@, file) {
        Some(entry) => file.choice.included() && unchanged_copy(entry, scope, file),
        None => !file.choice.included(),
    }
}

/// A confirmed choice agrees with the current one: the same choice, or a file that was to be
/// kept as installed and is now left out because nothing is installed any more.
pub open spec fn choice_agrees(
    manifest: Option<InstallManifest>,
    mod_id: Seq<char>,
    previous: PluginFileChoice,
    current: PluginFileChoice,
) -> bool {
    ||| previous.choice == current.choice
    ||| (previous.choice is RetainInstalled && current.choice is Exclude && owner(manifest, mod_id, current) is None)
}

pub open spec fn all_agree(
    manifest: Option<InstallManifest>,
    previous: PluginSelectionSnapshot,
    expected: PluginSelectionSnapshot,
) -> bool {
    forall|i: int|
        0 <= i < previous.files@.len() && i < expected.files@.len() ==> choice_agrees(
            manifest,
            expected.scope.mod_id@,
            #[trigger] previous.files@[i],
            expected.files@[i],
        )
}

pub open spec fn unconfirmed_check(manifest: Option<InstallManifest>, expected: PluginSelectionSnapshot) -> Result<
    (),
    PluginSelectionServiceError,
> {
    if forall|i: int| 0 <= i < expected.files@.len() ==> file_confirmed(manifest, expected.scope, #[trigger] expected.files@[i]) {
        Ok(())
    } else {
        Err(PluginSelectionServiceError::ConfirmationRequired)
    }
}

/// Whether a plan may apply `expected`: when the player confirmed a selection on the same
/// inventory, every current choice must agree with it; otherwise no choice may change what
/// is installed.
pub open spec fn confirmation(
    manifest: Option<InstallManifest>,
    pending: Option<PluginSelectionSnapshot>,
    expected: PluginSelectionSnapshot,
) -> Result<(), PluginSelectionServiceError> {
    match pending {
        Some(p) => if p.inventory_id@ == expected.inventory_id@ {
            if all_agree(manifest, p, expected) {
                Ok(())
            } else {
                Err(PluginSelectionServiceError::InventoryChanged)
            }
        } else {
            unconfirmed_check(manifest, expected)
        },
        None => unconfirmed_check(manifest, expected),
    }
}

/// Position of the installed copy of `file` in the manifest.
pub(crate) fn owner_position(manifest: &Option<InstallManifest>, mod_id: &str, file: &PluginFileChoice) -> (r: Option<usize>)
    ensures
        match r {
            Some(k) => manifest.is_some() && k < manifest.unwrap().entries@.len() && owner(
                *manifest,
                mod_id@,
                *file,
            ) == Some(manifest.unwrap().entries@[k as int]),
            None => owner(*manifest, mod_id@, *file) is None,
        },
{
    match manifest {
        None => None,
        Some(m) => {
            let ghost entries = m.entries@;
            let mut k: usize = 0;
            while k < m.entries.len()
                invariant
                    entries == m.entries@,
                    *manifest == Some(*m),
                    0 <= k <= entries.len(),
                    first_owner_from(entries, mod_id@, *file, 0) == first_owner_from(entries, mod_id@, *file, k as int),
                decreases entries.len() - k,
            {
                let entry = &m.entries[k];
                if str_equal(entry.mod_id.as_str(), mod_id) && str_equal(
                    entry.package_file_id.as_str(),
                    file.package_file_id.as_str(),
                ) && eq_ignore_ascii_case(entry.target_path.as_str(), file.target_path.as_str()) {
                    proof {
                        assert(owns(entries[k as int], mod_id@, *file));
                        assert(first_owner_from(entries, mod_id@, *file, k as int) == Some(entries[k as int]));
                    }
                    return Some(k);
                }
                k = k + 1;
            }
            None
        },
    }
}

/// Position of the first entry of the Mod.
fn first_entry_of(entries: &Vec<InstallManifestEntry>, mod_id: &str) -> (r: Option<usize>)
    ensures
        match r {
            Some(k) => k < entries@.len() && installed_entry_from(entries@, mod_id@, 0) == Some(entries@[k as int]),
            None => installed_entry_from(entries@, mod_id@, 0) is None,
        },
{
    let mut k: usize = 0;
    while k < entries.len()
        invariant
            0 <= k <= entries@.len(),
            installed_entry_from(entries@, mod_id@, 0) == installed_entry_from(entries@, mod_id@, k as int),
        decreases entries@.len() - k,
    {
        if str_equal(entries[k].mod_id.as_str(), mod_id) {
            return Some(k);
        }
        k = k + 1;
    }
    None
}

pub(crate) fn same_summary_exec(installed: &Option<InstalledFileSummary>, source: &InstalledFileSummary) -> (r: bool)
    ensures
        r == same_summary(*installed, *source),
{
    match installed {
        Some(s) => s.size_bytes == source.size_bytes && str_equal(s.sha256.as_str(), source.sha256.as_str()),
        None => false,
    }
}

fn is_unchanged_copy(entry: &InstallManifestEntry, scope: &PluginSelectionScope, file: &PluginFileChoice) -> (r: bool)
    ensures
        r == unchanged_copy(*entry, *scope, *file),
{
    let revision_matches = match &entry.revision_id {
        Some(r) => str_equal(r.as_str(), scope.revision_id.as_str()),
        None => true,
    };
    !entry.adopted && revision_matches && same_summary_exec(&entry.installed_file, &file.source_file)
}

fn choices_agree(
    manifest: &Option<InstallManifest>,
    mod_id: &str,
    previous: &PluginFileChoice,
    current: &PluginFileChoice,
) -> (r: bool)
    ensures
        r == choice_agrees(*manifest, mod_id@, *previous, *current),
{
    if previous.choice == current.choice {
        return true;
    }
    match (previous.choice, current.choice) {
        (PluginFileChoiceKind::RetainInstalled, PluginFileChoiceKind::Exclude) => owner_position(manifest, mod_id, current).is_none(),
        _ => false,
    }
}

fn check_unconfirmed(manifest: &Option<InstallManifest>, expected: &PluginSelectionSnapshot) -> (r: Result<
    (),
    PluginSelectionServiceError,
>)
    ensures
        r == unconfirmed_check(*manifest, *expected),
{
    let mut k: usize = 0;
    while k < expected.files.len()
        invariant
            0 <= k <= expected.files@.len(),
            forall|i: int| 0 <= i < k ==> file_confirmed(*manifest, expected.scope, #[trigger] expected.files@[i]),
        decreases expected.files@.len() - k,
    {
        let file = &expected.files[k];
        let position = owner_position(manifest, expected.scope.mod_id.as_str(), file);
        let confirmed = match position {
            Some(p) => file.choice.is_included() && is_unchanged_copy(
                &manifest.as_ref().unwrap().entries[p],
                &expected.scope,
                file,
            ),
            None => !file.choice.is_included(),
        };
        if !confirmed {
            return Err(PluginSelectionServiceError::ConfirmationRequired);
        }
        k = k + 1;
    }
    Ok(())
}

/// Whether a plan may apply `expected`, given the profile's trusted manifest and the
/// selection the player last confirmed for the scope.
pub fn confirmation_check(
    manifest: &Option<InstallManifest>,
    pending: &Option<PluginSelectionSnapshot>,
    expected: &PluginSelectionSnapshot,
) -> (r: Result<(), PluginSelectionServiceError>)
    ensures
        r == confirmation(*manifest, *pending, *expected),
{
    match pending {
        Some(p) => {
            if str_equal(p.inventory_id.as_str(), expected.inventory_id.as_str()) {
                let mut k: usize = 0;
                while k < p.files.len() && k < expected.files.len()
                    invariant
                        *pending == Some(*p),
                        p.inventory_id@ == expected.inventory_id@,
                        0 <= k <= p.files@.len(),
                        k <= expected.files@.len(),
                        forall|i: int| 0 <= i < k ==> choice_agrees(
                            *manifest,
                            expected.scope.mod_id@,
                            #[trigger] p.files@[i],
                            expected.files@[i],
                        ),
                    decreases p.files@.len() - k,
                {
                    if !choices_agree(manifest, expected.scope.mod_id.as_str(), &p.files[k], &expected.files[k]) {
                        proof {
                            assert(!choice_agrees(*manifest, expected.scope.mod_id@, p.files@[k as int], expected.files@[k as int]));
                            assert(!all_agree(*manifest, *p, *expected));
                        }
                        return Err(PluginSelectionServiceError::InventoryChanged);
                    }
                    k = k + 1;
                }
                Ok(())
            } else {
                check_unconfirmed(manifest, expected)
            }
        },
        None => check_unconfirmed(manifest, expected),
    }
}

/// A selection the player confirmed is accepted as it stands, whatever the manifest holds.
pub proof fn lemma_confirmed_selection_accepted(manifest: Option<InstallManifest>, selection: PluginSelectionSnapshot)
    ensures
        confirmation(manifest, Some(selection), selection) == Ok::<(), PluginSelectionServiceError>(()),
{
    assert forall|i: int| 0 <= i < selection.files@.len() && i < selection.files@.len() implies choice_agrees(
        manifest,
        selection.scope.mod_id@,
        #[trigger] selection.files@[i],
        selection.files@[i],
    ) by {}
}

/// Where confirmed plugin selections are kept.
pub trait PluginSelectionRepository {
    fn load_selection(&self, scope: &PluginSelectionScope) -> Result<Option<PluginSelectionSnapshot>, PortFailure>;

    fn save_selection(&self, selection: &PluginSelectionSnapshot) -> Result<(), PortFailure>;
}

/// The install manifests of profiles.
pub trait PluginManifestSource {
    fn load_manifest(&self, profile_id: &str) -> Result<Option<InstallManifest>, PortFailure>;

    /// Whether the manifest validates and its status lets its entries be trusted.
    fn trusts_entries(&self, manifest: &InstallManifest) -> bool;
}

/// The revisions the import catalog knows.
pub trait PluginRevisionCatalog {
    /// The Mod a stored revision belongs to, if the revision is stored.
    fn revision_mod_id(&self, revision_id: &str) -> Result<Option<String>, PortFailure>;

    /// The ids of the stored revisions of a Mod.
    fn list_revision_ids(&self, mod_id: &str) -> Result<Vec<String>, PortFailure>;

    /// The revision the library shows for a Mod, if the Mod is stored.
    fn display_revision_id(&self, mod_id: &str) -> Result<Option<String>, PortFailure>;
}

pub struct PluginSelectionService<S, M, C, P> {
    pub selections: S,
    pub manifests: M,
    pub catalog: C,
    pub policies: Vec<P>,
}

impl<
    S: PluginSelectionRepository,
    M: PluginManifestSource,
    C: PluginRevisionCatalog,
    P: GamePluginPolicy,
> PluginSelectionService<S, M, C, P> {
    pub fn new(selections: S, manifests: M, catalog: C, policies: Vec<P>) -> (r: Self)
        ensures
            r.selections == selections,
            r.manifests == manifests,
            r.catalog == catalog,
            r.policies@ == policies@,
    {
        PluginSelectionService { selections, manifests, catalog, policies }
    }

    /// The scope of a selection: the requested revision, else the installed one (a manifest
    /// entry without revision needs the Mod to have a single stored revision), else the one
    /// the library shows; the revision must be stored for the Mod.
    pub fn resolve_scope(
        &self,
        game_id: String,
        profile_id: String,
        mod_id: String,
        requested_revision: Option<String>,
    ) -> (r: Result<PluginSelectionScope, PluginSelectionServiceError>)
        ensures
            match r {
                Ok(scope) => {
                    &&& scope.game_id@ == game_id@
                    &&& scope.profile_id@ == profile_id@
                    &&& scope.mod_id@ == mod_id@
                    &&& (requested_revision matches Some(rev) ==> scope.revision_id@ == rev@)
                },
                Err(e) => e == PluginSelectionServiceError::ManifestUnverified || e
                    == PluginSelectionServiceError::Unavailable || e == PluginSelectionServiceError::SourceUnavailable,
            },
    {
        let manifest = self.manifest(profile_id.as_str())?;
        let revision_id = match requested_revision {
            Some(revision) => revision,
            None => {
                let position = match &manifest {
                    Some(m) => first_entry_of(&m.entries, mod_id.as_str()),
                    None => None,
                };
                match position {
                    Some(k) => {
                        let entry = &manifest.as_ref().unwrap().entries[k];
                        match &entry.revision_id {
                            Some(revision) => revision.clone(),
                            None => {
                                let revisions = match self.catalog.list_revision_ids(mod_id.as_str()) {
                                    Ok(list) => list,
                                    Err(_) => return Err(PluginSelectionServiceError::Unavailable),
                                };
                                if revisions.len() != 1 {
                                    return Err(PluginSelectionServiceError::ManifestUnverified);
                                }
                                revisions[0].clone()
                            },
                        }
                    },
                    None => match self.catalog.display_revision_id(mod_id.as_str()) {
                        Ok(Some(revision)) => revision,
                        Ok(None) => return Err(PluginSelectionServiceError::SourceUnavailable),
                        Err(_) => return Err(PluginSelectionServiceError::Unavailable),
                    },
                }
            },
        };
        let scope = PluginSelectionScope { game_id, profile_id, mod_id, revision_id };
        self.revision(&scope)?;
        Ok(scope)
    }

    /// Refuses a scope whose revision is not stored for its Mod.
    fn revision(&self, scope: &PluginSelectionScope) -> (r: Result<(), PluginSelectionServiceError>)
        ensures
            r is Err ==> r == Err::<(), PluginSelectionServiceError>(PluginSelectionServiceError::Unavailable)
                || r == Err::<(), PluginSelectionServiceError>(PluginSelectionServiceError::SourceUnavailable),
    {
        match self.catalog.revision_mod_id(scope.revision_id.as_str()) {
            Err(_) => Err(PluginSelectionServiceError::Unavailable),
            Ok(None) => Err(PluginSelectionServiceError::SourceUnavailable),
            Ok(Some(owner)) => if str_equal(owner.as_str(), scope.mod_id.as_str()) {
                Ok(())
            } else {
                Err(PluginSelectionServiceError::SourceUnavailable)
            },
        }
    }

    /// The effect of every file of the selections under this service's policies.
    pub fn file_effects(&self, selections: &Vec<PluginSelectionSnapshot>) -> (r: Vec<RetargetFileEffect>)
        ensures
            r@.len() == all_files(selections@).len(),
            forall|i: int| 0 <= i < r@.len() ==> effect_fits(#[trigger] r@[i], all_files(selections@)[i]),
    {
        file_effects(&self.policies, selections)
    }

    /// The profile's manifest, refused unless it is the profile's and its entries can be trusted.
    fn manifest(&self, profile_id: &str) -> (r: Result<Option<InstallManifest>, PluginSelectionServiceError>)
        ensures
            match r {
                Ok(Some(m)) => m.profile_id@ == profile_id@,
                Ok(None) => true,
                Err(e) => e == PluginSelectionServiceError::ManifestUnverified,
            },
    {
        let manifest = match self.manifests.load_manifest(profile_id) {
            Ok(m) => m,
            Err(_) => return Err(PluginSelectionServiceError::ManifestUnverified),
        };
        match manifest {
            Some(m) => {
                if !str_equal(m.profile_id.as_str(), profile_id) || !self.manifests.trusts_entries(&m) {
                    Err(PluginSelectionServiceError::ManifestUnverified)
                } else {
                    Ok(Some(m))
                }
            },
            None => Ok(None),
        }
    }

    /// Refuses `expected` unless the player confirmed it or it changes nothing installed.
    pub fn ensure_confirmed(&self, expected: &PluginSelectionSnapshot) -> (r: Result<(), PluginSelectionServiceError>)
        ensures
            match r {
                Ok(()) => exists|m: Option<InstallManifest>, p: Option<PluginSelectionSnapshot>|
                    #[trigger] confirmation(m, p, *expected) == Ok::<(), PluginSelectionServiceError>(()),
                Err(e) => e == PluginSelectionServiceError::ManifestUnverified || e
                    == PluginSelectionServiceError::Unavailable || e == PluginSelectionServiceError::InventoryChanged
                    || e == PluginSelectionServiceError::ConfirmationRequired,
            },
    {
        let manifest = self.manifest(expected.scope.profile_id.as_str())?;
        let pending = match self.selections.load_selection(&expected.scope) {
            Ok(p) => p,
            Err(_) => return Err(PluginSelectionServiceError::Unavailable),
        };
        let r = confirmation_check(&manifest, &pending, expected);
        proof {
            if r is Ok {
                assert(confirmation(manifest, pending, *expected) == Ok::<(), PluginSelectionServiceError>(()));
            }
        }
        r
    }

    /// Records the selections a complete plan was approved with; the first that cannot be
    /// saved stops the rest.
    pub fn record_approved_selections(&self, selections: &Vec<PluginSelectionSnapshot>) -> (r: Result<
        (),
        PluginSelectionServiceError,
    >)
        ensures
            r is Err ==> r == Err::<(), PluginSelectionServiceError>(PluginSelectionServiceError::Unavailable),
            selections@.len() == 0 ==> r is Ok,
    {
        let mut k: usize = 0;
        while k < selections.len()
            invariant
                0 <= k <= selections@.len(),
            decreases selections@.len() - k,
        {
            if self.selections.save_selection(&selections[k]).is_err() {
                return Err(PluginSelectionServiceError::Unavailable);
            }
            k = k + 1;
        }
        Ok(())
    }
}

/// What a game's plugin policy made of a file.
#[derive(Debug, Clone, Copy, PartialEq, Eq, Structural)]
pub enum PluginFileCheck {
    Supported,
    Unsupported,
    PolicyExcluded,
}

/// A plugin file of the package as the player is offered it.
#[derive(Debug, Clone, PartialEq, Eq)]
pub struct PluginCandidate {
    pub package_file_id: String,
    pub target_path: String,
    pub size_bytes: u64,
    pub check: PluginFileCheck,
    pub selected: bool,
    pub selectable: bool,
    pub installed: bool,
    pub retain_only: bool,
    pub excluded_by_package: bool,
}

/// The plugin files of a scope, with the selection they currently make.
#[derive(Debug, Clone, PartialEq, Eq)]
pub struct PluginInventory {
    pub selection: PluginSelectionSnapshot,
    pub candidates: Vec<PluginCandidate>,
    pub confirmation_required: bool,
}

/// How one scanned plugin file is offered.
#[derive(Debug, Clone, Copy, PartialEq, Eq, Structural)]
pub struct PluginCandidateDecision {
    pub selectable: bool,
    pub selected: bool,
    pub retain_only: bool,
}

/// The installed copy is this revision's managed file with the scanned content.
pub open spec fn trusted_existing(same_revision: bool, existing: Option<InstallManifestEntry>, summary: InstalledFileSummary) -> bool {
    same_revision && match existing {
        Some(e) => !e.adopted && same_summary(e.installed_file, summary),
        None => false,
    }
}

pub open spec fn candidate_decision_spec(
    check: PluginFileCheck,
    same_revision: bool,
    existing: Option<InstallManifestEntry>,
    summary: InstalledFileSummary,
    excluded_by_package: bool,
    previous: Option<PluginFileChoiceKind>,
) -> PluginCandidateDecision {
    let trusted = trusted_existing(same_revision, existing, summary);
    let supported = check == PluginFileCheck::Supported;
    let selectable = !excluded_by_package && (supported || trusted);
    let selected = selectable && match previous {
        Some(choice) => choice.included(),
        None => if same_revision {
            trusted
        } else {
            supported
        },
    };
    PluginCandidateDecision { selectable, selected, retain_only: !supported && trusted }
}

/// How a scanned plugin file is offered, for every file and every applied selection:
/// - it is selectable exactly when the package selection kept it and either the policy supports
///   it or the same revision installed exactly this file (managed, not adopted, same content);
/// - it is never selected without being selectable;
/// - an applied choice decides: selected exactly when selectable and the choice includes it;
/// - with no applied choice and the same revision installed, it is selected exactly when the
///   installed copy is this revision's unadopted managed file with the scanned content, so a
///   supported file that is not installed is not selected;
/// - with no applied choice and another revision, it is selected exactly when kept and supported;
/// - it is kept only as installed exactly when the policy does not support it but the same
///   revision installed exactly this file.
pub proof fn lemma_candidate_decision_rules(
    check: PluginFileCheck,
    same_revision: bool,
    existing: Option<InstallManifestEntry>,
    summary: InstalledFileSummary,
    excluded_by_package: bool,
    previous: Option<PluginFileChoiceKind>,
)
    ensures
        ({
            let d = candidate_decision_spec(check, same_revision, existing, summary, excluded_by_package, previous);
            let installed_here = same_revision && existing is Some && !existing->0.adopted && same_summary(
                existing->0.installed_file,
                summary,
            );
            &&& d.selectable <==> (!excluded_by_package && (check == PluginFileCheck::Supported || installed_here))
            &&& d.selected ==> d.selectable
            &&& previous is Some ==> (d.selected <==> (d.selectable && !(previous->0 is Exclude)))
            &&& previous is None && same_revision ==> (d.selected <==> (!excluded_by_package && installed_here))
            &&& previous is None && !same_revision ==> (d.selected <==> (!excluded_by_package && check
                == PluginFileCheck::Supported))
            &&& d.retain_only <==> (check != PluginFileCheck::Supported && installed_here)
        }),
{
}

/// How a scanned plugin file is offered: selectable unless the package selection left it out,
/// and then only if the policy supports it or the same revision installed exactly this file;
/// selected as the applied selection had it, else as installed (same revision) or as
/// supported; kept only as installed when the policy does not support it.
pub fn candidate_decision(
    check: PluginFileCheck,
    same_revision: bool,
    existing: &Option<InstallManifestEntry>,
    summary: &InstalledFileSummary,
    excluded_by_package: bool,
    previous: Option<PluginFileChoiceKind>,
) -> (r: PluginCandidateDecision)
    ensures
        r == candidate_decision_spec(check, same_revision, *existing, *summary, excluded_by_package, previous),
        r.selectable <==> (!excluded_by_package && (check == PluginFileCheck::Supported || (same_revision
            && existing is Some && !existing->0.adopted && same_summary(existing->0.installed_file, *summary)))),
        r.selected ==> r.selectable,
        previous is Some ==> (r.selected <==> (r.selectable && !(previous->0 is Exclude))),
        previous is None && same_revision ==> (r.selected <==> (!excluded_by_package && existing is Some
            && !existing->0.adopted && same_summary(existing->0.installed_file, *summary))),
        previous is None && !same_revision ==> (r.selected <==> (!excluded_by_package && check
            == PluginFileCheck::Supported)),
        r.retain_only <==> (check != PluginFileCheck::Supported && same_revision && existing is Some
            && !existing->0.adopted && same_summary(existing->0.installed_file, *summary)),
{
    let trusted = same_revision && match existing {
        Some(e) => !e.adopted && same_summary_exec(&e.installed_file, summary),
        None => false,
    };
    let supported = check == PluginFileCheck::Supported;
    let selectable = !excluded_by_package && (supported || trusted);
    let selected = selectable && match previous {
        Some(choice) => choice.is_included(),
        None => if same_revision {
            trusted
        } else {
            supported
        },
    };
    PluginCandidateDecision { selectable, selected, retain_only: !supported && trusted }
}

pub open spec fn has_id(ids: Seq<String>, id: Seq<char>) -> bool {
    exists|k: int| 0 <= k < ids.len() && (#[trigger] ids[k])@ == id
}

/// The first candidate with the id.
pub open spec fn candidate_from(candidates: Seq<PluginCandidate>, id: Seq<char>, k: int) -> Option<PluginCandidate>
    decreases candidates.len() - k,
{
    if k < 0 || k >= candidates.len() {
        None
    } else if candidates[k].package_file_id@ == id {
        Some(candidates[k])
    } else {
        candidate_from(candidates, id, k + 1)
    }
}

pub open spec fn selectable_id(candidates: Seq<PluginCandidate>, id: Seq<char>) -> bool {
    exists|k: int| 0 <= k < candidates.len() && (#[trigger] candidates[k]).package_file_id@ == id && candidates[k].selectable
}

/// The player's choice is acceptable: no id twice, each the id of a selectable candidate.
pub open spec fn valid_choice(candidates: Seq<PluginCandidate>, included: Seq<String>) -> bool {
    &&& forall|i: int, j: int| 0 <= i < j < included.len() ==> (#[trigger] included[i])@ != (#[trigger] included[j])@
    &&& forall|i: int| 0 <= i < included.len() ==> selectable_id(candidates, (#[trigger] included[i])@)
}

/// Each file of the selection, chosen as the player asked.
pub open spec fn rechosen(file: PluginFileChoice, candidates: Seq<PluginCandidate>, included: Seq<String>) -> PluginFileChoice {
    PluginFileChoice {
        choice: choice_kind_spec(
            has_id(included, file.package_file_id@),
            candidate_from(candidates, file.package_file_id@, 0).unwrap().retain_only,
        ),
        ..file
    }
}

/// Every file of the selection has its candidate.
pub open spec fn inventory_complete(inventory: PluginInventory) -> bool {
    forall|i: int|
        0 <= i < inventory.selection.files@.len() ==> candidate_from(
            inventory.candidates@,
            (#[trigger] inventory.selection.files@[i]).package_file_id@,
            0,
        ) is Some
}

fn find_candidate(candidates: &Vec<PluginCandidate>, id: &str) -> (r: Option<usize>)
    ensures
        match r {
            Some(k) => k < candidates@.len() && candidate_from(candidates@, id@, 0) == Some(candidates@[k as int]),
            None => candidate_from(candidates@, id@, 0) is None,
        },
{
    let mut k: usize = 0;
    while k < candidates.len()
        invariant
            0 <= k <= candidates@.len(),
            candidate_from(candidates@, id@, 0) == candidate_from(candidates@, id@, k as int),
        decreases candidates@.len() - k,
    {
        if str_equal(candidates[k].package_file_id.as_str(), id) {
            return Some(k);
        }
        k = k + 1;
    }
    None
}

pub(crate) fn contains_id(ids: &Vec<String>, id: &str) -> (r: bool)
    ensures
        r == has_id(ids@, id@),
{
    let mut k: usize = 0;
    while k < ids.len()
        invariant
            0 <= k <= ids@.len(),
            forall|j: int| 0 <= j < k ==> (#[trigger] ids@[j])@ != id@,
        decreases ids@.len() - k,
    {
        if str_equal(ids[k].as_str(), id) {
            return true;
        }
        k = k + 1;
    }
    false
}

fn is_selectable_id(candidates: &Vec<PluginCandidate>, id: &str) -> (r: bool)
    ensures
        r == selectable_id(candidates@, id@),
{
    let mut k: usize = 0;
    while k < candidates.len()
        invariant
            0 <= k <= candidates@.len(),
            forall|j: int| 0 <= j < k ==> !((#[trigger] candidates@[j]).package_file_id@ == id@ && candidates@[j].selectable),
        decreases candidates@.len() - k,
    {
        if candidates[k].selectable && str_equal(candidates[k].package_file_id.as_str(), id) {
            return true;
        }
        k = k + 1;
    }
    false
}

pub(crate) fn clone_summary(s: &InstalledFileSummary) -> (r: InstalledFileSummary)
    ensures
        r.size_bytes == s.size_bytes && r.sha256@ == s.sha256@,
{
    InstalledFileSummary { size_bytes: s.size_bytes, sha256: s.sha256.clone() }
}

/// The selection's files with the player's choice applied: refused when an id comes twice or
/// is not a selectable candidate; otherwise each file is included when its id was chosen,
/// kept only as installed when its candidate can only be kept.
pub fn chosen_files(current: &PluginInventory, included: &Vec<String>) -> (r: Result<
    Vec<PluginFileChoice>,
    PluginSelectionServiceError,
>)
    requires
        inventory_complete(*current),
    ensures
        match r {
            Ok(files) => valid_choice(current.candidates@, included@) && files@.len()
                == current.selection.files@.len() && forall|i: int|
                0 <= i < files@.len() ==> {
                    let expected = rechosen(current.selection.files@[i], current.candidates@, included@);
                    &&& (#[trigger] files@[i]).package_file_id@ == expected.package_file_id@
                    &&& files@[i].target_path@ == expected.target_path@
                    &&& files@[i].source_file.size_bytes == expected.source_file.size_bytes
                    &&& files@[i].source_file.sha256@ == expected.source_file.sha256@
                    &&& files@[i].choice == expected.choice
                    &&& files@[i].excluded_by_package_selection == expected.excluded_by_package_selection
                },
            Err(e) => !valid_choice(current.candidates@, included@) && e
                == PluginSelectionServiceError::InvalidSelection,
        },
{
    let mut i: usize = 0;
    while i < included.len()
        invariant
            0 <= i <= included@.len(),
            forall|a: int, b: int| 0 <= a < b < i ==> (#[trigger] included@[a])@ != (#[trigger] included@[b])@,
            forall|a: int| 0 <= a < i ==> selectable_id(current.candidates@, (#[trigger] included@[a])@),
        decreases included@.len() - i,
    {
        let mut j: usize = 0;
        while j < i
            invariant
                0 <= j <= i < included@.len(),
                forall|a: int| 0 <= a < j ==> (#[trigger] included@[a])@ != included@[i as int]@,
            decreases i - j,
        {
            if str_equal(included[j].as_str(), included[i].as_str()) {
                return Err(PluginSelectionServiceError::InvalidSelection);
            }
            j = j + 1;
        }
        if !is_selectable_id(&current.candidates, included[i].as_str()) {
            return Err(PluginSelectionServiceError::InvalidSelection);
        }
        i = i + 1;
    }
    let files = &current.selection.files;
    let mut out: Vec<PluginFileChoice> = Vec::new();
    let mut k: usize = 0;
    while k < files.len()
        invariant
            inventory_complete(*current),
            *files == current.selection.files,
            valid_choice(current.candidates@, included@),
            0 <= k <= files@.len(),
            out@.len() == k,
            forall|x: int|
                0 <= x < k ==> {
                    let expected = rechosen(files@[x], current.candidates@, included@);
                    &&& (#[trigger] out@[x]).package_file_id@ == expected.package_file_id@
                    &&& out@[x].target_path@ == expected.target_path@
                    &&& out@[x].source_file.size_bytes == expected.source_file.size_bytes
                    &&& out@[x].source_file.sha256@ == expected.source_file.sha256@
                    &&& out@[x].choice == expected.choice
                    &&& out@[x].excluded_by_package_selection == expected.excluded_by_package_selection
                },
        decreases files@.len() - k,
    {
        let file = &files[k];
        assert(candidate_from(current.candidates@, files@[k as int].package_file_id@, 0) is Some);
        let position = find_candidate(&current.candidates, file.package_file_id.as_str());
        let c = position.unwrap();
        let chosen = contains_id(included, file.package_file_id.as_str());
        out.push(
            PluginFileChoice {
                package_file_id: file.package_file_id.clone(),
                target_path: file.target_path.clone(),
                source_file: clone_summary(&file.source_file),
                choice: choice_kind(chosen, current.candidates[c].retain_only),
                excluded_by_package_selection: file.excluded_by_package_selection,
            },
        );
        k = k + 1;
    }
    Ok(out)
}

/// The first manifest entry of the Mod.
pub open spec fn installed_entry_from(entries: Seq<InstallManifestEntry>, mod_id: Seq<char>, k: int) -> Option<
    InstallManifestEntry,
>
    decreases entries.len() - k,
{
    if k < 0 || k >= entries.len() {
        None
    } else if entries[k].mod_id@ == mod_id {
        Some(entries[k])
    } else {
        installed_entry_from(entries, mod_id, k + 1)
    }
}

/// The profile has the scope's Mod installed from the scope's revision (or from a revision the
/// manifest does not name).
pub open spec fn same_revision_spec(manifest: Option<InstallManifest>, scope: PluginSelectionScope) -> bool {
    match manifest {
        Some(m) => match installed_entry_from(m.entries@, scope.mod_id@, 0) {
            Some(e) => match e.revision_id {
                Some(r) => r@ == scope.revision_id@,
                None => true,
            },
            None => false,
        },
        None => false,
    }
}

pub fn same_revision(manifest: &Option<InstallManifest>, scope: &PluginSelectionScope) -> (r: bool)
    ensures
        r == same_revision_spec(*manifest, *scope),
{
    match manifest {
        None => false,
        Some(m) => {
            let mut k: usize = 0;
            while k < m.entries.len()
                invariant
                    *manifest == Some(*m),
                    0 <= k <= m.entries@.len(),
                    installed_entry_from(m.entries@, scope.mod_id@, 0) == installed_entry_from(
                        m.entries@,
                        scope.mod_id@,
                        k as int,
                    ),
                decreases m.entries@.len() - k,
            {
                let entry = &m.entries[k];
                if str_equal(entry.mod_id.as_str(), scope.mod_id.as_str()) {
                    assert(installed_entry_from(m.entries@, scope.mod_id@, k as int) == Some(m.entries@[k as int]));
                    return match &entry.revision_id {
                        Some(r) => str_equal(r.as_str(), scope.revision_id.as_str()),
                        None => true,
                    };
                }
                k = k + 1;
            }
            false
        },
    }
}

/// The manifest holds this file of the Mod installed unchanged from the scope's revision.
pub open spec fn unchanged_managed(manifest: Option<InstallManifest>, scope: PluginSelectionScope, file: PluginFileChoice) -> bool {
    match manifest {
        Some(m) => exists|k: int|
            0 <= k < m.entries@.len() && owns(#[trigger] m.entries@[k], scope.mod_id@, file) && unchanged_copy(
                m.entries@[k],
                scope,
                file,
            ),
        None => false,
    }
}

/// The first file of the selection with the id.
pub open spec fn file_from(files: Seq<PluginFileChoice>, id: Seq<char>, k: int) -> Option<PluginFileChoice>
    decreases files.len() - k,
{
    if k < 0 || k >= files.len() {
        None
    } else if files[k].package_file_id@ == id {
        Some(files[k])
    } else {
        file_from(files, id, k + 1)
    }
}

/// A candidate's state differs from what is installed: selected but not installed unchanged,
/// or left out while installed.
pub open spec fn candidate_changes(
    manifest: Option<InstallManifest>,
    scope: PluginSelectionScope,
    candidate: PluginCandidate,
    files: Seq<PluginFileChoice>,
) -> bool {
    let file = file_from(files, candidate.package_file_id@, 0).unwrap();
    (candidate.selected && !unchanged_managed(manifest, scope, file)) || (!candidate.selected && candidate.installed)
}

/// The player must confirm the inventory's selection: nothing was confirmed on this inventory
/// and some candidate would change what is installed.
pub open spec fn confirmation_required_spec(
    manifest: Option<InstallManifest>,
    scope: PluginSelectionScope,
    confirmed_on_inventory: bool,
    candidates: Seq<PluginCandidate>,
    files: Seq<PluginFileChoice>,
) -> bool {
    !confirmed_on_inventory && exists|k: int|
        0 <= k < candidates.len() && candidate_changes(manifest, scope, #[trigger] candidates[k], files)
}

fn find_file(files: &Vec<PluginFileChoice>, id: &str) -> (r: Option<usize>)
    ensures
        match r {
            Some(k) => k < files@.len() && file_from(files@, id@, 0) == Some(files@[k as int]),
            None => file_from(files@, id@, 0) is None,
        },
{
    let mut k: usize = 0;
    while k < files.len()
        invariant
            0 <= k <= files@.len(),
            file_from(files@, id@, 0) == file_from(files@, id@, k as int),
        decreases files@.len() - k,
    {
        if str_equal(files[k].package_file_id.as_str(), id) {
            return Some(k);
        }
        k = k + 1;
    }
    None
}

fn is_unchanged_managed(manifest: &Option<InstallManifest>, scope: &PluginSelectionScope, file: &PluginFileChoice) -> (r: bool)
    ensures
        r == unchanged_managed(*manifest, *scope, *file),
{
    match manifest {
        None => false,
        Some(m) => {
            let mut k: usize = 0;
            while k < m.entries.len()
                invariant
                    *manifest == Some(*m),
                    0 <= k <= m.entries@.len(),
                    forall|j: int|
                        0 <= j < k ==> !(owns(#[trigger] m.entries@[j], scope.mod_id@, *file) && unchanged_copy(
                            m.entries@[j],
                            *scope,
                            *file,
                        )),
                decreases m.entries@.len() - k,
            {
                let entry = &m.entries[k];
                if str_equal(entry.mod_id.as_str(), scope.mod_id.as_str()) && str_equal(
                    entry.package_file_id.as_str(),
                    file.package_file_id.as_str(),
                ) && eq_ignore_ascii_case(entry.target_path.as_str(), file.target_path.as_str())
                    && is_unchanged_copy(entry, scope, file) {
                    assert(owns(m.entries@[k as int], scope.mod_id@, *file) && unchanged_copy(m.entries@[k as int], *scope, *file));
                    let ghost whole = manifest.unwrap();
                    assert(whole.entries@[k as int] == m.entries@[k as int]);
                    assert(0 <= k < whole.entries@.len() && owns(whole.entries@[k as int], scope.mod_id@, *file)
                        && unchanged_copy(whole.entries@[k as int], *scope, *file));
                    return true;
                }
                k = k + 1;
            }
            false
        },
    }
}

/// Whether the player must confirm an inventory's selection before a plan may apply it.
pub fn confirmation_required(
    manifest: &Option<InstallManifest>,
    scope: &PluginSelectionScope,
    confirmed_on_inventory: bool,
    candidates: &Vec<PluginCandidate>,
    files: &Vec<PluginFileChoice>,
) -> (r: bool)
    requires
        forall|k: int| 0 <= k < candidates@.len() ==> file_from(files@, (#[trigger] candidates@[k]).package_file_id@, 0) is Some,
    ensures
        r == confirmation_required_spec(*manifest, *scope, confirmed_on_inventory, candidates@, files@),
{
    if confirmed_on_inventory {
        return false;
    }
    let mut k: usize = 0;
    while k < candidates.len()
        invariant
            !confirmed_on_inventory,
            forall|x: int| 0 <= x < candidates@.len() ==> file_from(files@, (#[trigger] candidates@[x]).package_file_id@, 0) is Some,
            0 <= k <= candidates@.len(),
            forall|j: int| 0 <= j < k ==> !candidate_changes(*manifest, *scope, #[trigger] candidates@[j], files@),
        decreases candidates@.len() - k,
    {
        let candidate = &candidates[k];
        assert(file_from(files@, candidates@[k as int].package_file_id@, 0) is Some);
        let f = find_file(files, candidate.package_file_id.as_str()).unwrap();
        let changes = (candidate.selected && !is_unchanged_managed(manifest, scope, &files[f])) || (!candidate.selected
            && candidate.installed);
        if changes {
            assert(candidate_changes(*manifest, *scope, candidates@[k as int], files@));
            return true;
        }
        k = k + 1;
    }
    false
}

/// What a retargeted install does with a package file.
#[derive(Debug, Clone, Copy, PartialEq, Eq, Structural)]
pub enum RetargetFileDisposition {
    PackageCompanion,
    InstalledAttachmentRetained,
    PluginCandidate,
    PolicyExcluded,
}

/// Why it does so.
#[derive(Debug, Clone, Copy, PartialEq, Eq, Structural)]
pub enum RetargetFileReason {
    PluginSelected,
    InstalledAttachment,
    PluginNotIncluded,
    ExecutablePolicy,
}

/// The effect of a plugin choice on one package file.
#[derive(Debug, Clone, PartialEq, Eq)]
pub struct RetargetFileEffect {
    pub package_file_id: String,
    pub source_id: Option<String>,
    pub source_path: String,
    pub target_path: Option<String>,
    pub disposition: RetargetFileDisposition,
    pub reason: RetargetFileReason,
}

/// A game's rules for plugin files.
pub trait GamePluginPolicy {
    fn game_id(&self) -> String;

    fn is_candidate(&self, target_path: &str) -> bool;
}

pub open spec fn disposition_spec(choice: PluginFileChoiceKind, is_plugin: bool) -> RetargetFileDisposition {
    match choice {
        PluginFileChoiceKind::Include => RetargetFileDisposition::PackageCompanion,
        PluginFileChoiceKind::RetainInstalled => RetargetFileDisposition::InstalledAttachmentRetained,
        PluginFileChoiceKind::Exclude => if is_plugin {
            RetargetFileDisposition::PluginCandidate
        } else {
            RetargetFileDisposition::PolicyExcluded
        },
    }
}

pub open spec fn reason_spec(choice: PluginFileChoiceKind, is_plugin: bool) -> RetargetFileReason {
    match choice {
        PluginFileChoiceKind::Include => RetargetFileReason::PluginSelected,
        PluginFileChoiceKind::RetainInstalled => RetargetFileReason::InstalledAttachment,
        PluginFileChoiceKind::Exclude => if is_plugin {
            RetargetFileReason::PluginNotIncluded
        } else {
            RetargetFileReason::ExecutablePolicy
        },
    }
}

/// `effect` is what choosing `file` does, the file being a plugin candidate or not as `is_plugin`
/// says: the file keeps its path when included, and the disposition and reason follow the choice.
pub open spec fn effect_of(effect: RetargetFileEffect, file: PluginFileChoice, is_plugin: bool) -> bool {
    &&& effect.package_file_id@ == file.package_file_id@
    &&& effect.source_id is None
    &&& effect.source_path@ == file.target_path@
    &&& match effect.target_path {
        Some(t) => file.choice.included() && t@ == file.target_path@,
        None => !file.choice.included(),
    }
    &&& effect.disposition == disposition_spec(file.choice, is_plugin)
    &&& effect.reason == reason_spec(file.choice, is_plugin)
}

/// The effect of choosing `file`.
pub fn file_effect(file: &PluginFileChoice, is_plugin: bool) -> (r: RetargetFileEffect)
    ensures
        effect_of(r, *file, is_plugin),
{
    let disposition = match file.choice {
        PluginFileChoiceKind::Include => RetargetFileDisposition::PackageCompanion,
        PluginFileChoiceKind::RetainInstalled => RetargetFileDisposition::InstalledAttachmentRetained,
        PluginFileChoiceKind::Exclude => if is_plugin {
            RetargetFileDisposition::PluginCandidate
        } else {
            RetargetFileDisposition::PolicyExcluded
        },
    };
    let reason = match file.choice {
        PluginFileChoiceKind::Include => RetargetFileReason::PluginSelected,
        PluginFileChoiceKind::RetainInstalled => RetargetFileReason::InstalledAttachment,
        PluginFileChoiceKind::Exclude => if is_plugin {
            RetargetFileReason::PluginNotIncluded
        } else {
            RetargetFileReason::ExecutablePolicy
        },
    };
    let target_path = if file.choice.is_included() {
        Some(file.target_path.clone())
    } else {
        None
    };
    RetargetFileEffect {
        package_file_id: file.package_file_id.clone(),
        source_id: None,
        source_path: file.target_path.clone(),
        target_path,
        disposition,
        reason,
    }
}

/// The files of the selections, one selection after another.
pub open spec fn all_files(selections: Seq<PluginSelectionSnapshot>) -> Seq<PluginFileChoice>
    decreases selections.len(),
{
    if selections.len() == 0 {
        Seq::empty()
    } else {
        all_files(selections.drop_last()) + selections.last().files@
    }
}

fn is_plugin_file<P: GamePluginPolicy>(policies: &Vec<P>, game_id: &str, target_path: &str) -> (r: bool)
    ensures
        policies@.len() == 0 ==> !r,
{
    let mut k: usize = 0;
    while k < policies.len()
        invariant
            0 <= k <= policies@.len(),
        decreases policies@.len() - k,
    {
        let policy_game = policies[k].game_id();
        if str_equal(policy_game.as_str(), game_id) && policies[k].is_candidate(target_path) {
            return true;
        }
        k = k + 1;
    }
    false
}

/// `effect` is what choosing `file` does, whether or not the file is a plugin candidate.
pub open spec fn effect_fits(effect: RetargetFileEffect, file: PluginFileChoice) -> bool {
    effect_of(effect, file, true) || effect_of(effect, file, false)
}

/// The effect of every file of the selections, in order; a left-out file counts as a plugin
/// candidate when a policy of its game says so.
pub fn file_effects<P: GamePluginPolicy>(policies: &Vec<P>, selections: &Vec<PluginSelectionSnapshot>) -> (r: Vec<
    RetargetFileEffect,
>)
    ensures
        r@.len() == all_files(selections@).len(),
        forall|i: int| 0 <= i < r@.len() ==> effect_fits(#[trigger] r@[i], all_files(selections@)[i]),
{
    let mut out: Vec<RetargetFileEffect> = Vec::new();
    let mut s: usize = 0;
    proof {
        assert(selections@.subrange(0, 0) =~= Seq::<PluginSelectionSnapshot>::empty());
    }
    while s < selections.len()
        invariant
            0 <= s <= selections@.len(),
            out@.len() == all_files(selections@.subrange(0, s as int)).len(),
            forall|i: int|
                0 <= i < out@.len() ==> effect_fits(#[trigger] out@[i], all_files(selections@.subrange(0, s as int))[i]),
        decreases selections@.len() - s,
    {
        let selection = &selections[s];
        let ghost before = all_files(selections@.subrange(0, s as int));
        let ghost after = before + selection.files@;
        proof {
            assert(selections@.subrange(0, s + 1).drop_last() =~= selections@.subrange(0, s as int));
            assert(all_files(selections@.subrange(0, s + 1)) == after);
            assert forall|i: int| 0 <= i < before.len() implies #[trigger] after[i] == before[i] by {}
        }
        let mut f: usize = 0;
        while f < selection.files.len()
            invariant
                0 <= f <= selection.files@.len(),
                after == before + selection.files@,
                out@.len() == before.len() + f,
                forall|i: int| 0 <= i < out@.len() ==> effect_fits(#[trigger] out@[i], after[i]),
            decreases selection.files@.len() - f,
        {
            let file = &selection.files[f];
            let plugin = is_plugin_file(policies, selection.scope.game_id.as_str(), file.target_path.as_str());
            let effect = file_effect(file, plugin);
            proof {
                assert(after[before.len() + f] == selection.files@[f as int]);
            }
            let ghost old_out = out@;
            out.push(effect);
            proof {
                assert forall|i: int| 0 <= i < out@.len() implies effect_fits(#[trigger] out@[i], after[i]) by {
                    if i < old_out.len() {
                        assert(out@[i] == old_out[i]);
                    }
                }
            }
            f = f + 1;
        }
        s = s + 1;
    }
    proof {
        assert(selections@.subrange(0, selections@.len() as int) =~= selections@);
    }
    out
}
} // verus!
