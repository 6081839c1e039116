//! Entries of the Mod library and their install status, as the library views present them.
use crate::ids::{ModId, ModRevisionId, ProfileId};
use vstd::prelude::*;

verus! {

/// Install state of one Mod in one profile.
#[derive(Debug, Clone, Copy, PartialEq, Eq, Structural)]
pub enum InstallManifestStatus {
    NotInstalled,
    Installed,
    CommittedCleanupPending,
    CleanupPending,
    RollbackRequired,
    RepairRequired,
    Unknown,
}

/// Install facts of one Mod in one profile.
#[derive(Debug, Clone, PartialEq, Eq)]
pub struct InstallManifestStatusSummary {
    pub profile_id: ProfileId,
    pub mod_id: ModId,
    pub status: InstallManifestStatus,
    pub managed_file_count: usize,
    pub backup_count: usize,
    pub installed_revision_id: Option<ModRevisionId>,
    pub adopted_file_count: Option<usize>,
}

/// A category label shown on a library entry.
#[derive(Debug, Clone, PartialEq, Eq)]
pub struct CategoryLabel {
    pub name: String,
    pub color: Option<String>,
}

/// One entry of the Mod library as the list shows it (metadata overlay already applied).
#[derive(Debug, Clone, PartialEq, Eq)]
pub struct ModLibraryItem {
    pub id: String,
    pub name: String,
    pub author: Option<String>,
    pub version_label: Option<String>,
    pub size_label: String,
    pub category_labels: Vec<CategoryLabel>,
    pub external_import_adapter_id: Option<String>,
}

/// A library entry together with the ids of the user categories it belongs to.
#[derive(Debug, Clone, PartialEq, Eq)]
pub struct ModLibrarySnapshotItem {
    pub item: ModLibraryItem,
    pub user_category_ids: Vec<String>,
}

pub fn clone_string_option(value: &Option<String>) -> (r: Option<String>)
    ensures
        r == *value,
{
    match value {
        Some(s) => Some(s.clone()),
        None => None,
    }
}

impl CategoryLabel {
    pub fn duplicate(&self) -> (r: CategoryLabel)
        ensures
            r == *self,
    {
        CategoryLabel { name: self.name.clone(), color: clone_string_option(&self.color) }
    }
}

impl ModLibraryItem {
    pub fn duplicate(&self) -> (r: ModLibraryItem)
        ensures
            r.id == self.id,
            r.name == self.name,
            r.author == self.author,
            r.version_label == self.version_label,
            r.size_label == self.size_label,
            r.category_labels@ == self.category_labels@,
            r.external_import_adapter_id == self.external_import_adapter_id,
    {
        let mut labels: Vec<CategoryLabel> = Vec::new();
        let mut i: usize = 0;
        while i < self.category_labels.len()
            invariant
                0 <= i <= self.category_labels@.len(),
                labels@ == self.category_labels@.subrange(0, i as int),
            decreases self.category_labels@.len() - i,
        {
            let label = self.category_labels[i].duplicate();
            labels.push(label);
            proof {
                assert(labels@ =~= self.category_labels@.subrange(0, i + 1));
            }
            i = i + 1;
        }
        proof {
            assert(labels@ =~= self.category_labels@);
        }
        ModLibraryItem {
            id: self.id.clone(),
            name: self.name.clone(),
            author: clone_string_option(&self.author),
            version_label: clone_string_option(&self.version_label),
            size_label: self.size_label.clone(),
            category_labels: labels,
            external_import_adapter_id: clone_string_option(&self.external_import_adapter_id),
        }
    }
}

/// Field-wise equality of two library items as the contracts compare them.
pub open spec fn same_item(a: ModLibraryItem, b: ModLibraryItem) -> bool {
    &&& a.id == b.id
    &&& a.name == b.name
    &&& a.author == b.author
    &&& a.version_label == b.version_label
    &&& a.size_label == b.size_label
    &&& a.category_labels@ == b.category_labels@
    &&& a.external_import_adapter_id == b.external_import_adapter_id
}

impl InstallManifestStatusSummary {
    pub fn duplicate(&self) -> (r: InstallManifestStatusSummary)
        ensures
            r == *self,
    {
        InstallManifestStatusSummary {
            profile_id: self.profile_id.duplicate(),
            mod_id: self.mod_id.duplicate(),
            status: self.status,
            managed_file_count: self.managed_file_count,
            backup_count: self.backup_count,
            installed_revision_id: match &self.installed_revision_id {
                Some(r) => Some(r.duplicate()),
                None => None,
            },
            adopted_file_count: self.adopted_file_count,
        }
    }
}

} // verus!
