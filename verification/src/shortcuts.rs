//! Shortcuts from a library entry: its package folder and its NexusMods page. Both resolve from
//! the entry's display revision; callers supply a Mod identity, never a path or a URL.
use crate::ids::{ModId, ModRevisionId};
use crate::metadata::{ModMetadataOverlay, PortFailure};
use crate::text::{decimal, decimal_string, is_blank, is_blank_str, str_equal, utf8_len, utf8_len_exceeds};
use vstd::prelude::*;

verus! {

#[derive(Debug, Clone, Copy, PartialEq, Eq, Structural)]
pub enum ModShortcutError {
    InvalidMod,
    NotFound,
    Unavailable,
    FolderUnavailable,
    NexusIdMissing,
}

pub open spec fn shortcut_error_code(error: ModShortcutError) -> Seq<char> {
    match error {
        ModShortcutError::InvalidMod => "mod_shortcut_mod_invalid"@,
        ModShortcutError::NotFound => "mod_shortcut_mod_not_found"@,
        ModShortcutError::Unavailable => "mod_shortcut_unavailable"@,
        ModShortcutError::FolderUnavailable => "mod_folder_unavailable"@,
        ModShortcutError::NexusIdMissing => "mod_nexus_id_missing"@,
    }
}

impl ModShortcutError {
    pub fn code(self) -> (r: &'static str)
        ensures
            r@ == shortcut_error_code(self),
    {
        match self {
            ModShortcutError::InvalidMod => "mod_shortcut_mod_invalid",
            ModShortcutError::NotFound => "mod_shortcut_mod_not_found",
            ModShortcutError::Unavailable => "mod_shortcut_unavailable",
            ModShortcutError::FolderUnavailable => "mod_folder_unavailable",
            ModShortcutError::NexusIdMissing => "mod_nexus_id_missing",
        }
    }
}

/// A logical Mod as the import catalog records it.
#[derive(Debug, Clone, PartialEq, Eq)]
pub struct StoredLogicalMod {
    pub mod_id: ModId,
    pub origin_revision_id: ModRevisionId,
    pub display_revision_id: ModRevisionId,
}

/// One imported revision of a logical Mod.
#[derive(Debug, Clone, PartialEq, Eq)]
pub struct StoredModRevision {
    pub revision_id: ModRevisionId,
    pub mod_id: ModId,
    pub package_id: String,
    pub display_name: String,
}

/// Longest Mod identity accepted, in UTF-8 bytes.
pub const MAX_MOD_ID_BYTES: usize = 256;

/// A Mod identity a caller may ask about: not blank and at most 256 UTF-8 bytes.
pub open spec fn valid_mod_identity(mod_id: Seq<char>) -> bool {
    !is_blank(mod_id) && utf8_len(mod_id) <= MAX_MOD_ID_BYTES
}

pub fn check_mod_identity(mod_id: &str) -> (r: Result<(), ModShortcutError>)
    ensures
        r is Ok <==> valid_mod_identity(mod_id@),
        r is Err ==> r == Err::<(), _>(ModShortcutError::InvalidMod),
{
    if is_blank_str(mod_id) || utf8_len_exceeds(mod_id, MAX_MOD_ID_BYTES) {
        Err(ModShortcutError::InvalidMod)
    } else {
        Ok(())
    }
}

/// The package of the entry's display revision, given what the catalog answered: the entry
/// must exist, its display revision must exist, and both must belong to `mod_id`.
pub open spec fn display_package_spec(
    mod_id: Seq<char>,
    entry: Result<Option<StoredLogicalMod>, PortFailure>,
    revision: Result<Option<StoredModRevision>, PortFailure>,
) -> Result<Seq<char>, ModShortcutError> {
    match entry {
        Err(_) => Err(ModShortcutError::Unavailable),
        Ok(None) => Err(ModShortcutError::NotFound),
        Ok(Some(entry)) => match revision {
            Err(_) => Err(ModShortcutError::Unavailable),
            Ok(None) => Err(ModShortcutError::Unavailable),
            Ok(Some(revision)) => if entry.mod_id@ != mod_id || revision.mod_id@ != mod_id
                || revision.revision_id@ != entry.display_revision_id@ {
                Err(ModShortcutError::Unavailable)
            } else {
                Ok(revision.package_id@)
            },
        },
    }
}

/// `r` is what the catalog's answers give: the display revision's package, or the refusal.
pub open spec fn package_fits(
    mod_id: Seq<char>,
    entry: Result<Option<StoredLogicalMod>, PortFailure>,
    revision: Result<Option<StoredModRevision>, PortFailure>,
    r: Result<String, ModShortcutError>,
) -> bool {
    match display_package_spec(mod_id, entry, revision) {
        Ok(p) => r matches Ok(s) && s@ == p,
        Err(e) => r == Err::<String, ModShortcutError>(e),
    }
}

/// Opening the folder with the requests `requests` made of the opener: the catalog's refusal
/// with no request, else one request for the display revision's package, whose answer decides.
pub open spec fn folder_trace(
    mod_id: Seq<char>,
    entry: Result<Option<StoredLogicalMod>, PortFailure>,
    revision: Result<Option<StoredModRevision>, PortFailure>,
    opened: Result<(), PortFailure>,
    r: Result<(), ModShortcutError>,
    requests: OpenedFolders,
) -> bool {
    &&& folder_fits(mod_id, entry, revision, opened, r)
    &&& match display_package_spec(mod_id, entry, revision) {
        Err(_) => requests.len() == 0,
        Ok(p) => requests == seq![(p, opened)],
    }
}

/// Opening the folder: the catalog's refusal, else the opener's answer for the package.
pub open spec fn folder_fits(
    mod_id: Seq<char>,
    entry: Result<Option<StoredLogicalMod>, PortFailure>,
    revision: Result<Option<StoredModRevision>, PortFailure>,
    opened: Result<(), PortFailure>,
    r: Result<(), ModShortcutError>,
) -> bool {
    match display_package_spec(mod_id, entry, revision) {
        Err(e) => r == Err::<(), ModShortcutError>(e),
        Ok(_) => match opened {
            Ok(()) => r is Ok,
            Err(_) => r == Err::<(), ModShortcutError>(ModShortcutError::FolderUnavailable),
        },
    }
}

/// Checks the catalog's answers for `mod_id` and returns the display revision's package.
pub fn display_package(
    mod_id: &str,
    entry: &Result<Option<StoredLogicalMod>, PortFailure>,
    revision: &Result<Option<StoredModRevision>, PortFailure>,
) -> (r: Result<String, ModShortcutError>)
    ensures
        r matches Ok(p) ==> display_package_spec(mod_id@, *entry, *revision) == Ok::<_, ModShortcutError>(p@),
        r matches Err(e) ==> display_package_spec(mod_id@, *entry, *revision) == Err::<Seq<char>, _>(e),
{
    match entry {
        Err(_) => Err(ModShortcutError::Unavailable),
        Ok(None) => Err(ModShortcutError::NotFound),
        Ok(Some(entry)) => match revision {
            Err(_) => Err(ModShortcutError::Unavailable),
            Ok(None) => Err(ModShortcutError::Unavailable),
            Ok(Some(revision)) => {
                if !str_equal(entry.mod_id.as_str(), mod_id) || !str_equal(
                    revision.mod_id.as_str(),
                    mod_id,
                ) || !str_equal(
                    revision.revision_id.as_str(),
                    entry.display_revision_id.as_str(),
                ) {
                    Err(ModShortcutError::Unavailable)
                } else {
                    Ok(revision.package_id.clone())
                }
            },
        },
    }
}

/// The NexusMods id the overlay of `mod_id` gives, if it is a usable one (present and not 0).
pub open spec fn nexus_id_spec(
    mod_id: Seq<char>,
    overlay: Result<Option<ModMetadataOverlay>, PortFailure>,
) -> Result<u64, ModShortcutError> {
    match overlay {
        Err(_) => Err(ModShortcutError::Unavailable),
        Ok(Some(o)) => if o.mod_id@ == mod_id && o.nexus_mod_id is Some && o.nexus_mod_id->0 > 0 {
            Ok(o.nexus_mod_id->0)
        } else {
            Err(ModShortcutError::NexusIdMissing)
        },
        Ok(None) => Err(ModShortcutError::NexusIdMissing),
    }
}

/// The NexusMods page of `nexus_id` under `base`.
pub open spec fn nexus_url_spec(base: Seq<char>, nexus_id: u64) -> Seq<char> {
    base + decimal(nexus_id as nat)
}

pub fn nexus_page_url_for(
    base: &str,
    mod_id: &str,
    overlay: &Result<Option<ModMetadataOverlay>, PortFailure>,
) -> (r: Result<String, ModShortcutError>)
    ensures
        nexus_id_spec(mod_id@, *overlay) matches Ok(id) ==> (r matches Ok(url) && url@
            == nexus_url_spec(base@, id)),
        nexus_id_spec(mod_id@, *overlay) matches Err(e) ==> r == Err::<String, _>(e),
{
    let id = match overlay {
        Err(_) => {
            return Err(ModShortcutError::Unavailable);
        },
        Ok(None) => {
            return Err(ModShortcutError::NexusIdMissing);
        },
        Ok(Some(o)) => {
            if !str_equal(o.mod_id.as_str(), mod_id) {
                return Err(ModShortcutError::NexusIdMissing);
            }
            match o.nexus_mod_id {
                Some(id) if id > 0 => id,
                _ => {
                    return Err(ModShortcutError::NexusIdMissing);
                },
            }
        },
    };
    let mut url = base.to_owned();
    let digits = decimal_string(id as u128);
    url.append(digits.as_str());
    Ok(url)
}

/// What the import catalog answers about logical Mods and revisions.
pub trait ModRevisionCatalog {
    fn get_mod(&self, mod_id: &ModId) -> Result<Option<StoredLogicalMod>, PortFailure>;

    fn get_revision(&self, revision_id: &ModRevisionId) -> Result<Option<StoredModRevision>, PortFailure>;
}

/// Metadata overlays by Mod identity.
pub trait ModMetadataReader {
    fn get(&self, mod_id: &str) -> Result<Option<ModMetadataOverlay>, PortFailure>;
}

/// The folders an opener was asked to open, oldest first, each with its answer.
pub type OpenedFolders = Seq<(Seq<char>, Result<(), PortFailure>)>;

/// Opens a package's folder in the system file manager. `opened_folders` is the record of every
/// request answered; each request appends itself with its answer.
pub trait ModPackageDirectoryOpener {
    spec fn opened_folders(&self) -> OpenedFolders;

    fn open_package_directory(&mut self, package_id: &str) -> (r: Result<(), PortFailure>)
        ensures
            final(self).opened_folders() == old(self).opened_folders().push((package_id@, r)),
    ;
}

pub struct ModShortcutService<
    C: ModRevisionCatalog,
    M: ModMetadataReader,
    O: ModPackageDirectoryOpener,
> {
    imports: C,
    metadata: M,
    directories: O,
    nexus_page_base: &'static str,
}

impl<C: ModRevisionCatalog, M: ModMetadataReader, O: ModPackageDirectoryOpener> ModShortcutService<
    C,
    M,
    O,
> {
    pub fn new(imports: C, metadata: M, directories: O, nexus_page_base: &'static str) -> (r: Self)
        ensures
            r.base() == nexus_page_base@,
    {
        ModShortcutService { imports, metadata, directories, nexus_page_base }
    }

    pub closed spec fn base(&self) -> Seq<char> {
        self.nexus_page_base@
    }

    /// The display revision's package of `mod_id`; an invalid identity is refused before the
    /// catalog is read.
    fn package_id(&self, mod_id: &str) -> (r: Result<String, ModShortcutError>)
        ensures
            !valid_mod_identity(mod_id@) ==> r == Err::<String, _>(ModShortcutError::InvalidMod),
            valid_mod_identity(mod_id@) ==> exists|
                entry: Result<Option<StoredLogicalMod>, PortFailure>,
                revision: Result<Option<StoredModRevision>, PortFailure>,
            | #[trigger] package_fits(mod_id@, entry, revision, r),
    {
        match check_mod_identity(mod_id) {
            Err(e) => {
                return Err(e);
            },
            Ok(()) => {},
        }
        let id = ModId::new(mod_id);
        let entry = self.imports.get_mod(&id);
        let revision = match &entry {
            Ok(Some(e)) => self.imports.get_revision(&e.display_revision_id),
            _ => Ok(None),
        };
        let r = display_package(mod_id, &entry, &revision);
        proof {
            assert(package_fits(mod_id@, entry, revision, r));
        }
        r
    }

    /// The folders the opener was asked to open so far.
    pub closed spec fn opened_folders(&self) -> OpenedFolders {
        self.directories.opened_folders()
    }

    /// Opens the folder of the display revision's package.
    pub fn open_mod_folder(&mut self, mod_id: &str) -> (r: Result<(), ModShortcutError>)
        ensures
            final(self).base() == old(self).base(),
            !valid_mod_identity(mod_id@) ==> r == Err::<(), _>(ModShortcutError::InvalidMod)
                && final(self).opened_folders() == old(self).opened_folders(),
            valid_mod_identity(mod_id@) ==> exists|
                entry: Result<Option<StoredLogicalMod>, PortFailure>,
                revision: Result<Option<StoredModRevision>, PortFailure>,
                opened: Result<(), PortFailure>,
                requests: OpenedFolders,
            | final(self).opened_folders() == old(self).opened_folders() + requests
                && #[trigger] folder_trace(mod_id@, entry, revision, opened, r, requests),
    {
        let looked_up = self.package_id(mod_id);
        let ghost (entry, revision) = if valid_mod_identity(mod_id@) {
            choose|entry: Result<Option<StoredLogicalMod>, PortFailure>, revision: Result<Option<StoredModRevision>, PortFailure>|
                #[trigger] package_fits(mod_id@, entry, revision, looked_up)
        } else {
            (Ok(None), Ok(None))
        };
        let package_id = match looked_up {
            Ok(p) => p,
            Err(e) => {
                proof {
                    assert(self.opened_folders() =~= old(self).opened_folders() + OpenedFolders::empty());
                    if valid_mod_identity(mod_id@) {
                        assert(folder_trace(mod_id@, entry, revision, Ok(()), Err::<(), ModShortcutError>(e), OpenedFolders::empty()));
                    }
                }
                return Err(e);
            },
        };
        let opened = self.directories.open_package_directory(package_id.as_str());
        let r = match opened {
            Ok(()) => Ok(()),
            Err(_) => Err(ModShortcutError::FolderUnavailable),
        };
        proof {
            assert(self.opened_folders() =~= old(self).opened_folders() + seq![(package_id@, opened)]);
            assert(folder_trace(mod_id@, entry, revision, opened, r, seq![(package_id@, opened)]));
        }
        r
    }

    /// The NexusMods page of the entry, from its metadata overlay.
    pub fn nexus_page_url(&self, mod_id: &str) -> (r: Result<String, ModShortcutError>)
        ensures
            !valid_mod_identity(mod_id@) ==> r == Err::<String, _>(ModShortcutError::InvalidMod),
            r matches Ok(url) ==> exists|id: u64| id > 0 && url@ == nexus_url_spec(self.base(), id),
    {
        match self.package_id(mod_id) {
            Err(e) => {
                return Err(e);
            },
            Ok(_) => {},
        }
        let overlay = self.metadata.get(mod_id);
        let r = nexus_page_url_for(self.nexus_page_base, mod_id, &overlay);
        proof {
            if r is Ok {
                let id = nexus_id_spec(mod_id@, overlay)->Ok_0;
                assert(id > 0 && r->Ok_0@ == nexus_url_spec(self.base(), id));
            }
        }
        r
    }
}

} // verus!
