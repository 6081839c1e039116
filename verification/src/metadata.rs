//! User metadata overlays of library entries: what the user typed, normalized before it is
//! stored.
use crate::ids::ModId;
use crate::text::{trim, trim_spec};
use vstd::prelude::*;

verus! {

/// A failure reported by a repository, clock or opener the services call.
#[derive(Debug, Clone, Copy, PartialEq, Eq, Structural)]
pub struct PortFailure;

pub struct UpdateModMetadataRequest {
    pub mod_id: String,
    pub display_name: Option<String>,
    pub author: Option<String>,
    pub version: Option<String>,
    pub description: Option<String>,
    pub nexus_mod_id: Option<u64>,
}

#[derive(Debug, Clone, PartialEq, Eq)]
pub struct ModMetadataOverlay {
    pub mod_id: ModId,
    pub display_name: Option<String>,
    pub author: Option<String>,
    pub version: Option<String>,
    pub description: Option<String>,
    pub nexus_mod_id: Option<u64>,
    pub updated_at: u128,
}

/// An optional text as stored: trimmed, and absent when nothing but whitespace was given.
pub open spec fn normalized_optional(value: Option<Seq<char>>) -> Option<Seq<char>> {
    match value {
        Some(s) => if trim_spec(s).len() == 0 {
            None
        } else {
            Some(trim_spec(s))
        },
        None => None,
    }
}

pub open spec fn opt_view(value: Option<String>) -> Option<Seq<char>> {
    match value {
        Some(s) => Some(s@),
        None => None,
    }
}

pub fn normalize_optional_string(value: Option<String>) -> (r: Option<String>)
    ensures
        opt_view(r) == normalized_optional(opt_view(value)),
{
    match value {
        Some(s) => {
            let t = trim(s.as_str());
            if t.as_str().is_empty() {
                None
            } else {
                Some(t)
            }
        },
        None => None,
    }
}

/// The overlay an update request stores at `now`.
pub open spec fn overlay_matches_request(
    overlay: ModMetadataOverlay,
    request: UpdateModMetadataRequest,
    now: u128,
) -> bool {
    &&& overlay.mod_id@ == request.mod_id@
    &&& opt_view(overlay.display_name) == normalized_optional(opt_view(request.display_name))
    &&& opt_view(overlay.author) == normalized_optional(opt_view(request.author))
    &&& opt_view(overlay.version) == normalized_optional(opt_view(request.version))
    &&& opt_view(overlay.description) == normalized_optional(opt_view(request.description))
    &&& overlay.nexus_mod_id == request.nexus_mod_id
    &&& overlay.updated_at == now
}

pub fn metadata_overlay_from_request(request: UpdateModMetadataRequest, now: u128) -> (r:
    ModMetadataOverlay)
    ensures
        overlay_matches_request(r, request, now),
{
    let UpdateModMetadataRequest { mod_id, display_name, author, version, description, nexus_mod_id } =
        request;
    ModMetadataOverlay {
        mod_id: ModId::new(mod_id.as_str()),
        display_name: normalize_optional_string(display_name),
        author: normalize_optional_string(author),
        version: normalize_optional_string(version),
        description: normalize_optional_string(description),
        nexus_mod_id,
        updated_at: now,
    }
}

/// Where overlays are stored.
pub trait ModMetadataRepository {
    fn get(&self, mod_id: &str) -> Result<Option<ModMetadataOverlay>, PortFailure>;

    fn save(&self, overlay: &ModMetadataOverlay) -> Result<(), PortFailure>;

    fn delete(&self, mod_id: &str) -> Result<(), PortFailure>;
}

/// Wall clock of the application.
pub trait AppClock {
    fn now_unix_millis(&self) -> Result<u128, PortFailure>;
}

pub struct ModMetadataService<R: ModMetadataRepository, C: AppClock> {
    metadata_repository: R,
    clock: C,
}

impl<R: ModMetadataRepository, C: AppClock> ModMetadataService<R, C> {
    pub closed spec fn metadata_repository_spec(&self) -> R {
        self.metadata_repository
    }

    pub closed spec fn clock_spec(&self) -> C {
        self.clock
    }

    pub fn new(metadata_repository: R, clock: C) -> (r: Self)
        ensures
            r.metadata_repository_spec() == metadata_repository,
            r.clock_spec() == clock,
    {
        ModMetadataService { metadata_repository, clock }
    }

    /// Stores the normalized overlay of `request`, stamped with the clock's time; a clock
    /// failure stores nothing.
    pub fn update_metadata(&self, request: UpdateModMetadataRequest) -> Result<(), PortFailure> {
        let now = match self.clock.now_unix_millis() {
            Ok(now) => now,
            Err(e) => {
                return Err(e);
            },
        };
        let overlay = metadata_overlay_from_request(request, now);
        self.metadata_repository.save(&overlay)
    }

    pub fn delete_metadata(&self, mod_id: &str) -> Result<(), PortFailure> {
        self.metadata_repository.delete(mod_id)
    }

    pub fn get_metadata(&self, mod_id: &str) -> Result<Option<ModMetadataOverlay>, PortFailure> {
        self.metadata_repository.get(mod_id)
    }
}

} // verus!
