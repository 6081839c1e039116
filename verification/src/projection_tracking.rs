//! Freshness of the library projection around authoritative writes: every catalog, metadata
//! or category write marks the global projection dirty before and after it, every manifest
//! save marks its profile's projection dirty; a marker that cannot be written leaves the
//! projection reported unavailable (failing closed) instead of failing the durable write.
use crate::ids::ProfileId;
use crate::metadata::PortFailure;
use crate::projection::ModLibraryProjectionRepository;
use crate::text::str_equal;
use vstd::prelude::*;

verus! {

/// Whether one of `names` reads `id`.
pub open spec fn has_name(names: Seq<String>, id: Seq<char>) -> bool {
    exists|j: int| 0 <= j < names.len() && (#[trigger] names[j])@ == id
}

/// What writes have reported about the projection: whether the global projection is known to
/// be stale, and which profiles' projections are.
pub struct ModLibraryProjectionFreshnessGuard {
    global_unavailable: bool,
    unavailable_profiles: Vec<String>,
}

impl ModLibraryProjectionFreshnessGuard {
    pub closed spec fn global_view(&self) -> bool {
        self.global_unavailable
    }

    pub closed spec fn profiles_view(&self) -> Set<Seq<char>> {
        Set::new(|id: Seq<char>| exists|k: int| 0 <= k < self.unavailable_profiles@.len() && (#[trigger] self.unavailable_profiles@[k])@ == id)
    }

    pub fn new() -> (r: Self)
        ensures
            !r.global_view(),
            r.profiles_view() == Set::<Seq<char>>::empty(),
    {
        let r = ModLibraryProjectionFreshnessGuard { global_unavailable: false, unavailable_profiles: Vec::new() };
        proof {
            assert(r.profiles_view() =~= Set::<Seq<char>>::empty());
        }
        r
    }

    pub fn mark_global_unavailable(&mut self)
        ensures
            final(self).global_view(),
            final(self).profiles_view() == old(self).profiles_view(),
    {
        self.global_unavailable = true;
        proof {
            assert(final(self).profiles_view() =~= old(self).profiles_view());
        }
    }

    pub fn global_is_unavailable(&self) -> (r: bool)
        ensures
            r == self.global_view(),
    {
        self.global_unavailable
    }

    fn clear_global(&mut self)
        ensures
            !final(self).global_view(),
            final(self).profiles_view() == old(self).profiles_view(),
    {
        self.global_unavailable = false;
        proof {
            assert(final(self).profiles_view() =~= old(self).profiles_view());
        }
    }

    pub fn profile_is_unavailable(&self, profile_id: &ProfileId) -> (r: bool)
        ensures
            r == self.profiles_view().contains(profile_id@),
    {
        let mut k: usize = 0;
        while k < self.unavailable_profiles.len()
            invariant
                0 <= k <= self.unavailable_profiles@.len(),
                forall|j: int| 0 <= j < k ==> (#[trigger] self.unavailable_profiles@[j])@ != profile_id@,
            decreases self.unavailable_profiles@.len() - k,
        {
            if str_equal(self.unavailable_profiles[k].as_str(), profile_id.as_str()) {
                return true;
            }
            k = k + 1;
        }
        false
    }

    pub fn mark_profile_unavailable(&mut self, profile_id: &ProfileId)
        ensures
            final(self).global_view() == old(self).global_view(),
            final(self).profiles_view() == old(self).profiles_view().insert(profile_id@),
    {
        self.unavailable_profiles.push(profile_id.as_str().to_owned());
        proof {
            let before = old(self).unavailable_profiles@;
            let after = self.unavailable_profiles@;
            assert forall|id: Seq<char>| #[trigger] final(self).profiles_view().contains(id) == old(
                self,
            ).profiles_view().insert(profile_id@).contains(id) by {
                if old(self).profiles_view().contains(id) {
                    let w = choose|w: int| 0 <= w < before.len() && (#[trigger] before[w])@ == id;
                    assert(after[w]@ == id);
                }
                if id == profile_id@ {
                    assert(after[before.len() as int]@ == id);
                }
                if final(self).profiles_view().contains(id) {
                    let w = choose|w: int| 0 <= w < after.len() && (#[trigger] after[w])@ == id;
                    if w < before.len() {
                        assert(before[w]@ == id);
                    }
                }
            }
            assert(final(self).profiles_view() =~= old(self).profiles_view().insert(profile_id@));
        }
    }

    pub fn clear_profile(&mut self, profile_id: &ProfileId)
        ensures
            final(self).global_view() == old(self).global_view(),
            final(self).profiles_view() == old(self).profiles_view().remove(profile_id@),
    {
        let ghost before = self.unavailable_profiles@;
        let mut kept: Vec<String> = Vec::new();
        let mut k: usize = 0;
        while k < self.unavailable_profiles.len()
            invariant
                self.unavailable_profiles@ == before,
                0 <= k <= before.len(),
                forall|j: int| 0 <= j < kept@.len() ==> (#[trigger] kept@[j])@ != profile_id@,
                forall|id: Seq<char>|
                    #[trigger] has_name(kept@, id) <==> (id != profile_id@ && has_name(
                        before.subrange(0, k as int),
                        id,
                    )),
            decreases before.len() - k,
        {
            let ghost kept_before = kept@;
            if !str_equal(self.unavailable_profiles[k].as_str(), profile_id.as_str()) {
                kept.push(self.unavailable_profiles[k].clone());
            }
            proof {
                let prefix = before.subrange(0, k as int);
                let next = before.subrange(0, k + 1);
                assert forall|id: Seq<char>|
                    #[trigger] has_name(kept@, id) <==> (id != profile_id@ && has_name(next, id)) by {
                    if has_name(kept@, id) {
                        let w = choose|j: int| 0 <= j < kept@.len() && (#[trigger] kept@[j])@ == id;
                        if w < kept_before.len() {
                            assert(kept_before[w]@ == id);
                            assert(has_name(kept_before, id));
                            let v = choose|j: int| 0 <= j < prefix.len() && (#[trigger] prefix[j])@ == id;
                            assert(next[v]@ == id);
                        } else {
                            assert(next[k as int]@ == id);
                        }
                    }
                    if id != profile_id@ && has_name(next, id) {
                        let w = choose|j: int| 0 <= j < next.len() && (#[trigger] next[j])@ == id;
                        if w < k {
                            assert(prefix[w]@ == id);
                            assert(has_name(prefix, id));
                            assert(has_name(kept_before, id));
                            let v = choose|j: int| 0 <= j < kept_before.len() && (#[trigger] kept_before[j])@ == id;
                            assert(kept@[v]@ == id);
                        } else {
                            assert(kept@[kept@.len() - 1]@ == id);
                        }
                    }
                }
            }
            k = k + 1;
        }
        self.unavailable_profiles = kept;
        proof {
            assert(before.subrange(0, before.len() as int) =~= before);
            assert forall|id: Seq<char>| #[trigger] final(self).profiles_view().contains(id) == old(
                self,
            ).profiles_view().remove(profile_id@).contains(id) by {
                assert(final(self).profiles_view().contains(id) == has_name(kept@, id));
                assert(old(self).profiles_view().contains(id) == has_name(before, id));
            }
            assert(final(self).profiles_view() =~= old(self).profiles_view().remove(profile_id@));
        }
    }
}

/// Runs an authoritative global write: the projection is marked dirty first (a failure stops
/// the write), and again once the write is durable; when that second marker fails the write
/// still succeeds and the projection is reported unavailable until a marker succeeds.
pub fn tracked_global_write<P: ModLibraryProjectionRepository, W: FnOnce() -> Result<(), PortFailure>>(
    projection: &P,
    guard: &mut ModLibraryProjectionFreshnessGuard,
    write: W,
) -> (r: Result<(), PortFailure>)
    requires
        write.requires(()),
    ensures
        final(guard).profiles_view() == old(guard).profiles_view(),
        r is Err ==> (final(guard).global_view() == old(guard).global_view() || !final(guard).global_view()),
        r is Ok ==> call_ensures(write, (), Ok::<(), PortFailure>(())),
{
    match projection.mark_dirty(None) {
        Err(e) => {
            return Err(e);
        },
        Ok(()) => {},
    }
    guard.clear_global();
    let written = write();
    if written.is_err() {
        return written;
    }
    proof {
        assert(written is Ok);
        let unit: () = written->Ok_0;
        assert(unit == ());
        assert(written == Ok::<(), PortFailure>(()));
        assert(call_ensures(write, (), Ok::<(), PortFailure>(())));
    }
    match projection.mark_dirty(None) {
        Err(_) => guard.mark_global_unavailable(),
        Ok(()) => guard.clear_global(),
    }
    Ok(())
}

/// Runs a manifest save for `profile_id`. When the write window could not be coordinated
/// (`window_held` false) the profile is reported unavailable and the manifest saved. Otherwise
/// its projection is marked dirty before and after the save, each failing marker reporting the
/// profile unavailable and each succeeding one clearing it; the save's own result is returned.
/// Other profiles and the global projection are never touched.
pub fn tracked_manifest_save<P: ModLibraryProjectionRepository, W: FnOnce() -> Result<(), PortFailure>>(
    projection: &P,
    guard: &mut ModLibraryProjectionFreshnessGuard,
    profile_id: &ProfileId,
    window_held: bool,
    save: W,
) -> (r: Result<(), PortFailure>)
    requires
        save.requires(()),
    ensures
        final(guard).global_view() == old(guard).global_view(),
        forall|id: Seq<char>|
            id != profile_id@ ==> (#[trigger] final(guard).profiles_view().contains(id) == old(
                guard,
            ).profiles_view().contains(id)),
        !window_held ==> final(guard).profiles_view().contains(profile_id@),
{
    if !window_held {
        guard.mark_profile_unavailable(profile_id);
        return save();
    }
    match projection.mark_profile_dirty(profile_id, None) {
        Err(_) => guard.mark_profile_unavailable(profile_id),
        Ok(()) => guard.clear_profile(profile_id),
    }
    match save() {
        Err(e) => {
            return Err(e);
        },
        Ok(()) => {},
    }
    match projection.mark_profile_dirty(profile_id, None) {
        Err(_) => guard.mark_profile_unavailable(profile_id),
        Ok(()) => guard.clear_profile(profile_id),
    }
    Ok(())
}

} // verus!
