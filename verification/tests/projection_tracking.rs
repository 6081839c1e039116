use hmm_app::ids::ProfileId;
use hmm_app::metadata::PortFailure;
use hmm_app::projection::{
    ModLibraryProfileProjection, ModLibraryProfileProjectionState, ModLibraryProjectionReadiness,
    ModLibraryProjectionRepository, ModLibraryProjectionSnapshot, ModLibraryProjectionState,
};
use hmm_app::projection_tracking::{
    tracked_global_write, tracked_manifest_save, ModLibraryProjectionFreshnessGuard,
};
use std::cell::Cell;

struct FakeProjectionRepository {
    fail_global_dirty_calls: Vec<usize>,
    fail_profile_dirty_calls: Vec<usize>,
    global_dirty_calls: Cell<usize>,
    profile_dirty_calls: Cell<usize>,
}

impl FakeProjectionRepository {
    fn failing(global: Vec<usize>, profile: Vec<usize>) -> Self {
        Self {
            fail_global_dirty_calls: global,
            fail_profile_dirty_calls: profile,
            global_dirty_calls: Cell::new(0),
            profile_dirty_calls: Cell::new(0),
        }
    }
}

impl ModLibraryProjectionRepository for FakeProjectionRepository {
    fn state(&self) -> Result<ModLibraryProjectionState, PortFailure> {
        Ok(ModLibraryProjectionState {
            generation: 0,
            source_fingerprint: None,
            readiness: ModLibraryProjectionReadiness::Dirty,
        })
    }

    fn mark_dirty(&self, _observed: Option<&str>) -> Result<(), PortFailure> {
        let call = self.global_dirty_calls.get() + 1;
        self.global_dirty_calls.set(call);
        if self.fail_global_dirty_calls.contains(&call) {
            return Err(PortFailure);
        }
        Ok(())
    }

    fn rebuild(
        &self,
        _snapshot: &ModLibraryProjectionSnapshot,
    ) -> Result<ModLibraryProjectionState, PortFailure> {
        Err(PortFailure)
    }

    fn profile_state(
        &self,
        _profile_id: &ProfileId,
    ) -> Result<Option<ModLibraryProfileProjectionState>, PortFailure> {
        Ok(None)
    }

    fn mark_profile_dirty(
        &self,
        _profile_id: &ProfileId,
        _observed: Option<&str>,
    ) -> Result<(), PortFailure> {
        let call = self.profile_dirty_calls.get() + 1;
        self.profile_dirty_calls.set(call);
        if self.fail_profile_dirty_calls.contains(&call) {
            return Err(PortFailure);
        }
        Ok(())
    }

    fn replace_profile(
        &self,
        _projection: &ModLibraryProfileProjection,
    ) -> Result<ModLibraryProfileProjectionState, PortFailure> {
        Err(PortFailure)
    }
}

#[test]
fn writes_stop_before_the_authoritative_write_when_dirty_marking_fails() {
    let projection = FakeProjectionRepository::failing(vec![1, 2, 3], vec![]);
    let mut guard = ModLibraryProjectionFreshnessGuard::new();
    for _ in 0..3 {
        let wrote = Cell::new(false);
        assert!(tracked_global_write(&projection, &mut guard, || {
            wrote.set(true);
            Ok(())
        })
        .is_err());
        assert!(!wrote.get());
    }
    assert_eq!(projection.global_dirty_calls.get(), 3);
}

#[test]
fn global_write_remains_successful_and_fails_closed_when_post_commit_dirty_marking_fails() {
    let projection = FakeProjectionRepository::failing(vec![2], vec![]);
    let mut guard = ModLibraryProjectionFreshnessGuard::new();
    let wrote = Cell::new(false);
    tracked_global_write(&projection, &mut guard, || {
        wrote.set(true);
        Ok(())
    })
    .expect("catalog fact stays durable when projection freshness update fails");
    assert!(wrote.get());
    assert_eq!(projection.global_dirty_calls.get(), 2);
    assert!(guard.global_is_unavailable());

    let healthy = FakeProjectionRepository::failing(vec![], vec![]);
    tracked_global_write(&healthy, &mut guard, || Ok(())).unwrap();
    assert!(!guard.global_is_unavailable());
}

#[test]
fn a_failed_write_keeps_the_projection_dirty_without_reporting_it_unavailable() {
    let projection = FakeProjectionRepository::failing(vec![], vec![]);
    let mut guard = ModLibraryProjectionFreshnessGuard::new();
    assert_eq!(
        tracked_global_write(&projection, &mut guard, || Err(PortFailure)),
        Err(PortFailure)
    );
    assert_eq!(projection.global_dirty_calls.get(), 1);
    assert!(!guard.global_is_unavailable());
}

#[test]
fn manifest_save_remains_successful_when_post_commit_dirty_marking_fails() {
    let projection = FakeProjectionRepository::failing(vec![], vec![2]);
    let mut guard = ModLibraryProjectionFreshnessGuard::new();
    let profile = ProfileId::new("profile-a");
    let saved = Cell::new(false);
    tracked_manifest_save(&projection, &mut guard, &profile, true, || {
        saved.set(true);
        Ok(())
    })
    .expect("manifest fact stays durable when projection freshness update fails");
    assert!(saved.get());
    assert_eq!(projection.profile_dirty_calls.get(), 2);
    assert!(guard.profile_is_unavailable(&profile));
    assert!(!guard.profile_is_unavailable(&ProfileId::new("profile-b")));
    assert!(!guard.global_is_unavailable());
}

#[test]
fn an_uncoordinated_manifest_save_reports_the_profile_unavailable() {
    let projection = FakeProjectionRepository::failing(vec![], vec![]);
    let mut guard = ModLibraryProjectionFreshnessGuard::new();
    let profile = ProfileId::new("profile-a");
    tracked_manifest_save(&projection, &mut guard, &profile, false, || Ok(())).unwrap();
    assert!(guard.profile_is_unavailable(&profile));
    assert_eq!(projection.profile_dirty_calls.get(), 0);
    tracked_manifest_save(&projection, &mut guard, &profile, true, || Ok(())).unwrap();
    assert!(!guard.profile_is_unavailable(&profile));
}

#[test]
fn marking_and_clearing_profiles_leaves_the_others_alone() {
    let mut guard = ModLibraryProjectionFreshnessGuard::new();
    let a = ProfileId::new("a");
    let b = ProfileId::new("b");
    guard.mark_profile_unavailable(&a);
    guard.mark_profile_unavailable(&b);
    guard.mark_profile_unavailable(&a);
    guard.clear_profile(&a);
    assert!(!guard.profile_is_unavailable(&a));
    assert!(guard.profile_is_unavailable(&b));
    guard.mark_global_unavailable();
    assert!(guard.global_is_unavailable());
}
