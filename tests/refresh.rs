use entra_id_backend::refresh::{JwksCacheRefreshResult, JwksCacheRefreshState, RefreshCoordinator};
use entra_id_backend::types::TenantId;

fn tid(s: &str) -> TenantId {
    TenantId(s.to_string())
}

#[test]
fn default_state_is_idle() {
    let s = JwksCacheRefreshState::default();
    assert_eq!(s.last_refreshed_at, None);
    assert!(!s.refreshing);
}

#[test]
fn concurrent_misses_collapse_into_one_refresh() {
    let mut c = RefreshCoordinator::new(60_000);
    let t = tid("T1");
    assert_eq!(c.begin_refresh(&t, 1_000), JwksCacheRefreshResult::GrantedRefreshPermission);
    assert_eq!(c.begin_refresh(&t, 1_001), JwksCacheRefreshResult::WaitedForRefresh);
    assert_eq!(c.begin_refresh(&t, 1_002), JwksCacheRefreshResult::WaitedForRefresh);
    assert!(c.state(&t).refreshing);
    c.finish_refresh(&t, true, 1_500);
    assert_eq!(c.state(&t), JwksCacheRefreshState { last_refreshed_at: Some(1_500), refreshing: false });
}

#[test]
fn cooldown_refuses_refresh() {
    let mut c = RefreshCoordinator::new(60_000);
    let t = tid("T1");
    assert_eq!(c.begin_refresh(&t, 0), JwksCacheRefreshResult::GrantedRefreshPermission);
    c.finish_refresh(&t, true, 10_000);
    // One second later, within the sixty-second cooldown.
    assert_eq!(c.begin_refresh(&t, 11_000), JwksCacheRefreshResult::RecentlyRefreshed);
    assert_eq!(c.state(&t).last_refreshed_at, Some(10_000));
    assert!(!c.state(&t).refreshing);
    // Once the cooldown is over, a refresh is granted again.
    assert_eq!(c.begin_refresh(&t, 70_000), JwksCacheRefreshResult::GrantedRefreshPermission);
}

#[test]
fn failed_refresh_does_not_start_cooldown() {
    let mut c = RefreshCoordinator::new(60_000);
    let t = tid("T1");
    assert_eq!(c.begin_refresh(&t, 0), JwksCacheRefreshResult::GrantedRefreshPermission);
    c.finish_refresh(&t, false, 5);
    assert_eq!(c.state(&t).last_refreshed_at, None);
    assert_eq!(c.begin_refresh(&t, 6), JwksCacheRefreshResult::GrantedRefreshPermission);
}

#[test]
fn tenants_are_independent() {
    let mut c = RefreshCoordinator::new(60_000);
    assert_eq!(c.begin_refresh(&tid("T1"), 0), JwksCacheRefreshResult::GrantedRefreshPermission);
    assert_eq!(c.begin_refresh(&tid("T2"), 0), JwksCacheRefreshResult::GrantedRefreshPermission);
    assert_eq!(c.state(&tid("T3")), JwksCacheRefreshState::default());
}
