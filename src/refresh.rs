//! Per-tenant coordination of key-set refreshes: one refresh in flight per
//! tenant, and none within the cooldown after a successful one. The caller
//! performs the fetch between `begin_refresh` and `finish_refresh`, holding no
//! lock, and wakes the waiters after `finish_refresh`.
use vstd::prelude::*;
use crate::cache::elapsed;
use crate::table::Table;
use crate::types::TenantId;

verus! {

/// The refresh state of one tenant.
#[derive(Debug, Clone, Copy, PartialEq, Eq)]
pub struct JwksCacheRefreshState {
    /// When the last successful refresh ended (monotonic milliseconds).
    pub last_refreshed_at: Option<u64>,
    /// Whether a refresh is in flight.
    pub refreshing: bool,
}

pub open spec fn initial_refresh_state() -> JwksCacheRefreshState {
    JwksCacheRefreshState { last_refreshed_at: None, refreshing: false }
}

impl Default for JwksCacheRefreshState {
    fn default() -> (r: Self)
        ensures
            r == initial_refresh_state(),
    {
        JwksCacheRefreshState { last_refreshed_at: None, refreshing: false }
    }
}

/// What a caller that asked for a refresh observed.
#[derive(Debug, Clone, Copy, PartialEq, Eq)]
pub enum JwksCacheRefreshResult {
    /// This caller refreshed.
    Refreshed,
    /// A refresh succeeded within the cooldown; nothing was fetched.
    RecentlyRefreshed,
    /// Another caller is refreshing; this one waits for it to finish.
    WaitedForRefresh,
    /// This caller may refresh, and must report back when done.
    GrantedRefreshPermission,
}

/// A refresh succeeded less than `interval` before `now`.
pub open spec fn cooling_down(s: JwksCacheRefreshState, now: u64, interval: u64) -> bool {
    s.last_refreshed_at matches Some(t) && elapsed(now, t) < interval
}

/// The decision on a request to refresh, and the state after it.
pub open spec fn begin_step(s: JwksCacheRefreshState, now: u64, interval: u64) -> (
    JwksCacheRefreshState,
    JwksCacheRefreshResult,
) {
    if cooling_down(s, now, interval) {
        (s, JwksCacheRefreshResult::RecentlyRefreshed)
    } else if s.refreshing {
        (s, JwksCacheRefreshResult::WaitedForRefresh)
    } else {
        (
            JwksCacheRefreshState { refreshing: true, ..s },
            JwksCacheRefreshResult::GrantedRefreshPermission,
        )
    }
}

/// The state after the refresher reports back.
pub open spec fn finish_step(s: JwksCacheRefreshState, succeeded: bool, now: u64) -> JwksCacheRefreshState {
    JwksCacheRefreshState {
        last_refreshed_at: if succeeded {
            Some(now)
        } else {
            s.last_refreshed_at
        },
        refreshing: false,
    }
}

/// The decisions on requests at the instants `nows`, in order, and the state
/// after the last.
pub open spec fn run_begins(s: JwksCacheRefreshState, nows: Seq<u64>, interval: u64) -> (
    JwksCacheRefreshState,
    Seq<JwksCacheRefreshResult>,
)
    decreases nows.len(),
{
    if nows.len() == 0 {
        (s, Seq::empty())
    } else {
        let (s1, rs) = run_begins(s, nows.drop_last(), interval);
        let (s2, r) = begin_step(s1, nows.last(), interval);
        (s2, rs.push(r))
    }
}

/// While a refresh is in flight, no request is granted another, and the
/// refresh stays in flight.
pub proof fn lemma_no_grant_while_refreshing(s: JwksCacheRefreshState, nows: Seq<u64>, interval: u64)
    requires
        s.refreshing,
    ensures
        run_begins(s, nows, interval).0.refreshing,
        run_begins(s, nows, interval).0.last_refreshed_at == s.last_refreshed_at,
        run_begins(s, nows, interval).1.len() == nows.len(),
        forall|i: int|
            0 <= i < nows.len() ==> (#[trigger] run_begins(s, nows, interval).1[i])
                != JwksCacheRefreshResult::GrantedRefreshPermission,
    decreases nows.len(),
{
    if nows.len() > 0 {
        lemma_no_grant_while_refreshing(s, nows.drop_last(), interval);
    }
}

/// Single flight: of many requests for one tenant that find it neither
/// cooling down nor refreshing, at instants that do not go back, the first is
/// granted the refresh and every later one waits for it; so the key set is
/// fetched exactly once.
pub proof fn lemma_single_flight(s: JwksCacheRefreshState, nows: Seq<u64>, interval: u64)
    requires
        !s.refreshing,
        nows.len() > 0,
        !cooling_down(s, nows[0], interval),
        forall|i: int, j: int| 0 <= i <= j < nows.len() ==> nows[i] <= nows[j],
    ensures
        run_begins(s, nows, interval).1.len() == nows.len(),
        run_begins(s, nows, interval).1[0] == JwksCacheRefreshResult::GrantedRefreshPermission,
        forall|i: int|
            0 < i < nows.len() ==> #[trigger] run_begins(s, nows, interval).1[i]
                == JwksCacheRefreshResult::WaitedForRefresh,
    decreases nows.len(),
{
    if nows.len() == 1 {
        assert(nows.drop_last() =~= Seq::<u64>::empty());
        assert(nows.last() == nows[0]);
    } else {
        let p = nows.drop_last();
        lemma_single_flight(s, p, interval);
        let (s1, rs) = run_begins(s, p, interval);
        lemma_single_flight_state(s, p, interval);
        assert(!cooling_down(s1, nows.last(), interval)) by {
            if let Some(t) = s1.last_refreshed_at {
                assert(nows[0] <= nows[nows.len() - 1]);
            }
        }
    }
}

proof fn lemma_single_flight_state(s: JwksCacheRefreshState, nows: Seq<u64>, interval: u64)
    requires
        !s.refreshing,
        nows.len() > 0,
        !cooling_down(s, nows[0], interval),
    ensures
        run_begins(s, nows, interval).0.refreshing,
        run_begins(s, nows, interval).0.last_refreshed_at == s.last_refreshed_at,
    decreases nows.len(),
{
    if nows.len() > 1 {
        let p = nows.drop_last();
        assert(p[0] == nows[0]);
        lemma_single_flight_state(s, p, interval);
        let s1 = run_begins(s, p, interval).0;
        assert(s1.refreshing);
        assert(run_begins(s, nows, interval).0 == begin_step(s1, nows.last(), interval).0);
    } else {
        assert(nows.drop_last() =~= Seq::<u64>::empty());
        assert(nows.last() == nows[0]);
        let e = run_begins(s, nows.drop_last(), interval);
        assert(e.0 == s);
        assert(begin_step(s, nows[0], interval).0.refreshing);
        assert(run_begins(s, nows, interval).0 == begin_step(e.0, nows.last(), interval).0);
    }
}

/// Cooldown: within `interval` of a successful refresh, a request is refused
/// and nothing changes, so nothing is fetched.
pub proof fn lemma_cooldown(s: JwksCacheRefreshState, refreshed_at: u64, now: u64, interval: u64)
    requires
        s.last_refreshed_at == Some(refreshed_at),
        elapsed(now, refreshed_at) < interval,
    ensures
        begin_step(s, now, interval) == (s, JwksCacheRefreshResult::RecentlyRefreshed),
{
}

/// A failed refresh leaves `last_refreshed_at` as it was, so the request that
/// comes next, however soon, is granted a new refresh.
pub proof fn lemma_failure_not_suppressed(
    s: JwksCacheRefreshState,
    now: u64,
    done_at: u64,
    next: u64,
    interval: u64,
)
    requires
        begin_step(s, now, interval).1 == JwksCacheRefreshResult::GrantedRefreshPermission,
        now <= next,
    ensures
        finish_step(begin_step(s, now, interval).0, false, done_at).last_refreshed_at
            == s.last_refreshed_at,
        begin_step(finish_step(begin_step(s, now, interval).0, false, done_at), next, interval).1
            == JwksCacheRefreshResult::GrantedRefreshPermission,
{
}

/// The refresh states of all tenants, and the cooldown after a successful
/// refresh.
pub struct RefreshCoordinator {
    states: Table<JwksCacheRefreshState>,
    interval: u64,
}

impl View for RefreshCoordinator {
    type V = Map<Seq<char>, JwksCacheRefreshState>;

    closed spec fn view(&self) -> Map<Seq<char>, JwksCacheRefreshState> {
        self.states@
    }
}

impl RefreshCoordinator {
    pub closed spec fn wf(&self) -> bool {
        self.states.wf()
    }

    pub closed spec fn spec_interval(&self) -> u64 {
        self.interval
    }

    /// The state of a tenant; one never asked about is idle and never refreshed.
    pub open spec fn state_of(&self, tenant: Seq<char>) -> JwksCacheRefreshState {
        if self@.contains_key(tenant) {
            self@[tenant]
        } else {
            initial_refresh_state()
        }
    }

    /// A coordinator with no refresh behind it, and the given cooldown in
    /// milliseconds.
    pub fn new(interval: u64) -> (r: Self)
        ensures
            r.wf(),
            r@ == Map::<Seq<char>, JwksCacheRefreshState>::empty(),
            r.spec_interval() == interval,
    {
        RefreshCoordinator { states: Table::new(), interval }
    }

    /// Decides on a request to refresh a tenant at `now`: refused within the
    /// cooldown, told to wait while another refresh is in flight, or granted.
    pub fn begin_refresh(&mut self, tenant_id: &TenantId, now: u64) -> (r: JwksCacheRefreshResult)
        requires
            old(self).wf(),
        ensures
            final(self).wf(),
            final(self).spec_interval() == old(self).spec_interval(),
            r == begin_step(old(self).state_of(tenant_id@), now, old(self).spec_interval()).1,
            final(self)@ == old(self)@.insert(
                tenant_id@,
                begin_step(old(self).state_of(tenant_id@), now, old(self).spec_interval()).0,
            ),
            old(self).state_of(tenant_id@).refreshing ==> r
                != JwksCacheRefreshResult::GrantedRefreshPermission,
            r == JwksCacheRefreshResult::GrantedRefreshPermission ==> final(self).state_of(
                tenant_id@,
            ).refreshing,
            old(self).state_of(tenant_id@).refreshing ==> final(self).state_of(tenant_id@).refreshing,
    {
        let state = match self.states.get(&tenant_id.0) {
            Some(s) => *s,
            None => JwksCacheRefreshState::default(),
        };
        let cooling = match state.last_refreshed_at {
            Some(t) => {
                let since = if now >= t {
                    now - t
                } else {
                    0
                };
                since < self.interval
            },
            None => false,
        };
        let (next, result) = if cooling {
            (state, JwksCacheRefreshResult::RecentlyRefreshed)
        } else if state.refreshing {
            (state, JwksCacheRefreshResult::WaitedForRefresh)
        } else {
            (
                JwksCacheRefreshState { refreshing: true, ..state },
                JwksCacheRefreshResult::GrantedRefreshPermission,
            )
        };
        self.states.insert(tenant_id.0.clone(), next);
        result
    }

    /// Records that the granted refresh of a tenant ended at `now`; only a
    /// successful one starts a cooldown.
    pub fn finish_refresh(&mut self, tenant_id: &TenantId, succeeded: bool, now: u64)
        requires
            old(self).wf(),
        ensures
            final(self).wf(),
            final(self).spec_interval() == old(self).spec_interval(),
            final(self)@ == old(self)@.insert(
                tenant_id@,
                finish_step(old(self).state_of(tenant_id@), succeeded, now),
            ),
            !final(self).state_of(tenant_id@).refreshing,
            !succeeded ==> final(self).state_of(tenant_id@).last_refreshed_at == old(self).state_of(
                tenant_id@,
            ).last_refreshed_at,
    {
        let state = match self.states.get(&tenant_id.0) {
            Some(s) => *s,
            None => JwksCacheRefreshState::default(),
        };
        let next = JwksCacheRefreshState {
            last_refreshed_at: if succeeded {
                Some(now)
            } else {
                state.last_refreshed_at
            },
            refreshing: false,
        };
        self.states.insert(tenant_id.0.clone(), next);
    }

    /// The refresh state of a tenant.
    pub fn state(&self, tenant_id: &TenantId) -> (r: JwksCacheRefreshState)
        requires
            self.wf(),
        ensures
            r == self.state_of(tenant_id@),
    {
        match self.states.get(&tenant_id.0) {
            Some(s) => *s,
            None => JwksCacheRefreshState::default(),
        }
    }
}

} // verus!
