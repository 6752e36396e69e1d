//! Per-server health: threshold-driven healthy / unhealthy transitions, a
//! cooldown after a server turns unhealthy, and open-connection counts.

use vstd::prelude::*;
use std::time::{Duration, SystemTime, UNIX_EPOCH};
use crate::addr::SocketAddress;
use crate::tables::{health_entries, health_get, health_insert, health_list, health_new, HealthTable};

verus! {

/// Thresholds and cooldown of the health state machine.
#[derive(Clone, Copy, Debug, PartialEq, Eq, Structural)]
pub struct HealthConfig {
    /// Consecutive failures that turn a healthy server unhealthy.
    pub unhealthy_threshold: u32,
    /// Consecutive successes that turn an unhealthy server healthy.
    pub healthy_threshold: u32,
    /// Cooldown after turning unhealthy, in milliseconds.
    pub cooldown_ms: u64,
}

impl Default for HealthConfig {
    /// Three failures, two successes, thirty seconds of cooldown.
    fn default() -> (r: HealthConfig)
        ensures
            r == (HealthConfig { unhealthy_threshold: 3, healthy_threshold: 2, cooldown_ms: 30_000 }),
    {
        HealthConfig { unhealthy_threshold: 3, healthy_threshold: 2, cooldown_ms: 30_000 }
    }
}

/// The health record of one server.
#[derive(Clone, Copy, Debug, PartialEq, Eq, Structural)]
pub struct ServerHealth {
    /// Whether the server is currently healthy.
    pub healthy: bool,
    /// Failures since the last success (or since the last transition).
    pub consecutive_failures: u32,
    /// Successes since the last failure (or since the last transition).
    pub consecutive_successes: u32,
    /// Connections currently proxied to the server.
    pub active_connections: u32,
    /// Seconds since the epoch when the server last turned unhealthy; zero
    /// while healthy.
    pub unhealthy_since: u64,
    /// Seconds since the epoch of the last recorded outcome.
    pub last_check: u64,
}

impl Default for ServerHealth {
    /// The record of a server seen for the first time.
    fn default() -> (r: ServerHealth)
        ensures
            r == fresh_health(),
    {
        ServerHealth {
            healthy: true,
            consecutive_failures: 0,
            consecutive_successes: 0,
            active_connections: 0,
            unhealthy_since: 0,
            last_check: 0,
        }
    }
}

/// The record of a server seen for the first time: healthy, all zero.
pub open spec fn fresh_health() -> ServerHealth {
    ServerHealth {
        healthy: true,
        consecutive_failures: 0,
        consecutive_successes: 0,
        active_connections: 0,
        unhealthy_since: 0,
        last_check: 0,
    }
}

/// The invariant of a record: a healthy server has no unhealthy timestamp,
/// and the failure and success streaks are never both running.
pub open spec fn health_wf(h: ServerHealth) -> bool {
    &&& h.healthy ==> h.unhealthy_since == 0
    &&& h.consecutive_failures == 0 || h.consecutive_successes == 0
}

/// One more, held at `u32::MAX`.
pub open spec fn bump(x: u32) -> u32 {
    if x == u32::MAX {
        x
    } else {
        (x + 1) as u32
    }
}

/// The record after a success at time `now`, with healthy threshold `h_thr`.
pub open spec fn after_success(h: ServerHealth, h_thr: u32, now: u64) -> ServerHealth {
    let s = bump(h.consecutive_successes);
    if !h.healthy && s >= h_thr {
        ServerHealth {
            healthy: true,
            consecutive_failures: 0,
            consecutive_successes: 0,
            unhealthy_since: 0,
            last_check: now,
            ..h
        }
    } else {
        ServerHealth { consecutive_failures: 0, consecutive_successes: s, last_check: now, ..h }
    }
}

/// The record after a failure at time `now`, with unhealthy threshold `u_thr`.
pub open spec fn after_failure(h: ServerHealth, u_thr: u32, now: u64) -> ServerHealth {
    let f = bump(h.consecutive_failures);
    if h.healthy && f >= u_thr {
        ServerHealth {
            healthy: false,
            consecutive_failures: 0,
            consecutive_successes: 0,
            unhealthy_since: now,
            last_check: now,
            ..h
        }
    } else {
        ServerHealth { consecutive_failures: f, consecutive_successes: 0, last_check: now, ..h }
    }
}

/// The record after being forced unhealthy at time `now` (no change if it is
/// already unhealthy).
pub open spec fn after_mark_unhealthy(h: ServerHealth, now: u64) -> ServerHealth {
    if h.healthy {
        ServerHealth {
            healthy: false,
            consecutive_failures: 0,
            consecutive_successes: 0,
            unhealthy_since: now,
            ..h
        }
    } else {
        h
    }
}

/// The record after being forced healthy with all streaks cleared.
pub open spec fn after_reset(h: ServerHealth) -> ServerHealth {
    ServerHealth {
        healthy: true,
        consecutive_failures: 0,
        consecutive_successes: 0,
        unhealthy_since: 0,
        ..h
    }
}

/// The records after forcing `a` unhealthy at time `now`, if it is tracked.
pub open spec fn marked_unhealthy(records: Map<SocketAddress, ServerHealth>, a: SocketAddress, now: u64) -> Map<
    SocketAddress,
    ServerHealth,
> {
    if records.contains_key(a) {
        records.insert(a, after_mark_unhealthy(records[a], now))
    } else {
        records
    }
}

/// Whole seconds from `since` to `now`, zero if the clock went back.
pub open spec fn elapsed_secs(since: u64, now: u64) -> nat {
    if now >= since {
        (now - since) as nat
    } else {
        0
    }
}

/// Whether a record is in its cooldown at time `now`: it turned unhealthy,
/// and fewer than `cooldown_ms` milliseconds have passed since.
pub open spec fn cooldown_active(h: ServerHealth, now: u64, cooldown_ms: u64) -> bool {
    h.unhealthy_since != 0 && elapsed_secs(h.unhealthy_since, now) * 1000 < cooldown_ms
}

/// The record of `a` in `records`, or a fresh one for a server never seen.
pub open spec fn record_of(records: Map<SocketAddress, ServerHealth>, a: SocketAddress) -> ServerHealth {
    if records.contains_key(a) {
        records[a]
    } else {
        fresh_health()
    }
}

/// Whether `a` may be offered for selection at time `now`: healthy and
/// not in cooldown. Servers never seen are routable.
pub open spec fn routable(
    records: Map<SocketAddress, ServerHealth>,
    a: SocketAddress,
    now: u64,
    cooldown_ms: u64,
) -> bool {
    record_of(records, a).healthy && !cooldown_active(record_of(records, a), now, cooldown_ms)
}

/// The servers of `servers` routable at time `now`, in order.
pub open spec fn routable_among(
    records: Map<SocketAddress, ServerHealth>,
    servers: Seq<SocketAddress>,
    now: u64,
    cooldown_ms: u64,
) -> Seq<SocketAddress> {
    servers.filter(|a: SocketAddress| routable(records, a, now, cooldown_ms))
}

#[verifier::external_type_specification]
#[verifier::external_body]
pub struct ExSystemTime(SystemTime);

/// Relies on `SystemTime::now`: the clock's current reading.
#[verifier::external_body]
fn clock_now() -> (r: SystemTime) {
    SystemTime::now()
}

/// Relies on `SystemTime::duration_since`: the time from the Unix epoch to
/// `t`, or `None` when `t` is before it.
#[verifier::external_body]
fn since_epoch(t: &SystemTime) -> (r: Option<Duration>) {
    t.duration_since(UNIX_EPOCH).ok()
}

/// Relies on `Duration::as_secs`: the whole seconds of `d`.
#[verifier::external_body]
fn whole_secs(d: &Duration) -> (r: u64) {
    d.as_secs()
}

/// Whole seconds since the Unix epoch, zero if the clock is before it.
fn now_secs() -> (r: u64) {
    match since_epoch(&clock_now()) {
        Some(d) => whole_secs(&d),
        None => 0,
    }
}

/// Whether record `h` is in its cooldown at time `now`.
pub fn is_cooling_down(h: &ServerHealth, now: u64, cooldown_ms: u64) -> (r: bool)
    ensures
        r == cooldown_active(*h, now, cooldown_ms),
{
    if h.unhealthy_since == 0 {
        return false;
    }
    let elapsed: u64 = if now >= h.unhealthy_since {
        now - h.unhealthy_since
    } else {
        0
    };
    (elapsed as u128) * 1000 < cooldown_ms as u128
}

/// Health records of all servers seen so far, with the thresholds and
/// cooldown that drive their transitions.
pub struct HealthState {
    servers: HealthTable,
    config: HealthConfig,
}

impl HealthState {
    /// Health record per server.
    pub closed spec fn records(&self) -> Map<SocketAddress, ServerHealth> {
        health_entries(self.servers)
    }

    /// The thresholds and cooldown in force.
    pub closed spec fn config(&self) -> HealthConfig {
        self.config
    }

    /// Every record satisfies the record invariant.
    pub open spec fn wf(&self) -> bool {
        forall|a: SocketAddress| #[trigger] self.records().contains_key(a) ==> health_wf(self.records()[a])
    }

    /// A tracker with the default thresholds and no server seen.
    pub fn new() -> (r: HealthState)
        ensures
            r.wf(),
            r.records() == Map::<SocketAddress, ServerHealth>::empty(),
            r.config() == (HealthConfig { unhealthy_threshold: 3, healthy_threshold: 2, cooldown_ms: 30_000 }),
    {
        HealthState::with_config(HealthConfig::default())
    }

    /// A tracker with the given thresholds and no server seen.
    pub fn with_config(config: HealthConfig) -> (r: HealthState)
        ensures
            r.wf(),
            r.records() == Map::<SocketAddress, ServerHealth>::empty(),
            r.config() == config,
    {
        let servers = health_new();
        assert(health_entries(servers) =~= Map::<SocketAddress, ServerHealth>::empty());
        HealthState { servers, config }
    }

    /// The record of `server`, fresh if never seen.
    fn get_record(&self, server: SocketAddress) -> (r: ServerHealth)
        ensures
            r == record_of(self.records(), server),
    {
        match health_get(&self.servers, &server) {
            Some(h) => h,
            None => ServerHealth::default(),
        }
    }

    /// Starts tracking `server` (healthy) unless it is already tracked.
    pub fn register_server(&mut self, server: SocketAddress)
        requires
            old(self).wf(),
        ensures
            final(self).wf(),
            final(self).config() == old(self).config(),
            final(self).records() == if old(self).records().contains_key(server) {
                old(self).records()
            } else {
                old(self).records().insert(server, fresh_health())
            },
    {
        if health_get(&self.servers, &server).is_none() {
            let h = self.get_record(server);
            health_insert(&mut self.servers, server, h);
        }
    }

    /// Whether `server` is healthy; a server never seen counts as healthy.
    pub fn is_healthy(&self, server: SocketAddress) -> (r: bool)
        ensures
            r == record_of(self.records(), server).healthy,
    {
        self.get_record(server).healthy
    }

    /// Whether `server` is in its cooldown at time `now` (seconds since the
    /// epoch); a server never seen is not.
    pub fn is_in_cooldown_at(&self, server: SocketAddress, now: u64) -> (r: bool)
        ensures
            r == cooldown_active(record_of(self.records(), server), now, self.config().cooldown_ms),
    {
        let h = self.get_record(server);
        is_cooling_down(&h, now, self.config.cooldown_ms)
    }

    /// Whether `server` is in its cooldown now.
    pub fn is_in_cooldown(&self, server: SocketAddress) -> (r: bool)
        ensures
            exists|now: u64|
                r == cooldown_active(record_of(self.records(), server), now, self.config().cooldown_ms),
            !self.records().contains_key(server) ==> !r,
            record_of(self.records(), server).unhealthy_since == 0 ==> !r,
    {
        let now = now_secs();
        self.is_in_cooldown_at(server, now)
    }

    /// Records a success for `server` at time `now`.
    pub fn record_success_at(&mut self, server: SocketAddress, now: u64)
        requires
            old(self).wf(),
        ensures
            final(self).wf(),
            final(self).config() == old(self).config(),
            final(self).records() == old(self).records().insert(
                server,
                after_success(record_of(old(self).records(), server), old(self).config().healthy_threshold, now),
            ),
    {
        let h = self.get_record(server);
        let s = if h.consecutive_successes == u32::MAX {
            h.consecutive_successes
        } else {
            h.consecutive_successes + 1
        };
        let next = if !h.healthy && s >= self.config.healthy_threshold {
            ServerHealth {
                healthy: true,
                consecutive_failures: 0,
                consecutive_successes: 0,
                unhealthy_since: 0,
                last_check: now,
                ..h
            }
        } else {
            ServerHealth { consecutive_failures: 0, consecutive_successes: s, last_check: now, ..h }
        };
        health_insert(&mut self.servers, server, next);
    }

    /// Records a failure for `server` at time `now`.
    pub fn record_failure_at(&mut self, server: SocketAddress, now: u64)
        requires
            old(self).wf(),
        ensures
            final(self).wf(),
            final(self).config() == old(self).config(),
            final(self).records() == old(self).records().insert(
                server,
                after_failure(record_of(old(self).records(), server), old(self).config().unhealthy_threshold, now),
            ),
    {
        let h = self.get_record(server);
        let f = if h.consecutive_failures == u32::MAX {
            h.consecutive_failures
        } else {
            h.consecutive_failures + 1
        };
        let next = if h.healthy && f >= self.config.unhealthy_threshold {
            ServerHealth {
                healthy: false,
                consecutive_failures: 0,
                consecutive_successes: 0,
                unhealthy_since: now,
                last_check: now,
                ..h
            }
        } else {
            ServerHealth { consecutive_failures: f, consecutive_successes: 0, last_check: now, ..h }
        };
        health_insert(&mut self.servers, server, next);
    }

    /// Records a successful check or request for `server`, now.
    pub fn record_success(&mut self, server: SocketAddress)
        requires
            old(self).wf(),
        ensures
            final(self).wf(),
            final(self).config() == old(self).config(),
            exists|now: u64|
                final(self).records() == old(self).records().insert(
                    server,
                    after_success(record_of(old(self).records(), server), old(self).config().healthy_threshold, now),
                ),
    {
        let now = now_secs();
        self.record_success_at(server, now);
    }

    /// Records a failed check or request for `server`, now.
    pub fn record_failure(&mut self, server: SocketAddress)
        requires
            old(self).wf(),
        ensures
            final(self).wf(),
            final(self).config() == old(self).config(),
            exists|now: u64|
                final(self).records() == old(self).records().insert(
                    server,
                    after_failure(record_of(old(self).records(), server), old(self).config().unhealthy_threshold, now),
                ),
    {
        let now = now_secs();
        self.record_failure_at(server, now);
    }

    /// One more open connection to `server`, if it is tracked.
    pub fn increment_connections(&mut self, server: SocketAddress)
        requires
            old(self).wf(),
        ensures
            final(self).wf(),
            final(self).config() == old(self).config(),
            final(self).records() == if old(self).records().contains_key(server) {
                old(self).records().insert(
                    server,
                    ServerHealth {
                        active_connections: bump(old(self).records()[server].active_connections),
                        ..old(self).records()[server]
                    },
                )
            } else {
                old(self).records()
            },
    {
        assert(self.records().contains_key(server) ==> health_wf(self.records()[server]));
        if let Some(h) = health_get(&self.servers, &server) {
            let c = if h.active_connections == u32::MAX {
                h.active_connections
            } else {
                h.active_connections + 1
            };
            health_insert(&mut self.servers, server, ServerHealth { active_connections: c, ..h });
        }
    }

    /// One open connection fewer to `server`, if it is tracked; never below zero.
    pub fn decrement_connections(&mut self, server: SocketAddress)
        requires
            old(self).wf(),
        ensures
            final(self).wf(),
            final(self).config() == old(self).config(),
            final(self).records() == if old(self).records().contains_key(server)
                && old(self).records()[server].active_connections > 0 {
                old(self).records().insert(
                    server,
                    ServerHealth {
                        active_connections: (old(self).records()[server].active_connections - 1) as u32,
                        ..old(self).records()[server]
                    },
                )
            } else {
                old(self).records()
            },
    {
        assert(self.records().contains_key(server) ==> health_wf(self.records()[server]));
        if let Some(h) = health_get(&self.servers, &server) {
            if h.active_connections > 0 {
                health_insert(
                    &mut self.servers,
                    server,
                    ServerHealth { active_connections: h.active_connections - 1, ..h },
                );
            }
        }
    }

    /// Open connections to `server`; zero if it is not tracked.
    pub fn get_connections(&self, server: SocketAddress) -> (r: u32)
        ensures
            r == record_of(self.records(), server).active_connections,
    {
        self.get_record(server).active_connections
    }

    /// Consecutive failures of `server`; zero if it is not tracked.
    pub fn get_failures(&self, server: SocketAddress) -> (r: u32)
        ensures
            r == record_of(self.records(), server).consecutive_failures,
    {
        self.get_record(server).consecutive_failures
    }

    /// The servers of `servers` that are routable at time `now`, in order.
    pub fn filter_healthy_at(&self, servers: &[SocketAddress], now: u64) -> (r: Vec<SocketAddress>)
        ensures
            r@ == routable_among(self.records(), servers@, now, self.config().cooldown_ms),
    {
        let mut out: Vec<SocketAddress> = Vec::new();
        let mut i: usize = 0;
        proof {
            reveal(Seq::filter);
        }
        while i < servers.len()
            invariant
                i <= servers@.len(),
                out@ == routable_among(self.records(), servers@.subrange(0, i as int), now, self.config().cooldown_ms),
            decreases servers@.len() - i,
        {
            let a = servers[i];
            let h = self.get_record(a);
            let cooling = is_cooling_down(&h, now, self.config.cooldown_ms);
            proof {
                assert(servers@.subrange(0, i + 1).drop_last() =~= servers@.subrange(0, i as int));
                reveal(Seq::filter);
                assert(servers@.subrange(0, i + 1).last() == a);
                assert(self.config().cooldown_ms == self.config.cooldown_ms);
                assert(routable(self.records(), a, now, self.config().cooldown_ms) == (h.healthy && !cooling));
            }
            if h.healthy && !cooling {
                out.push(a);
            }
            i = i + 1;
        }
        assert(servers@.subrange(0, servers@.len() as int) =~= servers@);
        assert(out@ == routable_among(self.records(), servers@, now, self.config().cooldown_ms));
        out
    }

    /// The servers of `servers` that are routable now, in order.
    pub fn filter_healthy(&self, servers: &[SocketAddress]) -> (r: Vec<SocketAddress>)
        ensures
            exists|now: u64|
                r@ == #[trigger] routable_among(self.records(), servers@, now, self.config().cooldown_ms),
    {
        let now = now_secs();
        self.filter_healthy_at(servers, now)
    }

    /// One entry per tracked server: its address, whether it is healthy, its
    /// open connections and its consecutive failures, in no fixed order.
    pub fn get_all_status(&self) -> (r: Vec<(SocketAddress, bool, u32, u32)>)
        ensures
            forall|i: int|
                0 <= i < r@.len() ==> self.records().contains_key(#[trigger] r@[i].0) && r@[i] == (
                r@[i].0,
                self.records()[r@[i].0].healthy,
                self.records()[r@[i].0].active_connections,
                self.records()[r@[i].0].consecutive_failures,
            ),
            forall|i: int, j: int| 0 <= i < j < r@.len() ==> #[trigger] r@[i].0 != #[trigger] r@[j].0,
            forall|a: SocketAddress|
                #[trigger] self.records().contains_key(a) ==> exists|i: int| 0 <= i < r@.len() && r@[i].0 == a,
    {
        let entries = health_list(&self.servers);
        let mut out: Vec<(SocketAddress, bool, u32, u32)> = Vec::new();
        let mut i: usize = 0;
        while i < entries.len()
            invariant
                i <= entries@.len(),
                out@.len() == i,
                forall|k: int|
                    0 <= k < i ==> #[trigger] out@[k] == (
                        entries@[k].0,
                        entries@[k].1.healthy,
                        entries@[k].1.active_connections,
                        entries@[k].1.consecutive_failures,
                    ),
            decreases entries@.len() - i,
        {
            let (a, h) = entries[i];
            out.push((a, h.healthy, h.active_connections, h.consecutive_failures));
            i = i + 1;
        }
        assert forall|a: SocketAddress| #[trigger] self.records().contains_key(a) implies exists|k: int|
            0 <= k < out@.len() && out@[k].0 == a by {
            let k = choose|k: int| 0 <= k < entries@.len() && entries@[k].0 == a;
            assert(out@[k].0 == a);
        }
        assert forall|k: int, j: int| 0 <= k < j < out@.len() implies #[trigger] out@[k].0 != #[trigger] out@[j].0 by {
            assert(out@[k].0 == entries@[k].0 && out@[j].0 == entries@[j].0);
        }
        out
    }

    /// Forces `server` unhealthy at time `now`, if it is tracked and healthy.
    pub fn mark_unhealthy_at(&mut self, server: SocketAddress, now: u64)
        requires
            old(self).wf(),
        ensures
            final(self).wf(),
            final(self).config() == old(self).config(),
            final(self).records() == marked_unhealthy(old(self).records(), server, now),
    {
        if let Some(h) = health_get(&self.servers, &server) {
            if h.healthy {
                let next = ServerHealth {
                    healthy: false,
                    consecutive_failures: 0,
                    consecutive_successes: 0,
                    unhealthy_since: now,
                    ..h
                };
                health_insert(&mut self.servers, server, next);
            } else {
                assert(old(self).records().insert(server, h) =~= old(self).records());
            }
        }
    }

    /// Forces `server` unhealthy now, if it is tracked and healthy.
    pub fn mark_unhealthy(&mut self, server: SocketAddress)
        requires
            old(self).wf(),
        ensures
            final(self).wf(),
            final(self).config() == old(self).config(),
            exists|now: u64| final(self).records() == #[trigger] marked_unhealthy(old(self).records(), server, now),
    {
        let now = now_secs();
        self.mark_unhealthy_at(server, now);
    }

    /// Forces `server` healthy with its streaks cleared, if it is tracked.
    pub fn reset_server(&mut self, server: SocketAddress)
        requires
            old(self).wf(),
        ensures
            final(self).wf(),
            final(self).config() == old(self).config(),
            final(self).records() == if old(self).records().contains_key(server) {
                old(self).records().insert(server, after_reset(old(self).records()[server]))
            } else {
                old(self).records()
            },
    {
        assert(self.records().contains_key(server) ==> health_wf(self.records()[server]));
        if let Some(h) = health_get(&self.servers, &server) {
            let next = ServerHealth {
                healthy: true,
                consecutive_failures: 0,
                consecutive_successes: 0,
                unhealthy_since: 0,
                ..h
            };
            health_insert(&mut self.servers, server, next);
        }
    }
} // impl HealthState

// ---------------------------------------------------------------------
// Laws of the health state machine

/// The record after a failure at each time of `times`, oldest first, with
/// no success in between.
pub open spec fn after_failures(h: ServerHealth, u_thr: u32, times: Seq<u64>) -> ServerHealth
    decreases times.len(),
{
    if times.len() == 0 {
        h
    } else {
        after_failure(after_failures(h, u_thr, times.drop_last()), u_thr, times.last())
    }
}

/// The record after a success at each time of `times`, oldest first, with
/// no failure in between.
pub open spec fn after_successes(h: ServerHealth, h_thr: u32, times: Seq<u64>) -> ServerHealth
    decreases times.len(),
{
    if times.len() == 0 {
        h
    } else {
        after_success(after_successes(h, h_thr, times.drop_last()), h_thr, times.last())
    }
}

/// From a healthy record with no failure streak, fewer than `U` failures
/// in a row leave it healthy (counting them), and exactly `U` turn it
/// unhealthy (for a threshold `U` of at least one).
pub proof fn law_failures_turn_unhealthy(h: ServerHealth, u_thr: u32, times: Seq<u64>)
    requires
        h.healthy,
        h.consecutive_failures == 0,
        u_thr >= 1,
        times.len() <= u_thr,
    ensures
        times.len() < u_thr ==> after_failures(h, u_thr, times).healthy
            && after_failures(h, u_thr, times).consecutive_failures == times.len(),
        times.len() == u_thr ==> !after_failures(h, u_thr, times).healthy,
    decreases times.len(),
{
    if times.len() > 0 {
        law_failures_turn_unhealthy(h, u_thr, times.drop_last());
    }
}

/// A success clears the failure streak, whatever the record.
pub proof fn law_success_clears_failures(h: ServerHealth, h_thr: u32, now: u64)
    ensures
        after_success(h, h_thr, now).consecutive_failures == 0,
{
}

/// From an unhealthy record with no success streak, fewer than `H`
/// successes in a row leave it unhealthy (counting them), and exactly `H`
/// turn it healthy with its unhealthy timestamp cleared (for a threshold
/// `H` of at least one).
pub proof fn law_successes_turn_healthy(h: ServerHealth, h_thr: u32, times: Seq<u64>)
    requires
        !h.healthy,
        h.consecutive_successes == 0,
        h_thr >= 1,
        times.len() <= h_thr,
    ensures
        times.len() < h_thr ==> !after_successes(h, h_thr, times).healthy
            && after_successes(h, h_thr, times).consecutive_successes == times.len(),
        times.len() == h_thr ==> after_successes(h, h_thr, times).healthy
            && after_successes(h, h_thr, times).unhealthy_since == 0,
    decreases times.len(),
{
    if times.len() > 0 {
        law_successes_turn_healthy(h, h_thr, times.drop_last());
    }
}

/// Every transition keeps the record invariant, and a record made
/// unhealthy at a nonzero time carries that time.
pub proof fn law_transitions_keep_invariant(h: ServerHealth, u_thr: u32, h_thr: u32, now: u64)
    requires
        health_wf(h),
    ensures
        health_wf(after_success(h, h_thr, now)),
        health_wf(after_failure(h, u_thr, now)),
        health_wf(after_mark_unhealthy(h, now)),
        health_wf(after_reset(h)),
        (!h.healthy ==> h.unhealthy_since != 0) && now != 0 ==> {
            &&& (!after_success(h, h_thr, now).healthy ==> after_success(h, h_thr, now).unhealthy_since != 0)
            &&& (!after_failure(h, u_thr, now).healthy ==> after_failure(h, u_thr, now).unhealthy_since != 0)
            &&& (!after_mark_unhealthy(h, now).healthy ==> after_mark_unhealthy(h, now).unhealthy_since != 0)
        },
{
}

/// For a record whose unhealthy state carries its timestamp, the cooldown
/// is off exactly when the server is healthy or at least the cooldown has
/// passed since it turned unhealthy.
pub proof fn law_cooldown(h: ServerHealth, now: u64, cooldown_ms: u64)
    requires
        health_wf(h),
        !h.healthy ==> h.unhealthy_since != 0,
    ensures
        !cooldown_active(h, now, cooldown_ms) <==> (h.healthy || elapsed_secs(h.unhealthy_since, now)
            * 1000 >= cooldown_ms),
{
}

} // verus!
