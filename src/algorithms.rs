//! Server selection policies: round robin, weighted round robin, least
//! connections and client-IP affinity.

use vstd::prelude::*;
use std::collections::hash_map::DefaultHasher;
use std::hash::Hasher;
use vstd::std_specs::hash::DefaultHasherAdditionalSpecFns;
use crate::addr::{octets, IpAddress, SocketAddress};
use crate::config::Algorithm;
use crate::distribution::{hits, in_range, lemma_hits_agree, lemma_hits_range_periods};
use crate::tables::{count_entries, counts_get, counts_insert, counts_new, CountTable};

verus! {

/// An upstream server as the selection policies see it.
#[derive(Clone, Copy, Debug, PartialEq, Eq, Structural)]
pub struct ServerInfo {
    /// Server address.
    pub address: SocketAddress,
    /// Weight for the weighted policy.
    pub weight: u32,
}

// ---------------------------------------------------------------------
// Round robin

/// The server that round robin picks at counter value `counter`.
pub open spec fn rr_pick(servers: Seq<ServerInfo>, counter: nat) -> Option<SocketAddress> {
    if servers.len() == 0 {
        None
    } else {
        Some(servers[(counter % servers.len()) as int].address)
    }
}

/// The counter after one step: one more, wrapping at the top of `usize`.
pub open spec fn next_counter(c: usize) -> usize {
    if c == usize::MAX {
        0
    } else {
        (c + 1) as usize
    }
}

/// Round-robin selection: a counter, taken modulo the pool size, picks the
/// server.
pub struct RoundRobin {
    counter: usize,
}

impl RoundRobin {
    /// The current counter value.
    pub closed spec fn counter(&self) -> usize {
        self.counter
    }

    /// A round-robin policy whose counter starts at zero.
    pub fn new() -> (r: RoundRobin)
        ensures
            r.counter() == 0,
    {
        RoundRobin { counter: 0 }
    }

    /// Picks the next server. An empty pool gives `None` and leaves the
    /// counter as it was; otherwise the counter advances by one.
    pub fn select(&mut self, servers: &[ServerInfo], client_addr: Option<SocketAddress>) -> (r:
        Option<SocketAddress>)
        ensures
            r == rr_pick(servers@, old(self).counter() as nat),
            final(self).counter() == if servers@.len() == 0 {
                old(self).counter()
            } else {
                next_counter(old(self).counter())
            },
    {
        if servers.len() == 0 {
            return None;
        }
        let idx = self.counter % servers.len();
        self.counter = if self.counter == usize::MAX {
            0
        } else {
            self.counter + 1
        };
        Some(servers[idx].address)
    }
}

// ---------------------------------------------------------------------
// Weighted round robin

/// Sum of the weights of `s`.
pub open spec fn weight_total(s: Seq<ServerInfo>) -> nat
    decreases s.len(),
{
    if s.len() == 0 {
        0
    } else {
        weight_total(s.drop_last()) + s.last().weight as nat
    }
}

/// Sum of the weights of the first `i` servers.
pub open spec fn prefix_weight(s: Seq<ServerInfo>, i: int) -> nat {
    weight_total(s.subrange(0, i))
}

/// The first index `j >= i` whose cumulative weight `prefix_weight(s, j + 1)`
/// exceeds `pos`; `s.len()` if there is none.
pub open spec fn weighted_slot_from(s: Seq<ServerInfo>, pos: nat, i: int) -> int
    decreases s.len() - i,
{
    if i < 0 || i >= s.len() {
        s.len() as int
    } else if pos < prefix_weight(s, i + 1) {
        i
    } else {
        weighted_slot_from(s, pos, i + 1)
    }
}

/// The index of the server that owns weighted position `pos`.
pub open spec fn weighted_slot(s: Seq<ServerInfo>, pos: nat) -> int {
    weighted_slot_from(s, pos, 0)
}

/// The server that the weighted policy picks at counter value `counter`.
pub open spec fn weighted_pick(servers: Seq<ServerInfo>, counter: nat) -> Option<SocketAddress> {
    if servers.len() == 0 || weight_total(servers) == 0 {
        None
    } else {
        Some(servers[weighted_slot(servers, counter % weight_total(servers))].address)
    }
}

/// Adding the weight of server `i` to the prefix before it.
pub proof fn lemma_prefix_weight_step(s: Seq<ServerInfo>, i: int)
    requires
        0 <= i < s.len(),
    ensures
        prefix_weight(s, i + 1) == prefix_weight(s, i) + s[i].weight as nat,
{
    assert(s.subrange(0, i + 1).drop_last() =~= s.subrange(0, i));
}

/// The prefix over the whole pool is the total weight.
pub proof fn lemma_prefix_weight_full(s: Seq<ServerInfo>)
    ensures
        prefix_weight(s, s.len() as int) == weight_total(s),
{
    assert(s.subrange(0, s.len() as int) =~= s);
}

/// Weighted round robin: a counter modulo the total weight names a position,
/// and the server whose cumulative weight first exceeds it is picked.
pub struct Weighted {
    counter: usize,
}

impl Weighted {
    /// The current counter value.
    pub closed spec fn counter(&self) -> usize {
        self.counter
    }

    /// A weighted policy whose counter starts at zero.
    pub fn new() -> (r: Weighted)
        ensures
            r.counter() == 0,
    {
        Weighted { counter: 0 }
    }

    /// Picks the next server. An empty pool or a total weight of zero gives
    /// `None` and leaves the counter as it was; otherwise it advances by one.
    pub fn select(&mut self, servers: &[ServerInfo], client_addr: Option<SocketAddress>) -> (r:
        Option<SocketAddress>)
        ensures
            r == weighted_pick(servers@, old(self).counter() as nat),
            final(self).counter() == if r is None {
                old(self).counter()
            } else {
                next_counter(old(self).counter())
            },
    {
        let ghost s = servers@;
        if servers.len() == 0 {
            return None;
        }
        let mut total: u128 = 0;
        let mut i: usize = 0;
        while i < servers.len()
            invariant
                s == servers@,
                i <= s.len(),
                total == prefix_weight(s, i as int),
                total <= i * 0xffff_ffff,
            decreases s.len() - i,
        {
            proof {
                lemma_prefix_weight_step(s, i as int);
            }
            total = total + servers[i].weight as u128;
            i = i + 1;
        }
        proof {
            lemma_prefix_weight_full(s);
        }
        if total == 0 {
            return None;
        }
        let position: u128 = (self.counter as u128) % total;
        self.counter = if self.counter == usize::MAX {
            0
        } else {
            self.counter + 1
        };
        let mut cumulative: u128 = 0;
        let mut j: usize = 0;
        while j < servers.len()
            invariant
                s == servers@,
                j <= s.len(),
                total == weight_total(s),
                cumulative == prefix_weight(s, j as int),
                cumulative <= j * 0xffff_ffff,
                position < total,
                position == old(self).counter() as nat % weight_total(s),
                self.counter == next_counter(old(self).counter()),
                position >= cumulative,
                weighted_slot(s, position as nat) == weighted_slot_from(s, position as nat, j as int),
            decreases s.len() - j,
        {
            proof {
                lemma_prefix_weight_step(s, j as int);
            }
            cumulative = cumulative + servers[j].weight as u128;
            if position < cumulative {
                assert(weighted_slot_from(s, position as nat, j as int) == j);
                return Some(servers[j].address);
            }
            j = j + 1;
        }
        proof {
            lemma_prefix_weight_full(s);
        }
        None
    }
}

// ---------------------------------------------------------------------
// Least connections

/// Open connections to `a` in `counts`: zero for a server never seen.
pub open spec fn count_of(counts: Map<SocketAddress, u32>, a: SocketAddress) -> nat {
    if counts.contains_key(a) {
        counts[a] as nat
    } else {
        0
    }
}

/// `k` is the first server of the pool whose count is the pool's minimum.
pub open spec fn is_least_pick(servers: Seq<ServerInfo>, counts: Map<SocketAddress, u32>, k: int) -> bool {
    &&& 0 <= k < servers.len()
    &&& forall|j: int|
        0 <= j < servers.len() ==> count_of(counts, servers[k].address) <= count_of(
            counts,
            servers[j].address,
        )
    &&& forall|j: int|
        0 <= j < k ==> count_of(counts, servers[k].address) < count_of(counts, servers[j].address)
}

/// The least-connections pick: `None` for an empty pool, else the first
/// server with the fewest open connections.
pub open spec fn least_pick(servers: Seq<ServerInfo>, counts: Map<SocketAddress, u32>) -> Option<
    SocketAddress,
> {
    if servers.len() == 0 {
        None
    } else {
        Some(servers[choose|k: int| is_least_pick(servers, counts, k)].address)
    }
}

/// The counts after one more connection to `a` (held at `u32::MAX`).
pub open spec fn counts_after_connect(counts: Map<SocketAddress, u32>, a: SocketAddress) -> Map<
    SocketAddress,
    u32,
> {
    let c = count_of(counts, a);
    counts.insert(a, if c >= u32::MAX { u32::MAX } else { (c + 1) as u32 })
}

/// The counts after a connection to `a` closed: one less, never below zero;
/// a server never seen stays unseen.
pub open spec fn counts_after_disconnect(counts: Map<SocketAddress, u32>, a: SocketAddress) -> Map<
    SocketAddress,
    u32,
> {
    if counts.contains_key(a) && counts[a] > 0 {
        counts.insert(a, (counts[a] - 1) as u32)
    } else {
        counts
    }
}

/// Least connections: the server with the fewest open connections is
/// picked, the first in pool order among equals.
pub struct LeastConnections {
    connections: CountTable,
}

impl LeastConnections {
    /// Open connections per server.
    pub closed spec fn counts(&self) -> Map<SocketAddress, u32> {
        count_entries(self.connections)
    }

    /// A policy with no connections recorded.
    pub fn new() -> (r: LeastConnections)
        ensures
            r.counts() == Map::<SocketAddress, u32>::empty(),
    {
        let connections = counts_new();
        assert(count_entries(connections) =~= Map::<SocketAddress, u32>::empty());
        LeastConnections { connections }
    }

    /// Open connections to `server`.
    fn get_connections(&self, server: SocketAddress) -> (r: u32)
        ensures
            r as nat == count_of(self.counts(), server),
    {
        match counts_get(&self.connections, &server) {
            Some(c) => c,
            None => 0,
        }
    }

    /// Picks the first server with the fewest open connections; `None` for
    /// an empty pool.
    pub fn select(&self, servers: &[ServerInfo], client_addr: Option<SocketAddress>) -> (r:
        Option<SocketAddress>)
        ensures
            r == least_pick(servers@, self.counts()),
    {
        let ghost s = servers@;
        let ghost counts = self.counts();
        if servers.len() == 0 {
            return None;
        }
        let mut best: usize = 0;
        let mut min_conns = self.get_connections(servers[0].address);
        let mut i: usize = 1;
        while i < servers.len()
            invariant
                s == servers@,
                counts == self.counts(),
                1 <= i <= s.len(),
                best < i,
                min_conns as nat == count_of(counts, s[best as int].address),
                forall|j: int| 0 <= j < i ==> min_conns as nat <= count_of(counts, s[j].address),
                forall|j: int| 0 <= j < best ==> (min_conns as nat) < count_of(counts, s[j].address),
            decreases s.len() - i,
        {
            let conns = self.get_connections(servers[i].address);
            if conns < min_conns {
                min_conns = conns;
                best = i;
            }
            i = i + 1;
        }
        assert(is_least_pick(s, counts, best as int));
        let ghost k = choose|k: int| is_least_pick(s, counts, k);
        proof {
            law_least_pick_unique(s, counts, k, best as int);
        }
        Some(servers[best].address)
    }

    /// Records a new connection to `server`.
    pub fn on_connect(&mut self, server: SocketAddress)
        ensures
            final(self).counts() == counts_after_connect(old(self).counts(), server),
    {
        let c = self.get_connections(server);
        let next = if c == u32::MAX {
            c
        } else {
            c + 1
        };
        counts_insert(&mut self.connections, server, next);
    }

    /// Records that a connection to `server` closed.
    pub fn on_disconnect(&mut self, server: SocketAddress)
        ensures
            final(self).counts() == counts_after_disconnect(old(self).counts(), server),
    {
        match counts_get(&self.connections, &server) {
            Some(c) => {
                if c > 0 {
                    counts_insert(&mut self.connections, server, c - 1);
                }
            },
            None => {},
        }
    }

    /// Open connections to `server`.
    pub fn connection_count(&self, server: SocketAddress) -> (r: u32)
        ensures
            r as nat == count_of(self.counts(), server),
    {
        self.get_connections(server)
    }
}

// ---------------------------------------------------------------------
// Client-IP affinity

/// The 64-bit hash of a client IP: the default hasher over its octets.
pub open spec fn ip_hash_value(ip: IpAddress) -> u64 {
    DefaultHasher::spec_finish(seq![octets(ip)])
}

/// The server that IP hashing picks for a client.
pub open spec fn ip_hash_pick(servers: Seq<ServerInfo>, client: Option<SocketAddress>) -> Option<
    SocketAddress,
> {
    if servers.len() == 0 {
        None
    } else {
        match client {
            None => Some(servers[0].address),
            Some(c) => Some(servers[(ip_hash_value(c.ip) as nat % servers.len()) as int].address),
        }
    }
}

/// Client-IP affinity: the hash of the client's IP (not its port) picks
/// the server.
pub struct IpHash;

impl IpHash {
    /// An IP-hash policy.
    pub fn new() -> (r: IpHash) {
        IpHash
    }

    /// The hash of a client's IP.
    pub fn hash_client(&self, client_addr: SocketAddress) -> (r: u64)
        ensures
            r == ip_hash_value(client_addr.ip),
    {
        let bytes = client_addr.ip.octets();
        let mut hasher = DefaultHasher::new();
        hasher.write(bytes.as_slice());
        hasher.finish()
    }

    /// Picks the server for a client: `None` for an empty pool, the first
    /// server when the client is unknown.
    pub fn select(&self, servers: &[ServerInfo], client_addr: Option<SocketAddress>) -> (r:
        Option<SocketAddress>)
        ensures
            r == ip_hash_pick(servers@, client_addr),
    {
        if servers.len() == 0 {
            return None;
        }
        let idx: usize = match client_addr {
            Some(addr) => {
                let h = self.hash_client(addr);
                (h % (servers.len() as u64)) as usize
            },
            None => 0,
        };
        Some(servers[idx].address)
    }
}

// ---------------------------------------------------------------------
// One policy of the four

/// A selection policy with its state.
pub enum Balancer {
    RoundRobin(RoundRobin),
    Weighted(Weighted),
    LeastConnections(LeastConnections),
    IpHash(IpHash),
}

impl Balancer {
    /// The server this policy picks next from `servers` for `client`.
    pub open spec fn pick(&self, servers: Seq<ServerInfo>, client: Option<SocketAddress>) -> Option<
        SocketAddress,
    > {
        match self {
            Balancer::RoundRobin(p) => rr_pick(servers, p.counter() as nat),
            Balancer::Weighted(p) => weighted_pick(servers, p.counter() as nat),
            Balancer::LeastConnections(p) => least_pick(servers, p.counts()),
            Balancer::IpHash(_) => ip_hash_pick(servers, client),
        }
    }

    /// `next` is this policy after one selection from `servers`.
    pub open spec fn advanced_to(&self, next: Balancer, servers: Seq<ServerInfo>) -> bool {
        match (self, next) {
            (Balancer::RoundRobin(a), Balancer::RoundRobin(b)) => b.counter() == if servers.len()
                == 0 {
                a.counter()
            } else {
                next_counter(a.counter())
            },
            (Balancer::Weighted(a), Balancer::Weighted(b)) => b.counter() == if weighted_pick(
                servers,
                a.counter() as nat,
            ) is None {
                a.counter()
            } else {
                next_counter(a.counter())
            },
            (Balancer::LeastConnections(a), Balancer::LeastConnections(b)) => b.counts()
                == a.counts(),
            (Balancer::IpHash(_), Balancer::IpHash(_)) => true,
            _ => false,
        }
    }

    /// Open connections per server as this policy counts them: only least
    /// connections counts, the others report none.
    pub open spec fn counts(&self) -> Map<SocketAddress, u32> {
        match self {
            Balancer::LeastConnections(p) => p.counts(),
            _ => Map::empty(),
        }
    }

    /// A fresh policy of the given kind.
    pub fn new(algorithm: Algorithm) -> (r: Balancer)
        ensures
            r.counts() == Map::<SocketAddress, u32>::empty(),
            match algorithm {
                Algorithm::RoundRobin => r matches Balancer::RoundRobin(p) && p.counter() == 0,
                Algorithm::Weighted => r matches Balancer::Weighted(p) && p.counter() == 0,
                Algorithm::LeastConnections => r is LeastConnections,
                Algorithm::IpHash => r is IpHash,
            },
    {
        match algorithm {
            Algorithm::RoundRobin => Balancer::RoundRobin(RoundRobin::new()),
            Algorithm::Weighted => Balancer::Weighted(Weighted::new()),
            Algorithm::LeastConnections => Balancer::LeastConnections(LeastConnections::new()),
            Algorithm::IpHash => Balancer::IpHash(IpHash::new()),
        }
    }

    /// Picks the next server from `servers` for `client`.
    pub fn select(&mut self, servers: &[ServerInfo], client_addr: Option<SocketAddress>) -> (r:
        Option<SocketAddress>)
        ensures
            r == old(self).pick(servers@, client_addr),
            old(self).advanced_to(*final(self), servers@),
    {
        match self {
            Balancer::RoundRobin(p) => p.select(servers, client_addr),
            Balancer::Weighted(p) => p.select(servers, client_addr),
            Balancer::LeastConnections(p) => p.select(servers, client_addr),
            Balancer::IpHash(p) => p.select(servers, client_addr),
        }
    }

    /// `next` is this policy after a connection to `a` opened: least
    /// connections counts it, any other policy stays as it is.
    pub open spec fn connected(&self, next: Balancer, a: SocketAddress) -> bool {
        match (self, next) {
            (Balancer::LeastConnections(x), Balancer::LeastConnections(y)) => y.counts()
                == counts_after_connect(x.counts(), a),
            (Balancer::LeastConnections(_), _) => false,
            _ => next == *self,
        }
    }

    /// `next` is this policy after a connection to `a` closed: least
    /// connections counts it, any other policy stays as it is.
    pub open spec fn disconnected(&self, next: Balancer, a: SocketAddress) -> bool {
        match (self, next) {
            (Balancer::LeastConnections(x), Balancer::LeastConnections(y)) => y.counts()
                == counts_after_disconnect(x.counts(), a),
            (Balancer::LeastConnections(_), _) => false,
            _ => next == *self,
        }
    }

    /// Records a new connection to `server`.
    pub fn on_connect(&mut self, server: SocketAddress)
        ensures
            old(self).connected(*final(self), server),
    {
        match self {
            Balancer::LeastConnections(p) => p.on_connect(server),
            _ => {},
        }
    }

    /// Records that a connection to `server` closed.
    pub fn on_disconnect(&mut self, server: SocketAddress)
        ensures
            old(self).disconnected(*final(self), server),
    {
        match self {
            Balancer::LeastConnections(p) => p.on_disconnect(server),
            _ => {},
        }
    }

    /// Open connections to `server` as this policy counts them.
    pub fn connection_count(&self, server: SocketAddress) -> (r: u32)
        ensures
            r as nat == count_of(self.counts(), server),
    {
        match self {
            Balancer::LeastConnections(p) => p.connection_count(server),
            _ => 0,
        }
    }
}

// ---------------------------------------------------------------------
// Laws of the selection policies

/// Over `n * k` consecutive round-robin selections on an `n`-server pool,
/// from any counter value, each position `i` of the pool is picked exactly
/// `k` times (the pick at counter `c` is position `c % n`).
pub proof fn law_round_robin_even(servers: Seq<ServerInfo>, start: nat, k: nat, i: nat)
    requires
        servers.len() > 0,
        i < servers.len(),
    ensures
        hits(start, servers.len() * k, servers.len(), in_range(i, i + 1)) == k,
{
    lemma_hits_range_periods(start, k, servers.len(), i, i + 1);
    assert(k * ((i + 1) - i) == k) by (nonlinear_arith);
}

/// The counter after `j` selections that advanced it, from `c`.
pub open spec fn counter_after(c: usize, j: nat) -> usize
    decreases j,
{
    if j == 0 {
        c
    } else {
        next_counter(counter_after(c, (j - 1) as nat))
    }
}

/// Without wrapping, `j` selections from counter `c` leave it at `c + j`;
/// so by the contracts of `select`, the `j`-th of consecutive selections
/// on a non-empty pool (counting from zero) picks `rr_pick(servers, c + j)`,
/// or `weighted_pick(servers, c + j)` for a positive total weight, and the
/// counting laws above apply to those picks.
pub proof fn law_counter_steps(c: usize, j: nat)
    requires
        c + j <= usize::MAX,
    ensures
        counter_after(c, j) == c + j,
    decreases j,
{
    if j > 0 {
        law_counter_steps(c, (j - 1) as nat);
    }
}

/// Prefix sums of weights grow along the pool.
pub proof fn lemma_prefix_weight_monotone(s: Seq<ServerInfo>, a: int, b: int)
    requires
        0 <= a <= b <= s.len(),
    ensures
        prefix_weight(s, a) <= prefix_weight(s, b),
    decreases b - a,
{
    if a < b {
        lemma_prefix_weight_step(s, b - 1);
        lemma_prefix_weight_monotone(s, a, b - 1);
    }
}

/// A position inside server `i`'s interval of cumulative weight belongs to
/// server `i`.
pub proof fn lemma_slot_of_interval(s: Seq<ServerInfo>, pos: nat, j: int, i: int)
    requires
        0 <= j <= i < s.len(),
        prefix_weight(s, i) <= pos < prefix_weight(s, i + 1),
    ensures
        weighted_slot_from(s, pos, j) == i,
    decreases i - j,
{
    if j < i {
        lemma_prefix_weight_monotone(s, j + 1, i);
        lemma_slot_of_interval(s, pos, j + 1, i);
    }
}

/// The server that owns a position has the position inside its interval.
pub proof fn lemma_interval_of_slot(s: Seq<ServerInfo>, pos: nat, j: int)
    requires
        0 <= j,
        weighted_slot_from(s, pos, j) < s.len(),
        prefix_weight(s, j) <= pos,
    ensures
        prefix_weight(s, weighted_slot_from(s, pos, j)) <= pos < prefix_weight(
            s,
            weighted_slot_from(s, pos, j) + 1,
        ),
    decreases s.len() - j,
{
    if j < s.len() && pos >= prefix_weight(s, j + 1) {
        lemma_interval_of_slot(s, pos, j + 1);
    }
}

/// The condition "position `r` belongs to server `i`".
pub open spec fn slot_is(s: Seq<ServerInfo>, i: int) -> spec_fn(nat) -> bool {
    |r: nat| weighted_slot(s, r) == i
}

/// Over `W * k` consecutive weighted selections, where `W` is the total
/// weight, server `i` is picked exactly `weight_i * k` times, from any
/// counter value (the pick at counter `c` is the owner of position `c % W`).
pub proof fn law_weighted_exact(servers: Seq<ServerInfo>, start: nat, k: nat, i: int)
    requires
        0 <= i < servers.len(),
        weight_total(servers) > 0,
    ensures
        hits(start, weight_total(servers) * k, weight_total(servers), slot_is(servers, i))
            == servers[i].weight * k,
{
    let w = weight_total(servers);
    let lo = prefix_weight(servers, i);
    let hi = prefix_weight(servers, i + 1);
    lemma_prefix_weight_step(servers, i);
    lemma_prefix_weight_monotone(servers, i + 1, servers.len() as int);
    lemma_prefix_weight_full(servers);
    assert forall|r: nat| r < w implies #[trigger] slot_is(servers, i)(r) == in_range(lo, hi)(r) by {
        if lo <= r < hi {
            lemma_slot_of_interval(servers, r, 0, i);
        }
        if weighted_slot(servers, r) == i {
            assert(servers.subrange(0, 0) =~= Seq::<ServerInfo>::empty());
            lemma_interval_of_slot(servers, r, 0);
        }
    }
    lemma_hits_agree(start, w * k, w, slot_is(servers, i), in_range(lo, hi));
    lemma_hits_range_periods(start, k, w, lo, hi);
    assert(k * (hi - lo) == servers[i].weight * k) by (nonlinear_arith)
        requires
            hi - lo == servers[i].weight,
    ;
}

/// Round robin and weighted selection depend on nothing but the counter
/// and the pool, so replaying from the same counter gives the same picks;
/// and the picks repeat after one full cycle (the pool size for round
/// robin, the total weight for weighted).
pub proof fn law_replay(servers: Seq<ServerInfo>, c1: nat, c2: nat)
    ensures
        c1 == c2 ==> rr_pick(servers, c1) == rr_pick(servers, c2) && weighted_pick(servers, c1)
            == weighted_pick(servers, c2),
        rr_pick(servers, c1 + servers.len()) == rr_pick(servers, c1),
        weighted_pick(servers, c1 + weight_total(servers)) == weighted_pick(servers, c1),
{
    if servers.len() > 0 {
        vstd::arithmetic::div_mod::lemma_mod_add_multiples_vanish(c1 as int, servers.len() as int);
    }
    if weight_total(servers) > 0 {
        vstd::arithmetic::div_mod::lemma_mod_add_multiples_vanish(c1 as int, weight_total(servers) as int);
    }
}

/// Two clients with the same IP are sent to the same server, whatever
/// their ports; the pick depends on nothing but the pool and the IP.
pub proof fn law_ip_hash_affinity(servers: Seq<ServerInfo>, a: SocketAddress, b: SocketAddress)
    requires
        a.ip == b.ip,
    ensures
        ip_hash_pick(servers, Some(a)) == ip_hash_pick(servers, Some(b)),
{
}

/// Without a client address, IP hashing picks the first server.
pub proof fn law_ip_hash_without_client(servers: Seq<ServerInfo>)
    requires
        servers.len() > 0,
    ensures
        ip_hash_pick(servers, None) == Some(servers[0].address),
{
}

/// At most one position is the least-connections pick, and its count is
/// the minimum over the pool: the pick is fixed by the counts and the order.
pub proof fn law_least_pick_unique(
    servers: Seq<ServerInfo>,
    counts: Map<SocketAddress, u32>,
    k1: int,
    k2: int,
)
    requires
        is_least_pick(servers, counts, k1),
        is_least_pick(servers, counts, k2),
    ensures
        k1 == k2,
        forall|j: int|
            0 <= j < servers.len() ==> count_of(counts, servers[k1].address) <= count_of(
                counts,
                #[trigger] servers[j].address,
            ),
{
    if k1 < k2 {
        assert(count_of(counts, servers[k2].address) < count_of(counts, servers[k1].address));
    } else if k2 < k1 {
        assert(count_of(counts, servers[k1].address) < count_of(counts, servers[k2].address));
    }
}

/// A disconnect never takes a count below zero: a count of zero stays
/// zero, any other count drops by one, and other servers are untouched.
pub proof fn law_disconnect_floor(counts: Map<SocketAddress, u32>, a: SocketAddress, b: SocketAddress)
    ensures
        count_of(counts_after_disconnect(counts, a), a) == if count_of(counts, a) > 0 {
            (count_of(counts, a) - 1) as nat
        } else {
            0
        },
        b != a ==> count_of(counts_after_disconnect(counts, a), b) == count_of(counts, b),
{
}

/// Every policy gives `None` for an empty pool.
pub proof fn law_empty_pool(servers: Seq<ServerInfo>, counter: nat, client: Option<SocketAddress>)
    requires
        servers.len() == 0,
    ensures
        rr_pick(servers, counter) is None,
        weighted_pick(servers, counter) is None,
        ip_hash_pick(servers, client) is None,
        forall|counts: Map<SocketAddress, u32>| #[trigger] least_pick(servers, counts) is None,
        forall|b: Balancer| #[trigger] b.pick(servers, client) is None,
{
}

/// A pool whose weights are all zero gives `None` under the weighted policy.
pub proof fn law_weighted_all_zero(servers: Seq<ServerInfo>, counter: nat)
    requires
        forall|i: int| 0 <= i < servers.len() ==> #[trigger] servers[i].weight == 0,
    ensures
        weighted_pick(servers, counter) is None,
    decreases servers.len(),
{
    if servers.len() > 0 {
        let t = servers.drop_last();
        assert forall|i: int| 0 <= i < t.len() implies #[trigger] t[i].weight == 0 by {
            assert(t[i] == servers[i]);
        }
        law_weighted_all_zero(t, counter);
        if t.len() > 0 {
            assert(weight_total(t) == 0);
        }
        assert(servers.last().weight == 0);
    }
}

} // verus!
