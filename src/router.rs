//! The router: named server pools, each with its selection policy, built
//! from the configuration.

use vstd::prelude::*;
use crate::addr::SocketAddress;
use crate::algorithms::{count_of, Balancer, ServerInfo};
use crate::config::{Algorithm, BackendConfig, FrontendConfig, ServerConfig};

verus! {

/// A named pool of servers and the policy that picks among them.
pub struct BackendPool {
    pub name: String,
    pub servers: Vec<ServerInfo>,
    pub balancer: Balancer,
}

/// The index of the last pool named `name`, or -1 if there is none (a
/// later pool of a name hides an earlier one).
pub open spec fn pool_index(pools: Seq<BackendPool>, name: Seq<char>) -> int
    decreases pools.len(),
{
    if pools.len() == 0 {
        -1
    } else if pools.last().name@ == name {
        pools.len() - 1
    } else {
        pool_index(pools.drop_last(), name)
    }
}

/// Replacing a pool by one of the same name changes no lookup.
pub proof fn lemma_pool_index_update(pools: Seq<BackendPool>, i: int, p: BackendPool, name: Seq<char>)
    requires
        0 <= i < pools.len(),
        p.name@ == pools[i].name@,
    ensures
        pool_index(pools.update(i, p), name) == pool_index(pools, name),
    decreases pools.len(),
{
    let q = pools.update(i, p);
    if i == pools.len() - 1 {
        assert(q.drop_last() =~= pools.drop_last());
    } else {
        assert(q.drop_last() =~= pools.drop_last().update(i, p));
        lemma_pool_index_update(pools.drop_last(), i, p, name);
    }
}

/// The policy a pool gets: that of the last listener forwarding to it,
/// round robin if none does.
pub open spec fn algorithm_for(frontends: Seq<FrontendConfig>, name: Seq<char>) -> Algorithm
    decreases frontends.len(),
{
    if frontends.len() == 0 {
        Algorithm::RoundRobin
    } else if frontends.last().backend@ == name {
        frontends.last().algorithm
    } else {
        algorithm_for(frontends.drop_last(), name)
    }
}

/// Whether an entry after `i` has the same name.
pub open spec fn backend_renamed_later(bs: Seq<BackendConfig>, i: int) -> bool {
    exists|j: int| i < j < bs.len() && #[trigger] bs[j].name@ == bs[i].name@
}

/// The entries no later entry of the same name replaces, in order.
pub open spec fn last_backends(bs: Seq<BackendConfig>) -> Seq<BackendConfig>
    decreases bs.len(),
{
    if bs.len() == 0 {
        bs
    } else if backend_renamed_later(bs, 0) {
        last_backends(bs.drop_first())
    } else {
        seq![bs[0]] + last_backends(bs.drop_first())
    }
}

/// No two entries share a name.
pub open spec fn unique_backend_names(bs: Seq<BackendConfig>) -> bool {
    forall|i: int, j: int| 0 <= i < j < bs.len() ==> #[trigger] bs[i].name@ != #[trigger] bs[j].name@
}

/// Pool `p` is the fresh pool of configuration `b`.
pub open spec fn built_from(p: BackendPool, b: BackendConfig, frontends: Seq<FrontendConfig>) -> bool {
    &&& p.name@ == b.name@
    &&& p.servers@ == server_infos(b.servers@)
    &&& fresh_balancer(p.balancer, algorithm_for(frontends, b.name@))
}

proof fn lemma_last_backends_names(bs: Seq<BackendConfig>, n: Seq<char>, k: int)
    requires
        0 <= k < last_backends(bs).len(),
        last_backends(bs)[k].name@ == n,
    ensures
        exists|j: int| 0 <= j < bs.len() && #[trigger] bs[j].name@ == n,
    decreases bs.len(),
{
    let t = bs.drop_first();
    if backend_renamed_later(bs, 0) {
        lemma_last_backends_names(t, n, k);
        let j = choose|j: int| 0 <= j < t.len() && #[trigger] t[j].name@ == n;
        assert(bs[j + 1].name@ == n);
    } else if k == 0 {
        assert(bs[0].name@ == n);
    } else {
        assert(last_backends(bs)[k] == last_backends(t)[k - 1]);
        lemma_last_backends_names(t, n, k - 1);
        let j = choose|j: int| 0 <= j < t.len() && #[trigger] t[j].name@ == n;
        assert(bs[j + 1].name@ == n);
    }
}

/// Keeping the last entry of each name leaves every name once.
pub proof fn lemma_last_backends_unique(bs: Seq<BackendConfig>)
    ensures
        unique_backend_names(last_backends(bs)),
    decreases bs.len(),
{
    if bs.len() > 0 {
        let t = bs.drop_first();
        lemma_last_backends_unique(t);
        if !backend_renamed_later(bs, 0) {
            let r = last_backends(bs);
            let rt = last_backends(t);
            assert forall|i: int, j: int| 0 <= i < j < r.len() implies #[trigger] r[i].name@ != #[trigger] r[j].name@ by {
                if i == 0 {
                    assert(r[j] == rt[j - 1]);
                    if r[j].name@ == bs[0].name@ {
                        lemma_last_backends_names(t, bs[0].name@, j - 1);
                        let m = choose|m: int| 0 <= m < t.len() && #[trigger] t[m].name@ == bs[0].name@;
                        assert(bs[m + 1].name@ == bs[0].name@);
                    }
                } else {
                    assert(r[i] == rt[i - 1] && r[j] == rt[j - 1]);
                }
            }
        }
    }
}

fn renamed_later(bs: &[BackendConfig], i: usize) -> (r: bool)
    requires
        i < bs@.len(),
    ensures
        r == backend_renamed_later(bs@.skip(i as int), 0),
{
    let ghost t = bs@.skip(i as int);
    let n = bs.len();
    assert(i < n);
    let mut j = i + 1;
    while j < bs.len()
        invariant
            i < j <= bs@.len(),
            t == bs@.skip(i as int),
            forall|k: int| i < k < j ==> #[trigger] bs@[k].name@ != bs@[i as int].name@,
        decreases bs@.len() - j,
    {
        if bs[j].name == bs[i].name {
            assert(t[j - i].name@ == t[0].name@);
            return true;
        }
        j = j + 1;
    }
    assert forall|k: int| 0 < k < t.len() implies #[trigger] t[k].name@ != t[0].name@ by {
        assert(t[k] == bs@[i + k]);
    }
    false
}

/// The selection view of configured servers: address and weight, in order.
pub open spec fn server_infos(servers: Seq<ServerConfig>) -> Seq<ServerInfo> {
    servers.map_values(|s: ServerConfig| ServerInfo { address: s.address, weight: s.weight })
}

/// `b` is a policy of kind `alg` in its initial state.
pub open spec fn fresh_balancer(b: Balancer, alg: Algorithm) -> bool {
    &&& b.counts() == Map::<SocketAddress, u32>::empty()
    &&& match alg {
        Algorithm::RoundRobin => b matches Balancer::RoundRobin(p) && p.counter() == 0,
        Algorithm::Weighted => b matches Balancer::Weighted(p) && p.counter() == 0,
        Algorithm::LeastConnections => b is LeastConnections,
        Algorithm::IpHash => b is IpHash,
    }
}

/// Routes each pool name to a server picked by the pool's policy.
pub struct BackendRouter {
    backends: Vec<BackendPool>,
}

impl BackendRouter {
    /// The pools, in the order their names first appear in the configuration.
    pub closed spec fn pools(&self) -> Seq<BackendPool> {
        self.backends@
    }

    /// The pool of the configuration named `name`, if any.
    pub open spec fn pool_of(&self, name: Seq<char>) -> Option<BackendPool> {
        if 0 <= pool_index(self.pools(), name) < self.pools().len() {
            Some(self.pools()[pool_index(self.pools(), name)])
        } else {
            None
        }
    }

    /// Finds the pool named `name`.
    fn find(&self, name: &String) -> (r: Option<usize>)
        ensures
            match r {
                Some(i) => i as int == pool_index(self.pools(), name@) && i < self.pools().len(),
                None => pool_index(self.pools(), name@) < 0,
            },
    {
        let mut found: Option<usize> = None;
        let mut i: usize = 0;
        while i < self.backends.len()
            invariant
                i <= self.pools().len(),
                match found {
                    Some(f) => f as int == pool_index(self.pools().subrange(0, i as int), name@) && f < i,
                    None => pool_index(self.pools().subrange(0, i as int), name@) < 0,
                },
            decreases self.pools().len() - i,
        {
            proof {
                assert(self.pools().subrange(0, i + 1).drop_last() =~= self.pools().subrange(0, i as int));
            }
            if self.backends[i].name == *name {
                found = Some(i);
            }
            i = i + 1;
        }
        proof {
            assert(self.pools().subrange(0, self.pools().len() as int) =~= self.pools());
        }
        found
    }

    /// Pool names are unique, as the keys of a map.
    pub open spec fn wf(&self) -> bool {
        forall|i: int, j: int|
            0 <= i < j < self.pools().len() ==> #[trigger] self.pools()[i].name@ != #[trigger] self.pools()[j].name@
    }

    /// Builds one pool per pool name of `backends`, from the last entry of
    /// that name (as a map filled entry by entry keeps it), in the order of
    /// those entries; each gets the policy of the last listener in
    /// `frontends` that forwards to it (round robin if none does).
    pub fn new(backends: &[BackendConfig], frontends: &[FrontendConfig]) -> (r: BackendRouter)
        ensures
            r.wf(),
            r.pools().len() == last_backends(backends@).len(),
            forall|i: int|
                0 <= i < r.pools().len() ==> built_from(#[trigger] r.pools()[i], last_backends(backends@)[i], frontends@),
    {
        let ghost all = backends@;
        let ghost mut done: Seq<BackendConfig> = Seq::empty();
        let mut pools: Vec<BackendPool> = Vec::new();
        let mut k: usize = 0;
        proof {
            assert(all.skip(0) =~= all);
            assert(done + last_backends(all.skip(0)) =~= last_backends(all));
            lemma_last_backends_unique(all);
        }
        while k < backends.len()
            invariant
                k <= backends@.len(),
                all == backends@,
                done + last_backends(all.skip(k as int)) == last_backends(all),
                unique_backend_names(last_backends(all)),
                pools@.len() == done.len(),
                forall|i: int| 0 <= i < pools@.len() ==> built_from(#[trigger] pools@[i], done[i], frontends@),
            decreases backends@.len() - k,
        {
            let ghost rest = all.skip(k as int);
            let later = renamed_later(backends, k);
            proof {
                assert(rest.drop_first() =~= all.skip(k + 1));
                assert(rest[0] == all[k as int]);
            }
            if !later {
                let cfg = &backends[k];
                let servers = server_list(&cfg.servers);
                let algorithm = algorithm_of(frontends, &cfg.name);
                let pool = BackendPool { name: cfg.name.clone(), servers, balancer: Balancer::new(algorithm) };
                pools.push(pool);
                proof {
                    done = done.push(rest[0]);
                    assert(done + last_backends(all.skip(k + 1)) =~= last_backends(all)) by {
                        assert(last_backends(rest) == seq![rest[0]] + last_backends(rest.drop_first()));
                        assert(done.drop_last() + last_backends(rest) == last_backends(all));
                    }
                }
            }
            k = k + 1;
        }
        proof {
            assert(all.skip(k as int) =~= Seq::<BackendConfig>::empty());
            assert(done =~= last_backends(all));
        }
        let r = BackendRouter { backends: pools };
        assert forall|i: int, j: int| 0 <= i < j < r.pools().len() implies #[trigger] r.pools()[i].name@
            != #[trigger] r.pools()[j].name@ by {
            assert(r.pools()[i].name@ == done[i].name@ && r.pools()[j].name@ == done[j].name@);
        }
        r
    }

    /// Picks a server of the pool named `backend_name` for `client_addr`:
    /// `None` if there is no such pool, if it is empty, or if its policy
    /// finds no server. Only that pool's policy state changes.
    pub fn select(&mut self, backend_name: &str, client_addr: Option<SocketAddress>) -> (r: Option<SocketAddress>)
        ensures
            old(self).wf() ==> final(self).wf(),
            final(self).pools().len() == old(self).pools().len(),
            match old(self).pool_of(backend_name@) {
                None => r is None && final(self).pools() == old(self).pools(),
                Some(p) => {
                    let i = pool_index(old(self).pools(), backend_name@);
                    &&& r == p.balancer.pick(p.servers@, client_addr)
                    &&& final(self).pools()[i].name == p.name
                    &&& final(self).pools()[i].servers == p.servers
                    &&& p.balancer.advanced_to(final(self).pools()[i].balancer, p.servers@)
                    &&& forall|j: int| 0 <= j < old(self).pools().len() && j != i ==> #[trigger] final(self).pools()[j] == old(self).pools()[j]
                },
            },
    {
        let key = String::from_str(backend_name);
        match self.find(&key) {
            None => None,
            Some(i) => {
                let pool = &mut self.backends[i];
                pool.balancer.select(pool.servers.as_slice(), client_addr)
            },
        }
    }

    /// The server addresses of the pool named `backend_name`, in order.
    pub fn get_servers(&self, backend_name: &str) -> (r: Option<Vec<SocketAddress>>)
        ensures
            match self.pool_of(backend_name@) {
                None => r is None,
                Some(p) => r matches Some(v) && v@ == p.servers@.map_values(|s: ServerInfo| s.address),
            },
    {
        let key = String::from_str(backend_name);
        match self.find(&key) {
            None => None,
            Some(i) => {
                let servers = &self.backends[i].servers;
                let mut out: Vec<SocketAddress> = Vec::new();
                let mut k: usize = 0;
                while k < servers.len()
                    invariant
                        k <= servers@.len(),
                        out@ == servers@.subrange(0, k as int).map_values(|s: ServerInfo| s.address),
                    decreases servers@.len() - k,
                {
                    out.push(servers[k].address);
                    proof {
                        assert(servers@.subrange(0, k + 1).map_values(|s: ServerInfo| s.address) =~= servers@.subrange(
                            0,
                            k as int,
                        ).map_values(|s: ServerInfo| s.address).push(servers@[k as int].address));
                    }
                    k = k + 1;
                }
                proof {
                    assert(servers@.subrange(0, servers@.len() as int) =~= servers@);
                }
                Some(out)
            },
        }
    }

    /// Tells the policy of the pool named `backend_name` that a connection
    /// to `server` opened.
    pub fn on_connect(&mut self, backend_name: &str, server: SocketAddress)
        ensures
            old(self).wf() ==> final(self).wf(),
            final(self).pools().len() == old(self).pools().len(),
            match old(self).pool_of(backend_name@) {
                None => final(self).pools() == old(self).pools(),
                Some(p) => {
                    let i = pool_index(old(self).pools(), backend_name@);
                    &&& final(self).pools()[i].name == p.name
                    &&& final(self).pools()[i].servers == p.servers
                    &&& p.balancer.connected(final(self).pools()[i].balancer, server)
                    &&& forall|j: int| 0 <= j < old(self).pools().len() && j != i ==> #[trigger] final(self).pools()[j] == old(self).pools()[j]
                },
            },
    {
        let key = String::from_str(backend_name);
        if let Some(i) = self.find(&key) {
            self.backends[i].balancer.on_connect(server);
        }
    }

    /// Tells the policy of the pool named `backend_name` that a connection
    /// to `server` closed.
    pub fn on_disconnect(&mut self, backend_name: &str, server: SocketAddress)
        ensures
            old(self).wf() ==> final(self).wf(),
            final(self).pools().len() == old(self).pools().len(),
            match old(self).pool_of(backend_name@) {
                None => final(self).pools() == old(self).pools(),
                Some(p) => {
                    let i = pool_index(old(self).pools(), backend_name@);
                    &&& final(self).pools()[i].name == p.name
                    &&& final(self).pools()[i].servers == p.servers
                    &&& p.balancer.disconnected(final(self).pools()[i].balancer, server)
                    &&& forall|j: int| 0 <= j < old(self).pools().len() && j != i ==> #[trigger] final(self).pools()[j] == old(self).pools()[j]
                },
            },
    {
        let key = String::from_str(backend_name);
        if let Some(i) = self.find(&key) {
            self.backends[i].balancer.on_disconnect(server);
        }
    }

    /// Open connections to `server` as the policy of the pool named
    /// `backend_name` counts them; zero if there is no such pool.
    pub fn connection_count(&self, backend_name: &str, server: SocketAddress) -> (r: u32)
        ensures
            r as nat == match self.pool_of(backend_name@) {
                None => 0,
                Some(p) => count_of(p.balancer.counts(), server),
            },
    {
        let key = String::from_str(backend_name);
        match self.find(&key) {
            None => 0,
            Some(i) => self.backends[i].balancer.connection_count(server),
        }
    }
} // impl BackendRouter

/// The selection view of configured servers.
fn server_list(servers: &Vec<ServerConfig>) -> (r: Vec<ServerInfo>)
    ensures
        r@ == server_infos(servers@),
{
    let mut out: Vec<ServerInfo> = Vec::new();
    let mut i: usize = 0;
    while i < servers.len()
        invariant
            i <= servers@.len(),
            out@ == server_infos(servers@.subrange(0, i as int)),
        decreases servers@.len() - i,
    {
        let s = servers[i];
        out.push(ServerInfo { address: s.address, weight: s.weight });
        proof {
            assert(server_infos(servers@.subrange(0, i + 1)) =~= server_infos(servers@.subrange(0, i as int)).push(
                ServerInfo { address: s.address, weight: s.weight },
            ));
        }
        i = i + 1;
    }
    proof {
        assert(servers@.subrange(0, servers@.len() as int) =~= servers@);
    }
    out
}

/// The policy for the pool named `name`.
fn algorithm_of(frontends: &[FrontendConfig], name: &String) -> (r: Algorithm)
    ensures
        r == algorithm_for(frontends@, name@),
{
    let mut alg = Algorithm::RoundRobin;
    let mut i: usize = 0;
    while i < frontends.len()
        invariant
            i <= frontends@.len(),
            alg == algorithm_for(frontends@.subrange(0, i as int), name@),
        decreases frontends@.len() - i,
    {
        proof {
            assert(frontends@.subrange(0, i + 1).drop_last() =~= frontends@.subrange(0, i as int));
        }
        if frontends[i].backend == *name {
            alg = frontends[i].algorithm;
        }
        i = i + 1;
    }
    proof {
        assert(frontends@.subrange(0, frontends@.len() as int) =~= frontends@);
    }
    alg
}

} // verus!
