//! What a listener decides for each accepted connection: which server it
//! goes to, how it is proxied, and the bookkeeping around it.

use vstd::prelude::*;
use crate::addr::SocketAddress;
use crate::algorithms::Balancer;
use crate::config::{FrontendConfig, Protocol};
use crate::http_proxy::{header_texts, last_per_name, HttpProxyConfig};
use crate::router::{lemma_pool_index_update, pool_index, BackendRouter};
use crate::tcp_proxy::tcp_connect_timeout;

verus! {

/// How an accepted connection is handled.
pub enum ConnectionPlan {
    /// No server can take it: a TCP connection is closed, an HTTP client
    /// gets a 502.
    Reject,
    /// Bytes are copied both ways to `backend`.
    Tcp { backend: SocketAddress, connect_timeout_ms: u64 },
    /// Requests are forwarded to `backend` with `config`.
    Http { backend: SocketAddress, config: HttpProxyConfig },
}

/// Picks a server for a connection from `client` on listener `frontend`
/// and, when one is found, records the connection with the pool's policy
/// before any proxying. The pool's policy ends as the selection leaves it,
/// plus the new connection when a server was picked; nothing else changes.
/// The plan carries the server and how to proxy to it.
pub fn begin_connection(router: &mut BackendRouter, frontend: &FrontendConfig, client: SocketAddress) -> (r:
    ConnectionPlan)
    ensures
        final(router).pools().len() == old(router).pools().len(),
        match old(router).pool_of(frontend.backend@) {
            None => r is Reject && final(router).pools() == old(router).pools(),
            Some(p) => {
                let i = pool_index(old(router).pools(), frontend.backend@);
                let picked = p.balancer.pick(p.servers@, Some(client));
                &&& match picked {
                    None => r is Reject && p.balancer.advanced_to(final(router).pools()[i].balancer, p.servers@),
                    Some(a) => (exists|mid: Balancer|
                        #[trigger] p.balancer.advanced_to(mid, p.servers@) && mid.connected(
                            final(router).pools()[i].balancer,
                            a,
                        )) && match frontend.protocol {
                        Protocol::Tcp => r matches ConnectionPlan::Tcp { backend, connect_timeout_ms } && backend == a
                            && connect_timeout_ms == match frontend.tcp {
                            Some(t) => t.connect_timeout_ms,
                            None => 10_000,
                        },
                        Protocol::Http => r matches ConnectionPlan::Http { backend, config } && backend == a
                            && config.connect_timeout_ms == 10_000 && config.wf() && match frontend.http {
                            Some(h) => header_texts(config.request_headers@) == last_per_name(
                                header_texts(h.request_headers@),
                            ) && header_texts(config.response_headers@) == last_per_name(
                                header_texts(h.response_headers@),
                            ),
                            None => config.request_headers@.len() == 0 && config.response_headers@.len() == 0,
                        },
                    },
                }
                &&& final(router).pools()[i].name == p.name
                &&& final(router).pools()[i].servers == p.servers
                &&& final(router).pools() == old(router).pools().update(i, final(router).pools()[i])
            },
        },
{
    let name = frontend.backend.as_str();
    assert(name@ == frontend.backend@);
    let picked = router.select(name, Some(client));
    match picked {
        None => {
            proof {
                let ghost i = pool_index(old(router).pools(), frontend.backend@);
                if old(router).pool_of(frontend.backend@) is Some {
                    assert(router.pools() =~= old(router).pools().update(i, router.pools()[i]));
                }
            }
            ConnectionPlan::Reject
        },
        Some(a) => {
            let ghost mid = router.pools();
            proof {
                let ghost i = pool_index(old(router).pools(), frontend.backend@);
                if old(router).pool_of(frontend.backend@) is Some {
                    assert(mid =~= old(router).pools().update(i, mid[i]));
                    lemma_pool_index_update(old(router).pools(), i, mid[i], frontend.backend@);
                }
            }
            router.on_connect(name, a);
            proof {
                let ghost i = pool_index(old(router).pools(), frontend.backend@);
                if old(router).pool_of(frontend.backend@) is Some {
                    assert forall|j: int| 0 <= j < old(router).pools().len() && j != i implies router.pools()[j]
                        == old(router).pools()[j] by {
                        assert(router.pools()[j] == mid[j]);
                        assert(mid[j] == old(router).pools()[j]);
                    }
                    assert(router.pools() =~= old(router).pools().update(i, router.pools()[i]));
                    let p = old(router).pools()[i];
                    assert(p.balancer.advanced_to(mid[i].balancer, p.servers@));
                    assert(mid[i].balancer.connected(router.pools()[i].balancer, a));
                }
            }
            match frontend.protocol {
                Protocol::Tcp => ConnectionPlan::Tcp { backend: a, connect_timeout_ms: tcp_connect_timeout(&frontend.tcp) },
                Protocol::Http => ConnectionPlan::Http { backend: a, config: HttpProxyConfig::from_frontend(&frontend.http) },
            }
        },
    }
}

/// Records with the pool's policy that a connection to `backend` on
/// listener `frontend` closed.
pub fn end_connection(router: &mut BackendRouter, frontend: &FrontendConfig, backend: SocketAddress)
    ensures
        final(router).pools().len() == old(router).pools().len(),
        match old(router).pool_of(frontend.backend@) {
            None => final(router).pools() == old(router).pools(),
            Some(p) => {
                let i = pool_index(old(router).pools(), frontend.backend@);
                &&& final(router).pools()[i].name == p.name
                &&& final(router).pools()[i].servers == p.servers
                &&& p.balancer.disconnected(final(router).pools()[i].balancer, backend)
                &&& final(router).pools() == old(router).pools().update(i, final(router).pools()[i])
            },
        },
{
    let name = frontend.backend.as_str();
    assert(name@ == frontend.backend@);
    router.on_disconnect(name, backend);
    proof {
        let ghost i = pool_index(old(router).pools(), frontend.backend@);
        if old(router).pool_of(frontend.backend@) is Some {
            assert(router.pools() =~= old(router).pools().update(i, router.pools()[i]));
        }
    }
}

} // verus!
