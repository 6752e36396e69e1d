//! Label sets of the exported metrics, built from the values the proxy
//! observes.

use vstd::prelude::*;
use crate::addr::{addr_text, SocketAddress};
use crate::text::{decimal, decimal_string};

verus! {

/// Labels of the request counter.
#[derive(Clone, Debug)]
pub struct RequestLabels {
    pub frontend: String,
    pub backend: String,
    pub method: String,
    pub status: String,
}

/// Labels of per-listener connection metrics.
#[derive(Clone, Debug)]
pub struct ConnectionLabels {
    pub frontend: String,
    pub backend: String,
}

/// Labels of the per-server health gauge.
#[derive(Clone, Debug)]
pub struct BackendLabels {
    pub backend: String,
    pub server: String,
}

/// Direction of transferred bytes: inbound is client to server, outbound
/// server to client.
#[derive(Clone, Copy, Debug, PartialEq, Eq, Structural)]
pub enum Direction {
    Inbound,
    Outbound,
}

/// Labels of the byte counter.
#[derive(Clone, Debug)]
pub struct BytesLabels {
    pub frontend: String,
    pub backend: String,
    pub direction: Direction,
}

/// Outcome of a health probe.
#[derive(Clone, Copy, Debug, PartialEq, Eq, Structural)]
pub enum HealthCheckResult {
    Success,
    Failure,
}

/// Labels of the probe counter.
#[derive(Clone, Debug)]
pub struct HealthCheckLabels {
    pub backend: String,
    pub server: String,
    pub result: HealthCheckResult,
}

impl RequestLabels {
    /// The labels of one request; the status as decimal text.
    pub fn new(frontend: &str, backend: &str, method: &str, status: u16) -> (r: RequestLabels)
        ensures
            r.frontend@ == frontend@,
            r.backend@ == backend@,
            r.method@ == method@,
            r.status@ == decimal(status as nat),
    {
        RequestLabels {
            frontend: String::from_str(frontend),
            backend: String::from_str(backend),
            method: String::from_str(method),
            status: decimal_string(status as u64),
        }
    }
}

impl ConnectionLabels {
    /// The labels of a listener and its pool.
    pub fn new(frontend: &str, backend: &str) -> (r: ConnectionLabels)
        ensures
            r.frontend@ == frontend@,
            r.backend@ == backend@,
    {
        ConnectionLabels { frontend: String::from_str(frontend), backend: String::from_str(backend) }
    }
}

impl BackendLabels {
    /// The labels of a server of a pool; the server as `ip:port`.
    pub fn new(backend: &str, server: SocketAddress) -> (r: BackendLabels)
        ensures
            r.backend@ == backend@,
            r.server@ == addr_text(server),
    {
        BackendLabels { backend: String::from_str(backend), server: server.to_text() }
    }
}

impl BytesLabels {
    /// The labels of one direction of a session.
    pub fn new(frontend: &str, backend: &str, direction: Direction) -> (r: BytesLabels)
        ensures
            r.frontend@ == frontend@,
            r.backend@ == backend@,
            r.direction == direction,
    {
        BytesLabels { frontend: String::from_str(frontend), backend: String::from_str(backend), direction }
    }
}

impl HealthCheckResult {
    /// The outcome of a probe that passed or not.
    pub fn from_success(success: bool) -> (r: HealthCheckResult)
        ensures
            r == if success {
                HealthCheckResult::Success
            } else {
                HealthCheckResult::Failure
            },
    {
        if success {
            HealthCheckResult::Success
        } else {
            HealthCheckResult::Failure
        }
    }
}

impl HealthCheckLabels {
    /// The labels of one probe of a server of a pool.
    pub fn new(backend: &str, server: SocketAddress, success: bool) -> (r: HealthCheckLabels)
        ensures
            r.backend@ == backend@,
            r.server@ == addr_text(server),
            r.result == (if success {
                HealthCheckResult::Success
            } else {
                HealthCheckResult::Failure
            }),
    {
        HealthCheckLabels {
            backend: String::from_str(backend),
            server: server.to_text(),
            result: HealthCheckResult::from_success(success),
        }
    }
}

/// The health gauge value of a server: one when healthy, zero otherwise.
pub fn health_gauge(healthy: bool) -> (r: i64)
    ensures
        r == if healthy {
            1i64
        } else {
            0i64
        },
{
    if healthy {
        1
    } else {
        0
    }
}

/// What the metrics endpoint answers.
#[derive(Clone, Copy, Debug, PartialEq, Eq, Structural)]
pub enum MetricsRoute {
    /// The metrics in text format.
    Metrics,
    /// `OK`, for liveness probes.
    Health,
    /// A short description of the endpoints.
    Index,
    NotFound,
    MethodNotAllowed,
}

/// The answer to a request for `path`: only `GET` is served; the metrics
/// path, then `/health` and `/healthz`, then `/`; anything else is not found.
pub open spec fn route_of(is_get: bool, path: Seq<char>, metrics_path: Seq<char>) -> MetricsRoute {
    if !is_get {
        MetricsRoute::MethodNotAllowed
    } else if path == metrics_path {
        MetricsRoute::Metrics
    } else if path == "/health"@ || path == "/healthz"@ {
        MetricsRoute::Health
    } else if path == "/"@ {
        MetricsRoute::Index
    } else {
        MetricsRoute::NotFound
    }
}

/// Chooses the answer of the metrics endpoint.
pub fn metrics_route(is_get: bool, path: &str, metrics_path: &str) -> (r: MetricsRoute)
    ensures
        r == route_of(is_get, path@, metrics_path@),
{
    let p = String::from_str(path);
    if !is_get {
        MetricsRoute::MethodNotAllowed
    } else if p == String::from_str(metrics_path) {
        MetricsRoute::Metrics
    } else if p == String::from_str("/health") || p == String::from_str("/healthz") {
        MetricsRoute::Health
    } else if p == String::from_str("/") {
        MetricsRoute::Index
    } else {
        MetricsRoute::NotFound
    }
}

/// The body of the endpoint's index page.
pub fn index_body(metrics_path: &str) -> (r: String)
    ensures
        r@ == "rustlb metrics server\n\nEndpoints:\n  "@ + metrics_path@ + " - Prometheus metrics\n  /health - Health check\n"@,
{
    let mut s = String::from_str("rustlb metrics server\n\nEndpoints:\n  ");
    s.append(metrics_path);
    s.append(" - Prometheus metrics\n  /health - Health check\n");
    s
}

} // verus!
