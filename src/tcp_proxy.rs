//! Outcomes of a TCP proxy session: what a connect attempt and the two
//! copy directions come to.

use vstd::prelude::*;
use crate::addr::{addr_text, SocketAddress};
use crate::config::TcpConfig;

verus! {

/// Bytes moved by a finished session.
#[derive(Clone, Copy, Debug, PartialEq, Eq, Structural)]
pub struct ProxyResult {
    /// Bytes sent from the client to the server.
    pub bytes_to_backend: u64,
    /// Bytes sent from the server to the client.
    pub bytes_to_client: u64,
}

/// Why a session failed.
#[derive(Clone, Debug)]
pub enum TcpProxyError {
    /// The connect to the server failed, with the system's reason.
    BackendConnectError(SocketAddress, String),
    /// The connect to the server did not finish in time.
    BackendTimeout(SocketAddress),
    /// Copying failed, with the system's reason.
    ProxyError(String),
}

/// How a connect attempt ended.
#[derive(Clone, Debug)]
pub enum ConnectOutcome {
    Connected,
    Failed(String),
    TimedOut,
}

/// The error text of a session failure.
pub open spec fn error_text(e: TcpProxyError) -> Seq<char> {
    match e {
        TcpProxyError::BackendConnectError(a, why) => "failed to connect to backend "@ + addr_text(a) + ": "@
            + why@,
        TcpProxyError::BackendTimeout(a) => "connection timeout to backend "@ + addr_text(a),
        TcpProxyError::ProxyError(why) => "proxy error: "@ + why@,
    }
}

impl TcpProxyError {
    /// The error text.
    pub fn message(&self) -> (r: String)
        ensures
            r@ == error_text(*self),
    {
        match self {
            TcpProxyError::BackendConnectError(a, why) => {
                let mut m = String::from_str("failed to connect to backend ");
                a.push_text(&mut m);
                m.append(": ");
                m.append(why.as_str());
                m
            },
            TcpProxyError::BackendTimeout(a) => {
                let mut m = String::from_str("connection timeout to backend ");
                a.push_text(&mut m);
                m
            },
            TcpProxyError::ProxyError(why) => {
                let mut m = String::from_str("proxy error: ");
                m.append(why.as_str());
                m
            },
        }
    }
}

/// The result of connecting to `backend`: a timeout and a failure are
/// reported as such, naming the server.
pub fn connect_result(backend: SocketAddress, outcome: ConnectOutcome) -> (r: Result<(), TcpProxyError>)
    ensures
        match outcome {
            ConnectOutcome::Connected => r is Ok,
            ConnectOutcome::Failed(why) => r matches Err(TcpProxyError::BackendConnectError(a, w)) && a
                == backend && w@ == why@,
            ConnectOutcome::TimedOut => r matches Err(TcpProxyError::BackendTimeout(a)) && a == backend,
        },
{
    match outcome {
        ConnectOutcome::Connected => Ok(()),
        ConnectOutcome::Failed(why) => Err(TcpProxyError::BackendConnectError(backend, why)),
        ConnectOutcome::TimedOut => Err(TcpProxyError::BackendTimeout(backend)),
    }
}

/// The result of a session from its two copies: the byte counts when both
/// finished, else a copy error (the client-to-server one first).
pub fn session_outcome(to_backend: Result<u64, String>, to_client: Result<u64, String>) -> (r: Result<
    ProxyResult,
    TcpProxyError,
>)
    ensures
        match (to_backend, to_client) {
            (Ok(a), Ok(b)) => r == Ok::<ProxyResult, TcpProxyError>(
                ProxyResult { bytes_to_backend: a, bytes_to_client: b },
            ),
            (Err(e), _) => r matches Err(TcpProxyError::ProxyError(m)) && m@ == e@,
            (Ok(_), Err(e)) => r matches Err(TcpProxyError::ProxyError(m)) && m@ == e@,
        },
{
    match to_backend {
        Err(e) => Err(TcpProxyError::ProxyError(e)),
        Ok(a) => match to_client {
            Err(e) => Err(TcpProxyError::ProxyError(e)),
            Ok(b) => Ok(ProxyResult { bytes_to_backend: a, bytes_to_client: b }),
        },
    }
}

/// The connect timeout of a TCP listener: its own, or ten seconds.
pub fn tcp_connect_timeout(tcp: &Option<TcpConfig>) -> (r: u64)
    ensures
        r == match tcp {
            Some(t) => t.connect_timeout_ms,
            None => 10_000,
        },
{
    match tcp {
        Some(t) => t.connect_timeout_ms,
        None => 10_000,
    }
}

} // verus!
