//! Configuration as the core sees it: listeners (frontends), server pools
//! (backends), health-check settings and their defaults. Durations are
//! whole milliseconds.

use vstd::prelude::*;
use crate::addr::SocketAddress;

verus! {

/// Log output format.
#[derive(Clone, Copy, Debug, PartialEq, Eq, Structural)]
pub enum LogFormat {
    Json,
    Pretty,
}

/// Listener protocol.
#[derive(Clone, Copy, Debug, PartialEq, Eq, Structural)]
pub enum Protocol {
    Tcp,
    Http,
}

/// Server selection policy of a pool.
#[derive(Clone, Copy, Debug, PartialEq, Eq, Structural)]
pub enum Algorithm {
    RoundRobin,
    Weighted,
    LeastConnections,
    IpHash,
}

/// Kind of active health probe.
#[derive(Clone, Copy, Debug, PartialEq, Eq, Structural)]
pub enum HealthCheckType {
    Tcp,
    Http,
}

impl Default for LogFormat {
    fn default() -> (r: LogFormat)
        ensures
            r == LogFormat::Json,
    {
        LogFormat::Json
    }
}

impl Default for Protocol {
    fn default() -> (r: Protocol)
        ensures
            r == Protocol::Tcp,
    {
        Protocol::Tcp
    }
}

impl Default for Algorithm {
    fn default() -> (r: Algorithm)
        ensures
            r == Algorithm::RoundRobin,
    {
        Algorithm::RoundRobin
    }
}

impl Default for HealthCheckType {
    fn default() -> (r: HealthCheckType)
        ensures
            r == HealthCheckType::Tcp,
    {
        HealthCheckType::Tcp
    }
}

/// Metrics endpoint settings.
#[derive(Clone, Debug)]
pub struct MetricsConfig {
    pub enabled: bool,
    pub address: SocketAddress,
    pub path: String,
}

/// Process-wide settings.
#[derive(Clone, Debug)]
pub struct GlobalConfig {
    /// One of trace, debug, info, warn, error.
    pub log_level: String,
    pub log_format: LogFormat,
    pub metrics: MetricsConfig,
}

/// Health-check settings that apply unless a pool overrides them.
#[derive(Clone, Copy, Debug, PartialEq, Eq, Structural)]
pub struct HealthCheckDefaults {
    pub interval_ms: u64,
    pub timeout_ms: u64,
    pub unhealthy_threshold: u32,
    pub healthy_threshold: u32,
    pub cooldown_ms: u64,
}

/// HTTP listener settings: headers injected into requests and responses.
#[derive(Clone, Debug)]
pub struct HttpConfig {
    pub request_headers: Vec<(String, String)>,
    pub response_headers: Vec<(String, String)>,
}

/// TCP listener settings.
#[derive(Clone, Copy, Debug, PartialEq, Eq, Structural)]
pub struct TcpConfig {
    pub connect_timeout_ms: u64,
}

/// A listener.
#[derive(Clone, Debug)]
pub struct FrontendConfig {
    pub name: String,
    pub listen: SocketAddress,
    pub protocol: Protocol,
    /// Name of the pool it forwards to.
    pub backend: String,
    pub algorithm: Algorithm,
    pub http: Option<HttpConfig>,
    pub tcp: Option<TcpConfig>,
}

/// One upstream server of a pool.
#[derive(Clone, Copy, Debug, PartialEq, Eq, Structural)]
pub struct ServerConfig {
    pub address: SocketAddress,
    pub weight: u32,
}

/// Active health probe of a pool.
#[derive(Clone, Debug)]
pub struct HealthCheckConfig {
    pub check_type: HealthCheckType,
    /// Request path of an HTTP probe.
    pub path: Option<String>,
    /// Status an HTTP probe expects.
    pub expected_status: u16,
    pub interval_ms: Option<u64>,
    pub timeout_ms: Option<u64>,
}

/// A named pool of upstream servers.
#[derive(Clone, Debug)]
pub struct BackendConfig {
    pub name: String,
    pub servers: Vec<ServerConfig>,
    pub health_check: Option<HealthCheckConfig>,
}

/// The whole configuration.
#[derive(Clone, Debug)]
pub struct Config {
    pub global: GlobalConfig,
    pub health_check_defaults: HealthCheckDefaults,
    pub frontends: Vec<FrontendConfig>,
    pub backends: Vec<BackendConfig>,
}

/// Default log level.
pub fn default_log_level() -> (r: String)
    ensures
        r@ == "info"@,
{
    String::from_str("info")
}

/// Default log format.
pub fn default_log_format() -> (r: LogFormat)
    ensures
        r == LogFormat::Json,
{
    LogFormat::Json
}

/// Metrics are on unless turned off.
pub fn default_true() -> (r: bool)
    ensures
        r,
{
    true
}

/// Default metrics address, 127.0.0.1:9090.
pub fn default_metrics_address() -> (r: SocketAddress)
    ensures
        r == SocketAddress::v4_spec(127, 0, 0, 1, 9090),
{
    SocketAddress::v4(127, 0, 0, 1, 9090)
}

/// Default metrics path.
pub fn default_metrics_path() -> (r: String)
    ensures
        r@ == "/metrics"@,
{
    String::from_str("/metrics")
}

/// Default probe interval: ten seconds.
pub fn default_health_interval() -> (r: u64)
    ensures
        r == 10_000,
{
    10_000
}

/// Default probe timeout: five seconds.
pub fn default_health_timeout() -> (r: u64)
    ensures
        r == 5_000,
{
    5_000
}

/// Default failures before a server turns unhealthy.
pub fn default_unhealthy_threshold() -> (r: u32)
    ensures
        r == 3,
{
    3
}

/// Default successes before a server turns healthy again.
pub fn default_healthy_threshold() -> (r: u32)
    ensures
        r == 2,
{
    2
}

/// Default cooldown: thirty seconds.
pub fn default_cooldown() -> (r: u64)
    ensures
        r == 30_000,
{
    30_000
}

/// Default backend connect timeout: ten seconds.
pub fn default_connect_timeout() -> (r: u64)
    ensures
        r == 10_000,
{
    10_000
}

/// Default server weight.
pub fn default_weight() -> (r: u32)
    ensures
        r == 1,
{
    1
}

/// Default status an HTTP probe expects.
pub fn default_expected_status() -> (r: u16)
    ensures
        r == 200,
{
    200
}

impl Default for MetricsConfig {
    fn default() -> (r: MetricsConfig)
        ensures
            r.enabled,
            r.address == SocketAddress::v4_spec(127, 0, 0, 1, 9090),
            r.path@ == "/metrics"@,
    {
        MetricsConfig { enabled: true, address: default_metrics_address(), path: default_metrics_path() }
    }
}

impl Default for GlobalConfig {
    fn default() -> (r: GlobalConfig)
        ensures
            r.log_level@ == "info"@,
            r.log_format == LogFormat::Json,
            r.metrics.enabled,
            r.metrics.address == SocketAddress::v4_spec(127, 0, 0, 1, 9090),
            r.metrics.path@ == "/metrics"@,
    {
        GlobalConfig {
            log_level: default_log_level(),
            log_format: LogFormat::Json,
            metrics: MetricsConfig::default(),
        }
    }
}

impl Default for HealthCheckDefaults {
    fn default() -> (r: HealthCheckDefaults)
        ensures
            r == (HealthCheckDefaults {
                interval_ms: 10_000,
                timeout_ms: 5_000,
                unhealthy_threshold: 3,
                healthy_threshold: 2,
                cooldown_ms: 30_000,
            }),
    {
        HealthCheckDefaults {
            interval_ms: default_health_interval(),
            timeout_ms: default_health_timeout(),
            unhealthy_threshold: default_unhealthy_threshold(),
            healthy_threshold: default_healthy_threshold(),
            cooldown_ms: default_cooldown(),
        }
    }
}

impl Default for HttpConfig {
    fn default() -> (r: HttpConfig)
        ensures
            r.request_headers@.len() == 0,
            r.response_headers@.len() == 0,
    {
        HttpConfig { request_headers: Vec::new(), response_headers: Vec::new() }
    }
}

impl Default for TcpConfig {
    fn default() -> (r: TcpConfig)
        ensures
            r.connect_timeout_ms == 10_000,
    {
        TcpConfig { connect_timeout_ms: default_connect_timeout() }
    }
}

impl Default for HealthCheckConfig {
    fn default() -> (r: HealthCheckConfig)
        ensures
            r.check_type == HealthCheckType::Tcp,
            r.path is None,
            r.expected_status == 200,
            r.interval_ms is None,
            r.timeout_ms is None,
    {
        HealthCheckConfig {
            check_type: HealthCheckType::Tcp,
            path: None,
            expected_status: default_expected_status(),
            interval_ms: None,
            timeout_ms: None,
        }
    }
}

} // verus!
