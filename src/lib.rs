//! A layer-4 / layer-7 load balancer core: server selection, health
//! tracking, configuration checks and the request rewriting rules of the
//! HTTP proxy, each stated together with its proof.

pub mod text;
pub mod addr;
pub mod algorithms;
pub mod tables;
pub mod distribution;
pub mod health;
pub mod config;
pub mod router;
pub mod validation;
pub mod probes;
pub mod request_id;
pub mod metrics;
pub mod http_proxy;
pub mod tcp_proxy;
pub mod listener;
pub mod reload;
