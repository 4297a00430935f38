//! Verified core of a Prometheus exporter for the Jellyfin media server.
//!
//! The library holds the exporter's decisions: the circuit breaker that cuts
//! off sustained API failures, the retry schedule with jittered exponential
//! backoff, configuration parsing and validation, metric label sanitization,
//! bearer-token authorization, and the conversion of Jellyfin API replies
//! into metric updates. I/O, the async runtime and the Prometheus registry
//! live in the accompanying application crate.

pub mod circuit_breaker;
pub mod retry;
pub mod labels;
pub mod text;
pub mod config;
pub mod client;
pub mod collector;
pub mod auth;
pub mod registry;
