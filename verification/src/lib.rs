//! Load-generation and metrics engine for the `nuts` API-testing tool.
//!
//! The heart of the crate is the metrics pipeline: workers issue requests
//! against a target and feed one [`models::metrics::RequestMetric`] (or one
//! transport failure) per attempt into a [`models::metrics::Metrics`]
//! aggregator, and the statistics engine turns the accumulated samples into a
//! [`models::metrics::MetricsSummary`] (percentiles, error rate, latency
//! histogram, peak throughput).  [`engine`] holds the run configuration and
//! the worker/orchestrator decision logic; the surrounding application only
//! performs the HTTP calls, timekeeping and thread plumbing.

pub mod collections;
pub mod commands;
pub mod completer;
pub mod config;
pub mod engine;
pub mod flows;
pub mod models;
pub mod shell;
pub mod stats;
pub mod story;
pub mod text;
