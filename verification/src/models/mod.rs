//! Data models: the request-analysis records and the metrics aggregator.

pub mod analysis;
pub mod metrics;
