//! `predict`: estimate how an API will behave under coming load from a
//! quick probe of its current behaviour.  The probing is application
//! I/O; the forecast is plain data.

use vstd::prelude::*;

verus! {

use crate::config::Config;

pub struct PredictCommand {
    pub config: Config,
}

/// The load forecast part of a prediction.
#[derive(Debug)]
pub struct PerformanceForecast {
    /// Expected response time under load, in milliseconds.
    pub expected_response_time_ms: u64,
    /// Concurrent users the API is expected to sustain.
    pub capacity_limit: u32,
    pub bottlenecks: Vec<String>,
}

impl PredictCommand {
    pub fn new(config: Config) -> (r: PredictCommand)
        ensures
            r.config == config,
    {
        PredictCommand { config }
    }
}

} // verus!
