//! `monitor`: repeated health checks against one endpoint.  The checks
//! themselves are application I/O; their results are plain data.

use vstd::prelude::*;

verus! {

use crate::config::Config;

pub struct MonitorCommand {
    pub config: Config,
}

/// The outcome of one health check.
#[derive(Debug)]
pub struct MonitorResult {
    pub url: String,
    pub status: String,
    /// How long the check took, in milliseconds.
    pub response_time_ms: u64,
    pub issues: Vec<String>,
    pub recommendations: Vec<String>,
}

impl MonitorCommand {
    pub fn new(config: Config) -> (r: MonitorCommand)
        ensures
            r.config == config,
    {
        MonitorCommand { config }
    }
}

} // verus!
