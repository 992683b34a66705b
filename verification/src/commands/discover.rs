//! `discover`: map an API by probing well-known paths and reading its
//! documentation.  The probing is application I/O; the map it produces is
//! plain data.

use vstd::prelude::*;

verus! {

use crate::config::Config;

pub struct DiscoverCommand {
    pub config: Config,
}

/// One endpoint found while mapping an API.
#[derive(Debug, Clone)]
pub struct ApiEndpoint {
    pub path: String,
    pub method: String,
    pub description: Option<String>,
    pub parameters: Vec<String>,
    pub response_type: Option<String>,
}

/// Everything discovery learned about one API.
#[derive(Debug)]
pub struct ApiMap {
    pub base_url: String,
    pub endpoints: Vec<ApiEndpoint>,
    pub authentication: Option<String>,
    pub rate_limits: Option<String>,
    pub documentation: Option<String>,
}

impl DiscoverCommand {
    pub fn new(config: Config) -> (r: DiscoverCommand)
        ensures
            r.config == config,
    {
        DiscoverCommand { config }
    }
}

} // verus!
