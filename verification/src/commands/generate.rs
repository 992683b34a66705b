//! `generate`: produce realistic test data for an endpoint.  The data is
//! drawn from the assistant, which is application I/O.

use vstd::prelude::*;

verus! {

use crate::config::Config;

pub struct GenerateCommand {
    pub config: Config,
}

impl GenerateCommand {
    pub fn new(config: Config) -> (r: GenerateCommand)
        ensures
            r.config == config,
    {
        GenerateCommand { config }
    }
}

} // verus!
