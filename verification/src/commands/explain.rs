//! `explain`: have the assistant put a response, an error or a status
//! code into words.  The assistant round-trip is application I/O.

use vstd::prelude::*;

verus! {

use crate::config::Config;

pub struct ExplainCommand {
    pub config: Config,
}

impl ExplainCommand {
    pub fn new(config: Config) -> (r: ExplainCommand)
        ensures
            r.config == config,
    {
        ExplainCommand { config }
    }
}

} // verus!
