//! `fix`: probe an endpoint, diagnose what is wrong and suggest fixes.
//! The probing and the assistant round-trip are application I/O.

use vstd::prelude::*;

verus! {

use crate::config::Config;

pub struct FixCommand {
    pub config: Config,
}

impl FixCommand {
    pub fn new(config: Config) -> (r: FixCommand)
        ensures
            r.config == config,
    {
        FixCommand { config }
    }
}

} // verus!
