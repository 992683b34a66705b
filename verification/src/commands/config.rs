//! `config`: show or change the stored configuration.  The dialogue and
//! the file writes are application I/O.

use vstd::prelude::*;

verus! {

use crate::config::Config;

pub struct ConfigCommand {
    pub config: Config,
}

impl ConfigCommand {
    pub fn new(config: Config) -> (r: ConfigCommand)
        ensures
            r.config == config,
    {
        ConfigCommand { config }
    }
}

} // verus!
