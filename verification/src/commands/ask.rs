//! `ask`: turn a natural-language request into an API action.  The
//! assistant round-trip is application I/O; the command itself only
//! carries the configuration it runs with.

use vstd::prelude::*;

verus! {

use crate::config::Config;

pub struct AskCommand {
    pub config: Config,
}

impl AskCommand {
    pub fn new(config: Config) -> (r: AskCommand)
        ensures
            r.config == config,
    {
        AskCommand { config }
    }
}

} // verus!
