//! `test`: run a test plan written in prose.  Turning the prose into a
//! plan and executing its requests is application I/O.

use vstd::prelude::*;

verus! {

use crate::config::Config;

pub struct TestCommand {
    pub config: Config,
}

impl TestCommand {
    pub fn new(config: Config) -> (r: TestCommand)
        ensures
            r.config == config,
    {
        TestCommand { config }
    }
}

} // verus!
