//! Story mode: an assistant-guided walk through one recorded API flow.
//! The guided dialogue itself is terminal and network I/O and lives in
//! the application; this is the state it starts from.

use vstd::prelude::*;

verus! {

pub struct StoryMode {
    pub flow: String,
    pub api_key: String,
}

impl StoryMode {
    pub fn new(flow: String, api_key: String) -> (r: StoryMode)
        ensures
            r.flow == flow,
            r.api_key == api_key,
    {
        StoryMode { flow, api_key }
    }
}

} // verus!
