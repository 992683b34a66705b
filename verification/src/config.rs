//! Persistent user configuration: the API keys the AI-assisted commands
//! use.  Loading and saving the configuration file is the application's
//! business; merging two configurations is pure and lives here.

use vstd::prelude::*;

verus! {

#[derive(Debug, Clone)]
pub struct Config {
    pub api_key: Option<String>,
    pub anthropic_api_key: Option<String>,
}

impl Default for Config {
    /// An empty configuration with no keys set.
    fn default() -> (c: Config)
        ensures
            c.api_key is None,
            c.anthropic_api_key is None,
    {
        Config { api_key: None, anthropic_api_key: None }
    }
}

impl Config {
    /// Fills each unset key from `other`; a key already set keeps its
    /// value.
    pub fn merge(self, other: Config) -> (r: Config)
        ensures
            r.anthropic_api_key == if self.anthropic_api_key is Some {
                self.anthropic_api_key
            } else {
                other.anthropic_api_key
            },
            r.api_key == if self.api_key is Some {
                self.api_key
            } else {
                other.api_key
            },
    {
        let anthropic_api_key = match self.anthropic_api_key {
            Some(key) => Some(key),
            None => other.anthropic_api_key,
        };
        let api_key = match self.api_key {
            Some(key) => Some(key),
            None => other.api_key,
        };
        Config { api_key, anthropic_api_key }
    }
}

} // verus!
