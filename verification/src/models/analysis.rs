//! Records produced when a response is analysed for caching behaviour and
//! API conventions.  Plain data; the analysis itself is driven by the
//! surrounding application.

use vstd::prelude::*;

verus! {

#[derive(Debug)]
pub struct ApiAnalysis {
    pub auth_type: Option<String>,
    pub rate_limit: Option<u32>,
    pub cache_status: CacheAnalysis,
    pub recommendations: Vec<String>,
}

#[derive(Debug)]
pub struct CacheAnalysis {
    pub cacheable: bool,
    pub suggested_ttl: Option<u32>,
    pub reason: String,
}

} // verus!
