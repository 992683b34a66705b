//! `call`: issue one HTTP request.  Sending the request is application
//! I/O; the options it is sent with are plain data.

use vstd::prelude::*;

verus! {

use std::collections::HashMap;

/// Everything one `call` invocation can be configured with.
#[derive(Debug)]
pub struct CallOptions {
    pub method: String,
    pub url: String,
    pub headers: HashMap<String, String>,
    pub body: Option<String>,
    pub follow_redirects: bool,
    /// Request timeout in milliseconds; `None` waits without limit.
    pub timeout_ms: Option<u64>,
    pub verbose: bool,
    pub include_headers: bool,
    pub output_file: Option<String>,
    pub user_agent: Option<String>,
    pub auth: Option<(String, String)>,
    pub bearer_token: Option<String>,
    pub insecure: bool,
    pub max_retries: u32,
    pub form_data: HashMap<String, String>,
}

impl Default for CallOptions {
    /// A plain GET with no target yet: empty header and form tables, a
    /// 30-second timeout, the tool's user agent, and no authentication.
    fn default() -> (r: CallOptions)
        ensures
            r.method@ == "GET"@,
            r.url@ == Seq::<char>::empty(),
            r.headers@ == Map::<String, String>::empty(),
            r.body is None,
            !r.follow_redirects,
            r.timeout_ms == Some(30000u64),
            !r.verbose,
            !r.include_headers,
            r.output_file is None,
            r.user_agent matches Some(agent) && agent@ == "nuts"@,
            r.auth is None,
            r.bearer_token is None,
            !r.insecure,
            r.max_retries == 0,
            r.form_data@ == Map::<String, String>::empty(),
    {
        CallOptions {
            method: "GET".to_owned(),
            url: String::new(),
            headers: HashMap::new(),
            body: None,
            follow_redirects: false,
            timeout_ms: Some(30000),
            verbose: false,
            include_headers: false,
            output_file: None,
            user_agent: Some("nuts".to_owned()),
            auth: None,
            bearer_token: None,
            insecure: false,
            max_retries: 0,
            form_data: HashMap::new(),
        }
    }
}

} // verus!
