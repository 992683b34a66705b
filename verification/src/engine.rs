//! The load-generation engine: run configuration, the worker state
//! machine, round-robin body selection, and the session object that one
//! run's workers and live-reporting loop share.
//!
//! The engine makes every decision of a run — whether a worker keeps
//! going, which request body the next attempt uses, what the snapshot and
//! the final report contain — but performs no I/O itself.  The surrounding
//! application issues the HTTP requests, measures wall-clock time, sleeps
//! between live reports, and hands every outcome back in as plain values.

use vstd::prelude::*;

verus! {

use vstd::arithmetic::div_mod::lemma_fundamental_div_mod;
use vstd::arithmetic::div_mod::lemma_fundamental_div_mod_converse;
use vstd::arithmetic::div_mod::lemma_mod_bound;
use crate::models::metrics::Metrics;
use crate::models::metrics::MetricsSummary;
use crate::models::metrics::RequestMetric;
use crate::models::metrics::Sample;
use crate::text::contains_seq;
use crate::text::is_prefix_of;
use crate::text::str_contains;
use crate::text::str_eq;
use crate::text::str_starts_with;

/// The closed set of HTTP verbs a run can be configured with.  Keeping the
/// verb an enumeration (rather than free-form text) makes the request
/// construction branch exhaustive.
#[derive(Debug, Clone, Copy, PartialEq, Eq, Structural)]
pub enum HttpMethod {
    Get,
    Post,
    Put,
    Patch,
    Delete,
}

impl HttpMethod {
    /// The verb's wire name.
    pub open spec fn spec_name(self) -> Seq<char> {
        match self {
            HttpMethod::Get => "GET"@,
            HttpMethod::Post => "POST"@,
            HttpMethod::Put => "PUT"@,
            HttpMethod::Patch => "PATCH"@,
            HttpMethod::Delete => "DELETE"@,
        }
    }

    /// The verb as it appears on the wire.
    pub fn as_str(&self) -> (r: &'static str)
        ensures
            r@ == self.spec_name(),
    {
        match self {
            HttpMethod::Get => "GET",
            HttpMethod::Post => "POST",
            HttpMethod::Put => "PUT",
            HttpMethod::Patch => "PATCH",
            HttpMethod::Delete => "DELETE",
        }
    }

    /// Reads a verb from its (upper-case) wire name; `None` on anything
    /// else.  An unparseable method is a configuration error: the caller
    /// rejects the run before any worker is spawned.
    pub fn parse(word: &str) -> (r: Option<HttpMethod>)
        ensures
            match r {
                Some(method) => word@ == method.spec_name(),
                None => {
                    &&& word@ != "GET"@
                    &&& word@ != "POST"@
                    &&& word@ != "PUT"@
                    &&& word@ != "PATCH"@
                    &&& word@ != "DELETE"@
                },
            },
    {
        if str_eq(word, "GET") {
            Some(HttpMethod::Get)
        } else if str_eq(word, "POST") {
            Some(HttpMethod::Post)
        } else if str_eq(word, "PUT") {
            Some(HttpMethod::Put)
        } else if str_eq(word, "PATCH") {
            Some(HttpMethod::Patch)
        } else if str_eq(word, "DELETE") {
            Some(HttpMethod::Delete)
        } else {
            None
        }
    }
}

/// What each request attempt sends as its body: nothing, one fixed body,
/// or a non-empty list of variations that the workers rotate through.
#[derive(Debug, Clone)]
pub enum BodySpec {
    NoBody,
    Fixed(String),
    Variations(Vec<String>),
}

/// The immutable configuration of one run.
#[derive(Debug, Clone)]
pub struct RunConfig {
    pub target_url: String,
    pub method: HttpMethod,
    /// How many workers issue requests concurrently.
    pub concurrency: usize,
    /// The wall-clock budget of the run, in milliseconds.
    pub duration_ms: u64,
    pub body: BodySpec,
}

impl RunConfig {
    /// A configuration is usable when a variation rotation, if requested,
    /// actually has variations to rotate through.
    pub open spec fn is_valid(&self) -> bool {
        self.body matches BodySpec::Variations(v) ==> v@.len() > 0
    }
}

/// The one configuration error the engine rejects a run for, surfaced
/// synchronously before any worker is spawned.
#[derive(Debug, Clone, Copy, PartialEq, Eq, Structural)]
pub enum ConfigError {
    /// Body variations were requested but the list is empty.
    EmptyVariations,
}

impl ConfigError {
    pub fn message(&self) -> (r: &'static str)
        ensures
            *self is EmptyVariations ==> r@ == "body variations requested but none were given"@,
    {
        match self {
            ConfigError::EmptyVariations => "body variations requested but none were given",
        }
    }
}

/// Raised when a named endpoint matches no path of the loaded collection.
#[derive(Debug, Clone, Copy, PartialEq, Eq, Structural)]
pub enum TargetError {
    EndpointNotFound,
}

impl TargetError {
    pub fn message(&self) -> (r: &'static str)
        ensures
            *self is EndpointNotFound ==> r@ == "Endpoint not found in collection"@,
    {
        match self {
            TargetError::EndpointNotFound => "Endpoint not found in collection",
        }
    }
}

/// The URL a collection run aims at: the endpoint itself when it is
/// already absolute, otherwise the collection's first server — or the
/// local default — with the endpoint appended.
pub open spec fn spec_target_url(server_urls: Seq<Seq<char>>, endpoint: Seq<char>) -> Seq<char> {
    if is_prefix_of("http://"@, endpoint) || is_prefix_of("https://"@, endpoint) {
        endpoint
    } else if server_urls.len() > 0 {
        server_urls[0] + endpoint
    } else {
        "http://localhost:8000"@ + endpoint
    }
}

/// Resolves the target of a collection performance run: succeeds exactly
/// when some path of the collection contains the endpoint text, and then
/// yields the URL of `spec_target_url`.  The collection file itself is
/// loaded by the caller; only its paths and server URLs come in here.
pub fn resolve_perf_target(paths: &Vec<String>, server_urls: &Vec<String>, endpoint: &str) -> (r:
    Result<String, TargetError>)
    ensures
        (exists|i: int|
            0 <= i < paths@.len() && contains_seq((#[trigger] paths@[i])@, endpoint@)) <==> r is Ok,
        !(exists|i: int|
            0 <= i < paths@.len() && contains_seq((#[trigger] paths@[i])@, endpoint@)) ==> r
            == Result::<String, TargetError>::Err(TargetError::EndpointNotFound),
        r matches Ok(url) ==> url@ == spec_target_url(
            server_urls@.map_values(|u: String| u@),
            endpoint@,
        ),
{
    let mut found = false;
    let mut i: usize = 0;
    while i < paths.len()
        invariant
            i <= paths@.len(),
            found ==> exists|w: int|
                0 <= w < paths@.len() && contains_seq((#[trigger] paths@[w])@, endpoint@),
            !found ==> forall|w: int|
                0 <= w < i ==> !contains_seq((#[trigger] paths@[w])@, endpoint@),
        decreases paths@.len() - i,
    {
        if !found && str_contains(paths[i].as_str(), endpoint) {
            found = true;
        }
        i = i + 1;
    }
    if !found {
        return Err(TargetError::EndpointNotFound);
    }
    if str_starts_with(endpoint, "http://") || str_starts_with(endpoint, "https://") {
        Ok(endpoint.to_owned())
    } else if server_urls.len() > 0 {
        proof {
            assert(server_urls@.map_values(|u: String| u@)[0] == server_urls@[0]@);
        }
        Ok(server_urls[0].clone().concat(endpoint))
    } else {
        Ok("http://localhost:8000".to_owned().concat(endpoint))
    }
}

/// A worker's two states.  `Stopped` is absorbing: once a worker has
/// observed the deadline or a cleared keep-going signal, it never issues
/// another request in this run.
#[derive(Debug, Clone, Copy, PartialEq, Eq, Structural)]
pub enum WorkerState {
    Running,
    Stopped,
}

/// The decision a worker takes at the top of its loop: keep running only
/// if it was still running, the deadline has not passed, and the shared
/// keep-going signal is still set.
pub fn worker_step(state: WorkerState, now_ms: u64, deadline_ms: u64, keep_going: bool) -> (r:
    WorkerState)
    ensures
        r == (if state is Running && keep_going && now_ms < deadline_ms {
            WorkerState::Running
        } else {
            WorkerState::Stopped
        }),
{
    match state {
        WorkerState::Running => {
            if keep_going && now_ms < deadline_ms {
                WorkerState::Running
            } else {
                WorkerState::Stopped
            }
        },
        WorkerState::Stopped => WorkerState::Stopped,
    }
}

/// How often the counter values `0 .. m` select variation `i` out of `k`:
/// the number of `j < m` with `j % k == i`.
pub open spec fn times_selected(m: nat, k: nat, i: nat) -> nat
    decreases m,
{
    if m == 0 {
        0
    } else {
        times_selected((m - 1) as nat, k, i) + if (m - 1) as nat % k == i {
            1nat
        } else {
            0nat
        }
    }
}

/// Round-robin selection is fair: with `k` variations and `m` requests
/// drawn from one shared monotone counter, variation `i` is selected
/// exactly `m / k`, plus one more when `i < m % k` — that is, either
/// `⌊m/k⌋` or `⌈m/k⌉` times, so no variation starves or is skipped.
pub proof fn lemma_round_robin_fair(m: nat, k: nat, i: nat)
    requires
        k > 0,
        i < k,
    ensures
        times_selected(m, k, i) == m / k + if i < m % k {
            1nat
        } else {
            0nat
        },
        m / k <= times_selected(m, k, i) <= m / k + 1,
    decreases m,
{
    if m > 0 {
        let p = (m - 1) as nat;
        lemma_round_robin_fair(p, k, i);
        let pi = p as int;
        let ki = k as int;
        let q = pi / ki;
        let r = pi % ki;
        lemma_mod_bound(pi, ki);
        lemma_fundamental_div_mod(pi, ki);
        if r == ki - 1 {
            // m is a multiple of k: the quotient steps up, the remainder
            // resets to 0.
            assert(m as int == ki * (q + 1) + 0) by (nonlinear_arith)
                requires
                    pi == ki * q + r,
                    r == ki - 1,
                    m == pi + 1,
            ;
            lemma_fundamental_div_mod_converse(m as int, ki, q + 1, 0);
        } else {
            assert(m as int == ki * q + (r + 1));
            lemma_fundamental_div_mod_converse(m as int, ki, q, r + 1);
        }
    }
}

/// The shared state of one run: the configuration, the absolute deadline,
/// the cooperative keep-going signal, the rotation counter, and the
/// metrics aggregator.  Workers and the live-reporting loop drive it
/// through the methods below; the caller provides the clock readings.
pub struct LoadSession {
    config: RunConfig,
    deadline_ms: u64,
    keep_going: bool,
    rotation: u64,
    metrics: Metrics,
}

impl View for LoadSession {
    type V = Seq<Sample>;

    closed spec fn view(&self) -> Seq<Sample> {
        self.metrics@
    }
}

impl LoadSession {
    pub closed spec fn inv(&self) -> bool {
        &&& self.metrics.inv()
        &&& self.config.is_valid()
    }

    pub closed spec fn deadline(&self) -> u64 {
        self.deadline_ms
    }

    pub closed spec fn keep_going(&self) -> bool {
        self.keep_going
    }

    pub closed spec fn rotation_count(&self) -> u64 {
        self.rotation
    }

    pub closed spec fn spec_config(&self) -> RunConfig {
        self.config
    }

    /// Validates the configuration and opens a session: nothing recorded,
    /// the keep-going signal set, the rotation counter at zero, and the
    /// deadline `duration_ms` past the caller's clock reading `now_ms`.
    ///
    /// Fails — before any worker could be spawned — exactly when the
    /// configuration asks for body variations but provides none.
    pub fn start(config: RunConfig, now_ms: u64) -> (r: Result<LoadSession, ConfigError>)
        requires
            now_ms + config.duration_ms <= u64::MAX,
        ensures
            config.is_valid() <==> r is Ok,
            !config.is_valid() ==> r == Result::<LoadSession, ConfigError>::Err(
                ConfigError::EmptyVariations,
            ),
            r matches Ok(session) ==> {
                &&& session.inv()
                &&& session@ == Seq::<Sample>::empty()
                &&& session.deadline() == now_ms + config.duration_ms
                &&& session.keep_going()
                &&& session.rotation_count() == 0
                &&& session.spec_config() == config
            },
    {
        let valid = match &config.body {
            BodySpec::Variations(v) => v.len() > 0,
            _ => true,
        };
        if !valid {
            return Err(ConfigError::EmptyVariations);
        }
        let deadline_ms = now_ms + config.duration_ms;
        Ok(
            LoadSession {
                config,
                deadline_ms,
                keep_going: true,
                rotation: 0,
                metrics: Metrics::new(),
            },
        )
    }

    /// The worker-loop guard: a worker starts another request only while
    /// the deadline has not passed and the keep-going signal is still set.
    pub fn should_continue(&self, now_ms: u64) -> (r: bool)
        ensures
            r == (self.keep_going() && now_ms < self.deadline()),
    {
        self.keep_going && now_ms < self.deadline_ms
    }

    /// Clears the keep-going signal.  Cancellation is cooperative and
    /// one-way: workers observe it at the top of their loop, and nothing
    /// ever sets the signal again within a run.
    pub fn stop(&mut self)
        ensures
            !final(self).keep_going(),
            final(self).inv() == old(self).inv(),
            final(self)@ == old(self)@,
            final(self).deadline() == old(self).deadline(),
            final(self).rotation_count() == old(self).rotation_count(),
            final(self).spec_config() == old(self).spec_config(),
    {
        self.keep_going = false;
    }

    /// The body of the next request attempt: `None` for body-less runs,
    /// the fixed body, or — with variations — the one selected by the
    /// shared counter, which this call advances by one.  Workers drawing
    /// from the one counter thus rotate through all variations round-robin
    /// (`lemma_round_robin_fair`).
    pub fn next_body(&mut self) -> (r: Option<String>)
        requires
            old(self).inv(),
        ensures
            final(self).inv(),
            final(self)@ == old(self)@,
            final(self).deadline() == old(self).deadline(),
            final(self).keep_going() == old(self).keep_going(),
            final(self).spec_config() == old(self).spec_config(),
            final(self).rotation_count() == (old(self).rotation_count() + 1) % 0x1_0000_0000_0000_0000,
            match old(self).spec_config().body {
                BodySpec::NoBody => r is None,
                BodySpec::Fixed(body) => r matches Some(b) && b@ == body@,
                BodySpec::Variations(v) => r matches Some(b) && b@ == v@[(
                old(self).rotation_count() % (v@.len() as u64)) as int]@,
            },
    {
        let counter = self.rotation;
        self.rotation = if self.rotation == u64::MAX {
            0
        } else {
            self.rotation + 1
        };
        match &self.config.body {
            BodySpec::NoBody => None,
            BodySpec::Fixed(body) => Some(body.clone()),
            BodySpec::Variations(v) => {
                let idx = (counter % (v.len() as u64)) as usize;
                Some(v[idx].clone())
            },
        }
    }

    /// A worker hands in a completed request (any status code).
    pub fn on_response(&mut self, metric: RequestMetric)
        requires
            old(self).inv(),
        ensures
            final(self).inv(),
            final(self)@ == old(self)@.push(
                (Sample {
                    latency_ms: metric.duration_ms,
                    observed_at_ms: metric.timestamp_ms,
                    outcome: crate::models::metrics::Outcome::Completed(metric.status),
                }),
            ),
            final(self).deadline() == old(self).deadline(),
            final(self).keep_going() == old(self).keep_going(),
            final(self).rotation_count() == old(self).rotation_count(),
            final(self).spec_config() == old(self).spec_config(),
    {
        self.metrics.record(metric);
    }

    /// A worker hands in a transport failure: the reason, how long the
    /// attempt ran before failing, and when it failed.
    pub fn on_transport_failure(&mut self, reason: String, duration_ms: u32, timestamp_ms: u64)
        requires
            old(self).inv(),
        ensures
            final(self).inv(),
            final(self)@ == old(self)@.push(
                (Sample {
                    latency_ms: duration_ms,
                    observed_at_ms: timestamp_ms,
                    outcome: crate::models::metrics::Outcome::Failed(reason),
                }),
            ),
            final(self).deadline() == old(self).deadline(),
            final(self).keep_going() == old(self).keep_going(),
            final(self).rotation_count() == old(self).rotation_count(),
            final(self).spec_config() == old(self).spec_config(),
    {
        self.metrics.record_error(reason, duration_ms, timestamp_ms);
    }

    /// A consistent snapshot of the run so far — the live-reporting loop
    /// renders these, and the final report is the snapshot taken after the
    /// join barrier, when no worker records any more.
    pub fn snapshot(&self) -> (r: MetricsSummary)
        requires
            self.inv(),
        ensures
            r.matches(self@),
            r.success_count + r.error_count == r.total_requests,
            r.error_rate_permyriad <= 10000,
    {
        self.metrics.summary()
    }
}

} // verus!
