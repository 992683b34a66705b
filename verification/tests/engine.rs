use nuts::engine::{BodySpec, ConfigError, HttpMethod, LoadSession, RunConfig, WorkerState};
use nuts::engine::{resolve_perf_target, TargetError};
use nuts::engine::WorkerState::{Running, Stopped};
use nuts::engine::worker_step;
use nuts::models::metrics::RequestMetric;

fn config(body: BodySpec, duration_ms: u64) -> RunConfig {
    RunConfig {
        target_url: "http://localhost:8000/items".to_string(),
        method: HttpMethod::Get,
        concurrency: 1,
        duration_ms,
        body,
    }
}

#[test]
fn zero_duration_run_records_nothing_and_reports_zeros() {
    // concurrency 1, duration 0, target always failing: the worker guard is
    // false from the start, so the target is never reached at all.
    let session = LoadSession::start(config(BodySpec::NoBody, 0), 0).unwrap();
    assert!(!session.should_continue(0));
    let s = session.snapshot();
    assert_eq!(s.total_requests, 0);
    assert_eq!(s.success_count, 0);
    assert_eq!(s.error_count, 0);
    assert_eq!(s.error_rate_permyriad, 0);
    assert_eq!(s.avg_latency_ms, 0);
    assert_eq!(s.median_latency_ms, 0);
    assert_eq!(s.p95_latency_ms, 0);
    assert_eq!(s.p99_latency_ms, 0);
    assert_eq!(s.std_dev_latency_ms, 0);
    assert_eq!(s.peak_rps, 0);
}

#[test]
fn fast_healthy_target_reports_no_errors() {
    // A target answering 200 in 10 ms, driven for a simulated second: the
    // worker records one sample per 10 ms until the deadline.
    let mut session = LoadSession::start(config(BodySpec::NoBody, 1000), 0).unwrap();
    let mut now: u64 = 0;
    while session.should_continue(now) {
        session.on_response(RequestMetric { duration_ms: 10, status: 200, timestamp_ms: now });
        now += 10;
    }
    let s = session.snapshot();
    assert_eq!(s.total_requests, 100);
    assert_eq!(s.error_rate_permyriad, 0);
    assert_eq!(s.status_counts, vec![(200, 100)]);
    assert_eq!(s.avg_latency_ms, 10);
}

#[test]
fn alternating_target_converges_to_half_error_rate() {
    let mut session = LoadSession::start(config(BodySpec::NoBody, 10_000), 0).unwrap();
    let mut now: u64 = 0;
    let mut i: u64 = 0;
    while session.should_continue(now) {
        let status = if i % 2 == 0 { 200 } else { 500 };
        session.on_response(RequestMetric { duration_ms: 5, status, timestamp_ms: now });
        now += 10;
        i += 1;
    }
    let s = session.snapshot();
    assert_eq!(s.total_requests, 1000);
    assert_eq!(s.error_rate_permyriad, 5000);
    assert_eq!(s.status_counts, vec![(200, 500), (500, 500)]);
}

#[test]
fn transport_failures_are_recorded_not_raised() {
    let mut session = LoadSession::start(config(BodySpec::NoBody, 100), 0).unwrap();
    let mut now: u64 = 0;
    while session.should_continue(now) {
        session.on_transport_failure("connection refused".to_string(), 1, now);
        now += 10;
    }
    let s = session.snapshot();
    assert_eq!(s.total_requests, 10);
    assert_eq!(s.success_count, 0);
    assert_eq!(s.error_count, 10);
    assert_eq!(s.error_rate_permyriad, 10000);
    assert!(s.status_counts.is_empty());
}

#[test]
fn variations_rotate_round_robin() {
    // 7 draws over 3 variations: the first gets ceil(7/3) = 3, the others
    // floor(7/3) = 2 — nothing starves, nothing is skipped.
    let vars = vec!["a".to_string(), "b".to_string(), "c".to_string()];
    let mut session = LoadSession::start(config(BodySpec::Variations(vars), 1000), 0).unwrap();
    let mut counts = [0u32; 3];
    for _ in 0..7 {
        match session.next_body().unwrap().as_str() {
            "a" => counts[0] += 1,
            "b" => counts[1] += 1,
            "c" => counts[2] += 1,
            other => panic!("unexpected body {}", other),
        }
    }
    assert_eq!(counts, [3, 2, 2]);
}

#[test]
fn fixed_body_is_sent_every_time_and_no_body_never() {
    let mut with_fixed =
        LoadSession::start(config(BodySpec::Fixed("{\"k\":1}".to_string()), 10), 0).unwrap();
    assert_eq!(with_fixed.next_body().as_deref(), Some("{\"k\":1}"));
    assert_eq!(with_fixed.next_body().as_deref(), Some("{\"k\":1}"));
    let mut without = LoadSession::start(config(BodySpec::NoBody, 10), 0).unwrap();
    assert_eq!(without.next_body(), None);
}

#[test]
fn empty_variation_list_is_rejected_before_any_work() {
    let r = LoadSession::start(config(BodySpec::Variations(Vec::new()), 10), 0);
    assert_eq!(r.err(), Some(ConfigError::EmptyVariations));
    assert_eq!(
        ConfigError::EmptyVariations.message(),
        "body variations requested but none were given"
    );
}

#[test]
fn clearing_the_signal_stops_workers_before_the_deadline() {
    let mut session = LoadSession::start(config(BodySpec::NoBody, 1_000_000), 0).unwrap();
    assert!(session.should_continue(5));
    session.stop();
    assert!(!session.should_continue(5));
}

#[test]
fn deadline_is_now_plus_duration() {
    let session = LoadSession::start(config(BodySpec::NoBody, 250), 1000).unwrap();
    assert!(session.should_continue(1249));
    assert!(!session.should_continue(1250));
}

#[test]
fn worker_transitions_are_one_way() {
    assert_eq!(worker_step(Running, 0, 100, true), Running);
    assert_eq!(worker_step(Running, 100, 100, true), Stopped);
    assert_eq!(worker_step(Running, 0, 100, false), Stopped);
    // Stopped is absorbing, whatever the clock or signal says.
    assert_eq!(worker_step(Stopped, 0, 100, true), Stopped);
}

#[test]
fn http_methods_render_their_wire_names() {
    assert_eq!(HttpMethod::Get.as_str(), "GET");
    assert_eq!(HttpMethod::Post.as_str(), "POST");
    assert_eq!(HttpMethod::Put.as_str(), "PUT");
    assert_eq!(HttpMethod::Patch.as_str(), "PATCH");
    assert_eq!(HttpMethod::Delete.as_str(), "DELETE");
}

#[test]
fn http_methods_parse_from_their_wire_names() {
    assert_eq!(HttpMethod::parse("GET"), Some(HttpMethod::Get));
    assert_eq!(HttpMethod::parse("POST"), Some(HttpMethod::Post));
    assert_eq!(HttpMethod::parse("PUT"), Some(HttpMethod::Put));
    assert_eq!(HttpMethod::parse("PATCH"), Some(HttpMethod::Patch));
    assert_eq!(HttpMethod::parse("DELETE"), Some(HttpMethod::Delete));
    assert_eq!(HttpMethod::parse("get"), None);
    assert_eq!(HttpMethod::parse("HEAD"), None);
    assert_eq!(HttpMethod::parse(""), None);
}

#[test]
fn snapshots_during_a_run_are_consistent() {
    // A snapshot taken mid-run sees exactly what was recorded so far, and
    // its counts already partition its total.
    let mut session = LoadSession::start(config(BodySpec::NoBody, 1000), 0).unwrap();
    session.on_response(RequestMetric { duration_ms: 10, status: 200, timestamp_ms: 0 });
    session.on_transport_failure("timeout".to_string(), 900, 5);
    let mid = session.snapshot();
    assert_eq!(mid.total_requests, 2);
    assert_eq!(mid.success_count + mid.error_count, mid.total_requests);
    session.on_response(RequestMetric { duration_ms: 10, status: 200, timestamp_ms: 20 });
    let after = session.snapshot();
    assert_eq!(after.total_requests, 3);
}

#[test]
fn perf_targets_resolve_against_collection_paths() {
    let paths = vec!["/api/users".to_string(), "/api/items/{id}".to_string()];
    let servers = vec!["http://api.test:9000".to_string()];
    // a relative endpoint is appended to the collection's first server
    assert_eq!(
        resolve_perf_target(&paths, &servers, "/api/users").unwrap(),
        "http://api.test:9000/api/users"
    );
    // any path containing the endpoint text accepts it
    assert_eq!(
        resolve_perf_target(&paths, &servers, "items").unwrap(),
        "http://api.test:9000items"
    );
    // with no server listed, the local default hosts the endpoint
    let no_servers: Vec<String> = Vec::new();
    assert_eq!(
        resolve_perf_target(&paths, &no_servers, "/api/users").unwrap(),
        "http://localhost:8000/api/users"
    );
    // an absolute endpoint passes through untouched once matched
    let absolute = vec!["http://mirror.test/api/users".to_string()];
    assert_eq!(
        resolve_perf_target(&absolute, &servers, "http://mirror.test/api/users").unwrap(),
        "http://mirror.test/api/users"
    );
    // an endpoint matching no path is rejected before any request
    assert_eq!(
        resolve_perf_target(&paths, &servers, "/missing").err(),
        Some(TargetError::EndpointNotFound)
    );
    assert_eq!(TargetError::EndpointNotFound.message(), "Endpoint not found in collection");
}
