use pizza_ops_agent::metrics::MetricsStore;
use pizza_ops_agent::probe::{CheckResult, ProbeError};

fn ok(ms: u64) -> CheckResult {
    CheckResult { is_up: true, latency_ms: ms, error: None }
}

fn fail(ms: u64) -> CheckResult {
    CheckResult { is_up: false, latency_ms: ms, error: Some(ProbeError::Connection) }
}

fn key(s: &str) -> String {
    s.to_string()
}

#[test]
fn new_store_is_empty() {
    let s = MetricsStore::new();
    assert_eq!(s.len(), 0);
    assert!(s.snapshot().is_empty());
    assert!(s.lookup(&key("h"), &key("api")).is_none());
}

#[test]
fn first_success_creates_entry_with_zero_failures() {
    let mut s = MetricsStore::new();
    s.record(&key("h"), &key("api"), &ok(50));
    let e = s.lookup(&key("h"), &key("api")).unwrap();
    assert!(e.up);
    assert_eq!(e.up_value(), 1);
    assert_eq!(e.last_latency_ms, 50);
    assert_eq!(e.fail_total, 0);
}

#[test]
fn consecutive_failures_add_their_count() {
    let mut s = MetricsStore::new();
    s.record(&key("h"), &key("api"), &fail(1));
    s.record(&key("h"), &key("api"), &fail(2));
    let before = s.lookup(&key("h"), &key("api")).unwrap().fail_total;
    for i in 0..5 {
        s.record(&key("h"), &key("api"), &fail(i));
    }
    assert_eq!(s.lookup(&key("h"), &key("api")).unwrap().fail_total, before + 5);
}

#[test]
fn successes_never_lower_fail_total() {
    let mut s = MetricsStore::new();
    s.record(&key("h"), &key("api"), &fail(1));
    s.record(&key("h"), &key("api"), &ok(2));
    s.record(&key("h"), &key("api"), &fail(3));
    s.record(&key("h"), &key("api"), &ok(4));
    let e = s.lookup(&key("h"), &key("api")).unwrap();
    assert_eq!(e.fail_total, 2);
    assert!(e.up);
    assert_eq!(e.last_latency_ms, 4);
}

#[test]
fn latest_result_overwrites_up_and_latency() {
    let mut s = MetricsStore::new();
    s.record(&key("h"), &key("api"), &ok(10));
    s.record(&key("h"), &key("api"), &fail(77));
    let e = s.lookup(&key("h"), &key("api")).unwrap();
    assert!(!e.up);
    assert_eq!(e.up_value(), 0);
    assert_eq!(e.last_latency_ms, 77);
    s.record(&key("h"), &key("api"), &ok(9));
    let e = s.lookup(&key("h"), &key("api")).unwrap();
    assert!(e.up);
    assert_eq!(e.last_latency_ms, 9);
    assert_eq!(e.fail_total, 1);
}

#[test]
fn keys_are_kept_apart() {
    let mut s = MetricsStore::new();
    s.record(&key("h"), &key("api"), &fail(1));
    s.record(&key("h"), &key("db"), &ok(2));
    s.record(&key("other"), &key("api"), &ok(3));
    assert_eq!(s.len(), 3);
    assert_eq!(s.lookup(&key("h"), &key("api")).unwrap().fail_total, 1);
    assert_eq!(s.lookup(&key("h"), &key("db")).unwrap().fail_total, 0);
    assert_eq!(s.lookup(&key("other"), &key("api")).unwrap().last_latency_ms, 3);
}

#[test]
fn snapshot_twice_gives_same_values() {
    let mut s = MetricsStore::new();
    s.record(&key("h"), &key("api"), &fail(5));
    s.record(&key("h"), &key("db"), &ok(6));
    let a = s.snapshot();
    let b = s.snapshot();
    assert_eq!(a.len(), 2);
    assert_eq!(a.len(), b.len());
    for (x, y) in a.iter().zip(b.iter()) {
        assert_eq!(x.host, y.host);
        assert_eq!(x.name, y.name);
        assert_eq!(x.up, y.up);
        assert_eq!(x.last_latency_ms, y.last_latency_ms);
        assert_eq!(x.fail_total, y.fail_total);
    }
    assert_eq!(a[0].name, "api");
    assert_eq!(a[1].name, "db");
}

#[test]
fn interleaved_keys_count_their_own_failures() {
    let mut s = MetricsStore::new();
    s.record(&key("h"), &key("api"), &fail(1));
    s.record(&key("h"), &key("db"), &fail(2));
    s.record(&key("h"), &key("api"), &ok(3));
    s.record(&key("h"), &key("db"), &fail(4));
    s.record(&key("h"), &key("api"), &fail(5));
    s.record(&key("h"), &key("db"), &ok(6));
    let api = s.lookup(&key("h"), &key("api")).unwrap();
    assert_eq!(api.fail_total, 2);
    assert!(!api.up);
    assert_eq!(api.last_latency_ms, 5);
    let db = s.lookup(&key("h"), &key("db")).unwrap();
    assert_eq!(db.fail_total, 2);
    assert!(db.up);
    assert_eq!(s.len(), 2);
}

#[test]
fn each_key_has_one_entry() {
    let mut s = MetricsStore::new();
    for i in 0..4 {
        s.record(&key("h"), &key("api"), &fail(i));
        s.record(&key("h2"), &key("api"), &ok(i));
    }
    let snap = s.snapshot();
    assert_eq!(snap.len(), 2);
    assert_eq!(snap[0].host, "h");
    assert_eq!(snap[0].fail_total, 4);
    assert_eq!(snap[1].host, "h2");
    assert_eq!(snap[1].fail_total, 0);
}
