use pizza_ops_agent::config::{CheckSpec, ConfigError, Interval};
use pizza_ops_agent::metrics::MetricsStore;
use pizza_ops_agent::probe::{ProbeOutcome, PROBE_TIMEOUT_MS};
use pizza_ops_agent::remediation::RemediationStep;
use pizza_ops_agent::scheduler::{Action, Event, Phase, Scheduler};

fn api_check() -> CheckSpec {
    CheckSpec {
        name: "api".to_string(),
        url: "http://x/health".to_string(),
        expect_status: 200,
        remediation: vec![RemediationStep { action: "command".to_string(), cmd: "restart-api".to_string() }],
    }
}

fn plain_check(name: &str) -> CheckSpec {
    CheckSpec {
        name: name.to_string(),
        url: format!("http://x/{}", name),
        expect_status: 200,
        remediation: Vec::new(),
    }
}

fn interval() -> Interval {
    Interval { secs: 10, nanos: 0 }
}

fn host() -> String {
    "h1".to_string()
}

#[test]
fn healthy_target_records_up() {
    let mut sched = Scheduler::new(host(), vec![api_check()], interval());
    let mut store = MetricsStore::new();
    match sched.next_action() {
        Action::Probe { url, timeout_ms } => {
            assert_eq!(url, "http://x/health");
            assert_eq!(timeout_ms, PROBE_TIMEOUT_MS);
        }
        other => panic!("expected a probe, got {:?}", other),
    }
    sched.handle(&mut store, Event::Probed { outcome: ProbeOutcome::Response { status: 200 }, elapsed_ms: 50 });
    let e = store.lookup(&host(), &"api".to_string()).unwrap();
    assert_eq!(e.up_value(), 1);
    assert_eq!(e.fail_total, 0);
    assert_eq!(e.last_latency_ms, 50);
    assert_eq!(sched.phase(), Phase::Sleeping);
    match sched.next_action() {
        Action::Sleep { interval: iv } => assert_eq!(iv, interval()),
        other => panic!("expected a sleep, got {:?}", other),
    }
}

#[test]
fn failing_target_remediates_exactly_once() {
    let mut sched = Scheduler::new(host(), vec![api_check()], interval());
    let mut store = MetricsStore::new();
    sched.handle(&mut store, Event::Probed { outcome: ProbeOutcome::Response { status: 500 }, elapsed_ms: 20 });
    let e = store.lookup(&host(), &"api".to_string()).unwrap();
    assert_eq!(e.up_value(), 0);
    assert_eq!(e.fail_total, 1);
    let mut remediations = 0;
    loop {
        match sched.next_action() {
            Action::Remediate { commands } => {
                assert_eq!(commands, vec!["restart-api".to_string()]);
                remediations += 1;
                sched.handle(&mut store, Event::Remediated);
            }
            Action::Sleep { .. } => break,
            other => panic!("unexpected action {:?}", other),
        }
    }
    assert_eq!(remediations, 1);
}

#[test]
fn failed_remediation_leaves_metrics_alone() {
    let mut sched = Scheduler::new(host(), vec![api_check(), plain_check("db")], interval());
    let mut store = MetricsStore::new();
    sched.handle(&mut store, Event::Probed { outcome: ProbeOutcome::ConnectFailed, elapsed_ms: 4 });
    assert_eq!(sched.phase(), Phase::Remediating(0));
    sched.handle(&mut store, Event::Remediated);
    let e = store.lookup(&host(), &"api".to_string()).unwrap();
    assert!(!e.up);
    assert_eq!(e.fail_total, 1);
    assert_eq!(store.len(), 1);
    assert_eq!(sched.phase(), Phase::Probing(1));
}

#[test]
fn checks_run_in_order_then_sleep_then_repeat() {
    let mut sched = Scheduler::new(host(), vec![plain_check("a"), plain_check("b")], interval());
    let mut store = MetricsStore::new();
    assert_eq!(sched.phase(), Phase::Probing(0));
    sched.handle(&mut store, Event::Probed { outcome: ProbeOutcome::Response { status: 200 }, elapsed_ms: 1 });
    assert_eq!(sched.phase(), Phase::Probing(1));
    sched.handle(&mut store, Event::Probed { outcome: ProbeOutcome::TimedOut, elapsed_ms: 5001 });
    assert_eq!(sched.phase(), Phase::Sleeping);
    sched.handle(&mut store, Event::Slept);
    assert_eq!(sched.phase(), Phase::Probing(0));
    let b = store.lookup(&host(), &"b".to_string()).unwrap();
    assert_eq!(b.fail_total, 1);
    assert!(b.last_latency_ms >= PROBE_TIMEOUT_MS);
}

#[test]
fn out_of_phase_event_changes_nothing() {
    let mut sched = Scheduler::new(host(), vec![plain_check("a")], interval());
    let mut store = MetricsStore::new();
    sched.handle(&mut store, Event::Slept);
    sched.handle(&mut store, Event::Remediated);
    assert_eq!(sched.phase(), Phase::Probing(0));
    assert_eq!(store.len(), 0);
}

#[test]
fn no_checks_only_sleeps() {
    let mut sched = Scheduler::new(host(), Vec::new(), interval());
    let mut store = MetricsStore::new();
    assert_eq!(sched.phase(), Phase::Sleeping);
    sched.handle(&mut store, Event::Slept);
    assert_eq!(sched.phase(), Phase::Sleeping);
}

#[test]
fn config_interval_is_parsed() {
    let sched = Scheduler::from_config(host(), "2m", vec![plain_check("a")]).unwrap();
    assert_eq!(sched.host(), "h1");
}

#[test]
fn config_interval_sets_sleep() {
    let mut sched = Scheduler::from_config(host(), "2m", Vec::new()).unwrap();
    match sched.next_action() {
        Action::Sleep { interval: iv } => assert_eq!(iv, Interval { secs: 120, nanos: 0 }),
        other => panic!("expected a sleep, got {:?}", other),
    }
    let mut store = MetricsStore::new();
    sched.handle(&mut store, Event::Slept);
}

#[test]
fn config_bad_interval_is_refused() {
    let r = Scheduler::from_config(host(), "every so often", vec![plain_check("a")]);
    assert!(matches!(r, Err(ConfigError::InvalidInterval)));
}

#[test]
fn handle_returns_recorded_result() {
    let mut sched = Scheduler::new(host(), vec![api_check()], interval());
    let mut store = MetricsStore::new();
    let r = sched.handle(&mut store, Event::Probed { outcome: ProbeOutcome::Response { status: 503 }, elapsed_ms: 8 });
    let r = r.unwrap();
    assert!(!r.is_up);
    assert_eq!(r.latency_ms, 8);
    assert!(sched.handle(&mut store, Event::Remediated).is_none());
    assert!(sched.handle(&mut store, Event::Slept).is_none());
}

#[test]
fn check_lookup_by_position() {
    let sched = Scheduler::new(host(), vec![plain_check("a"), plain_check("b")], interval());
    assert_eq!(sched.check_count(), 2);
    assert_eq!(sched.check(1).unwrap().name, "b");
    assert!(sched.check(2).is_none());
}
