use nyx_daemon::bus::{EventBus, BUS_CAPACITY};
use nyx_daemon::checker::{apply_probe, ProbeOutcome, FAILURE_THRESHOLD};
use nyx_daemon::daemon::{known_services, Daemon, RestartError};
use nyx_daemon::events::{DaemonEvent, Severity};
use nyx_daemon::registry::{Registry, ServiceDescriptor};
use nyx_daemon::service::{ServiceInfo, ServiceStatus};

fn athena() -> Vec<ServiceDescriptor> {
    vec![ServiceDescriptor::new("athena".to_owned(), 9500)]
}

fn fail_sweep(reg: &mut Registry, descs: &Vec<ServiceDescriptor>, now: u64) -> Vec<DaemonEvent> {
    let outs = vec![ProbeOutcome::Failure; descs.len()];
    reg.sweep(descs, &outs, now)
}

fn ok_sweep(reg: &mut Registry, descs: &Vec<ServiceDescriptor>, now: u64) -> Vec<DaemonEvent> {
    let outs = vec![ProbeOutcome::Success; descs.len()];
    reg.sweep(descs, &outs, now)
}

#[test]
fn failure_threshold_constant() {
    assert_eq!(FAILURE_THRESHOLD, 3);
}

#[test]
fn status_labels() {
    assert_eq!(ServiceStatus::Healthy.as_str(), "healthy");
    assert_eq!(ServiceStatus::Degraded.as_str(), "degraded");
    assert_eq!(ServiceStatus::Down.as_str(), "down");
    assert_eq!(ServiceStatus::Unknown.as_str(), "unknown");
}

#[test]
fn known_services_list() {
    let descs = known_services();
    let expected = [
        ("athena", 9500u16),
        ("hermes", 9600),
        ("iris", 9601),
        ("echo", 9604),
        ("aegis", 9700),
        ("apollo", 9777),
    ];
    assert_eq!(descs.len(), expected.len());
    for (d, (name, port)) in descs.iter().zip(expected.iter()) {
        assert_eq!(d.name.as_str(), *name);
        assert_eq!(d.port, *port);
    }
}

#[test]
fn first_probe_success_recovers_from_unknown() {
    let mut rec = ServiceInfo::initial("athena".to_owned(), 9500);
    let ev = apply_probe(&mut rec, ProbeOutcome::Success, 42);
    assert_eq!(rec.status, ServiceStatus::Healthy);
    assert_eq!(rec.consecutive_failures, 0);
    assert_eq!(rec.last_seen, Some(42));
    match ev {
        Some(DaemonEvent::ServiceRecovered { name, port }) => {
            assert_eq!(name, "athena");
            assert_eq!(port, 9500);
        }
        other => panic!("expected ServiceRecovered, got {:?}", other),
    }
}

#[test]
fn one_or_two_failures_degrade_without_events() {
    // healthy first
    let mut rec = ServiceInfo::initial("athena".to_owned(), 9500);
    apply_probe(&mut rec, ProbeOutcome::Success, 1);
    let ev1 = apply_probe(&mut rec, ProbeOutcome::Failure, 2);
    assert!(ev1.is_none());
    assert_eq!(rec.status, ServiceStatus::Degraded);
    assert_eq!(rec.consecutive_failures, 1);
    let ev2 = apply_probe(&mut rec, ProbeOutcome::Failure, 3);
    assert!(ev2.is_none());
    assert_eq!(rec.status, ServiceStatus::Degraded);
    assert_eq!(rec.consecutive_failures, 2);
}

#[test]
fn three_failures_emit_service_down_once() {
    let mut rec = ServiceInfo::initial("athena".to_owned(), 9500);
    apply_probe(&mut rec, ProbeOutcome::Success, 1);
    assert!(apply_probe(&mut rec, ProbeOutcome::Failure, 2).is_none());
    assert!(apply_probe(&mut rec, ProbeOutcome::Failure, 3).is_none());
    let ev = apply_probe(&mut rec, ProbeOutcome::Failure, 4);
    match ev {
        Some(DaemonEvent::ServiceDown { name, port }) => {
            assert_eq!(name, "athena");
            assert_eq!(port, 9500);
        }
        other => panic!("expected ServiceDown, got {:?}", other),
    }
    assert_eq!(rec.status, ServiceStatus::Down);
    assert_eq!(rec.consecutive_failures, 3);
    // further failures stay silent while Down
    assert!(apply_probe(&mut rec, ProbeOutcome::Failure, 5).is_none());
    assert!(apply_probe(&mut rec, ProbeOutcome::Failure, 6).is_none());
    assert_eq!(rec.status, ServiceStatus::Down);
}

#[test]
fn success_after_down_recovers() {
    let mut rec = ServiceInfo::initial("athena".to_owned(), 9500);
    apply_probe(&mut rec, ProbeOutcome::Failure, 1);
    apply_probe(&mut rec, ProbeOutcome::Failure, 2);
    apply_probe(&mut rec, ProbeOutcome::Failure, 3);
    assert_eq!(rec.status, ServiceStatus::Down);
    let ev = apply_probe(&mut rec, ProbeOutcome::Success, 9);
    match ev {
        Some(DaemonEvent::ServiceRecovered { name, port }) => {
            assert_eq!(name, "athena");
            assert_eq!(port, 9500);
        }
        other => panic!("expected ServiceRecovered, got {:?}", other),
    }
    assert_eq!(rec.status, ServiceStatus::Healthy);
    assert_eq!(rec.consecutive_failures, 0);
    assert_eq!(rec.last_seen, Some(9));
}

#[test]
fn registry_invariant_after_sweeps() {
    let descs = known_services();
    let mut reg = Registry::seeded(&descs);
    let mixed = vec![
        ProbeOutcome::Success,
        ProbeOutcome::Failure,
        ProbeOutcome::Success,
        ProbeOutcome::Failure,
        ProbeOutcome::Failure,
        ProbeOutcome::Success,
    ];
    for round in 0..5u64 {
        reg.sweep(&descs, &mixed, 100 + round);
        for rec in reg.get_all() {
            match rec.status {
                ServiceStatus::Down => assert!(rec.consecutive_failures >= 3),
                ServiceStatus::Healthy => assert_eq!(rec.consecutive_failures, 0),
                ServiceStatus::Degraded => {
                    assert!((1..=2).contains(&rec.consecutive_failures))
                }
                ServiceStatus::Unknown => {}
            }
        }
    }
}

#[test]
fn sweep_emits_one_health_check_complete() {
    let descs = vec![
        ServiceDescriptor::new("athena".to_owned(), 9500),
        ServiceDescriptor::new("hermes".to_owned(), 9600),
    ];
    let mut reg = Registry::new();
    let outs = vec![ProbeOutcome::Success, ProbeOutcome::Failure];
    let evs = reg.sweep(&descs, &outs, 50);
    let mut complete = 0;
    for ev in &evs {
        if let DaemonEvent::HealthCheckComplete { healthy_count, total_count } = ev {
            complete += 1;
            assert_eq!(*healthy_count, 1);
            assert_eq!(*total_count, 2);
        }
    }
    assert_eq!(complete, 1);
    assert_eq!(reg.healthy_count(), 1);
    // the sweep summary is the last event
    assert!(matches!(evs.last(), Some(DaemonEvent::HealthCheckComplete { .. })));
}

#[test]
fn scenario_athena_three_failures_then_recovery() {
    let descs = athena();
    let mut reg = Registry::new();

    let evs1 = fail_sweep(&mut reg, &descs, 100);
    assert_eq!(evs1.len(), 1); // only the sweep summary
    let evs2 = fail_sweep(&mut reg, &descs, 110);
    assert_eq!(evs2.len(), 1);
    let evs3 = fail_sweep(&mut reg, &descs, 120);
    assert_eq!(evs3.len(), 2);
    match &evs3[0] {
        DaemonEvent::ServiceDown { name, port } => {
            assert_eq!(name, "athena");
            assert_eq!(*port, 9500);
        }
        other => panic!("expected ServiceDown, got {:?}", other),
    }
    let rec = reg.get("athena").unwrap();
    assert_eq!(rec.status, ServiceStatus::Down);
    assert_eq!(rec.consecutive_failures, 3);

    let evs4 = ok_sweep(&mut reg, &descs, 130);
    assert_eq!(evs4.len(), 2);
    match &evs4[0] {
        DaemonEvent::ServiceRecovered { name, port } => {
            assert_eq!(name, "athena");
            assert_eq!(*port, 9500);
        }
        other => panic!("expected ServiceRecovered, got {:?}", other),
    }
    match &evs4[1] {
        DaemonEvent::HealthCheckComplete { healthy_count, total_count } => {
            assert_eq!(*healthy_count, 1);
            assert_eq!(*total_count, 1);
        }
        other => panic!("expected HealthCheckComplete, got {:?}", other),
    }
    let rec = reg.get("athena").unwrap();
    assert_eq!(rec.status, ServiceStatus::Healthy);
    assert_eq!(rec.consecutive_failures, 0);
    assert_eq!(rec.last_seen, Some(130));
}

#[test]
fn bus_is_fifo() {
    let mut bus = EventBus::new();
    assert!(bus.is_empty());
    assert!(bus.push(DaemonEvent::RestartRequested { name: "a".to_owned() }));
    assert!(bus.push(DaemonEvent::RestartRequested { name: "b".to_owned() }));
    assert!(bus.push(DaemonEvent::RestartRequested { name: "c".to_owned() }));
    for expected in ["a", "b", "c"] {
        match bus.pop() {
            Some(DaemonEvent::RestartRequested { name }) => assert_eq!(name, expected),
            other => panic!("expected RestartRequested, got {:?}", other),
        }
    }
    assert!(bus.pop().is_none());
}

#[test]
fn bus_refuses_when_full() {
    let mut bus = EventBus::new();
    for i in 0..BUS_CAPACITY {
        assert!(bus.push(DaemonEvent::HealthCheckComplete {
            healthy_count: i,
            total_count: i,
        }));
    }
    assert_eq!(bus.len(), 256);
    assert!(!bus.push(DaemonEvent::RestartRequested { name: "late".to_owned() }));
    assert_eq!(bus.len(), 256);
    // room opens up again after the consumer drains one event
    assert!(bus.pop().is_some());
    assert!(bus.push(DaemonEvent::RestartRequested { name: "late".to_owned() }));
}

#[test]
fn restart_unknown_service_refused() {
    let descs = known_services();
    let mut daemon = Daemon::new(&descs, 1_000);
    let r = daemon.handle_restart("ghost");
    assert_eq!(r, Err(RestartError::UnknownService));
    assert!(daemon.bus.is_empty());
}

#[test]
fn restart_known_service_enqueues_event() {
    let descs = known_services();
    let mut daemon = Daemon::new(&descs, 1_000);
    let r = daemon.handle_restart("athena");
    assert!(r.is_ok());
    assert_eq!(daemon.bus.len(), 1);
    match daemon.bus.pop() {
        Some(DaemonEvent::RestartRequested { name }) => assert_eq!(name, "athena"),
        other => panic!("expected RestartRequested, got {:?}", other),
    }
    assert!(daemon.bus.is_empty());
}

#[test]
fn status_summary_counts() {
    let descs = known_services();
    let mut daemon = Daemon::new(&descs, 1_000);
    let outs = vec![
        ProbeOutcome::Success,
        ProbeOutcome::Success,
        ProbeOutcome::Failure,
        ProbeOutcome::Failure,
        ProbeOutcome::Failure,
        ProbeOutcome::Failure,
    ];
    // three sweeps: the four failing services reach the threshold
    daemon.run_sweep(&descs, &outs, 1_010);
    daemon.run_sweep(&descs, &outs, 1_020);
    daemon.run_sweep(&descs, &outs, 1_030);
    let summary = daemon.status_summary(1_060);
    assert_eq!(summary.uptime_seconds, 60);
    assert_eq!(summary.services_total, 6);
    assert_eq!(summary.services_healthy, 2);
    assert_eq!(summary.services_down, 4);
}

#[test]
fn run_sweep_publishes_to_bus() {
    let descs = athena();
    let mut daemon = Daemon::new(&descs, 0);
    let outs = vec![ProbeOutcome::Success];
    let n = daemon.run_sweep(&descs, &outs, 10);
    // first success recovers from Unknown, plus the sweep summary
    assert_eq!(n, 2);
    assert!(matches!(
        daemon.bus.pop(),
        Some(DaemonEvent::ServiceRecovered { .. })
    ));
    assert!(matches!(
        daemon.bus.pop(),
        Some(DaemonEvent::HealthCheckComplete { .. })
    ));
}

#[test]
fn event_severities() {
    let down = DaemonEvent::ServiceDown { name: "athena".to_owned(), port: 9500 };
    let up = DaemonEvent::ServiceRecovered { name: "athena".to_owned(), port: 9500 };
    let restart = DaemonEvent::RestartRequested { name: "athena".to_owned() };
    let sweep = DaemonEvent::HealthCheckComplete { healthy_count: 1, total_count: 2 };
    assert_eq!(down.severity(), Severity::Error);
    assert_eq!(up.severity(), Severity::Info);
    assert_eq!(restart.severity(), Severity::Info);
    assert_eq!(sweep.severity(), Severity::Trace);
}

#[test]
fn publish_is_best_effort_in_order() {
    let mut bus = EventBus::new();
    for _ in 0..(BUS_CAPACITY - 1) {
        assert!(bus.push(DaemonEvent::HealthCheckComplete { healthy_count: 0, total_count: 0 }));
    }
    let batch = vec![
        DaemonEvent::RestartRequested { name: "first".to_owned() },
        DaemonEvent::RestartRequested { name: "second".to_owned() },
        DaemonEvent::RestartRequested { name: "third".to_owned() },
    ];
    // only one slot is left: the front of the batch gets it, the rest drop
    assert_eq!(bus.publish(batch), 1);
    assert_eq!(bus.len(), BUS_CAPACITY);
    for _ in 0..(BUS_CAPACITY - 1) {
        bus.pop();
    }
    match bus.pop() {
        Some(DaemonEvent::RestartRequested { name }) => assert_eq!(name, "first"),
        other => panic!("expected RestartRequested, got {:?}", other),
    }
}
