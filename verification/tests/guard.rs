use rust_telemetry::{Builder, Guard, Part, Protocol, Setup, ShutdownAction};

fn setup() -> Setup {
    Builder::new().init()
}

fn guard(parts: &[Part]) -> Guard {
    let mut setup = setup();
    for part in parts {
        assert_eq!(setup.report(*part, true), Ok(()));
    }
    setup.finish()
}

fn shutdown(mut guard: Guard, stops: bool) -> Vec<ShutdownAction> {
    let mut actions = Vec::new();
    while let Some(action) = guard.next_shutdown() {
        if action == ShutdownAction::StopProfiler {
            guard.profiler_stopped(stops);
        }
        actions.push(action);
    }
    assert!(guard.next_shutdown().is_none());
    actions
}

const ALL: [Part; 6] = [
    Part::Logs(Protocol::Grpc),
    Part::Traces(Protocol::Http),
    Part::Metrics(Protocol::Grpc),
    Part::ProfilerBuilt,
    Part::ProfilerStarted,
    Part::Subscriber,
];

#[test]
fn the_profiler_is_flushed_first_and_then_logs_traces_and_metrics() {
    assert_eq!(
        shutdown(guard(&ALL), true),
        vec![
            ShutdownAction::StopProfiler,
            ShutdownAction::ShutdownProfiler,
            ShutdownAction::ShutdownLogs,
            ShutdownAction::ShutdownTraces,
            ShutdownAction::ShutdownMetrics,
        ]
    );
}

#[test]
fn a_profiler_that_does_not_stop_holds_nothing_up() {
    assert_eq!(
        shutdown(guard(&ALL), false),
        vec![
            ShutdownAction::StopProfiler,
            ShutdownAction::ShutdownLogs,
            ShutdownAction::ShutdownTraces,
            ShutdownAction::ShutdownMetrics,
        ]
    );
}

#[test]
fn only_what_runs_is_shut_down() {
    assert_eq!(shutdown(guard(&[]), true), vec![]);
    assert_eq!(
        shutdown(guard(&[Part::Traces(Protocol::Grpc)]), true),
        vec![ShutdownAction::ShutdownTraces]
    );
    assert_eq!(shutdown(guard(&[Part::ProfilerBuilt, Part::Subscriber]), true), vec![]);
}

#[test]
fn a_stop_that_is_not_reported_counts_as_failed() {
    let mut guard = guard(&ALL);
    assert_eq!(guard.next_shutdown(), Some(ShutdownAction::StopProfiler));
    assert_eq!(guard.next_shutdown(), Some(ShutdownAction::ShutdownLogs));
}

#[test]
fn what_could_not_be_started_is_not_shut_down() {
    let mut setup = setup();
    assert!(setup.report(Part::Logs(Protocol::Grpc), false).is_err());
    assert_eq!(shutdown(setup.finish(), true), vec![]);
}

#[test]
fn each_failure_has_its_message() {
    let messages = [
        (Part::Logs(Protocol::Grpc), "failed to build OTLP gRPC log exporter"),
        (Part::Logs(Protocol::Http), "failed to build OTLP HTTP log exporter"),
        (Part::Traces(Protocol::Grpc), "failed to build OTLP gRPC span exporter"),
        (Part::Traces(Protocol::Http), "failed to build OTLP HTTP span exporter"),
        (Part::Metrics(Protocol::Grpc), "failed to build OTLP gRPC metric exporter"),
        (Part::Metrics(Protocol::Http), "failed to build OTLP HTTP metric exporter"),
        (Part::ProfilerBuilt, "failed to build Pyroscope agent"),
        (Part::ProfilerStarted, "failed to start Pyroscope agent"),
    ];
    for (part, message) in messages {
        assert_eq!(setup().report(part, false), Err(message.to_string()));
        assert_eq!(setup().report(part, true), Ok(()));
    }
}

#[test]
fn a_subscriber_that_is_already_there_is_tolerated() {
    assert_eq!(setup().report(Part::Subscriber, false), Ok(()));
}

#[test]
fn nothing_is_started_after_a_failure() {
    let mut failed = setup();
    assert!(failed.report(Part::Traces(Protocol::Http), false).is_err());
    assert!(failed.next_step().is_none());
    let mut tolerated = setup();
    assert_eq!(tolerated.report(Part::Subscriber, false), Ok(()));
    assert!(tolerated.next_step().is_some());
}
