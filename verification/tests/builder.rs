use opentelemetry::Key;
use rust_telemetry::metadata::MAX_HEADERS;
use rust_telemetry::{
    Builder, LogFormat, OtlpConfig, Part, ProfilingConfig, Protocol, SampleRate, Setup,
    StdoutFormat, Step, SubscriberLayer, Transport,
};
use std::collections::HashMap;
use std::time::Duration;

fn otlp(protocol: Protocol, endpoint: &str) -> OtlpConfig {
    OtlpConfig {
        endpoint: endpoint.to_string(),
        protocol,
        headers: HashMap::new(),
    }
}

fn profiling() -> ProfilingConfig {
    ProfilingConfig {
        endpoint: "http://localhost:4040".to_string(),
        sample_rate_hz: 100,
        auth_token: Some("token".to_string()),
        basic_auth: Some(("user".to_string(), "pass".to_string())),
    }
}

fn rate(rate: f64) -> SampleRate {
    SampleRate::from_bits(rate.to_bits())
}

fn steps(setup: &mut Setup) -> Vec<Step> {
    let mut steps = Vec::new();
    while let Some(step) = setup.next_step() {
        steps.push(step);
    }
    steps
}

fn attribute(setup: &Setup, key: &'static str) -> String {
    setup.resource().get(&Key::new(key)).unwrap().to_string()
}

#[test]
fn defaults_are_those_documented() {
    for builder in [Builder::new(), Builder::default()] {
        let mut setup = builder.with_profiling(profiling()).init();
        assert_eq!(setup.resource().len(), 3);
        assert_eq!(attribute(&setup, "service.name"), "unknown-service");
        assert_eq!(attribute(&setup, "service.version"), "0.0.0");
        assert_eq!(attribute(&setup, "deployment.environment"), "local");
        let steps = steps(&mut setup);
        assert_eq!(steps.len(), 3);
        match &steps[0] {
            Step::BuildProfiler(profiler) => assert_eq!(profiler.tags[3].1, "unknown"),
            _ => panic!("no profiler"),
        }
        match &steps[2] {
            Step::Subscriber { filter, layers } => {
                assert_eq!(filter, "info");
                assert_eq!(*layers, vec![SubscriberLayer::Stdout(StdoutFormat::Pretty)]);
            }
            _ => panic!("no subscriber"),
        }
    }
    assert!(matches!(LogFormat::default(), LogFormat::Pretty));
}

#[test]
fn the_service_goes_by_one_name() {
    let mut setup = Builder::new()
        .service_name("my-app")
        .service_version(String::from("1.2.3"))
        .deployment_environment("production")
        .host_name("instance-01")
        .with_traces(otlp(Protocol::Grpc, "http://localhost:4317"), rate(0.1))
        .with_profiling(profiling())
        .init();
    assert_eq!(attribute(&setup, "service.name"), "my-app");
    assert_eq!(attribute(&setup, "service.version"), "1.2.3");
    assert_eq!(attribute(&setup, "deployment.environment"), "production");
    let steps = steps(&mut setup);
    match &steps[0] {
        Step::Traces { sample_rate, tracer, .. } => {
            assert_eq!(tracer, "my-app");
            assert_eq!(f64::from_bits(sample_rate.to_bits()), 0.1);
        }
        _ => panic!("no traces"),
    }
    match &steps[1] {
        Step::BuildProfiler(profiler) => {
            assert_eq!(profiler.endpoint, "http://localhost:4040");
            assert_eq!(profiler.application_name, "my-app");
            assert_eq!(profiler.sample_rate_hz, 100);
            let tags: Vec<(&str, &str)> =
                profiler.tags.iter().map(|t| (t.0.as_str(), t.1.as_str())).collect();
            assert_eq!(
                tags,
                vec![
                    ("service_name", "my-app"),
                    ("service_version", "1.2.3"),
                    ("deployment_environment", "production"),
                    ("host_name", "instance-01"),
                ]
            );
            assert_eq!(profiler.auth_token, Some("token".to_string()));
            assert_eq!(profiler.basic_auth, Some(("user".to_string(), "pass".to_string())));
        }
        _ => panic!("no profiler"),
    }
}

#[test]
fn the_last_value_set_counts() {
    let mut setup = Builder::new()
        .log_filter("info")
        .log_filter("info,my_app=debug")
        .with_logs(otlp(Protocol::Grpc, "http://first"))
        .with_logs(otlp(Protocol::Http, "http://second"))
        .init();
    let steps = steps(&mut setup);
    assert_eq!(steps.len(), 2);
    match &steps[0] {
        Step::Logs { exporter: Transport::Http { endpoint, .. } } => {
            assert_eq!(endpoint, "http://second")
        }
        _ => panic!("no logs over HTTP"),
    }
    match &steps[1] {
        Step::Subscriber { filter, .. } => assert_eq!(filter, "info,my_app=debug"),
        _ => panic!("no subscriber"),
    }
}

#[test]
fn steps_come_in_a_fixed_order() {
    let mut setup = Builder::new()
        .with_profiling(profiling())
        .with_metrics(otlp(Protocol::Http, "http://m"), Duration::from_secs(15))
        .with_traces(otlp(Protocol::Grpc, "http://t"), rate(1.0))
        .with_logs(otlp(Protocol::Http, "http://l"))
        .init();
    let parts: Vec<Part> = steps(&mut setup).iter().map(|step| step.part()).collect();
    assert_eq!(parts.len(), 6);
    assert!(matches!(parts[0], Part::Logs(Protocol::Http)));
    assert!(matches!(parts[1], Part::Traces(Protocol::Grpc)));
    assert!(matches!(parts[2], Part::Metrics(Protocol::Http)));
    assert!(matches!(parts[3], Part::ProfilerBuilt));
    assert!(matches!(parts[4], Part::ProfilerStarted));
    assert!(matches!(parts[5], Part::Subscriber));
    assert!(setup.next_step().is_none());
}

#[test]
fn each_pillar_is_on_or_off_by_itself() {
    for on in 0u32..16 {
        let mut builder = Builder::new();
        if on & 1 != 0 {
            builder = builder.with_logs(otlp(Protocol::Grpc, "http://l"));
        }
        if on & 2 != 0 {
            builder = builder.with_traces(otlp(Protocol::Grpc, "http://t"), rate(0.5));
        }
        if on & 4 != 0 {
            builder = builder.with_metrics(
                otlp(Protocol::Grpc, "http://m"),
                Duration::from_secs(60),
            );
        }
        if on & 8 != 0 {
            builder = builder.with_profiling(profiling());
        }
        let steps = steps(&mut builder.init());
        let has = |wanted: fn(&Step) -> bool| steps.iter().any(wanted);
        assert_eq!(has(|s| matches!(s, Step::Logs { .. })), on & 1 != 0);
        assert_eq!(has(|s| matches!(s, Step::Traces { .. })), on & 2 != 0);
        assert_eq!(has(|s| matches!(s, Step::Metrics { .. })), on & 4 != 0);
        assert_eq!(has(|s| matches!(s, Step::BuildProfiler(_))), on & 8 != 0);
        assert_eq!(has(|s| matches!(s, Step::StartProfiler)), on & 8 != 0);
        assert!(has(|s| matches!(s, Step::Subscriber { .. })));
    }
}

#[test]
fn each_format_has_its_stdout_logger() {
    let formats = [
        (LogFormat::Pretty, Some(StdoutFormat::Pretty)),
        (LogFormat::Compact, Some(StdoutFormat::Compact)),
        (LogFormat::Json, Some(StdoutFormat::Json)),
        (LogFormat::Off, None),
    ];
    for (format, expected) in formats {
        for logs in [false, true] {
            let mut builder = Builder::new().log_format(format);
            if logs {
                builder = builder.with_logs(otlp(Protocol::Http, "http://l"));
            }
            match steps(&mut builder.init()).pop() {
                Some(Step::Subscriber { layers, .. }) => {
                    let mut wanted: Vec<SubscriberLayer> =
                        expected.into_iter().map(SubscriberLayer::Stdout).collect();
                    if logs {
                        wanted.push(SubscriberLayer::Logs);
                    }
                    assert_eq!(layers, wanted);
                }
                _ => panic!("no subscriber"),
            }
        }
    }
}

#[test]
fn headers_go_with_the_protocol() {
    let mut config = otlp(Protocol::Grpc, "http://localhost:4317");
    config.headers.insert("Authorization".to_string(), "Bearer t".to_string());
    config.headers.insert("not a name".to_string(), "v".to_string());
    let mut http = config.clone();
    http.protocol = Protocol::Http;
    match Transport::new(config) {
        Transport::Grpc { endpoint, metadata } => {
            assert_eq!(endpoint, "http://localhost:4317");
            assert_eq!(metadata.len(), 1);
            assert_eq!(metadata.get("authorization").unwrap(), "Bearer t");
        }
        Transport::Http { .. } => panic!("not gRPC"),
    }
    match Transport::new(http) {
        Transport::Http { endpoint, headers } => {
            assert_eq!(endpoint, "http://localhost:4317");
            assert_eq!(headers.len(), 2);
            assert_eq!(headers["Authorization"], "Bearer t");
            assert_eq!(headers["not a name"], "v");
        }
        Transport::Grpc { .. } => panic!("not HTTP"),
    }
}

#[test]
fn a_clone_of_a_transport_is_the_same_transport() {
    let mut config = otlp(Protocol::Http, "http://localhost:4318");
    config.headers.insert("x-api-key".to_string(), "k".to_string());
    let copy = config.clone();
    assert_eq!(copy.endpoint, config.endpoint);
    assert!(matches!(copy.protocol, Protocol::Http));
    assert_eq!(copy.headers, config.headers);
}

#[test]
fn too_many_headers_are_noticed_over_grpc_only() {
    let mut config = otlp(Protocol::Grpc, "http://l");
    for i in 0..MAX_HEADERS {
        config.headers.insert(format!("h{i}"), "v".to_string());
    }
    config.headers.insert("not a name".to_string(), "v".to_string());
    config.headers.insert("name".to_string(), "not\na value".to_string());
    assert!(config.fits());
    assert!(Builder::new().with_logs(config.clone()).fits());
    config.headers.insert("one-more".to_string(), "v".to_string());
    assert!(!config.fits());
    assert!(!Builder::new().with_logs(config.clone()).fits());
    assert!(!Builder::new().with_traces(config.clone(), rate(1.0)).fits());
    assert!(!Builder::new().with_metrics(config.clone(), Duration::from_secs(1)).fits());
    config.protocol = Protocol::Http;
    assert!(config.fits());
    assert!(Builder::new().with_logs(config).fits());
}

#[test]
fn metrics_keep_their_interval() {
    let mut setup = Builder::new()
        .with_metrics(otlp(Protocol::Grpc, "http://m"), Duration::from_millis(1500))
        .init();
    match setup.next_step() {
        Some(Step::Metrics { export_interval, .. }) => {
            assert_eq!(export_interval, Duration::from_millis(1500))
        }
        _ => panic!("no metrics"),
    }
}

#[test]
fn the_trace_layer_comes_before_the_log_layer() {
    let mut setup = Builder::new()
        .log_format(LogFormat::Json)
        .with_logs(otlp(Protocol::Grpc, "http://l"))
        .with_traces(otlp(Protocol::Grpc, "http://t"), rate(1.0))
        .init();
    match steps(&mut setup).pop() {
        Some(Step::Subscriber { layers, .. }) => assert_eq!(
            layers,
            vec![
                SubscriberLayer::Stdout(StdoutFormat::Json),
                SubscriberLayer::Traces,
                SubscriberLayer::Logs,
            ]
        ),
        _ => panic!("no subscriber"),
    }
}

#[test]
fn the_resource_holds_three_texts_and_nothing_else() {
    let setup = Builder::new().service_version("7").host_name("h").init();
    let mut attributes: Vec<(String, String)> = Vec::new();
    for (key, value) in setup.resource().iter() {
        match value {
            opentelemetry::Value::String(text) => {
                attributes.push((key.as_str().to_string(), text.as_str().to_string()))
            }
            other => panic!("{key:?} is {other:?}"),
        }
    }
    attributes.sort();
    assert_eq!(
        attributes,
        vec![
            ("deployment.environment".to_string(), "local".to_string()),
            ("service.name".to_string(), "unknown-service".to_string()),
            ("service.version".to_string(), "7".to_string()),
        ]
    );
}
