//! Setups run against the real exporters, with endpoints that nobody listens on.

use opentelemetry::trace::TracerProvider as _;
use opentelemetry_appender_tracing::layer::OpenTelemetryTracingBridge;
use opentelemetry_otlp::{
    LogExporter, MetricExporter, SpanExporter, WithExportConfig, WithHttpConfig, WithTonicConfig,
};
use opentelemetry_sdk::logs::SdkLoggerProvider;
use opentelemetry_sdk::metrics::{PeriodicReader, SdkMeterProvider};
use opentelemetry_sdk::trace::{Sampler, SdkTracerProvider};
use pyroscope::pyroscope::PyroscopeAgentBuilder;
use pyroscope_pprofrs::{pprof_backend, PprofConfig};
use rust_telemetry::{
    Builder, LogFormat, OtlpConfig, ProfilingConfig, Protocol, SampleRate, ShutdownAction,
    StdoutFormat, Step, SubscriberLayer, Transport,
};
use std::collections::HashMap;
use std::time::Duration;
use tracing_subscriber::layer::{Layered, SubscriberExt};
use tracing_subscriber::util::SubscriberInitExt;
use tracing_subscriber::{EnvFilter, Layer, Registry};

type BoxedLayer = Box<dyn Layer<Layered<EnvFilter, Registry>> + Send + Sync>;

fn test_builder() -> Builder {
    Builder::new()
        .service_name("test-service")
        .service_version("0.0.0")
        .deployment_environment("test")
        .host_name("test-host")
        .log_filter("info")
}

fn fake_grpc() -> OtlpConfig {
    OtlpConfig {
        endpoint: "http://127.0.0.1:1".to_string(),
        protocol: Protocol::Grpc,
        headers: HashMap::new(),
    }
}

fn fake_http() -> OtlpConfig {
    OtlpConfig {
        endpoint: "http://127.0.0.1:1".to_string(),
        protocol: Protocol::Http,
        headers: HashMap::new(),
    }
}

fn all_traces() -> SampleRate {
    SampleRate::from_bits(1.0f64.to_bits())
}

/// Starts what the builder asks for, checks with `check` while it runs, shuts it down, and
/// returns how it was shut down.
fn run(builder: Builder, check: fn()) -> Vec<ShutdownAction> {
    let runtime = tokio::runtime::Builder::new_multi_thread()
        .worker_threads(1)
        .enable_all()
        .build()
        .unwrap();
    let _entered = runtime.enter();
    let mut setup = builder.init();
    let mut logs = None;
    let mut traces = None;
    let mut metrics = None;
    let mut log_layer: Option<BoxedLayer> = None;
    let mut trace_layer: Option<BoxedLayer> = None;
    let mut built = None;
    let mut running = None;
    while let Some(step) = setup.next_step() {
        let part = step.part();
        let mut started = true;
        match step {
            Step::Logs { exporter } => {
                let exporter = match exporter {
                    Transport::Grpc { endpoint, metadata } => LogExporter::builder()
                        .with_tonic()
                        .with_endpoint(endpoint)
                        .with_metadata(metadata)
                        .build(),
                    Transport::Http { endpoint, headers } => LogExporter::builder()
                        .with_http()
                        .with_endpoint(endpoint)
                        .with_headers(headers)
                        .build(),
                };
                let provider = SdkLoggerProvider::builder()
                    .with_batch_exporter(exporter.unwrap())
                    .with_resource(setup.resource().clone())
                    .build();
                log_layer = Some(OpenTelemetryTracingBridge::new(&provider).boxed());
                logs = Some(provider);
            }
            Step::Traces { exporter, sample_rate, tracer } => {
                let exporter = match exporter {
                    Transport::Grpc { endpoint, metadata } => SpanExporter::builder()
                        .with_tonic()
                        .with_endpoint(endpoint)
                        .with_metadata(metadata)
                        .build(),
                    Transport::Http { endpoint, headers } => SpanExporter::builder()
                        .with_http()
                        .with_endpoint(endpoint)
                        .with_headers(headers)
                        .build(),
                };
                let rate = f64::from_bits(sample_rate.to_bits());
                let provider = SdkTracerProvider::builder()
                    .with_sampler(Sampler::TraceIdRatioBased(rate))
                    .with_batch_exporter(exporter.unwrap())
                    .with_resource(setup.resource().clone())
                    .build();
                let layer = tracing_opentelemetry::layer().with_tracer(provider.tracer(tracer));
                trace_layer = Some(layer.boxed());
                traces = Some(provider);
            }
            Step::Metrics { exporter, export_interval } => {
                let exporter = match exporter {
                    Transport::Grpc { endpoint, metadata } => MetricExporter::builder()
                        .with_tonic()
                        .with_endpoint(endpoint)
                        .with_metadata(metadata)
                        .build(),
                    Transport::Http { endpoint, headers } => MetricExporter::builder()
                        .with_http()
                        .with_endpoint(endpoint)
                        .with_headers(headers)
                        .build(),
                };
                let reader = PeriodicReader::builder(exporter.unwrap())
                    .with_interval(export_interval)
                    .build();
                let provider = SdkMeterProvider::builder()
                    .with_reader(reader)
                    .with_resource(setup.resource().clone())
                    .build();
                opentelemetry::global::set_meter_provider(provider.clone());
                metrics = Some(provider);
            }
            Step::BuildProfiler(profiler) => {
                let tags =
                    profiler.tags.iter().map(|t| (t.0.as_str(), t.1.as_str())).collect();
                let config = PprofConfig::new().sample_rate(profiler.sample_rate_hz);
                let agent =
                    PyroscopeAgentBuilder::new(&profiler.endpoint, &profiler.application_name)
                        .backend(pprof_backend(config))
                        .tags(tags);
                built = Some(agent.build().unwrap());
            }
            Step::StartProfiler => {
                running = Some(built.take().unwrap().start().unwrap());
            }
            Step::Subscriber { filter, layers } => {
                let layers: Vec<BoxedLayer> = layers
                    .into_iter()
                    .map(|layer| match layer {
                        SubscriberLayer::Stdout(format) => stdout_layer(format),
                        SubscriberLayer::Traces => trace_layer.take().unwrap(),
                        SubscriberLayer::Logs => log_layer.take().unwrap(),
                    })
                    .collect();
                assert!(trace_layer.is_none() && log_layer.is_none());
                started = tracing_subscriber::registry()
                    .with(EnvFilter::new(&filter))
                    .with(Some(layers).filter(|layers| !layers.is_empty()))
                    .try_init()
                    .is_ok();
            }
        }
        assert_eq!(setup.report(part, started), Ok(()));
    }
    let mut guard = setup.finish();
    check();
    let mut actions = Vec::new();
    while let Some(action) = guard.next_shutdown() {
        match action {
            ShutdownAction::StopProfiler => {
                built = running.take().unwrap().stop().ok();
                guard.profiler_stopped(built.is_some());
            }
            ShutdownAction::ShutdownProfiler => built.take().unwrap().shutdown(),
            ShutdownAction::ShutdownLogs => {
                let _ = logs.take().unwrap().shutdown();
            }
            ShutdownAction::ShutdownTraces => {
                let _ = traces.take().unwrap().shutdown();
            }
            ShutdownAction::ShutdownMetrics => {
                let _ = metrics.take().unwrap().shutdown();
            }
        }
        actions.push(action);
    }
    assert!(logs.is_none() && traces.is_none() && metrics.is_none() && running.is_none());
    actions
}

fn stdout_layer(format: StdoutFormat) -> BoxedLayer {
    match format {
        StdoutFormat::Pretty => tracing_subscriber::fmt::layer().pretty().boxed(),
        StdoutFormat::Compact => tracing_subscriber::fmt::layer().compact().boxed(),
        StdoutFormat::Json => tracing_subscriber::fmt::layer().json().boxed(),
    }
}

fn nothing_to_check() {}

#[test]
fn init_with_no_pillars_works() {
    assert_eq!(run(test_builder(), nothing_to_check), vec![]);
}

#[test]
fn init_with_only_logs_grpc_works() {
    let actions = run(test_builder().with_logs(fake_grpc()), nothing_to_check);
    assert_eq!(actions, vec![ShutdownAction::ShutdownLogs]);
}

#[test]
fn init_with_only_logs_http_works() {
    let actions = run(test_builder().with_logs(fake_http()), nothing_to_check);
    assert_eq!(actions, vec![ShutdownAction::ShutdownLogs]);
}

#[test]
fn init_with_all_pillars_sets_global_meter_provider() {
    let cfg = fake_grpc();
    let builder = test_builder()
        .with_logs(cfg.clone())
        .with_traces(cfg.clone(), all_traces())
        .with_metrics(cfg.clone(), Duration::from_secs(15))
        .with_profiling(ProfilingConfig {
            endpoint: "http://127.0.0.1:1".to_string(),
            sample_rate_hz: 100,
            auth_token: None,
            basic_auth: None,
        });
    let actions = run(builder, || {
        // The global meter provider yields a meter that counters can be built on.
        let meter = opentelemetry::global::meter("test");
        let _counter = meter.u64_counter("test_counter").build();
    });
    assert_eq!(
        actions,
        vec![
            ShutdownAction::StopProfiler,
            ShutdownAction::ShutdownProfiler,
            ShutdownAction::ShutdownLogs,
            ShutdownAction::ShutdownTraces,
            ShutdownAction::ShutdownMetrics,
        ]
    );
}

#[test]
fn init_with_mixed_protocols_works() {
    // Logs over HTTP, traces over gRPC, metrics over HTTP.
    let builder = test_builder()
        .with_logs(fake_http())
        .with_traces(fake_grpc(), all_traces())
        .with_metrics(fake_http(), Duration::from_secs(15));
    assert_eq!(
        run(builder, nothing_to_check),
        vec![
            ShutdownAction::ShutdownLogs,
            ShutdownAction::ShutdownTraces,
            ShutdownAction::ShutdownMetrics,
        ]
    );
}

#[test]
fn init_with_auth_headers_works() {
    let mut headers = HashMap::new();
    headers.insert("authorization".to_string(), "Bearer test-token".to_string());
    let cfg = OtlpConfig {
        endpoint: "http://127.0.0.1:1".to_string(),
        protocol: Protocol::Grpc,
        headers,
    };
    let builder = test_builder().with_logs(cfg.clone()).with_traces(cfg, all_traces());
    assert_eq!(
        run(builder, nothing_to_check),
        vec![ShutdownAction::ShutdownLogs, ShutdownAction::ShutdownTraces]
    );
}

#[test]
fn init_twice_in_one_process_works() {
    assert_eq!(run(test_builder(), nothing_to_check), vec![]);
    assert_eq!(run(test_builder(), nothing_to_check), vec![]);
}

#[test]
fn init_with_every_log_format_works() {
    for format in [LogFormat::Compact, LogFormat::Json, LogFormat::Off, LogFormat::Pretty] {
        let builder = test_builder().log_format(format).with_logs(fake_http());
        assert_eq!(run(builder, nothing_to_check), vec![ShutdownAction::ShutdownLogs]);
    }
}

#[test]
fn init_with_headers_that_cannot_be_sent_works() {
    let mut cfg = fake_grpc();
    cfg.headers.insert("authorization".to_string(), "Bearer test-token".to_string());
    for i in 0..7000 {
        cfg.headers.insert(format!("not sent {i}"), "v".to_string());
    }
    let builder = test_builder().with_logs(cfg);
    assert!(builder.fits());
    assert_eq!(run(builder, nothing_to_check), vec![ShutdownAction::ShutdownLogs]);
}
