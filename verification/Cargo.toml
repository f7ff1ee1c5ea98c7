[package]
name = "rust_telemetry"
version = "0.1.0"
edition = "2021"
publish = false

[dependencies]
opentelemetry = "=0.31.0"
opentelemetry_sdk = "=0.31.0"
opentelemetry-otlp = { version = "=0.31.1", features = ["grpc-tonic", "tls-webpki-roots", "reqwest-rustls-webpki-roots"] }
opentelemetry-appender-tracing = "=0.31.1"
tracing-opentelemetry = "=0.32.1"
tracing-subscriber = { version = "=0.3.23", features = ["env-filter", "json"] }
tonic = { version = "=0.14.9", default-features = false }
pyroscope = "=0.5.8"
pyroscope_pprofrs = "=0.2.10"

[dev-dependencies]
tokio = { version = "1", features = ["rt-multi-thread", "net", "time"] }
