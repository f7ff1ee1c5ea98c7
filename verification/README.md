# rust_telemetry

Telemetry setup for Rust services: logs, traces and metrics over OTLP, and CPU profiles with
Pyroscope, behind one builder. Each pillar is on or off by itself and has its own endpoint,
protocol (gRPC or HTTP) and headers.

The library, in `src/`, is verified with Verus. It decides; it opens no connection:

- `config`: transports, log formats, profiling.
- `builder`: `Builder`. `Builder::init` begins a `Setup`.
- `setup`: `Setup`, the steps that start what the builder asks for, in order, and what a step
  that fails means.
- `guard`: `Guard`, what runs, and in which order it is shut down.
- `metadata`: gRPC metadata made from headers, with `tonic`'s `MetadataMap`.
- `resource`: the OpenTelemetry `Resource` that all signals share.
- `text`: what `impl Into<String>` arguments turn into.

`app/` runs a setup: it builds exporters and providers, starts the profiler, installs the global
subscriber, and shuts all of it down when its guard is dropped.

Sample rates are carried as the bits of a double (`SampleRate`); `app/` has `sample_rate` to make
one from an `f64`.

gRPC metadata holds a limited number of header names. Where a transport may have more than
`metadata::MAX_HEADERS` that can be sent, ask `Builder::fits` before `Builder::init`.
