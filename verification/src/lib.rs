//! Telemetry setup for services: logs, traces, metrics and CPU profiles.

pub mod builder;
pub mod config;
pub mod guard;
pub mod metadata;
pub mod resource;
pub mod setup;
pub mod text;

pub use crate::builder::Builder;
pub use crate::config::{LogFormat, OtlpConfig, ProfilingConfig, Protocol, SampleRate};
pub use crate::guard::{Guard, ShutdownAction};
pub use crate::setup::{Part, Profiler, Setup, StdoutFormat, Step, SubscriberLayer, Transport};
