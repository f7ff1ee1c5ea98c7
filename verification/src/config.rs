//! What a user configures: transports, formats, profiling.

use crate::metadata::{headers_fit, sent_names, MAX_HEADERS};
use std::collections::HashMap;
use vstd::prelude::*;

verus! {

/// Wire protocol of the OTLP transport. Backends differ in what they take:
/// - Tempo (Grafana Cloud): gRPC on port 443
/// - Loki, Mimir (Grafana Cloud): HTTP only
/// - Alloy, OpenTelemetry Collector: mostly gRPC on 4317 or HTTP on 4318
#[derive(Clone, Copy, Debug)]
pub enum Protocol {
    /// OTLP over gRPC (HTTP/2 and protobuf).
    Grpc,
    /// OTLP over HTTP/1.1 and protobuf.
    Http,
}

/// OTLP transport of one signal. Logs, traces and metrics each take their own, so
/// that they can go to different endpoints over different protocols.
pub struct OtlpConfig {
    /// The endpoint, such as `http://localhost:4317`. `https://` asks for TLS.
    pub endpoint: String,
    /// The wire protocol.
    pub protocol: Protocol,
    /// Headers attached to every request, such as `authorization`. No headers, no
    /// authentication.
    pub headers: HashMap<String, String>,
}

/// What an [`OtlpConfig`] says.
pub struct OtlpView {
    pub endpoint: Seq<char>,
    pub protocol: Protocol,
    pub headers: Map<String, String>,
}

impl View for OtlpConfig {
    type V = OtlpView;

    open spec fn view(&self) -> OtlpView {
        OtlpView {
            endpoint: self.endpoint@,
            protocol: self.protocol,
            headers: self.headers@,
        }
    }
}

impl OtlpView {
    /// Are the headers certain to fit into what the protocol sends them as? HTTP
    /// takes them as they are; gRPC metadata has a limit (see [`MAX_HEADERS`]), for which
    /// headers that are skipped do not count.
    pub open spec fn fits(self) -> bool {
        self.protocol is Grpc ==> sent_names(self.headers).len() <= MAX_HEADERS
    }
}

impl OtlpConfig {
    /// Are the headers certain to fit into what the protocol sends them as?
    pub fn fits(&self) -> (fits: bool)
        ensures
            fits == self@.fits(),
    {
        match self.protocol {
            Protocol::Grpc => headers_fit(&self.headers),
            Protocol::Http => true,
        }
    }
}

impl Clone for OtlpConfig {
    fn clone(&self) -> (copy: Self)
        ensures
            copy@ == self@,
            copy.endpoint@ == self.endpoint@,
            copy.protocol == self.protocol,
            copy.headers@ == self.headers@,
    {
        OtlpConfig {
            endpoint: self.endpoint.clone(),
            protocol: self.protocol,
            headers: self.headers.clone(),
        }
    }
}

/// Format of the stdout logger. The stdout logger has nothing to do with the export
/// of logs over OTLP: either, both or neither can be on.
#[derive(Clone, Copy, Debug)]
pub enum LogFormat {
    /// Several coloured lines for each event, for reading during development.
    Pretty,
    /// One line for each event, with `key=value` fields.
    Compact,
    /// One line of JSON for each event, for log shippers that scrape stdout.
    Json,
    /// No stdout logger.
    Off,
}

impl Default for LogFormat {
    fn default() -> (format: Self)
        ensures
            format is Pretty,
    {
        LogFormat::Pretty
    }
}

/// Configuration of the Pyroscope CPU profiler. Pyroscope has its own ways to
/// authenticate, so its configuration stands apart from [`OtlpConfig`].
pub struct ProfilingConfig {
    /// The push endpoint, such as `http://localhost:4040`.
    pub endpoint: String,
    /// How often the CPU is sampled, in Hz. 100 is usual.
    pub sample_rate_hz: u32,
    /// Bearer (JWT) token.
    pub auth_token: Option<String>,
    /// User name and password, for basic authentication.
    pub basic_auth: Option<(String, String)>,
}

/// The share of traces that are sampled, from 0.0 to 1.0, as the bits of an IEEE 754
/// double: nothing here computes with it, it is handed to the sampler as it came.
#[derive(Clone, Copy, Debug, PartialEq, Eq, Structural)]
pub struct SampleRate {
    bits: u64,
}

impl SampleRate {
    /// The bits of the rate.
    pub closed spec fn spec_bits(self) -> u64 {
        self.bits
    }

    /// The rate with the given bits.
    pub fn from_bits(bits: u64) -> (rate: Self)
        ensures
            rate.spec_bits() == bits,
    {
        SampleRate { bits }
    }

    /// The bits of the rate.
    pub fn to_bits(self) -> (bits: u64)
        ensures
            bits == self.spec_bits(),
    {
        self.bits
    }
}

/// A configuration says what its fields hold, and nothing is lost of it.
pub proof fn law_config_says_what_it_holds(config: OtlpConfig)
    ensures
        config@.endpoint == config.endpoint@,
        config@.protocol == config.protocol,
        config@.headers == config.headers@,
{
}

/// Over HTTP all headers fit. Over gRPC they fit just where the names to be sent are few
/// enough, and so wherever the headers are, whatever they say.
pub proof fn law_few_headers_fit(config: OtlpView)
    ensures
        config.protocol is Http ==> config.fits(),
        config.protocol is Grpc ==> (config.fits() <==> sent_names(config.headers).len() <= 6553),
        config.headers.dom().finite() && config.headers.len() <= 6553 ==> config.fits(),
{
    if config.headers.dom().finite() {
        let headers = config.headers;
        let can_send = |name: String| crate::metadata::sendable((name@, headers[name]@));
        let lower_case = |name: String| crate::metadata::lower(name@);
        let sent = headers.dom().filter(can_send);
        headers.dom().lemma_len_filter(can_send);
        vstd::set_lib::lemma_map_size_bound(sent, sent.map(lower_case), lower_case);
        assert(sent_names(headers) =~= sent.map(lower_case));
    }
}

} // verus!
