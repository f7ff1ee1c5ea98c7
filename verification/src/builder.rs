//! The builder: which pillars of telemetry are on, and under which identity.

use crate::config::{LogFormat, OtlpConfig, ProfilingConfig, SampleRate};
use crate::guard::GuardView;
use crate::metadata::carries;
use crate::resource::{attributes_of, resource_attributes, resource_with};
use crate::setup::{
    is_plan, law_logs_go_where_they_were_told, law_metrics_go_where_they_were_told,
    law_profiles_are_pushed_as_configured, law_profiles_tell_whose_they_are,
    law_service_attributes, law_traces_go_where_they_were_told, parts_of, planned, profile_tags,
    service_attributes, subscriber_layers, tag_views,
    Profiler, Setup, StdoutFormat, Step, SubscriberLayer, Transport,
};
use crate::text::turns_into;
use opentelemetry_sdk::Resource;
use std::collections::VecDeque;
use std::time::Duration;
use vstd::prelude::*;

verus! {

/// Builder of the telemetry setup. The identity fields have defaults. Each pillar
/// (logs, traces, metrics, profiling) is on only where its `with_*` method has been
/// called.
pub struct Builder {
    service_name: String,
    service_version: String,
    deployment_environment: String,
    host_name: String,
    log_filter: String,
    log_format: LogFormat,
    logs: Option<OtlpConfig>,
    traces: Option<(OtlpConfig, SampleRate)>,
    metrics: Option<(OtlpConfig, Duration)>,
    profiling: Option<ProfilingConfig>,
}

/// What a [`Builder`] has been told.
pub struct BuilderView {
    pub service_name: Seq<char>,
    pub service_version: Seq<char>,
    pub deployment_environment: Seq<char>,
    pub host_name: Seq<char>,
    pub log_filter: Seq<char>,
    pub log_format: LogFormat,
    pub logs: Option<OtlpConfig>,
    pub traces: Option<(OtlpConfig, SampleRate)>,
    pub metrics: Option<(OtlpConfig, Duration)>,
    pub profiling: Option<ProfilingConfig>,
}

impl View for Builder {
    type V = BuilderView;

    closed spec fn view(&self) -> BuilderView {
        BuilderView {
            service_name: self.service_name@,
            service_version: self.service_version@,
            deployment_environment: self.deployment_environment@,
            host_name: self.host_name@,
            log_filter: self.log_filter@,
            log_format: self.log_format,
            logs: self.logs,
            traces: self.traces,
            metrics: self.metrics,
            profiling: self.profiling,
        }
    }
}

/// What a builder starts from.
pub open spec fn defaults() -> BuilderView {
    BuilderView {
        service_name: "unknown-service"@,
        service_version: "0.0.0"@,
        deployment_environment: "local"@,
        host_name: "unknown"@,
        log_filter: "info"@,
        log_format: LogFormat::Pretty,
        logs: None,
        traces: None,
        metrics: None,
        profiling: None,
    }
}

impl Builder {
    /// A builder with the defaults and every pillar off.
    pub fn new() -> (builder: Self)
        ensures
            builder@ == defaults(),
    {
        Builder {
            service_name: "unknown-service".to_string(),
            service_version: "0.0.0".to_string(),
            deployment_environment: "local".to_string(),
            host_name: "unknown".to_string(),
            log_filter: "info".to_string(),
            log_format: LogFormat::default(),
            logs: None,
            traces: None,
            metrics: None,
            profiling: None,
        }
    }

    /// Sets the `service.name` resource attribute, which tells the service apart in
    /// every backend. Default `"unknown-service"`.
    pub fn service_name(self, v: impl Into<String>) -> (builder: Self)
        ensures
            turns_into(v, builder@.service_name),
            builder@ == (BuilderView { service_name: builder@.service_name, ..self@ }),
    {
        let mut builder = self;
        builder.service_name = v.into();
        builder
    }

    /// Sets the `service.version` resource attribute. Default `"0.0.0"`.
    pub fn service_version(self, v: impl Into<String>) -> (builder: Self)
        ensures
            turns_into(v, builder@.service_version),
            builder@ == (BuilderView { service_version: builder@.service_version, ..self@ }),
    {
        let mut builder = self;
        builder.service_version = v.into();
        builder
    }

    /// Sets the `deployment.environment` resource attribute, such as `"production"`.
    /// Default `"local"`.
    pub fn deployment_environment(self, v: impl Into<String>) -> (builder: Self)
        ensures
            turns_into(v, builder@.deployment_environment),
            builder@ == (BuilderView { deployment_environment: builder@.deployment_environment, ..self@ }),
    {
        let mut builder = self;
        builder.deployment_environment = v.into();
        builder
    }

    /// Sets the `host_name` tag of profiles: container, host, pod or instance. Default
    /// `"unknown"`.
    pub fn host_name(self, v: impl Into<String>) -> (builder: Self)
        ensures
            turns_into(v, builder@.host_name),
            builder@ == (BuilderView { host_name: builder@.host_name, ..self@ }),
    {
        let mut builder = self;
        builder.host_name = v.into();
        builder
    }

    /// Sets the filter directives of the subscriber, such as `"info,my_app=debug"`.
    /// Default `"info"`.
    pub fn log_filter(self, v: impl Into<String>) -> (builder: Self)
        ensures
            turns_into(v, builder@.log_filter),
            builder@ == (BuilderView { log_filter: builder@.log_filter, ..self@ }),
    {
        let mut builder = self;
        builder.log_filter = v.into();
        builder
    }

    /// Sets the format of the stdout logger. Default [`LogFormat::Pretty`].
    pub fn log_format(self, format: LogFormat) -> (builder: Self)
        ensures
            builder@ == (BuilderView { log_format: format, ..self@ }),
    {
        let mut builder = self;
        builder.log_format = format;
        builder
    }

    /// Turns the export of logs on, over the given transport.
    pub fn with_logs(self, config: OtlpConfig) -> (builder: Self)
        ensures
            builder@ == (BuilderView { logs: Some(config), ..self@ }),
    {
        let mut builder = self;
        builder.logs = Some(config);
        builder
    }

    /// Turns the export of traces on, over the given transport. Traces are sampled at
    /// their head: whether one is kept is decided when it begins.
    pub fn with_traces(self, config: OtlpConfig, sample_rate: SampleRate) -> (builder: Self)
        ensures
            builder@ == (BuilderView { traces: Some((config, sample_rate)), ..self@ }),
    {
        let mut builder = self;
        builder.traces = Some((config, sample_rate));
        builder
    }

    /// Turns the export of metrics on, over the given transport, with a batch every
    /// `export_interval`.
    pub fn with_metrics(self, config: OtlpConfig, export_interval: Duration) -> (builder: Self)
        ensures
            builder@ == (BuilderView { metrics: Some((config, export_interval)), ..self@ }),
    {
        let mut builder = self;
        builder.metrics = Some((config, export_interval));
        builder
    }

    /// Turns CPU profiling on.
    pub fn with_profiling(self, config: ProfilingConfig) -> (builder: Self)
        ensures
            builder@ == (BuilderView { profiling: Some(config), ..self@ }),
    {
        let mut builder = self;
        builder.profiling = Some(config);
        builder
    }
}

impl Default for Builder {
    fn default() -> (builder: Self)
        ensures
            builder@ == defaults(),
    {
        Builder::new()
    }
}

impl BuilderView {
    /// Do the headers of every transport fit into what its protocol sends them as?
    pub open spec fn fits(self) -> bool {
        &&& self.logs matches Some(config) ==> config@.fits()
        &&& self.traces matches Some((config, _)) ==> config@.fits()
        &&& self.metrics matches Some((config, _)) ==> config@.fits()
    }
}

impl Builder {
    /// Do the headers of every transport fit into what its protocol sends them as?
    pub fn fits(&self) -> (fits: bool)
        ensures
            fits == self@.fits(),
    {
        let logs = match &self.logs {
            Some(config) => config.fits(),
            None => true,
        };
        let traces = match &self.traces {
            Some((config, _)) => config.fits(),
            None => true,
        };
        let metrics = match &self.metrics {
            Some((config, _)) => config.fits(),
            None => true,
        };
        logs && traces && metrics
    }
}

impl Builder {
    /// The resource that all signals of the service carry.
    fn resource(&self) -> (resource: Resource)
        ensures
            resource_attributes(resource) == service_attributes(self@),
    {
        let attributes = vec![
            ("service.name".to_string(), self.service_name.clone()),
            ("service.version".to_string(), self.service_version.clone()),
            ("deployment.environment".to_string(), self.deployment_environment.clone()),
        ];
        proof {
            reveal_with_fuel(attributes_of, 4);
            let list = attributes@;
            assert(list.drop_last().drop_last().drop_last() =~= seq![]);
            assert(attributes_of(list) =~= service_attributes(self@));
        }
        resource_with(attributes)
    }

    /// The profiler of the service.
    fn profiler(&self, config: ProfilingConfig) -> (profiler: Profiler)
        ensures
            profiler.serves(self@, config),
    {
        let tags = vec![
            ("service_name".to_string(), self.service_name.clone()),
            ("service_version".to_string(), self.service_version.clone()),
            ("deployment_environment".to_string(), self.deployment_environment.clone()),
            ("host_name".to_string(), self.host_name.clone()),
        ];
        assert(tag_views(tags@) =~= profile_tags(self@));
        Profiler {
            endpoint: config.endpoint,
            application_name: self.service_name.clone(),
            sample_rate_hz: config.sample_rate_hz,
            tags,
            auth_token: config.auth_token,
            basic_auth: config.basic_auth,
        }
    }

    /// The layers of the subscriber.
    fn layers(&self) -> (layers: Vec<SubscriberLayer>)
        ensures
            layers@ == subscriber_layers(self@),
    {
        let mut layers: Vec<SubscriberLayer> = Vec::new();
        match self.log_format {
            LogFormat::Pretty => layers.push(SubscriberLayer::Stdout(StdoutFormat::Pretty)),
            LogFormat::Compact => layers.push(SubscriberLayer::Stdout(StdoutFormat::Compact)),
            LogFormat::Json => layers.push(SubscriberLayer::Stdout(StdoutFormat::Json)),
            LogFormat::Off => {},
        }
        if self.traces.is_some() {
            layers.push(SubscriberLayer::Traces);
        }
        if self.logs.is_some() {
            layers.push(SubscriberLayer::Logs);
        }
        assert(layers@ =~= subscriber_layers(self@));
        layers
    }

    /// Begins to set up all that the builder asks for.
    pub fn init(self) -> (setup: Setup)
        requires
            self@.fits(),
        ensures
            is_plan(self@, setup.pending()),
            setup.attributes() == service_attributes(self@),
            setup.running() == GuardView::nothing(),
    {
        let resource = self.resource();
        let layers = self.layers();
        let mut builder = self;
        let mut pending: VecDeque<Step> = VecDeque::new();
        if let Some(config) = builder.logs.take() {
            pending.push_back(Step::Logs { exporter: Transport::new(config) });
        }
        if let Some((config, sample_rate)) = builder.traces.take() {
            let tracer = builder.service_name.clone();
            let exporter = Transport::new(config);
            pending.push_back(Step::Traces { exporter, sample_rate, tracer });
        }
        if let Some((config, export_interval)) = builder.metrics.take() {
            let exporter = Transport::new(config);
            pending.push_back(Step::Metrics { exporter, export_interval });
        }
        if let Some(config) = builder.profiling.take() {
            pending.push_back(Step::BuildProfiler(builder.profiler(config)));
            pending.push_back(Step::StartProfiler);
        }
        pending.push_back(Step::Subscriber { filter: builder.log_filter, layers });
        assert(parts_of(pending@) =~= planned(self@));
        Setup::new(resource, pending)
    }
}

/// A builder that has been told nothing has these names and this filter, prints to stdout
/// in the pretty format, and has every pillar off.
pub proof fn law_defaults()
    ensures
        defaults().service_name == "unknown-service"@,
        defaults().service_version == "0.0.0"@,
        defaults().deployment_environment == "local"@,
        defaults().host_name == "unknown"@,
        defaults().log_filter == "info"@,
        defaults().log_format is Pretty,
        defaults().logs is None,
        defaults().traces is None,
        defaults().metrics is None,
        defaults().profiling is None,
{
}

/// A builder fits just where each transport that it was given fits by itself.
pub proof fn law_a_builder_fits_where_its_transports_do(builder: BuilderView)
    ensures
        builder.fits() <==> {
            &&& builder.logs is Some ==> builder.logs->0@.fits()
            &&& builder.traces is Some ==> (builder.traces->0).0@.fits()
            &&& builder.metrics is Some ==> (builder.metrics->0).0@.fits()
        },
{
}

/// The transport given to [`Builder::with_logs`] is the one that logs are exported over, once
/// the setup begins.
pub proof fn law_logs_are_exported_as_asked(
    builder: Builder,
    config: OtlpConfig,
    told: Builder,
    setup: Setup,
    i: int,
)
    requires
        call_ensures(Builder::with_logs, (builder, config), told),
        call_ensures(Builder::init, (told,), setup),
        0 <= i < setup.pending().len(),
        setup.pending()[i] is Logs,
    ensures
        match setup.pending()[i]->Logs_exporter {
            Transport::Grpc { endpoint, metadata } => {
                &&& config.protocol is Grpc
                &&& endpoint@ == config.endpoint@
                &&& carries(metadata, config.headers@)
            },
            Transport::Http { endpoint, headers } => {
                &&& config.protocol is Http
                &&& endpoint@ == config.endpoint@
                &&& headers@ == config.headers@
            },
        },
{
    law_logs_go_where_they_were_told(told@, setup.pending(), i);
}

/// The transport and the rate given to [`Builder::with_traces`] are those that traces are
/// exported over and sampled at, once the setup begins.
pub proof fn law_traces_are_exported_as_asked(
    builder: Builder,
    config: OtlpConfig,
    sample_rate: SampleRate,
    told: Builder,
    setup: Setup,
    i: int,
)
    requires
        call_ensures(Builder::with_traces, (builder, config, sample_rate), told),
        call_ensures(Builder::init, (told,), setup),
        0 <= i < setup.pending().len(),
        setup.pending()[i] is Traces,
    ensures
        setup.pending()[i]->sample_rate == sample_rate,
        setup.pending()[i]->tracer@ == builder@.service_name,
        match setup.pending()[i]->Traces_exporter {
            Transport::Grpc { endpoint, metadata } => {
                &&& config.protocol is Grpc
                &&& endpoint@ == config.endpoint@
                &&& carries(metadata, config.headers@)
            },
            Transport::Http { endpoint, headers } => {
                &&& config.protocol is Http
                &&& endpoint@ == config.endpoint@
                &&& headers@ == config.headers@
            },
        },
{
    law_traces_go_where_they_were_told(told@, setup.pending(), i);
}

/// The transport and the interval given to [`Builder::with_metrics`] are those that metrics
/// are exported over and at, once the setup begins.
pub proof fn law_metrics_are_exported_as_asked(
    builder: Builder,
    config: OtlpConfig,
    export_interval: Duration,
    told: Builder,
    setup: Setup,
    i: int,
)
    requires
        call_ensures(Builder::with_metrics, (builder, config, export_interval), told),
        call_ensures(Builder::init, (told,), setup),
        0 <= i < setup.pending().len(),
        setup.pending()[i] is Metrics,
    ensures
        setup.pending()[i]->export_interval == export_interval,
        match setup.pending()[i]->Metrics_exporter {
            Transport::Grpc { endpoint, metadata } => {
                &&& config.protocol is Grpc
                &&& endpoint@ == config.endpoint@
                &&& carries(metadata, config.headers@)
            },
            Transport::Http { endpoint, headers } => {
                &&& config.protocol is Http
                &&& endpoint@ == config.endpoint@
                &&& headers@ == config.headers@
            },
        },
{
    law_metrics_go_where_they_were_told(told@, setup.pending(), i);
}

/// What is given to [`Builder::with_profiling`] is what the profiler is built with, once the
/// setup begins.
pub proof fn law_profiles_are_taken_as_asked(
    builder: Builder,
    config: ProfilingConfig,
    told: Builder,
    setup: Setup,
    i: int,
)
    requires
        call_ensures(Builder::with_profiling, (builder, config), told),
        call_ensures(Builder::init, (told,), setup),
        0 <= i < setup.pending().len(),
        setup.pending()[i] is BuildProfiler,
    ensures
        (setup.pending()[i]->BuildProfiler_0).endpoint == config.endpoint,
        (setup.pending()[i]->BuildProfiler_0).sample_rate_hz == config.sample_rate_hz,
        (setup.pending()[i]->BuildProfiler_0).auth_token == config.auth_token,
        (setup.pending()[i]->BuildProfiler_0).basic_auth == config.basic_auth,
        (setup.pending()[i]->BuildProfiler_0).application_name@ == builder@.service_name,
{
    law_profiles_are_pushed_as_configured(told@, setup.pending(), i);
    law_profiles_tell_whose_they_are(told@, setup.pending(), i);
}

/// A pillar is turned on by its own method and by no other, and stays as it was given
/// whatever is asked of the builder besides.
pub proof fn law_each_method_sets_its_own_pillar(
    builder: Builder,
    config: OtlpConfig,
    sample_rate: SampleRate,
    export_interval: Duration,
    profiling: ProfilingConfig,
    format: LogFormat,
    told: Builder,
)
    ensures
        call_ensures(Builder::with_logs, (builder, config), told) ==> told@ == (BuilderView {
            logs: Some(config),
            ..builder@
        }),
        call_ensures(Builder::with_traces, (builder, config, sample_rate), told) ==> told@ == (
        BuilderView { traces: Some((config, sample_rate)), ..builder@ }),
        call_ensures(Builder::with_metrics, (builder, config, export_interval), told) ==> told@ == (
        BuilderView { metrics: Some((config, export_interval)), ..builder@ }),
        call_ensures(Builder::with_profiling, (builder, profiling), told) ==> told@ == (
        BuilderView { profiling: Some(profiling), ..builder@ }),
        call_ensures(Builder::log_format, (builder, format), told) ==> told@ == (BuilderView {
            log_format: format,
            ..builder@
        }),
{
}

/// A name, a version, an environment, a host and a filter given as text are kept as given,
/// and change nothing else.
pub proof fn law_each_method_sets_its_own_text(builder: Builder, text: String, told: Builder)
    ensures
        call_ensures(Builder::service_name, (builder, text), told) ==> told@ == (BuilderView {
            service_name: text@,
            ..builder@
        }),
        call_ensures(Builder::service_version, (builder, text), told) ==> told@ == (BuilderView {
            service_version: text@,
            ..builder@
        }),
        call_ensures(Builder::deployment_environment, (builder, text), told) ==> told@ == (
        BuilderView { deployment_environment: text@, ..builder@ }),
        call_ensures(Builder::host_name, (builder, text), told) ==> told@ == (BuilderView {
            host_name: text@,
            ..builder@
        }),
        call_ensures(Builder::log_filter, (builder, text), told) ==> told@ == (BuilderView {
            log_filter: text@,
            ..builder@
        }),
{
}

/// A setup begins with nothing running, with all that is on yet to be started, and with a
/// resource that tells the name, the version and the environment of the service.
pub proof fn law_a_setup_begins_with_all_to_do(builder: Builder, setup: Setup)
    requires
        call_ensures(Builder::init, (builder,), setup),
    ensures
        is_plan(builder@, setup.pending()),
        setup.running() == GuardView::nothing(),
        setup.attributes().dom() == set![
            "service.name"@,
            "service.version"@,
            "deployment.environment"@,
        ],
        setup.attributes()["service.name"@] == Some(builder@.service_name),
        setup.attributes()["service.version"@] == Some(builder@.service_version),
        setup.attributes()["deployment.environment"@] == Some(builder@.deployment_environment),
{
    law_service_attributes(builder@);
}

/// A new builder is one that has been told nothing.
pub proof fn law_a_new_builder_has_the_defaults(builder: Builder)
    requires
        call_ensures(Builder::new, (), builder),
    ensures
        builder@ == defaults(),
{
}

} // verus!
