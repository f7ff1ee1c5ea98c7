//! The setup: what a builder asks to be started, step by step.

use crate::builder::BuilderView;
use crate::config::{LogFormat, OtlpConfig, OtlpView, ProfilingConfig, Protocol, SampleRate};
use crate::guard::{law_shutdown_order, Guard, GuardView, ProfilerState, ShutdownAction};
use crate::metadata::{carries, headers_to_metadata};
use crate::resource::resource_attributes;
use opentelemetry_sdk::Resource;
use std::collections::{HashMap, VecDeque};
use std::time::Duration;
use tonic::metadata::MetadataMap;
use vstd::prelude::*;
use vstd::seq_lib::lemma_seq_concat_contains_all_elements;

verus! {

/// How an OTLP exporter reaches its backend.
pub enum Transport {
    /// Over gRPC, with metadata attached to every request.
    Grpc { endpoint: String, metadata: MetadataMap },
    /// Over HTTP, with headers attached to every request.
    Http { endpoint: String, headers: HashMap<String, String> },
}

impl Transport {
    /// Is this the transport that `config` asks for?
    pub open spec fn serves(self, config: OtlpView) -> bool {
        match self {
            Transport::Grpc { endpoint, metadata } => {
                &&& config.protocol is Grpc
                &&& endpoint@ == config.endpoint
                &&& carries(metadata, config.headers)
            },
            Transport::Http { endpoint, headers } => {
                &&& config.protocol is Http
                &&& endpoint@ == config.endpoint
                &&& headers@ == config.headers
            },
        }
    }

    /// The protocol of the transport.
    pub open spec fn spec_protocol(self) -> Protocol {
        match self {
            Transport::Grpc { .. } => Protocol::Grpc,
            Transport::Http { .. } => Protocol::Http,
        }
    }

    /// The transport that `config` asks for.
    pub fn new(config: OtlpConfig) -> (transport: Self)
        requires
            config@.fits(),
        ensures
            transport.serves(config@),
    {
        match config.protocol {
            Protocol::Grpc => {
                let metadata = headers_to_metadata(&config.headers);
                Transport::Grpc { endpoint: config.endpoint, metadata }
            },
            Protocol::Http => {
                Transport::Http { endpoint: config.endpoint, headers: config.headers }
            },
        }
    }

    /// The protocol of the transport.
    pub fn protocol(&self) -> (protocol: Protocol)
        ensures
            protocol == self.spec_protocol(),
    {
        match self {
            Transport::Grpc { .. } => Protocol::Grpc,
            Transport::Http { .. } => Protocol::Http,
        }
    }
}

/// A CPU profiler that is to be built.
pub struct Profiler {
    /// Where profiles are pushed to.
    pub endpoint: String,
    /// The name under which they are pushed.
    pub application_name: String,
    /// How often the CPU is sampled, in Hz.
    pub sample_rate_hz: u32,
    /// The tags of every profile: name and value.
    pub tags: Vec<(String, String)>,
    /// Bearer token.
    pub auth_token: Option<String>,
    /// User name and password.
    pub basic_auth: Option<(String, String)>,
}

impl Profiler {
    /// Is this the profiler that a builder asks for, where `config` is its profiling
    /// configuration?
    pub open spec fn serves(self, builder: BuilderView, config: ProfilingConfig) -> bool {
        &&& self.endpoint == config.endpoint
        &&& self.application_name@ == builder.service_name
        &&& self.sample_rate_hz == config.sample_rate_hz
        &&& tag_views(self.tags@) == profile_tags(builder)
        &&& self.auth_token == config.auth_token
        &&& self.basic_auth == config.basic_auth
    }
}

/// The text of a list of tags.
pub open spec fn tag_views(tags: Seq<(String, String)>) -> Seq<(Seq<char>, Seq<char>)> {
    tags.map_values(|tag: (String, String)| (tag.0@, tag.1@))
}

/// The tags of the profiles of a service.
pub open spec fn profile_tags(builder: BuilderView) -> Seq<(Seq<char>, Seq<char>)> {
    seq![
        ("service_name"@, builder.service_name),
        ("service_version"@, builder.service_version),
        ("deployment_environment"@, builder.deployment_environment),
        ("host_name"@, builder.host_name),
    ]
}

/// The resource attributes of a service, the same for all of its signals.
pub open spec fn service_attributes(builder: BuilderView) -> Map<Seq<char>, Option<Seq<char>>> {
    map![
        "service.name"@ => Some(builder.service_name),
        "service.version"@ => Some(builder.service_version),
        "deployment.environment"@ => Some(builder.deployment_environment),
    ]
}

/// A format of the stdout logger.
#[derive(Clone, Copy, Debug, PartialEq, Eq, Structural)]
pub enum StdoutFormat {
    /// Several coloured lines for each event.
    Pretty,
    /// One line for each event.
    Compact,
    /// One line of JSON for each event.
    Json,
}

/// The format of the stdout logger, `None` where there is to be no such logger.
pub open spec fn stdout_format(format: LogFormat) -> Option<StdoutFormat> {
    match format {
        LogFormat::Pretty => Some(StdoutFormat::Pretty),
        LogFormat::Compact => Some(StdoutFormat::Compact),
        LogFormat::Json => Some(StdoutFormat::Json),
        LogFormat::Off => None,
    }
}

/// A layer of the global subscriber.
#[derive(Clone, Copy, Debug, PartialEq, Eq, Structural)]
pub enum SubscriberLayer {
    /// The stdout logger.
    Stdout(StdoutFormat),
    /// The layer of the trace pipeline, which turns spans into OpenTelemetry spans.
    Traces,
    /// The layer of the log pipeline, which turns events into OpenTelemetry log records.
    Logs,
}

/// The layers of the subscriber above its filter, first to last: the stdout logger if
/// there is to be one, and those of the pipelines that are on. The trace layer comes
/// before the log layer, so that log records carry the ids of the active span.
pub open spec fn subscriber_layers(builder: BuilderView) -> Seq<SubscriberLayer> {
    (match stdout_format(builder.log_format) {
        Some(format) => seq![SubscriberLayer::Stdout(format)],
        None => seq![],
    }) + (if builder.traces is Some {
        seq![SubscriberLayer::Traces]
    } else {
        seq![]
    }) + (if builder.logs is Some {
        seq![SubscriberLayer::Logs]
    } else {
        seq![]
    })
}

/// One thing to start.
pub enum Step {
    /// Build a log exporter, and the log pipeline upon it.
    Logs { exporter: Transport },
    /// Build a span exporter, and the trace pipeline upon it, with a tracer of the given
    /// name.
    Traces { exporter: Transport, sample_rate: SampleRate, tracer: String },
    /// Build a metric exporter, and the metric pipeline upon it, and make that the global
    /// one.
    Metrics { exporter: Transport, export_interval: Duration },
    /// Build the profiler.
    BuildProfiler(Profiler),
    /// Start the profiler that was built.
    StartProfiler,
    /// Install the global subscriber: the filter, and the layers upon it, first to last.
    Subscriber { filter: String, layers: Vec<SubscriberLayer> },
}

/// What a step starts.
#[derive(Clone, Copy, Debug)]
pub enum Part {
    /// The log pipeline, over the given protocol.
    Logs(Protocol),
    /// The trace pipeline, over the given protocol.
    Traces(Protocol),
    /// The metric pipeline, over the given protocol.
    Metrics(Protocol),
    /// The profiler, not yet running.
    ProfilerBuilt,
    /// The running profiler.
    ProfilerStarted,
    /// The global subscriber.
    Subscriber,
}

impl Step {
    /// What the step starts.
    pub open spec fn spec_part(self) -> Part {
        match self {
            Step::Logs { exporter } => Part::Logs(exporter.spec_protocol()),
            Step::Traces { exporter, .. } => Part::Traces(exporter.spec_protocol()),
            Step::Metrics { exporter, .. } => Part::Metrics(exporter.spec_protocol()),
            Step::BuildProfiler(_) => Part::ProfilerBuilt,
            Step::StartProfiler => Part::ProfilerStarted,
            Step::Subscriber { .. } => Part::Subscriber,
        }
    }

    /// Is this a step of the kind that `builder` asks for, with all that it says of it?
    pub open spec fn serves(self, builder: BuilderView) -> bool {
        match self {
            Step::Logs { exporter } => {
                builder.logs matches Some(config) && exporter.serves(config@)
            },
            Step::Traces { exporter, sample_rate, tracer } => {
                &&& builder.traces matches Some((config, rate))
                &&& exporter.serves(config@)
                &&& sample_rate == rate
                &&& tracer@ == builder.service_name
            },
            Step::Metrics { exporter, export_interval } => {
                &&& builder.metrics matches Some((config, interval))
                &&& exporter.serves(config@)
                &&& export_interval == interval
            },
            Step::BuildProfiler(profiler) => {
                builder.profiling matches Some(config) && profiler.serves(builder, config)
            },
            Step::StartProfiler => builder.profiling is Some,
            Step::Subscriber { filter, layers } => {
                &&& filter@ == builder.log_filter
                &&& layers@ == subscriber_layers(builder)
            },
        }
    }

    /// What the step starts.
    pub fn part(&self) -> (part: Part)
        ensures
            part == self.spec_part(),
    {
        match self {
            Step::Logs { exporter } => Part::Logs(exporter.protocol()),
            Step::Traces { exporter, .. } => Part::Traces(exporter.protocol()),
            Step::Metrics { exporter, .. } => Part::Metrics(exporter.protocol()),
            Step::BuildProfiler(_) => Part::ProfilerBuilt,
            Step::StartProfiler => Part::ProfilerStarted,
            Step::Subscriber { .. } => Part::Subscriber,
        }
    }
}

/// What is started for logs: nothing where they are off.
pub open spec fn logs_parts(builder: BuilderView) -> Seq<Part> {
    match builder.logs {
        Some(config) => seq![Part::Logs(config.protocol)],
        None => seq![],
    }
}

/// What is started for traces: nothing where they are off.
pub open spec fn traces_parts(builder: BuilderView) -> Seq<Part> {
    match builder.traces {
        Some((config, _)) => seq![Part::Traces(config.protocol)],
        None => seq![],
    }
}

/// What is started for metrics: nothing where they are off.
pub open spec fn metrics_parts(builder: BuilderView) -> Seq<Part> {
    match builder.metrics {
        Some((config, _)) => seq![Part::Metrics(config.protocol)],
        None => seq![],
    }
}

/// What is started for profiles: nothing where they are off.
pub open spec fn profiler_parts(builder: BuilderView) -> Seq<Part> {
    match builder.profiling {
        Some(_) => seq![Part::ProfilerBuilt, Part::ProfilerStarted],
        None => seq![],
    }
}

/// What is started for a builder, in this order: logs, traces, metrics and profiles as
/// far as they are on, and the subscriber in any case.
pub open spec fn planned(builder: BuilderView) -> Seq<Part> {
    logs_parts(builder) + traces_parts(builder) + metrics_parts(builder) + profiler_parts(builder)
        + seq![Part::Subscriber]
}

/// What is started by a list of steps.
pub open spec fn parts_of(steps: Seq<Step>) -> Seq<Part> {
    steps.map_values(|step: Step| step.spec_part())
}

/// What runs once `part` has been started.
pub open spec fn with_part(running: GuardView, part: Part) -> GuardView {
    match part {
        Part::Logs(_) => GuardView { logs: true, ..running },
        Part::Traces(_) => GuardView { traces: true, ..running },
        Part::Metrics(_) => GuardView { metrics: true, ..running },
        Part::ProfilerBuilt => running,
        Part::ProfilerStarted => GuardView { profiler: ProfilerState::Running, ..running },
        Part::Subscriber => running,
    }
}

/// What runs once all of `parts` have been started.
pub open spec fn with_parts(running: GuardView, parts: Seq<Part>) -> GuardView
    decreases parts.len(),
{
    if parts.len() == 0 {
        running
    } else {
        with_part(with_parts(running, parts.drop_last()), parts.last())
    }
}

/// What is said where `part` could not be started, `None` where that is tolerated: a
/// subscriber that is already installed stays.
pub open spec fn failure(part: Part) -> Option<Seq<char>> {
    match part {
        Part::Logs(Protocol::Grpc) => Some("failed to build OTLP gRPC log exporter"@),
        Part::Logs(Protocol::Http) => Some("failed to build OTLP HTTP log exporter"@),
        Part::Traces(Protocol::Grpc) => Some("failed to build OTLP gRPC span exporter"@),
        Part::Traces(Protocol::Http) => Some("failed to build OTLP HTTP span exporter"@),
        Part::Metrics(Protocol::Grpc) => Some("failed to build OTLP gRPC metric exporter"@),
        Part::Metrics(Protocol::Http) => Some("failed to build OTLP HTTP metric exporter"@),
        Part::ProfilerBuilt => Some("failed to build Pyroscope agent"@),
        Part::ProfilerStarted => Some("failed to start Pyroscope agent"@),
        Part::Subscriber => None,
    }
}

/// A setup under way. [`Setup::next_step`] says what to start, [`Setup::report`] takes in
/// what came of it, and [`Setup::finish`] gives the guard of all that runs.
pub struct Setup {
    resource: Resource,
    pending: VecDeque<Step>,
    running: Guard,
}

impl Setup {
    /// The steps that are left, first to last.
    pub closed spec fn pending(self) -> Seq<Step> {
        self.pending@
    }

    /// What runs so far.
    pub closed spec fn running(self) -> GuardView {
        self.running@
    }

    /// The attributes of the resource.
    pub closed spec fn attributes(self) -> Map<Seq<char>, Option<Seq<char>>> {
        resource_attributes(self.resource)
    }

    /// A setup of `pending`, of which nothing runs yet.
    pub(crate) fn new(resource: Resource, pending: VecDeque<Step>) -> (setup: Self)
        ensures
            setup.pending() == pending@,
            setup.attributes() == resource_attributes(resource),
            setup.running() == GuardView::nothing(),
    {
        Setup { resource, pending, running: Guard::nothing() }
    }

    /// The resource, shared by all pipelines.
    pub fn resource(&self) -> (resource: &Resource)
        ensures
            resource_attributes(*resource) == self.attributes(),
    {
        &self.resource
    }

    /// Takes the next step to do, `None` where none is left.
    pub fn next_step(&mut self) -> (step: Option<Step>)
        ensures
            final(self).running() == old(self).running(),
            final(self).attributes() == old(self).attributes(),
            match step {
                Some(step) => old(self).pending() == seq![step] + final(self).pending(),
                None => old(self).pending().len() == 0 && final(self).pending().len() == 0,
            },
    {
        let ghost before = self.pending@;
        let step = self.pending.pop_front();
        assert(step matches Some(step) ==> before =~= seq![step] + self.pending@);
        step
    }

    /// Takes in whether a part has been started. Where it has not, and that is not
    /// tolerated, the setup has failed, with the message returned, and nothing more is
    /// to be started.
    pub fn report(&mut self, part: Part, started: bool) -> (result: Result<(), String>)
        ensures
            final(self).pending() == (if result is Err {
                Seq::<Step>::empty()
            } else {
                old(self).pending()
            }),
            final(self).attributes() == old(self).attributes(),
            final(self).running() == (if started {
                with_part(old(self).running(), part)
            } else {
                old(self).running()
            }),
            result is Err <==> !started && failure(part) is Some,
            result matches Err(message) ==> Some(message@) == failure(part),
    {
        if started {
            match part {
                Part::Logs(_) => self.running.logs_started(),
                Part::Traces(_) => self.running.traces_started(),
                Part::Metrics(_) => self.running.metrics_started(),
                Part::ProfilerBuilt => {},
                Part::ProfilerStarted => self.running.profiler_started(),
                Part::Subscriber => {},
            }
            return Ok(());
        }
        let message = match part {
            Part::Logs(Protocol::Grpc) => "failed to build OTLP gRPC log exporter",
            Part::Logs(Protocol::Http) => "failed to build OTLP HTTP log exporter",
            Part::Traces(Protocol::Grpc) => "failed to build OTLP gRPC span exporter",
            Part::Traces(Protocol::Http) => "failed to build OTLP HTTP span exporter",
            Part::Metrics(Protocol::Grpc) => "failed to build OTLP gRPC metric exporter",
            Part::Metrics(Protocol::Http) => "failed to build OTLP HTTP metric exporter",
            Part::ProfilerBuilt => "failed to build Pyroscope agent",
            Part::ProfilerStarted => "failed to start Pyroscope agent",
            Part::Subscriber => return Ok(()),
        };
        self.pending = VecDeque::new();
        Err(message.to_string())
    }

    /// The guard of all that runs.
    pub fn finish(self) -> (guard: Guard)
        ensures
            guard@ == self.running(),
    {
        self.running
    }
}

/// Does `steps` hold what `builder` asks for, all of it, in order, and nothing else?
pub open spec fn is_plan(builder: BuilderView, steps: Seq<Step>) -> bool {
    &&& parts_of(steps) == planned(builder)
    &&& forall|i: int| 0 <= i < steps.len() ==> (#[trigger] steps[i]).serves(builder)
}

/// Starting a list of parts and then another is starting both lists, joined.
proof fn lemma_with_parts_add(running: GuardView, first: Seq<Part>, second: Seq<Part>)
    ensures
        with_parts(running, first + second) == with_parts(with_parts(running, first), second),
    decreases second.len(),
{
    if second.len() == 0 {
        assert(first + second =~= first);
    } else {
        lemma_with_parts_add(running, first, second.drop_last());
        assert((first + second).drop_last() =~= first + second.drop_last());
        assert((first + second).last() == second.last());
    }
}

/// Parts can be started from the front: starting one and then the rest is starting them
/// all.
pub proof fn law_starting_goes_front_to_back(running: GuardView, part: Part, rest: Seq<Part>)
    ensures
        with_parts(running, seq![part] + rest) == with_parts(with_part(running, part), rest),
{
    reveal_with_fuel(with_parts, 2);
    lemma_with_parts_add(running, seq![part], rest);
}

/// What runs once all that `builder` asks for has been started: the pillars that are on,
/// and no other.
pub open spec fn enabled(builder: BuilderView) -> GuardView {
    GuardView {
        profiler: if builder.profiling is Some {
            ProfilerState::Running
        } else {
            ProfilerState::Absent
        },
        logs: builder.logs is Some,
        traces: builder.traces is Some,
        metrics: builder.metrics is Some,
    }
}

/// Once every step has worked, the guard is of exactly the pillars that are on.
pub proof fn law_guard_holds_what_is_on(builder: BuilderView)
    ensures
        with_parts(GuardView::nothing(), planned(builder)) == enabled(builder),
{
    reveal_with_fuel(with_parts, 3);
    let logs = logs_parts(builder);
    let traces = traces_parts(builder);
    let metrics = metrics_parts(builder);
    let profiler = profiler_parts(builder);
    let nothing = GuardView::nothing();
    lemma_with_parts_add(nothing, logs + traces + metrics + profiler, seq![Part::Subscriber]);
    lemma_with_parts_add(nothing, logs + traces + metrics, profiler);
    lemma_with_parts_add(nothing, logs + traces, metrics);
    lemma_with_parts_add(nothing, logs, traces);
}

/// Telemetry that was set up is shut down in this order: the profiler (stopped, and
/// then, if it did stop, shut down), logs, traces, metrics; of these exactly the ones
/// that are on.
pub proof fn law_what_is_on_is_shut_down(builder: BuilderView, stops: bool)
    ensures
        with_parts(GuardView::nothing(), planned(builder)).shutdown(stops)
            == (if builder.profiling is Some {
            if stops {
                seq![ShutdownAction::StopProfiler, ShutdownAction::ShutdownProfiler]
            } else {
                seq![ShutdownAction::StopProfiler]
            }
        } else {
            seq![]
        }) + (if builder.logs is Some {
            seq![ShutdownAction::ShutdownLogs]
        } else {
            seq![]
        }) + (if builder.traces is Some {
            seq![ShutdownAction::ShutdownTraces]
        } else {
            seq![]
        }) + (if builder.metrics is Some {
            seq![ShutdownAction::ShutdownMetrics]
        } else {
            seq![]
        }),
{
    law_guard_holds_what_is_on(builder);
    law_shutdown_order(enabled(builder), stops);
}

/// Does `builder` ask for `part`? For that of a pillar just where the pillar is on, over
/// its own protocol, whatever the others are; for the subscriber in any case.
pub open spec fn asked_for(builder: BuilderView, part: Part) -> bool {
    match part {
        Part::Logs(protocol) => builder.logs matches Some(config) && config.protocol == protocol,
        Part::Traces(protocol) => builder.traces matches Some((config, _)) && config.protocol
            == protocol,
        Part::Metrics(protocol) => builder.metrics matches Some((config, _)) && config.protocol
            == protocol,
        Part::ProfilerBuilt => builder.profiling is Some,
        Part::ProfilerStarted => builder.profiling is Some,
        Part::Subscriber => true,
    }
}

/// A list of one part holds that part and no other.
proof fn lemma_single(only: Part, part: Part)
    ensures
        seq![only].contains(part) <==> part == only,
{
    assert(seq![only][0] == only);
}

/// Each pillar is started just where it is on, whatever the others are, and nothing is
/// started that the builder does not ask for.
pub proof fn law_pillars_are_independent(builder: BuilderView, part: Part)
    ensures
        planned(builder).contains(part) <==> asked_for(builder, part),
{
    let logs = logs_parts(builder);
    let traces = traces_parts(builder);
    let metrics = metrics_parts(builder);
    let profiler = profiler_parts(builder);
    let subscriber = seq![Part::Subscriber];
    assert(logs.contains(part) <==> part is Logs && asked_for(builder, part)) by {
        if let Some(config) = builder.logs {
            lemma_single(Part::Logs(config.protocol), part);
        }
    }
    assert(traces.contains(part) <==> part is Traces && asked_for(builder, part)) by {
        if let Some((config, _)) = builder.traces {
            lemma_single(Part::Traces(config.protocol), part);
        }
    }
    assert(metrics.contains(part) <==> part is Metrics && asked_for(builder, part)) by {
        if let Some((config, _)) = builder.metrics {
            lemma_single(Part::Metrics(config.protocol), part);
        }
    }
    assert(profiler.contains(part) <==> (part is ProfilerBuilt || part is ProfilerStarted)
        && asked_for(builder, part)) by {
        if builder.profiling is Some {
            assert(profiler[0] is ProfilerBuilt);
            assert(profiler[1] is ProfilerStarted);
        }
    }
    lemma_single(Part::Subscriber, part);
    lemma_seq_concat_contains_all_elements(logs, traces, part);
    lemma_seq_concat_contains_all_elements(logs + traces, metrics, part);
    lemma_seq_concat_contains_all_elements(logs + traces + metrics, profiler, part);
    lemma_seq_concat_contains_all_elements(logs + traces + metrics + profiler, subscriber, part);
}

/// The place of a part in the order in which things are started.
pub open spec fn rank(part: Part) -> int {
    match part {
        Part::Logs(_) => 0,
        Part::Traces(_) => 1,
        Part::Metrics(_) => 2,
        Part::ProfilerBuilt => 3,
        Part::ProfilerStarted => 4,
        Part::Subscriber => 5,
    }
}

/// Do the ranks of `parts` rise, and lie between `low` and `high`?
spec fn ranked(parts: Seq<Part>, low: int, high: int) -> bool {
    &&& forall|i: int| 0 <= i < parts.len() ==> low <= rank(#[trigger] parts[i]) < high
    &&& forall|i: int, j: int|
        0 <= i < j < parts.len() ==> rank(#[trigger] parts[i]) < rank(#[trigger] parts[j])
}

/// Joining two lists keeps the ranks rising where the second starts above the first.
proof fn lemma_ranked_add(first: Seq<Part>, second: Seq<Part>, mid: int, high: int)
    requires
        ranked(first, 0, mid),
        ranked(second, mid, high),
        0 <= mid <= high,
    ensures
        ranked(first + second, 0, high),
{
}

/// Things are started in a fixed order, each at most once: logs, traces, metrics, the
/// profiler (built, then started), and last the subscriber, which needs the layers of the
/// pipelines.
pub proof fn law_setup_order(builder: BuilderView)
    ensures
        forall|i: int, j: int|
            0 <= i < j < planned(builder).len() ==> rank(#[trigger] planned(builder)[i]) < rank(
                #[trigger] planned(builder)[j],
            ),
        planned(builder).last() is Subscriber,
{
    let logs = logs_parts(builder);
    let traces = traces_parts(builder);
    let metrics = metrics_parts(builder);
    let profiler = profiler_parts(builder);
    lemma_ranked_add(logs, traces, 1, 2);
    lemma_ranked_add(logs + traces, metrics, 2, 3);
    lemma_ranked_add(logs + traces + metrics, profiler, 3, 5);
    lemma_ranked_add(logs + traces + metrics + profiler, seq![Part::Subscriber], 5, 6);
}

/// The service goes by one name: that of the `service.name` attribute is the name of the
/// tracer, the application name of its profiles, and their `service_name` tag.
pub proof fn law_one_service_name(builder: BuilderView, steps: Seq<Step>, i: int)
    requires
        is_plan(builder, steps),
        0 <= i < steps.len(),
    ensures
        service_attributes(builder).contains_key("service.name"@),
        steps[i] matches Step::Traces { tracer, .. } ==> Some(tracer@)
            == service_attributes(builder)["service.name"@],
        steps[i] matches Step::BuildProfiler(profiler) ==> {
            let name = service_attributes(builder)["service.name"@];
            &&& Some(profiler.application_name@) == name
            &&& tag_views(profiler.tags@)[0].0 == "service_name"@
            &&& Some(tag_views(profiler.tags@)[0].1) == name
        },
{
    law_service_attributes(builder);
    assert(steps[i].serves(builder));
}

/// The resource tells name, version and environment of the service, and nothing else.
pub proof fn law_service_attributes(builder: BuilderView)
    ensures
        service_attributes(builder).dom() == set![
            "service.name"@,
            "service.version"@,
            "deployment.environment"@,
        ],
        service_attributes(builder)["service.name"@] == Some(builder.service_name),
        service_attributes(builder)["service.version"@] == Some(builder.service_version),
        service_attributes(builder)["deployment.environment"@] == Some(
            builder.deployment_environment,
        ),
{
    reveal_strlit("service.name");
    reveal_strlit("service.version");
    reveal_strlit("deployment.environment");
    assert("service.name"@.len() != "service.version"@.len());
    assert("service.name"@.len() != "deployment.environment"@.len());
    assert("service.version"@.len() != "deployment.environment"@.len());
    assert(service_attributes(builder).dom() =~= set![
        "service.name"@,
        "service.version"@,
        "deployment.environment"@,
    ]);
}

/// A subscriber that is already there is tolerated, so that telemetry can be set up twice
/// in one process; nothing else that fails to start is.
pub proof fn law_only_the_subscriber_may_fail(part: Part)
    ensures
        failure(part) is None <==> part is Subscriber,
{
}

/// The stdout logger depends on its format alone, not on which pillars are on: it is there
/// in that format, and absent just where the format is `Off`.
pub proof fn law_stdout_is_independent_of_export(builder: BuilderView, format: StdoutFormat)
    ensures
        subscriber_layers(builder).contains(SubscriberLayer::Stdout(format)) <==> stdout_format(
            builder.log_format,
        ) == Some(format),
        stdout_format(builder.log_format) is None <==> builder.log_format is Off,
{
    if stdout_format(builder.log_format) == Some(format) {
        assert(subscriber_layers(builder)[0] == SubscriberLayer::Stdout(format));
    }
}

/// The subscriber has a layer for traces and for logs just where they are on, and that for
/// traces comes first.
pub proof fn law_trace_layer_before_log_layer(builder: BuilderView)
    ensures
        subscriber_layers(builder).contains(SubscriberLayer::Traces) <==> builder.traces is Some,
        subscriber_layers(builder).contains(SubscriberLayer::Logs) <==> builder.logs is Some,
        forall|i: int, j: int|
            0 <= i < subscriber_layers(builder).len() && 0 <= j < subscriber_layers(builder).len()
                && (#[trigger] subscriber_layers(builder)[i]) is Traces && (
            #[trigger] subscriber_layers(builder)[j]) is Logs ==> i < j,
{
    let layers = subscriber_layers(builder);
    let stdout: int = if stdout_format(builder.log_format) is Some {
        1
    } else {
        0
    };
    if builder.traces is Some {
        assert(layers[stdout] is Traces);
    }
    if builder.logs is Some {
        assert(layers[layers.len() - 1] is Logs);
    }
}

/// The transport goes over the protocol that the configuration names, to its endpoint, with
/// its headers: over HTTP all of them as they are, over gRPC as metadata.
pub proof fn law_a_transport_is_as_configured(transport: Transport, config: OtlpConfig)
    ensures
        transport.serves(config@) <==> match transport {
            Transport::Grpc { endpoint, metadata } => {
                &&& config.protocol is Grpc
                &&& endpoint@ == config.endpoint@
                &&& carries(metadata, config.headers@)
            },
            Transport::Http { endpoint, headers } => {
                &&& config.protocol is Http
                &&& endpoint@ == config.endpoint@
                &&& headers@ == config.headers@
            },
        },
{
}

/// A plan starts what the builder has on, each once, and in this order: logs, traces,
/// metrics, the profiler (built, and right after that started), and last the subscriber.
/// It starts nothing else.
pub proof fn law_a_plan_starts_what_is_on(builder: BuilderView, steps: Seq<Step>)
    requires
        is_plan(builder, steps),
    ensures
        ({
            let logs: int = if builder.logs is Some { 1 } else { 0 };
            let traces: int = if builder.traces is Some { 1 } else { 0 };
            let metrics: int = if builder.metrics is Some { 1 } else { 0 };
            let profiler: int = if builder.profiling is Some { 2 } else { 0 };
            &&& steps.len() == logs + traces + metrics + profiler + 1
            &&& builder.logs is Some ==> steps[0] is Logs
            &&& builder.traces is Some ==> steps[logs] is Traces
            &&& builder.metrics is Some ==> steps[logs + traces] is Metrics
            &&& builder.profiling is Some ==> steps[logs + traces + metrics] is BuildProfiler
                && steps[logs + traces + metrics + 1] is StartProfiler
            &&& steps.last() is Subscriber
        }),
{
    let logs: int = if builder.logs is Some {
        1
    } else {
        0
    };
    let traces: int = if builder.traces is Some {
        1
    } else {
        0
    };
    let metrics: int = if builder.metrics is Some {
        1
    } else {
        0
    };
    assert(parts_of(steps).len() == steps.len());
    assert forall|i: int| 0 <= i < steps.len() implies #[trigger] steps[i].spec_part() == planned(
        builder,
    )[i] by {
        assert(parts_of(steps)[i] == steps[i].spec_part());
    }
    let last = steps.len() - 1;
    assert(steps[last].spec_part() is Subscriber);
    if builder.logs is Some {
        assert(steps[0].spec_part() is Logs);
    }
    if builder.traces is Some {
        assert(steps[logs].spec_part() is Traces);
    }
    if builder.metrics is Some {
        assert(steps[logs + traces].spec_part() is Metrics);
    }
    if builder.profiling is Some {
        assert(steps[logs + traces + metrics].spec_part() is ProfilerBuilt);
        assert(steps[logs + traces + metrics + 1].spec_part() is ProfilerStarted);
    }
}

/// Logs go to the endpoint given for logs, over the protocol given for logs, with the headers
/// given for logs, whatever the other pillars are given.
pub proof fn law_logs_go_where_they_were_told(builder: BuilderView, steps: Seq<Step>, i: int)
    requires
        is_plan(builder, steps),
        0 <= i < steps.len(),
        steps[i] is Logs,
    ensures
        builder.logs is Some,
        match steps[i]->Logs_exporter {
            Transport::Grpc { endpoint, metadata } => {
                &&& builder.logs->0.protocol is Grpc
                &&& endpoint@ == builder.logs->0.endpoint@
                &&& carries(metadata, builder.logs->0.headers@)
            },
            Transport::Http { endpoint, headers } => {
                &&& builder.logs->0.protocol is Http
                &&& endpoint@ == builder.logs->0.endpoint@
                &&& headers@ == builder.logs->0.headers@
            },
        },
{
    assert(steps[i].serves(builder));
}

/// Traces go to the endpoint given for traces, over the protocol given for traces, with the
/// headers given for traces. They are sampled at the rate given, whatever it is, by a tracer
/// with the name of the service.
pub proof fn law_traces_go_where_they_were_told(builder: BuilderView, steps: Seq<Step>, i: int)
    requires
        is_plan(builder, steps),
        0 <= i < steps.len(),
        steps[i] is Traces,
    ensures
        builder.traces is Some,
        steps[i]->sample_rate == (builder.traces->0).1,
        steps[i]->sample_rate.spec_bits() == (builder.traces->0).1.spec_bits(),
        steps[i]->tracer@ == builder.service_name,
        match steps[i]->Traces_exporter {
            Transport::Grpc { endpoint, metadata } => {
                &&& (builder.traces->0).0.protocol is Grpc
                &&& endpoint@ == (builder.traces->0).0.endpoint@
                &&& carries(metadata, (builder.traces->0).0.headers@)
            },
            Transport::Http { endpoint, headers } => {
                &&& (builder.traces->0).0.protocol is Http
                &&& endpoint@ == (builder.traces->0).0.endpoint@
                &&& headers@ == (builder.traces->0).0.headers@
            },
        },
{
    assert(steps[i].serves(builder));
}

/// Metrics go to the endpoint given for metrics, over the protocol given for metrics, with
/// the headers given for metrics, and at the interval given.
pub proof fn law_metrics_go_where_they_were_told(builder: BuilderView, steps: Seq<Step>, i: int)
    requires
        is_plan(builder, steps),
        0 <= i < steps.len(),
        steps[i] is Metrics,
    ensures
        builder.metrics is Some,
        steps[i]->export_interval == (builder.metrics->0).1,
        match steps[i]->Metrics_exporter {
            Transport::Grpc { endpoint, metadata } => {
                &&& (builder.metrics->0).0.protocol is Grpc
                &&& endpoint@ == (builder.metrics->0).0.endpoint@
                &&& carries(metadata, (builder.metrics->0).0.headers@)
            },
            Transport::Http { endpoint, headers } => {
                &&& (builder.metrics->0).0.protocol is Http
                &&& endpoint@ == (builder.metrics->0).0.endpoint@
                &&& headers@ == (builder.metrics->0).0.headers@
            },
        },
{
    assert(steps[i].serves(builder));
}

/// Profiles are taken at the rate given and pushed to the endpoint given. The token and the
/// user name with its password go along as they were given, each whatever the other is.
pub proof fn law_profiles_are_pushed_as_configured(
    builder: BuilderView,
    steps: Seq<Step>,
    i: int,
)
    requires
        is_plan(builder, steps),
        0 <= i < steps.len(),
        steps[i] is BuildProfiler,
    ensures
        builder.profiling is Some,
        (steps[i]->BuildProfiler_0).endpoint == (builder.profiling->0).endpoint,
        (steps[i]->BuildProfiler_0).sample_rate_hz == (builder.profiling->0).sample_rate_hz,
        (steps[i]->BuildProfiler_0).auth_token == (builder.profiling->0).auth_token,
        (steps[i]->BuildProfiler_0).basic_auth == (builder.profiling->0).basic_auth,
{
    assert(steps[i].serves(builder));
}

/// Profiles are pushed under the name of the service, and tagged with its name, its version,
/// its environment and its host, in this order, and with nothing else.
pub proof fn law_profiles_tell_whose_they_are(builder: BuilderView, steps: Seq<Step>, i: int)
    requires
        is_plan(builder, steps),
        0 <= i < steps.len(),
        steps[i] is BuildProfiler,
    ensures
        ({
            let profiler = steps[i]->BuildProfiler_0;
            &&& profiler.application_name@ == builder.service_name
            &&& profiler.tags@.len() == 4
            &&& profiler.tags@[0].0@ == "service_name"@
            &&& profiler.tags@[0].1@ == builder.service_name
            &&& profiler.tags@[1].0@ == "service_version"@
            &&& profiler.tags@[1].1@ == builder.service_version
            &&& profiler.tags@[2].0@ == "deployment_environment"@
            &&& profiler.tags@[2].1@ == builder.deployment_environment
            &&& profiler.tags@[3].0@ == "host_name"@
            &&& profiler.tags@[3].1@ == builder.host_name
        }),
{
    assert(steps[i].serves(builder));
    let tags = (steps[i]->BuildProfiler_0).tags@;
    assert(tag_views(tags).len() == tags.len());
    assert(tag_views(tags)[0] == (tags[0].0@, tags[0].1@));
    assert(tag_views(tags)[1] == (tags[1].0@, tags[1].1@));
    assert(tag_views(tags)[2] == (tags[2].0@, tags[2].1@));
    assert(tag_views(tags)[3] == (tags[3].0@, tags[3].1@));
}

/// The subscriber filters by the directives given. No layer is there twice. A stdout logger
/// is the first, and the only one of its kind, in the format given, and there is one just
/// where the format is not `Off`. The trace layer comes next, and the log layer last, each
/// just where its pillar is on.
pub proof fn law_the_subscriber_has_each_layer_once(
    builder: BuilderView,
    steps: Seq<Step>,
    i: int,
)
    requires
        is_plan(builder, steps),
        0 <= i < steps.len(),
        steps[i] is Subscriber,
    ensures
        ({
            let layers = steps[i]->layers@;
            let stdout: int = if builder.log_format is Off { 0 } else { 1 };
            let traces: int = if builder.traces is Some { 1 } else { 0 };
            let logs: int = if builder.logs is Some { 1 } else { 0 };
            &&& steps[i]->filter@ == builder.log_filter
            &&& layers.no_duplicates()
            &&& layers.len() == stdout + traces + logs
            &&& builder.log_format is Pretty ==> layers[0] == SubscriberLayer::Stdout(
                StdoutFormat::Pretty,
            )
            &&& builder.log_format is Compact ==> layers[0] == SubscriberLayer::Stdout(
                StdoutFormat::Compact,
            )
            &&& builder.log_format is Json ==> layers[0] == SubscriberLayer::Stdout(
                StdoutFormat::Json,
            )
            &&& forall|k: int|
                stdout <= k < layers.len() ==> (#[trigger] layers[k]) is Traces || layers[k] is Logs
            &&& builder.traces is Some ==> layers[stdout] is Traces
            &&& builder.logs is Some ==> layers[stdout + traces] is Logs
        }),
{
    assert(steps[i].serves(builder));
}

/// The layers that a builder asks for are distinct, and at most one of them is a stdout
/// logger, which comes first: no event is printed twice.
pub proof fn law_no_event_is_printed_twice(builder: BuilderView)
    ensures
        subscriber_layers(builder).no_duplicates(),
        forall|i: int|
            0 < i < subscriber_layers(builder).len() ==> (#[trigger] subscriber_layers(builder)[i])
                !is Stdout,
{
}

/// What prints depends on the format alone: the same format gives the same stdout logger,
/// whichever pillars are on.
pub proof fn law_what_prints_depends_on_the_format(builder: BuilderView, other: BuilderView)
    requires
        builder.log_format == other.log_format,
    ensures
        subscriber_layers(builder).filter(|layer: SubscriberLayer| layer is Stdout)
            == subscriber_layers(other).filter(|layer: SubscriberLayer| layer is Stdout),
{
    lemma_what_prints(builder);
    lemma_what_prints(other);
    assert(subscriber_layers(builder).filter(|layer: SubscriberLayer| layer is Stdout)
        == subscriber_layers(other).filter(|layer: SubscriberLayer| layer is Stdout));
}

/// A list of one layer prints as a whole or not at all.
proof fn lemma_one_layer_prints(layer: SubscriberLayer)
    ensures
        seq![layer].filter(|layer: SubscriberLayer| layer is Stdout) == (if layer is Stdout {
            seq![layer]
        } else {
            Seq::<SubscriberLayer>::empty()
        }),
{
    reveal_with_fuel(Seq::filter, 2);
    assert(seq![layer].drop_last() =~= Seq::<SubscriberLayer>::empty());
    assert(Seq::<SubscriberLayer>::empty().push(layer) =~= seq![layer]);
}

/// Of the layers that a builder asks for only the stdout logger prints.
proof fn lemma_what_prints(builder: BuilderView)
    ensures
        subscriber_layers(builder).filter(|layer: SubscriberLayer| layer is Stdout) == (
        match stdout_format(builder.log_format) {
            Some(format) => seq![SubscriberLayer::Stdout(format)],
            None => Seq::<SubscriberLayer>::empty(),
        }),
{
    let prints = |layer: SubscriberLayer| layer is Stdout;
    let stdout = match stdout_format(builder.log_format) {
        Some(format) => seq![SubscriberLayer::Stdout(format)],
        None => Seq::<SubscriberLayer>::empty(),
    };
    let traces = if builder.traces is Some {
        seq![SubscriberLayer::Traces]
    } else {
        Seq::<SubscriberLayer>::empty()
    };
    let logs = if builder.logs is Some {
        seq![SubscriberLayer::Logs]
    } else {
        Seq::<SubscriberLayer>::empty()
    };
    assert(subscriber_layers(builder) == stdout + traces + logs);
    Seq::filter_distributes_over_add(stdout + traces, logs, prints);
    Seq::filter_distributes_over_add(stdout, traces, prints);
    assert(Seq::<SubscriberLayer>::empty().filter(prints) == Seq::<SubscriberLayer>::empty()) by {
        reveal(Seq::filter);
    }
    if let Some(format) = stdout_format(builder.log_format) {
        lemma_one_layer_prints(SubscriberLayer::Stdout(format));
    }
    lemma_one_layer_prints(SubscriberLayer::Traces);
    lemma_one_layer_prints(SubscriberLayer::Logs);
    assert(traces.filter(prints) == Seq::<SubscriberLayer>::empty());
    assert(logs.filter(prints) == Seq::<SubscriberLayer>::empty());
    assert(stdout.filter(prints) == stdout);
    assert(stdout + Seq::<SubscriberLayer>::empty() + Seq::<SubscriberLayer>::empty() =~= stdout);
}

/// A format of the stdout logger is the format of that name, and `Off` is none.
pub proof fn law_formats_keep_their_names(format: LogFormat)
    ensures
        stdout_format(format) == Some(StdoutFormat::Pretty) <==> format is Pretty,
        stdout_format(format) == Some(StdoutFormat::Compact) <==> format is Compact,
        stdout_format(format) == Some(StdoutFormat::Json) <==> format is Json,
        stdout_format(format) is None <==> format is Off,
{
}

/// A step starts the part of its own pillar, over the protocol of its own exporter.
pub proof fn law_a_step_starts_its_own_part(step: Step)
    ensures
        step is Logs ==> step.spec_part() == Part::Logs(
            if step->Logs_exporter is Grpc {
                Protocol::Grpc
            } else {
                Protocol::Http
            },
        ),
        step is Traces ==> step.spec_part() == Part::Traces(
            if step->Traces_exporter is Grpc {
                Protocol::Grpc
            } else {
                Protocol::Http
            },
        ),
        step is Metrics ==> step.spec_part() == Part::Metrics(
            if step->Metrics_exporter is Grpc {
                Protocol::Grpc
            } else {
                Protocol::Http
            },
        ),
        step is BuildProfiler <==> step.spec_part() is ProfilerBuilt,
        step is StartProfiler <==> step.spec_part() is ProfilerStarted,
        step is Subscriber <==> step.spec_part() is Subscriber,
{
}

/// The protocol of a transport is the one that it goes over.
pub proof fn law_protocol_of_a_transport(transport: Transport)
    ensures
        transport.spec_protocol() is Grpc <==> transport is Grpc,
        transport.spec_protocol() is Http <==> transport is Http,
{
}

/// A part that has been started runs, and changes nothing of what else runs. A profiler runs
/// once it has been started, not once it has been built.
pub proof fn law_a_part_starts_only_itself(running: GuardView, part: Part)
    ensures
        with_part(running, part).logs <==> running.logs || part is Logs,
        with_part(running, part).traces <==> running.traces || part is Traces,
        with_part(running, part).metrics <==> running.metrics || part is Metrics,
        with_part(running, part).profiler == (if part is ProfilerStarted {
            ProfilerState::Running
        } else {
            running.profiler
        }),
{
}

/// Once every step of a plan has worked, there runs what the builder has on, and no more.
pub proof fn law_a_plan_ends_with_what_is_on(builder: BuilderView, steps: Seq<Step>)
    requires
        is_plan(builder, steps),
    ensures
        ({
            let parts = steps.map_values(|step: Step| step.spec_part());
            let running = with_parts(GuardView::nothing(), parts);
            &&& running.logs <==> builder.logs is Some
            &&& running.traces <==> builder.traces is Some
            &&& running.metrics <==> builder.metrics is Some
            &&& running.profiler is Running <==> builder.profiling is Some
            &&& running.profiler is Absent <==> builder.profiling is None
        }),
{
    law_guard_holds_what_is_on(builder);
    assert(parts_of(steps) =~= steps.map_values(|step: Step| step.spec_part()));
}

/// What is said of a failure names the pillar, and for an exporter the protocol.
pub proof fn law_failures_say_what_failed(part: Part)
    ensures
        part == Part::Logs(Protocol::Grpc) ==> failure(part) == Some(
            "failed to build OTLP gRPC log exporter"@,
        ),
        part == Part::Logs(Protocol::Http) ==> failure(part) == Some(
            "failed to build OTLP HTTP log exporter"@,
        ),
        part == Part::Traces(Protocol::Grpc) ==> failure(part) == Some(
            "failed to build OTLP gRPC span exporter"@,
        ),
        part == Part::Traces(Protocol::Http) ==> failure(part) == Some(
            "failed to build OTLP HTTP span exporter"@,
        ),
        part == Part::Metrics(Protocol::Grpc) ==> failure(part) == Some(
            "failed to build OTLP gRPC metric exporter"@,
        ),
        part == Part::Metrics(Protocol::Http) ==> failure(part) == Some(
            "failed to build OTLP HTTP metric exporter"@,
        ),
        part is ProfilerBuilt ==> failure(part) == Some("failed to build Pyroscope agent"@),
        part is ProfilerStarted ==> failure(part) == Some("failed to start Pyroscope agent"@),
{
}

} // verus!
