//! The guard: what runs, and how it is shut down.

use vstd::prelude::*;

verus! {

/// How far the profiler is.
#[derive(Clone, Copy, Debug, PartialEq, Eq, Structural)]
pub enum ProfilerState {
    /// There is none, or it is gone.
    Absent,
    /// It takes samples.
    Running,
    /// It has been told to stop, and what came of it is not known.
    Stopping,
    /// It has stopped and can be shut down.
    Stopped,
}

/// One thing to do while telemetry is shut down.
#[derive(Clone, Copy, Debug, PartialEq, Eq, Structural)]
pub enum ShutdownAction {
    /// Stop the profiler, which flushes its last samples, and tell
    /// [`Guard::profiler_stopped`] how that went.
    StopProfiler,
    /// Shut the stopped profiler down.
    ShutdownProfiler,
    /// Flush the log pipeline and shut it down. Whether that works does not matter.
    ShutdownLogs,
    /// Flush the trace pipeline and shut it down. Whether that works does not matter.
    ShutdownTraces,
    /// Flush the metric pipeline and shut it down. Whether that works does not matter.
    ShutdownMetrics,
}

/// The record of what runs. When telemetry ends, [`Guard::next_shutdown`] says what to
/// do, one action at a time.
pub struct Guard {
    profiler: ProfilerState,
    logs: bool,
    traces: bool,
    metrics: bool,
}

/// What a [`Guard`] records.
pub struct GuardView {
    pub profiler: ProfilerState,
    pub logs: bool,
    pub traces: bool,
    pub metrics: bool,
}

impl View for Guard {
    type V = GuardView;

    closed spec fn view(&self) -> GuardView {
        GuardView {
            profiler: self.profiler,
            logs: self.logs,
            traces: self.traces,
            metrics: self.metrics,
        }
    }
}

impl GuardView {
    /// Nothing runs.
    pub open spec fn nothing() -> GuardView {
        GuardView {
            profiler: ProfilerState::Absent,
            logs: false,
            traces: false,
            metrics: false,
        }
    }

    /// What is to be done first of all that is left to shut down.
    pub open spec fn next_action(self) -> Option<ShutdownAction> {
        if self.profiler is Running {
            Some(ShutdownAction::StopProfiler)
        } else if self.profiler is Stopped {
            Some(ShutdownAction::ShutdownProfiler)
        } else if self.logs {
            Some(ShutdownAction::ShutdownLogs)
        } else if self.traces {
            Some(ShutdownAction::ShutdownTraces)
        } else if self.metrics {
            Some(ShutdownAction::ShutdownMetrics)
        } else {
            None
        }
    }

    /// What is recorded once `action` is under way.
    pub open spec fn after(self, action: ShutdownAction) -> GuardView {
        match action {
            ShutdownAction::StopProfiler => GuardView { profiler: ProfilerState::Stopping, ..self },
            ShutdownAction::ShutdownProfiler => GuardView {
                profiler: ProfilerState::Absent,
                ..self
            },
            ShutdownAction::ShutdownLogs => GuardView { logs: false, ..self },
            ShutdownAction::ShutdownTraces => GuardView { traces: false, ..self },
            ShutdownAction::ShutdownMetrics => GuardView { metrics: false, ..self },
        }
    }

    /// What is recorded once it is known how stopping the profiler went. One that did
    /// not stop is let go as it is.
    pub open spec fn stopped(self, stopped: bool) -> GuardView {
        if self.profiler is Stopping {
            GuardView {
                profiler: if stopped {
                    ProfilerState::Stopped
                } else {
                    ProfilerState::Absent
                },
                ..self
            }
        } else {
            self
        }
    }

    /// How much is left to do, at most.
    pub open spec fn work(self) -> nat {
        let profiler: nat = match self.profiler {
            ProfilerState::Absent => 0,
            ProfilerState::Running => 3,
            ProfilerState::Stopping => 2,
            ProfilerState::Stopped => 1,
        };
        profiler + (if self.logs {
            1nat
        } else {
            0nat
        }) + (if self.traces {
            1nat
        } else {
            0nat
        }) + (if self.metrics {
            1nat
        } else {
            0nat
        })
    }

    /// All that is done from here on to shut down, where stopping the profiler works
    /// or not as `stops` says.
    pub open spec fn shutdown(self, stops: bool) -> Seq<ShutdownAction>
        decreases self.work(),
    {
        match self.next_action() {
            None => seq![],
            Some(action) => {
                let next = self.after(action);
                let next = if action is StopProfiler {
                    next.stopped(stops)
                } else {
                    next
                };
                seq![action] + next.shutdown(stops)
            },
        }
    }
}

impl Guard {
    /// A guard of nothing.
    pub(crate) fn nothing() -> (guard: Self)
        ensures
            guard@ == GuardView::nothing(),
    {
        Guard { profiler: ProfilerState::Absent, logs: false, traces: false, metrics: false }
    }

    /// Records that the log pipeline runs.
    pub(crate) fn logs_started(&mut self)
        ensures
            final(self)@ == (GuardView { logs: true, ..old(self)@ }),
    {
        self.logs = true;
    }

    /// Records that the trace pipeline runs.
    pub(crate) fn traces_started(&mut self)
        ensures
            final(self)@ == (GuardView { traces: true, ..old(self)@ }),
    {
        self.traces = true;
    }

    /// Records that the metric pipeline runs.
    pub(crate) fn metrics_started(&mut self)
        ensures
            final(self)@ == (GuardView { metrics: true, ..old(self)@ }),
    {
        self.metrics = true;
    }

    /// Records that the profiler runs.
    pub(crate) fn profiler_started(&mut self)
        ensures
            final(self)@ == (GuardView { profiler: ProfilerState::Running, ..old(self)@ }),
    {
        self.profiler = ProfilerState::Running;
    }

    /// What to do next to shut telemetry down, and `None` where all is done: the
    /// profiler first, then logs, traces and metrics, each of them only if it runs.
    pub fn next_shutdown(&mut self) -> (action: Option<ShutdownAction>)
        ensures
            action == old(self)@.next_action(),
            final(self)@ == (match action {
                Some(action) => old(self)@.after(action),
                None => old(self)@,
            }),
    {
        if self.profiler == ProfilerState::Running {
            self.profiler = ProfilerState::Stopping;
            Some(ShutdownAction::StopProfiler)
        } else if self.profiler == ProfilerState::Stopped {
            self.profiler = ProfilerState::Absent;
            Some(ShutdownAction::ShutdownProfiler)
        } else if self.logs {
            self.logs = false;
            Some(ShutdownAction::ShutdownLogs)
        } else if self.traces {
            self.traces = false;
            Some(ShutdownAction::ShutdownTraces)
        } else if self.metrics {
            self.metrics = false;
            Some(ShutdownAction::ShutdownMetrics)
        } else {
            None
        }
    }

    /// Takes in whether stopping the profiler worked. Only a profiler that stopped is
    /// shut down.
    pub fn profiler_stopped(&mut self, stopped: bool)
        ensures
            final(self)@ == old(self)@.stopped(stopped),
    {
        if self.profiler == ProfilerState::Stopping {
            self.profiler = if stopped {
                ProfilerState::Stopped
            } else {
                ProfilerState::Absent
            };
        }
    }
}

/// Shutting down flushes the profiler, then logs, then traces, then metrics: each that
/// runs once, and nothing that does not run. The profiler is shut down where it
/// stopped, and whether it did changes nothing for the others.
pub proof fn law_shutdown_order(guard: GuardView, stops: bool)
    requires
        guard.profiler is Absent || guard.profiler is Running,
    ensures
        guard.shutdown(stops) == (if guard.profiler is Running {
            seq![ShutdownAction::StopProfiler]
        } else {
            seq![]
        }) + (if guard.profiler is Running && stops {
            seq![ShutdownAction::ShutdownProfiler]
        } else {
            seq![]
        }) + (if guard.logs {
            seq![ShutdownAction::ShutdownLogs]
        } else {
            seq![]
        }) + (if guard.traces {
            seq![ShutdownAction::ShutdownTraces]
        } else {
            seq![]
        }) + (if guard.metrics {
            seq![ShutdownAction::ShutdownMetrics]
        } else {
            seq![]
        }),
{
    reveal_with_fuel(GuardView::shutdown, 6);
}

/// A guard that has nothing left to do holds nothing that runs.
pub proof fn law_shutdown_is_complete(guard: GuardView)
    requires
        guard.next_action() is None,
    ensures
        !guard.logs,
        !guard.traces,
        !guard.metrics,
        guard.profiler !is Running,
        guard.profiler !is Stopped,
{
}

/// What is shut down next is told by what runs: a running profiler is stopped before all
/// else, one that stopped is shut down next, and of the pipelines logs go before traces
/// and traces before metrics.
pub proof fn law_what_is_shut_down_next(guard: GuardView)
    ensures
        guard.next_action() == Some(ShutdownAction::StopProfiler) <==> guard.profiler is Running,
        guard.next_action() == Some(ShutdownAction::ShutdownProfiler)
            <==> guard.profiler is Stopped,
        guard.profiler is Absent || guard.profiler is Stopping ==> {
            &&& guard.next_action() == Some(ShutdownAction::ShutdownLogs) <==> guard.logs
            &&& guard.next_action() == Some(ShutdownAction::ShutdownTraces) <==> guard.traces
                && !guard.logs
            &&& guard.next_action() == Some(ShutdownAction::ShutdownMetrics) <==> guard.metrics
                && !guard.logs && !guard.traces
            &&& guard.next_action() is None <==> !guard.logs && !guard.traces && !guard.metrics
        },
{
}

/// An action ends that which it is about, and leaves all else as it was. A profiler that is
/// told to stop is neither running nor stopped until it is known how that went.
pub proof fn law_an_action_ends_its_part_only(guard: GuardView, action: ShutdownAction)
    ensures
        guard.after(action).logs <==> guard.logs && action !is ShutdownLogs,
        guard.after(action).traces <==> guard.traces && action !is ShutdownTraces,
        guard.after(action).metrics <==> guard.metrics && action !is ShutdownMetrics,
        action is StopProfiler ==> guard.after(action).profiler is Stopping,
        action is ShutdownProfiler ==> guard.after(action).profiler is Absent,
        action !is StopProfiler && action !is ShutdownProfiler ==> guard.after(action).profiler
            == guard.profiler,
{
}

/// A profiler that was told to stop can be shut down just where it did stop, and is let go
/// where it did not. The report of a stop that nobody asked for changes nothing, and none
/// changes a pipeline.
pub proof fn law_only_a_stopped_profiler_is_shut_down(guard: GuardView, stopped: bool)
    ensures
        guard.profiler is Stopping && stopped ==> guard.stopped(stopped).profiler is Stopped,
        guard.profiler is Stopping && !stopped ==> guard.stopped(stopped).profiler is Absent,
        guard.profiler !is Stopping ==> guard.stopped(stopped).profiler == guard.profiler,
        guard.stopped(stopped).logs == guard.logs,
        guard.stopped(stopped).traces == guard.traces,
        guard.stopped(stopped).metrics == guard.metrics,
{
}

/// Shutting down is taking the next action, and shutting down what is left after it.
pub proof fn law_shutdown_goes_action_by_action(guard: GuardView, stops: bool)
    ensures
        guard.next_action() is None ==> guard.shutdown(stops).len() == 0,
        guard.next_action() matches Some(action) ==> guard.shutdown(stops) == seq![action] + (
        if action is StopProfiler {
            guard.after(action).stopped(stops)
        } else {
            guard.after(action)
        }).shutdown(stops),
{
}

/// Where nothing runs, there is no profiler and no pipeline.
pub proof fn law_nothing_runs()
    ensures
        GuardView::nothing().profiler is Absent,
        !GuardView::nothing().logs,
        !GuardView::nothing().traces,
        !GuardView::nothing().metrics,
{
}

} // verus!
