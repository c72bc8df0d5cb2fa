//! The session manager: inputs, cached traces, and published telemetry.
use vstd::prelude::*;

use crate::inputs::{InputError, InputManager, SessionId};
use crate::logging::{DifferentialCategory, TimelyCategory};
use crate::plan::{Plan, PlanModel};
use crate::time::{check_advance, may_advance, Time, TimeRegression};
use crate::traces::{TraceId, TraceManager};

verus! {

broadcast use vstd::string::group_string_axioms;

/// The source name under which a category of execution telemetry is cached.
pub open spec fn timely_log_name(c: TimelyCategory) -> Seq<char> {
    match c {
        TimelyCategory::Operates => "logs/timely/operates"@,
        TimelyCategory::Channels => "logs/timely/channels"@,
        TimelyCategory::Schedule => "logs/timely/schedule"@,
        TimelyCategory::Messages => "logs/timely/messages"@,
    }
}

/// The source name under which a category of incremental-engine telemetry
/// is cached.
pub open spec fn differential_log_name(c: DifferentialCategory) -> Seq<char> {
    match c {
        DifferentialCategory::Batch => "logs/differential/arrange/batch"@,
        DifferentialCategory::Merge => "logs/differential/arrange/merge"@,
    }
}

/// The plan of the source named `name`.
fn source_named(name: &str) -> (r: Plan)
    ensures
        r@ == PlanModel::Source(name@),
{
    Plan::Source(name.to_string())
}

/// Manages inputs and traces.
pub struct Manager {
    /// Manages input sessions.
    pub inputs: InputManager,
    /// Manages maintained traces.
    pub traces: TraceManager,
}

impl Manager {
    /// Both parts are well formed and were advanced to the same time.
    pub open spec fn wf(&self) -> bool {
        self.inputs.wf() && self.traces.wf() && self.inputs.time() == self.traces.time()
    }

    /// The latest time the manager was advanced to, if any.
    pub open spec fn time(&self) -> Option<Time> {
        self.traces.time()
    }

    /// Creates a new empty manager.
    pub fn new() -> (r: Manager)
        ensures
            r.wf(),
            r.inputs.sessions() == Map::<Seq<char>, SessionId>::empty(),
            r.traces.unkeyed() == Map::<PlanModel, TraceId>::empty(),
            r.traces.keyed() == Map::<(PlanModel, Seq<usize>), TraceId>::empty(),
            r.time() is None,
    {
        Manager { inputs: InputManager::new(), traces: TraceManager::new() }
    }

    /// Clears the managed inputs and traces.
    pub fn shutdown(&mut self)
        requires
            old(self).wf(),
        ensures
            final(self).wf(),
            final(self).inputs.sessions() == Map::<Seq<char>, SessionId>::empty(),
            final(self).traces.unkeyed() == Map::<PlanModel, TraceId>::empty(),
            final(self).traces.keyed() == Map::<(PlanModel, Seq<usize>), TraceId>::empty(),
            final(self).time() == old(self).time(),
    {
        self.inputs.clear();
        self.traces.clear();
    }

    /// Registers the session `input` under `name` and caches its whole-record
    /// trace under the source plan of `name`. A name already in use is
    /// refused and nothing changes.
    pub fn insert_input(&mut self, name: String, input: SessionId, trace: TraceId) -> (r: Result<
        (),
        InputError,
    >)
        requires
            old(self).wf(),
        ensures
            final(self).wf(),
            final(self).time() == old(self).time(),
            r is Err <==> old(self).inputs.sessions().contains_key(name@),
            r is Err ==> final(self).inputs.sessions() == old(self).inputs.sessions()
                && final(self).traces.unkeyed() == old(self).traces.unkeyed(),
            r is Ok ==> final(self).inputs.sessions() == old(self).inputs.sessions().insert(
                name@,
                input,
            ) && final(self).traces.unkeyed() == old(self).traces.unkeyed().insert(
                PlanModel::Source(name@),
                trace,
            ),
            final(self).traces.keyed() == old(self).traces.keyed(),
    {
        let plan = Plan::source(name.clone());
        match self.inputs.register(name, input) {
            Ok(()) => {
                self.traces.set_unkeyed(&plan, trace);
                Ok(())
            },
            Err(e) => Err(e),
        }
    }

    /// Advances inputs and traces to `time`.
    pub fn advance_time(&mut self, time: Time)
        requires
            old(self).wf(),
            may_advance(old(self).time(), time),
        ensures
            final(self).wf(),
            final(self).time() == Some(time),
            final(self).inputs.sessions() == old(self).inputs.sessions(),
            final(self).traces.unkeyed() == old(self).traces.unkeyed(),
            final(self).traces.keyed() == old(self).traces.keyed(),
    {
        self.inputs.advance_time(time);
        self.traces.advance_time(time);
    }

    /// Advances inputs and traces to `time`, or refuses a time earlier than
    /// the last one and changes nothing.
    pub fn try_advance_time(&mut self, time: Time) -> (r: Result<(), TimeRegression>)
        requires
            old(self).wf(),
        ensures
            final(self).wf(),
            r is Ok <==> may_advance(old(self).time(), time),
            r is Ok ==> final(self).time() == Some(time),
            r matches Err(e) ==> old(self).time() == Some(e.last) && e.requested == time
                && final(self).time() == old(self).time(),
            final(self).inputs.sessions() == old(self).inputs.sessions(),
            final(self).traces.unkeyed() == old(self).traces.unkeyed(),
            final(self).traces.keyed() == old(self).traces.keyed(),
    {
        let r = check_advance(self.traces.current_time(), time);
        if r.is_ok() {
            self.advance_time(time);
        }
        r
    }

    /// Caches the traces of the four categories of execution telemetry under
    /// their source names.
    pub fn publish_timely_logging(
        &mut self,
        operates: TraceId,
        channels: TraceId,
        schedule: TraceId,
        messages: TraceId,
    )
        requires
            old(self).wf(),
        ensures
            final(self).wf(),
            final(self).traces.unkeyed() == old(self).traces.unkeyed().insert(
                PlanModel::Source(timely_log_name(TimelyCategory::Operates)),
                operates,
            ).insert(PlanModel::Source(timely_log_name(TimelyCategory::Channels)), channels).insert(
                PlanModel::Source(timely_log_name(TimelyCategory::Schedule)),
                schedule,
            ).insert(PlanModel::Source(timely_log_name(TimelyCategory::Messages)), messages),
            final(self).traces.keyed() == old(self).traces.keyed(),
            final(self).inputs == old(self).inputs,
            final(self).time() == old(self).time(),
    {
        self.traces.set_unkeyed(&source_named("logs/timely/operates"), operates);
        self.traces.set_unkeyed(&source_named("logs/timely/channels"), channels);
        self.traces.set_unkeyed(&source_named("logs/timely/schedule"), schedule);
        self.traces.set_unkeyed(&source_named("logs/timely/messages"), messages);
    }

    /// Caches the traces of the two categories of incremental-engine
    /// telemetry under their source names.
    pub fn publish_differential_logging(&mut self, batch: TraceId, merge: TraceId)
        requires
            old(self).wf(),
        ensures
            final(self).wf(),
            final(self).traces.unkeyed() == old(self).traces.unkeyed().insert(
                PlanModel::Source(differential_log_name(DifferentialCategory::Batch)),
                batch,
            ).insert(PlanModel::Source(differential_log_name(DifferentialCategory::Merge)), merge),
            final(self).traces.keyed() == old(self).traces.keyed(),
            final(self).inputs == old(self).inputs,
            final(self).time() == old(self).time(),
    {
        self.traces.set_unkeyed(&source_named("logs/differential/arrange/batch"), batch);
        self.traces.set_unkeyed(&source_named("logs/differential/arrange/merge"), merge);
    }
}

} // verus!
