//! The request handlers of the control service.
//!
//! The server holds at most one simulation with the registry of its
//! endpoints. Each handler judges a decoded request and says what is
//! replied. What only the embedding program can do (decoding a payload with
//! the type of an endpoint, running the tasks of a slice, reading a sink)
//! is handed to the handler as a plain value, handed back by it as work to
//! be done before the reply is sent, or judged afterwards by a function of
//! its own.
use vstd::prelude::*;
use crate::endpoints::EndpointRegistry;
use crate::key_registry::{KeyId, KeySlot};
use crate::rpc::codes::ErrorCode;
use crate::rpc::convert::{
    duration_of, invalid_time, invalid_time_text, is_positive, is_strictly_positive, monotonic_of,
    monotonic_to_timestamp, timestamp_of, timestamp_to_monotonic, to_positive_duration,
    to_strictly_positive_duration, wire_nanos,
};
use crate::rpc::messages::{
    failure, failure_naming, fails_with, AnyRequest, CancelEventReply, CancelEventRequest,
    CloseSinkReply, CloseSinkRequest, Deadline, EventKey, InitReply, InitRequest, OpenSinkReply,
    OpenSinkRequest, ProcessEventReply, ProcessEventRequest, ProcessQueryReply,
    ProcessQueryRequest, ReadEventsReply, ReadEventsRequest, ReplyError, ScheduleEventReply,
    ScheduleEventRequest, StepReply, StepRequest, StepUntilReply, StepUntilRequest, TimeReply,
    TimeRequest, Timestamp,
};
use crate::scheduler_queue::Entry;
use crate::sim_init::SimInit;
use crate::simulation::{Simulation, Slice, Task};
use crate::time::{Duration, MonotonicTime};

verus! {

/// The endpoints of a served simulation: every event source and query
/// source is known by the channel it sends to, every sink by its number.
pub type Registry = EndpointRegistry<usize, usize, usize>;

/// Where an advance of the simulation to a deadline stands.
pub enum Progress<A> {
    /// The advance is over, or was refused: the reply.
    Done(StepUntilReply),
    /// A slice has to be run. Then the advance goes on with
    /// [`GenericServer::resume_step_until`] and the same target.
    Run { slice: Slice<A>, target: MonotonicTime },
}

/// Text of the failure of a request that needs a simulation when none was
/// started.
pub open spec fn not_started() -> Seq<char> {
    "the simulation was not started"@
}

/// Text of the failure of a request whose final simulation time cannot be
/// written by the service.
pub open spec fn out_of_range() -> Seq<char> {
    "the final simulation time is out of range"@
}

/// Whether `reply` gives the simulation time `time`: as a time of the
/// service, or as a failure if the service cannot write it.
pub open spec fn reports_time(reply: Result<Timestamp, ReplyError>, time: MonotonicTime) -> bool {
    match timestamp_of(time) {
        Some(timestamp) => reply == Ok::<Timestamp, ReplyError>(timestamp),
        None => fails_with(reply, ErrorCode::SimulationTimeOutOfRange, out_of_range()),
    }
}

/// The time at which a simulation starts: the time asked for, the epoch if
/// none is.
pub open spec fn start_of(request: InitRequest) -> Timestamp {
    match request.time {
        Some(timestamp) => timestamp,
        None => Timestamp { seconds: 0, nanos: 0 },
    }
}

/// The key of an event as the service writes it.
pub open spec fn wire_key(id: KeyId) -> EventKey {
    EventKey { subkey1: id.index as u64, subkey2: id.generation }
}

/// The key of an event as the service writes it, if the event has one.
pub open spec fn wire_key_of(id: Option<KeyId>) -> Option<EventKey> {
    match id {
        Some(id) => Some(wire_key(id)),
        None => None,
    }
}

/// The time that a deadline names when the simulation time is `now`.
pub open spec fn deadline_time(deadline: Deadline, now: MonotonicTime) -> MonotonicTime {
    match deadline {
        Deadline::Time(timestamp) => monotonic_of(timestamp).unwrap(),
        Deadline::Duration(duration) => now.plus(duration_of(duration)),
    }
}

/// Builds the reply that gives the simulation time `time`.
pub fn time_reply(time: MonotonicTime) -> (reply: Result<Timestamp, ReplyError>)
    ensures
        reports_time(reply, time),
{
    match monotonic_to_timestamp(time) {
        Some(timestamp) => Ok(timestamp),
        None => Err(failure(ErrorCode::SimulationTimeOutOfRange, "the final simulation time is out of range")),
    }
}

/// Judges the outcome of the decoding of a request.
///
/// A message that could not be decoded and a message without a request are
/// answered with a failure. A decoded request is handed back for the
/// handler of its kind.
pub fn service_request(request: Result<Option<AnyRequest>, String>) -> (r: Result<AnyRequest, ReplyError>)
    ensures
        match request {
            Ok(Some(decoded)) => r == Ok::<AnyRequest, ReplyError>(decoded),
            Ok(None) => fails_with(r, ErrorCode::EmptyRequest, "the message did not contain any request"@),
            Err(why) => fails_with(r, ErrorCode::UnknownRequest, "bad request: "@ + why@),
        },
{
    match request {
        Ok(Some(decoded)) => Ok(decoded),
        Ok(None) => Err(failure(ErrorCode::EmptyRequest, "the message did not contain any request")),
        Err(why) => {
            let message = "bad request: ".to_owned().concat(why.as_str());
            Err(ReplyError { code: ErrorCode::UnknownRequest, message })
        },
    }
}

/// Judges what a query brought back once its task has run.
///
/// Without replies the query went nowhere; replies that could not be
/// encoded come with the name of their type.
pub fn query_replies(replies: Option<Result<Vec<Vec<u8>>, String>>) -> (reply: ProcessQueryReply)
    ensures
        match replies {
            Some(Ok(encoded)) => reply == Ok::<Vec<Vec<u8>>, ReplyError>(encoded),
            Some(Err(expected)) => fails_with(
                reply,
                ErrorCode::InvalidMessage,
                "the reply could not be serialized as type '"@ + expected@ + "'"@,
            ),
            None => fails_with(
                reply,
                ErrorCode::InternalError,
                "a reply to the query was expected but none was available"@,
            ),
        },
{
    match replies {
        Some(Ok(encoded)) => Ok(encoded),
        Some(Err(expected)) => Err(
            failure_naming(ErrorCode::InvalidMessage, "the reply could not be serialized as type '", &expected),
        ),
        None => Err(
            failure(ErrorCode::InternalError, "a reply to the query was expected but none was available"),
        ),
    }
}

/// Judges what a sink gave when it was read: its encoded events, or the
/// name of the type of an event that could not be encoded.
pub fn events_read(events: Result<Vec<Vec<u8>>, String>) -> (reply: ReadEventsReply)
    ensures
        match events {
            Ok(encoded) => reply == Ok::<Vec<Vec<u8>>, ReplyError>(encoded),
            Err(expected) => fails_with(
                reply,
                ErrorCode::InvalidMessage,
                "the event could not be serialized from type '"@ + expected@ + "'"@,
            ),
        },
{
    match events {
        Ok(encoded) => Ok(encoded),
        Err(expected) => Err(
            failure_naming(ErrorCode::InvalidMessage, "the event could not be serialized from type '", &expected),
        ),
    }
}

/// Transport-independent server of the control service.
pub struct GenericServer<A> {
    sim_context: Option<(Simulation<A>, Registry)>,
}

impl<A: Copy> GenericServer<A> {
    /// Whether a simulation was started.
    pub closed spec fn started(&self) -> bool {
        self.sim_context.is_some()
    }

    /// The simulation, if one was started.
    pub closed spec fn sim(&self) -> Simulation<A> {
        self.sim_context.unwrap().0
    }

    /// The registry of the endpoints of the simulation, if one was started.
    pub closed spec fn registry(&self) -> Registry {
        self.sim_context.unwrap().1
    }

    /// The simulation and the registry, if any, are well-formed.
    pub open spec fn wf(&self) -> bool {
        self.started() ==> self.sim().wf() && self.registry().wf()
    }

    /// Whether two servers hold the same simulation in the same state, or
    /// none.
    pub open spec fn same(self, other: Self) -> bool {
        &&& self.started() == other.started()
        &&& self.started() ==> self.sim() == other.sim() && self.registry() == other.registry()
    }

    /// Creates a server without a simulation.
    pub fn new() -> (s: Self)
        ensures
            !s.started(),
            s.wf(),
    {
        GenericServer { sim_context: None }
    }

    /// Whether a simulation was started.
    pub fn is_started(&self) -> (b: bool)
        ensures
            b == self.started(),
    {
        self.sim_context.is_some()
    }

    /// The simulation, if one was started.
    pub fn simulation(&self) -> (s: Option<&Simulation<A>>)
        ensures
            s.is_some() == self.started(),
            s matches Some(sim) ==> *sim == self.sim(),
    {
        match &self.sim_context {
            Some(context) => Some(&context.0),
            None => None,
        }
    }

    /// Starts a simulation on the bench `bench` at the time asked for, or at
    /// the epoch if none is asked for. A simulation that was running is
    /// replaced. A time that the simulation cannot hold is refused and
    /// nothing changes.
    pub fn init(&mut self, request: InitRequest, bench: (SimInit, Registry)) -> (reply: InitReply)
        requires
            old(self).wf(),
            bench.1.wf(),
        ensures
            final(self).wf(),
            match monotonic_of(start_of(request)) {
                Some(start) => {
                    &&& reply.is_ok()
                    &&& final(self).started()
                    &&& final(self).registry() == bench.1
                    &&& final(self).sim().now() == start
                    &&& final(self).sim().queue() == Seq::<Entry<A>>::empty()
                    &&& final(self).sim().keys() == Seq::<KeySlot>::empty()
                    &&& final(self).sim().next_seq() == 0
                },
                None => {
                    &&& fails_with(reply, ErrorCode::InvalidTime, invalid_time_text(start_of(request)))
                    &&& final(self).same(*old(self))
                },
            },
    {
        let start_time = match request.time {
            Some(timestamp) => timestamp,
            None => Timestamp { seconds: 0, nanos: 0 },
        };
        match timestamp_to_monotonic(start_time) {
            Some(start) => {
                let simulation = bench.0.init(start);
                self.sim_context = Some((simulation, bench.1));
                Ok(())
            },
            None => Err(invalid_time(start_time)),
        }
    }

    /// Returns the current simulation time.
    pub fn time(&self, _request: TimeRequest) -> (reply: TimeReply)
        ensures
            if self.started() {
                reports_time(reply, self.sim().now())
            } else {
                fails_with(reply, ErrorCode::SimulationNotStarted, not_started())
            },
    {
        match &self.sim_context {
            Some(context) => time_reply(context.0.time()),
            None => Err(failure(ErrorCode::SimulationNotStarted, "the simulation was not started")),
        }
    }

    /// Advances simulation time to that of the next scheduled event and
    /// hands out the slice of that time, which has to be run before the
    /// reply is sent. The reply gives the simulation time after the step.
    pub fn step(&mut self, _request: StepRequest) -> (r: (StepReply, Option<Slice<A>>))
        requires
            old(self).wf(),
        ensures
            final(self).wf(),
            final(self).started() == old(self).started(),
            if old(self).started() {
                &&& final(self).registry() == old(self).registry()
                &&& Simulation::advanced(old(self).sim(), final(self).sim(), MonotonicTime::latest(), r.1)
                &&& reports_time(r.0, final(self).sim().now())
            } else {
                r.1.is_none() && fails_with(r.0, ErrorCode::SimulationNotStarted, not_started())
            },
    {
        match self.sim_context.take() {
            Some((mut simulation, registry)) => {
                let slice = simulation.step();
                let reply = time_reply(simulation.time());
                self.sim_context = Some((simulation, registry));
                (reply, slice)
            },
            None => (Err(failure(ErrorCode::SimulationNotStarted, "the simulation was not started")), None),
        }
    }

    /// What an advance to `target` that was accepted changes, and where it
    /// stands.
    ///
    /// The simulation made one step towards `target`. Either a slice has to
    /// be run, or the clock shows `target` and the reply gives that time.
    pub open spec fn advancing(before: Self, after: Self, target: MonotonicTime, progress: Progress<A>) -> bool {
        &&& after.started()
        &&& after.registry() == before.registry()
        &&& match progress {
            Progress::Run { slice, target: again } => again == target && Simulation::approached(
                before.sim(),
                after.sim(),
                target,
                Some(slice),
            ),
            Progress::Done(reply) => Simulation::approached(before.sim(), after.sim(), target, None)
                && reports_time(reply, target),
        }
    }

    /// The failure of a request to step until a deadline that is refused,
    /// if it is.
    pub open spec fn step_until_error(&self, request: StepUntilRequest) -> Option<(ErrorCode, Seq<char>)> {
        match request.deadline {
            None => Some((ErrorCode::MissingArgument, "missing deadline argument"@)),
            Some(Deadline::Time(timestamp)) => {
                if monotonic_of(timestamp).is_none() {
                    Some((ErrorCode::InvalidTime, invalid_time_text(timestamp)))
                } else if !self.started() {
                    Some((ErrorCode::SimulationNotStarted, not_started()))
                } else if monotonic_of(timestamp).unwrap().as_nanos() <= self.sim().now().as_nanos() {
                    Some((ErrorCode::InvalidTime, "the specified deadline lies in the past"@))
                } else {
                    None
                }
            },
            Some(Deadline::Duration(duration)) => {
                if !is_positive(duration) {
                    Some((ErrorCode::InvalidDuration, "the specified deadline lies in the past"@))
                } else if !self.started() {
                    Some((ErrorCode::SimulationNotStarted, not_started()))
                } else if self.sim().now().as_nanos() + wire_nanos(duration) > MonotonicTime::max_nanos() {
                    Some((ErrorCode::SimulationTimeOutOfRange, out_of_range()))
                } else {
                    None
                }
            },
        }
    }

    /// Begins an advance of the simulation up to a deadline.
    ///
    /// A request without a deadline, with a time that cannot be held, with
    /// a time that is not in the future, with a negative span or with a span
    /// that leads beyond the latest time is refused, as is any request while
    /// no simulation was started; nothing changes then. Otherwise the
    /// simulation makes the first step towards the deadline.
    pub fn step_until(&mut self, request: StepUntilRequest) -> (progress: Progress<A>)
        requires
            old(self).wf(),
        ensures
            final(self).wf(),
            match old(self).step_until_error(request) {
                Some((code, text)) => final(self).same(*old(self)) && (progress matches Progress::Done(reply)
                    && fails_with(reply, code, text)),
                None => Self::advancing(
                    *old(self),
                    *final(self),
                    deadline_time(request.deadline.unwrap(), old(self).sim().now()),
                    progress,
                ),
            },
    {
        let deadline = match request.deadline {
            Some(deadline) => deadline,
            None => {
                return Progress::Done(Err(failure(ErrorCode::MissingArgument, "missing deadline argument")));
            },
        };
        match deadline {
            Deadline::Time(timestamp) => {
                let time = match timestamp_to_monotonic(timestamp) {
                    Some(time) => time,
                    None => {
                        return Progress::Done(
                            Err(invalid_time(timestamp)),
                        );
                    },
                };
                let now = match &self.sim_context {
                    Some(context) => context.0.time(),
                    None => {
                        return Progress::Done(
                            Err(failure(ErrorCode::SimulationNotStarted, "the simulation was not started")),
                        );
                    },
                };
                if time.le(&now) {
                    return Progress::Done(
                        Err(failure(ErrorCode::InvalidTime, "the specified deadline lies in the past")),
                    );
                }
                self.resume_step_until(time)
            },
            Deadline::Duration(duration) => {
                let duration = match to_positive_duration(duration) {
                    Some(duration) => duration,
                    None => {
                        return Progress::Done(
                            Err(failure(ErrorCode::InvalidDuration, "the specified deadline lies in the past")),
                        );
                    },
                };
                let now = match &self.sim_context {
                    Some(context) => context.0.time(),
                    None => {
                        return Progress::Done(
                            Err(failure(ErrorCode::SimulationNotStarted, "the simulation was not started")),
                        );
                    },
                };
                let target = match now.checked_add(duration) {
                    Some(target) => target,
                    None => {
                        return Progress::Done(
                            Err(
                                failure(
                                    ErrorCode::SimulationTimeOutOfRange,
                                    "the final simulation time is out of range",
                                ),
                            ),
                        );
                    },
                };
                proof {
                    duration.lemma_parts();
                }
                self.resume_step_until(target)
            },
        }
    }

    /// Makes the next step of an advance of the simulation to `target`,
    /// after the slice of the step before was run.
    pub fn resume_step_until(&mut self, target: MonotonicTime) -> (progress: Progress<A>)
        requires
            old(self).wf(),
            old(self).started(),
            old(self).sim().now().as_nanos() <= target.as_nanos(),
        ensures
            final(self).wf(),
            Self::advancing(*old(self), *final(self), target, progress),
    {
        let (mut simulation, registry) = self.sim_context.take().unwrap();
        let step = simulation.step_until_unchecked(target);
        let progress = match step {
            Some(slice) => Progress::Run { slice, target },
            None => Progress::Done(time_reply(simulation.time())),
        };
        self.sim_context = Some((simulation, registry));
        progress
    }

    /// The failure of a request to schedule an event that is refused, if it
    /// is. `event` is what the source made of the payload: the action, or
    /// the name of the type that the payload should have held.
    pub open spec fn schedule_event_error(&self, request: ScheduleEventRequest, event: Result<A, String>) -> Option<
        (ErrorCode, Seq<char>),
    > {
        if request.period matches Some(period) && !is_strictly_positive(period) {
            Some((ErrorCode::InvalidDuration, "the specified event period is not strictly positive"@))
        } else if !self.started() {
            Some((ErrorCode::SimulationNotStarted, not_started()))
        } else if request.deadline.is_none() {
            Some((ErrorCode::MissingArgument, "missing deadline argument"@))
        } else if request.deadline matches Some(Deadline::Time(timestamp)) && monotonic_of(timestamp).is_none() {
            Some((ErrorCode::InvalidTime, invalid_time_text(request.deadline->Some_0->Time_0)))
        } else if request.deadline matches Some(Deadline::Duration(duration)) && !is_strictly_positive(duration) {
            Some((ErrorCode::InvalidDuration, "the specified scheduling deadline is not in the future"@))
        } else if request.deadline matches Some(Deadline::Duration(duration)) && self.sim().now().as_nanos()
            + wire_nanos(duration) > MonotonicTime::max_nanos() {
            Some((ErrorCode::SimulationTimeOutOfRange, "the scheduling deadline is out of range"@))
        } else if !self.registry().event_sources.contains(request.source_name@) {
            Some(
                (
                    ErrorCode::SourceNotFound,
                    "no event source is registered with the name '"@ + request.source_name@ + "'"@,
                ),
            )
        } else if event.is_err() {
            Some(
                (
                    ErrorCode::InvalidMessage,
                    "the event could not be deserialized as type '"@ + event->Err_0@ + "'"@,
                ),
            )
        } else if deadline_time(request.deadline.unwrap(), self.sim().now()).as_nanos()
            <= self.sim().now().as_nanos() {
            Some((ErrorCode::InvalidTime, "the specified scheduling deadline is not in the future"@))
        } else if self.sim().next_seq() == u64::MAX {
            Some((ErrorCode::InternalError, "the scheduler queue cannot number another event"@))
        } else {
            None
        }
    }

    /// The span after which a scheduled event fires again, if any.
    pub open spec fn period_of(request: ScheduleEventRequest) -> Option<Duration> {
        match request.period {
            Some(period) => Some(duration_of(period)),
            None => None,
        }
    }

    /// Schedules the event of a source at a deadline.
    ///
    /// `event` is what the source named in the request made of the payload:
    /// the action, or the name of the type that the payload should have
    /// held. A request that is refused changes nothing. Otherwise the
    /// action is scheduled on the channel of the source, periodically if a
    /// period was given, and the reply holds its key if one was asked for.
    pub fn schedule_event(&mut self, request: ScheduleEventRequest, event: Result<A, String>) -> (reply:
        ScheduleEventReply)
        requires
            old(self).wf(),
        ensures
            final(self).wf(),
            match old(self).schedule_event_error(request, event) {
                Some((code, text)) => final(self).same(*old(self)) && fails_with(reply, code, text),
                None => {
                    &&& final(self).started()
                    &&& final(self).registry() == old(self).registry()
                    &&& exists|id: Option<KeyId>|
                        {
                            &&& id.is_some() == request.with_key
                            &&& reply == Ok::<Option<EventKey>, ReplyError>(wire_key_of(id))
                            &&& #[trigger] Simulation::scheduled(
                                old(self).sim(),
                                final(self).sim(),
                                deadline_time(request.deadline.unwrap(), old(self).sim().now()),
                                old(self).registry().event_sources.endpoint(request.source_name@),
                                Self::period_of(request),
                                event.unwrap(),
                                id,
                            )
                        }
                },
            },
    {
        let period = match request.period {
            Some(period) => match to_strictly_positive_duration(period) {
                Some(period) => Some(period),
                None => {
                    return Err(
                        failure(
                            ErrorCode::InvalidDuration,
                            "the specified event period is not strictly positive",
                        ),
                    );
                },
            },
            None => None,
        };
        let context = match &self.sim_context {
            Some(context) => context,
            None => {
                return Err(failure(ErrorCode::SimulationNotStarted, "the simulation was not started"));
            },
        };
        let now = context.0.time();
        let deadline = match request.deadline {
            Some(deadline) => deadline,
            None => {
                return Err(failure(ErrorCode::MissingArgument, "missing deadline argument"));
            },
        };
        let deadline = match deadline {
            Deadline::Time(timestamp) => match timestamp_to_monotonic(timestamp) {
                Some(time) => time,
                None => {
                    return Err(invalid_time(timestamp));
                },
            },
            Deadline::Duration(duration) => {
                let duration = match to_strictly_positive_duration(duration) {
                    Some(duration) => duration,
                    None => {
                        return Err(
                            failure(
                                ErrorCode::InvalidDuration,
                                "the specified scheduling deadline is not in the future",
                            ),
                        );
                    },
                };
                match now.checked_add(duration) {
                    Some(time) => time,
                    None => {
                        return Err(
                            failure(
                                ErrorCode::SimulationTimeOutOfRange,
                                "the scheduling deadline is out of range",
                            ),
                        );
                    },
                }
            },
        };
        let channel = match context.1.get_event_source(&request.source_name) {
            Some(channel) => *channel,
            None => {
                return Err(
                    failure_naming(
                        ErrorCode::SourceNotFound,
                        "no event source is registered with the name '",
                        &request.source_name,
                    ),
                );
            },
        };
        let action = match event {
            Ok(action) => action,
            Err(expected) => {
                return Err(
                    failure_naming(
                        ErrorCode::InvalidMessage,
                        "the event could not be deserialized as type '",
                        &expected,
                    ),
                );
            },
        };
        if deadline.le(&now) {
            return Err(
                failure(ErrorCode::InvalidTime, "the specified scheduling deadline is not in the future"),
            );
        }
        let (mut simulation, registry) = self.sim_context.take().unwrap();
        if !simulation.has_capacity() {
            self.sim_context = Some((simulation, registry));
            return Err(failure(ErrorCode::InternalError, "the scheduler queue cannot number another event"));
        }
        let id = simulation.schedule_at_unchecked(deadline, channel, period, action, request.with_key);
        self.sim_context = Some((simulation, registry));
        proof {
            assert(Simulation::scheduled(old(self).sim(), self.sim(), deadline, channel, period, action, id));
        }
        match id {
            Some(id) => Ok(Some(EventKey { subkey1: id.index as u64, subkey2: id.generation })),
            None => Ok(None),
        }
    }

    /// The key that a request to cancel an event names, if the request
    /// holds a key that fits a key of the registry.
    pub open spec fn key_of(request: CancelEventRequest) -> Option<KeyId> {
        match request.key {
            Some(key) => if key.subkey1 <= usize::MAX {
                Some(KeyId { index: key.subkey1 as usize, generation: key.subkey2 })
            } else {
                None
            },
            None => None,
        }
    }

    /// Cancels the event that a key names.
    ///
    /// A request without a key, with a key whose slot index cannot be a
    /// slot index, or without a simulation changes nothing. Otherwise the
    /// simulation is asked to cancel the event; a key that is not live is
    /// refused.
    pub fn cancel_event(&mut self, request: CancelEventRequest) -> (reply: CancelEventReply)
        requires
            old(self).wf(),
        ensures
            final(self).wf(),
            final(self).started() == old(self).started(),
            if request.key.is_none() {
                final(self).same(*old(self)) && fails_with(
                    reply,
                    ErrorCode::MissingArgument,
                    "missing key argument"@,
                )
            } else if Self::key_of(request).is_none() {
                final(self).same(*old(self)) && fails_with(reply, ErrorCode::InvalidKey, "invalid event key"@)
            } else if !old(self).started() {
                fails_with(reply, ErrorCode::SimulationNotStarted, not_started())
            } else {
                &&& final(self).registry() == old(self).registry()
                &&& Simulation::cancelled(
                    old(self).sim(),
                    final(self).sim(),
                    Self::key_of(request).unwrap(),
                    reply.is_ok(),
                )
                &&& reply.is_err() ==> fails_with(
                    reply,
                    ErrorCode::InvalidKey,
                    "invalid or expired event key"@,
                )
            },
    {
        let key = match request.key {
            Some(key) => key,
            None => {
                return Err(failure(ErrorCode::MissingArgument, "missing key argument"));
            },
        };
        if key.subkey1 > usize::MAX as u64 {
            return Err(failure(ErrorCode::InvalidKey, "invalid event key"));
        }
        let key_id = KeyId::from_raw_parts(key.subkey1 as usize, key.subkey2);
        match self.sim_context.take() {
            Some((mut simulation, registry)) => {
                let cancelled = simulation.cancel(key_id);
                self.sim_context = Some((simulation, registry));
                match cancelled {
                    Ok(()) => Ok(()),
                    Err(_) => Err(failure(ErrorCode::InvalidKey, "invalid or expired event key")),
                }
            },
            None => Err(failure(ErrorCode::SimulationNotStarted, "the simulation was not started")),
        }
    }

    /// Builds the task that sends the event of a source now.
    ///
    /// `event` is what the source named in the request made of the payload:
    /// the action, or the name of the type that the payload should have
    /// held. The task has to be run before the reply is sent. Simulation
    /// time stays as it is.
    pub fn process_event(&self, request: ProcessEventRequest, event: Result<A, String>) -> (r: (
        ProcessEventReply,
        Option<Task<A>>,
    ))
        requires
            self.wf(),
        ensures
            r.0.is_ok() == r.1.is_some(),
            if !self.started() {
                fails_with(r.0, ErrorCode::SimulationNotStarted, not_started())
            } else if !self.registry().event_sources.contains(request.source_name@) {
                fails_with(
                    r.0,
                    ErrorCode::SourceNotFound,
                    "no source is registered with the name '"@ + request.source_name@ + "'"@,
                )
            } else if event.is_err() {
                fails_with(
                    r.0,
                    ErrorCode::InvalidMessage,
                    "the event could not be deserialized as type '"@ + event->Err_0@ + "'"@,
                )
            } else {
                &&& r.0.is_ok()
                &&& r.1 matches Some(task)
                &&& task.channel == self.registry().event_sources.endpoint(request.source_name@)
                &&& task.actions@ == Seq::<A>::empty().push(event.unwrap())
            },
    {
        let (simulation, registry) = match &self.sim_context {
            Some(context) => (&context.0, &context.1),
            None => {
                return (Err(failure(ErrorCode::SimulationNotStarted, "the simulation was not started")), None);
            },
        };
        let channel = match registry.get_event_source(&request.source_name) {
            Some(channel) => *channel,
            None => {
                return (
                    Err(
                        failure_naming(
                            ErrorCode::SourceNotFound,
                            "no source is registered with the name '",
                            &request.source_name,
                        ),
                    ),
                    None,
                );
            },
        };
        match event {
            Ok(action) => (Ok(()), Some(simulation.send_event(action, channel))),
            Err(expected) => (
                Err(
                    failure_naming(
                        ErrorCode::InvalidMessage,
                        "the event could not be deserialized as type '",
                        &expected,
                    ),
                ),
                None,
            ),
        }
    }

    /// Builds the task that sends the query of a source now.
    ///
    /// `query` is what the source named in the request made of the payload:
    /// the action, or the name of the type that the payload should have
    /// held. Once the task has run, [`query_replies`] judges what came
    /// back. Simulation time stays as it is.
    pub fn process_query(&self, request: ProcessQueryRequest, query: Result<A, String>) -> (r: Result<
        Task<A>,
        ReplyError,
    >)
        requires
            self.wf(),
        ensures
            if !self.started() {
                fails_with(r, ErrorCode::SimulationNotStarted, not_started())
            } else if !self.registry().query_sources.contains(request.source_name@) {
                fails_with(
                    r,
                    ErrorCode::SourceNotFound,
                    "no source is registered with the name '"@ + request.source_name@ + "'"@,
                )
            } else if query.is_err() {
                fails_with(
                    r,
                    ErrorCode::InvalidMessage,
                    "the request could not be deserialized as type '"@ + query->Err_0@ + "'"@,
                )
            } else {
                &&& r matches Ok(task)
                &&& task.channel == self.registry().query_sources.endpoint(request.source_name@)
                &&& task.actions@ == Seq::<A>::empty().push(query.unwrap())
            },
    {
        let (simulation, registry) = match &self.sim_context {
            Some(context) => (&context.0, &context.1),
            None => {
                return Err(failure(ErrorCode::SimulationNotStarted, "the simulation was not started"));
            },
        };
        let channel = match registry.get_query_source(&request.source_name) {
            Some(channel) => *channel,
            None => {
                return Err(
                    failure_naming(
                        ErrorCode::SourceNotFound,
                        "no source is registered with the name '",
                        &request.source_name,
                    ),
                );
            },
        };
        match query {
            Ok(action) => Ok(simulation.send_query(action, channel)),
            Err(expected) => Err(
                failure_naming(
                    ErrorCode::InvalidMessage,
                    "the request could not be deserialized as type '",
                    &expected,
                ),
            ),
        }
    }

    /// Whether a request that names a sink is refused, and why.
    pub open spec fn sink_error(&self, sink_name: Seq<char>) -> Option<(ErrorCode, Seq<char>)> {
        if !self.started() {
            Some((ErrorCode::SimulationNotStarted, not_started()))
        } else if !self.registry().event_sinks.contains(sink_name) {
            Some((ErrorCode::SinkNotFound, "no sink is registered with the name '"@ + sink_name + "'"@))
        } else {
            None
        }
    }

    /// Judges the sink named by a request: its number, or why the request
    /// is refused.
    fn find_sink(&self, sink_name: &String) -> (r: Result<usize, ReplyError>)
        requires
            self.wf(),
        ensures
            match self.sink_error(sink_name@) {
                Some((code, text)) => fails_with(r, code, text),
                None => r == Ok::<usize, ReplyError>(self.registry().event_sinks.endpoint(sink_name@)),
            },
    {
        let registry = match &self.sim_context {
            Some(context) => &context.1,
            None => {
                return Err(failure(ErrorCode::SimulationNotStarted, "the simulation was not started"));
            },
        };
        match registry.get_event_sink(sink_name) {
            Some(sink) => Ok(*sink),
            None => Err(
                failure_naming(ErrorCode::SinkNotFound, "no sink is registered with the name '", sink_name),
            ),
        }
    }

    /// Judges a request to read the events of a sink: the number of the
    /// sink, or why the request is refused. The sink is read only if the
    /// request is accepted; [`events_read`] then judges what it gave.
    pub fn read_events(&self, request: ReadEventsRequest) -> (r: Result<usize, ReplyError>)
        requires
            self.wf(),
        ensures
            match self.sink_error(request.sink_name@) {
                Some((code, text)) => fails_with(r, code, text),
                None => r == Ok::<usize, ReplyError>(self.registry().event_sinks.endpoint(request.sink_name@)),
            },
    {
        self.find_sink(&request.sink_name)
    }

    /// Judges a request to open a sink. When the reply is empty the sink
    /// named in the request has to be opened before the reply is sent.
    pub fn open_sink(&self, request: OpenSinkRequest) -> (reply: OpenSinkReply)
        requires
            self.wf(),
        ensures
            match self.sink_error(request.sink_name@) {
                Some((code, text)) => fails_with(reply, code, text),
                None => reply.is_ok(),
            },
    {
        match self.find_sink(&request.sink_name) {
            Err(e) => Err(e),
            Ok(_) => Ok(()),
        }
    }

    /// Judges a request to close a sink. When the reply is empty the sink
    /// named in the request has to be closed before the reply is sent.
    pub fn close_sink(&self, request: CloseSinkRequest) -> (reply: CloseSinkReply)
        requires
            self.wf(),
        ensures
            match self.sink_error(request.sink_name@) {
                Some((code, text)) => fails_with(reply, code, text),
                None => reply.is_ok(),
            },
    {
        match self.find_sink(&request.sink_name) {
            Err(e) => Err(e),
            Ok(_) => Ok(()),
        }
    }
}

} // verus!
