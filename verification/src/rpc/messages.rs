//! The messages of the control service, as plain values.
use vstd::prelude::*;
use crate::rpc::codes::ErrorCode;

verus! {

/// A point in time as the service writes it: seconds since the epoch and
/// nanoseconds.
#[derive(Clone, Copy, Debug, PartialEq, Eq, Structural)]
pub struct Timestamp {
    pub seconds: i64,
    pub nanos: i32,
}

/// A span of time as the service writes it: seconds and nanoseconds.
#[derive(Clone, Copy, Debug, PartialEq, Eq, Structural)]
pub struct WireDuration {
    pub seconds: i64,
    pub nanos: i32,
}

/// The key of a scheduled event as the service writes it: slot index and
/// generation.
#[derive(Clone, Copy, Debug, PartialEq, Eq, Structural)]
pub struct EventKey {
    pub subkey1: u64,
    pub subkey2: u64,
}

/// The failure of a request: a code and a text.
#[derive(Debug, PartialEq, Eq)]
pub struct ReplyError {
    pub code: ErrorCode,
    pub message: String,
}

/// The time up to which to step or at which to schedule: a point in time or
/// a span from now.
#[derive(Clone, Copy, Debug, PartialEq, Eq, Structural)]
pub enum Deadline {
    Time(Timestamp),
    Duration(WireDuration),
}

/// Starts a simulation at a time; at the epoch if none is given.
pub struct InitRequest {
    pub time: Option<Timestamp>,
}

/// Asks for the simulation time.
pub struct TimeRequest {}

/// Advances the simulation to the next scheduled event.
pub struct StepRequest {}

/// Advances the simulation up to a deadline.
pub struct StepUntilRequest {
    pub deadline: Option<Deadline>,
}

/// Schedules the event of a source at a deadline: once or, with a period,
/// again and again; with or without a key to cancel it.
pub struct ScheduleEventRequest {
    pub deadline: Option<Deadline>,
    pub source_name: String,
    pub event: Vec<u8>,
    pub period: Option<WireDuration>,
    pub with_key: bool,
}

/// Cancels the event that a key names.
pub struct CancelEventRequest {
    pub key: Option<EventKey>,
}

/// Sends the event of a source now.
pub struct ProcessEventRequest {
    pub source_name: String,
    pub event: Vec<u8>,
}

/// Sends the query of a source now.
pub struct ProcessQueryRequest {
    pub source_name: String,
    pub request: Vec<u8>,
}

/// Reads the events that a sink collected.
pub struct ReadEventsRequest {
    pub sink_name: String,
}

/// Opens a sink.
pub struct OpenSinkRequest {
    pub sink_name: String,
}

/// Closes a sink.
pub struct CloseSinkRequest {
    pub sink_name: String,
}

/// Any request of the service.
pub enum AnyRequest {
    Init(InitRequest),
    Time(TimeRequest),
    Step(StepRequest),
    StepUntil(StepUntilRequest),
    ScheduleEvent(ScheduleEventRequest),
    CancelEvent(CancelEventRequest),
    ProcessEvent(ProcessEventRequest),
    ProcessQuery(ProcessQueryRequest),
    ReadEvents(ReadEventsRequest),
    OpenSink(OpenSinkRequest),
    CloseSink(CloseSinkRequest),
}

/// Reply to [`InitRequest`].
pub type InitReply = Result<(), ReplyError>;

/// Reply to [`TimeRequest`]: the simulation time.
pub type TimeReply = Result<Timestamp, ReplyError>;

/// Reply to [`StepRequest`]: the simulation time after the step.
pub type StepReply = Result<Timestamp, ReplyError>;

/// Reply to [`StepUntilRequest`]: the simulation time after the steps.
pub type StepUntilReply = Result<Timestamp, ReplyError>;

/// Reply to [`ScheduleEventRequest`]: the key of the event, if one was
/// asked for.
pub type ScheduleEventReply = Result<Option<EventKey>, ReplyError>;

/// Reply to [`CancelEventRequest`].
pub type CancelEventReply = Result<(), ReplyError>;

/// Reply to [`ProcessEventRequest`].
pub type ProcessEventReply = Result<(), ReplyError>;

/// Reply to [`ProcessQueryRequest`]: the encoded replies to the query.
pub type ProcessQueryReply = Result<Vec<Vec<u8>>, ReplyError>;

/// Reply to [`ReadEventsRequest`]: the encoded events.
pub type ReadEventsReply = Result<Vec<Vec<u8>>, ReplyError>;

/// Reply to [`OpenSinkRequest`].
pub type OpenSinkReply = Result<(), ReplyError>;

/// Reply to [`CloseSinkRequest`].
pub type CloseSinkReply = Result<(), ReplyError>;

/// Whether a reply is the failure with the code `code` and the text `text`.
pub open spec fn fails_with<T>(reply: Result<T, ReplyError>, code: ErrorCode, text: Seq<char>) -> bool {
    reply matches Err(e) && e.code == code && e.message@ == text
}

/// Builds the failure with the code `code` and the text `text`.
pub fn failure(code: ErrorCode, text: &str) -> (e: ReplyError)
    ensures
        e.code == code,
        e.message@ == text@,
{
    ReplyError { code, message: text.to_owned() }
}

/// Builds the failure with the code `code` whose text is `before`, then
/// `name`, then a closing quote.
pub fn failure_naming(code: ErrorCode, before: &str, name: &String) -> (e: ReplyError)
    ensures
        e.code == code,
        e.message@ == before@ + name@ + "'"@,
{
    let message = before.to_owned().concat(name.as_str()).concat("'");
    ReplyError { code, message }
}

} // verus!
