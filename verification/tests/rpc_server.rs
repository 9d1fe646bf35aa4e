use asynchronix::endpoints::EndpointRegistry;
use asynchronix::rpc::codes::ErrorCode;
use asynchronix::rpc::generic_server::{
    events_read, query_replies, service_request, GenericServer, Progress, Registry,
};
use asynchronix::rpc::messages::{
    AnyRequest, CancelEventRequest, CloseSinkRequest, Deadline, EventKey, InitRequest,
    OpenSinkRequest, ProcessEventRequest, ProcessQueryRequest, ReadEventsRequest, ReplyError,
    ScheduleEventRequest, StepRequest, StepUntilRequest, TimeRequest, Timestamp, WireDuration,
};
use asynchronix::sim_init::SimInit;

fn registry() -> Registry {
    let mut registry: Registry = EndpointRegistry::new();
    registry.add_event_source(1, "input".to_string()).unwrap();
    registry.add_query_source(2, "question".to_string()).unwrap();
    registry.add_event_sink(3, "output".to_string()).unwrap();
    registry
}

fn bench() -> (SimInit, Registry) {
    (SimInit::with_num_threads(1), registry())
}

fn started() -> GenericServer<u64> {
    let mut server = GenericServer::new();
    assert_eq!(server.init(InitRequest { time: Some(ts(100)) }, bench()), Ok(()));
    server
}

fn ts(seconds: i64) -> Timestamp {
    Timestamp { seconds, nanos: 0 }
}

fn span(seconds: i64) -> WireDuration {
    WireDuration { seconds, nanos: 0 }
}

fn error(code: ErrorCode, message: &str) -> ReplyError {
    ReplyError { code, message: message.to_string() }
}

fn schedule(deadline: Option<Deadline>, source: &str, period: Option<WireDuration>, with_key: bool) -> ScheduleEventRequest {
    ScheduleEventRequest {
        deadline,
        source_name: source.to_string(),
        event: vec![1, 2, 3],
        period,
        with_key,
    }
}

const NOT_STARTED: &str = "the simulation was not started";

#[test]
fn an_undecodable_message_is_an_unknown_request() {
    let reply = service_request(Err("unexpected end of input".to_string()));
    assert_eq!(
        reply.err(),
        Some(error(ErrorCode::UnknownRequest, "bad request: unexpected end of input"))
    );
}

#[test]
fn a_message_without_request_is_an_empty_request() {
    let reply = service_request(Ok(None));
    assert_eq!(
        reply.err(),
        Some(error(ErrorCode::EmptyRequest, "the message did not contain any request"))
    );
}

#[test]
fn a_decoded_request_is_handed_to_its_handler() {
    let request = service_request(Ok(Some(AnyRequest::Time(TimeRequest {}))));
    assert!(matches!(request, Ok(AnyRequest::Time(_))));
}

#[test]
fn init_starts_at_the_epoch_by_default() {
    let mut server: GenericServer<u64> = GenericServer::new();
    assert!(!server.is_started());
    assert_eq!(server.init(InitRequest { time: None }, bench()), Ok(()));
    assert!(server.is_started());
    assert_eq!(server.time(TimeRequest {}), Ok(ts(0)));
}

#[test]
fn init_refuses_a_time_with_bad_nanoseconds() {
    let mut server: GenericServer<u64> = GenericServer::new();
    let request = InitRequest { time: Some(Timestamp { seconds: 5, nanos: -3 }) };
    assert_eq!(
        server.init(request, bench()),
        Err(error(ErrorCode::InvalidTime, "out-of-range nanosecond field"))
    );
    assert!(!server.is_started());
}

#[test]
fn init_replaces_a_running_simulation() {
    let mut server = started();
    assert_eq!(server.schedule_event(schedule(Some(Deadline::Time(ts(105))), "input", None, false), Ok(7)), Ok(None));
    assert_eq!(server.init(InitRequest { time: Some(ts(7)) }, bench()), Ok(()));
    assert_eq!(server.time(TimeRequest {}), Ok(ts(7)));
    assert_eq!(server.simulation().unwrap().pending(), 0);
}

#[test]
fn requests_need_a_started_simulation() {
    let mut server: GenericServer<u64> = GenericServer::new();
    let not_started = error(ErrorCode::SimulationNotStarted, NOT_STARTED);
    assert_eq!(server.time(TimeRequest {}), Err(not_started.clone_for_test()));
    let (reply, slice) = server.step(StepRequest {});
    assert_eq!(reply, Err(not_started.clone_for_test()));
    assert!(slice.is_none());
    let progress = server.step_until(StepUntilRequest { deadline: Some(Deadline::Time(ts(5))) });
    assert!(matches!(progress, Progress::Done(Err(e)) if e == not_started));
    let progress = server.step_until(StepUntilRequest { deadline: Some(Deadline::Duration(span(5))) });
    assert!(matches!(progress, Progress::Done(Err(e)) if e == not_started));
    assert_eq!(
        server.schedule_event(schedule(Some(Deadline::Time(ts(5))), "input", None, false), Ok(1)),
        Err(not_started.clone_for_test())
    );
    assert_eq!(
        server.cancel_event(CancelEventRequest { key: Some(EventKey { subkey1: 0, subkey2: 0 }) }),
        Err(not_started.clone_for_test())
    );
    let (reply, task) = server.process_event(
        ProcessEventRequest { source_name: "input".to_string(), event: vec![] },
        Ok(1),
    );
    assert_eq!(reply, Err(not_started.clone_for_test()));
    assert!(task.is_none());
    let query = server.process_query(
        ProcessQueryRequest { source_name: "question".to_string(), request: vec![] },
        Ok(1),
    );
    assert_eq!(query.err(), Some(not_started.clone_for_test()));
    assert_eq!(
        server.read_events(ReadEventsRequest { sink_name: "output".to_string() }),
        Err(not_started.clone_for_test())
    );
    assert_eq!(
        server.open_sink(OpenSinkRequest { sink_name: "output".to_string() }),
        Err(not_started.clone_for_test())
    );
    assert_eq!(
        server.close_sink(CloseSinkRequest { sink_name: "output".to_string() }),
        Err(not_started)
    );
}

trait CloneForTest {
    fn clone_for_test(&self) -> Self;
}

impl CloneForTest for ReplyError {
    fn clone_for_test(&self) -> Self {
        ReplyError { code: self.code, message: self.message.clone() }
    }
}

#[test]
fn init_refuses_a_time_outside_of_the_range_of_the_service() {
    let mut server: GenericServer<u64> = GenericServer::new();
    let late = Timestamp { seconds: 253402300800, nanos: 0 };
    assert_eq!(
        server.init(InitRequest { time: Some(late) }, bench()),
        Err(error(ErrorCode::InvalidTime, "out-of-range seconds field"))
    );
    assert!(!server.is_started());
    let early = Timestamp { seconds: -62135596801, nanos: 0 };
    assert_eq!(
        server.init(InitRequest { time: Some(early) }, bench()),
        Err(error(ErrorCode::InvalidTime, "out-of-range seconds field"))
    );
    assert!(!server.is_started());
}

#[test]
fn time_out_of_the_range_of_the_service_is_reported() {
    let mut server: GenericServer<u64> = GenericServer::new();
    let last = Timestamp { seconds: 253402300799, nanos: 0 };
    assert_eq!(server.init(InitRequest { time: Some(last) }, bench()), Ok(()));
    assert_eq!(server.time(TimeRequest {}), Ok(last));
    let out_of_range = error(ErrorCode::SimulationTimeOutOfRange, "the final simulation time is out of range");
    let progress = server.step_until(StepUntilRequest { deadline: Some(Deadline::Duration(span(5))) });
    assert!(matches!(progress, Progress::Done(Err(e)) if e == out_of_range));
    assert_eq!(server.time(TimeRequest {}), Err(out_of_range.clone_for_test()));
    let (reply, slice) = server.step(StepRequest {});
    assert_eq!(reply, Err(out_of_range));
    assert!(slice.is_none());
}

#[test]
fn step_hands_out_the_next_slice_and_replies_with_its_time() {
    let mut server = started();
    server
        .schedule_event(schedule(Some(Deadline::Duration(span(2))), "input", None, false), Ok(9))
        .unwrap();
    let (reply, slice) = server.step(StepRequest {});
    assert_eq!(reply, Ok(ts(102)));
    let slice = slice.unwrap();
    assert_eq!(slice.tasks.len(), 1);
    assert_eq!(slice.tasks[0].channel, 1);
    assert_eq!(slice.tasks[0].actions, vec![9]);
    let (reply, slice) = server.step(StepRequest {});
    assert_eq!(reply, Ok(ts(102)));
    assert!(slice.is_none());
}

#[test]
fn step_until_needs_a_deadline_in_the_future() {
    let mut server = started();
    let refused = |server: &mut GenericServer<u64>, deadline, code, message: &str| {
        let progress = server.step_until(StepUntilRequest { deadline });
        assert!(matches!(progress, Progress::Done(Err(e)) if e == error(code, message)));
        assert_eq!(server.time(TimeRequest {}), Ok(ts(100)));
    };
    refused(&mut server, None, ErrorCode::MissingArgument, "missing deadline argument");
    refused(
        &mut server,
        Some(Deadline::Time(Timestamp { seconds: 200, nanos: 1_000_000_000 })),
        ErrorCode::InvalidTime,
        "out-of-range nanosecond field",
    );
    refused(
        &mut server,
        Some(Deadline::Time(ts(253402300800))),
        ErrorCode::InvalidTime,
        "out-of-range seconds field",
    );
    refused(
        &mut server,
        Some(Deadline::Time(ts(100))),
        ErrorCode::InvalidTime,
        "the specified deadline lies in the past",
    );
    refused(
        &mut server,
        Some(Deadline::Time(ts(99))),
        ErrorCode::InvalidTime,
        "the specified deadline lies in the past",
    );
    refused(
        &mut server,
        Some(Deadline::Duration(span(-1))),
        ErrorCode::InvalidDuration,
        "the specified deadline lies in the past",
    );
    refused(
        &mut server,
        Some(Deadline::Duration(span(i64::MAX))),
        ErrorCode::SimulationTimeOutOfRange,
        "the final simulation time is out of range",
    );
}

#[test]
fn step_until_runs_every_slice_up_to_the_deadline() {
    let mut server = started();
    for (at, payload) in [(101, 1), (103, 3), (110, 10)] {
        server
            .schedule_event(schedule(Some(Deadline::Time(ts(at))), "input", None, false), Ok(payload))
            .unwrap();
    }
    let mut seen = Vec::new();
    let mut progress = server.step_until(StepUntilRequest { deadline: Some(Deadline::Duration(span(5))) });
    let reply = loop {
        match progress {
            Progress::Run { slice, target } => {
                seen.push((slice.time.as_secs(), slice.tasks[0].actions.clone()));
                progress = server.resume_step_until(target);
            }
            Progress::Done(reply) => break reply,
        }
    };
    assert_eq!(reply, Ok(ts(105)));
    assert_eq!(seen, vec![(101, vec![1]), (103, vec![3])]);
    assert_eq!(server.time(TimeRequest {}), Ok(ts(105)));
}

#[test]
fn step_by_nothing_stays_in_place() {
    let mut server = started();
    let progress = server.step_until(StepUntilRequest { deadline: Some(Deadline::Duration(span(0))) });
    assert!(matches!(progress, Progress::Done(Ok(t)) if t == ts(100)));
}

#[test]
fn schedule_event_checks_its_arguments_in_order() {
    let mut server = started();
    let mut refused = |request: ScheduleEventRequest, event: Result<u64, String>, code, message: &str| {
        assert_eq!(server.schedule_event(request, event), Err(error(code, message)));
        assert_eq!(server.simulation().unwrap().pending(), 0);
    };
    refused(
        schedule(None, "nowhere", Some(span(0)), true),
        Err("Event".to_string()),
        ErrorCode::InvalidDuration,
        "the specified event period is not strictly positive",
    );
    refused(
        schedule(None, "nowhere", Some(span(1)), true),
        Err("Event".to_string()),
        ErrorCode::MissingArgument,
        "missing deadline argument",
    );
    refused(
        schedule(Some(Deadline::Time(Timestamp { seconds: 200, nanos: -1 })), "nowhere", None, true),
        Err("Event".to_string()),
        ErrorCode::InvalidTime,
        "out-of-range nanosecond field",
    );
    refused(
        schedule(Some(Deadline::Time(ts(-62135596801))), "nowhere", None, true),
        Err("Event".to_string()),
        ErrorCode::InvalidTime,
        "out-of-range seconds field",
    );
    refused(
        schedule(Some(Deadline::Duration(span(0))), "nowhere", None, true),
        Err("Event".to_string()),
        ErrorCode::InvalidDuration,
        "the specified scheduling deadline is not in the future",
    );
    refused(
        schedule(Some(Deadline::Duration(span(i64::MAX))), "nowhere", None, true),
        Err("Event".to_string()),
        ErrorCode::SimulationTimeOutOfRange,
        "the scheduling deadline is out of range",
    );
    refused(
        schedule(Some(Deadline::Time(ts(50))), "nowhere", None, true),
        Err("Event".to_string()),
        ErrorCode::SourceNotFound,
        "no event source is registered with the name 'nowhere'",
    );
    refused(
        schedule(Some(Deadline::Time(ts(50))), "input", None, true),
        Err("Event".to_string()),
        ErrorCode::InvalidMessage,
        "the event could not be deserialized as type 'Event'",
    );
    refused(
        schedule(Some(Deadline::Time(ts(100))), "input", None, true),
        Ok(1),
        ErrorCode::InvalidTime,
        "the specified scheduling deadline is not in the future",
    );
}

#[test]
fn a_scheduled_event_can_be_cancelled_with_its_key() {
    let mut server = started();
    let key = server
        .schedule_event(schedule(Some(Deadline::Time(ts(101))), "input", None, true), Ok(5))
        .unwrap()
        .unwrap();
    assert_eq!(key, EventKey { subkey1: 0, subkey2: 0 });
    assert_eq!(server.simulation().unwrap().pending(), 1);
    assert_eq!(server.cancel_event(CancelEventRequest { key: Some(key) }), Ok(()));
    assert_eq!(
        server.cancel_event(CancelEventRequest { key: Some(key) }),
        Err(error(ErrorCode::InvalidKey, "invalid or expired event key"))
    );
    let (reply, slice) = server.step(StepRequest {});
    assert_eq!(reply, Ok(ts(101)));
    assert!(slice.unwrap().tasks.is_empty());
    assert_eq!(server.simulation().unwrap().pending(), 0);
}

#[test]
fn cancel_event_checks_its_key() {
    let mut server = started();
    assert_eq!(
        server.cancel_event(CancelEventRequest { key: None }),
        Err(error(ErrorCode::MissingArgument, "missing key argument"))
    );
    assert_eq!(
        server.cancel_event(CancelEventRequest { key: Some(EventKey { subkey1: 4, subkey2: 0 }) }),
        Err(error(ErrorCode::InvalidKey, "invalid or expired event key"))
    );
}

#[test]
fn a_periodic_event_fires_until_it_is_cancelled() {
    let mut server = started();
    let key = server
        .schedule_event(schedule(Some(Deadline::Duration(span(1))), "input", Some(span(1)), true), Ok(5))
        .unwrap()
        .unwrap();
    for second in 101..104 {
        let (reply, slice) = server.step(StepRequest {});
        assert_eq!(reply, Ok(ts(second)));
        assert_eq!(slice.unwrap().tasks[0].actions, vec![5]);
    }
    assert_eq!(server.cancel_event(CancelEventRequest { key: Some(key) }), Ok(()));
    let (reply, slice) = server.step(StepRequest {});
    assert_eq!(reply, Ok(ts(104)));
    assert!(slice.unwrap().tasks.is_empty());
    let (reply, slice) = server.step(StepRequest {});
    assert_eq!(reply, Ok(ts(104)));
    assert!(slice.is_none());
}

#[test]
fn process_event_builds_the_task_of_the_source() {
    let server = started();
    let request = |name: &str| ProcessEventRequest { source_name: name.to_string(), event: vec![7] };
    let (reply, task) = server.process_event(request("input"), Ok(21));
    assert_eq!(reply, Ok(()));
    let task = task.unwrap();
    assert_eq!(task.channel, 1);
    assert_eq!(task.actions, vec![21]);
    let (reply, task) = server.process_event(request("question"), Ok(21));
    assert_eq!(
        reply,
        Err(error(ErrorCode::SourceNotFound, "no source is registered with the name 'question'"))
    );
    assert!(task.is_none());
    let (reply, task) = server.process_event(request("input"), Err("Load".to_string()));
    assert_eq!(
        reply,
        Err(error(ErrorCode::InvalidMessage, "the event could not be deserialized as type 'Load'"))
    );
    assert!(task.is_none());
    assert_eq!(server.time(TimeRequest {}), Ok(ts(100)));
}

#[test]
fn process_query_builds_the_task_of_the_source() {
    let server = started();
    let request = |name: &str| ProcessQueryRequest { source_name: name.to_string(), request: vec![7] };
    let task = server.process_query(request("question"), Ok(21)).ok().unwrap();
    assert_eq!(task.channel, 2);
    assert_eq!(task.actions, vec![21]);
    assert_eq!(
        server.process_query(request("input"), Ok(21)).err(),
        Some(error(ErrorCode::SourceNotFound, "no source is registered with the name 'input'"))
    );
    assert_eq!(
        server.process_query(request("question"), Err("Ask".to_string())).err(),
        Some(error(ErrorCode::InvalidMessage, "the request could not be deserialized as type 'Ask'"))
    );
}

#[test]
fn the_replies_to_a_query_are_passed_on() {
    assert_eq!(query_replies(Some(Ok(vec![vec![1], vec![2, 3]]))), Ok(vec![vec![1], vec![2, 3]]));
    assert_eq!(
        query_replies(Some(Err("Answer".to_string()))),
        Err(error(ErrorCode::InvalidMessage, "the reply could not be serialized as type 'Answer'"))
    );
    assert_eq!(
        query_replies(None),
        Err(error(ErrorCode::InternalError, "a reply to the query was expected but none was available"))
    );
}

#[test]
fn sinks_are_found_by_name() {
    let server = started();
    let missing = error(ErrorCode::SinkNotFound, "no sink is registered with the name 'input'");
    assert_eq!(server.open_sink(OpenSinkRequest { sink_name: "output".to_string() }), Ok(()));
    assert_eq!(server.close_sink(CloseSinkRequest { sink_name: "output".to_string() }), Ok(()));
    assert_eq!(
        server.open_sink(OpenSinkRequest { sink_name: "input".to_string() }),
        Err(missing.clone_for_test())
    );
    assert_eq!(
        server.close_sink(CloseSinkRequest { sink_name: "input".to_string() }),
        Err(missing.clone_for_test())
    );
    assert_eq!(
        server.read_events(ReadEventsRequest { sink_name: "input".to_string() }),
        Err(missing)
    );
    assert_eq!(server.read_events(ReadEventsRequest { sink_name: "output".to_string() }), Ok(3));
    assert_eq!(events_read(Ok(vec![vec![1], vec![]])), Ok(vec![vec![1], vec![]]));
    assert_eq!(
        events_read(Err("Sample".to_string())),
        Err(error(ErrorCode::InvalidMessage, "the event could not be serialized from type 'Sample'"))
    );
}
