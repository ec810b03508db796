use onelastleaf_plugin_sdk::host::client::{response, HostClient};
use onelastleaf_plugin_sdk::cancellation::Attempt;
use onelastleaf_plugin_sdk::protocol::{
    ActionInvocation, CancelJobRequest, ErrorCode, Heartbeat, HostCallRequest, HostCallResponse,
    HostHello, Invocation, JobCancellationReason, NodeId, NodeIdentity, NodeName, Payload,
    PluginEnvelope, PluginId, PluginJobId, PluginName, ProtocolError, SessionReady,
    ShutdownAcknowledged, ShutdownRequest, StartJobRequest, Timestamp, TraceContext,
};
use onelastleaf_plugin_sdk::sender::SessionIdentity;
use onelastleaf_plugin_sdk::session::jobs::JobManager;
use onelastleaf_plugin_sdk::session::{
    close_limit, receive, receive_initial, serve, time_left, time_to_close, validate_envelope,
    wait_for_host_close, Established, Handshake, HostClose, ServeEvent, ServeStep, SessionState,
    TimeLeft,
};
use onelastleaf_plugin_sdk::{ActionResult, Plugin, SdkError};

const JOB: &str = "00000000-0000-4000-8000-000000000001";

fn trace() -> TraceContext {
    TraceContext {
        correlation_id: "correlation".to_owned(),
        parent_call_id: None,
        call_depth: 0,
        causal_depth: 0,
        task_id: None,
        task_group_id: None,
    }
}

fn envelope(message_id: u64) -> PluginEnvelope {
    PluginEnvelope {
        message_id,
        reply_to: None,
        session_id: "session".to_owned(),
        plugin_instance_id: "instance".to_owned(),
        trace: Some(trace()),
        payload: Some(Payload::Heartbeat(Heartbeat { nonce: 1 })),
    }
}

fn carrying(message_id: u64, payload: Payload) -> PluginEnvelope {
    let mut envelope = envelope(message_id);
    envelope.payload = Some(payload);
    envelope
}

fn state(last_host_message_id: u64) -> SessionState {
    SessionState {
        identity: SessionIdentity {
            session_id: "session".to_owned(),
            instance_id: "instance".to_owned(),
        },
        last_host_message_id,
        maximum_call_depth: 10,
        maximum_causal_depth: 10,
    }
}

#[test]
fn established_envelopes_require_exact_identity_and_monotonic_ids() {
    let mut session = SessionState {
        identity: SessionIdentity {
            session_id: "session".to_owned(),
            instance_id: "instance".to_owned(),
        },
        last_host_message_id: 4,
        maximum_call_depth: 10,
        maximum_causal_depth: 10,
    };
    validate_envelope(&envelope(5), &mut session).unwrap();
    assert_eq!(session.last_host_message_id, 5);
    assert!(validate_envelope(&envelope(5), &mut session).is_err());

    let mut stale = envelope(6);
    stale.session_id = "stale".to_owned();
    assert!(validate_envelope(&stale, &mut session).is_err());
    assert_eq!(session.last_host_message_id, 5);
}

#[test]
fn shutdown_wait_accepts_host_stream_close() {
    wait_for_host_close(HostClose::Closed).unwrap();
}

#[test]
fn shutdown_wait_rejects_late_host_messages() {
    assert!(wait_for_host_close(HostClose::Message).is_err());
}

#[test]
fn shutdown_wait_accepts_silence_and_broken_streams() {
    assert!(wait_for_host_close(HostClose::TimedOut).is_ok());
    assert!(wait_for_host_close(HostClose::Broken).is_ok());
    assert_eq!(
        wait_for_host_close(HostClose::Message).unwrap_err().message(),
        "host sent a message after ShutdownRequest"
    );
}

#[test]
fn shutdown_deadlines_become_waits() {
    let at = |seconds: i64, nanos: i32| Timestamp { seconds, nanos };
    let left = |seconds: u64, nanos: u32| TimeLeft { seconds, nanos };
    assert_eq!(time_left(at(12, 5), at(10, 0)), left(2, 5));
    assert_eq!(time_left(at(12, 0), at(10, 1)), left(1, 999_999_999));
    assert_eq!(time_left(at(10, 1), at(10, 1)), left(0, 0));
    assert_eq!(time_left(at(10, 0), at(10, 1)), left(0, 0));
    assert_eq!(time_left(at(-5, 0), at(-7, 500_000_000)), left(1, 500_000_000));
    assert_eq!(
        time_left(at(i64::MAX, 0), at(i64::MIN, 0)),
        left(u64::MAX, 0)
    );
    assert_eq!(close_limit(Ok(()), at(12, 5), at(10, 0)).unwrap(), left(2, 5));
    let refused = close_limit(Err("out of range".to_owned()), at(12, 5), at(10, 0));
    assert_eq!(
        refused.unwrap_err().message(),
        "invalid shutdown deadline: out of range"
    );
}

#[test]
fn past_deadlines_leave_no_time_and_future_ones_some() {
    let past = Timestamp {
        seconds: 1,
        nanos: 0,
    };
    assert_eq!(
        time_to_close(past).unwrap(),
        TimeLeft {
            seconds: 0,
            nanos: 0
        }
    );
    let future = Timestamp {
        seconds: 253_402_300_799,
        nanos: 0,
    };
    let left = time_to_close(future).unwrap();
    assert!(left.seconds > 0);
    assert!(left.nanos < 1_000_000_000);
}

#[test]
fn envelopes_name_their_fault() {
    let fault = |envelope: PluginEnvelope| {
        validate_envelope(&envelope, &mut state(4)).unwrap_err().message()
    };
    for id in [0, 3, 4] {
        assert_eq!(
            fault(envelope(id)),
            "host message IDs must be nonzero and strictly increasing"
        );
    }
    let mut foreign = envelope(5);
    foreign.plugin_instance_id = "other".to_owned();
    assert_eq!(
        fault(foreign),
        "host envelope belongs to another plugin instance"
    );
    let mut untraced = envelope(5);
    untraced.trace = None;
    assert_eq!(fault(untraced), "host omitted correlation context");
    let mut deep = envelope(5);
    deep.trace.as_mut().unwrap().call_depth = 11;
    assert_eq!(
        fault(deep),
        "host envelope exceeds a negotiated trace depth limit"
    );
}

fn plugin() -> Plugin<u8> {
    Plugin::builder("org.example.echo".to_owned(), "0.1.0".to_owned())
        .action("echo".to_owned(), "Echo arguments".to_owned(), 1)
        .unwrap()
        .build()
        .unwrap()
}

fn hello() -> PluginEnvelope {
    carrying(
        3,
        Payload::HostHello(HostHello {
            node: Some(NodeIdentity {
                node_id: Some(NodeId {
                    value: "0f337c0c-51d6-44a9-a691-a31fce775ab1".to_owned(),
                }),
                node_name: Some(NodeName {
                    value: "primary-node".to_owned(),
                }),
            }),
            maximum_call_depth: 10,
            maximum_causal_depth: 11,
            maximum_artifact_chunk_bytes: 64 * 1024,
            plugin_id: Some(PluginId {
                value: "org.example.echo".to_owned(),
            }),
            plugin_name: Some(PluginName {
                value: "echo".to_owned(),
            }),
        }),
    )
}

fn greeting_fault(incoming: Result<Option<PluginEnvelope>, String>) -> String {
    Handshake::begin(&plugin(), incoming).unwrap_err().message()
}

#[test]
fn the_plugin_introduces_itself_and_its_actions() {
    let (handshake, answer) = Handshake::begin(&plugin(), Ok(Some(hello()))).unwrap();
    assert_eq!(handshake.session.last_host_message_id, 3);
    assert_eq!(handshake.session.maximum_call_depth, 10);
    assert_eq!(handshake.session.maximum_causal_depth, 11);
    assert_eq!(handshake.maximum_artifact_chunk_bytes, 64 * 1024);
    assert_eq!(answer.message_id, 1);
    assert_eq!(answer.reply_to, None);
    assert_eq!(answer.session_id, "session");
    assert_eq!(answer.plugin_instance_id, "instance");
    assert_eq!(answer.trace, Some(trace()));
    let Some(Payload::PluginHello(introduction)) = answer.payload else {
        panic!("the plugin did not introduce itself");
    };
    assert_eq!(introduction.plugin_id.unwrap().value, "org.example.echo");
    assert_eq!(introduction.plugin_name.unwrap().value, "echo");
    assert_eq!(introduction.plugin_version, "0.1.0");
    assert_eq!(introduction.actions.len(), 1);
    assert_eq!(introduction.actions[0].name, "echo");
    assert_eq!(introduction.actions[0].description, "Echo arguments");
}

#[test]
fn every_faulty_greeting_ends_the_handshake() {
    assert_eq!(
        greeting_fault(Err("reset".to_owned())),
        "receive initial HostHello: reset"
    );
    assert_eq!(greeting_fault(Ok(None)), "host closed the plugin stream");
    let mut first = hello();
    first.message_id = 0;
    assert_eq!(
        greeting_fault(Ok(Some(first))),
        "host message IDs must be nonzero and strictly increasing"
    );
    let mut first = hello();
    first.session_id = String::new();
    assert_eq!(
        greeting_fault(Ok(Some(first))),
        "HostHello envelope omitted its session or instance identity"
    );
    let mut first = hello();
    first.reply_to = Some(1);
    assert_eq!(
        greeting_fault(Ok(Some(first))),
        "HostHello must not reply to another message"
    );
    assert_eq!(
        greeting_fault(Ok(Some(envelope(3)))),
        "HostHello must be the first host message"
    );
    let mut first = hello();
    if let Some(Payload::HostHello(hello)) = first.payload.as_mut() {
        hello.plugin_id = None;
    }
    assert_eq!(
        greeting_fault(Ok(Some(first))),
        "HostHello does not describe the expected plugin instance"
    );
    let mut first = hello();
    first.trace = None;
    assert_eq!(
        greeting_fault(Ok(Some(first))),
        "host omitted correlation context"
    );
    assert!(receive_initial(Ok(Some(envelope(1)))).is_ok());
}

fn ready(message_id: u64) -> PluginEnvelope {
    carrying(message_id, Payload::Ready(SessionReady {}))
}

#[test]
fn both_sides_become_ready_under_the_greeting_trace() {
    let (handshake, _) = Handshake::begin(&plugin(), Ok(Some(hello()))).unwrap();
    let (established, answer): (Established<u8>, PluginEnvelope) =
        handshake.confirm(Ok(Some(ready(4)))).unwrap();
    assert_eq!(answer.message_id, 2);
    assert_eq!(answer.trace, Some(trace()));
    assert_eq!(answer.payload, Some(Payload::Ready(SessionReady {})));
    assert_eq!(established.session.last_host_message_id, 4);
    assert_eq!(established.sender.next_message_id, 3);
    assert_eq!(established.host.session_id(), "session");
    assert_eq!(established.host.maximum_call_depth(), 10);
    assert_eq!(established.host.maximum_artifact_chunk_bytes(), 64 * 1024);
}

fn ready_fault(incoming: Result<Option<PluginEnvelope>, String>) -> String {
    let (handshake, _) = Handshake::begin(&plugin(), Ok(Some(hello()))).unwrap();
    let confirmed: Result<(Established<u8>, PluginEnvelope), SdkError> =
        handshake.confirm(incoming);
    confirmed.unwrap_err().message()
}

#[test]
fn only_a_timely_ready_ends_the_handshake() {
    assert_eq!(
        ready_fault(Err("reset".to_owned())),
        "receive handshake envelope: reset"
    );
    assert_eq!(ready_fault(Ok(None)), "host closed the plugin stream");
    assert_eq!(
        ready_fault(Ok(Some(ready(3)))),
        "host message IDs must be nonzero and strictly increasing"
    );
    let late = "host SessionReady must follow PluginHello with the HostHello trace";
    assert_eq!(ready_fault(Ok(Some(envelope(4)))), late);
    let mut reply = ready(4);
    reply.reply_to = Some(1);
    assert_eq!(ready_fault(Ok(Some(reply))), late);
    let mut other = ready(4);
    other.trace.as_mut().unwrap().correlation_id = "other".to_owned();
    assert_eq!(ready_fault(Ok(Some(other))), late);
}

#[test]
fn handshake_envelopes_enter_the_session() {
    let mut session = state(4);
    assert_eq!(receive(Ok(Some(ready(7))), &mut session).unwrap(), ready(7));
    assert_eq!(session.last_host_message_id, 7);
}

struct Harness {
    session: SessionState,
    jobs: JobManager<u8>,
    host: HostClient<&'static str>,
}

fn harness() -> Harness {
    let plugin = plugin();
    Harness {
        session: state(4),
        jobs: JobManager::new(plugin.actions, plugin.maximum_concurrent_jobs),
        host: HostClient::new("session".to_owned(), 64 * 1024, 10),
    }
}

impl Harness {
    fn event(&mut self, event: ServeEvent) -> Result<ServeStep<&'static str>, SdkError> {
        serve(&mut self.session, &mut self.jobs, &mut self.host, event)
    }

    fn receive(&mut self, envelope: PluginEnvelope) -> Result<ServeStep<&'static str>, SdkError> {
        self.event(ServeEvent::Received(Ok(Some(envelope))))
    }

    fn fault(&mut self, envelope: PluginEnvelope) -> String {
        self.receive(envelope).unwrap_err().message()
    }
}

fn start() -> Payload {
    Payload::StartJob(StartJobRequest {
        job_id: Some(PluginJobId {
            value: JOB.to_owned(),
        }),
        deadline: None,
        invocation: Some(Invocation::Action(ActionInvocation {
            action: "echo".to_owned(),
            arguments: vec!["hello".to_owned()],
        })),
    })
}

fn cancel() -> Payload {
    Payload::CancelJob(CancelJobRequest {
        job_id: Some(PluginJobId {
            value: JOB.to_owned(),
        }),
        reason: JobCancellationReason::UserRequest,
    })
}

#[test]
fn heartbeats_are_echoed() {
    let mut harness = harness();
    let step = harness
        .receive(carrying(5, Payload::Heartbeat(Heartbeat { nonce: 77 })))
        .unwrap();
    let ServeStep::Send(messages) = step else {
        panic!("the heartbeat was not answered");
    };
    assert_eq!(messages.len(), 1);
    assert_eq!(messages[0].reply_to, Some(5));
    assert_eq!(messages[0].trace, trace());
    assert_eq!(
        messages[0].payload,
        Payload::Heartbeat(Heartbeat { nonce: 77 })
    );
}

#[test]
fn a_job_runs_from_its_start_to_its_update() {
    let mut harness = harness();
    let ServeStep::Start(reply, job) = harness.receive(carrying(5, start())).unwrap() else {
        panic!("the job was not started");
    };
    assert_eq!(reply.reply_to, Some(5));
    assert_eq!(job.job_id, JOB);
    assert_eq!(job.arguments, ["hello"]);
    let step = harness
        .event(ServeEvent::Finished(Ok((
            JOB.to_owned(),
            Ok(ActionResult::empty()),
        ))))
        .unwrap();
    let ServeStep::Send(messages) = step else {
        panic!("the job was not settled");
    };
    assert_eq!(messages.len(), 1);
    assert!(matches!(messages[0].payload, Payload::JobUpdate(_)));
    assert!(!harness.jobs.has_active_jobs());
}

#[test]
fn a_cancelled_job_is_signalled_and_acknowledged_later() {
    let mut harness = harness();
    harness.receive(carrying(5, start())).unwrap();
    let step = harness.receive(carrying(6, cancel())).unwrap();
    assert!(matches!(step, ServeStep::Signal(job_id) if job_id == JOB));
    let step = harness
        .event(ServeEvent::Finished(Ok((
            JOB.to_owned(),
            Err(SdkError::Cancelled),
        ))))
        .unwrap();
    let ServeStep::Send(messages) = step else {
        panic!("the job was not settled");
    };
    assert_eq!(messages[0].reply_to, Some(6));
    let ServeStep::Send(messages) = harness.receive(carrying(7, cancel())).unwrap() else {
        panic!("an inactive job was signalled");
    };
    assert_eq!(messages[0].reply_to, Some(7));
}

#[test]
fn shutdown_stops_jobs_and_is_acknowledged_last() {
    let mut harness = harness();
    harness.receive(carrying(5, start())).unwrap();
    harness.receive(carrying(6, cancel())).unwrap();
    let request = ShutdownRequest {
        reason: "update".to_owned(),
        grace_period_deadline: Some(Timestamp {
            seconds: 100,
            nanos: 0,
        }),
    };
    let step = harness.receive(carrying(7, Payload::Shutdown(request))).unwrap();
    let ServeStep::Shutdown {
        stopped,
        acknowledgement,
        deadline,
    } = step
    else {
        panic!("the session was not shut down");
    };
    assert_eq!(stopped.jobs, [JOB]);
    assert_eq!(stopped.acknowledgements[0].reply_to, Some(6));
    assert_eq!(acknowledgement.reply_to, Some(7));
    assert_eq!(
        acknowledgement.payload,
        Payload::ShutdownAcknowledged(ShutdownAcknowledged {})
    );
    assert_eq!(deadline.seconds, 100);
}

fn reply(message_id: u64, reply_to: u64, payload: Option<Payload>) -> PluginEnvelope {
    let mut envelope = envelope(message_id);
    envelope.reply_to = Some(reply_to);
    envelope.payload = payload;
    envelope
}

#[test]
fn responses_are_delivered_to_their_waiter_once() {
    let mut harness = harness();
    let (handshake, _) = Handshake::begin(&plugin(), Ok(Some(hello()))).unwrap();
    let mut sender = handshake.sender;
    let request = harness
        .host
        .request(
            &mut sender,
            trace(),
            Payload::HostCall(HostCallRequest { call: None }),
            "waiter",
        )
        .unwrap();
    assert_eq!(request.message_id, 2);
    let answer = Payload::HostResult(HostCallResponse { result: None });
    let step = harness.receive(reply(5, 2, Some(answer.clone()))).unwrap();
    let ServeStep::Deliver(waiter, payload) = step else {
        panic!("the response was not delivered");
    };
    assert_eq!(waiter, "waiter");
    assert_eq!(payload, answer);
    assert!(response(Attempt::Done(payload)).is_ok());
    assert_eq!(
        harness.fault(reply(6, 2, Some(answer))),
        "response names no pending plugin request"
    );
}

#[test]
fn faulty_host_messages_end_the_session() {
    let mut untitled = envelope(5);
    untitled.payload = None;
    assert_eq!(harness().fault(untitled), "payload is required");
    assert_eq!(
        harness().fault(reply(5, 2, None)),
        "response payload is required"
    );
    assert_eq!(
        harness().fault(ready(5)),
        "unexpected host-initiated message"
    );
    assert_eq!(
        harness().fault(carrying(5, Payload::ProtocolError(ProtocolError::default()))),
        "ProtocolError code and message must be specified"
    );
    assert_eq!(
        harness().fault(reply(
            5,
            2,
            Some(Payload::ProtocolError(ProtocolError::default()))
        )),
        "ProtocolError code and message must be specified"
    );
    let fatal = ProtocolError {
        code: ErrorCode::Internal,
        message: "fatal".to_owned(),
        retryable: false,
        metadata: Vec::new(),
        details: Vec::new(),
    };
    let error = harness()
        .receive(carrying(5, Payload::ProtocolError(fatal.clone())))
        .unwrap_err();
    assert!(matches!(error, SdkError::Host(host) if host == fatal));
    assert_eq!(
        harness().fault(envelope(4)),
        "host message IDs must be nonzero and strictly increasing"
    );
    assert_eq!(
        harness().fault(carrying(
            5,
            Payload::Shutdown(ShutdownRequest {
                reason: String::new(),
                grace_period_deadline: None,
            })
        )),
        "ShutdownRequest reason must not be empty"
    );
}

#[test]
fn a_broken_stream_ends_the_session() {
    let closed = harness().event(ServeEvent::Received(Ok(None))).unwrap_err();
    assert!(matches!(closed, SdkError::Transport(_)));
    assert_eq!(closed.message(), "host closed the plugin stream");
    let broken = harness()
        .event(ServeEvent::Received(Err("reset".to_owned())))
        .unwrap_err();
    assert_eq!(broken.message(), "receive plugin runtime envelope: reset");
    let lost = harness()
        .event(ServeEvent::Finished(Err("panicked".to_owned())))
        .unwrap_err();
    assert_eq!(
        lost.message(),
        "action supervisor task ended without a result: panicked"
    );
}
