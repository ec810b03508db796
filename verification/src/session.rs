//! The session with the host, from its greeting to its end.

pub mod jobs;
pub mod liveness;

use vstd::prelude::*;

use crate::error::{ErrorView, SdkError};
use crate::foreign;
use crate::host::artifact;
use crate::host::client::HostClient;
use crate::host::ActionResult;
use crate::plugin::{Plugin, RegisteredAction};
use crate::protocol::{
    ActionDescriptor, CancelJobRequest, ErrorCode, Heartbeat, HostHello, Invocation, Outgoing,
    Payload, PluginEnvelope, PluginHello, PluginId, PluginName, ProtocolErrorView, SessionReady,
    ShutdownAcknowledged, ShutdownRequest, StartJobRequest, Timestamp, TraceContext,
};
use crate::sender::{SessionIdentity, SessionSender};
use crate::text;
use crate::validation;
use jobs::{Admission, AdmittedJob, CancelAnswer, FinishedAction, JobManager, StoppedJobs};

verus! {

// ---------------------------------------------------------------------------
// Envelopes
// ---------------------------------------------------------------------------

/// What the stream from the host yields: an envelope, its end, or an error.
pub type Incoming = Result<Option<PluginEnvelope>, String>;

/// What both sides agreed on, and how far the host has got.
#[derive(Debug)]
pub struct SessionState {
    pub identity: SessionIdentity,
    pub last_host_message_id: u64,
    pub maximum_call_depth: u32,
    pub maximum_causal_depth: u32,
}

/// Why the stream yields no envelope.
pub open spec fn stream_error(incoming: Incoming, operation: Seq<char>) -> Option<ErrorView> {
    match incoming {
        Err(source) => Some(ErrorView::Runtime { operation, source: source@ }),
        Ok(None) => Some(ErrorView::Transport("host closed the plugin stream"@)),
        Ok(Some(_)) => None,
    }
}

fn next_envelope(incoming: Incoming, operation: &'static str) -> (result: Result<
    PluginEnvelope,
    SdkError,
>)
    ensures
        match result {
            Ok(envelope) => incoming == Ok::<Option<PluginEnvelope>, String>(Some(envelope)),
            Err(error) => stream_error(incoming, operation@) == Some(error@),
        },
{
    match incoming {
        Err(source) => Err(SdkError::runtime(operation, source)),
        Ok(None) => Err(SdkError::Transport("host closed the plugin stream".to_owned())),
        Ok(Some(envelope)) => Ok(envelope),
    }
}

impl SessionState {
    /// What is wrong with an envelope of an established session.
    pub open spec fn envelope_error(self, envelope: PluginEnvelope) -> Option<ErrorView> {
        if envelope.message_id == 0 || envelope.message_id <= self.last_host_message_id {
            Some(ErrorView::Protocol("host message IDs must be nonzero and strictly increasing"@))
        } else if envelope.session_id@ != self.identity.session_id@ || envelope.plugin_instance_id@
            != self.identity.instance_id@ {
            Some(ErrorView::Protocol("host envelope belongs to another plugin instance"@))
        } else {
            validation::trace_error(envelope, self.maximum_call_depth, self.maximum_causal_depth)
        }
    }

    /// The session after it has taken an envelope.
    pub open spec fn after(self, envelope: PluginEnvelope) -> SessionState {
        SessionState { last_host_message_id: envelope.message_id, ..self }
    }
}

/// Takes an envelope into the session if it is the session's and comes in order,
/// and returns its trace.
pub fn validate_envelope<'a>(envelope: &'a PluginEnvelope, session: &mut SessionState) -> (result:
    Result<&'a TraceContext, SdkError>)
    ensures
        match result {
            Ok(trace) => {
                &&& old(session).envelope_error(*envelope) is None
                &&& envelope.trace == Some(*trace)
                &&& *final(session) == old(session).after(*envelope)
            },
            Err(error) => {
                &&& old(session).envelope_error(*envelope) == Some(error@)
                &&& *final(session) == *old(session)
            },
        },
{
    if envelope.message_id == 0 || envelope.message_id <= session.last_host_message_id {
        return Err(SdkError::protocol("host message IDs must be nonzero and strictly increasing"));
    }
    if !text::same(envelope.session_id.as_str(), session.identity.session_id.as_str())
        || !text::same(
        envelope.plugin_instance_id.as_str(),
        session.identity.instance_id.as_str(),
    ) {
        return Err(SdkError::protocol("host envelope belongs to another plugin instance"));
    }
    match validation::trace(envelope, session.maximum_call_depth, session.maximum_causal_depth) {
        Ok(trace) => {
            session.last_host_message_id = envelope.message_id;
            Ok(trace)
        },
        Err(error) => Err(error),
    }
}

/// What is wrong with the first thing that the host sends.
pub open spec fn initial_error(incoming: Incoming) -> Option<ErrorView> {
    match incoming {
        Ok(Some(envelope)) if envelope.message_id == 0 => Some(
            ErrorView::Protocol("host message IDs must be nonzero and strictly increasing"@),
        ),
        _ => stream_error(incoming, "receive initial HostHello"@),
    }
}

/// Takes the first envelope of the host.
pub fn receive_initial(incoming: Incoming) -> (result: Result<PluginEnvelope, SdkError>)
    ensures
        match result {
            Ok(envelope) => initial_error(incoming) is None && incoming == Ok::<
                Option<PluginEnvelope>,
                String,
            >(Some(envelope)),
            Err(error) => initial_error(incoming) == Some(error@),
        },
{
    match next_envelope(incoming, "receive initial HostHello") {
        Ok(envelope) => if envelope.message_id == 0 {
            Err(SdkError::protocol("host message IDs must be nonzero and strictly increasing"))
        } else {
            Ok(envelope)
        },
        Err(error) => Err(error),
    }
}

/// What is wrong with an envelope of the handshake.
pub open spec fn handshake_error(session: SessionState, incoming: Incoming) -> Option<ErrorView> {
    match incoming {
        Ok(Some(envelope)) => session.envelope_error(envelope),
        _ => stream_error(incoming, "receive handshake envelope"@),
    }
}

/// Takes the next envelope of the handshake into the session.
pub fn receive(incoming: Incoming, session: &mut SessionState) -> (result: Result<
    PluginEnvelope,
    SdkError,
>)
    ensures
        match result {
            Ok(envelope) => {
                &&& handshake_error(*old(session), incoming) is None
                &&& incoming == Ok::<Option<PluginEnvelope>, String>(Some(envelope))
                &&& *final(session) == old(session).after(envelope)
            },
            Err(error) => {
                &&& handshake_error(*old(session), incoming) == Some(error@)
                &&& *final(session) == *old(session)
            },
        },
{
    let envelope: PluginEnvelope = match next_envelope(incoming, "receive handshake envelope") {
        Ok(envelope) => envelope,
        Err(error) => {
            return Err(error);
        },
    };
    match validate_envelope(&envelope, session) {
        Ok(_) => {},
        Err(error) => {
            return Err(error);
        },
    }
    Ok(envelope)
}

// ---------------------------------------------------------------------------
// Handshake
// ---------------------------------------------------------------------------

/// A session in which the host and the plugin have greeted each other.
#[derive(Debug)]
pub struct Handshake {
    pub session: SessionState,
    pub sender: SessionSender,
    pub trace: TraceContext,
    pub maximum_artifact_chunk_bytes: u64,
}

/// A session that is ready for work.
#[derive(Debug)]
#[verifier::reject_recursive_types(W)]
pub struct Established<W> {
    pub session: SessionState,
    pub sender: SessionSender,
    pub host: HostClient<W>,
}

/// What is wrong with the greeting of the host to the plugin `plugin_id`.
pub open spec fn greeting_error(plugin_id: Seq<char>, incoming: Incoming) -> Option<ErrorView> {
    match initial_error(incoming) {
        Some(error) => Some(error),
        None => {
            let first = incoming->Ok_0->0;
            if first.session_id@.len() == 0 || first.plugin_instance_id@.len() == 0 {
                Some(
                    ErrorView::Protocol(
                        "HostHello envelope omitted its session or instance identity"@,
                    ),
                )
            } else if first.reply_to is Some {
                Some(ErrorView::Protocol("HostHello must not reply to another message"@))
            } else {
                match first.payload {
                    Some(Payload::HostHello(hello)) => if validation::hello_accepted(
                        plugin_id,
                        hello,
                    ) {
                        validation::trace_error(
                            first,
                            hello.maximum_call_depth,
                            hello.maximum_causal_depth,
                        )
                    } else {
                        Some(
                            ErrorView::Protocol(
                                "HostHello does not describe the expected plugin instance"@,
                            ),
                        )
                    },
                    _ => Some(ErrorView::Protocol("HostHello must be the first host message"@)),
                }
            }
        },
    }
}

/// Whether the plugin introduces itself and each of its actions under the name
/// that the host gave it.
pub open spec fn introduces<H>(
    introduction: PluginHello,
    plugin: Plugin<H>,
    hello: HostHello,
) -> bool {
    &&& introduction.plugin_id matches Some(id) && id.value@ == plugin.plugin_id@
    &&& introduction.plugin_name matches Some(name) && hello.plugin_name matches Some(given)
        && name.value@ == given.value@
    &&& introduction.plugin_version@ == plugin.version@
    &&& introduction.actions@.len() == plugin.actions@.len()
    &&& forall|index: int|
        0 <= index < plugin.actions@.len() ==> {
            &&& (#[trigger] introduction.actions@[index]).name@ == plugin.actions@[index].name@
            &&& introduction.actions@[index].description@ == plugin.actions@[index].description@
        }
}

fn describe_actions<H>(actions: &Vec<RegisteredAction<H>>) -> (result: Vec<ActionDescriptor>)
    ensures
        result@.len() == actions@.len(),
        forall|index: int|
            0 <= index < actions@.len() ==> {
                &&& (#[trigger] result@[index]).name@ == actions@[index].name@
                &&& result@[index].description@ == actions@[index].description@
            },
{
    let mut descriptors: Vec<ActionDescriptor> = Vec::new();
    for index in 0..actions.len()
        invariant
            descriptors@.len() == index,
            forall|k: int|
                0 <= k < index ==> {
                    &&& (#[trigger] descriptors@[k]).name@ == actions@[k].name@
                    &&& descriptors@[k].description@ == actions@[k].description@
                },
    {
        descriptors.push(
            ActionDescriptor {
                name: actions[index].name.clone(),
                description: actions[index].description.clone(),
            },
        );
    }
    descriptors
}

impl Handshake {
    /// One message has been sent in the name of the session.
    pub open spec fn well_formed(self) -> bool {
        &&& self.sender.identity == self.session.identity
        &&& self.sender.next_message_id == 2
    }

    /// Answers the greeting of the host with that of the plugin.
    pub fn begin<H>(plugin: &Plugin<H>, incoming: Incoming) -> (result: Result<
        (Handshake, PluginEnvelope),
        SdkError,
    >)
        ensures
            match result {
                Ok((handshake, answer)) => {
                    let first = incoming->Ok_0->0;
                    let hello = first.payload->0->HostHello_0;
                    &&& greeting_error(plugin.plugin_id@, incoming) is None
                    &&& handshake.session == (SessionState {
                        identity: SessionIdentity {
                            session_id: first.session_id,
                            instance_id: first.plugin_instance_id,
                        },
                        last_host_message_id: first.message_id,
                        maximum_call_depth: hello.maximum_call_depth,
                        maximum_causal_depth: hello.maximum_causal_depth,
                    })
                    &&& first.trace == Some(handshake.trace)
                    &&& handshake.maximum_artifact_chunk_bytes == hello.maximum_artifact_chunk_bytes
                    &&& handshake.well_formed()
                    &&& answer.message_id == 1
                    &&& answer.reply_to is None
                    &&& answer.session_id == first.session_id
                    &&& answer.plugin_instance_id == first.plugin_instance_id
                    &&& answer.trace == first.trace
                    &&& answer.payload matches Some(Payload::PluginHello(introduction))
                        && introduces(introduction, *plugin, hello)
                },
                Err(error) => greeting_error(plugin.plugin_id@, incoming) == Some(error@),
            },
    {
        let first: PluginEnvelope = match receive_initial(incoming) {
            Ok(first) => first,
            Err(error) => {
                return Err(error);
            },
        };
        if first.session_id.as_str().is_empty() || first.plugin_instance_id.as_str().is_empty() {
            return Err(
                SdkError::protocol("HostHello envelope omitted its session or instance identity"),
            );
        }
        if first.reply_to.is_some() {
            return Err(SdkError::protocol("HostHello must not reply to another message"));
        }
        let hello: &HostHello = match &first.payload {
            Some(Payload::HostHello(hello)) => hello,
            _ => {
                return Err(SdkError::protocol("HostHello must be the first host message"));
            },
        };
        match validation::host_hello(plugin.plugin_id.as_str(), hello) {
            Ok(()) => {},
            Err(error) => {
                return Err(error);
            },
        }
        let trace: TraceContext = match validation::trace(
            &first,
            hello.maximum_call_depth,
            hello.maximum_causal_depth,
        ) {
            Ok(trace) => trace.clone(),
            Err(error) => {
                return Err(error);
            },
        };
        let session: SessionState = SessionState {
            identity: SessionIdentity {
                session_id: first.session_id.clone(),
                instance_id: first.plugin_instance_id.clone(),
            },
            last_host_message_id: first.message_id,
            maximum_call_depth: hello.maximum_call_depth,
            maximum_causal_depth: hello.maximum_causal_depth,
        };
        let mut sender: SessionSender = SessionSender::new(session.identity.clone());
        let plugin_name: Option<PluginName> = match &hello.plugin_name {
            Some(name) => Some(PluginName { value: name.value.clone() }),
            None => None,
        };
        let introduction: PluginHello = PluginHello {
            plugin_id: Some(PluginId { value: plugin.plugin_id.clone() }),
            plugin_name,
            actions: describe_actions(&plugin.actions),
            plugin_version: plugin.version.clone(),
        };
        let answer: PluginEnvelope = match sender.enqueue(
            None,
            trace.clone(),
            Payload::PluginHello(introduction),
        ) {
            Ok(answer) => answer,
            Err(error) => {
                return Err(error);
            },
        };
        let handshake: Handshake = Handshake {
            session,
            sender,
            trace,
            maximum_artifact_chunk_bytes: hello.maximum_artifact_chunk_bytes,
        };
        Ok((handshake, answer))
    }

    /// Whether the host declares the session ready under the trace of its
    /// greeting.
    pub open spec fn ready_by(self, envelope: PluginEnvelope) -> bool {
        &&& envelope.reply_to is None
        &&& envelope.trace matches Some(trace) && trace@ == self.trace@
        &&& envelope.payload matches Some(Payload::Ready(_))
    }

    /// What is wrong with the answer of the host to the greeting of the plugin.
    pub open spec fn ready_error(self, incoming: Incoming) -> Option<ErrorView> {
        match handshake_error(self.session, incoming) {
            Some(error) => Some(error),
            None => if self.ready_by(incoming->Ok_0->0) {
                None
            } else {
                Some(
                    ErrorView::Protocol(
                        "host SessionReady must follow PluginHello with the HostHello trace"@,
                    ),
                )
            },
        }
    }

    /// Ends the handshake: both sides are ready.
    pub fn confirm<W>(self, incoming: Incoming) -> (result: Result<
        (Established<W>, PluginEnvelope),
        SdkError,
    >)
        requires
            self.well_formed(),
        ensures
            match result {
                Ok((established, answer)) => {
                    &&& self.ready_error(incoming) is None
                    &&& established.session == self.session.after(incoming->Ok_0->0)
                    &&& self.sender.sends(
                        None,
                        self.trace,
                        Payload::Ready(SessionReady {  }),
                        answer,
                        established.sender,
                    )
                    &&& established.host.pending@.len() == 0
                    &&& established.host.session_id == self.session.identity.session_id
                    &&& established.host.maximum_artifact_chunk_bytes
                        == self.maximum_artifact_chunk_bytes
                    &&& established.host.maximum_call_depth == self.session.maximum_call_depth
                    &&& established.host.numbered_by(established.sender)
                },
                Err(error) => self.ready_error(incoming) == Some(error@),
            },
    {
        let Handshake { session, sender, trace, maximum_artifact_chunk_bytes } = self;
        let mut session: SessionState = session;
        let mut sender: SessionSender = sender;
        let ready: PluginEnvelope = match receive(incoming, &mut session) {
            Ok(ready) => ready,
            Err(error) => {
                return Err(error);
            },
        };
        let same_trace: bool = match &ready.trace {
            Some(other) => trace.same(other),
            None => false,
        };
        let is_ready: bool = match &ready.payload {
            Some(Payload::Ready(_)) => true,
            _ => false,
        };
        if ready.reply_to.is_some() || !same_trace || !is_ready {
            return Err(
                SdkError::protocol(
                    "host SessionReady must follow PluginHello with the HostHello trace",
                ),
            );
        }
        let answer: PluginEnvelope = match sender.enqueue(
            None,
            trace,
            Payload::Ready(SessionReady {  }),
        ) {
            Ok(answer) => answer,
            Err(error) => {
                return Err(error);
            },
        };
        let host: HostClient<W> = HostClient::new(
            session.identity.session_id.clone(),
            maximum_artifact_chunk_bytes,
            session.maximum_call_depth,
        );
        Ok((Established { session, sender, host }, answer))
    }
}

// ---------------------------------------------------------------------------
// Service
// ---------------------------------------------------------------------------

/// What a ready session has to react to.
pub enum ServeEvent {
    /// The task of an action ended, with its output or the error of the task.
    Finished(Result<(String, Result<ActionResult, SdkError>), String>),
    /// The stream from the host moved.
    Received(Incoming),
}

/// What a ready session does next.
#[derive(Debug)]
pub enum ServeStep<W> {
    /// Send these messages, in this order.
    Send(Vec<Outgoing>),
    /// Hand the response over to whoever waits for it.
    Deliver(W, Payload),
    /// Send the message and start the action of the job.
    Start(Outgoing, AdmittedJob),
    /// Ask the action of this job to stop.
    Signal(String),
    /// Stop all actions, send the acknowledgements and the final one, wait until
    /// that one has left, and then for the host to close until the deadline.
    Shutdown { stopped: StoppedJobs, acknowledgement: Outgoing, deadline: Timestamp },
}

/// The error that a structured error of the host ends the session with.
pub open spec fn host_fault(error: ProtocolErrorView) -> ErrorView {
    if validation::error_specified(error) {
        ErrorView::Host(error)
    } else {
        ErrorView::Protocol("ProtocolError code and message must be specified"@)
    }
}

/// Why a response of the host ends the session.
pub open spec fn response_fault<W>(
    host: HostClient<W>,
    reply_to: u64,
    envelope: PluginEnvelope,
) -> Option<ErrorView> {
    match envelope.payload {
        None => Some(ErrorView::Protocol("response payload is required"@)),
        Some(Payload::ProtocolError(error)) if !validation::error_specified(error@) => Some(
            ErrorView::Protocol("ProtocolError code and message must be specified"@),
        ),
        Some(_) => host.route_error(reply_to, envelope.trace->0),
    }
}

/// Why a message that the host sends of its own accord ends the session.
pub open spec fn message_fault<H>(
    jobs: JobManager<H>,
    envelope: PluginEnvelope,
) -> Option<ErrorView> {
    match envelope.payload {
        Some(Payload::StartJob(request)) => jobs.start_error(request),
        Some(Payload::CancelJob(request)) => JobManager::<H>::cancel_error(request),
        Some(Payload::Heartbeat(_)) => None,
        Some(Payload::Shutdown(request)) => validation::shutdown_error(request),
        Some(Payload::ProtocolError(error)) => Some(host_fault(error@)),
        Some(_) => Some(ErrorView::Protocol("unexpected host-initiated message"@)),
        None => Some(ErrorView::Protocol("payload is required"@)),
    }
}

/// Why an event ends the session.
pub open spec fn serve_error<H, W>(
    session: SessionState,
    jobs: JobManager<H>,
    host: HostClient<W>,
    event: ServeEvent,
) -> Option<ErrorView> {
    match event {
        ServeEvent::Finished(Ok(_)) => None,
        ServeEvent::Finished(Err(source)) => Some(
            ErrorView::Action("action supervisor task ended without a result: "@ + source@),
        ),
        ServeEvent::Received(Ok(Some(envelope))) => match session.envelope_error(envelope) {
            Some(error) => Some(error),
            None => match envelope.reply_to {
                Some(reply_to) => response_fault(host, reply_to, envelope),
                None => message_fault(jobs, envelope),
            },
        },
        ServeEvent::Received(incoming) => stream_error(
            incoming,
            "receive plugin runtime envelope"@,
        ),
    }
}

/// Whether a message that the host sends of its own accord leads to `step` and
/// turns `jobs` into `jobs_after`.
pub open spec fn message_served<H, W>(
    jobs: JobManager<H>,
    envelope: PluginEnvelope,
    step: ServeStep<W>,
    jobs_after: JobManager<H>,
) -> bool {
    let id = envelope.message_id;
    let trace = envelope.trace->0;
    match envelope.payload {
        Some(Payload::StartJob(request)) => match step {
            ServeStep::Send(messages) => messages@.len() == 1 && jobs.starts(
                id,
                trace,
                request,
                Admission::Rejected(messages@[0]),
                jobs_after,
            ),
            ServeStep::Start(reply, job) => jobs.starts(
                id,
                trace,
                request,
                Admission::Accepted(reply, job),
                jobs_after,
            ),
            _ => false,
        },
        Some(Payload::CancelJob(request)) => match step {
            ServeStep::Send(messages) => messages@.len() == 1 && jobs.cancels(
                id,
                trace,
                request,
                CancelAnswer::Acknowledge(messages@[0]),
                jobs_after,
            ),
            ServeStep::Signal(job_id) => jobs.cancels(
                id,
                trace,
                request,
                CancelAnswer::Signal(job_id),
                jobs_after,
            ),
            _ => false,
        },
        Some(Payload::Heartbeat(heartbeat)) => {
            &&& jobs_after == jobs
            &&& step matches ServeStep::Send(messages) && messages@ == seq![
                Outgoing { reply_to: Some(id), trace, payload: Payload::Heartbeat(heartbeat) },
            ]
        },
        Some(Payload::Shutdown(request)) => {
            &&& step matches ServeStep::Shutdown { stopped, acknowledgement, deadline } && {
                &&& jobs.shuts_down(stopped, jobs_after)
                &&& acknowledgement == Outgoing {
                    reply_to: Some(id),
                    trace,
                    payload: Payload::ShutdownAcknowledged(ShutdownAcknowledged {  }),
                }
                &&& request.grace_period_deadline == Some(deadline)
            }
        },
        _ => false,
    }
}

/// Whether an event leads to `step` and turns the state of the session into
/// what follows.
pub open spec fn served<H, W>(
    session: SessionState,
    jobs: JobManager<H>,
    host: HostClient<W>,
    event: ServeEvent,
    step: ServeStep<W>,
    session_after: SessionState,
    jobs_after: JobManager<H>,
    host_after: HostClient<W>,
) -> bool {
    match event {
        ServeEvent::Finished(Ok((job_id, output))) => {
            &&& session_after == session
            &&& host_after == host
            &&& step matches ServeStep::Send(messages) && jobs.settles(
                FinishedAction { job_id, output },
                messages@,
                jobs_after,
            )
        },
        ServeEvent::Received(Ok(Some(envelope))) => {
            &&& session_after == session.after(envelope)
            &&& match envelope.reply_to {
                Some(reply_to) => {
                    &&& jobs_after == jobs
                    &&& host_after.pending@ == host.pending@.remove(reply_to)
                    &&& host_after.same_session(host)
                    &&& step matches ServeStep::Deliver(waiter, payload) && {
                        &&& waiter == host.pending@[reply_to].response
                        &&& envelope.payload == Some(payload)
                    }
                },
                None => {
                    &&& host_after == host
                    &&& message_served(jobs, envelope, step, jobs_after)
                },
            }
        },
        _ => false,
    }
}

/// Whether an event takes an envelope into the session, whatever comes of it.
pub open spec fn takes_envelope(session: SessionState, event: ServeEvent) -> bool {
    event matches ServeEvent::Received(Ok(Some(envelope))) && session.envelope_error(envelope)
        is None
}

/// Whether an event brings a response for the requests that wait for one.
pub open spec fn brings_response(session: SessionState, event: ServeEvent) -> bool {
    let envelope = event->Received_0->Ok_0->0;
    &&& takes_envelope(session, event)
    &&& envelope.reply_to is Some
    &&& match envelope.payload {
        Some(Payload::ProtocolError(error)) => validation::error_specified(error@),
        Some(_) => true,
        None => false,
    }
}

/// Reacts to one event of a ready session. An error ends the session.
pub fn serve<H, W>(
    session: &mut SessionState,
    jobs: &mut JobManager<H>,
    host: &mut HostClient<W>,
    event: ServeEvent,
) -> (result: Result<ServeStep<W>, SdkError>)
    requires
        old(jobs).well_formed(),
        event matches ServeEvent::Finished(Ok((job_id, output))) ==> {
            &&& jobs::is_active(old(jobs).active@, job_id@)
            &&& output matches Ok(output) ==> output.well_formed()
        },
    ensures
        final(jobs).well_formed(),
        match result {
            Ok(step) => {
                &&& serve_error(*old(session), *old(jobs), *old(host), event) is None
                &&& served(
                    *old(session),
                    *old(jobs),
                    *old(host),
                    event,
                    step,
                    *final(session),
                    *final(jobs),
                    *final(host),
                )
            },
            Err(error) => {
                &&& serve_error(*old(session), *old(jobs), *old(host), event) == Some(error@)
                &&& *final(jobs) == *old(jobs)
                &&& *final(session) == if takes_envelope(*old(session), event) {
                    old(session).after(event->Received_0->Ok_0->0)
                } else {
                    *old(session)
                }
                &&& if brings_response(*old(session), event) {
                    &&& final(host).same_session(*old(host))
                    &&& final(host).pending@ == old(host).pending@.remove(
                        event->Received_0->Ok_0->0.reply_to->0,
                    )
                } else {
                    *final(host) == *old(host)
                }
            },
        },
{
    let envelope: PluginEnvelope = match event {
        ServeEvent::Finished(outcome) => {
            return match jobs::joined(outcome) {
                Ok(finished) => Ok(ServeStep::Send(jobs.settle(finished))),
                Err(error) => Err(error),
            };
        },
        ServeEvent::Received(incoming) => match next_envelope(
            incoming,
            "receive plugin runtime envelope",
        ) {
            Ok(envelope) => envelope,
            Err(error) => {
                return Err(error);
            },
        },
    };
    let trace: TraceContext = match validate_envelope(&envelope, session) {
        Ok(trace) => trace.clone(),
        Err(error) => {
            return Err(error);
        },
    };
    match envelope.reply_to {
        Some(reply_to) => accept_response(host, reply_to, &trace, envelope.payload),
        None => accept_message(jobs, envelope.message_id, trace, envelope.payload),
    }
}

fn accept_response<W>(
    host: &mut HostClient<W>,
    reply_to: u64,
    trace: &TraceContext,
    payload: Option<Payload>,
) -> (result: Result<ServeStep<W>, SdkError>)
    ensures
        match result {
            Ok(step) => {
                &&& payload matches Some(Payload::ProtocolError(error))
                    ==> validation::error_specified(error@)
                &&& old(host).route_error(reply_to, *trace) is None
                &&& final(host).pending@ == old(host).pending@.remove(reply_to)
                &&& final(host).same_session(*old(host))
                &&& step matches ServeStep::Deliver(waiter, delivered) && {
                    &&& waiter == old(host).pending@[reply_to].response
                    &&& payload == Some(delivered)
                }
            },
            Err(error) => match payload {
                None => {
                    &&& *final(host) == *old(host)
                    &&& error@ == ErrorView::Protocol("response payload is required"@)
                },
                Some(Payload::ProtocolError(fault)) if !validation::error_specified(fault@) => {
                    &&& *final(host) == *old(host)
                    &&& error@ == ErrorView::Protocol(
                        "ProtocolError code and message must be specified"@,
                    )
                },
                Some(_) => {
                    &&& final(host).pending@ == old(host).pending@.remove(reply_to)
                    &&& final(host).same_session(*old(host))
                    &&& old(host).route_error(reply_to, *trace) == Some(error@)
                },
            },
        },
{
    let payload: Payload = match payload {
        Some(payload) => payload,
        None => {
            return Err(SdkError::protocol("response payload is required"));
        },
    };
    match &payload {
        Payload::ProtocolError(error) => match validation::protocol_error(error) {
            Ok(()) => {},
            Err(fault) => {
                return Err(fault);
            },
        },
        _ => {},
    }
    match host.route(reply_to, trace) {
        Ok(waiter) => Ok(ServeStep::Deliver(waiter, payload)),
        Err(error) => Err(error),
    }
}

fn accept_message<H, W>(
    jobs: &mut JobManager<H>,
    message_id: u64,
    trace: TraceContext,
    payload: Option<Payload>,
) -> (result: Result<ServeStep<W>, SdkError>)
    requires
        old(jobs).well_formed(),
    ensures
        final(jobs).well_formed(),
        forall|envelope: PluginEnvelope|
            envelope.message_id == message_id && envelope.trace == Some(trace) && envelope.payload
                == payload ==> match result {
                Ok(step) => {
                    &&& #[trigger] message_fault(*old(jobs), envelope) is None
                    &&& message_served(*old(jobs), envelope, step, *final(jobs))
                },
                Err(error) => {
                    &&& message_fault(*old(jobs), envelope) == Some(error@)
                    &&& *final(jobs) == *old(jobs)
                },
            },
{
    match payload {
        Some(Payload::StartJob(request)) => match jobs.start(message_id, trace, request) {
            Ok(Admission::Rejected(reply)) => {
                let mut messages: Vec<Outgoing> = Vec::new();
                messages.push(reply);
                Ok(ServeStep::Send(messages))
            },
            Ok(Admission::Accepted(reply, job)) => Ok(ServeStep::Start(reply, job)),
            Err(error) => Err(error),
        },
        Some(Payload::CancelJob(request)) => match jobs.cancel(message_id, trace, request) {
            Ok(CancelAnswer::Signal(job_id)) => Ok(ServeStep::Signal(job_id)),
            Ok(CancelAnswer::Acknowledge(reply)) => {
                let mut messages: Vec<Outgoing> = Vec::new();
                messages.push(reply);
                Ok(ServeStep::Send(messages))
            },
            Err(error) => Err(error),
        },
        Some(Payload::Heartbeat(heartbeat)) => {
            let mut messages: Vec<Outgoing> = Vec::new();
            messages.push(
                Outgoing {
                    reply_to: Some(message_id),
                    trace,
                    payload: Payload::Heartbeat(heartbeat),
                },
            );
            Ok(ServeStep::Send(messages))
        },
        Some(Payload::Shutdown(request)) => match validation::shutdown(&request) {
            Ok(deadline) => {
                let stopped: StoppedJobs = jobs.shutdown();
                let acknowledgement: Outgoing = Outgoing {
                    reply_to: Some(message_id),
                    trace,
                    payload: Payload::ShutdownAcknowledged(ShutdownAcknowledged {  }),
                };
                Ok(ServeStep::Shutdown { stopped, acknowledgement, deadline })
            },
            Err(error) => Err(error),
        },
        Some(Payload::ProtocolError(error)) => match validation::protocol_error(&error) {
            Ok(()) => Err(SdkError::Host(error)),
            Err(fault) => Err(fault),
        },
        Some(_) => Err(SdkError::protocol("unexpected host-initiated message")),
        None => Err(SdkError::protocol("payload is required")),
    }
}

// ---------------------------------------------------------------------------
// End
// ---------------------------------------------------------------------------

/// A span of time that has not passed yet.
#[derive(Clone, Copy, Debug, PartialEq, Eq, Structural)]
pub struct TimeLeft {
    pub seconds: u64,
    pub nanos: u32,
}

/// The nanoseconds from the Unix epoch to a timestamp.
pub open spec fn nanoseconds(timestamp: Timestamp) -> int {
    timestamp.seconds * 1_000_000_000 + timestamp.nanos
}

/// How long to wait for the host to close the stream: from `now` until the
/// deadline, or not at all once that has passed.
pub fn time_left(deadline: Timestamp, now: Timestamp) -> (result: TimeLeft)
    requires
        0 <= deadline.nanos <= 999_999_999,
        0 <= now.nanos <= 999_999_999,
    ensures
        result.nanos < 1_000_000_000,
        result.seconds * 1_000_000_000 + result.nanos == if nanoseconds(now) < nanoseconds(
            deadline,
        ) {
            nanoseconds(deadline) - nanoseconds(now)
        } else {
            0
        },
{
    let mut seconds: i128 = deadline.seconds as i128 - now.seconds as i128;
    let mut nanos: i32 = deadline.nanos - now.nanos;
    if nanos < 0 {
        seconds = seconds - 1;
        nanos = nanos + 1_000_000_000;
    }
    if seconds < 0 {
        return TimeLeft { seconds: 0, nanos: 0 };
    }
    TimeLeft { seconds: seconds as u64, nanos: nanos as u32 }
}

/// How long to wait for the host to close the stream, given whether the system
/// can represent the deadline and what time it is.
pub fn close_limit(
    representable: Result<(), String>,
    deadline: Timestamp,
    now: Timestamp,
) -> (result: Result<TimeLeft, SdkError>)
    requires
        0 <= deadline.nanos <= 999_999_999,
        0 <= now.nanos <= 999_999_999,
    ensures
        match representable {
            Ok(()) => result matches Ok(left) && left.nanos < 1_000_000_000 && left.seconds
                * 1_000_000_000 + left.nanos == if nanoseconds(now) < nanoseconds(deadline) {
                nanoseconds(deadline) - nanoseconds(now)
            } else {
                0
            },
            Err(source) => result is Err && result->Err_0@ == ErrorView::Protocol(
                "invalid shutdown deadline: "@ + source@,
            ),
        },
{
    match representable {
        Ok(()) => Ok(time_left(deadline, now)),
        Err(source) => {
            let mut message: String = "invalid shutdown deadline: ".to_owned();
            message.append(source.as_str());
            Err(SdkError::Protocol(message))
        },
    }
}

/// How long to wait, from the present time, for the host to close the stream.
///
/// What time it is depends on the system clock, and whether the deadline can be
/// represented on the system.
pub fn time_to_close(deadline: Timestamp) -> (result: Result<TimeLeft, SdkError>)
    requires
        0 <= deadline.nanos <= 999_999_999,
    ensures
        match result {
            Ok(left) => {
                &&& left.nanos < 1_000_000_000
                &&& exists|now: Timestamp| #[trigger]
                    foreign::clock_reads(now) && 0 <= now.nanos <= 999_999_999 && left.seconds
                        * 1_000_000_000 + left.nanos == if nanoseconds(now) < nanoseconds(
                        deadline,
                    ) {
                        nanoseconds(deadline) - nanoseconds(now)
                    } else {
                        0
                    }
                &&& exists|answer: Result<(), String>| #[trigger]
                    foreign::system_answers(deadline, answer) && answer is Ok
            },
            Err(error) => exists|source: String| #[trigger]
                foreign::system_answers(deadline, Err(source)) && error@ == ErrorView::Protocol(
                    "invalid shutdown deadline: "@ + source@,
                ),
        },
{
    proof {
        assert forall|now: Timestamp| #[trigger]
            call_ensures(foreign::current_time, (), now) implies foreign::clock_reads(now) by {
            foreign::lemma_clock_reads(now);
        }
        assert forall|answer: Result<(), String>| #[trigger]
            call_ensures(
                foreign::representable,
                (deadline,),
                answer,
            ) implies foreign::system_answers(deadline, answer) by {
            foreign::lemma_system_answers(deadline, answer);
        }
    }
    close_limit(foreign::representable(deadline), deadline, foreign::current_time())
}

/// How the wait for the host to close the stream ended.
#[derive(Clone, Copy, Debug, PartialEq, Eq, Structural)]
pub enum HostClose {
    /// The deadline passed.
    TimedOut,
    /// The stream ended.
    Closed,
    /// The stream broke.
    Broken,
    /// The host sent another message.
    Message,
}

/// Judges how the host behaved after its request to shut down.
pub fn wait_for_host_close(outcome: HostClose) -> (result: Result<(), SdkError>)
    ensures
        match result {
            Ok(()) => outcome != HostClose::Message,
            Err(error) => outcome == HostClose::Message && error@ == ErrorView::Protocol(
                "host sent a message after ShutdownRequest"@,
            ),
        },
{
    match outcome {
        HostClose::TimedOut => Ok(()),
        HostClose::Closed => Ok(()),
        HostClose::Broken => Ok(()),
        HostClose::Message => Err(SdkError::protocol("host sent a message after ShutdownRequest")),
    }
}

// ---------------------------------------------------------------------------
// Laws
// ---------------------------------------------------------------------------

/// Whether a session passes through `states` by taking `envelopes`.
pub open spec fn input(states: Seq<SessionState>, envelopes: Seq<PluginEnvelope>) -> bool {
    &&& states.len() == envelopes.len() + 1
    &&& forall|index: int|
        0 <= index < envelopes.len() ==> {
            &&& states[index].envelope_error(#[trigger] envelopes[index]) is None
            &&& states[index + 1] == states[index].after(envelopes[index])
        }
}

/// The envelopes that a session takes from the host all carry its identity, and
/// their numbers increase strictly, so that none is taken twice.
pub proof fn law_host_messages_come_in_order(
    states: Seq<SessionState>,
    envelopes: Seq<PluginEnvelope>,
)
    requires
        input(states, envelopes),
    ensures
        states.last().identity == states[0].identity,
        states.last().last_host_message_id >= states[0].last_host_message_id,
        forall|index: int|
            0 <= index < envelopes.len() ==> {
                let envelope = #[trigger] envelopes[index];
                &&& states[0].last_host_message_id < envelope.message_id
                    <= states.last().last_host_message_id
                &&& envelope.session_id@ == states[0].identity.session_id@
                &&& envelope.plugin_instance_id@ == states[0].identity.instance_id@
            },
        forall|left: int, right: int|
            0 <= left < right < envelopes.len() ==> (#[trigger] envelopes[left]).message_id < (
            #[trigger] envelopes[right]).message_id,
    decreases envelopes.len(),
{
    if envelopes.len() > 0 {
        let last = envelopes.len() - 1;
        let earlier = envelopes.drop_last();
        assert forall|index: int| 0 <= index < earlier.len() implies {
            &&& states.drop_last()[index].envelope_error(#[trigger] earlier[index]) is None
            &&& states.drop_last()[index + 1] == states.drop_last()[index].after(earlier[index])
        } by {
            assert(earlier[index] == envelopes[index]);
        }
        law_host_messages_come_in_order(states.drop_last(), earlier);
        assert(states[last].envelope_error(envelopes[last]) is None);
        assert(states.drop_last().last() == states[last]);
        assert(forall|index: int|
            0 <= index < earlier.len() ==> #[trigger] envelopes[index] == earlier[index]);
    }
}

/// The wait for the host to close the stream ends at the deadline: added to what the
/// system clock read, it gives the deadline, unless that had passed already and there
/// is no wait at all. There is an error only where the system says that it cannot
/// represent the deadline.
pub proof fn law_the_wait_ends_at_the_deadline(
    deadline: Timestamp,
    result: Result<TimeLeft, SdkError>,
)
    requires
        0 <= deadline.nanos <= 999_999_999,
        call_ensures(time_to_close, (deadline,), result),
    ensures
        match result {
            Ok(left) => exists|now: Timestamp| #[trigger]
                foreign::clock_reads(now) && {
                    let end = now.seconds * 1_000_000_000 + now.nanos + left.seconds * 1_000_000_000
                        + left.nanos;
                    let limit = deadline.seconds * 1_000_000_000 + deadline.nanos;
                    &&& end == limit || (end > limit && left.seconds == 0 && left.nanos == 0)
                    &&& left.nanos < 1_000_000_000
                },
            Err(error) => exists|source: String| #[trigger]
                foreign::system_answers(deadline, Err(source)) && error@ == ErrorView::Protocol(
                    "invalid shutdown deadline: "@ + source@,
                ),
        },
{
}

/// The greeting of the plugin is its first message and its readiness the second,
/// so that everything else comes later.
pub proof fn law_readiness_is_the_second_message<W>(
    handshake: Handshake,
    established: Established<W>,
    answer: PluginEnvelope,
)
    requires
        handshake.well_formed(),
        handshake.sender.sends(
            None,
            handshake.trace,
            Payload::Ready(SessionReady {  }),
            answer,
            established.sender,
        ),
    ensures
        answer.message_id == 2,
        answer.session_id == handshake.session.identity.session_id,
        answer.plugin_instance_id == handshake.session.identity.instance_id,
        answer.trace == Some(handshake.trace),
        established.sender.next_message_id == 3,
{
}

/// Every request of the host to which it is owed an answer at once is answered
/// under its own number and trace.
pub proof fn law_requests_are_answered_under_their_number<H, W>(
    jobs: JobManager<H>,
    envelope: PluginEnvelope,
    step: ServeStep<W>,
    jobs_after: JobManager<H>,
)
    requires
        envelope.trace is Some,
        message_served(jobs, envelope, step, jobs_after),
    ensures
        step matches ServeStep::Send(messages) ==> messages@.len() == 1 && messages@[0].reply_to
            == Some(envelope.message_id) && messages@[0].trace == envelope.trace->0,
        step matches ServeStep::Start(reply, _) ==> reply.reply_to == Some(envelope.message_id)
            && reply.trace == envelope.trace->0,
        step matches ServeStep::Shutdown { acknowledgement, .. } ==> acknowledgement.reply_to
            == Some(envelope.message_id) && acknowledgement.trace == envelope.trace->0,
        step matches ServeStep::Signal(job_id) ==> jobs::is_active(jobs.active@, job_id@),
        !(step is Deliver),
{
    match step {
        ServeStep::Signal(job_id) => {
            let index = choose|index: int|
                #![trigger jobs::is_job(jobs.active@, index, job_id@)]
                jobs::is_job(jobs.active@, index, job_id@);
            assert(jobs::is_job(jobs.active@, index, job_id@));
        },
        _ => {},
    }
}

/// A host whose greeting is accepted has negotiated chunks of at least one byte,
/// which is enough for every artifact whose size fits in 32 bits.
pub proof fn law_greetings_leave_room_for_artifacts(
    plugin_id: Seq<char>,
    incoming: Incoming,
    size_bytes: u64,
)
    requires
        greeting_error(plugin_id, incoming) is None,
    ensures
        ({
            let limit = incoming->Ok_0->0.payload->0->HostHello_0.maximum_artifact_chunk_bytes;
            &&& limit > 0
            &&& size_bytes <= u32::MAX ==> artifact::plan_error(size_bytes, limit) is None
        }),
{
    let limit = incoming->Ok_0->0.payload->0->HostHello_0.maximum_artifact_chunk_bytes;
    let chunk = artifact::full_chunk(limit);
    if size_bytes <= u32::MAX {
        artifact::lemma_chunks_end_at_the_size(
            size_bytes as int,
            chunk,
            size_bytes as int,
        );
        assert(size_bytes <= size_bytes * chunk) by (nonlinear_arith)
            requires
                chunk >= 1,
                size_bytes >= 0,
        ;
    }
}

/// An envelope is taken into a session exactly if its number is above every number
/// taken before, it names the session and the plugin instance, and its trace has a
/// correlation ID and stays within the negotiated depths. The session then remembers
/// the number and nothing else of it.
pub proof fn law_envelopes_are_taken_in_order(session: SessionState, envelope: PluginEnvelope)
    ensures
        session.envelope_error(envelope) is None <==> {
            &&& envelope.message_id > session.last_host_message_id
            &&& envelope.session_id@ == session.identity.session_id@
            &&& envelope.plugin_instance_id@ == session.identity.instance_id@
            &&& envelope.trace matches Some(trace) && {
                &&& trace.correlation_id@.len() > 0
                &&& trace.call_depth <= session.maximum_call_depth
                &&& trace.causal_depth <= session.maximum_causal_depth
            }
        },
        session.envelope_error(envelope) matches Some(error) ==> error is Protocol,
        session.after(envelope).last_host_message_id == envelope.message_id,
        session.after(envelope).identity == session.identity,
        session.after(envelope).maximum_call_depth == session.maximum_call_depth,
        session.after(envelope).maximum_causal_depth == session.maximum_causal_depth,
{
}

/// A handshake begins exactly if the first thing the host sends is a numbered
/// greeting that names the session and the instance, answers nothing, carries a trace
/// within the limits it sets, and is accepted as a greeting to this plugin. The plugin
/// answers under that trace and identity with its ID, its version, the name it was
/// given and all of its actions.
pub proof fn law_handshakes_begin_with_the_greeting_of_the_host<H>(
    plugin: Plugin<H>,
    incoming: Incoming,
    result: Result<(Handshake, PluginEnvelope), SdkError>,
)
    requires
        call_ensures(Handshake::begin::<H>, (&plugin, incoming), result),
    ensures
        result is Ok <==> {
            &&& incoming matches Ok(Some(first)) && {
                &&& first.message_id > 0
                &&& first.session_id@.len() > 0
                &&& first.plugin_instance_id@.len() > 0
                &&& first.reply_to is None
                &&& first.payload matches Some(Payload::HostHello(hello)) && {
                    &&& validation::hello_accepted(plugin.plugin_id@, hello)
                    &&& first.trace matches Some(trace) && {
                        &&& trace.correlation_id@.len() > 0
                        &&& trace.call_depth <= hello.maximum_call_depth
                        &&& trace.causal_depth <= hello.maximum_causal_depth
                    }
                }
            }
        },
        match incoming {
            Ok(None) => result is Err && result->Err_0@ is Transport,
            Err(_) => result is Err && result->Err_0@ is Runtime,
            Ok(Some(_)) => result is Err ==> result->Err_0@ is Protocol,
        },
        result matches Ok((handshake, answer)) ==> {
            let first = incoming->Ok_0->0;
            let hello = first.payload->0->HostHello_0;
            &&& handshake.session.identity.session_id == first.session_id
            &&& handshake.session.identity.instance_id == first.plugin_instance_id
            &&& handshake.session.last_host_message_id == first.message_id
            &&& handshake.session.maximum_call_depth == hello.maximum_call_depth
            &&& handshake.session.maximum_causal_depth == hello.maximum_causal_depth
            &&& handshake.maximum_artifact_chunk_bytes == hello.maximum_artifact_chunk_bytes
            &&& first.trace == Some(handshake.trace)
            &&& answer.message_id == 1
            &&& answer.reply_to is None
            &&& answer.session_id == first.session_id
            &&& answer.plugin_instance_id == first.plugin_instance_id
            &&& answer.trace == first.trace
            &&& answer.payload matches Some(Payload::PluginHello(introduction)) && {
                &&& introduction.plugin_id matches Some(id) && id.value@ == plugin.plugin_id@
                &&& introduction.plugin_version@ == plugin.version@
                &&& introduction.plugin_name matches Some(name) && hello.plugin_name matches Some(
                    given,
                ) && name.value@ == given.value@
                &&& introduction.actions@.len() == plugin.actions@.len()
                &&& forall|index: int|
                    0 <= index < plugin.actions@.len() ==> (
                    #[trigger] introduction.actions@[index]).name@ == plugin.actions@[index].name@
                        && introduction.actions@[index].description@
                        == plugin.actions@[index].description@
            }
        },
{
}

/// A handshake ends exactly if the next envelope of the host is taken, answers
/// nothing, declares the session ready and carries the trace of the greeting in every
/// field. The plugin declares itself ready in turn, under that trace, and waits for no
/// response yet.
pub proof fn law_handshakes_end_with_both_sides_ready<W>(
    handshake: Handshake,
    incoming: Incoming,
    result: Result<(Established<W>, PluginEnvelope), SdkError>,
)
    requires
        handshake.well_formed(),
        call_ensures(Handshake::confirm::<W>, (handshake, incoming), result),
    ensures
        result is Ok <==> {
            &&& incoming matches Ok(Some(envelope)) && {
                &&& envelope.message_id > handshake.session.last_host_message_id
                &&& envelope.session_id@ == handshake.session.identity.session_id@
                &&& envelope.plugin_instance_id@ == handshake.session.identity.instance_id@
                &&& envelope.reply_to is None
                &&& envelope.payload matches Some(Payload::Ready(_))
                &&& envelope.trace matches Some(trace) && {
                    &&& trace.correlation_id@.len() > 0
                    &&& trace.call_depth <= handshake.session.maximum_call_depth
                    &&& trace.causal_depth <= handshake.session.maximum_causal_depth
                    &&& trace.correlation_id@ == handshake.trace.correlation_id@
                    &&& trace.parent_call_id == handshake.trace.parent_call_id
                    &&& trace.call_depth == handshake.trace.call_depth
                    &&& trace.causal_depth == handshake.trace.causal_depth
                    &&& same_text(trace.task_id, handshake.trace.task_id)
                    &&& same_text(trace.task_group_id, handshake.trace.task_group_id)
                }
            }
        },
        result matches Ok((established, answer)) ==> {
            &&& answer.message_id == 2
            &&& answer.reply_to is None
            &&& answer.trace == Some(handshake.trace)
            &&& answer.payload matches Some(Payload::Ready(_))
            &&& answer.session_id == handshake.session.identity.session_id
            &&& answer.plugin_instance_id == handshake.session.identity.instance_id
            &&& established.session.last_host_message_id == incoming->Ok_0->0.message_id
            &&& established.session.identity == handshake.session.identity
            &&& established.session.maximum_call_depth == handshake.session.maximum_call_depth
            &&& established.session.maximum_causal_depth == handshake.session.maximum_causal_depth
            &&& established.sender.identity == handshake.session.identity
            &&& established.sender.next_message_id == 3
            &&& established.host.pending@.len() == 0
            &&& established.host.session_id == handshake.session.identity.session_id
            &&& established.host.maximum_call_depth == handshake.session.maximum_call_depth
            &&& established.host.maximum_artifact_chunk_bytes
                == handshake.maximum_artifact_chunk_bytes
        },
{
}

/// Whether two optional texts agree.
pub open spec fn same_text(left: Option<String>, right: Option<String>) -> bool {
    match (left, right) {
        (Some(left), Some(right)) => left@ == right@,
        (None, None) => true,
        _ => false,
    }
}

/// A heartbeat comes back with its nonce, under its number and trace, and changes
/// nothing.
pub proof fn law_heartbeats_are_echoed<H, W>(
    jobs: JobManager<H>,
    envelope: PluginEnvelope,
    nonce: u64,
    step: ServeStep<W>,
    jobs_after: JobManager<H>,
)
    requires
        envelope.payload == Some(Payload::Heartbeat(Heartbeat { nonce })),
        envelope.trace is Some,
        message_served(jobs, envelope, step, jobs_after),
    ensures
        jobs_after == jobs,
        step matches ServeStep::Send(messages) && messages@.len() == 1 && {
            let answer = messages@[0];
            &&& answer.reply_to == Some(envelope.message_id)
            &&& Some(answer.trace) == envelope.trace
            &&& answer.payload matches Payload::Heartbeat(echo) && echo.nonce == nonce
        },
{
}

/// A request to shut down stops all jobs, is acknowledged under its number and trace,
/// and leaves the host time until the deadline that it named.
pub proof fn law_shutdowns_are_acknowledged<H, W>(
    jobs: JobManager<H>,
    envelope: PluginEnvelope,
    request: ShutdownRequest,
    step: ServeStep<W>,
    jobs_after: JobManager<H>,
)
    requires
        envelope.payload == Some(Payload::Shutdown(request)),
        envelope.trace is Some,
        message_served(jobs, envelope, step, jobs_after),
    ensures
        jobs_after.active@.len() == 0,
        step matches ServeStep::Shutdown { stopped, acknowledgement, deadline } && {
            &&& request.grace_period_deadline == Some(deadline)
            &&& acknowledgement.reply_to == Some(envelope.message_id)
            &&& Some(acknowledgement.trace) == envelope.trace
            &&& acknowledgement.payload is ShutdownAcknowledged
            &&& stopped.jobs@.len() == jobs.active@.len()
            &&& forall|index: int|
                0 <= index < jobs.active@.len() ==> #[trigger] stopped.jobs@[index]
                    == jobs.active@[index].job_id
        },
{
}

/// A response goes to whoever waits for the request it answers, with the payload that
/// came. The request waits no longer, and every other request and all jobs stay as
/// they are.
pub proof fn law_responses_reach_their_waiter<H, W>(
    session: SessionState,
    jobs: JobManager<H>,
    host: HostClient<W>,
    envelope: PluginEnvelope,
    reply_to: u64,
    step: ServeStep<W>,
    session_after: SessionState,
    jobs_after: JobManager<H>,
    host_after: HostClient<W>,
)
    requires
        envelope.reply_to == Some(reply_to),
        served(
            session,
            jobs,
            host,
            ServeEvent::Received(Ok(Some(envelope))),
            step,
            session_after,
            jobs_after,
            host_after,
        ),
    ensures
        step matches ServeStep::Deliver(waiter, payload) && waiter
            == host.pending@[reply_to].response && envelope.payload == Some(payload),
        jobs_after == jobs,
        !host_after.pending@.contains_key(reply_to),
        forall|other: u64|
            other != reply_to ==> (#[trigger] host_after.pending@.contains_key(other)
                <==> host.pending@.contains_key(other)) && host_after.pending@[other]
                == host.pending@[other],
        session_after.last_host_message_id == envelope.message_id,
        session_after.identity == session.identity,
{
    assert forall|other: u64| other != reply_to implies (#[trigger] host_after.pending@.contains_key(
        other,
    ) <==> host.pending@.contains_key(other)) && host_after.pending@[other]
        == host.pending@[other] by {}
}

/// The end of an action settles its job and touches nothing else of the session.
pub proof fn law_ended_actions_settle_their_job<H, W>(
    session: SessionState,
    jobs: JobManager<H>,
    host: HostClient<W>,
    job_id: String,
    output: Result<ActionResult, SdkError>,
    step: ServeStep<W>,
    session_after: SessionState,
    jobs_after: JobManager<H>,
    host_after: HostClient<W>,
)
    requires
        served(
            session,
            jobs,
            host,
            ServeEvent::Finished(Ok((job_id, output))),
            step,
            session_after,
            jobs_after,
            host_after,
        ),
    ensures
        session_after == session,
        host_after == host,
        step matches ServeStep::Send(messages) && jobs.settles(
            FinishedAction { job_id, output },
            messages@,
            jobs_after,
        ),
{
}

/// A response ends the session exactly if it is empty, is an error without a code or
/// a message, or is not one that anybody waits for under its number and trace.
pub proof fn law_unexpected_responses_end_the_session<H, W>(
    session: SessionState,
    jobs: JobManager<H>,
    host: HostClient<W>,
    envelope: PluginEnvelope,
    reply_to: u64,
)
    requires
        session.envelope_error(envelope) is None,
        envelope.reply_to == Some(reply_to),
    ensures
        serve_error(session, jobs, host, ServeEvent::Received(Ok(Some(envelope)))) is None <==> {
            &&& envelope.payload is Some
            &&& envelope.payload matches Some(Payload::ProtocolError(error)) ==> {
                &&& error.code != ErrorCode::Unspecified
                &&& error.code != ErrorCode::Other(0)
                &&& error.message@.len() > 0
            }
            &&& host.pending@.contains_key(reply_to)
            &&& host.pending@[reply_to].expected_trace@ == envelope.trace->0@
        },
        serve_error(session, jobs, host, ServeEvent::Received(Ok(Some(envelope)))) matches Some(
            error,
        ) ==> error is Protocol,
{
}

/// Of its own accord the host may start and cancel jobs, send heartbeats and shut
/// down. An error that it sends ends the session with that error, and anything else
/// breaks the protocol.
pub proof fn law_hosts_send_only_what_is_theirs_to_send<H, W>(
    session: SessionState,
    jobs: JobManager<H>,
    host: HostClient<W>,
    envelope: PluginEnvelope,
)
    requires
        session.envelope_error(envelope) is None,
        envelope.reply_to is None,
    ensures
        ({
            let fault = serve_error(
                session,
                jobs,
                host,
                ServeEvent::Received(Ok(Some(envelope))),
            );
            match envelope.payload {
                Some(Payload::StartJob(request)) => fault == jobs.start_error(request),
                Some(Payload::CancelJob(request)) => fault == JobManager::<H>::cancel_error(
                    request,
                ),
                Some(Payload::Heartbeat(_)) => fault is None,
                Some(Payload::Shutdown(request)) => fault is None <==> {
                    &&& request.reason@.len() > 0
                    &&& request.grace_period_deadline matches Some(deadline) && -62_135_596_800
                        <= deadline.seconds <= 253_402_300_799 && 0 <= deadline.nanos
                        <= 999_999_999
                },
                Some(Payload::ProtocolError(error)) => if error.code != ErrorCode::Unspecified
                    && error.code != ErrorCode::Other(0) && error.message@.len() > 0 {
                    fault == Some(ErrorView::Host(error@))
                } else {
                    fault matches Some(fault) && fault is Protocol
                },
                _ => fault matches Some(fault) && fault is Protocol,
            }
        }),
{
}

/// The stream of a session that ends or breaks ends the session: an end as a fault of
/// the transport, a break by what its error says. A task that is lost ends it too, and
/// so does an envelope that is not taken, but never an action that ended.
pub proof fn law_lost_streams_and_tasks_end_the_session<H, W>(
    session: SessionState,
    jobs: JobManager<H>,
    host: HostClient<W>,
    source: String,
    envelope: PluginEnvelope,
    job_id: String,
    output: Result<ActionResult, SdkError>,
)
    ensures
        serve_error(session, jobs, host, ServeEvent::Finished(Ok((job_id, output)))) is None,
        session.envelope_error(envelope) is Some ==> serve_error(
            session,
            jobs,
            host,
            ServeEvent::Received(Ok(Some(envelope))),
        ) == session.envelope_error(envelope),
        serve_error(session, jobs, host, ServeEvent::Received(Ok(None))) matches Some(error)
            && error is Transport,
        serve_error(session, jobs, host, ServeEvent::Received(Err(source))) matches Some(
            ErrorView::Runtime { source: said, .. },
        ) && said == source@,
        serve_error(session, jobs, host, ServeEvent::Finished(Err(source))) matches Some(error)
            && error is Action,
{
}

/// After its request to shut down the host may close the stream, break it or let the
/// deadline pass, but not send anything more.
pub proof fn law_nothing_follows_a_shutdown(outcome: HostClose, result: Result<(), SdkError>)
    requires
        call_ensures(wait_for_host_close, (outcome,), result),
    ensures
        match outcome {
            HostClose::Message => result is Err && result->Err_0@ is Protocol,
            _ => result is Ok,
        },
{
}

/// A job that is admitted is started, and the host is told so. While as many jobs run
/// as the plugin allows, none is started, and the host is told that instead.
pub proof fn law_admitted_jobs_are_started<H, W>(
    jobs: JobManager<H>,
    envelope: PluginEnvelope,
    request: StartJobRequest,
    step: ServeStep<W>,
    jobs_after: JobManager<H>,
)
    requires
        envelope.payload == Some(Payload::StartJob(request)),
        envelope.trace is Some,
        message_served(jobs, envelope, step, jobs_after),
    ensures
        if jobs.active@.len() < jobs.maximum_concurrent_jobs {
            &&& step matches ServeStep::Start(reply, job) && {
                &&& reply.reply_to == Some(envelope.message_id)
                &&& Some(reply.trace) == envelope.trace
                &&& reply.payload matches Payload::JobAccepted(accepted) && accepted.job_id
                    == request.job_id
                &&& request.job_id matches Some(id) && job.job_id == id.value
                &&& job.deadline == request.deadline
                &&& Some(job.trace) == envelope.trace
                &&& job.parent_call_id == envelope.message_id
                &&& request.invocation matches Some(Invocation::Action(invocation))
                    && job.arguments == invocation.arguments
                    && jobs.actions@[job.action as int].name@ == invocation.action@
            }
            &&& jobs_after.active@.len() == jobs.active@.len() + 1
        } else {
            &&& step matches ServeStep::Send(messages) && messages@.len() == 1 && {
                &&& messages@[0].reply_to == Some(envelope.message_id)
                &&& Some(messages@[0].trace) == envelope.trace
                &&& messages@[0].payload matches Payload::ProtocolError(error) && error.retryable
            }
            &&& jobs_after == jobs
        },
{
}

/// The cancellation of an active job asks its action to stop and is not answered yet.
/// That of any other job is answered at once.
pub proof fn law_cancellations_stop_active_jobs<H, W>(
    jobs: JobManager<H>,
    envelope: PluginEnvelope,
    request: CancelJobRequest,
    step: ServeStep<W>,
    jobs_after: JobManager<H>,
)
    requires
        jobs.well_formed(),
        envelope.payload == Some(Payload::CancelJob(request)),
        envelope.trace is Some,
        message_served(jobs, envelope, step, jobs_after),
    ensures
        request.job_id is Some,
        if exists|index: int|
            0 <= index < jobs.active@.len() && (#[trigger] jobs.active@[index]).job_id@
                == request.job_id->0.value@ {
            step matches ServeStep::Signal(job_id) && job_id == request.job_id->0.value
        } else {
            &&& step matches ServeStep::Send(messages) && messages@.len() == 1 && {
                &&& messages@[0].reply_to == Some(envelope.message_id)
                &&& Some(messages@[0].trace) == envelope.trace
                &&& messages@[0].payload matches Payload::CancelJobAcknowledged(acknowledged)
                    && acknowledged.job_id == request.job_id
            }
            &&& jobs_after.active == jobs.active
        },
{
    match step {
        ServeStep::Send(messages) => {
            jobs::law_cancellations_reach_their_job(
                jobs,
                envelope.message_id,
                envelope.trace->0,
                request,
                CancelAnswer::Acknowledge(messages@[0]),
                jobs_after,
            );
        },
        ServeStep::Signal(job_id) => {
            jobs::law_cancellations_reach_their_job(
                jobs,
                envelope.message_id,
                envelope.trace->0,
                request,
                CancelAnswer::Signal(job_id),
                jobs_after,
            );
        },
        _ => {},
    }
}

/// Even an event that ends the session leaves it in order: an envelope that was taken
/// is counted, and a request whose response was read waits no longer.
pub proof fn law_fatal_events_are_still_counted(session: SessionState, event: ServeEvent)
    ensures
        takes_envelope(session, event) <==> {
            &&& event matches ServeEvent::Received(Ok(Some(envelope))) && session.envelope_error(
                envelope,
            ) is None
        },
        brings_response(session, event) <==> {
            &&& event matches ServeEvent::Received(Ok(Some(envelope))) && {
                &&& session.envelope_error(envelope) is None
                &&& envelope.reply_to is Some
                &&& envelope.payload is Some
                &&& envelope.payload matches Some(Payload::ProtocolError(error)) ==> {
                    &&& error.code != ErrorCode::Unspecified
                    &&& error.code != ErrorCode::Other(0)
                    &&& error.message@.len() > 0
                }
            }
        },
{
}

/// The time left is what it takes to get from now to the deadline, and nothing once
/// that has passed.
pub proof fn law_time_left_leads_to_the_deadline(
    deadline: Timestamp,
    now: Timestamp,
    left: TimeLeft,
)
    requires
        0 <= deadline.nanos <= 999_999_999,
        0 <= now.nanos <= 999_999_999,
        call_ensures(time_left, (deadline, now), left),
    ensures
        ({
            let from = now.seconds * 1_000_000_000 + now.nanos;
            let to = deadline.seconds * 1_000_000_000 + deadline.nanos;
            let span = left.seconds * 1_000_000_000 + left.nanos;
            &&& from <= to ==> from + span == to
            &&& from > to ==> span == 0
            &&& left.nanos < 1_000_000_000
        }),
{
}

/// An envelope that is not taken is refused by its first fault: its number, then its
/// identity, then its trace.
pub proof fn law_refused_envelopes_name_their_fault(
    session: SessionState,
    envelope: PluginEnvelope,
)
    ensures
        envelope.message_id <= session.last_host_message_id ==> session.envelope_error(envelope)
            == Some(
            ErrorView::Protocol("host message IDs must be nonzero and strictly increasing"@),
        ),
        envelope.message_id > session.last_host_message_id && (envelope.session_id@
            != session.identity.session_id@ || envelope.plugin_instance_id@
            != session.identity.instance_id@) ==> session.envelope_error(envelope) == Some(
            ErrorView::Protocol("host envelope belongs to another plugin instance"@),
        ),
        envelope.message_id > session.last_host_message_id && envelope.session_id@
            == session.identity.session_id@ && envelope.plugin_instance_id@
            == session.identity.instance_id@ ==> match envelope.trace {
            None => session.envelope_error(envelope) == Some(
                ErrorView::Protocol("host omitted correlation context"@),
            ),
            Some(trace) => if trace.correlation_id@.len() == 0 {
                session.envelope_error(envelope) == Some(
                    ErrorView::Protocol("host omitted correlation context"@),
                )
            } else if trace.call_depth > session.maximum_call_depth || trace.causal_depth
                > session.maximum_causal_depth {
                session.envelope_error(envelope) == Some(
                    ErrorView::Protocol("host envelope exceeds a negotiated trace depth limit"@),
                )
            } else {
                session.envelope_error(envelope) is None
            },
        },
{
}

} // verus!
