//! Requests to the host and the routing of its responses.

use std::collections::HashMap;
use vstd::prelude::*;

use crate::cancellation::Attempt;
use crate::error::{ErrorView, SdkError};
use crate::protocol::{
    ErrorCode, HostCallResponse, HostCallResult, Payload, PluginEnvelope, TraceContext,
};
use crate::sender::SessionSender;
use crate::validation;

verus! {

broadcast use vstd::std_specs::hash::group_hash_axioms;

/// Where the response to a request goes, and the trace it has to carry.
#[derive(Debug)]
pub struct PendingResponse<W> {
    pub expected_trace: TraceContext,
    pub response: W,
}

/// The requests that wait for the host, by message ID, and what was negotiated
/// with it. `W` is whatever the runtime hands a response over to.
#[derive(Debug)]
#[verifier::reject_recursive_types(W)]
pub struct HostClient<W> {
    pub pending: HashMap<u64, PendingResponse<W>>,
    pub session_id: String,
    pub maximum_artifact_chunk_bytes: u64,
    pub maximum_call_depth: u32,
}

impl<W> HostClient<W> {
    /// Every pending request has been numbered by `sender`.
    pub open spec fn numbered_by(self, sender: SessionSender) -> bool {
        forall|id: u64| #[trigger] self.pending@.contains_key(id) ==> id < sender.next_message_id
    }

    /// Whether both clients were negotiated alike.
    pub open spec fn same_session(self, other: Self) -> bool {
        &&& self.session_id == other.session_id
        &&& self.maximum_artifact_chunk_bytes == other.maximum_artifact_chunk_bytes
        &&& self.maximum_call_depth == other.maximum_call_depth
    }

    /// A client that waits for nothing.
    pub fn new(
        session_id: String,
        maximum_artifact_chunk_bytes: u64,
        maximum_call_depth: u32,
    ) -> (result: Self)
        ensures
            result.pending@ == Map::<u64, PendingResponse<W>>::empty(),
            result.session_id == session_id,
            result.maximum_artifact_chunk_bytes == maximum_artifact_chunk_bytes,
            result.maximum_call_depth == maximum_call_depth,
    {
        HostClient {
            pending: HashMap::new(),
            session_id,
            maximum_artifact_chunk_bytes,
            maximum_call_depth,
        }
    }

    pub fn session_id(&self) -> (result: &str)
        ensures
            result@ == self.session_id@,
    {
        self.session_id.as_str()
    }

    pub fn maximum_artifact_chunk_bytes(&self) -> (result: u64)
        ensures
            result == self.maximum_artifact_chunk_bytes,
    {
        self.maximum_artifact_chunk_bytes
    }

    pub fn maximum_call_depth(&self) -> (result: u32)
        ensures
            result == self.maximum_call_depth,
    {
        self.maximum_call_depth
    }

    /// Whether numbering and registering a request turns `self` and `sender`
    /// into `after` and `sender_after` and puts `envelope` on the wire.
    pub open spec fn requests(
        self,
        sender: SessionSender,
        trace: TraceContext,
        payload: Payload,
        response: W,
        envelope: PluginEnvelope,
        after: Self,
        sender_after: SessionSender,
    ) -> bool {
        &&& sender.sends(None, trace, payload, envelope, sender_after)
        &&& !self.pending@.contains_key(envelope.message_id)
        &&& after.pending@ == self.pending@.insert(
            envelope.message_id,
            PendingResponse { expected_trace: trace, response },
        )
        &&& after.same_session(self)
    }

    /// Numbers a request and registers who waits for its response.
    pub fn request(
        &mut self,
        sender: &mut SessionSender,
        trace: TraceContext,
        payload: Payload,
        response: W,
    ) -> (result: Result<PluginEnvelope, SdkError>)
        ensures
            match result {
                Ok(envelope) => old(self).requests(
                    *old(sender),
                    trace,
                    payload,
                    response,
                    envelope,
                    *final(self),
                    *final(sender),
                ),
                Err(error) => {
                    &&& *final(self) == *old(self)
                    &&& final(sender).identity == old(sender).identity
                    &&& if old(sender).next_message_id == u64::MAX {
                        &&& final(sender).next_message_id == old(sender).next_message_id
                        &&& error@ == ErrorView::Protocol("plugin exhausted message IDs"@)
                    } else {
                        &&& old(self).pending@.contains_key(old(sender).next_message_id)
                        &&& final(sender).next_message_id == old(sender).next_message_id + 1
                        &&& error@ == ErrorView::Protocol(
                            "plugin reused a pending request message ID"@,
                        )
                    }
                },
            },
    {
        let expected_trace: TraceContext = trace.clone();
        let envelope: PluginEnvelope = match sender.enqueue(None, trace, payload) {
            Ok(envelope) => envelope,
            Err(error) => {
                return Err(error);
            },
        };
        if self.pending.contains_key(&envelope.message_id) {
            return Err(SdkError::protocol("plugin reused a pending request message ID"));
        }
        self.pending.insert(envelope.message_id, PendingResponse { expected_trace, response });
        Ok(envelope)
    }

    /// Forgets a request that never entered the output. A request that did stays
    /// registered even if its action is over, so that the response of the host
    /// is recognized and dropped.
    pub fn abandon(&mut self, message_id: u64)
        ensures
            final(self).pending@ == old(self).pending@.remove(message_id),
            final(self).same_session(*old(self)),
    {
        self.pending.remove(&message_id);
        assert(self.pending@ =~= old(self).pending@.remove(message_id));
    }

    /// What is wrong with a response to `reply_to` under this trace.
    pub open spec fn route_error(self, reply_to: u64, trace: TraceContext) -> Option<ErrorView> {
        if !self.pending@.contains_key(reply_to) {
            Some(ErrorView::Protocol("response names no pending plugin request"@))
        } else if self.pending@[reply_to].expected_trace@ != trace@ {
            Some(ErrorView::Protocol("response trace context differs from its plugin request"@))
        } else {
            None
        }
    }

    /// Finds who waits for the response to `reply_to`. Whatever comes of it, the
    /// request is pending no longer.
    pub fn route(&mut self, reply_to: u64, trace: &TraceContext) -> (result: Result<W, SdkError>)
        ensures
            final(self).pending@ == old(self).pending@.remove(reply_to),
            final(self).same_session(*old(self)),
            match result {
                Ok(response) => {
                    &&& old(self).route_error(reply_to, *trace) is None
                    &&& response == old(self).pending@[reply_to].response
                },
                Err(error) => old(self).route_error(reply_to, *trace) == Some(error@),
            },
    {
        match self.pending.remove(&reply_to) {
            None => {
                assert(self.pending@ =~= old(self).pending@.remove(reply_to));
                Err(SdkError::protocol("response names no pending plugin request"))
            },
            Some(waiter) => if waiter.expected_trace.same(trace) {
                Ok(waiter.response)
            } else {
                Err(SdkError::protocol("response trace context differs from its plugin request"))
            },
        }
    }
}

/// What a wait for a response comes to when it brings no payload to work with.
pub open spec fn response_failure(reply: Attempt<Payload>) -> Option<ErrorView> {
    match reply {
        Attempt::Done(Payload::ProtocolError(error)) => Some(ErrorView::Host(error@)),
        _ => reply.error("wait for host response"@),
    }
}

/// The payload of a response, unless it is an error of the host.
pub fn response(reply: Attempt<Payload>) -> (result: Result<Payload, SdkError>)
    ensures
        match result {
            Ok(payload) => reply == Attempt::Done(payload) && response_failure(reply) is None,
            Err(error) => response_failure(reply) == Some(error@),
        },
{
    match reply.outcome("wait for host response") {
        Ok(Payload::ProtocolError(error)) => Err(SdkError::Host(error)),
        Ok(payload) => Ok(payload),
        Err(error) => Err(error),
    }
}

/// What is wrong with the payload that answers a host call.
pub open spec fn answer_error(payload: Payload) -> Option<ErrorView> {
    match payload {
        Payload::HostResult(response) => match response.result {
            Some(HostCallResult::Error(error)) => if validation::error_specified(error@) {
                Some(ErrorView::Host(error@))
            } else {
                Some(ErrorView::Protocol("ProtocolError code and message must be specified"@))
            },
            Some(_) => None,
            None => Some(ErrorView::Protocol("HostCallResponse result is required"@)),
        },
        _ => Some(ErrorView::Protocol("host call received another response kind"@)),
    }
}

/// The answer to a host call.
pub fn answer(payload: Payload) -> (result: Result<HostCallResponse, SdkError>)
    ensures
        match result {
            Ok(response) => answer_error(payload) is None && payload == Payload::HostResult(
                response,
            ),
            Err(error) => answer_error(payload) == Some(error@),
        },
{
    match payload {
        Payload::HostResult(response) => match response.result {
            Some(HostCallResult::Error(error)) => match validation::protocol_error(&error) {
                Ok(()) => Err(SdkError::Host(error)),
                Err(fault) => Err(fault),
            },
            Some(result) => Ok(HostCallResponse { result: Some(result) }),
            None => Err(SdkError::protocol("HostCallResponse result is required")),
        },
        _ => Err(SdkError::protocol("host call received another response kind")),
    }
}

/// A request that is numbered while every pending one has a smaller number never
/// meets its own number, is answered under that number and trace, and leaves
/// every other request as it was.
pub proof fn law_requests_are_routed_to_their_own_waiter<W>(
    client: HostClient<W>,
    sender: SessionSender,
    trace: TraceContext,
    payload: Payload,
    response: W,
    envelope: PluginEnvelope,
    after: HostClient<W>,
    sender_after: SessionSender,
)
    requires
        client.numbered_by(sender),
        client.requests(sender, trace, payload, response, envelope, after, sender_after),
    ensures
        after.numbered_by(sender_after),
        after.route_error(envelope.message_id, trace) is None,
        after.pending@[envelope.message_id].response == response,
        after.pending@.remove(envelope.message_id) == client.pending@,
{
    assert(after.pending@.remove(envelope.message_id) =~= client.pending@);
}

/// Under the same invariant the next request is always accepted, as long as
/// message IDs are left.
pub proof fn law_message_ids_are_not_reused<W>(client: HostClient<W>, sender: SessionSender)
    requires
        client.numbered_by(sender),
    ensures
        !client.pending@.contains_key(sender.next_message_id),
{
}

/// A response is taken once: after it has been routed, or its request abandoned,
/// nothing else is accepted in its place, and no other request is affected.
pub proof fn law_responses_are_taken_once<W>(
    client: HostClient<W>,
    reply_to: u64,
    after: HostClient<W>,
    trace: TraceContext,
)
    requires
        after.pending@ == client.pending@.remove(reply_to),
    ensures
        after.route_error(reply_to, trace) == Some(
            ErrorView::Protocol("response names no pending plugin request"@),
        ),
        forall|other: u64|
            other != reply_to ==> #[trigger] after.route_error(other, trace) == client.route_error(
                other,
                trace,
            ),
        forall|sender: SessionSender|
            client.numbered_by(sender) ==> #[trigger] after.numbered_by(sender),
{
}

/// A request waits under its own number for a response that carries its trace, goes
/// out with its payload and trace and answers nothing.
pub proof fn law_requests_wait_under_their_number<W>(
    client: HostClient<W>,
    sender: SessionSender,
    trace: TraceContext,
    payload: Payload,
    response: W,
    envelope: PluginEnvelope,
    after: HostClient<W>,
    sender_after: SessionSender,
)
    requires
        client.requests(sender, trace, payload, response, envelope, after, sender_after),
    ensures
        envelope.message_id == sender.next_message_id,
        envelope.reply_to is None,
        envelope.trace == Some(trace),
        envelope.payload == Some(payload),
        sender_after.next_message_id == envelope.message_id + 1,
        after.pending@.contains_key(envelope.message_id),
        after.pending@[envelope.message_id].expected_trace == trace,
        after.pending@[envelope.message_id].response == response,
        forall|other: u64|
            other != envelope.message_id ==> (#[trigger] after.pending@.contains_key(other)
                <==> client.pending@.contains_key(other)) && after.pending@[other]
                == client.pending@[other],
        after.session_id == client.session_id,
        after.maximum_artifact_chunk_bytes == client.maximum_artifact_chunk_bytes,
        after.maximum_call_depth == client.maximum_call_depth,
{
    assert forall|other: u64| other != envelope.message_id implies (
    #[trigger] after.pending@.contains_key(other) <==> client.pending@.contains_key(other))
        && after.pending@[other] == client.pending@[other] by {}
}

/// A response is routed exactly if a request of its number waits and the traces agree
/// in every field. Otherwise the host has broken the protocol.
pub proof fn law_responses_match_number_and_trace<W>(
    client: HostClient<W>,
    reply_to: u64,
    trace: TraceContext,
)
    ensures
        client.route_error(reply_to, trace) is None <==> {
            let expected = client.pending@[reply_to].expected_trace;
            &&& client.pending@.contains_key(reply_to)
            &&& expected.correlation_id@ == trace.correlation_id@
            &&& expected.parent_call_id == trace.parent_call_id
            &&& expected.call_depth == trace.call_depth
            &&& expected.causal_depth == trace.causal_depth
            &&& match (expected.task_id, trace.task_id) {
                (Some(left), Some(right)) => left@ == right@,
                (None, None) => true,
                _ => false,
            }
            &&& match (expected.task_group_id, trace.task_group_id) {
                (Some(left), Some(right)) => left@ == right@,
                (None, None) => true,
                _ => false,
            }
        },
        client.route_error(reply_to, trace) matches Some(error) ==> error is Protocol,
{
}

/// The wait for a response gives the payload that came, unless that is an error of
/// the host, which is passed on as it came, or nothing came at all.
pub proof fn law_responses_are_handed_on(
    reply: Attempt<Payload>,
    result: Result<Payload, SdkError>,
)
    requires
        call_ensures(response, (reply,), result),
    ensures
        match reply {
            Attempt::Done(Payload::ProtocolError(error)) => result is Err && result->Err_0@
                == ErrorView::Host(error@),
            Attempt::Done(payload) => result == Ok::<Payload, SdkError>(payload),
            Attempt::Cancelled => result is Err && result->Err_0@ == ErrorView::Cancelled,
            Attempt::Failed(source) => {
                &&& result is Err
                &&& result->Err_0@ matches ErrorView::Runtime { source: said, .. } && said
                    == source@
            },
        },
{
}

/// A host call gives the result that came for it. A structured error of the host is
/// passed on if it has a code and a message, and anything else breaks the protocol.
pub proof fn law_answers_to_calls_are_results(
    payload: Payload,
    result: Result<HostCallResponse, SdkError>,
)
    requires
        call_ensures(answer, (payload,), result),
    ensures
        match payload {
            Payload::HostResult(response) => match response.result {
                Some(HostCallResult::Error(error)) => result is Err && result->Err_0@ == if (
                error.code != ErrorCode::Unspecified && error.code != ErrorCode::Other(0)
                    && error.message@.len() > 0) {
                    ErrorView::Host(error@)
                } else {
                    ErrorView::Protocol("ProtocolError code and message must be specified"@)
                },
                Some(_) => result == Ok::<HostCallResponse, SdkError>(response),
                None => result is Err && result->Err_0@ is Protocol,
            },
            _ => result is Err && result->Err_0@ is Protocol,
        },
{
}

/// A response that is not routed is refused as unknown, or as one whose trace is not
/// that of its request.
pub proof fn law_refused_responses_name_their_fault<W>(
    client: HostClient<W>,
    reply_to: u64,
    trace: TraceContext,
)
    ensures
        !client.pending@.contains_key(reply_to) ==> client.route_error(reply_to, trace) == Some(
            ErrorView::Protocol("response names no pending plugin request"@),
        ),
        client.pending@.contains_key(reply_to) && client.route_error(reply_to, trace) is Some
            ==> client.route_error(reply_to, trace) == Some(
            ErrorView::Protocol("response trace context differs from its plugin request"@),
        ),
{
}

} // verus!
