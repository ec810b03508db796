//! Numbering and addressing of outgoing messages.

use vstd::prelude::*;

use crate::cancellation::Attempt;
use crate::error::{ErrorView, SdkError};
use crate::protocol::{Payload, PluginEnvelope, TraceContext};

verus! {

/// Which session of which plugin instance a message belongs to.
#[derive(Debug, PartialEq, Eq)]
pub struct SessionIdentity {
    pub session_id: String,
    pub instance_id: String,
}

impl Clone for SessionIdentity {
    fn clone(&self) -> (result: Self)
        ensures
            result == *self,
    {
        SessionIdentity {
            session_id: self.session_id.clone(),
            instance_id: self.instance_id.clone(),
        }
    }
}

/// The state behind the ordered output of a session.
///
/// Messages take their numbers in the order in which they enter the output, so
/// whoever shares a sender holds it exclusively from [`SessionSender::enqueue`]
/// until the envelope has entered the output. An envelope that is given up before
/// that leaves a gap in the numbers, but never disorder.
#[derive(Debug)]
pub struct SessionSender {
    pub identity: SessionIdentity,
    pub next_message_id: u64,
}

impl SessionSender {
    /// A sender that has sent nothing.
    pub fn new(identity: SessionIdentity) -> (result: Self)
        ensures
            result.identity == identity,
            result.next_message_id == 1,
    {
        SessionSender { identity, next_message_id: 1 }
    }

    /// Whether `self`, by sending this message, becomes `after` and puts
    /// `envelope` on the wire.
    pub open spec fn sends(
        self,
        reply_to: Option<u64>,
        trace: TraceContext,
        payload: Payload,
        envelope: PluginEnvelope,
        after: SessionSender,
    ) -> bool {
        &&& self.next_message_id < u64::MAX
        &&& after.identity == self.identity
        &&& after.next_message_id == self.next_message_id + 1
        &&& envelope == PluginEnvelope {
            message_id: self.next_message_id,
            reply_to,
            session_id: self.identity.session_id,
            plugin_instance_id: self.identity.instance_id,
            trace: Some(trace),
            payload: Some(payload),
        }
    }

    /// Numbers and addresses one message.
    pub fn enqueue(
        &mut self,
        reply_to: Option<u64>,
        trace: TraceContext,
        payload: Payload,
    ) -> (result: Result<PluginEnvelope, SdkError>)
        ensures
            match result {
                Ok(envelope) => old(self).sends(reply_to, trace, payload, envelope, *final(self)),
                Err(error) => {
                    &&& old(self).next_message_id == u64::MAX
                    &&& *final(self) == *old(self)
                    &&& error@ == ErrorView::Protocol("plugin exhausted message IDs"@)
                },
            },
    {
        let message_id: u64 = self.next_message_id;
        if message_id == u64::MAX {
            return Err(SdkError::protocol("plugin exhausted message IDs"));
        }
        self.next_message_id = message_id + 1;
        Ok(
            PluginEnvelope {
                message_id,
                reply_to,
                session_id: self.identity.session_id.clone(),
                plugin_instance_id: self.identity.instance_id.clone(),
                trace: Some(trace),
                payload: Some(payload),
            },
        )
    }
}

/// What became of an envelope on its way into the output.
#[derive(Clone, Copy, Debug, PartialEq, Eq, Structural)]
pub enum Delivery {
    /// The action that sent it was over before it entered the output.
    Cancelled,
    /// The output stream is closed.
    Closed,
    /// It has entered the output.
    Queued,
}

impl Delivery {
    /// Reports an envelope that did not enter the output.
    pub fn outcome(self) -> (result: Result<(), SdkError>)
        ensures
            match result {
                Ok(()) => self == Delivery::Queued,
                Err(error) => match self {
                    Delivery::Cancelled => error@ == ErrorView::Cancelled,
                    Delivery::Closed => error@ == ErrorView::Transport(
                        "plugin output stream closed"@,
                    ),
                    Delivery::Queued => false,
                },
            },
    {
        match self {
            Delivery::Cancelled => Err(SdkError::Cancelled),
            Delivery::Closed => Err(SdkError::Transport("plugin output stream closed".to_owned())),
            Delivery::Queued => Ok(()),
        }
    }
}

/// Reports an envelope that was queued and is never taken from the output.
pub fn consumed(taken: Attempt<()>) -> (result: Result<(), SdkError>)
    ensures
        match result {
            Ok(()) => taken == Attempt::Done(()),
            Err(error) => taken.error("wait for plugin output stream consumption"@) == Some(error@),
        },
{
    taken.outcome("wait for plugin output stream consumption")
}

/// Whether a sender passes through `states`, putting `envelopes` on the wire one
/// after another.
pub open spec fn output(states: Seq<SessionSender>, envelopes: Seq<PluginEnvelope>) -> bool {
    &&& states.len() == envelopes.len() + 1
    &&& forall|index: int|
        0 <= index < envelopes.len() ==> {
            let envelope = #[trigger] envelopes[index];
            envelope.trace is Some && envelope.payload is Some && states[index].sends(
                envelope.reply_to,
                envelope.trace->0,
                envelope.payload->0,
                envelope,
                states[index + 1],
            )
        }
}

/// The messages of a session are numbered 1, 2, 3 and so on in the order in
/// which they enter the output, and all carry the identity of the session.
pub proof fn law_messages_are_numbered_in_order(
    states: Seq<SessionSender>,
    envelopes: Seq<PluginEnvelope>,
)
    requires
        output(states, envelopes),
        states[0].next_message_id == 1,
    ensures
        states[envelopes.len() as int].next_message_id == envelopes.len() + 1,
        states[envelopes.len() as int].identity == states[0].identity,
        forall|index: int|
            0 <= index < envelopes.len() ==> {
                let envelope = #[trigger] envelopes[index];
                &&& envelope.message_id == index + 1
                &&& envelope.session_id == states[0].identity.session_id
                &&& envelope.plugin_instance_id == states[0].identity.instance_id
            },
    decreases envelopes.len(),
{
    if envelopes.len() > 0 {
        let last = envelopes.len() - 1;
        let earlier = envelopes.drop_last();
        assert forall|index: int| 0 <= index < earlier.len() implies {
            let envelope = #[trigger] earlier[index];
            envelope.trace is Some && envelope.payload is Some && states.drop_last()[index].sends(
                envelope.reply_to,
                envelope.trace->0,
                envelope.payload->0,
                envelope,
                states.drop_last()[index + 1],
            )
        } by {
            assert(envelopes[index] == earlier[index]);
        }
        law_messages_are_numbered_in_order(states.drop_last(), earlier);
        assert(envelopes[last].message_id == last + 1);
        assert forall|index: int| 0 <= index < envelopes.len() implies {
            let envelope = #[trigger] envelopes[index];
            &&& envelope.message_id == index + 1
            &&& envelope.session_id == states[0].identity.session_id
            &&& envelope.plugin_instance_id == states[0].identity.instance_id
        } by {
            if index < last {
                assert(earlier[index] == envelopes[index]);
            }
        }
    }
}

/// An envelope carries what was sent, under the trace it was sent with and in answer
/// to what it was sent for, and the sender goes on with the number that follows.
pub proof fn law_envelopes_carry_what_was_sent(
    sender: SessionSender,
    reply_to: Option<u64>,
    trace: TraceContext,
    payload: Payload,
    envelope: PluginEnvelope,
    after: SessionSender,
)
    requires
        sender.sends(reply_to, trace, payload, envelope, after),
    ensures
        envelope.payload == Some(payload),
        envelope.trace == Some(trace),
        envelope.reply_to == reply_to,
        envelope.message_id == sender.next_message_id,
        envelope.session_id == sender.identity.session_id,
        envelope.plugin_instance_id == sender.identity.instance_id,
        after.identity == sender.identity,
        after.next_message_id == envelope.message_id + 1,
{
}

/// An envelope that enters the output is a success, and one that does not is reported
/// by what kept it out.
pub proof fn law_deliveries_are_reported(
    delivery: Delivery,
    result: Result<(), SdkError>,
    taken: Attempt<()>,
    after: Result<(), SdkError>,
)
    requires
        call_ensures(Delivery::outcome, (delivery,), result),
        call_ensures(consumed, (taken,), after),
    ensures
        match delivery {
            Delivery::Queued => result is Ok,
            Delivery::Cancelled => result is Err && result->Err_0@ == ErrorView::Cancelled,
            Delivery::Closed => result is Err && result->Err_0@ is Transport,
        },
        after is Ok <==> taken is Done,
{
}

} // verus!
