use onelastleaf_plugin_sdk::cancellation::Attempt;
use onelastleaf_plugin_sdk::protocol::{Heartbeat, Payload, TraceContext};
use onelastleaf_plugin_sdk::sender::{consumed, Delivery, SessionIdentity, SessionSender};
use onelastleaf_plugin_sdk::SdkError;

fn trace() -> TraceContext {
    TraceContext {
        correlation_id: "correlation".to_owned(),
        parent_call_id: None,
        call_depth: 0,
        causal_depth: 0,
        task_id: None,
        task_group_id: None,
    }
}

fn payload(nonce: u64) -> Payload {
    Payload::Heartbeat(Heartbeat { nonce })
}

fn sender() -> SessionSender {
    SessionSender::new(SessionIdentity {
        session_id: "session".to_owned(),
        instance_id: "instance".to_owned(),
    })
}

#[test]
fn envelopes_are_numbered_in_order() {
    let mut sender = sender();
    let first = sender.enqueue(None, trace(), payload(1)).unwrap();
    let second = sender.enqueue(None, trace(), payload(2)).unwrap();
    assert_eq!(first.message_id, 1);
    assert_eq!(second.message_id, 2);
    assert_eq!(second.session_id, "session");
    assert_eq!(second.plugin_instance_id, "instance");
}

#[test]
fn envelopes_that_are_never_consumed_are_reported() {
    assert!(consumed(Attempt::Done(())).is_ok());
    let dropped = consumed(Attempt::Failed("channel closed".to_owned())).unwrap_err();
    assert_eq!(
        dropped.message(),
        "wait for plugin output stream consumption: channel closed"
    );
}

#[test]
fn envelopes_carry_what_was_handed_over() {
    let mut sender = sender();
    let envelope = sender.enqueue(Some(9), trace(), payload(5)).unwrap();
    assert_eq!(envelope.reply_to, Some(9));
    assert_eq!(envelope.trace, Some(trace()));
    assert_eq!(envelope.payload, Some(payload(5)));
}

#[test]
fn message_ids_run_out() {
    let mut sender = sender();
    sender.next_message_id = u64::MAX - 1;
    let last = sender.enqueue(None, trace(), payload(1)).unwrap();
    assert_eq!(last.message_id, u64::MAX - 1);
    for _ in 0..2 {
        let error = sender.enqueue(None, trace(), payload(2)).unwrap_err();
        assert_eq!(error.message(), "plugin exhausted message IDs");
        assert_eq!(sender.next_message_id, u64::MAX);
    }
}

#[test]
fn undelivered_envelopes_are_reported() {
    assert!(Delivery::Queued.outcome().is_ok());
    assert!(matches!(
        Delivery::Cancelled.outcome(),
        Err(SdkError::Cancelled)
    ));
    let closed = Delivery::Closed.outcome().unwrap_err();
    assert!(matches!(closed, SdkError::Transport(_)));
    assert_eq!(closed.message(), "plugin output stream closed");
}
