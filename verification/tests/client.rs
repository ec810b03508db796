use onelastleaf_plugin_sdk::cancellation::Attempt;
use onelastleaf_plugin_sdk::host::client::{answer, response, HostClient};
use onelastleaf_plugin_sdk::protocol::{HostCallRequest, HostCallResponse, Payload, TraceContext};
use onelastleaf_plugin_sdk::sender::{SessionIdentity, SessionSender};

fn trace() -> TraceContext {
    TraceContext {
        correlation_id: "correlation".to_owned(),
        parent_call_id: Some(7),
        call_depth: 1,
        causal_depth: 0,
        task_id: Some("task".to_owned()),
        task_group_id: Some("group".to_owned()),
    }
}

fn client() -> (HostClient<u8>, SessionSender) {
    let sender = SessionSender::new(SessionIdentity {
        session_id: "session".to_owned(),
        instance_id: "instance".to_owned(),
    });
    (HostClient::new("session".to_owned(), 64, 10), sender)
}

fn call() -> Payload {
    Payload::HostCall(HostCallRequest { call: None })
}

#[test]
fn late_response_to_cancelled_waiter_is_discarded_without_failing_the_session() {
    let (mut client, mut sender) = client();
    let request = client.request(&mut sender, trace(), call(), 1).unwrap();
    // The action is over, but its request has entered the output: the routing
    // entry stays, and the response is recognized.
    assert_eq!(client.route(request.message_id, &trace()).unwrap(), 1);
    assert!(client.pending.is_empty());
}

#[test]
fn response_routing_compares_the_complete_trace_context() {
    let (mut client, mut sender) = client();
    let request = client.request(&mut sender, trace(), call(), 1).unwrap();
    let mut changed = trace();
    changed.task_id = Some("another-task".to_owned());
    assert!(client.route(request.message_id, &changed).is_err());
    // The waiter is dropped, and whoever waits for it learns that nothing comes.
    assert!(client.pending.is_empty());
    assert!(response(Attempt::Failed("channel closed".to_owned())).is_err());
}

#[test]
fn responses_find_their_own_request() {
    let (mut client, mut sender) = client();
    let first = client.request(&mut sender, trace(), call(), 1).unwrap();
    let second = client.request(&mut sender, trace(), call(), 2).unwrap();
    assert_eq!(first.message_id, 1);
    assert_eq!(second.message_id, 2);
    assert_eq!(second.trace, Some(trace()));
    assert_eq!(second.payload, Some(call()));
    assert_eq!(client.route(2, &trace()).unwrap(), 2);
    assert_eq!(client.route(1, &trace()).unwrap(), 1);
    assert_eq!(
        client.route(1, &trace()).unwrap_err().message(),
        "response names no pending plugin request"
    );
}

#[test]
fn every_field_of_a_trace_counts() {
    let mut changes: Vec<TraceContext> = Vec::new();
    for _ in 0..6 {
        changes.push(trace());
    }
    changes[0].correlation_id = "other".to_owned();
    changes[1].parent_call_id = None;
    changes[2].call_depth = 2;
    changes[3].causal_depth = 1;
    changes[4].task_id = None;
    changes[5].task_group_id = Some("other".to_owned());
    for changed in changes {
        let (mut client, mut sender) = client();
        client.request(&mut sender, trace(), call(), 1).unwrap();
        assert_eq!(
            client.route(1, &changed).unwrap_err().message(),
            "response trace context differs from its plugin request"
        );
    }
}

#[test]
fn unsent_requests_are_forgotten() {
    let (mut client, mut sender) = client();
    let request = client.request(&mut sender, trace(), call(), 1).unwrap();
    client.abandon(request.message_id);
    assert!(client.route(request.message_id, &trace()).is_err());
    // The number is not used again.
    let next = client.request(&mut sender, trace(), call(), 1).unwrap();
    assert_eq!(next.message_id, 2);
}

#[test]
fn requests_fail_without_numbers_of_their_own() {
    let (mut client, mut sender) = client();
    client.request(&mut sender, trace(), call(), 1).unwrap();
    sender.next_message_id = 1;
    assert_eq!(
        client
            .request(&mut sender, trace(), call(), 2)
            .unwrap_err()
            .message(),
        "plugin reused a pending request message ID"
    );
    sender.next_message_id = u64::MAX;
    assert_eq!(
        client
            .request(&mut sender, trace(), call(), 3)
            .unwrap_err()
            .message(),
        "plugin exhausted message IDs"
    );
    assert_eq!(client.pending.len(), 1);
}

#[test]
fn answers_to_host_calls_are_host_results() {
    assert_eq!(
        answer(call()).unwrap_err().message(),
        "host call received another response kind"
    );
    assert_eq!(
        answer(Payload::HostResult(HostCallResponse { result: None }))
            .unwrap_err()
            .message(),
        "HostCallResponse result is required"
    );
}
