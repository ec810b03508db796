use onelastleaf_plugin_sdk::protocol::{Any, ErrorCode, ProtocolError};
use onelastleaf_plugin_sdk::SdkError;

#[test]
fn host_protocol_errors_keep_all_structured_fields() {
    let expected = ProtocolError {
        code: ErrorCode::Unavailable,
        message: "retry later".to_owned(),
        retryable: true,
        metadata: vec![("retry-after".to_owned(), "1".to_owned())],
        details: vec![Any {
            type_url: "example.test/Detail".to_owned(),
            value: vec![1, 2, 3],
        }],
    };
    assert_eq!(SdkError::Host(expected.clone()).protocol_error(), expected);
}

#[test]
fn runtime_failures_retain_their_source_and_retryability() {
    let error = SdkError::runtime("read transport", "reset".to_owned());
    assert!(error.source().is_some());
    let protocol = error.protocol_error();
    assert_eq!(protocol.code, ErrorCode::Unavailable);
    assert!(protocol.retryable);
}

fn wire(error: SdkError) -> (ErrorCode, String, bool) {
    let sent = error.protocol_error();
    assert!(sent.metadata.is_empty());
    assert!(sent.details.is_empty());
    (sent.code, sent.message, sent.retryable)
}

#[test]
fn every_error_has_its_code_and_text_on_the_wire() {
    assert_eq!(
        wire(SdkError::Environment("environment".to_owned())),
        (ErrorCode::Unavailable, "environment".to_owned(), true)
    );
    assert_eq!(
        wire(SdkError::invalid_argument("argument")),
        (ErrorCode::InvalidArgument, "argument".to_owned(), false)
    );
    assert_eq!(
        wire(SdkError::Transport("transport".to_owned())),
        (ErrorCode::Unavailable, "transport".to_owned(), true)
    );
    assert_eq!(
        wire(SdkError::protocol("protocol")),
        (ErrorCode::FailedPrecondition, "protocol".to_owned(), false)
    );
    assert_eq!(
        wire(SdkError::Action("action".to_owned())),
        (ErrorCode::Internal, "action".to_owned(), false)
    );
    assert_eq!(
        wire(SdkError::Cancelled),
        (ErrorCode::Cancelled, "action was cancelled".to_owned(), false)
    );
    assert_eq!(
        wire(SdkError::runtime("read transport", "reset".to_owned())),
        (ErrorCode::Unavailable, "read transport: reset".to_owned(), true)
    );
}

#[test]
fn only_runtime_failures_have_a_source() {
    assert_eq!(
        SdkError::runtime("read transport", "reset".to_owned()).source(),
        Some("reset")
    );
    assert!(SdkError::Cancelled.source().is_none());
    assert!(SdkError::protocol("protocol").source().is_none());
    assert_eq!(
        SdkError::Host(ProtocolError::default()).message(),
        String::new()
    );
}
