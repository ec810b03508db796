use sha2::{Digest, Sha256};

use onelastleaf_plugin_sdk::cancellation::{Attempt, Cancellation};
use onelastleaf_plugin_sdk::host::call::HostCallKind;
use onelastleaf_plugin_sdk::host::client::HostClient;
use onelastleaf_plugin_sdk::host::upload::{UploadEvent, UploadStep};
use onelastleaf_plugin_sdk::host::{clock_reading, system_timestamp};
use onelastleaf_plugin_sdk::protocol::{
    ArtifactDescriptor, ArtifactStored, ArtifactTransferAccepted, ConfigEntry, ConfigFunctionRef,
    ConfigKind, ConfigPath, ConfigPathSegment, ConfigPathStep, ConfigValue, DocumentMessage,
    ErrorCode, GetConfigRequest, GetConfigResponse, HostCall, HostCallResponse, HostCallResult,
    InvokeConfigFunctionRequest, InvokeConfigFunctionResponse, LogLevel, Payload, PluginArtifactId,
    ProtocolError, Timestamp, TraceContext,
};
use onelastleaf_plugin_sdk::{ActionContext, ActionResult, SdkError, StoredArtifact};

fn descriptor(artifact_id: &str) -> ArtifactDescriptor {
    ArtifactDescriptor {
        artifact_id: Some(PluginArtifactId {
            value: artifact_id.to_owned(),
        }),
        file_name: "result.txt".to_owned(),
        media_type: "text/plain".to_owned(),
        size_bytes: 0,
        sha256: Sha256::digest([]).to_vec(),
    }
}

/// Stores an empty artifact for a job.
fn store(job_id: &str, artifact_id: &str) -> StoredArtifact {
    let host: HostClient<u8> = HostClient::new("session".to_owned(), 64 * 1024, 10);
    let context = ActionContext::new(
        job_id.to_owned(),
        None,
        TraceContext {
            correlation_id: "correlation".to_owned(),
            parent_call_id: None,
            call_depth: 0,
            causal_depth: 0,
            task_id: None,
            task_group_id: None,
        },
        Cancellation::new(),
        1,
        &host,
    );
    let id = Some(PluginArtifactId {
        value: artifact_id.to_owned(),
    });
    let accepted = Payload::ArtifactAccepted(ArtifactTransferAccepted {
        artifact_id: id.clone(),
    });
    let confirmed = Payload::ArtifactStored(ArtifactStored { artifact_id: id });
    let (mut upload, _) = context.store_artifact(descriptor(artifact_id)).ok().unwrap();
    for event in [
        UploadEvent::Inspected(Attempt::Done(0)),
        UploadEvent::Read(Attempt::Done(&[])),
        UploadEvent::Rewound(Attempt::Done(())),
        UploadEvent::Replied(Ok(Attempt::Done(accepted))),
        UploadEvent::Replied(Ok(Attempt::Done(confirmed))),
    ] {
        match context.advance(upload, event).ok().unwrap() {
            UploadStep::Continue(next, _) => upload = next,
            UploadStep::Stored(stored) => return stored,
        }
    }
    panic!("the artifact was not stored");
}

const FIRST: &str = "00000000-0000-4000-8000-000000000001";
const SECOND: &str = "00000000-0000-4000-8000-000000000002";

fn artifact(job_id: &str) -> StoredArtifact {
    store(job_id, FIRST)
}

#[test]
fn result_artifacts_remain_bound_to_their_owning_job() {
    assert!(ActionResult::empty()
        .with_artifact(artifact("first-job"))
        .into_wire("second-job")
        .is_err());
}

#[test]
fn result_artifact_references_are_unique() {
    let artifact = artifact("job");
    assert!(ActionResult::empty()
        .with_artifact(artifact.clone())
        .with_artifact(artifact)
        .into_wire("job")
        .is_err());
}

#[test]
fn raw_configuration_calls_cannot_bypass_session_validation() {
    let call = HostCall::InvokeConfigFunction(InvokeConfigFunctionRequest {
        function: Some(ConfigFunctionRef {
            session_id: "another-session".to_owned(),
            function_id: "function".to_owned(),
        }),
        arguments: Vec::new(),
    });
    assert!(HostCallKind::validate(&call, "session").is_err());
}

#[test]
fn host_call_responses_must_match_the_request_kind_and_session() {
    let wrong_kind = HostCallResponse {
        result: Some(HostCallResult::ListDirectory(DocumentMessage::default())),
    };
    assert!(HostCallKind::ReadDocument
        .validate_response(&wrong_kind, "session")
        .is_err());

    let foreign_function = HostCallResponse {
        result: Some(HostCallResult::GetConfig(GetConfigResponse {
            value: Some(ConfigValue {
                kind: Some(ConfigKind::FunctionValue(ConfigFunctionRef {
                    session_id: "another-session".to_owned(),
                    function_id: "function".to_owned(),
                })),
            }),
        })),
    };
    assert!(HostCallKind::GetConfig
        .validate_response(&foreign_function, "session")
        .is_err());
}

fn text(value: &str) -> ConfigValue {
    ConfigValue {
        kind: Some(ConfigKind::StringValue(value.to_owned())),
    }
}

#[test]
fn results_keep_their_value_and_their_artifacts_in_order() {
    let second = store("job", SECOND);
    let output = ActionResult::value(text("output"))
        .unwrap()
        .with_artifact(artifact("job"))
        .with_artifact(second);
    assert_eq!(output.result(), Some(&text("output")));
    assert_eq!(output.artifacts().len(), 2);
    assert_eq!(output.artifacts()[1].descriptor(), &descriptor(SECOND));
    let (value, descriptors) = output.into_wire("job").unwrap();
    assert_eq!(value, Some(text("output")));
    assert_eq!(descriptors, [descriptor(FIRST), descriptor(SECOND)]);
}

#[test]
fn results_say_why_they_cannot_be_sent() {
    let foreign = ActionResult::empty().with_artifact(artifact("other"));
    assert_eq!(
        foreign.into_wire("job").unwrap_err().message(),
        "job results may reference only artifacts stored by that job"
    );
    let twice = ActionResult::empty()
        .with_artifact(artifact("job"))
        .with_artifact(artifact("job"));
    assert_eq!(
        twice.into_wire("job").unwrap_err().message(),
        "job results must not reference the same artifact more than once"
    );
    let valueless = ActionResult::value(ConfigValue { kind: None });
    assert_eq!(
        valueless.unwrap_err().message(),
        "ConfigValue kind is required"
    );
    let nothing = ActionResult::default();
    assert!(nothing.result().is_none());
    assert_eq!(nothing.into_wire("job").unwrap(), (None, Vec::new()));
}

fn context(call_depth: u32, maximum_call_depth: u32) -> ActionContext {
    let host: HostClient<u8> = HostClient::new("session".to_owned(), 64 * 1024, maximum_call_depth);
    ActionContext::new(
        "job".to_owned(),
        Some(Timestamp {
            seconds: 9,
            nanos: 0,
        }),
        TraceContext {
            correlation_id: "correlation".to_owned(),
            parent_call_id: None,
            call_depth,
            causal_depth: 2,
            task_id: Some("task".to_owned()),
            task_group_id: None,
        },
        Cancellation::new(),
        41,
        &host,
    )
}

fn read() -> HostCall {
    HostCall::ReadDocument(DocumentMessage::default())
}

#[test]
fn contexts_tell_what_they_were_made_of() {
    let context = context(0, 10);
    assert_eq!(context.job_id(), "job");
    assert_eq!(
        context.deadline(),
        Some(&Timestamp {
            seconds: 9,
            nanos: 0
        })
    );
    assert_eq!(context.trace().correlation_id, "correlation");
    assert!(!context.cancellation().is_cancelled());
}

#[test]
fn host_calls_descend_from_the_call_that_started_the_job() {
    let context = context(0, 1);
    let (kind, request) = context.host_call(read()).unwrap();
    assert_eq!(kind, HostCallKind::ReadDocument);
    assert_eq!(request.reply_to, None);
    assert_eq!(request.trace.parent_call_id, Some(41));
    assert_eq!(request.trace.call_depth, 1);
    assert_eq!(request.trace.causal_depth, 2);
    assert_eq!(request.trace.task_id.as_deref(), Some("task"));
    let Payload::HostCall(call) = request.payload else {
        panic!("no host call was made");
    };
    assert_eq!(call.call, Some(read()));
}

#[test]
fn host_calls_respect_the_negotiated_depth() {
    assert_eq!(
        context(1, 1).host_call(read()).unwrap_err().message(),
        "host call exceeds the negotiated call-depth limit"
    );
    assert_eq!(
        context(u32::MAX, u32::MAX).host_call(read()).unwrap_err().message(),
        "host-call depth overflowed"
    );
}

#[test]
fn ended_actions_begin_nothing() {
    let mut context = context(0, 10);
    context.cancellation.finish();
    assert!(matches!(context.host_call(read()), Err(SdkError::Cancelled)));
    assert!(matches!(context.get_config(None), Err(SdkError::Cancelled)));
    let record = context.log(
        LogLevel::Unspecified,
        String::new(),
        String::new(),
        Vec::new(),
    );
    assert!(matches!(record, Err(SdkError::Cancelled)));
    let request = context.request(Payload::ProtocolError(ProtocolError::default()));
    assert!(matches!(request, Err(SdkError::Cancelled)));
    let stored = context.store_artifact(descriptor(FIRST));
    assert!(matches!(stored.err(), Some(SdkError::Cancelled)));
}

fn answered(result: Option<HostCallResult>) -> Attempt<Payload> {
    Attempt::Done(Payload::HostResult(HostCallResponse { result }))
}

#[test]
fn answers_are_held_against_their_call() {
    let context = context(0, 10);
    let document = HostCallResult::ReadDocument(DocumentMessage { encoded: vec![1] });
    let response = context
        .host_call_result(HostCallKind::ReadDocument, answered(Some(document.clone())))
        .unwrap();
    assert_eq!(response.result, Some(document.clone()));
    let fault = |kind: HostCallKind, reply: Attempt<Payload>| {
        context.host_call_result(kind, reply).unwrap_err().message()
    };
    assert_eq!(
        fault(HostCallKind::ReadCrdt, answered(Some(document))),
        "host returned another response kind for HostCallRequest"
    );
    assert_eq!(
        fault(HostCallKind::ReadCrdt, answered(None)),
        "HostCallResponse result is required"
    );
    assert_eq!(
        fault(
            HostCallKind::ReadCrdt,
            Attempt::Done(Payload::ShutdownAcknowledged(
                onelastleaf_plugin_sdk::protocol::ShutdownAcknowledged {}
            ))
        ),
        "host call received another response kind"
    );
    assert_eq!(
        fault(HostCallKind::ReadCrdt, Attempt::Cancelled),
        "action was cancelled"
    );
    assert_eq!(
        fault(
            HostCallKind::ReadCrdt,
            Attempt::Failed("channel closed".to_owned())
        ),
        "wait for host response: channel closed"
    );
    assert_eq!(
        fault(
            HostCallKind::ReadCrdt,
            answered(Some(HostCallResult::Error(ProtocolError::default())))
        ),
        "ProtocolError code and message must be specified"
    );
}

#[test]
fn host_errors_reach_the_action_unchanged() {
    let context = context(0, 10);
    let error = ProtocolError {
        code: ErrorCode::Other(999),
        message: "future error".to_owned(),
        retryable: true,
        metadata: vec![("key".to_owned(), "value".to_owned())],
        details: Vec::new(),
    };
    for reply in [
        answered(Some(HostCallResult::Error(error.clone()))),
        Attempt::Done(Payload::ProtocolError(error.clone())),
    ] {
        let failed = context.host_call_result(HostCallKind::GetConfig, reply);
        assert!(matches!(failed, Err(SdkError::Host(host)) if host == error));
    }
    let error_response = HostCallResponse {
        result: Some(HostCallResult::Error(error)),
    };
    assert!(HostCallKind::GetConfig
        .validate_response(&error_response, "session")
        .is_ok());
}

#[test]
fn configuration_is_read_at_complete_paths() {
    let context = context(0, 10);
    let path = ConfigPath {
        segments: vec![
            ConfigPathSegment {
                kind: Some(ConfigPathStep::Key("key".to_owned())),
            },
            ConfigPathSegment {
                kind: Some(ConfigPathStep::Index(2)),
            },
        ],
    };
    let request = context.get_config(Some(path.clone())).unwrap();
    let Payload::HostCall(call) = request.payload else {
        panic!("no host call was made");
    };
    assert_eq!(
        call.call,
        Some(HostCall::GetConfig(GetConfigRequest { path: Some(path) }))
    );
    let incomplete = ConfigPath {
        segments: vec![ConfigPathSegment { kind: None }],
    };
    assert_eq!(
        context.get_config(Some(incomplete)).unwrap_err().message(),
        "configuration path segments must specify a key or index"
    );
    let configured = GetConfigResponse {
        value: Some(text("value")),
    };
    assert_eq!(
        context
            .get_config_result(answered(Some(HostCallResult::GetConfig(configured.clone()))))
            .unwrap(),
        configured
    );
    assert!(context
        .get_config_result(answered(Some(HostCallResult::ReadCrdt(
            DocumentMessage::default()
        ))))
        .is_err());
}

#[test]
fn configuration_functions_stay_in_their_session() {
    let context = context(0, 10);
    let function = |session_id: &str, function_id: &str| ConfigFunctionRef {
        session_id: session_id.to_owned(),
        function_id: function_id.to_owned(),
    };
    let request = context
        .invoke_config_function(function("session", "function"), vec![text("argument")])
        .unwrap();
    assert!(matches!(request.payload, Payload::HostCall(_)));
    for foreign in [function("other", "function"), function("session", "")] {
        assert_eq!(
            context
                .invoke_config_function(foreign, Vec::new())
                .unwrap_err()
                .message(),
            "configuration function must belong to the active session"
        );
    }
    let missing = HostCall::InvokeConfigFunction(InvokeConfigFunctionRequest {
        function: None,
        arguments: Vec::new(),
    });
    assert_eq!(
        HostCallKind::validate(&missing, "session").unwrap_err().message(),
        "configuration function reference is required"
    );
    assert!(context
        .invoke_config_function(
            function("session", "function"),
            vec![ConfigValue { kind: None }]
        )
        .is_err());
    let returned = InvokeConfigFunctionResponse {
        results: vec![text("result")],
    };
    assert_eq!(
        context
            .invoke_config_function_result(answered(Some(HostCallResult::InvokeConfigFunction(
                returned.clone()
            ))))
            .unwrap(),
        returned
    );
}

#[test]
fn log_records_are_complete_and_stamped() {
    let context = context(0, 10);
    let field = ConfigEntry {
        key: "key".to_owned(),
        value: text("value"),
    };
    let record = context
        .log(
            LogLevel::Info,
            "conformance".to_owned(),
            "message".to_owned(),
            vec![field.clone()],
        )
        .unwrap();
    assert_eq!(record.reply_to, None);
    assert_eq!(&record.trace, context.trace());
    let Payload::Log(record) = record.payload else {
        panic!("no record was logged");
    };
    assert_eq!(record.level, LogLevel::Info);
    assert_eq!(record.target, "conformance");
    assert_eq!(record.message, "message");
    assert_eq!(record.fields, [field]);
    assert!(record.timestamp.unwrap().seconds > 1_600_000_000);
}

#[test]
fn log_records_name_their_fault() {
    let context = context(0, 10);
    let now = Timestamp {
        seconds: 1,
        nanos: 2,
    };
    let fault = |level: LogLevel, target: &str, value: ConfigValue| {
        let field = ConfigEntry {
            key: "key".to_owned(),
            value,
        };
        context
            .log_at(
                Ok(now),
                level,
                target.to_owned(),
                String::new(),
                vec![field],
            )
            .unwrap_err()
            .message()
    };
    for level in [LogLevel::Unspecified, LogLevel::Other(0)] {
        assert_eq!(
            fault(level, "", text("")),
            "log level must not be unspecified"
        );
    }
    assert_eq!(
        fault(LogLevel::Other(9), "", text("")),
        "log target must not be empty"
    );
    assert_eq!(
        fault(LogLevel::Info, "target", ConfigValue { kind: None }),
        "ConfigValue kind is required"
    );
    let record = context
        .log_at(
            Ok(now),
            LogLevel::Info,
            "target".to_owned(),
            String::new(),
            Vec::new(),
        )
        .unwrap();
    assert!(matches!(record.payload, Payload::Log(record) if record.timestamp == Some(now)));
}

#[test]
fn clock_readings_must_fit_a_timestamp() {
    let now = system_timestamp().unwrap();
    assert!(now.seconds > 1_600_000_000);
    assert_eq!(clock_reading(now).unwrap(), now);
    let error = clock_reading(Timestamp {
        seconds: i64::MAX,
        nanos: 0,
    })
    .unwrap_err();
    assert!(matches!(error, SdkError::Environment(_)));
    assert_eq!(
        error.message(),
        "system clock is outside the protobuf Timestamp domain"
    );
}

#[test]
fn copies_of_results_are_sent_alike() {
    let stored = artifact("job");
    let copied = stored.clone();
    assert_eq!(copied.descriptor(), stored.descriptor());
    let output = ActionResult::value(text("output"))
        .unwrap()
        .with_artifact(stored)
        .with_artifact(store("job", SECOND));
    let copy = output.clone();
    assert_eq!(copy.result(), output.result());
    assert_eq!(copy.artifacts().len(), 2);
    assert_eq!(
        copy.clone().into_wire("job").unwrap(),
        output.clone().into_wire("job").unwrap()
    );
    assert_eq!(
        copy.into_wire("other").unwrap_err().message(),
        output.into_wire("other").unwrap_err().message()
    );
    let twice = ActionResult::empty()
        .with_artifact(copied.clone())
        .with_artifact(copied);
    assert_eq!(
        twice.clone().into_wire("job").unwrap_err().message(),
        "job results must not reference the same artifact more than once"
    );
    assert!(ActionResult::empty().clone().into_wire("job").is_ok());
}
