use onelastleaf_plugin_sdk::foreign::{IpAddress, UriAuthority, UriParts};
use onelastleaf_plugin_sdk::protocol::{
    ErrorCode, HostHello, JobCancellationReason, NodeId, NodeIdentity, NodeName, PluginEnvelope,
    PluginId, PluginJobId, PluginName, ProtocolError, ShutdownRequest, Timestamp, TraceContext,
};
use onelastleaf_plugin_sdk::validation::{
    allowed_endpoint, cancellation_reason, canonical_uuid_v4, endpoint, host_hello, job_id,
    loopback, optional_timestamp, plugin_id, protocol_error, shutdown, timestamp, trace,
    valid_dns_label,
};
use onelastleaf_plugin_sdk::SdkError;

#[test]
fn endpoint_is_private_and_explicit() {
    assert!(endpoint("http://127.0.0.1:1234").is_ok());
    assert!(endpoint("http://[::1]:1234").is_ok());
    assert!(endpoint("http://localhost:1234").is_ok());
    assert!(endpoint("http://example.com:1234").is_err());
    assert!(endpoint("https://127.0.0.1:1234").is_err());
    assert!(endpoint("http://127.0.0.1").is_err());
    assert!(endpoint("http://127.0.0.1:0").is_err());
    assert!(endpoint("http://user@127.0.0.1:1234").is_err());
}

#[test]
fn uuid_requires_canonical_version_four() {
    assert!(canonical_uuid_v4("0f337c0c-51d6-44a9-a691-a31fce775ab1"));
    assert!(!canonical_uuid_v4("0f337c0c-51d6-14a9-a691-a31fce775ab1"));
    assert!(!canonical_uuid_v4("0F337C0C-51D6-44A9-A691-A31FCE775AB1"));
}

fn hello() -> HostHello {
    HostHello {
        node: Some(NodeIdentity {
            node_id: Some(NodeId {
                value: "0f337c0c-51d6-44a9-a691-a31fce775ab1".to_owned(),
            }),
            node_name: Some(NodeName {
                value: "primary-node".to_owned(),
            }),
        }),
        maximum_call_depth: 10,
        maximum_causal_depth: 10,
        maximum_artifact_chunk_bytes: 64 * 1024,
        plugin_id: Some(PluginId {
            value: "org.example.echo".to_owned(),
        }),
        plugin_name: Some(PluginName {
            value: "echo".to_owned(),
        }),
    }
}

#[test]
fn host_hello_requires_complete_typed_identity() {
    let valid = hello();
    assert!(host_hello("org.example.echo", &valid).is_ok());

    let mut invalid = valid.clone();
    invalid
        .node
        .as_mut()
        .unwrap()
        .node_name
        .as_mut()
        .unwrap()
        .value = "Not DNS".to_owned();
    assert!(host_hello("org.example.echo", &invalid).is_err());

    let mut invalid = valid;
    invalid
        .node
        .as_mut()
        .unwrap()
        .node_id
        .as_mut()
        .unwrap()
        .value = "0f337c0c-51d6-14a9-a691-a31fce775ab1".to_owned();
    assert!(host_hello("org.example.echo", &invalid).is_err());
}

#[test]
fn cancellation_and_shutdown_reject_unspecified_values() {
    assert!(cancellation_reason(JobCancellationReason::UserRequest).is_ok());
    assert!(cancellation_reason(JobCancellationReason::Unspecified).is_err());
    assert!(cancellation_reason(JobCancellationReason::Other(999)).is_ok());
    assert!(shutdown(&ShutdownRequest {
        reason: String::new(),
        grace_period_deadline: None,
    })
    .is_err());
    assert!(protocol_error(&ProtocolError {
        code: ErrorCode::Other(999),
        message: "future error".to_owned(),
        retryable: false,
        metadata: Vec::new(),
        details: Vec::new(),
    })
    .is_ok());
}

#[test]
fn timestamps_and_protocol_errors_must_be_in_their_domains() {
    assert!(timestamp(
        Some(Timestamp {
            seconds: 0,
            nanos: 1_000_000_000,
        }),
        "timestamp",
    )
    .is_err());
    assert!(protocol_error(&ProtocolError {
        code: ErrorCode::Unspecified,
        message: "missing code".to_owned(),
        retryable: false,
        metadata: Vec::new(),
        details: Vec::new(),
    })
    .is_err());
}

#[test]
fn endpoints_are_taken_apart() {
    let parts = endpoint("http://[::1]:1234").unwrap();
    assert_eq!(
        parts,
        UriParts {
            scheme: Some("http".to_owned()),
            authority: Some(UriAuthority {
                text: "[::1]:1234".to_owned(),
                host: "[::1]".to_owned(),
                port: Some(1234),
            }),
            path: "/".to_owned(),
            query: None,
        }
    );
}

#[test]
fn endpoints_allow_no_path_query_or_other_loopback_spelling() {
    assert!(endpoint("http://LocalHost:1").is_ok());
    assert!(endpoint("http://127.8.9.10:65535/").is_ok());
    assert!(endpoint("http://localhost:1234/path").is_err());
    assert!(endpoint("http://localhost:1234/?query").is_err());
    assert!(endpoint("http://[::2]:1234").is_err());
    assert!(endpoint("http://128.0.0.1:1234").is_err());
    assert!(endpoint("localhost:1234").is_err());
    let refused = endpoint("http://example.com:1234").unwrap_err();
    assert!(matches!(refused, SdkError::Environment(_)));
    assert_eq!(
        refused.message(),
        "OLL_PLUGIN_ENDPOINT must be an http loopback URL with an explicit nonzero port"
    );
}

#[test]
fn unparsable_endpoints_keep_the_parse_error() {
    let error = endpoint("http://local host:1").unwrap_err();
    assert!(matches!(
        error,
        SdkError::Runtime {
            operation: "parse OLL_PLUGIN_ENDPOINT",
            ..
        }
    ));
    assert!(!error.source().unwrap().is_empty());
}

#[test]
fn endpoint_rules_hold_for_given_parts() {
    let parts = |host: &str, port: Option<u16>| UriParts {
        scheme: Some("http".to_owned()),
        authority: Some(UriAuthority {
            text: host.to_owned(),
            host: host.to_owned(),
            port,
        }),
        path: "/".to_owned(),
        query: None,
    };
    let private = Some(IpAddress::V4([10, 0, 0, 1]));
    let local = Some(IpAddress::V4([127, 0, 0, 1]));
    assert!(allowed_endpoint(&parts("LOCALHOST", Some(1)), None));
    assert!(allowed_endpoint(&parts("127.0.0.1", Some(1)), local));
    assert!(!allowed_endpoint(&parts("10.0.0.1", Some(1)), private));
    assert!(!allowed_endpoint(&parts("127.0.0.1", None), local));
    assert!(!allowed_endpoint(&parts("127.0.0.1", Some(0)), local));
    assert!(!allowed_endpoint(&parts("user@127.0.0.1", Some(1)), local));
}

#[test]
fn loopback_addresses_are_recognized() {
    assert!(loopback(&IpAddress::V4([127, 255, 0, 9])));
    assert!(!loopback(&IpAddress::V4([126, 0, 0, 1])));
    let mut address = [0; 16];
    assert!(!loopback(&IpAddress::V6(address)));
    address[15] = 1;
    assert!(loopback(&IpAddress::V6(address)));
    address[0] = 1;
    assert!(!loopback(&IpAddress::V6(address)));
}

#[test]
fn uuids_in_other_spellings_are_not_canonical() {
    assert!(canonical_uuid_v4("00000000-0000-4000-8000-000000000001"));
    assert!(!canonical_uuid_v4("0f337c0c51d644a9a691a31fce775ab1"));
    assert!(!canonical_uuid_v4("{0f337c0c-51d6-44a9-a691-a31fce775ab1}"));
    assert!(!canonical_uuid_v4("urn:uuid:0f337c0c-51d6-44a9-a691-a31fce775ab1"));
    assert!(!canonical_uuid_v4(""));
    assert!(!canonical_uuid_v4("0f337c0c-51d6-44a9-a691-a31fce775abg"));
}

#[test]
fn dns_labels_are_lower_case_with_inner_hyphens() {
    assert!(valid_dns_label("a"));
    assert!(valid_dns_label("primary-node-2"));
    assert!(valid_dns_label(&"a".repeat(63)));
    assert!(!valid_dns_label(&"a".repeat(64)));
    for label in ["", "-a", "a-", "A", "a_b", "a.b", "\u{e4}"] {
        assert!(!valid_dns_label(label), "{label:?}");
    }
}

#[test]
fn plugin_ids_are_dotted_names() {
    assert!(plugin_id("org.example.echo").is_ok());
    assert!(plugin_id("a.b").is_ok());
    for name in ["", "invalid", ".a", "a.", "a..b", "Org.example", "org.exa mple"] {
        let error = plugin_id(name).unwrap_err();
        assert!(matches!(error, SdkError::InvalidArgument(_)), "{name:?}");
        assert_eq!(error.message(), "plugin ID must be a lower-case dotted DNS name");
    }
    let longest = format!("{}.{}.{}", "a".repeat(63), "b".repeat(63), "c".repeat(63));
    assert_eq!(longest.len(), 191);
    assert!(plugin_id(&longest).is_ok());
    assert!(plugin_id(&format!("{longest}.d")).is_err());
}

#[test]
fn host_hello_requires_nonzero_limits_and_the_expected_plugin() {
    assert!(host_hello("org.example.other", &hello()).is_err());
    let mut invalid = hello();
    invalid.maximum_call_depth = 0;
    assert!(host_hello("org.example.echo", &invalid).is_err());
    let mut invalid = hello();
    invalid.maximum_causal_depth = 0;
    assert!(host_hello("org.example.echo", &invalid).is_err());
    let mut invalid = hello();
    invalid.maximum_artifact_chunk_bytes = 0;
    assert!(host_hello("org.example.echo", &invalid).is_err());
    let mut invalid = hello();
    invalid.plugin_name = None;
    assert!(host_hello("org.example.echo", &invalid).is_err());
    let mut invalid = hello();
    invalid.node = None;
    assert_eq!(
        host_hello("org.example.echo", &invalid).unwrap_err().message(),
        "HostHello does not describe the expected plugin instance"
    );
}

fn traced(correlation_id: &str, call_depth: u32, causal_depth: u32) -> PluginEnvelope {
    PluginEnvelope {
        message_id: 1,
        reply_to: None,
        session_id: "session".to_owned(),
        plugin_instance_id: "instance".to_owned(),
        trace: Some(TraceContext {
            correlation_id: correlation_id.to_owned(),
            parent_call_id: None,
            call_depth,
            causal_depth,
            task_id: None,
            task_group_id: None,
        }),
        payload: None,
    }
}

#[test]
fn traces_are_complete_and_within_the_negotiated_depths() {
    assert!(trace(&traced("correlation", 3, 4), 3, 4).is_ok());
    assert_eq!(
        trace(&traced("", 0, 0), 3, 4).unwrap_err().message(),
        "host omitted correlation context"
    );
    let mut missing = traced("correlation", 0, 0);
    missing.trace = None;
    assert_eq!(
        trace(&missing, 3, 4).unwrap_err().message(),
        "host omitted correlation context"
    );
    for envelope in [traced("correlation", 4, 0), traced("correlation", 0, 5)] {
        assert_eq!(
            trace(&envelope, 3, 4).unwrap_err().message(),
            "host envelope exceeds a negotiated trace depth limit"
        );
    }
}

#[test]
fn job_ids_are_required_and_canonical() {
    let id = PluginJobId {
        value: "00000000-0000-4000-8000-000000000001".to_owned(),
    };
    assert_eq!(job_id(&Some(id.clone())).unwrap(), &id.value);
    assert_eq!(job_id(&None).unwrap_err().message(), "job ID is required");
    assert_eq!(
        job_id(&Some(PluginJobId {
            value: "job".to_owned()
        }))
        .unwrap_err()
        .message(),
        "job ID must be a canonical UUID v4"
    );
}

#[test]
fn timestamps_report_the_field_they_stand_in() {
    let valid = Timestamp {
        seconds: 5,
        nanos: 6,
    };
    assert_eq!(timestamp(Some(valid), "field").unwrap(), valid);
    assert_eq!(
        timestamp(None, "field").unwrap_err().message(),
        "field must be a valid protobuf Timestamp"
    );
    assert!(optional_timestamp(None, "field").is_ok());
    assert!(optional_timestamp(Some(valid), "field").is_ok());
    assert_eq!(
        optional_timestamp(
            Some(Timestamp {
                seconds: 0,
                nanos: -1
            }),
            "field"
        )
        .unwrap_err()
        .message(),
        "field must be a valid protobuf Timestamp"
    );
}

#[test]
fn shutdown_requests_need_a_reason_and_a_deadline() {
    let deadline = Timestamp {
        seconds: 100,
        nanos: 0,
    };
    assert_eq!(
        shutdown(&ShutdownRequest {
            reason: "update".to_owned(),
            grace_period_deadline: Some(deadline),
        })
        .unwrap(),
        deadline
    );
    assert_eq!(
        shutdown(&ShutdownRequest {
            reason: String::new(),
            grace_period_deadline: Some(deadline),
        })
        .unwrap_err()
        .message(),
        "ShutdownRequest reason must not be empty"
    );
    assert_eq!(
        shutdown(&ShutdownRequest {
            reason: "update".to_owned(),
            grace_period_deadline: None,
        })
        .unwrap_err()
        .message(),
        "ShutdownRequest grace-period deadline must be a valid protobuf Timestamp"
    );
    assert_eq!(
        cancellation_reason(JobCancellationReason::Unspecified)
            .unwrap_err()
            .message(),
        "CancelJobRequest reason must not be unspecified"
    );
}

#[test]
fn the_number_zero_is_unspecified_without_its_name_too() {
    assert!(cancellation_reason(JobCancellationReason::Other(0)).is_err());
    assert!(cancellation_reason(JobCancellationReason::Other(-1)).is_ok());
    let error = |code: ErrorCode| ProtocolError {
        code,
        message: "message".to_owned(),
        retryable: false,
        metadata: Vec::new(),
        details: Vec::new(),
    };
    assert!(protocol_error(&error(ErrorCode::Other(0))).is_err());
    assert!(protocol_error(&error(ErrorCode::Other(1))).is_ok());
    assert!(protocol_error(&error(ErrorCode::Internal)).is_ok());
}

#[test]
fn uuids_of_every_other_version_are_refused() {
    for digit in "0123456789abcdef".chars() {
        let spelled = format!("0f337c0c-51d6-{digit}4a9-a691-a31fce775ab1");
        assert_eq!(canonical_uuid_v4(&spelled), digit == '4', "{spelled}");
    }
    assert!(!canonical_uuid_v4("00000000-0000-0000-0000-000000000000"));
    assert!(!canonical_uuid_v4("ffffffff-ffff-ffff-ffff-ffffffffffff"));
}
