use onelastleaf_plugin_sdk::protocol::{
    ConfigEntry, ConfigFunctionRef, ConfigKind, ConfigList, ConfigMap, ConfigValue, Duration,
    Timestamp,
};
use onelastleaf_plugin_sdk::value::{
    invalid, valid_duration, valid_timestamp, validate, validate_fields, validate_serializable,
    validate_session_values, MAXIMUM_VALUE_DEPTH, NULL_VALUE, PROTOBUF_DURATION_MAX_SECONDS,
    PROTOBUF_TIMESTAMP_MAX_SECONDS, PROTOBUF_TIMESTAMP_MIN_SECONDS,
};
use onelastleaf_plugin_sdk::SdkError;

fn of(kind: ConfigKind) -> ConfigValue {
    ConfigValue { kind: Some(kind) }
}

fn function(session_id: &str, function_id: &str) -> ConfigValue {
    of(ConfigKind::FunctionValue(ConfigFunctionRef {
        session_id: session_id.to_owned(),
        function_id: function_id.to_owned(),
    }))
}

fn fault(value: ConfigValue) -> String {
    validate_serializable(&value).unwrap_err().message()
}

#[test]
fn durable_values_reject_non_finite_numbers_and_functions() {
    let number = of(ConfigKind::NumberValue(f64::NAN.to_bits()));
    let function = function("session", "function");
    assert!(validate_serializable(&number).is_err());
    assert!(validate_serializable(&function).is_err());
    assert!(validate_session_values(&[function], "session").is_ok());
}

#[test]
fn value_depth_matches_the_canonical_limit() {
    let mut accepted = of(ConfigKind::NullValue(NULL_VALUE));
    for _ in 0..MAXIMUM_VALUE_DEPTH {
        accepted = of(ConfigKind::ListValue(ConfigList {
            values: vec![accepted],
        }));
    }
    let rejected = of(ConfigKind::ListValue(ConfigList {
        values: vec![accepted.clone()],
    }));
    assert!(validate_serializable(&accepted).is_ok());
    assert!(validate_serializable(&rejected).is_err());
}

#[test]
fn values_reject_invalid_protobuf_well_known_types() {
    let timestamp = of(ConfigKind::TimestampValue(Timestamp {
        seconds: PROTOBUF_TIMESTAMP_MAX_SECONDS + 1,
        nanos: 0,
    }));
    let duration = of(ConfigKind::DurationValue(Duration {
        seconds: 1,
        nanos: -1,
    }));
    assert!(validate_serializable(&timestamp).is_err());
    assert!(validate_serializable(&duration).is_err());
}

#[test]
fn session_values_reject_foreign_function_handles() {
    let function = function("another-session", "function");
    assert!(validate_session_values(&[function], "session").is_err());
}

#[test]
fn map_values_use_the_same_depth_limit() {
    let mut accepted = of(ConfigKind::BoolValue(true));
    for _ in 0..MAXIMUM_VALUE_DEPTH {
        accepted = of(ConfigKind::MapValue(ConfigMap {
            entries: vec![ConfigEntry {
                key: "key".to_owned(),
                value: accepted,
            }],
        }));
    }
    assert!(validate_serializable(&accepted).is_ok());
    assert!(validate(&accepted, 1, None).is_err());
    assert_eq!(
        fault(of(ConfigKind::MapValue(ConfigMap {
            entries: vec![ConfigEntry {
                key: "key".to_owned(),
                value: accepted,
            }],
        }))),
        "ConfigValue nesting exceeds the supported limit"
    );
}

#[test]
fn every_fault_has_its_own_message() {
    assert_eq!(
        fault(ConfigValue { kind: None }),
        "ConfigValue kind is required"
    );
    assert_eq!(
        fault(of(ConfigKind::NullValue(1))),
        "ConfigValue contains an unknown null value"
    );
    for number in [f64::NAN, f64::INFINITY, f64::NEG_INFINITY] {
        assert_eq!(
            fault(of(ConfigKind::NumberValue(number.to_bits()))),
            "ConfigValue numbers must be finite"
        );
    }
    for number in [0.0, -0.0, 1.5, f64::MAX, f64::MIN_POSITIVE] {
        assert!(validate_serializable(&of(ConfigKind::NumberValue(f64::to_bits(number)))).is_ok());
    }
    assert_eq!(
        fault(function("session", "function")),
        "session-scoped configuration functions cannot be stored or logged"
    );
    let foreign = validate_session_values(&[function("other", "function")], "session");
    assert_eq!(
        foreign.unwrap_err().message(),
        "configuration function belongs to another plugin session"
    );
    let unnamed = validate_session_values(&[function("session", "")], "session");
    assert_eq!(
        unnamed.unwrap_err().message(),
        "configuration function ID must not be empty"
    );
    assert_eq!(
        fault(of(ConfigKind::TimestampValue(Timestamp {
            seconds: 0,
            nanos: -1,
        }))),
        "ConfigValue timestamp is outside the protobuf Timestamp domain"
    );
    assert_eq!(
        fault(of(ConfigKind::DurationValue(Duration {
            seconds: -1,
            nanos: 1,
        }))),
        "ConfigValue duration is outside the protobuf Duration domain"
    );
}

#[test]
fn the_first_fault_is_reported() {
    let values = of(ConfigKind::ListValue(ConfigList {
        values: vec![
            of(ConfigKind::StringValue("fine".to_owned())),
            of(ConfigKind::NullValue(7)),
            ConfigValue { kind: None },
        ],
    }));
    assert_eq!(fault(values), "ConfigValue contains an unknown null value");
}

#[test]
fn well_known_domains_end_where_protobuf_ends_them() {
    let at = |seconds: i64, nanos: i32| valid_timestamp(&Timestamp { seconds, nanos });
    assert!(at(PROTOBUF_TIMESTAMP_MIN_SECONDS, 0));
    assert!(!at(PROTOBUF_TIMESTAMP_MIN_SECONDS - 1, 0));
    assert!(at(PROTOBUF_TIMESTAMP_MAX_SECONDS, 999_999_999));
    assert!(!at(0, 1_000_000_000));
    let span = |seconds: i64, nanos: i32| valid_duration(&Duration { seconds, nanos });
    assert!(span(PROTOBUF_DURATION_MAX_SECONDS, 999_999_999));
    assert!(span(-PROTOBUF_DURATION_MAX_SECONDS, -999_999_999));
    assert!(!span(PROTOBUF_DURATION_MAX_SECONDS + 1, 0));
    assert!(span(0, -1));
    assert!(!span(1, -1));
    assert!(!span(-1, 1));
}

#[test]
fn durable_values_pass_in_every_session() {
    let value = of(ConfigKind::BytesValue(vec![0, 255]));
    assert!(validate_serializable(&value).is_ok());
    assert!(validate_session_values(&[value.clone(), value], "any").is_ok());
}

#[test]
fn log_fields_are_validated_one_by_one() {
    let entry = |value: ConfigValue| ConfigEntry {
        key: "key".to_owned(),
        value,
    };
    assert!(validate_fields(&[]).is_ok());
    assert!(validate_fields(&[entry(of(ConfigKind::IntegerValue(1)))]).is_ok());
    let refused = validate_fields(&[
        entry(of(ConfigKind::IntegerValue(1))),
        entry(function("session", "function")),
    ]);
    assert!(matches!(refused, Err(SdkError::InvalidArgument(_))));
}

#[test]
fn invalid_values_are_invalid_arguments() {
    let error = invalid("message");
    assert!(matches!(error, SdkError::InvalidArgument(_)));
    assert_eq!(error.message(), "message");
}
