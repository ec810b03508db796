use onelastleaf_plugin_sdk::protocol::equality::{same_bytes, same_number};
use onelastleaf_plugin_sdk::protocol::{
    Any, ArtifactDescriptor, ConfigEntry, ConfigFunctionRef, ConfigKind, ConfigList, ConfigMap,
    ConfigValue, Duration, ErrorCode, JobCancellationReason, JobState, JobUpdate, LogLevel,
    LogRecord, Payload, PluginArtifactId, PluginJobId, ProtocolError, Timestamp,
};

fn of(kind: ConfigKind) -> ConfigValue {
    ConfigValue { kind: Some(kind) }
}

fn text(value: &str) -> ConfigValue {
    of(ConfigKind::StringValue(value.to_owned()))
}

fn number(value: f64) -> ConfigValue {
    of(ConfigKind::NumberValue(value.to_bits()))
}

fn entry(key: &str, value: ConfigValue) -> ConfigEntry {
    ConfigEntry {
        key: key.to_owned(),
        value,
    }
}

fn map(entries: Vec<ConfigEntry>) -> ConfigValue {
    of(ConfigKind::MapValue(ConfigMap { entries }))
}

fn list(values: Vec<ConfigValue>) -> ConfigValue {
    of(ConfigKind::ListValue(ConfigList { values }))
}

fn error(metadata: &[(&str, &str)]) -> ProtocolError {
    ProtocolError {
        code: ErrorCode::Unavailable,
        message: "retry later".to_owned(),
        retryable: true,
        metadata: metadata
            .iter()
            .map(|(key, value)| ((*key).to_owned(), (*value).to_owned()))
            .collect(),
        details: vec![Any {
            type_url: "example.test/Detail".to_owned(),
            value: vec![1, 2, 3],
        }],
    }
}

#[test]
fn errors_are_equal_whatever_the_order_of_their_metadata() {
    assert_eq!(error(&[("a", "1"), ("b", "2")]), error(&[("b", "2"), ("a", "1")]));
    assert_ne!(error(&[("a", "1"), ("b", "2")]), error(&[("a", "2"), ("b", "1")]));
    assert_ne!(error(&[("a", "1"), ("b", "2")]), error(&[("a", "1")]));
    assert_ne!(error(&[("a", "1")]), error(&[("a", "1"), ("b", "2")]));
    assert_eq!(error(&[]), error(&[]));
}

#[test]
fn errors_differ_in_every_other_field() {
    let base = error(&[("a", "1")]);
    assert_eq!(base.clone(), base);
    let mut other = base.clone();
    other.code = ErrorCode::Internal;
    assert_ne!(other, base);
    let mut other = base.clone();
    other.message = "retry".to_owned();
    assert_ne!(other, base);
    let mut other = base.clone();
    other.retryable = false;
    assert_ne!(other, base);
    let mut other = base.clone();
    other.details[0].value = vec![1, 2, 4];
    assert_ne!(other, base);
    let mut other = base.clone();
    other.details[0].type_url = "example.test/Other".to_owned();
    assert_ne!(other, base);
    let mut other = base.clone();
    other.details.push(base.details[0].clone());
    assert_ne!(other, base);
}

#[test]
fn details_are_equal_only_in_the_same_order() {
    let detail = |type_url: &str| Any {
        type_url: type_url.to_owned(),
        value: Vec::new(),
    };
    let mut left = error(&[]);
    left.details = vec![detail("first"), detail("second")];
    let mut right = error(&[]);
    right.details = vec![detail("second"), detail("first")];
    assert_ne!(left, right);
}

#[test]
fn maps_are_equal_whatever_the_order_of_their_entries() {
    let left = map(vec![
        entry("a", text("1")),
        entry("b", map(vec![entry("c", text("2")), entry("d", text("3"))])),
    ]);
    let right = map(vec![
        entry("b", map(vec![entry("d", text("3")), entry("c", text("2"))])),
        entry("a", text("1")),
    ]);
    assert_eq!(left, right);
    assert_eq!(right, left);
    assert_ne!(left, map(vec![entry("a", text("1"))]));
    assert_ne!(map(vec![entry("a", text("1"))]), left);
    assert_ne!(map(vec![entry("a", text("1"))]), map(vec![entry("a", text("2"))]));
    assert_ne!(map(vec![entry("a", text("1"))]), map(vec![entry("b", text("1"))]));
    assert_eq!(map(Vec::new()), map(Vec::new()));
}

#[test]
fn lists_are_equal_only_in_the_same_order() {
    assert_eq!(list(vec![text("1"), text("2")]), list(vec![text("1"), text("2")]));
    assert_ne!(list(vec![text("1"), text("2")]), list(vec![text("2"), text("1")]));
    assert_ne!(list(vec![text("1")]), list(vec![text("1"), text("1")]));
}

#[test]
fn values_of_different_kinds_differ() {
    let values = [
        of(ConfigKind::NullValue(0)),
        of(ConfigKind::BoolValue(false)),
        of(ConfigKind::IntegerValue(0)),
        number(0.0),
        text(""),
        of(ConfigKind::BytesValue(Vec::new())),
        list(Vec::new()),
        map(Vec::new()),
        of(ConfigKind::FunctionValue(ConfigFunctionRef {
            session_id: "session".to_owned(),
            function_id: "function".to_owned(),
        })),
        of(ConfigKind::TimestampValue(Timestamp { seconds: 0, nanos: 0 })),
        of(ConfigKind::DurationValue(Duration { seconds: 0, nanos: 0 })),
        ConfigValue { kind: None },
    ];
    for (left_index, left) in values.iter().enumerate() {
        for (right_index, right) in values.iter().enumerate() {
            assert_eq!(left == right, left_index == right_index);
        }
        assert_eq!(left.clone(), *left);
    }
}

#[test]
fn numbers_are_equal_as_floating_point_has_it() {
    let numbers = [
        0.0,
        -0.0,
        1.5,
        -1.5,
        f64::INFINITY,
        f64::NEG_INFINITY,
        f64::NAN,
        -f64::NAN,
        f64::MAX,
        f64::MIN_POSITIVE,
    ];
    for left in numbers {
        for right in numbers {
            assert_eq!(same_number(left.to_bits(), right.to_bits()), left == right);
            assert_eq!(number(left) == number(right), left == right);
        }
    }
}

#[test]
fn bytes_are_equal_as_a_whole() {
    assert!(same_bytes(&[], &[]));
    assert!(same_bytes(&[1, 2], &[1, 2]));
    assert!(!same_bytes(&[1, 2], &[1, 3]));
    assert!(!same_bytes(&[1, 2], &[1]));
}

#[test]
fn open_enumerations_are_equal_to_their_number() {
    assert_eq!(ErrorCode::Unspecified, ErrorCode::Other(0));
    assert_ne!(ErrorCode::Unspecified, ErrorCode::Other(1));
    assert_ne!(ErrorCode::Other(100), ErrorCode::Other(101));
    assert_eq!(LogLevel::Other(0), LogLevel::Unspecified);
    assert_ne!(LogLevel::Info, LogLevel::Unspecified);
    assert_eq!(JobCancellationReason::Unspecified, JobCancellationReason::Other(0));
    assert_ne!(JobCancellationReason::UserRequest, JobCancellationReason::Other(0));
}

fn record(fields: Vec<ConfigEntry>) -> LogRecord {
    LogRecord {
        timestamp: Some(Timestamp { seconds: 1, nanos: 2 }),
        level: LogLevel::Info,
        target: "target".to_owned(),
        message: "message".to_owned(),
        fields,
    }
}

#[test]
fn records_are_equal_whatever_the_order_of_their_fields() {
    let left = record(vec![entry("a", text("1")), entry("b", text("2"))]);
    let right = record(vec![entry("b", text("2")), entry("a", text("1"))]);
    assert_eq!(left, right);
    assert_eq!(Payload::Log(left.clone()), Payload::Log(right));
    let copy = left.clone();
    assert_eq!(copy.fields[0].key, "a");
    assert_eq!(copy, left);
    assert_ne!(left, record(vec![entry("a", text("1"))]));
    let mut other = left.clone();
    other.target = "other".to_owned();
    assert_ne!(other, left);
    let mut other = left.clone();
    other.message = "other".to_owned();
    assert_ne!(other, left);
    let mut other = left.clone();
    other.level = LogLevel::Other(7);
    assert_ne!(other, left);
    let mut other = left.clone();
    other.timestamp = None;
    assert_ne!(other, left);
}

fn update() -> JobUpdate {
    JobUpdate {
        job_id: Some(PluginJobId {
            value: "job".to_owned(),
        }),
        state: JobState::Failed,
        progress: Some(0.5_f64.to_bits()),
        status_message: Some("status".to_owned()),
        result: Some(map(vec![entry("a", text("1")), entry("b", text("2"))])),
        error: Some(error(&[("a", "1"), ("b", "2")])),
        artifacts: vec![ArtifactDescriptor {
            artifact_id: Some(PluginArtifactId {
                value: "artifact".to_owned(),
            }),
            file_name: "result.txt".to_owned(),
            media_type: "text/plain".to_owned(),
            size_bytes: 3,
            sha256: vec![1, 2, 3],
        }],
    }
}

#[test]
fn updates_are_equal_field_by_field() {
    let base = update();
    let mut reordered = update();
    reordered.result = Some(map(vec![entry("b", text("2")), entry("a", text("1"))]));
    reordered.error = Some(error(&[("b", "2"), ("a", "1")]));
    assert_eq!(reordered, base);
    let mut zero = update();
    zero.progress = Some(0.0_f64.to_bits());
    let mut negative_zero = update();
    negative_zero.progress = Some((-0.0_f64).to_bits());
    assert_eq!(zero, negative_zero);
    let mut other = update();
    other.job_id = None;
    assert_ne!(other, base);
    let mut other = update();
    other.state = JobState::Succeeded;
    assert_ne!(other, base);
    let mut other = update();
    other.progress = None;
    assert_ne!(other, base);
    let mut other = update();
    other.status_message = Some("other".to_owned());
    assert_ne!(other, base);
    let mut other = update();
    other.result = None;
    assert_ne!(other, base);
    let mut other = update();
    other.error = None;
    assert_ne!(other, base);
    let mut other = update();
    other.artifacts[0].sha256 = vec![1, 2];
    assert_ne!(other, base);
    let mut other = update();
    other.artifacts[0].artifact_id = None;
    assert_ne!(other, base);
    let mut other = update();
    other.artifacts.clear();
    assert_ne!(other, base);
}

#[test]
fn copies_keep_the_order_in_which_they_are_written() {
    let entries = ConfigMap {
        entries: vec![entry("b", number(2.0)), entry("a", list(vec![text("1")]))],
    };
    let copy = entries.clone();
    assert_eq!(copy, entries);
    assert_eq!(copy.entries[0].key, "b");
    assert_eq!(copy.entries[1].value, list(vec![text("1")]));
    let values = ConfigList {
        values: vec![text("1"), map(Vec::new())],
    };
    assert_eq!(values.clone(), values);
    let kind = ConfigKind::MapValue(entries);
    assert_eq!(kind.clone(), kind);
    let bits = f64::NAN.to_bits();
    assert_eq!(
        match of(ConfigKind::NumberValue(bits)).clone().kind {
            Some(ConfigKind::NumberValue(copied)) => copied,
            _ => 0,
        },
        bits
    );
}
