//! The messages that the runtime exchanges with its host.
//!
//! These are plain values. Encoding them for the wire is the transport's work;
//! an enumeration that may grow on the host's side keeps the numbers it has no
//! name for.

pub mod equality;

use vstd::prelude::*;

verus! {

// ---------------------------------------------------------------------------
// Well-known types
// ---------------------------------------------------------------------------

/// A point in time, counted from the Unix epoch.
#[derive(Clone, Copy, Debug, PartialEq, Eq, Structural)]
pub struct Timestamp {
    pub seconds: i64,
    pub nanos: i32,
}

/// A signed span of time.
#[derive(Clone, Copy, Debug, PartialEq, Eq, Structural)]
pub struct Duration {
    pub seconds: i64,
    pub nanos: i32,
}

/// A message of some other protocol, by its type and its encoded bytes.
#[derive(Debug, PartialEq, Eq)]
pub struct Any {
    pub type_url: String,
    pub value: Vec<u8>,
}

/// What an [`Any`] holds.
pub struct AnyView {
    pub type_url: Seq<char>,
    pub value: Seq<u8>,
}

impl View for Any {
    type V = AnyView;

    open spec fn view(&self) -> AnyView {
        AnyView { type_url: self.type_url@, value: self.value@ }
    }
}

impl Clone for Any {
    fn clone(&self) -> (result: Self)
        ensures
            result@ == self@,
    {
        let value: Vec<u8> = self.value.clone();
        assert(value@ =~= self.value@);
        Any { type_url: self.type_url.clone(), value }
    }
}

// ---------------------------------------------------------------------------
// Identities
// ---------------------------------------------------------------------------

#[derive(Clone, Debug, PartialEq, Eq)]
pub struct NodeId {
    pub value: String,
}

#[derive(Clone, Debug, PartialEq, Eq)]
pub struct NodeName {
    pub value: String,
}

#[derive(Clone, Debug, PartialEq, Eq)]
pub struct NodeIdentity {
    pub node_id: Option<NodeId>,
    pub node_name: Option<NodeName>,
}

#[derive(Clone, Debug, PartialEq, Eq)]
pub struct PluginId {
    pub value: String,
}

#[derive(Clone, Debug, PartialEq, Eq)]
pub struct PluginName {
    pub value: String,
}

#[derive(Clone, Debug, PartialEq, Eq)]
pub struct PluginJobId {
    pub value: String,
}

#[derive(Debug, PartialEq, Eq)]
pub struct PluginArtifactId {
    pub value: String,
}

impl Clone for PluginArtifactId {
    fn clone(&self) -> (result: Self)
        ensures
            result == *self,
    {
        PluginArtifactId { value: self.value.clone() }
    }
}

// ---------------------------------------------------------------------------
// Errors and traces
// ---------------------------------------------------------------------------

/// The code of a structured error.
#[derive(Clone, Copy, Debug, Eq)]
pub enum ErrorCode {
    Unspecified,
    InvalidArgument,
    FailedPrecondition,
    Unavailable,
    Internal,
    Cancelled,
    /// A code that this runtime has no name for.
    Other(i32),
}

impl ErrorCode {
    /// Whether the code is left open. Zero is the number of the open code, also
    /// where it comes without its name.
    pub open spec fn left_open(self) -> bool {
        self == ErrorCode::Unspecified || self == ErrorCode::Other(0)
    }

    /// Whether the code is left open.
    pub fn is_unspecified(&self) -> (result: bool)
        ensures
            result == self.left_open(),
    {
        match self {
            ErrorCode::Unspecified => true,
            ErrorCode::Other(number) => *number == 0,
            _ => false,
        }
    }
}

/// A structured error. The metadata are values by key, in no particular order.
#[derive(Debug, Eq)]
pub struct ProtocolError {
    pub code: ErrorCode,
    pub message: String,
    pub retryable: bool,
    pub metadata: Vec<(String, String)>,
    pub details: Vec<Any>,
}

/// What a [`ProtocolError`] holds.
pub struct ProtocolErrorView {
    pub code: ErrorCode,
    pub message: Seq<char>,
    pub retryable: bool,
    pub metadata: Seq<(Seq<char>, Seq<char>)>,
    pub details: Seq<AnyView>,
}

impl ProtocolErrorView {
    /// Whether no key of the metadata occurs twice.
    pub open spec fn keys_distinct(self) -> bool {
        forall|left: int, right: int|
            0 <= left < right < self.metadata.len() ==> (#[trigger] self.metadata[left]).0 != (
            #[trigger] self.metadata[right]).0
    }
}

impl View for ProtocolError {
    type V = ProtocolErrorView;

    open spec fn view(&self) -> ProtocolErrorView {
        ProtocolErrorView {
            code: self.code,
            message: self.message@,
            retryable: self.retryable,
            metadata: self.metadata@.map_values(|entry: (String, String)| (entry.0@, entry.1@)),
            details: self.details@.map_values(|detail: Any| detail@),
        }
    }
}

impl Clone for ProtocolError {
    fn clone(&self) -> (result: Self)
        ensures
            result@ == self@,
            result@.keys_distinct() == self@.keys_distinct(),
    {
        let mut metadata: Vec<(String, String)> = Vec::new();
        for index in 0..self.metadata.len()
            invariant
                metadata@ == self.metadata@.take(index as int),
        {
            let entry: &(String, String) = &self.metadata[index];
            metadata.push((entry.0.clone(), entry.1.clone()));
            assert(metadata@ =~= self.metadata@.take(index + 1));
        }
        assert(metadata@ =~= self.metadata@);
        let mut details: Vec<Any> = Vec::new();
        for index in 0..self.details.len()
            invariant
                details@.len() == index,
                forall|k: int| 0 <= k < index ==> (#[trigger] details@[k])@ == self.details@[k]@,
        {
            details.push(self.details[index].clone());
        }
        assert(details@.map_values(|detail: Any| detail@) =~= self.details@.map_values(
            |detail: Any| detail@,
        ));
        ProtocolError {
            code: self.code,
            message: self.message.clone(),
            retryable: self.retryable,
            metadata,
            details,
        }
    }
}

impl Default for ProtocolError {
    fn default() -> (result: Self)
        ensures
            result@ == (ProtocolErrorView {
                code: ErrorCode::Unspecified,
                message: Seq::empty(),
                retryable: false,
                metadata: Seq::empty(),
                details: Seq::empty(),
            }),
    {
        let result: ProtocolError = ProtocolError {
            code: ErrorCode::Unspecified,
            message: String::new(),
            retryable: false,
            metadata: Vec::new(),
            details: Vec::new(),
        };
        assert(result@.metadata =~= Seq::empty());
        assert(result@.details =~= Seq::empty());
        result
    }
}

/// The causal position of a message.
#[derive(Debug, PartialEq, Eq)]
pub struct TraceContext {
    pub correlation_id: String,
    pub parent_call_id: Option<u64>,
    pub call_depth: u32,
    pub causal_depth: u32,
    pub task_id: Option<String>,
    pub task_group_id: Option<String>,
}

/// What a [`TraceContext`] holds.
pub struct TraceView {
    pub correlation_id: Seq<char>,
    pub parent_call_id: Option<u64>,
    pub call_depth: u32,
    pub causal_depth: u32,
    pub task_id: Option<Seq<char>>,
    pub task_group_id: Option<Seq<char>>,
}

/// The characters of an optional string.
pub open spec fn optional_text(value: Option<String>) -> Option<Seq<char>> {
    match value {
        Some(text) => Some(text@),
        None => None,
    }
}

fn clone_optional(value: &Option<String>) -> (result: Option<String>)
    ensures
        result == *value,
{
    match value {
        Some(text) => Some(text.clone()),
        None => None,
    }
}

fn same_optional(left: &Option<String>, right: &Option<String>) -> (result: bool)
    ensures
        result == (optional_text(*left) == optional_text(*right)),
{
    match (left, right) {
        (Some(left), Some(right)) => *left == *right,
        (None, None) => true,
        _ => false,
    }
}

impl View for TraceContext {
    type V = TraceView;

    open spec fn view(&self) -> TraceView {
        TraceView {
            correlation_id: self.correlation_id@,
            parent_call_id: self.parent_call_id,
            call_depth: self.call_depth,
            causal_depth: self.causal_depth,
            task_id: optional_text(self.task_id),
            task_group_id: optional_text(self.task_group_id),
        }
    }
}

impl Clone for TraceContext {
    fn clone(&self) -> (result: Self)
        ensures
            result == *self,
    {
        TraceContext {
            correlation_id: self.correlation_id.clone(),
            parent_call_id: self.parent_call_id,
            call_depth: self.call_depth,
            causal_depth: self.causal_depth,
            task_id: clone_optional(&self.task_id),
            task_group_id: clone_optional(&self.task_group_id),
        }
    }
}

impl TraceContext {
    /// Whether both traces agree in every field.
    pub fn same(&self, other: &TraceContext) -> (result: bool)
        ensures
            result == (self@ == other@),
    {
        self.correlation_id == other.correlation_id && self.parent_call_id
            == other.parent_call_id && self.call_depth == other.call_depth && self.causal_depth
            == other.causal_depth && same_optional(&self.task_id, &other.task_id)
            && same_optional(&self.task_group_id, &other.task_group_id)
    }
}

// ---------------------------------------------------------------------------
// Configuration values
// ---------------------------------------------------------------------------

/// A function of the live configuration, owned by one plugin session.
#[derive(Clone, Debug, PartialEq, Eq)]
pub struct ConfigFunctionRef {
    pub session_id: String,
    pub function_id: String,
}

/// One entry of a map value.
#[derive(Debug)]
pub struct ConfigEntry {
    pub key: String,
    pub value: ConfigValue,
}

/// A structured value.
#[derive(Debug)]
pub struct ConfigValue {
    pub kind: Option<ConfigKind>,
}

/// The kinds of structured values.
#[derive(Debug)]
pub enum ConfigKind {
    NullValue(i32),
    BoolValue(bool),
    IntegerValue(i64),
    /// A binary64 number, by the bits of its IEEE 754 interchange format.
    NumberValue(u64),
    StringValue(String),
    BytesValue(Vec<u8>),
    ListValue(ConfigList),
    MapValue(ConfigMap),
    FunctionValue(ConfigFunctionRef),
    TimestampValue(Timestamp),
    DurationValue(Duration),
}

/// An ordered list of values.
#[derive(Debug)]
pub struct ConfigList {
    pub values: Vec<ConfigValue>,
}

/// Values by key, in no particular order.
#[derive(Debug)]
pub struct ConfigMap {
    pub entries: Vec<ConfigEntry>,
}

/// Whether no key of some entries occurs twice.
pub open spec fn entries_distinct(entries: Seq<ConfigEntry>) -> bool {
    forall|left: int, right: int|
        0 <= left < right < entries.len() ==> (#[trigger] entries[left]).key@ != (
        #[trigger] entries[right]).key@
}

/// Whether no map at any level of a value holds a key twice.
pub open spec fn keys_distinct(value: ConfigValue) -> bool
    decreases value,
{
    match value.kind {
        Some(ConfigKind::ListValue(list)) => forall|index: int|
            0 <= index < list.values@.len() ==> keys_distinct(#[trigger] list.values@[index]),
        Some(ConfigKind::MapValue(map)) => {
            &&& entries_distinct(map.entries@)
            &&& forall|index: int|
                0 <= index < map.entries@.len() ==> keys_distinct(
                    (#[trigger] map.entries@[index]).value,
                )
        },
        _ => true,
    }
}

/// Whether no key of some entries, or of a map in them, occurs twice.
pub open spec fn entries_well_keyed(entries: Seq<ConfigEntry>) -> bool {
    &&& entries_distinct(entries)
    &&& forall|index: int|
        0 <= index < entries.len() ==> keys_distinct((#[trigger] entries[index]).value)
}

impl ConfigMap {
    /// Whether no key of the map, or of a map in it, occurs twice.
    pub open spec fn keys_distinct(self) -> bool {
        entries_well_keyed(self.entries@)
    }
}

/// Whether the second value is a copy of the first: the same data at every level,
/// written in the same order.
pub open spec fn same_value(left: ConfigValue, right: ConfigValue) -> bool
    decreases left,
{
    match (left.kind, right.kind) {
        (None, None) => true,
        (Some(left), Some(right)) => same_kind(left, right),
        _ => false,
    }
}

/// Whether the second kind is a copy of the first.
pub open spec fn same_kind(left: ConfigKind, right: ConfigKind) -> bool
    decreases left,
{
    match (left, right) {
        (ConfigKind::NullValue(left), ConfigKind::NullValue(right)) => left == right,
        (ConfigKind::BoolValue(left), ConfigKind::BoolValue(right)) => left == right,
        (ConfigKind::IntegerValue(left), ConfigKind::IntegerValue(right)) => left == right,
        (ConfigKind::NumberValue(left), ConfigKind::NumberValue(right)) => left == right,
        (ConfigKind::StringValue(left), ConfigKind::StringValue(right)) => left@ == right@,
        (ConfigKind::BytesValue(left), ConfigKind::BytesValue(right)) => left@ == right@,
        (ConfigKind::ListValue(left), ConfigKind::ListValue(right)) => {
            &&& left.values@.len() == right.values@.len()
            &&& forall|index: int|
                0 <= index < left.values@.len() ==> same_value(
                    #[trigger] left.values@[index],
                    right.values@[index],
                )
        },
        (ConfigKind::MapValue(left), ConfigKind::MapValue(right)) => {
            &&& left.entries@.len() == right.entries@.len()
            &&& forall|index: int|
                0 <= index < left.entries@.len() ==> {
                    &&& (#[trigger] left.entries@[index]).key@ == right.entries@[index].key@
                    &&& same_value(left.entries@[index].value, right.entries@[index].value)
                }
        },
        (ConfigKind::FunctionValue(left), ConfigKind::FunctionValue(right)) => {
            left.session_id@ == right.session_id@ && left.function_id@ == right.function_id@
        },
        (ConfigKind::TimestampValue(left), ConfigKind::TimestampValue(right)) => left == right,
        (ConfigKind::DurationValue(left), ConfigKind::DurationValue(right)) => left == right,
        _ => false,
    }
}

/// Whether the second entries are copies of the first, in the same order.
pub open spec fn copied_entries(left: Seq<ConfigEntry>, right: Seq<ConfigEntry>) -> bool {
    &&& left.len() == right.len()
    &&& forall|index: int|
        0 <= index < left.len() ==> {
            &&& (#[trigger] left[index]).key@ == right[index].key@
            &&& same_value(left[index].value, right[index].value)
        }
}

fn clone_value(value: &ConfigValue) -> (result: ConfigValue)
    ensures
        same_value(*value, result),
    decreases value,
{
    ConfigValue {
        kind: match &value.kind {
            Some(kind) => Some(clone_kind(kind)),
            None => None,
        },
    }
}

fn clone_kind(kind: &ConfigKind) -> (result: ConfigKind)
    ensures
        same_kind(*kind, result),
    decreases kind,
{
    match kind {
        ConfigKind::NullValue(value) => ConfigKind::NullValue(*value),
        ConfigKind::BoolValue(value) => ConfigKind::BoolValue(*value),
        ConfigKind::IntegerValue(value) => ConfigKind::IntegerValue(*value),
        ConfigKind::NumberValue(value) => ConfigKind::NumberValue(*value),
        ConfigKind::StringValue(value) => ConfigKind::StringValue(value.clone()),
        ConfigKind::BytesValue(value) => {
            let bytes: Vec<u8> = value.clone();
            assert(bytes@ =~= value@);
            ConfigKind::BytesValue(bytes)
        },
        ConfigKind::ListValue(list) => {
            let mut values: Vec<ConfigValue> = Vec::new();
            for index in 0..list.values.len()
                invariant
                    kind matches ConfigKind::ListValue(whole) && whole == *list,
                    values@.len() == index,
                    forall|k: int|
                        0 <= k < index ==> same_value(#[trigger] list.values@[k], values@[k]),
            {
                assert(decreases_to!(*kind => list.values@[index as int]));
                values.push(clone_value(&list.values[index]));
            }
            ConfigKind::ListValue(ConfigList { values })
        },
        ConfigKind::MapValue(map) => ConfigKind::MapValue(
            ConfigMap { entries: clone_entries(&map.entries) },
        ),
        ConfigKind::FunctionValue(function) => ConfigKind::FunctionValue(
            ConfigFunctionRef {
                session_id: function.session_id.clone(),
                function_id: function.function_id.clone(),
            },
        ),
        ConfigKind::TimestampValue(value) => ConfigKind::TimestampValue(*value),
        ConfigKind::DurationValue(value) => ConfigKind::DurationValue(*value),
    }
}

fn clone_entries(entries: &Vec<ConfigEntry>) -> (result: Vec<ConfigEntry>)
    ensures
        copied_entries(entries@, result@),
    decreases entries,
{
    let mut result: Vec<ConfigEntry> = Vec::new();
    for index in 0..entries.len()
        invariant
            result@.len() == index,
            forall|k: int|
                0 <= k < index ==> {
                    &&& (#[trigger] entries@[k]).key@ == result@[k].key@
                    &&& same_value(entries@[k].value, result@[k].value)
                },
    {
        assert(decreases_to!(entries => entries@[index as int].value));
        let entry: &ConfigEntry = &entries[index];
        result.push(ConfigEntry { key: entry.key.clone(), value: clone_value(&entry.value) });
    }
    result
}

impl Clone for ConfigValue {
    fn clone(&self) -> (result: Self)
        ensures
            same_value(*self, result),
            keys_distinct(*self) ==> keys_distinct(result),
    {
        let result: ConfigValue = clone_value(self);
        proof {
            lemma_copies_keep_keys(*self, result);
        }
        result
    }
}

impl Clone for ConfigKind {
    fn clone(&self) -> (result: Self)
        ensures
            same_kind(*self, result),
            keys_distinct(ConfigValue { kind: Some(*self) }) ==> keys_distinct(
                ConfigValue { kind: Some(result) },
            ),
    {
        let result: ConfigKind = clone_kind(self);
        proof {
            lemma_copies_keep_keys(
                ConfigValue { kind: Some(*self) },
                ConfigValue { kind: Some(result) },
            );
        }
        result
    }
}

impl Clone for ConfigList {
    fn clone(&self) -> (result: Self)
        ensures
            same_kind(ConfigKind::ListValue(*self), ConfigKind::ListValue(result)),
            forall|index: int|
                0 <= index < self.values@.len() ==> (keys_distinct(#[trigger] self.values@[index])
                    ==> keys_distinct(result.values@[index])),
    {
        let mut values: Vec<ConfigValue> = Vec::new();
        for index in 0..self.values.len()
            invariant
                values@.len() == index,
                forall|k: int|
                    0 <= k < index ==> {
                        &&& same_value(#[trigger] self.values@[k], values@[k])
                        &&& keys_distinct(self.values@[k]) ==> keys_distinct(values@[k])
                    },
        {
            values.push(self.values[index].clone());
        }
        ConfigList { values }
    }
}

impl Clone for ConfigMap {
    fn clone(&self) -> (result: Self)
        ensures
            copied_entries(self.entries@, result.entries@),
            self.keys_distinct() ==> result.keys_distinct(),
    {
        let entries: Vec<ConfigEntry> = clone_entries(&self.entries);
        proof {
            lemma_copied_entries_keep_keys(self.entries@, entries@);
        }
        ConfigMap { entries }
    }
}

impl Clone for ConfigEntry {
    fn clone(&self) -> (result: Self)
        ensures
            self.key@ == result.key@,
            same_value(self.value, result.value),
            keys_distinct(self.value) ==> keys_distinct(result.value),
    {
        ConfigEntry { key: self.key.clone(), value: self.value.clone() }
    }
}

proof fn lemma_copies_keep_keys(value: ConfigValue, copy: ConfigValue)
    requires
        same_value(value, copy),
    ensures
        keys_distinct(value) ==> keys_distinct(copy),
    decreases value,
{
    if keys_distinct(value) {
        match (value.kind, copy.kind) {
            (Some(ConfigKind::ListValue(list)), Some(ConfigKind::ListValue(copied))) => {
                assert forall|index: int| 0 <= index < copied.values@.len() implies keys_distinct(
                    #[trigger] copied.values@[index],
                ) by {
                    assert(same_value(list.values@[index], copied.values@[index]));
                    lemma_copies_keep_keys(list.values@[index], copied.values@[index]);
                }
            },
            (Some(ConfigKind::MapValue(map)), Some(ConfigKind::MapValue(copied))) => {
                lemma_copied_entries_keep_keys(map.entries@, copied.entries@);
            },
            _ => {},
        }
    }
}

proof fn lemma_copied_entries_keep_keys(entries: Seq<ConfigEntry>, copies: Seq<ConfigEntry>)
    requires
        copied_entries(entries, copies),
    ensures
        entries_well_keyed(entries) ==> entries_well_keyed(copies),
    decreases entries,
{
    if entries_well_keyed(entries) {
        assert forall|left: int, right: int| 0 <= left < right < copies.len() implies (
        #[trigger] copies[left]).key@ != (#[trigger] copies[right]).key@ by {
            assert(entries[left].key@ == copies[left].key@);
            assert(entries[right].key@ == copies[right].key@);
        }
        assert forall|index: int| 0 <= index < copies.len() implies keys_distinct(
            (#[trigger] copies[index]).value,
        ) by {
            assert(entries[index].key@ == copies[index].key@);
            lemma_copies_keep_keys(entries[index].value, copies[index].value);
        }
    }
}

/// One step of a configuration path.
#[derive(Clone, Debug, PartialEq, Eq)]
pub enum ConfigPathStep {
    Key(String),
    Index(u64),
}

#[derive(Clone, Debug, PartialEq, Eq)]
pub struct ConfigPathSegment {
    pub kind: Option<ConfigPathStep>,
}

#[derive(Clone, Debug, PartialEq, Eq)]
pub struct ConfigPath {
    pub segments: Vec<ConfigPathSegment>,
}

// ---------------------------------------------------------------------------
// Host calls
// ---------------------------------------------------------------------------

/// A message of the document service in its encoded form. The runtime carries
/// it between the action and the host without looking inside.
#[derive(Clone, Debug, Default, PartialEq, Eq)]
pub struct DocumentMessage {
    pub encoded: Vec<u8>,
}

#[derive(Clone, Debug, PartialEq, Eq)]
pub struct GetConfigRequest {
    pub path: Option<ConfigPath>,
}

#[derive(Clone, Debug, PartialEq)]
pub struct GetConfigResponse {
    pub value: Option<ConfigValue>,
}

#[derive(Clone, Debug, PartialEq)]
pub struct InvokeConfigFunctionRequest {
    pub function: Option<ConfigFunctionRef>,
    pub arguments: Vec<ConfigValue>,
}

#[derive(Clone, Debug, PartialEq)]
pub struct InvokeConfigFunctionResponse {
    pub results: Vec<ConfigValue>,
}

/// What an action asks of the host.
#[derive(Clone, Debug, PartialEq)]
pub enum HostCall {
    ReadDocument(DocumentMessage),
    ListDirectory(DocumentMessage),
    GetDirectoryTree(DocumentMessage),
    ReadCrdt(DocumentMessage),
    CommitDocuments(DocumentMessage),
    GetConfig(GetConfigRequest),
    InvokeConfigFunction(InvokeConfigFunctionRequest),
}

#[derive(Clone, Debug, PartialEq)]
pub struct HostCallRequest {
    pub call: Option<HostCall>,
}

/// What the host answers.
#[derive(Clone, Debug, PartialEq)]
pub enum HostCallResult {
    ReadDocument(DocumentMessage),
    ListDirectory(DocumentMessage),
    GetDirectoryTree(DocumentMessage),
    ReadCrdt(DocumentMessage),
    CommitDocuments(DocumentMessage),
    GetConfig(GetConfigResponse),
    InvokeConfigFunction(InvokeConfigFunctionResponse),
    Error(ProtocolError),
}

#[derive(Clone, Debug, PartialEq)]
pub struct HostCallResponse {
    pub result: Option<HostCallResult>,
}

// ---------------------------------------------------------------------------
// Logs
// ---------------------------------------------------------------------------

#[derive(Clone, Copy, Debug, Eq)]
pub enum LogLevel {
    Unspecified,
    Info,
    /// A level that the runtime treats no differently from [`LogLevel::Info`].
    Other(i32),
}

impl LogLevel {
    /// Whether the level is left open. Zero is the number of the open level, also
    /// where it comes without its name.
    pub open spec fn left_open(self) -> bool {
        self == LogLevel::Unspecified || self == LogLevel::Other(0)
    }

    /// Whether the level is left open.
    pub fn is_unspecified(&self) -> (result: bool)
        ensures
            result == self.left_open(),
    {
        match self {
            LogLevel::Unspecified => true,
            LogLevel::Other(number) => *number == 0,
            _ => false,
        }
    }
}

#[derive(Debug)]
pub struct LogRecord {
    pub timestamp: Option<Timestamp>,
    pub level: LogLevel,
    pub target: String,
    pub message: String,
    pub fields: Vec<ConfigEntry>,
}

impl LogRecord {
    /// Whether no key of the fields, or of a map in them, occurs twice.
    pub open spec fn keys_distinct(self) -> bool {
        entries_well_keyed(self.fields@)
    }
}

impl Clone for LogRecord {
    fn clone(&self) -> (result: Self)
        ensures
            result.timestamp == self.timestamp,
            result.level == self.level,
            result.target@ == self.target@,
            result.message@ == self.message@,
            copied_entries(self.fields@, result.fields@),
            self.keys_distinct() ==> result.keys_distinct(),
    {
        let fields: Vec<ConfigEntry> = clone_entries(&self.fields);
        proof {
            lemma_copied_entries_keep_keys(self.fields@, fields@);
        }
        LogRecord {
            timestamp: self.timestamp,
            level: self.level,
            target: self.target.clone(),
            message: self.message.clone(),
            fields,
        }
    }
}

// ---------------------------------------------------------------------------
// Artifacts
// ---------------------------------------------------------------------------

/// What an action declares of an artifact before it transfers the bytes.
#[derive(Debug, PartialEq, Eq)]
pub struct ArtifactDescriptor {
    pub artifact_id: Option<PluginArtifactId>,
    pub file_name: String,
    pub media_type: String,
    pub size_bytes: u64,
    pub sha256: Vec<u8>,
}

/// What an [`ArtifactDescriptor`] holds.
pub struct ArtifactView {
    pub artifact_id: Option<Seq<char>>,
    pub file_name: Seq<char>,
    pub media_type: Seq<char>,
    pub size_bytes: u64,
    pub sha256: Seq<u8>,
}

/// The characters of an optional artifact ID.
pub open spec fn artifact_id_text(id: Option<PluginArtifactId>) -> Option<Seq<char>> {
    match id {
        Some(id) => Some(id.value@),
        None => None,
    }
}

impl View for ArtifactDescriptor {
    type V = ArtifactView;

    open spec fn view(&self) -> ArtifactView {
        ArtifactView {
            artifact_id: artifact_id_text(self.artifact_id),
            file_name: self.file_name@,
            media_type: self.media_type@,
            size_bytes: self.size_bytes,
            sha256: self.sha256@,
        }
    }
}

impl Clone for ArtifactDescriptor {
    fn clone(&self) -> (result: Self)
        ensures
            result@ == self@,
    {
        let sha256: Vec<u8> = self.sha256.clone();
        assert(sha256@ =~= self.sha256@);
        ArtifactDescriptor {
            artifact_id: match &self.artifact_id {
                Some(id) => Some(id.clone()),
                None => None,
            },
            file_name: self.file_name.clone(),
            media_type: self.media_type.clone(),
            size_bytes: self.size_bytes,
            sha256,
        }
    }
}

#[derive(Clone, Debug, PartialEq, Eq)]
pub struct ArtifactTransferStart {
    pub job_id: Option<PluginJobId>,
    pub artifact: Option<ArtifactDescriptor>,
    pub chunk_count: u32,
}

#[derive(Clone, Debug, PartialEq, Eq)]
pub struct ArtifactTransferAccepted {
    pub artifact_id: Option<PluginArtifactId>,
}

#[derive(Clone, Debug, PartialEq, Eq)]
pub struct ArtifactTransferChunk {
    pub artifact_id: Option<PluginArtifactId>,
    pub chunk_index: u32,
    pub data: Vec<u8>,
}

#[derive(Clone, Debug, PartialEq, Eq)]
pub struct ArtifactTransferComplete {
    pub artifact_id: Option<PluginArtifactId>,
}

#[derive(Clone, Debug, PartialEq, Eq)]
pub struct ArtifactStored {
    pub artifact_id: Option<PluginArtifactId>,
}

// ---------------------------------------------------------------------------
// Jobs
// ---------------------------------------------------------------------------

#[derive(Clone, Debug, PartialEq, Eq)]
pub struct ActionInvocation {
    pub action: String,
    pub arguments: Vec<String>,
}

#[derive(Clone, Debug, PartialEq, Eq)]
pub enum Invocation {
    Action(ActionInvocation),
    /// A kind of job that this runtime does not run, by its encoded form.
    Other(Vec<u8>),
}

#[derive(Clone, Debug, PartialEq, Eq)]
pub struct StartJobRequest {
    pub job_id: Option<PluginJobId>,
    pub deadline: Option<Timestamp>,
    pub invocation: Option<Invocation>,
}

#[derive(Clone, Copy, Debug, Eq)]
pub enum JobCancellationReason {
    Unspecified,
    UserRequest,
    /// A reason that this runtime has no name for.
    Other(i32),
}

impl JobCancellationReason {
    /// Whether the reason is left open. Zero is the number of the open reason, also
    /// where it comes without its name.
    pub open spec fn left_open(self) -> bool {
        self == JobCancellationReason::Unspecified || self == JobCancellationReason::Other(0)
    }

    /// Whether the reason is left open.
    pub fn is_unspecified(&self) -> (result: bool)
        ensures
            result == self.left_open(),
    {
        match self {
            JobCancellationReason::Unspecified => true,
            JobCancellationReason::Other(number) => *number == 0,
            _ => false,
        }
    }
}

#[derive(Clone, Debug, PartialEq, Eq)]
pub struct CancelJobRequest {
    pub job_id: Option<PluginJobId>,
    pub reason: JobCancellationReason,
}

#[derive(Clone, Debug, PartialEq, Eq)]
pub struct JobAccepted {
    pub job_id: Option<PluginJobId>,
}

#[derive(Clone, Debug, PartialEq, Eq)]
pub struct CancelJobAcknowledged {
    pub job_id: Option<PluginJobId>,
}

#[derive(Clone, Copy, Debug, PartialEq, Eq, Structural)]
pub enum JobState {
    Succeeded,
    Failed,
}

/// The state of a job as the host records it.
#[derive(Clone, Debug)]
pub struct JobUpdate {
    pub job_id: Option<PluginJobId>,
    pub state: JobState,
    /// The finished fraction, by the bits of its binary64 format.
    pub progress: Option<u64>,
    pub status_message: Option<String>,
    pub result: Option<ConfigValue>,
    pub error: Option<ProtocolError>,
    pub artifacts: Vec<ArtifactDescriptor>,
}

// ---------------------------------------------------------------------------
// Session
// ---------------------------------------------------------------------------

#[derive(Clone, Debug, PartialEq, Eq)]
pub struct HostHello {
    pub node: Option<NodeIdentity>,
    pub maximum_call_depth: u32,
    pub maximum_causal_depth: u32,
    pub maximum_artifact_chunk_bytes: u64,
    pub plugin_id: Option<PluginId>,
    pub plugin_name: Option<PluginName>,
}

#[derive(Clone, Debug, PartialEq, Eq)]
pub struct ActionDescriptor {
    pub name: String,
    pub description: String,
}

#[derive(Clone, Debug, PartialEq, Eq)]
pub struct PluginHello {
    pub plugin_id: Option<PluginId>,
    pub plugin_name: Option<PluginName>,
    pub actions: Vec<ActionDescriptor>,
    pub plugin_version: String,
}

#[derive(Clone, Copy, Debug, PartialEq, Eq, Structural)]
pub struct SessionReady {}

#[derive(Clone, Copy, Debug, PartialEq, Eq, Structural)]
pub struct Heartbeat {
    pub nonce: u64,
}

#[derive(Clone, Debug, PartialEq, Eq)]
pub struct ShutdownRequest {
    pub reason: String,
    pub grace_period_deadline: Option<Timestamp>,
}

#[derive(Clone, Copy, Debug, PartialEq, Eq, Structural)]
pub struct ShutdownAcknowledged {}

/// What an envelope carries.
#[derive(Clone, Debug, PartialEq)]
pub enum Payload {
    HostHello(HostHello),
    PluginHello(PluginHello),
    Ready(SessionReady),
    StartJob(StartJobRequest),
    JobAccepted(JobAccepted),
    JobUpdate(JobUpdate),
    CancelJob(CancelJobRequest),
    CancelJobAcknowledged(CancelJobAcknowledged),
    HostCall(HostCallRequest),
    HostResult(HostCallResponse),
    Log(LogRecord),
    ArtifactStart(ArtifactTransferStart),
    ArtifactAccepted(ArtifactTransferAccepted),
    ArtifactChunk(ArtifactTransferChunk),
    ArtifactComplete(ArtifactTransferComplete),
    ArtifactStored(ArtifactStored),
    Heartbeat(Heartbeat),
    Shutdown(ShutdownRequest),
    ShutdownAcknowledged(ShutdownAcknowledged),
    ProtocolError(ProtocolError),
}

/// One message of the ordered session stream.
#[derive(Clone, Debug, PartialEq)]
pub struct PluginEnvelope {
    pub message_id: u64,
    pub reply_to: Option<u64>,
    pub session_id: String,
    pub plugin_instance_id: String,
    pub trace: Option<TraceContext>,
    pub payload: Option<Payload>,
}

/// A message that has not been numbered and addressed yet.
#[derive(Clone, Debug, PartialEq)]
pub struct Outgoing {
    pub reply_to: Option<u64>,
    pub trace: TraceContext,
    pub payload: Payload,
}

} // verus!
