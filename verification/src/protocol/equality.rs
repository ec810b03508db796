//! When messages are equal.
//!
//! Maps are equal if they hold equal values under the same keys, in whatever order
//! they are written. Numbers are equal as IEEE 754 has it, and an enumeration that
//! is left open is equal to its number.

use vstd::prelude::*;

use crate::protocol;
use crate::protocol::{
    Any, ArtifactDescriptor, ConfigEntry, ConfigFunctionRef, ConfigKind, ConfigList, ConfigMap,
    ConfigValue, ErrorCode, JobCancellationReason, JobUpdate, LogLevel, LogRecord, PluginJobId,
    ProtocolError, ProtocolErrorView,
};

verus! {

// ---------------------------------------------------------------------------
// Enumerations
// ---------------------------------------------------------------------------

impl PartialEq for ErrorCode {
    fn eq(&self, other: &Self) -> (result: bool) {
        match (self, other) {
            (ErrorCode::InvalidArgument, ErrorCode::InvalidArgument) => true,
            (ErrorCode::FailedPrecondition, ErrorCode::FailedPrecondition) => true,
            (ErrorCode::Unavailable, ErrorCode::Unavailable) => true,
            (ErrorCode::Internal, ErrorCode::Internal) => true,
            (ErrorCode::Cancelled, ErrorCode::Cancelled) => true,
            (ErrorCode::Other(left), ErrorCode::Other(right)) => *left == *right,
            _ => self.is_unspecified() && other.is_unspecified(),
        }
    }
}

impl vstd::std_specs::cmp::PartialEqSpecImpl for ErrorCode {
    open spec fn obeys_eq_spec() -> bool {
        true
    }

    open spec fn eq_spec(&self, other: &Self) -> bool {
        *self == *other || (self.left_open() && other.left_open())
    }
}

impl PartialEq for LogLevel {
    fn eq(&self, other: &Self) -> (result: bool) {
        match (self, other) {
            (LogLevel::Info, LogLevel::Info) => true,
            (LogLevel::Other(left), LogLevel::Other(right)) => *left == *right,
            _ => self.is_unspecified() && other.is_unspecified(),
        }
    }
}

impl vstd::std_specs::cmp::PartialEqSpecImpl for LogLevel {
    open spec fn obeys_eq_spec() -> bool {
        true
    }

    open spec fn eq_spec(&self, other: &Self) -> bool {
        *self == *other || (self.left_open() && other.left_open())
    }
}

impl PartialEq for JobCancellationReason {
    fn eq(&self, other: &Self) -> (result: bool) {
        match (self, other) {
            (JobCancellationReason::UserRequest, JobCancellationReason::UserRequest) => true,
            (
                JobCancellationReason::Other(left),
                JobCancellationReason::Other(right),
            ) => *left == *right,
            _ => self.is_unspecified() && other.is_unspecified(),
        }
    }
}

impl vstd::std_specs::cmp::PartialEqSpecImpl for JobCancellationReason {
    open spec fn obeys_eq_spec() -> bool {
        true
    }

    open spec fn eq_spec(&self, other: &Self) -> bool {
        *self == *other || (self.left_open() && other.left_open())
    }
}

// ---------------------------------------------------------------------------
// Numbers
// ---------------------------------------------------------------------------

/// The bits of a binary64 number without its sign.
pub open spec fn magnitude(bits: u64) -> u64 {
    bits % 0x8000_0000_0000_0000
}

/// Whether two binary64 numbers are equal: neither is a NaN, and they agree in
/// every bit or are both zero.
pub open spec fn equal_numbers(left: u64, right: u64) -> bool {
    &&& magnitude(left) <= 0x7ff0_0000_0000_0000
    &&& left == right || (magnitude(left) == 0 && magnitude(right) == 0)
}

/// Whether two binary64 numbers are equal.
pub fn same_number(left: u64, right: u64) -> (result: bool)
    ensures
        result == equal_numbers(left, right),
{
    let left_size: u64 = left % 0x8000_0000_0000_0000;
    let right_size: u64 = right % 0x8000_0000_0000_0000;
    left_size <= 0x7ff0_0000_0000_0000 && (left == right || (left_size == 0 && right_size == 0))
}

// ---------------------------------------------------------------------------
// Bytes and texts
// ---------------------------------------------------------------------------

/// Whether both slices hold the same bytes.
pub fn same_bytes(left: &[u8], right: &[u8]) -> (result: bool)
    ensures
        result == (left@ == right@),
{
    if left.len() != right.len() {
        return false;
    }
    for index in 0..left.len()
        invariant
            left@.len() == right@.len(),
            forall|k: int| 0 <= k < index ==> left@[k] == right@[k],
    {
        if left[index] != right[index] {
            return false;
        }
    }
    assert(left@ =~= right@);
    true
}

fn same_function(left: &ConfigFunctionRef, right: &ConfigFunctionRef) -> (result: bool)
    ensures
        result == (left.session_id@ == right.session_id@ && left.function_id@
            == right.function_id@),
{
    left.session_id == right.session_id && left.function_id == right.function_id
}

// ---------------------------------------------------------------------------
// Configuration values
// ---------------------------------------------------------------------------

/// Whether two values are equal.
pub open spec fn equal_values(left: ConfigValue, right: ConfigValue) -> bool
    decreases left, 0int,
{
    match (left.kind, right.kind) {
        (None, None) => true,
        (Some(left), Some(right)) => equal_kinds(left, right),
        _ => false,
    }
}

/// Whether two kinds are equal.
pub open spec fn equal_kinds(left: ConfigKind, right: ConfigKind) -> bool
    decreases left, 0int,
{
    match (left, right) {
        (ConfigKind::NullValue(left), ConfigKind::NullValue(right)) => left == right,
        (ConfigKind::BoolValue(left), ConfigKind::BoolValue(right)) => left == right,
        (ConfigKind::IntegerValue(left), ConfigKind::IntegerValue(right)) => left == right,
        (ConfigKind::NumberValue(left), ConfigKind::NumberValue(right)) => equal_numbers(
            left,
            right,
        ),
        (ConfigKind::StringValue(left), ConfigKind::StringValue(right)) => left@ == right@,
        (ConfigKind::BytesValue(left), ConfigKind::BytesValue(right)) => left@ == right@,
        (ConfigKind::ListValue(left), ConfigKind::ListValue(right)) => equal_lists(
            left.values@,
            right.values@,
        ),
        (ConfigKind::MapValue(left), ConfigKind::MapValue(right)) => equal_entries(
            left.entries@,
            right.entries@,
        ),
        (ConfigKind::FunctionValue(left), ConfigKind::FunctionValue(right)) => {
            left.session_id@ == right.session_id@ && left.function_id@ == right.function_id@
        },
        (ConfigKind::TimestampValue(left), ConfigKind::TimestampValue(right)) => left == right,
        (ConfigKind::DurationValue(left), ConfigKind::DurationValue(right)) => left == right,
        _ => false,
    }
}

/// Whether two lists hold equal values in the same order.
pub open spec fn equal_lists(left: Seq<ConfigValue>, right: Seq<ConfigValue>) -> bool
    decreases left, 0int,
{
    &&& left.len() == right.len()
    &&& forall|index: int|
        0 <= index < left.len() ==> equal_values(#[trigger] left[index], right[index])
}

/// Whether every entry of either map has an equal one in the other.
pub open spec fn equal_entries(left: Seq<ConfigEntry>, right: Seq<ConfigEntry>) -> bool
    decreases left, 2int,
{
    all_occur(left, right) && all_found(left, right)
}

/// Whether every entry on the left is equal to one on the right.
pub open spec fn all_occur(left: Seq<ConfigEntry>, right: Seq<ConfigEntry>) -> bool
    decreases left, 1int,
{
    forall|index: int| 0 <= index < left.len() ==> occurs_in(#[trigger] left[index], right)
}

/// Whether every entry on the right has an equal one on the left.
pub open spec fn all_found(left: Seq<ConfigEntry>, right: Seq<ConfigEntry>) -> bool
    decreases left, 1int,
{
    forall|index: int| 0 <= index < right.len() ==> has_equal(left, #[trigger] right[index])
}

/// Whether an entry is equal to one of some entries.
pub open spec fn occurs_in(entry: ConfigEntry, entries: Seq<ConfigEntry>) -> bool
    decreases entry, 0int,
{
    exists|index: int|
        0 <= index < entries.len() && entry.key@ == (#[trigger] entries[index]).key@
            && equal_values(entry.value, entries[index].value)
}

/// Whether one of some entries is equal to an entry.
pub open spec fn has_equal(entries: Seq<ConfigEntry>, entry: ConfigEntry) -> bool
    decreases entries, 0int,
{
    exists|index: int|
        0 <= index < entries.len() && (#[trigger] entries[index]).key@ == entry.key@
            && equal_values(entries[index].value, entry.value)
}

/// Whether two values are equal.
pub fn same_values(left: &ConfigValue, right: &ConfigValue) -> (result: bool)
    ensures
        result == equal_values(*left, *right),
    decreases left, 0int,
{
    match (&left.kind, &right.kind) {
        (None, None) => true,
        (Some(left), Some(right)) => same_kinds(left, right),
        _ => false,
    }
}

/// Whether two kinds are equal.
pub fn same_kinds(left: &ConfigKind, right: &ConfigKind) -> (result: bool)
    ensures
        result == equal_kinds(*left, *right),
    decreases left, 0int,
{
    match (left, right) {
        (ConfigKind::NullValue(left), ConfigKind::NullValue(right)) => *left == *right,
        (ConfigKind::BoolValue(left), ConfigKind::BoolValue(right)) => *left == *right,
        (ConfigKind::IntegerValue(left), ConfigKind::IntegerValue(right)) => *left == *right,
        (ConfigKind::NumberValue(left), ConfigKind::NumberValue(right)) => same_number(
            *left,
            *right,
        ),
        (ConfigKind::StringValue(left), ConfigKind::StringValue(right)) => *left == *right,
        (ConfigKind::BytesValue(left), ConfigKind::BytesValue(right)) => same_bytes(
            left.as_slice(),
            right.as_slice(),
        ),
        (ConfigKind::ListValue(left), ConfigKind::ListValue(right)) => same_lists(
            &left.values,
            &right.values,
        ),
        (ConfigKind::MapValue(left), ConfigKind::MapValue(right)) => same_entries(
            &left.entries,
            &right.entries,
        ),
        (ConfigKind::FunctionValue(left), ConfigKind::FunctionValue(right)) => same_function(
            left,
            right,
        ),
        (ConfigKind::TimestampValue(left), ConfigKind::TimestampValue(right)) => *left == *right,
        (ConfigKind::DurationValue(left), ConfigKind::DurationValue(right)) => *left == *right,
        _ => false,
    }
}

/// Whether two lists hold equal values in the same order.
pub fn same_lists(left: &Vec<ConfigValue>, right: &Vec<ConfigValue>) -> (result: bool)
    ensures
        result == equal_lists(left@, right@),
    decreases left, 0int,
{
    if left.len() != right.len() {
        return false;
    }
    for index in 0..left.len()
        invariant
            left@.len() == right@.len(),
            forall|k: int| 0 <= k < index ==> equal_values(#[trigger] left@[k], right@[k]),
    {
        assert(decreases_to!(left => left@[index as int]));
        if !same_values(&left[index], &right[index]) {
            assert(!equal_values(left@[index as int], right@[index as int]));
            return false;
        }
    }
    true
}

/// Whether every entry of either map has an equal one in the other.
pub fn same_entries(left: &Vec<ConfigEntry>, right: &Vec<ConfigEntry>) -> (result: bool)
    ensures
        result == equal_entries(left@, right@),
    decreases left, 1int,
{
    for index in 0..left.len()
        invariant
            forall|k: int| 0 <= k < index ==> occurs_in(#[trigger] left@[k], right@),
    {
        assert(decreases_to!(left => left@[index as int]));
        if !find(&left[index], right) {
            assert(!occurs_in(left@[index as int], right@));
            return false;
        }
    }
    for index in 0..right.len()
        invariant
            forall|k: int| 0 <= k < index ==> has_equal(left@, #[trigger] right@[k]),
    {
        if !find_among(left, &right[index]) {
            assert(!has_equal(left@, right@[index as int]));
            return false;
        }
    }
    true
}

/// Whether an entry is equal to one of some entries.
fn find(entry: &ConfigEntry, entries: &Vec<ConfigEntry>) -> (result: bool)
    ensures
        result == occurs_in(*entry, entries@),
    decreases entry, 0int,
{
    for index in 0..entries.len()
        invariant
            forall|k: int|
                0 <= k < index ==> !(entry.key@ == (#[trigger] entries@[k]).key@ && equal_values(
                    entry.value,
                    entries@[k].value,
                )),
    {
        if entry.key == entries[index].key && same_values(&entry.value, &entries[index].value) {
            assert(entry.key@ == entries@[index as int].key@);
            return true;
        }
    }
    false
}

/// Whether one of some entries is equal to an entry.
fn find_among(entries: &Vec<ConfigEntry>, entry: &ConfigEntry) -> (result: bool)
    ensures
        result == has_equal(entries@, *entry),
    decreases entries, 0int,
{
    for index in 0..entries.len()
        invariant
            forall|k: int|
                0 <= k < index ==> !((#[trigger] entries@[k]).key@ == entry.key@ && equal_values(
                    entries@[k].value,
                    entry.value,
                )),
    {
        assert(decreases_to!(entries => entries@[index as int].value));
        if entries[index].key == entry.key && same_values(&entries[index].value, &entry.value) {
            assert(entries@[index as int].key@ == entry.key@);
            return true;
        }
    }
    false
}

impl PartialEq for ConfigValue {
    fn eq(&self, other: &Self) -> (result: bool) {
        same_values(self, other)
    }
}

impl vstd::std_specs::cmp::PartialEqSpecImpl for ConfigValue {
    open spec fn obeys_eq_spec() -> bool {
        true
    }

    open spec fn eq_spec(&self, other: &Self) -> bool {
        equal_values(*self, *other)
    }
}

impl PartialEq for ConfigKind {
    fn eq(&self, other: &Self) -> (result: bool) {
        same_kinds(self, other)
    }
}

impl vstd::std_specs::cmp::PartialEqSpecImpl for ConfigKind {
    open spec fn obeys_eq_spec() -> bool {
        true
    }

    open spec fn eq_spec(&self, other: &Self) -> bool {
        equal_kinds(*self, *other)
    }
}

impl PartialEq for ConfigList {
    fn eq(&self, other: &Self) -> (result: bool) {
        same_lists(&self.values, &other.values)
    }
}

impl vstd::std_specs::cmp::PartialEqSpecImpl for ConfigList {
    open spec fn obeys_eq_spec() -> bool {
        true
    }

    open spec fn eq_spec(&self, other: &Self) -> bool {
        equal_lists(self.values@, other.values@)
    }
}

impl PartialEq for ConfigMap {
    fn eq(&self, other: &Self) -> (result: bool) {
        same_entries(&self.entries, &other.entries)
    }
}

impl vstd::std_specs::cmp::PartialEqSpecImpl for ConfigMap {
    open spec fn obeys_eq_spec() -> bool {
        true
    }

    open spec fn eq_spec(&self, other: &Self) -> bool {
        equal_entries(self.entries@, other.entries@)
    }
}

impl PartialEq for ConfigEntry {
    fn eq(&self, other: &Self) -> (result: bool) {
        self.key == other.key && same_values(&self.value, &other.value)
    }
}

impl vstd::std_specs::cmp::PartialEqSpecImpl for ConfigEntry {
    open spec fn obeys_eq_spec() -> bool {
        true
    }

    open spec fn eq_spec(&self, other: &Self) -> bool {
        self.key@ == other.key@ && equal_values(self.value, other.value)
    }
}

// ---------------------------------------------------------------------------
// Errors
// ---------------------------------------------------------------------------

/// Whether every pair of either map stands in the other.
pub open spec fn equal_metadata(
    left: Seq<(Seq<char>, Seq<char>)>,
    right: Seq<(Seq<char>, Seq<char>)>,
) -> bool {
    &&& forall|index: int| 0 <= index < left.len() ==> right.contains(#[trigger] left[index])
    &&& forall|index: int| 0 <= index < right.len() ==> left.contains(#[trigger] right[index])
}

/// Whether two structured errors are equal.
pub open spec fn equal_errors(left: ProtocolErrorView, right: ProtocolErrorView) -> bool {
    &&& left.code == right.code || (left.code.left_open() && right.code.left_open())
    &&& left.message == right.message
    &&& left.retryable == right.retryable
    &&& equal_metadata(left.metadata, right.metadata)
    &&& left.details == right.details
}

/// The texts of some pairs.
pub open spec fn pairs(entries: Seq<(String, String)>) -> Seq<(Seq<char>, Seq<char>)> {
    entries.map_values(|entry: (String, String)| (entry.0@, entry.1@))
}

fn has_pair(entries: &Vec<(String, String)>, entry: &(String, String)) -> (result: bool)
    ensures
        result == pairs(entries@).contains((entry.0@, entry.1@)),
{
    for index in 0..entries.len()
        invariant
            forall|k: int|
                0 <= k < index ==> #[trigger] pairs(entries@)[k] != (entry.0@, entry.1@),
    {
        if entries[index].0 == entry.0 && entries[index].1 == entry.1 {
            assert(pairs(entries@)[index as int] == (entry.0@, entry.1@));
            return true;
        }
    }
    false
}

/// Whether every pair of either map stands in the other.
pub fn same_metadata(left: &Vec<(String, String)>, right: &Vec<(String, String)>) -> (result: bool)
    ensures
        result == equal_metadata(pairs(left@), pairs(right@)),
{
    for index in 0..left.len()
        invariant
            forall|k: int|
                0 <= k < index ==> pairs(right@).contains(#[trigger] pairs(left@)[k]),
    {
        if !has_pair(right, &left[index]) {
            assert(!pairs(right@).contains(pairs(left@)[index as int]));
            return false;
        }
    }
    for index in 0..right.len()
        invariant
            forall|k: int|
                0 <= k < index ==> pairs(left@).contains(#[trigger] pairs(right@)[k]),
    {
        if !has_pair(left, &right[index]) {
            assert(!pairs(left@).contains(pairs(right@)[index as int]));
            return false;
        }
    }
    true
}

fn same_details(left: &Vec<Any>, right: &Vec<Any>) -> (result: bool)
    ensures
        result == (left@.map_values(|detail: Any| detail@) == right@.map_values(
            |detail: Any| detail@,
        )),
{
    let ghost left_views = left@.map_values(|detail: Any| detail@);
    let ghost right_views = right@.map_values(|detail: Any| detail@);
    if left.len() != right.len() {
        assert(left_views.len() != right_views.len());
        return false;
    }
    for index in 0..left.len()
        invariant
            left@.len() == right@.len(),
            left_views == left@.map_values(|detail: Any| detail@),
            right_views == right@.map_values(|detail: Any| detail@),
            forall|k: int| 0 <= k < index ==> left_views[k] == right_views[k],
    {
        if left[index].type_url != right[index].type_url || !same_bytes(
            left[index].value.as_slice(),
            right[index].value.as_slice(),
        ) {
            assert(left_views[index as int] != right_views[index as int]);
            return false;
        }
    }
    assert(left_views =~= right_views);
    true
}

impl PartialEq for ProtocolError {
    fn eq(&self, other: &Self) -> (result: bool) {
        proof {
            assert(pairs(self.metadata@) =~= self@.metadata);
            assert(pairs(other.metadata@) =~= other@.metadata);
        }
        self.code == other.code && self.message == other.message && self.retryable
            == other.retryable && same_metadata(&self.metadata, &other.metadata) && same_details(
            &self.details,
            &other.details,
        )
    }
}

impl vstd::std_specs::cmp::PartialEqSpecImpl for ProtocolError {
    open spec fn obeys_eq_spec() -> bool {
        true
    }

    open spec fn eq_spec(&self, other: &Self) -> bool {
        equal_errors(self@, other@)
    }
}

// ---------------------------------------------------------------------------
// Records and updates
// ---------------------------------------------------------------------------

impl PartialEq for LogRecord {
    fn eq(&self, other: &Self) -> (result: bool) {
        self.timestamp == other.timestamp && self.level == other.level && self.target
            == other.target && self.message == other.message && same_entries(
            &self.fields,
            &other.fields,
        )
    }
}

impl vstd::std_specs::cmp::PartialEqSpecImpl for LogRecord {
    open spec fn obeys_eq_spec() -> bool {
        true
    }

    open spec fn eq_spec(&self, other: &Self) -> bool {
        &&& self.timestamp == other.timestamp
        &&& self.level == other.level || (self.level.left_open() && other.level.left_open())
        &&& self.target@ == other.target@
        &&& self.message@ == other.message@
        &&& equal_entries(self.fields@, other.fields@)
    }
}

/// The characters of an optional job ID.
pub open spec fn job_id_text(id: Option<PluginJobId>) -> Option<Seq<char>> {
    match id {
        Some(id) => Some(id.value@),
        None => None,
    }
}

/// Whether two updates are equal.
pub open spec fn equal_updates(left: JobUpdate, right: JobUpdate) -> bool {
    &&& job_id_text(left.job_id) == job_id_text(right.job_id)
    &&& left.state == right.state
    &&& match (left.progress, right.progress) {
        (None, None) => true,
        (Some(left), Some(right)) => equal_numbers(left, right),
        _ => false,
    }
    &&& protocol::optional_text(left.status_message) == protocol::optional_text(
        right.status_message,
    )
    &&& match (left.result, right.result) {
        (None, None) => true,
        (Some(left), Some(right)) => equal_values(left, right),
        _ => false,
    }
    &&& match (left.error, right.error) {
        (None, None) => true,
        (Some(left), Some(right)) => equal_errors(left@, right@),
        _ => false,
    }
    &&& left.artifacts@.len() == right.artifacts@.len()
    &&& forall|index: int|
        0 <= index < left.artifacts@.len() ==> (#[trigger] left.artifacts@[index])@
            == right.artifacts@[index]@
}

fn same_descriptor(left: &ArtifactDescriptor, right: &ArtifactDescriptor) -> (result: bool)
    ensures
        result == (left@ == right@),
{
    let same_id: bool = match (&left.artifact_id, &right.artifact_id) {
        (Some(left), Some(right)) => left.value == right.value,
        (None, None) => true,
        _ => false,
    };
    same_id && left.file_name == right.file_name && left.media_type == right.media_type
        && left.size_bytes == right.size_bytes && same_bytes(
        left.sha256.as_slice(),
        right.sha256.as_slice(),
    )
}

fn same_descriptors(left: &Vec<ArtifactDescriptor>, right: &Vec<ArtifactDescriptor>) -> (result:
    bool)
    ensures
        result == (left@.len() == right@.len() && forall|index: int|
            0 <= index < left@.len() ==> (#[trigger] left@[index])@ == right@[index]@),
{
    if left.len() != right.len() {
        return false;
    }
    for index in 0..left.len()
        invariant
            left@.len() == right@.len(),
            forall|k: int| 0 <= k < index ==> (#[trigger] left@[k])@ == right@[k]@,
    {
        if !same_descriptor(&left[index], &right[index]) {
            assert(left@[index as int]@ != right@[index as int]@);
            return false;
        }
    }
    true
}

impl PartialEq for JobUpdate {
    fn eq(&self, other: &Self) -> (result: bool) {
        let same_id: bool = match (&self.job_id, &other.job_id) {
            (Some(left), Some(right)) => left.value == right.value,
            (None, None) => true,
            _ => false,
        };
        let same_progress: bool = match (self.progress, other.progress) {
            (Some(left), Some(right)) => same_number(left, right),
            (None, None) => true,
            _ => false,
        };
        let same_status: bool = match (&self.status_message, &other.status_message) {
            (Some(left), Some(right)) => *left == *right,
            (None, None) => true,
            _ => false,
        };
        let same_result: bool = match (&self.result, &other.result) {
            (Some(left), Some(right)) => same_values(left, right),
            (None, None) => true,
            _ => false,
        };
        let same_error: bool = match (&self.error, &other.error) {
            (Some(left), Some(right)) => *left == *right,
            (None, None) => true,
            _ => false,
        };
        same_id && self.state == other.state && same_progress && same_status && same_result
            && same_error && same_descriptors(&self.artifacts, &other.artifacts)
    }
}

impl vstd::std_specs::cmp::PartialEqSpecImpl for JobUpdate {
    open spec fn obeys_eq_spec() -> bool {
        true
    }

    open spec fn eq_spec(&self, other: &Self) -> bool {
        equal_updates(*self, *other)
    }
}

// ---------------------------------------------------------------------------
// Laws
// ---------------------------------------------------------------------------

/// The value under `key`, where there is one.
pub open spec fn metadata_value(metadata: Seq<(Seq<char>, Seq<char>)>, key: Seq<char>) -> Option<
    Seq<char>,
>
    decreases metadata.len(),
{
    if metadata.len() == 0 {
        None
    } else if metadata.last().0 == key {
        Some(metadata.last().1)
    } else {
        metadata_value(metadata.drop_last(), key)
    }
}

/// The metadata of two errors whose keys are distinct are equal exactly if they
/// hold the same value, or none, under every key.
pub proof fn law_equal_metadata_agree_under_every_key(
    left: ProtocolErrorView,
    right: ProtocolErrorView,
)
    requires
        left.keys_distinct(),
        right.keys_distinct(),
    ensures
        equal_metadata(left.metadata, right.metadata) <==> forall|key: Seq<char>|
            #[trigger] metadata_value(left.metadata, key) == metadata_value(right.metadata, key),
{
    let l = left.metadata;
    let r = right.metadata;
    if equal_metadata(l, r) {
        assert forall|key: Seq<char>| #[trigger] metadata_value(l, key) == metadata_value(
            r,
            key,
        ) by {
            lemma_metadata_value(left, key);
            lemma_metadata_value(right, key);
        }
    }
    if forall|key: Seq<char>| #[trigger] metadata_value(l, key) == metadata_value(r, key) {
        assert forall|index: int| 0 <= index < l.len() implies r.contains(#[trigger] l[index]) by {
            assert(l[index] == (l[index].0, l[index].1));
            assert(l.contains((l[index].0, l[index].1)));
            lemma_metadata_value(left, l[index].0);
            lemma_metadata_value(right, l[index].0);
        }
        assert forall|index: int| 0 <= index < r.len() implies l.contains(#[trigger] r[index]) by {
            assert(r[index] == (r[index].0, r[index].1));
            assert(r.contains((r[index].0, r[index].1)));
            lemma_metadata_value(left, r[index].0);
            lemma_metadata_value(right, r[index].0);
        }
    }
}

/// Under distinct keys, what is found under a key is what stands there.
proof fn lemma_metadata_value(error: ProtocolErrorView, key: Seq<char>)
    requires
        error.keys_distinct(),
    ensures
        match metadata_value(error.metadata, key) {
            Some(value) => error.metadata.contains((key, value)),
            None => forall|value: Seq<char>| !#[trigger] error.metadata.contains((key, value)),
        },
        forall|value: Seq<char>| #[trigger]
            error.metadata.contains((key, value)) ==> metadata_value(error.metadata, key) == Some(
                value,
            ),
    decreases error.metadata.len(),
{
    let metadata = error.metadata;
    if metadata.len() > 0 {
        let earlier = ProtocolErrorView { metadata: metadata.drop_last(), ..error };
        assert(earlier.keys_distinct()) by {
            assert forall|left: int, right: int|
                0 <= left < right < earlier.metadata.len() implies (
            #[trigger] earlier.metadata[left]).0 != (#[trigger] earlier.metadata[right]).0 by {
                assert(metadata[left].0 != metadata[right].0);
            }
        }
        lemma_metadata_value(earlier, key);
        let last = metadata.len() - 1;
        assert forall|value: Seq<char>| #[trigger] metadata.contains((key, value)) implies
            metadata_value(metadata, key) == Some(value) by {
            let index = choose|index: int|
                0 <= index < metadata.len() && metadata[index] == (key, value);
            if index < last {
                assert(metadata[index].0 != metadata[last].0);
                assert(earlier.metadata[index] == (key, value));
                assert(earlier.metadata.contains((key, value)));
            }
        }
        match metadata_value(metadata, key) {
            Some(value) => {
                if metadata.last().0 == key {
                    assert(metadata[last] == (key, value));
                } else {
                    let index = choose|index: int|
                        0 <= index < earlier.metadata.len() && earlier.metadata[index] == (
                            key,
                            value,
                        );
                    assert(metadata[index] == (key, value));
                }
            },
            None => {},
        }
    }
}

/// Entries that stand in another order are equal, as long as every value is equal
/// to itself, which only a NaN in it prevents.
pub proof fn law_entry_order_does_not_matter_to_equality(
    left: Seq<ConfigEntry>,
    right: Seq<ConfigEntry>,
)
    requires
        forall|entry: ConfigEntry| #[trigger] left.contains(entry) <==> right.contains(entry),
        forall|index: int|
            0 <= index < left.len() ==> equal_values(
                (#[trigger] left[index]).value,
                left[index].value,
            ),
    ensures
        equal_entries(left, right),
{
    assert forall|index: int| 0 <= index < left.len() implies occurs_in(
        #[trigger] left[index],
        right,
    ) by {
        assert(left.contains(left[index]));
        let other = choose|other: int| 0 <= other < right.len() && right[other] == left[index];
        assert(left[index].key@ == right[other].key@);
    }
    assert forall|index: int| 0 <= index < right.len() implies has_equal(
        left,
        #[trigger] right[index],
    ) by {
        assert(right.contains(right[index]));
        assert(left.contains(right[index]));
        let other = choose|other: int| 0 <= other < left.len() && left[other] == right[index];
        assert(left[other].key@ == right[index].key@);
    }
}

/// Whether one of the entries has this key.
pub open spec fn holds_key(entries: Seq<ConfigEntry>, key: Seq<char>) -> bool {
    exists|index: int| 0 <= index < entries.len() && (#[trigger] entries[index]).key@ == key
}

/// Whether two maps hold equal values wherever both hold a key.
pub open spec fn agree(left: Seq<ConfigEntry>, right: Seq<ConfigEntry>) -> bool {
    forall|l: int, r: int|
        0 <= l < left.len() && 0 <= r < right.len() && (#[trigger] left[l]).key@ == (
        #[trigger] right[r]).key@ ==> equal_values(left[l].value, right[r].value)
}

/// Entries with distinct keys are equal exactly if they have the same keys, and
/// equal values under each.
pub proof fn law_equal_entries_agree_under_every_key(
    left: Seq<ConfigEntry>,
    right: Seq<ConfigEntry>,
)
    requires
        protocol::entries_distinct(left),
        protocol::entries_distinct(right),
    ensures
        equal_entries(left, right) <==> {
            &&& forall|key: Seq<char>| #[trigger] holds_key(left, key) == holds_key(right, key)
            &&& agree(left, right)
        },
{
    if equal_entries(left, right) {
        assert forall|key: Seq<char>| #[trigger] holds_key(left, key) == holds_key(right, key) by {
            if holds_key(left, key) {
                let l = choose|l: int| 0 <= l < left.len() && (#[trigger] left[l]).key@ == key;
                assert(occurs_in(left[l], right));
            }
            if holds_key(right, key) {
                let r = choose|r: int| 0 <= r < right.len() && (#[trigger] right[r]).key@ == key;
                assert(has_equal(left, right[r]));
            }
        }
        assert forall|l: int, r: int|
            0 <= l < left.len() && 0 <= r < right.len() && (#[trigger] left[l]).key@ == (
            #[trigger] right[r]).key@ implies equal_values(left[l].value, right[r].value) by {
            assert(occurs_in(left[l], right));
            let other = choose|other: int|
                0 <= other < right.len() && left[l].key@ == (#[trigger] right[other]).key@
                    && equal_values(left[l].value, right[other].value);
            assert(right[other].key@ == right[r].key@);
        }
    }
    if (forall|key: Seq<char>| #[trigger] holds_key(left, key) == holds_key(right, key)) && agree(
        left,
        right,
    ) {
        assert forall|index: int| 0 <= index < left.len() implies occurs_in(
            #[trigger] left[index],
            right,
        ) by {
            let key = left[index].key@;
            assert(holds_key(left, key));
            let other = choose|other: int|
                0 <= other < right.len() && (#[trigger] right[other]).key@ == key;
            assert(left[index].key@ == right[other].key@);
        }
        assert forall|index: int| 0 <= index < right.len() implies has_equal(
            left,
            #[trigger] right[index],
        ) by {
            let key = right[index].key@;
            assert(holds_key(right, key));
            assert(holds_key(left, key));
            let other = choose|other: int|
                0 <= other < left.len() && (#[trigger] left[other]).key@ == key;
            assert(left[other].key@ == right[index].key@);
        }
    }
}

/// Entries with the same keys and equal values in the same order occur in each
/// other.
proof fn lemma_ordered_entries_occur(left: Seq<ConfigEntry>, right: Seq<ConfigEntry>)
    requires
        left.len() == right.len(),
        forall|index: int|
            0 <= index < left.len() ==> {
                &&& (#[trigger] left[index]).key@ == right[index].key@
                &&& equal_values(left[index].value, right[index].value)
            },
    ensures
        all_occur(left, right),
{
    assert forall|index: int| 0 <= index < left.len() implies occurs_in(
        #[trigger] left[index],
        right,
    ) by {
        assert(left[index].key@ == right[index].key@);
    }
}

proof fn lemma_ordered_entries_found(left: Seq<ConfigEntry>, right: Seq<ConfigEntry>)
    requires
        left.len() == right.len(),
        forall|index: int|
            0 <= index < left.len() ==> {
                &&& (#[trigger] left[index]).key@ == right[index].key@
                &&& equal_values(left[index].value, right[index].value)
            },
    ensures
        all_found(left, right),
{
    assert forall|index: int| 0 <= index < right.len() implies has_equal(
        left,
        #[trigger] right[index],
    ) by {
        assert(left[index].key@ == right[index].key@);
    }
}

/// A copy of a value is equal to it, unless a NaN keeps the value from being equal
/// to itself.
pub proof fn law_copies_are_equal(value: ConfigValue, copy: ConfigValue)
    requires
        protocol::keys_distinct(value),
        equal_values(value, value),
        protocol::same_value(value, copy),
    ensures
        equal_values(value, copy),
    decreases value,
{
    match (value.kind, copy.kind) {
        (Some(ConfigKind::ListValue(list)), Some(ConfigKind::ListValue(copied))) => {
            assert forall|index: int| 0 <= index < list.values@.len() implies equal_values(
                #[trigger] list.values@[index],
                copied.values@[index],
            ) by {
                law_copies_are_equal(list.values@[index], copied.values@[index]);
            }
            assert(equal_lists(list.values@, copied.values@));
        },
        (Some(ConfigKind::MapValue(map)), Some(ConfigKind::MapValue(copied))) => {
            let left = map.entries@;
            let right = copied.entries@;
            assert(agree(left, left)) by {
                law_equal_entries_agree_under_every_key(left, left);
            }
            assert forall|index: int| 0 <= index < left.len() implies {
                &&& (#[trigger] left[index]).key@ == right[index].key@
                &&& equal_values(left[index].value, right[index].value)
            } by {
                law_copies_are_equal(left[index].value, right[index].value);
            }
            lemma_ordered_entries_occur(left, right);
            lemma_ordered_entries_found(left, right);
        },
        _ => {},
    }
}

/// Whether equality is symmetric of the values of some entries.
spec fn values_flip(left: Seq<ConfigEntry>, right: Seq<ConfigEntry>) -> bool {
    forall|l: int, r: int|
        0 <= l < left.len() && 0 <= r < right.len() && equal_values(
            (#[trigger] left[l]).value,
            (#[trigger] right[r]).value,
        ) ==> equal_values(right[r].value, left[l].value)
}

proof fn lemma_found_entries_occur(left: Seq<ConfigEntry>, right: Seq<ConfigEntry>)
    requires
        all_found(left, right),
        values_flip(left, right),
    ensures
        all_occur(right, left),
{
    assert forall|index: int| 0 <= index < right.len() implies occurs_in(
        #[trigger] right[index],
        left,
    ) by {
        assert(has_equal(left, right[index]));
        let other = choose|other: int|
            0 <= other < left.len() && (#[trigger] left[other]).key@ == right[index].key@
                && equal_values(left[other].value, right[index].value);
        assert(right[index].key@ == left[other].key@);
    }
}

proof fn lemma_occurring_entries_are_found(left: Seq<ConfigEntry>, right: Seq<ConfigEntry>)
    requires
        all_occur(left, right),
        values_flip(left, right),
    ensures
        all_found(right, left),
{
    assert forall|index: int| 0 <= index < left.len() implies has_equal(
        right,
        #[trigger] left[index],
    ) by {
        assert(occurs_in(left[index], right));
        let other = choose|other: int|
            0 <= other < right.len() && left[index].key@ == (#[trigger] right[other]).key@
                && equal_values(left[index].value, right[other].value);
        assert(right[other].key@ == left[index].key@);
    }
}

/// If a value is equal to another, the other is equal to it.
pub proof fn law_equality_is_symmetric(left: ConfigValue, right: ConfigValue)
    requires
        equal_values(left, right),
    ensures
        equal_values(right, left),
    decreases left,
{
    match (left.kind, right.kind) {
        (Some(ConfigKind::ListValue(l)), Some(ConfigKind::ListValue(r))) => {
            assert forall|index: int| 0 <= index < r.values@.len() implies equal_values(
                #[trigger] r.values@[index],
                l.values@[index],
            ) by {
                law_equality_is_symmetric(l.values@[index], r.values@[index]);
            }
            assert(equal_lists(r.values@, l.values@));
        },
        (Some(ConfigKind::MapValue(left_map)), Some(ConfigKind::MapValue(right_map))) => {
            let left = left_map.entries@;
            let right = right_map.entries@;
            assert forall|l: int, r: int|
                0 <= l < left.len() && 0 <= r < right.len() && equal_values(
                    (#[trigger] left[l]).value,
                    (#[trigger] right[r]).value,
                ) implies equal_values(right[r].value, left[l].value) by {
                law_equality_is_symmetric(left[l].value, right[r].value);
            }
            assert(equal_entries(left, right));
            lemma_found_entries_occur(left, right);
            lemma_occurring_entries_are_found(left, right);
            assert(equal_entries(right, left));
        },
        _ => {},
    }
}

/// Numbers are equal exactly if neither is a NaN and they differ in nothing but the
/// sign of a zero.
pub proof fn law_only_zeros_differ_and_are_equal(left: u64, right: u64, result: bool)
    requires
        call_ensures(same_number, (left, right), result),
    ensures
        left % 0x8000_0000_0000_0000 > 0x7ff0_0000_0000_0000 ==> !result,
        right % 0x8000_0000_0000_0000 > 0x7ff0_0000_0000_0000 ==> !result,
        left == right && left % 0x8000_0000_0000_0000 <= 0x7ff0_0000_0000_0000 ==> result,
        left != right && result ==> {
            &&& left == 0 && right == 0x8000_0000_0000_0000 || left == 0x8000_0000_0000_0000
                && right == 0
        },
        left == 0 && right == 0x8000_0000_0000_0000 ==> result,
{
    if result && left != right {
        assert(left % 0x8000_0000_0000_0000 == 0 && right % 0x8000_0000_0000_0000 == 0 && left
            != right ==> (left == 0 && right == 0x8000_0000_0000_0000) || (left
            == 0x8000_0000_0000_0000 && right == 0)) by (bit_vector);
    }
}

/// Values that hold no others are equal exactly if they are copies of each other,
/// unless they are numbers.
pub proof fn law_plain_values_are_equal_if_copied(left: ConfigKind, right: ConfigKind)
    requires
        !(left is ListValue) && !(left is MapValue) && !(left is NumberValue),
    ensures
        equal_kinds(left, right) <==> protocol::same_kind(left, right),
        equal_kinds(left, right) ==> match (left, right) {
            (ConfigKind::NullValue(left), ConfigKind::NullValue(right)) => left == right,
            (ConfigKind::BoolValue(left), ConfigKind::BoolValue(right)) => left == right,
            (ConfigKind::IntegerValue(left), ConfigKind::IntegerValue(right)) => left == right,
            (ConfigKind::StringValue(left), ConfigKind::StringValue(right)) => left@ == right@,
            (ConfigKind::BytesValue(left), ConfigKind::BytesValue(right)) => left@ == right@,
            (ConfigKind::FunctionValue(left), ConfigKind::FunctionValue(right)) => {
                left.session_id@ == right.session_id@ && left.function_id@ == right.function_id@
            },
            (ConfigKind::TimestampValue(left), ConfigKind::TimestampValue(right)) => left == right,
            (ConfigKind::DurationValue(left), ConfigKind::DurationValue(right)) => left == right,
            _ => false,
        },
{
}

/// Lists are equal exactly if they are equally long and equal place by place.
pub proof fn law_lists_are_equal_place_by_place(left: Seq<ConfigValue>, right: Seq<ConfigValue>)
    ensures
        equal_lists(left, right) <==> left.len() == right.len() && forall|index: int|
            0 <= index < left.len() ==> equal_values(#[trigger] left[index], right[index]),
{
}

/// Structured errors are equal exactly if they agree in code, text, details and
/// whether they can be retried, and each pair of metadata of either stands in the
/// other. A code that is left open agrees with its number.
pub proof fn law_equal_errors_agree_in_every_field(left: ProtocolErrorView, right: ProtocolErrorView)
    ensures
        equal_errors(left, right) <==> {
            &&& match (left.code, right.code) {
                (ErrorCode::Unspecified, ErrorCode::Other(number)) => number == 0,
                (ErrorCode::Other(number), ErrorCode::Unspecified) => number == 0,
                (left, right) => left == right,
            }
            &&& left.message == right.message
            &&& left.retryable == right.retryable
            &&& left.details == right.details
            &&& left.metadata.to_set() =~= right.metadata.to_set()
        },
        equal_errors(left, right) == equal_errors(right, left),
        equal_errors(left, left),
{
    let l = left.metadata;
    let r = right.metadata;
    if l.to_set() =~= r.to_set() {
        assert forall|index: int| 0 <= index < l.len() implies r.contains(#[trigger] l[index]) by {
            assert(l.to_set().contains(l[index]));
        }
        assert forall|index: int| 0 <= index < r.len() implies l.contains(#[trigger] r[index]) by {
            assert(r.to_set().contains(r[index]));
        }
    }
    if equal_metadata(l, r) {
        assert forall|pair: (Seq<char>, Seq<char>)| #[trigger] l.to_set().contains(pair)
            == r.to_set().contains(pair) by {
            if l.contains(pair) {
                let index = choose|index: int| 0 <= index < l.len() && l[index] == pair;
                assert(r.contains(l[index]));
            }
            if r.contains(pair) {
                let index = choose|index: int| 0 <= index < r.len() && r[index] == pair;
                assert(l.contains(r[index]));
            }
        }
        assert(l.to_set() =~= r.to_set());
    }
}

} // verus!
