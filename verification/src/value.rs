//! Which structured values may be stored, logged or exchanged in a session.

use vstd::prelude::*;

use crate::error::{ErrorView, SdkError};
use crate::protocol;
use crate::protocol::{
    ConfigEntry, ConfigFunctionRef, ConfigKind, ConfigValue, Duration, Timestamp,
};
use crate::text;

verus! {

// Depth is zero-based. Map values consume the tightest share of the default
// decode-recursion budget of the wire because each level adds an entry message,
// so 33 is the common safe limit for every value shape.
pub const MAXIMUM_VALUE_DEPTH: usize = 33;

/// The number of the only null value.
pub const NULL_VALUE: i32 = 0;

pub const PROTOBUF_TIMESTAMP_MIN_SECONDS: i64 = -62_135_596_800;

pub const PROTOBUF_TIMESTAMP_MAX_SECONDS: i64 = 253_402_300_799;

pub const PROTOBUF_DURATION_MAX_SECONDS: i64 = 315_576_000_000;

pub const PROTOBUF_MAX_NANOSECONDS: i32 = 999_999_999;

/// The years 1 to 9999, with nanoseconds that count forward.
pub open spec fn timestamp_in_domain(value: Timestamp) -> bool {
    &&& PROTOBUF_TIMESTAMP_MIN_SECONDS <= value.seconds <= PROTOBUF_TIMESTAMP_MAX_SECONDS
    &&& 0 <= value.nanos <= PROTOBUF_MAX_NANOSECONDS
}

/// About ten thousand years either way, with both fields of one sign.
pub open spec fn duration_in_domain(value: Duration) -> bool {
    &&& -PROTOBUF_DURATION_MAX_SECONDS <= value.seconds <= PROTOBUF_DURATION_MAX_SECONDS
    &&& -PROTOBUF_MAX_NANOSECONDS <= value.nanos <= PROTOBUF_MAX_NANOSECONDS
    &&& value.seconds > 0 ==> value.nanos >= 0
    &&& value.seconds < 0 ==> value.nanos <= 0
}

/// Whether the exponent field of a binary64 number marks neither an infinity
/// nor a NaN.
pub open spec fn finite_number(bits: u64) -> bool {
    bits / 0x10_0000_0000_0000 % 0x800 != 0x7ff
}

/// What is wrong with a function handle. Outside a session no handle may stand.
pub open spec fn function_error(
    function: ConfigFunctionRef,
    session: Option<Seq<char>>,
) -> Option<ErrorView> {
    match session {
        None => Some(
            ErrorView::InvalidArgument(
                "session-scoped configuration functions cannot be stored or logged"@,
            ),
        ),
        Some(session) => if function.session_id@ != session {
            Some(
                ErrorView::Protocol("configuration function belongs to another plugin session"@),
            )
        } else if function.function_id@.len() == 0 {
            Some(ErrorView::InvalidArgument("configuration function ID must not be empty"@))
        } else {
            None
        },
    }
}

/// What is wrong with a value that stands at `depth`: the first fault met when
/// it is walked from the outside in, lists and maps in the order they are
/// written.
pub open spec fn value_error(
    value: ConfigValue,
    depth: nat,
    session: Option<Seq<char>>,
) -> Option<ErrorView>
    decreases value,
{
    if depth > MAXIMUM_VALUE_DEPTH {
        Some(ErrorView::InvalidArgument("ConfigValue nesting exceeds the supported limit"@))
    } else {
        match value.kind {
            None => Some(ErrorView::InvalidArgument("ConfigValue kind is required"@)),
            Some(ConfigKind::ListValue(list)) => first_value_error(
                list.values@,
                depth + 1,
                session,
            ),
            Some(ConfigKind::MapValue(map)) => first_entry_error(
                map.entries@,
                depth + 1,
                session,
            ),
            Some(leaf) => leaf_error(leaf, session),
        }
    }
}

/// What is wrong with a value that holds no other.
pub open spec fn leaf_error(leaf: ConfigKind, session: Option<Seq<char>>) -> Option<ErrorView> {
    match leaf {
        ConfigKind::NullValue(value) if value != NULL_VALUE => Some(
            ErrorView::InvalidArgument("ConfigValue contains an unknown null value"@),
        ),
        ConfigKind::NumberValue(bits) if !finite_number(bits) => Some(
            ErrorView::InvalidArgument("ConfigValue numbers must be finite"@),
        ),
        ConfigKind::FunctionValue(function) => function_error(function, session),
        ConfigKind::TimestampValue(value) if !timestamp_in_domain(value) => Some(
            ErrorView::InvalidArgument(
                "ConfigValue timestamp is outside the protobuf Timestamp domain"@,
            ),
        ),
        ConfigKind::DurationValue(value) if !duration_in_domain(value) => Some(
            ErrorView::InvalidArgument(
                "ConfigValue duration is outside the protobuf Duration domain"@,
            ),
        ),
        _ => None,
    }
}

/// The first fault of a list.
pub open spec fn first_value_error(
    values: Seq<ConfigValue>,
    depth: nat,
    session: Option<Seq<char>>,
) -> Option<ErrorView>
    decreases values,
{
    if values.len() == 0 {
        None
    } else {
        match value_error(values[0], depth, session) {
            Some(error) => Some(error),
            None => first_value_error(values.subrange(1, values.len() as int), depth, session),
        }
    }
}

/// The first fault of a map.
pub open spec fn first_entry_error(
    entries: Seq<ConfigEntry>,
    depth: nat,
    session: Option<Seq<char>>,
) -> Option<ErrorView>
    decreases entries,
{
    if entries.len() == 0 {
        None
    } else {
        match value_error(entries[0].value, depth, session) {
            Some(error) => Some(error),
            None => first_entry_error(entries.subrange(1, entries.len() as int), depth, session),
        }
    }
}

/// Whether `value` lies in the protobuf Timestamp domain.
pub fn valid_timestamp(value: &Timestamp) -> (result: bool)
    ensures
        result == timestamp_in_domain(*value),
{
    PROTOBUF_TIMESTAMP_MIN_SECONDS <= value.seconds && value.seconds
        <= PROTOBUF_TIMESTAMP_MAX_SECONDS && 0 <= value.nanos && value.nanos
        <= PROTOBUF_MAX_NANOSECONDS
}

/// Whether `value` lies in the protobuf Duration domain.
pub fn valid_duration(value: &Duration) -> (result: bool)
    ensures
        result == duration_in_domain(*value),
{
    -PROTOBUF_DURATION_MAX_SECONDS <= value.seconds && value.seconds
        <= PROTOBUF_DURATION_MAX_SECONDS && -PROTOBUF_MAX_NANOSECONDS <= value.nanos && value.nanos
        <= PROTOBUF_MAX_NANOSECONDS && !(value.seconds > 0 && value.nanos < 0) && !(value.seconds
        < 0 && value.nanos > 0)
}

/// An argument error with this message.
pub fn invalid(message: &str) -> (result: SdkError)
    ensures
        result@ == ErrorView::InvalidArgument(message@),
{
    SdkError::invalid_argument(message)
}

/// The characters of an optional session ID.
pub open spec fn session_text(session: Option<&str>) -> Option<Seq<char>> {
    match session {
        Some(session) => Some(session@),
        None => None,
    }
}

fn validate_function(function: &ConfigFunctionRef, session: Option<&str>) -> (result: Result<
    (),
    SdkError,
>)
    ensures
        match result {
            Ok(()) => function_error(*function, session_text(session)) is None,
            Err(error) => function_error(*function, session_text(session)) == Some(error@),
        },
{
    match session {
        Some(session_id) => if !text::same(function.session_id.as_str(), session_id) {
            Err(SdkError::protocol("configuration function belongs to another plugin session"))
        } else if function.function_id.as_str().is_empty() {
            Err(invalid("configuration function ID must not be empty"))
        } else {
            Ok(())
        },
        None => Err(invalid("session-scoped configuration functions cannot be stored or logged")),
    }
}

fn validate_leaf(leaf: &ConfigKind, session: Option<&str>) -> (result: Result<(), SdkError>)
    ensures
        match result {
            Ok(()) => leaf_error(*leaf, session_text(session)) is None,
            Err(error) => leaf_error(*leaf, session_text(session)) == Some(error@),
        },
{
    match leaf {
        ConfigKind::NullValue(value) => if *value == NULL_VALUE {
            Ok(())
        } else {
            Err(invalid("ConfigValue contains an unknown null value"))
        },
        ConfigKind::NumberValue(bits) => if *bits / 0x10_0000_0000_0000 % 0x800 != 0x7ff {
            Ok(())
        } else {
            Err(invalid("ConfigValue numbers must be finite"))
        },
        ConfigKind::FunctionValue(function) => validate_function(function, session),
        ConfigKind::TimestampValue(value) => if valid_timestamp(value) {
            Ok(())
        } else {
            Err(invalid("ConfigValue timestamp is outside the protobuf Timestamp domain"))
        },
        ConfigKind::DurationValue(value) => if valid_duration(value) {
            Ok(())
        } else {
            Err(invalid("ConfigValue duration is outside the protobuf Duration domain"))
        },
        _ => Ok(()),
    }
}

/// Validates a value that stands at `depth`. A function handle must belong to
/// `session`; without a session none may stand.
pub fn validate(value: &ConfigValue, depth: usize, session: Option<&str>) -> (result: Result<
    (),
    SdkError,
>)
    ensures
        match result {
            Ok(()) => value_error(*value, depth as nat, session_text(session)) is None,
            Err(error) => value_error(*value, depth as nat, session_text(session)) == Some(error@),
        },
    decreases value,
{
    if depth > MAXIMUM_VALUE_DEPTH {
        return Err(invalid("ConfigValue nesting exceeds the supported limit"));
    }
    match &value.kind {
        None => Err(invalid("ConfigValue kind is required")),
        Some(ConfigKind::ListValue(list)) => {
            let values: &Vec<ConfigValue> = &list.values;
            proof {
                assert(values@.skip(0) =~= values@);
            }
            for index in 0..values.len()
                invariant
                    depth <= MAXIMUM_VALUE_DEPTH,
                    value.kind matches Some(ConfigKind::ListValue(whole)) && whole.values == *values,
                    first_value_error(values@, depth as nat + 1, session_text(session))
                        == first_value_error(
                        values@.skip(index as int),
                        depth as nat + 1,
                        session_text(session),
                    ),
            {
                proof {
                    let rest = values@.skip(index as int);
                    assert(rest[0] == values@[index as int]);
                    assert(rest.subrange(1, rest.len() as int) =~= values@.skip(index + 1));
                }
                match validate(&values[index], depth + 1, session) {
                    Ok(()) => {},
                    Err(error) => {
                        return Err(error);
                    },
                }
            }
            Ok(())
        },
        Some(ConfigKind::MapValue(map)) => {
            let entries: &Vec<ConfigEntry> = &map.entries;
            proof {
                assert(entries@.skip(0) =~= entries@);
            }
            for index in 0..entries.len()
                invariant
                    depth <= MAXIMUM_VALUE_DEPTH,
                    value.kind matches Some(ConfigKind::MapValue(whole)) && whole.entries
                        == *entries,
                    first_entry_error(entries@, depth as nat + 1, session_text(session))
                        == first_entry_error(
                        entries@.skip(index as int),
                        depth as nat + 1,
                        session_text(session),
                    ),
            {
                proof {
                    let rest = entries@.skip(index as int);
                    assert(rest[0] == entries@[index as int]);
                    assert(rest.subrange(1, rest.len() as int) =~= entries@.skip(index + 1));
                }
                match validate(&entries[index].value, depth + 1, session) {
                    Ok(()) => {},
                    Err(error) => {
                        return Err(error);
                    },
                }
            }
            Ok(())
        },
        Some(leaf) => validate_leaf(leaf, session),
    }
}

/// Validates a value that outlives the session: one to store or to log.
pub fn validate_serializable(value: &ConfigValue) -> (result: Result<(), SdkError>)
    ensures
        match result {
            Ok(()) => value_error(*value, 0, None) is None,
            Err(error) => value_error(*value, 0, None) == Some(error@),
        },
{
    validate(value, 0, None)
}

/// Validates fields that outlive the session.
pub fn validate_fields(fields: &[ConfigEntry]) -> (result: Result<(), SdkError>)
    ensures
        match result {
            Ok(()) => first_entry_error(fields@, 0, None) is None,
            Err(error) => first_entry_error(fields@, 0, None) == Some(error@),
        },
{
    proof {
        assert(fields@.skip(0) =~= fields@);
    }
    for index in 0..fields.len()
        invariant
            first_entry_error(fields@, 0, None) == first_entry_error(
                fields@.skip(index as int),
                0,
                None,
            ),
    {
        proof {
            let rest = fields@.skip(index as int);
            assert(rest[0] == fields@[index as int]);
            assert(rest.subrange(1, rest.len() as int) =~= fields@.skip(index + 1));
        }
        match validate_serializable(&fields[index].value) {
            Ok(()) => {},
            Err(error) => {
                return Err(error);
            },
        }
    }
    Ok(())
}

/// Validates values that are exchanged within the session `session_id`.
pub fn validate_session_values(values: &[ConfigValue], session_id: &str) -> (result: Result<
    (),
    SdkError,
>)
    ensures
        match result {
            Ok(()) => first_value_error(values@, 0, Some(session_id@)) is None,
            Err(error) => first_value_error(values@, 0, Some(session_id@)) == Some(error@),
        },
{
    proof {
        assert(values@.skip(0) =~= values@);
    }
    for index in 0..values.len()
        invariant
            first_value_error(values@, 0, Some(session_id@)) == first_value_error(
                values@.skip(index as int),
                0,
                Some(session_id@),
            ),
    {
        proof {
            let rest = values@.skip(index as int);
            assert(rest[0] == values@[index as int]);
            assert(rest.subrange(1, rest.len() as int) =~= values@.skip(index + 1));
        }
        match validate(&values[index], 0, Some(session_id)) {
            Ok(()) => {},
            Err(error) => {
                return Err(error);
            },
        }
    }
    Ok(())
}

// ---------------------------------------------------------------------------
// Which values are accepted
// ---------------------------------------------------------------------------

/// Whether lists and maps stand inside one another at most `levels` deep.
pub open spec fn nested_within(value: ConfigValue, levels: int) -> bool
    decreases value,
{
    levels >= 0 && match value.kind {
        Some(ConfigKind::ListValue(list)) => forall|index: int|
            0 <= index < list.values@.len() ==> nested_within(
                #[trigger] list.values@[index],
                levels - 1,
            ),
        Some(ConfigKind::MapValue(map)) => forall|index: int|
            0 <= index < map.entries@.len() ==> nested_within(
                (#[trigger] map.entries@[index]).value,
                levels - 1,
            ),
        _ => true,
    }
}

/// Whether every value at every level has a kind, and every one that holds no
/// other lies in its domain.
pub open spec fn leaves_in_domain(value: ConfigValue, session: Option<Seq<char>>) -> bool
    decreases value,
{
    match value.kind {
        None => false,
        Some(ConfigKind::ListValue(list)) => forall|index: int|
            0 <= index < list.values@.len() ==> leaves_in_domain(
                #[trigger] list.values@[index],
                session,
            ),
        Some(ConfigKind::MapValue(map)) => forall|index: int|
            0 <= index < map.entries@.len() ==> leaves_in_domain(
                (#[trigger] map.entries@[index]).value,
                session,
            ),
        Some(leaf) => leaf_error(leaf, session) is None,
    }
}

/// Values pass one after another exactly when each passes alone.
pub proof fn law_values_pass_together(
    values: Seq<ConfigValue>,
    depth: nat,
    session: Option<Seq<char>>,
)
    ensures
        first_value_error(values, depth, session) is None <==> (forall|index: int|
            0 <= index < values.len() ==> value_error(#[trigger] values[index], depth, session)
                is None),
    decreases values.len(),
{
    if values.len() > 0 {
        let rest = values.subrange(1, values.len() as int);
        law_values_pass_together(rest, depth, session);
        assert(forall|index: int|
            0 <= index < rest.len() ==> #[trigger] rest[index] == values[index + 1]);
        assert forall|index: int| 0 <= index < values.len() && value_error(
            values[0],
            depth,
            session,
        ) is None && first_value_error(rest, depth, session) is None implies value_error(
            #[trigger] values[index],
            depth,
            session,
        ) is None by {
            if index > 0 {
                assert(rest[index - 1] == values[index]);
            }
        }
    }
}

/// Entries of a map pass exactly when the value of each passes alone.
pub proof fn law_entries_pass_together(
    entries: Seq<ConfigEntry>,
    depth: nat,
    session: Option<Seq<char>>,
)
    ensures
        first_entry_error(entries, depth, session) is None <==> (forall|index: int|
            0 <= index < entries.len() ==> value_error(
                (#[trigger] entries[index]).value,
                depth,
                session,
            ) is None),
    decreases entries.len(),
{
    if entries.len() > 0 {
        let rest = entries.subrange(1, entries.len() as int);
        law_entries_pass_together(rest, depth, session);
        assert(forall|index: int|
            0 <= index < rest.len() ==> #[trigger] rest[index] == entries[index + 1]);
        assert forall|index: int| 0 <= index < entries.len() && value_error(
            entries[0].value,
            depth,
            session,
        ) is None && first_entry_error(rest, depth, session) is None implies value_error(
            (#[trigger] entries[index]).value,
            depth,
            session,
        ) is None by {
            if index > 0 {
                assert(rest[index - 1] == entries[index]);
            }
        }
    }
}

/// A value is accepted exactly when it nests no deeper than the limit allows
/// and all that it holds lies in its domain.
pub proof fn law_accepted_values(value: ConfigValue, depth: nat, session: Option<Seq<char>>)
    ensures
        value_error(value, depth, session) is None <==> nested_within(
            value,
            MAXIMUM_VALUE_DEPTH - depth,
        ) && leaves_in_domain(value, session),
    decreases value,
{
    match value.kind {
        Some(ConfigKind::ListValue(list)) => {
            law_values_pass_together(list.values@, depth + 1, session);
            assert forall|index: int| 0 <= index < list.values@.len() implies (value_error(
                #[trigger] list.values@[index],
                depth + 1,
                session,
            ) is None <==> nested_within(list.values@[index], MAXIMUM_VALUE_DEPTH - depth - 1)
                && leaves_in_domain(list.values@[index], session)) by {
                law_accepted_values(list.values@[index], depth + 1, session);
            }
        },
        Some(ConfigKind::MapValue(map)) => {
            law_entries_pass_together(map.entries@, depth + 1, session);
            assert forall|index: int| 0 <= index < map.entries@.len() implies (value_error(
                (#[trigger] map.entries@[index]).value,
                depth + 1,
                session,
            ) is None <==> nested_within(map.entries@[index].value, MAXIMUM_VALUE_DEPTH - depth - 1)
                && leaves_in_domain(map.entries@[index].value, session)) by {
                law_accepted_values(map.entries@[index].value, depth + 1, session);
            }
        },
        _ => {},
    }
}

/// A value that may be stored or logged holds no function handle, so it is
/// accepted in every session too.
pub proof fn law_durable_values_pass_in_every_session(
    value: ConfigValue,
    depth: nat,
    session: Seq<char>,
)
    requires
        value_error(value, depth, None) is None,
    ensures
        value_error(value, depth, Some(session)) is None,
{
    law_accepted_values(value, depth, None);
    law_accepted_values(value, depth, Some(session));
    lemma_durable_leaves(value, session);
}

proof fn lemma_durable_leaves(value: ConfigValue, session: Seq<char>)
    requires
        leaves_in_domain(value, None),
    ensures
        leaves_in_domain(value, Some(session)),
    decreases value,
{
    match value.kind {
        Some(ConfigKind::ListValue(list)) => {
            assert forall|index: int| 0 <= index < list.values@.len() implies leaves_in_domain(
                #[trigger] list.values@[index],
                Some(session),
            ) by {
                lemma_durable_leaves(list.values@[index], session);
            }
        },
        Some(ConfigKind::MapValue(map)) => {
            assert forall|index: int| 0 <= index < map.entries@.len() implies leaves_in_domain(
                (#[trigger] map.entries@[index]).value,
                Some(session),
            ) by {
                lemma_durable_leaves(map.entries@[index].value, session);
            }
        },
        _ => {},
    }
}

/// Whether a map is accepted does not depend on the order of its entries.
pub proof fn law_entry_order_is_immaterial(
    left: Seq<ConfigEntry>,
    right: Seq<ConfigEntry>,
    depth: nat,
    session: Option<Seq<char>>,
)
    requires
        forall|entry: ConfigEntry| #[trigger] left.contains(entry) <==> right.contains(entry),
    ensures
        first_entry_error(left, depth, session) is None <==> first_entry_error(
            right,
            depth,
            session,
        ) is None,
{
    law_entries_pass_together(left, depth, session);
    law_entries_pass_together(right, depth, session);
    assert forall|index: int| 0 <= index < right.len() && first_entry_error(
        left,
        depth,
        session,
    ) is None implies value_error((#[trigger] right[index]).value, depth, session) is None by {
        assert(right.contains(right[index]));
        assert(left.contains(right[index]));
    }
    assert forall|index: int| 0 <= index < left.len() && first_entry_error(
        right,
        depth,
        session,
    ) is None implies value_error((#[trigger] left[index]).value, depth, session) is None by {
        assert(left.contains(left[index]));
    }
}

/// What is wrong with a list is what is wrong with the first of its values that does
/// not pass.
pub proof fn law_the_first_fault_of_a_list_is_reported(
    values: Seq<ConfigValue>,
    depth: nat,
    session: Option<Seq<char>>,
)
    ensures
        first_value_error(values, depth, session) matches Some(error) ==> exists|index: int| {
            &&& 0 <= index < values.len()
            &&& value_error(#[trigger] values[index], depth, session) == Some(error)
            &&& forall|earlier: int|
                0 <= earlier < index ==> value_error(#[trigger] values[earlier], depth, session)
                    is None
        },
    decreases values.len(),
{
    if values.len() > 0 {
        let rest = values.subrange(1, values.len() as int);
        law_the_first_fault_of_a_list_is_reported(rest, depth, session);
        match first_value_error(values, depth, session) {
            Some(error) => {
                if value_error(values[0], depth, session) is None {
                    let index = choose|index: int| {
                        &&& 0 <= index < rest.len()
                        &&& value_error(#[trigger] rest[index], depth, session) == Some(error)
                        &&& forall|earlier: int|
                            0 <= earlier < index ==> value_error(
                                #[trigger] rest[earlier],
                                depth,
                                session,
                            ) is None
                    };
                    assert(values[index + 1] == rest[index]);
                    assert forall|earlier: int| 0 <= earlier < index + 1 implies value_error(
                        #[trigger] values[earlier],
                        depth,
                        session,
                    ) is None by {
                        if earlier > 0 {
                            assert(rest[earlier - 1] == values[earlier]);
                        }
                    }
                } else {
                    assert(value_error(values[0], depth, session) == Some(error));
                }
            },
            None => {},
        }
    }
}

/// What is wrong with a map is what is wrong with the first of its values that does
/// not pass.
pub proof fn law_the_first_fault_of_a_map_is_reported(
    entries: Seq<ConfigEntry>,
    depth: nat,
    session: Option<Seq<char>>,
)
    ensures
        first_entry_error(entries, depth, session) matches Some(error) ==> exists|index: int| {
            &&& 0 <= index < entries.len()
            &&& value_error((#[trigger] entries[index]).value, depth, session) == Some(error)
            &&& forall|earlier: int|
                0 <= earlier < index ==> value_error(
                    (#[trigger] entries[earlier]).value,
                    depth,
                    session,
                ) is None
        },
    decreases entries.len(),
{
    if entries.len() > 0 {
        let rest = entries.subrange(1, entries.len() as int);
        law_the_first_fault_of_a_map_is_reported(rest, depth, session);
        match first_entry_error(entries, depth, session) {
            Some(error) => {
                if value_error(entries[0].value, depth, session) is None {
                    let index = choose|index: int| {
                        &&& 0 <= index < rest.len()
                        &&& value_error((#[trigger] rest[index]).value, depth, session) == Some(
                            error,
                        )
                        &&& forall|earlier: int|
                            0 <= earlier < index ==> value_error(
                                (#[trigger] rest[earlier]).value,
                                depth,
                                session,
                            ) is None
                    };
                    assert(entries[index + 1] == rest[index]);
                    assert forall|earlier: int| 0 <= earlier < index + 1 implies value_error(
                        (#[trigger] entries[earlier]).value,
                        depth,
                        session,
                    ) is None by {
                        if earlier > 0 {
                            assert(rest[earlier - 1] == entries[earlier]);
                        }
                    }
                } else {
                    assert(value_error(entries[0].value, depth, session) == Some(error));
                }
            },
            None => {},
        }
    }
}

/// What a number, a time or any other value that holds no other may be. A null has
/// the number zero, a number is finite, a time lies in the years 1 to 9999, a span
/// has fields of one sign and is no longer than about ten thousand years, and a
/// function is one of the session. Everything else passes.
pub proof fn law_leaves_lie_in_their_domains(leaf: ConfigKind, session: Option<Seq<char>>)
    requires
        !(leaf is ListValue),
        !(leaf is MapValue),
    ensures
        leaf_error(leaf, session) is None <==> match leaf {
            ConfigKind::NullValue(number) => number == 0,
            ConfigKind::NumberValue(bits) => bits % 0x8000_0000_0000_0000
                < 0x7ff0_0000_0000_0000,
            ConfigKind::TimestampValue(value) => -62_135_596_800 <= value.seconds
                <= 253_402_300_799 && 0 <= value.nanos < 1_000_000_000,
            ConfigKind::DurationValue(value) => -315_576_000_000 <= value.seconds
                <= 315_576_000_000 && -1_000_000_000 < value.nanos < 1_000_000_000 && (
            value.seconds >= 0 && value.nanos >= 0 || value.seconds <= 0 && value.nanos <= 0),
            ConfigKind::FunctionValue(function) => session matches Some(session)
                && function.session_id@ == session && function.function_id@ != Seq::<char>::empty(),
            _ => true,
        },
{
    match leaf {
        ConfigKind::NumberValue(bits) => {
            assert((bits / 0x10_0000_0000_0000 % 0x800 != 0x7ff) == (bits % 0x8000_0000_0000_0000
                < 0x7ff0_0000_0000_0000)) by (bit_vector);
        },
        ConfigKind::FunctionValue(function) => {
            assert(function.function_id@.len() == 0 <==> function.function_id@ =~= Seq::<
                char,
            >::empty());
        },
        _ => {},
    }
}

/// Lists and maps stand at most thirty-three deep inside a value, and a value without
/// a kind is refused wherever it stands.
pub proof fn law_values_nest_at_most_thirty_three_deep(
    value: ConfigValue,
    session: Option<Seq<char>>,
)
    ensures
        value_error(value, 0, session) is None <==> nested_within(value, 33) && leaves_in_domain(
            value,
            session,
        ),
        value.kind is None ==> value_error(value, 0, session) is Some,
{
    law_accepted_values(value, 0, session);
}

/// A value that may not be stored or logged is an invalid argument.
pub proof fn law_stored_values_fail_as_arguments(entries: Seq<ConfigEntry>, depth: nat)
    ensures
        first_entry_error(entries, depth, None) matches Some(error) ==> error is InvalidArgument,
    decreases entries,
{
    if entries.len() > 0 {
        lemma_stored_value_fails_as_argument(entries[0].value, depth);
        law_stored_values_fail_as_arguments(entries.subrange(1, entries.len() as int), depth);
    }
}

proof fn lemma_stored_value_fails_as_argument(value: ConfigValue, depth: nat)
    ensures
        value_error(value, depth, None) matches Some(error) ==> error is InvalidArgument,
    decreases value,
{
    match value.kind {
        Some(ConfigKind::ListValue(list)) => {
            lemma_stored_list_fails_as_argument(list.values@, depth + 1);
        },
        Some(ConfigKind::MapValue(map)) => {
            law_stored_values_fail_as_arguments(map.entries@, depth + 1);
        },
        _ => {},
    }
}

proof fn lemma_stored_list_fails_as_argument(values: Seq<ConfigValue>, depth: nat)
    ensures
        first_value_error(values, depth, None) matches Some(error) ==> error is InvalidArgument,
    decreases values,
{
    if values.len() > 0 {
        lemma_stored_value_fails_as_argument(values[0], depth);
        lemma_stored_list_fails_as_argument(values.subrange(1, values.len() as int), depth);
    }
}

/// A copy of a value is judged as the value itself.
pub proof fn law_copies_are_judged_alike(
    value: ConfigValue,
    copy: ConfigValue,
    depth: nat,
    session: Option<Seq<char>>,
)
    requires
        protocol::same_value(value, copy),
    ensures
        value_error(value, depth, session) == value_error(copy, depth, session),
    decreases value,
{
    match (value.kind, copy.kind) {
        (Some(ConfigKind::ListValue(list)), Some(ConfigKind::ListValue(copied))) => {
            assert forall|index: int| 0 <= index < list.values@.len() implies value_error(
                #[trigger] list.values@[index],
                depth + 1,
                session,
            ) == value_error(copied.values@[index], depth + 1, session) by {
                law_copies_are_judged_alike(
                    list.values@[index],
                    copied.values@[index],
                    depth + 1,
                    session,
                );
            }
            lemma_lists_fail_alike(list.values@, copied.values@, depth + 1, session);
        },
        (Some(ConfigKind::MapValue(map)), Some(ConfigKind::MapValue(copied))) => {
            assert forall|index: int| 0 <= index < map.entries@.len() implies value_error(
                (#[trigger] map.entries@[index]).value,
                depth + 1,
                session,
            ) == value_error(copied.entries@[index].value, depth + 1, session) by {
                law_copies_are_judged_alike(
                    map.entries@[index].value,
                    copied.entries@[index].value,
                    depth + 1,
                    session,
                );
            }
            lemma_maps_fail_alike(map.entries@, copied.entries@, depth + 1, session);
        },
        _ => {},
    }
}

proof fn lemma_lists_fail_alike(
    left: Seq<ConfigValue>,
    right: Seq<ConfigValue>,
    depth: nat,
    session: Option<Seq<char>>,
)
    requires
        left.len() == right.len(),
        forall|index: int|
            0 <= index < left.len() ==> value_error(#[trigger] left[index], depth, session)
                == value_error(right[index], depth, session),
    ensures
        first_value_error(left, depth, session) == first_value_error(right, depth, session),
    decreases left.len(),
{
    if left.len() > 0 {
        let left_rest = left.subrange(1, left.len() as int);
        let right_rest = right.subrange(1, right.len() as int);
        assert forall|index: int| 0 <= index < left_rest.len() implies value_error(
            #[trigger] left_rest[index],
            depth,
            session,
        ) == value_error(right_rest[index], depth, session) by {
            assert(left_rest[index] == left[index + 1]);
        }
        assert(value_error(left[0], depth, session) == value_error(right[0], depth, session));
        lemma_lists_fail_alike(left_rest, right_rest, depth, session);
    }
}

proof fn lemma_maps_fail_alike(
    left: Seq<ConfigEntry>,
    right: Seq<ConfigEntry>,
    depth: nat,
    session: Option<Seq<char>>,
)
    requires
        left.len() == right.len(),
        forall|index: int|
            0 <= index < left.len() ==> value_error((#[trigger] left[index]).value, depth, session)
                == value_error(right[index].value, depth, session),
    ensures
        first_entry_error(left, depth, session) == first_entry_error(right, depth, session),
    decreases left.len(),
{
    if left.len() > 0 {
        let left_rest = left.subrange(1, left.len() as int);
        let right_rest = right.subrange(1, right.len() as int);
        assert forall|index: int| 0 <= index < left_rest.len() implies value_error(
            (#[trigger] left_rest[index]).value,
            depth,
            session,
        ) == value_error(right_rest[index].value, depth, session) by {
            assert(left_rest[index] == left[index + 1]);
        }
        assert(value_error(left[0].value, depth, session) == value_error(
            right[0].value,
            depth,
            session,
        ));
        lemma_maps_fail_alike(left_rest, right_rest, depth, session);
    }
}

/// A value of the wrong form is an invalid argument. A function of another session
/// breaks the protocol, and outside a session every function is an invalid argument.
pub proof fn law_foreign_functions_break_the_protocol(
    leaf: ConfigKind,
    session: Option<Seq<char>>,
)
    ensures
        leaf_error(leaf, session) matches Some(error) ==> (error is Protocol <==> {
            &&& leaf matches ConfigKind::FunctionValue(function) && session matches Some(session)
                && function.session_id@ != session
        }),
        leaf_error(leaf, session) matches Some(error) ==> error is Protocol || error
            is InvalidArgument,
{
}

} // verus!
