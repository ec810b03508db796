//! The rules that names, identities, endpoints and host messages obey.

use vstd::prelude::*;

use crate::error::{ErrorView, SdkError};
use crate::foreign;
use crate::foreign::{IpAddress, UriParts, UriView};
use crate::protocol::{
    ErrorCode, HostHello, JobCancellationReason, PluginEnvelope, PluginJobId, ProtocolError,
    ProtocolErrorView, ShutdownRequest, Timestamp, TraceContext,
};
use crate::text;
use crate::value;

verus! {

pub const MAXIMUM_PLUGIN_ID_BYTES: usize = 191;

pub const MAXIMUM_DNS_LABEL_BYTES: usize = 63;

// ---------------------------------------------------------------------------
// DNS names
// ---------------------------------------------------------------------------

/// A lower-case letter or a digit.
pub open spec fn is_lower_alphanumeric(character: char) -> bool {
    'a' <= character <= 'z' || '0' <= character <= '9'
}

/// One lower-case DNS label: letters and digits, with hyphens only inside.
pub open spec fn is_dns_label(label: Seq<char>) -> bool {
    &&& 0 < label.len() <= MAXIMUM_DNS_LABEL_BYTES
    &&& is_lower_alphanumeric(label[0])
    &&& is_lower_alphanumeric(label[label.len() - 1])
    &&& forall|index: int|
        0 <= index < label.len() ==> is_lower_alphanumeric(#[trigger] label[index]) || label[index]
            == '-'
}

/// The pieces of `name` between its dots.
pub open spec fn labels(name: Seq<char>) -> Seq<Seq<char>>
    decreases name.len(),
{
    if name.len() == 0 {
        seq![Seq::empty()]
    } else {
        let before = labels(name.drop_last());
        if name.last() == '.' {
            before.push(Seq::empty())
        } else {
            before.update(before.len() - 1, before.last().push(name.last()))
        }
    }
}

/// A dotted DNS name of at least two lower-case labels.
pub open spec fn is_plugin_id(name: Seq<char>) -> bool {
    &&& name.len() <= MAXIMUM_PLUGIN_ID_BYTES
    &&& labels(name).len() >= 2
    &&& forall|index: int|
        0 <= index < labels(name).len() ==> is_dns_label(#[trigger] labels(name)[index])
}

fn lower_alphanumeric(character: char) -> (result: bool)
    ensures
        result == is_lower_alphanumeric(character),
{
    ('a' <= character && character <= 'z') || ('0' <= character && character <= '9')
}

fn dns_label(label: &Vec<char>) -> (result: bool)
    ensures
        result == is_dns_label(label@),
{
    if label.len() == 0 || label.len() > MAXIMUM_DNS_LABEL_BYTES {
        return false;
    }
    if !lower_alphanumeric(label[0]) || !lower_alphanumeric(label[label.len() - 1]) {
        return false;
    }
    for index in 0..label.len()
        invariant
            forall|k: int|
                0 <= k < index ==> is_lower_alphanumeric(#[trigger] label@[k]) || label@[k] == '-',
    {
        if !lower_alphanumeric(label[index]) && label[index] != '-' {
            return false;
        }
    }
    true
}

/// Whether `value` is one lower-case DNS label.
pub fn valid_dns_label(value: &str) -> (result: bool)
    ensures
        result == is_dns_label(value@),
{
    dns_label(&text::characters(value))
}

/// Whether the first `count` labels are lower-case DNS labels.
spec fn leading_labels_valid(all: Seq<Seq<char>>, count: int) -> bool {
    forall|index: int| 0 <= index < count ==> is_dns_label(#[trigger] all[index])
}

proof fn lemma_leading_labels(before: Seq<Seq<char>>, after: Seq<Seq<char>>, count: int)
    requires
        0 <= count,
        forall|index: int| 0 <= index < count ==> #[trigger] after[index] == before[index],
    ensures
        leading_labels_valid(after, count) == leading_labels_valid(before, count),
        leading_labels_valid(after, count + 1) == (leading_labels_valid(before, count)
            && is_dns_label(after[count])),
{
    if leading_labels_valid(after, count) {
        assert forall|index: int| 0 <= index < count implies is_dns_label(
            #[trigger] before[index],
        ) by {
            assert(is_dns_label(after[index]));
        }
    }
    if leading_labels_valid(after, count + 1) {
        assert(is_dns_label(after[count]));
        assert forall|index: int| 0 <= index < count implies is_dns_label(
            #[trigger] before[index],
        ) by {
            assert(is_dns_label(after[index]));
        }
    }
}

/// Checks the immutable publisher ID of a plugin.
pub fn plugin_id(value: &str) -> (result: Result<(), SdkError>)
    ensures
        match result {
            Ok(()) => is_plugin_id(value@),
            Err(error) => !is_plugin_id(value@) && error@ == ErrorView::InvalidArgument(
                "plugin ID must be a lower-case dotted DNS name"@,
            ),
        },
{
    let name: Vec<char> = text::characters(value);
    let mut label: Vec<char> = Vec::new();
    let mut count: usize = 0;
    let mut valid: bool = true;
    for index in 0..name.len()
        invariant
            name@ == value@,
            count <= index,
            labels(name@.take(index as int)).len() == count + 1,
            labels(name@.take(index as int)).last() == label@,
            valid == leading_labels_valid(labels(name@.take(index as int)), count as int),
    {
        let ghost before = labels(name@.take(index as int));
        let ghost after = labels(name@.take(index + 1));
        proof {
            assert(name@.take(index + 1).drop_last() =~= name@.take(index as int));
            assert(name@.take(index + 1).last() == name@[index as int]);
            lemma_leading_labels(before, after, count as int);
        }
        if name[index] == '.' {
            assert(after[count as int] == label@);
            valid = valid && dns_label(&label);
            count = count + 1;
            label = Vec::new();
            assert(after.last() =~= label@);
        } else {
            label.push(name[index]);
        }
    }
    let complete: bool = valid && dns_label(&label);
    proof {
        assert(name@.take(name@.len() as int) =~= name@);
        let all = labels(name@);
        lemma_leading_labels(all, all, count as int);
        assert(all[count as int] == label@);
        assert(complete == leading_labels_valid(all, all.len() as int));
    }
    if name.len() > MAXIMUM_PLUGIN_ID_BYTES || count < 1 || !complete {
        return Err(SdkError::invalid_argument("plugin ID must be a lower-case dotted DNS name"));
    }
    Ok(())
}

/// The pieces of a name with dots between them.
pub open spec fn joined(pieces: Seq<Seq<char>>) -> Seq<char>
    decreases pieces.len(),
{
    if pieces.len() == 0 {
        Seq::empty()
    } else if pieces.len() == 1 {
        pieces[0]
    } else {
        joined(pieces.drop_last()).push('.') + pieces.last()
    }
}

/// The labels of a name hold no dot, and joined with dots they give the name
/// back.
pub proof fn law_labels_are_the_pieces_of_a_name(name: Seq<char>)
    ensures
        labels(name).len() >= 1,
        joined(labels(name)) == name,
        forall|index: int|
            0 <= index < labels(name).len() ==> !(#[trigger] labels(name)[index]).contains('.'),
    decreases name.len(),
{
    let all = labels(name);
    if name.len() == 0 {
        assert(joined(all) =~= name);
    } else {
        let before = labels(name.drop_last());
        law_labels_are_the_pieces_of_a_name(name.drop_last());
        assert(name =~= name.drop_last().push(name.last()));
        if name.last() == '.' {
            assert(all.drop_last() =~= before);
            assert(joined(all) =~= name);
        } else {
            assert(all.drop_last() =~= before.drop_last());
            assert(all.last() == before.last().push(name.last()));
            assert(joined(all) =~= joined(before).push(name.last()));
            assert forall|index: int| 0 <= index < all.len() implies !(#[trigger] all[index]).contains(
                '.',
            ) by {
                assert(!before[index].contains('.'));
                if index == all.len() - 1 {
                    let extended = all[index];
                    assert forall|k: int| 0 <= k < extended.len() implies extended[k] != '.' by {
                        if k < before.last().len() {
                            assert(before.last()[k] == extended[k]);
                            assert(before.last().contains(extended[k]));
                        }
                    }
                }
            }
        }
    }
}

/// A plugin ID is written in lower-case letters, digits, hyphens and dots.
pub proof fn law_plugin_ids_are_plain(name: Seq<char>)
    requires
        is_plugin_id(name),
    ensures
        forall|index: int|
            0 <= index < name.len() ==> is_lower_alphanumeric(#[trigger] name[index]) || name[index]
                == '-' || name[index] == '.',
{
    law_labels_are_the_pieces_of_a_name(name);
    lemma_joined_labels_are_plain(labels(name));
}

proof fn lemma_joined_labels_are_plain(pieces: Seq<Seq<char>>)
    requires
        forall|index: int| 0 <= index < pieces.len() ==> is_dns_label(#[trigger] pieces[index]),
    ensures
        forall|index: int|
            0 <= index < joined(pieces).len() ==> is_lower_alphanumeric(
                #[trigger] joined(pieces)[index],
            ) || joined(pieces)[index] == '-' || joined(pieces)[index] == '.',
    decreases pieces.len(),
{
    if pieces.len() == 1 {
        assert(is_dns_label(pieces[0]));
    } else if pieces.len() > 1 {
        let front = joined(pieces.drop_last());
        assert(is_dns_label(pieces[pieces.len() - 1]));
        assert forall|index: int| 0 <= index < pieces.drop_last().len() implies is_dns_label(
            #[trigger] pieces.drop_last()[index],
        ) by {
            assert(is_dns_label(pieces[index]));
        }
        lemma_joined_labels_are_plain(pieces.drop_last());
        assert forall|index: int| 0 <= index < joined(pieces).len() implies is_lower_alphanumeric(
            #[trigger] joined(pieces)[index],
        ) || joined(pieces)[index] == '-' || joined(pieces)[index] == '.' by {
            if index < front.len() {
                assert(joined(pieces)[index] == front[index]);
            } else if index > front.len() {
                assert(joined(pieces)[index] == pieces.last()[index - front.len() - 1]);
            }
        }
    }
}

// ---------------------------------------------------------------------------
// UUIDs
// ---------------------------------------------------------------------------

/// A lower-case hexadecimal digit.
pub open spec fn is_lower_hex(character: char) -> bool {
    '0' <= character <= '9' || 'a' <= character <= 'f'
}

/// A version-four UUID in its canonical spelling: groups of 8, 4, 4, 4 and 12
/// lower-case hexadecimal digits, of which the thirteenth is a four.
pub open spec fn is_canonical_uuid_v4(text: Seq<char>) -> bool {
    &&& text.len() == 36
    &&& forall|index: int|
        0 <= index < 36 ==> if foreign::uuid_hyphen_at(index) {
            #[trigger] text[index] == '-'
        } else {
            is_lower_hex(text[index])
        }
    &&& text[14] == '4'
}

/// The value of a lower-case hexadecimal digit.
spec fn hex_value(character: char) -> int {
    if character <= '9' {
        character as u32 - '0' as u32
    } else {
        character as u32 - 'a' as u32 + 10
    }
}

/// Where hexadecimal digit number `index` stands in a hyphenated UUID.
spec fn digit_position(index: int) -> int {
    if index < 8 {
        index
    } else if index < 12 {
        index + 1
    } else if index < 16 {
        index + 2
    } else if index < 20 {
        index + 3
    } else {
        index + 4
    }
}

/// The bytes that a canonical spelling stands for.
spec fn spelled_bytes(text: Seq<char>) -> Seq<u8> {
    Seq::new(
        16,
        |index: int|
            (16 * hex_value(text[digit_position(2 * index)]) + hex_value(
                text[digit_position(2 * index + 1)],
            )) as u8,
    )
}

proof fn lemma_canonical_spelling(text: Seq<char>)
    requires
        is_canonical_uuid_v4(text),
    ensures
        foreign::hyphenated_uuid(spelled_bytes(text)) == text,
        spelled_bytes(text)[6] as int / 16 == 4,
{
    let bytes = spelled_bytes(text);
    assert forall|index: int| 0 <= index < 36 implies foreign::hyphenated_uuid(bytes)[index]
        == #[trigger] text[index] by {
        if !foreign::uuid_hyphen_at(index) {
            let digit = index - foreign::uuid_hyphens_before(index);
            let high = digit_position(2 * (digit / 2));
            let low = digit_position(2 * (digit / 2) + 1);
            assert(is_lower_hex(text[high]));
            assert(is_lower_hex(text[low]));
            assert(0 <= hex_value(text[high]) < 16);
            assert(0 <= hex_value(text[low]) < 16);
            assert(bytes[digit / 2] == 16 * hex_value(text[high]) + hex_value(text[low]));
            assert(digit_position(digit) == index);
            assert(foreign::nibble(bytes, digit) == hex_value(text[index]));
        }
    }
    assert(foreign::hyphenated_uuid(bytes) =~= text);
    assert(is_lower_hex(text[digit_position(13)]));
    assert(digit_position(12) == 14);
    assert(bytes[6] == 16 * hex_value(text[14]) + hex_value(text[15]));
}

proof fn lemma_hyphenated_is_canonical(bytes: Seq<u8>)
    requires
        bytes.len() == 16,
        bytes[6] as int / 16 == 4,
    ensures
        is_canonical_uuid_v4(foreign::hyphenated_uuid(bytes)),
{
    let text = foreign::hyphenated_uuid(bytes);
    assert forall|index: int| 0 <= index < 36 implies if foreign::uuid_hyphen_at(index) {
        #[trigger] text[index] == '-'
    } else {
        is_lower_hex(text[index])
    } by {
        if !foreign::uuid_hyphen_at(index) {
            let digit = index - foreign::uuid_hyphens_before(index);
            assert(0 <= foreign::nibble(bytes, digit) < 16);
        }
    }
    assert(foreign::nibble(bytes, 12) == 4);
}

/// Whether `value` is a version-four UUID in its canonical spelling.
pub fn canonical_uuid_v4(value: &str) -> (result: bool)
    ensures
        result == is_canonical_uuid_v4(value@),
{
    proof {
        if is_canonical_uuid_v4(value@) {
            lemma_canonical_spelling(value@);
        }
    }
    match foreign::parse_uuid(value) {
        Some(bytes) => {
            proof {
                if bytes@[6] as int / 16 == 4 {
                    lemma_hyphenated_is_canonical(bytes@);
                }
            }
            match foreign::uuid_version(bytes) {
                Some(version) => version == 4 && text::same(
                    foreign::uuid_text(bytes).as_str(),
                    value,
                ),
                None => false,
            }
        },
        None => false,
    }
}

// ---------------------------------------------------------------------------
// The endpoint
// ---------------------------------------------------------------------------

/// A host without the brackets of an IPv6 literal.
pub open spec fn bare_host(host: Seq<char>) -> Seq<char> {
    if host.len() >= 2 && host[0] == '[' && host[host.len() - 1] == ']' {
        host.subrange(1, host.len() - 1)
    } else {
        host
    }
}

/// The lower-case form of an ASCII letter; any other character unchanged.
pub open spec fn ascii_lower(character: char) -> char {
    if 'A' <= character <= 'Z' {
        (character as u32 + 32) as char
    } else {
        character
    }
}

/// Whether a host is `localhost`, in any mixture of cases.
pub open spec fn is_localhost(host: Seq<char>) -> bool {
    &&& host.len() == "localhost"@.len()
    &&& forall|index: int|
        0 <= index < host.len() ==> ascii_lower(#[trigger] host[index]) == "localhost"@[index]
}

/// Whether an address lies in 127.0.0.0/8 or is ::1.
pub open spec fn is_loopback(address: IpAddress) -> bool {
    match address {
        IpAddress::V4(octets) => octets@[0] == 127,
        IpAddress::V6(octets) => octets@[15] == 1 && forall|index: int|
            0 <= index < 15 ==> #[trigger] octets@[index] == 0,
    }
}

/// Whether the runtime may connect to a URI whose bare host parses as `address`:
/// plain HTTP on the loopback interface, with an explicit nonzero port, without
/// user information, path or query.
pub open spec fn endpoint_allowed(uri: UriView, address: Option<IpAddress>) -> bool {
    &&& uri.scheme == Some("http"@)
    &&& uri.authority matches Some(authority) && {
        &&& is_localhost(bare_host(authority.host)) || (address matches Some(address)
            && is_loopback(address))
        &&& authority.port matches Some(port) && port != 0
        &&& !authority.text.contains('@')
    }
    &&& uri.path == "/"@
    &&& uri.query is None
}

/// The address that the bare host of a URI parses as.
pub open spec fn endpoint_address(uri: UriView) -> Option<IpAddress> {
    match uri.authority {
        Some(authority) => foreign::parsed_ip(bare_host(authority.host)),
        None => None,
    }
}

fn without_brackets(host: &str) -> (result: &str)
    ensures
        result@ == bare_host(host@),
{
    let length: usize = host.unicode_len();
    if length >= 2 && host.get_char(0) == '[' && host.get_char(length - 1) == ']' {
        host.substring_char(1, length - 1)
    } else {
        host
    }
}

fn lower(character: char) -> (result: char)
    ensures
        result == ascii_lower(character),
{
    match character {
        'A' => 'a',
        'B' => 'b',
        'C' => 'c',
        'D' => 'd',
        'E' => 'e',
        'F' => 'f',
        'G' => 'g',
        'H' => 'h',
        'I' => 'i',
        'J' => 'j',
        'K' => 'k',
        'L' => 'l',
        'M' => 'm',
        'N' => 'n',
        'O' => 'o',
        'P' => 'p',
        'Q' => 'q',
        'R' => 'r',
        'S' => 's',
        'T' => 't',
        'U' => 'u',
        'V' => 'v',
        'W' => 'w',
        'X' => 'x',
        'Y' => 'y',
        'Z' => 'z',
        _ => character,
    }
}

fn localhost(host: &str) -> (result: bool)
    ensures
        result == is_localhost(host@),
{
    let actual: Vec<char> = text::characters(host);
    let expected: Vec<char> = text::characters("localhost");
    if actual.len() != expected.len() {
        return false;
    }
    for index in 0..actual.len()
        invariant
            actual@ == host@,
            actual.len() == expected.len(),
            expected@ == "localhost"@,
            forall|k: int|
                0 <= k < index ==> ascii_lower(#[trigger] host@[k]) == "localhost"@[k],
    {
        if lower(actual[index]) != expected[index] {
            assert(ascii_lower(host@[index as int]) != "localhost"@[index as int]);
            return false;
        }
    }
    true
}

/// Whether an address lies on the loopback interface.
pub fn loopback(address: &IpAddress) -> (result: bool)
    ensures
        result == is_loopback(*address),
{
    match address {
        IpAddress::V4(octets) => octets[0] == 127,
        IpAddress::V6(octets) => {
            for index in 0..15usize
                invariant
                    *address == IpAddress::V6(*octets),
                    forall|k: int| 0 <= k < index ==> #[trigger] octets@[k] == 0,
            {
                if octets[index] != 0 {
                    return false;
                }
            }
            octets[15] == 1
        },
    }
}

/// Whether the runtime may connect to the URI of these parts, given the address
/// that its bare host parses as.
pub fn allowed_endpoint(parts: &UriParts, address: Option<IpAddress>) -> (result: bool)
    ensures
        result == endpoint_allowed(parts@, address),
{
    let http: bool = match &parts.scheme {
        Some(scheme) => text::same(scheme.as_str(), "http"),
        None => false,
    };
    let authority: bool = match &parts.authority {
        Some(authority) => {
            let on_loopback: bool = localhost(without_brackets(authority.host.as_str()))
                || match &address {
                Some(address) => loopback(address),
                None => false,
            };
            let explicit_port: bool = match authority.port {
                Some(port) => port != 0,
                None => false,
            };
            on_loopback && explicit_port && !text::contains(authority.text.as_str(), '@')
        },
        None => false,
    };
    http && authority && text::same(parts.path.as_str(), "/") && parts.query.is_none()
}

/// Checks the endpoint that the host hands to the plugin, and takes it apart.
pub fn endpoint(value: &str) -> (result: Result<UriParts, SdkError>)
    ensures
        match foreign::parsed_uri(value@) {
            Err(source) => result is Err && result->Err_0@ == (ErrorView::Runtime {
                operation: "parse OLL_PLUGIN_ENDPOINT"@,
                source,
            }),
            Ok(uri) => if endpoint_allowed(uri, endpoint_address(uri)) {
                result is Ok && result->Ok_0@ == uri
            } else {
                result is Err && result->Err_0@ == ErrorView::Environment(
                    "OLL_PLUGIN_ENDPOINT must be an http loopback URL with an explicit nonzero port"@,
                )
            },
        },
{
    let parts: UriParts = match foreign::parse_uri(value) {
        Ok(parts) => parts,
        Err(source) => {
            return Err(SdkError::runtime("parse OLL_PLUGIN_ENDPOINT", source));
        },
    };
    let address: Option<IpAddress> = match &parts.authority {
        Some(authority) => foreign::parse_ip(without_brackets(authority.host.as_str())),
        None => None,
    };
    if allowed_endpoint(&parts, address) {
        Ok(parts)
    } else {
        Err(
            SdkError::Environment(
                "OLL_PLUGIN_ENDPOINT must be an http loopback URL with an explicit nonzero port".to_owned(),
            ),
        )
    }
}

// ---------------------------------------------------------------------------
// Host messages
// ---------------------------------------------------------------------------

/// Whether a greeting names a node and the expected plugin, and negotiates
/// limits that allow any work at all.
pub open spec fn hello_accepted(plugin_id: Seq<char>, hello: HostHello) -> bool {
    &&& hello.node matches Some(node) && {
        &&& node.node_id matches Some(id) && is_canonical_uuid_v4(id.value@)
        &&& node.node_name matches Some(name) && is_dns_label(name.value@)
    }
    &&& hello.plugin_id matches Some(id) && id.value@ == plugin_id
    &&& hello.plugin_name matches Some(name) && is_dns_label(name.value@)
    &&& hello.maximum_call_depth != 0
    &&& hello.maximum_causal_depth != 0
    &&& hello.maximum_artifact_chunk_bytes != 0
}

/// Checks the greeting of the host against the ID of this plugin.
pub fn host_hello(plugin_id: &str, hello: &HostHello) -> (result: Result<(), SdkError>)
    ensures
        match result {
            Ok(()) => hello_accepted(plugin_id@, *hello),
            Err(error) => !hello_accepted(plugin_id@, *hello) && error@ == ErrorView::Protocol(
                "HostHello does not describe the expected plugin instance"@,
            ),
        },
{
    let valid_node: bool = match &hello.node {
        Some(node) => {
            let valid_id: bool = match &node.node_id {
                Some(id) => canonical_uuid_v4(id.value.as_str()),
                None => false,
            };
            let valid_name: bool = match &node.node_name {
                Some(name) => valid_dns_label(name.value.as_str()),
                None => false,
            };
            valid_id && valid_name
        },
        None => false,
    };
    let expected_plugin: bool = match &hello.plugin_id {
        Some(id) => text::same(id.value.as_str(), plugin_id),
        None => false,
    };
    let valid_name: bool = match &hello.plugin_name {
        Some(name) => valid_dns_label(name.value.as_str()),
        None => false,
    };
    if !valid_node || !expected_plugin || !valid_name || hello.maximum_call_depth == 0
        || hello.maximum_causal_depth == 0 || hello.maximum_artifact_chunk_bytes == 0 {
        return Err(SdkError::protocol("HostHello does not describe the expected plugin instance"));
    }
    Ok(())
}

/// What is wrong with the trace of a host envelope.
pub open spec fn trace_error(
    envelope: PluginEnvelope,
    maximum_call_depth: u32,
    maximum_causal_depth: u32,
) -> Option<ErrorView> {
    match envelope.trace {
        Some(trace) if trace.correlation_id@.len() > 0 => if trace.call_depth > maximum_call_depth
            || trace.causal_depth > maximum_causal_depth {
            Some(ErrorView::Protocol("host envelope exceeds a negotiated trace depth limit"@))
        } else {
            None
        },
        _ => Some(ErrorView::Protocol("host omitted correlation context"@)),
    }
}

/// The trace of a host envelope, if it is complete and within the negotiated
/// depths.
pub fn trace(
    envelope: &PluginEnvelope,
    maximum_call_depth: u32,
    maximum_causal_depth: u32,
) -> (result: Result<&TraceContext, SdkError>)
    ensures
        match result {
            Ok(trace) => trace_error(*envelope, maximum_call_depth, maximum_causal_depth) is None
                && envelope.trace == Some(*trace),
            Err(error) => trace_error(*envelope, maximum_call_depth, maximum_causal_depth) == Some(
                error@,
            ),
        },
{
    match &envelope.trace {
        Some(trace) => if trace.correlation_id.as_str().is_empty() {
            Err(SdkError::protocol("host omitted correlation context"))
        } else if trace.call_depth > maximum_call_depth || trace.causal_depth
            > maximum_causal_depth {
            Err(SdkError::protocol("host envelope exceeds a negotiated trace depth limit"))
        } else {
            Ok(trace)
        },
        None => Err(SdkError::protocol("host omitted correlation context")),
    }
}

/// What is wrong with the job ID of a request.
pub open spec fn job_id_error(job_id: Option<PluginJobId>) -> Option<ErrorView> {
    match job_id {
        None => Some(ErrorView::Protocol("job ID is required"@)),
        Some(id) => if is_canonical_uuid_v4(id.value@) {
            None
        } else {
            Some(ErrorView::Protocol("job ID must be a canonical UUID v4"@))
        },
    }
}

/// The job ID of a request, if it is a canonical version-four UUID.
pub fn job_id(value: &Option<PluginJobId>) -> (result: Result<&String, SdkError>)
    ensures
        match result {
            Ok(id) => job_id_error(*value) is None && value->0.value == *id,
            Err(error) => job_id_error(*value) == Some(error@),
        },
{
    match value {
        None => Err(SdkError::protocol("job ID is required")),
        Some(id) => if canonical_uuid_v4(id.value.as_str()) {
            Ok(&id.value)
        } else {
            Err(SdkError::protocol("job ID must be a canonical UUID v4"))
        },
    }
}

/// The error for a field that holds no valid timestamp.
pub open spec fn timestamp_error(field: Seq<char>) -> ErrorView {
    ErrorView::Protocol(field + " must be a valid protobuf Timestamp"@)
}

/// A required timestamp, if it lies in its domain.
pub fn timestamp(value: Option<Timestamp>, field: &str) -> (result: Result<Timestamp, SdkError>)
    ensures
        match result {
            Ok(timestamp) => value == Some(timestamp) && value::timestamp_in_domain(timestamp),
            Err(error) => !(value matches Some(timestamp) && value::timestamp_in_domain(timestamp))
                && error@ == timestamp_error(field@),
        },
{
    match value {
        Some(timestamp) if value::valid_timestamp(&timestamp) => Ok(timestamp),
        _ => {
            let mut message: String = field.to_owned();
            message.append(" must be a valid protobuf Timestamp");
            Err(SdkError::Protocol(message))
        },
    }
}

/// Checks a timestamp that may be left out.
pub fn optional_timestamp(value: Option<Timestamp>, field: &str) -> (result: Result<(), SdkError>)
    ensures
        match result {
            Ok(()) => value matches Some(timestamp) ==> value::timestamp_in_domain(timestamp),
            Err(error) => value is Some && !value::timestamp_in_domain(value->0) && error@
                == timestamp_error(field@),
        },
{
    match value {
        Some(_) => match timestamp(value, field) {
            Ok(_) => Ok(()),
            Err(error) => Err(error),
        },
        None => Ok(()),
    }
}

/// Checks the reason of a cancellation. Any reason will do, also one without a
/// name here, since it does not change what the plugin does.
pub fn cancellation_reason(value: JobCancellationReason) -> (result: Result<(), SdkError>)
    ensures
        match result {
            Ok(()) => !value.left_open(),
            Err(error) => value.left_open() && error@
                == ErrorView::Protocol("CancelJobRequest reason must not be unspecified"@),
        },
{
    if value.is_unspecified() {
        Err(SdkError::protocol("CancelJobRequest reason must not be unspecified"))
    } else {
        Ok(())
    }
}

/// What is wrong with a shutdown request.
pub open spec fn shutdown_error(request: ShutdownRequest) -> Option<ErrorView> {
    if request.reason@.len() == 0 {
        Some(ErrorView::Protocol("ShutdownRequest reason must not be empty"@))
    } else {
        match request.grace_period_deadline {
            Some(deadline) if value::timestamp_in_domain(deadline) => None,
            _ => Some(timestamp_error("ShutdownRequest grace-period deadline"@)),
        }
    }
}

/// The deadline of a shutdown request, if the request is complete.
pub fn shutdown(request: &ShutdownRequest) -> (result: Result<Timestamp, SdkError>)
    ensures
        match result {
            Ok(deadline) => shutdown_error(*request) is None && request.grace_period_deadline
                == Some(deadline),
            Err(error) => shutdown_error(*request) == Some(error@),
        },
{
    if request.reason.as_str().is_empty() {
        return Err(SdkError::protocol("ShutdownRequest reason must not be empty"));
    }
    timestamp(request.grace_period_deadline, "ShutdownRequest grace-period deadline")
}

/// Whether a structured error says what happened.
pub open spec fn error_specified(error: ProtocolErrorView) -> bool {
    !error.code.left_open() && error.message.len() > 0
}

/// Checks a structured error. Any code will do but the unspecified one, also
/// one without a name here: it is an error all the same.
pub fn protocol_error(error: &ProtocolError) -> (result: Result<(), SdkError>)
    ensures
        match result {
            Ok(()) => error_specified(error@),
            Err(fault) => !error_specified(error@) && fault@ == ErrorView::Protocol(
                "ProtocolError code and message must be specified"@,
            ),
        },
{
    if !error.code.is_unspecified() && !error.message.as_str().is_empty() {
        Ok(())
    } else {
        Err(SdkError::protocol("ProtocolError code and message must be specified"))
    }
}

// ---------------------------------------------------------------------------
// Laws
// ---------------------------------------------------------------------------

/// A DNS label has one to sixty-three characters, all of them lower-case letters,
/// digits or hyphens, and begins and ends with none of the latter.
pub proof fn law_labels_are_letters_digits_and_inner_hyphens(label: Seq<char>)
    ensures
        is_dns_label(label) <==> {
            &&& 1 <= label.len() <= 63
            &&& label[0] != '-'
            &&& label[label.len() - 1] != '-'
            &&& forall|index: int|
                0 <= index < label.len() ==> 'a' <= #[trigger] label[index] <= 'z' || '0'
                    <= label[index] <= '9' || label[index] == '-'
        },
{
}

/// Pieces without dots come back from the name that they are joined to, and that
/// name is a plugin ID exactly if there are at least two of them, each of them a DNS
/// label, and not more than 191 characters in all.
pub proof fn law_plugin_ids_are_dotted_labels(pieces: Seq<Seq<char>>)
    requires
        pieces.len() > 0,
        forall|index: int| 0 <= index < pieces.len() ==> !(#[trigger] pieces[index]).contains('.'),
    ensures
        labels(joined(pieces)) == pieces,
        is_plugin_id(joined(pieces)) <==> {
            &&& joined(pieces).len() <= 191
            &&& pieces.len() >= 2
            &&& forall|index: int|
                0 <= index < pieces.len() ==> is_dns_label(#[trigger] pieces[index])
        },
    decreases pieces.len(),
{
    if pieces.len() == 1 {
        lemma_labels_grow(Seq::empty(), pieces[0]);
        assert(Seq::<char>::empty() + pieces[0] =~= pieces[0]);
        assert(labels(Seq::<char>::empty()) =~= seq![Seq::<char>::empty()]);
        assert(labels(pieces[0]) =~= pieces);
    } else {
        let front = pieces.drop_last();
        assert forall|index: int| 0 <= index < front.len() implies !(
        #[trigger] front[index]).contains('.') by {
            assert(!pieces[index].contains('.'));
        }
        law_plugin_ids_are_dotted_labels(front);
        let dotted = joined(front).push('.');
        assert(dotted.drop_last() =~= joined(front));
        assert(labels(dotted) == front.push(Seq::empty()));
        assert(!pieces[pieces.len() - 1].contains('.'));
        lemma_labels_grow(dotted, pieces.last());
        assert(labels(joined(pieces)) =~= pieces);
    }
}

/// Characters without a dot are added to the last label.
proof fn lemma_labels_grow(name: Seq<char>, added: Seq<char>)
    requires
        !added.contains('.'),
    ensures
        labels(name).len() >= 1,
        labels(name + added) == labels(name).update(
            labels(name).len() - 1,
            labels(name).last() + added,
        ),
    decreases added.len(),
{
    law_labels_are_the_pieces_of_a_name(name);
    if added.len() == 0 {
        assert(name + added =~= name);
        assert(labels(name).last() + added =~= labels(name).last());
        assert(labels(name) =~= labels(name).update(
            labels(name).len() - 1,
            labels(name).last(),
        ));
    } else {
        let front = added.drop_last();
        assert forall|index: int| 0 <= index < front.len() implies front[index] != '.' by {
            assert(added[index] == front[index]);
            assert(added.contains(added[index]));
        }
        lemma_labels_grow(name, front);
        assert((name + added).drop_last() =~= name + front);
        assert((name + added).last() == added.last());
        assert(added.contains(added[added.len() - 1]));
        assert((labels(name).last() + front).push(added.last()) =~= labels(name).last() + added);
        assert(labels(name + added) =~= labels(name).update(
            labels(name).len() - 1,
            labels(name).last() + added,
        ));
    }
}

/// A canonical UUID of version four has thirty-six characters, hyphens after the
/// eighth, twelfth, sixteenth and twentieth digit, lower-case hexadecimal digits
/// everywhere else, and a four as its thirteenth digit.
pub proof fn law_canonical_uuids_are_spelled_out(text: Seq<char>)
    ensures
        is_canonical_uuid_v4(text) <==> {
            &&& text.len() == 36
            &&& text[8] == '-' && text[13] == '-' && text[18] == '-' && text[23] == '-'
            &&& text[14] == '4'
            &&& forall|index: int|
                0 <= index < 36 && index != 8 && index != 13 && index != 18 && index != 23 ==> '0'
                    <= #[trigger] text[index] <= '9' || 'a' <= text[index] <= 'f'
        },
{
    if is_canonical_uuid_v4(text) {
        assert forall|index: int|
            0 <= index < 36 && index != 8 && index != 13 && index != 18 && index != 23 implies '0'
            <= #[trigger] text[index] <= '9' || 'a' <= text[index] <= 'f' by {
            assert(!foreign::uuid_hyphen_at(index));
        }
        assert(foreign::uuid_hyphen_at(8) && foreign::uuid_hyphen_at(13) && foreign::uuid_hyphen_at(
            18,
        ) && foreign::uuid_hyphen_at(23));
    }
}

/// Which endpoints the runtime connects to: plain HTTP, at a loopback address or at
/// `localhost` in any mixture of cases, under an explicit nonzero port, and nothing
/// more in the URI.
pub proof fn law_endpoints_are_plain_and_local(
    parts: UriParts,
    address: Option<IpAddress>,
    allowed: bool,
)
    requires
        call_ensures(allowed_endpoint, (&parts, address), allowed),
    ensures
        allowed <==> {
            &&& parts.scheme matches Some(scheme) && scheme@ == seq!['h', 't', 't', 'p']
            &&& parts.authority matches Some(authority) && {
                &&& names_localhost(authority.host@) || match address {
                    Some(IpAddress::V4(octets)) => octets@[0] == 127,
                    Some(IpAddress::V6(octets)) => octets@.take(15) =~= Seq::new(
                        15,
                        |index: int| 0u8,
                    ) && octets@[15] == 1,
                    None => false,
                }
                &&& authority.port matches Some(port) && port > 0
                &&& forall|index: int|
                    0 <= index < authority.text@.len() ==> #[trigger] authority.text@[index] != '@'
            }
            &&& parts.path@ == seq!['/']
            &&& parts.query is None
        },
{
    reveal_strlit("http");
    reveal_strlit("/");
    assert("http"@ =~= seq!['h', 't', 't', 'p']);
    assert("/"@ =~= seq!['/']);
    match parts.authority {
        Some(authority) => {
            lemma_localhost_is_named(authority.host@);
            if authority.text@.contains('@') {
                let index = choose|index: int|
                    0 <= index < authority.text@.len() && authority.text@[index] == '@';
                assert(authority.text@[index] == '@');
            }
            match address {
                Some(IpAddress::V6(octets)) => {
                    lemma_leading_zeros(octets@);
                },
                _ => {},
            }
        },
        None => {},
    }
}

/// Whether a character is a letter in either case, given as both.
pub open spec fn either_case(character: char, lower: char, upper: char) -> bool {
    character == lower || character == upper
}

/// Whether a host, with or without the brackets of a literal address, spells
/// `localhost` in any mixture of cases.
pub open spec fn names_localhost(host: Seq<char>) -> bool {
    let start: int = if host.len() == 11 && host[0] == '[' && host[10] == ']' {
        1
    } else {
        0
    };
    &&& host.len() == 9 + 2 * start
    &&& either_case(host[start], 'l', 'L')
    &&& either_case(host[start + 1], 'o', 'O')
    &&& either_case(host[start + 2], 'c', 'C')
    &&& either_case(host[start + 3], 'a', 'A')
    &&& either_case(host[start + 4], 'l', 'L')
    &&& either_case(host[start + 5], 'h', 'H')
    &&& either_case(host[start + 6], 'o', 'O')
    &&& either_case(host[start + 7], 's', 'S')
    &&& either_case(host[start + 8], 't', 'T')
}

proof fn lemma_localhost_is_named(host: Seq<char>)
    ensures
        is_localhost(bare_host(host)) <==> names_localhost(host),
{
    reveal_strlit("localhost");
    let bare = bare_host(host);
    let start: int = if host.len() == 11 && host[0] == '[' && host[10] == ']' {
        1
    } else {
        0
    };
    if bare.len() == 9 {
        assert(forall|index: int| 0 <= index < 9 ==> #[trigger] bare[index] == host[start + index]);
        assert(bare[0] == host[start] && bare[1] == host[start + 1] && bare[2] == host[start + 2]
            && bare[3] == host[start + 3] && bare[4] == host[start + 4] && bare[5] == host[start
            + 5] && bare[6] == host[start + 6] && bare[7] == host[start + 7] && bare[8]
            == host[start + 8]);
        if names_localhost(host) {
            assert forall|index: int| 0 <= index < bare.len() implies ascii_lower(
                #[trigger] bare[index],
            ) == "localhost"@[index] by {
                assert(index == 0 || index == 1 || index == 2 || index == 3 || index == 4 || index
                    == 5 || index == 6 || index == 7 || index == 8);
            }
        }
    }
}

/// The endpoint that the plugin is given is taken exactly if it parses as a URI that
/// may be connected to, and then the parts are those of that URI.
pub proof fn law_endpoints_are_taken_as_parsed(value: &str, result: Result<UriParts, SdkError>)
    requires
        call_ensures(endpoint, (value,), result),
    ensures
        match foreign::parsed_uri(value@) {
            Ok(uri) => {
                &&& result matches Ok(parts) ==> parts@ == uri
                &&& result is Err ==> result->Err_0@ is Environment
                &&& result is Ok <==> {
                    &&& uri.scheme == Some(seq!['h', 't', 't', 'p'])
                    &&& uri.query is None
                    &&& uri.path == seq!['/']
                    &&& uri.authority matches Some(authority) && {
                        let host = authority.host;
                        let last = host.len() - 1;
                        let literal = if last >= 1 && host[0] == '[' && host[last] == ']' {
                            host.subrange(1, last)
                        } else {
                            host
                        };
                        &&& authority.port matches Some(port) && port > 0
                        &&& forall|index: int|
                            0 <= index < authority.text.len() ==> #[trigger] authority.text[index]
                                != '@'
                        &&& names_localhost(host) || match foreign::parsed_ip(literal) {
                            Some(IpAddress::V4(octets)) => octets@[0] == 127,
                            Some(IpAddress::V6(octets)) => octets@.take(15) =~= Seq::new(
                                15,
                                |index: int| 0u8,
                            ) && octets@[15] == 1,
                            None => false,
                        }
                    }
                }
            },
            Err(source) => {
                &&& result is Err
                &&& result->Err_0@ matches ErrorView::Runtime { source: said, .. } && said
                    == source
            },
        },
{
    reveal_strlit("http");
    reveal_strlit("/");
    assert("http"@ =~= seq!['h', 't', 't', 'p']);
    assert("/"@ =~= seq!['/']);
    match foreign::parsed_uri(value@) {
        Ok(uri) => match uri.authority {
            Some(authority) => {
                lemma_localhost_is_named(authority.host);
                if authority.text.contains('@') {
                    let index = choose|index: int|
                        0 <= index < authority.text.len() && authority.text[index] == '@';
                    assert(authority.text[index] == '@');
                }
                match foreign::parsed_ip(bare_host(authority.host)) {
                    Some(IpAddress::V6(octets)) => {
                        lemma_leading_zeros(octets@);
                    },
                    _ => {},
                }
            },
            None => {},
        },
        Err(_) => {},
    }
}

proof fn lemma_leading_zeros(octets: Seq<u8>)
    requires
        octets.len() == 16,
    ensures
        octets.take(15) =~= Seq::new(15, |index: int| 0u8) <==> forall|index: int|
            0 <= index < 15 ==> #[trigger] octets[index] == 0,
{
    if octets.take(15) =~= Seq::new(15, |index: int| 0u8) {
        assert forall|index: int| 0 <= index < 15 implies #[trigger] octets[index] == 0 by {
            assert(octets.take(15)[index] == octets[index]);
        }
    }
}

/// A greeting is accepted exactly if it names a node by ID and name, names this very
/// plugin, gives it a name and allows for calls, causes and chunks.
pub proof fn law_greetings_name_node_and_plugin(
    plugin_id: &str,
    hello: HostHello,
    result: Result<(), SdkError>,
)
    requires
        call_ensures(host_hello, (plugin_id, &hello), result),
    ensures
        result is Ok <==> {
            &&& hello.node matches Some(node) && node.node_id matches Some(id)
                && is_canonical_uuid_v4(id.value@)
            &&& hello.node matches Some(node) && node.node_name matches Some(name) && is_dns_label(
                name.value@,
            )
            &&& hello.plugin_id matches Some(id) && id.value@ == plugin_id@
            &&& hello.plugin_name matches Some(name) && is_dns_label(name.value@)
            &&& hello.maximum_call_depth > 0
            &&& hello.maximum_causal_depth > 0
            &&& hello.maximum_artifact_chunk_bytes > 0
        },
        result is Err ==> result->Err_0@ is Protocol,
{
}

/// The trace of an envelope is taken exactly if it has a correlation ID and neither
/// depth exceeds what was negotiated.
pub proof fn law_traces_stay_within_the_negotiated_depths(
    envelope: PluginEnvelope,
    maximum_call_depth: u32,
    maximum_causal_depth: u32,
    result: Result<&TraceContext, SdkError>,
)
    requires
        call_ensures(trace, (&envelope, maximum_call_depth, maximum_causal_depth), result),
    ensures
        result is Ok <==> {
            &&& envelope.trace matches Some(trace) && {
                &&& trace.correlation_id@.len() > 0
                &&& trace.call_depth <= maximum_call_depth
                &&& trace.causal_depth <= maximum_causal_depth
            }
        },
        result matches Ok(trace) ==> envelope.trace == Some(*trace),
        result is Err ==> result->Err_0@ is Protocol,
{
}

/// A job ID is taken exactly if it is there and a canonical UUID of version four.
pub proof fn law_job_ids_are_canonical(
    value: Option<PluginJobId>,
    result: Result<&String, SdkError>,
)
    requires
        call_ensures(job_id, (&value,), result),
    ensures
        match result {
            Ok(id) => value matches Some(given) && given.value == *id && is_canonical_uuid_v4(id@),
            Err(error) => error@ is Protocol && !(value matches Some(given)
                && is_canonical_uuid_v4(given.value@)),
        },
{
}

/// A shutdown request is taken exactly if it gives a reason and a deadline in the
/// years 1 to 9999, and that deadline is the one that counts.
pub proof fn law_shutdowns_give_reason_and_deadline(
    request: ShutdownRequest,
    result: Result<Timestamp, SdkError>,
)
    requires
        call_ensures(shutdown, (&request,), result),
    ensures
        match result {
            Ok(deadline) => {
                &&& request.reason@.len() > 0
                &&& request.grace_period_deadline == Some(deadline)
                &&& -62_135_596_800 <= deadline.seconds <= 253_402_300_799
                &&& 0 <= deadline.nanos <= 999_999_999
            },
            Err(error) => error@ is Protocol && !{
                &&& request.reason@.len() > 0
                &&& request.grace_period_deadline matches Some(deadline) && -62_135_596_800
                    <= deadline.seconds <= 253_402_300_799 && 0 <= deadline.nanos <= 999_999_999
            },
        },
{
}

/// A structured error says what happened exactly if its code is set and its message
/// is not empty.
pub proof fn law_errors_have_code_and_message(error: ProtocolError, result: Result<(), SdkError>)
    requires
        call_ensures(protocol_error, (&error,), result),
    ensures
        result is Ok <==> {
            &&& error.code != ErrorCode::Unspecified
            &&& error.code != ErrorCode::Other(0)
            &&& error.message@ != Seq::<char>::empty()
        },
        result is Err ==> result->Err_0@ is Protocol,
{
    assert(error.message@.len() == 0 <==> error.message@ =~= Seq::<char>::empty());
}

} // verus!
