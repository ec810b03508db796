//! What the runtime takes from outside crates and from parts of std without a
//! specification: UUIDs, URIs, IP addresses, SHA-256 and the system clock.
//!
//! Every contract of a wrapper in this file is taken on trust from the code it
//! names.

use sha2::Digest;
use vstd::prelude::*;

use crate::protocol::Timestamp;

verus! {

// ---------------------------------------------------------------------------
// UUIDs
// ---------------------------------------------------------------------------

/// The lower-case hexadecimal digit of a value below sixteen.
pub open spec fn hex_digit(value: int) -> char {
    if value < 10 {
        ('0' as u32 + value) as char
    } else {
        ('a' as u32 + (value - 10)) as char
    }
}

/// Whether a hyphen stands at `index` of a hyphenated UUID.
pub open spec fn uuid_hyphen_at(index: int) -> bool {
    index == 8 || index == 13 || index == 18 || index == 23
}

/// How many hyphens stand before `index` in a hyphenated UUID.
pub open spec fn uuid_hyphens_before(index: int) -> int {
    if index <= 8 {
        0
    } else if index <= 13 {
        1
    } else if index <= 18 {
        2
    } else if index <= 23 {
        3
    } else {
        4
    }
}

/// Hexadecimal digit number `index` of the sixteen bytes, high half first.
pub open spec fn nibble(bytes: Seq<u8>, index: int) -> int {
    if index % 2 == 0 {
        bytes[index / 2] as int / 16
    } else {
        bytes[index / 2] as int % 16
    }
}

/// The lower-case `8-4-4-4-12` form of sixteen bytes.
pub open spec fn hyphenated_uuid(bytes: Seq<u8>) -> Seq<char> {
    Seq::new(
        36,
        |index: int|
            if uuid_hyphen_at(index) {
                '-'
            } else {
                hex_digit(nibble(bytes, index - uuid_hyphens_before(index)))
            },
    )
}

/// The bytes that `uuid::Uuid::parse_str` reads out of `text`, if it accepts it.
pub uninterp spec fn parsed_uuid(text: Seq<char>) -> Option<Seq<u8>>;

/// Calls `uuid::Uuid::parse_str`.
///
/// The result depends on the text alone, an accepted text gives sixteen bytes,
/// and the lower-case hyphenated form of sixteen bytes is accepted and gives
/// those bytes. Which other spellings are accepted is left unsaid.
#[verifier::external_body]
pub(crate) fn parse_uuid(text: &str) -> (result: Option<[u8; 16]>)
    ensures
        result is Some <==> parsed_uuid(text@) is Some,
        result is Some ==> result->0@ == parsed_uuid(text@)->0,
        forall|bytes: Seq<u8>|
            bytes.len() == 16 && #[trigger] hyphenated_uuid(bytes) == text@ ==> result is Some
                && result->0@ == bytes,
{
    uuid::Uuid::parse_str(text).ok().map(uuid::Uuid::into_bytes)
}

/// The version number of a UUID: the high half of byte six, as far as a version
/// with this number is defined. Zero and fifteen stand for the UUIDs of nothing but
/// zeros and of nothing but ones.
pub open spec fn uuid_version_number(bytes: Seq<u8>) -> Option<u8> {
    let number: u8 = bytes[6] / 16;
    if 1 <= number <= 8 {
        Some(number)
    } else if bytes =~= Seq::new(16, |index: int| 0u8) {
        Some(0u8)
    } else if bytes =~= Seq::new(16, |index: int| 255u8) {
        Some(15u8)
    } else {
        None
    }
}

/// Calls `uuid::Uuid::get_version`, which gives the version, if there is one with
/// this number. The version is handed on by its number.
#[verifier::external_body]
pub(crate) fn uuid_version(bytes: [u8; 16]) -> (result: Option<u8>)
    ensures
        result == uuid_version_number(bytes@),
{
    match uuid::Uuid::from_bytes(bytes).get_version() {
        Some(version) => Some(version as u8),
        None => None,
    }
}

/// Calls `uuid::Uuid::hyphenated` and writes the result out: the lower-case
/// hyphenated form.
#[verifier::external_body]
pub(crate) fn uuid_text(bytes: [u8; 16]) -> (result: String)
    ensures
        result@ == hyphenated_uuid(bytes@),
{
    uuid::Uuid::from_bytes(bytes).hyphenated().to_string()
}

// ---------------------------------------------------------------------------
// URIs
// ---------------------------------------------------------------------------

/// The authority part of a URI.
#[derive(Clone, Debug, PartialEq, Eq)]
pub struct UriAuthority {
    /// The whole authority: user information, host and port.
    pub text: String,
    /// The host alone, with the brackets of an IPv6 literal.
    pub host: String,
    /// The port, where one is written.
    pub port: Option<u16>,
}

/// The parts of a URI.
#[derive(Clone, Debug, PartialEq, Eq)]
pub struct UriParts {
    pub scheme: Option<String>,
    pub authority: Option<UriAuthority>,
    pub path: String,
    pub query: Option<String>,
}

/// What a [`UriAuthority`] holds.
pub struct UriAuthorityView {
    pub text: Seq<char>,
    pub host: Seq<char>,
    pub port: Option<u16>,
}

/// What a [`UriParts`] holds.
pub struct UriView {
    pub scheme: Option<Seq<char>>,
    pub authority: Option<UriAuthorityView>,
    pub path: Seq<char>,
    pub query: Option<Seq<char>>,
}

impl View for UriAuthority {
    type V = UriAuthorityView;

    open spec fn view(&self) -> UriAuthorityView {
        UriAuthorityView { text: self.text@, host: self.host@, port: self.port }
    }
}

impl View for UriParts {
    type V = UriView;

    open spec fn view(&self) -> UriView {
        UriView {
            scheme: match self.scheme {
                Some(scheme) => Some(scheme@),
                None => None,
            },
            authority: match self.authority {
                Some(authority) => Some(authority@),
                None => None,
            },
            path: self.path@,
            query: match self.query {
                Some(query) => Some(query@),
                None => None,
            },
        }
    }
}

/// What `http::Uri` makes of `text`: its parts, or the text of its error.
pub uninterp spec fn parsed_uri(text: Seq<char>) -> Result<UriView, Seq<char>>;

/// Parses an `http::Uri` and takes it apart with its own accessors.
///
/// The parts, or the text of the parse error, depend on the text alone.
#[verifier::external_body]
pub(crate) fn parse_uri(text: &str) -> (result: Result<UriParts, String>)
    ensures
        match result {
            Ok(parts) => parsed_uri(text@) == Ok::<UriView, Seq<char>>(parts@),
            Err(error) => parsed_uri(text@) == Err::<UriView, Seq<char>>(error@),
        },
{
    let uri: http::Uri = text.parse().map_err(|error: http::uri::InvalidUri| error.to_string())?;
    Ok(UriParts {
        scheme: uri.scheme_str().map(str::to_owned),
        authority: uri.authority().map(|authority| UriAuthority {
            text: authority.as_str().to_owned(),
            host: authority.host().to_owned(),
            port: authority.port_u16(),
        }),
        path: uri.path().to_owned(),
        query: uri.query().map(str::to_owned),
    })
}

// ---------------------------------------------------------------------------
// IP addresses
// ---------------------------------------------------------------------------

/// An IP address by its octets, in network order.
#[derive(Clone, Copy, Debug, PartialEq, Eq)]
pub enum IpAddress {
    V4([u8; 4]),
    V6([u8; 16]),
}

/// The address that the standard parser reads out of `text`, if it accepts it.
pub uninterp spec fn parsed_ip(text: Seq<char>) -> Option<IpAddress>;

/// Calls the standard parser of IP addresses. The result depends on the text
/// alone.
#[verifier::external_body]
pub(crate) fn parse_ip(text: &str) -> (result: Option<IpAddress>)
    ensures
        result == parsed_ip(text@),
{
    match text.parse::<core::net::IpAddr>().ok()? {
        core::net::IpAddr::V4(address) => Some(IpAddress::V4(address.octets())),
        core::net::IpAddr::V6(address) => Some(IpAddress::V6(address.octets())),
    }
}

// ---------------------------------------------------------------------------
// SHA-256
// ---------------------------------------------------------------------------

/// The hasher of the `sha2` crate.
#[verifier::external_type_specification]
#[verifier::external_body]
pub struct ExSha256(sha2::Sha256);

/// The bytes that a hasher has taken in, in order.
pub uninterp spec fn hashed_bytes(hasher: sha2::Sha256) -> Seq<u8>;

/// The SHA-256 digest of some bytes.
pub uninterp spec fn sha256(bytes: Seq<u8>) -> Seq<u8>;

/// Calls `sha2::Sha256::new`: a hasher that has taken in nothing.
#[verifier::external_body]
pub(crate) fn new_hasher() -> (result: sha2::Sha256)
    ensures
        hashed_bytes(result) == Seq::<u8>::empty(),
{
    sha2::Sha256::new()
}

/// Calls `sha2::Sha256::update`, which takes in `data` after what came before.
#[verifier::external_body]
pub(crate) fn update_hasher(hasher: &mut sha2::Sha256, data: &[u8])
    ensures
        hashed_bytes(*final(hasher)) == hashed_bytes(*old(hasher)) + data@,
{
    hasher.update(data)
}

/// Calls `sha2::Sha256::finalize`: the digest of all the bytes taken in, which
/// is 32 bytes long.
#[verifier::external_body]
pub(crate) fn finish_hasher(hasher: sha2::Sha256) -> (result: Vec<u8>)
    ensures
        result@ == sha256(hashed_bytes(hasher)),
        result@.len() == 32,
{
    hasher.finalize().to_vec()
}

// ---------------------------------------------------------------------------
// The system clock
// ---------------------------------------------------------------------------

/// Reads the system clock with `prost_types::Timestamp::from`, whose nanoseconds
/// count forward from the seconds. What the time is cannot be said.
#[verifier::external_body]
pub(crate) fn current_time() -> (result: Timestamp)
    ensures
        0 <= result.nanos <= 999_999_999,
{
    let now = prost_types::Timestamp::from(std::time::SystemTime::now());
    Timestamp { seconds: now.seconds, nanos: now.nanos }
}

/// Whether `now` is what a reading of the system clock gave: what [`current_time`]
/// returned.
pub closed spec fn clock_reads(now: Timestamp) -> bool {
    call_ensures(current_time, (), now)
}

/// Nothing but the clock gives its readings.
pub(crate) proof fn lemma_clock_reads(now: Timestamp)
    ensures
        clock_reads(now) <==> call_ensures(current_time, (), now),
        clock_reads(now) ==> 0 <= now.nanos <= 999_999_999,
{
}

/// Converts `deadline` into a system time with the conversion of
/// `prost_types::Timestamp`, and keeps the text of the error if it has none.
///
/// Which times can be represented depends on the system, so nothing is said of
/// the result.
#[verifier::external_body]
pub(crate) fn representable(deadline: Timestamp) -> (result: Result<(), String>) {
    let deadline = prost_types::Timestamp { seconds: deadline.seconds, nanos: deadline.nanos };
    match std::time::SystemTime::try_from(deadline) {
        Ok(_) => Ok(()),
        Err(error) => Err(error.to_string()),
    }
}

/// Whether the system answers with `answer` when it is asked whether it can
/// represent `deadline`: what [`representable`] returned.
pub closed spec fn system_answers(deadline: Timestamp, answer: Result<(), String>) -> bool {
    call_ensures(representable, (deadline,), answer)
}

/// Nothing but the system gives its answers.
pub(crate) proof fn lemma_system_answers(deadline: Timestamp, answer: Result<(), String>)
    ensures
        system_answers(deadline, answer) <==> call_ensures(representable, (deadline,), answer),
{
}

} // verus!
