//! The HTTP header types of the `http` crate, as verified code sees them.
//!
//! A header map, a header name and a header value are opaque here. What they
//! hold is named by four uninterpreted functions, and the few operations the
//! gateway needs are small functions whose contracts restate what the `http`
//! crate's source shows. Nothing in this file is proved: every contract below
//! is an assumption about `http`.

use http::HeaderMap;
use http::HeaderName;
use http::HeaderValue;
use vstd::prelude::*;
use vstd::string::StringSliceAdditionalSpecFns;

verus! {

/// `http::HeaderMap<T>`, a multimap from header names to values.
#[verifier::external_type_specification]
#[verifier::external_body]
#[verifier::reject_recursive_types(T)]
pub struct ExHeaderMap<T>(HeaderMap<T>);

/// `http::HeaderName`, a validated, lower-case header name.
#[verifier::external_type_specification]
#[verifier::external_body]
pub struct ExHeaderName(HeaderName);

/// `http::HeaderValue`, a validated header value.
#[verifier::external_type_specification]
#[verifier::external_body]
pub struct ExHeaderValue(HeaderValue);

/// The values held under each header name: the key is the name as
/// `HeaderName::as_str` gives it (lower case), the entry lists the bytes of
/// every value stored under that name, in the order `get_all` yields them.
pub type HeaderEntries = Map<Seq<u8>, Seq<Seq<u8>>>;

/// What a header map holds.
pub uninterp spec fn header_entries(headers: HeaderMap<HeaderValue>) -> HeaderEntries;

/// The number of names under which a header map holds values, as
/// `HeaderMap::keys_len` counts them.
pub uninterp spec fn header_names(headers: HeaderMap<HeaderValue>) -> nat;

/// The bytes of `HeaderName::as_str`.
pub uninterp spec fn header_name_bytes(name: HeaderName) -> Seq<u8>;

/// The bytes of `HeaderValue::as_bytes`.
pub uninterp spec fn header_value_bytes(value: HeaderValue) -> Seq<u8>;

/// The entries after `name` has been set to the single value `value`.
pub open spec fn with_header(entries: HeaderEntries, name: Seq<u8>, value: Seq<u8>) -> HeaderEntries {
    entries.insert(name, seq![value])
}

/// The entries of a header map that holds nothing.
pub open spec fn no_headers() -> HeaderEntries {
    Map::empty()
}

/// A header map that holds fewer names than this always takes one more entry.
///
/// The map keeps its names in a table of at most 32768 slots that it grows by
/// doubling. It refuses an entry only where it already holds 32768 names or
/// would have to grow a table that already has 32768 slots, and it grows only
/// once the names fill three quarters of the table or, after many collisions,
/// a fifth of it. A fifth of 32768 slots is not reached below 6554 names.
pub open spec fn room_limit() -> nat {
    6554
}

/// The number of names after `name` has been set, in a map that held `names`
/// names under the entries `entries`.
pub open spec fn names_with(entries: HeaderEntries, names: nat, name: Seq<u8>) -> nat {
    if entries.dom().contains(name) {
        names
    } else {
        names + 1
    }
}

/// A byte that may stand in a header name: an RFC 7230 `tchar`.
pub open spec fn is_name_byte(b: u8) -> bool {
    ||| 0x30 <= b <= 0x39
    ||| 0x41 <= b <= 0x5a
    ||| 0x61 <= b <= 0x7a
    ||| b == 0x21
    ||| 0x23 <= b <= 0x27
    ||| b == 0x2a
    ||| b == 0x2b
    ||| b == 0x2d
    ||| b == 0x2e
    ||| 0x5e <= b <= 0x60
    ||| b == 0x7c
    ||| b == 0x7e
}

/// The longest header name `http` accepts, in bytes.
pub open spec fn max_name_len() -> nat {
    65535
}

/// The byte strings that `http` accepts as a header name.
pub open spec fn is_header_name(src: Seq<u8>) -> bool {
    &&& 1 <= src.len() <= max_name_len()
    &&& forall|i: int| 0 <= i < src.len() ==> is_name_byte(#[trigger] src[i])
}

/// ASCII lower case of one byte.
pub open spec fn lower_byte(b: u8) -> u8 {
    if 0x41 <= b <= 0x5a {
        (b + 0x20) as u8
    } else {
        b
    }
}

/// ASCII lower case of a byte string.
pub open spec fn lower_bytes(src: Seq<u8>) -> Seq<u8> {
    Seq::new(src.len(), |i: int| lower_byte(src[i]))
}

/// A byte that may stand in a header value: anything but a control character,
/// the horizontal tab excepted.
pub open spec fn is_value_byte(b: u8) -> bool {
    (b >= 32 && b != 127) || b == 9
}

/// The byte strings that `http` accepts as a header value.
pub open spec fn is_header_value(src: Seq<u8>) -> bool {
    forall|i: int| 0 <= i < src.len() ==> is_value_byte(#[trigger] src[i])
}

/// `HeaderName::from_bytes`. Assumed: it accepts exactly the non-empty strings
/// of at most 65535 token bytes, and the name it returns is the input with its
/// ASCII letters in lower case.
#[verifier::external_body]
pub(crate) fn parse_header_name(src: &[u8]) -> (r: Option<HeaderName>)
    ensures
        r is Some <==> is_header_name(src@),
        r matches Some(name) ==> header_name_bytes(name) == lower_bytes(src@),
{
    HeaderName::from_bytes(src).ok()
}

/// `HeaderValue::from_str`. Assumed: it accepts exactly the strings whose
/// UTF-8 bytes are all value bytes, and the value it returns holds those bytes.
#[verifier::external_body]
pub(crate) fn parse_header_value(src: &str) -> (r: Option<HeaderValue>)
    ensures
        r is Some <==> is_header_value(src.spec_bytes()),
        r matches Some(value) ==> header_value_bytes(value) == src.spec_bytes(),
{
    HeaderValue::from_str(src).ok()
}

/// The constant `http::header::AUTHORIZATION`. Assumed: its name is
/// `authorization`.
#[verifier::external_body]
pub(crate) fn authorization_name() -> (r: HeaderName)
    ensures
        header_name_bytes(r) == "authorization".spec_bytes(),
{
    http::header::AUTHORIZATION
}

/// `HeaderMap::new`. Assumed: the new map holds no value under any name.
#[verifier::external_body]
pub(crate) fn new_headers() -> (r: HeaderMap<HeaderValue>)
    ensures
        header_entries(r) == no_headers(),
        header_names(r) == 0,
{
    HeaderMap::new()
}

/// `HeaderMap::try_insert`. Assumed: on success the name holds the new value
/// alone, every other name keeps its values, and the name counts as one more
/// if it held nothing before; when the map reports that it has reached its
/// maximum size, it holds what it held before. A map that holds fewer than
/// [`room_limit`] names does not refuse.
#[verifier::external_body]
pub(crate) fn set_header(headers: &mut HeaderMap<HeaderValue>, name: HeaderName, value: HeaderValue) -> (stored: bool)
    ensures
        header_names(*old(headers)) < room_limit() ==> stored,
        stored ==> header_entries(*final(headers)) == with_header(
            header_entries(*old(headers)),
            header_name_bytes(name),
            header_value_bytes(value),
        ),
        stored ==> header_names(*final(headers)) == names_with(
            header_entries(*old(headers)),
            header_names(*old(headers)),
            header_name_bytes(name),
        ),
        !stored ==> header_entries(*final(headers)) == header_entries(*old(headers)),
        !stored ==> header_names(*final(headers)) == header_names(*old(headers)),
{
    headers.try_insert(name, value).is_ok()
}

} // verus!
