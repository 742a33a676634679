//! HTTP header values and maps, as the `http` types that `reqwest` re-exports.
use vstd::utf8::encode_utf8;

use vstd::prelude::*;
use reqwest::header::{HeaderMap, HeaderValue, InvalidHeaderValue};

verus! {

#[verifier::external_type_specification]
#[verifier::external_body]
pub struct ExHeaderValue(HeaderValue);

#[verifier::external_type_specification]
#[verifier::external_body]
pub struct ExInvalidHeaderValue(InvalidHeaderValue);

#[verifier::external_type_specification]
#[verifier::external_body]
#[verifier::reject_recursive_types(T)]
pub struct ExHeaderMap<T>(HeaderMap<T>);

/// The bytes a header value holds.
pub uninterp spec fn header_value_bytes(v: HeaderValue) -> Seq<u8>;

/// The entries of a header map: each header name (in lower case) with the
/// bytes of its first value.
pub uninterp spec fn header_map_entries(m: HeaderMap) -> Map<Seq<char>, Seq<u8>>;

/// A header map's entries when it holds none.
pub open spec fn no_headers() -> Map<Seq<char>, Seq<u8>> {
    Map::empty()
}

/// A byte that a header value may hold: visible ASCII, a space, a tab, or
/// any byte from 0x80 up.
pub open spec fn is_header_value_byte(b: u8) -> bool {
    (b >= 32 && b != 127) || b == 9
}

pub open spec fn is_header_value_text(s: Seq<char>) -> bool {
    forall|i: int|
        0 <= i < encode_utf8(s).len() ==> is_header_value_byte(#[trigger] encode_utf8(s)[i])
}

/// `HeaderValue::from_str`: it checks every byte of the text's UTF-8
/// encoding and fails exactly when one of them is not a header value byte;
/// on success the value holds those bytes.
#[verifier::external_body]
pub(crate) fn header_value_from_str(s: &str) -> (r: Result<HeaderValue, InvalidHeaderValue>)
    ensures
        r is Ok <==> is_header_value_text(s@),
        r matches Ok(v) ==> header_value_bytes(v) == encode_utf8(s@),
{
    HeaderValue::from_str(s)
}

/// `HeaderMap::new`: an empty map.
#[verifier::external_body]
pub(crate) fn header_map_new() -> (m: HeaderMap)
    ensures
        header_map_entries(m) == no_headers(),
{
    HeaderMap::new()
}

/// `HeaderMap::insert` with the `AUTHORIZATION` name: the map's values
/// for "authorization" are replaced by `value`; other names keep theirs.
/// The insertion only panics when the map is full, which a map without
/// entries is not.
#[verifier::external_body]
pub(crate) fn header_map_insert_authorization(m: &mut HeaderMap, value: HeaderValue)
    requires
        header_map_entries(*old(m)) == no_headers(),
    ensures
        header_map_entries(*final(m)) == header_map_entries(*old(m)).insert(
            seq!['a', 'u', 't', 'h', 'o', 'r', 'i', 'z', 'a', 't', 'i', 'o', 'n'],
            header_value_bytes(value),
        ),
{
    m.insert(reqwest::header::AUTHORIZATION, value);
}

} // verus!
