//! Where requests go and how they are authorized, shared by both clients.

use vstd::prelude::*;
use vstd::utf8::encode_utf8;
use reqwest::header::HeaderMap;
use crate::headers::{
    header_map_entries, header_map_insert_authorization, header_map_new, header_value_from_str,
    is_header_value_text, no_headers,
};
use crate::text::{trim_end_char, trim_end_spec};
use crate::types::error::Error;

verus! {

/// The `/chat/completions` URL under a base URL, whatever run of trailing
/// slashes the base URL ends with.
pub open spec fn chat_endpoint_spec(base_url: Seq<char>) -> Seq<char> {
    trim_end_spec(base_url, '/') + "/chat/completions"@
}

/// The `Authorization` header value for an API key.
pub open spec fn bearer_text(api_key: Seq<char>) -> Seq<char> {
    "Bearer "@ + api_key
}

/// The name of the authorization header, as a header map keys it.
pub open spec fn authorization_name() -> Seq<char> {
    seq!['a', 'u', 't', 'h', 'o', 'r', 'i', 'z', 'a', 't', 'i', 'o', 'n']
}

/// The full `/chat/completions` URL for a base URL.
pub fn chat_endpoint(base_url: &str) -> (r: String)
    ensures
        r@ == chat_endpoint_spec(base_url@),
{
    String::from_str(trim_end_char(base_url, '/')).concat("/chat/completions")
}

/// The headers of an API request: `Authorization: Bearer <key>`.
///
/// Fails with `InvalidHeader` exactly when that text holds a byte that a
/// header value may not hold (a control character other than a tab).
pub fn authorization_headers(api_key: &str) -> (r: Result<HeaderMap, Error>)
    ensures
        r is Ok <==> is_header_value_text(bearer_text(api_key@)),
        match r {
            Ok(m) => header_map_entries(m) == no_headers().insert(
                authorization_name(),
                encode_utf8(bearer_text(api_key@)),
            ),
            Err(e) => e is InvalidHeader,
        },
{
    let text = String::from_str("Bearer ").concat(api_key);
    match header_value_from_str(text.as_str()) {
        Ok(value) => {
            let mut headers = header_map_new();
            header_map_insert_authorization(&mut headers, value);
            Ok(headers)
        },
        Err(e) => Err(Error::InvalidHeader(e)),
    }
}

} // verus!
