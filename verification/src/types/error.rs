//! The crate's error type.
//!
//! Wraps HTTP, serialization and API-level error conditions into a single
//! [`Error`] enum that all public methods return.

use vstd::prelude::*;
use reqwest::header::InvalidHeaderValue;
use serde_json::Error as JsonError;
use reqwest::Error as HttpError;

verus! {

#[verifier::external_type_specification]
#[verifier::external_body]
pub struct ExJsonError(JsonError);

#[verifier::external_type_specification]
#[verifier::external_body]
pub struct ExHttpError(HttpError);

/// Errors that can occur during API interaction.
#[derive(Debug)]
pub enum Error {
    /// Failed to construct a valid HTTP header from the API key.
    InvalidHeader(InvalidHeaderValue),
    /// JSON serialization or deserialization failed.
    Serialization(JsonError),
    /// HTTP/transport-level failure.
    Http(HttpError),
    /// API returned a response with no choices array.
    NoChoices,
    /// Response was missing the message content field.
    NoContent,
    /// API returned an error message.
    Api(String),
}

/// `serde::de::Error::custom` for `serde_json::Error`: an error that
/// reports `msg`. Nothing is stated of the value: what matters is that the
/// library returns it as a `Serialization` error.
#[verifier::external_body]
pub(crate) fn json_decode_error(msg: String) -> JsonError {
    <JsonError as serde::de::Error>::custom(msg)
}

} // verus!
