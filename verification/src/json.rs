//! JSON payloads: decoded from a request body, encoded into a response.

use vstd::prelude::*;
use serde_json::Value;
use crate::data::{body_failure, FromData};
use crate::errors::{Error, ErrorKind, ErrorView};
use crate::responder::{error_response, json_response, respond_json, Responder};
use crate::response::Response;

verus! {

/// What `serde_json` decodes the bytes into.
pub uninterp spec fn json_decoded(bytes: Seq<u8>) -> Result<Value, serde_json::Error>;

/// What `serde_json` encodes the value into.
pub uninterp spec fn json_encoded(value: Value) -> Result<Seq<u8>, serde_json::Error>;

/// The message of a `serde_json` error.
pub uninterp spec fn json_error_text(error: serde_json::Error) -> Seq<char>;

/// Decodes JSON text.
///
/// Calls `serde_json::from_slice` for a `Value`: the outcome depends on
/// the bytes alone.
#[verifier::external_body]
fn decode_json(buf: &[u8]) -> (r: Result<Value, serde_json::Error>)
    ensures
        r == json_decoded(buf@),
{
    serde_json::from_slice(buf)
}

/// Encodes a value as JSON text.
///
/// Calls `serde_json::to_vec`: the outcome depends on the value alone.
#[verifier::external_body]
fn encode_json(value: &Value) -> (r: Result<Vec<u8>, serde_json::Error>)
    ensures
        match r {
            Ok(bytes) => json_encoded(*value) == Ok::<Seq<u8>, serde_json::Error>(bytes@),
            Err(e) => json_encoded(*value) == Err::<Seq<u8>, serde_json::Error>(e),
        },
{
    serde_json::to_vec(value)
}

/// The message of an error.
///
/// Calls `to_string` on a `serde_json::Error`, which writes the error's
/// `Display` form.
#[verifier::external_body]
fn describe(error: &serde_json::Error) -> (text: String)
    ensures
        text@ == json_error_text(*error),
{
    error.to_string()
}

/// A payload that travels as JSON.
#[derive(Debug)]
pub struct Json<T = Value>(pub T);

impl<T> Json<T> {
    /// The payload itself.
    pub fn into_inner(self) -> (inner: T)
        ensures
            inner == self.0,
    {
        self.0
    }

    /// The payload of a request from what the decoder made of its body:
    /// the decoded value, or `FromDataError` with the decoder's message.
    pub fn from_decoded(decoded: Result<T, String>) -> (r: Result<Json<T>, Error>)
        ensures
            match decoded {
                Ok(inner) => r == Ok::<Json<T>, Error>(Json(inner)),
                Err(text) => r matches Err(e) && e@ == body_failure(text@),
            },
    {
        match decoded {
            Ok(inner) => Ok(Json(inner)),
            Err(text) => Err(Error::FromDataError(text)),
        }
    }
}

/// The failure of a handler whose payload cannot be encoded.
pub open spec fn encode_failure(text: Seq<char>) -> ErrorView {
    ErrorView { kind: ErrorKind::OtherServersFault, text }
}

/// The response for what the encoder made of a payload: the bytes as a
/// JSON response, or the response to `OtherServersFault` with the
/// encoder's message.
pub fn respond_encoded(encoded: Result<Vec<u8>, String>) -> (r: Response)
    ensures
        match encoded {
            Ok(bytes) => r@ == json_response(bytes@),
            Err(text) => r@ == error_response(encode_failure(text@)),
        },
{
    match encoded {
        Ok(bytes) => respond_json(bytes),
        Err(text) => Error::OtherServersFault(text).respond(),
    }
}

impl FromData for Json<Value> {
    /// Decodes the body as JSON.
    fn from_data(buf: &[u8]) -> (r: Result<Self, Error>)
        ensures
            match json_decoded(buf@) {
                Ok(value) => r == Ok::<Json<Value>, Error>(Json(value)),
                Err(e) => r matches Err(f) && f@ == body_failure(json_error_text(e)),
            },
    {
        match decode_json(buf) {
            Ok(value) => Json::from_decoded(Ok(value)),
            Err(e) => Json::from_decoded(Err(describe(&e))),
        }
    }
}

impl Responder for Json<Value> {
    /// Encodes the payload into a JSON response.
    fn respond(self) -> (r: Response)
        ensures
            match json_encoded(self.0) {
                Ok(bytes) => r@ == json_response(bytes),
                Err(e) => r@ == error_response(encode_failure(json_error_text(e))),
            },
    {
        match encode_json(&self.0) {
            Ok(bytes) => respond_encoded(Ok(bytes)),
            Err(e) => respond_encoded(Err(describe(&e))),
        }
    }
}

} // verus!
