//! Decoding the body of a request into the payload a handler declares.

use vstd::prelude::*;
use vstd::string::StringExecFns;
use crate::errors::{Error, ErrorKind, ErrorView};

verus! {

/// A payload that can be decoded from the bytes of a request body.
pub trait FromData: Sized {
    /// Decodes the payload.
    fn from_data(buf: &[u8]) -> Result<Self, Error>;
}

impl FromData for () {
    /// The payload of the routes that declare no body: nothing is decoded.
    fn from_data(buf: &[u8]) -> (r: Result<Self, Error>)
        ensures
            r == Ok::<(), Error>(()),
    {
        Ok(())
    }
}

/// The failure that a request meets when its body cannot be read or
/// decoded: `FromDataError` with the given description.
pub open spec fn body_failure(text: Seq<char>) -> ErrorView {
    ErrorView { kind: ErrorKind::FromDataError, text }
}

/// The failure of a request whose body the transport could not read.
pub fn unread_body(text: String) -> (e: Error)
    ensures
        e@ == body_failure(text@),
{
    Error::FromDataError(text)
}

/// Whether `r` is what the body stage gives for what the decoder
/// returned: the payload, or `FromDataError` with the text of the
/// decoder's failure.
pub open spec fn body_stage<T>(decoded: Result<T, Error>, r: Result<T, Error>) -> bool {
    match decoded {
        Ok(payload) => r == Ok::<T, Error>(payload),
        Err(e) => r matches Err(f) && f@ == body_failure(e@.text),
    }
}

/// What the body stage gives for what the decoder returned.
pub fn decoded_body<T>(decoded: Result<T, Error>) -> (r: Result<T, Error>)
    ensures
        body_stage(decoded, r),
{
    match decoded {
        Ok(payload) => Ok(payload),
        Err(e) => Err(Error::FromDataError(String::from_str(e.text()))),
    }
}

/// The body stage for a body that the transport has read, or failed to
/// read: a body that could not be read fails the request with
/// `FromDataError` and the transport's description; one that was read is
/// handed to the payload's decoder, and what the decoder returns decides
/// as [`decoded_body`] says.
pub fn from_data_req<T: FromData>(body: Result<Vec<u8>, String>) -> (r: Result<T, Error>)
    ensures
        match body {
            Ok(bytes) => exists|buf: &[u8], decoded: Result<T, Error>|
                buf@ == bytes@ && call_ensures(T::from_data, (buf,), decoded) && body_stage(
                    decoded,
                    r,
                ),
            Err(text) => r matches Err(f) && f@ == body_failure(text@),
        },
{
    match body {
        Ok(bytes) => {
            let decoded = T::from_data(bytes.as_slice());
            decoded_body(decoded)
        },
        Err(text) => Err(unread_body(text)),
    }
}

} // verus!
