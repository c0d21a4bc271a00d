//! The types of other crates that values of this one pass through.

use vstd::prelude::*;
use serde_json::Error as JsonError;

verus! {

/// `serde_json::Value`, any JSON value. Nothing inside it is looked at.
#[verifier::external_type_specification]
#[verifier::external_body]
pub struct ExValue(serde_json::Value);

/// `serde_json::Error`, what decoding and encoding fail with. Nothing
/// inside it is looked at.
#[verifier::external_type_specification]
#[verifier::external_body]
pub struct ExJsonError(JsonError);

} // verus!
