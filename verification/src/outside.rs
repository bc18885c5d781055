//! Declarations of outside types that appear in trusted signatures.

use serde_json::Error as SerdeJsonError;
use vstd::prelude::*;

verus! {

/// `serde_json::Error`, the failure type of structured serialization.
#[verifier::external_type_specification]
#[verifier::external_body]
pub struct ExSerdeJsonError(SerdeJsonError);

} // verus!
