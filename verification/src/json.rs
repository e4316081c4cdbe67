//! The JSON values that requests and events carry along.

use vstd::prelude::*;

verus! {

/// `serde_json::Value`, a JSON value of any shape. The library stores such
/// values and hands them on; it never looks into one, and nothing is claimed
/// of what one holds.
#[verifier::external_type_specification]
#[verifier::external_body]
pub struct ExValue(serde_json::Value);

} // verus!
