//! Types of outside crates that values of this crate carry without reading
//! them.
use vstd::prelude::*;

verus! {

/// A parsed cron schedule.
#[verifier::external_type_specification]
#[verifier::external_body]
pub struct ExSchedule(cron::Schedule);

/// A JSON document.
#[verifier::external_type_specification]
#[verifier::external_body]
pub struct ExJsonValue(serde_json::Value);

/// `serde_json::Value::clone` (a derived, field-by-field copy of a JSON
/// tree, which holds no shared or mutable state). Claimed: the copy equals the
/// original.
pub assume_specification[ <serde_json::Value as Clone>::clone ](v: &serde_json::Value) -> (r: serde_json::Value)
    ensures
        r == *v,
;

/// The error of a failed JSON decode.
#[verifier::external_type_specification]
#[verifier::external_body]
pub struct ExJsonError(serde_json::Error);

/// The error of a failed HTTP exchange.
#[verifier::external_type_specification]
#[verifier::external_body]
pub struct ExTransportError(reqwest::Error);

} // verus!
