//! Identifiers and wall-clock readings, taken from outside crates.
use vstd::prelude::*;

verus! {

/// Relies on uuid::Uuid::new_v4 and its hyphenated text form: a fresh random
/// identifier, written as 36 characters.
#[verifier::external_body]
pub(crate) fn new_id() -> (r: String)
    ensures
        r@.len() == 36,
{
    uuid::Uuid::new_v4().to_string()
}

/// Relies on chrono::Utc::now and DateTime::timestamp: the current time in
/// whole seconds since the Unix epoch. Nothing is promised of the value.
#[verifier::external_body]
pub(crate) fn now_seconds() -> (r: i64) {
    chrono::Utc::now().timestamp()
}

} // verus!
