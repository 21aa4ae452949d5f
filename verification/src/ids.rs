//! Fresh identifiers and the clock.
//!
//! Both are sources the library can state nothing deterministic about: a
//! random identifier may repeat, and the clock reads whatever the machine
//! says. Every function that consumes one of these values takes it as an
//! argument and is verified for every value of it.

use vstd::prelude::*;

verus! {

/// Relies on `uuid::Uuid::new_v4` and its display form: a random
/// identifier, rendered as the 36-character hyphenated form. Nothing is
/// promised of which identifier comes back, in particular not that two
/// calls differ.
#[verifier::external_body]
pub(crate) fn new_uuid() -> (r: String)
    ensures
        r@.len() == 36,
{
    uuid::Uuid::new_v4().to_string()
}

/// Relies on `chrono::Utc::now`: the current time as whole seconds since
/// the epoch. Nothing is promised of the value.
#[verifier::external_body]
pub(crate) fn now_timestamp() -> (r: i64)
{
    chrono::Utc::now().timestamp()
}

} // verus!
