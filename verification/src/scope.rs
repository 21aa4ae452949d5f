//! Serialization of a key's permission scope.
//!
//! The store keeps a scope as one JSON string (a JSON array of strings),
//! the form its schema's `scope` column holds. Encoding and decoding are
//! serde_json's; their results are named `scope_json_of` and
//! `scope_of_json`, and the one fact stated beside the names is the round
//! trip: decoding an encoded scope gives the scope back.

use vstd::prelude::*;

verus! {

/// What `serde_json::to_string` returns on a vector of strings. The result
/// depends on the strings alone.
pub uninterp spec fn scope_json_of(scope: Seq<Seq<char>>) -> Seq<char>;

/// What `serde_json::from_str::<Vec<String>>` returns: the decoded strings,
/// or `None` when the input is not a JSON array of strings. The result
/// depends on the input alone.
pub uninterp spec fn scope_of_json(json: Seq<char>) -> Option<Seq<Seq<char>>>;

#[verifier::external_type_specification]
#[verifier::external_body]
pub struct ExSerdeJsonError(serde_json::Error);

/// Relies on `serde_json::to_string`: on a vector of strings it cannot fail
/// (its writer is an in-memory buffer and string serialization itself never
/// errors), and `serde_json::from_str` decodes its output back to the same
/// vector.
#[verifier::external_body]
pub(crate) fn scope_to_json(scope: &Vec<String>) -> (r: String)
    ensures
        r@ == scope_json_of(scope.deep_view()),
        scope_of_json(r@) == Some(scope.deep_view()),
{
    serde_json::to_string(scope).expect("serializing a vector of strings cannot fail")
}

/// Relies on `serde_json::from_str::<Vec<String>>`: deterministic in its
/// input; succeeds exactly on JSON arrays of strings.
#[verifier::external_body]
pub(crate) fn scope_from_json(json: &str) -> (r: Result<Vec<String>, serde_json::Error>)
    ensures
        r matches Ok(v) ==> scope_of_json(json@) == Some(v.deep_view()),
        r is Err ==> scope_of_json(json@) is None,
{
    serde_json::from_str(json)
}

} // verus!
