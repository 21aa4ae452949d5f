//! A verified model of a per-account note service guarded by API-key
//! authentication.
//!
//! The library holds the service's logic: the account, key and note model,
//! credential issuance, the authentication middleware's decision, and the
//! note and key operations, each with a contract. Hashing, random
//! identifiers, the clock and scope serialization are calls into outside
//! crates behind trusted wrappers; everything else is verified.

pub mod auth;
pub mod errors;
pub mod hashing;
pub mod ids;
pub mod keys;
pub mod model;
pub mod notes;
pub mod scope;
pub mod text;
