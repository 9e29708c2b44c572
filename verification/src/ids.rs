//! Fresh 128-bit identifiers for messages, queries, workers and operator
//! instances.

use vstd::prelude::*;

verus! {

/// Relies on uuid::Uuid::new_v4 for a randomly generated id; nothing is
/// assumed of the value.
#[verifier::external_body]
pub fn new_id() -> u128 {
    uuid::Uuid::new_v4().as_u128()
}

} // verus!
