//! Wall-clock time for shutdown timestamps.

use vstd::prelude::*;

verus! {

/// Relies on chrono::Utc::now for the current time in milliseconds since
/// the epoch; nothing is assumed of the value, since it depends on the
/// clock.
#[verifier::external_body]
pub fn now_millis() -> u64 {
    chrono::Utc::now().timestamp_millis() as u64
}

} // verus!
