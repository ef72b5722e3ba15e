//! The wall clock.

use vstd::prelude::*;

verus! {

/// `Utc::now().timestamp()` of the `chrono` crate: the seconds since the
/// Unix epoch at the moment of the call. Nothing is known of the reading.
#[verifier::external_body]
pub(crate) fn now() -> (seconds: i64) {
    chrono::Utc::now().timestamp()
}

} // verus!
