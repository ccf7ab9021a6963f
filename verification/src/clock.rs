//! The time at which a row is written.

use vstd::prelude::*;

verus! {

/// The current time from `chrono::Utc::now`, as microseconds since the Unix
/// epoch (`DateTime::timestamp_micros`). Trusted; nothing is claimed of the
/// value, which differs from call to call.
#[verifier::external_body]
pub(crate) fn now_micros() -> i64 {
    chrono::Utc::now().timestamp_micros()
}

} // verus!
