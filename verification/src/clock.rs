//! The current time, as `chrono` tells it.

use vstd::prelude::*;

verus! {

/// `chrono::DateTime::<Utc>::from` at `std::time::SystemTime` and
/// `chrono::DateTime::timestamp`: the seconds between the Unix epoch and
/// the instant that the system clock tells, negative where the clock
/// stands before the epoch.
///
/// Nothing is promised of the number: the clock may be set to anything and
/// may be set back between two calls.
#[verifier::external_body]
pub(crate) fn unix_now() -> (now: i64) {
    chrono::DateTime::<chrono::Utc>::from(std::time::SystemTime::now()).timestamp()
}

} // verus!
