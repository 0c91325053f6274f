//! The system clock.
use vstd::prelude::*;

verus! {

/// Reads the system clock: microseconds since the Unix epoch, by
/// `SystemTime::now().duration_since(UNIX_EPOCH)` (0 before the epoch).
/// The time is not stated.
#[verifier::external_body]
pub(crate) fn unix_time_micros() -> (r: u64) {
    std::time::SystemTime::now().duration_since(std::time::UNIX_EPOCH).unwrap_or_default().as_micros() as u64
}

/// Whole seconds since the Unix epoch.
pub(crate) fn now_unix() -> (r: u64)
    ensures
        r <= u64::MAX / 1_000_000,
{
    unix_time_micros() / 1_000_000
}

} // verus!
