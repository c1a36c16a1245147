//! The wall clock.
use vstd::prelude::*;

verus! {

/// Calls `SystemTime::elapsed` on `UNIX_EPOCH`: the time since the Unix epoch,
/// taken in whole milliseconds; a clock set before the epoch reads as zero.
/// Nothing is promised about the value.
#[verifier::external_body]
pub(crate) fn unix_ms() -> u64 {
    match std::time::UNIX_EPOCH.elapsed() {
        Ok(elapsed) => elapsed.as_millis() as u64,
        Err(_) => 0,
    }
}

} // verus!
