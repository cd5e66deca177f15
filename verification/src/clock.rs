//! The clock: wall time and sub-second noise read from std.

use vstd::prelude::*;

verus! {

/// Calls `SystemTime::now()` and returns the nanoseconds within the
/// current second; nothing is promised of the value.
#[verifier::external_body]
pub(crate) fn subsec_nanos_now() -> u32 {
    std::time::SystemTime::now().duration_since(std::time::UNIX_EPOCH).unwrap_or_default().subsec_nanos()
}

/// Calls `SystemTime::now()` and returns the milliseconds since the Unix
/// epoch, saturated to `u64`; nothing is promised of the value.
#[verifier::external_body]
pub(crate) fn unix_millis_now() -> u64 {
    let d = std::time::SystemTime::now().duration_since(std::time::UNIX_EPOCH).unwrap_or_default();
    u64::try_from(d.as_millis()).unwrap_or(u64::MAX)
}

} // verus!
