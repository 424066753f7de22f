//! Readings of the system clock.

use vstd::prelude::*;

verus! {

/// The number of whole milliseconds since the Unix epoch, from
/// `std::time::SystemTime::now`. Nothing is claimed of the reading; a clock set
/// before the epoch reads zero.
#[verifier::external_body]
fn system_clock_millis() -> (millis: u64)
{
    std::time::SystemTime::now()
        .duration_since(std::time::UNIX_EPOCH)
        .unwrap_or_default()
        .as_millis() as u64
}

/// The number of whole milliseconds since the Unix epoch.
pub fn now_ms() -> (millis: u64) {
    system_clock_millis()
}

/// The number of whole seconds since the Unix epoch.
pub fn unix_now_secs() -> (secs: u64)
    ensures
        secs <= u64::MAX / 1000,
{
    system_clock_millis() / 1000
}

} // verus!
