//! Timestamps for documents, at millisecond precision.
use vstd::prelude::*;
use std::time::{Duration, SystemTime};

verus! {

#[verifier::external_type_specification]
#[verifier::external_body]
pub struct ExSystemTime(SystemTime);

/// Relies on `SystemTime::now` and `SystemTime::duration_since`: whole
/// milliseconds since the Unix epoch on the system clock, 0 for a clock set
/// before the epoch.
#[verifier::external_body]
fn clock_unix_millis() -> u64 {
    SystemTime::now().duration_since(SystemTime::UNIX_EPOCH).unwrap_or_default().as_millis() as u64
}

/// Relies on `SystemTime::checked_add`: the Unix epoch plus `ms`
/// milliseconds, where the platform can represent it.
#[verifier::external_body]
fn unix_time_from_millis(ms: u64) -> Option<SystemTime> {
    SystemTime::UNIX_EPOCH.checked_add(Duration::from_millis(ms))
}

/// Relies on `SystemTime::UNIX_EPOCH`.
#[verifier::external_body]
fn unix_epoch() -> SystemTime {
    SystemTime::UNIX_EPOCH
}

/// The current time truncated to whole milliseconds, the precision of the
/// timestamps that document ids carry.
pub fn now_millis() -> SystemTime {
    let ms = clock_unix_millis();
    match unix_time_from_millis(ms) {
        Some(t) => t,
        None => unix_epoch(),
    }
}

} // verus!
