//! The wall clock, as far as the build timestamp needs it.

use vstd::prelude::*;
use std::time::{Duration, SystemTime, SystemTimeError, UNIX_EPOCH};

verus! {

/// `std::time::SystemTime`, a reading of the system clock, carried as an
/// opaque value.
#[verifier::external_type_specification]
#[verifier::external_body]
pub struct ExSystemTime(SystemTime);

/// `std::time::SystemTimeError`, what `duration_since` answers where the
/// reading lies before the reference point; carried as an opaque value.
#[verifier::external_type_specification]
#[verifier::external_body]
pub struct ExSystemTimeError(SystemTimeError);

/// `SystemTime::now`: the current reading of the system clock. Nothing is
/// claimed of it.
pub assume_specification[ SystemTime::now ]() -> (t: SystemTime);

/// `Duration::as_secs`: the whole seconds of a duration. Nothing is claimed of
/// the number.
pub assume_specification[ Duration::as_secs ](d: &Duration) -> (s: u64);

/// `SystemTime::duration_since`, asked of the Unix epoch: the time elapsed
/// from the epoch to `t`, or an error where `t` lies before it. Nothing is
/// claimed of either outcome.
#[verifier::external_body]
fn since_epoch(t: &SystemTime) -> (r: Result<Duration, SystemTimeError>) {
    t.duration_since(UNIX_EPOCH)
}

/// The whole seconds from the Unix epoch to now, or `None` where the clock
/// stands before the epoch.
pub(crate) fn unix_seconds() -> (r: Option<u64>) {
    let t = SystemTime::now();
    match since_epoch(&t) {
        Ok(d) => Some(d.as_secs()),
        Err(_) => None,
    }
}

} // verus!
