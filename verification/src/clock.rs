//! Wall-clock time, for the registry's load timestamp.

use std::time::{Duration, SystemTime, SystemTimeError, UNIX_EPOCH};
use vstd::prelude::*;

verus! {

/// `std::time::SystemTime`, carried through as an opaque value.
#[verifier::external_type_specification]
#[verifier::external_body]
pub struct ExSystemTime(SystemTime);

/// `std::time::SystemTimeError`, carried through as an opaque value.
#[verifier::external_type_specification]
#[verifier::external_body]
pub struct ExSystemTimeError(SystemTimeError);

/// `SystemTime::now`: the current wall-clock time. Nothing is stated of it.
#[verifier::external_body]
fn system_now() -> SystemTime {
    SystemTime::now()
}

/// `SystemTime::duration_since(UNIX_EPOCH)`: how long after the Unix epoch
/// `t` lies, or an error when `t` lies before it. Nothing is stated of it.
#[verifier::external_body]
fn since_unix_epoch(t: &SystemTime) -> Result<Duration, SystemTimeError> {
    t.duration_since(UNIX_EPOCH)
}

/// `Duration::as_secs`: the whole seconds of `d`. Nothing is stated of
/// it, as the duration's value is opaque here.
#[verifier::external_body]
fn whole_seconds(d: &Duration) -> u64 {
    d.as_secs()
}

/// `Duration::subsec_millis`: the whole milliseconds of `d` beyond its whole
/// seconds; as its documentation states, always less than one thousand.
#[verifier::external_body]
fn subsecond_millis(d: &Duration) -> (r: u32)
    ensures
        r < 1000,
{
    d.subsec_millis()
}

/// A clock reading as far as the timestamp needs it: how long after the Unix
/// epoch it lies, in whole seconds and the whole milliseconds beyond them
/// (fewer than a thousand), or `None` when it lies before the epoch.
pub open spec fn valid_reading(reading: Option<(u64, u32)>) -> bool {
    reading matches Some((_, millis)) ==> millis < 1000
}

/// The timestamp of a reading: its whole milliseconds since the epoch
/// (`Duration::as_millis` of the time since the epoch), or 0 before it.
pub open spec fn spec_unix_ms(reading: Option<(u64, u32)>) -> int {
    match reading {
        Some((secs, millis)) => secs * 1000 + millis,
        None => 0,
    }
}

/// The timestamp of a clock reading (see `spec_unix_ms`).
pub fn unix_ms(reading: Option<(u64, u32)>) -> (r: u128)
    ensures
        r == spec_unix_ms(reading),
{
    match reading {
        Some((secs, millis)) => secs as u128 * 1000 + millis as u128,
        None => 0,
    }
}

/// Milliseconds since the Unix epoch, or 0 when the clock reads earlier:
/// the timestamp of whatever reading the clock gave.
pub fn now_unix_ms() -> (r: u128)
    ensures
        exists|reading: Option<(u64, u32)>|
            valid_reading(reading) && r == #[trigger] spec_unix_ms(reading),
{
    let now = system_now();
    let reading = match since_unix_epoch(&now) {
        Ok(d) => Some((whole_seconds(&d), subsecond_millis(&d))),
        Err(_) => None,
    };
    let r = unix_ms(reading);
    assert(valid_reading(reading) && r == spec_unix_ms(reading));
    r
}

} // verus!
