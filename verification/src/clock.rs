//! Wall-clock time in milliseconds since the Unix epoch.
use vstd::prelude::*;

use std::time::Duration;
use std::time::SystemTime;
use std::time::SystemTimeError;

verus! {

#[verifier::external_type_specification]
#[verifier::external_body]
pub struct ExSystemTime(SystemTime);

#[verifier::external_type_specification]
#[verifier::external_body]
pub struct ExSystemTimeError(SystemTimeError);

/// `SystemTime::now`: the current wall-clock time. Nothing is stated of it: it
/// is whatever the system clock says.
#[verifier::external_body]
fn system_time_now() -> SystemTime {
    SystemTime::now()
}

/// `SystemTime::duration_since` with the Unix epoch: the time elapsed since
/// the epoch, or an error when the time lies before it. Nothing is stated of
/// the outcome, which depends on the clock.
#[verifier::external_body]
fn since_unix_epoch(time: SystemTime) -> Result<Duration, SystemTimeError> {
    time.duration_since(std::time::UNIX_EPOCH)
}

/// The whole milliseconds in a duration, as `Duration::as_millis` counts them.
/// It depends on the duration alone.
pub uninterp spec fn duration_ms(d: Duration) -> u128;

/// `Duration::as_millis`: the whole milliseconds in a duration. The contract
/// claims only that the result is `duration_ms` of the duration.
#[verifier::external_body]
fn duration_millis(d: &Duration) -> (ms: u128)
    ensures
        ms == duration_ms(*d),
{
    d.as_millis()
}

/// The timestamp for a clock reading: the milliseconds since the epoch,
/// truncated to `i64`, or 0 when the clock lies before the epoch (`None`).
pub open spec fn epoch_ms_value(millis: Option<u128>) -> i64 {
    match millis {
        Some(m) => m as i64,
        None => 0,
    }
}

/// Turns a clock reading into a timestamp.
pub fn epoch_ms_from(millis: Option<u128>) -> (ms: i64)
    ensures
        ms == epoch_ms_value(millis),
{
    match millis {
        Some(m) => m as i64,
        None => 0,
    }
}

/// The timestamp for the time elapsed since the Unix epoch: 0 when the time
/// lies before the epoch (`Err`); otherwise the whole milliseconds of the
/// duration, truncated to `i64`.
pub fn epoch_ms_of_reading(reading: Result<Duration, SystemTimeError>) -> (ms: i64)
    ensures
        ms == match reading {
            Ok(d) => epoch_ms_value(Some(duration_ms(d))),
            Err(_) => epoch_ms_value(None),
        },
{
    let millis = match reading {
        Ok(d) => Some(duration_millis(&d)),
        Err(_) => None,
    };
    epoch_ms_from(millis)
}

/// The current time in milliseconds since the Unix epoch, 0 when the clock
/// lies before the epoch. The reading comes from the system clock, so no
/// clause names it; `epoch_ms_of_reading` states what each reading gives.
pub fn now_epoch_ms() -> i64 {
    epoch_ms_of_reading(since_unix_epoch(system_time_now()))
}

} // verus!
