//! The wall clock.

use crate::error::{DeltaError, DeltaResult, ErrorView};
use std::time::{Duration, SystemTimeError};
use vstd::prelude::*;

verus! {

/// The error of `SystemTime` arithmetic.
#[verifier::external_type_specification]
#[verifier::external_body]
pub struct ExSystemTimeError(SystemTimeError);

/// Calls `std::time::SystemTime::elapsed` on the Unix epoch: the time since then, or an error if
/// the clock stands before it. What the clock shows is not a function of anything, so nothing is
/// claimed of the result.
#[verifier::external_body]
fn since_unix_epoch() -> (r: Result<Duration, SystemTimeError>) {
    std::time::UNIX_EPOCH.elapsed()
}

/// Specifies `std::time::Duration::as_millis`: the whole milliseconds of a duration. Nothing is
/// claimed of the number, which stems from the clock.
pub assume_specification[ Duration::as_millis ](d: &Duration) -> (r: u128);

/// The error of a clock that stands before the Unix epoch.
pub open spec fn clock_too_early() -> ErrorView {
    ErrorView::Generic("The system clock is before the Unix epoch"@)
}

/// The error of a clock whose milliseconds since the Unix epoch need more than 64 bits.
pub open spec fn clock_too_late() -> ErrorView {
    ErrorView::Generic("The current timestamp exceeds the range of 64-bit milliseconds"@)
}

/// The milliseconds of a clock reading as a signed 64-bit number.
pub fn timestamp_ms(millis: u128) -> (r: DeltaResult<i64>)
    ensures
        match r {
            Ok(t) => t == millis,
            Err(e) => millis > i64::MAX && e@ == clock_too_late(),
        },
{
    if millis > i64::MAX as u128 {
        Err(DeltaError::generic("The current timestamp exceeds the range of 64-bit milliseconds"))
    } else {
        Ok(millis as i64)
    }
}

/// Whether a result is the timestamp of a clock reading: the whole milliseconds since the Unix
/// epoch if they fit, and the clock's own error if it stands before the epoch.
pub open spec fn is_timestamp_of(
    r: DeltaResult<i64>,
    reading: Result<Duration, SystemTimeError>,
) -> bool {
    match reading {
        Ok(elapsed) => exists|millis: u128|
            #[trigger] call_ensures(Duration::as_millis, (&elapsed,), millis) && match r {
                Ok(t) => t == millis,
                Err(e) => millis > i64::MAX && e@ == clock_too_late(),
            },
        Err(_) => r matches Err(e) && e@ == clock_too_early(),
    }
}

/// Whether the clock can give this reading of the time since the Unix epoch.
pub closed spec fn clock_can_show(reading: Result<Duration, SystemTimeError>) -> bool {
    call_ensures(since_unix_epoch, (), reading)
}

/// Whether a result is the timestamp of a reading that the clock can give.
pub open spec fn is_now(now: DeltaResult<i64>) -> bool {
    exists|reading: Result<Duration, SystemTimeError>| #[trigger]
        clock_can_show(reading) && is_timestamp_of(now, reading)
}

/// The timestamp of a clock reading, whatever it is.
pub fn timestamp_of(reading: Result<Duration, SystemTimeError>) -> (r: DeltaResult<i64>)
    ensures
        is_timestamp_of(r, reading),
{
    match reading {
        Ok(elapsed) => timestamp_ms(elapsed.as_millis()),
        Err(_) => Err(DeltaError::generic("The system clock is before the Unix epoch")),
    }
}

/// The current time in milliseconds since the Unix epoch: the timestamp of what the clock shows.
pub fn current_time_ms() -> (r: DeltaResult<i64>)
    ensures
        is_now(r),
        match r {
            Ok(t) => t >= 0,
            Err(e) => e@ == clock_too_early() || e@ == clock_too_late(),
        },
{
    let reading = since_unix_epoch();
    assert(clock_can_show(reading));
    timestamp_of(reading)
}

/// A time is the timestamp of a reading only if the clock stood after the Unix epoch and the
/// reading has that many milliseconds; a clock before the epoch gives an error, and nothing else.
pub proof fn law_timestamps_are_what_the_clock_showed(
    r: DeltaResult<i64>,
    reading: Result<Duration, SystemTimeError>,
)
    requires
        is_timestamp_of(r, reading),
    ensures
        reading is Err <==> (r matches Err(e) && e@ == clock_too_early()),
        r matches Ok(t) ==> reading matches Ok(elapsed) && exists|millis: u128|
            #[trigger] call_ensures(Duration::as_millis, (&elapsed,), millis) && millis == t,
        r matches Err(e) ==> reading matches Ok(elapsed) ==> exists|millis: u128|
            #[trigger] call_ensures(Duration::as_millis, (&elapsed,), millis) && millis > i64::MAX,
        clock_can_show(reading) ==> is_now(r),
        clock_too_early() != clock_too_late(),
{
    lemma_clock_errors_differ();
}

/// A result is of now exactly if it is the timestamp of a reading that the clock can give.
pub proof fn law_now_is_read_off_the_clock(r: DeltaResult<i64>)
    ensures
        is_now(r) <==> exists|reading: Result<Duration, SystemTimeError>| #[trigger]
            clock_can_show(reading) && is_timestamp_of(r, reading),
{
}

/// The clock can give exactly the readings that a call of it can return.
proof fn law_the_clock_shows_what_its_call_returns(reading: Result<Duration, SystemTimeError>)
    ensures
        clock_can_show(reading) <==> call_ensures(since_unix_epoch, (), reading),
{
}

proof fn lemma_clock_errors_differ()
    ensures
        clock_too_early() != clock_too_late(),
{
    reveal_strlit("The system clock is before the Unix epoch");
    reveal_strlit("The current timestamp exceeds the range of 64-bit milliseconds");
    assert("The system clock is before the Unix epoch"@.len() == 41);
    assert("The current timestamp exceeds the range of 64-bit milliseconds"@.len() == 62);
}

} // verus!
