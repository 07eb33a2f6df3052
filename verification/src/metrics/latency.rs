//! Wall-clock timestamps in microseconds and milliseconds since the Unix epoch.
use std::time::{Duration, SystemTimeError};
use vstd::prelude::*;

verus! {

#[verifier::external_type_specification]
#[verifier::external_body]
pub struct ExSystemTimeError(SystemTimeError);

/// Calls `SystemTime::elapsed` on `UNIX_EPOCH`: the wall-clock time elapsed
/// since 1970-01-01, or an error when the clock stands before that date.
/// Nothing is stated of the result: it is read from the system clock.
#[verifier::external_body]
fn elapsed_since_unix_epoch() -> (r: Result<Duration, SystemTimeError>) {
    std::time::UNIX_EPOCH.elapsed()
}

/// `Duration::as_micros`: the whole number of microseconds in the duration.
/// Nothing is stated of the result, since a `Duration` is opaque here.
pub assume_specification[ core::time::Duration::as_micros ](d: &Duration) -> u128;

/// The microseconds since the Unix epoch that a clock reading gives: the
/// elapsed microseconds saturated at `i64::MAX`, or `0` for a clock that
/// stands before the epoch (`None`).
pub open spec fn clock_micros(elapsed_us: Option<u128>) -> i64 {
    match elapsed_us {
        None => 0,
        Some(u) => if u > i64::MAX {
            i64::MAX
        } else {
            u as i64
        },
    }
}

/// Converts a clock reading to microseconds since the epoch (see
/// [`clock_micros`]).
pub fn micros_since_epoch(elapsed_us: Option<u128>) -> (r: i64)
    ensures
        r == clock_micros(elapsed_us),
{
    match elapsed_us {
        None => 0,
        Some(u) => if u > i64::MAX as u128 {
            i64::MAX
        } else {
            u as i64
        },
    }
}

/// Whole milliseconds in a number of microseconds, truncated toward zero.
pub open spec fn micros_to_millis(us: i64) -> i64 {
    if us >= 0 {
        (us / 1000) as i64
    } else {
        (-((-us) / 1000)) as i64
    }
}

/// Converts microseconds to whole milliseconds (see [`micros_to_millis`]).
pub fn millis_from_micros(us: i64) -> (r: i64)
    ensures
        r == micros_to_millis(us),
{
    us / 1000
}

/// Law: a clock reading in microseconds is never negative, and the same
/// reading in milliseconds is a thousandth of it, truncated: the two differ
/// by less than one millisecond.
pub proof fn law_clock_units(elapsed_us: Option<u128>)
    ensures
        clock_micros(elapsed_us) >= 0,
        0 <= clock_micros(elapsed_us) - 1000 * micros_to_millis(clock_micros(elapsed_us)) < 1000,
        (elapsed_us matches Some(u) && u <= i64::MAX) ==> clock_micros(elapsed_us) == elapsed_us->Some_0,
{
}

/// Microseconds since the Unix epoch: the system clock's reading converted
/// by [`micros_since_epoch`]. Which reading the clock gives is not stated.
pub fn now_us() -> (r: i64)
    ensures
        r >= 0,
        exists|elapsed_us: Option<u128>| r == #[trigger] clock_micros(elapsed_us),
{
    let reading: Option<u128> = match elapsed_since_unix_epoch() {
        Ok(d) => Some(d.as_micros()),
        Err(_) => None,
    };
    micros_since_epoch(reading)
}

/// Milliseconds since the Unix epoch: a [`now_us`] reading divided by
/// 1000, truncated.
pub fn now_ms() -> (r: i64)
    ensures
        r >= 0,
        exists|elapsed_us: Option<u128>| r == micros_to_millis(#[trigger] clock_micros(elapsed_us)),
{
    let us: i64 = now_us();
    millis_from_micros(us)
}

} // verus!
