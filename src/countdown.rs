//! Countdown timers: which start values are accepted, and how a number of
//! seconds reads on a clock and when spoken.

use chrono::NaiveTime;
use chrono::Timelike;
use vstd::prelude::*;

verus! {

/// The longest countdown, in seconds.
pub const MAX_COUNTDOWN_SECONDS: u32 = 3600;

/// Seconds in a day.
pub const SECONDS_PER_DAY: u32 = 86400;

/// Why a countdown start value is refused.
#[derive(Debug, Clone, Copy, PartialEq, Eq, Structural)]
pub enum CountdownError {
    /// The value is negative.
    TooLow,
    /// The value is above `MAX_COUNTDOWN_SECONDS`.
    AboveMax,
}

/// A number of seconds since midnight as hours, minutes and seconds.
#[derive(Debug, Clone, Copy, PartialEq, Eq, Structural)]
pub struct ClockReading {
    pub hour: u32,
    pub minute: u32,
    pub second: u32,
}

/// How a countdown value is spoken: minutes and seconds while at least a
/// minute of the hour is left, else the seconds alone.
#[derive(Debug, Clone, Copy, PartialEq, Eq, Structural)]
pub enum SpokenTime {
    MinutesSeconds(u32, u32),
    Seconds(u32),
}

/// The clock reading of `seconds` after midnight.
pub open spec fn spec_clock(seconds: nat) -> ClockReading {
    ClockReading {
        hour: (seconds / 3600) as u32,
        minute: ((seconds % 3600) / 60) as u32,
        second: (seconds % 60) as u32,
    }
}

/// Relies on chrono's `NaiveTime::from_num_seconds_from_midnight_opt`, which
/// is `None` exactly from 86400 seconds on (with zero nanoseconds), and on
/// `Timelike::{hour, minute, second}` of the time it builds, which split the
/// seconds into `secs / 3600`, `secs / 60 % 60` and `secs % 60`.
#[verifier::external_body]
fn time_of_day(seconds: u32) -> (r: Option<ClockReading>)
    ensures
        r is Some <==> seconds < 86400,
        r is Some ==> r->Some_0 == spec_clock(seconds as nat),
{
    match NaiveTime::from_num_seconds_from_midnight_opt(seconds, 0) {
        Some(t) => Some(ClockReading { hour: t.hour(), minute: t.minute(), second: t.second() }),
        None => None,
    }
}

/// Accepts a countdown start value from zero to `MAX_COUNTDOWN_SECONDS`.
pub fn countdown_start(value: i32) -> (r: Result<u32, CountdownError>)
    ensures
        value < 0 ==> r == Err::<u32, CountdownError>(CountdownError::TooLow),
        value > MAX_COUNTDOWN_SECONDS ==> r == Err::<u32, CountdownError>(CountdownError::AboveMax),
        0 <= value <= MAX_COUNTDOWN_SECONDS ==> r == Ok::<u32, CountdownError>(value as u32),
{
    if value < 0 {
        Err(CountdownError::TooLow)
    } else if value > MAX_COUNTDOWN_SECONDS as i32 {
        Err(CountdownError::AboveMax)
    } else {
        Ok(value as u32)
    }
}

/// The clock reading of `seconds` after midnight; `None` from a whole day on.
pub fn clock_of(seconds: u32) -> (r: Option<ClockReading>)
    ensures
        r is Some <==> seconds < SECONDS_PER_DAY,
        r is Some ==> r->Some_0 == spec_clock(seconds as nat),
{
    time_of_day(seconds)
}

/// How `seconds` is spoken by the voice countdown.
pub fn spoken_time(seconds: u32) -> (r: SpokenTime)
    requires
        seconds < SECONDS_PER_DAY,
    ensures
        ({
            let c = spec_clock(seconds as nat);
            r == if c.minute > 0 {
                SpokenTime::MinutesSeconds(c.minute, c.second)
            } else {
                SpokenTime::Seconds(c.second)
            }
        }),
{
    let c = clock_of(seconds).unwrap();
    if c.minute > 0 {
        SpokenTime::MinutesSeconds(c.minute, c.second)
    } else {
        SpokenTime::Seconds(c.second)
    }
}

} // verus!
