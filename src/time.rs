//! Timestamps: the clock, and the normalisation that a stored timestamp
//! goes through when a row is read back.

use vstd::prelude::*;

verus! {

/// Seconds that a stored timestamp stands for, as `i64` division by 1000
/// truncates them (towards zero).
pub open spec fn whole_seconds(ms: int) -> int {
    if ms >= 0 {
        ms / 1000
    } else {
        -((-ms) / 1000)
    }
}

/// The sub-second part in nanoseconds, as the `u32` that the truncating
/// remainder times 1_000_000 becomes under `as u32` (a negative remainder
/// wraps past 2^32 - 10^9).
pub open spec fn wire_nanos(ms: int) -> int {
    if ms >= 0 {
        (ms % 1000) * 1_000_000
    } else if (-ms) % 1000 == 0 {
        0
    } else {
        0x1_0000_0000 - ((-ms) % 1000) * 1_000_000
    }
}

/// How a stored timestamp of `ms` milliseconds may be read back as `r`:
/// unchanged or as the epoch; as the epoch where no date-time stands for it
/// (a negative value with a sub-second part); unchanged within the date-time
/// range otherwise.
pub open spec fn time_read_back(ms: int, r: int) -> bool {
    &&& r == ms || r == 0
    &&& ms < 0 && (-ms) % 1000 != 0 ==> r == 0
    &&& (ms >= 0 || (-ms) % 1000 == 0) && -8_000_000_000_000_000 <= ms <= 8_000_000_000_000_000
        ==> r == ms
}

/// Relies on `chrono::Utc::now` (as `timestamp_millis`): the current time,
/// of which nothing is promised.
#[verifier::external_body]
pub(crate) fn now_millis() -> (r: i64) {
    chrono::Utc::now().timestamp_millis()
}

/// Relies on `chrono::DateTime::<Utc>::from_timestamp`, read back with
/// `timestamp_millis`. Its documentation: `None` for an invalid nanosecond
/// part (at least 2 * 10^9, or at least 10^9 outside the 59th second of a
/// minute) or for seconds out of range, which by its source is beyond some
/// 8.2 * 10^12 seconds either side of the epoch; the value round-trips
/// through `timestamp` and `timestamp_subsec_nanos`.
#[verifier::external_body]
fn datetime_millis(secs: i64, nanos: u32) -> (r: Option<i64>)
    ensures
        nanos >= 2_000_000_000 ==> r is None,
        nanos >= 1_000_000_000 && secs % 60 != 59 ==> r is None,
        nanos < 1_000_000_000 && -8_000_000_000_000 <= secs <= 8_000_000_000_000 ==> r is Some,
        r is Some ==> r->0 == secs * 1000 + nanos / 1_000_000,
{
    chrono::DateTime::<chrono::Utc>::from_timestamp(secs, nanos).map(|d| d.timestamp_millis())
}

/// Reads back a stored timestamp through a date-time: a non-negative value,
/// or a negative whole second, comes back unchanged within the date-time
/// range; a negative value with a sub-second part has no date-time and comes
/// back as the epoch, as does a value beyond that range.
pub fn stored_time(ms: i64) -> (r: i64)
    ensures
        time_read_back(ms as int, r as int),
{
    let m = ms as i128;
    let (secs, nanos): (i64, u32) = if m >= 0 {
        ((m / 1000) as i64, ((m % 1000) * 1_000_000) as u32)
    } else {
        let a: i128 = -m;
        let rem: i128 = a % 1000;
        let nanos: u32 = if rem == 0 {
            0
        } else {
            (0x1_0000_0000i128 - rem * 1_000_000) as u32
        };
        ((-(a / 1000)) as i64, nanos)
    };
    assert(secs == whole_seconds(ms as int) && nanos == wire_nanos(ms as int));
    match datetime_millis(secs, nanos) {
        Some(v) => {
            assert(v == ms);
            v
        },
        None => 0,
    }
}

} // verus!
