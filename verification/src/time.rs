//! Instants are held as milliseconds since the UNIX epoch (UTC).
use chrono::{DateTime, Datelike, TimeZone, Utc};
use vstd::prelude::*;

verus! {

/// The first millisecond chrono can represent: the start of its first day,
/// in the year -262143.
pub const CHRONO_MIN_MILLIS: i64 = -8334601228800000;

/// The last millisecond chrono can represent: the end of its last day, in the
/// year 262142.
pub const CHRONO_MAX_MILLIS: i64 = 8210266876799999;

/// Whether chrono can represent the instant `ms` milliseconds after the epoch.
pub open spec fn chrono_millis_in_range(ms: i64) -> bool {
    CHRONO_MIN_MILLIS <= ms <= CHRONO_MAX_MILLIS
}

/// `Utc.timestamp_millis_opt(ms).single()`: whether chrono can represent the
/// instant. chrono builds it with `DateTime::from_timestamp_millis`, which
/// succeeds exactly for the milliseconds from the start of `NaiveDate::MIN` to
/// the end of `NaiveDate::MAX`; the contract states that range.
#[verifier::external_body]
fn utc_millis_in_range(ms: i64) -> (r: bool)
    ensures
        r == chrono_millis_in_range(ms),
{
    Utc.timestamp_millis_opt(ms).single().is_some()
}

/// The calendar date, in UTC, of the instant `ms` milliseconds after the epoch.
pub uninterp spec fn utc_date_at(ms: i64) -> (i32, u32, u32);

/// `DateTime::from_timestamp_millis(ms)` with its `year()`, `month()` and
/// `day()`. The contract claims that the date is a function of `ms` alone,
/// with the month from 1 to 12 and the day from 1 to 31, as chrono documents;
/// which date it is, is not written out.
#[verifier::external_body]
fn utc_date_of(ms: i64) -> (r: (i32, u32, u32))
    requires
        chrono_millis_in_range(ms),
    ensures
        r == utc_date_at(ms),
        1 <= r.1 <= 12,
        1 <= r.2 <= 31,
{
    let at = DateTime::<Utc>::from_timestamp_millis(ms).unwrap_or_default();
    (at.year(), at.month(), at.day())
}

/// `SystemTime::now().duration_since(UNIX_EPOCH)`: whether the clock reads at
/// or after the epoch, and how many nanoseconds (`as_nanos`) it reads from the
/// epoch, on whichever side. Nothing is claimed of the reading.
#[verifier::external_body]
fn system_clock() -> (bool, u128) {
    match std::time::SystemTime::now().duration_since(std::time::UNIX_EPOCH) {
        Ok(since) => (true, since.as_nanos()),
        Err(before) => (false, before.duration().as_nanos()),
    }
}

/// The system clock in whole milliseconds since the epoch, taken modulo 2^64
/// as a signed number, and 0 when it reads before the epoch.
pub(crate) fn system_now_millis() -> i64 {
    let (after, nanos) = system_clock();
    if after {
        #[verifier::truncate]
        ((nanos / 1_000_000) as i64)
    } else {
        0
    }
}

/// The current time as an instant chrono can represent: the system clock in
/// whole milliseconds (rounded down, also before the epoch), or the epoch
/// when the clock reads beyond chrono's range.
pub(crate) fn utc_now_millis() -> (r: i64)
    ensures
        chrono_millis_in_range(r),
{
    let (after, nanos) = system_clock();
    let limit: u128 = 9_000_000_000_000_000;
    let millis: u128 = if after {
        nanos / 1_000_000
    } else {
        nanos / 1_000_000 + if nanos % 1_000_000 == 0 {
            0
        } else {
            1
        }
    };
    if millis > limit {
        return 0;
    }
    let now: i64 = if after {
        millis as i64
    } else {
        0 - (millis as i64)
    };
    if utc_millis_in_range(now) {
        now
    } else {
        0
    }
}

/// Today's date in UTC, as year, month (1 to 12) and day (1 to 31).
pub(crate) fn utc_today() -> (r: (i32, u32, u32))
    ensures
        1 <= r.1 <= 12,
        1 <= r.2 <= 31,
        exists|now: i64| chrono_millis_in_range(now) && r == utc_date_at(now),
{
    let now = utc_now_millis();
    utc_date_of(now)
}

/// The instant `value` when chrono can represent it, else `now`.
pub open spec fn utc_instant(value: i64, now: i64) -> i64 {
    if chrono_millis_in_range(value) {
        value
    } else {
        now
    }
}

/// The instant `value` milliseconds after the epoch, or `now_ms` when chrono
/// cannot represent it.
pub fn unix_ms_to_utc_at(value: i64, now_ms: i64) -> (r: i64)
    ensures
        r == utc_instant(value, now_ms),
{
    if utc_millis_in_range(value) {
        value
    } else {
        now_ms
    }
}

/// The instant `value` milliseconds after the epoch, or the current time when
/// chrono cannot represent it; either way an instant chrono can represent.
pub fn unix_ms_to_utc(value: i64) -> (r: i64)
    ensures
        chrono_millis_in_range(value) ==> r == value,
        chrono_millis_in_range(r),
{
    if utc_millis_in_range(value) {
        value
    } else {
        utc_now_millis()
    }
}

/// Whole seconds from `instant` to `now` (milliseconds), truncated, never negative.
pub open spec fn elapsed_secs(instant: i64, now: i64) -> int {
    let d = now - instant;
    if d > 0 {
        d / 1000
    } else {
        0
    }
}

pub fn elapsed_secs_between(instant: i64, now: i64) -> (r: u64)
    ensures
        r == elapsed_secs(instant, now),
{
    let d: i128 = now as i128 - instant as i128;
    if d > 0 {
        (d / 1000) as u64
    } else {
        0
    }
}

} // verus!
