//! Calendar fields of an instant given in milliseconds since the Unix epoch.
use chrono::Datelike;
use vstd::prelude::*;

verus! {

/// The UTC calendar date `(year, month, day)` of the instant `ms`
/// milliseconds after the epoch, or `None` past the range of dates that
/// the calendar library represents.
pub uninterp spec fn utc_date_of(ms: i64) -> Option<(i32, u32, u32)>;

/// Relies on `chrono::DateTime::<Utc>::from_timestamp_millis` and its
/// `Datelike` accessors: the proleptic Gregorian date in UTC, which depends
/// on the instant alone; months count from 1 to 12 and days from 1 to 31.
#[verifier::external_body]
pub(crate) fn utc_date(ms: i64) -> (r: Option<(i32, u32, u32)>)
    ensures
        r == utc_date_of(ms),
        r matches Some(d) ==> 1 <= d.1 <= 12 && 1 <= d.2 <= 31,
{
    match chrono::DateTime::from_timestamp_millis(ms) {
        Some(dt) => Some((dt.year(), dt.month(), dt.day())),
        None => None,
    }
}

/// Milliseconds in one day.
pub const MS_PER_DAY: i64 = 86_400_000;

/// Milliseconds elapsed since the last UTC midnight at the instant `ms`.
pub open spec fn ms_of_day(ms: int) -> int {
    ms % (MS_PER_DAY as int)
}

/// The time of day `(hour, minute, second, millisecond)` at the instant `ms`.
pub open spec fn time_of_day(ms: int) -> (int, int, int, int) {
    let t = ms_of_day(ms);
    (t / 3_600_000, (t / 60_000) % 60, (t / 1000) % 60, t % 1000)
}

/// The time of day `(hour, minute, second, millisecond)` at the instant `ms`.
pub fn time_of_day_at(ms: i64) -> (r: (u32, u32, u32, u32))
    ensures
        (r.0 as int, r.1 as int, r.2 as int, r.3 as int) == time_of_day(ms as int),
        r.0 < 24 && r.1 < 60 && r.2 < 60 && r.3 < 1000,
{
    let rem = ms % MS_PER_DAY;
    let t: i64 = if rem < 0 { rem + MS_PER_DAY } else { rem };
    assert(t as int == ms_of_day(ms as int));
    ((t / 3_600_000) as u32, ((t / 60_000) % 60) as u32, ((t / 1000) % 60) as u32, (t % 1000) as u32)
}

} // verus!
