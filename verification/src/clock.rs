//! Clock access, the only place the library touches wall-clock time. Each
//! function hands back plain values; the verified logic takes them as
//! arguments, so it is proved for every value the clock can produce.

use vstd::prelude::*;
use chrono::{Datelike, TimeZone};

verus! {

/// Relies on chrono's `Utc::now` and `DateTime::timestamp`: the current
/// instant as Unix seconds. Nothing is assumed about the value; callers
/// state what holds of every outcome.
#[verifier::external_body]
pub fn now_unix_seconds() -> i64 {
    chrono::Utc::now().timestamp()
}

/// Relies on chrono's `Utc::now`, `DateTime::date_naive` and `Datelike`:
/// today's civil date in UTC. Every chrono date is a real calendar date
/// with a year well inside the range this library supports.
#[verifier::external_body]
pub fn utc_today() -> (r: (i64, i64, i64))
    ensures
        crate::dates::valid_date(r.0 as int, r.1 as int, r.2 as int),
        -300000 <= r.0 <= 300000,
{
    let d = chrono::Utc::now().date_naive();
    (d.year() as i64, d.month() as i64, d.day() as i64)
}

/// Today's UTC date as a day number, the form the iteration windows take.
pub fn today_day_number() -> (n: i64)
    ensures
        -200_000_000 <= n <= 200_000_000,
{
    let today = utc_today();
    proof {
        crate::dates::lemma_day_number_in_range(
            today.0 as int,
            today.1 as int,
            today.2 as int,
        );
    }
    crate::dates::day_number_from_ymd(today.0, today.1, today.2)
}

/// Relies on chrono's `Local::now`, `DateTime::date_naive` and `Datelike`:
/// today's civil date in the local time zone. Every chrono date is a real
/// calendar date with a year well inside the range this library supports.
#[verifier::external_body]
pub fn local_today() -> (r: (i64, i64, i64))
    ensures
        crate::dates::valid_date(r.0 as int, r.1 as int, r.2 as int),
        -300000 <= r.0 <= 300000,
{
    let d = chrono::Local::now().date_naive();
    (d.year() as i64, d.month() as i64, d.day() as i64)
}

/// Relies on chrono's `NaiveDate::from_ymd_opt`, `Local.from_local_datetime`
/// and `LocalResult::single`: Unix seconds of local midnight of the given
/// civil date, or `None` when the date is outside chrono's range or local
/// midnight is ambiguous or nonexistent in the local time zone.
#[verifier::external_body]
pub fn local_midnight_unix(y: i64, m: i64, d: i64) -> (r: Option<i64>)
    requires
        crate::dates::valid_date(y as int, m as int, d as int),
{
    let date = match chrono::NaiveDate::from_ymd_opt(y as i32, m as u32, d as u32) {
        Some(x) => x,
        None => return None,
    };
    let start_of_day = date.and_time(chrono::NaiveTime::MIN);
    match chrono::Local.from_local_datetime(&start_of_day).single() {
        Some(resolved) => Some(resolved.timestamp()),
        None => None,
    }
}

} // verus!
