//! Civil (proleptic Gregorian) date arithmetic over plain integers.
//!
//! A date is a triple `(year, month, day)`; `day_number` maps it to the
//! number of days since 1970-01-01, which is day 0. All iteration-window
//! comparisons are done on day numbers.

use vstd::prelude::*;

verus! {

/// Years whose civil dates this module handles; wide enough for every date
/// a board can carry, narrow enough that day arithmetic cannot overflow.
pub const MIN_YEAR: i64 = -400000;
pub const MAX_YEAR: i64 = 400000;

/// A year with 366 days in the proleptic Gregorian calendar.
pub open spec fn is_leap_year(y: int) -> bool {
    (y % 4 == 0 && y % 100 != 0) || y % 400 == 0
}

pub open spec fn days_in_month(y: int, m: int) -> int {
    if m == 2 {
        if is_leap_year(y) {
            29
        } else {
            28
        }
    } else if m == 4 || m == 6 || m == 9 || m == 11 {
        30
    } else {
        31
    }
}

/// A well-formed civil date within the supported year range.
pub open spec fn valid_date(y: int, m: int, d: int) -> bool {
    &&& MIN_YEAR <= y <= MAX_YEAR
    &&& 1 <= m <= 12
    &&& 1 <= d <= days_in_month(y, m)
}

/// Days since 1970-01-01 (Howard Hinnant's `days_from_civil` formula,
/// restated over unbounded integers; division is Euclidean).
pub open spec fn day_number(y: int, m: int, d: int) -> int {
    let yy = if m <= 2 { y - 1 } else { y };
    let era = yy / 400;
    let yoe = yy - era * 400;
    let mp = if m > 2 { m - 3 } else { m + 9 };
    let doy = (153 * mp + 2) / 5 + d - 1;
    let doe = yoe * 365 + yoe / 4 - yoe / 100 + doy;
    era * 146097 + doe - 719468
}

pub fn leap_year(y: i64) -> (r: bool)
    ensures
        r == is_leap_year(y as int),
{
    (y % 4 == 0 && y % 100 != 0) || y % 400 == 0
}

pub fn month_length(y: i64, m: i64) -> (r: i64)
    requires
        1 <= m <= 12,
    ensures
        r == days_in_month(y as int, m as int),
{
    if m == 2 {
        if leap_year(y) {
            29
        } else {
            28
        }
    } else if m == 4 || m == 6 || m == 9 || m == 11 {
        30
    } else {
        31
    }
}

pub fn is_valid_date(y: i64, m: i64, d: i64) -> (r: bool)
    ensures
        r == valid_date(y as int, m as int, d as int),
{
    MIN_YEAR <= y && y <= MAX_YEAR && 1 <= m && m <= 12 && 1 <= d && d <= month_length(y, m)
}

/// Day numbers of all supported dates stay far inside `i64` range, so day
/// arithmetic in window checks cannot overflow.
pub proof fn lemma_day_number_in_range(y: int, m: int, d: int)
    requires
        valid_date(y, m, d),
    ensures
        -200_000_000 <= day_number(y, m, d) <= 200_000_000,
{
    let yy = if m <= 2 { y - 1 } else { y };
    let era = yy / 400;
    assert(yy == 400 * era + yy % 400);
    assert(0 <= yy % 400 < 400);
    assert(-1002 <= era <= 1001);
    let yoe = yy - era * 400;
    let mp = if m > 2 { m - 3 } else { m + 9 };
    assert(0 <= mp <= 11);
    assert((153 * mp + 2) / 5 <= 337);
    assert((153 * mp + 2) / 5 >= 0);
}

/// The civil date one day earlier.
pub open spec fn prev_day(date: (int, int, int)) -> (int, int, int) {
    let (y, m, d) = date;
    if d > 1 {
        (y, m, d - 1)
    } else if m > 1 {
        (y, m - 1, days_in_month(y, m - 1))
    } else {
        (y - 1, 12, 31)
    }
}

/// The civil date `k` days earlier.
pub open spec fn back_days(date: (int, int, int), k: nat) -> (int, int, int)
    decreases k,
{
    if k == 0 {
        date
    } else {
        prev_day(back_days(date, (k - 1) as nat))
    }
}

pub fn prev_civil_day(y: i64, m: i64, d: i64) -> (r: (i64, i64, i64))
    requires
        valid_date(y as int, m as int, d as int),
        y > MIN_YEAR,
    ensures
        (r.0 as int, r.1 as int, r.2 as int) == prev_day((y as int, m as int, d as int)),
        valid_date(r.0 as int, r.1 as int, r.2 as int),
{
    if d > 1 {
        (y, m, d - 1)
    } else if m > 1 {
        (y, m - 1, month_length(y, m - 1))
    } else {
        (y - 1, 12, 31)
    }
}

/// Day number of a civil date, counted from 1970-01-01 as day 0.
pub fn day_number_from_ymd(y: i64, m: i64, d: i64) -> (n: i64)
    requires
        valid_date(y as int, m as int, d as int),
    ensures
        n == day_number(y as int, m as int, d as int),
{
    let yy: i64 = if m <= 2 { y - 1 } else { y };
    let era: i64 = match yy.checked_div_euclid(400) {
        Some(e) => e,
        None => 0,
    };
    assert(era == yy as int / 400);
    assert(0 <= yy - era * 400 < 400) by {
        assert(yy as int % 400 == yy - (yy as int / 400) * 400);
    }
    let yoe: u64 = (yy - era * 400) as u64;
    let mp: u64 = (if m > 2 { m - 3 } else { m + 9 }) as u64;
    let doy: u64 = (153 * mp + 2) / 5 + (d as u64) - 1;
    let doe: u64 = yoe * 365 + yoe / 4 - yoe / 100 + doy;
    era * 146097 + (doe as i64) - 719468
}

/// The civil date written in `s` as `YYYY-MM-DD`, when `s` has exactly that
/// shape and the date is a real calendar date.
pub open spec fn iso_date_of(s: Seq<char>) -> Option<(int, int, int)> {
    if s.len() == 10 && s[4] == '-' && s[7] == '-' && crate::strutil::all_digits(
        s.subrange(0, 4),
    ) && crate::strutil::all_digits(s.subrange(5, 7)) && crate::strutil::all_digits(
        s.subrange(8, 10),
    ) {
        let y = crate::strutil::digits_val(s.subrange(0, 4));
        let m = crate::strutil::digits_val(s.subrange(5, 7));
        let d = crate::strutil::digits_val(s.subrange(8, 10));
        if valid_date(y, m, d) {
            Some((y, m, d))
        } else {
            None
        }
    } else {
        None
    }
}

pub fn parse_iso_date(s: &str) -> (r: Option<(i64, i64, i64)>)
    ensures
        r is Some <==> iso_date_of(s@) is Some,
        r matches Some(t) ==> iso_date_of(s@) == Some((t.0 as int, t.1 as int, t.2 as int)),
        r matches Some(t) ==> valid_date(t.0 as int, t.1 as int, t.2 as int),
{
    proof {
        assert(crate::strutil::pow10(0) == 1);
        assert(crate::strutil::pow10(1) == 10);
        assert(crate::strutil::pow10(2) == 100);
        assert(crate::strutil::pow10(3) == 1000);
        assert(crate::strutil::pow10(4) == 10000);
    }
    let n = s.unicode_len();
    if n != 10 {
        return None;
    }
    if s.get_char(4) != '-' || s.get_char(7) != '-' {
        return None;
    }
    let ys = s.substring_char(0, 4);
    let ms = s.substring_char(5, 7);
    let ds = s.substring_char(8, 10);
    proof {
        assert(ys@ =~= s@.subrange(0, 4));
        assert(ms@ =~= s@.subrange(5, 7));
        assert(ds@ =~= s@.subrange(8, 10));
    }
    let yv = match crate::strutil::parse_digits_u64(ys, 99999) {
        Some(v) => v,
        None => {
            proof {
                if crate::strutil::all_digits(ys@) {
                    crate::strutil::lemma_digits_val_upper(ys@);
                }
            }
            return None;
        },
    };
    let mv = match crate::strutil::parse_digits_u64(ms, 99999) {
        Some(v) => v,
        None => {
            proof {
                if crate::strutil::all_digits(ms@) {
                    crate::strutil::lemma_digits_val_upper(ms@);
                }
            }
            return None;
        },
    };
    let dv = match crate::strutil::parse_digits_u64(ds, 99999) {
        Some(v) => v,
        None => {
            proof {
                if crate::strutil::all_digits(ds@) {
                    crate::strutil::lemma_digits_val_upper(ds@);
                }
            }
            return None;
        },
    };
    proof {
        crate::strutil::lemma_digits_val_upper(ys@);
        crate::strutil::lemma_digits_val_upper(ms@);
        crate::strutil::lemma_digits_val_upper(ds@);
    }
    let y: i64 = yv as i64;
    let m: i64 = mv as i64;
    let d: i64 = dv as i64;
    if is_valid_date(y, m, d) {
        Some((y, m, d))
    } else {
        None
    }
}

} // verus!
