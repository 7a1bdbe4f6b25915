//! Elapsed-time filter parsing: turns a human-friendly expression into an
//! absolute instant (Unix seconds). Issues closed at or after the instant
//! pass the filter.
//!
//! Recognized forms, case-insensitively and ignoring surrounding
//! whitespace: the keywords `today`, `yesterday`, `this-week` and
//! `this-month`, and relative durations such as `7d`, `24h`, `30m` or
//! `2w`. Parsing is pure and fully specified; only the final step — the
//! current instant, and local midnight of a civil date — goes through the
//! clock.

use vstd::prelude::*;
use crate::dates::{
    back_days,
    day_number,
    day_number_from_ymd,
    prev_civil_day,
    prev_day,
    valid_date,
    MIN_YEAR,
};
use crate::strutil::{eq_lowered, lower, lower_char, parse_i64_spec, parse_i64_str, trim_ascii, trimmed};
use crate::clock;

verus! {

/// A parsed time filter, before the clock is consulted.
#[derive(Debug, Clone, Copy, PartialEq, Eq, Structural)]
pub enum TimeSpec {
    Today,
    Yesterday,
    ThisWeek,
    ThisMonth,
    /// The instant this many seconds before now.
    Ago { seconds: i64 },
}

#[derive(Debug, Clone, Copy, PartialEq, Eq, Structural)]
pub enum TimeFilterError {
    /// The input matches none of the supported formats.
    Unrecognized,
    /// The requested instant leaves the representable range.
    OutOfRange,
    /// Local midnight of the target date is ambiguous or nonexistent.
    InvalidLocalTime,
}

/// The canonical form of an input: trimmed, then ASCII-lowered.
pub open spec fn canon(s: Seq<char>) -> Seq<char> {
    lower(trimmed(s))
}

pub open spec fn is_ascii_alpha(c: char) -> bool {
    (97 <= c as u32 <= 122) || (65 <= c as u32 <= 90)
}

/// Index of the first ASCII letter in `s`, or `s.len()` if there is none;
/// the split point between a duration's count and its unit.
pub open spec fn first_alpha(s: Seq<char>) -> int
    decreases s.len(),
{
    if s.len() == 0 {
        0
    } else if is_ascii_alpha(s[0]) {
        0
    } else {
        1 + first_alpha(s.drop_first())
    }
}

pub proof fn lemma_first_alpha_bounds(s: Seq<char>)
    ensures
        0 <= first_alpha(s) <= s.len(),
        first_alpha(s) < s.len() ==> is_ascii_alpha(s[first_alpha(s)]),
        forall|j: int| 0 <= j < first_alpha(s) ==> !is_ascii_alpha(s[j]),
    decreases s.len(),
{
    if s.len() == 0 {
    } else if is_ascii_alpha(s[0]) {
    } else {
        lemma_first_alpha_bounds(s.drop_first());
        assert forall|j: int| 0 <= j < first_alpha(s) implies !is_ascii_alpha(s[j]) by {
            if j > 0 {
                assert(!is_ascii_alpha(s.drop_first()[j - 1]));
            }
        }
    }
}

/// Lowering moves no letters in or out of the letter range, so the split
/// point of a duration is the same before and after lowering.
pub proof fn lemma_first_alpha_lower(s: Seq<char>)
    ensures
        first_alpha(lower(s)) == first_alpha(s),
    decreases s.len(),
{
    if s.len() > 0 {
        assert(lower(s)[0] == lower_char(s[0]));
        if !is_ascii_alpha(s[0]) {
            assert(lower(s).drop_first() =~= lower(s.drop_first()));
            lemma_first_alpha_lower(s.drop_first());
        }
    }
}

fn find_alpha(s: &str) -> (i: usize)
    ensures
        i as int == first_alpha(s@),
    decreases s@.len(),
{
    proof {
        lemma_first_alpha_bounds(s@);
    }
    let n = s.unicode_len();
    if n == 0 {
        return 0;
    }
    let c: u32 = s.get_char(0) as u32;
    if (97 <= c && c <= 122) || (65 <= c && c <= 90) {
        0
    } else {
        let rest = s.substring_char(1, n);
        proof {
            assert(rest@ =~= s@.drop_first());
            lemma_first_alpha_bounds(rest@);
        }
        1 + find_alpha(rest)
    }
}

/// Seconds in one unit of a duration expression, written lower-case.
pub open spec fn unit_seconds(u: Seq<char>) -> Option<int> {
    if u == "d"@ || u == "day"@ || u == "days"@ {
        Some(86400)
    } else if u == "h"@ || u == "hour"@ || u == "hours"@ {
        Some(3600)
    } else if u == "m"@ || u == "min"@ || u == "mins"@ || u == "minute"@ || u == "minutes"@ {
        Some(60)
    } else if u == "w"@ || u == "week"@ || u == "weeks"@ {
        Some(604800)
    } else {
        None
    }
}

/// Total seconds of a canonical duration expression `<count><unit>`, when
/// it has that shape and the total fits the representable range.
pub open spec fn duration_secs_of(s: Seq<char>) -> Option<int> {
    let i = first_alpha(s);
    let num = s.subrange(0, i);
    let unit = s.subrange(i, s.len() as int);
    match parse_i64_spec(num) {
        Some(count) => match unit_seconds(unit) {
            Some(mult) => {
                if i64::MIN <= count * mult <= i64::MAX {
                    Some(count * mult)
                } else {
                    None
                }
            },
            None => None,
        },
        None => None,
    }
}

/// What a canonical (trimmed, lowered) input denotes, if anything.
pub open spec fn time_spec_of(c: Seq<char>) -> Option<TimeSpec> {
    if c == "yesterday"@ {
        Some(TimeSpec::Yesterday)
    } else if c == "today"@ {
        Some(TimeSpec::Today)
    } else if c == "this-week"@ {
        Some(TimeSpec::ThisWeek)
    } else if c == "this-month"@ {
        Some(TimeSpec::ThisMonth)
    } else {
        match duration_secs_of(c) {
            Some(secs) => Some(TimeSpec::Ago { seconds: secs as i64 }),
            None => None,
        }
    }
}

fn unit_mult(u: &str) -> (r: Option<i64>)
    ensures
        r matches Some(v) ==> unit_seconds(lower(u@)) == Some(v as int),
        r is None ==> unit_seconds(lower(u@)) is None,
{
    if eq_lowered(u, "d") || eq_lowered(u, "day") || eq_lowered(u, "days") {
        Some(86400)
    } else if eq_lowered(u, "h") || eq_lowered(u, "hour") || eq_lowered(u, "hours") {
        Some(3600)
    } else if eq_lowered(u, "m") || eq_lowered(u, "min") || eq_lowered(u, "mins") || eq_lowered(
        u,
        "minute",
    ) || eq_lowered(u, "minutes") {
        Some(60)
    } else if eq_lowered(u, "w") || eq_lowered(u, "week") || eq_lowered(u, "weeks") {
        Some(604800)
    } else {
        None
    }
}

/// Parses a time filter up to the point where the clock would be needed.
pub fn parse_time_spec(input: &str) -> (r: Result<TimeSpec, TimeFilterError>)
    ensures
        r matches Ok(ts) ==> time_spec_of(canon(input@)) == Some(ts),
        r matches Err(e) ==> time_spec_of(canon(input@)) is None && e
            == TimeFilterError::Unrecognized,
{
    let t = trim_ascii(input);
    if eq_lowered(t, "yesterday") {
        return Ok(TimeSpec::Yesterday);
    }
    if eq_lowered(t, "today") {
        return Ok(TimeSpec::Today);
    }
    if eq_lowered(t, "this-week") {
        return Ok(TimeSpec::ThisWeek);
    }
    if eq_lowered(t, "this-month") {
        return Ok(TimeSpec::ThisMonth);
    }
    let n = t.unicode_len();
    let i = find_alpha(t);
    proof {
        lemma_first_alpha_bounds(t@);
        lemma_first_alpha_lower(t@);
        assert(canon(input@) == lower(t@));
        assert(lower(t@).subrange(0, i as int) =~= t@.subrange(0, i as int));
        assert(lower(t@).subrange(i as int, n as int) =~= lower(
            t@.subrange(i as int, n as int),
        ));
    }
    let num = t.substring_char(0, i);
    let unit = t.substring_char(i, n);
    let count = match parse_i64_str(num) {
        Some(v) => v,
        None => {
            return Err(TimeFilterError::Unrecognized);
        },
    };
    let mult = match unit_mult(unit) {
        Some(v) => v,
        None => {
            return Err(TimeFilterError::Unrecognized);
        },
    };
    match count.checked_mul(mult) {
        Some(secs) => Ok(TimeSpec::Ago { seconds: secs }),
        None => Err(TimeFilterError::Unrecognized),
    }
}

/// Days back from `date` to the Monday on or before it.
pub open spec fn days_to_monday(date: (int, int, int)) -> int {
    (day_number(date.0, date.1, date.2) + 3) % 7
}

/// The civil date whose local midnight a keyword filter denotes, given
/// today's civil date.
pub open spec fn target_date(ts: TimeSpec, today: (int, int, int)) -> (int, int, int) {
    match ts {
        TimeSpec::Today => today,
        TimeSpec::Yesterday => prev_day(today),
        TimeSpec::ThisWeek => back_days(today, days_to_monday(today) as nat),
        TimeSpec::ThisMonth => (today.0, today.1, 1),
        TimeSpec::Ago { .. } => today,
    }
}

/// Computes the target civil date of a keyword filter.
pub fn keyword_target_date(ts: &TimeSpec, y: i64, m: i64, d: i64) -> (r: (i64, i64, i64))
    requires
        !(ts matches TimeSpec::Ago { .. }),
        valid_date(y as int, m as int, d as int),
        y >= MIN_YEAR + 2,
    ensures
        (r.0 as int, r.1 as int, r.2 as int) == target_date(*ts, (y as int, m as int, d as int)),
        valid_date(r.0 as int, r.1 as int, r.2 as int),
{
    match ts {
        TimeSpec::Today => (y, m, d),
        TimeSpec::Yesterday => prev_civil_day(y, m, d),
        TimeSpec::ThisMonth => (y, m, 1),
        TimeSpec::ThisWeek => {
            let dn = day_number_from_ymd(y, m, d);
            proof {
                crate::dates::lemma_day_number_in_range(y as int, m as int, d as int);
            }
            let dsm_i: i64 = match (dn + 3).checked_rem_euclid(7) {
                Some(v) => v,
                None => 0,
            };
            assert(dsm_i == (dn + 3) as int % 7);
            let dsm: usize = dsm_i as usize;
            let mut cy: i64 = y;
            let mut cm: i64 = m;
            let mut cd: i64 = d;
            let mut j: usize = 0;
            while j < dsm
                invariant
                    j <= dsm,
                    dsm <= 6,
                    valid_date(cy as int, cm as int, cd as int),
                    valid_date(y as int, m as int, d as int),
                    y >= MIN_YEAR + 2,
                    (cy as int, cm as int, cd as int) == back_days(
                        (y as int, m as int, d as int),
                        j as nat,
                    ),
                    cy == y || (cy == y - 1 && cm == 12 && cd >= 31 - j),
                decreases dsm - j,
            {
                let stepped = prev_civil_day(cy, cm, cd);
                proof {
                    assert(back_days((y as int, m as int, d as int), (j + 1) as nat) == prev_day(
                        back_days((y as int, m as int, d as int), j as nat),
                    ));
                }
                cy = stepped.0;
                cm = stepped.1;
                cd = stepped.2;
                j = j + 1;
            }
            (cy, cm, cd)
        },
        TimeSpec::Ago { .. } => (y, m, d),
    }
}

/// The instant `seconds` before `now`, when it is representable.
pub fn ago_instant(now: i64, seconds: i64) -> (r: Option<i64>)
    ensures
        r matches Some(v) ==> v == now - seconds,
        r is None <==> !(i64::MIN <= now - seconds <= i64::MAX),
{
    now.checked_sub(seconds)
}

/// Parses a time filter and anchors it to the clock: the current instant
/// for durations, local midnight of the target date for keywords.
pub fn parse_time_filter(input: &str) -> (r: Result<i64, TimeFilterError>)
    ensures
        r == Err::<i64, TimeFilterError>(TimeFilterError::Unrecognized) <==> time_spec_of(
            canon(input@),
        ) is None,
        r == Err::<i64, TimeFilterError>(TimeFilterError::OutOfRange) ==> time_spec_of(
            canon(input@),
        ) matches Some(TimeSpec::Ago { .. }),
        r == Err::<i64, TimeFilterError>(TimeFilterError::InvalidLocalTime) ==> (time_spec_of(
            canon(input@),
        ) matches Some(ts) && !(ts matches TimeSpec::Ago { .. })),
{
    let ts = match parse_time_spec(input) {
        Ok(t) => t,
        Err(e) => {
            return Err(e);
        },
    };
    match ts {
        TimeSpec::Ago { seconds } => {
            let now = clock::now_unix_seconds();
            match ago_instant(now, seconds) {
                Some(v) => Ok(v),
                None => Err(TimeFilterError::OutOfRange),
            }
        },
        _ => {
            let today = clock::local_today();
            let tgt = keyword_target_date(&ts, today.0, today.1, today.2);
            match clock::local_midnight_unix(tgt.0, tgt.1, tgt.2) {
                Some(v) => Ok(v),
                None => Err(TimeFilterError::InvalidLocalTime),
            }
        },
    }
}

} // verus!
