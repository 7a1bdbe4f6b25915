//! Iteration (sprint) matching: decides whether an item's iteration
//! metadata satisfies a filter expression.
//!
//! A filter is a comma-separated list of tokens, each trimmed; the item
//! matches if any token matches. `@all` disables filtering, `@current` and
//! `@previous` are date-window heuristics assuming uniform two-week
//! sprints, and any other token is an exact title match. The current date
//! is handed in as a day number, so the decision is a pure function.

use vstd::prelude::*;
use crate::dates::{day_number, iso_date_of, parse_iso_date, day_number_from_ymd};
use crate::strutil::{split_at_char, split_char, trim_ascii, trimmed, str_eq};

verus! {

/// Sprint length the window heuristics assume, in days.
pub const SPRINT_LENGTH_DAYS: i64 = 14;

pub open spec fn opt_str_view(o: Option<&str>) -> Option<Seq<char>> {
    match o {
        Some(s) => Some(s@),
        None => None,
    }
}

/// `@current`: today falls within `[start, start + sprint length)`.
/// A malformed start date never matches.
pub open spec fn in_current_window(start: Seq<char>, today: int) -> bool {
    match iso_date_of(start) {
        Some(ymd) => day_number(ymd.0, ymd.1, ymd.2) <= today < day_number(ymd.0, ymd.1, ymd.2)
            + SPRINT_LENGTH_DAYS,
        None => false,
    }
}

/// `@previous` heuristic: the iteration started between two sprint lengths
/// and one sprint length before today. A malformed start date never
/// matches.
pub open spec fn in_previous_window(start: Seq<char>, today: int) -> bool {
    match iso_date_of(start) {
        Some(ymd) => today - 2 * SPRINT_LENGTH_DAYS <= day_number(ymd.0, ymd.1, ymd.2) < today
            - SPRINT_LENGTH_DAYS,
        None => false,
    }
}

pub open spec fn token_matches(
    tok: Seq<char>,
    title: Option<Seq<char>>,
    start: Option<Seq<char>>,
    today: int,
) -> bool {
    if tok == "@current"@ {
        match start {
            Some(s) => in_current_window(s, today),
            None => false,
        }
    } else if tok == "@previous"@ {
        match start {
            Some(s) => in_previous_window(s, today),
            None => false,
        }
    } else {
        title == Some(tok)
    }
}

/// Whether an item's iteration metadata satisfies `filter` on day `today`.
pub open spec fn iteration_matches(
    title: Option<Seq<char>>,
    start: Option<Seq<char>>,
    filter: Seq<char>,
    today: int,
) -> bool {
    if filter == "@all"@ {
        true
    } else if filter.len() > 0 && filter[0] == '@' && title is None {
        false
    } else {
        exists|i: int|
            0 <= i < split_at_char(filter, ',').len() && token_matches(
                trimmed(#[trigger] split_at_char(filter, ',')[i]),
                title,
                start,
                today,
            )
    }
}

fn current_window_check(s: &str, today: i64) -> (r: bool)
    ensures
        r == in_current_window(s@, today as int),
{
    match parse_iso_date(s) {
        Some(ymd) => {
            let dn = day_number_from_ymd(ymd.0, ymd.1, ymd.2);
            proof {
                crate::dates::lemma_day_number_in_range(
                    ymd.0 as int,
                    ymd.1 as int,
                    ymd.2 as int,
                );
            }
            dn <= today && today < dn + SPRINT_LENGTH_DAYS
        },
        None => false,
    }
}

fn previous_window_check(s: &str, today: i64) -> (r: bool)
    ensures
        r == in_previous_window(s@, today as int),
{
    match parse_iso_date(s) {
        Some(ymd) => {
            let dn = day_number_from_ymd(ymd.0, ymd.1, ymd.2);
            proof {
                crate::dates::lemma_day_number_in_range(
                    ymd.0 as int,
                    ymd.1 as int,
                    ymd.2 as int,
                );
            }
            today <= dn + 2 * SPRINT_LENGTH_DAYS && dn + SPRINT_LENGTH_DAYS < today
        },
        None => false,
    }
}

fn token_check(tok: &str, title: Option<&str>, start: Option<&str>, today: i64) -> (r: bool)
    ensures
        r == token_matches(tok@, opt_str_view(title), opt_str_view(start), today as int),
{
    if str_eq(tok, "@current") {
        match start {
            Some(s) => current_window_check(s, today),
            None => false,
        }
    } else if str_eq(tok, "@previous") {
        match start {
            Some(s) => previous_window_check(s, today),
            None => false,
        }
    } else {
        match title {
            Some(t) => str_eq(t, tok),
            None => false,
        }
    }
}

/// Decides whether an item's iteration satisfies the filter expression,
/// with `today` the current date as a day number.
pub fn matches_iteration_filter(
    iteration_title: Option<&str>,
    iteration_start: Option<&str>,
    filter: &str,
    today: i64,
) -> (r: bool)
    ensures
        r == iteration_matches(
            opt_str_view(iteration_title),
            opt_str_view(iteration_start),
            filter@,
            today as int,
        ),
{
    if str_eq(filter, "@all") {
        return true;
    }
    let n = filter.unicode_len();
    if n > 0 && filter.get_char(0) == '@' && iteration_title.is_none() {
        return false;
    }
    let parts = split_char(filter, ',');
    let ghost toks = split_at_char(filter@, ',');
    let mut k: usize = 0;
    while k < parts.len()
        invariant
            k <= parts@.len(),
            parts@.map_values(|p: &str| p@) == toks,
            toks == split_at_char(filter@, ','),
            !(filter@.len() > 0 && filter@[0] == '@' && opt_str_view(iteration_title) is None),
            forall|j: int|
                0 <= j < k ==> !token_matches(
                    trimmed(#[trigger] toks[j]),
                    opt_str_view(iteration_title),
                    opt_str_view(iteration_start),
                    today as int,
                ),
        decreases parts@.len() - k,
    {
        let tok = trim_ascii(parts[k]);
        proof {
            assert(parts@.map_values(|p: &str| p@)[k as int] == parts@[k as int]@);
        }
        if token_check(tok, iteration_title, iteration_start, today) {
            proof {
                assert(tok@ == trimmed(toks[k as int]));
                assert(0 <= k < split_at_char(filter@, ',').len() && token_matches(
                    trimmed(split_at_char(filter@, ',')[k as int]),
                    opt_str_view(iteration_title),
                    opt_str_view(iteration_start),
                    today as int,
                ));
            }
            return true;
        }
        k = k + 1;
    }
    false
}

/// Law: the filter `@all` matches every input, including an item with no
/// iteration at all.
pub proof fn lemma_all_filter_matches(
    title: Option<Seq<char>>,
    start: Option<Seq<char>>,
    today: int,
)
    ensures
        iteration_matches(title, start, "@all"@, today),
{
}

/// Law: an `@`-prefixed filter other than `@all` never matches an item
/// that has no iteration.
pub proof fn lemma_at_filter_needs_iteration(start: Option<Seq<char>>, filter: Seq<char>, today: int)
    requires
        filter.len() > 0,
        filter[0] == '@',
        filter != "@all"@,
    ensures
        !iteration_matches(None, start, filter, today),
{
}

} // verus!
