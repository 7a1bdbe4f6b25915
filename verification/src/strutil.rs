//! Small verified string helpers: equality, ASCII trimming and lowering,
//! splitting on a separator, and digit-string parsing.

use vstd::prelude::*;

verus! {

/// ASCII whitespace, the set that trimming strips from either end.
pub open spec fn is_ascii_space(c: char) -> bool {
    c == ' ' || c == '\t' || c == '\n' || c == '\r' || c == '\u{c}'
}

/// `s` with ASCII whitespace stripped from both ends.
pub open spec fn trimmed(s: Seq<char>) -> Seq<char>
    decreases s.len(),
{
    if s.len() == 0 {
        s
    } else if is_ascii_space(s[0]) {
        trimmed(s.drop_first())
    } else if is_ascii_space(s.last()) {
        trimmed(s.drop_last())
    } else {
        s
    }
}

fn is_space(c: char) -> (r: bool)
    ensures
        r == is_ascii_space(c),
{
    c == ' ' || c == '\t' || c == '\n' || c == '\r' || c == '\u{c}'
}

pub fn trim_ascii<'a>(s: &'a str) -> (r: &'a str)
    ensures
        r@ == trimmed(s@),
    decreases s@.len(),
{
    let n = s.unicode_len();
    if n == 0 {
        s
    } else if is_space(s.get_char(0)) {
        let rest = s.substring_char(1, n);
        proof {
            assert(rest@ =~= s@.drop_first());
        }
        trim_ascii(rest)
    } else {
        let cl = s.get_char(n - 1);
        if is_space(cl) {
            let rest = s.substring_char(0, n - 1);
            proof {
                assert(rest@ =~= s@.drop_last());
            }
            trim_ascii(rest)
        } else {
            s
        }
    }
}

/// Character-for-character string equality.
pub fn str_eq(a: &str, b: &str) -> (r: bool)
    ensures
        r == (a@ == b@),
{
    let na = a.unicode_len();
    let nb = b.unicode_len();
    if na != nb {
        return false;
    }
    let mut i: usize = 0;
    while i < na
        invariant
            i <= na,
            na == a@.len(),
            na == b@.len(),
            forall|j: int| 0 <= j < i ==> a@[j] == b@[j],
        decreases na - i,
    {
        if a.get_char(i) != b.get_char(i) {
            return false;
        }
        i = i + 1;
    }
    proof {
        assert(a@ =~= b@);
    }
    true
}

/// ASCII lowering of one character; everything outside `A`..`Z` is kept.
pub open spec fn lower_char(c: char) -> char {
    if 65 <= c as u32 <= 90 {
        (((c as u32) + 32) as u8) as char
    } else {
        c
    }
}

/// ASCII lowering of a whole string.
pub open spec fn lower(s: Seq<char>) -> Seq<char> {
    s.map_values(|c: char| lower_char(c))
}

fn lower_char_exec(c: char) -> (r: char)
    ensures
        r == lower_char(c),
{
    let u: u32 = c as u32;
    if 65 <= u && u <= 90 {
        ((u + 32) as u8) as char
    } else {
        c
    }
}

/// Whether `s`, lowered, equals `lit` (which callers pass already lower-case).
pub fn eq_lowered(s: &str, lit: &str) -> (r: bool)
    ensures
        r == (lower(s@) == lit@),
{
    let n = s.unicode_len();
    let nl = lit.unicode_len();
    if n != nl {
        proof {
            assert(lower(s@).len() == s@.len());
        }
        return false;
    }
    let mut i: usize = 0;
    while i < n
        invariant
            i <= n,
            n == s@.len(),
            n == lit@.len(),
            forall|j: int| 0 <= j < i ==> lower_char(s@[j]) == lit@[j],
        decreases n - i,
    {
        if lower_char_exec(s.get_char(i)) != lit.get_char(i) {
            proof {
                assert(lower(s@)[i as int] != lit@[i as int]);
            }
            return false;
        }
        i = i + 1;
    }
    proof {
        assert(lower(s@) =~= lit@);
    }
    true
}

/// Index of the first occurrence of `sep` in `s`, or `s.len()` if absent.
pub open spec fn first_index(s: Seq<char>, sep: char) -> int
    decreases s.len(),
{
    if s.len() == 0 {
        0
    } else if s[0] == sep {
        0
    } else {
        1 + first_index(s.drop_first(), sep)
    }
}

pub proof fn lemma_first_index_bounds(s: Seq<char>, sep: char)
    ensures
        0 <= first_index(s, sep) <= s.len(),
        first_index(s, sep) < s.len() ==> s[first_index(s, sep)] == sep,
        forall|j: int| 0 <= j < first_index(s, sep) ==> s[j] != sep,
    decreases s.len(),
{
    if s.len() == 0 {
    } else if s[0] == sep {
    } else {
        lemma_first_index_bounds(s.drop_first(), sep);
        assert forall|j: int| 0 <= j < first_index(s, sep) implies s[j] != sep by {
            if j > 0 {
                assert(s.drop_first()[j - 1] != sep);
            }
        }
    }
}

fn find_char(s: &str, sep: char) -> (i: usize)
    ensures
        i as int == first_index(s@, sep),
    decreases s@.len(),
{
    proof {
        lemma_first_index_bounds(s@, sep);
    }
    let n = s.unicode_len();
    if n == 0 {
        0
    } else if s.get_char(0) == sep {
        0
    } else {
        let rest = s.substring_char(1, n);
        proof {
            assert(rest@ =~= s@.drop_first());
            lemma_first_index_bounds(rest@, sep);
        }
        1 + find_char(rest, sep)
    }
}

/// `s` split at every occurrence of `sep`; always at least one part, and a
/// trailing separator yields a trailing empty part.
pub open spec fn split_at_char(s: Seq<char>, sep: char) -> Seq<Seq<char>>
    decreases s.len(),
{
    let i = first_index(s, sep);
    if i == s.len() {
        seq![s]
    } else if 0 <= i < s.len() {
        seq![s.subrange(0, i)] + split_at_char(s.subrange(i + 1, s.len() as int), sep)
    } else {
        Seq::empty()
    }
}

pub fn split_char<'a>(s: &'a str, sep: char) -> (parts: Vec<&'a str>)
    ensures
        parts@.map_values(|p: &str| p@) == split_at_char(s@, sep),
        parts@.len() >= 1,
    decreases s@.len(),
{
    proof {
        lemma_first_index_bounds(s@, sep);
    }
    let n = s.unicode_len();
    let i = find_char(s, sep);
    if i == n {
        let mut parts: Vec<&'a str> = Vec::new();
        parts.push(s);
        proof {
            assert(parts@.map_values(|p: &str| p@) =~= split_at_char(s@, sep));
        }
        parts
    } else {
        let head = s.substring_char(0, i);
        let tail = s.substring_char(i + 1, n);
        let rest = split_char(tail, sep);
        let mut parts: Vec<&'a str> = Vec::new();
        parts.push(head);
        let mut k: usize = 0;
        while k < rest.len()
            invariant
                k <= rest@.len(),
                parts@.len() == k + 1,
                parts@[0] == head,
                forall|j: int| 0 <= j < k ==> parts@[j + 1] == rest@[j],
            decreases rest@.len() - k,
        {
            parts.push(rest[k]);
            k = k + 1;
        }
        proof {
            assert(parts@.map_values(|p: &str| p@) =~= split_at_char(s@, sep));
        }
        parts
    }
}

/// A decimal digit.
pub open spec fn is_digit(c: char) -> bool {
    48 <= c as u32 <= 57
}

pub open spec fn all_digits(s: Seq<char>) -> bool {
    forall|i: int| 0 <= i < s.len() ==> is_digit(s[i])
}

/// Value of a digit string, most significant digit first.
pub open spec fn digits_val(s: Seq<char>) -> int
    decreases s.len(),
{
    if s.len() == 0 {
        0
    } else {
        digits_val(s.drop_last()) * 10 + (s.last() as u32 - 48)
    }
}

pub proof fn lemma_digits_val_nonneg(s: Seq<char>)
    requires
        all_digits(s),
    ensures
        digits_val(s) >= 0,
    decreases s.len(),
{
    if s.len() > 0 {
        assert(all_digits(s.drop_last()));
        lemma_digits_val_nonneg(s.drop_last());
    }
}

/// The value of a digit string never shrinks as digits are appended.
pub proof fn lemma_digits_val_prefix(s: Seq<char>, i: int)
    requires
        all_digits(s),
        0 <= i <= s.len(),
    ensures
        digits_val(s.take(i)) <= digits_val(s),
    decreases s.len() - i,
{
    if i < s.len() {
        assert(all_digits(s.take(i)));
        lemma_digits_val_nonneg(s.take(i));
        assert(s.take(i + 1).drop_last() =~= s.take(i));
        assert(digits_val(s.take(i + 1)) == digits_val(s.take(i)) * 10 + (s[i] as u32 - 48));
        lemma_digits_val_prefix(s, i + 1);
    } else {
        assert(s.take(i) =~= s);
    }
}

fn digit_of(c: char) -> (r: Option<u8>)
    ensures
        r is Some <==> is_digit(c),
        r matches Some(d) ==> d == c as u32 - 48,
{
    let u: u32 = c as u32;
    if 48 <= u && u <= 57 {
        Some((u - 48) as u8)
    } else {
        None
    }
}

/// Value of `s` as an unsigned number: an optional leading `+`, then one or
/// more decimal digits, within `u32` range; anything else is `None`.
pub open spec fn parse_u32_spec(s: Seq<char>) -> Option<u32> {
    let digits = if s.len() > 0 && s[0] == '+' {
        s.drop_first()
    } else {
        s
    };
    if digits.len() > 0 && all_digits(digits) && digits_val(digits) <= u32::MAX {
        Some(digits_val(digits) as u32)
    } else {
        None
    }
}

/// `10^n`.
pub open spec fn pow10(n: nat) -> int
    decreases n,
{
    if n == 0 {
        1
    } else {
        10 * pow10((n - 1) as nat)
    }
}

/// A digit string of length `n` has a value below `10^n`.
pub proof fn lemma_digits_val_upper(s: Seq<char>)
    requires
        all_digits(s),
    ensures
        digits_val(s) < pow10(s.len()),
    decreases s.len(),
{
    if s.len() > 0 {
        assert(all_digits(s.drop_last()));
        lemma_digits_val_upper(s.drop_last());
    }
}

/// Parses a block of decimal digits, failing on any non-digit, an empty
/// block, or a value above `limit`.
pub(crate) fn parse_digits_u64(digits: &str, limit: u64) -> (r: Option<u64>)
    requires
        limit >= 9,
    ensures
        r matches Some(v) ==> digits@.len() > 0 && all_digits(digits@) && digits_val(digits@) == v
            && v <= limit,
        r is None ==> !(digits@.len() > 0 && all_digits(digits@) && digits_val(digits@) <= limit),
{
    let nd = digits.unicode_len();
    if nd == 0 {
        return None;
    }
    let mut acc: u64 = 0;
    let mut i: usize = 0;
    while i < nd
        invariant
            i <= nd,
            nd == digits@.len(),
            all_digits(digits@.take(i as int)),
            acc == digits_val(digits@.take(i as int)),
            acc <= limit,
            limit >= 9,
        decreases nd - i,
    {
        let c = digits.get_char(i);
        match digit_of(c) {
            None => {
                proof {
                    assert(!is_digit(digits@[i as int]));
                    assert(!all_digits(digits@));
                }
                return None;
            },
            Some(d) => {
                proof {
                    assert(digits@.take(i + 1).drop_last() =~= digits@.take(i as int));
                    assert(digits@.take(i + 1).last() == digits@[i as int]);
                    assert(digits_val(digits@.take(i + 1)) == digits_val(
                        digits@.take(i as int),
                    ) * 10 + (digits@[i as int] as u32 - 48));
                }
                if acc > (limit - (d as u64)) / 10 {
                    proof {
                        assert(acc * 10 + d > limit) by (nonlinear_arith)
                            requires
                                acc > (limit - d) / 10,
                                d < 10,
                                acc >= 0,
                                limit >= d,
                        ;
                        if all_digits(digits@) {
                            lemma_digits_val_prefix(digits@, i + 1);
                            assert(digits_val(digits@) >= acc * 10 + d > limit);
                        }
                    }
                    return None;
                }
                proof {
                    assert(acc * 10 + d <= limit) by (nonlinear_arith)
                        requires
                            acc <= (limit - d) / 10,
                            d < 10,
                            acc >= 0,
                            limit >= d,
                    ;
                }
                acc = acc * 10 + (d as u64);
            },
        }
        i = i + 1;
    }
    proof {
        assert(digits@.take(nd as int) =~= digits@);
    }
    Some(acc)
}

pub fn parse_u32_str(s: &str) -> (r: Option<u32>)
    ensures
        r == parse_u32_spec(s@),
{
    let n = s.unicode_len();
    let digits: &str = if n > 0 && s.get_char(0) == '+' {
        let d = s.substring_char(1, n);
        proof {
            assert(d@ =~= s@.drop_first());
        }
        d
    } else {
        s
    };
    match parse_digits_u64(digits, 0xffff_ffff) {
        Some(v) => Some(v as u32),
        None => None,
    }
}

/// Value of `s` as a signed number: an optional leading `-` or `+`, then one
/// or more decimal digits, within `i64` range; anything else is `None`.
pub open spec fn parse_i64_spec(s: Seq<char>) -> Option<i64> {
    if s.len() == 0 {
        None
    } else {
        let neg = s[0] == '-';
        let digits = if s[0] == '-' || s[0] == '+' {
            s.drop_first()
        } else {
            s
        };
        if digits.len() > 0 && all_digits(digits) {
            let v = digits_val(digits);
            if neg && v <= 0x8000_0000_0000_0000 {
                Some((-v) as i64)
            } else if !neg && v <= i64::MAX {
                Some(v as i64)
            } else {
                None
            }
        } else {
            None
        }
    }
}

pub fn parse_i64_str(s: &str) -> (r: Option<i64>)
    ensures
        r == parse_i64_spec(s@),
{
    let n = s.unicode_len();
    if n == 0 {
        return None;
    }
    let c0 = s.get_char(0);
    let neg = c0 == '-';
    let digits: &str = if c0 == '-' || c0 == '+' {
        let d = s.substring_char(1, n);
        proof {
            assert(d@ =~= s@.drop_first());
        }
        d
    } else {
        s
    };
    let limit: u64 = if neg {
        0x8000_0000_0000_0000
    } else {
        0x7fff_ffff_ffff_ffff
    };
    match parse_digits_u64(digits, limit) {
        Some(v) => {
            if neg {
                if v == 0x8000_0000_0000_0000 {
                    Some(i64::MIN)
                } else {
                    Some(-(v as i64))
                }
            } else {
                Some(v as i64)
            }
        },
        None => None,
    }
}

} // verus!
