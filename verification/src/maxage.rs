//! The `max-age` directive of a cache-control value: the leftmost occurrence
//! of `max-age`, optional spacing, `=`, optional spacing, and a run of
//! decimal digits, whose value is the advertisement's lifetime in seconds.
use vstd::prelude::*;

use crate::text::{dec_val, digit_of, is_digit, is_digits, parse_u64, str_eq};

verus! {

/// Holds of the spacing accepted around the `=` of the directive.
pub open spec fn is_space(c: char) -> bool {
    c == ' ' || c == '\t'
}

/// The position of the first non-space character at or after `i`.
pub open spec fn skip_spaces(s: Seq<char>, i: int) -> int
    decreases s.len() - i,
{
    if i < 0 || i >= s.len() {
        i
    } else if is_space(s[i]) {
        skip_spaces(s, i + 1)
    } else {
        i
    }
}

/// The position right after the run of digits that starts at `i`.
pub open spec fn digits_end(s: Seq<char>, i: int) -> int
    decreases s.len() - i,
{
    if i < 0 || i >= s.len() {
        i
    } else if is_digit(s[i]) {
        digits_end(s, i + 1)
    } else {
        i
    }
}

/// The digits captured by a directive that starts exactly at `i`, if one
/// does.
pub open spec fn match_at(s: Seq<char>, i: int) -> Option<Seq<char>> {
    if 0 <= i && i + 7 <= s.len() && s.subrange(i, i + 7) == "max-age"@ {
        let j = skip_spaces(s, i + 7);
        if j < s.len() && s[j] == '=' {
            let k = skip_spaces(s, j + 1);
            if k < s.len() && is_digit(s[k]) {
                Some(s.subrange(k, digits_end(s, k)))
            } else {
                None
            }
        } else {
            None
        }
    } else {
        None
    }
}

/// The digits captured by the leftmost directive at or after `i`.
pub open spec fn find_from(s: Seq<char>, i: int) -> Option<Seq<char>>
    decreases s.len() - i,
{
    if i < 0 || i >= s.len() {
        None
    } else if match_at(s, i) is Some {
        match_at(s, i)
    } else {
        find_from(s, i + 1)
    }
}

/// The digits captured by the leftmost `max-age` directive in `s`, if any.
pub open spec fn spec_max_age(s: Seq<char>) -> Option<Seq<char>> {
    find_from(s, 0)
}

/// Everything between a position and the end of the digit run it starts is
/// a digit.
proof fn lemma_digits_end_digits(s: Seq<char>, i: int, e: int)
    requires
        0 <= i <= s.len(),
        e == digits_end(s, i),
    ensures
        i <= e <= s.len(),
        forall|j: int| i <= j < e ==> is_digit(#[trigger] s[j]),
    decreases s.len() - i,
{
    if i < s.len() && is_digit(s[i]) {
        lemma_digits_end_digits(s, i + 1, e);
    }
}

/// Finds the first non-space position at or after `i`.
fn skip_spaces_exec(s: &str, i: usize) -> (r: usize)
    requires
        i <= s@.len(),
    ensures
        i <= r <= s@.len(),
        r as int == skip_spaces(s@, i as int),
    decreases s@.len() - i,
{
    if i < s.unicode_len() {
        let c = s.get_char(i);
        if c == ' ' || c == '\t' {
            return skip_spaces_exec(s, i + 1);
        }
    }
    i
}

/// Finds the position right after the digit run that starts at `i`.
fn digits_end_exec(s: &str, i: usize) -> (r: usize)
    requires
        i <= s@.len(),
    ensures
        i <= r <= s@.len(),
        r as int == digits_end(s@, i as int),
    decreases s@.len() - i,
{
    if i < s.unicode_len() {
        if digit_of(s.get_char(i)).is_some() {
            return digits_end_exec(s, i + 1);
        }
    }
    i
}

/// Looks for a directive starting exactly at `i`; returns the bounds of its
/// digit run.
fn try_match_at(s: &str, i: usize) -> (r: Option<(usize, usize)>)
    requires
        i < s@.len(),
    ensures
        match r {
            Some(bounds) => {
                &&& bounds.0 <= bounds.1 <= s@.len()
                &&& match_at(s@, i as int) == Some(
                    s@.subrange(bounds.0 as int, bounds.1 as int),
                )
                &&& bounds.1 as int == digits_end(s@, bounds.0 as int)
                &&& bounds.0 < s@.len() && is_digit(s@[bounds.0 as int])
            },
            None => match_at(s@, i as int) is None,
        },
{
    let len = s.unicode_len();
    if len - i < 7 {
        return None;
    }
    let word = s.substring_char(i, i + 7);
    if !str_eq(word, "max-age") {
        return None;
    }
    let j = skip_spaces_exec(s, i + 7);
    if j >= len {
        return None;
    }
    if s.get_char(j) != '=' {
        return None;
    }
    let k = skip_spaces_exec(s, j + 1);
    if k >= len {
        return None;
    }
    if digit_of(s.get_char(k)).is_none() {
        return None;
    }
    let e = digits_end_exec(s, k);
    Some((k, e))
}

/// Finds the value of the leftmost `max-age` directive. Returns the value
/// when a directive is present and its digits denote a number that fits in a
/// `u64`, and nothing otherwise.
pub fn find_max_age(s: &str) -> (r: Option<u64>)
    ensures
        match r {
            Some(n) => spec_max_age(s@) is Some && n as int == dec_val(spec_max_age(s@)->Some_0),
            None => spec_max_age(s@) is None || dec_val(spec_max_age(s@)->Some_0) > u64::MAX
                as int,
        },
{
    let len = s.unicode_len();
    let mut i: usize = 0;
    while i < len
        invariant
            0 <= i <= len,
            len == s@.len(),
            find_from(s@, 0) == find_from(s@, i as int),
        decreases len - i,
    {
        if let Some(bounds) = try_match_at(s, i) {
            let digits = s.substring_char(bounds.0, bounds.1);
            proof {
                lemma_digits_end_digits(s@, bounds.0 as int, bounds.1 as int);
                assert(is_digits(digits@));
                assert(digits@.len() > 0) by {
                    assert(digits_end(s@, bounds.0 as int) == digits_end(s@, bounds.0 + 1));
                    lemma_digits_end_digits(s@, bounds.0 + 1, digits_end(s@, bounds.0 + 1));
                }
            }
            return parse_u64(digits);
        }
        i = i + 1;
    }
    None
}

} // verus!
