//! Time zones in calendar properties.

use vstd::prelude::*;
use crate::numbers;
use crate::numbers::digit;
use crate::text;
use crate::text::{chars_of, contains_char, part, strip_prefix};

verus! {

/// `:` and two digits, the first of them less than six.
pub open spec fn is_sixtieth(s: Seq<char>) -> bool {
    s.len() == 3 && s[0] == ':' && '0' <= s[1] <= '5' && numbers::is_digit(s[2])
}

/// Nothing, or minutes, or minutes and seconds.
pub open spec fn is_minutes(s: Seq<char>) -> bool {
    s.len() == 0 || is_sixtieth(s) || (s.len() == 6 && is_sixtieth(s.take(3)) && is_sixtieth(
        s.skip(3),
    ))
}

/// Nothing, or a sign and an offset in hours, minutes and seconds.
pub open spec fn is_offset(s: Seq<char>) -> bool {
    s.len() == 0 || ((s[0] == '+' || s[0] == '-') && ({
        ||| s.len() >= 3 && ('0' <= s[1] <= '1') && numbers::is_digit(s[2]) && is_minutes(s.skip(3))
        ||| s.len() >= 2 && numbers::is_digit(s[1]) && is_minutes(s.skip(2))
    }))
}

/// A letter, a digit or one of `/`, `_`, `+`, `-`.
pub open spec fn is_zone_char(c: char) -> bool {
    'a' <= c <= 'z' || 'A' <= c <= 'Z' || '0' <= c <= '9' || c == '/' || c == '_' || c == '+' || c
        == '-'
}

/// The name of a region and a place, such as `America/New_York`.
pub open spec fn is_zone_name(s: Seq<char>) -> bool {
    s.contains('/') && forall|i: int| 0 <= i < s.len() ==> is_zone_char(#[trigger] s[i])
}

/// A time zone: nothing, `UTC` with an optional offset, or the name of a zone.
pub open spec fn is_time_zone(s: Seq<char>) -> bool {
    s.len() == 0 || (text::after_prefix(s, "UTC"@) matches Some(rest) && is_offset(rest))
        || is_zone_name(s)
}

fn sixtieth(s: &[char]) -> (r: bool)
    ensures
        r == is_sixtieth(s@),
{
    s.len() == 3 && s[0] == ':' && '0' <= s[1] && s[1] <= '5' && digit(s[2])
}

fn minutes(s: &[char]) -> (r: bool)
    ensures
        r == is_minutes(s@),
{
    if s.len() == 0 {
        return true;
    }
    if s.len() == 6 {
        assert(s@.subrange(0, 3) == s@.take(3));
        assert(s@.subrange(3, 6) == s@.skip(3));
        return sixtieth(part(s, 0, 3)) && sixtieth(part(s, 3, 6));
    }
    sixtieth(s)
}

fn offset(s: &[char]) -> (r: bool)
    ensures
        r == is_offset(s@),
{
    let n: usize = s.len();
    if n == 0 {
        return true;
    }
    if s[0] != '+' && s[0] != '-' {
        return false;
    }
    if n >= 3 && '0' <= s[1] && s[1] <= '1' && digit(s[2]) {
        assert(s@.subrange(3, n as int) == s@.skip(3));
        if minutes(part(s, 3, n)) {
            return true;
        }
    }
    if n >= 2 && digit(s[1]) {
        assert(s@.subrange(2, n as int) == s@.skip(2));
        return minutes(part(s, 2, n));
    }
    false
}

fn zone_name(s: &[char]) -> (r: bool)
    ensures
        r == is_zone_name(s@),
{
    if !contains_char(s, '/') {
        return false;
    }
    let mut i: usize = 0;
    while i < s.len()
        invariant
            i <= s@.len(),
            forall|k: int| 0 <= k < i ==> is_zone_char(#[trigger] s@[k]),
        decreases s@.len() - i,
    {
        let c: char = s[i];
        if !(('a' <= c && c <= 'z') || ('A' <= c && c <= 'Z') || ('0' <= c && c <= '9') || c == '/'
            || c == '_' || c == '+' || c == '-') {
            assert(!is_zone_char(s@[i as int]));
            return false;
        }
        i += 1;
    }
    true
}

/// Whether the value is a time zone.
pub fn is_valid_dfdl_calendar_time_zone(value: &str) -> (r: bool)
    ensures
        r == is_time_zone(value@),
{
    let v = chars_of(value);
    let s = v.as_slice();
    if s.len() == 0 {
        return true;
    }
    if let Some(rest) = strip_prefix(s, "UTC") {
        if offset(rest) {
            return true;
        }
    }
    zone_name(s)
}

} // verus!
