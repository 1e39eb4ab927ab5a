//! Reading integers from text and writing them as text.

use vstd::prelude::*;
use crate::text::{is, lower, part};

verus! {

/// A decimal digit.
pub open spec fn is_digit(c: char) -> bool {
    '0' <= c <= '9'
}

/// Whether `c` is a decimal digit.
pub fn digit(c: char) -> (r: bool)
    ensures
        r == is_digit(c),
{
    '0' <= c && c <= '9'
}

/// Every character of `s` is a decimal digit.
pub open spec fn all_digits(s: Seq<char>) -> bool {
    forall|i: int| 0 <= i < s.len() ==> is_digit(#[trigger] s[i])
}

/// The number that the decimal digits of `s` spell.
pub open spec fn digits_value(s: Seq<char>) -> nat
    decreases s.len(),
{
    if s.len() == 0 {
        0
    } else {
        10 * digits_value(s.drop_last()) + (s.last() as nat - '0' as nat) as nat
    }
}

/// The number that `s` spells as one or more decimal digits.
pub open spec fn digits_spec(s: Seq<char>) -> Option<nat> {
    if s.len() > 0 && all_digits(s) {
        Some(digits_value(s))
    } else {
        None
    }
}

/// `s` without one leading `+`.
pub open spec fn unplus(s: Seq<char>) -> Seq<char> {
    if s.len() > 0 && s[0] == '+' {
        s.skip(1)
    } else {
        s
    }
}

/// The unsigned integer up to `max` that `s` spells: decimal digits behind an
/// optional `+`.
pub open spec fn unsigned_spec(s: Seq<char>, max: nat) -> Option<nat> {
    match digits_spec(unplus(s)) {
        Some(n) => if n <= max {
            Some(n)
        } else {
            None
        },
        None => None,
    }
}

/// The signed integer between `min` and `max` that `s` spells: decimal digits
/// behind an optional `+` or `-`.
pub open spec fn signed_spec(s: Seq<char>, min: int, max: int) -> Option<int> {
    let v: Option<int> = if s.len() > 0 && s[0] == '-' {
        match digits_spec(s.skip(1)) {
            Some(n) => Some(-(n as int)),
            None => None,
        }
    } else {
        match digits_spec(unplus(s)) {
            Some(n) => Some(n as int),
            None => None,
        }
    };
    match v {
        Some(n) => if min <= n <= max {
            Some(n)
        } else {
            None
        },
        None => None,
    }
}

/// What `u64::from_str` gives for `s`.
pub open spec fn u64_spec(s: Seq<char>) -> Option<u64> {
    match unsigned_spec(s, u64::MAX as nat) {
        Some(n) => Some(n as u64),
        None => None,
    }
}

/// What `u32::from_str` gives for `s`.
pub open spec fn u32_spec(s: Seq<char>) -> Option<u32> {
    match unsigned_spec(s, u32::MAX as nat) {
        Some(n) => Some(n as u32),
        None => None,
    }
}

/// What `usize::from_str` gives for `s`.
pub open spec fn usize_spec(s: Seq<char>) -> Option<usize> {
    match unsigned_spec(s, usize::MAX as nat) {
        Some(n) => Some(n as usize),
        None => None,
    }
}

/// What `i64::from_str` gives for `s`.
pub open spec fn i64_spec(s: Seq<char>) -> Option<i64> {
    match signed_spec(s, i64::MIN as int, i64::MAX as int) {
        Some(n) => Some(n as i64),
        None => None,
    }
}

/// What `i32::from_str` gives for `s`.
pub open spec fn i32_spec(s: Seq<char>) -> Option<i32> {
    match signed_spec(s, i32::MIN as int, i32::MAX as int) {
        Some(n) => Some(n as i32),
        None => None,
    }
}

/// What `i16::from_str` gives for `s`.
pub open spec fn i16_spec(s: Seq<char>) -> Option<i16> {
    match signed_spec(s, i16::MIN as int, i16::MAX as int) {
        Some(n) => Some(n as i16),
        None => None,
    }
}

proof fn lemma_digits_grow(s: Seq<char>, i: int)
    requires
        all_digits(s),
        0 <= i <= s.len(),
    ensures
        digits_value(s.take(i)) <= digits_value(s),
    decreases s.len(),
{
    if i == s.len() {
        assert(s.take(i) == s);
    } else {
        assert(all_digits(s.drop_last()));
        lemma_digits_grow(s.drop_last(), i);
        assert(s.drop_last().take(i) == s.take(i));
        assert(is_digit(s.last()));
    }
}

/// The number that `s` spells as one or more decimal digits, up to `max`.
fn digits_up_to(s: &[char], max: u64) -> (r: Option<u64>)
    ensures
        match digits_spec(s@) {
            Some(n) => if n <= max {
                r == Some(n as u64)
            } else {
                r is None
            },
            None => r is None,
        },
{
    if s.len() == 0 || !digits(s) {
        return None;
    }
    let mut v: u64 = 0;
    let mut i: usize = 0;
    while i < s.len()
        invariant
            i <= s@.len(),
            all_digits(s@),
            v == digits_value(s@.take(i as int)),
            v <= max,
        decreases s@.len() - i,
    {
        assert(is_digit(s@[i as int]));
        let d: u64 = (s[i] as u32 - '0' as u32) as u64;
        proof {
            assert(s@.take(i + 1).drop_last() == s@.take(i as int));
            assert(s@.take(i + 1).last() == s@[i as int]);
            lemma_digits_grow(s@, i + 1);
        }
        if v > max / 10 || d > max - v * 10 {
            return None;
        }
        v = v * 10 + d;
        i += 1;
    }
    assert(s@.take(i as int) == s@);
    Some(v)
}

/// Whether every character is a decimal digit.
pub fn digits(s: &[char]) -> (r: bool)
    ensures
        r == all_digits(s@),
{
    let mut i: usize = 0;
    while i < s.len()
        invariant
            i <= s@.len(),
            forall|k: int| 0 <= k < i ==> is_digit(#[trigger] s@[k]),
        decreases s@.len() - i,
    {
        if !digit(s[i]) {
            return false;
        }
        i += 1;
    }
    true
}

/// The unsigned integer up to `max` that `s` spells.
pub fn parse_unsigned(s: &[char], max: u64) -> (r: Option<u64>)
    ensures
        match unsigned_spec(s@, max as nat) {
            Some(n) => r == Some(n as u64),
            None => r is None,
        },
{
    if s.len() > 0 && s[0] == '+' {
        assert(s@.subrange(1, s@.len() as int) == s@.skip(1));
        digits_up_to(part(s, 1, s.len()), max)
    } else {
        digits_up_to(s, max)
    }
}

/// The signed integer between `min` and `max` that `s` spells.
pub fn parse_signed(s: &[char], min: i64, max: i64) -> (r: Option<i64>)
    requires
        min < 0 <= max,
    ensures
        match signed_spec(s@, min as int, max as int) {
            Some(n) => r == Some(n as i64),
            None => r is None,
        },
{
    if s.len() > 0 && s[0] == '-' {
        assert(s@.subrange(1, s@.len() as int) == s@.skip(1));
        let limit: u64 = (-(min + 1)) as u64 + 1;
        match digits_up_to(part(s, 1, s.len()), limit) {
            Some(n) => if n == 0 {
                Some(0)
            } else {
                Some(-((n - 1) as i64) - 1)
            },
            None => None,
        }
    } else {
        match parse_unsigned(s, max as u64) {
            Some(n) => Some(n as i64),
            None => None,
        }
    }
}

/// `u64::from_str`.
pub fn parse_u64(s: &[char]) -> (r: Option<u64>)
    ensures
        r == u64_spec(s@),
{
    parse_unsigned(s, u64::MAX)
}

/// `u32::from_str`.
pub fn parse_u32(s: &[char]) -> (r: Option<u32>)
    ensures
        r == u32_spec(s@),
{
    match parse_unsigned(s, u32::MAX as u64) {
        Some(n) => Some(n as u32),
        None => None,
    }
}

/// `usize::from_str`.
pub fn parse_usize(s: &[char]) -> (r: Option<usize>)
    ensures
        r == usize_spec(s@),
{
    match parse_unsigned(s, usize::MAX as u64) {
        Some(n) => Some(n as usize),
        None => None,
    }
}

/// `i64::from_str`.
pub fn parse_i64(s: &[char]) -> (r: Option<i64>)
    ensures
        r == i64_spec(s@),
{
    parse_signed(s, i64::MIN, i64::MAX)
}

/// `i32::from_str`.
pub fn parse_i32(s: &[char]) -> (r: Option<i32>)
    ensures
        r == i32_spec(s@),
{
    match parse_signed(s, i32::MIN as i64, i32::MAX as i64) {
        Some(n) => Some(n as i32),
        None => None,
    }
}

/// `i16::from_str`.
pub fn parse_i16(s: &[char]) -> (r: Option<i16>)
    ensures
        r == i16_spec(s@),
{
    match parse_signed(s, i16::MIN as i64, i16::MAX as i64) {
        Some(n) => Some(n as i16),
        None => None,
    }
}

/// `n` in decimal.
pub open spec fn decimal(n: nat) -> Seq<char>
    decreases n,
{
    if n < 10 {
        seq![('0' as u32 + n) as char]
    } else {
        decimal(n / 10).push(('0' as u32 + n % 10) as char)
    }
}

/// `n` in decimal.
pub fn decimal_chars(n: u64) -> (r: Vec<char>)
    ensures
        r@ == decimal(n as nat),
    decreases n,
{
    let d: char = ('0' as u8 + (n % 10) as u8) as char;
    if n < 10 {
        let mut out: Vec<char> = Vec::new();
        out.push(d);
        assert(out@ =~= decimal(n as nat));
        out
    } else {
        let mut out = decimal_chars(n / 10);
        out.push(d);
        out
    }
}

/// A number in decimal digits, with a sign where it is negative.
pub open spec fn signed_decimal(n: int) -> Seq<char> {
    if n < 0 {
        seq!['-'] + decimal((-n) as nat)
    } else {
        decimal(n as nat)
    }
}

/// A number in decimal digits, with a sign where it is negative.
pub fn signed_chars(n: i64) -> (r: Vec<char>)
    ensures
        r@ == signed_decimal(n as int),
{
    if n < 0 {
        let size: u64 = (-(n as i128)) as u64;
        let mut out: Vec<char> = Vec::new();
        out.push('-');
        let d = decimal_chars(size);
        crate::text::append_chars(&mut out, d.as_slice());
        out
    } else {
        decimal_chars(n as u64)
    }
}

/// Reading a number back from its decimal digits gives the number.
pub proof fn law_decimal_digits(n: nat)
    ensures
        digits_spec(decimal(n)) == Some(n),
    decreases n,
{
    if n < 10 {
        let s = decimal(n);
        assert(s.drop_last() =~= Seq::<char>::empty());
        assert(digits_value(s.drop_last()) == 0);
        assert(all_digits(s));
    } else {
        law_decimal_digits(n / 10);
        let s = decimal(n);
        assert(s.drop_last() =~= decimal(n / 10));
        assert forall|i: int| 0 <= i < s.len() implies is_digit(#[trigger] s[i]) by {
            if i < s.len() - 1 {
                assert(is_digit(decimal(n / 10)[i]));
            }
        }
    }
}

/// How many leading characters of `s` are decimal digits.
pub open spec fn digit_run(s: Seq<char>) -> int
    decreases s.len(),
{
    if s.len() > 0 && is_digit(s[0]) {
        1 + digit_run(s.skip(1))
    } else {
        0
    }
}

/// How many leading characters of `s` are decimal digits.
fn leading_digits(s: &[char]) -> (r: usize)
    ensures
        r == digit_run(s@),
        r <= s@.len(),
{
    let n: usize = s.len();
    let mut i: usize = 0;
    assert(s@.skip(0) == s@);
    while i < n && digit(s[i])
        invariant
            i <= n,
            n == s@.len(),
            digit_run(s@) == i + digit_run(s@.skip(i as int)),
        decreases n - i,
    {
        assert(s@.skip(i as int).skip(1) == s@.skip(i + 1));
        i += 1;
    }
    i
}

/// `s` without one leading sign.
pub open spec fn unsigned_part(s: Seq<char>) -> Seq<char> {
    if s.len() > 0 && (s[0] == '+' || s[0] == '-') {
        s.skip(1)
    } else {
        s
    }
}

/// `s` is empty or an exponent: `e` or `E`, an optional sign, and digits.
pub open spec fn is_exponent(s: Seq<char>) -> bool {
    s.len() == 0 || ((s[0] == 'e' || s[0] == 'E') && unsigned_part(s.skip(1)).len() > 0
        && digit_run(unsigned_part(s.skip(1))) == unsigned_part(s.skip(1)).len())
}

/// `s` is a number with digits before or behind an optional point, and an
/// optional exponent.
pub open spec fn is_float_number(s: Seq<char>) -> bool {
    let whole = digit_run(s);
    let rest = s.skip(whole);
    if rest.len() > 0 && rest[0] == '.' {
        let fraction = digit_run(rest.skip(1));
        (whole > 0 || fraction > 0) && is_exponent(rest.skip(1).skip(fraction))
    } else {
        whole > 0 && is_exponent(rest)
    }
}

/// `s` is what `f64::from_str` accepts: an optional sign, then `inf`,
/// `infinity` or `nan` in any case, or a number.
pub open spec fn is_float_text(s: Seq<char>) -> bool {
    let t = unsigned_part(s);
    let l = crate::text::lower_spec(t);
    l == "inf"@ || l == "infinity"@ || l == "nan"@ || is_float_number(t)
}

/// `s` without one leading sign.
fn skip_sign<'a>(s: &'a [char]) -> (r: &'a [char])
    ensures
        r@ == unsigned_part(s@),
{
    let n: usize = s.len();
    if n > 0 && (s[0] == '+' || s[0] == '-') {
        assert(s@.subrange(1, n as int) == s@.skip(1));
        part(s, 1, n)
    } else {
        s
    }
}

/// Whether `s` is empty or an exponent.
fn exponent(s: &[char]) -> (r: bool)
    ensures
        r == is_exponent(s@),
{
    let n: usize = s.len();
    if n == 0 {
        return true;
    }
    if s[0] != 'e' && s[0] != 'E' {
        return false;
    }
    assert(s@.subrange(1, n as int) == s@.skip(1));
    let d = skip_sign(part(s, 1, n));
    d.len() > 0 && leading_digits(d) == d.len()
}

/// Whether `f64::from_str` accepts `s`.
pub fn float_text(s: &[char]) -> (r: bool)
    ensures
        r == is_float_text(s@),
{
    let t = skip_sign(s);
    let l = lower(t);
    if is(l.as_slice(), "inf") || is(l.as_slice(), "infinity") || is(l.as_slice(), "nan") {
        return true;
    }
    let n: usize = t.len();
    let whole: usize = leading_digits(t);
    assert(t@.subrange(whole as int, n as int) == t@.skip(whole as int));
    let rest = part(t, whole, n);
    let m: usize = rest.len();
    if m > 0 && rest[0] == '.' {
        assert(rest@.subrange(1, m as int) == rest@.skip(1));
        let tail = part(rest, 1, m);
        let k: usize = tail.len();
        let fraction: usize = leading_digits(tail);
        assert(tail@.subrange(fraction as int, k as int) == tail@.skip(fraction as int));
        (whole > 0 || fraction > 0) && exponent(part(tail, fraction, k))
    } else {
        whole > 0 && exponent(rest)
    }
}

} // verus!
