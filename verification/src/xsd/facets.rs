//! The facets of restrictions.

use vstd::prelude::*;
use vstd::arithmetic::power2::{
    lemma2_to64, lemma2_to64_rest, lemma_pow2_adds, lemma_pow2_pos, lemma_pow2_strictly_increases, lemma_pow2_unfold,
    pow2,
};
use crate::ast;
use crate::ast::{ParsedRestrictionFacets, ParsedRestrictionFacetsModel};
use crate::error::{outcome, Error, ErrorModel};
use crate::numbers;
use crate::numbers::{digit, parse_i64, parse_u64};
use crate::strmap;
use crate::strmap::{comes_before, StrMap};
use crate::text;
use crate::text::{append_chars, chars_of, eq, part, trim_start_matches};
use crate::values::owned;
use crate::xml;
use crate::xml::{XmlElement, XmlElementModel, XmlNode, XmlNodeModel};
use crate::xsd::nodes;
use crate::xsd::nodes::{fault_of, skip_element};

verus! {

// -------------------------------------------------------------------- bounds

/// The digits of a number before its point.
pub open spec fn whole_part(s: Seq<char>) -> Seq<char> {
    s.take(numbers::digit_run(s))
}

/// What stands behind the digits before the point.
pub open spec fn behind_whole(s: Seq<char>) -> Seq<char> {
    s.skip(numbers::digit_run(s))
}

/// The digits of a number behind its point.
pub open spec fn fraction_part(s: Seq<char>) -> Seq<char> {
    let rest = behind_whole(s);
    if rest.len() > 0 && rest[0] == '.' {
        whole_part(rest.skip(1))
    } else {
        Seq::empty()
    }
}

/// The exponent of a number as it is written.
pub open spec fn exponent_part(s: Seq<char>) -> Seq<char> {
    let rest = behind_whole(s);
    if rest.len() > 0 && rest[0] == '.' {
        behind_whole(rest.skip(1))
    } else {
        rest
    }
}

/// The number that an exponent stands for.
pub open spec fn exponent_value(e: Seq<char>) -> int {
    if e.len() == 0 {
        0
    } else {
        let v = numbers::digits_value(numbers::unsigned_part(e.skip(1)));
        if e.len() > 1 && e[1] == '-' {
            -(v as int)
        } else {
            v as int
        }
    }
}

/// Ten to the power of `n`.
pub open spec fn ten_to(n: nat) -> nat
    decreases n,
{
    if n == 0 {
        1
    } else {
        10 * ten_to((n - 1) as nat)
    }
}

/// The place of the highest binary digit of a number, counted from 0.
pub open spec fn top_bit(n: nat) -> nat
    decreases n,
{
    if n < 2 {
        0
    } else {
        1 + top_bit(n / 2)
    }
}

/// `i + f / d`, rounded to a multiple of `u`, halves to an even one.
pub open spec fn rounded(i: nat, f: nat, d: nat, u: nat) -> nat {
    let q = i / u;
    let twice = 2 * ((i % u) * d + f);
    if twice > u * d || (twice == u * d && q % 2 == 1) {
        (q + 1) * u
    } else {
        q * u
    }
}

/// The integer for which `i + f / d` counts when it is held as a binary number of
/// double precision, whose 53 binary digits round it, and its fraction is passed
/// over where that is less than the precision of 1.
pub open spec fn double_integer(i: nat, f: nat, d: nat) -> Option<nat> {
    if i == 0 {
        if (d - f) * pow2(54) <= d {
            Some(1)
        } else if f * pow2(106) < d * (pow2(54) - 1) {
            Some(0)
        } else {
            None
        }
    } else if i < 0x10_0000_0000_0000 {
        let b = (53 - top_bit(i)) as nat;
        if f * pow2(b) <= d {
            Some(i)
        } else if (d - f) * pow2(b) <= d {
            Some(i + 1)
        } else {
            None
        }
    } else if i < 0x8000_0000_0000_0000 {
        Some(rounded(i, f, d, pow2((top_bit(i) - 52) as nat)))
    } else {
        Some(i)
    }
}

/// The digits of the least number that is too large for double precision.
pub const TOO_LARGE: &'static str = "179769313486231580793728971405303415079934132710037826936173778980444968292764750946649017977587207096330286416692887910946555547851940402630657488671505820681908902000708383676273854845817711531764475730270069855571366959622842914819860834936475292719074168444365510704342711559699508093042880177904174497792";

/// The first 309 digits of a number, filled up with zeros.
pub open spec fn first_digits(s: Seq<char>) -> Seq<char> {
    Seq::new(
        309,
        |i: int|
            if i < s.len() {
                s[i]
            } else {
                '0'
            },
    )
}

/// Whether digits with their point moved to the right by `scale` places stand for a
/// number too large for double precision.
pub open spec fn too_large(digits: Seq<char>, scale: int) -> bool {
    let significant = text::trim_start_char(digits, '0');
    let size = significant.len() + scale;
    size > 309 || (size == 309 && !strmap::before(first_digits(significant), TOO_LARGE@))
}

/// The integer for which decimal digits with their point moved to the right by
/// `scale` places count in double precision; none where they count for no integer,
/// or for a number that is too large.
pub open spec fn integer_value(digits: Seq<char>, scale: int) -> Option<nat> {
    let n = numbers::digits_value(digits);
    if n == 0 {
        Some(0)
    } else if too_large(digits, scale) {
        None
    } else if scale >= 0 {
        double_integer(n * ten_to(scale as nat), 0, 1)
    } else {
        let d = ten_to((-scale) as nat);
        double_integer(n / d, n % d, d)
    }
}

/// The number nearest to an integer that an `i64` can hold.
pub open spec fn nearest(negative: bool, n: nat) -> i64 {
    if negative {
        if n >= 0x8000_0000_0000_0000 {
            i64::MIN
        } else {
            (-(n as int)) as i64
        }
    } else if n >= 0x8000_0000_0000_0000 {
        i64::MAX
    } else {
        n as i64
    }
}

/// The integer that a decimal number stands for, if it stands for one.
pub open spec fn decimal_bound(s: Seq<char>) -> Option<i64> {
    let t = numbers::unsigned_part(s);
    if numbers::is_float_number(t) {
        let digits = whole_part(t) + fraction_part(t);
        let scale = exponent_value(exponent_part(t)) - fraction_part(t).len();
        match integer_value(digits, scale) {
            Some(n) => Some(nearest(s.len() > 0 && s[0] == '-', n)),
            None => None,
        }
    } else {
        None
    }
}

/// The bound that a facet states: an integer, or a decimal number that stands
/// for one.
#[verifier::opaque]
pub open spec fn facet_bound(s: Seq<char>) -> Option<i64> {
    match numbers::i64_spec(s) {
        Some(n) => Some(n),
        None => decimal_bound(s),
    }
}

/// Where numbers are cut off that are too large to matter.
pub open spec fn capped(n: nat, cap: nat) -> nat {
    if n < cap {
        n
    } else {
        cap
    }
}

/// The number that digits spell, cut off at `cap`.
fn digits_capped(s: &[char], cap: u128) -> (r: u128)
    requires
        numbers::all_digits(s@),
        1 <= cap <= 0x1_0000_0000_0000_0000_0000_0000_0000,
    ensures
        r == capped(numbers::digits_value(s@), cap as nat),
{
    let n: usize = s.len();
    let mut i: usize = 0;
    let mut v: u128 = 0;
    while i < n
        invariant
            i <= n,
            n == s@.len(),
            numbers::all_digits(s@),
            1 <= cap <= 0x1_0000_0000_0000_0000_0000_0000_0000,
            v == capped(numbers::digits_value(s@.take(i as int)), cap as nat),
        decreases n - i,
    {
        assert(s@.take(i + 1).drop_last() == s@.take(i as int));
        assert(numbers::is_digit(s@[i as int]));
        let d: u128 = (s[i] as u32 - '0' as u32) as u128;
        let next: u128 = 10 * v + d;
        v = if next < cap {
            next
        } else {
            cap
        };
        i += 1;
    }
    assert(s@.take(i as int) == s@);
    v
}

/// A number with `zeros` zeros behind it, cut off at `cap`.
fn shifted_capped(n: u128, zeros: u64, cap: u128, Ghost(exact): Ghost<nat>) -> (r: u128)
    requires
        n == capped(exact, cap as nat),
        1 <= cap <= 0x1_0000_0000_0000_0000_0000_0000_0000,
    ensures
        r == capped(exact * ten_to(zeros as nat), cap as nat),
{
    let mut i: u64 = 0;
    let mut v: u128 = n;
    assert(ten_to(0) == 1);
    assert(exact * 1 == exact) by (nonlinear_arith);
    while i < zeros
        invariant
            i <= zeros,
            1 <= cap <= 0x1_0000_0000_0000_0000_0000_0000_0000,
            v == capped(exact * ten_to(i as nat), cap as nat),
        decreases zeros - i,
    {
        let next: u128 = 10 * v;
        assert(exact * ten_to((i + 1) as nat) == 10 * (exact * ten_to(i as nat)))
            by (nonlinear_arith)
            requires
                ten_to((i + 1) as nat) == 10 * ten_to(i as nat),
        ;
        v = if next < cap {
            next
        } else {
            cap
        };
        i += 1;
    }
    v
}

/// How many leading characters are digits.
fn digits_at(s: &[char], from: usize) -> (r: usize)
    requires
        from <= s@.len(),
    ensures
        r == numbers::digit_run(s@.skip(from as int)),
        from + r <= s@.len(),
        numbers::all_digits(s@.subrange(from as int, from + r)),
        from + r < s@.len() ==> !numbers::is_digit(s@[from + r]),
{
    let n: usize = s.len();
    let mut i: usize = from;
    let ghost all = s@.skip(from as int);
    while i < n && digit(s[i])
        invariant
            from <= i <= n,
            n == s@.len(),
            all == s@.skip(from as int),
            numbers::digit_run(all) == (i - from) + numbers::digit_run(s@.skip(i as int)),
            forall|k: int| from <= k < i ==> numbers::is_digit(#[trigger] s@[k]),
        decreases n - i,
    {
        assert(s@.skip(i as int).skip(1) == s@.skip(i + 1));
        i += 1;
    }
    assert(numbers::digit_run(s@.skip(i as int)) == 0) by {
        if i < n {
            assert(s@.skip(i as int)[0] == s@[i as int]);
        }
    }
    i - from
}

/// The number that an exponent stands for, cut off far out.
fn read_exponent(e: &[char]) -> (r: i128)
    requires
        numbers::is_exponent(e@),
    ensures
        r == (if exponent_value(e@) > 0x1_0000_0000_0000_0000_0000_0000 {
            0x1_0000_0000_0000_0000_0000_0000
        } else if exponent_value(e@) < -0x1_0000_0000_0000_0000_0000_0000 {
            -0x1_0000_0000_0000_0000_0000_0000
        } else {
            exponent_value(e@)
        }),
{
    let n: usize = e.len();
    if n == 0 {
        return 0;
    }
    let signed: bool = e[1] == '+' || e[1] == '-';
    let start: usize = if signed {
        2
    } else {
        1
    };
    let ghost t = numbers::unsigned_part(e@.skip(1));
    assert(e@.skip(1)[0] == e@[1]);
    assert(e@.subrange(start as int, n as int) =~= t);
    let d = part(e, start, n);
    proof {
        lemma_run_all(t);
    }
    let v: u128 = digits_capped(d, 0x1_0000_0000_0000_0000_0000_0000);
    if e[1] == '-' {
        -(v as i128)
    } else {
        v as i128
    }
}

proof fn lemma_run_all(t: Seq<char>)
    requires
        numbers::digit_run(t) == t.len(),
    ensures
        numbers::all_digits(t),
    decreases t.len(),
{
    if t.len() > 0 {
        lemma_run_bound(t.skip(1));
        lemma_run_all(t.skip(1));
        assert forall|i: int| 0 <= i < t.len() implies numbers::is_digit(#[trigger] t[i]) by {
            if i > 0 {
                assert(t.skip(1)[i - 1] == t[i]);
            }
        }
    }
}

proof fn lemma_run_bound(t: Seq<char>)
    ensures
        0 <= numbers::digit_run(t) <= t.len(),
    decreases t.len(),
{
    if t.len() > 0 && numbers::is_digit(t[0]) {
        lemma_run_bound(t.skip(1));
    }
}

proof fn lemma_leading_zeros(s: Seq<char>)
    requires
        numbers::all_digits(s),
    ensures
        text::trim_start_char(s, '0').len() <= s.len(),
        numbers::digits_value(s) == 0 <==> text::trim_start_char(s, '0').len() == 0,
    decreases s.len(),
{
    if s.len() > 0 {
        if s[0] == '0' {
            lemma_leading_zeros(s.skip(1));
            lemma_drop_zero(s);
        } else {
            assert(numbers::is_digit(s[0]));
            lemma_first_digit(s);
        }
    }
}

proof fn lemma_drop_zero(s: Seq<char>)
    requires
        s.len() > 0,
        s[0] == '0',
    ensures
        numbers::digits_value(s) == numbers::digits_value(s.skip(1)),
    decreases s.len(),
{
    if s.len() == 1 {
        assert(s.drop_last() =~= Seq::<char>::empty());
        assert(s.skip(1) =~= Seq::<char>::empty());
        assert(numbers::digits_value(s.drop_last()) == 0);
    } else {
        lemma_drop_zero(s.drop_last());
        assert(s.drop_last().skip(1) =~= s.skip(1).drop_last());
    }
}

proof fn lemma_first_digit(s: Seq<char>)
    requires
        s.len() > 0,
        numbers::all_digits(s),
        s[0] != '0',
    ensures
        numbers::digits_value(s) > 0,
    decreases s.len(),
{
    assert(numbers::is_digit(s[0]));
    if s.len() > 1 {
        assert forall|i: int| 0 <= i < s.drop_last().len() implies numbers::is_digit(
            #[trigger] s.drop_last()[i],
        ) by {
            assert(numbers::is_digit(s[i]));
        }
        lemma_first_digit(s.drop_last());
    }
}

proof fn lemma_ten_positive(k: nat)
    ensures
        ten_to(k) > 0,
    decreases k,
{
    if k > 0 {
        lemma_ten_positive((k - 1) as nat);
    }
}

proof fn lemma_ten_adds(a: nat, b: nat)
    ensures
        ten_to(a + b) == ten_to(a) * ten_to(b),
    decreases a,
{
    if a == 0 {
        assert(1 * ten_to(b) == ten_to(b)) by (nonlinear_arith);
    } else {
        lemma_ten_adds((a - 1) as nat, b);
        let x = ten_to((a - 1) as nat);
        let y = ten_to(b);
        assert(10 * (x * y) == (10 * x) * y) by (nonlinear_arith);
        assert((a + b - 1) as nat == (a - 1) as nat + b);
    }
}

proof fn lemma_digits_bound(s: Seq<char>)
    requires
        numbers::all_digits(s),
    ensures
        numbers::digits_value(s) < ten_to(s.len()),
    decreases s.len(),
{
    if s.len() > 0 {
        assert forall|i: int| 0 <= i < s.drop_last().len() implies numbers::is_digit(
            #[trigger] s.drop_last()[i],
        ) by {
            assert(numbers::is_digit(s[i]));
        }
        assert(numbers::is_digit(s[s.len() - 1]));
        lemma_digits_bound(s.drop_last());
    }
}

proof fn lemma_digits_split(s: Seq<char>, k: int)
    requires
        0 <= k <= s.len(),
    ensures
        numbers::digits_value(s) == numbers::digits_value(s.take(k)) * ten_to((s.len() - k) as nat)
            + numbers::digits_value(s.skip(k)),
    decreases s.len() - k,
{
    if k == s.len() {
        assert(s.take(k) =~= s);
        assert(s.skip(k) =~= Seq::<char>::empty());
        assert(numbers::digits_value(s) * 1 == numbers::digits_value(s)) by (nonlinear_arith);
    } else {
        let t = s.drop_last();
        lemma_digits_split(t, k);
        assert(t.take(k) =~= s.take(k));
        assert(t.skip(k) =~= s.skip(k).drop_last());
        assert(s.skip(k).last() == s.last());
        let x = numbers::digits_value(s.take(k));
        let y = ten_to((t.len() - k) as nat);
        assert(ten_to((s.len() - k) as nat) == 10 * y);
        assert(10 * (x * y) == x * (10 * y)) by (nonlinear_arith);
    }
}

/// Digits twice over, without what they carry, and the carry.
fn twice(v: &Vec<char>) -> (r: (Vec<char>, bool))
    requires
        numbers::all_digits(v@),
    ensures
        numbers::all_digits(r.0@),
        r.0@.len() == v@.len(),
        2 * numbers::digits_value(v@) == numbers::digits_value(r.0@) + (if r.1 {
            ten_to(v@.len())
        } else {
            0
        }),
{
    let n: usize = v.len();
    let mut out: Vec<char> = Vec::new();
    let mut i: usize = n;
    let mut carry: u32 = 0;
    assert(v@.skip(n as int) =~= Seq::<char>::empty());
    assert(out@.reverse() =~= Seq::<char>::empty());
    while i > 0
        invariant
            i <= n,
            n == v@.len(),
            carry <= 1,
            numbers::all_digits(v@),
            numbers::all_digits(out@.reverse()),
            out@.len() == n - i,
            2 * numbers::digits_value(v@.skip(i as int)) == numbers::digits_value(out@.reverse())
                + carry * ten_to((n - i) as nat),
        decreases i,
    {
        let ghost before = out@.reverse();
        let ghost old_carry = carry;
        let k: usize = i - 1;
        assert(numbers::is_digit(v@[k as int]));
        let c: u32 = 2 * (v[k] as u32 - '0' as u32) + carry;
        let (d, next): (u32, u32) = if c >= 10 {
            (c - 10, 1)
        } else {
            (c, 0)
        };
        let digit: char = digit_char(d);
        out.push(digit);
        proof {
            let t = v@.skip(k as int);
            let now = out@.reverse();
            assert(now =~= seq![digit] + before);
            assert(t =~= seq![v@[k as int]] + v@.skip(i as int));
            lemma_digits_split(t, 1);
            lemma_digits_split(now, 1);
            assert(t.take(1) =~= seq![v@[k as int]]);
            assert(t.skip(1) =~= v@.skip(i as int));
            assert(now.take(1) =~= seq![digit]);
            assert(now.skip(1) =~= before);
            lemma_one_digit(v@[k as int]);
            lemma_one_digit(digit);
            let p = ten_to((n - i) as nat);
            let a = (v@[k as int] as u32 - '0' as u32) as int;
            assert(ten_to((n - k) as nat) == 10 * p);
            assert(2 * (a * p) + old_carry * p == (d + 10 * next) * p) by (nonlinear_arith)
                requires
                    2 * a + old_carry == d + 10 * next,
            ;
            assert((d + 10 * next) * p == d * p + next * (10 * p)) by (nonlinear_arith);
            assert forall|j: int| 0 <= j < now.len() implies numbers::is_digit(#[trigger] now[j]) by {
                if j > 0 {
                    assert(now[j] == before[j - 1]);
                }
            }
        }
        carry = next;
        i = k;
    }
    assert(v@.skip(0) =~= v@);
    let mut r: Vec<char> = Vec::new();
    let mut j: usize = n;
    while j > 0
        invariant
            j <= n,
            n == out@.len(),
            r@ =~= out@.reverse().take(n - j),
        decreases j,
    {
        j -= 1;
        r.push(out[j]);
        assert(out@.reverse()[n - j - 1] == out@[j as int]);
    }
    assert(r@ =~= out@.reverse());
    assert(1 * ten_to(n as nat) == ten_to(n as nat)) by (nonlinear_arith);
    assert(0 * ten_to(n as nat) == 0) by (nonlinear_arith);
    (r, carry == 1)
}

proof fn lemma_one_digit(c: char)
    ensures
        numbers::digits_value(seq![c]) == (c as u32 - '0' as u32) as nat || !numbers::is_digit(c),
{
    assert(seq![c].drop_last() =~= Seq::<char>::empty());
    assert(numbers::digits_value(seq![c].drop_last()) == 0);
}

fn digit_char(d: u32) -> (r: char)
    requires
        d < 10,
    ensures
        r as u32 == '0' as u32 + d,
        numbers::is_digit(r),
{
    match d {
        0 => '0',
        1 => '1',
        2 => '2',
        3 => '3',
        4 => '4',
        5 => '5',
        6 => '6',
        7 => '7',
        8 => '8',
        _ => '9',
    }
}

/// The first `b` binary digits of a decimal fraction as a number, two to the power
/// of `b`, and whether nothing is left.
fn fraction_bits(tail: &[char], b: u64) -> (r: (u128, u128, bool))
    requires
        numbers::all_digits(tail@),
        b <= 106,
    ensures
        r.1 == pow2(b as nat),
        r.0 < r.1,
        ({
            let f = numbers::digits_value(tail@);
            let d = ten_to(tail@.len());
            let rest = f * pow2(b as nat) - r.0 * d;
            &&& 0 <= rest < d
            &&& r.2 == (rest == 0)
        }),
{
    let ghost f = numbers::digits_value(tail@);
    let ghost d = ten_to(tail@.len());
    let mut v: Vec<char> = Vec::new();
    append_chars(&mut v, tail);
    assert(v@ =~= tail@);
    let mut bits: u128 = 0;
    let mut p: u128 = 1;
    let mut i: u64 = 0;
    proof {
        lemma_ten_positive(tail@.len());
        lemma_digits_bound(tail@);
        lemma_powers();
        assert(f * 1 == f) by (nonlinear_arith);
        assert(0 * d == 0) by (nonlinear_arith);
    }
    while i < b
        invariant
            i <= b,
            b <= 106,
            numbers::all_digits(v@),
            v@.len() == tail@.len(),
            d == ten_to(tail@.len()),
            p == pow2(i as nat),
            p <= 0x400_0000_0000_0000_0000_0000_0000,
            bits < p,
            f * pow2(i as nat) == bits * d + numbers::digits_value(v@),
            numbers::digits_value(v@) < d,
        decreases b - i,
    {
        let ghost rest = numbers::digits_value(v@);
        let ghost old_bits = bits as int;
        let ghost old_p = p as int;
        let (w, carry) = twice(&v);
        proof {
            lemma_pow2_unfold((i + 1) as nat);
            lemma_digits_bound(w@);
            lemma_pow_bound((i + 1) as nat);
            assert(f * (2 * old_p) == 2 * (f * old_p)) by (nonlinear_arith);
            assert((2 * old_bits + 1) * d == 2 * (old_bits * d) + d) by (nonlinear_arith);
            assert((2 * old_bits) * d == 2 * (old_bits * d)) by (nonlinear_arith);
        }
        bits = 2 * bits + (if carry {
            1
        } else {
            0
        });
        p = 2 * p;
        v = w;
        i += 1;
    }
    let left: u128 = digits_capped(v.as_slice(), 1);
    (bits, p, left == 0)
}

proof fn lemma_pow_bound(i: nat)
    requires
        i <= 106,
    ensures
        pow2(i) <= 0x400_0000_0000_0000_0000_0000_0000,
{
    lemma_powers();
    if i < 106 {
        lemma_pow2_strictly_increases(i, 106);
    }
}

proof fn lemma_powers()
    ensures
        pow2(0) == 1,
        pow2(1) == 2,
        pow2(10) == 0x400,
        pow2(52) == 0x10_0000_0000_0000,
        pow2(53) == 0x20_0000_0000_0000,
        pow2(54) == 0x40_0000_0000_0000,
        pow2(63) == 0x8000_0000_0000_0000,
        pow2(106) == 0x400_0000_0000_0000_0000_0000_0000,
        pow2(128) == 0x1_0000_0000_0000_0000_0000_0000_0000_0000,
{
    lemma2_to64();
    lemma2_to64_rest();
    lemma_pow2_adds(53, 53);
    lemma_pow2_adds(64, 64);
}

proof fn lemma_forty_digits()
    ensures
        ten_to(40) >= pow2(106),
        ten_to(40) >= 2,
{
    lemma_powers();
    reveal_with_fuel(ten_to, 11);
    assert(ten_to(10) == 10000000000);
    lemma_ten_adds(10, 10);
    lemma_ten_adds(20, 20);
    let a = ten_to(10);
    let b = ten_to(20);
    assert(a * a == 100000000000000000000) by (nonlinear_arith)
        requires
            a == 10000000000,
    ;
    assert(b * b == 10000000000000000000000000000000000000000nat) by (nonlinear_arith)
        requires
            b == 100000000000000000000,
    ;
}

/// The place of the highest binary digit of a number, and two to its power.
fn find_top_bit(n: u128) -> (r: u64)
    requires
        1 <= n,
    ensures
        r == top_bit(n as nat),
        r < 128,
{
    let mut v: u128 = n;
    let mut e: u64 = 0;
    proof {
        lemma_powers();
        lemma_top_bit(n as nat, 128);
    }
    while v > 1
        invariant
            1 <= v,
            top_bit(n as nat) == e + top_bit(v as nat),
            top_bit(n as nat) < 128,
        decreases v,
    {
        v = v / 2;
        e += 1;
    }
    e
}

proof fn lemma_top_bit(n: nat, k: nat)
    requires
        1 <= n < pow2(k),
        k >= 1,
    ensures
        top_bit(n) < k,
    decreases n,
{
    if n >= 2 {
        lemma_pow2_unfold(k);
        lemma_powers();
        lemma_top_bit(n / 2, (k - 1) as nat);
    }
}

/// The integer for which a number counts in double precision.
fn double_of(whole: u128, tail: &[char]) -> (r: Option<u128>)
    requires
        numbers::all_digits(tail@),
        whole <= 0x8000_0000_0000_0000,
    ensures
        match double_integer(
            whole as nat,
            numbers::digits_value(tail@),
            ten_to(tail@.len()),
        ) {
            Some(n) => r == Some(n as u128) && n <= 0x8000_0000_0000_0000,
            None => r is None,
        },
{
    let ghost f = numbers::digits_value(tail@);
    let ghost d = ten_to(tail@.len());
    proof {
        lemma_digits_bound(tail@);
        lemma_ten_positive(tail@.len());
    }
    if whole == 0 {
        let (bits, p, _) = fraction_bits(tail, 54);
        proof {
            lemma_near_above(f, d, bits as nat, p as nat);
        }
        if bits == p - 1 {
            return Some(1);
        }
        let (more, _, _) = fraction_bits(tail, 106);
        let small: bool = more < p - 1;
        proof {
            lemma_below(f * pow2(106), d, more as nat, (p - 1) as nat);
            assert(d * (pow2(54) - 1) == (p - 1) * d) by (nonlinear_arith)
                requires
                    p == pow2(54),
            ;
        }
        if small {
            Some(0)
        } else {
            None
        }
    } else if whole < 0x10_0000_0000_0000 {
        let e = find_top_bit(whole);
        proof {
            lemma_powers();
            lemma_top_bit(whole as nat, 52);
        }
        let (bits, p, exact) = fraction_bits(tail, 53 - e);
        proof {
            lemma_near_above(f, d, bits as nat, p as nat);
            lemma_near_below(f, d, bits as nat, p as nat);
        }
        if bits == 0 || (bits == 1 && exact) {
            Some(whole)
        } else if bits == p - 1 {
            Some(whole + 1)
        } else {
            None
        }
    } else if whole < 0x8000_0000_0000_0000 {
        Some(round_large(whole, tail))
    } else {
        Some(whole)
    }
}

proof fn lemma_near_above(f: nat, d: nat, bits: nat, p: nat)
    requires
        f < d,
        bits < p,
        0 <= f * p - bits * d < d,
    ensures
        (d - f) * p <= d <==> bits == p - 1,
{
    assert((d - f) * p == d * p - f * p) by (nonlinear_arith);
    if bits == p - 1 {
        assert(d * p == (p - 1) * d + d) by (nonlinear_arith);
    } else {
        assert(bits * d + d <= (p - 1) * d) by (nonlinear_arith)
            requires
                bits + 1 <= p - 1,
        ;
        assert(d * p == (p - 1) * d + d) by (nonlinear_arith);
    }
}

proof fn lemma_near_below(f: nat, d: nat, bits: nat, p: nat)
    requires
        0 <= f * p - bits * d < d,
    ensures
        f * p <= d <==> bits == 0 || (bits == 1 && f * p - bits * d == 0),
{
    if bits >= 2 {
        assert(bits * d >= 2 * d) by (nonlinear_arith)
            requires
                bits >= 2,
        ;
        assert(d > 0);
    } else if bits == 1 {
        assert(1 * d == d) by (nonlinear_arith);
    } else {
        assert(0 * d == 0) by (nonlinear_arith);
    }
}

proof fn lemma_below(x: nat, d: nat, bits: nat, limit: nat)
    requires
        0 <= x - bits * d < d,
    ensures
        x < limit * d <==> bits < limit,
{
    if bits < limit {
        assert(bits * d + d <= limit * d) by (nonlinear_arith)
            requires
                bits + 1 <= limit,
        ;
    } else {
        assert(limit * d <= bits * d) by (nonlinear_arith)
            requires
                limit <= bits,
        ;
    }
}

/// A large number rounded to 53 binary digits.
fn round_large(whole: u128, tail: &[char]) -> (r: u128)
    requires
        numbers::all_digits(tail@),
        0x10_0000_0000_0000 <= whole < 0x8000_0000_0000_0000,
    ensures
        r == rounded(
            whole as nat,
            numbers::digits_value(tail@),
            ten_to(tail@.len()),
            pow2((top_bit(whole as nat) - 52) as nat),
        ),
        r <= 0x8000_0000_0000_0000,
{
    let e = find_top_bit(whole);
    let ghost f = numbers::digits_value(tail@);
    let ghost d = ten_to(tail@.len());
    proof {
        lemma_powers();
        lemma_top_bit(whole as nat, 63);
        lemma_top_bit_least(whole as nat, 52);
    }
    let mut u: u128 = 1;
    let mut i: u64 = 52;
    while i < e
        invariant
            52 <= i <= e,
            e <= 62,
            u == pow2((i - 52) as nat),
            1 <= u <= 0x400,
        decreases e - i,
    {
        proof {
            lemma_pow2_unfold((i + 1 - 52) as nat);
            lemma_powers();
            if i + 1 - 52 < 10 {
                lemma_pow2_strictly_increases((i + 1 - 52) as nat, 10);
            }
        }
        u = 2 * u;
        i += 1;
    }
    let (bits, _, exact) = fraction_bits(tail, 1);
    let q: u128 = whole / u;
    let t: u128 = 2 * (whole % u) + bits;
    let up: bool = t > u || (t == u && (!exact || q % 2 == 1));
    proof {
        let r0 = (whole % u) as int;
        let rest = f * 2 - bits * d;
        lemma_ten_positive(tail@.len());
        assert(2 * (r0 * d + f) == t * d + rest) by (nonlinear_arith)
            requires
                rest == f * 2 - bits * d,
                t == 2 * r0 + bits,
        ;
        if t > u {
            assert(t * d >= u * d + d) by (nonlinear_arith)
                requires
                    t >= u + 1,
            ;
        } else if t < u {
            assert(t * d + d <= u * d) by (nonlinear_arith)
                requires
                    t + 1 <= u,
            ;
        }
        lemma_round_bound(whole as nat, u as nat, e as nat);
        assert(q * u <= whole) by {
            vstd::arithmetic::div_mod::lemma_fundamental_div_mod(whole as int, u as int);
            assert(q * u == u * q) by (nonlinear_arith);
        }
        assert((q + 1) * u == q * u + u) by (nonlinear_arith);
    }
    if up {
        (q + 1) * u
    } else {
        q * u
    }
}

proof fn lemma_top_bit_least(n: nat, k: nat)
    requires
        pow2(k) <= n,
    ensures
        k <= top_bit(n),
        pow2(top_bit(n)) <= n < 2 * pow2(top_bit(n)),
    decreases n,
{
    lemma_powers();
    lemma_pow2_pos(k);
    if n < 2 {
        if k > 0 {
            lemma_pow2_strictly_increases(0, k);
        }
    } else {
        lemma_pow2_unfold(1 + top_bit(n / 2));
        if k > 0 {
            lemma_pow2_unfold(k);
            lemma_top_bit_least(n / 2, (k - 1) as nat);
        } else {
            lemma_top_bit_least(n / 2, 0);
        }
    }
}

/// The next multiple of the unit stays within the next power of two.
proof fn lemma_round_bound(n: nat, u: nat, e: nat)
    requires
        52 <= e <= 62,
        e == top_bit(n),
        u == pow2((e - 52) as nat),
        n < 0x8000_0000_0000_0000,
        n >= 0x10_0000_0000_0000,
    ensures
        (n / u + 1) * u <= 0x8000_0000_0000_0000,
{
    lemma_powers();
    lemma_top_bit_least(n, 52);
    lemma_pow2_pos((e - 52) as nat);
    lemma_pow2_adds((63 - e) as nat, (e - 52) as nat);
    lemma_pow2_adds(52, (63 - 52 - (e - 52)) as nat);
    let m = pow2((63 - (e - 52)) as nat);
    lemma_pow2_adds((63 - (e - 52)) as nat, (e - 52) as nat);
    assert(m * u == 0x8000_0000_0000_0000);
    assert(n / u < m) by (nonlinear_arith)
        requires
            n < m * u,
            u > 0,
    ;
    assert((n / u + 1) * u <= m * u) by (nonlinear_arith)
        requires
            n / u + 1 <= m,
    ;
}

/// The first 309 digits of a number, filled up with zeros.
fn leading_digits(s: &[char]) -> (r: Vec<char>)
    ensures
        r@ == first_digits(s@),
{
    let mut out: Vec<char> = Vec::new();
    let mut i: usize = 0;
    while i < 309
        invariant
            i <= 309,
            out@ =~= first_digits(s@).take(i as int),
        decreases 309 - i,
    {
        if i < s.len() {
            out.push(s[i]);
        } else {
            out.push('0');
        }
        i += 1;
    }
    assert(out@ =~= first_digits(s@));
    out
}

proof fn lemma_tiny(f: nat, len: nat, k: nat)
    requires
        f < ten_to(len),
        k >= len + 40,
    ensures
        double_integer(f / ten_to(k), f % ten_to(k), ten_to(k)) == Some(0nat),
{
    let d = ten_to(k);
    let big = ten_to((k - len) as nat);
    lemma_ten_adds(len, (k - len) as nat);
    lemma_ten_adds(40, (k - len - 40) as nat);
    lemma_ten_positive((k - len - 40) as nat);
    lemma_ten_positive(len);
    let least = ten_to(40);
    lemma_powers();
    lemma_forty_digits();
    let y = ten_to((k - len - 40) as nat);
    assert(big >= least) by (nonlinear_arith)
        requires
            big == least * y,
            y >= 1,
    ;
    let x = ten_to(len);
    assert(d >= least * x) by (nonlinear_arith)
        requires
            d == x * big,
            big >= least,
    ;
    assert(least * x > least * f) by (nonlinear_arith)
        requires
            x > f,
            least > 0,
    ;
    assert(f * pow2(106) <= least * f) by (nonlinear_arith)
        requires
            pow2(106) <= least,
    ;
    assert(f < d) by (nonlinear_arith)
        requires
            least * f < d,
            least >= 1,
    ;
    vstd::arithmetic::div_mod::lemma_small_mod(f, d);
    vstd::arithmetic::div_mod::lemma_basic_div(f as int, d as int);
    assert(d * (pow2(54) - 1) >= d) by (nonlinear_arith)
        requires
            pow2(54) >= 2,
    ;
    assert(2 * f < d) by (nonlinear_arith)
        requires
            least * f < d,
            least >= 2,
    ;
    assert((d - f) * pow2(54) > d) by (nonlinear_arith)
        requires
            2 * f < d,
            pow2(54) >= 2,
    ;
}

/// The integer for which digits with a moved point count, cut off far out.
fn integer_of(digits: &[char], scale: i128, Ghost(exact): Ghost<int>) -> (r: Option<u128>)
    requires
        numbers::all_digits(digits@),
        scale == exact || (scale > 0x1_0000_0000_0000_0000_0000 && exact >= scale) || (scale
            < -0x1_0000_0000_0000_0000_0000 && exact <= scale),
        -0x2_0000_0000_0000_0000_0000_0000 < scale < 0x2_0000_0000_0000_0000_0000_0000,
    ensures
        match integer_value(digits@, exact) {
            Some(n) => r == Some(capped(n, 0x8000_0000_0000_0000) as u128),
            None => r is None,
        },
{
    proof {
        lemma_leading_zeros(digits@);
    }
    let n: usize = digits.len();
    let significant = trim_start_matches(digits, '0');
    let m: usize = significant.len();
    if m == 0 {
        return Some(0);
    }
    let size: i128 = m as i128 + scale;
    if size > 309 {
        return None;
    }
    if size == 309 {
        let first = leading_digits(significant);
        let limit = chars_of(TOO_LARGE);
        if !comes_before(first.as_slice(), limit.as_slice()) {
            return None;
        }
    }
    if scale >= 0 {
        let none = part(digits, 0, 0);
        assert(none@ =~= Seq::<char>::empty());
        assert(ten_to(0) == 1);
        let v: u128 = digits_capped(digits, 0x8000_0000_0000_0000);
        let whole: u128 = shifted_capped(
            v,
            scale as u64,
            0x8000_0000_0000_0000,
            Ghost(numbers::digits_value(digits@)),
        );
        proof {
            lemma_cut_off(numbers::digits_value(digits@) * ten_to(scale as nat), 0, 1);
        }
        return double_of(whole, none);
    }
    let ghost value = numbers::digits_value(digits@);
    proof {
        lemma_digits_bound(digits@);
    }
    if -scale > n as i128 + 40 {
        proof {
            lemma_tiny(value, n as nat, (-exact) as nat);
        }
        return Some(0);
    }
    let k: i128 = -scale;
    if k <= n as i128 {
        let keep: usize = (n as i128 - k) as usize;
        let head = part(digits, 0, keep);
        let tail = part(digits, keep, n);
        assert(head@ =~= digits@.take(keep as int));
        assert(tail@ =~= digits@.skip(keep as int));
        proof {
            lemma_part_digits(digits@, keep as int);
            lemma_digits_split(digits@, keep as int);
            lemma_digits_bound(tail@);
            lemma_quotient(
                numbers::digits_value(head@),
                numbers::digits_value(tail@),
                ten_to(k as nat),
            );
            lemma_cut_off(
                numbers::digits_value(head@),
                numbers::digits_value(tail@),
                ten_to(k as nat),
            );
        }
        let whole: u128 = digits_capped(head, 0x8000_0000_0000_0000);
        double_of(whole, tail)
    } else {
        let zeros: usize = (k - n as i128) as usize;
        let mut all: Vec<char> = Vec::new();
        let mut j: usize = 0;
        while j < zeros
            invariant
                j <= zeros,
                all@.len() == j,
                forall|x: int| 0 <= x < j ==> #[trigger] all@[x] == '0',
            decreases zeros - j,
        {
            all.push('0');
            j += 1;
        }
        let ghost front = all@;
        append_chars(&mut all, digits);
        proof {
            lemma_zeros_in_front(front, digits@);
            assert(all@ == front + digits@);
            lemma_digits_bound(all@);
            assert(all@.len() == k);
            vstd::arithmetic::div_mod::lemma_small_mod(value, ten_to(k as nat));
            vstd::arithmetic::div_mod::lemma_basic_div(value as int, ten_to(k as nat) as int);
        }
        double_of(0, all.as_slice())
    }
}

/// A number that is cut off far out counts for the same integer, cut off there too.
proof fn lemma_cut_off(i: nat, f: nat, d: nat)
    ensures
        i >= 0x8000_0000_0000_0000 ==> double_integer(i, f, d) == Some(i) && double_integer(
            0x8000_0000_0000_0000,
            f,
            d,
        ) == Some(0x8000_0000_0000_0000nat),
{
}

proof fn lemma_part_digits(s: Seq<char>, k: int)
    requires
        numbers::all_digits(s),
        0 <= k <= s.len(),
    ensures
        numbers::all_digits(s.take(k)),
        numbers::all_digits(s.skip(k)),
{
    assert forall|i: int| 0 <= i < s.take(k).len() implies numbers::is_digit(
        #[trigger] s.take(k)[i],
    ) by {
        assert(numbers::is_digit(s[i]));
    }
    assert forall|i: int| 0 <= i < s.skip(k).len() implies numbers::is_digit(
        #[trigger] s.skip(k)[i],
    ) by {
        assert(numbers::is_digit(s[k + i]));
    }
}

proof fn lemma_quotient(q: nat, r: nat, d: nat)
    requires
        r < d,
    ensures
        (q * d + r) / d == q,
        (q * d + r) % d == r,
{
    vstd::arithmetic::div_mod::lemma_fundamental_div_mod_converse(
        (q * d + r) as int,
        d as int,
        q as int,
        r as int,
    );
}

proof fn lemma_zeros_in_front(a: Seq<char>, b: Seq<char>)
    requires
        forall|i: int| 0 <= i < a.len() ==> #[trigger] a[i] == '0',
        numbers::all_digits(b),
    ensures
        numbers::all_digits(a + b),
        numbers::digits_value(a + b) == numbers::digits_value(b),
    decreases a.len(),
{
    assert forall|i: int| 0 <= i < (a + b).len() implies numbers::is_digit(#[trigger] (a + b)[i]) by {
        if i < a.len() {
            assert((a + b)[i] == a[i]);
        } else {
            assert((a + b)[i] == b[i - a.len()]);
        }
    }
    if a.len() == 0 {
        assert(a + b =~= b);
    } else {
        assert((a + b)[0] == a[0]);
        lemma_drop_zero(a + b);
        assert((a + b).skip(1) =~= a.skip(1) + b);
        lemma_zeros_in_front(a.skip(1), b);
    }
}

/// Whether the text is empty or an exponent.
fn exponent(e: &[char]) -> (r: bool)
    ensures
        r == numbers::is_exponent(e@),
{
    let k: usize = e.len();
    if k == 0 {
        return true;
    }
    if e[0] != 'e' && e[0] != 'E' {
        return false;
    }
    if k == 1 {
        assert(numbers::unsigned_part(e@.skip(1)).len() == 0);
        return false;
    }
    assert(e@.skip(1)[0] == e@[1]);
    let from: usize = if e[1] == '+' || e[1] == '-' {
        2
    } else {
        1
    };
    assert(e@.skip(from as int) =~= numbers::unsigned_part(e@.skip(1)));
    from < k && digits_at(e, from) == k - from
}

/// The parts of a number: all its digits, how many stand behind the point, and
/// the exponent as it is written.
fn split_number<'a>(t: &'a [char]) -> (r: Option<(Vec<char>, usize, &'a [char])>)
    ensures
        match r {
            Some((digits, fraction, e)) => numbers::is_float_number(t@) && digits@ == whole_part(
                t@,
            ) + fraction_part(t@) && fraction == fraction_part(t@).len() && e@ == exponent_part(
                t@,
            ) && numbers::is_exponent(e@) && numbers::all_digits(digits@),
            None => !numbers::is_float_number(t@),
        },
{
    let m: usize = t.len();
    assert(t@.skip(0) =~= t@);
    let whole: usize = digits_at(t, 0);
    let w = part(t, 0, whole);
    assert(w@ =~= whole_part(t@));
    let mut digits: Vec<char> = Vec::new();
    append_chars(&mut digits, w);
    assert(digits@ =~= whole_part(t@));
    let ghost rest = behind_whole(t@);
    if whole < m && t[whole] == '.' {
        assert(rest[0] == '.');
        assert(rest.skip(1) =~= t@.skip(whole + 1));
        let fraction: usize = digits_at(t, whole + 1);
        let f = part(t, whole + 1, whole + 1 + fraction);
        assert(f@ =~= fraction_part(t@));
        append_chars(&mut digits, f);
        let tail = part(t, whole + 1 + fraction, m);
        assert(tail@ =~= exponent_part(t@));
        assert(rest.skip(1).skip(fraction as int) =~= tail@);
        if (whole > 0 || fraction > 0) && exponent(tail) {
            proof {
                lemma_join_digits(w@, f@);
            }
            Some((digits, fraction, tail))
        } else {
            None
        }
    } else {
        proof {
            if whole < m {
                assert(rest[0] == t@[whole as int]);
            }
        }
        assert(digits@ =~= whole_part(t@) + fraction_part(t@));
        let tail = part(t, whole, m);
        assert(tail@ =~= exponent_part(t@));
        if whole > 0 && exponent(tail) {
            Some((digits, 0, tail))
        } else {
            None
        }
    }
}

proof fn lemma_join_digits(a: Seq<char>, b: Seq<char>)
    requires
        numbers::all_digits(a),
        numbers::all_digits(b),
    ensures
        numbers::all_digits(a + b),
{
    assert forall|i: int| 0 <= i < (a + b).len() implies numbers::is_digit(#[trigger] (a + b)[i]) by {
        if i < a.len() {
            assert((a + b)[i] == a[i]);
        } else {
            assert((a + b)[i] == b[i - a.len()]);
        }
    }
}

/// The integer that a decimal number stands for, if it stands for one.
fn parse_decimal_bound(s: &[char]) -> (r: Option<i64>)
    ensures
        r == decimal_bound(s@),
{
    let n: usize = s.len();
    let start: usize = if n > 0 && (s[0] == '+' || s[0] == '-') {
        1
    } else {
        0
    };
    let t = part(s, start, n);
    assert(t@ =~= numbers::unsigned_part(s@));
    let negative: bool = n > 0 && s[0] == '-';
    let (digits, fraction, e) = match split_number(t) {
        Some(x) => x,
        None => {
            return None;
        },
    };
    let scale: i128 = read_exponent(e) - fraction as i128;
    match integer_of(digits.as_slice(), scale, Ghost(exponent_value(e@) - fraction)) {
        Some(v) => if negative {
            if v >= 0x8000_0000_0000_0000 {
                Some(i64::MIN)
            } else {
                Some(-(v as i64))
            }
        } else if v >= 0x8000_0000_0000_0000 {
            Some(i64::MAX)
        } else {
            Some(v as i64)
        },
        None => None,
    }
}

/// The bound that a facet states.
pub fn parse_numeric_facet_bound(v: &str) -> (r: Option<i64>)
    ensures
        r == facet_bound(v@),
{
    reveal(facet_bound);
    let c = chars_of(v);
    match parse_i64(c.as_slice()) {
        Some(n) => Some(n),
        None => parse_decimal_bound(c.as_slice()),
    }
}

// -------------------------------------------------------------------- facets

/// The facets with one more: a count, or the text that is none; a bound, or the
/// text that is none; a pattern; a value.
#[verifier::opaque]
pub open spec fn with_facet(f: ParsedRestrictionFacetsModel, local: Seq<char>, v: Seq<char>) -> ParsedRestrictionFacetsModel {
    if local == "length"@ {
        match numbers::u64_spec(v) {
            Some(n) => ParsedRestrictionFacetsModel { length: Some(n), ..f },
            None => ParsedRestrictionFacetsModel { invalid_length: Some(v), ..f },
        }
    } else if local == "minLength"@ {
        match numbers::u64_spec(v) {
            Some(n) => ParsedRestrictionFacetsModel { min_length: Some(n), ..f },
            None => ParsedRestrictionFacetsModel { invalid_min_length: Some(v), ..f },
        }
    } else if local == "maxLength"@ {
        match numbers::u64_spec(v) {
            Some(n) => ParsedRestrictionFacetsModel { max_length: Some(n), ..f },
            None => ParsedRestrictionFacetsModel { invalid_max_length: Some(v), ..f },
        }
    } else if local == "totalDigits"@ {
        match numbers::u64_spec(v) {
            Some(n) => ParsedRestrictionFacetsModel { total_digits: Some(n), ..f },
            None => ParsedRestrictionFacetsModel { invalid_total_digits: Some(v), ..f },
        }
    } else if local == "fractionDigits"@ {
        match numbers::u64_spec(v) {
            Some(n) => ParsedRestrictionFacetsModel { fraction_digits: Some(n), ..f },
            None => ParsedRestrictionFacetsModel { invalid_fraction_digits: Some(v), ..f },
        }
    } else if local == "minInclusive"@ {
        ParsedRestrictionFacetsModel {
            min_inclusive: facet_bound(v),
            min_inclusive_lexical: if facet_bound(v) is None {
                Some(v)
            } else {
                f.min_inclusive_lexical
            },
            ..f
        }
    } else if local == "maxInclusive"@ {
        ParsedRestrictionFacetsModel {
            max_inclusive: facet_bound(v),
            max_inclusive_lexical: if facet_bound(v) is None {
                Some(v)
            } else {
                f.max_inclusive_lexical
            },
            ..f
        }
    } else if local == "minExclusive"@ {
        ParsedRestrictionFacetsModel {
            min_exclusive: facet_bound(v),
            min_exclusive_lexical: if facet_bound(v) is None {
                Some(v)
            } else {
                f.min_exclusive_lexical
            },
            ..f
        }
    } else if local == "maxExclusive"@ {
        ParsedRestrictionFacetsModel {
            max_exclusive: facet_bound(v),
            max_exclusive_lexical: if facet_bound(v) is None {
                Some(v)
            } else {
                f.max_exclusive_lexical
            },
            ..f
        }
    } else if local == "pattern"@ {
        ParsedRestrictionFacetsModel { patterns: f.patterns.push(v), ..f }
    } else if local == "enumeration"@ {
        ParsedRestrictionFacetsModel { enumerations: f.enumerations.push(v), ..f }
    } else {
        f
    }
}

/// Adds a facet.
fn set_facet(f: ParsedRestrictionFacets, local: &str, v: &str) -> (r: ParsedRestrictionFacets)
    ensures
        r@ == with_facet(f@, local@, v@),
{
    reveal(with_facet);
    let c = chars_of(v);
    let mut r = f;
    if eq(local, "length") {
        match parse_u64(c.as_slice()) {
            Some(n) => {
                r.length = Some(n);
            },
            None => {
                r.invalid_length = Some(owned(v));
            },
        }
    } else if eq(local, "minLength") {
        match parse_u64(c.as_slice()) {
            Some(n) => {
                r.min_length = Some(n);
            },
            None => {
                r.invalid_min_length = Some(owned(v));
            },
        }
    } else if eq(local, "maxLength") {
        match parse_u64(c.as_slice()) {
            Some(n) => {
                r.max_length = Some(n);
            },
            None => {
                r.invalid_max_length = Some(owned(v));
            },
        }
    } else if eq(local, "totalDigits") {
        match parse_u64(c.as_slice()) {
            Some(n) => {
                r.total_digits = Some(n);
            },
            None => {
                r.invalid_total_digits = Some(owned(v));
            },
        }
    } else if eq(local, "fractionDigits") {
        match parse_u64(c.as_slice()) {
            Some(n) => {
                r.fraction_digits = Some(n);
            },
            None => {
                r.invalid_fraction_digits = Some(owned(v));
            },
        }
    } else if eq(local, "minInclusive") {
        r.min_inclusive = parse_numeric_facet_bound(v);
        if r.min_inclusive.is_none() {
            r.min_inclusive_lexical = Some(owned(v));
        }
    } else if eq(local, "maxInclusive") {
        r.max_inclusive = parse_numeric_facet_bound(v);
        if r.max_inclusive.is_none() {
            r.max_inclusive_lexical = Some(owned(v));
        }
    } else if eq(local, "minExclusive") {
        r.min_exclusive = parse_numeric_facet_bound(v);
        if r.min_exclusive.is_none() {
            r.min_exclusive_lexical = Some(owned(v));
        }
    } else if eq(local, "maxExclusive") {
        r.max_exclusive = parse_numeric_facet_bound(v);
        if r.max_exclusive.is_none() {
            r.max_exclusive_lexical = Some(owned(v));
        }
    } else if eq(local, "pattern") {
        let value = owned(v);
        r.patterns.push(value);
        assert(r@.patterns =~= f@.patterns.push(v@));
    } else if eq(local, "enumeration") {
        let value = owned(v);
        r.enumerations.push(value);
        assert(r@.enumerations =~= f@.enumerations.push(v@));
    }
    r
}

/// The facets that stand in a restriction from `i` on, added to these.
pub open spec fn facets_from(
    f: ParsedRestrictionFacetsModel,
    nodes: Seq<XmlNodeModel>,
    i: nat,
) -> Result<ParsedRestrictionFacetsModel, ErrorModel>
    decreases nodes.len() - i,
{
    if i >= nodes.len() {
        Ok(f)
    } else {
        match nodes[i as int] {
            XmlNodeModel::Element(e) => match nodes::flaw(e) {
                Some(x) => Err(x),
                None => facets_from(facet_added(f, e), nodes, i + 1),
            },
            n => match nodes::fault(n, "expected restriction child, found "@, ""@) {
                Some(x) => Err(x),
                None => facets_from(f, nodes, i + 1),
            },
        }
    }
}

/// The facets with the one that an element states.
pub open spec fn facet_added(f: ParsedRestrictionFacetsModel, e: XmlElementModel) -> ParsedRestrictionFacetsModel {
    match strmap::lookup(e.attributes, "value"@) {
        Some(v) => with_facet(f, e.local, v),
        None => f,
    }
}

/// The facets that stand in a restriction.
pub fn parse_restriction_body(e: &XmlElement) -> (r: Result<ParsedRestrictionFacets, Error>)
    ensures
        outcome(r) == facets_from(ast::no_facets(), e@.children, 0),
{
    let nodes = &e.children;
    let n: usize = nodes.len();
    let mut i: usize = 0;
    let mut f = ParsedRestrictionFacets::default();
    let ghost all = e@.children;
    while i < n
        invariant
            i <= n,
            n == nodes@.len(),
            all == xml::node_models(*nodes),
            all == e@.children,
            facets_from(ast::no_facets(), all, 0) == facets_from(f@, all, i as nat),
        decreases n - i,
    {
        assert(all[i as int] == nodes@[i as int].model());
        match &nodes[i] {
            XmlNode::Element(child) => {
                skip_element(child)?;
                if let Some(v) = child.attributes.get("value") {
                    f = set_facet(f, child.local.as_str(), v.as_str());
                }
            },
            other => {
                if let Some(x) = fault_of(other, "expected restriction child, found ", "") {
                    return Err(x);
                }
            },
        }
        i += 1;
    }
    Ok(f)
}

} // verus!
