//! Computed values and lengths in DFDL properties.

use vstd::prelude::*;
use crate::ast::{
    ByteOrder, ChoiceProps, ChoicePropsModel, InputValueCalc, InputValueCalcSegment,
    InputValueCalcSegmentModel, LengthUnits, OutputValueCalc, PathStep, PathStepModel,
    StatementProps, StatementPropsModel,
};
use crate::entities;
use crate::entities::expand_entities_chars;
use crate::expr;
use crate::expr::{between_braces, local_of, read_path_steps, split_top_level_commas};
use crate::numbers;
use crate::numbers::{float_text, parse_i16, parse_i64, parse_u64, parse_usize};
use crate::strmap;
use crate::strmap::StrMap;
use crate::text;
use crate::text::{
    chars_of, contains, contains_char, ends_with, find, find_char, first_piece, is, lower, part,
    rfind_char, rsplit_once, split_once, starts_with, string_of, strip_prefix, strip_suffix, trim,
    trim_end_matches, trim_matches,
};

verus! {

// ---------------------------------------------------------------- small pieces

/// The argument of a call that begins with `open` and ends with a parenthesis.
pub open spec fn call_argument(s: Seq<char>, open: Seq<char>) -> Option<Seq<char>> {
    if text::has_prefix(s, open) && text::has_suffix(s, ")"@) {
        Some(s.subrange(open.len() as int, s.len() - 1))
    } else {
        None
    }
}

/// The argument of a call that begins with `open`, which ends in an opening
/// parenthesis, and that ends with a closing one.
pub fn read_call<'a>(s: &'a [char], open: &str) -> (r: Option<&'a [char]>)
    requires
        open@.len() > 0,
        open@.last() == '(',
    ensures
        text::view_opt(r) == call_argument(s@, open@),
        r matches Some(a) ==> a@.len() < s@.len(),
{
    if !starts_with(s, open) || !ends_with(s, ")") {
        return None;
    }
    let o = chars_of(open);
    let n: usize = s.len();
    proof {
        reveal_strlit(")");
        assert(s@.skip(s@.len() - 1)[0] == ')');
        assert(s@.last() == ')');
        if n == open@.len() {
            assert(s@.take(open@.len() as int) == s@);
        }
    }
    Some(part(s, o.len(), n - 1))
}

/// The text of a literal in single quotes.
pub open spec fn string_literal(s: Seq<char>) -> Option<Seq<char>> {
    let t = text::trim_spec(s);
    if t.len() >= 2 && t[0] == '\'' && t.last() == '\'' {
        Some(t.subrange(1, t.len() - 1))
    } else {
        None
    }
}

/// Reads a literal in single quotes.
pub fn parse_xs_string_literal_arg<'a>(arg: &'a [char]) -> (r: Option<&'a [char]>)
    ensures
        text::view_opt(r) == string_literal(arg@),
{
    let t = trim(arg);
    let n: usize = t.len();
    if n < 2 || t[0] != '\'' || t[n - 1] != '\'' {
        return None;
    }
    Some(part(t, 1, n - 1))
}

/// The unit that the arguments of a length function name; bytes by default.
pub open spec fn units_of(args: Seq<char>) -> LengthUnits {
    let l = text::lower_spec(args);
    if text::contains_spec(l, "'bits'"@) || text::contains_spec(l, "\"bits\""@) {
        LengthUnits::Bits
    } else if text::contains_spec(l, "'characters'"@) || text::contains_spec(
        l,
        "\"characters\""@,
    ) {
        LengthUnits::Characters
    } else {
        LengthUnits::Bytes
    }
}

/// The unit that the arguments of a length function name.
fn length_units_from_calc_args(args: &[char]) -> (r: LengthUnits)
    ensures
        r == units_of(args@),
{
    let l = lower(args);
    let l = l.as_slice();
    if contains(l, "'bits'") || contains(l, "\"bits\"") {
        LengthUnits::Bits
    } else if contains(l, "'characters'") || contains(l, "\"characters\"") {
        LengthUnits::Characters
    } else {
        LengthUnits::Bytes
    }
}

/// The first argument of a call, without white space and quotes around it.
pub open spec fn first_argument(args: Seq<char>) -> Seq<char> {
    text::trim_char(text::trim_char(text::trim_spec(text::before_first(args, ',')), '"'), '\'')
}

/// The first argument of a call.
fn first_arg<'a>(args: &'a [char]) -> (r: &'a [char])
    ensures
        r@ == first_argument(args@),
{
    trim_matches(trim_matches(trim(first_piece(args, ',')), '"'), '\'')
}

/// The name of the sibling that `../name` names.
pub open spec fn sibling_name(s: Seq<char>) -> Option<Seq<char>> {
    match text::after_prefix(s, "../"@) {
        Some(name) => Some(expr::local_part(name)),
        None => None,
    }
}

/// The name of the sibling that `../name` names.
fn sibling(s: &[char]) -> (r: Option<String>)
    ensures
        r.deep_view() == sibling_name(s@),
{
    match strip_prefix(s, "../") {
        Some(name) => Some(string_of(local_of(name))),
        None => None,
    }
}

// ------------------------------------------------------------------ byte order

/// The byte order that a literal names.
pub open spec fn byte_order_literal(s: Seq<char>) -> Option<ByteOrder> {
    let t = text::trim_char(text::trim_char(text::trim_spec(s), '\''), '"');
    if t == "bigEndian"@ {
        Some(ByteOrder::BigEndian)
    } else if t == "littleEndian"@ {
        Some(ByteOrder::LittleEndian)
    } else {
        None
    }
}

/// The condition and the two branches of `{ if (c) then a else b }`.
pub open spec fn byte_order_branches(value: Seq<char>) -> Option<
    (Seq<char>, Seq<char>, Seq<char>),
> {
    match expr::braced(value) {
        Some(inner) => match text::after_prefix(inner, "if"@) {
            Some(a) => match text::after_prefix(text::trim_spec(a), "("@) {
                Some(b) => {
                    let rest = text::trim_spec(b);
                    match text::find_spec(rest, ") then "@) {
                        Some(i) => {
                            let tail = text::trim_spec(rest.skip(i + 7));
                            match text::find_spec(tail, " else "@) {
                                Some(j) => Some(
                                    (
                                        text::trim_spec(rest.take(i)),
                                        text::trim_spec(tail.take(j)),
                                        text::trim_spec(tail.skip(j + 6)),
                                    ),
                                ),
                                None => None,
                            }
                        },
                        None => None,
                    }
                },
                None => None,
            },
            None => None,
        },
        None => None,
    }
}

/// The condition and the two byte orders of a conditional byte order.
pub open spec fn byte_order_if(value: Seq<char>) -> Option<(Seq<char>, ByteOrder, ByteOrder)> {
    match byte_order_branches(value) {
        Some((cond, a, b)) => match (byte_order_literal(a), byte_order_literal(b)) {
            (Some(t), Some(f)) => if cond.len() == 0 {
                None
            } else {
                Some((cond, t, f))
            },
            _ => None,
        },
        None => None,
    }
}

/// Reads a byte order.
fn parse_byte_order_literal(order: &[char]) -> (r: Option<ByteOrder>)
    ensures
        r == byte_order_literal(order@),
{
    let t = trim_matches(trim_matches(trim(order), '\''), '"');
    if is(t, "bigEndian") {
        Some(ByteOrder::BigEndian)
    } else if is(t, "littleEndian") {
        Some(ByteOrder::LittleEndian)
    } else {
        None
    }
}

/// Reads a conditional byte order.
pub fn parse_byte_order_if_expr(value: &str) -> (r: Option<(String, ByteOrder, ByteOrder)>)
    ensures
        r.deep_view() == byte_order_if(value@),
{
    proof {
        reveal_strlit(") then ");
        reveal_strlit(" else ");
    }
    let v = chars_of(value);
    let inner = match between_braces(v.as_slice()) {
        Some(t) => t,
        None => {
            return None;
        },
    };
    let rest = match strip_prefix(inner, "if") {
        Some(t) => trim(t),
        None => {
            return None;
        },
    };
    let rest = match strip_prefix(rest, "(") {
        Some(t) => trim(t),
        None => {
            return None;
        },
    };
    let n: usize = rest.len();
    let i: usize = match find(rest, ") then ") {
        Some(i) => i,
        None => {
            return None;
        },
    };
    assert(rest@.subrange(0, i as int) == rest@.take(i as int));
    assert(rest@.subrange(i + 7, n as int) == rest@.skip(i + 7));
    let cond = trim(part(rest, 0, i));
    let tail = trim(part(rest, i + 7, n));
    let m: usize = tail.len();
    let j: usize = match find(tail, " else ") {
        Some(j) => j,
        None => {
            return None;
        },
    };
    assert(tail@.subrange(0, j as int) == tail@.take(j as int));
    assert(tail@.subrange(j + 6, m as int) == tail@.skip(j + 6));
    let t = parse_byte_order_literal(trim(part(tail, 0, j)));
    let f = parse_byte_order_literal(trim(part(tail, j + 6, m)));
    match (t, f) {
        (Some(t), Some(f)) => if cond.len() == 0 {
            None
        } else {
            Some((string_of(cond), t, f))
        },
        _ => None,
    }
}

// --------------------------------------------------------------------- lengths

/// The value of a constant length expression such as `{ 6 }` or `{ 1 + 1 }`.
pub open spec fn constant_length(value: Seq<char>) -> Option<u64> {
    match expr::braced(value) {
        Some(inner) => if inner.len() == 0 || text::contains_spec(inner, ".."@) || inner.contains(
            ':',
        ) || inner.contains('(') || inner.contains('/') {
            None
        } else if numbers::u64_spec(inner) is Some {
            numbers::u64_spec(inner)
        } else {
            match text::split_once_spec(inner, '+') {
                Some((l, r)) => match (
                    numbers::u64_spec(text::trim_spec(l)),
                    numbers::u64_spec(text::trim_spec(r)),
                ) {
                    (Some(a), Some(b)) => Some(
                        if a + b > u64::MAX {
                            u64::MAX
                        } else {
                            (a + b) as u64
                        },
                    ),
                    _ => None,
                },
                None => match text::split_once_spec(inner, '-') {
                    Some((l, r)) => match (
                        numbers::u64_spec(text::trim_spec(l)),
                        numbers::u64_spec(text::trim_spec(r)),
                    ) {
                        (Some(a), Some(b)) => if a >= b {
                            Some((a - b) as u64)
                        } else {
                            None
                        },
                        _ => None,
                    },
                    None => None,
                },
            }
        },
        None => None,
    }
}

/// Parses constant DFDL length expressions such as `{ 6 }`, `{1}`, or `{ 1 + 1 }`.
pub fn parse_constant_length_expr(value: &str) -> (r: Option<u64>)
    ensures
        r == constant_length(value@),
{
    let v = chars_of(value);
    let inner = match between_braces(v.as_slice()) {
        Some(t) => t,
        None => {
            return None;
        },
    };
    if inner.len() == 0 || contains(inner, "..") || contains_char(inner, ':') || contains_char(
        inner,
        '(',
    ) || contains_char(inner, '/') {
        return None;
    }
    if let Some(v) = parse_u64(inner) {
        return Some(v);
    }
    if let Some((l, r)) = split_once(inner, '+') {
        return match (parse_u64(trim(l)), parse_u64(trim(r))) {
            (Some(a), Some(b)) => Some(a.saturating_add(b)),
            _ => None,
        };
    }
    if let Some((l, r)) = split_once(inner, '-') {
        return match (parse_u64(trim(l)), parse_u64(trim(r))) {
            (Some(a), Some(b)) => a.checked_sub(b),
            _ => None,
        };
    }
    None
}

/// The sibling and the adjustment in `name`, `name + n` or `name - n`.
pub open spec fn sibling_adjustment(s: Seq<char>) -> Option<(Seq<char>, i64)> {
    let t = text::trim_spec(s);
    match text::split_once_spec(t, '+') {
        Some((name, delta)) => match numbers::i64_spec(text::trim_spec(delta)) {
            Some(d) => Some((expr::local_part(text::trim_spec(name)), d)),
            None => None,
        },
        None => match text::split_once_spec(t, '-') {
            Some((name, delta)) => match numbers::i64_spec(text::trim_spec(delta)) {
                Some(d) => Some((expr::local_part(text::trim_spec(name)), expr::negated(d))),
                None => None,
            },
            None => Some((expr::local_part(t), 0)),
        },
    }
}

/// Reads the sibling and the adjustment of a length.
fn parse_sibling_length_adjustment(s: &[char]) -> (r: Option<(String, i64)>)
    ensures
        r.deep_view() == sibling_adjustment(s@),
{
    let t = trim(s);
    if let Some((name, delta)) = split_once(t, '+') {
        return match parse_i64(trim(delta)) {
            Some(d) => Some((string_of(local_of(trim(name))), d)),
            None => None,
        };
    }
    if let Some((name, delta)) = split_once(t, '-') {
        return match parse_i64(trim(delta)) {
            Some(d) => Some((string_of(local_of(trim(name))), expr::negate(d))),
            None => None,
        };
    }
    Some((string_of(local_of(t)), 0))
}

/// The sibling that a length expression names, whether it is cast to a long
/// integer, and the adjustment.
pub open spec fn sibling_length(value: Seq<char>) -> Option<(Seq<char>, bool, i64)> {
    match expr::braced(value) {
        Some(inner) => match text::after_prefix(inner, "../"@) {
            Some(path) => match sibling_adjustment(path) {
                Some((name, adjust)) => Some((name, false, adjust)),
                None => None,
            },
            None => match text::find_spec(inner, "../"@) {
                Some(i) => {
                    let tail = text::trim_spec(
                        text::trim_end_char(text::trim_spec(inner.skip(i + 3)), ')'),
                    );
                    if tail.len() == 0 {
                        None
                    } else {
                        match sibling_adjustment(tail) {
                            Some((name, adjust)) => Some(
                                (
                                    name,
                                    text::contains_spec(inner, "xs:long("@) || text::contains_spec(
                                        inner,
                                        "xs:integer("@,
                                    ),
                                    adjust,
                                ),
                            ),
                            None => None,
                        }
                    }
                },
                None => None,
            },
        },
        None => None,
    }
}

/// Reads a length that is taken from a sibling.
pub fn parse_sibling_length_expr(value: &str) -> (r: Option<(String, bool, i64)>)
    ensures
        r.deep_view() == sibling_length(value@),
{
    proof {
        reveal_strlit("../");
    }
    let v = chars_of(value);
    let inner = match between_braces(v.as_slice()) {
        Some(t) => t,
        None => {
            return None;
        },
    };
    if let Some(path) = strip_prefix(inner, "../") {
        return match parse_sibling_length_adjustment(path) {
            Some((name, adjust)) => Some((name, false, adjust)),
            None => None,
        };
    }
    let n: usize = inner.len();
    if let Some(i) = find(inner, "../") {
        assert(inner@.subrange(i + 3, n as int) == inner@.skip(i + 3));
        let tail = trim(trim_end_matches(trim(part(inner, i + 3, n)), ')'));
        if tail.len() > 0 {
            let cast_long: bool = contains(inner, "xs:long(") || contains(inner, "xs:integer(");
            return match parse_sibling_length_adjustment(tail) {
                Some((name, adjust)) => Some((name, cast_long, adjust)),
                None => None,
            };
        }
    }
    None
}

/// The variable that `{ $name }` names.
pub open spec fn variable_name(value: Seq<char>) -> Option<Seq<char>> {
    match expr::braced(value) {
        Some(inner) => if inner.len() > 0 && inner[0] == '$' {
            Some(text::trim_spec(inner.skip(1)))
        } else {
            None
        },
        None => None,
    }
}

/// The variable that `{ $name }` names.
fn read_variable(value: &str) -> (r: Option<String>)
    ensures
        r.deep_view() == variable_name(value@),
{
    let v = chars_of(value);
    match between_braces(v.as_slice()) {
        Some(inner) => {
            let n: usize = inner.len();
            if n > 0 && inner[0] == '$' {
                assert(inner@.subrange(1, n as int) == inner@.skip(1));
                Some(string_of(trim(part(inner, 1, n))))
            } else {
                None
            }
        },
        None => None,
    }
}

/// The length that a variable with a numeric default gives.
pub open spec fn variable_length(
    value: Seq<char>,
    vars: Seq<(Seq<char>, Seq<char>)>,
) -> Option<u64> {
    match variable_name(value) {
        Some(name) => match strmap::lookup(vars, name) {
            Some(v) => numbers::u64_spec(v),
            None => None,
        },
        None => None,
    }
}

/// Reads a length that is taken from a variable.
pub fn parse_variable_length_expr(value: &str, vars: &StrMap<String>) -> (r: Option<u64>)
    ensures
        r == variable_length(value@, vars@),
{
    match read_variable(value) {
        Some(name) => match vars.get(name.as_str()) {
            Some(v) => {
                let c = chars_of(v.as_str());
                parse_u64(c.as_slice())
            },
            None => None,
        },
        None => None,
    }
}

/// The variable that `inputValueCalc` takes its value from.
pub open spec fn variable_input(
    value: Seq<char>,
    vars: Seq<(Seq<char>, Seq<char>)>,
) -> Option<(InputValueCalc, Option<Seq<char>>)> {
    match variable_name(value) {
        Some(name) => if strmap::lookup(vars, name) is Some {
            Some((InputValueCalc::SchemaVariable, Some(name)))
        } else {
            None
        },
        None => None,
    }
}

/// Reads an `inputValueCalc` that takes its value from a variable.
pub fn parse_variable_input_value_calc(
    value: &str,
    vars: &StrMap<String>,
) -> (r: Option<(InputValueCalc, Option<String>)>)
    ensures
        r.deep_view() == variable_input(value@, vars@),
{
    match read_variable(value) {
        Some(name) => if vars.contains_key(name.as_str()) {
            Some((InputValueCalc::SchemaVariable, Some(name)))
        } else {
            None
        },
        None => None,
    }
}

/// The cap of a length that is the length of the value itself, up to five.
pub open spec fn self_length_cap(value: Seq<char>) -> Option<u64> {
    match expr::braced(value) {
        Some(inner) => if text::contains_spec(inner, "fn:string-length(.)"@) && text::contains_spec(
            inner,
            "gt 5"@,
        ) {
            Some(5)
        } else {
            None
        },
        None => None,
    }
}

/// Reads a length that is the length of the value itself, up to five.
pub fn parse_self_string_length_max_expr(value: &str) -> (r: Option<u64>)
    ensures
        r == self_length_cap(value@),
{
    let v = chars_of(value);
    match between_braces(v.as_slice()) {
        Some(inner) => if contains(inner, "fn:string-length(.)") && contains(inner, "gt 5") {
            Some(5)
        } else {
            None
        },
        None => None,
    }
}

// --------------------------------------------------------------------- paths

/// `s` without leading `../`.
pub open spec fn without_ups(s: Seq<char>) -> Seq<char>
    decreases s.len(),
{
    if text::has_prefix(s, "../"@) && s.len() >= 3 {
        without_ups(s.skip(3))
    } else {
        s
    }
}

/// `s` without leading `../`.
fn skip_ups<'a>(s: &'a [char]) -> (r: &'a [char])
    ensures
        r@ == without_ups(s@),
{
    proof {
        reveal_strlit("../");
    }
    let n: usize = s.len();
    let mut i: usize = 0;
    let up = chars_of("../");
    assert(s@.skip(0) == s@);
    while text::matches_at(s, i, up.as_slice())
        invariant
            i <= n,
            n == s@.len(),
            up@ == "../"@,
            "../"@.len() == 3,
            without_ups(s@) == without_ups(s@.skip(i as int)),
        decreases n - i,
    {
        assert(s@.skip(i as int).skip(3) == s@.skip(i + 3));
        i += 3;
    }
    assert(s@.subrange(i as int, n as int) == s@.skip(i as int));
    part(s, i, n)
}

/// The path whose nodes `fn:count(..)` counts.
pub open spec fn count_path(s: Seq<char>) -> Option<Seq<PathStepModel>> {
    match text::after_prefix(text::trim_spec(s), "fn:count("@) {
        Some(a) => match text::before_suffix(a, ")"@) {
            Some(b) => {
                let rest = without_ups(text::trim_spec(b));
                if rest.len() == 0 {
                    None
                } else {
                    Some(expr::path_steps(rest))
                }
            },
            None => None,
        },
        None => None,
    }
}

/// Reads the path of `fn:count(..)`.
pub fn parse_fn_count_path(inner: &[char]) -> (r: Option<Vec<PathStep>>)
    ensures
        r.deep_view() == count_path(inner@),
{
    match strip_prefix(trim(inner), "fn:count(") {
        Some(a) => match strip_suffix(a, ")") {
            Some(b) => {
                let rest = skip_ups(trim(b));
                if rest.len() == 0 {
                    None
                } else {
                    Some(read_path_steps(rest))
                }
            },
            None => None,
        },
        None => None,
    }
}

/// The path whose nodes `outputValueCalc` counts.
pub open spec fn output_count(value: Seq<char>) -> Option<Seq<PathStepModel>> {
    match expr::braced(value) {
        Some(inner) => count_path(inner),
        None => None,
    }
}

/// Reads an `outputValueCalc` that counts the nodes of a path.
pub fn parse_output_value_calc_fn_count(value: &str) -> (r: Option<Vec<PathStep>>)
    ensures
        r.deep_view() == output_count(value@),
{
    let v = chars_of(value);
    match between_braces(v.as_slice()) {
        Some(inner) => parse_fn_count_path(inner),
        None => None,
    }
}

/// The steps of the path `{ ../a/b }`.
pub open spec fn relative_path(value: Seq<char>) -> Option<Seq<PathStepModel>> {
    match expr::braced(value) {
        Some(inner) => relative_steps(inner),
        None => None,
    }
}

/// The steps of the path `../a/b`.
pub open spec fn relative_steps(s: Seq<char>) -> Option<Seq<PathStepModel>> {
    match text::after_prefix(s, "../"@) {
        Some(rest) => if rest.len() == 0 {
            None
        } else {
            Some(expr::path_steps(rest))
        },
        None => None,
    }
}

/// Reads the steps of the path `../a/b`.
fn read_relative_steps(s: &[char]) -> (r: Option<Vec<PathStep>>)
    ensures
        r.deep_view() == relative_steps(s@),
{
    match strip_prefix(s, "../") {
        Some(rest) => if rest.len() == 0 {
            None
        } else {
            Some(read_path_steps(rest))
        },
        None => None,
    }
}

/// Reads the path `{ ../a/b }`.
pub fn parse_input_value_calc_relative_path(value: &str) -> (r: Option<Vec<PathStep>>)
    ensures
        r.deep_view() == relative_path(value@),
{
    let v = chars_of(value);
    match between_braces(v.as_slice()) {
        Some(inner) => read_relative_steps(inner),
        None => None,
    }
}

/// A path that is multiplied with or added to the occurs index, and what is
/// added.
pub open spec fn occurs_index_calc(value: Seq<char>) -> Option<
    (OutputValueCalc, Seq<PathStepModel>, Option<i64>),
> {
    match expr::braced(value) {
        Some(inner) => match text::after_prefix(inner, "dfdl:occursIndex() * "@) {
            Some(rest) => Some(occurs_index_tail(true, text::trim_spec(rest))),
            None => match text::after_prefix(inner, "dfdl:occursIndex() + "@) {
                Some(rest) => Some(occurs_index_tail(false, text::trim_spec(rest))),
                None => None,
            },
        },
        None => None,
    }
}

/// The path and the addend behind the occurs index.
pub open spec fn occurs_index_tail(multiply: bool, path_part: Seq<char>) -> (
    OutputValueCalc,
    Seq<PathStepModel>,
    Option<i64>,
) {
    let (path, addend) = match text::rsplit_once_spec(path_part, '+') {
        Some((left, right)) => if numbers::i64_spec(text::trim_spec(right)) is Some
            && !left.contains('[') {
            (text::trim_spec(left), numbers::i64_spec(text::trim_spec(right)))
        } else {
            (path_part, Some(0i64))
        },
        None => (path_part, Some(0i64)),
    };
    let rel = without_ups(path);
    (
        OutputValueCalc::OccursIndexPath { multiply },
        if rel.len() == 0 {
            Seq::empty()
        } else {
            expr::path_steps(rel)
        },
        addend,
    )
}

/// Reads an `outputValueCalc` over the occurs index.
pub fn parse_output_value_calc_occurs_index(value: &str) -> (r: Option<
    (OutputValueCalc, Vec<PathStep>, Option<i64>),
>)
    ensures
        r.deep_view() == occurs_index_calc(value@),
{
    let v = chars_of(value);
    let inner = match between_braces(v.as_slice()) {
        Some(t) => t,
        None => {
            return None;
        },
    };
    let mut multiply: bool = true;
    let path_part = match strip_prefix(inner, "dfdl:occursIndex() * ") {
        Some(rest) => trim(rest),
        None => match strip_prefix(inner, "dfdl:occursIndex() + ") {
            Some(rest) => {
                multiply = false;
                trim(rest)
            },
            None => {
                return None;
            },
        },
    };
    let mut path = path_part;
    let mut addend: Option<i64> = Some(0);
    if let Some((left, right)) = rsplit_once(path_part, '+') {
        let n: Option<i64> = parse_i64(trim(right));
        if n.is_some() && !contains_char(left, '[') {
            path = trim(left);
            addend = n;
        }
    }
    let rel = skip_ups(path);
    let steps: Vec<PathStep> = if rel.len() == 0 {
        let none: Vec<PathStep> = Vec::new();
        assert(none.deep_view() =~= Seq::<PathStepModel>::empty());
        none
    } else {
        read_path_steps(rel)
    };
    Some((OutputValueCalc::OccursIndexPath { multiply }, steps, addend))
}

/// The path whose value length `outputValueCalc` gives, the unit, and the
/// addend.
pub open spec fn value_length_path(value: Seq<char>) -> Option<
    (Seq<PathStepModel>, LengthUnits, i64),
> {
    match expr::braced(value) {
        Some(inner) => match text::rsplit_once_spec(inner, '+') {
            Some((func, add)) => match numbers::i64_spec(text::trim_spec(add)) {
                Some(addend) => match text::after_prefix(
                    text::trim_spec(func),
                    "dfdl:valueLength("@,
                ) {
                    Some(a) => match text::before_suffix(a, ")"@) {
                        Some(rest) => value_length_args(text::trim_spec(rest), addend),
                        None => None,
                    },
                    None => None,
                },
                None => None,
            },
            None => None,
        },
        None => None,
    }
}

/// The two arguments of a value length, with the addend.
pub open spec fn value_length_args(args: Seq<char>, addend: i64) -> Option<
    (Seq<PathStepModel>, LengthUnits, i64),
> {
    let parts = expr::top_commas(args);
    if parts.len() != 2 {
        None
    } else {
        match relative_steps(text::trim_spec(parts[0])) {
            Some(steps) => Some((steps, units_of(text::trim_spec(parts[1])), addend)),
            None => None,
        }
    }
}

/// Reads an `outputValueCalc` that gives the value length of a path.
pub fn parse_output_value_calc_value_length_path(value: &str) -> (r: Option<
    (Vec<PathStep>, LengthUnits, i64),
>)
    ensures
        r.deep_view() == value_length_path(value@),
{
    let v = chars_of(value);
    let inner = match between_braces(v.as_slice()) {
        Some(t) => t,
        None => {
            return None;
        },
    };
    let (func, add) = match rsplit_once(inner, '+') {
        Some(p) => p,
        None => {
            return None;
        },
    };
    let addend: i64 = match parse_i64(trim(add)) {
        Some(n) => n,
        None => {
            return None;
        },
    };
    let rest = match strip_prefix(trim(func), "dfdl:valueLength(") {
        Some(a) => match strip_suffix(a, ")") {
            Some(b) => trim(b),
            None => {
                return None;
            },
        },
        None => {
            return None;
        },
    };
    let parts = split_top_level_commas(rest);
    assert(expr::top_commas(rest@).len() == parts@.len());
    if parts.len() != 2 {
        return None;
    }
    assert(expr::top_commas(rest@)[0] == parts@[0]@);
    assert(expr::top_commas(rest@)[1] == parts@[1]@);
    match read_relative_steps(trim(parts[0])) {
        Some(steps) => Some((steps, length_units_from_calc_args(trim(parts[1])), addend)),
        None => None,
    }
}

/// A path and what is added to its value.
pub open spec fn infoset_path(value: Seq<char>) -> Option<(Seq<PathStepModel>, i64)> {
    match expr::braced(value) {
        Some(inner) => {
            let (path, addend) = match text::rsplit_once_spec(inner, '+') {
                Some((left, right)) => match numbers::i64_spec(text::trim_spec(right)) {
                    Some(n) => (text::trim_spec(left), n),
                    None => (inner, 0i64),
                },
                None => (inner, 0i64),
            };
            match relative_steps(path) {
                Some(steps) => Some((steps, addend)),
                None => None,
            }
        },
        None => None,
    }
}

/// Reads an `outputValueCalc` that adds to the value of a path.
pub fn parse_output_value_calc_infoset_path(value: &str) -> (r: Option<(Vec<PathStep>, i64)>)
    ensures
        r.deep_view() == infoset_path(value@),
{
    let v = chars_of(value);
    let inner = match between_braces(v.as_slice()) {
        Some(t) => t,
        None => {
            return None;
        },
    };
    let mut path = inner;
    let mut addend: i64 = 0;
    if let Some((left, right)) = rsplit_once(inner, '+') {
        if let Some(n) = parse_i64(trim(right)) {
            path = trim(left);
            addend = n;
        }
    }
    match read_relative_steps(path) {
        Some(steps) => Some((steps, addend)),
        None => None,
    }
}

// -------------------------------------------------------------- concatenations

/// The pieces of one argument of `fn:concat`.
pub open spec fn concat_arg(arg: Seq<char>) -> Option<Seq<InputValueCalcSegmentModel>>
    decreases arg.len(), 1int, 0int,
    via concat_arg_decreases
{
    let t = text::trim_spec(arg);
    if t.len() == 0 {
        None
    } else if text::has_prefix(t, "fn:concat("@) {
        match call_argument(t, "fn:concat("@) {
            Some(nested) => if nested.len() < t.len() {
                concat_flat(nested)
            } else {
                None
            },
            None => None,
        }
    } else {
        match concat_leaf(t) {
            Some(segment) => Some(seq![segment]),
            None => None,
        }
    }
}

#[via_fn]
proof fn concat_arg_decreases(arg: Seq<char>) {
    text::lemma_trim_len(arg);
}

/// A piece that is no concatenation itself: a sibling, a path, a literal, a
/// part of a sibling, or a length.
pub open spec fn concat_leaf(t: Seq<char>) -> Option<InputValueCalcSegmentModel> {
    if text::has_prefix(t, "../"@) {
        match sibling_name(t) {
            Some(name) => Some(InputValueCalcSegmentModel::Sibling(name)),
            None => None,
        }
    } else if (text::has_prefix(t, "/"@) || text::has_prefix(t, "parent::"@)) && expr::ivc_path(
        t,
    ) is Some {
        Some(InputValueCalcSegmentModel::InfosetPath((expr::ivc_path(t)->0).1))
    } else if expr::quoted(t) {
        Some(InputValueCalcSegmentModel::Literal(expr::unquoted(t)))
    } else if text::has_prefix(t, "fn:substring("@) {
        match call_argument(t, "fn:substring("@) {
            Some(args) => match substring_args(args) {
                Some((sibling, start, length)) => Some(
                    InputValueCalcSegmentModel::Substring { sibling, start, length },
                ),
                None => None,
            },
            None => None,
        }
    } else {
        match call_argument(t, "dfdl:valueLength("@) {
            Some(args) => {
                let parts = expr::top_commas(text::trim_spec(args));
                if parts.len() != 2 {
                    None
                } else {
                    match sibling_name(text::trim_spec(parts[0])) {
                        Some(sibling) => Some(
                            InputValueCalcSegmentModel::ValueLength {
                                sibling,
                                units: units_of(text::trim_spec(parts[1])),
                            },
                        ),
                        None => None,
                    }
                }
            },
            None => None,
        }
    }
}

/// The sibling, the start and the length of a substring.
pub open spec fn substring_args(args: Seq<char>) -> Option<(Seq<char>, usize, usize)> {
    let parts = expr::top_commas(args);
    if parts.len() != 3 {
        None
    } else {
        match (
            sibling_name(parts[0]),
            numbers::usize_spec(parts[1]),
            numbers::usize_spec(parts[2]),
        ) {
            (Some(sibling), Some(start), Some(length)) => Some((sibling, start, length)),
            _ => None,
        }
    }
}

/// Reads the arguments of a substring.
fn read_substring_args(args: &[char]) -> (r: Option<(String, usize, usize)>)
    ensures
        r.deep_view() == substring_args(args@),
{
    let parts = split_top_level_commas(args);
    assert(expr::top_commas(args@).len() == parts@.len());
    if parts.len() != 3 {
        return None;
    }
    assert(expr::top_commas(args@)[0] == parts@[0]@);
    assert(expr::top_commas(args@)[1] == parts@[1]@);
    assert(expr::top_commas(args@)[2] == parts@[2]@);
    match (sibling(parts[0]), parse_usize(parts[1]), parse_usize(parts[2])) {
        (Some(sibling), Some(start), Some(length)) => Some((sibling, start, length)),
        _ => None,
    }
}

/// Reads a piece that is no concatenation itself.
fn read_concat_leaf(t: &[char]) -> (r: Option<InputValueCalcSegment>)
    ensures
        r.deep_view() == concat_leaf(t@),
{
    proof {
        reveal_strlit("fn:substring(");
        reveal_strlit("dfdl:valueLength(");
    }
    if starts_with(t, "../") {
        return match sibling(t) {
            Some(name) => Some(InputValueCalcSegment::Sibling(name)),
            None => None,
        };
    }
    if starts_with(t, "/") || starts_with(t, "parent::") {
        if let Some((_, steps)) = expr::parse_ivc_path_steps(t) {
            return Some(InputValueCalcSegment::InfosetPath(steps));
        }
    }
    if expr::is_quoted(t) {
        let u = expr::unquote(t);
        return Some(InputValueCalcSegment::Literal(string_of(u.as_slice())));
    }
    if starts_with(t, "fn:substring(") {
        return match read_call(t, "fn:substring(") {
            Some(args) => match read_substring_args(args) {
                Some((sibling, start, length)) => Some(
                    InputValueCalcSegment::Substring { sibling, start, length },
                ),
                None => None,
            },
            None => None,
        };
    }
    match read_call(t, "dfdl:valueLength(") {
        Some(args) => {
            let rest = trim(args);
            let parts = split_top_level_commas(rest);
            assert(expr::top_commas(rest@).len() == parts@.len());
            if parts.len() != 2 {
                return None;
            }
            assert(expr::top_commas(rest@)[0] == parts@[0]@);
            assert(expr::top_commas(rest@)[1] == parts@[1]@);
            match sibling(trim(parts[0])) {
                Some(sibling) => Some(
                    InputValueCalcSegment::ValueLength {
                        sibling,
                        units: length_units_from_calc_args(trim(parts[1])),
                    },
                ),
                None => None,
            }
        },
        None => None,
    }
}

/// The pieces of the arguments of `fn:concat`, one behind the other.
pub open spec fn concat_flat(args: Seq<char>) -> Option<Seq<InputValueCalcSegmentModel>>
    decreases args.len(), 3int, 0int,
{
    concat_all(expr::top_commas(args), args.len())
}

/// The pieces of a list of arguments, each no longer than `bound`.
pub open spec fn concat_all(parts: Seq<Seq<char>>, bound: nat) -> Option<
    Seq<InputValueCalcSegmentModel>,
>
    decreases bound, 2int, parts.len(),
{
    if parts.len() == 0 {
        Some(Seq::empty())
    } else if parts.last().len() > bound {
        None
    } else {
        match (concat_all(parts.drop_last(), bound), concat_arg(parts.last())) {
            (Some(head), Some(tail)) => Some(head + tail),
            _ => None,
        }
    }
}

proof fn lemma_concat_none(parts: Seq<Seq<char>>, bound: nat, n: int)
    requires
        0 <= n <= parts.len(),
        concat_all(parts.take(n), bound) is None,
    ensures
        concat_all(parts, bound) is None,
    decreases parts.len() - n,
{
    if n == parts.len() {
        assert(parts.take(n) == parts);
    } else {
        assert(parts.take(n + 1).drop_last() == parts.take(n));
        lemma_concat_none(parts, bound, n + 1);
    }
}

/// Reads one argument of `fn:concat`.
fn parse_concat_arg_segment(arg: &[char]) -> (r: Option<Vec<InputValueCalcSegment>>)
    ensures
        r.deep_view() == concat_arg(arg@),
    decreases arg@.len(), 1int, 0int,
{
    proof {
        reveal_strlit("fn:concat(");
    }
    let t = trim(arg);
    if t.len() == 0 {
        return None;
    }
    if starts_with(t, "fn:concat(") {
        return match read_call(t, "fn:concat(") {
            Some(nested) => parse_concat_args_flat(nested),
            None => None,
        };
    }
    match read_concat_leaf(t) {
        Some(segment) => {
            let ghost m = segment.deep_view();
            let mut out: Vec<InputValueCalcSegment> = Vec::new();
            out.push(segment);
            assert(out.deep_view() =~= seq![m]);
            Some(out)
        },
        None => None,
    }
}

/// Reads the arguments of `fn:concat`.
fn parse_concat_args_flat(args: &[char]) -> (r: Option<Vec<InputValueCalcSegment>>)
    ensures
        r.deep_view() == concat_flat(args@),
    decreases args@.len(), 3int, 0int,
{
    let parts = split_top_level_commas(args);
    let ghost all = text::view_all(parts@);
    let mut out: Vec<InputValueCalcSegment> = Vec::new();
    assert(out.deep_view() =~= Seq::<InputValueCalcSegmentModel>::empty());
    let mut i: usize = 0;
    while i < parts.len()
        invariant
            i <= parts@.len(),
            all == text::view_all(parts@),
            all == expr::top_commas(args@),
            forall|k: int| 0 <= k < parts@.len() ==> (#[trigger] parts@[k])@.len() <= args@.len(),
            concat_all(all.take(i as int), args@.len()) == Some(out.deep_view()),
        decreases parts@.len() - i,
    {
        assert(all.take(i + 1).drop_last() == all.take(i as int));
        assert(all.take(i + 1).last() == parts@[i as int]@);
        match parse_concat_arg_segment(parts[i]) {
            Some(more) => {
                let ghost head = out.deep_view();
                let ghost tail = more.deep_view();
                let mut more = more;
                out.append(&mut more);
                assert(out.deep_view() =~= head + tail);
            },
            None => {
                proof {
                    lemma_concat_none(all, args@.len(), i + 1);
                }
                return None;
            },
        }
        i += 1;
    }
    assert(all.take(i as int) == all);
    Some(out)
}

/// The pieces of `{ fn:concat(..) }`.
pub open spec fn concatenation(value: Seq<char>) -> Option<Seq<InputValueCalcSegmentModel>> {
    match expr::braced(value) {
        Some(inner) => match call_argument(inner, "fn:concat("@) {
            Some(args) => concat_flat(args),
            None => None,
        },
        None => None,
    }
}

/// Reads `{ fn:concat(..) }`.
pub fn parse_input_value_calc_concat(value: &str) -> (r: Option<Vec<InputValueCalcSegment>>)
    ensures
        r.deep_view() == concatenation(value@),
{
    let v = chars_of(value);
    read_concat(v.as_slice())
}

/// Reads `{ fn:concat(..) }`.
fn read_concat(value: &[char]) -> (r: Option<Vec<InputValueCalcSegment>>)
    ensures
        r.deep_view() == concatenation(value@),
{
    proof {
        reveal_strlit("fn:concat(");
    }
    match between_braces(value) {
        Some(inner) => match read_call(inner, "fn:concat(") {
            Some(args) => parse_concat_args_flat(args),
            None => None,
        },
        None => None,
    }
}

// -------------------------------------------------------------- inputValueCalc

/// What `inputValueCalc` computes, with the sibling and the literal that it
/// takes.
pub open spec fn input_calc(value: Seq<char>) -> Option<
    (InputValueCalc, Option<Seq<char>>, Option<Seq<char>>),
> {
    match expr::braced(value) {
        Some(inner) => {
            let hex = match call_argument(inner, "xs:hexBinary("@) {
                Some(arg) => sibling_name(text::trim_spec(arg)),
                None => None,
            };
            if hex is Some {
                Some((InputValueCalc::HexBinaryFromSibling, hex, None))
            } else if call_argument(inner, "xs:string("@) is Some {
                match string_literal(call_argument(inner, "xs:string("@)->0) {
                    Some(lit) => Some((InputValueCalc::StringLiteral, None, Some(lit))),
                    None => None,
                }
            } else if string_literal(inner) is Some {
                Some((InputValueCalc::StringLiteral, None, string_literal(inner)))
            } else if constant_length(text::trim_spec(value)) is Some {
                Some(
                    (
                        InputValueCalc::Constant(
                            wrapped(constant_length(text::trim_spec(value))->0),
                        ),
                        None,
                        None,
                    ),
                )
            } else if numbers::i64_spec(inner) is Some {
                Some((InputValueCalc::Constant(numbers::i64_spec(inner)->0), None, None))
            } else if expr::integer_text(inner) matches Some(expr::IntegerText::Wide(_)) {
                Some((InputValueCalc::ConstantLexical, None, Some(text::trim_spec(inner))))
            } else {
                match text::split_once_spec(inner, '(') {
                    Some((func, rest)) => match text::before_suffix(rest, ")"@) {
                        Some(args) => input_function(func, args),
                        None => None,
                    },
                    None => None,
                }
            }
        },
        None => None,
    }
}

/// An unsigned number read as a signed one of the same bits.
pub open spec fn wrapped(v: u64) -> i64 {
    if v <= i64::MAX {
        v as i64
    } else {
        (v - 0x1_0000_0000_0000_0000) as i64
    }
}

/// An unsigned number read as a signed one of the same bits.
fn wrap(v: u64) -> (r: i64)
    ensures
        r == wrapped(v),
{
    if v <= i64::MAX as u64 {
        v as i64
    } else {
        -((u64::MAX - v) as i64) - 1
    }
}

/// What a call in `inputValueCalc` computes.
pub open spec fn input_function(func: Seq<char>, args: Seq<char>) -> Option<
    (InputValueCalc, Option<Seq<char>>, Option<Seq<char>>),
> {
    let units = units_of(args);
    let target = first_argument(args);
    if func == "dfdl:contentLength"@ && target == ".."@ {
        Some((InputValueCalc::ContentLengthSelf(units), None, None))
    } else if func == "dfdl:valueLength"@ && target == ".."@ {
        Some((InputValueCalc::ValueLengthSelf(units), None, None))
    } else if sibling_name(target) is None {
        None
    } else if func == "dfdl:contentLength"@ {
        Some((InputValueCalc::ContentLengthSibling(units), sibling_name(target), None))
    } else if func == "dfdl:valueLength"@ {
        Some((InputValueCalc::ValueLengthSibling(units), sibling_name(target), None))
    } else if func == "xs:boolean"@ {
        Some((InputValueCalc::BooleanFromSibling, sibling_name(target), None))
    } else {
        None
    }
}

/// Reads a call in `inputValueCalc`.
fn read_input_function(func: &[char], args: &[char]) -> (r: Option<
    (InputValueCalc, Option<String>, Option<String>),
>)
    ensures
        r.deep_view() == input_function(func@, args@),
{
    let units = length_units_from_calc_args(args);
    let target = first_arg(args);
    let own: bool = is(target, "..");
    let content: bool = is(func, "dfdl:contentLength");
    let value: bool = is(func, "dfdl:valueLength");
    if content && own {
        return Some((InputValueCalc::ContentLengthSelf(units), None, None));
    }
    if value && own {
        return Some((InputValueCalc::ValueLengthSelf(units), None, None));
    }
    let name = match sibling(target) {
        Some(name) => name,
        None => {
            return None;
        },
    };
    if content {
        Some((InputValueCalc::ContentLengthSibling(units), Some(name), None))
    } else if value {
        Some((InputValueCalc::ValueLengthSibling(units), Some(name), None))
    } else if is(func, "xs:boolean") {
        Some((InputValueCalc::BooleanFromSibling, Some(name), None))
    } else {
        None
    }
}

/// Reads what `inputValueCalc` computes.
pub fn parse_input_value_calc(value: &str) -> (r: Option<
    (InputValueCalc, Option<String>, Option<String>),
>)
    ensures
        r.deep_view() == input_calc(value@),
{
    proof {
        reveal_strlit("xs:hexBinary(");
        reveal_strlit("xs:string(");
    }
    let v = chars_of(value);
    let inner = match between_braces(v.as_slice()) {
        Some(t) => t,
        None => {
            return None;
        },
    };
    if let Some(arg) = read_call(inner, "xs:hexBinary(") {
        if let Some(name) = sibling(trim(arg)) {
            return Some((InputValueCalc::HexBinaryFromSibling, Some(name), None));
        }
    }
    if let Some(arg) = read_call(inner, "xs:string(") {
        return match parse_xs_string_literal_arg(arg) {
            Some(lit) => Some((InputValueCalc::StringLiteral, None, Some(string_of(lit)))),
            None => None,
        };
    }
    if let Some(lit) = parse_xs_string_literal_arg(inner) {
        return Some((InputValueCalc::StringLiteral, None, Some(string_of(lit))));
    }
    let trimmed = string_of(trim(v.as_slice()));
    if let Some(n) = parse_constant_length_expr(trimmed.as_str()) {
        return Some((InputValueCalc::Constant(wrap(n)), None, None));
    }
    if let Some(n) = parse_i64(inner) {
        return Some((InputValueCalc::Constant(n), None, None));
    }
    if let Some(expr::IvcIntegerLexical::Wide(_)) = expr::parse_ivc_integer_lexical(inner) {
        return Some((InputValueCalc::ConstantLexical, None, Some(string_of(trim(inner)))));
    }
    match split_once(inner, '(') {
        Some((func, rest)) => match strip_suffix(rest, ")") {
            Some(args) => read_input_function(func, args),
            None => None,
        },
        None => None,
    }
}

// ------------------------------------------------------------- outputValueCalc

/// Whether `outputValueCalc` tells whether more occurrences follow.
pub open spec fn repeat_indicator(value: Seq<char>) -> bool {
    let inner = match expr::braced(value) {
        Some(t) => t,
        None => text::trim_spec(value),
    };
    let c = text::compact_spec(inner);
    text::contains_spec(c, "dfdl:occursIndex()ltfn:count(..)"@) && text::contains_spec(
        c,
        "then1else0"@,
    )
}

/// Tests whether `outputValueCalc` tells whether more occurrences follow.
pub fn parse_repeat_indicator_output_value_calc(value: &str) -> (r: bool)
    ensures
        r == repeat_indicator(value@),
{
    let v = chars_of(value);
    let inner = match between_braces(v.as_slice()) {
        Some(t) => t,
        None => trim(v.as_slice()),
    };
    let c = text::compact(inner);
    contains(c.as_slice(), "dfdl:occursIndex()ltfn:count(..)") && contains(
        c.as_slice(),
        "then1else0",
    )
}

/// Whether `outputValueCalc` looks like a path or a function.
pub open spec fn looks_like_xpath(value: Seq<char>) -> bool {
    match expr::braced(value) {
        Some(inner) => text::contains_spec(inner, "../"@) || text::has_prefix(inner, "fn:"@)
            || text::contains_spec(inner, "xs:int("@) || text::contains_spec(inner, "xs:string("@)
            || text::contains_spec(inner, "xs:long("@) || text::contains_spec(
            inner,
            "xs:unsignedByte("@,
        ),
        None => false,
    }
}

/// Tests whether `outputValueCalc` looks like a path or a function.
pub fn looks_like_xpath_output_value_calc(value: &str) -> (r: bool)
    ensures
        r == looks_like_xpath(value@),
{
    let v = chars_of(value);
    match between_braces(v.as_slice()) {
        Some(inner) => contains(inner, "../") || starts_with(inner, "fn:") || contains(
            inner,
            "xs:int(",
        ) || contains(inner, "xs:string(") || contains(inner, "xs:long(") || contains(
            inner,
            "xs:unsignedByte(",
        ),
        None => false,
    }
}

/// The sibling that `outputNewLine` encodes.
pub open spec fn new_line_sibling(value: Seq<char>) -> Option<Seq<char>> {
    let inner = match expr::braced(value) {
        Some(t) => t,
        None => text::trim_spec(value),
    };
    match call_argument(inner, "dfdl:encodeDFDLEntities("@) {
        Some(path) => sibling_name(text::trim_spec(path)),
        None => None,
    }
}

/// Reads the sibling that `outputNewLine` encodes.
pub fn parse_output_new_line_encode_sibling(value: &str) -> (r: Option<String>)
    ensures
        r.deep_view() == new_line_sibling(value@),
{
    proof {
        reveal_strlit("dfdl:encodeDFDLEntities(");
    }
    let v = chars_of(value);
    let inner = match between_braces(v.as_slice()) {
        Some(t) => t,
        None => trim(v.as_slice()),
    };
    match read_call(inner, "dfdl:encodeDFDLEntities(") {
        Some(path) => sibling(trim(path)),
        None => None,
    }
}

/// The decoded text of a call of `dfdl:decodeDFDLEntities`.
pub open spec fn decoded_entities(arg: Seq<char>) -> Option<Seq<char>> {
    match call_argument(text::trim_spec(arg), "dfdl:decodeDFDLEntities("@) {
        Some(inner) => match string_literal(text::trim_spec(inner)) {
            Some(lit) => Some(entities::expanded(lit)),
            None => None,
        },
        None => None,
    }
}

/// Reads a call of `dfdl:decodeDFDLEntities`.
fn parse_decode_dfdl_entities_call(arg: &[char]) -> (r: Option<String>)
    ensures
        r.deep_view() == decoded_entities(arg@),
{
    proof {
        reveal_strlit("dfdl:decodeDFDLEntities(");
    }
    match read_call(trim(arg), "dfdl:decodeDFDLEntities(") {
        Some(inner) => match parse_xs_string_literal_arg(trim(inner)) {
            Some(lit) => {
                let e = expand_entities_chars(lit);
                Some(string_of(e.as_slice()))
            },
            None => None,
        },
        None => None,
    }
}

/// The call of `fn:error` in `outputValueCalc`.
pub open spec fn error_call(value: Seq<char>) -> Option<Seq<char>> {
    match expr::braced(value) {
        Some(inner) => if inner == "fn:error()"@ || (text::has_prefix(inner, "fn:error("@)
            && text::has_suffix(inner, ")"@)) || (text::has_prefix(
            inner,
            "fn:round-half-to-even("@,
        ) && text::contains_spec(inner, "fn:error("@)) {
            Some(inner)
        } else {
            None
        },
        None => None,
    }
}

/// Reads a call of `fn:error` in `outputValueCalc`.
pub fn parse_output_value_calc_fn_error(value: &str) -> (r: Option<String>)
    ensures
        r.deep_view() == error_call(value@),
{
    let v = chars_of(value);
    match between_braces(v.as_slice()) {
        Some(inner) => if is(inner, "fn:error()") || (starts_with(inner, "fn:error(") && ends_with(
            inner,
            ")",
        )) || (starts_with(inner, "fn:round-half-to-even(") && contains(inner, "fn:error(")) {
            Some(string_of(inner))
        } else {
            None
        },
        None => None,
    }
}

/// The argument of `xs:date` in `outputValueCalc`.
pub open spec fn date_argument(value: Seq<char>) -> Option<Seq<char>> {
    match expr::braced(value) {
        Some(inner) => match call_argument(inner, "xs:date("@) {
            Some(rest) => Some(text::trim_spec(rest)),
            None => None,
        },
        None => None,
    }
}

/// Reads the argument of `xs:date` in `outputValueCalc`.
pub fn parse_output_value_calc_xs_date_inner(value: &str) -> (r: Option<String>)
    ensures
        r.deep_view() == date_argument(value@),
{
    proof {
        reveal_strlit("xs:date(");
    }
    let v = chars_of(value);
    match between_braces(v.as_slice()) {
        Some(inner) => match read_call(inner, "xs:date(") {
            Some(rest) => Some(string_of(trim(rest))),
            None => None,
        },
        None => None,
    }
}

/// `outputValueCalc` without a last factor `* n`, and the factor.
pub open spec fn without_factor(value: Seq<char>) -> (Seq<char>, i64) {
    match expr::braced(value) {
        Some(inner) => match text::char_rpos(inner, '*') {
            Some(star) => match numbers::i64_spec(text::trim_spec(inner.skip(star + 1))) {
                Some(n) => (expr::in_braces(text::trim_spec(inner.take(star))), n),
                None => (value, 1),
            },
            None => (value, 1),
        },
        None => (value, 1),
    }
}

/// Splits a last factor `* n` off `outputValueCalc`.
pub fn output_value_calc_strip_multiply(value: &str) -> (r: (String, i64))
    ensures
        r.deep_view() == without_factor(value@),
{
    let v = chars_of(value);
    if let Some(inner) = between_braces(v.as_slice()) {
        let n: usize = inner.len();
        if let Some(star) = rfind_char(inner, '*') {
            assert(inner@.subrange(0, star as int) == inner@.take(star as int));
            assert(inner@.subrange(star + 1, n as int) == inner@.skip(star + 1));
            if let Some(factor) = parse_i64(trim(part(inner, star + 1, n))) {
                let b = expr::brace(trim(part(inner, 0, star)));
                return (string_of(b.as_slice()), factor);
            }
        }
    }
    (string_of(v.as_slice()), 1)
}

/// A hexadecimal constant or sibling in `outputValueCalc`.
pub open spec fn output_hex(inner: Seq<char>) -> Option<
    (OutputValueCalc, Option<Seq<char>>, Option<Seq<char>>),
> {
    if call_argument(inner, "xs:hexBinary("@) is Some {
        match string_literal(text::trim_spec(call_argument(inner, "xs:hexBinary("@)->0)) {
            Some(lit) => Some((OutputValueCalc::HexBinaryFromLexical, None, Some(lit))),
            None => None,
        }
    } else if call_argument(inner, "dfdl:hexBinary("@) is Some {
        let arg = text::trim_spec(call_argument(inner, "dfdl:hexBinary("@)->0);
        if numbers::i64_spec(arg) is Some {
            Some(
                (OutputValueCalc::HexBinaryFromInteger(numbers::i64_spec(arg)->0), None, None),
            )
        } else if string_literal(arg) is Some {
            Some((OutputValueCalc::HexBinaryFromLexical, None, string_literal(arg)))
        } else if call_argument(arg, "xs:short("@) is Some {
            match numbers::i16_spec(text::trim_spec(call_argument(arg, "xs:short("@)->0)) {
                Some(v) => Some((OutputValueCalc::HexBinaryFromShort(v), None, None)),
                None => None,
            }
        } else if text::has_prefix(arg, "xs:byte("@) && text::contains_spec(arg, "../"@) {
            match sibling_name(text::trim_spec(arg.subrange("xs:byte("@.len() as int, arg.len() - 1))) {
                Some(sib) => Some((OutputValueCalc::HexBinaryFromByteSibling, Some(sib), None)),
                None => None,
            }
        } else {
            None
        }
    } else {
        None
    }
}

/// Reads a hexadecimal constant or sibling in `outputValueCalc`.
fn parse_output_value_calc_hex(inner: &[char]) -> (r: Option<
    (OutputValueCalc, Option<String>, Option<String>),
>)
    ensures
        r.deep_view() == output_hex(inner@),
{
    proof {
        reveal_strlit("xs:hexBinary(");
        reveal_strlit("dfdl:hexBinary(");
        reveal_strlit("xs:short(");
        reveal_strlit("xs:byte(");
    }
    if let Some(arg) = read_call(inner, "xs:hexBinary(") {
        return match parse_xs_string_literal_arg(trim(arg)) {
            Some(lit) => Some((OutputValueCalc::HexBinaryFromLexical, None, Some(string_of(lit)))),
            None => None,
        };
    }
    if let Some(a) = read_call(inner, "dfdl:hexBinary(") {
        let arg = trim(a);
        if let Some(n) = parse_i64(arg) {
            return Some((OutputValueCalc::HexBinaryFromInteger(n), None, None));
        }
        if let Some(lit) = parse_xs_string_literal_arg(arg) {
            return Some((OutputValueCalc::HexBinaryFromLexical, None, Some(string_of(lit))));
        }
        if let Some(num) = read_call(arg, "xs:short(") {
            return match parse_i16(trim(num)) {
                Some(v) => Some((OutputValueCalc::HexBinaryFromShort(v), None, None)),
                None => None,
            };
        }
        if starts_with(arg, "xs:byte(") && contains(arg, "../") {
            let n: usize = arg.len();
            proof {
                reveal_strlit("../");
                text::lemma_find_from(arg@, "../"@, 0);
                let i = text::find_spec(arg@, "../"@)->0;
                if n == 8 {
                    assert(arg@.take(8) == arg@);
                    assert(arg@.skip(i).take(3) == "../"@);
                    assert(arg@.skip(i).take(3)[0] == arg@[i]);
                    assert(arg@.skip(i).take(3)[2] == arg@[i + 2]);
                }
            }
            return match sibling(trim(part(arg, 8, n - 1))) {
                Some(sib) => Some((OutputValueCalc::HexBinaryFromByteSibling, Some(sib), None)),
                None => None,
            };
        }
    }
    None
}

/// What a call in `outputValueCalc` computes, with an addend.
pub open spec fn output_function(func: Seq<char>, args: Seq<char>, addend: i64) -> Option<
    (OutputValueCalc, Option<Seq<char>>, Option<Seq<char>>),
> {
    let units = units_of(args);
    let target = first_argument(args);
    if func == "dfdl:contentLength"@ && target == ".."@ {
        Some((OutputValueCalc::ContentLengthSelf(units, addend), None, None))
    } else if func == "dfdl:valueLength"@ && target == ".."@ {
        Some((OutputValueCalc::ValueLengthSelf(units, addend), None, None))
    } else if func == "dfdl:contentLength"@ {
        match sibling_name(target) {
            Some(n) => Some((OutputValueCalc::ContentLengthSibling(units, addend), Some(n), None)),
            None => None,
        }
    } else if func == "dfdl:valueLength"@ {
        match sibling_name(target) {
            Some(n) => Some((OutputValueCalc::ValueLengthSibling(units, addend), Some(n), None)),
            None => None,
        }
    } else if func == "fn:string-length"@ {
        match sibling_name(target) {
            Some(n) => Some((OutputValueCalc::StringLengthSibling, Some(n), None)),
            None => None,
        }
    } else if func == "fn:substring"@ {
        match substring_args(args) {
            Some((sibling, start, length)) => Some(
                (OutputValueCalc::Substring { start, length }, Some(sibling), None),
            ),
            None => None,
        }
    } else {
        None
    }
}

/// Reads a call in `outputValueCalc`.
fn read_output_function(func: &[char], args: &[char], addend: i64) -> (r: Option<
    (OutputValueCalc, Option<String>, Option<String>),
>)
    ensures
        r.deep_view() == output_function(func@, args@, addend),
{
    let units = length_units_from_calc_args(args);
    let target = first_arg(args);
    let own: bool = is(target, "..");
    if is(func, "dfdl:contentLength") {
        if own {
            return Some((OutputValueCalc::ContentLengthSelf(units, addend), None, None));
        }
        return match sibling(target) {
            Some(n) => Some((OutputValueCalc::ContentLengthSibling(units, addend), Some(n), None)),
            None => None,
        };
    }
    if is(func, "dfdl:valueLength") {
        if own {
            return Some((OutputValueCalc::ValueLengthSelf(units, addend), None, None));
        }
        return match sibling(target) {
            Some(n) => Some((OutputValueCalc::ValueLengthSibling(units, addend), Some(n), None)),
            None => None,
        };
    }
    if is(func, "fn:string-length") {
        return match sibling(target) {
            Some(n) => Some((OutputValueCalc::StringLengthSibling, Some(n), None)),
            None => None,
        };
    }
    if is(func, "fn:substring") {
        return match read_substring_args(args) {
            Some((sibling, start, length)) => Some(
                (OutputValueCalc::Substring { start, length }, Some(sibling), None),
            ),
            None => None,
        };
    }
    None
}

/// What `outputValueCalc` computes from the text between its braces, with the
/// sibling and the literal that it takes.
pub open spec fn output_inner(inner: Seq<char>) -> Option<
    (OutputValueCalc, Option<Seq<char>>, Option<Seq<char>>),
>
    decreases inner.len(),
{
    if string_literal(inner) is Some {
        Some((OutputValueCalc::Constant(0), None, string_literal(inner)))
    } else if as_string(inner) is Some {
        Some((OutputValueCalc::Constant(0), None, as_string(inner)))
    } else {
        let nested = match cast_argument(inner) {
            Some(arg) => if arg.len() < inner.len() {
                output_inner(arg)
            } else {
                None
            },
            None => None,
        };
        if nested is Some {
            nested
        } else {
            output_plain(inner)
        }
    }
}

/// The literal or the decoded text in `xs:string(..)`.
pub open spec fn as_string(inner: Seq<char>) -> Option<Seq<char>> {
    match call_argument(inner, "xs:string("@) {
        Some(a) => {
            let arg = text::trim_spec(a);
            if string_literal(arg) is Some {
                string_literal(arg)
            } else {
                decoded_entities(arg)
            }
        },
        None => None,
    }
}

/// The argument of `xs:string(..)`, `xs:float(..)` or `xs:int(..)`.
pub open spec fn cast_argument(inner: Seq<char>) -> Option<Seq<char>> {
    if call_argument(inner, "xs:string("@) is Some {
        Some(text::trim_spec(call_argument(inner, "xs:string("@)->0))
    } else if call_argument(inner, "xs:float("@) is Some {
        Some(text::trim_spec(call_argument(inner, "xs:float("@)->0))
    } else if call_argument(inner, "xs:int("@) is Some {
        Some(text::trim_spec(call_argument(inner, "xs:int("@)->0))
    } else {
        None
    }
}

/// The argument of `xs:string(..)`, `xs:float(..)` or `xs:int(..)`.
fn read_cast_argument<'a>(inner: &'a [char]) -> (r: Option<&'a [char]>)
    ensures
        text::view_opt(r) == cast_argument(inner@),
        r matches Some(a) ==> a@.len() < inner@.len(),
{
    proof {
        reveal_strlit("xs:string(");
        reveal_strlit("xs:float(");
        reveal_strlit("xs:int(");
    }
    if let Some(a) = read_call(inner, "xs:string(") {
        return Some(trim(a));
    }
    if let Some(a) = read_call(inner, "xs:float(") {
        return Some(trim(a));
    }
    if let Some(a) = read_call(inner, "xs:int(") {
        return Some(trim(a));
    }
    None
}

/// What `outputValueCalc` computes where there is no string and no cast: a
/// hexadecimal value, a number, or a function.
pub open spec fn output_plain(inner: Seq<char>) -> Option<
    (OutputValueCalc, Option<Seq<char>>, Option<Seq<char>>),
> {
    if output_hex(inner) is Some {
        output_hex(inner)
    } else if (inner.contains('.') || inner.contains('e') || inner.contains('E'))
        && numbers::is_float_text(inner) {
        Some((OutputValueCalc::Constant(0), None, Some(inner)))
    } else if numbers::i64_spec(inner) is Some {
        Some((OutputValueCalc::Constant(numbers::i64_spec(inner)->0), None, None))
    } else {
        let (func_part, addend) = match text::rsplit_once_spec(inner, '+') {
            Some((left, right)) => (
                text::trim_spec(left),
                match numbers::i64_spec(text::trim_spec(right)) {
                    Some(n) => n,
                    None => 0,
                },
            ),
            None => (inner, 0i64),
        };
        match text::split_once_spec(func_part, '(') {
            Some((func, rest)) => match text::before_suffix(rest, ")"@) {
                Some(args) => output_function(func, args, addend),
                None => None,
            },
            None => None,
        }
    }
}

/// Reads what is no string and no cast in `outputValueCalc`.
fn read_output_plain(inner: &[char]) -> (r: Option<
    (OutputValueCalc, Option<String>, Option<String>),
>)
    ensures
        r.deep_view() == output_plain(inner@),
{
    if let Some(hex) = parse_output_value_calc_hex(inner) {
        return Some(hex);
    }
    if (contains_char(inner, '.') || contains_char(inner, 'e') || contains_char(inner, 'E'))
        && float_text(inner) {
        return Some((OutputValueCalc::Constant(0), None, Some(string_of(inner))));
    }
    if let Some(n) = parse_i64(inner) {
        return Some((OutputValueCalc::Constant(n), None, None));
    }
    let mut func_part = inner;
    let mut addend: i64 = 0;
    if let Some((left, right)) = rsplit_once(inner, '+') {
        func_part = trim(left);
        addend = match parse_i64(trim(right)) {
            Some(n) => n,
            None => 0,
        };
    }
    match split_once(func_part, '(') {
        Some((func, rest)) => match strip_suffix(rest, ")") {
            Some(args) => read_output_function(func, args, addend),
            None => None,
        },
        None => None,
    }
}

/// Reads `outputValueCalc` from the text between its braces.
fn read_output_inner(inner: &[char]) -> (r: Option<
    (OutputValueCalc, Option<String>, Option<String>),
>)
    ensures
        r.deep_view() == output_inner(inner@),
    decreases inner@.len(),
{
    proof {
        reveal_strlit("xs:string(");
    }
    if let Some(lit) = parse_xs_string_literal_arg(inner) {
        return Some((OutputValueCalc::Constant(0), None, Some(string_of(lit))));
    }
    if let Some(a) = read_call(inner, "xs:string(") {
        let arg = trim(a);
        if let Some(lit) = parse_xs_string_literal_arg(arg) {
            return Some((OutputValueCalc::Constant(0), None, Some(string_of(lit))));
        }
        if let Some(decoded) = parse_decode_dfdl_entities_call(arg) {
            return Some((OutputValueCalc::Constant(0), None, Some(decoded)));
        }
    }
    if let Some(arg) = read_cast_argument(inner) {
        if let Some(nested) = read_output_inner(arg) {
            return Some(nested);
        }
    }
    read_output_plain(inner)
}

/// What `outputValueCalc` computes, with the sibling and the literal that it
/// takes.
pub open spec fn output_calc(value: Seq<char>) -> Option<
    (OutputValueCalc, Option<Seq<char>>, Option<Seq<char>>),
> {
    match expr::braced(value) {
        Some(inner) => output_inner(inner),
        None => None,
    }
}

/// Reads what `outputValueCalc` computes.
pub fn parse_output_value_calc(value: &str) -> (r: Option<
    (OutputValueCalc, Option<String>, Option<String>),
>)
    ensures
        r.deep_view() == output_calc(value@),
{
    let v = chars_of(value);
    match between_braces(v.as_slice()) {
        Some(inner) => read_output_inner(inner),
        None => None,
    }
}

// ------------------------------------------------------------- choice dispatch

/// The properties of a choice with the dispatch key `value`: the key itself
/// and what of it is understood.
pub open spec fn choice_dispatch(p: ChoicePropsModel, value: Seq<char>) -> ChoicePropsModel {
    let fresh = ChoicePropsModel {
        choice_dispatch_key: Some(value),
        choice_dispatch_sibling: None,
        choice_dispatch_path: None,
        choice_dispatch_literal: None,
        choice_dispatch_sibling_int: None,
        ..p
    };
    match relative_path(value) {
        Some(steps) => ChoicePropsModel { choice_dispatch_path: Some(steps), ..fresh },
        None => match expr::braced(value) {
            Some(inner) => match text::after_prefix(inner, "./"@) {
                Some(rest) => if rest.len() == 0 {
                    fresh
                } else if rest.contains('/') {
                    ChoicePropsModel {
                        choice_dispatch_path: Some(expr::path_steps(rest)),
                        ..fresh
                    }
                } else {
                    ChoicePropsModel {
                        choice_dispatch_sibling: Some(expr::local_part(rest)),
                        ..fresh
                    }
                },
                None => match call_argument(inner, "xs:string("@) {
                    Some(a) => choice_dispatch_string(fresh, text::trim_spec(a)),
                    None => fresh,
                },
            },
            None => fresh,
        },
    }
}

/// The argument of `xs:string(..)` in a dispatch key.
pub open spec fn choice_dispatch_string(fresh: ChoicePropsModel, arg: Seq<char>) -> ChoicePropsModel {
    if call_argument(arg, "xs:int("@) is Some {
        ChoicePropsModel {
            choice_dispatch_sibling_int: Some(
                expr::local_part(text::trim_spec(call_argument(arg, "xs:int("@)->0)),
            ),
            ..fresh
        }
    } else if text::after_prefix(arg, "./"@) is Some {
        ChoicePropsModel {
            choice_dispatch_sibling: Some(expr::local_part(text::after_prefix(arg, "./"@)->0)),
            ..fresh
        }
    } else if sibling_name(arg) is Some {
        ChoicePropsModel { choice_dispatch_sibling: sibling_name(arg), ..fresh }
    } else {
        ChoicePropsModel { choice_dispatch_literal: string_literal(arg), ..fresh }
    }
}

/// Sets the dispatch key of a choice.
pub fn apply_choice_dispatch_key_parse(p: &mut ChoiceProps, value: &str)
    ensures
        final(p)@ == choice_dispatch(old(p)@, value@),
{
    reveal(crate::ast::choice_props_model);
    proof {
        reveal_strlit("xs:string(");
        reveal_strlit("xs:int(");
    }
    p.choice_dispatch_key = Some(value.to_owned());
    p.choice_dispatch_sibling = None;
    p.choice_dispatch_path = None;
    p.choice_dispatch_literal = None;
    p.choice_dispatch_sibling_int = None;
    if let Some(steps) = parse_input_value_calc_relative_path(value) {
        p.choice_dispatch_path = Some(steps);
        return;
    }
    let v = chars_of(value);
    let inner = match between_braces(v.as_slice()) {
        Some(t) => t,
        None => {
            return;
        },
    };
    if let Some(rest) = strip_prefix(inner, "./") {
        if rest.len() > 0 {
            if contains_char(rest, '/') {
                p.choice_dispatch_path = Some(read_path_steps(rest));
            } else {
                p.choice_dispatch_sibling = Some(string_of(local_of(rest)));
            }
        }
        return;
    }
    if let Some(a) = read_call(inner, "xs:string(") {
        let arg = trim(a);
        if let Some(name) = read_call(arg, "xs:int(") {
            p.choice_dispatch_sibling_int = Some(string_of(local_of(trim(name))));
        } else if let Some(rest) = strip_prefix(arg, "./") {
            p.choice_dispatch_sibling = Some(string_of(local_of(rest)));
        } else if let Some(name) = sibling(arg) {
            p.choice_dispatch_sibling = Some(name);
        } else if let Some(lit) = parse_xs_string_literal_arg(arg) {
            p.choice_dispatch_literal = Some(string_of(lit));
        }
    }
}

// ------------------------------------------------------------------ assertions

/// What an assertion adds to the occurs index that the value must equal.
pub open spec fn occurs_index_addend(test: Seq<char>) -> Option<i64> {
    let body = expr::compact_body(test);
    if !text::contains_spec(body, "dfdl:occursIndex()"@) {
        None
    } else if text::contains_spec(body, "xs:int(.)eqdfdl:occursIndex()"@) || text::contains_spec(
        body,
        ".eqdfdl:occursIndex()"@,
    ) {
        Some(0)
    } else {
        match text::after_prefix(body, ".eq(dfdl:occursIndex()+"@) {
            Some(rest) => match text::before_suffix(rest, ")"@) {
                Some(n) => numbers::i64_spec(n),
                None => None,
            },
            None => None,
        }
    }
}

/// Reads an assertion that compares the value with the occurs index.
fn parse_assert_eq_occurs_index_addend(test: &[char]) -> (r: Option<i64>)
    ensures
        r == occurs_index_addend(test@),
{
    let c = expr::compacted(test);
    let body = c.as_slice();
    if !contains(body, "dfdl:occursIndex()") {
        return None;
    }
    if contains(body, "xs:int(.)eqdfdl:occursIndex()") || contains(body, ".eqdfdl:occursIndex()") {
        return Some(0);
    }
    match strip_prefix(body, ".eq(dfdl:occursIndex()+") {
        Some(rest) => match strip_suffix(rest, ")") {
            Some(n) => parse_i64(n),
            None => None,
        },
        None => None,
    }
}

/// The number that an assertion compares the value with.
pub open spec fn assert_int(test: Seq<char>) -> Option<i64> {
    match text::after_prefix(expr::compact_body(test), "xs:int(.)eq"@) {
        Some(rest) => numbers::i64_spec(rest),
        None => None,
    }
}

/// Reads an assertion that compares the value with a number.
pub fn parse_assert_int_eq_test(test: &str) -> (r: Option<i64>)
    ensures
        r == assert_int(test@),
{
    let v = chars_of(test);
    let c = expr::compacted(v.as_slice());
    match strip_prefix(c.as_slice(), "xs:int(.)eq") {
        Some(rest) => parse_i64(rest),
        None => None,
    }
}

/// The statement properties with the assertion `test`.
pub open spec fn with_assertion(p: StatementPropsModel, test: Seq<char>) -> StatementPropsModel {
    let checked = p.facet_check_constraints || text::contains_spec(test, "checkConstraints"@);
    let q = StatementPropsModel { facet_check_constraints: checked, ..p };
    if occurs_index_addend(test) is Some {
        StatementPropsModel {
            facet_check_constraints: true,
            assert_eq_occurs_index_addend: occurs_index_addend(test),
            ..p
        }
    } else if assert_int(test) is Some {
        StatementPropsModel { assert_int_eq: assert_int(test), ..q }
    } else if text::trim_spec(test).len() > 0 && !checked {
        StatementPropsModel { discriminator_test: Some(text::trim_spec(test)), ..q }
    } else {
        q
    }
}

/// Adds an assertion to the statement properties.
pub fn apply_dfdl_assert_test(p: &mut StatementProps, test: &str)
    ensures
        final(p)@ == with_assertion(old(p)@, test@),
{
    reveal(crate::ast::statement_props_model);
    let v = chars_of(test);
    if contains(v.as_slice(), "checkConstraints") {
        p.facet_check_constraints = true;
    }
    if let Some(addend) = parse_assert_eq_occurs_index_addend(v.as_slice()) {
        p.facet_check_constraints = true;
        p.assert_eq_occurs_index_addend = Some(addend);
        return;
    }
    if let Some(n) = parse_assert_int_eq_test(test) {
        p.assert_int_eq = Some(n);
        return;
    }
    let trimmed = trim(v.as_slice());
    if trimmed.len() > 0 && !p.facet_check_constraints {
        p.discriminator_test = Some(string_of(trimmed));
    }
}

} // verus!
