//! Expressions in DFDL properties: lengths, paths and computed values.

use vstd::prelude::*;
use crate::ast::{
    InputValueCalcExpression, InputValueCalcExpressionModel, InputValueCalcSegment,
    InputValueCalcSegmentModel, IvcXsCast, LengthUnits, PathStep, PathStepModel,
};
use crate::numbers;
use crate::numbers::{digits, parse_i64, parse_u32, parse_u64, parse_usize};
use crate::text;
use crate::text::{
    append_chars, chars_of, compact, contains, contains_char, ends_with, find, find_char, is,
    last_piece, lower, matches_at, part, replace, rsplit_once, split, split_once, starts_with,
    string_of, strip_prefix, strip_suffix, trim, trim_end_matches, trim_matches,
    trim_start_matches,
};

verus! {

// -------------------------------------------------------------------- braces

/// The trimmed text between the braces of `{ .. }`.
pub open spec fn braced(s: Seq<char>) -> Option<Seq<char>> {
    let t = text::trim_spec(s);
    if t.len() >= 2 && t[0] == '{' && t.last() == '}' {
        Some(text::trim_spec(t.subrange(1, t.len() - 1)))
    } else {
        None
    }
}

/// `s` between braces.
pub open spec fn in_braces(s: Seq<char>) -> Seq<char> {
    seq!['{'] + s + seq!['}']
}

/// The trimmed text between the braces of `{ .. }`.
pub fn between_braces<'a>(s: &'a [char]) -> (r: Option<&'a [char]>)
    ensures
        text::view_opt(r) == braced(s@),
        r matches Some(t) ==> t@.len() + 2 <= s@.len(),
{
    let t = trim(s);
    let n: usize = t.len();
    if n >= 2 && t[0] == '{' && t[n - 1] == '}' {
        Some(trim(part(t, 1, n - 1)))
    } else {
        None
    }
}

/// `s` between braces.
pub fn brace(s: &[char]) -> (r: Vec<char>)
    ensures
        r@ == in_braces(s@),
{
    let mut out: Vec<char> = Vec::new();
    out.push('{');
    append_chars(&mut out, s);
    out.push('}');
    assert(out@ =~= in_braces(s@));
    out
}

/// `s` without white space and without the braces around it.
pub open spec fn compact_body(s: Seq<char>) -> Seq<char> {
    let c = text::compact_spec(s);
    if c.len() >= 2 && c[0] == '{' && c.last() == '}' {
        c.subrange(1, c.len() - 1)
    } else {
        c
    }
}

/// `s` without white space and without the braces around it.
pub fn compacted(s: &[char]) -> (r: Vec<char>)
    ensures
        r@ == compact_body(s@),
{
    let c = compact(s);
    let n: usize = c.len();
    if n >= 2 && c[0] == '{' && c[n - 1] == '}' {
        let mut out: Vec<char> = Vec::new();
        append_chars(&mut out, part(c.as_slice(), 1, n - 1));
        assert(out@ =~= c@.subrange(1, n - 1));
        out
    } else {
        c
    }
}

// --------------------------------------------------------------------- paths

/// The local part of a qualified name.
pub open spec fn local_part(s: Seq<char>) -> Seq<char> {
    text::after_last(s, ':')
}

/// One step of a path: a name, its prefix, and an index in square brackets.
pub open spec fn path_step(s: Seq<char>) -> PathStepModel {
    let (head, index, index_from_occurs) = match text::char_pos(s, '[') {
        Some(open) => {
            let bracket = match text::before_suffix(s.skip(open + 1), "]"@) {
                Some(b) => text::trim_spec(b),
                None => Seq::empty(),
            };
            if bracket == "dfdl:occursIndex()"@ {
                (s.take(open), None::<u32>, true)
            } else {
                (s.take(open), numbers::u32_spec(bracket), false)
            }
        },
        None => (s, None::<u32>, false),
    };
    match text::split_once_spec(head, ':') {
        Some((p, l)) => PathStepModel { prefix: Some(p), local: l, index, index_from_occurs },
        None => PathStepModel { prefix: None, local: head, index, index_from_occurs },
    }
}

/// The steps of the non-empty pieces.
pub open spec fn steps_of(pieces: Seq<Seq<char>>) -> Seq<PathStepModel>
    decreases pieces.len(),
{
    if pieces.len() == 0 {
        Seq::empty()
    } else if pieces.last().len() > 0 {
        steps_of(pieces.drop_last()).push(path_step(pieces.last()))
    } else {
        steps_of(pieces.drop_last())
    }
}

/// The steps of a path, separated by `/`.
pub open spec fn path_steps(s: Seq<char>) -> Seq<PathStepModel> {
    steps_of(text::split_spec(s, '/'))
}

/// The local part of a qualified name.
pub fn local_of<'a>(s: &'a [char]) -> (r: &'a [char])
    ensures
        r@ == local_part(s@),
{
    last_piece(s, ':')
}

/// Reads one step of a path.
pub fn parse_infoset_path_step(step: &[char]) -> (r: PathStep)
    ensures
        r.deep_view() == path_step(step@),
{
    let mut index: Option<u32> = None;
    let mut index_from_occurs: bool = false;
    let mut head = step;
    match find_char(step, '[') {
        Some(open) => {
            let n: usize = step.len();
            assert(step@.subrange(open + 1, n as int) == step@.skip(open + 1));
            let tail = part(step, open + 1, n);
            let empty: Vec<char> = Vec::new();
            assert(empty@ =~= Seq::<char>::empty());
            let bracket = match strip_suffix(tail, "]") {
                Some(b) => trim(b),
                None => empty.as_slice(),
            };
            if is(bracket, "dfdl:occursIndex()") {
                index_from_occurs = true;
            } else {
                index = parse_u32(bracket);
            }
            assert(step@.subrange(0, open as int) == step@.take(open as int));
            head = part(step, 0, open);
        },
        None => {},
    }
    match split_once(head, ':') {
        Some((p, l)) => PathStep {
            prefix: Some(string_of(p)),
            local: string_of(l),
            index,
            index_from_occurs,
        },
        None => PathStep { prefix: None, local: string_of(head), index, index_from_occurs },
    }
}

/// Reads the steps of a path.
pub fn read_path_steps(s: &[char]) -> (r: Vec<PathStep>)
    ensures
        r.deep_view() == path_steps(s@),
{
    let pieces = split(s, '/');
    let mut out: Vec<PathStep> = Vec::new();
    let mut i: usize = 0;
    assert(out.deep_view() =~= Seq::<PathStepModel>::empty());
    while i < pieces.len()
        invariant
            i <= pieces@.len(),
            out.deep_view() == steps_of(text::view_all(pieces@).take(i as int)),
        decreases pieces@.len() - i,
    {
        let ghost taken = text::view_all(pieces@).take(i + 1);
        assert(taken.drop_last() == text::view_all(pieces@).take(i as int));
        assert(taken.last() == pieces@[i as int]@);
        if pieces[i].len() > 0 {
            let ghost before = out.deep_view();
            out.push(parse_infoset_path_step(pieces[i]));
            assert(out.deep_view() =~= before.push(path_step(pieces@[i as int]@)));
        }
        i += 1;
    }
    assert(text::view_all(pieces@).take(i as int) == text::view_all(pieces@));
    out
}

/// A path from the root, from the parent, or from a sibling, with whether it
/// starts at the parent.
pub open spec fn ivc_path(s: Seq<char>) -> Option<(bool, Seq<PathStepModel>)> {
    let t = text::trim_spec(s);
    let start: Option<(bool, Seq<char>)> = match text::after_prefix(t, "parent::"@) {
        Some(r) => Some((true, r)),
        None => match text::after_prefix(t, "/"@) {
            Some(r) => Some((false, r)),
            None => match text::after_prefix(t, "../"@) {
                Some(r) => Some((false, r)),
                None => match text::after_prefix(t, "..\\"@) {
                    Some(r) => Some((false, r)),
                    None => None,
                },
            },
        },
    };
    match start {
        Some((parent, rest)) => if rest.len() == 0 {
            None
        } else {
            Some((parent, path_steps(rest)))
        },
        None => None,
    }
}

/// Reads a path from the root, from the parent, or from a sibling.
pub fn parse_ivc_path_steps(s: &[char]) -> (r: Option<(bool, Vec<PathStep>)>)
    ensures
        r.deep_view() == ivc_path(s@),
{
    let t = trim(s);
    let (parent, rest) = match strip_prefix(t, "parent::") {
        Some(x) => (true, x),
        None => match strip_prefix(t, "/") {
            Some(x) => (false, x),
            None => match strip_prefix(t, "../") {
                Some(x) => (false, x),
                None => match strip_prefix(t, "..\\") {
                    Some(x) => (false, x),
                    None => {
                        return None;
                    },
                },
            },
        },
    };
    if rest.len() == 0 {
        return None;
    }
    Some((parent, read_path_steps(rest)))
}

// ------------------------------------------------------------------ splitting

/// The trimmed pieces of `s` between the commas outside parentheses, where the
/// current piece starts at `start` and the scan is at `i` in parentheses
/// `depth` deep.
pub open spec fn commas_from(s: Seq<char>, start: int, i: int, depth: int) -> Seq<Seq<char>>
    decreases s.len() - i,
{
    if i < 0 || i >= s.len() {
        seq![text::trim_spec(s.skip(start))]
    } else if s[i] == '(' {
        commas_from(s, start, i + 1, depth + 1)
    } else if s[i] == ')' {
        commas_from(s, start, i + 1, depth - 1)
    } else if s[i] == ',' && depth == 0 {
        seq![text::trim_spec(s.subrange(start, i))] + commas_from(s, i + 1, i + 1, depth)
    } else {
        commas_from(s, start, i + 1, depth)
    }
}

/// The trimmed pieces of `s` between the commas outside parentheses.
pub open spec fn top_commas(s: Seq<char>) -> Seq<Seq<char>> {
    commas_from(s, 0, 0, 0)
}

/// Splits at the commas outside parentheses.
pub fn split_top_level_commas<'a>(s: &'a [char]) -> (r: Vec<&'a [char]>)
    ensures
        text::view_all(r@) == top_commas(s@),
        forall|k: int| 0 <= k < r@.len() ==> (#[trigger] r@[k])@.len() <= s@.len(),
{
    let n: usize = s.len();
    let mut out: Vec<&'a [char]> = Vec::new();
    let mut start: usize = 0;
    let mut i: usize = 0;
    let mut depth: i128 = 0;
    assert(text::view_all(out@) + top_commas(s@) =~= top_commas(s@));
    while i < n
        invariant
            start <= i <= n,
            n == s@.len(),
            -(i as int) <= depth <= i,
            text::view_all(out@) + commas_from(s@, start as int, i as int, depth as int)
                == top_commas(s@),
            forall|k: int| 0 <= k < out@.len() ==> (#[trigger] out@[k])@.len() <= s@.len(),
        decreases n - i,
    {
        let c: char = s[i];
        if c == '(' {
            depth += 1;
        } else if c == ')' {
            depth -= 1;
        } else if c == ',' && depth == 0 {
            let w = trim(part(s, start, i));
            proof {
                let rest = commas_from(s@, i + 1, i + 1, depth as int);
                assert(text::view_all(out@.push(w)) =~= text::view_all(out@).push(w@));
                assert(text::view_all(out@) + (seq![w@] + rest) =~= text::view_all(out@).push(w@)
                    + rest);
            }
            out.push(w);
            start = i + 1;
        }
        i += 1;
    }
    let w = trim(part(s, start, n));
    proof {
        assert(s@.subrange(start as int, n as int) == s@.skip(start as int));
        assert(text::view_all(out@.push(w)) =~= text::view_all(out@) + seq![w@]);
    }
    out.push(w);
    out
}

/// The trimmed pieces of `s` between the occurrences of `op` outside
/// parentheses, from position `i` on; an empty last piece is left out.
pub open spec fn op_from(s: Seq<char>, start: int, i: int, depth: int, op: char) -> Seq<Seq<char>>
    decreases s.len() - i,
{
    if i < 0 || i >= s.len() {
        let last = text::trim_spec(s.skip(start));
        if last.len() > 0 {
            seq![last]
        } else {
            Seq::empty()
        }
    } else if s[i] == '(' {
        op_from(s, start, i + 1, depth + 1, op)
    } else if s[i] == ')' {
        op_from(s, start, i + 1, depth - 1, op)
    } else if s[i] == op && depth == 0 {
        seq![text::trim_spec(s.subrange(start, i))] + op_from(s, i + 1, i + 1, depth, op)
    } else {
        op_from(s, start, i + 1, depth, op)
    }
}

/// The operands of `op` in `s`, where there is more than one.
pub open spec fn op_parts(s: Seq<char>, op: char) -> Option<Seq<Seq<char>>> {
    let parts = op_from(s, 0, 0, 0, op);
    if parts.len() <= 1 {
        None
    } else {
        Some(parts)
    }
}

proof fn lemma_op_from(s: Seq<char>, start: int, i: int, depth: int, op: char)
    requires
        0 <= start <= i <= s.len(),
    ensures
        forall|k: int|
            0 <= k < op_from(s, start, i, depth, op).len() ==> (#[trigger] op_from(
                s,
                start,
                i,
                depth,
                op,
            )[k]).len() <= s.len() - start,
        op_from(s, start, i, depth, op).len() >= 2 ==> forall|k: int|
            0 <= k < op_from(s, start, i, depth, op).len() ==> (#[trigger] op_from(
                s,
                start,
                i,
                depth,
                op,
            )[k]).len() < s.len() - start,
    decreases s.len() - i,
{
    if i >= s.len() {
        text::lemma_trim_len(s.skip(start));
    } else if s[i] == '(' {
        lemma_op_from(s, start, i + 1, depth + 1, op);
    } else if s[i] == ')' {
        lemma_op_from(s, start, i + 1, depth - 1, op);
    } else if s[i] == op && depth == 0 {
        text::lemma_trim_len(s.subrange(start, i));
        lemma_op_from(s, i + 1, i + 1, depth, op);
        let rest = op_from(s, i + 1, i + 1, depth, op);
        let all = op_from(s, start, i, depth, op);
        assert forall|k: int| 0 <= k < all.len() implies (#[trigger] all[k]).len() < s.len()
            - start by {
            if k > 0 {
                assert(all[k] == rest[k - 1]);
            }
        }
    } else {
        lemma_op_from(s, start, i + 1, depth, op);
    }
}

/// Splits at the occurrences of `op` outside parentheses.
fn split_top_level_ivc_op<'a>(s: &'a [char], op: char) -> (r: Option<Vec<&'a [char]>>)
    ensures
        match r {
            Some(v) => op_parts(s@, op) == Some(text::view_all(v@)) && v@.len() >= 2 && forall|
                k: int,
            |
                0 <= k < v@.len() ==> (#[trigger] v@[k])@.len() < s@.len(),
            None => op_parts(s@, op) is None,
        },
{
    let n: usize = s.len();
    let mut out: Vec<&'a [char]> = Vec::new();
    let mut start: usize = 0;
    let mut i: usize = 0;
    let mut depth: i128 = 0;
    let ghost all = op_from(s@, 0, 0, 0, op);
    assert(text::view_all(out@) + all =~= all);
    while i < n
        invariant
            start <= i <= n,
            n == s@.len(),
            -(i as int) <= depth <= i,
            all == op_from(s@, 0, 0, 0, op),
            text::view_all(out@) + op_from(s@, start as int, i as int, depth as int, op) == all,
        decreases n - i,
    {
        let c: char = s[i];
        if c == '(' {
            depth += 1;
        } else if c == ')' {
            depth -= 1;
        } else if c == op && depth == 0 {
            let w = trim(part(s, start, i));
            proof {
                let rest = op_from(s@, i + 1, i + 1, depth as int, op);
                assert(text::view_all(out@.push(w)) =~= text::view_all(out@).push(w@));
                assert(text::view_all(out@) + (seq![w@] + rest) =~= text::view_all(out@).push(w@)
                    + rest);
            }
            out.push(w);
            start = i + 1;
        }
        i += 1;
    }
    let w = trim(part(s, start, n));
    proof {
        assert(s@.subrange(start as int, n as int) == s@.skip(start as int));
        assert(text::view_all(out@.push(w)) =~= text::view_all(out@) + seq![w@]);
        assert(text::view_all(out@) + Seq::<Seq<char>>::empty() =~= text::view_all(out@));
    }
    if w.len() > 0 {
        out.push(w);
    }
    assert(text::view_all(out@) == all);
    assert(all.len() == out@.len());
    if out.len() <= 1 {
        return None;
    }
    proof {
        lemma_op_from(s@, 0, 0, 0, op);
        assert forall|k: int| 0 <= k < out@.len() implies (#[trigger] out@[k])@.len()
            < s@.len() by {
            assert(all[k] == out@[k]@);
        }
    }
    Some(out)
}

/// An opening bracket.
pub open spec fn opens(c: char) -> bool {
    c == '(' || c == '[' || c == '{'
}

/// A closing bracket.
pub open spec fn closes(c: char) -> bool {
    c == ')' || c == ']' || c == '}'
}

/// The trimmed pieces of `s` between the occurrences of the word `sep` outside
/// brackets, from position `i` on; an empty last piece is left out.
pub open spec fn word_from(
    s: Seq<char>,
    start: int,
    i: int,
    depth: int,
    sep: Seq<char>,
) -> Seq<Seq<char>>
    decreases s.len() - i,
{
    if i < 0 || i >= s.len() || sep.len() == 0 {
        let last = text::trim_spec(s.skip(start));
        if last.len() > 0 {
            seq![last]
        } else {
            Seq::empty()
        }
    } else if opens(s[i]) {
        word_from(s, start, i + 1, depth + 1, sep)
    } else if closes(s[i]) {
        word_from(s, start, i + 1, depth - 1, sep)
    } else if depth == 0 && text::has_prefix(s.skip(i), sep) {
        seq![text::trim_spec(s.subrange(start, i))] + word_from(
            s,
            i + sep.len(),
            i + sep.len(),
            depth,
            sep,
        )
    } else {
        word_from(s, start, i + 1, depth, sep)
    }
}

/// The operands of the operator word `sep` in `s`, where there is more than one.
pub open spec fn word_parts(s: Seq<char>, sep: Seq<char>) -> Option<Seq<Seq<char>>> {
    let t = text::trim_spec(s);
    let parts = word_from(t, 0, 0, 0, sep);
    if parts.len() <= 1 {
        None
    } else {
        Some(parts)
    }
}

proof fn lemma_word_from(s: Seq<char>, start: int, i: int, depth: int, sep: Seq<char>)
    requires
        0 <= start <= i <= s.len(),
        sep.len() > 0,
    ensures
        forall|k: int|
            0 <= k < word_from(s, start, i, depth, sep).len() ==> (#[trigger] word_from(
                s,
                start,
                i,
                depth,
                sep,
            )[k]).len() <= s.len() - start,
        word_from(s, start, i, depth, sep).len() >= 2 ==> forall|k: int|
            0 <= k < word_from(s, start, i, depth, sep).len() ==> (#[trigger] word_from(
                s,
                start,
                i,
                depth,
                sep,
            )[k]).len() < s.len() - start,
    decreases s.len() - i,
{
    if i >= s.len() {
        text::lemma_trim_len(s.skip(start));
    } else if opens(s[i]) {
        lemma_word_from(s, start, i + 1, depth + 1, sep);
    } else if closes(s[i]) {
        lemma_word_from(s, start, i + 1, depth - 1, sep);
    } else if depth == 0 && text::has_prefix(s.skip(i), sep) {
        text::lemma_trim_len(s.subrange(start, i));
        lemma_word_from(s, i + sep.len(), i + sep.len(), depth, sep);
        let rest = word_from(s, i + sep.len(), i + sep.len(), depth, sep);
        let all = word_from(s, start, i, depth, sep);
        assert forall|k: int| 0 <= k < all.len() implies (#[trigger] all[k]).len() < s.len()
            - start by {
            if k > 0 {
                assert(all[k] == rest[k - 1]);
            }
        }
    } else {
        lemma_word_from(s, start, i + 1, depth, sep);
    }
}

/// Splits at the occurrences of the operator word `sep` outside brackets.
fn split_top_level_word<'a>(s: &'a [char], sep: &str) -> (r: Option<Vec<&'a [char]>>)
    requires
        sep@.len() > 0,
    ensures
        match r {
            Some(v) => word_parts(s@, sep@) == Some(text::view_all(v@)) && v@.len() >= 2 && forall|
                k: int,
            |
                0 <= k < v@.len() ==> (#[trigger] v@[k])@.len() < s@.len(),
            None => word_parts(s@, sep@) is None,
        },
{
    let t = trim(s);
    let sep_chars = chars_of(sep);
    let n: usize = t.len();
    let mut out: Vec<&'a [char]> = Vec::new();
    let mut start: usize = 0;
    let mut i: usize = 0;
    let mut depth: i128 = 0;
    let ghost all = word_from(t@, 0, 0, 0, sep@);
    assert(text::view_all(out@) + all =~= all);
    while i < n
        invariant
            start <= i <= n,
            n == t@.len(),
            sep_chars@ == sep@,
            sep@.len() > 0,
            -(i as int) <= depth <= i,
            all == word_from(t@, 0, 0, 0, sep@),
            text::view_all(out@) + word_from(t@, start as int, i as int, depth as int, sep@) == all,
        decreases n - i,
    {
        let c: char = t[i];
        if c == '(' || c == '[' || c == '{' {
            depth += 1;
            i += 1;
        } else if c == ')' || c == ']' || c == '}' {
            depth -= 1;
            i += 1;
        } else if depth == 0 && matches_at(t, i, sep_chars.as_slice()) {
            let w = trim(part(t, start, i));
            proof {
                let rest = word_from(t@, i + sep@.len(), i + sep@.len(), depth as int, sep@);
                assert(text::view_all(out@.push(w)) =~= text::view_all(out@).push(w@));
                assert(text::view_all(out@) + (seq![w@] + rest) =~= text::view_all(out@).push(w@)
                    + rest);
            }
            out.push(w);
            i += sep_chars.len();
            start = i;
        } else {
            i += 1;
        }
    }
    let w = trim(part(t, start, n));
    proof {
        assert(t@.subrange(start as int, n as int) == t@.skip(start as int));
        assert(text::view_all(out@.push(w)) =~= text::view_all(out@) + seq![w@]);
        assert(text::view_all(out@) + Seq::<Seq<char>>::empty() =~= text::view_all(out@));
    }
    if w.len() > 0 {
        out.push(w);
    }
    assert(text::view_all(out@) == all);
    assert(all.len() == out@.len());
    if out.len() <= 1 {
        return None;
    }
    proof {
        lemma_word_from(t@, 0, 0, 0, sep@);
        assert forall|k: int| 0 <= k < out@.len() implies (#[trigger] out@[k])@.len()
            < s@.len() by {
            assert(all[k] == out@[k]@);
        }
    }
    Some(out)
}

/// The position of the parenthesis that closes `depth` open ones.
pub open spec fn closing(s: Seq<char>, i: int, depth: int) -> Option<int>
    decreases s.len() - i,
{
    if i < 0 || i >= s.len() {
        None
    } else if s[i] == '(' {
        closing(s, i + 1, depth + 1)
    } else if s[i] == ')' {
        if depth == 1 {
            Some(i)
        } else {
            closing(s, i + 1, depth - 1)
        }
    } else {
        closing(s, i + 1, depth)
    }
}

/// The trimmed argument behind the prefix `open`, which ends in a parenthesis.
pub open spec fn paren_argument(s: Seq<char>, open: Seq<char>) -> Option<Seq<char>> {
    match text::after_prefix(s, open) {
        Some(rest) => match closing(rest, 0, 1) {
            Some(i) => Some(text::trim_spec(rest.take(i))),
            None => None,
        },
        None => None,
    }
}

proof fn lemma_closing(s: Seq<char>, i: int, depth: int)
    requires
        0 <= i,
    ensures
        closing(s, i, depth) matches Some(k) ==> i <= k < s.len(),
    decreases s.len() - i,
{
    if i < s.len() {
        if s[i] == '(' {
            lemma_closing(s, i + 1, depth + 1);
        } else if s[i] == ')' {
            if depth != 1 {
                lemma_closing(s, i + 1, depth - 1);
            }
        } else {
            lemma_closing(s, i + 1, depth);
        }
    }
}

/// An argument in parentheses is shorter than the call around it.
proof fn lemma_paren_argument(s: Seq<char>, open: Seq<char>)
    ensures
        paren_argument(s, open) matches Some(a) ==> a.len() < s.len(),
{
    match text::after_prefix(s, open) {
        Some(rest) => {
            lemma_closing(rest, 0, 1);
            match closing(rest, 0, 1) {
                Some(i) => {
                    text::lemma_trim_len(rest.take(i));
                },
                None => {},
            }
        },
        None => {},
    }
}

/// The argument behind a prefix that ends in a parenthesis.
fn extract_ivc_paren_argument<'a>(s: &'a [char], open: &str) -> (r: Option<&'a [char]>)
    ensures
        text::view_opt(r) == paren_argument(s@, open@),
        r matches Some(a) ==> a@.len() < s@.len(),
{
    proof {
        lemma_paren_argument(s@, open@);
    }
    let rest = match strip_prefix(s, open) {
        Some(x) => x,
        None => {
            return None;
        },
    };
    let n: usize = rest.len();
    let mut depth: i128 = 1;
    let mut i: usize = 0;
    while i < n
        invariant
            i <= n,
            n == rest@.len(),
            -(i as int) <= depth - 1 <= i,
            closing(rest@, 0, 1) == closing(rest@, i as int, depth as int),
            text::after_prefix(s@, open@) == Some(rest@),
            paren_argument(s@, open@) matches Some(a) ==> a.len() < s@.len(),
        decreases n - i,
    {
        let c: char = rest[i];
        if c == '(' {
            depth += 1;
        } else if c == ')' {
            if depth == 1 {
                assert(rest@.subrange(0, i as int) == rest@.take(i as int));
                return Some(trim(part(rest, 0, i)));
            }
            depth -= 1;
        }
        i += 1;
    }
    None
}

// ------------------------------------------------------- arithmetic expressions

/// An integer as it is written: one that fits 64 bits, or the text of a wider
/// one.
pub enum IntegerText {
    I64(i64),
    Wide(Seq<char>),
}

/// The integer that the trimmed `s` spells.
pub open spec fn integer_text(s: Seq<char>) -> Option<IntegerText> {
    let t = text::trim_spec(s);
    let rest = if t.len() > 0 && (t[0] == '+' || t[0] == '-') {
        t.skip(1)
    } else {
        t
    };
    if rest.len() == 0 || !numbers::all_digits(rest) {
        None
    } else {
        match numbers::i64_spec(t) {
            Some(v) => Some(IntegerText::I64(v)),
            None => Some(IntegerText::Wide(t)),
        }
    }
}

/// An integer as it is written.
pub enum IvcIntegerLexical {
    I64(i64),
    Wide(Vec<char>),
}

impl DeepView for IvcIntegerLexical {
    type V = IntegerText;

    open spec fn deep_view(&self) -> IntegerText {
        match self {
            IvcIntegerLexical::I64(v) => IntegerText::I64(*v),
            IvcIntegerLexical::Wide(t) => IntegerText::Wide(t@),
        }
    }
}

/// Reads an integer.
pub fn parse_ivc_integer_lexical(s: &[char]) -> (r: Option<IvcIntegerLexical>)
    ensures
        r.deep_view() == integer_text(s@),
{
    let t = trim(s);
    let n: usize = t.len();
    if n == 0 {
        return None;
    }
    let rest = if t[0] == '+' || t[0] == '-' {
        assert(t@.subrange(1, n as int) == t@.skip(1));
        part(t, 1, n)
    } else {
        t
    };
    if rest.len() == 0 || !digits(rest) {
        return None;
    }
    match parse_i64(t) {
        Some(v) => Some(IvcIntegerLexical::I64(v)),
        None => {
            let mut out: Vec<char> = Vec::new();
            append_chars(&mut out, t);
            assert(out@ =~= t@);
            Some(IvcIntegerLexical::Wide(out))
        },
    }
}

/// The negative of a number, in 64 bits.
pub open spec fn negated(v: i64) -> i64 {
    if v == i64::MIN {
        v
    } else {
        (-v) as i64
    }
}

pub fn negate(v: i64) -> (r: i64)
    ensures
        r == negated(v),
{
    if v == i64::MIN {
        v
    } else {
        -v
    }
}

/// `s` stands between two of the same quotes, single or double.
pub open spec fn quoted(s: Seq<char>) -> bool {
    s.len() >= 2 && ((s[0] == '\'' && s.last() == '\'') || (s[0] == '"' && s.last() == '"'))
}

/// The text of a quoted literal, with doubled quotes made single.
pub open spec fn unquoted(s: Seq<char>) -> Seq<char> {
    text::replace_spec(
        text::replace_spec(s.subrange(1, s.len() - 1), "''"@, "'"@),
        "\"\""@,
        "\""@,
    )
}

/// Whether `s` stands between two of the same quotes.
pub fn is_quoted(s: &[char]) -> (r: bool)
    ensures
        r == quoted(s@),
{
    let n: usize = s.len();
    n >= 2 && ((s[0] == '\'' && s[n - 1] == '\'') || (s[0] == '"' && s[n - 1] == '"'))
}

/// The text of a quoted literal.
pub fn unquote(s: &[char]) -> (r: Vec<char>)
    requires
        quoted(s@),
    ensures
        r@ == unquoted(s@),
{
    proof {
        reveal_strlit("''");
        reveal_strlit("\"\"");
    }
    let n: usize = s.len();
    let once = replace(part(s, 1, n - 1), "''", "'");
    replace(once.as_slice(), "\"\"", "\"")
}

/// A cast such as `xs:int(..)` and its argument.
pub open spec fn cast_call(s: Seq<char>) -> Option<(IvcXsCast, Seq<char>)> {
    if paren_argument(s, "xs:byte("@) is Some {
        Some((IvcXsCast::Byte, paren_argument(s, "xs:byte("@)->0))
    } else if paren_argument(s, "xsd:byte("@) is Some {
        Some((IvcXsCast::Byte, paren_argument(s, "xsd:byte("@)->0))
    } else if paren_argument(s, "xs:short("@) is Some {
        Some((IvcXsCast::Short, paren_argument(s, "xs:short("@)->0))
    } else if paren_argument(s, "xsd:short("@) is Some {
        Some((IvcXsCast::Short, paren_argument(s, "xsd:short("@)->0))
    } else if paren_argument(s, "xs:int("@) is Some {
        Some((IvcXsCast::Int, paren_argument(s, "xs:int("@)->0))
    } else if paren_argument(s, "xsd:int("@) is Some {
        Some((IvcXsCast::Int, paren_argument(s, "xsd:int("@)->0))
    } else if paren_argument(s, "xs:long("@) is Some {
        Some((IvcXsCast::Long, paren_argument(s, "xs:long("@)->0))
    } else if paren_argument(s, "xsd:long("@) is Some {
        Some((IvcXsCast::Long, paren_argument(s, "xsd:long("@)->0))
    } else if paren_argument(s, "xs:unsignedByte("@) is Some {
        Some((IvcXsCast::UnsignedByte, paren_argument(s, "xs:unsignedByte("@)->0))
    } else if paren_argument(s, "xsd:unsignedByte("@) is Some {
        Some((IvcXsCast::UnsignedByte, paren_argument(s, "xsd:unsignedByte("@)->0))
    } else if paren_argument(s, "xs:unsignedShort("@) is Some {
        Some((IvcXsCast::UnsignedShort, paren_argument(s, "xs:unsignedShort("@)->0))
    } else if paren_argument(s, "xsd:unsignedShort("@) is Some {
        Some((IvcXsCast::UnsignedShort, paren_argument(s, "xsd:unsignedShort("@)->0))
    } else if paren_argument(s, "xs:unsignedInt("@) is Some {
        Some((IvcXsCast::UnsignedInt, paren_argument(s, "xs:unsignedInt("@)->0))
    } else if paren_argument(s, "xsd:unsignedInt("@) is Some {
        Some((IvcXsCast::UnsignedInt, paren_argument(s, "xsd:unsignedInt("@)->0))
    } else if paren_argument(s, "xs:unsignedLong("@) is Some {
        Some((IvcXsCast::UnsignedLong, paren_argument(s, "xs:unsignedLong("@)->0))
    } else if paren_argument(s, "xsd:unsignedLong("@) is Some {
        Some((IvcXsCast::UnsignedLong, paren_argument(s, "xsd:unsignedLong("@)->0))
    } else if paren_argument(s, "xs:float("@) is Some {
        Some((IvcXsCast::Float, paren_argument(s, "xs:float("@)->0))
    } else if paren_argument(s, "xsd:float("@) is Some {
        Some((IvcXsCast::Float, paren_argument(s, "xsd:float("@)->0))
    } else if paren_argument(s, "xs:double("@) is Some {
        Some((IvcXsCast::Double, paren_argument(s, "xs:double("@)->0))
    } else if paren_argument(s, "xsd:double("@) is Some {
        Some((IvcXsCast::Double, paren_argument(s, "xsd:double("@)->0))
    } else if paren_argument(s, "xs:string("@) is Some {
        Some((IvcXsCast::String, paren_argument(s, "xs:string("@)->0))
    } else if paren_argument(s, "xsd:string("@) is Some {
        Some((IvcXsCast::String, paren_argument(s, "xsd:string("@)->0))
    } else if paren_argument(s, "xs:hexBinary("@) is Some {
        Some((IvcXsCast::HexBinary, paren_argument(s, "xs:hexBinary("@)->0))
    } else if paren_argument(s, "xsd:hexBinary("@) is Some {
        Some((IvcXsCast::HexBinary, paren_argument(s, "xsd:hexBinary("@)->0))
    } else {
        None
    }
}

/// Reads a cast such as `xs:int(..)`.
fn read_cast<'a>(s: &'a [char]) -> (r: Option<(IvcXsCast, &'a [char])>)
    ensures
        match r {
            Some((k, a)) => cast_call(s@) == Some((k, a@)) && a@.len() < s@.len(),
            None => cast_call(s@) is None,
        },
{
    if let Some(a) = extract_ivc_paren_argument(s, "xs:byte(") {
        return Some((IvcXsCast::Byte, a));
    }
    if let Some(a) = extract_ivc_paren_argument(s, "xsd:byte(") {
        return Some((IvcXsCast::Byte, a));
    }
    if let Some(a) = extract_ivc_paren_argument(s, "xs:short(") {
        return Some((IvcXsCast::Short, a));
    }
    if let Some(a) = extract_ivc_paren_argument(s, "xsd:short(") {
        return Some((IvcXsCast::Short, a));
    }
    if let Some(a) = extract_ivc_paren_argument(s, "xs:int(") {
        return Some((IvcXsCast::Int, a));
    }
    if let Some(a) = extract_ivc_paren_argument(s, "xsd:int(") {
        return Some((IvcXsCast::Int, a));
    }
    if let Some(a) = extract_ivc_paren_argument(s, "xs:long(") {
        return Some((IvcXsCast::Long, a));
    }
    if let Some(a) = extract_ivc_paren_argument(s, "xsd:long(") {
        return Some((IvcXsCast::Long, a));
    }
    if let Some(a) = extract_ivc_paren_argument(s, "xs:unsignedByte(") {
        return Some((IvcXsCast::UnsignedByte, a));
    }
    if let Some(a) = extract_ivc_paren_argument(s, "xsd:unsignedByte(") {
        return Some((IvcXsCast::UnsignedByte, a));
    }
    if let Some(a) = extract_ivc_paren_argument(s, "xs:unsignedShort(") {
        return Some((IvcXsCast::UnsignedShort, a));
    }
    if let Some(a) = extract_ivc_paren_argument(s, "xsd:unsignedShort(") {
        return Some((IvcXsCast::UnsignedShort, a));
    }
    if let Some(a) = extract_ivc_paren_argument(s, "xs:unsignedInt(") {
        return Some((IvcXsCast::UnsignedInt, a));
    }
    if let Some(a) = extract_ivc_paren_argument(s, "xsd:unsignedInt(") {
        return Some((IvcXsCast::UnsignedInt, a));
    }
    if let Some(a) = extract_ivc_paren_argument(s, "xs:unsignedLong(") {
        return Some((IvcXsCast::UnsignedLong, a));
    }
    if let Some(a) = extract_ivc_paren_argument(s, "xsd:unsignedLong(") {
        return Some((IvcXsCast::UnsignedLong, a));
    }
    if let Some(a) = extract_ivc_paren_argument(s, "xs:float(") {
        return Some((IvcXsCast::Float, a));
    }
    if let Some(a) = extract_ivc_paren_argument(s, "xsd:float(") {
        return Some((IvcXsCast::Float, a));
    }
    if let Some(a) = extract_ivc_paren_argument(s, "xs:double(") {
        return Some((IvcXsCast::Double, a));
    }
    if let Some(a) = extract_ivc_paren_argument(s, "xsd:double(") {
        return Some((IvcXsCast::Double, a));
    }
    if let Some(a) = extract_ivc_paren_argument(s, "xs:string(") {
        return Some((IvcXsCast::String, a));
    }
    if let Some(a) = extract_ivc_paren_argument(s, "xsd:string(") {
        return Some((IvcXsCast::String, a));
    }
    if let Some(a) = extract_ivc_paren_argument(s, "xs:hexBinary(") {
        return Some((IvcXsCast::HexBinary, a));
    }
    if let Some(a) = extract_ivc_paren_argument(s, "xsd:hexBinary(") {
        return Some((IvcXsCast::HexBinary, a));
    }
    None
}

/// A sum: terms separated by `+`.
pub open spec fn ivc_add(s: Seq<char>) -> Option<InputValueCalcExpressionModel>
    decreases s.len(), 9int, 0int,
    via ivc_add_decreases
{
    let t = text::trim_spec(s);
    match op_parts(t, '+') {
        Some(parts) => match ivc_sub_all(parts, t.len()) {
            Some(terms) => Some(InputValueCalcExpressionModel::Add(terms)),
            None => None,
        },
        None => ivc_sub(t),
    }
}

#[via_fn]
proof fn ivc_add_decreases(s: Seq<char>) {
    text::lemma_trim_len(s);
}

/// The differences in a list of texts, each shorter than `bound`.
pub open spec fn ivc_sub_all(parts: Seq<Seq<char>>, bound: nat) -> Option<
    Seq<InputValueCalcExpressionModel>,
>
    decreases bound, 8int, parts.len(),
{
    if parts.len() == 0 {
        Some(Seq::empty())
    } else if parts.last().len() >= bound {
        None
    } else {
        match (ivc_sub_all(parts.drop_last(), bound), ivc_sub(parts.last())) {
            (Some(terms), Some(term)) => Some(terms.push(term)),
            _ => None,
        }
    }
}

/// A difference: terms separated by ` - `, taken from left to right.
pub open spec fn ivc_sub(s: Seq<char>) -> Option<InputValueCalcExpressionModel>
    decreases s.len(), 7int, 0int,
    via ivc_sub_decreases
{
    let t = text::trim_spec(s);
    match word_parts(t, " - "@) {
        Some(parts) => ivc_sub_fold(parts, t.len()),
        None => ivc_mul(t),
    }
}

#[via_fn]
proof fn ivc_sub_decreases(s: Seq<char>) {
    text::lemma_trim_len(s);
}

/// The differences of a list of texts, each shorter than `bound`.
pub open spec fn ivc_sub_fold(parts: Seq<Seq<char>>, bound: nat) -> Option<
    InputValueCalcExpressionModel,
>
    decreases bound, 6int, parts.len(),
{
    if parts.len() == 0 || parts.last().len() >= bound {
        None
    } else if parts.len() == 1 {
        ivc_mul(parts[0])
    } else {
        match (ivc_sub_fold(parts.drop_last(), bound), ivc_mul(parts.last())) {
            (Some(l), Some(r)) => Some(InputValueCalcExpressionModel::Sub(seq![l, r])),
            _ => None,
        }
    }
}

/// A product: factors separated by `*`.
pub open spec fn ivc_mul(s: Seq<char>) -> Option<InputValueCalcExpressionModel>
    decreases s.len(), 5int, 0int,
    via ivc_mul_decreases
{
    let t = text::trim_spec(s);
    match op_parts(t, '*') {
        Some(parts) => match ivc_div_all(parts, t.len()) {
            Some(terms) => Some(InputValueCalcExpressionModel::Mul(terms)),
            None => None,
        },
        None => ivc_div(t),
    }
}

#[via_fn]
proof fn ivc_mul_decreases(s: Seq<char>) {
    text::lemma_trim_len(s);
}

/// The quotients in a list of texts, each shorter than `bound`.
pub open spec fn ivc_div_all(parts: Seq<Seq<char>>, bound: nat) -> Option<
    Seq<InputValueCalcExpressionModel>,
>
    decreases bound, 4int, parts.len(),
{
    if parts.len() == 0 {
        Some(Seq::empty())
    } else if parts.last().len() >= bound {
        None
    } else {
        match (ivc_div_all(parts.drop_last(), bound), ivc_div(parts.last())) {
            (Some(terms), Some(term)) => Some(terms.push(term)),
            _ => None,
        }
    }
}

/// A quotient: operands separated by ` div `, taken from left to right.
pub open spec fn ivc_div(s: Seq<char>) -> Option<InputValueCalcExpressionModel>
    decreases s.len(), 3int, 0int,
    via ivc_div_decreases
{
    let t = text::trim_spec(s);
    match word_parts(t, " div "@) {
        Some(parts) => ivc_div_fold(parts, t.len()),
        None => ivc_primary(t),
    }
}

#[via_fn]
proof fn ivc_div_decreases(s: Seq<char>) {
    text::lemma_trim_len(s);
}

/// The quotients of a list of texts, each shorter than `bound`.
pub open spec fn ivc_div_fold(parts: Seq<Seq<char>>, bound: nat) -> Option<
    InputValueCalcExpressionModel,
>
    decreases bound, 2int, parts.len(),
{
    if parts.len() == 0 || parts.last().len() >= bound {
        None
    } else if parts.len() == 1 {
        ivc_primary(parts[0])
    } else {
        match (ivc_div_fold(parts.drop_last(), bound), ivc_primary(parts.last())) {
            (Some(l), Some(r)) => Some(
                InputValueCalcExpressionModel::Div(Box::new(l), Box::new(r)),
            ),
            _ => None,
        }
    }
}

/// What is no operation: a call, a literal, a variable or a path.
pub open spec fn ivc_primary(s: Seq<char>) -> Option<InputValueCalcExpressionModel>
    decreases s.len(), 1int, 0int,
    via ivc_primary_decreases
{
    let t = text::trim_spec(s);
    match paren_argument(t, "fn:ceiling("@) {
        Some(arg) => match ivc_add(arg) {
            Some(inner) => Some(InputValueCalcExpressionModel::Ceiling(Box::new(inner))),
            None => None,
        },
        None => match cast_call(t) {
            Some((kind, arg)) => match ivc_add(arg) {
                Some(inner) => Some(
                    InputValueCalcExpressionModel::Cast { kind, inner: Box::new(inner) },
                ),
                None => None,
            },
            None => ivc_leaf(t),
        },
    }
}

#[via_fn]
proof fn ivc_primary_decreases(s: Seq<char>) {
    text::lemma_trim_len(s);
    lemma_paren_argument(text::trim_spec(s), "fn:ceiling("@);
    lemma_cast_call(text::trim_spec(s));
}

proof fn lemma_cast_call(s: Seq<char>)
    ensures
        cast_call(s) matches Some((k, a)) ==> a.len() < s.len(),
{
    assert forall|open: Seq<char>| true implies (#[trigger] paren_argument(s, open) matches Some(
        a,
    ) ==> a.len() < s.len()) by {
        lemma_paren_argument(s, open);
    }
}

/// A literal, a variable or a path.
pub open spec fn ivc_leaf(t: Seq<char>) -> Option<InputValueCalcExpressionModel> {
    if t.len() > 0 && t[0] == '-' && integer_text(t.skip(1)) is Some {
        match integer_text(t.skip(1))->0 {
            IntegerText::I64(v) => Some(InputValueCalcExpressionModel::Literal(negated(v))),
            IntegerText::Wide(w) => Some(
                InputValueCalcExpressionModel::LiteralLexical(
                    seq!['-'] + text::trim_start_char(w, '+'),
                ),
            ),
        }
    } else if integer_text(t) is Some {
        match integer_text(t)->0 {
            IntegerText::I64(v) => Some(InputValueCalcExpressionModel::Literal(v)),
            IntegerText::Wide(w) => Some(InputValueCalcExpressionModel::LiteralLexical(w)),
        }
    } else if quoted(t) {
        Some(InputValueCalcExpressionModel::LiteralLexical(unquoted(t)))
    } else if t.len() > 0 && t[0] == '$' && text::trim_spec(t.skip(1)).len() > 0
        && !text::trim_spec(t.skip(1)).contains(' ') {
        Some(InputValueCalcExpressionModel::Variable(text::trim_spec(t.skip(1))))
    } else {
        match ivc_path(t) {
            Some((parent_root, steps)) => Some(
                InputValueCalcExpressionModel::Path { parent_root, steps },
            ),
            None => None,
        }
    }
}

/// Reads a literal, a variable or a path.
fn parse_ivc_leaf(t: &[char]) -> (r: Option<InputValueCalcExpression>)
    ensures
        r.deep_view() == ivc_leaf(t@),
{
    let n: usize = t.len();
    if n > 0 && t[0] == '-' {
        assert(t@.subrange(1, n as int) == t@.skip(1));
        match parse_ivc_integer_lexical(part(t, 1, n)) {
            Some(IvcIntegerLexical::I64(v)) => {
                return Some(InputValueCalcExpression::Literal(negate(v)));
            },
            Some(IvcIntegerLexical::Wide(w)) => {
                let mut out: Vec<char> = Vec::new();
                out.push('-');
                append_chars(&mut out, trim_start_matches(w.as_slice(), '+'));
                assert(out@ =~= seq!['-'] + text::trim_start_char(w@, '+'));
                return Some(InputValueCalcExpression::LiteralLexical(string_of(out.as_slice())));
            },
            None => {},
        }
    }
    match parse_ivc_integer_lexical(t) {
        Some(IvcIntegerLexical::I64(v)) => {
            return Some(InputValueCalcExpression::Literal(v));
        },
        Some(IvcIntegerLexical::Wide(w)) => {
            return Some(InputValueCalcExpression::LiteralLexical(string_of(w.as_slice())));
        },
        None => {},
    }
    if is_quoted(t) {
        let u = unquote(t);
        return Some(InputValueCalcExpression::LiteralLexical(string_of(u.as_slice())));
    }
    if n > 0 && t[0] == '$' {
        assert(t@.subrange(1, n as int) == t@.skip(1));
        let name = trim(part(t, 1, n));
        if name.len() > 0 && !contains_char(name, ' ') {
            return Some(InputValueCalcExpression::Variable(string_of(name)));
        }
    }
    parse_ivc_path_expr(t)
}

/// Reads a path.
fn parse_ivc_path_expr(s: &[char]) -> (r: Option<InputValueCalcExpression>)
    ensures
        r.deep_view() == (match ivc_path(s@) {
            Some((parent_root, steps)) => Some(
                InputValueCalcExpressionModel::Path { parent_root, steps },
            ),
            None => None,
        }),
{
    match parse_ivc_path_steps(s) {
        Some((parent_root, steps)) => Some(InputValueCalcExpression::Path { parent_root, steps }),
        None => None,
    }
}

/// Reads what is no operation.
fn parse_ivc_primary(s: &[char]) -> (r: Option<InputValueCalcExpression>)
    ensures
        r.deep_view() == ivc_primary(s@),
    decreases s@.len(), 1int, 0int,
{
    let t = trim(s);
    if let Some(arg) = extract_ivc_paren_argument(t, "fn:ceiling(") {
        return match parse_ivc_add_expr(arg) {
            Some(inner) => Some(InputValueCalcExpression::Ceiling(Box::new(inner))),
            None => None,
        };
    }
    if let Some((kind, arg)) = read_cast(t) {
        return match parse_ivc_add_expr(arg) {
            Some(inner) => Some(InputValueCalcExpression::Cast { kind, inner: Box::new(inner) }),
            None => None,
        };
    }
    parse_ivc_leaf(t)
}

/// Reads a quotient.
fn parse_ivc_div_expr(s: &[char]) -> (r: Option<InputValueCalcExpression>)
    ensures
        r.deep_view() == ivc_div(s@),
    decreases s@.len(), 3int, 0int,
{
    proof {
        reveal_strlit(" div ");
    }
    let t = trim(s);
    match split_top_level_word(t, " div ") {
        Some(parts) => {
            let ghost all = text::view_all(parts@);
            let mut left = match parse_ivc_primary(parts[0]) {
                Some(e) => e,
                None => {
                    proof {
                        lemma_div_fold_none(all, t@.len(), 1);
                    }
                    return None;
                },
            };
            assert(ivc_div_fold(all.take(1), t@.len()) == Some(left.deep_view()));
            let mut i: usize = 1;
            while i < parts.len()
                invariant
                    1 <= i <= parts@.len(),
                    all == text::view_all(parts@),
                    t@.len() <= s@.len(),
                    forall|k: int|
                        0 <= k < parts@.len() ==> (#[trigger] parts@[k])@.len() < t@.len(),
                    ivc_div_fold(all.take(i as int), t@.len()) == Some(left.deep_view()),
                    word_parts(t@, " div "@) == Some(all),
                    t@ == text::trim_spec(s@),
                decreases parts@.len() - i,
            {
                assert(all.take(i + 1).drop_last() == all.take(i as int));
                assert(all.take(i + 1).last() == parts@[i as int]@);
                let right = match parse_ivc_primary(parts[i]) {
                    Some(e) => e,
                    None => {
                        proof {
                            lemma_div_fold_none(all, t@.len(), i + 1);
                        }
                        return None;
                    },
                };
                left = InputValueCalcExpression::Div(Box::new(left), Box::new(right));
                i += 1;
            }
            assert(all.take(i as int) == all);
            Some(left)
        },
        None => parse_ivc_primary(t),
    }
}

proof fn lemma_div_fold_none(parts: Seq<Seq<char>>, bound: nat, n: int)
    requires
        1 <= n <= parts.len(),
        ivc_div_fold(parts.take(n), bound) is None,
    ensures
        ivc_div_fold(parts, bound) is None,
    decreases parts.len() - n,
{
    if n == parts.len() {
        assert(parts.take(n) == parts);
    } else {
        assert(parts.take(n + 1).drop_last() == parts.take(n));
        lemma_div_fold_none(parts, bound, n + 1);
    }
}

/// Reads a product.
fn parse_ivc_mul_expr(s: &[char]) -> (r: Option<InputValueCalcExpression>)
    ensures
        r.deep_view() == ivc_mul(s@),
    decreases s@.len(), 5int, 0int,
{
    let t = trim(s);
    match split_top_level_ivc_op(t, '*') {
        Some(parts) => {
            let ghost all = text::view_all(parts@);
            let mut terms: Vec<InputValueCalcExpression> = Vec::new();
            assert(crate::ast::expression_models(terms) =~= Seq::empty());
            let mut i: usize = 0;
            while i < parts.len()
                invariant
                    i <= parts@.len(),
                    all == text::view_all(parts@),
                    t@.len() <= s@.len(),
                    forall|k: int|
                        0 <= k < parts@.len() ==> (#[trigger] parts@[k])@.len() < t@.len(),
                    ivc_div_all(all.take(i as int), t@.len()) == Some(
                        crate::ast::expression_models(terms),
                    ),
                    op_parts(t@, '*') == Some(all),
                    t@ == text::trim_spec(s@),
                decreases parts@.len() - i,
            {
                assert(all.take(i + 1).drop_last() == all.take(i as int));
                assert(all.take(i + 1).last() == parts@[i as int]@);
                let term = match parse_ivc_div_expr(parts[i]) {
                    Some(e) => e,
                    None => {
                        proof {
                            lemma_div_all_none(all, t@.len(), i + 1);
                        }
                        return None;
                    },
                };
                let ghost before = crate::ast::expression_models(terms);
                let ghost last = term.model();
                terms.push(term);
                assert(crate::ast::expression_models(terms) =~= before.push(last));
                i += 1;
            }
            assert(all.take(i as int) == all);
            Some(InputValueCalcExpression::Mul(terms))
        },
        None => parse_ivc_div_expr(t),
    }
}

proof fn lemma_div_all_none(parts: Seq<Seq<char>>, bound: nat, n: int)
    requires
        0 <= n <= parts.len(),
        ivc_div_all(parts.take(n), bound) is None,
    ensures
        ivc_div_all(parts, bound) is None,
    decreases parts.len() - n,
{
    if n == parts.len() {
        assert(parts.take(n) == parts);
    } else {
        assert(parts.take(n + 1).drop_last() == parts.take(n));
        lemma_div_all_none(parts, bound, n + 1);
    }
}

/// Reads a difference.
fn parse_ivc_sub_expr(s: &[char]) -> (r: Option<InputValueCalcExpression>)
    ensures
        r.deep_view() == ivc_sub(s@),
    decreases s@.len(), 7int, 0int,
{
    proof {
        reveal_strlit(" - ");
    }
    let t = trim(s);
    match split_top_level_word(t, " - ") {
        Some(parts) => {
            let ghost all = text::view_all(parts@);
            let mut left = match parse_ivc_mul_expr(parts[0]) {
                Some(e) => e,
                None => {
                    proof {
                        lemma_sub_fold_none(all, t@.len(), 1);
                    }
                    return None;
                },
            };
            assert(ivc_sub_fold(all.take(1), t@.len()) == Some(left.deep_view()));
            let mut i: usize = 1;
            while i < parts.len()
                invariant
                    1 <= i <= parts@.len(),
                    all == text::view_all(parts@),
                    t@.len() <= s@.len(),
                    forall|k: int|
                        0 <= k < parts@.len() ==> (#[trigger] parts@[k])@.len() < t@.len(),
                    ivc_sub_fold(all.take(i as int), t@.len()) == Some(left.deep_view()),
                    word_parts(t@, " - "@) == Some(all),
                    t@ == text::trim_spec(s@),
                decreases parts@.len() - i,
            {
                assert(all.take(i + 1).drop_last() == all.take(i as int));
                assert(all.take(i + 1).last() == parts@[i as int]@);
                let right = match parse_ivc_mul_expr(parts[i]) {
                    Some(e) => e,
                    None => {
                        proof {
                            lemma_sub_fold_none(all, t@.len(), i + 1);
                        }
                        return None;
                    },
                };
                let mut two: Vec<InputValueCalcExpression> = Vec::new();
                let ghost l = left.model();
                let ghost r = right.model();
                two.push(left);
                two.push(right);
                assert(crate::ast::expression_models(two) =~= seq![l, r]);
                left = InputValueCalcExpression::Sub(two);
                i += 1;
            }
            assert(all.take(i as int) == all);
            Some(left)
        },
        None => parse_ivc_mul_expr(t),
    }
}

proof fn lemma_sub_fold_none(parts: Seq<Seq<char>>, bound: nat, n: int)
    requires
        1 <= n <= parts.len(),
        ivc_sub_fold(parts.take(n), bound) is None,
    ensures
        ivc_sub_fold(parts, bound) is None,
    decreases parts.len() - n,
{
    if n == parts.len() {
        assert(parts.take(n) == parts);
    } else {
        assert(parts.take(n + 1).drop_last() == parts.take(n));
        lemma_sub_fold_none(parts, bound, n + 1);
    }
}

/// Reads a sum.
fn parse_ivc_add_expr(s: &[char]) -> (r: Option<InputValueCalcExpression>)
    ensures
        r.deep_view() == ivc_add(s@),
    decreases s@.len(), 9int, 0int,
{
    let t = trim(s);
    match split_top_level_ivc_op(t, '+') {
        Some(parts) => {
            let ghost all = text::view_all(parts@);
            let mut terms: Vec<InputValueCalcExpression> = Vec::new();
            assert(crate::ast::expression_models(terms) =~= Seq::empty());
            let mut i: usize = 0;
            while i < parts.len()
                invariant
                    i <= parts@.len(),
                    all == text::view_all(parts@),
                    t@.len() <= s@.len(),
                    forall|k: int|
                        0 <= k < parts@.len() ==> (#[trigger] parts@[k])@.len() < t@.len(),
                    ivc_sub_all(all.take(i as int), t@.len()) == Some(
                        crate::ast::expression_models(terms),
                    ),
                    op_parts(t@, '+') == Some(all),
                    t@ == text::trim_spec(s@),
                decreases parts@.len() - i,
            {
                assert(all.take(i + 1).drop_last() == all.take(i as int));
                assert(all.take(i + 1).last() == parts@[i as int]@);
                let term = match parse_ivc_sub_expr(parts[i]) {
                    Some(e) => e,
                    None => {
                        proof {
                            lemma_sub_all_none(all, t@.len(), i + 1);
                        }
                        return None;
                    },
                };
                let ghost before = crate::ast::expression_models(terms);
                let ghost last = term.model();
                terms.push(term);
                assert(crate::ast::expression_models(terms) =~= before.push(last));
                i += 1;
            }
            assert(all.take(i as int) == all);
            Some(InputValueCalcExpression::Add(terms))
        },
        None => parse_ivc_sub_expr(t),
    }
}

proof fn lemma_sub_all_none(parts: Seq<Seq<char>>, bound: nat, n: int)
    requires
        0 <= n <= parts.len(),
        ivc_sub_all(parts.take(n), bound) is None,
    ensures
        ivc_sub_all(parts, bound) is None,
    decreases parts.len() - n,
{
    if n == parts.len() {
        assert(parts.take(n) == parts);
    } else {
        assert(parts.take(n + 1).drop_last() == parts.take(n));
        lemma_sub_all_none(parts, bound, n + 1);
    }
}

/// The expression of `inputValueCalc`.
pub open spec fn input_expression(value: Seq<char>) -> Option<InputValueCalcExpressionModel> {
    match braced(value) {
        Some(inner) => match text::after_prefix(inner, "xs:string("@) {
            Some(r) => match text::before_suffix(r, ")"@) {
                Some(rest) => match ivc_add(text::trim_spec(rest)) {
                    Some(e) => Some(InputValueCalcExpressionModel::StringOf(Box::new(e))),
                    None => None,
                },
                None => ivc_add(inner),
            },
            None => ivc_add(inner),
        },
        None => None,
    }
}

/// Reads the expression of `inputValueCalc`.
pub fn parse_input_value_calc_expression(value: &str) -> (r: Option<InputValueCalcExpression>)
    ensures
        r.deep_view() == input_expression(value@),
{
    let v = chars_of(value);
    let inner = match between_braces(v.as_slice()) {
        Some(t) => t,
        None => {
            return None;
        },
    };
    if let Some(after) = strip_prefix(inner, "xs:string(") {
        if let Some(rest) = strip_suffix(after, ")") {
            return match parse_ivc_add_expr(trim(rest)) {
                Some(e) => Some(InputValueCalcExpression::StringOf(Box::new(e))),
                None => None,
            };
        }
    }
    parse_ivc_add_expr(inner)
}

} // verus!
