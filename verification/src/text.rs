//! Text as sequences of characters: what the string operations of the schema
//! and TDML readers mean, and executable versions on character slices.

use vstd::prelude::*;
use vstd::slice::slice_subrange;

verus! {

broadcast use vstd::string::group_string_axioms;

/// A character with the Unicode `White_Space` property.
pub open spec fn is_white(c: char) -> bool {
    ||| '\u{9}' <= c <= '\u{d}'
    ||| c == ' '
    ||| c == '\u{85}'
    ||| c == '\u{a0}'
    ||| c == '\u{1680}'
    ||| '\u{2000}' <= c <= '\u{200a}'
    ||| c == '\u{2028}'
    ||| c == '\u{2029}'
    ||| c == '\u{202f}'
    ||| c == '\u{205f}'
    ||| c == '\u{3000}'
}

/// Whether `c` is white space.
pub fn white(c: char) -> (r: bool)
    ensures
        r == is_white(c),
{
    ('\u{9}' <= c && c <= '\u{d}') || c == ' ' || c == '\u{85}' || c == '\u{a0}' || c == '\u{1680}'
        || ('\u{2000}' <= c && c <= '\u{200a}') || c == '\u{2028}' || c == '\u{2029}' || c
        == '\u{202f}' || c == '\u{205f}' || c == '\u{3000}'
}

/// The characters of a string.
pub fn chars_of(s: &str) -> (r: Vec<char>)
    ensures
        r@ == s@,
{
    let mut out: Vec<char> = Vec::new();
    for c in it: s.chars()
        invariant
            it.seq() == s@,
            out@ == s@.take(it.index()),
    {
        out.push(c);
        assert(s@.take(it.index() + 1) == s@.take(it.index()).push(s@[it.index()]));
    }
    assert(s@.take(s@.len() as int) == s@);
    out
}

/// `String::from_iter` over a slice of characters: the string holds exactly
/// these characters in this order.
#[verifier::external_body]
pub(crate) fn string_of(s: &[char]) -> (r: String)
    ensures
        r@ == s@,
{
    s.iter().collect()
}

/// The characters of `s` between two positions.
pub fn part<'a>(s: &'a [char], from: usize, to: usize) -> (r: &'a [char])
    requires
        from <= to <= s@.len(),
    ensures
        r@ == s@.subrange(from as int, to as int),
{
    slice_subrange(s, from, to)
}

/// Whether two character sequences are the same.
pub fn same(a: &[char], b: &[char]) -> (r: bool)
    ensures
        r == (a@ == b@),
{
    if a.len() != b.len() {
        return false;
    }
    let mut i: usize = 0;
    while i < a.len()
        invariant
            i <= a@.len(),
            a@.len() == b@.len(),
            forall|k: int| 0 <= k < i ==> a@[k] == b@[k],
        decreases a@.len() - i,
    {
        if a[i] != b[i] {
            return false;
        }
        i += 1;
    }
    assert(a@ =~= b@);
    true
}

/// Whether a character sequence reads as the string `lit`.
pub fn is(a: &[char], lit: &str) -> (r: bool)
    ensures
        r == (a@ == lit@),
{
    let l = chars_of(lit);
    same(a, l.as_slice())
}

/// Whether two strings are the same.
pub fn eq(a: &str, b: &str) -> (r: bool)
    ensures
        r == (a@ == b@),
{
    let x = chars_of(a);
    is(x.as_slice(), b)
}

// ---------------------------------------------------------------- trimming

/// `s` without its leading white space.
pub open spec fn trim_start_spec(s: Seq<char>) -> Seq<char>
    decreases s.len(),
{
    if s.len() > 0 && is_white(s[0]) {
        trim_start_spec(s.skip(1))
    } else {
        s
    }
}

/// `s` without its trailing white space.
pub open spec fn trim_end_spec(s: Seq<char>) -> Seq<char>
    decreases s.len(),
{
    if s.len() > 0 && is_white(s.last()) {
        trim_end_spec(s.drop_last())
    } else {
        s
    }
}

/// `s` without leading and trailing white space.
pub open spec fn trim_spec(s: Seq<char>) -> Seq<char> {
    trim_end_spec(trim_start_spec(s))
}

/// Trimming never lengthens.
pub proof fn lemma_trim_len(s: Seq<char>)
    ensures
        trim_start_spec(s).len() <= s.len(),
        trim_end_spec(s).len() <= s.len(),
        trim_spec(s).len() <= s.len(),
    decreases s.len(),
{
    lemma_trim_start_len(s);
    lemma_trim_end_len(s);
    lemma_trim_end_len(trim_start_spec(s));
}

proof fn lemma_trim_start_first(s: Seq<char>)
    ensures
        trim_start_spec(s).len() > 0 ==> !is_white(trim_start_spec(s)[0]),
    decreases s.len(),
{
    if s.len() > 0 && is_white(s[0]) {
        lemma_trim_start_first(s.skip(1));
    }
}

proof fn lemma_trim_end_last(s: Seq<char>)
    ensures
        trim_end_spec(s).len() > 0 ==> !is_white(trim_end_spec(s).last()) && trim_end_spec(s)[0]
            == s[0],
    decreases s.len(),
{
    if s.len() > 0 && is_white(s.last()) {
        lemma_trim_end_last(s.drop_last());
    }
}

/// Trimming a second time changes nothing.
pub proof fn law_trim_twice(s: Seq<char>)
    ensures
        trim_spec(trim_spec(s)) == trim_spec(s),
{
    lemma_trim_start_first(s);
    lemma_trim_end_last(trim_start_spec(s));
}

pub proof fn lemma_trim_start_len(s: Seq<char>)
    ensures
        trim_start_spec(s).len() <= s.len(),
    decreases s.len(),
{
    if s.len() > 0 && is_white(s[0]) {
        lemma_trim_start_len(s.skip(1));
    }
}

proof fn lemma_trim_end_len(s: Seq<char>)
    ensures
        trim_end_spec(s).len() <= s.len(),
    decreases s.len(),
{
    if s.len() > 0 && is_white(s.last()) {
        lemma_trim_end_len(s.drop_last());
    }
}

/// `str::trim_start` on characters.
pub fn trim_start<'a>(s: &'a [char]) -> (r: &'a [char])
    ensures
        r@ == trim_start_spec(s@),
        r@.len() <= s@.len(),
{
    let mut i: usize = 0;
    assert(s@.skip(0) == s@);
    while i < s.len() && white(s[i])
        invariant
            i <= s@.len(),
            trim_start_spec(s@) == trim_start_spec(s@.skip(i as int)),
        decreases s@.len() - i,
    {
        assert(s@.skip(i as int).skip(1) == s@.skip(i + 1));
        i += 1;
    }
    assert(s@.subrange(i as int, s@.len() as int) == s@.skip(i as int));
    part(s, i, s.len())
}

/// `str::trim_end` on characters.
pub fn trim_end<'a>(s: &'a [char]) -> (r: &'a [char])
    ensures
        r@ == trim_end_spec(s@),
        r@.len() <= s@.len(),
{
    let mut i: usize = s.len();
    assert(s@.take(i as int) == s@);
    while i > 0 && white(s[i - 1])
        invariant
            i <= s@.len(),
            trim_end_spec(s@) == trim_end_spec(s@.take(i as int)),
        decreases i,
    {
        assert(s@.take(i as int).drop_last() == s@.take(i - 1));
        i -= 1;
    }
    assert(s@.subrange(0, i as int) == s@.take(i as int));
    part(s, 0, i)
}

/// `str::trim` on characters.
pub fn trim<'a>(s: &'a [char]) -> (r: &'a [char])
    ensures
        r@ == trim_spec(s@),
        r@.len() <= s@.len(),
{
    trim_end(trim_start(s))
}

// --------------------------------------------------------- prefix and suffix

/// `s` begins with `p`.
pub open spec fn has_prefix(s: Seq<char>, p: Seq<char>) -> bool {
    p.len() <= s.len() && s.take(p.len() as int) == p
}

/// `s` ends with `p`.
pub open spec fn has_suffix(s: Seq<char>, p: Seq<char>) -> bool {
    p.len() <= s.len() && s.skip(s.len() - p.len()) == p
}

/// What is left of `s` behind the prefix `p`, if `s` begins with it.
pub open spec fn after_prefix(s: Seq<char>, p: Seq<char>) -> Option<Seq<char>> {
    if has_prefix(s, p) {
        Some(s.skip(p.len() as int))
    } else {
        None
    }
}

/// What is left of `s` before the suffix `p`, if `s` ends with it.
pub open spec fn before_suffix(s: Seq<char>, p: Seq<char>) -> Option<Seq<char>> {
    if has_suffix(s, p) {
        Some(s.take(s.len() - p.len()))
    } else {
        None
    }
}

/// An optional character sequence as its optional contents.
pub open spec fn view_opt(o: Option<&[char]>) -> Option<Seq<char>> {
    match o {
        Some(t) => Some(t@),
        None => None,
    }
}

/// An optional string as its optional contents.
pub open spec fn str_opt(o: Option<String>) -> Option<Seq<char>> {
    match o {
        Some(t) => Some(t@),
        None => None,
    }
}

/// An optional string slice as its optional contents.
pub open spec fn ref_opt(o: Option<&str>) -> Option<Seq<char>> {
    match o {
        Some(t) => Some(t@),
        None => None,
    }
}

/// Whether the characters of `s` from position `at` on begin with `p`.
pub fn matches_at(s: &[char], at: usize, p: &[char]) -> (r: bool)
    requires
        at <= s@.len(),
    ensures
        r == has_prefix(s@.skip(at as int), p@),
{
    let n: usize = s.len();
    if p.len() > n - at {
        return false;
    }
    let ghost t = s@.skip(at as int);
    let mut i: usize = 0;
    while i < p.len()
        invariant
            i <= p@.len(),
            at + p@.len() <= n,
            n == s@.len(),
            t == s@.skip(at as int),
            forall|k: int| 0 <= k < i ==> t[k] == p@[k],
        decreases p@.len() - i,
    {
        if s[at + i] != p[i] {
            assert(t[i as int] != p@[i as int]);
            assert(t.take(p@.len() as int)[i as int] == t[i as int]);
            return false;
        }
        i += 1;
    }
    assert(t.take(p@.len() as int) =~= p@);
    true
}

/// `str::starts_with` with a string.
pub fn starts_with(s: &[char], p: &str) -> (r: bool)
    ensures
        r == has_prefix(s@, p@),
{
    let l = chars_of(p);
    assert(s@.skip(0) == s@);
    matches_at(s, 0, l.as_slice())
}

/// `str::ends_with` with a string.
pub fn ends_with(s: &[char], p: &str) -> (r: bool)
    ensures
        r == has_suffix(s@, p@),
{
    let l = chars_of(p);
    if l.len() > s.len() {
        return false;
    }
    let at: usize = s.len() - l.len();
    let ghost t = s@.skip(at as int);
    assert(t.take(p@.len() as int) == t);
    matches_at(s, at, l.as_slice())
}

/// `str::strip_prefix` with a string.
pub fn strip_prefix<'a>(s: &'a [char], p: &str) -> (r: Option<&'a [char]>)
    ensures
        view_opt(r) == after_prefix(s@, p@),
{
    if starts_with(s, p) {
        let l = chars_of(p);
        assert(s@.subrange(p@.len() as int, s@.len() as int) == s@.skip(p@.len() as int));
        Some(part(s, l.len(), s.len()))
    } else {
        None
    }
}

/// `str::strip_suffix` with a string.
pub fn strip_suffix<'a>(s: &'a [char], p: &str) -> (r: Option<&'a [char]>)
    ensures
        view_opt(r) == before_suffix(s@, p@),
{
    if ends_with(s, p) {
        let l = chars_of(p);
        assert(s@.subrange(0, s@.len() - p@.len()) == s@.take(s@.len() - p@.len()));
        Some(part(s, 0, s.len() - l.len()))
    } else {
        None
    }
}

// ----------------------------------------------------------------- searching

/// The first position at or behind `from` at which `p` stands in `s`.
pub open spec fn find_from(s: Seq<char>, p: Seq<char>, from: int) -> Option<int>
    decreases s.len() + 1 - from,
{
    if from < 0 || from > s.len() {
        None
    } else if has_prefix(s.skip(from), p) {
        Some(from)
    } else {
        find_from(s, p, from + 1)
    }
}

/// The first position at which `p` stands in `s`.
pub open spec fn find_spec(s: Seq<char>, p: Seq<char>) -> Option<int> {
    find_from(s, p, 0)
}

/// `p` stands somewhere in `s`.
pub open spec fn contains_spec(s: Seq<char>, p: Seq<char>) -> bool {
    find_spec(s, p) is Some
}

/// What `find_from` gives is a position where `p` stands.
pub proof fn lemma_find_from(s: Seq<char>, p: Seq<char>, from: int)
    ensures
        match find_from(s, p, from) {
            Some(i) => from <= i && 0 <= i && i + p.len() <= s.len() && has_prefix(s.skip(i), p),
            None => forall|i: int| from <= i <= s.len() && 0 <= from ==> !has_prefix(s.skip(i), p),
        },
    decreases s.len() + 1 - from,
{
    if from < 0 || from > s.len() {
    } else if has_prefix(s.skip(from), p) {
    } else {
        lemma_find_from(s, p, from + 1);
    }
}

/// `str::find` with a string, from a position on.
pub fn find_at(s: &[char], p: &str, from: usize) -> (r: Option<usize>)
    requires
        from <= s@.len(),
    ensures
        match r {
            Some(i) => find_from(s@, p@, from as int) == Some(i as int) && i + p@.len() <= s@.len(),
            None => find_from(s@, p@, from as int) is None,
        },
{
    let l = chars_of(p);
    let mut i: usize = from;
    while i < s.len()
        invariant
            from <= i <= s@.len(),
            l@ == p@,
            find_from(s@, p@, from as int) == find_from(s@, p@, i as int),
        decreases s@.len() - i,
    {
        if matches_at(s, i, l.as_slice()) {
            return Some(i);
        }
        i += 1;
    }
    if l.len() == 0 {
        assert(s@.skip(i as int).take(0) =~= p@);
        return Some(i);
    }
    assert(!has_prefix(s@.skip(i as int), p@));
    assert(find_from(s@, p@, i as int + 1) is None);
    None
}

/// `str::find` with a string.
pub fn find(s: &[char], p: &str) -> (r: Option<usize>)
    ensures
        match r {
            Some(i) => find_spec(s@, p@) == Some(i as int) && i + p@.len() <= s@.len(),
            None => find_spec(s@, p@) is None,
        },
{
    find_at(s, p, 0)
}

/// `str::contains` with a string.
pub fn contains(s: &[char], p: &str) -> (r: bool)
    ensures
        r == contains_spec(s@, p@),
{
    find(s, p).is_some()
}

/// The first position of the character `c` in `s`.
pub open spec fn char_pos(s: Seq<char>, c: char) -> Option<int>
    decreases s.len(),
{
    if s.len() == 0 {
        None
    } else if s[0] == c {
        Some(0)
    } else {
        match char_pos(s.skip(1), c) {
            Some(i) => Some(i + 1),
            None => None,
        }
    }
}

/// The last position of the character `c` in `s`.
pub open spec fn char_rpos(s: Seq<char>, c: char) -> Option<int>
    decreases s.len(),
{
    if s.len() == 0 {
        None
    } else if s.last() == c {
        Some(s.len() - 1)
    } else {
        char_rpos(s.drop_last(), c)
    }
}

/// Where `char_pos` finds the character, and that it stands nowhere before.
pub proof fn lemma_char_pos(s: Seq<char>, c: char)
    ensures
        match char_pos(s, c) {
            Some(i) => 0 <= i < s.len() && s[i] == c && forall|k: int| 0 <= k < i ==> s[k] != c,
            None => !s.contains(c),
        },
    decreases s.len(),
{
    if s.len() > 0 && s[0] != c {
        lemma_char_pos(s.skip(1), c);
        match char_pos(s.skip(1), c) {
            Some(i) => {
                assert forall|k: int| 0 <= k < i + 1 implies s[k] != c by {
                    if k > 0 {
                        assert(s.skip(1)[k - 1] == s[k]);
                    }
                }
            },
            None => {
                assert forall|k: int| 0 <= k < s.len() implies s[k] != c by {
                    if k > 0 {
                        assert(s.skip(1)[k - 1] == s[k]);
                        assert(s.skip(1).contains(s[k]));
                    }
                }
            },
        }
    }
}

/// Where `char_rpos` finds the character, and that it stands nowhere behind.
pub proof fn lemma_char_rpos(s: Seq<char>, c: char)
    ensures
        match char_rpos(s, c) {
            Some(i) => 0 <= i < s.len() && s[i] == c && forall|k: int|
                i < k < s.len() ==> s[k] != c,
            None => !s.contains(c),
        },
    decreases s.len(),
{
    if s.len() > 0 && s.last() != c {
        lemma_char_rpos(s.drop_last(), c);
        match char_rpos(s.drop_last(), c) {
            Some(i) => {
                assert forall|k: int| i < k < s.len() implies s[k] != c by {
                    if k < s.len() - 1 {
                        assert(s.drop_last()[k] == s[k]);
                    }
                }
            },
            None => {
                assert forall|k: int| 0 <= k < s.len() implies s[k] != c by {
                    if k < s.len() - 1 {
                        assert(s.drop_last()[k] == s[k]);
                        assert(s.drop_last().contains(s[k]));
                    }
                }
            },
        }
    }
}

/// `str::find` with a character.
pub fn find_char(s: &[char], c: char) -> (r: Option<usize>)
    ensures
        match r {
            Some(i) => char_pos(s@, c) == Some(i as int) && i < s@.len(),
            None => char_pos(s@, c) is None,
        },
{
    let mut i: usize = 0;
    assert(s@.skip(0) == s@);
    while i < s.len()
        invariant
            i <= s@.len(),
            match char_pos(s@.skip(i as int), c) {
                Some(k) => char_pos(s@, c) == Some(i + k),
                None => char_pos(s@, c) is None,
            },
        decreases s@.len() - i,
    {
        assert(s@.skip(i as int)[0] == s@[i as int]);
        if s[i] == c {
            return Some(i);
        }
        assert(s@.skip(i as int).skip(1) == s@.skip(i + 1));
        i += 1;
    }
    None
}

/// `str::rfind` with a character.
pub fn rfind_char(s: &[char], c: char) -> (r: Option<usize>)
    ensures
        match r {
            Some(i) => char_rpos(s@, c) == Some(i as int) && i < s@.len(),
            None => char_rpos(s@, c) is None,
        },
{
    let mut i: usize = s.len();
    assert(s@.take(i as int) == s@);
    while i > 0
        invariant
            i <= s@.len(),
            char_rpos(s@, c) == char_rpos(s@.take(i as int), c),
        decreases i,
    {
        assert(s@.take(i as int).last() == s@[i - 1]);
        if s[i - 1] == c {
            return Some(i - 1);
        }
        assert(s@.take(i as int).drop_last() == s@.take(i - 1));
        i -= 1;
    }
    None
}

/// Whether the character `c` stands in `s`.
pub fn contains_char(s: &[char], c: char) -> (r: bool)
    ensures
        r == s@.contains(c),
{
    proof {
        lemma_char_pos(s@, c);
    }
    find_char(s, c).is_some()
}

// ----------------------------------------------------------------- splitting

/// What stands before and behind the first `c` in `s`.
pub open spec fn split_once_spec(s: Seq<char>, c: char) -> Option<(Seq<char>, Seq<char>)> {
    match char_pos(s, c) {
        Some(i) => Some((s.take(i), s.skip(i + 1))),
        None => None,
    }
}

/// What stands before and behind the last `c` in `s`.
pub open spec fn rsplit_once_spec(s: Seq<char>, c: char) -> Option<(Seq<char>, Seq<char>)> {
    match char_rpos(s, c) {
        Some(i) => Some((s.take(i), s.skip(i + 1))),
        None => None,
    }
}

/// What stands behind the last `c` in `s`, or all of `s`.
pub open spec fn after_last(s: Seq<char>, c: char) -> Seq<char> {
    match char_rpos(s, c) {
        Some(i) => s.skip(i + 1),
        None => s,
    }
}

/// What stands before the first `c` in `s`, or all of `s`.
pub open spec fn before_first(s: Seq<char>, c: char) -> Seq<char> {
    match char_pos(s, c) {
        Some(i) => s.take(i),
        None => s,
    }
}

/// A pair of character sequences as their contents.
pub open spec fn view_pair(o: Option<(&[char], &[char])>) -> Option<(Seq<char>, Seq<char>)> {
    match o {
        Some((a, b)) => Some((a@, b@)),
        None => None,
    }
}

/// `str::split_once` with a character.
pub fn split_once<'a>(s: &'a [char], c: char) -> (r: Option<(&'a [char], &'a [char])>)
    ensures
        view_pair(r) == split_once_spec(s@, c),
{
    match find_char(s, c) {
        Some(i) => {
            assert(s@.subrange(0, i as int) == s@.take(i as int));
            assert(s@.subrange(i + 1, s@.len() as int) == s@.skip(i + 1));
            let n: usize = s.len();
            Some((part(s, 0, i), part(s, i + 1, n)))
        },
        None => None,
    }
}

/// `str::rsplit_once` with a character.
pub fn rsplit_once<'a>(s: &'a [char], c: char) -> (r: Option<(&'a [char], &'a [char])>)
    ensures
        view_pair(r) == rsplit_once_spec(s@, c),
{
    match rfind_char(s, c) {
        Some(i) => {
            assert(s@.subrange(0, i as int) == s@.take(i as int));
            assert(s@.subrange(i + 1, s@.len() as int) == s@.skip(i + 1));
            let n: usize = s.len();
            Some((part(s, 0, i), part(s, i + 1, n)))
        },
        None => None,
    }
}

/// The last of the pieces that `str::rsplit` with a character gives first.
pub fn last_piece<'a>(s: &'a [char], c: char) -> (r: &'a [char])
    ensures
        r@ == after_last(s@, c),
{
    match rsplit_once(s, c) {
        Some((_, b)) => b,
        None => s,
    }
}

/// The first of the pieces that `str::split` with a character gives.
pub fn first_piece<'a>(s: &'a [char], c: char) -> (r: &'a [char])
    ensures
        r@ == before_first(s@, c),
{
    match split_once(s, c) {
        Some((a, _)) => a,
        None => s,
    }
}

/// The pieces of `s` between the occurrences of `c`.
pub open spec fn split_spec(s: Seq<char>, c: char) -> Seq<Seq<char>>
    decreases s.len(),
    via split_decreases
{
    match char_pos(s, c) {
        Some(i) => seq![s.take(i)] + split_spec(s.skip(i + 1), c),
        None => seq![s],
    }
}

#[via_fn]
proof fn split_decreases(s: Seq<char>, c: char) {
    lemma_char_pos(s, c);
}

/// A list of character sequences as their contents.
pub open spec fn view_all(v: Seq<&[char]>) -> Seq<Seq<char>> {
    v.map_values(|t: &[char]| t@)
}

/// A list of strings as their contents.
pub open spec fn strings(v: Seq<String>) -> Seq<Seq<char>> {
    v.map_values(|t: String| t@)
}

/// `str::split` with a character.
pub fn split<'a>(s: &'a [char], c: char) -> (r: Vec<&'a [char]>)
    ensures
        view_all(r@) == split_spec(s@, c),
        forall|k: int| 0 <= k < r@.len() ==> (#[trigger] r@[k])@.len() <= s@.len(),
{
    let mut out: Vec<&'a [char]> = Vec::new();
    let mut rest: &'a [char] = s;
    assert(view_all(out@) + split_spec(s@, c) == split_spec(s@, c));
    loop
        invariant
            view_all(out@) + split_spec(rest@, c) == split_spec(s@, c),
            rest@.len() <= s@.len(),
            forall|k: int| 0 <= k < out@.len() ==> (#[trigger] out@[k])@.len() <= s@.len(),
        decreases rest@.len(),
    {
        let ghost before = out@;
        let ghost old_rest = rest@;
        match split_once(rest, c) {
            Some((a, b)) => {
                proof {
                    lemma_char_pos(rest@, c);
                    assert(view_all(before.push(a)) =~= view_all(before).push(a@));
                    assert(view_all(before) + (seq![a@] + split_spec(b@, c)) =~= view_all(
                        before,
                    ).push(a@) + split_spec(b@, c));
                }
                out.push(a);
                rest = b;
            },
            None => {
                proof {
                    assert(view_all(before.push(rest)) =~= view_all(before) + seq![rest@]);
                }
                out.push(rest);
                return out;
            },
        }
    }
}

/// The pieces of `s` between the occurrences of `c`, without the empty ones.
pub open spec fn nonempty(s: Seq<Seq<char>>) -> Seq<Seq<char>>
    decreases s.len(),
{
    if s.len() == 0 {
        s
    } else if s.last().len() > 0 {
        nonempty(s.drop_last()).push(s.last())
    } else {
        nonempty(s.drop_last())
    }
}

/// The maximal runs of `s` without white space, from position `at` on, where
/// `start` is the beginning of the current run.
pub open spec fn words_from(s: Seq<char>, start: int, at: int) -> Seq<Seq<char>>
    decreases s.len() - at,
{
    if at < 0 || at >= s.len() {
        if start < at {
            seq![s.subrange(start, at)]
        } else {
            Seq::empty()
        }
    } else if is_white(s[at]) {
        if start < at {
            seq![s.subrange(start, at)] + words_from(s, at + 1, at + 1)
        } else {
            words_from(s, at + 1, at + 1)
        }
    } else {
        words_from(s, start, at + 1)
    }
}

/// The maximal runs of `s` without white space.
pub open spec fn words_spec(s: Seq<char>) -> Seq<Seq<char>> {
    words_from(s, 0, 0)
}

/// `str::split_whitespace`.
pub fn words<'a>(s: &'a [char]) -> (r: Vec<&'a [char]>)
    ensures
        view_all(r@) == words_spec(s@),
{
    let mut out: Vec<&'a [char]> = Vec::new();
    let mut start: usize = 0;
    let mut i: usize = 0;
    assert(view_all(out@) + words_spec(s@) =~= words_spec(s@));
    while i < s.len()
        invariant
            start <= i <= s@.len(),
            view_all(out@) + words_from(s@, start as int, i as int) == words_spec(s@),
        decreases s@.len() - i,
    {
        if white(s[i]) {
            if start < i {
                let w = part(s, start, i);
                proof {
                    assert(view_all(out@.push(w)) =~= view_all(out@).push(w@));
                    assert(view_all(out@) + (seq![w@] + words_from(s@, i + 1, i + 1)) =~= view_all(
                        out@,
                    ).push(w@) + words_from(s@, i + 1, i + 1));
                }
                out.push(w);
            }
            start = i + 1;
        }
        i += 1;
    }
    if start < i {
        let w = part(s, start, i);
        proof {
            assert(view_all(out@.push(w)) =~= view_all(out@) + seq![w@]);
        }
        out.push(w);
    } else {
        assert(view_all(out@) + Seq::<Seq<char>>::empty() =~= view_all(out@));
    }
    out
}

// --------------------------------------------------------- character filters

/// `s` without its white space.
pub open spec fn compact_spec(s: Seq<char>) -> Seq<char>
    decreases s.len(),
{
    if s.len() == 0 {
        s
    } else if is_white(s.last()) {
        compact_spec(s.drop_last())
    } else {
        compact_spec(s.drop_last()).push(s.last())
    }
}

/// The characters of `s` that are no white space.
pub fn compact(s: &[char]) -> (r: Vec<char>)
    ensures
        r@ == compact_spec(s@),
{
    let mut out: Vec<char> = Vec::new();
    let mut i: usize = 0;
    while i < s.len()
        invariant
            i <= s@.len(),
            out@ == compact_spec(s@.take(i as int)),
        decreases s@.len() - i,
    {
        assert(s@.take(i + 1).drop_last() == s@.take(i as int));
        if !white(s[i]) {
            out.push(s[i]);
        }
        i += 1;
    }
    assert(s@.take(i as int) == s@);
    out
}

/// `s` without leading occurrences of `c`.
pub open spec fn trim_start_char(s: Seq<char>, c: char) -> Seq<char>
    decreases s.len(),
{
    if s.len() > 0 && s[0] == c {
        trim_start_char(s.skip(1), c)
    } else {
        s
    }
}

/// `s` without trailing occurrences of `c`.
pub open spec fn trim_end_char(s: Seq<char>, c: char) -> Seq<char>
    decreases s.len(),
{
    if s.len() > 0 && s.last() == c {
        trim_end_char(s.drop_last(), c)
    } else {
        s
    }
}

/// `s` without leading and trailing occurrences of `c`.
pub open spec fn trim_char(s: Seq<char>, c: char) -> Seq<char> {
    trim_end_char(trim_start_char(s, c), c)
}

/// `str::trim_start_matches` with a character.
pub fn trim_start_matches<'a>(s: &'a [char], c: char) -> (r: &'a [char])
    ensures
        r@ == trim_start_char(s@, c),
{
    let mut i: usize = 0;
    assert(s@.skip(0) == s@);
    while i < s.len() && s[i] == c
        invariant
            i <= s@.len(),
            trim_start_char(s@, c) == trim_start_char(s@.skip(i as int), c),
        decreases s@.len() - i,
    {
        assert(s@.skip(i as int).skip(1) == s@.skip(i + 1));
        i += 1;
    }
    assert(s@.subrange(i as int, s@.len() as int) == s@.skip(i as int));
    part(s, i, s.len())
}

/// `str::trim_end_matches` with a character.
pub fn trim_end_matches<'a>(s: &'a [char], c: char) -> (r: &'a [char])
    ensures
        r@ == trim_end_char(s@, c),
{
    let mut i: usize = s.len();
    assert(s@.take(i as int) == s@);
    while i > 0 && s[i - 1] == c
        invariant
            i <= s@.len(),
            trim_end_char(s@, c) == trim_end_char(s@.take(i as int), c),
        decreases i,
    {
        assert(s@.take(i as int).drop_last() == s@.take(i - 1));
        i -= 1;
    }
    assert(s@.subrange(0, i as int) == s@.take(i as int));
    part(s, 0, i)
}

/// `str::trim_matches` with a character.
pub fn trim_matches<'a>(s: &'a [char], c: char) -> (r: &'a [char])
    ensures
        r@ == trim_char(s@, c),
{
    trim_end_matches(trim_start_matches(s, c), c)
}

/// A character with ASCII capitals made small.
pub open spec fn lower_char(c: char) -> char {
    if 'A' <= c <= 'Z' {
        (c as u32 + 32) as char
    } else {
        c
    }
}

/// `s` with ASCII capitals made small.
pub open spec fn lower_spec(s: Seq<char>) -> Seq<char> {
    s.map_values(|c: char| lower_char(c))
}

/// `char::to_ascii_lowercase`.
pub fn to_lower(c: char) -> (r: char)
    ensures
        r == lower_char(c),
{
    if 'A' <= c && c <= 'Z' {
        ((c as u8) + 32) as char
    } else {
        c
    }
}

/// `str::to_ascii_lowercase`.
pub fn lower(s: &[char]) -> (r: Vec<char>)
    ensures
        r@ == lower_spec(s@),
{
    let mut out: Vec<char> = Vec::new();
    let mut i: usize = 0;
    while i < s.len()
        invariant
            i <= s@.len(),
            out@.len() == i,
            forall|k: int| 0 <= k < i ==> out@[k] == lower_char(s@[k]),
        decreases s@.len() - i,
    {
        out.push(to_lower(s[i]));
        i += 1;
    }
    assert(out@ =~= lower_spec(s@));
    out
}

/// `s` with every occurrence of `from`, found left to right without overlap,
/// replaced by `to`, from position `at` on.
pub open spec fn replace_from(s: Seq<char>, from: Seq<char>, to: Seq<char>, at: int) -> Seq<char>
    decreases s.len() - at,
{
    if at < 0 || at >= s.len() || from.len() == 0 {
        Seq::empty()
    } else if has_prefix(s.skip(at), from) {
        to + replace_from(s, from, to, at + from.len())
    } else {
        seq![s[at]] + replace_from(s, from, to, at + 1)
    }
}

/// `s` with every occurrence of the non-empty `from` replaced by `to`.
pub open spec fn replace_spec(s: Seq<char>, from: Seq<char>, to: Seq<char>) -> Seq<char> {
    replace_from(s, from, to, 0)
}

/// `str::replace` of a non-empty string.
pub fn replace(s: &[char], from: &str, to: &str) -> (r: Vec<char>)
    requires
        from@.len() > 0,
    ensures
        r@ == replace_spec(s@, from@, to@),
{
    let f = chars_of(from);
    let t = chars_of(to);
    let n: usize = s.len();
    let mut out: Vec<char> = Vec::new();
    let mut i: usize = 0;
    assert(out@ + replace_spec(s@, f@, t@) =~= replace_spec(s@, f@, t@));
    while i < n
        invariant
            i <= n,
            n == s@.len(),
            f@.len() > 0,
            f@ == from@,
            t@ == to@,
            out@ + replace_from(s@, f@, t@, i as int) == replace_spec(s@, f@, t@),
        decreases n - i,
    {
        let ghost before = out@;
        if matches_at(s, i, f.as_slice()) {
            append_chars(&mut out, t.as_slice());
            proof {
                let rest = replace_from(s@, f@, t@, i + f@.len());
                assert(before + (t@ + rest) =~= (before + t@) + rest);
            }
            i += f.len();
        } else {
            out.push(s[i]);
            proof {
                let rest = replace_from(s@, f@, t@, i + 1);
                assert(before + (seq![s@[i as int]] + rest) =~= before.push(s@[i as int]) + rest);
            }
            i += 1;
        }
    }
    assert(out@ + Seq::<char>::empty() =~= out@);
    out
}

/// Puts the characters of `s` behind those of `out`.
pub fn append_chars(out: &mut Vec<char>, s: &[char])
    ensures
        final(out)@ == old(out)@ + s@,
{
    let ghost before = out@;
    let mut i: usize = 0;
    assert(before + s@.take(0) =~= before);
    while i < s.len()
        invariant
            i <= s@.len(),
            out@ == before + s@.take(i as int),
        decreases s@.len() - i,
    {
        out.push(s[i]);
        assert(before + s@.take(i + 1) =~= (before + s@.take(i as int)).push(s@[i as int]));
        i += 1;
    }
    assert(s@.take(i as int) == s@);
}

/// Texts with a separator between them.
pub open spec fn joined(list: Seq<Seq<char>>, sep: Seq<char>) -> Seq<char>
    decreases list.len(),
{
    if list.len() == 0 {
        Seq::empty()
    } else if list.len() == 1 {
        list[0]
    } else {
        joined(list.drop_last(), sep) + sep + list.last()
    }
}

/// Texts with a separator between them.
pub fn join(list: &Vec<String>, sep: &str) -> (r: String)
    ensures
        r@ == joined(list.deep_view(), sep@),
{
    let ghost all = list.deep_view();
    let between = chars_of(sep);
    let mut out: Vec<char> = Vec::new();
    let mut i: usize = 0;
    assert(all.take(0) =~= Seq::<Seq<char>>::empty());
    while i < list.len()
        invariant
            i <= list@.len(),
            all == list.deep_view(),
            between@ == sep@,
            out@ == joined(all.take(i as int), sep@),
        decreases list@.len() - i,
    {
        assert(all[i as int] == list@[i as int]@);
        assert(all.take(i + 1).drop_last() =~= all.take(i as int));
        assert(all.take(i + 1).last() == all[i as int]);
        if i > 0 {
            append_chars(&mut out, between.as_slice());
        }
        let c = chars_of(list[i].as_str());
        append_chars(&mut out, c.as_slice());
        assert(out@ =~= joined(all.take(i + 1), sep@));
        i += 1;
    }
    assert(all.take(all.len() as int) =~= all);
    string_of(out.as_slice())
}

/// A text holds another just where that is a run of its characters.
pub proof fn law_contains(s: Seq<char>, p: Seq<char>)
    ensures
        contains_spec(s, p) <==> exists|i: int|
            0 <= i && i + p.len() <= s.len() && #[trigger] s.subrange(i, i + p.len()) == p,
{
    lemma_find_from(s, p, 0);
    if let Some(i) = find_from(s, p, 0) {
        assert(s.subrange(i, i + p.len()) =~= s.skip(i).take(p.len() as int));
    }
    if exists|i: int|
        0 <= i && i + p.len() <= s.len() && #[trigger] s.subrange(i, i + p.len()) == p {
        let i = choose|i: int|
            0 <= i && i + p.len() <= s.len() && #[trigger] s.subrange(i, i + p.len()) == p;
        assert(s.subrange(i, i + p.len()) =~= s.skip(i).take(p.len() as int));
        assert(has_prefix(s.skip(i), p));
    }
}

/// Texts that are put together hold each of them.
pub proof fn law_joined_holds_each(list: Seq<Seq<char>>, sep: Seq<char>, k: int)
    requires
        0 <= k < list.len(),
    ensures
        contains_spec(joined(list, sep), list[k]),
    decreases list.len(),
{
    let all = joined(list, sep);
    law_contains(all, list[k]);
    if list.len() == 1 {
        assert(all.subrange(0, all.len() as int) =~= all);
    } else if k == list.len() - 1 {
        let a = all.len() - list[k].len();
        assert(all.subrange(a, a + list[k].len()) =~= list[k]);
    } else {
        let less = list.drop_last();
        law_joined_holds_each(less, sep, k);
        assert(less[k] == list[k]);
        let head = joined(less, sep);
        law_contains(head, list[k]);
        let i = choose|i: int|
            0 <= i && i + list[k].len() <= head.len() && #[trigger] head.subrange(
                i,
                i + list[k].len(),
            ) == list[k];
        assert(all.subrange(i, i + list[k].len()) =~= head.subrange(i, i + list[k].len()));
    }
}

} // verus!
