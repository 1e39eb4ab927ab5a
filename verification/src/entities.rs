//! DFDL character entities in property values.

use vstd::prelude::*;
use crate::numbers;
use crate::numbers::parse_u32;
use crate::text;
use crate::text::{append_chars, chars_of, contains, find_char, is, part, string_of, words};

verus! {

/// A code point that is a character.
pub open spec fn is_scalar(n: int) -> bool {
    0 <= n < 0xd800 || 0xe000 <= n <= 0x10ffff
}

/// `char::from_u32`: the character with this code, where the code is that of a
/// character.
#[verifier::external_body]
pub(crate) fn char_from_code(code: u32) -> (r: Option<char>)
    ensures
        match r {
            Some(c) => is_scalar(code as int) && c == (code as int) as char,
            None => !is_scalar(code as int),
        },
{
    char::from_u32(code)
}

/// The value of a hexadecimal digit.
pub open spec fn hex_digit(c: char) -> Option<nat> {
    if '0' <= c <= '9' {
        Some((c as nat - '0' as nat) as nat)
    } else if 'a' <= c <= 'f' {
        Some((c as nat - 'a' as nat + 10) as nat)
    } else if 'A' <= c <= 'F' {
        Some((c as nat - 'A' as nat + 10) as nat)
    } else {
        None
    }
}

/// The value of a hexadecimal digit.
pub fn hex_digit_value(c: char) -> (r: Option<u32>)
    ensures
        match r {
            Some(v) => hex_digit(c) == Some(v as nat) && v < 16,
            None => hex_digit(c) is None,
        },
{
    if '0' <= c && c <= '9' {
        Some(c as u32 - '0' as u32)
    } else if 'a' <= c && c <= 'f' {
        Some(c as u32 - 'a' as u32 + 10)
    } else if 'A' <= c && c <= 'F' {
        Some(c as u32 - 'A' as u32 + 10)
    } else {
        None
    }
}

/// The number that one to six hexadecimal digits spell.
pub open spec fn hex_number(s: Seq<char>) -> Option<nat>
    decreases s.len(),
{
    if s.len() == 0 {
        None
    } else if s.len() == 1 {
        hex_digit(s[0])
    } else {
        match (hex_number(s.drop_last()), hex_digit(s.last())) {
            (Some(a), Some(d)) => Some(16 * a + d),
            _ => None,
        }
    }
}

proof fn lemma_hex_none(s: Seq<char>, n: int)
    requires
        1 <= n <= s.len(),
        hex_number(s.take(n)) is None,
    ensures
        hex_number(s) is None,
    decreases s.len() - n,
{
    if n == s.len() {
        assert(s.take(n) == s);
    } else {
        assert(s.take(n + 1).drop_last() == s.take(n));
        lemma_hex_none(s, n + 1);
    }
}

/// The number that the hexadecimal digits spell, where there are at most six.
fn parse_hex(s: &[char]) -> (r: Option<u32>)
    ensures
        match r {
            Some(v) => s@.len() <= 6 && hex_number(s@) == Some(v as nat),
            None => s@.len() > 6 || hex_number(s@) is None,
        },
{
    let n: usize = s.len();
    if n == 0 || n > 6 {
        return None;
    }
    let mut v: u32 = match hex_digit_value(s[0]) {
        Some(d) => d,
        None => {
            proof {
                assert(s@.take(1)[0] == s@[0]);
                lemma_hex_none(s@, 1);
            }
            return None;
        },
    };
    let mut limit: u32 = 16;
    let mut i: usize = 1;
    assert(s@.take(1)[0] == s@[0]);
    while i < n
        invariant
            1 <= i <= n <= 6,
            n == s@.len(),
            hex_number(s@.take(i as int)) == Some(v as nat),
            v < limit,
            i == 1 ==> limit == 0x10,
            i == 2 ==> limit == 0x100,
            i == 3 ==> limit == 0x1000,
            i == 4 ==> limit == 0x1_0000,
            i == 5 ==> limit == 0x10_0000,
            i == 6 ==> limit == 0x100_0000,
        decreases n - i,
    {
        assert(s@.take(i + 1).drop_last() == s@.take(i as int));
        assert(s@.take(i + 1).last() == s@[i as int]);
        match hex_digit_value(s[i]) {
            Some(d) => {
                v = v * 16 + d;
                limit = limit * 16;
            },
            None => {
                proof {
                    lemma_hex_none(s@, i + 1);
                }
                return None;
            },
        }
        i += 1;
    }
    assert(s@.take(i as int) == s@);
    Some(v)
}

/// The code of a named character entity.
pub open spec fn named_code(name: Seq<char>) -> Option<int> {
    if name == "NUL"@ {
        Some(0x0)
    } else if name == "SOH"@ {
        Some(0x1)
    } else if name == "STX"@ {
        Some(0x2)
    } else if name == "ETX"@ {
        Some(0x3)
    } else if name == "EOT"@ {
        Some(0x4)
    } else if name == "ENQ"@ {
        Some(0x5)
    } else if name == "ACK"@ {
        Some(0x6)
    } else if name == "BEL"@ {
        Some(0x7)
    } else if name == "BS"@ {
        Some(0x8)
    } else if name == "HT"@ {
        Some(0x9)
    } else if name == "LF"@ {
        Some(0xa)
    } else if name == "VT"@ {
        Some(0xb)
    } else if name == "FF"@ {
        Some(0xc)
    } else if name == "CR"@ {
        Some(0xd)
    } else if name == "SO"@ {
        Some(0xe)
    } else if name == "SI"@ {
        Some(0xf)
    } else if name == "DLE"@ {
        Some(0x10)
    } else if name == "DC1"@ {
        Some(0x11)
    } else if name == "DC2"@ {
        Some(0x12)
    } else if name == "DC3"@ {
        Some(0x13)
    } else if name == "DC4"@ {
        Some(0x14)
    } else if name == "NAK"@ {
        Some(0x15)
    } else if name == "SYN"@ {
        Some(0x16)
    } else if name == "ETB"@ {
        Some(0x17)
    } else if name == "CAN"@ {
        Some(0x18)
    } else if name == "EM"@ {
        Some(0x19)
    } else if name == "SUB"@ {
        Some(0x1a)
    } else if name == "ESC"@ {
        Some(0x1b)
    } else if name == "FS"@ {
        Some(0x1c)
    } else if name == "GS"@ {
        Some(0x1d)
    } else if name == "RS"@ {
        Some(0x1e)
    } else if name == "US"@ {
        Some(0x1f)
    } else if name == "SP"@ {
        Some(0x20)
    } else if name == "DEL"@ {
        Some(0x7f)
    } else if name == "NEL"@ {
        Some(0x85)
    } else if name == "NBSP"@ {
        Some(0xa0)
    } else if name == "LS"@ {
        Some(0x2028)
    } else {
        None
    }
}

/// The code of a named character entity.
fn code_of_name(name: &[char]) -> (r: Option<u32>)
    ensures
        match r {
            Some(c) => named_code(name@) == Some(c as int),
            None => named_code(name@) is None,
        },
{
    if is(name, "NUL") {
        Some(0x0)
    } else if is(name, "SOH") {
        Some(0x1)
    } else if is(name, "STX") {
        Some(0x2)
    } else if is(name, "ETX") {
        Some(0x3)
    } else if is(name, "EOT") {
        Some(0x4)
    } else if is(name, "ENQ") {
        Some(0x5)
    } else if is(name, "ACK") {
        Some(0x6)
    } else if is(name, "BEL") {
        Some(0x7)
    } else if is(name, "BS") {
        Some(0x8)
    } else if is(name, "HT") {
        Some(0x9)
    } else if is(name, "LF") {
        Some(0xa)
    } else if is(name, "VT") {
        Some(0xb)
    } else if is(name, "FF") {
        Some(0xc)
    } else if is(name, "CR") {
        Some(0xd)
    } else if is(name, "SO") {
        Some(0xe)
    } else if is(name, "SI") {
        Some(0xf)
    } else if is(name, "DLE") {
        Some(0x10)
    } else if is(name, "DC1") {
        Some(0x11)
    } else if is(name, "DC2") {
        Some(0x12)
    } else if is(name, "DC3") {
        Some(0x13)
    } else if is(name, "DC4") {
        Some(0x14)
    } else if is(name, "NAK") {
        Some(0x15)
    } else if is(name, "SYN") {
        Some(0x16)
    } else if is(name, "ETB") {
        Some(0x17)
    } else if is(name, "CAN") {
        Some(0x18)
    } else if is(name, "EM") {
        Some(0x19)
    } else if is(name, "SUB") {
        Some(0x1a)
    } else if is(name, "ESC") {
        Some(0x1b)
    } else if is(name, "FS") {
        Some(0x1c)
    } else if is(name, "GS") {
        Some(0x1d)
    } else if is(name, "RS") {
        Some(0x1e)
    } else if is(name, "US") {
        Some(0x1f)
    } else if is(name, "SP") {
        Some(0x20)
    } else if is(name, "DEL") {
        Some(0x7f)
    } else if is(name, "NEL") {
        Some(0x85)
    } else if is(name, "NBSP") {
        Some(0xa0)
    } else if is(name, "LS") {
        Some(0x2028)
    } else {
        None
    }
}

/// The character that the text between `%` and `;` stands for: a name, `#`
/// with decimal digits, `#x` with hexadecimal digits, or `#r` with two of them
/// for a raw byte.
pub open spec fn entity_char(name: Seq<char>) -> Option<char> {
    let code: Option<int> = if name.len() > 0 && name[0] == '#' {
        if name.len() > 1 && name[1] == 'x' {
            if name.len() <= 8 && hex_number(name.skip(2)) is Some {
                Some(hex_number(name.skip(2))->0 as int)
            } else {
                None
            }
        } else if name.len() > 1 && name[1] == 'r' {
            if name.len() == 4 && hex_number(name.skip(2)) is Some {
                Some(hex_number(name.skip(2))->0 as int)
            } else {
                None
            }
        } else {
            match numbers::u32_spec(name.skip(1)) {
                Some(n) => Some(n as int),
                None => None,
            }
        }
    } else {
        named_code(name)
    };
    match code {
        Some(n) => if is_scalar(n) {
            Some(n as char)
        } else {
            None
        },
        None => None,
    }
}

/// The character that the text between `%` and `;` stands for.
fn entity_value(name: &[char]) -> (r: Option<char>)
    ensures
        r == entity_char(name@),
{
    let n: usize = name.len();
    let code: Option<u32> = if n > 0 && name[0] == '#' {
        if n > 1 && name[1] == 'x' {
            assert(name@.subrange(2, n as int) == name@.skip(2));
            parse_hex(part(name, 2, n))
        } else if n > 1 && name[1] == 'r' {
            assert(name@.subrange(2, n as int) == name@.skip(2));
            if n == 4 {
                parse_hex(part(name, 2, n))
            } else {
                None
            }
        } else {
            assert(name@.subrange(1, n as int) == name@.skip(1));
            parse_u32(part(name, 1, n))
        }
    } else {
        code_of_name(name)
    };
    match code {
        Some(c) => char_from_code(c),
        None => None,
    }
}

/// `s` with `%%` read as `%` and character entities replaced by the characters
/// that they stand for, from position `at` on; what is no character entity
/// stays as it is written.
pub open spec fn expand_from(s: Seq<char>, at: int) -> Seq<char>
    decreases s.len() - at,
{
    if at < 0 || at >= s.len() {
        Seq::empty()
    } else if s[at] != '%' {
        seq![s[at]] + expand_from(s, at + 1)
    } else if at + 1 < s.len() && s[at + 1] == '%' {
        seq!['%'] + expand_from(s, at + 2)
    } else {
        match entity_at(s, at) {
            Some((c, next)) => if at < next <= s.len() {
                seq![c] + expand_from(s, next)
            } else {
                Seq::empty()
            },
            None => seq!['%'] + expand_from(s, at + 1),
        }
    }
}

/// The character entity that starts with the `%` at `at`, and the position
/// behind its `;`.
pub open spec fn entity_at(s: Seq<char>, at: int) -> Option<(char, int)> {
    match text::char_pos(s.skip(at + 1), ';') {
        Some(k) => match entity_char(s.subrange(at + 1, at + 1 + k)) {
            Some(c) => Some((c, at + 2 + k)),
            None => None,
        },
        None => None,
    }
}

/// `s` with its character entities replaced by the characters they stand for.
pub open spec fn expanded(s: Seq<char>) -> Seq<char> {
    expand_from(s, 0)
}

/// Replaces the character entities by the characters they stand for.
pub fn expand_entities_chars(s: &[char]) -> (r: Vec<char>)
    ensures
        r@ == expanded(s@),
{
    let n: usize = s.len();
    let mut out: Vec<char> = Vec::new();
    let mut i: usize = 0;
    assert(out@ + expanded(s@) =~= expanded(s@));
    while i < n
        invariant
            i <= n,
            n == s@.len(),
            out@ + expand_from(s@, i as int) == expanded(s@),
        decreases n - i,
    {
        let ghost before = out@;
        let mut c: char = s[i];
        let mut next: usize = i + 1;
        if c == '%' {
            if i + 1 < n && s[i + 1] == '%' {
                next = i + 2;
            } else {
                assert(s@.subrange(i + 1, n as int) == s@.skip(i + 1));
                let tail = part(s, i + 1, n);
                match find_char(tail, ';') {
                    Some(k) => {
                        assert(tail@.subrange(0, k as int) == s@.subrange(i + 1, i + 1 + k));
                        match entity_value(part(tail, 0, k)) {
                            Some(e) => {
                                c = e;
                                next = i + 2 + k;
                            },
                            None => {},
                        }
                    },
                    None => {},
                }
            }
        }
        assert(expand_from(s@, i as int) == seq![c] + expand_from(s@, next as int));
        out.push(c);
        proof {
            let rest = expand_from(s@, next as int);
            assert(before + (seq![c] + rest) =~= before.push(c) + rest);
        }
        i = next;
    }
    assert(out@ + Seq::<char>::empty() =~= out@);
    out
}

/// Replaces the character entities of a property value by the characters they
/// stand for.
pub fn expand_entities_str(s: &str) -> (r: String)
    ensures
        r@ == expanded(s@),
{
    let v = chars_of(s);
    let e = expand_entities_chars(v.as_slice());
    string_of(e.as_slice())
}

/// The expanded value as bytes, in UTF-8.
pub fn expand_entities(s: &str) -> (r: Vec<u8>)
    ensures
        r@ == vstd::utf8::encode_utf8(expanded(s@)),
{
    let e = expand_entities_str(s);
    e.as_str().as_bytes_vec()
}

/// The pieces of a white-space separated property value, entities expanded.
pub open spec fn expanded_words(s: Seq<char>) -> Seq<Seq<char>> {
    text::words_spec(s).map_values(|w: Seq<char>| expanded(w))
}

/// Reads the white-space separated value of `extraEscapedCharacters`.
pub fn extra_escaped_characters_from_property(s: &str) -> (r: Vec<String>)
    ensures
        r.deep_view() == expanded_words(s@),
{
    let v = chars_of(s);
    let ws = words(v.as_slice());
    let mut out: Vec<String> = Vec::new();
    let mut i: usize = 0;
    while i < ws.len()
        invariant
            i <= ws@.len(),
            text::view_all(ws@) == text::words_spec(s@),
            out@.len() == i,
            forall|k: int| 0 <= k < i ==> (#[trigger] out@[k])@ == expanded(ws@[k]@),
        decreases ws@.len() - i,
    {
        let e = expand_entities_chars(ws[i]);
        out.push(string_of(e.as_slice()));
        i += 1;
    }
    assert(out.deep_view() =~= expanded_words(s@));
    out
}

/// The literal of a delimiter property: its text with entities expanded.
pub open spec fn delimiter_literal(s: Seq<char>) -> Seq<char> {
    expanded(s)
}

/// The literal of a delimiter property.
pub fn parse_delimiter_literal_value(raw: &str) -> (r: String)
    ensures
        r@ == delimiter_literal(raw@),
{
    expand_entities_str(raw)
}

proof fn lemma_expand_behind(a: Seq<char>, b: Seq<char>, at: int)
    requires
        0 <= at <= b.len(),
    ensures
        expand_from(a + b, a.len() + at) == expand_from(b, at),
    decreases b.len() - at,
{
    let s = a + b;
    if at < b.len() {
        assert(s[a.len() + at] == b[at]);
        lemma_expand_behind(a, b, at + 1);
        if b[at] == '%' && at + 1 < b.len() {
            assert(s[a.len() + at + 1] == b[at + 1]);
            lemma_expand_behind(a, b, at + 2);
        }
        assert(s.skip(a.len() + at + 1) =~= b.skip(at + 1));
        text::lemma_char_pos(b.skip(at + 1), ';');
        if let Some(k) = text::char_pos(b.skip(at + 1), ';') {
            assert(s.subrange(a.len() + at + 1, a.len() + at + 1 + k) =~= b.subrange(
                at + 1,
                at + 1 + k,
            ));
            if at + 2 + k <= b.len() {
                lemma_expand_behind(a, b, at + 2 + k);
            }
        }
    }
}

/// Text without a percent sign stays as it is, whatever follows it.
pub proof fn law_plain_text_kept(a: Seq<char>, b: Seq<char>)
    requires
        !a.contains('%'),
    ensures
        expanded(a + b) == a + expanded(b),
        expanded(a) == a,
    decreases a.len(),
{
    if a.len() == 0 {
        assert(a + b =~= b);
        assert(a + expanded(b) =~= expanded(b));
        assert(expanded(a) =~= a);
    } else {
        let rest = a.skip(1);
        assert(a[0] != '%');
        assert forall|i: int| 0 <= i < rest.len() implies rest[i] != '%' by {
            assert(rest[i] == a[i + 1]);
        }
        law_plain_text_kept(rest, b);
        let first = seq![a[0]];
        assert(a =~= first + rest);
        assert(a + b =~= first + (rest + b));
        lemma_expand_behind(first, rest + b, 0);
        lemma_expand_behind(first, rest, 0);
        assert((first + (rest + b))[0] == a[0]);
        assert(first + (rest + expanded(b)) =~= a + expanded(b));
        assert(expanded(a) == first + expanded(rest));
    }
}

/// A character entity is replaced by the character that it stands for, and two percent
/// signs by one; what follows is read on its own.
pub proof fn law_entity_replaced(name: Seq<char>, c: char, b: Seq<char>)
    ensures
        expanded(seq!['%', '%'] + b) == seq!['%'] + expanded(b),
        !name.contains(';') && entity_char(name) == Some(c) && !(name.len() > 0 && name[0] == '%')
            && name.len() > 0 ==> expanded(seq!['%'] + name + seq![';'] + b) == seq![c] + expanded(
            b,
        ),
{
    let two = seq!['%', '%'];
    lemma_expand_behind(two, b, 0);
    assert((two + b)[0] == '%' && (two + b)[1] == '%');
    if !name.contains(';') && entity_char(name) == Some(c) && name.len() > 0 && name[0] != '%' {
        let head = seq!['%'] + name + seq![';'];
        let s = head + b;
        lemma_expand_behind(head, b, 0);
        assert(s[0] == '%');
        assert(s[1] == name[0]);
        let tail = s.skip(1);
        let k = name.len() as int;
        assert(tail[k] == ';');
        text::lemma_char_pos(tail, ';');
        assert forall|i: int| 0 <= i < k implies tail[i] != ';' by {
            assert(tail[i] == name[i]);
            assert(name.contains(name[i]));
        }
        assert(text::char_pos(tail, ';') == Some(k));
        assert(s.subrange(1, 1 + k) =~= name);
        assert(entity_at(s, 0) == Some((c, 2 + k)));
    }
}

} // verus!
