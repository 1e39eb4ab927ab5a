//! Character encodings: text to bytes for documents, and bytes to text for schemas.

use vstd::prelude::*;
use crate::entities;
use crate::entities::char_from_code;
use crate::error::cat3;
use crate::text;
use crate::text::{append_chars, chars_of, contains, find, is, lower, part, replace, string_of};

verus! {

broadcast use vstd::string::group_string_axioms;

/// A character encoding of document text.
#[derive(Debug, Clone, Copy, PartialEq, Eq, Structural)]
pub enum Charset {
    Utf8,
    Ascii,
    Latin1,
    Utf16Be,
    Utf16Le,
    Utf32Be,
    Utf32Le,
    /// Seven bits for each character, the least significant bit first.
    Packed7,
}

/// The encoding of a name, in capitals or not.
pub open spec fn charset_named(name: Seq<char>) -> Option<Charset> {
    let n = text::lower_spec(name);
    if n == "utf-8"@ {
        Some(Charset::Utf8)
    } else if n == "ascii"@ || n == "us-ascii"@ {
        Some(Charset::Ascii)
    } else if n == "iso-8859-1"@ {
        Some(Charset::Latin1)
    } else if n == "utf-16"@ || n == "utf-16be"@ {
        Some(Charset::Utf16Be)
    } else if n == "utf-16le"@ {
        Some(Charset::Utf16Le)
    } else if n == "utf-32"@ || n == "utf-32be"@ {
        Some(Charset::Utf32Be)
    } else if n == "utf-32le"@ {
        Some(Charset::Utf32Le)
    } else if n == "x-dfdl-us-ascii-7-bit-packed"@ {
        Some(Charset::Packed7)
    } else {
        None
    }
}

/// The encoding of a name, in capitals or not.
pub fn charset_by_name(name: &str) -> (r: Option<Charset>)
    ensures
        r == charset_named(name@),
{
    let c = chars_of(name);
    let low = lower(c.as_slice());
    let n = low.as_slice();
    if is(n, "utf-8") {
        Some(Charset::Utf8)
    } else if is(n, "ascii") || is(n, "us-ascii") {
        Some(Charset::Ascii)
    } else if is(n, "iso-8859-1") {
        Some(Charset::Latin1)
    } else if is(n, "utf-16") || is(n, "utf-16be") {
        Some(Charset::Utf16Be)
    } else if is(n, "utf-16le") {
        Some(Charset::Utf16Le)
    } else if is(n, "utf-32") || is(n, "utf-32be") {
        Some(Charset::Utf32Be)
    } else if is(n, "utf-32le") {
        Some(Charset::Utf32Le)
    } else if is(n, "x-dfdl-us-ascii-7-bit-packed") {
        Some(Charset::Packed7)
    } else {
        None
    }
}

/// The number of bits of a character in an encoding whose characters are not
/// whole bytes.
pub open spec fn charset_width(name: Seq<char>) -> Option<nat> {
    if charset_named(name) == Some(Charset::Packed7) {
        Some(7)
    } else {
        None
    }
}

/// The number of bits of a character in an encoding whose characters are not
/// whole bytes.
pub fn bits_charset_width(name: &str) -> (r: Option<usize>)
    ensures
        match r {
            Some(w) => charset_width(name@) == Some(w as nat),
            None => charset_width(name@) is None,
        },
{
    match charset_by_name(name) {
        Some(Charset::Packed7) => Some(7),
        _ => None,
    }
}

/// The UTF-16 units of a character.
pub open spec fn char_units(c: char) -> Seq<int> {
    let u = c as int;
    if u < 0x10000 {
        seq![u]
    } else {
        seq![0xd800 + (u - 0x10000) / 0x400, 0xdc00 + (u - 0x10000) % 0x400]
    }
}

/// The bytes of a character in an encoding that has whole bytes for it.
pub open spec fn char_bytes(set: Charset, c: char) -> Option<Seq<u8>> {
    let u = c as int;
    match set {
        Charset::Ascii | Charset::Packed7 => if u < 128 {
            Some(seq![u as u8])
        } else {
            None
        },
        Charset::Latin1 => if u < 256 {
            Some(seq![u as u8])
        } else {
            None
        },
        Charset::Utf16Be => {
            let units = char_units(c);
            if units.len() == 1 {
                Some(seq![(units[0] / 256) as u8, (units[0] % 256) as u8])
            } else {
                Some(
                    seq![
                        (units[0] / 256) as u8,
                        (units[0] % 256) as u8,
                        (units[1] / 256) as u8,
                        (units[1] % 256) as u8,
                    ],
                )
            }
        },
        Charset::Utf16Le => {
            let units = char_units(c);
            if units.len() == 1 {
                Some(seq![(units[0] % 256) as u8, (units[0] / 256) as u8])
            } else {
                Some(
                    seq![
                        (units[0] % 256) as u8,
                        (units[0] / 256) as u8,
                        (units[1] % 256) as u8,
                        (units[1] / 256) as u8,
                    ],
                )
            }
        },
        Charset::Utf32Be => Some(
            seq![0u8, (u / 65536) as u8, (u / 256 % 256) as u8, (u % 256) as u8],
        ),
        Charset::Utf32Le => Some(
            seq![(u % 256) as u8, (u / 256 % 256) as u8, (u / 65536) as u8, 0u8],
        ),
        Charset::Utf8 => Some(vstd::utf8::encode_scalar(c as u32)),
    }
}

/// The bytes of a text, each character on its own.
pub open spec fn text_bytes(set: Charset, s: Seq<char>) -> Option<Seq<u8>>
    decreases s.len(),
{
    if s.len() == 0 {
        Some(Seq::empty())
    } else {
        match (text_bytes(set, s.drop_last()), char_bytes(set, s.last())) {
            (Some(front), Some(b)) => Some(front + b),
            _ => None,
        }
    }
}

/// Bit `j` of a row of seven-bit values, counted from the least significant of
/// the first.
#[verifier::opaque]
pub open spec fn packed_bit(values: Seq<u8>, j: int) -> int {
    if 0 <= j < 7 * values.len() {
        let v = values[j / 7] as int;
        let k = j % 7;
        if k == 0 {
            v % 2
        } else if k == 1 {
            v / 2 % 2
        } else if k == 2 {
            v / 4 % 2
        } else if k == 3 {
            v / 8 % 2
        } else if k == 4 {
            v / 16 % 2
        } else if k == 5 {
            v / 32 % 2
        } else {
            v / 64 % 2
        }
    } else {
        0
    }
}

/// The byte that eight bits of such a row make, the first the least significant.
pub open spec fn packed_byte(values: Seq<u8>, k: int) -> int {
    packed_bit(values, 8 * k) + 2 * packed_bit(values, 8 * k + 1) + 4 * packed_bit(
        values,
        8 * k + 2,
    ) + 8 * packed_bit(values, 8 * k + 3) + 16 * packed_bit(values, 8 * k + 4) + 32 * packed_bit(
        values,
        8 * k + 5,
    ) + 64 * packed_bit(values, 8 * k + 6) + 128 * packed_bit(values, 8 * k + 7)
}

/// Seven-bit values one behind the other, the least significant bit first.
pub open spec fn pack_seven(values: Seq<u8>) -> Seq<u8> {
    Seq::new((7 * values.len() + 7) / 8, |k: int| packed_byte(values, k) as u8)
}

/// The bytes of a document's text in an encoding.
pub open spec fn document_bytes(s: Seq<char>, name: Seq<char>) -> Result<Seq<u8>, Seq<char>> {
    match charset_named(name) {
        None => Err("unsupported encoding `"@ + name + "`"@),
        Some(Charset::Utf8) => Ok(vstd::utf8::encode_utf8(s)),
        Some(set) => match text_bytes(set, s) {
            None => Err("text has no form in encoding `"@ + name + "`"@),
            Some(b) => Ok(
                if set == Charset::Packed7 {
                    pack_seven(b)
                } else {
                    b
                },
            ),
        },
    }
}

fn push_unit(out: &mut Vec<u8>, unit: u32, big: bool)
    requires
        unit < 0x10000,
    ensures
        final(out)@ == old(out)@ + (if big {
            seq![(unit as int / 256) as u8, (unit as int % 256) as u8]
        } else {
            seq![(unit as int % 256) as u8, (unit as int / 256) as u8]
        }),
{
    let hi: u8 = (unit / 256) as u8;
    let lo: u8 = (unit % 256) as u8;
    let ghost before = out@;
    if big {
        out.push(hi);
        out.push(lo);
        assert(out@ =~= before + seq![hi, lo]);
    } else {
        out.push(lo);
        out.push(hi);
        assert(out@ =~= before + seq![lo, hi]);
    }
}

fn push_char(out: &mut Vec<u8>, set: Charset, c: char) -> (r: bool)
    requires
        set != Charset::Utf8,
    ensures
        match char_bytes(set, c) {
            Some(b) => r && final(out)@ == old(out)@ + b,
            None => !r,
        },
{
    let u: u32 = c as u32;
    let ghost before = out@;
    match set {
        Charset::Ascii | Charset::Packed7 => {
            if u < 128 {
                out.push(u as u8);
                assert(out@ =~= before + seq![u as u8]);
                true
            } else {
                false
            }
        },
        Charset::Latin1 => {
            if u < 256 {
                out.push(u as u8);
                assert(out@ =~= before + seq![u as u8]);
                true
            } else {
                false
            }
        },
        Charset::Utf16Be | Charset::Utf16Le => {
            let big = match set {
                Charset::Utf16Be => true,
                _ => false,
            };
            if u < 0x10000 {
                push_unit(out, u, big);
            } else {
                push_unit(out, 0xd800 + (u - 0x10000) / 0x400, big);
                push_unit(out, 0xdc00 + (u - 0x10000) % 0x400, big);
            }
            assert(out@ =~= before + char_bytes(set, c)->Some_0);
            true
        },
        Charset::Utf32Be => {
            out.push(0);
            out.push((u / 65536) as u8);
            out.push((u / 256 % 256) as u8);
            out.push((u % 256) as u8);
            assert(out@ =~= before + char_bytes(set, c)->Some_0);
            true
        },
        _ => {
            out.push((u % 256) as u8);
            out.push((u / 256 % 256) as u8);
            out.push((u / 65536) as u8);
            out.push(0);
            assert(out@ =~= before + char_bytes(set, c)->Some_0);
            true
        },
    }
}

proof fn lemma_no_bytes(set: Charset, s: Seq<char>, i: int)
    requires
        0 <= i <= s.len(),
        text_bytes(set, s.take(i)) is None,
    ensures
        text_bytes(set, s) is None,
    decreases s.len() - i,
{
    if i == s.len() {
        assert(s.take(i) =~= s);
    } else {
        assert(s.take(i + 1).drop_last() =~= s.take(i));
        lemma_no_bytes(set, s, i + 1);
    }
}

fn encode_chars(set: Charset, s: &str) -> (r: Option<Vec<u8>>)
    requires
        set != Charset::Utf8,
    ensures
        match r {
            Some(b) => text_bytes(set, s@) == Some(b@),
            None => text_bytes(set, s@) is None,
        },
{
    let c = chars_of(s);
    let mut out: Vec<u8> = Vec::new();
    let mut i: usize = 0;
    assert(c@.take(0) =~= Seq::<char>::empty());
    while i < c.len()
        invariant
            i <= c@.len(),
            c@ == s@,
            set != Charset::Utf8,
            text_bytes(set, c@.take(i as int)) == Some(out@),
        decreases c@.len() - i,
    {
        assert(c@.take(i + 1).drop_last() =~= c@.take(i as int));
        let ok = push_char(&mut out, set, c[i]);
        if !ok {
            proof {
                lemma_no_bytes(set, c@, i + 1);
            }
            return None;
        }
        i += 1;
    }
    assert(c@.take(c@.len() as int) =~= c@);
    Some(out)
}

fn packed_bit_of(values: &Vec<u8>, group: usize, off: usize) -> (r: u8)
    requires
        off < 8,
        8 * group < 7 * values@.len(),
    ensures
        r == packed_bit(values@, 8 * group + off),
        r <= 1,
{
    reveal(packed_bit);
    // The value that holds the bit is found without leaving the range of indexes.
    let n: usize = values.len();
    let whole: usize = group / 7;
    assert(7 * whole <= group);
    let j: usize = 8 * (group % 7) + off;
    let k: usize = j % 7;
    let ghost at = 8 * whole + j / 7;
    assert(8 * group + off == 7 * at + k);
    assert((8 * group + off) / 7 == at);
    assert((8 * group + off) % 7 == k);
    if j / 7 >= n - whole * 8 {
        return 0;
    }
    let v: u8 = values[whole * 8 + j / 7];
    if k == 0 {
        v % 2
    } else if k == 1 {
        v / 2 % 2
    } else if k == 2 {
        v / 4 % 2
    } else if k == 3 {
        v / 8 % 2
    } else if k == 4 {
        v / 16 % 2
    } else if k == 5 {
        v / 32 % 2
    } else {
        v / 64 % 2
    }
}

fn packed_byte_of(values: &Vec<u8>, k: usize) -> (r: u8)
    requires
        8 * k < 7 * values@.len(),
    ensures
        r == packed_byte(values@, k as int),
{
    packed_bit_of(values, k, 0) + 2 * packed_bit_of(values, k, 1) + 4 * packed_bit_of(values, k, 2)
        + 8 * packed_bit_of(values, k, 3) + 16 * packed_bit_of(values, k, 4) + 32 * packed_bit_of(
        values,
        k,
        5,
    ) + 64 * packed_bit_of(values, k, 6) + 128 * packed_bit_of(values, k, 7)
}

fn pack_values(values: &Vec<u8>) -> (r: Vec<u8>)
    ensures
        r@ == pack_seven(values@),
{
    let n: usize = values.len();
    let rest: usize = n % 8;
    // Eight values fill seven bytes; `rest` values begin `rest` more.
    let count: usize = n / 8 * 7 + rest;
    assert(count == (7 * n + 7) / 8);
    let mut out: Vec<u8> = Vec::new();
    let mut k: usize = 0;
    while k < count
        invariant
            n == values@.len(),
            count == (7 * n + 7) / 8,
            k <= count,
            out@ =~= pack_seven(values@).take(k as int),
        decreases count - k,
    {
        let byte: u8 = packed_byte_of(values, k);
        out.push(byte);
        k += 1;
    }
    assert(pack_seven(values@).take(count as int) =~= pack_seven(values@));
    out
}

/// The outcome of encoding.
pub open spec fn bytes_outcome(r: Result<Vec<u8>, String>) -> Result<Seq<u8>, Seq<char>> {
    match r {
        Ok(b) => Ok(b@),
        Err(e) => Err(e@),
    }
}

/// The bytes of a document's text in an encoding.
pub fn encode_document_text(s: &str, name: &str) -> (r: Result<Vec<u8>, String>)
    ensures
        bytes_outcome(r) == document_bytes(s@, name@),
{
    match charset_by_name(name) {
        None => Err(cat3("unsupported encoding `", name, "`")),
        Some(Charset::Utf8) => Ok(s.as_bytes_vec()),
        Some(set) => match encode_chars(set, s) {
            None => Err(cat3("text has no form in encoding `", name, "`")),
            Some(b) => match set {
                Charset::Packed7 => Ok(pack_values(&b)),
                _ => Ok(b),
            },
        },
    }
}

// Bytes to text.
/// The reason `String::from_utf8` gives for refusing bytes.
pub uninterp spec fn utf8_complaint(bytes: Seq<u8>) -> Seq<char>;

/// `String::from_utf8`: the text of bytes that are UTF-8, and otherwise the text
/// of its error.
#[verifier::external_body]
pub(crate) fn text_from_utf8(bytes: &[u8]) -> (r: Result<String, String>)
    ensures
        match r {
            Ok(s) => vstd::utf8::valid_utf8(bytes@) && s@ == vstd::utf8::decode_utf8(bytes@),
            Err(e) => !vstd::utf8::valid_utf8(bytes@) && e@ == utf8_complaint(bytes@),
        },
{
    String::from_utf8(bytes.to_vec()).map_err(|e| e.to_string())
}

/// The text of bytes in UTF-8.
pub open spec fn utf8_text(bytes: Seq<u8>, before: Seq<char>) -> Result<Seq<char>, Seq<char>> {
    if vstd::utf8::valid_utf8(bytes) {
        Ok(vstd::utf8::decode_utf8(bytes))
    } else {
        Err(before + utf8_complaint(bytes))
    }
}

/// The outcome of decoding.
pub open spec fn text_outcome(r: Result<String, String>) -> Result<Seq<char>, Seq<char>> {
    match r {
        Ok(s) => Ok(s@),
        Err(e) => Err(e@),
    }
}

fn decode_utf8(bytes: &[u8], before: &str) -> (r: Result<String, String>)
    ensures
        text_outcome(r) == utf8_text(bytes@, before@),
{
    match text_from_utf8(bytes) {
        Ok(s) => Ok(s),
        Err(e) => Err(crate::error::cat2(before, e.as_str())),
    }
}

/// The characters of UTF-16 units.
pub open spec fn unit_chars(units: Seq<int>) -> Option<Seq<char>>
    decreases units.len(),
{
    if units.len() == 0 {
        Some(Seq::empty())
    } else {
        let u = units[0];
        if !(0xd800 <= u <= 0xdfff) {
            match unit_chars(units.skip(1)) {
                Some(rest) => Some(seq![u as char] + rest),
                None => None,
            }
        } else if u <= 0xdbff && units.len() > 1 && 0xdc00 <= units[1] <= 0xdfff {
            match unit_chars(units.skip(2)) {
                Some(rest) => Some(
                    seq![(0x10000 + (u - 0xd800) * 0x400 + (units[1] - 0xdc00)) as char] + rest,
                ),
                None => None,
            }
        } else {
            None
        }
    }
}

/// The units that pairs of bytes make.
pub open spec fn byte_units(bytes: Seq<u8>, big: bool) -> Seq<int> {
    Seq::new(
        bytes.len() / 2,
        |i: int|
            if big {
                bytes[2 * i] * 256 + bytes[2 * i + 1]
            } else {
                bytes[2 * i + 1] * 256 + bytes[2 * i]
            },
    )
}

/// The text of bytes in UTF-16.
pub open spec fn utf16_text(bytes: Seq<u8>, big: bool) -> Result<Seq<char>, Seq<char>> {
    if bytes.len() % 2 != 0 {
        Err(
            if big {
                "UTF-16BE schema has odd byte length"@
            } else {
                "UTF-16LE schema has odd byte length"@
            },
        )
    } else {
        match unit_chars(byte_units(bytes, big)) {
            Some(s) => Ok(s),
            None => Err(
                if big {
                    "invalid UTF-16BE schema: invalid utf-16: lone surrogate found"@
                } else {
                    "invalid UTF-16LE schema: invalid utf-16: lone surrogate found"@
                },
            ),
        }
    }
}

fn unit_at(bytes: &[u8], i: usize, big: bool) -> (r: u32)
    requires
        bytes@.len() % 2 == 0,
        i < bytes@.len() / 2,
    ensures
        r == byte_units(bytes@, big)[i as int],
        r < 0x10000,
{
    let n: usize = bytes.len();
    assert(2 * i + 1 < n);
    let a = bytes[2 * i] as u32;
    let b = bytes[2 * i + 1] as u32;
    if big {
        a * 256 + b
    } else {
        b * 256 + a
    }
}

fn decode_utf16(bytes: &[u8], big: bool) -> (r: Result<String, String>)
    ensures
        text_outcome(r) == utf16_text(bytes@, big),
{
    if bytes.len() % 2 != 0 {
        return Err(
            crate::values::owned(
                if big {
                    "UTF-16BE schema has odd byte length"
                } else {
                    "UTF-16LE schema has odd byte length"
                },
            ),
        );
    }
    let n: usize = bytes.len() / 2;
    let ghost units = byte_units(bytes@, big);
    let mut out: Vec<char> = Vec::new();
    let mut i: usize = 0;
    assert(units.skip(0) =~= units);
    proof {
        match unit_chars(units) {
            Some(t) => {
                assert(out@ + t =~= t);
            },
            None => {},
        }
    }
    while i < n
        invariant
            bytes@.len() % 2 == 0,
            n == bytes@.len() / 2,
            i <= n,
            units == byte_units(bytes@, big),
            match unit_chars(units.skip(i as int)) {
                Some(t) => unit_chars(units) == Some(out@ + t),
                None => unit_chars(units) is None,
            },
        decreases n - i,
    {
        let u = unit_at(bytes, i, big);
        let ghost rest = units.skip(i as int);
        assert(rest[0] == u);
        assert(rest.skip(1) =~= units.skip(i + 1));
        let ghost before = out@;
        let mut code: u32 = 0x110000;
        let mut step: usize = 1;
        if u < 0xd800 || u > 0xdfff {
            code = u;
        } else if u <= 0xdbff && n - i > 1 {
            let v = unit_at(bytes, i + 1, big);
            assert(rest[1] == v);
            assert(rest.skip(2) =~= units.skip(i + 2));
            if 0xdc00 <= v && v <= 0xdfff {
                code = 0x10000 + (u - 0xd800) * 0x400 + (v - 0xdc00);
                step = 2;
            }
        }
        match char_from_code(code) {
            Some(c) => {
                out.push(c);
                proof {
                    match unit_chars(units.skip(i + step)) {
                        Some(t) => {
                            assert(before + (seq![c] + t) =~= before.push(c) + t);
                        },
                        None => {},
                    }
                }
            },
            None => {
                return Err(
                    crate::values::owned(
                        if big {
                            "invalid UTF-16BE schema: invalid utf-16: lone surrogate found"
                        } else {
                            "invalid UTF-16LE schema: invalid utf-16: lone surrogate found"
                        },
                    ),
                );
            },
        }
        i += step;
    }
    assert(units.skip(n as int).len() == 0);
    assert(out@ + Seq::<char>::empty() =~= out@);
    Ok(string_of(out.as_slice()))
}

/// Text that was encoded in UTF-16, its bytes in either order, is read back.
pub proof fn law_utf16_round_trip(s: Seq<char>, big: bool)
    ensures
        text_bytes(
            if big {
                Charset::Utf16Be
            } else {
                Charset::Utf16Le
            },
            s,
        ) matches Some(b) && utf16_text(b, big) == Ok::<Seq<char>, Seq<char>>(s),
    decreases s.len(),
{
    let set = if big {
        Charset::Utf16Be
    } else {
        Charset::Utf16Le
    };
    if s.len() > 0 {
        law_utf16_round_trip(s.drop_last(), big);
        let front = text_bytes(set, s.drop_last())->Some_0;
        let c = s.last();
        let b = char_bytes(set, c)->Some_0;
        let units = byte_units(front, big);
        lemma_units_of(front, c, big);
        lemma_units_push(units, s.drop_last(), c);
        assert(s.drop_last().push(c) =~= s);
    } else {
        assert(byte_units(Seq::<u8>::empty(), big).len() == 0);
        assert(s =~= Seq::<char>::empty());
    }
}

proof fn lemma_units_of(front: Seq<u8>, c: char, big: bool)
    requires
        front.len() % 2 == 0,
    ensures
        ({
            let b = char_bytes(
                if big {
                    Charset::Utf16Be
                } else {
                    Charset::Utf16Le
                },
                c,
            )->Some_0;
            &&& b.len() % 2 == 0
            &&& byte_units(front + b, big) == byte_units(front, big) + char_units(c)
        }),
{
    let b = char_bytes(
        if big {
            Charset::Utf16Be
        } else {
            Charset::Utf16Le
        },
        c,
    )->Some_0;
    let n = (front.len() / 2) as int;
    let all = byte_units(front + b, big);
    let want = byte_units(front, big) + char_units(c);
    assert(front.len() == 2 * n);
    assert(all.len() == want.len());
    assert forall|i: int| 0 <= i < all.len() implies all[i] == want[i] by {
        if i < n {
            assert((front + b)[2 * i] == front[2 * i]);
            assert((front + b)[2 * i + 1] == front[2 * i + 1]);
        } else {
            let k = i - n;
            assert((front + b)[2 * i] == b[2 * k]);
            assert((front + b)[2 * i + 1] == b[2 * k + 1]);
            assert(k == 0 || k == 1);
        }
    }
    assert(all =~= want);
}

proof fn lemma_units_push(units: Seq<int>, s: Seq<char>, c: char)
    requires
        unit_chars(units) == Some(s),
    ensures
        unit_chars(units + char_units(c)) == Some(s.push(c)),
    decreases units.len(),
{
    let more = units + char_units(c);
    if units.len() == 0 {
        assert(more =~= char_units(c));
        if c as int >= 0x10000 {
            assert(more.skip(2).len() == 0);
            assert(unit_chars(more.skip(2)) == Some(Seq::<char>::empty()));
            let v = c as int - 0x10000;
            assert(0x10000 + (more[0] - 0xd800) * 0x400 + (more[1] - 0xdc00) == c as int);
        } else {
            assert(more.skip(1).len() == 0);
            assert(unit_chars(more.skip(1)) == Some(Seq::<char>::empty()));
        }
        assert(unit_chars(more)->Some_0 =~= s.push(c));
    } else {
        let step: int = if !(0xd800 <= units[0] <= 0xdfff) {
            1
        } else {
            2
        };
        let rest = unit_chars(units.skip(step))->Some_0;
        lemma_units_push(units.skip(step), rest, c);
        assert(more.skip(step) =~= units.skip(step) + char_units(c));
        assert(unit_chars(more)->Some_0 =~= s.push(c));
    }
}

/// Bytes as characters of the same number.
pub open spec fn byte_chars(bytes: Seq<u8>) -> Seq<char> {
    Seq::new(bytes.len(), |i: int| bytes[i] as char)
}

/// Whether the declaration at the head of a schema, its first 512 bytes, gives
/// this encoding, in capitals or not.
pub open spec fn declares(bytes: Seq<u8>, double: Seq<char>, single: Seq<char>) -> bool {
    let head = text::lower_spec(
        byte_chars(
            if bytes.len() <= 512 {
                bytes
            } else {
                bytes.take(512)
            },
        ),
    );
    text::contains_spec(head, double) || text::contains_spec(head, single)
}

/// The text of a schema's bytes: by a byte order mark, by the form of the first
/// character, by its declaration, and otherwise in UTF-8.
pub open spec fn schema_text(bytes: Seq<u8>) -> Result<Seq<char>, Seq<char>> {
    let n = bytes.len();
    if n >= 3 && bytes[0] == 0xef && bytes[1] == 0xbb && bytes[2] == 0xbf {
        utf8_text(bytes.skip(3), "invalid UTF-8 after BOM: "@)
    } else if n >= 2 && bytes[0] == 0xfe && bytes[1] == 0xff {
        utf16_text(bytes.skip(2), true)
    } else if n >= 2 && bytes[0] == 0xff && bytes[1] == 0xfe {
        utf16_text(bytes.skip(2), false)
    } else if n >= 2 && bytes[0] == 0 && bytes[1] == 0x3c {
        utf16_text(bytes, true)
    } else if n >= 2 && bytes[0] == 0x3c && bytes[1] == 0 {
        utf16_text(bytes, false)
    } else if declares(bytes, "encoding=\"utf-16be\""@, "encoding='utf-16be'"@) {
        utf16_text(bytes, true)
    } else if declares(bytes, "encoding=\"utf-16le\""@, "encoding='utf-16le'"@) {
        utf16_text(bytes, false)
    } else {
        utf8_text(bytes, "invalid UTF-8 schema: "@)
    }
}

fn declared(head: &[char], double: &str, single: &str) -> (r: bool)
    ensures
        r == (text::contains_spec(head@, double@) || text::contains_spec(head@, single@)),
{
    contains(head, double) || contains(head, single)
}

fn lowered_head(bytes: &[u8]) -> (r: Vec<char>)
    ensures
        r@ == text::lower_spec(
            byte_chars(
                if bytes@.len() <= 512 {
                    bytes@
                } else {
                    bytes@.take(512)
                },
            ),
        ),
{
    let n: usize = if bytes.len() <= 512 {
        bytes.len()
    } else {
        512
    };
    let mut out: Vec<char> = Vec::new();
    let mut i: usize = 0;
    while i < n
        invariant
            i <= n <= bytes@.len(),
            out@ =~= byte_chars(bytes@.take(i as int)),
        decreases n - i,
    {
        out.push(bytes[i] as char);
        i += 1;
    }
    assert(bytes@.take(bytes@.len() as int) =~= bytes@);
    lower(out.as_slice())
}

/// The text of a schema's bytes.
pub fn decode_schema_bytes(bytes: &[u8]) -> (r: Result<String, String>)
    ensures
        text_outcome(r) == schema_text(bytes@),
{
    let n: usize = bytes.len();
    if n >= 3 && bytes[0] == 0xef && bytes[1] == 0xbb && bytes[2] == 0xbf {
        let rest = vstd::slice::slice_subrange(bytes, 3, n);
        assert(rest@ =~= bytes@.skip(3));
        return decode_utf8(rest, "invalid UTF-8 after BOM: ");
    }
    if n >= 2 {
        let rest = vstd::slice::slice_subrange(bytes, 2, n);
        assert(rest@ =~= bytes@.skip(2));
        if bytes[0] == 0xfe && bytes[1] == 0xff {
            return decode_utf16(rest, true);
        }
        if bytes[0] == 0xff && bytes[1] == 0xfe {
            return decode_utf16(rest, false);
        }
        if bytes[0] == 0 && bytes[1] == 0x3c {
            return decode_utf16(bytes, true);
        }
        if bytes[0] == 0x3c && bytes[1] == 0 {
            return decode_utf16(bytes, false);
        }
    }
    let head = lowered_head(bytes);
    if declared(head.as_slice(), "encoding=\"utf-16be\"", "encoding='utf-16be'") {
        return decode_utf16(bytes, true);
    }
    if declared(head.as_slice(), "encoding=\"utf-16le\"", "encoding='utf-16le'") {
        return decode_utf16(bytes, false);
    }
    decode_utf8(bytes, "invalid UTF-8 schema: ")
}

/// A declaration with one UTF-16 encoding, in either kind of quotes, made UTF-8.
pub open spec fn made_utf8(decl: Seq<char>, double: Seq<char>, single: Seq<char>) -> Seq<char> {
    text::replace_spec(
        text::replace_spec(decl, double, "encoding=\"UTF-8\""@),
        single,
        "encoding=\"UTF-8\""@,
    )
}

/// A declaration with every UTF-16 encoding made UTF-8.
pub open spec fn declaration_in_utf8(decl: Seq<char>) -> Seq<char> {
    let a = made_utf8(decl, "encoding=\"UTF-16BE\""@, "encoding='UTF-16BE'"@);
    let b = made_utf8(a, "encoding=\"UTF-16LE\""@, "encoding='UTF-16LE'"@);
    let c = made_utf8(b, "encoding=\"UTF-16\""@, "encoding='UTF-16'"@);
    let d = made_utf8(c, "encoding=\"utf-16be\""@, "encoding='utf-16be'"@);
    let e = made_utf8(d, "encoding=\"utf-16le\""@, "encoding='utf-16le'"@);
    made_utf8(e, "encoding=\"utf-16\""@, "encoding='utf-16'"@)
}

/// A decoded schema whose declaration agrees with its being decoded.
pub open spec fn declared_utf8(s: Seq<char>) -> Seq<char> {
    match text::find_spec(s, "?>"@) {
        Some(end) => declaration_in_utf8(s.take(end)) + s.skip(end),
        None => s,
    }
}

fn make_utf8(decl: &[char], double: &str, single: &str) -> (r: Vec<char>)
    requires
        double@.len() > 0,
        single@.len() > 0,
    ensures
        r@ == made_utf8(decl@, double@, single@),
{
    let a = replace(decl, double, "encoding=\"UTF-8\"");
    replace(a.as_slice(), single, "encoding=\"UTF-8\"")
}

/// A decoded schema whose declaration agrees with its being decoded.
pub fn normalize_decoded_schema_xml_decl(s: &str) -> (r: String)
    ensures
        r@ == declared_utf8(s@),
{
    let c = chars_of(s);
    match find(c.as_slice(), "?>") {
        None => string_of(c.as_slice()),
        Some(end) => {
            proof {
                text::lemma_find_from(c@, "?>"@, 0);
                reveal_strlit("encoding=\"UTF-16BE\"");
                reveal_strlit("encoding='UTF-16BE'");
                reveal_strlit("encoding=\"UTF-16LE\"");
                reveal_strlit("encoding='UTF-16LE'");
                reveal_strlit("encoding=\"UTF-16\"");
                reveal_strlit("encoding='UTF-16'");
                reveal_strlit("encoding=\"utf-16be\"");
                reveal_strlit("encoding='utf-16be'");
                reveal_strlit("encoding=\"utf-16le\"");
                reveal_strlit("encoding='utf-16le'");
                reveal_strlit("encoding=\"utf-16\"");
                reveal_strlit("encoding='utf-16'");
            }
            let decl = part(c.as_slice(), 0, end);
            assert(decl@ =~= c@.take(end as int));
            let a = make_utf8(decl, "encoding=\"UTF-16BE\"", "encoding='UTF-16BE'");
            let b = make_utf8(a.as_slice(), "encoding=\"UTF-16LE\"", "encoding='UTF-16LE'");
            let d = make_utf8(b.as_slice(), "encoding=\"UTF-16\"", "encoding='UTF-16'");
            let e = make_utf8(d.as_slice(), "encoding=\"utf-16be\"", "encoding='utf-16be'");
            let f = make_utf8(e.as_slice(), "encoding=\"utf-16le\"", "encoding='utf-16le'");
            let mut out = make_utf8(f.as_slice(), "encoding=\"utf-16\"", "encoding='utf-16'");
            let rest = part(c.as_slice(), end, c.len());
            assert(rest@ =~= c@.skip(end as int));
            append_chars(&mut out, rest);
            string_of(out.as_slice())
        },
    }
}

/// The text of a schema file, from its bytes.
pub fn decode_schema_text(bytes: &[u8]) -> (r: Result<String, String>)
    ensures
        text_outcome(r) == (match schema_text(bytes@) {
            Ok(s) => Ok(declared_utf8(s)),
            Err(e) => Err(e),
        }),
{
    match decode_schema_bytes(bytes) {
        Ok(s) => Ok(normalize_decoded_schema_xml_decl(s.as_str())),
        Err(e) => Err(e),
    }
}

proof fn lemma_char_code(c: char)
    ensures
        0 <= c as int <= 0x10ffff,
{
    vstd::utf8::char_is_scalar(c);
    let n: u32 = c as u32;
    assert(n as int == c as int);
}

/// In an encoding of single bytes, each character is the byte of its number.
pub proof fn law_single_bytes(set: Charset, s: Seq<char>)
    requires
        set == Charset::Ascii || set == Charset::Latin1,
    ensures
        text_bytes(set, s) matches Some(b) ==> b.len() == s.len() && forall|i: int|
            0 <= i < s.len() ==> #[trigger] b[i] as int == s[i] as int,
        text_bytes(set, s) is Some <==> forall|i: int|
            0 <= i < s.len() ==> (#[trigger] s[i] as int) < if set == Charset::Ascii {
                128int
            } else {
                256int
            },
    decreases s.len(),
{
    if s.len() > 0 {
        let less = s.drop_last();
        law_single_bytes(set, less);
        assert forall|i: int| 0 <= i < less.len() implies less[i] == #[trigger] s[i] by {}
        lemma_char_code(s.last());
        if let Some(b) = text_bytes(set, s) {
            let front = text_bytes(set, less)->0;
            assert forall|i: int| 0 <= i < s.len() implies #[trigger] b[i] as int
                == s[i] as int by {
                if i < less.len() {
                    assert(b[i] == front[i]);
                    assert(less[i] == s[i]);
                }
            }
            assert forall|i: int| 0 <= i < s.len() implies (#[trigger] s[i] as int) < if set
                == Charset::Ascii {
                128int
            } else {
                256int
            } by {
                if i < less.len() {
                    assert(less[i] == s[i]);
                }
            }
        }
    }
}

/// In UTF-32 each character is four bytes that spell its number, the largest first or
/// last.
pub proof fn law_four_bytes(s: Seq<char>)
    ensures
        text_bytes(Charset::Utf32Be, s) matches Some(b) && b.len() == 4 * s.len() && forall|i: int|
            0 <= i < s.len() ==> #[trigger] s[i] as int == 65536 * b[4 * i + 1] + 256 * b[4 * i + 2]
                + b[4 * i + 3],
        text_bytes(Charset::Utf32Le, s) matches Some(b) && b.len() == 4 * s.len() && forall|i: int|
            0 <= i < s.len() ==> #[trigger] s[i] as int == 65536 * b[4 * i + 2] + 256 * b[4 * i + 1]
                + b[4 * i],
    decreases s.len(),
{
    if s.len() > 0 {
        let less = s.drop_last();
        law_four_bytes(less);
        let front = text_bytes(Charset::Utf32Be, less)->0;
        let b = text_bytes(Charset::Utf32Be, s)->0;
        let low = text_bytes(Charset::Utf32Le, less)->0;
        let l = text_bytes(Charset::Utf32Le, s)->0;
        let u = s.last() as int;
        lemma_char_code(s.last());
        assert(u == 65536 * (u / 65536) + 256 * (u / 256 % 256) + u % 256);
        assert forall|i: int| 0 <= i < s.len() implies #[trigger] s[i] as int == 65536 * b[4 * i + 1]
            + 256 * b[4 * i + 2] + b[4 * i + 3] by {
            if i < less.len() {
                assert(less[i] == s[i]);
                assert(b[4 * i + 1] == front[4 * i + 1]);
                assert(b[4 * i + 2] == front[4 * i + 2]);
                assert(b[4 * i + 3] == front[4 * i + 3]);
            }
        }
        assert forall|i: int| 0 <= i < s.len() implies #[trigger] s[i] as int == 65536 * l[4 * i + 2]
            + 256 * l[4 * i + 1] + l[4 * i] by {
            if i < less.len() {
                assert(less[i] == s[i]);
                assert(l[4 * i] == low[4 * i]);
                assert(l[4 * i + 1] == low[4 * i + 1]);
                assert(l[4 * i + 2] == low[4 * i + 2]);
            }
        }
    }
}

} // verus!
