//! Bits and bytes of TDML documents: hexadecimal and binary digits, the order of
//! bits, and how digits become bytes.

use vstd::prelude::*;
use crate::entities;
use crate::entities::hex_digit_value;
use crate::error::Error;
use crate::numbers;
use crate::text::{append_chars, chars_of, part, string_of};

verus! {

broadcast use vstd::string::group_string_axioms;

/// Which bit of a byte comes first.
#[derive(Debug, Clone, Copy, PartialEq, Eq, Structural)]
pub enum DocumentBitOrder {
    MsbFirst,
    LsbFirst,
}

/// Whether a line of bits is written from the left or from the right.
#[derive(Debug, Clone, Copy, PartialEq, Eq, Structural)]
pub enum DocumentByteOrder {
    Ltr,
    Rtl,
}

impl DeepView for DocumentBitOrder {
    type V = DocumentBitOrder;

    open spec fn deep_view(&self) -> DocumentBitOrder {
        *self
    }
}

impl DeepView for DocumentByteOrder {
    type V = DocumentByteOrder;

    open spec fn deep_view(&self) -> DocumentByteOrder {
        *self
    }
}

// Hexadecimal digits.
/// The hexadecimal digits of a text.
pub open spec fn hex_digits(s: Seq<char>) -> Seq<char>
    decreases s.len(),
{
    if s.len() == 0 {
        Seq::empty()
    } else if entities::hex_digit(s.last()) is Some {
        hex_digits(s.drop_last()).push(s.last())
    } else {
        hex_digits(s.drop_last())
    }
}

/// The bytes that pairs of hexadecimal digits stand for.
pub open spec fn digit_pairs(s: Seq<char>) -> Seq<u8> {
    Seq::new(
        s.len() / 2,
        |i: int|
            (16 * entities::hex_digit(s[2 * i]).unwrap() + entities::hex_digit(
                s[2 * i + 1],
            ).unwrap()) as u8,
    )
}

/// Digits with a zero in front where their number is odd.
pub open spec fn evened(s: Seq<char>) -> Seq<char> {
    if s.len() % 2 == 0 {
        s
    } else {
        seq!['0'] + s
    }
}

/// The bytes that a text of hexadecimal digits stands for.
pub open spec fn hex_bytes(text: Seq<char>) -> Seq<u8> {
    digit_pairs(evened(hex_digits(text)))
}

proof fn lemma_hex_digits(s: Seq<char>)
    ensures
        forall|i: int|
            0 <= i < hex_digits(s).len() ==> entities::hex_digit(
                #[trigger] hex_digits(s)[i],
            ) is Some,
        hex_digits(s).len() <= s.len(),
    decreases s.len(),
{
    if s.len() > 0 {
        lemma_hex_digits(s.drop_last());
    }
}

/// The bytes of a document part written in hexadecimal digits. Every other
/// character is passed over.
pub fn parse_hex_document(text: &str) -> (r: Result<Vec<u8>, Error>)
    ensures
        r is Ok,
        r->Ok_0@ == hex_bytes(text@),
{
    let c = chars_of(text);
    let mut hex: Vec<char> = Vec::new();
    let mut i: usize = 0;
    assert(c@.take(0) =~= Seq::<char>::empty());
    while i < c.len()
        invariant
            i <= c@.len(),
            hex@ == hex_digits(c@.take(i as int)),
        decreases c@.len() - i,
    {
        assert(c@.take(i + 1).drop_last() =~= c@.take(i as int));
        if hex_digit_value(c[i]).is_some() {
            hex.push(c[i]);
        }
        i += 1;
    }
    assert(c@.take(c@.len() as int) =~= c@);
    if hex.len() % 2 != 0 {
        hex.insert(0, '0');
    }
    proof {
        lemma_hex_digits(text@);
        assert(hex@ =~= evened(hex_digits(text@)));
        assert(entities::hex_digit('0') is Some);
        assert forall|j: int| 0 <= j < hex@.len() implies entities::hex_digit(
            #[trigger] hex@[j],
        ) is Some by {
            let d = hex_digits(text@);
            if d.len() % 2 != 0 && j > 0 {
                assert(hex@[j] == d[j - 1]);
            }
        }
    }
    let mut out: Vec<u8> = Vec::new();
    let mut k: usize = 0;
    while k < hex.len() / 2
        invariant
            k <= hex@.len() / 2,
            hex@ == evened(hex_digits(text@)),
            forall|j: int|
                0 <= j < hex@.len() ==> entities::hex_digit(#[trigger] hex@[j]) is Some,
            out@ =~= digit_pairs(hex@).take(k as int),
        decreases hex@.len() / 2 - k,
    {
        let hi = hex_digit_value(hex[2 * k]);
        let lo = hex_digit_value(hex[2 * k + 1]);
        assert(entities::hex_digit(hex@[2 * k as int]) is Some);
        assert(entities::hex_digit(hex@[2 * k + 1]) is Some);
        match (hi, lo) {
            (Some(h), Some(l)) => {
                out.push((h * 16 + l) as u8);
            },
            _ => {},
        }
        k += 1;
    }
    assert(digit_pairs(hex@).take(k as int) =~= digit_pairs(hex@));
    Ok(out)
}

/// A digit of a hexadecimal number in capitals.
pub open spec fn hex_char(n: int) -> char {
    if n < 10 {
        ('0' as int + n) as char
    } else {
        ('A' as int + (n - 10)) as char
    }
}

/// Bytes in hexadecimal digits.
pub open spec fn hex_text(bytes: Seq<u8>) -> Seq<char> {
    Seq::new(
        2 * bytes.len(),
        |i: int| hex_char(if i % 2 == 0 { bytes[i / 2] as int / 16 } else { bytes[i / 2] as int % 16 }),
    )
}

fn hex_char_of(n: u8) -> (r: char)
    requires
        n < 16,
    ensures
        r == hex_char(n as int),
{
    if n < 10 {
        (48 + n) as char
    } else {
        (55 + n) as char
    }
}

/// Bytes in hexadecimal digits.
pub fn hex_encode(bytes: &[u8]) -> (r: String)
    ensures
        r@ == hex_text(bytes@),
{
    let mut out: Vec<char> = Vec::new();
    let mut i: usize = 0;
    while i < bytes.len()
        invariant
            i <= bytes@.len(),
            out@ =~= hex_text(bytes@.take(i as int)),
        decreases bytes@.len() - i,
    {
        let b = bytes[i];
        let ghost before = out@;
        out.push(hex_char_of(b / 16));
        out.push(hex_char_of(b % 16));
        assert(out@ =~= hex_text(bytes@.take(i + 1))) by {
            let next = hex_text(bytes@.take(i + 1));
            assert forall|j: int| 0 <= j < next.len() implies out@[j] == next[j] by {
                if j < 2 * i {
                    assert(before[j] == hex_text(bytes@.take(i as int))[j]);
                }
            }
        }
        i += 1;
    }
    assert(bytes@.take(i as int) =~= bytes@);
    string_of(out.as_slice())
}

/// Bytes that were written in hexadecimal digits are read back.
pub proof fn law_hex_round_trip(bytes: Seq<u8>)
    ensures
        hex_bytes(hex_text(bytes)) == bytes,
{
    let t = hex_text(bytes);
    assert forall|i: int| 0 <= i < t.len() implies entities::hex_digit(#[trigger] t[i]) == Some(
        (if i % 2 == 0 { bytes[i / 2] as int / 16 } else { bytes[i / 2] as int % 16 }) as nat,
    ) by {}
    lemma_all_hex(t);
    let p = digit_pairs(t);
    assert forall|i: int| 0 <= i < p.len() implies p[i] == bytes[i] by {
        assert(entities::hex_digit(t[2 * i]) == Some((bytes[i] as int / 16) as nat));
        assert(entities::hex_digit(t[2 * i + 1]) == Some((bytes[i] as int % 16) as nat));
    }
    assert(p =~= bytes);
}

proof fn lemma_all_hex(s: Seq<char>)
    requires
        forall|i: int| 0 <= i < s.len() ==> entities::hex_digit(#[trigger] s[i]) is Some,
    ensures
        hex_digits(s) == s,
    decreases s.len(),
{
    if s.len() > 0 {
        assert forall|i: int| 0 <= i < s.drop_last().len() implies entities::hex_digit(
            #[trigger] s.drop_last()[i],
        ) is Some by {
            assert(s.drop_last()[i] == s[i]);
        }
        assert(entities::hex_digit(s[s.len() - 1]) is Some);
        lemma_all_hex(s.drop_last());
        assert(s.drop_last().push(s.last()) =~= s);
    }
}

// Binary digits.
/// A binary digit.
pub open spec fn is_bit(c: char) -> bool {
    c == '0' || c == '1'
}

/// The binary digits of a text.
pub open spec fn bit_digits(s: Seq<char>) -> Seq<char>
    decreases s.len(),
{
    if s.len() == 0 {
        Seq::empty()
    } else if is_bit(s.last()) {
        bit_digits(s.drop_last()).push(s.last())
    } else {
        bit_digits(s.drop_last())
    }
}

/// The binary digits of a text. Every other character is passed over.
pub fn collect_bit_digits_from_text(text: &str) -> (r: String)
    ensures
        r@ == bit_digits(text@),
{
    let c = chars_of(text);
    let mut out: Vec<char> = Vec::new();
    let mut i: usize = 0;
    assert(c@.take(0) =~= Seq::<char>::empty());
    while i < c.len()
        invariant
            i <= c@.len(),
            out@ == bit_digits(c@.take(i as int)),
        decreases c@.len() - i,
    {
        assert(c@.take(i + 1).drop_last() =~= c@.take(i as int));
        if c[i] == '0' || c[i] == '1' {
            out.push(c[i]);
        }
        i += 1;
    }
    assert(c@.take(c@.len() as int) =~= c@);
    string_of(out.as_slice())
}

fn reverse_chars(s: &[char]) -> (r: Vec<char>)
    ensures
        r@ == s@.reverse(),
{
    let mut out: Vec<char> = Vec::new();
    let mut i: usize = s.len();
    while i > 0
        invariant
            i <= s@.len(),
            out@ =~= s@.reverse().take(s@.len() - i),
        decreases i,
    {
        i -= 1;
        out.push(s[i]);
    }
    assert(s@.reverse().take(s@.len() as int) =~= s@.reverse());
    out
}

/// Digits in the opposite order.
pub fn reverse_bit_string(s: &str) -> (r: String)
    ensures
        r@ == s@.reverse(),
{
    let c = chars_of(s);
    let rev = reverse_chars(c.as_slice());
    string_of(rev.as_slice())
}

/// Digits turned around twice stand as before.
pub proof fn law_reverse_twice(s: Seq<char>)
    ensures
        s.reverse().reverse() == s,
{
    assert(s.reverse().reverse() =~= s);
}

/// Digits in groups of eight, the last one shorter where they do not come out even.
pub open spec fn groups(s: Seq<char>) -> Seq<Seq<char>>
    decreases s.len(),
{
    if s.len() == 0 {
        Seq::empty()
    } else if s.len() <= 8 {
        seq![s]
    } else {
        seq![s.take(8)] + groups(s.skip(8))
    }
}

/// The digits of all groups in a row.
pub open spec fn joined(chunks: Seq<Seq<char>>) -> Seq<char>
    decreases chunks.len(),
{
    if chunks.len() == 0 {
        Seq::empty()
    } else {
        joined(chunks.drop_last()) + chunks.last()
    }
}

/// Each group of digits in the opposite order.
pub open spec fn each_reversed(chunks: Seq<Seq<char>>) -> Seq<Seq<char>> {
    Seq::new(chunks.len(), |i: int| chunks[i].reverse())
}

proof fn lemma_joined_cons(a: Seq<char>, rest: Seq<Seq<char>>)
    ensures
        joined(seq![a] + rest) == a + joined(rest),
    decreases rest.len(),
{
    let all = seq![a] + rest;
    if rest.len() == 0 {
        assert(all.drop_last() =~= Seq::<Seq<char>>::empty());
        assert(joined(all.drop_last()) =~= Seq::<char>::empty());
        assert(all.last() == a);
        assert(joined(all) =~= a + joined(rest));
    } else {
        assert(all.drop_last() =~= seq![a] + rest.drop_last());
        lemma_joined_cons(a, rest.drop_last());
        assert(joined(all) =~= a + joined(rest));
    }
}

/// Grouping keeps every digit in its place.
pub proof fn law_groups_keep_digits(s: Seq<char>)
    ensures
        joined(groups(s)) == s,
    decreases s.len(),
{
    if s.len() == 0 {
    } else if s.len() <= 8 {
        assert(seq![s].drop_last() =~= Seq::<Seq<char>>::empty());
        assert(joined(seq![s]) =~= s) by {
            assert(joined(seq![s].drop_last()) =~= Seq::<char>::empty());
        }
    } else {
        law_groups_keep_digits(s.skip(8));
        lemma_joined_cons(s.take(8), groups(s.skip(8)));
        assert(s.take(8) + s.skip(8) =~= s);
    }
}

/// Every group but the last has eight digits, and the last has between one and eight.
pub proof fn law_groups_of_eight(s: Seq<char>, i: int)
    requires
        0 <= i < groups(s).len(),
    ensures
        i < groups(s).len() - 1 ==> groups(s)[i].len() == 8,
        1 <= groups(s)[i].len() <= 8,
    decreases s.len(),
{
    if s.len() > 8 {
        if i > 0 {
            assert(groups(s)[i] == groups(s.skip(8))[i - 1]);
            law_groups_of_eight(s.skip(8), i - 1);
        }
    }
}

fn group_chars(s: &[char], turned: bool) -> (r: Vec<String>)
    ensures
        r.deep_view() == (if turned {
            each_reversed(groups(s@))
        } else {
            groups(s@)
        }),
{
    let n: usize = s.len();
    let mut out: Vec<String> = Vec::new();
    let mut at: usize = 0;
    assert(s@.skip(0) =~= s@);
    let ghost want = if turned {
        each_reversed(groups(s@))
    } else {
        groups(s@)
    };
    assert(out.deep_view() + want =~= want);
    while at < n
        invariant
            n == s@.len(),
            at <= n,
            want == out.deep_view() + (if turned {
                each_reversed(groups(s@.skip(at as int)))
            } else {
                groups(s@.skip(at as int))
            }),
        decreases n - at,
    {
        let to: usize = if n - at <= 8 {
            n
        } else {
            at + 8
        };
        let piece = part(s, at, to);
        let ghost rest = s@.skip(at as int);
        let ghost before = out.deep_view();
        let text = if turned {
            let rev = reverse_chars(piece);
            string_of(rev.as_slice())
        } else {
            string_of(piece)
        };
        let ghost shown = text@;
        out.push(text);
        proof {
            assert(out.deep_view() =~= before.push(shown));
            let tail = groups(s@.skip(to as int));
            if rest.len() <= 8 {
                assert(piece@ =~= rest);
                assert(s@.skip(to as int).len() == 0);
                assert(groups(rest) =~= seq![piece@] + tail);
            } else {
                assert(piece@ =~= rest.take(8));
                assert(rest.skip(8) =~= s@.skip(to as int));
            }
            assert(groups(rest) == seq![piece@] + tail);
            assert(each_reversed(groups(rest)) =~= seq![piece@.reverse()] + each_reversed(tail));
            assert(before + (seq![shown] + tail) =~= before.push(shown) + tail);
            assert(before + (seq![shown] + each_reversed(tail)) =~= before.push(shown)
                + each_reversed(tail));
        }
        at = to;
    }
    assert(s@.skip(n as int).len() == 0);
    assert(out.deep_view() + Seq::<Seq<char>>::empty() =~= out.deep_view());
    assert(each_reversed(Seq::<Seq<char>>::empty()) =~= Seq::<Seq<char>>::empty());
    out
}

/// Digits in groups of eight from the left.
pub fn chunk_bit_string_ltr(bits: &str) -> (r: Vec<String>)
    ensures
        r.deep_view() == groups(bits@),
{
    let c = chars_of(bits);
    group_chars(c.as_slice(), false)
}

/// The groups of eight digits of a document part: from the left, or from the
/// right with each group written as it stands.
pub open spec fn part_groups(bits: Seq<char>, order: DocumentByteOrder) -> Seq<Seq<char>> {
    match order {
        DocumentByteOrder::Ltr => groups(bits),
        DocumentByteOrder::Rtl => each_reversed(groups(bits.reverse())),
    }
}

/// The groups of eight digits of a document part.
pub fn bit_chunks_for_part(bits: &str, byte_order: DocumentByteOrder) -> (r: Vec<String>)
    ensures
        r.deep_view() == part_groups(bits@, byte_order),
{
    let c = chars_of(bits);
    match byte_order {
        DocumentByteOrder::Ltr => group_chars(c.as_slice(), false),
        DocumentByteOrder::Rtl => {
            let rev = reverse_chars(c.as_slice());
            group_chars(rev.as_slice(), true)
        },
    }
}

/// What was written from the right reads from the left when its groups are set
/// down from the last to the first.
pub proof fn law_right_to_left_groups(bits: Seq<char>)
    ensures
        joined(part_groups(bits, DocumentByteOrder::Rtl).reverse()) == bits,
{
    law_groups_keep_digits(bits.reverse());
    lemma_joined_reversed(groups(bits.reverse()));
    law_reverse_twice(bits);
}

proof fn lemma_joined_reversed(chunks: Seq<Seq<char>>)
    ensures
        joined(each_reversed(chunks).reverse()) == joined(chunks).reverse(),
    decreases chunks.len(),
{
    if chunks.len() == 0 {
        assert(each_reversed(chunks).reverse() =~= Seq::<Seq<char>>::empty());
        assert(joined(chunks).reverse() =~= Seq::<char>::empty());
    } else {
        let front = chunks.drop_last();
        lemma_joined_reversed(front);
        assert(each_reversed(chunks).reverse() =~= seq![chunks.last().reverse()] + each_reversed(
            front,
        ).reverse());
        lemma_joined_cons(chunks.last().reverse(), each_reversed(front).reverse());
        assert(joined(chunks).reverse() =~= chunks.last().reverse() + joined(front).reverse());
    }
}

// Assembling documents.
/// The groups of all parts in a row.
pub open spec fn all_groups(parts: Seq<Seq<Seq<char>>>) -> Seq<Seq<char>>
    decreases parts.len(),
{
    if parts.len() == 0 {
        Seq::empty()
    } else {
        all_groups(parts.drop_last()) + parts.last()
    }
}

/// The digits of a document in the order of its bytes, most significant first in each.
pub open spec fn document_digits(
    parts: Seq<Seq<Seq<char>>>,
    order: DocumentBitOrder,
) -> Seq<char> {
    match order {
        DocumentBitOrder::MsbFirst => joined(all_groups(parts)),
        DocumentBitOrder::LsbFirst => joined(
            each_reversed(groups(joined(each_reversed(all_groups(parts))))),
        ),
    }
}

fn join_chunks(chunks: &Vec<String>, turned: bool, out: &mut Vec<char>)
    ensures
        final(out)@ == old(out)@ + joined(
            if turned {
                each_reversed(chunks.deep_view())
            } else {
                chunks.deep_view()
            },
        ),
{
    let mut i: usize = 0;
    let ghost start = out@;
    let ghost all = if turned {
        each_reversed(chunks.deep_view())
    } else {
        chunks.deep_view()
    };
    assert(all.take(0) =~= Seq::<Seq<char>>::empty());
    assert(start + joined(all.take(0)) =~= start);
    while i < chunks.len()
        invariant
            i <= chunks@.len(),
            all == (if turned {
                each_reversed(chunks.deep_view())
            } else {
                chunks.deep_view()
            }),
            out@ == start + joined(all.take(i as int)),
        decreases chunks@.len() - i,
    {
        let c = chars_of(chunks[i].as_str());
        assert(chunks.deep_view()[i as int] == chunks@[i as int]@);
        assert(all.take(i + 1).drop_last() =~= all.take(i as int));
        assert(all.take(i + 1).last() == all[i as int]);
        if turned {
            let rev = reverse_chars(c.as_slice());
            append_chars(out, rev.as_slice());
        } else {
            append_chars(out, c.as_slice());
        }
        assert(out@ =~= start + joined(all.take(i + 1)));
        i += 1;
    }
    assert(all.take(all.len() as int) =~= all);
}

proof fn lemma_joined_add(a: Seq<Seq<char>>, b: Seq<Seq<char>>)
    ensures
        joined(a + b) == joined(a) + joined(b),
    decreases b.len(),
{
    if b.len() == 0 {
        assert(a + b =~= a);
        assert(joined(a) + joined(b) =~= joined(a));
    } else {
        assert((a + b).drop_last() =~= a + b.drop_last());
        lemma_joined_add(a, b.drop_last());
        assert(joined(a + b) =~= joined(a) + joined(b));
    }
}

fn join_parts(parts: &[Vec<String>], turned: bool) -> (r: Vec<char>)
    ensures
        r@ == joined(
            if turned {
                each_reversed(all_groups(parts.deep_view()))
            } else {
                all_groups(parts.deep_view())
            },
        ),
{
    let mut out: Vec<char> = Vec::new();
    let mut i: usize = 0;
    let ghost all = parts.deep_view();
    assert(all.take(0) =~= Seq::<Seq<Seq<char>>>::empty());
    assert(each_reversed(Seq::<Seq<char>>::empty()) =~= Seq::<Seq<char>>::empty());
    while i < parts.len()
        invariant
            i <= parts@.len(),
            all == parts.deep_view(),
            out@ == joined(
                if turned {
                    each_reversed(all_groups(all.take(i as int)))
                } else {
                    all_groups(all.take(i as int))
                },
            ),
        decreases parts@.len() - i,
    {
        assert(all[i as int] == parts@[i as int].deep_view());
        assert(all.take(i + 1).drop_last() =~= all.take(i as int));
        assert(all.take(i + 1).last() == all[i as int]);
        join_chunks(&parts[i], turned, &mut out);
        proof {
            let front = all_groups(all.take(i as int));
            let next = all[i as int];
            lemma_joined_add(front, next);
            lemma_joined_add(each_reversed(front), each_reversed(next));
            assert(each_reversed(front + next) =~= each_reversed(front) + each_reversed(next));
        }
        i += 1;
    }
    assert(all.take(all.len() as int) =~= all);
    out
}

fn document_chars(parts: &[Vec<String>], order: DocumentBitOrder) -> (r: Vec<char>)
    ensures
        r@ == document_digits(parts.deep_view(), order),
{
    match order {
        DocumentBitOrder::MsbFirst => join_parts(parts, false),
        DocumentBitOrder::LsbFirst => {
            let flat = join_parts(parts, true);
            let chunks = group_chars(flat.as_slice(), true);
            let mut out: Vec<char> = Vec::new();
            join_chunks(&chunks, false, &mut out);
            out
        },
    }
}

/// The digits of each byte of a document.
pub fn document_bits_byte_strings(
    part_chunks: &[Vec<String>],
    document_bit_order: DocumentBitOrder,
) -> (r: Vec<String>)
    ensures
        r.deep_view() == groups(document_digits(part_chunks.deep_view(), document_bit_order)),
{
    let flat = document_chars(part_chunks, document_bit_order);
    group_chars(flat.as_slice(), false)
}

/// Groups of digits set anew in groups of eight.
pub fn regroup_bit_digit_strings(chunks: &Vec<String>) -> (r: Vec<String>)
    ensures
        r.deep_view() == groups(joined(chunks.deep_view())),
{
    let mut flat: Vec<char> = Vec::new();
    join_chunks(chunks, false, &mut flat);
    assert(Seq::<char>::empty() + joined(chunks.deep_view()) =~= joined(chunks.deep_view()));
    group_chars(flat.as_slice(), false)
}

/// The number of a row of binary digits.
pub open spec fn binary_value(s: Seq<char>) -> nat
    decreases s.len(),
{
    if s.len() == 0 {
        0
    } else {
        2 * binary_value(s.drop_last()) + if s.last() == '1' {
            1nat
        } else {
            0nat
        }
    }
}

/// The number in binary digits, a plus sign allowed, as far as a byte holds it.
pub open spec fn byte_number(s: Seq<char>) -> Option<u8> {
    let t = numbers::unplus(s);
    if t.len() > 0 && (forall|i: int| 0 <= i < t.len() ==> is_bit(#[trigger] t[i])) && binary_value(
        t,
    ) <= 255 {
        Some(binary_value(t) as u8)
    } else {
        None
    }
}

proof fn lemma_binary_grows(s: Seq<char>, i: int)
    requires
        0 <= i <= s.len(),
    ensures
        binary_value(s.take(i)) <= binary_value(s),
    decreases s.len() - i,
{
    if i == s.len() {
        assert(s.take(i) =~= s);
    } else {
        lemma_binary_grows(s, i + 1);
        assert(s.take(i + 1).drop_last() =~= s.take(i));
    }
}

fn parse_binary_byte(s: &[char]) -> (r: Option<u8>)
    ensures
        r == byte_number(s@),
{
    let n: usize = s.len();
    let from: usize = if n > 0 && s[0] == '+' {
        1
    } else {
        0
    };
    let ghost t = numbers::unplus(s@);
    assert(t =~= s@.skip(from as int));
    if from == n {
        return None;
    }
    let mut i: usize = from;
    let mut value: u32 = 0;
    assert(t.take(0) =~= Seq::<char>::empty());
    while i < n
        invariant
            n == s@.len(),
            from <= i <= n,
            t == numbers::unplus(s@),
            t =~= s@.skip(from as int),
            forall|j: int| 0 <= j < i - from ==> is_bit(#[trigger] t[j]),
            value == binary_value(t.take(i - from)),
            value <= 255,
        decreases n - i,
    {
        let c = s[i];
        assert(c == t[i - from]);
        assert(t.take(i + 1 - from).drop_last() =~= t.take(i - from));
        if c != '0' && c != '1' {
            return None;
        }
        value = 2 * value + (if c == '1' {
            1
        } else {
            0
        });
        if value > 255 {
            proof {
                lemma_binary_grows(t, i + 1 - from);
            }
            return None;
        }
        i += 1;
    }
    assert(t.take(n - from) =~= t);
    Some(value as u8)
}

/// How many digits stand in groups.
pub open spec fn digit_count(chunks: Seq<Seq<char>>) -> nat {
    joined(chunks).len()
}

/// A row of zeros.
pub open spec fn zeros(n: nat) -> Seq<char> {
    Seq::new(n, |i: int| '0')
}

/// The digits of a byte filled up to eight.
pub open spec fn filled(s: Seq<char>, count: nat, order: DocumentBitOrder) -> Seq<char> {
    match order {
        DocumentBitOrder::MsbFirst => s + zeros(count),
        DocumentBitOrder::LsbFirst => zeros(count) + s,
    }
}

/// The bytes of a document made of groups of binary digits, and how many bits of
/// the last one count where not all do.
pub open spec fn assembled(parts: Seq<Seq<Seq<char>>>, order: DocumentBitOrder) -> (Seq<u8>, u8) {
    let bytes = groups(document_digits(parts, order));
    let over = digit_count(all_groups(parts)) % 8;
    let missing = if over == 0 {
        0
    } else {
        (8 - over) as nat
    };
    if bytes.len() == 0 {
        (Seq::empty(), 0)
    } else {
        (
            Seq::new(
                bytes.len(),
                |i: int|
                    match byte_number(
                        if i == bytes.len() - 1 {
                            filled(bytes[i], missing, order)
                        } else {
                            bytes[i]
                        },
                    ) {
                        Some(b) => b,
                        None => 0u8,
                    },
            ),
            over as u8,
        )
    }
}

fn fill(s: &str, count: usize, order: DocumentBitOrder) -> (r: Vec<char>)
    ensures
        r@ == filled(s@, count as nat, order),
{
    let mut rest: Vec<char> = Vec::new();
    let mut i: usize = 0;
    while i < count
        invariant
            i <= count,
            rest@ =~= zeros(i as nat),
        decreases count - i,
    {
        rest.push('0');
        i += 1;
    }
    let mut c = chars_of(s);
    match order {
        DocumentBitOrder::MsbFirst => {
            append_chars(&mut c, rest.as_slice());
            c
        },
        DocumentBitOrder::LsbFirst => {
            append_chars(&mut rest, c.as_slice());
            rest
        },
    }
}

/// The bytes of a document made of groups of binary digits.
pub fn assemble_tdml_document_bytes(
    part_chunks: &[Vec<String>],
    document_bit_order: DocumentBitOrder,
) -> (r: (Vec<u8>, u8))
    ensures
        (r.0@, r.1) == assembled(part_chunks.deep_view(), document_bit_order),
{
    let bytes = document_bits_byte_strings(part_chunks, document_bit_order);
    let n: usize = bytes.len();
    if n == 0 {
        return (Vec::new(), 0);
    }
    let all = join_parts(part_chunks, false);
    let over: usize = all.len() % 8;
    let missing: usize = if over == 0 {
        0
    } else {
        8 - over
    };
    let mut out: Vec<u8> = Vec::new();
    let ghost want = assembled(part_chunks.deep_view(), document_bit_order).0;
    let mut i: usize = 0;
    while i < n
        invariant
            n == bytes@.len(),
            i <= n,
            over == digit_count(all_groups(part_chunks.deep_view())) % 8,
            missing == (if over == 0 { 0 } else { 8 - over }),
            bytes.deep_view() == groups(
                document_digits(part_chunks.deep_view(), document_bit_order),
            ),
            want == assembled(part_chunks.deep_view(), document_bit_order).0,
            want.len() == n,
            out@ =~= want.take(i as int),
        decreases n - i,
    {
        assert(bytes.deep_view()[i as int] == bytes@[i as int]@);
        let digits = if i == n - 1 {
            fill(bytes[i].as_str(), missing, document_bit_order)
        } else {
            chars_of(bytes[i].as_str())
        };
        let byte: u8 = match parse_binary_byte(digits.as_slice()) {
            Some(b) => b,
            None => 0,
        };
        out.push(byte);
        i += 1;
    }
    assert(want.take(n as int) =~= want);
    (out, over as u8)
}

/// A document has as many bytes as its digits fill or begin.
pub proof fn law_assembled_length(parts: Seq<Seq<Seq<char>>>, order: DocumentBitOrder)
    ensures
        assembled(parts, order).0.len() == (digit_count(all_groups(parts)) + 7) / 8,
        assembled(parts, order).1 == digit_count(all_groups(parts)) % 8,
{
    let all = all_groups(parts);
    let d = document_digits(parts, order);
    lemma_joined_turned(all);
    if order == DocumentBitOrder::LsbFirst {
        let flat = joined(each_reversed(all));
        lemma_joined_turned(groups(flat));
        law_groups_keep_digits(flat);
    }
    assert(d.len() == joined(all).len());
    lemma_group_count(d);
}

proof fn lemma_joined_turned(chunks: Seq<Seq<char>>)
    ensures
        joined(each_reversed(chunks)).len() == joined(chunks).len(),
    decreases chunks.len(),
{
    if chunks.len() > 0 {
        assert(each_reversed(chunks).drop_last() =~= each_reversed(chunks.drop_last()));
        lemma_joined_turned(chunks.drop_last());
    }
}

proof fn lemma_group_count(s: Seq<char>)
    ensures
        groups(s).len() == (s.len() + 7) / 8,
    decreases s.len(),
{
    if s.len() > 8 {
        lemma_group_count(s.skip(8));
    }
}

// Bytes as rows of bits.
/// The weight of a bit in a byte, counted from the most significant.
pub open spec fn weight(i: int) -> u8 {
    if i == 0 {
        128
    } else if i == 1 {
        64
    } else if i == 2 {
        32
    } else if i == 3 {
        16
    } else if i == 4 {
        8
    } else if i == 5 {
        4
    } else if i == 6 {
        2
    } else {
        1
    }
}

/// A bit of a byte, counted from the most significant.
pub open spec fn byte_bit(b: u8, i: int) -> bool {
    (b / weight(i)) % 2 == 1
}

/// The bits of bytes in a row, most significant first in each.
pub open spec fn byte_bits(bytes: Seq<u8>) -> Seq<bool> {
    Seq::new(8 * bytes.len(), |j: int| byte_bit(bytes[j / 8], j % 8))
}

/// A bit as a number; there are none behind the last.
pub open spec fn bit_at(bits: Seq<bool>, j: int) -> int {
    if 0 <= j < bits.len() && bits[j] {
        1
    } else {
        0
    }
}

/// The byte that eight bits make, the first the most significant.
pub open spec fn byte_from(bits: Seq<bool>, at: int) -> int {
    128 * bit_at(bits, at) + 64 * bit_at(bits, at + 1) + 32 * bit_at(bits, at + 2) + 16 * bit_at(
        bits,
        at + 3,
    ) + 8 * bit_at(bits, at + 4) + 4 * bit_at(bits, at + 5) + 2 * bit_at(bits, at + 6) + bit_at(
        bits,
        at + 7,
    )
}

/// The bytes that a row of bits makes, filled up with zeros.
pub open spec fn packed(bits: Seq<bool>) -> Seq<u8> {
    Seq::new((bits.len() + 7) / 8, |k: int| byte_from(bits, 8 * k) as u8)
}

fn bit_number(bits: &[bool], at: usize, off: usize) -> (r: u8)
    requires
        at <= bits@.len(),
    ensures
        r == bit_at(bits@, at + off),
{
    if off < bits.len() - at && bits[at + off] {
        1
    } else {
        0
    }
}

/// The bytes that a row of bits makes, the first bit the most significant, and
/// how many bits of the last byte count where not all do.
pub fn pack_bits_msb_first(bits: &[bool]) -> (r: (Vec<u8>, u8))
    ensures
        r.0@ == packed(bits@),
        r.1 == bits@.len() % 8,
{
    let n: usize = bits.len();
    let count: usize = n / 8 + (if n % 8 == 0 {
        0
    } else {
        1
    });
    let mut out: Vec<u8> = Vec::new();
    let mut k: usize = 0;
    while k < count
        invariant
            n == bits@.len(),
            count == (n + 7) / 8,
            k <= count,
            out@ =~= packed(bits@).take(k as int),
        decreases count - k,
    {
        let at: usize = 8 * k;
        let byte: u8 = 128 * bit_number(bits, at, 0) + 64 * bit_number(bits, at, 1) + 32
            * bit_number(bits, at, 2) + 16 * bit_number(bits, at, 3) + 8 * bit_number(bits, at, 4)
            + 4 * bit_number(bits, at, 5) + 2 * bit_number(bits, at, 6) + bit_number(bits, at, 7);
        out.push(byte);
        k += 1;
    }
    assert(packed(bits@).take(count as int) =~= packed(bits@));
    (out, (n % 8) as u8)
}

fn bit_of(b: u8, i: usize) -> (r: bool)
    requires
        i < 8,
    ensures
        r == byte_bit(b, i as int),
{
    let w: u8 = if i == 0 {
        128
    } else if i == 1 {
        64
    } else if i == 2 {
        32
    } else if i == 3 {
        16
    } else if i == 4 {
        8
    } else if i == 5 {
        4
    } else if i == 6 {
        2
    } else {
        1
    };
    (b / w) % 2 == 1
}

/// Adds the bits of bytes to a row of bits, most significant first in each.
pub fn append_bytes_as_msb_bits(bits: &mut Vec<bool>, bytes: &[u8])
    ensures
        final(bits)@ == old(bits)@ + byte_bits(bytes@),
{
    let mut k: usize = 0;
    let ghost start = bits@;
    assert(start + byte_bits(bytes@.take(0)) =~= start);
    while k < bytes.len()
        invariant
            k <= bytes@.len(),
            bits@ =~= start + byte_bits(bytes@.take(k as int)),
        decreases bytes@.len() - k,
    {
        let mut i: usize = 0;
        let b = bytes[k];
        while i < 8
            invariant
                i <= 8,
                k < bytes@.len(),
                b == bytes@[k as int],
                bits@ =~= start + byte_bits(bytes@.take(k + 1)).take(8 * k + i),
            decreases 8 - i,
        {
            bits.push(bit_of(b, i));
            assert(byte_bits(bytes@.take(k + 1))[8 * k + i] == byte_bit(b, i as int));
            i += 1;
        }
        assert(byte_bits(bytes@.take(k + 1)).take(8 * k + 8) =~= byte_bits(bytes@.take(k + 1)));
        k += 1;
    }
    assert(bytes@.take(k as int) =~= bytes@);
}

proof fn lemma_byte_sum(b: u8)
    ensures
        128 * ((b / 128u8) % 2) + 64 * ((b / 64u8) % 2) + 32 * ((b / 32u8) % 2) + 16 * ((b / 16u8)
            % 2) + 8 * ((b / 8u8) % 2) + 4 * ((b / 4u8) % 2) + 2 * ((b / 2u8) % 2) + ((b / 1u8) % 2)
            == b,
{
    assert(128 * ((b / 128u8) % 2) + 64 * ((b / 64u8) % 2) + 32 * ((b / 32u8) % 2) + 16 * ((b
        / 16u8) % 2) + 8 * ((b / 8u8) % 2) + 4 * ((b / 4u8) % 2) + 2 * ((b / 2u8) % 2) + ((b / 1u8)
        % 2) == b) by (bit_vector);
}

/// Bits that were taken from bytes make these bytes again.
pub proof fn law_pack_bytes(bytes: Seq<u8>)
    ensures
        packed(byte_bits(bytes)) == bytes,
{
    let bits = byte_bits(bytes);
    assert forall|k: int| 0 <= k < bytes.len() implies packed(bits)[k] == bytes[k] by {
        let b = bytes[k];
        lemma_byte_sum(b);
        assert(bits[8 * k] == byte_bit(b, 0));
        assert(bits[8 * k + 1] == byte_bit(b, 1));
        assert(bits[8 * k + 2] == byte_bit(b, 2));
        assert(bits[8 * k + 3] == byte_bit(b, 3));
        assert(bits[8 * k + 4] == byte_bit(b, 4));
        assert(bits[8 * k + 5] == byte_bit(b, 5));
        assert(bits[8 * k + 6] == byte_bit(b, 6));
        assert(bits[8 * k + 7] == byte_bit(b, 7));
    }
    assert(packed(bits) =~= bytes);
}

/// The binary digits of a byte.
pub open spec fn byte_digits(b: u8) -> Seq<char> {
    Seq::new(
        8,
        |i: int|
            if byte_bit(b, i) {
                '1'
            } else {
                '0'
            },
    )
}

/// The binary digits of a byte, most significant first.
pub fn byte_to_msb_bit_string(b: u8) -> (r: String)
    ensures
        r@ == byte_digits(b),
{
    let mut out: Vec<char> = Vec::new();
    let mut i: usize = 0;
    while i < 8
        invariant
            i <= 8,
            out@ =~= byte_digits(b).take(i as int),
        decreases 8 - i,
    {
        out.push(
            if bit_of(b, i) {
                '1'
            } else {
                '0'
            },
        );
        i += 1;
    }
    assert(byte_digits(b).take(8) =~= byte_digits(b));
    string_of(out.as_slice())
}

/// The binary digits of a byte stand for this byte.
pub proof fn law_byte_digits(b: u8)
    ensures
        byte_number(byte_digits(b)) == Some(b),
{
    let d = byte_digits(b);
    assert forall|i: int| 0 <= i < d.len() implies is_bit(#[trigger] d[i]) by {}
    assert(is_bit(d[0]));
    assert(numbers::unplus(d) == d);
    lemma_byte_sum(b);
    lemma_digit_step(b, 0);
    lemma_digit_step(b, 1);
    lemma_digit_step(b, 2);
    lemma_digit_step(b, 3);
    lemma_digit_step(b, 4);
    lemma_digit_step(b, 5);
    lemma_digit_step(b, 6);
    lemma_digit_step(b, 7);
    assert(d.take(0) =~= Seq::<char>::empty());
    assert(d.take(8) =~= d);
}

proof fn lemma_digit_step(b: u8, i: int)
    requires
        0 <= i < 8,
    ensures
        binary_value(byte_digits(b).take(i + 1)) == 2 * binary_value(byte_digits(b).take(i))
            + (b / weight(i)) % 2,
{
    let d = byte_digits(b);
    assert(d.take(i + 1).drop_last() =~= d.take(i));
    assert(d.take(i + 1).last() == d[i]);
}

/// The binary digits of each byte.
pub open spec fn digits_of_bytes(bytes: Seq<u8>) -> Seq<Seq<char>> {
    Seq::new(bytes.len(), |i: int| byte_digits(bytes[i]))
}

/// The binary digits of each byte.
pub fn bytes_to_bit_strings(bytes: &[u8]) -> (r: Vec<String>)
    ensures
        r.deep_view() == digits_of_bytes(bytes@),
{
    let mut out: Vec<String> = Vec::new();
    let mut i: usize = 0;
    while i < bytes.len()
        invariant
            i <= bytes@.len(),
            out.deep_view() =~= digits_of_bytes(bytes@).take(i as int),
        decreases bytes@.len() - i,
    {
        let ghost before = out.deep_view();
        let s = byte_to_msb_bit_string(bytes[i]);
        let ghost shown = s@;
        out.push(s);
        assert(out.deep_view() =~= before.push(shown));
        i += 1;
    }
    assert(digits_of_bytes(bytes@).take(i as int) =~= digits_of_bytes(bytes@));
    out
}

// Whole groups, and the fill of the last byte.
/// Only binary digits.
pub open spec fn all_bits(s: Seq<char>) -> bool {
    forall|j: int| 0 <= j < s.len() ==> is_bit(#[trigger] s[j])
}

proof fn lemma_joined_bits(chunks: Seq<Seq<char>>)
    ensures
        all_bits(joined(chunks)) <==> (forall|i: int|
            0 <= i < chunks.len() ==> all_bits(#[trigger] chunks[i])),
    decreases chunks.len(),
{
    if chunks.len() > 0 {
        let init = chunks.drop_last();
        let s = joined(chunks);
        let n = joined(init).len();
        lemma_joined_bits(init);
        if all_bits(s) {
            assert(all_bits(joined(init))) by {
                assert forall|j: int| 0 <= j < n implies is_bit(#[trigger] joined(init)[j]) by {
                    assert(s[j] == joined(init)[j]);
                }
            }
            assert(all_bits(chunks.last())) by {
                assert forall|j: int| 0 <= j < chunks.last().len() implies is_bit(
                    #[trigger] chunks.last()[j],
                ) by {
                    assert(s[n + j] == chunks.last()[j]);
                }
            }
            assert forall|i: int| 0 <= i < chunks.len() implies all_bits(#[trigger] chunks[i]) by {
                if i < chunks.len() - 1 {
                    assert(chunks[i] == init[i]);
                }
            }
        }
        if forall|i: int| 0 <= i < chunks.len() ==> all_bits(#[trigger] chunks[i]) {
            assert forall|i: int| 0 <= i < init.len() implies all_bits(#[trigger] init[i]) by {
                assert(chunks[i] == init[i]);
            }
            assert(all_bits(chunks[chunks.len() - 1]));
            assert forall|j: int| 0 <= j < s.len() implies is_bit(#[trigger] s[j]) by {
                if j < n {
                    assert(s[j] == joined(init)[j]);
                } else {
                    assert(s[j] == chunks.last()[j - n]);
                }
            }
        }
    }
}

proof fn lemma_binary_bound(s: Seq<char>)
    ensures
        binary_value(s) < vstd::arithmetic::power2::pow2(s.len()),
    decreases s.len(),
{
    vstd::arithmetic::power2::lemma2_to64();
    if s.len() > 0 {
        lemma_binary_bound(s.drop_last());
        vstd::arithmetic::power2::lemma_pow2_unfold(s.len());
    }
}

proof fn lemma_bits_byte(s: Seq<char>)
    requires
        s.len() == 8,
        all_bits(s),
    ensures
        byte_number(s) == Some(binary_value(s) as u8),
        binary_value(s) <= 255,
{
    lemma_binary_bound(s);
    vstd::arithmetic::power2::lemma2_to64();
    assert(is_bit(s[0]));
    assert(numbers::unplus(s) == s);
}

proof fn lemma_eight_grouped(chunks: Seq<Seq<char>>)
    requires
        forall|i: int| 0 <= i < chunks.len() ==> (#[trigger] chunks[i]).len() == 8,
    ensures
        groups(joined(chunks)) == chunks,
        joined(chunks).len() == 8 * chunks.len(),
    decreases chunks.len(),
{
    if chunks.len() > 0 {
        let rest = chunks.skip(1);
        assert forall|i: int| 0 <= i < rest.len() implies (#[trigger] rest[i]).len() == 8 by {
            assert(rest[i] == chunks[i + 1]);
        }
        lemma_eight_grouped(rest);
        lemma_joined_cons(chunks[0], rest);
        assert(seq![chunks[0]] + rest =~= chunks);
        let s = joined(chunks);
        assert(s == chunks[0] + joined(rest));
        if rest.len() == 0 {
            assert(s =~= chunks[0]);
            assert(seq![s] =~= chunks);
        } else {
            assert(s.take(8) =~= chunks[0]);
            assert(s.skip(8) =~= joined(rest));
        }
    }
}

/// Where every group has eight binary digits, the bytes are the same in both bit
/// orders, one for each group, and each is the number of its group.
pub proof fn law_whole_groups(parts: Seq<Seq<Seq<char>>>)
    requires
        forall|i: int|
            0 <= i < all_groups(parts).len() ==> (#[trigger] all_groups(parts)[i]).len() == 8
                && all_bits(all_groups(parts)[i]),
    ensures
        assembled(parts, DocumentBitOrder::MsbFirst) == assembled(
            parts,
            DocumentBitOrder::LsbFirst,
        ),
        assembled(parts, DocumentBitOrder::MsbFirst).1 == 0,
        assembled(parts, DocumentBitOrder::MsbFirst).0.len() == all_groups(parts).len(),
        forall|i: int|
            0 <= i < all_groups(parts).len() ==> (#[trigger] assembled(
                parts,
                DocumentBitOrder::MsbFirst,
            ).0[i]) == binary_value(all_groups(parts)[i]),
{
    let all = all_groups(parts);
    let turned = each_reversed(all);
    assert forall|i: int| 0 <= i < turned.len() implies (#[trigger] turned[i]).len() == 8 by {
        assert(all[i].len() == 8);
    }
    lemma_eight_grouped(all);
    lemma_eight_grouped(turned);
    assert forall|i: int| 0 <= i < all.len() implies each_reversed(turned)[i] == #[trigger] all[i] by {
        law_reverse_twice(all[i]);
    }
    assert(each_reversed(turned) =~= all);
    let a = assembled(parts, DocumentBitOrder::MsbFirst).0;
    let b = assembled(parts, DocumentBitOrder::LsbFirst).0;
    assert forall|i: int| 0 <= i < all.len() implies a[i] == b[i] && #[trigger] a[i] == binary_value(
        all[i],
    ) by {
        assert(all[i].len() == 8);
        lemma_bits_byte(all[i]);
        assert(filled(all[i], 0, DocumentBitOrder::MsbFirst) =~= all[i]);
        assert(filled(all[i], 0, DocumentBitOrder::LsbFirst) =~= all[i]);
    }
    assert(a =~= b);
}

proof fn lemma_last_group(s: Seq<char>)
    requires
        s.len() > 0,
    ensures
        groups(s).len() > 0,
        s.len() % 8 != 0 ==> groups(s).last().len() == s.len() % 8,
    decreases s.len(),
{
    if s.len() > 8 {
        lemma_last_group(s.skip(8));
        assert(groups(s).last() == groups(s.skip(8)).last());
    }
}

/// Where the digits do not come out even, the last byte is filled up with zeros: at
/// its low end where the most significant bit comes first, at its high end otherwise.
pub proof fn law_last_byte_filled(parts: Seq<Seq<Seq<char>>>, order: DocumentBitOrder)
    requires
        digit_count(all_groups(parts)) % 8 != 0,
        all_bits(joined(all_groups(parts))),
    ensures
        ({
            let over = digit_count(all_groups(parts)) % 8;
            let fill = zeros((8 - over) as nat);
            let rest = groups(document_digits(parts, order)).last();
            &&& rest.len() == over
            &&& assembled(parts, order).0.last() == binary_value(
                if order == DocumentBitOrder::MsbFirst {
                    rest + fill
                } else {
                    fill + rest
                },
            )
        }),
{
    let all = all_groups(parts);
    let d = document_digits(parts, order);
    let over = digit_count(all) % 8;
    lemma_joined_turned(all);
    lemma_joined_bits(all);
    if order == DocumentBitOrder::LsbFirst {
        let turned = each_reversed(all);
        lemma_turned_bits(all);
        lemma_joined_bits(turned);
        let flat = joined(turned);
        lemma_joined_turned(groups(flat));
        law_groups_keep_digits(flat);
        lemma_joined_bits(groups(flat));
        lemma_turned_bits(groups(flat));
        lemma_joined_bits(each_reversed(groups(flat)));
    }
    assert(all_bits(d));
    assert(d.len() == digit_count(all));
    lemma_last_group(d);
    law_groups_keep_digits(d);
    lemma_joined_bits(groups(d));
    let rest = groups(d)[groups(d).len() - 1];
    assert(all_bits(rest));
    let whole = filled(rest, (8 - over) as nat, order);
    assert forall|j: int| 0 <= j < whole.len() implies is_bit(#[trigger] whole[j]) by {
        if order == DocumentBitOrder::MsbFirst {
            if j < rest.len() {
                assert(whole[j] == rest[j]);
            }
        } else if j >= 8 - over {
            assert(whole[j] == rest[j - (8 - over)]);
        }
    }
    lemma_bits_byte(whole);
}

proof fn lemma_turned_bits(chunks: Seq<Seq<char>>)
    requires
        forall|i: int| 0 <= i < chunks.len() ==> all_bits(#[trigger] chunks[i]),
    ensures
        forall|i: int|
            0 <= i < each_reversed(chunks).len() ==> all_bits(#[trigger] each_reversed(chunks)[i]),
{
    assert forall|i: int| 0 <= i < chunks.len() implies all_bits(
        #[trigger] each_reversed(chunks)[i],
    ) by {
        let c = chunks[i];
        assert(all_bits(c));
        assert forall|j: int| 0 <= j < c.len() implies is_bit(#[trigger] c.reverse()[j]) by {
            assert(is_bit(c[c.len() - 1 - j]));
        }
    }
}

} // verus!
