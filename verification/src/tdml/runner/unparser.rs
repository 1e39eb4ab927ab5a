//! Tests that unparse: a test goes on by what was done for it so far, until it has
//! come to something.

use vstd::prelude::*;
use crate::ast::BitOrder;
use crate::error;
use crate::error::{cat2, cat3, cat5, cat7, cat8};
use crate::numbers;
use crate::numbers::decimal_chars;
use crate::resolver::{SchemaResolver, SchemaResolverModel};
use crate::tdml::compare;
use crate::tdml::infoset;
use crate::tdml::infoset::{
    parse_expected_infoset_with_target_ns, InfosetNode, InfosetNodeModel,
};
use crate::tdml::infoset_values;
use crate::tdml::infoset_values::infoset_nodes_to_root_value;
use crate::tdml::runner::common;
use crate::tdml::runner::common::{
    judge_compile_error, judge_error, judge_expected, no_error_text, plan_compile, CompileTask,
    CompileTaskModel, CompiledSchema, CompiledSchemaModel, TestOutcome, TestOutcomeModel,
};
use crate::tdml::suite::{
    DocumentKind, TdmlDocument, TdmlDocumentModel, TdmlResourceContext, TdmlResourceContextModel,
    TdmlSuite, TdmlSuiteModel, UnparserTestCase, UnparserTestCaseModel,
};
use crate::text;
use crate::text::{chars_of, contains, eq, join, lower, string_of};
use crate::unparse_validate;
use crate::unparse_validate::{
    validate_unparse_infoset_cardinality, validate_unparse_infoset_nodes,
};
use crate::value::{DfdlValue, DfdlValueModel};
use crate::values::{owned, Duplicate, Same};

verus! {

broadcast use vstd::string::group_string_axioms;

// Whether bytes are those of a document.
/// What a byte is divided by to leave its first `k` bits.
pub open spec fn unit(k: int) -> int {
    if k >= 8 {
        1
    } else if k == 7 {
        2
    } else if k == 6 {
        4
    } else if k == 5 {
        8
    } else if k == 4 {
        16
    } else if k == 3 {
        32
    } else if k == 2 {
        64
    } else {
        128
    }
}

fn unit_of(k: u8) -> (r: u8)
    ensures
        r == unit(k as int),
        r > 0,
{
    if k >= 8 {
        1
    } else if k == 7 {
        2
    } else if k == 6 {
        4
    } else if k == 5 {
        8
    } else if k == 4 {
        16
    } else if k == 3 {
        32
    } else if k == 2 {
        64
    } else {
        128
    }
}

/// Whether two lists of bytes of the same length agree but for bits of the last
/// byte behind its first `k`.
pub open spec fn agree_to(a: Seq<u8>, b: Seq<u8>, k: int) -> bool {
    a.len() == b.len() && (a.len() == 0 || (a.drop_last() == b.drop_last() && a.last() as int
        / unit(k) == b.last() as int / unit(k)))
}

/// Whether bytes, with this many bits behind the last whole byte, are those of a
/// document.
pub open spec fn is_document(encoded: Seq<u8>, bits: u8, data: Seq<u8>, expected: u8) -> bool {
    if expected == 0 && bits > 0 {
        agree_to(encoded, data, bits as int)
    } else {
        encoded.len() * 8 + bits == data.len() * 8 + expected && agree_to(
            encoded,
            data,
            if bits == 0 {
                8
            } else {
                bits as int
            },
        )
    }
}

/// How many bits of the last byte of a document count, none where all do.
pub open spec fn last_bits(d: TdmlDocumentModel) -> u8 {
    match d.last_byte_bit_count {
        Some(n) => n,
        None => 0,
    }
}

fn agree_up_to(a: &Vec<u8>, b: &Vec<u8>, k: u8) -> (r: bool)
    ensures
        r == agree_to(a@, b@, k as int),
{
    if a.len() != b.len() {
        return false;
    }
    let n: usize = a.len();
    if n == 0 {
        return true;
    }
    let mut i: usize = 0;
    while i < n - 1
        invariant
            i <= n - 1,
            n == a@.len(),
            n == b@.len(),
            forall|j: int| 0 <= j < i ==> a@[j] == b@[j],
        decreases n - 1 - i,
    {
        if a[i] != b[i] {
            assert(a@.drop_last()[i as int] != b@.drop_last()[i as int]);
            return false;
        }
        i += 1;
    }
    assert(a@.drop_last() =~= b@.drop_last());
    let u = unit_of(k);
    a[n - 1] / u == b[n - 1] / u
}

/// Whether bytes, with this many bits behind the last whole byte, are those of a
/// document.
pub fn encoded_matches_document(encoded: &Vec<u8>, bits: u8, d: &TdmlDocument) -> (r: bool)
    requires
        bits <= 8,
    ensures
        r == is_document(encoded@, bits, d@.data, last_bits(d@)),
{
    assert(d@.data =~= d.data@);
    let expected: u8 = match d.last_byte_bit_count {
        Some(n) => n,
        None => 0,
    };
    if expected == 0 && bits > 0 {
        return agree_up_to(encoded, &d.data, bits);
    }
    let a: u128 = encoded.len() as u128 * 8 + bits as u128;
    let b: u128 = d.data.len() as u128 * 8 + expected as u128;
    if a != b {
        return false;
    }
    if bits == 0 {
        agree_up_to(encoded, &d.data, 8)
    } else {
        agree_up_to(encoded, &d.data, bits)
    }
}

/// Whole bytes are a document of whole bytes when they are the same.
pub proof fn law_whole_bytes(encoded: Seq<u8>, data: Seq<u8>)
    ensures
        is_document(encoded, 0, data, 0) == (encoded == data),
{
    if is_document(encoded, 0, data, 0) {
        if encoded.len() > 0 {
            assert(encoded =~= encoded.drop_last().push(encoded.last()));
            assert(data =~= data.drop_last().push(data.last()));
        }
        assert(encoded =~= data);
    }
}

// Messages about bytes.
/// A hexadecimal digit in small letters.
pub open spec fn small_digit(n: int) -> char {
    if n < 10 {
        ('0' as int + n) as char
    } else {
        ('a' as int + (n - 10)) as char
    }
}

/// A byte in two hexadecimal digits.
pub open spec fn two_digits(b: u8) -> Seq<char> {
    seq![small_digit(b as int / 16), small_digit(b as int % 16)]
}

fn small_digit_of(n: u8) -> (r: char)
    requires
        n < 16,
    ensures
        r == small_digit(n as int),
{
    if n < 10 {
        (48 + n) as char
    } else {
        (87 + n) as char
    }
}

fn two_digits_text(b: u8) -> (r: String)
    ensures
        r@ == two_digits(b),
{
    let mut out: Vec<char> = Vec::new();
    out.push(small_digit_of(b / 16));
    out.push(small_digit_of(b % 16));
    assert(out@ =~= two_digits(b));
    string_of(out.as_slice())
}

/// Each byte in two hexadecimal digits.
pub open spec fn digit_texts(bytes: Seq<u8>) -> Seq<Seq<char>> {
    bytes.map(|i: int, b: u8| two_digits(b))
}

fn digit_list(bytes: &Vec<u8>) -> (r: Vec<String>)
    ensures
        r.deep_view() == digit_texts(bytes@),
{
    let mut out: Vec<String> = Vec::new();
    let mut i: usize = 0;
    while i < bytes.len()
        invariant
            i <= bytes@.len(),
            out.deep_view() =~= digit_texts(bytes@.take(i as int)),
        decreases bytes@.len() - i,
    {
        let ghost before = out.deep_view();
        let t = two_digits_text(bytes[i]);
        out.push(t);
        assert(out.deep_view() =~= before.push(t@));
        assert(bytes@.take(i + 1) =~= bytes@.take(i as int).push(bytes@[i as int]));
        i += 1;
    }
    assert(bytes@.take(bytes@.len() as int) =~= bytes@);
    out
}

/// Bytes in hexadecimal digits.
pub open spec fn preview(bytes: Seq<u8>) -> Seq<char> {
    text::joined(digit_texts(bytes), ""@)
}

/// Bytes in hexadecimal digits.
pub fn hex_preview(bytes: &Vec<u8>) -> (r: String)
    ensures
        r@ == preview(bytes@),
{
    let l = digit_list(bytes);
    join(&l, "")
}

/// Bytes in hexadecimal digits, as a list.
pub open spec fn byte_list(bytes: Seq<u8>) -> Seq<char> {
    "["@ + text::joined(digit_texts(bytes), ", "@) + "]"@
}

fn byte_list_text(bytes: &Vec<u8>) -> (r: String)
    ensures
        r@ == byte_list(bytes@),
{
    let l = digit_list(bytes);
    let j = join(&l, ", ");
    cat3("[", j.as_str(), "]")
}

fn decimal_text(n: u64) -> (r: String)
    ensures
        r@ == numbers::decimal(n as nat),
{
    let d = decimal_chars(n);
    string_of(d.as_slice())
}

/// Bytes as characters of the same numbers.
pub open spec fn as_latin(bytes: Seq<u8>) -> Seq<char> {
    bytes.map(|i: int, b: u8| b as char)
}

fn latin_chars(bytes: &Vec<u8>) -> (r: Vec<char>)
    ensures
        r@ == as_latin(bytes@),
{
    let mut out: Vec<char> = Vec::new();
    let mut i: usize = 0;
    while i < bytes.len()
        invariant
            i <= bytes@.len(),
            out@ =~= as_latin(bytes@.take(i as int)),
        decreases bytes@.len() - i,
    {
        out.push(bytes[i] as char);
        assert(bytes@.take(i + 1) =~= bytes@.take(i as int).push(bytes@[i as int]));
        i += 1;
    }
    assert(bytes@.take(bytes@.len() as int) =~= bytes@);
    out
}

/// How many bytes characters below 256 take up in UTF-8.
pub open spec fn utf8_len(bytes: Seq<u8>) -> nat
    decreases bytes.len(),
{
    if bytes.len() == 0 {
        0
    } else {
        utf8_len(bytes.drop_last()) + if bytes.last() < 128 {
            1nat
        } else {
            2nat
        }
    }
}

/// How many of the first `n` bytes can stand in a message of 100 bytes in UTF-8.
pub open spec fn shown_count(bytes: Seq<u8>, n: nat) -> nat
    decreases n,
{
    if n == 0 || utf8_len(bytes.take(n as int)) <= 100 {
        n
    } else {
        shown_count(bytes, (n - 1) as nat)
    }
}

/// Bytes as they stand in a message: as text in quotes, cut short where it is long.
pub open spec fn shown(bytes: Seq<u8>) -> Seq<char> {
    if bytes.len() == 0 {
        Seq::empty()
    } else {
        " for '"@ + (if utf8_len(bytes) <= 100 {
            as_latin(bytes)
        } else {
            as_latin(bytes).take(shown_count(bytes, bytes.len()) as int) + "..."@
        }) + "'"@
    }
}

proof fn lemma_utf8_len(bytes: Seq<u8>)
    ensures
        bytes.len() <= utf8_len(bytes) <= 2 * bytes.len(),
    decreases bytes.len(),
{
    if bytes.len() > 0 {
        lemma_utf8_len(bytes.drop_last());
    }
}

proof fn lemma_utf8_grows(bytes: Seq<u8>, i: int, j: int)
    requires
        0 <= i <= j <= bytes.len(),
    ensures
        utf8_len(bytes.take(i)) <= utf8_len(bytes.take(j)),
    decreases j - i,
{
    if i < j {
        lemma_utf8_grows(bytes, i, j - 1);
        assert(bytes.take(j).drop_last() =~= bytes.take(j - 1));
    }
}

proof fn lemma_shown_count(bytes: Seq<u8>, k: nat, n: nat)
    requires
        k <= n <= bytes.len(),
        utf8_len(bytes.take(k as int)) <= 100,
        k < n ==> utf8_len(bytes.take(k as int + 1)) > 100,
    ensures
        shown_count(bytes, n) == k,
    decreases n,
{
    if k < n {
        lemma_utf8_grows(bytes, k as int + 1, n as int);
        lemma_shown_count(bytes, k, (n - 1) as nat);
    }
}

fn utf8_size(bytes: &Vec<u8>) -> (r: u128)
    ensures
        r == utf8_len(bytes@),
{
    let mut n: u128 = 0;
    let mut i: usize = 0;
    assert(bytes@.take(0) =~= Seq::<u8>::empty());
    while i < bytes.len()
        invariant
            i <= bytes@.len(),
            n == utf8_len(bytes@.take(i as int)),
            n <= 2 * i,
        decreases bytes@.len() - i,
    {
        assert(bytes@.take(i + 1).drop_last() =~= bytes@.take(i as int));
        assert(bytes@.take(i + 1).last() == bytes@[i as int]);
        n = n + if bytes[i] < 128 {
            1
        } else {
            2
        };
        i += 1;
    }
    assert(bytes@.take(bytes@.len() as int) =~= bytes@);
    n
}

fn count_shown(bytes: &Vec<u8>) -> (r: usize)
    requires
        utf8_len(bytes@) > 100,
    ensures
        r == shown_count(bytes@, bytes@.len()),
        r <= bytes@.len(),
{
    let mut n: u32 = 0;
    let mut i: usize = 0;
    assert(bytes@.take(0) =~= Seq::<u8>::empty());
    while i < bytes.len()
        invariant
            i <= bytes@.len(),
            n == utf8_len(bytes@.take(i as int)),
            n <= 100,
            utf8_len(bytes@) > 100,
        decreases bytes@.len() - i,
    {
        assert(bytes@.take(i + 1).drop_last() =~= bytes@.take(i as int));
        assert(bytes@.take(i + 1).last() == bytes@[i as int]);
        let w: u32 = if bytes[i] < 128 {
            1
        } else {
            2
        };
        if n + w > 100 {
            proof {
                lemma_shown_count(bytes@, i as nat, bytes@.len());
            }
            return i;
        }
        n = n + w;
        i += 1;
    }
    assert(bytes@.take(bytes@.len() as int) =~= bytes@);
    i
}

fn shown_text(bytes: &Vec<u8>) -> (r: String)
    ensures
        r@ == shown(bytes@),
{
    if bytes.len() == 0 {
        return String::new();
    }
    let c = latin_chars(bytes);
    assert(c@.len() == bytes@.len());
    if utf8_size(bytes) <= 100 {
        let t = string_of(c.as_slice());
        cat3(" for '", t.as_str(), "'")
    } else {
        let k: usize = count_shown(bytes);
        assert(c@.subrange(0, k as int) =~= c@.take(k as int));
        let t = string_of(text::part(c.as_slice(), 0, k));
        let u = cat2(t.as_str(), "...");
        cat3(" for '", u.as_str(), "'")
    }
}

/// The first position from `i` on at which two lists of bytes differ.
pub open spec fn first_difference(a: Seq<u8>, b: Seq<u8>, i: nat) -> Option<nat>
    decreases a.len() - i,
{
    if i >= a.len() || i >= b.len() {
        None
    } else if a[i as int] != b[i as int] {
        Some(i)
    } else {
        first_difference(a, b, i + 1)
    }
}

fn find_difference(a: &Vec<u8>, b: &Vec<u8>) -> (r: Option<usize>)
    ensures
        match r {
            Some(i) => first_difference(a@, b@, 0) == Some(i as nat) && i < a@.len() && i
                < b@.len(),
            None => first_difference(a@, b@, 0) is None,
        },
{
    let mut i: usize = 0;
    while i < a.len() && i < b.len()
        invariant
            i <= a@.len(),
            i <= b@.len(),
            first_difference(a@, b@, 0) == first_difference(a@, b@, i as nat),
        decreases a@.len() - i,
    {
        if a[i] != b[i] {
            return Some(i);
        }
        i += 1;
    }
    None
}

/// The message for text that is not the one expected.
pub open spec fn text_difference(actual: Seq<u8>, expected: Seq<u8>) -> Seq<char> {
    if utf8_len(actual) != utf8_len(expected) {
        "output data length "@ + numbers::decimal(utf8_len(actual)) + shown(actual)
            + " doesn't match expected length "@ + numbers::decimal(utf8_len(expected))
            + shown(expected)
    } else {
        match first_difference(expected, actual, 0) {
            Some(i) => "Unparsed data differs at character "@ + numbers::decimal(i + 1)
                + ". Expected '"@ + seq![expected[i as int] as char] + "'. Actual was '"@ + seq![
                actual[i as int] as char,
            ] + "'. Expected data "@ + shown(expected) + ", actual data "@ + shown(actual),
            None => "TDML Error: data differs. Expected '"@ + as_latin(expected)
                + "'. Actual was '"@ + as_latin(actual) + "'."@,
        }
    }
}

fn char_text(b: u8) -> (r: String)
    ensures
        r@ == seq![b as char],
{
    let mut v: Vec<char> = Vec::new();
    v.push(b as char);
    assert(v@ =~= seq![b as char]);
    string_of(v.as_slice())
}

fn tdml_text_data_mismatch_message(actual: &Vec<u8>, expected: &Vec<u8>) -> (r: String)
    requires
        2 * actual@.len() < u64::MAX,
        2 * expected@.len() < u64::MAX,
    ensures
        r@ == text_difference(actual@, expected@),
{
    let a = shown_text(actual);
    let e = shown_text(expected);
    let m: u128 = utf8_size(actual);
    let n: u128 = utf8_size(expected);
    proof {
        lemma_utf8_len(actual@);
        lemma_utf8_len(expected@);
    }
    if m != n {
        let x = decimal_text(m as u64);
        let y = decimal_text(n as u64);
        return error::cat6(
            "output data length ",
            x.as_str(),
            a.as_str(),
            " doesn't match expected length ",
            y.as_str(),
            e.as_str(),
        );
    }
    match find_difference(expected, actual) {
        Some(i) => {
            let at = decimal_text(i as u64 + 1);
            let x = char_text(expected[i]);
            let y = char_text(actual[i]);
            let head = cat7(
                "Unparsed data differs at character ",
                at.as_str(),
                ". Expected '",
                x.as_str(),
                "'. Actual was '",
                y.as_str(),
                "'. Expected data ",
            );
            error::cat4(head.as_str(), e.as_str(), ", actual data ", a.as_str())
        },
        None => {
            let x = latin_chars(expected);
            let y = latin_chars(actual);
            let s = string_of(x.as_slice());
            let t = string_of(y.as_slice());
            cat5(
                "TDML Error: data differs. Expected '",
                s.as_str(),
                "'. Actual was '",
                t.as_str(),
                "'.",
            )
        },
    }
}

/// The message for bytes that are not those of a document.
pub open spec fn document_difference(actual: Seq<u8>, d: TdmlDocumentModel) -> Seq<char> {
    let expected = d.data;
    if actual == expected {
        "TDML Error: encoded document mismatch"@
    } else if d.kind == DocumentKind::Text {
        "TDML Error: "@ + text_difference(actual, expected)
    } else if actual.len() != expected.len() {
        "TDML Error: output data length "@ + numbers::decimal(actual.len()) + " for "@ + preview(
            actual,
        ) + " doesn't match expected length "@ + numbers::decimal(expected.len()) + " for "@
            + preview(expected)
    } else {
        match first_difference(expected, actual, 0) {
            Some(i) => "TDML Error: Unparsed data differs at byte "@ + numbers::decimal(i + 1)
                + ". Expected 0x"@ + two_digits(expected[i as int]) + ". Actual was 0x"@
                + two_digits(actual[i as int]) + "."@,
            None => "TDML Error: encoded document mismatch"@,
        }
    }
}

fn tdml_unparse_document_mismatch_message(actual: &Vec<u8>, d: &TdmlDocument) -> (r: String)
    requires
        2 * actual@.len() < u64::MAX,
        2 * d.data@.len() < u64::MAX,
    ensures
        r@ == document_difference(actual@, d@),
{
    assert(d@.data =~= d.data@);
    assert(actual.deep_view() =~= actual@);
    assert(d.data.deep_view() =~= d.data@);
    if actual.same(&d.data) {
        return owned("TDML Error: encoded document mismatch");
    }
    if d.kind == DocumentKind::Text {
        let m = tdml_text_data_mismatch_message(actual, &d.data);
        return cat2("TDML Error: ", m.as_str());
    }
    if actual.len() != d.data.len() {
        let x = decimal_text(actual.len() as u64);
        let y = decimal_text(d.data.len() as u64);
        let p = hex_preview(actual);
        let q = hex_preview(&d.data);
        return cat8(
            "TDML Error: output data length ",
            x.as_str(),
            " for ",
            p.as_str(),
            " doesn't match expected length ",
            y.as_str(),
            " for ",
            q.as_str(),
        );
    }
    match find_difference(&d.data, actual) {
        Some(i) => {
            let at = decimal_text(i as u64 + 1);
            let x = two_digits_text(d.data[i]);
            let y = two_digits_text(actual[i]);
            cat7(
                "TDML Error: Unparsed data differs at byte ",
                at.as_str(),
                ". Expected 0x",
                x.as_str(),
                ". Actual was 0x",
                y.as_str(),
                ".",
            )
        },
        None => owned("TDML Error: encoded document mismatch"),
    }
}

/// An error of the encoder with the path of the suite, where it does not name it.
pub open spec fn augmented(message: Seq<char>, ctx: TdmlResourceContextModel) -> Seq<char> {
    match ctx.tdml_resource_path {
        Some(p) => if text::contains_spec(message, p) {
            message
        } else {
            message + "\n"@ + p
        },
        None => message,
    }
}

fn augment_tdml_encode_error(message: &str, ctx: &TdmlResourceContext) -> (r: String)
    ensures
        r@ == augmented(message@, ctx@),
{
    match &ctx.tdml_resource_path {
        Some(p) => {
            let c = chars_of(message);
            if contains(c.as_slice(), p.as_str()) {
                owned(message)
            } else {
                cat3(message, "\n", p.as_str())
            }
        },
        None => owned(message),
    }
}

// Before the infoset is written.
/// Whether an error that is expected can come from the check of the infoset.
pub open spec fn about_infoset(e: Seq<char>) -> bool {
    let s = text::lower_spec(e);
    text::contains_spec(s, "element end"@) || text::contains_spec(s, "element start"@)
        || text::contains_spec(s, "expected element"@) || text::contains_spec(
        s,
        "expected one of"@,
    ) || text::contains_spec(s, "additional"@) || text::contains_spec(
        s,
        "schema definition error"@,
    ) || text::contains_spec(s, "no global element"@) || text::contains_spec(s, "not implemented"@)
}

fn is_about_infoset(e: &str) -> (r: bool)
    ensures
        r == about_infoset(e@),
{
    let c = chars_of(e);
    let l = lower(c.as_slice());
    let s = l.as_slice();
    contains(s, "element end") || contains(s, "element start") || contains(s, "expected element")
        || contains(s, "expected one of") || contains(s, "additional") || contains(
        s,
        "schema definition error",
    ) || contains(s, "no global element") || contains(s, "not implemented")
}

/// Whether some error that is expected can come from the check of the infoset.
pub open spec fn some_about_infoset(list: Seq<Seq<char>>) -> bool {
    exists|i: int| 0 <= i < list.len() && about_infoset(#[trigger] list[i])
}

fn any_about_infoset(list: &Vec<String>) -> (r: bool)
    ensures
        r == some_about_infoset(list.deep_view()),
{
    let mut i: usize = 0;
    while i < list.len()
        invariant
            i <= list@.len(),
            forall|k: int| 0 <= k < i ==> !about_infoset(#[trigger] list.deep_view()[k]),
        decreases list@.len() - i,
    {
        assert(list.deep_view()[i as int] == list@[i as int]@);
        if is_about_infoset(list[i].as_str()) {
            return true;
        }
        i += 1;
    }
    false
}

/// How an infoset is checked before it is written.
#[derive(Debug, Clone, Copy, PartialEq, Eq, Structural)]
pub enum InfosetCheck {
    Unchecked,
    Counts,
    CountsAndNames,
}

/// How the infoset of a test is checked.
pub open spec fn check_of(s: TdmlSuiteModel, test: UnparserTestCaseModel) -> InfosetCheck {
    if s.name == "ElementFormDefaultTest"@ {
        InfosetCheck::CountsAndNames
    } else {
        match test.expected_errors {
            None => InfosetCheck::Counts,
            Some(e) => if some_about_infoset(e) {
                InfosetCheck::CountsAndNames
            } else {
                InfosetCheck::Unchecked
            },
        }
    }
}

fn plan_check(s: &TdmlSuite, test: &UnparserTestCase) -> (r: InfosetCheck)
    ensures
        r == check_of(s@, test@),
{
    if eq(s.name.as_str(), "ElementFormDefaultTest") {
        return InfosetCheck::CountsAndNames;
    }
    match &test.expected_errors {
        None => InfosetCheck::Counts,
        Some(e) => if any_about_infoset(e) {
            InfosetCheck::CountsAndNames
        } else {
            InfosetCheck::Unchecked
        },
    }
}

/// Why the infoset of a test cannot be written.
pub open spec fn check_fault(
    how: InfosetCheck,
    c: CompiledSchemaModel,
    root: Seq<char>,
    nodes: Seq<InfosetNodeModel>,
) -> Option<Seq<char>> {
    match how {
        InfosetCheck::Unchecked => None,
        InfosetCheck::Counts => unparse_validate::infoset_fault(
            c.schema,
            c.program,
            root,
            nodes,
            false,
        ),
        InfosetCheck::CountsAndNames => unparse_validate::infoset_fault(
            c.schema,
            c.program,
            root,
            nodes,
            true,
        ),
    }
}

fn check_infoset(
    how: InfosetCheck,
    c: &CompiledSchema,
    root: &str,
    nodes: &Vec<InfosetNode>,
) -> (r: Result<(), String>)
    ensures
        compare::verdict(r) == check_fault(how, c@, root@, infoset::list_models(*nodes)),
{
    match how {
        InfosetCheck::Unchecked => Ok(()),
        InfosetCheck::Counts => validate_unparse_infoset_cardinality(
            &c.schema,
            &c.program,
            root,
            nodes,
        ),
        InfosetCheck::CountsAndNames => validate_unparse_infoset_nodes(
            &c.schema,
            &c.program,
            root,
            nodes,
        ),
    }
}

/// A value to write.
#[derive(Debug)]
pub struct EncodeTask {
    pub value: DfdlValue,
    /// Characters for private use are written in UTF-8.
    pub private_use_as_utf8: bool,
    /// The order of bits and the length of each part, where there are parts.
    pub regions: Option<Vec<(BitOrder, u64)>>,
}

/// What an [`EncodeTask`] holds.
#[verifier::ext_equal]
pub struct EncodeTaskModel {
    pub value: DfdlValueModel,
    pub private_use_as_utf8: bool,
    pub regions: Option<Seq<(BitOrder, u64)>>,
}

impl View for EncodeTask {
    type V = EncodeTaskModel;

    open spec fn view(&self) -> EncodeTaskModel {
        EncodeTaskModel {
            value: self.value@,
            private_use_as_utf8: self.private_use_as_utf8,
            regions: self.regions.deep_view(),
        }
    }
}

/// How a value is written for a test with these documents.
pub open spec fn encode_task(v: DfdlValueModel, documents: Seq<TdmlDocumentModel>) -> EncodeTaskModel {
    if documents.len() == 0 {
        EncodeTaskModel { value: v, private_use_as_utf8: false, regions: None }
    } else {
        let d = documents[0];
        EncodeTaskModel {
            value: v,
            private_use_as_utf8: d.kind == DocumentKind::Text && d.file_resource is None,
            regions: if d.part_bit_order_regions.len() == 0 {
                None
            } else {
                Some(d.part_bit_order_regions)
            },
        }
    }
}

fn tdml_encode_runtime_config(value: DfdlValue, test: &UnparserTestCase) -> (r: EncodeTask)
    ensures
        r@ == encode_task(value@, test@.documents),
{
    assert(test@.documents.len() == test.documents@.len());
    if test.documents.len() == 0 {
        return EncodeTask { value, private_use_as_utf8: false, regions: None };
    }
    let d = &test.documents[0];
    assert(test@.documents[0] == d@);
    assert(d@.part_bit_order_regions.len() == d.part_bit_order_regions@.len());
    let regions = if d.part_bit_order_regions.len() == 0 {
        None
    } else {
        Some(d.part_bit_order_regions.copy())
    };
    EncodeTask {
        value,
        private_use_as_utf8: d.kind == DocumentKind::Text && d.file_resource.is_none(),
        regions,
    }
}

/// What a test comes to because of its schema.
pub open spec fn refusal_verdict(test: UnparserTestCaseModel, c: CompiledSchemaModel) -> Option<
    TestOutcomeModel,
> {
    match (test.expected_errors, c.entity_limit, c.unparse_refusal) {
        (Some(e), Some(m), _) => Some(
            common::expected_verdict(e, m, "encode error mismatch: "@),
        ),
        (Some(e), None, Some(m)) => Some(
            common::expected_verdict(e, m, "encode error mismatch: "@),
        ),
        (None, _, Some(m)) => Some(TestOutcomeModel::Fail("encode error: "@ + m)),
        _ => None,
    }
}

fn judge_refusal(test: &UnparserTestCase, c: &CompiledSchema) -> (r: Option<TestOutcome>)
    ensures
        (match r {
            Some(o) => Some(o@),
            None => None,
        }) == refusal_verdict(test@, c@),
{
    match &test.expected_errors {
        Some(e) => {
            if let Some(m) = &c.entity_limit {
                return Some(judge_expected(e, m.as_str(), "encode error mismatch: "));
            }
            if let Some(m) = &c.unparse_refusal {
                return Some(judge_expected(e, m.as_str(), "encode error mismatch: "));
            }
            None
        },
        None => {
            if let Some(m) = &c.unparse_refusal {
                return Some(TestOutcome::Fail(cat2("encode error: ", m.as_str())));
            }
            None
        },
    }
}

/// The value to write for a test whose schema compiles, or what the test comes to
/// without that.
pub open spec fn planned_encode(
    s: TdmlSuiteModel,
    test: UnparserTestCaseModel,
    c: CompiledSchemaModel,
) -> Result<EncodeTaskModel, TestOutcomeModel> {
    match infoset::expected_nodes(test.infoset, s.resource_context) {
        Err(e) => Err(TestOutcomeModel::Fail("infoset parse error: "@ + e)),
        Ok(nodes) => match check_fault(check_of(s, test), c, test.root, nodes) {
            Some(m) => Err(
                common::error_verdict(
                    test.expected_errors,
                    m,
                    "encode error mismatch: "@,
                    "encode error: "@,
                ),
            ),
            None => match infoset_values::root_value_of(Ok(nodes), test.root, c.program) {
                Err(e) => Err(TestOutcomeModel::Fail("infoset parse error: "@ + e)),
                Ok(v) => match refusal_verdict(test, c) {
                    Some(o) => Err(o),
                    None => Ok(encode_task(v, test.documents)),
                },
            },
        },
    }
}

/// A value to write, or what the test comes to without that.
pub open spec fn encode_view(r: Result<EncodeTask, TestOutcome>) -> Result<
    EncodeTaskModel,
    TestOutcomeModel,
> {
    match r {
        Ok(t) => Ok(t@),
        Err(o) => Err(o@),
    }
}

/// The value to write for a test whose schema compiles, or what the test comes to
/// without that.
pub fn plan_encode(s: &TdmlSuite, test: &UnparserTestCase, c: &CompiledSchema) -> (r: Result<
    EncodeTask,
    TestOutcome,
>)
    ensures
        encode_view(r) == planned_encode(s@, test@, c@),
{
    let nodes = match parse_expected_infoset_with_target_ns(
        test.infoset.as_str(),
        &s.resource_context,
        None,
    ) {
        Ok(n) => n,
        Err(e) => {
            return Err(TestOutcome::Fail(cat2("infoset parse error: ", e.as_str())));
        },
    };
    let how = plan_check(s, test);
    if let Err(m) = check_infoset(how, c, test.root.as_str(), &nodes) {
        return Err(
            judge_error(
                &test.expected_errors,
                m.as_str(),
                "encode error mismatch: ",
                "encode error: ",
            ),
        );
    }
    let value = match infoset_nodes_to_root_value(&nodes, test.root.as_str(), &c.program) {
        Ok(v) => v,
        Err(e) => {
            return Err(TestOutcome::Fail(cat2("infoset parse error: ", e.as_str())));
        },
    };
    if let Some(o) = judge_refusal(test, c) {
        return Err(o);
    }
    Ok(tdml_encode_runtime_config(value, test))
}

// After the value was written.
/// Bytes that were written, with the number of bits behind the last whole byte.
#[derive(Debug)]
pub struct EncodedDocument {
    pub bytes: Vec<u8>,
    pub bits: u8,
}

/// Bytes that were written, or why there are none.
pub open spec fn encoded_view(r: Result<EncodedDocument, String>) -> Result<
    (Seq<u8>, u8),
    Seq<char>,
> {
    match r {
        Ok(e) => Ok((e.bytes@, e.bits)),
        Err(e) => Err(e@),
    }
}

/// Why what was written is not the document of a test.
pub open spec fn difference(
    documents: Seq<TdmlDocumentModel>,
    bytes: Seq<u8>,
    bits: u8,
) -> Option<TdmlDocumentModel> {
    if documents.len() == 0 || is_document(
        bytes,
        bits,
        documents[0].data,
        last_bits(documents[0]),
    ) {
        None
    } else {
        Some(documents[0])
    }
}

/// An optional number as programmers write it.
pub open spec fn optional_number(n: Option<u8>) -> Seq<char> {
    match n {
        Some(v) => "Some("@ + numbers::decimal(v as nat) + ")"@,
        None => "None"@,
    }
}

fn optional_number_text(n: Option<u8>) -> (r: String)
    ensures
        r@ == optional_number(n),
{
    match n {
        Some(v) => {
            let d = decimal_text(v as u64);
            cat3("Some(", d.as_str(), ")")
        },
        None => owned("None"),
    }
}

/// What a test comes to once its value was written.
pub open spec fn encoded_verdict(
    s: TdmlSuiteModel,
    test: UnparserTestCaseModel,
    encoded: Result<(Seq<u8>, u8), Seq<char>>,
) -> TestOutcomeModel {
    let mismatch = "encode error mismatch: "@;
    match (test.expected_errors, encoded) {
        (Some(e), Err(m)) => common::expected_verdict(
            e,
            augmented(m, s.resource_context),
            mismatch,
        ),
        (Some(e), Ok((bytes, bits))) => match difference(test.documents, bytes, bits) {
            Some(d) => common::expected_verdict(e, document_difference(bytes, d), mismatch),
            None => TestOutcomeModel::Fail(common::no_error_message("encode"@, e)),
        },
        (None, Err(m)) => TestOutcomeModel::Fail("encode error: "@ + m),
        (None, Ok((bytes, bits))) => match difference(test.documents, bytes, bits) {
            Some(d) => TestOutcomeModel::Fail(
                "encoded document mismatch: got "@ + byte_list(bytes) + " ("@ + numbers::decimal(
                    bits as nat,
                ) + " trailing bits), expected "@ + byte_list(d.data) + " ("@ + optional_number(
                    d.last_byte_bit_count,
                ) + " trailing bits)"@,
            ),
            None => TestOutcomeModel::Pass,
        },
    }
}

/// What was written has bits of at most one byte behind it, and its length can be
/// counted, as can those of the documents of a test.
pub open spec fn plausible(test: UnparserTestCase, encoded: Result<EncodedDocument, String>) -> bool {
    &&& encoded matches Ok(e) ==> e.bits <= 8 && 2 * e.bytes@.len() < u64::MAX
    &&& forall|i: int|
        0 <= i < test.documents@.len() ==> 2 * (#[trigger] test.documents@[i]).data@.len()
            < u64::MAX
}

fn differs(test: &UnparserTestCase, e: &EncodedDocument) -> (r: bool)
    requires
        e.bits <= 8,
    ensures
        r == (difference(test@.documents, e.bytes@, e.bits) is Some),
{
    assert(test@.documents.len() == test.documents@.len());
    if test.documents.len() == 0 {
        return false;
    }
    assert(test@.documents[0] == test.documents@[0]@);
    !encoded_matches_document(&e.bytes, e.bits, &test.documents[0])
}

/// What a test comes to once its value was written.
pub fn judge_encoded(
    s: &TdmlSuite,
    test: &UnparserTestCase,
    encoded: &Result<EncodedDocument, String>,
) -> (r: TestOutcome)
    requires
        plausible(*test, *encoded),
    ensures
        r@ == encoded_verdict(s@, test@, encoded_view(*encoded)),
{
    assert(test@.documents.len() == test.documents@.len());
    match (&test.expected_errors, encoded) {
        (Some(e), Err(m)) => {
            let a = augment_tdml_encode_error(m.as_str(), &s.resource_context);
            judge_expected(e, a.as_str(), "encode error mismatch: ")
        },
        (Some(e), Ok(x)) => {
            if differs(test, x) {
                assert(test@.documents[0] == test.documents@[0]@);
                let m = tdml_unparse_document_mismatch_message(&x.bytes, &test.documents[0]);
                judge_expected(e, m.as_str(), "encode error mismatch: ")
            } else {
                TestOutcome::Fail(no_error_text("encode", e))
            }
        },
        (None, Err(m)) => TestOutcome::Fail(cat2("encode error: ", m.as_str())),
        (None, Ok(x)) => {
            if differs(test, x) {
                let d = &test.documents[0];
                assert(test@.documents[0] == d@);
                assert(d@.data =~= d.data@);
                let got = byte_list_text(&x.bytes);
                let b = decimal_text(x.bits as u64);
                let want = byte_list_text(&d.data);
                let o = optional_number_text(d.last_byte_bit_count);
                let head = cat5(
                    "encoded document mismatch: got ",
                    got.as_str(),
                    " (",
                    b.as_str(),
                    " trailing bits), expected ",
                );
                TestOutcome::Fail(
                    cat5(head.as_str(), want.as_str(), " (", o.as_str(), " trailing bits)"),
                )
            } else {
                TestOutcome::Pass
            }
        },
    }
}

// The whole test.
/// What was done for a test so far.
#[derive(Debug)]
pub struct UnparserProgress {
    pub compiled: Option<Result<CompiledSchema, String>>,
    pub encoded: Option<Result<EncodedDocument, String>>,
}

/// What an [`UnparserProgress`] holds, its text as character sequences.
#[verifier::ext_equal]
pub struct UnparserProgressModel {
    pub compiled: Option<Result<CompiledSchemaModel, Seq<char>>>,
    pub encoded: Option<Result<(Seq<u8>, u8), Seq<char>>>,
}

impl View for UnparserProgress {
    type V = UnparserProgressModel;

    open spec fn view(&self) -> UnparserProgressModel {
        UnparserProgressModel {
            compiled: match self.compiled {
                Some(Ok(c)) => Some(Ok(c@)),
                Some(Err(e)) => Some(Err(e@)),
                None => None,
            },
            encoded: match self.encoded {
                Some(e) => Some(encoded_view(e)),
                None => None,
            },
        }
    }
}

impl UnparserProgress {
    /// Nothing was done.
    pub fn new() -> (r: Self)
        ensures
            r@.compiled is None,
            r@.encoded is None,
    {
        UnparserProgress { compiled: None, encoded: None }
    }
}

/// What is to be done next for a test.
#[derive(Debug)]
pub enum UnparserAction {
    /// Compile the schema.
    Compile(CompileTask),
    /// Write the value.
    Encode(EncodeTask),
    /// Nothing: the test has come to this.
    Finish(TestOutcome),
}

/// What an [`UnparserAction`] holds, its text as character sequences.
#[verifier::ext_equal]
pub enum UnparserActionModel {
    Compile(CompileTaskModel),
    Encode(EncodeTaskModel),
    Finish(TestOutcomeModel),
}

impl View for UnparserAction {
    type V = UnparserActionModel;

    open spec fn view(&self) -> UnparserActionModel {
        match self {
            UnparserAction::Compile(t) => UnparserActionModel::Compile(t@),
            UnparserAction::Encode(t) => UnparserActionModel::Encode(t@),
            UnparserAction::Finish(o) => UnparserActionModel::Finish(o@),
        }
    }
}

/// What is to be done next for a test.
pub open spec fn next_action(
    s: TdmlSuiteModel,
    r: SchemaResolverModel,
    test: UnparserTestCaseModel,
    p: UnparserProgressModel,
) -> UnparserActionModel {
    match common::compile_task(s, r, test.model, test.root, test.config) {
        Err(o) => UnparserActionModel::Finish(o),
        Ok(task) => match p.compiled {
            None => UnparserActionModel::Compile(task),
            Some(Err(e)) => UnparserActionModel::Finish(
                common::compile_verdict(test.expected_errors, e),
            ),
            Some(Ok(c)) => match planned_encode(s, test, c) {
                Err(o) => UnparserActionModel::Finish(o),
                Ok(t) => match p.encoded {
                    None => UnparserActionModel::Encode(t),
                    Some(e) => UnparserActionModel::Finish(encoded_verdict(s, test, e)),
                },
            },
        },
    }
}

/// What is to be done next for a test that unparses, by what was done so far.
pub fn run_unparser_test(
    s: &TdmlSuite,
    resolver: &SchemaResolver,
    test: &UnparserTestCase,
    progress: &UnparserProgress,
) -> (r: UnparserAction)
    requires
        progress.encoded matches Some(e) ==> plausible(*test, e),
    ensures
        r@ == next_action(s@, resolver@, test@, progress@),
{
    let task = match plan_compile(
        s,
        resolver,
        test.model.as_str(),
        test.root.as_str(),
        &test.config,
    ) {
        Ok(task) => task,
        Err(o) => {
            return UnparserAction::Finish(o);
        },
    };
    let c = match &progress.compiled {
        None => {
            return UnparserAction::Compile(task);
        },
        Some(Err(e)) => {
            return UnparserAction::Finish(
                judge_compile_error(&test.expected_errors, e.as_str()),
            );
        },
        Some(Ok(c)) => c,
    };
    let t = match plan_encode(s, test, c) {
        Ok(t) => t,
        Err(o) => {
            return UnparserAction::Finish(o);
        },
    };
    match &progress.encoded {
        None => UnparserAction::Encode(t),
        Some(e) => UnparserAction::Finish(judge_encoded(s, test, e)),
    }
}

/// Once everything was done, a test has come to something.
pub proof fn law_done_is_finished(
    s: TdmlSuiteModel,
    r: SchemaResolverModel,
    test: UnparserTestCaseModel,
    p: UnparserProgressModel,
)
    requires
        p.compiled is Some,
        p.encoded is Some,
    ensures
        next_action(s, r, test, p) is Finish,
{
}

/// A test that expects no error passes only where its infoset makes a value and
/// what is written of it is the first document, where there is one.
pub proof fn law_pass_is_earned(
    s: TdmlSuiteModel,
    r: SchemaResolverModel,
    test: UnparserTestCaseModel,
    p: UnparserProgressModel,
)
    requires
        next_action(s, r, test, p) == UnparserActionModel::Finish(TestOutcomeModel::Pass),
        test.expected_errors is None,
    ensures
        p.compiled matches Some(Ok(c)) && c.unparse_refusal is None,
        p.encoded matches Some(Ok((bytes, bits))) && (test.documents.len() > 0 ==> is_document(
            bytes,
            bits,
            test.documents[0].data,
            last_bits(test.documents[0]),
        )),
        infoset::expected_nodes(test.infoset, s.resource_context) is Ok,
{
}

/// A test that expects no error, whose value is written to other bytes than those
/// of its document, fails; one whose value is written to just those bytes passes.
pub proof fn law_written_bytes_decide(
    s: TdmlSuiteModel,
    r: SchemaResolverModel,
    test: UnparserTestCaseModel,
    p: UnparserProgressModel,
    c: CompiledSchemaModel,
    bytes: Seq<u8>,
)
    requires
        common::compile_task(s, r, test.model, test.root, test.config) is Ok,
        p.compiled == Some(Ok::<CompiledSchemaModel, Seq<char>>(c)),
        planned_encode(s, test, c) is Ok,
        test.expected_errors is None,
        test.documents.len() > 0,
        last_bits(test.documents[0]) == 0,
        p.encoded == Some(Ok::<(Seq<u8>, u8), Seq<char>>((bytes, 0u8))),
    ensures
        next_action(s, r, test, p) is Finish,
        bytes == test.documents[0].data ==> next_action(s, r, test, p)->Finish_0 is Pass,
        bytes != test.documents[0].data ==> next_action(s, r, test, p)->Finish_0 is Fail,
{
    law_whole_bytes(bytes, test.documents[0].data);
}

/// A test that expects an error does not pass where its value is written to the
/// document.
pub proof fn law_error_must_come(
    s: TdmlSuiteModel,
    r: SchemaResolverModel,
    test: UnparserTestCaseModel,
    p: UnparserProgressModel,
    c: CompiledSchemaModel,
    bytes: Seq<u8>,
)
    requires
        common::compile_task(s, r, test.model, test.root, test.config) is Ok,
        p.compiled == Some(Ok::<CompiledSchemaModel, Seq<char>>(c)),
        planned_encode(s, test, c) is Ok,
        test.expected_errors is Some,
        p.encoded == Some(Ok::<(Seq<u8>, u8), Seq<char>>((bytes, 0u8))),
        test.documents.len() > 0 ==> last_bits(test.documents[0]) == 0 && bytes
            == test.documents[0].data,
    ensures
        next_action(s, r, test, p) is Finish,
        next_action(s, r, test, p)->Finish_0 is Fail,
{
    if test.documents.len() > 0 {
        law_whole_bytes(bytes, test.documents[0].data);
    }
}

/// An error of the compiler or of the writer lets a test fail that expects none.
pub proof fn law_unexpected_error_fails(
    s: TdmlSuiteModel,
    r: SchemaResolverModel,
    test: UnparserTestCaseModel,
    p: UnparserProgressModel,
)
    requires
        test.expected_errors is None,
        p.compiled matches Some(x) && (x is Err || (p.encoded matches Some(y) && y is Err)),
    ensures
        next_action(s, r, test, p) is Finish,
        next_action(s, r, test, p)->Finish_0 is Fail,
{
}

/// The value that is written is the one that the infoset of the test makes.
pub proof fn law_infoset_is_written(
    s: TdmlSuiteModel,
    r: SchemaResolverModel,
    test: UnparserTestCaseModel,
    p: UnparserProgressModel,
)
    requires
        next_action(s, r, test, p) is Encode,
    ensures
        p.compiled matches Some(Ok(c)) && infoset_values::root_value_of(
            infoset::expected_nodes(test.infoset, s.resource_context),
            test.root,
            c.program,
        ) == Ok::<DfdlValueModel, Seq<char>>(next_action(s, r, test, p)->Encode_0.value),
{
}

/// Documents of different lengths in bits are told apart.
pub proof fn law_lengths_count(encoded: Seq<u8>, bits: u8, data: Seq<u8>, expected: u8)
    requires
        is_document(encoded, bits, data, expected),
    ensures
        encoded.len() == data.len(),
        expected > 0 ==> bits == expected,
        forall|i: int| 0 <= i < encoded.len() - 1 ==> encoded[i] == data[i],
{
    if encoded.len() > 0 {
        assert forall|i: int| 0 <= i < encoded.len() - 1 implies encoded[i] == data[i] by {
            assert(encoded.drop_last()[i] == data.drop_last()[i]);
        }
    }
}

} // verus!
