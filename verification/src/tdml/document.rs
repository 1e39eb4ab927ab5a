//! The documents of TDML tests: parts of text, of hexadecimal digits and of bits.

use vstd::prelude::*;
use crate::ast::BitOrder;
use crate::encoding;
use crate::encoding::{bits_charset_width, encode_document_text};
use crate::entities;
use crate::entities::expand_entities_str;
use crate::error;
use crate::error::{cat2, cat3, invalid_xml, Error, ErrorModel};
use crate::qname::opt_str;
use crate::strmap;
use crate::tdml::bits;
use crate::tdml::bits::{
    append_bytes_as_msb_bits, assemble_tdml_document_bytes, bit_chunks_for_part,
    bytes_to_bit_strings, collect_bit_digits_from_text, pack_bits_msb_first, parse_hex_document,
    DocumentBitOrder, DocumentByteOrder,
};
use crate::tdml::suite::{DocumentKind, TdmlDocument, TdmlDocumentModel};
use crate::text;
use crate::text::{chars_of, eq, string_of, trim};
use crate::values;
use crate::values::{owned, Duplicate};
use crate::xml;
use crate::xml::{XmlElement, XmlElementModel, XmlNode, XmlNodeModel};
use crate::xsd::nodes;
use crate::xsd::nodes::{expect_end, find_flaw, read_simple_element_text, skip_blank};

verus! {

broadcast use vstd::string::group_string_axioms;

/// A part of a document.
#[derive(Debug)]
pub struct ParsedDocumentPart {
    pub kind: DocumentKind,
    pub data: Vec<u8>,
    pub file_resource: Option<String>,
    pub last_byte_bit_count: Option<u8>,
    /// The digits of a part made of bits, in groups.
    pub bit_chunks: Option<Vec<String>>,
    /// The digits of a part made of text, in groups.
    pub data_bit_chunks: Option<Vec<String>>,
    pub bit_order: DocumentBitOrder,
    pub explicit_bit_order: bool,
    pub byte_order: DocumentByteOrder,
    pub length_in_bits: u64,
}

/// What a [`ParsedDocumentPart`] holds, its text as character sequences.
#[verifier::ext_equal]
pub struct ParsedDocumentPartModel {
    pub kind: DocumentKind,
    pub data: Seq<u8>,
    pub file_resource: Option<Seq<char>>,
    pub last_byte_bit_count: Option<u8>,
    pub bit_chunks: Option<Seq<Seq<char>>>,
    pub data_bit_chunks: Option<Seq<Seq<char>>>,
    pub bit_order: DocumentBitOrder,
    pub explicit_bit_order: bool,
    pub byte_order: DocumentByteOrder,
    pub length_in_bits: u64,
}

impl DeepView for ParsedDocumentPart {
    type V = ParsedDocumentPartModel;

    open spec fn deep_view(&self) -> ParsedDocumentPartModel {
        ParsedDocumentPartModel {
            kind: self.kind,
            data: self.data.deep_view(),
            file_resource: self.file_resource.deep_view(),
            last_byte_bit_count: self.last_byte_bit_count,
            bit_chunks: self.bit_chunks.deep_view(),
            data_bit_chunks: self.data_bit_chunks.deep_view(),
            bit_order: self.bit_order,
            explicit_bit_order: self.explicit_bit_order,
            byte_order: self.byte_order,
            length_in_bits: self.length_in_bits,
        }
    }
}

impl View for ParsedDocumentPart {
    type V = ParsedDocumentPartModel;

    open spec fn view(&self) -> ParsedDocumentPartModel {
        self.deep_view()
    }
}

/// The value of an attribute.
pub open spec fn attr(e: XmlElementModel, name: Seq<char>) -> Option<Seq<char>> {
    strmap::lookup(e.attributes, name)
}

/// The value of an attribute.
pub fn attr_of<'a>(e: &'a XmlElement, name: &str) -> (r: Option<&'a str>)
    ensures
        text::ref_opt(r) == attr(e@, name@),
{
    match e.attributes.get(name) {
        Some(v) => Some(v.as_str()),
        None => None,
    }
}

/// Whether an attribute has this value.
pub fn attr_is(e: &XmlElement, name: &str, value: &str) -> (r: bool)
    ensures
        r == (attr(e@, name@) == Some(value@)),
{
    match attr_of(e, name) {
        Some(v) => eq(v, value),
        None => false,
    }
}

/// The order of bits that an attribute states.
pub open spec fn bit_order_named(value: Seq<char>) -> Result<DocumentBitOrder, ErrorModel> {
    if value == "MSBFirst"@ {
        Ok(DocumentBitOrder::MsbFirst)
    } else if value == "LSBFirst"@ {
        Ok(DocumentBitOrder::LsbFirst)
    } else {
        Err(ErrorModel::InvalidXml("unknown document bitOrder `"@ + value + "`"@))
    }
}

/// The order of bits that an attribute states.
pub fn parse_document_bit_order(value: &str) -> (r: Result<DocumentBitOrder, Error>)
    ensures
        error::outcome(r) == bit_order_named(value@),
{
    if eq(value, "MSBFirst") {
        Ok(DocumentBitOrder::MsbFirst)
    } else if eq(value, "LSBFirst") {
        Ok(DocumentBitOrder::LsbFirst)
    } else {
        Err(invalid_xml(cat3("unknown document bitOrder `", value, "`")))
    }
}

/// The order of bits of an element: its own, or else the one that holds around it.
pub open spec fn bit_order_in(e: XmlElementModel, default: DocumentBitOrder) -> Result<
    DocumentBitOrder,
    ErrorModel,
> {
    match attr(e, "bitOrder"@) {
        Some(v) => bit_order_named(v),
        None => Ok(default),
    }
}

fn bit_order_of(e: &XmlElement, default: DocumentBitOrder) -> (r: Result<DocumentBitOrder, Error>)
    ensures
        error::outcome(r) == bit_order_in(e@, default),
{
    match attr_of(e, "bitOrder") {
        Some(v) => parse_document_bit_order(v),
        None => Ok(default),
    }
}

/// A document's order of bits as that of a stream.
pub open spec fn transmission(order: DocumentBitOrder) -> BitOrder {
    match order {
        DocumentBitOrder::LsbFirst => BitOrder::LeastSignificantBitFirst,
        DocumentBitOrder::MsbFirst => BitOrder::MostSignificantBitFirst,
    }
}

/// A document's order of bits as that of a stream.
pub fn document_bit_order_to_transmission(order: DocumentBitOrder) -> (r: BitOrder)
    ensures
        r == transmission(order),
{
    match order {
        DocumentBitOrder::LsbFirst => BitOrder::LeastSignificantBitFirst,
        DocumentBitOrder::MsbFirst => BitOrder::MostSignificantBitFirst,
    }
}

// The orders of the parts of a document.
/// The order of bits that holds for a document: its own, or the one on which all
/// its parts agree.
pub open spec fn common_order(
    default: DocumentBitOrder,
    stated: bool,
    parts: Seq<(DocumentBitOrder, u64, bool)>,
) -> DocumentBitOrder {
    if !stated && parts.len() > 0 && (forall|i: int|
        0 <= i < parts.len() ==> (#[trigger] parts[i]).0 == parts[0].0) {
        parts[0].0
    } else {
        default
    }
}

/// The order of bits that holds for a document.
pub fn effective_document_bit_order(
    document_default: DocumentBitOrder,
    from_document_attr: bool,
    parts: &[(DocumentBitOrder, u64, bool)],
) -> (r: DocumentBitOrder)
    ensures
        r == common_order(document_default, from_document_attr, parts@),
{
    if from_document_attr || parts.len() == 0 {
        return document_default;
    }
    let first = parts[0].0;
    let mut i: usize = 0;
    while i < parts.len()
        invariant
            i <= parts@.len(),
            parts@.len() > 0,
            first == parts@[0].0,
            forall|k: int| 0 <= k < i ==> (#[trigger] parts@[k]).0 == first,
        decreases parts@.len() - i,
    {
        if parts[i].0 != first {
            assert(parts@[i as int].0 != parts@[0].0);
            return document_default;
        }
        i += 1;
    }
    first
}

/// Whether a part states this order of bits.
pub open spec fn states(
    parts: Seq<(DocumentBitOrder, u64, bool)>,
    order: DocumentBitOrder,
) -> bool {
    exists|i: int| 0 <= i < parts.len() && (#[trigger] parts[i]).2 && parts[i].0 == order
}

/// Parts that state both orders do so only in a document that states one.
pub fn check_explicit_part_bit_order_mixture(
    from_document_attr: bool,
    parts: &[(DocumentBitOrder, u64, bool)],
) -> (r: Result<(), Error>)
    ensures
        if !from_document_attr && states(parts@, DocumentBitOrder::LsbFirst) && states(
            parts@,
            DocumentBitOrder::MsbFirst,
        ) {
            r matches Err(x) && x@ == ErrorModel::InvalidXml(
                "Must specify bitOrder on document element when parts have a mixture of bit orders."@,
            )
        } else {
            r is Ok
        },
{
    if from_document_attr {
        return Ok(());
    }
    let mut saw_lsb: bool = false;
    let mut saw_msb: bool = false;
    let mut i: usize = 0;
    while i < parts.len()
        invariant
            i <= parts@.len(),
            saw_lsb == (exists|k: int|
                0 <= k < i && (#[trigger] parts@[k]).2 && parts@[k].0
                    == DocumentBitOrder::LsbFirst),
            saw_msb == (exists|k: int|
                0 <= k < i && (#[trigger] parts@[k]).2 && parts@[k].0
                    == DocumentBitOrder::MsbFirst),
        decreases parts@.len() - i,
    {
        let (order, _, explicit) = parts[i];
        assert(parts@[i as int] == parts@[i as int]);
        if explicit {
            match order {
                DocumentBitOrder::LsbFirst => {
                    saw_lsb = true;
                },
                DocumentBitOrder::MsbFirst => {
                    saw_msb = true;
                },
            }
        }
        i += 1;
    }
    if saw_lsb && saw_msb {
        return Err(
            invalid_xml(
                owned(
                    "Must specify bitOrder on document element when parts have a mixture of bit orders.",
                ),
            ),
        );
    }
    Ok(())
}

/// The number of bits in parts.
pub open spec fn bits_in_parts(parts: Seq<(DocumentBitOrder, u64, bool)>) -> nat
    decreases parts.len(),
{
    if parts.len() == 0 {
        0
    } else {
        bits_in_parts(parts.drop_last()) + parts.last().1 as nat
    }
}

/// Whether the order of bits changes at part `i`, inside a byte.
pub open spec fn breaks_byte(parts: Seq<(DocumentBitOrder, u64, bool)>, i: int) -> bool {
    parts[i].0 != parts[i - 1].0 && bits_in_parts(parts.take(i)) % 8 != 0
}

/// Whether the order of bits changes inside a byte.
pub open spec fn changes_inside_byte(parts: Seq<(DocumentBitOrder, u64, bool)>) -> bool {
    exists|i: int| 1 <= i < parts.len() && #[trigger] breaks_byte(parts, i)
}

/// The order of bits changes only between bytes.
pub fn check_document_part_bit_order_transitions(
    parts: &[(DocumentBitOrder, u64, bool)],
) -> (r: Result<(), Error>)
    ensures
        if changes_inside_byte(parts@) {
            r matches Err(x) && x@ == ErrorModel::InvalidXml(
                "bitOrder can only change on a byte boundary."@,
            )
        } else {
            r is Ok
        },
{
    let mut over: u64 = 0;
    let mut i: usize = 0;
    assert(parts@.take(0) =~= Seq::<(DocumentBitOrder, u64, bool)>::empty());
    while i < parts.len()
        invariant
            i <= parts@.len(),
            over < 8,
            over == bits_in_parts(parts@.take(i as int)) % 8,
            forall|k: int| 1 <= k < i ==> !#[trigger] breaks_byte(parts@, k),
        decreases parts@.len() - i,
    {
        let (order, len, _) = parts[i];
        if i > 0 && parts[i - 1].0 != order && over != 0 {
            assert(breaks_byte(parts@, i as int));
            return Err(invalid_xml(owned("bitOrder can only change on a byte boundary.")));
        }
        assert(parts@.take(i + 1).drop_last() =~= parts@.take(i as int));
        over = (over + len % 8) % 8;
        i += 1;
    }
    Ok(())
}

// Reading a part.
/// The last `width` binary digits of a number.
pub open spec fn code_digits(code: nat, width: nat) -> Seq<char>
    decreases width,
{
    if width == 0 {
        Seq::empty()
    } else {
        code_digits(code / 2, (width - 1) as nat).push(
            if code % 2 == 1 {
                '1'
            } else {
                '0'
            },
        )
    }
}

fn code_chars(code: u32, width: usize) -> (r: Vec<char>)
    ensures
        r@ == code_digits(code as nat, width as nat),
    decreases width,
{
    if width == 0 {
        return Vec::new();
    }
    let mut out = code_chars(code / 2, width - 1);
    out.push(
        if code % 2 == 1 {
            '1'
        } else {
            '0'
        },
    );
    out
}

fn char_digits(c: char, width: usize) -> (r: Vec<char>)
    ensures
        r@ == code_digits(c as nat, width as nat),
{
    code_chars(c as u32, width)
}

/// The binary digits of the bytes of text, or of its characters where these are
/// not whole bytes.
pub open spec fn text_digits(s: Seq<char>, name: Option<Seq<char>>) -> Result<
    Seq<Seq<char>>,
    ErrorModel,
> {
    match text_data(s, name) {
        Err(x) => Err(x),
        Ok(data) => match name {
            Some(n) => match encoding::charset_width(n) {
                Some(w) => Ok(Seq::new(s.len(), |i: int| code_digits(s[i] as nat, w))),
                None => Ok(bits::digits_of_bytes(data)),
            },
            None => Ok(bits::digits_of_bytes(data)),
        },
    }
}

/// The bytes of text, in UTF-8 where no encoding is named.
pub open spec fn text_data(s: Seq<char>, name: Option<Seq<char>>) -> Result<Seq<u8>, ErrorModel> {
    match name {
        None => Ok(vstd::utf8::encode_utf8(s)),
        Some(n) => match encoding::document_bytes(s, n) {
            Ok(b) => Ok(b),
            Err(e) => Err(ErrorModel::InvalidXml("documentPart encoding: "@ + e)),
        },
    }
}

fn encode_text(s: &str, name: Option<&str>) -> (r: Result<Vec<u8>, Error>)
    ensures
        match r {
            Ok(b) => text_data(s@, text::ref_opt(name)) == Ok::<Seq<u8>, ErrorModel>(b@),
            Err(x) => text_data(s@, text::ref_opt(name)) == Err::<Seq<u8>, ErrorModel>(x@),
        },
{
    match name {
        None => Ok(s.as_bytes_vec()),
        Some(n) => match encode_document_text(s, n) {
            Ok(b) => Ok(b),
            Err(e) => Err(invalid_xml(cat2("documentPart encoding: ", e.as_str()))),
        },
    }
}

/// The binary digits of the bytes of text, or of its characters where these are
/// not whole bytes.
pub fn text_document_data_bits(s: &str, name: Option<&str>) -> (r: Result<Vec<String>, Error>)
    ensures
        error::outcome(r) == text_digits(s@, text::ref_opt(name)),
{
    let data = match encode_text(s, name) {
        Ok(b) => b,
        Err(x) => {
            return Err(x);
        },
    };
    if let Some(n) = name {
        if let Some(w) = bits_charset_width(n) {
            let c = chars_of(s);
            let ghost want = Seq::new(s@.len(), |i: int| code_digits(s@[i] as nat, w as nat));
            let mut out: Vec<String> = Vec::new();
            let mut i: usize = 0;
            while i < c.len()
                invariant
                    i <= c@.len(),
                    c@ == s@,
                    want == Seq::new(s@.len(), |k: int| code_digits(s@[k] as nat, w as nat)),
                    out.deep_view() =~= want.take(i as int),
                decreases c@.len() - i,
            {
                let ghost before = out.deep_view();
                let d = char_digits(c[i], w);
                out.push(string_of(d.as_slice()));
                assert(out.deep_view() =~= before.push(d@));
                assert(want[i as int] == d@);
                i += 1;
            }
            assert(want.take(i as int) =~= want);
            return Ok(out);
        }
    }
    Ok(bytes_to_bit_strings(data.as_slice()))
}

/// A number of bits, as far as the field holds it.
pub open spec fn bit_length(n: nat) -> u64 {
    values::least(n, u64::MAX as nat) as u64
}

fn count_digits(chunks: &Vec<String>) -> (r: u64)
    ensures
        r == bit_length(bits::digit_count(chunks.deep_view())),
{
    let mut total: u64 = 0;
    let mut i: usize = 0;
    let ghost all = chunks.deep_view();
    assert(all.take(0) =~= Seq::<Seq<char>>::empty());
    while i < chunks.len()
        invariant
            i <= chunks@.len(),
            all == chunks.deep_view(),
            total == bit_length(bits::joined(all.take(i as int)).len()),
        decreases chunks@.len() - i,
    {
        assert(all.take(i + 1).drop_last() =~= all.take(i as int));
        assert(all[i as int] == chunks@[i as int]@);
        let c = chars_of(chunks[i].as_str());
        let n: u64 = c.len() as u64;
        total = if total > u64::MAX - n {
            u64::MAX
        } else {
            total + n
        };
        i += 1;
    }
    assert(all.take(all.len() as int) =~= all);
    total
}

fn bits_of_bytes(n: usize) -> (r: u64)
    ensures
        r == bit_length((8 * n) as nat),
{
    let m: u64 = n as u64;
    if m > u64::MAX / 8 {
        u64::MAX
    } else {
        m * 8
    }
}

/// How a part is written, by its type.
pub open spec fn kind_named(part_type: Option<Seq<char>>) -> DocumentKind {
    if part_type == Some("hex"@) || part_type == Some("byte"@) {
        DocumentKind::Hex
    } else if part_type == Some("bits"@) {
        DocumentKind::Bits
    } else {
        DocumentKind::Text
    }
}

/// From which side the bits of a part are written.
pub open spec fn byte_order_in(e: XmlElementModel, order: DocumentBitOrder) -> Result<
    DocumentByteOrder,
    ErrorModel,
> {
    match attr(e, "byteOrder"@) {
        None => Ok(DocumentByteOrder::Ltr),
        Some(v) => if v == "RTL"@ {
            if order != DocumentBitOrder::LsbFirst {
                Err(ErrorModel::InvalidXml("byteOrder RTL requires bitOrder LSBFirst"@))
            } else {
                Ok(DocumentByteOrder::Rtl)
            }
        } else if v == "LTR"@ {
            Ok(DocumentByteOrder::Ltr)
        } else {
            Err(ErrorModel::InvalidXml("unknown document byteOrder `"@ + v + "`"@))
        },
    }
}

fn byte_order_of(e: &XmlElement, order: DocumentBitOrder) -> (r: Result<DocumentByteOrder, Error>)
    ensures
        error::outcome(r) == byte_order_in(e@, order),
{
    match attr_of(e, "byteOrder") {
        None => Ok(DocumentByteOrder::Ltr),
        Some(v) => if eq(v, "RTL") {
            if order != DocumentBitOrder::LsbFirst {
                Err(invalid_xml(owned("byteOrder RTL requires bitOrder LSBFirst")))
            } else {
                Ok(DocumentByteOrder::Rtl)
            }
        } else if eq(v, "LTR") {
            Ok(DocumentByteOrder::Ltr)
        } else {
            Err(invalid_xml(cat3("unknown document byteOrder `", v, "`")))
        },
    }
}

/// Whether entities in the text of an element are replaced.
pub open spec fn replaces_entities(e: XmlElementModel) -> bool {
    match attr(e, "replaceDFDLEntities"@) {
        Some(v) => v == "true"@,
        None => true,
    }
}

fn replacing(e: &XmlElement) -> (r: bool)
    ensures
        r == replaces_entities(e@),
{
    match attr_of(e, "replaceDFDLEntities") {
        Some(v) => eq(v, "true"),
        None => true,
    }
}

/// The text of an element, entities replaced where they are to be.
pub open spec fn shown_text(e: XmlElementModel, s: Seq<char>) -> Seq<char> {
    if replaces_entities(e) {
        entities::expanded(s)
    } else {
        s
    }
}

fn show_text(e: &XmlElement, s: String) -> (r: String)
    ensures
        r@ == shown_text(e@, s@),
{
    if replacing(e) {
        expand_entities_str(s.as_str())
    } else {
        s
    }
}

/// A part without contents.
pub open spec fn bare_part(
    kind: DocumentKind,
    order: DocumentBitOrder,
    explicit: bool,
    byte_order: DocumentByteOrder,
) -> ParsedDocumentPartModel {
    ParsedDocumentPartModel {
        kind,
        data: Seq::empty(),
        file_resource: None,
        last_byte_bit_count: None,
        bit_chunks: None,
        data_bit_chunks: None,
        bit_order: order,
        explicit_bit_order: explicit,
        byte_order,
        length_in_bits: 0,
    }
}

/// A part made of digits.
pub open spec fn digit_part(
    p: ParsedDocumentPartModel,
    chunks: Seq<Seq<char>>,
) -> ParsedDocumentPartModel {
    ParsedDocumentPartModel {
        length_in_bits: bit_length(bits::digit_count(chunks)),
        bit_chunks: Some(chunks),
        ..p
    }
}

/// A part made of bytes.
pub open spec fn byte_part(
    p: ParsedDocumentPartModel,
    data: Seq<u8>,
    digits: Option<Seq<Seq<char>>>,
) -> ParsedDocumentPartModel {
    ParsedDocumentPartModel {
        length_in_bits: bit_length(8 * data.len()),
        data,
        data_bit_chunks: digits,
        ..p
    }
}

/// A part with its contents, from the text that stands in it.
pub open spec fn part_filled(
    e: XmlElementModel,
    p: ParsedDocumentPartModel,
    s: Seq<char>,
    turned: bool,
) -> Result<ParsedDocumentPartModel, ErrorModel> {
    match p.kind {
        DocumentKind::Text => {
            let shown = shown_text(e, s);
            let name = attr(e, "encoding"@);
            match (text_data(shown, name), text_digits(shown, name)) {
                (Err(x), _) => Err(x),
                (Ok(data), Ok(digits)) => Ok(byte_part(p, data, Some(digits))),
                (Ok(data), Err(_)) => Ok(byte_part(p, data, None)),
            }
        },
        DocumentKind::Hex => if turned {
            Ok(digit_part(p, bits::digits_of_bytes(bits::hex_bytes(s))))
        } else {
            Ok(byte_part(p, bits::hex_bytes(s), None))
        },
        DocumentKind::Bits => Ok(
            digit_part(p, bits::part_groups(bits::bit_digits(s), p.byte_order)),
        ),
    }
}

/// A part of a document.
#[verifier::opaque]
pub open spec fn part_read(e: XmlElementModel, default: DocumentBitOrder, stated: bool) -> Result<
    ParsedDocumentPartModel,
    ErrorModel,
> {
    let part_type = attr(e, "type"@);
    if part_type == Some("file"@) {
        if stated {
            Err(
                ErrorModel::InvalidXml(
                    "bitOrder may not be specified on document parts of type 'file'"@,
                ),
            )
        } else {
            match nodes::simple_text(e.children, 0, "documentPart"@) {
                Err(x) => Err(x),
                Ok(s) => Ok(
                    ParsedDocumentPartModel {
                        file_resource: Some(text::trim_spec(s)),
                        ..bare_part(DocumentKind::Text, default, false, DocumentByteOrder::Ltr)
                    },
                ),
            }
        }
    } else {
        match bit_order_in(e, default) {
            Err(x) => Err(x),
            Ok(order) => match byte_order_in(e, order) {
                Err(x) => Err(x),
                Ok(byte_order) => match nodes::simple_text(e.children, 0, "documentPart"@) {
                    Err(x) => Err(x),
                    Ok(s) => part_filled(
                        e,
                        bare_part(
                            kind_named(part_type),
                            order,
                            attr(e, "bitOrder"@) is Some,
                            byte_order,
                        ),
                        s,
                        stated && default == DocumentBitOrder::LsbFirst,
                    ),
                },
            },
        }
    }
}

fn bare(
    kind: DocumentKind,
    order: DocumentBitOrder,
    explicit: bool,
    byte_order: DocumentByteOrder,
) -> (r: ParsedDocumentPart)
    ensures
        r@ == bare_part(kind, order, explicit, byte_order),
{
    let r = ParsedDocumentPart {
        kind,
        data: Vec::new(),
        file_resource: None,
        last_byte_bit_count: None,
        bit_chunks: None,
        data_bit_chunks: None,
        bit_order: order,
        explicit_bit_order: explicit,
        byte_order,
        length_in_bits: 0,
    };
    assert(r.data.deep_view() =~= Seq::<u8>::empty());
    r
}

fn with_digits(p: ParsedDocumentPart, chunks: Vec<String>) -> (r: ParsedDocumentPart)
    ensures
        r@ == digit_part(p@, chunks.deep_view()),
{
    let n = count_digits(&chunks);
    let mut r = p;
    r.length_in_bits = n;
    r.bit_chunks = Some(chunks);
    r
}

fn with_bytes(p: ParsedDocumentPart, data: Vec<u8>, digits: Option<Vec<String>>) -> (r:
    ParsedDocumentPart)
    ensures
        r@ == byte_part(p@, data@, digits.deep_view()),
{
    let n = bits_of_bytes(data.len());
    let mut r = p;
    assert(data.deep_view() =~= data@);
    r.length_in_bits = n;
    r.data = data;
    r.data_bit_chunks = digits;
    r
}

fn fill_part(e: &XmlElement, p: ParsedDocumentPart, s: String, turned: bool) -> (r: Result<
    ParsedDocumentPart,
    Error,
>)
    ensures
        error::outcome(r) == part_filled(e@, p@, s@, turned),
{
    match p.kind {
        DocumentKind::Text => {
            let shown = show_text(e, s);
            let name = attr_of(e, "encoding");
            let data = match encode_text(shown.as_str(), name) {
                Ok(b) => b,
                Err(x) => {
                    return Err(x);
                },
            };
            let digits = match text_document_data_bits(shown.as_str(), name) {
                Ok(d) => Some(d),
                Err(_) => None,
            };
            Ok(with_bytes(p, data, digits))
        },
        DocumentKind::Hex => {
            let data = match parse_hex_document(s.as_str()) {
                Ok(b) => b,
                Err(x) => {
                    return Err(x);
                },
            };
            if turned {
                Ok(with_digits(p, bytes_to_bit_strings(data.as_slice())))
            } else {
                Ok(with_bytes(p, data, None))
            }
        },
        DocumentKind::Bits => {
            let digits = collect_bit_digits_from_text(s.as_str());
            let order = p.byte_order;
            Ok(with_digits(p, bit_chunks_for_part(digits.as_str(), order)))
        },
    }
}

fn kind_of_type(e: &XmlElement) -> (r: DocumentKind)
    ensures
        r == kind_named(attr(e@, "type"@)),
{
    if attr_is(e, "type", "hex") || attr_is(e, "type", "byte") {
        DocumentKind::Hex
    } else if attr_is(e, "type", "bits") {
        DocumentKind::Bits
    } else {
        DocumentKind::Text
    }
}

/// A part of a document.
pub fn parse_document_part(
    e: &XmlElement,
    default_bit_order: DocumentBitOrder,
    document_bit_order_from_attr: bool,
) -> (r: Result<ParsedDocumentPart, Error>)
    ensures
        error::outcome(r) == part_read(e@, default_bit_order, document_bit_order_from_attr),
{
    reveal(part_read);
    if attr_is(e, "type", "file") {
        if document_bit_order_from_attr {
            return Err(
                invalid_xml(
                    owned("bitOrder may not be specified on document parts of type 'file'"),
                ),
            );
        }
        let s = read_simple_element_text(&e.children, 0, "documentPart")?;
        let c = chars_of(s.as_str());
        let path = trim(c.as_slice());
        let mut r = bare(DocumentKind::Text, default_bit_order, false, DocumentByteOrder::Ltr);
        r.file_resource = Some(string_of(path));
        return Ok(r);
    }
    let order = bit_order_of(e, default_bit_order)?;
    let byte_order = byte_order_of(e, order)?;
    let s = read_simple_element_text(&e.children, 0, "documentPart")?;
    let explicit = attr_of(e, "bitOrder").is_some();
    let p = bare(kind_of_type(e), order, explicit, byte_order);
    fill_part(
        e,
        p,
        s,
        document_bit_order_from_attr && default_bit_order == DocumentBitOrder::LsbFirst,
    )
}

// Putting the parts of a document together.
/// What has been read of a document made of parts.
#[verifier::ext_equal]
pub struct PartsModel {
    pub kind: DocumentKind,
    pub data: Seq<u8>,
    pub last: Option<u8>,
    /// Bits that have not become bytes.
    pub pending: Seq<bool>,
    /// The digits of each part made of bits.
    pub chunks: Seq<Seq<Seq<char>>>,
    pub saw_bits: bool,
    pub saw_rtl: bool,
    pub mixed: bool,
    pub orders: Seq<(DocumentBitOrder, u64, bool)>,
    pub regions: Seq<(BitOrder, u64)>,
    pub file: Option<Seq<char>>,
}

/// Nothing read yet.
pub open spec fn no_parts() -> PartsModel {
    PartsModel {
        kind: DocumentKind::Text,
        data: Seq::empty(),
        last: None,
        pending: Seq::empty(),
        chunks: Seq::empty(),
        saw_bits: false,
        saw_rtl: false,
        mixed: false,
        orders: Seq::empty(),
        regions: Seq::empty(),
        file: None,
    }
}

/// The bits that have not become bytes made bytes.
pub open spec fn flushed(s: PartsModel) -> PartsModel {
    if s.pending.len() == 0 {
        s
    } else {
        PartsModel {
            data: s.data + bits::packed(s.pending),
            last: Some((s.pending.len() % 8) as u8),
            pending: Seq::empty(),
            ..s
        }
    }
}

/// Bits from digits.
pub open spec fn bits_from(digits: Seq<char>) -> Seq<bool> {
    Seq::new(digits.len(), |i: int| digits[i] == '1')
}

/// What has been read, with one more part.
pub open spec fn part_added(s: PartsModel, p: ParsedDocumentPartModel) -> PartsModel {
    match p.file_resource {
        Some(f) => PartsModel { file: Some(f), ..s },
        None => {
            let t = PartsModel {
                orders: s.orders.push((p.bit_order, p.length_in_bits, p.explicit_bit_order)),
                regions: s.regions.push((transmission(p.bit_order), p.length_in_bits)),
                ..s
            };
            match p.bit_chunks {
                Some(chunks) => PartsModel {
                    kind: DocumentKind::Bits,
                    saw_bits: true,
                    saw_rtl: s.saw_rtl || p.byte_order == DocumentByteOrder::Rtl,
                    pending: s.pending + bits_from(bits::joined(chunks)),
                    chunks: s.chunks.push(chunks),
                    ..t
                },
                None => if p.kind == DocumentKind::Hex && s.saw_bits {
                    PartsModel {
                        kind: DocumentKind::Bits,
                        pending: s.pending + bits::byte_bits(p.data),
                        chunks: s.chunks.push(bits::digits_of_bytes(p.data)),
                        ..t
                    }
                } else if p.kind == DocumentKind::Text && s.saw_bits {
                    match p.data_bit_chunks {
                        Some(chunks) if s.saw_rtl => PartsModel {
                            mixed: true,
                            chunks: s.chunks.push(chunks),
                            ..t
                        },
                        _ => PartsModel {
                            mixed: true,
                            data: flushed(t).data + p.data,
                            ..flushed(t)
                        },
                    }
                } else {
                    let f = flushed(t);
                    PartsModel {
                        kind: if f.data.len() == 0 && !s.saw_bits {
                            p.kind
                        } else {
                            s.kind
                        },
                        data: f.data + p.data,
                        last: p.last_byte_bit_count,
                        ..f
                    }
                },
            }
        },
    }
}

struct Parts {
    kind: DocumentKind,
    data: Vec<u8>,
    last: Option<u8>,
    pending: Vec<bool>,
    chunks: Vec<Vec<String>>,
    saw_bits: bool,
    saw_rtl: bool,
    mixed: bool,
    orders: Vec<(DocumentBitOrder, u64, bool)>,
    regions: Vec<(BitOrder, u64)>,
    file: Option<String>,
}

fn append_bytes(out: &mut Vec<u8>, more: &[u8])
    ensures
        final(out)@ == old(out)@ + more@,
{
    let ghost start = out@;
    let mut i: usize = 0;
    while i < more.len()
        invariant
            i <= more@.len(),
            out@ =~= start + more@.take(i as int),
        decreases more@.len() - i,
    {
        out.push(more[i]);
        i += 1;
    }
    assert(more@.take(i as int) =~= more@);
}

fn append_digits(out: &mut Vec<bool>, chunks: &Vec<String>)
    ensures
        final(out)@ == old(out)@ + bits_from(bits::joined(chunks.deep_view())),
{
    let ghost start = out@;
    let ghost all = chunks.deep_view();
    let mut i: usize = 0;
    assert(all.take(0) =~= Seq::<Seq<char>>::empty());
    assert(start + bits_from(Seq::<char>::empty()) =~= start);
    while i < chunks.len()
        invariant
            i <= chunks@.len(),
            all == chunks.deep_view(),
            out@ =~= start + bits_from(bits::joined(all.take(i as int))),
        decreases chunks@.len() - i,
    {
        assert(all.take(i + 1).drop_last() =~= all.take(i as int));
        assert(all[i as int] == chunks@[i as int]@);
        let c = chars_of(chunks[i].as_str());
        let ghost before = out@;
        let mut k: usize = 0;
        while k < c.len()
            invariant
                k <= c@.len(),
                out@ =~= before + bits_from(c@.take(k as int)),
            decreases c@.len() - k,
        {
            out.push(c[k] == '1');
            k += 1;
        }
        assert(c@.take(k as int) =~= c@);
        i += 1;
    }
    assert(all.take(all.len() as int) =~= all);
}

impl Parts {
    spec fn model(self) -> PartsModel {
        PartsModel {
            kind: self.kind,
            data: self.data@,
            last: self.last,
            pending: self.pending@,
            chunks: self.chunks.deep_view(),
            saw_bits: self.saw_bits,
            saw_rtl: self.saw_rtl,
            mixed: self.mixed,
            orders: self.orders@,
            regions: self.regions@,
            file: self.file.deep_view(),
        }
    }

    fn new() -> (r: Self)
        ensures
            r.model() == no_parts(),
    {
        let r = Parts {
            kind: DocumentKind::Text,
            data: Vec::new(),
            last: None,
            pending: Vec::new(),
            chunks: Vec::new(),
            saw_bits: false,
            saw_rtl: false,
            mixed: false,
            orders: Vec::new(),
            regions: Vec::new(),
            file: None,
        };
        assert(r.model() =~= no_parts());
        r
    }

    fn flush(&mut self)
        ensures
            final(self).model() == flushed(old(self).model()),
    {
        if self.pending.len() > 0 {
            let (bytes, over) = pack_bits_msb_first(self.pending.as_slice());
            append_bytes(&mut self.data, bytes.as_slice());
            self.last = Some(over);
            self.pending = Vec::new();
            assert(self.model() =~= flushed(old(self).model()));
        }
    }

    fn push_chunks(&mut self, chunks: Vec<String>)
        ensures
            final(self).model() == (PartsModel {
                chunks: old(self).model().chunks.push(chunks.deep_view()),
                ..old(self).model()
            }),
    {
        let ghost before = self.chunks.deep_view();
        self.chunks.push(chunks);
        assert(self.chunks.deep_view() =~= before.push(chunks.deep_view()));
    }

    fn add_part(&mut self, p: ParsedDocumentPart)
        ensures
            final(self).model() == part_added(old(self).model(), p@),
    {
        if p.file_resource.is_some() {
            self.file = p.file_resource;
            return;
        }
        let ghost s = self.model();
        assert(p.data.deep_view() =~= p.data@);
        self.orders.push((p.bit_order, p.length_in_bits, p.explicit_bit_order));
        self.regions.push((document_bit_order_to_transmission(p.bit_order), p.length_in_bits));
        match p.bit_chunks {
            Some(chunks) => {
                self.saw_bits = true;
                self.kind = DocumentKind::Bits;
                if p.byte_order == DocumentByteOrder::Rtl {
                    self.saw_rtl = true;
                }
                append_digits(&mut self.pending, &chunks);
                self.push_chunks(chunks);
            },
            None => {
                if p.kind == DocumentKind::Hex && self.saw_bits {
                    self.kind = DocumentKind::Bits;
                    append_bytes_as_msb_bits(&mut self.pending, p.data.as_slice());
                    let chunks = bytes_to_bit_strings(p.data.as_slice());
                    self.push_chunks(chunks);
                } else if p.kind == DocumentKind::Text && self.saw_bits {
                    let saw_rtl = self.saw_rtl;
                    self.mixed = true;
                    match p.data_bit_chunks {
                        Some(chunks) if saw_rtl => {
                            self.push_chunks(chunks);
                        },
                        _ => {
                            self.flush();
                            append_bytes(&mut self.data, p.data.as_slice());
                        },
                    }
                } else {
                    self.flush();
                    if self.data.len() == 0 && !self.saw_bits {
                        self.kind = p.kind;
                    }
                    append_bytes(&mut self.data, p.data.as_slice());
                    self.last = p.last_byte_bit_count;
                }
            },
        }
        assert(self.model() =~= part_added(s, p@));
    }
}

/// The first position from `i` on where neither blank nor an element stands.
pub open spec fn after_elements(list: Seq<XmlNodeModel>, i: nat) -> nat
    decreases list.len() - i,
{
    let j = nodes::after_blank(list, i);
    if i <= j < list.len() && list[j as int] is Element {
        after_elements(list, j + 1)
    } else {
        j
    }
}

fn skip_elements(list: &Vec<XmlNode>, i: usize) -> (r: usize)
    requires
        i <= list@.len(),
    ensures
        r == after_elements(xml::node_models(*list), i as nat),
        r <= list@.len(),
{
    let ghost all = xml::node_models(*list);
    let mut k: usize = i;
    loop
        invariant
            all == xml::node_models(*list),
            k <= list@.len(),
            after_elements(all, i as nat) == after_elements(all, k as nat),
        decreases list@.len() - k,
    {
        let j = skip_blank(list, k);
        if j >= list.len() {
            return j;
        }
        assert(all[j as int] == list@[j as int].model());
        match &list[j] {
            XmlNode::Element(_) => {},
            _ => {
                return j;
            },
        }
        k = j + 1;
    }
}

/// Whether a node is a part of a document.
pub open spec fn is_part(n: XmlNodeModel) -> bool {
    match n {
        XmlNodeModel::Element(e) => e.local == "documentPart"@,
        _ => false,
    }
}

/// The parts of a document from position `i` on: all of them, or those before
/// the first that cannot be read and the reason.
pub open spec fn parts_read(
    list: Seq<XmlNodeModel>,
    i: nat,
    s: PartsModel,
    default: DocumentBitOrder,
    stated: bool,
) -> Result<(PartsModel, Option<Seq<char>>), ErrorModel>
    decreases list.len() - i,
{
    let j = nodes::after_blank(list, i);
    if i <= j < list.len() && is_part(list[j as int]) {
        match part_read(list[j as int]->Element_0, default, stated) {
            Ok(p) => parts_read(list, j + 1, part_added(s, p), default, stated),
            Err(x) => match nodes::flaw_in(list, j) {
                Some(y) => Err(y),
                None => match nodes::end_fault(list, after_elements(list, j + 1), "document"@) {
                    Some(y) => Err(y),
                    None => Ok((s, Some(error::error_text(x)))),
                },
            },
        }
    } else {
        match nodes::end_fault(list, j, "document"@) {
            Some(y) => Err(y),
            None => Ok((s, None)),
        }
    }
}

fn read_parts(
    list: &Vec<XmlNode>,
    default: DocumentBitOrder,
    stated: bool,
) -> (r: Result<(Parts, Option<String>), Error>)
    ensures
        match r {
            Ok((s, why)) => parts_read(xml::node_models(*list), 0, no_parts(), default, stated) == Ok::<
                (PartsModel, Option<Seq<char>>),
                ErrorModel,
            >((s.model(), why.deep_view())),
            Err(x) => parts_read(xml::node_models(*list), 0, no_parts(), default, stated) == Err::<
                (PartsModel, Option<Seq<char>>),
                ErrorModel,
            >(x@),
        },
{
    let mut s = Parts::new();
    let ghost all = xml::node_models(*list);
    let ghost want = parts_read(all, 0, no_parts(), default, stated);
    let mut k: usize = 0;
    loop
        invariant
            all == xml::node_models(*list),
            k <= list@.len(),
            want == parts_read(all, 0, no_parts(), default, stated),
            want == parts_read(all, k as nat, s.model(), default, stated),
        decreases list@.len() - k,
    {
        let j = skip_blank(list, k);
        if j < list.len() {
            assert(all[j as int] == list@[j as int].model());
            if let XmlNode::Element(e) = &list[j] {
                if eq(e.local.as_str(), "documentPart") {
                    match parse_document_part(e, default, stated) {
                        Ok(p) => {
                            s.add_part(p);
                            k = j + 1;
                            continue;
                        },
                        Err(x) => {
                            if let Some(y) = find_flaw(list, j) {
                                return Err(y);
                            }
                            let end = skip_elements(list, j + 1);
                            expect_end(list, end, "document")?;
                            return Ok((s, Some(x.to_text())));
                        },
                    }
                }
            }
        }
        expect_end(list, j, "document")?;
        return Ok((s, None));
    }
}

/// A document of text.
pub open spec fn plain_document(
    data: Seq<u8>,
    stated: Option<BitOrder>,
) -> TdmlDocumentModel {
    TdmlDocumentModel {
        kind: DocumentKind::Text,
        data,
        file_resource: None,
        last_byte_bit_count: None,
        transmission_bit_order: BitOrder::MostSignificantBitFirst,
        document_transmission_bit_order: stated,
        mixed_bits_text_document: false,
        part_bit_order_regions: Seq::empty(),
        load_error: None,
    }
}

/// Why parts that were read do not make a document.
pub open spec fn parts_complaint(
    s: PartsModel,
    why: Option<Seq<char>>,
    stated: bool,
) -> Option<Seq<char>> {
    match why {
        Some(t) => Some(t),
        None => if !stated && states(s.orders, DocumentBitOrder::LsbFirst) && states(
            s.orders,
            DocumentBitOrder::MsbFirst,
        ) {
            Some(
                error::error_text(
                    ErrorModel::InvalidXml(
                        "Must specify bitOrder on document element when parts have a mixture of bit orders."@,
                    ),
                ),
            )
        } else if changes_inside_byte(s.orders) {
            Some(
                error::error_text(
                    ErrorModel::InvalidXml("bitOrder can only change on a byte boundary."@),
                ),
            )
        } else {
            None
        },
    }
}

/// The bytes of parts, and how many bits of the last one count where not all do.
pub open spec fn parts_bytes(s: PartsModel, order: DocumentBitOrder) -> (Seq<u8>, Option<u8>) {
    if s.chunks.len() > 0 {
        let (bytes, over) = bits::assembled(s.chunks, order);
        (
            s.data + bytes,
            if over > 0 {
                Some(over)
            } else {
                s.last
            },
        )
    } else {
        (flushed(s).data, flushed(s).last)
    }
}

/// Whether any part states its order of bits.
pub open spec fn any_stated(orders: Seq<(DocumentBitOrder, u64, bool)>) -> bool {
    exists|i: int| 0 <= i < orders.len() && (#[trigger] orders[i]).2
}

/// The document that parts make.
pub open spec fn document_of_parts(
    s: PartsModel,
    why: Option<Seq<char>>,
    default: DocumentBitOrder,
    stated: Option<BitOrder>,
) -> TdmlDocumentModel {
    match parts_complaint(s, why, stated is Some) {
        Some(t) => TdmlDocumentModel {
            kind: s.kind,
            file_resource: s.file,
            load_error: Some(t),
            ..plain_document(Seq::empty(), stated)
        },
        None => {
            let order = common_order(default, stated is Some, s.orders);
            let (data, last) = parts_bytes(s, order);
            TdmlDocumentModel {
                kind: s.kind,
                data,
                file_resource: s.file,
                last_byte_bit_count: last,
                transmission_bit_order: match stated {
                    Some(o) => o,
                    None => transmission(order),
                },
                document_transmission_bit_order: stated,
                mixed_bits_text_document: s.mixed,
                part_bit_order_regions: if stated is Some || any_stated(s.orders) {
                    s.regions
                } else {
                    Seq::empty()
                },
                load_error: None,
            }
        },
    }
}

/// A document of a test.
#[verifier::opaque]
pub open spec fn document_read(e: XmlElementModel) -> Result<TdmlDocumentModel, ErrorModel> {
    match bit_order_in(e, DocumentBitOrder::MsbFirst) {
        Err(x) => Err(x),
        Ok(default) => {
            let stated = if attr(e, "bitOrder"@) is Some {
                Some(transmission(default))
            } else {
                None
            };
            let list = e.children;
            let j = nodes::after_blank(list, 0);
            if j >= list.len() {
                Ok(plain_document(Seq::empty(), stated))
            } else if is_part(list[j as int]) {
                match parts_read(list, 0, no_parts(), default, stated is Some) {
                    Err(x) => Err(x),
                    Ok((s, why)) => Ok(document_of_parts(s, why, default, stated)),
                }
            } else {
                match nodes::simple_text(list, j, "document"@) {
                    Err(x) => Err(x),
                    Ok(t) => Ok(plain_document(vstd::utf8::encode_utf8(shown_text(e, t)), stated)),
                }
            }
        },
    }
}

fn plain(data: Vec<u8>, stated: Option<BitOrder>) -> (r: TdmlDocument)
    ensures
        r@ == plain_document(data@, stated),
{
    assert(data.deep_view() =~= data@);
    let r = TdmlDocument {
        kind: DocumentKind::Text,
        data,
        file_resource: None,
        last_byte_bit_count: None,
        transmission_bit_order: BitOrder::MostSignificantBitFirst,
        document_transmission_bit_order: stated,
        mixed_bits_text_document: false,
        part_bit_order_regions: Vec::new(),
        load_error: None,
    };
    assert(r.part_bit_order_regions.deep_view() =~= Seq::<(BitOrder, u64)>::empty());
    r
}

fn complaint_of(s: &Parts, why: Option<String>, stated: bool) -> (r: Option<String>)
    ensures
        r.deep_view() == parts_complaint(s.model(), why.deep_view(), stated),
{
    if why.is_some() {
        return why;
    }
    if let Err(x) = check_explicit_part_bit_order_mixture(stated, s.orders.as_slice()) {
        return Some(x.to_text());
    }
    if let Err(x) = check_document_part_bit_order_transitions(s.orders.as_slice()) {
        return Some(x.to_text());
    }
    None
}

fn any_explicit(orders: &Vec<(DocumentBitOrder, u64, bool)>) -> (r: bool)
    ensures
        r == any_stated(orders@),
{
    let mut i: usize = 0;
    while i < orders.len()
        invariant
            i <= orders@.len(),
            forall|k: int| 0 <= k < i ==> !(#[trigger] orders@[k]).2,
        decreases orders@.len() - i,
    {
        if orders[i].2 {
            assert(orders@[i as int].2);
            return true;
        }
        i += 1;
    }
    false
}

fn make_document(
    parts: Parts,
    why: Option<String>,
    default: DocumentBitOrder,
    stated: Option<BitOrder>,
) -> (r: TdmlDocument)
    ensures
        r@ == document_of_parts(parts.model(), why.deep_view(), default, stated),
{
    let mut s = parts;
    if let Some(t) = complaint_of(&s, why, stated.is_some()) {
        let mut r = plain(Vec::new(), stated);
        r.kind = s.kind;
        r.file_resource = s.file;
        r.load_error = Some(t);
        return r;
    }
    let order = effective_document_bit_order(default, stated.is_some(), s.orders.as_slice());
    if s.chunks.len() > 0 {
        let chunks = s.chunks.as_slice();
        assert(chunks.deep_view() =~= s.chunks.deep_view());
        let (bytes, over) = assemble_tdml_document_bytes(chunks, order);
        append_bytes(&mut s.data, bytes.as_slice());
        if over > 0 {
            s.last = Some(over);
        }
    } else {
        s.flush();
    }
    let transmission_bit_order = match stated {
        Some(o) => o,
        None => document_bit_order_to_transmission(order),
    };
    let keep = stated.is_some() || any_explicit(&s.orders);
    let regions = if keep {
        s.regions
    } else {
        Vec::new()
    };
    assert(s.data.deep_view() =~= s.data@);
    assert(regions.deep_view() =~= regions@);
    TdmlDocument {
        kind: s.kind,
        data: s.data,
        file_resource: s.file,
        last_byte_bit_count: s.last,
        transmission_bit_order,
        document_transmission_bit_order: stated,
        mixed_bits_text_document: s.mixed,
        part_bit_order_regions: regions,
        load_error: None,
    }
}

/// A document of a test.
pub fn parse_document(e: &XmlElement) -> (r: Result<TdmlDocument, Error>)
    ensures
        error::outcome(r) == document_read(e@),
{
    reveal(document_read);
    let default = bit_order_of(e, DocumentBitOrder::MsbFirst)?;
    let stated = if attr_of(e, "bitOrder").is_some() {
        Some(document_bit_order_to_transmission(default))
    } else {
        None
    };
    let j = skip_blank(&e.children, 0);
    if j >= e.children.len() {
        return Ok(plain(Vec::new(), stated));
    }
    assert(e@.children[j as int] == e.children@[j as int].model());
    let has_parts = match &e.children[j] {
        XmlNode::Element(p) => eq(p.local.as_str(), "documentPart"),
        _ => false,
    };
    if has_parts {
        let (s, why) = read_parts(&e.children, default, stated.is_some())?;
        return Ok(make_document(s, why, default, stated));
    }
    let t = read_simple_element_text(&e.children, j, "document")?;
    let shown = show_text(e, t);
    Ok(plain(shown.as_str().as_bytes_vec(), stated))
}

} // verus!
