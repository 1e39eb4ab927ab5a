//! Infosets of values, and values of infosets.

use vstd::prelude::*;
use crate::entities;
use crate::entities::hex_digit_value;
use crate::error::cat3;
use crate::numbers;
use crate::numbers::{
    decimal_chars, float_text, parse_i16, parse_i32, parse_i64, parse_unsigned, signed_chars,
};
use crate::program;
use crate::program::{
    ChoiceBranch, ChoiceBranchModel, IrNode, IrNodeModel, IrProgram, IrProgramModel, ValueKind,
};
use crate::qname;
use crate::qname::local_name_from_qname;
use crate::strmap;
use crate::strmap::StrMap;
use crate::tdml::bits;
use crate::tdml::bits::hex_encode;
use crate::tdml::compare;
use crate::tdml::compare::compare_nodes;
use crate::tdml::infoset;
use crate::tdml::infoset::{
    parse_expected_infoset_with_context, parse_expected_infoset_with_target_ns, InfosetNode,
    InfosetNodeModel,
};
use crate::tdml::suite;
use crate::tdml::suite::{TdmlResourceContext, TdmlResourceContextModel};
use crate::text;
use crate::text::{chars_of, compact, eq, is, string_of, trim};
use crate::unparse_validate;
use crate::unparse_validate::{find_infoset_children, find_root};
use crate::value;
use crate::value::{lemma_fields, DfdlValue, DfdlValueModel};
use crate::values::{owned, Duplicate};

verus! {

broadcast use vstd::string::group_string_axioms;

// From values to infosets.
/// The text of a simple value.
pub open spec fn scalar_text(v: DfdlValueModel) -> Seq<char> {
    match v {
        DfdlValueModel::Boolean(b) => if b {
            "true"@
        } else {
            "false"@
        },
        DfdlValueModel::Int(n) => numbers::signed_decimal(n as int),
        DfdlValueModel::Integer(s) => s,
        DfdlValueModel::Long(n) => numbers::signed_decimal(n as int),
        DfdlValueModel::UnsignedLong(n) => numbers::signed_decimal(n as int),
        DfdlValueModel::Short(n) => numbers::signed_decimal(n as int),
        DfdlValueModel::Byte(n) => numbers::signed_decimal(n as int),
        DfdlValueModel::UnsignedInt(n) => numbers::signed_decimal(n as int),
        DfdlValueModel::UnsignedShort(n) => numbers::signed_decimal(n as int),
        DfdlValueModel::UnsignedByte(n) => numbers::signed_decimal(n as int),
        DfdlValueModel::Float(s) => s,
        DfdlValueModel::Double(s) => s,
        DfdlValueModel::Decimal(s) => s,
        DfdlValueModel::DateTime(s) => s,
        DfdlValueModel::String(s) => s,
        DfdlValueModel::HexBinary(b) => bits::hex_text(b),
        _ => Seq::empty(),
    }
}

fn signed_text(n: i64) -> (r: String)
    ensures
        r@ == numbers::signed_decimal(n as int),
{
    let d = signed_chars(n);
    string_of(d.as_slice())
}

/// The text of a simple value.
pub fn scalar_to_string(v: &DfdlValue) -> (r: String)
    ensures
        r@ == scalar_text(v@),
{
    match v {
        DfdlValue::Boolean(b) => if *b {
            owned("true")
        } else {
            owned("false")
        },
        DfdlValue::Int(n) => signed_text(*n as i64),
        DfdlValue::Integer(s) => s.copy(),
        DfdlValue::Long(n) => signed_text(*n),
        DfdlValue::UnsignedLong(n) => {
            let d = decimal_chars(*n);
            string_of(d.as_slice())
        },
        DfdlValue::Short(n) => signed_text(*n as i64),
        DfdlValue::Byte(n) => signed_text(*n as i64),
        DfdlValue::UnsignedInt(n) => signed_text(*n as i64),
        DfdlValue::UnsignedShort(n) => signed_text(*n as i64),
        DfdlValue::UnsignedByte(n) => signed_text(*n as i64),
        DfdlValue::Float(s) => s.copy(),
        DfdlValue::Double(s) => s.copy(),
        DfdlValue::Decimal(s) => s.copy(),
        DfdlValue::DateTime(s) => s.copy(),
        DfdlValue::String(s) => s.copy(),
        DfdlValue::HexBinary(b) => hex_encode(b.as_slice()),
        _ => String::new(),
    }
}

/// A node with this name and nothing in it.
pub open spec fn empty_node(name: Seq<char>) -> InfosetNodeModel {
    InfosetNodeModel {
        name,
        namespace: None,
        text: None,
        nil: false,
        children: Seq::empty(),
        blob_bytes: None,
    }
}

/// The fields that a choice stands for: the chosen element, or the fields of a
/// sequence without a name.
pub open spec fn choice_fields(name: Seq<char>, v: DfdlValueModel) -> Seq<
    (Seq<char>, DfdlValueModel),
>
    decreases v,
{
    match v {
        DfdlValueModel::Choice { discriminator, value } if name == "choice"@ => choice_fields(
            discriminator,
            *value,
        ),
        DfdlValueModel::Sequence(fields) if name == "sequence"@ => fields,
        _ => seq![(name, v)],
    }
}

/// Whether a choice stands for nothing but the chosen element.
pub open spec fn plain_choice(name: Seq<char>, v: DfdlValueModel) -> bool {
    let fields = choice_fields(name, v);
    fields.len() == 1 && fields[0].0 == name
}

/// A value as an infoset node.
#[verifier::opaque]
pub open spec fn value_node(name: Seq<char>, v: DfdlValueModel) -> InfosetNodeModel
    decreases v, 0int, 0int,
{
    match v {
        DfdlValueModel::Sequence(fields) => InfosetNodeModel {
            children: fields_nodes(fields, fields.len()),
            ..empty_node(name)
        },
        DfdlValueModel::Array(items) => InfosetNodeModel {
            children: seq![(name, items_nodes(name, items, items.len()))],
            ..empty_node(name)
        },
        DfdlValueModel::Choice { discriminator, value } => if plain_choice(discriminator, *value) {
            value_node(discriminator, *value)
        } else {
            InfosetNodeModel {
                children: branch_nodes(discriminator, *value),
                ..empty_node(name)
            }
        },
        DfdlValueModel::Null => InfosetNodeModel { nil: true, ..empty_node(name) },
        DfdlValueModel::Blob(b) => InfosetNodeModel { blob_bytes: Some(b), ..empty_node(name) },
        _ => InfosetNodeModel { text: Some(scalar_text(v)), ..empty_node(name) },
    }
}

/// A field as infoset nodes, one for each occurrence.
#[verifier::opaque]
pub open spec fn field_nodes(name: Seq<char>, v: DfdlValueModel) -> Seq<InfosetNodeModel>
    decreases v, 1int, 0int,
{
    match v {
        DfdlValueModel::Array(items) => items_nodes(name, items, items.len()),
        _ => seq![value_node(name, v)],
    }
}

/// The fields that a choice stands for as infoset nodes.
#[verifier::opaque]
pub open spec fn branch_nodes(name: Seq<char>, v: DfdlValueModel) -> Seq<
    (Seq<char>, Seq<InfosetNodeModel>),
>
    decreases v, 2int, 0int,
{
    match v {
        DfdlValueModel::Choice { discriminator, value } if name == "choice"@ => branch_nodes(
            discriminator,
            *value,
        ),
        DfdlValueModel::Sequence(fields) if name == "sequence"@ => fields_nodes(
            fields,
            fields.len(),
        ),
        _ => seq![(name, field_nodes(name, v))],
    }
}

/// The first `k` fields as infoset nodes.
#[verifier::opaque]
pub open spec fn fields_nodes(fields: Seq<(Seq<char>, DfdlValueModel)>, k: nat) -> Seq<
    (Seq<char>, Seq<InfosetNodeModel>),
>
    decreases fields, 0int, k,
{
    if k == 0 || k > fields.len() {
        Seq::empty()
    } else {
        fields_nodes(fields, (k - 1) as nat).push(
            (fields[k - 1].0, field_nodes(fields[k - 1].0, fields[k - 1].1)),
        )
    }
}

/// The first `k` occurrences as infoset nodes.
#[verifier::opaque]
pub open spec fn items_nodes(name: Seq<char>, items: Seq<DfdlValueModel>, k: nat) -> Seq<
    InfosetNodeModel,
>
    decreases items, 0int, k,
{
    if k == 0 || k > items.len() {
        Seq::empty()
    } else {
        items_nodes(name, items, (k - 1) as nat).push(value_node(name, items[k - 1]))
    }
}

fn is_plain_choice(name: &str, v: &DfdlValue) -> (r: bool)
    ensures
        r == plain_choice(name@, v@),
{
    single_field(name, name, v)
}

fn single_field(want: &str, name: &str, v: &DfdlValue) -> (r: bool)
    ensures
        r == ({
            let fields = choice_fields(name@, v@);
            fields.len() == 1 && fields[0].0 == want@
        }),
    decreases v,
{
    match v {
        DfdlValue::Choice { discriminator, value } => {
            if eq(name, "choice") {
                return single_field(want, discriminator.as_str(), value);
            }
            eq(name, want)
        },
        DfdlValue::Sequence(fields) => {
            if eq(name, "sequence") {
                assert(value::field_models(fields.entries).len() == fields.entries@.len());
                if fields.entries.len() == 1 {
                    assert(value::field_models(fields.entries)[0].0 == fields.entries@[0].0@);
                    return eq(fields.entries[0].0.as_str(), want);
                }
                return false;
            }
            eq(name, want)
        },
        _ => eq(name, want),
    }
}

fn make_node(
    name: &str,
    text: Option<String>,
    nil: bool,
    children: Vec<(String, Vec<InfosetNode>)>,
    blob_bytes: Option<Vec<u8>>,
) -> (r: InfosetNode)
    ensures
        r.model() == (InfosetNodeModel {
            name: name@,
            namespace: None,
            text: text.deep_view(),
            nil,
            children: infoset::entry_models(children),
            blob_bytes: blob_bytes.deep_view(),
        }),
{
    InfosetNode {
        name: owned(name),
        namespace: None,
        text,
        nil,
        children: StrMap { entries: children },
        blob_bytes,
    }
}

/// A value as an infoset node.
pub fn value_to_node(name: &str, v: &DfdlValue) -> (r: InfosetNode)
    ensures
        r.model() == value_node(name@, v@),
    decreases v, 0int,
{
    proof {
        reveal(value_node);
        reveal(field_nodes);
        reveal(branch_nodes);
        reveal(fields_nodes);
        reveal(items_nodes);
    }
    let none: Vec<(String, Vec<InfosetNode>)> = Vec::new();
    assert(infoset::entry_models(none) =~= Seq::empty());
    match v {
        DfdlValue::Sequence(fields) => {
            assert(value::field_models(fields.entries).len() == fields.entries@.len());
            let children = fields_to_nodes(&fields.entries);
            make_node(name, None, false, children, None)
        },
        DfdlValue::Array(items) => {
            assert(value::item_models(*items).len() == items@.len());
            let list = items_to_nodes(name, items);
            let mut children: Vec<(String, Vec<InfosetNode>)> = Vec::new();
            children.push((owned(name), list));
            assert(infoset::entry_models(children) =~= seq![(name@, infoset::list_models(list))]);
            make_node(name, None, false, children, None)
        },
        DfdlValue::Choice { discriminator, value } => {
            if is_plain_choice(discriminator.as_str(), value) {
                return value_to_node(discriminator.as_str(), value);
            }
            let children = branch_to_nodes(discriminator.as_str(), value);
            make_node(name, None, false, children, None)
        },
        DfdlValue::Null => make_node(name, None, true, none, None),
        DfdlValue::Blob(b) => {
            let c = b.copy();
            assert(c@ =~= b@) by {
                assert(c.deep_view() =~= c@);
                assert(b.deep_view() =~= b@);
            }
            assert(c.deep_view() =~= c@);
            make_node(name, None, false, none, Some(c))
        },
        _ => {
            let t = scalar_to_string(v);
            make_node(name, Some(t), false, none, None)
        },
    }
}

fn field_values_to_infoset_nodes(name: &str, v: &DfdlValue) -> (r: Vec<InfosetNode>)
    ensures
        infoset::list_models(r) == field_nodes(name@, v@),
    decreases v, 1int,
{
    proof {
        reveal(field_nodes);
        reveal(items_nodes);
        reveal(value_node);
    }
    if let DfdlValue::Array(items) = v {
        assert(value::item_models(*items).len() == items@.len());
        return items_to_nodes(name, items);
    }
    let mut out: Vec<InfosetNode> = Vec::new();
    let n = value_to_node(name, v);
    out.push(n);
    assert(infoset::list_models(out) =~= seq![n.model()]);
    out
}

fn branch_to_nodes(name: &str, v: &DfdlValue) -> (r: Vec<(String, Vec<InfosetNode>)>)
    ensures
        infoset::entry_models(r) == branch_nodes(name@, v@),
    decreases v, 2int,
{
    proof {
        reveal(branch_nodes);
        reveal(field_nodes);
        reveal(fields_nodes);
    }
    match v {
        DfdlValue::Choice { discriminator, value } => {
            if eq(name, "choice") {
                return branch_to_nodes(discriminator.as_str(), value);
            }
        },
        DfdlValue::Sequence(fields) => {
            if eq(name, "sequence") {
                assert(value::field_models(fields.entries).len() == fields.entries@.len());
                return fields_to_nodes(&fields.entries);
            }
        },
        _ => {},
    }
    let list = field_values_to_infoset_nodes(name, v);
    let mut out: Vec<(String, Vec<InfosetNode>)> = Vec::new();
    out.push((owned(name), list));
    assert(infoset::entry_models(out) =~= seq![(name@, infoset::list_models(list))]);
    out
}

fn fields_to_nodes(fields: &Vec<(String, DfdlValue)>) -> (r: Vec<(String, Vec<InfosetNode>)>)
    ensures
        infoset::entry_models(r) == fields_nodes(
            value::field_models(*fields),
            value::field_models(*fields).len(),
        ),
    decreases fields, 0int,
{
    let ghost all = value::field_models(*fields);
    let mut out: Vec<(String, Vec<InfosetNode>)> = Vec::new();
    let mut i: usize = 0;
    proof {
        reveal(fields_nodes);
        reveal(field_nodes);
        assert(infoset::entry_models(out) =~= Seq::empty());
    }
    while i < fields.len()
        invariant
            i <= fields@.len(),
            all == value::field_models(*fields),
            infoset::entry_models(out) == fields_nodes(all, i as nat),
        decreases fields@.len() - i,
    {
        proof {
            reveal(fields_nodes);
            reveal(field_nodes);
            assert(all[i as int] == (fields@[i as int].0@, fields@[i as int].1.model()));
            assert(decreases_to!(fields => fields@[i as int]));
        }
        let ghost before = infoset::entry_models(out);
        let f = &fields[i];
        let list = field_values_to_infoset_nodes(f.0.as_str(), &f.1);
        let key = f.0.copy();
        let ghost added = (key@, infoset::list_models(list));
        out.push((key, list));
        assert(infoset::entry_models(out) =~= before.push(added));
        i += 1;
    }
    out
}

fn items_to_nodes(name: &str, items: &Vec<DfdlValue>) -> (r: Vec<InfosetNode>)
    ensures
        infoset::list_models(r) == items_nodes(
            name@,
            value::item_models(*items),
            value::item_models(*items).len(),
        ),
    decreases items, 0int,
{
    let ghost all = value::item_models(*items);
    let mut out: Vec<InfosetNode> = Vec::new();
    let mut i: usize = 0;
    proof {
        reveal(items_nodes);
        reveal(value_node);
        assert(infoset::list_models(out) =~= Seq::empty());
    }
    while i < items.len()
        invariant
            i <= items@.len(),
            all == value::item_models(*items),
            infoset::list_models(out) == items_nodes(name@, all, i as nat),
        decreases items@.len() - i,
    {
        proof {
            reveal(items_nodes);
            reveal(value_node);
            assert(all[i as int] == items@[i as int].model());
            assert(decreases_to!(items => items@[i as int]));
        }
        let ghost before = infoset::list_models(out);
        let n = value_to_node(name, &items[i]);
        out.push(n);
        assert(infoset::list_models(out) =~= before.push(n.model()));
        i += 1;
    }
    out
}

/// A value as an infoset: a node for each field, or one for the whole.
pub open spec fn value_nodes(v: DfdlValueModel) -> Seq<InfosetNodeModel> {
    match v {
        DfdlValueModel::Sequence(fields) => Seq::new(
            fields.len(),
            |i: int| value_node(fields[i].0, fields[i].1),
        ),
        _ => seq![value_node("root"@, v)],
    }
}

/// A value as an infoset.
pub fn value_to_infoset(v: &DfdlValue) -> (r: Vec<InfosetNode>)
    ensures
        infoset::list_models(r) == value_nodes(v@),
{
    let mut out: Vec<InfosetNode> = Vec::new();
    if let DfdlValue::Sequence(fields) = v {
        let ghost all = value::field_models(fields.entries);
        let ghost want = value_nodes(v@);
        assert(all.len() == fields.entries@.len());
        assert(v@ == DfdlValueModel::Sequence(all));
        assert(infoset::list_models(out) =~= want.take(0));
        let mut i: usize = 0;
        while i < fields.entries.len()
            invariant
                i <= fields.entries@.len(),
                all == value::field_models(fields.entries),
                all.len() == fields.entries@.len(),
                want == value_nodes(DfdlValueModel::Sequence(all)),
                infoset::list_models(out) == want.take(i as int),
            decreases fields.entries@.len() - i,
        {
            let f = &fields.entries[i];
            assert(all[i as int] == (f.0@, f.1.model()));
            let n = value_to_node(f.0.as_str(), &f.1);
            let ghost before = infoset::list_models(out);
            out.push(n);
            assert(infoset::list_models(out) =~= before.push(n.model()));
            assert(want.take(i + 1) =~= want.take(i as int).push(want[i as int]));
            i += 1;
        }
        assert(want.take(want.len() as int) =~= want);
        return out;
    }
    let n = value_to_node("root", v);
    out.push(n);
    assert(infoset::list_models(out) =~= seq![n.model()]);
    out
}

/// Why a value is not the one that an infoset describes.
pub open spec fn infoset_mismatch(
    actual: DfdlValueModel,
    expected_xml: Seq<char>,
    pairs: Seq<(Seq<char>, Seq<char>)>,
    ctx: TdmlResourceContextModel,
) -> Option<Seq<char>> {
    match infoset::expected_nodes(expected_xml, ctx) {
        Err(e) => Some(e),
        Ok(expected) => compare::nodes_fault(expected, value_nodes(actual), pairs, ctx),
    }
}

/// A value is the one that an infoset describes. Texts that mean the same binary
/// floating point number are given in pairs.
pub fn compare_infoset_with_context(
    actual: &DfdlValue,
    expected_xml: &str,
    equal_numbers: &Vec<(String, String)>,
    ctx: &TdmlResourceContext,
) -> (r: Result<(), String>)
    ensures
        compare::verdict(r) == infoset_mismatch(
            actual@,
            expected_xml@,
            equal_numbers.deep_view(),
            ctx@,
        ),
{
    let expected = parse_expected_infoset_with_context(expected_xml, ctx)?;
    let nodes = value_to_infoset(actual);
    compare_nodes(&expected, &nodes, equal_numbers, ctx)
}

/// A value is the one that an infoset without files describes.
pub fn compare_infoset(
    actual: &DfdlValue,
    expected_xml: &str,
    equal_numbers: &Vec<(String, String)>,
) -> (r: Result<(), String>)
    ensures
        compare::verdict(r) == infoset_mismatch(
            actual@,
            expected_xml@,
            equal_numbers.deep_view(),
            suite::no_resources(),
        ),
{
    let ctx = TdmlResourceContext::default();
    compare_infoset_with_context(actual, expected_xml, equal_numbers, &ctx)
}

// From infosets to values.
/// The bytes that pairs of hexadecimal digits spell, from `i` on; a pair may also
/// be a plus sign and a digit.
pub open spec fn pair_bytes(s: Seq<char>, i: nat) -> Option<Seq<u8>>
    decreases s.len() - i,
{
    if i >= s.len() {
        Some(Seq::empty())
    } else if i + 1 >= s.len() {
        None
    } else {
        let high = if s[i as int] == '+' {
            Some(0nat)
        } else {
            entities::hex_digit(s[i as int])
        };
        match (high, entities::hex_digit(s[i as int + 1]), pair_bytes(s, i + 2)) {
            (Some(h), Some(l), Some(rest)) => Some(seq![(16 * h + l) as u8] + rest),
            _ => None,
        }
    }
}

fn high_digit(c: char) -> (r: Option<u32>)
    ensures
        match r {
            Some(v) => v < 16 && (if c == '+' {
                Some(0nat)
            } else {
                entities::hex_digit(c)
            }) == Some(v as nat),
            None => c != '+' && entities::hex_digit(c) is None,
        },
{
    if c == '+' {
        Some(0)
    } else {
        hex_digit_value(c)
    }
}

/// The bytes that hexadecimal digits spell, blanks aside.
pub fn decode_hex(text: &str) -> (r: Option<Vec<u8>>)
    ensures
        match r {
            Some(b) => pair_bytes(text::compact_spec(text@), 0) == Some(b@),
            None => pair_bytes(text::compact_spec(text@), 0) is None,
        },
{
    let c = chars_of(text);
    let s = compact(c.as_slice());
    let ghost all = s@;
    let mut out: Vec<u8> = Vec::new();
    let mut i: usize = 0;
    while i < s.len()
        invariant
            i <= s@.len(),
            all == s@,
            all == text::compact_spec(text@),
            match pair_bytes(all, i as nat) {
                Some(rest) => pair_bytes(all, 0) == Some(out@ + rest),
                None => pair_bytes(all, 0) is None,
            },
        decreases s@.len() - i,
    {
        if i >= s.len() - 1 {
            return None;
        }
        match (high_digit(s[i]), hex_digit_value(s[i + 1])) {
            (Some(h), Some(l)) => {
                let b: u8 = (16 * h + l) as u8;
                let ghost before = out@;
                out.push(b);
                proof {
                    if let Some(rest) = pair_bytes(all, i as nat + 2) {
                        assert(out@ + rest =~= before + (seq![b] + rest));
                    }
                }
                i += 2;
            },
            _ => {
                return None;
            },
        }
    }
    assert(out@ + Seq::<u8>::empty() =~= out@);
    Some(out)
}

/// A text that is no value of its kind, kept as it is.
pub open spec fn lexical_fallback(t: Seq<char>, kind: ValueKind) -> DfdlValueModel {
    match kind {
        ValueKind::Integer => DfdlValueModel::Integer(t),
        ValueKind::Decimal => DfdlValueModel::Decimal(t),
        ValueKind::DateTime => DfdlValueModel::DateTime(t),
        ValueKind::Time => DfdlValueModel::DateTime(t),
        _ => DfdlValueModel::String(t),
    }
}

/// The truth value that a text spells.
pub open spec fn truth_of(t: Seq<char>) -> Option<bool> {
    if t == "true"@ || t == "TRUE"@ || t == "1"@ {
        Some(true)
    } else if t == "false"@ || t == "FALSE"@ || t == "0"@ {
        Some(false)
    } else {
        None
    }
}

/// The value of a kind that a text spells; a text that spells none is kept.
pub open spec fn scalar_value(text: Seq<char>, kind: ValueKind) -> Result<
    DfdlValueModel,
    Seq<char>,
> {
    let t = text::trim_spec(text);
    let kept = lexical_fallback(t, kind);
    match kind {
        ValueKind::Boolean => Ok(
            match truth_of(t) {
                Some(b) => DfdlValueModel::Boolean(b),
                None => kept,
            },
        ),
        ValueKind::Byte => Ok(
            match numbers::i64_spec(t) {
                Some(v) => if -128 <= v <= 127 {
                    DfdlValueModel::Byte(v as i8)
                } else {
                    DfdlValueModel::Long(v)
                },
                None => kept,
            },
        ),
        ValueKind::Short => Ok(
            match numbers::i16_spec(t) {
                Some(v) => DfdlValueModel::Short(v),
                None => kept,
            },
        ),
        ValueKind::Int => Ok(
            match numbers::i32_spec(t) {
                Some(v) => DfdlValueModel::Int(v),
                None => kept,
            },
        ),
        ValueKind::Long => Ok(
            match numbers::i64_spec(t) {
                Some(v) => DfdlValueModel::Long(v),
                None => kept,
            },
        ),
        ValueKind::UnsignedByte => Ok(
            match numbers::unsigned_spec(t, u8::MAX as nat) {
                Some(v) => DfdlValueModel::UnsignedByte(v as u8),
                None => kept,
            },
        ),
        ValueKind::UnsignedShort => Ok(
            match numbers::unsigned_spec(t, u16::MAX as nat) {
                Some(v) => DfdlValueModel::UnsignedShort(v as u16),
                None => kept,
            },
        ),
        ValueKind::UnsignedInt => Ok(
            match numbers::unsigned_spec(t, u32::MAX as nat) {
                Some(v) => DfdlValueModel::UnsignedInt(v as u32),
                None => kept,
            },
        ),
        ValueKind::Float => Ok(
            if numbers::is_float_text(t) {
                DfdlValueModel::Float(t)
            } else {
                kept
            },
        ),
        ValueKind::Double => Ok(
            if numbers::is_float_text(t) {
                DfdlValueModel::Double(t)
            } else {
                kept
            },
        ),
        ValueKind::HexBinary => Ok(
            match pair_bytes(text::compact_spec(t), 0) {
                Some(b) => DfdlValueModel::HexBinary(b),
                None => kept,
            },
        ),
        ValueKind::Complex => if t.len() == 0 {
            Ok(DfdlValueModel::Sequence(Seq::empty()))
        } else {
            Err("complex element requires child elements in infoset"@)
        },
        _ => Ok(kept),
    }
}

/// A value, or why there is none.
pub open spec fn value_outcome(r: Result<DfdlValue, String>) -> Result<DfdlValueModel, Seq<char>> {
    match r {
        Ok(v) => Ok(v@),
        Err(e) => Err(e@),
    }
}

fn infoset_lexical_fallback(t: &[char], kind: ValueKind) -> (r: DfdlValue)
    ensures
        r@ == lexical_fallback(t@, kind),
{
    let s = string_of(t);
    match kind {
        ValueKind::Integer => DfdlValue::Integer(s),
        ValueKind::Decimal => DfdlValue::Decimal(s),
        ValueKind::DateTime => DfdlValue::DateTime(s),
        ValueKind::Time => DfdlValue::DateTime(s),
        _ => DfdlValue::String(s),
    }
}

fn no_fields() -> (r: DfdlValue)
    ensures
        r@ == DfdlValueModel::Sequence(Seq::empty()),
{
    DfdlValue::sequence(StrMap::new())
}

fn parse_number(t: &[char], kind: ValueKind) -> (r: Option<DfdlValue>)
    requires
        kind == ValueKind::Byte || kind == ValueKind::Short || kind == ValueKind::Int || kind
            == ValueKind::Long || kind == ValueKind::UnsignedByte || kind
            == ValueKind::UnsignedShort || kind == ValueKind::UnsignedInt,
    ensures
        match r {
            Some(v) => forall|s: Seq<char>|
                #[trigger] text::trim_spec(s) == t@ ==> scalar_value(s, kind) == Ok::<
                    DfdlValueModel,
                    Seq<char>,
                >(v@),
            None => forall|s: Seq<char>|
                #[trigger] text::trim_spec(s) == t@ ==> scalar_value(s, kind) == Ok::<
                    DfdlValueModel,
                    Seq<char>,
                >(lexical_fallback(t@, kind)),
        },
{
    match kind {
        ValueKind::Byte => match parse_i64(t) {
            Some(v) => if -128 <= v && v <= 127 {
                Some(DfdlValue::Byte(v as i8))
            } else {
                Some(DfdlValue::Long(v))
            },
            None => None,
        },
        ValueKind::Short => match parse_i16(t) {
            Some(v) => Some(DfdlValue::Short(v)),
            None => None,
        },
        ValueKind::Int => match parse_i32(t) {
            Some(v) => Some(DfdlValue::Int(v)),
            None => None,
        },
        ValueKind::Long => match parse_i64(t) {
            Some(v) => Some(DfdlValue::Long(v)),
            None => None,
        },
        ValueKind::UnsignedByte => match parse_unsigned(t, u8::MAX as u64) {
            Some(v) => Some(DfdlValue::UnsignedByte(v as u8)),
            None => None,
        },
        ValueKind::UnsignedShort => match parse_unsigned(t, u16::MAX as u64) {
            Some(v) => Some(DfdlValue::UnsignedShort(v as u16)),
            None => None,
        },
        _ => match parse_unsigned(t, u32::MAX as u64) {
            Some(v) => Some(DfdlValue::UnsignedInt(v as u32)),
            None => None,
        },
    }
}

/// The value of a kind that a text spells.
pub fn parse_scalar_for_kind(text: &str, kind: ValueKind) -> (r: Result<DfdlValue, String>)
    ensures
        value_outcome(r) == scalar_value(text@, kind),
{
    let c = chars_of(text);
    let t = trim(c.as_slice());
    match kind {
        ValueKind::Boolean => {
            if is(t, "true") || is(t, "TRUE") || is(t, "1") {
                return Ok(DfdlValue::Boolean(true));
            }
            if is(t, "false") || is(t, "FALSE") || is(t, "0") {
                return Ok(DfdlValue::Boolean(false));
            }
        },
        ValueKind::Float => {
            if float_text(t) {
                return Ok(DfdlValue::Float(string_of(t)));
            }
        },
        ValueKind::Double => {
            if float_text(t) {
                return Ok(DfdlValue::Double(string_of(t)));
            }
        },
        ValueKind::HexBinary => {
            let s = string_of(t);
            if let Some(b) = decode_hex(s.as_str()) {
                return Ok(DfdlValue::HexBinary(b));
            }
        },
        ValueKind::Complex => {
            if t.len() == 0 {
                return Ok(no_fields());
            }
            return Err(owned("complex element requires child elements in infoset"));
        },
        ValueKind::Byte | ValueKind::Short | ValueKind::Int | ValueKind::Long
        | ValueKind::UnsignedByte | ValueKind::UnsignedShort | ValueKind::UnsignedInt => {
            if let Some(v) = parse_number(t, kind) {
                return Ok(v);
            }
        },
        _ => {},
    }
    Ok(infoset_lexical_fallback(t, kind))
}

/// Fields with others put over them, from `j` on.
pub open spec fn overlaid(
    m: Seq<(Seq<char>, DfdlValueModel)>,
    other: Seq<(Seq<char>, DfdlValueModel)>,
    j: nat,
) -> Seq<(Seq<char>, DfdlValueModel)>
    decreases other.len() - j,
{
    if j >= other.len() {
        m
    } else {
        overlaid(strmap::with_entry(m, other[j as int].0, other[j as int].1), other, j + 1)
    }
}

/// Whether nodes are one node without contents.
pub open spec fn one_empty(found: Seq<InfosetNodeModel>) -> bool {
    found.len() == 1 && found[0].children.len() == 0 && !found[0].nil && (match found[0].text {
        Some(t) => t.len() == 0,
        None => true,
    })
}

/// The first branch from `i` on whose local name an infoset node holds.
pub open spec fn held_branch(
    branches: Seq<ChoiceBranchModel>,
    i: nat,
    n: InfosetNodeModel,
) -> Option<nat>
    decreases branches.len() - i,
{
    if i >= branches.len() {
        None
    } else if unparse_validate::named(n, qname::local_spec(branches[i as int].name)).len() > 0 {
        Some(i)
    } else {
        held_branch(branches, i + 1, n)
    }
}

/// Whether a branch from `i` on is a sequence without parts.
pub open spec fn has_empty_branch(branches: Seq<ChoiceBranchModel>, i: nat) -> bool
    decreases branches.len() - i,
{
    i < branches.len() && (branches[i as int].node == (IrNodeModel::Sequence {
        children: Seq::empty(),
    }) || has_empty_branch(branches, i + 1))
}

/// The value of a choice whose branch has this value: the fields of a branch that
/// is a sequence, or one field.
pub open spec fn branch_value(b: ChoiceBranchModel, v: DfdlValueModel) -> DfdlValueModel {
    match v {
        DfdlValueModel::Sequence(nested) if b.node is Sequence => DfdlValueModel::Sequence(
            overlaid(Seq::empty(), nested, 0),
        ),
        _ => DfdlValueModel::Sequence(seq![(b.name, v)]),
    }
}

/// The value that an infoset node gives for a part of the schema.
#[verifier::opaque]
pub open spec fn node_value(p: IrNodeModel, n: InfosetNodeModel) -> Result<
    DfdlValueModel,
    Seq<char>,
>
    decreases p, 0int, 0int,
{
    match p {
        IrNodeModel::Element { kind, child, .. } => if n.nil {
            Ok(DfdlValueModel::Null)
        } else if kind != ValueKind::Complex {
            scalar_value(compare::text_or_empty(n.text), kind)
        } else {
            match child {
                None => Ok(DfdlValueModel::Sequence(Seq::empty())),
                Some(c) => node_value(*c, n),
            }
        },
        IrNodeModel::Sequence { children } => match sequence_fields(children, children.len(), n) {
            Err(e) => Err(e),
            Ok(m) => Ok(DfdlValueModel::Sequence(m)),
        },
        IrNodeModel::Choice { branches } => match held_branch(branches, 0, n) {
            Some(i) => if i < branches.len() {
                let b = branches[i as int];
                let found = unparse_validate::named(n, qname::local_spec(b.name));
                match node_value(
                    b.node,
                    if found.len() == 1 {
                        found[0]
                    } else {
                        n
                    },
                ) {
                    Err(e) => Err(e),
                    Ok(v) => Ok(branch_value(b, v)),
                }
            } else {
                Ok(DfdlValueModel::Null)
            },
            None => if has_empty_branch(branches, 0) {
                Ok(DfdlValueModel::Sequence(Seq::empty()))
            } else {
                Err("infoset does not match any choice branch under `"@ + n.name + "`"@)
            },
        },
    }
}

/// The fields that an infoset node gives for the first `k` parts of a sequence. A
/// choice that it does not fit gives none.
#[verifier::opaque]
pub open spec fn sequence_fields(children: Seq<IrNodeModel>, k: nat, n: InfosetNodeModel) -> Result<
    Seq<(Seq<char>, DfdlValueModel)>,
    Seq<char>,
>
    decreases children, k, 0int,
{
    if k == 0 || k > children.len() {
        Ok(Seq::empty())
    } else {
        match sequence_fields(children, (k - 1) as nat, n) {
            Err(e) => Err(e),
            Ok(m) => match children[k - 1] {
                IrNodeModel::Element { name, kind, .. } => {
                    let found = unparse_validate::named(n, qname::local_spec(name));
                    if found.len() == 0 {
                        Ok(m)
                    } else if one_empty(found) {
                        Ok(
                            strmap::with_entry(
                                m,
                                name,
                                if kind == ValueKind::Complex {
                                    DfdlValueModel::Sequence(Seq::empty())
                                } else {
                                    DfdlValueModel::String(Seq::empty())
                                },
                            ),
                        )
                    } else if found.len() == 1 {
                        match node_value(children[k - 1], found[0]) {
                            Err(e) => Err(e),
                            Ok(v) => Ok(strmap::with_entry(m, name, v)),
                        }
                    } else {
                        match list_values(children[k - 1], found, found.len()) {
                            Err(e) => Err(e),
                            Ok(l) => Ok(strmap::with_entry(m, name, DfdlValueModel::Array(l))),
                        }
                    }
                },
                IrNodeModel::Sequence { .. } => match node_value(children[k - 1], n) {
                    Err(e) => Err(e),
                    Ok(DfdlValueModel::Sequence(nested)) => Ok(overlaid(m, nested, 0)),
                    Ok(_) => Ok(m),
                },
                IrNodeModel::Choice { .. } => match node_value(children[k - 1], n) {
                    Ok(DfdlValueModel::Sequence(nested)) => Ok(overlaid(m, nested, 0)),
                    _ => Ok(m),
                },
            },
        }
    }
}

/// The values of the first `k` occurrences of an element.
#[verifier::opaque]
pub open spec fn list_values(p: IrNodeModel, found: Seq<InfosetNodeModel>, k: nat) -> Result<
    Seq<DfdlValueModel>,
    Seq<char>,
>
    decreases p, 1int, k,
{
    if k == 0 || k > found.len() {
        Ok(Seq::empty())
    } else {
        match list_values(p, found, (k - 1) as nat) {
            Err(e) => Err(e),
            Ok(l) => match node_value(p, found[k - 1]) {
                Err(e) => Err(e),
                Ok(v) => Ok(l.push(v)),
            },
        }
    }
}

fn overlay(m: &mut StrMap<DfdlValue>, other: StrMap<DfdlValue>)
    ensures
        final(m)@ == overlaid(old(m)@, other@, 0),
{
    let ghost all = other@;
    let ghost begin = m@;
    let mut rest = other.entries;
    let ghost mut j: nat = 0;
    assert(rest.deep_view() =~= all.skip(0));
    while rest.len() > 0
        invariant
            j <= all.len(),
            rest.deep_view() == all.skip(j as int),
            overlaid(m@, all, j) == overlaid(begin, all, 0),
        decreases rest@.len(),
    {
        let ghost now = rest.deep_view();
        assert(now.len() == rest@.len());
        assert(now[0] == rest@[0].deep_view());
        let e = rest.remove(0);
        m.insert(e.0, e.1);
        proof {
            assert(all.skip(j as int)[0] == all[j as int]);
            j = j + 1;
            assert(rest.deep_view() =~= now.skip(1));
            assert(now.skip(1) =~= all.skip(j as int));
        }
    }
    assert(rest.deep_view().len() == 0);
}

fn find_held_branch(branches: &Vec<ChoiceBranch>, n: &InfosetNode) -> (r: Option<usize>)
    ensures
        match r {
            Some(i) => i < branches@.len() && held_branch(program::branch_models(*branches), 0, n@)
                == Some(i as nat),
            None => held_branch(program::branch_models(*branches), 0, n@) is None,
        },
{
    let ghost all = program::branch_models(*branches);
    let mut i: usize = 0;
    while i < branches.len()
        invariant
            i <= branches@.len(),
            all == program::branch_models(*branches),
            held_branch(all, 0, n@) == held_branch(all, i as nat, n@),
        decreases branches@.len() - i,
    {
        assert(all[i as int] == branches@[i as int].model());
        let local = local_name_from_qname(branches[i].name.as_str());
        let found = find_infoset_children(n, local.as_str());
        assert(unparse_validate::node_refs(found@).len() == found@.len());
        if found.len() > 0 {
            return Some(i);
        }
        i += 1;
    }
    None
}

fn find_empty_branch(branches: &Vec<ChoiceBranch>) -> (r: bool)
    ensures
        r == has_empty_branch(program::branch_models(*branches), 0),
{
    let ghost all = program::branch_models(*branches);
    let mut i: usize = 0;
    while i < branches.len()
        invariant
            i <= branches@.len(),
            all == program::branch_models(*branches),
            has_empty_branch(all, 0) == has_empty_branch(all, i as nat),
        decreases branches@.len() - i,
    {
        assert(all[i as int] == branches@[i as int].model());
        let empty = match &branches[i].node {
            IrNode::Sequence { children } => {
                assert(program::node_models(*children).len() == children@.len());
                assert(children@.len() == 0 ==> program::node_models(*children) =~= Seq::empty());
                children.len() == 0
            },
            _ => false,
        };
        if empty {
            return true;
        }
        i += 1;
    }
    false
}

fn make_branch_value(b: &ChoiceBranch, v: DfdlValue) -> (r: DfdlValue)
    ensures
        r@ == branch_value(b.model(), v@),
{
    let mut map: StrMap<DfdlValue> = StrMap::new();
    let hoist = match &b.node {
        IrNode::Sequence { .. } => true,
        _ => false,
    };
    match v {
        DfdlValue::Sequence(nested) => {
            proof {
                lemma_fields(nested);
            }
            if hoist {
                overlay(&mut map, nested);
            } else {
                map.insert(b.name.copy(), DfdlValue::Sequence(nested));
                assert(map@ =~= seq![(b.name@, v@)]);
            }
        },
        other => {
            map.insert(b.name.copy(), other);
            assert(map@ =~= seq![(b.name@, v@)]);
        },
    }
    DfdlValue::sequence(map)
}

/// The value that an infoset node gives for a part of the schema.
pub fn infoset_node_to_ir_value(p: &IrNode, n: &InfosetNode) -> (r: Result<DfdlValue, String>)
    ensures
        value_outcome(r) == node_value(p@, n@),
    decreases p, 0int,
{
    proof {
        reveal(node_value);
        reveal(sequence_fields);
        reveal(list_values);
    }
    match p {
        IrNode::Element { kind, child, .. } => {
            if n.nil {
                return Ok(DfdlValue::Null);
            }
            if *kind != ValueKind::Complex {
                return match &n.text {
                    Some(t) => parse_scalar_for_kind(t.as_str(), *kind),
                    None => {
                        let t = String::new();
                        parse_scalar_for_kind(t.as_str(), *kind)
                    },
                };
            }
            match child {
                None => Ok(no_fields()),
                Some(c) => infoset_node_to_ir_value(c, n),
            }
        },
        IrNode::Sequence { children } => {
            assert(decreases_to!(p => *children));
            assert(program::node_models(*children).len() == children@.len());
            let m = infoset_sequence_children_to_value(children, n)?;
            Ok(DfdlValue::sequence(m))
        },
        IrNode::Choice { branches } => {
            assert(decreases_to!(p => *branches));
            choice_matched_branch_value(branches, n)
        },
    }
}

fn choice_matched_branch_value(branches: &Vec<ChoiceBranch>, n: &InfosetNode) -> (r: Result<
    DfdlValue,
    String,
>)
    ensures
        value_outcome(r) == node_value(
            IrNodeModel::Choice { branches: program::branch_models(*branches) },
            n@,
        ),
    decreases branches, 0int,
{
    proof {
        reveal(node_value);
        reveal(sequence_fields);
        reveal(list_values);
    }
    let ghost all = program::branch_models(*branches);
    if let Some(i) = find_held_branch(branches, n) {
        assert(all[i as int] == branches@[i as int].model());
        assert(decreases_to!(*branches => branches@[i as int]));
        let b = &branches[i];
        let local = local_name_from_qname(b.name.as_str());
        let found = find_infoset_children(n, local.as_str());
        assert(unparse_validate::node_refs(found@).len() == found@.len());
        let v = if found.len() == 1 {
            assert(unparse_validate::node_refs(found@)[0] == found@[0].model());
            infoset_node_to_ir_value(&b.node, found[0])?
        } else {
            infoset_node_to_ir_value(&b.node, n)?
        };
        return Ok(make_branch_value(b, v));
    }
    if find_empty_branch(branches) {
        return Ok(no_fields());
    }
    Err(cat3("infoset does not match any choice branch under `", n.name.as_str(), "`"))
}

fn values_of(p: &IrNode, found: &Vec<&InfosetNode>) -> (r: Result<Vec<DfdlValue>, String>)
    ensures
        match r {
            Ok(l) => list_values(p@, unparse_validate::node_refs(found@), found@.len()) == Ok::<
                Seq<DfdlValueModel>,
                Seq<char>,
            >(value::item_models(l)),
            Err(e) => exists|k: nat|
                #![trigger list_values(p@, unparse_validate::node_refs(found@), k)]
                k <= found@.len() && list_values(p@, unparse_validate::node_refs(found@), k)
                    == Err::<Seq<DfdlValueModel>, Seq<char>>(e@),
        },
    decreases p, 1int,
{
    let ghost all = unparse_validate::node_refs(found@);
    let mut out: Vec<DfdlValue> = Vec::new();
    let mut i: usize = 0;
    proof {
        reveal(list_values);
        assert(value::item_models(out) =~= Seq::empty());
    }
    while i < found.len()
        invariant
            i <= found@.len(),
            all == unparse_validate::node_refs(found@),
            all.len() == found@.len(),
            list_values(p@, all, i as nat) == Ok::<Seq<DfdlValueModel>, Seq<char>>(
                value::item_models(out),
            ),
        decreases found@.len() - i,
    {
        proof {
            reveal(list_values);
            reveal(node_value);
            assert(all[i as int] == found@[i as int].model());
        }
        let ghost before = value::item_models(out);
        match infoset_node_to_ir_value(p, found[i]) {
            Ok(v) => {
                out.push(v);
                assert(value::item_models(out) =~= before.push(v@));
            },
            Err(e) => {
                assert(list_values(p@, all, i as nat + 1) == Err::<Seq<DfdlValueModel>, Seq<char>>(
                    e@,
                ));
                return Err(e);
            },
        }
        i += 1;
    }
    Ok(out)
}

/// An error among the first occurrences stays.
proof fn lemma_list_error(p: IrNodeModel, found: Seq<InfosetNodeModel>, k: nat, m: nat)
    requires
        k <= m <= found.len(),
        list_values(p, found, k) is Err,
    ensures
        list_values(p, found, m) == list_values(p, found, k),
    decreases m - k,
{
    reveal(list_values);
    if k < m {
        lemma_list_error(p, found, k, (m - 1) as nat);
    }
}

/// An error among the first parts stays.
proof fn lemma_fields_error(children: Seq<IrNodeModel>, k: nat, m: nat, n: InfosetNodeModel)
    requires
        k <= m <= children.len(),
        sequence_fields(children, k, n) is Err,
    ensures
        sequence_fields(children, m, n) == sequence_fields(children, k, n),
    decreases m - k,
{
    reveal(sequence_fields);
    if k < m {
        lemma_fields_error(children, k, (m - 1) as nat, n);
    }
}

fn is_one_empty(found: &Vec<&InfosetNode>) -> (r: bool)
    ensures
        r == one_empty(unparse_validate::node_refs(found@)),
{
    assert(unparse_validate::node_refs(found@).len() == found@.len());
    if found.len() != 1 {
        return false;
    }
    let n = found[0];
    assert(unparse_validate::node_refs(found@)[0] == n.model());
    assert(infoset::entry_models(n.children.entries).len() == n.children.entries@.len());
    let no_text = match &n.text {
        Some(t) => {
            let c = chars_of(t.as_str());
            c.len() == 0
        },
        None => true,
    };
    n.children.entries.len() == 0 && !n.nil && no_text
}

/// The field that an infoset node gives for an element.
fn element_value(p: &IrNode, complex: bool, found: &Vec<&InfosetNode>) -> (r: Result<
    DfdlValue,
    String,
>)
    requires
        found@.len() > 0,
    ensures
        value_outcome(r) == (if one_empty(unparse_validate::node_refs(found@)) {
            Ok(
                if complex {
                    DfdlValueModel::Sequence(Seq::empty())
                } else {
                    DfdlValueModel::String(Seq::empty())
                },
            )
        } else if found@.len() == 1 {
            node_value(p@, unparse_validate::node_refs(found@)[0])
        } else {
            match list_values(p@, unparse_validate::node_refs(found@), found@.len()) {
                Err(e) => Err(e),
                Ok(l) => Ok(DfdlValueModel::Array(l)),
            }
        }),
    decreases p, 2int,
{
    if is_one_empty(found) {
        if complex {
            return Ok(no_fields());
        }
        return Ok(DfdlValue::String(String::new()));
    }
    if found.len() == 1 {
        assert(unparse_validate::node_refs(found@)[0] == found@[0].model());
        return infoset_node_to_ir_value(p, found[0]);
    }
    match values_of(p, found) {
        Ok(l) => Ok(DfdlValue::Array(l)),
        Err(e) => {
            proof {
                let all = unparse_validate::node_refs(found@);
                assert(all.len() == found@.len());
                let k = choose|k: nat|
                    #![trigger list_values(p@, all, k)]
                    k <= found@.len() && list_values(p@, all, k) == Err::<
                        Seq<DfdlValueModel>,
                        Seq<char>,
                    >(e@);
                lemma_list_error(p@, all, k, found@.len());
            }
            Err(e)
        },
    }
}

fn infoset_sequence_children_to_value(children: &Vec<IrNode>, n: &InfosetNode) -> (r: Result<
    StrMap<DfdlValue>,
    String,
>)
    ensures
        match r {
            Ok(m) => sequence_fields(program::node_models(*children), children@.len(), n@) == Ok::<
                Seq<(Seq<char>, DfdlValueModel)>,
                Seq<char>,
            >(m@),
            Err(e) => sequence_fields(program::node_models(*children), children@.len(), n@)
                == Err::<Seq<(Seq<char>, DfdlValueModel)>, Seq<char>>(e@),
        },
    decreases children, 0int,
{
    let ghost all = program::node_models(*children);
    let mut map: StrMap<DfdlValue> = StrMap::new();
    let mut i: usize = 0;
    proof {
        reveal(sequence_fields);
        reveal(node_value);
        reveal(list_values);
    }
    while i < children.len()
        invariant
            i <= children@.len(),
            all == program::node_models(*children),
            all.len() == children@.len(),
            sequence_fields(all, i as nat, n@) == Ok::<Seq<(Seq<char>, DfdlValueModel)>, Seq<char>>(
                map@,
            ),
        decreases children@.len() - i,
    {
        proof {
            reveal(sequence_fields);
            reveal(node_value);
            reveal(list_values);
            assert(all[i as int] == children@[i as int].model());
            assert(decreases_to!(children => children@[i as int]));
        }
        match &children[i] {
            IrNode::Element { name, kind, .. } => {
                let local = local_name_from_qname(name.as_str());
                let found = find_infoset_children(n, local.as_str());
                assert(unparse_validate::node_refs(found@).len() == found@.len());
                if found.len() > 0 {
                    match element_value(&children[i], *kind == ValueKind::Complex, &found) {
                        Ok(v) => {
                            map.insert(name.copy(), v);
                        },
                        Err(e) => {
                            proof {
                                lemma_fields_error(all, i as nat + 1, all.len(), n@);
                            }
                            return Err(e);
                        },
                    }
                }
            },
            IrNode::Sequence { .. } => {
                match infoset_node_to_ir_value(&children[i], n) {
                    Ok(DfdlValue::Sequence(nested)) => {
                        proof {
                            lemma_fields(nested);
                        }
                        overlay(&mut map, nested);
                    },
                    Ok(_) => {},
                    Err(e) => {
                        proof {
                            lemma_fields_error(all, i as nat + 1, all.len(), n@);
                        }
                        return Err(e);
                    },
                }
            },
            IrNode::Choice { .. } => {
                match infoset_node_to_ir_value(&children[i], n) {
                    Ok(DfdlValue::Sequence(nested)) => {
                        proof {
                            lemma_fields(nested);
                        }
                        overlay(&mut map, nested);
                    },
                    _ => {},
                }
            },
        }
        i += 1;
    }
    Ok(map)
}

/// The value of an infoset whose root has this name.
pub open spec fn root_value_of(
    nodes: Result<Seq<InfosetNodeModel>, Seq<char>>,
    root: Seq<char>,
    program: IrProgramModel,
) -> Result<DfdlValueModel, Seq<char>> {
    match nodes {
        Err(e) => Err(e),
        Ok(list) => match unparse_validate::root_at(list, root, 0) {
            None => Err("infoset missing root element `"@ + root + "`"@),
            Some(i) => match node_value(program.root, list[i as int]) {
                Err(e) => Err(e),
                Ok(v) => Ok(DfdlValueModel::Sequence(seq![(root, v)])),
            },
        },
    }
}

/// The value of an infoset, from its nodes.
pub fn infoset_nodes_to_root_value(nodes: &Vec<InfosetNode>, root: &str, program: &IrProgram) -> (r:
    Result<DfdlValue, String>)
    ensures
        value_outcome(r) == root_value_of(Ok(infoset::list_models(*nodes)), root@, program@),
{
    match find_root(nodes, root) {
        None => Err(cat3("infoset missing root element `", root, "`")),
        Some(i) => {
            assert(infoset::list_models(*nodes)[i as int] == nodes@[i as int].model());
            let v = infoset_node_to_ir_value(&program.root, &nodes[i])?;
            let mut map: StrMap<DfdlValue> = StrMap::new();
            map.insert(owned(root), v);
            assert(map@ =~= seq![(root@, v@)]);
            Ok(DfdlValue::sequence(map))
        },
    }
}

/// The value of an infoset.
pub fn infoset_xml_to_root_value_with_target_ns(
    infoset_xml: &str,
    root: &str,
    program: &IrProgram,
    ctx: &TdmlResourceContext,
    target_namespace: Option<&str>,
) -> (r: Result<DfdlValue, String>)
    ensures
        value_outcome(r) == root_value_of(
            infoset::expected_nodes(infoset_xml@, ctx@),
            root@,
            program@,
        ),
{
    let nodes = parse_expected_infoset_with_target_ns(infoset_xml, ctx, target_namespace)?;
    infoset_nodes_to_root_value(&nodes, root, program)
}

/// The value of an infoset.
pub fn infoset_xml_to_root_value_with_context(
    infoset_xml: &str,
    root: &str,
    program: &IrProgram,
    ctx: &TdmlResourceContext,
) -> (r: Result<DfdlValue, String>)
    ensures
        value_outcome(r) == root_value_of(
            infoset::expected_nodes(infoset_xml@, ctx@),
            root@,
            program@,
        ),
{
    infoset_xml_to_root_value_with_target_ns(infoset_xml, root, program, ctx, None)
}

/// The value of an infoset without files.
pub fn infoset_xml_to_root_value(infoset_xml: &str, root: &str, program: &IrProgram) -> (r: Result<
    DfdlValue,
    String,
>)
    ensures
        value_outcome(r) == root_value_of(
            infoset::expected_nodes(infoset_xml@, suite::no_resources()),
            root@,
            program@,
        ),
{
    let ctx = TdmlResourceContext::default();
    infoset_xml_to_root_value_with_context(infoset_xml, root, program, &ctx)
}

// Round trips.
proof fn lemma_signed_text(n: int)
    ensures
        numbers::signed_decimal(n).len() > 0,
        text::trim_spec(numbers::signed_decimal(n)) == numbers::signed_decimal(n),
        forall|min: int, max: int|
            min <= n <= max ==> #[trigger] numbers::signed_spec(
                numbers::signed_decimal(n),
                min,
                max,
            ) == Some(n),
{
    let s = numbers::signed_decimal(n);
    let size = (if n < 0 {
        -n
    } else {
        n
    }) as nat;
    let d = numbers::decimal(size);
    numbers::law_decimal_digits(size);
    assert(numbers::is_digit(d[0]));
    assert(numbers::is_digit(d[d.len() - 1]));
    if n < 0 {
        assert(s.skip(1) =~= d);
        assert(s[0] == '-');
        assert(s.last() == d[d.len() - 1]);
    }
    assert(!text::is_white(s[0]));
    assert(!text::is_white(s.last()));
}

/// The integers of a kind, other than those kept as text.
pub open spec fn in_kind(n: int, kind: ValueKind) -> bool {
    match kind {
        ValueKind::Byte => i8::MIN <= n <= i8::MAX,
        ValueKind::Short => i16::MIN <= n <= i16::MAX,
        ValueKind::Int => i32::MIN <= n <= i32::MAX,
        ValueKind::Long => i64::MIN <= n <= i64::MAX,
        ValueKind::UnsignedByte => 0 <= n <= u8::MAX,
        ValueKind::UnsignedShort => 0 <= n <= u16::MAX,
        ValueKind::UnsignedInt => 0 <= n <= u32::MAX,
        _ => false,
    }
}

/// An integer as a value of its kind.
pub open spec fn integer_value(n: int, kind: ValueKind) -> DfdlValueModel {
    match kind {
        ValueKind::Byte => DfdlValueModel::Byte(n as i8),
        ValueKind::Short => DfdlValueModel::Short(n as i16),
        ValueKind::Int => DfdlValueModel::Int(n as i32),
        ValueKind::Long => DfdlValueModel::Long(n as i64),
        ValueKind::UnsignedByte => DfdlValueModel::UnsignedByte(n as u8),
        ValueKind::UnsignedShort => DfdlValueModel::UnsignedShort(n as u16),
        _ => DfdlValueModel::UnsignedInt(n as u32),
    }
}

/// An integer that is written to an infoset is read back from it.
pub proof fn law_integer_round_trip(n: int, kind: ValueKind)
    requires
        in_kind(n, kind),
    ensures
        scalar_value(scalar_text(integer_value(n, kind)), kind) == Ok::<DfdlValueModel, Seq<char>>(
            integer_value(n, kind),
        ),
{
    lemma_signed_text(n);
    let s = numbers::signed_decimal(n);
    assert(scalar_text(integer_value(n, kind)) == s);
    assert(numbers::signed_spec(s, i64::MIN as int, i64::MAX as int) == Some(n));
    if kind == ValueKind::Int {
        assert(numbers::signed_spec(s, i32::MIN as int, i32::MAX as int) == Some(n));
    }
    if kind == ValueKind::Short {
        assert(numbers::signed_spec(s, i16::MIN as int, i16::MAX as int) == Some(n));
    }
    if n >= 0 {
        numbers::law_decimal_digits(n as nat);
        assert(numbers::is_digit(s[0]));
        assert(numbers::unplus(s) == s);
    }
}

/// A truth value that is written to an infoset is read back from it.
pub proof fn law_boolean_round_trip(b: bool)
    ensures
        scalar_value(scalar_text(DfdlValueModel::Boolean(b)), ValueKind::Boolean) == Ok::<
            DfdlValueModel,
            Seq<char>,
        >(DfdlValueModel::Boolean(b)),
{
    reveal_strlit("true");
    reveal_strlit("false");
    reveal_strlit("TRUE");
    reveal_strlit("FALSE");
    reveal_strlit("1");
    reveal_strlit("0");
    let s = scalar_text(DfdlValueModel::Boolean(b));
    assert(!text::is_white(s[0]));
    assert(!text::is_white(s.last()));
    assert("false"@.len() == 5);
    assert("true"@.len() == 4);
    assert("TRUE"@[0] == 'T');
    assert("false"@ != "true"@);
    assert("false"@ != "TRUE"@);
    assert("false"@ != "1"@);
}

proof fn lemma_hex_pairs(bytes: Seq<u8>, i: nat)
    requires
        i <= bytes.len(),
    ensures
        pair_bytes(bits::hex_text(bytes), 2 * i) == Some(bytes.skip(i as int)),
    decreases bytes.len() - i,
{
    let t = bits::hex_text(bytes);
    if i < bytes.len() {
        lemma_hex_pairs(bytes, i + 1);
        let b = bytes[i as int];
        assert(2 * i + 2 == 2 * (i + 1));
        assert(t[2 * i as int] == bits::hex_char(b as int / 16));
        assert(t[2 * i as int + 1] == bits::hex_char(b as int % 16));
        assert(entities::hex_digit(t[2 * i as int]) == Some((b as int / 16) as nat));
        assert(entities::hex_digit(t[2 * i as int + 1]) == Some((b as int % 16) as nat));
        assert(t[2 * i as int] != '+');
        assert((16 * (b as int / 16) + b as int % 16) as u8 == b);
        assert(seq![b] + bytes.skip(i as int + 1) =~= bytes.skip(i as int));
    } else {
        assert(bytes.skip(i as int) =~= Seq::<u8>::empty());
    }
}

proof fn lemma_compact_same(s: Seq<char>)
    requires
        forall|i: int| 0 <= i < s.len() ==> !text::is_white(#[trigger] s[i]),
    ensures
        text::compact_spec(s) == s,
    decreases s.len(),
{
    if s.len() > 0 {
        let t = s.drop_last();
        assert forall|i: int| 0 <= i < t.len() implies !text::is_white(#[trigger] t[i]) by {
            assert(t[i] == s[i]);
        }
        assert(!text::is_white(s[s.len() - 1]));
        lemma_compact_same(t);
        assert(t.push(s.last()) =~= s);
    }
}

/// Bytes that are written to an infoset are read back from it.
pub proof fn law_bytes_round_trip(bytes: Seq<u8>)
    ensures
        scalar_value(scalar_text(DfdlValueModel::HexBinary(bytes)), ValueKind::HexBinary) == Ok::<
            DfdlValueModel,
            Seq<char>,
        >(DfdlValueModel::HexBinary(bytes)),
{
    let t = bits::hex_text(bytes);
    assert forall|i: int| 0 <= i < t.len() implies !text::is_white(#[trigger] t[i]) by {
        let n = if i % 2 == 0 {
            bytes[i / 2] as int / 16
        } else {
            bytes[i / 2] as int % 16
        };
        assert(t[i] == bits::hex_char(n));
    }
    if t.len() > 0 {
        assert(!text::is_white(t[0]));
        assert(!text::is_white(t[t.len() - 1]));
    }
    assert(text::trim_spec(t) == t);
    lemma_compact_same(t);
    lemma_hex_pairs(bytes, 0);
    assert(bytes.skip(0) =~= bytes);
}

} // verus!
