//! Messages about values that a schema does not allow.

use vstd::prelude::*;
use crate::ast::{SchemaDocument, SchemaDocumentModel, TypeName};
use crate::error::{cat2, cat3, cat4, cat5, cat7};
use crate::numbers;
use crate::numbers::{decimal_chars, digit, signed_chars};
use crate::program;
use crate::program::{
    ChoiceBranch, ChoiceBranchModel, IrFacets, IrFacetsModel, IrNode, IrNodeModel, IrProgram,
    IrProgramModel, IrProps, IrPropsModel, ValueKind,
};
use crate::strmap;
use crate::strmap::StrMap;
use crate::text;
use crate::text::{
    chars_of, contains, eq, find_char, is, join, part, rfind_char, starts_with, string_of,
    strip_prefix, trim, trim_start_matches,
};
use crate::union_validate;
use crate::union_validate::validate_union_membership;
use crate::value;
use crate::value::{lemma_fields, DfdlValue, DfdlValueModel};
use crate::values::{owned, Duplicate};

verus! {

broadcast use vstd::string::group_string_axioms;

// What there is to check.
/// A part of a value that is checked: a simple value of an element, or how often
/// an element occurs.
pub enum Visit<'a> {
    Simple { name: &'a String, kind: ValueKind, facets: &'a IrFacets, value: &'a DfdlValue },
    Counted { name: &'a String, min: u64, max: Option<u64>, count: u64 },
}

/// What a [`Visit`] holds, its text as character sequences.
#[verifier::ext_equal]
pub enum VisitModel {
    Simple { name: Seq<char>, kind: ValueKind, facets: IrFacetsModel, value: DfdlValueModel },
    Counted { name: Seq<char>, min: u64, max: Option<u64>, count: nat },
}

impl<'a> View for Visit<'a> {
    type V = VisitModel;

    open spec fn view(&self) -> VisitModel {
        match self {
            Visit::Simple { name, kind, facets, value } => VisitModel::Simple {
                name: name@,
                kind: *kind,
                facets: facets@,
                value: value@,
            },
            Visit::Counted { name, min, max, count } => VisitModel::Counted {
                name: name@,
                min: *min,
                max: *max,
                count: *count as nat,
            },
        }
    }
}

/// What each part of a list holds.
pub open spec fn visit_models(v: Seq<Visit<'_>>) -> Seq<VisitModel> {
    v.map(|i: int, x: Visit<'_>| x@)
}

/// The value of a complex element: the field of its name, or the value itself.
pub open spec fn inner_value(v: DfdlValueModel, name: Seq<char>) -> DfdlValueModel {
    match v {
        DfdlValueModel::Sequence(fields) => match strmap::lookup(fields, name) {
            Some(x) => x,
            None => v,
        },
        _ => v,
    }
}

/// The branch from `i` on with this name.
pub open spec fn branch_of(branches: Seq<ChoiceBranchModel>, name: Seq<char>, i: nat) -> Option<nat>
    decreases branches.len() - i,
{
    if i >= branches.len() {
        None
    } else if branches[i as int].name == name {
        Some(i)
    } else {
        branch_of(branches, name, i + 1)
    }
}

/// The branch from `i` on that is a field.
pub open spec fn branch_in(
    branches: Seq<ChoiceBranchModel>,
    fields: Seq<(Seq<char>, DfdlValueModel)>,
    i: nat,
) -> Option<nat>
    decreases branches.len() - i,
{
    if i >= branches.len() {
        None
    } else if strmap::lookup(fields, branches[i as int].name) is Some {
        Some(i)
    } else {
        branch_in(branches, fields, i + 1)
    }
}

/// What is checked of a value, in the order of the schema.
#[verifier::opaque]
pub open spec fn visits(p: IrNodeModel, v: DfdlValueModel) -> Seq<VisitModel>
    decreases p, 0int, 0int,
{
    match p {
        IrNodeModel::Element { name, kind, child, props } => if kind == ValueKind::Complex {
            match child {
                Some(c) => visits(*c, inner_value(v, name)),
                None => Seq::empty(),
            }
        } else if v is Null {
            Seq::empty()
        } else {
            seq![VisitModel::Simple { name, kind, facets: props.facets, value: v }]
        },
        IrNodeModel::Sequence { children } => match v {
            DfdlValueModel::Sequence(fields) => sequence_visits(children, 0, fields),
            _ => Seq::empty(),
        },
        IrNodeModel::Choice { branches } => match v {
            DfdlValueModel::Choice { discriminator, value } => match branch_of(
                branches,
                discriminator,
                0,
            ) {
                Some(i) => if i < branches.len() {
                    visits(branches[i as int].node, *value)
                } else {
                    Seq::empty()
                },
                None => Seq::empty(),
            },
            DfdlValueModel::Sequence(fields) => match branch_in(branches, fields, 0) {
                Some(i) => if i < branches.len() {
                    visits(
                        branches[i as int].node,
                        strmap::lookup(fields, branches[i as int].name)->0,
                    )
                } else {
                    Seq::empty()
                },
                None => Seq::empty(),
            },
            _ => Seq::empty(),
        },
    }
}

/// What is checked of fields, for the elements of a sequence from `i` on.
#[verifier::opaque]
pub open spec fn sequence_visits(
    children: Seq<IrNodeModel>,
    i: nat,
    fields: Seq<(Seq<char>, DfdlValueModel)>,
) -> Seq<VisitModel>
    decreases children, children.len() - i, 0int,
{
    if i >= children.len() {
        Seq::empty()
    } else {
        (match children[i as int] {
            IrNodeModel::Element { name, props, .. } => match strmap::lookup(fields, name) {
                None => Seq::empty(),
                Some(DfdlValueModel::Array(items)) => seq![
                    VisitModel::Counted {
                        name,
                        min: props.occurs_min,
                        max: props.occurs_max,
                        count: items.len(),
                    },
                ] + item_visits(children[i as int], items, 0),
                Some(x) => visits(children[i as int], x),
            },
            _ => Seq::empty(),
        }) + sequence_visits(children, i + 1, fields)
    }
}

/// What is checked of the occurrences of an element from `j` on.
#[verifier::opaque]
pub open spec fn item_visits(p: IrNodeModel, items: Seq<DfdlValueModel>, j: nat) -> Seq<VisitModel>
    decreases p, 1int, items.len() - j,
{
    if j >= items.len() {
        Seq::empty()
    } else {
        visits(p, items[j as int]) + item_visits(p, items, j + 1)
    }
}

fn complex_element_value<'a>(v: &'a DfdlValue, name: &str) -> (r: &'a DfdlValue)
    ensures
        r@ == inner_value(v@, name@),
{
    if let DfdlValue::Sequence(fields) = v {
        proof {
            lemma_fields(*fields);
        }
        if let Some(x) = fields.get(name) {
            return x;
        }
    }
    v
}

fn find_branch(branches: &Vec<ChoiceBranch>, name: &str) -> (r: Option<usize>)
    ensures
        match r {
            Some(i) => i < branches@.len() && branch_of(program::branch_models(*branches), name@, 0)
                == Some(i as nat),
            None => branch_of(program::branch_models(*branches), name@, 0) is None,
        },
{
    let ghost all = program::branch_models(*branches);
    let mut i: usize = 0;
    while i < branches.len()
        invariant
            i <= branches@.len(),
            all == program::branch_models(*branches),
            branch_of(all, name@, 0) == branch_of(all, name@, i as nat),
        decreases branches@.len() - i,
    {
        assert(all[i as int] == branches@[i as int].model());
        if eq(branches[i].name.as_str(), name) {
            return Some(i);
        }
        i += 1;
    }
    None
}

fn find_branch_field<'a>(branches: &Vec<ChoiceBranch>, fields: &'a StrMap<DfdlValue>) -> (r: Option<
    (usize, &'a DfdlValue),
>)
    ensures
        match r {
            Some((i, x)) => i < branches@.len() && branch_in(
                program::branch_models(*branches),
                fields@,
                0,
            ) == Some(i as nat) && strmap::lookup(fields@, branches@[i as int].name@) == Some(x@),
            None => branch_in(program::branch_models(*branches), fields@, 0) is None,
        },
{
    let ghost all = program::branch_models(*branches);
    let mut i: usize = 0;
    while i < branches.len()
        invariant
            i <= branches@.len(),
            all == program::branch_models(*branches),
            branch_in(all, fields@, 0) == branch_in(all, fields@, i as nat),
        decreases branches@.len() - i,
    {
        assert(all[i as int] == branches@[i as int].model());
        if let Some(x) = fields.get(branches[i].name.as_str()) {
            return Some((i, x));
        }
        i += 1;
    }
    None
}

fn push_visit<'a>(out: &mut Vec<Visit<'a>>, x: Visit<'a>)
    ensures
        visit_models(final(out)@) == visit_models(old(out)@) + seq![x@],
{
    let ghost before = out@;
    out.push(x);
    assert(visit_models(out@) =~= visit_models(before) + seq![x@]);
}

/// Adds what is checked of a value to a list.
pub fn walk_particle<'a>(p: &'a IrNode, v: &'a DfdlValue, out: &mut Vec<Visit<'a>>)
    ensures
        visit_models(final(out)@) == visit_models(old(out)@) + visits(p@, v@),
    decreases p, 0int,
{
    proof {
        reveal(visits);
        reveal(sequence_visits);
        reveal(item_visits);
    }
    let ghost before = visit_models(out@);
    assert(before + Seq::<VisitModel>::empty() =~= before);
    match p {
        IrNode::Element { name, kind, child, props } => {
            if *kind == ValueKind::Complex {
                if let Some(c) = child {
                    let inner = complex_element_value(v, name.as_str());
                    walk_particle(c, inner, out);
                }
            } else {
                match v {
                    DfdlValue::Null => {},
                    _ => {
                        push_visit(
                            out,
                            Visit::Simple { name, kind: *kind, facets: &props.facets, value: v },
                        );
                    },
                }
            }
        },
        IrNode::Sequence { children } => {
            assert(decreases_to!(p => *children));
            if let DfdlValue::Sequence(fields) = v {
                proof {
                    lemma_fields(*fields);
                }
                walk_sequence(children, fields, out);
            }
        },
        IrNode::Choice { branches } => {
            assert(decreases_to!(p => *branches));
            let ghost all = program::branch_models(*branches);
            match v {
                DfdlValue::Choice { discriminator, value } => {
                    if let Some(i) = find_branch(branches, discriminator.as_str()) {
                        assert(all[i as int] == branches@[i as int].model());
                        assert(decreases_to!(*branches => branches@[i as int]));
                        walk_particle(&branches[i].node, value, out);
                    }
                },
                DfdlValue::Sequence(fields) => {
                    proof {
                        lemma_fields(*fields);
                    }
                    if let Some((i, x)) = find_branch_field(branches, fields) {
                        assert(all[i as int] == branches@[i as int].model());
                        assert(decreases_to!(*branches => branches@[i as int]));
                        walk_particle(&branches[i].node, x, out);
                    }
                },
                _ => {},
            }
        },
    }
}

fn walk_items<'a>(p: &'a IrNode, items: &'a Vec<DfdlValue>, out: &mut Vec<Visit<'a>>)
    ensures
        visit_models(final(out)@) == visit_models(old(out)@) + item_visits(
            p@,
            value::item_models(*items),
            0,
        ),
    decreases p, 1int,
{
    let ghost before = visit_models(out@);
    let ghost all = value::item_models(*items);
    let mut j: usize = 0;
    while j < items.len()
        invariant
            j <= items@.len(),
            all == value::item_models(*items),
            visit_models(out@) + item_visits(p@, all, j as nat) == before + item_visits(p@, all, 0),
        decreases items@.len() - j,
    {
        proof {
            reveal(visits);
            reveal(item_visits);
            assert(all[j as int] == items@[j as int].model());
        }
        let ghost now = visit_models(out@);
        walk_particle(p, &items[j], out);
        assert(visit_models(out@) + item_visits(p@, all, j as nat + 1) =~= now + item_visits(
            p@,
            all,
            j as nat,
        ));
        j += 1;
    }
    proof {
        reveal(visits);
        reveal(item_visits);
        assert(visit_models(out@) + item_visits(p@, all, j as nat) =~= visit_models(out@));
    }
}

fn walk_sequence<'a>(
    children: &'a Vec<IrNode>,
    fields: &'a StrMap<DfdlValue>,
    out: &mut Vec<Visit<'a>>,
)
    ensures
        visit_models(final(out)@) == visit_models(old(out)@) + sequence_visits(
            program::node_models(*children),
            0,
            fields@,
        ),
    decreases children, 0int,
{
    let ghost before = visit_models(out@);
    let ghost all = program::node_models(*children);
    let mut i: usize = 0;
    while i < children.len()
        invariant
            i <= children@.len(),
            all == program::node_models(*children),
            visit_models(out@) + sequence_visits(all, i as nat, fields@) == before
                + sequence_visits(all, 0, fields@),
        decreases children@.len() - i,
    {
        proof {
            reveal(visits);
            reveal(sequence_visits);
            reveal(item_visits);
            assert(all[i as int] == children@[i as int].model());
            assert(decreases_to!(children => children@[i as int]));
        }
        let ghost now = visit_models(out@);
        let ghost rest = sequence_visits(all, i as nat + 1, fields@);
        if let IrNode::Element { name, props, .. } = &children[i] {
            if let Some(x) = fields.get(name.as_str()) {
                if let DfdlValue::Array(items) = x {
                    assert(value::item_models(*items).len() == items@.len());
                    push_visit(
                        out,
                        Visit::Counted {
                            name,
                            min: props.occurs_min,
                            max: props.occurs_max,
                            count: items.len() as u64,
                        },
                    );
                    walk_items(&children[i], items, out);
                } else {
                    walk_particle(&children[i], x, out);
                }
            }
        }
        assert(visit_models(out@) + rest =~= now + sequence_visits(all, i as nat, fields@));
        i += 1;
    }
    proof {
        reveal(visits);
        reveal(sequence_visits);
        reveal(item_visits);
        assert(visit_models(out@) + sequence_visits(all, i as nat, fields@) =~= visit_models(out@));
    }
}

/// The value of the root element.
pub open spec fn root_value(v: DfdlValueModel, root: Seq<char>) -> DfdlValueModel {
    inner_value(v, root)
}

/// What is checked of a value that was read with a compiled schema.
pub fn collect_visits<'a>(program: &'a IrProgram, root_value: &'a DfdlValue) -> (r: Vec<Visit<'a>>)
    ensures
        visit_models(r@) == visits(
            program@.root,
            self::root_value(root_value@, program@.root_element),
        ),
{
    let mut out: Vec<Visit<'a>> = Vec::new();
    let v = complex_element_value(root_value, program.root_element.as_str());
    assert(visit_models(out@) =~= Seq::empty());
    walk_particle(&program.root, v, &mut out);
    out
}

// The messages.
/// The text between the first opening and the last closing parenthesis.
pub open spec fn in_parentheses(s: Seq<char>) -> Option<Seq<char>> {
    match (text::char_pos(s, '('), text::char_rpos(s, ')')) {
        (Some(a), Some(b)) => if a < b {
            Some(s.subrange(a + 1, b))
        } else {
            None
        },
        _ => None,
    }
}

fn parenthesized(s: &str) -> (r: Option<String>)
    ensures
        text::str_opt(r) == in_parentheses(s@),
{
    let c = chars_of(s);
    proof {
        text::lemma_char_pos(s@, '(');
        text::lemma_char_rpos(s@, ')');
    }
    match (find_char(c.as_slice(), '('), rfind_char(c.as_slice(), ')')) {
        (Some(a), Some(b)) => {
            if a < b {
                Some(string_of(part(c.as_slice(), a + 1, b)))
            } else {
                None
            }
        },
        _ => None,
    }
}

/// The text of a value that is text.
pub open spec fn lexical(v: DfdlValueModel) -> Option<Seq<char>> {
    match v {
        DfdlValueModel::String(s) => Some(s),
        _ => None,
    }
}

fn value_lexical(v: &DfdlValue) -> (r: Option<String>)
    ensures
        text::str_opt(r) == lexical(v@),
{
    match v {
        DfdlValue::String(s) => Some(s.copy()),
        _ => None,
    }
}

/// The text of a value that is text or an integer of this kind.
pub open spec fn lexical_any(v: DfdlValueModel, kind: ValueKind) -> Option<Seq<char>> {
    match (kind, v) {
        (_, DfdlValueModel::String(s)) => Some(s),
        (ValueKind::Int, DfdlValueModel::Int(n)) => Some(numbers::signed_decimal(n as int)),
        (ValueKind::Long, DfdlValueModel::Long(n)) => Some(numbers::signed_decimal(n as int)),
        (ValueKind::Short, DfdlValueModel::Short(n)) => Some(numbers::signed_decimal(n as int)),
        (ValueKind::Byte, DfdlValueModel::Byte(n)) => Some(numbers::signed_decimal(n as int)),
        (ValueKind::UnsignedInt, DfdlValueModel::UnsignedInt(n)) => Some(
            numbers::signed_decimal(n as int),
        ),
        (ValueKind::UnsignedShort, DfdlValueModel::UnsignedShort(n)) => Some(
            numbers::signed_decimal(n as int),
        ),
        (ValueKind::UnsignedByte, DfdlValueModel::UnsignedByte(n)) => Some(
            numbers::signed_decimal(n as int),
        ),
        _ => None,
    }
}

fn signed_text(n: i64) -> (r: String)
    ensures
        r@ == numbers::signed_decimal(n as int),
{
    let d = signed_chars(n);
    string_of(d.as_slice())
}

fn value_lexical_any(v: &DfdlValue, kind: ValueKind) -> (r: Option<String>)
    ensures
        text::str_opt(r) == lexical_any(v@, kind),
{
    match (kind, v) {
        (_, DfdlValue::String(s)) => Some(s.copy()),
        (ValueKind::Int, DfdlValue::Int(n)) => Some(signed_text(*n as i64)),
        (ValueKind::Long, DfdlValue::Long(n)) => Some(signed_text(*n)),
        (ValueKind::Short, DfdlValue::Short(n)) => Some(signed_text(*n as i64)),
        (ValueKind::Byte, DfdlValue::Byte(n)) => Some(signed_text(*n as i64)),
        (ValueKind::UnsignedInt, DfdlValue::UnsignedInt(n)) => Some(signed_text(*n as i64)),
        (ValueKind::UnsignedShort, DfdlValue::UnsignedShort(n)) => Some(signed_text(*n as i64)),
        (ValueKind::UnsignedByte, DfdlValue::UnsignedByte(n)) => Some(signed_text(*n as i64)),
        _ => None,
    }
}

/// The digits in a text.
pub open spec fn digits_in(s: Seq<char>) -> Seq<char>
    decreases s.len(),
{
    if s.len() == 0 {
        Seq::empty()
    } else if numbers::is_digit(s.last()) {
        digits_in(s.drop_last()).push(s.last())
    } else {
        digits_in(s.drop_last())
    }
}

/// How many digits a number has, without leading zeros.
pub open spec fn total_digits(lex: Seq<char>) -> nat {
    text::trim_start_char(digits_in(text::trim_spec(lex)), '0').len()
}

fn xsd_total_digit_count(lex: &str) -> (r: usize)
    ensures
        r == total_digits(lex@),
{
    let c = chars_of(lex);
    let s = trim(c.as_slice());
    let mut out: Vec<char> = Vec::new();
    let mut i: usize = 0;
    assert(s@.take(0) =~= Seq::<char>::empty());
    while i < s.len()
        invariant
            i <= s@.len(),
            out@ == digits_in(s@.take(i as int)),
        decreases s@.len() - i,
    {
        assert(s@.take(i + 1).drop_last() =~= s@.take(i as int));
        assert(s@.take(i + 1).last() == s@[i as int]);
        if digit(s[i]) {
            out.push(s[i]);
        }
        i += 1;
    }
    assert(s@.take(s@.len() as int) =~= s@);
    trim_start_matches(out.as_slice(), '0').len()
}

/// Nothing, or one text.
pub open spec fn at_most_one(o: Option<Seq<char>>) -> Seq<Seq<char>> {
    match o {
        Some(s) => seq![s],
        None => Seq::empty(),
    }
}

/// A text, unless it is empty.
pub open spec fn unless_empty(s: Seq<char>) -> Seq<Seq<char>> {
    if s.len() == 0 {
        Seq::empty()
    } else {
        seq![s]
    }
}

fn say(out: &mut Vec<String>, s: &str)
    ensures
        final(out).deep_view() == old(out).deep_view().push(s@),
{
    let ghost before = out.deep_view();
    out.push(owned(s));
    assert(out.deep_view() =~= before.push(s@));
}

fn say_some(out: &mut Vec<String>, o: &Option<String>)
    ensures
        final(out).deep_view() == old(out).deep_view() + at_most_one(o.deep_view()),
{
    let ghost before = out.deep_view();
    if let Some(s) = o {
        say(out, s.as_str());
    }
    assert(out.deep_view() =~= before + at_most_one(o.deep_view()));
}

fn say_unless_empty(out: &mut Vec<String>, s: &str)
    ensures
        final(out).deep_view() == old(out).deep_view() + unless_empty(s@),
{
    let ghost before = out.deep_view();
    let c = chars_of(s);
    if c.len() > 0 {
        say(out, s);
    }
    assert(out.deep_view() =~= before + unless_empty(s@));
}

/// The messages about a pattern.
pub open spec fn pattern_messages(
    detail: Seq<char>,
    name: Seq<char>,
    kind: ValueKind,
    v: DfdlValueModel,
    full: bool,
) -> Seq<Seq<char>> {
    let inner = in_parentheses(detail);
    let head = if full || kind == ValueKind::String {
        seq!["Validation Error"@, name, "pattern"@]
    } else {
        seq!["failed facet checks"@, "pattern"@]
    };
    let tail = match lexical(v) {
        Some(lex) if full && lex.len() > 0 => seq!["'"@ + lex + "'"@, "not facet-valid"@, "pattern"@]
            + match inner {
            Some(x) => seq!["'"@ + x + "'"@],
            None => Seq::empty(),
        },
        _ => Seq::empty(),
    };
    head + at_most_one(inner) + tail
}

fn say_pattern(detail: &str, name: &str, kind: ValueKind, v: &DfdlValue, full: bool) -> (r: Vec<
    String,
>)
    ensures
        r.deep_view() == pattern_messages(detail@, name@, kind, v@, full),
{
    let mut out: Vec<String> = Vec::new();
    let inner = parenthesized(detail);
    assert(inner.deep_view() == text::str_opt(inner));
    if full || kind == ValueKind::String {
        say(&mut out, "Validation Error");
        say(&mut out, name);
        say(&mut out, "pattern");
        assert(out.deep_view() =~= seq!["Validation Error"@, name@, "pattern"@]);
    } else {
        say(&mut out, "failed facet checks");
        say(&mut out, "pattern");
        assert(out.deep_view() =~= seq!["failed facet checks"@, "pattern"@]);
    }
    let ghost head = out.deep_view();
    say_some(&mut out, &inner);
    let ghost mid = out.deep_view();
    assert(mid =~= mid + Seq::<Seq<char>>::empty());
    if let Some(lex) = value_lexical(v) {
        let c = chars_of(lex.as_str());
        if full && c.len() > 0 {
            let q = cat3("'", lex.as_str(), "'");
            say(&mut out, q.as_str());
            say(&mut out, "not facet-valid");
            say(&mut out, "pattern");
            assert(out.deep_view() =~= mid + seq![q@, "not facet-valid"@, "pattern"@]);
            if let Some(x) = &inner {
                let y = cat3("'", x.as_str(), "'");
                say(&mut out, y.as_str());
                assert(out.deep_view() =~= mid + (seq![q@, "not facet-valid"@, "pattern"@] + seq![
                    y@,
                ]));
            } else {
                assert(out.deep_view() =~= mid + (seq![q@, "not facet-valid"@, "pattern"@]
                    + Seq::empty()));
            }
        }
    }
    out
}

/// Whether a bound is given for values.
pub open spec fn has_range(f: IrFacetsModel) -> bool {
    f.value_min_inclusive is Some || f.value_max_inclusive is Some || f.value_min_exclusive is Some
        || f.value_max_exclusive is Some
}

/// Whether values of this kind are integers of a fixed size, other than unsigned
/// ones of eight bytes.
pub open spec fn sized_integer(kind: ValueKind) -> bool {
    kind == ValueKind::Int || kind == ValueKind::Long || kind == ValueKind::Short || kind
        == ValueKind::Byte || kind == ValueKind::UnsignedInt || kind == ValueKind::UnsignedShort
        || kind == ValueKind::UnsignedByte
}

/// The messages about an integer that is too large.
pub open spec fn too_large_messages(name: Seq<char>, kind: ValueKind, v: DfdlValueModel) -> Seq<
    Seq<char>,
> {
    match lexical_any(v, kind) {
        Some(lex) => seq![
            "Validation Error"@,
            "Value '"@ + lex + "'"@,
            "not valid"@,
            "ex:"@ + name,
        ],
        None => Seq::empty(),
    }
}

fn say_too_large(name: &str, kind: ValueKind, v: &DfdlValue) -> (r: Vec<String>)
    ensures
        r.deep_view() == too_large_messages(name@, kind, v@),
{
    let mut out: Vec<String> = Vec::new();
    if let Some(lex) = value_lexical_any(v, kind) {
        let a = cat3("Value '", lex.as_str(), "'");
        let b = cat2("ex:", name);
        say(&mut out, "Validation Error");
        say(&mut out, a.as_str());
        say(&mut out, "not valid");
        say(&mut out, b.as_str());
    }
    assert(out.deep_view() =~= too_large_messages(name@, kind, v@));
    out
}

/// The messages about a text that is too short.
pub open spec fn too_short_messages(v: DfdlValueModel, f: IrFacetsModel) -> Seq<Seq<char>> {
    match (lexical(v), f.min_length) {
        (Some(lex), Some(min)) => seq![
            "Validation Error"@,
            "Value '"@ + lex + "' with length = '"@ + numbers::decimal(lex.len())
                + "' is not facet-valid with respect to minLength '"@ + numbers::decimal(min as nat)
                + "'"@,
        ],
        _ => Seq::empty(),
    }
}

fn decimal_text(n: u64) -> (r: String)
    ensures
        r@ == numbers::decimal(n as nat),
{
    let d = decimal_chars(n);
    string_of(d.as_slice())
}

fn say_too_short(v: &DfdlValue, f: &IrFacets) -> (r: Vec<String>)
    ensures
        r.deep_view() == too_short_messages(v@, f@),
{
    let mut out: Vec<String> = Vec::new();
    if let Some(lex) = value_lexical(v) {
        if let Some(min) = f.min_length {
            let c = chars_of(lex.as_str());
            let len = decimal_text(c.len() as u64);
            let least = decimal_text(min);
            let m = cat7(
                "Value '",
                lex.as_str(),
                "' with length = '",
                len.as_str(),
                "' is not facet-valid with respect to minLength '",
                least.as_str(),
                "'",
            );
            say(&mut out, "Validation Error");
            say(&mut out, m.as_str());
        }
    }
    assert(out.deep_view() =~= too_short_messages(v@, f@));
    out
}

/// The messages about a number with too many digits.
pub open spec fn digits_messages(
    name: Seq<char>,
    kind: ValueKind,
    v: DfdlValueModel,
    f: IrFacetsModel,
) -> Seq<Seq<char>> {
    match f.total_digits {
        None => Seq::empty(),
        Some(max) => {
            let limit = "total digits has been limited to "@ + numbers::decimal(max as nat);
            seq![name, "not valid"@] + (if !has_range(f) {
                seq![limit]
            } else {
                match lexical_any(v, kind) {
                    Some(lex) => seq![
                        name,
                        "Value '"@ + lex + "' has "@ + numbers::decimal(total_digits(lex))
                            + " total digits"@,
                        limit + "."@,
                    ],
                    None => Seq::empty(),
                }
            })
        },
    }
}

fn say_digits(name: &str, kind: ValueKind, v: &DfdlValue, f: &IrFacets) -> (r: Vec<String>)
    ensures
        r.deep_view() == digits_messages(name@, kind, v@, f@),
{
    let mut out: Vec<String> = Vec::new();
    if let Some(max) = f.total_digits {
        let m = decimal_text(max);
        let limit = cat2("total digits has been limited to ", m.as_str());
        say(&mut out, name);
        say(&mut out, "not valid");
        let ranged = f.value_min_inclusive.is_some() || f.value_max_inclusive.is_some()
            || f.value_min_exclusive.is_some() || f.value_max_exclusive.is_some();
        if !ranged {
            say(&mut out, limit.as_str());
        } else if let Some(lex) = value_lexical_any(v, kind) {
            let n = decimal_text(xsd_total_digit_count(lex.as_str()) as u64);
            let a = cat5(
                "Value '",
                lex.as_str(),
                "' has ",
                n.as_str(),
                " total digits",
            );
            let b = cat2(limit.as_str(), ".");
            say(&mut out, name);
            say(&mut out, a.as_str());
            say(&mut out, b.as_str());
        }
    }
    assert(out.deep_view() =~= digits_messages(name@, kind, v@, f@));
    out
}

/// The messages about a value that is not in an enumeration.
pub open spec fn enumeration_messages(
    name: Seq<char>,
    v: DfdlValueModel,
    f: IrFacetsModel,
) -> Seq<Seq<char>> {
    seq![name, "not valid"@] + at_most_one(lexical(v)) + seq!["not facet-valid"@] + unless_empty(
        text::joined(f.facet_enumeration, ", "@),
    )
}

fn say_enumeration(name: &str, v: &DfdlValue, f: &IrFacets) -> (r: Vec<String>)
    ensures
        r.deep_view() == enumeration_messages(name@, v@, f@),
{
    let mut out: Vec<String> = Vec::new();
    say(&mut out, name);
    say(&mut out, "not valid");
    assert(out.deep_view() =~= seq![name@, "not valid"@]);
    let lex = value_lexical(v);
    assert(lex.deep_view() == text::str_opt(lex));
    say_some(&mut out, &lex);
    let ghost mid = out.deep_view();
    say(&mut out, "not facet-valid");
    assert(out.deep_view() =~= mid + seq!["not facet-valid"@]);
    let allowed = join(&f.facet_enumeration, ", ");
    say_unless_empty(&mut out, allowed.as_str());
    out
}

/// The messages about a value outside its bounds.
pub open spec fn bound_messages(detail: Seq<char>, f: IrFacetsModel) -> Seq<Seq<char>> {
    seq!["Validation Error"@] + (if text::contains_spec(detail, "maxInclusive"@) {
        seq!["maxInclusive"@] + at_most_one(f.value_max_inclusive)
    } else if text::contains_spec(detail, "minInclusive"@) {
        seq!["minInclusive"@] + at_most_one(f.value_min_inclusive)
    } else if text::contains_spec(detail, "maxExclusive"@) {
        seq!["maxExclusive"@] + at_most_one(f.value_max_exclusive)
    } else if text::contains_spec(detail, "minExclusive"@) {
        seq!["minExclusive"@] + at_most_one(f.value_min_exclusive)
    } else {
        Seq::empty()
    })
}

fn say_bound(detail: &str, f: &IrFacets) -> (r: Vec<String>)
    ensures
        r.deep_view() == bound_messages(detail@, f@),
{
    let c = chars_of(detail);
    let mut out: Vec<String> = Vec::new();
    say(&mut out, "Validation Error");
    if contains(c.as_slice(), "maxInclusive") {
        say(&mut out, "maxInclusive");
        say_some(&mut out, &f.value_max_inclusive);
    } else if contains(c.as_slice(), "minInclusive") {
        say(&mut out, "minInclusive");
        say_some(&mut out, &f.value_min_inclusive);
    } else if contains(c.as_slice(), "maxExclusive") {
        say(&mut out, "maxExclusive");
        say_some(&mut out, &f.value_max_exclusive);
    } else if contains(c.as_slice(), "minExclusive") {
        say(&mut out, "minExclusive");
        say_some(&mut out, &f.value_min_exclusive);
    }
    assert(out.deep_view() =~= bound_messages(detail@, f@));
    out
}

/// The messages about any other facet.
pub open spec fn plain_messages(
    detail: Seq<char>,
    rest: Option<Seq<char>>,
    name: Seq<char>,
    f: IrFacetsModel,
    full: bool,
) -> Seq<Seq<char>> {
    seq![name, "failed facet checks"@] + (match rest {
        None => Seq::empty(),
        Some(r) => if text::contains_spec(r, "enumeration"@) {
            seq!["facet enumeration(s)"@] + unless_empty(text::joined(f.facet_enumeration, "|"@))
        } else if !full && text::contains_spec(r, "maxLength"@) {
            seq!["due to: facet "@ + r]
        } else if text::has_prefix(r, "facet "@) {
            seq![r]
        } else {
            seq!["facet "@ + r]
        },
    }) + (if full {
        seq![detail]
    } else {
        Seq::empty()
    })
}

fn say_plain(detail: &str, rest: &Option<String>, name: &str, f: &IrFacets, full: bool) -> (r: Vec<
    String,
>)
    ensures
        r.deep_view() == plain_messages(detail@, rest.deep_view(), name@, f@, full),
{
    let mut out: Vec<String> = Vec::new();
    say(&mut out, name);
    say(&mut out, "failed facet checks");
    assert(out.deep_view() =~= seq![name@, "failed facet checks"@]);
    let ghost head = out.deep_view();
    if let Some(r) = rest {
        let c = chars_of(r.as_str());
        if contains(c.as_slice(), "enumeration") {
            say(&mut out, "facet enumeration(s)");
            let allowed = join(&f.facet_enumeration, "|");
            say_unless_empty(&mut out, allowed.as_str());
            assert(out.deep_view() =~= head + (seq!["facet enumeration(s)"@] + unless_empty(
                allowed@,
            )));
        } else if !full && contains(c.as_slice(), "maxLength") {
            let m = cat2("due to: facet ", r.as_str());
            say(&mut out, m.as_str());
        } else if starts_with(c.as_slice(), "facet ") {
            say(&mut out, r.as_str());
        } else {
            let m = cat2("facet ", r.as_str());
            say(&mut out, m.as_str());
        }
    }
    if full {
        say(&mut out, detail);
    }
    assert(out.deep_view() =~= plain_messages(detail@, rest.deep_view(), name@, f@, full));
    out
}

/// What a complaint says behind its opening words.
pub open spec fn complaint_rest(detail: Seq<char>) -> Option<Seq<char>> {
    match text::after_prefix(detail, "failed facet checks due to: "@) {
        Some(r) => Some(text::trim_spec(r)),
        None => None,
    }
}

fn find_rest(detail: &str) -> (r: Option<String>)
    ensures
        r.deep_view() == complaint_rest(detail@),
{
    let c = chars_of(detail);
    match strip_prefix(c.as_slice(), "failed facet checks due to: ") {
        Some(r) => Some(string_of(trim(r))),
        None => None,
    }
}

/// Whether there is a text, and it holds another.
pub open spec fn mentions(rest: Option<Seq<char>>, what: Seq<char>) -> bool {
    match rest {
        Some(r) => text::contains_spec(r, what),
        None => false,
    }
}

fn rest_mentions(rest: &Option<String>, what: &str) -> (r: bool)
    ensures
        r == mentions(rest.deep_view(), what@),
{
    match rest {
        Some(s) => {
            let c = chars_of(s.as_str());
            contains(c.as_slice(), what)
        },
        None => false,
    }
}

/// The messages about a value that fails the check of its facets with this
/// complaint.
pub open spec fn facet_messages(
    detail: Seq<char>,
    name: Seq<char>,
    kind: ValueKind,
    v: DfdlValueModel,
    f: IrFacetsModel,
    full: bool,
) -> Seq<Seq<char>> {
    let rest = complaint_rest(detail);
    if text::contains_spec(detail, "facet pattern"@) {
        pattern_messages(detail, name, kind, v, full)
    } else if !text::contains_spec(detail, "failed facet checks"@) {
        seq!["Validation Error"@, name, "not valid"@, detail, "ex:"@ + name + " "@ + detail]
    } else if full && sized_integer(kind) && mentions(rest, "maxInclusive"@) {
        too_large_messages(name, kind, v)
    } else if full && mentions(rest, "minLength"@) && kind == ValueKind::String {
        too_short_messages(v, f)
    } else if full && mentions(rest, "totalDigits"@) {
        digits_messages(name, kind, v, f)
    } else if full && rest == Some("enumeration"@) {
        enumeration_messages(name, v, f)
    } else if full && (mentions(rest, "Inclusive"@) || mentions(rest, "Exclusive"@)) {
        bound_messages(detail, f)
    } else {
        plain_messages(detail, rest, name, f, full)
    }
}

/// The messages about a value that fails the check of its facets.
pub fn say_facets(
    detail: &str,
    name: &str,
    kind: ValueKind,
    v: &DfdlValue,
    f: &IrFacets,
    full: bool,
) -> (r: Vec<String>)
    ensures
        r.deep_view() == facet_messages(detail@, name@, kind, v@, f@, full),
{
    let c = chars_of(detail);
    if contains(c.as_slice(), "facet pattern") {
        return say_pattern(detail, name, kind, v, full);
    }
    if !contains(c.as_slice(), "failed facet checks") {
        let mut out: Vec<String> = Vec::new();
        let m = cat4("ex:", name, " ", detail);
        say(&mut out, "Validation Error");
        say(&mut out, name);
        say(&mut out, "not valid");
        say(&mut out, detail);
        say(&mut out, m.as_str());
        assert(out.deep_view() =~= seq!["Validation Error"@, name@, "not valid"@, detail@, m@]);
        return out;
    }
    let rest = find_rest(detail);
    let sized = kind == ValueKind::Int || kind == ValueKind::Long || kind == ValueKind::Short
        || kind == ValueKind::Byte || kind == ValueKind::UnsignedInt || kind
        == ValueKind::UnsignedShort || kind == ValueKind::UnsignedByte;
    if full && sized && rest_mentions(&rest, "maxInclusive") {
        return say_too_large(name, kind, v);
    }
    if full && rest_mentions(&rest, "minLength") && kind == ValueKind::String {
        return say_too_short(v, f);
    }
    if full && rest_mentions(&rest, "totalDigits") {
        return say_digits(name, kind, v, f);
    }
    let listed = match &rest {
        Some(r) => eq(r.as_str(), "enumeration"),
        None => false,
    };
    if full && listed {
        return say_enumeration(name, v, f);
    }
    if full && (rest_mentions(&rest, "Inclusive") || rest_mentions(&rest, "Exclusive")) {
        return say_bound(detail, f);
    }
    say_plain(detail, &rest, name, f, full)
}

/// The messages about how often an element occurs.
pub open spec fn count_messages(
    name: Seq<char>,
    min: u64,
    max: Option<u64>,
    count: nat,
    full: bool,
) -> Seq<Seq<char>> {
    let most = match max {
        Some(m) => m,
        None => u64::MAX,
    };
    let over = max is Some && count > most;
    let n = numbers::decimal(count);
    let a = numbers::decimal(min as nat);
    let z = numbers::decimal(most as nat);
    if count >= min && !over {
        Seq::empty()
    } else if full {
        if over {
            seq![name, n + " occur"@, "expected"@, "maximum of '"@ + z + "'"@, "exceeded"@]
        } else {
            Seq::empty()
        }
    } else {
        seq![name, "occurred"@, "expected"@, "minimum of '"@ + a + "'"@] + (if max is Some {
            seq!["maximum of '"@ + z + "'"@]
        } else {
            Seq::empty()
        }) + seq![
            name + " occurred '"@ + n + "' times when it was expected to be a minimum of '"@ + a
                + "' and a maximum of '"@ + z + "' times."@,
        ]
    }
}

/// The messages about how often an element occurs.
pub fn say_count(name: &str, min: u64, max: Option<u64>, count: u64, full: bool) -> (r: Vec<String>)
    ensures
        r.deep_view() == count_messages(name@, min, max, count as nat, full),
{
    let mut out: Vec<String> = Vec::new();
    let most = match max {
        Some(m) => m,
        None => u64::MAX,
    };
    let over = max.is_some() && count > most;
    let n = decimal_text(count);
    let a = decimal_text(min);
    let z = decimal_text(most);
    if count >= min && !over {
    } else if full {
        if over {
            let o = cat2(n.as_str(), " occur");
            let m = cat3("maximum of '", z.as_str(), "'");
            say(&mut out, name);
            say(&mut out, o.as_str());
            say(&mut out, "expected");
            say(&mut out, m.as_str());
            say(&mut out, "exceeded");
        }
    } else {
        let l = cat3("minimum of '", a.as_str(), "'");
        say(&mut out, name);
        say(&mut out, "occurred");
        say(&mut out, "expected");
        say(&mut out, l.as_str());
        if max.is_some() {
            let m = cat3("maximum of '", z.as_str(), "'");
            say(&mut out, m.as_str());
        }
        let s = cat7(
            name,
            " occurred '",
            n.as_str(),
            "' times when it was expected to be a minimum of '",
            a.as_str(),
            "' and a maximum of '",
            z.as_str(),
        );
        let t = cat2(s.as_str(), "' times.");
        say(&mut out, t.as_str());
    }
    assert(out.deep_view() =~= count_messages(name@, min, max, count as nat, full));
    out
}

/// The messages about a text that is no member of a union.
pub open spec fn union_messages(
    schema: SchemaDocumentModel,
    name: Seq<char>,
    v: DfdlValueModel,
    f: IrFacetsModel,
) -> Seq<Seq<char>> {
    match (f.xsd_type, lexical(v)) {
        (Some(t), Some(s)) => if union_validate::in_union(
            schema,
            t,
            s,
            union_validate::name_depth(schema),
        ) {
            Seq::empty()
        } else {
            seq![s, "not one of the union members"@, "ex:"@ + name]
        },
        _ => Seq::empty(),
    }
}

fn say_union(schema: &SchemaDocument, name: &str, v: &DfdlValue, f: &IrFacets) -> (r: Vec<String>)
    ensures
        r.deep_view() == union_messages(schema@, name@, v@, f@),
{
    let mut out: Vec<String> = Vec::new();
    if let Some(t) = &f.xsd_type {
        if let Some(s) = value_lexical(v) {
            let t = TypeName(t.copy());
            if !validate_union_membership(schema, &t, s.as_str()) {
                let m = cat2("ex:", name);
                say(&mut out, s.as_str());
                say(&mut out, "not one of the union members");
                say(&mut out, m.as_str());
            }
        }
    }
    assert(out.deep_view() =~= union_messages(schema@, name@, v@, f@));
    out
}

/// The messages about a part of a value, from the complaint that the check of its
/// facets made.
pub open spec fn visit_messages(
    schema: SchemaDocumentModel,
    x: VisitModel,
    detail: Option<Seq<char>>,
    full: bool,
) -> Seq<Seq<char>> {
    match x {
        VisitModel::Simple { name, kind, facets, value } => (match detail {
            Some(d) if facets.checked => facet_messages(d, name, kind, value, facets, full),
            _ => Seq::empty(),
        }) + union_messages(schema, name, value, facets),
        VisitModel::Counted { name, min, max, count } => count_messages(
            name,
            min,
            max,
            count,
            full,
        ),
    }
}

/// The complaint about the part at this position.
pub open spec fn complaint_at(details: Seq<Option<Seq<char>>>, i: nat) -> Option<Seq<char>> {
    if i < details.len() {
        details[i as int]
    } else {
        None
    }
}

/// The messages about the first `k` parts.
pub open spec fn all_messages(
    schema: SchemaDocumentModel,
    list: Seq<VisitModel>,
    k: nat,
    details: Seq<Option<Seq<char>>>,
    full: bool,
) -> Seq<Seq<char>>
    decreases k,
{
    if k == 0 || k > list.len() {
        Seq::empty()
    } else {
        all_messages(schema, list, (k - 1) as nat, details, full) + visit_messages(
            schema,
            list[k - 1],
            complaint_at(details, (k - 1) as nat),
            full,
        )
    }
}

fn extend(out: &mut Vec<String>, more: Vec<String>)
    ensures
        final(out).deep_view() == old(out).deep_view() + more.deep_view(),
{
    let ghost before = out.deep_view();
    let ghost all = more.deep_view();
    let mut i: usize = 0;
    assert(out.deep_view() =~= before + all.take(0));
    while i < more.len()
        invariant
            i <= more@.len(),
            all == more.deep_view(),
            out.deep_view() == before + all.take(i as int),
        decreases more@.len() - i,
    {
        assert(all[i as int] == more@[i as int]@);
        say(out, more[i].as_str());
        assert(out.deep_view() =~= before + all.take(i + 1));
        i += 1;
    }
    assert(all.take(all.len() as int) =~= all);
}

fn say_visit(schema: &SchemaDocument, x: &Visit<'_>, detail: &Option<String>, full: bool) -> (r: Vec<
    String,
>)
    ensures
        r.deep_view() == visit_messages(schema@, x@, detail.deep_view(), full),
{
    match x {
        Visit::Simple { name, kind, facets, value } => {
            let mut out: Vec<String> = Vec::new();
            if facets.checked {
                if let Some(d) = detail {
                    out = say_facets(d.as_str(), name.as_str(), *kind, value, facets, full);
                }
            }
            let ghost head = out.deep_view();
            let more = say_union(schema, name.as_str(), value, facets);
            extend(&mut out, more);
            assert(out.deep_view() =~= visit_messages(schema@, x@, detail.deep_view(), full));
            out
        },
        Visit::Counted { name, min, max, count } => say_count(
            name.as_str(),
            *min,
            *max,
            *count,
            full,
        ),
    }
}

/// The messages about a value, from the complaints that the checks of facets made
/// about the parts that [`collect_visits`] lists.
pub fn collect_post_decode_validation_errors(
    schema: &SchemaDocument,
    program: &IrProgram,
    root_value: &DfdlValue,
    details: &Vec<Option<String>>,
    full_xerces_style: bool,
) -> (r: Vec<String>)
    ensures
        r.deep_view() == value_messages(
            schema@,
            program@,
            root_value@,
            details.deep_view(),
            full_xerces_style,
        ),
{
    let list = collect_visits(program, root_value);
    let ghost all = visit_models(list@);
    let nothing: Option<String> = None;
    let mut out: Vec<String> = Vec::new();
    let mut i: usize = 0;
    assert(out.deep_view() =~= Seq::<Seq<char>>::empty());
    assert(all.len() == list@.len());
    while i < list.len()
        invariant
            i <= list@.len(),
            all == visit_models(list@),
            all.len() == list@.len(),
            nothing is None,
            out.deep_view() == all_messages(
                schema@,
                all,
                i as nat,
                details.deep_view(),
                full_xerces_style,
            ),
        decreases list@.len() - i,
    {
        assert(all[i as int] == list@[i as int]@);
        let more = if i < details.len() {
            assert(details.deep_view()[i as int] == details@[i as int].deep_view());
            say_visit(schema, &list[i], &details[i], full_xerces_style)
        } else {
            assert(nothing.deep_view() == None::<Seq<char>>);
            say_visit(schema, &list[i], &nothing, full_xerces_style)
        };
        extend(&mut out, more);
        i += 1;
    }
    out
}

/// The messages about a value that was read.
pub open spec fn value_messages(
    schema: SchemaDocumentModel,
    program: IrProgramModel,
    v: DfdlValueModel,
    details: Seq<Option<Seq<char>>>,
    full: bool,
) -> Seq<Seq<char>> {
    let list = visits(program.root, root_value(v, program.root_element));
    all_messages(schema, list, list.len(), details, full)
}

/// A value that breaks no rule on facets, unions and occurrences gives no messages.
pub proof fn law_no_fault_no_message(
    schema: SchemaDocumentModel,
    list: Seq<VisitModel>,
    k: nat,
    details: Seq<Option<Seq<char>>>,
    full: bool,
)
    requires
        forall|i: int|
            0 <= i < list.len() ==> match #[trigger] list[i] {
                VisitModel::Simple { name, facets, value, .. } => complaint_at(details, i as nat) is None
                    && union_messages(schema, name, value, facets).len() == 0,
                VisitModel::Counted { min, max, count, .. } => min <= count && (match max {
                    Some(m) => count <= m,
                    None => true,
                }),
            },
        k <= list.len(),
    ensures
        all_messages(schema, list, k, details, full).len() == 0,
    decreases k,
{
    if k > 0 {
        law_no_fault_no_message(schema, list, (k - 1) as nat, details, full);
        assert(visit_messages(
            schema,
            list[k - 1],
            complaint_at(details, (k - 1) as nat),
            full,
        ).len() == 0);
    }
}

/// Going on with the checks only adds messages.
pub proof fn law_messages_only_added(
    schema: SchemaDocumentModel,
    list: Seq<VisitModel>,
    k: nat,
    m: nat,
    details: Seq<Option<Seq<char>>>,
    full: bool,
)
    requires
        k <= m <= list.len(),
    ensures
        all_messages(schema, list, k, details, full).is_prefix_of(
            all_messages(schema, list, m, details, full),
        ),
    decreases m,
{
    if k < m {
        let before = all_messages(schema, list, (m - 1) as nat, details, full);
        law_messages_only_added(schema, list, k, (m - 1) as nat, details, full);
        assert(before.is_prefix_of(all_messages(schema, list, m, details, full)));
    }
}

/// Of a simple element without a value nothing is checked.
pub proof fn law_null_unchecked(p: IrNodeModel, v: DfdlValueModel)
    requires
        p matches IrNodeModel::Element { kind, .. } && kind != ValueKind::Complex,
        v is Null,
    ensures
        visits(p, v).len() == 0,
{
    reveal(visits);
}

/// A part of a value breaks a rule: it occurs too often, or is no value of its union;
/// and where not everything is checked, also where it occurs too seldom or fails the
/// check of its facets.
pub open spec fn breaks_rule(
    schema: SchemaDocumentModel,
    x: VisitModel,
    detail: Option<Seq<char>>,
    full: bool,
) -> bool {
    match x {
        VisitModel::Simple { facets, value, .. } => {
            ||| (facets.xsd_type is Some && value is String && !union_validate::in_union(
                schema,
                facets.xsd_type->0,
                value->String_0,
                union_validate::name_depth(schema),
            ))
            ||| (!full && facets.checked && detail is Some)
        },
        VisitModel::Counted { min, max, count, .. } => {
            ||| (max is Some && count > max->0)
            ||| (!full && count < min)
        },
    }
}

proof fn lemma_broken_rule(
    schema: SchemaDocumentModel,
    x: VisitModel,
    detail: Option<Seq<char>>,
    full: bool,
)
    requires
        breaks_rule(schema, x, detail, full),
    ensures
        visit_messages(schema, x, detail, full).len() > 0,
{
}

/// A value of which any part breaks a rule gives messages.
pub proof fn law_broken_rule_gives_message(
    schema: SchemaDocumentModel,
    program: IrProgramModel,
    v: DfdlValueModel,
    details: Seq<Option<Seq<char>>>,
    full: bool,
    i: int,
)
    requires
        0 <= i < visits(program.root, root_value(v, program.root_element)).len(),
        breaks_rule(
            schema,
            visits(program.root, root_value(v, program.root_element))[i],
            if i < details.len() {
                details[i]
            } else {
                None
            },
            full,
        ),
    ensures
        value_messages(schema, program, v, details, full).len() > 0,
{
    let list = visits(program.root, root_value(v, program.root_element));
    lemma_broken_rule(schema, list[i], complaint_at(details, i as nat), full);
    law_messages_only_added(schema, list, (i + 1) as nat, list.len(), details, full);
}

/// The list holds all of the part, one after the other.
pub open spec fn holds_run(list: Seq<VisitModel>, part: Seq<VisitModel>) -> bool {
    exists|a: int|
        0 <= a && a + part.len() <= list.len() && #[trigger] list.subrange(a, a + part.len())
            == part
}

proof fn lemma_run_inside(before: Seq<VisitModel>, part: Seq<VisitModel>, behind: Seq<VisitModel>)
    ensures
        holds_run(before + part + behind, part),
{
    let all = before + part + behind;
    let a = before.len() as int;
    assert(all.subrange(a, a + part.len()) =~= part);
}

proof fn lemma_run_of_run(list: Seq<VisitModel>, middle: Seq<VisitModel>, part: Seq<VisitModel>)
    requires
        holds_run(list, middle),
        holds_run(middle, part),
    ensures
        holds_run(list, part),
{
    let a = choose|a: int|
        0 <= a && a + middle.len() <= list.len() && #[trigger] list.subrange(a, a + middle.len())
            == middle;
    let b = choose|b: int|
        0 <= b && b + part.len() <= middle.len() && #[trigger] middle.subrange(b, b + part.len())
            == part;
    assert(list.subrange(a + b, a + b + part.len()) =~= part);
}

/// A simple element that has a value is checked, with its own facets.
pub proof fn law_simple_checked(p: IrNodeModel, v: DfdlValueModel)
    requires
        p matches IrNodeModel::Element { kind, .. } && kind != ValueKind::Complex,
        !(v is Null),
    ensures
        visits(p, v) == seq![
            VisitModel::Simple {
                name: p->Element_name,
                kind: p->Element_kind,
                facets: p->Element_props.facets,
                value: v,
            },
        ],
{
    reveal(visits);
}

/// Of a complex element what it holds is checked: the field of its name where the
/// value has one, else the value.
pub proof fn law_complex_checked(p: IrNodeModel, v: DfdlValueModel)
    requires
        p matches IrNodeModel::Element { kind, child, .. } && kind == ValueKind::Complex && child
            is Some,
    ensures
        (v matches DfdlValueModel::Sequence(fields) && strmap::lookup(
            fields,
            p->Element_name,
        ) is Some) ==> visits(p, v) == visits(
            *p->Element_child->0,
            strmap::lookup(v->Sequence_0, p->Element_name)->0,
        ),
        !(v is Sequence) ==> visits(p, v) == visits(*p->Element_child->0, v),
{
    reveal(visits);
}

/// Every occurrence of an element is checked.
pub proof fn law_occurrences_checked(p: IrNodeModel, items: Seq<DfdlValueModel>, j: nat, k: int)
    requires
        j <= k < items.len(),
    ensures
        holds_run(item_visits(p, items, j), visits(p, items[k])),
    decreases k - j,
{
    reveal(item_visits);
    reveal(visits);
    let here = visits(p, items[j as int]);
    let rest = item_visits(p, items, j + 1);
    if j < k {
        law_occurrences_checked(p, items, j + 1, k);
        lemma_run_inside(here, rest, Seq::empty());
        assert(here + rest + Seq::empty() =~= here + rest);
        lemma_run_of_run(here + rest, rest, visits(p, items[k]));
    } else {
        lemma_run_inside(Seq::empty(), here, rest);
        assert(Seq::empty() + here + rest =~= here + rest);
    }
}

/// Of each element of a sequence that has a field, the field is checked; where the
/// element occurs several times, so is how often it does, and each occurrence.
pub proof fn law_fields_checked(
    children: Seq<IrNodeModel>,
    fields: Seq<(Seq<char>, DfdlValueModel)>,
    k: int,
)
    requires
        0 <= k < children.len(),
        children[k] is Element,
    ensures
        strmap::lookup(fields, children[k]->Element_name) matches Some(x) && !(x is Array)
            ==> holds_run(
            visits(IrNodeModel::Sequence { children }, DfdlValueModel::Sequence(fields)),
            visits(children[k], strmap::lookup(fields, children[k]->Element_name)->0),
        ),
        strmap::lookup(fields, children[k]->Element_name) matches Some(DfdlValueModel::Array(items))
            ==> {
            &&& visits(
                IrNodeModel::Sequence { children },
                DfdlValueModel::Sequence(fields),
            ).contains(
                VisitModel::Counted {
                    name: children[k]->Element_name,
                    min: children[k]->Element_props.occurs_min,
                    max: children[k]->Element_props.occurs_max,
                    count: items.len(),
                },
            )
            &&& forall|m: int|
                0 <= m < items.len() ==> holds_run(
                    visits(IrNodeModel::Sequence { children }, DfdlValueModel::Sequence(fields)),
                    visits(children[k], #[trigger] items[m]),
                )
        },
{
    reveal(visits);
    reveal(sequence_visits);
    lemma_field_checked(children, 0, fields, k);
    let all = sequence_visits(children, 0, fields);
    if let Some(x) = strmap::lookup(fields, children[k]->Element_name) {
        if let DfdlValueModel::Array(items) = x {
            let c = VisitModel::Counted {
                name: children[k]->Element_name,
                min: children[k]->Element_props.occurs_min,
                max: children[k]->Element_props.occurs_max,
                count: items.len(),
            };
            let inner = item_visits(children[k], items, 0);
            let part = seq![c] + inner;
            let a = choose|a: int|
                0 <= a && a + part.len() <= all.len() && #[trigger] all.subrange(
                    a,
                    a + part.len(),
                ) == part;
            assert(all[a] == all.subrange(a, a + part.len())[0]);
            lemma_run_inside(seq![c], inner, Seq::empty());
            assert(seq![c] + inner + Seq::empty() =~= part);
            assert forall|m: int| 0 <= m < items.len() implies holds_run(
                all,
                visits(children[k], #[trigger] items[m]),
            ) by {
                law_occurrences_checked(children[k], items, 0, m);
                lemma_run_of_run(all, part, inner);
                lemma_run_of_run(all, inner, visits(children[k], items[m]));
            }
        }
    }
}

proof fn lemma_field_checked(
    children: Seq<IrNodeModel>,
    i: nat,
    fields: Seq<(Seq<char>, DfdlValueModel)>,
    k: int,
)
    requires
        i <= k < children.len(),
        children[k] is Element,
    ensures
        strmap::lookup(fields, children[k]->Element_name) matches Some(x) ==> holds_run(
            sequence_visits(children, i, fields),
            if let DfdlValueModel::Array(items) = x {
                seq![
                    VisitModel::Counted {
                        name: children[k]->Element_name,
                        min: children[k]->Element_props.occurs_min,
                        max: children[k]->Element_props.occurs_max,
                        count: items.len(),
                    },
                ] + item_visits(children[k], items, 0)
            } else {
                visits(children[k], x)
            },
        ),
    decreases k - i,
{
    reveal(visits);
    reveal(sequence_visits);
    reveal(item_visits);
    let all = sequence_visits(children, i, fields);
    let rest = sequence_visits(children, i + 1, fields);
    let here = all.take(all.len() - rest.len());
    assert(all =~= here + rest);
    if i < k {
        lemma_field_checked(children, i + 1, fields, k);
        lemma_run_inside(here, rest, Seq::empty());
        assert(here + rest + Seq::empty() =~= all);
        if let Some(x) = strmap::lookup(fields, children[k]->Element_name) {
            let part = if let DfdlValueModel::Array(items) = x {
                seq![
                    VisitModel::Counted {
                        name: children[k]->Element_name,
                        min: children[k]->Element_props.occurs_min,
                        max: children[k]->Element_props.occurs_max,
                        count: items.len(),
                    },
                ] + item_visits(children[k], items, 0)
            } else {
                visits(children[k], x)
            };
            lemma_run_of_run(all, rest, part);
        }
    } else if let Some(x) = strmap::lookup(fields, children[k]->Element_name) {
        let part = if let DfdlValueModel::Array(items) = x {
            seq![
                VisitModel::Counted {
                    name: children[k]->Element_name,
                    min: children[k]->Element_props.occurs_min,
                    max: children[k]->Element_props.occurs_max,
                    count: items.len(),
                },
            ] + item_visits(children[k], items, 0)
        } else {
            visits(children[k], x)
        };
        assert(all == part + rest);
        lemma_run_inside(Seq::empty(), part, rest);
        assert(Seq::empty() + part + rest =~= all);
    }
}

/// Of a choice the branch is checked that the value names.
pub proof fn law_branch_checked(
    branches: Seq<ChoiceBranchModel>,
    k: int,
    value: DfdlValueModel,
)
    requires
        0 <= k < branches.len(),
        forall|i: int| 0 <= i < k ==> (#[trigger] branches[i]).name != branches[k].name,
    ensures
        visits(
            IrNodeModel::Choice { branches },
            DfdlValueModel::Choice { discriminator: branches[k].name, value: Box::new(value) },
        ) == visits(branches[k].node, value),
{
    reveal(visits);
    lemma_branch_of(branches, k, 0);
}

proof fn lemma_branch_of(branches: Seq<ChoiceBranchModel>, k: int, i: nat)
    requires
        i <= k < branches.len(),
        forall|i: int| 0 <= i < k ==> (#[trigger] branches[i]).name != branches[k].name,
    ensures
        branch_of(branches, branches[k].name, i) == Some(k as nat),
    decreases k - i,
{
    if i < k {
        lemma_branch_of(branches, k, i + 1);
    }
}

} // verus!
