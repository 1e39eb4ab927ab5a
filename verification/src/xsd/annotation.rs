//! Annotations: what a schema says in the language of DFDL.

use vstd::prelude::*;
use crate::ast;
use crate::ast::{
    DfdlProps, DfdlPropsModel, EscapeSchemeDef, EscapeSchemeDefModel, SchemaDocumentModel,
    StatementProps, StatementPropsModel,
};
use crate::attrs;
use crate::attrs::{
    attr_by_local, attr_by_suffix, collect_namespace_prefixes, discriminator_xpath_prefix_scope,
    escape_scheme_from_attrs, is_dfdl_element, overlay, record_foreign_attrs_on_dfdl_element,
    DFDL_LEGACY_NS, DFDL_NS,
};
use crate::computed;
use crate::computed::{apply_dfdl_assert_test, parse_input_value_calc_concat};
use crate::error::{
    cat2, cat3, invalid_property, invalid_xml, outcome, Error, ErrorModel, ParseError,
};
use crate::merge;
use crate::merge::merge_dfdl_props;
use crate::props;
use crate::props::{local_tag, props_from_attrs, props_from_attrs_with_variables};
use crate::qname;
use crate::qname::{format_storage_key, lookup_named_format_in_document, opt_str};
use crate::strmap;
use crate::strmap::StrMap;
use crate::text;
use crate::text::{chars_of, eq, is, last_piece, starts_with, string_of, trim};
use crate::values;
use crate::values::{owned, Duplicate};
use crate::xml;
use crate::xml::{XmlElement, XmlElementModel, XmlNode, XmlNodeModel};
use crate::xsd::nodes;
use crate::xsd::nodes::{fault_of, find_flaw, read_simple_element_text, skip_blank, skip_element};
use crate::xsd::state;
use crate::xsd::state::{
    format_ref_of, variable_local_name_from_ref, XsdParser, XsdParserModel,
};

verus! {

/// A step of reading has come out as it should: with this value and the reader
/// in this state, or with this error.
pub open spec fn done<T: DeepView>(
    now: XsdParserModel,
    r: Result<T, Error>,
    want: Result<(XsdParserModel, T::V), ErrorModel>,
) -> bool {
    match want {
        Ok((st, v)) => now == st && (r matches Ok(x) && x.deep_view() == v),
        Err(e) => r matches Err(x) && x.deep_view() == e,
    }
}

/// A step of reading that has no value has come out as it should.
pub open spec fn finished(
    now: XsdParserModel,
    r: Result<(), Error>,
    want: Result<XsdParserModel, ErrorModel>,
) -> bool {
    match want {
        Ok(st) => now == st && r is Ok,
        Err(e) => r matches Err(x) && x.deep_view() == e,
    }
}

// -------------------------------------------------------------------- statements

/// The statement properties of an assertion or a discriminator, by its
/// attributes.
#[verifier::opaque]
pub open spec fn with_statement(
    p: DfdlPropsModel,
    a: Seq<(Seq<char>, Seq<char>)>,
) -> DfdlPropsModel {
    let s = StatementPropsModel { has_statement_annotation: true, ..p.statements };
    let m = match strmap::lookup(a, "message"@) {
        Some(msg) => StatementPropsModel {
            assert_message: Some(msg),
            assert_message_segments: match computed::concatenation(msg) {
                Some(segments) => Some(segments),
                None => s.assert_message_segments,
            },
            ..s
        },
        None => s,
    };
    let t = match strmap::lookup(a, "test"@) {
        Some(test) => computed::with_assertion(m, test),
        None => m,
    };
    DfdlPropsModel { statements: t, ..p }
}

/// The properties of an assertion or a discriminator with this test.
#[verifier::opaque]
pub open spec fn with_test(
    p: DfdlPropsModel,
    discriminator: bool,
    test: Seq<char>,
    scope: Seq<(Seq<char>, Seq<char>)>,
) -> DfdlPropsModel {
    let t = text::trim_spec(test);
    if test.len() == 0 {
        p
    } else if discriminator {
        let s = StatementPropsModel {
            discriminator_xpath_prefixes: Some(scope),
            discriminator_test: Some(t),
            ..p.statements
        };
        DfdlPropsModel { statements: computed::with_assertion(s, t), ..p }
    } else {
        let s = computed::with_assertion(p.statements, t);
        let u = if s.assert_int_eq is None {
            StatementPropsModel { discriminator_test: Some(t), ..s }
        } else {
            s
        };
        DfdlPropsModel { statements: u, ..p }
    }
}

/// Sets the statement properties of an assertion or a discriminator.
pub fn set_statement(p: DfdlProps, a: &StrMap<String>) -> (r: DfdlProps)
    ensures
        values::agree(r@, with_statement(p@, a@)),
{
    reveal(with_statement);
    let mut r = p;
    r.statements = statement_set(r.statements, a);
    r
}

/// Sets the statement properties of an assertion or a discriminator.
fn statement_set(s: StatementProps, a: &StrMap<String>) -> (r: StatementProps)
    ensures
        values::agree(
            r@,
            with_statement(DfdlPropsModel { statements: s@, ..arbitrary() }, a@).statements,
        ),
{
    reveal(with_statement);
    reveal(ast::statement_props_model);
    let mut r = s;
    r.has_statement_annotation = true;
    if let Some(msg) = a.get("message") {
        r.assert_message = Some(msg.copy());
        if let Some(segments) = parse_input_value_calc_concat(msg.as_str()) {
            r.assert_message_segments = Some(segments);
        }
    }
    if let Some(test) = a.get("test") {
        apply_dfdl_assert_test(&mut r, test.as_str());
    }
    r
}

/// Sets the test of an assertion or a discriminator.
fn test_set(s: StatementProps, discriminator: bool, test: &str, scope: StrMap<String>) -> (r:
    StatementProps)
    ensures
        values::agree(
            r@,
            with_test(
                DfdlPropsModel { statements: s@, ..arbitrary() },
                discriminator,
                test@,
                scope@,
            ).statements,
        ),
{
    reveal(with_test);
    reveal(ast::statement_props_model);
    let c = chars_of(test);
    if c.len() == 0 {
        return s;
    }
    let t = string_of(trim(c.as_slice()));
    let mut r = s;
    if discriminator {
        r.discriminator_xpath_prefixes = Some(scope);
        r.discriminator_test = Some(t.copy());
        apply_dfdl_assert_test(&mut r, t.as_str());
    } else {
        apply_dfdl_assert_test(&mut r, t.as_str());
        if r.assert_int_eq.is_none() {
            r.discriminator_test = Some(t);
        }
    }
    r
}

/// Sets the test of an assertion or a discriminator.
fn set_test(p: DfdlProps, discriminator: bool, test: &str, scope: StrMap<String>) -> (r: DfdlProps)
    ensures
        values::agree(r@, with_test(p@, discriminator, test@, scope@)),
{
    reveal(with_test);
    let mut r = p;
    r.statements = test_set(r.statements, discriminator, test, scope);
    r
}

// ------------------------------------------------------------------- properties

/// The properties that say that no encoding error policy was stated.
#[verifier::opaque]
pub open spec fn policy_open(p: DfdlPropsModel) -> DfdlPropsModel {
    DfdlPropsModel {
        physical: ast::PhysicalPropsModel { encoding_error_policy_defined: false, ..p.physical },
        ..p
    }
}

/// The properties that say that no time zone was stated.
#[verifier::opaque]
pub open spec fn zone_open(p: DfdlPropsModel) -> DfdlPropsModel {
    DfdlPropsModel {
        calendar: ast::CalendarPropsModel { calendar_time_zone_defined: false, ..p.calendar },
        ..p
    }
}

/// The properties that say that a hidden group was named in an annotation.
#[verifier::opaque]
pub open spec fn hidden_by_annotation(p: DfdlPropsModel) -> DfdlPropsModel {
    DfdlPropsModel {
        statements: StatementPropsModel {
            hidden_group_ref_from_appinfo_sequence: true,
            ..p.statements
        },
        ..p
    }
}

/// The properties that say which pad characters were stated by a property
/// element.
#[verifier::opaque]
pub open spec fn pad_by_property(p: DfdlPropsModel, name: Seq<char>) -> DfdlPropsModel {
    let local = props::local_tag_spec(name);
    DfdlPropsModel {
        text: ast::TextPropsModel {
            text_string_pad_character_property_form: p.text.text_string_pad_character_property_form
                || local == "textStringPadCharacter"@,
            text_number_pad_character_property_form: p.text.text_number_pad_character_property_form
                || local == "textNumberPadCharacter"@,
            ..p.text
        },
        ..p
    }
}

/// Properties that only assign this variable.
#[verifier::opaque]
pub open spec fn assigning(a: Seq<(Seq<char>, Seq<char>)>) -> DfdlPropsModel {
    match (attrs::by_local(a, "ref"@), attrs::by_local(a, "value"@)) {
        (Some(r), Some(value)) => DfdlPropsModel {
            statements: StatementPropsModel {
                set_variables: seq![(qname::local_spec(r), value)],
                ..ast::no_statement_props()
            },
            ..ast::no_props()
        },
        _ => ast::no_props(),
    }
}

/// Says that no encoding error policy was stated.
pub fn open_policy(p: DfdlProps) -> (r: DfdlProps)
    ensures
        values::agree(r@, policy_open(p@)),
{
    reveal(policy_open);
    reveal(ast::physical_props_model);
    let mut r = p;
    r.physical.encoding_error_policy_defined = false;
    r
}

/// Says that no time zone was stated.
pub fn open_zone(p: DfdlProps) -> (r: DfdlProps)
    ensures
        values::agree(r@, zone_open(p@)),
{
    reveal(zone_open);
    reveal(ast::calendar_props_model);
    let mut r = p;
    r.calendar.calendar_time_zone_defined = false;
    r
}

/// Says that a hidden group was named in an annotation.
fn hide_by_annotation(p: DfdlProps) -> (r: DfdlProps)
    ensures
        values::agree(r@, hidden_by_annotation(p@)),
{
    reveal(hidden_by_annotation);
    reveal(ast::statement_props_model);
    let mut r = p;
    r.statements.hidden_group_ref_from_appinfo_sequence = true;
    r
}

/// Whether the properties name a hidden group.
pub fn names_hidden_group(p: &DfdlProps) -> (r: bool)
    ensures
        r == (p@.statements.hidden_group_ref is Some),
{
    reveal(ast::statement_props_model);
    p.statements.hidden_group_ref.is_some()
}

/// Says which pad characters were stated by a property element.
fn note_pad(p: DfdlProps, name: &str) -> (r: DfdlProps)
    ensures
        values::agree(r@, pad_by_property(p@, name@)),
{
    reveal(pad_by_property);
    reveal(ast::text_props_model);
    let c = chars_of(name);
    let local = local_tag(c.as_slice());
    let mut r = p;
    if is(local, "textStringPadCharacter") {
        r.text.text_string_pad_character_property_form = true;
    }
    if is(local, "textNumberPadCharacter") {
        r.text.text_number_pad_character_property_form = true;
    }
    r
}

/// Properties that only assign this variable.
pub fn assignment(a: &StrMap<String>) -> (r: DfdlProps)
    ensures
        values::agree(r@, assigning(a@)),
{
    reveal(assigning);
    reveal(ast::statement_props_model);
    let mut r = DfdlProps::default();
    if let Some(var) = attr_by_local(a, "ref") {
        if let Some(value) = attr_by_local(a, "value") {
            let entry = (variable_local_name_from_ref(var.as_str()), value.copy());
            let mut list: Vec<(String, String)> = Vec::new();
            list.push(entry);
            assert(list.deep_view() =~= seq![(entry.0@, entry.1@)]);
            r.statements.set_variables = list;
        }
    }
    r
}

// ----------------------------------------------------------------- property elements

/// The name and the properties that a property element states.
pub open spec fn property_of(e: XmlElementModel) -> Result<(Seq<char>, DfdlPropsModel), ErrorModel> {
    match strmap::lookup(e.attributes, "name"@) {
        None => Err(ErrorModel::InvalidXml("dfdl:property missing name"@)),
        Some(name) => match nodes::simple_text(e.children, 0, "property"@) {
            Err(x) => Err(x),
            Ok(value) => match props::attrs_props(
                strmap::with_entry(Seq::empty(), name, value),
                None,
            ) {
                Ok(p) => Ok((name, p)),
                Err(x) => Err(x),
            },
        },
    }
}

/// A property element.
pub open spec fn property_element(e: XmlElementModel) -> bool {
    attrs::dfdl_element(e.prefix, e.local, e.namespace) && e.local == "property"@
}

/// The properties with those that property elements state from `i` on in an
/// element annotation.
pub open spec fn element_properties(
    p: DfdlPropsModel,
    nodes: Seq<XmlNodeModel>,
    i: nat,
) -> Result<DfdlPropsModel, ErrorModel>
    decreases nodes.len() - i,
{
    if i >= nodes.len() {
        Ok(p)
    } else {
        match nodes[i as int] {
            XmlNodeModel::Element(e) => if property_element(e) {
                match property_of(e) {
                    Ok((name, q)) => element_properties(
                        pad_by_property(merge::merge_spec(p, q), name),
                        nodes,
                        i + 1,
                    ),
                    Err(x) => Err(x),
                }
            } else {
                match nodes::flaw(e) {
                    Some(x) => Err(x),
                    None => element_properties(p, nodes, i + 1),
                }
            },
            n => match nodes::fault(n, "expected dfdl:element child, found "@, ""@) {
                Some(x) => Err(x),
                None => element_properties(p, nodes, i + 1),
            },
        }
    }
}

/// The properties with those that property elements state from `i` on in a
/// sequence annotation, and whether there are such elements.
pub open spec fn sequence_properties(
    p: DfdlPropsModel,
    any: bool,
    nodes: Seq<XmlNodeModel>,
    i: nat,
) -> Result<(DfdlPropsModel, bool), ErrorModel>
    decreases nodes.len() - i,
{
    if i >= nodes.len() {
        Ok((p, any))
    } else {
        match nodes[i as int] {
            XmlNodeModel::Element(e) => if property_element(e) {
                match property_of(e) {
                    Ok((name, q)) => sequence_properties(
                        merge::merge_spec(
                            if q.statements.hidden_group_ref is Some {
                                hidden_by_annotation(p)
                            } else {
                                p
                            },
                            q,
                        ),
                        true,
                        nodes,
                        i + 1,
                    ),
                    Err(x) => Err(x),
                }
            } else {
                match nodes::flaw(e) {
                    Some(x) => Err(x),
                    None => sequence_properties(p, any, nodes, i + 1),
                }
            },
            n => match nodes::fault(n, "expected dfdl:sequence child, found "@, ""@) {
                Some(x) => Err(x),
                None => sequence_properties(p, any, nodes, i + 1),
            },
        }
    }
}

/// The properties that a sequence annotation states in its attributes and in
/// property elements.
pub open spec fn sequence_annotation(p: DfdlPropsModel, e: XmlElementModel) -> Result<
    DfdlPropsModel,
    ErrorModel,
> {
    let own = if p.statements.hidden_group_ref is Some {
        hidden_by_annotation(p)
    } else {
        p
    };
    match sequence_properties(own, false, e.children, 0) {
        Err(x) => Err(x),
        Ok((q, any)) => Ok(
            if any && q.statements.hidden_group_ref is Some {
                hidden_by_annotation(q)
            } else {
                q
            },
        ),
    }
}

/// The properties that an assertion or a discriminator states.
pub open spec fn test_annotation(p: DfdlPropsModel, e: XmlElementModel) -> Result<
    DfdlPropsModel,
    ErrorModel,
> {
    let start = nodes::after_blank(e.children, 0);
    match nodes::simple_text(e.children, start, e.local) {
        Err(x) => Err(x),
        Ok(body) => Ok(
            with_test(
                p,
                e.local == "discriminator"@,
                match strmap::lookup(e.attributes, "test"@) {
                    Some(t) => t,
                    None => body,
                },
                attrs::with_bindings(e.attributes, e.namespaces),
            ),
        ),
    }
}

/// Whether an element is a property element.
fn is_property_element(e: &XmlElement) -> (r: bool)
    ensures
        r == property_element(e@),
{
    is_dfdl_element(opt_str(&e.prefix), e.local.as_str(), opt_str(&e.namespace)) && eq(
        e.local.as_str(),
        "property",
    )
}

/// The name and the properties that a property element states.
fn read_property(e: &XmlElement) -> (r: Result<(String, DfdlProps), Error>)
    ensures
        outcome(r) == property_of(e@),
{
    let name = match e.attributes.get("name") {
        Some(name) => name.copy(),
        None => {
            return Err(invalid_xml(owned("dfdl:property missing name")));
        },
    };
    let value = read_simple_element_text(&e.children, 0, "property")?;
    let mut map: StrMap<String> = StrMap::new();
    map.insert(name.copy(), value);
    let p = props_from_attrs(&map)?;
    Ok((name, p))
}

/// Adds what property elements state in an element annotation.
pub fn read_element_properties(p: DfdlProps, e: &XmlElement) -> (r: Result<DfdlProps, Error>)
    ensures
        outcome(r) == element_properties(p@, e@.children, 0),
{
    let list = &e.children;
    let n: usize = list.len();
    let mut i: usize = 0;
    let mut q = p;
    let ghost all = e@.children;
    while i < n
        invariant
            i <= n,
            n == list@.len(),
            all == xml::node_models(*list),
            all == e@.children,
            values::agree(
                element_properties(p@, all, 0),
                element_properties(q@, all, i as nat),
            ),
        decreases n - i,
    {
        assert(all[i as int] == list@[i as int].model());
        match &list[i] {
            XmlNode::Element(child) => {
                if is_property_element(child) {
                    let (name, more) = read_property(child)?;
                    q = note_pad(merge_dfdl_props(q, more), name.as_str());
                } else {
                    skip_element(child)?;
                }
            },
            other => {
                if let Some(x) = fault_of(other, "expected dfdl:element child, found ", "") {
                    return Err(x);
                }
            },
        }
        i += 1;
    }
    Ok(q)
}

/// Adds what property elements state in a sequence annotation.
fn read_sequence_properties(p: DfdlProps, e: &XmlElement) -> (r: Result<(DfdlProps, bool), Error>)
    ensures
        outcome(r) == sequence_properties(p@, false, e@.children, 0),
{
    let list = &e.children;
    let n: usize = list.len();
    let mut i: usize = 0;
    let mut q = p;
    let mut any: bool = false;
    let ghost all = e@.children;
    while i < n
        invariant
            i <= n,
            n == list@.len(),
            all == xml::node_models(*list),
            all == e@.children,
            values::agree(
                sequence_properties(p@, false, all, 0),
                sequence_properties(q@, any, all, i as nat),
            ),
        decreases n - i,
    {
        assert(all[i as int] == list@[i as int].model());
        match &list[i] {
            XmlNode::Element(child) => {
                if is_property_element(child) {
                    let (_, more) = read_property(child)?;
                    if names_hidden_group(&more) {
                        q = hide_by_annotation(q);
                    }
                    q = merge_dfdl_props(q, more);
                    any = true;
                } else {
                    skip_element(child)?;
                }
            },
            other => {
                if let Some(x) = fault_of(other, "expected dfdl:sequence child, found ", "") {
                    return Err(x);
                }
            },
        }
        i += 1;
    }
    Ok((q, any))
}

/// The properties that a sequence annotation states.
pub fn read_sequence_annotation(p: DfdlProps, e: &XmlElement) -> (r: Result<DfdlProps, Error>)
    ensures
        outcome(r) == sequence_annotation(p@, e@),
{
    let own = if names_hidden_group(&p) {
        hide_by_annotation(p)
    } else {
        p
    };
    let (q, any) = read_sequence_properties(own, e)?;
    if any && names_hidden_group(&q) {
        Ok(hide_by_annotation(q))
    } else {
        Ok(q)
    }
}

/// The properties that an assertion or a discriminator states.
pub fn read_test_annotation(p: DfdlProps, e: &XmlElement) -> (r: Result<DfdlProps, Error>)
    ensures
        outcome(r) == test_annotation(p@, e@),
{
    let start: usize = skip_blank(&e.children, 0);
    let body = read_simple_element_text(&e.children, start, e.local.as_str())?;
    let test = match e.attributes.get("test") {
        Some(t) => t.copy(),
        None => body,
    };
    let scope = discriminator_xpath_prefix_scope(&e.attributes, &e.namespaces);
    Ok(set_test(p, eq(e.local.as_str(), "discriminator"), test.as_str(), scope))
}

} // verus!
