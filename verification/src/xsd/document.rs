//! Whole schemas, with those that they refer to.

use vstd::prelude::*;
use crate::ast;
use crate::ast::{DfdlProps, DfdlPropsModel, SchemaDocument, SchemaDocumentModel};
use crate::attrs;
use crate::attrs::{
    attr_by_local, collect_namespace_prefixes, mentions_dfdl,
    supplement_namespace_prefixes_from_text, value_of, DFDL_NS,
};
use crate::error::{
    cat2, cat3, cat4, cat5, invalid_property, invalid_xml, missing_attribute, outcome, Error,
    ErrorModel, ParseError,
};
use crate::merge;
use crate::merge::merge_dfdl_props;
use crate::resolver;
use crate::resolver::{SchemaResolver, SchemaResolverModel, STANDARD_NAMES};
use crate::strmap;
use crate::strmap::StrMap;
use crate::text;
use crate::text::{chars_of, contains, eq, last_piece, string_of};
use crate::values;
use crate::values::{owned, Duplicate};
use crate::xml;
use crate::xml::{
    build_tree, read_items, XmlElement, XmlElementModel, XmlItem, XmlItemModel, XmlNode,
    XmlNodeModel,
};
use crate::xsd::annotation;
use crate::xsd::appinfo;
use crate::xsd::appinfo::has_policy;
use crate::xsd::checks;
use crate::xsd::checks::{
    backfill_type_format_contexts, check_general_format04_unprefixed_include,
    map_xml_parse_error_to_schema, precheck_schema_definition_errors,
};
use crate::xsd::combine;
use crate::xsd::combine::{merge_included, SchemaMergeKind};
use crate::xsd::globals;
use crate::xsd::markup;
use crate::xsd::nodes;
use crate::xsd::nodes::{fault_of, skip_element};
use crate::xsd::particles;
use crate::xsd::simple;
use crate::xsd::state;
use crate::xsd::state::{XsdParser, XsdParserModel};

verus! {

// ------------------------------------------------------------------ format elements

/// What is said of a format element with a trailing skip but no leading one.
pub open spec fn skip_complaints(a: Seq<(Seq<char>, Seq<char>)>) -> Seq<Seq<char>> {
    if attrs::by_local(a, "ref"@) is None && attrs::by_local(a, "trailingSkip"@) is Some
        && attrs::by_local(a, "leadingSkip"@) is None {
        seq![
            "Schema Definition Error: Property leadingSkip is not defined"@,
            "Non-default properties were combined from these locations"@,
            "Default properties were taken from these locations"@,
        ]
    } else {
        Seq::empty()
    }
}

/// The reader that knows whether a format element states an encoding error
/// policy.
pub open spec fn policy_noted(st: XsdParserModel, explicit: bool) -> XsdParserModel {
    XsdParserModel {
        doc: SchemaDocumentModel {
            explicit_encoding_error_policy_on_format:
                st.doc.explicit_encoding_error_policy_on_format || explicit,
            ..st.doc
        },
        ..st
    }
}

/// The reader with these properties over its default ones.
pub open spec fn defaults_over(st: XsdParserModel, p: DfdlPropsModel) -> XsdParserModel {
    state::with_defaults(st, merge::merge_spec(st.doc.format_defaults.props, p))
}

/// The reader after a format element.
#[verifier::opaque]
pub open spec fn format_element(st: XsdParserModel, e: XmlElementModel) -> Result<
    XsdParserModel,
    ErrorModel,
> {
    match appinfo::annotated(state::complained(st, skip_complaints(e.attributes)), e) {
        Err(x) => Err(x),
        Ok((st2, p)) => Ok(
            defaults_over(policy_noted(st2, appinfo::states_policy(e.attributes)), p),
        ),
    }
}

/// The complaints about a format element with a trailing skip but no leading one.
fn complaints_of_skip(a: &StrMap<String>) -> (r: Vec<String>)
    ensures
        r.deep_view() == skip_complaints(a@),
{
    let mut out: Vec<String> = Vec::new();
    assert(out.deep_view() =~= Seq::<Seq<char>>::empty());
    if attr_by_local(a, "ref").is_none() && attr_by_local(a, "trailingSkip").is_some()
        && attr_by_local(a, "leadingSkip").is_none() {
        out.push(owned("Schema Definition Error: Property leadingSkip is not defined"));
        out.push(owned("Non-default properties were combined from these locations"));
        out.push(owned("Default properties were taken from these locations"));
        assert(out.deep_view() =~= skip_complaints(a@));
    }
    out
}

impl XsdParser {
    /// Notes whether a format element states an encoding error policy.
    fn note_policy(&mut self, explicit: bool)
        ensures
            values::agree(final(self)@, policy_noted(old(self)@, explicit)),
    {
        reveal(crate::ast::document_model);
        proof {
            reveal(crate::xsd::state::parser_model);
        }
        if explicit {
            self.doc.explicit_encoding_error_policy_on_format = true;
        }
    }

    /// Lays these properties over the default ones.
    fn add_defaults(&mut self, p: DfdlProps)
        ensures
            values::agree(final(self)@, defaults_over(old(self)@, p@)),
    {
        reveal(crate::ast::document_model);
        proof {
            reveal(crate::xsd::state::parser_model);
        }
        let merged = merge_dfdl_props(self.doc.format_defaults.props.copy(), p);
        self.set_defaults(merged);
    }

    /// Takes a format element in.
    fn parse_format_element(&mut self, e: &XmlElement) -> (r: Result<(), Error>)
        ensures
            annotation::finished(final(self)@, r, format_element(old(self)@, e@)),
    {
        reveal(format_element);
        let said = complaints_of_skip(&e.attributes);
        self.complain(&said);
        let p = self.parse_dfdl_element(e)?;
        self.note_policy(has_policy(&e.attributes));
        self.add_defaults(p);
        Ok(())
    }
}

// -------------------------------------------------------------------- whole schemas

/// The reader with the attributes of a schema taken in.
#[verifier::opaque]
pub open spec fn schema_begun(st: XsdParserModel, e: XmlElementModel) -> XsdParserModel {
    let bound = attrs::with_bindings(e.attributes, e.namespaces);
    XsdParserModel {
        doc: SchemaDocumentModel {
            target_namespace: strmap::lookup(e.attributes, "targetNamespace"@),
            namespace_prefixes: match st.doc.schema_source_text {
                Some(t) => attrs::supplemented(t, bound),
                None => bound,
            },
            dfdl_annotations_seen: st.doc.dfdl_annotations_seen || attrs::some_name_contains(
                e.attributes,
                "dfdl"@,
            ) || attrs::some_value_is(e.attributes, DFDL_NS@),
            element_form_default_explicit: strmap::lookup(e.attributes, "elementFormDefault"@) is Some,
            element_form_default_qualified: strmap::lookup(e.attributes, "elementFormDefault"@)
                == Some("qualified"@),
            ..st.doc
        },
        ..st
    }
}

/// The reader after a part of a schema that takes no other schema in; none where
/// it takes one in.
#[verifier::opaque]
pub open spec fn part_read(st: XsdParserModel, e: XmlElementModel) -> Option<
    Result<XsdParserModel, ErrorModel>,
> {
    if e.local == "element"@ {
        Some(globals::global_read(st, e))
    } else if e.local == "complexType"@ {
        Some(particles::complex_read(st, None, e))
    } else if e.local == "simpleType"@ {
        Some(simple::simple_read(st, None, e))
    } else if e.local == "group"@ {
        Some(globals::group_read(st, e))
    } else if e.local == "include"@ || e.local == "import"@ {
        None
    } else if e.local == "format"@ {
        Some(format_element(st, e))
    } else if e.local == "defineFormat"@ || e.local == "defineEscapeScheme"@ {
        Some(
            match appinfo::annotated(st, e) {
                Err(x) => Err(x),
                Ok((st2, _)) => Ok(st2),
            },
        )
    } else if e.local == "annotation"@ {
        Some(
            match markup::annotation_read(st, e) {
                Err(x) => Err(x),
                Ok((st2, p)) => Ok(defaults_over(st2, p)),
            },
        )
    } else {
        Some(
            match nodes::flaw(e) {
                Some(x) => Err(x),
                None => Ok(
                    if e.local == "defineVariable"@ {
                        state::with_variable(st, e.attributes)
                    } else {
                        st
                    },
                ),
            },
        )
    }
}

/// What is said of an import whose namespace is not that of the schema.
pub open spec fn wrong_namespace(expected: Seq<char>, actual: Seq<char>) -> ErrorModel {
    ErrorModel::InvalidProperty(
        "Schema Definition Error: Import element specifies namespace "@ + expected
            + " but namespace "@ + actual + " of imported schema does not match"@,
    )
}

/// The namespace of a schema, an empty one where it has none.
pub open spec fn namespace_of(doc: SchemaDocumentModel) -> Seq<char> {
    match doc.target_namespace {
        Some(ns) => ns,
        None => ""@,
    }
}

/// The reader with a schema taken in that was read from this location.
pub open spec fn schema_taken(
    st: XsdParserModel,
    e: XmlElementModel,
    location: Seq<char>,
    found: SchemaDocumentModel,
) -> Result<XsdParserModel, ErrorModel> {
    if !found.dfdl_annotations_seen {
        Ok(
            XsdParserModel {
                doc: SchemaDocumentModel {
                    schema_warnings: st.doc.schema_warnings
                        + seq!["Non-DFDL Schema file ignored"@, resolver::file_name(location)],
                    ..st.doc
                },
                ..st
            },
        )
    } else if e.local == "import"@ {
        match strmap::lookup(e.attributes, "namespace"@) {
            Some(ns) => if ns != namespace_of(found) {
                Err(wrong_namespace(ns, namespace_of(found)))
            } else {
                Ok(
                    XsdParserModel {
                        doc: combine::taken_in(st.doc, found, SchemaMergeKind::Import),
                        ..st
                    },
                )
            },
            None => Ok(
                XsdParserModel {
                    doc: combine::taken_in(st.doc, found, SchemaMergeKind::Import),
                    ..st
                },
            ),
        }
    } else {
        Ok(
            XsdParserModel {
                doc: combine::taken_in(st.doc, found, SchemaMergeKind::Include),
                ..st
            },
        )
    }
}

/// The reader after the location was noted.
pub open spec fn location_noted(st: XsdParserModel, location: Seq<char>) -> XsdParserModel {
    XsdParserModel { resolver: resolver::registered(st.resolver, location), ..st }
}

/// The reader after so many types without a name.
pub open spec fn numbered(st: XsdParserModel, n: u64) -> XsdParserModel {
    XsdParserModel {
        resolver: SchemaResolverModel { inline_types: n, ..st.resolver },
        ..st
    }
}

/// The error for schemas that take each other in without end.
pub open spec fn endless(location: Seq<char>) -> ErrorModel {
    ErrorModel::InvalidXml(
        "Schema Definition Error: endless inclusion at Include Location `"@ + location + "`"@,
    )
}

/// The reader after an element that takes another schema in, with at most `depth`
/// schemas taken in inside each other.
#[verifier::opaque]
pub open spec fn taken(st: XsdParserModel, e: XmlElementModel, depth: nat) -> Result<
    XsdParserModel,
    ErrorModel,
>
    decreases depth, 0nat,
{
    match strmap::lookup(e.attributes, "schemaLocation"@) {
        None => Err(ErrorModel::MissingAttribute(e.local, "schemaLocation"@)),
        Some(location) => match nodes::flaw(e) {
            Some(x) => Err(x),
            None => if st.resolver.included.contains(
                resolver::include_key(st.resolver, location),
            ) {
                Ok(st)
            } else {
                let st1 = location_noted(st, location);
                match resolver::resolved(st1.resolver, location) {
                    Err(x) => Err(x),
                    Ok((source, dir)) => if depth == 0 {
                        Err(endless(location))
                    } else {
                        match schema_read(
                            source,
                            xml::xml_items(source),
                            resolver::inside(st1.resolver, dir),
                            Some(resolver::file_name(location)),
                            (depth - 1) as nat,
                        ) {
                            Err(x) => Err(x),
                            Ok((found, n)) => schema_taken(numbered(st1, n), e, location, found),
                        }
                    },
                }
            },
        },
    }
}

/// The reader as an element leaves it that takes another schema in and fails.
pub open spec fn taking_left(st: XsdParserModel, e: XmlElementModel, depth: nat) -> XsdParserModel {
    match strmap::lookup(e.attributes, "schemaLocation"@) {
        None => st,
        Some(location) => if nodes::flaw(e) is Some {
            st
        } else {
            let st1 = location_noted(st, location);
            match resolver::resolved(st1.resolver, location) {
                Err(_) => st1,
                Ok((source, dir)) => if depth == 0 {
                    st1
                } else {
                    match schema_read(
                        source,
                        xml::xml_items(source),
                        resolver::inside(st1.resolver, dir),
                        Some(resolver::file_name(location)),
                        (depth - 1) as nat,
                    ) {
                        Err(_) => st1,
                        Ok((_, n)) => numbered(st1, n),
                    }
                },
            }
        },
    }
}

/// The reader after the parts of a schema that stand from `i` on.
#[verifier::opaque]
pub open spec fn parts_from(
    st: XsdParserModel,
    nodes: Seq<XmlNodeModel>,
    i: nat,
    depth: nat,
) -> Result<XsdParserModel, ErrorModel>
    decreases depth, 1 + nodes.len() - i,
{
    if i >= nodes.len() {
        Ok(st)
    } else {
        match nodes[i as int] {
            XmlNodeModel::Element(e) => {
                let read = match part_read(st, e) {
                    Some(r) => r,
                    None => taken(st, e, depth),
                };
                match read {
                    Err(x) => Err(x),
                    Ok(st2) => parts_from(st2, nodes, i + 1, depth),
                }
            },
            n => match nodes::fault(n, "expected schema child, found "@, ""@) {
                Some(x) => Err(x),
                None => parts_from(st, nodes, i + 1, depth),
            },
        }
    }
}

/// The error for a document that is no schema.
pub open spec fn no_schema(e: XmlElementModel) -> ErrorModel {
    let uri = match e.namespace {
        Some(u) => u,
        None => ""@,
    };
    ErrorModel::InvalidProperty(
        "Schema Definition Error: {"@ + uri + "}"@ + e.local + " in no namespace"@,
    )
}

/// The reader after the elements of a document that stand from `i` on.
#[verifier::opaque]
pub open spec fn roots_from(
    st: XsdParserModel,
    nodes: Seq<XmlNodeModel>,
    i: nat,
    depth: nat,
) -> Result<XsdParserModel, ErrorModel>
    decreases depth, 2 + roots_size(nodes, i),
{
    if i >= nodes.len() {
        Ok(st)
    } else {
        match nodes[i as int] {
            XmlNodeModel::Element(e) => if e.local == "schema"@ {
                match parts_from(schema_begun(st, e), e.children, 0, depth) {
                    Err(x) => Err(x),
                    Ok(st2) => roots_from(st2, nodes, i + 1, depth),
                }
            } else {
                match nodes::flaw(e) {
                    Some(x) => Err(x),
                    None => Err(no_schema(e)),
                }
            },
            XmlNodeModel::Data(_) => Err(
                ErrorModel::InvalidXml("unexpected top-level \"CData\""@),
            ),
            n => match nodes::broken_at(n) {
                Some(x) => Err(x),
                None => roots_from(st, nodes, i + 1, depth),
            },
        }
    }
}

/// How much stands from `i` on.
pub open spec fn roots_size(nodes: Seq<XmlNodeModel>, i: nat) -> nat
    decreases nodes.len() - i,
{
    if i >= nodes.len() {
        0
    } else {
        1 + roots_size(nodes, i + 1) + match nodes[i as int] {
            XmlNodeModel::Element(e) => e.children.len(),
            _ => 0,
        }
    }
}

/// The reader that begins with this text.
pub open spec fn begun(
    source: Seq<char>,
    m: SchemaResolverModel,
    label: Option<Seq<char>>,
) -> XsdParserModel {
    let st = state::fresh(m);
    XsdParserModel {
        doc: SchemaDocumentModel {
            schema_source_text: Some(source),
            schema_source_label: label,
            dfdl_annotations_seen: text::contains_spec(source, DFDL_NS@),
            ..st.doc
        },
        ..st
    }
}

/// The schema from this text when everything was read.
#[verifier::opaque]
pub open spec fn completed(
    doc: SchemaDocumentModel,
    source: Seq<char>,
    label: Option<Seq<char>>,
) -> SchemaDocumentModel {
    let bound = SchemaDocumentModel {
        namespace_prefixes: attrs::supplemented(source, doc.namespace_prefixes),
        schema_source_text: Some(source),
        schema_source_label: label,
        ..doc
    };
    SchemaDocumentModel {
        schema_diagnostics: bound.schema_diagnostics + checks::general_complaints(bound),
        types: checks::contexts_filled(bound.types, bound.format_defaults.props),
        ..bound
    }
}

/// What is said of a schema with a document type declaration.
pub const DOCTYPE_FOUND: &'static str = "Schema Definition Error. org.xml.sax.SAXParseException: DOCTYPE is disallowed when parsing DFDL schemas";

/// The error for a schema with a document type declaration.
pub open spec fn doctype_error(label: Option<Seq<char>>) -> ErrorModel {
    ErrorModel::InvalidProperty(
        match label {
            Some(l) => DOCTYPE_FOUND@ + " "@ + l,
            None => DOCTYPE_FOUND@,
        },
    )
}

/// The schema that stands in a text which is read in these pieces, and how many
/// types without a name were named then.
#[verifier::opaque]
pub open spec fn schema_read(
    source: Seq<char>,
    items: Seq<XmlItemModel>,
    m: SchemaResolverModel,
    label: Option<Seq<char>>,
    depth: nat,
) -> Result<(SchemaDocumentModel, u64), ErrorModel>
    decreases depth, 3 + roots_size(xml::tree_spec(items), 0),
{
    match checks::text_complaint(source) {
        Some(said) => Err(ErrorModel::InvalidProperty(said)),
        None => if text::contains_spec(source, "<!DOCTYPE"@) {
            Err(doctype_error(label))
        } else {
            match roots_from(begun(source, m, label), xml::tree_spec(items), 0, depth) {
                Err(x) => Err(checks::schema_error(x)),
                Ok(st) => Ok((completed(st.doc, source, label), st.resolver.inline_types)),
            }
        },
    }
}

/// The error for a document that is no schema.
fn refuse_root(e: &XmlElement) -> (r: Error)
    ensures
        r@ == no_schema(e@),
{
    let uri: &str = match &e.namespace {
        Some(u) => u.as_str(),
        None => "",
    };
    invalid_property(
        cat5("Schema Definition Error: {", uri, "}", e.local.as_str(), " in no namespace"),
    )
}

/// What stands behind the last slash of a location.
fn file_name_of(location: &str) -> (r: String)
    ensures
        r@ == resolver::file_name(location@),
{
    let c = chars_of(location);
    string_of(last_piece(c.as_slice(), '/'))
}

/// The schema from this text when everything was read.
fn complete(doc: SchemaDocument, source: &str, label: Option<&str>) -> (r: SchemaDocument)
    ensures
        values::agree(r@, completed(doc@, source@, text::ref_opt(label))),
{
    reveal(crate::ast::document_model);
    reveal(completed);
    let mut d = doc;
    supplement_namespace_prefixes_from_text(source, &mut d.namespace_prefixes);
    d.schema_source_text = Some(owned(source));
    d.schema_source_label = match label {
        Some(l) => Some(owned(l)),
        None => None,
    };
    let said = check_general_format04_unprefixed_include(&d);
    complete_types(d, said)
}

/// The schema with these complaints and the contexts of its types filled.
fn complete_types(doc: SchemaDocument, said: Vec<String>) -> (r: SchemaDocument)
    ensures
        values::agree(
            r@,
            (SchemaDocumentModel {
                schema_diagnostics: doc@.schema_diagnostics + said.deep_view(),
                types: checks::contexts_filled(doc@.types, doc@.format_defaults.props),
                ..doc@
            }),
        ),
{
    reveal(crate::ast::document_model);
    let mut schema_diagnostics = doc.schema_diagnostics;
    crate::xsd::state::add_lines(&mut schema_diagnostics, &said);
    SchemaDocument {
        types: backfill_type_format_contexts(doc.types, &doc.format_defaults.props),
        schema_diagnostics,
        target_namespace: doc.target_namespace,
        namespace_prefixes: doc.namespace_prefixes,
        element_form_default_explicit: doc.element_form_default_explicit,
        element_form_default_qualified: doc.element_form_default_qualified,
        format_defaults: doc.format_defaults,
        global_elements: doc.global_elements,
        global_element_errors: doc.global_element_errors,
        groups: doc.groups,
        named_formats: doc.named_formats,
        named_escape_schemes: doc.named_escape_schemes,
        variables: doc.variables,
        schema_warnings: doc.schema_warnings,
        scoped_schema_warnings: doc.scoped_schema_warnings,
        schema_source_text: doc.schema_source_text,
        schema_source_label: doc.schema_source_label,
        dfdl_annotations_seen: doc.dfdl_annotations_seen,
        explicit_encoding_error_policy_on_format: doc.explicit_encoding_error_policy_on_format,
    }
}

/// The schema with its text and label.
fn sourced(doc: SchemaDocument, source: &str, label: Option<&str>, seen: bool) -> (r: SchemaDocument)
    ensures
        values::agree(
            r@,
            (SchemaDocumentModel {
                schema_source_text: Some(source@),
                schema_source_label: text::ref_opt(label),
                dfdl_annotations_seen: seen,
                ..doc@
            }),
        ),
{
    reveal(crate::ast::document_model);
    let schema_source_text = Some(owned(source));
    let schema_source_label = match label {
        Some(l) => Some(owned(l)),
        None => None,
    };
    let dfdl_annotations_seen = seen;
    SchemaDocument {
        target_namespace: doc.target_namespace,
        namespace_prefixes: doc.namespace_prefixes,
        element_form_default_explicit: doc.element_form_default_explicit,
        element_form_default_qualified: doc.element_form_default_qualified,
        format_defaults: doc.format_defaults,
        global_elements: doc.global_elements,
        global_element_errors: doc.global_element_errors,
        groups: doc.groups,
        types: doc.types,
        named_formats: doc.named_formats,
        named_escape_schemes: doc.named_escape_schemes,
        variables: doc.variables,
        schema_warnings: doc.schema_warnings,
        scoped_schema_warnings: doc.scoped_schema_warnings,
        schema_diagnostics: doc.schema_diagnostics,
        schema_source_text,
        schema_source_label,
        dfdl_annotations_seen,
        explicit_encoding_error_policy_on_format: doc.explicit_encoding_error_policy_on_format,
    }
}

/// The schema with what its first element states.
fn headed(
    doc: SchemaDocument,
    target_namespace: Option<String>,
    namespace_prefixes: StrMap<String>,
    dfdl_annotations_seen: bool,
    element_form_default_explicit: bool,
    element_form_default_qualified: bool,
) -> (r: SchemaDocument)
    ensures
        values::agree(
            r@,
            (SchemaDocumentModel {
                target_namespace: target_namespace.deep_view(),
                namespace_prefixes: namespace_prefixes@,
                dfdl_annotations_seen,
                element_form_default_explicit,
                element_form_default_qualified,
                ..doc@
            }),
        ),
{
    reveal(crate::ast::document_model);
    SchemaDocument {
        target_namespace,
        namespace_prefixes,
        element_form_default_explicit,
        element_form_default_qualified,
        format_defaults: doc.format_defaults,
        global_elements: doc.global_elements,
        global_element_errors: doc.global_element_errors,
        groups: doc.groups,
        types: doc.types,
        named_formats: doc.named_formats,
        named_escape_schemes: doc.named_escape_schemes,
        variables: doc.variables,
        schema_warnings: doc.schema_warnings,
        scoped_schema_warnings: doc.scoped_schema_warnings,
        schema_diagnostics: doc.schema_diagnostics,
        schema_source_text: doc.schema_source_text,
        schema_source_label: doc.schema_source_label,
        dfdl_annotations_seen,
        explicit_encoding_error_policy_on_format: doc.explicit_encoding_error_policy_on_format,
    }
}

/// A reader that begins with this text.
fn begin(input: &str, resolver: SchemaResolver, label: Option<&str>) -> (r: XsdParser)
    ensures
        values::agree(r@, begun(input@, resolver@, text::ref_opt(label))),
{
    proof {
        reveal(crate::xsd::state::parser_model);
    }
    let c = chars_of(input);
    let seen: bool = contains(c.as_slice(), DFDL_NS);
    let mut parser = XsdParser::new(resolver);
    parser.doc = sourced(SchemaDocument::default(), input, label, seen);
    parser
}

/// The error for a schema with a document type declaration.
fn refuse_doctype(label: Option<&str>) -> (r: Error)
    ensures
        r@ == doctype_error(text::ref_opt(label)),
{
    match label {
        Some(l) => invalid_property(cat3(DOCTYPE_FOUND, " ", l)),
        None => invalid_property(owned(DOCTYPE_FOUND)),
    }
}

impl XsdParser {
    /// Takes the attributes of a schema in.
    fn begin_schema(&mut self, e: &XmlElement)
        ensures
            values::agree(final(self)@, schema_begun(old(self)@, e@)),
    {
        reveal(crate::ast::document_model);
        proof {
            reveal(crate::xsd::state::parser_model);
        }
        reveal(schema_begun);
        let mut prefixes = e.namespaces.copy();
        collect_namespace_prefixes(&e.attributes, &mut prefixes);
        if let Some(t) = &self.doc.schema_source_text {
            supplement_namespace_prefixes_from_text(t.as_str(), &mut prefixes);
        }
        let explicit: bool = e.attributes.contains_key("elementFormDefault");
        let qualified: bool = match e.attributes.get("elementFormDefault") {
            Some(v) => eq(v.as_str(), "qualified"),
            None => false,
        };
        let seen: bool = self.doc.dfdl_annotations_seen || mentions_dfdl(&e.attributes);
        let target = value_of(&e.attributes, "targetNamespace");
        let mut own = SchemaDocument::default();
        std::mem::swap(&mut self.doc, &mut own);
        self.doc = headed(own, target, prefixes, seen, explicit, qualified);
    }

    /// Takes a part of a schema in that takes no other schema in.
    fn parse_part(&mut self, e: &XmlElement) -> (r: Option<Result<(), Error>>)
        ensures
            match part_read(old(self)@, e@) {
                Some(want) => r matches Some(x) && annotation::finished(final(self)@, x, want),
                None => r is None && values::agree(final(self)@, old(self)@),
            },
    {
        reveal(part_read);
        let local = e.local.as_str();
        if eq(local, "element") {
            return Some(self.parse_global_element(e));
        }
        if eq(local, "complexType") {
            return Some(self.parse_complex_type(None, e));
        }
        if eq(local, "simpleType") {
            return Some(self.parse_simple_type(None, e));
        }
        if eq(local, "group") {
            return Some(self.parse_global_group(e));
        }
        if eq(local, "include") || eq(local, "import") {
            return None;
        }
        if eq(local, "format") {
            return Some(self.parse_format_element(e));
        }
        if eq(local, "defineFormat") || eq(local, "defineEscapeScheme") {
            return match self.parse_dfdl_element(e) {
                Ok(_) => Some(Ok(())),
                Err(x) => Some(Err(x)),
            };
        }
        if eq(local, "annotation") {
            return match self.parse_annotation(e) {
                Ok(p) => {
                    self.add_defaults(p);
                    Some(Ok(()))
                },
                Err(x) => Some(Err(x)),
            };
        }
        if let Err(x) = skip_element(e) {
            return Some(Err(x));
        }
        if eq(local, "defineVariable") {
            self.define_variable(&e.attributes);
        }
        Some(Ok(()))
    }

    /// Warns of a schema without annotations.
    fn warn_of_plain(&mut self, location: &str)
        ensures
            values::agree(
                final(self)@,
                (XsdParserModel {
                    doc: SchemaDocumentModel {
                        schema_warnings: old(self)@.doc.schema_warnings
                            + seq!["Non-DFDL Schema file ignored"@, resolver::file_name(location@)],
                        ..old(self)@.doc
                    },
                    ..old(self)@
                }),
            ),
    {
        reveal(crate::ast::document_model);
        proof {
            reveal(crate::xsd::state::parser_model);
        }
        let ghost before = self.doc.schema_warnings.deep_view();
        let first = owned("Non-DFDL Schema file ignored");
        let second = file_name_of(location);
        self.doc.schema_warnings.push(first);
        self.doc.schema_warnings.push(second);
        assert(self.doc.schema_warnings.deep_view() =~= before + seq![
            "Non-DFDL Schema file ignored"@,
            resolver::file_name(location@),
        ]);
    }

    /// Takes a schema in.
    fn combine(&mut self, found: SchemaDocument, kind: SchemaMergeKind)
        ensures
            values::agree(
                final(self)@,
                (XsdParserModel {
                    doc: combine::taken_in(old(self)@.doc, found@, kind),
                    ..old(self)@
                }),
            ),
    {
        proof {
            reveal(crate::xsd::state::parser_model);
        }
        let mut own = SchemaDocument::default();
        std::mem::swap(&mut self.doc, &mut own);
        self.doc = merge_included(own, found, kind);
    }

    /// Takes a schema in that was read from this location.
    fn take_schema(&mut self, e: &XmlElement, location: &str, found: SchemaDocument) -> (r: Result<
        (),
        Error,
    >)
        ensures
            annotation::finished(
                final(self)@,
                r,
                schema_taken(old(self)@, e@, location@, found@),
            ),
            r is Err ==> values::agree(final(self)@, old(self)@),
    {
        reveal(crate::ast::document_model);
        if !found.dfdl_annotations_seen {
            self.warn_of_plain(location);
            return Ok(());
        }
        if eq(e.local.as_str(), "import") {
            if let Some(expected) = e.attributes.get("namespace") {
                let actual: &str = match &found.target_namespace {
                    Some(ns) => ns.as_str(),
                    None => "",
                };
                if !eq(expected.as_str(), actual) {
                    return Err(
                        invalid_property(
                            cat5(
                                "Schema Definition Error: Import element specifies namespace ",
                                expected.as_str(),
                                " but namespace ",
                                actual,
                                " of imported schema does not match",
                            ),
                        ),
                    );
                }
            }
            self.combine(found, SchemaMergeKind::Import);
            return Ok(());
        }
        self.combine(found, SchemaMergeKind::Include);
        Ok(())
    }

    /// Notes a location; `false` where it was noted already.
    fn note_location(&mut self, location: &str) -> (r: bool)
        ensures
            values::agree(final(self)@, location_noted(old(self)@, location@)),
            r == !old(self)@.resolver.included.contains(
                resolver::include_key(old(self)@.resolver, location@),
            ),
    {
        proof {
            reveal(crate::xsd::state::parser_model);
        }
        self.resolver.register_include(location)
    }

    /// Sets how many types without a name were named.
    fn set_number(&mut self, n: u64)
        ensures
            values::agree(final(self)@, numbered(old(self)@, n)),
    {
        proof {
            reveal(crate::xsd::state::parser_model);
        }
        self.resolver.inline_types = n;
    }

    /// The resolver with which a schema is read that this one takes in.
    fn resolver_for(&self, dir: Option<String>) -> (r: SchemaResolver)
        ensures
            values::agree(r@, resolver::inside(self@.resolver, dir.deep_view())),
    {
        proof {
            reveal(crate::xsd::state::parser_model);
        }
        match dir {
            Some(d) => self.resolver.for_included(Some(d.as_str())),
            None => self.resolver.for_included(None),
        }
    }

    /// Takes an element in that takes another schema in.
    pub(crate) fn parse_include_or_import(&mut self, e: &XmlElement, depth: usize) -> (r: Result<(), Error>)
        ensures
            annotation::finished(final(self)@, r, taken(old(self)@, e@, depth as nat)),
            r is Err ==> values::agree(final(self)@, taking_left(old(self)@, e@, depth as nat)),
        decreases depth, 0int,
    {
        proof {
            reveal(crate::xsd::state::parser_model);
        }
        reveal(taken);
        reveal(schema_read);
        let location = match e.attributes.get("schemaLocation") {
            Some(location) => location,
            None => {
                return Err(missing_attribute(e.local.as_str(), "schemaLocation"));
            },
        };
        skip_element(e)?;
        if !self.note_location(location.as_str()) {
            return Ok(());
        }
        let (source, dir) = self.resolver.resolve_with_include_dir(location.as_str())?;
        if depth == 0 {
            return Err(
                invalid_xml(
                    cat3(
                        "Schema Definition Error: endless inclusion at Include Location `",
                        location.as_str(),
                        "`",
                    ),
                ),
            );
        }
        let child = self.resolver_for(dir);
        let label = file_name_of(location.as_str());
        let (found, n) = parse_at_depth(
            source.as_str(),
            child,
            Some(label.as_str()),
            depth - 1,
        )?;
        self.set_number(n);
        self.take_schema(e, location.as_str(), found)
    }

    /// Takes the parts of a schema in.
    fn parse_parts(&mut self, list: &Vec<XmlNode>, depth: usize) -> (r: Result<(), Error>)
        ensures
            annotation::finished(
                final(self)@,
                r,
                parts_from(old(self)@, xml::node_models(*list), 0, depth as nat),
            ),
        decreases depth, 1int,
    {
        reveal(parts_from);
        reveal(taken);
        let n: usize = list.len();
        let mut i: usize = 0;
        let ghost all = xml::node_models(*list);
        let ghost want = parts_from(self@, all, 0, depth as nat);
        while i < n
            invariant
                i <= n,
                n == list@.len(),
                all == xml::node_models(*list),
                want == parts_from(old(self)@, all, 0, depth as nat),
                values::agree(want, parts_from(self@, all, i as nat, depth as nat)),
            decreases n - i,
        {
            reveal(parts_from);
            reveal(taken);
            assert(all[i as int] == list@[i as int].model());
            match &list[i] {
                XmlNode::Element(child) => {
                    match self.parse_part(child) {
                        Some(r) => {
                            r?;
                        },
                        None => {
                            self.parse_include_or_import(child, depth)?;
                        },
                    }
                },
                other => {
                    if let Some(x) = fault_of(other, "expected schema child, found ", "") {
                        return Err(x);
                    }
                },
            }
            i += 1;
        }
        Ok(())
    }

    /// Takes a schema element in.
    pub(crate) fn parse_schema_element(&mut self, e: &XmlElement, depth: usize) -> (r: Result<(), Error>)
        ensures
            annotation::finished(
                final(self)@,
                r,
                parts_from(schema_begun(old(self)@, e@), e@.children, 0, depth as nat),
            ),
        decreases depth, 2int,
    {
        self.begin_schema(e);
        self.parse_parts(&e.children, depth)
    }

    /// Takes the elements of a document in.
    pub(crate) fn parse_document(&mut self, list: &Vec<XmlNode>, depth: usize) -> (r: Result<(), Error>)
        ensures
            annotation::finished(
                final(self)@,
                r,
                roots_from(old(self)@, xml::node_models(*list), 0, depth as nat),
            ),
        decreases depth, 3int,
    {
        reveal(roots_from);
        reveal(parts_from);
        let n: usize = list.len();
        let mut i: usize = 0;
        let ghost all = xml::node_models(*list);
        let ghost want = roots_from(self@, all, 0, depth as nat);
        while i < n
            invariant
                i <= n,
                n == list@.len(),
                all == xml::node_models(*list),
                want == roots_from(old(self)@, all, 0, depth as nat),
                values::agree(want, roots_from(self@, all, i as nat, depth as nat)),
            decreases n - i,
        {
            reveal(roots_from);
            reveal(parts_from);
            assert(all[i as int] == list@[i as int].model());
            match &list[i] {
                XmlNode::Element(child) => {
                    let schema: bool = eq(child.local.as_str(), "schema");
                    if !schema {
                        skip_element(child)?;
                        return Err(refuse_root(child));
                    }
                    self.parse_schema_element(child, depth)?;
                },
                XmlNode::Data(_) => {
                    return Err(invalid_xml(owned("unexpected top-level \"CData\"")));
                },
                other => {
                    if let Some(x) = nodes::break_of(other) {
                        return Err(x);
                    }
                },
            }
            i += 1;
        }
        Ok(())
    }
}

/// The schema that a reader has read, and how many types without a name it named.
fn finish(parser: XsdParser, source: &str, label: Option<&str>) -> (r: (SchemaDocument, u64))
    ensures
        values::agree(r.0@, completed(parser@.doc, source@, text::ref_opt(label))),
        r.1 == parser@.resolver.inline_types,
{
    proof {
        reveal(crate::xsd::state::parser_model);
    }
    let n: u64 = parser.resolver.inline_types;
    (complete(parser.doc, source, label), n)
}

/// Reads a schema from a text and the pieces in which it is read, with at most
/// `depth` schemas taken in inside each other.
pub fn parse_schema_items(
    input: &str,
    items: &Vec<XmlItem>,
    resolver: SchemaResolver,
    schema_label: Option<&str>,
    depth: usize,
) -> (r: Result<(SchemaDocument, u64), Error>)
    ensures
        outcome(r) == schema_read(
            input@,
            items.deep_view(),
            resolver@,
            text::ref_opt(schema_label),
            depth as nat,
        ),
    decreases depth, 4int,
{
    reveal(schema_read);
    reveal(roots_from);
    if let Some(said) = precheck_schema_definition_errors(input) {
        return Err(invalid_property(said));
    }
    let c = chars_of(input);
    if contains(c.as_slice(), "<!DOCTYPE") {
        return Err(refuse_doctype(schema_label));
    }
    let mut parser = begin(input, resolver, schema_label);
    let tree = build_tree(items);
    match parser.parse_document(&tree, depth) {
        Ok(_) => Ok(finish(parser, input, schema_label)),
        Err(x) => Err(map_xml_parse_error_to_schema(x)),
    }
}

/// Reads a schema from a text, with at most `depth` schemas taken in inside each
/// other.
fn parse_at_depth(
    input: &str,
    resolver: SchemaResolver,
    schema_label: Option<&str>,
    depth: usize,
) -> (r: Result<(SchemaDocument, u64), Error>)
    ensures
        outcome(r) == schema_read(
            input@,
            xml::xml_items(input@),
            resolver@,
            text::ref_opt(schema_label),
            depth as nat,
        ),
    decreases depth, 5int,
{
    let items = read_items(input);
    parse_schema_items(input, &items, resolver, schema_label, depth)
}

/// How many schemas can be taken in inside each other: each name and file once.
pub open spec fn inclusion_depth(m: SchemaResolverModel) -> nat {
    resolver::STANDARD_NAMES as nat + m.bundled.len() + m.files.len()
}

/// The schema that stands in a text.
pub open spec fn schema_of(
    source: Seq<char>,
    m: SchemaResolverModel,
    label: Option<Seq<char>>,
) -> Result<SchemaDocumentModel, ErrorModel> {
    match schema_read(
        source,
        xml::xml_items(source),
        m,
        label,
        values::least(inclusion_depth(m), usize::MAX as nat),
    ) {
        Ok((doc, _)) => Ok(doc),
        Err(x) => Err(x),
    }
}

/// Reads a schema.
pub fn parse_schema_with_resolver_and_label(
    input: &str,
    resolver: SchemaResolver,
    schema_label: Option<&str>,
) -> (r: Result<SchemaDocument, Error>)
    ensures
        outcome(r) == schema_of(input@, resolver@, text::ref_opt(schema_label)),
{
    let a: usize = resolver.bundled.len();
    let b: usize = resolver.files.len();
    let depth: usize = a.saturating_add(b).saturating_add(STANDARD_NAMES);
    let (doc, _) = parse_at_depth(input, resolver, schema_label, depth)?;
    Ok(doc)
}

/// How a schema is read.
#[derive(Debug)]
pub struct ParseOptions {
    /// The directory to which the locations in the schema are relative.
    pub base_dir: Option<String>,
    /// The name of the schema in messages.
    pub schema_label: Option<String>,
    /// The schemas that can be taken in.
    pub sources: SchemaResolver,
}

impl Default for ParseOptions {
    fn default() -> (r: Self)
        ensures
            r.base_dir is None,
            r.schema_label is None,
            r.sources@ == resolver::no_schemas(),
    {
        ParseOptions { base_dir: None, schema_label: None, sources: SchemaResolver::new() }
    }
}

/// Reads a schema with these options.
pub fn parse_schema_with_options(input: &str, options: &ParseOptions) -> (r: Result<
    SchemaDocument,
    Error,
>)
    ensures
        outcome(r) == schema_of(
            input@,
            resolver::inside(options.sources@, options.base_dir.deep_view()),
            options.schema_label.deep_view(),
        ),
{
    let resolver = match &options.base_dir {
        Some(base) => options.sources.for_included(Some(base.as_str())),
        None => options.sources.for_included(None),
    };
    let label: Option<&str> = match &options.schema_label {
        Some(l) => Some(l.as_str()),
        None => None,
    };
    parse_schema_with_resolver_and_label(input, resolver, label)
}

/// Reads a schema with this resolver.
pub fn parse_schema_with_resolver(input: &str, resolver: SchemaResolver) -> (r: Result<
    SchemaDocument,
    Error,
>)
    ensures
        outcome(r) == schema_of(input@, resolver@, None),
{
    parse_schema_with_resolver_and_label(input, resolver, None)
}

/// Reads a schema that takes no other one in.
pub fn parse_schema(input: &str) -> (r: Result<SchemaDocument, Error>)
    ensures
        outcome(r) == schema_of(input@, resolver::no_schemas(), None),
{
    parse_schema_with_options(input, &ParseOptions::default())
}

/// A schema that was read has the text and the label with which it was read.
pub proof fn law_source_kept(source: Seq<char>, m: SchemaResolverModel, label: Option<Seq<char>>)
    requires
        schema_of(source, m, label) is Ok,
    ensures
        schema_of(source, m, label)->Ok_0.schema_source_text == Some(source),
        schema_of(source, m, label)->Ok_0.schema_source_label == label,
{
    reveal(schema_read);
    reveal(roots_from);
    reveal(completed);
}

/// The reader after a schema was taken in names types from where the numbers of
/// that schema ended, and that schema from where the numbers of the reader stood.
pub proof fn law_numbers_go_on(
    st: XsdParserModel,
    e: XmlElementModel,
    depth: nat,
    location: Seq<char>,
    source: Seq<char>,
    dir: Option<Seq<char>>,
)
    requires
        depth > 0,
        taken(st, e, depth) is Ok,
        strmap::lookup(e.attributes, "schemaLocation"@) == Some(location),
        !st.resolver.included.contains(resolver::include_key(st.resolver, location)),
        resolver::resolved(location_noted(st, location).resolver, location) == Ok::<
            (Seq<char>, Option<Seq<char>>),
            ErrorModel,
        >((source, dir)),
    ensures
        resolver::inside(location_noted(st, location).resolver, dir).inline_types
            == st.resolver.inline_types,
        schema_read(
            source,
            xml::xml_items(source),
            resolver::inside(location_noted(st, location).resolver, dir),
            Some(resolver::file_name(location)),
            (depth - 1) as nat,
        ) matches Ok((_, n)) && taken(st, e, depth)->Ok_0.resolver.inline_types == n,
{
    reveal(taken);
    reveal(schema_read);
}

} // verus!
