//! The annotations of a schema and what they change in it.

use vstd::prelude::*;
use crate::ast;
use crate::ast::{
    DfdlProps, DfdlPropsModel, EscapeSchemeDef, EscapeSchemeDefModel, SchemaDocumentModel,
};
use crate::attrs;
use crate::attrs::{
    attr_by_local, attr_by_suffix, collect_namespace_prefixes, escape_scheme_from_attrs,
    is_dfdl_element, overlay, record_foreign_attrs_on_dfdl_element, DFDL_LEGACY_NS, DFDL_NS,
};
use crate::error::{cat2, cat3, cat5, invalid_property, invalid_xml, outcome, Error, ErrorModel};
use crate::merge;
use crate::merge::merge_dfdl_props;
use crate::props;
use crate::props::{local_tag, props_from_attrs_with_variables};
use crate::qname;
use crate::qname::{format_storage_key, lookup_named_format_in_document, opt_str};
use crate::strmap;
use crate::strmap::StrMap;
use crate::text;
use crate::text::{chars_of, eq, is, last_piece, starts_with, string_of};
use crate::values;
use crate::values::{owned, Duplicate};
use crate::xml;
use crate::xml::{XmlElement, XmlElementModel, XmlNode, XmlNodeModel};
use crate::xsd::annotation;
use crate::xsd::annotation::{
    assignment, open_policy, open_zone, read_element_properties, read_sequence_annotation,
    read_test_annotation, set_statement,
};
use crate::xsd::nodes;
use crate::xsd::nodes::{fault_of, find_flaw, lemma_child, skip_blank, skip_element};
use crate::xsd::state;
use crate::xsd::state::{format_ref_of, XsdParser, XsdParserModel};

verus! {

// ---------------------------------------------------------------------- formats

/// The attributes state an encoding error policy.
pub open spec fn states_policy(a: Seq<(Seq<char>, Seq<char>)>) -> bool {
    attrs::by_local(a, "encodingErrorPolicy"@) is Some || attrs::by_suffix(
        a,
        ":encodingErrorPolicy"@,
    ) is Some
}

/// Whether the attributes state an encoding error policy.
pub fn has_policy(a: &StrMap<String>) -> (r: bool)
    ensures
        r == states_policy(a@),
{
    attr_by_local(a, "encodingErrorPolicy").is_some() || attr_by_suffix(
        a,
        ":encodingErrorPolicy",
    ).is_some()
}

/// The format to which a format annotation refers.
pub open spec fn format_named(p: DfdlPropsModel, a: Seq<(Seq<char>, Seq<char>)>) -> Option<Seq<char>> {
    match strmap::lookup(a, "ref"@) {
        Some(r) => Some(r),
        None => p.statements.format_ref,
    }
}

/// What a format annotation states, over the format to which it refers.
#[verifier::opaque]
pub open spec fn format_stated(
    st: XsdParserModel,
    p: DfdlPropsModel,
    a: Seq<(Seq<char>, Seq<char>)>,
) -> DfdlPropsModel {
    let whole = match format_named(p, a) {
        Some(name) => match qname::stored_under(st.doc, st.doc.named_formats, name) {
            Some(base) => merge::merge_spec(base, p),
            None => p,
        },
        None => p,
    };
    let q = if states_policy(a) {
        whole
    } else {
        annotation::policy_open(whole)
    };
    if st.in_define_format {
        q
    } else {
        annotation::zone_open(q)
    }
}

/// The reader after a format annotation: outside format definitions the
/// annotation sets the default properties.
#[verifier::opaque]
pub open spec fn format_applied(
    st: XsdParserModel,
    p: DfdlPropsModel,
    a: Seq<(Seq<char>, Seq<char>)>,
) -> XsdParserModel {
    let q = format_stated(st, p, a);
    if st.in_define_format {
        st
    } else if format_named(p, a) is Some {
        state::with_defaults(st, merge::merge_spec(st.doc.format_defaults.props, q))
    } else {
        state::with_defaults(st, q)
    }
}

impl XsdParser {
    /// Sets the default properties.
    pub(crate) fn set_defaults(&mut self, p: DfdlProps)
        ensures
            values::agree(final(self)@, state::with_defaults(old(self)@, p@)),
    {
        reveal(crate::ast::document_model);
        proof {
            reveal(crate::xsd::state::parser_model);
        }
        self.doc.format_defaults.props = p;
    }

    /// What a format annotation states, over the format to which it refers.
    fn stated_format(&self, p: DfdlProps, a: &StrMap<String>) -> (r: DfdlProps)
        ensures
            values::agree(r@, format_stated(self@, p@, a@)),
    {
        proof {
            reveal(crate::xsd::state::parser_model);
        }
        reveal(format_stated);
        let name: Option<String> = match a.get("ref") {
            Some(r) => Some(r.copy()),
            None => format_ref_of(&p),
        };
        let whole = match name {
            Some(n) => match lookup_named_format_in_document(&self.doc, n.as_str()) {
                Some(base) => merge_dfdl_props(base, p),
                None => p,
            },
            None => p,
        };
        let q = if has_policy(a) {
            whole
        } else {
            open_policy(whole)
        };
        if self.in_define_format {
            q
        } else {
            open_zone(q)
        }
    }

    /// Takes a format annotation in.
    fn apply_format(&mut self, p: DfdlProps, a: &StrMap<String>) -> (r: DfdlProps)
        ensures
            values::agree(r@, format_stated(old(self)@, p@, a@)),
            values::agree(final(self)@, format_applied(old(self)@, p@, a@)),
    {
        reveal(crate::ast::document_model);
        proof {
            reveal(crate::xsd::state::parser_model);
        }
        reveal(format_applied);
        let named: bool = a.get("ref").is_some() || format_ref_of(&p).is_some();
        let q = self.stated_format(p, a);
        if !self.in_define_format {
            let defaults = if named {
                merge_dfdl_props(self.doc.format_defaults.props.copy(), q.copy())
            } else {
                q.copy()
            };
            self.set_defaults(defaults);
        }
        q
    }
}

// ----------------------------------------------------------------- escape schemes

/// The escape scheme that stands from `i` on in its definition; the last one
/// counts.
pub open spec fn scheme_from(
    found: Option<EscapeSchemeDefModel>,
    nodes: Seq<XmlNodeModel>,
    i: nat,
) -> Result<Option<EscapeSchemeDefModel>, ErrorModel>
    decreases nodes.len() - i,
{
    if i >= nodes.len() {
        Ok(found)
    } else {
        match nodes[i as int] {
            XmlNodeModel::Element(e) => match nodes::flaw(e) {
                Some(x) => Err(x),
                None => scheme_from(
                    if e.local == "escapeScheme"@ {
                        Some(attrs::escape_scheme(e.attributes))
                    } else {
                        found
                    },
                    nodes,
                    i + 1,
                ),
            },
            n => match nodes::fault(n, "expected defineEscapeScheme child, found "@, ""@) {
                Some(x) => Err(x),
                None => scheme_from(found, nodes, i + 1),
            },
        }
    }
}

/// The reader with an escape scheme.
pub open spec fn with_scheme(
    st: XsdParserModel,
    key: Seq<char>,
    scheme: EscapeSchemeDefModel,
) -> XsdParserModel {
    XsdParserModel {
        doc: SchemaDocumentModel {
            named_escape_schemes: strmap::with_entry(st.doc.named_escape_schemes, key, scheme),
            ..st.doc
        },
        ..st
    }
}

/// The reader after the definition of an escape scheme.
pub open spec fn scheme_defined(st: XsdParserModel, e: XmlElementModel) -> Result<
    XsdParserModel,
    ErrorModel,
> {
    match scheme_from(None, e.children, 0) {
        Err(x) => Err(x),
        Ok(None) => Err(
            ErrorModel::InvalidProperty(
                "Schema Definition Error: The content of element 'dfdl:defineEscapeScheme' is not complete"@,
            ),
        ),
        Ok(Some(scheme)) => match strmap::lookup(e.attributes, "name"@) {
            None => Err(
                ErrorModel::InvalidProperty(
                    "Schema Definition Error: Attribute 'name' must appear on element defineEscapeScheme"@,
                ),
            ),
            Some(name) => {
                let key = qname::storage_key(name, st.doc.target_namespace);
                if strmap::lookup(st.doc.named_escape_schemes, key) is Some {
                    Err(
                        ErrorModel::InvalidProperty(
                            "Schema Definition Error: More than one definition for name: "@ + name,
                        ),
                    )
                } else {
                    Ok(with_scheme(st, key, scheme))
                }
            },
        },
    }
}

/// The escape scheme that stands in its definition.
fn read_scheme(e: &XmlElement) -> (r: Result<Option<EscapeSchemeDef>, Error>)
    ensures
        outcome(r) == scheme_from(None, e@.children, 0),
{
    let list = &e.children;
    let n: usize = list.len();
    let mut i: usize = 0;
    let mut found: Option<EscapeSchemeDef> = None;
    let ghost all = e@.children;
    while i < n
        invariant
            i <= n,
            n == list@.len(),
            all == xml::node_models(*list),
            all == e@.children,
            values::agree(
                scheme_from(None, all, 0),
                scheme_from(found.deep_view(), all, i as nat),
            ),
        decreases n - i,
    {
        assert(all[i as int] == list@[i as int].model());
        match &list[i] {
            XmlNode::Element(child) => {
                skip_element(child)?;
                if eq(child.local.as_str(), "escapeScheme") {
                    found = Some(escape_scheme_from_attrs(&child.attributes));
                }
            },
            other => {
                if let Some(x) = fault_of(other, "expected defineEscapeScheme child, found ", "") {
                    return Err(x);
                }
            },
        }
        i += 1;
    }
    Ok(found)
}

impl XsdParser {
    /// Stores an escape scheme.
    fn insert_scheme(&mut self, key: String, scheme: EscapeSchemeDef)
        ensures
            values::agree(final(self)@, with_scheme(old(self)@, key@, scheme@)),
    {
        reveal(crate::ast::document_model);
        proof {
            reveal(crate::xsd::state::parser_model);
        }
        self.doc.named_escape_schemes.insert(key, scheme);
    }

    /// Takes the definition of an escape scheme in.
    pub(crate) fn parse_define_escape_scheme(&mut self, e: &XmlElement) -> (r: Result<(), Error>)
        ensures
            annotation::finished(final(self)@, r, scheme_defined(old(self)@, e@)),
            r is Err ==> values::agree(final(self)@, old(self)@),
    {
        reveal(crate::ast::document_model);
        proof {
            reveal(crate::xsd::state::parser_model);
        }
        let scheme = match read_scheme(e)? {
            Some(s) => s,
            None => {
                return Err(
                    invalid_property(
                        owned(
                            "Schema Definition Error: The content of element 'dfdl:defineEscapeScheme' is not complete",
                        ),
                    ),
                );
            },
        };
        let name = match e.attributes.get("name") {
            Some(name) => name,
            None => {
                return Err(
                    invalid_property(
                        owned(
                            "Schema Definition Error: Attribute 'name' must appear on element defineEscapeScheme",
                        ),
                    ),
                );
            },
        };
        let key = format_storage_key(name.as_str(), opt_str(&self.doc.target_namespace));
        if self.doc.named_escape_schemes.contains_key(key.as_str()) {
            return Err(
                invalid_property(
                    cat2(
                        "Schema Definition Error: More than one definition for name: ",
                        name.as_str(),
                    ),
                ),
            );
        }
        self.insert_scheme(key, scheme);
        Ok(())
    }
}

// --------------------------------------------------------------------- annotations

/// The first attribute that has the prefix `dfdl`.
pub open spec fn dfdl_prefixed(a: Seq<(Seq<char>, Seq<char>)>) -> Option<Seq<char>>
    decreases a.len(),
{
    if a.len() == 0 {
        None
    } else {
        match dfdl_prefixed(a.drop_last()) {
            Some(k) => Some(k),
            None => if text::has_prefix(a.last().0, "dfdl:"@) {
                Some(a.last().0)
            } else {
                None
            },
        }
    }
}

proof fn lemma_dfdl_prefixed_stays(a: Seq<(Seq<char>, Seq<char>)>, n: int)
    requires
        0 <= n <= a.len(),
        dfdl_prefixed(a.take(n)) is Some,
    ensures
        dfdl_prefixed(a) == dfdl_prefixed(a.take(n)),
    decreases a.len() - n,
{
    if n == a.len() {
        assert(a.take(n) == a);
    } else {
        assert(a.take(n + 1).drop_last() == a.take(n));
        lemma_dfdl_prefixed_stays(a, n + 1);
    }
}

/// The first attribute that has the prefix `dfdl`.
fn find_dfdl_prefixed(a: &StrMap<String>) -> (r: Option<String>)
    ensures
        r.deep_view() == dfdl_prefixed(a@),
{
    let n: usize = a.entries.len();
    let mut i: usize = 0;
    while i < n
        invariant
            i <= n,
            n == a.entries@.len(),
            n == a@.len(),
            dfdl_prefixed(a@.take(i as int)) is None,
        decreases n - i,
    {
        assert(a@.take(i + 1).drop_last() == a@.take(i as int));
        assert(a@.take(i + 1).last() == a@[i as int]);
        let k = chars_of(a.entries[i].0.as_str());
        if starts_with(k.as_slice(), "dfdl:") {
            proof {
                lemma_dfdl_prefixed_stays(a@, i + 1);
            }
            return Some(a.entries[i].0.copy());
        }
        i += 1;
    }
    assert(a@.take(i as int) == a@);
    None
}

/// The error for an annotation's attribute that has the prefix `dfdl`.
pub open spec fn prefixed_error(key: Seq<char>) -> ErrorModel {
    ErrorModel::InvalidProperty(
        "Schema Definition Error: dfdl:"@ + text::after_last(key, ':')
            + " attribute must not use the dfdl: prefix on DFDL annotation elements"@,
    )
}

/// What is said of the attributes of a format definition other than its name.
pub open spec fn definition_complaints(a: Seq<(Seq<char>, Seq<char>)>) -> Seq<Seq<char>>
    decreases a.len(),
{
    if a.len() == 0 {
        Seq::empty()
    } else {
        let rest = definition_complaints(a.drop_last());
        let local = props::local_tag_spec(a.last().0);
        if local != "name"@ {
            rest.push(
                "Schema Definition Error: Property "@ + local
                    + " is not allowed on dfdl:defineFormat"@,
            )
        } else {
            rest
        }
    }
}

/// What is said of the attributes of a format definition other than its name.
fn complaints_of_definition(a: &StrMap<String>) -> (r: Vec<String>)
    ensures
        r.deep_view() == definition_complaints(a@),
{
    let n: usize = a.entries.len();
    let mut i: usize = 0;
    let mut out: Vec<String> = Vec::new();
    assert(out.deep_view() =~= definition_complaints(a@.take(0)));
    while i < n
        invariant
            i <= n,
            n == a.entries@.len(),
            n == a@.len(),
            out.deep_view() == definition_complaints(a@.take(i as int)),
        decreases n - i,
    {
        assert(a@.take(i + 1).drop_last() == a@.take(i as int));
        assert(a@.take(i + 1).last() == a@[i as int]);
        let k = chars_of(a.entries[i].0.as_str());
        let local = local_tag(k.as_slice());
        let named: bool = is(local, "name");
        if !named {
            let ghost before = out.deep_view();
            let said = cat3(
                "Schema Definition Error: Property ",
                string_of(local).as_str(),
                " is not allowed on dfdl:defineFormat",
            );
            out.push(said);
            assert(out.deep_view() =~= before.push(said@));
        }
        i += 1;
    }
    assert(a@.take(i as int) == a@);
    out
}

/// The reader that is inside a format definition, or is not.
pub open spec fn defining(st: XsdParserModel, inside: bool) -> XsdParserModel {
    XsdParserModel { in_define_format: inside, ..st }
}

/// The reader with a named format.
pub open spec fn with_format(st: XsdParserModel, key: Seq<char>, p: DfdlPropsModel) -> XsdParserModel {
    XsdParserModel {
        doc: SchemaDocumentModel {
            named_formats: strmap::with_entry(st.doc.named_formats, key, p),
            ..st.doc
        },
        ..st
    }
}

/// The reader after a format definition with these properties has been read, and
/// those properties.
pub open spec fn format_stored(
    st: XsdParserModel,
    name: Option<Seq<char>>,
    p: DfdlPropsModel,
) -> Result<(XsdParserModel, DfdlPropsModel), ErrorModel> {
    match name {
        None => Err(
            ErrorModel::InvalidProperty(
                "Schema Definition Error: Attribute 'name' must appear on element 'dfdl:defineFormat'."@,
            ),
        ),
        Some(n) => {
            let key = qname::storage_key(n, st.doc.target_namespace);
            if strmap::lookup(st.doc.named_formats, key) is Some {
                Err(ErrorModel::InvalidXml("More than one definition for name: "@ + n))
            } else {
                Ok((with_format(st, key, annotation::zone_open(p)), p))
            }
        },
    }
}

/// The reader after a format definition, and the properties of the format.
#[verifier::opaque]
pub open spec fn format_defined(st: XsdParserModel, e: XmlElementModel) -> Result<
    (XsdParserModel, DfdlPropsModel),
    ErrorModel,
>
    decreases e, 0int,
{
    let said = state::complained(st, definition_complaints(e.attributes));
    if nodes::at_end(e.children, 0) {
        Ok((said, ast::no_props()))
    } else {
        match format_parts(defining(said, true), ast::no_props(), e.children, 0) {
            Err(x) => Err(x),
            Ok((st2, p)) => format_stored(
                defining(st2, false),
                strmap::lookup(e.attributes, "name"@),
                p,
            ),
        }
    }
}

/// The reader after the annotations that stand from `i` on in a format
/// definition, and their properties over these.
#[verifier::opaque]
pub open spec fn format_parts(
    st: XsdParserModel,
    p: DfdlPropsModel,
    nodes: Seq<XmlNodeModel>,
    i: nat,
) -> Result<(XsdParserModel, DfdlPropsModel), ErrorModel>
    decreases nodes, nodes.len() - i,
{
    if i >= nodes.len() {
        Ok((st, p))
    } else {
        match nodes[i as int] {
            XmlNodeModel::Element(e) => if attrs::dfdl_element(e.prefix, e.local, e.namespace) {
                match annotated(st, e) {
                    Err(x) => Err(x),
                    Ok((st2, q)) => format_parts(st2, merge::merge_spec(p, q), nodes, i + 1),
                }
            } else {
                match nodes::flaw(e) {
                    Some(x) => Err(x),
                    None => format_parts(st, p, nodes, i + 1),
                }
            },
            n => match nodes::fault(n, "expected defineFormat child, found "@, ""@) {
                Some(x) => Err(x),
                None => format_parts(st, p, nodes, i + 1),
            },
        }
    }
}

/// The reader with the attributes of an annotation looked at.
pub open spec fn noted(st: XsdParserModel, e: XmlElementModel) -> XsdParserModel {
    let said = state::complained(st, attrs::foreign_complaints(e.local, e.attributes));
    XsdParserModel {
        doc: SchemaDocumentModel { dfdl_annotations_seen: true, ..said.doc },
        ..said
    }
}

/// The reader after an annotation, and the properties that it states.
#[verifier::opaque]
pub open spec fn annotated(st: XsdParserModel, e: XmlElementModel) -> Result<
    (XsdParserModel, DfdlPropsModel),
    ErrorModel,
>
    decreases e, 1int,
{
    let st1 = noted(st, e);
    match dfdl_prefixed(e.attributes) {
        Some(key) => Err(prefixed_error(key)),
        None => if e.local == "defineFormat"@ {
            format_defined(st1, e)
        } else if e.local == "defineEscapeScheme"@ {
            match scheme_defined(st1, e) {
                Ok(st2) => Ok((st2, ast::no_props())),
                Err(x) => Err(x),
            }
        } else if e.local == "defineVariable"@ {
            match nodes::flaw(e) {
                Some(x) => Err(x),
                None => Ok((state::with_variable(st1, e.attributes), ast::no_props())),
            }
        } else if e.local == "setVariable"@ {
            match nodes::flaw(e) {
                Some(x) => Err(x),
                None => Ok((st1, annotation::assigning(e.attributes))),
            }
        } else {
            properties_stated(st1, e)
        },
    }
}

/// The reader with what is said of the attributes of an annotation.
pub open spec fn stating(st: XsdParserModel, e: XmlElementModel) -> XsdParserModel {
    state::complained(
        st,
        props::attrs_complaints(
            e.attributes,
            Some(st.doc.variables),
            st.doc.schema_source_label,
        ),
    )
}

/// The reader as an annotation that is no format definition leaves it where it
/// cannot be read.
pub open spec fn annotation_left(st: XsdParserModel, e: XmlElementModel) -> XsdParserModel {
    let st1 = noted(st, e);
    if dfdl_prefixed(e.attributes) is Some || e.local == "defineEscapeScheme"@ || e.local
        == "defineVariable"@ || e.local == "setVariable"@ {
        st1
    } else {
        stating(st1, e)
    }
}

/// The reader after an annotation that states properties, and those.
#[verifier::opaque]
pub open spec fn properties_stated(st: XsdParserModel, e: XmlElementModel) -> Result<
    (XsdParserModel, DfdlPropsModel),
    ErrorModel,
> {
    let said = stating(st, e);
    match props::attrs_props(e.attributes, Some(st.doc.variables)) {
        Err(x) => Err(x),
        Ok(p) => body_stated(said, state::escape_normalized(said, p), e),
    }
}

/// An assertion or a discriminator.
pub open spec fn is_test(local: Seq<char>) -> bool {
    local == "assert"@ || local == "discriminator"@
}

/// The reader after an annotation whose attributes state these properties, and
/// all its properties.
#[verifier::opaque]
pub open spec fn body_stated(st: XsdParserModel, p: DfdlPropsModel, e: XmlElementModel) -> Result<
    (XsdParserModel, DfdlPropsModel),
    ErrorModel,
> {
    if e.local == "element"@ {
        unchanged(st, annotation::element_properties(p, e.children, 0))
    } else if is_test(e.local) {
        unchanged(st, annotation::test_annotation(annotation::with_statement(p, e.attributes), e))
    } else if e.local == "sequence"@ {
        unchanged(st, annotation::sequence_annotation(p, e))
    } else {
        match nodes::flaw(e) {
            Some(x) => Err(x),
            None => if e.local == "format"@ {
                Ok((format_applied(st, p, e.attributes), format_stated(st, p, e.attributes)))
            } else {
                Ok((st, p))
            },
        }
    }
}

/// A value that is read while the reader stays as it is.
pub open spec fn unchanged<T>(st: XsdParserModel, r: Result<T, ErrorModel>) -> Result<
    (XsdParserModel, T),
    ErrorModel,
> {
    match r {
        Ok(v) => Ok((st, v)),
        Err(x) => Err(x),
    }
}

impl XsdParser {
    /// Looks at the attributes of an annotation.
    fn note(&mut self, e: &XmlElement)
        ensures
            values::agree(final(self)@, noted(old(self)@, e@)),
    {
        reveal(crate::ast::document_model);
        proof {
            reveal(crate::xsd::state::parser_model);
        }
        self.doc.dfdl_annotations_seen = true;
        record_foreign_attrs_on_dfdl_element(
            e.local.as_str(),
            &e.attributes,
            &mut self.doc.schema_diagnostics,
        );
    }

    /// Enters or leaves a format definition.
    fn set_defining(&mut self, inside: bool)
        ensures
            values::agree(final(self)@, defining(old(self)@, inside)),
    {
        proof {
            reveal(crate::xsd::state::parser_model);
        }
        self.in_define_format = inside;
    }

    /// Stores a named format.
    fn insert_format(&mut self, key: String, p: DfdlProps)
        ensures
            values::agree(final(self)@, with_format(old(self)@, key@, p@)),
    {
        reveal(crate::ast::document_model);
        proof {
            reveal(crate::xsd::state::parser_model);
        }
        self.doc.named_formats.insert(key, p);
    }

    /// Stores a format that was defined.
    fn store_format(&mut self, name: Option<&String>, p: DfdlProps) -> (r: Result<DfdlProps, Error>)
        ensures
            annotation::done(
                final(self)@,
                r,
                format_stored(old(self)@, name.deep_view(), p@),
            ),
            r is Err ==> values::agree(final(self)@, old(self)@),
    {
        reveal(crate::ast::document_model);
        proof {
            reveal(crate::xsd::state::parser_model);
        }
        let n = match name {
            Some(n) => n,
            None => {
                return Err(
                    invalid_property(
                        owned(
                            "Schema Definition Error: Attribute 'name' must appear on element 'dfdl:defineFormat'.",
                        ),
                    ),
                );
            },
        };
        let key = format_storage_key(n.as_str(), opt_str(&self.doc.target_namespace));
        if self.doc.named_formats.contains_key(key.as_str()) {
            return Err(
                invalid_xml(cat2("More than one definition for name: ", n.as_str())),
            );
        }
        let stored = open_zone(p.copy());
        self.insert_format(key, stored);
        Ok(p)
    }

    /// Takes a format definition in.
    pub(crate) fn parse_define_format(&mut self, e: &XmlElement) -> (r: Result<DfdlProps, Error>)
        ensures
            annotation::done(final(self)@, r, format_defined(old(self)@, e@)),
        decreases *e, 0int,
    {
        reveal(format_defined);
        reveal(format_parts);
        let said = complaints_of_definition(&e.attributes);
        self.complain(&said);
        if skip_blank(&e.children, 0) >= e.children.len() {
            return Ok(DfdlProps::default());
        }
        self.set_defining(true);
        let p = self.parse_format_parts(&e.children)?;
        self.set_defining(false);
        self.store_format(e.attributes.get("name"), p)
    }

    /// Takes the annotations in a format definition in.
    fn parse_format_parts(&mut self, list: &Vec<XmlNode>) -> (r: Result<DfdlProps, Error>)
        ensures
            annotation::done(
                final(self)@,
                r,
                format_parts(old(self)@, ast::no_props(), xml::node_models(*list), 0),
            ),
        decreases *list, 0int,
    {
        reveal(format_parts);
        let n: usize = list.len();
        let mut i: usize = 0;
        let mut p = DfdlProps::default();
        let ghost all = xml::node_models(*list);
        let ghost want = format_parts(self@, ast::no_props(), all, 0);
        while i < n
            invariant
                i <= n,
                n == list@.len(),
                all == xml::node_models(*list),
                want == format_parts(old(self)@, ast::no_props(), all, 0),
                values::agree(want, format_parts(self@, p@, all, i as nat)),
            decreases n - i,
        {
            reveal(format_parts);
            assert(all[i as int] == list@[i as int].model());
            match &list[i] {
                XmlNode::Element(child) => {
                    proof {
                        lemma_child(*list, i as int);
                    }
                    if is_dfdl_element(
                        opt_str(&child.prefix),
                        child.local.as_str(),
                        opt_str(&child.namespace),
                    ) {
                        reveal(annotated);
                        let q = self.parse_dfdl_element(child)?;
                        p = merge_dfdl_props(p, q);
                    } else {
                        skip_element(child)?;
                    }
                },
                other => {
                    if let Some(x) = fault_of(other, "expected defineFormat child, found ", "") {
                        return Err(x);
                    }
                },
            }
            i += 1;
        }
        Ok(p)
    }

    /// Takes an annotation in and gives the properties that it states.
    pub(crate) fn parse_dfdl_element(&mut self, e: &XmlElement) -> (r: Result<DfdlProps, Error>)
        ensures
            annotation::done(final(self)@, r, annotated(old(self)@, e@)),
            r is Err && (e@.local != "defineFormat"@ || dfdl_prefixed(e@.attributes) is Some)
                ==> values::agree(final(self)@, annotation_left(old(self)@, e@)),
            dfdl_prefixed(e@.attributes) is Some ==> r is Err && values::agree(
                final(self)@,
                noted(old(self)@, e@),
            ),
        decreases *e, 1int,
    {
        reveal(format_defined);
        reveal(annotated);
        self.note(e);
        if let Some(key) = find_dfdl_prefixed(&e.attributes) {
            let k = chars_of(key.as_str());
            return Err(
                invalid_property(
                    cat3(
                        "Schema Definition Error: dfdl:",
                        string_of(last_piece(k.as_slice(), ':')).as_str(),
                        " attribute must not use the dfdl: prefix on DFDL annotation elements",
                    ),
                ),
            );
        }
        let local = e.local.as_str();
        if eq(local, "defineFormat") {
            return self.parse_define_format(e);
        }
        if eq(local, "defineEscapeScheme") {
            self.parse_define_escape_scheme(e)?;
            return Ok(DfdlProps::default());
        }
        if eq(local, "defineVariable") {
            skip_element(e)?;
            self.define_variable(&e.attributes);
            return Ok(DfdlProps::default());
        }
        if eq(local, "setVariable") {
            skip_element(e)?;
            return Ok(assignment(&e.attributes));
        }
        self.parse_stated(e)
    }

    /// Reads the properties that the attributes of an annotation state.
    fn read_stated(&mut self, e: &XmlElement) -> (r: Result<DfdlProps, Error>)
        ensures
            outcome(r) == props::attrs_props(e@.attributes, Some(old(self)@.doc.variables)),
            values::agree(final(self)@, stating(old(self)@, e@)),
    {
        reveal(crate::ast::document_model);
        proof {
            reveal(crate::xsd::state::parser_model);
        }
        props_from_attrs_with_variables(
            &e.attributes,
            Some(&self.doc.variables),
            opt_str(&self.doc.schema_source_label),
            &mut self.doc.schema_diagnostics,
        )
    }

    /// Takes an annotation that states properties in.
    fn parse_stated(&mut self, e: &XmlElement) -> (r: Result<DfdlProps, Error>)
        ensures
            annotation::done(final(self)@, r, properties_stated(old(self)@, e@)),
            r is Err ==> values::agree(final(self)@, stating(old(self)@, e@)),
    {
        reveal(properties_stated);
        reveal(body_stated);
        let read = self.read_stated(e)?;
        let p = self.normalize_escape_scheme_ref(read);
        let local = e.local.as_str();
        if eq(local, "element") {
            return read_element_properties(p, e);
        }
        if eq(local, "assert") || eq(local, "discriminator") {
            return read_test_annotation(set_statement(p, &e.attributes), e);
        }
        if eq(local, "sequence") {
            return read_sequence_annotation(p, e);
        }
        skip_element(e)?;
        if eq(local, "format") {
            return Ok(self.apply_format(p, &e.attributes));
        }
        Ok(p)
    }
}

} // verus!
