//! Annotations of declarations and types, and the markup before their content.

use vstd::prelude::*;
use crate::ast;
use crate::ast::{DfdlProps, DfdlPropsModel};
use crate::attrs;
use crate::attrs::{
    collect_namespace_prefixes, is_dfdl_element, overlay, DFDL_LEGACY_NS, DFDL_NS,
};
use crate::error::{cat2, cat3, cat5, invalid_property, Error, ErrorModel};
use crate::merge;
use crate::merge::merge_dfdl_props;
use crate::qname::opt_str;
use crate::strmap;
use crate::strmap::StrMap;
use crate::text::eq;
use crate::values;
use crate::values::{owned, Duplicate};
use crate::xml;
use crate::xml::{XmlElement, XmlElementModel, XmlNode, XmlNodeModel};
use crate::xsd::annotation;
use crate::xsd::appinfo;
use crate::xsd::nodes;
use crate::xsd::nodes::{fault_of, find_flaw, skip_element};
use crate::xsd::state;
use crate::xsd::state::{XsdParser, XsdParserModel};

verus! {

/// The name of the warning for annotations with the former namespace.
pub const WRONG_SOURCE: &'static str = "appinfoDFDLSourceWrong";

/// The name of the warning for annotations without a namespace.
pub const NO_SOURCE: &'static str = "appinfoNoSource";

/// The lines of the warning for annotations with the former namespace.
pub open spec fn wrong_source_lines() -> Seq<Seq<char>> {
    seq![
        "Schema Definition Warning"@,
        "The xs:appinfo source attribute value '"@ + DFDL_LEGACY_NS@ + "' should be '"@ + DFDL_NS@
            + "'."@,
        WRONG_SOURCE@,
    ]
}

/// The lines of the warning for annotations without a namespace.
pub open spec fn no_source_lines() -> Seq<Seq<char>> {
    seq!["Schema Definition Warning"@, "xs:appinfo without source attribute"@]
}

/// The reader warned of the former namespace, where that is the source.
pub open spec fn source_checked(st: XsdParserModel, source: Option<Seq<char>>) -> XsdParserModel {
    if source == Some(DFDL_LEGACY_NS@) {
        state::warned(st, WRONG_SOURCE@, wrong_source_lines())
    } else {
        st
    }
}

/// The reader warned of a missing namespace, where there is no source.
pub open spec fn source_missed(st: XsdParserModel, source: Option<Seq<char>>) -> XsdParserModel {
    if source is None {
        state::warned(st, NO_SOURCE@, no_source_lines())
    } else {
        st
    }
}

/// A source whose annotations are read.
pub open spec fn own_source(source: Option<Seq<char>>) -> bool {
    match source {
        Some(s) => s == DFDL_NS@ || s == DFDL_LEGACY_NS@,
        None => true,
    }
}

/// The error for an element that is no annotation where only annotations may
/// stand.
pub open spec fn no_annotation(st: XsdParserModel, e: XmlElementModel) -> ErrorModel {
    let qname = xml::attribute_name(e.prefix, e.local);
    let said = "Schema Definition Error: Invalid dfdl annotation found: "@ + qname;
    ErrorModel::InvalidProperty(
        match st.doc.schema_source_label {
            Some(label) => said + "\n"@ + label,
            None => said,
        },
    )
}

/// An annotation that defines something and states nothing of where it stands.
pub open spec fn only_defines(local: Seq<char>) -> bool {
    ||| local == "defineFormat"@
    ||| local == "defineEscapeScheme"@
    ||| local == "defineVariable"@
}

/// The properties with those that an annotation states, unless it only defines.
pub open spec fn with_stated(p: DfdlPropsModel, local: Seq<char>, q: DfdlPropsModel) -> DfdlPropsModel {
    if only_defines(local) {
        p
    } else {
        merge::merge_spec(p, q)
    }
}

/// The reader after the annotations from `i` on, and their properties over
/// these.
pub open spec fn annotations_from(
    st: XsdParserModel,
    p: DfdlPropsModel,
    source: Option<Seq<char>>,
    nodes: Seq<XmlNodeModel>,
    i: nat,
) -> Result<(XsdParserModel, DfdlPropsModel), ErrorModel>
    decreases nodes.len() - i,
{
    if i >= nodes.len() {
        Ok((st, p))
    } else {
        match nodes[i as int] {
            XmlNodeModel::Element(e) => if attrs::dfdl_element(e.prefix, e.local, e.namespace) {
                match appinfo::annotated(source_missed(st, source), e) {
                    Err(x) => Err(x),
                    Ok((st2, q)) => annotations_from(
                        st2,
                        with_stated(p, e.local, q),
                        source,
                        nodes,
                        i + 1,
                    ),
                }
            } else if source is Some {
                Err(no_annotation(st, e))
            } else {
                match nodes::flaw(e) {
                    Some(x) => Err(x),
                    None => annotations_from(st, p, source, nodes, i + 1),
                }
            },
            n => match nodes::fault(n, "expected appinfo child, found "@, ""@) {
                Some(x) => Err(x),
                None => annotations_from(st, p, source, nodes, i + 1),
            },
        }
    }
}

/// The reader after a piece of application information, and the properties that
/// it states.
#[verifier::opaque]
pub open spec fn appinfo_read(st: XsdParserModel, e: XmlElementModel) -> Result<
    (XsdParserModel, DfdlPropsModel),
    ErrorModel,
> {
    let source = strmap::lookup(e.attributes, "source"@);
    let st1 = source_checked(st, source);
    if own_source(source) {
        annotations_from(st1, ast::no_props(), source, e.children, 0)
    } else {
        match nodes::flaw(e) {
            Some(x) => Err(x),
            None => Ok((st1, ast::no_props())),
        }
    }
}

/// The reader after the pieces of application information from `i` on, and their
/// properties over these.
pub open spec fn appinfos_from(
    st: XsdParserModel,
    p: DfdlPropsModel,
    nodes: Seq<XmlNodeModel>,
    i: nat,
) -> Result<(XsdParserModel, DfdlPropsModel), ErrorModel>
    decreases nodes.len() - i,
{
    if i >= nodes.len() {
        Ok((st, p))
    } else {
        match nodes[i as int] {
            XmlNodeModel::Element(e) => if e.local == "appinfo"@ {
                match appinfo_read(st, e) {
                    Err(x) => Err(x),
                    Ok((st2, q)) => appinfos_from(st2, merge::merge_spec(p, q), nodes, i + 1),
                }
            } else {
                match nodes::flaw(e) {
                    Some(x) => Err(x),
                    None => appinfos_from(st, p, nodes, i + 1),
                }
            },
            n => match nodes::fault(n, "expected annotation child, found "@, ""@) {
                Some(x) => Err(x),
                None => appinfos_from(st, p, nodes, i + 1),
            },
        }
    }
}

/// The prefixes in force in an annotation.
pub open spec fn annotation_scope(st: XsdParserModel, e: XmlElementModel) -> Seq<
    (Seq<char>, Seq<char>),
> {
    attrs::with_bindings(e.attributes, state::scope_of(st, e.namespaces))
}

/// The reader with prefixes in force.
pub open spec fn scope_entered(
    st: XsdParserModel,
    scope: Seq<(Seq<char>, Seq<char>)>,
) -> XsdParserModel {
    XsdParserModel { overrides: st.overrides.push(scope), ..st }
}

/// The reader without the prefixes that came into force last.
pub open spec fn scope_left(st: XsdParserModel) -> XsdParserModel {
    XsdParserModel {
        overrides: if st.overrides.len() > 0 {
            st.overrides.drop_last()
        } else {
            st.overrides
        },
        ..st
    }
}

/// The reader after an annotation element, and the properties that stand in it.
#[verifier::opaque]
pub open spec fn annotation_read(st: XsdParserModel, e: XmlElementModel) -> Result<
    (XsdParserModel, DfdlPropsModel),
    ErrorModel,
> {
    match appinfos_from(
        scope_entered(st, annotation_scope(st, e)),
        ast::no_props(),
        e.children,
        0,
    ) {
        Err(x) => Err(x),
        Ok((st2, p)) => Ok((scope_left(st2), p)),
    }
}

/// Where the markup before the content of an element ends: at an element that is
/// part of the content.
#[derive(Debug, Clone, Copy, PartialEq, Eq, Structural)]
pub enum Content {
    /// Of an element without a named type.
    Untyped,
    /// Of an element with a named type.
    Typed,
    /// Of a complex type.
    Complex,
    /// Of a simple type.
    Simple,
    /// Of a sequence or a choice.
    Particles,
    /// Of a reference to a group, which has none.
    Nothing,
}

/// An element of this name is part of the content.
pub open spec fn part_of(content: Content, local: Seq<char>) -> bool {
    match content {
        Content::Untyped => local == "complexType"@ || local == "simpleType"@,
        Content::Typed => local == "simpleType"@,
        Content::Complex => local == "sequence"@ || local == "choice"@ || local == "group"@,
        Content::Simple => local == "restriction"@ || local == "union"@,
        Content::Particles => local == "element"@ || local == "sequence"@ || local == "choice"@
            || local == "group"@,
        Content::Nothing => false,
    }
}

/// Whether an element of this name is part of the content.
fn is_part_of(content: Content, local: &str) -> (r: bool)
    ensures
        r == part_of(content, local@),
{
    match content {
        Content::Untyped => eq(local, "complexType") || eq(local, "simpleType"),
        Content::Typed => eq(local, "simpleType"),
        Content::Complex => eq(local, "sequence") || eq(local, "choice") || eq(local, "group"),
        Content::Simple => eq(local, "restriction") || eq(local, "union"),
        Content::Particles => eq(local, "element") || eq(local, "sequence") || eq(local, "choice")
            || eq(local, "group"),
        Content::Nothing => false,
    }
}

/// The reader after the markup from `i` on, the properties that it states over
/// these, and where the content begins.
pub open spec fn markup_from(
    st: XsdParserModel,
    p: DfdlPropsModel,
    nodes: Seq<XmlNodeModel>,
    i: nat,
    content: Content,
) -> Result<(XsdParserModel, (DfdlPropsModel, nat)), ErrorModel>
    decreases nodes.len() - i,
{
    if i >= nodes.len() {
        Ok((st, (p, i)))
    } else {
        match nodes[i as int] {
            XmlNodeModel::Element(e) => if e.local == "annotation"@ {
                match annotation_read(st, e) {
                    Err(x) => Err(x),
                    Ok((st2, q)) => markup_from(
                        st2,
                        merge::merge_spec(p, q),
                        nodes,
                        i + 1,
                        content,
                    ),
                }
            } else if part_of(content, e.local) {
                Ok((st, (p, i)))
            } else {
                match nodes::flaw(e) {
                    Some(x) => Err(x),
                    None => markup_from(
                        state::complained(st, state::unrecognized(e.local)),
                        p,
                        nodes,
                        i + 1,
                        content,
                    ),
                }
            },
            n => match nodes::fault(n, "unexpected "@, " in inline content"@) {
                Some(x) => Err(x),
                None => markup_from(st, p, nodes, i + 1, content),
            },
        }
    }
}

/// The lines of a warning.
fn two_lines(a: &str, b: String) -> (r: Vec<String>)
    ensures
        r.deep_view() == seq![a@, b@],
{
    let mut out: Vec<String> = Vec::new();
    out.push(owned(a));
    out.push(b);
    assert(out.deep_view() =~= seq![a@, b@]);
    out
}

/// The lines of the warning for annotations with the former namespace.
fn lines_of_wrong_source() -> (r: Vec<String>)
    ensures
        r.deep_view() == wrong_source_lines(),
{
    let mut lines = two_lines(
        "Schema Definition Warning",
        cat5(
            "The xs:appinfo source attribute value '",
            DFDL_LEGACY_NS,
            "' should be '",
            DFDL_NS,
            "'.",
        ),
    );
    let ghost before = lines.deep_view();
    let last = owned(WRONG_SOURCE);
    lines.push(last);
    assert(lines.deep_view() =~= before.push(last@));
    assert(before.push(last@) =~= wrong_source_lines());
    lines
}

impl XsdParser {
    /// Warns of the source of a piece of application information.
    fn check_source(&mut self, source: Option<&String>)
        ensures
            values::agree(final(self)@, source_checked(old(self)@, source.deep_view())),
    {
        if let Some(s) = source {
            if eq(s.as_str(), DFDL_LEGACY_NS) {
                let lines = lines_of_wrong_source();
                self.push_schema_warning(WRONG_SOURCE, &lines);
            }
        }
    }

    /// Warns of a missing source.
    fn miss_source(&mut self, missing: bool, Ghost(source): Ghost<Option<Seq<char>>>)
        requires
            missing == (source is None),
        ensures
            values::agree(final(self)@, source_missed(old(self)@, source)),
    {
        if missing {
            let lines = two_lines(
                "Schema Definition Warning",
                owned("xs:appinfo without source attribute"),
            );
            self.push_schema_warning(NO_SOURCE, &lines);
        }
    }

    /// The error for an element that is no annotation.
    fn refuse_annotation(&self, e: &XmlElement) -> (r: Error)
        ensures
            r@ == no_annotation(self@, e@),
    {
        reveal(crate::ast::document_model);
        proof {
            reveal(crate::xsd::state::parser_model);
        }
        let qname = match &e.prefix {
            Some(p) => cat3(p.as_str(), ":", e.local.as_str()),
            None => e.local.copy(),
        };
        let said = cat2(
            "Schema Definition Error: Invalid dfdl annotation found: ",
            qname.as_str(),
        );
        match &self.doc.schema_source_label {
            Some(label) => invalid_property(cat3(said.as_str(), "\n", label.as_str())),
            None => invalid_property(said),
        }
    }

    /// Takes the annotations of a piece of application information in.
    fn parse_annotations(&mut self, e: &XmlElement) -> (r: Result<DfdlProps, Error>)
        ensures
            annotation::done(
                final(self)@,
                r,
                annotations_from(
                    old(self)@,
                    ast::no_props(),
                    strmap::lookup(e@.attributes, "source"@),
                    e@.children,
                    0,
                ),
            ),
    {
        let missing: bool = e.attributes.get("source").is_none();
        let ghost source = strmap::lookup(e@.attributes, "source"@);
        let list = &e.children;
        let n: usize = list.len();
        let mut i: usize = 0;
        let mut p = DfdlProps::default();
        let ghost all = e@.children;
        let ghost want = annotations_from(self@, ast::no_props(), source, all, 0);
        while i < n
            invariant
                i <= n,
                n == list@.len(),
                all == xml::node_models(*list),
                all == e@.children,
                source == strmap::lookup(e@.attributes, "source"@),
                missing == (source is None),
                want == annotations_from(old(self)@, ast::no_props(), source, all, 0),
                values::agree(want, annotations_from(self@, p@, source, all, i as nat)),
            decreases n - i,
        {
            assert(all[i as int] == list@[i as int].model());
            match &list[i] {
                XmlNode::Element(child) => {
                    let local = child.local.as_str();
                    if is_dfdl_element(opt_str(&child.prefix), local, opt_str(&child.namespace)) {
                        self.miss_source(missing, Ghost(source));
                        let q = self.parse_dfdl_element(child)?;
                        if !(eq(local, "defineFormat") || eq(local, "defineEscapeScheme") || eq(
                            local,
                            "defineVariable",
                        )) {
                            p = merge_dfdl_props(p, q);
                        }
                    } else if !missing {
                        return Err(self.refuse_annotation(child));
                    } else {
                        skip_element(child)?;
                    }
                },
                other => {
                    if let Some(x) = fault_of(other, "expected appinfo child, found ", "") {
                        return Err(x);
                    }
                },
            }
            i += 1;
        }
        Ok(p)
    }

    /// Takes a piece of application information in.
    pub(crate) fn parse_appinfo(&mut self, e: &XmlElement) -> (r: Result<DfdlProps, Error>)
        ensures
            annotation::done(final(self)@, r, appinfo_read(old(self)@, e@)),
    {
        reveal(appinfo_read);
        let source = e.attributes.get("source");
        self.check_source(source);
        let own: bool = match source {
            Some(s) => eq(s.as_str(), DFDL_NS) || eq(s.as_str(), DFDL_LEGACY_NS),
            None => true,
        };
        if own {
            self.parse_annotations(e)
        } else {
            skip_element(e)?;
            Ok(DfdlProps::default())
        }
    }

    /// Takes what stands in an annotation element in.
    pub(crate) fn parse_annotation_body(&mut self, e: &XmlElement) -> (r: Result<DfdlProps, Error>)
        ensures
            annotation::done(
                final(self)@,
                r,
                appinfos_from(old(self)@, ast::no_props(), e@.children, 0),
            ),
    {
        let list = &e.children;
        let n: usize = list.len();
        let mut i: usize = 0;
        let mut p = DfdlProps::default();
        let ghost all = e@.children;
        let ghost want = appinfos_from(self@, ast::no_props(), all, 0);
        while i < n
            invariant
                i <= n,
                n == list@.len(),
                all == xml::node_models(*list),
                all == e@.children,
                want == appinfos_from(old(self)@, ast::no_props(), all, 0),
                values::agree(want, appinfos_from(self@, p@, all, i as nat)),
            decreases n - i,
        {
            assert(all[i as int] == list@[i as int].model());
            match &list[i] {
                XmlNode::Element(child) => {
                    if eq(child.local.as_str(), "appinfo") {
                        let q = self.parse_appinfo(child)?;
                        p = merge_dfdl_props(p, q);
                    } else {
                        skip_element(child)?;
                    }
                },
                other => {
                    if let Some(x) = fault_of(other, "expected annotation child, found ", "") {
                        return Err(x);
                    }
                },
            }
            i += 1;
        }
        Ok(p)
    }

    /// Brings prefixes into force.
    fn enter_scope(&mut self, scope: StrMap<String>)
        ensures
            values::agree(final(self)@, scope_entered(old(self)@, scope@)),
    {
        proof {
            reveal(crate::xsd::state::parser_model);
        }
        self.annotation_prefix_overrides.push(scope);
        assert(self@.overrides =~= old(self)@.overrides.push(scope@));
    }

    /// Puts prefixes out of force.
    fn leave_scope(&mut self)
        ensures
            values::agree(final(self)@, scope_left(old(self)@)),
    {
        proof {
            reveal(crate::xsd::state::parser_model);
        }
        let ghost before = self@.overrides;
        let _ = self.annotation_prefix_overrides.pop();
        assert(self@.overrides =~= scope_left(old(self)@).overrides);
    }

    /// The prefixes in force at an element.
    pub(crate) fn element_type_prefix_map(&self, namespaces: &StrMap<String>) -> (r: StrMap<String>)
        ensures
            r@ == state::scope_of(self@, namespaces@),
    {
        reveal(crate::ast::document_model);
        proof {
            reveal(crate::xsd::state::parser_model);
        }
        overlay(&self.doc.namespace_prefixes, namespaces)
    }

    /// Takes an annotation element in.
    pub(crate) fn parse_annotation(&mut self, e: &XmlElement) -> (r: Result<DfdlProps, Error>)
        ensures
            annotation::done(final(self)@, r, annotation_read(old(self)@, e@)),
    {
        reveal(annotation_read);
        let mut scope = self.element_type_prefix_map(&e.namespaces);
        collect_namespace_prefixes(&e.attributes, &mut scope);
        self.enter_scope(scope);
        let p = self.parse_annotation_body(e)?;
        self.leave_scope();
        Ok(p)
    }

    /// Takes the markup before the content of an element in, from `start` on.
    pub(crate) fn parse_inline_content(
        &mut self,
        p: DfdlProps,
        list: &Vec<XmlNode>,
        start: usize,
        content: Content,
    ) -> (r: Result<(DfdlProps, usize), Error>)
        requires
            start <= list@.len(),
        ensures
            match markup_from(old(self)@, p@, xml::node_models(*list), start as nat, content) {
                Ok((st, (q, j))) => values::agree(final(self)@, st) && (r matches Ok((x, k))
                    && values::agree(x@, q) && k == j && k <= list@.len()),
                Err(e) => r matches Err(x) && x@ == e,
            },
    {
        let n: usize = list.len();
        let mut i: usize = start;
        let mut q = p;
        let ghost all = xml::node_models(*list);
        let ghost want = markup_from(self@, p@, all, start as nat, content);
        while i < n
            invariant
                start <= i <= n,
                n == list@.len(),
                all == xml::node_models(*list),
                want == markup_from(old(self)@, p@, all, start as nat, content),
                values::agree(want, markup_from(self@, q@, all, i as nat, content)),
            decreases n - i,
        {
            assert(all[i as int] == list@[i as int].model());
            match &list[i] {
                XmlNode::Element(child) => {
                    if eq(child.local.as_str(), "annotation") {
                        let more = self.parse_annotation(child)?;
                        q = merge_dfdl_props(q, more);
                    } else if is_part_of(content, child.local.as_str()) {
                        return Ok((q, i));
                    } else {
                        skip_element(child)?;
                        self.complain_of_element(child.local.as_str());
                    }
                },
                other => {
                    if let Some(x) = fault_of(other, "unexpected ", " in inline content") {
                        return Err(x);
                    }
                },
            }
            i += 1;
        }
        Ok((q, i))
    }
}

} // verus!
