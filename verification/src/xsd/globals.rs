//! Global elements and groups.

use vstd::prelude::*;
use crate::ast::{
    DfdlProps, DfdlPropsModel, GlobalElement, GlobalElementModel, GroupDecl, GroupDeclModel,
    SchemaDocumentModel, TypeName,
};
use crate::attrs;
use crate::attrs::{
    record_global_element_xsd_diagnostics, split_dfdl_attrs, take_daf_suppress_warnings, value_of,
};
use crate::error::{invalid_xml, missing_attribute, Error, ErrorModel};
use crate::strmap;
use crate::strmap::StrMap;
use crate::text::{chars_of, contains_char, eq};
use crate::values;
use crate::values::{owned, Duplicate};
use crate::xml;
use crate::xml::{XmlElement, XmlElementModel, XmlNode, XmlNodeModel};
use crate::xsd::annotation;
use crate::xsd::content;
use crate::xsd::markup;
use crate::xsd::markup::Content;
use crate::xsd::nodes;
use crate::xsd::nodes::{break_of, expect_end, skip_blank, skip_element};
use crate::xsd::particles;
use crate::xsd::state;
use crate::xsd::state::{XsdParser, XsdParserModel};

verus! {

// ----------------------------------------------------------------- global elements

/// The reader with the global element being read, to which warnings belong, and
/// the warnings that it wants left out.
pub open spec fn reading(
    st: XsdParserModel,
    suppress: Option<Seq<char>>,
    scope: Option<Seq<char>>,
) -> XsdParserModel {
    XsdParserModel { suppress, scope, ..st }
}

/// The reader with the attributes of a global element declaration looked at.
pub open spec fn global_checked(st: XsdParserModel, e: XmlElementModel, name: Seq<char>) -> XsdParserModel {
    state::complained(
        state::complained(
            state::complained(st, content::stated_by(st, e).1),
            attrs::declaration_complaints(content::plain_of(e)),
        ),
        attrs::name_complaints(Some(name)),
    )
}

/// A global element as it is stored.
pub open spec fn global_stored(
    st: XsdParserModel,
    name: Seq<char>,
    prefixed: bool,
    typed: Option<(Seq<char>, Seq<(Seq<char>, Seq<char>)>)>,
    type_ref: Seq<char>,
    p: DfdlPropsModel,
) -> XsdParserModel {
    state::with_global(
        st,
        GlobalElementModel {
            name,
            type_qname_prefixed: prefixed,
            type_xsd_qname: match typed {
                Some((t, _)) => Some(t),
                None => None,
            },
            type_qname_scope: match typed {
                Some((_, s)) => Some(s),
                None => None,
            },
            type_ref,
            props: state::finalized(st.doc, p),
            format_context: st.doc.format_defaults.props,
            source_label: st.doc.schema_source_label,
        },
    )
}

/// The reader after a global element declaration that names no type.
pub open spec fn global_untyped(
    st: XsdParserModel,
    e: XmlElementModel,
    name: Seq<char>,
    p: DfdlPropsModel,
) -> Result<XsdParserModel, ErrorModel> {
    if nodes::at_end(e.children, 0) {
        Ok(global_stored(st, name, false, None, "xs:string"@, p))
    } else {
        match markup::markup_from(st, p, e.children, 0, Content::Untyped) {
            Err(x) => Err(x),
            Ok((st2, (q, i))) => if i >= e.children.len() {
                Ok(global_stored(st2, name, true, None, "xs:string"@, q))
            } else {
                match particles::inline_read(st2, e.children, i) {
                    Err(x) => Err(x),
                    Ok((st3, (t, j))) => match nodes::end_fault(e.children, j, "element"@) {
                        Some(x) => Err(x),
                        None => Ok(global_stored(st3, name, true, None, t, q)),
                    },
                }
            },
        }
    }
}

/// The reader after a global element declaration with this name.
pub open spec fn global_named(
    st: XsdParserModel,
    e: XmlElementModel,
    name: Seq<char>,
) -> Result<XsdParserModel, ErrorModel> {
    let plain = content::plain_of(e);
    let scope = state::scope_of(st, e.namespaces);
    let st2 = global_checked(st, e, name);
    if name.contains(':') && nodes::at_end(e.children, 0) {
        Ok(st2)
    } else {
        let p = state::element_props(st2, content::stated_by(st, e).0, plain);
        match strmap::lookup(plain, "type"@) {
            Some(t) => match particles::type_overridden(
                st2,
                e,
                content::type_stated(st2, t, scope),
                p,
            ) {
                Err(x) => Err(x),
                Ok((st3, (type_ref, q))) => Ok(
                    global_stored(st3, name, t.contains(':'), Some((t, scope)), type_ref, q),
                ),
            },
            None => global_untyped(st2, e, name, p),
        }
    }
}

/// The reader after a global element declaration that leaves the right warnings
/// out.
pub open spec fn global_inner(st: XsdParserModel, e: XmlElementModel) -> Result<
    XsdParserModel,
    ErrorModel,
> {
    let plain = content::plain_of(e);
    if strmap::lookup(plain, "ref"@) is Some {
        match nodes::end_fault(e.children, 0, "element"@) {
            Some(x) => Err(x),
            None => Ok(state::complained(st, content::stated_by(st, e).1)),
        }
    } else {
        match strmap::lookup(plain, "name"@) {
            None => Err(ErrorModel::MissingAttribute("element"@, "name"@)),
            Some(name) => global_named(st, e, name),
        }
    }
}

/// The reader after a global element declaration.
#[verifier::opaque]
pub open spec fn global_read(st: XsdParserModel, e: XmlElementModel) -> Result<
    XsdParserModel,
    ErrorModel,
> {
    match global_inner(
        reading(st, attrs::suppressed(e.attributes), strmap::lookup(e.attributes, "name"@)),
        e,
    ) {
        Err(x) => Err(x),
        Ok(st2) => Ok(reading(st2, st.suppress, st.scope)),
    }
}

impl XsdParser {
    /// Sets the global element being read and the warnings that it wants left out.
    fn set_reading(&mut self, suppress: Option<String>, scope: Option<String>)
        ensures
            values::agree(
                final(self)@,
                reading(old(self)@, suppress.deep_view(), scope.deep_view()),
            ),
    {
        proof {
            reveal(crate::xsd::state::parser_model);
        }
        self.suppress_schema_definition_warnings = suppress;
        self.warning_scope = scope;
    }

    /// Complains of the attributes of a global element declaration.
    fn check_global(&mut self, name: &str, plain: &StrMap<String>)
        ensures
            values::agree(
                final(self)@,
                state::complained(
                    state::complained(old(self)@, attrs::declaration_complaints(plain@)),
                    attrs::name_complaints(Some(name@)),
                ),
            ),
    {
        reveal(crate::ast::document_model);
        proof {
            reveal(crate::xsd::state::parser_model);
        }
        record_global_element_xsd_diagnostics(name, plain, &mut self.doc.schema_diagnostics);
    }

    /// Stores a global element.
    fn store_global(
        &mut self,
        name: String,
        prefixed: bool,
        typed: Option<(String, StrMap<String>)>,
        type_ref: TypeName,
        p: DfdlProps,
    )
        ensures
            values::agree(
                final(self)@,
                global_stored(
                    old(self)@,
                    name@,
                    prefixed,
                    typed.deep_view(),
                    type_ref@,
                    p@,
                ),
            ),
    {
        reveal(crate::ast::document_model);
        proof {
            reveal(crate::xsd::state::parser_model);
        }
        let (type_xsd_qname, type_qname_scope) = match typed {
            Some((t, s)) => (Some(t), Some(s)),
            None => (None, None),
        };
        let props = self.finalize_props(p);
        let g = GlobalElement {
            name,
            type_qname_prefixed: prefixed,
            type_xsd_qname,
            type_qname_scope,
            type_ref,
            props,
            format_context: self.doc.format_defaults.props.copy(),
            source_label: self.doc.schema_source_label.copy(),
        };
        self.insert_global_element(g);
    }

    /// Takes a global element declaration in that names no type.
    #[verifier::spinoff_prover]
    fn parse_global_untyped(&mut self, e: &XmlElement, name: String, p: DfdlProps) -> (r: Result<
        (),
        Error,
    >)
        ensures
            annotation::finished(final(self)@, r, global_untyped(old(self)@, e@, name@, p@)),
    {
        if skip_blank(&e.children, 0) >= e.children.len() {
            self.store_global(name, false, None, TypeName::new("xs:string"), p);
            return Ok(());
        }
        let (q, i) = self.parse_inline_content(p, &e.children, 0, Content::Untyped)?;
        if i >= e.children.len() {
            self.store_global(name, true, None, TypeName::new("xs:string"), q);
            return Ok(());
        }
        let (t, j) = self.parse_inline_type(&e.children, i)?;
        expect_end(&e.children, j, "element")?;
        self.store_global(name, true, None, t, q);
        Ok(())
    }

    /// Takes a global element declaration in that leaves the right warnings out.
    #[verifier::spinoff_prover]
    fn parse_global_element_inner(&mut self, e: &XmlElement) -> (r: Result<(), Error>)
        ensures
            annotation::finished(final(self)@, r, global_inner(old(self)@, e@)),
    {
        let scope = self.element_type_prefix_map(&e.namespaces);
        let (plain, stated) = self.read_head(e);
        if plain.contains_key("ref") {
            expect_end(&e.children, 0, "element")?;
            return Ok(());
        }
        let name = match plain.get("name") {
            Some(name) => name.copy(),
            None => {
                return Err(missing_attribute("element", "name"));
            },
        };
        self.check_global(name.as_str(), &plain);
        let c = chars_of(name.as_str());
        if contains_char(c.as_slice(), ':') && skip_blank(&e.children, 0) >= e.children.len() {
            return Ok(());
        }
        let p = self.declared_props(stated, &plain);
        if let Some(t) = plain.get("type") {
            let named = self.named_type(t.as_str(), &scope);
            let (type_ref, q) = self.parse_override(e, named, p)?;
            let tc = chars_of(t.as_str());
            let prefixed: bool = contains_char(tc.as_slice(), ':');
            self.store_global(name, prefixed, Some((t.copy(), scope)), type_ref, q);
            return Ok(());
        }
        self.parse_global_untyped(e, name, p)
    }

    /// Takes a global element declaration in.
    #[verifier::spinoff_prover]
    pub(crate) fn parse_global_element(&mut self, e: &XmlElement) -> (r: Result<(), Error>)
        ensures
            annotation::finished(final(self)@, r, global_read(old(self)@, e@)),
    {
        proof {
            reveal(crate::xsd::state::parser_model);
        }
        reveal(global_read);
        let suppress_before = self.suppress_schema_definition_warnings.copy();
        let scope_before = self.warning_scope.copy();
        let suppress = take_daf_suppress_warnings(&e.attributes);
        self.set_reading(suppress, value_of(&e.attributes, "name"));
        self.parse_global_element_inner(e)?;
        self.set_reading(suppress_before, scope_before);
        Ok(())
    }
}

// ------------------------------------------------------------------------ groups

/// Where the content of a global group stands: behind annotations.
pub open spec fn group_start(nodes: Seq<XmlNodeModel>, i: nat) -> Result<nat, ErrorModel>
    decreases nodes.len() - i,
{
    if i >= nodes.len() {
        Ok(i)
    } else {
        match nodes[i as int] {
            XmlNodeModel::Element(e) => if e.local == "annotation"@ {
                match nodes::flaw(e) {
                    Some(x) => Err(x),
                    None => group_start(nodes, i + 1),
                }
            } else {
                Ok(i)
            },
            n => if nodes::blank(n) {
                group_start(nodes, i + 1)
            } else {
                Ok(i)
            },
        }
    }
}

/// The reader with a group.
pub open spec fn with_group(st: XsdParserModel, name: Seq<char>, g: GroupDeclModel) -> XsdParserModel {
    XsdParserModel {
        doc: SchemaDocumentModel {
            groups: strmap::with_entry(st.doc.groups, name, g),
            ..st.doc
        },
        ..st
    }
}

/// The reader after the content of a global group.
pub open spec fn group_content(
    st: XsdParserModel,
    name: Seq<char>,
    nodes: Seq<XmlNodeModel>,
    i: nat,
) -> Result<XsdParserModel, ErrorModel> {
    if i >= nodes.len() {
        Err(ErrorModel::InvalidXml("group must contain a sequence"@))
    } else {
        match nodes[i as int] {
            XmlNodeModel::Element(e) => if e.local == "sequence"@ {
                match particles::sequence_read(st, e) {
                    Err(x) => Err(x),
                    Ok((st2, s)) => match nodes::end_fault(nodes, i + 1, "group"@) {
                        Some(x) => Err(x),
                        None => Ok(with_group(st2, name, GroupDeclModel::Sequence(s))),
                    },
                }
            } else if e.local == "choice"@ {
                match particles::choice_read(st, e) {
                    Err(x) => Err(x),
                    Ok((st2, c)) => match nodes::end_fault(nodes, i + 1, "group"@) {
                        Some(x) => Err(x),
                        None => Ok(with_group(st2, name, GroupDeclModel::Choice(c))),
                    },
                }
            } else {
                Err(ErrorModel::InvalidXml("group must contain xs:sequence"@))
            },
            n => match nodes::broken_at(n) {
                Some(x) => Err(x),
                None => Err(ErrorModel::InvalidXml("group must contain xs:sequence"@)),
            },
        }
    }
}

/// The reader after a global group.
#[verifier::opaque]
pub open spec fn group_read(st: XsdParserModel, e: XmlElementModel) -> Result<
    XsdParserModel,
    ErrorModel,
> {
    match attrs::strict_props("group"@, e.attributes) {
        Err(x) => Err(x),
        Ok(_) => match strmap::lookup(attrs::plain_part("group"@, e.attributes), "name"@) {
            None => Err(ErrorModel::MissingAttribute("group"@, "name"@)),
            Some(name) => match group_start(e.children, 0) {
                Err(x) => Err(x),
                Ok(i) => group_content(st, name, e.children, i),
            },
        },
    }
}

/// Where the content of a global group stands.
fn find_group(list: &Vec<XmlNode>) -> (r: Result<usize, Error>)
    ensures
        match group_start(xml::node_models(*list), 0) {
            Ok(i) => r matches Ok(k) && k == i && k <= list@.len(),
            Err(e) => r matches Err(x) && x@ == e,
        },
{
    let n: usize = list.len();
    let mut i: usize = 0;
    let ghost all = xml::node_models(*list);
    while i < n
        invariant
            i <= n,
            n == list@.len(),
            all == xml::node_models(*list),
            group_start(all, 0) == group_start(all, i as nat),
        decreases n - i,
    {
        assert(all[i as int] == list@[i as int].model());
        match &list[i] {
            XmlNode::Element(child) => {
                let markup: bool = eq(child.local.as_str(), "annotation");
                if !markup {
                    return Ok(i);
                }
                skip_element(child)?;
            },
            XmlNode::Blank(_) => {},
            XmlNode::Remark(_) => {},
            _ => {
                return Ok(i);
            },
        }
        i += 1;
    }
    Ok(i)
}

impl XsdParser {
    /// Stores a group.
    fn insert_group(&mut self, name: String, g: GroupDecl)
        ensures
            values::agree(final(self)@, with_group(old(self)@, name@, g.deep_view())),
    {
        reveal(crate::ast::document_model);
        proof {
            reveal(crate::xsd::state::parser_model);
        }
        self.doc.groups.insert(name, g);
    }

    /// Takes the content of a global group in.
    #[verifier::spinoff_prover]
    fn parse_group_content(&mut self, name: String, list: &Vec<XmlNode>, i: usize) -> (r: Result<
        (),
        Error,
    >)
        requires
            i <= list@.len(),
        ensures
            annotation::finished(
                final(self)@,
                r,
                group_content(old(self)@, name@, xml::node_models(*list), i as nat),
            ),
    {
        if i >= list.len() {
            return Err(invalid_xml(owned("group must contain a sequence")));
        }
        assert(xml::node_models(*list)[i as int] == list@[i as int].model());
        match &list[i] {
            XmlNode::Element(child) => {
                if eq(child.local.as_str(), "sequence") {
                    let s = self.parse_sequence(child)?;
                    expect_end(list, i + 1, "group")?;
                    self.insert_group(name, GroupDecl::Sequence(s));
                    return Ok(());
                }
                if eq(child.local.as_str(), "choice") {
                    let c = self.parse_choice(child)?;
                    expect_end(list, i + 1, "group")?;
                    self.insert_group(name, GroupDecl::Choice(c));
                    return Ok(());
                }
                Err(invalid_xml(owned("group must contain xs:sequence")))
            },
            other => match break_of(other) {
                Some(x) => Err(x),
                None => Err(invalid_xml(owned("group must contain xs:sequence"))),
            },
        }
    }

    /// Takes a global group in.
    #[verifier::spinoff_prover]
    pub(crate) fn parse_global_group(&mut self, e: &XmlElement) -> (r: Result<(), Error>)
        ensures
            annotation::finished(final(self)@, r, group_read(old(self)@, e@)),
    {
        reveal(group_read);
        let (plain, _) = split_dfdl_attrs("group", &e.attributes)?;
        let name = match plain.get("name") {
            Some(name) => name.copy(),
            None => {
                return Err(missing_attribute("group", "name"));
            },
        };
        let i: usize = find_group(&e.children)?;
        self.parse_group_content(name, &e.children, i)
    }
}

} // verus!
