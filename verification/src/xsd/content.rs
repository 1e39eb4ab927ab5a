//! Complex types, groups and the elements in them.

use vstd::prelude::*;
use crate::ast;
use crate::ast::{
    ChoiceDecl, ChoiceDeclModel, ComplexContent, ComplexContentModel, DfdlProps, DfdlPropsModel,
    ElementDecl, ElementDeclModel, GlobalElement, GlobalElementModel, GroupRefDecl,
    GroupRefDeclModel, Particle, ParticleModel, SchemaDocumentModel, SequenceDecl,
    SequenceDeclModel, StatementPropsModel, TypeDef, TypeDefModel, TypeName,
};
use crate::attrs;
use crate::attrs::{
    attr_by_local, merge_occurs, record_local_element_xsd_diagnostics, split_dfdl_attrs,
    split_dfdl_attrs_with_variables, take_daf_suppress_warnings, value_of, xsd_attr,
};
use crate::error::{
    invalid_property, invalid_xml, missing_attribute, Error, ErrorModel,
};
use crate::merge;
use crate::merge::merge_dfdl_props;
use crate::qname;
use crate::qname::{
    get_global_element, normalize_qname, opt_str, resolve_global_element_storage_key,
    resolve_type_qname_in_schema, unique_global_element_by_local,
};
use crate::resolver;
use crate::strmap;
use crate::strmap::StrMap;
use crate::text::eq;
use crate::values;
use crate::values::{owned, Duplicate};
use crate::xml;
use crate::xml::{XmlElement, XmlElementModel, XmlNode, XmlNodeModel};
use crate::xsd::annotation;
use crate::xsd::markup;
use crate::xsd::markup::Content;
use crate::xsd::nodes;
use crate::xsd::nodes::{break_of, expect_end, fault_of, lemma_child, skip_blank, skip_element};
use crate::xsd::simple;
use crate::xsd::simple::name_of_type;
use crate::xsd::state;
use crate::xsd::state::{set_default, XsdParser, XsdParserModel};

verus! {

// ------------------------------------------------------------------ small pieces

/// The properties of a sequence, a choice or a reference to a group, by its
/// attributes.
#[verifier::opaque]
pub open spec fn own_props(doc: SchemaDocumentModel, stated: DfdlPropsModel) -> DfdlPropsModel {
    state::finalized(doc, merge::merge_spec(ast::no_props(), stated))
}

/// The properties with the occurrence limits that the attributes state.
#[verifier::opaque]
pub open spec fn counted(p: DfdlPropsModel, a: Seq<(Seq<char>, Seq<char>)>) -> DfdlPropsModel {
    DfdlPropsModel { occurs: attrs::with_occurs(p.occurs, a), ..p }
}

/// The properties with the hidden group that an attribute names.
#[verifier::opaque]
pub open spec fn with_hidden(p: DfdlPropsModel, a: Seq<(Seq<char>, Seq<char>)>) -> DfdlPropsModel {
    match attrs::by_local(a, "hiddenGroupRef"@) {
        Some(g) => DfdlPropsModel {
            statements: StatementPropsModel { hidden_group_ref: Some(g), ..p.statements },
            ..p
        },
        None => p,
    }
}

/// What is said of occurrence limits where none may stand.
pub open spec fn limit_complaints(
    a: Seq<(Seq<char>, Seq<char>)>,
    min: Seq<char>,
    max: Seq<char>,
) -> Seq<Seq<char>> {
    let first: Seq<Seq<char>> = if attrs::xsd_value(a, "minOccurs"@) is Some {
        seq![min]
    } else {
        Seq::empty()
    };
    if attrs::xsd_value(a, "maxOccurs"@) is Some {
        first.push(max)
    } else {
        first
    }
}

/// What is said of the occurrence limits of a sequence.
pub open spec fn sequence_complaints(a: Seq<(Seq<char>, Seq<char>)>) -> Seq<Seq<char>> {
    limit_complaints(
        a,
        "Schema Definition Error: minOccurs attribute cannot appear in element xs:sequence"@,
        "Schema Definition Error: maxOccurs attribute cannot appear in element xs:sequence"@,
    )
}

/// What is said of the occurrence limits of a choice.
pub open spec fn choice_complaints(a: Seq<(Seq<char>, Seq<char>)>) -> Seq<Seq<char>> {
    limit_complaints(
        a,
        "Attribute 'minOccurs' is not allowed to appear in element 'xs:choice'"@,
        "Attribute 'maxOccurs' is not allowed to appear in element 'xs:choice'"@,
    )
}

/// An annotation stands first.
pub open spec fn annotation_first(nodes: Seq<XmlNodeModel>) -> bool {
    let i = nodes::after_blank(nodes, 0);
    i < nodes.len() && (nodes[i as int] matches XmlNodeModel::Element(e) && e.local
        == "annotation"@)
}

/// The reader with the next type without a name named.
pub open spec fn named_inline(st: XsdParserModel) -> XsdParserModel {
    XsdParserModel {
        resolver: resolver::SchemaResolverModel {
            inline_types: resolver::next_number(st.resolver.inline_types),
            ..st.resolver
        },
        ..st
    }
}

/// Takes over the occurrence limits that the attributes state.
pub fn count(p: DfdlProps, a: &StrMap<String>) -> (r: DfdlProps)
    ensures
        values::agree(r@, counted(p@, a@)),
{
    reveal(counted);
    let mut r = p;
    merge_occurs(&mut r.occurs, a);
    r
}

/// Takes over the hidden group that an attribute names.
pub fn take_hidden(p: DfdlProps, a: &StrMap<String>) -> (r: DfdlProps)
    ensures
        values::agree(r@, with_hidden(p@, a@)),
{
    reveal(with_hidden);
    reveal(ast::statement_props_model);
    let mut r = p;
    if let Some(g) = attr_by_local(a, "hiddenGroupRef") {
        r.statements.hidden_group_ref = Some(g.copy());
    }
    r
}

/// What is said of occurrence limits where none may stand.
pub fn complaints_of_limits(a: &StrMap<String>, min: &str, max: &str) -> (r: Vec<String>)
    ensures
        r.deep_view() == limit_complaints(a@, min@, max@),
{
    let mut out: Vec<String> = Vec::new();
    assert(out.deep_view() =~= Seq::<Seq<char>>::empty());
    if xsd_attr(a, "minOccurs").is_some() {
        let said = owned(min);
        out.push(said);
        assert(out.deep_view() =~= seq![min@]);
    }
    if xsd_attr(a, "maxOccurs").is_some() {
        let ghost before = out.deep_view();
        let said = owned(max);
        out.push(said);
        assert(out.deep_view() =~= before.push(max@));
    }
    out
}

/// Whether an annotation stands first.
pub fn begins_with_annotation(list: &Vec<XmlNode>) -> (r: bool)
    ensures
        r == annotation_first(xml::node_models(*list)),
{
    let i: usize = skip_blank(list, 0);
    if i < list.len() {
        assert(xml::node_models(*list)[i as int] == list@[i as int].model());
        match &list[i] {
            XmlNode::Element(e) => eq(e.local.as_str(), "annotation"),
            _ => false,
        }
    } else {
        false
    }
}

impl XsdParser {
    /// Names the next type without a name.
    pub(crate) fn name_inline(&mut self, kind: &str) -> (r: String)
        ensures
            r@ == resolver::inline_name(kind@, old(self)@.resolver.inline_types),
            values::agree(final(self)@, named_inline(old(self)@)),
    {
        proof {
            reveal(crate::xsd::state::parser_model);
        }
        self.resolver.next_inline_type_name(kind)
    }

    /// The properties of a sequence, a choice or a reference to a group.
    pub(crate) fn props_of(&self, stated: DfdlProps) -> (r: DfdlProps)
        ensures
            values::agree(r@, own_props(self@.doc, stated@)),
    {
        reveal(own_props);
        self.finalize_props(merge_dfdl_props(DfdlProps::default(), stated))
    }
}

// -------------------------------------------------------------- references to groups

/// The reader after a reference to a group, and the reference.
#[verifier::opaque]
pub open spec fn group_ref_read(st: XsdParserModel, e: XmlElementModel) -> Result<
    (XsdParserModel, GroupRefDeclModel),
    ErrorModel,
> {
    match attrs::strict_props("group"@, e.attributes) {
        Err(x) => Err(x),
        Ok(stated) => match strmap::lookup(attrs::plain_part("group"@, e.attributes), "ref"@) {
            None => Err(ErrorModel::MissingAttribute("group"@, "ref"@)),
            Some(name) => match markup::markup_from(
                st,
                own_props(st.doc, stated),
                e.children,
                0,
                Content::Nothing,
            ) {
                Err(x) => Err(x),
                Ok((st2, (p, i))) => match nodes::end_fault(e.children, i, "group"@) {
                    Some(x) => Err(x),
                    None => Ok(
                        (st2, GroupRefDeclModel { name: qname::local_spec(name), props: p }),
                    ),
                },
            },
        },
    }
}

impl XsdParser {
    /// Takes a reference to a group in.
    pub(crate) fn parse_group_ref_particle(&mut self, e: &XmlElement) -> (r: Result<GroupRefDecl, Error>)
        ensures
            annotation::done(final(self)@, r, group_ref_read(old(self)@, e@)),
    {
        reveal(group_ref_read);
        let (plain, stated) = split_dfdl_attrs("group", &e.attributes)?;
        let name = match plain.get("ref") {
            Some(name) => normalize_qname(name.as_str()),
            None => {
                return Err(missing_attribute("group", "ref"));
            },
        };
        let own = self.props_of(stated);
        let (props, i) = self.parse_inline_content(own, &e.children, 0, Content::Nothing)?;
        expect_end(&e.children, i, "group")?;
        Ok(GroupRefDecl { name, props })
    }
}

// ------------------------------------------------------------ the heads of elements

/// The attributes of XML Schema of an element declaration.
pub open spec fn plain_of(e: XmlElementModel) -> Seq<(Seq<char>, Seq<char>)> {
    attrs::plain_part("element"@, e.attributes)
}

/// The properties that the attributes of an element declaration state, with what
/// is said of them.
pub open spec fn stated_by(st: XsdParserModel, e: XmlElementModel) -> (DfdlPropsModel, Seq<Seq<char>>) {
    attrs::stated_props(
        "element"@,
        e.attributes,
        Some(st.doc.variables),
        st.doc.schema_source_label,
    )
}

/// The type that an element declaration names.
pub open spec fn type_stated(
    st: XsdParserModel,
    name: Seq<char>,
    scope: Seq<(Seq<char>, Seq<char>)>,
) -> Seq<char> {
    match qname::type_of_qname(st.doc, name, Some(scope)) {
        Ok(t) => t,
        Err(_) => qname::local_spec(name),
    }
}

/// The name of an element declaration that is not global.
pub open spec fn element_name(plain: Seq<(Seq<char>, Seq<char>)>) -> Option<Seq<char>> {
    match strmap::lookup(plain, "name"@) {
        Some(n) => Some(n),
        None => match strmap::lookup(plain, "ref"@) {
            Some(r) => Some(qname::local_spec(r)),
            None => None,
        },
    }
}

/// A global element that stands for one that is not known.
pub open spec fn stand_in(name: Seq<char>) -> GlobalElementModel {
    GlobalElementModel {
        name,
        type_qname_prefixed: false,
        type_xsd_qname: None,
        type_qname_scope: None,
        type_ref: "xs:string"@,
        props: ast::no_props(),
        format_context: ast::no_props(),
        source_label: None,
    }
}

/// The global element that is known by a reference.
pub open spec fn known_global(st: XsdParserModel, reference: Seq<char>, name: Seq<char>) -> Option<
    GlobalElementModel,
> {
    match qname::global_element(st.doc, reference) {
        Some(g) => Some(g),
        None => qname::only(qname::with_local(st.doc.global_elements, name)),
    }
}

/// The reader after a reference to a global element: one that is not known gets a
/// stand-in.
pub open spec fn reference_taken(
    st: XsdParserModel,
    reference: Seq<char>,
    name: Seq<char>,
) -> XsdParserModel {
    if known_global(st, reference, name) is Some {
        st
    } else {
        XsdParserModel {
            doc: SchemaDocumentModel {
                global_elements: strmap::with_entry(
                    st.doc.global_elements,
                    qname::element_key(st.doc, reference),
                    stand_in(name),
                ),
                ..st.doc
            },
            ..st
        }
    }
}

/// The global element that a reference names.
pub open spec fn referred(st: XsdParserModel, reference: Seq<char>, name: Seq<char>) -> GlobalElementModel {
    match known_global(st, reference, name) {
        Some(g) => g,
        None => stand_in(name),
    }
}

/// What is said of an element declaration without a name.
pub const NAMELESS: &'static str = "Schema Definition Error: Local element declaration must have a 'name' attribute on the element";

impl XsdParser {
    /// Reads the attributes of an element declaration, with complaints.
    pub(crate) fn read_head(&mut self, e: &XmlElement) -> (r: (StrMap<String>, DfdlProps))
        ensures
            r.0@ == plain_of(e@),
            values::agree(r.1@, stated_by(old(self)@, e@).0),
            values::agree(
                final(self)@,
                state::complained(old(self)@, stated_by(old(self)@, e@).1),
            ),
    {
        reveal(crate::ast::document_model);
        proof {
            reveal(crate::xsd::state::parser_model);
        }
        split_dfdl_attrs_with_variables(
            "element",
            &e.attributes,
            &mut self.doc.schema_diagnostics,
            Some(&self.doc.variables),
            opt_str(&self.doc.schema_source_label),
        )
    }

    /// Complains of the attributes of an element declaration.
    pub(crate) fn check_head(&mut self, plain: &StrMap<String>)
        ensures
            values::agree(
                final(self)@,
                state::complained(old(self)@, attrs::declaration_complaints(plain@)),
            ),
    {
        reveal(crate::ast::document_model);
        proof {
            reveal(crate::xsd::state::parser_model);
        }
        record_local_element_xsd_diagnostics(plain, &mut self.doc.schema_diagnostics);
    }

    /// The type that an element declaration names.
    pub(crate) fn named_type(&self, name: &str, scope: &StrMap<String>) -> (r: TypeName)
        ensures
            r@ == type_stated(self@, name@, scope@),
    {
        proof {
            reveal(crate::xsd::state::parser_model);
        }
        match resolve_type_qname_in_schema(&self.doc, name, Some(scope)) {
            Ok(t) => t,
            Err(_) => TypeName(normalize_qname(name)),
        }
    }

    /// Stores a stand-in.
    fn insert_stand_in(&mut self, reference: &str, g: GlobalElement)
        ensures
            values::agree(
                final(self)@,
                (XsdParserModel {
                    doc: SchemaDocumentModel {
                        global_elements: strmap::with_entry(
                            old(self)@.doc.global_elements,
                            qname::element_key(old(self)@.doc, reference@),
                            g@,
                        ),
                        ..old(self)@.doc
                    },
                    ..old(self)@
                }),
            ),
    {
        reveal(crate::ast::document_model);
        proof {
            reveal(crate::xsd::state::parser_model);
        }
        let key = resolve_global_element_storage_key(&self.doc, reference);
        self.doc.global_elements.insert(key, g);
    }

    /// The global element that is known by a reference.
    fn find_global(&self, reference: &str, name: &str) -> (r: Option<GlobalElement>)
        ensures
            values::agree(r.deep_view(), known_global(self@, reference@, name@)),
    {
        proof {
            reveal(crate::xsd::state::parser_model);
        }
        if let Some(g) = get_global_element(&self.doc, reference) {
            return Some(g.copy());
        }
        match unique_global_element_by_local(&self.doc, name) {
            Some(g) => Some(g.copy()),
            None => None,
        }
    }

    /// The global element that a reference names.
    pub(crate) fn refer(&mut self, reference: &str, name: &str) -> (r: GlobalElement)
        ensures
            values::agree(r@, referred(old(self)@, reference@, name@)),
            values::agree(final(self)@, reference_taken(old(self)@, reference@, name@)),
    {
        if let Some(g) = self.find_global(reference, name) {
            return g;
        }
        let stub = GlobalElement {
            name: owned(name),
            type_qname_prefixed: false,
            type_xsd_qname: None,
            type_qname_scope: None,
            type_ref: TypeName::new("xs:string"),
            props: DfdlProps::default(),
            format_context: DfdlProps::default(),
            source_label: None,
        };
        let copy = stub.copy();
        self.insert_stand_in(reference, copy);
        stub
    }
}

} // verus!
