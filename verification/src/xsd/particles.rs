//! Elements, sequences, choices and complex types, which contain each other.

use vstd::prelude::*;
use crate::ast;
use crate::ast::{
    ChoiceDecl, ChoiceDeclModel, ComplexContent, ComplexContentModel, DfdlProps, DfdlPropsModel,
    ElementDecl, ElementDeclModel, GroupRefDecl, Particle, ParticleModel, SequenceDecl,
    SequenceDeclModel, TypeDef, TypeDefModel, TypeName,
};
use crate::attrs;
use crate::attrs::{split_dfdl_attrs, take_daf_suppress_warnings, value_of};
use crate::error::{invalid_property, invalid_xml, missing_attribute, Error, ErrorModel};
use crate::merge;
use crate::merge::merge_dfdl_props;
use crate::qname;
use crate::qname::normalize_qname;
use crate::resolver;
use crate::strmap;
use crate::strmap::StrMap;
use crate::text::eq;
use crate::values;
use crate::values::{owned, Duplicate};
use crate::xml;
use crate::xml::{XmlElement, XmlElementModel, XmlNode, XmlNodeModel};
use crate::xsd::annotation;
use crate::xsd::content;
use crate::xsd::content::{
    begins_with_annotation, complaints_of_limits, count, take_hidden, NAMELESS,
};
use crate::xsd::markup;
use crate::xsd::markup::Content;
use crate::xsd::nodes;
use crate::xsd::nodes::{break_of, expect_end, fault_of, lemma_child, skip_blank, skip_element};
use crate::xsd::simple;
use crate::xsd::simple::name_of_type;
use crate::xsd::state;
use crate::xsd::state::{set_default, XsdParser, XsdParserModel};

verus! {

/// The reader that leaves these warnings out.
pub open spec fn suppressing(st: XsdParserModel, suppress: Option<Seq<char>>) -> XsdParserModel {
    XsdParserModel { suppress, ..st }
}

/// What an element declaration says beside its type and its properties.
pub struct HeadModel {
    pub name: Seq<char>,
    pub reference: Option<Seq<char>>,
    pub named: bool,
    pub default: Option<Seq<char>>,
    /// The type as written, with the prefixes in force.
    pub typed: Option<(Seq<char>, Seq<(Seq<char>, Seq<char>)>)>,
}

/// An element declaration with this head.
pub open spec fn declared(h: HeadModel, type_ref: Seq<char>, props: DfdlPropsModel) -> ElementDeclModel {
    ElementDeclModel {
        name: h.name,
        element_ref: h.reference,
        has_element_name_attr: h.named,
        type_ref,
        type_xsd_qname: match h.typed {
            Some((t, _)) => Some(t),
            None => None,
        },
        type_qname_scope: match h.typed {
            Some((_, s)) => Some(s),
            None => None,
        },
        props,
        default_value: h.default,
    }
}

/// The reader with a complex type, where it has a name.
pub open spec fn complex_stored(
    st: XsdParserModel,
    name: Option<Seq<char>>,
    content: ComplexContentModel,
    p: DfdlPropsModel,
) -> XsdParserModel {
    match name {
        None => st,
        Some(n) => simple::with_type(
            st,
            n,
            TypeDefModel::Complex {
                name: n,
                content,
                props: p,
                format_context: st.doc.format_defaults.props,
                source_label: st.doc.schema_source_label,
            },
        ),
    }
}

/// The reader after an element declaration, and the declaration.
#[verifier::opaque]
pub open spec fn element_read(st: XsdParserModel, e: XmlElementModel) -> Result<
    (XsdParserModel, ElementDeclModel),
    ErrorModel,
>
    decreases e, 4int,
{
    match element_inner(suppressing(st, attrs::suppressed(e.attributes)), e) {
        Err(x) => Err(x),
        Ok((st2, d)) => Ok((suppressing(st2, st.suppress), d)),
    }
}

/// The reader with the attributes of an element declaration looked at.
pub open spec fn head_checked(st: XsdParserModel, e: XmlElementModel) -> XsdParserModel {
    state::complained(
        state::complained(st, content::stated_by(st, e).1),
        attrs::declaration_complaints(content::plain_of(e)),
    )
}

/// The reader after an element declaration that leaves the right warnings out,
/// and the declaration.
#[verifier::opaque]
pub open spec fn element_inner(st: XsdParserModel, e: XmlElementModel) -> Result<
    (XsdParserModel, ElementDeclModel),
    ErrorModel,
>
    decreases e, 3int,
{
    let plain = content::plain_of(e);
    let scope = state::scope_of(st, e.namespaces);
    let st2 = head_checked(st, e);
    match content::element_name(plain) {
        None => Err(ErrorModel::InvalidProperty(NAMELESS@)),
        Some(name) => {
            let p = state::element_props(st2, content::stated_by(st, e).0, plain);
            let reference = strmap::lookup(plain, "ref"@);
            let head = HeadModel {
                name,
                reference,
                named: strmap::lookup(plain, "name"@) is Some,
                default: strmap::lookup(plain, "default"@),
                typed: None,
            };
            match strmap::lookup(plain, "type"@) {
                Some(t) => element_typed(
                    st2,
                    e,
                    HeadModel { typed: Some((t, scope)), ..head },
                    content::type_stated(st2, t, scope),
                    p,
                ),
                None => match reference {
                    Some(r) => {
                        let g = content::referred(st2, r, name);
                        element_typed(
                            content::reference_taken(st2, r, name),
                            e,
                            head,
                            g.type_ref,
                            merge::merge_spec(g.props, p),
                        )
                    },
                    None => element_untyped(st2, e, head, p),
                },
            }
        },
    }
}

/// The reader after the content of an element whose type has a name, and the
/// declaration.
#[verifier::opaque]
pub open spec fn element_typed(
    st: XsdParserModel,
    e: XmlElementModel,
    h: HeadModel,
    type_ref: Seq<char>,
    p: DfdlPropsModel,
) -> Result<(XsdParserModel, ElementDeclModel), ErrorModel>
    decreases e, 2int,
{
    match type_overridden(st, e, type_ref, p) {
        Err(x) => Err(x),
        Ok((st2, (t, q))) => Ok(
            (st2, declared(h, t, state::finalized(st2.doc, state::with_default(q, h.default)))),
        ),
    }
}

/// The reader after the content of an element whose type has a name, the type,
/// which the content may override, and the properties.
#[verifier::opaque]
pub open spec fn type_overridden(
    st: XsdParserModel,
    e: XmlElementModel,
    type_ref: Seq<char>,
    p: DfdlPropsModel,
) -> Result<(XsdParserModel, (Seq<char>, DfdlPropsModel)), ErrorModel>
    decreases e, 1int,
{
    match markup::markup_from(st, p, e.children, 0, Content::Typed) {
        Err(x) => Err(x),
        Ok((st2, (q, i))) => if nodes::at_end(e.children, i) {
            Ok((st2, (type_ref, q)))
        } else {
            match inline_read(st2, e.children, i) {
                Err(x) => Err(x),
                Ok((st3, (t, j))) => match nodes::end_fault(e.children, j, "element"@) {
                    Some(x) => Err(x),
                    None => Ok((st3, (t, q))),
                },
            }
        },
    }
}

/// The reader after the content of an element whose type stands in it, and the
/// declaration.
#[verifier::opaque]
pub open spec fn element_untyped(
    st: XsdParserModel,
    e: XmlElementModel,
    h: HeadModel,
    p: DfdlPropsModel,
) -> Result<(XsdParserModel, ElementDeclModel), ErrorModel>
    decreases e, 2int,
{
    if nodes::at_end(e.children, 0) {
        Err(ErrorModel::MissingAttribute("element"@, "type"@))
    } else {
        match markup::markup_from(st, p, e.children, 0, Content::Untyped) {
            Err(x) => Err(x),
            Ok((st2, (q, i))) => match inline_read(st2, e.children, i) {
                Err(x) => Err(x),
                Ok((st3, (t, j))) => match nodes::end_fault(e.children, j, "element"@) {
                    Some(x) => Err(x),
                    None => Ok(
                        (
                            st3,
                            declared(
                                h,
                                t,
                                state::with_default(
                                    state::finalized(st3.doc, q),
                                    h.default,
                                ),
                            ),
                        ),
                    ),
                },
            },
        }
    }
}

/// The reader after a type without a name that stands from `i` on, the name that
/// it gets, and the position behind it.
#[verifier::opaque]
pub open spec fn inline_read(st: XsdParserModel, nodes: Seq<XmlNodeModel>, i: nat) -> Result<
    (XsdParserModel, (Seq<char>, nat)),
    ErrorModel,
>
    decreases nodes, 0int,
{
    let j = nodes::after_blank(nodes, i);
    let n = st.resolver.inline_types;
    if j >= nodes.len() {
        Err(ErrorModel::InvalidXml("expected start element"@))
    } else {
        match nodes[j as int] {
            XmlNodeModel::Element(e) => if e.local == "complexType"@ {
                let name = resolver::inline_name("complex"@, n);
                match complex_read(content::named_inline(st), Some(name), e) {
                    Err(x) => Err(x),
                    Ok(st2) => Ok((st2, (name, j + 1))),
                }
            } else if e.local == "simpleType"@ {
                let name = resolver::inline_name("simple"@, n);
                match simple::simple_read(content::named_inline(st), Some(name), e) {
                    Err(x) => Err(x),
                    Ok(st2) => Ok((st2, (name, j + 1))),
                }
            } else {
                match nodes::flaw(e) {
                    Some(x) => Err(x),
                    None => Ok(
                        (
                            content::named_inline(
                                state::complained(st, state::unrecognized(e.local)),
                            ),
                            (resolver::inline_name("unknown"@, n), j + 1),
                        ),
                    ),
                }
            },
            n => match nodes::broken_at(n) {
                Some(x) => Err(x),
                None => Err(ErrorModel::InvalidXml("expected start element"@)),
            },
        }
    }
}

/// The reader after a complex type.
#[verifier::opaque]
pub open spec fn complex_read(
    st: XsdParserModel,
    inline: Option<Seq<char>>,
    e: XmlElementModel,
) -> Result<XsdParserModel, ErrorModel>
    decreases e, 1int,
{
    match markup::markup_from(st, ast::no_props(), e.children, 0, Content::Complex) {
        Err(x) => Err(x),
        Ok((st1, (p, i))) => match content_from(st1, e.children, i) {
            Err(x) => Err(x),
            Ok((st2, (found, j))) => match nodes::end_fault(e.children, j, "complexType"@) {
                Some(x) => Err(x),
                None => Ok(complex_stored(st2, simple::type_named(inline, e), found, p)),
            },
        },
    }
}

/// The reader after the content of a complex type that stands from `i` on, the
/// content, and the position behind it.
#[verifier::opaque]
pub open spec fn content_from(st: XsdParserModel, nodes: Seq<XmlNodeModel>, i: nat) -> Result<
    (XsdParserModel, (ComplexContentModel, nat)),
    ErrorModel,
>
    decreases nodes, nodes.len() - i,
{
    if i >= nodes.len() {
        Ok((st, (ComplexContentModel::Empty, i)))
    } else {
        match nodes[i as int] {
            XmlNodeModel::Element(e) => if e.local == "sequence"@ {
                match sequence_read(st, e) {
                    Err(x) => Err(x),
                    Ok((st2, s)) => Ok((st2, (ComplexContentModel::Sequence(s), i + 1))),
                }
            } else if e.local == "choice"@ {
                match choice_read(st, e) {
                    Err(x) => Err(x),
                    Ok((st2, c)) => Ok((st2, (ComplexContentModel::Choice(c), i + 1))),
                }
            } else if e.local == "group"@ {
                match content::group_ref_read(st, e) {
                    Err(x) => Err(x),
                    Ok((st2, g)) => Ok(
                        (
                            st2,
                            (
                                ComplexContentModel::Sequence(
                                    SequenceDeclModel {
                                        props: ast::no_props(),
                                        particles: seq![ParticleModel::GroupRef(g)],
                                        had_markup_before_particles: false,
                                    },
                                ),
                                i + 1,
                            ),
                        ),
                    ),
                }
            } else {
                match nodes::flaw(e) {
                    Some(x) => Err(x),
                    None => if e.local == "annotation"@ {
                        content_from(st, nodes, i + 1)
                    } else {
                        Ok(
                            (
                                state::complained(st, state::unrecognized(e.local)),
                                (ComplexContentModel::Empty, i + 1),
                            ),
                        )
                    },
                }
            },
            n => match nodes::fault(n, "expected complexType child, found "@, ""@) {
                Some(x) => Err(x),
                None => content_from(st, nodes, i + 1),
            },
        }
    }
}

/// The reader after a sequence, and the sequence.
#[verifier::opaque]
pub open spec fn sequence_read(st: XsdParserModel, e: XmlElementModel) -> Result<
    (XsdParserModel, SequenceDeclModel),
    ErrorModel,
>
    decreases e, 1int,
{
    match attrs::strict_props("sequence"@, e.attributes) {
        Err(x) => Err(x),
        Ok(stated) => {
            let st1 = state::complained(st, content::sequence_complaints(e.attributes));
            let own = content::own_props(st1.doc, content::with_hidden(stated, e.attributes));
            match markup::markup_from(
                st1,
                content::counted(own, e.attributes),
                e.children,
                0,
                Content::Particles,
            ) {
                Err(x) => Err(x),
                Ok((st2, (props, i))) => match particles_from(
                    st2,
                    Seq::empty(),
                    e.children,
                    i,
                    "expected sequence child, found "@,
                ) {
                    Err(x) => Err(x),
                    Ok((st3, particles)) => Ok(
                        (
                            st3,
                            SequenceDeclModel {
                                props,
                                particles,
                                had_markup_before_particles: content::annotation_first(e.children),
                            },
                        ),
                    ),
                },
            }
        },
    }
}

/// The reader after a choice, and the choice.
#[verifier::opaque]
pub open spec fn choice_read(st: XsdParserModel, e: XmlElementModel) -> Result<
    (XsdParserModel, ChoiceDeclModel),
    ErrorModel,
>
    decreases e, 1int,
{
    match attrs::strict_props("choice"@, e.attributes) {
        Err(x) => Err(x),
        Ok(stated) => {
            let st1 = state::complained(st, content::choice_complaints(e.attributes));
            let own = content::own_props(st1.doc, stated);
            match markup::markup_from(
                st1,
                content::counted(own, e.attributes),
                e.children,
                0,
                Content::Particles,
            ) {
                Err(x) => Err(x),
                Ok((st2, (props, i))) => match particles_from(
                    st2,
                    Seq::empty(),
                    e.children,
                    i,
                    "expected choice child, found "@,
                ) {
                    Err(x) => Err(x),
                    Ok((st3, branches)) => Ok((st3, ChoiceDeclModel { props, branches })),
                },
            }
        },
    }
}

/// The reader after the particles that stand from `i` on, and those behind these.
#[verifier::opaque]
pub open spec fn particles_from(
    st: XsdParserModel,
    found: Seq<ParticleModel>,
    nodes: Seq<XmlNodeModel>,
    i: nat,
    expected: Seq<char>,
) -> Result<(XsdParserModel, Seq<ParticleModel>), ErrorModel>
    decreases nodes, nodes.len() - i,
{
    if i >= nodes.len() {
        Ok((st, found))
    } else {
        match nodes[i as int] {
            XmlNodeModel::Element(e) => match particle_read(st, e) {
                Err(x) => Err(x),
                Ok((st2, Some(p))) => particles_from(st2, found.push(p), nodes, i + 1, expected),
                Ok((st2, None)) => particles_from(st2, found, nodes, i + 1, expected),
            },
            n => match nodes::fault(n, expected, ""@) {
                Some(x) => Err(x),
                None => particles_from(st, found, nodes, i + 1, expected),
            },
        }
    }
}

/// The reader after an element of a sequence or a choice, and the particle that
/// it is, if it is one.
#[verifier::opaque]
pub open spec fn particle_read(st: XsdParserModel, e: XmlElementModel) -> Result<
    (XsdParserModel, Option<ParticleModel>),
    ErrorModel,
>
    decreases e, 5int,
{
    if e.local == "element"@ {
        match element_read(st, e) {
            Err(x) => Err(x),
            Ok((st2, d)) => Ok((st2, Some(ParticleModel::Element(d)))),
        }
    } else if e.local == "sequence"@ {
        match sequence_read(st, e) {
            Err(x) => Err(x),
            Ok((st2, s)) => Ok((st2, Some(ParticleModel::Sequence(s)))),
        }
    } else if e.local == "group"@ {
        match content::group_ref_read(st, e) {
            Err(x) => Err(x),
            Ok((st2, g)) => Ok((st2, Some(ParticleModel::GroupRef(g)))),
        }
    } else if e.local == "choice"@ {
        match choice_read(st, e) {
            Err(x) => Err(x),
            Ok((st2, c)) => Ok((st2, Some(ParticleModel::Choice(c)))),
        }
    } else {
        match nodes::flaw(e) {
            Some(x) => Err(x),
            None => Ok((st, None)),
        }
    }
}

/// What an element declaration says beside its type and its properties.
struct Head {
    name: String,
    reference: Option<String>,
    named: bool,
    default: Option<String>,
    typed: Option<(String, StrMap<String>)>,
}

impl Head {
    spec fn model(self) -> HeadModel {
        HeadModel {
            name: self.name@,
            reference: self.reference.deep_view(),
            named: self.named,
            default: self.default.deep_view(),
            typed: self.typed.deep_view(),
        }
    }

    /// An element declaration with this head.
    fn declare(self, type_ref: TypeName, props: DfdlProps) -> (r: ElementDecl)
        ensures
            values::agree(r@, declared(self.model(), type_ref@, props@)),
    {
        let (type_xsd_qname, type_qname_scope) = match self.typed {
            Some((t, s)) => (Some(t), Some(s)),
            None => (None, None),
        };
        ElementDecl {
            name: self.name,
            element_ref: self.reference,
            has_element_name_attr: self.named,
            type_ref,
            type_xsd_qname,
            type_qname_scope,
            props,
            default_value: self.default,
        }
    }
}

/// The name of an element declaration that is not global.
fn name_of_element(plain: &StrMap<String>) -> (r: Option<String>)
    ensures
        r.deep_view() == content::element_name(plain@),
{
    match plain.get("name") {
        Some(n) => Some(n.copy()),
        None => match plain.get("ref") {
            Some(r) => Some(normalize_qname(r.as_str())),
            None => None,
        },
    }
}

impl XsdParser {
    /// Sets the warnings to be left out.
    pub(crate) fn set_suppress(&mut self, suppress: Option<String>)
        ensures
            values::agree(final(self)@, suppressing(old(self)@, suppress.deep_view())),
    {
        proof {
            reveal(crate::xsd::state::parser_model);
        }
        self.suppress_schema_definition_warnings = suppress;
    }

    /// Takes an element declaration in.
    #[verifier::spinoff_prover]
    pub(crate) fn parse_element_decl(&mut self, e: &XmlElement) -> (r: Result<ElementDecl, Error>)
        ensures
            annotation::done(final(self)@, r, element_read(old(self)@, e@)),
        decreases *e, 4int,
    {
        proof {
            reveal(crate::xsd::state::parser_model);
        }
        reveal(element_read);
        reveal(element_inner);
        let before = self.suppress_schema_definition_warnings.copy();
        let suppress = take_daf_suppress_warnings(&e.attributes);
        self.set_suppress(suppress);
        let d = self.parse_element_decl_inner(e)?;
        self.set_suppress(before);
        Ok(d)
    }

    /// Takes an element declaration in that leaves the right warnings out.
    #[verifier::spinoff_prover]
    fn parse_element_decl_inner(&mut self, e: &XmlElement) -> (r: Result<ElementDecl, Error>)
        ensures
            annotation::done(final(self)@, r, element_inner(old(self)@, e@)),
            content::element_name(content::plain_of(e@)) is None ==> values::agree(
                final(self)@,
                head_checked(old(self)@, e@),
            ),
        decreases *e, 3int,
    {
        reveal(element_inner);
        reveal(element_typed);
        reveal(element_untyped);
        let scope = self.element_type_prefix_map(&e.namespaces);
        let (plain, stated) = self.read_head(e);
        self.check_head(&plain);
        let name = match name_of_element(&plain) {
            Some(name) => name,
            None => {
                return Err(invalid_property(owned(NAMELESS)));
            },
        };
        let p = self.declared_props(stated, &plain);
        let reference = value_of(&plain, "ref");
        let named: bool = plain.contains_key("name");
        let default = value_of(&plain, "default");
        if let Some(t) = plain.get("type") {
            let type_ref = self.named_type(t.as_str(), &scope);
            let typed = Some((t.copy(), scope));
            let head = Head { name, reference, named, default, typed };
            return self.parse_typed(e, head, type_ref, p);
        }
        if let Some(r) = &reference {
            let g = self.refer(r.as_str(), name.as_str());
            let whole = merge_dfdl_props(g.props, p);
            let head = Head { name, reference: Some(r.copy()), named, default, typed: None };
            return self.parse_typed(e, head, g.type_ref, whole);
        }
        let head = Head { name, reference, named, default, typed: None };
        self.parse_untyped(e, head, p)
    }

    /// Takes the content of an element in whose type has a name.
    #[verifier::spinoff_prover]
    fn parse_typed(&mut self, e: &XmlElement, head: Head, type_ref: TypeName, p: DfdlProps) -> (r:
        Result<ElementDecl, Error>)
        ensures
            annotation::done(
                final(self)@,
                r,
                element_typed(old(self)@, e@, head.model(), type_ref@, p@),
            ),
        decreases *e, 2int,
    {
        reveal(element_typed);
        reveal(type_overridden);
        let (t, q) = self.parse_override(e, type_ref, p)?;
        let whole = self.finalize_props(set_default(q, &head.default));
        Ok(head.declare(t, whole))
    }

    /// Takes the content of an element in whose type has a name, which the content
    /// may override.
    #[verifier::spinoff_prover]
    pub(crate) fn parse_override(&mut self, e: &XmlElement, type_ref: TypeName, p: DfdlProps) -> (r: Result<
        (TypeName, DfdlProps),
        Error,
    >)
        ensures
            annotation::done(
                final(self)@,
                r,
                type_overridden(old(self)@, e@, type_ref@, p@),
            ),
        decreases *e, 1int,
    {
        reveal(type_overridden);
        reveal(inline_read);
        let (q, i) = self.parse_inline_content(p, &e.children, 0, Content::Typed)?;
        if skip_blank(&e.children, i) >= e.children.len() {
            return Ok((type_ref, q));
        }
        let (t, j) = self.parse_inline_type(&e.children, i)?;
        expect_end(&e.children, j, "element")?;
        Ok((t, q))
    }

    /// Takes the content of an element in whose type stands in it.
    #[verifier::spinoff_prover]
    fn parse_untyped(&mut self, e: &XmlElement, head: Head, p: DfdlProps) -> (r: Result<
        ElementDecl,
        Error,
    >)
        ensures
            annotation::done(
                final(self)@,
                r,
                element_untyped(old(self)@, e@, head.model(), p@),
            ),
        decreases *e, 2int,
    {
        reveal(element_untyped);
        reveal(inline_read);
        if skip_blank(&e.children, 0) >= e.children.len() {
            return Err(missing_attribute("element", "type"));
        }
        let (q, i) = self.parse_inline_content(p, &e.children, 0, Content::Untyped)?;
        let (t, j) = self.parse_inline_type(&e.children, i)?;
        expect_end(&e.children, j, "element")?;
        let whole = set_default(self.finalize_props(q), &head.default);
        Ok(head.declare(t, whole))
    }

    /// Takes a type without a name in, from `start` on.
    #[verifier::spinoff_prover]
    pub(crate) fn parse_inline_type(&mut self, list: &Vec<XmlNode>, start: usize) -> (r: Result<
        (TypeName, usize),
        Error,
    >)
        requires
            start <= list@.len(),
        ensures
            match inline_read(old(self)@, xml::node_models(*list), start as nat) {
                Ok((st, (t, j))) => values::agree(final(self)@, st) && (r matches Ok((x, k)) && x@
                    == t && k == j && k <= list@.len()),
                Err(e) => r matches Err(x) && x@ == e,
            },
        decreases *list, 0int,
    {
        reveal(inline_read);
        reveal(complex_read);
        let j: usize = skip_blank(list, start);
        if j >= list.len() {
            return Err(invalid_xml(owned("expected start element")));
        }
        assert(xml::node_models(*list)[j as int] == list@[j as int].model());
        match &list[j] {
            XmlNode::Element(child) => {
                proof {
                    lemma_child(*list, j as int);
                }
                if eq(child.local.as_str(), "complexType") {
                    let name = self.name_inline("complex");
                    let t = TypeName(name.copy());
                    self.parse_complex_type(Some(name), child)?;
                    return Ok((t, j + 1));
                }
                if eq(child.local.as_str(), "simpleType") {
                    let name = self.name_inline("simple");
                    let t = TypeName(name.copy());
                    self.parse_simple_type(Some(name), child)?;
                    return Ok((t, j + 1));
                }
                skip_element(child)?;
                self.complain_of_element(child.local.as_str());
                let name = self.name_inline("unknown");
                Ok((TypeName(name), j + 1))
            },
            other => match break_of(other) {
                Some(x) => Err(x),
                None => Err(invalid_xml(owned("expected start element"))),
            },
        }
    }

    /// Stores a complex type, where it has a name.
    fn store_complex(&mut self, name: Option<String>, found: ComplexContent, props: DfdlProps)
        ensures
            values::agree(
                final(self)@,
                complex_stored(old(self)@, name.deep_view(), found.deep_view(), props@),
            ),
    {
        reveal(crate::ast::document_model);
        proof {
            reveal(crate::xsd::state::parser_model);
        }
        if let Some(n) = name {
            let t = TypeDef::Complex {
                name: TypeName(n.copy()),
                content: found,
                props,
                format_context: self.doc.format_defaults.props.copy(),
                source_label: self.doc.schema_source_label.copy(),
            };
            self.insert_type(n, t);
        }
    }

    /// Takes a complex type in.
    #[verifier::spinoff_prover]
    pub(crate) fn parse_complex_type(&mut self, inline: Option<String>, e: &XmlElement) -> (r: Result<
        (),
        Error,
    >)
        ensures
            annotation::finished(
                final(self)@,
                r,
                complex_read(old(self)@, inline.deep_view(), e@),
            ),
        decreases *e, 1int,
    {
        reveal(complex_read);
        reveal(content_from);
        let (p, i) = self.parse_inline_content(
            DfdlProps::default(),
            &e.children,
            0,
            Content::Complex,
        )?;
        let (found, j) = self.parse_complex_content(&e.children, i)?;
        expect_end(&e.children, j, "complexType")?;
        let name = name_of_type(inline, e);
        self.store_complex(name, found, p);
        Ok(())
    }

    /// Takes the content of a complex type in, from `start` on.
    #[verifier::spinoff_prover]
    pub(crate) fn parse_complex_content(&mut self, list: &Vec<XmlNode>, start: usize) -> (r: Result<
        (ComplexContent, usize),
        Error,
    >)
        requires
            start <= list@.len(),
        ensures
            match content_from(old(self)@, xml::node_models(*list), start as nat) {
                Ok((st, (c, j))) => values::agree(final(self)@, st) && (r matches Ok((x, k))
                    && values::agree(x.deep_view(), c) && k == j && k <= list@.len()),
                Err(e) => r matches Err(x) && x@ == e,
            },
        decreases *list, 0int,
    {
        reveal(content_from);
        reveal(sequence_read);
        reveal(choice_read);
        let n: usize = list.len();
        let mut i: usize = start;
        let ghost all = xml::node_models(*list);
        let ghost want = content_from(self@, all, start as nat);
        while i < n
            invariant
                start <= i <= n,
                n == list@.len(),
                all == xml::node_models(*list),
                want == content_from(old(self)@, all, start as nat),
                values::agree(want, content_from(self@, all, i as nat)),
            decreases n - i,
        {
            reveal(content_from);
            reveal(sequence_read);
            reveal(choice_read);
            assert(all[i as int] == list@[i as int].model());
            match &list[i] {
                XmlNode::Element(child) => {
                    proof {
                        lemma_child(*list, i as int);
                    }
                    let local = child.local.as_str();
                    if eq(local, "sequence") {
                        let s = self.parse_sequence(child)?;
                        return Ok((ComplexContent::Sequence(s), i + 1));
                    }
                    if eq(local, "choice") {
                        let c = self.parse_choice(child)?;
                        return Ok((ComplexContent::Choice(c), i + 1));
                    }
                    if eq(local, "group") {
                        let g = self.parse_group_ref_particle(child)?;
                        return Ok((ComplexContent::Sequence(only_group(g)), i + 1));
                    }
                    skip_element(child)?;
                    let markup: bool = eq(local, "annotation");
                    if !markup {
                        self.complain_of_element(local);
                        return Ok((ComplexContent::Empty, i + 1));
                    }
                },
                other => {
                    if let Some(x) = fault_of(other, "expected complexType child, found ", "") {
                        return Err(x);
                    }
                },
            }
            i += 1;
        }
        Ok((ComplexContent::Empty, i))
    }

    /// Takes a sequence in.
    #[verifier::spinoff_prover]
    pub(crate) fn parse_sequence(&mut self, e: &XmlElement) -> (r: Result<SequenceDecl, Error>)
        ensures
            annotation::done(final(self)@, r, sequence_read(old(self)@, e@)),
        decreases *e, 1int,
    {
        reveal(sequence_read);
        reveal(particles_from);
        let (_, stated) = split_dfdl_attrs("sequence", &e.attributes)?;
        let said = complaints_of_limits(
            &e.attributes,
            "Schema Definition Error: minOccurs attribute cannot appear in element xs:sequence",
            "Schema Definition Error: maxOccurs attribute cannot appear in element xs:sequence",
        );
        self.complain(&said);
        let own = self.props_of(take_hidden(stated, &e.attributes));
        let (props, i) = self.parse_inline_content(
            count(own, &e.attributes),
            &e.children,
            0,
            Content::Particles,
        )?;
        let particles = self.parse_particles(&e.children, i, "expected sequence child, found ")?;
        Ok(
            SequenceDecl {
                props,
                particles,
                had_markup_before_particles: begins_with_annotation(&e.children),
            },
        )
    }

    /// Takes a choice in.
    #[verifier::spinoff_prover]
    pub(crate) fn parse_choice(&mut self, e: &XmlElement) -> (r: Result<ChoiceDecl, Error>)
        ensures
            annotation::done(final(self)@, r, choice_read(old(self)@, e@)),
        decreases *e, 1int,
    {
        reveal(choice_read);
        reveal(particles_from);
        let (_, stated) = split_dfdl_attrs("choice", &e.attributes)?;
        let said = complaints_of_limits(
            &e.attributes,
            "Attribute 'minOccurs' is not allowed to appear in element 'xs:choice'",
            "Attribute 'maxOccurs' is not allowed to appear in element 'xs:choice'",
        );
        self.complain(&said);
        let own = self.props_of(stated);
        let (props, i) = self.parse_inline_content(
            count(own, &e.attributes),
            &e.children,
            0,
            Content::Particles,
        )?;
        let branches = self.parse_particles(&e.children, i, "expected choice child, found ")?;
        Ok(ChoiceDecl { props, branches })
    }

    /// Takes particles in, from `start` on.
    #[verifier::spinoff_prover]
    fn parse_particles(&mut self, list: &Vec<XmlNode>, start: usize, expected: &str) -> (r: Result<
        Vec<Particle>,
        Error,
    >)
        requires
            start <= list@.len(),
        ensures
            match particles_from(
                old(self)@,
                Seq::empty(),
                xml::node_models(*list),
                start as nat,
                expected@,
            ) {
                Ok((st, v)) => values::agree(final(self)@, st) && (r matches Ok(x)
                    && values::agree(ast::particle_models(x), v)),
                Err(e) => r matches Err(x) && x@ == e,
            },
        decreases *list, 0int,
    {
        reveal(particles_from);
        reveal(particle_read);
        let n: usize = list.len();
        let mut i: usize = start;
        let mut found: Vec<Particle> = Vec::new();
        assert(ast::particle_models(found) =~= Seq::empty());
        let ghost all = xml::node_models(*list);
        let ghost want = particles_from(self@, Seq::empty(), all, start as nat, expected@);
        while i < n
            invariant
                start <= i <= n,
                n == list@.len(),
                all == xml::node_models(*list),
                want == particles_from(old(self)@, Seq::empty(), all, start as nat, expected@),
                values::agree(
                    want,
                    particles_from(
                        self@,
                        ast::particle_models(found),
                        all,
                        i as nat,
                        expected@,
                    ),
                ),
            decreases n - i,
        {
            reveal(particles_from);
            reveal(particle_read);
            assert(all[i as int] == list@[i as int].model());
            match &list[i] {
                XmlNode::Element(child) => {
                    proof {
                        lemma_child(*list, i as int);
                    }
                    if let Some(p) = self.parse_particle(child)? {
                        let ghost before = found;
                        found.push(p);
                        assert(ast::particle_models(found) =~= ast::particle_models(before).push(
                            p.model(),
                        ));
                    }
                },
                other => {
                    if let Some(x) = fault_of(other, expected, "") {
                        return Err(x);
                    }
                },
            }
            i += 1;
        }
        Ok(found)
    }

    /// Takes an element of a sequence or a choice in.
    #[verifier::spinoff_prover]
    fn parse_particle(&mut self, e: &XmlElement) -> (r: Result<Option<Particle>, Error>)
        ensures
            annotation::done(final(self)@, r, particle_read(old(self)@, e@)),
        decreases *e, 5int,
    {
        reveal(particle_read);
        reveal(element_read);
        reveal(sequence_read);
        reveal(choice_read);
        let local = e.local.as_str();
        if eq(local, "element") {
            let d = self.parse_element_decl(e)?;
            Ok(Some(Particle::Element(d)))
        } else if eq(local, "sequence") {
            let s = self.parse_sequence(e)?;
            Ok(Some(Particle::Sequence(s)))
        } else if eq(local, "group") {
            let g = self.parse_group_ref_particle(e)?;
            Ok(Some(Particle::GroupRef(g)))
        } else if eq(local, "choice") {
            let c = self.parse_choice(e)?;
            Ok(Some(Particle::Choice(c)))
        } else {
            skip_element(e)?;
            Ok(None)
        }
    }
}

/// A sequence of one group.
fn only_group(g: GroupRefDecl) -> (r: SequenceDecl)
    ensures
        r.model() == (SequenceDeclModel {
            props: ast::no_props(),
            particles: seq![ParticleModel::GroupRef(g@)],
            had_markup_before_particles: false,
        }),
{
    let mut particles: Vec<Particle> = Vec::new();
    particles.push(Particle::GroupRef(g));
    assert(ast::particle_models(particles) =~= seq![ParticleModel::GroupRef(g@)]);
    SequenceDecl { props: DfdlProps::default(), particles, had_markup_before_particles: false }
}

} // verus!
