//! How the declarations of a schema correspond to the elements they are read from.

use vstd::prelude::*;
use crate::ast::{
    ComplexContentModel, DfdlPropsModel, ElementDeclModel, GroupDeclModel, ParticleModel,
    TypeDefModel,
};
use crate::attrs;
use crate::qname;
use crate::strmap;
use crate::xml::{XmlElementModel, XmlNodeModel};
use crate::xsd::content;
use crate::xsd::globals;
use crate::xsd::markup;
use crate::xsd::markup::Content;
use crate::xsd::particles;
use crate::xsd::state::XsdParserModel;

verus! {

broadcast use vstd::string::group_string_axioms;

// ------------------------------------------------------------ sequences and choices

/// A node that declares a particle: an element, a sequence, a choice, or a group.
pub open spec fn declares_particle(n: XmlNodeModel) -> bool {
    n matches XmlNodeModel::Element(e) && (e.local == "element"@ || e.local == "sequence"@
        || e.local == "choice"@ || e.local == "group"@)
}

/// The declaration says what the attributes of the element say.
pub open spec fn declares(e: XmlElementModel, d: ElementDeclModel) -> bool {
    let plain = attrs::plain_part("element"@, e.attributes);
    &&& (strmap::lookup(plain, "name"@) matches Some(n) ==> d.name == n)
    &&& (strmap::lookup(plain, "name"@) is None ==> (strmap::lookup(plain, "ref"@) matches Some(r)
        && d.name == qname::local_spec(r)))
    &&& (d.has_element_name_attr <==> strmap::lookup(plain, "name"@) is Some)
    &&& d.element_ref == strmap::lookup(plain, "ref"@)
    &&& d.default_value == strmap::lookup(plain, "default"@)
    &&& d.type_xsd_qname == strmap::lookup(plain, "type"@)
}

/// The particle is of the kind that the name of the element says, and says what
/// stands in the element.
pub open spec fn mirrors(e: XmlElementModel, p: ParticleModel) -> bool
    decreases e, 0nat,
{
    match p {
        ParticleModel::Element(d) => e.local == "element"@ && declares(e, d),
        ParticleModel::Sequence(s) => e.local == "sequence"@ && mirror_from(
            e.children,
            0,
            s.particles,
            0,
        ),
        ParticleModel::Choice(c) => e.local == "choice"@ && mirror_from(
            e.children,
            0,
            c.branches,
            0,
        ),
        ParticleModel::GroupRef(g) => e.local == "group"@ && (strmap::lookup(
            attrs::plain_part("group"@, e.attributes),
            "ref"@,
        ) matches Some(r) && g.name == qname::local_spec(r)),
    }
}

/// The particles from `k` on are, one by one and in order, those that the nodes from
/// `i` on declare.
pub open spec fn mirror_from(
    nodes: Seq<XmlNodeModel>,
    i: nat,
    list: Seq<ParticleModel>,
    k: nat,
) -> bool
    decreases nodes, nodes.len() - i,
{
    if i >= nodes.len() {
        k == list.len()
    } else {
        match nodes[i as int] {
            XmlNodeModel::Element(e) => if declares_particle(nodes[i as int]) {
                k < list.len() && mirrors(e, list[k as int]) && mirror_from(
                    nodes,
                    i + 1,
                    list,
                    k + 1,
                )
            } else {
                mirror_from(nodes, i + 1, list, k)
            },
            _ => mirror_from(nodes, i + 1, list, k),
        }
    }
}

/// How many of the nodes from `i` on declare a particle.
pub open spec fn particle_count(nodes: Seq<XmlNodeModel>, i: nat) -> nat
    decreases nodes.len() - i,
{
    if i >= nodes.len() {
        0
    } else {
        particle_count(nodes, i + 1) + if declares_particle(nodes[i as int]) {
            1nat
        } else {
            0nat
        }
    }
}

/// Markup ends at the first part of the content.
#[verifier::spinoff_prover]
pub(crate) proof fn lemma_markup_ends(
    st: XsdParserModel,
    p: DfdlPropsModel,
    nodes: Seq<XmlNodeModel>,
    i: nat,
    content: Content,
)
    requires
        !markup::part_of(content, "annotation"@),
        i <= nodes.len(),
    ensures
        markup::markup_from(st, p, nodes, i, content) matches Ok((_, (_, j))) ==> {
            &&& i <= j <= nodes.len()
            &&& forall|k: int|
                i <= k < j ==> ((#[trigger] nodes[k]) matches XmlNodeModel::Element(e)
                    ==> !markup::part_of(content, e.local))
            &&& (j < nodes.len() ==> (nodes[j as int] matches XmlNodeModel::Element(e)
                && markup::part_of(content, e.local)))
        },
    decreases nodes.len() - i,
{
    if i < nodes.len() {
        match nodes[i as int] {
            XmlNodeModel::Element(e) => if e.local == "annotation"@ {
                if let Ok((st2, q)) = markup::annotation_read(st, e) {
                    lemma_markup_ends(
                        st2,
                        crate::merge::merge_spec(p, q),
                        nodes,
                        i + 1,
                        content,
                    );
                }
            } else if !markup::part_of(content, e.local) {
                lemma_markup_ends(
                    crate::xsd::state::complained(st, crate::xsd::state::unrecognized(e.local)),
                    p,
                    nodes,
                    i + 1,
                    content,
                );
            },
            _ => {
                lemma_markup_ends(st, p, nodes, i + 1, content);
            },
        }
    }
}

#[verifier::spinoff_prover]
proof fn lemma_mirror_behind(
    nodes: Seq<XmlNodeModel>,
    i: nat,
    j: nat,
    list: Seq<ParticleModel>,
    k: nat,
)
    requires
        i <= j <= nodes.len(),
        forall|m: int| i <= m < j ==> !declares_particle(#[trigger] nodes[m]),
    ensures
        mirror_from(nodes, i, list, k) == mirror_from(nodes, j, list, k),
    decreases j - i,
{
    if i < j {
        assert(!declares_particle(nodes[i as int]));
        lemma_mirror_behind(nodes, i + 1, j, list, k);
    }
}

#[verifier::spinoff_prover]
pub(crate) proof fn lemma_no_annotation()
    ensures
        !markup::part_of(Content::Particles, "annotation"@),
        !markup::part_of(Content::Complex, "annotation"@),
        !markup::part_of(Content::Untyped, "annotation"@),
        !markup::part_of(Content::Typed, "annotation"@),
        !markup::part_of(Content::Simple, "annotation"@),
{
    reveal_strlit("annotation");
    reveal_strlit("element");
    reveal_strlit("sequence");
    reveal_strlit("choice");
    reveal_strlit("group");
    reveal_strlit("complexType");
    reveal_strlit("simpleType");
    reveal_strlit("restriction");
    reveal_strlit("union");
    assert("annotation"@.len() == 10 && "restriction"@.len() == 11);
    assert("simpleType"@.len() == 10 && "simpleType"@[0] == 's' && "annotation"@[0] == 'a');
}

/// What is read of the particles from `i` on follows those already found.
#[verifier::spinoff_prover]
proof fn lemma_particles(
    st: XsdParserModel,
    found: Seq<ParticleModel>,
    nodes: Seq<XmlNodeModel>,
    i: nat,
    expected: Seq<char>,
)
    ensures
        particles::particles_from(st, found, nodes, i, expected) matches Ok((_, list)) ==> {
            &&& found.len() <= list.len()
            &&& list.take(found.len() as int) == found
            &&& mirror_from(nodes, i, list, found.len())
        },
    decreases nodes, nodes.len() - i,
{
    reveal(particles::particles_from);
    reveal(particles::particle_read);
    if i >= nodes.len() {
        assert(found.take(found.len() as int) =~= found);
    } else {
        match nodes[i as int] {
            XmlNodeModel::Element(e) => {
                assert(decreases_to!(nodes => nodes[i as int]));
                assert(decreases_to!(nodes[i as int] => nodes[i as int]->Element_0));
                law_particle_mirrors(st, e);
                match particles::particle_read(st, e) {
                    Ok((st2, Some(p))) => {
                        let more = found.push(p);
                        lemma_particles(st2, more, nodes, i + 1, expected);
                        if let Ok((_, list)) = particles::particles_from(
                            st2,
                            more,
                            nodes,
                            i + 1,
                            expected,
                        ) {
                            assert(list.take(more.len() as int)[found.len() as int] == p);
                            assert(list.take(found.len() as int) =~= more.take(found.len() as int));
                            assert(more.take(found.len() as int) =~= found);
                            assert(mirror_from(nodes, i + 1, list, found.len() + 1));
                            assert(mirrors(e, list[found.len() as int]));
                            assert(declares_particle(nodes[i as int]));
                            assert(mirror_from(nodes, i, list, found.len()));
                        }
                    },
                    Ok((st2, None)) => {
                        lemma_particles(st2, found, nodes, i + 1, expected);
                    },
                    _ => {},
                }
            },
            _ => {
                lemma_particles(st, found, nodes, i + 1, expected);
            },
        }
    }
}

/// The particles of a sequence that is read are, one by one and in order, those that
/// its children declare.
#[verifier::spinoff_prover]
pub proof fn law_sequence_mirrors(st: XsdParserModel, e: XmlElementModel)
    ensures
        particles::sequence_read(st, e) matches Ok((_, s)) ==> mirror_from(
            e.children,
            0,
            s.particles,
            0,
        ),
    decreases e, 1nat,
{
    reveal(particles::sequence_read);
    reveal(particles::particles_from);
    lemma_no_annotation();
    if let Ok(stated) = attrs::strict_props("sequence"@, e.attributes) {
        let st1 = crate::xsd::state::complained(st, content::sequence_complaints(e.attributes));
        let own = content::own_props(st1.doc, content::with_hidden(stated, e.attributes));
        let p = content::counted(own, e.attributes);
        lemma_markup_ends(st1, p, e.children, 0, Content::Particles);
        if let Ok((st2, (_, i))) = markup::markup_from(
            st1,
            p,
            e.children,
            0,
            Content::Particles,
        ) {
            lemma_particles(
                st2,
                Seq::empty(),
                e.children,
                i,
                "expected sequence child, found "@,
            );
            if let Ok((_, list)) = particles::particles_from(
                st2,
                Seq::empty(),
                e.children,
                i,
                "expected sequence child, found "@,
            ) {
                assert(Seq::<ParticleModel>::empty().len() == 0);
                assert(mirror_from(e.children, i, list, 0));
                lemma_mirror_behind(e.children, 0, i, list, 0);
                assert(mirror_from(e.children, 0, list, 0));
            }
        }
    }
}

/// The branches of a choice that is read are, one by one and in order, those that its
/// children declare.
#[verifier::spinoff_prover]
pub proof fn law_choice_mirrors(st: XsdParserModel, e: XmlElementModel)
    ensures
        particles::choice_read(st, e) matches Ok((_, c)) ==> mirror_from(
            e.children,
            0,
            c.branches,
            0,
        ),
    decreases e, 1nat,
{
    reveal(particles::choice_read);
    reveal(particles::particles_from);
    lemma_no_annotation();
    if let Ok(stated) = attrs::strict_props("choice"@, e.attributes) {
        let st1 = crate::xsd::state::complained(st, content::choice_complaints(e.attributes));
        let p = content::counted(content::own_props(st1.doc, stated), e.attributes);
        lemma_markup_ends(st1, p, e.children, 0, Content::Particles);
        if let Ok((st2, (_, i))) = markup::markup_from(
            st1,
            p,
            e.children,
            0,
            Content::Particles,
        ) {
            lemma_particles(st2, Seq::empty(), e.children, i, "expected choice child, found "@);
            if let Ok((_, list)) = particles::particles_from(
                st2,
                Seq::empty(),
                e.children,
                i,
                "expected choice child, found "@,
            ) {
                assert(Seq::<ParticleModel>::empty().len() == 0);
                assert(mirror_from(e.children, i, list, 0));
                lemma_mirror_behind(e.children, 0, i, list, 0);
                assert(mirror_from(e.children, 0, list, 0));
            }
        }
    }
}

#[verifier::spinoff_prover]
proof fn lemma_typed(
    st: XsdParserModel,
    e: XmlElementModel,
    h: particles::HeadModel,
    type_ref: Seq<char>,
    p: DfdlPropsModel,
)
    ensures
        particles::element_typed(st, e, h, type_ref, p) matches Ok((_, d)) ==> headed(h, d),
{
    reveal(particles::element_typed);
}

#[verifier::spinoff_prover]
proof fn lemma_untyped(
    st: XsdParserModel,
    e: XmlElementModel,
    h: particles::HeadModel,
    p: DfdlPropsModel,
)
    ensures
        particles::element_untyped(st, e, h, p) matches Ok((_, d)) ==> headed(h, d),
{
    reveal(particles::element_untyped);
}

/// The declaration has this head.
spec fn headed(h: particles::HeadModel, d: ElementDeclModel) -> bool {
    &&& d.name == h.name
    &&& d.element_ref == h.reference
    &&& d.has_element_name_attr == h.named
    &&& d.default_value == h.default
    &&& d.type_xsd_qname == match h.typed {
        Some((t, _)) => Some(t),
        None => None,
    }
}

/// An element declaration that is read says what its attributes say.
#[verifier::spinoff_prover]
pub proof fn law_element_declares(st: XsdParserModel, e: XmlElementModel)
    ensures
        particles::element_read(st, e) matches Ok((_, d)) ==> declares(e, d),
{
    reveal(particles::element_read);
    let st0 = particles::suppressing(st, attrs::suppressed(e.attributes));
    lemma_inner(st0, e);
    assert(particles::element_read(st, e) matches Ok((_, d)) ==> declares(e, d)) by {
        reveal(particles::element_inner);
    }
}

#[verifier::spinoff_prover]
proof fn lemma_inner(st: XsdParserModel, e: XmlElementModel)
    ensures
        particles::element_inner(st, e) matches Ok((_, d)) ==> declares(e, d),
{
    reveal(particles::element_inner);
    let plain = content::plain_of(e);
    let st2 = particles::head_checked(st, e);
    if let Some(name) = content::element_name(plain) {
        let p = crate::xsd::state::element_props(st2, content::stated_by(st, e).0, plain);
        let scope = crate::xsd::state::scope_of(st, e.namespaces);
        let reference = strmap::lookup(plain, "ref"@);
        let head = particles::HeadModel {
            name,
            reference,
            named: strmap::lookup(plain, "name"@) is Some,
            default: strmap::lookup(plain, "default"@),
            typed: None,
        };
        match strmap::lookup(plain, "type"@) {
            Some(t) => {
                reveal(particles::element_typed);
                lemma_typed(
                    st2,
                    e,
                    particles::HeadModel { typed: Some((t, scope)), ..head },
                    content::type_stated(st2, t, scope),
                    p,
                );
            },
            None => match reference {
                Some(r) => {
                    reveal(particles::element_typed);
                    let g = content::referred(st2, r, name);
                    lemma_typed(
                        content::reference_taken(st2, r, name),
                        e,
                        head,
                        g.type_ref,
                        crate::merge::merge_spec(g.props, p),
                    );
                },
                None => {
                    reveal(particles::element_untyped);
                    lemma_untyped(st2, e, head, p);
                },
            },
        }
    }
}

/// A child of a sequence or a choice that is read is a particle just where its name
/// says so, and then of the kind that the name says.
#[verifier::spinoff_prover]
pub proof fn law_particle_mirrors(st: XsdParserModel, e: XmlElementModel)
    ensures
        particles::particle_read(st, e) matches Ok((_, p)) ==> {
            &&& (p is Some <==> declares_particle(XmlNodeModel::Element(e)))
            &&& (p matches Some(x) ==> mirrors(e, x))
        },
    decreases e, 2nat,
{
    lemma_kinds_differ();
    if e.local == "element"@ {
        reveal(particles::particle_read);
        reveal(particles::element_read);
        law_element_declares(st, e);
    } else if e.local == "sequence"@ {
        reveal(particles::particle_read);
        reveal(particles::sequence_read);
        law_sequence_mirrors(st, e);
    } else if e.local == "group"@ {
        reveal(particles::particle_read);
        reveal(content::group_ref_read);
    } else if e.local == "choice"@ {
        reveal(particles::particle_read);
        reveal(particles::choice_read);
        law_choice_mirrors(st, e);
    } else {
        reveal(particles::particle_read);
    }
}

#[verifier::spinoff_prover]
proof fn lemma_kinds_differ()
    ensures
        "element"@ != "sequence"@,
        "element"@ != "choice"@,
        "element"@ != "group"@,
        "sequence"@ != "choice"@,
        "sequence"@ != "group"@,
        "choice"@ != "group"@,
{
    reveal_strlit("element");
    reveal_strlit("sequence");
    reveal_strlit("choice");
    reveal_strlit("group");
    assert("element"@.len() == 7 && "sequence"@.len() == 8);
    assert("choice"@.len() == 6 && "group"@.len() == 5);
}

/// There are as many particles as children that declare one.
#[verifier::spinoff_prover]
pub proof fn law_particles_counted(
    nodes: Seq<XmlNodeModel>,
    i: nat,
    list: Seq<ParticleModel>,
    k: nat,
)
    requires
        mirror_from(nodes, i, list, k),
    ensures
        list.len() == k + particle_count(nodes, i),
    decreases nodes.len() - i,
{
    if i < nodes.len() {
        if declares_particle(nodes[i as int]) {
            law_particles_counted(nodes, i + 1, list, k + 1);
        } else {
            law_particles_counted(nodes, i + 1, list, k);
        }
    }
}

// -------------------------------------------------------------------- complex types

/// The content is what the first sequence, choice or group among the nodes from `i`
/// on says; there is none where there is no such node.
pub open spec fn content_mirrors(nodes: Seq<XmlNodeModel>, i: nat, found: ComplexContentModel) -> bool
    decreases nodes.len() - i,
{
    if i >= nodes.len() {
        found is Empty
    } else {
        match nodes[i as int] {
            XmlNodeModel::Element(e) => if e.local == "sequence"@ {
                found matches ComplexContentModel::Sequence(s) && mirror_from(
                    e.children,
                    0,
                    s.particles,
                    0,
                )
            } else if e.local == "choice"@ {
                found matches ComplexContentModel::Choice(c) && mirror_from(
                    e.children,
                    0,
                    c.branches,
                    0,
                )
            } else if e.local == "group"@ {
                found matches ComplexContentModel::Sequence(s) && s.particles.len() == 1 && mirrors(
                    e,
                    s.particles[0],
                )
            } else {
                content_mirrors(nodes, i + 1, found)
            },
            _ => content_mirrors(nodes, i + 1, found),
        }
    }
}

#[verifier::spinoff_prover]
proof fn lemma_content_behind(nodes: Seq<XmlNodeModel>, i: nat, j: nat, found: ComplexContentModel)
    requires
        i <= j <= nodes.len(),
        forall|m: int|
            i <= m < j ==> ((#[trigger] nodes[m]) matches XmlNodeModel::Element(e)
                ==> !markup::part_of(Content::Complex, e.local)),
    ensures
        content_mirrors(nodes, i, found) == content_mirrors(nodes, j, found),
    decreases j - i,
{
    if i < j {
        assert(nodes[i as int] matches XmlNodeModel::Element(e) ==> !markup::part_of(
            Content::Complex,
            e.local,
        ));
        lemma_content_behind(nodes, i + 1, j, found);
    }
}

#[verifier::spinoff_prover]
proof fn lemma_content(st: XsdParserModel, nodes: Seq<XmlNodeModel>, i: nat)
    requires
        i < nodes.len() ==> (nodes[i as int] matches XmlNodeModel::Element(e) && markup::part_of(
            Content::Complex,
            e.local,
        )),
    ensures
        particles::content_from(st, nodes, i) matches Ok((_, (found, _))) ==> content_mirrors(
            nodes,
            i,
            found,
        ),
{
    reveal(particles::content_from);
    reveal(particles::sequence_read);
    reveal(particles::choice_read);
    reveal(content::group_ref_read);
    lemma_kinds_differ();
    if i < nodes.len() {
        let e = nodes[i as int]->Element_0;
        law_sequence_mirrors(st, e);
        law_choice_mirrors(st, e);
    }
}

#[verifier::spinoff_prover]
proof fn lemma_complex_stored(
    st: XsdParserModel,
    name: Seq<char>,
    found: ComplexContentModel,
    p: DfdlPropsModel,
)
    ensures
        strmap::lookup(particles::complex_stored(st, Some(name), found, p).doc.types, name)
            matches Some(TypeDefModel::Complex { name: n, content: c, .. }) && n == name && c
            == found,
{
    strmap::law_lookup_stored(
        st.doc.types,
        name,
        TypeDefModel::Complex {
            name,
            content: found,
            props: p,
            format_context: st.doc.format_defaults.props,
            source_label: st.doc.schema_source_label,
        },
    );
}

/// A complex type that is read is stored under its name with the content that stands
/// in it.
#[verifier::spinoff_prover]
pub proof fn law_complex_type_stored(
    st: XsdParserModel,
    inline: Option<Seq<char>>,
    e: XmlElementModel,
    name: Seq<char>,
)
    requires
        inline == Some(name) || (inline is None && strmap::lookup(e.attributes, "name"@) == Some(
            name,
        )),
    ensures
        particles::complex_read(st, inline, e) matches Ok(after) ==> (strmap::lookup(
            after.doc.types,
            name,
        ) matches Some(TypeDefModel::Complex { name: n, content: found, .. }) && n == name
            && content_mirrors(e.children, 0, found)),
{
    reveal(particles::complex_read);
    reveal(particles::content_from);
    lemma_no_annotation();
    let p = crate::ast::no_props();
    lemma_markup_ends(st, p, e.children, 0, Content::Complex);
    if let Ok((st1, (q, i))) = markup::markup_from(st, p, e.children, 0, Content::Complex) {
        lemma_content(st1, e.children, i);
        if let Ok((st2, (found, j))) = particles::content_from(st1, e.children, i) {
            lemma_content_behind(e.children, 0, i, found);
            lemma_complex_stored(st2, name, found, q);
        }
    }
}

/// A type stands at `k`, and no other before it.
pub open spec fn first_type_at(nodes: Seq<XmlNodeModel>, k: int) -> bool {
    &&& 0 <= k < nodes.len()
    &&& (nodes[k] matches XmlNodeModel::Element(c) && (c.local == "complexType"@ || c.local
        == "simpleType"@))
    &&& forall|m: int|
        0 <= m < k ==> !((#[trigger] nodes[m]) matches XmlNodeModel::Element(c) && (c.local
            == "complexType"@ || c.local == "simpleType"@))
}

#[verifier::spinoff_prover]
proof fn lemma_inline(st: XsdParserModel, nodes: Seq<XmlNodeModel>, i: nat)
    requires
        i < nodes.len(),
        nodes[i as int] matches XmlNodeModel::Element(c) && c.local == "complexType"@,
    ensures
        particles::inline_read(st, nodes, i) matches Ok((after, (t, j))) ==> (strmap::lookup(
            after.doc.types,
            t,
        ) matches Some(TypeDefModel::Complex { content: found, .. }) && content_mirrors(
            nodes[i as int]->Element_0.children,
            0,
            found,
        )),
{
    reveal(particles::inline_read);
    reveal(particles::complex_read);
    let name = crate::resolver::inline_name("complex"@, st.resolver.inline_types);
    law_complex_type_stored(
        content::named_inline(st),
        Some(name),
        nodes[i as int]->Element_0,
        name,
    );
}

/// An element without a named type whose type is a complex type in it has a type that
/// is stored with the content of that.
#[verifier::spinoff_prover]
pub proof fn law_inline_type_stored(st: XsdParserModel, e: XmlElementModel, k: int)
    requires
        strmap::lookup(attrs::plain_part("element"@, e.attributes), "type"@) is None,
        strmap::lookup(attrs::plain_part("element"@, e.attributes), "ref"@) is None,
        first_type_at(e.children, k),
        e.children[k]->Element_0.local == "complexType"@,
    ensures
        particles::element_read(st, e) matches Ok((after, d)) ==> (strmap::lookup(
            after.doc.types,
            d.type_ref,
        ) matches Some(TypeDefModel::Complex { content: found, .. }) && content_mirrors(
            e.children[k]->Element_0.children,
            0,
            found,
        )),
{
    reveal(particles::element_read);
    let st0 = particles::suppressing(st, attrs::suppressed(e.attributes));
    lemma_inner_inline(st0, e, k);
    assert(particles::element_read(st, e) matches Ok((after, d)) ==> (
    particles::element_inner(st0, e) matches Ok((x, y)) && x.doc == after.doc && y == d)) by {
        reveal(particles::element_inner);
    }
}

#[verifier::spinoff_prover]
proof fn lemma_inner_inline(st: XsdParserModel, e: XmlElementModel, k: int)
    requires
        strmap::lookup(content::plain_of(e), "type"@) is None,
        strmap::lookup(content::plain_of(e), "ref"@) is None,
        first_type_at(e.children, k),
        e.children[k]->Element_0.local == "complexType"@,
    ensures
        particles::element_inner(st, e) matches Ok((after, d)) ==> type_mirrors(
            after,
            d.type_ref,
            e.children[k]->Element_0,
        ),
{
    reveal(particles::element_inner);
    reveal(particles::element_untyped);
    let plain = content::plain_of(e);
    if let Some(name) = content::element_name(plain) {
        let st2 = particles::head_checked(st, e);
        let p = crate::xsd::state::element_props(st2, content::stated_by(st, e).0, plain);
        let head = particles::HeadModel {
            name,
            reference: None,
            named: strmap::lookup(plain, "name"@) is Some,
            default: strmap::lookup(plain, "default"@),
            typed: None,
        };
        lemma_untyped_inline(st2, e, head, p, k);
    }
}

/// The type with this name is stored with the content of the element.
spec fn type_mirrors(st: XsdParserModel, name: Seq<char>, e: XmlElementModel) -> bool {
    strmap::lookup(st.doc.types, name) matches Some(TypeDefModel::Complex { content: found, .. })
        && content_mirrors(e.children, 0, found)
}

#[verifier::spinoff_prover]
proof fn lemma_untyped_inline(
    st: XsdParserModel,
    e: XmlElementModel,
    h: particles::HeadModel,
    p: DfdlPropsModel,
    k: int,
)
    requires
        first_type_at(e.children, k),
        e.children[k]->Element_0.local == "complexType"@,
    ensures
        particles::element_untyped(st, e, h, p) matches Ok((after, d)) ==> type_mirrors(
            after,
            d.type_ref,
            e.children[k]->Element_0,
        ),
{
    reveal(particles::element_untyped);
    lemma_no_annotation();
    lemma_markup_ends(st, p, e.children, 0, Content::Untyped);
    if let Ok((st2, (_, i))) = markup::markup_from(st, p, e.children, 0, Content::Untyped) {
        if i < e.children.len() {
            assert(nodes_part(e.children, i as int));
        }
        assert(nodes_part(e.children, k));
        if i == k {
            lemma_inline(st2, e.children, i);
            reveal(particles::inline_read);
        }
    }
}

spec fn nodes_part(nodes: Seq<XmlNodeModel>, k: int) -> bool {
    nodes[k] matches XmlNodeModel::Element(c) && (c.local == "complexType"@ || c.local
        == "simpleType"@)
}

// ------------------------------------------------------------------------- globals

/// A global element that is read is stored under its name with the type that it
/// names.
#[verifier::spinoff_prover]
pub proof fn law_global_element_stored(st: XsdParserModel, e: XmlElementModel, name: Seq<char>)
    requires
        strmap::lookup(attrs::plain_part("element"@, e.attributes), "name"@) == Some(name),
        strmap::lookup(attrs::plain_part("element"@, e.attributes), "ref"@) is None,
        !name.contains(':'),
    ensures
        globals::global_read(st, e) matches Ok(after) ==> (strmap::lookup(
            after.doc.global_elements,
            qname::storage_key(name, after.doc.target_namespace),
        ) matches Some(g) && g.name == name && g.type_xsd_qname == strmap::lookup(
            attrs::plain_part("element"@, e.attributes),
            "type"@,
        )),
{
    reveal(globals::global_read);
    let st0 = globals::reading(
        st,
        attrs::suppressed(e.attributes),
        strmap::lookup(e.attributes, "name"@),
    );
    lemma_global_stored(st0, e, name);
}

/// A global element without a named type whose type is a complex type in it is stored
/// with a type that is stored with the content of that.
#[verifier::spinoff_prover]
pub proof fn law_global_inline_type_stored(
    st: XsdParserModel,
    e: XmlElementModel,
    name: Seq<char>,
    k: int,
)
    requires
        strmap::lookup(attrs::plain_part("element"@, e.attributes), "name"@) == Some(name),
        strmap::lookup(attrs::plain_part("element"@, e.attributes), "ref"@) is None,
        strmap::lookup(attrs::plain_part("element"@, e.attributes), "type"@) is None,
        !name.contains(':'),
        first_type_at(e.children, k),
        e.children[k]->Element_0.local == "complexType"@,
    ensures
        globals::global_read(st, e) matches Ok(after) ==> (strmap::lookup(
            after.doc.types,
            strmap::lookup(
                after.doc.global_elements,
                qname::storage_key(name, after.doc.target_namespace),
            )->0.type_ref,
        ) matches Some(TypeDefModel::Complex { content: found, .. }) && content_mirrors(
            e.children[k]->Element_0.children,
            0,
            found,
        )),
{
    reveal(globals::global_read);
    let st0 = globals::reading(
        st,
        attrs::suppressed(e.attributes),
        strmap::lookup(e.attributes, "name"@),
    );
    lemma_global_inline(st0, e, name, k);
}

#[verifier::spinoff_prover]
proof fn lemma_global_inline(st: XsdParserModel, e: XmlElementModel, name: Seq<char>, k: int)
    requires
        !name.contains(':'),
        strmap::lookup(content::plain_of(e), "type"@) is None,
        first_type_at(e.children, k),
        e.children[k]->Element_0.local == "complexType"@,
    ensures
        globals::global_named(st, e, name) matches Ok(after) ==> (strmap::lookup(
            after.doc.types,
            strmap::lookup(
                after.doc.global_elements,
                qname::storage_key(name, after.doc.target_namespace),
            )->0.type_ref,
        ) matches Some(TypeDefModel::Complex { content: found, .. }) && content_mirrors(
            e.children[k]->Element_0.children,
            0,
            found,
        )),
{
    lemma_no_annotation();
    let st1 = globals::global_checked(st, e, name);
    let p = crate::xsd::state::element_props(
        st1,
        content::stated_by(st, e).0,
        content::plain_of(e),
    );
    lemma_markup_ends(st1, p, e.children, 0, Content::Untyped);
    lemma_not_at_end(e.children, 0, k);
    assert(globals::global_named(st, e, name) == globals::global_untyped(st1, e, name, p));
    if let Ok((st2, (q, i))) = markup::markup_from(st1, p, e.children, 0, Content::Untyped) {
        assert(i == k) by {
            if i < k {
                assert(nodes_part(e.children, i as int));
            }
            if k < i {
                assert(nodes_part(e.children, k));
            }
        }
        lemma_inline(st2, e.children, i);
        if let Ok((st3, (t, j))) = particles::inline_read(st2, e.children, i) {
            lemma_with_global(st3, name, true, None, t, q);
        }
    }
}

#[verifier::spinoff_prover]
proof fn lemma_not_at_end(nodes: Seq<XmlNodeModel>, i: nat, k: int)
    requires
        i <= k < nodes.len(),
        nodes[k] is Element,
    ensures
        !crate::xsd::nodes::at_end(nodes, i),
    decreases k - i,
{
    if i < k {
        lemma_not_at_end(nodes, i + 1, k);
    }
}

#[verifier::spinoff_prover]
proof fn lemma_with_global(
    st: XsdParserModel,
    name: Seq<char>,
    prefixed: bool,
    typed: Option<(Seq<char>, Seq<(Seq<char>, Seq<char>)>)>,
    type_ref: Seq<char>,
    p: DfdlPropsModel,
)
    ensures
        ({
            let after = globals::global_stored(st, name, prefixed, typed, type_ref, p);
            &&& after.doc.types == st.doc.types
            &&& after.doc.target_namespace == st.doc.target_namespace
            &&& (strmap::lookup(
                after.doc.global_elements,
                qname::storage_key(name, after.doc.target_namespace),
            ) matches Some(g) && g.name == name && g.type_ref == type_ref && g.type_xsd_qname
                == match typed {
                Some((t, _)) => Some(t),
                None => None,
            })
        }),
{
    let after = globals::global_stored(st, name, prefixed, typed, type_ref, p);
    let g = crate::ast::GlobalElementModel {
        name,
        type_qname_prefixed: prefixed,
        type_xsd_qname: match typed {
            Some((t, _)) => Some(t),
            None => None,
        },
        type_qname_scope: match typed {
            Some((_, s)) => Some(s),
            None => None,
        },
        type_ref,
        props: crate::xsd::state::finalized(st.doc, p),
        format_context: st.doc.format_defaults.props,
        source_label: st.doc.schema_source_label,
    };
    strmap::law_lookup_stored(
        st.doc.global_elements,
        qname::storage_key(name, st.doc.target_namespace),
        g,
    );
}

#[verifier::spinoff_prover]
proof fn lemma_global_stored(st: XsdParserModel, e: XmlElementModel, name: Seq<char>)
    requires
        !name.contains(':'),
    ensures
        globals::global_named(st, e, name) matches Ok(after) ==> (strmap::lookup(
            after.doc.global_elements,
            qname::storage_key(name, after.doc.target_namespace),
        ) matches Some(g) && g.name == name && g.type_xsd_qname == strmap::lookup(
            content::plain_of(e),
            "type"@,
        )),
{
    let plain = content::plain_of(e);
    let scope = crate::xsd::state::scope_of(st, e.namespaces);
    let st1 = globals::global_checked(st, e, name);
    let p = crate::xsd::state::element_props(st1, content::stated_by(st, e).0, plain);
    match strmap::lookup(plain, "type"@) {
        Some(t) => {
            if let Ok((st3, (type_ref, q))) = particles::type_overridden(
                st1,
                e,
                content::type_stated(st1, t, scope),
                p,
            ) {
                lemma_with_global(st3, name, t.contains(':'), Some((t, scope)), type_ref, q);
            }
        },
        None => {
            lemma_with_global(st1, name, false, None, "xs:string"@, p);
            if let Ok((st2, (q, i))) = markup::markup_from(
                st1,
                p,
                e.children,
                0,
                Content::Untyped,
            ) {
                lemma_with_global(st2, name, true, None, "xs:string"@, q);
                if let Ok((st3, (t, j))) = particles::inline_read(st2, e.children, i) {
                    lemma_with_global(st3, name, true, None, t, q);
                }
            }
        },
    }
}

/// A global group that is read is stored under its name as the sequence or the choice
/// that stands in it.
#[verifier::spinoff_prover]
pub proof fn law_group_stored(st: XsdParserModel, e: XmlElementModel, name: Seq<char>)
    requires
        strmap::lookup(attrs::plain_part("group"@, e.attributes), "name"@) == Some(name),
    ensures
        globals::group_read(st, e) matches Ok(after) ==> exists|k: int|
            0 <= k < e.children.len() && ((#[trigger] e.children[k]) matches XmlNodeModel::Element(
                c,
            ) && (strmap::lookup(after.doc.groups, name) matches Some(g) && match g {
                GroupDeclModel::Sequence(s) => c.local == "sequence"@ && mirror_from(
                    c.children,
                    0,
                    s.particles,
                    0,
                ),
                GroupDeclModel::Choice(d) => c.local == "choice"@ && mirror_from(
                    c.children,
                    0,
                    d.branches,
                    0,
                ),
            })),
{
    reveal(globals::group_read);
    if let Ok(i) = globals::group_start(e.children, 0) {
        if i < e.children.len() {
            if let XmlNodeModel::Element(c) = e.children[i as int] {
                law_sequence_mirrors(st, c);
                law_choice_mirrors(st, c);
                if let Ok((st2, s)) = particles::sequence_read(st, c) {
                    strmap::law_lookup_stored(st2.doc.groups, name, GroupDeclModel::Sequence(s));
                }
                if let Ok((st2, d)) = particles::choice_read(st, c) {
                    strmap::law_lookup_stored(st2.doc.groups, name, GroupDeclModel::Choice(d));
                }
            }
        }
    }
}

} // verus!
