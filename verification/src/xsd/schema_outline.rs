//! How a schema corresponds to the document it is read from.

use vstd::prelude::*;
use crate::ast::{SchemaDocumentModel, TypeDefModel};
use crate::attrs;
use crate::error::ErrorModel;
use crate::qname;
use crate::resolver;
use crate::resolver::SchemaResolverModel;
use crate::strmap;
use crate::xml;
use crate::xml::{XmlElementModel, XmlNodeModel};
use crate::xsd::checks;
use crate::xsd::document;
use crate::xsd::globals;
use crate::xsd::nodes;
use crate::xsd::outline;
use crate::xsd::particles;
use crate::xsd::simple;
use crate::xsd::simple_outline;
use crate::xsd::state::XsdParserModel;

verus! {

broadcast use vstd::string::group_string_axioms;

proof fn lemma_part_names()
    ensures
        "element"@ != "complexType"@,
        "element"@ != "simpleType"@,
        "element"@ != "group"@,
        "complexType"@ != "simpleType"@,
        "complexType"@ != "group"@,
        "simpleType"@ != "group"@,
        "element"@ != "include"@,
        "element"@ != "import"@,
        "complexType"@ != "include"@,
        "complexType"@ != "import"@,
        "simpleType"@ != "include"@,
        "simpleType"@ != "import"@,
        "group"@ != "include"@,
        "group"@ != "import"@,
{
    reveal_strlit("element");
    reveal_strlit("complexType");
    reveal_strlit("simpleType");
    reveal_strlit("group");
    reveal_strlit("include");
    reveal_strlit("import");
    assert("element"@.len() == 7 && "complexType"@.len() == 11 && "simpleType"@.len() == 10);
    assert("group"@.len() == 5 && "include"@.len() == 7 && "import"@.len() == 6);
    assert("element"@[0] == 'e' && "include"@[0] == 'i');
}

/// Of the parts of a schema, just those that include or import take another one in.
#[verifier::spinoff_prover]
pub proof fn law_other_schemas_taken(st: XsdParserModel, e: XmlElementModel)
    ensures
        document::part_read(st, e) is None <==> e.local == "include"@ || e.local == "import"@,
{
    reveal(document::part_read);
    lemma_part_names();
}

/// A complex type of a schema is stored with the content that stands in it.
#[verifier::spinoff_prover]
pub proof fn law_complex_types_stored(st: XsdParserModel, e: XmlElementModel, name: Seq<char>)
    requires
        e.local == "complexType"@,
        strmap::lookup(e.attributes, "name"@) == Some(name),
    ensures
        document::part_read(st, e) matches Some(Ok(after)) ==> (strmap::lookup(
            after.doc.types,
            name,
        ) matches Some(TypeDefModel::Complex { content, .. }) && outline::content_mirrors(
            e.children,
            0,
            content,
        )),
{
    lemma_part_names();
    outline::law_complex_type_stored(st, None, e, name);
    assert(document::part_read(st, e) == Some(particles::complex_read(st, None, e))) by {
        reveal(document::part_read);
    }
}

/// A simple type of a schema, unless it is empty, is stored with the base that stands in
/// it.
#[verifier::spinoff_prover]
pub proof fn law_simple_types_stored(st: XsdParserModel, e: XmlElementModel, name: Seq<char>)
    requires
        e.local == "simpleType"@,
        strmap::lookup(e.attributes, "name"@) == Some(name),
        !nodes::at_end(e.children, 0),
    ensures
        document::part_read(st, e) matches Some(Ok(after)) ==> (strmap::lookup(
            after.doc.types,
            name,
        ) matches Some(TypeDefModel::Simple { base, .. }) && simple_outline::base_mirrors(
            e.children,
            0,
            base,
        )),
{
    lemma_part_names();
    simple_outline::law_simple_type_stored(st, None, e, name);
    assert(document::part_read(st, e) == Some(simple::simple_read(st, None, e))) by {
        reveal(document::part_read);
    }
}

/// A group of a schema is stored under its name.
#[verifier::spinoff_prover]
pub proof fn law_groups_stored(st: XsdParserModel, e: XmlElementModel, name: Seq<char>)
    requires
        e.local == "group"@,
        strmap::lookup(attrs::plain_part("group"@, e.attributes), "name"@) == Some(name),
    ensures
        document::part_read(st, e) == Some(globals::group_read(st, e)),
        document::part_read(st, e) matches Some(Ok(after)) ==> strmap::lookup(
            after.doc.groups,
            name,
        ) is Some,
{
    lemma_part_names();
    outline::law_group_stored(st, e, name);
    reveal(document::part_read);
}

/// A global element of a schema is stored under its name in the namespace of the schema.
#[verifier::spinoff_prover]
pub proof fn law_global_elements_stored(st: XsdParserModel, e: XmlElementModel, name: Seq<char>)
    requires
        e.local == "element"@,
        strmap::lookup(attrs::plain_part("element"@, e.attributes), "name"@) == Some(name),
        strmap::lookup(attrs::plain_part("element"@, e.attributes), "ref"@) is None,
        !name.contains(':'),
    ensures
        document::part_read(st, e) == Some(globals::global_read(st, e)),
        document::part_read(st, e) matches Some(Ok(after)) ==> (strmap::lookup(
            after.doc.global_elements,
            qname::storage_key(name, after.doc.target_namespace),
        ) matches Some(g) && g.name == name),
{
    lemma_part_names();
    outline::law_global_element_stored(st, e, name);
    assert(document::part_read(st, e) == Some(globals::global_read(st, e))) by {
        reveal(document::part_read);
    }
}

/// Reading this node leads from one state of the reader to the other.
pub open spec fn leads_to(
    st: XsdParserModel,
    n: XmlNodeModel,
    after: XsdParserModel,
    depth: nat,
) -> bool {
    match n {
        XmlNodeModel::Element(e) => if e.local == "include"@ || e.local == "import"@ {
            document::taken(st, e, depth) == Ok::<XsdParserModel, ErrorModel>(after)
        } else {
            document::part_read(st, e) == Some(Ok::<XsdParserModel, ErrorModel>(after))
        },
        _ => after == st,
    }
}

/// A schema is read part by part: where a part leads the reader on, the parts behind it are
/// read from there; and behind the last part the reader is done.
#[verifier::spinoff_prover]
pub proof fn law_next_part_read(
    st: XsdParserModel,
    nodes: Seq<XmlNodeModel>,
    i: nat,
    depth: nat,
    next: XsdParserModel,
)
    ensures
        i >= nodes.len() ==> document::parts_from(st, nodes, i, depth) == Ok::<
            XsdParserModel,
            ErrorModel,
        >(st),
        i < nodes.len() && nodes[i as int] is Element && leads_to(
            st,
            nodes[i as int],
            next,
            depth,
        ) ==> document::parts_from(st, nodes, i, depth) == document::parts_from(
            next,
            nodes,
            i + 1,
            depth,
        ),
{
    reveal(document::parts_from);
    if i < nodes.len() && nodes[i as int] is Element {
        let e = nodes[i as int]->Element_0;
        law_other_schemas_taken(st, e);
        if e.local == "include"@ || e.local == "import"@ {
            reveal(document::taken);
        }
    }
}

/// Types that get a context keep their names and what they are made of.
pub proof fn law_contexts_change_nothing_else(
    types: Seq<(Seq<char>, TypeDefModel)>,
    defaults: crate::ast::DfdlPropsModel,
)
    ensures
        checks::contexts_filled(types, defaults).len() == types.len(),
        forall|i: int|
            0 <= i < types.len() ==> (#[trigger] checks::contexts_filled(types, defaults)[i]).0
                == types[i].0 && match types[i].1 {
                TypeDefModel::Complex { name, content, props, .. } => (
                checks::contexts_filled(types, defaults)[i].1 matches TypeDefModel::Complex {
                    name: n,
                    content: c,
                    props: p,
                    ..
                } && n == name && c == content && p == props),
                TypeDefModel::Simple { name, base, props, .. } => (
                checks::contexts_filled(types, defaults)[i].1 matches TypeDefModel::Simple {
                    name: n,
                    base: b,
                    props: p,
                    ..
                } && n == name && b == base && p == props),
            },
{
    reveal(checks::contexts_filled);
}

/// A schema that was read has the global elements, groups and formats with which the
/// reader ended, and as many types; it was read in the namespace that it states.
#[verifier::spinoff_prover]
pub proof fn law_schema_is_what_was_read(
    source: Seq<char>,
    items: Seq<xml::XmlItemModel>,
    m: SchemaResolverModel,
    label: Option<Seq<char>>,
    depth: nat,
    doc: SchemaDocumentModel,
    n: u64,
)
    requires
        document::schema_read(source, items, m, label, depth) == Ok::<
            (SchemaDocumentModel, u64),
            ErrorModel,
        >((doc, n)),
    ensures
        document::roots_from(
            document::begun(source, m, label),
            xml::tree_spec(items),
            0,
            depth,
        ) matches Ok(st) && {
            &&& doc.global_elements == st.doc.global_elements
            &&& doc.groups == st.doc.groups
            &&& doc.named_formats == st.doc.named_formats
            &&& doc.named_escape_schemes == st.doc.named_escape_schemes
            &&& doc.target_namespace == st.doc.target_namespace
            &&& doc.format_defaults == st.doc.format_defaults
            &&& doc.types == checks::contexts_filled(st.doc.types, st.doc.format_defaults.props)
            &&& st.doc.schema_diagnostics.is_prefix_of(doc.schema_diagnostics)
        },
{
    reveal(document::schema_read);
    reveal(document::roots_from);
    reveal(document::completed);
    let st = document::roots_from(
        document::begun(source, m, label),
        xml::tree_spec(items),
        0,
        depth,
    )->Ok_0;
    assert(doc.schema_diagnostics.take(st.doc.schema_diagnostics.len() as int)
        =~= st.doc.schema_diagnostics);
}

/// A document of one schema element is read as the parts that stand in it, in the
/// namespace that it states.
#[verifier::spinoff_prover]
pub proof fn law_one_schema_read(st: XsdParserModel, e: XmlElementModel, depth: nat)
    requires
        e.local == "schema"@,
    ensures
        document::roots_from(st, seq![XmlNodeModel::Element(e)], 0, depth)
            == document::parts_from(document::schema_begun(st, e), e.children, 0, depth),
        document::schema_begun(st, e).doc.target_namespace == strmap::lookup(
            e.attributes,
            "targetNamespace"@,
        ),
        document::schema_begun(st, e).doc.types == st.doc.types,
        document::schema_begun(st, e).doc.global_elements == st.doc.global_elements,
{
    reveal_with_fuel(document::roots_from, 3);
    reveal_with_fuel(document::parts_from, 3);
    reveal(document::schema_begun);
}

/// A schema that was taken in already is not taken in again.
#[verifier::spinoff_prover]
pub proof fn law_schema_taken_once(
    st: XsdParserModel,
    e: XmlElementModel,
    depth: nat,
    location: Seq<char>,
)
    requires
        strmap::lookup(e.attributes, "schemaLocation"@) == Some(location),
        nodes::flaw(e) is None,
        st.resolver.included.contains(resolver::include_key(st.resolver, location)),
    ensures
        document::taken(st, e, depth) == Ok::<XsdParserModel, ErrorModel>(st),
{
    reveal(document::taken);
}

} // verus!
