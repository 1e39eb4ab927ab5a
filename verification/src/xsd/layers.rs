//! How formats lie under properties, and what a schema has of those it takes in.

use vstd::prelude::*;
use crate::ast;
use crate::ast::{DfdlPropsModel, GlobalElementModel, SchemaDocumentModel};
use crate::attrs;
use crate::error::ErrorModel;
use crate::merge;
use crate::numbers;
use crate::qname;
use crate::strmap;
use crate::text;
use crate::xml::{XmlElementModel, XmlNodeModel};
use crate::xsd::annotation;
use crate::xsd::appinfo;
use crate::xsd::combine;
use crate::xsd::combine::SchemaMergeKind;
use crate::xsd::markup;
use crate::xsd::markup::Content;
use crate::xsd::nodes;
use crate::xsd::state;
use crate::xsd::state::XsdParserModel;

verus! {

broadcast use vstd::string::group_string_axioms;

// ------------------------------------------------------------------------- formats

/// Properties that refer to no format stay as they are; those that refer to one lie over
/// it; and a terminator that neither states is that of the defaults.
#[verifier::spinoff_prover]
pub proof fn law_format_underneath(doc: SchemaDocumentModel, p: DfdlPropsModel, name: Seq<char>)
    ensures
        p.statements.format_ref is None ==> state::finalized(doc, p) == p,
        p.statements.format_ref == Some(name) ==> {
            let q = state::finalized(doc, p);
            let base = match qname::stored_under(doc, doc.named_formats, name) {
                Some(b) => b,
                None => ast::no_props(),
            };
            &&& merge::stated_wins(
                base.physical.byte_order,
                p.physical.byte_order,
                q.physical.byte_order,
            )
            &&& merge::stated_wins(base.physical.encoding, p.physical.encoding, q.physical.encoding)
            &&& merge::stated_wins(
                base.physical.representation,
                p.physical.representation,
                q.physical.representation,
            )
            &&& merge::stated_wins(base.length.length, p.length.length, q.length.length)
            &&& merge::stated_wins(
                base.length.length_kind,
                p.length.length_kind,
                q.length.length_kind,
            )
            &&& merge::stated_wins(
                base.delimiters.separator,
                p.delimiters.separator,
                q.delimiters.separator,
            )
            &&& (p.delimiters.initiator matches Some(i) && i.len() > 0 ==> q.delimiters.initiator
                == p.delimiters.initiator)
            &&& (p.delimiters.terminator is Some ==> q.delimiters.terminator
                == p.delimiters.terminator)
            &&& (p.delimiters.terminator is None && base.delimiters.terminator is Some
                ==> q.delimiters.terminator == base.delimiters.terminator)
            &&& (p.delimiters.terminator is None && base.delimiters.terminator is None
                ==> q.delimiters.terminator
                == doc.format_defaults.props.delimiters.terminator)
            &&& (qname::stored_under(doc, doc.named_formats, name) is Some ==> {
                &&& q.physical == merge::merge_spec(base, p).physical
                &&& q.length == merge::merge_spec(base, p).length
                &&& q.text == merge::merge_spec(base, p).text
                &&& q.number == merge::merge_spec(base, p).number
                &&& q.binary == merge::merge_spec(base, p).binary
                &&& q.calendar == merge::merge_spec(base, p).calendar
                &&& q.occurs == merge::merge_spec(base, p).occurs
                &&& q.choice == merge::merge_spec(base, p).choice
                &&& q.calc == merge::merge_spec(base, p).calc
            })
            &&& (qname::stored_under(doc, doc.named_formats, name) is None ==> q.physical
                == p.physical && q.length == p.length && q.text == p.text && q.occurs == p.occurs)
        },
{
    reveal(state::finalized);
    reveal(state::unreferenced);
    reveal(state::initiator_stripped);
    reveal(state::terminated);
    let base = qname::stored_under(doc, doc.named_formats, name);
    if p.statements.format_ref == Some(name) && base is Some {
        let own = state::initiator_stripped(state::unreferenced(p));
        lemma_same_groups(base->0, own, p);
        merge::law_physical_stated_wins(base->0, p);
        merge::law_length_stated_wins(base->0, p);
        merge::law_delimiters_stated_wins(base->0, own);
    }
}

#[verifier::spinoff_prover]
proof fn lemma_same_groups(base: DfdlPropsModel, a: DfdlPropsModel, b: DfdlPropsModel)
    requires
        a.physical == b.physical,
        a.length == b.length,
        a.text == b.text,
        a.number == b.number,
        a.binary == b.binary,
        a.calendar == b.calendar,
        a.occurs == b.occurs,
        a.choice == b.choice,
        a.calc == b.calc,
    ensures
        ({
            let x = merge::merge_spec(base, a);
            let y = merge::merge_spec(base, b);
            &&& x.physical == y.physical
            &&& x.length == y.length
            &&& x.text == y.text
            &&& x.number == y.number
            &&& x.binary == y.binary
            &&& x.calendar == y.calendar
            &&& x.occurs == y.occurs
            &&& x.choice == y.choice
            &&& x.calc == y.calc
        }),
{
    reveal(merge::merge_spec);
}

/// A format annotation outside a definition of a format sets the defaults: what it
/// states, over the format that it names; and where it names one, that over the defaults
/// there were.
#[verifier::spinoff_prover]
pub proof fn law_format_sets_defaults(
    st: XsdParserModel,
    p: DfdlPropsModel,
    a: Seq<(Seq<char>, Seq<char>)>,
    base: DfdlPropsModel,
)
    requires
        !st.in_define_format,
        match strmap::lookup(a, "ref"@) {
            Some(name) => qname::stored_under(st.doc, st.doc.named_formats, name) == Some(base),
            None => p.statements.format_ref is None && base == ast::no_props(),
        },
    ensures
        ({
            let q = appinfo::format_applied(st, p, a).doc.format_defaults.props;
            let old = if strmap::lookup(a, "ref"@) is Some {
                st.doc.format_defaults.props
            } else {
                ast::no_props()
            };
            &&& (p.physical.byte_order is Some ==> q.physical.byte_order == p.physical.byte_order)
            &&& (p.physical.byte_order is None && base.physical.byte_order is Some
                ==> q.physical.byte_order == base.physical.byte_order)
            &&& (p.physical.byte_order is None && base.physical.byte_order is None
                ==> q.physical.byte_order == old.physical.byte_order)
            &&& (p.physical.encoding is Some ==> q.physical.encoding == p.physical.encoding)
            &&& (p.physical.encoding is None && base.physical.encoding is Some
                ==> q.physical.encoding == base.physical.encoding)
            &&& (p.length.length_kind is Some ==> q.length.length_kind == p.length.length_kind)
            &&& (p.length.length_kind is None && base.length.length_kind is Some
                ==> q.length.length_kind == base.length.length_kind)
            &&& (p.delimiters.separator is Some ==> q.delimiters.separator
                == p.delimiters.separator)
            &&& (p.delimiters.separator is None && base.delimiters.separator is Some
                ==> q.delimiters.separator == base.delimiters.separator)
        }),
{
    reveal(appinfo::format_applied);
    reveal(appinfo::format_stated);
    reveal(annotation::zone_open);
    reveal(annotation::policy_open);
    let q = appinfo::format_stated(st, p, a);
    merge::law_physical_stated_wins(base, p);
    merge::law_length_stated_wins(base, p);
    merge::law_delimiters_stated_wins(base, p);
    merge::law_physical_stated_wins(st.doc.format_defaults.props, q);
    merge::law_length_stated_wins(st.doc.format_defaults.props, q);
    merge::law_delimiters_stated_wins(st.doc.format_defaults.props, q);
}

/// Inside the definition of a format the defaults stay as they are.
#[verifier::spinoff_prover]
pub proof fn law_definition_leaves_defaults(
    st: XsdParserModel,
    p: DfdlPropsModel,
    a: Seq<(Seq<char>, Seq<char>)>,
)
    requires
        st.in_define_format,
    ensures
        appinfo::format_applied(st, p, a) == st,
{
    reveal(appinfo::format_applied);
}

/// A format is stored under its name in the namespace of the schema, once.
#[verifier::spinoff_prover]
pub proof fn law_format_stored_once(st: XsdParserModel, name: Seq<char>, p: DfdlPropsModel)
    ensures
        strmap::lookup(
            st.doc.named_formats,
            qname::storage_key(name, st.doc.target_namespace),
        ) is Some ==> appinfo::format_stored(st, Some(name), p) is Err,
        strmap::lookup(
            st.doc.named_formats,
            qname::storage_key(name, st.doc.target_namespace),
        ) is None ==> (appinfo::format_stored(st, Some(name), p) matches Ok((after, q)) && q == p
            && (strmap::lookup(
            after.doc.named_formats,
            qname::storage_key(name, st.doc.target_namespace),
        ) matches Some(r) && r.physical == p.physical && r.length == p.length)),
{
    reveal(annotation::zone_open);
    strmap::law_lookup_stored(
        st.doc.named_formats,
        qname::storage_key(name, st.doc.target_namespace),
        annotation::zone_open(p),
    );
}

/// An element occurs at most once unless its attributes or properties say otherwise, and
/// can be nil where its attributes say so; what its attributes state holds.
#[verifier::spinoff_prover]
pub proof fn law_element_properties(
    st: XsdParserModel,
    stated: DfdlPropsModel,
    plain: Seq<(Seq<char>, Seq<char>)>,
)
    requires
        stated.statements.format_ref is None,
    ensures
        ({
            let q = state::element_props(st, stated, plain);
            &&& q.physical.byte_order == stated.physical.byte_order
            &&& q.physical.encoding == stated.physical.encoding
            &&& q.length.length_kind == stated.length.length_kind
            &&& q.length.length == stated.length.length
            &&& q.delimiters.initiator == stated.delimiters.initiator
            &&& q.delimiters.terminator == stated.delimiters.terminator
            &&& q.delimiters.separator == stated.delimiters.separator
            &&& (strmap::lookup(plain, "nillable"@) == Some("true"@) ==> q.occurs.nillable == Some(
                true,
            ))
            &&& q.occurs.max_occurs_specified
            &&& (attrs::xsd_value(plain, "maxOccurs"@) == Some("unbounded"@)
                ==> q.occurs.occurs_max is None)
            &&& (attrs::xsd_value(plain, "maxOccurs"@) is Some && attrs::xsd_value(
                plain,
                "maxOccurs"@,
            ) != Some("unbounded"@) && numbers::u64_spec(
                attrs::xsd_value(plain, "maxOccurs"@)->0,
            ) is Some ==> q.occurs.occurs_max == numbers::u64_spec(
                attrs::xsd_value(plain, "maxOccurs"@)->0,
            ))
            &&& (attrs::xsd_value(plain, "maxOccurs"@) is None
                && !stated.occurs.max_occurs_specified ==> q.occurs.occurs_max == Some(1u64))
            &&& (attrs::xsd_value(plain, "minOccurs"@) is Some && numbers::u64_spec(
                attrs::xsd_value(plain, "minOccurs"@)->0,
            ) is Some ==> q.occurs.occurs_min == numbers::u64_spec(
                attrs::xsd_value(plain, "minOccurs"@)->0,
            ))
            &&& (attrs::xsd_value(plain, "minOccurs"@) is None ==> q.occurs.occurs_min
                == stated.occurs.occurs_min)
        }),
{
    reveal(state::element_props);
    let p = merge::merge_spec(ast::no_props(), stated);
    merge::law_physical_stated_wins(ast::no_props(), stated);
    merge::law_length_stated_wins(ast::no_props(), stated);
    merge::law_delimiters_stated_wins(ast::no_props(), stated);
    merge::law_occurs_stated_wins(ast::no_props(), stated);
    merge::law_statements_stated_wins(ast::no_props(), stated);
    assert(state::finalized(st.doc, p) == p) by {
        reveal(state::finalized);
    }
}

// ------------------------------------------------------------------ other schemas

#[verifier::spinoff_prover]
proof fn lemma_overlaid<V>(base: Seq<(Seq<char>, V)>, over: Seq<(Seq<char>, V)>)
    requires
        strmap::ascending(base),
        strmap::ascending(over),
    ensures
        strmap::ascending(attrs::overlaid(base, over)),
        forall|k: Seq<char>| #[trigger]
            strmap::lookup(attrs::overlaid(base, over), k) == if strmap::lookup(over, k) is Some {
                strmap::lookup(over, k)
            } else {
                strmap::lookup(base, k)
            },
    decreases over.len(),
{
    if over.len() > 0 {
        let less = over.drop_last();
        assert forall|i: int, j: int| 0 <= i < j < less.len() implies strmap::before(
            #[trigger] less[i].0,
            #[trigger] less[j].0,
        ) by {
            assert(less[i] == over[i] && less[j] == over[j]);
        }
        lemma_overlaid(base, less);
        let (key, v) = over.last();
        let before = attrs::overlaid(base, less);
        strmap::law_with_entry_ascending(before, key, v);
        strmap::law_lookup_stored(before, key, v);
        lemma_last(over);
        assert forall|k: Seq<char>| #[trigger]
            strmap::lookup(attrs::overlaid(base, over), k) == if strmap::lookup(over, k) is Some {
                strmap::lookup(over, k)
            } else {
                strmap::lookup(base, k)
            } by {
            if k != key {
                strmap::law_lookup_other(before, key, v, k);
                strmap::law_lookup_other(less, key, v, k);
            } else {
                strmap::law_lookup_stored(less, key, v);
            }
        }
    } else {
        assert forall|k: Seq<char>| #[trigger] strmap::lookup(over, k) is None by {
            strmap::lemma_rank(over, k);
        }
    }
}

/// The last entry of ordered entries is the one stored behind the others.
#[verifier::spinoff_prover]
proof fn lemma_last<V>(m: Seq<(Seq<char>, V)>)
    requires
        strmap::ascending(m),
        m.len() > 0,
    ensures
        strmap::with_entry(m.drop_last(), m.last().0, m.last().1) == m,
{
    let less = m.drop_last();
    let (key, v) = m.last();
    strmap::lemma_rank(less, key);
    let n = strmap::rank(less, key);
    if n < less.len() {
        assert(less[n] == m[n]);
        assert(strmap::before(m[n].0, m[m.len() - 1].0));
    }
    assert(less.insert(n, (key, v)) =~= m);
}

/// A schema that takes another one in keeps its own global elements, and has those of the
/// other.
#[verifier::spinoff_prover]
pub proof fn law_elements_taken(
    own: Seq<(Seq<char>, GlobalElementModel)>,
    taken: Seq<(Seq<char>, GlobalElementModel)>,
    ns: Option<Seq<char>>,
)
    requires
        strmap::ascending(own),
    ensures
        strmap::ascending(combine::elements_taken(own, taken, ns).0),
        forall|k: Seq<char>|
            strmap::lookup(own, k) is Some ==> #[trigger] strmap::lookup(
                combine::elements_taken(own, taken, ns).0,
                k,
            ) == strmap::lookup(own, k),
        forall|i: int|
            0 <= i < taken.len() ==> strmap::lookup(
                combine::elements_taken(own, taken, ns).0,
                combine::element_key_taken((#[trigger] taken[i]).0, ns),
            ) is Some,
        forall|i: int|
            0 <= i < taken.len() && strmap::lookup(
                own,
                combine::element_key_taken((#[trigger] taken[i]).0, ns),
            ) is Some && strmap::lookup(
                own,
                combine::element_key_taken(taken[i].0, ns),
            ) != Some(taken[i].1) ==> combine::elements_taken(own, taken, ns).1.len() > 0,
    decreases taken.len(),
{
    if taken.len() > 0 {
        let less = taken.drop_last();
        law_elements_taken(own, less, ns);
        let (before, said) = combine::elements_taken(own, less, ns);
        let (k, g) = taken.last();
        let key = combine::element_key_taken(k, ns);
        let after = combine::elements_taken(own, taken, ns).0;
        if strmap::lookup(before, key) is None {
            strmap::law_with_entry_ascending(before, key, g);
            strmap::law_lookup_stored(before, key, g);
            assert forall|n: Seq<char>|
                strmap::lookup(own, n) is Some implies #[trigger] strmap::lookup(after, n)
                == strmap::lookup(own, n) by {
                assert(strmap::lookup(before, n) == strmap::lookup(own, n));
                strmap::law_lookup_other(before, key, g, n);
            }
        }
        assert forall|i: int| 0 <= i < taken.len() implies strmap::lookup(
            after,
            combine::element_key_taken((#[trigger] taken[i]).0, ns),
        ) is Some by {
            if i < less.len() {
                assert(less[i] == taken[i]);
                let n = combine::element_key_taken(taken[i].0, ns);
                if strmap::lookup(before, key) is None && n != key {
                    strmap::law_lookup_other(before, key, g, n);
                }
            }
        }
        assert forall|i: int|
            0 <= i < taken.len() && strmap::lookup(
                own,
                combine::element_key_taken((#[trigger] taken[i]).0, ns),
            ) is Some && strmap::lookup(
                own,
                combine::element_key_taken(taken[i].0, ns),
            ) != Some(taken[i].1) implies combine::elements_taken(own, taken, ns).1.len() > 0 by {
            if i < less.len() {
                assert(less[i] == taken[i]);
                assert(said.len() > 0);
            } else {
                assert(strmap::lookup(before, key) == strmap::lookup(own, key));
            }
        }
    }
}

/// A schema that takes another one in has the types and groups of both, those of the other
/// one before its own of the same name; it keeps its own global elements and has those of
/// the other; and nothing that was said of either is lost.
#[verifier::spinoff_prover]
pub proof fn law_schema_taken_in(
    doc: SchemaDocumentModel,
    other: SchemaDocumentModel,
    kind: SchemaMergeKind,
)
    requires
        strmap::ascending(doc.types),
        strmap::ascending(other.types),
        strmap::ascending(doc.groups),
        strmap::ascending(other.groups),
        strmap::ascending(doc.global_elements),
    ensures
        ({
            let all = combine::taken_in(doc, other, kind);
            &&& forall|k: Seq<char>|
                strmap::lookup(other.types, k) is Some ==> #[trigger] strmap::lookup(all.types, k)
                    == strmap::lookup(other.types, k)
            &&& forall|k: Seq<char>|
                strmap::lookup(other.types, k) is None ==> #[trigger] strmap::lookup(all.types, k)
                    == strmap::lookup(doc.types, k)
            &&& forall|k: Seq<char>|
                strmap::lookup(other.groups, k) is Some ==> #[trigger] strmap::lookup(
                    all.groups,
                    k,
                ) == strmap::lookup(other.groups, k)
            &&& forall|k: Seq<char>|
                strmap::lookup(other.groups, k) is None ==> #[trigger] strmap::lookup(
                    all.groups,
                    k,
                ) == strmap::lookup(doc.groups, k)
            &&& forall|k: Seq<char>|
                strmap::lookup(doc.global_elements, k) is Some ==> #[trigger] strmap::lookup(
                    all.global_elements,
                    k,
                ) == strmap::lookup(doc.global_elements, k)
            &&& all.schema_diagnostics.take(doc.schema_diagnostics.len() as int)
                == doc.schema_diagnostics
            &&& all.schema_diagnostics.len() >= doc.schema_diagnostics.len()
                + other.schema_diagnostics.len()
            &&& all.schema_warnings == doc.schema_warnings + other.schema_warnings
            &&& all.target_namespace == doc.target_namespace
            &&& (kind == SchemaMergeKind::Import ==> all.format_defaults.props.physical
                == doc.format_defaults.props.physical)
            &&& (kind == SchemaMergeKind::Include ==> merge::stated_wins(
                doc.format_defaults.props.physical.byte_order,
                other.format_defaults.props.physical.byte_order,
                all.format_defaults.props.physical.byte_order,
            ))
        }),
{
    reveal(combine::taken_in);
    reveal(combine::defaults_taken);
    lemma_overlaid(doc.types, other.types);
    lemma_overlaid(doc.groups, other.groups);
    let ns = combine::namespace_taken(kind, other.target_namespace, doc.target_namespace);
    law_elements_taken(doc.global_elements, other.global_elements, ns);
    reveal(annotation::zone_open);
    merge::law_physical_stated_wins(doc.format_defaults.props, other.format_defaults.props);
    let all = combine::taken_in(doc, other, kind);
    assert(all.schema_diagnostics.take(doc.schema_diagnostics.len() as int)
        =~= doc.schema_diagnostics);
}

// --------------------------------------------------------------------------- names

/// A name without a prefix means the global element of that name in the namespace of the
/// schema, where there is one.
#[verifier::spinoff_prover]
pub proof fn law_global_element_found(schema: SchemaDocumentModel, name: Seq<char>)
    requires
        !name.contains(':'),
        strmap::lookup(
            schema.global_elements,
            qname::storage_key(name, schema.target_namespace),
        ) is Some,
    ensures
        qname::global_element(schema, name) == strmap::lookup(
            schema.global_elements,
            qname::storage_key(name, schema.target_namespace),
        ),
{
    reveal(qname::global_element);
    lemma_no_colon(name);
}

/// A name with a prefix that the schema binds means the global element of that name in the
/// namespace that is bound, where there is one with a type other than string.
#[verifier::spinoff_prover]
pub proof fn law_prefixed_element_found(
    schema: SchemaDocumentModel,
    name: Seq<char>,
    prefix: Seq<char>,
    uri: Seq<char>,
    g: GlobalElementModel,
)
    requires
        qname::prefix_spec(name) == Some(prefix),
        strmap::lookup(schema.namespace_prefixes, prefix) == Some(uri),
        strmap::lookup(
            schema.global_elements,
            qname::storage_key(qname::local_spec(name), Some(uri)),
        ) == Some(g),
        g.type_ref != "xs:string"@,
    ensures
        qname::global_element(schema, name) == Some(g),
{
    reveal(qname::global_element);
}

#[verifier::spinoff_prover]
proof fn lemma_no_colon(name: Seq<char>)
    requires
        !name.contains(':'),
    ensures
        qname::local_spec(name) == name,
        qname::prefix_spec(name) is None,
        text::split_once_spec(name, ':') is None,
{
    text::lemma_char_rpos(name, ':');
    text::lemma_char_pos(name, ':');
}

/// A format that is referred to without a prefix is looked for without a namespace, then in
/// that of the schema.
#[verifier::spinoff_prover]
pub proof fn law_format_found<V>(
    schema: SchemaDocumentModel,
    entries: Seq<(Seq<char>, V)>,
    name: Seq<char>,
)
    requires
        !name.contains(':'),
    ensures
        qname::stored_under(schema, entries, name) == if strmap::lookup(
            entries,
            qname::storage_key(name, None),
        ) is Some {
            strmap::lookup(entries, qname::storage_key(name, None))
        } else {
            strmap::lookup(entries, qname::storage_key(name, schema.target_namespace))
        },
{
    reveal(qname::stored_under);
    lemma_no_colon(name);
}

/// A format that is referred to with a prefix is looked for first in the namespace that the
/// prefix stands for.
#[verifier::spinoff_prover]
pub proof fn law_prefixed_format_found<V>(
    schema: SchemaDocumentModel,
    entries: Seq<(Seq<char>, V)>,
    name: Seq<char>,
    prefix: Seq<char>,
    local: Seq<char>,
    uri: Seq<char>,
)
    requires
        text::split_once_spec(name, ':') == Some((prefix, local)),
        strmap::lookup(schema.namespace_prefixes, prefix) == Some(uri),
        strmap::lookup(entries, qname::storage_key(local, Some(uri))) is Some,
    ensures
        qname::stored_under(schema, entries, name) == strmap::lookup(
            entries,
            qname::storage_key(local, Some(uri)),
        ),
{
    reveal(qname::stored_under);
    if !name.contains(':') {
        lemma_no_colon(name);
    }
}

/// A type that is named without a prefix is the builtin one of that name, or else the one
/// of the schema.
#[verifier::spinoff_prover]
pub proof fn law_type_named(
    schema: SchemaDocumentModel,
    name: Seq<char>,
    scope: Option<Seq<(Seq<char>, Seq<char>)>>,
)
    requires
        !name.contains(':'),
    ensures
        qname::type_of_qname(schema, name, scope) matches Ok(t) && t == if ast::builtin_spec(
            name,
        ) is Some {
            "xs:"@ + name
        } else {
            name
        },
{
    reveal(qname::type_of_qname);
    lemma_no_colon(name);
}

/// A prefix for XML Schema leads to builtin types alone, and is an error where there is
/// none; any other prefix that is bound leads to the type of that name in the schema, where
/// there is one.
#[verifier::spinoff_prover]
pub proof fn law_prefixed_type_named(
    schema: SchemaDocumentModel,
    name: Seq<char>,
    scope: Option<Seq<(Seq<char>, Seq<char>)>>,
    prefix: Seq<char>,
    rest: Seq<char>,
    uri: Seq<char>,
)
    requires
        text::split_once_spec(name, ':') == Some((prefix, rest)),
        qname::scoped_uri(schema, scope, prefix) == Some(uri),
    ensures
        uri == qname::XSD_NS@ ==> match qname::type_of_qname(schema, name, scope) {
            Ok(found) => found == "xs:"@ + qname::local_spec(rest) && ast::builtin_spec(
                found,
            ) is Some,
            Err(_) => ast::builtin_spec("xs:"@ + qname::local_spec(rest)) is None,
        },
        uri != qname::XSD_NS@ && strmap::lookup(schema.types, qname::local_spec(rest)) is Some ==> (
        qname::type_of_qname(schema, name, scope) matches Ok(found) && found == qname::local_spec(
            rest,
        )),
{
    reveal(qname::type_of_qname);
}

// --------------------------------------------------------------------- annotations

/// The properties of an annotation before the content of a declaration lie over those that
/// stand in its attributes, and the reader goes on behind it.
#[verifier::spinoff_prover]
pub proof fn law_annotation_laid_over(
    st: XsdParserModel,
    p: DfdlPropsModel,
    nodes: Seq<XmlNodeModel>,
    i: nat,
    content: Content,
    after: XsdParserModel,
    q: DfdlPropsModel,
)
    requires
        i < nodes.len(),
        nodes[i as int] matches XmlNodeModel::Element(e) && e.local == "annotation"@
            && markup::annotation_read(st, e) == Ok::<
            (XsdParserModel, DfdlPropsModel),
            ErrorModel,
        >((after, q)),
    ensures
        markup::markup_from(st, p, nodes, i, content) == markup::markup_from(
            after,
            merge::merge_spec(p, q),
            nodes,
            i + 1,
            content,
        ),
{
}

/// The properties of a piece of application information lie over those of the pieces before
/// it.
#[verifier::spinoff_prover]
pub proof fn law_appinfo_laid_over(
    st: XsdParserModel,
    p: DfdlPropsModel,
    nodes: Seq<XmlNodeModel>,
    i: nat,
    after: XsdParserModel,
    q: DfdlPropsModel,
)
    requires
        i < nodes.len(),
        nodes[i as int] matches XmlNodeModel::Element(e) && e.local == "appinfo"@
            && markup::appinfo_read(st, e) == Ok::<(XsdParserModel, DfdlPropsModel), ErrorModel>(
            (after, q),
        ),
    ensures
        markup::appinfos_from(st, p, nodes, i) == markup::appinfos_from(
            after,
            merge::merge_spec(p, q),
            nodes,
            i + 1,
        ),
{
}

/// The properties of a DFDL annotation lie over those of the annotations before it, unless
/// it only defines something.
#[verifier::spinoff_prover]
pub proof fn law_statement_laid_over(
    st: XsdParserModel,
    p: DfdlPropsModel,
    source: Option<Seq<char>>,
    nodes: Seq<XmlNodeModel>,
    i: nat,
    after: XsdParserModel,
    q: DfdlPropsModel,
)
    requires
        source is Some,
        i < nodes.len(),
        nodes[i as int] matches XmlNodeModel::Element(e) && attrs::dfdl_element(
            e.prefix,
            e.local,
            e.namespace,
        ) && appinfo::annotated(st, e) == Ok::<(XsdParserModel, DfdlPropsModel), ErrorModel>(
            (after, q),
        ),
    ensures
        ({
            let local = nodes[i as int]->Element_0.local;
            let defines = local == "defineFormat"@ || local == "defineEscapeScheme"@ || local
                == "defineVariable"@;
            &&& (!defines ==> markup::annotations_from(st, p, source, nodes, i)
                == markup::annotations_from(
                after,
                merge::merge_spec(p, q),
                source,
                nodes,
                i + 1,
            ))
            &&& (defines ==> markup::annotations_from(st, p, source, nodes, i)
                == markup::annotations_from(after, p, source, nodes, i + 1))
        }),
{
}

/// Application information of another source than DFDL states nothing.
#[verifier::spinoff_prover]
pub proof fn law_foreign_appinfo_ignored(st: XsdParserModel, e: XmlElementModel, source: Seq<char>)
    requires
        strmap::lookup(e.attributes, "source"@) == Some(source),
        source != attrs::DFDL_NS@,
        source != attrs::DFDL_LEGACY_NS@,
        nodes::flaw(e) is None,
    ensures
        markup::appinfo_read(st, e) == Ok::<(XsdParserModel, DfdlPropsModel), ErrorModel>(
            (st, ast::no_props()),
        ),
{
    reveal(markup::appinfo_read);
}

/// What is said of a schema is added to what was said before.
pub proof fn law_complaints_added(st: XsdParserModel, said: Seq<Seq<char>>)
    ensures
        state::complained(st, said).doc.schema_diagnostics == st.doc.schema_diagnostics + said,
        state::complained(st, said).doc.types == st.doc.types,
        state::complained(st, said).doc.global_elements == st.doc.global_elements,
        state::complained(st, said).doc.schema_warnings == st.doc.schema_warnings,
{
}

/// A warning is kept, for the element being read where there is one, unless it is to be
/// left out.
pub proof fn law_warnings_kept(st: XsdParserModel, id: Seq<char>, lines: Seq<Seq<char>>)
    ensures
        state::left_out(st.suppress, id) ==> state::warned(st, id, lines) == st,
        !state::left_out(st.suppress, id) && st.scope is None ==> state::warned(
            st,
            id,
            lines,
        ).doc.schema_warnings == st.doc.schema_warnings + lines,
        !state::left_out(st.suppress, id) && st.scope is Some ==> (strmap::lookup(
            state::warned(st, id, lines).doc.scoped_schema_warnings,
            st.scope->0,
        ) matches Some(w) && w == (match strmap::lookup(
            st.doc.scoped_schema_warnings,
            st.scope->0,
        ) {
            Some(old) => old,
            None => Seq::empty(),
        }) + lines),
{
    if let Some(scope) = st.scope {
        strmap::law_lookup_stored(
            st.doc.scoped_schema_warnings,
            scope,
            state::under(st.doc.scoped_schema_warnings, scope, lines),
        );
        assert(Seq::<Seq<char>>::empty() + lines =~= lines);
    }
}

} // verus!
