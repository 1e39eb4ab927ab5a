//! How simple types correspond to the elements they are read from.

use vstd::prelude::*;
use crate::ast;
use crate::ast::{
    ParsedRestrictionFacetsModel, RestrictionBaseModel, SimpleBaseModel, TypeDefModel,
    UnionMemberModel,
};
use crate::numbers;
use crate::qname;
use crate::strmap;
use crate::text;
use crate::xml::{XmlElementModel, XmlNodeModel};
use crate::xsd::facets;
use crate::xsd::nodes;
use crate::xsd::simple;
use crate::xsd::state::XsdParserModel;

verus! {

broadcast use vstd::string::group_string_axioms;

// -------------------------------------------------------------------------- facets

/// The element at `i` states a facet of this name.
pub open spec fn facet_at(list: Seq<XmlNodeModel>, i: int, local: Seq<char>) -> bool {
    0 <= i < list.len() && (list[i] matches XmlNodeModel::Element(e) && e.local == local
        && strmap::lookup(e.attributes, "value"@) is Some)
}

/// The value of the facet that is stated at `i`.
pub open spec fn facet_value(list: Seq<XmlNodeModel>, i: int) -> Seq<char> {
    strmap::lookup(list[i]->Element_0.attributes, "value"@)->0
}

/// The values of the facets of this name from `i` on, in order.
pub open spec fn facet_values(list: Seq<XmlNodeModel>, i: nat, local: Seq<char>) -> Seq<Seq<char>>
    decreases list.len() - i,
{
    if i >= list.len() {
        Seq::empty()
    } else if facet_at(list, i as int, local) {
        seq![facet_value(list, i as int)] + facet_values(list, i + 1, local)
    } else {
        facet_values(list, i + 1, local)
    }
}

/// A count is the last one that is stated, where that is a number, and as before where
/// none is stated.
pub open spec fn count_read(
    values: Seq<Seq<char>>,
    before: Option<u64>,
    after: Option<u64>,
) -> bool {
    &&& (values.len() == 0 ==> after == before)
    &&& (values.len() > 0 && numbers::u64_spec(values.last()) is Some ==> after
        == numbers::u64_spec(values.last()))
}

/// A bound is the last one that is stated, and as before where none is stated.
pub open spec fn bound_read(
    values: Seq<Seq<char>>,
    before: Option<i64>,
    after: Option<i64>,
) -> bool {
    &&& (values.len() == 0 ==> after == before)
    &&& (values.len() > 0 ==> after == facets::facet_bound(values.last()))
}

/// Each facet is what the elements from `i` on state of it.
pub open spec fn facets_mirror(
    list: Seq<XmlNodeModel>,
    i: nat,
    f: ParsedRestrictionFacetsModel,
    g: ParsedRestrictionFacetsModel,
) -> bool {
    &&& count_read(facet_values(list, i, "length"@), f.length, g.length)
    &&& count_read(facet_values(list, i, "minLength"@), f.min_length, g.min_length)
    &&& count_read(facet_values(list, i, "maxLength"@), f.max_length, g.max_length)
    &&& count_read(facet_values(list, i, "totalDigits"@), f.total_digits, g.total_digits)
    &&& count_read(facet_values(list, i, "fractionDigits"@), f.fraction_digits, g.fraction_digits)
    &&& bound_read(facet_values(list, i, "minInclusive"@), f.min_inclusive, g.min_inclusive)
    &&& bound_read(facet_values(list, i, "maxInclusive"@), f.max_inclusive, g.max_inclusive)
    &&& bound_read(facet_values(list, i, "minExclusive"@), f.min_exclusive, g.min_exclusive)
    &&& bound_read(facet_values(list, i, "maxExclusive"@), f.max_exclusive, g.max_exclusive)
    &&& g.patterns == f.patterns + facet_values(list, i, "pattern"@)
    &&& g.enumerations == f.enumerations + facet_values(list, i, "enumeration"@)
}

proof fn lemma_facet_names()
    ensures
        "length"@ != "minLength"@,
        "length"@ != "maxLength"@,
        "length"@ != "totalDigits"@,
        "length"@ != "fractionDigits"@,
        "length"@ != "minInclusive"@,
        "length"@ != "maxInclusive"@,
        "length"@ != "minExclusive"@,
        "length"@ != "maxExclusive"@,
        "length"@ != "pattern"@,
        "length"@ != "enumeration"@,
        "minLength"@ != "maxLength"@,
        "minLength"@ != "totalDigits"@,
        "minLength"@ != "fractionDigits"@,
        "minLength"@ != "minInclusive"@,
        "minLength"@ != "maxInclusive"@,
        "minLength"@ != "minExclusive"@,
        "minLength"@ != "maxExclusive"@,
        "minLength"@ != "pattern"@,
        "minLength"@ != "enumeration"@,
        "maxLength"@ != "totalDigits"@,
        "maxLength"@ != "fractionDigits"@,
        "maxLength"@ != "minInclusive"@,
        "maxLength"@ != "maxInclusive"@,
        "maxLength"@ != "minExclusive"@,
        "maxLength"@ != "maxExclusive"@,
        "maxLength"@ != "pattern"@,
        "maxLength"@ != "enumeration"@,
        "totalDigits"@ != "fractionDigits"@,
        "totalDigits"@ != "minInclusive"@,
        "totalDigits"@ != "maxInclusive"@,
        "totalDigits"@ != "minExclusive"@,
        "totalDigits"@ != "maxExclusive"@,
        "totalDigits"@ != "pattern"@,
        "totalDigits"@ != "enumeration"@,
        "fractionDigits"@ != "minInclusive"@,
        "fractionDigits"@ != "maxInclusive"@,
        "fractionDigits"@ != "minExclusive"@,
        "fractionDigits"@ != "maxExclusive"@,
        "fractionDigits"@ != "pattern"@,
        "fractionDigits"@ != "enumeration"@,
        "minInclusive"@ != "maxInclusive"@,
        "minInclusive"@ != "minExclusive"@,
        "minInclusive"@ != "maxExclusive"@,
        "minInclusive"@ != "pattern"@,
        "minInclusive"@ != "enumeration"@,
        "maxInclusive"@ != "minExclusive"@,
        "maxInclusive"@ != "maxExclusive"@,
        "maxInclusive"@ != "pattern"@,
        "maxInclusive"@ != "enumeration"@,
        "minExclusive"@ != "maxExclusive"@,
        "minExclusive"@ != "pattern"@,
        "minExclusive"@ != "enumeration"@,
        "maxExclusive"@ != "pattern"@,
        "maxExclusive"@ != "enumeration"@,
        "pattern"@ != "enumeration"@,
{
    reveal_strlit("length");
    reveal_strlit("minLength");
    reveal_strlit("maxLength");
    reveal_strlit("totalDigits");
    reveal_strlit("fractionDigits");
    reveal_strlit("minInclusive");
    reveal_strlit("maxInclusive");
    reveal_strlit("minExclusive");
    reveal_strlit("maxExclusive");
    reveal_strlit("pattern");
    reveal_strlit("enumeration");
    assert("length"@.len() == 6 && "length"@[0] == 'l' && "length"@[1] == 'e' && "length"@[3] == 'g');
    assert("minLength"@.len() == 9 && "minLength"@[0] == 'm' && "minLength"@[1] == 'i' && "minLength"@[3] == 'L');
    assert("maxLength"@.len() == 9 && "maxLength"@[0] == 'm' && "maxLength"@[1] == 'a' && "maxLength"@[3] == 'L');
    assert("totalDigits"@.len() == 11 && "totalDigits"@[0] == 't' && "totalDigits"@[1] == 'o' && "totalDigits"@[3] == 'a');
    assert("fractionDigits"@.len() == 14 && "fractionDigits"@[0] == 'f' && "fractionDigits"@[1] == 'r' && "fractionDigits"@[3] == 'c');
    assert("minInclusive"@.len() == 12 && "minInclusive"@[0] == 'm' && "minInclusive"@[1] == 'i' && "minInclusive"@[3] == 'I');
    assert("maxInclusive"@.len() == 12 && "maxInclusive"@[0] == 'm' && "maxInclusive"@[1] == 'a' && "maxInclusive"@[3] == 'I');
    assert("minExclusive"@.len() == 12 && "minExclusive"@[0] == 'm' && "minExclusive"@[1] == 'i' && "minExclusive"@[3] == 'E');
    assert("maxExclusive"@.len() == 12 && "maxExclusive"@[0] == 'm' && "maxExclusive"@[1] == 'a' && "maxExclusive"@[3] == 'E');
    assert("pattern"@.len() == 7 && "pattern"@[0] == 'p' && "pattern"@[1] == 'a' && "pattern"@[3] == 't');
    assert("enumeration"@.len() == 11 && "enumeration"@[0] == 'e' && "enumeration"@[1] == 'n' && "enumeration"@[3] == 'm');
}

/// One facet more changes that facet alone.
#[verifier::spinoff_prover]
pub proof fn law_one_facet(f: ParsedRestrictionFacetsModel, local: Seq<char>, v: Seq<char>)
    ensures
        ({
            let g = facets::with_facet(f, local, v);
            &&& (local == "length"@ && numbers::u64_spec(v) is Some ==> g.length == numbers::u64_spec(v))
            &&& (local != "length"@ ==> g.length == f.length)
            &&& (local == "minLength"@ && numbers::u64_spec(v) is Some ==> g.min_length == numbers::u64_spec(v))
            &&& (local != "minLength"@ ==> g.min_length == f.min_length)
            &&& (local == "maxLength"@ && numbers::u64_spec(v) is Some ==> g.max_length == numbers::u64_spec(v))
            &&& (local != "maxLength"@ ==> g.max_length == f.max_length)
            &&& (local == "totalDigits"@ && numbers::u64_spec(v) is Some ==> g.total_digits == numbers::u64_spec(v))
            &&& (local != "totalDigits"@ ==> g.total_digits == f.total_digits)
            &&& (local == "fractionDigits"@ && numbers::u64_spec(v) is Some ==> g.fraction_digits == numbers::u64_spec(v))
            &&& (local != "fractionDigits"@ ==> g.fraction_digits == f.fraction_digits)
            &&& (local == "minInclusive"@ ==> g.min_inclusive == facets::facet_bound(v))
            &&& (local != "minInclusive"@ ==> g.min_inclusive == f.min_inclusive)
            &&& (local == "maxInclusive"@ ==> g.max_inclusive == facets::facet_bound(v))
            &&& (local != "maxInclusive"@ ==> g.max_inclusive == f.max_inclusive)
            &&& (local == "minExclusive"@ ==> g.min_exclusive == facets::facet_bound(v))
            &&& (local != "minExclusive"@ ==> g.min_exclusive == f.min_exclusive)
            &&& (local == "maxExclusive"@ ==> g.max_exclusive == facets::facet_bound(v))
            &&& (local != "maxExclusive"@ ==> g.max_exclusive == f.max_exclusive)
            &&& (local == "pattern"@ ==> g.patterns == f.patterns.push(v))
            &&& (local != "pattern"@ ==> g.patterns == f.patterns)
            &&& (local == "enumeration"@ ==> g.enumerations == f.enumerations.push(v))
            &&& (local != "enumeration"@ ==> g.enumerations == f.enumerations)
        }),
{
    reveal(facets::with_facet);
    lemma_facet_names();
}

proof fn lemma_values_behind(list: Seq<XmlNodeModel>, i: nat, local: Seq<char>)
    requires
        i < list.len(),
        facet_at(list, i as int, local),
    ensures
        facet_values(list, i, local).len() > 0,
        facet_values(list, i + 1, local).len() > 0 ==> facet_values(list, i, local).last()
            == facet_values(list, i + 1, local).last(),
        facet_values(list, i + 1, local).len() == 0 ==> facet_values(list, i, local).last()
            == facet_value(list, i as int),
{
}

/// The facets of a restriction that is read are those that its elements state: of the
/// counts and bounds the last of each name, of patterns and enumerated values all, in
/// order.
#[verifier::spinoff_prover]
pub proof fn law_facets_read(f: ParsedRestrictionFacetsModel, list: Seq<XmlNodeModel>, i: nat)
    ensures
        facets::facets_from(f, list, i) matches Ok(g) ==> facets_mirror(list, i, f, g),
    decreases list.len() - i,
{
    if i < list.len() {
        match list[i as int] {
            XmlNodeModel::Element(e) => {
                let h = facets::facet_added(f, e);
                law_facets_read(h, list, i + 1);
                if let Some(v) = strmap::lookup(e.attributes, "value"@) {
                    law_one_facet(f, e.local, v);
                    assert(facet_at(list, i as int, e.local));
                    lemma_values_behind(list, i, e.local);
                    if let Ok(g) = facets::facets_from(h, list, i + 1) {
                        assert(f.patterns.push(v) + facet_values(list, i + 1, "pattern"@)
                            =~= f.patterns + (seq![v] + facet_values(list, i + 1, "pattern"@)));
                        assert(f.enumerations.push(v) + facet_values(list, i + 1, "enumeration"@)
                            =~= f.enumerations + (seq![v] + facet_values(
                            list,
                            i + 1,
                            "enumeration"@,
                        )));
                    }
                }
            },
            _ => {
                law_facets_read(f, list, i + 1);
            },
        }
    } else {
        assert(f.patterns + Seq::empty() =~= f.patterns);
        assert(f.enumerations + Seq::empty() =~= f.enumerations);
    }
}

// ------------------------------------------------------------------------ one type

/// The restriction restricts the type that the element names, with the facets that
/// stand in it.
pub open spec fn restriction_mirrors(e: XmlElementModel, found: SimpleBaseModel) -> bool {
    found matches SimpleBaseModel::Restriction { base, facets: g, .. } && {
        let name = strmap::lookup(e.attributes, "base"@);
        let local = qname::local_spec(text::trim_spec(name->0));
        name is Some && simple::has_white(name->0) || {
            &&& facets_mirror(e.children, 0, ast::no_facets(), g)
            &&& (name is Some && ast::builtin_spec(local) is Some ==> base
                == RestrictionBaseModel::Builtin(ast::builtin_spec(local)->0))
            &&& (name is Some && ast::builtin_spec(local) is None ==> base
                == RestrictionBaseModel::Named(local))
            &&& (name is None ==> base is Builtin)
        }
    }
}

/// A restriction that is read restricts what its element names.
pub proof fn law_restriction_read(st: XsdParserModel, e: XmlElementModel)
    ensures
        simple::restriction_read(st, e) matches Ok((_, found)) ==> restriction_mirrors(e, found),
{
    reveal(simple::restriction_read);
    law_facets_read(ast::no_facets(), e.children, 0);
}

/// How many simple types stand from `i` on.
pub open spec fn count_types(list: Seq<XmlNodeModel>, i: nat) -> nat
    decreases list.len() - i,
{
    if i >= list.len() {
        0
    } else {
        count_types(list, i + 1) + if list[i as int] matches XmlNodeModel::Element(e) && e.local
            == "simpleType"@ {
            1nat
        } else {
            0nat
        }
    }
}

proof fn lemma_members(
    st: XsdParserModel,
    members: Seq<UnionMemberModel>,
    list: Seq<XmlNodeModel>,
    i: nat,
)
    ensures
        simple::members_from(st, members, list, i) matches Ok((_, all)) ==> {
            &&& all.len() == members.len() + count_types(list, i)
            &&& all.take(members.len() as int) == members
            &&& forall|k: int| members.len() <= k < all.len() ==> (#[trigger] all[k]) is Inline
        },
    decreases list.len() - i,
{
    if i < list.len() {
        match list[i as int] {
            XmlNodeModel::Element(e) => {
                if e.local == "simpleType"@ {
                    if let Ok((st2, (base, j))) = simple::base_from(st, e.children, 0) {
                        let more = members.push(UnionMemberModel::Inline(base));
                        lemma_members(st2, more, list, i + 1);
                        if let Ok((_, all)) = simple::members_from(st2, more, list, i + 1) {
                            assert(all.take(members.len() as int) =~= more.take(
                                members.len() as int,
                            ));
                            assert(more.take(members.len() as int) =~= members);
                            assert(all.take(more.len() as int)[members.len() as int]
                                == all[members.len() as int]);
                        }
                    }
                } else {
                    lemma_members(st, members, list, i + 1);
                }
            },
            _ => {
                lemma_members(st, members, list, i + 1);
            },
        }
    } else {
        assert(members.take(members.len() as int) =~= members);
    }
}

/// The union has the members that the element names, in order, and behind them one for
/// each type that stands in it.
pub open spec fn union_mirrors(e: XmlElementModel, found: SimpleBaseModel) -> bool {
    found matches SimpleBaseModel::Union { members } && {
        let words = match strmap::lookup(e.attributes, "memberTypes"@) {
            Some(raw) => text::words_spec(raw),
            None => Seq::empty(),
        };
        &&& members.len() == words.len() + count_types(e.children, 0)
        &&& forall|k: int|
            0 <= k < words.len() ==> (#[trigger] members[k]) == UnionMemberModel::Named(
                qname::local_spec(words[k]),
            )
        &&& forall|k: int| words.len() <= k < members.len() ==> (#[trigger] members[k]) is Inline
    }
}

/// The base of a type is the first restriction or union that stands in it.
pub open spec fn base_mirrors(list: Seq<XmlNodeModel>, i: nat, found: SimpleBaseModel) -> bool
    decreases list.len() - i,
{
    i < list.len() && match list[i as int] {
        XmlNodeModel::Element(e) => if e.local == "union"@ {
            union_mirrors(e, found)
        } else if e.local == "restriction"@ {
            restriction_mirrors(e, found)
        } else {
            base_mirrors(list, i + 1, found)
        },
        _ => base_mirrors(list, i + 1, found),
    }
}

/// The base of a simple type that is read is the first restriction or union that stands
/// in it.
pub proof fn law_base_read(st: XsdParserModel, list: Seq<XmlNodeModel>, i: nat)
    ensures
        simple::base_from(st, list, i) matches Ok((_, (found, _))) ==> base_mirrors(list, i, found),
    decreases list.len() - i,
{
    if i < list.len() {
        match list[i as int] {
            XmlNodeModel::Element(e) => {
                if e.local == "union"@ {
                    let named = simple::members_named(e.attributes);
                    lemma_members(st, named, e.children, 0);
                    if let Ok((_, all)) = simple::members_from(st, named, e.children, 0) {
                        assert forall|k: int| 0 <= k < named.len() implies (#[trigger] all[k])
                            == named[k] by {
                            assert(all.take(named.len() as int)[k] == all[k]);
                        }
                    }
                } else if e.local == "restriction"@ {
                    law_restriction_read(st, e);
                } else {
                    law_base_read(st, list, i + 1);
                }
            },
            _ => {
                law_base_read(st, list, i + 1);
            },
        }
    }
}

proof fn lemma_base_behind(list: Seq<XmlNodeModel>, i: nat, j: nat, found: SimpleBaseModel)
    requires
        i <= j <= list.len(),
        forall|m: int|
            i <= m < j ==> ((#[trigger] list[m]) matches XmlNodeModel::Element(e) ==> e.local
                != "union"@ && e.local != "restriction"@),
    ensures
        base_mirrors(list, i, found) == base_mirrors(list, j, found),
    decreases j - i,
{
    if i < j {
        assert(list[i as int] matches XmlNodeModel::Element(e) ==> e.local != "union"@ && e.local
            != "restriction"@);
        lemma_base_behind(list, i + 1, j, found);
    }
}

/// A simple type that is read is stored under its name with the base that stands in it.
#[verifier::spinoff_prover]
pub proof fn law_simple_type_stored(
    st: XsdParserModel,
    inline: Option<Seq<char>>,
    e: XmlElementModel,
    name: Seq<char>,
)
    requires
        inline == Some(name) || (inline is None && strmap::lookup(e.attributes, "name"@) == Some(
            name,
        )),
        !nodes::at_end(e.children, 0),
    ensures
        simple::simple_read(st, inline, e) matches Ok(after) ==> (strmap::lookup(
            after.doc.types,
            name,
        ) matches Some(TypeDefModel::Simple { name: n, base, .. }) && n == name && base_mirrors(
            e.children,
            0,
            base,
        )),
{
    reveal(simple::simple_read);
    crate::xsd::outline::lemma_no_annotation();
    if let Ok(stated) = crate::attrs::strict_props("simpleType"@, e.attributes) {
        let p = crate::xsd::state::finalized(
            st.doc,
            crate::merge::merge_spec(ast::no_props(), stated),
        );
        let c = crate::xsd::markup::Content::Simple;
        crate::xsd::outline::lemma_markup_ends(st, p, e.children, 0, c);
        if let Ok((st1, (q, i))) = crate::xsd::markup::markup_from(st, p, e.children, 0, c) {
            law_base_read(st1, e.children, i);
            if let Ok((st2, (base, j))) = simple::base_from(st1, e.children, i) {
                lemma_base_behind(e.children, 0, i, base);
                lemma_simple_stored(st2, name, base, q);
            }
        }
    }
}

proof fn lemma_simple_stored(
    st: XsdParserModel,
    name: Seq<char>,
    base: SimpleBaseModel,
    p: ast::DfdlPropsModel,
)
    ensures
        strmap::lookup(simple::simple_stored(st, Some(name), base, p).doc.types, name)
            matches Some(TypeDefModel::Simple { name: n, base: b, .. }) && n == name && b == base,
{
    strmap::law_lookup_stored(
        st.doc.types,
        name,
        TypeDefModel::Simple {
            name,
            base,
            props: simple::with_length(p, st.doc.format_defaults.props.length.length),
            format_context: st.doc.format_defaults.props,
            source_label: st.doc.schema_source_label,
        },
    );
}

} // verus!
