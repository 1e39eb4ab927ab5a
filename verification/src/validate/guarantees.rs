//! What can be relied on in a schema that can be used.

use vstd::prelude::*;
use crate::ast;
use crate::ast::{
    BuiltinType, ChoiceDeclModel, ComplexContentModel, ElementDeclModel, EscapeKind,
    EscapeSchemeDefModel, GlobalElementModel, GroupDeclModel, OccursCountKind, ParticleModel,
    RestrictionBaseModel, SchemaDocumentModel, SequenceDeclModel, SequenceKind, SimpleBaseModel,
    TypeDefModel,
};
use crate::entities;
use crate::qname;
use crate::strmap;
use crate::tdml::suite::{DaffodilTunablesModel, InvalidRestrictionPolicy};
use crate::text;
use crate::validate::choices;
use crate::validate::compiled;
use crate::validate::complex;
use crate::validate::complex::ComplexRule;
use crate::validate::delimiters;
use crate::validate::groups;
use crate::validate::hidden;
use crate::validate::peek;
use crate::validate::reach;
use crate::validate::restrictions;
use crate::validate::tunables;
use crate::validate::types;

verus! {

/// The schema can be used with this root and these settings.
pub open spec fn usable(
    schema: SchemaDocumentModel,
    root: Seq<char>,
    t: DaffodilTunablesModel,
) -> bool {
    compiled::compiled_fault(schema, root, t) is None
}

/// The particle is one of those from `i` on, or stands in a sequence or a choice among
/// them.
pub open spec fn stands_in(p: ParticleModel, list: Seq<ParticleModel>, i: nat) -> bool
    decreases list, list.len() - i,
{
    i < list.len() && (list[i as int] == p || (match list[i as int] {
        ParticleModel::Sequence(s) => stands_in(p, s.particles, 0),
        ParticleModel::Choice(c) => stands_in(p, c.branches, 0),
        _ => false,
    }) || stands_in(p, list, i + 1))
}

// -------------------------------------------------------------------- hidden groups

/// A sequence that names a hidden group holds nothing itself.
pub open spec fn hides_alone(s: SequenceDeclModel) -> bool {
    s.props.statements.hidden_group_ref is Some ==> s.particles.len() == 0
        && !s.had_markup_before_particles
        && !s.props.statements.hidden_group_ref_from_appinfo_sequence
}

#[verifier::spinoff_prover]
proof fn lemma_hides_alone(
    schema: SchemaDocumentModel,
    list: Seq<ParticleModel>,
    i: nat,
    depth: nat,
    s: SequenceDeclModel,
)
    requires
        groups::notation_fault(schema, list, i, depth) is None,
        stands_in(ParticleModel::Sequence(s), list, i),
    ensures
        hides_alone(s),
    decreases list, list.len() - i,
{
    let p = ParticleModel::Sequence(s);
    if list[i as int] != p && !stands_in(p, list, i + 1) {
        assert(decreases_to!(list => list[i as int]));
        match list[i as int] {
            ParticleModel::Sequence(q) => {
                assert(decreases_to!(list[i as int] => list[i as int]->Sequence_0));
                lemma_hides_alone(schema, q.particles, 0, depth, s);
            },
            ParticleModel::Choice(c) => {
                assert(decreases_to!(list[i as int] => list[i as int]->Choice_0));
                lemma_hides_alone(schema, c.branches, 0, depth, s);
            },
            _ => {},
        }
    } else if list[i as int] != p {
        lemma_hides_alone(schema, list, i + 1, depth, s);
    }
}

#[verifier::spinoff_prover]
proof fn lemma_type_notation(schema: SchemaDocumentModel, i: nat, k: int)
    requires
        groups::types_notation_fault(schema, i) is None,
        i <= k < schema.types.len(),
    ensures
        schema.types[k].1 matches TypeDefModel::Complex {
            content: ComplexContentModel::Sequence(s),
            ..
        } ==> groups::sequence_notation_fault(schema, s) is None,
    decreases k - i,
{
    if i < k {
        lemma_type_notation(schema, i + 1, k);
    }
}

#[verifier::spinoff_prover]
proof fn lemma_group_notation(schema: SchemaDocumentModel, i: nat, k: int)
    requires
        groups::groups_notation_fault(schema, i) is None,
        i <= k < schema.groups.len(),
    ensures
        match schema.groups[k].1 {
            GroupDeclModel::Sequence(s) => groups::sequence_notation_fault(schema, s) is None,
            GroupDeclModel::Choice(c) => groups::notation_fault(
                schema,
                c.branches,
                0,
                reach::group_depth(schema),
            ) is None,
        },
    decreases k - i,
{
    if i < k {
        lemma_group_notation(schema, i + 1, k);
    }
}

/// In a schema that can be used, a sequence of a complex type that names a hidden group
/// holds nothing itself, and neither does such a sequence inside.
#[verifier::spinoff_prover]
pub proof fn law_hidden_in_types(
    schema: SchemaDocumentModel,
    root: Seq<char>,
    t: DaffodilTunablesModel,
    k: int,
    s: SequenceDeclModel,
)
    requires
        usable(schema, root, t),
        0 <= k < schema.types.len(),
        schema.types[k].1 matches TypeDefModel::Complex {
            content: ComplexContentModel::Sequence(q),
            ..
        } && (q == s || stands_in(ParticleModel::Sequence(s), q.particles, 0)),
    ensures
        hides_alone(s),
{
    lemma_type_notation(schema, 0, k);
    if let TypeDefModel::Complex { content: ComplexContentModel::Sequence(q), .. } =
        schema.types[k].1 {
        if q != s {
            lemma_hides_alone(schema, q.particles, 0, reach::group_depth(schema), s);
        }
    }
}

/// In a schema that can be used, the same is so in groups, and the sequence of a group
/// names no hidden group at all.
#[verifier::spinoff_prover]
pub proof fn law_hidden_in_groups(
    schema: SchemaDocumentModel,
    root: Seq<char>,
    t: DaffodilTunablesModel,
    k: int,
)
    requires
        usable(schema, root, t),
        0 <= k < schema.groups.len(),
    ensures
        schema.groups[k].1 matches GroupDeclModel::Sequence(q)
            ==> q.props.statements.hidden_group_ref is None,
        forall|s: SequenceDeclModel|
            #![trigger hides_alone(s)]
            stands_in(
                ParticleModel::Sequence(s),
                match schema.groups[k].1 {
                    GroupDeclModel::Sequence(q) => q.particles,
                    GroupDeclModel::Choice(c) => c.branches,
                },
                0,
            ) ==> hides_alone(s),
{
    lemma_group_notation(schema, 0, k);
    lemma_group_hides(schema, 0, k);
    let list = match schema.groups[k].1 {
        GroupDeclModel::Sequence(q) => q.particles,
        GroupDeclModel::Choice(c) => c.branches,
    };
    assert forall|s: SequenceDeclModel|
        #![trigger hides_alone(s)]
        stands_in(ParticleModel::Sequence(s), list, 0) implies hides_alone(s) by {
        lemma_hides_alone(schema, list, 0, reach::group_depth(schema), s);
    }
}

#[verifier::spinoff_prover]
proof fn lemma_group_hides(schema: SchemaDocumentModel, i: nat, k: int)
    requires
        !groups::group_hides(schema, i),
        i <= k < schema.groups.len(),
    ensures
        schema.groups[k].1 matches GroupDeclModel::Sequence(q)
            ==> q.props.statements.hidden_group_ref is None,
    decreases k - i,
{
    if i < k {
        lemma_group_hides(schema, i + 1, k);
    }
}

/// A hidden group that can be written is there, and is not being written already; all
/// elements and groups of a hidden sequence, and a branch of a hidden choice, can be
/// written without an infoset.
#[verifier::spinoff_prover]
pub proof fn law_hidden_group_written(
    schema: SchemaDocumentModel,
    local: Seq<char>,
    named: Seq<char>,
    stack: Seq<Seq<char>>,
    depth: nat,
)
    requires
        hidden::group_fault(schema, local, named, stack, depth) is None,
    ensures
        !stack.contains(local),
        match strmap::lookup(schema.groups, local) {
            None => false,
            Some(GroupDeclModel::Sequence(s)) => forall|k: int|
                0 <= k < s.particles.len() && ((#[trigger] s.particles[k]) is Element
                    || s.particles[k] is GroupRef) ==> hidden::writable(
                    schema,
                    s.particles[k],
                    hidden::depth_limit(schema),
                ),
            Some(GroupDeclModel::Choice(c)) => exists|k: int|
                0 <= k < c.branches.len() && hidden::writable(
                    schema,
                    #[trigger] c.branches[k],
                    hidden::depth_limit(schema),
                ),
        },
{
    reveal(hidden::group_fault);
    match strmap::lookup(schema.groups, local) {
        Some(GroupDeclModel::Sequence(s)) => {
            lemma_none_reported(schema, s.particles, s.particles.len());
        },
        Some(GroupDeclModel::Choice(c)) => {
            lemma_some_writable(schema, c.branches, 0, hidden::depth_limit(schema));
        },
        None => {},
    }
}

#[verifier::spinoff_prover]
proof fn lemma_none_reported(schema: SchemaDocumentModel, list: Seq<ParticleModel>, n: nat)
    requires
        n <= list.len(),
        hidden::report(schema, list, n, false) is None,
    ensures
        forall|k: int|
            0 <= k < n && ((#[trigger] list[k]) is Element || list[k] is GroupRef)
                ==> hidden::writable(schema, list[k], hidden::depth_limit(schema)),
    decreases n,
{
    reveal(hidden::report);
    if n > 0 {
        lemma_none_reported(schema, list, (n - 1) as nat);
    }
}

#[verifier::spinoff_prover]
proof fn lemma_some_writable(
    schema: SchemaDocumentModel,
    list: Seq<ParticleModel>,
    i: nat,
    depth: nat,
)
    requires
        hidden::writable_from(schema, list, i, false, depth),
    ensures
        exists|k: int|
            i <= k < list.len() && hidden::writable(schema, #[trigger] list[k], depth),
    decreases list.len() - i,
{
    reveal(hidden::writable_from);
    reveal(hidden::writable);
    if i < list.len() && !hidden::writable(schema, list[i as int], depth) {
        lemma_some_writable(schema, list, i + 1, depth);
        let k = choose|k: int|
            i + 1 <= k < list.len() && hidden::writable(schema, #[trigger] list[k], depth);
        assert(hidden::writable(schema, list[k], depth));
    } else if i < list.len() {
        assert(hidden::writable(schema, list[i as int], depth));
    }
}

// ----------------------------------------------------------------- names and types

/// The name of an element, or of the one that it refers to.
pub open spec fn known_as(e: ElementDeclModel) -> Seq<char> {
    if e.element_ref is Some {
        e.element_ref->0
    } else {
        e.name
    }
}

/// Elements of one name have one type.
pub open spec fn one_type_each(list: Seq<ParticleModel>) -> bool {
    forall|i: int, j: int|
        #![trigger list[i], list[j]]
        0 <= i < j < list.len() && list[i] is Element && list[j] is Element && known_as(
            list[i]->Element_0,
        ) == known_as(list[j]->Element_0) ==> list[i]->Element_0.type_ref
            == list[j]->Element_0.type_ref
}

#[verifier::spinoff_prover]
proof fn lemma_branch_types(list: Seq<ParticleModel>, n: nat)
    requires
        n <= list.len(),
        restrictions::branches_fault(list, 0) is None,
    ensures
        strmap::ascending(restrictions::branch_types(list, n)),
        forall|i: int|
            0 <= i < n && (#[trigger] list[i]) is Element ==> strmap::lookup(
                restrictions::branch_types(list, n),
                known_as(list[i]->Element_0),
            ) == Some(list[i]->Element_0.type_ref),
    decreases n,
{
    if n > 0 {
        let m = (n - 1) as nat;
        lemma_branch_types(list, m);
        lemma_branch_agrees(list, 0, m);
        let before = restrictions::branch_types(list, m);
        if let ParticleModel::Element(e) = list[m as int] {
            if strmap::lookup(before, known_as(e)) is None {
                strmap::law_with_entry_ascending(before, known_as(e), e.type_ref);
                strmap::law_lookup_stored(before, known_as(e), e.type_ref);
                assert forall|i: int| 0 <= i < n && (#[trigger] list[i]) is Element implies strmap::lookup(
                    restrictions::branch_types(list, n),
                    known_as(list[i]->Element_0),
                ) == Some(list[i]->Element_0.type_ref) by {
                    if i < m {
                        strmap::law_lookup_other(
                            before,
                            known_as(e),
                            e.type_ref,
                            known_as(list[i]->Element_0),
                        );
                    }
                }
            }
        }
    }
}

#[verifier::spinoff_prover]
proof fn lemma_branch_agrees(list: Seq<ParticleModel>, i: nat, k: nat)
    requires
        i <= k < list.len(),
        restrictions::branches_fault(list, i) is None,
    ensures
        list[k as int] matches ParticleModel::Element(e) ==> (strmap::lookup(
            restrictions::branch_types(list, k),
            known_as(e),
        ) matches Some(t) ==> t == e.type_ref),
    decreases k - i,
{
    if i < k {
        lemma_branch_agrees(list, i + 1, k);
    }
}

#[verifier::spinoff_prover]
proof fn lemma_one_type(list: Seq<ParticleModel>)
    requires
        restrictions::branches_fault(list, 0) is None,
    ensures
        one_type_each(list),
{
    lemma_branch_types(list, list.len());
    assert forall|i: int, j: int|
        #![trigger list[i], list[j]]
        0 <= i < j < list.len() && list[i] is Element && list[j] is Element && known_as(
            list[i]->Element_0,
        ) == known_as(list[j]->Element_0) implies list[i]->Element_0.type_ref
        == list[j]->Element_0.type_ref by {
        let all = restrictions::branch_types(list, list.len());
        assert(strmap::lookup(all, known_as(list[i]->Element_0)) == Some(
            list[i]->Element_0.type_ref,
        ));
        assert(strmap::lookup(all, known_as(list[j]->Element_0)) == Some(
            list[j]->Element_0.type_ref,
        ));
    }
}

#[verifier::spinoff_prover]
proof fn lemma_types_branches(types: Seq<(Seq<char>, TypeDefModel)>, i: nat, k: int)
    requires
        i <= k < types.len(),
        restrictions::types_branches_fault(types, i) is None,
    ensures
        types[k].1 matches TypeDefModel::Complex {
            content: ComplexContentModel::Choice(c),
            ..
        } ==> restrictions::branches_fault(c.branches, 0) is None,
    decreases k - i,
{
    if i < k {
        lemma_types_branches(types, i + 1, k);
    }
}

/// In a schema that can be used, the branches of a complex type that is a choice do not
/// have one name and different types.
#[verifier::spinoff_prover]
pub proof fn law_branches_agree(
    schema: SchemaDocumentModel,
    root: Seq<char>,
    t: DaffodilTunablesModel,
    k: int,
    c: ChoiceDeclModel,
)
    requires
        usable(schema, root, t),
        0 <= k < schema.types.len(),
        schema.types[k].1 matches TypeDefModel::Complex { content, .. } && content
            == ComplexContentModel::Choice(c),
    ensures
        one_type_each(c.branches),
{
    lemma_types_branches(schema.types, 0, k);
    lemma_one_type(c.branches);
}

/// The default of an element fits its type, if that is the type of truth values.
pub open spec fn default_fits(type_ref: Seq<char>, default: Option<Seq<char>>) -> bool {
    (type_ref == "xs:boolean"@ || type_ref == "boolean"@) && default is Some ==> default == Some(
        "true"@,
    ) || default == Some("false"@) || default == Some("1"@) || default == Some("0"@)
}

#[verifier::spinoff_prover]
proof fn lemma_elements(list: Seq<ParticleModel>, i: nat, defaults: bool, k: int)
    requires
        i <= k < list.len(),
        types::elements_fault(list, i, defaults) is None,
        list[k] is Element,
    ensures
        defaults ==> default_fits(
            list[k]->Element_0.type_ref,
            list[k]->Element_0.props.occurs.default_value,
        ),
        !defaults ==> !(list[k]->Element_0.element_ref is Some
            && list[k]->Element_0.has_element_name_attr),
    decreases k - i,
{
    if i < k {
        lemma_elements(list, i + 1, defaults, k);
    }
}

#[verifier::spinoff_prover]
proof fn lemma_types_elements(
    all: Seq<(Seq<char>, TypeDefModel)>,
    i: nat,
    defaults: bool,
    k: int,
)
    requires
        i <= k < all.len(),
        types::types_elements_fault(all, i, defaults) is None,
    ensures
        all[k].1 matches TypeDefModel::Complex { content, .. } ==> types::elements_fault(
            reach::content_list(content),
            0,
            defaults,
        ) is None,
    decreases k - i,
{
    if i < k {
        lemma_types_elements(all, i + 1, defaults, k);
    }
}

/// In a schema that can be used, no element of a complex type has a name beside a
/// reference, and its default fits its type.
#[verifier::spinoff_prover]
pub proof fn law_elements_well_declared(
    schema: SchemaDocumentModel,
    root: Seq<char>,
    t: DaffodilTunablesModel,
    k: int,
    content: ComplexContentModel,
    m: int,
)
    requires
        usable(schema, root, t),
        0 <= k < schema.types.len(),
        schema.types[k].1 matches TypeDefModel::Complex { content: c, .. } && c == content,
        0 <= m < reach::content_list(content).len(),
        reach::content_list(content)[m] is Element,
    ensures
        ({
            let e = reach::content_list(content)[m]->Element_0;
            &&& !(e.element_ref is Some && e.has_element_name_attr)
            &&& default_fits(e.type_ref, e.props.occurs.default_value)
        }),
{
    lemma_types_elements(schema.types, 0, false, k);
    lemma_types_elements(schema.types, 0, true, k);
    lemma_elements(reach::content_list(content), 0, false, m);
    lemma_elements(reach::content_list(content), 0, true, m);
}

#[verifier::spinoff_prover]
proof fn lemma_references(schema: SchemaDocumentModel, i: nat, k: int)
    requires
        i <= k < schema.global_elements.len(),
        types::references_fault_from(schema, i) is None,
    ensures
        types::reference_fault(schema, schema.global_elements[k].1) is None,
    decreases k - i,
{
    if i < k {
        lemma_references(schema, i + 1, k);
    }
}

/// In a schema with a target namespace that can be used, the type that a global element
/// names without a prefix is defined, as it stands or in the namespace of the name.
#[verifier::spinoff_prover]
pub proof fn law_types_defined(
    schema: SchemaDocumentModel,
    root: Seq<char>,
    t: DaffodilTunablesModel,
    k: int,
    g: GlobalElementModel,
)
    requires
        usable(schema, root, t),
        schema.target_namespace is Some,
        0 <= k < schema.global_elements.len(),
        g == schema.global_elements[k].1,
        !g.type_qname_prefixed,
        !g.type_ref.contains(':'),
        !text::has_prefix(g.type_ref, "xs:"@),
        !text::has_prefix(g.type_ref, "__inline_"@),
    ensures
        strmap::lookup(schema.types, g.type_ref) is Some || (qname::type_of_qname(
            schema,
            g.type_ref,
            g.type_qname_scope,
        ) matches Ok(name) && strmap::lookup(schema.types, name) is Some),
{
    lemma_references(schema, 0, k);
}

#[verifier::spinoff_prover]
proof fn lemma_bases(
    schema: SchemaDocumentModel,
    names: Seq<(Seq<char>, bool)>,
    i: nat,
    k: int,
)
    requires
        i <= k < names.len(),
        types::bases_fault_from(schema, names, i) is None,
    ensures
        types::base_fault(schema, names[k].0, schema.types.len()) is None,
    decreases k - i,
{
    if i < k {
        lemma_bases(schema, names, i + 1, k);
    }
}

/// In a schema that can be used, the base that a type within reach restricts is a type
/// of the schema or a builtin one; else its name has another prefix than the one of XML
/// Schema, or XML Schema knows it.
#[verifier::spinoff_prover]
pub proof fn law_bases_defined(
    schema: SchemaDocumentModel,
    root: Seq<char>,
    t: DaffodilTunablesModel,
    k: int,
    parent: Seq<char>,
)
    requires
        usable(schema, root, t),
        0 <= k < reach::reachable(schema, root).len(),
        strmap::lookup(schema.types, reach::reachable(schema, root)[k].0) matches Some(
            TypeDefModel::Simple { base, .. },
        ) && (base matches SimpleBaseModel::Restriction { base: b, .. } && b
            == RestrictionBaseModel::Named(parent)),
    ensures
        ({
            ||| strmap::lookup(schema.types, parent) is Some
            ||| ast::builtin_spec(parent) is Some
            ||| (parent.contains(':') && !text::has_prefix(parent, "xs:"@))
            ||| qname::type_of_qname(schema, parent, None) is Ok
            ||| qname::type_of_qname(schema, "xs:"@ + parent, None) is Ok
        }),
{
    lemma_bases(schema, reach::reachable(schema, root), 0, k);
    reveal_strlit("xs:");
    assert(("xs:"@ + parent).take("xs:"@.len() as int) =~= "xs:"@);
}

#[verifier::spinoff_prover]
proof fn lemma_patterns(
    schema: SchemaDocumentModel,
    reached: Seq<(Seq<char>, bool)>,
    i: nat,
    k: int,
)
    requires
        i <= k < schema.types.len(),
        restrictions::patterns_fault_from(schema, reached, i) is None,
    ensures
        restrictions::pattern_fault(schema, schema.types[k].1, reached) is None,
    decreases k - i,
{
    if i < k {
        lemma_patterns(schema, reached, i + 1, k);
    }
}

/// Where invalid restrictions are errors, a type within reach that has patterns is made
/// of strings.
#[verifier::spinoff_prover]
pub proof fn law_patterns_on_strings(
    schema: SchemaDocumentModel,
    root: Seq<char>,
    t: DaffodilTunablesModel,
    k: int,
    name: Seq<char>,
    base: SimpleBaseModel,
)
    requires
        usable(schema, root, t),
        t.invalid_restriction_policy == InvalidRestrictionPolicy::Error,
        0 <= k < schema.types.len(),
        schema.types[k].1 matches TypeDefModel::Simple { name: n, base: b, .. } && n == name && b
            == base,
        base matches SimpleBaseModel::Restriction { facets, .. } && facets.patterns.len() > 0,
        strmap::lookup(reach::reachable(schema, root), name) is Some,
    ensures
        restrictions::builtin_base(schema, base, schema.types.len()) == Some(BuiltinType::String),
{
    lemma_patterns(schema, reach::reachable(schema, root), 0, k);
}

/// The builtin type under a restriction is the one it restricts, directly or by the
/// types in between.
#[verifier::spinoff_prover]
pub proof fn law_builtin_underneath(
    schema: SchemaDocumentModel,
    base: SimpleBaseModel,
    left: nat,
)
    ensures
        (base matches SimpleBaseModel::Restriction { base: RestrictionBaseModel::Builtin(b), .. })
            ==> restrictions::builtin_base(schema, base, left) == Some(
            base->Restriction_base->Builtin_0,
        ),
        (base matches SimpleBaseModel::Restriction { base: RestrictionBaseModel::Named(p), .. })
            && left > 0 ==> (strmap::lookup(schema.types, base->Restriction_base->Named_0)
            matches Some(TypeDefModel::Simple { base: below, .. }) ==> restrictions::builtin_base(
            schema,
            base,
            left,
        ) == restrictions::builtin_base(schema, below, (left - 1) as nat)),
        base is Union ==> restrictions::builtin_base(schema, base, left) is None,
{
}

// ------------------------------------------------------------------------- content

#[verifier::spinoff_prover]
proof fn lemma_root_content(
    schema: SchemaDocumentModel,
    rule: ComplexRule,
    root: Seq<char>,
    name: Seq<char>,
    content: ComplexContentModel,
)
    requires
        complex::complex_fault(schema, rule, root) is None,
        qname::global_element(schema, root) matches Some(g) && g.type_ref == name,
        ast::builtin_spec(name) is None,
        strmap::lookup(schema.types, name) matches Some(TypeDefModel::Complex { content: c, .. })
            && c == content,
    ensures
        complex::content_fault(schema, rule, name, content) is None,
{
    strmap::lemma_rank(Seq::<(Seq<char>, bool)>::empty(), name);
    assert(complex::root_queue(schema, root) == seq![name]);
}

/// The members of an unordered sequence are elements; those that need not occur just
/// once are counted while parsing, if at all; and no two have one name.
pub open spec fn good_unordered(list: Seq<ParticleModel>) -> bool {
    &&& forall|i: int| 0 <= i < list.len() ==> (#[trigger] list[i]) is Element
    &&& forall|i: int|
        0 <= i < list.len() && ((#[trigger] list[i])->Element_0.props.occurs.occurs_min == Some(
            0u64,
        ) || (list[i]->Element_0.props.occurs.occurs_max is Some
            && list[i]->Element_0.props.occurs.occurs_max->0 > 1)) ==> (
        list[i]->Element_0.props.occurs.occurs_count_kind is None
            || list[i]->Element_0.props.occurs.occurs_count_kind == Some(OccursCountKind::Parsed))
    &&& forall|i: int, j: int|
        #![trigger list[i], list[j]]
        0 <= i < j < list.len() ==> known_as(list[i]->Element_0) != known_as(list[j]->Element_0)
}

#[verifier::spinoff_prover]
proof fn lemma_members(list: Seq<ParticleModel>, i: nat, k: int)
    requires
        i <= k < list.len(),
        groups::members_fault(list, i) is None,
    ensures
        groups::member_fault(list[k]) is None,
    decreases k - i,
{
    if i < k {
        lemma_members(list, i + 1, k);
    }
}

#[verifier::spinoff_prover]
proof fn lemma_member_names(list: Seq<ParticleModel>, n: nat)
    requires
        n <= list.len(),
        forall|i: int| 0 <= i < list.len() ==> (#[trigger] list[i]) is Element,
    ensures
        strmap::ascending(groups::member_names(list, n)),
        forall|i: int|
            0 <= i < n ==> strmap::lookup(
                groups::member_names(list, n),
                known_as((#[trigger] list[i])->Element_0),
            ) is Some,
        forall|i: int, j: int|
            #![trigger list[i], list[j]]
            0 <= i < j < n && known_as(list[i]->Element_0) == known_as(list[j]->Element_0)
                ==> strmap::lookup(
                groups::member_names(list, n),
                known_as(list[i]->Element_0),
            ) == Some(true),
    decreases n,
{
    if n > 0 {
        let m = (n - 1) as nat;
        lemma_member_names(list, m);
        let before = groups::member_names(list, m);
        assert(list[m as int] is Element);
        let key = known_as(list[m as int]->Element_0);
        let v = strmap::lookup(before, key) is Some;
        strmap::law_with_entry_ascending(before, key, v);
        strmap::law_lookup_stored(before, key, v);
        assert forall|i: int| 0 <= i < n implies strmap::lookup(
            groups::member_names(list, n),
            known_as((#[trigger] list[i])->Element_0),
        ) is Some by {
            if known_as(list[i]->Element_0) != key {
                strmap::law_lookup_other(before, key, v, known_as(list[i]->Element_0));
            }
        }
        assert forall|i: int, j: int|
            #![trigger list[i], list[j]]
            0 <= i < j < n && known_as(list[i]->Element_0) == known_as(
                list[j]->Element_0,
            ) implies strmap::lookup(
            groups::member_names(list, n),
            known_as(list[i]->Element_0),
        ) == Some(true) by {
            if known_as(list[i]->Element_0) != key {
                strmap::law_lookup_other(before, key, v, known_as(list[i]->Element_0));
            }
        }
    }
}

#[verifier::spinoff_prover]
proof fn lemma_not_repeated(names: Seq<(Seq<char>, bool)>, i: nat, k: int)
    requires
        i <= k < names.len(),
        groups::repeated_from(names, i) is None,
    ensures
        !names[k].1,
    decreases k - i,
{
    if i < k {
        lemma_not_repeated(names, i + 1, k);
    }
}

/// The members of an unordered sequence in which nothing is wrong are as they must be.
#[verifier::spinoff_prover]
pub proof fn law_unordered_members(list: Seq<ParticleModel>)
    requires
        groups::unordered_fault(list) is None,
    ensures
        good_unordered(list),
{
    assert forall|i: int| 0 <= i < list.len() implies groups::member_fault(
        #[trigger] list[i],
    ) is None by {
        lemma_members(list, 0, i);
    }
    let names = groups::member_names(list, list.len());
    lemma_member_names(list, list.len());
    assert forall|i: int, j: int|
        #![trigger list[i], list[j]]
        0 <= i < j < list.len() implies known_as(list[i]->Element_0) != known_as(
        list[j]->Element_0,
    ) by {
        if known_as(list[i]->Element_0) == known_as(list[j]->Element_0) {
            let key = known_as(list[i]->Element_0);
            strmap::lemma_rank(names, key);
            lemma_not_repeated(names, 0, strmap::rank(names, key));
        }
    }
}

/// In a schema that can be used, the type of the root, where it is a complex type of the
/// schema, has content; and an unordered sequence that it is has good members.
#[verifier::spinoff_prover]
pub proof fn law_root_has_content(
    schema: SchemaDocumentModel,
    root: Seq<char>,
    t: DaffodilTunablesModel,
    name: Seq<char>,
    content: ComplexContentModel,
)
    requires
        usable(schema, root, t),
        qname::global_element(schema, root) matches Some(g) && g.type_ref == name,
        ast::builtin_spec(name) is None,
        strmap::lookup(schema.types, name) matches Some(TypeDefModel::Complex { content: c, .. })
            && c == content,
    ensures
        !(content is Empty),
        content matches ComplexContentModel::Sequence(s) && s.props.delimiters.sequence_kind == Some(
            SequenceKind::Unordered,
        ) ==> content->Sequence_0.particles.len() > 0
            || content->Sequence_0.props.statements.hidden_group_ref is Some,
        content matches ComplexContentModel::Sequence(s) && s.props.delimiters.sequence_kind == Some(
            SequenceKind::Unordered,
        ) ==> good_unordered(content->Sequence_0.particles),
{
    lemma_root_content(
        schema,
        ComplexRule::ModelGroup { root_implicit: complex::implicit_root(schema, root) },
        root,
        name,
        content,
    );
    lemma_root_content(schema, ComplexRule::Unordered, root, name, content);
    if let ComplexContentModel::Sequence(s) = content {
        if s.props.delimiters.sequence_kind == Some(SequenceKind::Unordered) {
            law_unordered_members(s.particles);
        }
    }
}

// ------------------------------------------------------------------------- choices

#[verifier::spinoff_prover]
proof fn lemma_keys(
    schema: SchemaDocumentModel,
    list: Seq<ParticleModel>,
    i: nat,
    seen: Seq<(Seq<char>, bool)>,
)
    requires
        choices::branches_fault(schema, list, i, seen) is None,
        strmap::ascending(seen),
    ensures
        forall|k: int|
            i <= k < list.len() ==> (choices::branch_key(schema, #[trigger] list[k]) matches Some(
                key,
            ) && strmap::lookup(seen, key) is None),
        forall|j: int, k: int|
            #![trigger list[j], list[k]]
            i <= j < k < list.len() ==> choices::branch_key(schema, list[j])
                != choices::branch_key(schema, list[k]),
    decreases list.len() - i,
{
    if i < list.len() {
        let key = choices::branch_key(schema, list[i as int])->0;
        let now = strmap::with_entry(seen, key, true);
        strmap::law_with_entry_ascending(seen, key, true);
        strmap::law_lookup_stored(seen, key, true);
        lemma_keys(schema, list, i + 1, now);
        assert forall|k: int| i <= k < list.len() implies (choices::branch_key(
            schema,
            #[trigger] list[k],
        ) matches Some(other) && strmap::lookup(seen, other) is None) by {
            if k > i {
                let other = choices::branch_key(schema, list[k])->0;
                if other != key {
                    strmap::law_lookup_other(seen, key, true, other);
                }
            }
        }
    }
}

/// In a choice in which nothing is wrong and which takes a branch by a key, every branch
/// has a key, no two have the same, and no branch is taken by its initiator.
#[verifier::spinoff_prover]
pub proof fn law_keys_distinct(schema: SchemaDocumentModel, c: ChoiceDeclModel)
    requires
        choices::dispatch_fault(schema, c) is None,
        peek::dispatches(c.props),
    ensures
        c.props.delimiters.initiated_content != Some(true),
        forall|k: int|
            0 <= k < c.branches.len() ==> choices::branch_key(
                schema,
                #[trigger] c.branches[k],
            ) is Some,
        forall|j: int, k: int|
            #![trigger c.branches[j], c.branches[k]]
            0 <= j < k < c.branches.len() ==> choices::branch_key(schema, c.branches[j])
                != choices::branch_key(schema, c.branches[k]),
{
    lemma_keys(schema, c.branches, 0, Seq::empty());
}

#[verifier::spinoff_prover]
proof fn lemma_list_rule(
    schema: SchemaDocumentModel,
    rule: choices::WalkRule,
    list: Seq<ParticleModel>,
    i: nat,
    k: int,
)
    requires
        i <= k < list.len(),
        choices::list_fault(schema, rule, list, i) is None,
    ensures
        choices::particle_fault(schema, rule, list[k]) is None,
    decreases k - i,
{
    if i < k {
        lemma_list_rule(schema, rule, list, i + 1, k);
    }
}

/// In a schema that can be used, nothing is wrong with the keys of a choice, nor with
/// the discriminator of an element, that is a particle of the type of the root.
#[verifier::spinoff_prover]
pub proof fn law_root_particles_checked(
    schema: SchemaDocumentModel,
    root: Seq<char>,
    t: DaffodilTunablesModel,
    content: ComplexContentModel,
    k: int,
)
    requires
        usable(schema, root, t),
        qname::global_element(schema, root) matches Some(g) && (strmap::lookup(
            schema.types,
            g.type_ref,
        ) matches Some(TypeDefModel::Complex { content: c, .. }) && c == content),
        0 <= k < reach::content_list(content).len(),
    ensures
        reach::content_list(content)[k] matches ParticleModel::Choice(c)
            ==> choices::dispatch_fault(schema, c) is None,
        reach::content_list(content)[k] matches ParticleModel::Element(e) ==> choices::test_fault(
            e.props,
        ) is None,
{
    let list = reach::content_list(content);
    let lists = choices::root_lists(schema, root);
    assert(lists == seq![list]);
    assert(lists[0] == list);
    reveal_with_fuel(choices::lists_fault, 2);
    reveal_with_fuel(choices::levels_fault, 2);
    assert(reach::walk_limit(schema) > 0);
    lemma_list_rule(schema, choices::WalkRule::Dispatch, list, 0, k);
    lemma_list_rule(schema, choices::WalkRule::Discriminators, list, 0, k);
}

/// A test in which nothing is wrong uses the prefix `fn` only where that stands for the
/// functions of XPath, unless the test is a constant.
#[verifier::spinoff_prover]
pub proof fn law_prefix_declared(test: Seq<char>, prefixes: Seq<(Seq<char>, Seq<char>)>)
    ensures
        choices::prefix_fault(test, prefixes) is Some <==> (!choices::is_constant(
            choices::unbraced(test),
        ) && text::contains_spec(test, "fn:"@) && (strmap::lookup(prefixes, "fn"@) matches Some(u)
            && u != "http://www.w3.org/2005/xpath-functions"@)),
{
}

// ---------------------------------------------------------------------- delimiters

#[verifier::spinoff_prover]
proof fn lemma_schemes(
    schema: SchemaDocumentModel,
    separator: Seq<char>,
    list: Seq<ParticleModel>,
    i: nat,
    k: int,
    s: EscapeSchemeDefModel,
)
    requires
        i <= k < list.len(),
        delimiters::schemes_fault(schema, separator, list, i) is None,
        list[k] matches ParticleModel::Element(e) && (e.props.text.escape_scheme_ref matches Some(
            name,
        ) && delimiters::scheme_named(schema, name) == Some(s)),
    ensures
        delimiters::scheme_fault(separator, s) is None,
    decreases k - i,
{
    if i < k {
        lemma_schemes(schema, separator, list, i + 1, k, s);
    }
}

#[verifier::spinoff_prover]
proof fn lemma_escapes(
    schema: SchemaDocumentModel,
    names: Seq<(Seq<char>, bool)>,
    i: nat,
    k: int,
)
    requires
        i <= k < names.len(),
        delimiters::escapes_fault_from(schema, names, i) is None,
    ensures
        delimiters::type_escapes_fault(schema, names[k].0) is None,
    decreases k - i,
{
    if i < k {
        lemma_escapes(schema, names, i + 1, k);
    }
}

/// In a schema that can be used, no separator of a sequence that is a type within reach
/// begins with an escape character of an element in it.
#[verifier::spinoff_prover]
pub proof fn law_escapes_clear(
    schema: SchemaDocumentModel,
    root: Seq<char>,
    t: DaffodilTunablesModel,
    k: int,
    q: SequenceDeclModel,
    separator: Seq<char>,
    m: int,
    s: EscapeSchemeDefModel,
    a: int,
)
    requires
        usable(schema, root, t),
        0 <= k < reach::reachable(schema, root).len(),
        strmap::lookup(schema.types, reach::reachable(schema, root)[k].0) matches Some(
            TypeDefModel::Complex { content, .. },
        ) && content == ComplexContentModel::Sequence(q),
        q.props.delimiters.separator == Some(separator),
        0 <= m < q.particles.len(),
        q.particles[m] matches ParticleModel::Element(e) && (e.props.text.escape_scheme_ref matches Some(
            name,
        ) && delimiters::scheme_named(schema, name) == Some(s)),
        s.escape_kind == EscapeKind::EscapeCharacter,
        0 <= a < text::words_spec(entities::expanded(separator)).len(),
    ensures
        s.escape_character matches Some(c) ==> c.len() == 0 || !text::has_prefix(
            text::words_spec(entities::expanded(separator))[a],
            c,
        ),
        s.escape_escape_character matches Some(c) ==> c.len() == 0 || !text::has_prefix(
            text::words_spec(entities::expanded(separator))[a],
            c,
        ),
{
    lemma_escapes(schema, reach::reachable(schema, root), 0, k);
    lemma_schemes(schema, separator, q.particles, 0, m, s);
}

// ------------------------------------------------------------------------ settings

/// The properties that the settings require are stated, and none that is not supported.
pub open spec fn states_required(p: ast::DfdlPropsModel, t: DaffodilTunablesModel) -> bool {
    &&& p.text.text_bidi != Some(true)
    &&& p.occurs.floating != Some(true)
    &&& (t.require_text_bidi_property == Some(true) ==> p.text.text_bidi is Some)
    &&& (t.require_floating_property == Some(true) ==> p.occurs.floating is Some)
}

/// A schema that is what the settings require states what they require: in its defaults,
/// at its root, and on the elements of the complex type that the root has.
#[verifier::spinoff_prover]
pub proof fn law_requirements_met(
    schema: SchemaDocumentModel,
    root: Seq<char>,
    t: DaffodilTunablesModel,
)
    requires
        tunables::requirements_fault(schema, root, t) is None,
    ensures
        t.require_encoding_error_policy == Some(true)
            ==> schema.explicit_encoding_error_policy_on_format,
        states_required(schema.format_defaults.props, t),
        qname::global_element(schema, root) matches Some(g) ==> states_required(g.props, t)
            && tunables::type_fault(schema, g.type_ref, t, hidden::depth_limit(schema)) is None,
{
}

/// In a complex type that is what the settings require, every element states what they
/// require, and so does its type.
#[verifier::spinoff_prover]
pub proof fn law_requirements_met_inside(
    schema: SchemaDocumentModel,
    name: Seq<char>,
    t: DaffodilTunablesModel,
    depth: nat,
    content: ComplexContentModel,
    e: ElementDeclModel,
)
    requires
        tunables::type_fault(schema, name, t, depth) is None,
        strmap::lookup(schema.types, name) matches Some(TypeDefModel::Complex { content: c, .. })
            && c == content,
        stands_in(ParticleModel::Element(e), reach::content_list(content), 0),
    ensures
        states_required(e.props, t),
        depth > 0 ==> tunables::type_fault(schema, e.type_ref, t, (depth - 1) as nat) is None,
{
    reveal(tunables::type_fault);
    reveal(tunables::list_fault);
    lemma_requirements(schema, reach::content_list(content), 0, t, depth, e);
}

#[verifier::spinoff_prover]
proof fn lemma_requirements(
    schema: SchemaDocumentModel,
    list: Seq<ParticleModel>,
    i: nat,
    t: DaffodilTunablesModel,
    depth: nat,
    e: ElementDeclModel,
)
    requires
        tunables::list_fault(schema, list, i, t, depth) is None,
        stands_in(ParticleModel::Element(e), list, i),
    ensures
        states_required(e.props, t),
        depth > 0 ==> tunables::type_fault(schema, e.type_ref, t, (depth - 1) as nat) is None,
    decreases list, list.len() - i,
{
    reveal(tunables::list_fault);
    reveal(tunables::particle_fault);
    reveal(tunables::type_fault);
    let p = ParticleModel::Element(e);
    assert(tunables::particle_fault(schema, list[i as int], t, depth) is None);
    if list[i as int] != p && !stands_in(p, list, i + 1) {
        assert(decreases_to!(list => list[i as int]));
        match list[i as int] {
            ParticleModel::Sequence(q) => {
                assert(decreases_to!(list[i as int] => list[i as int]->Sequence_0));
                lemma_requirements(schema, q.particles, 0, t, depth, e);
            },
            ParticleModel::Choice(c) => {
                assert(decreases_to!(list[i as int] => list[i as int]->Choice_0));
                lemma_requirements(schema, c.branches, 0, t, depth, e);
            },
            _ => {},
        }
    } else if list[i as int] != p {
        lemma_requirements(schema, list, i + 1, t, depth, e);
    }
}

// ------------------------------------------------------- hidden groups that are named

/// Nothing that was noted is lost.
spec fn keeps(before: Seq<(Seq<char>, bool)>, after: Seq<(Seq<char>, bool)>) -> bool {
    strmap::ascending(after) && forall|k: Seq<char>|
        strmap::lookup(before, k) is Some ==> #[trigger] strmap::lookup(after, k) is Some
}

#[verifier::spinoff_prover]
proof fn lemma_keeps_at(
    schema: SchemaDocumentModel,
    p: ParticleModel,
    open: Seq<Seq<char>>,
    out: Seq<(Seq<char>, bool)>,
    depth: nat,
)
    requires
        strmap::ascending(out),
    ensures
        keeps(out, hidden::hidden_at(schema, p, open, out, depth)),
    decreases 3 * depth, p, 0int,
{
    reveal(hidden::hidden_at);
    match p {
        ParticleModel::Element(e) => {
            reveal(hidden::content_hidden);
            if let Some(TypeDefModel::Complex { content, .. }) = reach::type_named(
                schema,
                e.type_ref,
            ) {
                if depth > 0 {
                    lemma_keeps_content(schema, content, open, out, (depth - 1) as nat);
                }
            }
        },
        ParticleModel::Sequence(s) => {
            reveal(hidden::hidden_from);
            reveal(hidden::hidden_named);
            let name = s.props.statements.hidden_group_ref;
            let named = if depth > 0 {
                hidden::hidden_named(schema, name, open, out, (depth - 1) as nat)
            } else {
                out
            };
            if depth > 0 {
                lemma_keeps_named(schema, name, open, out, (depth - 1) as nat);
            }
            lemma_keeps_from(schema, s.particles, 0, open, named, depth);
        },
        ParticleModel::Choice(c) => {
            reveal(hidden::hidden_from);
            lemma_keeps_from(schema, c.branches, 0, open, out, depth);
        },
        ParticleModel::GroupRef(g) => {
            reveal(hidden::hidden_from);
            if let Some(d) = reach::group_named(schema, g.name) {
                if depth > 0 {
                    lemma_keeps_from(
                        schema,
                        reach::group_list(d),
                        0,
                        open,
                        out,
                        (depth - 1) as nat,
                    );
                }
            }
        },
    }
}

#[verifier::spinoff_prover]
proof fn lemma_keeps_from(
    schema: SchemaDocumentModel,
    list: Seq<ParticleModel>,
    i: nat,
    open: Seq<Seq<char>>,
    out: Seq<(Seq<char>, bool)>,
    depth: nat,
)
    requires
        strmap::ascending(out),
    ensures
        keeps(out, hidden::hidden_from(schema, list, i, open, out, depth)),
    decreases 3 * depth, list, list.len() - i,
{
    reveal(hidden::hidden_from);
    reveal(hidden::hidden_at);
    if i < list.len() {
        assert(decreases_to!(list => list[i as int]));
        let now = hidden::hidden_at(schema, list[i as int], open, out, depth);
        lemma_keeps_at(schema, list[i as int], open, out, depth);
        lemma_keeps_from(schema, list, i + 1, open, now, depth);
    }
}

#[verifier::spinoff_prover]
proof fn lemma_keeps_named(
    schema: SchemaDocumentModel,
    name: Option<Seq<char>>,
    open: Seq<Seq<char>>,
    out: Seq<(Seq<char>, bool)>,
    depth: nat,
)
    requires
        strmap::ascending(out),
    ensures
        keeps(out, hidden::hidden_named(schema, name, open, out, depth)),
        name matches Some(q) ==> strmap::lookup(
            hidden::hidden_named(schema, name, open, out, depth),
            q,
        ) is Some,
    decreases 3 * depth + 1, None::<int>, 0int,
{
    reveal(hidden::hidden_named);
    reveal(hidden::hidden_from);
    if let Some(q) = name {
        let local = qname::local_spec(q);
        let now = strmap::with_entry(out, q, true);
        strmap::law_with_entry_ascending(out, q, true);
        strmap::law_lookup_stored(out, q, true);
        assert forall|k: Seq<char>| strmap::lookup(out, k) is Some implies #[trigger] strmap::lookup(
            now,
            k,
        ) is Some by {
            if k != q {
                strmap::law_lookup_other(out, q, true, k);
            }
        }
        lemma_keeps_from(
            schema,
            hidden::hidden_list(schema, local),
            0,
            open.push(local),
            now,
            depth,
        );
    }
}

#[verifier::spinoff_prover]
proof fn lemma_keeps_content(
    schema: SchemaDocumentModel,
    content: ComplexContentModel,
    open: Seq<Seq<char>>,
    out: Seq<(Seq<char>, bool)>,
    depth: nat,
)
    requires
        strmap::ascending(out),
    ensures
        keeps(out, hidden::content_hidden(schema, content, open, out, depth)),
        content matches ComplexContentModel::Sequence(s) ==> (
        s.props.statements.hidden_group_ref matches Some(q) ==> strmap::lookup(
            hidden::content_hidden(schema, content, open, out, depth),
            q,
        ) is Some),
    decreases 3 * depth + 2, None::<int>, 0int,
{
    reveal(hidden::content_hidden);
    reveal(hidden::hidden_named);
    reveal(hidden::hidden_from);
    let named = match content {
        ComplexContentModel::Sequence(s) => {
            let name = s.props.statements.hidden_group_ref;
            hidden::hidden_named(schema, name, open, out, depth)
        },
        _ => out,
    };
    if let ComplexContentModel::Sequence(s) = content {
        lemma_keeps_named(schema, s.props.statements.hidden_group_ref, open, out, depth);
    }
    lemma_keeps_from(schema, reach::content_list(content), 0, open, named, depth);
}

proof fn lemma_named_written(
    schema: SchemaDocumentModel,
    names: Seq<(Seq<char>, bool)>,
    i: nat,
    k: int,
)
    requires
        i <= k < names.len(),
        hidden::named_fault(schema, names, i) is None,
        qname::local_spec(names[k].0).len() > 0,
    ensures
        hidden::group_fault(
            schema,
            qname::local_spec(names[k].0),
            names[k].0,
            Seq::empty(),
            schema.groups.len(),
        ) is None,
    decreases k - i,
{
    if i < k {
        lemma_named_written(schema, names, i + 1, k);
    }
}

/// In a schema that can be used, the hidden group that the sequence of the root names is
/// there and can be written.
#[verifier::spinoff_prover]
pub proof fn law_root_hidden_group(
    schema: SchemaDocumentModel,
    root: Seq<char>,
    t: DaffodilTunablesModel,
    g: GlobalElementModel,
    s: SequenceDeclModel,
    q: Seq<char>,
)
    requires
        usable(schema, root, t),
        qname::global_element(schema, root) == Some(g),
        ast::builtin_spec(g.type_ref) is None,
        strmap::lookup(schema.types, g.type_ref) matches Some(TypeDefModel::Complex {
            content,
            ..
        }) && content == ComplexContentModel::Sequence(s),
        s.props.statements.hidden_group_ref == Some(q),
        qname::local_spec(q).len() > 0,
    ensures
        strmap::lookup(schema.groups, qname::local_spec(q)) is Some,
        hidden::group_fault(
            schema,
            qname::local_spec(q),
            q,
            Seq::empty(),
            schema.groups.len(),
        ) is None,
{
    let none = Seq::<(Seq<char>, bool)>::empty();
    let content = ComplexContentModel::Sequence(s);
    let depth = hidden::depth_limit(schema);
    lemma_keeps_content(schema, content, Seq::empty(), none, depth);
    let names = hidden::content_hidden(schema, content, Seq::empty(), none, depth);
    strmap::lemma_rank(names, q);
    lemma_named_written(schema, names, 0, strmap::rank(names, q));
    law_hidden_group_written(
        schema,
        qname::local_spec(q),
        q,
        Seq::empty(),
        schema.groups.len(),
    );
}

} // verus!
