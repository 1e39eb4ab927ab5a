//! Rules on restrictions, lengths and the branches of choices.

use vstd::prelude::*;
use crate::ast;
use crate::ast::{
    BuiltinType, ComplexContent, ComplexContentModel, GroupDecl, GroupDeclModel, LengthKind,
    Particle, ParticleModel, RestrictionBase, RestrictionBaseModel, SchemaDocument,
    SchemaDocumentModel, SimpleBase, SimpleBaseModel, TypeDef, TypeDefModel,
};
use crate::error::{cat3, cat4, invalid_property, Error, ErrorModel};
use crate::numbers;
use crate::numbers::decimal_chars;
use crate::qname;
use crate::qname::get_global_element;
use crate::strmap;
use crate::strmap::StrMap;
use crate::tdml::suite::{DaffodilTunables, DaffodilTunablesModel, InvalidRestrictionPolicy};
use crate::text::{eq, string_of};
use crate::validate::groups;
use crate::validate::groups::name_of_member;
use crate::validate::peek::{length_kind_of, length_of};
use crate::validate::reach;
use crate::validate::reach::types_reachable_from_root;
use crate::validate::types;
use crate::values::{owned, Duplicate};

verus! {

broadcast use vstd::string::group_string_axioms;

/// The built-in type at the bottom of a simple type.
pub open spec fn builtin_base(
    schema: SchemaDocumentModel,
    base: SimpleBaseModel,
    left: nat,
) -> Option<BuiltinType>
    decreases left,
{
    match base {
        SimpleBaseModel::Builtin(b) => Some(b),
        SimpleBaseModel::Restriction { base: RestrictionBaseModel::Builtin(b), .. } => Some(b),
        SimpleBaseModel::Restriction { base: RestrictionBaseModel::Named(parent), .. } => match reach::type_named(
            schema,
            parent,
        ) {
            Some(TypeDefModel::Simple { base: below, .. }) => if left == 0 {
                None
            } else {
                builtin_base(schema, below, (left - 1) as nat)
            },
            _ => ast::builtin_spec(parent),
        },
        SimpleBaseModel::Union { .. } => None,
    }
}

fn builtin_for_simple_base(schema: &SchemaDocument, base: &SimpleBase, left: usize) -> (r: Option<
    BuiltinType,
>)
    ensures
        r == builtin_base(schema@, base.deep_view(), left as nat),
    decreases left,
{
    match base {
        SimpleBase::Builtin(b) => Some(*b),
        SimpleBase::Restriction { base: RestrictionBase::Builtin(b), .. } => Some(*b),
        SimpleBase::Restriction { base: RestrictionBase::Named(parent), .. } => {
            if let Some(t) = schema.resolve_type(parent) {
                if let TypeDef::Simple { base: below, .. } = t {
                    return if left == 0 {
                        None
                    } else {
                        builtin_for_simple_base(schema, below, left - 1)
                    };
                }
            }
            BuiltinType::from_xsd(parent.as_str())
        },
        SimpleBase::Union { .. } => None,
    }
}

/// Why a type has patterns though it is not made of strings.
pub open spec fn pattern_fault(
    schema: SchemaDocumentModel,
    t: TypeDefModel,
    reached: Seq<(Seq<char>, bool)>,
) -> Option<ErrorModel> {
    match t {
        TypeDefModel::Simple {
            name,
            base: SimpleBaseModel::Restriction { base, restriction_base_is_xs_date, facets },
            ..
        } => if strmap::lookup(reached, name) is Some && facets.patterns.len() > 0 && builtin_base(
            schema,
            SimpleBaseModel::Restriction { base, restriction_base_is_xs_date, facets },
            schema.types.len(),
        ) != Some(BuiltinType::String) {
            Some(
                types::broken_rule(
                    "Schema Definition Error: Pattern restriction on type `"@ + name
                        + "` must be on a string"@,
                ),
            )
        } else {
            None
        },
        _ => None,
    }
}

/// The first type from `i` on with patterns though it is not made of strings.
pub open spec fn patterns_fault_from(
    schema: SchemaDocumentModel,
    reached: Seq<(Seq<char>, bool)>,
    i: nat,
) -> Option<ErrorModel>
    decreases schema.types.len() - i,
{
    if i >= schema.types.len() {
        None
    } else {
        match pattern_fault(schema, schema.types[i as int].1, reached) {
            Some(x) => Some(x),
            None => patterns_fault_from(schema, reached, i + 1),
        }
    }
}

/// Why a type that is reached from the root has patterns though it is not made of
/// strings.
pub open spec fn invalid_restriction_fault(
    schema: SchemaDocumentModel,
    root: Seq<char>,
    t: DaffodilTunablesModel,
) -> Option<ErrorModel> {
    if t.invalid_restriction_policy != InvalidRestrictionPolicy::Error {
        None
    } else {
        patterns_fault_from(schema, reach::reachable(schema, root), 0)
    }
}

fn check_patterns(schema: &SchemaDocument, t: &TypeDef, reached: &StrMap<bool>) -> (r: Result<
    (),
    Error,
>)
    ensures
        types::fault_of(r) == pattern_fault(schema@, t.deep_view(), reached@),
{
    reveal(crate::ast::document_model);
    assert(schema@.types.len() == schema.types.entries@.len());
    if let TypeDef::Simple { name, base, .. } = t {
        if let SimpleBase::Restriction { facets, .. } = base {
            assert(facets.deep_view().patterns.len() == facets.patterns@.len());
            if reached.contains_key(name.as_str()) && facets.patterns.len() > 0 {
                let stringy = match builtin_for_simple_base(schema, base, schema.types.len()) {
                    Some(BuiltinType::String) => true,
                    _ => false,
                };
                if !stringy {
                    return Err(
                        invalid_property(
                            cat3(
                                "Schema Definition Error: Pattern restriction on type `",
                                name.as_str(),
                                "` must be on a string",
                            ),
                        ),
                    );
                }
            }
        }
    }
    Ok(())
}

/// Types with patterns are made of strings.
pub fn validate_invalid_restrictions(
    schema: &SchemaDocument,
    root: &str,
    tunables: &DaffodilTunables,
) -> (r: Result<(), Error>)
    ensures
        types::fault_of(r) == invalid_restriction_fault(schema@, root@, tunables@),
{
    reveal(crate::ast::document_model);
    if tunables.invalid_restriction_policy != InvalidRestrictionPolicy::Error {
        return Ok(());
    }
    let reached = types_reachable_from_root(schema, root);
    let mut i: usize = 0;
    while i < schema.types.entries.len()
        invariant
            i <= schema.types.entries@.len(),
            tunables@.invalid_restriction_policy == InvalidRestrictionPolicy::Error,
            reached@ == reach::reachable(schema@, root@),
            patterns_fault_from(schema@, reached@, 0) == patterns_fault_from(
                schema@,
                reached@,
                i as nat,
            ),
        decreases schema.types.entries@.len() - i,
    {
        reveal(crate::ast::document_model);
        assert(schema@.types[i as int] == schema.types.entries@[i as int].deep_view());
        check_patterns(schema, &schema.types.entries[i].1, &reached)?;
        i += 1;
    }
    Ok(())
}

/// Why the root is longer than hexadecimal values may be.
pub open spec fn hex_length_fault(
    schema: SchemaDocumentModel,
    root: Seq<char>,
    t: DaffodilTunablesModel,
) -> Option<ErrorModel> {
    match (t.max_hex_binary_length_in_bytes, qname::global_element(schema, root)) {
        (Some(max), Some(g)) => match g.props.length.length {
            Some(len) if (g.type_ref == "xs:hexBinary"@ || g.type_ref == "hexBinary"@)
                && g.props.length.length_kind == Some(LengthKind::Explicit) && len > max => Some(
                types::broken_rule(
                    "Parse Error: xs:hexBinary maximum "@ + numbers::decimal(max as nat) + " "@
                        + numbers::decimal(len as nat),
                ),
            ),
            _ => None,
        },
        _ => None,
    }
}

/// The root is not longer than hexadecimal values may be.
pub fn validate_max_hex_binary_length(
    schema: &SchemaDocument,
    root: &str,
    tunables: &DaffodilTunables,
) -> (r: Result<(), Error>)
    ensures
        types::fault_of(r) == hex_length_fault(schema@, root@, tunables@),
{
    let max: u64 = match tunables.max_hex_binary_length_in_bytes {
        Some(m) => m,
        None => {
            return Ok(());
        },
    };
    let g = match get_global_element(schema, root) {
        Some(g) => g,
        None => {
            return Ok(());
        },
    };
    let t = g.type_ref.as_str();
    let hex = eq(t, "xs:hexBinary") || eq(t, "hexBinary");
    if !hex || length_kind_of(&g.props) != Some(LengthKind::Explicit) {
        return Ok(());
    }
    if let Some(len) = length_of(&g.props) {
        if len > max {
            let a = decimal_chars(max);
            let b = decimal_chars(len);
            let x = string_of(a.as_slice());
            let y = string_of(b.as_slice());
            return Err(
                invalid_property(
                    cat4("Parse Error: xs:hexBinary maximum ", x.as_str(), " ", y.as_str()),
                ),
            );
        }
    }
    Ok(())
}

/// The types of the elements before `n` by name, the first of each name.
pub open spec fn branch_types(list: Seq<ParticleModel>, n: nat) -> Seq<(Seq<char>, Seq<char>)>
    decreases n,
{
    if n == 0 {
        Seq::empty()
    } else {
        let before = branch_types(list, (n - 1) as nat);
        match list[n - 1] {
            ParticleModel::Element(e) => if strmap::lookup(before, groups::member_name(e)) is Some {
                before
            } else {
                strmap::with_entry(before, groups::member_name(e), e.type_ref)
            },
            _ => before,
        }
    }
}

/// The first element from `i` on with the name of an earlier one and another type.
pub open spec fn branches_fault(list: Seq<ParticleModel>, i: nat) -> Option<ErrorModel>
    decreases list.len() - i,
{
    if i >= list.len() {
        None
    } else {
        let here = match list[i as int] {
            ParticleModel::Element(e) => match strmap::lookup(
                branch_types(list, i),
                groups::member_name(e),
            ) {
                Some(t) if t != e.type_ref => Some(
                    types::broken_rule(
                        "Schema Definition Error: Multiple elements with name '"@
                            + groups::member_name(e)
                            + "', with different types, appear in the model group"@,
                    ),
                ),
                _ => None,
            },
            _ => None,
        };
        match here {
            Some(x) => Some(x),
            None => branches_fault(list, i + 1),
        }
    }
}

fn check_branches(list: &Vec<Particle>) -> (r: Result<(), Error>)
    ensures
        types::fault_of(r) == branches_fault(ast::particle_models(*list), 0),
{
    let ghost all = ast::particle_models(*list);
    let mut seen: StrMap<String> = StrMap::new();
    let mut i: usize = 0;
    while i < list.len()
        invariant
            i <= list@.len(),
            all == ast::particle_models(*list),
            seen@ == branch_types(all, i as nat),
            branches_fault(all, 0) == branches_fault(all, i as nat),
        decreases list@.len() - i,
    {
        assert(all[i as int] == list@[i as int].model());
        if let Particle::Element(e) = &list[i] {
            let key = name_of_member(e);
            let mut fresh: bool = false;
            match seen.get(key.as_str()) {
                Some(t) => {
                    if !eq(t.as_str(), e.type_ref.as_str()) {
                        return Err(
                            invalid_property(
                                cat3(
                                    "Schema Definition Error: Multiple elements with name '",
                                    key.as_str(),
                                    "', with different types, appear in the model group",
                                ),
                            ),
                        );
                    }
                },
                None => {
                    fresh = true;
                },
            }
            if fresh {
                seen.insert(key, owned(e.type_ref.as_str()));
            }
        }
        i += 1;
    }
    Ok(())
}

/// The first type from `i` on that is a choice between elements of one name and
/// different types.
pub open spec fn types_branches_fault(
    types_in: Seq<(Seq<char>, TypeDefModel)>,
    i: nat,
) -> Option<ErrorModel>
    decreases types_in.len() - i,
{
    if i >= types_in.len() {
        None
    } else {
        let here = match types_in[i as int].1 {
            TypeDefModel::Complex {
                content: ComplexContentModel::Choice(c),
                ..
            } => branches_fault(c.branches, 0),
            _ => None,
        };
        match here {
            Some(x) => Some(x),
            None => types_branches_fault(types_in, i + 1),
        }
    }
}

/// The first group from `i` on that is a choice between elements of one name and
/// different types.
pub open spec fn groups_branches_fault(
    groups_in: Seq<(Seq<char>, GroupDeclModel)>,
    i: nat,
) -> Option<ErrorModel>
    decreases groups_in.len() - i,
{
    if i >= groups_in.len() {
        None
    } else {
        let here = match groups_in[i as int].1 {
            GroupDeclModel::Choice(c) => branches_fault(c.branches, 0),
            _ => None,
        };
        match here {
            Some(x) => Some(x),
            None => groups_branches_fault(groups_in, i + 1),
        }
    }
}

/// Why a choice is between elements of one name and different types.
pub open spec fn attribution_fault(schema: SchemaDocumentModel) -> Option<ErrorModel> {
    match types_branches_fault(schema.types, 0) {
        Some(x) => Some(x),
        None => groups_branches_fault(schema.groups, 0),
    }
}

/// Elements of one name in a choice have one type.
pub fn validate_unique_particle_attribution(schema: &SchemaDocument) -> (r: Result<(), Error>)
    ensures
        types::fault_of(r) == attribution_fault(schema@),
{
    reveal(crate::ast::document_model);
    let mut i: usize = 0;
    while i < schema.types.entries.len()
        invariant
            i <= schema.types.entries@.len(),
            types_branches_fault(schema@.types, 0) == types_branches_fault(
                schema@.types,
                i as nat,
            ),
        decreases schema.types.entries@.len() - i,
    {
        reveal(crate::ast::document_model);
        assert(schema@.types[i as int] == schema.types.entries@[i as int].deep_view());
        if let TypeDef::Complex { content, .. } = &schema.types.entries[i].1 {
            if let ComplexContent::Choice(c) = content {
                check_branches(&c.branches)?;
            }
        }
        i += 1;
    }
    let mut k: usize = 0;
    while k < schema.groups.entries.len()
        invariant
            k <= schema.groups.entries@.len(),
            types_branches_fault(schema@.types, 0) is None,
            groups_branches_fault(schema@.groups, 0) == groups_branches_fault(
                schema@.groups,
                k as nat,
            ),
        decreases schema.groups.entries@.len() - k,
    {
        reveal(crate::ast::document_model);
        assert(schema@.groups[k as int] == schema.groups.entries@[k as int].deep_view());
        if let GroupDecl::Choice(c) = &schema.groups.entries[k].1 {
            check_branches(&c.branches)?;
        }
        k += 1;
    }
    Ok(())
}

} // verus!
