//! Rules on groups, hidden groups and unordered sequences.

use vstd::prelude::*;
use crate::ast;
use crate::ast::{
    ComplexContent, ComplexContentModel, DfdlPropsModel, ElementDecl, ElementDeclModel, GroupDecl,
    GroupDeclModel, OccursCountKind, Particle, ParticleModel, SchemaDocument, SchemaDocumentModel,
    SequenceDecl, SequenceDeclModel, SequenceKind, TypeDef, TypeDefModel,
};
use crate::error::{cat3, invalid_property, Error, ErrorModel};
use crate::strmap;
use crate::strmap::StrMap;
use crate::text::{chars_of, starts_with};
use crate::text;
use crate::validate::peek::{
    hidden_from_appinfo, hidden_group_ref_of, occurs_count_kind_of, occurs_max_of, occurs_min_of,
    sequence_kind_of,
};
use crate::validate::reach;
use crate::validate::reach::{find_group, group_particles, lemma_inside};
use crate::validate::types;
use crate::values::{owned, Duplicate};

verus! {

broadcast use vstd::string::group_string_axioms;

// How hidden groups are written.
/// Whether a sequence that names a hidden group holds anything itself.
pub open spec fn hidden_with_children(s: SequenceDeclModel) -> bool {
    s.props.statements.hidden_group_ref is Some && (
    s.props.statements.hidden_group_ref_from_appinfo_sequence || s.particles.len() > 0
        || s.had_markup_before_particles)
}

/// The error for a sequence that names a hidden group and holds something itself.
pub open spec fn hidden_children_error() -> ErrorModel {
    types::broken_rule(
        "Schema Definition Error: A sequence with hiddenGroupRef cannot have children."@,
    )
}

/// The first such sequence from `i` on, in sequences, choices and groups too.
pub open spec fn notation_fault(
    schema: SchemaDocumentModel,
    list: Seq<ParticleModel>,
    i: nat,
    depth: nat,
) -> Option<ErrorModel>
    decreases depth, list, list.len() - i,
{
    if i >= list.len() {
        None
    } else {
        let here = match list[i as int] {
            ParticleModel::Sequence(s) => if hidden_with_children(s) {
                Some(hidden_children_error())
            } else {
                notation_fault(schema, s.particles, 0, depth)
            },
            ParticleModel::Choice(c) => notation_fault(schema, c.branches, 0, depth),
            ParticleModel::GroupRef(g) => match reach::group_named(schema, g.name) {
                Some(d) if depth > 0 => notation_fault(
                    schema,
                    reach::group_list(d),
                    0,
                    (depth - 1) as nat,
                ),
                _ => None,
            },
            ParticleModel::Element(_) => None,
        };
        match here {
            Some(x) => Some(x),
            None => notation_fault(schema, list, i + 1, depth),
        }
    }
}

fn has_hidden_children(s: &SequenceDecl) -> (r: bool)
    ensures
        r == hidden_with_children(s.model()),
{
    assert(s.model().particles.len() == s.particles@.len());
    hidden_group_ref_of(&s.props).is_some() && (hidden_from_appinfo(&s.props) || s.particles.len()
        > 0 || s.had_markup_before_particles)
}

fn hidden_children() -> (r: Error)
    ensures
        r@ == hidden_children_error(),
{
    invalid_property(
        owned("Schema Definition Error: A sequence with hiddenGroupRef cannot have children."),
    )
}

fn check_notation(schema: &SchemaDocument, list: &Vec<Particle>, depth: usize) -> (r: Result<
    (),
    Error,
>)
    ensures
        types::fault_of(r) == notation_fault(
            schema@,
            ast::particle_models(*list),
            0,
            depth as nat,
        ),
    decreases depth, ast::particle_models(*list),
{
    let ghost all = ast::particle_models(*list);
    let mut i: usize = 0;
    while i < list.len()
        invariant
            i <= list@.len(),
            all == ast::particle_models(*list),
            notation_fault(schema@, all, 0, depth as nat) == notation_fault(
                schema@,
                all,
                i as nat,
                depth as nat,
            ),
        decreases list@.len() - i,
    {
        proof {
            lemma_inside(*list, i as int);
        }
        match &list[i] {
            Particle::Sequence(s) => {
                if has_hidden_children(s) {
                    return Err(hidden_children());
                }
                check_notation(schema, &s.particles, depth)?;
            },
            Particle::Choice(c) => {
                check_notation(schema, &c.branches, depth)?;
            },
            Particle::GroupRef(g) => {
                if depth > 0 {
                    if let Some(d) = find_group(schema, g.name.as_str()) {
                        check_notation(schema, group_particles(d), depth - 1)?;
                    }
                }
            },
            Particle::Element(_) => {},
        }
        i += 1;
    }
    Ok(())
}

/// Why a sequence, or one in it, names a hidden group and holds something itself.
pub open spec fn sequence_notation_fault(
    schema: SchemaDocumentModel,
    s: SequenceDeclModel,
) -> Option<ErrorModel> {
    if hidden_with_children(s) {
        Some(hidden_children_error())
    } else {
        notation_fault(schema, s.particles, 0, reach::group_depth(schema))
    }
}

fn check_sequence_notation(schema: &SchemaDocument, s: &SequenceDecl) -> (r: Result<(), Error>)
    ensures
        types::fault_of(r) == sequence_notation_fault(schema@, s.model()),
{
    reveal(crate::ast::document_model);
    assert(schema@.groups.len() == schema.groups.entries@.len());
    if has_hidden_children(s) {
        return Err(hidden_children());
    }
    check_notation(schema, &s.particles, schema.groups.len())
}

/// The first type from `i` on with such a sequence.
pub open spec fn types_notation_fault(schema: SchemaDocumentModel, i: nat) -> Option<ErrorModel>
    decreases schema.types.len() - i,
{
    if i >= schema.types.len() {
        None
    } else {
        let here = match schema.types[i as int].1 {
            TypeDefModel::Complex {
                content: ComplexContentModel::Sequence(s),
                ..
            } => sequence_notation_fault(schema, s),
            _ => None,
        };
        match here {
            Some(x) => Some(x),
            None => types_notation_fault(schema, i + 1),
        }
    }
}

/// The first group from `i` on with such a sequence.
pub open spec fn groups_notation_fault(schema: SchemaDocumentModel, i: nat) -> Option<ErrorModel>
    decreases schema.groups.len() - i,
{
    if i >= schema.groups.len() {
        None
    } else {
        let here = match schema.groups[i as int].1 {
            GroupDeclModel::Sequence(s) => sequence_notation_fault(schema, s),
            GroupDeclModel::Choice(c) => notation_fault(
                schema,
                c.branches,
                0,
                reach::group_depth(schema),
            ),
        };
        match here {
            Some(x) => Some(x),
            None => groups_notation_fault(schema, i + 1),
        }
    }
}

/// Why a hidden group is not written as it must be.
pub open spec fn hidden_notation_fault(schema: SchemaDocumentModel) -> Option<ErrorModel> {
    match types_notation_fault(schema, 0) {
        Some(x) => Some(x),
        None => groups_notation_fault(schema, 0),
    }
}

/// A sequence that names a hidden group holds nothing itself.
pub fn validate_hidden_group_ref_notation(schema: &SchemaDocument) -> (r: Result<(), Error>)
    ensures
        types::fault_of(r) == hidden_notation_fault(schema@),
{
    reveal(crate::ast::document_model);
    let mut i: usize = 0;
    while i < schema.types.entries.len()
        invariant
            i <= schema.types.entries@.len(),
            types_notation_fault(schema@, 0) == types_notation_fault(schema@, i as nat),
        decreases schema.types.entries@.len() - i,
    {
        reveal(crate::ast::document_model);
        assert(schema@.types[i as int] == schema.types.entries@[i as int].deep_view());
        if let TypeDef::Complex { content, .. } = &schema.types.entries[i].1 {
            if let ComplexContent::Sequence(s) = content {
                check_sequence_notation(schema, s)?;
            }
        }
        i += 1;
    }
    let mut k: usize = 0;
    assert(schema@.groups.len() == schema.groups.entries@.len());
    while k < schema.groups.entries.len()
        invariant
            k <= schema.groups.entries@.len(),
            schema@.groups.len() == schema.groups.entries@.len(),
            types_notation_fault(schema@, 0) is None,
            groups_notation_fault(schema@, 0) == groups_notation_fault(schema@, k as nat),
        decreases schema.groups.entries@.len() - k,
    {
        reveal(crate::ast::document_model);
        assert(schema@.groups[k as int] == schema.groups.entries@[k as int].deep_view());
        match &schema.groups.entries[k].1 {
            GroupDecl::Sequence(s) => {
                check_sequence_notation(schema, s)?;
            },
            GroupDecl::Choice(c) => {
                check_notation(schema, &c.branches, schema.groups.len())?;
            },
        }
        k += 1;
    }
    Ok(())
}

/// Whether a group from `i` on is itself a sequence that names a hidden group.
pub open spec fn group_hides(schema: SchemaDocumentModel, i: nat) -> bool
    decreases schema.groups.len() - i,
{
    if i >= schema.groups.len() {
        false
    } else {
        (match schema.groups[i as int].1 {
            GroupDeclModel::Sequence(s) => s.props.statements.hidden_group_ref is Some,
            _ => false,
        }) || group_hides(schema, i + 1)
    }
}

/// Why a group may not be what it is.
pub open spec fn group_definition_fault(schema: SchemaDocumentModel) -> Option<ErrorModel> {
    if group_hides(schema, 0) {
        Some(
            types::broken_rule(
                "Schema Definition Error: the model group of a group definition cannot be a sequence with dfdl:hiddenGroupRef"@,
            ),
        )
    } else {
        None
    }
}

/// No group is itself a sequence that names a hidden group.
pub fn validate_group_definitions_no_hidden_group_ref(schema: &SchemaDocument) -> (r: Result<
    (),
    Error,
>)
    ensures
        types::fault_of(r) == group_definition_fault(schema@),
{
    reveal(crate::ast::document_model);
    let mut k: usize = 0;
    while k < schema.groups.entries.len()
        invariant
            k <= schema.groups.entries@.len(),
            group_hides(schema@, 0) == group_hides(schema@, k as nat),
        decreases schema.groups.entries@.len() - k,
    {
        reveal(crate::ast::document_model);
        assert(schema@.groups[k as int] == schema.groups.entries@[k as int].deep_view());
        if let GroupDecl::Sequence(s) = &schema.groups.entries[k].1 {
            if hidden_group_ref_of(&s.props).is_some() {
                return Err(
                    invalid_property(
                        owned(
                            "Schema Definition Error: the model group of a group definition cannot be a sequence with dfdl:hiddenGroupRef",
                        ),
                    ),
                );
            }
        }
        k += 1;
    }
    Ok(())
}

// The contents of complex types.
/// Why a complex type does not hold what it must.
pub open spec fn model_group_fault(
    name: Seq<char>,
    content: ComplexContentModel,
    root_implicit: bool,
) -> Option<ErrorModel> {
    match content {
        ComplexContentModel::Empty => Some(
            types::broken_rule(
                "Schema Definition Error: A complex type must have exactly one model-group element child which is a sequence, choice, or group reference."@,
            ),
        ),
        ComplexContentModel::Sequence(s) => if s.particles.len() == 0
            && s.props.statements.hidden_group_ref is None {
            if s.props.delimiters.sequence_kind == Some(SequenceKind::Unordered) {
                Some(
                    types::broken_rule(
                        "Schema Definition Error: Unordered sequences must not be empty"@,
                    ),
                )
            } else if !text::has_prefix(name, "__inline_"@) && !root_implicit {
                Some(types::broken_rule("Schema Definition Error"@))
            } else {
                None
            }
        } else {
            None
        },
        _ => None,
    }
}

/// A complex type holds what it must.
pub fn check_model_group(name: &str, content: &ComplexContent, root_implicit: bool) -> (r: Result<
    (),
    Error,
>)
    ensures
        types::fault_of(r) == model_group_fault(name@, content.deep_view(), root_implicit),
{
    match content {
        ComplexContent::Empty => Err(
            invalid_property(
                owned(
                    "Schema Definition Error: A complex type must have exactly one model-group element child which is a sequence, choice, or group reference.",
                ),
            ),
        ),
        ComplexContent::Sequence(s) => {
            assert(s.model().particles.len() == s.particles@.len());
            if s.particles.len() == 0 && hidden_group_ref_of(&s.props).is_none() {
                if sequence_kind_of(&s.props) == Some(SequenceKind::Unordered) {
                    return Err(
                        invalid_property(
                            owned("Schema Definition Error: Unordered sequences must not be empty"),
                        ),
                    );
                }
                let c = chars_of(name);
                let inline = starts_with(c.as_slice(), "__inline_");
                if !inline && !root_implicit {
                    return Err(invalid_property(owned("Schema Definition Error")));
                }
            }
            Ok(())
        },
        _ => Ok(()),
    }
}

// Unordered sequences.
/// The name by which a member of an unordered sequence is known.
pub open spec fn member_name(e: ElementDeclModel) -> Seq<char> {
    match e.element_ref {
        Some(r) => r,
        None => e.name,
    }
}

/// The name by which a member of an unordered sequence is known.
pub fn name_of_member(e: &ElementDecl) -> (r: String)
    ensures
        r@ == member_name(e@),
{
    match &e.element_ref {
        Some(r) => r.copy(),
        None => e.name.copy(),
    }
}

/// Whether an element may occur not at all or more than once.
pub open spec fn varies(p: DfdlPropsModel) -> bool {
    p.occurs.occurs_min == Some(0u64) || (p.occurs.occurs_max matches Some(m) && m > 1)
}

/// Why a particle may not be a member of an unordered sequence.
pub open spec fn member_fault(p: ParticleModel) -> Option<ErrorModel> {
    match p {
        ParticleModel::Element(e) => if varies(e.props) && !(e.props.occurs.occurs_count_kind is None
            || e.props.occurs.occurs_count_kind == Some(OccursCountKind::Parsed)) {
            Some(
                types::broken_rule(
                    "Schema Definition Error: Member of an unordered sequence that is an optional or array element must have dfdl:occursCountKind='parsed'"@,
                ),
            )
        } else {
            None
        },
        _ => Some(
            types::broken_rule(
                "Schema Definition Error: Member of an unordered sequence must be an element declaration or element reference"@,
            ),
        ),
    }
}

fn check_member(p: &Particle) -> (r: Result<(), Error>)
    ensures
        types::fault_of(r) == member_fault(p.model()),
{
    match p {
        Particle::Element(e) => {
            let many = match occurs_max_of(&e.props) {
                Some(m) => m > 1,
                None => false,
            };
            if occurs_min_of(&e.props) == Some(0) || many {
                match occurs_count_kind_of(&e.props) {
                    Some(OccursCountKind::Parsed) | None => {},
                    _ => {
                        return Err(
                            invalid_property(
                                owned(
                                    "Schema Definition Error: Member of an unordered sequence that is an optional or array element must have dfdl:occursCountKind='parsed'",
                                ),
                            ),
                        );
                    },
                }
            }
            Ok(())
        },
        _ => Err(
            invalid_property(
                owned(
                    "Schema Definition Error: Member of an unordered sequence must be an element declaration or element reference",
                ),
            ),
        ),
    }
}

/// The first member from `i` on that may not be one.
pub open spec fn members_fault(list: Seq<ParticleModel>, i: nat) -> Option<ErrorModel>
    decreases list.len() - i,
{
    if i >= list.len() {
        None
    } else {
        match member_fault(list[i as int]) {
            Some(x) => Some(x),
            None => members_fault(list, i + 1),
        }
    }
}

/// The names of the first `n` members in order, each with whether it comes more
/// than once.
pub open spec fn member_names(list: Seq<ParticleModel>, n: nat) -> Seq<(Seq<char>, bool)>
    decreases n,
{
    if n == 0 {
        Seq::empty()
    } else {
        let before = member_names(list, (n - 1) as nat);
        match list[n - 1] {
            ParticleModel::Element(e) => strmap::with_entry(
                before,
                member_name(e),
                strmap::lookup(before, member_name(e)) is Some,
            ),
            _ => before,
        }
    }
}

/// The first name from `i` on that comes more than once.
pub open spec fn repeated_from(names: Seq<(Seq<char>, bool)>, i: nat) -> Option<Seq<char>>
    decreases names.len() - i,
{
    if i >= names.len() {
        None
    } else if names[i as int].1 {
        Some(names[i as int].0)
    } else {
        repeated_from(names, i + 1)
    }
}

/// Why the members of an unordered sequence break a rule.
pub open spec fn unordered_fault(list: Seq<ParticleModel>) -> Option<ErrorModel> {
    match members_fault(list, 0) {
        Some(x) => Some(x),
        None => match repeated_from(member_names(list, list.len()), 0) {
            Some(name) => Some(
                types::broken_rule(
                    "Schema Definition Error: Two or more members of an unordered sequence have the same name and the same namespace ("@
                        + name + ")"@,
                ),
            ),
            None => None,
        },
    }
}

fn check_unordered(list: &Vec<Particle>) -> (r: Result<(), Error>)
    ensures
        types::fault_of(r) == unordered_fault(ast::particle_models(*list)),
{
    let ghost all = ast::particle_models(*list);
    let mut names: StrMap<bool> = StrMap::new();
    let mut i: usize = 0;
    while i < list.len()
        invariant
            i <= list@.len(),
            all == ast::particle_models(*list),
            members_fault(all, 0) == members_fault(all, i as nat),
            names@ == member_names(all, i as nat),
        decreases list@.len() - i,
    {
        assert(all[i as int] == list@[i as int].model());
        check_member(&list[i])?;
        if let Particle::Element(e) = &list[i] {
            let key = name_of_member(e);
            let again = names.contains_key(key.as_str());
            names.insert(key, again);
        }
        i += 1;
    }
    let mut k: usize = 0;
    while k < names.entries.len()
        invariant
            k <= names.entries@.len(),
            all == ast::particle_models(*list),
            members_fault(all, 0) is None,
            names@ == member_names(all, all.len()),
            repeated_from(names@, 0) == repeated_from(names@, k as nat),
        decreases names.entries@.len() - k,
    {
        assert(names@[k as int] == names.entries@[k as int].deep_view());
        if names.entries[k].1 {
            return Err(
                invalid_property(
                    cat3(
                        "Schema Definition Error: Two or more members of an unordered sequence have the same name and the same namespace (",
                        names.entries[k].0.as_str(),
                        ")",
                    ),
                ),
            );
        }
        k += 1;
    }
    Ok(())
}

/// The first unordered sequence from `i` on whose members break a rule, in
/// sequences, choices and groups too.
pub open spec fn list_unordered_fault(
    schema: SchemaDocumentModel,
    list: Seq<ParticleModel>,
    i: nat,
    depth: nat,
) -> Option<ErrorModel>
    decreases depth, list, list.len() - i,
{
    if i >= list.len() {
        None
    } else {
        let here = match list[i as int] {
            ParticleModel::Sequence(s) => if s.props.delimiters.sequence_kind == Some(
                SequenceKind::Unordered,
            ) {
                unordered_fault(s.particles)
            } else {
                list_unordered_fault(schema, s.particles, 0, depth)
            },
            ParticleModel::Choice(c) => list_unordered_fault(schema, c.branches, 0, depth),
            ParticleModel::GroupRef(g) => match reach::group_named(schema, g.name) {
                Some(d) if depth > 0 => if is_unordered(d) {
                    unordered_fault(reach::group_list(d))
                } else {
                    list_unordered_fault(schema, reach::group_list(d), 0, (depth - 1) as nat)
                },
                _ => None,
            },
            ParticleModel::Element(_) => None,
        };
        match here {
            Some(x) => Some(x),
            None => list_unordered_fault(schema, list, i + 1, depth),
        }
    }
}

/// Whether a group is an unordered sequence.
pub open spec fn is_unordered(g: GroupDeclModel) -> bool {
    match g {
        GroupDeclModel::Sequence(s) => s.props.delimiters.sequence_kind == Some(
            SequenceKind::Unordered,
        ),
        _ => false,
    }
}

fn group_is_unordered(g: &GroupDecl) -> (r: bool)
    ensures
        r == is_unordered(g.deep_view()),
{
    match g {
        GroupDecl::Sequence(s) => sequence_kind_of(&s.props) == Some(SequenceKind::Unordered),
        _ => false,
    }
}

fn check_list_unordered(schema: &SchemaDocument, list: &Vec<Particle>, depth: usize) -> (r: Result<
    (),
    Error,
>)
    ensures
        types::fault_of(r) == list_unordered_fault(
            schema@,
            ast::particle_models(*list),
            0,
            depth as nat,
        ),
    decreases depth, ast::particle_models(*list),
{
    let ghost all = ast::particle_models(*list);
    let mut i: usize = 0;
    while i < list.len()
        invariant
            i <= list@.len(),
            all == ast::particle_models(*list),
            list_unordered_fault(schema@, all, 0, depth as nat) == list_unordered_fault(
                schema@,
                all,
                i as nat,
                depth as nat,
            ),
        decreases list@.len() - i,
    {
        proof {
            lemma_inside(*list, i as int);
        }
        match &list[i] {
            Particle::Sequence(s) => {
                if sequence_kind_of(&s.props) == Some(SequenceKind::Unordered) {
                    check_unordered(&s.particles)?;
                } else {
                    check_list_unordered(schema, &s.particles, depth)?;
                }
            },
            Particle::Choice(c) => {
                check_list_unordered(schema, &c.branches, depth)?;
            },
            Particle::GroupRef(g) => {
                if depth > 0 {
                    if let Some(d) = find_group(schema, g.name.as_str()) {
                        if group_is_unordered(d) {
                            check_unordered(group_particles(d))?;
                        } else {
                            check_list_unordered(schema, group_particles(d), depth - 1)?;
                        }
                    }
                }
            },
            Particle::Element(_) => {},
        }
        i += 1;
    }
    Ok(())
}

/// Why an unordered sequence in a complex type breaks a rule.
pub open spec fn content_unordered_fault(
    schema: SchemaDocumentModel,
    content: ComplexContentModel,
) -> Option<ErrorModel> {
    match content {
        ComplexContentModel::Sequence(s) => if s.props.delimiters.sequence_kind == Some(
            SequenceKind::Unordered,
        ) {
            unordered_fault(s.particles)
        } else {
            list_unordered_fault(schema, s.particles, 0, reach::group_depth(schema))
        },
        _ => None,
    }
}

/// Unordered sequences in a complex type keep the rules.
pub fn check_content_unordered(schema: &SchemaDocument, content: &ComplexContent) -> (r: Result<
    (),
    Error,
>)
    ensures
        types::fault_of(r) == content_unordered_fault(schema@, content.deep_view()),
{
    reveal(crate::ast::document_model);
    assert(schema@.groups.len() == schema.groups.entries@.len());
    match content {
        ComplexContent::Sequence(s) => if sequence_kind_of(&s.props) == Some(
            SequenceKind::Unordered,
        ) {
            check_unordered(&s.particles)
        } else {
            check_list_unordered(schema, &s.particles, schema.groups.len())
        },
        _ => Ok(()),
    }
}

} // verus!
