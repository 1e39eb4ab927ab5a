//! What the settings require of a schema.

use vstd::prelude::*;
use crate::ast;
use crate::ast::{
    ComplexContent, ComplexContentModel, DfdlProps, DfdlPropsModel, Particle, ParticleModel,
    SchemaDocument, SchemaDocumentModel, TypeDef, TypeDefModel, TypeName,
};
use crate::error::{invalid_property, Error, ErrorModel};
use crate::qname;
use crate::qname::get_global_element;
use crate::tdml::suite::{DaffodilTunables, DaffodilTunablesModel};
use crate::validate::hidden;
use crate::validate::hidden::nesting_of;
use crate::validate::peek::{floating_of, text_bidi_of};
use crate::validate::reach;
use crate::validate::reach::{find_group, group_particles};
use crate::validate::types;
use crate::values::owned;

verus! {

broadcast use vstd::string::group_string_axioms;

/// Why properties are not what the settings require, or ask for what is not
/// supported.
pub open spec fn props_fault(p: DfdlPropsModel, t: DaffodilTunablesModel) -> Option<ErrorModel> {
    if t.require_text_bidi_property == Some(true) && p.text.text_bidi is None {
        Some(
            types::broken_rule("Schema Definition Error: Property textBidi is not defined."@),
        )
    } else if p.text.text_bidi == Some(true) {
        Some(
            types::broken_rule(
                "Schema Definition Error: Property value textBidi='yes' is not supported."@,
            ),
        )
    } else if t.require_floating_property == Some(true) && p.occurs.floating is None {
        Some(
            types::broken_rule("Schema Definition Error: Property floating is not defined."@),
        )
    } else if p.occurs.floating == Some(true) {
        Some(
            types::broken_rule(
                "Schema Definition Error: Property value floating='yes' is not supported."@,
            ),
        )
    } else {
        None
    }
}

fn check_format_props(p: &DfdlProps, t: &DaffodilTunables) -> (r: Result<(), Error>)
    ensures
        types::fault_of(r) == props_fault(p@, t@),
{
    let bidi = text_bidi_of(p);
    let floating = floating_of(p);
    if t.require_text_bidi_property == Some(true) && bidi.is_none() {
        return Err(
            invalid_property(
                owned("Schema Definition Error: Property textBidi is not defined."),
            ),
        );
    }
    if bidi == Some(true) {
        return Err(
            invalid_property(
                owned("Schema Definition Error: Property value textBidi='yes' is not supported."),
            ),
        );
    }
    if t.require_floating_property == Some(true) && floating.is_none() {
        return Err(
            invalid_property(
                owned("Schema Definition Error: Property floating is not defined."),
            ),
        );
    }
    if floating == Some(true) {
        return Err(
            invalid_property(
                owned("Schema Definition Error: Property value floating='yes' is not supported."),
            ),
        );
    }
    Ok(())
}

/// Why a particle, or what it holds, is not what the settings require. The
/// properties of sequences and choices count only at the top of a complex type.
#[verifier::opaque]
pub open spec fn particle_fault(
    schema: SchemaDocumentModel,
    p: ParticleModel,
    t: DaffodilTunablesModel,
    depth: nat,
) -> Option<ErrorModel>
    decreases 2 * depth, p, 0int,
{
    match p {
        ParticleModel::Element(e) => match props_fault(e.props, t) {
            Some(x) => Some(x),
            None => if depth > 0 {
                type_fault(schema, e.type_ref, t, (depth - 1) as nat)
            } else {
                None
            },
        },
        ParticleModel::Sequence(s) => list_fault(schema, s.particles, 0, t, depth),
        ParticleModel::Choice(c) => list_fault(schema, c.branches, 0, t, depth),
        ParticleModel::GroupRef(g) => match reach::group_named(schema, g.name) {
            Some(d) => if depth > 0 {
                list_fault(schema, reach::group_list(d), 0, t, (depth - 1) as nat)
            } else {
                None
            },
            None => None,
        },
    }
}

/// The first particle from `i` on that is not what the settings require.
#[verifier::opaque]
pub open spec fn list_fault(
    schema: SchemaDocumentModel,
    list: Seq<ParticleModel>,
    i: nat,
    t: DaffodilTunablesModel,
    depth: nat,
) -> Option<ErrorModel>
    decreases 2 * depth, list, list.len() - i,
{
    if i >= list.len() {
        None
    } else {
        match particle_fault(schema, list[i as int], t, depth) {
            Some(x) => Some(x),
            None => list_fault(schema, list, i + 1, t, depth),
        }
    }
}

/// Why a complex type is not what the settings require.
#[verifier::opaque]
pub open spec fn type_fault(
    schema: SchemaDocumentModel,
    name: Seq<char>,
    t: DaffodilTunablesModel,
    depth: nat,
) -> Option<ErrorModel>
    decreases 2 * depth + 1, None::<int>, 0int,
{
    match reach::type_named(schema, name) {
        Some(TypeDefModel::Complex { content, .. }) => match content_props_fault(content, t) {
            Some(x) => Some(x),
            None => list_fault(schema, reach::content_list(content), 0, t, depth),
        },
        _ => None,
    }
}

/// Why the sequence or choice of a complex type is not what the settings require.
pub open spec fn content_props_fault(
    content: ComplexContentModel,
    t: DaffodilTunablesModel,
) -> Option<ErrorModel> {
    match content {
        ComplexContentModel::Sequence(s) => props_fault(s.props, t),
        ComplexContentModel::Choice(c) => props_fault(c.props, t),
        ComplexContentModel::Empty => None,
    }
}

fn walk_element(
    schema: &SchemaDocument,
    p: &Particle,
    t: &DaffodilTunables,
    depth: u64,
) -> (r: Result<(), Error>)
    ensures
        types::fault_of(r) == particle_fault(schema@, p.model(), t@, depth as nat),
    decreases 2 * depth, p.model(),
{
    proof {
        reveal(particle_fault);
        reveal(list_fault);
        reveal(type_fault);
    }
    match p {
        Particle::Element(e) => {
            check_format_props(&e.props, t)?;
            if depth > 0 {
                walk_type(schema, &e.type_ref, t, depth - 1)
            } else {
                Ok(())
            }
        },
        Particle::Sequence(s) => {
            assert(decreases_to!(p.model() => p.model()->Sequence_0));
            assert(decreases_to!(p.model()->Sequence_0 => p.model()->Sequence_0.particles));
            walk_particles(schema, &s.particles, t, depth)
        },
        Particle::Choice(c) => {
            assert(decreases_to!(p.model() => p.model()->Choice_0));
            assert(decreases_to!(p.model()->Choice_0 => p.model()->Choice_0.branches));
            walk_particles(schema, &c.branches, t, depth)
        },
        Particle::GroupRef(g) => {
            if depth > 0 {
                if let Some(d) = find_group(schema, g.name.as_str()) {
                    return walk_particles(schema, group_particles(d), t, depth - 1);
                }
            }
            Ok(())
        },
    }
}

fn walk_particles(
    schema: &SchemaDocument,
    list: &Vec<Particle>,
    t: &DaffodilTunables,
    depth: u64,
) -> (r: Result<(), Error>)
    ensures
        types::fault_of(r) == list_fault(
            schema@,
            ast::particle_models(*list),
            0,
            t@,
            depth as nat,
        ),
    decreases 2 * depth, ast::particle_models(*list),
{
    let ghost all = ast::particle_models(*list);
    let mut i: usize = 0;
    while i < list.len()
        invariant
            i <= list@.len(),
            all == ast::particle_models(*list),
            list_fault(schema@, all, 0, t@, depth as nat) == list_fault(
                schema@,
                all,
                i as nat,
                t@,
                depth as nat,
            ),
        decreases list@.len() - i,
    {
        proof {
            reveal(list_fault);
            reveal(particle_fault);
            assert(all[i as int] == list@[i as int].model());
            assert(decreases_to!(all => all[i as int]));
        }
        walk_element(schema, &list[i], t, depth)?;
        i += 1;
    }
    proof {
        reveal(list_fault);
        reveal(particle_fault);
    }
    Ok(())
}

fn walk_type(
    schema: &SchemaDocument,
    name: &TypeName,
    t: &DaffodilTunables,
    depth: u64,
) -> (r: Result<(), Error>)
    ensures
        types::fault_of(r) == type_fault(schema@, name@, t@, depth as nat),
    decreases 2 * depth + 1, None::<int>,
{
    proof {
        reveal(type_fault);
        reveal(list_fault);
        reveal(particle_fault);
    }
    match schema.resolve_type(name) {
        Some(TypeDef::Complex { content, .. }) => match content {
            ComplexContent::Sequence(s) => {
                check_format_props(&s.props, t)?;
                walk_particles(schema, &s.particles, t, depth)
            },
            ComplexContent::Choice(c) => {
                check_format_props(&c.props, t)?;
                walk_particles(schema, &c.branches, t, depth)
            },
            ComplexContent::Empty => Ok(()),
        },
        _ => Ok(()),
    }
}

/// Why a schema is not what the settings require.
pub open spec fn requirements_fault(
    schema: SchemaDocumentModel,
    root: Seq<char>,
    t: DaffodilTunablesModel,
) -> Option<ErrorModel> {
    if t.require_encoding_error_policy == Some(true)
        && !schema.explicit_encoding_error_policy_on_format {
        Some(
            types::broken_rule(
                "Schema Definition Error: Property encodingErrorPolicy is not defined."@,
            ),
        )
    } else {
        match props_fault(schema.format_defaults.props, t) {
            Some(x) => Some(x),
            None => match qname::global_element(schema, root) {
                None => None,
                Some(g) => match props_fault(g.props, t) {
                    Some(x) => Some(x),
                    None => type_fault(schema, g.type_ref, t, hidden::depth_limit(schema)),
                },
            },
        }
    }
}

/// A schema is what the settings require.
pub fn validate_tunable_schema_requirements(
    schema: &SchemaDocument,
    root: &str,
    tunables: &DaffodilTunables,
) -> (r: Result<(), Error>)
    ensures
        types::fault_of(r) == requirements_fault(schema@, root@, tunables@),
{
    reveal(crate::ast::document_model);
    if tunables.require_encoding_error_policy == Some(true)
        && !schema.explicit_encoding_error_policy_on_format {
        return Err(
            invalid_property(
                owned("Schema Definition Error: Property encodingErrorPolicy is not defined."),
            ),
        );
    }
    check_format_props(&schema.format_defaults.props, tunables)?;
    match get_global_element(schema, root) {
        None => Ok(()),
        Some(g) => {
            check_format_props(&g.props, tunables)?;
            let depth = nesting_of(schema);
            walk_type(schema, &g.type_ref, tunables, depth)
        },
    }
}

} // verus!
