//! A rule on the paths of discriminators: only arrays are indexed.

use vstd::prelude::*;
use crate::ast;
use crate::ast::{
    ComplexContent, ComplexContentModel, DfdlProps, DfdlPropsModel, Particle, ParticleModel,
};
use crate::error::{invalid_property, Error, ErrorModel};
use crate::numbers;
use crate::numbers::parse_u32;
use crate::text;
use crate::text::{chars_of, find_char, part, strip_prefix, strip_suffix, trim};
use crate::validate::peek::discriminator_test_of;
use crate::validate::types;
use crate::values::owned;

verus! {

broadcast use vstd::string::group_string_axioms;

/// Whether a character belongs to a step of a path, with its index.
pub open spec fn step_char(c: char) -> bool {
    '0' <= c <= '9' || 'a' <= c <= 'z' || 'A' <= c <= 'Z' || c == ':' || c == '[' || c == ']'
}

fn is_step_char(c: char) -> (r: bool)
    ensures
        r == step_char(c),
{
    ('0' <= c && c <= '9') || ('a' <= c && c <= 'z') || ('A' <= c && c <= 'Z') || c == ':' || c
        == '[' || c == ']'
}

/// Where the step that begins at `i` ends.
pub open spec fn step_end(s: Seq<char>, i: nat) -> nat
    decreases s.len() - i,
{
    if i >= s.len() || !step_char(s[i as int]) {
        i
    } else {
        step_end(s, i + 1)
    }
}

fn find_step_end(s: &[char], from: usize) -> (r: usize)
    requires
        from <= s@.len(),
    ensures
        r == step_end(s@, from as nat),
        from <= r <= s@.len(),
{
    let mut i: usize = from;
    while i < s.len() && is_step_char(s[i])
        invariant
            from <= i <= s@.len(),
            step_end(s@, from as nat) == step_end(s@, i as nat),
        decreases s@.len() - i,
    {
        i += 1;
    }
    i
}

/// Whether a step has a number as its index.
pub open spec fn step_indexed(t: Seq<char>) -> bool {
    match text::char_pos(t, '[') {
        Some(o) => match text::before_suffix(t.skip(o + 1), "]"@) {
            Some(d) => numbers::u32_spec(d) is Some,
            None => false,
        },
        None => false,
    }
}

fn is_step_indexed(t: &[char]) -> (r: bool)
    ensures
        r == step_indexed(t@),
{
    proof {
        text::lemma_char_pos(t@, '[');
    }
    match find_char(t, '[') {
        Some(o) => {
            assert(t@.subrange(o + 1, t@.len() as int) =~= t@.skip(o + 1));
            let n: usize = t.len();
            match strip_suffix(part(t, o + 1, n), "]") {
                Some(d) => parse_u32(d).is_some(),
                None => false,
            }
        },
        None => false,
    }
}

/// Whether some step from `i` on has a number as its index.
pub open spec fn some_indexed(s: Seq<char>, i: nat) -> bool
    decreases s.len() - i,
{
    if i > s.len() {
        false
    } else {
        let j = step_end(s, i);
        step_indexed(s.subrange(i as int, j as int)) || (i <= j < s.len() && some_indexed(s, j + 1))
    }
}

/// The expression in braces, or the text itself.
pub open spec fn unbraced(s: Seq<char>) -> Seq<char> {
    match text::after_prefix(text::trim_spec(s), "{"@) {
        Some(r) => match text::before_suffix(r, "}"@) {
            Some(x) => x,
            None => s,
        },
        None => s,
    }
}

/// Whether a test has a step with a number as its index.
pub open spec fn uses_index(test: Seq<char>) -> bool {
    some_indexed(unbraced(test), 0)
}

fn scan_steps(s: &[char]) -> (r: bool)
    ensures
        r == some_indexed(s@, 0),
{
    let mut i: usize = 0;
    loop
        invariant
            i <= s@.len(),
            some_indexed(s@, 0) == some_indexed(s@, i as nat),
        decreases s@.len() - i,
    {
        let j: usize = find_step_end(s, i);
        if is_step_indexed(part(s, i, j)) {
            return true;
        }
        if j >= s.len() {
            return false;
        }
        i = j + 1;
    }
}

fn assert_uses_scalar_path_index(test: &str) -> (r: bool)
    ensures
        r == uses_index(test@),
{
    let c = chars_of(test);
    if let Some(x) = strip_prefix(trim(c.as_slice()), "{") {
        if let Some(inner) = strip_suffix(x, "}") {
            return scan_steps(inner);
        }
    }
    scan_steps(c.as_slice())
}

/// Why the discriminator of an element breaks the rule.
pub open spec fn props_index_fault(p: DfdlPropsModel) -> Option<ErrorModel> {
    match p.statements.discriminator_test {
        Some(t) if uses_index(t) => Some(
            types::broken_rule("Schema Definition Error: Indexing is only allowed on arrays"@),
        ),
        _ => None,
    }
}

fn check_props(p: &DfdlProps) -> (r: Result<(), Error>)
    ensures
        types::fault_of(r) == props_index_fault(p@),
{
    if let Some(t) = discriminator_test_of(p) {
        if assert_uses_scalar_path_index(t) {
            return Err(
                invalid_property(
                    owned("Schema Definition Error: Indexing is only allowed on arrays"),
                ),
            );
        }
    }
    Ok(())
}

/// Why a particle, or what it holds, breaks the rule.
#[verifier::opaque]
pub open spec fn particle_index_fault(p: ParticleModel) -> Option<ErrorModel>
    decreases p, 0int,
{
    match p {
        ParticleModel::Element(e) => props_index_fault(e.props),
        ParticleModel::Sequence(s) => list_index_fault(s.particles, 0),
        ParticleModel::Choice(c) => list_index_fault(c.branches, 0),
        ParticleModel::GroupRef(_) => None,
    }
}

/// The first particle from `i` on that breaks the rule.
#[verifier::opaque]
pub open spec fn list_index_fault(list: Seq<ParticleModel>, i: nat) -> Option<ErrorModel>
    decreases list, list.len() - i,
{
    if i >= list.len() {
        None
    } else {
        match particle_index_fault(list[i as int]) {
            Some(x) => Some(x),
            None => list_index_fault(list, i + 1),
        }
    }
}

fn validate_particle_assert_indexing(p: &Particle) -> (r: Result<(), Error>)
    ensures
        types::fault_of(r) == particle_index_fault(p.model()),
    decreases p.model(),
{
    proof {
        reveal(particle_index_fault);
        reveal(list_index_fault);
    }
    match p {
        Particle::Element(e) => check_props(&e.props),
        Particle::Sequence(s) => {
            assert(decreases_to!(p.model() => p.model()->Sequence_0));
            assert(decreases_to!(p.model()->Sequence_0 => p.model()->Sequence_0.particles));
            check_list(&s.particles)
        },
        Particle::Choice(c) => {
            assert(decreases_to!(p.model() => p.model()->Choice_0));
            assert(decreases_to!(p.model()->Choice_0 => p.model()->Choice_0.branches));
            check_list(&c.branches)
        },
        Particle::GroupRef(_) => Ok(()),
    }
}

fn check_list(list: &Vec<Particle>) -> (r: Result<(), Error>)
    ensures
        types::fault_of(r) == list_index_fault(ast::particle_models(*list), 0),
    decreases ast::particle_models(*list),
{
    let ghost all = ast::particle_models(*list);
    let mut i: usize = 0;
    while i < list.len()
        invariant
            i <= list@.len(),
            all == ast::particle_models(*list),
            list_index_fault(all, 0) == list_index_fault(all, i as nat),
        decreases list@.len() - i,
    {
        proof {
            reveal(list_index_fault);
            reveal(particle_index_fault);
            assert(all[i as int] == list@[i as int].model());
            assert(decreases_to!(all => all[i as int]));
        }
        validate_particle_assert_indexing(&list[i])?;
        i += 1;
    }
    proof {
        reveal(list_index_fault);
        reveal(particle_index_fault);
    }
    Ok(())
}

/// Why a complex type breaks the rule.
pub open spec fn content_index_fault(content: ComplexContentModel) -> Option<ErrorModel> {
    match content {
        ComplexContentModel::Sequence(s) => list_index_fault(s.particles, 0),
        _ => None,
    }
}

/// The discriminators in a complex type keep the rule.
pub fn validate_content_assert_indexing(content: &ComplexContent) -> (r: Result<(), Error>)
    ensures
        types::fault_of(r) == content_index_fault(content.deep_view()),
{
    match content {
        ComplexContent::Sequence(s) => check_list(&s.particles),
        _ => Ok(()),
    }
}

} // verus!
