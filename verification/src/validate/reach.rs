//! What can be reached from the root of a schema.

use vstd::prelude::*;
use crate::ast;
use crate::ast::{
    BuiltinType, ComplexContent, ComplexContentModel, GroupDecl, GroupDeclModel, Particle,
    ParticleModel, RestrictionBase, RestrictionBaseModel, SchemaDocument, SchemaDocumentModel,
    SimpleBase, SimpleBaseModel, TypeDef, TypeDefModel, TypeName,
};
use crate::qname;
use crate::qname::{get_global_element, local_name_from_qname};
use crate::strmap;
use crate::strmap::StrMap;
use crate::values;
use crate::values::{owned, Duplicate};

verus! {

broadcast use vstd::string::group_string_axioms;

/// The type of this name.
pub open spec fn type_named(schema: SchemaDocumentModel, name: Seq<char>) -> Option<TypeDefModel> {
    strmap::lookup(schema.types, name)
}

/// The group that a reference names.
pub open spec fn group_named(schema: SchemaDocumentModel, name: Seq<char>) -> Option<
    GroupDeclModel,
> {
    strmap::lookup(schema.groups, qname::local_spec(name))
}

/// The group that a reference names.
#[verifier::spinoff_prover]
pub fn find_group<'a>(schema: &'a SchemaDocument, name: &str) -> (r: Option<&'a GroupDecl>)
    ensures
        match r {
            Some(g) => group_named(schema@, name@) == Some(g.deep_view()),
            None => group_named(schema@, name@) is None,
        },
{
    reveal(crate::ast::document_model);
    let local = local_name_from_qname(name);
    schema.groups.get(local.as_str())
}

/// The particles of a group.
pub open spec fn group_list(g: GroupDeclModel) -> Seq<ParticleModel> {
    match g {
        GroupDeclModel::Sequence(s) => s.particles,
        GroupDeclModel::Choice(c) => c.branches,
    }
}

/// The particles of a group.
#[verifier::spinoff_prover]
pub fn group_particles<'a>(g: &'a GroupDecl) -> (r: &'a Vec<Particle>)
    ensures
        ast::particle_models(*r) == group_list(g.deep_view()),
{
    match g {
        GroupDecl::Sequence(s) => &s.particles,
        GroupDecl::Choice(c) => &c.branches,
    }
}

/// The particles of a complex type.
pub open spec fn content_list(c: ComplexContentModel) -> Seq<ParticleModel> {
    match c {
        ComplexContentModel::Empty => Seq::empty(),
        ComplexContentModel::Sequence(s) => s.particles,
        ComplexContentModel::Choice(c) => c.branches,
    }
}

/// The particles of a complex type that has any.
#[verifier::spinoff_prover]
pub fn content_particles<'a>(c: &'a ComplexContent) -> (r: Option<&'a Vec<Particle>>)
    ensures
        match r {
            Some(l) => ast::particle_models(*l) == content_list(c.deep_view()),
            None => content_list(c.deep_view()).len() == 0 && c.deep_view() is Empty,
        },
        r is None <==> c.deep_view() is Empty,
{
    match c {
        ComplexContent::Empty => None,
        ComplexContent::Sequence(s) => Some(&s.particles),
        ComplexContent::Choice(c) => Some(&c.branches),
    }
}

// How far a walk can go.
/// The number of particles in a list, those in its sequences and choices counted.
pub open spec fn size_from(list: Seq<ParticleModel>, i: nat) -> nat
    decreases list, list.len() - i,
{
    if i >= list.len() {
        0
    } else {
        1 + (match list[i as int] {
            ParticleModel::Sequence(s) => size_from(s.particles, 0),
            ParticleModel::Choice(c) => size_from(c.branches, 0),
            _ => 0,
        }) + size_from(list, i + 1)
    }
}

/// The number of particles in the complex types before `n`.
pub open spec fn types_size(types: Seq<(Seq<char>, TypeDefModel)>, n: nat) -> nat
    decreases n,
{
    if n == 0 {
        0
    } else {
        types_size(types, (n - 1) as nat) + match types[n - 1].1 {
            TypeDefModel::Complex { content, .. } => size_from(content_list(content), 0),
            _ => 0,
        }
    }
}

/// The number of particles in the groups before `n`.
pub open spec fn groups_size(groups: Seq<(Seq<char>, GroupDeclModel)>, n: nat) -> nat
    decreases n,
{
    if n == 0 {
        0
    } else {
        groups_size(groups, (n - 1) as nat) + size_from(group_list(groups[n - 1].1), 0)
    }
}

/// A number of particles, as far as it is counted.
pub open spec fn counted(n: nat) -> u64 {
    values::least(n, u64::MAX as nat) as u64
}

/// How many particles can stand inside one another in a schema that does not
/// contain itself.
pub open spec fn walk_limit(schema: SchemaDocumentModel) -> nat {
    counted(
        1 + types_size(schema.types, schema.types.len()) + groups_size(
            schema.groups,
            schema.groups.len(),
        ),
    ) as nat
}

/// What stands in a sequence or a choice is smaller than the list it stands in.
#[verifier::spinoff_prover]
pub proof fn lemma_inside(list: Vec<Particle>, i: int)
    requires
        0 <= i < list@.len(),
    ensures
        ast::particle_models(list)[i] == list@[i].model(),
        list@[i] matches Particle::Sequence(s) ==> decreases_to!(ast::particle_models(list)
            => ast::particle_models(s.particles)),
        list@[i] matches Particle::Choice(c) ==> decreases_to!(ast::particle_models(list)
            => ast::particle_models(c.branches)),
{
    let all = ast::particle_models(list);
    assert(decreases_to!(all => all[i]));
    match list@[i] {
        Particle::Sequence(s) => {
            let m = all[i]->Sequence_0;
            assert(m == s.model());
            assert(decreases_to!(all[i] => all[i]->Sequence_0));
            assert(decreases_to!(m => m.particles));
        },
        Particle::Choice(c) => {
            let m = all[i]->Choice_0;
            assert(m == c.model());
            assert(decreases_to!(all[i] => all[i]->Choice_0));
            assert(decreases_to!(m => m.branches));
        },
        _ => {},
    }
}

#[verifier::spinoff_prover]
fn plus(a: u64, b: u64) -> (r: u64)
    ensures
        r == counted((a + b) as nat),
{
    if a > u64::MAX - b {
        u64::MAX
    } else {
        a + b
    }
}

#[verifier::spinoff_prover]
fn count_particles(list: &Vec<Particle>) -> (r: u64)
    ensures
        r == counted(size_from(ast::particle_models(*list), 0)),
    decreases ast::particle_models(*list),
{
    let ghost all = ast::particle_models(*list);
    let mut i: usize = list.len();
    let mut total: u64 = 0;
    while i > 0
        invariant
            i <= list@.len(),
            all == ast::particle_models(*list),
            total == counted(size_from(all, i as nat)),
        decreases i,
    {
        i -= 1;
        proof {
            lemma_inside(*list, i as int);
        }
        let inner: u64 = match &list[i] {
            Particle::Sequence(s) => count_particles(&s.particles),
            Particle::Choice(c) => count_particles(&c.branches),
            _ => 0,
        };
        total = plus(plus(1, inner), total);
    }
    total
}

/// How many particles can stand inside one another in a schema that does not
/// contain itself.
#[verifier::spinoff_prover]
pub fn limit_of(schema: &SchemaDocument) -> (r: u64)
    ensures
        r == walk_limit(schema@),
{
    reveal(crate::ast::document_model);
    let mut total: u64 = 1;
    let mut i: usize = 0;
    while i < schema.types.entries.len()
        invariant
            i <= schema.types.entries@.len(),
            total == counted(1 + types_size(schema@.types, i as nat)),
        decreases schema.types.entries@.len() - i,
    {
        reveal(crate::ast::document_model);
        assert(schema@.types[i as int] == schema.types.entries@[i as int].deep_view());
        if let TypeDef::Complex { content, .. } = &schema.types.entries[i].1 {
            if let Some(l) = content_particles(content) {
                total = plus(total, count_particles(l));
            }
        }
        i += 1;
    }
    let mut k: usize = 0;
    while k < schema.groups.entries.len()
        invariant
            k <= schema.groups.entries@.len(),
            schema.types.entries@.len() == schema@.types.len(),
            total == counted(
                1 + types_size(schema@.types, schema@.types.len()) + groups_size(
                    schema@.groups,
                    k as nat,
                ),
            ),
        decreases schema.groups.entries@.len() - k,
    {
        reveal(crate::ast::document_model);
        assert(schema@.groups[k as int] == schema.groups.entries@[k as int].deep_view());
        total = plus(total, count_particles(group_particles(&schema.groups.entries[k].1)));
        k += 1;
    }
    total
}

// The types that particles name.
/// How many groups can stand inside one another in a schema that does not contain
/// itself.
pub open spec fn group_depth(schema: SchemaDocumentModel) -> nat {
    schema.groups.len()
}

/// The types of the elements that stand from `i` on, of those in sequences and
/// choices, and of those in groups that are named, where they are types of the
/// schema.
pub open spec fn names_from(
    schema: SchemaDocumentModel,
    list: Seq<ParticleModel>,
    i: nat,
    depth: nat,
) -> Seq<Seq<char>>
    decreases depth, list, list.len() - i,
{
    if i >= list.len() {
        Seq::empty()
    } else {
        (match list[i as int] {
            ParticleModel::Element(e) => if ast::builtin_spec(e.type_ref) is None {
                seq![e.type_ref]
            } else {
                Seq::empty()
            },
            ParticleModel::Sequence(s) => names_from(schema, s.particles, 0, depth),
            ParticleModel::Choice(c) => names_from(schema, c.branches, 0, depth),
            ParticleModel::GroupRef(g) => match group_named(schema, g.name) {
                Some(d) if depth > 0 => names_from(
                    schema,
                    group_list(d),
                    0,
                    (depth - 1) as nat,
                ),
                _ => Seq::empty(),
            },
        }) + names_from(schema, list, i + 1, depth)
    }
}

/// The types that a particle names.
pub open spec fn names_at(schema: SchemaDocumentModel, p: ParticleModel, depth: nat) -> Seq<
    Seq<char>,
> {
    match p {
        ParticleModel::Element(e) => if ast::builtin_spec(e.type_ref) is None {
            seq![e.type_ref]
        } else {
            Seq::empty()
        },
        ParticleModel::Sequence(s) => names_from(schema, s.particles, 0, depth),
        ParticleModel::Choice(c) => names_from(schema, c.branches, 0, depth),
        ParticleModel::GroupRef(g) => match group_named(schema, g.name) {
            Some(d) if depth > 0 => names_from(schema, group_list(d), 0, (depth - 1) as nat),
            _ => Seq::empty(),
        },
    }
}

proof fn lemma_names_step(schema: SchemaDocumentModel, list: Seq<ParticleModel>, i: nat, depth: nat)
    requires
        i < list.len(),
    ensures
        names_from(schema, list, i, depth) == names_at(schema, list[i as int], depth) + names_from(
            schema,
            list,
            i + 1,
            depth,
        ),
{
}

/// Adds the types that a particle names.
#[verifier::spinoff_prover]
fn add_names_at(schema: &SchemaDocument, p: &Particle, depth: usize, out: &mut Vec<String>)
    ensures
        final(out).deep_view() == old(out).deep_view() + names_at(schema@, p.model(), depth as nat),
    decreases depth, p.model(),
{
    let ghost before = out.deep_view();
    assert(before + Seq::<Seq<char>>::empty() =~= before);
    match p {
        Particle::Element(e) => {
            if BuiltinType::from_xsd(e.type_ref.as_str()).is_none() {
                let name = owned(e.type_ref.as_str());
                let ghost shown = name@;
                out.push(name);
                assert(out.deep_view() =~= before + seq![shown]);
            }
        },
        Particle::Sequence(s) => {
            proof {
                let m = p.model();
                assert(m->Sequence_0 == s.model());
                assert(decreases_to!(m => m->Sequence_0));
                assert(decreases_to!(m->Sequence_0 => m->Sequence_0.particles));
            }
            add_names(schema, &s.particles, depth, out);
        },
        Particle::Choice(c) => {
            proof {
                let m = p.model();
                assert(m->Choice_0 == c.model());
                assert(decreases_to!(m => m->Choice_0));
                assert(decreases_to!(m->Choice_0 => m->Choice_0.branches));
            }
            add_names(schema, &c.branches, depth, out);
        },
        Particle::GroupRef(g) => {
            if depth > 0 {
                if let Some(d) = find_group(schema, g.name.as_str()) {
                    add_names(schema, group_particles(d), depth - 1, out);
                }
            }
        },
    }
}

/// Adds the types that particles name.
#[verifier::spinoff_prover]
pub fn add_names(
    schema: &SchemaDocument,
    list: &Vec<Particle>,
    depth: usize,
    out: &mut Vec<String>,
)
    ensures
        final(out).deep_view() == old(out).deep_view() + names_from(
            schema@,
            ast::particle_models(*list),
            0,
            depth as nat,
        ),
    decreases depth, ast::particle_models(*list),
{
    let ghost all = ast::particle_models(*list);
    let ghost want = out.deep_view() + names_from(schema@, all, 0, depth as nat);
    let mut i: usize = 0;
    while i < list.len()
        invariant
            i <= list@.len(),
            all == ast::particle_models(*list),
            all.len() == list@.len(),
            want == out.deep_view() + names_from(schema@, all, i as nat, depth as nat),
        decreases list@.len() - i,
    {
        let ghost before = out.deep_view();
        proof {
            lemma_inside(*list, i as int);
            assert(decreases_to!(all => all[i as int]));
            lemma_names_step(schema@, all, i as nat, depth as nat);
        }
        add_names_at(schema, &list[i], depth, out);
        proof {
            let here = names_at(schema@, all[i as int], depth as nat);
            let rest = names_from(schema@, all, (i + 1) as nat, depth as nat);
            assert(before + (here + rest) =~= (before + here) + rest);
        }
        i += 1;
    }
    assert(out.deep_view() + Seq::<Seq<char>>::empty() =~= out.deep_view());
}

/// The types that a type names.
pub open spec fn names_in_type(schema: SchemaDocumentModel, t: TypeDefModel) -> Seq<Seq<char>> {
    match t {
        TypeDefModel::Complex { content, .. } => names_from(
            schema,
            content_list(content),
            0,
            group_depth(schema),
        ),
        TypeDefModel::Simple { base, .. } => match base {
            SimpleBaseModel::Restriction { base: RestrictionBaseModel::Named(parent), .. } => if type_named(
                schema,
                parent,
            ) is Some {
                seq![parent]
            } else {
                Seq::empty()
            },
            _ => Seq::empty(),
        },
    }
}

#[verifier::spinoff_prover]
fn add_names_of_type(schema: &SchemaDocument, t: &TypeDef, out: &mut Vec<String>)
    ensures
        final(out).deep_view() == old(out).deep_view() + names_in_type(schema@, t.deep_view()),
{
    reveal(crate::ast::document_model);
    let ghost before = out.deep_view();
    assert(schema@.groups.len() == schema.groups.entries@.len());
    match t {
        TypeDef::Complex { content, .. } => {
            if let Some(l) = content_particles(content) {
                add_names(schema, l, schema.groups.len(), out);
            } else {
                assert(out.deep_view() =~= before + names_in_type(schema@, t.deep_view()));
            }
        },
        TypeDef::Simple { base, .. } => {
            if let SimpleBase::Restriction { base: RestrictionBase::Named(parent), .. } = base {
                if schema.resolve_type(parent).is_some() {
                    let name = owned(parent.as_str());
                    let ghost shown = name@;
                    out.push(name);
                    assert(out.deep_view() =~= before.push(shown));
                }
            }
            assert(out.deep_view() =~= before + names_in_type(schema@, t.deep_view()));
        },
    }
}

/// The types that are reached from those in a queue, behind those already seen.
pub open spec fn reached_from(
    schema: SchemaDocumentModel,
    queue: Seq<Seq<char>>,
    seen: Seq<(Seq<char>, bool)>,
    left: nat,
) -> Seq<(Seq<char>, bool)>
    decreases left, queue.len(),
{
    if queue.len() == 0 {
        seen
    } else {
        let name = queue[0];
        let rest = queue.skip(1);
        if strmap::lookup(seen, name) is Some {
            reached_from(schema, rest, seen, left)
        } else {
            let now = strmap::with_entry(seen, name, true);
            match type_named(schema, name) {
                Some(t) if ast::builtin_spec(name) is None => if left == 0 {
                    now
                } else {
                    reached_from(
                        schema,
                        rest + names_in_type(schema, t),
                        now,
                        (left - 1) as nat,
                    )
                },
                _ => reached_from(schema, rest, now, left),
            }
        }
    }
}

/// The types that are reached from the root, in the order of their names.
pub open spec fn reachable(schema: SchemaDocumentModel, root: Seq<char>) -> Seq<
    (Seq<char>, bool),
> {
    match qname::global_element(schema, root) {
        None => Seq::empty(),
        Some(g) => reached_from(schema, seq![g.type_ref], Seq::empty(), schema.types.len()),
    }
}

/// The types that are reached from the root.
#[verifier::spinoff_prover]
pub fn types_reachable_from_root(schema: &SchemaDocument, root: &str) -> (r: StrMap<bool>)
    ensures
        r@ == reachable(schema@, root@),
{
    reveal(crate::ast::document_model);
    let mut seen: StrMap<bool> = StrMap::new();
    let g = match get_global_element(schema, root) {
        None => {
            return seen;
        },
        Some(g) => g,
    };
    let mut queue: Vec<String> = Vec::new();
    queue.push(owned(g.type_ref.as_str()));
    let mut at: usize = 0;
    let mut left: usize = schema.types.len();
    let ghost want = reachable(schema@, root@);
    assert(queue.deep_view() =~= seq![g@.type_ref]);
    assert(queue.deep_view().skip(0) =~= queue.deep_view());
    while at < queue.len()
        invariant
            at <= queue@.len(),
            want == reachable(schema@, root@),
            want == reached_from(schema@, queue.deep_view().skip(at as int), seen@, left as nat),
        decreases left, queue@.len() - at,
    {
        reveal(crate::ast::document_model);
        let ghost rest = queue.deep_view().skip(at as int);
        assert(rest[0] == queue@[at as int]@);
        assert(rest.skip(1) =~= queue.deep_view().skip(at + 1));
        let name = queue[at].copy();
        at += 1;
        if seen.contains_key(name.as_str()) {
            continue;
        }
        seen.insert(name.copy(), true);
        if BuiltinType::from_xsd(name.as_str()).is_some() {
            continue;
        }
        let tn = TypeName::new(name.as_str());
        if let Some(t) = schema.resolve_type(&tn) {
            if left == 0 {
                return seen;
            }
            left -= 1;
            let ghost before = queue.deep_view();
            add_names_of_type(schema, t, &mut queue);
            assert(queue.deep_view().skip(at as int) =~= before.skip(at as int) + names_in_type(
                schema@,
                t.deep_view(),
            ));
        }
    }
    seen
}

} // verus!
