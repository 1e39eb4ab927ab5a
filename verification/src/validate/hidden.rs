//! Rules on hidden groups: what is hidden must be written without an infoset.

use vstd::prelude::*;
use crate::ast;
use crate::ast::{
    BuiltinType, ComplexContent, ComplexContentModel, DfdlPropsModel, ElementDecl,
    ElementDeclModel, GroupDecl, GroupDeclModel, Particle, ParticleModel, SchemaDocument,
    SchemaDocumentModel, TypeDef, TypeDefModel, TypeName,
};
use crate::error::{cat2, cat4};
use crate::qname;
use crate::qname::{get_global_element, local_name_from_qname};
use crate::strmap;
use crate::strmap::StrMap;
use crate::tdml::compare;
use crate::text;
use crate::text::{append_chars, chars_of, eq, string_of};
use crate::validate::peek;
use crate::validate::peek::{can_be_absent_from_unparse_infoset, hidden_group_ref_of};
use crate::validate::reach;
use crate::validate::reach::{content_particles, find_group, group_particles, lemma_inside};
use crate::values;
use crate::values::{owned, Duplicate};

verus! {

broadcast use vstd::string::group_string_axioms;

/// How many types and groups can stand inside one another in a schema that does
/// not contain itself.
pub open spec fn nesting(schema: SchemaDocumentModel) -> nat {
    schema.types.len() + schema.groups.len()
}

pub fn nesting_of(schema: &SchemaDocument) -> (r: u64)
    ensures
        r == depth_limit(schema@),
{
    reveal(crate::ast::document_model);
    assert(schema@.types.len() == schema.types.entries@.len());
    assert(schema@.groups.len() == schema.groups.entries@.len());
    let a: u64 = schema.types.len() as u64;
    let b: u64 = schema.groups.len() as u64;
    if a > u64::MAX - b {
        u64::MAX
    } else {
        a + b
    }
}

/// The depth to which a schema is looked into.
pub open spec fn depth_limit(schema: SchemaDocumentModel) -> nat {
    values::least(nesting(schema), u64::MAX as nat)
}

// The hidden groups that are named.
/// The particles of the sequence that a hidden group is; a hidden choice is not
/// looked into.
pub open spec fn hidden_list(schema: SchemaDocumentModel, local: Seq<char>) -> Seq<ParticleModel> {
    match strmap::lookup(schema.groups, local) {
        Some(GroupDeclModel::Sequence(s)) => s.particles,
        _ => Seq::empty(),
    }
}

/// The hidden groups that a particle names, in what it holds, in the type of an
/// element and in hidden groups themselves, behind those in `out`.
#[verifier::opaque]
pub open spec fn hidden_at(
    schema: SchemaDocumentModel,
    p: ParticleModel,
    open: Seq<Seq<char>>,
    out: Seq<(Seq<char>, bool)>,
    depth: nat,
) -> Seq<(Seq<char>, bool)>
    decreases 3 * depth, p, 0int,
{
    match p {
        ParticleModel::Element(e) => match reach::type_named(schema, e.type_ref) {
            Some(TypeDefModel::Complex { content, .. }) => if depth > 0 && ast::builtin_spec(
                e.type_ref,
            ) is None {
                content_hidden(schema, content, open, out, (depth - 1) as nat)
            } else {
                out
            },
            _ => out,
        },
        ParticleModel::Sequence(s) => {
            let named = if depth > 0 {
                hidden_named(
                    schema,
                    s.props.statements.hidden_group_ref,
                    open,
                    out,
                    (depth - 1) as nat,
                )
            } else {
                out
            };
            hidden_from(schema, s.particles, 0, open, named, depth)
        },
        ParticleModel::Choice(c) => hidden_from(schema, c.branches, 0, open, out, depth),
        ParticleModel::GroupRef(g) => match reach::group_named(schema, g.name) {
            Some(d) => if depth > 0 {
                hidden_from(schema, reach::group_list(d), 0, open, out, (depth - 1) as nat)
            } else {
                out
            },
            None => out,
        },
    }
}

/// The hidden groups that particles from `i` on name.
#[verifier::opaque]
pub open spec fn hidden_from(
    schema: SchemaDocumentModel,
    list: Seq<ParticleModel>,
    i: nat,
    open: Seq<Seq<char>>,
    out: Seq<(Seq<char>, bool)>,
    depth: nat,
) -> Seq<(Seq<char>, bool)>
    decreases 3 * depth, list, list.len() - i,
{
    if i >= list.len() {
        out
    } else {
        hidden_from(
            schema,
            list,
            i + 1,
            open,
            hidden_at(schema, list[i as int], open, out, depth),
            depth,
        )
    }
}

/// The hidden groups in the one that is named, with its own name, unless it is
/// being looked into already.
#[verifier::opaque]
pub open spec fn hidden_named(
    schema: SchemaDocumentModel,
    name: Option<Seq<char>>,
    open: Seq<Seq<char>>,
    out: Seq<(Seq<char>, bool)>,
    depth: nat,
) -> Seq<(Seq<char>, bool)>
    decreases 3 * depth + 1, None::<int>, 0int,
{
    match name {
        None => out,
        Some(q) => {
            let local = qname::local_spec(q);
            let now = strmap::with_entry(out, q, true);
            if local.len() == 0 || open.contains(local) {
                now
            } else {
                hidden_from(schema, hidden_list(schema, local), 0, open.push(local), now, depth)
            }
        },
    }
}

/// The hidden groups that are named in a complex type, behind those in `out`.
#[verifier::opaque]
pub open spec fn content_hidden(
    schema: SchemaDocumentModel,
    content: ComplexContentModel,
    open: Seq<Seq<char>>,
    out: Seq<(Seq<char>, bool)>,
    depth: nat,
) -> Seq<(Seq<char>, bool)>
    decreases 3 * depth + 2, None::<int>, 0int,
{
    let named = match content {
        ComplexContentModel::Sequence(s) => hidden_named(
            schema,
            s.props.statements.hidden_group_ref,
            open,
            out,
            depth,
        ),
        _ => out,
    };
    hidden_from(schema, reach::content_list(content), 0, open, named, depth)
}

fn is_open(open: &Vec<String>, local: &str) -> (r: bool)
    ensures
        r == open.deep_view().contains(local@),
{
    let mut i: usize = 0;
    while i < open.len()
        invariant
            i <= open@.len(),
            forall|k: int| 0 <= k < i ==> #[trigger] open.deep_view()[k] != local@,
        decreases open@.len() - i,
    {
        assert(open.deep_view()[i as int] == open@[i as int]@);
        if eq(open[i].as_str(), local) {
            assert(open.deep_view()[i as int] == local@);
            return true;
        }
        i += 1;
    }
    assert(!open.deep_view().contains(local@));
    false
}

fn with_open(open: &Vec<String>, local: &str) -> (r: Vec<String>)
    ensures
        r.deep_view() == open.deep_view().push(local@),
{
    let mut out = open.copy();
    let ghost before = out.deep_view();
    out.push(owned(local));
    assert(out.deep_view() =~= before.push(local@));
    out
}

fn add_named(
    schema: &SchemaDocument,
    name: Option<&str>,
    open: &Vec<String>,
    out: &mut StrMap<bool>,
    depth: u64,
)
    ensures
        final(out)@ == hidden_named(
            schema@,
            text::ref_opt(name),
            open.deep_view(),
            old(out)@,
            depth as nat,
        ),
    decreases 3 * depth + 1, None::<int>,
{
    reveal(crate::ast::document_model);
    proof {
        reveal(hidden_named);
        reveal(hidden_from);
    }
    if let Some(q) = name {
        let local = local_name_from_qname(q);
        out.insert(owned(q), true);
        if chars_of(local.as_str()).len() == 0 || is_open(open, local.as_str()) {
            return;
        }
        let more = with_open(open, local.as_str());
        if let Some(d) = schema.groups.get(local.as_str()) {
            if let GroupDecl::Sequence(s) = d {
                add_hidden(schema, &s.particles, &more, out, depth);
                return;
            }
        }
        assert(hidden_list(schema@, local@).len() == 0);
    }
}

fn add_content(
    schema: &SchemaDocument,
    content: &ComplexContent,
    open: &Vec<String>,
    out: &mut StrMap<bool>,
    depth: u64,
)
    ensures
        final(out)@ == content_hidden(
            schema@,
            content.deep_view(),
            open.deep_view(),
            old(out)@,
            depth as nat,
        ),
    decreases 3 * depth + 2, None::<int>,
{
    proof {
        reveal(content_hidden);
        reveal(hidden_named);
        reveal(hidden_from);
    }
    if let ComplexContent::Sequence(s) = content {
        add_named(schema, hidden_group_ref_of(&s.props), open, out, depth);
    }
    match content_particles(content) {
        Some(l) => {
            add_hidden(schema, l, open, out, depth);
        },
        None => {
        },
    }
}

fn add_particle(
    schema: &SchemaDocument,
    p: &Particle,
    open: &Vec<String>,
    out: &mut StrMap<bool>,
    depth: u64,
)
    ensures
        final(out)@ == hidden_at(schema@, p.model(), open.deep_view(), old(out)@, depth as nat),
    decreases 3 * depth, p.model(),
{
    proof {
        reveal(hidden_at);
        reveal(content_hidden);
        reveal(hidden_named);
        reveal(hidden_from);
    }
    match p {
        Particle::Element(e) => {
            if depth > 0 && BuiltinType::from_xsd(e.type_ref.as_str()).is_none() {
                if let Some(t) = schema.resolve_type(&e.type_ref) {
                    if let TypeDef::Complex { content, .. } = t {
                        add_content(schema, content, open, out, depth - 1);
                    }
                }
            }
        },
        Particle::Sequence(s) => {
            if depth > 0 {
                add_named(schema, hidden_group_ref_of(&s.props), open, out, depth - 1);
            }
            assert(decreases_to!(p.model() => p.model()->Sequence_0));
            assert(decreases_to!(p.model()->Sequence_0 => p.model()->Sequence_0.particles));
            add_hidden(schema, &s.particles, open, out, depth);
        },
        Particle::Choice(c) => {
            assert(decreases_to!(p.model() => p.model()->Choice_0));
            assert(decreases_to!(p.model()->Choice_0 => p.model()->Choice_0.branches));
            add_hidden(schema, &c.branches, open, out, depth);
        },
        Particle::GroupRef(g) => {
            if depth > 0 {
                if let Some(d) = find_group(schema, g.name.as_str()) {
                    add_hidden(schema, group_particles(d), open, out, depth - 1);
                }
            }
        },
    }
}

fn add_hidden(
    schema: &SchemaDocument,
    list: &Vec<Particle>,
    open: &Vec<String>,
    out: &mut StrMap<bool>,
    depth: u64,
)
    ensures
        final(out)@ == hidden_from(
            schema@,
            ast::particle_models(*list),
            0,
            open.deep_view(),
            old(out)@,
            depth as nat,
        ),
    decreases 3 * depth, ast::particle_models(*list),
{
    let ghost all = ast::particle_models(*list);
    let ghost want = hidden_from(schema@, all, 0, open.deep_view(), out@, depth as nat);
    let mut i: usize = 0;
    while i < list.len()
        invariant
            i <= list@.len(),
            all == ast::particle_models(*list),
            values::agree(
                want,
                hidden_from(schema@, all, i as nat, open.deep_view(), out@, depth as nat),
            ),
        decreases list@.len() - i,
    {
        proof {
            reveal(hidden_from);
            reveal(hidden_at);
            assert(all[i as int] == list@[i as int].model());
            assert(decreases_to!(all => all[i as int]));
        }
        add_particle(schema, &list[i], open, out, depth);
        i += 1;
    }
    proof {
        reveal(hidden_from);
    }
}

// What can be written without an infoset.
/// The type that a name leads to, under its local part too.
pub open spec fn type_def(schema: SchemaDocumentModel, name: Seq<char>) -> Option<TypeDefModel> {
    let local = qname::local_spec(name);
    let under_ex = "ex:"@ + local;
    match reach::type_named(schema, name) {
        Some(t) => Some(t),
        None => if local != name && reach::type_named(schema, local) is Some {
            reach::type_named(schema, local)
        } else if under_ex != name {
            reach::type_named(schema, under_ex)
        } else {
            None
        },
    }
}

fn resolve_type_def<'a>(schema: &'a SchemaDocument, name: &TypeName) -> (r: Option<&'a TypeDef>)
    ensures
        match r {
            Some(t) => type_def(schema@, name@) == Some(t.deep_view()),
            None => type_def(schema@, name@) is None,
        },
{
    reveal(crate::ast::document_model);
    if let Some(t) = schema.resolve_type(name) {
        return Some(t);
    }
    let local = local_name_from_qname(name.as_str());
    if !eq(local.as_str(), name.as_str()) {
        if let Some(t) = schema.types.get(local.as_str()) {
            return Some(t);
        }
    }
    let under_ex = cat2("ex:", local.as_str());
    if !eq(under_ex.as_str(), name.as_str()) {
        return schema.types.get(under_ex.as_str());
    }
    None
}

/// Whether a particle can be written without an infoset.
#[verifier::opaque]
pub open spec fn writable(schema: SchemaDocumentModel, p: ParticleModel, depth: nat) -> bool
    decreases depth, p, 0int,
{
    match p {
        ParticleModel::Element(e) => peek::may_be_absent(e.props) || (ast::builtin_spec(
            e.type_ref,
        ) is None && depth > 0 && (match type_def(schema, e.type_ref) {
            Some(TypeDefModel::Complex { content, .. }) => writable_from(
                schema,
                reach::content_list(content),
                0,
                !(content is Choice),
                (depth - 1) as nat,
            ),
            _ => false,
        })),
        ParticleModel::Sequence(s) => writable_from(schema, s.particles, 0, true, depth),
        ParticleModel::Choice(c) => writable_from(schema, c.branches, 0, false, depth),
        ParticleModel::GroupRef(g) => depth > 0 && (match reach::group_named(schema, g.name) {
            Some(d) => writable_from(
                schema,
                reach::group_list(d),
                0,
                !(d is Choice),
                (depth - 1) as nat,
            ),
            None => false,
        }),
    }
}

/// Whether particles from `i` on can be written without an infoset: all of them,
/// or at least one.
#[verifier::opaque]
pub open spec fn writable_from(
    schema: SchemaDocumentModel,
    list: Seq<ParticleModel>,
    i: nat,
    all: bool,
    depth: nat,
) -> bool
    decreases depth, list, list.len() - i,
{
    if i >= list.len() {
        all
    } else if all {
        writable(schema, list[i as int], depth) && writable_from(schema, list, i + 1, all, depth)
    } else {
        writable(schema, list[i as int], depth) || writable_from(schema, list, i + 1, all, depth)
    }
}

fn can_write(schema: &SchemaDocument, p: &Particle, depth: u64) -> (r: bool)
    ensures
        r == writable(schema@, p.model(), depth as nat),
    decreases depth, p.model(),
{
    proof {
        reveal(writable);
        reveal(writable_from);
    }
    match p {
        Particle::Element(e) => {
            if can_be_absent_from_unparse_infoset(&e.props) {
                return true;
            }
            if depth == 0 || BuiltinType::from_xsd(e.type_ref.as_str()).is_some() {
                return false;
            }
            match resolve_type_def(schema, &e.type_ref) {
                Some(TypeDef::Complex { content, .. }) => {
                    let all = match content {
                        ComplexContent::Choice(_) => false,
                        _ => true,
                    };
                    match content_particles(content) {
                        Some(l) => can_write_list(schema, l, all, depth - 1),
                        None => {
                            true
                        },
                    }
                },
                _ => false,
            }
        },
        Particle::Sequence(s) => {
            assert(decreases_to!(p.model() => p.model()->Sequence_0));
            assert(decreases_to!(p.model()->Sequence_0 => p.model()->Sequence_0.particles));
            can_write_list(schema, &s.particles, true, depth)
        },
        Particle::Choice(c) => {
            assert(decreases_to!(p.model() => p.model()->Choice_0));
            assert(decreases_to!(p.model()->Choice_0 => p.model()->Choice_0.branches));
            can_write_list(schema, &c.branches, false, depth)
        },
        Particle::GroupRef(g) => {
            if depth == 0 {
                return false;
            }
            match find_group(schema, g.name.as_str()) {
                Some(d) => {
                    let all = match d {
                        GroupDecl::Choice(_) => false,
                        _ => true,
                    };
                    can_write_list(schema, group_particles(d), all, depth - 1)
                },
                None => false,
            }
        },
    }
}

fn can_write_list(schema: &SchemaDocument, list: &Vec<Particle>, all: bool, depth: u64) -> (r: bool)
    ensures
        r == writable_from(schema@, ast::particle_models(*list), 0, all, depth as nat),
    decreases depth, ast::particle_models(*list),
{
    let ghost whole = ast::particle_models(*list);
    let mut i: usize = 0;
    while i < list.len()
        invariant
            i <= list@.len(),
            whole == ast::particle_models(*list),
            writable_from(schema@, whole, 0, all, depth as nat) == writable_from(
                schema@,
                whole,
                i as nat,
                all,
                depth as nat,
            ),
        decreases list@.len() - i,
    {
        proof {
            reveal(writable_from);
            reveal(writable);
            assert(whole[i as int] == list@[i as int].model());
            assert(decreases_to!(whole => whole[i as int]));
        }
        let here = can_write(schema, &list[i], depth);
        if here != all {
            return here;
        }
        i += 1;
    }
    proof {
        reveal(writable_from);
    }
    all
}

// The rule.
/// The name under which a particle is reported.
pub open spec fn label(p: ParticleModel) -> Option<Seq<char>> {
    match p {
        ParticleModel::Element(e) => Some("ex:"@ + e.name),
        ParticleModel::GroupRef(g) => Some(g.name),
        _ => None,
    }
}

fn particle_display(p: &Particle) -> (r: Option<String>)
    ensures
        r.deep_view() == label(p.model()),
{
    match p {
        Particle::Element(e) => Some(cat2("ex:", e.name.as_str())),
        Particle::GroupRef(g) => Some(g.name.copy()),
        _ => None,
    }
}

/// Whether a particle is reported: every one, or only one that cannot be written
/// and does not itself name a hidden group.
pub open spec fn reported(schema: SchemaDocumentModel, p: ParticleModel, every: bool) -> bool {
    every || (!(p matches ParticleModel::Sequence(s) && s.props.statements.hidden_group_ref is Some)
        && !writable(schema, p, depth_limit(schema)))
}

/// The names of the particles before `n` that are reported, on lines of their own.
#[verifier::opaque]
pub open spec fn report(
    schema: SchemaDocumentModel,
    list: Seq<ParticleModel>,
    n: nat,
    every: bool,
) -> Option<Seq<char>>
    decreases n,
{
    if n == 0 {
        None
    } else {
        let before = report(schema, list, (n - 1) as nat, every);
        match label(list[n - 1]) {
            Some(name) if reported(schema, list[n - 1], every) => match before {
                None => Some(name),
                Some(b) => Some(b + "\n"@ + name),
            },
            _ => before,
        }
    }
}

fn make_report(schema: &SchemaDocument, list: &Vec<Particle>, every: bool) -> (r: Option<String>)
    ensures
        r.deep_view() == report(schema@, ast::particle_models(*list), list@.len(), every),
{
    let ghost all = ast::particle_models(*list);
    let depth = nesting_of(schema);
    let mut out: Option<String> = None;
    let mut i: usize = 0;
    proof {
        reveal(report);
    }
    while i < list.len()
        invariant
            i <= list@.len(),
            depth == depth_limit(schema@),
            all == ast::particle_models(*list),
            out.deep_view() == report(schema@, all, i as nat, every),
        decreases list@.len() - i,
    {
        assert(all[i as int] == list@[i as int].model());
        proof {
            reveal(report);
        }
        let names_hidden = match &list[i] {
            Particle::Sequence(s) => hidden_group_ref_of(&s.props).is_some(),
            _ => false,
        };
        let told = every || (!names_hidden && !can_write(schema, &list[i], depth));
        if told {
            if let Some(name) = particle_display(&list[i]) {
                out = match out {
                    None => Some(name),
                    Some(b) => Some(crate::error::cat3(b.as_str(), "\n", name.as_str())),
                };
            }
        }
        i += 1;
    }
    out
}

/// Why a hidden group cannot be written.
#[verifier::opaque]
pub open spec fn group_fault(
    schema: SchemaDocumentModel,
    local: Seq<char>,
    named: Seq<char>,
    stack: Seq<Seq<char>>,
    depth: nat,
) -> Option<Seq<char>>
    decreases depth, 1int, 0int,
{
    if stack.contains(local) {
        Some(
            "Schema Definition Error: Model group circular definitions. Group references, or hidden group references form a loop."@,
        )
    } else {
        match strmap::lookup(schema.groups, local) {
            None => Some(
                "Schema Definition Error: Referenced group definition not found: "@ + named
                    + "\nSchema context: group reference\n"@ + local,
            ),
            Some(GroupDeclModel::Choice(c)) => if writable_from(
                schema,
                c.branches,
                0,
                false,
                depth_limit(schema),
            ) {
                None
            } else {
                Some(
                    "Schema Definition Error: At least one branch of hidden choice must be fully defaultable or define dfdl:outputValueCalc:\n"@
                        + compare::text_or_empty(
                        report(schema, c.branches, c.branches.len(), true),
                    ),
                )
            },
            Some(GroupDeclModel::Sequence(s)) => match nested_fault(
                schema,
                s.particles,
                0,
                stack.push(local),
                depth,
            ) {
                Some(x) => Some(x),
                None => match report(schema, s.particles, s.particles.len(), false) {
                    Some(names) => Some(
                        "Schema Definition Error: Element(s) of hidden group must define dfdl:outputValueCalc, be defaultable or be optional:\n"@
                            + names,
                    ),
                    None => None,
                },
            },
        }
    }
}

/// Why a hidden group that is named from `i` on cannot be written.
#[verifier::opaque]
pub open spec fn nested_fault(
    schema: SchemaDocumentModel,
    list: Seq<ParticleModel>,
    i: nat,
    stack: Seq<Seq<char>>,
    depth: nat,
) -> Option<Seq<char>>
    decreases depth, 0int, list.len() - i,
{
    if i >= list.len() {
        None
    } else {
        let here = match list[i as int] {
            ParticleModel::Sequence(s) => match s.props.statements.hidden_group_ref {
                Some(q) if depth > 0 => group_fault(
                    schema,
                    qname::local_spec(q),
                    q,
                    stack,
                    (depth - 1) as nat,
                ),
                _ => None,
            },
            _ => None,
        };
        match here {
            Some(x) => Some(x),
            None => nested_fault(schema, list, i + 1, stack, depth),
        }
    }
}

fn check_group(
    schema: &SchemaDocument,
    local: &str,
    named: &str,
    stack: &Vec<String>,
    depth: usize,
) -> (r: Result<(), String>)
    ensures
        compare::verdict(r) == group_fault(
            schema@,
            local@,
            named@,
            stack.deep_view(),
            depth as nat,
        ),
    decreases depth, 1int,
{
    reveal(crate::ast::document_model);
    proof {
        reveal(group_fault);
        reveal(nested_fault);
    }
    if is_open(stack, local) {
        return Err(
            owned(
                "Schema Definition Error: Model group circular definitions. Group references, or hidden group references form a loop.",
            ),
        );
    }
    match schema.groups.get(local) {
        None => Err(
            cat4(
                "Schema Definition Error: Referenced group definition not found: ",
                named,
                "\nSchema context: group reference\n",
                local,
            ),
        ),
        Some(GroupDecl::Choice(c)) => {
            let limit = nesting_of(schema);
            if can_write_list(schema, &c.branches, false, limit) {
                return Ok(());
            }
            let names = match make_report(schema, &c.branches, true) {
                Some(s) => s,
                None => String::new(),
            };
            Err(
                cat2(
                    "Schema Definition Error: At least one branch of hidden choice must be fully defaultable or define dfdl:outputValueCalc:\n",
                    names.as_str(),
                ),
            )
        },
        Some(GroupDecl::Sequence(s)) => {
            let more = with_open(stack, local);
            check_nested(schema, &s.particles, &more, depth)?;
            match make_report(schema, &s.particles, false) {
                Some(names) => Err(
                    cat2(
                        "Schema Definition Error: Element(s) of hidden group must define dfdl:outputValueCalc, be defaultable or be optional:\n",
                        names.as_str(),
                    ),
                ),
                None => Ok(()),
            }
        },
    }
}

fn check_nested(schema: &SchemaDocument, list: &Vec<Particle>, stack: &Vec<String>, depth: usize) -> (r:
    Result<(), String>)
    ensures
        compare::verdict(r) == nested_fault(
            schema@,
            ast::particle_models(*list),
            0,
            stack.deep_view(),
            depth as nat,
        ),
    decreases depth, 0int,
{
    let ghost all = ast::particle_models(*list);
    let mut i: usize = 0;
    while i < list.len()
        invariant
            i <= list@.len(),
            all == ast::particle_models(*list),
            nested_fault(schema@, all, 0, stack.deep_view(), depth as nat) == nested_fault(
                schema@,
                all,
                i as nat,
                stack.deep_view(),
                depth as nat,
            ),
        decreases list@.len() - i,
    {
        proof {
            reveal(nested_fault);
            reveal(group_fault);
        }
        assert(all[i as int] == list@[i as int].model());
        if let Particle::Sequence(s) = &list[i] {
            if depth > 0 {
                if let Some(q) = hidden_group_ref_of(&s.props) {
                    let local = local_name_from_qname(q);
                    check_group(schema, local.as_str(), q, stack, depth - 1)?;
                }
            }
        }
        i += 1;
    }
    proof {
        reveal(nested_fault);
        reveal(group_fault);
    }
    Ok(())
}

/// The first of these hidden groups from `i` on that cannot be written.
pub open spec fn named_fault(
    schema: SchemaDocumentModel,
    names: Seq<(Seq<char>, bool)>,
    i: nat,
) -> Option<Seq<char>>
    decreases names.len() - i,
{
    if i >= names.len() {
        None
    } else {
        let q = names[i as int].0;
        let local = qname::local_spec(q);
        let here = if local.len() == 0 {
            None
        } else {
            group_fault(schema, local, q, Seq::empty(), schema.groups.len())
        };
        match here {
            Some(x) => Some(x),
            None => named_fault(schema, names, i + 1),
        }
    }
}

/// Why a hidden group that is reached from the root cannot be written.
pub open spec fn hidden_groups_fault(schema: SchemaDocumentModel, root: Seq<char>) -> Option<
    Seq<char>,
> {
    match qname::global_element(schema, root) {
        None => None,
        Some(g) => match reach::type_named(schema, g.type_ref) {
            Some(TypeDefModel::Complex { content, .. }) if ast::builtin_spec(g.type_ref) is None => named_fault(
                schema,
                content_hidden(schema, content, Seq::empty(), Seq::empty(), depth_limit(schema)),
                0,
            ),
            _ => None,
        },
    }
}

fn hidden_in(schema: &SchemaDocument, content: &ComplexContent) -> (r: StrMap<bool>)
    ensures
        r@ == content_hidden(
            schema@,
            content.deep_view(),
            Seq::empty(),
            Seq::empty(),
            depth_limit(schema@),
        ),
{
    let mut out: StrMap<bool> = StrMap::new();
    let none: Vec<String> = Vec::new();
    assert(none.deep_view() =~= Seq::<Seq<char>>::empty());
    let depth = nesting_of(schema);
    add_content(schema, content, &none, &mut out, depth);
    out
}

/// Hidden groups that are reached from the root can be written without an infoset.
pub fn validate_hidden_groups_unparse(schema: &SchemaDocument, root: &str) -> (r: Result<
    (),
    String,
>)
    ensures
        compare::verdict(r) == hidden_groups_fault(schema@, root@),
{
    reveal(crate::ast::document_model);
    let g = match get_global_element(schema, root) {
        None => {
            return Ok(());
        },
        Some(g) => g,
    };
    if BuiltinType::from_xsd(g.type_ref.as_str()).is_some() {
        return Ok(());
    }
    let content = match schema.resolve_type(&g.type_ref) {
        Some(TypeDef::Complex { content, .. }) => content,
        _ => {
            return Ok(());
        },
    };
    let names = hidden_in(schema, content);
    let ghost all = names@;
    let none: Vec<String> = Vec::new();
    assert(none.deep_view() =~= Seq::<Seq<char>>::empty());
    assert(schema@.groups.len() == schema.groups.entries@.len());
    let mut i: usize = 0;
    while i < names.entries.len()
        invariant
            i <= names.entries@.len(),
            all == names@,
            none.deep_view() == Seq::<Seq<char>>::empty(),
            schema@.groups.len() == schema.groups.entries@.len(),
            hidden_groups_fault(schema@, root@) == named_fault(schema@, all, 0),
            named_fault(schema@, all, 0) == named_fault(schema@, all, i as nat),
        decreases names.entries@.len() - i,
    {
        reveal(crate::ast::document_model);
        assert(all[i as int] == names.entries@[i as int].deep_view());
        let q = names.entries[i].0.as_str();
        let local = local_name_from_qname(q);
        if chars_of(local.as_str()).len() > 0 {
            check_group(schema, local.as_str(), q, &none, schema.groups.len())?;
        }
        i += 1;
    }
    Ok(())
}

} // verus!
