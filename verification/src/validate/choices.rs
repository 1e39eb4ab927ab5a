//! Rules on discriminators and on choices that take a branch by a key, in
//! everything that is reached from the root.

use vstd::prelude::*;
use crate::ast;
use crate::ast::{
    ChoiceDecl, ChoiceDeclModel, ComplexContent, ComplexContentModel, DfdlProps, DfdlPropsModel,
    GroupDecl, GroupDeclModel, Particle, ParticleModel, SchemaDocument, SchemaDocumentModel,
    TypeDef, TypeDefModel, TypeName,
};
use crate::error::{cat4, invalid_property, Error, ErrorModel};
use crate::props;
use crate::qname;
use crate::qname::get_global_element;
use crate::strmap;
use crate::strmap::StrMap;
use crate::text;
use crate::text::{
    append_chars, chars_of, contains, eq, is, string_of, strip_prefix, strip_suffix, trim,
};
use crate::validate::peek;
use crate::validate::peek::{
    choice_branch_key_of, choice_dispatch_active, discriminator_prefixes_of, discriminator_test_of,
    initiated_content_of,
};
use crate::validate::reach;
use crate::validate::reach::{content_particles, find_group, group_particles, lemma_inside, limit_of};
use crate::validate::types;
use crate::validate::types::find_referred;
use crate::values::{owned, Duplicate};

verus! {

broadcast use vstd::string::group_string_axioms;

// Discriminators.
/// An expression without the braces around it.
pub open spec fn unbraced(test: Seq<char>) -> Seq<char> {
    let t = text::trim_spec(test);
    text::trim_spec(
        match text::after_prefix(t, "{"@) {
            Some(s) => match text::before_suffix(s, "}"@) {
                Some(inner) => inner,
                None => test,
            },
            None => test,
        },
    )
}

/// Whether an expression is a constant.
pub open spec fn is_constant(s: Seq<char>) -> bool {
    s == "fn:true()"@ || s == "true()"@ || s == "fn:false()"@ || s == "false()"@
}

/// Why a discriminator uses the prefix `fn` though it does not stand for the
/// functions of XPath.
pub open spec fn prefix_fault(test: Seq<char>, prefixes: Seq<(Seq<char>, Seq<char>)>) -> Option<
    ErrorModel,
> {
    if is_constant(unbraced(test)) || !text::contains_spec(test, "fn:"@) {
        None
    } else {
        match strmap::lookup(prefixes, "fn"@) {
            Some(uri) if uri != "http://www.w3.org/2005/xpath-functions"@ => Some(
                types::broken_rule("Schema Definition Error: Prefix 'fn' has not been declared"@),
            ),
            _ => None,
        }
    }
}

#[verifier::spinoff_prover]
fn unbrace(test: &[char]) -> (r: &[char])
    ensures
        r@ == unbraced(test@),
{
    let t = trim(test);
    let inner = match strip_prefix(t, "{") {
        Some(s) => match strip_suffix(s, "}") {
            Some(inner) => inner,
            None => test,
        },
        None => test,
    };
    trim(inner)
}

/// A discriminator uses the prefix `fn` only for the functions of XPath.
#[verifier::spinoff_prover]
pub fn validate_discriminator_xpath_prefixes(test: &str, prefix_map: &StrMap<String>) -> (r: Result<
    (),
    Error,
>)
    ensures
        types::fault_of(r) == prefix_fault(test@, prefix_map@),
{
    let c = chars_of(test);
    let inner = unbrace(c.as_slice());
    let constant = is(inner, "fn:true()") || is(inner, "true()") || is(inner, "fn:false()") || is(
        inner,
        "false()",
    );
    let uses = contains(c.as_slice(), "fn:");
    if constant || !uses {
        return Ok(());
    }
    if let Some(uri) = prefix_map.get("fn") {
        if !eq(uri.as_str(), "http://www.w3.org/2005/xpath-functions") {
            return Err(
                invalid_property(
                    owned("Schema Definition Error: Prefix 'fn' has not been declared"),
                ),
            );
        }
    }
    Ok(())
}

/// Why the discriminator of a declaration breaks the rule.
pub open spec fn test_fault(p: DfdlPropsModel) -> Option<ErrorModel> {
    match p.statements.discriminator_test {
        None => None,
        Some(test) => prefix_fault(
            test,
            match p.statements.discriminator_xpath_prefixes {
                Some(m) => m,
                None => Seq::empty(),
            },
        ),
    }
}

#[verifier::spinoff_prover]
fn check_test(p: &DfdlProps) -> (r: Result<(), Error>)
    ensures
        types::fault_of(r) == test_fault(p@),
{
    match discriminator_test_of(p) {
        None => Ok(()),
        Some(test) => {
            let none: StrMap<String> = StrMap::new();
            match discriminator_prefixes_of(p) {
                Some(m) => validate_discriminator_xpath_prefixes(test, m),
                None => validate_discriminator_xpath_prefixes(test, &none),
            }
        },
    }
}

// Choices by key.
/// The key of a branch, for a group the one of its reference or of its definition.
pub open spec fn branch_key(schema: SchemaDocumentModel, p: ParticleModel) -> Option<Seq<char>> {
    match p {
        ParticleModel::Element(e) => e.props.choice.choice_branch_key,
        ParticleModel::Sequence(s) => s.props.choice.choice_branch_key,
        ParticleModel::Choice(c) => c.props.choice.choice_branch_key,
        ParticleModel::GroupRef(g) => match g.props.choice.choice_branch_key {
            Some(k) => Some(k),
            None => match reach::group_named(schema, g.name) {
                Some(d) => group_key(d),
                None => None,
            },
        },
    }
}

/// The key of a group's definition.
pub open spec fn group_key(g: GroupDeclModel) -> Option<Seq<char>> {
    match g {
        GroupDeclModel::Sequence(s) => s.props.choice.choice_branch_key,
        GroupDeclModel::Choice(c) => c.props.choice.choice_branch_key,
    }
}

#[verifier::spinoff_prover]
fn key_of_group(g: &GroupDecl) -> (r: Option<&str>)
    ensures
        text::ref_opt(r) == group_key(g.deep_view()),
{
    match g {
        GroupDecl::Sequence(s) => choice_branch_key_of(&s.props),
        GroupDecl::Choice(c) => choice_branch_key_of(&c.props),
    }
}

#[verifier::spinoff_prover]
fn key_of_branch<'a>(schema: &'a SchemaDocument, p: &'a Particle) -> (r: Option<&'a str>)
    ensures
        text::ref_opt(r) == branch_key(schema@, p.model()),
{
    match p {
        Particle::Element(e) => choice_branch_key_of(&e.props),
        Particle::Sequence(s) => choice_branch_key_of(&s.props),
        Particle::Choice(c) => choice_branch_key_of(&c.props),
        Particle::GroupRef(g) => match choice_branch_key_of(&g.props) {
            Some(k) => Some(k),
            None => match find_group(schema, g.name.as_str()) {
                Some(d) => key_of_group(d),
                None => None,
            },
        },
    }
}

/// The error for a key inside the definition of a group.
pub open spec fn group_key_error() -> ErrorModel {
    types::broken_rule(
        "Schema Definition Error: The dfdl:choiceBranchKey property must not be defined on the child of a global group definition's sequence or choice."@,
    )
}

#[verifier::spinoff_prover]
fn group_key_refused() -> (r: Error)
    ensures
        r@ == group_key_error(),
{
    invalid_property(
        owned(
            "Schema Definition Error: The dfdl:choiceBranchKey property must not be defined on the child of a global group definition's sequence or choice.",
        ),
    )
}

/// Whether a particle from `i` on, or one in its sequences and choices, has a key.
pub open spec fn any_key(list: Seq<ParticleModel>, i: nat) -> bool
    decreases list, list.len() - i,
{
    if i >= list.len() {
        false
    } else {
        (match list[i as int] {
            ParticleModel::Element(e) => e.props.choice.choice_branch_key is Some,
            ParticleModel::Sequence(s) => s.props.choice.choice_branch_key is Some || any_key(
                s.particles,
                0,
            ),
            ParticleModel::Choice(c) => c.props.choice.choice_branch_key is Some || any_key(
                c.branches,
                0,
            ),
            ParticleModel::GroupRef(_) => false,
        }) || any_key(list, i + 1)
    }
}

#[verifier::spinoff_prover]
fn has_key(list: &Vec<Particle>) -> (r: bool)
    ensures
        r == any_key(ast::particle_models(*list), 0),
    decreases ast::particle_models(*list),
{
    let ghost all = ast::particle_models(*list);
    let mut i: usize = 0;
    while i < list.len()
        invariant
            i <= list@.len(),
            all == ast::particle_models(*list),
            any_key(all, 0) == any_key(all, i as nat),
        decreases list@.len() - i,
    {
        proof {
            lemma_inside(*list, i as int);
        }
        let here = match &list[i] {
            Particle::Element(e) => choice_branch_key_of(&e.props).is_some(),
            Particle::Sequence(s) => choice_branch_key_of(&s.props).is_some() || has_key(
                &s.particles,
            ),
            Particle::Choice(c) => choice_branch_key_of(&c.props).is_some() || has_key(
                &c.branches,
            ),
            Particle::GroupRef(_) => false,
        };
        if here {
            return true;
        }
        i += 1;
    }
    false
}

/// Why a branch has a key where it may have none: on the global element it refers
/// to, or in the definition of the group it names.
pub open spec fn branch_fault(schema: SchemaDocumentModel, p: ParticleModel) -> Option<ErrorModel> {
    match p {
        ParticleModel::Element(e) => if e.props.choice.choice_branch_key is None {
            match types::referred(schema, e) {
                Some(g) if g.props.choice.choice_branch_key is Some => Some(
                    types::broken_rule(
                        "Schema Definition Error: The dfdl:choiceBranchKey property must not be defined on a global element."@,
                    ),
                ),
                _ => None,
            }
        } else {
            None
        },
        ParticleModel::GroupRef(g) => if g.props.choice.choice_branch_key is None {
            match reach::group_named(schema, g.name) {
                Some(d) if group_key(d) is Some || any_key(reach::group_list(d), 0) => Some(
                    group_key_error(),
                ),
                _ => None,
            }
        } else {
            None
        },
        _ => None,
    }
}

#[verifier::spinoff_prover]
fn check_branch(schema: &SchemaDocument, p: &Particle) -> (r: Result<(), Error>)
    ensures
        types::fault_of(r) == branch_fault(schema@, p.model()),
{
    match p {
        Particle::Element(e) => {
            if choice_branch_key_of(&e.props).is_none() {
                if let Some(g) = find_referred(schema, e) {
                    if choice_branch_key_of(&g.props).is_some() {
                        return Err(
                            invalid_property(
                                owned(
                                    "Schema Definition Error: The dfdl:choiceBranchKey property must not be defined on a global element.",
                                ),
                            ),
                        );
                    }
                }
            }
            Ok(())
        },
        Particle::GroupRef(g) => {
            if choice_branch_key_of(&g.props).is_none() {
                if let Some(d) = find_group(schema, g.name.as_str()) {
                    if key_of_group(d).is_some() || has_key(group_particles(d)) {
                        return Err(group_key_refused());
                    }
                }
            }
            Ok(())
        },
        _ => Ok(()),
    }
}

/// The names of the branches before `n` that have one, with commas between them.
pub open spec fn branch_names(list: Seq<ParticleModel>, n: nat) -> Option<Seq<char>>
    decreases n,
{
    if n == 0 {
        None
    } else {
        let before = branch_names(list, (n - 1) as nat);
        match branch_name(list[n - 1]) {
            None => before,
            Some(name) => match before {
                None => Some(name),
                Some(b) => Some(b + ", "@ + name),
            },
        }
    }
}

/// The name of a branch.
pub open spec fn branch_name(p: ParticleModel) -> Option<Seq<char>> {
    match p {
        ParticleModel::Element(e) => Some(e.name),
        ParticleModel::GroupRef(g) => Some(g.name),
        _ => None,
    }
}

#[verifier::spinoff_prover]
fn names_of_branches(list: &Vec<Particle>) -> (r: String)
    ensures
        r@ == (match branch_names(ast::particle_models(*list), list@.len()) {
            Some(s) => s,
            None => Seq::empty(),
        }),
{
    let ghost all = ast::particle_models(*list);
    let mut out: Option<Vec<char>> = None;
    let mut i: usize = 0;
    while i < list.len()
        invariant
            i <= list@.len(),
            all == ast::particle_models(*list),
            match out {
                Some(v) => branch_names(all, i as nat) == Some(v@),
                None => branch_names(all, i as nat) is None,
            },
        decreases list@.len() - i,
    {
        assert(all[i as int] == list@[i as int].model());
        let name: Option<&str> = match &list[i] {
            Particle::Element(e) => Some(e.name.as_str()),
            Particle::GroupRef(g) => Some(g.name.as_str()),
            _ => None,
        };
        if let Some(n) = name {
            let c = chars_of(n);
            out = match out {
                None => Some(c),
                Some(v) => {
                    let mut w = v;
                    let comma = chars_of(", ");
                    append_chars(&mut w, comma.as_slice());
                    append_chars(&mut w, c.as_slice());
                    Some(w)
                },
            };
        }
        i += 1;
    }
    match out {
        Some(v) => string_of(v.as_slice()),
        None => String::new(),
    }
}

/// The first branch from `i` on that breaks a rule: it has a key where it may have
/// none, it has no key, or it has one that came before.
pub open spec fn branches_fault(
    schema: SchemaDocumentModel,
    list: Seq<ParticleModel>,
    i: nat,
    seen: Seq<(Seq<char>, bool)>,
) -> Option<ErrorModel>
    decreases list.len() - i,
{
    if i >= list.len() {
        None
    } else {
        match branch_fault(schema, list[i as int]) {
            Some(x) => Some(x),
            None => match branch_key(schema, list[i as int]) {
                None => Some(
                    types::broken_rule(
                        "Schema Definition Error: When dfdl:choiceDispatchKey is defined, every branch must have a dfdl:choiceBranchKey or dfdl:choiceBranchKeyRanges property defined."@,
                    ),
                ),
                Some(key) => if strmap::lookup(seen, key) is Some {
                    Some(
                        types::broken_rule(
                            "Schema Definition Error: dfdl:choiceBranchKey value `"@ + key
                                + "` is not unique among the branches of the choice. Branches: "@
                                + match branch_names(list, list.len()) {
                                Some(s) => s,
                                None => Seq::empty(),
                            },
                        ),
                    )
                } else {
                    branches_fault(schema, list, i + 1, strmap::with_entry(seen, key, true))
                },
            },
        }
    }
}

/// Why a choice breaks a rule on choices that take a branch by a key.
pub open spec fn dispatch_fault(schema: SchemaDocumentModel, c: ChoiceDeclModel) -> Option<
    ErrorModel,
> {
    if !peek::dispatches(c.props) {
        None
    } else if c.props.delimiters.initiated_content == Some(true) {
        Some(
            types::broken_rule(
                "Schema Definition Error: The dfdl:initiatedContent and dfdl:choiceDispatchKey properties must not both be defined on the same choice."@,
            ),
        )
    } else {
        branches_fault(schema, c.branches, 0, Seq::empty())
    }
}

#[verifier::spinoff_prover]
fn check_dispatch(schema: &SchemaDocument, c: &ChoiceDecl) -> (r: Result<(), Error>)
    ensures
        types::fault_of(r) == dispatch_fault(schema@, c.model()),
{
    if !choice_dispatch_active(&c.props) {
        return Ok(());
    }
    if initiated_content_of(&c.props) == Some(true) {
        return Err(
            invalid_property(
                owned(
                    "Schema Definition Error: The dfdl:initiatedContent and dfdl:choiceDispatchKey properties must not both be defined on the same choice.",
                ),
            ),
        );
    }
    let list = &c.branches;
    let ghost all = ast::particle_models(*list);
    let ghost want = branches_fault(schema@, all, 0, Seq::empty());
    let mut seen: StrMap<bool> = StrMap::new();
    let mut i: usize = 0;
    while i < list.len()
        invariant
            i <= list@.len(),
            all == ast::particle_models(*list),
            all == c.model().branches,
            peek::dispatches(c.model().props),
            c.model().props.delimiters.initiated_content != Some(true),
            want == branches_fault(schema@, c.model().branches, 0, Seq::empty()),
            want == branches_fault(schema@, all, i as nat, seen@),
        decreases list@.len() - i,
    {
        assert(all[i as int] == list@[i as int].model());
        check_branch(schema, &list[i])?;
        match key_of_branch(schema, &list[i]) {
            None => {
                return Err(
                    invalid_property(
                        owned(
                            "Schema Definition Error: When dfdl:choiceDispatchKey is defined, every branch must have a dfdl:choiceBranchKey or dfdl:choiceBranchKeyRanges property defined.",
                        ),
                    ),
                );
            },
            Some(key) => {
                if seen.contains_key(key) {
                    let names = names_of_branches(list);
                    return Err(
                        invalid_property(
                            cat4(
                                "Schema Definition Error: dfdl:choiceBranchKey value `",
                                key,
                                "` is not unique among the branches of the choice. Branches: ",
                                names.as_str(),
                            ),
                        ),
                    );
                }
                seen.insert(owned(key), true);
            },
        }
        i += 1;
    }
    Ok(())
}

// The walk.
/// What a walk looks at.
#[derive(Debug, Clone, Copy, PartialEq, Eq, Structural)]
pub enum WalkRule {
    Discriminators,
    Dispatch,
}

/// Why a particle breaks the rule of a walk.
pub open spec fn particle_fault(
    schema: SchemaDocumentModel,
    rule: WalkRule,
    p: ParticleModel,
) -> Option<ErrorModel> {
    match (rule, p) {
        (WalkRule::Discriminators, ParticleModel::Element(e)) => test_fault(e.props),
        (WalkRule::Dispatch, ParticleModel::Choice(c)) => dispatch_fault(schema, c),
        _ => None,
    }
}

/// The lists into which a walk goes on from a particle. Only a walk over
/// discriminators goes into choices, and only one over keys into groups.
pub open spec fn beyond(schema: SchemaDocumentModel, rule: WalkRule, p: ParticleModel) -> Seq<
    Seq<ParticleModel>,
> {
    match p {
        ParticleModel::Element(e) => type_lists(schema, e.type_ref),
        ParticleModel::Sequence(s) => seq![s.particles],
        ParticleModel::Choice(c) => if rule == WalkRule::Discriminators {
            seq![c.branches]
        } else {
            Seq::empty()
        },
        ParticleModel::GroupRef(g) => if rule == WalkRule::Dispatch {
            match reach::group_named(schema, g.name) {
                Some(d) => seq![reach::group_list(d)],
                None => Seq::empty(),
            }
        } else {
            Seq::empty()
        },
    }
}

/// The list of particles of a complex type.
pub open spec fn type_lists(schema: SchemaDocumentModel, name: Seq<char>) -> Seq<
    Seq<ParticleModel>,
> {
    match reach::type_named(schema, name) {
        Some(TypeDefModel::Complex { content, .. }) => if content is Empty {
            Seq::empty()
        } else {
            seq![reach::content_list(content)]
        },
        _ => Seq::empty(),
    }
}

/// The first particle from `i` on that breaks the rule of a walk.
pub open spec fn list_fault(
    schema: SchemaDocumentModel,
    rule: WalkRule,
    list: Seq<ParticleModel>,
    i: nat,
) -> Option<ErrorModel>
    decreases list.len() - i,
{
    if i >= list.len() {
        None
    } else {
        match particle_fault(schema, rule, list[i as int]) {
            Some(x) => Some(x),
            None => list_fault(schema, rule, list, i + 1),
        }
    }
}

/// The lists into which a walk goes on from the particles before `n`.
pub open spec fn list_beyond(
    schema: SchemaDocumentModel,
    rule: WalkRule,
    list: Seq<ParticleModel>,
    n: nat,
) -> Seq<Seq<ParticleModel>>
    decreases n,
{
    if n == 0 {
        Seq::empty()
    } else {
        list_beyond(schema, rule, list, (n - 1) as nat) + beyond(schema, rule, list[n - 1])
    }
}

/// The first of these lists from `k` on in which a particle breaks the rule.
pub open spec fn lists_fault(
    schema: SchemaDocumentModel,
    rule: WalkRule,
    lists: Seq<Seq<ParticleModel>>,
    k: nat,
) -> Option<ErrorModel>
    decreases lists.len() - k,
{
    if k >= lists.len() {
        None
    } else {
        match list_fault(schema, rule, lists[k as int], 0) {
            Some(x) => Some(x),
            None => lists_fault(schema, rule, lists, k + 1),
        }
    }
}

/// The lists into which a walk goes on from the lists before `n`.
pub open spec fn lists_beyond(
    schema: SchemaDocumentModel,
    rule: WalkRule,
    lists: Seq<Seq<ParticleModel>>,
    n: nat,
) -> Seq<Seq<ParticleModel>>
    decreases n,
{
    if n == 0 {
        Seq::empty()
    } else {
        lists_beyond(schema, rule, lists, (n - 1) as nat) + list_beyond(
            schema,
            rule,
            lists[n - 1],
            lists[n - 1].len(),
        )
    }
}

/// The first particle that breaks the rule of a walk: in these lists, then in
/// those into which the walk goes on from them, and so forth.
pub open spec fn levels_fault(
    schema: SchemaDocumentModel,
    rule: WalkRule,
    lists: Seq<Seq<ParticleModel>>,
    left: nat,
) -> Option<ErrorModel>
    decreases left,
{
    if lists.len() == 0 || left == 0 {
        None
    } else {
        match lists_fault(schema, rule, lists, 0) {
            Some(x) => Some(x),
            None => levels_fault(
                schema,
                rule,
                lists_beyond(schema, rule, lists, lists.len()),
                (left - 1) as nat,
            ),
        }
    }
}

/// What lists hold.
pub open spec fn models_of(lists: Seq<&Vec<Particle>>) -> Seq<Seq<ParticleModel>> {
    Seq::new(lists.len(), |i: int| ast::particle_models(*lists[i]))
}

#[verifier::spinoff_prover]
fn check_particle(schema: &SchemaDocument, rule: WalkRule, p: &Particle) -> (r: Result<(), Error>)
    ensures
        types::fault_of(r) == particle_fault(schema@, rule, p.model()),
{
    match rule {
        WalkRule::Discriminators => match p {
            Particle::Element(e) => check_test(&e.props),
            _ => Ok(()),
        },
        WalkRule::Dispatch => match p {
            Particle::Choice(c) => check_dispatch(schema, c),
            _ => Ok(()),
        },
    }
}

#[verifier::spinoff_prover]
fn type_list<'a>(schema: &'a SchemaDocument, name: &TypeName) -> (r: Option<&'a Vec<Particle>>)
    ensures
        type_lists(schema@, name@) == (match r {
            Some(l) => seq![ast::particle_models(*l)],
            None => Seq::empty(),
        }),
{
    if let Some(t) = schema.resolve_type(name) {
        if let TypeDef::Complex { content, .. } = t {
            return content_particles(content);
        }
    }
    None
}

#[verifier::spinoff_prover]
fn go_on<'a>(schema: &'a SchemaDocument, rule: WalkRule, p: &'a Particle) -> (r: Option<
    &'a Vec<Particle>,
>)
    ensures
        beyond(schema@, rule, p.model()) == (match r {
            Some(l) => seq![ast::particle_models(*l)],
            None => Seq::empty(),
        }),
{
    match p {
        Particle::Element(e) => type_list(schema, &e.type_ref),
        Particle::Sequence(s) => Some(&s.particles),
        Particle::Choice(c) => if rule == WalkRule::Discriminators {
            Some(&c.branches)
        } else {
            None
        },
        Particle::GroupRef(g) => if rule == WalkRule::Dispatch {
            match find_group(schema, g.name.as_str()) {
                Some(d) => Some(group_particles(d)),
                None => None,
            }
        } else {
            None
        },
    }
}

#[verifier::spinoff_prover]
fn check_list<'a>(
    schema: &'a SchemaDocument,
    rule: WalkRule,
    list: &'a Vec<Particle>,
    next: &mut Vec<&'a Vec<Particle>>,
) -> (r: Result<(), Error>)
    ensures
        types::fault_of(r) == list_fault(schema@, rule, ast::particle_models(*list), 0),
        r is Ok ==> models_of(final(next)@) == models_of(old(next)@) + list_beyond(
            schema@,
            rule,
            ast::particle_models(*list),
            list@.len(),
        ),
{
    let ghost all = ast::particle_models(*list);
    let ghost start = models_of(next@);
    let mut i: usize = 0;
    assert(start + Seq::<Seq<ParticleModel>>::empty() =~= start);
    while i < list.len()
        invariant
            i <= list@.len(),
            all == ast::particle_models(*list),
            list_fault(schema@, rule, all, 0) == list_fault(schema@, rule, all, i as nat),
            models_of(next@) == start + list_beyond(schema@, rule, all, i as nat),
        decreases list@.len() - i,
    {
        assert(all[i as int] == list@[i as int].model());
        check_particle(schema, rule, &list[i])?;
        let ghost before = models_of(next@);
        let ghost so_far = list_beyond(schema@, rule, all, i as nat);
        match go_on(schema, rule, &list[i]) {
            Some(l) => {
                next.push(l);
                proof {
                    let m = ast::particle_models(*l);
                    assert(models_of(next@) =~= before.push(m));
                    assert((start + so_far).push(m) =~= start + (so_far + seq![m]));
                }
            },
            None => {
                assert(start + (so_far + Seq::<Seq<ParticleModel>>::empty()) =~= start + so_far);
            },
        }
        i += 1;
    }
    Ok(())
}

#[verifier::spinoff_prover]
fn check_levels<'a>(
    schema: &'a SchemaDocument,
    rule: WalkRule,
    first: Vec<&'a Vec<Particle>>,
    limit: u64,
) -> (r: Result<(), Error>)
    ensures
        types::fault_of(r) == levels_fault(schema@, rule, models_of(first@), limit as nat),
{
    let mut lists = first;
    let mut left: u64 = limit;
    let ghost want = levels_fault(schema@, rule, models_of(first@), limit as nat);
    while lists.len() > 0 && left > 0
        invariant
            want == levels_fault(schema@, rule, models_of(first@), limit as nat),
            want == levels_fault(schema@, rule, models_of(lists@), left as nat),
        decreases left,
    {
        let ghost all = models_of(lists@);
        let mut next: Vec<&Vec<Particle>> = Vec::new();
        let mut k: usize = 0;
        assert(models_of(next@) =~= Seq::<Seq<ParticleModel>>::empty());
        while k < lists.len()
            invariant
                k <= lists@.len(),
                left > 0,
                lists@.len() > 0,
                all == models_of(lists@),
                want == levels_fault(schema@, rule, models_of(first@), limit as nat),
                want == levels_fault(schema@, rule, all, left as nat),
                lists_fault(schema@, rule, all, 0) == lists_fault(schema@, rule, all, k as nat),
                models_of(next@) == lists_beyond(schema@, rule, all, k as nat),
            decreases lists@.len() - k,
        {
            assert(all[k as int] == ast::particle_models(*lists@[k as int]));
            check_list(schema, rule, lists[k], &mut next)?;
            k += 1;
        }
        lists = next;
        left -= 1;
    }
    Ok(())
}

/// The lists with which a walk begins.
pub open spec fn root_lists(schema: SchemaDocumentModel, root: Seq<char>) -> Seq<
    Seq<ParticleModel>,
> {
    match qname::global_element(schema, root) {
        Some(g) => type_lists(schema, g.type_ref),
        None => Seq::empty(),
    }
}

#[verifier::spinoff_prover]
fn lists_of_root<'a>(schema: &'a SchemaDocument, root: &str) -> (r: Vec<&'a Vec<Particle>>)
    ensures
        models_of(r@) == root_lists(schema@, root@),
{
    let mut out: Vec<&Vec<Particle>> = Vec::new();
    if let Some(g) = get_global_element(schema, root) {
        if let Some(l) = type_list(schema, &g.type_ref) {
            out.push(l);
        }
    }
    assert(models_of(out@) =~= root_lists(schema@, root@));
    out
}

/// Why a discriminator that is reached from the root breaks the rule.
pub open spec fn discriminators_fault(schema: SchemaDocumentModel, root: Seq<char>) -> Option<
    ErrorModel,
> {
    let own = match qname::global_element(schema, root) {
        Some(g) => test_fault(g.props),
        None => None,
    };
    match own {
        Some(x) => Some(x),
        None => levels_fault(
            schema,
            WalkRule::Discriminators,
            root_lists(schema, root),
            reach::walk_limit(schema),
        ),
    }
}

/// Discriminators that are reached from the root keep the rule.
#[verifier::spinoff_prover]
pub fn validate_discriminators_in_reachable_schema(schema: &SchemaDocument, root: &str) -> (r:
    Result<(), Error>)
    ensures
        types::fault_of(r) == discriminators_fault(schema@, root@),
{
    if let Some(g) = get_global_element(schema, root) {
        check_test(&g.props)?;
    }
    let first = lists_of_root(schema, root);
    let limit = limit_of(schema);
    check_levels(schema, WalkRule::Discriminators, first, limit)
}

/// Why a choice that is reached from the root breaks a rule on keys.
pub open spec fn dispatch_schema_fault(schema: SchemaDocumentModel, root: Seq<char>) -> Option<
    ErrorModel,
> {
    levels_fault(
        schema,
        WalkRule::Dispatch,
        root_lists(schema, root),
        reach::walk_limit(schema),
    )
}

/// Choices that are reached from the root keep the rules on keys.
#[verifier::spinoff_prover]
pub fn validate_choice_dispatch_schema(schema: &SchemaDocument, root: &str) -> (r: Result<
    (),
    Error,
>)
    ensures
        types::fault_of(r) == dispatch_schema_fault(schema@, root@),
{
    let first = lists_of_root(schema, root);
    let limit = limit_of(schema);
    check_levels(schema, WalkRule::Dispatch, first, limit)
}

} // verus!
