//! Rules on separators: their encoding, and escape characters beside them.

use vstd::prelude::*;
use crate::ast;
use crate::ast::{
    ComplexContent, ComplexContentModel, DfdlProps, DfdlPropsModel, ElementDecl, ElementDeclModel,
    EscapeKind, EscapeSchemeDef, EscapeSchemeDefModel, GroupDecl, GroupDeclModel, LengthKind,
    Particle, ParticleModel, SchemaDocument, SchemaDocumentModel, TypeDef, TypeDefModel, TypeName,
};
use crate::encoding;
use crate::encoding::{charset_by_name, Charset};
use crate::entities;
use crate::entities::expand_entities_str;
use crate::error::{invalid_property, Error, ErrorModel};
use crate::merge;
use crate::merge::merge_dfdl_props;
use crate::qname;
use crate::qname::{get_global_element, lookup_named_escape_scheme_in_document};
use crate::strmap;
use crate::text;
use crate::text::{chars_of, lower, same, words};
use crate::validate::peek::{
    encoding_of, escape_scheme_ref_of, length_kind_of, separator_of, terminator_of,
};
use crate::validate::reach;
use crate::validate::reach::{
    content_particles, find_group, group_particles, limit_of, types_reachable_from_root,
};
use crate::validate::types;
use crate::validate::types::find_referred;
use crate::values;
use crate::values::{owned, Duplicate};

verus! {

broadcast use vstd::string::group_string_axioms;

/// Whether two encodings are one.
pub open spec fn same_encoding(a: Seq<char>, b: Seq<char>) -> bool {
    match (encoding::charset_named(a), encoding::charset_named(b)) {
        (Some(x), Some(y)) => x == y,
        _ => text::lower_spec(a) == text::lower_spec(b),
    }
}

fn encodings_compatible_for_delimiter_scan(a: &str, b: &str) -> (r: bool)
    ensures
        r == same_encoding(a@, b@),
{
    match (charset_by_name(a), charset_by_name(b)) {
        (Some(x), Some(y)) => x == y,
        _ => {
            let p = chars_of(a);
            let q = chars_of(b);
            let x = lower(p.as_slice());
            let y = lower(q.as_slice());
            same(x.as_slice(), y.as_slice())
        },
    }
}

/// Whether a text holds something, and nothing but ASCII.
pub open spec fn plain_ascii(s: Seq<char>) -> bool {
    s.len() > 0 && forall|i: int| 0 <= i < s.len() ==> (#[trigger] s[i] as u32) < 128
}

fn is_plain_ascii(s: &str) -> (r: bool)
    ensures
        r == plain_ascii(s@),
{
    let c = chars_of(s);
    let mut i: usize = 0;
    while i < c.len()
        invariant
            i <= c@.len(),
            c@ == s@,
            forall|k: int| 0 <= k < i ==> (#[trigger] c@[k] as u32) < 128,
        decreases c@.len() - i,
    {
        if (c[i] as u32) >= 128 {
            assert(!((s@[i as int] as u32) < 128));
            return false;
        }
        i += 1;
    }
    c.len() > 0
}

/// Whether the separator of a sequence can be found in text of this encoding.
pub open spec fn findable(p: DfdlPropsModel, name: Seq<char>) -> bool {
    match p.delimiters.separator {
        Some(s) => plain_ascii(s) && (match encoding::charset_named(name) {
            Some(Charset::Utf8) | Some(Charset::Ascii) | Some(Charset::Latin1) | Some(
                Charset::Utf16Be,
            ) | Some(Charset::Utf16Le) => true,
            _ => false,
        }),
        None => false,
    }
}

fn ascii_infix_separator_scannable_in_encoding(p: &DfdlProps, name: &str) -> (r: bool)
    ensures
        r == findable(p@, name@),
{
    match separator_of(p) {
        Some(s) => is_plain_ascii(s) && (match charset_by_name(name) {
            Some(Charset::Utf8) | Some(Charset::Ascii) | Some(Charset::Latin1) | Some(
                Charset::Utf16Be,
            ) | Some(Charset::Utf16Le) => true,
            _ => false,
        }),
        None => false,
    }
}

/// Whether a delimiter is given.
pub open spec fn given(d: Option<Seq<char>>) -> bool {
    d matches Some(s) && s.len() > 0
}

fn is_given(d: Option<&str>) -> (r: bool)
    ensures
        r == given(text::ref_opt(d)),
{
    match d {
        Some(s) => chars_of(s).len() > 0,
        None => false,
    }
}

/// Whether the length of an element is found by delimiters.
pub open spec fn delimited(p: DfdlPropsModel, group: DfdlPropsModel) -> bool {
    (match p.length.length_kind {
        Some(k) => k,
        None => match group.length.length_kind {
            Some(k) => k,
            None => LengthKind::Delimited,
        },
    }) == LengthKind::Delimited
}

fn is_delimited(p: &DfdlProps, group: &DfdlProps) -> (r: bool)
    ensures
        r == delimited(p@, group@),
{
    let kind = match length_kind_of(p) {
        Some(k) => k,
        None => match length_kind_of(group) {
            Some(k) => k,
            None => LengthKind::Delimited,
        },
    };
    kind == LengthKind::Delimited
}

/// The properties of an element, those of the one it refers to below its own.
pub open spec fn effective(schema: SchemaDocumentModel, e: ElementDeclModel) -> DfdlPropsModel {
    match types::referred(schema, e) {
        Some(g) => merge::merge_spec(g.props, e.props),
        None => e.props,
    }
}

fn element_effective_props(schema: &SchemaDocument, e: &ElementDecl) -> (r: DfdlProps)
    ensures
        r@ == effective(schema@, e@),
{
    match find_referred(schema, e) {
        Some(g) => merge_dfdl_props(g.props.copy(), e.props.copy()),
        None => e.props.copy(),
    }
}

/// Whether the separator between two elements is in another encoding than the one
/// that is delimited by it.
pub open spec fn pair_clashes(
    own: DfdlPropsModel,
    group: DfdlPropsModel,
    name: Seq<char>,
    prev: DfdlPropsModel,
    next: DfdlPropsModel,
    next_refers: bool,
) -> bool {
    let open = delimited(prev, group) && !given(prev.delimiters.terminator);
    let a = prev.physical.encoding;
    let b = next.physical.encoding;
    open && {
        ||| (a matches Some(x) && !same_encoding(name, x) && !findable(own, x))
        ||| (delimited(next, group) && (b matches Some(y) && !same_encoding(name, y)))
        ||| (next_refers && (a matches Some(x) && (b matches Some(y) && !same_encoding(x, y) && (
        own.physical.encoding is None || !same_encoding(name, x)))))
    }
}

fn pair_clash(
    own: &DfdlProps,
    group: &DfdlProps,
    name: &str,
    prev: &DfdlProps,
    next: &DfdlProps,
    next_refers: bool,
) -> (r: bool)
    ensures
        r == pair_clashes(own@, group@, name@, prev@, next@, next_refers),
{
    if !is_delimited(prev, group) || is_given(terminator_of(prev)) {
        return false;
    }
    let a = encoding_of(prev);
    let b = encoding_of(next);
    if let Some(x) = a {
        let agree = encodings_compatible_for_delimiter_scan(name, x);
        if !agree && !ascii_infix_separator_scannable_in_encoding(own, x) {
            return true;
        }
    }
    if is_delimited(next, group) {
        if let Some(y) = b {
            if !encodings_compatible_for_delimiter_scan(name, y) {
                return true;
            }
        }
    }
    if next_refers {
        if let Some(x) = a {
            if let Some(y) = b {
                if !encodings_compatible_for_delimiter_scan(x, y) && (encoding_of(own).is_none()
                    || !encodings_compatible_for_delimiter_scan(name, x)) {
                    return true;
                }
            }
        }
    }
    false
}

/// The elements among particles.
pub open spec fn elements_in(list: Seq<ParticleModel>, n: nat) -> Seq<ElementDeclModel>
    decreases n,
{
    if n == 0 {
        Seq::empty()
    } else {
        match list[n - 1] {
            ParticleModel::Element(e) => elements_in(list, (n - 1) as nat).push(e),
            _ => elements_in(list, (n - 1) as nat),
        }
    }
}

/// Whether two elements next to one another from `i` on clash.
pub open spec fn any_clash(
    schema: SchemaDocumentModel,
    elements: Seq<ElementDeclModel>,
    i: nat,
    own: DfdlPropsModel,
    group: DfdlPropsModel,
    name: Seq<char>,
) -> bool
    decreases elements.len() - i,
{
    if i + 1 >= elements.len() {
        false
    } else {
        pair_clashes(
            own,
            group,
            name,
            effective(schema, elements[i as int]),
            effective(schema, elements[i as int + 1]),
            elements[i as int + 1].element_ref is Some,
        ) || any_clash(schema, elements, i + 1, own, group, name)
    }
}

/// The error for a separator in the wrong encoding.
pub open spec fn separator_error() -> ErrorModel {
    types::broken_rule(
        "Schema Definition Error: The separator of the enclosing group must be in the same encoding as the delimited element that precedes it. encoding separator"@,
    )
}

/// Why a separator is in the wrong encoding.
#[verifier::opaque]
pub open spec fn sequence_fault(
    schema: SchemaDocumentModel,
    own: DfdlPropsModel,
    list: Seq<ParticleModel>,
    inherited: DfdlPropsModel,
) -> Option<ErrorModel> {
    let group = merge::merge_spec(inherited, own);
    match group.physical.encoding {
        Some(name) if given(own.delimiters.separator) && any_clash(
            schema,
            elements_in(list, list.len()),
            0,
            own,
            group,
            name,
        ) => Some(separator_error()),
        _ => None,
    }
}

fn list_elements<'a>(list: &'a Vec<Particle>) -> (r: Vec<&'a ElementDecl>)
    ensures
        Seq::new(r@.len(), |i: int| r@[i]@) == elements_in(
            ast::particle_models(*list),
            list@.len(),
        ),
{
    let ghost all = ast::particle_models(*list);
    let mut out: Vec<&ElementDecl> = Vec::new();
    let mut i: usize = 0;
    assert(Seq::new(out@.len(), |k: int| out@[k]@) =~= Seq::<ElementDeclModel>::empty());
    while i < list.len()
        invariant
            i <= list@.len(),
            all == ast::particle_models(*list),
            Seq::new(out@.len(), |k: int| out@[k]@) =~= elements_in(all, i as nat),
        decreases list@.len() - i,
    {
        assert(all[i as int] == list@[i as int].model());
        if let Particle::Element(e) = &list[i] {
            let ghost before = Seq::new(out@.len(), |k: int| out@[k]@);
            out.push(e);
            assert(Seq::new(out@.len(), |k: int| out@[k]@) =~= before.push(e@));
        }
        i += 1;
    }
    out
}

fn find_clash(
    schema: &SchemaDocument,
    list: &Vec<Particle>,
    own: &DfdlProps,
    group: &DfdlProps,
    name: &str,
) -> (r: bool)
    ensures
        r == any_clash(
            schema@,
            elements_in(ast::particle_models(*list), list@.len()),
            0,
            own@,
            group@,
            name@,
        ),
{
    let elements = list_elements(list);
    let ghost all = elements_in(ast::particle_models(*list), list@.len());
    assert(all.len() == elements@.len());
    let mut i: usize = 0;
    while i < elements.len() && elements.len() - i > 1
        invariant
            i <= elements@.len(),
            all == Seq::new(elements@.len(), |k: int| elements@[k]@),
            all == elements_in(ast::particle_models(*list), list@.len()),
            any_clash(schema@, all, 0, own@, group@, name@) == any_clash(
                schema@,
                all,
                i as nat,
                own@,
                group@,
                name@,
            ),
        decreases elements@.len() - i,
    {
        assert(all[i as int] == elements@[i as int]@);
        assert(all[i + 1] == elements@[i + 1]@);
        let prev = element_effective_props(schema, elements[i]);
        let next = element_effective_props(schema, elements[i + 1]);
        if pair_clash(own, group, name, &prev, &next, elements[i + 1].element_ref.is_some()) {
            return true;
        }
        i += 1;
    }
    false
}

fn check_sequence(
    schema: &SchemaDocument,
    own: &DfdlProps,
    list: &Vec<Particle>,
    inherited: &DfdlProps,
) -> (r: Result<(), Error>)
    ensures
        types::fault_of(r) == sequence_fault(
            schema@,
            own@,
            ast::particle_models(*list),
            inherited@,
        ),
{
    reveal(sequence_fault);
    if !is_given(separator_of(own)) {
        return Ok(());
    }
    let group = merge_dfdl_props(inherited.copy(), own.copy());
    let name = match encoding_of(&group) {
        Some(n) => n,
        None => {
            return Ok(());
        },
    };
    if find_clash(schema, list, own, &group, name) {
        return Err(
            invalid_property(
                owned(
                    "Schema Definition Error: The separator of the enclosing group must be in the same encoding as the delimited element that precedes it. encoding separator",
                ),
            ),
        );
    }
    Ok(())
}

// The walk over sequences.
/// A list of particles, with the properties that hold in it.
#[verifier::ext_equal]
pub struct ScopeModel {
    pub list: Seq<ParticleModel>,
    pub inherited: DfdlPropsModel,
}

struct Scope<'a> {
    list: &'a Vec<Particle>,
    inherited: DfdlProps,
}

impl<'a> Scope<'a> {
    spec fn model(self) -> ScopeModel {
        ScopeModel { list: ast::particle_models(*self.list), inherited: self.inherited@ }
    }
}

spec fn scope_models(v: Seq<Scope>) -> Seq<ScopeModel> {
    Seq::new(v.len(), |i: int| v[i].model())
}

/// Why the content of a complex type has a separator in the wrong encoding.
pub open spec fn content_fault(
    schema: SchemaDocumentModel,
    content: ComplexContentModel,
    inherited: DfdlPropsModel,
) -> Option<ErrorModel> {
    match content {
        ComplexContentModel::Sequence(s) => sequence_fault(
            schema,
            s.props,
            s.particles,
            inherited,
        ),
        _ => None,
    }
}

/// Where a walk goes on in the content of a complex type.
pub open spec fn content_beyond(content: ComplexContentModel, inherited: DfdlPropsModel) -> Seq<
    ScopeModel,
> {
    match content {
        ComplexContentModel::Empty => Seq::empty(),
        ComplexContentModel::Sequence(s) => seq![
            ScopeModel { list: s.particles, inherited: merge::merge_spec(inherited, s.props) },
        ],
        ComplexContentModel::Choice(c) => seq![ScopeModel { list: c.branches, inherited }],
    }
}

/// The complex type of an element, with the properties that hold in it.
pub open spec fn element_content(
    schema: SchemaDocumentModel,
    e: ElementDeclModel,
    inherited: DfdlPropsModel,
) -> Option<(ComplexContentModel, DfdlPropsModel)> {
    match reach::type_named(schema, e.type_ref) {
        Some(TypeDefModel::Complex { content, props, .. }) => Some(
            (content, merge::merge_spec(merge::merge_spec(inherited, e.props), props)),
        ),
        _ => None,
    }
}

/// Why a particle has a separator in the wrong encoding.
#[verifier::opaque]
pub open spec fn particle_fault(
    schema: SchemaDocumentModel,
    p: ParticleModel,
    inherited: DfdlPropsModel,
) -> Option<ErrorModel> {
    match p {
        ParticleModel::Element(e) => match element_content(schema, e, inherited) {
            Some((content, within)) => content_fault(schema, content, within),
            None => None,
        },
        ParticleModel::Sequence(s) => sequence_fault(schema, s.props, s.particles, inherited),
        _ => None,
    }
}

/// Where a walk goes on from a particle.
#[verifier::opaque]
pub open spec fn particle_beyond(
    schema: SchemaDocumentModel,
    p: ParticleModel,
    inherited: DfdlPropsModel,
) -> Seq<ScopeModel> {
    match p {
        ParticleModel::Element(e) => match element_content(schema, e, inherited) {
            Some((content, within)) => content_beyond(content, within),
            None => Seq::empty(),
        },
        ParticleModel::Sequence(s) => seq![
            ScopeModel { list: s.particles, inherited: merge::merge_spec(inherited, s.props) },
        ],
        ParticleModel::Choice(c) => seq![
            ScopeModel { list: c.branches, inherited: merge::merge_spec(inherited, c.props) },
        ],
        ParticleModel::GroupRef(g) => match reach::group_named(schema, g.name) {
            Some(d) => seq![ScopeModel { list: reach::group_list(d), inherited }],
            None => Seq::empty(),
        },
    }
}

fn content_scope<'a>(content: &'a ComplexContent, inherited: DfdlProps) -> (r: Option<Scope<'a>>)
    ensures
        content_beyond(content.deep_view(), inherited@) == (match r {
            Some(s) => seq![s.model()],
            None => Seq::empty(),
        }),
{
    match content {
        ComplexContent::Empty => None,
        ComplexContent::Sequence(s) => Some(
            Scope { list: &s.particles, inherited: merge_dfdl_props(inherited, s.props.copy()) },
        ),
        ComplexContent::Choice(c) => Some(Scope { list: &c.branches, inherited }),
    }
}

fn check_content(schema: &SchemaDocument, content: &ComplexContent, inherited: &DfdlProps) -> (r:
    Result<(), Error>)
    ensures
        types::fault_of(r) == content_fault(schema@, content.deep_view(), inherited@),
{
    match content {
        ComplexContent::Sequence(s) => check_sequence(schema, &s.props, &s.particles, inherited),
        _ => Ok(()),
    }
}

fn content_of_element<'a>(schema: &'a SchemaDocument, e: &ElementDecl, inherited: &DfdlProps) -> (r:
    Option<(&'a ComplexContent, DfdlProps)>)
    ensures
        match r {
            Some((c, p)) => element_content(schema@, e@, inherited@) == Some((c.deep_view(), p@)),
            None => element_content(schema@, e@, inherited@) is None,
        },
{
    if let Some(t) = schema.resolve_type(&e.type_ref) {
        if let TypeDef::Complex { content, props, .. } = t {
            let within = merge_dfdl_props(inherited.copy(), e.props.copy());
            return Some((content, merge_dfdl_props(within, props.copy())));
        }
    }
    None
}

fn check_particle<'a>(schema: &'a SchemaDocument, p: &'a Particle, inherited: &DfdlProps) -> (r:
    Result<Option<Scope<'a>>, Error>)
    ensures
        match r {
            Err(x) => particle_fault(schema@, p.model(), inherited@) == Some(x@),
            Ok(s) => {
                &&& particle_fault(schema@, p.model(), inherited@) is None
                &&& particle_beyond(schema@, p.model(), inherited@) == (match s {
                    Some(s) => seq![s.model()],
                    None => Seq::empty(),
                })
            },
        },
{
    reveal(particle_fault);
    reveal(particle_beyond);
    match p {
        Particle::Element(e) => match content_of_element(schema, e, inherited) {
            Some((content, within)) => {
                check_content(schema, content, &within)?;
                Ok(content_scope(content, within))
            },
            None => Ok(None),
        },
        Particle::Sequence(s) => {
            check_sequence(schema, &s.props, &s.particles, inherited)?;
            Ok(
                Some(
                    Scope {
                        list: &s.particles,
                        inherited: merge_dfdl_props(inherited.copy(), s.props.copy()),
                    },
                ),
            )
        },
        Particle::Choice(c) => Ok(
            Some(
                Scope {
                    list: &c.branches,
                    inherited: merge_dfdl_props(inherited.copy(), c.props.copy()),
                },
            ),
        ),
        Particle::GroupRef(g) => match find_group(schema, g.name.as_str()) {
            Some(d) => Ok(Some(Scope { list: group_particles(d), inherited: inherited.copy() })),
            None => Ok(None),
        },
    }
}

/// The first sequence from `i` on with a separator in the wrong encoding.
pub open spec fn sequences_fault(schema: SchemaDocumentModel, s: ScopeModel, i: nat) -> Option<
    ErrorModel,
>
    decreases s.list.len() - i,
{
    if i >= s.list.len() {
        None
    } else {
        let here = match s.list[i as int] {
            ParticleModel::Sequence(q) => sequence_fault(
                schema,
                q.props,
                q.particles,
                s.inherited,
            ),
            _ => None,
        };
        match here {
            Some(x) => Some(x),
            None => sequences_fault(schema, s, i + 1),
        }
    }
}

/// The first particle from `i` on with a separator in the wrong encoding.
pub open spec fn particles_fault(schema: SchemaDocumentModel, s: ScopeModel, i: nat) -> Option<
    ErrorModel,
>
    decreases s.list.len() - i,
{
    if i >= s.list.len() {
        None
    } else {
        match particle_fault(schema, s.list[i as int], s.inherited) {
            Some(x) => Some(x),
            None => particles_fault(schema, s, i + 1),
        }
    }
}

/// Why a list has a separator in the wrong encoding: first in its own sequences,
/// then in the types of its elements.
pub open spec fn scope_fault(schema: SchemaDocumentModel, s: ScopeModel) -> Option<ErrorModel> {
    match sequences_fault(schema, s, 0) {
        Some(x) => Some(x),
        None => particles_fault(schema, s, 0),
    }
}

/// Where a walk goes on from the particles before `n`.
pub open spec fn scope_beyond(schema: SchemaDocumentModel, s: ScopeModel, n: nat) -> Seq<ScopeModel>
    decreases n,
{
    if n == 0 {
        Seq::empty()
    } else {
        scope_beyond(schema, s, (n - 1) as nat) + particle_beyond(schema, s.list[n - 1], s.inherited)
    }
}

/// The first list from `k` on with a separator in the wrong encoding.
pub open spec fn scopes_fault(schema: SchemaDocumentModel, v: Seq<ScopeModel>, k: nat) -> Option<
    ErrorModel,
>
    decreases v.len() - k,
{
    if k >= v.len() {
        None
    } else {
        match scope_fault(schema, v[k as int]) {
            Some(x) => Some(x),
            None => scopes_fault(schema, v, k + 1),
        }
    }
}

/// Where a walk goes on from the lists before `n`.
pub open spec fn scopes_beyond(schema: SchemaDocumentModel, v: Seq<ScopeModel>, n: nat) -> Seq<
    ScopeModel,
>
    decreases n,
{
    if n == 0 {
        Seq::empty()
    } else {
        scopes_beyond(schema, v, (n - 1) as nat) + scope_beyond(
            schema,
            v[n - 1],
            v[n - 1].list.len(),
        )
    }
}

/// The first separator in the wrong encoding: in these lists, then in those into
/// which the walk goes on from them, and so forth.
pub open spec fn levels_fault(schema: SchemaDocumentModel, v: Seq<ScopeModel>, left: nat) -> Option<
    ErrorModel,
>
    decreases left,
{
    if v.len() == 0 || left == 0 {
        None
    } else {
        match scopes_fault(schema, v, 0) {
            Some(x) => Some(x),
            None => levels_fault(schema, scopes_beyond(schema, v, v.len()), (left - 1) as nat),
        }
    }
}

fn check_sequences(schema: &SchemaDocument, list: &Vec<Particle>, inherited: &DfdlProps) -> (r:
    Result<(), Error>)
    ensures
        types::fault_of(r) == sequences_fault(
            schema@,
            ScopeModel { list: ast::particle_models(*list), inherited: inherited@ },
            0,
        ),
{
    let ghost s = ScopeModel { list: ast::particle_models(*list), inherited: inherited@ };
    let mut i: usize = 0;
    while i < list.len()
        invariant
            i <= list@.len(),
            s == (ScopeModel { list: ast::particle_models(*list), inherited: inherited@ }),
            sequences_fault(schema@, s, 0) == sequences_fault(schema@, s, i as nat),
        decreases list@.len() - i,
    {
        assert(s.list[i as int] == list@[i as int].model());
        if let Particle::Sequence(q) = &list[i] {
            check_sequence(schema, &q.props, &q.particles, inherited)?;
        }
        i += 1;
    }
    Ok(())
}

fn check_scope<'a>(
    schema: &'a SchemaDocument,
    list: &'a Vec<Particle>,
    inherited: &DfdlProps,
    next: &mut Vec<Scope<'a>>,
) -> (r: Result<(), Error>)
    ensures
        types::fault_of(r) == scope_fault(
            schema@,
            ScopeModel { list: ast::particle_models(*list), inherited: inherited@ },
        ),
        r is Ok ==> values::agree(
            scope_models(final(next)@),
            scope_models(old(next)@) + scope_beyond(
                schema@,
                ScopeModel { list: ast::particle_models(*list), inherited: inherited@ },
                list@.len(),
            ),
        ),
{
    let ghost s = ScopeModel { list: ast::particle_models(*list), inherited: inherited@ };
    check_sequences(schema, list, inherited)?;
    let ghost start = scope_models(next@);
    let mut i: usize = 0;
    assert(start + Seq::<ScopeModel>::empty() =~= start);
    while i < list.len()
        invariant
            i <= list@.len(),
            s == (ScopeModel { list: ast::particle_models(*list), inherited: inherited@ }),
            sequences_fault(schema@, s, 0) is None,
            particles_fault(schema@, s, 0) == particles_fault(schema@, s, i as nat),
            values::agree(scope_models(next@), start + scope_beyond(schema@, s, i as nat)),
        decreases list@.len() - i,
    {
        assert(s.list[i as int] == list@[i as int].model());
        let ghost before = scope_models(next@);
        let ghost so_far = scope_beyond(schema@, s, i as nat);
        let more = check_particle(schema, &list[i], inherited)?;
        match more {
            Some(m) => {
                let ghost shown = m.model();
                next.push(m);
                assert(scope_models(next@) =~= before.push(shown));
                assert((start + so_far).push(shown) =~= start + (so_far + seq![shown]));
            },
            None => {
                assert(start + (so_far + Seq::<ScopeModel>::empty()) =~= start + so_far);
            },
        }
        i += 1;
    }
    Ok(())
}

fn check_scopes<'a>(schema: &'a SchemaDocument, scopes: &Vec<Scope<'a>>) -> (r: Result<
    Vec<Scope<'a>>,
    Error,
>)
    ensures
        match r {
            Err(x) => scopes_fault(schema@, scope_models(scopes@), 0) == Some(x@),
            Ok(next) => scopes_fault(schema@, scope_models(scopes@), 0) is None && values::agree(
                scope_models(next@),
                scopes_beyond(schema@, scope_models(scopes@), scopes@.len()),
            ),
        },
{
    let ghost all = scope_models(scopes@);
    let mut next: Vec<Scope> = Vec::new();
    let mut k: usize = 0;
    assert(scope_models(next@) =~= Seq::<ScopeModel>::empty());
    while k < scopes.len()
        invariant
            k <= scopes@.len(),
            all == scope_models(scopes@),
            scopes_fault(schema@, all, 0) == scopes_fault(schema@, all, k as nat),
            values::agree(scope_models(next@), scopes_beyond(schema@, all, k as nat)),
        decreases scopes@.len() - k,
    {
        assert(values::agree(all[k as int], scopes@[k as int].model()));
        check_scope(schema, scopes[k].list, &scopes[k].inherited, &mut next)?;
        k += 1;
    }
    Ok(next)
}

fn check_levels<'a>(schema: &'a SchemaDocument, first: Scope<'a>, limit: u64) -> (r: Result<
    (),
    Error,
>)
    ensures
        types::fault_of(r) == levels_fault(schema@, seq![first.model()], limit as nat),
{
    let ghost begin: Seq<ScopeModel> = seq![first.model()];
    let mut scopes: Vec<Scope> = Vec::new();
    scopes.push(first);
    assert(scope_models(scopes@) =~= begin);
    let mut left: u64 = limit;
    let ghost want = levels_fault(schema@, begin, limit as nat);
    while scopes.len() > 0 && left > 0
        invariant
            values::agree(begin, seq![first.model()]),
            want == levels_fault(schema@, begin, limit as nat),
            want == levels_fault(schema@, scope_models(scopes@), left as nat),
        decreases left,
    {
        scopes = check_scopes(schema, &scopes)?;
        left -= 1;
    }
    Ok(())
}

/// Why a separator that is reached from the root is in the wrong encoding.
pub open spec fn separator_encoding_fault(schema: SchemaDocumentModel, root: Seq<char>) -> Option<
    ErrorModel,
> {
    match qname::global_element(schema, root) {
        None => None,
        Some(g) => match reach::type_named(schema, g.type_ref) {
            Some(TypeDefModel::Complex { content, .. }) => {
                let inherited = schema.format_defaults.props;
                match content_fault(schema, content, inherited) {
                    Some(x) => Some(x),
                    None => levels_fault(
                        schema,
                        content_beyond(content, inherited),
                        reach::walk_limit(schema),
                    ),
                }
            },
            _ => None,
        },
    }
}

/// Separators that are reached from the root are in the encoding of what they
/// separate.
pub fn validate_sequence_separator_encoding(schema: &SchemaDocument, root: &str) -> (r: Result<
    (),
    Error,
>)
    ensures
        types::fault_of(r) == separator_encoding_fault(schema@, root@),
{
    reveal(crate::ast::document_model);
    let g = match get_global_element(schema, root) {
        None => {
            return Ok(());
        },
        Some(g) => g,
    };
    if let Some(t) = schema.resolve_type(&g.type_ref) {
        if let TypeDef::Complex { content, .. } = t {
            check_content(schema, content, &schema.format_defaults.props)?;
            let limit = limit_of(schema);
            return match content_scope(content, schema.format_defaults.props.copy()) {
                Some(s) => check_levels(schema, s, limit),
                None => Ok(()),
            };
        }
    }
    Ok(())
}

// Escape characters.
/// Whether one of several delimiters begins with this text.
pub open spec fn any_begins(alternatives: Seq<Seq<char>>, start: Seq<char>) -> bool {
    exists|i: int|
        0 <= i < alternatives.len() && text::has_prefix(#[trigger] alternatives[i], start)
}

/// Why the characters of an escape scheme clash with a separator.
pub open spec fn scheme_fault(separator: Seq<char>, s: EscapeSchemeDefModel) -> Option<ErrorModel> {
    let alternatives = text::words_spec(entities::expanded(separator));
    if s.escape_kind != EscapeKind::EscapeCharacter {
        None
    } else if s.escape_character matches Some(c) && c.len() > 0 && any_begins(alternatives, c) {
        Some(
            types::broken_rule(
                "Schema Definition Error: The escape character cannot be the same as terminating markup for dfdl:separator or dfdl:terminator."@,
            ),
        )
    } else if s.escape_escape_character matches Some(c) && c.len() > 0 && any_begins(
        alternatives,
        c,
    ) {
        Some(
            types::broken_rule(
                "Schema Definition Error: dfdl:terminator and dfdl:separator properties may not begin with the dfdl:escapeEscapeCharacter property value."@,
            ),
        )
    } else {
        None
    }
}

fn one_begins(alternatives: &Vec<&[char]>, start: &Option<String>) -> (r: bool)
    ensures
        r == (start.deep_view() matches Some(c) && c.len() > 0 && any_begins(
            text::view_all(alternatives@),
            c,
        )),
{
    let s = match start {
        Some(s) => s.as_str(),
        None => {
            return false;
        },
    };
    if chars_of(s).len() == 0 {
        return false;
    }
    let mut i: usize = 0;
    while i < alternatives.len()
        invariant
            i <= alternatives@.len(),
            start.deep_view() == Some(s@),
            s@.len() > 0,
            forall|k: int|
                0 <= k < i ==> !text::has_prefix(
                    #[trigger] text::view_all(alternatives@)[k],
                    s@,
                ),
        decreases alternatives@.len() - i,
    {
        assert(text::view_all(alternatives@)[i as int] == alternatives@[i as int]@);
        if text::starts_with(alternatives[i], s) {
            return true;
        }
        i += 1;
    }
    false
}

fn check_scheme(separator: &str, s: &EscapeSchemeDef) -> (r: Result<(), Error>)
    ensures
        types::fault_of(r) == scheme_fault(separator@, s.deep_view()),
{
    if s.escape_kind != EscapeKind::EscapeCharacter {
        return Ok(());
    }
    let expanded = expand_entities_str(separator);
    let c = chars_of(expanded.as_str());
    let alternatives = words(c.as_slice());
    if one_begins(&alternatives, &s.escape_character) {
        return Err(
            invalid_property(
                owned(
                    "Schema Definition Error: The escape character cannot be the same as terminating markup for dfdl:separator or dfdl:terminator.",
                ),
            ),
        );
    }
    if one_begins(&alternatives, &s.escape_escape_character) {
        return Err(
            invalid_property(
                owned(
                    "Schema Definition Error: dfdl:terminator and dfdl:separator properties may not begin with the dfdl:escapeEscapeCharacter property value.",
                ),
            ),
        );
    }
    Ok(())
}

/// The escape scheme that a declaration names.
pub open spec fn scheme_named(schema: SchemaDocumentModel, name: Seq<char>) -> Option<
    EscapeSchemeDefModel,
> {
    match strmap::lookup(schema.named_escape_schemes, name) {
        Some(s) => Some(s),
        None => qname::stored_under(schema, schema.named_escape_schemes, name),
    }
}

/// The first element from `i` on whose escape scheme clashes with a separator.
pub open spec fn schemes_fault(
    schema: SchemaDocumentModel,
    separator: Seq<char>,
    list: Seq<ParticleModel>,
    i: nat,
) -> Option<ErrorModel>
    decreases list.len() - i,
{
    if i >= list.len() {
        None
    } else {
        let here = match list[i as int] {
            ParticleModel::Element(e) => match e.props.text.escape_scheme_ref {
                Some(name) => match scheme_named(schema, name) {
                    Some(s) => scheme_fault(separator, s),
                    None => None,
                },
                None => None,
            },
            _ => None,
        };
        match here {
            Some(x) => Some(x),
            None => schemes_fault(schema, separator, list, i + 1),
        }
    }
}

fn check_schemes(schema: &SchemaDocument, separator: &str, list: &Vec<Particle>) -> (r: Result<
    (),
    Error,
>)
    ensures
        types::fault_of(r) == schemes_fault(
            schema@,
            separator@,
            ast::particle_models(*list),
            0,
        ),
{
    reveal(crate::ast::document_model);
    let ghost all = ast::particle_models(*list);
    let mut i: usize = 0;
    while i < list.len()
        invariant
            i <= list@.len(),
            all == ast::particle_models(*list),
            schemes_fault(schema@, separator@, all, 0) == schemes_fault(
                schema@,
                separator@,
                all,
                i as nat,
            ),
        decreases list@.len() - i,
    {
        reveal(crate::ast::document_model);
        assert(all[i as int] == list@[i as int].model());
        if let Particle::Element(e) = &list[i] {
            if let Some(name) = escape_scheme_ref_of(&e.props) {
                match schema.named_escape_schemes.get(name) {
                    Some(s) => {
                        check_scheme(separator, s)?;
                    },
                    None => {
                        if let Some(s) = lookup_named_escape_scheme_in_document(schema, name) {
                            check_scheme(separator, &s)?;
                        }
                    },
                }
            }
        }
        i += 1;
    }
    Ok(())
}

/// The first of these types from `i` on in which an escape scheme clashes with the
/// separator.
pub open spec fn escapes_fault_from(
    schema: SchemaDocumentModel,
    names: Seq<(Seq<char>, bool)>,
    i: nat,
) -> Option<ErrorModel>
    decreases names.len() - i,
{
    if i >= names.len() {
        None
    } else {
        match type_escapes_fault(schema, names[i as int].0) {
            Some(x) => Some(x),
            None => escapes_fault_from(schema, names, i + 1),
        }
    }
}

/// Why an escape scheme in a complex type clashes with its separator.
pub open spec fn type_escapes_fault(schema: SchemaDocumentModel, name: Seq<char>) -> Option<
    ErrorModel,
> {
    match reach::type_named(schema, name) {
        Some(TypeDefModel::Complex { content: ComplexContentModel::Sequence(s), .. }) => match s.props.delimiters.separator {
            Some(separator) => schemes_fault(schema, separator, s.particles, 0),
            None => None,
        },
        _ => None,
    }
}

fn check_type_escapes(schema: &SchemaDocument, name: &TypeName) -> (r: Result<(), Error>)
    ensures
        types::fault_of(r) == type_escapes_fault(schema@, name@),
{
    if let Some(t) = schema.resolve_type(name) {
        if let TypeDef::Complex { content, .. } = t {
            if let ComplexContent::Sequence(s) = content {
                if let Some(separator) = separator_of(&s.props) {
                    return check_schemes(schema, separator, &s.particles);
                }
            }
        }
    }
    Ok(())
}

/// Escape characters do not clash with separators.
pub fn validate_escape_separator_distinct(schema: &SchemaDocument, root: &str) -> (r: Result<
    (),
    Error,
>)
    ensures
        types::fault_of(r) == escapes_fault_from(schema@, reach::reachable(schema@, root@), 0),
{
    let names = types_reachable_from_root(schema, root);
    let ghost all = names@;
    let mut i: usize = 0;
    while i < names.entries.len()
        invariant
            i <= names.entries@.len(),
            all == names@,
            all == reach::reachable(schema@, root@),
            escapes_fault_from(schema@, all, 0) == escapes_fault_from(schema@, all, i as nat),
        decreases names.entries@.len() - i,
    {
        assert(all[i as int] == names.entries@[i as int].deep_view());
        let tn = TypeName::new(names.entries[i].0.as_str());
        check_type_escapes(schema, &tn)?;
        i += 1;
    }
    Ok(())
}

} // verus!
