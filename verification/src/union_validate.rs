//! Whether a text is a value of a union.

use vstd::prelude::*;
use regex_automata::meta::Regex;
use regex_automata::{Anchored, Input};
use crate::ast;
use crate::ast::{
    RestrictionBase, RestrictionBaseModel, SchemaDocument, SchemaDocumentModel, SimpleBase,
    SimpleBaseModel, TypeDef, TypeDefModel, TypeName, UnionMember, UnionMemberModel,
};
use crate::error::cat3;
use crate::strmap;
use crate::text;
use crate::text::{chars_of, string_of, trim};
use crate::values;

verus! {

/// Whether `regex_automata` finds a match of this pattern that begins where the
/// text begins; none where the pattern is no pattern.
pub uninterp spec fn regex_found(pattern: Seq<char>, s: Seq<char>) -> Option<bool>;

/// `regex_automata::meta::Regex::new` and, where that gives a matcher,
/// `is_match` on the bytes of the text, anchored: the same for the same pattern
/// and text.
#[verifier::external_body]
fn find_regex(pattern: &str, s: &str) -> (r: Option<bool>)
    ensures
        r == regex_found(pattern@, s@),
{
    match Regex::new(pattern) {
        Ok(re) => Some(re.is_match(Input::new(s.as_bytes()).anchored(Anchored::Yes))),
        Err(_) => None,
    }
}

/// The pattern that matches only whole texts.
pub open spec fn anchored_pattern(pat: Seq<char>) -> Seq<char> {
    "\\A(?:"@ + text::trim_spec(pat) + ")\\z"@
}

/// The pattern matches the whole text, given whether its anchored form was found:
/// an empty pattern matches the empty text, and for what is no pattern the other
/// answer counts.
pub open spec fn matches_whole(
    s: Seq<char>,
    pat: Seq<char>,
    found: Option<bool>,
    other: bool,
) -> bool {
    if text::trim_spec(pat).len() == 0 {
        s.len() == 0
    } else {
        match found {
            Some(b) => b,
            None => other,
        }
    }
}

/// The pattern matches the whole text; what is no pattern matches nothing.
pub open spec fn pattern_whole(s: Seq<char>, pat: Seq<char>) -> bool {
    matches_whole(s, pat, regex_found(anchored_pattern(pat), s), false)
}

/// Whether the pattern matches the whole text, given whether its anchored form was
/// found and what another matcher says of what is no pattern.
pub fn pattern_matches_given(s: &str, pat: &str, found: Option<bool>, other: bool) -> (r: bool)
    ensures
        r == matches_whole(s@, pat@, found, other),
{
    let p = chars_of(pat);
    if trim(p.as_slice()).len() == 0 {
        let c = chars_of(s);
        return c.len() == 0;
    }
    match found {
        Some(b) => b,
        None => other,
    }
}

/// Whether the pattern matches the whole text.
pub fn pattern_matches_whole(s: &str, pat: &str) -> (r: bool)
    ensures
        r == pattern_whole(s@, pat@),
{
    let p = chars_of(pat);
    let body = string_of(trim(p.as_slice()));
    let found = find_regex(cat3("\\A(?:", body.as_str(), ")\\z").as_str(), s);
    pattern_matches_given(s, pat, found, false)
}

/// One of the patterns matches the whole text.
pub open spec fn some_pattern(s: Seq<char>, patterns: Seq<Seq<char>>) -> bool {
    exists|i: int| 0 <= i < patterns.len() && pattern_whole(s, #[trigger] patterns[i])
}

/// The text keeps within these lengths and matches one of the patterns, where
/// there are any.
pub open spec fn level_accepts(
    min: Option<u64>,
    max: Option<u64>,
    patterns: Seq<Seq<char>>,
    s: Seq<char>,
) -> bool {
    &&& (min matches Some(n) ==> s.len() >= n)
    &&& (max matches Some(n) ==> s.len() <= n)
    &&& (patterns.len() > 0 ==> some_pattern(s, patterns))
}

/// Whether the text keeps within these lengths and matches one of the patterns.
pub fn restriction_level_accepts(
    min: Option<u64>,
    max: Option<u64>,
    patterns: &Vec<String>,
    s: &str,
) -> (r: bool)
    ensures
        r == level_accepts(min, max, patterns.deep_view(), s@),
{
    let size: u64 = chars_of(s).len() as u64;
    if let Some(n) = min {
        if size < n {
            return false;
        }
    }
    if let Some(n) = max {
        if size > n {
            return false;
        }
    }
    let n: usize = patterns.len();
    let ghost all = patterns.deep_view();
    let mut i: usize = 0;
    while i < n
        invariant
            i <= n,
            n == patterns@.len(),
            all == patterns.deep_view(),
            size == s@.len(),
            min matches Some(k) ==> size >= k,
            max matches Some(k) ==> size <= k,
            forall|j: int| 0 <= j < i ==> !pattern_whole(s@, #[trigger] all[j]),
        decreases n - i,
    {
        assert(all[i as int] == patterns@[i as int]@);
        if pattern_matches_whole(s, patterns[i].as_str()) {
            assert(some_pattern(s@, all));
            return true;
        }
        i += 1;
    }
    n == 0
}

/// The text is a value of the type with this name, following at most `depth` names.
pub open spec fn type_accepts(
    types: Seq<(Seq<char>, TypeDefModel)>,
    name: Seq<char>,
    s: Seq<char>,
    depth: nat,
) -> bool
    decreases depth, types, 0nat,
{
    match strmap::lookup(types, name) {
        Some(TypeDefModel::Simple { base, .. }) => depth > 0 && base_accepts(
            types,
            base,
            s,
            (depth - 1) as nat,
        ),
        _ => false,
    }
}

/// The text is a value of a simple type with this base, following at most `depth`
/// names.
pub open spec fn base_accepts(
    types: Seq<(Seq<char>, TypeDefModel)>,
    base: SimpleBaseModel,
    s: Seq<char>,
    depth: nat,
) -> bool
    decreases depth, base, 0nat,
{
    match base {
        SimpleBaseModel::Union { members } => some_member(types, members, 0, s, depth),
        SimpleBaseModel::Restriction { base: parent, facets, .. } => level_accepts(
            facets.min_length,
            facets.max_length,
            facets.patterns,
            s,
        ) && (match parent {
            RestrictionBaseModel::Builtin(_) => true,
            RestrictionBaseModel::Named(name) => depth > 0 && type_accepts(
                types,
                name,
                s,
                (depth - 1) as nat,
            ),
        }),
        SimpleBaseModel::Builtin(_) => true,
    }
}

/// The text is a value of one of the members from `i` on.
pub open spec fn some_member(
    types: Seq<(Seq<char>, TypeDefModel)>,
    members: Seq<UnionMemberModel>,
    i: nat,
    s: Seq<char>,
    depth: nat,
) -> bool
    decreases depth, members, members.len() - i,
{
    if i >= members.len() {
        false
    } else {
        (match members[i as int] {
            UnionMemberModel::Named(name) => depth > 0 && type_accepts(
                types,
                name,
                s,
                (depth - 1) as nat,
            ),
            UnionMemberModel::Inline(base) => base_accepts(types, base, s, depth),
        }) || some_member(types, members, i + 1, s, depth)
    }
}

/// The members of the union that underlies a base, following at most `depth`
/// names.
pub open spec fn members_under(
    types: Seq<(Seq<char>, TypeDefModel)>,
    base: SimpleBaseModel,
    depth: nat,
) -> Option<Seq<UnionMemberModel>>
    decreases depth,
{
    match base {
        SimpleBaseModel::Union { members } => Some(members),
        SimpleBaseModel::Restriction { base: RestrictionBaseModel::Named(name), .. } => match strmap::lookup(
            types,
            name,
        ) {
            Some(TypeDefModel::Simple { base: parent, .. }) => if depth > 0 && !(parent is Builtin) {
                members_under(types, parent, (depth - 1) as nat)
            } else {
                None
            },
            _ => None,
        },
        _ => None,
    }
}

/// How many names are followed from one type to another: with more, a type would
/// be defined by itself.
pub open spec fn name_depth(schema: SchemaDocumentModel) -> nat {
    values::least(2 * schema.types.len(), usize::MAX as nat)
}

/// The text is a value of some member of the union that underlies the type, where
/// one does.
pub open spec fn in_union(schema: SchemaDocumentModel, name: Seq<char>, s: Seq<char>, depth: nat) -> bool {
    match strmap::lookup(schema.types, name) {
        Some(TypeDefModel::Simple { base, .. }) => match members_under(schema.types, base, depth) {
            Some(members) => some_member(schema.types, members, 0, s, depth),
            None => true,
        },
        _ => true,
    }
}

/// Whether the text is a value of the type with this name.
fn simple_type_accepts(schema: &SchemaDocument, name: &TypeName, s: &str, depth: usize) -> (r: bool)
    ensures
        r == type_accepts(schema@.types, name@, s@, depth as nat),
    decreases depth, *name, 0nat,
{
    match schema.resolve_type(name) {
        Some(TypeDef::Simple { base, .. }) => depth > 0 && simple_base_accepts(
            schema,
            base,
            s,
            depth - 1,
        ),
        _ => false,
    }
}

/// Whether the text is a value of a simple type with this base.
fn simple_base_accepts(schema: &SchemaDocument, base: &SimpleBase, s: &str, depth: usize) -> (r: bool)
    ensures
        r == base_accepts(schema@.types, base.model(), s@, depth as nat),
    decreases depth, *base, 0nat,
{
    match base {
        SimpleBase::Union { members } => union_members_accept(schema, members, s, depth),
        SimpleBase::Restriction { base: parent, facets, .. } => {
            if !restriction_level_accepts(
                facets.min_length,
                facets.max_length,
                &facets.patterns,
                s,
            ) {
                return false;
            }
            match parent {
                RestrictionBase::Builtin(_) => true,
                RestrictionBase::Named(name) => depth > 0 && simple_type_accepts(
                    schema,
                    name,
                    s,
                    depth - 1,
                ),
            }
        },
        SimpleBase::Builtin(_) => true,
    }
}

/// Whether the text is a value of one of the members.
fn union_members_accept(schema: &SchemaDocument, members: &Vec<UnionMember>, s: &str, depth: usize) -> (r:
    bool)
    ensures
        r == some_member(schema@.types, ast::member_models(*members), 0, s@, depth as nat),
    decreases depth, *members, 0nat,
{
    let n: usize = members.len();
    let ghost all = ast::member_models(*members);
    let mut i: usize = 0;
    while i < n
        invariant
            i <= n,
            n == members@.len(),
            all == ast::member_models(*members),
            some_member(schema@.types, all, 0, s@, depth as nat) == some_member(
                schema@.types,
                all,
                i as nat,
                s@,
                depth as nat,
            ),
        decreases n - i,
    {
        assert(all[i as int] == members@[i as int].model());
        let accepted: bool = match &members[i] {
            UnionMember::Named(name) => depth > 0 && simple_type_accepts(
                schema,
                name,
                s,
                depth - 1,
            ),
            UnionMember::Inline(base) => {
                proof {
                    assert(decreases_to!(*members => members@));
                    assert(decreases_to!(members@ => members@[i as int]));
                    assert(decreases_to!(members@[i as int] => members@[i as int]->Inline_0));
                }
                simple_base_accepts(schema, base, s, depth)
            },
        };
        if accepted {
            return true;
        }
        i += 1;
    }
    false
}

/// The members of the union that underlies a base.
fn union_members_to_validate<'a>(schema: &'a SchemaDocument, base: &'a SimpleBase, depth: usize) -> (r:
    Option<&'a Vec<UnionMember>>)
    ensures
        match r {
            Some(v) => members_under(schema@.types, base.model(), depth as nat) == Some(
                ast::member_models(*v),
            ),
            None => members_under(schema@.types, base.model(), depth as nat) is None,
        },
    decreases depth,
{
    match base {
        SimpleBase::Union { members } => Some(members),
        SimpleBase::Restriction { base: RestrictionBase::Named(name), .. } => match schema.resolve_type(
            name,
        ) {
            Some(TypeDef::Simple { base: parent, .. }) => match parent {
                SimpleBase::Builtin(_) => None,
                _ => if depth > 0 {
                    union_members_to_validate(schema, parent, depth - 1)
                } else {
                    None
                },
            },
            _ => None,
        },
        _ => None,
    }
}

/// Whether the text is a value of some member of the union that underlies the
/// type, following at most `depth` names.
fn validate_to_depth(schema: &SchemaDocument, name: &TypeName, s: &str, depth: usize) -> (r: bool)
    ensures
        r == in_union(schema@, name@, s@, depth as nat),
{
    match schema.resolve_type(name) {
        Some(TypeDef::Simple { base, .. }) => match union_members_to_validate(
            schema,
            base,
            depth,
        ) {
            Some(members) => union_members_accept(schema, members, s, depth),
            None => true,
        },
        _ => true,
    }
}

/// Whether the text is a value of some member of the union that underlies the
/// type, where one does. Types that are defined by themselves have no values.
pub fn validate_union_membership(schema: &SchemaDocument, name: &TypeName, s: &str) -> (r: bool)
    ensures
        r == in_union(schema@, name@, s@, name_depth(schema@)),
{
    reveal(crate::ast::document_model);
    let n: usize = schema.types.len();
    let depth: usize = if n <= usize::MAX / 2 {
        2 * n
    } else {
        usize::MAX
    };
    validate_to_depth(schema, name, s, depth)
}

/// A base refers to a type by this name.
pub open spec fn refers(base: SimpleBaseModel, name: Seq<char>) -> bool
    decreases base, 0nat,
{
    match base {
        SimpleBaseModel::Union { members } => member_refers(members, 0, name),
        SimpleBaseModel::Restriction { base: RestrictionBaseModel::Named(n), .. } => n == name,
        _ => false,
    }
}

/// A member from `i` on refers to a type by this name.
pub open spec fn member_refers(members: Seq<UnionMemberModel>, i: nat, name: Seq<char>) -> bool
    decreases members, members.len() - i,
{
    i < members.len() && ((match members[i as int] {
        UnionMemberModel::Named(n) => n == name,
        UnionMemberModel::Inline(b) => refers(b, name),
    }) || member_refers(members, i + 1, name))
}

/// Every name that a base refers to, where there is such a type, has a smaller
/// number than `k`.
pub open spec fn refers_below(
    types: Seq<(Seq<char>, TypeDefModel)>,
    base: SimpleBaseModel,
    rank: spec_fn(Seq<char>) -> nat,
    k: nat,
) -> bool {
    forall|m: Seq<char>|
        #[trigger] refers(base, m) && strmap::lookup(types, m) is Some ==> rank(m) < k
}

/// The types can be numbered so that each refers to types with smaller numbers
/// only: none is defined through itself.
pub open spec fn defined_in_order(
    types: Seq<(Seq<char>, TypeDefModel)>,
    rank: spec_fn(Seq<char>) -> nat,
) -> bool {
    forall|n: Seq<char>| #[trigger]
        strmap::lookup(types, n) is Some ==> rank(n) < types.len() && (strmap::lookup(
            types,
            n,
        )->0 matches TypeDefModel::Simple { base, .. } ==> refers_below(types, base, rank, rank(n)))
}

/// The text is a value of the type with this name.
pub open spec fn takes(schema: SchemaDocumentModel, name: Seq<char>, s: Seq<char>) -> bool {
    type_accepts(schema.types, name, s, name_depth(schema))
}

/// The text is a value of the member.
pub open spec fn member_takes(
    schema: SchemaDocumentModel,
    member: UnionMemberModel,
    s: Seq<char>,
) -> bool {
    match member {
        UnionMemberModel::Named(name) => takes(schema, name, s),
        UnionMemberModel::Inline(base) => base_accepts(schema.types, base, s, name_depth(schema)),
    }
}

/// The types of a schema can be counted twice, and none is defined through itself.
pub open spec fn sound(schema: SchemaDocumentModel, rank: spec_fn(Seq<char>) -> nat) -> bool {
    2 * schema.types.len() <= usize::MAX && defined_in_order(schema.types, rank)
}

proof fn lemma_type_depth(
    types: Seq<(Seq<char>, TypeDefModel)>,
    rank: spec_fn(Seq<char>) -> nat,
    name: Seq<char>,
    s: Seq<char>,
    d: nat,
    e: nat,
)
    requires
        defined_in_order(types, rank),
        strmap::lookup(types, name) is Some ==> d > 2 * rank(name) && e > 2 * rank(name),
    ensures
        type_accepts(types, name, s, d) == type_accepts(types, name, s, e),
    decreases d, types, 1nat,
{
    if strmap::lookup(types, name) is Some {
        if let TypeDefModel::Simple { base, .. } = strmap::lookup(types, name)->0 {
            lemma_base_depth(types, rank, base, s, rank(name), (d - 1) as nat, (e - 1) as nat);
        }
    }
}

proof fn lemma_base_depth(
    types: Seq<(Seq<char>, TypeDefModel)>,
    rank: spec_fn(Seq<char>) -> nat,
    base: SimpleBaseModel,
    s: Seq<char>,
    k: nat,
    d: nat,
    e: nat,
)
    requires
        defined_in_order(types, rank),
        refers_below(types, base, rank, k),
        d >= 2 * k,
        e >= 2 * k,
    ensures
        base_accepts(types, base, s, d) == base_accepts(types, base, s, e),
    decreases d, base, 0nat,
{
    match base {
        SimpleBaseModel::Union { members } => {
            assert forall|m: Seq<char>|
                #[trigger] member_refers(members, 0, m) && strmap::lookup(
                    types,
                    m,
                ) is Some implies rank(m) < k by {
                assert(refers(base, m));
            }
            lemma_members_depth(types, rank, members, 0, s, k, d, e);
        },
        SimpleBaseModel::Restriction { base: RestrictionBaseModel::Named(n), .. } => {
            assert(refers(base, n));
            if d > 0 && e > 0 {
                lemma_type_depth(types, rank, n, s, (d - 1) as nat, (e - 1) as nat);
            }
        },
        _ => {},
    }
}

proof fn lemma_members_depth(
    types: Seq<(Seq<char>, TypeDefModel)>,
    rank: spec_fn(Seq<char>) -> nat,
    members: Seq<UnionMemberModel>,
    i: nat,
    s: Seq<char>,
    k: nat,
    d: nat,
    e: nat,
)
    requires
        defined_in_order(types, rank),
        forall|m: Seq<char>|
            #[trigger] member_refers(members, i, m) && strmap::lookup(types, m) is Some ==> rank(m)
                < k,
        d >= 2 * k,
        e >= 2 * k,
    ensures
        some_member(types, members, i, s, d) == some_member(types, members, i, s, e),
    decreases d, members, members.len() - i,
{
    if i < members.len() {
        match members[i as int] {
            UnionMemberModel::Named(n) => {
                assert(member_refers(members, i, n));
                if d > 0 && e > 0 {
                    lemma_type_depth(types, rank, n, s, (d - 1) as nat, (e - 1) as nat);
                } else {
                    assert(strmap::lookup(types, n) is None);
                    assert(d > 0 ==> !type_accepts(types, n, s, (d - 1) as nat));
                    assert(e > 0 ==> !type_accepts(types, n, s, (e - 1) as nat));
                }
            },
            UnionMemberModel::Inline(b) => {
                assert forall|m: Seq<char>|
                    #[trigger] refers(b, m) && strmap::lookup(types, m) is Some implies rank(m)
                    < k by {
                    assert(member_refers(members, i, m));
                }
                assert(decreases_to!(members => members[i as int]));
                lemma_base_depth(types, rank, b, s, k, d, e);
            },
        }
        assert forall|m: Seq<char>|
            #[trigger] member_refers(members, i + 1, m) && strmap::lookup(
                types,
                m,
            ) is Some implies rank(m) < k by {
            assert(member_refers(members, i, m));
        }
        lemma_members_depth(types, rank, members, i + 1, s, k, d, e);
    }
}

/// A member is taken just where it is taken from a depth that suffices.
proof fn lemma_member_takes(
    schema: SchemaDocumentModel,
    rank: spec_fn(Seq<char>) -> nat,
    members: Seq<UnionMemberModel>,
    i: nat,
    s: Seq<char>,
    k: nat,
    d: nat,
)
    requires
        sound(schema, rank),
        forall|m: Seq<char>|
            #[trigger] member_refers(members, i, m) && strmap::lookup(
                schema.types,
                m,
            ) is Some ==> rank(m) < k,
        2 * k <= d,
        k <= schema.types.len(),
    ensures
        some_member(schema.types, members, i, s, d) <==> exists|j: int|
            i <= j < members.len() && member_takes(schema, #[trigger] members[j], s),
    decreases members.len() - i,
{
    let types = schema.types;
    if i < members.len() {
        match members[i as int] {
            UnionMemberModel::Named(n) => {
                assert(member_refers(members, i, n));
                if d > 0 {
                    lemma_type_depth(types, rank, n, s, (d - 1) as nat, name_depth(schema));
                }
                assert(member_takes(schema, members[i as int], s) == (d > 0 && type_accepts(
                    types,
                    n,
                    s,
                    (d - 1) as nat,
                )));
            },
            UnionMemberModel::Inline(b) => {
                assert forall|m: Seq<char>|
                    #[trigger] refers(b, m) && strmap::lookup(types, m) is Some implies rank(m)
                    < k by {
                    assert(member_refers(members, i, m));
                }
                lemma_base_depth(types, rank, b, s, k, d, name_depth(schema));
            },
        }
        assert forall|m: Seq<char>|
            #[trigger] member_refers(members, i + 1, m) && strmap::lookup(
                types,
                m,
            ) is Some implies rank(m) < k by {
            assert(member_refers(members, i, m));
        }
        lemma_member_takes(schema, rank, members, i + 1, s, k, d);
        if some_member(types, members, i, s, d) && !member_takes(schema, members[i as int], s) {
            let j = choose|j: int|
                i + 1 <= j < members.len() && member_takes(schema, #[trigger] members[j], s);
            assert(member_takes(schema, members[j], s));
        }
    }
}

/// Where no type is defined through itself, the values of a union are those of its
/// members, named or not, and no others.
pub proof fn law_union_has_values_of_members(
    schema: SchemaDocumentModel,
    rank: spec_fn(Seq<char>) -> nat,
    name: Seq<char>,
    members: Seq<UnionMemberModel>,
    s: Seq<char>,
)
    requires
        sound(schema, rank),
        strmap::lookup(schema.types, name) matches Some(TypeDefModel::Simple { base, .. }) && base
            == (SimpleBaseModel::Union { members }),
    ensures
        in_union(schema, name, s, name_depth(schema)) <==> exists|i: int|
            0 <= i < members.len() && member_takes(schema, #[trigger] members[i], s),
        takes(schema, name, s) <==> exists|i: int|
            0 <= i < members.len() && member_takes(schema, #[trigger] members[i], s),
{
    let base = SimpleBaseModel::Union { members };
    assert forall|m: Seq<char>|
        #[trigger] member_refers(members, 0, m) && strmap::lookup(
            schema.types,
            m,
        ) is Some implies rank(m) < rank(name) by {
        assert(refers(base, m));
    }
    let d = name_depth(schema);
    lemma_member_takes(schema, rank, members, 0, s, rank(name), d);
    lemma_member_takes(schema, rank, members, 0, s, rank(name), (d - 1) as nat);
}

/// A text is a value of a restriction just where it is as long as is asked for,
/// one of the patterns matches it, if there are any, and it is a value of the type
/// that is restricted.
pub proof fn law_restriction_narrows(
    schema: SchemaDocumentModel,
    rank: spec_fn(Seq<char>) -> nat,
    name: Seq<char>,
    parent: RestrictionBaseModel,
    facets: ast::ParsedRestrictionFacetsModel,
    s: Seq<char>,
)
    requires
        sound(schema, rank),
        strmap::lookup(schema.types, name) matches Some(TypeDefModel::Simple { base, .. }) && (base
            matches SimpleBaseModel::Restriction { base: b, facets: f, .. } && b == parent && f
            == facets),
    ensures
        takes(schema, name, s) <==> {
            &&& (facets.min_length matches Some(n) ==> n <= s.len())
            &&& (facets.max_length matches Some(n) ==> s.len() <= n)
            &&& (facets.patterns.len() == 0 || exists|i: int|
                0 <= i < facets.patterns.len() && pattern_whole(s, #[trigger] facets.patterns[i]))
            &&& (parent matches RestrictionBaseModel::Named(p) ==> takes(schema, p, s))
        },
{
    let base = strmap::lookup(schema.types, name)->0->Simple_base;
    let d = name_depth(schema);
    if let RestrictionBaseModel::Named(p) = parent {
        assert(refers(base, p));
        if d > 1 {
            lemma_type_depth(schema.types, rank, p, s, (d - 2) as nat, d);
        }
    }
}

/// A text that a restriction of a builtin type accepts, by its lengths and
/// patterns, is a value of every union that names the restriction.
pub proof fn law_named_member_counts(
    schema: SchemaDocumentModel,
    name: Seq<char>,
    members: Seq<UnionMemberModel>,
    i: int,
    member: Seq<char>,
    facets: ast::ParsedRestrictionFacetsModel,
    s: Seq<char>,
)
    requires
        strmap::lookup(schema.types, name) matches Some(TypeDefModel::Simple { base, .. }) && base
            == (SimpleBaseModel::Union { members }),
        0 <= i < members.len(),
        members[i] == UnionMemberModel::Named(member),
        strmap::lookup(schema.types, member) matches Some(TypeDefModel::Simple { base, .. }) && (
        base matches SimpleBaseModel::Restriction {
            base: RestrictionBaseModel::Builtin(_),
            facets: f,
            ..
        } && f == facets),
        facets.min_length matches Some(n) ==> n <= s.len(),
        facets.max_length matches Some(n) ==> s.len() <= n,
        facets.patterns.len() == 0 || exists|j: int|
            0 <= j < facets.patterns.len() && pattern_whole(s, #[trigger] facets.patterns[j]),
    ensures
        in_union(schema, name, s, name_depth(schema)),
{
    let types = schema.types;
    let d = name_depth(schema);
    strmap::lemma_rank(types, name);
    strmap::lemma_rank(types, member);
    assert(types.len() >= 2);
    assert(d >= 4);
    assert(type_accepts(types, member, s, (d - 1) as nat));
    lemma_member_found(types, members, 0, i, s, d);
}

proof fn lemma_member_found(
    types: Seq<(Seq<char>, TypeDefModel)>,
    members: Seq<UnionMemberModel>,
    from: nat,
    i: int,
    s: Seq<char>,
    d: nat,
)
    requires
        from <= i < members.len(),
        d > 0,
        members[i] matches UnionMemberModel::Named(n) && type_accepts(types, n, s, (d - 1) as nat),
    ensures
        some_member(types, members, from, s, d),
    decreases i - from,
{
    if from < i {
        lemma_member_found(types, members, from + 1, i, s, d);
    }
}

/// Every text is a value of a builtin type by another name; a name without a
/// simple type has no values.
pub proof fn law_builtin_takes_all(schema: SchemaDocumentModel, name: Seq<char>, s: Seq<char>)
    ensures
        (strmap::lookup(schema.types, name) matches Some(TypeDefModel::Simple { base, .. }) && base
            is Builtin) ==> takes(schema, name, s),
        !(strmap::lookup(schema.types, name) matches Some(TypeDefModel::Simple { .. })) ==> !takes(
            schema,
            name,
            s,
        ),
{
}

/// A type without a union under it leaves every text alone; one that restricts a
/// union goes by the members of that.
pub proof fn law_union_underneath(
    schema: SchemaDocumentModel,
    rank: spec_fn(Seq<char>) -> nat,
    name: Seq<char>,
    base: SimpleBaseModel,
    s: Seq<char>,
)
    requires
        sound(schema, rank),
        strmap::lookup(schema.types, name) matches Some(TypeDefModel::Simple { base: b, .. }) && b
            == base,
    ensures
        base is Builtin ==> in_union(schema, name, s, name_depth(schema)),
        (base matches SimpleBaseModel::Restriction { base: RestrictionBaseModel::Builtin(_), .. })
            ==> in_union(schema, name, s, name_depth(schema)),
        (base matches SimpleBaseModel::Restriction { base: RestrictionBaseModel::Named(p), .. })
            ==> in_union(schema, name, s, name_depth(schema)) == in_union(
            schema,
            base->Restriction_base->Named_0,
            s,
            name_depth(schema),
        ),
{
    let d = name_depth(schema);
    if let SimpleBaseModel::Restriction { base: RestrictionBaseModel::Named(p), .. } = base {
        assert(refers(base, p));
        if let Some(TypeDefModel::Simple { base: b, .. }) = strmap::lookup(schema.types, p) {
            lemma_under_depth(schema.types, rank, b, rank(p), (d - 1) as nat, d);
            assert(d > 0);
            if b is Builtin {
                assert(members_under(schema.types, b, d) is None);
            }
        }
    }
}

proof fn lemma_under_depth(
    types: Seq<(Seq<char>, TypeDefModel)>,
    rank: spec_fn(Seq<char>) -> nat,
    base: SimpleBaseModel,
    k: nat,
    d: nat,
    e: nat,
)
    requires
        defined_in_order(types, rank),
        refers_below(types, base, rank, k),
        d >= k,
        e >= k,
    ensures
        members_under(types, base, d) == members_under(types, base, e),
    decreases d,
{
    if let SimpleBaseModel::Restriction { base: RestrictionBaseModel::Named(p), .. } = base {
        assert(refers(base, p));
        if let Some(TypeDefModel::Simple { base: b, .. }) = strmap::lookup(types, p) {
            lemma_under_depth(types, rank, b, rank(p), (d - 1) as nat, (e - 1) as nat);
        }
    }
}

/// A pattern that is not blank matches a text just where its anchored form is
/// found in it; a blank one matches the empty text alone.
pub proof fn law_pattern_matches_whole(s: Seq<char>, pat: Seq<char>)
    ensures
        text::trim_spec(pat).len() > 0 ==> (pattern_whole(s, pat) <==> regex_found(
            "\\A(?:"@ + text::trim_spec(pat) + ")\\z"@,
            s,
        ) == Some(true)),
        text::trim_spec(pat).len() == 0 ==> (pattern_whole(s, pat) <==> s.len() == 0),
{
}

} // verus!
