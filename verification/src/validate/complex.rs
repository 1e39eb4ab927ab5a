//! Rules on every complex type that is reached from the root.

use vstd::prelude::*;
use crate::ast;
use crate::ast::{
    BuiltinType, ComplexContent, ComplexContentModel, LengthKind, SchemaDocument,
    SchemaDocumentModel, TypeDef, TypeDefModel, TypeName,
};
use crate::error::{Error, ErrorModel};
use crate::qname;
use crate::qname::{get_global_element, opt_str, resolve_type_qname_in_schema};
use crate::strmap;
use crate::strmap::StrMap;
use crate::validate::groups;
use crate::validate::groups::{check_content_unordered, check_model_group};
use crate::validate::indexing;
use crate::validate::indexing::validate_content_assert_indexing;
use crate::validate::peek::length_kind_of;
use crate::validate::reach;
use crate::validate::reach::{add_names, content_particles};
use crate::validate::types;
use crate::validate::types::{check_list_qnames, check_qname, opt_map};
use crate::values::{owned, Duplicate};

verus! {

broadcast use vstd::string::group_string_axioms;

/// A rule on complex types.
#[derive(Debug, Clone, Copy, PartialEq, Eq, Structural)]
pub enum ComplexRule {
    /// Names of types that claim to be of XML Schema are.
    Qnames,
    /// The type holds what it must, whether or not the root has an implicit length.
    ModelGroup { root_implicit: bool },
    /// Unordered sequences hold what they may.
    Unordered,
    /// Discriminators index nothing by number.
    Indexing,
}

/// Why a complex type breaks a rule.
pub open spec fn content_fault(
    schema: SchemaDocumentModel,
    rule: ComplexRule,
    name: Seq<char>,
    content: ComplexContentModel,
) -> Option<ErrorModel> {
    match rule {
        ComplexRule::Qnames => types::list_qname_fault(
            schema,
            reach::content_list(content),
            0,
            reach::group_depth(schema),
        ),
        ComplexRule::ModelGroup { root_implicit } => groups::model_group_fault(
            name,
            content,
            root_implicit,
        ),
        ComplexRule::Unordered => groups::content_unordered_fault(schema, content),
        ComplexRule::Indexing => indexing::content_index_fault(content),
    }
}

fn check_content(
    schema: &SchemaDocument,
    rule: ComplexRule,
    name: &str,
    content: &ComplexContent,
) -> (r: Result<(), Error>)
    ensures
        types::fault_of(r) == content_fault(schema@, rule, name@, content.deep_view()),
{
    reveal(crate::ast::document_model);
    match rule {
        ComplexRule::Qnames => {
            assert(schema@.groups.len() == schema.groups.entries@.len());
            match content_particles(content) {
                Some(l) => check_list_qnames(schema, l, schema.groups.len()),
                None => Ok(()),
            }
        },
        ComplexRule::ModelGroup { root_implicit } => check_model_group(
            name,
            content,
            root_implicit,
        ),
        ComplexRule::Unordered => check_content_unordered(schema, content),
        ComplexRule::Indexing => validate_content_assert_indexing(content),
    }
}

/// The first complex type that breaks a rule, of those in a queue and of those
/// that are reached from them.
pub open spec fn walk_fault(
    schema: SchemaDocumentModel,
    rule: ComplexRule,
    queue: Seq<Seq<char>>,
    seen: Seq<(Seq<char>, bool)>,
    left: nat,
) -> Option<ErrorModel>
    decreases left, queue.len(),
{
    if queue.len() == 0 {
        None
    } else {
        let name = queue[0];
        let rest = queue.skip(1);
        if strmap::lookup(seen, name) is Some {
            walk_fault(schema, rule, rest, seen, left)
        } else {
            let now = strmap::with_entry(seen, name, true);
            match reach::type_named(schema, name) {
                Some(TypeDefModel::Complex { content, .. }) => match content_fault(
                    schema,
                    rule,
                    name,
                    content,
                ) {
                    Some(x) => Some(x),
                    None => if left == 0 {
                        None
                    } else {
                        walk_fault(
                            schema,
                            rule,
                            rest + reach::names_from(
                                schema,
                                reach::content_list(content),
                                0,
                                reach::group_depth(schema),
                            ),
                            now,
                            (left - 1) as nat,
                        )
                    },
                },
                _ => walk_fault(schema, rule, rest, now, left),
            }
        }
    }
}

/// The type of the root, where it is one of the schema.
pub open spec fn root_queue(schema: SchemaDocumentModel, root: Seq<char>) -> Seq<Seq<char>> {
    match qname::global_element(schema, root) {
        Some(g) if ast::builtin_spec(g.type_ref) is None => seq![g.type_ref],
        _ => Seq::empty(),
    }
}

/// Why a complex type that is reached from the root breaks a rule.
pub open spec fn complex_fault(
    schema: SchemaDocumentModel,
    rule: ComplexRule,
    root: Seq<char>,
) -> Option<ErrorModel> {
    walk_fault(schema, rule, root_queue(schema, root), Seq::empty(), schema.types.len())
}

fn add_content_names(schema: &SchemaDocument, content: &ComplexContent, queue: &mut Vec<String>)
    ensures
        final(queue).deep_view() == old(queue).deep_view() + reach::names_from(
            schema@,
            reach::content_list(content.deep_view()),
            0,
            reach::group_depth(schema@),
        ),
{
    reveal(crate::ast::document_model);
    assert(schema@.groups.len() == schema.groups.entries@.len());
    let ghost before = queue.deep_view();
    match content_particles(content) {
        Some(l) => {
            add_names(schema, l, schema.groups.len(), queue);
        },
        None => {
            assert(before + Seq::<Seq<char>>::empty() =~= before);
        },
    }
}

/// Every complex type that is reached from the root keeps a rule.
pub fn check_complex_types(schema: &SchemaDocument, rule: ComplexRule, root: &str) -> (r: Result<
    (),
    Error,
>)
    ensures
        types::fault_of(r) == complex_fault(schema@, rule, root@),
{
    reveal(crate::ast::document_model);
    let mut queue: Vec<String> = Vec::new();
    if let Some(g) = get_global_element(schema, root) {
        if BuiltinType::from_xsd(g.type_ref.as_str()).is_none() {
            queue.push(owned(g.type_ref.as_str()));
        }
    }
    assert(queue.deep_view() =~= root_queue(schema@, root@));
    assert(queue.deep_view().skip(0) =~= queue.deep_view());
    let mut seen: StrMap<bool> = StrMap::new();
    let mut at: usize = 0;
    let mut left: usize = schema.types.len();
    let ghost want = complex_fault(schema@, rule, root@);
    while at < queue.len()
        invariant
            at <= queue@.len(),
            want == complex_fault(schema@, rule, root@),
            want == walk_fault(
                schema@,
                rule,
                queue.deep_view().skip(at as int),
                seen@,
                left as nat,
            ),
        decreases left, queue@.len() - at,
    {
        reveal(crate::ast::document_model);
        let ghost rest = queue.deep_view().skip(at as int);
        assert(rest[0] == queue@[at as int]@);
        assert(rest.skip(1) =~= queue.deep_view().skip(at + 1));
        let name = queue[at].copy();
        at += 1;
        if seen.contains_key(name.as_str()) {
            continue;
        }
        seen.insert(name.copy(), true);
        let tn = TypeName::new(name.as_str());
        if let Some(t) = schema.resolve_type(&tn) {
            if let TypeDef::Complex { content, .. } = t {
                check_content(schema, rule, name.as_str(), content)?;
                if left == 0 {
                    return Ok(());
                }
                left -= 1;
                let ghost before = queue.deep_view();
                add_content_names(schema, content, &mut queue);
                assert(queue.deep_view().skip(at as int) =~= before.skip(at as int)
                    + reach::names_from(
                    schema@,
                    reach::content_list(content.deep_view()),
                    0,
                    reach::group_depth(schema@),
                ));
            }
        }
    }
    Ok(())
}

/// Why the name of a type that claims to be of XML Schema is not, at the root or in
/// a complex type that is reached from it.
pub open spec fn type_names_fault(schema: SchemaDocumentModel, root: Seq<char>) -> Option<
    ErrorModel,
> {
    match qname::global_element(schema, root) {
        None => None,
        Some(g) => match types::qname_fault(schema, g.type_xsd_qname, g.type_qname_scope) {
            Some(x) => Some(x),
            None => complex_fault(schema, ComplexRule::Qnames, root),
        },
    }
}

/// Names of types that claim to be of XML Schema are.
pub fn validate_element_type_qnames(schema: &SchemaDocument, root: &str) -> (r: Result<(), Error>)
    ensures
        types::fault_of(r) == type_names_fault(schema@, root@),
{
    match get_global_element(schema, root) {
        None => Ok(()),
        Some(g) => {
            check_qname(schema, opt_str(&g.type_xsd_qname), opt_map(&g.type_qname_scope))?;
            check_complex_types(schema, ComplexRule::Qnames, root)
        },
    }
}

/// Whether the root has an implicit length.
pub open spec fn implicit_root(schema: SchemaDocumentModel, root: Seq<char>) -> bool {
    match qname::global_element(schema, root) {
        Some(g) => g.props.length.length_kind == Some(LengthKind::Implicit),
        None => false,
    }
}

/// Complex types that are reached from the root hold what they must.
pub fn validate_reachable_complex_type_model_groups(schema: &SchemaDocument, root: &str) -> (r:
    Result<(), Error>)
    ensures
        types::fault_of(r) == complex_fault(
            schema@,
            ComplexRule::ModelGroup { root_implicit: implicit_root(schema@, root@) },
            root@,
        ),
{
    let root_implicit = match get_global_element(schema, root) {
        Some(g) => length_kind_of(&g.props) == Some(LengthKind::Implicit),
        None => false,
    };
    check_complex_types(schema, ComplexRule::ModelGroup { root_implicit }, root)
}

/// Unordered sequences that are reached from the root hold what they may.
pub fn validate_reachable_unordered_sequences(schema: &SchemaDocument, root: &str) -> (r: Result<
    (),
    Error,
>)
    ensures
        types::fault_of(r) == complex_fault(schema@, ComplexRule::Unordered, root@),
{
    check_complex_types(schema, ComplexRule::Unordered, root)
}

/// Discriminators that are reached from the root index nothing by number.
pub fn validate_reachable_assert_path_indexing(schema: &SchemaDocument, root: &str) -> (r: Result<
    (),
    Error,
>)
    ensures
        types::fault_of(r) == complex_fault(schema@, ComplexRule::Indexing, root@),
{
    check_complex_types(schema, ComplexRule::Indexing, root)
}

} // verus!
