//! Taking one schema into another.

use vstd::prelude::*;
use crate::ast;
use crate::ast::{
    DfdlProps, DfdlPropsModel, FormatDefaults, FormatDefaultsModel, GlobalElement,
    GlobalElementModel, SchemaDocument, SchemaDocumentModel, TypeDef, TypeDefModel,
};
use crate::attrs;
use crate::error::cat2;
use crate::merge;
use crate::merge::merge_dfdl_props;
use crate::qname;
use crate::qname::{format_local_from_storage_key, format_storage_key, opt_str};
use crate::strmap;
use crate::strmap::StrMap;
use crate::text;
use crate::text::{chars_of, contains, contains_char, eq, starts_with};
use crate::values;
use crate::values::{Duplicate, Same};
use crate::xsd::annotation;
use crate::xsd::annotation::open_zone;
use crate::xsd::state;
use crate::xsd::state::{add_lines, lines_under};

verus! {

/// How a schema is taken in.
#[derive(Debug, Clone, Copy, PartialEq, Eq, Structural)]
pub enum SchemaMergeKind {
    /// As a part of the schema.
    Include,
    /// As a schema with a namespace of its own.
    Import,
}

/// A list backwards.
pub fn reversed<T>(v: Vec<T>) -> (r: Vec<T>)
    ensures
        r@ == v@.reverse(),
{
    let mut rest = v;
    let mut out: Vec<T> = Vec::new();
    let ghost all = v@;
    assert(all.take(all.len() as int) =~= all);
    assert(out@ =~= all.skip(all.len() as int).reverse());
    while rest.len() > 0
        invariant
            rest@.len() <= all.len(),
            rest@ == all.take(rest@.len() as int),
            out@ == all.skip(rest@.len() as int).reverse(),
        decreases rest@.len(),
    {
        let ghost n = rest@.len() as int;
        match rest.pop() {
            Some(x) => {
                out.push(x);
                assert(rest@ =~= all.take(n - 1));
                assert(all.skip(n - 1) =~= seq![x] + all.skip(n));
                assert(out@ =~= all.skip(n - 1).reverse());
            },
            None => {},
        }
    }
    assert(all.skip(0) =~= all);
    out
}

/// Replaces the entries of the first map by those of the second.
pub fn overlay_moved<V: DeepView>(base: StrMap<V>, over: StrMap<V>) -> (r: StrMap<V>)
    ensures
        r@ == attrs::overlaid(base@, over@),
{
    let ghost all = over@;
    let ghost entries = over.entries@;
    let mut rest = reversed(over.entries);
    let mut out = base;
    assert(all.take(0) =~= Seq::empty());
    while rest.len() > 0
        invariant
            all.len() == entries.len(),
            forall|k: int| 0 <= k < all.len() ==> #[trigger] all[k] == entries[k].deep_view(),
            rest@.len() <= all.len(),
            rest@ == entries.skip(all.len() - rest@.len()).reverse(),
            out@ == attrs::overlaid(base@, all.take(all.len() - rest@.len())),
        decreases rest@.len(),
    {
        let ghost i = all.len() - rest@.len();
        let ghost before = rest@;
        match rest.pop() {
            Some((k, v)) => {
                assert(before.last() == entries[i]);
                assert(all[i] == (k, v).deep_view());
                assert(all.take(i + 1).drop_last() =~= all.take(i));
                assert(all.take(i + 1).last() == all[i]);
                out.insert(k, v);
                assert(rest@ =~= entries.skip(i + 1).reverse());
            },
            None => {},
        }
    }
    assert(all.take(all.len() as int) =~= all);
    out
}

/// What is said of a name that is defined twice.
pub open spec fn defined_twice(name: Seq<char>) -> Seq<char> {
    "Schema Definition Error: More than one definition for name: "@ + name
}

/// The namespace of what is taken in without one.
pub open spec fn namespace_taken(
    kind: SchemaMergeKind,
    taken: Option<Seq<char>>,
    own: Option<Seq<char>>,
) -> Option<Seq<char>> {
    match kind {
        SchemaMergeKind::Import => taken,
        SchemaMergeKind::Include => if taken is Some {
            taken
        } else {
            own
        },
    }
}

/// The key under which an element is stored that is taken in.
pub open spec fn element_key_taken(key: Seq<char>, ns: Option<Seq<char>>) -> Seq<char> {
    if key.contains('|') && !text::has_prefix(key, "|"@) {
        key
    } else {
        qname::storage_key(qname::key_local(key), ns)
    }
}

/// The global elements with these taken in, and what is said of them: an element
/// stays that is there already.
pub open spec fn elements_taken(
    own: Seq<(Seq<char>, GlobalElementModel)>,
    taken: Seq<(Seq<char>, GlobalElementModel)>,
    ns: Option<Seq<char>>,
) -> (Seq<(Seq<char>, GlobalElementModel)>, Seq<Seq<char>>)
    decreases taken.len(),
{
    if taken.len() == 0 {
        (own, Seq::empty())
    } else {
        let (elements, said) = elements_taken(own, taken.drop_last(), ns);
        let (k, g) = taken.last();
        let key = element_key_taken(k, ns);
        match strmap::lookup(elements, key) {
            Some(old) => if old == g {
                (elements, said)
            } else {
                (elements, said.push(defined_twice(qname::key_local(key))))
            },
            None => (strmap::with_entry(elements, key, g), said),
        }
    }
}

/// The map with the entries of another whose keys it lacks.
pub open spec fn filled<V>(own: Seq<(Seq<char>, V)>, taken: Seq<(Seq<char>, V)>) -> Seq<
    (Seq<char>, V),
>
    decreases taken.len(),
{
    if taken.len() == 0 {
        own
    } else {
        let rest = filled(own, taken.drop_last());
        if strmap::lookup(rest, taken.last().0) is Some {
            rest
        } else {
            strmap::with_entry(rest, taken.last().0, taken.last().1)
        }
    }
}

/// The named formats with these taken in, and what is said of them: a format
/// stays that is there already, which is complained of unless an import brings
/// another one or both are the same and have a namespace.
pub open spec fn formats_taken(
    own: Seq<(Seq<char>, DfdlPropsModel)>,
    taken: Seq<(Seq<char>, DfdlPropsModel)>,
    kind: SchemaMergeKind,
    ns: Option<Seq<char>>,
) -> (Seq<(Seq<char>, DfdlPropsModel)>, Seq<Seq<char>>)
    decreases taken.len(),
{
    if taken.len() == 0 {
        (own, Seq::empty())
    } else {
        let (formats, said) = formats_taken(own, taken.drop_last(), kind, ns);
        let (k, p) = taken.last();
        let local = qname::key_local(k);
        let key = qname::storage_key(local, ns);
        match strmap::lookup(formats, key) {
            Some(old) => {
                let complain = if old == p {
                    text::has_prefix(key, "|"@)
                } else {
                    kind == SchemaMergeKind::Include
                };
                (
                    formats,
                    if complain {
                        said.push(defined_twice(local))
                    } else {
                        said
                    },
                )
            },
            None => (strmap::with_entry(formats, key, p), said),
        }
    }
}

/// The warnings by scope with these taken in.
pub open spec fn scopes_taken(
    own: Seq<(Seq<char>, Seq<Seq<char>>)>,
    taken: Seq<(Seq<char>, Seq<Seq<char>>)>,
) -> Seq<(Seq<char>, Seq<Seq<char>>)>
    decreases taken.len(),
{
    if taken.len() == 0 {
        own
    } else {
        let rest = scopes_taken(own, taken.drop_last());
        strmap::with_entry(
            rest,
            taken.last().0,
            state::under(rest, taken.last().0, taken.last().1),
        )
    }
}

/// The text is there and empty.
pub open spec fn cleared(s: Option<Seq<char>>) -> bool {
    s matches Some(t) && t.len() == 0
}

/// Default properties with those of a schema that is included; a delimiter that
/// it empties stays as it was.
#[verifier::opaque]
pub open spec fn defaults_taken(base: DfdlPropsModel, over: DfdlPropsModel) -> DfdlPropsModel {
    let p = merge::merge_spec(base, over);
    DfdlPropsModel {
        delimiters: ast::DelimiterPropsModel {
            initiator: if cleared(over.delimiters.initiator) {
                base.delimiters.initiator
            } else {
                p.delimiters.initiator
            },
            terminator: if cleared(over.delimiters.terminator) {
                base.delimiters.terminator
            } else {
                p.delimiters.terminator
            },
            separator: if cleared(over.delimiters.separator) {
                base.delimiters.separator
            } else {
                p.delimiters.separator
            },
            ..p.delimiters
        },
        ..p
    }
}

/// The schema with another one taken in.
#[verifier::opaque]
pub open spec fn taken_in(
    doc: SchemaDocumentModel,
    other: SchemaDocumentModel,
    kind: SchemaMergeKind,
) -> SchemaDocumentModel {
    let ns = namespace_taken(kind, other.target_namespace, doc.target_namespace);
    let elements = elements_taken(doc.global_elements, other.global_elements, ns);
    let formats = formats_taken(doc.named_formats, other.named_formats, kind, ns);
    SchemaDocumentModel {
        types: attrs::overlaid(doc.types, other.types),
        global_elements: elements.0,
        namespace_prefixes: filled(doc.namespace_prefixes, other.namespace_prefixes),
        named_formats: formats.0,
        named_escape_schemes: attrs::overlaid(
            doc.named_escape_schemes,
            other.named_escape_schemes,
        ),
        groups: attrs::overlaid(doc.groups, other.groups),
        dfdl_annotations_seen: doc.dfdl_annotations_seen || other.dfdl_annotations_seen,
        schema_diagnostics: doc.schema_diagnostics + elements.1 + formats.1
            + other.schema_diagnostics,
        schema_warnings: doc.schema_warnings + other.schema_warnings,
        scoped_schema_warnings: scopes_taken(
            doc.scoped_schema_warnings,
            other.scoped_schema_warnings,
        ),
        format_defaults: FormatDefaultsModel {
            props: annotation::zone_open(
                if kind == SchemaMergeKind::Include {
                    defaults_taken(doc.format_defaults.props, other.format_defaults.props)
                } else {
                    doc.format_defaults.props
                },
            ),
        },
        ..doc
    }
}

/// Adds a line to a list.
fn add_line(v: Vec<String>, line: String) -> (r: Vec<String>)
    ensures
        r.deep_view() == v.deep_view().push(line@),
{
    let mut r = v;
    r.push(line);
    assert(r.deep_view() =~= v.deep_view().push(line@));
    r
}

/// The key under which an element is stored that is taken in.
fn key_taken(key: &str, ns: Option<&str>) -> (r: String)
    ensures
        r@ == element_key_taken(key@, text::ref_opt(ns)),
{
    let k = chars_of(key);
    if contains_char(k.as_slice(), '|') && !starts_with(k.as_slice(), "|") {
        crate::values::owned(key)
    } else {
        format_storage_key(format_local_from_storage_key(key).as_str(), ns)
    }
}

/// Takes global elements in.
fn take_elements(
    own: StrMap<GlobalElement>,
    taken: &StrMap<GlobalElement>,
    ns: Option<&str>,
) -> (r: (StrMap<GlobalElement>, Vec<String>))
    ensures
        (r.0@, r.1.deep_view()) == elements_taken(own@, taken@, text::ref_opt(ns)),
{
    let mut out = own;
    let mut said: Vec<String> = Vec::new();
    let n: usize = taken.entries.len();
    let mut i: usize = 0;
    let ghost space = text::ref_opt(ns);
    assert(said.deep_view() =~= Seq::<Seq<char>>::empty());
    while i < n
        invariant
            i <= n,
            n == taken.entries@.len(),
            n == taken@.len(),
            space == text::ref_opt(ns),
            (out@, said.deep_view()) == elements_taken(own@, taken@.take(i as int), space),
        decreases n - i,
    {
        assert(taken@.take(i + 1).drop_last() == taken@.take(i as int));
        assert(taken@.take(i + 1).last() == taken@[i as int]);
        let key = key_taken(taken.entries[i].0.as_str(), ns);
        let fate: Option<bool> = match out.get(key.as_str()) {
            Some(old) => Some(old.same(&taken.entries[i].1)),
            None => None,
        };
        match fate {
            Some(same) => {
                if !same {
                    let local = format_local_from_storage_key(key.as_str());
                    said = add_line(
                        said,
                        cat2(
                            "Schema Definition Error: More than one definition for name: ",
                            local.as_str(),
                        ),
                    );
                }
            },
            None => {
                out.insert(key, taken.entries[i].1.copy());
            },
        }
        i += 1;
    }
    assert(taken@.take(i as int) == taken@);
    (out, said)
}

/// Adds the entries of another map whose keys are missing.
fn fill(own: StrMap<String>, taken: &StrMap<String>) -> (r: StrMap<String>)
    ensures
        r@ == filled(own@, taken@),
{
    let mut out = own;
    let n: usize = taken.entries.len();
    let mut i: usize = 0;
    while i < n
        invariant
            i <= n,
            n == taken.entries@.len(),
            n == taken@.len(),
            out@ == filled(own@, taken@.take(i as int)),
        decreases n - i,
    {
        assert(taken@.take(i + 1).drop_last() == taken@.take(i as int));
        assert(taken@.take(i + 1).last() == taken@[i as int]);
        if !out.contains_key(taken.entries[i].0.as_str()) {
            out.insert(taken.entries[i].0.copy(), taken.entries[i].1.copy());
        }
        i += 1;
    }
    assert(taken@.take(i as int) == taken@);
    out
}

/// Takes named formats in.
fn take_formats(
    own: StrMap<DfdlProps>,
    taken: &StrMap<DfdlProps>,
    kind: SchemaMergeKind,
    ns: Option<&str>,
) -> (r: (StrMap<DfdlProps>, Vec<String>))
    ensures
        (r.0@, r.1.deep_view()) == formats_taken(own@, taken@, kind, text::ref_opt(ns)),
{
    let mut out = own;
    let mut said: Vec<String> = Vec::new();
    let n: usize = taken.entries.len();
    let mut i: usize = 0;
    let ghost space = text::ref_opt(ns);
    assert(said.deep_view() =~= Seq::<Seq<char>>::empty());
    while i < n
        invariant
            i <= n,
            n == taken.entries@.len(),
            n == taken@.len(),
            space == text::ref_opt(ns),
            (out@, said.deep_view()) == formats_taken(own@, taken@.take(i as int), kind, space),
        decreases n - i,
    {
        assert(taken@.take(i + 1).drop_last() == taken@.take(i as int));
        assert(taken@.take(i + 1).last() == taken@[i as int]);
        let local = format_local_from_storage_key(taken.entries[i].0.as_str());
        let key = format_storage_key(local.as_str(), ns);
        let fate: Option<bool> = match out.get(key.as_str()) {
            Some(old) => {
                let k = chars_of(key.as_str());
                Some(
                    if old.same(&taken.entries[i].1) {
                        starts_with(k.as_slice(), "|")
                    } else {
                        kind == SchemaMergeKind::Include
                    },
                )
            },
            None => None,
        };
        match fate {
            Some(complain) => {
                if complain {
                    said = add_line(
                        said,
                        cat2(
                            "Schema Definition Error: More than one definition for name: ",
                            local.as_str(),
                        ),
                    );
                }
            },
            None => {
                out.insert(key, taken.entries[i].1.copy());
            },
        }
        i += 1;
    }
    assert(taken@.take(i as int) == taken@);
    (out, said)
}

/// Takes warnings by scope in.
fn take_scopes(own: StrMap<Vec<String>>, taken: &StrMap<Vec<String>>) -> (r: StrMap<Vec<String>>)
    ensures
        r@ == scopes_taken(own@, taken@),
{
    let mut out = own;
    let n: usize = taken.entries.len();
    let mut i: usize = 0;
    while i < n
        invariant
            i <= n,
            n == taken.entries@.len(),
            n == taken@.len(),
            out@ == scopes_taken(own@, taken@.take(i as int)),
        decreases n - i,
    {
        assert(taken@.take(i + 1).drop_last() == taken@.take(i as int));
        assert(taken@.take(i + 1).last() == taken@[i as int]);
        let all = lines_under(&out, taken.entries[i].0.as_str(), &taken.entries[i].1);
        out.insert(taken.entries[i].0.copy(), all);
        i += 1;
    }
    assert(taken@.take(i as int) == taken@);
    out
}

/// Whether the text is there and empty.
fn is_cleared(s: &Option<String>) -> (r: bool)
    ensures
        r == cleared(s.deep_view()),
{
    match s {
        Some(t) => t.as_str().is_empty(),
        None => false,
    }
}

/// Default properties with those of a schema that is included.
pub fn merge_included_format_defaults(base: DfdlProps, overlay: DfdlProps) -> (r: DfdlProps)
    ensures
        values::agree(r@, defaults_taken(base@, overlay@)),
{
    reveal(defaults_taken);
    reveal(ast::delimiter_props_model);
    let keep_initiator: bool = is_cleared(&overlay.delimiters.initiator);
    let keep_terminator: bool = is_cleared(&overlay.delimiters.terminator);
    let keep_separator: bool = is_cleared(&overlay.delimiters.separator);
    let initiator = base.delimiters.initiator.copy();
    let terminator = base.delimiters.terminator.copy();
    let separator = base.delimiters.separator.copy();
    let mut r = merge_dfdl_props(base, overlay);
    if keep_initiator {
        r.delimiters.initiator = initiator;
    }
    if keep_terminator {
        r.delimiters.terminator = terminator;
    }
    if keep_separator {
        r.delimiters.separator = separator;
    }
    r
}

/// The default properties of the schema with another one taken in.
fn take_defaults(own: DfdlProps, other: DfdlProps, kind: SchemaMergeKind) -> (r: DfdlProps)
    ensures
        values::agree(
            r@,
            annotation::zone_open(
                if kind == SchemaMergeKind::Include {
                    defaults_taken(own@, other@)
                } else {
                    own@
                },
            ),
        ),
{
    if kind == SchemaMergeKind::Include {
        open_zone(merge_included_format_defaults(own, other))
    } else {
        open_zone(own)
    }
}

/// Joins lists of lines.
fn join_lines(a: Vec<String>, b: &Vec<String>, c: &Vec<String>, d: &Vec<String>) -> (r: Vec<String>)
    ensures
        r.deep_view() == a.deep_view() + b.deep_view() + c.deep_view() + d.deep_view(),
{
    let mut r = a;
    add_lines(&mut r, b);
    add_lines(&mut r, c);
    add_lines(&mut r, d);
    r
}

/// Joins two lists of lines.
fn join_two(a: Vec<String>, b: &Vec<String>) -> (r: Vec<String>)
    ensures
        r.deep_view() == a.deep_view() + b.deep_view(),
{
    let mut r = a;
    add_lines(&mut r, b);
    r
}

/// Takes a schema into another.
pub fn merge_included(doc: SchemaDocument, other: SchemaDocument, kind: SchemaMergeKind) -> (r:
    SchemaDocument)
    ensures
        values::agree(r@, taken_in(doc@, other@, kind)),
{
    reveal(crate::ast::document_model);
    reveal(taken_in);
    let ns: Option<String> = match kind {
        SchemaMergeKind::Import => other.target_namespace.copy(),
        SchemaMergeKind::Include => if other.target_namespace.is_some() {
            other.target_namespace.copy()
        } else {
            doc.target_namespace.copy()
        },
    };
    let (global_elements, elements_said) = take_elements(
        doc.global_elements,
        &other.global_elements,
        opt_str(&ns),
    );
    let (named_formats, formats_said) = take_formats(
        doc.named_formats,
        &other.named_formats,
        kind,
        opt_str(&ns),
    );
    SchemaDocument {
        target_namespace: doc.target_namespace,
        namespace_prefixes: fill(doc.namespace_prefixes, &other.namespace_prefixes),
        element_form_default_explicit: doc.element_form_default_explicit,
        element_form_default_qualified: doc.element_form_default_qualified,
        format_defaults: FormatDefaults {
            props: take_defaults(doc.format_defaults.props, other.format_defaults.props, kind),
        },
        types: overlay_moved(doc.types, other.types),
        global_elements,
        global_element_errors: doc.global_element_errors,
        groups: overlay_moved(doc.groups, other.groups),
        named_formats,
        named_escape_schemes: overlay_moved(doc.named_escape_schemes, other.named_escape_schemes),
        variables: doc.variables,
        schema_diagnostics: join_lines(
            doc.schema_diagnostics,
            &elements_said,
            &formats_said,
            &other.schema_diagnostics,
        ),
        schema_warnings: join_two(doc.schema_warnings, &other.schema_warnings),
        scoped_schema_warnings: take_scopes(
            doc.scoped_schema_warnings,
            &other.scoped_schema_warnings,
        ),
        schema_source_text: doc.schema_source_text,
        schema_source_label: doc.schema_source_label,
        dfdl_annotations_seen: doc.dfdl_annotations_seen || other.dfdl_annotations_seen,
        explicit_encoding_error_policy_on_format: doc.explicit_encoding_error_policy_on_format,
    }
}

} // verus!
