//! Qualified names, storage keys, and lookups by name in a schema.

use vstd::prelude::*;
use crate::ast::{
    BuiltinType, DfdlProps, DfdlPropsModel, EscapeSchemeDef, EscapeSchemeDefModel, GlobalElement,
    GlobalElementModel, SchemaDocument, SchemaDocumentModel, TypeName,
};
use crate::ast;
use crate::error::{cat2, cat3, invalid_property, Error, ErrorModel};
use crate::strmap;
use crate::strmap::StrMap;
use crate::text;
use crate::text::{
    chars_of, contains, contains_char, eq, is, last_piece, same, split_once, string_of,
};
use crate::values::{owned, Duplicate};

verus! {

/// The local part of a qualified name: what stands behind the last colon.
pub open spec fn local_spec(qname: Seq<char>) -> Seq<char> {
    text::after_last(qname, ':')
}

/// The local part of a qualified name.
pub fn normalize_qname(qname: &str) -> (r: String)
    ensures
        r@ == local_spec(qname@),
{
    let q = chars_of(qname);
    string_of(last_piece(q.as_slice(), ':'))
}

/// The local part of a qualified name.
pub fn local_name_from_qname(qname: &str) -> (r: String)
    ensures
        r@ == local_spec(qname@),
{
    normalize_qname(qname)
}

/// A local part has no further local part.
pub proof fn law_local_idempotent(qname: Seq<char>)
    ensures
        local_spec(local_spec(qname)) == local_spec(qname),
{
    text::lemma_char_rpos(qname, ':');
    let l = local_spec(qname);
    text::lemma_char_rpos(l, ':');
    match text::char_rpos(l, ':') {
        Some(i) => {
            match text::char_rpos(qname, ':') {
                Some(k) => {
                    assert(l[i] == qname[k + 1 + i]);
                },
                None => {
                    assert(qname.contains(qname[i]));
                },
            }
        },
        None => {},
    }
}

/// What `str::to_lowercase` gives for this text.
pub uninterp spec fn lowercase(s: Seq<char>) -> Seq<char>;

/// `str::to_lowercase`: the text with every letter made small as Unicode says,
/// the same for the same text.
#[verifier::external_body]
pub(crate) fn to_lowercase(s: &str) -> (r: String)
    ensures
        r@ == lowercase(s@),
{
    s.to_lowercase()
}

/// The prefix stands in the URI, or does so when both are made small.
pub open spec fn uri_matches(uri: Seq<char>, prefix: Seq<char>) -> bool {
    uri_matches_lowered(uri, prefix, lowercase(uri), lowercase(prefix))
}

/// The prefix stands in the URI, or its small form in the small form of the
/// URI.
pub open spec fn uri_matches_lowered(
    uri: Seq<char>,
    prefix: Seq<char>,
    uri_lower: Seq<char>,
    prefix_lower: Seq<char>,
) -> bool {
    text::contains_spec(uri, prefix) || text::contains_spec(uri_lower, prefix_lower)
}

/// Tests whether the prefix stands in the URI, given both and their small
/// forms.
pub fn namespace_uri_matches_lowered(
    uri: &str,
    prefix: &str,
    uri_lower: &str,
    prefix_lower: &str,
) -> (r: bool)
    ensures
        r == uri_matches_lowered(uri@, prefix@, uri_lower@, prefix_lower@),
{
    let u = chars_of(uri);
    let l = chars_of(uri_lower);
    contains(u.as_slice(), prefix) || contains(l.as_slice(), prefix_lower)
}

/// Tests whether the prefix stands in the URI, whatever the case of its letters.
pub fn namespace_uri_matches_prefix(uri: &str, prefix: &str) -> (r: bool)
    ensures
        r == uri_matches(uri@, prefix@),
{
    let uri_lower = to_lowercase(uri);
    let prefix_lower = to_lowercase(prefix);
    namespace_uri_matches_lowered(uri, prefix, uri_lower.as_str(), prefix_lower.as_str())
}

/// The key under which a name of a namespace is stored.
pub open spec fn storage_key(local: Seq<char>, namespace: Option<Seq<char>>) -> Seq<char> {
    match namespace {
        Some(ns) => if ns.len() > 0 {
            ns + "|"@ + local
        } else {
            "|"@ + local
        },
        None => "|"@ + local,
    }
}

/// The local part of a storage key: what stands behind the last bar.
pub open spec fn key_local(key: Seq<char>) -> Seq<char> {
    text::after_last(key, '|')
}

/// The key under which a name of a namespace is stored.
pub fn format_storage_key(local: &str, namespace: Option<&str>) -> (r: String)
    ensures
        r@ == storage_key(local@, text::ref_opt(namespace)),
{
    match namespace {
        Some(ns) => if ns.is_empty() {
            cat2("|", local)
        } else {
            cat3(ns, "|", local)
        },
        None => cat2("|", local),
    }
}

/// The local part of a storage key.
pub fn format_local_from_storage_key(key: &str) -> (r: String)
    ensures
        r@ == key_local(key@),
{
    let k = chars_of(key);
    string_of(last_piece(k.as_slice(), '|'))
}

/// A name without bars is the local part of every key under which it is stored.
pub proof fn law_storage_key_local(local: Seq<char>, namespace: Option<Seq<char>>)
    requires
        !local.contains('|'),
    ensures
        key_local(storage_key(local, namespace)) == local,
{
    reveal_strlit("|");
    let head = match namespace {
        Some(ns) => ns,
        None => Seq::<char>::empty(),
    };
    let key = storage_key(local, namespace);
    assert(key =~= head + seq!['|'] + local);
    text::lemma_char_rpos(key, '|');
    let at = head.len() as int;
    assert(key[at] == '|');
    assert(key.contains('|'));
    let k = text::char_rpos(key, '|')->0;
    if k > at {
        assert(key[k] == local[k - at - 1]);
        assert(local.contains(local[k - at - 1]));
    }
    assert(key.skip(at + 1) =~= local);
}

/// The prefix of a qualified name: what stands before its first colon.
pub open spec fn prefix_spec(qname: Seq<char>) -> Option<Seq<char>> {
    match text::split_once_spec(qname, ':') {
        Some((p, _)) => Some(p),
        None => None,
    }
}

/// The prefix of a qualified name.
pub fn prefix_of(qname: &str) -> (r: Option<String>)
    ensures
        r.deep_view() == prefix_spec(qname@),
{
    let q = chars_of(qname);
    match split_once(q.as_slice(), ':') {
        Some((p, _)) => Some(string_of(p)),
        None => None,
    }
}

// ------------------------------------------------------------ global elements

/// The key under which the global element of this name is stored.
pub open spec fn element_key(schema: SchemaDocumentModel, qname: Seq<char>) -> Seq<char> {
    let local = local_spec(qname);
    match prefix_spec(qname) {
        Some(prefix) => match strmap::lookup(schema.namespace_prefixes, prefix) {
            Some(uri) => storage_key(local, Some(uri)),
            None => storage_key(local, schema.target_namespace),
        },
        None => storage_key(local, schema.target_namespace),
    }
}

/// An optional string as an optional string slice.
pub fn opt_str<'a>(o: &'a Option<String>) -> (r: Option<&'a str>)
    ensures
        text::ref_opt(r) == o.deep_view(),
{
    match o {
        Some(s) => Some(s.as_str()),
        None => None,
    }
}

/// The key under which the global element of this name is stored.
pub fn resolve_global_element_storage_key(schema: &SchemaDocument, qname: &str) -> (r: String)
    ensures
        r@ == element_key(schema@, qname@),
{
    reveal(crate::ast::document_model);
    let local = normalize_qname(qname);
    if let Some(prefix) = prefix_of(qname) {
        if let Some(uri) = schema.namespace_prefixes.get(prefix.as_str()) {
            return format_storage_key(local.as_str(), Some(uri.as_str()));
        }
    }
    format_storage_key(local.as_str(), opt_str(&schema.target_namespace))
}

/// The values whose keys have this local part, in the order of the keys.
pub open spec fn with_local<V>(entries: Seq<(Seq<char>, V)>, local: Seq<char>) -> Seq<V>
    decreases entries.len(),
{
    if entries.len() == 0 {
        Seq::empty()
    } else if key_local(entries.last().0) == local {
        with_local(entries.drop_last(), local).push(entries.last().1)
    } else {
        with_local(entries.drop_last(), local)
    }
}

/// The only one of these, if there is exactly one.
pub open spec fn only<V>(found: Seq<V>) -> Option<V> {
    if found.len() == 1 {
        Some(found[0])
    } else {
        None
    }
}

/// The first of these, if there is one.
pub open spec fn first_of<V>(found: Seq<V>) -> Option<V> {
    if found.len() > 0 {
        Some(found[0])
    } else {
        None
    }
}

/// The positions of the first value with this local part, and whether there is
/// a second.
fn find_local<'a, V: DeepView>(map: &'a StrMap<V>, local: &str) -> (r: (Option<&'a V>, bool))
    ensures
        match r.0 {
            Some(v) => with_local(map@, local@).len() > 0 && with_local(map@, local@)[0]
                == v.deep_view() && r.1 == (with_local(map@, local@).len() > 1),
            None => with_local(map@, local@).len() == 0 && !r.1,
        },
{
    let l = chars_of(local);
    let n: usize = map.entries.len();
    let mut found: Option<&'a V> = None;
    let mut more: bool = false;
    let mut i: usize = 0;
    while i < n
        invariant
            i <= n,
            n == map.entries@.len(),
            n == map@.len(),
            l@ == local@,
            match found {
                Some(v) => with_local(map@.take(i as int), local@).len() > 0 && with_local(
                    map@.take(i as int),
                    local@,
                )[0] == v.deep_view() && more == (with_local(map@.take(i as int), local@).len()
                    > 1),
                None => with_local(map@.take(i as int), local@).len() == 0 && !more,
            },
        decreases n - i,
    {
        assert(map@.take(i + 1).drop_last() == map@.take(i as int));
        assert(map@.take(i + 1).last() == map@[i as int]);
        let k = chars_of(map.entries[i].0.as_str());
        if same(last_piece(k.as_slice(), '|'), l.as_slice()) {
            if found.is_some() {
                more = true;
            } else {
                found = Some(&map.entries[i].1);
            }
        }
        i += 1;
    }
    assert(map@.take(i as int) == map@);
    (found, more)
}

/// The global element with this local name, if there is exactly one.
pub fn unique_global_element_by_local<'a>(schema: &'a SchemaDocument, local: &str) -> (r: Option<
    &'a GlobalElement,
>)
    ensures
        r.deep_view() == only(with_local(schema@.global_elements, local@)),
{
    reveal(crate::ast::document_model);
    let (found, more) = find_local(&schema.global_elements, local);
    if more {
        None
    } else {
        found
    }
}

/// The key has this local part and a namespace that fits the prefix.
pub open spec fn key_fits(key: Seq<char>, prefix: Seq<char>, local: Seq<char>) -> bool {
    key_local(key) == local && (text::split_once_spec(key, '|') matches Some((ns, _)) && ns.len()
        > 0 && uri_matches(ns, prefix))
}

/// The values whose keys have this local part and a namespace that fits the
/// prefix.
pub open spec fn with_fitting<V>(
    entries: Seq<(Seq<char>, V)>,
    prefix: Seq<char>,
    local: Seq<char>,
) -> Seq<V>
    decreases entries.len(),
{
    if entries.len() == 0 {
        Seq::empty()
    } else if key_fits(entries.last().0, prefix, local) {
        with_fitting(entries.drop_last(), prefix, local).push(entries.last().1)
    } else {
        with_fitting(entries.drop_last(), prefix, local)
    }
}

/// Whether the key has this local part and a namespace that fits the prefix.
fn fits(key: &str, prefix: &str, local: &str) -> (r: bool)
    ensures
        r == key_fits(key@, prefix@, local@),
{
    let k = chars_of(key);
    let l = chars_of(local);
    if !same(last_piece(k.as_slice(), '|'), l.as_slice()) {
        return false;
    }
    match split_once(k.as_slice(), '|') {
        Some((ns, _)) => ns.len() > 0 && namespace_uri_matches_prefix(
            string_of(ns).as_str(),
            prefix,
        ),
        None => false,
    }
}

/// The global element with this local name whose namespace fits the prefix, if
/// there is exactly one.
pub fn global_element_by_prefixed_name<'a>(
    schema: &'a SchemaDocument,
    prefix: &str,
    local: &str,
) -> (r: Option<&'a GlobalElement>)
    ensures
        r.deep_view() == only(with_fitting(schema@.global_elements, prefix@, local@)),
{
    reveal(crate::ast::document_model);
    let map = &schema.global_elements;
    let n: usize = map.entries.len();
    let mut found: Option<&'a GlobalElement> = None;
    let mut i: usize = 0;
    let ghost all = with_fitting(map@, prefix@, local@);
    while i < n
        invariant
            i <= n,
            n == map.entries@.len(),
            n == map@.len(),
            all == with_fitting(map@, prefix@, local@),
            map@ == schema@.global_elements,
            found.deep_view() == only(with_fitting(map@.take(i as int), prefix@, local@)),
            with_fitting(map@.take(i as int), prefix@, local@).len() <= 1,
        decreases n - i,
    {
        reveal(crate::ast::document_model);
        assert(map@.take(i + 1).drop_last() == map@.take(i as int));
        assert(map@.take(i + 1).last() == map@[i as int]);
        if fits(map.entries[i].0.as_str(), prefix, local) {
            if found.is_some() {
                proof {
                    lemma_fitting_grows(map@, prefix@, local@, i + 1);
                }
                return None;
            }
            found = Some(&map.entries[i].1);
        }
        i += 1;
    }
    assert(map@.take(i as int) == map@);
    found
}

proof fn lemma_fitting_grows<V>(
    entries: Seq<(Seq<char>, V)>,
    prefix: Seq<char>,
    local: Seq<char>,
    n: int,
)
    requires
        0 <= n <= entries.len(),
    ensures
        with_fitting(entries, prefix, local).len() >= with_fitting(
            entries.take(n),
            prefix,
            local,
        ).len(),
    decreases entries.len() - n,
{
    if n == entries.len() {
        assert(entries.take(n) == entries);
    } else {
        assert(entries.take(n + 1).drop_last() == entries.take(n));
        lemma_fitting_grows(entries, prefix, local, n + 1);
    }
}

/// The global element that a name means: the one stored under its key, unless
/// that is only a stand-in of type string and the prefix fits another; else the
/// only one with its local name; else one stored without a namespace.
#[verifier::opaque]
pub open spec fn global_element(schema: SchemaDocumentModel, qname: Seq<char>) -> Option<
    GlobalElementModel,
> {
    let local = local_spec(qname);
    let key = element_key(schema, qname);
    let elements = schema.global_elements;
    let prefixed: Option<GlobalElementModel> = match prefix_spec(qname) {
        Some(prefix) => match strmap::lookup(elements, key) {
            Some(g) => if g.type_ref != "xs:string"@ {
                Some(g)
            } else {
                only(with_fitting(elements, prefix, local))
            },
            None => only(with_fitting(elements, prefix, local)),
        },
        None => None,
    };
    let fallback = storage_key(local, None);
    if prefixed is Some {
        prefixed
    } else if strmap::lookup(elements, key) is Some {
        strmap::lookup(elements, key)
    } else if !qname.contains(':') && only(with_local(elements, qname)) is Some {
        only(with_local(elements, qname))
    } else if fallback != key && strmap::lookup(elements, fallback) is Some {
        strmap::lookup(elements, fallback)
    } else if strmap::lookup(elements, qname) is Some {
        strmap::lookup(elements, qname)
    } else {
        strmap::lookup(elements, local)
    }
}

/// The global element that a name means.
pub fn get_global_element<'a>(schema: &'a SchemaDocument, qname: &str) -> (r: Option<
    &'a GlobalElement,
>)
    ensures
        r.deep_view() == global_element(schema@, qname@),
{
    reveal(crate::ast::document_model);
    reveal(global_element);
    let local = normalize_qname(qname);
    let key = resolve_global_element_storage_key(schema, qname);
    let elements = &schema.global_elements;
    if let Some(prefix) = prefix_of(qname) {
        if let Some(g) = elements.get(key.as_str()) {
            if !eq(g.type_ref.as_str(), "xs:string") {
                return Some(g);
            }
        }
        if let Some(g) = global_element_by_prefixed_name(schema, prefix.as_str(), local.as_str()) {
            return Some(g);
        }
    }
    if let Some(g) = elements.get(key.as_str()) {
        return Some(g);
    }
    let q = chars_of(qname);
    if !contains_char(q.as_slice(), ':') {
        if let Some(g) = unique_global_element_by_local(schema, qname) {
            return Some(g);
        }
    }
    let fallback = format_storage_key(local.as_str(), None);
    if !eq(fallback.as_str(), key.as_str()) {
        if let Some(g) = elements.get(fallback.as_str()) {
            return Some(g);
        }
    }
    if let Some(g) = elements.get(qname) {
        return Some(g);
    }
    elements.get(local.as_str())
}

/// The error that was recorded for the global element that a name means.
#[verifier::opaque]
pub open spec fn global_element_error(schema: SchemaDocumentModel, qname: Seq<char>) -> Option<
    ErrorModel,
> {
    let local = local_spec(qname);
    let key = element_key(schema, qname);
    let errors = schema.global_element_errors;
    let fallback = storage_key(local, None);
    if strmap::lookup(errors, key) is Some {
        strmap::lookup(errors, key)
    } else if !qname.contains(':') && first_of(with_local(errors, local)) is Some {
        first_of(with_local(errors, local))
    } else if fallback != key && strmap::lookup(errors, fallback) is Some {
        strmap::lookup(errors, fallback)
    } else if strmap::lookup(errors, qname) is Some {
        strmap::lookup(errors, qname)
    } else {
        strmap::lookup(errors, local)
    }
}

/// The error that was recorded for the global element that a name means.
pub fn get_global_element_error<'a>(schema: &'a SchemaDocument, qname: &str) -> (r: Option<
    &'a Error,
>)
    ensures
        r.deep_view() == global_element_error(schema@, qname@),
{
    reveal(crate::ast::document_model);
    reveal(global_element_error);
    let local = normalize_qname(qname);
    let key = resolve_global_element_storage_key(schema, qname);
    let errors = &schema.global_element_errors;
    if let Some(e) = errors.get(key.as_str()) {
        return Some(e);
    }
    let q = chars_of(qname);
    if !contains_char(q.as_slice(), ':') {
        let (found, _) = find_local(errors, local.as_str());
        if let Some(e) = found {
            return Some(e);
        }
    }
    let fallback = format_storage_key(local.as_str(), None);
    if !eq(fallback.as_str(), key.as_str()) {
        if let Some(e) = errors.get(fallback.as_str()) {
            return Some(e);
        }
    }
    if let Some(e) = errors.get(qname) {
        return Some(e);
    }
    errors.get(local.as_str())
}

// ----------------------------------------------------------------------- types

/// What is said of a type that is not defined.
pub open spec fn no_type(type_attr: Seq<char>) -> ErrorModel {
    ErrorModel::InvalidProperty(
        "Schema Definition Error: No type definition found for '"@ + type_attr + "'."@,
    )
}

/// The URI of the namespace of XML Schema.
pub const XSD_NS: &'static str = "http://www.w3.org/2001/XMLSchema";

/// The URI that a prefix stands for, by the scope first, then by the schema.
pub open spec fn scoped_uri(
    schema: SchemaDocumentModel,
    scope: Option<Seq<(Seq<char>, Seq<char>)>>,
    prefix: Seq<char>,
) -> Option<Seq<char>> {
    match scope {
        Some(s) => match strmap::lookup(s, prefix) {
            Some(uri) => Some(uri),
            None => strmap::lookup(schema.namespace_prefixes, prefix),
        },
        None => strmap::lookup(schema.namespace_prefixes, prefix),
    }
}

/// The type that a `type` attribute names: a built-in type under the prefix
/// `xs`, or a defined type under its local name.
#[verifier::opaque]
pub open spec fn type_of_qname(
    schema: SchemaDocumentModel,
    type_attr: Seq<char>,
    scope: Option<Seq<(Seq<char>, Seq<char>)>>,
) -> Result<Seq<char>, ErrorModel> {
    match text::split_once_spec(type_attr, ':') {
        None => if ast::builtin_spec(type_attr) is Some {
            Ok("xs:"@ + type_attr)
        } else {
            Ok(type_attr)
        },
        Some((prefix, rest)) => {
            let local = local_spec(rest);
            let xs_name = "xs:"@ + local;
            match scoped_uri(schema, scope, prefix) {
                None => Ok(local),
                Some(uri) => if uri == XSD_NS@ {
                    if ast::builtin_spec(xs_name) is Some {
                        Ok(xs_name)
                    } else {
                        Err(no_type(type_attr))
                    }
                } else if strmap::lookup(schema.types, local) is Some {
                    Ok(local)
                } else if prefix == "xs"@ && ast::builtin_spec(xs_name) is Some {
                    Ok(xs_name)
                } else {
                    Err(no_type(type_attr))
                },
            }
        },
    }
}

/// The URI that a prefix stands for, by the scope first, then by the schema.
pub fn uri_in_scope<'a>(
    schema: &'a SchemaDocument,
    scope: Option<&'a StrMap<String>>,
    prefix: &str,
) -> (r: Option<&'a String>)
    ensures
        r.deep_view() == scoped_uri(schema@, crate::props::vars_view(scope), prefix@),
{
    reveal(crate::ast::document_model);
    if let Some(s) = scope {
        if let Some(uri) = s.get(prefix) {
            return Some(uri);
        }
    }
    schema.namespace_prefixes.get(prefix)
}

/// The type that a `type` attribute names.
pub fn resolve_type_qname_in_schema(
    doc: &SchemaDocument,
    type_attr: &str,
    scope: Option<&StrMap<String>>,
) -> (r: Result<TypeName, Error>)
    ensures
        crate::error::outcome(r) == type_of_qname(
            doc@,
            type_attr@,
            crate::props::vars_view(scope),
        ),
{
    reveal(crate::ast::document_model);
    reveal(type_of_qname);
    let t = chars_of(type_attr);
    let (prefix, rest) = match split_once(t.as_slice(), ':') {
        Some(p) => p,
        None => {
            return if BuiltinType::from_xsd(type_attr).is_some() {
                Ok(TypeName(cat2("xs:", type_attr)))
            } else {
                Ok(TypeName::new(type_attr))
            };
        },
    };
    let local = string_of(last_piece(rest, ':'));
    let prefix_text = string_of(prefix);
    let uri = match uri_in_scope(doc, scope, prefix_text.as_str()) {
        Some(u) => u,
        None => {
            return Ok(TypeName(local));
        },
    };
    let xs_name = cat2("xs:", local.as_str());
    let builtin: bool = BuiltinType::from_xsd(xs_name.as_str()).is_some();
    if eq(uri.as_str(), XSD_NS) {
        if builtin {
            return Ok(TypeName(xs_name));
        }
    } else if doc.types.contains_key(local.as_str()) {
        return Ok(TypeName(local));
    } else if is(prefix, "xs") && builtin {
        return Ok(TypeName(xs_name));
    }
    Err(
        invalid_property(
            cat3("Schema Definition Error: No type definition found for '", type_attr, "'."),
        ),
    )
}

// ----------------------------------------------------- formats and escape schemes

/// The key under which a format or an escape scheme is stored that a qualified
/// name names; a prefix without a URI stands for itself.
pub open spec fn format_key(schema: SchemaDocumentModel, qname: Seq<char>) -> Seq<char> {
    match text::split_once_spec(qname, ':') {
        Some((prefix, local)) => match strmap::lookup(schema.namespace_prefixes, prefix) {
            Some(uri) => storage_key(local, Some(uri)),
            None => storage_key(local, Some(prefix)),
        },
        None => storage_key(qname, schema.target_namespace),
    }
}

/// The key under which a format is stored that a qualified name names.
pub fn resolve_format_qname_in_document(doc: &SchemaDocument, qname: &str) -> (r: String)
    ensures
        r@ == format_key(doc@, qname@),
{
    reveal(crate::ast::document_model);
    let q = chars_of(qname);
    match split_once(q.as_slice(), ':') {
        Some((p, l)) => {
            let prefix = string_of(p);
            let local = string_of(l);
            match doc.namespace_prefixes.get(prefix.as_str()) {
                Some(uri) => format_storage_key(local.as_str(), Some(uri.as_str())),
                None => format_storage_key(local.as_str(), Some(prefix.as_str())),
            }
        },
        None => format_storage_key(qname, opt_str(&doc.target_namespace)),
    }
}

/// What is stored under a name: a name without a prefix is looked up without a
/// namespace and in the target namespace; one with a prefix in its namespace,
/// in the target namespace, without a namespace, and at last by its local part
/// where that is unique.
#[verifier::opaque]
pub open spec fn stored_under<V>(
    schema: SchemaDocumentModel,
    entries: Seq<(Seq<char>, V)>,
    qname: Seq<char>,
) -> Option<V> {
    let local = local_spec(qname);
    let bare = storage_key(local, None);
    let own = storage_key(local, schema.target_namespace);
    let key = format_key(schema, qname);
    if !qname.contains(':') {
        if strmap::lookup(entries, bare) is Some {
            strmap::lookup(entries, bare)
        } else {
            strmap::lookup(entries, own)
        }
    } else if strmap::lookup(entries, key) is Some {
        strmap::lookup(entries, key)
    } else if schema.target_namespace is Some && strmap::lookup(entries, own) is Some {
        strmap::lookup(entries, own)
    } else if strmap::lookup(entries, bare) is Some {
        strmap::lookup(entries, bare)
    } else {
        only(with_local(entries, local))
    }
}

/// What is stored under a name.
fn find_stored<'a, V: DeepView>(
    doc: &SchemaDocument,
    map: &'a StrMap<V>,
    qname: &str,
) -> (r: Option<&'a V>)
    ensures
        r.deep_view() == stored_under(doc@, map@, qname@),
{
    reveal(crate::ast::document_model);
    reveal(stored_under);
    let local = normalize_qname(qname);
    let bare = format_storage_key(local.as_str(), None);
    let own = format_storage_key(local.as_str(), opt_str(&doc.target_namespace));
    let q = chars_of(qname);
    if !contains_char(q.as_slice(), ':') {
        if let Some(v) = map.get(bare.as_str()) {
            return Some(v);
        }
        return map.get(own.as_str());
    }
    let key = resolve_format_qname_in_document(doc, qname);
    if let Some(v) = map.get(key.as_str()) {
        return Some(v);
    }
    if doc.target_namespace.is_some() {
        if let Some(v) = map.get(own.as_str()) {
            return Some(v);
        }
    }
    if let Some(v) = map.get(bare.as_str()) {
        return Some(v);
    }
    let (found, more) = find_local(map, local.as_str());
    if more {
        None
    } else {
        found
    }
}

/// The named format that a qualified name names.
pub fn lookup_named_format_in_document(doc: &SchemaDocument, qname: &str) -> (r: Option<DfdlProps>)
    ensures
        r.deep_view() == stored_under(doc@, doc@.named_formats, qname@),
{
    reveal(crate::ast::document_model);
    match find_stored(doc, &doc.named_formats, qname) {
        Some(v) => Some(v.copy()),
        None => None,
    }
}

/// The escape scheme that a qualified name names.
pub fn lookup_named_escape_scheme_in_document(doc: &SchemaDocument, qname: &str) -> (r: Option<
    EscapeSchemeDef,
>)
    ensures
        r.deep_view() == stored_under(doc@, doc@.named_escape_schemes, qname@),
{
    reveal(crate::ast::document_model);
    match find_stored(doc, &doc.named_escape_schemes, qname) {
        Some(v) => Some(v.copy()),
        None => None,
    }
}

} // verus!
