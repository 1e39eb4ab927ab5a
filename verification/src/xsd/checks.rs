//! What is looked at before and after a schema is read.

use vstd::prelude::*;
use crate::ast;
use crate::ast::{
    DfdlProps, DfdlPropsModel, SchemaDocument, SchemaDocumentModel, TypeDef, TypeDefModel,
};
use crate::error;
use crate::error::{cat2, cat3, invalid_property, Error, ErrorModel};
use crate::merge;
use crate::merge::merge_dfdl_props;
use crate::qname;
use crate::qname::format_storage_key;
use crate::strmap;
use crate::strmap::StrMap;
use crate::text;
use crate::text::{
    chars_of, contains, contains_char, ends_with, eq, find_at, find_char, part, starts_with,
    string_of, trim,
};
use crate::values;
use crate::values::{owned, Duplicate};
use crate::xsd::combine::reversed;
use crate::xsd::state::format_ref_of;

verus! {

// --------------------------------------------------------------------- before

/// What is said of a schema that binds the prefix `xmlns`.
pub const XMLNS_BOUND: &'static str = "Schema Definition Error: The prefix \"xmlns\" cannot be bound to any namespace explicitly; neither can the namespace for \"xmlns\" be bound to any prefix explicitly";

/// What is said of a name that is no qualified name.
pub const QNAME_PRODUCTION_SDE: &'static str = "Schema Definition Error: Element or attribute do not match QName production: QName::=(NCName':')?NCName";

/// How often a character stands in a text.
pub open spec fn occurrences(s: Seq<char>, c: char) -> nat
    decreases s.len(),
{
    if s.len() == 0 {
        0
    } else {
        occurrences(s.drop_last(), c) + if s.last() == c {
            1nat
        } else {
            0nat
        }
    }
}

/// How often a character stands in a text.
fn count_of(s: &[char], c: char) -> (r: usize)
    ensures
        r == occurrences(s@, c),
{
    let n: usize = s.len();
    let mut i: usize = 0;
    let mut k: usize = 0;
    while i < n
        invariant
            i <= n,
            n == s@.len(),
            k <= i,
            k == occurrences(s@.take(i as int), c),
        decreases n - i,
    {
        assert(s@.take(i + 1).drop_last() == s@.take(i as int));
        if s[i] == c {
            k += 1;
        }
        i += 1;
    }
    assert(s@.take(i as int) == s@);
    k
}

/// A qualified name, or nothing.
pub open spec fn well_formed_qname(value: Seq<char>) -> bool {
    let t = text::trim_spec(value);
    t.len() == 0 || (!text::has_prefix(t, ":"@) && !text::has_suffix(t, ":"@) && occurrences(
        t,
        ':',
    ) <= 1)
}

/// Whether this is a qualified name, or nothing.
pub fn qname_attr_value_is_well_formed(value: &[char]) -> (r: bool)
    ensures
        r == well_formed_qname(value@),
{
    let t = trim(value);
    t.len() == 0 || (!starts_with(t, ":") && !ends_with(t, ":") && count_of(t, ':') <= 1)
}

/// What is said of a value that is no qualified name.
pub open spec fn qname_complaint(value: Seq<char>) -> Seq<char> {
    if !text::has_prefix(value, ":"@) && !text::has_suffix(value, ":"@) && occurrences(value, ':')
        > 1 {
        "Schema Definition Error: Error loading schema\n'"@ + value
            + "' is not a valid value for 'QName'"@
    } else {
        QNAME_PRODUCTION_SDE@
    }
}

/// What comes of looking at the values of an attribute from a position on: a
/// complaint, the end of all looking, or nothing.
pub enum Look {
    Complaint(Seq<char>),
    Over,
    Fine,
}

/// Looks at the values that stand behind `needle` from `start` on. A value without
/// an end is the end of all looking.
pub open spec fn look_from(input: Seq<char>, needle: Seq<char>, start: int) -> Look
    decreases input.len() - start,
{
    match text::find_from(input, needle, start) {
        None => Look::Fine,
        Some(at) => {
            let from = at + needle.len();
            match text::char_pos(input.skip(from), '"') {
                None => Look::Over,
                Some(end) => {
                    let value = input.subrange(from, from + end);
                    proof {
                        text::lemma_find_from(input, needle, start);
                        text::lemma_char_pos(input.skip(from), '"');
                    }
                    if !well_formed_qname(value) {
                        Look::Complaint(qname_complaint(value))
                    } else {
                        look_from(input, needle, from + end + 1)
                    }
                },
            }
        },
    }
}

/// The complaint about the values of these attributes, if there is one.
pub open spec fn looked(input: Seq<char>, needles: Seq<Seq<char>>) -> Option<Seq<char>>
    decreases needles.len(),
{
    if needles.len() == 0 {
        None
    } else {
        match look_from(input, needles[0], 0) {
            Look::Complaint(said) => Some(said),
            Look::Over => None,
            Look::Fine => looked(input, needles.skip(1)),
        }
    }
}

/// The attributes whose values are qualified names.
pub open spec fn qname_needles() -> Seq<Seq<char>> {
    seq!["type=\""@, "ref=\""@, "base=\""@, "substitutionGroup=\""@]
}

/// What is said of a schema by its text alone.
#[verifier::opaque]
pub open spec fn text_complaint(input: Seq<char>) -> Option<Seq<char>> {
    if text::contains_spec(input, "xmlns:xmlns="@) {
        Some(XMLNS_BOUND@)
    } else {
        looked(input, qname_needles())
    }
}

/// What comes of looking: a complaint, or whether to look on.
enum Seen {
    Complaint(String),
    Over,
    Fine,
}

impl Seen {
    spec fn model(self) -> Look {
        match self {
            Seen::Complaint(s) => Look::Complaint(s@),
            Seen::Over => Look::Over,
            Seen::Fine => Look::Fine,
        }
    }
}

/// Looks at the values that stand behind `needle`.
fn look(input: &[char], needle: &str) -> (r: Seen)
    ensures
        r.model() == look_from(input@, needle@, 0),
{
    let k: usize = chars_of(needle).len();
    let n: usize = input.len();
    let mut start: usize = 0;
    while start <= n
        invariant
            start <= n,
            n == input@.len(),
            k == needle@.len(),
            look_from(input@, needle@, 0) == look_from(input@, needle@, start as int),
        decreases n - start,
    {
        let at: usize = match find_at(input, needle, start) {
            Some(at) => at,
            None => {
                return Seen::Fine;
            },
        };
        proof {
            text::lemma_find_from(input@, needle@, start as int);
        }
        let from: usize = at + k;
        let rest = part(input, from, n);
        assert(rest@ == input@.skip(from as int));
        let end: usize = match find_char(rest, '"') {
            Some(end) => end,
            None => {
                return Seen::Over;
            },
        };
        let value = part(input, from, from + end);
        if !qname_attr_value_is_well_formed(value) {
            let text = string_of(value);
            if !starts_with(value, ":") && !ends_with(value, ":") && count_of(value, ':') > 1 {
                return Seen::Complaint(
                    cat3(
                        "Schema Definition Error: Error loading schema\n'",
                        text.as_str(),
                        "' is not a valid value for 'QName'",
                    ),
                );
            }
            return Seen::Complaint(owned(QNAME_PRODUCTION_SDE));
        }
        start = from + end + 1;
    }
    Seen::Fine
}

/// What is said of a schema by its text alone.
pub fn precheck_schema_definition_errors(input: &str) -> (r: Option<String>)
    ensures
        r.deep_view() == text_complaint(input@),
{
    reveal(text_complaint);
    let c = chars_of(input);
    if contains(c.as_slice(), "xmlns:xmlns=") {
        return Some(owned(XMLNS_BOUND));
    }
    let ghost all = qname_needles();
    assert(all.skip(1)[0] == all[1]);
    assert(all.skip(1).skip(1) =~= all.skip(2));
    assert(all.skip(2)[0] == all[2]);
    assert(all.skip(2).skip(1) =~= all.skip(3));
    assert(all.skip(3)[0] == all[3]);
    assert(all.skip(3).skip(1) =~= Seq::<Seq<char>>::empty());
    proof {
        reveal_with_fuel(looked, 5);
    }
    match look(c.as_slice(), "type=\"") {
        Seen::Complaint(said) => {
            return Some(said);
        },
        Seen::Over => {
            return None;
        },
        Seen::Fine => {},
    }
    match look(c.as_slice(), "ref=\"") {
        Seen::Complaint(said) => {
            return Some(said);
        },
        Seen::Over => {
            return None;
        },
        Seen::Fine => {},
    }
    match look(c.as_slice(), "base=\"") {
        Seen::Complaint(said) => {
            return Some(said);
        },
        Seen::Over => {
            return None;
        },
        Seen::Fine => {},
    }
    match look(c.as_slice(), "substitutionGroup=\"") {
        Seen::Complaint(said) => Some(said),
        _ => None,
    }
}

/// The error of a schema for an error in its document.
pub open spec fn schema_error(e: ErrorModel) -> ErrorModel {
    let msg = error::error_text(e);
    if text::contains_spec(msg, "Cannot redefine XMLNS prefix"@) {
        ErrorModel::InvalidProperty(XMLNS_BOUND@)
    } else if text::contains_spec(msg, "Unexpected token inside qualified name"@) {
        ErrorModel::InvalidProperty(QNAME_PRODUCTION_SDE@)
    } else {
        e
    }
}

/// The error of a schema for an error in its document.
pub fn map_xml_parse_error_to_schema(e: Error) -> (r: Error)
    ensures
        r@ == schema_error(e@),
{
    let msg = e.to_text();
    let c = chars_of(msg.as_str());
    if contains(c.as_slice(), "Cannot redefine XMLNS prefix") {
        return invalid_property(owned(XMLNS_BOUND));
    }
    if contains(c.as_slice(), "Unexpected token inside qualified name") {
        return invalid_property(owned(QNAME_PRODUCTION_SDE));
    }
    e
}

// ---------------------------------------------------------------------- after

/// The properties of a type with a context where it has none.
pub open spec fn with_context(t: TypeDefModel, defaults: DfdlPropsModel) -> TypeDefModel {
    match t {
        TypeDefModel::Simple { name, base, props, format_context, source_label } => if format_context.length.length_kind_defined {
            t
        } else {
            TypeDefModel::Simple {
                name,
                base,
                props,
                format_context: merge::merge_spec(format_context, defaults),
                source_label,
            }
        },
        TypeDefModel::Complex { name, content, props, format_context, source_label } => if format_context.length.length_kind_defined {
            t
        } else {
            TypeDefModel::Complex {
                name,
                content,
                props,
                format_context: merge::merge_spec(format_context, defaults),
                source_label,
            }
        },
    }
}

/// The types with the default properties as their context, where the defaults
/// state a length kind and the context does not.
#[verifier::opaque]
pub open spec fn contexts_filled(
    types: Seq<(Seq<char>, TypeDefModel)>,
    defaults: DfdlPropsModel,
) -> Seq<(Seq<char>, TypeDefModel)> {
    if defaults.length.length_kind_defined {
        types.map_values(|t: (Seq<char>, TypeDefModel)| (t.0, with_context(t.1, defaults)))
    } else {
        types
    }
}

/// Whether the properties state a length kind.
pub fn states_length_kind(p: &DfdlProps) -> (r: bool)
    ensures
        r == p@.length.length_kind_defined,
{
    reveal(ast::length_props_model);
    p.length.length_kind_defined
}

/// Gives a type the default properties as its context, where it needs them.
fn fill_context(t: TypeDef, defaults: &DfdlProps) -> (r: TypeDef)
    ensures
        values::agree(r.deep_view(), with_context(t.deep_view(), defaults@)),
{
    match t {
        TypeDef::Simple { name, base, props, format_context, source_label } => {
            let format_context = if states_length_kind(&format_context) {
                format_context
            } else {
                merge_dfdl_props(format_context, defaults.copy())
            };
            TypeDef::Simple { name, base, props, format_context, source_label }
        },
        TypeDef::Complex { name, content, props, format_context, source_label } => {
            let format_context = if states_length_kind(&format_context) {
                format_context
            } else {
                merge_dfdl_props(format_context, defaults.copy())
            };
            TypeDef::Complex { name, content, props, format_context, source_label }
        },
    }
}

/// Gives the types the default properties as their context, where they need them.
pub fn backfill_type_format_contexts(types: StrMap<TypeDef>, defaults: &DfdlProps) -> (r: StrMap<
    TypeDef,
>)
    ensures
        values::agree(r@, contexts_filled(types@, defaults@)),
{
    reveal(contexts_filled);
    if !states_length_kind(defaults) {
        return types;
    }
    let ghost all = types@;
    let ghost entries = types.entries@;
    let ghost want = contexts_filled(types@, defaults@);
    let mut rest = reversed(types.entries);
    let mut out: Vec<(String, TypeDef)> = Vec::new();
    while rest.len() > 0
        invariant
            all.len() == entries.len(),
            want.len() == all.len(),
            forall|k: int| 0 <= k < all.len() ==> #[trigger] all[k] == entries[k].deep_view(),
            forall|k: int|
                0 <= k < all.len() ==> #[trigger] want[k] == (
                    all[k].0,
                    with_context(all[k].1, defaults@),
                ),
            rest@.len() <= all.len(),
            rest@ == entries.skip(all.len() - rest@.len()).reverse(),
            out@.len() == all.len() - rest@.len(),
            forall|k: int| 0 <= k < out@.len() ==> (#[trigger] out@[k]).deep_view() == want[k],
        decreases rest@.len(),
    {
        let ghost i = all.len() - rest@.len();
        let ghost before = rest@;
        match rest.pop() {
            Some((k, t)) => {
                assert(before.last() == entries[i]);
                assert(all[i] == (k, t).deep_view());
                let filled = fill_context(t, defaults);
                assert((k, filled).deep_view() == want[i]);
                out.push((k, filled));
                assert(rest@ =~= entries.skip(i + 1).reverse());
            },
            None => {},
        }
    }
    let r = StrMap { entries: out };
    assert(r@ =~= want);
    r
}

/// The reference to a format as it is named in complaints.
pub open spec fn named_for_complaint(name: Seq<char>) -> Seq<char> {
    if name.contains(':') {
        name
    } else {
        "{}"@ + name
    }
}

/// The reference to a format as it is named in complaints.
pub fn format_ref_qname_for_diag(name: &str) -> (r: String)
    ensures
        r@ == named_for_complaint(name@),
{
    let c = chars_of(name);
    if contains_char(c.as_slice(), ':') {
        owned(name)
    } else {
        cat2("{}", name)
    }
}

/// The namespace in whose schemas the general format needs a prefix.
pub const EXAMPLE_TNS: &'static str = "http://example.com/";

/// The text makes the namespace the default one.
pub open spec fn binds_example(source: Option<Seq<char>>) -> bool {
    source matches Some(t) && (text::contains_spec(t, "xmlns=\"http://example.com/\""@)
        || text::contains_spec(t, "xmlns='http://example.com/'"@))
}

/// The default properties refer to the general format without the prefix that it
/// needs.
pub open spec fn general_unprefixed(doc: SchemaDocumentModel) -> bool {
    &&& doc.format_defaults.props.statements.format_ref == Some("GeneralFormat"@)
    &&& doc.target_namespace == Some(EXAMPLE_TNS@)
    &&& strmap::lookup(doc.namespace_prefixes, ""@) != Some(EXAMPLE_TNS@)
    &&& !binds_example(doc.schema_source_text)
    &&& strmap::lookup(
        doc.named_formats,
        qname::storage_key("GeneralFormat"@, Some(EXAMPLE_TNS@)),
    ) is Some
}

/// What is said of a reference to the general format without its prefix.
#[verifier::opaque]
pub open spec fn general_complaints(doc: SchemaDocumentModel) -> Seq<Seq<char>> {
    if general_unprefixed(doc) {
        seq![
            "Schema Definition Error: defineFormat with name '"@ + named_for_complaint(
                "GeneralFormat"@,
            ) + "', was not found."@,
        ]
    } else {
        Seq::empty()
    }
}

/// Whether an optional text is this one.
fn opt_is(o: &Option<String>, text: &str) -> (r: bool)
    ensures
        r == (o.deep_view() == Some(text@)),
{
    match o {
        Some(s) => eq(s.as_str(), text),
        None => false,
    }
}

/// Whether the text makes the namespace the default one.
fn text_binds_example(source: &Option<String>) -> (r: bool)
    ensures
        r == binds_example(source.deep_view()),
{
    match source {
        Some(t) => {
            let c = chars_of(t.as_str());
            contains(c.as_slice(), "xmlns=\"http://example.com/\"") || contains(
                c.as_slice(),
                "xmlns='http://example.com/'",
            )
        },
        None => false,
    }
}

/// What is said of a reference to the general format without its prefix.
pub fn check_general_format04_unprefixed_include(doc: &SchemaDocument) -> (r: Vec<String>)
    ensures
        r.deep_view() == general_complaints(doc@),
{
    reveal(crate::ast::document_model);
    reveal(general_complaints);
    let mut out: Vec<String> = Vec::new();
    assert(out.deep_view() =~= Seq::<Seq<char>>::empty());
    let named: bool = opt_is(&format_ref_of(&doc.format_defaults.props), "GeneralFormat");
    let own: bool = opt_is(&doc.target_namespace, EXAMPLE_TNS);
    let by_default: bool = match doc.namespace_prefixes.get("") {
        Some(uri) => eq(uri.as_str(), EXAMPLE_TNS),
        None => false,
    };
    let key = format_storage_key("GeneralFormat", Some(EXAMPLE_TNS));
    let known: bool = doc.named_formats.contains_key(key.as_str());
    if named && own && !by_default && !text_binds_example(&doc.schema_source_text) && known {
        let said = cat3(
            "Schema Definition Error: defineFormat with name '",
            format_ref_qname_for_diag("GeneralFormat").as_str(),
            "', was not found.",
        );
        out.push(said);
        assert(out.deep_view() =~= seq![said@]);
    }
    out
}

} // verus!
