//! All the rules that a schema must keep before it is used.

use vstd::prelude::*;
use crate::ast::{SchemaDocument, SchemaDocumentModel};
use crate::error::{cat2, cat3, cat4, invalid_property, Error, ErrorModel};
use crate::numbers;
use crate::numbers::decimal_chars;
use crate::qname;
use crate::qname::get_global_element;
use crate::tdml::suite::{DaffodilTunables, DaffodilTunablesModel};
use crate::text;
use crate::text::{chars_of, contains, eq, find, join, part, split, string_of};
use crate::validate::choices;
use crate::validate::choices::{
    validate_choice_dispatch_schema, validate_discriminators_in_reachable_schema,
};
use crate::validate::complex;
use crate::validate::complex::{
    validate_element_type_qnames, validate_reachable_complex_type_model_groups,
    validate_reachable_unordered_sequences, ComplexRule,
};
use crate::validate::delimiters;
use crate::validate::delimiters::{
    validate_escape_separator_distinct, validate_sequence_separator_encoding,
};
use crate::validate::groups;
use crate::validate::groups::{
    validate_group_definitions_no_hidden_group_ref, validate_hidden_group_ref_notation,
};
use crate::validate::hidden;
use crate::validate::hidden::validate_hidden_groups_unparse;
use crate::validate::reach;
use crate::validate::restrictions;
use crate::validate::restrictions::{
    validate_invalid_restrictions, validate_max_hex_binary_length,
    validate_unique_particle_attribution,
};
use crate::validate::types;
use crate::validate::types::{
    validate_element_default_values, validate_name_and_ref, validate_simple_restriction_bases,
    validate_type_references,
};
use crate::values::owned;

verus! {

broadcast use vstd::string::group_string_axioms;

// What was noticed on reading.
/// Whether a complaint is about the form of a name.
pub open spec fn about_name(d: Seq<char>) -> bool {
    text::contains_spec(d, "not a valid NCName"@) || d == "NCName"@
}

/// Whether all complaints are about the form of names.
pub open spec fn all_about_names(list: Seq<Seq<char>>) -> bool {
    forall|i: int| 0 <= i < list.len() ==> about_name(#[trigger] list[i])
}

/// Whether what was noticed on reading keeps a schema from being used: anything,
/// unless it is only about the form of names and the root is there.
pub open spec fn blocked(schema: SchemaDocumentModel, root: Seq<char>) -> bool {
    schema.schema_diagnostics.len() > 0 && !(all_about_names(schema.schema_diagnostics)
        && qname::global_element(schema, root) is Some)
}

fn only_about_names(list: &Vec<String>) -> (r: bool)
    ensures
        r == all_about_names(list.deep_view()),
{
    let mut i: usize = 0;
    while i < list.len()
        invariant
            i <= list@.len(),
            forall|k: int| 0 <= k < i ==> about_name(#[trigger] list.deep_view()[k]),
        decreases list@.len() - i,
    {
        assert(list.deep_view()[i as int] == list@[i as int]@);
        let c = chars_of(list[i].as_str());
        let fits = contains(c.as_slice(), "not a valid NCName") || eq(list[i].as_str(), "NCName");
        if !fits {
            assert(!about_name(list.deep_view()[i as int]));
            return false;
        }
        i += 1;
    }
    true
}

fn schema_diagnostics_block_compile(schema: &SchemaDocument, root: &str) -> (r: bool)
    ensures
        r == blocked(schema@, root@),
{
    reveal(crate::ast::document_model);
    assert(schema@.schema_diagnostics.len() == schema.schema_diagnostics@.len());
    if schema.schema_diagnostics.len() == 0 {
        return false;
    }
    let excused = only_about_names(&schema.schema_diagnostics) && get_global_element(
        schema,
        root,
    ).is_some();
    !excused
}

// All rules.
/// The first fault of two.
pub open spec fn first(a: Option<ErrorModel>, b: Option<ErrorModel>) -> Option<ErrorModel> {
    match a {
        Some(x) => Some(x),
        None => b,
    }
}

/// Why a schema was not read well enough to be used.
pub open spec fn reading_fault(schema: SchemaDocumentModel, root: Seq<char>) -> Option<ErrorModel> {
    if blocked(schema, root) {
        Some(types::broken_rule(text::joined(schema.schema_diagnostics, "\n"@)))
    } else if !schema.dfdl_annotations_seen {
        Some(types::broken_rule("Schema Definition Error: Non-DFDL Schema file"@))
    } else {
        None
    }
}

/// Why the types that a schema names break a rule.
pub open spec fn type_rules_fault(schema: SchemaDocumentModel, root: Seq<char>) -> Option<
    ErrorModel,
> {
    first(
        types::references_fault(schema),
        first(
            complex::type_names_fault(schema, root),
            first(
                types::bases_fault_from(schema, reach::reachable(schema, root), 0),
                first(types::all_elements_fault(schema, false), types::defaults_fault(schema)),
            ),
        ),
    )
}

/// Why the restrictions and delimiters of a schema break a rule.
pub open spec fn value_rules_fault(
    schema: SchemaDocumentModel,
    root: Seq<char>,
    t: DaffodilTunablesModel,
) -> Option<ErrorModel> {
    first(
        delimiters::escapes_fault_from(schema, reach::reachable(schema, root), 0),
        first(
            restrictions::invalid_restriction_fault(schema, root, t),
            first(
                restrictions::hex_length_fault(schema, root, t),
                first(
                    restrictions::attribution_fault(schema),
                    delimiters::separator_encoding_fault(schema, root),
                ),
            ),
        ),
    )
}

/// Why hidden groups cannot be written, as an error of the schema.
pub open spec fn hidden_rule_fault(schema: SchemaDocumentModel, root: Seq<char>) -> Option<
    ErrorModel,
> {
    match hidden::hidden_groups_fault(schema, root) {
        Some(m) => Some(types::broken_rule(m)),
        None => None,
    }
}

/// Why the groups of a schema break a rule.
pub open spec fn group_rules_fault(schema: SchemaDocumentModel, root: Seq<char>) -> Option<
    ErrorModel,
> {
    first(
        choices::discriminators_fault(schema, root),
        first(
            complex::complex_fault(
                schema,
                ComplexRule::ModelGroup { root_implicit: complex::implicit_root(schema, root) },
                root,
            ),
            first(
                groups::group_definition_fault(schema),
                first(
                    groups::hidden_notation_fault(schema),
                    first(
                        hidden_rule_fault(schema, root),
                        first(
                            complex::complex_fault(schema, ComplexRule::Unordered, root),
                            choices::dispatch_schema_fault(schema, root),
                        ),
                    ),
                ),
            ),
        ),
    )
}

/// Why a schema cannot be used with this root and these settings.
pub open spec fn compiled_fault(
    schema: SchemaDocumentModel,
    root: Seq<char>,
    t: DaffodilTunablesModel,
) -> Option<ErrorModel> {
    first(
        reading_fault(schema, root),
        first(
            type_rules_fault(schema, root),
            first(value_rules_fault(schema, root, t), group_rules_fault(schema, root)),
        ),
    )
}

fn check_reading(schema: &SchemaDocument, root: &str) -> (r: Result<(), Error>)
    ensures
        types::fault_of(r) == reading_fault(schema@, root@),
{
    reveal(crate::ast::document_model);
    if schema_diagnostics_block_compile(schema, root) {
        return Err(invalid_property(join(&schema.schema_diagnostics, "\n")));
    }
    if !schema.dfdl_annotations_seen {
        return Err(
            invalid_property(owned("Schema Definition Error: Non-DFDL Schema file")),
        );
    }
    Ok(())
}

fn check_type_rules(schema: &SchemaDocument, root: &str) -> (r: Result<(), Error>)
    ensures
        types::fault_of(r) == type_rules_fault(schema@, root@),
{
    validate_type_references(schema)?;
    validate_element_type_qnames(schema, root)?;
    validate_simple_restriction_bases(schema, root)?;
    validate_name_and_ref(schema)?;
    validate_element_default_values(schema)
}

fn check_value_rules(schema: &SchemaDocument, root: &str, tunables: &DaffodilTunables) -> (r:
    Result<(), Error>)
    ensures
        types::fault_of(r) == value_rules_fault(schema@, root@, tunables@),
{
    validate_escape_separator_distinct(schema, root)?;
    validate_invalid_restrictions(schema, root, tunables)?;
    validate_max_hex_binary_length(schema, root, tunables)?;
    validate_unique_particle_attribution(schema)?;
    validate_sequence_separator_encoding(schema, root)
}

fn check_hidden(schema: &SchemaDocument, root: &str) -> (r: Result<(), Error>)
    ensures
        types::fault_of(r) == hidden_rule_fault(schema@, root@),
{
    match validate_hidden_groups_unparse(schema, root) {
        Ok(_) => Ok(()),
        Err(m) => Err(invalid_property(m)),
    }
}

fn check_group_rules(schema: &SchemaDocument, root: &str) -> (r: Result<(), Error>)
    ensures
        types::fault_of(r) == group_rules_fault(schema@, root@),
{
    validate_discriminators_in_reachable_schema(schema, root)?;
    validate_reachable_complex_type_model_groups(schema, root)?;
    validate_group_definitions_no_hidden_group_ref(schema)?;
    validate_hidden_group_ref_notation(schema)?;
    check_hidden(schema, root)?;
    validate_reachable_unordered_sequences(schema, root)?;
    validate_choice_dispatch_schema(schema, root)
}

/// A schema can be used with this root and these settings.
pub fn validate_compiled_schema(schema: &SchemaDocument, root: &str, tunables: &DaffodilTunables) -> (r:
    Result<(), Error>)
    ensures
        types::fault_of(r) == compiled_fault(schema@, root@, tunables@),
{
    check_reading(schema, root)?;
    check_type_rules(schema, root)?;
    check_value_rules(schema, root, tunables)?;
    check_group_rules(schema, root)
}

/// A schema can be used only where it was read without complaints that count, is
/// annotated, and keeps every rule.
pub proof fn law_usable_keeps_all_rules(
    schema: SchemaDocumentModel,
    root: Seq<char>,
    t: DaffodilTunablesModel,
)
    ensures
        compiled_fault(schema, root, t) is None <==> (!blocked(schema, root)
            && schema.dfdl_annotations_seen && type_rules_fault(schema, root) is None
            && value_rules_fault(schema, root, t) is None && group_rules_fault(
            schema,
            root,
        ) is None),
{
}

// The message for a missing length.
/// What is looked for in the text of a schema: the element of this name, or else
/// an explicit length.
pub open spec fn length_needle(name: Option<Seq<char>>) -> Seq<char> {
    match name {
        Some(n) => "name=\""@ + n + "\""@,
        None => "lengthKind=\"explicit\""@,
    }
}

/// The first line from `i` on that holds this text.
pub open spec fn line_with(lines: Seq<Seq<char>>, needle: Seq<char>, i: nat) -> Option<nat>
    decreases lines.len() - i,
{
    if i >= lines.len() {
        None
    } else if text::contains_spec(lines[i as int], needle) {
        Some(i)
    } else {
        line_with(lines, needle, i + 1)
    }
}

/// Where a line stands, for a message.
pub open spec fn place(label: Seq<char>, number: nat, line: Seq<char>) -> Seq<char> {
    "\n"@ + label + "\nline "@ + numbers::decimal(number) + match text::find_spec(
        line,
        "<xs:element"@,
    ) {
        Some(c) => "\ncolumn "@ + numbers::decimal(vstd::utf8::encode_utf8(line.take(c)).len() + 2),
        None => Seq::empty(),
    }
}

/// The message for a length that is not defined, with the place where it is missing
/// where the text of the schema is known.
pub open spec fn no_length_message(
    schema: SchemaDocumentModel,
    name: Option<Seq<char>>,
) -> Seq<char> {
    let message = "Schema Definition Error: Property length is not defined"@;
    match (schema.schema_source_text, schema.schema_source_label) {
        (Some(source), Some(label)) => {
            let lines = text::split_spec(source, '\n');
            match line_with(lines, length_needle(name), 0) {
                Some(i) => message + place(label, i + 1, lines[i as int]),
                None => message,
            }
        },
        _ => message,
    }
}

fn number_text(n: usize) -> (r: String)
    requires
        n < usize::MAX,
    ensures
        r@ == numbers::decimal(n as nat + 1),
{
    let d = decimal_chars(n as u64 + 1);
    string_of(d.as_slice())
}

/// The bytes of a text are at least as many as those of its beginning and the
/// characters behind that.
proof fn lemma_prefix_bytes(s: Seq<char>, k: int)
    requires
        0 <= k <= s.len(),
    ensures
        vstd::utf8::encode_utf8(s).len() >= vstd::utf8::encode_utf8(s.take(k)).len() + (s.len()
            - k),
    decreases s.len(),
{
    if s.len() > 0 {
        assert(vstd::utf8::encode_scalar(s[0] as u32).len() >= 1);
        let t = s.drop_first();
        if k > 0 {
            lemma_prefix_bytes(t, k - 1);
            assert(s.take(k).drop_first() =~= t.take(k - 1));
            assert(s.take(k)[0] == s[0]);
        } else {
            lemma_prefix_bytes(t, 0);
            assert(t.take(0) =~= Seq::<char>::empty());
            assert(s.take(0) =~= Seq::<char>::empty());
        }
    }
}

fn place_text(label: &str, index: usize, line: &[char]) -> (r: String)
    requires
        index < usize::MAX,
    ensures
        r@ == place(label@, index as nat + 1, line@),
{
    let n = number_text(index);
    let at = cat4("\n", label, "\nline ", n.as_str());
    match find(line, "<xs:element") {
        Some(c) => {
            proof {
                reveal_strlit("<xs:element");
                text::lemma_find_from(line@, "<xs:element"@, 0);
            }
            let whole = string_of(line);
            let head = string_of(part(line, 0, c));
            let width: usize = whole.as_str().as_bytes_vec().len();
            let before: usize = head.as_str().as_bytes_vec().len();
            proof {
                assert(line@.subrange(0, c as int) =~= line@.take(c as int));
                lemma_prefix_bytes(line@, c as int);
                assert(before + 2 <= width);
            }
            let col = number_text(before + 1);
            cat3(at.as_str(), "\ncolumn ", col.as_str())
        },
        None => at,
    }
}

/// The message for a length that is not defined.
pub fn length_not_defined_message(schema: &SchemaDocument, element_name: Option<&str>) -> (r:
    String)
    ensures
        r@ == no_length_message(schema@, text::ref_opt(element_name)),
{
    reveal(crate::ast::document_model);
    let message = "Schema Definition Error: Property length is not defined";
    let (source, label) = match (&schema.schema_source_text, &schema.schema_source_label) {
        (Some(s), Some(l)) => (s, l),
        _ => {
            return owned(message);
        },
    };
    let needle = match element_name {
        Some(n) => cat3("name=\"", n, "\""),
        None => owned("lengthKind=\"explicit\""),
    };
    let c = chars_of(source.as_str());
    let lines = split(c.as_slice(), '\n');
    let ghost all = text::view_all(lines@);
    let mut i: usize = 0;
    while i < lines.len()
        invariant
            i <= lines@.len(),
            all == text::view_all(lines@),
            all == text::split_spec(source@, '\n'),
            schema@.schema_source_text == Some(source@),
            schema@.schema_source_label == Some(label@),
            needle@ == length_needle(text::ref_opt(element_name)),
            message@ == "Schema Definition Error: Property length is not defined"@,
            line_with(all, needle@, 0) == line_with(all, needle@, i as nat),
        decreases lines@.len() - i,
    {
        reveal(crate::ast::document_model);
        assert(all[i as int] == lines@[i as int]@);
        if contains(lines[i], needle.as_str()) {
            let at = place_text(label.as_str(), i, lines[i]);
            return cat2(message, at.as_str());
        }
        i += 1;
    }
    owned(message)
}

} // verus!
