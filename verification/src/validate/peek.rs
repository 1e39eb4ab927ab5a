//! Single properties of a declaration.

use vstd::prelude::*;
use crate::ast;
use crate::ast::{DfdlProps, DfdlPropsModel, LengthKind, OccursCountKind, SequenceKind};
use crate::props;
use crate::strmap::StrMap;
use crate::text;

verus! {

broadcast use vstd::string::group_string_axioms;

/// The property `separator`.
pub fn separator_of(p: &DfdlProps) -> (r: Option<&str>)
    ensures
        text::ref_opt(r) == p@.delimiters.separator,
{
    reveal(ast::delimiter_props_model);
    match &p.delimiters.separator {
        Some(v) => Some(v.as_str()),
        None => None,
    }
}

/// The property `terminator`.
pub fn terminator_of(p: &DfdlProps) -> (r: Option<&str>)
    ensures
        text::ref_opt(r) == p@.delimiters.terminator,
{
    reveal(ast::delimiter_props_model);
    match &p.delimiters.terminator {
        Some(v) => Some(v.as_str()),
        None => None,
    }
}

/// The property `sequence_kind`.
pub fn sequence_kind_of(p: &DfdlProps) -> (r: Option<SequenceKind>)
    ensures
        r == p@.delimiters.sequence_kind,
{
    reveal(ast::delimiter_props_model);
    p.delimiters.sequence_kind
}

/// The property `initiated_content`.
pub fn initiated_content_of(p: &DfdlProps) -> (r: Option<bool>)
    ensures
        r == p@.delimiters.initiated_content,
{
    reveal(ast::delimiter_props_model);
    p.delimiters.initiated_content
}

/// The property `encoding`.
pub fn encoding_of(p: &DfdlProps) -> (r: Option<&str>)
    ensures
        text::ref_opt(r) == p@.physical.encoding,
{
    reveal(ast::physical_props_model);
    match &p.physical.encoding {
        Some(v) => Some(v.as_str()),
        None => None,
    }
}

/// The property `length_kind`.
pub fn length_kind_of(p: &DfdlProps) -> (r: Option<LengthKind>)
    ensures
        r == p@.length.length_kind,
{
    reveal(ast::length_props_model);
    p.length.length_kind
}

/// The property `length`.
pub fn length_of(p: &DfdlProps) -> (r: Option<u64>)
    ensures
        r == p@.length.length,
{
    reveal(ast::length_props_model);
    p.length.length
}

/// The property `escape_scheme_ref`.
pub fn escape_scheme_ref_of(p: &DfdlProps) -> (r: Option<&str>)
    ensures
        text::ref_opt(r) == p@.text.escape_scheme_ref,
{
    reveal(ast::text_props_model);
    match &p.text.escape_scheme_ref {
        Some(v) => Some(v.as_str()),
        None => None,
    }
}

/// The property `text_bidi`.
pub fn text_bidi_of(p: &DfdlProps) -> (r: Option<bool>)
    ensures
        r == p@.text.text_bidi,
{
    reveal(ast::text_props_model);
    p.text.text_bidi
}

/// The property `floating`.
pub fn floating_of(p: &DfdlProps) -> (r: Option<bool>)
    ensures
        r == p@.occurs.floating,
{
    reveal(ast::occurs_props_model);
    p.occurs.floating
}

/// The property `occurs_min`.
pub fn occurs_min_of(p: &DfdlProps) -> (r: Option<u64>)
    ensures
        r == p@.occurs.occurs_min,
{
    reveal(ast::occurs_props_model);
    p.occurs.occurs_min
}

/// The property `occurs_max`.
pub fn occurs_max_of(p: &DfdlProps) -> (r: Option<u64>)
    ensures
        r == p@.occurs.occurs_max,
{
    reveal(ast::occurs_props_model);
    p.occurs.occurs_max
}

/// The property `occurs_count_kind`.
pub fn occurs_count_kind_of(p: &DfdlProps) -> (r: Option<OccursCountKind>)
    ensures
        r == p@.occurs.occurs_count_kind,
{
    reveal(ast::occurs_props_model);
    p.occurs.occurs_count_kind
}

/// The property `default_value`.
pub fn default_value_of(p: &DfdlProps) -> (r: Option<&str>)
    ensures
        text::ref_opt(r) == p@.occurs.default_value,
{
    reveal(ast::occurs_props_model);
    match &p.occurs.default_value {
        Some(v) => Some(v.as_str()),
        None => None,
    }
}

/// The property `hidden_group_ref`.
pub fn hidden_group_ref_of(p: &DfdlProps) -> (r: Option<&str>)
    ensures
        text::ref_opt(r) == p@.statements.hidden_group_ref,
{
    reveal(ast::statement_props_model);
    match &p.statements.hidden_group_ref {
        Some(v) => Some(v.as_str()),
        None => None,
    }
}

/// The property `discriminator_test`.
pub fn discriminator_test_of(p: &DfdlProps) -> (r: Option<&str>)
    ensures
        text::ref_opt(r) == p@.statements.discriminator_test,
{
    reveal(ast::statement_props_model);
    match &p.statements.discriminator_test {
        Some(v) => Some(v.as_str()),
        None => None,
    }
}

/// The property `choice_branch_key`.
pub fn choice_branch_key_of(p: &DfdlProps) -> (r: Option<&str>)
    ensures
        text::ref_opt(r) == p@.choice.choice_branch_key,
{
    reveal(ast::choice_props_model);
    match &p.choice.choice_branch_key {
        Some(v) => Some(v.as_str()),
        None => None,
    }
}

/// The namespaces in force for a discriminator.
pub fn discriminator_prefixes_of(p: &DfdlProps) -> (r: Option<&StrMap<String>>)
    ensures
        props::vars_view(r) == p@.statements.discriminator_xpath_prefixes,
{
    reveal(ast::statement_props_model);
    match &p.statements.discriminator_xpath_prefixes {
        Some(m) => Some(m),
        None => None,
    }
}

/// Whether a hidden group is named in an annotation of its sequence.
pub fn hidden_from_appinfo(p: &DfdlProps) -> (r: bool)
    ensures
        r == p@.statements.hidden_group_ref_from_appinfo_sequence,
{
    reveal(ast::statement_props_model);
    p.statements.hidden_group_ref_from_appinfo_sequence
}

/// Whether a choice takes its branch by a key.
pub open spec fn dispatches(p: DfdlPropsModel) -> bool {
    p.choice.choice_dispatch_sibling is Some || p.choice.choice_dispatch_path is Some
        || p.choice.choice_dispatch_literal is Some || p.choice.choice_dispatch_sibling_int is Some
}

/// Whether a choice takes its branch by a key.
pub fn choice_dispatch_active(p: &DfdlProps) -> (r: bool)
    ensures
        r == dispatches(p@),
{
    reveal(ast::choice_props_model);
    p.choice.choice_dispatch_sibling.is_some() || p.choice.choice_dispatch_path.is_some()
        || p.choice.choice_dispatch_literal.is_some()
        || p.choice.choice_dispatch_sibling_int.is_some()
}

/// Whether an element may be missing from an infoset that is unparsed.
pub open spec fn may_be_absent(p: DfdlPropsModel) -> bool {
    ||| p.occurs.occurs_min == Some(0u64)
    ||| p.calc.output_value_calc is Some
    ||| p.calc.output_value_calc_literal is Some
    ||| p.calc.output_value_calc_sibling is Some
    ||| p.calc.output_value_calc_conditional
    ||| (p.occurs.default_value matches Some(v) && v.len() > 0)
}

/// Whether an element may be missing from an infoset that is unparsed.
pub fn can_be_absent_from_unparse_infoset(p: &DfdlProps) -> (r: bool)
    ensures
        r == may_be_absent(p@),
{
    let min = occurs_min_of(p);
    let has_default = match default_value_of(p) {
        Some(v) => text::chars_of(v).len() > 0,
        None => false,
    };
    reveal(ast::calc_props_model);
    min == Some(0) || p.calc.output_value_calc.is_some()
        || p.calc.output_value_calc_literal.is_some()
        || p.calc.output_value_calc_sibling.is_some() || p.calc.output_value_calc_conditional
        || has_default
}

} // verus!
