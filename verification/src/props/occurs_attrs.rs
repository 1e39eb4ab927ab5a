//! Attributes of [`OccursProps`].

use vstd::prelude::*;
use crate::ast::{EmptyElementParsePolicy, NilKind, OccursCountKind, OccursProps, OccursPropsModel};
use crate::computed;
use crate::expr;
use crate::numbers;
use crate::text;
use crate::error::{Error, ErrorModel};
use crate::numbers::{parse_u64};
use crate::props;
use crate::props::{invalid, unknown};
use crate::text::{chars_of, is, string_of, trim};
use crate::values::owned;

verus! {

/// What an `occursCount` attribute does: a constant count, or a count that a
/// path gives.
pub open spec fn occurs_count_effect(p: OccursPropsModel, value: Seq<char>) -> OccursPropsModel {
    match expr::braced(value) {
        Some(inner) => if numbers::u64_spec(inner) is Some {
            OccursPropsModel {
                occurs_min: numbers::u64_spec(inner),
                occurs_max: numbers::u64_spec(inner),
                max_occurs_specified: true,
                occurs_count_kind: Some(OccursCountKind::Expression),
                ..p
            }
        } else if computed::count_path(inner) is Some {
            OccursPropsModel {
                occurs_count_fn_path: computed::count_path(inner),
                occurs_count_kind: Some(OccursCountKind::Expression),
                ..p
            }
        } else if computed::relative_path(value) is Some {
            OccursPropsModel {
                occurs_count_fn_path: computed::relative_path(value),
                occurs_count_kind: Some(OccursCountKind::Expression),
                ..p
            }
        } else {
            p
        },
        None => p,
    }
}

/// Applies an `occursCount` attribute.
fn set_occurs_count(p: &mut OccursProps, value: &str)
    ensures
        final(p)@ == occurs_count_effect(old(p)@, value@),
{
    reveal(crate::ast::occurs_props_model);
    let chars = chars_of(value);
    if let Some(inner) = expr::between_braces(chars.as_slice()) {
        if let Some(n) = parse_u64(inner) {
            p.occurs_min = Some(n);
            p.occurs_max = Some(n);
            p.max_occurs_specified = true;
            p.occurs_count_kind = Some(OccursCountKind::Expression);
        } else if let Some(steps) = computed::parse_fn_count_path(inner) {
            p.occurs_count_fn_path = Some(steps);
            p.occurs_count_kind = Some(OccursCountKind::Expression);
        } else if let Some(steps) = computed::parse_input_value_calc_relative_path(value) {
            p.occurs_count_fn_path = Some(steps);
            p.occurs_count_kind = Some(OccursCountKind::Expression);
        }
    }
}

/// The value of the property that `value` names.
pub open spec fn nil_kind_value(value: Seq<char>) -> Option<NilKind> {
    if value == "literalValue"@ {
        Some(NilKind::LiteralValue)
    } else if value == "literalCharacter"@ {
        Some(NilKind::LiteralCharacter)
    } else {
        None
    }
}

/// Reads the value of a property.
fn read_nil_kind(value: &[char]) -> (r: Option<NilKind>)
    ensures
        r == nil_kind_value(value@),
{
    if is(value, "literalValue") {
        Some(NilKind::LiteralValue)
    } else if is(value, "literalCharacter") {
        Some(NilKind::LiteralCharacter)
    } else {
        None
    }
}

/// The value of the property that `value` names.
pub open spec fn empty_element_parse_policy_value(value: Seq<char>) -> Option<EmptyElementParsePolicy> {
    if value == "treatAsEmpty"@ {
        Some(EmptyElementParsePolicy::TreatAsEmpty)
    } else if value == "treatAsAbsent"@ || value == "treatAsMissing"@ {
        Some(EmptyElementParsePolicy::TreatAsAbsent)
    } else {
        None
    }
}

/// Reads the value of a property.
fn read_empty_element_parse_policy(value: &[char]) -> (r: Option<EmptyElementParsePolicy>)
    ensures
        r == empty_element_parse_policy_value(value@),
{
    if is(value, "treatAsEmpty") {
        Some(EmptyElementParsePolicy::TreatAsEmpty)
    } else if is(value, "treatAsAbsent") || is(value, "treatAsMissing") {
        Some(EmptyElementParsePolicy::TreatAsAbsent)
    } else {
        None
    }
}

/// The value of the property that `value` names.
pub open spec fn occurs_count_kind_value(value: Seq<char>) -> Option<OccursCountKind> {
    if value == "parsed"@ {
        Some(OccursCountKind::Parsed)
    } else if value == "implicit"@ {
        Some(OccursCountKind::Implicit)
    } else if value == "fixed"@ {
        Some(OccursCountKind::Fixed)
    } else if value == "expression"@ {
        Some(OccursCountKind::Expression)
    } else {
        None
    }
}

/// Reads the value of a property.
fn read_occurs_count_kind(value: &[char]) -> (r: Option<OccursCountKind>)
    ensures
        r == occurs_count_kind_value(value@),
{
    if is(value, "parsed") {
        Some(OccursCountKind::Parsed)
    } else if is(value, "implicit") {
        Some(OccursCountKind::Implicit)
    } else if is(value, "fixed") {
        Some(OccursCountKind::Fixed)
    } else if is(value, "expression") {
        Some(OccursCountKind::Expression)
    } else {
        None
    }
}

/// The value of the property that `value` names.
pub open spec fn floating_value(value: Seq<char>) -> Option<bool> {
    if value == "yes"@ || value == "true"@ {
        Some(true)
    } else if value == "no"@ || value == "false"@ {
        Some(false)
    } else {
        None
    }
}

/// Reads the value of a property.
fn read_floating(value: &[char]) -> (r: Option<bool>)
    ensures
        r == floating_value(value@),
{
    if is(value, "yes") || is(value, "true") {
        Some(true)
    } else if is(value, "no") || is(value, "false") {
        Some(false)
    } else {
        None
    }
}

/// What the attribute `key` with this value does to [`OccursProps`], if it is one of
/// them.
#[verifier::opaque]
pub open spec fn occurs_attr(p: OccursPropsModel, key: Seq<char>, value: Seq<char>) -> Option<
    Result<OccursPropsModel, ErrorModel>,
> {
    if key == "nilKind"@ {
        Some(
            match nil_kind_value(value) {
                Some(x) => Ok(OccursPropsModel { nil_kind: Some(x), ..p }),
                None => Err(props::unknown_spec("nilKind"@, value)),
            },
        )
    } else if key == "nilValue"@ {
        Some(Ok(OccursPropsModel { nil_value: Some(value), ..p }))
    } else if key == "emptyElementParsePolicy"@ {
        Some(
            match empty_element_parse_policy_value(value) {
                Some(x) => Ok(OccursPropsModel { empty_element_parse_policy: Some(x), ..p }),
                None => Err(props::unknown_spec("emptyElementParsePolicy"@, value)),
            },
        )
    } else if key == "occursCountKind"@ {
        Some(
            match occurs_count_kind_value(value) {
                Some(x) => Ok(OccursPropsModel { occurs_count_kind: Some(x), ..p }),
                None => Err(props::unknown_spec("occursCountKind"@, value)),
            },
        )
    } else if key == "floating"@ {
        Some(
            match floating_value(text::trim_spec(value)) {
                Some(x) => Ok(OccursPropsModel { floating: Some(x), ..p }),
                None => Err(props::invalid_spec("floating"@, text::trim_spec(value))),
            },
        )
    } else if key == "occursCount"@ {
        Some(Ok(occurs_count_effect(p, value)))
    } else {
        None
    }
}

/// Applies the attribute `key` to [`OccursProps`], if it is one of them.
pub fn set_occurs(p: &mut OccursProps, key: &[char], value: &str) -> (r: Result<bool, Error>)
    ensures
        props::applied(occurs_attr(old(p)@, key@, value@), old(p)@, final(p)@, r),
{
    reveal(occurs_attr);
    reveal(crate::ast::occurs_props_model);
    let chars = chars_of(value);
    let v = chars.as_slice();
    if is(key, "nilKind") {
        match read_nil_kind(v) {
            Some(x) => {
                p.nil_kind = Some(x);
            },
            None => {
                return Err(unknown("nilKind", value));
            },
        }
    } else if is(key, "nilValue") {
        p.nil_value = Some(owned(value));
    } else if is(key, "emptyElementParsePolicy") {
        match read_empty_element_parse_policy(v) {
            Some(x) => {
                p.empty_element_parse_policy = Some(x);
            },
            None => {
                return Err(unknown("emptyElementParsePolicy", value));
            },
        }
    } else if is(key, "occursCountKind") {
        match read_occurs_count_kind(v) {
            Some(x) => {
                p.occurs_count_kind = Some(x);
            },
            None => {
                return Err(unknown("occursCountKind", value));
            },
        }
    } else if is(key, "floating") {
        match read_floating(trim(v)) {
            Some(x) => {
                p.floating = Some(x);
            },
            None => {
                return Err(invalid("floating", string_of(trim(v)).as_str()));
            },
        }
    } else if is(key, "occursCount") {
        set_occurs_count(p, value);
    } else {
        return Ok(false);
    }
    Ok(true)
}

/// No attribute of the group has a name that begins with `z`.
pub proof fn lemma_not_named(p: OccursPropsModel, key: Seq<char>, value: Seq<char>)
    requires
        key.len() > 0,
        key[0] == 'z',
    ensures
        occurs_attr(p, key, value) is None,
{
    reveal(occurs_attr);
    reveal_strlit("nilKind");
    reveal_strlit("nilValue");
    reveal_strlit("emptyElementParsePolicy");
    reveal_strlit("occursCountKind");
    reveal_strlit("floating");
    reveal_strlit("occursCount");
}

} // verus!
