//! Attributes of [`NumberProps`].

use vstd::prelude::*;
use crate::ast::{BinaryNumberCheckPolicy, NumberProps, NumberPropsModel, TextNumberRep, TextNumberRounding, TextNumberRoundingMode, TextZonedSignStyle};
use crate::computed;
use crate::numbers;
use crate::error::{Error, ErrorModel};
use crate::numbers::{parse_u32};
use crate::props;
use crate::props::{invalid, unknown};
use crate::text::{chars_of, is};
use crate::values::owned;

verus! {

/// The value of the property that `value` names.
pub open spec fn text_number_check_policy_value(value: Seq<char>) -> Option<BinaryNumberCheckPolicy> {
    if value == "strict"@ {
        Some(BinaryNumberCheckPolicy::Strict)
    } else if value == "lax"@ {
        Some(BinaryNumberCheckPolicy::Lax)
    } else {
        None
    }
}

/// Reads the value of a property.
fn read_text_number_check_policy(value: &[char]) -> (r: Option<BinaryNumberCheckPolicy>)
    ensures
        r == text_number_check_policy_value(value@),
{
    if is(value, "strict") {
        Some(BinaryNumberCheckPolicy::Strict)
    } else if is(value, "lax") {
        Some(BinaryNumberCheckPolicy::Lax)
    } else {
        None
    }
}

/// The value of the property that `value` names.
pub open spec fn text_number_rep_value(value: Seq<char>) -> Option<TextNumberRep> {
    if value == "standard"@ {
        Some(TextNumberRep::Standard)
    } else if value == "zoned"@ {
        Some(TextNumberRep::Zoned)
    } else {
        None
    }
}

/// Reads the value of a property.
fn read_text_number_rep(value: &[char]) -> (r: Option<TextNumberRep>)
    ensures
        r == text_number_rep_value(value@),
{
    if is(value, "standard") {
        Some(TextNumberRep::Standard)
    } else if is(value, "zoned") {
        Some(TextNumberRep::Zoned)
    } else {
        None
    }
}

/// The value of the property that `value` names.
pub open spec fn text_zoned_sign_style_value(value: Seq<char>) -> Option<TextZonedSignStyle> {
    if value == "asciiStandard"@ {
        Some(TextZonedSignStyle::AsciiStandard)
    } else if value == "asciiTranslatedEBCDIC"@ {
        Some(TextZonedSignStyle::AsciiTranslatedEBCDIC)
    } else if value == "asciiCARealiaModified"@ {
        Some(TextZonedSignStyle::AsciiCARealiaModified)
    } else if value == "asciiTandemModified"@ {
        Some(TextZonedSignStyle::AsciiTandemModified)
    } else {
        None
    }
}

/// Reads the value of a property.
fn read_text_zoned_sign_style(value: &[char]) -> (r: Option<TextZonedSignStyle>)
    ensures
        r == text_zoned_sign_style_value(value@),
{
    if is(value, "asciiStandard") {
        Some(TextZonedSignStyle::AsciiStandard)
    } else if is(value, "asciiTranslatedEBCDIC") {
        Some(TextZonedSignStyle::AsciiTranslatedEBCDIC)
    } else if is(value, "asciiCARealiaModified") {
        Some(TextZonedSignStyle::AsciiCARealiaModified)
    } else if is(value, "asciiTandemModified") {
        Some(TextZonedSignStyle::AsciiTandemModified)
    } else {
        None
    }
}

/// The value of the property that `value` names.
pub open spec fn text_number_rounding_value(value: Seq<char>) -> Option<TextNumberRounding> {
    if value == "pattern"@ {
        Some(TextNumberRounding::Pattern)
    } else if value == "explicit"@ {
        Some(TextNumberRounding::Explicit)
    } else {
        None
    }
}

/// Reads the value of a property.
fn read_text_number_rounding(value: &[char]) -> (r: Option<TextNumberRounding>)
    ensures
        r == text_number_rounding_value(value@),
{
    if is(value, "pattern") {
        Some(TextNumberRounding::Pattern)
    } else if is(value, "explicit") {
        Some(TextNumberRounding::Explicit)
    } else {
        None
    }
}

/// The value of the property that `value` names.
pub open spec fn text_number_rounding_mode_value(value: Seq<char>) -> Option<TextNumberRoundingMode> {
    if value == "roundCeiling"@ {
        Some(TextNumberRoundingMode::RoundCeiling)
    } else if value == "roundFloor"@ {
        Some(TextNumberRoundingMode::RoundFloor)
    } else if value == "roundDown"@ {
        Some(TextNumberRoundingMode::RoundDown)
    } else if value == "roundUp"@ {
        Some(TextNumberRoundingMode::RoundUp)
    } else if value == "roundHalfEven"@ {
        Some(TextNumberRoundingMode::RoundHalfEven)
    } else if value == "roundHalfDown"@ {
        Some(TextNumberRoundingMode::RoundHalfDown)
    } else if value == "roundHalfUp"@ {
        Some(TextNumberRoundingMode::RoundHalfUp)
    } else if value == "roundUnnecessary"@ {
        Some(TextNumberRoundingMode::RoundUnnecessary)
    } else {
        None
    }
}

/// Reads the value of a property.
fn read_text_number_rounding_mode(value: &[char]) -> (r: Option<TextNumberRoundingMode>)
    ensures
        r == text_number_rounding_mode_value(value@),
{
    if is(value, "roundCeiling") {
        Some(TextNumberRoundingMode::RoundCeiling)
    } else if is(value, "roundFloor") {
        Some(TextNumberRoundingMode::RoundFloor)
    } else if is(value, "roundDown") {
        Some(TextNumberRoundingMode::RoundDown)
    } else if is(value, "roundUp") {
        Some(TextNumberRoundingMode::RoundUp)
    } else if is(value, "roundHalfEven") {
        Some(TextNumberRoundingMode::RoundHalfEven)
    } else if is(value, "roundHalfDown") {
        Some(TextNumberRoundingMode::RoundHalfDown)
    } else if is(value, "roundHalfUp") {
        Some(TextNumberRoundingMode::RoundHalfUp)
    } else if is(value, "roundUnnecessary") {
        Some(TextNumberRoundingMode::RoundUnnecessary)
    } else {
        None
    }
}

/// What the attribute `key` with this value does to [`NumberProps`], if it is one of
/// them.
#[verifier::opaque]
pub open spec fn number_attr(p: NumberPropsModel, key: Seq<char>, value: Seq<char>) -> Option<
    Result<NumberPropsModel, ErrorModel>,
> {
    if key == "textStandardBase"@ {
        Some(
            match numbers::u32_spec(value) {
                Some(n) => Ok(NumberPropsModel { text_standard_base: Some(n), ..p }),
                None => Err(props::invalid_spec("textStandardBase"@, value)),
            },
        )
    } else if key == "textNumberPattern"@ {
        Some(Ok(NumberPropsModel { text_number_pattern: Some(value), ..p }))
    } else if key == "textNumberCheckPolicy"@ {
        Some(
            match text_number_check_policy_value(value) {
                Some(x) => Ok(NumberPropsModel { text_number_check_policy: Some(x), ..p }),
                None => Err(props::unknown_spec("textNumberCheckPolicy"@, value)),
            },
        )
    } else if key == "textNumberRep"@ {
        Some(
            match text_number_rep_value(value) {
                Some(x) => Ok(NumberPropsModel { text_number_rep: Some(x), ..p }),
                None => Err(props::unknown_spec("textNumberRep"@, value)),
            },
        )
    } else if key == "textZonedSignStyle"@ {
        Some(
            match text_zoned_sign_style_value(value) {
                Some(x) => Ok(NumberPropsModel { text_zoned_sign_style: Some(x), ..p }),
                None => Err(props::unknown_spec("textZonedSignStyle"@, value)),
            },
        )
    } else if key == "textStandardDecimalSeparator"@ {
        Some(
            match computed::sibling_length(value) {
                Some((name, _, _)) => Ok(NumberPropsModel { text_standard_decimal_separator_sibling: Some(name), ..p }),
                None => Ok(NumberPropsModel { text_standard_decimal_separator: Some(value), ..p }),
            },
        )
    } else if key == "textStandardGroupingSeparator"@ {
        Some(
            match computed::sibling_length(value) {
                Some((name, _, _)) => Ok(NumberPropsModel { text_standard_grouping_separator_sibling: Some(name), ..p }),
                None => Ok(NumberPropsModel { text_standard_grouping_separator: Some(value), ..p }),
            },
        )
    } else if key == "textStandardExponentRep"@ {
        Some(
            match computed::sibling_length(value) {
                Some((name, _, _)) => Ok(NumberPropsModel { text_standard_exponent_rep_sibling: Some(name), ..p }),
                None => Ok(NumberPropsModel { text_standard_exponent_rep: Some(value), ..p }),
            },
        )
    } else if key == "textStandardInfinityRep"@ {
        Some(Ok(NumberPropsModel { text_standard_infinity_rep: Some(value), ..p }))
    } else if key == "textStandardNaNRep"@ {
        Some(Ok(NumberPropsModel { text_standard_nan_rep: Some(value), ..p }))
    } else if key == "textStandardZeroRep"@ {
        Some(Ok(NumberPropsModel { text_standard_zero_rep: Some(value), ..p }))
    } else if key == "textNumberRounding"@ {
        Some(
            match text_number_rounding_value(value) {
                Some(x) => Ok(NumberPropsModel { text_number_rounding: Some(x), ..p }),
                None => Err(props::unknown_spec("textNumberRounding"@, value)),
            },
        )
    } else if key == "textNumberRoundingIncrement"@ {
        Some(
            Ok(NumberPropsModel { text_number_rounding_increment: Some(value), ..p }),
        )
    } else if key == "textNumberRoundingMode"@ {
        Some(
            match text_number_rounding_mode_value(value) {
                Some(x) => Ok(NumberPropsModel { text_number_rounding_mode: Some(x), ..p }),
                None => Err(props::unknown_spec("textNumberRoundingMode"@, value)),
            },
        )
    } else {
        None
    }
}

/// Applies the attribute `key` to [`NumberProps`], if it is one of them.
pub fn set_number(p: &mut NumberProps, key: &[char], value: &str) -> (r: Result<bool, Error>)
    ensures
        props::applied(number_attr(old(p)@, key@, value@), old(p)@, final(p)@, r),
{
    reveal(number_attr);
    reveal(crate::ast::number_props_model);
    let chars = chars_of(value);
    let v = chars.as_slice();
    if is(key, "textStandardBase") {
        match parse_u32(v) {
            Some(n) => {
                p.text_standard_base = Some(n);
            },
            None => {
                return Err(invalid("textStandardBase", value));
            },
        }
    } else if is(key, "textNumberPattern") {
        p.text_number_pattern = Some(owned(value));
    } else if is(key, "textNumberCheckPolicy") {
        match read_text_number_check_policy(v) {
            Some(x) => {
                p.text_number_check_policy = Some(x);
            },
            None => {
                return Err(unknown("textNumberCheckPolicy", value));
            },
        }
    } else if is(key, "textNumberRep") {
        match read_text_number_rep(v) {
            Some(x) => {
                p.text_number_rep = Some(x);
            },
            None => {
                return Err(unknown("textNumberRep", value));
            },
        }
    } else if is(key, "textZonedSignStyle") {
        match read_text_zoned_sign_style(v) {
            Some(x) => {
                p.text_zoned_sign_style = Some(x);
            },
            None => {
                return Err(unknown("textZonedSignStyle", value));
            },
        }
    } else if is(key, "textStandardDecimalSeparator") {
        match computed::parse_sibling_length_expr(value) {
            Some((name, _, _)) => {
                p.text_standard_decimal_separator_sibling = Some(name);
            },
            None => {
                p.text_standard_decimal_separator = Some(owned(value));
            },
        }
    } else if is(key, "textStandardGroupingSeparator") {
        match computed::parse_sibling_length_expr(value) {
            Some((name, _, _)) => {
                p.text_standard_grouping_separator_sibling = Some(name);
            },
            None => {
                p.text_standard_grouping_separator = Some(owned(value));
            },
        }
    } else if is(key, "textStandardExponentRep") {
        match computed::parse_sibling_length_expr(value) {
            Some((name, _, _)) => {
                p.text_standard_exponent_rep_sibling = Some(name);
            },
            None => {
                p.text_standard_exponent_rep = Some(owned(value));
            },
        }
    } else if is(key, "textStandardInfinityRep") {
        p.text_standard_infinity_rep = Some(owned(value));
    } else if is(key, "textStandardNaNRep") {
        p.text_standard_nan_rep = Some(owned(value));
    } else if is(key, "textStandardZeroRep") {
        p.text_standard_zero_rep = Some(owned(value));
    } else if is(key, "textNumberRounding") {
        match read_text_number_rounding(v) {
            Some(x) => {
                p.text_number_rounding = Some(x);
            },
            None => {
                return Err(unknown("textNumberRounding", value));
            },
        }
    } else if is(key, "textNumberRoundingIncrement") {
        p.text_number_rounding_increment = Some(owned(value));
    } else if is(key, "textNumberRoundingMode") {
        match read_text_number_rounding_mode(v) {
            Some(x) => {
                p.text_number_rounding_mode = Some(x);
            },
            None => {
                return Err(unknown("textNumberRoundingMode", value));
            },
        }
    } else {
        return Ok(false);
    }
    Ok(true)
}

/// No attribute of the group has a name that begins with `z`.
pub proof fn lemma_not_named(p: NumberPropsModel, key: Seq<char>, value: Seq<char>)
    requires
        key.len() > 0,
        key[0] == 'z',
    ensures
        number_attr(p, key, value) is None,
{
    reveal(number_attr);
    reveal_strlit("textStandardBase");
    reveal_strlit("textNumberPattern");
    reveal_strlit("textNumberCheckPolicy");
    reveal_strlit("textNumberRep");
    reveal_strlit("textZonedSignStyle");
    reveal_strlit("textStandardDecimalSeparator");
    reveal_strlit("textStandardGroupingSeparator");
    reveal_strlit("textStandardExponentRep");
    reveal_strlit("textStandardInfinityRep");
    reveal_strlit("textStandardNaNRep");
    reveal_strlit("textStandardZeroRep");
    reveal_strlit("textNumberRounding");
    reveal_strlit("textNumberRoundingIncrement");
    reveal_strlit("textNumberRoundingMode");
}

} // verus!
