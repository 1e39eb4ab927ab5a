//! Attributes of [`TextProps`].

use vstd::prelude::*;
use crate::ast::{TextNumberJustification, TextPadKind, TextProps, TextPropsModel, TextStringJustification, TextTrimKind};
use crate::computed;
use crate::entities;
use crate::text;
use crate::error::{invalid_xml, Error, ErrorModel};
use crate::props;
use crate::props::{invalid, unknown, EMPTY_NEW_LINE};
use crate::text::{chars_of, is, string_of, trim};
use crate::values::owned;

verus! {

/// The value of the property that `value` names.
pub open spec fn truncate_specified_length_string_value(value: Seq<char>) -> Option<bool> {
    if value == "yes"@ {
        Some(true)
    } else if value == "no"@ {
        Some(false)
    } else {
        None
    }
}

/// Reads the value of a property.
fn read_truncate_specified_length_string(value: &[char]) -> (r: Option<bool>)
    ensures
        r == truncate_specified_length_string_value(value@),
{
    if is(value, "yes") {
        Some(true)
    } else if is(value, "no") {
        Some(false)
    } else {
        None
    }
}

/// The value of the property that `value` names.
pub open spec fn text_trim_kind_value(value: Seq<char>) -> Option<TextTrimKind> {
    if value == "none"@ {
        Some(TextTrimKind::NoTrim)
    } else if value == "trim"@ {
        Some(TextTrimKind::Trim)
    } else if value == "left"@ {
        Some(TextTrimKind::Left)
    } else if value == "right"@ {
        Some(TextTrimKind::Right)
    } else if value == "padChar"@ {
        Some(TextTrimKind::PadChar)
    } else {
        None
    }
}

/// Reads the value of a property.
fn read_text_trim_kind(value: &[char]) -> (r: Option<TextTrimKind>)
    ensures
        r == text_trim_kind_value(value@),
{
    if is(value, "none") {
        Some(TextTrimKind::NoTrim)
    } else if is(value, "trim") {
        Some(TextTrimKind::Trim)
    } else if is(value, "left") {
        Some(TextTrimKind::Left)
    } else if is(value, "right") {
        Some(TextTrimKind::Right)
    } else if is(value, "padChar") {
        Some(TextTrimKind::PadChar)
    } else {
        None
    }
}

/// The value of the property that `value` names.
pub open spec fn text_calendar_justification_value(value: Seq<char>) -> Option<TextStringJustification> {
    if value == "left"@ {
        Some(TextStringJustification::Left)
    } else if value == "right"@ {
        Some(TextStringJustification::Right)
    } else if value == "center"@ {
        Some(TextStringJustification::Center)
    } else {
        None
    }
}

/// Reads the value of a property.
fn read_text_calendar_justification(value: &[char]) -> (r: Option<TextStringJustification>)
    ensures
        r == text_calendar_justification_value(value@),
{
    if is(value, "left") {
        Some(TextStringJustification::Left)
    } else if is(value, "right") {
        Some(TextStringJustification::Right)
    } else if is(value, "center") {
        Some(TextStringJustification::Center)
    } else {
        None
    }
}

/// The value of the property that `value` names.
pub open spec fn text_pad_kind_value(value: Seq<char>) -> Option<TextPadKind> {
    if value == "none"@ {
        Some(TextPadKind::NoPad)
    } else if value == "padChar"@ {
        Some(TextPadKind::PadChar)
    } else {
        None
    }
}

/// Reads the value of a property.
fn read_text_pad_kind(value: &[char]) -> (r: Option<TextPadKind>)
    ensures
        r == text_pad_kind_value(value@),
{
    if is(value, "none") {
        Some(TextPadKind::NoPad)
    } else if is(value, "padChar") {
        Some(TextPadKind::PadChar)
    } else {
        None
    }
}

/// The value of the property that `value` names.
pub open spec fn text_string_justification_value(value: Seq<char>) -> Option<TextStringJustification> {
    if value == "left"@ {
        Some(TextStringJustification::Left)
    } else if value == "right"@ {
        Some(TextStringJustification::Right)
    } else if value == "center"@ {
        Some(TextStringJustification::Center)
    } else {
        None
    }
}

/// Reads the value of a property.
fn read_text_string_justification(value: &[char]) -> (r: Option<TextStringJustification>)
    ensures
        r == text_string_justification_value(value@),
{
    if is(value, "left") {
        Some(TextStringJustification::Left)
    } else if is(value, "right") {
        Some(TextStringJustification::Right)
    } else if is(value, "center") {
        Some(TextStringJustification::Center)
    } else {
        None
    }
}

/// The value of the property that `value` names.
pub open spec fn text_number_justification_value(value: Seq<char>) -> Option<TextNumberJustification> {
    if value == "left"@ {
        Some(TextNumberJustification::Left)
    } else if value == "right"@ {
        Some(TextNumberJustification::Right)
    } else if value == "center"@ {
        Some(TextNumberJustification::Center)
    } else {
        None
    }
}

/// Reads the value of a property.
fn read_text_number_justification(value: &[char]) -> (r: Option<TextNumberJustification>)
    ensures
        r == text_number_justification_value(value@),
{
    if is(value, "left") {
        Some(TextNumberJustification::Left)
    } else if is(value, "right") {
        Some(TextNumberJustification::Right)
    } else if is(value, "center") {
        Some(TextNumberJustification::Center)
    } else {
        None
    }
}

/// The value of the property that `value` names.
pub open spec fn text_bidi_value(value: Seq<char>) -> Option<bool> {
    if value == "yes"@ || value == "true"@ {
        Some(true)
    } else if value == "no"@ || value == "false"@ {
        Some(false)
    } else {
        None
    }
}

/// Reads the value of a property.
fn read_text_bidi(value: &[char]) -> (r: Option<bool>)
    ensures
        r == text_bidi_value(value@),
{
    if is(value, "yes") || is(value, "true") {
        Some(true)
    } else if is(value, "no") || is(value, "false") {
        Some(false)
    } else {
        None
    }
}

/// What the attribute `key` with this value does to [`TextProps`], if it is one of
/// them.
#[verifier::opaque]
pub open spec fn text_attr(p: TextPropsModel, key: Seq<char>, value: Seq<char>) -> Option<
    Result<TextPropsModel, ErrorModel>,
> {
    if key == "truncateSpecifiedLengthString"@ {
        Some(
            match truncate_specified_length_string_value(value) {
                Some(x) => Ok(TextPropsModel { truncate_specified_length_string: Some(x), ..p }),
                None => Err(props::unknown_spec("truncateSpecifiedLengthString"@, value)),
            },
        )
    } else if key == "textTrimKind"@ {
        Some(
            match text_trim_kind_value(value) {
                Some(x) => Ok(TextPropsModel { text_trim_kind: Some(x), ..p }),
                None => Err(props::unknown_spec("textTrimKind"@, value)),
            },
        )
    } else if key == "textNumberPadCharacter"@ {
        Some(Ok(TextPropsModel { text_number_pad_character: Some(value), ..p }))
    } else if key == "textStringPadCharacter"@ {
        Some(Ok(TextPropsModel { text_string_pad_character: Some(value), ..p }))
    } else if key == "textCalendarPadCharacter"@ {
        Some(Ok(TextPropsModel { text_calendar_pad_character: Some(value), ..p }))
    } else if key == "textCalendarJustification"@ {
        Some(
            match text_calendar_justification_value(value) {
                Some(x) => Ok(TextPropsModel { text_calendar_justification: Some(x), ..p }),
                None => Err(props::unknown_spec("textCalendarJustification"@, value)),
            },
        )
    } else if key == "textPadKind"@ {
        Some(
            match text_pad_kind_value(value) {
                Some(x) => Ok(TextPropsModel { text_pad_kind: Some(x), ..p }),
                None => Err(props::unknown_spec("textPadKind"@, value)),
            },
        )
    } else if key == "textStringJustification"@ {
        Some(
            match text_string_justification_value(value) {
                Some(x) => Ok(TextPropsModel { text_string_justification: Some(x), ..p }),
                None => Err(props::unknown_spec("textStringJustification"@, value)),
            },
        )
    } else if key == "textNumberJustification"@ {
        Some(
            match text_number_justification_value(value) {
                Some(x) => Ok(TextPropsModel { text_number_justification: Some(x), ..p }),
                None => Err(props::unknown_spec("textNumberJustification"@, value)),
            },
        )
    } else if key == "textBidi"@ {
        Some(
            match text_bidi_value(text::trim_spec(value)) {
                Some(x) => Ok(TextPropsModel { text_bidi: Some(x), ..p }),
                None => Err(props::invalid_spec("textBidi"@, text::trim_spec(value))),
            },
        )
    } else if key == "outputNewLine"@ {
        Some(
            match computed::new_line_sibling(value) {
                Some(sib) => Ok(TextPropsModel { output_new_line_sibling: Some(sib), ..p }),
                None => if entities::delimiter_literal(value).len() == 0 {
                    Err(ErrorModel::InvalidXml(EMPTY_NEW_LINE@))
                } else {
                    Ok(TextPropsModel {
                        output_new_line: Some(entities::delimiter_literal(value)),
                        ..p
                    })
                },
            },
        )
    } else if key == "textBooleanTrueRep"@ {
        Some(
            Ok(TextPropsModel { text_boolean_true_rep: Some(value), text_boolean_true_rep_defined: true, ..p }),
        )
    } else if key == "textBooleanFalseRep"@ {
        Some(
            Ok(TextPropsModel { text_boolean_false_rep: Some(value), text_boolean_false_rep_defined: true, ..p }),
        )
    } else if key == "textBooleanPadCharacter"@ {
        Some(
            Ok(TextPropsModel { text_boolean_pad_character: Some(entities::expanded(value)), ..p }),
        )
    } else if key == "escapeSchemeRef"@ {
        Some(Ok(TextPropsModel { escape_scheme_ref: Some(value), ..p }))
    } else {
        None
    }
}

/// Applies the attribute `key` to [`TextProps`], if it is one of them.
pub fn set_text(p: &mut TextProps, key: &[char], value: &str) -> (r: Result<bool, Error>)
    ensures
        props::applied(text_attr(old(p)@, key@, value@), old(p)@, final(p)@, r),
{
    reveal(text_attr);
    reveal(crate::ast::text_props_model);
    let chars = chars_of(value);
    let v = chars.as_slice();
    if is(key, "truncateSpecifiedLengthString") {
        match read_truncate_specified_length_string(v) {
            Some(x) => {
                p.truncate_specified_length_string = Some(x);
            },
            None => {
                return Err(unknown("truncateSpecifiedLengthString", value));
            },
        }
    } else if is(key, "textTrimKind") {
        match read_text_trim_kind(v) {
            Some(x) => {
                p.text_trim_kind = Some(x);
            },
            None => {
                return Err(unknown("textTrimKind", value));
            },
        }
    } else if is(key, "textNumberPadCharacter") {
        p.text_number_pad_character = Some(owned(value));
    } else if is(key, "textStringPadCharacter") {
        p.text_string_pad_character = Some(owned(value));
    } else if is(key, "textCalendarPadCharacter") {
        p.text_calendar_pad_character = Some(owned(value));
    } else if is(key, "textCalendarJustification") {
        match read_text_calendar_justification(v) {
            Some(x) => {
                p.text_calendar_justification = Some(x);
            },
            None => {
                return Err(unknown("textCalendarJustification", value));
            },
        }
    } else if is(key, "textPadKind") {
        match read_text_pad_kind(v) {
            Some(x) => {
                p.text_pad_kind = Some(x);
            },
            None => {
                return Err(unknown("textPadKind", value));
            },
        }
    } else if is(key, "textStringJustification") {
        match read_text_string_justification(v) {
            Some(x) => {
                p.text_string_justification = Some(x);
            },
            None => {
                return Err(unknown("textStringJustification", value));
            },
        }
    } else if is(key, "textNumberJustification") {
        match read_text_number_justification(v) {
            Some(x) => {
                p.text_number_justification = Some(x);
            },
            None => {
                return Err(unknown("textNumberJustification", value));
            },
        }
    } else if is(key, "textBidi") {
        match read_text_bidi(trim(v)) {
            Some(x) => {
                p.text_bidi = Some(x);
            },
            None => {
                return Err(invalid("textBidi", string_of(trim(v)).as_str()));
            },
        }
    } else if is(key, "outputNewLine") {
        match computed::parse_output_new_line_encode_sibling(value) {
            Some(sib) => {
                p.output_new_line_sibling = Some(sib);
            },
            None => {
                let lit = entities::parse_delimiter_literal_value(value);
                if lit.as_str().is_empty() {
                    return Err(invalid_xml(owned(EMPTY_NEW_LINE)));
                }
                p.output_new_line = Some(lit);
            },
        }
    } else if is(key, "textBooleanTrueRep") {
        p.text_boolean_true_rep_defined = true;
        p.text_boolean_true_rep = Some(owned(value));
    } else if is(key, "textBooleanFalseRep") {
        p.text_boolean_false_rep_defined = true;
        p.text_boolean_false_rep = Some(owned(value));
    } else if is(key, "textBooleanPadCharacter") {
        p.text_boolean_pad_character = Some(entities::expand_entities_str(value));
    } else if is(key, "escapeSchemeRef") {
        p.escape_scheme_ref = Some(owned(value));
    } else {
        return Ok(false);
    }
    Ok(true)
}

/// No attribute of the group has a name that begins with `z`.
pub proof fn lemma_not_named(p: TextPropsModel, key: Seq<char>, value: Seq<char>)
    requires
        key.len() > 0,
        key[0] == 'z',
    ensures
        text_attr(p, key, value) is None,
{
    reveal(text_attr);
    reveal_strlit("truncateSpecifiedLengthString");
    reveal_strlit("textTrimKind");
    reveal_strlit("textNumberPadCharacter");
    reveal_strlit("textStringPadCharacter");
    reveal_strlit("textCalendarPadCharacter");
    reveal_strlit("textCalendarJustification");
    reveal_strlit("textPadKind");
    reveal_strlit("textStringJustification");
    reveal_strlit("textNumberJustification");
    reveal_strlit("textBidi");
    reveal_strlit("outputNewLine");
    reveal_strlit("textBooleanTrueRep");
    reveal_strlit("textBooleanFalseRep");
    reveal_strlit("textBooleanPadCharacter");
    reveal_strlit("escapeSchemeRef");
}

} // verus!
