//! Attributes of [`DelimiterProps`].

use vstd::prelude::*;
use crate::ast::{DelimiterProps, DelimiterPropsModel, SeparatorPosition, SeparatorSuppressionPolicy, SequenceKind};
use crate::entities;
use crate::text;
use crate::error::{Error, ErrorModel};
use crate::props;
use crate::props::{is_truthy, unknown};
use crate::text::{chars_of, contains, is};

verus! {

/// The value of the property that `value` names.
pub open spec fn separator_suppression_policy_value(value: Seq<char>) -> Option<SeparatorSuppressionPolicy> {
    if value == "anyEmpty"@ {
        Some(SeparatorSuppressionPolicy::AnyEmpty)
    } else if value == "trailingEmpty"@ {
        Some(SeparatorSuppressionPolicy::TrailingEmpty)
    } else if value == "trailingEmptyStrict"@ {
        Some(SeparatorSuppressionPolicy::TrailingEmptyStrict)
    } else if value == "never"@ {
        Some(SeparatorSuppressionPolicy::Never)
    } else {
        None
    }
}

/// Reads the value of a property.
fn read_separator_suppression_policy(value: &[char]) -> (r: Option<SeparatorSuppressionPolicy>)
    ensures
        r == separator_suppression_policy_value(value@),
{
    if is(value, "anyEmpty") {
        Some(SeparatorSuppressionPolicy::AnyEmpty)
    } else if is(value, "trailingEmpty") {
        Some(SeparatorSuppressionPolicy::TrailingEmpty)
    } else if is(value, "trailingEmptyStrict") {
        Some(SeparatorSuppressionPolicy::TrailingEmptyStrict)
    } else if is(value, "never") {
        Some(SeparatorSuppressionPolicy::Never)
    } else {
        None
    }
}

/// The value of the property that `value` names.
pub open spec fn separator_position_value(value: Seq<char>) -> Option<SeparatorPosition> {
    if value == "infix"@ {
        Some(SeparatorPosition::Infix)
    } else if value == "prefix"@ {
        Some(SeparatorPosition::Prefix)
    } else if value == "postfix"@ {
        Some(SeparatorPosition::Postfix)
    } else {
        None
    }
}

/// Reads the value of a property.
fn read_separator_position(value: &[char]) -> (r: Option<SeparatorPosition>)
    ensures
        r == separator_position_value(value@),
{
    if is(value, "infix") {
        Some(SeparatorPosition::Infix)
    } else if is(value, "prefix") {
        Some(SeparatorPosition::Prefix)
    } else if is(value, "postfix") {
        Some(SeparatorPosition::Postfix)
    } else {
        None
    }
}

/// The value of the property that `value` names.
pub open spec fn sequence_kind_value(value: Seq<char>) -> Option<SequenceKind> {
    if value == "ordered"@ {
        Some(SequenceKind::Ordered)
    } else if value == "unordered"@ {
        Some(SequenceKind::Unordered)
    } else {
        None
    }
}

/// Reads the value of a property.
fn read_sequence_kind(value: &[char]) -> (r: Option<SequenceKind>)
    ensures
        r == sequence_kind_value(value@),
{
    if is(value, "ordered") {
        Some(SequenceKind::Ordered)
    } else if is(value, "unordered") {
        Some(SequenceKind::Unordered)
    } else {
        None
    }
}

/// What the attribute `key` with this value does to [`DelimiterProps`], if it is one of
/// them.
#[verifier::opaque]
pub open spec fn delimiters_attr(p: DelimiterPropsModel, key: Seq<char>, value: Seq<char>) -> Option<
    Result<DelimiterPropsModel, ErrorModel>,
> {
    if key == "separatorSuppressionPolicy"@ {
        Some(
            match separator_suppression_policy_value(value) {
                Some(x) => Ok(DelimiterPropsModel { separator_suppression_policy: Some(x), ..p }),
                None => Err(props::unknown_spec("separatorSuppressionPolicy"@, value)),
            },
        )
    } else if key == "initiator"@ {
        Some(
            Ok(DelimiterPropsModel {
                initiator_percent_escaped: p.initiator_percent_escaped || text::contains_spec(
                    value,
                    "%%"@,
                ),
                initiator: Some(entities::delimiter_literal(value)),
                ..p
            }),
        )
    } else if key == "terminator"@ {
        Some(
            Ok(DelimiterPropsModel { terminator: Some(entities::delimiter_literal(value)), ..p }),
        )
    } else if key == "separator"@ {
        Some(
            Ok(DelimiterPropsModel { separator: Some(entities::delimiter_literal(value)), ..p }),
        )
    } else if key == "initiatedContent"@ {
        Some(
            Ok(DelimiterPropsModel { initiated_content: Some(props::truthy(value)), ..p }),
        )
    } else if key == "separatorPosition"@ {
        Some(
            match separator_position_value(value) {
                Some(x) => Ok(DelimiterPropsModel { separator_position: Some(x), ..p }),
                None => Err(props::unknown_spec("separatorPosition"@, value)),
            },
        )
    } else if key == "sequenceKind"@ {
        Some(
            match sequence_kind_value(value) {
                Some(x) => Ok(DelimiterPropsModel { sequence_kind: Some(x), ..p }),
                None => Err(props::unknown_spec("sequenceKind"@, value)),
            },
        )
    } else {
        None
    }
}

/// Applies the attribute `key` to [`DelimiterProps`], if it is one of them.
pub fn set_delimiters(p: &mut DelimiterProps, key: &[char], value: &str) -> (r: Result<bool, Error>)
    ensures
        props::applied(delimiters_attr(old(p)@, key@, value@), old(p)@, final(p)@, r),
{
    reveal(delimiters_attr);
    reveal(crate::ast::delimiter_props_model);
    let chars = chars_of(value);
    let v = chars.as_slice();
    if is(key, "separatorSuppressionPolicy") {
        match read_separator_suppression_policy(v) {
            Some(x) => {
                p.separator_suppression_policy = Some(x);
            },
            None => {
                return Err(unknown("separatorSuppressionPolicy", value));
            },
        }
    } else if is(key, "initiator") {
        if contains(v, "%%") {
            p.initiator_percent_escaped = true;
        }
        p.initiator = Some(entities::parse_delimiter_literal_value(value));
    } else if is(key, "terminator") {
        p.terminator = Some(entities::parse_delimiter_literal_value(value));
    } else if is(key, "separator") {
        p.separator = Some(entities::parse_delimiter_literal_value(value));
    } else if is(key, "initiatedContent") {
        p.initiated_content = Some(is_truthy(v));
    } else if is(key, "separatorPosition") {
        match read_separator_position(v) {
            Some(x) => {
                p.separator_position = Some(x);
            },
            None => {
                return Err(unknown("separatorPosition", value));
            },
        }
    } else if is(key, "sequenceKind") {
        match read_sequence_kind(v) {
            Some(x) => {
                p.sequence_kind = Some(x);
            },
            None => {
                return Err(unknown("sequenceKind", value));
            },
        }
    } else {
        return Ok(false);
    }
    Ok(true)
}

/// No attribute of the group has a name that begins with `z`.
pub proof fn lemma_not_named(p: DelimiterPropsModel, key: Seq<char>, value: Seq<char>)
    requires
        key.len() > 0,
        key[0] == 'z',
    ensures
        delimiters_attr(p, key, value) is None,
{
    reveal(delimiters_attr);
    reveal_strlit("separatorSuppressionPolicy");
    reveal_strlit("initiator");
    reveal_strlit("terminator");
    reveal_strlit("separator");
    reveal_strlit("initiatedContent");
    reveal_strlit("separatorPosition");
    reveal_strlit("sequenceKind");
}

} // verus!
