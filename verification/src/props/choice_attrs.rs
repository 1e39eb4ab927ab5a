//! Attributes of [`ChoiceProps`].

use vstd::prelude::*;
use crate::ast::{ChoiceLengthKind, ChoiceProps, ChoicePropsModel};
use crate::computed;
use crate::numbers;
use crate::error::{Error, ErrorModel};
use crate::numbers::{parse_u64};
use crate::props;
use crate::props::{invalid, unknown};
use crate::text::{chars_of, is};
use crate::values::owned;

verus! {

/// The value of the property that `value` names.
pub open spec fn choice_length_kind_value(value: Seq<char>) -> Option<ChoiceLengthKind> {
    if value == "implicit"@ {
        Some(ChoiceLengthKind::Implicit)
    } else if value == "explicit"@ {
        Some(ChoiceLengthKind::Explicit)
    } else {
        None
    }
}

/// Reads the value of a property.
fn read_choice_length_kind(value: &[char]) -> (r: Option<ChoiceLengthKind>)
    ensures
        r == choice_length_kind_value(value@),
{
    if is(value, "implicit") {
        Some(ChoiceLengthKind::Implicit)
    } else if is(value, "explicit") {
        Some(ChoiceLengthKind::Explicit)
    } else {
        None
    }
}

/// What the attribute `key` with this value does to [`ChoiceProps`], if it is one of
/// them.
#[verifier::opaque]
pub open spec fn choice_attr(p: ChoicePropsModel, key: Seq<char>, value: Seq<char>) -> Option<
    Result<ChoicePropsModel, ErrorModel>,
> {
    if key == "choiceLengthKind"@ {
        Some(
            match choice_length_kind_value(value) {
                Some(x) => Ok(ChoicePropsModel { choice_length_kind: Some(x), ..p }),
                None => Err(props::unknown_spec("choiceLengthKind"@, value)),
            },
        )
    } else if key == "choiceLength"@ {
        Some(
            match numbers::u64_spec(value) {
                Some(n) => Ok(ChoicePropsModel { choice_length: Some(n), ..p }),
                None => Err(props::invalid_spec("choiceLength"@, value)),
            },
        )
    } else if key == "choiceDispatchKey"@ {
        Some(Ok(computed::choice_dispatch(p, value)))
    } else if key == "choiceBranchKey"@ {
        Some(Ok(ChoicePropsModel { choice_branch_key: Some(value), ..p }))
    } else {
        None
    }
}

/// Applies the attribute `key` to [`ChoiceProps`], if it is one of them.
pub fn set_choice(p: &mut ChoiceProps, key: &[char], value: &str) -> (r: Result<bool, Error>)
    ensures
        props::applied(choice_attr(old(p)@, key@, value@), old(p)@, final(p)@, r),
{
    reveal(choice_attr);
    reveal(crate::ast::choice_props_model);
    let chars = chars_of(value);
    let v = chars.as_slice();
    if is(key, "choiceLengthKind") {
        match read_choice_length_kind(v) {
            Some(x) => {
                p.choice_length_kind = Some(x);
            },
            None => {
                return Err(unknown("choiceLengthKind", value));
            },
        }
    } else if is(key, "choiceLength") {
        match parse_u64(v) {
            Some(n) => {
                p.choice_length = Some(n);
            },
            None => {
                return Err(invalid("choiceLength", value));
            },
        }
    } else if is(key, "choiceDispatchKey") {
        computed::apply_choice_dispatch_key_parse(p, value);
    } else if is(key, "choiceBranchKey") {
        p.choice_branch_key = Some(owned(value));
    } else {
        return Ok(false);
    }
    Ok(true)
}

/// No attribute of the group has a name that begins with `z`.
pub proof fn lemma_not_named(p: ChoicePropsModel, key: Seq<char>, value: Seq<char>)
    requires
        key.len() > 0,
        key[0] == 'z',
    ensures
        choice_attr(p, key, value) is None,
{
    reveal(choice_attr);
    reveal_strlit("choiceLengthKind");
    reveal_strlit("choiceLength");
    reveal_strlit("choiceDispatchKey");
    reveal_strlit("choiceBranchKey");
}

} // verus!
