//! Attributes of [`StatementProps`].

use vstd::prelude::*;
use crate::ast::{ParseUnparsePolicy, StatementProps, StatementPropsModel};
use crate::text;
use crate::error::{Error, ErrorModel};
use crate::props;
use crate::props::{unknown};
use crate::text::{chars_of, is, string_of, trim};
use crate::values::owned;

verus! {

/// The value of the property that `value` names.
pub open spec fn parse_unparse_policy_value(value: Seq<char>) -> Option<ParseUnparsePolicy> {
    if value == "both"@ {
        Some(ParseUnparsePolicy::Both)
    } else if value == "parseOnly"@ {
        Some(ParseUnparsePolicy::ParseOnly)
    } else if value == "unparseOnly"@ {
        Some(ParseUnparsePolicy::UnparseOnly)
    } else {
        None
    }
}

/// Reads the value of a property.
fn read_parse_unparse_policy(value: &[char]) -> (r: Option<ParseUnparsePolicy>)
    ensures
        r == parse_unparse_policy_value(value@),
{
    if is(value, "both") {
        Some(ParseUnparsePolicy::Both)
    } else if is(value, "parseOnly") {
        Some(ParseUnparsePolicy::ParseOnly)
    } else if is(value, "unparseOnly") {
        Some(ParseUnparsePolicy::UnparseOnly)
    } else {
        None
    }
}

/// What the attribute `key` with this value does to [`StatementProps`], if it is one of
/// them.
#[verifier::opaque]
pub open spec fn statements_attr(p: StatementPropsModel, key: Seq<char>, value: Seq<char>) -> Option<
    Result<StatementPropsModel, ErrorModel>,
> {
    if key == "hiddenGroupRef"@ {
        Some(Ok(StatementPropsModel { hidden_group_ref: Some(value), ..p }))
    } else if key == "parseUnparsePolicy"@ {
        Some(
            match parse_unparse_policy_value(text::trim_spec(value)) {
                Some(x) => Ok(StatementPropsModel { parse_unparse_policy: Some(x), ..p }),
                None => Err(props::unknown_spec("parseUnparsePolicy"@, text::trim_spec(value))),
            },
        )
    } else if key == "ref"@ {
        Some(Ok(StatementPropsModel { format_ref: Some(value), ..p }))
    } else {
        None
    }
}

/// Applies the attribute `key` to [`StatementProps`], if it is one of them.
pub fn set_statements(p: &mut StatementProps, key: &[char], value: &str) -> (r: Result<bool, Error>)
    ensures
        props::applied(statements_attr(old(p)@, key@, value@), old(p)@, final(p)@, r),
{
    reveal(statements_attr);
    reveal(crate::ast::statement_props_model);
    let chars = chars_of(value);
    let v = chars.as_slice();
    if is(key, "hiddenGroupRef") {
        p.hidden_group_ref = Some(owned(value));
    } else if is(key, "parseUnparsePolicy") {
        match read_parse_unparse_policy(trim(v)) {
            Some(x) => {
                p.parse_unparse_policy = Some(x);
            },
            None => {
                return Err(unknown("parseUnparsePolicy", string_of(trim(v)).as_str()));
            },
        }
    } else if is(key, "ref") {
        p.format_ref = Some(owned(value));
    } else {
        return Ok(false);
    }
    Ok(true)
}

/// No attribute of the group has a name that begins with `z`.
pub proof fn lemma_not_named(p: StatementPropsModel, key: Seq<char>, value: Seq<char>)
    requires
        key.len() > 0,
        key[0] == 'z',
    ensures
        statements_attr(p, key, value) is None,
{
    reveal(statements_attr);
    reveal_strlit("hiddenGroupRef");
    reveal_strlit("parseUnparsePolicy");
    reveal_strlit("ref");
}

} // verus!
