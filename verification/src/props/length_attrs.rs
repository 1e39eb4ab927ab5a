//! Attributes of [`LengthProps`].

use vstd::prelude::*;
use crate::ast::{LengthKind, LengthProps, LengthPropsModel, LengthUnits, TypeName};
use crate::computed;
use crate::numbers;
use crate::text;
use crate::error::{Error, ErrorModel};
use crate::numbers::{parse_u64};
use crate::props;
use crate::props::{invalid, unknown};
use crate::strmap::StrMap;
use crate::text::{chars_of, contains, is, last_piece, starts_with, string_of, trim};
use crate::values::owned;

verus! {

/// What a `length` attribute does: a number, a constant expression, the length
/// from a sibling or a variable, the length of the value itself; another
/// expression in braces is put off.
pub open spec fn length_effect(
    p: LengthPropsModel,
    value: Seq<char>,
    vars: Option<Seq<(Seq<char>, Seq<char>)>>,
) -> Result<LengthPropsModel, ErrorModel> {
    let opened = text::has_prefix(text::trim_spec(value), "{"@);
    let q = LengthPropsModel { length_expr_unparsed: p.length_expr_unparsed || opened, ..p };
    let from_vars = match vars {
        Some(m) => computed::variable_length(value, m),
        None => None,
    };
    if numbers::u64_spec(value) is Some {
        Ok(LengthPropsModel { length: numbers::u64_spec(value), ..q })
    } else if computed::constant_length(value) is Some {
        Ok(LengthPropsModel { length: computed::constant_length(value), ..q })
    } else if computed::sibling_length(value) is Some {
        let (sibling, cast_long, adjust) = computed::sibling_length(value)->0;
        Ok(
            LengthPropsModel {
                length_sibling: Some(sibling),
                length_sibling_cast_long: cast_long,
                length_sibling_adjust: adjust,
                ..q
            },
        )
    } else if from_vars is Some {
        Ok(LengthPropsModel { length: from_vars, ..q })
    } else if computed::self_length_cap(value) is Some {
        Ok(LengthPropsModel { length_self_string_max_cap: computed::self_length_cap(value), ..q })
    } else if text::contains_spec(value, "dfdl:valueLength(."@) || text::contains_spec(
        value,
        "dfdl:valueLength( ."@,
    ) {
        Ok(LengthPropsModel { length_self_value_length: true, ..q })
    } else if opened {
        Ok(q)
    } else {
        Err(props::invalid_spec("length"@, value))
    }
}

/// Applies a `length` attribute.
fn set_length_value(p: &mut LengthProps, value: &str, vars: Option<&StrMap<String>>) -> (r: Result<
    bool,
    Error,
>)
    ensures
        match length_effect(old(p)@, value@, props::vars_view(vars)) {
            Ok(m) => r == Ok::<bool, Error>(true) && final(p)@ == m,
            Err(e) => r matches Err(x) && x@ == e,
        },
{
    reveal(crate::ast::length_props_model);
    let chars = chars_of(value);
    let v = chars.as_slice();
    let opened: bool = starts_with(trim(v), "{");
    if opened {
        p.length_expr_unparsed = true;
    }
    if let Some(n) = parse_u64(v) {
        p.length = Some(n);
        return Ok(true);
    }
    if let Some(n) = computed::parse_constant_length_expr(value) {
        p.length = Some(n);
        return Ok(true);
    }
    if let Some((sibling, cast_long, adjust)) = computed::parse_sibling_length_expr(value) {
        p.length_sibling = Some(sibling);
        p.length_sibling_cast_long = cast_long;
        p.length_sibling_adjust = adjust;
        return Ok(true);
    }
    let from_vars: Option<u64> = match vars {
        Some(m) => computed::parse_variable_length_expr(value, m),
        None => None,
    };
    if from_vars.is_some() {
        p.length = from_vars;
        return Ok(true);
    }
    if let Some(cap) = computed::parse_self_string_length_max_expr(value) {
        p.length_self_string_max_cap = Some(cap);
        return Ok(true);
    }
    if contains(v, "dfdl:valueLength(.") || contains(v, "dfdl:valueLength( .") {
        p.length_self_value_length = true;
        return Ok(true);
    }
    if opened {
        return Ok(true);
    }
    Err(invalid("length", value))
}

/// The value of the property that `value` names.
pub open spec fn length_kind_value(value: Seq<char>) -> Option<LengthKind> {
    if value == "implicit"@ {
        Some(LengthKind::Implicit)
    } else if value == "explicit"@ {
        Some(LengthKind::Explicit)
    } else if value == "fixed"@ {
        Some(LengthKind::Fixed)
    } else if value == "delimited"@ {
        Some(LengthKind::Delimited)
    } else if value == "prefixed"@ {
        Some(LengthKind::Prefixed)
    } else if value == "pattern"@ {
        Some(LengthKind::Pattern)
    } else if value == "endOfParent"@ {
        Some(LengthKind::EndOfParent)
    } else {
        None
    }
}

/// Reads the value of a property.
fn read_length_kind(value: &[char]) -> (r: Option<LengthKind>)
    ensures
        r == length_kind_value(value@),
{
    if is(value, "implicit") {
        Some(LengthKind::Implicit)
    } else if is(value, "explicit") {
        Some(LengthKind::Explicit)
    } else if is(value, "fixed") {
        Some(LengthKind::Fixed)
    } else if is(value, "delimited") {
        Some(LengthKind::Delimited)
    } else if is(value, "prefixed") {
        Some(LengthKind::Prefixed)
    } else if is(value, "pattern") {
        Some(LengthKind::Pattern)
    } else if is(value, "endOfParent") {
        Some(LengthKind::EndOfParent)
    } else {
        None
    }
}

/// The value of the property that `value` names.
pub open spec fn length_units_value(value: Seq<char>) -> Option<LengthUnits> {
    if value == "bytes"@ {
        Some(LengthUnits::Bytes)
    } else if value == "bits"@ {
        Some(LengthUnits::Bits)
    } else if value == "characters"@ {
        Some(LengthUnits::Characters)
    } else {
        None
    }
}

/// Reads the value of a property.
fn read_length_units(value: &[char]) -> (r: Option<LengthUnits>)
    ensures
        r == length_units_value(value@),
{
    if is(value, "bytes") {
        Some(LengthUnits::Bytes)
    } else if is(value, "bits") {
        Some(LengthUnits::Bits)
    } else if is(value, "characters") {
        Some(LengthUnits::Characters)
    } else {
        None
    }
}

/// The value of the property that `value` names.
pub open spec fn prefix_includes_prefix_length_value(value: Seq<char>) -> Option<bool> {
    if value == "yes"@ {
        Some(true)
    } else if value == "no"@ {
        Some(false)
    } else {
        None
    }
}

/// Reads the value of a property.
fn read_prefix_includes_prefix_length(value: &[char]) -> (r: Option<bool>)
    ensures
        r == prefix_includes_prefix_length_value(value@),
{
    if is(value, "yes") {
        Some(true)
    } else if is(value, "no") {
        Some(false)
    } else {
        None
    }
}

/// What the attribute `key` with this value does to [`LengthProps`], if it is one of
/// them.
#[verifier::opaque]
pub open spec fn length_attr(p: LengthPropsModel, key: Seq<char>, value: Seq<char>, vars: Option<Seq<(Seq<char>, Seq<char>)>>) -> Option<
    Result<LengthPropsModel, ErrorModel>,
> {
    if key == "lengthKind"@ {
        Some(
            match length_kind_value(value) {
                Some(x) => Ok(LengthPropsModel { length_kind: Some(x), length_kind_defined: true, ..p }),
                None => Err(props::unknown_spec("lengthKind"@, value)),
            },
        )
    } else if key == "lengthPattern"@ {
        Some(Ok(LengthPropsModel { length_pattern: Some(value), ..p }))
    } else if key == "length"@ {
        Some(
            length_effect(p, value, vars),
        )
    } else if key == "lengthUnits"@ {
        Some(
            match length_units_value(value) {
                Some(x) => Ok(LengthPropsModel { length_units: Some(x), ..p }),
                None => Err(props::unknown_spec("lengthUnits"@, value)),
            },
        )
    } else if key == "prefixLengthType"@ {
        Some(
            Ok(LengthPropsModel { prefix_length_type: Some(text::after_last(value, ':')), ..p }),
        )
    } else if key == "prefixIncludesPrefixLength"@ {
        Some(
            match prefix_includes_prefix_length_value(value) {
                Some(x) => Ok(LengthPropsModel { prefix_includes_prefix_length: Some(x), ..p }),
                None => Err(props::unknown_spec("prefixIncludesPrefixLength"@, value)),
            },
        )
    } else {
        None
    }
}

/// Applies the attribute `key` to [`LengthProps`], if it is one of them.
pub fn set_length(p: &mut LengthProps, key: &[char], value: &str, vars: Option<&StrMap<String>>) -> (r: Result<bool, Error>)
    ensures
        props::applied(length_attr(old(p)@, key@, value@, props::vars_view(vars)), old(p)@, final(p)@, r),
{
    reveal(length_attr);
    reveal(crate::ast::length_props_model);
    let chars = chars_of(value);
    let v = chars.as_slice();
    if is(key, "lengthKind") {
        match read_length_kind(v) {
            Some(x) => {
                p.length_kind_defined = true;
                p.length_kind = Some(x);
            },
            None => {
                return Err(unknown("lengthKind", value));
            },
        }
    } else if is(key, "lengthPattern") {
        p.length_pattern = Some(owned(value));
    } else if is(key, "length") {
        return set_length_value(p, value, vars);
    } else if is(key, "lengthUnits") {
        match read_length_units(v) {
            Some(x) => {
                p.length_units = Some(x);
            },
            None => {
                return Err(unknown("lengthUnits", value));
            },
        }
    } else if is(key, "prefixLengthType") {
        p.prefix_length_type = Some(TypeName(string_of(last_piece(v, ':'))));
    } else if is(key, "prefixIncludesPrefixLength") {
        match read_prefix_includes_prefix_length(v) {
            Some(x) => {
                p.prefix_includes_prefix_length = Some(x);
            },
            None => {
                return Err(unknown("prefixIncludesPrefixLength", value));
            },
        }
    } else {
        return Ok(false);
    }
    Ok(true)
}

/// No attribute of the group has a name that begins with `z`.
pub proof fn lemma_not_named(p: LengthPropsModel, key: Seq<char>, value: Seq<char>, vars: Option<Seq<(Seq<char>, Seq<char>)>>)
    requires
        key.len() > 0,
        key[0] == 'z',
    ensures
        length_attr(p, key, value, vars) is None,
{
    reveal(length_attr);
    reveal_strlit("lengthKind");
    reveal_strlit("lengthPattern");
    reveal_strlit("length");
    reveal_strlit("lengthUnits");
    reveal_strlit("prefixLengthType");
    reveal_strlit("prefixIncludesPrefixLength");
}

} // verus!
