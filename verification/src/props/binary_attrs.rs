//! Attributes of [`BinaryProps`].

use vstd::prelude::*;
use crate::ast::{BinaryFloatRep, BinaryNumberCheckPolicy, BinaryNumberRep, BinaryProps, BinaryPropsModel};
use crate::numbers;
use crate::error::{Error, ErrorModel};
use crate::numbers::{parse_i32, parse_u64};
use crate::props;
use crate::props::{invalid, is_truthy, unknown};
use crate::text::{chars_of, is};
use crate::values::owned;

verus! {

/// The value of the property that `value` names.
pub open spec fn binary_number_check_policy_value(value: Seq<char>) -> Option<BinaryNumberCheckPolicy> {
    if value == "strict"@ {
        Some(BinaryNumberCheckPolicy::Strict)
    } else if value == "lax"@ {
        Some(BinaryNumberCheckPolicy::Lax)
    } else {
        None
    }
}

/// Reads the value of a property.
fn read_binary_number_check_policy(value: &[char]) -> (r: Option<BinaryNumberCheckPolicy>)
    ensures
        r == binary_number_check_policy_value(value@),
{
    if is(value, "strict") {
        Some(BinaryNumberCheckPolicy::Strict)
    } else if is(value, "lax") {
        Some(BinaryNumberCheckPolicy::Lax)
    } else {
        None
    }
}

/// The value of the property that `value` names.
pub open spec fn binary_rep_value(value: Seq<char>) -> Option<BinaryNumberRep> {
    if value == "binary"@ {
        Some(BinaryNumberRep::Binary)
    } else if value == "bcd"@ {
        Some(BinaryNumberRep::Bcd)
    } else if value == "packed"@ || value == "packedBCD"@ {
        Some(BinaryNumberRep::PackedBcd)
    } else if value == "ibm4690Packed"@ || value == "ibm4690"@ {
        Some(BinaryNumberRep::Ibm4690Packed)
    } else if value == "binarySeconds"@ {
        Some(BinaryNumberRep::BinarySeconds)
    } else if value == "binaryMilliseconds"@ {
        Some(BinaryNumberRep::BinaryMilliseconds)
    } else {
        None
    }
}

/// Reads the value of a property.
fn read_binary_rep(value: &[char]) -> (r: Option<BinaryNumberRep>)
    ensures
        r == binary_rep_value(value@),
{
    if is(value, "binary") {
        Some(BinaryNumberRep::Binary)
    } else if is(value, "bcd") {
        Some(BinaryNumberRep::Bcd)
    } else if is(value, "packed") || is(value, "packedBCD") {
        Some(BinaryNumberRep::PackedBcd)
    } else if is(value, "ibm4690Packed") || is(value, "ibm4690") {
        Some(BinaryNumberRep::Ibm4690Packed)
    } else if is(value, "binarySeconds") {
        Some(BinaryNumberRep::BinarySeconds)
    } else if is(value, "binaryMilliseconds") {
        Some(BinaryNumberRep::BinaryMilliseconds)
    } else {
        None
    }
}

/// The value of the property that `value` names.
pub open spec fn binary_float_rep_value(value: Seq<char>) -> Option<BinaryFloatRep> {
    if value == "ieee"@ {
        Some(BinaryFloatRep::Ieee)
    } else {
        None
    }
}

/// Reads the value of a property.
fn read_binary_float_rep(value: &[char]) -> (r: Option<BinaryFloatRep>)
    ensures
        r == binary_float_rep_value(value@),
{
    if is(value, "ieee") {
        Some(BinaryFloatRep::Ieee)
    } else {
        None
    }
}

/// What the attribute `key` with this value does to [`BinaryProps`], if it is one of
/// them.
#[verifier::opaque]
pub open spec fn binary_attr(p: BinaryPropsModel, key: Seq<char>, value: Seq<char>) -> Option<
    Result<BinaryPropsModel, ErrorModel>,
> {
    if key == "binaryPackedSignCodes"@ {
        Some(
            Ok(BinaryPropsModel { binary_packed_sign_codes: Some(value), binary_packed_sign_codes_defined: true, ..p }),
        )
    } else if key == "binaryNumberCheckPolicy"@ {
        Some(
            match binary_number_check_policy_value(value) {
                Some(x) => Ok(BinaryPropsModel { binary_number_check_policy: Some(x), ..p }),
                None => Err(props::unknown_spec("binaryNumberCheckPolicy"@, value)),
            },
        )
    } else if key == "binaryCalendarEpoch"@ {
        Some(Ok(BinaryPropsModel { binary_calendar_epoch: Some(value), ..p }))
    } else if key == "binaryNumberRep"@ {
        Some(
            match binary_rep_value(value) {
                Some(x) => if x == BinaryNumberRep::BinarySeconds || x
                    == BinaryNumberRep::BinaryMilliseconds {
                    Err(props::unknown_spec("binary number/calendar rep"@, value))
                } else {
                    Ok(BinaryPropsModel { binary_number_rep: Some(x), ..p })
                },
                None => Err(props::unknown_spec("binary number/calendar rep"@, value)),
            },
        )
    } else if key == "binaryCalendarRep"@ {
        Some(
            match binary_rep_value(value) {
                Some(x) => Ok(BinaryPropsModel { binary_calendar_rep: Some(x), ..p }),
                None => Err(props::unknown_spec("binary number/calendar rep"@, value)),
            },
        )
    } else if key == "binaryFloatRep"@ {
        Some(
            match binary_float_rep_value(value) {
                Some(x) => Ok(BinaryPropsModel { binary_float_rep: Some(x), ..p }),
                None => Err(props::unknown_spec("binaryFloatRep"@, value)),
            },
        )
    } else if key == "binaryDecimalVirtualPoint"@ {
        Some(
            match numbers::i32_spec(value) {
                Some(n) => if n < 0 {
                    Ok(BinaryPropsModel { binary_decimal_virtual_point_sde: Some(n), ..p })
                } else {
                    Ok(BinaryPropsModel { binary_decimal_virtual_point: Some(n as u32), ..p })
                },
                None => Err(props::invalid_spec("binaryDecimalVirtualPoint"@, value)),
            },
        )
    } else if key == "decimalSigned"@ {
        Some(Ok(BinaryPropsModel { decimal_signed: Some(props::truthy(value)), ..p }))
    } else if key == "binaryBooleanTrueRep"@ {
        Some(
            if value.len() == 0 {
                Ok(BinaryPropsModel { binary_boolean_true_rep: None, binary_boolean_true_rep_defined: true, ..p })
            } else {
                match numbers::u64_spec(value) {
                    Some(n) => Ok(BinaryPropsModel { binary_boolean_true_rep: Some(n), binary_boolean_true_rep_defined: true, ..p }),
                    None => Err(props::invalid_spec("binaryBooleanTrueRep"@, value)),
                }
            },
        )
    } else if key == "binaryBooleanFalseRep"@ {
        Some(
            if value.len() == 0 {
                Ok(BinaryPropsModel { binary_boolean_false_rep: None, binary_boolean_false_rep_defined: true, ..p })
            } else {
                match numbers::u64_spec(value) {
                    Some(n) => Ok(BinaryPropsModel { binary_boolean_false_rep: Some(n), binary_boolean_false_rep_defined: true, ..p }),
                    None => Err(props::invalid_spec("binaryBooleanFalseRep"@, value)),
                }
            },
        )
    } else {
        None
    }
}

/// Applies the attribute `key` to [`BinaryProps`], if it is one of them.
pub fn set_binary(p: &mut BinaryProps, key: &[char], value: &str) -> (r: Result<bool, Error>)
    ensures
        props::applied(binary_attr(old(p)@, key@, value@), old(p)@, final(p)@, r),
{
    reveal(binary_attr);
    reveal(crate::ast::binary_props_model);
    let chars = chars_of(value);
    let v = chars.as_slice();
    if is(key, "binaryPackedSignCodes") {
        p.binary_packed_sign_codes_defined = true;
        p.binary_packed_sign_codes = Some(owned(value));
    } else if is(key, "binaryNumberCheckPolicy") {
        match read_binary_number_check_policy(v) {
            Some(x) => {
                p.binary_number_check_policy = Some(x);
            },
            None => {
                return Err(unknown("binaryNumberCheckPolicy", value));
            },
        }
    } else if is(key, "binaryCalendarEpoch") {
        p.binary_calendar_epoch = Some(owned(value));
    } else if is(key, "binaryNumberRep") {
        match read_binary_rep(v) {
            Some(x) => {
                if x == BinaryNumberRep::BinarySeconds || x == BinaryNumberRep::BinaryMilliseconds {
                    return Err(unknown("binary number/calendar rep", value));
                }
                p.binary_number_rep = Some(x);
            },
            None => {
                return Err(unknown("binary number/calendar rep", value));
            },
        }
    } else if is(key, "binaryCalendarRep") {
        match read_binary_rep(v) {
            Some(x) => {
                p.binary_calendar_rep = Some(x);
            },
            None => {
                return Err(unknown("binary number/calendar rep", value));
            },
        }
    } else if is(key, "binaryFloatRep") {
        match read_binary_float_rep(v) {
            Some(x) => {
                p.binary_float_rep = Some(x);
            },
            None => {
                return Err(unknown("binaryFloatRep", value));
            },
        }
    } else if is(key, "binaryDecimalVirtualPoint") {
        match parse_i32(v) {
            Some(n) => if n < 0 {
                p.binary_decimal_virtual_point_sde = Some(n);
            } else {
                p.binary_decimal_virtual_point = Some(n as u32);
            },
            None => {
                return Err(invalid("binaryDecimalVirtualPoint", value));
            },
        }
    } else if is(key, "decimalSigned") {
        p.decimal_signed = Some(is_truthy(v));
    } else if is(key, "binaryBooleanTrueRep") {
        p.binary_boolean_true_rep_defined = true;
        if v.len() == 0 {
            p.binary_boolean_true_rep = None;
        } else {
            match parse_u64(v) {
                Some(n) => {
                    p.binary_boolean_true_rep = Some(n);
                },
                None => {
                    return Err(invalid("binaryBooleanTrueRep", value));
                },
            }
        }
    } else if is(key, "binaryBooleanFalseRep") {
        p.binary_boolean_false_rep_defined = true;
        if v.len() == 0 {
            p.binary_boolean_false_rep = None;
        } else {
            match parse_u64(v) {
                Some(n) => {
                    p.binary_boolean_false_rep = Some(n);
                },
                None => {
                    return Err(invalid("binaryBooleanFalseRep", value));
                },
            }
        }
    } else {
        return Ok(false);
    }
    Ok(true)
}

/// No attribute of the group has a name that begins with `z`.
pub proof fn lemma_not_named(p: BinaryPropsModel, key: Seq<char>, value: Seq<char>)
    requires
        key.len() > 0,
        key[0] == 'z',
    ensures
        binary_attr(p, key, value) is None,
{
    reveal(binary_attr);
    reveal_strlit("binaryPackedSignCodes");
    reveal_strlit("binaryNumberCheckPolicy");
    reveal_strlit("binaryCalendarEpoch");
    reveal_strlit("binaryNumberRep");
    reveal_strlit("binaryCalendarRep");
    reveal_strlit("binaryFloatRep");
    reveal_strlit("binaryDecimalVirtualPoint");
    reveal_strlit("decimalSigned");
    reveal_strlit("binaryBooleanTrueRep");
    reveal_strlit("binaryBooleanFalseRep");
}

} // verus!
