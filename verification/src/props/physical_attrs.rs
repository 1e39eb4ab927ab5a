//! Attributes of [`PhysicalProps`].

use vstd::prelude::*;
use crate::ast::{BitOrder, ByteOrder, EncodingErrorPolicy, LengthUnits, ObjectKind, PhysicalProps, PhysicalPropsModel, Representation};
use crate::computed;
use crate::entities;
use crate::expr;
use crate::numbers;
use crate::text;
use crate::error::{Error, ErrorModel};
use crate::numbers::{parse_u64};
use crate::props;
use crate::props::{invalid, unknown};
use crate::text::{chars_of, is, string_of, trim};
use crate::values::owned;

verus! {

/// The value of the property that `value` names.
pub open spec fn representation_value(value: Seq<char>) -> Option<Representation> {
    if value == "binary"@ {
        Some(Representation::Binary)
    } else if value == "text"@ {
        Some(Representation::Text)
    } else {
        None
    }
}

/// Reads the value of a property.
fn read_representation(value: &[char]) -> (r: Option<Representation>)
    ensures
        r == representation_value(value@),
{
    if is(value, "binary") {
        Some(Representation::Binary)
    } else if is(value, "text") {
        Some(Representation::Text)
    } else {
        None
    }
}

/// The value of the property that `value` names.
pub open spec fn byte_order_value(value: Seq<char>) -> Option<ByteOrder> {
    if value == "bigEndian"@ {
        Some(ByteOrder::BigEndian)
    } else if value == "littleEndian"@ {
        Some(ByteOrder::LittleEndian)
    } else {
        None
    }
}

/// Reads the value of a property.
fn read_byte_order(value: &[char]) -> (r: Option<ByteOrder>)
    ensures
        r == byte_order_value(value@),
{
    if is(value, "bigEndian") {
        Some(ByteOrder::BigEndian)
    } else if is(value, "littleEndian") {
        Some(ByteOrder::LittleEndian)
    } else {
        None
    }
}

/// The value of the property that `value` names.
pub open spec fn bit_order_value(value: Seq<char>) -> Option<BitOrder> {
    if value == "mostSignificantBitFirst"@ {
        Some(BitOrder::MostSignificantBitFirst)
    } else if value == "leastSignificantBitFirst"@ {
        Some(BitOrder::LeastSignificantBitFirst)
    } else {
        None
    }
}

/// Reads the value of a property.
fn read_bit_order(value: &[char]) -> (r: Option<BitOrder>)
    ensures
        r == bit_order_value(value@),
{
    if is(value, "mostSignificantBitFirst") {
        Some(BitOrder::MostSignificantBitFirst)
    } else if is(value, "leastSignificantBitFirst") {
        Some(BitOrder::LeastSignificantBitFirst)
    } else {
        None
    }
}

/// The value of the property that `value` names.
pub open spec fn encoding_error_policy_value(value: Seq<char>) -> Option<EncodingErrorPolicy> {
    if value == "error"@ {
        Some(EncodingErrorPolicy::Error)
    } else if value == "replace"@ {
        Some(EncodingErrorPolicy::Replace)
    } else {
        None
    }
}

/// Reads the value of a property.
fn read_encoding_error_policy(value: &[char]) -> (r: Option<EncodingErrorPolicy>)
    ensures
        r == encoding_error_policy_value(value@),
{
    if is(value, "error") {
        Some(EncodingErrorPolicy::Error)
    } else if is(value, "replace") {
        Some(EncodingErrorPolicy::Replace)
    } else {
        None
    }
}

/// The value of the property that `value` names.
pub open spec fn ignore_case_value(value: Seq<char>) -> Option<bool> {
    if value == "yes"@ {
        Some(true)
    } else if value == "no"@ {
        Some(false)
    } else {
        None
    }
}

/// Reads the value of a property.
fn read_ignore_case(value: &[char]) -> (r: Option<bool>)
    ensures
        r == ignore_case_value(value@),
{
    if is(value, "yes") {
        Some(true)
    } else if is(value, "no") {
        Some(false)
    } else {
        None
    }
}

/// The value of the property that `value` names.
pub open spec fn object_kind_value(value: Seq<char>) -> Option<ObjectKind> {
    if value == "bytes"@ {
        Some(ObjectKind::Bytes)
    } else if value == "chars"@ {
        Some(ObjectKind::Chars)
    } else {
        None
    }
}

/// Reads the value of a property.
fn read_object_kind(value: &[char]) -> (r: Option<ObjectKind>)
    ensures
        r == object_kind_value(value@),
{
    if is(value, "bytes") {
        Some(ObjectKind::Bytes)
    } else if is(value, "chars") {
        Some(ObjectKind::Chars)
    } else {
        None
    }
}

/// The value of the property that `value` names.
pub open spec fn alignment_units_value(value: Seq<char>) -> Option<LengthUnits> {
    if value == "bytes"@ {
        Some(LengthUnits::Bytes)
    } else if value == "bits"@ {
        Some(LengthUnits::Bits)
    } else if value == "characters"@ {
        Some(LengthUnits::Characters)
    } else {
        None
    }
}

/// Reads the value of a property.
fn read_alignment_units(value: &[char]) -> (r: Option<LengthUnits>)
    ensures
        r == alignment_units_value(value@),
{
    if is(value, "bytes") {
        Some(LengthUnits::Bytes)
    } else if is(value, "bits") {
        Some(LengthUnits::Bits)
    } else if is(value, "characters") {
        Some(LengthUnits::Characters)
    } else {
        None
    }
}

/// What the attribute `key` with this value does to [`PhysicalProps`], if it is one of
/// them.
#[verifier::opaque]
pub open spec fn physical_attr(p: PhysicalPropsModel, key: Seq<char>, value: Seq<char>) -> Option<
    Result<PhysicalPropsModel, ErrorModel>,
> {
    if key == "representation"@ {
        Some(
            match representation_value(value) {
                Some(x) => Ok(PhysicalPropsModel { representation: Some(x), ..p }),
                None => Err(props::unknown_spec("representation"@, value)),
            },
        )
    } else if key == "byteOrder"@ {
        Some(
            match computed::byte_order_if(value) {
                Some((test, t, f)) => Ok(PhysicalPropsModel {
                    byte_order_conditional_test: Some(test),
                    byte_order_if_true: Some(t),
                    byte_order_if_false: Some(f),
                    ..p
                }),
                None => if expr::braced(value) is Some {
                    Ok(PhysicalPropsModel {
                        byte_order_conditional_test: Some(text::trim_spec(value)),
                        ..p
                    })
                } else {
                    match byte_order_value(value) {
                        Some(x) => Ok(PhysicalPropsModel { byte_order: Some(x), ..p }),
                        None => Err(props::unknown_spec("byteOrder"@, value)),
                    }
                },
            },
        )
    } else if key == "bitOrder"@ {
        Some(
            match bit_order_value(value) {
                Some(x) => Ok(PhysicalPropsModel { bit_order: Some(x), ..p }),
                None => Err(props::unknown_spec("bitOrder"@, value)),
            },
        )
    } else if key == "encoding"@ {
        Some(Ok(PhysicalPropsModel { encoding: Some(value), ..p }))
    } else if key == "encodingErrorPolicy"@ {
        Some(
            match encoding_error_policy_value(value) {
                Some(x) => Ok(PhysicalPropsModel { encoding_error_policy: Some(x), encoding_error_policy_defined: true, ..p }),
                None => Err(props::unknown_spec("encodingErrorPolicy"@, value)),
            },
        )
    } else if key == "ignoreCase"@ {
        Some(
            match ignore_case_value(value) {
                Some(x) => Ok(PhysicalPropsModel { ignore_case: Some(x), ..p }),
                None => Err(props::unknown_spec("ignoreCase"@, value)),
            },
        )
    } else if key == "objectKind"@ {
        Some(
            match object_kind_value(value) {
                Some(x) => Ok(PhysicalPropsModel { object_kind: Some(x), ..p }),
                None => Err(props::unknown_spec("objectKind"@, value)),
            },
        )
    } else if key == "alignment"@ {
        Some(
            if value == "implicit"@ {
                Ok(PhysicalPropsModel { alignment_implicit: Some(true), ..p })
            } else {
                match numbers::u64_spec(value) {
                    Some(n) => Ok(PhysicalPropsModel {
                        alignment: Some(n),
                        alignment_implicit: Some(false),
                        ..p
                    }),
                    None => Err(props::invalid_spec("alignment"@, value)),
                }
            },
        )
    } else if key == "alignmentUnits"@ {
        Some(
            match alignment_units_value(value) {
                Some(x) => Ok(PhysicalPropsModel { alignment_units: Some(x), ..p }),
                None => Err(props::unknown_spec("alignmentUnits"@, value)),
            },
        )
    } else if key == "leadingSkip"@ {
        Some(
            match numbers::u64_spec(value) {
                Some(n) => Ok(PhysicalPropsModel { leading_skip: Some(n), ..p }),
                None => Err(props::invalid_spec("leadingSkip"@, value)),
            },
        )
    } else if key == "trailingSkip"@ {
        Some(
            match numbers::u64_spec(value) {
                Some(n) => Ok(PhysicalPropsModel { trailing_skip: Some(n), ..p }),
                None => Err(props::invalid_spec("trailingSkip"@, value)),
            },
        )
    } else if key == "fillByte"@ {
        Some(
            Ok(PhysicalPropsModel {
                fill_byte_raw: Some(value),
                fill_byte: Some(vstd::utf8::encode_utf8(entities::expanded(value))),
                ..p
            }),
        )
    } else {
        None
    }
}

/// Applies the attribute `key` to [`PhysicalProps`], if it is one of them.
pub fn set_physical(p: &mut PhysicalProps, key: &[char], value: &str) -> (r: Result<bool, Error>)
    ensures
        props::applied(physical_attr(old(p)@, key@, value@), old(p)@, final(p)@, r),
{
    reveal(physical_attr);
    reveal(crate::ast::physical_props_model);
    let chars = chars_of(value);
    let v = chars.as_slice();
    if is(key, "representation") {
        match read_representation(v) {
            Some(x) => {
                p.representation = Some(x);
            },
            None => {
                return Err(unknown("representation", value));
            },
        }
    } else if is(key, "byteOrder") {
        match computed::parse_byte_order_if_expr(value) {
            Some((test, t, f)) => {
                p.byte_order_conditional_test = Some(test);
                p.byte_order_if_true = Some(t);
                p.byte_order_if_false = Some(f);
            },
            None => if expr::between_braces(v).is_some() {
                p.byte_order_conditional_test = Some(string_of(trim(v)));
            } else {
                match read_byte_order(v) {
                    Some(x) => {
                        p.byte_order = Some(x);
                    },
                    None => {
                        return Err(unknown("byteOrder", value));
                    },
                }
            },
        }
    } else if is(key, "bitOrder") {
        match read_bit_order(v) {
            Some(x) => {
                p.bit_order = Some(x);
            },
            None => {
                return Err(unknown("bitOrder", value));
            },
        }
    } else if is(key, "encoding") {
        p.encoding = Some(owned(value));
    } else if is(key, "encodingErrorPolicy") {
        match read_encoding_error_policy(v) {
            Some(x) => {
                p.encoding_error_policy_defined = true;
                p.encoding_error_policy = Some(x);
            },
            None => {
                return Err(unknown("encodingErrorPolicy", value));
            },
        }
    } else if is(key, "ignoreCase") {
        match read_ignore_case(v) {
            Some(x) => {
                p.ignore_case = Some(x);
            },
            None => {
                return Err(unknown("ignoreCase", value));
            },
        }
    } else if is(key, "objectKind") {
        match read_object_kind(v) {
            Some(x) => {
                p.object_kind = Some(x);
            },
            None => {
                return Err(unknown("objectKind", value));
            },
        }
    } else if is(key, "alignment") {
        if is(v, "implicit") {
            p.alignment_implicit = Some(true);
        } else {
            match parse_u64(v) {
                Some(n) => {
                    p.alignment = Some(n);
                    p.alignment_implicit = Some(false);
                },
                None => {
                    return Err(invalid("alignment", value));
                },
            }
        }
    } else if is(key, "alignmentUnits") {
        match read_alignment_units(v) {
            Some(x) => {
                p.alignment_units = Some(x);
            },
            None => {
                return Err(unknown("alignmentUnits", value));
            },
        }
    } else if is(key, "leadingSkip") {
        match parse_u64(v) {
            Some(n) => {
                p.leading_skip = Some(n);
            },
            None => {
                return Err(invalid("leadingSkip", value));
            },
        }
    } else if is(key, "trailingSkip") {
        match parse_u64(v) {
            Some(n) => {
                p.trailing_skip = Some(n);
            },
            None => {
                return Err(invalid("trailingSkip", value));
            },
        }
    } else if is(key, "fillByte") {
        p.fill_byte_raw = Some(owned(value));
        let bytes = entities::expand_entities(value);
        assert(bytes.deep_view() =~= bytes@);
        p.fill_byte = Some(bytes);
    } else {
        return Ok(false);
    }
    Ok(true)
}

/// No attribute of the group has a name that begins with `z`.
pub proof fn lemma_not_named(p: PhysicalPropsModel, key: Seq<char>, value: Seq<char>)
    requires
        key.len() > 0,
        key[0] == 'z',
    ensures
        physical_attr(p, key, value) is None,
{
    reveal(physical_attr);
    reveal_strlit("representation");
    reveal_strlit("byteOrder");
    reveal_strlit("bitOrder");
    reveal_strlit("encoding");
    reveal_strlit("encodingErrorPolicy");
    reveal_strlit("ignoreCase");
    reveal_strlit("objectKind");
    reveal_strlit("alignment");
    reveal_strlit("alignmentUnits");
    reveal_strlit("leadingSkip");
    reveal_strlit("trailingSkip");
    reveal_strlit("fillByte");
}

} // verus!
