//! Laying one set of DFDL properties over another.

use vstd::prelude::*;
use crate::ast::{
    PhysicalProps, PhysicalPropsModel,
    LengthProps, LengthPropsModel,
    TextProps, TextPropsModel,
    NumberProps, NumberPropsModel,
    BinaryProps, BinaryPropsModel,
    CalendarProps, CalendarPropsModel,
    DelimiterProps, DelimiterPropsModel,
    OccursProps, OccursPropsModel,
    ChoiceProps, ChoicePropsModel,
    CalcProps, CalcPropsModel,
    StatementProps, StatementPropsModel,
    DfdlProps, DfdlPropsModel,
};

verus! {

/// What is stated in `overlay`, else what is stated in `base`.
pub open spec fn over_spec<T>(base: Option<T>, overlay: Option<T>) -> Option<T> {
    if overlay is Some {
        overlay
    } else {
        base
    }
}

/// What is stated in `overlay`, else what is stated in `base`.
fn over<T>(base: Option<T>, overlay: Option<T>) -> (r: Option<T>)
    ensures
        r == over_spec(base, overlay),
{
    if overlay.is_some() {
        overlay
    } else {
        base
    }
}

/// One of two values.
fn pick<T>(second: bool, a: T, b: T) -> (r: T)
    ensures
        r == if second {
            b
        } else {
            a
        },
{
    if second {
        b
    } else {
        a
    }
}

/// The items of `a`, then those of `b`.
fn extended(a: Vec<(String, String)>, b: Vec<(String, String)>) -> (r: Vec<(String, String)>)
    ensures
        r.deep_view() == a.deep_view() + b.deep_view(),
{
    let mut a = a;
    let mut b = b;
    let ghost before = a.deep_view();
    let ghost behind = b.deep_view();
    a.append(&mut b);
    assert(a.deep_view() =~= before + behind);
    a
}

/// [`PhysicalProps`] laid over others.
pub open spec fn merge_physical_props_spec(base: PhysicalPropsModel, overlay: PhysicalPropsModel) -> PhysicalPropsModel {
    PhysicalPropsModel {
        representation: over_spec(base.representation, overlay.representation),
        byte_order: over_spec(base.byte_order, overlay.byte_order),
        byte_order_conditional_test: over_spec(base.byte_order_conditional_test, overlay.byte_order_conditional_test),
        byte_order_if_true: if overlay.byte_order_conditional_test is Some {
            overlay.byte_order_if_true
        } else {
            base.byte_order_if_true
        },
        byte_order_if_false: if overlay.byte_order_conditional_test is Some {
            overlay.byte_order_if_false
        } else {
            base.byte_order_if_false
        },
        bit_order: over_spec(base.bit_order, overlay.bit_order),
        encoding: over_spec(base.encoding, overlay.encoding),
        encoding_error_policy: over_spec(base.encoding_error_policy, overlay.encoding_error_policy),
        encoding_error_policy_defined: overlay.encoding_error_policy_defined || base.encoding_error_policy_defined,
        fill_byte: over_spec(base.fill_byte, overlay.fill_byte),
        fill_byte_raw: over_spec(base.fill_byte_raw, overlay.fill_byte_raw),
        ignore_case: over_spec(base.ignore_case, overlay.ignore_case),
        object_kind: over_spec(base.object_kind, overlay.object_kind),
        alignment: over_spec(base.alignment, overlay.alignment),
        alignment_implicit: over_spec(base.alignment_implicit, overlay.alignment_implicit),
        alignment_units: over_spec(base.alignment_units, overlay.alignment_units),
        leading_skip: over_spec(base.leading_skip, overlay.leading_skip),
        trailing_skip: over_spec(base.trailing_skip, overlay.trailing_skip),
    }
}

/// Lays one [`PhysicalProps`] over another.
pub fn merge_physical_props(base: PhysicalProps, overlay: PhysicalProps) -> (r: PhysicalProps)
    ensures
        r@ == merge_physical_props_spec(base@, overlay@),
{
    reveal(crate::ast::physical_props_model);
    let with_byte_order_conditional_test: bool = overlay.byte_order_conditional_test.is_some();
    let r = PhysicalProps {
        representation: over(base.representation, overlay.representation),
        byte_order: over(base.byte_order, overlay.byte_order),
        byte_order_conditional_test: over(base.byte_order_conditional_test, overlay.byte_order_conditional_test),
        byte_order_if_true: pick(with_byte_order_conditional_test, base.byte_order_if_true, overlay.byte_order_if_true),
        byte_order_if_false: pick(with_byte_order_conditional_test, base.byte_order_if_false, overlay.byte_order_if_false),
        bit_order: over(base.bit_order, overlay.bit_order),
        encoding: over(base.encoding, overlay.encoding),
        encoding_error_policy: over(base.encoding_error_policy, overlay.encoding_error_policy),
        encoding_error_policy_defined: overlay.encoding_error_policy_defined || base.encoding_error_policy_defined,
        fill_byte: over(base.fill_byte, overlay.fill_byte),
        fill_byte_raw: over(base.fill_byte_raw, overlay.fill_byte_raw),
        ignore_case: over(base.ignore_case, overlay.ignore_case),
        object_kind: over(base.object_kind, overlay.object_kind),
        alignment: over(base.alignment, overlay.alignment),
        alignment_implicit: over(base.alignment_implicit, overlay.alignment_implicit),
        alignment_units: over(base.alignment_units, overlay.alignment_units),
        leading_skip: over(base.leading_skip, overlay.leading_skip),
        trailing_skip: over(base.trailing_skip, overlay.trailing_skip),
    };
    r
}

/// [`LengthProps`] laid over others.
pub open spec fn merge_length_props_spec(base: LengthPropsModel, overlay: LengthPropsModel) -> LengthPropsModel {
    LengthPropsModel {
        length_kind: over_spec(base.length_kind, overlay.length_kind),
        length_kind_defined: if overlay.length_kind is Some {
            overlay.length_kind_defined
        } else {
            base.length_kind_defined
        },
        length: over_spec(base.length, overlay.length),
        length_sibling: over_spec(base.length_sibling, overlay.length_sibling),
        length_sibling_cast_long: if overlay.length_sibling is Some {
            overlay.length_sibling_cast_long
        } else {
            base.length_sibling_cast_long
        },
        length_sibling_adjust: if overlay.length_sibling is Some {
            overlay.length_sibling_adjust
        } else {
            base.length_sibling_adjust
        },
        length_expr_unparsed: overlay.length_expr_unparsed || base.length_expr_unparsed,
        length_self_string_max_cap: over_spec(base.length_self_string_max_cap, overlay.length_self_string_max_cap),
        length_self_value_length: overlay.length_self_value_length || base.length_self_value_length,
        length_units: over_spec(base.length_units, overlay.length_units),
        length_pattern: over_spec(base.length_pattern, overlay.length_pattern),
        prefix_length_type: over_spec(base.prefix_length_type, overlay.prefix_length_type),
        prefix_includes_prefix_length: over_spec(base.prefix_includes_prefix_length, overlay.prefix_includes_prefix_length),
    }
}

/// Lays one [`LengthProps`] over another.
pub fn merge_length_props(base: LengthProps, overlay: LengthProps) -> (r: LengthProps)
    ensures
        r@ == merge_length_props_spec(base@, overlay@),
{
    reveal(crate::ast::length_props_model);
    let with_length_kind: bool = overlay.length_kind.is_some();
    let with_length_sibling: bool = overlay.length_sibling.is_some();
    let r = LengthProps {
        length_kind: over(base.length_kind, overlay.length_kind),
        length_kind_defined: pick(with_length_kind, base.length_kind_defined, overlay.length_kind_defined),
        length: over(base.length, overlay.length),
        length_sibling: over(base.length_sibling, overlay.length_sibling),
        length_sibling_cast_long: pick(with_length_sibling, base.length_sibling_cast_long, overlay.length_sibling_cast_long),
        length_sibling_adjust: pick(with_length_sibling, base.length_sibling_adjust, overlay.length_sibling_adjust),
        length_expr_unparsed: overlay.length_expr_unparsed || base.length_expr_unparsed,
        length_self_string_max_cap: over(base.length_self_string_max_cap, overlay.length_self_string_max_cap),
        length_self_value_length: overlay.length_self_value_length || base.length_self_value_length,
        length_units: over(base.length_units, overlay.length_units),
        length_pattern: over(base.length_pattern, overlay.length_pattern),
        prefix_length_type: over(base.prefix_length_type, overlay.prefix_length_type),
        prefix_includes_prefix_length: over(base.prefix_includes_prefix_length, overlay.prefix_includes_prefix_length),
    };
    r
}

/// [`TextProps`] laid over others.
pub open spec fn merge_text_props_spec(base: TextPropsModel, overlay: TextPropsModel) -> TextPropsModel {
    TextPropsModel {
        text_trim_kind: over_spec(base.text_trim_kind, overlay.text_trim_kind),
        text_pad_kind: over_spec(base.text_pad_kind, overlay.text_pad_kind),
        truncate_specified_length_string: over_spec(base.truncate_specified_length_string, overlay.truncate_specified_length_string),
        text_number_pad_character: over_spec(base.text_number_pad_character, overlay.text_number_pad_character),
        text_number_pad_character_property_form: if overlay.text_number_pad_character is Some {
            overlay.text_number_pad_character_property_form
        } else {
            base.text_number_pad_character_property_form
        },
        text_string_pad_character: over_spec(base.text_string_pad_character, overlay.text_string_pad_character),
        text_string_pad_character_property_form: if overlay.text_string_pad_character is Some {
            overlay.text_string_pad_character_property_form
        } else {
            base.text_string_pad_character_property_form
        },
        text_calendar_pad_character: over_spec(base.text_calendar_pad_character, overlay.text_calendar_pad_character),
        text_calendar_justification: over_spec(base.text_calendar_justification, overlay.text_calendar_justification),
        text_string_justification: over_spec(base.text_string_justification, overlay.text_string_justification),
        text_number_justification: over_spec(base.text_number_justification, overlay.text_number_justification),
        text_boolean_true_rep: if overlay.text_boolean_true_rep_defined {
            overlay.text_boolean_true_rep
        } else {
            base.text_boolean_true_rep
        },
        text_boolean_true_rep_defined: overlay.text_boolean_true_rep_defined || base.text_boolean_true_rep_defined,
        text_boolean_false_rep: if overlay.text_boolean_false_rep_defined {
            overlay.text_boolean_false_rep
        } else {
            base.text_boolean_false_rep
        },
        text_boolean_false_rep_defined: overlay.text_boolean_false_rep_defined || base.text_boolean_false_rep_defined,
        text_boolean_pad_character: over_spec(base.text_boolean_pad_character, overlay.text_boolean_pad_character),
        text_bidi: over_spec(base.text_bidi, overlay.text_bidi),
        output_new_line: over_spec(base.output_new_line, overlay.output_new_line),
        output_new_line_sibling: over_spec(base.output_new_line_sibling, overlay.output_new_line_sibling),
        escape_scheme_ref: over_spec(base.escape_scheme_ref, overlay.escape_scheme_ref),
    }
}

/// Lays one [`TextProps`] over another.
pub fn merge_text_props(base: TextProps, overlay: TextProps) -> (r: TextProps)
    ensures
        r@ == merge_text_props_spec(base@, overlay@),
{
    reveal(crate::ast::text_props_model);
    let with_text_number_pad_character: bool = overlay.text_number_pad_character.is_some();
    let with_text_string_pad_character: bool = overlay.text_string_pad_character.is_some();
    let r = TextProps {
        text_trim_kind: over(base.text_trim_kind, overlay.text_trim_kind),
        text_pad_kind: over(base.text_pad_kind, overlay.text_pad_kind),
        truncate_specified_length_string: over(base.truncate_specified_length_string, overlay.truncate_specified_length_string),
        text_number_pad_character: over(base.text_number_pad_character, overlay.text_number_pad_character),
        text_number_pad_character_property_form: pick(with_text_number_pad_character, base.text_number_pad_character_property_form, overlay.text_number_pad_character_property_form),
        text_string_pad_character: over(base.text_string_pad_character, overlay.text_string_pad_character),
        text_string_pad_character_property_form: pick(with_text_string_pad_character, base.text_string_pad_character_property_form, overlay.text_string_pad_character_property_form),
        text_calendar_pad_character: over(base.text_calendar_pad_character, overlay.text_calendar_pad_character),
        text_calendar_justification: over(base.text_calendar_justification, overlay.text_calendar_justification),
        text_string_justification: over(base.text_string_justification, overlay.text_string_justification),
        text_number_justification: over(base.text_number_justification, overlay.text_number_justification),
        text_boolean_true_rep: pick(overlay.text_boolean_true_rep_defined, base.text_boolean_true_rep, overlay.text_boolean_true_rep),
        text_boolean_true_rep_defined: overlay.text_boolean_true_rep_defined || base.text_boolean_true_rep_defined,
        text_boolean_false_rep: pick(overlay.text_boolean_false_rep_defined, base.text_boolean_false_rep, overlay.text_boolean_false_rep),
        text_boolean_false_rep_defined: overlay.text_boolean_false_rep_defined || base.text_boolean_false_rep_defined,
        text_boolean_pad_character: over(base.text_boolean_pad_character, overlay.text_boolean_pad_character),
        text_bidi: over(base.text_bidi, overlay.text_bidi),
        output_new_line: over(base.output_new_line, overlay.output_new_line),
        output_new_line_sibling: over(base.output_new_line_sibling, overlay.output_new_line_sibling),
        escape_scheme_ref: over(base.escape_scheme_ref, overlay.escape_scheme_ref),
    };
    r
}

/// [`NumberProps`] laid over others.
pub open spec fn merge_number_props_spec(base: NumberPropsModel, overlay: NumberPropsModel) -> NumberPropsModel {
    NumberPropsModel {
        text_number_pattern: over_spec(base.text_number_pattern, overlay.text_number_pattern),
        text_number_check_policy: over_spec(base.text_number_check_policy, overlay.text_number_check_policy),
        text_number_rep: over_spec(base.text_number_rep, overlay.text_number_rep),
        text_zoned_sign_style: over_spec(base.text_zoned_sign_style, overlay.text_zoned_sign_style),
        text_standard_decimal_separator: over_spec(base.text_standard_decimal_separator, overlay.text_standard_decimal_separator),
        text_standard_decimal_separator_sibling: over_spec(base.text_standard_decimal_separator_sibling, overlay.text_standard_decimal_separator_sibling),
        text_standard_grouping_separator: over_spec(base.text_standard_grouping_separator, overlay.text_standard_grouping_separator),
        text_standard_grouping_separator_sibling: over_spec(base.text_standard_grouping_separator_sibling, overlay.text_standard_grouping_separator_sibling),
        text_standard_exponent_rep: over_spec(base.text_standard_exponent_rep, overlay.text_standard_exponent_rep),
        text_standard_exponent_rep_sibling: over_spec(base.text_standard_exponent_rep_sibling, overlay.text_standard_exponent_rep_sibling),
        text_standard_infinity_rep: over_spec(base.text_standard_infinity_rep, overlay.text_standard_infinity_rep),
        text_standard_nan_rep: over_spec(base.text_standard_nan_rep, overlay.text_standard_nan_rep),
        text_standard_zero_rep: over_spec(base.text_standard_zero_rep, overlay.text_standard_zero_rep),
        text_number_rounding: over_spec(base.text_number_rounding, overlay.text_number_rounding),
        text_number_rounding_increment: over_spec(base.text_number_rounding_increment, overlay.text_number_rounding_increment),
        text_number_rounding_mode: over_spec(base.text_number_rounding_mode, overlay.text_number_rounding_mode),
        text_standard_base: over_spec(base.text_standard_base, overlay.text_standard_base),
    }
}

/// Lays one [`NumberProps`] over another.
pub fn merge_number_props(base: NumberProps, overlay: NumberProps) -> (r: NumberProps)
    ensures
        r@ == merge_number_props_spec(base@, overlay@),
{
    reveal(crate::ast::number_props_model);
    let r = NumberProps {
        text_number_pattern: over(base.text_number_pattern, overlay.text_number_pattern),
        text_number_check_policy: over(base.text_number_check_policy, overlay.text_number_check_policy),
        text_number_rep: over(base.text_number_rep, overlay.text_number_rep),
        text_zoned_sign_style: over(base.text_zoned_sign_style, overlay.text_zoned_sign_style),
        text_standard_decimal_separator: over(base.text_standard_decimal_separator, overlay.text_standard_decimal_separator),
        text_standard_decimal_separator_sibling: over(base.text_standard_decimal_separator_sibling, overlay.text_standard_decimal_separator_sibling),
        text_standard_grouping_separator: over(base.text_standard_grouping_separator, overlay.text_standard_grouping_separator),
        text_standard_grouping_separator_sibling: over(base.text_standard_grouping_separator_sibling, overlay.text_standard_grouping_separator_sibling),
        text_standard_exponent_rep: over(base.text_standard_exponent_rep, overlay.text_standard_exponent_rep),
        text_standard_exponent_rep_sibling: over(base.text_standard_exponent_rep_sibling, overlay.text_standard_exponent_rep_sibling),
        text_standard_infinity_rep: over(base.text_standard_infinity_rep, overlay.text_standard_infinity_rep),
        text_standard_nan_rep: over(base.text_standard_nan_rep, overlay.text_standard_nan_rep),
        text_standard_zero_rep: over(base.text_standard_zero_rep, overlay.text_standard_zero_rep),
        text_number_rounding: over(base.text_number_rounding, overlay.text_number_rounding),
        text_number_rounding_increment: over(base.text_number_rounding_increment, overlay.text_number_rounding_increment),
        text_number_rounding_mode: over(base.text_number_rounding_mode, overlay.text_number_rounding_mode),
        text_standard_base: over(base.text_standard_base, overlay.text_standard_base),
    };
    r
}

/// [`BinaryProps`] laid over others.
pub open spec fn merge_binary_props_spec(base: BinaryPropsModel, overlay: BinaryPropsModel) -> BinaryPropsModel {
    BinaryPropsModel {
        binary_number_rep: over_spec(base.binary_number_rep, overlay.binary_number_rep),
        binary_packed_sign_codes: over_spec(base.binary_packed_sign_codes, overlay.binary_packed_sign_codes),
        binary_packed_sign_codes_defined: if overlay.binary_packed_sign_codes is Some {
            overlay.binary_packed_sign_codes_defined
        } else {
            base.binary_packed_sign_codes_defined
        },
        binary_number_check_policy: over_spec(base.binary_number_check_policy, overlay.binary_number_check_policy),
        binary_calendar_rep: over_spec(base.binary_calendar_rep, overlay.binary_calendar_rep),
        binary_calendar_epoch: over_spec(base.binary_calendar_epoch, overlay.binary_calendar_epoch),
        binary_float_rep: over_spec(base.binary_float_rep, overlay.binary_float_rep),
        binary_decimal_virtual_point: over_spec(base.binary_decimal_virtual_point, overlay.binary_decimal_virtual_point),
        binary_decimal_virtual_point_sde: over_spec(base.binary_decimal_virtual_point_sde, overlay.binary_decimal_virtual_point_sde),
        decimal_signed: over_spec(base.decimal_signed, overlay.decimal_signed),
        binary_boolean_true_rep: if overlay.binary_boolean_true_rep_defined {
            overlay.binary_boolean_true_rep
        } else {
            base.binary_boolean_true_rep
        },
        binary_boolean_true_rep_defined: overlay.binary_boolean_true_rep_defined || base.binary_boolean_true_rep_defined,
        binary_boolean_false_rep: if overlay.binary_boolean_false_rep_defined {
            overlay.binary_boolean_false_rep
        } else {
            base.binary_boolean_false_rep
        },
        binary_boolean_false_rep_defined: overlay.binary_boolean_false_rep_defined || base.binary_boolean_false_rep_defined,
    }
}

/// Lays one [`BinaryProps`] over another.
pub fn merge_binary_props(base: BinaryProps, overlay: BinaryProps) -> (r: BinaryProps)
    ensures
        r@ == merge_binary_props_spec(base@, overlay@),
{
    reveal(crate::ast::binary_props_model);
    let with_binary_packed_sign_codes: bool = overlay.binary_packed_sign_codes.is_some();
    let r = BinaryProps {
        binary_number_rep: over(base.binary_number_rep, overlay.binary_number_rep),
        binary_packed_sign_codes: over(base.binary_packed_sign_codes, overlay.binary_packed_sign_codes),
        binary_packed_sign_codes_defined: pick(with_binary_packed_sign_codes, base.binary_packed_sign_codes_defined, overlay.binary_packed_sign_codes_defined),
        binary_number_check_policy: over(base.binary_number_check_policy, overlay.binary_number_check_policy),
        binary_calendar_rep: over(base.binary_calendar_rep, overlay.binary_calendar_rep),
        binary_calendar_epoch: over(base.binary_calendar_epoch, overlay.binary_calendar_epoch),
        binary_float_rep: over(base.binary_float_rep, overlay.binary_float_rep),
        binary_decimal_virtual_point: over(base.binary_decimal_virtual_point, overlay.binary_decimal_virtual_point),
        binary_decimal_virtual_point_sde: over(base.binary_decimal_virtual_point_sde, overlay.binary_decimal_virtual_point_sde),
        decimal_signed: over(base.decimal_signed, overlay.decimal_signed),
        binary_boolean_true_rep: pick(overlay.binary_boolean_true_rep_defined, base.binary_boolean_true_rep, overlay.binary_boolean_true_rep),
        binary_boolean_true_rep_defined: overlay.binary_boolean_true_rep_defined || base.binary_boolean_true_rep_defined,
        binary_boolean_false_rep: pick(overlay.binary_boolean_false_rep_defined, base.binary_boolean_false_rep, overlay.binary_boolean_false_rep),
        binary_boolean_false_rep_defined: overlay.binary_boolean_false_rep_defined || base.binary_boolean_false_rep_defined,
    };
    r
}

/// [`CalendarProps`] laid over others.
pub open spec fn merge_calendar_props_spec(base: CalendarPropsModel, overlay: CalendarPropsModel) -> CalendarPropsModel {
    CalendarPropsModel {
        calendar_pattern: over_spec(base.calendar_pattern, overlay.calendar_pattern),
        calendar_pattern_kind: over_spec(base.calendar_pattern_kind, overlay.calendar_pattern_kind),
        calendar_check_policy_lax: over_spec(base.calendar_check_policy_lax, overlay.calendar_check_policy_lax),
        calendar_century_start: over_spec(base.calendar_century_start, overlay.calendar_century_start),
        calendar_language: over_spec(base.calendar_language, overlay.calendar_language),
        calendar_language_segments: over_spec(base.calendar_language_segments, overlay.calendar_language_segments),
        calendar_days_in_first_week: over_spec(base.calendar_days_in_first_week, overlay.calendar_days_in_first_week),
        calendar_first_day_of_week: over_spec(base.calendar_first_day_of_week, overlay.calendar_first_day_of_week),
        calendar_time_zone: over_spec(base.calendar_time_zone, overlay.calendar_time_zone),
        calendar_time_zone_defined: if overlay.calendar_time_zone is Some {
            overlay.calendar_time_zone_defined
        } else {
            base.calendar_time_zone_defined
        },
    }
}

/// Lays one [`CalendarProps`] over another.
pub fn merge_calendar_props(base: CalendarProps, overlay: CalendarProps) -> (r: CalendarProps)
    ensures
        r@ == merge_calendar_props_spec(base@, overlay@),
{
    reveal(crate::ast::calendar_props_model);
    let with_calendar_time_zone: bool = overlay.calendar_time_zone.is_some();
    let r = CalendarProps {
        calendar_pattern: over(base.calendar_pattern, overlay.calendar_pattern),
        calendar_pattern_kind: over(base.calendar_pattern_kind, overlay.calendar_pattern_kind),
        calendar_check_policy_lax: over(base.calendar_check_policy_lax, overlay.calendar_check_policy_lax),
        calendar_century_start: over(base.calendar_century_start, overlay.calendar_century_start),
        calendar_language: over(base.calendar_language, overlay.calendar_language),
        calendar_language_segments: over(base.calendar_language_segments, overlay.calendar_language_segments),
        calendar_days_in_first_week: over(base.calendar_days_in_first_week, overlay.calendar_days_in_first_week),
        calendar_first_day_of_week: over(base.calendar_first_day_of_week, overlay.calendar_first_day_of_week),
        calendar_time_zone: over(base.calendar_time_zone, overlay.calendar_time_zone),
        calendar_time_zone_defined: pick(with_calendar_time_zone, base.calendar_time_zone_defined, overlay.calendar_time_zone_defined),
    };
    r
}

/// [`DelimiterProps`] laid over others.
pub open spec fn merge_delimiter_props_spec(base: DelimiterPropsModel, overlay: DelimiterPropsModel) -> DelimiterPropsModel {
    DelimiterPropsModel {
        initiator: over_spec(base.initiator, overlay.initiator),
        raw_initiator: over_spec(base.raw_initiator, overlay.raw_initiator),
        initiator_percent_escaped: overlay.initiator_percent_escaped || base.initiator_percent_escaped,
        terminator: over_spec(base.terminator, overlay.terminator),
        raw_terminator: over_spec(base.raw_terminator, overlay.raw_terminator),
        separator: over_spec(base.separator, overlay.separator),
        raw_separator: over_spec(base.raw_separator, overlay.raw_separator),
        separator_position: over_spec(base.separator_position, overlay.separator_position),
        separator_suppression_policy: over_spec(base.separator_suppression_policy, overlay.separator_suppression_policy),
        initiated_content: over_spec(base.initiated_content, overlay.initiated_content),
        sequence_kind: over_spec(base.sequence_kind, overlay.sequence_kind),
    }
}

/// Lays one [`DelimiterProps`] over another.
pub fn merge_delimiter_props(base: DelimiterProps, overlay: DelimiterProps) -> (r: DelimiterProps)
    ensures
        r@ == merge_delimiter_props_spec(base@, overlay@),
{
    reveal(crate::ast::delimiter_props_model);
    let r = DelimiterProps {
        initiator: over(base.initiator, overlay.initiator),
        raw_initiator: over(base.raw_initiator, overlay.raw_initiator),
        initiator_percent_escaped: overlay.initiator_percent_escaped || base.initiator_percent_escaped,
        terminator: over(base.terminator, overlay.terminator),
        raw_terminator: over(base.raw_terminator, overlay.raw_terminator),
        separator: over(base.separator, overlay.separator),
        raw_separator: over(base.raw_separator, overlay.raw_separator),
        separator_position: over(base.separator_position, overlay.separator_position),
        separator_suppression_policy: over(base.separator_suppression_policy, overlay.separator_suppression_policy),
        initiated_content: over(base.initiated_content, overlay.initiated_content),
        sequence_kind: over(base.sequence_kind, overlay.sequence_kind),
    };
    r
}

/// [`OccursProps`] laid over others. A maximum that is specified counts even where
/// it is none.
pub open spec fn merge_occurs_props_spec(base: OccursPropsModel, overlay: OccursPropsModel) -> OccursPropsModel {
    OccursPropsModel {
        occurs_min: over_spec(base.occurs_min, overlay.occurs_min),
        occurs_max: if overlay.max_occurs_specified {
            overlay.occurs_max
        } else {
            over_spec(base.occurs_max, overlay.occurs_max)
        },
        max_occurs_specified: overlay.max_occurs_specified || base.max_occurs_specified,
        occurs_count_kind: over_spec(base.occurs_count_kind, overlay.occurs_count_kind),
        occurs_count_expr: over_spec(base.occurs_count_expr, overlay.occurs_count_expr),
        occurs_count_fn_path: over_spec(base.occurs_count_fn_path, overlay.occurs_count_fn_path),
        nillable: over_spec(base.nillable, overlay.nillable),
        nil_kind: over_spec(base.nil_kind, overlay.nil_kind),
        nil_value: over_spec(base.nil_value, overlay.nil_value),
        empty_element_parse_policy: over_spec(base.empty_element_parse_policy, overlay.empty_element_parse_policy),
        default_value: over_spec(base.default_value, overlay.default_value),
        floating: over_spec(base.floating, overlay.floating),
    }
}

/// Lays one [`OccursProps`] over another.
pub fn merge_occurs_props(base: OccursProps, overlay: OccursProps) -> (r: OccursProps)
    ensures
        r@ == merge_occurs_props_spec(base@, overlay@),
{
    reveal(crate::ast::occurs_props_model);
    let r = OccursProps {
        occurs_min: over(base.occurs_min, overlay.occurs_min),
        occurs_max: if overlay.max_occurs_specified {
            overlay.occurs_max
        } else {
            over(base.occurs_max, overlay.occurs_max)
        },
        max_occurs_specified: overlay.max_occurs_specified || base.max_occurs_specified,
        occurs_count_kind: over(base.occurs_count_kind, overlay.occurs_count_kind),
        occurs_count_expr: over(base.occurs_count_expr, overlay.occurs_count_expr),
        occurs_count_fn_path: over(base.occurs_count_fn_path, overlay.occurs_count_fn_path),
        nillable: over(base.nillable, overlay.nillable),
        nil_kind: over(base.nil_kind, overlay.nil_kind),
        nil_value: over(base.nil_value, overlay.nil_value),
        empty_element_parse_policy: over(base.empty_element_parse_policy, overlay.empty_element_parse_policy),
        default_value: over(base.default_value, overlay.default_value),
        floating: over(base.floating, overlay.floating),
    };
    r
}

/// [`ChoiceProps`] laid over others.
pub open spec fn merge_choice_props_spec(base: ChoicePropsModel, overlay: ChoicePropsModel) -> ChoicePropsModel {
    ChoicePropsModel {
        choice_dispatch_key: over_spec(base.choice_dispatch_key, overlay.choice_dispatch_key),
        choice_dispatch_sibling: over_spec(base.choice_dispatch_sibling, overlay.choice_dispatch_sibling),
        choice_dispatch_path: over_spec(base.choice_dispatch_path, overlay.choice_dispatch_path),
        choice_dispatch_literal: over_spec(base.choice_dispatch_literal, overlay.choice_dispatch_literal),
        choice_dispatch_sibling_int: over_spec(base.choice_dispatch_sibling_int, overlay.choice_dispatch_sibling_int),
        choice_branch_key: over_spec(base.choice_branch_key, overlay.choice_branch_key),
        choice_length_kind: over_spec(base.choice_length_kind, overlay.choice_length_kind),
        choice_length: over_spec(base.choice_length, overlay.choice_length),
    }
}

/// Lays one [`ChoiceProps`] over another.
pub fn merge_choice_props(base: ChoiceProps, overlay: ChoiceProps) -> (r: ChoiceProps)
    ensures
        r@ == merge_choice_props_spec(base@, overlay@),
{
    reveal(crate::ast::choice_props_model);
    let r = ChoiceProps {
        choice_dispatch_key: over(base.choice_dispatch_key, overlay.choice_dispatch_key),
        choice_dispatch_sibling: over(base.choice_dispatch_sibling, overlay.choice_dispatch_sibling),
        choice_dispatch_path: over(base.choice_dispatch_path, overlay.choice_dispatch_path),
        choice_dispatch_literal: over(base.choice_dispatch_literal, overlay.choice_dispatch_literal),
        choice_dispatch_sibling_int: over(base.choice_dispatch_sibling_int, overlay.choice_dispatch_sibling_int),
        choice_branch_key: over(base.choice_branch_key, overlay.choice_branch_key),
        choice_length_kind: over(base.choice_length_kind, overlay.choice_length_kind),
        choice_length: over(base.choice_length, overlay.choice_length),
    };
    r
}

/// [`CalcProps`] laid over others.
pub open spec fn merge_calc_props_spec(base: CalcPropsModel, overlay: CalcPropsModel) -> CalcPropsModel {
    CalcPropsModel {
        input_value_calc: over_spec(base.input_value_calc, overlay.input_value_calc),
        input_value_calc_literal: over_spec(base.input_value_calc_literal, overlay.input_value_calc_literal),
        input_value_calc_sibling: over_spec(base.input_value_calc_sibling, overlay.input_value_calc_sibling),
        input_value_calc_segments: over_spec(base.input_value_calc_segments, overlay.input_value_calc_segments),
        input_value_calc_path: over_spec(base.input_value_calc_path, overlay.input_value_calc_path),
        input_value_calc_expression: over_spec(base.input_value_calc_expression, overlay.input_value_calc_expression),
        output_value_calc: over_spec(base.output_value_calc, overlay.output_value_calc),
        output_value_calc_literal: over_spec(base.output_value_calc_literal, overlay.output_value_calc_literal),
        output_value_calc_sibling: over_spec(base.output_value_calc_sibling, overlay.output_value_calc_sibling),
        output_value_calc_conditional: overlay.output_value_calc_conditional || base.output_value_calc_conditional,
        output_value_calc_path: over_spec(base.output_value_calc_path, overlay.output_value_calc_path),
        output_value_calc_path_addend: over_spec(base.output_value_calc_path_addend, overlay.output_value_calc_path_addend),
        output_value_calc_scale: over_spec(base.output_value_calc_scale, overlay.output_value_calc_scale),
        output_value_calc_segments: over_spec(base.output_value_calc_segments, overlay.output_value_calc_segments),
    }
}

/// Lays one [`CalcProps`] over another.
pub fn merge_calc_props(base: CalcProps, overlay: CalcProps) -> (r: CalcProps)
    ensures
        r@ == merge_calc_props_spec(base@, overlay@),
{
    reveal(crate::ast::calc_props_model);
    let r = CalcProps {
        input_value_calc: over(base.input_value_calc, overlay.input_value_calc),
        input_value_calc_literal: over(base.input_value_calc_literal, overlay.input_value_calc_literal),
        input_value_calc_sibling: over(base.input_value_calc_sibling, overlay.input_value_calc_sibling),
        input_value_calc_segments: over(base.input_value_calc_segments, overlay.input_value_calc_segments),
        input_value_calc_path: over(base.input_value_calc_path, overlay.input_value_calc_path),
        input_value_calc_expression: over(base.input_value_calc_expression, overlay.input_value_calc_expression),
        output_value_calc: over(base.output_value_calc, overlay.output_value_calc),
        output_value_calc_literal: over(base.output_value_calc_literal, overlay.output_value_calc_literal),
        output_value_calc_sibling: over(base.output_value_calc_sibling, overlay.output_value_calc_sibling),
        output_value_calc_conditional: overlay.output_value_calc_conditional || base.output_value_calc_conditional,
        output_value_calc_path: over(base.output_value_calc_path, overlay.output_value_calc_path),
        output_value_calc_path_addend: over(base.output_value_calc_path_addend, overlay.output_value_calc_path_addend),
        output_value_calc_scale: over(base.output_value_calc_scale, overlay.output_value_calc_scale),
        output_value_calc_segments: over(base.output_value_calc_segments, overlay.output_value_calc_segments),
    };
    r
}

/// [`StatementProps`] laid over others.
pub open spec fn merge_statement_props_spec(base: StatementPropsModel, overlay: StatementPropsModel) -> StatementPropsModel {
    StatementPropsModel {
        format_ref: over_spec(base.format_ref, overlay.format_ref),
        format_context_finalized: overlay.format_context_finalized || base.format_context_finalized,
        hidden_group_ref: over_spec(base.hidden_group_ref, overlay.hidden_group_ref),
        hidden_group_ref_from_appinfo_sequence: overlay.hidden_group_ref_from_appinfo_sequence || base.hidden_group_ref_from_appinfo_sequence,
        has_statement_annotation: overlay.has_statement_annotation || base.has_statement_annotation,
        assert_message: over_spec(base.assert_message, overlay.assert_message),
        assert_message_segments: over_spec(base.assert_message_segments, overlay.assert_message_segments),
        facet_check_constraints: overlay.facet_check_constraints || base.facet_check_constraints,
        assert_int_eq: over_spec(base.assert_int_eq, overlay.assert_int_eq),
        assert_eq_occurs_index_addend: over_spec(base.assert_eq_occurs_index_addend, overlay.assert_eq_occurs_index_addend),
        discriminator_test: over_spec(base.discriminator_test, overlay.discriminator_test),
        discriminator_xpath_prefixes: over_spec(base.discriminator_xpath_prefixes, overlay.discriminator_xpath_prefixes),
        parse_unparse_policy: over_spec(base.parse_unparse_policy, overlay.parse_unparse_policy),
        suppress_schema_definition_warnings: over_spec(base.suppress_schema_definition_warnings, overlay.suppress_schema_definition_warnings),
        set_variables: base.set_variables + overlay.set_variables,
        new_variable_instances: base.new_variable_instances + overlay.new_variable_instances,
    }
}

/// Lays one [`StatementProps`] over another.
pub fn merge_statement_props(base: StatementProps, overlay: StatementProps) -> (r: StatementProps)
    ensures
        r@ == merge_statement_props_spec(base@, overlay@),
{
    reveal(crate::ast::statement_props_model);
    let r = StatementProps {
        format_ref: over(base.format_ref, overlay.format_ref),
        format_context_finalized: overlay.format_context_finalized || base.format_context_finalized,
        hidden_group_ref: over(base.hidden_group_ref, overlay.hidden_group_ref),
        hidden_group_ref_from_appinfo_sequence: overlay.hidden_group_ref_from_appinfo_sequence || base.hidden_group_ref_from_appinfo_sequence,
        has_statement_annotation: overlay.has_statement_annotation || base.has_statement_annotation,
        assert_message: over(base.assert_message, overlay.assert_message),
        assert_message_segments: over(base.assert_message_segments, overlay.assert_message_segments),
        facet_check_constraints: overlay.facet_check_constraints || base.facet_check_constraints,
        assert_int_eq: over(base.assert_int_eq, overlay.assert_int_eq),
        assert_eq_occurs_index_addend: over(base.assert_eq_occurs_index_addend, overlay.assert_eq_occurs_index_addend),
        discriminator_test: over(base.discriminator_test, overlay.discriminator_test),
        discriminator_xpath_prefixes: over(base.discriminator_xpath_prefixes, overlay.discriminator_xpath_prefixes),
        parse_unparse_policy: over(base.parse_unparse_policy, overlay.parse_unparse_policy),
        suppress_schema_definition_warnings: over(base.suppress_schema_definition_warnings, overlay.suppress_schema_definition_warnings),
        set_variables: extended(base.set_variables, overlay.set_variables),
        new_variable_instances: extended(base.new_variable_instances, overlay.new_variable_instances),
    };
    r
}

proof fn lemma_physical_props_nothing(base: PhysicalPropsModel)
    ensures
        merge_physical_props_spec(base, crate::ast::no_physical_props()) == base,
{
}

proof fn lemma_physical_props_associative(a: PhysicalPropsModel, b: PhysicalPropsModel, c: PhysicalPropsModel)
    ensures
        merge_physical_props_spec(merge_physical_props_spec(a, b), c) == merge_physical_props_spec(a, merge_physical_props_spec(b, c)),
{
}

proof fn lemma_length_props_nothing(base: LengthPropsModel)
    ensures
        merge_length_props_spec(base, crate::ast::no_length_props()) == base,
{
}

proof fn lemma_length_props_associative(a: LengthPropsModel, b: LengthPropsModel, c: LengthPropsModel)
    ensures
        merge_length_props_spec(merge_length_props_spec(a, b), c) == merge_length_props_spec(a, merge_length_props_spec(b, c)),
{
}

proof fn lemma_text_props_nothing(base: TextPropsModel)
    ensures
        merge_text_props_spec(base, crate::ast::no_text_props()) == base,
{
}

proof fn lemma_text_props_associative(a: TextPropsModel, b: TextPropsModel, c: TextPropsModel)
    ensures
        merge_text_props_spec(merge_text_props_spec(a, b), c) == merge_text_props_spec(a, merge_text_props_spec(b, c)),
{
}

proof fn lemma_number_props_nothing(base: NumberPropsModel)
    ensures
        merge_number_props_spec(base, crate::ast::no_number_props()) == base,
{
}

proof fn lemma_number_props_associative(a: NumberPropsModel, b: NumberPropsModel, c: NumberPropsModel)
    ensures
        merge_number_props_spec(merge_number_props_spec(a, b), c) == merge_number_props_spec(a, merge_number_props_spec(b, c)),
{
}

proof fn lemma_binary_props_nothing(base: BinaryPropsModel)
    ensures
        merge_binary_props_spec(base, crate::ast::no_binary_props()) == base,
{
}

proof fn lemma_binary_props_associative(a: BinaryPropsModel, b: BinaryPropsModel, c: BinaryPropsModel)
    ensures
        merge_binary_props_spec(merge_binary_props_spec(a, b), c) == merge_binary_props_spec(a, merge_binary_props_spec(b, c)),
{
}

proof fn lemma_calendar_props_nothing(base: CalendarPropsModel)
    ensures
        merge_calendar_props_spec(base, crate::ast::no_calendar_props()) == base,
{
}

proof fn lemma_calendar_props_associative(a: CalendarPropsModel, b: CalendarPropsModel, c: CalendarPropsModel)
    ensures
        merge_calendar_props_spec(merge_calendar_props_spec(a, b), c) == merge_calendar_props_spec(a, merge_calendar_props_spec(b, c)),
{
}

proof fn lemma_delimiter_props_nothing(base: DelimiterPropsModel)
    ensures
        merge_delimiter_props_spec(base, crate::ast::no_delimiter_props()) == base,
{
}

proof fn lemma_delimiter_props_associative(a: DelimiterPropsModel, b: DelimiterPropsModel, c: DelimiterPropsModel)
    ensures
        merge_delimiter_props_spec(merge_delimiter_props_spec(a, b), c) == merge_delimiter_props_spec(a, merge_delimiter_props_spec(b, c)),
{
}

proof fn lemma_occurs_props_nothing(base: OccursPropsModel)
    ensures
        merge_occurs_props_spec(base, crate::ast::no_occurs_props()) == base,
{
}

proof fn lemma_occurs_props_associative(a: OccursPropsModel, b: OccursPropsModel, c: OccursPropsModel)
    ensures
        merge_occurs_props_spec(merge_occurs_props_spec(a, b), c) == merge_occurs_props_spec(a, merge_occurs_props_spec(b, c)),
{
}

proof fn lemma_choice_props_nothing(base: ChoicePropsModel)
    ensures
        merge_choice_props_spec(base, crate::ast::no_choice_props()) == base,
{
}

proof fn lemma_choice_props_associative(a: ChoicePropsModel, b: ChoicePropsModel, c: ChoicePropsModel)
    ensures
        merge_choice_props_spec(merge_choice_props_spec(a, b), c) == merge_choice_props_spec(a, merge_choice_props_spec(b, c)),
{
}

proof fn lemma_calc_props_nothing(base: CalcPropsModel)
    ensures
        merge_calc_props_spec(base, crate::ast::no_calc_props()) == base,
{
}

proof fn lemma_calc_props_associative(a: CalcPropsModel, b: CalcPropsModel, c: CalcPropsModel)
    ensures
        merge_calc_props_spec(merge_calc_props_spec(a, b), c) == merge_calc_props_spec(a, merge_calc_props_spec(b, c)),
{
}

proof fn lemma_statement_props_nothing(base: StatementPropsModel)
    ensures
        merge_statement_props_spec(base, crate::ast::no_statement_props()) == base,
{
    assert(base.set_variables + Seq::empty() =~= base.set_variables);
    assert(base.new_variable_instances + Seq::empty() =~= base.new_variable_instances);
}

proof fn lemma_statement_props_associative(a: StatementPropsModel, b: StatementPropsModel, c: StatementPropsModel)
    ensures
        merge_statement_props_spec(merge_statement_props_spec(a, b), c) == merge_statement_props_spec(a, merge_statement_props_spec(b, c)),
{
    assert((a.set_variables + b.set_variables) + c.set_variables =~= a.set_variables + (b.set_variables + c.set_variables));
    assert((a.new_variable_instances + b.new_variable_instances) + c.new_variable_instances =~= a.new_variable_instances + (b.new_variable_instances + c.new_variable_instances));
}

/// The properties `overlay` laid over `base`: what `overlay` states holds, what
/// it leaves open is as in `base`, and variable assignments add up.
#[verifier::opaque]
pub open spec fn merge_spec(base: DfdlPropsModel, overlay: DfdlPropsModel) -> DfdlPropsModel {
    DfdlPropsModel {
        physical: merge_physical_props_spec(base.physical, overlay.physical),
        length: merge_length_props_spec(base.length, overlay.length),
        text: merge_text_props_spec(base.text, overlay.text),
        number: merge_number_props_spec(base.number, overlay.number),
        binary: merge_binary_props_spec(base.binary, overlay.binary),
        calendar: merge_calendar_props_spec(base.calendar, overlay.calendar),
        delimiters: merge_delimiter_props_spec(base.delimiters, overlay.delimiters),
        occurs: merge_occurs_props_spec(base.occurs, overlay.occurs),
        choice: merge_choice_props_spec(base.choice, overlay.choice),
        calc: merge_calc_props_spec(base.calc, overlay.calc),
        statements: merge_statement_props_spec(base.statements, overlay.statements),
    }
}

/// Lays the properties `overlay` over `base`.
pub fn merge_dfdl_props(base: DfdlProps, overlay: DfdlProps) -> (r: DfdlProps)
    ensures
        r@ == merge_spec(base@, overlay@),
{
    reveal(merge_spec);
    DfdlProps {
        physical: merge_physical_props(base.physical, overlay.physical),
        length: merge_length_props(base.length, overlay.length),
        text: merge_text_props(base.text, overlay.text),
        number: merge_number_props(base.number, overlay.number),
        binary: merge_binary_props(base.binary, overlay.binary),
        calendar: merge_calendar_props(base.calendar, overlay.calendar),
        delimiters: merge_delimiter_props(base.delimiters, overlay.delimiters),
        occurs: merge_occurs_props(base.occurs, overlay.occurs),
        choice: merge_choice_props(base.choice, overlay.choice),
        calc: merge_calc_props(base.calc, overlay.calc),
        statements: merge_statement_props(base.statements, overlay.statements),
    }
}

/// Laying nothing over properties leaves them as they are.
pub proof fn law_merge_nothing(base: DfdlPropsModel)
    ensures
        merge_spec(base, crate::ast::no_props()) == base,
{
    reveal(merge_spec);
    lemma_physical_props_nothing(base.physical);
    lemma_length_props_nothing(base.length);
    lemma_text_props_nothing(base.text);
    lemma_number_props_nothing(base.number);
    lemma_binary_props_nothing(base.binary);
    lemma_calendar_props_nothing(base.calendar);
    lemma_delimiter_props_nothing(base.delimiters);
    lemma_occurs_props_nothing(base.occurs);
    lemma_choice_props_nothing(base.choice);
    lemma_calc_props_nothing(base.calc);
    lemma_statement_props_nothing(base.statements);
}

/// It does not matter which of two layings-over is done first.
pub proof fn law_merge_associative(a: DfdlPropsModel, b: DfdlPropsModel, c: DfdlPropsModel)
    ensures
        merge_spec(merge_spec(a, b), c) == merge_spec(a, merge_spec(b, c)),
{
    reveal(merge_spec);
    lemma_physical_props_associative(a.physical, b.physical, c.physical);
    lemma_length_props_associative(a.length, b.length, c.length);
    lemma_text_props_associative(a.text, b.text, c.text);
    lemma_number_props_associative(a.number, b.number, c.number);
    lemma_binary_props_associative(a.binary, b.binary, c.binary);
    lemma_calendar_props_associative(a.calendar, b.calendar, c.calendar);
    lemma_delimiter_props_associative(a.delimiters, b.delimiters, c.delimiters);
    lemma_occurs_props_associative(a.occurs, b.occurs, c.occurs);
    lemma_choice_props_associative(a.choice, b.choice, c.choice);
    lemma_calc_props_associative(a.calc, b.calc, c.calc);
    lemma_statement_props_associative(a.statements, b.statements, c.statements);
}

/// Of an optional property, the result is what the overlay states, and what the
/// base states where the overlay states nothing.
pub open spec fn stated_wins<T>(base: Option<T>, overlay: Option<T>, result: Option<T>) -> bool {
    &&& (overlay is Some ==> result == overlay)
    &&& (overlay is None ==> result == base)
}

/// What belongs to a property comes from where the property comes from.
pub open spec fn goes_along<T>(stated: bool, base: T, overlay: T, result: T) -> bool {
    &&& (stated ==> result == overlay)
    &&& (!stated ==> result == base)
}

/// The physical properties that are laid over others hold; those that are left open are
/// as they were.
pub proof fn law_physical_stated_wins(base: DfdlPropsModel, overlay: DfdlPropsModel)
    ensures
        stated_wins(base.physical.representation, overlay.physical.representation, merge_spec(base, overlay).physical.representation),
        stated_wins(base.physical.byte_order, overlay.physical.byte_order, merge_spec(base, overlay).physical.byte_order),
        stated_wins(base.physical.byte_order_conditional_test, overlay.physical.byte_order_conditional_test, merge_spec(base, overlay).physical.byte_order_conditional_test),
        goes_along(overlay.physical.byte_order_conditional_test is Some, base.physical.byte_order_if_true, overlay.physical.byte_order_if_true, merge_spec(base, overlay).physical.byte_order_if_true),
        goes_along(overlay.physical.byte_order_conditional_test is Some, base.physical.byte_order_if_false, overlay.physical.byte_order_if_false, merge_spec(base, overlay).physical.byte_order_if_false),
        stated_wins(base.physical.bit_order, overlay.physical.bit_order, merge_spec(base, overlay).physical.bit_order),
        stated_wins(base.physical.encoding, overlay.physical.encoding, merge_spec(base, overlay).physical.encoding),
        stated_wins(base.physical.encoding_error_policy, overlay.physical.encoding_error_policy, merge_spec(base, overlay).physical.encoding_error_policy),
        merge_spec(base, overlay).physical.encoding_error_policy_defined <==> base.physical.encoding_error_policy_defined || overlay.physical.encoding_error_policy_defined,
        stated_wins(base.physical.fill_byte, overlay.physical.fill_byte, merge_spec(base, overlay).physical.fill_byte),
        stated_wins(base.physical.fill_byte_raw, overlay.physical.fill_byte_raw, merge_spec(base, overlay).physical.fill_byte_raw),
        stated_wins(base.physical.ignore_case, overlay.physical.ignore_case, merge_spec(base, overlay).physical.ignore_case),
        stated_wins(base.physical.object_kind, overlay.physical.object_kind, merge_spec(base, overlay).physical.object_kind),
        stated_wins(base.physical.alignment, overlay.physical.alignment, merge_spec(base, overlay).physical.alignment),
        stated_wins(base.physical.alignment_implicit, overlay.physical.alignment_implicit, merge_spec(base, overlay).physical.alignment_implicit),
        stated_wins(base.physical.alignment_units, overlay.physical.alignment_units, merge_spec(base, overlay).physical.alignment_units),
        stated_wins(base.physical.leading_skip, overlay.physical.leading_skip, merge_spec(base, overlay).physical.leading_skip),
        stated_wins(base.physical.trailing_skip, overlay.physical.trailing_skip, merge_spec(base, overlay).physical.trailing_skip),
{
    reveal(merge_spec);
}

/// The length properties that are laid over others hold; those that are left open are
/// as they were.
pub proof fn law_length_stated_wins(base: DfdlPropsModel, overlay: DfdlPropsModel)
    ensures
        stated_wins(base.length.length_kind, overlay.length.length_kind, merge_spec(base, overlay).length.length_kind),
        goes_along(overlay.length.length_kind is Some, base.length.length_kind_defined, overlay.length.length_kind_defined, merge_spec(base, overlay).length.length_kind_defined),
        stated_wins(base.length.length, overlay.length.length, merge_spec(base, overlay).length.length),
        stated_wins(base.length.length_sibling, overlay.length.length_sibling, merge_spec(base, overlay).length.length_sibling),
        goes_along(overlay.length.length_sibling is Some, base.length.length_sibling_cast_long, overlay.length.length_sibling_cast_long, merge_spec(base, overlay).length.length_sibling_cast_long),
        goes_along(overlay.length.length_sibling is Some, base.length.length_sibling_adjust, overlay.length.length_sibling_adjust, merge_spec(base, overlay).length.length_sibling_adjust),
        merge_spec(base, overlay).length.length_expr_unparsed <==> base.length.length_expr_unparsed || overlay.length.length_expr_unparsed,
        stated_wins(base.length.length_self_string_max_cap, overlay.length.length_self_string_max_cap, merge_spec(base, overlay).length.length_self_string_max_cap),
        merge_spec(base, overlay).length.length_self_value_length <==> base.length.length_self_value_length || overlay.length.length_self_value_length,
        stated_wins(base.length.length_units, overlay.length.length_units, merge_spec(base, overlay).length.length_units),
        stated_wins(base.length.length_pattern, overlay.length.length_pattern, merge_spec(base, overlay).length.length_pattern),
        stated_wins(base.length.prefix_length_type, overlay.length.prefix_length_type, merge_spec(base, overlay).length.prefix_length_type),
        stated_wins(base.length.prefix_includes_prefix_length, overlay.length.prefix_includes_prefix_length, merge_spec(base, overlay).length.prefix_includes_prefix_length),
{
    reveal(merge_spec);
}

/// The text properties that are laid over others hold; those that are left open are
/// as they were.
pub proof fn law_text_stated_wins(base: DfdlPropsModel, overlay: DfdlPropsModel)
    ensures
        stated_wins(base.text.text_trim_kind, overlay.text.text_trim_kind, merge_spec(base, overlay).text.text_trim_kind),
        stated_wins(base.text.text_pad_kind, overlay.text.text_pad_kind, merge_spec(base, overlay).text.text_pad_kind),
        stated_wins(base.text.truncate_specified_length_string, overlay.text.truncate_specified_length_string, merge_spec(base, overlay).text.truncate_specified_length_string),
        stated_wins(base.text.text_number_pad_character, overlay.text.text_number_pad_character, merge_spec(base, overlay).text.text_number_pad_character),
        goes_along(overlay.text.text_number_pad_character is Some, base.text.text_number_pad_character_property_form, overlay.text.text_number_pad_character_property_form, merge_spec(base, overlay).text.text_number_pad_character_property_form),
        stated_wins(base.text.text_string_pad_character, overlay.text.text_string_pad_character, merge_spec(base, overlay).text.text_string_pad_character),
        goes_along(overlay.text.text_string_pad_character is Some, base.text.text_string_pad_character_property_form, overlay.text.text_string_pad_character_property_form, merge_spec(base, overlay).text.text_string_pad_character_property_form),
        stated_wins(base.text.text_calendar_pad_character, overlay.text.text_calendar_pad_character, merge_spec(base, overlay).text.text_calendar_pad_character),
        stated_wins(base.text.text_calendar_justification, overlay.text.text_calendar_justification, merge_spec(base, overlay).text.text_calendar_justification),
        stated_wins(base.text.text_string_justification, overlay.text.text_string_justification, merge_spec(base, overlay).text.text_string_justification),
        stated_wins(base.text.text_number_justification, overlay.text.text_number_justification, merge_spec(base, overlay).text.text_number_justification),
        goes_along(overlay.text.text_boolean_true_rep_defined, base.text.text_boolean_true_rep, overlay.text.text_boolean_true_rep, merge_spec(base, overlay).text.text_boolean_true_rep),
        merge_spec(base, overlay).text.text_boolean_true_rep_defined <==> base.text.text_boolean_true_rep_defined || overlay.text.text_boolean_true_rep_defined,
        goes_along(overlay.text.text_boolean_false_rep_defined, base.text.text_boolean_false_rep, overlay.text.text_boolean_false_rep, merge_spec(base, overlay).text.text_boolean_false_rep),
        merge_spec(base, overlay).text.text_boolean_false_rep_defined <==> base.text.text_boolean_false_rep_defined || overlay.text.text_boolean_false_rep_defined,
        stated_wins(base.text.text_boolean_pad_character, overlay.text.text_boolean_pad_character, merge_spec(base, overlay).text.text_boolean_pad_character),
        stated_wins(base.text.text_bidi, overlay.text.text_bidi, merge_spec(base, overlay).text.text_bidi),
        stated_wins(base.text.output_new_line, overlay.text.output_new_line, merge_spec(base, overlay).text.output_new_line),
        stated_wins(base.text.output_new_line_sibling, overlay.text.output_new_line_sibling, merge_spec(base, overlay).text.output_new_line_sibling),
        stated_wins(base.text.escape_scheme_ref, overlay.text.escape_scheme_ref, merge_spec(base, overlay).text.escape_scheme_ref),
{
    reveal(merge_spec);
}

/// The number properties that are laid over others hold; those that are left open are
/// as they were.
pub proof fn law_number_stated_wins(base: DfdlPropsModel, overlay: DfdlPropsModel)
    ensures
        stated_wins(base.number.text_number_pattern, overlay.number.text_number_pattern, merge_spec(base, overlay).number.text_number_pattern),
        stated_wins(base.number.text_number_check_policy, overlay.number.text_number_check_policy, merge_spec(base, overlay).number.text_number_check_policy),
        stated_wins(base.number.text_number_rep, overlay.number.text_number_rep, merge_spec(base, overlay).number.text_number_rep),
        stated_wins(base.number.text_zoned_sign_style, overlay.number.text_zoned_sign_style, merge_spec(base, overlay).number.text_zoned_sign_style),
        stated_wins(base.number.text_standard_decimal_separator, overlay.number.text_standard_decimal_separator, merge_spec(base, overlay).number.text_standard_decimal_separator),
        stated_wins(base.number.text_standard_decimal_separator_sibling, overlay.number.text_standard_decimal_separator_sibling, merge_spec(base, overlay).number.text_standard_decimal_separator_sibling),
        stated_wins(base.number.text_standard_grouping_separator, overlay.number.text_standard_grouping_separator, merge_spec(base, overlay).number.text_standard_grouping_separator),
        stated_wins(base.number.text_standard_grouping_separator_sibling, overlay.number.text_standard_grouping_separator_sibling, merge_spec(base, overlay).number.text_standard_grouping_separator_sibling),
        stated_wins(base.number.text_standard_exponent_rep, overlay.number.text_standard_exponent_rep, merge_spec(base, overlay).number.text_standard_exponent_rep),
        stated_wins(base.number.text_standard_exponent_rep_sibling, overlay.number.text_standard_exponent_rep_sibling, merge_spec(base, overlay).number.text_standard_exponent_rep_sibling),
        stated_wins(base.number.text_standard_infinity_rep, overlay.number.text_standard_infinity_rep, merge_spec(base, overlay).number.text_standard_infinity_rep),
        stated_wins(base.number.text_standard_nan_rep, overlay.number.text_standard_nan_rep, merge_spec(base, overlay).number.text_standard_nan_rep),
        stated_wins(base.number.text_standard_zero_rep, overlay.number.text_standard_zero_rep, merge_spec(base, overlay).number.text_standard_zero_rep),
        stated_wins(base.number.text_number_rounding, overlay.number.text_number_rounding, merge_spec(base, overlay).number.text_number_rounding),
        stated_wins(base.number.text_number_rounding_increment, overlay.number.text_number_rounding_increment, merge_spec(base, overlay).number.text_number_rounding_increment),
        stated_wins(base.number.text_number_rounding_mode, overlay.number.text_number_rounding_mode, merge_spec(base, overlay).number.text_number_rounding_mode),
        stated_wins(base.number.text_standard_base, overlay.number.text_standard_base, merge_spec(base, overlay).number.text_standard_base),
{
    reveal(merge_spec);
}

/// The binary properties that are laid over others hold; those that are left open are
/// as they were.
pub proof fn law_binary_stated_wins(base: DfdlPropsModel, overlay: DfdlPropsModel)
    ensures
        stated_wins(base.binary.binary_number_rep, overlay.binary.binary_number_rep, merge_spec(base, overlay).binary.binary_number_rep),
        stated_wins(base.binary.binary_packed_sign_codes, overlay.binary.binary_packed_sign_codes, merge_spec(base, overlay).binary.binary_packed_sign_codes),
        goes_along(overlay.binary.binary_packed_sign_codes is Some, base.binary.binary_packed_sign_codes_defined, overlay.binary.binary_packed_sign_codes_defined, merge_spec(base, overlay).binary.binary_packed_sign_codes_defined),
        stated_wins(base.binary.binary_number_check_policy, overlay.binary.binary_number_check_policy, merge_spec(base, overlay).binary.binary_number_check_policy),
        stated_wins(base.binary.binary_calendar_rep, overlay.binary.binary_calendar_rep, merge_spec(base, overlay).binary.binary_calendar_rep),
        stated_wins(base.binary.binary_calendar_epoch, overlay.binary.binary_calendar_epoch, merge_spec(base, overlay).binary.binary_calendar_epoch),
        stated_wins(base.binary.binary_float_rep, overlay.binary.binary_float_rep, merge_spec(base, overlay).binary.binary_float_rep),
        stated_wins(base.binary.binary_decimal_virtual_point, overlay.binary.binary_decimal_virtual_point, merge_spec(base, overlay).binary.binary_decimal_virtual_point),
        stated_wins(base.binary.binary_decimal_virtual_point_sde, overlay.binary.binary_decimal_virtual_point_sde, merge_spec(base, overlay).binary.binary_decimal_virtual_point_sde),
        stated_wins(base.binary.decimal_signed, overlay.binary.decimal_signed, merge_spec(base, overlay).binary.decimal_signed),
        goes_along(overlay.binary.binary_boolean_true_rep_defined, base.binary.binary_boolean_true_rep, overlay.binary.binary_boolean_true_rep, merge_spec(base, overlay).binary.binary_boolean_true_rep),
        merge_spec(base, overlay).binary.binary_boolean_true_rep_defined <==> base.binary.binary_boolean_true_rep_defined || overlay.binary.binary_boolean_true_rep_defined,
        goes_along(overlay.binary.binary_boolean_false_rep_defined, base.binary.binary_boolean_false_rep, overlay.binary.binary_boolean_false_rep, merge_spec(base, overlay).binary.binary_boolean_false_rep),
        merge_spec(base, overlay).binary.binary_boolean_false_rep_defined <==> base.binary.binary_boolean_false_rep_defined || overlay.binary.binary_boolean_false_rep_defined,
{
    reveal(merge_spec);
}

/// The calendar properties that are laid over others hold; those that are left open are
/// as they were.
pub proof fn law_calendar_stated_wins(base: DfdlPropsModel, overlay: DfdlPropsModel)
    ensures
        stated_wins(base.calendar.calendar_pattern, overlay.calendar.calendar_pattern, merge_spec(base, overlay).calendar.calendar_pattern),
        stated_wins(base.calendar.calendar_pattern_kind, overlay.calendar.calendar_pattern_kind, merge_spec(base, overlay).calendar.calendar_pattern_kind),
        stated_wins(base.calendar.calendar_check_policy_lax, overlay.calendar.calendar_check_policy_lax, merge_spec(base, overlay).calendar.calendar_check_policy_lax),
        stated_wins(base.calendar.calendar_century_start, overlay.calendar.calendar_century_start, merge_spec(base, overlay).calendar.calendar_century_start),
        stated_wins(base.calendar.calendar_language, overlay.calendar.calendar_language, merge_spec(base, overlay).calendar.calendar_language),
        stated_wins(base.calendar.calendar_language_segments, overlay.calendar.calendar_language_segments, merge_spec(base, overlay).calendar.calendar_language_segments),
        stated_wins(base.calendar.calendar_days_in_first_week, overlay.calendar.calendar_days_in_first_week, merge_spec(base, overlay).calendar.calendar_days_in_first_week),
        stated_wins(base.calendar.calendar_first_day_of_week, overlay.calendar.calendar_first_day_of_week, merge_spec(base, overlay).calendar.calendar_first_day_of_week),
        stated_wins(base.calendar.calendar_time_zone, overlay.calendar.calendar_time_zone, merge_spec(base, overlay).calendar.calendar_time_zone),
        goes_along(overlay.calendar.calendar_time_zone is Some, base.calendar.calendar_time_zone_defined, overlay.calendar.calendar_time_zone_defined, merge_spec(base, overlay).calendar.calendar_time_zone_defined),
{
    reveal(merge_spec);
}

/// The delimiter properties that are laid over others hold; those that are left open are
/// as they were.
pub proof fn law_delimiters_stated_wins(base: DfdlPropsModel, overlay: DfdlPropsModel)
    ensures
        stated_wins(base.delimiters.initiator, overlay.delimiters.initiator, merge_spec(base, overlay).delimiters.initiator),
        stated_wins(base.delimiters.raw_initiator, overlay.delimiters.raw_initiator, merge_spec(base, overlay).delimiters.raw_initiator),
        merge_spec(base, overlay).delimiters.initiator_percent_escaped <==> base.delimiters.initiator_percent_escaped || overlay.delimiters.initiator_percent_escaped,
        stated_wins(base.delimiters.terminator, overlay.delimiters.terminator, merge_spec(base, overlay).delimiters.terminator),
        stated_wins(base.delimiters.raw_terminator, overlay.delimiters.raw_terminator, merge_spec(base, overlay).delimiters.raw_terminator),
        stated_wins(base.delimiters.separator, overlay.delimiters.separator, merge_spec(base, overlay).delimiters.separator),
        stated_wins(base.delimiters.raw_separator, overlay.delimiters.raw_separator, merge_spec(base, overlay).delimiters.raw_separator),
        stated_wins(base.delimiters.separator_position, overlay.delimiters.separator_position, merge_spec(base, overlay).delimiters.separator_position),
        stated_wins(base.delimiters.separator_suppression_policy, overlay.delimiters.separator_suppression_policy, merge_spec(base, overlay).delimiters.separator_suppression_policy),
        stated_wins(base.delimiters.initiated_content, overlay.delimiters.initiated_content, merge_spec(base, overlay).delimiters.initiated_content),
        stated_wins(base.delimiters.sequence_kind, overlay.delimiters.sequence_kind, merge_spec(base, overlay).delimiters.sequence_kind),
{
    reveal(merge_spec);
}

/// The occurrence properties that are laid over others hold; those that are left open are
/// as they were.
pub proof fn law_occurs_stated_wins(base: DfdlPropsModel, overlay: DfdlPropsModel)
    ensures
        stated_wins(base.occurs.occurs_min, overlay.occurs.occurs_min, merge_spec(base, overlay).occurs.occurs_min),
        overlay.occurs.max_occurs_specified ==> merge_spec(base, overlay).occurs.occurs_max == overlay.occurs.occurs_max,
        !overlay.occurs.max_occurs_specified ==> stated_wins(base.occurs.occurs_max, overlay.occurs.occurs_max, merge_spec(base, overlay).occurs.occurs_max),
        merge_spec(base, overlay).occurs.max_occurs_specified <==> base.occurs.max_occurs_specified || overlay.occurs.max_occurs_specified,
        stated_wins(base.occurs.occurs_count_kind, overlay.occurs.occurs_count_kind, merge_spec(base, overlay).occurs.occurs_count_kind),
        stated_wins(base.occurs.occurs_count_expr, overlay.occurs.occurs_count_expr, merge_spec(base, overlay).occurs.occurs_count_expr),
        stated_wins(base.occurs.occurs_count_fn_path, overlay.occurs.occurs_count_fn_path, merge_spec(base, overlay).occurs.occurs_count_fn_path),
        stated_wins(base.occurs.nillable, overlay.occurs.nillable, merge_spec(base, overlay).occurs.nillable),
        stated_wins(base.occurs.nil_kind, overlay.occurs.nil_kind, merge_spec(base, overlay).occurs.nil_kind),
        stated_wins(base.occurs.nil_value, overlay.occurs.nil_value, merge_spec(base, overlay).occurs.nil_value),
        stated_wins(base.occurs.empty_element_parse_policy, overlay.occurs.empty_element_parse_policy, merge_spec(base, overlay).occurs.empty_element_parse_policy),
        stated_wins(base.occurs.default_value, overlay.occurs.default_value, merge_spec(base, overlay).occurs.default_value),
        stated_wins(base.occurs.floating, overlay.occurs.floating, merge_spec(base, overlay).occurs.floating),
{
    reveal(merge_spec);
}

/// The choice properties that are laid over others hold; those that are left open are
/// as they were.
pub proof fn law_choice_stated_wins(base: DfdlPropsModel, overlay: DfdlPropsModel)
    ensures
        stated_wins(base.choice.choice_dispatch_key, overlay.choice.choice_dispatch_key, merge_spec(base, overlay).choice.choice_dispatch_key),
        stated_wins(base.choice.choice_dispatch_sibling, overlay.choice.choice_dispatch_sibling, merge_spec(base, overlay).choice.choice_dispatch_sibling),
        stated_wins(base.choice.choice_dispatch_path, overlay.choice.choice_dispatch_path, merge_spec(base, overlay).choice.choice_dispatch_path),
        stated_wins(base.choice.choice_dispatch_literal, overlay.choice.choice_dispatch_literal, merge_spec(base, overlay).choice.choice_dispatch_literal),
        stated_wins(base.choice.choice_dispatch_sibling_int, overlay.choice.choice_dispatch_sibling_int, merge_spec(base, overlay).choice.choice_dispatch_sibling_int),
        stated_wins(base.choice.choice_branch_key, overlay.choice.choice_branch_key, merge_spec(base, overlay).choice.choice_branch_key),
        stated_wins(base.choice.choice_length_kind, overlay.choice.choice_length_kind, merge_spec(base, overlay).choice.choice_length_kind),
        stated_wins(base.choice.choice_length, overlay.choice.choice_length, merge_spec(base, overlay).choice.choice_length),
{
    reveal(merge_spec);
}

/// The calculation properties that are laid over others hold; those that are left open are
/// as they were.
pub proof fn law_calc_stated_wins(base: DfdlPropsModel, overlay: DfdlPropsModel)
    ensures
        stated_wins(base.calc.input_value_calc, overlay.calc.input_value_calc, merge_spec(base, overlay).calc.input_value_calc),
        stated_wins(base.calc.input_value_calc_literal, overlay.calc.input_value_calc_literal, merge_spec(base, overlay).calc.input_value_calc_literal),
        stated_wins(base.calc.input_value_calc_sibling, overlay.calc.input_value_calc_sibling, merge_spec(base, overlay).calc.input_value_calc_sibling),
        stated_wins(base.calc.input_value_calc_segments, overlay.calc.input_value_calc_segments, merge_spec(base, overlay).calc.input_value_calc_segments),
        stated_wins(base.calc.input_value_calc_path, overlay.calc.input_value_calc_path, merge_spec(base, overlay).calc.input_value_calc_path),
        stated_wins(base.calc.input_value_calc_expression, overlay.calc.input_value_calc_expression, merge_spec(base, overlay).calc.input_value_calc_expression),
        stated_wins(base.calc.output_value_calc, overlay.calc.output_value_calc, merge_spec(base, overlay).calc.output_value_calc),
        stated_wins(base.calc.output_value_calc_literal, overlay.calc.output_value_calc_literal, merge_spec(base, overlay).calc.output_value_calc_literal),
        stated_wins(base.calc.output_value_calc_sibling, overlay.calc.output_value_calc_sibling, merge_spec(base, overlay).calc.output_value_calc_sibling),
        merge_spec(base, overlay).calc.output_value_calc_conditional <==> base.calc.output_value_calc_conditional || overlay.calc.output_value_calc_conditional,
        stated_wins(base.calc.output_value_calc_path, overlay.calc.output_value_calc_path, merge_spec(base, overlay).calc.output_value_calc_path),
        stated_wins(base.calc.output_value_calc_path_addend, overlay.calc.output_value_calc_path_addend, merge_spec(base, overlay).calc.output_value_calc_path_addend),
        stated_wins(base.calc.output_value_calc_scale, overlay.calc.output_value_calc_scale, merge_spec(base, overlay).calc.output_value_calc_scale),
        stated_wins(base.calc.output_value_calc_segments, overlay.calc.output_value_calc_segments, merge_spec(base, overlay).calc.output_value_calc_segments),
{
    reveal(merge_spec);
}

/// The statement properties that are laid over others hold; those that are left open are
/// as they were.
pub proof fn law_statements_stated_wins(base: DfdlPropsModel, overlay: DfdlPropsModel)
    ensures
        stated_wins(base.statements.format_ref, overlay.statements.format_ref, merge_spec(base, overlay).statements.format_ref),
        merge_spec(base, overlay).statements.format_context_finalized <==> base.statements.format_context_finalized || overlay.statements.format_context_finalized,
        stated_wins(base.statements.hidden_group_ref, overlay.statements.hidden_group_ref, merge_spec(base, overlay).statements.hidden_group_ref),
        merge_spec(base, overlay).statements.hidden_group_ref_from_appinfo_sequence <==> base.statements.hidden_group_ref_from_appinfo_sequence || overlay.statements.hidden_group_ref_from_appinfo_sequence,
        merge_spec(base, overlay).statements.has_statement_annotation <==> base.statements.has_statement_annotation || overlay.statements.has_statement_annotation,
        stated_wins(base.statements.assert_message, overlay.statements.assert_message, merge_spec(base, overlay).statements.assert_message),
        stated_wins(base.statements.assert_message_segments, overlay.statements.assert_message_segments, merge_spec(base, overlay).statements.assert_message_segments),
        merge_spec(base, overlay).statements.facet_check_constraints <==> base.statements.facet_check_constraints || overlay.statements.facet_check_constraints,
        stated_wins(base.statements.assert_int_eq, overlay.statements.assert_int_eq, merge_spec(base, overlay).statements.assert_int_eq),
        stated_wins(base.statements.assert_eq_occurs_index_addend, overlay.statements.assert_eq_occurs_index_addend, merge_spec(base, overlay).statements.assert_eq_occurs_index_addend),
        stated_wins(base.statements.discriminator_test, overlay.statements.discriminator_test, merge_spec(base, overlay).statements.discriminator_test),
        stated_wins(base.statements.discriminator_xpath_prefixes, overlay.statements.discriminator_xpath_prefixes, merge_spec(base, overlay).statements.discriminator_xpath_prefixes),
        stated_wins(base.statements.parse_unparse_policy, overlay.statements.parse_unparse_policy, merge_spec(base, overlay).statements.parse_unparse_policy),
        stated_wins(base.statements.suppress_schema_definition_warnings, overlay.statements.suppress_schema_definition_warnings, merge_spec(base, overlay).statements.suppress_schema_definition_warnings),
        merge_spec(base, overlay).statements.set_variables == base.statements.set_variables + overlay.statements.set_variables,
        merge_spec(base, overlay).statements.new_variable_instances == base.statements.new_variable_instances + overlay.statements.new_variable_instances,
{
    reveal(merge_spec);
}

} // verus!
