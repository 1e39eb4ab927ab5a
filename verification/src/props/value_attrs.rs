//! Attributes of [`CalcProps`].

use vstd::prelude::*;
use crate::ast::{CalcProps, CalcPropsModel, OutputValueCalc};
use crate::computed;
use crate::expr;
use crate::text;
use crate::error::{Error, ErrorModel};
use crate::props;
use crate::strmap::StrMap;
use crate::text::{chars_of, contains, is, string_of};

verus! {

/// What an `inputValueCalc` attribute does: an expression, a concatenation, a
/// path, a variable, or one of the known functions.
pub open spec fn input_effect(
    p: CalcPropsModel,
    value: Seq<char>,
    vars: Option<Seq<(Seq<char>, Seq<char>)>>,
) -> CalcPropsModel {
    let from_vars = match vars {
        Some(m) => computed::variable_input(value, m),
        None => None,
    };
    if expr::input_expression(value) is Some {
        CalcPropsModel { input_value_calc_expression: expr::input_expression(value), ..p }
    } else if computed::concatenation(value) is Some {
        CalcPropsModel { input_value_calc_segments: computed::concatenation(value), ..p }
    } else if computed::relative_path(value) is Some {
        CalcPropsModel { input_value_calc_path: computed::relative_path(value), ..p }
    } else if from_vars is Some {
        CalcPropsModel {
            input_value_calc: Some((from_vars->0).0),
            input_value_calc_literal: (from_vars->0).1,
            ..p
        }
    } else if computed::input_calc(value) is Some {
        let c = computed::input_calc(value)->0;
        CalcPropsModel {
            input_value_calc: Some(c.0),
            input_value_calc_sibling: c.1,
            input_value_calc_literal: c.2,
            ..p
        }
    } else {
        p
    }
}

/// Applies an `inputValueCalc` attribute.
fn set_input_calc(p: &mut CalcProps, value: &str, vars: Option<&StrMap<String>>)
    ensures
        final(p)@ == input_effect(old(p)@, value@, props::vars_view(vars)),
{
    reveal(crate::ast::calc_props_model);
    if let Some(e) = expr::parse_input_value_calc_expression(value) {
        p.input_value_calc_expression = Some(e);
        return;
    }
    if let Some(segments) = computed::parse_input_value_calc_concat(value) {
        p.input_value_calc_segments = Some(segments);
        return;
    }
    if let Some(steps) = computed::parse_input_value_calc_relative_path(value) {
        p.input_value_calc_path = Some(steps);
        return;
    }
    if let Some(m) = vars {
        if let Some((c, lit)) = computed::parse_variable_input_value_calc(value, m) {
            p.input_value_calc = Some(c);
            p.input_value_calc_literal = lit;
            return;
        }
    }
    if let Some((c, sibling, lit)) = computed::parse_input_value_calc(value) {
        p.input_value_calc = Some(c);
        p.input_value_calc_sibling = sibling;
        p.input_value_calc_literal = lit;
    }
}

/// What an `outputValueCalc` attribute does: the factor at its end is split
/// off, and the rest is one of the known computations, or is kept as text.
pub open spec fn output_effect(p: CalcPropsModel, value: Seq<char>) -> CalcPropsModel {
    let (calc_text, scale) = computed::without_factor(value);
    let q = CalcPropsModel {
        output_value_calc_scale: if scale != 1 {
            Some(scale)
        } else {
            p.output_value_calc_scale
        },
        ..p
    };
    output_rest(q, calc_text)
}

/// What an `outputValueCalc` without a factor does.
pub open spec fn output_rest(p: CalcPropsModel, value: Seq<char>) -> CalcPropsModel {
    if computed::repeat_indicator(value) {
        CalcPropsModel {
            output_value_calc: Some(OutputValueCalc::RepeatIndicatorFromParentCount),
            ..p
        }
    } else if computed::error_call(value) is Some {
        CalcPropsModel {
            output_value_calc: Some(OutputValueCalc::FnError),
            output_value_calc_literal: computed::error_call(value),
            ..p
        }
    } else if computed::date_argument(value) is Some {
        match computed::concatenation(expr::in_braces(computed::date_argument(value)->0)) {
            Some(segments) => CalcPropsModel {
                output_value_calc: Some(OutputValueCalc::FnConcat),
                output_value_calc_segments: Some(segments),
                ..p
            },
            None => CalcPropsModel {
                output_value_calc_conditional: true,
                output_value_calc_literal: expr::braced(value),
                ..p
            },
        }
    } else if computed::concatenation(value) is Some {
        CalcPropsModel {
            output_value_calc: Some(OutputValueCalc::FnConcat),
            output_value_calc_segments: computed::concatenation(value),
            ..p
        }
    } else if text::contains_spec(value, "if ("@) {
        CalcPropsModel { output_value_calc_conditional: true, ..p }
    } else {
        output_paths(p, value)
    }
}

/// What an `outputValueCalc` over paths and functions does.
pub open spec fn output_paths(p: CalcPropsModel, value: Seq<char>) -> CalcPropsModel {
    if computed::value_length_path(value) is Some {
        let (steps, units, addend) = computed::value_length_path(value)->0;
        CalcPropsModel {
            output_value_calc: Some(OutputValueCalc::ValueLengthInfosetPath(units, addend)),
            output_value_calc_path: Some(steps),
            ..p
        }
    } else if computed::output_count(value) is Some {
        CalcPropsModel {
            output_value_calc: Some(OutputValueCalc::FnCountPath),
            output_value_calc_path: computed::output_count(value),
            ..p
        }
    } else if computed::infoset_path(value) is Some {
        let (steps, addend) = computed::infoset_path(value)->0;
        CalcPropsModel {
            output_value_calc: Some(OutputValueCalc::InfosetPathAddend),
            output_value_calc_path: Some(steps),
            output_value_calc_path_addend: Some(addend),
            ..p
        }
    } else if computed::occurs_index_calc(value) is Some {
        let (c, steps, addend) = computed::occurs_index_calc(value)->0;
        CalcPropsModel {
            output_value_calc: Some(c),
            output_value_calc_path: Some(steps),
            output_value_calc_path_addend: addend,
            ..p
        }
    } else if computed::output_calc(value) is Some {
        let (c, sibling, lit) = computed::output_calc(value)->0;
        CalcPropsModel {
            output_value_calc: Some(c),
            output_value_calc_sibling: sibling,
            output_value_calc_literal: lit,
            ..p
        }
    } else if computed::looks_like_xpath(value) {
        CalcPropsModel {
            output_value_calc_conditional: true,
            output_value_calc_literal: expr::braced(value),
            ..p
        }
    } else {
        p
    }
}

/// The text between the braces.
fn body_text(value: &str) -> (r: Option<String>)
    ensures
        r.deep_view() == expr::braced(value@),
{
    let v = chars_of(value);
    match expr::between_braces(v.as_slice()) {
        Some(t) => Some(string_of(t)),
        None => None,
    }
}

/// Applies an `outputValueCalc` over paths and functions.
fn set_output_paths(p: &mut CalcProps, value: &str)
    ensures
        final(p)@ == output_paths(old(p)@, value@),
{
    reveal(crate::ast::calc_props_model);
    if let Some((steps, units, addend)) = computed::parse_output_value_calc_value_length_path(value) {
        p.output_value_calc = Some(OutputValueCalc::ValueLengthInfosetPath(units, addend));
        p.output_value_calc_path = Some(steps);
        return;
    }
    if let Some(steps) = computed::parse_output_value_calc_fn_count(value) {
        p.output_value_calc = Some(OutputValueCalc::FnCountPath);
        p.output_value_calc_path = Some(steps);
        return;
    }
    if let Some((steps, addend)) = computed::parse_output_value_calc_infoset_path(value) {
        p.output_value_calc = Some(OutputValueCalc::InfosetPathAddend);
        p.output_value_calc_path = Some(steps);
        p.output_value_calc_path_addend = Some(addend);
        return;
    }
    if let Some((c, steps, addend)) = computed::parse_output_value_calc_occurs_index(value) {
        p.output_value_calc = Some(c);
        p.output_value_calc_path = Some(steps);
        p.output_value_calc_path_addend = addend;
        return;
    }
    if let Some((c, sibling, lit)) = computed::parse_output_value_calc(value) {
        p.output_value_calc = Some(c);
        p.output_value_calc_sibling = sibling;
        p.output_value_calc_literal = lit;
        return;
    }
    if computed::looks_like_xpath_output_value_calc(value) {
        p.output_value_calc_conditional = true;
        p.output_value_calc_literal = body_text(value);
    }
}

/// Applies an `outputValueCalc` attribute.
fn set_output_calc(p: &mut CalcProps, value: &str)
    ensures
        final(p)@ == output_effect(old(p)@, value@),
{
    reveal(crate::ast::calc_props_model);
    let (rest, scale) = computed::output_value_calc_strip_multiply(value);
    if scale != 1 {
        p.output_value_calc_scale = Some(scale);
    }
    let value = rest.as_str();
    if computed::parse_repeat_indicator_output_value_calc(value) {
        p.output_value_calc = Some(OutputValueCalc::RepeatIndicatorFromParentCount);
        return;
    }
    if let Some(call) = computed::parse_output_value_calc_fn_error(value) {
        p.output_value_calc = Some(OutputValueCalc::FnError);
        p.output_value_calc_literal = Some(call);
        return;
    }
    if let Some(inner) = computed::parse_output_value_calc_xs_date_inner(value) {
        let c = chars_of(inner.as_str());
        let b = expr::brace(c.as_slice());
        let wrapped = string_of(b.as_slice());
        if let Some(segments) = computed::parse_input_value_calc_concat(wrapped.as_str()) {
            p.output_value_calc = Some(OutputValueCalc::FnConcat);
            p.output_value_calc_segments = Some(segments);
        } else {
            p.output_value_calc_conditional = true;
            p.output_value_calc_literal = body_text(value);
        }
        return;
    }
    if let Some(segments) = computed::parse_input_value_calc_concat(value) {
        p.output_value_calc = Some(OutputValueCalc::FnConcat);
        p.output_value_calc_segments = Some(segments);
        return;
    }
    let chars = chars_of(value);
    if contains(chars.as_slice(), "if (") {
        p.output_value_calc_conditional = true;
        return;
    }
    set_output_paths(p, value);
}

/// What the attribute `key` with this value does to [`CalcProps`], if it is one of
/// them.
#[verifier::opaque]
pub open spec fn calc_attr(p: CalcPropsModel, key: Seq<char>, value: Seq<char>, vars: Option<Seq<(Seq<char>, Seq<char>)>>) -> Option<
    Result<CalcPropsModel, ErrorModel>,
> {
    if key == "outputValueCalc"@ {
        Some(Ok(output_effect(p, value)))
    } else if key == "inputValueCalc"@ {
        Some(Ok(input_effect(p, value, vars)))
    } else {
        None
    }
}

/// Applies the attribute `key` to [`CalcProps`], if it is one of them.
pub fn set_calc(p: &mut CalcProps, key: &[char], value: &str, vars: Option<&StrMap<String>>) -> (r: Result<bool, Error>)
    ensures
        props::applied(calc_attr(old(p)@, key@, value@, props::vars_view(vars)), old(p)@, final(p)@, r),
{
    reveal(calc_attr);
    reveal(crate::ast::calc_props_model);
    let chars = chars_of(value);
    let v = chars.as_slice();
    if is(key, "outputValueCalc") {
        set_output_calc(p, value);
    } else if is(key, "inputValueCalc") {
        set_input_calc(p, value, vars);
    } else {
        return Ok(false);
    }
    Ok(true)
}

/// No attribute of the group has a name that begins with `z`.
pub proof fn lemma_not_named(
    p: CalcPropsModel,
    key: Seq<char>,
    value: Seq<char>,
    vars: Option<Seq<(Seq<char>, Seq<char>)>>,
)
    requires
        key.len() > 0,
        key[0] == 'z',
    ensures
        calc_attr(p, key, value, vars) is None,
{
    reveal(calc_attr);
    reveal_strlit("outputValueCalc");
    reveal_strlit("inputValueCalc");
}

} // verus!
