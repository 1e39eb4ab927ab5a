//! Attributes of [`CalendarProps`].

use vstd::prelude::*;
use crate::ast::{CalendarPatternKind, CalendarProps, CalendarPropsModel};
use crate::computed;
use crate::numbers;
use crate::error::{Error, ErrorModel};
use crate::numbers::{parse_u32};
use crate::props;
use crate::props::{invalid, unknown};
use crate::text::{chars_of, is};
use crate::values::owned;

verus! {

/// The value of the property that `value` names.
pub open spec fn calendar_pattern_kind_value(value: Seq<char>) -> Option<CalendarPatternKind> {
    if value == "explicit"@ {
        Some(CalendarPatternKind::Explicit)
    } else if value == "implicit"@ {
        Some(CalendarPatternKind::Implicit)
    } else {
        None
    }
}

/// Reads the value of a property.
fn read_calendar_pattern_kind(value: &[char]) -> (r: Option<CalendarPatternKind>)
    ensures
        r == calendar_pattern_kind_value(value@),
{
    if is(value, "explicit") {
        Some(CalendarPatternKind::Explicit)
    } else if is(value, "implicit") {
        Some(CalendarPatternKind::Implicit)
    } else {
        None
    }
}

/// What the attribute `key` with this value does to [`CalendarProps`], if it is one of
/// them.
#[verifier::opaque]
pub open spec fn calendar_attr(p: CalendarPropsModel, key: Seq<char>, value: Seq<char>) -> Option<
    Result<CalendarPropsModel, ErrorModel>,
> {
    if key == "calendarPattern"@ {
        Some(Ok(CalendarPropsModel { calendar_pattern: Some(value), ..p }))
    } else if key == "calendarPatternKind"@ {
        Some(
            match calendar_pattern_kind_value(value) {
                Some(x) => Ok(CalendarPropsModel { calendar_pattern_kind: Some(x), ..p }),
                None => Err(props::unknown_spec("calendarPatternKind"@, value)),
            },
        )
    } else if key == "calendarCheckPolicy"@ {
        Some(
            Ok(CalendarPropsModel { calendar_check_policy_lax: Some(value == "lax"@), ..p }),
        )
    } else if key == "calendarTimeZone"@ {
        Some(
            Ok(CalendarPropsModel { calendar_time_zone: Some(value), calendar_time_zone_defined: true, ..p }),
        )
    } else if key == "calendarCenturyStart"@ {
        Some(
            match numbers::u32_spec(value) {
                Some(n) => Ok(CalendarPropsModel { calendar_century_start: Some(n), ..p }),
                None => Err(props::invalid_spec("calendarCenturyStart"@, value)),
            },
        )
    } else if key == "calendarLanguage"@ {
        Some(
            match computed::concatenation(value) {
                Some(segments) => Ok(CalendarPropsModel {
                    calendar_language_segments: Some(segments),
                    ..p
                }),
                None => Ok(CalendarPropsModel { calendar_language: Some(value), ..p }),
            },
        )
    } else if key == "calendarDaysInFirstWeek"@ {
        Some(
            match numbers::u32_spec(value) {
                Some(n) => Ok(CalendarPropsModel { calendar_days_in_first_week: Some(n), ..p }),
                None => Err(props::invalid_spec("calendarDaysInFirstWeek"@, value)),
            },
        )
    } else if key == "calendarFirstDayOfWeek"@ {
        Some(
            Ok(CalendarPropsModel { calendar_first_day_of_week: Some(value), ..p }),
        )
    } else {
        None
    }
}

/// Applies the attribute `key` to [`CalendarProps`], if it is one of them.
pub fn set_calendar(p: &mut CalendarProps, key: &[char], value: &str) -> (r: Result<bool, Error>)
    ensures
        props::applied(calendar_attr(old(p)@, key@, value@), old(p)@, final(p)@, r),
{
    reveal(calendar_attr);
    reveal(crate::ast::calendar_props_model);
    let chars = chars_of(value);
    let v = chars.as_slice();
    if is(key, "calendarPattern") {
        p.calendar_pattern = Some(owned(value));
    } else if is(key, "calendarPatternKind") {
        match read_calendar_pattern_kind(v) {
            Some(x) => {
                p.calendar_pattern_kind = Some(x);
            },
            None => {
                return Err(unknown("calendarPatternKind", value));
            },
        }
    } else if is(key, "calendarCheckPolicy") {
        p.calendar_check_policy_lax = Some(is(v, "lax"));
    } else if is(key, "calendarTimeZone") {
        p.calendar_time_zone_defined = true;
        p.calendar_time_zone = Some(owned(value));
    } else if is(key, "calendarCenturyStart") {
        match parse_u32(v) {
            Some(n) => {
                p.calendar_century_start = Some(n);
            },
            None => {
                return Err(invalid("calendarCenturyStart", value));
            },
        }
    } else if is(key, "calendarLanguage") {
        match computed::parse_input_value_calc_concat(value) {
            Some(segments) => {
                p.calendar_language_segments = Some(segments);
            },
            None => {
                p.calendar_language = Some(owned(value));
            },
        }
    } else if is(key, "calendarDaysInFirstWeek") {
        match parse_u32(v) {
            Some(n) => {
                p.calendar_days_in_first_week = Some(n);
            },
            None => {
                return Err(invalid("calendarDaysInFirstWeek", value));
            },
        }
    } else if is(key, "calendarFirstDayOfWeek") {
        p.calendar_first_day_of_week = Some(owned(value));
    } else {
        return Ok(false);
    }
    Ok(true)
}

/// No attribute of the group has a name that begins with `z`.
pub proof fn lemma_not_named(p: CalendarPropsModel, key: Seq<char>, value: Seq<char>)
    requires
        key.len() > 0,
        key[0] == 'z',
    ensures
        calendar_attr(p, key, value) is None,
{
    reveal(calendar_attr);
    reveal_strlit("calendarPattern");
    reveal_strlit("calendarPatternKind");
    reveal_strlit("calendarCheckPolicy");
    reveal_strlit("calendarTimeZone");
    reveal_strlit("calendarCenturyStart");
    reveal_strlit("calendarLanguage");
    reveal_strlit("calendarDaysInFirstWeek");
    reveal_strlit("calendarFirstDayOfWeek");
}

} // verus!
