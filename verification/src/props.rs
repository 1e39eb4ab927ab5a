//! DFDL properties from attributes.

use vstd::prelude::*;
use crate::ast;
use crate::ast::{
    DfdlProps, DfdlPropsModel,
};
use crate::calendar;
use crate::error::{invalid_property, invalid_xml, Error, ErrorModel};
use crate::strmap::StrMap;
use crate::text;
use crate::text::{chars_of, is, last_piece, part, rfind_char};
use crate::values::owned;

pub mod binary_attrs;
pub mod calendar_attrs;
pub mod choice_attrs;
pub mod delimiters_attrs;
pub mod length_attrs;
pub mod number_attrs;
pub mod occurs_attrs;
pub mod physical_attrs;
pub mod stated;
pub mod statements_attrs;
pub mod text_attrs;
pub mod value_attrs;

verus! {

/// What is said of an `outputNewLine` that is empty.
pub const EMPTY_NEW_LINE: &'static str = "For property dfdl:outputNewLine, the length of string must be exactly 1 character, except for CRLF case when it can be 2 characters.";

/// What is said of an escape scheme that is defined on an element.
pub const MISPLACED_ESCAPE_SCHEME: &'static str = "Schema Definition Error: defineEscapeScheme must not appear as a property on an element declaration";

/// The error for a value that is none of those that a property can have.
pub open spec fn unknown_spec(name: Seq<char>, value: Seq<char>) -> ErrorModel {
    ErrorModel::InvalidXml("unknown "@ + name + " `"@ + value + "`"@)
}

/// The error for a value that cannot be read.
pub open spec fn invalid_spec(name: Seq<char>, value: Seq<char>) -> ErrorModel {
    ErrorModel::InvalidXml("invalid "@ + name + " `"@ + value + "`"@)
}

/// The error for a value that is none of those that a property can have.
pub fn unknown(name: &str, value: &str) -> (r: Error)
    ensures
        r@ == unknown_spec(name@, value@),
{
    invalid_xml(crate::error::cat5("unknown ", name, " `", value, "`"))
}

/// The error for a value that cannot be read.
pub fn invalid(name: &str, value: &str) -> (r: Error)
    ensures
        r@ == invalid_spec(name@, value@),
{
    invalid_xml(crate::error::cat5("invalid ", name, " `", value, "`"))
}

/// The variables, if there are any.
pub open spec fn vars_view(vars: Option<&StrMap<String>>) -> Option<
    Seq<(Seq<char>, Seq<char>)>,
> {
    match vars {
        Some(m) => Some(m@),
        None => None,
    }
}

/// The attribute had its effect: none, where it is not of the group.
pub open spec fn applied<M>(
    effect: Option<Result<M, ErrorModel>>,
    before: M,
    after: M,
    r: Result<bool, Error>,
) -> bool {
    match effect {
        None => r == Ok::<bool, Error>(false) && after == before,
        Some(Ok(m)) => r == Ok::<bool, Error>(true) && after == m,
        Some(Err(e)) => r matches Err(x) && x@ == e,
    }
}

/// `yes`, `true` or `1`.
pub open spec fn truthy(value: Seq<char>) -> bool {
    value == "yes"@ || value == "true"@ || value == "1"@
}

/// Whether the value is `yes`, `true` or `1`.
pub fn is_truthy(value: &[char]) -> (r: bool)
    ensures
        r == truthy(value@),
{
    is(value, "yes") || is(value, "true") || is(value, "1")
}

/// The name of an attribute without its namespace or prefix.
pub open spec fn local_tag_spec(tag: Seq<char>) -> Seq<char> {
    match text::char_rpos(tag, '}') {
        Some(i) => tag.skip(i + 1),
        None => text::after_last(tag, ':'),
    }
}

/// The name of an attribute without its namespace or prefix.
pub fn local_tag<'a>(tag: &'a [char]) -> (r: &'a [char])
    ensures
        r@ == local_tag_spec(tag@),
{
    match rfind_char(tag, '}') {
        Some(i) => {
            let n: usize = tag.len();
            assert(tag@.subrange(i + 1, n as int) == tag@.skip(i + 1));
            part(tag, i + 1, n)
        },
        None => last_piece(tag, ':'),
    }
}

/// What the attribute `key` with this value does to the properties.
#[verifier::opaque]
pub open spec fn attr_effect(
    p: DfdlPropsModel,
    key: Seq<char>,
    value: Seq<char>,
    vars: Option<Seq<(Seq<char>, Seq<char>)>>,
) -> Result<DfdlPropsModel, ErrorModel> {
    if physical_attrs::physical_attr(p.physical, key, value) is Some {
        match physical_attrs::physical_attr(p.physical, key, value)->0 {
            Ok(g) => Ok(DfdlPropsModel { physical: g, ..p }),
            Err(e) => Err(e),
        }
    } else if length_attrs::length_attr(p.length, key, value, vars) is Some {
        match length_attrs::length_attr(p.length, key, value, vars)->0 {
            Ok(g) => Ok(DfdlPropsModel { length: g, ..p }),
            Err(e) => Err(e),
        }
    } else if text_attrs::text_attr(p.text, key, value) is Some {
        match text_attrs::text_attr(p.text, key, value)->0 {
            Ok(g) => Ok(DfdlPropsModel { text: g, ..p }),
            Err(e) => Err(e),
        }
    } else if number_attrs::number_attr(p.number, key, value) is Some {
        match number_attrs::number_attr(p.number, key, value)->0 {
            Ok(g) => Ok(DfdlPropsModel { number: g, ..p }),
            Err(e) => Err(e),
        }
    } else if binary_attrs::binary_attr(p.binary, key, value) is Some {
        match binary_attrs::binary_attr(p.binary, key, value)->0 {
            Ok(g) => Ok(DfdlPropsModel { binary: g, ..p }),
            Err(e) => Err(e),
        }
    } else if calendar_attrs::calendar_attr(p.calendar, key, value) is Some {
        match calendar_attrs::calendar_attr(p.calendar, key, value)->0 {
            Ok(g) => Ok(DfdlPropsModel { calendar: g, ..p }),
            Err(e) => Err(e),
        }
    } else if delimiters_attrs::delimiters_attr(p.delimiters, key, value) is Some {
        match delimiters_attrs::delimiters_attr(p.delimiters, key, value)->0 {
            Ok(g) => Ok(DfdlPropsModel { delimiters: g, ..p }),
            Err(e) => Err(e),
        }
    } else if occurs_attrs::occurs_attr(p.occurs, key, value) is Some {
        match occurs_attrs::occurs_attr(p.occurs, key, value)->0 {
            Ok(g) => Ok(DfdlPropsModel { occurs: g, ..p }),
            Err(e) => Err(e),
        }
    } else if choice_attrs::choice_attr(p.choice, key, value) is Some {
        match choice_attrs::choice_attr(p.choice, key, value)->0 {
            Ok(g) => Ok(DfdlPropsModel { choice: g, ..p }),
            Err(e) => Err(e),
        }
    } else if value_attrs::calc_attr(p.calc, key, value, vars) is Some {
        match value_attrs::calc_attr(p.calc, key, value, vars)->0 {
            Ok(g) => Ok(DfdlPropsModel { calc: g, ..p }),
            Err(e) => Err(e),
        }
    } else if statements_attrs::statements_attr(p.statements, key, value) is Some {
        match statements_attrs::statements_attr(p.statements, key, value)->0 {
            Ok(g) => Ok(DfdlPropsModel { statements: g, ..p }),
            Err(e) => Err(e),
        }
    } else if key == "defineEscapeScheme"@ {
        Err(ErrorModel::InvalidProperty(MISPLACED_ESCAPE_SCHEME@))
    } else {
        Ok(p)
    }
}

/// Applies the attribute `key` to the properties.
fn apply_attr(
    p: &mut DfdlProps,
    key: &[char],
    value: &str,
    vars: Option<&StrMap<String>>,
) -> (r: Result<(), Error>)
    ensures
        match attr_effect(old(p)@, key@, value@, vars_view(vars)) {
            Ok(m) => r is Ok && final(p)@ == m,
            Err(e) => r matches Err(x) && x@ == e,
        },
{
    reveal(attr_effect);
    match physical_attrs::set_physical(&mut p.physical, key, value) {
        Ok(true) => {
            return Ok(());
        },
        Ok(false) => {},
        Err(e) => {
            return Err(e);
        },
    }
    match length_attrs::set_length(&mut p.length, key, value, vars) {
        Ok(true) => {
            return Ok(());
        },
        Ok(false) => {},
        Err(e) => {
            return Err(e);
        },
    }
    match text_attrs::set_text(&mut p.text, key, value) {
        Ok(true) => {
            return Ok(());
        },
        Ok(false) => {},
        Err(e) => {
            return Err(e);
        },
    }
    match number_attrs::set_number(&mut p.number, key, value) {
        Ok(true) => {
            return Ok(());
        },
        Ok(false) => {},
        Err(e) => {
            return Err(e);
        },
    }
    match binary_attrs::set_binary(&mut p.binary, key, value) {
        Ok(true) => {
            return Ok(());
        },
        Ok(false) => {},
        Err(e) => {
            return Err(e);
        },
    }
    match calendar_attrs::set_calendar(&mut p.calendar, key, value) {
        Ok(true) => {
            return Ok(());
        },
        Ok(false) => {},
        Err(e) => {
            return Err(e);
        },
    }
    match delimiters_attrs::set_delimiters(&mut p.delimiters, key, value) {
        Ok(true) => {
            return Ok(());
        },
        Ok(false) => {},
        Err(e) => {
            return Err(e);
        },
    }
    match occurs_attrs::set_occurs(&mut p.occurs, key, value) {
        Ok(true) => {
            return Ok(());
        },
        Ok(false) => {},
        Err(e) => {
            return Err(e);
        },
    }
    match choice_attrs::set_choice(&mut p.choice, key, value) {
        Ok(true) => {
            return Ok(());
        },
        Ok(false) => {},
        Err(e) => {
            return Err(e);
        },
    }
    match value_attrs::set_calc(&mut p.calc, key, value, vars) {
        Ok(true) => {
            return Ok(());
        },
        Ok(false) => {},
        Err(e) => {
            return Err(e);
        },
    }
    match statements_attrs::set_statements(&mut p.statements, key, value) {
        Ok(true) => {
            return Ok(());
        },
        Ok(false) => {},
        Err(e) => {
            return Err(e);
        },
    }
    if is(key, "defineEscapeScheme") {
        return Err(invalid_property(owned(MISPLACED_ESCAPE_SCHEME)));
    }
    Ok(())
}

/// The properties that the attributes state, taken in the order of their names.
pub open spec fn attrs_props(
    attrs: Seq<(Seq<char>, Seq<char>)>,
    vars: Option<Seq<(Seq<char>, Seq<char>)>>,
) -> Result<DfdlPropsModel, ErrorModel>
    decreases attrs.len(),
{
    if attrs.len() == 0 {
        Ok(ast::no_props())
    } else {
        match attrs_props(attrs.drop_last(), vars) {
            Ok(p) => attr_effect(p, local_tag_spec(attrs.last().0), attrs.last().1, vars),
            Err(e) => Err(e),
        }
    }
}

/// What is said of a time zone that is none.
pub open spec fn time_zone_complaint(value: Seq<char>, label: Option<Seq<char>>) -> Seq<char> {
    let said = "Schema Definition Error: Value '"@ + value
        + "' is not valid with respect to its type, 'CalendarTimeZoneType'"@;
    match label {
        Some(l) => said + "\n"@ + l,
        None => said,
    }
}

/// What is said of the time zones among the attributes up to the first one
/// that cannot be read.
pub open spec fn attrs_complaints(
    attrs: Seq<(Seq<char>, Seq<char>)>,
    vars: Option<Seq<(Seq<char>, Seq<char>)>>,
    label: Option<Seq<char>>,
) -> Seq<Seq<char>>
    decreases attrs.len(),
{
    if attrs.len() == 0 {
        Seq::empty()
    } else {
        let before = attrs_complaints(attrs.drop_last(), vars, label);
        if attrs_props(attrs.drop_last(), vars) is Ok && local_tag_spec(attrs.last().0)
            == "calendarTimeZone"@ && !calendar::is_time_zone(attrs.last().1) {
            before.push(time_zone_complaint(attrs.last().1, label))
        } else {
            before
        }
    }
}

/// Records a time zone that is none.
fn record_invalid_calendar_time_zone(
    value: &str,
    schema_label: Option<&str>,
    diagnostics: &mut Vec<String>,
)
    ensures
        final(diagnostics).deep_view() == (if calendar::is_time_zone(value@) {
            old(diagnostics).deep_view()
        } else {
            old(diagnostics).deep_view().push(
                time_zone_complaint(value@, text::ref_opt(schema_label)),
            )
        }),
{
    if calendar::is_valid_dfdl_calendar_time_zone(value) {
        return;
    }
    let ghost before = diagnostics.deep_view();
    let mut said = crate::error::cat3(
        "Schema Definition Error: Value '",
        value,
        "' is not valid with respect to its type, 'CalendarTimeZoneType'",
    );
    if let Some(label) = schema_label {
        said.append("\n");
        said.append(label);
    }
    diagnostics.push(said);
    assert(diagnostics.deep_view() =~= before.push(
        time_zone_complaint(value@, text::ref_opt(schema_label)),
    ));
}

/// Reads DFDL properties from attributes, with the schema's variables, and
/// records what is wrong with time zones.
pub fn props_from_attrs_with_variables(
    attrs: &StrMap<String>,
    variables: Option<&StrMap<String>>,
    schema_label: Option<&str>,
    diagnostics: &mut Vec<String>,
) -> (r: Result<DfdlProps, Error>)
    ensures
        crate::error::outcome(r) == attrs_props(attrs@, vars_view(variables)),
        final(diagnostics).deep_view() == old(diagnostics).deep_view() + attrs_complaints(
            attrs@,
            vars_view(variables),
            text::ref_opt(schema_label),
        ),
{
    let mut props = DfdlProps::default();
    let ghost vars = vars_view(variables);
    let ghost label = text::ref_opt(schema_label);
    let ghost start = diagnostics.deep_view();
    let n: usize = attrs.entries.len();
    let mut i: usize = 0;
    assert(start + Seq::<Seq<char>>::empty() =~= start);
    while i < n
        invariant
            i <= n,
            n == attrs.entries@.len(),
            n == attrs@.len(),
            start == old(diagnostics).deep_view(),
            vars == vars_view(variables),
            label == text::ref_opt(schema_label),
            attrs_props(attrs@.take(i as int), vars) == Ok::<DfdlPropsModel, ErrorModel>(props@),
            diagnostics.deep_view() == start + attrs_complaints(
                attrs@.take(i as int),
                vars,
                label,
            ),
        decreases n - i,
    {
        let entry = &attrs.entries[i];
        let name = chars_of(entry.0.as_str());
        let key = local_tag(name.as_slice());
        let ghost here = attrs@.take(i + 1);
        proof {
            assert(here.drop_last() == attrs@.take(i as int));
            assert(here.last() == attrs@[i as int]);
        }
        if is(key, "calendarTimeZone") {
            let ghost before = attrs_complaints(attrs@.take(i as int), vars, label);
            let ghost said = time_zone_complaint(entry.1@, label);
            record_invalid_calendar_time_zone(entry.1.as_str(), schema_label, diagnostics);
            assert(start + before.push(said) =~= (start + before).push(said));
        }
        assert(diagnostics.deep_view() == start + attrs_complaints(here, vars, label));
        match apply_attr(&mut props, key, entry.1.as_str(), variables) {
            Ok(()) => {},
            Err(e) => {
                proof {
                    lemma_attrs_stop(attrs@, vars, label, i + 1);
                }
                return Err(e);
            },
        }
        i += 1;
    }
    assert(attrs@.take(i as int) == attrs@);
    Ok(props)
}

/// Behind the first attribute that cannot be read, nothing more is done.
proof fn lemma_attrs_stop(
    attrs: Seq<(Seq<char>, Seq<char>)>,
    vars: Option<Seq<(Seq<char>, Seq<char>)>>,
    label: Option<Seq<char>>,
    n: int,
)
    requires
        0 <= n <= attrs.len(),
        attrs_props(attrs.take(n), vars) is Err,
    ensures
        attrs_props(attrs, vars) == attrs_props(attrs.take(n), vars),
        attrs_complaints(attrs, vars, label) == attrs_complaints(attrs.take(n), vars, label),
    decreases attrs.len() - n,
{
    if n == attrs.len() {
        assert(attrs.take(n) == attrs);
    } else {
        assert(attrs.take(n + 1).drop_last() == attrs.take(n));
        lemma_attrs_stop(attrs, vars, label, n + 1);
    }
}

/// Reads DFDL properties from attributes.
pub fn props_from_attrs(attrs: &StrMap<String>) -> (r: Result<DfdlProps, Error>)
    ensures
        crate::error::outcome(r) == attrs_props(attrs@, None),
{
    let mut unused: Vec<String> = Vec::new();
    props_from_attrs_with_variables(attrs, None, None, &mut unused)
}

/// An attribute with this local name has no effect, whatever its value.
pub open spec fn unknown_name(key: Seq<char>) -> bool {
    &&& key != "calendarTimeZone"@
    &&& forall|p: DfdlPropsModel, value: Seq<char>, vars: Option<Seq<(Seq<char>, Seq<char>)>>|
        #[trigger] attr_effect(p, key, value, vars) == Ok::<DfdlPropsModel, ErrorModel>(p)
}

proof fn lemma_unknown_inserted(
    attrs: Seq<(Seq<char>, Seq<char>)>,
    i: int,
    x: (Seq<char>, Seq<char>),
    vars: Option<Seq<(Seq<char>, Seq<char>)>>,
    label: Option<Seq<char>>,
)
    requires
        0 <= i <= attrs.len(),
        unknown_name(local_tag_spec(x.0)),
    ensures
        attrs_props(attrs.insert(i, x), vars) == attrs_props(attrs, vars),
        attrs_complaints(attrs.insert(i, x), vars, label) == attrs_complaints(attrs, vars, label),
    decreases attrs.len(),
{
    let more = attrs.insert(i, x);
    if i == attrs.len() {
        assert(more.drop_last() =~= attrs);
        assert(more.last() == x);
    } else {
        assert(more.drop_last() =~= attrs.drop_last().insert(i, x));
        assert(more.last() == attrs.last());
        lemma_unknown_inserted(attrs.drop_last(), i, x, vars, label);
    }
}

/// An attribute that is none of the properties changes nothing and is no error.
pub proof fn law_unknown_ignored(
    attrs: Seq<(Seq<char>, Seq<char>)>,
    key: Seq<char>,
    value: Seq<char>,
    vars: Option<Seq<(Seq<char>, Seq<char>)>>,
    label: Option<Seq<char>>,
)
    requires
        crate::strmap::lookup(attrs, key) is None,
        unknown_name(local_tag_spec(key)),
    ensures
        attrs_props(crate::strmap::with_entry(attrs, key, value), vars) == attrs_props(attrs, vars),
        attrs_complaints(crate::strmap::with_entry(attrs, key, value), vars, label)
            == attrs_complaints(attrs, vars, label),
{
    crate::strmap::lemma_rank(attrs, key);
    lemma_unknown_inserted(attrs, crate::strmap::rank(attrs, key), (key, value), vars, label);
}

/// No property has a name that begins with `z`.
pub proof fn law_unknown_names(key: Seq<char>)
    requires
        key.len() > 0,
        key[0] == 'z',
    ensures
        unknown_name(key),
{
    reveal_strlit("calendarTimeZone");
    assert forall|p: DfdlPropsModel, value: Seq<char>, vars: Option<Seq<(Seq<char>, Seq<char>)>>|
        #[trigger] attr_effect(p, key, value, vars) == Ok::<DfdlPropsModel, ErrorModel>(p) by {
        reveal(attr_effect);
        physical_attrs::lemma_not_named(p.physical, key, value);
        length_attrs::lemma_not_named(p.length, key, value, vars);
        text_attrs::lemma_not_named(p.text, key, value);
        number_attrs::lemma_not_named(p.number, key, value);
        binary_attrs::lemma_not_named(p.binary, key, value);
        calendar_attrs::lemma_not_named(p.calendar, key, value);
        delimiters_attrs::lemma_not_named(p.delimiters, key, value);
        occurs_attrs::lemma_not_named(p.occurs, key, value);
        choice_attrs::lemma_not_named(p.choice, key, value);
        value_attrs::lemma_not_named(p.calc, key, value, vars);
        statements_attrs::lemma_not_named(p.statements, key, value);
        reveal_strlit("defineEscapeScheme");
    }
}

/// Only the local name of an attribute counts.
pub proof fn law_local_name_counts(
    a: Seq<(Seq<char>, Seq<char>)>,
    b: Seq<(Seq<char>, Seq<char>)>,
    vars: Option<Seq<(Seq<char>, Seq<char>)>>,
    label: Option<Seq<char>>,
)
    requires
        a.len() == b.len(),
        forall|i: int|
            #![trigger a[i]]
            0 <= i < a.len() ==> local_tag_spec(a[i].0) == local_tag_spec(b[i].0) && a[i].1
                == b[i].1,
    ensures
        attrs_props(a, vars) == attrs_props(b, vars),
        attrs_complaints(a, vars, label) == attrs_complaints(b, vars, label),
    decreases a.len(),
{
    if a.len() > 0 {
        assert(a.last() == a[a.len() - 1]);
        assert forall|i: int|
            #![trigger a.drop_last()[i]]
            0 <= i < a.len() - 1 implies local_tag_spec(a.drop_last()[i].0) == local_tag_spec(
            b.drop_last()[i].0,
        ) && a.drop_last()[i].1 == b.drop_last()[i].1 by {
            assert(a.drop_last()[i] == a[i]);
        }
        law_local_name_counts(a.drop_last(), b.drop_last(), vars, label);
    }
}

/// The local name of an attribute is its own local name, unless a colon stands in it.
pub proof fn law_local_name_stable(key: Seq<char>)
    requires
        !local_tag_spec(key).contains(':'),
    ensures
        local_tag_spec(local_tag_spec(key)) == local_tag_spec(key),
{
    let t = local_tag_spec(key);
    text::lemma_char_rpos(key, '}');
    text::lemma_char_rpos(key, ':');
    text::lemma_char_rpos(t, '}');
    text::lemma_char_rpos(t, ':');
    if text::char_rpos(t, '}') is Some {
        let j = text::char_rpos(t, '}')->0;
        let from = match text::char_rpos(key, '}') {
            Some(i) => i + 1,
            None => match text::char_rpos(key, ':') {
                Some(i) => i + 1,
                None => 0,
            },
        };
        assert(t =~= key.skip(from));
        assert(key[from + j] == '}');
        assert(key.contains(key[from + j]));
    }
    if text::char_rpos(t, ':') is Some {
        assert(t.contains(t[text::char_rpos(t, ':')->0]));
    }
}

} // verus!
