//! The attributes of the elements of a schema.

use vstd::prelude::*;
use crate::ast::{
    DfdlProps, DfdlPropsModel, EscapeKind, EscapeSchemeDef, EscapeSchemeDefModel, OccursProps,
    OccursPropsModel,
};
use crate::ast;
use crate::entities;
use crate::entities::{expand_entities_str, extra_escaped_characters_from_property};
use crate::error;
use crate::error::{cat2, cat3, cat5, Error};
use crate::numbers;
use crate::numbers::parse_u64;
use crate::props;
use crate::props::{local_tag, props_from_attrs_with_variables};
use crate::strmap;
use crate::strmap::StrMap;
use crate::text;
use crate::text::{
    chars_of, contains, contains_char, ends_with, eq, find, find_char, first_piece, is, part, same,
    starts_with, string_of, strip_prefix, trim, trim_start,
};
use crate::values::{owned, Duplicate};

verus! {

/// The namespace of DFDL annotations.
pub const DFDL_NS: &'static str = "http://www.ogf.org/dfdl/";

/// The namespace that DFDL annotations had before.
pub const DFDL_LEGACY_NS: &'static str = "http://www.ogf.org/dfdl/dfdl-1.0/";

// ------------------------------------------------------------------ known names

/// The name of a DFDL property.
#[verifier::opaque]
pub open spec fn dfdl_property(name: Seq<char>) -> bool {
    ||| name == "representation"@
    ||| name == "byteOrder"@
    ||| name == "bitOrder"@
    ||| name == "lengthKind"@
    ||| name == "length"@
    ||| name == "lengthUnits"@
    ||| name == "lengthPattern"@
    ||| name == "encoding"@
    ||| name == "encodingErrorPolicy"@
    ||| name == "nilKind"@
    ||| name == "nilValue"@
    ||| name == "separatorSuppressionPolicy"@
    ||| name == "emptyElementParsePolicy"@
    ||| name == "occursCountKind"@
    ||| name == "escapeSchemeRef"@
    ||| name == "hiddenGroupRef"@
    ||| name == "ignoreCase"@
    ||| name == "textTrimKind"@
    ||| name == "truncateSpecifiedLengthString"@
    ||| name == "textNumberPadCharacter"@
    ||| name == "textStringPadCharacter"@
    ||| name == "textCalendarPadCharacter"@
    ||| name == "textCalendarJustification"@
    ||| name == "textPadKind"@
    ||| name == "textStringJustification"@
    ||| name == "textNumberJustification"@
    ||| name == "textStandardBase"@
    ||| name == "textNumberCheckPolicy"@
    ||| name == "textNumberRep"@
    ||| name == "textZonedSignStyle"@
    ||| name == "textStandardDecimalSeparator"@
    ||| name == "textStandardGroupingSeparator"@
    ||| name == "textStandardExponentRep"@
    ||| name == "textStandardInfinityRep"@
    ||| name == "textStandardNaNRep"@
    ||| name == "textStandardZeroRep"@
    ||| name == "binaryNumberRep"@
    ||| name == "binaryPackedSignCodes"@
    ||| name == "binaryNumberCheckPolicy"@
    ||| name == "binaryCalendarRep"@
    ||| name == "binaryCalendarEpoch"@
    ||| name == "binaryFloatRep"@
    ||| name == "binaryDecimalVirtualPoint"@
    ||| name == "decimalSigned"@
    ||| name == "calendarPattern"@
    ||| name == "calendarPatternKind"@
    ||| name == "calendarTimeZone"@
    ||| name == "calendarCenturyStart"@
    ||| name == "calendarLanguage"@
    ||| name == "calendarDaysInFirstWeek"@
    ||| name == "calendarFirstDayOfWeek"@
    ||| name == "textNumberPattern"@
    ||| name == "textNumberRounding"@
    ||| name == "textNumberRoundingIncrement"@
    ||| name == "textNumberRoundingMode"@
    ||| name == "initiator"@
    ||| name == "terminator"@
    ||| name == "separator"@
    ||| name == "initiatedContent"@
    ||| name == "outputNewLine"@
    ||| name == "separatorPosition"@
    ||| name == "textBooleanTrueRep"@
    ||| name == "textBooleanFalseRep"@
    ||| name == "alignment"@
    ||| name == "alignmentUnits"@
    ||| name == "leadingSkip"@
    ||| name == "trailingSkip"@
    ||| name == "sequenceKind"@
    ||| name == "choiceLengthKind"@
    ||| name == "choiceLength"@
    ||| name == "fillByte"@
    ||| name == "ref"@
    ||| name == "format"@
    ||| name == "prefixLengthType"@
    ||| name == "prefixIncludesPrefixLength"@
    ||| name == "objectKind"@
    ||| name == "choiceDispatchKey"@
    ||| name == "choiceBranchKey"@
    ||| name == "parseUnparsePolicy"@
    ||| name == "textBidi"@
    ||| name == "floating"@
}

/// Whether this is the name of a DFDL property.
pub fn is_dfdl_property(name: &[char]) -> (r: bool)
    ensures
        r == dfdl_property(name@),
{
    reveal(dfdl_property);
    is(name, "representation")
        || is(name, "byteOrder")
        || is(name, "bitOrder")
        || is(name, "lengthKind")
        || is(name, "length")
        || is(name, "lengthUnits")
        || is(name, "lengthPattern")
        || is(name, "encoding")
        || is(name, "encodingErrorPolicy")
        || is(name, "nilKind")
        || is(name, "nilValue")
        || is(name, "separatorSuppressionPolicy")
        || is(name, "emptyElementParsePolicy")
        || is(name, "occursCountKind")
        || is(name, "escapeSchemeRef")
        || is(name, "hiddenGroupRef")
        || is(name, "ignoreCase")
        || is(name, "textTrimKind")
        || is(name, "truncateSpecifiedLengthString")
        || is(name, "textNumberPadCharacter")
        || is(name, "textStringPadCharacter")
        || is(name, "textCalendarPadCharacter")
        || is(name, "textCalendarJustification")
        || is(name, "textPadKind")
        || is(name, "textStringJustification")
        || is(name, "textNumberJustification")
        || is(name, "textStandardBase")
        || is(name, "textNumberCheckPolicy")
        || is(name, "textNumberRep")
        || is(name, "textZonedSignStyle")
        || is(name, "textStandardDecimalSeparator")
        || is(name, "textStandardGroupingSeparator")
        || is(name, "textStandardExponentRep")
        || is(name, "textStandardInfinityRep")
        || is(name, "textStandardNaNRep")
        || is(name, "textStandardZeroRep")
        || is(name, "binaryNumberRep")
        || is(name, "binaryPackedSignCodes")
        || is(name, "binaryNumberCheckPolicy")
        || is(name, "binaryCalendarRep")
        || is(name, "binaryCalendarEpoch")
        || is(name, "binaryFloatRep")
        || is(name, "binaryDecimalVirtualPoint")
        || is(name, "decimalSigned")
        || is(name, "calendarPattern")
        || is(name, "calendarPatternKind")
        || is(name, "calendarTimeZone")
        || is(name, "calendarCenturyStart")
        || is(name, "calendarLanguage")
        || is(name, "calendarDaysInFirstWeek")
        || is(name, "calendarFirstDayOfWeek")
        || is(name, "textNumberPattern")
        || is(name, "textNumberRounding")
        || is(name, "textNumberRoundingIncrement")
        || is(name, "textNumberRoundingMode")
        || is(name, "initiator")
        || is(name, "terminator")
        || is(name, "separator")
        || is(name, "initiatedContent")
        || is(name, "outputNewLine")
        || is(name, "separatorPosition")
        || is(name, "textBooleanTrueRep")
        || is(name, "textBooleanFalseRep")
        || is(name, "alignment")
        || is(name, "alignmentUnits")
        || is(name, "leadingSkip")
        || is(name, "trailingSkip")
        || is(name, "sequenceKind")
        || is(name, "choiceLengthKind")
        || is(name, "choiceLength")
        || is(name, "fillByte")
        || is(name, "ref")
        || is(name, "format")
        || is(name, "prefixLengthType")
        || is(name, "prefixIncludesPrefixLength")
        || is(name, "objectKind")
        || is(name, "choiceDispatchKey")
        || is(name, "choiceBranchKey")
        || is(name, "parseUnparsePolicy")
        || is(name, "textBidi")
        || is(name, "floating")
}

/// An attribute that XML Schema itself gives to such an element.
pub open spec fn xsd_local_attr(element: Seq<char>, attr: Seq<char>) -> bool {
    &&& element == "element"@ || element == "attribute"@ || element == "group"@ || element
        == "attributeGroup"@
    &&& {
        ||| attr == "ref"@
        ||| attr == "name"@
        ||| attr == "type"@
        ||| attr == "minOccurs"@
        ||| attr == "maxOccurs"@
        ||| attr == "default"@
        ||| attr == "fixed"@
        ||| attr == "form"@
        ||| attr == "substitutionGroup"@
    }
}

/// Whether XML Schema itself gives this attribute to such an element.
pub fn is_xsd_local_attr(element: &str, attr: &[char]) -> (r: bool)
    ensures
        r == xsd_local_attr(element@, attr@),
{
    (eq(element, "element") || eq(element, "attribute") || eq(element, "group") || eq(
        element,
        "attributeGroup",
    )) && (is(attr, "ref")
        || is(attr, "name")
        || is(attr, "type")
        || is(attr, "minOccurs")
        || is(attr, "maxOccurs")
        || is(attr, "default")
        || is(attr, "fixed")
        || is(attr, "form")
        || is(attr, "substitutionGroup"))
}

/// An annotation element that needs no prefix.
pub open spec fn dfdl_local(tag: Seq<char>) -> bool {
    ||| tag == "format"@
    ||| tag == "element"@
    ||| tag == "sequence"@
    ||| tag == "choice"@
    ||| tag == "simpleType"@
    ||| tag == "group"@
}

/// Whether this is an annotation element that needs no prefix.
pub fn is_dfdl_local(tag: &str) -> (r: bool)
    ensures
        r == dfdl_local(tag@),
{
    eq(tag, "format") || eq(tag, "element") || eq(tag, "sequence") || eq(tag, "choice") || eq(
        tag,
        "simpleType",
    ) || eq(tag, "group")
}

/// An element is a DFDL annotation by its namespace, or, where it has none, by
/// its prefix or its name.
pub open spec fn dfdl_element(
    prefix: Option<Seq<char>>,
    local: Seq<char>,
    namespace: Option<Seq<char>>,
) -> bool {
    match namespace {
        Some(ns) => if ns == DFDL_NS@ || ns == DFDL_LEGACY_NS@ {
            true
        } else if ns.len() > 0 {
            false
        } else {
            dfdl_name(prefix, local)
        },
        None => dfdl_name(prefix, local),
    }
}

/// A name of an annotation, by its prefix or, where it has none, by itself.
pub open spec fn dfdl_name(prefix: Option<Seq<char>>, local: Seq<char>) -> bool {
    match prefix {
        Some(p) => p == "dfdl"@ || p == "dfdlx"@,
        None => dfdl_local(local),
    }
}

/// Whether an element is a DFDL annotation.
pub fn is_dfdl_element(prefix: Option<&str>, local: &str, namespace: Option<&str>) -> (r: bool)
    ensures
        r == dfdl_element(text::ref_opt(prefix), local@, text::ref_opt(namespace)),
{
    if let Some(ns) = namespace {
        if eq(ns, DFDL_NS) || eq(ns, DFDL_LEGACY_NS) {
            return true;
        }
        if !ns.is_empty() {
            return false;
        }
    }
    match prefix {
        Some(p) => eq(p, "dfdl") || eq(p, "dfdlx"),
        None => is_dfdl_local(local),
    }
}

// ---------------------------------------------------------------- single attributes

/// The value of the first attribute with this local name.
pub open spec fn by_local(attrs: Seq<(Seq<char>, Seq<char>)>, local: Seq<char>) -> Option<Seq<char>>
    decreases attrs.len(),
{
    if attrs.len() == 0 {
        None
    } else {
        match by_local(attrs.drop_last(), local) {
            Some(v) => Some(v),
            None => if props::local_tag_spec(attrs.last().0) == local {
                Some(attrs.last().1)
            } else {
                None
            },
        }
    }
}

/// The value of the first attribute with this local name.
pub fn attr_by_local<'a>(attrs: &'a StrMap<String>, local: &str) -> (r: Option<&'a String>)
    ensures
        r.deep_view() == by_local(attrs@, local@),
{
    let l = chars_of(local);
    let n: usize = attrs.entries.len();
    let mut i: usize = 0;
    while i < n
        invariant
            i <= n,
            n == attrs.entries@.len(),
            n == attrs@.len(),
            l@ == local@,
            by_local(attrs@.take(i as int), local@) is None,
        decreases n - i,
    {
        assert(attrs@.take(i + 1).drop_last() == attrs@.take(i as int));
        assert(attrs@.take(i + 1).last() == attrs@[i as int]);
        let k = chars_of(attrs.entries[i].0.as_str());
        if same(local_tag(k.as_slice()), l.as_slice()) {
            proof {
                lemma_by_local_stays(attrs@, local@, i + 1);
            }
            return Some(&attrs.entries[i].1);
        }
        i += 1;
    }
    assert(attrs@.take(i as int) == attrs@);
    None
}

proof fn lemma_by_local_stays(attrs: Seq<(Seq<char>, Seq<char>)>, local: Seq<char>, n: int)
    requires
        0 <= n <= attrs.len(),
        by_local(attrs.take(n), local) is Some,
    ensures
        by_local(attrs, local) == by_local(attrs.take(n), local),
    decreases attrs.len() - n,
{
    if n == attrs.len() {
        assert(attrs.take(n) == attrs);
    } else {
        assert(attrs.take(n + 1).drop_last() == attrs.take(n));
        lemma_by_local_stays(attrs, local, n + 1);
    }
}

/// The value of the first attribute whose name ends in this.
pub open spec fn by_suffix(attrs: Seq<(Seq<char>, Seq<char>)>, suffix: Seq<char>) -> Option<
    Seq<char>,
>
    decreases attrs.len(),
{
    if attrs.len() == 0 {
        None
    } else {
        match by_suffix(attrs.drop_last(), suffix) {
            Some(v) => Some(v),
            None => if text::has_suffix(attrs.last().0, suffix) {
                Some(attrs.last().1)
            } else {
                None
            },
        }
    }
}

proof fn lemma_by_suffix_stays(attrs: Seq<(Seq<char>, Seq<char>)>, suffix: Seq<char>, n: int)
    requires
        0 <= n <= attrs.len(),
        by_suffix(attrs.take(n), suffix) is Some,
    ensures
        by_suffix(attrs, suffix) == by_suffix(attrs.take(n), suffix),
    decreases attrs.len() - n,
{
    if n == attrs.len() {
        assert(attrs.take(n) == attrs);
    } else {
        assert(attrs.take(n + 1).drop_last() == attrs.take(n));
        lemma_by_suffix_stays(attrs, suffix, n + 1);
    }
}

/// The value of the first attribute whose name ends in this.
pub fn attr_by_suffix<'a>(attrs: &'a StrMap<String>, suffix: &str) -> (r: Option<&'a String>)
    ensures
        r.deep_view() == by_suffix(attrs@, suffix@),
{
    let n: usize = attrs.entries.len();
    let mut i: usize = 0;
    while i < n
        invariant
            i <= n,
            n == attrs.entries@.len(),
            n == attrs@.len(),
            by_suffix(attrs@.take(i as int), suffix@) is None,
        decreases n - i,
    {
        assert(attrs@.take(i + 1).drop_last() == attrs@.take(i as int));
        assert(attrs@.take(i + 1).last() == attrs@[i as int]);
        let k = chars_of(attrs.entries[i].0.as_str());
        if ends_with(k.as_slice(), suffix) {
            proof {
                lemma_by_suffix_stays(attrs@, suffix@, i + 1);
            }
            return Some(&attrs.entries[i].1);
        }
        i += 1;
    }
    assert(attrs@.take(i as int) == attrs@);
    None
}

/// The value of an attribute of XML Schema, which may have a prefix.
pub open spec fn xsd_value(attrs: Seq<(Seq<char>, Seq<char>)>, local: Seq<char>) -> Option<Seq<char>> {
    match strmap::lookup(attrs, local) {
        Some(v) => Some(v),
        None => by_suffix(attrs, ":"@ + local),
    }
}

/// The value of an attribute of XML Schema, which may have a prefix.
pub fn xsd_attr<'a>(attrs: &'a StrMap<String>, local: &str) -> (r: Option<&'a String>)
    ensures
        r.deep_view() == xsd_value(attrs@, local@),
{
    if let Some(v) = attrs.get(local) {
        return Some(v);
    }
    let suffix = cat2(":", local);
    attr_by_suffix(attrs, suffix.as_str())
}

/// The first attribute that names warnings to be left out.
pub open spec fn suppressed(attrs: Seq<(Seq<char>, Seq<char>)>) -> Option<Seq<char>>
    decreases attrs.len(),
{
    if attrs.len() == 0 {
        None
    } else {
        match suppressed(attrs.drop_last()) {
            Some(v) => Some(v),
            None => if suppressor(attrs.last().0) {
                Some(attrs.last().1)
            } else {
                None
            },
        }
    }
}

/// The name of an attribute that names warnings to be left out.
pub open spec fn suppressor(key: Seq<char>) -> bool {
    text::has_prefix(key, "daf:"@) && props::local_tag_spec(key)
        == "suppressSchemaDefinitionWarnings"@
}

proof fn lemma_suppressed_stays(attrs: Seq<(Seq<char>, Seq<char>)>, n: int)
    requires
        0 <= n <= attrs.len(),
        suppressed(attrs.take(n)) is Some,
    ensures
        suppressed(attrs) == suppressed(attrs.take(n)),
    decreases attrs.len() - n,
{
    if n == attrs.len() {
        assert(attrs.take(n) == attrs);
    } else {
        assert(attrs.take(n + 1).drop_last() == attrs.take(n));
        lemma_suppressed_stays(attrs, n + 1);
    }
}

/// The warnings that an element wants left out.
pub fn take_daf_suppress_warnings(attrs: &StrMap<String>) -> (r: Option<String>)
    ensures
        r.deep_view() == suppressed(attrs@),
{
    let n: usize = attrs.entries.len();
    let mut i: usize = 0;
    while i < n
        invariant
            i <= n,
            n == attrs.entries@.len(),
            n == attrs@.len(),
            suppressed(attrs@.take(i as int)) is None,
        decreases n - i,
    {
        assert(attrs@.take(i + 1).drop_last() == attrs@.take(i as int));
        assert(attrs@.take(i + 1).last() == attrs@[i as int]);
        let k = chars_of(attrs.entries[i].0.as_str());
        if starts_with(k.as_slice(), "daf:") && is(
            local_tag(k.as_slice()),
            "suppressSchemaDefinitionWarnings",
        ) {
            proof {
                lemma_suppressed_stays(attrs@, i + 1);
            }
            return Some(attrs.entries[i].1.copy());
        }
        i += 1;
    }
    assert(attrs@.take(i as int) == attrs@);
    None
}

/// An attribute whose name contains this.
pub open spec fn some_name_contains(attrs: Seq<(Seq<char>, Seq<char>)>, part: Seq<char>) -> bool {
    exists|i: int| 0 <= i < attrs.len() && text::contains_spec((#[trigger] attrs[i]).0, part)
}

/// An attribute with this value.
pub open spec fn some_value_is(attrs: Seq<(Seq<char>, Seq<char>)>, value: Seq<char>) -> bool {
    exists|i: int| 0 <= i < attrs.len() && (#[trigger] attrs[i]).1 == value
}

/// Whether an attribute's name mentions DFDL or its value is the namespace of
/// DFDL.
pub fn mentions_dfdl(attrs: &StrMap<String>) -> (r: bool)
    ensures
        r == (some_name_contains(attrs@, "dfdl"@) || some_value_is(attrs@, DFDL_NS@)),
{
    let n: usize = attrs.entries.len();
    let mut i: usize = 0;
    while i < n
        invariant
            i <= n,
            n == attrs.entries@.len(),
            n == attrs@.len(),
            forall|j: int|
                0 <= j < i ==> !text::contains_spec((#[trigger] attrs@[j]).0, "dfdl"@)
                    && attrs@[j].1 != DFDL_NS@,
        decreases n - i,
    {
        let k = chars_of(attrs.entries[i].0.as_str());
        assert(attrs@[i as int].0 == k@);
        if contains(k.as_slice(), "dfdl") || eq(attrs.entries[i].1.as_str(), DFDL_NS) {
            return true;
        }
        i += 1;
    }
    false
}

// ------------------------------------------------------------------- complaints

/// A prefix that may stand on an annotation's attributes.
pub open spec fn own_prefix(prefix: Seq<char>) -> bool {
    ||| prefix == "dfdl"@
    ||| prefix == "dfdlx"@
    ||| prefix == "xml"@
    ||| prefix == "xs"@
    ||| prefix == "xsd"@
}

/// An attribute with a prefix that may not stand on an annotation.
pub open spec fn foreign(key: Seq<char>) -> bool {
    key.contains(':') && !own_prefix(text::before_first(key, ':'))
}

/// What is said of the attributes that may not stand on an annotation.
pub open spec fn foreign_complaints(
    local: Seq<char>,
    attrs: Seq<(Seq<char>, Seq<char>)>,
) -> Seq<Seq<char>>
    decreases attrs.len(),
{
    if attrs.len() == 0 {
        Seq::empty()
    } else {
        let rest = foreign_complaints(local, attrs.drop_last());
        let key = attrs.last().0;
        if foreign(key) {
            rest.push(
                "Schema Definition Error: Attribute '"@ + key
                    + "' is not allowed to appear in element 'dfdl:"@ + local + "'"@,
            )
        } else {
            rest
        }
    }
}

/// Complains of the attributes that may not stand on an annotation.
pub fn record_foreign_attrs_on_dfdl_element(
    local: &str,
    attrs: &StrMap<String>,
    diagnostics: &mut Vec<String>,
)
    ensures
        final(diagnostics).deep_view() == old(diagnostics).deep_view() + foreign_complaints(
            local@,
            attrs@,
        ),
{
    let n: usize = attrs.entries.len();
    let mut i: usize = 0;
    let ghost start = diagnostics.deep_view();
    assert(start =~= start + foreign_complaints(local@, attrs@.take(0)));
    while i < n
        invariant
            i <= n,
            n == attrs.entries@.len(),
            n == attrs@.len(),
            start == old(diagnostics).deep_view(),
            diagnostics.deep_view() == start + foreign_complaints(local@, attrs@.take(i as int)),
        decreases n - i,
    {
        assert(attrs@.take(i + 1).drop_last() == attrs@.take(i as int));
        assert(attrs@.take(i + 1).last() == attrs@[i as int]);
        let k = chars_of(attrs.entries[i].0.as_str());
        if contains_char(k.as_slice(), ':') {
            let p = first_piece(k.as_slice(), ':');
            if !(is(p, "dfdl") || is(p, "dfdlx") || is(p, "xml") || is(p, "xs") || is(p, "xsd")) {
                let ghost before = diagnostics.deep_view();
                let said = cat5(
                    "Schema Definition Error: Attribute '",
                    attrs.entries[i].0.as_str(),
                    "' is not allowed to appear in element 'dfdl:",
                    local,
                    "'",
                );
                diagnostics.push(said);
                assert(diagnostics.deep_view() =~= before.push(said@));
                assert(start + foreign_complaints(local@, attrs@.take(i + 1)) =~= (start
                    + foreign_complaints(local@, attrs@.take(i as int))).push(said@));
            }
        }
        i += 1;
    }
    assert(attrs@.take(i as int) == attrs@);
}

/// An attribute that an element declaration may have.
pub open spec fn declaration_attr(name: Seq<char>) -> bool {
    ||| name == "name"@
    ||| name == "type"@
    ||| name == "ref"@
    ||| name == "default"@
    ||| name == "fixed"@
    ||| name == "nillable"@
    ||| name == "substitutionGroup"@
    ||| name == "abstract"@
    ||| name == "block"@
    ||| name == "final"@
    ||| name == "id"@
    ||| name == "minOccurs"@
    ||| name == "maxOccurs"@
    ||| name == "form"@
}

/// An attribute of XML Schema that no element declaration may have.
pub open spec fn misplaced(key: Seq<char>) -> bool {
    (!key.contains(':') || text::has_prefix(key, "xs:"@)) && !declaration_attr(
        props::local_tag_spec(key),
    )
}

/// What is said of the attributes that no element declaration may have.
pub open spec fn misplaced_complaints(attrs: Seq<(Seq<char>, Seq<char>)>) -> Seq<Seq<char>>
    decreases attrs.len(),
{
    if attrs.len() == 0 {
        Seq::empty()
    } else {
        let rest = misplaced_complaints(attrs.drop_last());
        let key = attrs.last().0;
        if misplaced(key) {
            rest.push(
                "Attribute '"@ + props::local_tag_spec(key)
                    + "' is not allowed to appear in element declarations."@,
            )
        } else {
            rest
        }
    }
}

/// What is said of a name that is no name without a prefix.
pub open spec fn name_complaints(name: Option<Seq<char>>) -> Seq<Seq<char>> {
    match name {
        Some(n) => if n.contains(':') {
            seq![
                "Schema Definition Error: The value '"@ + n + "' is not a valid NCName"@,
                "NCName"@,
            ]
        } else {
            Seq::empty()
        },
        None => Seq::empty(),
    }
}

/// What is said of the attributes of an element declaration.
#[verifier::opaque]
pub open spec fn declaration_complaints(attrs: Seq<(Seq<char>, Seq<char>)>) -> Seq<Seq<char>> {
    misplaced_complaints(attrs) + name_complaints(strmap::lookup(attrs, "name"@))
}

/// Complains of a name that is no name without a prefix.
fn complain_of_name(name: &str, diagnostics: &mut Vec<String>)
    ensures
        final(diagnostics).deep_view() == old(diagnostics).deep_view() + name_complaints(
            Some(name@),
        ),
{
    let c = chars_of(name);
    let ghost start = diagnostics.deep_view();
    if contains_char(c.as_slice(), ':') {
        let said = cat3("Schema Definition Error: The value '", name, "' is not a valid NCName");
        let second = owned("NCName");
        diagnostics.push(said);
        diagnostics.push(second);
        assert(diagnostics.deep_view() =~= start + name_complaints(Some(name@)));
    } else {
        assert(diagnostics.deep_view() =~= start + name_complaints(Some(name@)));
    }
}

/// Complains of the attributes of an element declaration.
pub fn record_local_element_xsd_diagnostics(attrs: &StrMap<String>, diagnostics: &mut Vec<String>)
    ensures
        final(diagnostics).deep_view() == old(diagnostics).deep_view() + declaration_complaints(
            attrs@,
        ),
{
    reveal(declaration_complaints);
    let n: usize = attrs.entries.len();
    let mut i: usize = 0;
    let ghost start = diagnostics.deep_view();
    assert(start =~= start + misplaced_complaints(attrs@.take(0)));
    while i < n
        invariant
            i <= n,
            n == attrs.entries@.len(),
            n == attrs@.len(),
            start == old(diagnostics).deep_view(),
            diagnostics.deep_view() == start + misplaced_complaints(attrs@.take(i as int)),
        decreases n - i,
    {
        assert(attrs@.take(i + 1).drop_last() == attrs@.take(i as int));
        assert(attrs@.take(i + 1).last() == attrs@[i as int]);
        let k = chars_of(attrs.entries[i].0.as_str());
        if !contains_char(k.as_slice(), ':') || starts_with(k.as_slice(), "xs:") {
            let l = local_tag(k.as_slice());
            if !(is(l, "name") || is(l, "type") || is(l, "ref") || is(l, "default") || is(l, "fixed") || is(l, "nillable") || is(l, "substitutionGroup") || is(l, "abstract") || is(l, "block") || is(l, "final") || is(l, "id") || is(l, "minOccurs") || is(l, "maxOccurs") || is(l, "form")) {
                let ghost before = diagnostics.deep_view();
                let said = cat3(
                    "Attribute '",
                    string_of(l).as_str(),
                    "' is not allowed to appear in element declarations.",
                );
                diagnostics.push(said);
                assert(diagnostics.deep_view() =~= before.push(said@));
                assert(start + misplaced_complaints(attrs@.take(i + 1)) =~= (start
                    + misplaced_complaints(attrs@.take(i as int))).push(said@));
            }
        }
        i += 1;
    }
    assert(attrs@.take(i as int) == attrs@);
    let ghost middle = diagnostics.deep_view();
    if let Some(name) = attrs.get("name") {
        complain_of_name(name.as_str(), diagnostics);
    }
    assert(diagnostics.deep_view() =~= start + declaration_complaints(attrs@));
}

/// Complains of the attributes and the name of a global element declaration.
pub fn record_global_element_xsd_diagnostics(
    name: &str,
    attrs: &StrMap<String>,
    diagnostics: &mut Vec<String>,
)
    ensures
        final(diagnostics).deep_view() == old(diagnostics).deep_view() + declaration_complaints(
            attrs@,
        ) + name_complaints(Some(name@)),
{
    record_local_element_xsd_diagnostics(attrs, diagnostics);
    complain_of_name(name, diagnostics);
}

// ---------------------------------------------------------------- DFDL and the rest

/// An attribute that states a DFDL property.
pub open spec fn states_property(element: Seq<char>, key: Seq<char>) -> bool {
    let local = props::local_tag_spec(key);
    ||| text::has_prefix(key, "dfdl:"@)
    ||| text::has_prefix(key, "dfdlx:"@)
    ||| text::contains_spec(key, "dfdl-1.0/extensions}"@)
    ||| element != "element"@ && dfdl_property(local) && !xsd_local_attr(element, local)
}

/// The attributes that state DFDL properties, by their local names.
pub open spec fn property_part(element: Seq<char>, attrs: Seq<(Seq<char>, Seq<char>)>) -> Seq<
    (Seq<char>, Seq<char>),
>
    decreases attrs.len(),
{
    if attrs.len() == 0 {
        Seq::empty()
    } else {
        let rest = property_part(element, attrs.drop_last());
        let (key, value) = attrs.last();
        if !text::has_prefix(key, "daf:"@) && states_property(element, key) {
            strmap::with_entry(rest, props::local_tag_spec(key), value)
        } else {
            rest
        }
    }
}

/// The attributes that state no DFDL property.
pub open spec fn plain_part(element: Seq<char>, attrs: Seq<(Seq<char>, Seq<char>)>) -> Seq<
    (Seq<char>, Seq<char>),
>
    decreases attrs.len(),
{
    if attrs.len() == 0 {
        Seq::empty()
    } else {
        let rest = plain_part(element, attrs.drop_last());
        let (key, value) = attrs.last();
        if !text::has_prefix(key, "daf:"@) && !states_property(element, key) {
            strmap::with_entry(rest, key, value)
        } else {
            rest
        }
    }
}

/// Whether the attribute states a DFDL property.
fn is_property_attr(element: &str, key: &[char]) -> (r: bool)
    ensures
        r == states_property(element@, key@),
{
    starts_with(key, "dfdl:") || starts_with(key, "dfdlx:") || contains(key, "dfdl-1.0/extensions}")
        || (!eq(element, "element") && is_dfdl_property(local_tag(key)) && !is_xsd_local_attr(
        element,
        local_tag(key),
    ))
}

/// Parts the attributes that state DFDL properties from the rest.
pub fn part_attrs(element: &str, attrs: &StrMap<String>) -> (r: (StrMap<String>, StrMap<String>))
    ensures
        r.0@ == plain_part(element@, attrs@),
        r.1@ == property_part(element@, attrs@),
{
    let mut plain: StrMap<String> = StrMap::new();
    let mut dfdl: StrMap<String> = StrMap::new();
    let n: usize = attrs.entries.len();
    let mut i: usize = 0;
    while i < n
        invariant
            i <= n,
            n == attrs.entries@.len(),
            n == attrs@.len(),
            plain@ == plain_part(element@, attrs@.take(i as int)),
            dfdl@ == property_part(element@, attrs@.take(i as int)),
        decreases n - i,
    {
        assert(attrs@.take(i + 1).drop_last() == attrs@.take(i as int));
        assert(attrs@.take(i + 1).last() == attrs@[i as int]);
        let k = chars_of(attrs.entries[i].0.as_str());
        let value = attrs.entries[i].1.copy();
        if !starts_with(k.as_slice(), "daf:") {
            if is_property_attr(element, k.as_slice()) {
                dfdl.insert(string_of(local_tag(k.as_slice())), value);
            } else {
                plain.insert(attrs.entries[i].0.copy(), value);
            }
        }
        i += 1;
    }
    assert(attrs@.take(i as int) == attrs@);
    (plain, dfdl)
}

/// The properties that an element states in its attributes, with what is said
/// where they cannot be read: then the element states none.
#[verifier::opaque]
pub open spec fn stated_props(
    element: Seq<char>,
    attrs: Seq<(Seq<char>, Seq<char>)>,
    vars: Option<Seq<(Seq<char>, Seq<char>)>>,
    label: Option<Seq<char>>,
) -> (DfdlPropsModel, Seq<Seq<char>>) {
    let part = property_part(element, attrs);
    let said = props::attrs_complaints(part, vars, label);
    match props::attrs_props(part, vars) {
        Ok(p) => (p, said),
        Err(e) => (ast::no_props(), said.push(error::error_text(e))),
    }
}

/// Parts the attributes of an element and reads its DFDL properties. What cannot
/// be read is complained of.
pub fn split_dfdl_attrs_with_variables(
    element: &str,
    attrs: &StrMap<String>,
    diagnostics: &mut Vec<String>,
    variables: Option<&StrMap<String>>,
    schema_label: Option<&str>,
) -> (r: (StrMap<String>, DfdlProps))
    ensures
        r.0@ == plain_part(element@, attrs@),
        r.1@ == stated_props(
            element@,
            attrs@,
            props::vars_view(variables),
            text::ref_opt(schema_label),
        ).0,
        final(diagnostics).deep_view() == old(diagnostics).deep_view() + stated_props(
            element@,
            attrs@,
            props::vars_view(variables),
            text::ref_opt(schema_label),
        ).1,
{
    reveal(stated_props);
    let (plain, dfdl) = part_attrs(element, attrs);
    let ghost start = diagnostics.deep_view();
    match props_from_attrs_with_variables(&dfdl, variables, schema_label, diagnostics) {
        Ok(p) => (plain, p),
        Err(e) => {
            let ghost before = diagnostics.deep_view();
            let said = e.to_text();
            diagnostics.push(said);
            assert(diagnostics.deep_view() =~= before.push(said@));
            assert(diagnostics.deep_view() =~= start + stated_props(
                element@,
                attrs@,
                props::vars_view(variables),
                text::ref_opt(schema_label),
            ).1);
            (plain, DfdlProps::default())
        },
    }
}

/// The DFDL properties that an element states in its attributes, where an
/// attribute that cannot be read is an error.
#[verifier::opaque]
pub open spec fn strict_props(element: Seq<char>, attrs: Seq<(Seq<char>, Seq<char>)>) -> Result<
    DfdlPropsModel,
    error::ErrorModel,
> {
    props::attrs_props(property_part(element, attrs), None)
}

/// Parts the attributes of an element and reads its DFDL properties.
pub fn split_dfdl_attrs(element: &str, attrs: &StrMap<String>) -> (r: Result<
    (StrMap<String>, DfdlProps),
    Error,
>)
    ensures
        error::outcome(r) == (match strict_props(element@, attrs@) {
            Ok(p) => Ok((plain_part(element@, attrs@), p)),
            Err(e) => Err(e),
        }),
{
    reveal(strict_props);
    let (plain, dfdl) = part_attrs(element, attrs);
    match crate::props::props_from_attrs(&dfdl) {
        Ok(p) => Ok((plain, p)),
        Err(e) => Err(e),
    }
}

// ---------------------------------------------------------------- namespace prefixes

/// The text looks like the URI of a namespace.
pub open spec fn like_uri(value: Seq<char>) -> bool {
    ||| text::has_prefix(value, "http://"@)
    ||| text::has_prefix(value, "https://"@)
    ||| text::has_prefix(value, "urn:"@)
}

/// An attribute of a schema that never binds a prefix.
pub open spec fn never_binds(key: Seq<char>) -> bool {
    ||| key.contains(':')
    ||| key == "targetNamespace"@
    ||| key == "elementFormDefault"@
    ||| key == "attributeFormDefault"@
    ||| key == "version"@
}

/// The prefix that an attribute binds to its value.
pub open spec fn bound_prefix(key: Seq<char>, value: Seq<char>) -> Option<Seq<char>> {
    if key == "xmlns"@ {
        Some(""@)
    } else if text::has_prefix(key, "xmlns:"@) {
        text::after_prefix(key, "xmlns:"@)
    } else if !never_binds(key) && like_uri(value) {
        Some(key)
    } else {
        None
    }
}

/// The bindings with those that the attributes make.
pub open spec fn with_bindings(
    attrs: Seq<(Seq<char>, Seq<char>)>,
    bindings: Seq<(Seq<char>, Seq<char>)>,
) -> Seq<(Seq<char>, Seq<char>)>
    decreases attrs.len(),
{
    if attrs.len() == 0 {
        bindings
    } else {
        let rest = with_bindings(attrs.drop_last(), bindings);
        let (key, value) = attrs.last();
        match bound_prefix(key, value) {
            Some(p) => strmap::with_entry(rest, p, value),
            None => rest,
        }
    }
}

/// The prefix that an attribute binds to its value.
fn binds(key: &str, value: &str) -> (r: Option<String>)
    ensures
        r.deep_view() == bound_prefix(key@, value@),
{
    let k = chars_of(key);
    let v = chars_of(value);
    if eq(key, "xmlns") {
        return Some(owned(""));
    }
    if let Some(p) = strip_prefix(k.as_slice(), "xmlns:") {
        return Some(string_of(p));
    }
    if !(contains_char(k.as_slice(), ':') || eq(key, "targetNamespace") || eq(
        key,
        "elementFormDefault",
    ) || eq(key, "attributeFormDefault") || eq(key, "version")) && (starts_with(
        v.as_slice(),
        "http://",
    ) || starts_with(v.as_slice(), "https://") || starts_with(v.as_slice(), "urn:")) {
        return Some(owned(key));
    }
    None
}

/// Adds the bindings that the attributes make.
pub fn collect_namespace_prefixes(attrs: &StrMap<String>, out: &mut StrMap<String>)
    ensures
        final(out)@ == with_bindings(attrs@, old(out)@),
{
    let n: usize = attrs.entries.len();
    let mut i: usize = 0;
    let ghost start = out@;
    while i < n
        invariant
            i <= n,
            n == attrs.entries@.len(),
            n == attrs@.len(),
            start == old(out)@,
            out@ == with_bindings(attrs@.take(i as int), start),
        decreases n - i,
    {
        assert(attrs@.take(i + 1).drop_last() == attrs@.take(i as int));
        assert(attrs@.take(i + 1).last() == attrs@[i as int]);
        if let Some(p) = binds(attrs.entries[i].0.as_str(), attrs.entries[i].1.as_str()) {
            out.insert(p, attrs.entries[i].1.copy());
        }
        i += 1;
    }
    assert(attrs@.take(i as int) == attrs@);
}

/// The first map, its entries replaced by those of the second.
pub open spec fn overlaid<V>(base: Seq<(Seq<char>, V)>, over: Seq<(Seq<char>, V)>) -> Seq<
    (Seq<char>, V),
>
    decreases over.len(),
{
    if over.len() == 0 {
        base
    } else {
        strmap::with_entry(
            overlaid(base, over.drop_last()),
            over.last().0,
            over.last().1,
        )
    }
}

/// The first map, its entries replaced by those of the second.
pub fn overlay<V: Duplicate>(base: &StrMap<V>, over: &StrMap<V>) -> (r: StrMap<V>)
    ensures
        r@ == overlaid(base@, over@),
{
    let mut out = base.copy();
    let n: usize = over.entries.len();
    let mut i: usize = 0;
    while i < n
        invariant
            i <= n,
            n == over.entries@.len(),
            n == over@.len(),
            out@ == overlaid(base@, over@.take(i as int)),
        decreases n - i,
    {
        assert(over@.take(i + 1).drop_last() == over@.take(i as int));
        assert(over@.take(i + 1).last() == over@[i as int]);
        out.insert(over.entries[i].0.copy(), over.entries[i].1.copy());
        i += 1;
    }
    assert(over@.take(i as int) == over@);
    out
}

/// The prefixes in whose terms a discriminator is written.
pub fn discriminator_xpath_prefix_scope(
    attrs: &StrMap<String>,
    namespaces: &StrMap<String>,
) -> (r: StrMap<String>)
    ensures
        r@ == with_bindings(attrs@, namespaces@),
{
    let mut scoped = namespaces.copy();
    collect_namespace_prefixes(attrs, &mut scoped);
    scoped
}

/// The binding that stands at the beginning of this text, behind `xmlns:` and up
/// to the closing quote: a prefix and a value, neither of them empty.
pub open spec fn binding_at(rest: Seq<char>, eq_at: int) -> Option<(Seq<char>, Seq<char>)> {
    let prefix = text::trim_spec(rest.take(eq_at));
    let after = text::trim_start_spec(rest.skip(eq_at + 1));
    if prefix.len() == 0 || after.len() == 0 || (after[0] != '"' && after[0] != '\'') {
        None
    } else {
        let value = text::trim_spec(text::before_first(after.skip(1), after[0]));
        if value.len() > 0 {
            Some((prefix, value))
        } else {
            None
        }
    }
}

/// The bindings with those that the text makes of prefixes not yet bound,
/// wherever in the text it does so.
pub open spec fn supplemented(
    source: Seq<char>,
    bindings: Seq<(Seq<char>, Seq<char>)>,
) -> Seq<(Seq<char>, Seq<char>)>
    decreases source.len(),
{
    match text::find_spec(source, "xmlns:"@) {
        None => bindings,
        Some(at) => {
            let rest = source.skip(at + 6);
            match text::char_pos(rest, '=') {
                None => bindings,
                Some(eq_at) => {
                    proof {
                        reveal_strlit("xmlns:");
                        text::lemma_find_from(source, "xmlns:"@, 0);
                    }
                    let more = match binding_at(rest, eq_at) {
                        Some((prefix, value)) => if strmap::lookup(bindings, prefix) is None {
                            strmap::with_entry(bindings, prefix, value)
                        } else {
                            bindings
                        },
                        None => bindings,
                    };
                    supplemented(rest, more)
                },
            }
        },
    }
}

/// The binding that stands at the beginning of this text.
fn read_binding(rest: &[char], eq_at: usize) -> (r: Option<(String, String)>)
    requires
        eq_at < rest@.len(),
    ensures
        r.deep_view() == binding_at(rest@, eq_at as int),
{
    let prefix = trim(part(rest, 0, eq_at));
    assert(rest@.subrange(0, eq_at as int) == rest@.take(eq_at as int));
    let n: usize = rest.len();
    assert(rest@.subrange(eq_at + 1, n as int) == rest@.skip(eq_at + 1));
    let after = trim_start(part(rest, eq_at + 1, n));
    if prefix.len() == 0 || after.len() == 0 || (after[0] != '"' && after[0] != '\'') {
        return None;
    }
    let m: usize = after.len();
    assert(after@.subrange(1, m as int) == after@.skip(1));
    let value = trim(first_piece(part(after, 1, m), after[0]));
    if value.len() > 0 {
        Some((string_of(prefix), string_of(value)))
    } else {
        None
    }
}

/// Adds the bindings that the text makes of prefixes not yet bound.
pub fn supplement_namespace_prefixes_from_text(source: &str, out: &mut StrMap<String>)
    ensures
        final(out)@ == supplemented(source@, old(out)@),
{
    let all = chars_of(source);
    let n: usize = all.len();
    let mut at: usize = 0;
    let ghost want = supplemented(source@, out@);
    assert(all@.skip(0) == all@);
    proof {
        reveal_strlit("xmlns:");
    }
    while at <= n
        invariant_except_break
            at <= n,
            n == all@.len(),
            "xmlns:"@.len() == 6,
            supplemented(all@.skip(at as int), out@) == want,
        invariant
            true,
        ensures
            out@ == want,
        decreases n - at,
    {
        let rest = part(all.as_slice(), at, n);
        assert(rest@ == all@.skip(at as int));
        let idx: usize = match find(rest, "xmlns:") {
            Some(i) => i,
            None => {
                break;
            },
        };
        let next: usize = at + idx + 6;
        let after = part(all.as_slice(), next, n);
        assert(after@ == all@.skip(next as int));
        assert(rest@.skip(idx + 6) == after@);
        let eq_at: usize = match find_char(after, '=') {
            Some(i) => i,
            None => {
                break;
            },
        };
        if let Some((prefix, value)) = read_binding(after, eq_at) {
            if !out.contains_key(prefix.as_str()) {
                out.insert(prefix, value);
            }
        }
        at = next;
    }
}

// --------------------------------------------------------------------- small rules

/// The occurrence limits with those that the attributes state.
pub open spec fn with_occurs(p: OccursPropsModel, attrs: Seq<(Seq<char>, Seq<char>)>) -> OccursPropsModel {
    let low = match xsd_value(attrs, "minOccurs"@) {
        Some(min) => match numbers::u64_spec(min) {
            Some(n) => Some(n),
            None => p.occurs_min,
        },
        None => p.occurs_min,
    };
    match xsd_value(attrs, "maxOccurs"@) {
        Some(max) => OccursPropsModel {
            occurs_min: low,
            max_occurs_specified: true,
            occurs_max: if max == "unbounded"@ {
                None
            } else {
                match numbers::u64_spec(max) {
                    Some(n) => Some(n),
                    None => p.occurs_max,
                }
            },
            ..p
        },
        None => OccursPropsModel { occurs_min: low, ..p },
    }
}

/// Takes over the occurrence limits that the attributes state.
pub fn merge_occurs(p: &mut OccursProps, attrs: &StrMap<String>)
    ensures
        final(p)@ == with_occurs(old(p)@, attrs@),
{
    reveal(ast::occurs_props_model);
    if let Some(min) = xsd_attr(attrs, "minOccurs") {
        let c = chars_of(min.as_str());
        if let Some(n) = parse_u64(c.as_slice()) {
            p.occurs_min = Some(n);
        }
    }
    if let Some(max) = xsd_attr(attrs, "maxOccurs") {
        p.max_occurs_specified = true;
        let c = chars_of(max.as_str());
        if is(c.as_slice(), "unbounded") {
            p.occurs_max = None;
        } else if let Some(n) = parse_u64(c.as_slice()) {
            p.occurs_max = Some(n);
        }
    }
}

/// The value of an attribute with its character entities expanded.
pub open spec fn expanded_value(attrs: Seq<(Seq<char>, Seq<char>)>, name: Seq<char>) -> Option<
    Seq<char>,
> {
    match strmap::lookup(attrs, name) {
        Some(v) => Some(entities::expanded(v)),
        None => None,
    }
}

/// The escape scheme that these attributes describe.
#[verifier::opaque]
pub open spec fn escape_scheme(attrs: Seq<(Seq<char>, Seq<char>)>) -> EscapeSchemeDefModel {
    EscapeSchemeDefModel {
        escape_kind: if strmap::lookup(attrs, "escapeKind"@) == Some("escapeBlock"@) {
            EscapeKind::EscapeBlock
        } else {
            EscapeKind::EscapeCharacter
        },
        escape_character_raw: strmap::lookup(attrs, "escapeCharacter"@),
        escape_character: expanded_value(attrs, "escapeCharacter"@),
        escape_escape_character_raw: strmap::lookup(attrs, "escapeEscapeCharacter"@),
        escape_escape_character: expanded_value(attrs, "escapeEscapeCharacter"@),
        escape_block_start_raw: strmap::lookup(attrs, "escapeBlockStart"@),
        escape_block_start: expanded_value(attrs, "escapeBlockStart"@),
        escape_block_end_raw: strmap::lookup(attrs, "escapeBlockEnd"@),
        escape_block_end: expanded_value(attrs, "escapeBlockEnd"@),
        extra_escaped_characters_raw: strmap::lookup(attrs, "extraEscapedCharacters"@),
        extra_escaped_characters: match strmap::lookup(attrs, "extraEscapedCharacters"@) {
            Some(v) => entities::expanded_words(v),
            None => Seq::empty(),
        },
    }
}

/// The value of an attribute.
pub fn value_of(attrs: &StrMap<String>, name: &str) -> (r: Option<String>)
    ensures
        r.deep_view() == strmap::lookup(attrs@, name@),
{
    match attrs.get(name) {
        Some(v) => Some(v.copy()),
        None => None,
    }
}

/// The value of an attribute with its character entities expanded.
fn expanded_of(attrs: &StrMap<String>, name: &str) -> (r: Option<String>)
    ensures
        r.deep_view() == expanded_value(attrs@, name@),
{
    match attrs.get(name) {
        Some(v) => Some(expand_entities_str(v.as_str())),
        None => None,
    }
}

/// The escape scheme that these attributes describe.
pub fn escape_scheme_from_attrs(attrs: &StrMap<String>) -> (r: EscapeSchemeDef)
    ensures
        r@ == escape_scheme(attrs@),
{
    reveal(escape_scheme);
    let block: bool = match attrs.get("escapeKind") {
        Some(v) => eq(v.as_str(), "escapeBlock"),
        None => false,
    };
    let escape_kind = if block {
        EscapeKind::EscapeBlock
    } else {
        EscapeKind::EscapeCharacter
    };
    let extra_escaped_characters: Vec<String> = match attrs.get("extraEscapedCharacters") {
        Some(v) => extra_escaped_characters_from_property(v.as_str()),
        None => Vec::new(),
    };
    let r = EscapeSchemeDef {
        escape_kind,
        escape_character_raw: value_of(attrs, "escapeCharacter"),
        escape_character: expanded_of(attrs, "escapeCharacter"),
        escape_escape_character_raw: value_of(attrs, "escapeEscapeCharacter"),
        escape_escape_character: expanded_of(attrs, "escapeEscapeCharacter"),
        escape_block_start_raw: value_of(attrs, "escapeBlockStart"),
        escape_block_start: expanded_of(attrs, "escapeBlockStart"),
        escape_block_end_raw: value_of(attrs, "escapeBlockEnd"),
        escape_block_end: expanded_of(attrs, "escapeBlockEnd"),
        extra_escaped_characters_raw: value_of(attrs, "extraEscapedCharacters"),
        extra_escaped_characters,
    };
    assert(r@ =~= escape_scheme(attrs@));
    r
}

/// Of the attributes of an element, each states a property, under its local name, or stands
/// among the others under its name as written, where no other attribute has that name;
/// those of the settings are left out.
pub proof fn law_attributes_parted(element: Seq<char>, attrs: Seq<(Seq<char>, Seq<char>)>, k: int)
    requires
        strmap::ascending(attrs),
        0 <= k < attrs.len(),
        !text::has_prefix(attrs[k].0, "daf:"@),
    ensures
        text::has_prefix(attrs[k].0, "dfdl:"@) ==> strmap::lookup(
            property_part(element, attrs),
            props::local_tag_spec(attrs[k].0),
        ) is Some,
        states_property(element, attrs[k].0) ==> strmap::lookup(
            property_part(element, attrs),
            props::local_tag_spec(attrs[k].0),
        ) is Some,
        !states_property(element, attrs[k].0) ==> strmap::lookup(
            plain_part(element, attrs),
            attrs[k].0,
        ) == Some(attrs[k].1),
    decreases attrs.len(),
{
    let less = attrs.drop_last();
    assert forall|i: int, j: int| 0 <= i < j < less.len() implies strmap::before(
        #[trigger] less[i].0,
        #[trigger] less[j].0,
    ) by {
        assert(less[i] == attrs[i] && less[j] == attrs[j]);
    }
    let (key, value) = attrs.last();
    let rest = property_part(element, less);
    let plain = plain_part(element, less);
    lemma_parts_ascending(element, less);
    let tag = props::local_tag_spec(key);
    strmap::law_lookup_stored(rest, tag, value);
    strmap::law_lookup_stored(plain, key, value);
    if k < less.len() {
        law_attributes_parted(element, less, k);
        assert(less[k] == attrs[k]);
        if props::local_tag_spec(attrs[k].0) != tag {
            strmap::law_lookup_other(rest, tag, value, props::local_tag_spec(attrs[k].0));
        }
        assert(strmap::before(attrs[k].0, attrs[attrs.len() - 1].0));
        strmap::lemma_before_differs(attrs[k].0, key);
        strmap::law_lookup_other(plain, key, value, attrs[k].0);
    }
}

proof fn lemma_parts_ascending(element: Seq<char>, attrs: Seq<(Seq<char>, Seq<char>)>)
    ensures
        strmap::ascending(property_part(element, attrs)),
        strmap::ascending(plain_part(element, attrs)),
    decreases attrs.len(),
{
    if attrs.len() > 0 {
        let less = attrs.drop_last();
        lemma_parts_ascending(element, less);
        let (key, value) = attrs.last();
        strmap::law_with_entry_ascending(
            property_part(element, less),
            props::local_tag_spec(key),
            value,
        );
        strmap::law_with_entry_ascending(plain_part(element, less), key, value);
    }
}

/// The limits of how often something occurs are those that the attributes state, and as
/// before where they state none.
pub proof fn law_limits_stated(p: OccursPropsModel, a: Seq<(Seq<char>, Seq<char>)>)
    ensures
        ({
            let q = with_occurs(p, a);
            &&& (xsd_value(a, "minOccurs"@) is None ==> q.occurs_min == p.occurs_min)
            &&& (xsd_value(a, "minOccurs"@) matches Some(s) && numbers::u64_spec(s) is Some
                ==> q.occurs_min == numbers::u64_spec(xsd_value(a, "minOccurs"@)->0))
            &&& (xsd_value(a, "maxOccurs"@) is None ==> q.occurs_max == p.occurs_max
                && q.max_occurs_specified == p.max_occurs_specified)
            &&& (xsd_value(a, "maxOccurs"@) == Some("unbounded"@) ==> q.occurs_max is None
                && q.max_occurs_specified)
            &&& (xsd_value(a, "maxOccurs"@) matches Some(s) && s != "unbounded"@
                && numbers::u64_spec(s) is Some ==> q.occurs_max == numbers::u64_spec(
                xsd_value(a, "maxOccurs"@)->0,
            ) && q.max_occurs_specified)
        }),
{
}

} // verus!
