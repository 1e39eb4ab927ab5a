//! What each property that has a list of values means by each of them.

use vstd::prelude::*;
use crate::ast::{
    BinaryFloatRep, BinaryNumberCheckPolicy, BinaryNumberRep, BinaryPropsModel, BitOrder,
    ByteOrder, CalendarPatternKind, CalendarPropsModel, ChoiceLengthKind, ChoicePropsModel,
    DelimiterPropsModel, EmptyElementParsePolicy, EncodingErrorPolicy, LengthKind,
    LengthPropsModel, LengthUnits, NilKind, NumberPropsModel, ObjectKind, OccursCountKind,
    OccursPropsModel, PhysicalPropsModel, Representation, SeparatorPosition,
    SeparatorSuppressionPolicy, SequenceKind, TextNumberJustification, TextNumberRep,
    TextNumberRounding, TextNumberRoundingMode, TextPadKind, TextPropsModel,
    TextStringJustification, TextTrimKind, TextZonedSignStyle,
};
use crate::error::ErrorModel;
use crate::props::binary_attrs;
use crate::props::calendar_attrs;
use crate::props::choice_attrs;
use crate::props::delimiters_attrs;
use crate::props::length_attrs;
use crate::props::number_attrs;
use crate::props::occurs_attrs;
use crate::props::physical_attrs;
use crate::props::text_attrs;

verus! {

broadcast use vstd::string::group_string_axioms;

/// Each value of `binaryNumberCheckPolicy` means its own, whatever was stated before,
/// and changes nothing else; any other is an error.
#[verifier::spinoff_prover]
pub proof fn law_binary_number_check_policy_stated(
    p: BinaryPropsModel,
    value: Seq<char>,
)
    ensures
        value == "strict"@ ==> binary_attrs::binary_attr(p, "binaryNumberCheckPolicy"@, value) == Some(
            Ok::<BinaryPropsModel, ErrorModel>(BinaryPropsModel { binary_number_check_policy: Some(BinaryNumberCheckPolicy::Strict), ..p }),
        ),
        value == "lax"@ ==> binary_attrs::binary_attr(p, "binaryNumberCheckPolicy"@, value) == Some(
            Ok::<BinaryPropsModel, ErrorModel>(BinaryPropsModel { binary_number_check_policy: Some(BinaryNumberCheckPolicy::Lax), ..p }),
        ),
        value != "strict"@ && value != "lax"@ ==> (binary_attrs::binary_attr(
            p,
            "binaryNumberCheckPolicy"@,
            value,
        ) matches Some(Err(_))),
{
    reveal(binary_attrs::binary_attr);
    reveal_strlit("binaryNumberCheckPolicy");
    reveal_strlit("binaryPackedSignCodes");
    reveal_strlit("lax");
    reveal_strlit("strict");
    assert("binaryNumberCheckPolicy"@.len() == 23 && "binaryPackedSignCodes"@.len() == 21);
    assert("lax"@.len() == 3 && "strict"@.len() == 6);
}

/// Each value of `binaryCalendarRep` means its own, whatever was stated before,
/// and changes nothing else; any other is an error.
#[verifier::spinoff_prover]
pub proof fn law_binary_rep_stated(
    p: BinaryPropsModel,
    value: Seq<char>,
)
    ensures
        value == "binary"@ ==> binary_attrs::binary_attr(p, "binaryCalendarRep"@, value) == Some(
            Ok::<BinaryPropsModel, ErrorModel>(BinaryPropsModel { binary_calendar_rep: Some(BinaryNumberRep::Binary), ..p }),
        ),
        value == "bcd"@ ==> binary_attrs::binary_attr(p, "binaryCalendarRep"@, value) == Some(
            Ok::<BinaryPropsModel, ErrorModel>(BinaryPropsModel { binary_calendar_rep: Some(BinaryNumberRep::Bcd), ..p }),
        ),
        value == "packed"@ ==> binary_attrs::binary_attr(p, "binaryCalendarRep"@, value) == Some(
            Ok::<BinaryPropsModel, ErrorModel>(BinaryPropsModel { binary_calendar_rep: Some(BinaryNumberRep::PackedBcd), ..p }),
        ),
        value == "packedBCD"@ ==> binary_attrs::binary_attr(p, "binaryCalendarRep"@, value) == Some(
            Ok::<BinaryPropsModel, ErrorModel>(BinaryPropsModel { binary_calendar_rep: Some(BinaryNumberRep::PackedBcd), ..p }),
        ),
        value == "ibm4690Packed"@ ==> binary_attrs::binary_attr(p, "binaryCalendarRep"@, value) == Some(
            Ok::<BinaryPropsModel, ErrorModel>(BinaryPropsModel { binary_calendar_rep: Some(BinaryNumberRep::Ibm4690Packed), ..p }),
        ),
        value == "ibm4690"@ ==> binary_attrs::binary_attr(p, "binaryCalendarRep"@, value) == Some(
            Ok::<BinaryPropsModel, ErrorModel>(BinaryPropsModel { binary_calendar_rep: Some(BinaryNumberRep::Ibm4690Packed), ..p }),
        ),
        value == "binarySeconds"@ ==> binary_attrs::binary_attr(p, "binaryCalendarRep"@, value) == Some(
            Ok::<BinaryPropsModel, ErrorModel>(BinaryPropsModel { binary_calendar_rep: Some(BinaryNumberRep::BinarySeconds), ..p }),
        ),
        value == "binaryMilliseconds"@ ==> binary_attrs::binary_attr(p, "binaryCalendarRep"@, value) == Some(
            Ok::<BinaryPropsModel, ErrorModel>(BinaryPropsModel { binary_calendar_rep: Some(BinaryNumberRep::BinaryMilliseconds), ..p }),
        ),
        value != "binary"@ && value != "bcd"@ && value != "packed"@ && value != "packedBCD"@ && value != "ibm4690Packed"@ && value != "ibm4690"@ && value != "binarySeconds"@ && value != "binaryMilliseconds"@ ==> (binary_attrs::binary_attr(
            p,
            "binaryCalendarRep"@,
            value,
        ) matches Some(Err(_))),
{
    reveal(binary_attrs::binary_attr);
    reveal_strlit("bcd");
    reveal_strlit("binary");
    reveal_strlit("binaryCalendarEpoch");
    reveal_strlit("binaryCalendarRep");
    reveal_strlit("binaryMilliseconds");
    reveal_strlit("binaryNumberCheckPolicy");
    reveal_strlit("binaryNumberRep");
    reveal_strlit("binaryPackedSignCodes");
    reveal_strlit("binarySeconds");
    reveal_strlit("ibm4690");
    reveal_strlit("ibm4690Packed");
    reveal_strlit("packed");
    reveal_strlit("packedBCD");
    assert("binaryCalendarRep"@.len() == 17 && "binaryPackedSignCodes"@.len() == 21);
    assert("binaryCalendarRep"@.len() == 17 && "binaryNumberCheckPolicy"@.len() == 23);
    assert("binaryCalendarRep"@.len() == 17 && "binaryCalendarEpoch"@.len() == 19);
    assert("binaryCalendarRep"@.len() == 17 && "binaryNumberRep"@.len() == 15);
    assert("bcd"@.len() == 3 && "binary"@.len() == 6);
    assert("packed"@[0] == 'p' && "binary"@[0] == 'b');
    assert("packed"@.len() == 6 && "bcd"@.len() == 3);
    assert("packedBCD"@.len() == 9 && "binary"@.len() == 6);
    assert("packedBCD"@.len() == 9 && "bcd"@.len() == 3);
    assert("packedBCD"@.len() == 9 && "packed"@.len() == 6);
    assert("ibm4690Packed"@.len() == 13 && "binary"@.len() == 6);
    assert("ibm4690Packed"@.len() == 13 && "bcd"@.len() == 3);
    assert("ibm4690Packed"@.len() == 13 && "packed"@.len() == 6);
    assert("ibm4690Packed"@.len() == 13 && "packedBCD"@.len() == 9);
    assert("ibm4690"@.len() == 7 && "binary"@.len() == 6);
    assert("ibm4690"@.len() == 7 && "bcd"@.len() == 3);
    assert("ibm4690"@.len() == 7 && "packed"@.len() == 6);
    assert("ibm4690"@.len() == 7 && "packedBCD"@.len() == 9);
    assert("ibm4690"@.len() == 7 && "ibm4690Packed"@.len() == 13);
    assert("binarySeconds"@.len() == 13 && "binary"@.len() == 6);
    assert("binarySeconds"@.len() == 13 && "bcd"@.len() == 3);
    assert("binarySeconds"@.len() == 13 && "packed"@.len() == 6);
    assert("binarySeconds"@.len() == 13 && "packedBCD"@.len() == 9);
    assert("binarySeconds"@[0] == 'b' && "ibm4690Packed"@[0] == 'i');
    assert("binarySeconds"@.len() == 13 && "ibm4690"@.len() == 7);
    assert("binaryMilliseconds"@.len() == 18 && "binary"@.len() == 6);
    assert("binaryMilliseconds"@.len() == 18 && "bcd"@.len() == 3);
    assert("binaryMilliseconds"@.len() == 18 && "packed"@.len() == 6);
    assert("binaryMilliseconds"@.len() == 18 && "packedBCD"@.len() == 9);
    assert("binaryMilliseconds"@.len() == 18 && "ibm4690Packed"@.len() == 13);
    assert("binaryMilliseconds"@.len() == 18 && "ibm4690"@.len() == 7);
    assert("binaryMilliseconds"@.len() == 18 && "binarySeconds"@.len() == 13);
}

/// Each value of `binaryFloatRep` means its own, whatever was stated before,
/// and changes nothing else; any other is an error.
#[verifier::spinoff_prover]
pub proof fn law_binary_float_rep_stated(
    p: BinaryPropsModel,
    value: Seq<char>,
)
    ensures
        value == "ieee"@ ==> binary_attrs::binary_attr(p, "binaryFloatRep"@, value) == Some(
            Ok::<BinaryPropsModel, ErrorModel>(BinaryPropsModel { binary_float_rep: Some(BinaryFloatRep::Ieee), ..p }),
        ),
        value != "ieee"@ ==> (binary_attrs::binary_attr(
            p,
            "binaryFloatRep"@,
            value,
        ) matches Some(Err(_))),
{
    reveal(binary_attrs::binary_attr);
    reveal_strlit("binaryCalendarEpoch");
    reveal_strlit("binaryCalendarRep");
    reveal_strlit("binaryFloatRep");
    reveal_strlit("binaryNumberCheckPolicy");
    reveal_strlit("binaryNumberRep");
    reveal_strlit("binaryPackedSignCodes");
    reveal_strlit("ieee");
    assert("binaryFloatRep"@.len() == 14 && "binaryPackedSignCodes"@.len() == 21);
    assert("binaryFloatRep"@.len() == 14 && "binaryNumberCheckPolicy"@.len() == 23);
    assert("binaryFloatRep"@.len() == 14 && "binaryCalendarEpoch"@.len() == 19);
    assert("binaryFloatRep"@.len() == 14 && "binaryNumberRep"@.len() == 15);
    assert("binaryFloatRep"@.len() == 14 && "binaryCalendarRep"@.len() == 17);
}

/// Each value of `calendarPatternKind` means its own, whatever was stated before,
/// and changes nothing else; any other is an error.
#[verifier::spinoff_prover]
pub proof fn law_calendar_pattern_kind_stated(
    p: CalendarPropsModel,
    value: Seq<char>,
)
    ensures
        value == "explicit"@ ==> calendar_attrs::calendar_attr(p, "calendarPatternKind"@, value) == Some(
            Ok::<CalendarPropsModel, ErrorModel>(CalendarPropsModel { calendar_pattern_kind: Some(CalendarPatternKind::Explicit), ..p }),
        ),
        value == "implicit"@ ==> calendar_attrs::calendar_attr(p, "calendarPatternKind"@, value) == Some(
            Ok::<CalendarPropsModel, ErrorModel>(CalendarPropsModel { calendar_pattern_kind: Some(CalendarPatternKind::Implicit), ..p }),
        ),
        value != "explicit"@ && value != "implicit"@ ==> (calendar_attrs::calendar_attr(
            p,
            "calendarPatternKind"@,
            value,
        ) matches Some(Err(_))),
{
    reveal(calendar_attrs::calendar_attr);
    reveal_strlit("calendarPattern");
    reveal_strlit("calendarPatternKind");
    reveal_strlit("explicit");
    reveal_strlit("implicit");
    assert("calendarPatternKind"@.len() == 19 && "calendarPattern"@.len() == 15);
    assert("implicit"@[0] == 'i' && "explicit"@[0] == 'e');
}

/// Each value of `choiceLengthKind` means its own, whatever was stated before,
/// and changes nothing else; any other is an error.
#[verifier::spinoff_prover]
pub proof fn law_choice_length_kind_stated(
    p: ChoicePropsModel,
    value: Seq<char>,
)
    ensures
        value == "implicit"@ ==> choice_attrs::choice_attr(p, "choiceLengthKind"@, value) == Some(
            Ok::<ChoicePropsModel, ErrorModel>(ChoicePropsModel { choice_length_kind: Some(ChoiceLengthKind::Implicit), ..p }),
        ),
        value == "explicit"@ ==> choice_attrs::choice_attr(p, "choiceLengthKind"@, value) == Some(
            Ok::<ChoicePropsModel, ErrorModel>(ChoicePropsModel { choice_length_kind: Some(ChoiceLengthKind::Explicit), ..p }),
        ),
        value != "implicit"@ && value != "explicit"@ ==> (choice_attrs::choice_attr(
            p,
            "choiceLengthKind"@,
            value,
        ) matches Some(Err(_))),
{
    reveal(choice_attrs::choice_attr);
    reveal_strlit("choiceLengthKind");
    reveal_strlit("explicit");
    reveal_strlit("implicit");
    assert("explicit"@[0] == 'e' && "implicit"@[0] == 'i');
}

/// Each value of `separatorSuppressionPolicy` means its own, whatever was stated before,
/// and changes nothing else; any other is an error.
#[verifier::spinoff_prover]
pub proof fn law_separator_suppression_policy_stated(
    p: DelimiterPropsModel,
    value: Seq<char>,
)
    ensures
        value == "anyEmpty"@ ==> delimiters_attrs::delimiters_attr(p, "separatorSuppressionPolicy"@, value) == Some(
            Ok::<DelimiterPropsModel, ErrorModel>(DelimiterPropsModel { separator_suppression_policy: Some(SeparatorSuppressionPolicy::AnyEmpty), ..p }),
        ),
        value == "trailingEmpty"@ ==> delimiters_attrs::delimiters_attr(p, "separatorSuppressionPolicy"@, value) == Some(
            Ok::<DelimiterPropsModel, ErrorModel>(DelimiterPropsModel { separator_suppression_policy: Some(SeparatorSuppressionPolicy::TrailingEmpty), ..p }),
        ),
        value == "trailingEmptyStrict"@ ==> delimiters_attrs::delimiters_attr(p, "separatorSuppressionPolicy"@, value) == Some(
            Ok::<DelimiterPropsModel, ErrorModel>(DelimiterPropsModel { separator_suppression_policy: Some(SeparatorSuppressionPolicy::TrailingEmptyStrict), ..p }),
        ),
        value == "never"@ ==> delimiters_attrs::delimiters_attr(p, "separatorSuppressionPolicy"@, value) == Some(
            Ok::<DelimiterPropsModel, ErrorModel>(DelimiterPropsModel { separator_suppression_policy: Some(SeparatorSuppressionPolicy::Never), ..p }),
        ),
        value != "anyEmpty"@ && value != "trailingEmpty"@ && value != "trailingEmptyStrict"@ && value != "never"@ ==> (delimiters_attrs::delimiters_attr(
            p,
            "separatorSuppressionPolicy"@,
            value,
        ) matches Some(Err(_))),
{
    reveal(delimiters_attrs::delimiters_attr);
    reveal_strlit("anyEmpty");
    reveal_strlit("never");
    reveal_strlit("separatorSuppressionPolicy");
    reveal_strlit("trailingEmpty");
    reveal_strlit("trailingEmptyStrict");
    assert("trailingEmpty"@.len() == 13 && "anyEmpty"@.len() == 8);
    assert("trailingEmptyStrict"@.len() == 19 && "anyEmpty"@.len() == 8);
    assert("trailingEmptyStrict"@.len() == 19 && "trailingEmpty"@.len() == 13);
    assert("never"@.len() == 5 && "anyEmpty"@.len() == 8);
    assert("never"@.len() == 5 && "trailingEmpty"@.len() == 13);
    assert("never"@.len() == 5 && "trailingEmptyStrict"@.len() == 19);
}

/// Each value of `separatorPosition` means its own, whatever was stated before,
/// and changes nothing else; any other is an error.
#[verifier::spinoff_prover]
pub proof fn law_separator_position_stated(
    p: DelimiterPropsModel,
    value: Seq<char>,
)
    ensures
        value == "infix"@ ==> delimiters_attrs::delimiters_attr(p, "separatorPosition"@, value) == Some(
            Ok::<DelimiterPropsModel, ErrorModel>(DelimiterPropsModel { separator_position: Some(SeparatorPosition::Infix), ..p }),
        ),
        value == "prefix"@ ==> delimiters_attrs::delimiters_attr(p, "separatorPosition"@, value) == Some(
            Ok::<DelimiterPropsModel, ErrorModel>(DelimiterPropsModel { separator_position: Some(SeparatorPosition::Prefix), ..p }),
        ),
        value == "postfix"@ ==> delimiters_attrs::delimiters_attr(p, "separatorPosition"@, value) == Some(
            Ok::<DelimiterPropsModel, ErrorModel>(DelimiterPropsModel { separator_position: Some(SeparatorPosition::Postfix), ..p }),
        ),
        value != "infix"@ && value != "prefix"@ && value != "postfix"@ ==> (delimiters_attrs::delimiters_attr(
            p,
            "separatorPosition"@,
            value,
        ) matches Some(Err(_))),
{
    reveal(delimiters_attrs::delimiters_attr);
    reveal_strlit("infix");
    reveal_strlit("initiatedContent");
    reveal_strlit("initiator");
    reveal_strlit("postfix");
    reveal_strlit("prefix");
    reveal_strlit("separator");
    reveal_strlit("separatorPosition");
    reveal_strlit("separatorSuppressionPolicy");
    reveal_strlit("terminator");
    assert("separatorPosition"@.len() == 17 && "separatorSuppressionPolicy"@.len() == 26);
    assert("separatorPosition"@.len() == 17 && "initiator"@.len() == 9);
    assert("separatorPosition"@.len() == 17 && "terminator"@.len() == 10);
    assert("separatorPosition"@.len() == 17 && "separator"@.len() == 9);
    assert("separatorPosition"@.len() == 17 && "initiatedContent"@.len() == 16);
    assert("prefix"@.len() == 6 && "infix"@.len() == 5);
    assert("postfix"@.len() == 7 && "infix"@.len() == 5);
    assert("postfix"@.len() == 7 && "prefix"@.len() == 6);
}

/// Each value of `sequenceKind` means its own, whatever was stated before,
/// and changes nothing else; any other is an error.
#[verifier::spinoff_prover]
pub proof fn law_sequence_kind_stated(
    p: DelimiterPropsModel,
    value: Seq<char>,
)
    ensures
        value == "ordered"@ ==> delimiters_attrs::delimiters_attr(p, "sequenceKind"@, value) == Some(
            Ok::<DelimiterPropsModel, ErrorModel>(DelimiterPropsModel { sequence_kind: Some(SequenceKind::Ordered), ..p }),
        ),
        value == "unordered"@ ==> delimiters_attrs::delimiters_attr(p, "sequenceKind"@, value) == Some(
            Ok::<DelimiterPropsModel, ErrorModel>(DelimiterPropsModel { sequence_kind: Some(SequenceKind::Unordered), ..p }),
        ),
        value != "ordered"@ && value != "unordered"@ ==> (delimiters_attrs::delimiters_attr(
            p,
            "sequenceKind"@,
            value,
        ) matches Some(Err(_))),
{
    reveal(delimiters_attrs::delimiters_attr);
    reveal_strlit("initiatedContent");
    reveal_strlit("initiator");
    reveal_strlit("ordered");
    reveal_strlit("separator");
    reveal_strlit("separatorPosition");
    reveal_strlit("separatorSuppressionPolicy");
    reveal_strlit("sequenceKind");
    reveal_strlit("terminator");
    reveal_strlit("unordered");
    assert("sequenceKind"@.len() == 12 && "separatorSuppressionPolicy"@.len() == 26);
    assert("sequenceKind"@.len() == 12 && "initiator"@.len() == 9);
    assert("sequenceKind"@.len() == 12 && "terminator"@.len() == 10);
    assert("sequenceKind"@.len() == 12 && "separator"@.len() == 9);
    assert("sequenceKind"@.len() == 12 && "initiatedContent"@.len() == 16);
    assert("sequenceKind"@.len() == 12 && "separatorPosition"@.len() == 17);
    assert("unordered"@.len() == 9 && "ordered"@.len() == 7);
}

/// Each value of `lengthKind` means its own, whatever was stated before,
/// and changes nothing else; any other is an error.
#[verifier::spinoff_prover]
pub proof fn law_length_kind_stated(
    p: LengthPropsModel,
    value: Seq<char>,
    vars: Option<Seq<(Seq<char>, Seq<char>)>>,
)
    ensures
        value == "implicit"@ ==> length_attrs::length_attr(p, "lengthKind"@, value, vars) == Some(
            Ok::<LengthPropsModel, ErrorModel>(LengthPropsModel { length_kind: Some(LengthKind::Implicit), length_kind_defined: true, ..p }),
        ),
        value == "explicit"@ ==> length_attrs::length_attr(p, "lengthKind"@, value, vars) == Some(
            Ok::<LengthPropsModel, ErrorModel>(LengthPropsModel { length_kind: Some(LengthKind::Explicit), length_kind_defined: true, ..p }),
        ),
        value == "fixed"@ ==> length_attrs::length_attr(p, "lengthKind"@, value, vars) == Some(
            Ok::<LengthPropsModel, ErrorModel>(LengthPropsModel { length_kind: Some(LengthKind::Fixed), length_kind_defined: true, ..p }),
        ),
        value == "delimited"@ ==> length_attrs::length_attr(p, "lengthKind"@, value, vars) == Some(
            Ok::<LengthPropsModel, ErrorModel>(LengthPropsModel { length_kind: Some(LengthKind::Delimited), length_kind_defined: true, ..p }),
        ),
        value == "prefixed"@ ==> length_attrs::length_attr(p, "lengthKind"@, value, vars) == Some(
            Ok::<LengthPropsModel, ErrorModel>(LengthPropsModel { length_kind: Some(LengthKind::Prefixed), length_kind_defined: true, ..p }),
        ),
        value == "pattern"@ ==> length_attrs::length_attr(p, "lengthKind"@, value, vars) == Some(
            Ok::<LengthPropsModel, ErrorModel>(LengthPropsModel { length_kind: Some(LengthKind::Pattern), length_kind_defined: true, ..p }),
        ),
        value == "endOfParent"@ ==> length_attrs::length_attr(p, "lengthKind"@, value, vars) == Some(
            Ok::<LengthPropsModel, ErrorModel>(LengthPropsModel { length_kind: Some(LengthKind::EndOfParent), length_kind_defined: true, ..p }),
        ),
        value != "implicit"@ && value != "explicit"@ && value != "fixed"@ && value != "delimited"@ && value != "prefixed"@ && value != "pattern"@ && value != "endOfParent"@ ==> (length_attrs::length_attr(
            p,
            "lengthKind"@,
            value,
            vars,
        ) matches Some(Err(_))),
{
    reveal(length_attrs::length_attr);
    reveal_strlit("delimited");
    reveal_strlit("endOfParent");
    reveal_strlit("explicit");
    reveal_strlit("fixed");
    reveal_strlit("implicit");
    reveal_strlit("lengthKind");
    reveal_strlit("pattern");
    reveal_strlit("prefixed");
    assert("explicit"@[0] == 'e' && "implicit"@[0] == 'i');
    assert("fixed"@.len() == 5 && "implicit"@.len() == 8);
    assert("fixed"@.len() == 5 && "explicit"@.len() == 8);
    assert("delimited"@.len() == 9 && "implicit"@.len() == 8);
    assert("delimited"@.len() == 9 && "explicit"@.len() == 8);
    assert("delimited"@.len() == 9 && "fixed"@.len() == 5);
    assert("prefixed"@[0] == 'p' && "implicit"@[0] == 'i');
    assert("prefixed"@[0] == 'p' && "explicit"@[0] == 'e');
    assert("prefixed"@.len() == 8 && "fixed"@.len() == 5);
    assert("prefixed"@.len() == 8 && "delimited"@.len() == 9);
    assert("pattern"@.len() == 7 && "implicit"@.len() == 8);
    assert("pattern"@.len() == 7 && "explicit"@.len() == 8);
    assert("pattern"@.len() == 7 && "fixed"@.len() == 5);
    assert("pattern"@.len() == 7 && "delimited"@.len() == 9);
    assert("pattern"@.len() == 7 && "prefixed"@.len() == 8);
    assert("endOfParent"@.len() == 11 && "implicit"@.len() == 8);
    assert("endOfParent"@.len() == 11 && "explicit"@.len() == 8);
    assert("endOfParent"@.len() == 11 && "fixed"@.len() == 5);
    assert("endOfParent"@.len() == 11 && "delimited"@.len() == 9);
    assert("endOfParent"@.len() == 11 && "prefixed"@.len() == 8);
    assert("endOfParent"@.len() == 11 && "pattern"@.len() == 7);
}

/// Each value of `lengthUnits` means its own, whatever was stated before,
/// and changes nothing else; any other is an error.
#[verifier::spinoff_prover]
pub proof fn law_length_units_stated(
    p: LengthPropsModel,
    value: Seq<char>,
    vars: Option<Seq<(Seq<char>, Seq<char>)>>,
)
    ensures
        value == "bytes"@ ==> length_attrs::length_attr(p, "lengthUnits"@, value, vars) == Some(
            Ok::<LengthPropsModel, ErrorModel>(LengthPropsModel { length_units: Some(LengthUnits::Bytes), ..p }),
        ),
        value == "bits"@ ==> length_attrs::length_attr(p, "lengthUnits"@, value, vars) == Some(
            Ok::<LengthPropsModel, ErrorModel>(LengthPropsModel { length_units: Some(LengthUnits::Bits), ..p }),
        ),
        value == "characters"@ ==> length_attrs::length_attr(p, "lengthUnits"@, value, vars) == Some(
            Ok::<LengthPropsModel, ErrorModel>(LengthPropsModel { length_units: Some(LengthUnits::Characters), ..p }),
        ),
        value != "bytes"@ && value != "bits"@ && value != "characters"@ ==> (length_attrs::length_attr(
            p,
            "lengthUnits"@,
            value,
            vars,
        ) matches Some(Err(_))),
{
    reveal(length_attrs::length_attr);
    reveal_strlit("bits");
    reveal_strlit("bytes");
    reveal_strlit("characters");
    reveal_strlit("length");
    reveal_strlit("lengthKind");
    reveal_strlit("lengthPattern");
    reveal_strlit("lengthUnits");
    assert("lengthUnits"@.len() == 11 && "lengthKind"@.len() == 10);
    assert("lengthUnits"@.len() == 11 && "lengthPattern"@.len() == 13);
    assert("lengthUnits"@.len() == 11 && "length"@.len() == 6);
    assert("bits"@.len() == 4 && "bytes"@.len() == 5);
    assert("characters"@.len() == 10 && "bytes"@.len() == 5);
    assert("characters"@.len() == 10 && "bits"@.len() == 4);
}

/// Each value of `prefixIncludesPrefixLength` means its own, whatever was stated before,
/// and changes nothing else; any other is an error.
#[verifier::spinoff_prover]
pub proof fn law_prefix_includes_prefix_length_stated(
    p: LengthPropsModel,
    value: Seq<char>,
    vars: Option<Seq<(Seq<char>, Seq<char>)>>,
)
    ensures
        value == "yes"@ ==> length_attrs::length_attr(p, "prefixIncludesPrefixLength"@, value, vars) == Some(
            Ok::<LengthPropsModel, ErrorModel>(LengthPropsModel { prefix_includes_prefix_length: Some(true), ..p }),
        ),
        value == "no"@ ==> length_attrs::length_attr(p, "prefixIncludesPrefixLength"@, value, vars) == Some(
            Ok::<LengthPropsModel, ErrorModel>(LengthPropsModel { prefix_includes_prefix_length: Some(false), ..p }),
        ),
        value != "yes"@ && value != "no"@ ==> (length_attrs::length_attr(
            p,
            "prefixIncludesPrefixLength"@,
            value,
            vars,
        ) matches Some(Err(_))),
{
    reveal(length_attrs::length_attr);
    reveal_strlit("length");
    reveal_strlit("lengthKind");
    reveal_strlit("lengthPattern");
    reveal_strlit("lengthUnits");
    reveal_strlit("no");
    reveal_strlit("prefixIncludesPrefixLength");
    reveal_strlit("prefixLengthType");
    reveal_strlit("yes");
    assert("prefixIncludesPrefixLength"@.len() == 26 && "lengthKind"@.len() == 10);
    assert("prefixIncludesPrefixLength"@.len() == 26 && "lengthPattern"@.len() == 13);
    assert("prefixIncludesPrefixLength"@.len() == 26 && "length"@.len() == 6);
    assert("prefixIncludesPrefixLength"@.len() == 26 && "lengthUnits"@.len() == 11);
    assert("prefixIncludesPrefixLength"@.len() == 26 && "prefixLengthType"@.len() == 16);
    assert("no"@.len() == 2 && "yes"@.len() == 3);
}

/// Each value of `textNumberCheckPolicy` means its own, whatever was stated before,
/// and changes nothing else; any other is an error.
#[verifier::spinoff_prover]
pub proof fn law_text_number_check_policy_stated(
    p: NumberPropsModel,
    value: Seq<char>,
)
    ensures
        value == "strict"@ ==> number_attrs::number_attr(p, "textNumberCheckPolicy"@, value) == Some(
            Ok::<NumberPropsModel, ErrorModel>(NumberPropsModel { text_number_check_policy: Some(BinaryNumberCheckPolicy::Strict), ..p }),
        ),
        value == "lax"@ ==> number_attrs::number_attr(p, "textNumberCheckPolicy"@, value) == Some(
            Ok::<NumberPropsModel, ErrorModel>(NumberPropsModel { text_number_check_policy: Some(BinaryNumberCheckPolicy::Lax), ..p }),
        ),
        value != "strict"@ && value != "lax"@ ==> (number_attrs::number_attr(
            p,
            "textNumberCheckPolicy"@,
            value,
        ) matches Some(Err(_))),
{
    reveal(number_attrs::number_attr);
    reveal_strlit("lax");
    reveal_strlit("strict");
    reveal_strlit("textNumberCheckPolicy");
    reveal_strlit("textNumberPattern");
    reveal_strlit("textStandardBase");
    assert("textNumberCheckPolicy"@.len() == 21 && "textStandardBase"@.len() == 16);
    assert("textNumberCheckPolicy"@.len() == 21 && "textNumberPattern"@.len() == 17);
    assert("lax"@.len() == 3 && "strict"@.len() == 6);
}

/// Each value of `textNumberRep` means its own, whatever was stated before,
/// and changes nothing else; any other is an error.
#[verifier::spinoff_prover]
pub proof fn law_text_number_rep_stated(
    p: NumberPropsModel,
    value: Seq<char>,
)
    ensures
        value == "standard"@ ==> number_attrs::number_attr(p, "textNumberRep"@, value) == Some(
            Ok::<NumberPropsModel, ErrorModel>(NumberPropsModel { text_number_rep: Some(TextNumberRep::Standard), ..p }),
        ),
        value == "zoned"@ ==> number_attrs::number_attr(p, "textNumberRep"@, value) == Some(
            Ok::<NumberPropsModel, ErrorModel>(NumberPropsModel { text_number_rep: Some(TextNumberRep::Zoned), ..p }),
        ),
        value != "standard"@ && value != "zoned"@ ==> (number_attrs::number_attr(
            p,
            "textNumberRep"@,
            value,
        ) matches Some(Err(_))),
{
    reveal(number_attrs::number_attr);
    reveal_strlit("standard");
    reveal_strlit("textNumberCheckPolicy");
    reveal_strlit("textNumberPattern");
    reveal_strlit("textNumberRep");
    reveal_strlit("textStandardBase");
    reveal_strlit("zoned");
    assert("textNumberRep"@.len() == 13 && "textStandardBase"@.len() == 16);
    assert("textNumberRep"@.len() == 13 && "textNumberPattern"@.len() == 17);
    assert("textNumberRep"@.len() == 13 && "textNumberCheckPolicy"@.len() == 21);
    assert("zoned"@.len() == 5 && "standard"@.len() == 8);
}

/// Each value of `textZonedSignStyle` means its own, whatever was stated before,
/// and changes nothing else; any other is an error.
#[verifier::spinoff_prover]
pub proof fn law_text_zoned_sign_style_stated(
    p: NumberPropsModel,
    value: Seq<char>,
)
    ensures
        value == "asciiStandard"@ ==> number_attrs::number_attr(p, "textZonedSignStyle"@, value) == Some(
            Ok::<NumberPropsModel, ErrorModel>(NumberPropsModel { text_zoned_sign_style: Some(TextZonedSignStyle::AsciiStandard), ..p }),
        ),
        value == "asciiTranslatedEBCDIC"@ ==> number_attrs::number_attr(p, "textZonedSignStyle"@, value) == Some(
            Ok::<NumberPropsModel, ErrorModel>(NumberPropsModel { text_zoned_sign_style: Some(TextZonedSignStyle::AsciiTranslatedEBCDIC), ..p }),
        ),
        value == "asciiCARealiaModified"@ ==> number_attrs::number_attr(p, "textZonedSignStyle"@, value) == Some(
            Ok::<NumberPropsModel, ErrorModel>(NumberPropsModel { text_zoned_sign_style: Some(TextZonedSignStyle::AsciiCARealiaModified), ..p }),
        ),
        value == "asciiTandemModified"@ ==> number_attrs::number_attr(p, "textZonedSignStyle"@, value) == Some(
            Ok::<NumberPropsModel, ErrorModel>(NumberPropsModel { text_zoned_sign_style: Some(TextZonedSignStyle::AsciiTandemModified), ..p }),
        ),
        value != "asciiStandard"@ && value != "asciiTranslatedEBCDIC"@ && value != "asciiCARealiaModified"@ && value != "asciiTandemModified"@ ==> (number_attrs::number_attr(
            p,
            "textZonedSignStyle"@,
            value,
        ) matches Some(Err(_))),
{
    reveal(number_attrs::number_attr);
    reveal_strlit("asciiCARealiaModified");
    reveal_strlit("asciiStandard");
    reveal_strlit("asciiTandemModified");
    reveal_strlit("asciiTranslatedEBCDIC");
    reveal_strlit("textNumberCheckPolicy");
    reveal_strlit("textNumberPattern");
    reveal_strlit("textNumberRep");
    reveal_strlit("textStandardBase");
    reveal_strlit("textZonedSignStyle");
    assert("textZonedSignStyle"@.len() == 18 && "textStandardBase"@.len() == 16);
    assert("textZonedSignStyle"@.len() == 18 && "textNumberPattern"@.len() == 17);
    assert("textZonedSignStyle"@.len() == 18 && "textNumberCheckPolicy"@.len() == 21);
    assert("textZonedSignStyle"@.len() == 18 && "textNumberRep"@.len() == 13);
    assert("asciiTranslatedEBCDIC"@.len() == 21 && "asciiStandard"@.len() == 13);
    assert("asciiCARealiaModified"@.len() == 21 && "asciiStandard"@.len() == 13);
    assert("asciiCARealiaModified"@[5] == 'C' && "asciiTranslatedEBCDIC"@[5] == 'T');
    assert("asciiTandemModified"@.len() == 19 && "asciiStandard"@.len() == 13);
    assert("asciiTandemModified"@.len() == 19 && "asciiTranslatedEBCDIC"@.len() == 21);
    assert("asciiTandemModified"@.len() == 19 && "asciiCARealiaModified"@.len() == 21);
}

/// Each value of `textNumberRounding` means its own, whatever was stated before,
/// and changes nothing else; any other is an error.
#[verifier::spinoff_prover]
pub proof fn law_text_number_rounding_stated(
    p: NumberPropsModel,
    value: Seq<char>,
)
    ensures
        value == "pattern"@ ==> number_attrs::number_attr(p, "textNumberRounding"@, value) == Some(
            Ok::<NumberPropsModel, ErrorModel>(NumberPropsModel { text_number_rounding: Some(TextNumberRounding::Pattern), ..p }),
        ),
        value == "explicit"@ ==> number_attrs::number_attr(p, "textNumberRounding"@, value) == Some(
            Ok::<NumberPropsModel, ErrorModel>(NumberPropsModel { text_number_rounding: Some(TextNumberRounding::Explicit), ..p }),
        ),
        value != "pattern"@ && value != "explicit"@ ==> (number_attrs::number_attr(
            p,
            "textNumberRounding"@,
            value,
        ) matches Some(Err(_))),
{
    reveal(number_attrs::number_attr);
    reveal_strlit("explicit");
    reveal_strlit("pattern");
    reveal_strlit("textNumberCheckPolicy");
    reveal_strlit("textNumberPattern");
    reveal_strlit("textNumberRep");
    reveal_strlit("textNumberRounding");
    reveal_strlit("textStandardBase");
    reveal_strlit("textStandardDecimalSeparator");
    reveal_strlit("textStandardExponentRep");
    reveal_strlit("textStandardGroupingSeparator");
    reveal_strlit("textStandardInfinityRep");
    reveal_strlit("textStandardNaNRep");
    reveal_strlit("textStandardZeroRep");
    reveal_strlit("textZonedSignStyle");
    assert("textNumberRounding"@.len() == 18 && "textStandardBase"@.len() == 16);
    assert("textNumberRounding"@.len() == 18 && "textNumberPattern"@.len() == 17);
    assert("textNumberRounding"@.len() == 18 && "textNumberCheckPolicy"@.len() == 21);
    assert("textNumberRounding"@.len() == 18 && "textNumberRep"@.len() == 13);
    assert("textNumberRounding"@[4] == 'N' && "textZonedSignStyle"@[4] == 'Z');
    assert("textNumberRounding"@.len() == 18 && "textStandardDecimalSeparator"@.len() == 28);
    assert("textNumberRounding"@.len() == 18 && "textStandardGroupingSeparator"@.len() == 29);
    assert("textNumberRounding"@.len() == 18 && "textStandardExponentRep"@.len() == 23);
    assert("textNumberRounding"@.len() == 18 && "textStandardInfinityRep"@.len() == 23);
    assert("textNumberRounding"@[4] == 'N' && "textStandardNaNRep"@[4] == 'S');
    assert("textNumberRounding"@.len() == 18 && "textStandardZeroRep"@.len() == 19);
    assert("explicit"@.len() == 8 && "pattern"@.len() == 7);
}

/// Each value of `textNumberRoundingMode` means its own, whatever was stated before,
/// and changes nothing else; any other is an error.
#[verifier::spinoff_prover]
pub proof fn law_text_number_rounding_mode_stated(
    p: NumberPropsModel,
    value: Seq<char>,
)
    ensures
        value == "roundCeiling"@ ==> number_attrs::number_attr(p, "textNumberRoundingMode"@, value) == Some(
            Ok::<NumberPropsModel, ErrorModel>(NumberPropsModel { text_number_rounding_mode: Some(TextNumberRoundingMode::RoundCeiling), ..p }),
        ),
        value == "roundFloor"@ ==> number_attrs::number_attr(p, "textNumberRoundingMode"@, value) == Some(
            Ok::<NumberPropsModel, ErrorModel>(NumberPropsModel { text_number_rounding_mode: Some(TextNumberRoundingMode::RoundFloor), ..p }),
        ),
        value == "roundDown"@ ==> number_attrs::number_attr(p, "textNumberRoundingMode"@, value) == Some(
            Ok::<NumberPropsModel, ErrorModel>(NumberPropsModel { text_number_rounding_mode: Some(TextNumberRoundingMode::RoundDown), ..p }),
        ),
        value == "roundUp"@ ==> number_attrs::number_attr(p, "textNumberRoundingMode"@, value) == Some(
            Ok::<NumberPropsModel, ErrorModel>(NumberPropsModel { text_number_rounding_mode: Some(TextNumberRoundingMode::RoundUp), ..p }),
        ),
        value == "roundHalfEven"@ ==> number_attrs::number_attr(p, "textNumberRoundingMode"@, value) == Some(
            Ok::<NumberPropsModel, ErrorModel>(NumberPropsModel { text_number_rounding_mode: Some(TextNumberRoundingMode::RoundHalfEven), ..p }),
        ),
        value == "roundHalfDown"@ ==> number_attrs::number_attr(p, "textNumberRoundingMode"@, value) == Some(
            Ok::<NumberPropsModel, ErrorModel>(NumberPropsModel { text_number_rounding_mode: Some(TextNumberRoundingMode::RoundHalfDown), ..p }),
        ),
        value == "roundHalfUp"@ ==> number_attrs::number_attr(p, "textNumberRoundingMode"@, value) == Some(
            Ok::<NumberPropsModel, ErrorModel>(NumberPropsModel { text_number_rounding_mode: Some(TextNumberRoundingMode::RoundHalfUp), ..p }),
        ),
        value == "roundUnnecessary"@ ==> number_attrs::number_attr(p, "textNumberRoundingMode"@, value) == Some(
            Ok::<NumberPropsModel, ErrorModel>(NumberPropsModel { text_number_rounding_mode: Some(TextNumberRoundingMode::RoundUnnecessary), ..p }),
        ),
        value != "roundCeiling"@ && value != "roundFloor"@ && value != "roundDown"@ && value != "roundUp"@ && value != "roundHalfEven"@ && value != "roundHalfDown"@ && value != "roundHalfUp"@ && value != "roundUnnecessary"@ ==> (number_attrs::number_attr(
            p,
            "textNumberRoundingMode"@,
            value,
        ) matches Some(Err(_))),
{
    reveal(number_attrs::number_attr);
    reveal_strlit("roundCeiling");
    reveal_strlit("roundDown");
    reveal_strlit("roundFloor");
    reveal_strlit("roundHalfDown");
    reveal_strlit("roundHalfEven");
    reveal_strlit("roundHalfUp");
    reveal_strlit("roundUnnecessary");
    reveal_strlit("roundUp");
    reveal_strlit("textNumberCheckPolicy");
    reveal_strlit("textNumberPattern");
    reveal_strlit("textNumberRep");
    reveal_strlit("textNumberRounding");
    reveal_strlit("textNumberRoundingIncrement");
    reveal_strlit("textNumberRoundingMode");
    reveal_strlit("textStandardBase");
    reveal_strlit("textStandardDecimalSeparator");
    reveal_strlit("textStandardExponentRep");
    reveal_strlit("textStandardGroupingSeparator");
    reveal_strlit("textStandardInfinityRep");
    reveal_strlit("textStandardNaNRep");
    reveal_strlit("textStandardZeroRep");
    reveal_strlit("textZonedSignStyle");
    assert("textNumberRoundingMode"@.len() == 22 && "textStandardBase"@.len() == 16);
    assert("textNumberRoundingMode"@.len() == 22 && "textNumberPattern"@.len() == 17);
    assert("textNumberRoundingMode"@.len() == 22 && "textNumberCheckPolicy"@.len() == 21);
    assert("textNumberRoundingMode"@.len() == 22 && "textNumberRep"@.len() == 13);
    assert("textNumberRoundingMode"@.len() == 22 && "textZonedSignStyle"@.len() == 18);
    assert("textNumberRoundingMode"@.len() == 22 && "textStandardDecimalSeparator"@.len() == 28);
    assert("textNumberRoundingMode"@.len() == 22 && "textStandardGroupingSeparator"@.len() == 29);
    assert("textNumberRoundingMode"@.len() == 22 && "textStandardExponentRep"@.len() == 23);
    assert("textNumberRoundingMode"@.len() == 22 && "textStandardInfinityRep"@.len() == 23);
    assert("textNumberRoundingMode"@.len() == 22 && "textStandardNaNRep"@.len() == 18);
    assert("textNumberRoundingMode"@.len() == 22 && "textStandardZeroRep"@.len() == 19);
    assert("textNumberRoundingMode"@.len() == 22 && "textNumberRounding"@.len() == 18);
    assert("textNumberRoundingMode"@.len() == 22 && "textNumberRoundingIncrement"@.len() == 27);
    assert("roundFloor"@.len() == 10 && "roundCeiling"@.len() == 12);
    assert("roundDown"@.len() == 9 && "roundCeiling"@.len() == 12);
    assert("roundDown"@.len() == 9 && "roundFloor"@.len() == 10);
    assert("roundUp"@.len() == 7 && "roundCeiling"@.len() == 12);
    assert("roundUp"@.len() == 7 && "roundFloor"@.len() == 10);
    assert("roundUp"@.len() == 7 && "roundDown"@.len() == 9);
    assert("roundHalfEven"@.len() == 13 && "roundCeiling"@.len() == 12);
    assert("roundHalfEven"@.len() == 13 && "roundFloor"@.len() == 10);
    assert("roundHalfEven"@.len() == 13 && "roundDown"@.len() == 9);
    assert("roundHalfEven"@.len() == 13 && "roundUp"@.len() == 7);
    assert("roundHalfDown"@.len() == 13 && "roundCeiling"@.len() == 12);
    assert("roundHalfDown"@.len() == 13 && "roundFloor"@.len() == 10);
    assert("roundHalfDown"@.len() == 13 && "roundDown"@.len() == 9);
    assert("roundHalfDown"@.len() == 13 && "roundUp"@.len() == 7);
    assert("roundHalfDown"@[9] == 'D' && "roundHalfEven"@[9] == 'E');
    assert("roundHalfUp"@.len() == 11 && "roundCeiling"@.len() == 12);
    assert("roundHalfUp"@.len() == 11 && "roundFloor"@.len() == 10);
    assert("roundHalfUp"@.len() == 11 && "roundDown"@.len() == 9);
    assert("roundHalfUp"@.len() == 11 && "roundUp"@.len() == 7);
    assert("roundHalfUp"@.len() == 11 && "roundHalfEven"@.len() == 13);
    assert("roundHalfUp"@.len() == 11 && "roundHalfDown"@.len() == 13);
    assert("roundUnnecessary"@.len() == 16 && "roundCeiling"@.len() == 12);
    assert("roundUnnecessary"@.len() == 16 && "roundFloor"@.len() == 10);
    assert("roundUnnecessary"@.len() == 16 && "roundDown"@.len() == 9);
    assert("roundUnnecessary"@.len() == 16 && "roundUp"@.len() == 7);
    assert("roundUnnecessary"@.len() == 16 && "roundHalfEven"@.len() == 13);
    assert("roundUnnecessary"@.len() == 16 && "roundHalfDown"@.len() == 13);
    assert("roundUnnecessary"@.len() == 16 && "roundHalfUp"@.len() == 11);
}

/// Each value of `nilKind` means its own, whatever was stated before,
/// and changes nothing else; any other is an error.
#[verifier::spinoff_prover]
pub proof fn law_nil_kind_stated(
    p: OccursPropsModel,
    value: Seq<char>,
)
    ensures
        value == "literalValue"@ ==> occurs_attrs::occurs_attr(p, "nilKind"@, value) == Some(
            Ok::<OccursPropsModel, ErrorModel>(OccursPropsModel { nil_kind: Some(NilKind::LiteralValue), ..p }),
        ),
        value == "literalCharacter"@ ==> occurs_attrs::occurs_attr(p, "nilKind"@, value) == Some(
            Ok::<OccursPropsModel, ErrorModel>(OccursPropsModel { nil_kind: Some(NilKind::LiteralCharacter), ..p }),
        ),
        value != "literalValue"@ && value != "literalCharacter"@ ==> (occurs_attrs::occurs_attr(
            p,
            "nilKind"@,
            value,
        ) matches Some(Err(_))),
{
    reveal(occurs_attrs::occurs_attr);
    reveal_strlit("literalCharacter");
    reveal_strlit("literalValue");
    reveal_strlit("nilKind");
    assert("literalCharacter"@.len() == 16 && "literalValue"@.len() == 12);
}

/// Each value of `emptyElementParsePolicy` means its own, whatever was stated before,
/// and changes nothing else; any other is an error.
#[verifier::spinoff_prover]
pub proof fn law_empty_element_parse_policy_stated(
    p: OccursPropsModel,
    value: Seq<char>,
)
    ensures
        value == "treatAsEmpty"@ ==> occurs_attrs::occurs_attr(p, "emptyElementParsePolicy"@, value) == Some(
            Ok::<OccursPropsModel, ErrorModel>(OccursPropsModel { empty_element_parse_policy: Some(EmptyElementParsePolicy::TreatAsEmpty), ..p }),
        ),
        value == "treatAsAbsent"@ ==> occurs_attrs::occurs_attr(p, "emptyElementParsePolicy"@, value) == Some(
            Ok::<OccursPropsModel, ErrorModel>(OccursPropsModel { empty_element_parse_policy: Some(EmptyElementParsePolicy::TreatAsAbsent), ..p }),
        ),
        value == "treatAsMissing"@ ==> occurs_attrs::occurs_attr(p, "emptyElementParsePolicy"@, value) == Some(
            Ok::<OccursPropsModel, ErrorModel>(OccursPropsModel { empty_element_parse_policy: Some(EmptyElementParsePolicy::TreatAsAbsent), ..p }),
        ),
        value != "treatAsEmpty"@ && value != "treatAsAbsent"@ && value != "treatAsMissing"@ ==> (occurs_attrs::occurs_attr(
            p,
            "emptyElementParsePolicy"@,
            value,
        ) matches Some(Err(_))),
{
    reveal(occurs_attrs::occurs_attr);
    reveal_strlit("emptyElementParsePolicy");
    reveal_strlit("nilKind");
    reveal_strlit("nilValue");
    reveal_strlit("treatAsAbsent");
    reveal_strlit("treatAsEmpty");
    reveal_strlit("treatAsMissing");
    assert("emptyElementParsePolicy"@.len() == 23 && "nilKind"@.len() == 7);
    assert("emptyElementParsePolicy"@.len() == 23 && "nilValue"@.len() == 8);
    assert("treatAsAbsent"@.len() == 13 && "treatAsEmpty"@.len() == 12);
    assert("treatAsMissing"@.len() == 14 && "treatAsEmpty"@.len() == 12);
    assert("treatAsMissing"@.len() == 14 && "treatAsAbsent"@.len() == 13);
}

/// Each value of `occursCountKind` means its own, whatever was stated before,
/// and changes nothing else; any other is an error.
#[verifier::spinoff_prover]
pub proof fn law_occurs_count_kind_stated(
    p: OccursPropsModel,
    value: Seq<char>,
)
    ensures
        value == "parsed"@ ==> occurs_attrs::occurs_attr(p, "occursCountKind"@, value) == Some(
            Ok::<OccursPropsModel, ErrorModel>(OccursPropsModel { occurs_count_kind: Some(OccursCountKind::Parsed), ..p }),
        ),
        value == "implicit"@ ==> occurs_attrs::occurs_attr(p, "occursCountKind"@, value) == Some(
            Ok::<OccursPropsModel, ErrorModel>(OccursPropsModel { occurs_count_kind: Some(OccursCountKind::Implicit), ..p }),
        ),
        value == "fixed"@ ==> occurs_attrs::occurs_attr(p, "occursCountKind"@, value) == Some(
            Ok::<OccursPropsModel, ErrorModel>(OccursPropsModel { occurs_count_kind: Some(OccursCountKind::Fixed), ..p }),
        ),
        value == "expression"@ ==> occurs_attrs::occurs_attr(p, "occursCountKind"@, value) == Some(
            Ok::<OccursPropsModel, ErrorModel>(OccursPropsModel { occurs_count_kind: Some(OccursCountKind::Expression), ..p }),
        ),
        value != "parsed"@ && value != "implicit"@ && value != "fixed"@ && value != "expression"@ ==> (occurs_attrs::occurs_attr(
            p,
            "occursCountKind"@,
            value,
        ) matches Some(Err(_))),
{
    reveal(occurs_attrs::occurs_attr);
    reveal_strlit("emptyElementParsePolicy");
    reveal_strlit("expression");
    reveal_strlit("fixed");
    reveal_strlit("implicit");
    reveal_strlit("nilKind");
    reveal_strlit("nilValue");
    reveal_strlit("occursCountKind");
    reveal_strlit("parsed");
    assert("occursCountKind"@.len() == 15 && "nilKind"@.len() == 7);
    assert("occursCountKind"@.len() == 15 && "nilValue"@.len() == 8);
    assert("occursCountKind"@.len() == 15 && "emptyElementParsePolicy"@.len() == 23);
    assert("implicit"@.len() == 8 && "parsed"@.len() == 6);
    assert("fixed"@.len() == 5 && "parsed"@.len() == 6);
    assert("fixed"@.len() == 5 && "implicit"@.len() == 8);
    assert("expression"@.len() == 10 && "parsed"@.len() == 6);
    assert("expression"@.len() == 10 && "implicit"@.len() == 8);
    assert("expression"@.len() == 10 && "fixed"@.len() == 5);
}

/// Each value of `representation` means its own, whatever was stated before,
/// and changes nothing else; any other is an error.
#[verifier::spinoff_prover]
pub proof fn law_representation_stated(
    p: PhysicalPropsModel,
    value: Seq<char>,
)
    ensures
        value == "binary"@ ==> physical_attrs::physical_attr(p, "representation"@, value) == Some(
            Ok::<PhysicalPropsModel, ErrorModel>(PhysicalPropsModel { representation: Some(Representation::Binary), ..p }),
        ),
        value == "text"@ ==> physical_attrs::physical_attr(p, "representation"@, value) == Some(
            Ok::<PhysicalPropsModel, ErrorModel>(PhysicalPropsModel { representation: Some(Representation::Text), ..p }),
        ),
        value != "binary"@ && value != "text"@ ==> (physical_attrs::physical_attr(
            p,
            "representation"@,
            value,
        ) matches Some(Err(_))),
{
    reveal(physical_attrs::physical_attr);
    reveal_strlit("binary");
    reveal_strlit("representation");
    reveal_strlit("text");
    assert("text"@.len() == 4 && "binary"@.len() == 6);
}

/// Each value of `bitOrder` means its own, whatever was stated before,
/// and changes nothing else; any other is an error.
#[verifier::spinoff_prover]
pub proof fn law_bit_order_stated(
    p: PhysicalPropsModel,
    value: Seq<char>,
)
    ensures
        value == "mostSignificantBitFirst"@ ==> physical_attrs::physical_attr(p, "bitOrder"@, value) == Some(
            Ok::<PhysicalPropsModel, ErrorModel>(PhysicalPropsModel { bit_order: Some(BitOrder::MostSignificantBitFirst), ..p }),
        ),
        value == "leastSignificantBitFirst"@ ==> physical_attrs::physical_attr(p, "bitOrder"@, value) == Some(
            Ok::<PhysicalPropsModel, ErrorModel>(PhysicalPropsModel { bit_order: Some(BitOrder::LeastSignificantBitFirst), ..p }),
        ),
        value != "mostSignificantBitFirst"@ && value != "leastSignificantBitFirst"@ ==> (physical_attrs::physical_attr(
            p,
            "bitOrder"@,
            value,
        ) matches Some(Err(_))),
{
    reveal(physical_attrs::physical_attr);
    reveal_strlit("bitOrder");
    reveal_strlit("byteOrder");
    reveal_strlit("leastSignificantBitFirst");
    reveal_strlit("mostSignificantBitFirst");
    reveal_strlit("representation");
    assert("bitOrder"@.len() == 8 && "representation"@.len() == 14);
    assert("bitOrder"@.len() == 8 && "byteOrder"@.len() == 9);
    assert("leastSignificantBitFirst"@.len() == 24 && "mostSignificantBitFirst"@.len() == 23);
}

/// Each value of `encodingErrorPolicy` means its own, whatever was stated before,
/// and changes nothing else; any other is an error.
#[verifier::spinoff_prover]
pub proof fn law_encoding_error_policy_stated(
    p: PhysicalPropsModel,
    value: Seq<char>,
)
    ensures
        value == "error"@ ==> physical_attrs::physical_attr(p, "encodingErrorPolicy"@, value) == Some(
            Ok::<PhysicalPropsModel, ErrorModel>(PhysicalPropsModel { encoding_error_policy: Some(EncodingErrorPolicy::Error), encoding_error_policy_defined: true, ..p }),
        ),
        value == "replace"@ ==> physical_attrs::physical_attr(p, "encodingErrorPolicy"@, value) == Some(
            Ok::<PhysicalPropsModel, ErrorModel>(PhysicalPropsModel { encoding_error_policy: Some(EncodingErrorPolicy::Replace), encoding_error_policy_defined: true, ..p }),
        ),
        value != "error"@ && value != "replace"@ ==> (physical_attrs::physical_attr(
            p,
            "encodingErrorPolicy"@,
            value,
        ) matches Some(Err(_))),
{
    reveal(physical_attrs::physical_attr);
    reveal_strlit("bitOrder");
    reveal_strlit("byteOrder");
    reveal_strlit("encoding");
    reveal_strlit("encodingErrorPolicy");
    reveal_strlit("error");
    reveal_strlit("replace");
    reveal_strlit("representation");
    assert("encodingErrorPolicy"@.len() == 19 && "representation"@.len() == 14);
    assert("encodingErrorPolicy"@.len() == 19 && "byteOrder"@.len() == 9);
    assert("encodingErrorPolicy"@.len() == 19 && "bitOrder"@.len() == 8);
    assert("encodingErrorPolicy"@.len() == 19 && "encoding"@.len() == 8);
    assert("replace"@.len() == 7 && "error"@.len() == 5);
}

/// Each value of `ignoreCase` means its own, whatever was stated before,
/// and changes nothing else; any other is an error.
#[verifier::spinoff_prover]
pub proof fn law_ignore_case_stated(
    p: PhysicalPropsModel,
    value: Seq<char>,
)
    ensures
        value == "yes"@ ==> physical_attrs::physical_attr(p, "ignoreCase"@, value) == Some(
            Ok::<PhysicalPropsModel, ErrorModel>(PhysicalPropsModel { ignore_case: Some(true), ..p }),
        ),
        value == "no"@ ==> physical_attrs::physical_attr(p, "ignoreCase"@, value) == Some(
            Ok::<PhysicalPropsModel, ErrorModel>(PhysicalPropsModel { ignore_case: Some(false), ..p }),
        ),
        value != "yes"@ && value != "no"@ ==> (physical_attrs::physical_attr(
            p,
            "ignoreCase"@,
            value,
        ) matches Some(Err(_))),
{
    reveal(physical_attrs::physical_attr);
    reveal_strlit("bitOrder");
    reveal_strlit("byteOrder");
    reveal_strlit("encoding");
    reveal_strlit("encodingErrorPolicy");
    reveal_strlit("ignoreCase");
    reveal_strlit("no");
    reveal_strlit("representation");
    reveal_strlit("yes");
    assert("ignoreCase"@.len() == 10 && "representation"@.len() == 14);
    assert("ignoreCase"@.len() == 10 && "byteOrder"@.len() == 9);
    assert("ignoreCase"@.len() == 10 && "bitOrder"@.len() == 8);
    assert("ignoreCase"@.len() == 10 && "encoding"@.len() == 8);
    assert("ignoreCase"@.len() == 10 && "encodingErrorPolicy"@.len() == 19);
    assert("no"@.len() == 2 && "yes"@.len() == 3);
}

/// Each value of `objectKind` means its own, whatever was stated before,
/// and changes nothing else; any other is an error.
#[verifier::spinoff_prover]
pub proof fn law_object_kind_stated(
    p: PhysicalPropsModel,
    value: Seq<char>,
)
    ensures
        value == "bytes"@ ==> physical_attrs::physical_attr(p, "objectKind"@, value) == Some(
            Ok::<PhysicalPropsModel, ErrorModel>(PhysicalPropsModel { object_kind: Some(ObjectKind::Bytes), ..p }),
        ),
        value == "chars"@ ==> physical_attrs::physical_attr(p, "objectKind"@, value) == Some(
            Ok::<PhysicalPropsModel, ErrorModel>(PhysicalPropsModel { object_kind: Some(ObjectKind::Chars), ..p }),
        ),
        value != "bytes"@ && value != "chars"@ ==> (physical_attrs::physical_attr(
            p,
            "objectKind"@,
            value,
        ) matches Some(Err(_))),
{
    reveal(physical_attrs::physical_attr);
    reveal_strlit("bitOrder");
    reveal_strlit("byteOrder");
    reveal_strlit("bytes");
    reveal_strlit("chars");
    reveal_strlit("encoding");
    reveal_strlit("encodingErrorPolicy");
    reveal_strlit("ignoreCase");
    reveal_strlit("objectKind");
    reveal_strlit("representation");
    assert("objectKind"@.len() == 10 && "representation"@.len() == 14);
    assert("objectKind"@.len() == 10 && "byteOrder"@.len() == 9);
    assert("objectKind"@.len() == 10 && "bitOrder"@.len() == 8);
    assert("objectKind"@.len() == 10 && "encoding"@.len() == 8);
    assert("objectKind"@.len() == 10 && "encodingErrorPolicy"@.len() == 19);
    assert("objectKind"@[0] == 'o' && "ignoreCase"@[0] == 'i');
    assert("chars"@[0] == 'c' && "bytes"@[0] == 'b');
}

/// Each value of `alignmentUnits` means its own, whatever was stated before,
/// and changes nothing else; any other is an error.
#[verifier::spinoff_prover]
pub proof fn law_alignment_units_stated(
    p: PhysicalPropsModel,
    value: Seq<char>,
)
    ensures
        value == "bytes"@ ==> physical_attrs::physical_attr(p, "alignmentUnits"@, value) == Some(
            Ok::<PhysicalPropsModel, ErrorModel>(PhysicalPropsModel { alignment_units: Some(LengthUnits::Bytes), ..p }),
        ),
        value == "bits"@ ==> physical_attrs::physical_attr(p, "alignmentUnits"@, value) == Some(
            Ok::<PhysicalPropsModel, ErrorModel>(PhysicalPropsModel { alignment_units: Some(LengthUnits::Bits), ..p }),
        ),
        value == "characters"@ ==> physical_attrs::physical_attr(p, "alignmentUnits"@, value) == Some(
            Ok::<PhysicalPropsModel, ErrorModel>(PhysicalPropsModel { alignment_units: Some(LengthUnits::Characters), ..p }),
        ),
        value != "bytes"@ && value != "bits"@ && value != "characters"@ ==> (physical_attrs::physical_attr(
            p,
            "alignmentUnits"@,
            value,
        ) matches Some(Err(_))),
{
    reveal(physical_attrs::physical_attr);
    reveal_strlit("alignment");
    reveal_strlit("alignmentUnits");
    reveal_strlit("bitOrder");
    reveal_strlit("bits");
    reveal_strlit("byteOrder");
    reveal_strlit("bytes");
    reveal_strlit("characters");
    reveal_strlit("encoding");
    reveal_strlit("encodingErrorPolicy");
    reveal_strlit("ignoreCase");
    reveal_strlit("objectKind");
    reveal_strlit("representation");
    assert("alignmentUnits"@[0] == 'a' && "representation"@[0] == 'r');
    assert("alignmentUnits"@.len() == 14 && "byteOrder"@.len() == 9);
    assert("alignmentUnits"@.len() == 14 && "bitOrder"@.len() == 8);
    assert("alignmentUnits"@.len() == 14 && "encoding"@.len() == 8);
    assert("alignmentUnits"@.len() == 14 && "encodingErrorPolicy"@.len() == 19);
    assert("alignmentUnits"@.len() == 14 && "ignoreCase"@.len() == 10);
    assert("alignmentUnits"@.len() == 14 && "objectKind"@.len() == 10);
    assert("alignmentUnits"@.len() == 14 && "alignment"@.len() == 9);
    assert("bits"@.len() == 4 && "bytes"@.len() == 5);
    assert("characters"@.len() == 10 && "bytes"@.len() == 5);
    assert("characters"@.len() == 10 && "bits"@.len() == 4);
}

/// Each value of `truncateSpecifiedLengthString` means its own, whatever was stated before,
/// and changes nothing else; any other is an error.
#[verifier::spinoff_prover]
pub proof fn law_truncate_specified_length_string_stated(
    p: TextPropsModel,
    value: Seq<char>,
)
    ensures
        value == "yes"@ ==> text_attrs::text_attr(p, "truncateSpecifiedLengthString"@, value) == Some(
            Ok::<TextPropsModel, ErrorModel>(TextPropsModel { truncate_specified_length_string: Some(true), ..p }),
        ),
        value == "no"@ ==> text_attrs::text_attr(p, "truncateSpecifiedLengthString"@, value) == Some(
            Ok::<TextPropsModel, ErrorModel>(TextPropsModel { truncate_specified_length_string: Some(false), ..p }),
        ),
        value != "yes"@ && value != "no"@ ==> (text_attrs::text_attr(
            p,
            "truncateSpecifiedLengthString"@,
            value,
        ) matches Some(Err(_))),
{
    reveal(text_attrs::text_attr);
    reveal_strlit("no");
    reveal_strlit("truncateSpecifiedLengthString");
    reveal_strlit("yes");
    assert("no"@.len() == 2 && "yes"@.len() == 3);
}

/// Each value of `textTrimKind` means its own, whatever was stated before,
/// and changes nothing else; any other is an error.
#[verifier::spinoff_prover]
pub proof fn law_text_trim_kind_stated(
    p: TextPropsModel,
    value: Seq<char>,
)
    ensures
        value == "none"@ ==> text_attrs::text_attr(p, "textTrimKind"@, value) == Some(
            Ok::<TextPropsModel, ErrorModel>(TextPropsModel { text_trim_kind: Some(TextTrimKind::NoTrim), ..p }),
        ),
        value == "trim"@ ==> text_attrs::text_attr(p, "textTrimKind"@, value) == Some(
            Ok::<TextPropsModel, ErrorModel>(TextPropsModel { text_trim_kind: Some(TextTrimKind::Trim), ..p }),
        ),
        value == "left"@ ==> text_attrs::text_attr(p, "textTrimKind"@, value) == Some(
            Ok::<TextPropsModel, ErrorModel>(TextPropsModel { text_trim_kind: Some(TextTrimKind::Left), ..p }),
        ),
        value == "right"@ ==> text_attrs::text_attr(p, "textTrimKind"@, value) == Some(
            Ok::<TextPropsModel, ErrorModel>(TextPropsModel { text_trim_kind: Some(TextTrimKind::Right), ..p }),
        ),
        value == "padChar"@ ==> text_attrs::text_attr(p, "textTrimKind"@, value) == Some(
            Ok::<TextPropsModel, ErrorModel>(TextPropsModel { text_trim_kind: Some(TextTrimKind::PadChar), ..p }),
        ),
        value != "none"@ && value != "trim"@ && value != "left"@ && value != "right"@ && value != "padChar"@ ==> (text_attrs::text_attr(
            p,
            "textTrimKind"@,
            value,
        ) matches Some(Err(_))),
{
    reveal(text_attrs::text_attr);
    reveal_strlit("left");
    reveal_strlit("none");
    reveal_strlit("padChar");
    reveal_strlit("right");
    reveal_strlit("textTrimKind");
    reveal_strlit("trim");
    reveal_strlit("truncateSpecifiedLengthString");
    assert("textTrimKind"@.len() == 12 && "truncateSpecifiedLengthString"@.len() == 29);
    assert("trim"@[0] == 't' && "none"@[0] == 'n');
    assert("left"@[0] == 'l' && "none"@[0] == 'n');
    assert("left"@[0] == 'l' && "trim"@[0] == 't');
    assert("right"@.len() == 5 && "none"@.len() == 4);
    assert("right"@.len() == 5 && "trim"@.len() == 4);
    assert("right"@.len() == 5 && "left"@.len() == 4);
    assert("padChar"@.len() == 7 && "none"@.len() == 4);
    assert("padChar"@.len() == 7 && "trim"@.len() == 4);
    assert("padChar"@.len() == 7 && "left"@.len() == 4);
    assert("padChar"@.len() == 7 && "right"@.len() == 5);
}

/// Each value of `textCalendarJustification` means its own, whatever was stated before,
/// and changes nothing else; any other is an error.
#[verifier::spinoff_prover]
pub proof fn law_text_calendar_justification_stated(
    p: TextPropsModel,
    value: Seq<char>,
)
    ensures
        value == "left"@ ==> text_attrs::text_attr(p, "textCalendarJustification"@, value) == Some(
            Ok::<TextPropsModel, ErrorModel>(TextPropsModel { text_calendar_justification: Some(TextStringJustification::Left), ..p }),
        ),
        value == "right"@ ==> text_attrs::text_attr(p, "textCalendarJustification"@, value) == Some(
            Ok::<TextPropsModel, ErrorModel>(TextPropsModel { text_calendar_justification: Some(TextStringJustification::Right), ..p }),
        ),
        value == "center"@ ==> text_attrs::text_attr(p, "textCalendarJustification"@, value) == Some(
            Ok::<TextPropsModel, ErrorModel>(TextPropsModel { text_calendar_justification: Some(TextStringJustification::Center), ..p }),
        ),
        value != "left"@ && value != "right"@ && value != "center"@ ==> (text_attrs::text_attr(
            p,
            "textCalendarJustification"@,
            value,
        ) matches Some(Err(_))),
{
    reveal(text_attrs::text_attr);
    reveal_strlit("center");
    reveal_strlit("left");
    reveal_strlit("right");
    reveal_strlit("textCalendarJustification");
    reveal_strlit("textCalendarPadCharacter");
    reveal_strlit("textNumberPadCharacter");
    reveal_strlit("textStringPadCharacter");
    reveal_strlit("textTrimKind");
    reveal_strlit("truncateSpecifiedLengthString");
    assert("textCalendarJustification"@.len() == 25 && "truncateSpecifiedLengthString"@.len() == 29);
    assert("textCalendarJustification"@.len() == 25 && "textTrimKind"@.len() == 12);
    assert("textCalendarJustification"@.len() == 25 && "textNumberPadCharacter"@.len() == 22);
    assert("textCalendarJustification"@.len() == 25 && "textStringPadCharacter"@.len() == 22);
    assert("textCalendarJustification"@.len() == 25 && "textCalendarPadCharacter"@.len() == 24);
    assert("right"@.len() == 5 && "left"@.len() == 4);
    assert("center"@.len() == 6 && "left"@.len() == 4);
    assert("center"@.len() == 6 && "right"@.len() == 5);
}

/// Each value of `textPadKind` means its own, whatever was stated before,
/// and changes nothing else; any other is an error.
#[verifier::spinoff_prover]
pub proof fn law_text_pad_kind_stated(
    p: TextPropsModel,
    value: Seq<char>,
)
    ensures
        value == "none"@ ==> text_attrs::text_attr(p, "textPadKind"@, value) == Some(
            Ok::<TextPropsModel, ErrorModel>(TextPropsModel { text_pad_kind: Some(TextPadKind::NoPad), ..p }),
        ),
        value == "padChar"@ ==> text_attrs::text_attr(p, "textPadKind"@, value) == Some(
            Ok::<TextPropsModel, ErrorModel>(TextPropsModel { text_pad_kind: Some(TextPadKind::PadChar), ..p }),
        ),
        value != "none"@ && value != "padChar"@ ==> (text_attrs::text_attr(
            p,
            "textPadKind"@,
            value,
        ) matches Some(Err(_))),
{
    reveal(text_attrs::text_attr);
    reveal_strlit("none");
    reveal_strlit("padChar");
    reveal_strlit("textCalendarJustification");
    reveal_strlit("textCalendarPadCharacter");
    reveal_strlit("textNumberPadCharacter");
    reveal_strlit("textPadKind");
    reveal_strlit("textStringPadCharacter");
    reveal_strlit("textTrimKind");
    reveal_strlit("truncateSpecifiedLengthString");
    assert("textPadKind"@.len() == 11 && "truncateSpecifiedLengthString"@.len() == 29);
    assert("textPadKind"@.len() == 11 && "textTrimKind"@.len() == 12);
    assert("textPadKind"@.len() == 11 && "textNumberPadCharacter"@.len() == 22);
    assert("textPadKind"@.len() == 11 && "textStringPadCharacter"@.len() == 22);
    assert("textPadKind"@.len() == 11 && "textCalendarPadCharacter"@.len() == 24);
    assert("textPadKind"@.len() == 11 && "textCalendarJustification"@.len() == 25);
    assert("padChar"@.len() == 7 && "none"@.len() == 4);
}

/// Each value of `textStringJustification` means its own, whatever was stated before,
/// and changes nothing else; any other is an error.
#[verifier::spinoff_prover]
pub proof fn law_text_string_justification_stated(
    p: TextPropsModel,
    value: Seq<char>,
)
    ensures
        value == "left"@ ==> text_attrs::text_attr(p, "textStringJustification"@, value) == Some(
            Ok::<TextPropsModel, ErrorModel>(TextPropsModel { text_string_justification: Some(TextStringJustification::Left), ..p }),
        ),
        value == "right"@ ==> text_attrs::text_attr(p, "textStringJustification"@, value) == Some(
            Ok::<TextPropsModel, ErrorModel>(TextPropsModel { text_string_justification: Some(TextStringJustification::Right), ..p }),
        ),
        value == "center"@ ==> text_attrs::text_attr(p, "textStringJustification"@, value) == Some(
            Ok::<TextPropsModel, ErrorModel>(TextPropsModel { text_string_justification: Some(TextStringJustification::Center), ..p }),
        ),
        value != "left"@ && value != "right"@ && value != "center"@ ==> (text_attrs::text_attr(
            p,
            "textStringJustification"@,
            value,
        ) matches Some(Err(_))),
{
    reveal(text_attrs::text_attr);
    reveal_strlit("center");
    reveal_strlit("left");
    reveal_strlit("right");
    reveal_strlit("textCalendarJustification");
    reveal_strlit("textCalendarPadCharacter");
    reveal_strlit("textNumberPadCharacter");
    reveal_strlit("textPadKind");
    reveal_strlit("textStringJustification");
    reveal_strlit("textStringPadCharacter");
    reveal_strlit("textTrimKind");
    reveal_strlit("truncateSpecifiedLengthString");
    assert("textStringJustification"@.len() == 23 && "truncateSpecifiedLengthString"@.len() == 29);
    assert("textStringJustification"@.len() == 23 && "textTrimKind"@.len() == 12);
    assert("textStringJustification"@.len() == 23 && "textNumberPadCharacter"@.len() == 22);
    assert("textStringJustification"@.len() == 23 && "textStringPadCharacter"@.len() == 22);
    assert("textStringJustification"@.len() == 23 && "textCalendarPadCharacter"@.len() == 24);
    assert("textStringJustification"@.len() == 23 && "textCalendarJustification"@.len() == 25);
    assert("textStringJustification"@.len() == 23 && "textPadKind"@.len() == 11);
    assert("right"@.len() == 5 && "left"@.len() == 4);
    assert("center"@.len() == 6 && "left"@.len() == 4);
    assert("center"@.len() == 6 && "right"@.len() == 5);
}

/// Each value of `textNumberJustification` means its own, whatever was stated before,
/// and changes nothing else; any other is an error.
#[verifier::spinoff_prover]
pub proof fn law_text_number_justification_stated(
    p: TextPropsModel,
    value: Seq<char>,
)
    ensures
        value == "left"@ ==> text_attrs::text_attr(p, "textNumberJustification"@, value) == Some(
            Ok::<TextPropsModel, ErrorModel>(TextPropsModel { text_number_justification: Some(TextNumberJustification::Left), ..p }),
        ),
        value == "right"@ ==> text_attrs::text_attr(p, "textNumberJustification"@, value) == Some(
            Ok::<TextPropsModel, ErrorModel>(TextPropsModel { text_number_justification: Some(TextNumberJustification::Right), ..p }),
        ),
        value == "center"@ ==> text_attrs::text_attr(p, "textNumberJustification"@, value) == Some(
            Ok::<TextPropsModel, ErrorModel>(TextPropsModel { text_number_justification: Some(TextNumberJustification::Center), ..p }),
        ),
        value != "left"@ && value != "right"@ && value != "center"@ ==> (text_attrs::text_attr(
            p,
            "textNumberJustification"@,
            value,
        ) matches Some(Err(_))),
{
    reveal(text_attrs::text_attr);
    reveal_strlit("center");
    reveal_strlit("left");
    reveal_strlit("right");
    reveal_strlit("textCalendarJustification");
    reveal_strlit("textCalendarPadCharacter");
    reveal_strlit("textNumberJustification");
    reveal_strlit("textNumberPadCharacter");
    reveal_strlit("textPadKind");
    reveal_strlit("textStringJustification");
    reveal_strlit("textStringPadCharacter");
    reveal_strlit("textTrimKind");
    reveal_strlit("truncateSpecifiedLengthString");
    assert("textNumberJustification"@.len() == 23 && "truncateSpecifiedLengthString"@.len() == 29);
    assert("textNumberJustification"@.len() == 23 && "textTrimKind"@.len() == 12);
    assert("textNumberJustification"@.len() == 23 && "textNumberPadCharacter"@.len() == 22);
    assert("textNumberJustification"@.len() == 23 && "textStringPadCharacter"@.len() == 22);
    assert("textNumberJustification"@.len() == 23 && "textCalendarPadCharacter"@.len() == 24);
    assert("textNumberJustification"@.len() == 23 && "textCalendarJustification"@.len() == 25);
    assert("textNumberJustification"@.len() == 23 && "textPadKind"@.len() == 11);
    assert("textNumberJustification"@[4] == 'N' && "textStringJustification"@[4] == 'S');
    assert("right"@.len() == 5 && "left"@.len() == 4);
    assert("center"@.len() == 6 && "left"@.len() == 4);
    assert("center"@.len() == 6 && "right"@.len() == 5);
}

/// A byte order that is neither an expression nor a condition means its own; any other is an
/// error.
#[verifier::spinoff_prover]
pub proof fn law_byte_order_stated(
    p: PhysicalPropsModel,
    value: Seq<char>,
)
    requires
        crate::computed::byte_order_if(value) is None,
        crate::expr::braced(value) is None,
    ensures
        value == "bigEndian"@ ==> physical_attrs::physical_attr(p, "byteOrder"@, value) == Some(
            Ok::<PhysicalPropsModel, ErrorModel>(
                PhysicalPropsModel { byte_order: Some(ByteOrder::BigEndian), ..p },
            ),
        ),
        value == "littleEndian"@ ==> physical_attrs::physical_attr(p, "byteOrder"@, value) == Some(
            Ok::<PhysicalPropsModel, ErrorModel>(
                PhysicalPropsModel { byte_order: Some(ByteOrder::LittleEndian), ..p },
            ),
        ),
        value != "bigEndian"@ && value != "littleEndian"@ ==> (physical_attrs::physical_attr(
            p,
            "byteOrder"@,
            value,
        ) matches Some(Err(_))),
{
    reveal(physical_attrs::physical_attr);
    reveal_strlit("bigEndian");
    reveal_strlit("byteOrder");
    reveal_strlit("littleEndian");
    reveal_strlit("representation");
    assert("byteOrder"@.len() == 9 && "representation"@.len() == 14);
    assert("bigEndian"@.len() == 9 && "littleEndian"@.len() == 12);
}

} // verus!
