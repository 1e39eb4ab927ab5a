//! The schema document: declarations, types, and the DFDL properties on them.

use vstd::prelude::*;
use crate::error::{Error, ErrorModel};
use crate::strmap::StrMap;
use crate::text::eq;
use crate::values::{owned, Duplicate, Same};

verus! {

/// Whether a value is written as text or in binary.
#[derive(Debug, Clone, Copy, PartialEq, Eq, Structural)]
pub enum Representation {
    Binary,
    Text,
}

impl DeepView for Representation {
    type V = Representation;

    open spec fn deep_view(&self) -> Representation {
        *self
    }
}

impl Duplicate for Representation {
    fn copy(&self) -> (r: Self) {
        *self
    }
}

impl Same for Representation {
    fn same(&self, other: &Self) -> (r: bool) {
        *self == *other
    }
}

/// The order of the bytes of a binary number.
#[derive(Debug, Clone, Copy, PartialEq, Eq, Structural)]
pub enum ByteOrder {
    BigEndian,
    LittleEndian,
}

impl DeepView for ByteOrder {
    type V = ByteOrder;

    open spec fn deep_view(&self) -> ByteOrder {
        *self
    }
}

impl Duplicate for ByteOrder {
    fn copy(&self) -> (r: Self) {
        *self
    }
}

impl Same for ByteOrder {
    fn same(&self, other: &Self) -> (r: bool) {
        *self == *other
    }
}

/// The order of the bits in a byte.
#[derive(Debug, Clone, Copy, PartialEq, Eq, Structural)]
pub enum BitOrder {
    MostSignificantBitFirst,
    LeastSignificantBitFirst,
}

impl DeepView for BitOrder {
    type V = BitOrder;

    open spec fn deep_view(&self) -> BitOrder {
        *self
    }
}

impl Duplicate for BitOrder {
    fn copy(&self) -> (r: Self) {
        *self
    }
}

impl Same for BitOrder {
    fn same(&self, other: &Self) -> (r: bool) {
        *self == *other
    }
}

/// How the length of an element is found.
#[derive(Debug, Clone, Copy, PartialEq, Eq, Structural)]
pub enum LengthKind {
    Implicit,
    Explicit,
    Fixed,
    Delimited,
    Prefixed,
    Pattern,
    EndOfParent,
}

impl DeepView for LengthKind {
    type V = LengthKind;

    open spec fn deep_view(&self) -> LengthKind {
        *self
    }
}

impl Duplicate for LengthKind {
    fn copy(&self) -> (r: Self) {
        *self
    }
}

impl Same for LengthKind {
    fn same(&self, other: &Self) -> (r: bool) {
        *self == *other
    }
}

/// The unit of a length.
#[derive(Debug, Clone, Copy, PartialEq, Eq, Structural)]
pub enum LengthUnits {
    Bytes,
    Bits,
    Characters,
}

impl DeepView for LengthUnits {
    type V = LengthUnits;

    open spec fn deep_view(&self) -> LengthUnits {
        *self
    }
}

impl Duplicate for LengthUnits {
    fn copy(&self) -> (r: Self) {
        *self
    }
}

impl Same for LengthUnits {
    fn same(&self, other: &Self) -> (r: bool) {
        *self == *other
    }
}

/// What happens to text that cannot be decoded.
#[derive(Debug, Clone, Copy, PartialEq, Eq, Structural)]
pub enum EncodingErrorPolicy {
    Error,
    Replace,
}

impl DeepView for EncodingErrorPolicy {
    type V = EncodingErrorPolicy;

    open spec fn deep_view(&self) -> EncodingErrorPolicy {
        *self
    }
}

impl Duplicate for EncodingErrorPolicy {
    fn copy(&self) -> (r: Self) {
        *self
    }
}

impl Same for EncodingErrorPolicy {
    fn same(&self, other: &Self) -> (r: bool) {
        *self == *other
    }
}

/// How a nil value is written.
#[derive(Debug, Clone, Copy, PartialEq, Eq, Structural)]
pub enum NilKind {
    LiteralValue,
    LiteralCharacter,
}

impl DeepView for NilKind {
    type V = NilKind;

    open spec fn deep_view(&self) -> NilKind {
        *self
    }
}

impl Duplicate for NilKind {
    fn copy(&self) -> (r: Self) {
        *self
    }
}

impl Same for NilKind {
    fn same(&self, other: &Self) -> (r: bool) {
        *self == *other
    }
}

/// When separators are left out.
#[derive(Debug, Clone, Copy, PartialEq, Eq, Structural)]
pub enum SeparatorSuppressionPolicy {
    AnyEmpty,
    TrailingEmpty,
    TrailingEmptyStrict,
    Never,
}

impl DeepView for SeparatorSuppressionPolicy {
    type V = SeparatorSuppressionPolicy;

    open spec fn deep_view(&self) -> SeparatorSuppressionPolicy {
        *self
    }
}

impl Duplicate for SeparatorSuppressionPolicy {
    fn copy(&self) -> (r: Self) {
        *self
    }
}

impl Same for SeparatorSuppressionPolicy {
    fn same(&self, other: &Self) -> (r: bool) {
        *self == *other
    }
}

/// What an empty element is taken for.
#[derive(Debug, Clone, Copy, PartialEq, Eq, Structural)]
pub enum EmptyElementParsePolicy {
    TreatAsEmpty,
    TreatAsAbsent,
}

impl DeepView for EmptyElementParsePolicy {
    type V = EmptyElementParsePolicy;

    open spec fn deep_view(&self) -> EmptyElementParsePolicy {
        *self
    }
}

impl Duplicate for EmptyElementParsePolicy {
    fn copy(&self) -> (r: Self) {
        *self
    }
}

impl Same for EmptyElementParsePolicy {
    fn same(&self, other: &Self) -> (r: bool) {
        *self == *other
    }
}

/// How the number of occurrences is found.
#[derive(Debug, Clone, Copy, PartialEq, Eq, Structural)]
pub enum OccursCountKind {
    Parsed,
    Implicit,
    Fixed,
    Expression,
}

impl DeepView for OccursCountKind {
    type V = OccursCountKind;

    open spec fn deep_view(&self) -> OccursCountKind {
        *self
    }
}

impl Duplicate for OccursCountKind {
    fn copy(&self) -> (r: Self) {
        *self
    }
}

impl Same for OccursCountKind {
    fn same(&self, other: &Self) -> (r: bool) {
        *self == *other
    }
}

/// How text is trimmed.
#[derive(Debug, Clone, Copy, PartialEq, Eq, Structural)]
pub enum TextTrimKind {
    NoTrim,
    Trim,
    Left,
    Right,
    PadChar,
}

impl DeepView for TextTrimKind {
    type V = TextTrimKind;

    open spec fn deep_view(&self) -> TextTrimKind {
        *self
    }
}

impl Duplicate for TextTrimKind {
    fn copy(&self) -> (r: Self) {
        *self
    }
}

impl Same for TextTrimKind {
    fn same(&self, other: &Self) -> (r: bool) {
        *self == *other
    }
}

/// How text is padded.
#[derive(Debug, Clone, Copy, PartialEq, Eq, Structural)]
pub enum TextPadKind {
    NoPad,
    PadChar,
}

impl DeepView for TextPadKind {
    type V = TextPadKind;

    open spec fn deep_view(&self) -> TextPadKind {
        *self
    }
}

impl Duplicate for TextPadKind {
    fn copy(&self) -> (r: Self) {
        *self
    }
}

impl Same for TextPadKind {
    fn same(&self, other: &Self) -> (r: bool) {
        *self == *other
    }
}

/// On which side a string is padded.
#[derive(Debug, Clone, Copy, PartialEq, Eq, Structural)]
pub enum TextStringJustification {
    Left,
    Right,
    Center,
}

impl DeepView for TextStringJustification {
    type V = TextStringJustification;

    open spec fn deep_view(&self) -> TextStringJustification {
        *self
    }
}

impl Duplicate for TextStringJustification {
    fn copy(&self) -> (r: Self) {
        *self
    }
}

impl Same for TextStringJustification {
    fn same(&self, other: &Self) -> (r: bool) {
        *self == *other
    }
}

/// On which side a number is padded.
#[derive(Debug, Clone, Copy, PartialEq, Eq, Structural)]
pub enum TextNumberJustification {
    Left,
    Right,
    Center,
}

impl DeepView for TextNumberJustification {
    type V = TextNumberJustification;

    open spec fn deep_view(&self) -> TextNumberJustification {
        *self
    }
}

impl Duplicate for TextNumberJustification {
    fn copy(&self) -> (r: Self) {
        *self
    }
}

impl Same for TextNumberJustification {
    fn same(&self, other: &Self) -> (r: bool) {
        *self == *other
    }
}

/// For which direction a schema may be used.
#[derive(Debug, Clone, Copy, PartialEq, Eq, Structural)]
pub enum ParseUnparsePolicy {
    Both,
    ParseOnly,
    UnparseOnly,
}

impl DeepView for ParseUnparsePolicy {
    type V = ParseUnparsePolicy;

    open spec fn deep_view(&self) -> ParseUnparsePolicy {
        *self
    }
}

impl Duplicate for ParseUnparsePolicy {
    fn copy(&self) -> (r: Self) {
        *self
    }
}

impl Same for ParseUnparsePolicy {
    fn same(&self, other: &Self) -> (r: bool) {
        *self == *other
    }
}

/// How strictly a number is checked.
#[derive(Debug, Clone, Copy, PartialEq, Eq, Structural)]
pub enum BinaryNumberCheckPolicy {
    Strict,
    Lax,
}

impl DeepView for BinaryNumberCheckPolicy {
    type V = BinaryNumberCheckPolicy;

    open spec fn deep_view(&self) -> BinaryNumberCheckPolicy {
        *self
    }
}

impl Duplicate for BinaryNumberCheckPolicy {
    fn copy(&self) -> (r: Self) {
        *self
    }
}

impl Same for BinaryNumberCheckPolicy {
    fn same(&self, other: &Self) -> (r: bool) {
        *self == *other
    }
}

/// How a binary number or calendar is written.
#[derive(Debug, Clone, Copy, PartialEq, Eq, Structural)]
pub enum BinaryNumberRep {
    Binary,
    Bcd,
    PackedBcd,
    Ibm4690Packed,
    BinarySeconds,
    BinaryMilliseconds,
}

impl DeepView for BinaryNumberRep {
    type V = BinaryNumberRep;

    open spec fn deep_view(&self) -> BinaryNumberRep {
        *self
    }
}

impl Duplicate for BinaryNumberRep {
    fn copy(&self) -> (r: Self) {
        *self
    }
}

impl Same for BinaryNumberRep {
    fn same(&self, other: &Self) -> (r: bool) {
        *self == *other
    }
}

/// How a binary floating-point number is written.
#[derive(Debug, Clone, Copy, PartialEq, Eq, Structural)]
pub enum BinaryFloatRep {
    Ieee,
}

impl DeepView for BinaryFloatRep {
    type V = BinaryFloatRep;

    open spec fn deep_view(&self) -> BinaryFloatRep {
        *self
    }
}

impl Duplicate for BinaryFloatRep {
    fn copy(&self) -> (r: Self) {
        *self
    }
}

impl Same for BinaryFloatRep {
    fn same(&self, other: &Self) -> (r: bool) {
        *self == *other
    }
}

/// Where the pattern of a calendar comes from.
#[derive(Debug, Clone, Copy, PartialEq, Eq, Structural)]
pub enum CalendarPatternKind {
    Explicit,
    Implicit,
}

impl DeepView for CalendarPatternKind {
    type V = CalendarPatternKind;

    open spec fn deep_view(&self) -> CalendarPatternKind {
        *self
    }
}

impl Duplicate for CalendarPatternKind {
    fn copy(&self) -> (r: Self) {
        *self
    }
}

impl Same for CalendarPatternKind {
    fn same(&self, other: &Self) -> (r: bool) {
        *self == *other
    }
}

/// How a text number is written.
#[derive(Debug, Clone, Copy, PartialEq, Eq, Structural)]
pub enum TextNumberRep {
    Standard,
    Zoned,
}

impl DeepView for TextNumberRep {
    type V = TextNumberRep;

    open spec fn deep_view(&self) -> TextNumberRep {
        *self
    }
}

impl Duplicate for TextNumberRep {
    fn copy(&self) -> (r: Self) {
        *self
    }
}

impl Same for TextNumberRep {
    fn same(&self, other: &Self) -> (r: bool) {
        *self == *other
    }
}

/// How the sign of a zoned number is written.
#[derive(Debug, Clone, Copy, PartialEq, Eq, Structural)]
pub enum TextZonedSignStyle {
    AsciiStandard,
    AsciiTranslatedEBCDIC,
    AsciiCARealiaModified,
    AsciiTandemModified,
}

impl DeepView for TextZonedSignStyle {
    type V = TextZonedSignStyle;

    open spec fn deep_view(&self) -> TextZonedSignStyle {
        *self
    }
}

impl Duplicate for TextZonedSignStyle {
    fn copy(&self) -> (r: Self) {
        *self
    }
}

impl Same for TextZonedSignStyle {
    fn same(&self, other: &Self) -> (r: bool) {
        *self == *other
    }
}

/// Where the rounding of a text number comes from.
#[derive(Debug, Clone, Copy, PartialEq, Eq, Structural)]
pub enum TextNumberRounding {
    Pattern,
    Explicit,
}

impl DeepView for TextNumberRounding {
    type V = TextNumberRounding;

    open spec fn deep_view(&self) -> TextNumberRounding {
        *self
    }
}

impl Duplicate for TextNumberRounding {
    fn copy(&self) -> (r: Self) {
        *self
    }
}

impl Same for TextNumberRounding {
    fn same(&self, other: &Self) -> (r: bool) {
        *self == *other
    }
}

/// How a text number is rounded.
#[derive(Debug, Clone, Copy, PartialEq, Eq, Structural)]
pub enum TextNumberRoundingMode {
    RoundCeiling,
    RoundFloor,
    RoundDown,
    RoundUp,
    RoundHalfEven,
    RoundHalfDown,
    RoundHalfUp,
    RoundUnnecessary,
}

impl DeepView for TextNumberRoundingMode {
    type V = TextNumberRoundingMode;

    open spec fn deep_view(&self) -> TextNumberRoundingMode {
        *self
    }
}

impl Duplicate for TextNumberRoundingMode {
    fn copy(&self) -> (r: Self) {
        *self
    }
}

impl Same for TextNumberRoundingMode {
    fn same(&self, other: &Self) -> (r: bool) {
        *self == *other
    }
}

/// Where separators stand.
#[derive(Debug, Clone, Copy, PartialEq, Eq, Structural)]
pub enum SeparatorPosition {
    Infix,
    Prefix,
    Postfix,
}

impl DeepView for SeparatorPosition {
    type V = SeparatorPosition;

    open spec fn deep_view(&self) -> SeparatorPosition {
        *self
    }
}

impl Duplicate for SeparatorPosition {
    fn copy(&self) -> (r: Self) {
        *self
    }
}

impl Same for SeparatorPosition {
    fn same(&self, other: &Self) -> (r: bool) {
        *self == *other
    }
}

/// Whether the members of a sequence come in order.
#[derive(Debug, Clone, Copy, PartialEq, Eq, Structural)]
pub enum SequenceKind {
    Ordered,
    Unordered,
}

impl DeepView for SequenceKind {
    type V = SequenceKind;

    open spec fn deep_view(&self) -> SequenceKind {
        *self
    }
}

impl Duplicate for SequenceKind {
    fn copy(&self) -> (r: Self) {
        *self
    }
}

impl Same for SequenceKind {
    fn same(&self, other: &Self) -> (r: bool) {
        *self == *other
    }
}

/// How the length of a choice is found.
#[derive(Debug, Clone, Copy, PartialEq, Eq, Structural)]
pub enum ChoiceLengthKind {
    Implicit,
    Explicit,
}

impl DeepView for ChoiceLengthKind {
    type V = ChoiceLengthKind;

    open spec fn deep_view(&self) -> ChoiceLengthKind {
        *self
    }
}

impl Duplicate for ChoiceLengthKind {
    fn copy(&self) -> (r: Self) {
        *self
    }
}

impl Same for ChoiceLengthKind {
    fn same(&self, other: &Self) -> (r: bool) {
        *self == *other
    }
}

/// What a large object holds.
#[derive(Debug, Clone, Copy, PartialEq, Eq, Structural)]
pub enum ObjectKind {
    Bytes,
    Chars,
}

impl DeepView for ObjectKind {
    type V = ObjectKind;

    open spec fn deep_view(&self) -> ObjectKind {
        *self
    }
}

impl Duplicate for ObjectKind {
    fn copy(&self) -> (r: Self) {
        *self
    }
}

impl Same for ObjectKind {
    fn same(&self, other: &Self) -> (r: bool) {
        *self == *other
    }
}

/// How text is escaped.
#[derive(Debug, Clone, Copy, PartialEq, Eq, Structural)]
pub enum EscapeKind {
    EscapeCharacter,
    EscapeBlock,
}

impl DeepView for EscapeKind {
    type V = EscapeKind;

    open spec fn deep_view(&self) -> EscapeKind {
        *self
    }
}

impl Duplicate for EscapeKind {
    fn copy(&self) -> (r: Self) {
        *self
    }
}

impl Same for EscapeKind {
    fn same(&self, other: &Self) -> (r: bool) {
        *self == *other
    }
}

/// The target of a cast in an expression.
#[derive(Debug, Clone, Copy, PartialEq, Eq, Structural)]
pub enum IvcXsCast {
    Byte,
    Short,
    Int,
    Long,
    UnsignedByte,
    UnsignedShort,
    UnsignedInt,
    UnsignedLong,
    Float,
    Double,
    String,
    HexBinary,
}

impl DeepView for IvcXsCast {
    type V = IvcXsCast;

    open spec fn deep_view(&self) -> IvcXsCast {
        *self
    }
}

impl Duplicate for IvcXsCast {
    fn copy(&self) -> (r: Self) {
        *self
    }
}

impl Same for IvcXsCast {
    fn same(&self, other: &Self) -> (r: bool) {
        *self == *other
    }
}

/// How the value of an element is computed on parsing.
#[derive(Debug, Clone, Copy, PartialEq, Eq, Structural)]
pub enum InputValueCalc {
    Constant(i64),
    ConstantLexical,
    StringLiteral,
    SchemaVariable,
    HexBinaryFromSibling,
    ContentLengthSelf(LengthUnits),
    ValueLengthSelf(LengthUnits),
    ContentLengthSibling(LengthUnits),
    ValueLengthSibling(LengthUnits),
    BooleanFromSibling,
}

impl DeepView for InputValueCalc {
    type V = InputValueCalc;

    open spec fn deep_view(&self) -> InputValueCalc {
        *self
    }
}

impl Duplicate for InputValueCalc {
    fn copy(&self) -> (r: Self) {
        *self
    }
}

impl Same for InputValueCalc {
    fn same(&self, other: &Self) -> (r: bool) {
        *self == *other
    }
}

/// How the value of an element is computed on unparsing.
#[derive(Debug, Clone, Copy, PartialEq, Eq, Structural)]
pub enum OutputValueCalc {
    Constant(i64),
    ContentLengthSelf(LengthUnits,i64),
    ValueLengthSelf(LengthUnits,i64),
    ContentLengthSibling(LengthUnits,i64),
    ValueLengthSibling(LengthUnits,i64),
    StringLengthSibling,
    Substring{start:usize,length:usize},
    HexBinaryFromLexical,
    HexBinaryFromInteger(i64),
    HexBinaryFromShort(i16),
    HexBinaryFromByteSibling,
    OccursIndexPath{multiply:bool},
    RepeatIndicatorFromParentCount,
    FnError,
    FnConcat,
    ValueLengthInfosetPath(LengthUnits,i64),
    FnCountPath,
    InfosetPathAddend,
}

impl DeepView for OutputValueCalc {
    type V = OutputValueCalc;

    open spec fn deep_view(&self) -> OutputValueCalc {
        *self
    }
}

impl Duplicate for OutputValueCalc {
    fn copy(&self) -> (r: Self) {
        *self
    }
}

impl Same for OutputValueCalc {
    fn same(&self, other: &Self) -> (r: bool) {
        *self == *other
    }
}

/// A simple type of XML Schema.
#[derive(Debug, Clone, Copy, PartialEq, Eq, Structural)]
pub enum BuiltinType {
    String,
    Boolean,
    Decimal,
    Float,
    Double,
    Integer,
    Long,
    Int,
    Short,
    Byte,
    NonNegativeInteger,
    UnsignedLong,
    UnsignedInt,
    UnsignedShort,
    UnsignedByte,
    Date,
    Time,
    DateTime,
    HexBinary,
    AnyUri,
}

impl DeepView for BuiltinType {
    type V = BuiltinType;

    open spec fn deep_view(&self) -> BuiltinType {
        *self
    }
}

impl Duplicate for BuiltinType {
    fn copy(&self) -> (r: Self) {
        *self
    }
}

impl Same for BuiltinType {
    fn same(&self, other: &Self) -> (r: bool) {
        *self == *other
    }
}

/// One step of a path through the infoset.
#[derive(Debug)]
pub struct PathStep {
    pub prefix: Option<String>,
    pub local: String,
    pub index: Option<u32>,
    pub index_from_occurs: bool,
}

/// What a [`PathStep`] holds, its text as character sequences.
#[verifier::ext_equal]
pub struct PathStepModel {
    pub prefix: Option<Seq<char>>,
    pub local: Seq<char>,
    pub index: Option<u32>,
    pub index_from_occurs: bool,
}

impl DeepView for PathStep {
    type V = PathStepModel;

    open spec fn deep_view(&self) -> PathStepModel {
        PathStepModel {
            prefix: self.prefix.deep_view(),
            local: self.local.deep_view(),
            index: self.index,
            index_from_occurs: self.index_from_occurs,
        }
    }
}

impl View for PathStep {
    type V = PathStepModel;

    open spec fn view(&self) -> PathStepModel {
        self.deep_view()
    }
}

impl Duplicate for PathStep {
    fn copy(&self) -> (r: Self) {
        PathStep {
            prefix: self.prefix.copy(),
            local: self.local.copy(),
            index: self.index,
            index_from_occurs: self.index_from_occurs,
        }
    }
}

impl Same for PathStep {
    fn same(&self, other: &Self) -> (r: bool) {
        self.prefix.same(&other.prefix)
            && self.local.same(&other.local)
            && self.index.same(&other.index)
            && self.index_from_occurs.same(&other.index_from_occurs)
    }
}

/// One piece of a concatenation.
#[derive(Debug)]
pub enum InputValueCalcSegment {
    Literal(String),
    Sibling(String),
    InfosetPath(Vec<PathStep>),
    Substring { sibling: String, start: usize, length: usize },
    ValueLength { sibling: String, units: LengthUnits },
}

/// What an [`InputValueCalcSegment`] holds, its text as character sequences.
#[verifier::ext_equal]
pub enum InputValueCalcSegmentModel {
    Literal(Seq<char>),
    Sibling(Seq<char>),
    InfosetPath(Seq<PathStepModel>),
    Substring { sibling: Seq<char>, start: usize, length: usize },
    ValueLength { sibling: Seq<char>, units: LengthUnits },
}

impl DeepView for InputValueCalcSegment {
    type V = InputValueCalcSegmentModel;

    open spec fn deep_view(&self) -> InputValueCalcSegmentModel {
        match self {
            InputValueCalcSegment::Literal(t) => InputValueCalcSegmentModel::Literal(t@),
            InputValueCalcSegment::Sibling(t) => InputValueCalcSegmentModel::Sibling(t@),
            InputValueCalcSegment::InfosetPath(p) => InputValueCalcSegmentModel::InfosetPath(
                p.deep_view(),
            ),
            InputValueCalcSegment::Substring {
                sibling,
                start,
                length,
            } => InputValueCalcSegmentModel::Substring {
                sibling: sibling@,
                start: *start,
                length: *length,
            },
            InputValueCalcSegment::ValueLength {
                sibling,
                units,
            } => InputValueCalcSegmentModel::ValueLength { sibling: sibling@, units: *units },
        }
    }
}

impl Duplicate for InputValueCalcSegment {
    fn copy(&self) -> (r: Self) {
        match self {
            InputValueCalcSegment::Literal(t) => InputValueCalcSegment::Literal(t.copy()),
            InputValueCalcSegment::Sibling(t) => InputValueCalcSegment::Sibling(t.copy()),
            InputValueCalcSegment::InfosetPath(p) => InputValueCalcSegment::InfosetPath(p.copy()),
            InputValueCalcSegment::Substring {
                sibling,
                start,
                length,
            } => InputValueCalcSegment::Substring {
                sibling: sibling.copy(),
                start: *start,
                length: *length,
            },
            InputValueCalcSegment::ValueLength {
                sibling,
                units,
            } => InputValueCalcSegment::ValueLength { sibling: sibling.copy(), units: *units },
        }
    }
}

impl Same for InputValueCalcSegment {
    fn same(&self, other: &Self) -> (r: bool) {
        match (self, other) {
            (InputValueCalcSegment::Literal(a), InputValueCalcSegment::Literal(b)) => a.same(b),
            (InputValueCalcSegment::Sibling(a), InputValueCalcSegment::Sibling(b)) => a.same(b),
            (
                InputValueCalcSegment::InfosetPath(a),
                InputValueCalcSegment::InfosetPath(b),
            ) => a.same(b),
            (
                InputValueCalcSegment::Substring { sibling: a, start: s, length: n },
                InputValueCalcSegment::Substring { sibling: b, start: t, length: m },
            ) => a.same(b) && *s == *t && *n == *m,
            (
                InputValueCalcSegment::ValueLength { sibling: a, units: u },
                InputValueCalcSegment::ValueLength { sibling: b, units: v },
            ) => a.same(b) && *u == *v,
            _ => false,
        }
    }
}

/// An arithmetic expression over the infoset.
#[derive(Debug)]
pub enum InputValueCalcExpression {
    Literal(i64),
    LiteralLexical(String),
    Variable(String),
    Path { parent_root: bool, steps: Vec<PathStep> },
    Cast { kind: IvcXsCast, inner: Box<InputValueCalcExpression> },
    Ceiling(Box<InputValueCalcExpression>),
    StringOf(Box<InputValueCalcExpression>),
    Add(Vec<InputValueCalcExpression>),
    Sub(Vec<InputValueCalcExpression>),
    Mul(Vec<InputValueCalcExpression>),
    Div(Box<InputValueCalcExpression>, Box<InputValueCalcExpression>),
}

/// What an [`InputValueCalcExpression`] holds, its text as character sequences.
#[verifier::ext_equal]
pub enum InputValueCalcExpressionModel {
    Literal(i64),
    LiteralLexical(Seq<char>),
    Variable(Seq<char>),
    Path { parent_root: bool, steps: Seq<PathStepModel> },
    Cast { kind: IvcXsCast, inner: Box<InputValueCalcExpressionModel> },
    Ceiling(Box<InputValueCalcExpressionModel>),
    StringOf(Box<InputValueCalcExpressionModel>),
    Add(Seq<InputValueCalcExpressionModel>),
    Sub(Seq<InputValueCalcExpressionModel>),
    Mul(Seq<InputValueCalcExpressionModel>),
    Div(Box<InputValueCalcExpressionModel>, Box<InputValueCalcExpressionModel>),
}

/// What each expression of a list holds.
pub open spec fn expression_models(v: Vec<InputValueCalcExpression>) -> Seq<
    InputValueCalcExpressionModel,
>
    decreases v,
{
    Seq::new(
        v@.len(),
        |i: int|
            if 0 <= i < v@.len() {
                v@[i].model()
            } else {
                arbitrary()
            },
    )
}

impl InputValueCalcExpression {
    /// What the expression holds.
    pub open spec fn model(self) -> InputValueCalcExpressionModel
        decreases self,
    {
        match self {
            InputValueCalcExpression::Literal(n) => InputValueCalcExpressionModel::Literal(n),
            InputValueCalcExpression::LiteralLexical(
                t,
            ) => InputValueCalcExpressionModel::LiteralLexical(t@),
            InputValueCalcExpression::Variable(t) => InputValueCalcExpressionModel::Variable(t@),
            InputValueCalcExpression::Path {
                parent_root,
                steps,
            } => InputValueCalcExpressionModel::Path { parent_root, steps: steps.deep_view() },
            InputValueCalcExpression::Cast { kind, inner } => InputValueCalcExpressionModel::Cast {
                kind,
                inner: Box::new(inner.model()),
            },
            InputValueCalcExpression::Ceiling(e) => InputValueCalcExpressionModel::Ceiling(
                Box::new(e.model()),
            ),
            InputValueCalcExpression::StringOf(e) => InputValueCalcExpressionModel::StringOf(
                Box::new(e.model()),
            ),
            InputValueCalcExpression::Add(v) => InputValueCalcExpressionModel::Add(
                expression_models(v),
            ),
            InputValueCalcExpression::Sub(v) => InputValueCalcExpressionModel::Sub(
                expression_models(v),
            ),
            InputValueCalcExpression::Mul(v) => InputValueCalcExpressionModel::Mul(
                expression_models(v),
            ),
            InputValueCalcExpression::Div(a, b) => InputValueCalcExpressionModel::Div(
                Box::new(a.model()),
                Box::new(b.model()),
            ),
        }
    }

    fn copy_all(v: &Vec<InputValueCalcExpression>) -> (r: Vec<InputValueCalcExpression>)
        ensures
            expression_models(r) == expression_models(*v),
        decreases v,
    {
        let mut out: Vec<InputValueCalcExpression> = Vec::new();
        let mut i: usize = 0;
        while i < v.len()
            invariant
                i <= v@.len(),
                out@.len() == i,
                forall|k: int| 0 <= k < i ==> (#[trigger] out@[k]).model() == v@[k].model(),
            decreases v@.len() - i,
        {
            out.push(Self::copy_one(&v[i]));
            i += 1;
        }
        assert(expression_models(out) =~= expression_models(*v));
        out
    }

    fn copy_one(e: &InputValueCalcExpression) -> (r: InputValueCalcExpression)
        ensures
            r.model() == e.model(),
        decreases e,
    {
        match e {
            InputValueCalcExpression::Literal(n) => InputValueCalcExpression::Literal(*n),
            InputValueCalcExpression::LiteralLexical(
                t,
            ) => InputValueCalcExpression::LiteralLexical(t.copy()),
            InputValueCalcExpression::Variable(t) => InputValueCalcExpression::Variable(t.copy()),
            InputValueCalcExpression::Path { parent_root, steps } => InputValueCalcExpression::Path {
                parent_root: *parent_root,
                steps: steps.copy(),
            },
            InputValueCalcExpression::Cast { kind, inner } => InputValueCalcExpression::Cast {
                kind: *kind,
                inner: Box::new(Self::copy_one(inner)),
            },
            InputValueCalcExpression::Ceiling(e) => InputValueCalcExpression::Ceiling(
                Box::new(Self::copy_one(e)),
            ),
            InputValueCalcExpression::StringOf(e) => InputValueCalcExpression::StringOf(
                Box::new(Self::copy_one(e)),
            ),
            InputValueCalcExpression::Add(v) => InputValueCalcExpression::Add(Self::copy_all(v)),
            InputValueCalcExpression::Sub(v) => InputValueCalcExpression::Sub(Self::copy_all(v)),
            InputValueCalcExpression::Mul(v) => InputValueCalcExpression::Mul(Self::copy_all(v)),
            InputValueCalcExpression::Div(a, b) => InputValueCalcExpression::Div(
                Box::new(Self::copy_one(a)),
                Box::new(Self::copy_one(b)),
            ),
        }
    }

    fn same_all(
        v: &Vec<InputValueCalcExpression>,
        w: &Vec<InputValueCalcExpression>,
    ) -> (r: bool)
        ensures
            r == (expression_models(*v) == expression_models(*w)),
        decreases v,
    {
        if v.len() != w.len() {
            assert(expression_models(*v).len() != expression_models(*w).len());
            return false;
        }
        let mut i: usize = 0;
        while i < v.len()
            invariant
                i <= v@.len(),
                v@.len() == w@.len(),
                forall|k: int| 0 <= k < i ==> (#[trigger] v@[k]).model() == w@[k].model(),
            decreases v@.len() - i,
        {
            if !Self::same_one(&v[i], &w[i]) {
                assert(expression_models(*v)[i as int] != expression_models(*w)[i as int]);
                return false;
            }
            i += 1;
        }
        assert(expression_models(*v) =~= expression_models(*w));
        true
    }

    fn same_one(e: &InputValueCalcExpression, f: &InputValueCalcExpression) -> (r: bool)
        ensures
            r == (e.model() == f.model()),
        decreases e,
    {
        match (e, f) {
            (InputValueCalcExpression::Literal(a), InputValueCalcExpression::Literal(b)) => *a
                == *b,
            (
                InputValueCalcExpression::LiteralLexical(a),
                InputValueCalcExpression::LiteralLexical(b),
            ) => a.same(b),
            (InputValueCalcExpression::Variable(a), InputValueCalcExpression::Variable(b)) => a.same(
                b,
            ),
            (
                InputValueCalcExpression::Path { parent_root: p, steps: a },
                InputValueCalcExpression::Path { parent_root: q, steps: b },
            ) => *p == *q && a.same(b),
            (
                InputValueCalcExpression::Cast { kind: k, inner: a },
                InputValueCalcExpression::Cast { kind: l, inner: b },
            ) => *k == *l && Self::same_one(a, b),
            (InputValueCalcExpression::Ceiling(a), InputValueCalcExpression::Ceiling(b)) => {
                Self::same_one(a, b)
            },
            (InputValueCalcExpression::StringOf(a), InputValueCalcExpression::StringOf(b)) => {
                Self::same_one(a, b)
            },
            (InputValueCalcExpression::Add(a), InputValueCalcExpression::Add(b)) => {
                Self::same_all(a, b)
            },
            (InputValueCalcExpression::Sub(a), InputValueCalcExpression::Sub(b)) => {
                Self::same_all(a, b)
            },
            (InputValueCalcExpression::Mul(a), InputValueCalcExpression::Mul(b)) => {
                Self::same_all(a, b)
            },
            (InputValueCalcExpression::Div(a, c), InputValueCalcExpression::Div(b, d)) => {
                Self::same_one(a, b) && Self::same_one(c, d)
            },
            _ => false,
        }
    }
}

impl DeepView for InputValueCalcExpression {
    type V = InputValueCalcExpressionModel;

    open spec fn deep_view(&self) -> InputValueCalcExpressionModel {
        self.model()
    }
}

impl Duplicate for InputValueCalcExpression {
    fn copy(&self) -> (r: Self) {
        Self::copy_one(self)
    }
}

impl Same for InputValueCalcExpression {
    fn same(&self, other: &Self) -> (r: bool) {
        Self::same_one(self, other)
    }
}

/// The name of a type.
#[derive(Debug)]
pub struct TypeName(pub String);

impl DeepView for TypeName {
    type V = Seq<char>;

    open spec fn deep_view(&self) -> Seq<char> {
        self.0@
    }
}

impl View for TypeName {
    type V = Seq<char>;

    open spec fn view(&self) -> Seq<char> {
        self.0@
    }
}

impl Duplicate for TypeName {
    fn copy(&self) -> (r: Self) {
        TypeName(self.0.copy())
    }
}

impl Same for TypeName {
    fn same(&self, other: &Self) -> (r: bool) {
        self.0.same(&other.0)
    }
}

impl TypeName {
    /// The type name that reads as `name`.
    pub fn new(name: &str) -> (r: Self)
        ensures
            r@ == name@,
    {
        TypeName(owned(name))
    }

    /// The name as a string.
    pub fn as_str(&self) -> (r: &str)
        ensures
            r@ == self@,
    {
        self.0.as_str()
    }
}

/// How a value is laid out: representation, order, encoding, alignment.
#[derive(Debug)]
pub struct PhysicalProps {
    pub representation: Option<Representation>,
    pub byte_order: Option<ByteOrder>,
    pub byte_order_conditional_test: Option<String>,
    pub byte_order_if_true: Option<ByteOrder>,
    pub byte_order_if_false: Option<ByteOrder>,
    pub bit_order: Option<BitOrder>,
    pub encoding: Option<String>,
    pub encoding_error_policy: Option<EncodingErrorPolicy>,
    pub encoding_error_policy_defined: bool,
    pub fill_byte: Option<Vec<u8>>,
    pub fill_byte_raw: Option<String>,
    pub ignore_case: Option<bool>,
    pub object_kind: Option<ObjectKind>,
    pub alignment: Option<u64>,
    pub alignment_implicit: Option<bool>,
    pub alignment_units: Option<LengthUnits>,
    pub leading_skip: Option<u64>,
    pub trailing_skip: Option<u64>,
}

/// What a [`PhysicalProps`] holds, its text as character sequences.
#[verifier::ext_equal]
pub struct PhysicalPropsModel {
    pub representation: Option<Representation>,
    pub byte_order: Option<ByteOrder>,
    pub byte_order_conditional_test: Option<Seq<char>>,
    pub byte_order_if_true: Option<ByteOrder>,
    pub byte_order_if_false: Option<ByteOrder>,
    pub bit_order: Option<BitOrder>,
    pub encoding: Option<Seq<char>>,
    pub encoding_error_policy: Option<EncodingErrorPolicy>,
    pub encoding_error_policy_defined: bool,
    pub fill_byte: Option<Seq<u8>>,
    pub fill_byte_raw: Option<Seq<char>>,
    pub ignore_case: Option<bool>,
    pub object_kind: Option<ObjectKind>,
    pub alignment: Option<u64>,
    pub alignment_implicit: Option<bool>,
    pub alignment_units: Option<LengthUnits>,
    pub leading_skip: Option<u64>,
    pub trailing_skip: Option<u64>,
}

/// What the properties hold, their text as character sequences.
#[verifier::opaque]
pub open spec fn physical_props_model(p: PhysicalProps) -> PhysicalPropsModel {
    PhysicalPropsModel {
        representation: p.representation,
        byte_order: p.byte_order,
        byte_order_conditional_test: p.byte_order_conditional_test.deep_view(),
        byte_order_if_true: p.byte_order_if_true,
        byte_order_if_false: p.byte_order_if_false,
        bit_order: p.bit_order,
        encoding: p.encoding.deep_view(),
        encoding_error_policy: p.encoding_error_policy,
        encoding_error_policy_defined: p.encoding_error_policy_defined,
        fill_byte: p.fill_byte.deep_view(),
        fill_byte_raw: p.fill_byte_raw.deep_view(),
        ignore_case: p.ignore_case,
        object_kind: p.object_kind,
        alignment: p.alignment,
        alignment_implicit: p.alignment_implicit,
        alignment_units: p.alignment_units,
        leading_skip: p.leading_skip,
        trailing_skip: p.trailing_skip,
    }
}

impl DeepView for PhysicalProps {
    type V = PhysicalPropsModel;

    open spec fn deep_view(&self) -> PhysicalPropsModel {
        physical_props_model(*self)
    }
}

impl View for PhysicalProps {
    type V = PhysicalPropsModel;

    open spec fn view(&self) -> PhysicalPropsModel {
        self.deep_view()
    }
}

impl Duplicate for PhysicalProps {
    fn copy(&self) -> (r: Self) {
        reveal(physical_props_model);
        PhysicalProps {
            representation: self.representation,
            byte_order: self.byte_order,
            byte_order_conditional_test: self.byte_order_conditional_test.copy(),
            byte_order_if_true: self.byte_order_if_true,
            byte_order_if_false: self.byte_order_if_false,
            bit_order: self.bit_order,
            encoding: self.encoding.copy(),
            encoding_error_policy: self.encoding_error_policy,
            encoding_error_policy_defined: self.encoding_error_policy_defined,
            fill_byte: self.fill_byte.copy(),
            fill_byte_raw: self.fill_byte_raw.copy(),
            ignore_case: self.ignore_case,
            object_kind: self.object_kind,
            alignment: self.alignment,
            alignment_implicit: self.alignment_implicit,
            alignment_units: self.alignment_units,
            leading_skip: self.leading_skip,
            trailing_skip: self.trailing_skip,
        }
    }
}

impl Same for PhysicalProps {
    fn same(&self, other: &Self) -> (r: bool) {
        reveal(physical_props_model);
        self.representation.same(&other.representation)
            && self.byte_order.same(&other.byte_order)
            && self.byte_order_conditional_test.same(&other.byte_order_conditional_test)
            && self.byte_order_if_true.same(&other.byte_order_if_true)
            && self.byte_order_if_false.same(&other.byte_order_if_false)
            && self.bit_order.same(&other.bit_order)
            && self.encoding.same(&other.encoding)
            && self.encoding_error_policy.same(&other.encoding_error_policy)
            && self.encoding_error_policy_defined.same(&other.encoding_error_policy_defined)
            && self.fill_byte.same(&other.fill_byte)
            && self.fill_byte_raw.same(&other.fill_byte_raw)
            && self.ignore_case.same(&other.ignore_case)
            && self.object_kind.same(&other.object_kind)
            && self.alignment.same(&other.alignment)
            && self.alignment_implicit.same(&other.alignment_implicit)
            && self.alignment_units.same(&other.alignment_units)
            && self.leading_skip.same(&other.leading_skip)
            && self.trailing_skip.same(&other.trailing_skip)
    }
}

/// No property of this group.
pub open spec fn no_physical_props() -> PhysicalPropsModel {
    PhysicalPropsModel {
        representation: None,
        byte_order: None,
        byte_order_conditional_test: None,
        byte_order_if_true: None,
        byte_order_if_false: None,
        bit_order: None,
        encoding: None,
        encoding_error_policy: None,
        encoding_error_policy_defined: false,
        fill_byte: None,
        fill_byte_raw: None,
        ignore_case: None,
        object_kind: None,
        alignment: None,
        alignment_implicit: None,
        alignment_units: None,
        leading_skip: None,
        trailing_skip: None,
    }
}

impl Default for PhysicalProps {
    fn default() -> (r: Self)
        ensures
            r@ == no_physical_props(),
    {
        reveal(physical_props_model);
        let r = PhysicalProps {
            representation: None,
            byte_order: None,
            byte_order_conditional_test: None,
            byte_order_if_true: None,
            byte_order_if_false: None,
            bit_order: None,
            encoding: None,
            encoding_error_policy: None,
            encoding_error_policy_defined: false,
            fill_byte: None,
            fill_byte_raw: None,
            ignore_case: None,
            object_kind: None,
            alignment: None,
            alignment_implicit: None,
            alignment_units: None,
            leading_skip: None,
            trailing_skip: None,
        };
        assert(r@ =~= no_physical_props());
        r
    }
}

/// How long a value is.
#[derive(Debug)]
pub struct LengthProps {
    pub length_kind: Option<LengthKind>,
    pub length_kind_defined: bool,
    pub length: Option<u64>,
    pub length_sibling: Option<String>,
    pub length_sibling_cast_long: bool,
    pub length_sibling_adjust: i64,
    pub length_expr_unparsed: bool,
    pub length_self_string_max_cap: Option<u64>,
    pub length_self_value_length: bool,
    pub length_units: Option<LengthUnits>,
    pub length_pattern: Option<String>,
    pub prefix_length_type: Option<TypeName>,
    pub prefix_includes_prefix_length: Option<bool>,
}

/// What a [`LengthProps`] holds, its text as character sequences.
#[verifier::ext_equal]
pub struct LengthPropsModel {
    pub length_kind: Option<LengthKind>,
    pub length_kind_defined: bool,
    pub length: Option<u64>,
    pub length_sibling: Option<Seq<char>>,
    pub length_sibling_cast_long: bool,
    pub length_sibling_adjust: i64,
    pub length_expr_unparsed: bool,
    pub length_self_string_max_cap: Option<u64>,
    pub length_self_value_length: bool,
    pub length_units: Option<LengthUnits>,
    pub length_pattern: Option<Seq<char>>,
    pub prefix_length_type: Option<Seq<char>>,
    pub prefix_includes_prefix_length: Option<bool>,
}

/// What the properties hold, their text as character sequences.
#[verifier::opaque]
pub open spec fn length_props_model(p: LengthProps) -> LengthPropsModel {
    LengthPropsModel {
        length_kind: p.length_kind,
        length_kind_defined: p.length_kind_defined,
        length: p.length,
        length_sibling: p.length_sibling.deep_view(),
        length_sibling_cast_long: p.length_sibling_cast_long,
        length_sibling_adjust: p.length_sibling_adjust,
        length_expr_unparsed: p.length_expr_unparsed,
        length_self_string_max_cap: p.length_self_string_max_cap,
        length_self_value_length: p.length_self_value_length,
        length_units: p.length_units,
        length_pattern: p.length_pattern.deep_view(),
        prefix_length_type: p.prefix_length_type.deep_view(),
        prefix_includes_prefix_length: p.prefix_includes_prefix_length,
    }
}

impl DeepView for LengthProps {
    type V = LengthPropsModel;

    open spec fn deep_view(&self) -> LengthPropsModel {
        length_props_model(*self)
    }
}

impl View for LengthProps {
    type V = LengthPropsModel;

    open spec fn view(&self) -> LengthPropsModel {
        self.deep_view()
    }
}

impl Duplicate for LengthProps {
    fn copy(&self) -> (r: Self) {
        reveal(length_props_model);
        LengthProps {
            length_kind: self.length_kind,
            length_kind_defined: self.length_kind_defined,
            length: self.length,
            length_sibling: self.length_sibling.copy(),
            length_sibling_cast_long: self.length_sibling_cast_long,
            length_sibling_adjust: self.length_sibling_adjust,
            length_expr_unparsed: self.length_expr_unparsed,
            length_self_string_max_cap: self.length_self_string_max_cap,
            length_self_value_length: self.length_self_value_length,
            length_units: self.length_units,
            length_pattern: self.length_pattern.copy(),
            prefix_length_type: self.prefix_length_type.copy(),
            prefix_includes_prefix_length: self.prefix_includes_prefix_length,
        }
    }
}

impl Same for LengthProps {
    fn same(&self, other: &Self) -> (r: bool) {
        reveal(length_props_model);
        self.length_kind.same(&other.length_kind)
            && self.length_kind_defined.same(&other.length_kind_defined)
            && self.length.same(&other.length)
            && self.length_sibling.same(&other.length_sibling)
            && self.length_sibling_cast_long.same(&other.length_sibling_cast_long)
            && self.length_sibling_adjust.same(&other.length_sibling_adjust)
            && self.length_expr_unparsed.same(&other.length_expr_unparsed)
            && self.length_self_string_max_cap.same(&other.length_self_string_max_cap)
            && self.length_self_value_length.same(&other.length_self_value_length)
            && self.length_units.same(&other.length_units)
            && self.length_pattern.same(&other.length_pattern)
            && self.prefix_length_type.same(&other.prefix_length_type)
            && self.prefix_includes_prefix_length.same(&other.prefix_includes_prefix_length)
    }
}

/// No property of this group.
pub open spec fn no_length_props() -> LengthPropsModel {
    LengthPropsModel {
        length_kind: None,
        length_kind_defined: false,
        length: None,
        length_sibling: None,
        length_sibling_cast_long: false,
        length_sibling_adjust: 0,
        length_expr_unparsed: false,
        length_self_string_max_cap: None,
        length_self_value_length: false,
        length_units: None,
        length_pattern: None,
        prefix_length_type: None,
        prefix_includes_prefix_length: None,
    }
}

impl Default for LengthProps {
    fn default() -> (r: Self)
        ensures
            r@ == no_length_props(),
    {
        reveal(length_props_model);
        let r = LengthProps {
            length_kind: None,
            length_kind_defined: false,
            length: None,
            length_sibling: None,
            length_sibling_cast_long: false,
            length_sibling_adjust: 0,
            length_expr_unparsed: false,
            length_self_string_max_cap: None,
            length_self_value_length: false,
            length_units: None,
            length_pattern: None,
            prefix_length_type: None,
            prefix_includes_prefix_length: None,
        };
        assert(r@ =~= no_length_props());
        r
    }
}

/// How text is padded, trimmed and escaped.
#[derive(Debug)]
pub struct TextProps {
    pub text_trim_kind: Option<TextTrimKind>,
    pub text_pad_kind: Option<TextPadKind>,
    pub truncate_specified_length_string: Option<bool>,
    pub text_number_pad_character: Option<String>,
    pub text_number_pad_character_property_form: bool,
    pub text_string_pad_character: Option<String>,
    pub text_string_pad_character_property_form: bool,
    pub text_calendar_pad_character: Option<String>,
    pub text_calendar_justification: Option<TextStringJustification>,
    pub text_string_justification: Option<TextStringJustification>,
    pub text_number_justification: Option<TextNumberJustification>,
    pub text_boolean_true_rep: Option<String>,
    pub text_boolean_true_rep_defined: bool,
    pub text_boolean_false_rep: Option<String>,
    pub text_boolean_false_rep_defined: bool,
    pub text_boolean_pad_character: Option<String>,
    pub text_bidi: Option<bool>,
    pub output_new_line: Option<String>,
    pub output_new_line_sibling: Option<String>,
    pub escape_scheme_ref: Option<String>,
}

/// What a [`TextProps`] holds, its text as character sequences.
#[verifier::ext_equal]
pub struct TextPropsModel {
    pub text_trim_kind: Option<TextTrimKind>,
    pub text_pad_kind: Option<TextPadKind>,
    pub truncate_specified_length_string: Option<bool>,
    pub text_number_pad_character: Option<Seq<char>>,
    pub text_number_pad_character_property_form: bool,
    pub text_string_pad_character: Option<Seq<char>>,
    pub text_string_pad_character_property_form: bool,
    pub text_calendar_pad_character: Option<Seq<char>>,
    pub text_calendar_justification: Option<TextStringJustification>,
    pub text_string_justification: Option<TextStringJustification>,
    pub text_number_justification: Option<TextNumberJustification>,
    pub text_boolean_true_rep: Option<Seq<char>>,
    pub text_boolean_true_rep_defined: bool,
    pub text_boolean_false_rep: Option<Seq<char>>,
    pub text_boolean_false_rep_defined: bool,
    pub text_boolean_pad_character: Option<Seq<char>>,
    pub text_bidi: Option<bool>,
    pub output_new_line: Option<Seq<char>>,
    pub output_new_line_sibling: Option<Seq<char>>,
    pub escape_scheme_ref: Option<Seq<char>>,
}

/// What the properties hold, their text as character sequences.
#[verifier::opaque]
pub open spec fn text_props_model(p: TextProps) -> TextPropsModel {
    TextPropsModel {
        text_trim_kind: p.text_trim_kind,
        text_pad_kind: p.text_pad_kind,
        truncate_specified_length_string: p.truncate_specified_length_string,
        text_number_pad_character: p.text_number_pad_character.deep_view(),
        text_number_pad_character_property_form: p.text_number_pad_character_property_form,
        text_string_pad_character: p.text_string_pad_character.deep_view(),
        text_string_pad_character_property_form: p.text_string_pad_character_property_form,
        text_calendar_pad_character: p.text_calendar_pad_character.deep_view(),
        text_calendar_justification: p.text_calendar_justification,
        text_string_justification: p.text_string_justification,
        text_number_justification: p.text_number_justification,
        text_boolean_true_rep: p.text_boolean_true_rep.deep_view(),
        text_boolean_true_rep_defined: p.text_boolean_true_rep_defined,
        text_boolean_false_rep: p.text_boolean_false_rep.deep_view(),
        text_boolean_false_rep_defined: p.text_boolean_false_rep_defined,
        text_boolean_pad_character: p.text_boolean_pad_character.deep_view(),
        text_bidi: p.text_bidi,
        output_new_line: p.output_new_line.deep_view(),
        output_new_line_sibling: p.output_new_line_sibling.deep_view(),
        escape_scheme_ref: p.escape_scheme_ref.deep_view(),
    }
}

impl DeepView for TextProps {
    type V = TextPropsModel;

    open spec fn deep_view(&self) -> TextPropsModel {
        text_props_model(*self)
    }
}

impl View for TextProps {
    type V = TextPropsModel;

    open spec fn view(&self) -> TextPropsModel {
        self.deep_view()
    }
}

impl Duplicate for TextProps {
    fn copy(&self) -> (r: Self) {
        reveal(text_props_model);
        TextProps {
            text_trim_kind: self.text_trim_kind,
            text_pad_kind: self.text_pad_kind,
            truncate_specified_length_string: self.truncate_specified_length_string,
            text_number_pad_character: self.text_number_pad_character.copy(),
            text_number_pad_character_property_form: self.text_number_pad_character_property_form,
            text_string_pad_character: self.text_string_pad_character.copy(),
            text_string_pad_character_property_form: self.text_string_pad_character_property_form,
            text_calendar_pad_character: self.text_calendar_pad_character.copy(),
            text_calendar_justification: self.text_calendar_justification,
            text_string_justification: self.text_string_justification,
            text_number_justification: self.text_number_justification,
            text_boolean_true_rep: self.text_boolean_true_rep.copy(),
            text_boolean_true_rep_defined: self.text_boolean_true_rep_defined,
            text_boolean_false_rep: self.text_boolean_false_rep.copy(),
            text_boolean_false_rep_defined: self.text_boolean_false_rep_defined,
            text_boolean_pad_character: self.text_boolean_pad_character.copy(),
            text_bidi: self.text_bidi,
            output_new_line: self.output_new_line.copy(),
            output_new_line_sibling: self.output_new_line_sibling.copy(),
            escape_scheme_ref: self.escape_scheme_ref.copy(),
        }
    }
}

impl Same for TextProps {
    fn same(&self, other: &Self) -> (r: bool) {
        reveal(text_props_model);
        self.text_trim_kind.same(&other.text_trim_kind)
            && self.text_pad_kind.same(&other.text_pad_kind)
            && self.truncate_specified_length_string.same(&other.truncate_specified_length_string)
            && self.text_number_pad_character.same(&other.text_number_pad_character)
            && self.text_number_pad_character_property_form.same(&other.text_number_pad_character_property_form)
            && self.text_string_pad_character.same(&other.text_string_pad_character)
            && self.text_string_pad_character_property_form.same(&other.text_string_pad_character_property_form)
            && self.text_calendar_pad_character.same(&other.text_calendar_pad_character)
            && self.text_calendar_justification.same(&other.text_calendar_justification)
            && self.text_string_justification.same(&other.text_string_justification)
            && self.text_number_justification.same(&other.text_number_justification)
            && self.text_boolean_true_rep.same(&other.text_boolean_true_rep)
            && self.text_boolean_true_rep_defined.same(&other.text_boolean_true_rep_defined)
            && self.text_boolean_false_rep.same(&other.text_boolean_false_rep)
            && self.text_boolean_false_rep_defined.same(&other.text_boolean_false_rep_defined)
            && self.text_boolean_pad_character.same(&other.text_boolean_pad_character)
            && self.text_bidi.same(&other.text_bidi)
            && self.output_new_line.same(&other.output_new_line)
            && self.output_new_line_sibling.same(&other.output_new_line_sibling)
            && self.escape_scheme_ref.same(&other.escape_scheme_ref)
    }
}

/// No property of this group.
pub open spec fn no_text_props() -> TextPropsModel {
    TextPropsModel {
        text_trim_kind: None,
        text_pad_kind: None,
        truncate_specified_length_string: None,
        text_number_pad_character: None,
        text_number_pad_character_property_form: false,
        text_string_pad_character: None,
        text_string_pad_character_property_form: false,
        text_calendar_pad_character: None,
        text_calendar_justification: None,
        text_string_justification: None,
        text_number_justification: None,
        text_boolean_true_rep: None,
        text_boolean_true_rep_defined: false,
        text_boolean_false_rep: None,
        text_boolean_false_rep_defined: false,
        text_boolean_pad_character: None,
        text_bidi: None,
        output_new_line: None,
        output_new_line_sibling: None,
        escape_scheme_ref: None,
    }
}

impl Default for TextProps {
    fn default() -> (r: Self)
        ensures
            r@ == no_text_props(),
    {
        reveal(text_props_model);
        let r = TextProps {
            text_trim_kind: None,
            text_pad_kind: None,
            truncate_specified_length_string: None,
            text_number_pad_character: None,
            text_number_pad_character_property_form: false,
            text_string_pad_character: None,
            text_string_pad_character_property_form: false,
            text_calendar_pad_character: None,
            text_calendar_justification: None,
            text_string_justification: None,
            text_number_justification: None,
            text_boolean_true_rep: None,
            text_boolean_true_rep_defined: false,
            text_boolean_false_rep: None,
            text_boolean_false_rep_defined: false,
            text_boolean_pad_character: None,
            text_bidi: None,
            output_new_line: None,
            output_new_line_sibling: None,
            escape_scheme_ref: None,
        };
        assert(r@ =~= no_text_props());
        r
    }
}

/// How a number is written as text.
#[derive(Debug)]
pub struct NumberProps {
    pub text_number_pattern: Option<String>,
    pub text_number_check_policy: Option<BinaryNumberCheckPolicy>,
    pub text_number_rep: Option<TextNumberRep>,
    pub text_zoned_sign_style: Option<TextZonedSignStyle>,
    pub text_standard_decimal_separator: Option<String>,
    pub text_standard_decimal_separator_sibling: Option<String>,
    pub text_standard_grouping_separator: Option<String>,
    pub text_standard_grouping_separator_sibling: Option<String>,
    pub text_standard_exponent_rep: Option<String>,
    pub text_standard_exponent_rep_sibling: Option<String>,
    pub text_standard_infinity_rep: Option<String>,
    pub text_standard_nan_rep: Option<String>,
    pub text_standard_zero_rep: Option<String>,
    pub text_number_rounding: Option<TextNumberRounding>,
    pub text_number_rounding_increment: Option<String>,
    pub text_number_rounding_mode: Option<TextNumberRoundingMode>,
    pub text_standard_base: Option<u32>,
}

/// What a [`NumberProps`] holds, its text as character sequences.
#[verifier::ext_equal]
pub struct NumberPropsModel {
    pub text_number_pattern: Option<Seq<char>>,
    pub text_number_check_policy: Option<BinaryNumberCheckPolicy>,
    pub text_number_rep: Option<TextNumberRep>,
    pub text_zoned_sign_style: Option<TextZonedSignStyle>,
    pub text_standard_decimal_separator: Option<Seq<char>>,
    pub text_standard_decimal_separator_sibling: Option<Seq<char>>,
    pub text_standard_grouping_separator: Option<Seq<char>>,
    pub text_standard_grouping_separator_sibling: Option<Seq<char>>,
    pub text_standard_exponent_rep: Option<Seq<char>>,
    pub text_standard_exponent_rep_sibling: Option<Seq<char>>,
    pub text_standard_infinity_rep: Option<Seq<char>>,
    pub text_standard_nan_rep: Option<Seq<char>>,
    pub text_standard_zero_rep: Option<Seq<char>>,
    pub text_number_rounding: Option<TextNumberRounding>,
    pub text_number_rounding_increment: Option<Seq<char>>,
    pub text_number_rounding_mode: Option<TextNumberRoundingMode>,
    pub text_standard_base: Option<u32>,
}

/// What the properties hold, their text as character sequences.
#[verifier::opaque]
pub open spec fn number_props_model(p: NumberProps) -> NumberPropsModel {
    NumberPropsModel {
        text_number_pattern: p.text_number_pattern.deep_view(),
        text_number_check_policy: p.text_number_check_policy,
        text_number_rep: p.text_number_rep,
        text_zoned_sign_style: p.text_zoned_sign_style,
        text_standard_decimal_separator: p.text_standard_decimal_separator.deep_view(),
        text_standard_decimal_separator_sibling: p.text_standard_decimal_separator_sibling.deep_view(),
        text_standard_grouping_separator: p.text_standard_grouping_separator.deep_view(),
        text_standard_grouping_separator_sibling: p.text_standard_grouping_separator_sibling.deep_view(),
        text_standard_exponent_rep: p.text_standard_exponent_rep.deep_view(),
        text_standard_exponent_rep_sibling: p.text_standard_exponent_rep_sibling.deep_view(),
        text_standard_infinity_rep: p.text_standard_infinity_rep.deep_view(),
        text_standard_nan_rep: p.text_standard_nan_rep.deep_view(),
        text_standard_zero_rep: p.text_standard_zero_rep.deep_view(),
        text_number_rounding: p.text_number_rounding,
        text_number_rounding_increment: p.text_number_rounding_increment.deep_view(),
        text_number_rounding_mode: p.text_number_rounding_mode,
        text_standard_base: p.text_standard_base,
    }
}

impl DeepView for NumberProps {
    type V = NumberPropsModel;

    open spec fn deep_view(&self) -> NumberPropsModel {
        number_props_model(*self)
    }
}

impl View for NumberProps {
    type V = NumberPropsModel;

    open spec fn view(&self) -> NumberPropsModel {
        self.deep_view()
    }
}

impl Duplicate for NumberProps {
    fn copy(&self) -> (r: Self) {
        reveal(number_props_model);
        NumberProps {
            text_number_pattern: self.text_number_pattern.copy(),
            text_number_check_policy: self.text_number_check_policy,
            text_number_rep: self.text_number_rep,
            text_zoned_sign_style: self.text_zoned_sign_style,
            text_standard_decimal_separator: self.text_standard_decimal_separator.copy(),
            text_standard_decimal_separator_sibling: self.text_standard_decimal_separator_sibling.copy(),
            text_standard_grouping_separator: self.text_standard_grouping_separator.copy(),
            text_standard_grouping_separator_sibling: self.text_standard_grouping_separator_sibling.copy(),
            text_standard_exponent_rep: self.text_standard_exponent_rep.copy(),
            text_standard_exponent_rep_sibling: self.text_standard_exponent_rep_sibling.copy(),
            text_standard_infinity_rep: self.text_standard_infinity_rep.copy(),
            text_standard_nan_rep: self.text_standard_nan_rep.copy(),
            text_standard_zero_rep: self.text_standard_zero_rep.copy(),
            text_number_rounding: self.text_number_rounding,
            text_number_rounding_increment: self.text_number_rounding_increment.copy(),
            text_number_rounding_mode: self.text_number_rounding_mode,
            text_standard_base: self.text_standard_base,
        }
    }
}

impl Same for NumberProps {
    fn same(&self, other: &Self) -> (r: bool) {
        reveal(number_props_model);
        self.text_number_pattern.same(&other.text_number_pattern)
            && self.text_number_check_policy.same(&other.text_number_check_policy)
            && self.text_number_rep.same(&other.text_number_rep)
            && self.text_zoned_sign_style.same(&other.text_zoned_sign_style)
            && self.text_standard_decimal_separator.same(&other.text_standard_decimal_separator)
            && self.text_standard_decimal_separator_sibling.same(&other.text_standard_decimal_separator_sibling)
            && self.text_standard_grouping_separator.same(&other.text_standard_grouping_separator)
            && self.text_standard_grouping_separator_sibling.same(&other.text_standard_grouping_separator_sibling)
            && self.text_standard_exponent_rep.same(&other.text_standard_exponent_rep)
            && self.text_standard_exponent_rep_sibling.same(&other.text_standard_exponent_rep_sibling)
            && self.text_standard_infinity_rep.same(&other.text_standard_infinity_rep)
            && self.text_standard_nan_rep.same(&other.text_standard_nan_rep)
            && self.text_standard_zero_rep.same(&other.text_standard_zero_rep)
            && self.text_number_rounding.same(&other.text_number_rounding)
            && self.text_number_rounding_increment.same(&other.text_number_rounding_increment)
            && self.text_number_rounding_mode.same(&other.text_number_rounding_mode)
            && self.text_standard_base.same(&other.text_standard_base)
    }
}

/// No property of this group.
pub open spec fn no_number_props() -> NumberPropsModel {
    NumberPropsModel {
        text_number_pattern: None,
        text_number_check_policy: None,
        text_number_rep: None,
        text_zoned_sign_style: None,
        text_standard_decimal_separator: None,
        text_standard_decimal_separator_sibling: None,
        text_standard_grouping_separator: None,
        text_standard_grouping_separator_sibling: None,
        text_standard_exponent_rep: None,
        text_standard_exponent_rep_sibling: None,
        text_standard_infinity_rep: None,
        text_standard_nan_rep: None,
        text_standard_zero_rep: None,
        text_number_rounding: None,
        text_number_rounding_increment: None,
        text_number_rounding_mode: None,
        text_standard_base: None,
    }
}

impl Default for NumberProps {
    fn default() -> (r: Self)
        ensures
            r@ == no_number_props(),
    {
        reveal(number_props_model);
        let r = NumberProps {
            text_number_pattern: None,
            text_number_check_policy: None,
            text_number_rep: None,
            text_zoned_sign_style: None,
            text_standard_decimal_separator: None,
            text_standard_decimal_separator_sibling: None,
            text_standard_grouping_separator: None,
            text_standard_grouping_separator_sibling: None,
            text_standard_exponent_rep: None,
            text_standard_exponent_rep_sibling: None,
            text_standard_infinity_rep: None,
            text_standard_nan_rep: None,
            text_standard_zero_rep: None,
            text_number_rounding: None,
            text_number_rounding_increment: None,
            text_number_rounding_mode: None,
            text_standard_base: None,
        };
        assert(r@ =~= no_number_props());
        r
    }
}

/// How a number is written in binary.
#[derive(Debug)]
pub struct BinaryProps {
    pub binary_number_rep: Option<BinaryNumberRep>,
    pub binary_packed_sign_codes: Option<String>,
    pub binary_packed_sign_codes_defined: bool,
    pub binary_number_check_policy: Option<BinaryNumberCheckPolicy>,
    pub binary_calendar_rep: Option<BinaryNumberRep>,
    pub binary_calendar_epoch: Option<String>,
    pub binary_float_rep: Option<BinaryFloatRep>,
    pub binary_decimal_virtual_point: Option<u32>,
    pub binary_decimal_virtual_point_sde: Option<i32>,
    pub decimal_signed: Option<bool>,
    pub binary_boolean_true_rep: Option<u64>,
    pub binary_boolean_true_rep_defined: bool,
    pub binary_boolean_false_rep: Option<u64>,
    pub binary_boolean_false_rep_defined: bool,
}

/// What a [`BinaryProps`] holds, its text as character sequences.
#[verifier::ext_equal]
pub struct BinaryPropsModel {
    pub binary_number_rep: Option<BinaryNumberRep>,
    pub binary_packed_sign_codes: Option<Seq<char>>,
    pub binary_packed_sign_codes_defined: bool,
    pub binary_number_check_policy: Option<BinaryNumberCheckPolicy>,
    pub binary_calendar_rep: Option<BinaryNumberRep>,
    pub binary_calendar_epoch: Option<Seq<char>>,
    pub binary_float_rep: Option<BinaryFloatRep>,
    pub binary_decimal_virtual_point: Option<u32>,
    pub binary_decimal_virtual_point_sde: Option<i32>,
    pub decimal_signed: Option<bool>,
    pub binary_boolean_true_rep: Option<u64>,
    pub binary_boolean_true_rep_defined: bool,
    pub binary_boolean_false_rep: Option<u64>,
    pub binary_boolean_false_rep_defined: bool,
}

/// What the properties hold, their text as character sequences.
#[verifier::opaque]
pub open spec fn binary_props_model(p: BinaryProps) -> BinaryPropsModel {
    BinaryPropsModel {
        binary_number_rep: p.binary_number_rep,
        binary_packed_sign_codes: p.binary_packed_sign_codes.deep_view(),
        binary_packed_sign_codes_defined: p.binary_packed_sign_codes_defined,
        binary_number_check_policy: p.binary_number_check_policy,
        binary_calendar_rep: p.binary_calendar_rep,
        binary_calendar_epoch: p.binary_calendar_epoch.deep_view(),
        binary_float_rep: p.binary_float_rep,
        binary_decimal_virtual_point: p.binary_decimal_virtual_point,
        binary_decimal_virtual_point_sde: p.binary_decimal_virtual_point_sde,
        decimal_signed: p.decimal_signed,
        binary_boolean_true_rep: p.binary_boolean_true_rep,
        binary_boolean_true_rep_defined: p.binary_boolean_true_rep_defined,
        binary_boolean_false_rep: p.binary_boolean_false_rep,
        binary_boolean_false_rep_defined: p.binary_boolean_false_rep_defined,
    }
}

impl DeepView for BinaryProps {
    type V = BinaryPropsModel;

    open spec fn deep_view(&self) -> BinaryPropsModel {
        binary_props_model(*self)
    }
}

impl View for BinaryProps {
    type V = BinaryPropsModel;

    open spec fn view(&self) -> BinaryPropsModel {
        self.deep_view()
    }
}

impl Duplicate for BinaryProps {
    fn copy(&self) -> (r: Self) {
        reveal(binary_props_model);
        BinaryProps {
            binary_number_rep: self.binary_number_rep,
            binary_packed_sign_codes: self.binary_packed_sign_codes.copy(),
            binary_packed_sign_codes_defined: self.binary_packed_sign_codes_defined,
            binary_number_check_policy: self.binary_number_check_policy,
            binary_calendar_rep: self.binary_calendar_rep,
            binary_calendar_epoch: self.binary_calendar_epoch.copy(),
            binary_float_rep: self.binary_float_rep,
            binary_decimal_virtual_point: self.binary_decimal_virtual_point,
            binary_decimal_virtual_point_sde: self.binary_decimal_virtual_point_sde,
            decimal_signed: self.decimal_signed,
            binary_boolean_true_rep: self.binary_boolean_true_rep,
            binary_boolean_true_rep_defined: self.binary_boolean_true_rep_defined,
            binary_boolean_false_rep: self.binary_boolean_false_rep,
            binary_boolean_false_rep_defined: self.binary_boolean_false_rep_defined,
        }
    }
}

impl Same for BinaryProps {
    fn same(&self, other: &Self) -> (r: bool) {
        reveal(binary_props_model);
        self.binary_number_rep.same(&other.binary_number_rep)
            && self.binary_packed_sign_codes.same(&other.binary_packed_sign_codes)
            && self.binary_packed_sign_codes_defined.same(&other.binary_packed_sign_codes_defined)
            && self.binary_number_check_policy.same(&other.binary_number_check_policy)
            && self.binary_calendar_rep.same(&other.binary_calendar_rep)
            && self.binary_calendar_epoch.same(&other.binary_calendar_epoch)
            && self.binary_float_rep.same(&other.binary_float_rep)
            && self.binary_decimal_virtual_point.same(&other.binary_decimal_virtual_point)
            && self.binary_decimal_virtual_point_sde.same(&other.binary_decimal_virtual_point_sde)
            && self.decimal_signed.same(&other.decimal_signed)
            && self.binary_boolean_true_rep.same(&other.binary_boolean_true_rep)
            && self.binary_boolean_true_rep_defined.same(&other.binary_boolean_true_rep_defined)
            && self.binary_boolean_false_rep.same(&other.binary_boolean_false_rep)
            && self.binary_boolean_false_rep_defined.same(&other.binary_boolean_false_rep_defined)
    }
}

/// No property of this group.
pub open spec fn no_binary_props() -> BinaryPropsModel {
    BinaryPropsModel {
        binary_number_rep: None,
        binary_packed_sign_codes: None,
        binary_packed_sign_codes_defined: false,
        binary_number_check_policy: None,
        binary_calendar_rep: None,
        binary_calendar_epoch: None,
        binary_float_rep: None,
        binary_decimal_virtual_point: None,
        binary_decimal_virtual_point_sde: None,
        decimal_signed: None,
        binary_boolean_true_rep: None,
        binary_boolean_true_rep_defined: false,
        binary_boolean_false_rep: None,
        binary_boolean_false_rep_defined: false,
    }
}

impl Default for BinaryProps {
    fn default() -> (r: Self)
        ensures
            r@ == no_binary_props(),
    {
        reveal(binary_props_model);
        let r = BinaryProps {
            binary_number_rep: None,
            binary_packed_sign_codes: None,
            binary_packed_sign_codes_defined: false,
            binary_number_check_policy: None,
            binary_calendar_rep: None,
            binary_calendar_epoch: None,
            binary_float_rep: None,
            binary_decimal_virtual_point: None,
            binary_decimal_virtual_point_sde: None,
            decimal_signed: None,
            binary_boolean_true_rep: None,
            binary_boolean_true_rep_defined: false,
            binary_boolean_false_rep: None,
            binary_boolean_false_rep_defined: false,
        };
        assert(r@ =~= no_binary_props());
        r
    }
}

/// How dates and times are written.
#[derive(Debug)]
pub struct CalendarProps {
    pub calendar_pattern: Option<String>,
    pub calendar_pattern_kind: Option<CalendarPatternKind>,
    pub calendar_check_policy_lax: Option<bool>,
    pub calendar_century_start: Option<u32>,
    pub calendar_language: Option<String>,
    pub calendar_language_segments: Option<Vec<InputValueCalcSegment>>,
    pub calendar_days_in_first_week: Option<u32>,
    pub calendar_first_day_of_week: Option<String>,
    pub calendar_time_zone: Option<String>,
    pub calendar_time_zone_defined: bool,
}

/// What a [`CalendarProps`] holds, its text as character sequences.
#[verifier::ext_equal]
pub struct CalendarPropsModel {
    pub calendar_pattern: Option<Seq<char>>,
    pub calendar_pattern_kind: Option<CalendarPatternKind>,
    pub calendar_check_policy_lax: Option<bool>,
    pub calendar_century_start: Option<u32>,
    pub calendar_language: Option<Seq<char>>,
    pub calendar_language_segments: Option<Seq<InputValueCalcSegmentModel>>,
    pub calendar_days_in_first_week: Option<u32>,
    pub calendar_first_day_of_week: Option<Seq<char>>,
    pub calendar_time_zone: Option<Seq<char>>,
    pub calendar_time_zone_defined: bool,
}

/// What the properties hold, their text as character sequences.
#[verifier::opaque]
pub open spec fn calendar_props_model(p: CalendarProps) -> CalendarPropsModel {
    CalendarPropsModel {
        calendar_pattern: p.calendar_pattern.deep_view(),
        calendar_pattern_kind: p.calendar_pattern_kind,
        calendar_check_policy_lax: p.calendar_check_policy_lax,
        calendar_century_start: p.calendar_century_start,
        calendar_language: p.calendar_language.deep_view(),
        calendar_language_segments: p.calendar_language_segments.deep_view(),
        calendar_days_in_first_week: p.calendar_days_in_first_week,
        calendar_first_day_of_week: p.calendar_first_day_of_week.deep_view(),
        calendar_time_zone: p.calendar_time_zone.deep_view(),
        calendar_time_zone_defined: p.calendar_time_zone_defined,
    }
}

impl DeepView for CalendarProps {
    type V = CalendarPropsModel;

    open spec fn deep_view(&self) -> CalendarPropsModel {
        calendar_props_model(*self)
    }
}

impl View for CalendarProps {
    type V = CalendarPropsModel;

    open spec fn view(&self) -> CalendarPropsModel {
        self.deep_view()
    }
}

impl Duplicate for CalendarProps {
    fn copy(&self) -> (r: Self) {
        reveal(calendar_props_model);
        CalendarProps {
            calendar_pattern: self.calendar_pattern.copy(),
            calendar_pattern_kind: self.calendar_pattern_kind,
            calendar_check_policy_lax: self.calendar_check_policy_lax,
            calendar_century_start: self.calendar_century_start,
            calendar_language: self.calendar_language.copy(),
            calendar_language_segments: self.calendar_language_segments.copy(),
            calendar_days_in_first_week: self.calendar_days_in_first_week,
            calendar_first_day_of_week: self.calendar_first_day_of_week.copy(),
            calendar_time_zone: self.calendar_time_zone.copy(),
            calendar_time_zone_defined: self.calendar_time_zone_defined,
        }
    }
}

impl Same for CalendarProps {
    fn same(&self, other: &Self) -> (r: bool) {
        reveal(calendar_props_model);
        self.calendar_pattern.same(&other.calendar_pattern)
            && self.calendar_pattern_kind.same(&other.calendar_pattern_kind)
            && self.calendar_check_policy_lax.same(&other.calendar_check_policy_lax)
            && self.calendar_century_start.same(&other.calendar_century_start)
            && self.calendar_language.same(&other.calendar_language)
            && self.calendar_language_segments.same(&other.calendar_language_segments)
            && self.calendar_days_in_first_week.same(&other.calendar_days_in_first_week)
            && self.calendar_first_day_of_week.same(&other.calendar_first_day_of_week)
            && self.calendar_time_zone.same(&other.calendar_time_zone)
            && self.calendar_time_zone_defined.same(&other.calendar_time_zone_defined)
    }
}

/// No property of this group.
pub open spec fn no_calendar_props() -> CalendarPropsModel {
    CalendarPropsModel {
        calendar_pattern: None,
        calendar_pattern_kind: None,
        calendar_check_policy_lax: None,
        calendar_century_start: None,
        calendar_language: None,
        calendar_language_segments: None,
        calendar_days_in_first_week: None,
        calendar_first_day_of_week: None,
        calendar_time_zone: None,
        calendar_time_zone_defined: false,
    }
}

impl Default for CalendarProps {
    fn default() -> (r: Self)
        ensures
            r@ == no_calendar_props(),
    {
        reveal(calendar_props_model);
        let r = CalendarProps {
            calendar_pattern: None,
            calendar_pattern_kind: None,
            calendar_check_policy_lax: None,
            calendar_century_start: None,
            calendar_language: None,
            calendar_language_segments: None,
            calendar_days_in_first_week: None,
            calendar_first_day_of_week: None,
            calendar_time_zone: None,
            calendar_time_zone_defined: false,
        };
        assert(r@ =~= no_calendar_props());
        r
    }
}

/// The markup around values and between them.
#[derive(Debug)]
pub struct DelimiterProps {
    pub initiator: Option<String>,
    pub raw_initiator: Option<String>,
    pub initiator_percent_escaped: bool,
    pub terminator: Option<String>,
    pub raw_terminator: Option<String>,
    pub separator: Option<String>,
    pub raw_separator: Option<String>,
    pub separator_position: Option<SeparatorPosition>,
    pub separator_suppression_policy: Option<SeparatorSuppressionPolicy>,
    pub initiated_content: Option<bool>,
    pub sequence_kind: Option<SequenceKind>,
}

/// What a [`DelimiterProps`] holds, its text as character sequences.
#[verifier::ext_equal]
pub struct DelimiterPropsModel {
    pub initiator: Option<Seq<char>>,
    pub raw_initiator: Option<Seq<char>>,
    pub initiator_percent_escaped: bool,
    pub terminator: Option<Seq<char>>,
    pub raw_terminator: Option<Seq<char>>,
    pub separator: Option<Seq<char>>,
    pub raw_separator: Option<Seq<char>>,
    pub separator_position: Option<SeparatorPosition>,
    pub separator_suppression_policy: Option<SeparatorSuppressionPolicy>,
    pub initiated_content: Option<bool>,
    pub sequence_kind: Option<SequenceKind>,
}

/// What the properties hold, their text as character sequences.
#[verifier::opaque]
pub open spec fn delimiter_props_model(p: DelimiterProps) -> DelimiterPropsModel {
    DelimiterPropsModel {
        initiator: p.initiator.deep_view(),
        raw_initiator: p.raw_initiator.deep_view(),
        initiator_percent_escaped: p.initiator_percent_escaped,
        terminator: p.terminator.deep_view(),
        raw_terminator: p.raw_terminator.deep_view(),
        separator: p.separator.deep_view(),
        raw_separator: p.raw_separator.deep_view(),
        separator_position: p.separator_position,
        separator_suppression_policy: p.separator_suppression_policy,
        initiated_content: p.initiated_content,
        sequence_kind: p.sequence_kind,
    }
}

impl DeepView for DelimiterProps {
    type V = DelimiterPropsModel;

    open spec fn deep_view(&self) -> DelimiterPropsModel {
        delimiter_props_model(*self)
    }
}

impl View for DelimiterProps {
    type V = DelimiterPropsModel;

    open spec fn view(&self) -> DelimiterPropsModel {
        self.deep_view()
    }
}

impl Duplicate for DelimiterProps {
    fn copy(&self) -> (r: Self) {
        reveal(delimiter_props_model);
        DelimiterProps {
            initiator: self.initiator.copy(),
            raw_initiator: self.raw_initiator.copy(),
            initiator_percent_escaped: self.initiator_percent_escaped,
            terminator: self.terminator.copy(),
            raw_terminator: self.raw_terminator.copy(),
            separator: self.separator.copy(),
            raw_separator: self.raw_separator.copy(),
            separator_position: self.separator_position,
            separator_suppression_policy: self.separator_suppression_policy,
            initiated_content: self.initiated_content,
            sequence_kind: self.sequence_kind,
        }
    }
}

impl Same for DelimiterProps {
    fn same(&self, other: &Self) -> (r: bool) {
        reveal(delimiter_props_model);
        self.initiator.same(&other.initiator)
            && self.raw_initiator.same(&other.raw_initiator)
            && self.initiator_percent_escaped.same(&other.initiator_percent_escaped)
            && self.terminator.same(&other.terminator)
            && self.raw_terminator.same(&other.raw_terminator)
            && self.separator.same(&other.separator)
            && self.raw_separator.same(&other.raw_separator)
            && self.separator_position.same(&other.separator_position)
            && self.separator_suppression_policy.same(&other.separator_suppression_policy)
            && self.initiated_content.same(&other.initiated_content)
            && self.sequence_kind.same(&other.sequence_kind)
    }
}

/// No property of this group.
pub open spec fn no_delimiter_props() -> DelimiterPropsModel {
    DelimiterPropsModel {
        initiator: None,
        raw_initiator: None,
        initiator_percent_escaped: false,
        terminator: None,
        raw_terminator: None,
        separator: None,
        raw_separator: None,
        separator_position: None,
        separator_suppression_policy: None,
        initiated_content: None,
        sequence_kind: None,
    }
}

impl Default for DelimiterProps {
    fn default() -> (r: Self)
        ensures
            r@ == no_delimiter_props(),
    {
        reveal(delimiter_props_model);
        let r = DelimiterProps {
            initiator: None,
            raw_initiator: None,
            initiator_percent_escaped: false,
            terminator: None,
            raw_terminator: None,
            separator: None,
            raw_separator: None,
            separator_position: None,
            separator_suppression_policy: None,
            initiated_content: None,
            sequence_kind: None,
        };
        assert(r@ =~= no_delimiter_props());
        r
    }
}

/// How often an element occurs, and what stands for a missing value.
#[derive(Debug)]
pub struct OccursProps {
    pub occurs_min: Option<u64>,
    pub occurs_max: Option<u64>,
    pub max_occurs_specified: bool,
    pub occurs_count_kind: Option<OccursCountKind>,
    pub occurs_count_expr: Option<String>,
    pub occurs_count_fn_path: Option<Vec<PathStep>>,
    pub nillable: Option<bool>,
    pub nil_kind: Option<NilKind>,
    pub nil_value: Option<String>,
    pub empty_element_parse_policy: Option<EmptyElementParsePolicy>,
    pub default_value: Option<String>,
    pub floating: Option<bool>,
}

/// What a [`OccursProps`] holds, its text as character sequences.
#[verifier::ext_equal]
pub struct OccursPropsModel {
    pub occurs_min: Option<u64>,
    pub occurs_max: Option<u64>,
    pub max_occurs_specified: bool,
    pub occurs_count_kind: Option<OccursCountKind>,
    pub occurs_count_expr: Option<Seq<char>>,
    pub occurs_count_fn_path: Option<Seq<PathStepModel>>,
    pub nillable: Option<bool>,
    pub nil_kind: Option<NilKind>,
    pub nil_value: Option<Seq<char>>,
    pub empty_element_parse_policy: Option<EmptyElementParsePolicy>,
    pub default_value: Option<Seq<char>>,
    pub floating: Option<bool>,
}

/// What the properties hold, their text as character sequences.
#[verifier::opaque]
pub open spec fn occurs_props_model(p: OccursProps) -> OccursPropsModel {
    OccursPropsModel {
        occurs_min: p.occurs_min,
        occurs_max: p.occurs_max,
        max_occurs_specified: p.max_occurs_specified,
        occurs_count_kind: p.occurs_count_kind,
        occurs_count_expr: p.occurs_count_expr.deep_view(),
        occurs_count_fn_path: p.occurs_count_fn_path.deep_view(),
        nillable: p.nillable,
        nil_kind: p.nil_kind,
        nil_value: p.nil_value.deep_view(),
        empty_element_parse_policy: p.empty_element_parse_policy,
        default_value: p.default_value.deep_view(),
        floating: p.floating,
    }
}

impl DeepView for OccursProps {
    type V = OccursPropsModel;

    open spec fn deep_view(&self) -> OccursPropsModel {
        occurs_props_model(*self)
    }
}

impl View for OccursProps {
    type V = OccursPropsModel;

    open spec fn view(&self) -> OccursPropsModel {
        self.deep_view()
    }
}

impl Duplicate for OccursProps {
    fn copy(&self) -> (r: Self) {
        reveal(occurs_props_model);
        OccursProps {
            occurs_min: self.occurs_min,
            occurs_max: self.occurs_max,
            max_occurs_specified: self.max_occurs_specified,
            occurs_count_kind: self.occurs_count_kind,
            occurs_count_expr: self.occurs_count_expr.copy(),
            occurs_count_fn_path: self.occurs_count_fn_path.copy(),
            nillable: self.nillable,
            nil_kind: self.nil_kind,
            nil_value: self.nil_value.copy(),
            empty_element_parse_policy: self.empty_element_parse_policy,
            default_value: self.default_value.copy(),
            floating: self.floating,
        }
    }
}

impl Same for OccursProps {
    fn same(&self, other: &Self) -> (r: bool) {
        reveal(occurs_props_model);
        self.occurs_min.same(&other.occurs_min)
            && self.occurs_max.same(&other.occurs_max)
            && self.max_occurs_specified.same(&other.max_occurs_specified)
            && self.occurs_count_kind.same(&other.occurs_count_kind)
            && self.occurs_count_expr.same(&other.occurs_count_expr)
            && self.occurs_count_fn_path.same(&other.occurs_count_fn_path)
            && self.nillable.same(&other.nillable)
            && self.nil_kind.same(&other.nil_kind)
            && self.nil_value.same(&other.nil_value)
            && self.empty_element_parse_policy.same(&other.empty_element_parse_policy)
            && self.default_value.same(&other.default_value)
            && self.floating.same(&other.floating)
    }
}

/// No property of this group.
pub open spec fn no_occurs_props() -> OccursPropsModel {
    OccursPropsModel {
        occurs_min: None,
        occurs_max: None,
        max_occurs_specified: false,
        occurs_count_kind: None,
        occurs_count_expr: None,
        occurs_count_fn_path: None,
        nillable: None,
        nil_kind: None,
        nil_value: None,
        empty_element_parse_policy: None,
        default_value: None,
        floating: None,
    }
}

impl Default for OccursProps {
    fn default() -> (r: Self)
        ensures
            r@ == no_occurs_props(),
    {
        reveal(occurs_props_model);
        let r = OccursProps {
            occurs_min: None,
            occurs_max: None,
            max_occurs_specified: false,
            occurs_count_kind: None,
            occurs_count_expr: None,
            occurs_count_fn_path: None,
            nillable: None,
            nil_kind: None,
            nil_value: None,
            empty_element_parse_policy: None,
            default_value: None,
            floating: None,
        };
        assert(r@ =~= no_occurs_props());
        r
    }
}

/// How the branch of a choice is picked.
#[derive(Debug)]
pub struct ChoiceProps {
    pub choice_dispatch_key: Option<String>,
    pub choice_dispatch_sibling: Option<String>,
    pub choice_dispatch_path: Option<Vec<PathStep>>,
    pub choice_dispatch_literal: Option<String>,
    pub choice_dispatch_sibling_int: Option<String>,
    pub choice_branch_key: Option<String>,
    pub choice_length_kind: Option<ChoiceLengthKind>,
    pub choice_length: Option<u64>,
}

/// What a [`ChoiceProps`] holds, its text as character sequences.
#[verifier::ext_equal]
pub struct ChoicePropsModel {
    pub choice_dispatch_key: Option<Seq<char>>,
    pub choice_dispatch_sibling: Option<Seq<char>>,
    pub choice_dispatch_path: Option<Seq<PathStepModel>>,
    pub choice_dispatch_literal: Option<Seq<char>>,
    pub choice_dispatch_sibling_int: Option<Seq<char>>,
    pub choice_branch_key: Option<Seq<char>>,
    pub choice_length_kind: Option<ChoiceLengthKind>,
    pub choice_length: Option<u64>,
}

/// What the properties hold, their text as character sequences.
#[verifier::opaque]
pub open spec fn choice_props_model(p: ChoiceProps) -> ChoicePropsModel {
    ChoicePropsModel {
        choice_dispatch_key: p.choice_dispatch_key.deep_view(),
        choice_dispatch_sibling: p.choice_dispatch_sibling.deep_view(),
        choice_dispatch_path: p.choice_dispatch_path.deep_view(),
        choice_dispatch_literal: p.choice_dispatch_literal.deep_view(),
        choice_dispatch_sibling_int: p.choice_dispatch_sibling_int.deep_view(),
        choice_branch_key: p.choice_branch_key.deep_view(),
        choice_length_kind: p.choice_length_kind,
        choice_length: p.choice_length,
    }
}

impl DeepView for ChoiceProps {
    type V = ChoicePropsModel;

    open spec fn deep_view(&self) -> ChoicePropsModel {
        choice_props_model(*self)
    }
}

impl View for ChoiceProps {
    type V = ChoicePropsModel;

    open spec fn view(&self) -> ChoicePropsModel {
        self.deep_view()
    }
}

impl Duplicate for ChoiceProps {
    fn copy(&self) -> (r: Self) {
        reveal(choice_props_model);
        ChoiceProps {
            choice_dispatch_key: self.choice_dispatch_key.copy(),
            choice_dispatch_sibling: self.choice_dispatch_sibling.copy(),
            choice_dispatch_path: self.choice_dispatch_path.copy(),
            choice_dispatch_literal: self.choice_dispatch_literal.copy(),
            choice_dispatch_sibling_int: self.choice_dispatch_sibling_int.copy(),
            choice_branch_key: self.choice_branch_key.copy(),
            choice_length_kind: self.choice_length_kind,
            choice_length: self.choice_length,
        }
    }
}

impl Same for ChoiceProps {
    fn same(&self, other: &Self) -> (r: bool) {
        reveal(choice_props_model);
        self.choice_dispatch_key.same(&other.choice_dispatch_key)
            && self.choice_dispatch_sibling.same(&other.choice_dispatch_sibling)
            && self.choice_dispatch_path.same(&other.choice_dispatch_path)
            && self.choice_dispatch_literal.same(&other.choice_dispatch_literal)
            && self.choice_dispatch_sibling_int.same(&other.choice_dispatch_sibling_int)
            && self.choice_branch_key.same(&other.choice_branch_key)
            && self.choice_length_kind.same(&other.choice_length_kind)
            && self.choice_length.same(&other.choice_length)
    }
}

/// No property of this group.
pub open spec fn no_choice_props() -> ChoicePropsModel {
    ChoicePropsModel {
        choice_dispatch_key: None,
        choice_dispatch_sibling: None,
        choice_dispatch_path: None,
        choice_dispatch_literal: None,
        choice_dispatch_sibling_int: None,
        choice_branch_key: None,
        choice_length_kind: None,
        choice_length: None,
    }
}

impl Default for ChoiceProps {
    fn default() -> (r: Self)
        ensures
            r@ == no_choice_props(),
    {
        reveal(choice_props_model);
        let r = ChoiceProps {
            choice_dispatch_key: None,
            choice_dispatch_sibling: None,
            choice_dispatch_path: None,
            choice_dispatch_literal: None,
            choice_dispatch_sibling_int: None,
            choice_branch_key: None,
            choice_length_kind: None,
            choice_length: None,
        };
        assert(r@ =~= no_choice_props());
        r
    }
}

/// How a value is computed.
#[derive(Debug)]
pub struct CalcProps {
    pub input_value_calc: Option<InputValueCalc>,
    pub input_value_calc_literal: Option<String>,
    pub input_value_calc_sibling: Option<String>,
    pub input_value_calc_segments: Option<Vec<InputValueCalcSegment>>,
    pub input_value_calc_path: Option<Vec<PathStep>>,
    pub input_value_calc_expression: Option<InputValueCalcExpression>,
    pub output_value_calc: Option<OutputValueCalc>,
    pub output_value_calc_literal: Option<String>,
    pub output_value_calc_sibling: Option<String>,
    pub output_value_calc_conditional: bool,
    pub output_value_calc_path: Option<Vec<PathStep>>,
    pub output_value_calc_path_addend: Option<i64>,
    pub output_value_calc_scale: Option<i64>,
    pub output_value_calc_segments: Option<Vec<InputValueCalcSegment>>,
}

/// What a [`CalcProps`] holds, its text as character sequences.
#[verifier::ext_equal]
pub struct CalcPropsModel {
    pub input_value_calc: Option<InputValueCalc>,
    pub input_value_calc_literal: Option<Seq<char>>,
    pub input_value_calc_sibling: Option<Seq<char>>,
    pub input_value_calc_segments: Option<Seq<InputValueCalcSegmentModel>>,
    pub input_value_calc_path: Option<Seq<PathStepModel>>,
    pub input_value_calc_expression: Option<InputValueCalcExpressionModel>,
    pub output_value_calc: Option<OutputValueCalc>,
    pub output_value_calc_literal: Option<Seq<char>>,
    pub output_value_calc_sibling: Option<Seq<char>>,
    pub output_value_calc_conditional: bool,
    pub output_value_calc_path: Option<Seq<PathStepModel>>,
    pub output_value_calc_path_addend: Option<i64>,
    pub output_value_calc_scale: Option<i64>,
    pub output_value_calc_segments: Option<Seq<InputValueCalcSegmentModel>>,
}

/// What the properties hold, their text as character sequences.
#[verifier::opaque]
pub open spec fn calc_props_model(p: CalcProps) -> CalcPropsModel {
    CalcPropsModel {
        input_value_calc: p.input_value_calc,
        input_value_calc_literal: p.input_value_calc_literal.deep_view(),
        input_value_calc_sibling: p.input_value_calc_sibling.deep_view(),
        input_value_calc_segments: p.input_value_calc_segments.deep_view(),
        input_value_calc_path: p.input_value_calc_path.deep_view(),
        input_value_calc_expression: p.input_value_calc_expression.deep_view(),
        output_value_calc: p.output_value_calc,
        output_value_calc_literal: p.output_value_calc_literal.deep_view(),
        output_value_calc_sibling: p.output_value_calc_sibling.deep_view(),
        output_value_calc_conditional: p.output_value_calc_conditional,
        output_value_calc_path: p.output_value_calc_path.deep_view(),
        output_value_calc_path_addend: p.output_value_calc_path_addend,
        output_value_calc_scale: p.output_value_calc_scale,
        output_value_calc_segments: p.output_value_calc_segments.deep_view(),
    }
}

impl DeepView for CalcProps {
    type V = CalcPropsModel;

    open spec fn deep_view(&self) -> CalcPropsModel {
        calc_props_model(*self)
    }
}

impl View for CalcProps {
    type V = CalcPropsModel;

    open spec fn view(&self) -> CalcPropsModel {
        self.deep_view()
    }
}

impl Duplicate for CalcProps {
    fn copy(&self) -> (r: Self) {
        reveal(calc_props_model);
        CalcProps {
            input_value_calc: self.input_value_calc,
            input_value_calc_literal: self.input_value_calc_literal.copy(),
            input_value_calc_sibling: self.input_value_calc_sibling.copy(),
            input_value_calc_segments: self.input_value_calc_segments.copy(),
            input_value_calc_path: self.input_value_calc_path.copy(),
            input_value_calc_expression: self.input_value_calc_expression.copy(),
            output_value_calc: self.output_value_calc,
            output_value_calc_literal: self.output_value_calc_literal.copy(),
            output_value_calc_sibling: self.output_value_calc_sibling.copy(),
            output_value_calc_conditional: self.output_value_calc_conditional,
            output_value_calc_path: self.output_value_calc_path.copy(),
            output_value_calc_path_addend: self.output_value_calc_path_addend,
            output_value_calc_scale: self.output_value_calc_scale,
            output_value_calc_segments: self.output_value_calc_segments.copy(),
        }
    }
}

impl Same for CalcProps {
    fn same(&self, other: &Self) -> (r: bool) {
        reveal(calc_props_model);
        self.input_value_calc.same(&other.input_value_calc)
            && self.input_value_calc_literal.same(&other.input_value_calc_literal)
            && self.input_value_calc_sibling.same(&other.input_value_calc_sibling)
            && self.input_value_calc_segments.same(&other.input_value_calc_segments)
            && self.input_value_calc_path.same(&other.input_value_calc_path)
            && self.input_value_calc_expression.same(&other.input_value_calc_expression)
            && self.output_value_calc.same(&other.output_value_calc)
            && self.output_value_calc_literal.same(&other.output_value_calc_literal)
            && self.output_value_calc_sibling.same(&other.output_value_calc_sibling)
            && self.output_value_calc_conditional.same(&other.output_value_calc_conditional)
            && self.output_value_calc_path.same(&other.output_value_calc_path)
            && self.output_value_calc_path_addend.same(&other.output_value_calc_path_addend)
            && self.output_value_calc_scale.same(&other.output_value_calc_scale)
            && self.output_value_calc_segments.same(&other.output_value_calc_segments)
    }
}

/// No property of this group.
pub open spec fn no_calc_props() -> CalcPropsModel {
    CalcPropsModel {
        input_value_calc: None,
        input_value_calc_literal: None,
        input_value_calc_sibling: None,
        input_value_calc_segments: None,
        input_value_calc_path: None,
        input_value_calc_expression: None,
        output_value_calc: None,
        output_value_calc_literal: None,
        output_value_calc_sibling: None,
        output_value_calc_conditional: false,
        output_value_calc_path: None,
        output_value_calc_path_addend: None,
        output_value_calc_scale: None,
        output_value_calc_segments: None,
    }
}

impl Default for CalcProps {
    fn default() -> (r: Self)
        ensures
            r@ == no_calc_props(),
    {
        reveal(calc_props_model);
        let r = CalcProps {
            input_value_calc: None,
            input_value_calc_literal: None,
            input_value_calc_sibling: None,
            input_value_calc_segments: None,
            input_value_calc_path: None,
            input_value_calc_expression: None,
            output_value_calc: None,
            output_value_calc_literal: None,
            output_value_calc_sibling: None,
            output_value_calc_conditional: false,
            output_value_calc_path: None,
            output_value_calc_path_addend: None,
            output_value_calc_scale: None,
            output_value_calc_segments: None,
        };
        assert(r@ =~= no_calc_props());
        r
    }
}

/// Formats, hidden groups, assertions and variables.
#[derive(Debug)]
pub struct StatementProps {
    pub format_ref: Option<String>,
    pub format_context_finalized: bool,
    pub hidden_group_ref: Option<String>,
    pub hidden_group_ref_from_appinfo_sequence: bool,
    pub has_statement_annotation: bool,
    pub assert_message: Option<String>,
    pub assert_message_segments: Option<Vec<InputValueCalcSegment>>,
    pub facet_check_constraints: bool,
    pub assert_int_eq: Option<i64>,
    pub assert_eq_occurs_index_addend: Option<i64>,
    pub discriminator_test: Option<String>,
    pub discriminator_xpath_prefixes: Option<StrMap<String>>,
    pub parse_unparse_policy: Option<ParseUnparsePolicy>,
    pub suppress_schema_definition_warnings: Option<String>,
    pub set_variables: Vec<(String, String)>,
    pub new_variable_instances: Vec<(String, String)>,
}

/// What a [`StatementProps`] holds, its text as character sequences.
#[verifier::ext_equal]
pub struct StatementPropsModel {
    pub format_ref: Option<Seq<char>>,
    pub format_context_finalized: bool,
    pub hidden_group_ref: Option<Seq<char>>,
    pub hidden_group_ref_from_appinfo_sequence: bool,
    pub has_statement_annotation: bool,
    pub assert_message: Option<Seq<char>>,
    pub assert_message_segments: Option<Seq<InputValueCalcSegmentModel>>,
    pub facet_check_constraints: bool,
    pub assert_int_eq: Option<i64>,
    pub assert_eq_occurs_index_addend: Option<i64>,
    pub discriminator_test: Option<Seq<char>>,
    pub discriminator_xpath_prefixes: Option<Seq<(Seq<char>, Seq<char>)>>,
    pub parse_unparse_policy: Option<ParseUnparsePolicy>,
    pub suppress_schema_definition_warnings: Option<Seq<char>>,
    pub set_variables: Seq<(Seq<char>, Seq<char>)>,
    pub new_variable_instances: Seq<(Seq<char>, Seq<char>)>,
}

/// What the properties hold, their text as character sequences.
#[verifier::opaque]
pub open spec fn statement_props_model(p: StatementProps) -> StatementPropsModel {
    StatementPropsModel {
        format_ref: p.format_ref.deep_view(),
        format_context_finalized: p.format_context_finalized,
        hidden_group_ref: p.hidden_group_ref.deep_view(),
        hidden_group_ref_from_appinfo_sequence: p.hidden_group_ref_from_appinfo_sequence,
        has_statement_annotation: p.has_statement_annotation,
        assert_message: p.assert_message.deep_view(),
        assert_message_segments: p.assert_message_segments.deep_view(),
        facet_check_constraints: p.facet_check_constraints,
        assert_int_eq: p.assert_int_eq,
        assert_eq_occurs_index_addend: p.assert_eq_occurs_index_addend,
        discriminator_test: p.discriminator_test.deep_view(),
        discriminator_xpath_prefixes: p.discriminator_xpath_prefixes.deep_view(),
        parse_unparse_policy: p.parse_unparse_policy,
        suppress_schema_definition_warnings: p.suppress_schema_definition_warnings.deep_view(),
        set_variables: p.set_variables.deep_view(),
        new_variable_instances: p.new_variable_instances.deep_view(),
    }
}

impl DeepView for StatementProps {
    type V = StatementPropsModel;

    open spec fn deep_view(&self) -> StatementPropsModel {
        statement_props_model(*self)
    }
}

impl View for StatementProps {
    type V = StatementPropsModel;

    open spec fn view(&self) -> StatementPropsModel {
        self.deep_view()
    }
}

impl Duplicate for StatementProps {
    fn copy(&self) -> (r: Self) {
        reveal(statement_props_model);
        StatementProps {
            format_ref: self.format_ref.copy(),
            format_context_finalized: self.format_context_finalized,
            hidden_group_ref: self.hidden_group_ref.copy(),
            hidden_group_ref_from_appinfo_sequence: self.hidden_group_ref_from_appinfo_sequence,
            has_statement_annotation: self.has_statement_annotation,
            assert_message: self.assert_message.copy(),
            assert_message_segments: self.assert_message_segments.copy(),
            facet_check_constraints: self.facet_check_constraints,
            assert_int_eq: self.assert_int_eq,
            assert_eq_occurs_index_addend: self.assert_eq_occurs_index_addend,
            discriminator_test: self.discriminator_test.copy(),
            discriminator_xpath_prefixes: self.discriminator_xpath_prefixes.copy(),
            parse_unparse_policy: self.parse_unparse_policy,
            suppress_schema_definition_warnings: self.suppress_schema_definition_warnings.copy(),
            set_variables: self.set_variables.copy(),
            new_variable_instances: self.new_variable_instances.copy(),
        }
    }
}

impl Same for StatementProps {
    fn same(&self, other: &Self) -> (r: bool) {
        reveal(statement_props_model);
        self.format_ref.same(&other.format_ref)
            && self.format_context_finalized.same(&other.format_context_finalized)
            && self.hidden_group_ref.same(&other.hidden_group_ref)
            && self.hidden_group_ref_from_appinfo_sequence.same(&other.hidden_group_ref_from_appinfo_sequence)
            && self.has_statement_annotation.same(&other.has_statement_annotation)
            && self.assert_message.same(&other.assert_message)
            && self.assert_message_segments.same(&other.assert_message_segments)
            && self.facet_check_constraints.same(&other.facet_check_constraints)
            && self.assert_int_eq.same(&other.assert_int_eq)
            && self.assert_eq_occurs_index_addend.same(&other.assert_eq_occurs_index_addend)
            && self.discriminator_test.same(&other.discriminator_test)
            && self.discriminator_xpath_prefixes.same(&other.discriminator_xpath_prefixes)
            && self.parse_unparse_policy.same(&other.parse_unparse_policy)
            && self.suppress_schema_definition_warnings.same(&other.suppress_schema_definition_warnings)
            && self.set_variables.same(&other.set_variables)
            && self.new_variable_instances.same(&other.new_variable_instances)
    }
}

/// No property of this group.
pub open spec fn no_statement_props() -> StatementPropsModel {
    StatementPropsModel {
        format_ref: None,
        format_context_finalized: false,
        hidden_group_ref: None,
        hidden_group_ref_from_appinfo_sequence: false,
        has_statement_annotation: false,
        assert_message: None,
        assert_message_segments: None,
        facet_check_constraints: false,
        assert_int_eq: None,
        assert_eq_occurs_index_addend: None,
        discriminator_test: None,
        discriminator_xpath_prefixes: None,
        parse_unparse_policy: None,
        suppress_schema_definition_warnings: None,
        set_variables: Seq::empty(),
        new_variable_instances: Seq::empty(),
    }
}

impl Default for StatementProps {
    fn default() -> (r: Self)
        ensures
            r@ == no_statement_props(),
    {
        reveal(statement_props_model);
        let r = StatementProps {
            format_ref: None,
            format_context_finalized: false,
            hidden_group_ref: None,
            hidden_group_ref_from_appinfo_sequence: false,
            has_statement_annotation: false,
            assert_message: None,
            assert_message_segments: None,
            facet_check_constraints: false,
            assert_int_eq: None,
            assert_eq_occurs_index_addend: None,
            discriminator_test: None,
            discriminator_xpath_prefixes: None,
            parse_unparse_policy: None,
            suppress_schema_definition_warnings: None,
            set_variables: Vec::new(),
            new_variable_instances: Vec::new(),
        };
        assert(r@ =~= no_statement_props());
        r
    }
}

/// The DFDL properties of a declaration; what was not stated is absent.
#[derive(Debug)]
pub struct DfdlProps {
    pub physical: PhysicalProps,
    pub length: LengthProps,
    pub text: TextProps,
    pub number: NumberProps,
    pub binary: BinaryProps,
    pub calendar: CalendarProps,
    pub delimiters: DelimiterProps,
    pub occurs: OccursProps,
    pub choice: ChoiceProps,
    pub calc: CalcProps,
    pub statements: StatementProps,
}

/// What a [`DfdlProps`] holds, its text as character sequences.
#[verifier::ext_equal]
pub struct DfdlPropsModel {
    pub physical: PhysicalPropsModel,
    pub length: LengthPropsModel,
    pub text: TextPropsModel,
    pub number: NumberPropsModel,
    pub binary: BinaryPropsModel,
    pub calendar: CalendarPropsModel,
    pub delimiters: DelimiterPropsModel,
    pub occurs: OccursPropsModel,
    pub choice: ChoicePropsModel,
    pub calc: CalcPropsModel,
    pub statements: StatementPropsModel,
}

impl DeepView for DfdlProps {
    type V = DfdlPropsModel;

    open spec fn deep_view(&self) -> DfdlPropsModel {
        DfdlPropsModel {
            physical: self.physical.deep_view(),
            length: self.length.deep_view(),
            text: self.text.deep_view(),
            number: self.number.deep_view(),
            binary: self.binary.deep_view(),
            calendar: self.calendar.deep_view(),
            delimiters: self.delimiters.deep_view(),
            occurs: self.occurs.deep_view(),
            choice: self.choice.deep_view(),
            calc: self.calc.deep_view(),
            statements: self.statements.deep_view(),
        }
    }
}

impl View for DfdlProps {
    type V = DfdlPropsModel;

    open spec fn view(&self) -> DfdlPropsModel {
        self.deep_view()
    }
}

impl Duplicate for DfdlProps {
    fn copy(&self) -> (r: Self) {
        DfdlProps {
            physical: self.physical.copy(),
            length: self.length.copy(),
            text: self.text.copy(),
            number: self.number.copy(),
            binary: self.binary.copy(),
            calendar: self.calendar.copy(),
            delimiters: self.delimiters.copy(),
            occurs: self.occurs.copy(),
            choice: self.choice.copy(),
            calc: self.calc.copy(),
            statements: self.statements.copy(),
        }
    }
}

impl Same for DfdlProps {
    fn same(&self, other: &Self) -> (r: bool) {
        self.physical.same(&other.physical)
            && self.length.same(&other.length)
            && self.text.same(&other.text)
            && self.number.same(&other.number)
            && self.binary.same(&other.binary)
            && self.calendar.same(&other.calendar)
            && self.delimiters.same(&other.delimiters)
            && self.occurs.same(&other.occurs)
            && self.choice.same(&other.choice)
            && self.calc.same(&other.calc)
            && self.statements.same(&other.statements)
    }
}

/// No property at all.
pub open spec fn no_props() -> DfdlPropsModel {
    DfdlPropsModel {
        physical: no_physical_props(),
        length: no_length_props(),
        text: no_text_props(),
        number: no_number_props(),
        binary: no_binary_props(),
        calendar: no_calendar_props(),
        delimiters: no_delimiter_props(),
        occurs: no_occurs_props(),
        choice: no_choice_props(),
        calc: no_calc_props(),
        statements: no_statement_props(),
    }
}

impl Default for DfdlProps {
    fn default() -> (r: Self)
        ensures
            r@ == no_props(),
    {
        let r = DfdlProps {
            physical: PhysicalProps::default(),
            length: LengthProps::default(),
            text: TextProps::default(),
            number: NumberProps::default(),
            binary: BinaryProps::default(),
            calendar: CalendarProps::default(),
            delimiters: DelimiterProps::default(),
            occurs: OccursProps::default(),
            choice: ChoiceProps::default(),
            calc: CalcProps::default(),
            statements: StatementProps::default(),
        };
        assert(r@ =~= no_props());
        r
    }
}

/// A named escape scheme.
#[derive(Debug)]
pub struct EscapeSchemeDef {
    pub escape_kind: EscapeKind,
    pub escape_character_raw: Option<String>,
    pub escape_character: Option<String>,
    pub escape_escape_character_raw: Option<String>,
    pub escape_escape_character: Option<String>,
    pub escape_block_start_raw: Option<String>,
    pub escape_block_start: Option<String>,
    pub escape_block_end_raw: Option<String>,
    pub escape_block_end: Option<String>,
    pub extra_escaped_characters_raw: Option<String>,
    pub extra_escaped_characters: Vec<String>,
}

/// What a [`EscapeSchemeDef`] holds, its text as character sequences.
#[verifier::ext_equal]
pub struct EscapeSchemeDefModel {
    pub escape_kind: EscapeKind,
    pub escape_character_raw: Option<Seq<char>>,
    pub escape_character: Option<Seq<char>>,
    pub escape_escape_character_raw: Option<Seq<char>>,
    pub escape_escape_character: Option<Seq<char>>,
    pub escape_block_start_raw: Option<Seq<char>>,
    pub escape_block_start: Option<Seq<char>>,
    pub escape_block_end_raw: Option<Seq<char>>,
    pub escape_block_end: Option<Seq<char>>,
    pub extra_escaped_characters_raw: Option<Seq<char>>,
    pub extra_escaped_characters: Seq<Seq<char>>,
}

impl DeepView for EscapeSchemeDef {
    type V = EscapeSchemeDefModel;

    open spec fn deep_view(&self) -> EscapeSchemeDefModel {
        EscapeSchemeDefModel {
            escape_kind: self.escape_kind,
            escape_character_raw: self.escape_character_raw.deep_view(),
            escape_character: self.escape_character.deep_view(),
            escape_escape_character_raw: self.escape_escape_character_raw.deep_view(),
            escape_escape_character: self.escape_escape_character.deep_view(),
            escape_block_start_raw: self.escape_block_start_raw.deep_view(),
            escape_block_start: self.escape_block_start.deep_view(),
            escape_block_end_raw: self.escape_block_end_raw.deep_view(),
            escape_block_end: self.escape_block_end.deep_view(),
            extra_escaped_characters_raw: self.extra_escaped_characters_raw.deep_view(),
            extra_escaped_characters: self.extra_escaped_characters.deep_view(),
        }
    }
}

impl View for EscapeSchemeDef {
    type V = EscapeSchemeDefModel;

    open spec fn view(&self) -> EscapeSchemeDefModel {
        self.deep_view()
    }
}

impl Duplicate for EscapeSchemeDef {
    fn copy(&self) -> (r: Self) {
        EscapeSchemeDef {
            escape_kind: self.escape_kind,
            escape_character_raw: self.escape_character_raw.copy(),
            escape_character: self.escape_character.copy(),
            escape_escape_character_raw: self.escape_escape_character_raw.copy(),
            escape_escape_character: self.escape_escape_character.copy(),
            escape_block_start_raw: self.escape_block_start_raw.copy(),
            escape_block_start: self.escape_block_start.copy(),
            escape_block_end_raw: self.escape_block_end_raw.copy(),
            escape_block_end: self.escape_block_end.copy(),
            extra_escaped_characters_raw: self.extra_escaped_characters_raw.copy(),
            extra_escaped_characters: self.extra_escaped_characters.copy(),
        }
    }
}

impl Same for EscapeSchemeDef {
    fn same(&self, other: &Self) -> (r: bool) {
        self.escape_kind.same(&other.escape_kind)
            && self.escape_character_raw.same(&other.escape_character_raw)
            && self.escape_character.same(&other.escape_character)
            && self.escape_escape_character_raw.same(&other.escape_escape_character_raw)
            && self.escape_escape_character.same(&other.escape_escape_character)
            && self.escape_block_start_raw.same(&other.escape_block_start_raw)
            && self.escape_block_start.same(&other.escape_block_start)
            && self.escape_block_end_raw.same(&other.escape_block_end_raw)
            && self.escape_block_end.same(&other.escape_block_end)
            && self.extra_escaped_characters_raw.same(&other.extra_escaped_characters_raw)
            && self.extra_escaped_characters.same(&other.extra_escaped_characters)
    }
}

/// An element declared at the top level of a schema.
#[derive(Debug)]
pub struct GlobalElement {
    pub name: String,
    pub type_qname_prefixed: bool,
    pub type_xsd_qname: Option<String>,
    pub type_qname_scope: Option<StrMap<String>>,
    pub type_ref: TypeName,
    pub props: DfdlProps,
    pub format_context: DfdlProps,
    pub source_label: Option<String>,
}

/// What a [`GlobalElement`] holds, its text as character sequences.
#[verifier::ext_equal]
pub struct GlobalElementModel {
    pub name: Seq<char>,
    pub type_qname_prefixed: bool,
    pub type_xsd_qname: Option<Seq<char>>,
    pub type_qname_scope: Option<Seq<(Seq<char>, Seq<char>)>>,
    pub type_ref: Seq<char>,
    pub props: DfdlPropsModel,
    pub format_context: DfdlPropsModel,
    pub source_label: Option<Seq<char>>,
}

impl DeepView for GlobalElement {
    type V = GlobalElementModel;

    open spec fn deep_view(&self) -> GlobalElementModel {
        GlobalElementModel {
            name: self.name.deep_view(),
            type_qname_prefixed: self.type_qname_prefixed,
            type_xsd_qname: self.type_xsd_qname.deep_view(),
            type_qname_scope: self.type_qname_scope.deep_view(),
            type_ref: self.type_ref.deep_view(),
            props: self.props.deep_view(),
            format_context: self.format_context.deep_view(),
            source_label: self.source_label.deep_view(),
        }
    }
}

impl View for GlobalElement {
    type V = GlobalElementModel;

    open spec fn view(&self) -> GlobalElementModel {
        self.deep_view()
    }
}

impl Duplicate for GlobalElement {
    fn copy(&self) -> (r: Self) {
        GlobalElement {
            name: self.name.copy(),
            type_qname_prefixed: self.type_qname_prefixed,
            type_xsd_qname: self.type_xsd_qname.copy(),
            type_qname_scope: self.type_qname_scope.copy(),
            type_ref: self.type_ref.copy(),
            props: self.props.copy(),
            format_context: self.format_context.copy(),
            source_label: self.source_label.copy(),
        }
    }
}

impl Same for GlobalElement {
    fn same(&self, other: &Self) -> (r: bool) {
        self.name.same(&other.name)
            && self.type_qname_prefixed.same(&other.type_qname_prefixed)
            && self.type_xsd_qname.same(&other.type_xsd_qname)
            && self.type_qname_scope.same(&other.type_qname_scope)
            && self.type_ref.same(&other.type_ref)
            && self.props.same(&other.props)
            && self.format_context.same(&other.format_context)
            && self.source_label.same(&other.source_label)
    }
}

/// An element declared inside a type or a group.
#[derive(Debug)]
pub struct ElementDecl {
    pub name: String,
    pub element_ref: Option<String>,
    pub has_element_name_attr: bool,
    pub type_ref: TypeName,
    pub type_xsd_qname: Option<String>,
    pub type_qname_scope: Option<StrMap<String>>,
    pub props: DfdlProps,
    pub default_value: Option<String>,
}

/// What a [`ElementDecl`] holds, its text as character sequences.
#[verifier::ext_equal]
pub struct ElementDeclModel {
    pub name: Seq<char>,
    pub element_ref: Option<Seq<char>>,
    pub has_element_name_attr: bool,
    pub type_ref: Seq<char>,
    pub type_xsd_qname: Option<Seq<char>>,
    pub type_qname_scope: Option<Seq<(Seq<char>, Seq<char>)>>,
    pub props: DfdlPropsModel,
    pub default_value: Option<Seq<char>>,
}

impl DeepView for ElementDecl {
    type V = ElementDeclModel;

    open spec fn deep_view(&self) -> ElementDeclModel {
        ElementDeclModel {
            name: self.name.deep_view(),
            element_ref: self.element_ref.deep_view(),
            has_element_name_attr: self.has_element_name_attr,
            type_ref: self.type_ref.deep_view(),
            type_xsd_qname: self.type_xsd_qname.deep_view(),
            type_qname_scope: self.type_qname_scope.deep_view(),
            props: self.props.deep_view(),
            default_value: self.default_value.deep_view(),
        }
    }
}

impl View for ElementDecl {
    type V = ElementDeclModel;

    open spec fn view(&self) -> ElementDeclModel {
        self.deep_view()
    }
}

impl Duplicate for ElementDecl {
    fn copy(&self) -> (r: Self) {
        ElementDecl {
            name: self.name.copy(),
            element_ref: self.element_ref.copy(),
            has_element_name_attr: self.has_element_name_attr,
            type_ref: self.type_ref.copy(),
            type_xsd_qname: self.type_xsd_qname.copy(),
            type_qname_scope: self.type_qname_scope.copy(),
            props: self.props.copy(),
            default_value: self.default_value.copy(),
        }
    }
}

impl Same for ElementDecl {
    fn same(&self, other: &Self) -> (r: bool) {
        self.name.same(&other.name)
            && self.element_ref.same(&other.element_ref)
            && self.has_element_name_attr.same(&other.has_element_name_attr)
            && self.type_ref.same(&other.type_ref)
            && self.type_xsd_qname.same(&other.type_xsd_qname)
            && self.type_qname_scope.same(&other.type_qname_scope)
            && self.props.same(&other.props)
            && self.default_value.same(&other.default_value)
    }
}

/// A reference to a named group.
#[derive(Debug)]
pub struct GroupRefDecl {
    pub name: String,
    pub props: DfdlProps,
}

/// What a [`GroupRefDecl`] holds, its text as character sequences.
#[verifier::ext_equal]
pub struct GroupRefDeclModel {
    pub name: Seq<char>,
    pub props: DfdlPropsModel,
}

impl DeepView for GroupRefDecl {
    type V = GroupRefDeclModel;

    open spec fn deep_view(&self) -> GroupRefDeclModel {
        GroupRefDeclModel {
            name: self.name.deep_view(),
            props: self.props.deep_view(),
        }
    }
}

impl View for GroupRefDecl {
    type V = GroupRefDeclModel;

    open spec fn view(&self) -> GroupRefDeclModel {
        self.deep_view()
    }
}

impl Duplicate for GroupRefDecl {
    fn copy(&self) -> (r: Self) {
        GroupRefDecl {
            name: self.name.copy(),
            props: self.props.copy(),
        }
    }
}

impl Same for GroupRefDecl {
    fn same(&self, other: &Self) -> (r: bool) {
        self.name.same(&other.name)
            && self.props.same(&other.props)
    }
}

/// A member of a sequence or a choice.
#[derive(Debug)]
pub enum Particle {
    Element(ElementDecl),
    Sequence(SequenceDecl),
    Choice(ChoiceDecl),
    GroupRef(GroupRefDecl),
}

/// A sequence of particles.
#[derive(Debug)]
pub struct SequenceDecl {
    pub props: DfdlProps,
    pub particles: Vec<Particle>,
    /// An annotation stands before the first particle.
    pub had_markup_before_particles: bool,
}

/// A choice between particles.
#[derive(Debug)]
pub struct ChoiceDecl {
    pub props: DfdlProps,
    pub branches: Vec<Particle>,
}

/// What a [`Particle`] holds, its text as character sequences.
#[verifier::ext_equal]
pub enum ParticleModel {
    Element(ElementDeclModel),
    Sequence(SequenceDeclModel),
    Choice(ChoiceDeclModel),
    GroupRef(GroupRefDeclModel),
}

/// What a [`SequenceDecl`] holds, its text as character sequences.
#[verifier::ext_equal]
pub struct SequenceDeclModel {
    pub props: DfdlPropsModel,
    pub particles: Seq<ParticleModel>,
    pub had_markup_before_particles: bool,
}

/// What a [`ChoiceDecl`] holds, its text as character sequences.
#[verifier::ext_equal]
pub struct ChoiceDeclModel {
    pub props: DfdlPropsModel,
    pub branches: Seq<ParticleModel>,
}

/// What each particle of a list holds.
pub open spec fn particle_models(v: Vec<Particle>) -> Seq<ParticleModel>
    decreases v,
{
    Seq::new(
        v@.len(),
        |i: int|
            if 0 <= i < v@.len() {
                v@[i].model()
            } else {
                arbitrary()
            },
    )
}

impl Particle {
    /// What the particle holds.
    pub open spec fn model(self) -> ParticleModel
        decreases self,
    {
        match self {
            Particle::Element(e) => ParticleModel::Element(e.deep_view()),
            Particle::Sequence(s) => ParticleModel::Sequence(s.model()),
            Particle::Choice(c) => ParticleModel::Choice(c.model()),
            Particle::GroupRef(g) => ParticleModel::GroupRef(g.deep_view()),
        }
    }
}

impl SequenceDecl {
    /// What the sequence holds.
    pub open spec fn model(self) -> SequenceDeclModel
        decreases self,
    {
        SequenceDeclModel {
            props: self.props.deep_view(),
            particles: particle_models(self.particles),
            had_markup_before_particles: self.had_markup_before_particles,
        }
    }
}

impl ChoiceDecl {
    /// What the choice holds.
    pub open spec fn model(self) -> ChoiceDeclModel
        decreases self,
    {
        ChoiceDeclModel {
            props: self.props.deep_view(),
            branches: particle_models(self.branches),
        }
    }
}

impl DeepView for Particle {
    type V = ParticleModel;

    open spec fn deep_view(&self) -> ParticleModel {
        self.model()
    }
}

impl DeepView for SequenceDecl {
    type V = SequenceDeclModel;

    open spec fn deep_view(&self) -> SequenceDeclModel {
        self.model()
    }
}

impl DeepView for ChoiceDecl {
    type V = ChoiceDeclModel;

    open spec fn deep_view(&self) -> ChoiceDeclModel {
        self.model()
    }
}

/// The content of a group.
#[derive(Debug)]
pub enum GroupDecl {
    Sequence(SequenceDecl),
    Choice(ChoiceDecl),
}

/// What a [`GroupDecl`] holds, its text as character sequences.
#[verifier::ext_equal]
pub enum GroupDeclModel {
    Sequence(SequenceDeclModel),
    Choice(ChoiceDeclModel),
}

impl DeepView for GroupDecl {
    type V = GroupDeclModel;

    open spec fn deep_view(&self) -> GroupDeclModel {
        match self {
            GroupDecl::Sequence(s) => GroupDeclModel::Sequence(s.model()),
            GroupDecl::Choice(c) => GroupDeclModel::Choice(c.model()),
        }
    }
}

/// The content of a complex type.
#[derive(Debug)]
pub enum ComplexContent {
    Empty,
    Sequence(SequenceDecl),
    Choice(ChoiceDecl),
}

/// What a [`ComplexContent`] holds, its text as character sequences.
#[verifier::ext_equal]
pub enum ComplexContentModel {
    Empty,
    Sequence(SequenceDeclModel),
    Choice(ChoiceDeclModel),
}

impl DeepView for ComplexContent {
    type V = ComplexContentModel;

    open spec fn deep_view(&self) -> ComplexContentModel {
        match self {
            ComplexContent::Empty => ComplexContentModel::Empty,
            ComplexContent::Sequence(s) => ComplexContentModel::Sequence(s.model()),
            ComplexContent::Choice(c) => ComplexContentModel::Choice(c.model()),
        }
    }
}

/// The type that a restriction restricts.
#[derive(Debug)]
pub enum RestrictionBase {
    Builtin(BuiltinType),
    Named(TypeName),
}

/// What a [`RestrictionBase`] holds, its text as character sequences.
#[verifier::ext_equal]
pub enum RestrictionBaseModel {
    Builtin(BuiltinType),
    Named(Seq<char>),
}

impl DeepView for RestrictionBase {
    type V = RestrictionBaseModel;

    open spec fn deep_view(&self) -> RestrictionBaseModel {
        match self {
            RestrictionBase::Builtin(b) => RestrictionBaseModel::Builtin(*b),
            RestrictionBase::Named(n) => RestrictionBaseModel::Named(n@),
        }
    }
}

/// The facets of a restriction.
#[derive(Debug)]
pub struct ParsedRestrictionFacets {
    pub length: Option<u64>,
    pub min_length: Option<u64>,
    pub max_length: Option<u64>,
    pub min_inclusive: Option<i64>,
    pub max_inclusive: Option<i64>,
    pub min_exclusive: Option<i64>,
    pub max_exclusive: Option<i64>,
    pub min_inclusive_lexical: Option<String>,
    pub max_inclusive_lexical: Option<String>,
    pub min_exclusive_lexical: Option<String>,
    pub max_exclusive_lexical: Option<String>,
    pub patterns: Vec<String>,
    pub enumerations: Vec<String>,
    pub total_digits: Option<u64>,
    pub fraction_digits: Option<u64>,
    pub invalid_min_length: Option<String>,
    pub invalid_max_length: Option<String>,
    pub invalid_length: Option<String>,
    pub invalid_total_digits: Option<String>,
    pub invalid_fraction_digits: Option<String>,
}

/// What a [`ParsedRestrictionFacets`] holds, its text as character sequences.
#[verifier::ext_equal]
pub struct ParsedRestrictionFacetsModel {
    pub length: Option<u64>,
    pub min_length: Option<u64>,
    pub max_length: Option<u64>,
    pub min_inclusive: Option<i64>,
    pub max_inclusive: Option<i64>,
    pub min_exclusive: Option<i64>,
    pub max_exclusive: Option<i64>,
    pub min_inclusive_lexical: Option<Seq<char>>,
    pub max_inclusive_lexical: Option<Seq<char>>,
    pub min_exclusive_lexical: Option<Seq<char>>,
    pub max_exclusive_lexical: Option<Seq<char>>,
    pub patterns: Seq<Seq<char>>,
    pub enumerations: Seq<Seq<char>>,
    pub total_digits: Option<u64>,
    pub fraction_digits: Option<u64>,
    pub invalid_min_length: Option<Seq<char>>,
    pub invalid_max_length: Option<Seq<char>>,
    pub invalid_length: Option<Seq<char>>,
    pub invalid_total_digits: Option<Seq<char>>,
    pub invalid_fraction_digits: Option<Seq<char>>,
}

impl DeepView for ParsedRestrictionFacets {
    type V = ParsedRestrictionFacetsModel;

    open spec fn deep_view(&self) -> ParsedRestrictionFacetsModel {
        ParsedRestrictionFacetsModel {
            length: self.length,
            min_length: self.min_length,
            max_length: self.max_length,
            min_inclusive: self.min_inclusive,
            max_inclusive: self.max_inclusive,
            min_exclusive: self.min_exclusive,
            max_exclusive: self.max_exclusive,
            min_inclusive_lexical: self.min_inclusive_lexical.deep_view(),
            max_inclusive_lexical: self.max_inclusive_lexical.deep_view(),
            min_exclusive_lexical: self.min_exclusive_lexical.deep_view(),
            max_exclusive_lexical: self.max_exclusive_lexical.deep_view(),
            patterns: self.patterns.deep_view(),
            enumerations: self.enumerations.deep_view(),
            total_digits: self.total_digits,
            fraction_digits: self.fraction_digits,
            invalid_min_length: self.invalid_min_length.deep_view(),
            invalid_max_length: self.invalid_max_length.deep_view(),
            invalid_length: self.invalid_length.deep_view(),
            invalid_total_digits: self.invalid_total_digits.deep_view(),
            invalid_fraction_digits: self.invalid_fraction_digits.deep_view(),
        }
    }
}

impl View for ParsedRestrictionFacets {
    type V = ParsedRestrictionFacetsModel;

    open spec fn view(&self) -> ParsedRestrictionFacetsModel {
        self.deep_view()
    }
}

/// No facet at all.
pub open spec fn no_facets() -> ParsedRestrictionFacetsModel {
    ParsedRestrictionFacetsModel {
        length: None,
        min_length: None,
        max_length: None,
        min_inclusive: None,
        max_inclusive: None,
        min_exclusive: None,
        max_exclusive: None,
        min_inclusive_lexical: None,
        max_inclusive_lexical: None,
        min_exclusive_lexical: None,
        max_exclusive_lexical: None,
        patterns: Seq::empty(),
        enumerations: Seq::empty(),
        total_digits: None,
        fraction_digits: None,
        invalid_min_length: None,
        invalid_max_length: None,
        invalid_length: None,
        invalid_total_digits: None,
        invalid_fraction_digits: None,
    }
}

impl Default for ParsedRestrictionFacets {
    fn default() -> (r: Self)
        ensures
            r@ == no_facets(),
    {
        let r = ParsedRestrictionFacets {
            length: None,
            min_length: None,
            max_length: None,
            min_inclusive: None,
            max_inclusive: None,
            min_exclusive: None,
            max_exclusive: None,
            min_inclusive_lexical: None,
            max_inclusive_lexical: None,
            min_exclusive_lexical: None,
            max_exclusive_lexical: None,
            patterns: Vec::new(),
            enumerations: Vec::new(),
            total_digits: None,
            fraction_digits: None,
            invalid_min_length: None,
            invalid_max_length: None,
            invalid_length: None,
            invalid_total_digits: None,
            invalid_fraction_digits: None,
        };
        assert(r@ =~= no_facets());
        r
    }
}

/// What a simple type is made from.
#[derive(Debug)]
pub enum SimpleBase {
    Builtin(BuiltinType),
    Restriction {
        base: RestrictionBase,
        /// The restriction names `xs:date`.
        restriction_base_is_xs_date: bool,
        facets: ParsedRestrictionFacets,
    },
    Union { members: Vec<UnionMember> },
}

/// A member of a union.
#[derive(Debug)]
pub enum UnionMember {
    Named(TypeName),
    Inline(SimpleBase),
}

/// What a [`SimpleBase`] holds, its text as character sequences.
#[verifier::ext_equal]
pub enum SimpleBaseModel {
    Builtin(BuiltinType),
    Restriction {
        base: RestrictionBaseModel,
        restriction_base_is_xs_date: bool,
        facets: ParsedRestrictionFacetsModel,
    },
    Union { members: Seq<UnionMemberModel> },
}

/// What a [`UnionMember`] holds, its text as character sequences.
#[verifier::ext_equal]
pub enum UnionMemberModel {
    Named(Seq<char>),
    Inline(SimpleBaseModel),
}

/// What each member of a union holds.
pub open spec fn member_models(v: Vec<UnionMember>) -> Seq<UnionMemberModel>
    decreases v,
{
    Seq::new(
        v@.len(),
        |i: int|
            if 0 <= i < v@.len() {
                v@[i].model()
            } else {
                arbitrary()
            },
    )
}

impl SimpleBase {
    /// What the base holds.
    pub open spec fn model(self) -> SimpleBaseModel
        decreases self,
    {
        match self {
            SimpleBase::Builtin(b) => SimpleBaseModel::Builtin(b),
            SimpleBase::Restriction {
                base,
                restriction_base_is_xs_date,
                facets,
            } => SimpleBaseModel::Restriction {
                base: base.deep_view(),
                restriction_base_is_xs_date,
                facets: facets.deep_view(),
            },
            SimpleBase::Union { members } => SimpleBaseModel::Union {
                members: member_models(members),
            },
        }
    }
}

impl UnionMember {
    /// What the member holds.
    pub open spec fn model(self) -> UnionMemberModel
        decreases self,
    {
        match self {
            UnionMember::Named(n) => UnionMemberModel::Named(n@),
            UnionMember::Inline(b) => UnionMemberModel::Inline(b.model()),
        }
    }
}

impl DeepView for SimpleBase {
    type V = SimpleBaseModel;

    open spec fn deep_view(&self) -> SimpleBaseModel {
        self.model()
    }
}

impl DeepView for UnionMember {
    type V = UnionMemberModel;

    open spec fn deep_view(&self) -> UnionMemberModel {
        self.model()
    }
}

/// A type definition.
#[derive(Debug)]
pub enum TypeDef {
    Simple {
        name: TypeName,
        base: SimpleBase,
        props: DfdlProps,
        format_context: DfdlProps,
        source_label: Option<String>,
    },
    Complex {
        name: TypeName,
        content: ComplexContent,
        props: DfdlProps,
        format_context: DfdlProps,
        source_label: Option<String>,
    },
}

/// What a [`TypeDef`] holds, its text as character sequences.
#[verifier::ext_equal]
pub enum TypeDefModel {
    Simple {
        name: Seq<char>,
        base: SimpleBaseModel,
        props: DfdlPropsModel,
        format_context: DfdlPropsModel,
        source_label: Option<Seq<char>>,
    },
    Complex {
        name: Seq<char>,
        content: ComplexContentModel,
        props: DfdlPropsModel,
        format_context: DfdlPropsModel,
        source_label: Option<Seq<char>>,
    },
}

impl DeepView for TypeDef {
    type V = TypeDefModel;

    open spec fn deep_view(&self) -> TypeDefModel {
        match self {
            TypeDef::Simple {
                name,
                base,
                props,
                format_context,
                source_label,
            } => TypeDefModel::Simple {
                name: name@,
                base: base.model(),
                props: props.deep_view(),
                format_context: format_context.deep_view(),
                source_label: source_label.deep_view(),
            },
            TypeDef::Complex {
                name,
                content,
                props,
                format_context,
                source_label,
            } => TypeDefModel::Complex {
                name: name@,
                content: content.deep_view(),
                props: props.deep_view(),
                format_context: format_context.deep_view(),
                source_label: source_label.deep_view(),
            },
        }
    }
}

/// The properties that hold where a declaration states none.
#[derive(Debug)]
pub struct FormatDefaults {
    pub props: DfdlProps,
}

/// What a [`FormatDefaults`] holds, its text as character sequences.
#[verifier::ext_equal]
pub struct FormatDefaultsModel {
    pub props: DfdlPropsModel,
}

impl DeepView for FormatDefaults {
    type V = FormatDefaultsModel;

    open spec fn deep_view(&self) -> FormatDefaultsModel {
        FormatDefaultsModel {
            props: self.props.deep_view(),
        }
    }
}

impl View for FormatDefaults {
    type V = FormatDefaultsModel;

    open spec fn view(&self) -> FormatDefaultsModel {
        self.deep_view()
    }
}

/// No default at all.
pub open spec fn no_format_defaults() -> FormatDefaultsModel {
    FormatDefaultsModel {
        props: no_props(),
    }
}

impl Default for FormatDefaults {
    fn default() -> (r: Self)
        ensures
            r@ == no_format_defaults(),
    {
        let r = FormatDefaults {
            props: DfdlProps::default(),
        };
        assert(r@ =~= no_format_defaults());
        r
    }
}

/// A schema.
#[derive(Debug)]
pub struct SchemaDocument {
    pub target_namespace: Option<String>,
    pub namespace_prefixes: StrMap<String>,
    pub element_form_default_explicit: bool,
    pub element_form_default_qualified: bool,
    pub format_defaults: FormatDefaults,
    pub types: StrMap<TypeDef>,
    pub global_elements: StrMap<GlobalElement>,
    pub global_element_errors: StrMap<Error>,
    pub groups: StrMap<GroupDecl>,
    pub named_formats: StrMap<DfdlProps>,
    pub named_escape_schemes: StrMap<EscapeSchemeDef>,
    pub variables: StrMap<String>,
    pub schema_diagnostics: Vec<String>,
    pub schema_warnings: Vec<String>,
    pub scoped_schema_warnings: StrMap<Vec<String>>,
    pub schema_source_text: Option<String>,
    pub schema_source_label: Option<String>,
    pub dfdl_annotations_seen: bool,
    pub explicit_encoding_error_policy_on_format: bool,
}

/// What a [`SchemaDocument`] holds, its text as character sequences.
#[verifier::ext_equal]
pub struct SchemaDocumentModel {
    pub target_namespace: Option<Seq<char>>,
    pub namespace_prefixes: Seq<(Seq<char>, Seq<char>)>,
    pub element_form_default_explicit: bool,
    pub element_form_default_qualified: bool,
    pub format_defaults: FormatDefaultsModel,
    pub types: Seq<(Seq<char>, TypeDefModel)>,
    pub global_elements: Seq<(Seq<char>, GlobalElementModel)>,
    pub global_element_errors: Seq<(Seq<char>, ErrorModel)>,
    pub groups: Seq<(Seq<char>, GroupDeclModel)>,
    pub named_formats: Seq<(Seq<char>, DfdlPropsModel)>,
    pub named_escape_schemes: Seq<(Seq<char>, EscapeSchemeDefModel)>,
    pub variables: Seq<(Seq<char>, Seq<char>)>,
    pub schema_diagnostics: Seq<Seq<char>>,
    pub schema_warnings: Seq<Seq<char>>,
    pub scoped_schema_warnings: Seq<(Seq<char>, Seq<Seq<char>>)>,
    pub schema_source_text: Option<Seq<char>>,
    pub schema_source_label: Option<Seq<char>>,
    pub dfdl_annotations_seen: bool,
    pub explicit_encoding_error_policy_on_format: bool,
}

/// What a schema holds.
#[verifier::opaque]
pub open spec fn document_model(d: SchemaDocument) -> SchemaDocumentModel {
    SchemaDocumentModel {
        target_namespace: d.target_namespace.deep_view(),
        namespace_prefixes: d.namespace_prefixes.deep_view(),
        element_form_default_explicit: d.element_form_default_explicit,
        element_form_default_qualified: d.element_form_default_qualified,
        format_defaults: d.format_defaults.deep_view(),
        types: d.types.deep_view(),
        global_elements: d.global_elements.deep_view(),
        global_element_errors: d.global_element_errors.deep_view(),
        groups: d.groups.deep_view(),
        named_formats: d.named_formats.deep_view(),
        named_escape_schemes: d.named_escape_schemes.deep_view(),
        variables: d.variables.deep_view(),
        schema_diagnostics: d.schema_diagnostics.deep_view(),
        schema_warnings: d.schema_warnings.deep_view(),
        scoped_schema_warnings: d.scoped_schema_warnings.deep_view(),
        schema_source_text: d.schema_source_text.deep_view(),
        schema_source_label: d.schema_source_label.deep_view(),
        dfdl_annotations_seen: d.dfdl_annotations_seen,
        explicit_encoding_error_policy_on_format: d.explicit_encoding_error_policy_on_format,
    }
}

impl DeepView for SchemaDocument {
    type V = SchemaDocumentModel;

    open spec fn deep_view(&self) -> SchemaDocumentModel {
        document_model(*self)
    }
}

impl View for SchemaDocument {
    type V = SchemaDocumentModel;

    open spec fn view(&self) -> SchemaDocumentModel {
        self.deep_view()
    }
}

/// A schema that declares nothing.
pub open spec fn no_document() -> SchemaDocumentModel {
    SchemaDocumentModel {
        target_namespace: None,
        namespace_prefixes: Seq::empty(),
        element_form_default_explicit: false,
        element_form_default_qualified: false,
        format_defaults: no_format_defaults(),
        types: Seq::empty(),
        global_elements: Seq::empty(),
        global_element_errors: Seq::empty(),
        groups: Seq::empty(),
        named_formats: Seq::empty(),
        named_escape_schemes: Seq::empty(),
        variables: Seq::empty(),
        schema_diagnostics: Seq::empty(),
        schema_warnings: Seq::empty(),
        scoped_schema_warnings: Seq::empty(),
        schema_source_text: None,
        schema_source_label: None,
        dfdl_annotations_seen: false,
        explicit_encoding_error_policy_on_format: false,
    }
}

impl Default for SchemaDocument {
    fn default() -> (r: Self)
        ensures
            r@ == no_document(),
    {
        reveal(document_model);
        let r = SchemaDocument {
            target_namespace: None,
            namespace_prefixes: StrMap::new(),
            element_form_default_explicit: false,
            element_form_default_qualified: false,
            format_defaults: FormatDefaults::default(),
            types: StrMap::new(),
            global_elements: StrMap::new(),
            global_element_errors: StrMap::new(),
            groups: StrMap::new(),
            named_formats: StrMap::new(),
            named_escape_schemes: StrMap::new(),
            variables: StrMap::new(),
            schema_diagnostics: Vec::new(),
            schema_warnings: Vec::new(),
            scoped_schema_warnings: StrMap::new(),
            schema_source_text: None,
            schema_source_label: None,
            dfdl_annotations_seen: false,
            explicit_encoding_error_policy_on_format: false,
        };
        assert(r@ =~= no_document());
        r
    }
}

impl BuiltinType {
    /// The built-in type that `name` names, with the prefix `xs` or `xsd` or
    /// without a prefix.
    pub fn from_xsd(name: &str) -> (r: Option<BuiltinType>)
        ensures
            r == builtin_spec(name@),
    {
        reveal(builtin_spec);
        if eq(name, "string") || eq(name, "xs:string") || eq(name, "xsd:string") {
            Some(BuiltinType::String)
        } else if eq(name, "boolean") || eq(name, "xs:boolean") || eq(name, "xsd:boolean") {
            Some(BuiltinType::Boolean)
        } else if eq(name, "decimal") || eq(name, "xs:decimal") || eq(name, "xsd:decimal") {
            Some(BuiltinType::Decimal)
        } else if eq(name, "float") || eq(name, "xs:float") || eq(name, "xsd:float") {
            Some(BuiltinType::Float)
        } else if eq(name, "double") || eq(name, "xs:double") || eq(name, "xsd:double") {
            Some(BuiltinType::Double)
        } else if eq(name, "integer") || eq(name, "xs:integer") || eq(name, "xsd:integer") {
            Some(BuiltinType::Integer)
        } else if eq(name, "long") || eq(name, "xs:long") || eq(name, "xsd:long") {
            Some(BuiltinType::Long)
        } else if eq(name, "int") || eq(name, "xs:int") || eq(name, "xsd:int") {
            Some(BuiltinType::Int)
        } else if eq(name, "short") || eq(name, "xs:short") || eq(name, "xsd:short") {
            Some(BuiltinType::Short)
        } else if eq(name, "byte") || eq(name, "xs:byte") || eq(name, "xsd:byte") {
            Some(BuiltinType::Byte)
        } else if eq(name, "nonNegativeInteger") || eq(name, "xs:nonNegativeInteger") || eq(name, "xsd:nonNegativeInteger") {
            Some(BuiltinType::NonNegativeInteger)
        } else if eq(name, "unsignedLong") || eq(name, "xs:unsignedLong") || eq(name, "xsd:unsignedLong") {
            Some(BuiltinType::UnsignedLong)
        } else if eq(name, "unsignedInt") || eq(name, "xs:unsignedInt") || eq(name, "xsd:unsignedInt") {
            Some(BuiltinType::UnsignedInt)
        } else if eq(name, "unsignedShort") || eq(name, "xs:unsignedShort") || eq(name, "xsd:unsignedShort") {
            Some(BuiltinType::UnsignedShort)
        } else if eq(name, "unsignedByte") || eq(name, "xs:unsignedByte") || eq(name, "xsd:unsignedByte") {
            Some(BuiltinType::UnsignedByte)
        } else if eq(name, "date") || eq(name, "xs:date") || eq(name, "xsd:date") {
            Some(BuiltinType::Date)
        } else if eq(name, "time") || eq(name, "xs:time") || eq(name, "xsd:time") {
            Some(BuiltinType::Time)
        } else if eq(name, "dateTime") || eq(name, "xs:dateTime") || eq(name, "xsd:dateTime") {
            Some(BuiltinType::DateTime)
        } else if eq(name, "hexBinary") || eq(name, "xs:hexBinary") || eq(name, "xsd:hexBinary") {
            Some(BuiltinType::HexBinary)
        } else if eq(name, "anyURI") || eq(name, "xs:anyURI") || eq(name, "xsd:anyURI") {
            Some(BuiltinType::AnyUri)
        } else {
            None
        }
    }
}

/// The built-in type that `name` names, with the prefix `xs` or `xsd` or
/// without a prefix.
#[verifier::opaque]
pub open spec fn builtin_spec(name: Seq<char>) -> Option<BuiltinType> {
    if name == "string"@ || name == "xs:string"@ || name == "xsd:string"@ {
        Some(BuiltinType::String)
    } else if name == "boolean"@ || name == "xs:boolean"@ || name == "xsd:boolean"@ {
        Some(BuiltinType::Boolean)
    } else if name == "decimal"@ || name == "xs:decimal"@ || name == "xsd:decimal"@ {
        Some(BuiltinType::Decimal)
    } else if name == "float"@ || name == "xs:float"@ || name == "xsd:float"@ {
        Some(BuiltinType::Float)
    } else if name == "double"@ || name == "xs:double"@ || name == "xsd:double"@ {
        Some(BuiltinType::Double)
    } else if name == "integer"@ || name == "xs:integer"@ || name == "xsd:integer"@ {
        Some(BuiltinType::Integer)
    } else if name == "long"@ || name == "xs:long"@ || name == "xsd:long"@ {
        Some(BuiltinType::Long)
    } else if name == "int"@ || name == "xs:int"@ || name == "xsd:int"@ {
        Some(BuiltinType::Int)
    } else if name == "short"@ || name == "xs:short"@ || name == "xsd:short"@ {
        Some(BuiltinType::Short)
    } else if name == "byte"@ || name == "xs:byte"@ || name == "xsd:byte"@ {
        Some(BuiltinType::Byte)
    } else if name == "nonNegativeInteger"@ || name == "xs:nonNegativeInteger"@ || name == "xsd:nonNegativeInteger"@ {
        Some(BuiltinType::NonNegativeInteger)
    } else if name == "unsignedLong"@ || name == "xs:unsignedLong"@ || name == "xsd:unsignedLong"@ {
        Some(BuiltinType::UnsignedLong)
    } else if name == "unsignedInt"@ || name == "xs:unsignedInt"@ || name == "xsd:unsignedInt"@ {
        Some(BuiltinType::UnsignedInt)
    } else if name == "unsignedShort"@ || name == "xs:unsignedShort"@ || name == "xsd:unsignedShort"@ {
        Some(BuiltinType::UnsignedShort)
    } else if name == "unsignedByte"@ || name == "xs:unsignedByte"@ || name == "xsd:unsignedByte"@ {
        Some(BuiltinType::UnsignedByte)
    } else if name == "date"@ || name == "xs:date"@ || name == "xsd:date"@ {
        Some(BuiltinType::Date)
    } else if name == "time"@ || name == "xs:time"@ || name == "xsd:time"@ {
        Some(BuiltinType::Time)
    } else if name == "dateTime"@ || name == "xs:dateTime"@ || name == "xsd:dateTime"@ {
        Some(BuiltinType::DateTime)
    } else if name == "hexBinary"@ || name == "xs:hexBinary"@ || name == "xsd:hexBinary"@ {
        Some(BuiltinType::HexBinary)
    } else if name == "anyURI"@ || name == "xs:anyURI"@ || name == "xsd:anyURI"@ {
        Some(BuiltinType::AnyUri)
    } else {
        None
    }
}

impl SchemaDocument {
    /// The definition of the type with this name.
    pub fn resolve_type(&self, name: &TypeName) -> (r: Option<&TypeDef>)
        ensures
            match r {
                Some(t) => crate::strmap::lookup(self@.types, name@) == Some(t.deep_view()),
                None => crate::strmap::lookup(self@.types, name@) is None,
            },
    {
        reveal(document_model);
        self.types.get(name.as_str())
    }
}

} // verus!
