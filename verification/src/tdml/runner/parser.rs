//! Tests that parse: a test goes on by what was done for it so far, until it has
//! come to something.

use vstd::prelude::*;
use crate::ast::BitOrder;
use crate::encoding;
use crate::error::{cat2, cat5, Error, ErrorModel};
use crate::numbers;
use crate::numbers::decimal_chars;
use crate::resolver::{SchemaResolver, SchemaResolverModel};
use crate::strmap::StrMap;
use crate::tdml::compare;
use crate::tdml::infoset;
use crate::tdml::infoset::resolve_expected_infoset_xml;
use crate::tdml::infoset_values;
use crate::tdml::infoset_values::compare_infoset_with_context;
use crate::tdml::parser;
use crate::tdml::parser::parse_tdml;
use crate::tdml::runner::common;
use crate::tdml::runner::common::{
    error_messages_match, escalated_schema_warnings_message, judge_compile_error, judge_error,
    judge_expected, no_error_text, plan_compile, resolve_tdml_document_bytes,
    schema_warnings_for_root, tdml_transmission_bit_order, CompileTask, CompileTaskModel,
    CompiledSchema, CompiledSchemaModel, TestOutcome, TestOutcomeModel,
};
use crate::tdml::suite;
use crate::tdml::suite::{
    effective_round_trip, effective_validation, DaffodilTunables, DaffodilTunablesModel,
    DocumentKind, ParserTestCase, ParserTestCaseModel, RoundTrip, TdmlDocument, TdmlDocumentModel,
    TdmlConfig, TdmlConfigModel, TdmlSuite, TdmlSuiteModel, TdmlValidationMode,
};
use crate::tdml::validation;
use crate::tdml::validation::collect_post_decode_validation_errors;
use crate::text;
use crate::text::{chars_of, contains, eq, join, string_of};
use crate::value::{DfdlValue, DfdlValueModel};
use crate::values::{owned, Duplicate, Same};
use crate::xml;

verus! {

broadcast use vstd::string::group_string_axioms;

/// What is checked beyond the infoset of a test.
#[derive(Debug, Clone, Copy, PartialEq, Eq, Structural)]
pub struct ParserTestRunOptions {
    /// The bytes that are written again must be the same, where the test says so.
    pub verify_round_trip: bool,
    /// Where the bytes may differ, the infoset that is read again must be the same.
    pub verify_canonical_round_trip: bool,
}

impl Default for ParserTestRunOptions {
    fn default() -> (r: Self)
        ensures
            r == no_options(),
    {
        ParserTestRunOptions { verify_round_trip: false, verify_canonical_round_trip: false }
    }
}

/// Nothing is checked beyond the infoset.
pub open spec fn no_options() -> ParserTestRunOptions {
    ParserTestRunOptions { verify_round_trip: false, verify_canonical_round_trip: false }
}

/// A value that was read, with what other checks say of it.
#[derive(Debug)]
pub struct DecodedValue {
    pub value: DfdlValue,
    /// Complaints about the raw form of values.
    pub raw_errors: Vec<String>,
    /// The complaints that the checks of facets make about the parts of the value.
    pub details: Vec<Option<String>>,
    /// The texts of the value and the expected infoset that mean the same number.
    pub equal_numbers: Vec<(String, String)>,
}

/// What a [`DecodedValue`] holds, its text as character sequences.
#[verifier::ext_equal]
pub struct DecodedValueModel {
    pub value: DfdlValueModel,
    pub raw_errors: Seq<Seq<char>>,
    pub details: Seq<Option<Seq<char>>>,
    pub equal_numbers: Seq<(Seq<char>, Seq<char>)>,
}

impl View for DecodedValue {
    type V = DecodedValueModel;

    open spec fn view(&self) -> DecodedValueModel {
        DecodedValueModel {
            value: self.value@,
            raw_errors: self.raw_errors.deep_view(),
            details: self.details.deep_view(),
            equal_numbers: self.equal_numbers.deep_view(),
        }
    }
}

/// A document to read.
#[derive(Debug)]
pub struct DecodeTask {
    pub data: Vec<u8>,
    /// How many bits count.
    pub frame_bits: Option<u128>,
    pub bit_order: BitOrder,
    /// The order of bits and the length of each part, where there are parts.
    pub regions: Option<Vec<(BitOrder, u64)>>,
    /// Facets are checked, once the whole value is there.
    pub check_facets: bool,
    /// Data behind the end of the value are an error.
    pub strict_end: bool,
    /// The values that variables have instead of those of the schema.
    pub variables: StrMap<String>,
}

/// What a [`DecodeTask`] holds.
#[verifier::ext_equal]
pub struct DecodeTaskModel {
    pub data: Seq<u8>,
    pub frame_bits: Option<nat>,
    pub bit_order: BitOrder,
    pub regions: Option<Seq<(BitOrder, u64)>>,
    pub check_facets: bool,
    pub strict_end: bool,
    pub variables: Seq<(Seq<char>, Seq<char>)>,
}

impl View for DecodeTask {
    type V = DecodeTaskModel;

    open spec fn view(&self) -> DecodeTaskModel {
        DecodeTaskModel {
            data: self.data@,
            frame_bits: match self.frame_bits {
                Some(n) => Some(n as nat),
                None => None,
            },
            bit_order: self.bit_order,
            regions: self.regions.deep_view(),
            check_facets: self.check_facets,
            strict_end: self.strict_end,
            variables: self.variables@,
        }
    }
}

/// Whether a test is never run.
pub open spec fn ignored(name: Seq<char>) -> bool {
    name == "multifile_choice_02b"@
}

// Before the document is read.
/// The document of a test without one.
pub open spec fn empty_document() -> TdmlDocumentModel {
    TdmlDocumentModel {
        kind: DocumentKind::Text,
        data: Seq::empty(),
        file_resource: None,
        last_byte_bit_count: None,
        transmission_bit_order: BitOrder::MostSignificantBitFirst,
        document_transmission_bit_order: None,
        mixed_bits_text_document: false,
        part_bit_order_regions: Seq::empty(),
        load_error: None,
    }
}

fn no_document() -> (r: TdmlDocument)
    ensures
        r@ == empty_document(),
{
    let r = TdmlDocument {
        kind: DocumentKind::Text,
        data: Vec::new(),
        file_resource: None,
        last_byte_bit_count: None,
        transmission_bit_order: BitOrder::MostSignificantBitFirst,
        document_transmission_bit_order: None,
        mixed_bits_text_document: false,
        part_bit_order_regions: Vec::new(),
        load_error: None,
    };
    assert(r@ =~= empty_document());
    r
}

/// The document of a test: its first.
pub open spec fn document_of(test: ParserTestCaseModel) -> TdmlDocumentModel {
    if test.documents.len() > 0 {
        test.documents[0]
    } else {
        empty_document()
    }
}

/// What a test comes to because of its document or expected infoset.
pub open spec fn input_verdict(
    s: TdmlSuiteModel,
    test: ParserTestCaseModel,
    d: TdmlDocumentModel,
) -> Option<TestOutcomeModel> {
    let mismatch = "decode error mismatch: "@;
    let load = "document load error: "@;
    match common::document_bytes(d, s.resource_context) {
        Err(m) => Some(common::error_verdict(test.expected_errors, m, mismatch, load)),
        Ok(_) => match infoset::infoset_xml(test.expected_infoset, s.resource_context) {
            Err(m) => Some(
                if text::contains_spec(m, "DOCTYPE is disallowed"@) {
                    TestOutcomeModel::Pass
                } else {
                    TestOutcomeModel::Fail("infoset load error: "@ + m)
                },
            ),
            Ok(_) => match d.load_error {
                Some(m) => Some(common::error_verdict(test.expected_errors, m, mismatch, load)),
                None => None,
            },
        },
    }
}

/// What a test comes to because of its schema.
pub open spec fn schema_verdict(
    test: ParserTestCaseModel,
    t: DaffodilTunablesModel,
    c: CompiledSchemaModel,
) -> Option<TestOutcomeModel> {
    let mismatch = "decode error mismatch: "@;
    let warnings = common::root_warnings(c.schema, test.root);
    if c.parse_refusal is Some {
        Some(
            common::error_verdict(
                test.expected_errors,
                c.parse_refusal->0,
                mismatch,
                "decode error: "@,
            ),
        )
    } else if t.escalate_warnings_to_errors && warnings.len() > 0 {
        Some(
            common::error_verdict(
                test.expected_errors,
                common::escalated(warnings),
                mismatch,
                "decode error: "@,
            ),
        )
    } else {
        match (test.expected_errors, c.entity_limit) {
            (Some(e), Some(m)) => Some(common::expected_verdict(e, m, mismatch)),
            _ => None,
        }
    }
}

/// The document to read for a test.
pub open spec fn decode_task(
    s: TdmlSuiteModel,
    test: ParserTestCaseModel,
    variables: Seq<(Seq<char>, Seq<char>)>,
    c: CompiledSchemaModel,
) -> DecodeTaskModel {
    let d = document_of(test);
    DecodeTaskModel {
        data: common::document_bytes(d, s.resource_context)->Ok_0,
        frame_bits: suite::significant_bits(d),
        bit_order: common::bit_order_of(d, c.format_bit_order),
        regions: if d.part_bit_order_regions.len() == 0 {
            None
        } else {
            Some(d.part_bit_order_regions)
        },
        check_facets: suite::validation_of(test, s) != TdmlValidationMode::Off,
        strict_end: true,
        variables,
    }
}

/// What a test comes to before its document is read.
pub open spec fn early_verdict(
    s: TdmlSuiteModel,
    test: ParserTestCaseModel,
    t: DaffodilTunablesModel,
    c: CompiledSchemaModel,
) -> Option<TestOutcomeModel> {
    if test.documents.len() == 0 && test.expected_errors is None {
        Some(TestOutcomeModel::Skip("no document"@))
    } else {
        match input_verdict(s, test, document_of(test)) {
            Some(o) => Some(o),
            None => schema_verdict(test, t, c),
        }
    }
}

/// What a test may come to.
pub open spec fn outcome_view(o: Option<TestOutcome>) -> Option<TestOutcomeModel> {
    match o {
        Some(x) => Some(x@),
        None => None,
    }
}

fn judge_input(s: &TdmlSuite, test: &ParserTestCase, d: &TdmlDocument) -> (r: Option<TestOutcome>)
    ensures
        outcome_view(r) == input_verdict(s@, test@, d@),
{
    if let Err(m) = resolve_tdml_document_bytes(d, &s.resource_context) {
        return Some(
            judge_error(
                &test.expected_errors,
                m.as_str(),
                "decode error mismatch: ",
                "document load error: ",
            ),
        );
    }
    if let Err(m) = resolve_expected_infoset_xml(
        test.expected_infoset.as_str(),
        &s.resource_context,
    ) {
        let c = chars_of(m.as_str());
        if contains(c.as_slice(), "DOCTYPE is disallowed") {
            return Some(TestOutcome::Pass);
        }
        return Some(TestOutcome::Fail(cat2("infoset load error: ", m.as_str())));
    }
    if let Some(m) = &d.load_error {
        return Some(
            judge_error(
                &test.expected_errors,
                m.as_str(),
                "decode error mismatch: ",
                "document load error: ",
            ),
        );
    }
    None
}

fn judge_schema(test: &ParserTestCase, t: &DaffodilTunables, c: &CompiledSchema) -> (r: Option<
    TestOutcome,
>)
    ensures
        outcome_view(r) == schema_verdict(test@, t@, c@),
{
    if let Some(m) = &c.parse_refusal {
        return Some(
            judge_error(
                &test.expected_errors,
                m.as_str(),
                "decode error mismatch: ",
                "decode error: ",
            ),
        );
    }
    let warnings = schema_warnings_for_root(&c.schema, test.root.as_str());
    assert(warnings.deep_view().len() == warnings@.len());
    if t.escalate_warnings_to_errors && warnings.len() > 0 {
        let m = escalated_schema_warnings_message(&warnings);
        return Some(
            judge_error(
                &test.expected_errors,
                m.as_str(),
                "decode error mismatch: ",
                "decode error: ",
            ),
        );
    }
    if let Some(e) = &test.expected_errors {
        if let Some(m) = &c.entity_limit {
            return Some(judge_expected(e, m.as_str(), "decode error mismatch: "));
        }
    }
    None
}

fn frame_bits_of(d: &TdmlDocument) -> (r: Option<u128>)
    ensures
        (match r {
            Some(n) => Some(n as nat),
            None => None,
        }) == suite::significant_bits(d@),
{
    assert(d@.data.len() == d.data@.len());
    if d.kind != DocumentKind::Bits {
        return None;
    }
    let n: u128 = d.data.len() as u128;
    if n == 0 {
        return Some(0);
    }
    match d.last_byte_bit_count {
        Some(k) => if k == 0 {
            Some(8 * n)
        } else {
            Some(8 * (n - 1) + k as u128)
        },
        None => Some(8 * n),
    }
}

fn make_decode_task(
    s: &TdmlSuite,
    test: &ParserTestCase,
    variables: &StrMap<String>,
    c: &CompiledSchema,
    d: &TdmlDocument,
) -> (r: DecodeTask)
    requires
        d@ == document_of(test@),
        common::document_bytes(d@, s@.resource_context) is Ok,
    ensures
        r@ == decode_task(s@, test@, variables@, c@),
{
    let data = match resolve_tdml_document_bytes(d, &s.resource_context) {
        Ok(b) => b,
        Err(_) => Vec::new(),
    };
    assert(d@.part_bit_order_regions.len() == d.part_bit_order_regions@.len());
    let regions = if d.part_bit_order_regions.len() == 0 {
        None
    } else {
        Some(d.part_bit_order_regions.copy())
    };
    let mode = effective_validation(test, s);
    DecodeTask {
        data,
        frame_bits: frame_bits_of(d),
        bit_order: tdml_transmission_bit_order(d, c.format_bit_order),
        regions,
        check_facets: mode != TdmlValidationMode::Off,
        strict_end: true,
        variables: variables.copy(),
    }
}

/// The document to read, or what the test comes to without that.
pub open spec fn decode_view(r: Result<DecodeTask, TestOutcome>) -> Result<
    DecodeTaskModel,
    TestOutcomeModel,
> {
    match r {
        Ok(t) => Ok(t@),
        Err(o) => Err(o@),
    }
}

fn plan_with(
    s: &TdmlSuite,
    test: &ParserTestCase,
    t: &TdmlConfig,
    c: &CompiledSchema,
    d: &TdmlDocument,
) -> (r: Result<DecodeTask, TestOutcome>)
    requires
        d@ == document_of(test@),
    ensures
        decode_view(r) == (match input_verdict(s@, test@, document_of(test@)) {
            Some(o) => Err(o),
            None => match schema_verdict(test@, t@.tunables, c@) {
                Some(o) => Err(o),
                None => Ok(decode_task(s@, test@, t@.external_variables, c@)),
            },
        }),
{
    if let Some(o) = judge_input(s, test, d) {
        return Err(o);
    }
    if let Some(o) = judge_schema(test, &t.tunables, c) {
        return Err(o);
    }
    Ok(make_decode_task(s, test, &t.external_variables, c, d))
}

/// The document to read for a test whose schema compiles, or what the test comes
/// to without that.
pub fn plan_decode(
    s: &TdmlSuite,
    test: &ParserTestCase,
    t: &TdmlConfig,
    c: &CompiledSchema,
) -> (r: Result<DecodeTask, TestOutcome>)
    ensures
        decode_view(r) == (match early_verdict(s@, test@, t@.tunables, c@) {
            Some(o) => Err(o),
            None => Ok(decode_task(s@, test@, t@.external_variables, c@)),
        }),
{
    assert(test@.documents.len() == test.documents@.len());
    if test.documents.len() == 0 {
        if test.expected_errors.is_none() {
            return Err(TestOutcome::Skip(owned("no document")));
        }
        let d = no_document();
        assert(d@.data.len() == d.data@.len());
        return plan_with(s, test, t, c, &d);
    }
    assert(test@.documents[0] == test.documents@[0]@);
    plan_with(s, test, t, c, &test.documents[0])
}

// After the document was read.
/// What a test that expects an error comes to.
pub open spec fn expecting_verdict(
    s: TdmlSuiteModel,
    test: ParserTestCaseModel,
    c: CompiledSchemaModel,
    expected: Seq<Seq<char>>,
    decoded: Result<DecodedValueModel, Seq<char>>,
) -> TestOutcomeModel {
    let mismatch = "decode error mismatch: "@;
    match decoded {
        Err(m) => common::expected_verdict(expected, m, mismatch),
        Ok(d) => if d.raw_errors.len() > 0 {
            common::expected_verdict(expected, text::joined(d.raw_errors, "\n"@), mismatch)
        } else {
            let post = validation::value_messages(
                c.schema,
                c.program,
                d.value,
                d.details,
                suite::validation_of(test, s) == TdmlValidationMode::On,
            );
            if post.len() > 0 {
                common::expected_verdict(expected, text::joined(post, "\n"@), mismatch)
            } else {
                TestOutcomeModel::Fail(common::no_error_message("decode"@, expected))
            }
        },
    }
}

fn judge_expecting(
    s: &TdmlSuite,
    test: &ParserTestCase,
    c: &CompiledSchema,
    expected: &Vec<String>,
    decoded: &Result<DecodedValue, String>,
) -> (r: TestOutcome)
    ensures
        r@ == expecting_verdict(s@, test@, c@, expected.deep_view(), decoded_view(*decoded)),
{
    match decoded {
        Err(m) => judge_expected(expected, m.as_str(), "decode error mismatch: "),
        Ok(d) => {
            assert(d.raw_errors.deep_view().len() == d.raw_errors@.len());
            if d.raw_errors.len() > 0 {
                let m = join(&d.raw_errors, "\n");
                return judge_expected(expected, m.as_str(), "decode error mismatch: ");
            }
            let full = effective_validation(test, s) == TdmlValidationMode::On;
            let post = collect_post_decode_validation_errors(
                &c.schema,
                &c.program,
                &d.value,
                &d.details,
                full,
            );
            assert(post.deep_view().len() == post@.len());
            if post.len() > 0 {
                let m = join(&post, "\n");
                return judge_expected(expected, m.as_str(), "decode error mismatch: ");
            }
            TestOutcome::Fail(no_error_text("decode", expected))
        },
    }
}

/// A value that was read, or why there is none.
pub open spec fn decoded_view(r: Result<DecodedValue, String>) -> Result<
    DecodedValueModel,
    Seq<char>,
> {
    match r {
        Ok(d) => Ok(d@),
        Err(e) => Err(e@),
    }
}

/// What a test comes to because of the validation of its value.
pub open spec fn validation_verdict(
    s: TdmlSuiteModel,
    test: ParserTestCaseModel,
    c: CompiledSchemaModel,
    d: DecodedValueModel,
) -> Option<TestOutcomeModel> {
    let mode = suite::validation_of(test, s);
    let found = validation::value_messages(
        c.schema,
        c.program,
        d.value,
        d.details,
        mode == TdmlValidationMode::On,
    );
    let combined = text::joined(found, "\n"@);
    match test.expected_validation_errors {
        Some(e) => if found.len() == 0 {
            Some(
                TestOutcomeModel::Fail(
                    "expected post-decode validation errors but none were reported"@,
                ),
            )
        } else if !common::messages_match(e, combined) {
            Some(TestOutcomeModel::Fail("validation error mismatch: "@ + combined))
        } else {
            None
        },
        None => if mode != TdmlValidationMode::Off && found.len() > 0 {
            Some(TestOutcomeModel::Fail("unexpected validation errors: "@ + combined))
        } else {
            None
        },
    }
}

fn judge_validation(s: &TdmlSuite, test: &ParserTestCase, c: &CompiledSchema, d: &DecodedValue) -> (r:
    Option<TestOutcome>)
    ensures
        outcome_view(r) == validation_verdict(s@, test@, c@, d@),
{
    let mode = effective_validation(test, s);
    let found = collect_post_decode_validation_errors(
        &c.schema,
        &c.program,
        &d.value,
        &d.details,
        mode == TdmlValidationMode::On,
    );
    assert(found.deep_view().len() == found@.len());
    let combined = join(&found, "\n");
    match &test.expected_validation_errors {
        Some(e) => {
            if found.len() == 0 {
                return Some(
                    TestOutcome::Fail(
                        owned("expected post-decode validation errors but none were reported"),
                    ),
                );
            }
            if !error_messages_match(e, combined.as_str()) {
                return Some(
                    TestOutcome::Fail(cat2("validation error mismatch: ", combined.as_str())),
                );
            }
            None
        },
        None => {
            if mode != TdmlValidationMode::Off && found.len() > 0 {
                return Some(
                    TestOutcome::Fail(cat2("unexpected validation errors: ", combined.as_str())),
                );
            }
            None
        },
    }
}

/// What a test comes to because of its infoset or warnings.
pub open spec fn value_verdict(
    s: TdmlSuiteModel,
    test: ParserTestCaseModel,
    c: CompiledSchemaModel,
    d: DecodedValueModel,
) -> Option<TestOutcomeModel> {
    match infoset_values::infoset_mismatch(
        d.value,
        test.expected_infoset,
        d.equal_numbers,
        s.resource_context,
    ) {
        Some(m) => Some(TestOutcomeModel::Fail(m)),
        None => {
            let combined = text::joined(common::root_warnings(c.schema, test.root), "\n"@);
            match test.expected_warnings {
                Some(e) => if common::messages_match(e, combined) {
                    None
                } else {
                    Some(TestOutcomeModel::Fail("warning mismatch: "@ + combined))
                },
                None => None,
            }
        },
    }
}

fn judge_value(s: &TdmlSuite, test: &ParserTestCase, c: &CompiledSchema, d: &DecodedValue) -> (r:
    Option<TestOutcome>)
    ensures
        outcome_view(r) == value_verdict(s@, test@, c@, d@),
{
    if let Err(m) = compare_infoset_with_context(
        &d.value,
        test.expected_infoset.as_str(),
        &d.equal_numbers,
        &s.resource_context,
    ) {
        return Some(TestOutcome::Fail(m));
    }
    if let Some(e) = &test.expected_warnings {
        let warnings = schema_warnings_for_root(&c.schema, test.root.as_str());
        let combined = join(&warnings, "\n");
        if !error_messages_match(e, combined.as_str()) {
            return Some(TestOutcome::Fail(cat2("warning mismatch: ", combined.as_str())));
        }
    }
    None
}

/// How a value that was read is written again.
#[derive(Debug, Clone, Copy, PartialEq, Eq, Structural)]
pub enum WriteBack {
    /// Not at all.
    Never,
    /// To the same bytes.
    SameBytes,
    /// To the same bytes, which are read once more.
    SameBytesReadAgain,
    /// To bytes that are read to the same infoset.
    SameInfoset,
}

/// How the value of a test is written again.
pub open spec fn write_back(
    s: TdmlSuiteModel,
    test: ParserTestCaseModel,
    options: ParserTestRunOptions,
) -> WriteBack {
    let trip = suite::round_trip_of(test.round_trip, s.default_round_trip);
    if options.verify_round_trip && trip == RoundTrip::TwoPass {
        WriteBack::SameBytesReadAgain
    } else if options.verify_round_trip && trip == RoundTrip::OnePass {
        WriteBack::SameBytes
    } else if options.verify_canonical_round_trip && trip == RoundTrip::Disabled {
        WriteBack::SameInfoset
    } else {
        WriteBack::Never
    }
}

fn plan_write_back(s: &TdmlSuite, test: &ParserTestCase, options: ParserTestRunOptions) -> (r:
    WriteBack)
    ensures
        r == write_back(s@, test@, options),
{
    let trip = effective_round_trip(test.round_trip, s.default_round_trip);
    if options.verify_round_trip && trip == RoundTrip::TwoPass {
        WriteBack::SameBytesReadAgain
    } else if options.verify_round_trip && trip == RoundTrip::OnePass {
        WriteBack::SameBytes
    } else if options.verify_canonical_round_trip && trip == RoundTrip::Disabled {
        WriteBack::SameInfoset
    } else {
        WriteBack::Never
    }
}

/// What a test comes to once its document was read, unless the value is written
/// again.
pub open spec fn decoded_verdict(
    s: TdmlSuiteModel,
    test: ParserTestCaseModel,
    options: ParserTestRunOptions,
    c: CompiledSchemaModel,
    decoded: Result<DecodedValueModel, Seq<char>>,
) -> Option<TestOutcomeModel> {
    match test.expected_errors {
        Some(e) => Some(expecting_verdict(s, test, c, e, decoded)),
        None => match decoded {
            Err(m) => Some(TestOutcomeModel::Fail("decode error: "@ + m)),
            Ok(d) => match validation_verdict(s, test, c, d) {
                Some(o) => Some(o),
                None => match value_verdict(s, test, c, d) {
                    Some(o) => Some(o),
                    None => if write_back(s, test, options) == WriteBack::Never {
                        Some(TestOutcomeModel::Pass)
                    } else {
                        None
                    },
                },
            },
        },
    }
}

/// What a test comes to once its document was read, unless the value is written
/// again.
pub fn judge_decoded(
    s: &TdmlSuite,
    test: &ParserTestCase,
    options: ParserTestRunOptions,
    c: &CompiledSchema,
    decoded: &Result<DecodedValue, String>,
) -> (r: Option<TestOutcome>)
    ensures
        outcome_view(r) == decoded_verdict(s@, test@, options, c@, decoded_view(*decoded)),
{
    if let Some(e) = &test.expected_errors {
        return Some(judge_expecting(s, test, c, e, decoded));
    }
    let d = match decoded {
        Ok(d) => d,
        Err(m) => {
            return Some(TestOutcome::Fail(cat2("decode error: ", m.as_str())));
        },
    };
    if let Some(o) = judge_validation(s, test, c, d) {
        return Some(o);
    }
    if let Some(o) = judge_value(s, test, c, d) {
        return Some(o);
    }
    if plan_write_back(s, test, options) == WriteBack::Never {
        return Some(TestOutcome::Pass);
    }
    None
}

// After the value was written again.
/// The message for bytes that differ.
pub open spec fn byte_mismatch(expected: nat, got: nat) -> Seq<char> {
    "roundtrip byte mismatch: expected "@ + numbers::decimal(expected) + " byte(s), got "@
        + numbers::decimal(got) + " byte(s)"@
}

/// What a test comes to once its value was written again, unless that is read
/// again.
pub open spec fn encoded_verdict(
    how: WriteBack,
    data: Seq<u8>,
    encoded: Result<Seq<u8>, Seq<char>>,
) -> Option<TestOutcomeModel> {
    match (how, encoded) {
        (WriteBack::SameInfoset, Err(e)) => Some(
            TestOutcomeModel::Fail("canonical roundtrip encode error: "@ + e),
        ),
        (WriteBack::SameInfoset, Ok(_)) => None,
        (_, Err(e)) => Some(TestOutcomeModel::Fail("roundtrip encode error: "@ + e)),
        (_, Ok(b)) => if b != data {
            Some(TestOutcomeModel::Fail(byte_mismatch(data.len(), b.len())))
        } else if how == WriteBack::SameBytesReadAgain {
            None
        } else {
            Some(TestOutcomeModel::Pass)
        },
    }
}

/// What a test comes to once its value was written again, unless that is read
/// again.
pub fn judge_encoded(how: WriteBack, data: &Vec<u8>, encoded: &Result<Vec<u8>, String>) -> (r:
    Option<TestOutcome>)
    ensures
        outcome_view(r) == encoded_verdict(how, data@, encoding::bytes_outcome(*encoded)),
{
    match encoded {
        Err(e) => {
            if how == WriteBack::SameInfoset {
                Some(TestOutcome::Fail(cat2("canonical roundtrip encode error: ", e.as_str())))
            } else {
                Some(TestOutcome::Fail(cat2("roundtrip encode error: ", e.as_str())))
            }
        },
        Ok(b) => {
            if how == WriteBack::SameInfoset {
                return None;
            }
            assert(b.deep_view() =~= b@);
            assert(data.deep_view() =~= data@);
            if !b.same(data) {
                let x = decimal_chars(data.len() as u64);
                let y = decimal_chars(b.len() as u64);
                let want = string_of(x.as_slice());
                let got = string_of(y.as_slice());
                return Some(
                    TestOutcome::Fail(
                        cat5(
                            "roundtrip byte mismatch: expected ",
                            want.as_str(),
                            " byte(s), got ",
                            got.as_str(),
                            " byte(s)",
                        ),
                    ),
                );
            }
            if how == WriteBack::SameBytesReadAgain {
                None
            } else {
                Some(TestOutcome::Pass)
            }
        },
    }
}

/// What a test comes to once the bytes that were written were read again.
pub open spec fn reread_verdict(
    s: TdmlSuiteModel,
    test: ParserTestCaseModel,
    how: WriteBack,
    again: Result<DecodedValueModel, Seq<char>>,
) -> TestOutcomeModel {
    let canonical = how == WriteBack::SameInfoset;
    match again {
        Err(e) => TestOutcomeModel::Fail(
            (if canonical {
                "canonical roundtrip re-parse error: "@
            } else {
                "twoPass re-parse error: "@
            }) + e,
        ),
        Ok(d) => if infoset_values::infoset_mismatch(
            d.value,
            test.expected_infoset,
            d.equal_numbers,
            s.resource_context,
        ) is None {
            TestOutcomeModel::Pass
        } else if canonical {
            TestOutcomeModel::Fail("canonical roundtrip infoset mismatch"@)
        } else {
            TestOutcomeModel::Fail("twoPass infoset mismatch after re-parse"@)
        },
    }
}

/// What a test comes to once the bytes that were written were read again.
pub fn judge_reread(
    s: &TdmlSuite,
    test: &ParserTestCase,
    how: WriteBack,
    again: &Result<DecodedValue, String>,
) -> (r: TestOutcome)
    ensures
        r@ == reread_verdict(s@, test@, how, decoded_view(*again)),
{
    let canonical = how == WriteBack::SameInfoset;
    match again {
        Err(e) => {
            if canonical {
                TestOutcome::Fail(cat2("canonical roundtrip re-parse error: ", e.as_str()))
            } else {
                TestOutcome::Fail(cat2("twoPass re-parse error: ", e.as_str()))
            }
        },
        Ok(d) => {
            match compare_infoset_with_context(
                &d.value,
                test.expected_infoset.as_str(),
                &d.equal_numbers,
                &s.resource_context,
            ) {
                Ok(_) => TestOutcome::Pass,
                Err(_) => if canonical {
                    TestOutcome::Fail(owned("canonical roundtrip infoset mismatch"))
                } else {
                    TestOutcome::Fail(owned("twoPass infoset mismatch after re-parse"))
                },
            }
        },
    }
}

// The whole test.
/// What was done for a test so far.
#[derive(Debug)]
pub struct ParserProgress {
    pub compiled: Option<Result<CompiledSchema, String>>,
    pub decoded: Option<Result<DecodedValue, String>>,
    pub encoded: Option<Result<Vec<u8>, String>>,
    /// What the bytes that were written were read to.
    pub reread: Option<Result<DecodedValue, String>>,
}

/// What a [`ParserProgress`] holds, its text as character sequences.
#[verifier::ext_equal]
pub struct ParserProgressModel {
    pub compiled: Option<Result<CompiledSchemaModel, Seq<char>>>,
    pub decoded: Option<Result<DecodedValueModel, Seq<char>>>,
    pub encoded: Option<Result<Seq<u8>, Seq<char>>>,
    pub reread: Option<Result<DecodedValueModel, Seq<char>>>,
}

impl View for ParserProgress {
    type V = ParserProgressModel;

    open spec fn view(&self) -> ParserProgressModel {
        ParserProgressModel {
            compiled: match self.compiled {
                Some(Ok(c)) => Some(Ok(c@)),
                Some(Err(e)) => Some(Err(e@)),
                None => None,
            },
            decoded: match self.decoded {
                Some(d) => Some(decoded_view(d)),
                None => None,
            },
            encoded: match self.encoded {
                Some(b) => Some(encoding::bytes_outcome(b)),
                None => None,
            },
            reread: match self.reread {
                Some(d) => Some(decoded_view(d)),
                None => None,
            },
        }
    }
}

impl ParserProgress {
    /// Nothing was done.
    pub fn new() -> (r: Self)
        ensures
            r@ == nothing_done(),
    {
        ParserProgress { compiled: None, decoded: None, encoded: None, reread: None }
    }
}

/// Nothing was done.
pub open spec fn nothing_done() -> ParserProgressModel {
    ParserProgressModel { compiled: None, decoded: None, encoded: None, reread: None }
}

/// What is to be done next for a test.
#[derive(Debug)]
pub enum ParserAction<'a> {
    /// Compile the schema.
    Compile(CompileTask),
    /// Read the document.
    Decode(DecodeTask),
    /// Write this value, which was read.
    Encode(&'a DfdlValue),
    /// Read these bytes, which were written.
    DecodeAgain(&'a Vec<u8>),
    /// Nothing: the test has come to this.
    Finish(TestOutcome),
}

/// What a [`ParserAction`] holds, its text as character sequences.
#[verifier::ext_equal]
pub enum ParserActionModel {
    Compile(CompileTaskModel),
    Decode(DecodeTaskModel),
    Encode(DfdlValueModel),
    DecodeAgain(Seq<u8>),
    Finish(TestOutcomeModel),
}

impl<'a> View for ParserAction<'a> {
    type V = ParserActionModel;

    open spec fn view(&self) -> ParserActionModel {
        match self {
            ParserAction::Compile(t) => ParserActionModel::Compile(t@),
            ParserAction::Decode(t) => ParserActionModel::Decode(t@),
            ParserAction::Encode(v) => ParserActionModel::Encode(v@),
            ParserAction::DecodeAgain(b) => ParserActionModel::DecodeAgain(b@),
            ParserAction::Finish(o) => ParserActionModel::Finish(o@),
        }
    }
}

/// What is to be done next for a test whose schema compiles.
pub open spec fn next_compiled(
    s: TdmlSuiteModel,
    test: ParserTestCaseModel,
    options: ParserTestRunOptions,
    t: TdmlConfigModel,
    c: CompiledSchemaModel,
    p: ParserProgressModel,
) -> ParserActionModel {
    match early_verdict(s, test, t.tunables, c) {
        Some(o) => ParserActionModel::Finish(o),
        None => match p.decoded {
            None => ParserActionModel::Decode(decode_task(s, test, t.external_variables, c)),
            Some(d) => match decoded_verdict(s, test, options, c, d) {
                Some(o) => ParserActionModel::Finish(o),
                None => match p.encoded {
                    None => ParserActionModel::Encode(d->Ok_0.value),
                    Some(b) => next_encoded(
                        s,
                        test,
                        write_back(s, test, options),
                        decode_task(s, test, t.external_variables, c).data,
                        b,
                        p.reread,
                    ),
                },
            },
        },
    }
}

/// What is to be done next for a test.
pub open spec fn next_action(
    s: TdmlSuiteModel,
    r: SchemaResolverModel,
    test: ParserTestCaseModel,
    options: ParserTestRunOptions,
    p: ParserProgressModel,
) -> ParserActionModel {
    if ignored(test.name) {
        ParserActionModel::Finish(TestOutcomeModel::Skip("ignored in Apache Daffodil TDML"@))
    } else {
        match common::compile_task(s, r, test.model, test.root, test.config) {
            Err(o) => ParserActionModel::Finish(o),
            Ok(task) => match p.compiled {
                None => ParserActionModel::Compile(task),
                Some(Err(e)) => ParserActionModel::Finish(
                    common::compile_verdict(test.expected_errors, e),
                ),
                Some(Ok(c)) => next_compiled(s, test, options, task.config, c, p),
            },
        }
    }
}

fn continue_compiled<'a>(
    s: &TdmlSuite,
    test: &ParserTestCase,
    options: ParserTestRunOptions,
    t: &TdmlConfig,
    c: &CompiledSchema,
    p: &'a ParserProgress,
) -> (r: ParserAction<'a>)
    ensures
        r@ == next_compiled(s@, test@, options, t@, c@, p@),
{
    let task = match plan_decode(s, test, t, c) {
        Ok(task) => task,
        Err(o) => {
            return ParserAction::Finish(o);
        },
    };
    let decoded = match &p.decoded {
        None => {
            return ParserAction::Decode(task);
        },
        Some(d) => d,
    };
    if let Some(o) = judge_decoded(s, test, options, c, decoded) {
        return ParserAction::Finish(o);
    }
    let how = plan_write_back(s, test, options);
    match (&p.encoded, decoded) {
        (None, Ok(d)) => ParserAction::Encode(&d.value),
        (None, Err(e)) => {
            assert(decoded_view(*decoded) is Err);
            ParserAction::Finish(TestOutcome::Fail(e.copy()))
        },
        (Some(b), _) => continue_encoded(s, test, how, &task.data, b, &p.reread),
    }
}

/// What is to be done next for a test whose value was written.
pub open spec fn next_encoded(
    s: TdmlSuiteModel,
    test: ParserTestCaseModel,
    how: WriteBack,
    data: Seq<u8>,
    encoded: Result<Seq<u8>, Seq<char>>,
    reread: Option<Result<DecodedValueModel, Seq<char>>>,
) -> ParserActionModel {
    match encoded_verdict(how, data, encoded) {
        Some(o) => ParserActionModel::Finish(o),
        None => match reread {
            None => ParserActionModel::DecodeAgain(encoded->Ok_0),
            Some(a) => ParserActionModel::Finish(reread_verdict(s, test, how, a)),
        },
    }
}

fn continue_encoded<'a>(
    s: &TdmlSuite,
    test: &ParserTestCase,
    how: WriteBack,
    data: &Vec<u8>,
    encoded: &'a Result<Vec<u8>, String>,
    reread: &Option<Result<DecodedValue, String>>,
) -> (r: ParserAction<'a>)
    ensures
        r@ == next_encoded(
            s@,
            test@,
            how,
            data@,
            encoding::bytes_outcome(*encoded),
            match *reread {
                Some(d) => Some(decoded_view(d)),
                None => None,
            },
        ),
{
    if let Some(o) = judge_encoded(how, data, encoded) {
        return ParserAction::Finish(o);
    }
    if let Some(a) = reread {
        return ParserAction::Finish(judge_reread(s, test, how, a));
    }
    match encoded {
        Ok(b) => ParserAction::DecodeAgain(b),
        Err(e) => {
            assert(encoding::bytes_outcome(*encoded) is Err);
            ParserAction::Finish(TestOutcome::Fail(e.copy()))
        },
    }
}

/// What is to be done next for a test that parses, by what was done so far, if
/// anything was.
fn continue_test<'a>(
    s: &TdmlSuite,
    resolver: &SchemaResolver,
    test: &ParserTestCase,
    options: ParserTestRunOptions,
    progress: Option<&'a ParserProgress>,
) -> (r: ParserAction<'a>)
    ensures
        r@ == next_action(
            s@,
            resolver@,
            test@,
            options,
            match progress {
                Some(p) => p@,
                None => nothing_done(),
            },
        ),
{
    if eq(test.name.as_str(), "multifile_choice_02b") {
        return ParserAction::Finish(TestOutcome::Skip(owned("ignored in Apache Daffodil TDML")));
    }
    let task = match plan_compile(
        s,
        resolver,
        test.model.as_str(),
        test.root.as_str(),
        &test.config,
    ) {
        Ok(task) => task,
        Err(o) => {
            return ParserAction::Finish(o);
        },
    };
    let p = match progress {
        Some(p) => p,
        None => {
            return ParserAction::Compile(task);
        },
    };
    match &p.compiled {
        None => ParserAction::Compile(task),
        Some(Err(e)) => ParserAction::Finish(judge_compile_error(&test.expected_errors, e.as_str())),
        Some(Ok(c)) => continue_compiled(s, test, options, &task.config, c, p),
    }
}

/// What is to be done next for a test that parses, by what was done so far.
pub fn run_parser_test_with_options<'a>(
    s: &TdmlSuite,
    resolver: &SchemaResolver,
    test: &ParserTestCase,
    options: ParserTestRunOptions,
    progress: &'a ParserProgress,
) -> (r: ParserAction<'a>)
    ensures
        r@ == next_action(s@, resolver@, test@, options, progress@),
{
    continue_test(s, resolver, test, options, Some(progress))
}

/// What is to be done next for a test that parses, with no options.
pub fn run_parser_test<'a>(
    s: &TdmlSuite,
    resolver: &SchemaResolver,
    test: &ParserTestCase,
    progress: &'a ParserProgress,
) -> (r: ParserAction<'a>)
    ensures
        r@ == next_action(s@, resolver@, test@, no_options(), progress@),
{
    run_parser_test_with_options(s, resolver, test, ParserTestRunOptions::default(), progress)
}

/// What is to be done next for the first `k` tests of a suite; for a test about
/// which nothing is known, nothing was done.
pub open spec fn suite_actions(
    s: TdmlSuiteModel,
    r: SchemaResolverModel,
    k: nat,
    progress: Seq<ParserProgressModel>,
) -> Seq<(Seq<char>, ParserActionModel)>
    decreases k,
{
    if k == 0 || k > s.tests.len() {
        Seq::empty()
    } else {
        suite_actions(s, r, (k - 1) as nat, progress).push(
            (
                s.tests[k - 1].name,
                next_action(
                    s,
                    r,
                    s.tests[k - 1],
                    no_options(),
                    if k - 1 < progress.len() {
                        progress[k - 1]
                    } else {
                        nothing_done()
                    },
                ),
            ),
        )
    }
}

/// What was done for each test.
pub open spec fn progress_models(v: Seq<ParserProgress>) -> Seq<ParserProgressModel> {
    v.map(|i: int, p: ParserProgress| p@)
}

/// What is to be done for each test, by name.
pub open spec fn action_models(v: Seq<(String, ParserAction<'_>)>) -> Seq<
    (Seq<char>, ParserActionModel),
> {
    v.map(|i: int, a: (String, ParserAction<'_>)| (a.0@, a.1@))
}

/// What is to be done next for each test of a suite that parses, by what was done
/// so far.
pub fn run_tests<'a>(
    s: &TdmlSuite,
    resolver: &SchemaResolver,
    progress: &'a Vec<ParserProgress>,
) -> (r: Vec<(String, ParserAction<'a>)>)
    ensures
        action_models(r@) == suite_actions(
            s@,
            resolver@,
            s@.tests.len(),
            progress_models(progress@),
        ),
{
    let ghost done = progress_models(progress@);
    let mut out: Vec<(String, ParserAction<'a>)> = Vec::new();
    let mut i: usize = 0;
    assert(action_models(out@) =~= Seq::empty());
    assert(s@.tests.len() == s.tests@.len());
    while i < s.tests.len()
        invariant
            i <= s.tests@.len(),
            s@.tests.len() == s.tests@.len(),
            done == progress_models(progress@),
            action_models(out@) == suite_actions(s@, resolver@, i as nat, done),
        decreases s.tests@.len() - i,
    {
        assert(s@.tests[i as int] == s.tests@[i as int]@);
        assert(done.len() == progress@.len());
        let p = if i < progress.len() {
            assert(done[i as int] == progress@[i as int]@);
            Some(&progress[i])
        } else {
            None
        };
        let options = ParserTestRunOptions::default();
        let a = continue_test(s, resolver, &s.tests[i], options, p);
        let name = s.tests[i].name.copy();
        let ghost before = out@;
        let ghost added = (name@, a@);
        out.push((name, a));
        assert(action_models(out@) =~= action_models(before).push(added));
        i += 1;
    }
    out
}

/// What is to be done for the tests of a suite, or why it is none.
pub open spec fn run_view(r: Result<Vec<(String, ParserAction<'_>)>, Error>) -> Result<
    Seq<(Seq<char>, ParserActionModel)>,
    ErrorModel,
> {
    match r {
        Ok(v) => Ok(action_models(v@)),
        Err(e) => Err(e@),
    }
}

/// What is to be done next for each test that parses in the text of a suite, by
/// what was done so far.
pub fn run_suite<'a>(
    tdml: &str,
    resolver: &SchemaResolver,
    progress: &'a Vec<ParserProgress>,
) -> (r: Result<Vec<(String, ParserAction<'a>)>, Error>)
    ensures
        run_view(r) == (match parser::suite_in(xml::xml_items(tdml@)) {
            Err(e) => Err(e),
            Ok(s) => Ok(suite_actions(s, resolver@, s.tests.len(), progress_models(progress@))),
        }),
{
    match parse_tdml(tdml) {
        Err(e) => Err(e),
        Ok(s) => Ok(run_tests(&s, resolver, progress)),
    }
}

/// With no options a value is never written again.
pub proof fn law_no_options_no_output(
    s: TdmlSuiteModel,
    r: SchemaResolverModel,
    test: ParserTestCaseModel,
    p: ParserProgressModel,
)
    ensures
        !(next_action(s, r, test, no_options(), p) is Encode),
        !(next_action(s, r, test, no_options(), p) is DecodeAgain),
{
}

/// Once everything was done, a test has come to something.
pub proof fn law_done_is_finished(
    s: TdmlSuiteModel,
    r: SchemaResolverModel,
    test: ParserTestCaseModel,
    options: ParserTestRunOptions,
    p: ParserProgressModel,
)
    requires
        p.compiled is Some,
        p.decoded is Some,
        p.encoded is Some,
        p.reread is Some,
    ensures
        next_action(s, r, test, options, p) is Finish,
{
}

/// What was done later does not change what was to be done before: a test that has
/// come to something stays there.
pub proof fn law_finished_stays(
    s: TdmlSuiteModel,
    r: SchemaResolverModel,
    test: ParserTestCaseModel,
    options: ParserTestRunOptions,
    p: ParserProgressModel,
    q: ParserProgressModel,
)
    requires
        next_action(s, r, test, options, p) is Finish,
        p.compiled is Some ==> q.compiled == p.compiled,
        p.decoded is Some ==> q.decoded == p.decoded,
        p.encoded is Some ==> q.encoded == p.encoded,
        p.reread is Some ==> q.reread == p.reread,
    ensures
        next_action(s, r, test, options, q) == next_action(s, r, test, options, p),
{
}

/// How the value of a test is validated: as the test says, else as its suite says.
pub open spec fn validated_how(s: TdmlSuiteModel, test: ParserTestCaseModel, mode: TdmlValidationMode) -> bool {
    test.validation == Some(mode) || (test.validation is None && s.default_validation == mode)
}

/// What validation finds wrong with a value that was read.
pub open spec fn found_invalid(
    c: CompiledSchemaModel,
    d: DecodedValueModel,
    mode: TdmlValidationMode,
) -> Seq<Seq<char>> {
    validation::value_messages(
        c.schema,
        c.program,
        d.value,
        d.details,
        mode == TdmlValidationMode::On,
    )
}

/// The value that was read is the one that the infoset of the test describes.
pub open spec fn described(
    s: TdmlSuiteModel,
    test: ParserTestCaseModel,
    d: DecodedValueModel,
) -> bool {
    infoset_values::infoset_mismatch(
        d.value,
        test.expected_infoset,
        d.equal_numbers,
        s.resource_context,
    ) is None
}

/// The document and the infoset of a test can be had, and the schema lets the
/// document be read.
pub open spec fn readable(
    s: TdmlSuiteModel,
    test: ParserTestCaseModel,
    t: DaffodilTunablesModel,
    c: CompiledSchemaModel,
) -> bool {
    &&& test.documents.len() > 0
    &&& common::document_bytes(test.documents[0], s.resource_context) is Ok
    &&& test.documents[0].load_error is None
    &&& infoset::infoset_xml(test.expected_infoset, s.resource_context) is Ok
    &&& c.parse_refusal is None
    &&& (t.escalate_warnings_to_errors ==> common::root_warnings(c.schema, test.root).len() == 0)
}

/// Validation that finds errors nobody expects lets a test fail: whatever else was
/// done, it does not pass.
pub proof fn law_unexpected_invalid_fails(
    s: TdmlSuiteModel,
    r: SchemaResolverModel,
    test: ParserTestCaseModel,
    options: ParserTestRunOptions,
    p: ParserProgressModel,
    c: CompiledSchemaModel,
    d: DecodedValueModel,
    mode: TdmlValidationMode,
)
    requires
        p.compiled == Some(Ok::<CompiledSchemaModel, Seq<char>>(c)),
        p.decoded == Some(Ok::<DecodedValueModel, Seq<char>>(d)),
        test.expected_errors is None,
        test.expected_validation_errors is None,
        validated_how(s, test, mode),
        mode != TdmlValidationMode::Off,
        found_invalid(c, d, mode).len() > 0,
        infoset::infoset_xml(test.expected_infoset, s.resource_context) is Ok,
    ensures
        next_action(s, r, test, options, p) is Finish,
        !(next_action(s, r, test, options, p)->Finish_0 is Pass),
        !ignored(test.name) && test.documents.len() > 0 ==> next_action(
            s,
            r,
            test,
            options,
            p,
        )->Finish_0 is Fail,
{
}

/// A test that expects no error passes only where the value that was read is the
/// one it describes, validation finds just what is expected, the warnings are as
/// expected, and what is written again is as asked for.
pub proof fn law_pass_is_earned(
    s: TdmlSuiteModel,
    r: SchemaResolverModel,
    test: ParserTestCaseModel,
    options: ParserTestRunOptions,
    p: ParserProgressModel,
    mode: TdmlValidationMode,
)
    requires
        next_action(s, r, test, options, p) == ParserActionModel::Finish(TestOutcomeModel::Pass),
        test.expected_errors is None,
        validated_how(s, test, mode),
        infoset::infoset_xml(test.expected_infoset, s.resource_context) is Ok,
    ensures
        !ignored(test.name),
        test.documents.len() > 0,
        p.compiled matches Some(Ok(c)) && p.decoded matches Some(Ok(d)) && {
            &&& c.parse_refusal is None
            &&& described(s, test, d)
            &&& (test.expected_validation_errors is None && mode != TdmlValidationMode::Off
                ==> found_invalid(c, d, mode).len() == 0)
            &&& (test.expected_validation_errors matches Some(e) ==> found_invalid(
                c,
                d,
                mode,
            ).len() > 0 && common::messages_match(
                e,
                text::joined(found_invalid(c, d, mode), "\n"@),
            ))
            &&& (test.expected_warnings matches Some(e) ==> common::messages_match(
                e,
                text::joined(common::root_warnings(c.schema, test.root), "\n"@),
            ))
        },
        options.verify_round_trip && suite::round_trip_of(test.round_trip, s.default_round_trip)
            == RoundTrip::OnePass ==> p.encoded == Some(
            common::document_bytes(test.documents[0], s.resource_context),
        ),
        options.verify_round_trip && suite::round_trip_of(test.round_trip, s.default_round_trip)
            == RoundTrip::TwoPass ==> p.encoded == Some(
            common::document_bytes(test.documents[0], s.resource_context),
        ) && (p.reread matches Some(Ok(d)) && described(s, test, d)),
        options.verify_canonical_round_trip && suite::round_trip_of(
            test.round_trip,
            s.default_round_trip,
        ) == RoundTrip::Disabled ==> (p.encoded matches Some(Ok(_))) && (p.reread matches Some(
            Ok(d),
        ) && described(s, test, d)),
{
}

/// A test that expects no error passes where the value that was read is the one it
/// describes, validation finds nothing, no warning is expected, and nothing is to
/// be written again.
pub proof fn law_agreement_passes(
    s: TdmlSuiteModel,
    r: SchemaResolverModel,
    test: ParserTestCaseModel,
    p: ParserProgressModel,
    task: CompileTaskModel,
    c: CompiledSchemaModel,
    d: DecodedValueModel,
    mode: TdmlValidationMode,
)
    requires
        !ignored(test.name),
        common::compile_task(s, r, test.model, test.root, test.config) == Ok::<
            CompileTaskModel,
            TestOutcomeModel,
        >(task),
        p.compiled == Some(Ok::<CompiledSchemaModel, Seq<char>>(c)),
        p.decoded == Some(Ok::<DecodedValueModel, Seq<char>>(d)),
        readable(s, test, task.config.tunables, c),
        test.expected_errors is None,
        validated_how(s, test, mode),
        described(s, test, d),
        test.expected_validation_errors is None,
        mode == TdmlValidationMode::Off || found_invalid(c, d, mode).len() == 0,
        test.expected_warnings is None,
    ensures
        next_action(s, r, test, no_options(), p) == ParserActionModel::Finish(
            TestOutcomeModel::Pass,
        ),
{
}

/// A test that expects an error does not pass where the schema compiles, the
/// document is read, and nothing is found wrong with the value.
pub proof fn law_error_must_come(
    s: TdmlSuiteModel,
    r: SchemaResolverModel,
    test: ParserTestCaseModel,
    options: ParserTestRunOptions,
    p: ParserProgressModel,
    task: CompileTaskModel,
    c: CompiledSchemaModel,
    d: DecodedValueModel,
    mode: TdmlValidationMode,
)
    requires
        !ignored(test.name),
        common::compile_task(s, r, test.model, test.root, test.config) == Ok::<
            CompileTaskModel,
            TestOutcomeModel,
        >(task),
        test.expected_errors is Some,
        p.compiled == Some(Ok::<CompiledSchemaModel, Seq<char>>(c)),
        p.decoded == Some(Ok::<DecodedValueModel, Seq<char>>(d)),
        readable(s, test, task.config.tunables, c),
        c.entity_limit is None,
        validated_how(s, test, mode),
        d.raw_errors.len() == 0,
        found_invalid(c, d, mode).len() == 0,
    ensures
        next_action(s, r, test, options, p) is Finish,
        next_action(s, r, test, options, p)->Finish_0 is Fail,
{
}

/// An error while the document is read decides a test: one that expects no error
/// fails, and one that expects errors passes just where all of them are there.
pub proof fn law_decode_error_decides(
    s: TdmlSuiteModel,
    r: SchemaResolverModel,
    test: ParserTestCaseModel,
    options: ParserTestRunOptions,
    p: ParserProgressModel,
    task: CompileTaskModel,
    c: CompiledSchemaModel,
    message: Seq<char>,
)
    requires
        !ignored(test.name),
        common::compile_task(s, r, test.model, test.root, test.config) == Ok::<
            CompileTaskModel,
            TestOutcomeModel,
        >(task),
        p.compiled == Some(Ok::<CompiledSchemaModel, Seq<char>>(c)),
        p.decoded == Some(Err::<DecodedValueModel, Seq<char>>(message)),
        readable(s, test, task.config.tunables, c),
        c.entity_limit is None,
    ensures
        next_action(s, r, test, options, p) is Finish,
        test.expected_errors is None ==> next_action(s, r, test, options, p)->Finish_0 is Fail,
        test.expected_errors matches Some(e) ==> (next_action(
            s,
            r,
            test,
            options,
            p,
        )->Finish_0 is Pass <==> common::messages_match(e, message)),
        !(next_action(s, r, test, options, p)->Finish_0 is Skip),
{
}

/// An error of the compiler decides a test in the same way.
pub proof fn law_compile_error_decides(
    s: TdmlSuiteModel,
    r: SchemaResolverModel,
    test: ParserTestCaseModel,
    options: ParserTestRunOptions,
    p: ParserProgressModel,
    message: Seq<char>,
)
    requires
        !ignored(test.name),
        common::compile_task(s, r, test.model, test.root, test.config) is Ok,
        p.compiled == Some(Err::<CompiledSchemaModel, Seq<char>>(message)),
    ensures
        next_action(s, r, test, options, p) is Finish,
        test.expected_errors is None ==> next_action(s, r, test, options, p)->Finish_0 is Fail,
        test.expected_errors matches Some(e) ==> (next_action(
            s,
            r,
            test,
            options,
            p,
        )->Finish_0 is Pass <==> common::messages_match(e, message)),
        !(next_action(s, r, test, options, p)->Finish_0 is Skip),
{
}

/// What is read for a test is its first document, in full and in its own order of
/// bits where it states one; facets are checked unless validation is off.
pub proof fn law_document_is_read(
    s: TdmlSuiteModel,
    r: SchemaResolverModel,
    test: ParserTestCaseModel,
    options: ParserTestRunOptions,
    p: ParserProgressModel,
    mode: TdmlValidationMode,
)
    requires
        next_action(s, r, test, options, p) is Decode,
        test.documents.len() > 0,
        validated_how(s, test, mode),
    ensures
        ({
            let t = next_action(s, r, test, options, p)->Decode_0;
            let d = test.documents[0];
            &&& (d.file_resource is None ==> t.data == d.data)
            &&& Ok::<Seq<u8>, Seq<char>>(t.data) == common::document_bytes(d, s.resource_context)
            &&& t.strict_end
            &&& (t.check_facets <==> mode != TdmlValidationMode::Off)
            &&& (d.document_transmission_bit_order matches Some(o) ==> t.bit_order == o)
            &&& (d.document_transmission_bit_order is None ==> (p.compiled matches Some(Ok(c))
                && t.bit_order == c.format_bit_order))
            &&& (t.regions matches Some(l) ==> l == d.part_bit_order_regions)
            &&& (t.regions is None ==> d.part_bit_order_regions.len() == 0)
            &&& (t.frame_bits is Some <==> d.kind == DocumentKind::Bits)
            &&& (t.frame_bits is Some && d.last_byte_bit_count is None ==> t.frame_bits->0 == 8
                * d.data.len())
            &&& (t.frame_bits is Some && d.last_byte_bit_count is Some && d.last_byte_bit_count->0
                > 0 && d.data.len() > 0 ==> t.frame_bits->0 == 8 * (d.data.len() - 1)
                + d.last_byte_bit_count->0)
        }),
{
}

} // verus!
