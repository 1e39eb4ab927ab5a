//! The contents of a TDML test suite.

use vstd::prelude::*;
use crate::ast::BitOrder;
use crate::strmap::StrMap;
use crate::values::Duplicate;

verus! {

/// How far a test checks a parsed value against the schema.
#[derive(Debug, Clone, Copy, PartialEq, Eq, Structural)]
pub enum TdmlValidationMode {
    Off,
    Limited,
    On,
}

impl DeepView for TdmlValidationMode {
    type V = TdmlValidationMode;

    open spec fn deep_view(&self) -> TdmlValidationMode {
        *self
    }
}

impl Duplicate for TdmlValidationMode {
    fn copy(&self) -> (r: Self) {
        *self
    }
}

/// Whether a parsed value is written again and compared; a test may leave that to
/// its suite.
#[derive(Debug, Clone, Copy, PartialEq, Eq, Structural)]
pub enum RoundTrip {
    Inherit,
    Disabled,
    OnePass,
    TwoPass,
}

impl DeepView for RoundTrip {
    type V = RoundTrip;

    open spec fn deep_view(&self) -> RoundTrip {
        *self
    }
}

impl Duplicate for RoundTrip {
    fn copy(&self) -> (r: Self) {
        *self
    }
}

/// How a document is written.
#[derive(Debug, Clone, Copy, PartialEq, Eq, Structural)]
pub enum DocumentKind {
    Text,
    Hex,
    Bits,
}

impl DeepView for DocumentKind {
    type V = DocumentKind;

    open spec fn deep_view(&self) -> DocumentKind {
        *self
    }
}

impl Duplicate for DocumentKind {
    fn copy(&self) -> (r: Self) {
        *self
    }
}

/// The namespace of a path step without a prefix.
#[derive(Debug, Clone, Copy, PartialEq, Eq, Structural)]
pub enum UnqualifiedPathStepPolicy {
    NoNamespace,
    PreferDefaultNamespace,
    DefaultNamespace,
}

impl DeepView for UnqualifiedPathStepPolicy {
    type V = UnqualifiedPathStepPolicy;

    open spec fn deep_view(&self) -> UnqualifiedPathStepPolicy {
        *self
    }
}

impl Duplicate for UnqualifiedPathStepPolicy {
    fn copy(&self) -> (r: Self) {
        *self
    }
}

/// What happens to a restriction that does not fit its type.
#[derive(Debug, Clone, Copy, PartialEq, Eq, Structural)]
pub enum InvalidRestrictionPolicy {
    Ignore,
    Validate,
    Error,
}

impl DeepView for InvalidRestrictionPolicy {
    type V = InvalidRestrictionPolicy;

    open spec fn deep_view(&self) -> InvalidRestrictionPolicy {
        *self
    }
}

impl Duplicate for InvalidRestrictionPolicy {
    fn copy(&self) -> (r: Self) {
        *self
    }
}

/// Settings that a configuration may change.
#[derive(Debug)]
pub struct DaffodilTunables {
    pub allow_signed_integer_length1_bit: bool,
    pub unqualified_path_step_policy: UnqualifiedPathStepPolicy,
    pub max_occurs_bounds: Option<u64>,
    pub require_text_bidi_property: Option<bool>,
    pub require_floating_property: Option<bool>,
    pub require_encoding_error_policy: Option<bool>,
    pub max_hex_binary_length_in_bytes: Option<u64>,
    pub invalid_restriction_policy: InvalidRestrictionPolicy,
    pub escalate_warnings_to_errors: bool,
}

/// What a [`DaffodilTunables`] holds, its text as character sequences.
#[verifier::ext_equal]
pub struct DaffodilTunablesModel {
    pub allow_signed_integer_length1_bit: bool,
    pub unqualified_path_step_policy: UnqualifiedPathStepPolicy,
    pub max_occurs_bounds: Option<u64>,
    pub require_text_bidi_property: Option<bool>,
    pub require_floating_property: Option<bool>,
    pub require_encoding_error_policy: Option<bool>,
    pub max_hex_binary_length_in_bytes: Option<u64>,
    pub invalid_restriction_policy: InvalidRestrictionPolicy,
    pub escalate_warnings_to_errors: bool,
}

impl DeepView for DaffodilTunables {
    type V = DaffodilTunablesModel;

    open spec fn deep_view(&self) -> DaffodilTunablesModel {
        DaffodilTunablesModel {
            allow_signed_integer_length1_bit: self.allow_signed_integer_length1_bit,
            unqualified_path_step_policy: self.unqualified_path_step_policy,
            max_occurs_bounds: self.max_occurs_bounds,
            require_text_bidi_property: self.require_text_bidi_property,
            require_floating_property: self.require_floating_property,
            require_encoding_error_policy: self.require_encoding_error_policy,
            max_hex_binary_length_in_bytes: self.max_hex_binary_length_in_bytes,
            invalid_restriction_policy: self.invalid_restriction_policy,
            escalate_warnings_to_errors: self.escalate_warnings_to_errors,
        }
    }
}

impl View for DaffodilTunables {
    type V = DaffodilTunablesModel;

    open spec fn view(&self) -> DaffodilTunablesModel {
        self.deep_view()
    }
}

impl Duplicate for DaffodilTunables {
    fn copy(&self) -> (r: Self) {
        DaffodilTunables {
            allow_signed_integer_length1_bit: self.allow_signed_integer_length1_bit,
            unqualified_path_step_policy: self.unqualified_path_step_policy,
            max_occurs_bounds: self.max_occurs_bounds,
            require_text_bidi_property: self.require_text_bidi_property,
            require_floating_property: self.require_floating_property,
            require_encoding_error_policy: self.require_encoding_error_policy,
            max_hex_binary_length_in_bytes: self.max_hex_binary_length_in_bytes,
            invalid_restriction_policy: self.invalid_restriction_policy,
            escalate_warnings_to_errors: self.escalate_warnings_to_errors,
        }
    }
}

/// A named configuration: settings, and values of variables.
#[derive(Debug)]
pub struct TdmlConfig {
    pub tunables: DaffodilTunables,
    pub external_variables: StrMap<String>,
}

/// What a [`TdmlConfig`] holds, its text as character sequences.
#[verifier::ext_equal]
pub struct TdmlConfigModel {
    pub tunables: DaffodilTunablesModel,
    pub external_variables: Seq<(Seq<char>, Seq<char>)>,
}

impl DeepView for TdmlConfig {
    type V = TdmlConfigModel;

    open spec fn deep_view(&self) -> TdmlConfigModel {
        TdmlConfigModel {
            tunables: self.tunables.deep_view(),
            external_variables: self.external_variables.deep_view(),
        }
    }
}

impl View for TdmlConfig {
    type V = TdmlConfigModel;

    open spec fn view(&self) -> TdmlConfigModel {
        self.deep_view()
    }
}

impl Duplicate for TdmlConfig {
    fn copy(&self) -> (r: Self) {
        TdmlConfig {
            tunables: self.tunables.copy(),
            external_variables: self.external_variables.copy(),
        }
    }
}

/// Where a suite was loaded from, and the files that its tests can use.
#[derive(Debug)]
pub struct TdmlResourceContext {
    /// The directory of the suite, for files named relative to it.
    pub tdml_dir: Option<String>,
    /// The path of the suite among the resources, for messages.
    pub tdml_resource_path: Option<String>,
    /// The directory of the resources.
    pub resource_root: String,
    /// The bytes of the files that can be had, by path.
    pub files: StrMap<Vec<u8>>,
}

/// What a [`TdmlResourceContext`] holds, its text as character sequences.
#[verifier::ext_equal]
pub struct TdmlResourceContextModel {
    pub tdml_dir: Option<Seq<char>>,
    pub tdml_resource_path: Option<Seq<char>>,
    pub resource_root: Seq<char>,
    pub files: Seq<(Seq<char>, Seq<u8>)>,
}

impl DeepView for TdmlResourceContext {
    type V = TdmlResourceContextModel;

    open spec fn deep_view(&self) -> TdmlResourceContextModel {
        TdmlResourceContextModel {
            tdml_dir: self.tdml_dir.deep_view(),
            tdml_resource_path: self.tdml_resource_path.deep_view(),
            resource_root: self.resource_root.deep_view(),
            files: self.files.deep_view(),
        }
    }
}

impl View for TdmlResourceContext {
    type V = TdmlResourceContextModel;

    open spec fn view(&self) -> TdmlResourceContextModel {
        self.deep_view()
    }
}

impl Duplicate for TdmlResourceContext {
    fn copy(&self) -> (r: Self) {
        TdmlResourceContext {
            tdml_dir: self.tdml_dir.copy(),
            tdml_resource_path: self.tdml_resource_path.copy(),
            resource_root: self.resource_root.copy(),
            files: self.files.copy(),
        }
    }
}

/// A schema that a suite defines.
#[derive(Debug)]
pub struct TdmlSchema {
    pub name: String,
    pub xsd: String,
    /// The directory for schemas named relative to this one.
    pub compile_base_dir: Option<String>,
}

/// What a [`TdmlSchema`] holds, its text as character sequences.
#[verifier::ext_equal]
pub struct TdmlSchemaModel {
    pub name: Seq<char>,
    pub xsd: Seq<char>,
    pub compile_base_dir: Option<Seq<char>>,
}

impl DeepView for TdmlSchema {
    type V = TdmlSchemaModel;

    open spec fn deep_view(&self) -> TdmlSchemaModel {
        TdmlSchemaModel {
            name: self.name.deep_view(),
            xsd: self.xsd.deep_view(),
            compile_base_dir: self.compile_base_dir.deep_view(),
        }
    }
}

impl View for TdmlSchema {
    type V = TdmlSchemaModel;

    open spec fn view(&self) -> TdmlSchemaModel {
        self.deep_view()
    }
}

impl Duplicate for TdmlSchema {
    fn copy(&self) -> (r: Self) {
        TdmlSchema {
            name: self.name.copy(),
            xsd: self.xsd.copy(),
            compile_base_dir: self.compile_base_dir.copy(),
        }
    }
}

/// A document of a test.
#[derive(Debug)]
pub struct TdmlDocument {
    pub kind: DocumentKind,
    pub data: Vec<u8>,
    /// A file that holds the bytes.
    pub file_resource: Option<String>,
    /// How many bits of the last byte count where not all do.
    pub last_byte_bit_count: Option<u8>,
    /// How the bits stand in `data`.
    pub transmission_bit_order: BitOrder,
    /// The order of bits that the document states.
    pub document_transmission_bit_order: Option<BitOrder>,
    /// Text follows bits in the document.
    pub mixed_bits_text_document: bool,
    /// The order of bits and the length in bits of each part.
    pub part_bit_order_regions: Vec<(BitOrder, u64)>,
    /// Why the parts do not make a document.
    pub load_error: Option<String>,
}

/// What a [`TdmlDocument`] holds, its text as character sequences.
#[verifier::ext_equal]
pub struct TdmlDocumentModel {
    pub kind: DocumentKind,
    pub data: Seq<u8>,
    pub file_resource: Option<Seq<char>>,
    pub last_byte_bit_count: Option<u8>,
    pub transmission_bit_order: BitOrder,
    pub document_transmission_bit_order: Option<BitOrder>,
    pub mixed_bits_text_document: bool,
    pub part_bit_order_regions: Seq<(BitOrder, u64)>,
    pub load_error: Option<Seq<char>>,
}

impl DeepView for TdmlDocument {
    type V = TdmlDocumentModel;

    open spec fn deep_view(&self) -> TdmlDocumentModel {
        TdmlDocumentModel {
            kind: self.kind,
            data: self.data.deep_view(),
            file_resource: self.file_resource.deep_view(),
            last_byte_bit_count: self.last_byte_bit_count,
            transmission_bit_order: self.transmission_bit_order,
            document_transmission_bit_order: self.document_transmission_bit_order,
            mixed_bits_text_document: self.mixed_bits_text_document,
            part_bit_order_regions: self.part_bit_order_regions.deep_view(),
            load_error: self.load_error.deep_view(),
        }
    }
}

impl View for TdmlDocument {
    type V = TdmlDocumentModel;

    open spec fn view(&self) -> TdmlDocumentModel {
        self.deep_view()
    }
}

impl Duplicate for TdmlDocument {
    fn copy(&self) -> (r: Self) {
        TdmlDocument {
            kind: self.kind,
            data: self.data.copy(),
            file_resource: self.file_resource.copy(),
            last_byte_bit_count: self.last_byte_bit_count,
            transmission_bit_order: self.transmission_bit_order,
            document_transmission_bit_order: self.document_transmission_bit_order,
            mixed_bits_text_document: self.mixed_bits_text_document,
            part_bit_order_regions: self.part_bit_order_regions.copy(),
            load_error: self.load_error.copy(),
        }
    }
}

/// A test that parses.
#[derive(Debug)]
pub struct ParserTestCase {
    pub name: String,
    pub root: String,
    pub model: String,
    pub documents: Vec<TdmlDocument>,
    pub expected_infoset: String,
    /// The test must fail, and its error must hold each of these.
    pub expected_errors: Option<Vec<String>>,
    /// Parsing must succeed and validation fail with each of these.
    pub expected_validation_errors: Option<Vec<String>>,
    /// Parsing must succeed with a warning that holds each of these.
    pub expected_warnings: Option<Vec<String>>,
    pub config: Option<String>,
    pub round_trip: RoundTrip,
    pub validation: Option<TdmlValidationMode>,
}

/// What a [`ParserTestCase`] holds, its text as character sequences.
#[verifier::ext_equal]
pub struct ParserTestCaseModel {
    pub name: Seq<char>,
    pub root: Seq<char>,
    pub model: Seq<char>,
    pub documents: Seq<TdmlDocumentModel>,
    pub expected_infoset: Seq<char>,
    pub expected_errors: Option<Seq<Seq<char>>>,
    pub expected_validation_errors: Option<Seq<Seq<char>>>,
    pub expected_warnings: Option<Seq<Seq<char>>>,
    pub config: Option<Seq<char>>,
    pub round_trip: RoundTrip,
    pub validation: Option<TdmlValidationMode>,
}

impl DeepView for ParserTestCase {
    type V = ParserTestCaseModel;

    open spec fn deep_view(&self) -> ParserTestCaseModel {
        ParserTestCaseModel {
            name: self.name.deep_view(),
            root: self.root.deep_view(),
            model: self.model.deep_view(),
            documents: self.documents.deep_view(),
            expected_infoset: self.expected_infoset.deep_view(),
            expected_errors: self.expected_errors.deep_view(),
            expected_validation_errors: self.expected_validation_errors.deep_view(),
            expected_warnings: self.expected_warnings.deep_view(),
            config: self.config.deep_view(),
            round_trip: self.round_trip,
            validation: self.validation,
        }
    }
}

impl View for ParserTestCase {
    type V = ParserTestCaseModel;

    open spec fn view(&self) -> ParserTestCaseModel {
        self.deep_view()
    }
}

impl Duplicate for ParserTestCase {
    fn copy(&self) -> (r: Self) {
        ParserTestCase {
            name: self.name.copy(),
            root: self.root.copy(),
            model: self.model.copy(),
            documents: self.documents.copy(),
            expected_infoset: self.expected_infoset.copy(),
            expected_errors: self.expected_errors.copy(),
            expected_validation_errors: self.expected_validation_errors.copy(),
            expected_warnings: self.expected_warnings.copy(),
            config: self.config.copy(),
            round_trip: self.round_trip,
            validation: self.validation,
        }
    }
}

/// A test that unparses.
#[derive(Debug)]
pub struct UnparserTestCase {
    pub name: String,
    pub root: String,
    pub model: String,
    pub infoset: String,
    /// The test must fail, and its error must hold each of these.
    pub expected_errors: Option<Vec<String>>,
    pub config: Option<String>,
    pub documents: Vec<TdmlDocument>,
}

/// What a [`UnparserTestCase`] holds, its text as character sequences.
#[verifier::ext_equal]
pub struct UnparserTestCaseModel {
    pub name: Seq<char>,
    pub root: Seq<char>,
    pub model: Seq<char>,
    pub infoset: Seq<char>,
    pub expected_errors: Option<Seq<Seq<char>>>,
    pub config: Option<Seq<char>>,
    pub documents: Seq<TdmlDocumentModel>,
}

impl DeepView for UnparserTestCase {
    type V = UnparserTestCaseModel;

    open spec fn deep_view(&self) -> UnparserTestCaseModel {
        UnparserTestCaseModel {
            name: self.name.deep_view(),
            root: self.root.deep_view(),
            model: self.model.deep_view(),
            infoset: self.infoset.deep_view(),
            expected_errors: self.expected_errors.deep_view(),
            config: self.config.deep_view(),
            documents: self.documents.deep_view(),
        }
    }
}

impl View for UnparserTestCase {
    type V = UnparserTestCaseModel;

    open spec fn view(&self) -> UnparserTestCaseModel {
        self.deep_view()
    }
}

impl Duplicate for UnparserTestCase {
    fn copy(&self) -> (r: Self) {
        UnparserTestCase {
            name: self.name.copy(),
            root: self.root.copy(),
            model: self.model.copy(),
            infoset: self.infoset.copy(),
            expected_errors: self.expected_errors.copy(),
            config: self.config.copy(),
            documents: self.documents.copy(),
        }
    }
}

/// A test suite.
#[derive(Debug)]
pub struct TdmlSuite {
    pub name: String,
    pub schemas: StrMap<TdmlSchema>,
    pub configs: StrMap<TdmlConfig>,
    pub tests: Vec<ParserTestCase>,
    pub unparser_tests: Vec<UnparserTestCase>,
    pub default_round_trip: RoundTrip,
    pub default_validation: TdmlValidationMode,
    pub resource_context: TdmlResourceContext,
}

/// What a [`TdmlSuite`] holds, its text as character sequences.
#[verifier::ext_equal]
pub struct TdmlSuiteModel {
    pub name: Seq<char>,
    pub schemas: Seq<(Seq<char>, TdmlSchemaModel)>,
    pub configs: Seq<(Seq<char>, TdmlConfigModel)>,
    pub tests: Seq<ParserTestCaseModel>,
    pub unparser_tests: Seq<UnparserTestCaseModel>,
    pub default_round_trip: RoundTrip,
    pub default_validation: TdmlValidationMode,
    pub resource_context: TdmlResourceContextModel,
}

impl DeepView for TdmlSuite {
    type V = TdmlSuiteModel;

    open spec fn deep_view(&self) -> TdmlSuiteModel {
        TdmlSuiteModel {
            name: self.name.deep_view(),
            schemas: self.schemas.deep_view(),
            configs: self.configs.deep_view(),
            tests: self.tests.deep_view(),
            unparser_tests: self.unparser_tests.deep_view(),
            default_round_trip: self.default_round_trip,
            default_validation: self.default_validation,
            resource_context: self.resource_context.deep_view(),
        }
    }
}

impl View for TdmlSuite {
    type V = TdmlSuiteModel;

    open spec fn view(&self) -> TdmlSuiteModel {
        self.deep_view()
    }
}

impl Duplicate for TdmlSuite {
    fn copy(&self) -> (r: Self) {
        TdmlSuite {
            name: self.name.copy(),
            schemas: self.schemas.copy(),
            configs: self.configs.copy(),
            tests: self.tests.copy(),
            unparser_tests: self.unparser_tests.copy(),
            default_round_trip: self.default_round_trip,
            default_validation: self.default_validation,
            resource_context: self.resource_context.copy(),
        }
    }
}

/// The settings where no configuration changes them.
pub open spec fn default_tunables() -> DaffodilTunablesModel {
    DaffodilTunablesModel {
        allow_signed_integer_length1_bit: true,
        unqualified_path_step_policy: UnqualifiedPathStepPolicy::DefaultNamespace,
        max_occurs_bounds: None,
        require_text_bidi_property: None,
        require_floating_property: None,
        require_encoding_error_policy: None,
        max_hex_binary_length_in_bytes: None,
        invalid_restriction_policy: InvalidRestrictionPolicy::Error,
        escalate_warnings_to_errors: false,
    }
}

impl Default for DaffodilTunables {
    fn default() -> (r: Self)
        ensures
            r@ == default_tunables(),
    {
        DaffodilTunables {
            allow_signed_integer_length1_bit: true,
            unqualified_path_step_policy: UnqualifiedPathStepPolicy::DefaultNamespace,
            max_occurs_bounds: None,
            require_text_bidi_property: None,
            require_floating_property: None,
            require_encoding_error_policy: None,
            max_hex_binary_length_in_bytes: None,
            invalid_restriction_policy: InvalidRestrictionPolicy::Error,
            escalate_warnings_to_errors: false,
        }
    }
}

/// A configuration that changes nothing.
pub open spec fn default_config() -> TdmlConfigModel {
    TdmlConfigModel { tunables: default_tunables(), external_variables: Seq::empty() }
}

impl Default for TdmlConfig {
    fn default() -> (r: Self)
        ensures
            r@ == default_config(),
    {
        let r = TdmlConfig {
            tunables: DaffodilTunables::default(),
            external_variables: StrMap::new(),
        };
        assert(r@ =~= default_config());
        r
    }
}

/// A suite that was not loaded from anywhere.
pub open spec fn no_resources() -> TdmlResourceContextModel {
    TdmlResourceContextModel {
        tdml_dir: None,
        tdml_resource_path: None,
        resource_root: Seq::empty(),
        files: Seq::empty(),
    }
}

impl Default for TdmlResourceContext {
    fn default() -> (r: Self)
        ensures
            r@ == no_resources(),
    {
        let r = TdmlResourceContext {
            tdml_dir: None,
            tdml_resource_path: None,
            resource_root: String::new(),
            files: StrMap::new(),
        };
        assert(r@ =~= no_resources());
        r
    }
}

/// How many bits of a document count, where it is made of bits.
pub open spec fn significant_bits(d: TdmlDocumentModel) -> Option<nat> {
    if d.kind != DocumentKind::Bits {
        None
    } else if d.data.len() == 0 {
        Some(0)
    } else {
        match d.last_byte_bit_count {
            None | Some(0u8) => Some(8 * d.data.len()),
            Some(n) => Some((8 * (d.data.len() - 1) + n) as nat),
        }
    }
}

impl TdmlDocument {
    /// How many bits of a document count, where it is made of bits.
    pub fn significant_bit_length(&self) -> (r: Option<usize>)
        requires
            8 * self.data@.len() + 255 <= usize::MAX,
        ensures
            match r {
                Some(n) => significant_bits(self@) == Some(n as nat),
                None => significant_bits(self@) is None,
            },
    {
        assert(self@.data.len() == self.data@.len());
        if self.kind != DocumentKind::Bits {
            return None;
        }
        if self.data.len() == 0 {
            return Some(0);
        }
        let trailing: u8 = match self.last_byte_bit_count {
            Some(n) => n,
            None => 0,
        };
        if trailing == 0 {
            return Some(self.data.len() * 8);
        }
        Some((self.data.len() - 1) * 8 + trailing as usize)
    }
}

/// The round trip of a test, its suite's where it has none of its own.
pub open spec fn round_trip_of(test: RoundTrip, suite: RoundTrip) -> RoundTrip {
    if test != RoundTrip::Inherit {
        test
    } else if suite != RoundTrip::Inherit {
        suite
    } else {
        RoundTrip::Disabled
    }
}

/// The round trip of a test, its suite's where it has none of its own.
pub fn effective_round_trip(test: RoundTrip, suite_default: RoundTrip) -> (r: RoundTrip)
    ensures
        r == round_trip_of(test, suite_default),
{
    if test != RoundTrip::Inherit {
        return test;
    }
    if suite_default != RoundTrip::Inherit {
        return suite_default;
    }
    RoundTrip::Disabled
}

/// What is settled is never left to another, and settling it again changes nothing.
pub proof fn law_round_trip_settled(test: RoundTrip, suite: RoundTrip, other: RoundTrip)
    ensures
        round_trip_of(test, suite) != RoundTrip::Inherit,
        round_trip_of(round_trip_of(test, suite), other) == round_trip_of(test, suite),
{
}

/// The validation of a test, its suite's where it has none of its own.
pub open spec fn validation_of(
    test: ParserTestCaseModel,
    suite: TdmlSuiteModel,
) -> TdmlValidationMode {
    match test.validation {
        Some(mode) => mode,
        None => suite.default_validation,
    }
}

/// The validation of a test, its suite's where it has none of its own.
pub fn effective_validation(test: &ParserTestCase, suite: &TdmlSuite) -> (r: TdmlValidationMode)
    ensures
        r == validation_of(test@, suite@),
{
    match test.validation {
        Some(mode) => mode,
        None => suite.default_validation,
    }
}

} // verus!
