//! What tests that parse and tests that unparse have in common.

use vstd::prelude::*;
use crate::ast::{BitOrder, SchemaDocument, SchemaDocumentModel};
use crate::encoding;
use crate::error;
use crate::error::{cat2, cat3, cat4, Error, ErrorModel};
use crate::numbers;
use crate::numbers::decimal_chars;
use crate::program::{IrProgram, IrProgramModel};
use crate::qname;
use crate::qname::to_lowercase;
use crate::resolver;
use crate::resolver::{SchemaResolver, SchemaResolverModel};
use crate::strmap;
use crate::tdml::parser::parse_external_config_xml;
use crate::tdml::parser;
use crate::tdml::resources;
use crate::tdml::resources::{load_tdml_resource, load_tdml_resource_string};
use crate::tdml::suite;
use crate::tdml::suite::{
    TdmlConfig, TdmlConfigModel, TdmlDocument, TdmlDocumentModel, TdmlResourceContext,
    TdmlResourceContextModel, TdmlSuite, TdmlSuiteModel,
};
use crate::text;
use crate::text::{chars_of, contains, ends_with, is, join, replace, starts_with, string_of, trim};
use crate::values::{owned, Duplicate};
use crate::validate::compiled;
use crate::validate::compiled::validate_compiled_schema;
use crate::xml;
use crate::xsd::document;
use crate::xsd::document::parse_schema_with_resolver_and_label;

verus! {

broadcast use vstd::string::group_string_axioms;

/// What a test comes to.
#[derive(Debug)]
pub enum TestOutcome {
    Pass,
    Fail(String),
    Skip(String),
}

/// What a [`TestOutcome`] holds, its text as character sequences.
#[verifier::ext_equal]
pub enum TestOutcomeModel {
    Pass,
    Fail(Seq<char>),
    Skip(Seq<char>),
}

impl View for TestOutcome {
    type V = TestOutcomeModel;

    open spec fn view(&self) -> TestOutcomeModel {
        match self {
            TestOutcome::Pass => TestOutcomeModel::Pass,
            TestOutcome::Fail(m) => TestOutcomeModel::Fail(m@),
            TestOutcome::Skip(m) => TestOutcomeModel::Skip(m@),
        }
    }
}

/// A test by name, and what it comes to.
#[derive(Debug)]
pub struct TestResult {
    pub name: String,
    pub outcome: TestOutcome,
}

/// What compiling a schema gives, and what the compiler says of its root.
#[derive(Debug)]
pub struct CompiledSchema {
    pub schema: SchemaDocument,
    pub program: IrProgram,
    /// Why the root cannot be parsed.
    pub parse_refusal: Option<String>,
    /// Why the root cannot be unparsed.
    pub unparse_refusal: Option<String>,
    /// Why the entities of the namespace are too many.
    pub entity_limit: Option<String>,
    /// The order of bits that the format of the schema states.
    pub format_bit_order: BitOrder,
}

/// What a [`CompiledSchema`] holds, its text as character sequences.
#[verifier::ext_equal]
pub struct CompiledSchemaModel {
    pub schema: SchemaDocumentModel,
    pub program: IrProgramModel,
    pub parse_refusal: Option<Seq<char>>,
    pub unparse_refusal: Option<Seq<char>>,
    pub entity_limit: Option<Seq<char>>,
    pub format_bit_order: BitOrder,
}

impl View for CompiledSchema {
    type V = CompiledSchemaModel;

    open spec fn view(&self) -> CompiledSchemaModel {
        CompiledSchemaModel {
            schema: self.schema@,
            program: self.program@,
            parse_refusal: self.parse_refusal.deep_view(),
            unparse_refusal: self.unparse_refusal.deep_view(),
            entity_limit: self.entity_limit.deep_view(),
            format_bit_order: self.format_bit_order,
        }
    }
}

// Messages.
/// A text with line ends and tabs spelled out.
pub open spec fn spelled_out(s: Seq<char>) -> Seq<char> {
    text::replace_spec(
        text::replace_spec(text::replace_spec(s, "\n"@, "%NL;"@), "\r"@, "%CR;"@),
        "\t"@,
        "%HT;"@,
    )
}

/// A text as messages are compared: line ends and tabs spelled out, letters small.
pub open spec fn normalized(s: Seq<char>) -> Seq<char> {
    qname::lowercase(spelled_out(s))
}

/// A text as messages are compared.
pub fn normalize_error_text(s: &str) -> (r: String)
    ensures
        r@ == normalized(s@),
{
    proof {
        reveal_strlit("\n");
        reveal_strlit("\r");
        reveal_strlit("\t");
    }
    let c = chars_of(s);
    let a = replace(c.as_slice(), "\n", "%NL;");
    let b = replace(a.as_slice(), "\r", "%CR;");
    let d = replace(b.as_slice(), "\t", "%HT;");
    let t = string_of(d.as_slice());
    to_lowercase(t.as_str())
}

/// Whether a part of a message need not stand in it: general words, and places.
pub open spec fn dispensable(f: Seq<char>) -> bool {
    f == "schema definition error"@ || f == "runtime schema definition error"@ || f
        == "parse error"@ || f == "unparse error"@ || f == "placeholder"@ || text::has_prefix(
        f,
        "line "@,
    ) || text::has_prefix(f, "column "@) || text::has_suffix(f, ".xsd"@) || text::has_suffix(
        f,
        ".xml"@,
    )
}

/// Whether a part of a message and a message, both normalized, go together.
pub open spec fn goes_with(f: Seq<char>, message: Seq<char>) -> bool {
    dispensable(f) || (text::has_prefix(f, "found only"@) && text::contains_spec(
        message,
        "found only"@,
    )) || (text::has_prefix(f, "needed "@) && text::contains_spec(message, "needed "@)) || ((f
        == "long"@ || f == "int"@ || f == "integer"@) && (text::contains_spec(message, "int"@)
        || text::contains_spec(message, "long"@) || text::contains_spec(message, "integer"@)))
        || text::contains_spec(message, f)
}

/// Whether a part of a message and a message, both normalized, go together.
pub fn fragment_goes_with(f: &str, message: &str) -> (r: bool)
    ensures
        r == goes_with(f@, message@),
{
    let c = chars_of(f);
    let m = chars_of(message);
    let s = c.as_slice();
    let e = m.as_slice();
    if is(s, "schema definition error") || is(s, "runtime schema definition error") || is(
        s,
        "parse error",
    ) || is(s, "unparse error") || is(s, "placeholder") || starts_with(s, "line ") || starts_with(
        s,
        "column ",
    ) || ends_with(s, ".xsd") || ends_with(s, ".xml") {
        return true;
    }
    if starts_with(s, "found only") && contains(e, "found only") {
        return true;
    }
    if starts_with(s, "needed ") && contains(e, "needed ") {
        return true;
    }
    let number = is(s, "long") || is(s, "int") || is(s, "integer");
    if number && (contains(e, "int") || contains(e, "long") || contains(e, "integer")) {
        return true;
    }
    contains(e, f)
}

/// Whether a part of a message goes with a message.
pub open spec fn fragment_matches(fragment: Seq<char>, message: Seq<char>) -> bool {
    let f = text::trim_spec(fragment);
    f.len() == 0 || goes_with(normalized(f), normalized(message))
}

/// Whether all parts that are expected go with a message.
pub open spec fn messages_match(expected: Seq<Seq<char>>, message: Seq<char>) -> bool {
    forall|i: int| 0 <= i < expected.len() ==> fragment_matches(#[trigger] expected[i], message)
}

/// Whether all parts that are expected go with a message.
pub fn error_messages_match(expected: &Vec<String>, message: &str) -> (r: bool)
    ensures
        r == messages_match(expected.deep_view(), message@),
{
    let m = normalize_error_text(message);
    let mut i: usize = 0;
    while i < expected.len()
        invariant
            i <= expected@.len(),
            m@ == normalized(message@),
            forall|k: int|
                0 <= k < i ==> fragment_matches(#[trigger] expected.deep_view()[k], message@),
        decreases expected@.len() - i,
    {
        assert(expected.deep_view()[i as int] == expected@[i as int]@);
        let c = chars_of(expected[i].as_str());
        let t = trim(c.as_slice());
        if t.len() > 0 {
            let s = string_of(t);
            let f = normalize_error_text(s.as_str());
            if !fragment_goes_with(f.as_str(), m.as_str()) {
                assert(!fragment_matches(expected.deep_view()[i as int], message@));
                return false;
            }
        }
        i += 1;
    }
    true
}

/// Where nothing is expected, any message will do.
pub proof fn law_nothing_expected(message: Seq<char>)
    ensures
        messages_match(Seq::empty(), message),
{
}

/// An error that is expected word for word is found.
pub proof fn law_message_matches_itself(message: Seq<char>)
    requires
        text::trim_spec(message) == message,
    ensures
        messages_match(seq![message], message),
{
    let m = normalized(message);
    assert(text::find_from(m, m, 0) == Some(0int)) by {
        assert(m.subrange(0, m.len() as int) =~= m);
        assert(m.skip(0) =~= m);
        assert(m.take(m.len() as int) =~= m);
    }
    assert(text::contains_spec(m, m));
    assert(fragment_matches(message, message));
}

/// What a test comes to when an error is expected and this one comes.
pub open spec fn expected_verdict(
    expected: Seq<Seq<char>>,
    message: Seq<char>,
    mismatch: Seq<char>,
) -> TestOutcomeModel {
    if messages_match(expected, message) {
        TestOutcomeModel::Pass
    } else {
        TestOutcomeModel::Fail(mismatch + message)
    }
}

/// What a test comes to when an error is expected and this one comes.
pub fn judge_expected(expected: &Vec<String>, message: &str, mismatch: &str) -> (r: TestOutcome)
    ensures
        r@ == expected_verdict(expected.deep_view(), message@, mismatch@),
{
    if error_messages_match(expected, message) {
        TestOutcome::Pass
    } else {
        TestOutcome::Fail(cat2(mismatch, message))
    }
}

/// What a test comes to when an error comes, expected or not.
pub open spec fn error_verdict(
    expected: Option<Seq<Seq<char>>>,
    message: Seq<char>,
    mismatch: Seq<char>,
    unexpected: Seq<char>,
) -> TestOutcomeModel {
    match expected {
        Some(e) => expected_verdict(e, message, mismatch),
        None => TestOutcomeModel::Fail(unexpected + message),
    }
}

/// What a test comes to when an error comes, expected or not.
pub fn judge_error(
    expected: &Option<Vec<String>>,
    message: &str,
    mismatch: &str,
    unexpected: &str,
) -> (r: TestOutcome)
    ensures
        r@ == error_verdict(expected.deep_view(), message@, mismatch@, unexpected@),
{
    match expected {
        Some(e) => judge_expected(e, message, mismatch),
        None => TestOutcome::Fail(cat2(unexpected, message)),
    }
}

/// What a test comes to when its schema does not compile.
pub open spec fn compile_verdict(
    expected: Option<Seq<Seq<char>>>,
    message: Seq<char>,
) -> TestOutcomeModel {
    error_verdict(expected, message, "compile error mismatch: "@, "compile error: "@)
}

/// What a test comes to when its schema does not compile.
pub fn judge_compile_error(expected: &Option<Vec<String>>, message: &str) -> (r: TestOutcome)
    ensures
        r@ == compile_verdict(expected.deep_view(), message@),
{
    judge_error(expected, message, "compile error mismatch: ", "compile error: ")
}

// What a test needs.
/// The configuration of a test: one of the suite, or one in a file; where there is
/// none, nothing is changed.
pub open spec fn config_of(name: Option<Seq<char>>, s: TdmlSuiteModel) -> TdmlConfigModel {
    match name {
        None => suite::default_config(),
        Some(n) => match strmap::lookup(s.configs, n) {
            Some(c) => c,
            None => match resources::resource_text(n, s.resource_context) {
                Ok(t) => match parser::config_in(xml::xml_items(t)) {
                    Ok(c) => c,
                    Err(_) => suite::default_config(),
                },
                Err(_) => suite::default_config(),
            },
        },
    }
}

/// The configuration of a test.
pub fn resolve_tdml_config(name: &Option<String>, s: &TdmlSuite) -> (r: TdmlConfig)
    ensures
        r@ == config_of(name.deep_view(), s@),
{
    if let Some(n) = name {
        if let Some(c) = s.configs.get(n.as_str()) {
            return c.copy();
        }
        if let Ok(t) = load_tdml_resource_string(n.as_str(), &s.resource_context) {
            if let Ok(c) = parse_external_config_xml(t.as_str()) {
                return c;
            }
        }
    }
    TdmlConfig::default()
}

/// The label of a schema that is a file.
pub open spec fn label_of(model: Seq<char>) -> Option<Seq<char>> {
    if text::has_suffix(model, ".xsd"@) {
        Some(model)
    } else {
        None
    }
}

/// The label of a schema that is a file.
pub fn external_schema_label(model: &str) -> (r: Option<String>)
    ensures
        r.deep_view() == label_of(model@),
{
    let c = chars_of(model);
    if ends_with(c.as_slice(), ".xsd") {
        Some(owned(model))
    } else {
        None
    }
}

/// The text of the schema that a test names, with the directory for what it takes
/// in: one of the suite, or one that can be found.
pub open spec fn model_schema(
    s: TdmlSuiteModel,
    r: SchemaResolverModel,
    model: Seq<char>,
) -> Result<(Seq<char>, Option<Seq<char>>), ErrorModel> {
    match strmap::lookup(s.schemas, model) {
        Some(d) => Ok((d.xsd, d.compile_base_dir)),
        None => match resolver::resolved(r, model) {
            Ok((t, _)) => Ok((t, None)),
            Err(e) => Err(e),
        },
    }
}

/// The text of the schema that a test names.
pub fn resolve_model_schema(s: &TdmlSuite, r: &SchemaResolver, model: &str) -> (out: Result<
    (String, Option<String>),
    Error,
>)
    ensures
        error::outcome(out) == model_schema(s@, r@, model@),
{
    if let Some(d) = s.schemas.get(model) {
        return Ok((d.xsd.copy(), d.compile_base_dir.copy()));
    }
    match r.resolve(model) {
        Ok(t) => Ok((t, None)),
        Err(e) => Err(e),
    }
}

/// A schema to compile.
#[derive(Debug)]
pub struct CompileTask {
    pub xsd: String,
    pub root: String,
    pub base_dir: Option<String>,
    pub label: Option<String>,
    pub config: TdmlConfig,
}

/// What a [`CompileTask`] holds, its text as character sequences.
#[verifier::ext_equal]
pub struct CompileTaskModel {
    pub xsd: Seq<char>,
    pub root: Seq<char>,
    pub base_dir: Option<Seq<char>>,
    pub label: Option<Seq<char>>,
    pub config: TdmlConfigModel,
}

impl View for CompileTask {
    type V = CompileTaskModel;

    open spec fn view(&self) -> CompileTaskModel {
        CompileTaskModel {
            xsd: self.xsd@,
            root: self.root@,
            base_dir: self.base_dir.deep_view(),
            label: self.label.deep_view(),
            config: self.config@,
        }
    }
}

/// The schema of a task, read with these sources. The label counts only where there
/// is a directory.
pub open spec fn task_schema(task: CompileTaskModel, sources: SchemaResolverModel) -> Result<
    SchemaDocumentModel,
    ErrorModel,
> {
    document::schema_of(
        task.xsd,
        resolver::inside(sources, task.base_dir),
        if task.base_dir is Some {
            task.label
        } else {
            None
        },
    )
}

/// Reads the schema of a task.
pub fn parse_task_schema(task: &CompileTask, sources: &SchemaResolver) -> (r: Result<
    SchemaDocument,
    Error,
>)
    ensures
        error::outcome(r) == task_schema(task@, sources@),
{
    match &task.base_dir {
        Some(base) => {
            let label: Option<&str> = match &task.label {
                Some(l) => Some(l.as_str()),
                None => None,
            };
            parse_schema_with_resolver_and_label(
                task.xsd.as_str(),
                sources.for_included(Some(base.as_str())),
                label,
            )
        },
        None => parse_schema_with_resolver_and_label(
            task.xsd.as_str(),
            sources.for_included(None),
            None,
        ),
    }
}

/// Reads the schema of a task and holds it to the rules.
pub fn prepare_task_schema(task: &CompileTask, sources: &SchemaResolver) -> (r: Result<
    SchemaDocument,
    Error,
>)
    ensures
        error::outcome(r) == (match task_schema(task@, sources@) {
            Err(e) => Err(e),
            Ok(schema) => match compiled::compiled_fault(schema, task@.root, task@.config.tunables) {
                Some(e) => Err(e),
                None => Ok(schema),
            },
        }),
{
    match parse_task_schema(task, sources) {
        Err(e) => Err(e),
        Ok(schema) => match validate_compiled_schema(
            &schema,
            task.root.as_str(),
            &task.config.tunables,
        ) {
            Err(e) => Err(e),
            Ok(_) => Ok(schema),
        },
    }
}

/// The schema to compile for a test, or what the test comes to without one.
pub open spec fn compile_task(
    s: TdmlSuiteModel,
    r: SchemaResolverModel,
    model: Seq<char>,
    root: Seq<char>,
    config: Option<Seq<char>>,
) -> Result<CompileTaskModel, TestOutcomeModel> {
    match model_schema(s, r, model) {
        Err(e) => Err(
            TestOutcomeModel::Fail("schema `"@ + model + "`: "@ + error::error_text(e)),
        ),
        Ok((xsd, base_dir)) => Ok(
            CompileTaskModel {
                xsd,
                root,
                base_dir,
                label: label_of(model),
                config: config_of(config, s),
            },
        ),
    }
}

/// A task, or what the test comes to without one.
pub open spec fn task_view(r: Result<CompileTask, TestOutcome>) -> Result<
    CompileTaskModel,
    TestOutcomeModel,
> {
    match r {
        Ok(t) => Ok(t@),
        Err(o) => Err(o@),
    }
}

/// The schema to compile for a test.
pub fn plan_compile(
    s: &TdmlSuite,
    r: &SchemaResolver,
    model: &str,
    root: &str,
    config: &Option<String>,
) -> (out: Result<CompileTask, TestOutcome>)
    ensures
        task_view(out) == compile_task(s@, r@, model@, root@, config.deep_view()),
{
    match resolve_model_schema(s, r, model) {
        Err(e) => {
            let t = e.to_text();
            Err(TestOutcome::Fail(cat4("schema `", model, "`: ", t.as_str())))
        },
        Ok((xsd, base_dir)) => Ok(
            CompileTask {
                xsd,
                root: owned(root),
                base_dir,
                label: external_schema_label(model),
                config: resolve_tdml_config(config, s),
            },
        ),
    }
}

/// The bytes of a document: its own, or those of a file.
pub open spec fn document_bytes(d: TdmlDocumentModel, ctx: TdmlResourceContextModel) -> Result<
    Seq<u8>,
    Seq<char>,
> {
    match d.file_resource {
        Some(p) => resources::resource_bytes(p, ctx),
        None => Ok(d.data),
    }
}

/// The bytes of a document.
pub fn resolve_tdml_document_bytes(d: &TdmlDocument, ctx: &TdmlResourceContext) -> (r: Result<
    Vec<u8>,
    String,
>)
    ensures
        encoding::bytes_outcome(r) == document_bytes(d@, ctx@),
{
    if let Some(p) = &d.file_resource {
        return load_tdml_resource(p.as_str(), ctx);
    }
    let b = d.data.copy();
    assert(b.deep_view() =~= b@);
    Ok(b)
}

/// The order of bits in which a document is read: its own, or that of the format.
pub open spec fn bit_order_of(d: TdmlDocumentModel, format: BitOrder) -> BitOrder {
    match d.document_transmission_bit_order {
        Some(o) => o,
        None => format,
    }
}

/// The order of bits in which a document is read.
pub fn tdml_transmission_bit_order(d: &TdmlDocument, format: BitOrder) -> (r: BitOrder)
    ensures
        r == bit_order_of(d@, format),
{
    match d.document_transmission_bit_order {
        Some(o) => o,
        None => format,
    }
}

/// The warnings about a schema and about this root.
pub open spec fn root_warnings(schema: SchemaDocumentModel, root: Seq<char>) -> Seq<Seq<char>> {
    schema.schema_warnings + match strmap::lookup(schema.scoped_schema_warnings, root) {
        Some(w) => w,
        None => Seq::empty(),
    }
}

/// The warnings about a schema and about this root.
pub fn schema_warnings_for_root(schema: &SchemaDocument, root: &str) -> (r: Vec<String>)
    ensures
        r.deep_view() == root_warnings(schema@, root@),
{
    reveal(crate::ast::document_model);
    let mut out = schema.schema_warnings.copy();
    let ghost begin = out.deep_view();
    if let Some(w) = schema.scoped_schema_warnings.get(root) {
        let ghost all = w.deep_view();
        let mut i: usize = 0;
        assert(out.deep_view() =~= begin + all.take(0));
        while i < w.len()
            invariant
                i <= w@.len(),
                all == w.deep_view(),
                out.deep_view() == begin + all.take(i as int),
            decreases w@.len() - i,
        {
            reveal(crate::ast::document_model);
            assert(all[i as int] == w@[i as int]@);
            let ghost before = out.deep_view();
            let s = w[i].copy();
            out.push(s);
            assert(out.deep_view() =~= before.push(s@));
            assert(out.deep_view() =~= begin + all.take(i + 1));
            i += 1;
        }
        assert(all.take(all.len() as int) =~= all);
    } else {
        assert(begin =~= begin + Seq::<Seq<char>>::empty());
    }
    out
}

/// The message for warnings that count as errors.
pub open spec fn escalated(warnings: Seq<Seq<char>>) -> Seq<char> {
    let body = text::joined(warnings, "\n"@);
    if body.len() == 0 {
        "Schema Definition Warning Escalated Error"@
    } else {
        "Schema Definition Warning Escalated Error"@ + "\n"@ + body
    }
}

/// The message for warnings that count as errors.
pub fn escalated_schema_warnings_message(warnings: &Vec<String>) -> (r: String)
    ensures
        r@ == escalated(warnings.deep_view()),
{
    let body = join(warnings, "\n");
    let c = chars_of(body.as_str());
    if c.len() == 0 {
        owned("Schema Definition Warning Escalated Error")
    } else {
        cat3("Schema Definition Warning Escalated Error", "\n", body.as_str())
    }
}

/// The message for an error that was expected and did not come.
pub open spec fn no_error_message(what: Seq<char>, expected: Seq<Seq<char>>) -> Seq<char> {
    "expected "@ + what + " error ("@ + numbers::decimal(expected.len()) + " message(s))"@
}

/// The message for an error that was expected and did not come.
pub fn no_error_text(what: &str, expected: &Vec<String>) -> (r: String)
    ensures
        r@ == no_error_message(what@, expected.deep_view()),
{
    assert(expected.deep_view().len() == expected@.len());
    let d = decimal_chars(expected.len() as u64);
    let n = string_of(d.as_slice());
    error::cat5("expected ", what, " error (", n.as_str(), " message(s))")
}

/// A part of a message that is not blank is found where it stands in the message, letters
/// and line ends apart; it is not found where it does not, unless it is a general word or
/// a place, a number of bits or bytes that were found or needed, or the name of a kind of
/// integer.
pub proof fn law_part_found(fragment: Seq<char>, message: Seq<char>)
    ensures
        ({
            let t = text::trim_spec(fragment);
            let f = normalized(t);
            &&& (text::contains_spec(normalized(message), f) ==> fragment_matches(
                fragment,
                message,
            ))
            &&& (t.len() == 0 ==> fragment_matches(fragment, message))
            &&& (t.len() > 0 && !text::contains_spec(normalized(message), f) && !text::has_prefix(
                f,
                "line "@,
            ) && !text::has_prefix(f, "column "@) && !text::has_prefix(f, "found only"@)
                && !text::has_prefix(f, "needed "@) && !text::has_suffix(f, ".xsd"@)
                && !text::has_suffix(f, ".xml"@) && f != "schema definition error"@ && f
                != "runtime schema definition error"@ && f != "parse error"@ && f
                != "unparse error"@ && f != "placeholder"@ && f != "long"@ && f != "int"@ && f
                != "integer"@ ==> !fragment_matches(fragment, message))
        }),
{
}

/// A message matches only where every part that is expected is found in it.
pub proof fn law_every_part_counts(expected: Seq<Seq<char>>, message: Seq<char>, i: int)
    requires
        0 <= i < expected.len(),
        !fragment_matches(expected[i], message),
    ensures
        !messages_match(expected, message),
{
}

/// Where an error is expected, a test passes just where the message matches; where none
/// is, it fails.
pub proof fn law_error_judged(
    expected: Option<Seq<Seq<char>>>,
    message: Seq<char>,
    mismatch: Seq<char>,
    unexpected: Seq<char>,
)
    ensures
        expected is None ==> error_verdict(expected, message, mismatch, unexpected) is Fail,
        expected matches Some(e) ==> (error_verdict(
            expected,
            message,
            mismatch,
            unexpected,
        ) is Pass <==> messages_match(e, message)),
        !(error_verdict(expected, message, mismatch, unexpected) is Skip),
{
}

/// The bytes of a document are its own, unless it stands in a file.
pub proof fn law_document_has_own_bytes(d: TdmlDocumentModel, ctx: TdmlResourceContextModel)
    requires
        d.file_resource is None,
    ensures
        document_bytes(d, ctx) == Ok::<Seq<u8>, Seq<char>>(d.data),
{
}

/// The schema that is compiled for a test is the one of the suite that has the name, with
/// its directory, or else one that is found by that name; root and settings are those of
/// the test.
pub proof fn law_named_schema_compiled(
    s: TdmlSuiteModel,
    r: SchemaResolverModel,
    model: Seq<char>,
    root: Seq<char>,
    config: Option<Seq<char>>,
)
    ensures
        compile_task(s, r, model, root, config) matches Ok(task) ==> {
            &&& task.root == root
            &&& (strmap::lookup(s.schemas, model) matches Some(d) ==> task.xsd == d.xsd
                && task.base_dir == d.compile_base_dir)
            &&& (strmap::lookup(s.schemas, model) is None ==> (resolver::resolved(
                r,
                model,
            ) matches Ok((t, _)) && task.xsd == t))
            &&& (text::has_suffix(model, ".xsd"@) ==> task.label == Some(model))
            &&& (!text::has_suffix(model, ".xsd"@) ==> task.label is None)
            &&& (config is None ==> task.config == suite::default_config())
            &&& (config matches Some(n) ==> (strmap::lookup(s.configs, n) matches Some(c)
                ==> task.config == c))
        },
        strmap::lookup(s.schemas, model) is Some ==> compile_task(s, r, model, root, config) is Ok,
        compile_task(s, r, model, root, config) matches Err(o) ==> o is Fail,
{
}

} // verus!
