//! Reading TDML test suites and their configurations.

use vstd::prelude::*;
use crate::error;
use crate::error::{cat3, invalid_xml, missing_attribute, Error, ErrorModel};
use crate::numbers;
use crate::numbers::parse_u64;
use crate::strmap;
use crate::strmap::StrMap;
use crate::tdml::document;
use crate::tdml::document::{attr_of, parse_document};
use crate::tdml::infoset;
use crate::tdml::infoset::{expect_start, infer_root_element_name};
use crate::tdml::suite;
use crate::tdml::suite::{
    DaffodilTunables, DaffodilTunablesModel, InvalidRestrictionPolicy, ParserTestCase,
    ParserTestCaseModel, RoundTrip, TdmlConfig, TdmlConfigModel, TdmlDocument, TdmlDocumentModel,
    TdmlResourceContext, TdmlSchema, TdmlSchemaModel, TdmlSuite, TdmlSuiteModel,
    TdmlValidationMode, UnparserTestCase, UnparserTestCaseModel, UnqualifiedPathStepPolicy,
};
use crate::text;
use crate::text::{append_chars, chars_of, eq, is, string_of, trim};
use crate::values::{owned, Duplicate};
use crate::xml;
use crate::xml::{
    build_tree, read_items, XmlElement, XmlElementModel, XmlItem, XmlItemModel, XmlNode,
    XmlNodeModel,
};
use crate::xml_text;
use crate::xml_text::read_inner_xml;
use crate::xsd::nodes;
use crate::xsd::nodes::{break_of, read_simple_element_text, skip_element};

verus! {

broadcast use vstd::string::group_string_axioms;

// Attributes.
/// The round trip that an attribute states.
pub open spec fn round_trip_named(value: Option<Seq<char>>) -> RoundTrip {
    if value == Some("false"@) || value == Some("none"@) {
        RoundTrip::Disabled
    } else if value == Some("onePass"@) {
        RoundTrip::OnePass
    } else if value == Some("twoPass"@) {
        RoundTrip::TwoPass
    } else {
        RoundTrip::Inherit
    }
}

fn parse_round_trip(value: Option<&str>) -> (r: RoundTrip)
    ensures
        r == round_trip_named(text::ref_opt(value)),
{
    match value {
        Some(v) => if eq(v, "false") || eq(v, "none") {
            RoundTrip::Disabled
        } else if eq(v, "onePass") {
            RoundTrip::OnePass
        } else if eq(v, "twoPass") {
            RoundTrip::TwoPass
        } else {
            RoundTrip::Inherit
        },
        None => RoundTrip::Inherit,
    }
}

/// The validation that an attribute states.
pub open spec fn validation_named(value: Option<Seq<char>>) -> Result<
    TdmlValidationMode,
    ErrorModel,
> {
    let v = text::trim_spec(
        match value {
            Some(v) => v,
            None => "off"@,
        },
    );
    if v.len() == 0 || v == "off"@ {
        Ok(TdmlValidationMode::Off)
    } else if v == "limited"@ {
        Ok(TdmlValidationMode::Limited)
    } else if v == "on"@ {
        Ok(TdmlValidationMode::On)
    } else {
        Err(ErrorModel::InvalidXml("unknown validation mode `"@ + v + "`"@))
    }
}

fn parse_validation_mode(raw: Option<&str>) -> (r: Result<TdmlValidationMode, Error>)
    ensures
        error::outcome(r) == validation_named(text::ref_opt(raw)),
{
    let s = match raw {
        Some(v) => v,
        None => "off",
    };
    let c = chars_of(s);
    let v = trim(c.as_slice());
    if v.len() == 0 || is(v, "off") {
        Ok(TdmlValidationMode::Off)
    } else if is(v, "limited") {
        Ok(TdmlValidationMode::Limited)
    } else if is(v, "on") {
        Ok(TdmlValidationMode::On)
    } else {
        let shown = string_of(v);
        Err(invalid_xml(cat3("unknown validation mode `", shown.as_str(), "`")))
    }
}

/// The value of an attribute, or else this one.
pub open spec fn attr_or(e: XmlElementModel, name: Seq<char>, other: Seq<char>) -> Seq<char> {
    match document::attr(e, name) {
        Some(v) => v,
        None => other,
    }
}

fn attr_or_else(e: &XmlElement, name: &str, other: &str) -> (r: String)
    ensures
        r@ == attr_or(e@, name@, other@),
{
    match attr_of(e, name) {
        Some(v) => owned(v),
        None => owned(other),
    }
}

fn attr_copy(e: &XmlElement, name: &str) -> (r: Option<String>)
    ensures
        r.deep_view() == document::attr(e@, name@),
{
    match attr_of(e, name) {
        Some(v) => Some(owned(v)),
        None => None,
    }
}

/// The text of an element without the white space around it.
pub open spec fn trimmed_text(e: XmlElementModel) -> Result<Seq<char>, ErrorModel> {
    match nodes::simple_text(e.children, 0, e.local) {
        Err(x) => Err(x),
        Ok(t) => Ok(text::trim_spec(t)),
    }
}

fn read_trimmed(e: &XmlElement) -> (r: Result<String, Error>)
    ensures
        error::outcome(r) == trimmed_text(e@),
{
    let t = read_simple_element_text(&e.children, 0, e.local.as_str())?;
    let c = chars_of(t.as_str());
    Ok(string_of(trim(c.as_slice())))
}

// Expected messages.
/// The messages that a list of errors holds from `i` on, behind those in `sofar`.
pub open spec fn messages_from(list: Seq<XmlNodeModel>, i: nat, sofar: Seq<Seq<char>>) -> Result<
    Seq<Seq<char>>,
    ErrorModel,
>
    decreases list.len() - i,
{
    if i >= list.len() {
        Ok(sofar)
    } else {
        match list[i as int] {
            XmlNodeModel::Element(e) => if e.local == "error"@ {
                match trimmed_text(e) {
                    Err(x) => Err(x),
                    Ok(t) => messages_from(list, i + 1, sofar.push(t)),
                }
            } else {
                match nodes::flaw(e) {
                    Some(x) => Err(x),
                    None => messages_from(list, i + 1, sofar),
                }
            },
            n => match nodes::broken_at(n) {
                Some(x) => Err(x),
                None => messages_from(list, i + 1, sofar),
            },
        }
    }
}

fn parse_error_messages(e: &XmlElement) -> (r: Result<Vec<String>, Error>)
    ensures
        error::outcome(r) == messages_from(e@.children, 0, Seq::empty()),
{
    let list = &e.children;
    let ghost all = e@.children;
    let ghost want = messages_from(all, 0, Seq::empty());
    let mut out: Vec<String> = Vec::new();
    let mut i: usize = 0;
    assert(out.deep_view() =~= Seq::<Seq<char>>::empty());
    while i < list.len()
        invariant
            i <= list@.len(),
            all == xml::node_models(*list),
            all == e@.children,
            want == messages_from(e@.children, 0, Seq::empty()),
            want == messages_from(all, i as nat, out.deep_view()),
        decreases list@.len() - i,
    {
        assert(all[i as int] == list@[i as int].model());
        match &list[i] {
            XmlNode::Element(m) => {
                if eq(m.local.as_str(), "error") {
                    let t = read_trimmed(m)?;
                    let ghost before = out.deep_view();
                    let ghost shown = t@;
                    out.push(t);
                    assert(out.deep_view() =~= before.push(shown));
                } else {
                    skip_element(m)?;
                }
            },
            other => {
                if let Some(x) = break_of(other) {
                    return Err(x);
                }
            },
        }
        i += 1;
    }
    Ok(out)
}

// Configurations.
/// The policy for path steps of this name.
pub open spec fn step_policy(v: Seq<char>) -> UnqualifiedPathStepPolicy {
    if v == "noNamespace"@ {
        UnqualifiedPathStepPolicy::NoNamespace
    } else if v == "preferDefaultNamespace"@ {
        UnqualifiedPathStepPolicy::PreferDefaultNamespace
    } else {
        UnqualifiedPathStepPolicy::DefaultNamespace
    }
}

/// The policy for restrictions of this name.
pub open spec fn restriction_policy(v: Seq<char>) -> InvalidRestrictionPolicy {
    if v == "ignore"@ {
        InvalidRestrictionPolicy::Ignore
    } else if v == "validate"@ {
        InvalidRestrictionPolicy::Validate
    } else {
        InvalidRestrictionPolicy::Error
    }
}

/// Whether a setting has this name.
pub open spec fn is_tunable(name: Seq<char>) -> bool {
    ||| name == "allowSignedIntegerLength1Bit"@
    ||| name == "unqualifiedPathStepPolicy"@
    ||| name == "maxOccursBounds"@
    ||| name == "requireTextBidiProperty"@
    ||| name == "requireFloatingProperty"@
    ||| name == "requireEncodingErrorPolicy"@
    ||| name == "requireEncodingErrorPolicyProperty"@
    ||| name == "maxHexBinaryLengthInBytes"@
    ||| name == "invalidRestrictionPolicy"@
    ||| name == "escalateWarningsToErrors"@
}

/// Settings with the one of this name changed to this value.
pub open spec fn tuned(t: DaffodilTunablesModel, name: Seq<char>, v: Seq<char>) -> DaffodilTunablesModel {
    if name == "allowSignedIntegerLength1Bit"@ {
        DaffodilTunablesModel { allow_signed_integer_length1_bit: v != "false"@, ..t }
    } else if name == "unqualifiedPathStepPolicy"@ {
        DaffodilTunablesModel { unqualified_path_step_policy: step_policy(v), ..t }
    } else if name == "maxOccursBounds"@ {
        DaffodilTunablesModel { max_occurs_bounds: numbers::u64_spec(v), ..t }
    } else if name == "requireTextBidiProperty"@ {
        DaffodilTunablesModel { require_text_bidi_property: Some(v == "true"@), ..t }
    } else if name == "requireFloatingProperty"@ {
        DaffodilTunablesModel { require_floating_property: Some(v == "true"@), ..t }
    } else if name == "requireEncodingErrorPolicy"@ || name
        == "requireEncodingErrorPolicyProperty"@ {
        DaffodilTunablesModel { require_encoding_error_policy: Some(v == "true"@), ..t }
    } else if name == "maxHexBinaryLengthInBytes"@ {
        DaffodilTunablesModel { max_hex_binary_length_in_bytes: numbers::u64_spec(v), ..t }
    } else if name == "invalidRestrictionPolicy"@ {
        DaffodilTunablesModel { invalid_restriction_policy: restriction_policy(v), ..t }
    } else if name == "escalateWarningsToErrors"@ {
        DaffodilTunablesModel { escalate_warnings_to_errors: v == "true"@, ..t }
    } else {
        t
    }
}

fn known_tunable(name: &str) -> (r: bool)
    ensures
        r == is_tunable(name@),
{
    eq(name, "allowSignedIntegerLength1Bit") || eq(name, "unqualifiedPathStepPolicy") || eq(
        name,
        "maxOccursBounds",
    ) || eq(name, "requireTextBidiProperty") || eq(name, "requireFloatingProperty") || eq(
        name,
        "requireEncodingErrorPolicy",
    ) || eq(name, "requireEncodingErrorPolicyProperty") || eq(name, "maxHexBinaryLengthInBytes")
        || eq(name, "invalidRestrictionPolicy") || eq(name, "escalateWarningsToErrors")
}

fn tune(t: &mut DaffodilTunables, name: &str, v: &str)
    ensures
        final(t)@ == tuned(old(t)@, name@, v@),
{
    if eq(name, "allowSignedIntegerLength1Bit") {
        t.allow_signed_integer_length1_bit = !eq(v, "false");
    } else if eq(name, "unqualifiedPathStepPolicy") {
        t.unqualified_path_step_policy = if eq(v, "noNamespace") {
            UnqualifiedPathStepPolicy::NoNamespace
        } else if eq(v, "preferDefaultNamespace") {
            UnqualifiedPathStepPolicy::PreferDefaultNamespace
        } else {
            UnqualifiedPathStepPolicy::DefaultNamespace
        };
    } else if eq(name, "maxOccursBounds") {
        let c = chars_of(v);
        t.max_occurs_bounds = parse_u64(c.as_slice());
    } else if eq(name, "requireTextBidiProperty") {
        t.require_text_bidi_property = Some(eq(v, "true"));
    } else if eq(name, "requireFloatingProperty") {
        t.require_floating_property = Some(eq(v, "true"));
    } else if eq(name, "requireEncodingErrorPolicy") || eq(
        name,
        "requireEncodingErrorPolicyProperty",
    ) {
        t.require_encoding_error_policy = Some(eq(v, "true"));
    } else if eq(name, "maxHexBinaryLengthInBytes") {
        let c = chars_of(v);
        t.max_hex_binary_length_in_bytes = parse_u64(c.as_slice());
    } else if eq(name, "invalidRestrictionPolicy") {
        t.invalid_restriction_policy = if eq(v, "ignore") {
            InvalidRestrictionPolicy::Ignore
        } else if eq(v, "validate") {
            InvalidRestrictionPolicy::Validate
        } else {
            InvalidRestrictionPolicy::Error
        };
    } else if eq(name, "escalateWarningsToErrors") {
        t.escalate_warnings_to_errors = eq(v, "true");
    }
}

/// Settings with those that a list states from `i` on.
pub open spec fn tunables_from(
    list: Seq<XmlNodeModel>,
    i: nat,
    t: DaffodilTunablesModel,
) -> Result<DaffodilTunablesModel, ErrorModel>
    decreases list.len() - i,
{
    if i >= list.len() {
        Ok(t)
    } else {
        match list[i as int] {
            XmlNodeModel::Element(e) => if is_tunable(e.local) {
                match trimmed_text(e) {
                    Err(x) => Err(x),
                    Ok(v) => tunables_from(list, i + 1, tuned(t, e.local, v)),
                }
            } else {
                match nodes::flaw(e) {
                    Some(x) => Err(x),
                    None => tunables_from(list, i + 1, t),
                }
            },
            n => match nodes::broken_at(n) {
                Some(x) => Err(x),
                None => tunables_from(list, i + 1, t),
            },
        }
    }
}

fn parse_tunables(e: &XmlElement, t: DaffodilTunables) -> (r: Result<DaffodilTunables, Error>)
    ensures
        error::outcome(r) == tunables_from(e@.children, 0, t@),
{
    let list = &e.children;
    let ghost all = e@.children;
    let ghost want = tunables_from(all, 0, t@);
    let mut out = t;
    let mut i: usize = 0;
    while i < list.len()
        invariant
            i <= list@.len(),
            all == xml::node_models(*list),
            all == e@.children,
            want == tunables_from(e@.children, 0, t@),
            want == tunables_from(all, i as nat, out@),
        decreases list@.len() - i,
    {
        assert(all[i as int] == list@[i as int].model());
        match &list[i] {
            XmlNode::Element(m) => {
                if known_tunable(m.local.as_str()) {
                    let v = read_trimmed(m)?;
                    tune(&mut out, m.local.as_str(), v.as_str());
                } else {
                    skip_element(m)?;
                }
            },
            other => {
                if let Some(x) = break_of(other) {
                    return Err(x);
                }
            },
        }
        i += 1;
    }
    Ok(out)
}

/// Values of variables with those that a list binds from `i` on.
pub open spec fn variables_from(
    list: Seq<XmlNodeModel>,
    i: nat,
    vars: Seq<(Seq<char>, Seq<char>)>,
) -> Result<Seq<(Seq<char>, Seq<char>)>, ErrorModel>
    decreases list.len() - i,
{
    if i >= list.len() {
        Ok(vars)
    } else {
        match list[i as int] {
            XmlNodeModel::Element(e) => if e.local == "bind"@ {
                match document::attr(e, "name"@) {
                    None => Err(ErrorModel::MissingAttribute("bind"@, "name"@)),
                    Some(name) => match trimmed_text(e) {
                        Err(x) => Err(x),
                        Ok(v) => variables_from(list, i + 1, strmap::with_entry(vars, name, v)),
                    },
                }
            } else {
                match nodes::flaw(e) {
                    Some(x) => Err(x),
                    None => variables_from(list, i + 1, vars),
                }
            },
            n => match nodes::broken_at(n) {
                Some(x) => Err(x),
                None => variables_from(list, i + 1, vars),
            },
        }
    }
}

fn parse_variables(e: &XmlElement, vars: StrMap<String>) -> (r: Result<StrMap<String>, Error>)
    ensures
        error::outcome(r) == variables_from(e@.children, 0, vars@),
{
    let list = &e.children;
    let ghost all = e@.children;
    let ghost want = variables_from(all, 0, vars@);
    let mut out = vars;
    let mut i: usize = 0;
    while i < list.len()
        invariant
            i <= list@.len(),
            all == xml::node_models(*list),
            all == e@.children,
            want == variables_from(e@.children, 0, vars@),
            want == variables_from(all, i as nat, out@),
        decreases list@.len() - i,
    {
        assert(all[i as int] == list@[i as int].model());
        match &list[i] {
            XmlNode::Element(m) => {
                if eq(m.local.as_str(), "bind") {
                    let name = match attr_of(m, "name") {
                        Some(n) => owned(n),
                        None => {
                            return Err(missing_attribute("bind", "name"));
                        },
                    };
                    let v = read_trimmed(m)?;
                    out.insert(name, v);
                } else {
                    skip_element(m)?;
                }
            },
            other => {
                if let Some(x) = break_of(other) {
                    return Err(x);
                }
            },
        }
        i += 1;
    }
    Ok(out)
}

/// A configuration with what a list states from `i` on.
pub open spec fn config_from(list: Seq<XmlNodeModel>, i: nat, c: TdmlConfigModel) -> Result<
    TdmlConfigModel,
    ErrorModel,
>
    decreases list.len() - i,
{
    if i >= list.len() {
        Ok(c)
    } else {
        match list[i as int] {
            XmlNodeModel::Element(e) => if e.local == "externalVariableBindings"@ {
                match variables_from(e.children, 0, c.external_variables) {
                    Err(x) => Err(x),
                    Ok(v) => config_from(
                        list,
                        i + 1,
                        TdmlConfigModel { external_variables: v, ..c },
                    ),
                }
            } else if e.local == "tunables"@ {
                match tunables_from(e.children, 0, c.tunables) {
                    Err(x) => Err(x),
                    Ok(t) => config_from(list, i + 1, TdmlConfigModel { tunables: t, ..c }),
                }
            } else {
                match nodes::flaw(e) {
                    Some(x) => Err(x),
                    None => config_from(list, i + 1, c),
                }
            },
            n => match nodes::broken_at(n) {
                Some(x) => Err(x),
                None => config_from(list, i + 1, c),
            },
        }
    }
}

fn parse_config_children(e: &XmlElement) -> (r: Result<TdmlConfig, Error>)
    ensures
        error::outcome(r) == config_from(e@.children, 0, suite::default_config()),
{
    let list = &e.children;
    let ghost all = e@.children;
    let ghost want = config_from(all, 0, suite::default_config());
    let mut tunables = DaffodilTunables::default();
    let mut vars: StrMap<String> = StrMap::new();
    let mut i: usize = 0;
    assert(TdmlConfigModel { tunables: tunables@, external_variables: vars@ }
        =~= suite::default_config());
    while i < list.len()
        invariant
            i <= list@.len(),
            all == xml::node_models(*list),
            all == e@.children,
            want == config_from(e@.children, 0, suite::default_config()),
            want == config_from(
                all,
                i as nat,
                (TdmlConfigModel { tunables: tunables@, external_variables: vars@ }),
            ),
        decreases list@.len() - i,
    {
        assert(all[i as int] == list@[i as int].model());
        match &list[i] {
            XmlNode::Element(m) => {
                if eq(m.local.as_str(), "externalVariableBindings") {
                    vars = parse_variables(m, vars)?;
                } else if eq(m.local.as_str(), "tunables") {
                    tunables = parse_tunables(m, tunables)?;
                } else {
                    skip_element(m)?;
                }
            },
            other => {
                if let Some(x) = break_of(other) {
                    return Err(x);
                }
            },
        }
        i += 1;
    }
    Ok(TdmlConfig { tunables, external_variables: vars })
}

/// A configuration that stands on its own and is read in these pieces.
pub open spec fn config_in(items: Seq<XmlItemModel>) -> Result<TdmlConfigModel, ErrorModel> {
    match infoset::root_named(xml::tree_spec(items), "dfdlConfig"@) {
        Err(x) => Err(x),
        Ok(root) => config_from(root.children, 0, suite::default_config()),
    }
}

/// A configuration that stands on its own and is read in these pieces.
pub fn parse_config_items(items: &Vec<XmlItem>) -> (r: Result<TdmlConfig, Error>)
    ensures
        error::outcome(r) == config_in(items.deep_view()),
{
    let tree = build_tree(items);
    let root = expect_start(&tree, "dfdlConfig")?;
    parse_config_children(root)
}

/// A configuration that stands on its own.
pub fn parse_external_config_xml(input: &str) -> (r: Result<TdmlConfig, Error>)
    ensures
        error::outcome(r) == config_in(xml::xml_items(input@)),
{
    let items = read_items(input);
    parse_config_items(&items)
}

// Schemas.
/// The head of the schema that a suite's declarations are set in.
pub open spec fn schema_head() -> Seq<char> {
    "<?xml version=\"1.0\" encoding=\"UTF-8\"?>\n<xs:schema xmlns:xs=\"http://www.w3.org/2001/XMLSchema\"\n           xmlns:dfdl=\"http://www.ogf.org/dfdl/dfdl-1.0/\"\n           xmlns:dfdlx=\"http://www.ogf.org/dfdl/dfdl-1.0/extensions\"\n           xmlns:ex=\"http://example.com\"\n           targetNamespace=\"http://example.com\""@
}

/// Declarations set in a schema.
pub open spec fn wrapped_schema(inner: Seq<char>, form: Option<Seq<char>>) -> Seq<char> {
    schema_head() + (match form {
        Some(f) => " elementFormDefault=\""@ + f + "\""@,
        None => Seq::empty(),
    }) + ">\n"@ + inner + "\n</xs:schema>"@
}

/// Declarations set in a schema.
pub fn wrap_schema(inner: &str, element_form_default: Option<&str>) -> (r: String)
    ensures
        r@ == wrapped_schema(inner@, text::ref_opt(element_form_default)),
{
    let mut out = chars_of(
        "<?xml version=\"1.0\" encoding=\"UTF-8\"?>\n<xs:schema xmlns:xs=\"http://www.w3.org/2001/XMLSchema\"\n           xmlns:dfdl=\"http://www.ogf.org/dfdl/dfdl-1.0/\"\n           xmlns:dfdlx=\"http://www.ogf.org/dfdl/dfdl-1.0/extensions\"\n           xmlns:ex=\"http://example.com\"\n           targetNamespace=\"http://example.com\"",
    );
    let ghost head = out@;
    let form = match element_form_default {
        Some(f) => cat3(" elementFormDefault=\"", f, "\""),
        None => String::new(),
    };
    let f = chars_of(form.as_str());
    append_chars(&mut out, f.as_slice());
    let a = chars_of(">\n");
    append_chars(&mut out, a.as_slice());
    let b = chars_of(inner);
    append_chars(&mut out, b.as_slice());
    let c = chars_of("\n</xs:schema>");
    append_chars(&mut out, c.as_slice());
    assert(out@ =~= wrapped_schema(inner@, text::ref_opt(element_form_default)));
    string_of(out.as_slice())
}

/// A schema that a suite defines.
pub open spec fn schema_defined(e: XmlElementModel) -> Result<TdmlSchemaModel, ErrorModel> {
    match document::attr(e, "name"@) {
        None => Err(ErrorModel::MissingAttribute("defineSchema"@, "name"@)),
        Some(name) => match xml_text::inner_xml(e) {
            Err(x) => Err(x),
            Ok(inner) => Ok(
                TdmlSchemaModel {
                    name,
                    xsd: wrapped_schema(inner, document::attr(e, "elementFormDefault"@)),
                    compile_base_dir: None,
                },
            ),
        },
    }
}

fn parse_define_schema(e: &XmlElement) -> (r: Result<TdmlSchema, Error>)
    ensures
        error::outcome(r) == schema_defined(e@),
{
    let name = match attr_of(e, "name") {
        Some(n) => owned(n),
        None => {
            return Err(missing_attribute("defineSchema", "name"));
        },
    };
    let inner = read_inner_xml(e)?;
    let xsd = wrap_schema(inner.as_str(), attr_of(e, "elementFormDefault"));
    Ok(TdmlSchema { name, xsd, compile_base_dir: None })
}

// Tests.
/// The root of a test: its own, or else that of its infoset, or else the test's name.
pub open spec fn test_root(e: XmlElementModel, infoset_source: Seq<char>) -> Seq<char> {
    match document::attr(e, "root"@) {
        Some(root) => root,
        None => match infoset::root_name(infoset_source) {
            Some(root) => root,
            None => attr_or(e, "name"@, ""@),
        },
    }
}

fn root_of_test(e: &XmlElement, infoset_source: &str) -> (r: String)
    ensures
        r@ == test_root(e@, infoset_source@),
{
    match attr_of(e, "root") {
        Some(root) => owned(root),
        None => match infer_root_element_name(infoset_source) {
            Some(root) => root,
            None => attr_or_else(e, "name", ""),
        },
    }
}

/// A test that parses, with what a list states from `i` on.
pub open spec fn parser_parts_from(
    list: Seq<XmlNodeModel>,
    i: nat,
    t: ParserTestCaseModel,
) -> Result<ParserTestCaseModel, ErrorModel>
    decreases list.len() - i,
{
    if i >= list.len() {
        Ok(t)
    } else {
        match list[i as int] {
            XmlNodeModel::Element(e) => match parser_part(t, e) {
                Err(x) => Err(x),
                Ok(t2) => parser_parts_from(list, i + 1, t2),
            },
            n => match nodes::broken_at(n) {
                Some(x) => Err(x),
                None => parser_parts_from(list, i + 1, t),
            },
        }
    }
}

/// A test that parses, with what one element in it states.
#[verifier::opaque]
pub open spec fn parser_part(t: ParserTestCaseModel, e: XmlElementModel) -> Result<
    ParserTestCaseModel,
    ErrorModel,
> {
    if e.local == "document"@ {
        match document::document_read(e) {
            Err(x) => Err(x),
            Ok(d) => Ok(ParserTestCaseModel { documents: t.documents.push(d), ..t }),
        }
    } else if e.local == "infoset"@ {
        match xml_text::inner_xml(e) {
            Err(x) => Err(x),
            Ok(s) => Ok(ParserTestCaseModel { expected_infoset: s, ..t }),
        }
    } else if e.local == "errors"@ {
        match messages_from(e.children, 0, Seq::empty()) {
            Err(x) => Err(x),
            Ok(m) => Ok(ParserTestCaseModel { expected_errors: Some(m), ..t }),
        }
    } else if e.local == "validationErrors"@ {
        match messages_from(e.children, 0, Seq::empty()) {
            Err(x) => Err(x),
            Ok(m) => Ok(ParserTestCaseModel { expected_validation_errors: Some(m), ..t }),
        }
    } else if e.local == "warnings"@ {
        match messages_from(e.children, 0, Seq::empty()) {
            Err(x) => Err(x),
            Ok(m) => Ok(ParserTestCaseModel { expected_warnings: Some(m), ..t }),
        }
    } else {
        match nodes::flaw(e) {
            Some(x) => Err(x),
            None => Ok(t),
        }
    }
}

fn push_document(documents: &mut Vec<TdmlDocument>, d: TdmlDocument)
    ensures
        final(documents).deep_view() == old(documents).deep_view().push(d@),
{
    let ghost before = documents.deep_view();
    documents.push(d);
    assert(documents.deep_view() =~= before.push(d@));
}

fn read_parser_part(test: ParserTestCase, e: &XmlElement) -> (r: Result<ParserTestCase, Error>)
    ensures
        error::outcome(r) == parser_part(test@, e@),
{
    reveal(parser_part);
    let mut t = test;
    if eq(e.local.as_str(), "document") {
        let d = parse_document(e)?;
        push_document(&mut t.documents, d);
    } else if eq(e.local.as_str(), "infoset") {
        t.expected_infoset = read_inner_xml(e)?;
    } else if eq(e.local.as_str(), "errors") {
        t.expected_errors = Some(parse_error_messages(e)?);
    } else if eq(e.local.as_str(), "validationErrors") {
        t.expected_validation_errors = Some(parse_error_messages(e)?);
    } else if eq(e.local.as_str(), "warnings") {
        t.expected_warnings = Some(parse_error_messages(e)?);
    } else {
        skip_element(e)?;
    }
    Ok(t)
}

/// A test that parses, from its attributes alone.
pub open spec fn parser_begun(
    e: XmlElementModel,
    model: Seq<char>,
    validation: Option<TdmlValidationMode>,
) -> ParserTestCaseModel {
    ParserTestCaseModel {
        name: attr_or(e, "name"@, ""@),
        root: Seq::empty(),
        model,
        documents: Seq::empty(),
        expected_infoset: Seq::empty(),
        expected_errors: None,
        expected_validation_errors: None,
        expected_warnings: None,
        config: document::attr(e, "config"@),
        round_trip: round_trip_named(document::attr(e, "roundTrip"@)),
        validation,
    }
}

/// The validation that a test states, where it states one.
pub open spec fn stated_validation(e: XmlElementModel) -> Result<
    Option<TdmlValidationMode>,
    ErrorModel,
> {
    match document::attr(e, "validation"@) {
        None => Ok(None),
        Some(v) => match validation_named(Some(v)) {
            Err(x) => Err(x),
            Ok(m) => Ok(Some(m)),
        },
    }
}

/// A test that parses.
pub open spec fn parser_case(e: XmlElementModel) -> Result<ParserTestCaseModel, ErrorModel> {
    match document::attr(e, "model"@) {
        None => Err(ErrorModel::MissingAttribute("parserTestCase"@, "model"@)),
        Some(model) => match stated_validation(e) {
            Err(x) => Err(x),
            Ok(v) => match parser_parts_from(e.children, 0, parser_begun(e, model, v)) {
                Err(x) => Err(x),
                Ok(t) => Ok(
                    ParserTestCaseModel { root: test_root(e, t.expected_infoset), ..t },
                ),
            },
        },
    }
}

fn begin_parser_case(e: &XmlElement, model: String, validation: Option<TdmlValidationMode>) -> (r:
    ParserTestCase)
    ensures
        r@ == parser_begun(e@, model@, validation),
{
    let r = ParserTestCase {
        name: attr_or_else(e, "name", ""),
        root: String::new(),
        model,
        documents: Vec::new(),
        expected_infoset: String::new(),
        expected_errors: None,
        expected_validation_errors: None,
        expected_warnings: None,
        config: attr_copy(e, "config"),
        round_trip: parse_round_trip(attr_of(e, "roundTrip")),
        validation,
    };
    assert(r.documents.deep_view() =~= Seq::<TdmlDocumentModel>::empty());
    r
}

fn parse_parser_test_case(e: &XmlElement) -> (r: Result<ParserTestCase, Error>)
    ensures
        error::outcome(r) == parser_case(e@),
{
    let model = match attr_of(e, "model") {
        Some(m) => owned(m),
        None => {
            return Err(missing_attribute("parserTestCase", "model"));
        },
    };
    let validation = match attr_of(e, "validation") {
        Some(v) => Some(parse_validation_mode(Some(v))?),
        None => None,
    };
    let ghost begun = parser_begun(e@, model@, validation);
    let mut t = begin_parser_case(e, model, validation);
    let list = &e.children;
    let ghost all = e@.children;
    let ghost want = parser_parts_from(all, 0, begun);
    let mut i: usize = 0;
    while i < list.len()
        invariant
            i <= list@.len(),
            all == xml::node_models(*list),
            all == e@.children,
            document::attr(e@, "model"@) is Some,
            stated_validation(e@) is Ok,
            begun == parser_begun(
                e@,
                document::attr(e@, "model"@)->Some_0,
                stated_validation(e@)->Ok_0,
            ),
            want == parser_parts_from(e@.children, 0, begun),
            want == parser_parts_from(all, i as nat, t@),
        decreases list@.len() - i,
    {
        assert(all[i as int] == list@[i as int].model());
        match &list[i] {
            XmlNode::Element(m) => {
                t = read_parser_part(t, m)?;
            },
            other => {
                if let Some(x) = break_of(other) {
                    return Err(x);
                }
            },
        }
        i += 1;
    }
    t.root = root_of_test(e, t.expected_infoset.as_str());
    Ok(t)
}

/// A test that unparses, with what one element in it states.
#[verifier::opaque]
pub open spec fn unparser_part(t: UnparserTestCaseModel, e: XmlElementModel) -> Result<
    UnparserTestCaseModel,
    ErrorModel,
> {
    if e.local == "infoset"@ {
        match xml_text::inner_xml(e) {
            Err(x) => Err(x),
            Ok(s) => Ok(UnparserTestCaseModel { infoset: s, ..t }),
        }
    } else if e.local == "document"@ {
        match document::document_read(e) {
            Err(x) => Err(x),
            Ok(d) => Ok(UnparserTestCaseModel { documents: t.documents.push(d), ..t }),
        }
    } else if e.local == "errors"@ {
        match messages_from(e.children, 0, Seq::empty()) {
            Err(x) => Err(x),
            Ok(m) => Ok(UnparserTestCaseModel { expected_errors: Some(m), ..t }),
        }
    } else {
        match nodes::flaw(e) {
            Some(x) => Err(x),
            None => Ok(t),
        }
    }
}

/// A test that unparses, with what a list states from `i` on.
pub open spec fn unparser_parts_from(
    list: Seq<XmlNodeModel>,
    i: nat,
    t: UnparserTestCaseModel,
) -> Result<UnparserTestCaseModel, ErrorModel>
    decreases list.len() - i,
{
    if i >= list.len() {
        Ok(t)
    } else {
        match list[i as int] {
            XmlNodeModel::Element(e) => match unparser_part(t, e) {
                Err(x) => Err(x),
                Ok(t2) => unparser_parts_from(list, i + 1, t2),
            },
            n => match nodes::broken_at(n) {
                Some(x) => Err(x),
                None => unparser_parts_from(list, i + 1, t),
            },
        }
    }
}

fn read_unparser_part(test: UnparserTestCase, e: &XmlElement) -> (r: Result<
    UnparserTestCase,
    Error,
>)
    ensures
        error::outcome(r) == unparser_part(test@, e@),
{
    reveal(unparser_part);
    let mut t = test;
    if eq(e.local.as_str(), "infoset") {
        t.infoset = read_inner_xml(e)?;
    } else if eq(e.local.as_str(), "document") {
        let d = parse_document(e)?;
        push_document(&mut t.documents, d);
    } else if eq(e.local.as_str(), "errors") {
        t.expected_errors = Some(parse_error_messages(e)?);
    } else {
        skip_element(e)?;
    }
    Ok(t)
}

/// A test that unparses, from its attributes alone.
pub open spec fn unparser_begun(e: XmlElementModel, model: Seq<char>) -> UnparserTestCaseModel {
    UnparserTestCaseModel {
        name: attr_or(e, "name"@, ""@),
        root: Seq::empty(),
        model,
        infoset: Seq::empty(),
        expected_errors: None,
        config: document::attr(e, "config"@),
        documents: Seq::empty(),
    }
}

/// A test that unparses.
pub open spec fn unparser_case(e: XmlElementModel) -> Result<UnparserTestCaseModel, ErrorModel> {
    match document::attr(e, "model"@) {
        None => Err(ErrorModel::MissingAttribute("unparserTestCase"@, "model"@)),
        Some(model) => match unparser_parts_from(e.children, 0, unparser_begun(e, model)) {
            Err(x) => Err(x),
            Ok(t) => Ok(UnparserTestCaseModel { root: test_root(e, t.infoset), ..t }),
        },
    }
}

fn begin_unparser_case(e: &XmlElement, model: String) -> (r: UnparserTestCase)
    ensures
        r@ == unparser_begun(e@, model@),
{
    let r = UnparserTestCase {
        name: attr_or_else(e, "name", ""),
        root: String::new(),
        model,
        infoset: String::new(),
        expected_errors: None,
        config: attr_copy(e, "config"),
        documents: Vec::new(),
    };
    assert(r.documents.deep_view() =~= Seq::<TdmlDocumentModel>::empty());
    r
}

fn parse_unparser_test_case(e: &XmlElement) -> (r: Result<UnparserTestCase, Error>)
    ensures
        error::outcome(r) == unparser_case(e@),
{
    let model = match attr_of(e, "model") {
        Some(m) => owned(m),
        None => {
            return Err(missing_attribute("unparserTestCase", "model"));
        },
    };
    let ghost begun = unparser_begun(e@, model@);
    let mut t = begin_unparser_case(e, model);
    let list = &e.children;
    let ghost all = e@.children;
    let ghost want = unparser_parts_from(all, 0, begun);
    let mut i: usize = 0;
    while i < list.len()
        invariant
            i <= list@.len(),
            all == xml::node_models(*list),
            all == e@.children,
            document::attr(e@, "model"@) is Some,
            begun == unparser_begun(e@, document::attr(e@, "model"@)->Some_0),
            want == unparser_parts_from(e@.children, 0, begun),
            want == unparser_parts_from(all, i as nat, t@),
        decreases list@.len() - i,
    {
        assert(all[i as int] == list@[i as int].model());
        match &list[i] {
            XmlNode::Element(m) => {
                t = read_unparser_part(t, m)?;
            },
            other => {
                if let Some(x) = break_of(other) {
                    return Err(x);
                }
            },
        }
        i += 1;
    }
    t.root = root_of_test(e, t.infoset.as_str());
    Ok(t)
}

// Suites.
/// A suite with what one element in it states.
#[verifier::opaque]
pub open spec fn suite_part(s: TdmlSuiteModel, e: XmlElementModel) -> Result<
    TdmlSuiteModel,
    ErrorModel,
> {
    if e.local == "defineSchema"@ {
        match schema_defined(e) {
            Err(x) => Err(x),
            Ok(d) => Ok(
                TdmlSuiteModel { schemas: strmap::with_entry(s.schemas, d.name, d), ..s },
            ),
        }
    } else if e.local == "defineConfig"@ {
        match document::attr(e, "name"@) {
            None => Err(ErrorModel::MissingAttribute("defineConfig"@, "name"@)),
            Some(name) => match config_from(e.children, 0, suite::default_config()) {
                Err(x) => Err(x),
                Ok(c) => Ok(
                    TdmlSuiteModel { configs: strmap::with_entry(s.configs, name, c), ..s },
                ),
            },
        }
    } else if e.local == "parserTestCase"@ {
        match parser_case(e) {
            Err(x) => Err(x),
            Ok(t) => Ok(TdmlSuiteModel { tests: s.tests.push(t), ..s }),
        }
    } else if e.local == "unparserTestCase"@ {
        match unparser_case(e) {
            Err(x) => Err(x),
            Ok(t) => Ok(TdmlSuiteModel { unparser_tests: s.unparser_tests.push(t), ..s }),
        }
    } else {
        match nodes::flaw(e) {
            Some(x) => Err(x),
            None => Ok(s),
        }
    }
}

/// A suite with what a list states from `i` on.
pub open spec fn suite_parts_from(list: Seq<XmlNodeModel>, i: nat, s: TdmlSuiteModel) -> Result<
    TdmlSuiteModel,
    ErrorModel,
>
    decreases list.len() - i,
{
    if i >= list.len() {
        Ok(s)
    } else {
        match list[i as int] {
            XmlNodeModel::Element(e) => match suite_part(s, e) {
                Err(x) => Err(x),
                Ok(s2) => suite_parts_from(list, i + 1, s2),
            },
            n => match nodes::broken_at(n) {
                Some(x) => Err(x),
                None => suite_parts_from(list, i + 1, s),
            },
        }
    }
}

fn read_suite_part(suite_so_far: TdmlSuite, e: &XmlElement) -> (r: Result<TdmlSuite, Error>)
    ensures
        error::outcome(r) == suite_part(suite_so_far@, e@),
{
    reveal(suite_part);
    let mut s = suite_so_far;
    if eq(e.local.as_str(), "defineSchema") {
        let d = parse_define_schema(e)?;
        let name = d.name.copy();
        s.schemas.insert(name, d);
    } else if eq(e.local.as_str(), "defineConfig") {
        let name = match attr_of(e, "name") {
            Some(n) => owned(n),
            None => {
                return Err(missing_attribute("defineConfig", "name"));
            },
        };
        let c = parse_config_children(e)?;
        s.configs.insert(name, c);
    } else if eq(e.local.as_str(), "parserTestCase") {
        let t = parse_parser_test_case(e)?;
        let ghost before = s.tests.deep_view();
        let ghost shown = t@;
        s.tests.push(t);
        assert(s.tests.deep_view() =~= before.push(shown));
    } else if eq(e.local.as_str(), "unparserTestCase") {
        let t = parse_unparser_test_case(e)?;
        let ghost before = s.unparser_tests.deep_view();
        let ghost shown = t@;
        s.unparser_tests.push(t);
        assert(s.unparser_tests.deep_view() =~= before.push(shown));
    } else {
        skip_element(e)?;
    }
    Ok(s)
}

/// A suite, from the attributes of its root alone.
pub open spec fn suite_begun(root: XmlElementModel) -> TdmlSuiteModel {
    TdmlSuiteModel {
        name: attr_or(root, "suiteName"@, "unnamed"@),
        schemas: Seq::empty(),
        configs: Seq::empty(),
        tests: Seq::empty(),
        unparser_tests: Seq::empty(),
        default_round_trip: round_trip_named(document::attr(root, "defaultRoundTrip"@)),
        default_validation: match validation_named(document::attr(root, "defaultValidation"@)) {
            Ok(m) => m,
            Err(_) => TdmlValidationMode::Off,
        },
        resource_context: suite::no_resources(),
    }
}

fn begin_suite(root: &XmlElement) -> (r: TdmlSuite)
    ensures
        r@ == suite_begun(root@),
{
    let default_validation = match parse_validation_mode(attr_of(root, "defaultValidation")) {
        Ok(m) => m,
        Err(_) => TdmlValidationMode::Off,
    };
    let r = TdmlSuite {
        name: attr_or_else(root, "suiteName", "unnamed"),
        schemas: StrMap::new(),
        configs: StrMap::new(),
        tests: Vec::new(),
        unparser_tests: Vec::new(),
        default_round_trip: parse_round_trip(attr_of(root, "defaultRoundTrip")),
        default_validation,
        resource_context: TdmlResourceContext::default(),
    };
    assert(r.tests.deep_view() =~= Seq::<ParserTestCaseModel>::empty());
    assert(r.unparser_tests.deep_view() =~= Seq::<UnparserTestCaseModel>::empty());
    assert(r@ =~= suite_begun(root@));
    r
}

/// A suite that is read in these pieces.
pub open spec fn suite_in(items: Seq<XmlItemModel>) -> Result<TdmlSuiteModel, ErrorModel> {
    match infoset::root_named(xml::tree_spec(items), "testSuite"@) {
        Err(x) => Err(x),
        Ok(root) => suite_parts_from(root.children, 0, suite_begun(root)),
    }
}

/// A suite that is read in these pieces.
pub fn parse_tdml_items(items: &Vec<XmlItem>) -> (r: Result<TdmlSuite, Error>)
    ensures
        error::outcome(r) == suite_in(items.deep_view()),
{
    let tree = build_tree(items);
    let root = expect_start(&tree, "testSuite")?;
    parse_suite(root)
}

fn parse_suite(root: &XmlElement) -> (r: Result<TdmlSuite, Error>)
    ensures
        error::outcome(r) == suite_parts_from(root@.children, 0, suite_begun(root@)),
{
    let mut s = begin_suite(root);
    let list = &root.children;
    let ghost all = root@.children;
    let ghost want = suite_parts_from(all, 0, suite_begun(root@));
    let mut i: usize = 0;
    while i < list.len()
        invariant
            i <= list@.len(),
            all == xml::node_models(*list),
            all == root@.children,
            want == suite_parts_from(root@.children, 0, suite_begun(root@)),
            want == suite_parts_from(all, i as nat, s@),
        decreases list@.len() - i,
    {
        assert(all[i as int] == list@[i as int].model());
        match &list[i] {
            XmlNode::Element(m) => {
                s = read_suite_part(s, m)?;
            },
            other => {
                if let Some(x) = break_of(other) {
                    return Err(x);
                }
            },
        }
        i += 1;
    }
    Ok(s)
}

/// A TDML test suite.
pub fn parse_tdml(input: &str) -> (r: Result<TdmlSuite, Error>)
    ensures
        error::outcome(r) == suite_in(xml::xml_items(input@)),
{
    let items = read_items(input);
    parse_tdml_items(&items)
}

} // verus!
