use dfdl_vm::ast::BitOrder;
use dfdl_vm::program::{IrFacets, IrNode, IrProgram, IrProps, ValueKind};
use dfdl_vm::resolver::SchemaResolver;
use dfdl_vm::strmap::StrMap;
use dfdl_vm::tdml::parser::parse_tdml;
use dfdl_vm::tdml::runner::common::{
    error_messages_match, escalated_schema_warnings_message, normalize_error_text,
    parse_task_schema, prepare_task_schema,
    schema_warnings_for_root, CompiledSchema, TestOutcome,
};
use dfdl_vm::tdml::runner::parser::{
    run_parser_test, run_parser_test_with_options, run_suite, DecodedValue, ParserAction,
    ParserProgress, ParserTestRunOptions,
};
use dfdl_vm::tdml::runner::unparser::{
    encoded_matches_document, hex_preview, run_unparser_test, EncodedDocument, UnparserAction,
    UnparserProgress,
};
use dfdl_vm::tdml::suite::TdmlSuite;
use dfdl_vm::value::DfdlValue;
use dfdl_vm::xsd::document::parse_schema;

const SUITE: &str = r##"<tdml:testSuite suiteName="t" xmlns:tdml="http://www.ibm.com/xmlns/dfdl/testData">
  <tdml:defineSchema name="s"><xs:element name="A" type="xs:int" xmlns:xs="http://www.w3.org/2001/XMLSchema"/></tdml:defineSchema>
  <tdml:parserTestCase name="good" root="A" model="s" roundTrip="twoPass">
    <tdml:document><tdml:documentPart type="text">5</tdml:documentPart></tdml:document>
    <tdml:infoset><tdml:dfdlInfoset><A>5</A></tdml:dfdlInfoset></tdml:infoset>
  </tdml:parserTestCase>
  <tdml:parserTestCase name="bad" root="A" model="s">
    <tdml:document><tdml:documentPart type="text">x</tdml:documentPart></tdml:document>
    <tdml:errors><tdml:error>Parse Error</tdml:error><tdml:error>not a number</tdml:error></tdml:errors>
  </tdml:parserTestCase>
  <tdml:unparserTestCase name="out" root="A" model="s">
    <tdml:infoset><tdml:dfdlInfoset><A>5</A></tdml:dfdlInfoset></tdml:infoset>
    <tdml:document><tdml:documentPart type="text">5</tdml:documentPart></tdml:document>
  </tdml:unparserTestCase>
</tdml:testSuite>"##;

fn compiled() -> CompiledSchema {
    CompiledSchema {
        schema: parse_schema("<xs:schema xmlns:xs=\"http://www.w3.org/2001/XMLSchema\"><xs:element name=\"A\" type=\"xs:int\"/></xs:schema>")
            .expect("schema"),
        program: IrProgram {
            root: IrNode::Element {
                name: "A".to_string(),
                kind: ValueKind::Int,
                child: None,
                props: IrProps {
                    hidden: false,
                    nillable: false,
                    output_value_calc: false,
                    output_value_calc_literal: false,
                    output_value_calc_sibling: false,
                    output_value_calc_conditional: false,
                    occurs_min: 1,
                    occurs_max: Some(1),
                    occurs_count_kind: dfdl_vm::ast::OccursCountKind::Implicit,
                    occurs_count_fn_path: None,
                    facets: IrFacets {
                        checked: false,
                        xsd_type: None,
                        min_length: None,
                        total_digits: None,
                        value_min_inclusive: None,
                        value_max_inclusive: None,
                        value_min_exclusive: None,
                        value_max_exclusive: None,
                        facet_enumeration: Vec::new(),
                    },
                },
            },
            root_element: "A".to_string(),
        },
        parse_refusal: None,
        unparse_refusal: None,
        entity_limit: None,
        format_bit_order: BitOrder::MostSignificantBitFirst,
    }
}

fn value(n: i32) -> DecodedValue {
    let mut m = StrMap::new();
    m.insert("A".to_string(), DfdlValue::Int(n));
    DecodedValue {
        value: DfdlValue::sequence(m),
        raw_errors: Vec::new(),
        details: Vec::new(),
        equal_numbers: Vec::new(),
    }
}

fn suite() -> TdmlSuite {
    parse_tdml(SUITE).expect("suite")
}

fn texts(list: &[&str]) -> Vec<String> {
    list.iter().map(|s| s.to_string()).collect()
}

#[test]
fn expected_messages_are_found_in_errors() {
    assert!(error_messages_match(&texts(&["Parse Error", " Not A Number "]), "parse: not a number"));
    assert!(!error_messages_match(&texts(&["missing"]), "parse: not a number"));
    assert!(error_messages_match(&texts(&["", "line 5", "x.xsd", "Schema Definition Error"]), "z"));
    assert!(error_messages_match(&texts(&["needed 5 bits"]), "needed 3 bits"));
    assert!(error_messages_match(&texts(&["found only 5"]), "found only 3"));
    assert!(error_messages_match(&texts(&["Long"]), "not an int"));
    assert!(error_messages_match(&Vec::new(), "anything"));
    assert_eq!(normalize_error_text("A\n\tB\r"), "a%nl;%ht;b%cr;");
}

#[test]
fn warnings_of_a_root_come_behind_those_of_the_schema() {
    let mut doc = compiled().schema;
    doc.schema_warnings = texts(&["w1"]);
    doc.scoped_schema_warnings.insert("A".to_string(), texts(&["w2"]));
    let w = schema_warnings_for_root(&doc, "A");
    assert_eq!(w, texts(&["w1", "w2"]));
    assert_eq!(schema_warnings_for_root(&doc, "B"), texts(&["w1"]));
    assert_eq!(
        escalated_schema_warnings_message(&w),
        "Schema Definition Warning Escalated Error\nw1\nw2"
    );
    assert_eq!(
        escalated_schema_warnings_message(&Vec::new()),
        "Schema Definition Warning Escalated Error"
    );
}

#[test]
fn a_test_goes_from_schema_to_value_to_bytes_and_back() {
    let s = suite();
    let r = SchemaResolver::new();
    let t = &s.tests[0];
    let options = ParserTestRunOptions { verify_round_trip: true, verify_canonical_round_trip: false };
    let mut p = ParserProgress::new();
    let ParserAction::Compile(task) = run_parser_test_with_options(&s, &r, t, options, &p) else {
        panic!("compile");
    };
    assert_eq!(task.root, "A");
    assert!(task.xsd.contains("name=\"A\""));
    p.compiled = Some(Ok(compiled()));
    let ParserAction::Decode(task) = run_parser_test_with_options(&s, &r, t, options, &p) else {
        panic!("decode");
    };
    assert_eq!(task.data, b"5".to_vec());
    assert_eq!(task.frame_bits, None);
    assert!(!task.check_facets);
    assert!(task.strict_end);
    assert!(task.variables.is_empty());
    p.decoded = Some(Ok(value(5)));
    assert!(matches!(run_parser_test(&s, &r, t, &p), ParserAction::Finish(TestOutcome::Pass)));
    let ParserAction::Encode(v) = run_parser_test_with_options(&s, &r, t, options, &p) else {
        panic!("encode");
    };
    assert_eq!(format!("{v:?}"), format!("{:?}", value(5).value));
    p.encoded = Some(Ok(b"6".to_vec()));
    let ParserAction::Finish(TestOutcome::Fail(m)) =
        run_parser_test_with_options(&s, &r, t, options, &p)
    else {
        panic!("fail");
    };
    assert_eq!(m, "roundtrip byte mismatch: expected 1 byte(s), got 1 byte(s)");
    p.encoded = Some(Ok(b"5".to_vec()));
    let ParserAction::DecodeAgain(b) = run_parser_test_with_options(&s, &r, t, options, &p) else {
        panic!("decode again");
    };
    assert_eq!(b, b"5");
    p.reread = Some(Ok(value(5)));
    assert!(matches!(
        run_parser_test_with_options(&s, &r, t, options, &p),
        ParserAction::Finish(TestOutcome::Pass)
    ));
    p.reread = Some(Ok(value(6)));
    let ParserAction::Finish(TestOutcome::Fail(m)) =
        run_parser_test_with_options(&s, &r, t, options, &p)
    else {
        panic!("fail");
    };
    assert_eq!(m, "twoPass infoset mismatch after re-parse");
}

#[test]
fn a_wrong_value_fails_a_test() {
    let s = suite();
    let r = SchemaResolver::new();
    let p = ParserProgress {
        compiled: Some(Ok(compiled())),
        decoded: Some(Ok(value(6))),
        encoded: None,
        reread: None,
    };
    let ParserAction::Finish(TestOutcome::Fail(m)) = run_parser_test(&s, &r, &s.tests[0], &p) else {
        panic!("fail");
    };
    assert_eq!(m, "text mismatch for `A`: expected `5`, got `6`");
}

#[test]
fn a_test_can_expect_an_error() {
    let s = suite();
    let r = SchemaResolver::new();
    let t = &s.tests[1];
    let mut p = ParserProgress::new();
    p.compiled = Some(Err("no".to_string()));
    let ParserAction::Finish(TestOutcome::Fail(m)) = run_parser_test(&s, &r, t, &p) else {
        panic!("fail");
    };
    assert_eq!(m, "compile error mismatch: no");
    p.compiled = Some(Ok(compiled()));
    p.decoded = Some(Err("`x` is not a number".to_string()));
    assert!(matches!(run_parser_test(&s, &r, t, &p), ParserAction::Finish(TestOutcome::Pass)));
    p.decoded = Some(Ok(value(1)));
    let ParserAction::Finish(TestOutcome::Fail(m)) = run_parser_test(&s, &r, t, &p) else {
        panic!("fail");
    };
    assert_eq!(m, "expected decode error (2 message(s))");
}

#[test]
fn a_suite_is_run_test_by_test() {
    let r = SchemaResolver::new();
    let done = vec![ParserProgress {
        compiled: Some(Ok(compiled())),
        decoded: Some(Ok(value(5))),
        encoded: None,
        reread: None,
    }];
    let list = run_suite(SUITE, &r, &done).expect("suite");
    assert_eq!(list.len(), 2);
    assert_eq!(list[0].0, "good");
    assert!(matches!(list[0].1, ParserAction::Finish(TestOutcome::Pass)));
    assert!(matches!(list[1].1, ParserAction::Compile(_)));
    assert!(run_suite("<a/>", &r, &done).is_err());
    let none = Vec::new();
    let missing = SUITE.replace("model=\"s\"", "model=\"nowhere\"");
    let list = run_suite(&missing, &r, &none).expect("suite");
    let ParserAction::Finish(TestOutcome::Fail(m)) = &list[0].1 else {
        panic!("fail");
    };
    assert!(m.starts_with("schema `nowhere`: "), "{m}");
    let ignored = SUITE.replace("name=\"good\"", "name=\"multifile_choice_02b\"");
    let list = run_suite(&ignored, &r, &none).expect("suite");
    assert!(matches!(list[0].1, ParserAction::Finish(TestOutcome::Skip(_))));
}

#[test]
fn an_unparser_test_goes_from_infoset_to_bytes() {
    let s = suite();
    let r = SchemaResolver::new();
    let t = &s.unparser_tests[0];
    let mut p = UnparserProgress::new();
    assert!(matches!(run_unparser_test(&s, &r, t, &p), UnparserAction::Compile(_)));
    p.compiled = Some(Ok(compiled()));
    let UnparserAction::Encode(task) = run_unparser_test(&s, &r, t, &p) else {
        panic!("encode");
    };
    assert_eq!(task.value.field("A").and_then(|v| v.as_i32()), Some(5));
    assert!(task.private_use_as_utf8);
    p.encoded = Some(Ok(EncodedDocument { bytes: b"5".to_vec(), bits: 0 }));
    assert!(matches!(run_unparser_test(&s, &r, t, &p), UnparserAction::Finish(TestOutcome::Pass)));
    p.encoded = Some(Ok(EncodedDocument { bytes: b"6".to_vec(), bits: 0 }));
    let UnparserAction::Finish(TestOutcome::Fail(m)) = run_unparser_test(&s, &r, t, &p) else {
        panic!("fail");
    };
    assert_eq!(
        m,
        "encoded document mismatch: got [36] (0 trailing bits), expected [35] (None trailing bits)"
    );
    let mut s = suite();
    s.unparser_tests[0].expected_errors = Some(texts(&["differs at character 1"]));
    assert!(matches!(
        run_unparser_test(&s, &r, &s.unparser_tests[0], &p),
        UnparserAction::Finish(TestOutcome::Pass)
    ));
    p.encoded = Some(Ok(EncodedDocument { bytes: b"5".to_vec(), bits: 0 }));
    let UnparserAction::Finish(TestOutcome::Fail(m)) =
        run_unparser_test(&s, &r, &s.unparser_tests[0], &p)
    else {
        panic!("fail");
    };
    assert_eq!(m, "expected encode error (1 message(s))");
}

#[test]
fn bytes_may_differ_behind_the_last_bit() {
    let mut d = suite().tests[0].documents.remove(0);
    d.data = vec![0xAB, 0xC0];
    d.last_byte_bit_count = Some(4);
    assert!(encoded_matches_document(&vec![0xAB, 0xCF], 4, &d));
    assert!(!encoded_matches_document(&vec![0xAB, 0xDF], 4, &d));
    assert!(!encoded_matches_document(&vec![0xAA, 0xCF], 4, &d));
    assert!(!encoded_matches_document(&vec![0xAB, 0xC0], 0, &d));
    d.last_byte_bit_count = None;
    assert!(encoded_matches_document(&vec![0xAB, 0xC0], 0, &d));
    assert!(!encoded_matches_document(&vec![0xAB], 0, &d));
    assert!(encoded_matches_document(&vec![0xAB, 0xC1], 7, &d));
    assert_eq!(hex_preview(&vec![0, 0xab, 0x10]), "00ab10");
}

#[test]
fn the_schema_of_a_task_is_read_and_held_to_the_rules() {
    let s = suite();
    let r = SchemaResolver::new();
    let p = ParserProgress::new();
    let ParserAction::Compile(mut task) = run_parser_test(&s, &r, &s.tests[0], &p) else {
        panic!("compile");
    };
    task.label = Some("l.xsd".to_string());
    task.xsd = "<xs:schema xmlns:xs=\"http://www.w3.org/2001/XMLSchema\"><xs:element name=\"A\" type=\"xs:int\"/></xs:schema>".to_string();
    task.base_dir = None;
    assert_eq!(parse_task_schema(&task, &r).expect("schema").schema_source_label, None);
    task.base_dir = Some("d".to_string());
    let doc = parse_task_schema(&task, &r).expect("schema");
    assert_eq!(doc.schema_source_label.as_deref(), Some("l.xsd"));
    let err = prepare_task_schema(&task, &r).unwrap_err();
    assert!(err.to_text().ends_with("Schema Definition Error: Non-DFDL Schema file"));
}
