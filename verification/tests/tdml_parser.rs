use dfdl_vm::tdml::bits::{
    assemble_tdml_document_bytes, bit_chunks_for_part, collect_bit_digits_from_text,
    parse_hex_document, DocumentBitOrder, DocumentByteOrder,
};
use dfdl_vm::tdml::parser::parse_tdml;
use dfdl_vm::tdml::suite::RoundTrip;

#[test]
fn tests_parse_byte_document_part_as_hex() {
    let tdml = r##"<tdml:testSuite suiteName="t" xmlns:tdml="http://www.ibm.com/xmlns/dfdl/testData">
  <tdml:defineSchema name="s"><xs:schema xmlns:xs="http://www.w3.org/2001/XMLSchema"><xs:element name="A" type="xs:int"/></xs:schema></tdml:defineSchema>
  <tdml:parserTestCase name="bin" root="A" model="s">
    <tdml:document><tdml:documentPart type="byte">00 00 00 05</tdml:documentPart></tdml:document>
    <tdml:infoset><tdml:dfdlInfoset><A>5</A></tdml:dfdlInfoset></tdml:infoset>
  </tdml:parserTestCase>
</tdml:testSuite>"##;
    let suite = parse_tdml(tdml).expect("parse");
    let test = suite.tests.iter().find(|t| t.name == "bin").unwrap();
    assert_eq!(test.documents[0].data, vec![0, 0, 0, 5]);
}

#[test]
fn parser_parse_byte_document_part_as_hex() {
    let tdml = r##"<tdml:testSuite suiteName="t" xmlns:tdml="http://www.ibm.com/xmlns/dfdl/testData">
  <tdml:defineSchema name="s"><xs:schema xmlns:xs="http://www.w3.org/2001/XMLSchema"><xs:element name="A" type="xs:int"/></xs:schema></tdml:defineSchema>
  <tdml:parserTestCase name="bin" root="A" model="s">
    <tdml:document><tdml:documentPart type="byte">00 00 00 05</tdml:documentPart></tdml:document>
    <tdml:infoset><tdml:dfdlInfoset><A>5</A></tdml:dfdlInfoset></tdml:infoset>
  </tdml:parserTestCase>
</tdml:testSuite>"##;
    let suite = parse_tdml(tdml).expect("parse");
    let test = suite.tests.iter().find(|t| t.name == "bin").unwrap();
    assert_eq!(test.documents[0].data, vec![0, 0, 0, 5]);
}

#[test]
fn tests_parse_utf16be_document_part() {
    let tdml = r##"<tdml:testSuite suiteName="t" xmlns:tdml="http://www.ibm.com/xmlns/dfdl/testData">
  <tdml:defineSchema name="s"><xs:schema xmlns:xs="http://www.w3.org/2001/XMLSchema"><xs:element name="A" type="xs:string"/></xs:schema></tdml:defineSchema>
  <tdml:parserTestCase name="utf16" root="A" model="s">
    <tdml:document><tdml:documentPart type="text" encoding="utf-16be">AB</tdml:documentPart></tdml:document>
    <tdml:infoset><tdml:dfdlInfoset><A>AB</A></tdml:dfdlInfoset></tdml:infoset>
  </tdml:parserTestCase>
</tdml:testSuite>"##;
    let suite = parse_tdml(tdml).expect("parse");
    let test = suite.tests.iter().find(|t| t.name == "utf16").unwrap();
    assert_eq!(test.documents[0].data, vec![0x00, b'A', 0x00, b'B']);
}

#[test]
fn parser_parse_utf16be_document_part() {
    let tdml = r##"<tdml:testSuite suiteName="t" xmlns:tdml="http://www.ibm.com/xmlns/dfdl/testData">
  <tdml:defineSchema name="s"><xs:schema xmlns:xs="http://www.w3.org/2001/XMLSchema"><xs:element name="A" type="xs:string"/></xs:schema></tdml:defineSchema>
  <tdml:parserTestCase name="utf16" root="A" model="s">
    <tdml:document><tdml:documentPart type="text" encoding="utf-16be">AB</tdml:documentPart></tdml:document>
    <tdml:infoset><tdml:dfdlInfoset><A>AB</A></tdml:dfdlInfoset></tdml:infoset>
  </tdml:parserTestCase>
</tdml:testSuite>"##;
    let suite = parse_tdml(tdml).expect("parse");
    let test = suite.tests.iter().find(|t| t.name == "utf16").unwrap();
    assert_eq!(test.documents[0].data, vec![0x00, b'A', 0x00, b'B']);
}

#[test]
fn tests_parse_round_trip_attributes() {
    let tdml = r##"<tdml:testSuite suiteName="t" defaultRoundTrip="onePass" xmlns:tdml="http://www.ibm.com/xmlns/dfdl/testData">
  <tdml:defineSchema name="s"><xs:schema xmlns:xs="http://www.w3.org/2001/XMLSchema"><xs:element name="A" type="xs:string"/></xs:schema></tdml:defineSchema>
  <tdml:parserTestCase name="two" root="A" model="s" roundTrip="twoPass">
    <tdml:document><tdml:documentPart type="text">x</tdml:documentPart></tdml:document>
    <tdml:infoset><tdml:dfdlInfoset><A>x</A></tdml:dfdlInfoset></tdml:infoset>
  </tdml:parserTestCase>
</tdml:testSuite>"##;
    let suite = parse_tdml(tdml).expect("parse");
    assert_eq!(suite.default_round_trip, RoundTrip::OnePass);
    assert_eq!(suite.tests[0].round_trip, RoundTrip::TwoPass);
}

#[test]
fn parser_parse_round_trip_attributes() {
    let tdml = r##"<tdml:testSuite suiteName="t" defaultRoundTrip="onePass" xmlns:tdml="http://www.ibm.com/xmlns/dfdl/testData">
  <tdml:defineSchema name="s"><xs:schema xmlns:xs="http://www.w3.org/2001/XMLSchema"><xs:element name="A" type="xs:string"/></xs:schema></tdml:defineSchema>
  <tdml:parserTestCase name="two" root="A" model="s" roundTrip="twoPass">
    <tdml:document><tdml:documentPart type="text">x</tdml:documentPart></tdml:document>
    <tdml:infoset><tdml:dfdlInfoset><A>x</A></tdml:dfdlInfoset></tdml:infoset>
  </tdml:parserTestCase>
</tdml:testSuite>"##;
    let suite = parse_tdml(tdml).expect("parse");
    assert_eq!(suite.default_round_trip, RoundTrip::OnePass);
    assert_eq!(suite.tests[0].round_trip, RoundTrip::TwoPass);
}

#[test]
fn tests_parse_unparser_test_case() {
    let tdml = r##"<tdml:testSuite suiteName="t" xmlns:tdml="http://www.ibm.com/xmlns/dfdl/testData" xmlns:ex="http://example.com">
  <tdml:defineSchema name="s"><xs:schema xmlns:xs="http://www.w3.org/2001/XMLSchema"><xs:element name="A" type="xs:string"/></xs:schema></tdml:defineSchema>
  <tdml:unparserTestCase name="enc" root="A" model="s">
    <tdml:infoset><tdml:dfdlInfoset><A>hi</A></tdml:dfdlInfoset></tdml:infoset>
    <tdml:errors><tdml:error>bad</tdml:error></tdml:errors>
  </tdml:unparserTestCase>
</tdml:testSuite>"##;
    let suite = parse_tdml(tdml).expect("parse");
    assert_eq!(suite.unparser_tests.len(), 1);
    assert_eq!(
        suite.unparser_tests[0].expected_errors,
        Some(vec![String::from("bad")])
    );
}

#[test]
fn parser_parse_unparser_test_case() {
    let tdml = r##"<tdml:testSuite suiteName="t" xmlns:tdml="http://www.ibm.com/xmlns/dfdl/testData" xmlns:ex="http://example.com">
  <tdml:defineSchema name="s"><xs:schema xmlns:xs="http://www.w3.org/2001/XMLSchema"><xs:element name="A" type="xs:string"/></xs:schema></tdml:defineSchema>
  <tdml:unparserTestCase name="enc" root="A" model="s">
    <tdml:infoset><tdml:dfdlInfoset><A>hi</A></tdml:dfdlInfoset></tdml:infoset>
    <tdml:errors><tdml:error>bad</tdml:error></tdml:errors>
  </tdml:unparserTestCase>
</tdml:testSuite>"##;
    let suite = parse_tdml(tdml).expect("parse");
    assert_eq!(suite.unparser_tests.len(), 1);
    assert_eq!(
        suite.unparser_tests[0].expected_errors,
        Some(vec![String::from("bad")])
    );
}

#[test]
fn tests_lsb_document_bits_matches_daffodil_bit_order_change() {
    let part1_chunks = bit_chunks_for_part(
        &collect_bit_digits_from_text("01001|011"),
        DocumentByteOrder::Ltr,
    );
    let part2_chunks = bit_chunks_for_part(
        &collect_bit_digits_from_text("010101|00"),
        DocumentByteOrder::Ltr,
    );
    let (bytes, _) =
        assemble_tdml_document_bytes(&[part1_chunks, part2_chunks], DocumentBitOrder::LsbFirst);
    assert_eq!(bytes, vec![0x4B, 0x54]);
}

#[test]
fn parser_lsb_document_bits_matches_daffodil_bit_order_change() {
    let part1_chunks = bit_chunks_for_part(
        &collect_bit_digits_from_text("01001|011"),
        DocumentByteOrder::Ltr,
    );
    let part2_chunks = bit_chunks_for_part(
        &collect_bit_digits_from_text("010101|00"),
        DocumentByteOrder::Ltr,
    );
    let (bytes, _) =
        assemble_tdml_document_bytes(&[part1_chunks, part2_chunks], DocumentBitOrder::LsbFirst);
    assert_eq!(bytes, vec![0x4B, 0x54]);
}

#[test]
fn tests_parse_hex_document_ignores_separators_and_odd_nibbles() {
    let data = parse_hex_document("A5-E9-FF-00").unwrap();
    assert_eq!(data, vec![0xA5, 0xE9, 0xFF, 0x00]);
    let odd = parse_hex_document("12345").unwrap();
    assert_eq!(odd, vec![0x01, 0x23, 0x45]);
}

#[test]
fn parser_parse_hex_document_ignores_separators_and_odd_nibbles() {
    let data = parse_hex_document("A5-E9-FF-00").unwrap();
    assert_eq!(data, vec![0xA5, 0xE9, 0xFF, 0x00]);
    let odd = parse_hex_document("12345").unwrap();
    assert_eq!(odd, vec![0x01, 0x23, 0x45]);
}
