use dfdl_vm::ast::TypeName;
use dfdl_vm::union_validate::{
    pattern_matches_given, pattern_matches_whole, restriction_level_accepts,
    validate_union_membership,
};
use dfdl_vm::xsd::document::parse_schema;

#[test]
fn seven_as_not_in_union_of_length_branches() {
    let xsd = r#"<?xml version="1.0" encoding="UTF-8"?>
<xs:schema xmlns:xs="http://www.w3.org/2001/XMLSchema" xmlns:ex="http://example.com">
  <xs:simpleType name="uu">
<xs:union>
  <xs:simpleType>
    <xs:restriction base="xs:string">
      <xs:maxLength value="1"/>
      <xs:minLength value="1"/>
    </xs:restriction>
  </xs:simpleType>
  <xs:simpleType>
    <xs:restriction base="xs:string">
      <xs:maxLength value="6"/>
      <xs:minLength value="2"/>
    </xs:restriction>
  </xs:simpleType>
</xs:union>
  </xs:simpleType>
  <xs:simpleType name="restricted">
<xs:restriction base="ex:uu">
  <xs:pattern value="a*"/>
</xs:restriction>
  </xs:simpleType>
</xs:schema>"#;
    let doc = parse_schema(xsd).expect("parse");
    assert!(!validate_union_membership(
        &doc,
        &TypeName::new("restricted"),
        "aaaaaaa"
    ));
    assert!(validate_union_membership(&doc, &TypeName::new("restricted"), "aa"));
}

#[test]
fn a_pattern_must_match_the_whole_text() {
    assert!(pattern_matches_whole("aaa", "a*"));
    assert!(!pattern_matches_whole("aab", "a*"));
    assert!(pattern_matches_whole("ab", " a|ab "));
    assert!(!pattern_matches_whole("a", "("));
    assert!(pattern_matches_whole("", "  "));
    assert!(!pattern_matches_whole("a", ""));
}

#[test]
fn a_found_pattern_decides_unless_it_is_empty() {
    assert!(pattern_matches_given("x", "y", Some(true), false));
    assert!(!pattern_matches_given("x", "x", Some(false), true));
    assert!(!pattern_matches_given("x", "(", None, false));
    assert!(pattern_matches_given("x", "(", None, true));
    assert!(pattern_matches_given("", "", Some(false), false));
}

#[test]
fn lengths_count_characters() {
    let none: Vec<String> = Vec::new();
    assert!(restriction_level_accepts(Some(2), Some(2), &none, "\u{e4}\u{f6}"));
    assert!(!restriction_level_accepts(Some(3), None, &none, "\u{e4}\u{f6}"));
    assert!(!restriction_level_accepts(None, Some(1), &none, "\u{e4}\u{f6}"));
    let some = vec!["b".to_string(), "a+".to_string()];
    assert!(restriction_level_accepts(None, None, &some, "aa"));
    assert!(!restriction_level_accepts(None, None, &some, "c"));
}

#[test]
fn a_type_defined_by_itself_has_no_values() {
    let xsd = r#"<xs:schema xmlns:xs="http://www.w3.org/2001/XMLSchema">
  <xs:simpleType name="u"><xs:union memberTypes="u"/></xs:simpleType>
</xs:schema>"#;
    let doc = parse_schema(xsd).expect("parse");
    assert!(!validate_union_membership(&doc, &TypeName::new("u"), "x"));
    assert!(validate_union_membership(&doc, &TypeName::new("missing"), "x"));
}
