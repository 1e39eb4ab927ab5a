use dfdl_vm::ast::{ComplexContent, TypeDef};
use dfdl_vm::qname::get_global_element;
use dfdl_vm::tdml::suite::DaffodilTunables;
use dfdl_vm::validate::compiled::{length_not_defined_message, validate_compiled_schema};
use dfdl_vm::validate::complex::{
    validate_reachable_assert_path_indexing, validate_reachable_unordered_sequences,
};
use dfdl_vm::validate::hidden::validate_hidden_groups_unparse;
use dfdl_vm::validate::tunables::validate_tunable_schema_requirements;
use dfdl_vm::validate::types::validate_type_references;
use dfdl_vm::xsd::document::parse_schema;

fn schema(body: &str) -> String {
    format!(
        "<xs:schema xmlns:xs=\"http://www.w3.org/2001/XMLSchema\"\n  xmlns:dfdl=\"http://www.ogf.org/dfdl/dfdl-1.0/\" xmlns:ex=\"http://example.com\">\n{}\n</xs:schema>",
        body
    )
}

#[test]
fn hidden_group_ref_appinfo_attribute_notation_is_sde() {
    let xsd = r#"<xs:schema xmlns:xs="http://www.w3.org/2001/XMLSchema"
  xmlns:dfdl="http://www.ogf.org/dfdl/dfdl-1.0/" xmlns:ex="http://example.com">
  <xs:group name="ab">
    <xs:sequence dfdl:separator=":">
      <xs:element name="a" dfdl:length="1" dfdl:lengthKind="explicit" type="xs:int" />
      <xs:element name="b" dfdl:length="1" dfdl:lengthKind="explicit" type="xs:int" />
    </xs:sequence>
  </xs:group>
  <xs:element name="e">
    <xs:complexType>
      <xs:sequence>
        <xs:annotation>
          <xs:appinfo source="http://www.ogf.org/dfdl/">
            <dfdl:sequence hiddenGroupRef="ex:ab"/>
          </xs:appinfo>
        </xs:annotation>
      </xs:sequence>
    </xs:complexType>
  </xs:element>
</xs:schema>"#;
    let doc = parse_schema(xsd).expect("parse");
    let el = get_global_element(&doc, "e").expect("e");
    let TypeDef::Complex { content, .. } = doc.resolve_type(&el.type_ref).unwrap() else {
        panic!("complex");
    };
    let ComplexContent::Sequence(seq) = content else {
        panic!("seq");
    };
    assert!(
        seq.props.statements.hidden_group_ref_from_appinfo_sequence,
        "flag should be set: {:?}",
        seq.props
    );
    let err = validate_compiled_schema(&doc, "e", &DaffodilTunables::default()).unwrap_err();
    let msg = err.to_text();
    assert!(msg.contains("cannot have children"), "{msg}");
}

#[test]
fn hidden_group_ref_sequence_with_children_is_sde() {
    let xsd = r#"<xs:schema xmlns:xs="http://www.w3.org/2001/XMLSchema"
  xmlns:dfdl="http://www.ogf.org/dfdl/dfdl-1.0/" xmlns:ex="http://example.com">
  <xs:group name="hg">
    <xs:sequence>
      <xs:element name="f" type="xs:int"/>
    </xs:sequence>
  </xs:group>
  <xs:element name="e">
    <xs:complexType>
      <xs:sequence>
        <xs:sequence dfdl:hiddenGroupRef="ex:hg">
          <xs:element name="x" type="xs:int"/>
        </xs:sequence>
      </xs:sequence>
    </xs:complexType>
  </xs:element>
</xs:schema>"#;
    let doc = parse_schema(xsd).expect("parse");
    let err = validate_compiled_schema(&doc, "e", &DaffodilTunables::default()).unwrap_err();
    let msg = err.to_text();
    assert!(msg.contains("cannot have children"), "{msg}");
}

#[test]
fn a_schema_without_annotations_is_refused() {
    let xsd = r#"<xs:schema xmlns:xs="http://www.w3.org/2001/XMLSchema">
  <xs:element name="e" type="xs:int"/>
</xs:schema>"#;
    let doc = parse_schema(xsd).expect("parse");
    let err = validate_compiled_schema(&doc, "e", &DaffodilTunables::default()).unwrap_err();
    assert!(err.to_text().ends_with("Schema Definition Error: Non-DFDL Schema file"));
}

#[test]
fn a_plain_annotated_schema_keeps_all_rules() {
    let doc = parse_schema(&schema(
        "<xs:element name=\"e\" type=\"xs:int\" dfdl:lengthKind=\"explicit\" dfdl:length=\"1\"/>",
    ))
    .expect("parse");
    assert!(validate_compiled_schema(&doc, "e", &DaffodilTunables::default()).is_ok());
}

#[test]
fn what_was_noticed_on_reading_blocks() {
    let mut doc = parse_schema(&schema(
        "<xs:element name=\"e\" type=\"xs:int\" dfdl:lengthKind=\"implicit\"/>",
    ))
    .expect("parse");
    doc.schema_diagnostics = vec!["first".to_string(), "second".to_string()];
    let err = validate_compiled_schema(&doc, "e", &DaffodilTunables::default()).unwrap_err();
    assert!(err.to_text().ends_with("first\nsecond"));
    doc.schema_diagnostics = vec!["`1` is not a valid NCName".to_string(), "NCName".to_string()];
    assert!(validate_compiled_schema(&doc, "e", &DaffodilTunables::default()).is_ok());
    assert!(validate_compiled_schema(&doc, "missing", &DaffodilTunables::default()).is_err());
}

#[test]
fn a_missing_type_is_named() {
    let plain = schema("<xs:element name=\"e\" type=\"nowhere\" dfdl:lengthKind=\"implicit\"/>");
    let doc = parse_schema(&plain).expect("parse");
    assert!(validate_type_references(&doc).is_ok());
    let named = plain.replace("xmlns:ex=", "targetNamespace=\"urn:t\" xmlns:ex=");
    let doc = parse_schema(&named).expect("parse");
    let err = validate_type_references(&doc).unwrap_err();
    assert!(err.to_text().contains("nowhere"), "{}", err.to_text());
}

#[test]
fn unordered_sequences_hold_elements_of_different_names() {
    let xsd = schema(
        "<xs:element name=\"e\"><xs:complexType><xs:sequence dfdl:sequenceKind=\"unordered\">\
         <xs:element name=\"a\" type=\"xs:int\"/><xs:element name=\"a\" type=\"xs:int\"/>\
         </xs:sequence></xs:complexType></xs:element>",
    );
    let doc = parse_schema(&xsd).expect("parse");
    let err = validate_reachable_unordered_sequences(&doc, "e").unwrap_err();
    assert!(err.to_text().contains("have the same name and the same namespace (a)"));
    assert!(validate_reachable_unordered_sequences(&doc, "other").is_ok());
}

#[test]
fn discriminators_do_not_index_by_number() {
    let xsd = schema(
        "<xs:element name=\"e\"><xs:complexType><xs:sequence>\
         <xs:element name=\"a\" type=\"xs:int\"><xs:annotation>\
         <xs:appinfo source=\"http://www.ogf.org/dfdl/\">\
         <dfdl:discriminator test=\"{ ../ex:b[2] eq 1 }\"/></xs:appinfo>\
         </xs:annotation></xs:element></xs:sequence></xs:complexType></xs:element>",
    );
    let doc = parse_schema(&xsd).expect("parse");
    let err = validate_reachable_assert_path_indexing(&doc, "e").unwrap_err();
    assert!(err.to_text().contains("Indexing is only allowed on arrays"));
    let doc = parse_schema(&xsd.replace("[2]", "")).expect("parse");
    assert!(validate_reachable_assert_path_indexing(&doc, "e").is_ok());
}

#[test]
fn settings_can_require_properties() {
    let doc = parse_schema(&schema(
        "<xs:element name=\"e\" type=\"xs:int\" dfdl:lengthKind=\"implicit\"/>",
    ))
    .expect("parse");
    let mut t = DaffodilTunables::default();
    assert!(validate_tunable_schema_requirements(&doc, "e", &t).is_ok());
    t.require_floating_property = Some(true);
    let err = validate_tunable_schema_requirements(&doc, "e", &t).unwrap_err();
    assert!(err.to_text().contains("Property floating is not defined."));
    t.require_text_bidi_property = Some(true);
    let err = validate_tunable_schema_requirements(&doc, "e", &t).unwrap_err();
    assert!(err.to_text().contains("Property textBidi is not defined."));
    t.require_encoding_error_policy = Some(true);
    let err = validate_tunable_schema_requirements(&doc, "e", &t).unwrap_err();
    assert!(err.to_text().contains("Property encodingErrorPolicy is not defined."));
}

#[test]
fn the_place_of_a_missing_length_is_named() {
    let mut doc = parse_schema(&schema("<xs:element name=\"e\" type=\"xs:int\"/>")).expect("parse");
    doc.schema_source_text = None;
    let plain = "Schema Definition Error: Property length is not defined";
    assert_eq!(length_not_defined_message(&doc, Some("e")), plain);
    doc.schema_source_text = Some("first\n\u{e9} <xs:element name=\"e\"/>\n".to_string());
    doc.schema_source_label = Some("s.xsd".to_string());
    assert_eq!(
        length_not_defined_message(&doc, Some("e")),
        format!("{plain}\ns.xsd\nline 2\ncolumn 5")
    );
    assert_eq!(length_not_defined_message(&doc, Some("f")), plain);
    assert_eq!(length_not_defined_message(&doc, None), plain);
}

#[test]
fn hidden_elements_must_be_writable() {
    let body = "<xs:group name=\"h\"><xs:sequence><xs:element name=\"a\" type=\"xs:int\"/></xs:sequence></xs:group>\
         <xs:element name=\"e\"><xs:complexType><xs:sequence>\
         <xs:sequence dfdl:hiddenGroupRef=\"ex:h\"/></xs:sequence></xs:complexType></xs:element>";
    let doc = parse_schema(&schema(body)).expect("parse");
    assert!(validate_hidden_groups_unparse(&doc, "e").is_err());
    assert!(validate_hidden_groups_unparse(&doc, "other").is_ok());
}
