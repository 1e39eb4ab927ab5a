use dfdl_vm::ast::{ComplexContent, LengthKind, Particle, SchemaDocument, TypeDef};
use dfdl_vm::attrs::split_dfdl_attrs;
use dfdl_vm::computed::{
    parse_assert_int_eq_test, parse_constant_length_expr, parse_sibling_length_expr,
};
use dfdl_vm::error::Error;
use dfdl_vm::expr::parse_input_value_calc_expression;
use dfdl_vm::props::props_from_attrs;
use dfdl_vm::qname::{format_storage_key, get_global_element};
use dfdl_vm::resolver::SchemaResolver;
use dfdl_vm::strmap::StrMap;
use dfdl_vm::xsd::document::{
    parse_schema, parse_schema_with_options, parse_schema_with_resolver, ParseOptions,
};
use dfdl_vm::xsd::facets::parse_numeric_facet_bound;

const SAMPLE: &str = r#"<?xml version="1.0" encoding="UTF-8"?>
<xs:schema xmlns:xs="http://www.w3.org/2001/XMLSchema"
           xmlns:dfdl="http://www.ogf.org/dfdl/">
  <xs:element name="Record" type="tns:RecordType">
    <xs:annotation>
      <xs:appinfo source="http://www.ogf.org/dfdl/">
        <dfdl:element representation="binary" byteOrder="bigEndian"/>
      </xs:appinfo>
    </xs:annotation>
  </xs:element>
  <xs:complexType name="RecordType">
    <xs:sequence>
      <xs:element name="id" type="xs:unsignedInt">
        <xs:annotation>
          <xs:appinfo source="http://www.ogf.org/dfdl/">
            <dfdl:element representation="binary" byteOrder="bigEndian" lengthKind="implicit"/>
          </xs:appinfo>
        </xs:annotation>
      </xs:element>
      <xs:element name="flags" type="xs:unsignedByte">
        <xs:annotation>
          <xs:appinfo source="http://www.ogf.org/dfdl/">
            <dfdl:element representation="binary" byteOrder="bigEndian" lengthKind="implicit"/>
          </xs:appinfo>
        </xs:annotation>
      </xs:element>
    </xs:sequence>
  </xs:complexType>
</xs:schema>"#;

/// A general format for schemas that take one in.
const GENERAL_FORMAT: &str = r#"<?xml version="1.0" encoding="UTF-8"?>
<xs:schema xmlns:xs="http://www.w3.org/2001/XMLSchema"
           xmlns:dfdl="http://www.ogf.org/dfdl/dfdl-1.0/">
  <xs:annotation>
    <xs:appinfo source="http://www.ogf.org/dfdl/">
      <dfdl:defineFormat name="GeneralFormat">
        <dfdl:format lengthKind="implicit" representation="text" byteOrder="bigEndian"
                     encoding="US-ASCII" separator="" initiator="" terminator=""/>
      </dfdl:defineFormat>
    </xs:appinfo>
  </xs:annotation>
</xs:schema>"#;

fn parse_with_general_format(xsd: &str) -> Result<SchemaDocument, Error> {
    let resolver = SchemaResolver::new().with_bundled(
        "/org/apache/daffodil/xsd/DFDLGeneralFormat.dfdl.xsd",
        GENERAL_FORMAT,
    );
    parse_schema_with_resolver(xsd, resolver)
}

#[test]
fn parse_minimal_schema() {
    let xsd = r#"<xs:schema xmlns:xs="http://www.w3.org/2001/XMLSchema"><xs:element name="A" type="xs:int"/></xs:schema>"#;
    parse_schema(xsd).expect("minimal");
}

#[test]
fn junk_xs_format_in_appinfo_is_sde() {
    let xsd = r#"<?xml version="1.0" encoding="UTF-8"?>
<xs:schema xmlns:xs="http://www.w3.org/2001/XMLSchema"
  xmlns:dfdl="http://www.ogf.org/dfdl/dfdl-1.0/" targetNamespace="http://example.com">
  <xs:annotation>
<xs:appinfo source="http://www.ogf.org/dfdl/">
  <xs:format separator="" initiator="" terminator="" representation="text"/>
</xs:appinfo>
  </xs:annotation>
  <xs:element name="x" type="xs:int" />
</xs:schema>"#;
    let err = parse_schema(xsd).unwrap_err().to_text();
    assert!(err.contains("Invalid dfdl annotation"), "{err}");
}

#[test]
fn parse_schema_with_complex_type() {
    let xsd = r#"<xs:schema xmlns:xs="http://www.w3.org/2001/XMLSchema">
  <xs:element name="Record" type="RecordType"/>
  <xs:complexType name="RecordType">
<xs:sequence>
  <xs:element name="id" type="xs:unsignedInt"/>
</xs:sequence>
  </xs:complexType>
</xs:schema>"#;
    parse_schema(xsd).expect("complex");
}

#[test]
fn parse_schema_with_annotation() {
    let xsd = r#"<xs:schema xmlns:xs="http://www.w3.org/2001/XMLSchema" xmlns:dfdl="http://www.ogf.org/dfdl/">
  <xs:element name="Record" type="xs:int">
<xs:annotation>
  <xs:appinfo source="http://www.ogf.org/dfdl/">
    <dfdl:element representation="binary" byteOrder="bigEndian"/>
  </xs:appinfo>
</xs:annotation>
  </xs:element>
</xs:schema>"#;
    parse_schema(xsd).expect("annotation");
}

#[test]
fn parse_schema_with_annotated_fields() {
    let xsd = r#"<xs:schema xmlns:xs="http://www.w3.org/2001/XMLSchema" xmlns:dfdl="http://www.ogf.org/dfdl/">
  <xs:element name="Record" type="RecordType"/>
  <xs:complexType name="RecordType">
<xs:sequence>
  <xs:element name="id" type="xs:unsignedInt">
    <xs:annotation>
      <xs:appinfo source="http://www.ogf.org/dfdl/">
        <dfdl:element representation="binary" byteOrder="bigEndian" lengthKind="implicit"/>
      </xs:appinfo>
    </xs:annotation>
  </xs:element>
</xs:sequence>
  </xs:complexType>
</xs:schema>"#;
    parse_schema(xsd).expect("annotated fields");
}

#[test]
fn parse_schema_full_record_without_xml_decl() {
    let xsd = r#"<xs:schema xmlns:xs="http://www.w3.org/2001/XMLSchema" xmlns:dfdl="http://www.ogf.org/dfdl/">
  <xs:element name="Record" type="RecordType">
<xs:annotation>
  <xs:appinfo source="http://www.ogf.org/dfdl/">
    <dfdl:element representation="binary" byteOrder="bigEndian"/>
  </xs:appinfo>
</xs:annotation>
  </xs:element>
  <xs:complexType name="RecordType">
<xs:sequence>
  <xs:element name="id" type="xs:unsignedInt">
    <xs:annotation>
      <xs:appinfo source="http://www.ogf.org/dfdl/">
        <dfdl:element representation="binary" byteOrder="bigEndian" lengthKind="implicit"/>
      </xs:appinfo>
    </xs:annotation>
  </xs:element>
  <xs:element name="flags" type="xs:unsignedByte">
    <xs:annotation>
      <xs:appinfo source="http://www.ogf.org/dfdl/">
        <dfdl:element representation="binary" byteOrder="bigEndian" lengthKind="implicit"/>
      </xs:appinfo>
    </xs:annotation>
  </xs:element>
</xs:sequence>
  </xs:complexType>
</xs:schema>"#;
    parse_schema(xsd).expect("full record");
}

#[test]
fn parse_schema_with_xml_decl() {
    let xsd = r#"<?xml version="1.0" encoding="UTF-8"?><xs:schema xmlns:xs="http://www.w3.org/2001/XMLSchema"><xs:element name="A" type="xs:int"/></xs:schema>"#;
    parse_schema(xsd).expect("xml decl");
}

#[test]
fn parse_schema_with_tns_type() {
    let xsd = r#"<xs:schema xmlns:xs="http://www.w3.org/2001/XMLSchema"><xs:element name="Record" type="tns:RecordType"/><xs:complexType name="RecordType"><xs:sequence/></xs:complexType></xs:schema>"#;
    parse_schema(xsd).expect("tns type");
}

#[test]
fn group_ref_named_format_lookup() {
    let tdml_inner = r#"
<xs:include schemaLocation="/org/apache/daffodil/xsd/DFDLGeneralFormat.dfdl.xsd"/>
<dfdl:defineFormat name="def">
  <dfdl:format separator=","/>
</dfdl:defineFormat>
<xs:group name="namedGroup">
  <xs:sequence dfdl:separatorPosition="infix">
    <xs:element name="quantity" type="xs:int" />
  </xs:sequence>
</xs:group>
<xs:element name="Item" dfdl:lengthKind="implicit">
  <xs:complexType>
    <xs:group ref="ex:namedGroup" dfdl:ref="ex:def" />
  </xs:complexType>
</xs:element>"#;
    let xsd = format!(
        r#"<?xml version="1.0" encoding="UTF-8"?>
<xs:schema xmlns:xs="http://www.w3.org/2001/XMLSchema"
       xmlns:dfdl="http://www.ogf.org/dfdl/dfdl-1.0/"
       xmlns:ex="http://example.com"
       targetNamespace="http://example.com">{inner}
</xs:schema>"#,
        inner = tdml_inner
    );
    let doc = parse_with_general_format(&xsd).expect("parse");
    let def_key = format_storage_key("def", Some("http://example.com"));
    let def = doc.named_formats.get(&def_key).expect("def format");
    assert_eq!(def.delimiters.separator.as_deref(), Some(","));
    let item = get_global_element(&doc, "Item").expect("Item");
    if let TypeDef::Complex { content, .. } = doc.resolve_type(&item.type_ref).unwrap() {
        if let ComplexContent::Sequence(seq) = content {
            if let Particle::GroupRef(gr) = &seq.particles[0] {
                assert_eq!(gr.props.delimiters.separator.as_deref(), Some(","));
            } else {
                panic!("expected group ref particle");
            }
        } else {
            panic!("expected sequence content {:?}", content);
        }
    } else {
        panic!("expected complex type");
    }
}

#[test]
fn define_format_in_appinfo_does_not_merge_into_format_defaults() {
    let xsd = r#"<?xml version="1.0" encoding="UTF-8"?>
<xs:schema xmlns:xs="http://www.w3.org/2001/XMLSchema"
       xmlns:dfdl="http://www.ogf.org/dfdl/dfdl-1.0/">
  <xs:annotation>
<xs:appinfo source="http://www.ogf.org/dfdl/">
  <dfdl:format initiator="" terminator="" separator=""/>
  <dfdl:defineFormat name="pipes">
    <dfdl:format separator="|" initiator="||" terminator="|||"/>
  </dfdl:defineFormat>
</xs:appinfo>
  </xs:annotation>
  <xs:element name="A" type="xs:int"/>
</xs:schema>"#;
    let doc = parse_schema(xsd).expect("parse");
    assert_eq!(doc.format_defaults.props.delimiters.initiator.as_deref(), Some(""));
    assert!(doc.named_formats.contains_key("|pipes"));
}

#[test]
fn define_format_does_not_clobber_schema_format_defaults() {
    let xsd = r#"<?xml version="1.0" encoding="UTF-8"?>
<xs:schema xmlns:xs="http://www.w3.org/2001/XMLSchema"
       xmlns:dfdl="http://www.ogf.org/dfdl/dfdl-1.0/"
       xmlns:ex="http://example.com">
  <xs:include schemaLocation="/org/apache/daffodil/xsd/DFDLGeneralFormat.dfdl.xsd"/>
  <dfdl:format ref="ex:GeneralFormat" lengthKind="delimited" representation="text"/>
  <dfdl:defineFormat name="trimmed">
<dfdl:format ref="ex:GeneralFormat" textTrimKind="padChar"/>
  </dfdl:defineFormat>
  <xs:element name="A" type="xs:int"/>
</xs:schema>"#;
    let doc = parse_with_general_format(xsd).expect("parse");
    assert_eq!(
        doc.format_defaults.props.length.length_kind,
        Some(LengthKind::Delimited),
        "defineFormat inner format must not reset schema format defaults"
    );
    assert!(doc.named_formats.contains_key("|trimmed"));
}

#[test]
fn format_delimited_overrides_general_format() {
    let xsd = r#"<?xml version="1.0" encoding="UTF-8"?>
<xs:schema xmlns:xs="http://www.w3.org/2001/XMLSchema"
       xmlns:dfdl="http://www.ogf.org/dfdl/dfdl-1.0/"
       xmlns:ex="http://example.com">
  <xs:include schemaLocation="/org/apache/daffodil/xsd/DFDLGeneralFormat.dfdl.xsd"/>
  <dfdl:format ref="ex:GeneralFormat" lengthKind="delimited"
lengthUnits="bytes" encoding="ascii" separator="" initiator=""
terminator="" occursCountKind="implicit" ignoreCase="no"
textNumberRep="standard" representation="text" initiatedContent="no" />
  <xs:element name="A" type="xs:int"/>
</xs:schema>"#;
    let doc = parse_with_general_format(xsd).expect("parse");
    assert_eq!(
        doc.format_defaults.props.length.length_kind,
        Some(LengthKind::Delimited),
        "format lengthKind=delimited should override GeneralFormat implicit default"
    );
}

#[test]
fn element_ref_unbounded_overrides_global_max() {
    let xsd = r#"<?xml version="1.0" encoding="UTF-8"?>
<xs:schema xmlns:xs="http://www.w3.org/2001/XMLSchema"
       xmlns:dfdl="http://www.ogf.org/dfdl/dfdl-1.0/"
       xmlns:ex="http://example.com">
  <xs:element name="item" type="xs:int"/>
  <xs:element name="wrap">
<xs:complexType>
  <xs:sequence>
    <xs:element ref="ex:item" maxOccurs="unbounded"/>
  </xs:sequence>
</xs:complexType>
  </xs:element>
</xs:schema>"#;
    let doc = parse_schema(xsd).expect("parse");
    let wrap = get_global_element(&doc, "wrap").expect("wrap");
    if let TypeDef::Complex { content, .. } = doc.resolve_type(&wrap.type_ref).unwrap() {
        if let ComplexContent::Sequence(seq) = content {
            if let Particle::Element(el) = &seq.particles[0] {
                assert!(el.props.occurs.max_occurs_specified);
                assert_eq!(el.props.occurs.occurs_max, None);
            } else {
                panic!("expected element particle");
            }
        } else {
            panic!("expected sequence");
        }
    } else {
        panic!("expected complex type");
    }
}

#[test]
fn parse_sample_schema() {
    let doc = parse_schema(SAMPLE).expect("schema should parse");
    assert!(get_global_element(&doc, "Record").is_some());
    assert!(doc.types.contains_key("RecordType"));
}

#[test]
fn parse_constant_length_expression() {
    assert_eq!(parse_constant_length_expr("{ 6 }"), Some(6));
    assert_eq!(parse_constant_length_expr("{1}"), Some(1));
    assert_eq!(parse_constant_length_expr("{ 1 + 1 }"), Some(2));
    assert_eq!(parse_constant_length_expr("{ ../len }"), None);
}

#[test]
fn parse_sibling_length_with_adjustment() {
    assert_eq!(
        parse_sibling_length_expr("{ ../messageLength - 8 }"),
        Some(("messageLength".into(), false, -8))
    );
}

#[test]
fn parse_initiated_content_property() {
    let mut attrs: StrMap<String> = StrMap::new();
    attrs.insert("initiatedContent".into(), "yes".into());
    let props = props_from_attrs(&attrs).expect("props");
    assert_eq!(props.delimiters.initiated_content, Some(true));
    let mut prefixed: StrMap<String> = StrMap::new();
    prefixed.insert("dfdl:initiatedContent".to_string(), "yes".to_string());
    let (xsd, dfdl) = split_dfdl_attrs("sequence", &prefixed).expect("split");
    assert!(xsd.is_empty());
    assert_eq!(dfdl.delimiters.initiated_content, Some(true));
}

#[test]
fn parse_hidden_group_ref_on_empty_sequence() {
    let xsd = r#"<xs:schema xmlns:xs="http://www.w3.org/2001/XMLSchema"
  xmlns:dfdl="http://www.ogf.org/dfdl/dfdl-1.0/" xmlns:base="http://baseSchema.com">
  <xs:group name="aGroup">
<xs:sequence dfdl:separator=".">
  <xs:element name="aMem01" type="xs:string"/>
</xs:sequence>
  </xs:group>
  <xs:element name="root">
<xs:complexType>
  <xs:sequence dfdl:separator="|">
    <xs:sequence dfdl:hiddenGroupRef="base:aGroup"/>
    <xs:element name="tail" type="xs:string"/>
  </xs:sequence>
</xs:complexType>
  </xs:element>
</xs:schema>"#;
    let doc = parse_schema(xsd).expect("parse");
    let el = get_global_element(&doc, "root").expect("root");
    let TypeDef::Complex { content, .. } = doc.resolve_type(&el.type_ref).unwrap() else {
        panic!("complex");
    };
    let ComplexContent::Sequence(outer) = content else {
        panic!("outer sequence");
    };
    assert_eq!(outer.props.delimiters.separator.as_deref(), Some("|"));
    assert_eq!(outer.particles.len(), 2);
    let Particle::Sequence(inner) = &outer.particles[0] else {
        panic!("inner particle");
    };
    assert_eq!(
        inner.props.statements.hidden_group_ref.as_deref(),
        Some("base:aGroup"),
        "inner props: {:?}",
        inner.props
    );
}

#[test]
fn parse_assert_int_eq_test_from_body() {
    assert_eq!(parse_assert_int_eq_test("{ xs:int(.) eq 42 }"), Some(42));
}

#[test]
fn parse_numeric_facet_bound_accepts_decimal_lexical() {
    assert_eq!(parse_numeric_facet_bound("0"), Some(0));
    assert_eq!(parse_numeric_facet_bound("0.0"), Some(0));
    assert_eq!(parse_numeric_facet_bound("-1"), Some(-1));
    assert!(parse_numeric_facet_bound("1.5").is_none());
}

#[test]
fn parse_global_group_skips_annotation_and_comment() {
    let xsd = r#"<xs:schema xmlns:xs="http://www.w3.org/2001/XMLSchema">
  <xs:group name="sequenceGroup">
<xs:annotation><xs:documentation>doc</xs:documentation></xs:annotation>
<!-- COMMENT -->
<xs:sequence>
  <xs:element name="inty" type="xs:int"/>
</xs:sequence>
  </xs:group>
</xs:schema>"#;
    let doc = parse_schema(xsd).expect("annotated group parses");
    assert!(doc.groups.contains_key("sequenceGroup"));
}

#[test]
fn input_value_calc_float_div_expression() {
    assert!(parse_input_value_calc_expression(
        "{ xs:float(xs:int(../ex:e2) div xs:int(../ex:e3)) }"
    )
    .is_some());
}


#[test]
fn initiated_content_stands_in_the_sequence() {
    let xsd = r#"<xs:schema xmlns:xs="http://www.w3.org/2001/XMLSchema"
           xmlns:dfdl="http://www.ogf.org/dfdl/dfdl-1.0/"
           xmlns:ex="http://example.com">
  <xs:include schemaLocation="/org/apache/daffodil/xsd/DFDLGeneralFormat.dfdl.xsd"/>
  <dfdl:format ref="ex:GeneralFormat"/>
  <xs:element name="zeroLengthString">
    <xs:complexType>
      <xs:sequence dfdl:initiatedContent="yes">
        <xs:element name="s1" type="xs:string" dfdl:lengthKind="delimited" dfdl:initiator=""/>
      </xs:sequence>
    </xs:complexType>
  </xs:element>
</xs:schema>"#;
    let doc = parse_with_general_format(xsd).expect("parse");
    let el = get_global_element(&doc, "zeroLengthString").expect("element");
    let TypeDef::Complex { content, .. } = doc.resolve_type(&el.type_ref).unwrap() else {
        panic!("expected complex type");
    };
    let ComplexContent::Sequence(seq) = content else {
        panic!("expected sequence content");
    };
    assert_eq!(seq.props.delimiters.initiated_content, Some(true));
}

#[test]
fn complex_type_group_ref_is_not_empty() {
    let xsd = r#"<?xml version="1.0" encoding="UTF-8"?>
<xs:schema xmlns:xs="http://www.w3.org/2001/XMLSchema"
           xmlns:dfdl="http://www.ogf.org/dfdl/dfdl-1.0/"
           xmlns:ex="http://example.com">
  <xs:include schemaLocation="/org/apache/daffodil/xsd/DFDLGeneralFormat.dfdl.xsd"/>
  <dfdl:format ref="ex:GeneralFormat" lengthKind="delimited" representation="text"/>
  <xs:group name="g">
    <xs:sequence>
      <xs:element name="a" type="xs:string"/>
    </xs:sequence>
  </xs:group>
  <xs:element name="root">
    <xs:complexType>
      <xs:group ref="ex:g"/>
    </xs:complexType>
  </xs:element>
</xs:schema>"#;
    let doc = parse_with_general_format(xsd).expect("parse");
    let el = get_global_element(&doc, "root").expect("root");
    let TypeDef::Complex { content, .. } = doc.resolve_type(&el.type_ref).unwrap() else {
        panic!("complex type");
    };
    let ComplexContent::Sequence(seq) = content else {
        panic!("sequence wrapper");
    };
    assert_eq!(seq.particles.len(), 1);
    assert!(matches!(seq.particles[0], Particle::GroupRef(_)));
}

#[test]
fn a_pad_character_in_property_form_is_read() {
    let xsd = r#"<?xml version="1.0" encoding="UTF-8"?>
<xs:schema xmlns:xs="http://www.w3.org/2001/XMLSchema"
           xmlns:dfdl="http://www.ogf.org/dfdl/dfdl-1.0/"
           xmlns:ex="http://example.com">
  <xs:include schemaLocation="/org/apache/daffodil/xsd/DFDLGeneralFormat.dfdl.xsd"/>
  <dfdl:format ref="ex:GeneralFormat"/>
  <xs:element name="propertyForm" type="xs:string" dfdl:lengthKind="explicit" dfdl:length="1">
    <xs:annotation>
      <xs:appinfo source="http://www.ogf.org/dfdl/">
        <dfdl:element>
          <dfdl:property name="textStringPadCharacter"><![CDATA[ ]]></dfdl:property>
        </dfdl:element>
      </xs:appinfo>
    </xs:annotation>
  </xs:element>
</xs:schema>"#;
    let doc = parse_with_general_format(xsd).expect("property-form pad parses");
    assert!(get_global_element(&doc, "propertyForm").is_some());
}

#[test]
fn the_general_format_is_not_found_without_its_text() {
    let xsd = r#"<xs:schema xmlns:xs="http://www.w3.org/2001/XMLSchema">
  <xs:include schemaLocation="/org/apache/daffodil/xsd/DFDLGeneralFormat.dfdl.xsd"/>
</xs:schema>"#;
    let err = parse_schema(xsd).unwrap_err().to_text();
    assert!(err.contains("Resource not found at Include Location"), "{err}");
    assert!(parse_with_general_format(xsd).is_ok());
}

#[test]
fn a_schema_keeps_its_text_and_label() {
    let xsd = r#"<xs:schema xmlns:xs="http://www.w3.org/2001/XMLSchema"><xs:element name="A" type="xs:int"/></xs:schema>"#;
    let doc = parse_schema(xsd).expect("parse");
    assert_eq!(doc.schema_source_text.as_deref(), Some(xsd));
    assert_eq!(doc.schema_source_label, None);
    let mut options = ParseOptions::default();
    options.schema_label = Some("a.xsd".to_string());
    let doc = parse_schema_with_options(xsd, &options).expect("parse");
    assert_eq!(doc.schema_source_label.as_deref(), Some("a.xsd"));
}

const PART: &str = r#"<xs:schema xmlns:xs="http://www.w3.org/2001/XMLSchema"
  xmlns:dfdl="http://www.ogf.org/dfdl/dfdl-1.0/">
  <xs:include schemaLocation="x.xsd"/>
  <xs:element name="b"><xs:simpleType><xs:restriction base="xs:string"/></xs:simpleType></xs:element>
</xs:schema>"#;

#[test]
fn options_lead_to_files() {
    let xsd = r#"<xs:schema xmlns:xs="http://www.w3.org/2001/XMLSchema"
  xmlns:dfdl="http://www.ogf.org/dfdl/dfdl-1.0/">
  <xs:element name="a"><xs:simpleType><xs:restriction base="xs:string"/></xs:simpleType></xs:element>
  <xs:include schemaLocation="/d/x.xsd"/>
  <xs:element name="c"><xs:simpleType><xs:restriction base="xs:string"/></xs:simpleType></xs:element>
</xs:schema>"#;
    let mut options = ParseOptions::default();
    options.base_dir = Some("base".to_string());
    assert!(parse_schema_with_options(xsd, &options).is_err());
    options.sources = SchemaResolver::new().with_file("base/d/x.xsd", PART);
    let doc = parse_schema_with_options(xsd, &options).expect("parse");
    for name in ["a", "b", "c"] {
        assert!(get_global_element(&doc, name).is_some(), "{name}");
    }
    let mut inline: Vec<&str> = doc
        .types
        .entries
        .iter()
        .map(|e| e.0.as_str())
        .filter(|n| n.starts_with("__inline_"))
        .collect();
    let all = inline.len();
    inline.sort();
    inline.dedup();
    assert_eq!(all, 3);
    assert_eq!(inline.len(), 3);
}

fn bound_by_floating_point(v: &str) -> Option<i64> {
    if let Ok(n) = v.parse::<i64>() {
        return Some(n);
    }
    let f = v.parse::<f64>().ok()?;
    if f.is_finite() && f.fract().abs() < f64::EPSILON {
        Some(f as i64)
    } else {
        None
    }
}

#[test]
fn bounds_count_as_in_double_precision() {
    let texts = [
        "0.0000000000000001",
        "2.220446049250313e-16",
        "2.2204460492503128e-16",
        "2.22044604925031308e-16",
        "2.22044604925031283e-16",
        "0.99999999999999995",
        "0.99999999999999994",
        "0.9999999999999999",
        "1.0000000000000001",
        "1.00000000000000011102230246251565404236316680908203125",
        "1.000000000000000111022302462515654042363166809082031251",
        "1.0000000000000003",
        "1.9999999999999999",
        "1.5",
        "3.0000000000000002",
        "9007199254740993.0",
        "9007199254740992.5",
        "9007199254740995.0",
        "9007199254740991.5",
        "4503599627370496.5",
        "4503599627370497.5",
        "4503599627370495.5",
        "4503599627370495.9",
        "9e308",
        "1.7976931348623157e308",
        "1.7976931348623158e308",
        "1.7976931348623159e308",
        "179769313486231580793728971405303415079934132710037826936173778980444968292764750946649017977587207096330286416692887910946555547851940402630657488671505820681908902000708383676273854845817711531764475730270069855571366959622842914819860834936475292719074168444365510704342711559699508093042880177904174497792",
        "179769313486231580793728971405303415079934132710037826936173778980444968292764750946649017977587207096330286416692887910946555547851940402630657488671505820681908902000708383676273854845817711531764475730270069855571366959622842914819860834936475292719074168444365510704342711559699508093042880177904174497791.9",
        "1e400",
        "1e-400",
        "9223372036854775807.0",
        "9223372036854775295.0",
        "9223372036854775296.0",
        "9223372036854774785.0",
        "4611686018427387905.5",
        "-0.5",
        "-3.0",
        "-1e-20",
        "1e18",
        "1.5e1",
        "15e-1",
        "150e-1",
        "123456789.000000001",
        "123456789.00000001",
        "123456789.0000000000001",
        "-9223372036854775809",
        "+5.0",
        ".5",
        "5.",
        "1e",
        "",
        "inf",
        "NaN",
        "1e19",
        "-1e19",
        "00012.000",
        "x",
    ];
    for t in texts {
        assert_eq!(parse_numeric_facet_bound(t), bound_by_floating_point(t), "{t}");
    }
}
