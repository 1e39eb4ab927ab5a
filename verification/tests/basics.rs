use dfdl_vm::ast::{LengthKind, OccursProps, TypeDef};
use dfdl_vm::calendar::is_valid_dfdl_calendar_time_zone;
use dfdl_vm::encoding::{decode_schema_text, encode_document_text};
use dfdl_vm::entities::expand_entities_str;
use dfdl_vm::merge::merge_dfdl_props;
use dfdl_vm::numbers::{decimal_chars, parse_i64, parse_u64};
use dfdl_vm::props::props_from_attrs;
use dfdl_vm::qname::{
    format_local_from_storage_key, format_storage_key, local_name_from_qname,
    namespace_uri_matches_prefix,
};
use dfdl_vm::resolver::{clean_path, SchemaResolver};
use dfdl_vm::strmap::StrMap;
use dfdl_vm::tdml::bits::{
    append_bytes_as_msb_bits, assemble_tdml_document_bytes, byte_to_msb_bit_string, chunk_bit_string_ltr, hex_encode,
    pack_bits_msb_first, parse_hex_document, reverse_bit_string, DocumentBitOrder,
};
use dfdl_vm::tdml::compare::{calendar_infoset_texts_equal, compare_nodes};
use dfdl_vm::tdml::infoset::{
    infer_root_element_name, parse_expected_infoset_with_context, resolve_expected_infoset_xml,
};
use dfdl_vm::tdml::resources::{
    load_tdml_resource, resolve_blob_uri_to_bytes, tdml_resource_path_from_fs_path,
};
use dfdl_vm::tdml::suite::{effective_round_trip, RoundTrip, TdmlResourceContext};
use dfdl_vm::text::join;
use dfdl_vm::xml::parse_xml;
use dfdl_vm::xsd::document::parse_schema;

#[test]
fn maps_keep_their_keys_in_order() {
    let mut m = StrMap::new();
    m.insert("b".to_string(), 1u8);
    m.insert("a".to_string(), 2);
    m.insert("b".to_string(), 3);
    let keys: Vec<&str> = m.entries.iter().map(|e| e.0.as_str()).collect();
    assert_eq!(keys, vec!["a", "b"]);
    assert_eq!(m.get("b"), Some(&3));
    assert_eq!(m.get("a"), Some(&2));
    assert_eq!(m.get("c"), None);
}

#[test]
fn names_are_taken_apart() {
    assert_eq!(local_name_from_qname("a:b:c"), "c");
    assert_eq!(local_name_from_qname(&local_name_from_qname("x:y")), "y");
    let key = format_storage_key("f", Some("urn:n"));
    assert_eq!(format_local_from_storage_key(&key), "f");
    assert!(namespace_uri_matches_prefix("http://X/EX", "ex"));
    assert!(!namespace_uri_matches_prefix("http://x", "y"));
}

#[test]
fn numbers_are_written_and_read_back() {
    for n in [0u64, 9, 10, 4711, u64::MAX] {
        let d = decimal_chars(n);
        assert_eq!(parse_u64(&d), Some(n));
    }
    let c: Vec<char> = "-12".chars().collect();
    assert_eq!(parse_i64(&c), Some(-12));
    let c: Vec<char> = "99999999999999999999".chars().collect();
    assert_eq!(parse_u64(&c), None);
    assert_eq!(join(&vec!["a".to_string(), "b".to_string()], ", "), "a, b");
}

#[test]
fn schema_text_is_decoded_from_utf8_and_utf16() {
    assert_eq!(decode_schema_text("<a/>".as_bytes()).unwrap(), "<a/>");
    let mut be: Vec<u8> = vec![0xFE, 0xFF];
    let mut le: Vec<u8> = vec![0xFF, 0xFE];
    for u in "<\u{1F600}/>".encode_utf16() {
        be.extend_from_slice(&u.to_be_bytes());
        le.extend_from_slice(&u.to_le_bytes());
    }
    assert_eq!(decode_schema_text(&be).unwrap(), "<\u{1F600}/>");
    assert_eq!(decode_schema_text(&le).unwrap(), "<\u{1F600}/>");
    assert!(decode_schema_text(&[0x3c, 0xff, 0x3e]).is_err());
}

#[test]
fn document_text_is_encoded() {
    assert_eq!(encode_document_text("A\u{e9}", "utf-8").unwrap(), "A\u{e9}".as_bytes().to_vec());
    assert_eq!(encode_document_text("A\u{e9}", "iso-8859-1").unwrap(), vec![0x41, 0xe9]);
    assert!(encode_document_text("A", "no-such").is_err());
}

#[test]
fn entities_stand_for_characters() {
    assert_eq!(expand_entities_str("a%#x41;"), "aA");
    assert_eq!(expand_entities_str("%%"), "%");
}

#[test]
fn time_zones_have_a_form() {
    assert!(is_valid_dfdl_calendar_time_zone("UTC+01:00"));
    assert!(!is_valid_dfdl_calendar_time_zone("UTC+99:99"));
}

#[test]
fn merging_keeps_what_the_overlay_leaves_open() {
    let mut a = StrMap::new();
    a.insert("lengthKind".to_string(), "delimited".to_string());
    let mut b = StrMap::new();
    b.insert("separator".to_string(), ",".to_string());
    let merged = merge_dfdl_props(props_from_attrs(&a).unwrap(), props_from_attrs(&b).unwrap());
    assert_eq!(merged.length.length_kind, Some(LengthKind::Delimited));
    assert_eq!(merged.delimiters.separator.as_deref(), Some(","));
    let occurs: &OccursProps = &merged.occurs;
    assert_eq!(occurs.occurs_max, None);
}

#[test]
fn a_schema_is_taken_in_once() {
    let mut r = SchemaResolver::new().with_bundled("a.xsd", "<xs:schema xmlns:xs=\"http://www.w3.org/2001/XMLSchema\"/>");
    assert!(r.register_include("a.xsd"));
    assert!(!r.register_include("a.xsd"));
    assert!(r.resolve("a.xsd").is_ok());
    let err = r.resolve("b.xsd").unwrap_err();
    assert!(err.to_text().contains("Resource not found at Include Location `b.xsd`"));
}

#[test]
fn bits_and_bytes_turn_into_one_another() {
    assert_eq!(hex_encode(&[0x0f, 0xa0]), "0FA0");
    assert_eq!(parse_hex_document("0FA0").unwrap(), vec![0x0f, 0xa0]);
    assert_eq!(reverse_bit_string(&reverse_bit_string("0110")), "0110");
    assert_eq!(chunk_bit_string_ltr("0000000011"), vec!["00000000", "11"]);
    assert_eq!(byte_to_msb_bit_string(0x4b), "01001011");
    let mut bits = Vec::new();
    append_bytes_as_msb_bits(&mut bits, &[0x4b, 0xff]);
    assert_eq!(pack_bits_msb_first(&bits), (vec![0x4b, 0xff], 0));
    bits.truncate(11);
    assert_eq!(pack_bits_msb_first(&bits), (vec![0x4b, 0xe0], 3));
}

#[test]
fn calendars_without_a_zone_equal_those_in_utc() {
    assert!(calendar_infoset_texts_equal("2020-01-01T00:00:00", "2020-01-01T00:00:00+00:00"));
    assert!(calendar_infoset_texts_equal("2020-01-01T00:00:00", "2020-01-01T00:00:00Z"));
    assert!(!calendar_infoset_texts_equal("2020-01-01T00:00:00", "2020-01-01T00:00:00+01:00"));
    assert!(!calendar_infoset_texts_equal("2020-01-01", "2020-01-01Z"));
}

#[test]
fn an_infoset_equals_itself() {
    let ctx = TdmlResourceContext::default();
    let n = parse_expected_infoset_with_context("<a><b>1</b><c><d/></c></a>", &ctx).unwrap();
    assert_eq!(compare_nodes(&n, &n, &Vec::new(), &ctx), Ok(()));
    let m = parse_expected_infoset_with_context("<a><b>1</b><b>2</b><c><d/></c></a>", &ctx).unwrap();
    assert_eq!(
        compare_nodes(&n, &m, &Vec::new(), &ctx).unwrap_err(),
        "child count mismatch for `b`: expected 1, got 2"
    );
    let blob = parse_expected_infoset_with_context("<a>/x/blobs/y.bin</a>", &ctx).unwrap();
    let text = parse_expected_infoset_with_context("<a>t</a>", &ctx).unwrap();
    assert_eq!(
        compare_nodes(&blob, &text, &Vec::new(), &ctx).unwrap_err(),
        "expected blob data for `a`, got text `Some(\"t\")`"
    );
    assert_eq!(infer_root_element_name("<x:a xmlns:x=\"u\"/>"), Some("a".to_string()));
}

#[test]
fn files_are_found_beside_the_suite_or_among_the_resources() {
    let mut ctx = TdmlResourceContext::from_tdml_path("/t/resources/org/x.tdml");
    assert_eq!(ctx.tdml_dir.as_deref(), Some("/t/resources/org"));
    ctx.files.insert("/t/resources/org/d.bin".to_string(), vec![1]);
    assert_eq!(load_tdml_resource("d.bin", &ctx), Ok(vec![1]));
    assert_eq!(
        load_tdml_resource("e.bin", &ctx).unwrap_err(),
        "TDMLRunner: data file 'e.bin' was not found"
    );
    assert!(resolve_blob_uri_to_bytes("http://x/y", &ctx).is_err());
    assert!(tdml_resource_path_from_fs_path("nowhere.tdml").is_none());
    ctx.files.insert("/t/resources/org/i.xml".to_string(), b"<!DOCTYPE a><a/>".to_vec());
    let e = resolve_expected_infoset_xml(
        "<tdml:dfdlInfoset xmlns:tdml=\"http://www.ibm.com/xmlns/dfdl/testData\" type=\"file\">i.xml</tdml:dfdlInfoset>",
        &ctx,
    )
    .unwrap_err();
    assert!(e.contains("DOCTYPE is disallowed"), "{e}");
}

#[test]
fn a_test_settles_its_own_round_trip() {
    assert_eq!(effective_round_trip(RoundTrip::OnePass, RoundTrip::TwoPass), RoundTrip::OnePass);
    assert_eq!(effective_round_trip(RoundTrip::Inherit, RoundTrip::TwoPass), RoundTrip::TwoPass);
    assert_eq!(effective_round_trip(RoundTrip::Inherit, RoundTrip::Inherit), RoundTrip::Disabled);
}

#[test]
fn broken_markup_is_an_error() {
    assert!(parse_schema("<xs:schema").is_err());
    assert!(!parse_xml("<a><b/></a>").is_empty());
    let doc = parse_schema(
        "<xs:schema xmlns:xs=\"http://www.w3.org/2001/XMLSchema\"><xs:simpleType name=\"t\"><xs:restriction base=\"xs:string\"/></xs:simpleType></xs:schema>",
    )
    .unwrap();
    assert!(matches!(doc.types.get("t"), Some(TypeDef::Simple { .. })));
}

#[test]
fn standard_schemas_are_known_by_their_file_names() {
    let mut r = SchemaResolver::new();
    assert!(r.register_include("AB.dfdl.xsd"));
    assert!(!r.register_include(" x/y/AB.dfdl.xsd "));
    assert_eq!(r.include_dedup_key("/z/GeneralPurposeFormat.xsd"), "GeneralPurposeFormat.xsd");
    assert!(r.resolve("AB.dfdl.xsd").is_err());
    let r = r.with_bundled(" AB.dfdl.xsd ", "<ab/>");
    assert_eq!(r.resolve(" x/y/AB.dfdl.xsd ").unwrap(), "<ab/>");
    assert_eq!(
        r.resolve("/org/apache/daffodil/section12/lengthKind/AB.dfdl.xsd").unwrap(),
        "<ab/>"
    );
}

#[test]
fn the_key_names_the_file_that_is_found() {
    let r = SchemaResolver::new()
        .with_base_dir("a")
        .with_base_dir("b")
        .with_file("a/x.xsd", "first")
        .with_file("b/x.xsd", "second");
    assert_eq!(r.resolve("x.xsd").unwrap(), "second");
    assert_eq!(r.include_dedup_key("x.xsd"), "b/x.xsd");
    let mut r = r.with_file("root/x.xsd", "third");
    r.resource_root = Some("root".to_string());
    assert_eq!(r.resolve("x.xsd").unwrap(), "third");
    assert_eq!(r.include_dedup_key("x.xsd"), "root/x.xsd");
    assert_eq!(r.include_dedup_key("nowhere.xsd"), "a/nowhere.xsd");
}

#[test]
fn paths_lead_to_files_by_any_way() {
    let mut r = SchemaResolver::new()
        .with_base_dir("a/b")
        .with_file("a/./x.xsd", "x")
        .with_file("a/b/d/y.xsd", "y");
    assert_eq!(clean_path("/../a//./b/../c/"), "/a/c");
    assert_eq!(clean_path("../a/.."), "..");
    assert_eq!(r.resolve("../x.xsd").unwrap(), "x");
    assert!(r.register_include("../x.xsd"));
    assert!(!r.register_include("d/../../x.xsd"));
    assert_eq!(r.include_dedup_key("/d/y.xsd"), "a/b/d/y.xsd");
    assert_eq!(r.include_dedup_key("d/./y.xsd"), "a/b/d/y.xsd");
}

#[test]
fn types_without_a_name_are_numbered() {
    let mut r = SchemaResolver::new();
    assert_eq!(r.next_inline_type_name("simple"), "__inline_simple_0");
    assert_eq!(r.next_inline_type_name("complex"), "__inline_complex_1");
}

#[test]
fn unknown_attributes_change_nothing() {
    let mut a = StrMap::new();
    a.insert("dfdl:separator".to_string(), ",".to_string());
    let mut b = StrMap::new();
    b.insert("separator".to_string(), ",".to_string());
    b.insert("zzUnknown".to_string(), "w".to_string());
    let a = format!("{:?}", props_from_attrs(&a).unwrap());
    let b = format!("{:?}", props_from_attrs(&b).unwrap());
    assert_eq!(a, b);
}

#[test]
fn whole_groups_read_the_same_in_both_bit_orders() {
    let whole = vec![vec!["01001011".to_string()], vec!["11111110".to_string()]];
    let msb = assemble_tdml_document_bytes(&whole, DocumentBitOrder::MsbFirst);
    assert_eq!(msb, (vec![0x4b, 0xfe], 0));
    assert_eq!(assemble_tdml_document_bytes(&whole, DocumentBitOrder::LsbFirst), msb);
    let rest = vec![vec!["101".to_string()]];
    assert_eq!(
        assemble_tdml_document_bytes(&rest, DocumentBitOrder::MsbFirst),
        (vec![0xa0], 3)
    );
    assert_eq!(
        assemble_tdml_document_bytes(&rest, DocumentBitOrder::LsbFirst),
        (vec![0x05], 3)
    );
}
