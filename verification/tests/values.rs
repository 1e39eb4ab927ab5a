use dfdl_vm::ast::OccursCountKind;
use dfdl_vm::program::{
    ChoiceBranch, IrFacets, IrInputPathStep, IrNode, IrProgram, IrProps, ValueKind,
};
use dfdl_vm::strmap::StrMap;
use dfdl_vm::tdml::infoset::{parse_expected_infoset_with_context, InfosetNode};
use dfdl_vm::tdml::infoset_values::{
    compare_infoset, decode_hex, infoset_xml_to_root_value, parse_scalar_for_kind,
    scalar_to_string, value_to_infoset,
};
use dfdl_vm::tdml::suite::TdmlResourceContext;
use dfdl_vm::tdml::validation::collect_post_decode_validation_errors;
use dfdl_vm::unparse_validate::{
    validate_infoset_particle, validate_sequence_children, validate_unparse_infoset_cardinality,
    validate_unparse_infoset_nodes, validate_unparse_value_map, Form,
};
use dfdl_vm::value::DfdlValue;
use dfdl_vm::xsd::document::parse_schema;

fn facets() -> IrFacets {
    IrFacets {
        checked: false,
        xsd_type: None,
        min_length: None,
        total_digits: None,
        value_min_inclusive: None,
        value_max_inclusive: None,
        value_min_exclusive: None,
        value_max_exclusive: None,
        facet_enumeration: Vec::new(),
    }
}

fn props(min: u64, max: Option<u64>) -> IrProps {
    IrProps {
        hidden: false,
        nillable: false,
        output_value_calc: false,
        output_value_calc_literal: false,
        output_value_calc_sibling: false,
        output_value_calc_conditional: false,
        occurs_min: min,
        occurs_max: max,
        occurs_count_kind: OccursCountKind::Implicit,
        occurs_count_fn_path: None,
        facets: facets(),
    }
}

fn simple(name: &str, kind: ValueKind, min: u64, max: Option<u64>) -> IrNode {
    IrNode::Element { name: name.to_string(), kind, child: None, props: props(min, max) }
}

fn complex(name: &str, child: IrNode) -> IrNode {
    IrNode::Element {
        name: name.to_string(),
        kind: ValueKind::Complex,
        child: Some(Box::new(child)),
        props: props(1, Some(1)),
    }
}

fn program() -> IrProgram {
    IrProgram {
        root: complex(
            "r",
            IrNode::Sequence {
                children: vec![
                    simple("a", ValueKind::Int, 1, Some(1)),
                    simple("b", ValueKind::String, 0, Some(2)),
                    IrNode::Choice {
                        branches: vec![
                            ChoiceBranch {
                                name: "c".to_string(),
                                node: simple("c", ValueKind::HexBinary, 1, Some(1)),
                            },
                            ChoiceBranch {
                                name: "d".to_string(),
                                node: simple("d", ValueKind::Boolean, 1, Some(1)),
                            },
                        ],
                    },
                ],
            },
        ),
        root_element: "r".to_string(),
    }
}

fn nodes(xml: &str) -> Vec<InfosetNode> {
    parse_expected_infoset_with_context(xml, &TdmlResourceContext::default()).expect("nodes")
}

fn fields(list: Vec<(&str, DfdlValue)>) -> DfdlValue {
    let mut m = StrMap::new();
    for (k, v) in list {
        m.insert(k.to_string(), v);
    }
    DfdlValue::sequence(m)
}

#[test]
fn values_are_told_apart_by_kind() {
    assert_eq!(DfdlValue::Boolean(true).as_bool(), Some(true));
    assert_eq!(DfdlValue::Int(7).as_bool(), None);
    assert_eq!(DfdlValue::Int(7).as_i32(), Some(7));
    assert_eq!(DfdlValue::Int(-7).as_i64(), Some(-7));
    assert_eq!(DfdlValue::Long(8).as_i64(), Some(8));
    assert_eq!(DfdlValue::Long(8).as_i32(), None);
    assert_eq!(DfdlValue::String("x".to_string()).as_str(), Some("x"));
    assert_eq!(DfdlValue::HexBinary(vec![1, 2]).as_bytes(), Some(&[1u8, 2][..]));
    assert_eq!(DfdlValue::Null.as_bytes(), None);
}

#[test]
fn fields_are_found_through_single_wrappers() {
    let inner = fields(vec![("a", DfdlValue::Int(1)), ("b", DfdlValue::Int(2))]);
    let v = fields(vec![("root", DfdlValue::choice("x".to_string(), inner))]);
    assert_eq!(v.field("b").and_then(|x| x.as_i32()), Some(2));
    assert!(v.field("x").is_some());
    assert!(v.field("c").is_none());
    assert!(DfdlValue::Null.field("a").is_none());
}

#[test]
fn scalars_are_written_and_read_back() {
    for n in [-128i8, -1, 0, 127] {
        let t = scalar_to_string(&DfdlValue::Byte(n));
        assert_eq!(t, n.to_string());
        assert!(matches!(parse_scalar_for_kind(&t, ValueKind::Byte), Ok(DfdlValue::Byte(m)) if m == n));
    }
    let t = scalar_to_string(&DfdlValue::HexBinary(vec![0, 0xAB, 0xff]));
    assert_eq!(t, "00ABFF");
    assert!(matches!(
        parse_scalar_for_kind(&t, ValueKind::HexBinary),
        Ok(DfdlValue::HexBinary(b)) if b == vec![0, 0xAB, 0xff]
    ));
    for b in [true, false] {
        let t = scalar_to_string(&DfdlValue::Boolean(b));
        assert!(matches!(parse_scalar_for_kind(&t, ValueKind::Boolean), Ok(DfdlValue::Boolean(c)) if c == b));
    }
    assert_eq!(scalar_to_string(&DfdlValue::UnsignedLong(u64::MAX)), "18446744073709551615");
    assert_eq!(scalar_to_string(&DfdlValue::Long(i64::MIN)), "-9223372036854775808");
}

#[test]
fn texts_that_are_no_values_are_kept() {
    assert!(matches!(parse_scalar_for_kind(" 300 ", ValueKind::Byte), Ok(DfdlValue::Long(300))));
    assert!(matches!(parse_scalar_for_kind("x", ValueKind::Int), Ok(DfdlValue::String(s)) if s == "x"));
    assert!(matches!(parse_scalar_for_kind("256", ValueKind::UnsignedByte), Ok(DfdlValue::String(_))));
    assert!(matches!(parse_scalar_for_kind("0", ValueKind::Boolean), Ok(DfdlValue::Boolean(false))));
    assert!(matches!(parse_scalar_for_kind("1e3", ValueKind::Double), Ok(DfdlValue::Double(s)) if s == "1e3"));
    assert!(matches!(parse_scalar_for_kind("1x", ValueKind::Float), Ok(DfdlValue::String(_))));
    assert!(matches!(parse_scalar_for_kind("9", ValueKind::Time), Ok(DfdlValue::DateTime(_))));
    assert_eq!(
        parse_scalar_for_kind("x", ValueKind::Complex).unwrap_err(),
        "complex element requires child elements in infoset"
    );
    assert_eq!(decode_hex("0 1a F"), Some(vec![0x01, 0xaf]));
    assert_eq!(decode_hex("+f"), Some(vec![0x0f]));
    assert_eq!(decode_hex("zz"), None);
}

#[test]
fn an_infoset_becomes_a_value_and_compares_equal() {
    let xml = "<r><a> 5 </a><b>x</b><b>y</b><c>0a</c></r>";
    let v = infoset_xml_to_root_value(xml, "r", &program()).expect("value");
    assert_eq!(v.field("a").and_then(|x| x.as_i32()), Some(5));
    assert!(matches!(v.field("b"), Some(DfdlValue::Array(l)) if l.len() == 2));
    assert_eq!(v.field("c").and_then(|x| x.as_bytes()), Some(&[10u8][..]));
    let same = "<r><a>5</a><b>x</b><b>y</b><c>0A</c></r>";
    assert_eq!(compare_infoset(&v, same, &Vec::new()), Ok(()));
    let other = "<r><a>6</a><b>x</b><b>y</b><c>0A</c></r>";
    assert_eq!(
        compare_infoset(&v, other, &Vec::new()).unwrap_err(),
        "text mismatch for `a`: expected `6`, got `5`"
    );
    let close = vec![("6".to_string(), "5".to_string())];
    assert_eq!(compare_infoset(&v, other, &close), Ok(()));
    assert_eq!(
        infoset_xml_to_root_value("<q/>", "r", &program()).unwrap_err(),
        "infoset missing root element `r`"
    );
}

#[test]
fn values_become_infosets() {
    let v = fields(vec![
        ("n", DfdlValue::Null),
        ("l", DfdlValue::Array(vec![DfdlValue::Int(1), DfdlValue::Int(2)])),
        ("c", DfdlValue::choice("x".to_string(), DfdlValue::Int(3))),
        ("b", DfdlValue::Blob(vec![9])),
    ]);
    let list = value_to_infoset(&v);
    let names: Vec<&str> = list.iter().map(|n| n.name.as_str()).collect();
    assert_eq!(names, vec!["b", "x", "l", "n"]);
    assert_eq!(list[0].blob_bytes, Some(vec![9]));
    assert_eq!(list[1].text.as_deref(), Some("3"));
    assert_eq!(list[2].children.entries[0].1.len(), 2);
    assert!(list[3].nil);
    let one = value_to_infoset(&DfdlValue::Int(4));
    assert_eq!(one[0].name, "root");
}

#[test]
fn an_infoset_is_checked_before_it_is_written() {
    let schema = parse_schema(
        "<xs:schema xmlns:xs=\"http://www.w3.org/2001/XMLSchema\"><xs:element name=\"r\" type=\"xs:int\"/></xs:schema>",
    )
    .expect("parse");
    let p = program();
    let check = |xml: &str| validate_unparse_infoset_cardinality(&schema, &p, "r", &nodes(xml));
    assert_eq!(check("<r><a>1</a><d>true</d></r>"), Ok(()));
    assert_eq!(
        check("<r><d>true</d></r>").unwrap_err(),
        "Unparse Error: Expected element start event for a, but received element end event for r"
    );
    assert_eq!(
        check("<r><a>1</a><a>2</a><d>true</d></r>").unwrap_err(),
        "Unparse Error: {}a expected element end, but received start event for {}a at {}r"
    );
    assert_eq!(
        check("<r><a>1</a><b>1</b><b>2</b><b>3</b><d>true</d></r>").unwrap_err(),
        "Unparse Error: Expected array end event for {}b, but received element start event for {}b at {}r"
    );
    assert_eq!(
        check("<r><a>1</a></r>").unwrap_err(),
        "Unparse Error: Found a, expected one of c, d at r"
    );
    assert_eq!(check("<q/>").unwrap_err(), "infoset missing root `r`");
    assert_eq!(
        check("<r xmlns=\"urn:x\"/>"),
        Err("Unparse Error: Expected element start event for a, but received element end event for r".to_string())
    );
    assert_eq!(validate_unparse_infoset_nodes(&schema, &p, "r", &nodes("<r><a>1</a><d>1</d></r>")), Ok(()));
}

#[test]
fn elements_that_do_not_belong_are_named() {
    let p = IrNode::Sequence { children: vec![simple("a", ValueKind::Int, 1, Some(1))] };
    let f = Form { qualified: false, target_ns: None, enforce: true };
    let n = nodes("<r><a>1</a><z/></r>");
    assert_eq!(
        validate_infoset_particle(&p, &n[0], &f, "r").unwrap_err(),
        "Unparse Error: {}z expected element end, but received start event for z at r"
    );
    let IrNode::Sequence { children } = &p else {
        panic!("sequence");
    };
    assert_eq!(
        validate_sequence_children(children, &n[0], &f, "r"),
        validate_infoset_particle(&p, &n[0], &f, "r")
    );
    let loose = Form { qualified: false, target_ns: None, enforce: false };
    assert_eq!(validate_sequence_children(children, &n[0], &loose, "r"), Ok(()));
    assert_eq!(validate_infoset_particle(&p, &n[0], &loose, "r"), Ok(()));
    let q = Form { qualified: true, target_ns: Some("urn:t".to_string()), enforce: true };
    assert_eq!(
        validate_infoset_particle(&p, &nodes("<r><a>1</a></r>")[0], &q, "{urn:t}r").unwrap_err(),
        "Unparse Error: {urn:t}a expected element start, but received start event for {}a at {urn:t}r"
    );
}

#[test]
fn a_count_can_stand_in_the_infoset() {
    let mut b = props(1, None);
    b.occurs_count_kind = OccursCountKind::Expression;
    b.occurs_count_fn_path = Some(vec![IrInputPathStep { local: "ex:n".to_string(), index: None }]);
    let p = IrNode::Sequence {
        children: vec![
            simple("n", ValueKind::Int, 1, Some(1)),
            IrNode::Element {
                name: "b".to_string(),
                kind: ValueKind::Int,
                child: None,
                props: b,
            },
        ],
    };
    let f = Form { qualified: false, target_ns: None, enforce: false };
    assert_eq!(validate_infoset_particle(&p, &nodes("<r><n>2</n><b/><b/></r>")[0], &f, "r"), Ok(()));
    assert!(validate_infoset_particle(&p, &nodes("<r><n>1</n><b/><b/></r>")[0], &f, "r").is_err());
    assert_eq!(
        validate_infoset_particle(&p, &nodes("<r><n>x</n><b/></r>")[0], &f, "r").unwrap_err(),
        "occursCount path `n` not numeric"
    );
}

#[test]
fn fields_are_counted() {
    let p = IrNode::Sequence { children: vec![simple("ex:a", ValueKind::Int, 1, Some(1))] };
    let mut m = StrMap::new();
    assert_eq!(
        validate_unparse_value_map(&p, &m, "r").unwrap_err(),
        "Unparse Error: Expected element start event for ex:a, but received element end event for r"
    );
    m.insert("a".to_string(), DfdlValue::Array(vec![DfdlValue::Null, DfdlValue::Null]));
    assert_eq!(
        validate_unparse_value_map(&p, &m, "r").unwrap_err(),
        "Unparse Error: ex:a expected element end, but received extra occurrences at r"
    );
    m.insert("a".to_string(), DfdlValue::Null);
    assert_eq!(validate_unparse_value_map(&p, &m, "r"), Ok(()));
}

#[test]
fn validation_messages_follow_the_schema() {
    let schema = parse_schema("<xs:schema xmlns:xs=\"http://www.w3.org/2001/XMLSchema\"/>").expect("parse");
    let mut a = props(1, Some(1));
    a.facets.checked = true;
    a.facets.min_length = Some(3);
    let p = IrProgram {
        root: complex(
            "r",
            IrNode::Sequence {
                children: vec![
                    IrNode::Element {
                        name: "a".to_string(),
                        kind: ValueKind::String,
                        child: None,
                        props: a,
                    },
                    simple("b", ValueKind::Int, 0, Some(1)),
                ],
            },
        ),
        root_element: "r".to_string(),
    };
    let v = fields(vec![(
        "r",
        fields(vec![
            ("a", DfdlValue::String("xy".to_string())),
            ("b", DfdlValue::Array(vec![DfdlValue::Int(1), DfdlValue::Int(2)])),
        ]),
    )]);
    let complaint = Some("failed facet checks due to: minLength (3)".to_string());
    let full = collect_post_decode_validation_errors(&schema, &p, &v, &vec![complaint], true);
    assert_eq!(
        full,
        vec![
            "Validation Error",
            "Value 'xy' with length = '2' is not facet-valid with respect to minLength '3'",
            "b",
            "2 occur",
            "expected",
            "maximum of '1'",
            "exceeded",
        ]
    );
    let limited = collect_post_decode_validation_errors(&schema, &p, &v, &Vec::new(), false);
    assert_eq!(
        limited,
        vec![
            "b",
            "occurred",
            "expected",
            "minimum of '0'",
            "maximum of '1'",
            "b occurred '2' times when it was expected to be a minimum of '0' and a maximum of '1' times.",
        ]
    );
}
