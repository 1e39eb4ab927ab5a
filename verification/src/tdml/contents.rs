//! How tests correspond to the elements they are read from.

use vstd::prelude::*;
use crate::error::ErrorModel;
use crate::numbers;
use crate::strmap;
use crate::tdml::bits;
use crate::tdml::bits::DocumentBitOrder;
use crate::tdml::document;
use crate::tdml::document::{ParsedDocumentPartModel, PartsModel};
use crate::tdml::parser;
use crate::tdml::suite::{
    DaffodilTunablesModel, DocumentKind, InvalidRestrictionPolicy, ParserTestCaseModel,
    TdmlSuiteModel, TdmlValidationMode, UnparserTestCaseModel,
};
use crate::text;
use crate::xml::{XmlElementModel, XmlNodeModel};
use crate::xml_text;
use crate::xsd::nodes;

verus! {

broadcast use vstd::string::group_string_axioms;

/// The element at `i` has this name.
pub open spec fn named_at(list: Seq<XmlNodeModel>, i: int, local: Seq<char>) -> bool {
    0 <= i < list.len() && (list[i] matches XmlNodeModel::Element(e) && e.local == local)
}

/// How many elements from `i` on have this name.
pub open spec fn count_named(list: Seq<XmlNodeModel>, i: nat, local: Seq<char>) -> nat
    decreases list.len() - i,
{
    if i >= list.len() {
        0
    } else {
        count_named(list, i + 1, local) + if named_at(list, i as int, local) {
            1nat
        } else {
            0nat
        }
    }
}

/// The element at `i` is the last of its name.
pub open spec fn last_named(list: Seq<XmlNodeModel>, i: int, local: Seq<char>) -> bool {
    named_at(list, i, local) && count_named(list, (i + 1) as nat, local) == 0
}

proof fn lemma_names_differ()
    ensures
        "document"@ != "infoset"@,
        "document"@ != "errors"@,
        "document"@ != "validationErrors"@,
        "document"@ != "warnings"@,
        "infoset"@ != "errors"@,
        "infoset"@ != "validationErrors"@,
        "infoset"@ != "warnings"@,
        "errors"@ != "validationErrors"@,
        "errors"@ != "warnings"@,
        "validationErrors"@ != "warnings"@,
        "defineSchema"@ != "defineConfig"@,
        "defineSchema"@ != "parserTestCase"@,
        "defineSchema"@ != "unparserTestCase"@,
        "defineConfig"@ != "parserTestCase"@,
        "defineConfig"@ != "unparserTestCase"@,
        "parserTestCase"@ != "unparserTestCase"@,
{
    reveal_strlit("document");
    reveal_strlit("infoset");
    reveal_strlit("errors");
    reveal_strlit("validationErrors");
    reveal_strlit("warnings");
    reveal_strlit("defineSchema");
    reveal_strlit("defineConfig");
    reveal_strlit("parserTestCase");
    reveal_strlit("unparserTestCase");
    assert("document"@[0] == 'd' && "infoset"@[0] == 'i' && "errors"@[0] == 'e');
    assert("validationErrors"@[0] == 'v' && "warnings"@[0] == 'w');
    assert("defineSchema"@[6] == 'S' && "defineConfig"@[6] == 'C');
    assert("defineSchema"@[0] == 'd' && "defineConfig"@[0] == 'd');
    assert("parserTestCase"@[0] == 'p' && "unparserTestCase"@[0] == 'u');
}

// ------------------------------------------------------------------------- messages

/// The messages that are expected are the texts of the elements that state one, in
/// order, without the white space around them.
pub proof fn law_messages_in_order(list: Seq<XmlNodeModel>, i: nat, sofar: Seq<Seq<char>>)
    ensures
        parser::messages_from(list, i, sofar) matches Ok(m) ==> {
            &&& m.len() == sofar.len() + count_named(list, i, "error"@)
            &&& m.take(sofar.len() as int) == sofar
            &&& forall|k: int|
                i <= k && #[trigger] named_at(list, k, "error"@) ==> (nodes::simple_text(
                    list[k]->Element_0.children,
                    0,
                    "error"@,
                ) matches Ok(s) && m.contains(text::trim_spec(s)))
        },
    decreases list.len() - i,
{
    if i < list.len() {
        match list[i as int] {
            XmlNodeModel::Element(e) => {
                if e.local == "error"@ {
                    if let Ok(t) = parser::trimmed_text(e) {
                        let more = sofar.push(t);
                        law_messages_in_order(list, i + 1, more);
                        if let Ok(m) = parser::messages_from(list, i + 1, more) {
                            assert(m.take(sofar.len() as int) =~= more.take(sofar.len() as int));
                            assert(more.take(sofar.len() as int) =~= sofar);
                            assert(m.take(more.len() as int)[sofar.len() as int] == t);
                            assert(m[sofar.len() as int] == t);
                            assert(m.contains(t));
                        }
                    }
                } else {
                    law_messages_in_order(list, i + 1, sofar);
                }
            },
            _ => {
                law_messages_in_order(list, i + 1, sofar);
            },
        }
    } else {
        assert(sofar.take(sofar.len() as int) =~= sofar);
    }
}

// ------------------------------------------------------------------------ one test

/// The test has what the elements from `i` on state, and what it had where they state
/// nothing.
pub open spec fn parser_parts_mirror(
    list: Seq<XmlNodeModel>,
    i: nat,
    before: ParserTestCaseModel,
    t: ParserTestCaseModel,
) -> bool {
    &&& t.name == before.name
    &&& t.model == before.model
    &&& t.config == before.config
    &&& t.round_trip == before.round_trip
    &&& t.validation == before.validation
    &&& t.documents.len() == before.documents.len() + count_named(list, i, "document"@)
    &&& (count_named(list, i, "infoset"@) == 0 ==> t.expected_infoset == before.expected_infoset)
    &&& (count_named(list, i, "errors"@) == 0 ==> t.expected_errors == before.expected_errors)
    &&& (count_named(list, i, "validationErrors"@) == 0 ==> t.expected_validation_errors
        == before.expected_validation_errors)
    &&& (count_named(list, i, "warnings"@) == 0 ==> t.expected_warnings
        == before.expected_warnings)
    &&& forall|k: int|
        i <= k && #[trigger] last_named(list, k, "infoset"@) ==> xml_text::inner_xml(
            list[k]->Element_0,
        ) == Ok::<Seq<char>, ErrorModel>(t.expected_infoset)
    &&& forall|k: int|
        i <= k && #[trigger] last_named(list, k, "errors"@) ==> (t.expected_errors matches Some(m)
            && parser::messages_from(list[k]->Element_0.children, 0, Seq::empty()) == Ok::<
            Seq<Seq<char>>,
            ErrorModel,
        >(m))
    &&& forall|k: int|
        i <= k && #[trigger] last_named(list, k, "validationErrors"@) ==> (
        t.expected_validation_errors matches Some(m) && parser::messages_from(
            list[k]->Element_0.children,
            0,
            Seq::empty(),
        ) == Ok::<Seq<Seq<char>>, ErrorModel>(m))
    &&& forall|k: int|
        i <= k && #[trigger] last_named(list, k, "warnings"@) ==> (t.expected_warnings matches Some(
            m,
        ) && parser::messages_from(list[k]->Element_0.children, 0, Seq::empty()) == Ok::<
            Seq<Seq<char>>,
            ErrorModel,
        >(m))
}

/// What a test holds is what its elements state: a document for each that is one, the
/// last infoset, and the messages of the last list of each kind.
#[verifier::spinoff_prover]
pub proof fn law_parser_parts_read(list: Seq<XmlNodeModel>, i: nat, t: ParserTestCaseModel)
    ensures
        parser::parser_parts_from(list, i, t) matches Ok(after) ==> parser_parts_mirror(
            list,
            i,
            t,
            after,
        ),
    decreases list.len() - i,
{
    lemma_names_differ();
    if i < list.len() {
        match list[i as int] {
            XmlNodeModel::Element(e) => {
                reveal(parser::parser_part);
                if let Ok(t2) = parser::parser_part(t, e) {
                    law_parser_parts_read(list, i + 1, t2);
                    if let Ok(after) = parser::parser_parts_from(list, i + 1, t2) {
                        assert(parser_parts_mirror(list, i + 1, t2, after));
                        assert(parser_parts_mirror(list, i, t, after));
                    }
                }
            },
            _ => {
                law_parser_parts_read(list, i + 1, t);
            },
        }
    }
}

/// The test says what the attributes and the elements of its own say.
pub open spec fn test_mirrors(e: XmlElementModel, t: ParserTestCaseModel) -> bool {
    &&& document::attr(e, "model"@) == Some(t.model)
    &&& (document::attr(e, "name"@) matches Some(n) ==> t.name == n)
    &&& (document::attr(e, "root"@) matches Some(r) ==> t.root == r)
    &&& t.config == document::attr(e, "config"@)
    &&& (document::attr(e, "validation"@) is None ==> t.validation is None)
    &&& (document::attr(e, "validation"@) == Some("on"@) ==> t.validation == Some(
        TdmlValidationMode::On,
    ))
    &&& (document::attr(e, "validation"@) == Some("limited"@) ==> t.validation == Some(
        TdmlValidationMode::Limited,
    ))
    &&& (document::attr(e, "validation"@) == Some("off"@) ==> t.validation == Some(
        TdmlValidationMode::Off,
    ))
    &&& t.documents.len() == count_named(e.children, 0, "document"@)
    &&& (t.expected_errors is Some <==> count_named(e.children, 0, "errors"@) > 0)
    &&& (t.expected_validation_errors is Some <==> count_named(
        e.children,
        0,
        "validationErrors"@,
    ) > 0)
    &&& (t.expected_warnings is Some <==> count_named(e.children, 0, "warnings"@) > 0)
    &&& forall|k: int| #[trigger]
        last_named(e.children, k, "infoset"@) ==> xml_text::inner_xml(
            e.children[k]->Element_0,
        ) == Ok::<Seq<char>, ErrorModel>(t.expected_infoset)
    &&& forall|k: int| #[trigger]
        last_named(e.children, k, "errors"@) ==> (t.expected_errors matches Some(m)
            && parser::messages_from(e.children[k]->Element_0.children, 0, Seq::empty()) == Ok::<
            Seq<Seq<char>>,
            ErrorModel,
        >(m))
}

proof fn lemma_some_last(list: Seq<XmlNodeModel>, i: nat, local: Seq<char>)
    requires
        count_named(list, i, local) > 0,
    ensures
        exists|k: int| i <= k && #[trigger] last_named(list, k, local),
    decreases list.len() - i,
{
    if count_named(list, i + 1, local) > 0 {
        lemma_some_last(list, i + 1, local);
        let k = choose|k: int| i + 1 <= k && #[trigger] last_named(list, k, local);
        assert(last_named(list, k, local));
    } else {
        assert(last_named(list, i as int, local));
    }
}

proof fn lemma_modes()
    ensures
        text::trim_spec("on"@) == "on"@,
        text::trim_spec("limited"@) == "limited"@,
        text::trim_spec("off"@) == "off"@,
        "on"@ != "off"@,
        "on"@ != "limited"@,
        "off"@ != "limited"@,
        "on"@.len() == 2,
        "limited"@.len() == 7,
{
    reveal_strlit("on");
    reveal_strlit("off");
    reveal_strlit("limited");
    reveal_with_fuel(text::trim_start_spec, 2);
    reveal_with_fuel(text::trim_end_spec, 2);
}

/// A test that parses holds what its attributes and elements state.
#[verifier::spinoff_prover]
pub proof fn law_test_mirrors(e: XmlElementModel)
    ensures
        parser::parser_case(e) matches Ok(t) ==> test_mirrors(e, t),
{
    if let Ok(t) = parser::parser_case(e) {
        lemma_modes();
        let model = document::attr(e, "model"@)->0;
        let begun = parser::parser_begun(e, model, parser::stated_validation(e)->Ok_0);
        law_parser_parts_read(e.children, 0, begun);
        let after = parser::parser_parts_from(e.children, 0, begun)->Ok_0;
        assert(parser_parts_mirror(e.children, 0, begun, after));
        if count_named(e.children, 0, "errors"@) > 0 {
            lemma_some_last(e.children, 0, "errors"@);
        }
        if count_named(e.children, 0, "validationErrors"@) > 0 {
            lemma_some_last(e.children, 0, "validationErrors"@);
        }
        if count_named(e.children, 0, "warnings"@) > 0 {
            lemma_some_last(e.children, 0, "warnings"@);
        }
    }
}

/// A test that unparses holds what its elements state: a document for each that is
/// one, the last infoset, and the errors of the last list.
#[verifier::spinoff_prover]
pub proof fn law_unparser_parts_read(list: Seq<XmlNodeModel>, i: nat, t: UnparserTestCaseModel)
    ensures
        parser::unparser_parts_from(list, i, t) matches Ok(after) ==> {
            &&& after.name == t.name
            &&& after.model == t.model
            &&& after.config == t.config
            &&& after.documents.len() == t.documents.len() + count_named(list, i, "document"@)
            &&& (count_named(list, i, "infoset"@) == 0 ==> after.infoset == t.infoset)
            &&& (count_named(list, i, "errors"@) == 0 ==> after.expected_errors
                == t.expected_errors)
            &&& forall|k: int|
                i <= k && #[trigger] last_named(list, k, "infoset"@) ==> xml_text::inner_xml(
                    list[k]->Element_0,
                ) == Ok::<Seq<char>, ErrorModel>(after.infoset)
            &&& forall|k: int|
                i <= k && #[trigger] last_named(list, k, "errors"@) ==> (
                after.expected_errors matches Some(m) && parser::messages_from(
                    list[k]->Element_0.children,
                    0,
                    Seq::empty(),
                ) == Ok::<Seq<Seq<char>>, ErrorModel>(m))
        },
    decreases list.len() - i,
{
    lemma_names_differ();
    if i < list.len() {
        match list[i as int] {
            XmlNodeModel::Element(e) => {
                reveal(parser::unparser_part);
                if let Ok(t2) = parser::unparser_part(t, e) {
                    law_unparser_parts_read(list, i + 1, t2);
                }
            },
            _ => {
                law_unparser_parts_read(list, i + 1, t);
            },
        }
    }
}

// ----------------------------------------------------------------------- the suite

/// The tests from `k` on are, one by one and in order, those of the elements from `i`
/// on that are tests which parse.
pub open spec fn tests_mirror(
    list: Seq<XmlNodeModel>,
    i: nat,
    tests: Seq<ParserTestCaseModel>,
    k: nat,
) -> bool
    decreases list.len() - i,
{
    if i >= list.len() {
        k == tests.len()
    } else if named_at(list, i as int, "parserTestCase"@) {
        k < tests.len() && test_mirrors(list[i as int]->Element_0, tests[k as int])
            && tests_mirror(list, i + 1, tests, k + 1)
    } else {
        tests_mirror(list, i + 1, tests, k)
    }
}

/// A suite that is read has a test for each element that is one, in order, and the
/// schemas and configurations that it defines.
#[verifier::spinoff_prover]
pub proof fn law_suite_parts_read(list: Seq<XmlNodeModel>, i: nat, s: TdmlSuiteModel)
    requires
        strmap::ascending(s.schemas),
        strmap::ascending(s.configs),
    ensures
        parser::suite_parts_from(list, i, s) matches Ok(after) ==> {
            &&& after.name == s.name
            &&& after.default_round_trip == s.default_round_trip
            &&& after.default_validation == s.default_validation
            &&& s.tests.len() <= after.tests.len()
            &&& after.tests.take(s.tests.len() as int) == s.tests
            &&& tests_mirror(list, i, after.tests, s.tests.len())
            &&& after.unparser_tests.len() == s.unparser_tests.len() + count_named(
                list,
                i,
                "unparserTestCase"@,
            )
            &&& strmap::ascending(after.schemas)
            &&& strmap::ascending(after.configs)
            &&& forall|n: Seq<char>|
                strmap::lookup(s.schemas, n) is Some ==> #[trigger] strmap::lookup(
                    after.schemas,
                    n,
                ) is Some
            &&& forall|n: Seq<char>|
                strmap::lookup(s.configs, n) is Some ==> #[trigger] strmap::lookup(
                    after.configs,
                    n,
                ) is Some
            &&& forall|k: int|
                i <= k && #[trigger] named_at(list, k, "defineSchema"@) ==> (document::attr(
                    list[k]->Element_0,
                    "name"@,
                ) matches Some(n) && strmap::lookup(after.schemas, n) is Some)
            &&& forall|k: int|
                i <= k && #[trigger] named_at(list, k, "defineConfig"@) ==> (document::attr(
                    list[k]->Element_0,
                    "name"@,
                ) matches Some(n) && strmap::lookup(after.configs, n) is Some)
        },
    decreases list.len() - i,
{
    lemma_names_differ();
    if i >= list.len() {
        assert(s.tests.take(s.tests.len() as int) =~= s.tests);
    } else {
        match list[i as int] {
            XmlNodeModel::Element(e) => {
                if let Ok(s2) = parser::suite_part(s, e) {
                    lemma_suite_part(s, e);
                    law_suite_parts_read(list, i + 1, s2);
                    if let Ok(after) = parser::suite_parts_from(list, i + 1, s2) {
                        if e.local == "parserTestCase"@ {
                            let t = s2.tests.last();
                            assert(after.tests.take(s2.tests.len() as int)[s.tests.len() as int]
                                == t);
                            assert(after.tests.take(s.tests.len() as int) =~= s2.tests.take(
                                s.tests.len() as int,
                            ));
                        }
                        assert(s2.tests.take(s.tests.len() as int) =~= s.tests);
                    }
                }
            },
            _ => {
                law_suite_parts_read(list, i + 1, s);
            },
        }
    }
}

#[verifier::spinoff_prover]
proof fn lemma_suite_part(s: TdmlSuiteModel, e: XmlElementModel)
    requires
        strmap::ascending(s.schemas),
        strmap::ascending(s.configs),
    ensures
        parser::suite_part(s, e) matches Ok(s2) ==> {
            &&& s2.name == s.name
            &&& s2.default_round_trip == s.default_round_trip
            &&& s2.default_validation == s.default_validation
            &&& strmap::ascending(s2.schemas)
            &&& strmap::ascending(s2.configs)
            &&& (e.local == "parserTestCase"@ ==> s2.tests.len() == s.tests.len() + 1
                && s2.tests =~= s.tests.push(s2.tests.last()) && test_mirrors(
                e,
                s2.tests.last(),
            ))
            &&& (e.local != "parserTestCase"@ ==> s2.tests == s.tests)
            &&& s2.unparser_tests.len() == s.unparser_tests.len() + if e.local
                == "unparserTestCase"@ {
                1int
            } else {
                0int
            }
            &&& forall|n: Seq<char>|
                strmap::lookup(s.schemas, n) is Some ==> #[trigger] strmap::lookup(
                    s2.schemas,
                    n,
                ) is Some
            &&& forall|n: Seq<char>|
                strmap::lookup(s.configs, n) is Some ==> #[trigger] strmap::lookup(
                    s2.configs,
                    n,
                ) is Some
            &&& (e.local == "defineSchema"@ ==> (document::attr(e, "name"@) matches Some(n)
                && strmap::lookup(s2.schemas, n) is Some))
            &&& (e.local == "defineConfig"@ ==> (document::attr(e, "name"@) matches Some(n)
                && strmap::lookup(s2.configs, n) is Some))
        },
{
    reveal(parser::suite_part);
    lemma_names_differ();
    if e.local == "parserTestCase"@ {
        law_test_mirrors(e);
    }
    if let Some(name) = document::attr(e, "name"@) {
        if e.local == "defineSchema"@ {
            if let Ok(d) = parser::schema_defined(e) {
                lemma_kept(s.schemas, name, d);
            }
        }
        if e.local == "defineConfig"@ {
            if let Ok(c) = parser::config_from(
                e.children,
                0,
                crate::tdml::suite::default_config(),
            ) {
                lemma_kept(s.configs, name, c);
            }
        }
    }
}

proof fn lemma_kept<V>(m: Seq<(Seq<char>, V)>, k: Seq<char>, v: V)
    requires
        strmap::ascending(m),
    ensures
        strmap::ascending(strmap::with_entry(m, k, v)),
        strmap::lookup(strmap::with_entry(m, k, v), k) == Some(v),
        forall|n: Seq<char>|
            strmap::lookup(m, n) is Some ==> #[trigger] strmap::lookup(
                strmap::with_entry(m, k, v),
                n,
            ) is Some,
{
    strmap::law_with_entry_ascending(m, k, v);
    strmap::law_lookup_stored(m, k, v);
    assert forall|n: Seq<char>| strmap::lookup(m, n) is Some implies #[trigger] strmap::lookup(
        strmap::with_entry(m, k, v),
        n,
    ) is Some by {
        if n != k {
            strmap::law_lookup_other(m, k, v, n);
        }
    }
}

// ----------------------------------------------------------------------- documents

/// A part made of bytes that follows parts made of bytes adds its bytes to theirs.
pub proof fn law_byte_part_added(s: PartsModel, p: ParsedDocumentPartModel)
    requires
        p.file_resource is None,
        p.bit_chunks is None,
        !s.saw_bits,
        s.pending.len() == 0,
    ensures
        document::part_added(s, p).data == s.data + p.data,
        document::part_added(s, p).pending.len() == 0,
        !document::part_added(s, p).saw_bits,
        document::part_added(s, p).chunks == s.chunks,
        document::part_added(s, p).file == s.file,
        s.data.len() > 0 ==> document::part_added(s, p).kind == s.kind,
        s.data.len() == 0 ==> document::part_added(s, p).kind == p.kind,
{
}

/// A part made of digits adds them to those before it, as bits.
pub proof fn law_bit_part_added(s: PartsModel, p: ParsedDocumentPartModel)
    requires
        p.file_resource is None,
        p.bit_chunks is Some,
    ensures
        document::part_added(s, p).pending == s.pending + document::bits_from(
            bits::joined(p.bit_chunks->0),
        ),
        document::part_added(s, p).data == s.data,
        document::part_added(s, p).chunks == s.chunks.push(p.bit_chunks->0),
        document::part_added(s, p).kind == DocumentKind::Bits,
        document::part_added(s, p).saw_bits,
{
}

/// A part of a file makes the document that file.
pub proof fn law_file_part_added(s: PartsModel, p: ParsedDocumentPartModel)
    requires
        p.file_resource is Some,
    ensures
        document::part_added(s, p).file == p.file_resource,
        document::part_added(s, p).data == s.data,
{
}

/// A part of hexadecimal digits is their bytes, and a part of text without an encoding
/// is its characters in UTF-8, entities replaced unless that is switched off.
pub proof fn law_part_bytes(
    e: XmlElementModel,
    default: DocumentBitOrder,
    p: ParsedDocumentPartModel,
)
    requires
        document::part_read(e, default, false) == Ok::<ParsedDocumentPartModel, ErrorModel>(p),
    ensures
        document::attr(e, "type"@) == Some("hex"@) || document::attr(e, "type"@) == Some("byte"@)
            ==> p.kind == DocumentKind::Hex && p.bit_chunks is None && (nodes::simple_text(
            e.children,
            0,
            "documentPart"@,
        ) matches Ok(s) && p.data == bits::hex_bytes(s)),
        document::attr(e, "type"@) == Some("text"@) && document::attr(e, "encoding"@) is None
            ==> p.kind == DocumentKind::Text && p.bit_chunks is None && (nodes::simple_text(
            e.children,
            0,
            "documentPart"@,
        ) matches Ok(s) && p.data == vstd::utf8::encode_utf8(
            if document::attr(e, "replaceDFDLEntities"@) is None || document::attr(
                e,
                "replaceDFDLEntities"@,
            ) == Some("true"@) {
                crate::entities::expanded(s)
            } else {
                s
            },
        )),
        document::attr(e, "type"@) == Some("file"@) ==> (nodes::simple_text(
            e.children,
            0,
            "documentPart"@,
        ) matches Ok(s) && p.file_resource == Some(text::trim_spec(s))),
{
    reveal(document::part_read);
    reveal_strlit("hex");
    reveal_strlit("byte");
    reveal_strlit("text");
    reveal_strlit("file");
    reveal_strlit("bits");
    assert("hex"@.len() == 3);
    assert("byte"@[0] == 'b' && "text"@[0] == 't' && "file"@[0] == 'f' && "bits"@[0] == 'b');
    assert("byte"@[1] == 'y' && "bits"@[1] == 'i');
}

// ------------------------------------------------------------------------- settings

proof fn lemma_setting_names()
    ensures
        "allowSignedIntegerLength1Bit"@ != "unqualifiedPathStepPolicy"@,
        "allowSignedIntegerLength1Bit"@ != "maxOccursBounds"@,
        "allowSignedIntegerLength1Bit"@ != "requireTextBidiProperty"@,
        "allowSignedIntegerLength1Bit"@ != "requireFloatingProperty"@,
        "allowSignedIntegerLength1Bit"@ != "requireEncodingErrorPolicy"@,
        "allowSignedIntegerLength1Bit"@ != "requireEncodingErrorPolicyProperty"@,
        "allowSignedIntegerLength1Bit"@ != "maxHexBinaryLengthInBytes"@,
        "allowSignedIntegerLength1Bit"@ != "invalidRestrictionPolicy"@,
        "allowSignedIntegerLength1Bit"@ != "escalateWarningsToErrors"@,
        "unqualifiedPathStepPolicy"@ != "maxOccursBounds"@,
        "unqualifiedPathStepPolicy"@ != "requireTextBidiProperty"@,
        "unqualifiedPathStepPolicy"@ != "requireFloatingProperty"@,
        "unqualifiedPathStepPolicy"@ != "requireEncodingErrorPolicy"@,
        "unqualifiedPathStepPolicy"@ != "requireEncodingErrorPolicyProperty"@,
        "unqualifiedPathStepPolicy"@ != "maxHexBinaryLengthInBytes"@,
        "unqualifiedPathStepPolicy"@ != "invalidRestrictionPolicy"@,
        "unqualifiedPathStepPolicy"@ != "escalateWarningsToErrors"@,
        "maxOccursBounds"@ != "requireTextBidiProperty"@,
        "maxOccursBounds"@ != "requireFloatingProperty"@,
        "maxOccursBounds"@ != "requireEncodingErrorPolicy"@,
        "maxOccursBounds"@ != "requireEncodingErrorPolicyProperty"@,
        "maxOccursBounds"@ != "maxHexBinaryLengthInBytes"@,
        "maxOccursBounds"@ != "invalidRestrictionPolicy"@,
        "maxOccursBounds"@ != "escalateWarningsToErrors"@,
        "requireTextBidiProperty"@ != "requireFloatingProperty"@,
        "requireTextBidiProperty"@ != "requireEncodingErrorPolicy"@,
        "requireTextBidiProperty"@ != "requireEncodingErrorPolicyProperty"@,
        "requireTextBidiProperty"@ != "maxHexBinaryLengthInBytes"@,
        "requireTextBidiProperty"@ != "invalidRestrictionPolicy"@,
        "requireTextBidiProperty"@ != "escalateWarningsToErrors"@,
        "requireFloatingProperty"@ != "requireEncodingErrorPolicy"@,
        "requireFloatingProperty"@ != "requireEncodingErrorPolicyProperty"@,
        "requireFloatingProperty"@ != "maxHexBinaryLengthInBytes"@,
        "requireFloatingProperty"@ != "invalidRestrictionPolicy"@,
        "requireFloatingProperty"@ != "escalateWarningsToErrors"@,
        "requireEncodingErrorPolicy"@ != "requireEncodingErrorPolicyProperty"@,
        "requireEncodingErrorPolicy"@ != "maxHexBinaryLengthInBytes"@,
        "requireEncodingErrorPolicy"@ != "invalidRestrictionPolicy"@,
        "requireEncodingErrorPolicy"@ != "escalateWarningsToErrors"@,
        "requireEncodingErrorPolicyProperty"@ != "maxHexBinaryLengthInBytes"@,
        "requireEncodingErrorPolicyProperty"@ != "invalidRestrictionPolicy"@,
        "requireEncodingErrorPolicyProperty"@ != "escalateWarningsToErrors"@,
        "maxHexBinaryLengthInBytes"@ != "invalidRestrictionPolicy"@,
        "maxHexBinaryLengthInBytes"@ != "escalateWarningsToErrors"@,
        "invalidRestrictionPolicy"@ != "escalateWarningsToErrors"@,
{
    reveal_strlit("allowSignedIntegerLength1Bit");
    reveal_strlit("unqualifiedPathStepPolicy");
    reveal_strlit("maxOccursBounds");
    reveal_strlit("requireTextBidiProperty");
    reveal_strlit("requireFloatingProperty");
    reveal_strlit("requireEncodingErrorPolicy");
    reveal_strlit("requireEncodingErrorPolicyProperty");
    reveal_strlit("maxHexBinaryLengthInBytes");
    reveal_strlit("invalidRestrictionPolicy");
    reveal_strlit("escalateWarningsToErrors");
    assert("allowSignedIntegerLength1Bit"@.len() == 28);
    assert("unqualifiedPathStepPolicy"@.len() == 25);
    assert("maxOccursBounds"@.len() == 15);
    assert("requireTextBidiProperty"@.len() == 23);
    assert("requireFloatingProperty"@.len() == 23);
    assert("requireEncodingErrorPolicy"@.len() == 26);
    assert("requireEncodingErrorPolicyProperty"@.len() == 34);
    assert("maxHexBinaryLengthInBytes"@.len() == 25);
    assert("invalidRestrictionPolicy"@.len() == 24);
    assert("escalateWarningsToErrors"@.len() == 24);
    assert("unqualifiedPathStepPolicy"@[0] == 'u');
    assert("maxHexBinaryLengthInBytes"@[0] == 'm');
    assert("requireTextBidiProperty"@[7] == 'T');
    assert("requireFloatingProperty"@[7] == 'F');
    assert("invalidRestrictionPolicy"@[0] == 'i');
    assert("escalateWarningsToErrors"@[0] == 'e');
}

/// A setting that is stated changes that setting, and no other.
#[verifier::spinoff_prover]
pub proof fn law_setting_stated(t: DaffodilTunablesModel, name: Seq<char>, v: Seq<char>)
    ensures
        ({
            let u = parser::tuned(t, name, v);
            &&& (name == "allowSignedIntegerLength1Bit"@ ==> u.allow_signed_integer_length1_bit == (v != "false"@))
            &&& (name != "allowSignedIntegerLength1Bit"@ ==> u.allow_signed_integer_length1_bit == t.allow_signed_integer_length1_bit)
            &&& (name == "maxOccursBounds"@ ==> u.max_occurs_bounds == numbers::u64_spec(v))
            &&& (name != "maxOccursBounds"@ ==> u.max_occurs_bounds == t.max_occurs_bounds)
            &&& (name == "requireTextBidiProperty"@ ==> u.require_text_bidi_property == Some(v == "true"@))
            &&& (name != "requireTextBidiProperty"@ ==> u.require_text_bidi_property == t.require_text_bidi_property)
            &&& (name == "requireFloatingProperty"@ ==> u.require_floating_property == Some(v == "true"@))
            &&& (name != "requireFloatingProperty"@ ==> u.require_floating_property == t.require_floating_property)
            &&& (name == "maxHexBinaryLengthInBytes"@ ==> u.max_hex_binary_length_in_bytes == numbers::u64_spec(v))
            &&& (name != "maxHexBinaryLengthInBytes"@ ==> u.max_hex_binary_length_in_bytes == t.max_hex_binary_length_in_bytes)
            &&& (name == "escalateWarningsToErrors"@ ==> u.escalate_warnings_to_errors == (v == "true"@))
            &&& (name != "escalateWarningsToErrors"@ ==> u.escalate_warnings_to_errors == t.escalate_warnings_to_errors)
            &&& (name == "requireEncodingErrorPolicy"@ || name
                == "requireEncodingErrorPolicyProperty"@ ==> u.require_encoding_error_policy
                == Some(v == "true"@))
            &&& (name == "invalidRestrictionPolicy"@ && v != "ignore"@ && v != "validate"@
                ==> u.invalid_restriction_policy == InvalidRestrictionPolicy::Error)
            &&& (name == "invalidRestrictionPolicy"@ && v == "ignore"@
                ==> u.invalid_restriction_policy == InvalidRestrictionPolicy::Ignore)
            &&& (name != "invalidRestrictionPolicy"@ ==> u.invalid_restriction_policy
                == t.invalid_restriction_policy)
            &&& (name != "unqualifiedPathStepPolicy"@ ==> u.unqualified_path_step_policy
                == t.unqualified_path_step_policy)
        }),
{
    lemma_setting_names();
}

/// The value of a variable is the last one that is bound to its name.
#[verifier::spinoff_prover]
pub proof fn law_variables_bound(
    list: Seq<XmlNodeModel>,
    i: nat,
    vars: Seq<(Seq<char>, Seq<char>)>,
)
    requires
        strmap::ascending(vars),
    ensures
        parser::variables_from(list, i, vars) matches Ok(after) ==> {
            &&& strmap::ascending(after)
            &&& forall|n: Seq<char>|
                strmap::lookup(vars, n) is Some ==> #[trigger] strmap::lookup(after, n) is Some
            &&& forall|k: int|
                i <= k && #[trigger] last_named(list, k, "bind"@) ==> (document::attr(
                    list[k]->Element_0,
                    "name"@,
                ) matches Some(n) && (parser::trimmed_text(list[k]->Element_0) matches Ok(v)
                    && strmap::lookup(after, n) == Some(v)))
            &&& (count_named(list, i, "bind"@) == 0 ==> after == vars)
        },
    decreases list.len() - i,
{
    if i < list.len() {
        match list[i as int] {
            XmlNodeModel::Element(e) => {
                if e.local == "bind"@ {
                    if let Some(name) = document::attr(e, "name"@) {
                        if let Ok(v) = parser::trimmed_text(e) {
                            lemma_kept(vars, name, v);
                            law_variables_bound(list, i + 1, strmap::with_entry(vars, name, v));
                        }
                    }
                } else {
                    law_variables_bound(list, i + 1, vars);
                }
            },
            _ => {
                law_variables_bound(list, i + 1, vars);
            },
        }
    }
}

/// A schema that a suite defines has its name, and holds what stands in the definition.
pub proof fn law_schema_defined(e: XmlElementModel)
    ensures
        parser::schema_defined(e) matches Ok(d) ==> {
            &&& document::attr(e, "name"@) == Some(d.name)
            &&& (xml_text::inner_xml(e) matches Ok(inner) && text::contains_spec(d.xsd, inner))
        },
{
    if let Ok(d) = parser::schema_defined(e) {
        let inner = xml_text::inner_xml(e)->Ok_0;
        let tail = "\n</xs:schema>"@;
        text::law_contains(d.xsd, inner);
        let a = d.xsd.len() - tail.len() - inner.len();
        assert(d.xsd.subrange(a, a + inner.len()) =~= inner);
    }
}

} // verus!
