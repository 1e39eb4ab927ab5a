//! Comparing the infoset that a test expects with the one it gets.

use vstd::prelude::*;
use crate::error::{cat3, cat5, cat7};
use crate::numbers;
use crate::numbers::decimal_chars;
use crate::qname;
use crate::qname::local_name_from_qname;
use crate::strmap;
use crate::strmap::StrMap;
use crate::tdml::infoset;
use crate::tdml::infoset::{lemma_entries, lemma_lists, InfosetNode, InfosetNodeModel};
use crate::tdml::resources;
use crate::tdml::resources::tdml_blob_reference_path;
use crate::tdml::suite::{TdmlResourceContext, TdmlResourceContextModel};
use crate::text;
use crate::text::{
    chars_of, contains, contains_char, ends_with, eq, is, string_of, strip_prefix, trim,
};
use crate::values::Duplicate;

verus! {

broadcast use vstd::string::group_string_axioms;

/// The form that `format!` gives an optional text for programmers.
pub uninterp spec fn debug_form(t: Option<Seq<char>>) -> Seq<char>;

/// `format!` with the debug form of an optional string.
#[verifier::external_body]
fn debug_text(t: &Option<String>) -> (r: String)
    ensures
        r@ == debug_form(t.deep_view()),
{
    format!("{:?}", t)
}

fn decimal_text(n: usize) -> (r: String)
    ensures
        r@ == numbers::decimal(n as nat),
{
    let d = decimal_chars(n as u64);
    string_of(d.as_slice())
}

/// A calendar value that is expected without a time zone equals one in UTC.
pub open spec fn calendars_equal(expected: Seq<char>, actual: Seq<char>) -> bool {
    expected == actual || (expected.contains('T') && !expected.contains('+') && !expected.contains(
        'Z',
    ) && (match text::after_prefix(actual, expected) {
        Some(rest) => rest == "+00:00"@ || rest == "Z"@,
        None => false,
    }))
}

/// A calendar value that is expected without a time zone equals one in UTC.
pub fn calendar_infoset_texts_equal(expected: &str, actual: &str) -> (r: bool)
    ensures
        r == calendars_equal(expected@, actual@),
{
    if eq(expected, actual) {
        return true;
    }
    let e = chars_of(expected);
    let zoned = contains_char(e.as_slice(), '+') || contains_char(e.as_slice(), 'Z');
    if contains_char(e.as_slice(), 'T') && !zoned {
        let a = chars_of(actual);
        if let Some(rest) = strip_prefix(a.as_slice(), expected) {
            return is(rest, "+00:00") || is(rest, "Z");
        }
    }
    false
}

/// Whether a pair of texts is among those that mean the same number.
pub open spec fn close(pairs: Seq<(Seq<char>, Seq<char>)>, a: Seq<char>, b: Seq<char>) -> bool {
    exists|i: int| 0 <= i < pairs.len() && #[trigger] pairs[i] == (a, b)
}

fn listed(pairs: &Vec<(String, String)>, a: &str, b: &str) -> (r: bool)
    ensures
        r == close(pairs.deep_view(), a@, b@),
{
    let mut i: usize = 0;
    while i < pairs.len()
        invariant
            i <= pairs@.len(),
            forall|k: int| 0 <= k < i ==> #[trigger] pairs.deep_view()[k] != (a@, b@),
        decreases pairs@.len() - i,
    {
        assert(pairs.deep_view()[i as int] == pairs@[i as int].deep_view());
        if eq(pairs[i].0.as_str(), a) && eq(pairs[i].1.as_str(), b) {
            return true;
        }
        i += 1;
    }
    false
}

/// Whether the text of a node names a large object.
pub open spec fn names_blob(t: Seq<char>) -> bool {
    text::contains_spec(t, "/blobs/"@) && text::has_suffix(t, ".bin"@)
}

fn is_blob_name(t: &str) -> (r: bool)
    ensures
        r == names_blob(t@),
{
    let c = chars_of(t);
    contains(c.as_slice(), "/blobs/") && ends_with(c.as_slice(), ".bin")
}

/// Why the bytes of a large object are not those of the file that is expected.
pub open spec fn blob_fault(
    uri: Seq<char>,
    actual: Seq<u8>,
    ctx: TdmlResourceContextModel,
) -> Option<Seq<char>> {
    let path = resources::blob_path(uri, ctx.resource_root);
    match strmap::lookup(ctx.files, path) {
        None => Some("blob reference read `"@ + path + "`: not found"@),
        Some(b) => if b == actual {
            None
        } else {
            Some(
                "blob bytes mismatch for `"@ + uri + "`: expected "@ + numbers::decimal(b.len())
                    + " byte(s), got "@ + numbers::decimal(actual.len()) + " byte(s)"@,
            )
        },
    }
}

fn same_bytes(a: &Vec<u8>, b: &Vec<u8>) -> (r: bool)
    ensures
        r == (a@ == b@),
{
    if a.len() != b.len() {
        return false;
    }
    let mut i: usize = 0;
    while i < a.len()
        invariant
            i <= a@.len(),
            a@.len() == b@.len(),
            forall|k: int| 0 <= k < i ==> a@[k] == b@[k],
        decreases a@.len() - i,
    {
        if a[i] != b[i] {
            return false;
        }
        i += 1;
    }
    assert(a@ =~= b@);
    true
}

fn compare_blob_reference(expected_uri: &str, actual: &Vec<u8>, ctx: &TdmlResourceContext) -> (r:
    Option<String>)
    ensures
        text::str_opt(r) == blob_fault(expected_uri@, actual@, ctx@),
{
    let path = tdml_blob_reference_path(expected_uri, ctx);
    match ctx.files.get(path.as_str()) {
        None => Some(cat3("blob reference read `", path.as_str(), "`: not found")),
        Some(b) => {
            assert(b.deep_view() =~= b@);
            if same_bytes(b, actual) {
                None
            } else {
                let want = decimal_text(b.len());
                let got = decimal_text(actual.len());
                Some(
                    cat7(
                        "blob bytes mismatch for `",
                        expected_uri,
                        "`: expected ",
                        want.as_str(),
                        " byte(s), got ",
                        got.as_str(),
                        " byte(s)",
                    ),
                )
            }
        },
    }
}

/// The text of a node; one without text counts as empty.
pub open spec fn text_or_empty(t: Option<Seq<char>>) -> Seq<char> {
    match t {
        Some(s) => s,
        None => Seq::empty(),
    }
}

/// Why the text of a node is not the one that is expected.
pub open spec fn text_fault(
    e: InfosetNodeModel,
    a: InfosetNodeModel,
    pairs: Seq<(Seq<char>, Seq<char>)>,
    ctx: TdmlResourceContextModel,
) -> Option<Seq<char>> {
    match e.text {
        None => None,
        Some(t) => if names_blob(t) {
            match a.blob_bytes {
                None => Some(
                    "expected blob data for `"@ + e.name + "`, got text `"@ + debug_form(a.text)
                        + "`"@,
                ),
                Some(b) => blob_fault(t, b, ctx),
            }
        } else {
            let got = text_or_empty(a.text);
            let x = text::trim_spec(t);
            let y = text::trim_spec(got);
            if x == y || close(pairs, x, y) || calendars_equal(x, y) {
                None
            } else {
                Some(
                    "text mismatch for `"@ + e.name + "`: expected `"@ + t + "`, got `"@ + got
                        + "`"@,
                )
            }
        },
    }
}

/// The nodes of the first name whose local part is this.
pub open spec fn nodes_named(
    children: Seq<(Seq<char>, Seq<InfosetNodeModel>)>,
    key: Seq<char>,
) -> Option<Seq<InfosetNodeModel>>
    decreases children.len(),
{
    if children.len() == 0 {
        None
    } else if qname::local_spec(children[0].0) == key {
        Some(children[0].1)
    } else {
        nodes_named(children.skip(1), key)
    }
}

/// The nodes of this name, none where there is no such name.
pub open spec fn list_named(
    children: Seq<(Seq<char>, Seq<InfosetNodeModel>)>,
    key: Seq<char>,
) -> Seq<InfosetNodeModel> {
    match nodes_named(children, key) {
        Some(l) => l,
        None => Seq::empty(),
    }
}

/// The first name of `children` from `i` on that `expected` does not have.
pub open spec fn surplus(
    children: Seq<(Seq<char>, Seq<InfosetNodeModel>)>,
    i: nat,
    expected: Seq<(Seq<char>, Seq<InfosetNodeModel>)>,
) -> Option<Seq<char>>
    decreases children.len() - i,
{
    if i >= children.len() {
        None
    } else {
        let key = qname::local_spec(children[i as int].0);
        if nodes_named(expected, key) is None {
            Some(
                "unexpected child `"@ + key + "` ("@ + numbers::decimal(
                    children[i as int].1.len(),
                ) + " occurrence(s))"@,
            )
        } else {
            surplus(children, i + 1, expected)
        }
    }
}

/// Why a node is not the one that is expected.
pub open spec fn node_fault(
    e: InfosetNodeModel,
    a: InfosetNodeModel,
    pairs: Seq<(Seq<char>, Seq<char>)>,
    ctx: TdmlResourceContextModel,
) -> Option<Seq<char>>
    decreases e, 0nat,
{
    if qname::local_spec(e.name) != qname::local_spec(a.name) {
        Some("element name mismatch: expected `"@ + e.name + "`, got `"@ + a.name + "`"@)
    } else {
        match text_fault(e, a, pairs, ctx) {
            Some(x) => Some(x),
            None => match children_fault(e.children, 0, a.children, pairs, ctx) {
                Some(x) => Some(x),
                None => surplus(a.children, 0, e.children),
            },
        }
    }
}

/// Why the nodes under the names from `i` on are not those that are expected.
pub open spec fn children_fault(
    e: Seq<(Seq<char>, Seq<InfosetNodeModel>)>,
    i: nat,
    a: Seq<(Seq<char>, Seq<InfosetNodeModel>)>,
    pairs: Seq<(Seq<char>, Seq<char>)>,
    ctx: TdmlResourceContextModel,
) -> Option<Seq<char>>
    decreases e, e.len() - i,
{
    if i >= e.len() {
        None
    } else {
        let key = qname::local_spec(e[i as int].0);
        let want = e[i as int].1;
        let got = list_named(a, key);
        if want.len() != got.len() {
            Some(
                "child count mismatch for `"@ + key + "`: expected "@ + numbers::decimal(want.len())
                    + ", got "@ + numbers::decimal(got.len()),
            )
        } else {
            match list_fault(want, 0, got, pairs, ctx) {
                Some(x) => Some(x),
                None => children_fault(e, i + 1, a, pairs, ctx),
            }
        }
    }
}

/// Why the nodes of a list from `i` on are not those that are expected.
pub open spec fn list_fault(
    e: Seq<InfosetNodeModel>,
    i: nat,
    a: Seq<InfosetNodeModel>,
    pairs: Seq<(Seq<char>, Seq<char>)>,
    ctx: TdmlResourceContextModel,
) -> Option<Seq<char>>
    decreases e, e.len() - i,
{
    if i >= e.len() {
        None
    } else {
        match node_fault(e[i as int], a[i as int], pairs, ctx) {
            Some(x) => Some(x),
            None => list_fault(e, i + 1, a, pairs, ctx),
        }
    }
}

/// The outcome of a comparison.
pub open spec fn verdict(r: Result<(), String>) -> Option<Seq<char>> {
    match r {
        Ok(_) => None,
        Err(e) => Some(e@),
    }
}

fn compare_text(
    e: &InfosetNode,
    a: &InfosetNode,
    equal_numbers: &Vec<(String, String)>,
    ctx: &TdmlResourceContext,
) -> (r: Option<String>)
    ensures
        text::str_opt(r) == text_fault(e@, a@, equal_numbers.deep_view(), ctx@),
{
    let t = match &e.text {
        None => {
            return None;
        },
        Some(t) => t,
    };
    if is_blob_name(t.as_str()) {
        return match &a.blob_bytes {
            None => {
                let got = debug_text(&a.text);
                Some(
                    cat5(
                        "expected blob data for `",
                        e.name.as_str(),
                        "`, got text `",
                        got.as_str(),
                        "`",
                    ),
                )
            },
            Some(b) => {
                assert(b.deep_view() =~= b@);
                compare_blob_reference(t.as_str(), b, ctx)
            },
        };
    }
    let got = match &a.text {
        Some(s) => s.copy(),
        None => String::new(),
    };
    let tc = chars_of(t.as_str());
    let gc = chars_of(got.as_str());
    let x = string_of(trim(tc.as_slice()));
    let y = string_of(trim(gc.as_slice()));
    if eq(x.as_str(), y.as_str()) || listed(equal_numbers, x.as_str(), y.as_str())
        || calendar_infoset_texts_equal(x.as_str(), y.as_str()) {
        return None;
    }
    Some(
        cat7(
            "text mismatch for `",
            e.name.as_str(),
            "`: expected `",
            t.as_str(),
            "`, got `",
            got.as_str(),
            "`",
        ),
    )
}

fn find_named<'a>(children: &'a StrMap<Vec<InfosetNode>>, key: &str) -> (r: Option<
    &'a Vec<InfosetNode>,
>)
    ensures
        match r {
            Some(l) => nodes_named(infoset::entry_models(children.entries), key@) == Some(
                infoset::list_models(*l),
            ),
            None => nodes_named(infoset::entry_models(children.entries), key@) is None,
        },
{
    let ghost all = infoset::entry_models(children.entries);
    let mut i: usize = 0;
    assert(all.skip(0) =~= all);
    while i < children.entries.len()
        invariant
            i <= children.entries@.len(),
            all == infoset::entry_models(children.entries),
            nodes_named(all, key@) == nodes_named(all.skip(i as int), key@),
        decreases children.entries@.len() - i,
    {
        let entry = &children.entries[i];
        assert(all.skip(i as int)[0] == all[i as int]);
        assert(all.skip(i as int).skip(1) =~= all.skip(i + 1));
        let local = local_name_from_qname(entry.0.as_str());
        if eq(local.as_str(), key) {
            return Some(&entry.1);
        }
        i += 1;
    }
    None
}

fn find_surplus(
    children: &StrMap<Vec<InfosetNode>>,
    expected: &StrMap<Vec<InfosetNode>>,
) -> (r: Option<String>)
    ensures
        text::str_opt(r) == surplus(
            infoset::entry_models(children.entries),
            0,
            infoset::entry_models(expected.entries),
        ),
{
    let ghost all = infoset::entry_models(children.entries);
    let ghost want = infoset::entry_models(expected.entries);
    let mut i: usize = 0;
    while i < children.entries.len()
        invariant
            i <= children.entries@.len(),
            all == infoset::entry_models(children.entries),
            want == infoset::entry_models(expected.entries),
            surplus(all, 0, want) == surplus(all, i as nat, want),
        decreases children.entries@.len() - i,
    {
        let entry = &children.entries[i];
        assert(all[i as int] == (entry.0@, infoset::list_models(entry.1)));
        let key = local_name_from_qname(entry.0.as_str());
        if find_named(expected, key.as_str()).is_none() {
            let n = decimal_text(entry.1.len());
            return Some(
                cat5("unexpected child `", key.as_str(), "` (", n.as_str(), " occurrence(s))"),
            );
        }
        i += 1;
    }
    None
}

fn compare_children(
    e: &InfosetNode,
    a: &InfosetNode,
    equal_numbers: &Vec<(String, String)>,
    ctx: &TdmlResourceContext,
) -> (r: Result<(), String>)
    ensures
        verdict(r) == children_fault(
            e@.children,
            0,
            a@.children,
            equal_numbers.deep_view(),
            ctx@,
        ),
    decreases e@.children, e@.children.len() + 1,
{
    let ghost want = e@.children;
    let ghost pairs = equal_numbers.deep_view();
    let mut i: usize = 0;
    while i < e.children.entries.len()
        invariant
            i <= e.children.entries@.len(),
            want == e@.children,
            pairs == equal_numbers.deep_view(),
            children_fault(want, 0, a@.children, pairs, ctx@) == children_fault(
                want,
                i as nat,
                a@.children,
                pairs,
                ctx@,
            ),
        decreases e.children.entries@.len() - i,
    {
        let entry = &e.children.entries[i];
        assert(want[i as int] == (entry.0@, infoset::list_models(entry.1)));
        assert(decreases_to!(want => want[i as int]));
        assert(decreases_to!(want[i as int] => want[i as int].1));
        let key = local_name_from_qname(entry.0.as_str());
        let none: Vec<InfosetNode> = Vec::new();
        assert(infoset::list_models(none) =~= Seq::<InfosetNodeModel>::empty());
        let got: &Vec<InfosetNode> = match find_named(&a.children, key.as_str()) {
            Some(l) => l,
            None => &none,
        };
        if entry.1.len() != got.len() {
            let x = decimal_text(entry.1.len());
            let y = decimal_text(got.len());
            return Err(
                crate::error::cat6(
                    "child count mismatch for `",
                    key.as_str(),
                    "`: expected ",
                    x.as_str(),
                    ", got ",
                    y.as_str(),
                ),
            );
        }
        compare_lists(&entry.1, got, equal_numbers, ctx)?;
        i += 1;
    }
    Ok(())
}

fn compare_lists(
    e: &Vec<InfosetNode>,
    a: &Vec<InfosetNode>,
    equal_numbers: &Vec<(String, String)>,
    ctx: &TdmlResourceContext,
) -> (r: Result<(), String>)
    requires
        e@.len() == a@.len(),
    ensures
        verdict(r) == list_fault(
            infoset::list_models(*e),
            0,
            infoset::list_models(*a),
            equal_numbers.deep_view(),
            ctx@,
        ),
    decreases infoset::list_models(*e), e@.len() + 1,
{
    let ghost want = infoset::list_models(*e);
    let ghost got = infoset::list_models(*a);
    let ghost pairs = equal_numbers.deep_view();
    let mut i: usize = 0;
    while i < e.len()
        invariant
            i <= e@.len(),
            e@.len() == a@.len(),
            want == infoset::list_models(*e),
            got == infoset::list_models(*a),
            pairs == equal_numbers.deep_view(),
            list_fault(want, 0, got, pairs, ctx@) == list_fault(want, i as nat, got, pairs, ctx@),
        decreases e@.len() - i,
    {
        assert(want[i as int] == e@[i as int]@);
        assert(got[i as int] == a@[i as int]@);
        compare_node(&e[i], &a[i], equal_numbers, ctx)?;
        i += 1;
    }
    Ok(())
}

/// Compares a node with the one that is expected. Of texts that differ, the pairs
/// in `equal_numbers` mean the same number.
pub fn compare_node(
    expected: &InfosetNode,
    actual: &InfosetNode,
    equal_numbers: &Vec<(String, String)>,
    ctx: &TdmlResourceContext,
) -> (r: Result<(), String>)
    ensures
        verdict(r) == node_fault(expected@, actual@, equal_numbers.deep_view(), ctx@),
    decreases expected@, 0nat,
{
    let x = local_name_from_qname(expected.name.as_str());
    let y = local_name_from_qname(actual.name.as_str());
    if !eq(x.as_str(), y.as_str()) {
        return Err(
            cat5(
                "element name mismatch: expected `",
                expected.name.as_str(),
                "`, got `",
                actual.name.as_str(),
                "`",
            ),
        );
    }
    if let Some(why) = compare_text(expected, actual, equal_numbers, ctx) {
        return Err(why);
    }
    compare_children(expected, actual, equal_numbers, ctx)?;
    match find_surplus(&actual.children, &expected.children) {
        Some(why) => Err(why),
        None => Ok(()),
    }
}

/// Why the nodes of an infoset are not those that are expected.
pub open spec fn nodes_fault(
    e: Seq<InfosetNodeModel>,
    a: Seq<InfosetNodeModel>,
    pairs: Seq<(Seq<char>, Seq<char>)>,
    ctx: TdmlResourceContextModel,
) -> Option<Seq<char>> {
    if e.len() != a.len() {
        Some(
            "root child count mismatch: expected "@ + numbers::decimal(e.len()) + ", got "@
                + numbers::decimal(a.len()),
        )
    } else {
        list_fault(e, 0, a, pairs, ctx)
    }
}

/// Compares the nodes of an infoset with those that are expected. Of texts that
/// differ, the pairs in `equal_numbers` mean the same number.
pub fn compare_nodes(
    expected: &Vec<InfosetNode>,
    actual: &Vec<InfosetNode>,
    equal_numbers: &Vec<(String, String)>,
    ctx: &TdmlResourceContext,
) -> (r: Result<(), String>)
    ensures
        verdict(r) == nodes_fault(
            infoset::list_models(*expected),
            infoset::list_models(*actual),
            equal_numbers.deep_view(),
            ctx@,
        ),
{
    if expected.len() != actual.len() {
        let x = decimal_text(expected.len());
        let y = decimal_text(actual.len());
        return Err(
            crate::error::cat4(
                "root child count mismatch: expected ",
                x.as_str(),
                ", got ",
                y.as_str(),
            ),
        );
    }
    compare_lists(expected, actual, equal_numbers, ctx)
}

// The texts that a comparison meets.
/// The pair of texts of two nodes, unless the one expected names a large object.
pub open spec fn own_pair(e: InfosetNodeModel, a: InfosetNodeModel) -> Seq<
    (Seq<char>, Seq<char>),
> {
    match e.text {
        Some(t) if !names_blob(t) => seq![
            (text::trim_spec(t), text::trim_spec(text_or_empty(a.text))),
        ],
        _ => Seq::empty(),
    }
}

/// The pairs of texts of two nodes and of the nodes in them.
pub open spec fn node_pairs(e: InfosetNodeModel, a: InfosetNodeModel) -> Seq<
    (Seq<char>, Seq<char>),
>
    decreases e, 0nat,
{
    own_pair(e, a) + children_pairs(e.children, 0, a.children)
}

/// The pairs of texts under the names from `i` on.
pub open spec fn children_pairs(
    e: Seq<(Seq<char>, Seq<InfosetNodeModel>)>,
    i: nat,
    a: Seq<(Seq<char>, Seq<InfosetNodeModel>)>,
) -> Seq<(Seq<char>, Seq<char>)>
    decreases e, e.len() - i,
{
    if i >= e.len() {
        Seq::empty()
    } else {
        list_pairs(e[i as int].1, 0, list_named(a, qname::local_spec(e[i as int].0)))
            + children_pairs(e, i + 1, a)
    }
}

/// The pairs of texts of two lists from `i` on.
pub open spec fn list_pairs(
    e: Seq<InfosetNodeModel>,
    i: nat,
    a: Seq<InfosetNodeModel>,
) -> Seq<(Seq<char>, Seq<char>)>
    decreases e, e.len() - i,
{
    if i >= e.len() || i >= a.len() {
        Seq::empty()
    } else {
        node_pairs(e[i as int], a[i as int]) + list_pairs(e, i + 1, a)
    }
}

fn collect_node(e: &InfosetNode, a: &InfosetNode, out: &mut Vec<(String, String)>)
    ensures
        final(out).deep_view() == old(out).deep_view() + node_pairs(e@, a@),
    decreases e@, 0nat,
{
    let ghost start = out.deep_view();
    if let Some(t) = &e.text {
        if !is_blob_name(t.as_str()) {
            let got = match &a.text {
                Some(s) => s.copy(),
                None => String::new(),
            };
            let tc = chars_of(t.as_str());
            let gc = chars_of(got.as_str());
            let pair = (string_of(trim(tc.as_slice())), string_of(trim(gc.as_slice())));
            let ghost shown = pair.deep_view();
            out.push(pair);
            assert(out.deep_view() =~= start.push(shown));
        }
    }
    assert(out.deep_view() =~= start + own_pair(e@, a@));
    let ghost want = e@.children;
    let ghost whole = out.deep_view() + children_pairs(want, 0, a@.children);
    let mut i: usize = 0;
    while i < e.children.entries.len()
        invariant
            i <= e.children.entries@.len(),
            want == e@.children,
            whole == out.deep_view() + children_pairs(want, i as nat, a@.children),
        decreases e.children.entries@.len() - i,
    {
        let entry = &e.children.entries[i];
        assert(want[i as int] == (entry.0@, infoset::list_models(entry.1)));
        assert(decreases_to!(e@ => e@.children));
        assert(decreases_to!(want => want[i as int]));
        assert(decreases_to!(want[i as int] => want[i as int].1));
        let ghost before = out.deep_view();
        let ghost rest = children_pairs(want, (i + 1) as nat, a@.children);
        let key = local_name_from_qname(entry.0.as_str());
        let none: Vec<InfosetNode> = Vec::new();
        assert(infoset::list_models(none) =~= Seq::<InfosetNodeModel>::empty());
        let got: &Vec<InfosetNode> = match find_named(&a.children, key.as_str()) {
            Some(l) => l,
            None => &none,
        };
        collect_lists(&entry.1, got, out);
        proof {
            let l = list_pairs(
                infoset::list_models(entry.1),
                0,
                list_named(a@.children, qname::local_spec(entry.0@)),
            );
            assert(before + (l + rest) =~= (before + l) + rest);
        }
        i += 1;
    }
    assert(out.deep_view() + Seq::<(Seq<char>, Seq<char>)>::empty() =~= out.deep_view());
    assert(whole =~= start + node_pairs(e@, a@));
}

fn collect_lists(e: &Vec<InfosetNode>, a: &Vec<InfosetNode>, out: &mut Vec<(String, String)>)
    ensures
        final(out).deep_view() == old(out).deep_view() + list_pairs(
            infoset::list_models(*e),
            0,
            infoset::list_models(*a),
        ),
    decreases infoset::list_models(*e), e@.len() + 1,
{
    let ghost want = infoset::list_models(*e);
    let ghost got = infoset::list_models(*a);
    let ghost whole = out.deep_view() + list_pairs(want, 0, got);
    let mut i: usize = 0;
    while i < e.len() && i < a.len()
        invariant
            i <= e@.len(),
            want == infoset::list_models(*e),
            got == infoset::list_models(*a),
            whole == out.deep_view() + list_pairs(want, i as nat, got),
        decreases e@.len() - i,
    {
        assert(want[i as int] == e@[i as int]@);
        assert(got[i as int] == a@[i as int]@);
        let ghost before = out.deep_view();
        let ghost rest = list_pairs(want, (i + 1) as nat, got);
        collect_node(&e[i], &a[i], out);
        proof {
            let n = node_pairs(want[i as int], got[i as int]);
            assert(before + (n + rest) =~= (before + n) + rest);
        }
        i += 1;
    }
    assert(out.deep_view() + Seq::<(Seq<char>, Seq<char>)>::empty() =~= out.deep_view());
}

/// The pairs of texts that a comparison of these nodes meets, for the caller to
/// say which of them mean the same number.
pub fn text_pairs(expected: &Vec<InfosetNode>, actual: &Vec<InfosetNode>) -> (r: Vec<
    (String, String),
>)
    ensures
        r.deep_view() == list_pairs(
            infoset::list_models(*expected),
            0,
            infoset::list_models(*actual),
        ),
{
    let mut out: Vec<(String, String)> = Vec::new();
    let ghost want = list_pairs(
        infoset::list_models(*expected),
        0,
        infoset::list_models(*actual),
    );
    assert(out.deep_view() + want =~= want);
    collect_lists(expected, actual, &mut out);
    out
}

// Every infoset is the one that is expected where it is expected itself.
/// No two names have the same local part.
pub open spec fn names_differ(children: Seq<(Seq<char>, Seq<InfosetNodeModel>)>) -> bool {
    forall|i: int, j: int|
        #![trigger children[i], children[j]]
        0 <= i < j < children.len() ==> qname::local_spec(children[i].0) != qname::local_spec(
            children[j].0,
        )
}

/// No text in a node names a large object, and names differ in their local parts.
pub open spec fn plain_node(n: InfosetNodeModel) -> bool
    decreases n, 0nat,
{
    &&& (n.text matches Some(t) ==> !names_blob(t))
    &&& names_differ(n.children)
    &&& plain_children(n.children, 0)
}

/// The nodes under the names from `i` on are plain.
pub open spec fn plain_children(
    children: Seq<(Seq<char>, Seq<InfosetNodeModel>)>,
    i: nat,
) -> bool
    decreases children, children.len() - i,
{
    i >= children.len() || (plain_list(children[i as int].1, 0) && plain_children(children, i + 1))
}

/// The nodes of a list from `i` on are plain.
pub open spec fn plain_list(list: Seq<InfosetNodeModel>, i: nat) -> bool
    decreases list, list.len() - i,
{
    i >= list.len() || (plain_node(list[i as int]) && plain_list(list, i + 1))
}

proof fn lemma_named(children: Seq<(Seq<char>, Seq<InfosetNodeModel>)>, i: int)
    requires
        0 <= i < children.len(),
        names_differ(children),
    ensures
        nodes_named(children, qname::local_spec(children[i].0)) == Some(children[i].1),
    decreases children.len(),
{
    if i > 0 {
        let rest = children.skip(1);
        assert(children[0].0 == children[0].0 && children[i].0 == children[i].0);
        assert forall|a: int, b: int|
            #![trigger rest[a], rest[b]]
            0 <= a < b < rest.len() implies qname::local_spec(rest[a].0) != qname::local_spec(
            rest[b].0,
        ) by {
            assert(rest[a] == children[a + 1]);
            assert(rest[b] == children[b + 1]);
        }
        assert(rest[i - 1] == children[i]);
        lemma_named(rest, i - 1);
    }
}

/// An infoset in which no text names a large object, and in which names differ in
/// their local parts, equals itself.
pub proof fn law_node_equals_itself(
    n: InfosetNodeModel,
    pairs: Seq<(Seq<char>, Seq<char>)>,
    ctx: TdmlResourceContextModel,
)
    requires
        plain_node(n),
    ensures
        node_fault(n, n, pairs, ctx) is None,
    decreases n, 0nat,
{
    lemma_children_equal(n.children, 0, pairs, ctx);
    lemma_no_surplus(n.children, 0);
}

proof fn lemma_no_surplus(children: Seq<(Seq<char>, Seq<InfosetNodeModel>)>, i: nat)
    requires
        names_differ(children),
    ensures
        surplus(children, i, children) is None,
    decreases children.len() - i,
{
    if i < children.len() {
        lemma_named(children, i as int);
        lemma_no_surplus(children, i + 1);
    }
}

proof fn lemma_children_equal(
    children: Seq<(Seq<char>, Seq<InfosetNodeModel>)>,
    i: nat,
    pairs: Seq<(Seq<char>, Seq<char>)>,
    ctx: TdmlResourceContextModel,
)
    requires
        names_differ(children),
        plain_children(children, i),
    ensures
        children_fault(children, i, children, pairs, ctx) is None,
    decreases children, children.len() - i,
{
    if i < children.len() {
        lemma_named(children, i as int);
        assert(decreases_to!(children => children[i as int]));
        assert(decreases_to!(children[i as int] => children[i as int].1));
        lemma_list_equal(children[i as int].1, 0, pairs, ctx);
        lemma_children_equal(children, i + 1, pairs, ctx);
    }
}

proof fn lemma_list_equal(
    list: Seq<InfosetNodeModel>,
    i: nat,
    pairs: Seq<(Seq<char>, Seq<char>)>,
    ctx: TdmlResourceContextModel,
)
    requires
        plain_list(list, i),
    ensures
        list_fault(list, i, list, pairs, ctx) is None,
    decreases list, list.len() - i,
{
    if i < list.len() {
        law_node_equals_itself(list[i as int], pairs, ctx);
        lemma_list_equal(list, i + 1, pairs, ctx);
    }
}

// What it means that a comparison finds nothing.
/// The texts of two nodes mean the same: but for blanks around them they are equal,
/// a pair that means the same number, or the same time in UTC.
pub open spec fn same_meaning(
    t: Seq<char>,
    got: Seq<char>,
    pairs: Seq<(Seq<char>, Seq<char>)>,
) -> bool {
    let x = text::trim_spec(t);
    let y = text::trim_spec(got);
    ||| x == y
    ||| pairs.contains((x, y))
    ||| (x.contains('T') && !x.contains('+') && !x.contains('Z') && (y == x + "+00:00"@ || y == x
        + "Z"@))
}

/// The text that a node holds, if it is expected to hold any, is as expected: bytes
/// are those of the file that the text names, other text means the same.
pub open spec fn text_as_expected(
    e: InfosetNodeModel,
    a: InfosetNodeModel,
    pairs: Seq<(Seq<char>, Seq<char>)>,
    ctx: TdmlResourceContextModel,
) -> bool {
    e.text matches Some(t) ==> if text::contains_spec(t, "/blobs/"@) && text::has_suffix(
        t,
        ".bin"@,
    ) {
        a.blob_bytes is Some && strmap::lookup(
            ctx.files,
            resources::blob_path(t, ctx.resource_root),
        ) == a.blob_bytes
    } else {
        same_meaning(
            t,
            match a.text {
                Some(s) => s,
                None => Seq::empty(),
            },
            pairs,
        )
    }
}

/// There is a name among `children` with the local part of `name`.
pub open spec fn has_name(
    children: Seq<(Seq<char>, Seq<InfosetNodeModel>)>,
    name: Seq<char>,
) -> bool {
    exists|i: int|
        0 <= i < children.len() && qname::local_spec((#[trigger] children[i]).0)
            == qname::local_spec(name)
}

/// Two lists are equally long, and no node of one differs from that of the other.
pub open spec fn pairwise(
    e: Seq<InfosetNodeModel>,
    a: Seq<InfosetNodeModel>,
    pairs: Seq<(Seq<char>, Seq<char>)>,
    ctx: TdmlResourceContextModel,
) -> bool {
    &&& e.len() == a.len()
    &&& forall|k: int|
        #![trigger e[k]]
        #![trigger a[k]]
        0 <= k < e.len() ==> node_fault(e[k], a[k], pairs, ctx) is None
}

proof fn lemma_nodes_named(children: Seq<(Seq<char>, Seq<InfosetNodeModel>)>, key: Seq<char>)
    ensures
        nodes_named(children, key) is None <==> forall|i: int|
            0 <= i < children.len() ==> qname::local_spec((#[trigger] children[i]).0) != key,
        nodes_named(children, key) matches Some(l) ==> exists|i: int|
            0 <= i < children.len() && qname::local_spec((#[trigger] children[i]).0) == key
                && children[i].1 == l,
    decreases children.len(),
{
    if children.len() > 0 {
        let rest = children.skip(1);
        assert forall|i: int| 0 <= i < rest.len() implies rest[i] == #[trigger] children[i + 1] by {}
        if qname::local_spec(children[0].0) == key {
            assert(children[0].1 == nodes_named(children, key)->0);
        } else {
            lemma_nodes_named(rest, key);
            if nodes_named(children, key) is Some {
                let i = choose|i: int|
                    0 <= i < rest.len() && qname::local_spec((#[trigger] rest[i]).0) == key
                        && rest[i].1 == nodes_named(rest, key)->0;
                assert(children[i + 1] == rest[i]);
            } else {
                assert forall|i: int| 0 <= i < children.len() implies qname::local_spec(
                    (#[trigger] children[i]).0,
                ) != key by {
                    if i > 0 {
                        assert(rest[i - 1] == children[i]);
                    }
                }
            }
        }
    }
}

proof fn lemma_surplus(
    a: Seq<(Seq<char>, Seq<InfosetNodeModel>)>,
    i: nat,
    e: Seq<(Seq<char>, Seq<InfosetNodeModel>)>,
)
    ensures
        surplus(a, i, e) is None <==> forall|k: int|
            i <= k < a.len() ==> has_name(e, (#[trigger] a[k]).0),
    decreases a.len() - i,
{
    if i < a.len() {
        lemma_nodes_named(e, qname::local_spec(a[i as int].0));
        lemma_surplus(a, i + 1, e);
    }
}

proof fn lemma_pairwise(
    e: Seq<InfosetNodeModel>,
    i: nat,
    a: Seq<InfosetNodeModel>,
    pairs: Seq<(Seq<char>, Seq<char>)>,
    ctx: TdmlResourceContextModel,
)
    requires
        e.len() == a.len(),
    ensures
        list_fault(e, i, a, pairs, ctx) is None <==> forall|k: int|
            i <= k < e.len() ==> node_fault(#[trigger] e[k], a[k], pairs, ctx) is None,
    decreases e.len() - i,
{
    if i < e.len() {
        lemma_pairwise(e, i + 1, a, pairs, ctx);
    }
}

proof fn lemma_children_matched(
    e: Seq<(Seq<char>, Seq<InfosetNodeModel>)>,
    i: nat,
    a: Seq<(Seq<char>, Seq<InfosetNodeModel>)>,
    pairs: Seq<(Seq<char>, Seq<char>)>,
    ctx: TdmlResourceContextModel,
)
    ensures
        children_fault(e, i, a, pairs, ctx) is None <==> forall|j: int|
            i <= j < e.len() ==> pairwise(
                (#[trigger] e[j]).1,
                list_named(a, qname::local_spec(e[j].0)),
                pairs,
                ctx,
            ),
    decreases e.len() - i,
{
    if i < e.len() {
        let want = e[i as int].1;
        let got = list_named(a, qname::local_spec(e[i as int].0));
        if want.len() == got.len() {
            lemma_pairwise(want, 0, got, pairs, ctx);
            assert(pairwise(want, got, pairs, ctx) <==> list_fault(want, 0, got, pairs, ctx) is None);
        }
        lemma_children_matched(e, i + 1, a, pairs, ctx);
    }
}

/// Two texts do not differ just where they mean the same.
pub proof fn law_texts_agree(
    e: InfosetNodeModel,
    a: InfosetNodeModel,
    pairs: Seq<(Seq<char>, Seq<char>)>,
    ctx: TdmlResourceContextModel,
)
    ensures
        text_fault(e, a, pairs, ctx) is None <==> text_as_expected(e, a, pairs, ctx),
{
    if let Some(t) = e.text {
        let x = text::trim_spec(t);
        let y = text::trim_spec(text_or_empty(a.text));
        if let Some(rest) = text::after_prefix(y, x) {
            assert(y =~= x + rest);
        }
        assert((x + "+00:00"@).take(x.len() as int) =~= x);
        assert((x + "+00:00"@).skip(x.len() as int) =~= "+00:00"@);
        assert((x + "Z"@).take(x.len() as int) =~= x);
        assert((x + "Z"@).skip(x.len() as int) =~= "Z"@);
    }
}

/// Where a comparison finds nothing, the nodes have the same name and the texts
/// agree; the nodes under each name that is expected are as many as are expected,
/// in that order, and none of them differs; and every other name is one that is
/// expected. Names are the same when their local parts are.
pub proof fn law_equal_nodes_agree(
    e: InfosetNodeModel,
    a: InfosetNodeModel,
    pairs: Seq<(Seq<char>, Seq<char>)>,
    ctx: TdmlResourceContextModel,
)
    requires
        node_fault(e, a, pairs, ctx) is None,
    ensures
        qname::local_spec(e.name) == qname::local_spec(a.name),
        text_as_expected(e, a, pairs, ctx),
        forall|j: int|
            0 <= j < e.children.len() && (#[trigger] e.children[j]).1.len() > 0 ==> exists|i: int|
                0 <= i < a.children.len() && qname::local_spec((#[trigger] a.children[i]).0)
                    == qname::local_spec(e.children[j].0) && pairwise(
                    e.children[j].1,
                    a.children[i].1,
                    pairs,
                    ctx,
                ),
        forall|i: int|
            0 <= i < a.children.len() ==> has_name(e.children, (#[trigger] a.children[i]).0),
        names_differ(a.children) ==> forall|i: int, j: int|
            0 <= i < a.children.len() && 0 <= j < e.children.len() && qname::local_spec(
                (#[trigger] a.children[i]).0,
            ) == qname::local_spec((#[trigger] e.children[j]).0) ==> pairwise(
                e.children[j].1,
                a.children[i].1,
                pairs,
                ctx,
            ),
{
    law_texts_agree(e, a, pairs, ctx);
    lemma_children_matched(e.children, 0, a.children, pairs, ctx);
    lemma_surplus(a.children, 0, e.children);
    assert forall|j: int|
        0 <= j < e.children.len() && (#[trigger] e.children[j]).1.len() > 0 implies exists|i: int|
        0 <= i < a.children.len() && qname::local_spec((#[trigger] a.children[i]).0)
            == qname::local_spec(e.children[j].0) && pairwise(
            e.children[j].1,
            a.children[i].1,
            pairs,
            ctx,
        ) by {
        lemma_nodes_named(a.children, qname::local_spec(e.children[j].0));
    }
    if names_differ(a.children) {
        assert forall|i: int, j: int|
            0 <= i < a.children.len() && 0 <= j < e.children.len() && qname::local_spec(
                (#[trigger] a.children[i]).0,
            ) == qname::local_spec((#[trigger] e.children[j]).0) implies pairwise(
            e.children[j].1,
            a.children[i].1,
            pairs,
            ctx,
        ) by {
            lemma_named(a.children, i);
        }
    }
}

/// Nodes with the same name whose texts agree, which have the same names under them
/// and under each of these equally many nodes that do not differ, do not differ.
pub proof fn law_agreeing_nodes_equal(
    e: InfosetNodeModel,
    a: InfosetNodeModel,
    pairs: Seq<(Seq<char>, Seq<char>)>,
    ctx: TdmlResourceContextModel,
)
    requires
        qname::local_spec(e.name) == qname::local_spec(a.name),
        text_as_expected(e, a, pairs, ctx),
        names_differ(a.children),
        forall|i: int|
            0 <= i < a.children.len() ==> has_name(e.children, (#[trigger] a.children[i]).0),
        forall|j: int|
            0 <= j < e.children.len() ==> has_name(a.children, (#[trigger] e.children[j]).0),
        forall|i: int, j: int|
            0 <= i < a.children.len() && 0 <= j < e.children.len() && qname::local_spec(
                (#[trigger] a.children[i]).0,
            ) == qname::local_spec((#[trigger] e.children[j]).0) ==> pairwise(
                e.children[j].1,
                a.children[i].1,
                pairs,
                ctx,
            ),
    ensures
        node_fault(e, a, pairs, ctx) is None,
{
    law_texts_agree(e, a, pairs, ctx);
    lemma_surplus(a.children, 0, e.children);
    assert forall|j: int| 0 <= j < e.children.len() implies pairwise(
        (#[trigger] e.children[j]).1,
        list_named(a.children, qname::local_spec(e.children[j].0)),
        pairs,
        ctx,
    ) by {
        assert(has_name(a.children, e.children[j].0));
        let i = choose|i: int|
            0 <= i < a.children.len() && qname::local_spec((#[trigger] a.children[i]).0)
                == qname::local_spec(e.children[j].0);
        lemma_named(a.children, i);
    }
    lemma_children_matched(e.children, 0, a.children, pairs, ctx);
}

/// Two infosets do not differ just where they have equally many nodes, none of which
/// differs.
pub proof fn law_infosets_agree(
    e: Seq<InfosetNodeModel>,
    a: Seq<InfosetNodeModel>,
    pairs: Seq<(Seq<char>, Seq<char>)>,
    ctx: TdmlResourceContextModel,
)
    ensures
        nodes_fault(e, a, pairs, ctx) is None <==> pairwise(e, a, pairs, ctx),
{
    if e.len() == a.len() {
        lemma_pairwise(e, 0, a, pairs, ctx);
    }
}

// The same at every level.
/// A node has the names of another, and under each of these equally many nodes that
/// are built alike.
pub open spec fn built_alike(e: InfosetNodeModel, a: InfosetNodeModel) -> bool
    decreases e, 0nat,
{
    &&& qname::local_spec(e.name) == qname::local_spec(a.name)
    &&& children_alike(e.children, 0, a.children)
    &&& forall|i: int|
        0 <= i < a.children.len() ==> has_name(e.children, (#[trigger] a.children[i]).0)
}

/// Under each name from `j` on that has nodes there are equally many nodes that are
/// built alike.
pub open spec fn children_alike(
    e: Seq<(Seq<char>, Seq<InfosetNodeModel>)>,
    j: nat,
    a: Seq<(Seq<char>, Seq<InfosetNodeModel>)>,
) -> bool
    decreases e, e.len() - j,
{
    j >= e.len() || ((e[j as int].1.len() > 0 ==> exists|i: int|
        0 <= i < a.len() && qname::local_spec((#[trigger] a[i]).0) == qname::local_spec(
            e[j as int].0,
        ) && lists_alike(e[j as int].1, 0, a[i].1)) && children_alike(e, j + 1, a))
}

/// Two lists are equally long, and their nodes from `k` on are built alike.
pub open spec fn lists_alike(e: Seq<InfosetNodeModel>, k: nat, a: Seq<InfosetNodeModel>) -> bool
    decreases e, e.len() - k,
{
    e.len() == a.len() && (k >= e.len() || (built_alike(e[k as int], a[k as int]) && lists_alike(
        e,
        k + 1,
        a,
    )))
}

/// Infosets between which a comparison finds no difference are built alike at every
/// level: no node is missing, and none is there that is not expected.
pub proof fn law_equal_means_built_alike(
    e: InfosetNodeModel,
    a: InfosetNodeModel,
    pairs: Seq<(Seq<char>, Seq<char>)>,
    ctx: TdmlResourceContextModel,
)
    requires
        node_fault(e, a, pairs, ctx) is None,
    ensures
        built_alike(e, a),
    decreases e, 0nat,
{
    lemma_surplus(a.children, 0, e.children);
    lemma_children_alike(e.children, 0, a.children, pairs, ctx);
}

proof fn lemma_children_alike(
    e: Seq<(Seq<char>, Seq<InfosetNodeModel>)>,
    j: nat,
    a: Seq<(Seq<char>, Seq<InfosetNodeModel>)>,
    pairs: Seq<(Seq<char>, Seq<char>)>,
    ctx: TdmlResourceContextModel,
)
    requires
        children_fault(e, j, a, pairs, ctx) is None,
    ensures
        children_alike(e, j, a),
    decreases e, e.len() - j,
{
    if j < e.len() {
        let key = qname::local_spec(e[j as int].0);
        let got = list_named(a, key);
        assert(decreases_to!(e => e[j as int]));
        assert(decreases_to!(e[j as int] => e[j as int].1));
        lemma_lists_alike(e[j as int].1, 0, got, pairs, ctx);
        lemma_nodes_named(a, key);
        lemma_children_alike(e, j + 1, a, pairs, ctx);
    }
}

proof fn lemma_lists_alike(
    e: Seq<InfosetNodeModel>,
    k: nat,
    a: Seq<InfosetNodeModel>,
    pairs: Seq<(Seq<char>, Seq<char>)>,
    ctx: TdmlResourceContextModel,
)
    requires
        e.len() == a.len(),
        list_fault(e, k, a, pairs, ctx) is None,
    ensures
        lists_alike(e, k, a),
    decreases e, e.len() - k,
{
    if k < e.len() {
        law_equal_means_built_alike(e[k as int], a[k as int], pairs, ctx);
        lemma_lists_alike(e, k + 1, a, pairs, ctx);
    }
}

} // verus!
