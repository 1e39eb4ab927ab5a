//! Infosets as TDML tests write them: trees of named nodes with text.

use vstd::prelude::*;
use crate::encoding;
use crate::encoding::text_from_utf8;
use crate::error;
use crate::error::{cat3, invalid_xml, Error, ErrorModel, ParseError};
use crate::qname;
use crate::qname::local_name_from_qname;
use crate::strmap;
use crate::strmap::StrMap;
use crate::tdml::document;
use crate::tdml::document::{attr_is, attr_of};
use crate::tdml::resources;
use crate::tdml::resources::load_tdml_resource;
use crate::tdml::suite::{TdmlResourceContext, TdmlResourceContextModel};
use crate::text;
use crate::text::{
    chars_of, contains, eq, find, part, starts_with, string_of, trim, trim_start,
};
use crate::values::{owned, Duplicate};
use crate::xml;
use crate::xml::{
    build_tree, read_items, XmlElement, XmlElementModel, XmlItem, XmlItemModel, XmlNode,
    XmlNodeModel,
};
use crate::xml_text;
use crate::xml_text::read_inner_xml;
use crate::xsd::nodes;
use crate::xsd::nodes::{break_of, lemma_child, read_simple_element_text, skip_blank, skip_element};

verus! {

broadcast use vstd::string::group_string_axioms;

/// A node of an infoset.
#[derive(Debug)]
pub struct InfosetNode {
    pub name: String,
    pub namespace: Option<String>,
    pub text: Option<String>,
    pub nil: bool,
    /// The nodes in this one, by name.
    pub children: StrMap<Vec<InfosetNode>>,
    /// The bytes of a large object.
    pub blob_bytes: Option<Vec<u8>>,
}

/// What an [`InfosetNode`] holds, its text as character sequences.
#[verifier::ext_equal]
pub struct InfosetNodeModel {
    pub name: Seq<char>,
    pub namespace: Option<Seq<char>>,
    pub text: Option<Seq<char>>,
    pub nil: bool,
    pub children: Seq<(Seq<char>, Seq<InfosetNodeModel>)>,
    pub blob_bytes: Option<Seq<u8>>,
}

/// What each node of a list holds.
pub open spec fn list_models(v: Vec<InfosetNode>) -> Seq<InfosetNodeModel>
    decreases v,
{
    Seq::new(
        v@.len(),
        |i: int|
            if 0 <= i < v@.len() {
                v@[i].model()
            } else {
                arbitrary()
            },
    )
}

/// What the nodes of each name hold.
pub open spec fn entry_models(v: Vec<(String, Vec<InfosetNode>)>) -> Seq<
    (Seq<char>, Seq<InfosetNodeModel>),
>
    decreases v,
{
    Seq::new(
        v@.len(),
        |i: int|
            if 0 <= i < v@.len() {
                (v@[i].0@, list_models(v@[i].1))
            } else {
                arbitrary()
            },
    )
}

impl InfosetNode {
    /// What the node holds.
    pub open spec fn model(self) -> InfosetNodeModel
        decreases self,
    {
        InfosetNodeModel {
            name: self.name@,
            namespace: self.namespace.deep_view(),
            text: self.text.deep_view(),
            nil: self.nil,
            children: entry_models(self.children.entries),
            blob_bytes: self.blob_bytes.deep_view(),
        }
    }
}

impl DeepView for InfosetNode {
    type V = InfosetNodeModel;

    open spec fn deep_view(&self) -> InfosetNodeModel {
        self.model()
    }
}

impl View for InfosetNode {
    type V = InfosetNodeModel;

    open spec fn view(&self) -> InfosetNodeModel {
        self.model()
    }
}

/// Lists of nodes hold what their nodes hold.
pub proof fn lemma_lists(v: Vec<InfosetNode>)
    ensures
        v.deep_view() == list_models(v),
{
    assert(v.deep_view() =~= list_models(v));
}

/// Nodes by name hold what their nodes hold.
pub proof fn lemma_entries(m: StrMap<Vec<InfosetNode>>)
    ensures
        m@ == entry_models(m.entries),
{
    let e = entry_models(m.entries);
    assert(m@.len() == e.len());
    assert forall|i: int| 0 <= i < e.len() implies #[trigger] m@[i] == e[i] by {
        lemma_lists(m.entries@[i].1);
    }
    assert(m@ =~= e);
}

/// Nodes by name, in the order in which they stand.
pub open spec fn grouped(list: Seq<InfosetNodeModel>) -> Seq<(Seq<char>, Seq<InfosetNodeModel>)>
    decreases list.len(),
{
    if list.len() == 0 {
        Seq::empty()
    } else {
        let rest = grouped(list.drop_last());
        let name = list.last().name;
        let same = match strmap::lookup(rest, name) {
            Some(l) => l,
            None => Seq::empty(),
        };
        strmap::with_entry(rest, name, same.push(list.last()))
    }
}

/// An element as a node without contents.
pub open spec fn bare_node(e: XmlElementModel) -> InfosetNodeModel {
    InfosetNodeModel {
        name: e.local,
        namespace: match e.namespace {
            Some(uri) if uri.len() > 0 => Some(uri),
            _ => None,
        },
        text: None,
        nil: (match document::attr(e, "xsi:nil"@) {
            Some(v) => Some(v),
            None => document::attr(e, "{http://www.w3.org/2001/XMLSchema-instance}nil"@),
        }) == Some("true"@),
        children: Seq::empty(),
        blob_bytes: None,
    }
}

/// An element as a node, from what the elements in it are.
pub open spec fn node_from(
    e: XmlElementModel,
    inner: Result<Seq<InfosetNodeModel>, Seq<char>>,
) -> Result<InfosetNodeModel, Seq<char>> {
    let j = nodes::after_blank(e.children, 0);
    if j >= e.children.len() {
        Ok(bare_node(e))
    } else if e.children[j as int] is Element {
        match nodes::flaw(e) {
            Some(x) => Err(error::error_text(x)),
            None => match inner {
                Err(x) => Err(x),
                Ok(list) => Ok(InfosetNodeModel { children: grouped(list), ..bare_node(e) }),
            },
        }
    } else {
        match nodes::simple_text(e.children, j, e.local) {
            Err(x) => Err(error::error_text(x)),
            Ok(t) => Ok(InfosetNodeModel { text: Some(text::trim_spec(t)), ..bare_node(e) }),
        }
    }
}

/// The elements that stand from `i` on, up to the first thing that is neither
/// blank nor an element, as nodes.
pub open spec fn nodes_read(list: Seq<XmlNodeModel>, i: nat) -> Result<
    Seq<InfosetNodeModel>,
    Seq<char>,
>
    decreases list, list.len() - i,
{
    if i >= list.len() {
        Ok(Seq::empty())
    } else {
        match list[i as int] {
            XmlNodeModel::Blank(_) => nodes_read(list, i + 1),
            XmlNodeModel::Remark(_) => nodes_read(list, i + 1),
            XmlNodeModel::Element(e) => match node_from(e, nodes_read(e.children, 0)) {
                Err(x) => Err(x),
                Ok(n) => match nodes_read(list, i + 1) {
                    Err(x) => Err(x),
                    Ok(rest) => Ok(seq![n] + rest),
                },
            },
            other => match nodes::broken_at(other) {
                Some(x) => Err(error::error_text(x)),
                None => Ok(Seq::empty()),
            },
        }
    }
}

fn group(list: &Vec<InfosetNode>) -> (r: StrMap<Vec<InfosetNode>>)
    ensures
        entry_models(r.entries) == grouped(list_models(*list)),
{
    let ghost all = list_models(*list);
    let mut map: StrMap<Vec<InfosetNode>> = StrMap::new();
    let mut i: usize = 0;
    assert(all.take(0) =~= Seq::<InfosetNodeModel>::empty());
    while i < list.len()
        invariant
            i <= list@.len(),
            all == list_models(*list),
            map@ == grouped(all.take(i as int)),
        decreases list@.len() - i,
    {
        assert(all[i as int] == list@[i as int]@);
        assert(all.take(i + 1).drop_last() =~= all.take(i as int));
        assert(all.take(i + 1).last() == all[i as int]);
        let n = &list[i];
        let mut same: Vec<InfosetNode> = match map.get(n.name.as_str()) {
            Some(l) => copy_nodes(l),
            None => Vec::new(),
        };
        let ghost before = same.deep_view();
        assert(before =~= match strmap::lookup(map@, n.name@) {
            Some(l) => l,
            None => Seq::empty(),
        });
        same.push(copy_node(n));
        assert(same.deep_view() =~= before.push(n@));
        map.insert(n.name.copy(), same);
        i += 1;
    }
    assert(all.take(all.len() as int) =~= all);
    proof {
        lemma_entries(map);
    }
    map
}

fn copy_nodes(list: &Vec<InfosetNode>) -> (r: Vec<InfosetNode>)
    ensures
        r.deep_view() == list.deep_view(),
    decreases list_models(*list),
{
    let mut out: Vec<InfosetNode> = Vec::new();
    let mut i: usize = 0;
    while i < list.len()
        invariant
            i <= list@.len(),
            out@.len() == i,
            forall|k: int| 0 <= k < i ==> (#[trigger] out@[k])@ == list@[k]@,
        decreases list@.len() - i,
    {
        assert(list_models(*list)[i as int] == list@[i as int]@);
        out.push(copy_node(&list[i]));
        i += 1;
    }
    assert(out.deep_view() =~= list.deep_view());
    out
}

fn copy_node(n: &InfosetNode) -> (r: InfosetNode)
    ensures
        r@ == n@,
    decreases n@,
{
    let mut entries: Vec<(String, Vec<InfosetNode>)> = Vec::new();
    let mut i: usize = 0;
    while i < n.children.entries.len()
        invariant
            i <= n.children.entries@.len(),
            entries@.len() == i,
            forall|k: int|
                0 <= k < i ==> (#[trigger] entries@[k]).0@ == n.children.entries@[k].0@
                    && entries@[k].1.deep_view() == n.children.entries@[k].1.deep_view(),
        decreases n.children.entries@.len() - i,
    {
        let entry = &n.children.entries[i];
        proof {
            assert(n@.children[i as int].1 == list_models(entry.1));
        }
        entries.push((entry.0.copy(), copy_nodes(&entry.1)));
        i += 1;
    }
    proof {
        let a = entry_models(entries);
        let b = entry_models(n.children.entries);
        assert forall|k: int| 0 <= k < a.len() implies #[trigger] a[k] == b[k] by {
            lemma_lists(entries@[k].1);
            lemma_lists(n.children.entries@[k].1);
            assert(entries@[k].0@ == n.children.entries@[k].0@);
        }
        assert(a =~= b);
    }
    InfosetNode {
        name: n.name.copy(),
        namespace: n.namespace.copy(),
        text: n.text.copy(),
        nil: n.nil,
        children: StrMap { entries },
        blob_bytes: n.blob_bytes.copy(),
    }
}

impl Duplicate for InfosetNode {
    fn copy(&self) -> (r: Self) {
        copy_node(self)
    }
}

fn bare(e: &XmlElement) -> (r: InfosetNode)
    ensures
        r@ == bare_node(e@),
{
    let namespace = match &e.namespace {
        Some(uri) => if chars_of(uri.as_str()).len() > 0 {
            Some(uri.copy())
        } else {
            None
        },
        None => None,
    };
    let nil = match attr_of(e, "xsi:nil") {
        Some(v) => eq(v, "true"),
        None => attr_is(e, "{http://www.w3.org/2001/XMLSchema-instance}nil", "true"),
    };
    let r = InfosetNode {
        name: e.local.copy(),
        namespace,
        text: None,
        nil,
        children: StrMap::new(),
        blob_bytes: None,
    };
    proof {
        lemma_entries(r.children);
    }
    r
}

/// The outcome of reading nodes.
pub open spec fn nodes_outcome(r: Result<Vec<InfosetNode>, String>) -> Result<
    Seq<InfosetNodeModel>,
    Seq<char>,
> {
    match r {
        Ok(l) => Ok(list_models(l)),
        Err(e) => Err(e@),
    }
}

fn read_node(e: &XmlElement) -> (r: Result<InfosetNode, String>)
    ensures
        match r {
            Ok(n) => node_from(e@, nodes_read(e@.children, 0)) == Ok::<
                InfosetNodeModel,
                Seq<char>,
            >(n@),
            Err(x) => node_from(e@, nodes_read(e@.children, 0)) == Err::<
                InfosetNodeModel,
                Seq<char>,
            >(x@),
        },
    decreases e.children, 1int,
{
    let j = skip_blank(&e.children, 0);
    let mut n = bare(e);
    if j >= e.children.len() {
        return Ok(n);
    }
    assert(e@.children[j as int] == e.children@[j as int].model());
    let nested = match &e.children[j] {
        XmlNode::Element(_) => true,
        _ => false,
    };
    if nested {
        if let Err(x) = skip_element(e) {
            return Err(x.to_text());
        }
        let list = read_nodes(&e.children)?;
        n.children = group(&list);
        return Ok(n);
    }
    match read_simple_element_text(&e.children, j, e.local.as_str()) {
        Err(x) => Err(x.to_text()),
        Ok(t) => {
            let c = chars_of(t.as_str());
            n.text = Some(string_of(trim(c.as_slice())));
            Ok(n)
        },
    }
}

fn read_nodes(list: &Vec<XmlNode>) -> (r: Result<Vec<InfosetNode>, String>)
    ensures
        nodes_outcome(r) == nodes_read(xml::node_models(*list), 0),
    decreases *list, 0int,
{
    let ghost all = xml::node_models(*list);
    let ghost want = nodes_read(all, 0);
    let mut out: Vec<InfosetNode> = Vec::new();
    let mut i: usize = 0;
    proof {
        match want {
            Ok(t) => {
                assert(list_models(out) + t =~= t);
            },
            Err(_) => {},
        }
    }
    while i < list.len()
        invariant
            i <= list@.len(),
            all == xml::node_models(*list),
            want == nodes_read(all, 0),
            match nodes_read(all, i as nat) {
                Ok(t) => want == Ok::<Seq<InfosetNodeModel>, Seq<char>>(list_models(out) + t),
                Err(x) => want == Err::<Seq<InfosetNodeModel>, Seq<char>>(x),
            },
        decreases list@.len() - i,
    {
        assert(all[i as int] == list@[i as int].model());
        match &list[i] {
            XmlNode::Blank(_) => {},
            XmlNode::Remark(_) => {},
            XmlNode::Element(e) => {
                proof {
                    lemma_child(*list, i as int);
                }
                let n = read_node(e)?;
                let ghost before = list_models(out);
                let ghost shown = n@;
                out.push(n);
                proof {
                    assert(list_models(out) =~= before.push(shown));
                    match nodes_read(all, (i + 1) as nat) {
                        Ok(t) => {
                            assert(before + (seq![shown] + t) =~= list_models(out) + t);
                        },
                        Err(_) => {},
                    }
                }
            },
            other => {
                if let Some(x) = break_of(other) {
                    return Err(x.to_text());
                }
                assert(list_models(out) + Seq::<InfosetNodeModel>::empty() =~= list_models(out));
                return Ok(out);
            },
        }
        i += 1;
    }
    assert(list_models(out) + Seq::<InfosetNodeModel>::empty() =~= list_models(out));
    Ok(out)
}

// The root of a document.
/// The first position from `i` on where neither blank nor a processing
/// instruction stands.
pub open spec fn root_position(list: Seq<XmlNodeModel>, i: nat) -> nat
    decreases list.len() - i,
{
    if i < list.len() && (nodes::blank(list[i as int]) || list[i as int] is Instruction) {
        root_position(list, i + 1)
    } else {
        i
    }
}

/// The root element of a document, which must have this name.
pub open spec fn root_named(list: Seq<XmlNodeModel>, local: Seq<char>) -> Result<
    XmlElementModel,
    ErrorModel,
> {
    let j = root_position(list, 0);
    if j >= list.len() {
        Err(ErrorModel::UnexpectedEof)
    } else {
        match list[j as int] {
            XmlNodeModel::Element(e) if e.local == local => Ok(e),
            n => match nodes::broken_at(n) {
                Some(x) => Err(x),
                None => Err(ErrorModel::InvalidXml("expected start of element `"@ + local + "`"@)),
            },
        }
    }
}

/// The root element of a document, which must have this name.
pub fn expect_start<'a>(list: &'a Vec<XmlNode>, local: &str) -> (r: Result<&'a XmlElement, Error>)
    ensures
        match r {
            Ok(e) => root_named(xml::node_models(*list), local@) == Ok::<
                XmlElementModel,
                ErrorModel,
            >(e@),
            Err(x) => root_named(xml::node_models(*list), local@) == Err::<
                XmlElementModel,
                ErrorModel,
            >(x@),
        },
{
    let ghost all = xml::node_models(*list);
    let mut i: usize = 0;
    while i < list.len()
        invariant
            i <= list@.len(),
            all == xml::node_models(*list),
            root_position(all, 0) == root_position(all, i as nat),
        decreases list@.len() - i,
    {
        assert(all[i as int] == list@[i as int].model());
        match &list[i] {
            XmlNode::Blank(_) => {},
            XmlNode::Remark(_) => {},
            XmlNode::Instruction => {},
            XmlNode::Element(e) => {
                return if eq(e.local.as_str(), local) {
                    Ok(e)
                } else {
                    Err(invalid_xml(cat3("expected start of element `", local, "`")))
                };
            },
            other => {
                return match break_of(other) {
                    Some(x) => Err(x),
                    None => Err(invalid_xml(cat3("expected start of element `", local, "`"))),
                };
            },
        }
        i += 1;
    }
    Err(Error::Parse(ParseError::UnexpectedEof))
}

// Infosets in TDML documents.
/// The elements of an infoset that is read in these pieces.
pub open spec fn infoset_in(items: Seq<XmlItemModel>) -> Result<Seq<InfosetNodeModel>, Seq<char>> {
    match root_named(xml::tree_spec(items), "infosetRoot"@) {
        Err(x) => Err(error::error_text(x)),
        Ok(root) => nodes_read(root.children, 0),
    }
}

/// The elements of an infoset that is read in these pieces.
pub fn parse_infoset_items(items: &Vec<XmlItem>) -> (r: Result<Vec<InfosetNode>, String>)
    ensures
        nodes_outcome(r) == infoset_in(items.deep_view()),
{
    let tree = build_tree(items);
    match expect_start(&tree, "infosetRoot") {
        Err(x) => Err(x.to_text()),
        Ok(root) => read_nodes(&root.children),
    }
}

/// Elements in one root.
pub open spec fn rooted(inner: Seq<char>) -> Seq<char> {
    "<infosetRoot>"@ + inner + "</infosetRoot>"@
}

/// The elements of an infoset.
pub open spec fn infoset_elements(inner: Seq<char>) -> Result<Seq<InfosetNodeModel>, Seq<char>> {
    infoset_in(xml::xml_items(rooted(inner)))
}

fn parse_infoset_elements(inner: &str) -> (r: Result<Vec<InfosetNode>, String>)
    ensures
        nodes_outcome(r) == infoset_elements(inner@),
{
    let wrapped = cat3("<infosetRoot>", inner, "</infosetRoot>");
    let items = read_items(wrapped.as_str());
    parse_infoset_items(&items)
}

/// Text in one root.
pub open spec fn wrapped(s: Seq<char>) -> Seq<char> {
    "<wrapper>"@ + s + "</wrapper>"@
}

/// The infoset that stands first in an element.
pub open spec fn infoset_child(w: XmlElementModel) -> Option<XmlElementModel> {
    let j = nodes::after_blank(w.children, 0);
    if j < w.children.len() {
        match w.children[j as int] {
            XmlNodeModel::Element(d) if d.local == "dfdlInfoset"@ => Some(d),
            _ => None,
        }
    } else {
        None
    }
}

fn find_infoset<'a>(w: &'a XmlElement) -> (r: Option<&'a XmlElement>)
    ensures
        match r {
            Some(d) => infoset_child(w@) == Some(d@),
            None => infoset_child(w@) is None,
        },
{
    let j = skip_blank(&w.children, 0);
    if j >= w.children.len() {
        return None;
    }
    assert(w@.children[j as int] == w.children@[j as int].model());
    match &w.children[j] {
        XmlNode::Element(d) => if eq(d.local.as_str(), "dfdlInfoset") {
            Some(d)
        } else {
            None
        },
        _ => None,
    }
}

/// What stands in the infoset of a text that is read in these pieces, or else the
/// text itself.
pub open spec fn extracted_in(items: Seq<XmlItemModel>, s: Seq<char>) -> Seq<char> {
    match root_named(xml::tree_spec(items), "wrapper"@) {
        Err(_) => s,
        Ok(w) => match infoset_child(w) {
            None => s,
            Some(d) => match xml_text::inner_xml(d) {
                Ok(t) => t,
                Err(_) => Seq::empty(),
            },
        },
    }
}

/// What stands in the infoset of a text that is read in these pieces, or else the
/// text itself.
pub fn extract_infoset_from_items(items: &Vec<XmlItem>, s: &str) -> (r: String)
    ensures
        r@ == extracted_in(items.deep_view(), s@),
{
    let tree = build_tree(items);
    match expect_start(&tree, "wrapper") {
        Err(_) => owned(s),
        Ok(w) => match find_infoset(w) {
            None => owned(s),
            Some(d) => match read_inner_xml(d) {
                Ok(t) => t,
                Err(_) => String::new(),
            },
        },
    }
}

/// What stands in the infoset of a text, or else the text itself.
pub open spec fn extracted(xml_source: Seq<char>) -> Seq<char> {
    let s = text::trim_spec(xml_source);
    if s.len() == 0 {
        Seq::empty()
    } else {
        extracted_in(xml::xml_items(wrapped(s)), s)
    }
}

fn extract_dfdl_infoset_xml(xml_source: &str) -> (r: String)
    ensures
        r@ == extracted(xml_source@),
{
    let c = chars_of(xml_source);
    let t = trim(c.as_slice());
    if t.len() == 0 {
        return String::new();
    }
    let s = string_of(t);
    let w = cat3("<wrapper>", s.as_str(), "</wrapper>");
    let items = read_items(w.as_str());
    extract_infoset_from_items(&items, s.as_str())
}

/// A document without what comes before its root: declarations, processing
/// instructions and comments.
pub open spec fn after_prolog(s: Seq<char>) -> Seq<char>
    decreases s.len(),
{
    let instruction = text::find_spec(s, "?>"@);
    let comment = text::find_spec(s, "-->"@);
    if text::has_prefix(s, "<?"@) && instruction is Some && 0 <= instruction->Some_0 && instruction->Some_0
        + 2 <= s.len() {
        let rest = s.skip(instruction->Some_0 + 2);
        proof {
            text::lemma_trim_start_len(rest);
        }
        after_prolog(text::trim_start_spec(rest))
    } else if text::has_prefix(s, "<!--"@) && comment is Some && 0 <= comment->Some_0 && comment->Some_0
        + 3 <= s.len() {
        let rest = s.skip(comment->Some_0 + 3);
        proof {
            text::lemma_trim_start_len(rest);
        }
        after_prolog(text::trim_start_spec(rest))
    } else {
        s
    }
}

fn strip_infoset_prolog(t: &str) -> (r: String)
    ensures
        r@ == after_prolog(text::trim_spec(t@)),
{
    let c = chars_of(t);
    let mut s: &[char] = trim(c.as_slice());
    let ghost want = after_prolog(s@);
    proof {
        reveal_strlit("?>");
        reveal_strlit("-->");
    }
    loop
        invariant
            want == after_prolog(text::trim_spec(t@)),
            want == after_prolog(s@),
            "?>"@.len() == 2,
            "-->"@.len() == 3,
        decreases s@.len(),
    {
        proof {
            text::lemma_find_from(s@, "?>"@, 0);
            text::lemma_find_from(s@, "-->"@, 0);
        }
        let n: usize = s.len();
        if starts_with(s, "<?") {
            if let Some(end) = find(s, "?>") {
                let rest = part(s, end + 2, n);
                assert(rest@ =~= s@.skip(end + 2));
                proof {
                    text::lemma_trim_start_len(rest@);
                }
                s = trim_start(rest);
                continue;
            }
        }
        if starts_with(s, "<!--") {
            if let Some(end) = find(s, "-->") {
                let rest = part(s, end + 3, n);
                assert(rest@ =~= s@.skip(end + 3));
                proof {
                    text::lemma_trim_start_len(rest@);
                }
                s = trim_start(rest);
                continue;
            }
        }
        return string_of(s);
    }
}

/// Whether a text declares its document type.
pub open spec fn has_doctype(s: Seq<char>) -> bool {
    text::contains_spec(s, "<!DOCTYPE"@) || text::contains_spec(s, "<!doctype"@)
}

/// An infoset from the text of a file.
pub open spec fn infoset_from_text(path: Seq<char>, s: Seq<char>) -> Result<Seq<char>, Seq<char>> {
    if has_doctype(s) {
        Err(
            "schema error: Schema Definition Error. DOCTYPE is disallowed when parsing infoset `"@
                + path + "`"@,
        )
    } else {
        Ok(extracted(after_prolog(text::trim_spec(s))))
    }
}

/// An infoset from a file.
pub open spec fn infoset_from_file(path: Seq<char>, ctx: TdmlResourceContextModel) -> Result<
    Seq<char>,
    Seq<char>,
> {
    match resources::resource_bytes(path, ctx) {
        Err(e) => Err(e),
        Ok(b) => if !vstd::utf8::valid_utf8(b) {
            Err("infoset file `"@ + path + "` is not UTF-8"@)
        } else {
            infoset_from_text(path, vstd::utf8::decode_utf8(b))
        },
    }
}

fn load_infoset(path: &str, ctx: &TdmlResourceContext) -> (r: Result<String, String>)
    ensures
        encoding::text_outcome(r) == infoset_from_file(path@, ctx@),
{
    let bytes = load_tdml_resource(path, ctx)?;
    match text_from_utf8(bytes.as_slice()) {
        Err(_) => Err(cat3("infoset file `", path, "` is not UTF-8")),
        Ok(s) => {
            let c = chars_of(s.as_str());
            if contains(c.as_slice(), "<!DOCTYPE") || contains(c.as_slice(), "<!doctype") {
                return Err(
                    cat3(
                        "schema error: Schema Definition Error. DOCTYPE is disallowed when parsing infoset `",
                        path,
                        "`",
                    ),
                );
            }
            let rest = strip_infoset_prolog(s.as_str());
            Ok(extract_dfdl_infoset_xml(rest.as_str()))
        },
    }
}

/// The XML of an infoset that is read in these pieces, from the file it names
/// where it names one.
pub open spec fn infoset_xml_in(
    items: Seq<XmlItemModel>,
    s: Seq<char>,
    ctx: TdmlResourceContextModel,
) -> Result<Seq<char>, Seq<char>> {
    match root_named(xml::tree_spec(items), "wrapper"@) {
        Err(x) => Err(error::error_text(x)),
        Ok(w) => match infoset_child(w) {
            None => Ok(s),
            Some(d) => match xml_text::inner_xml(d) {
                Err(x) => Err(error::error_text(x)),
                Ok(t) => if document::attr(d, "type"@) == Some("file"@) {
                    infoset_from_file(text::trim_spec(t), ctx)
                } else {
                    Ok(t)
                },
            },
        },
    }
}

/// The XML of an infoset that is read in these pieces, from the file it names
/// where it names one.
pub fn resolve_infoset_items(items: &Vec<XmlItem>, s: &str, ctx: &TdmlResourceContext) -> (r:
    Result<String, String>)
    ensures
        encoding::text_outcome(r) == infoset_xml_in(items.deep_view(), s@, ctx@),
{
    let tree = build_tree(items);
    let w = match expect_start(&tree, "wrapper") {
        Err(x) => {
            return Err(x.to_text());
        },
        Ok(w) => w,
    };
    match find_infoset(w) {
        None => Ok(owned(s)),
        Some(d) => match read_inner_xml(d) {
            Err(x) => Err(x.to_text()),
            Ok(t) => if attr_is(d, "type", "file") {
                let c = chars_of(t.as_str());
                let path = string_of(trim(c.as_slice()));
                load_infoset(path.as_str(), ctx)
            } else {
                Ok(t)
            },
        },
    }
}

/// The XML of an expected infoset.
pub open spec fn infoset_xml(xml_source: Seq<char>, ctx: TdmlResourceContextModel) -> Result<
    Seq<char>,
    Seq<char>,
> {
    let s = text::trim_spec(xml_source);
    if s.len() == 0 {
        Ok(Seq::empty())
    } else {
        infoset_xml_in(xml::xml_items(wrapped(s)), s, ctx)
    }
}

/// The XML of an expected infoset, from the file it names where it names one.
pub fn resolve_expected_infoset_xml(expected_xml: &str, ctx: &TdmlResourceContext) -> (r: Result<
    String,
    String,
>)
    ensures
        encoding::text_outcome(r) == infoset_xml(expected_xml@, ctx@),
{
    let c = chars_of(expected_xml);
    let t = trim(c.as_slice());
    if t.len() == 0 {
        return Ok(String::new());
    }
    let s = string_of(t);
    let w = cat3("<wrapper>", s.as_str(), "</wrapper>");
    let items = read_items(w.as_str());
    resolve_infoset_items(&items, s.as_str(), ctx)
}

/// The nodes of an expected infoset.
pub open spec fn expected_nodes(xml_source: Seq<char>, ctx: TdmlResourceContextModel) -> Result<
    Seq<InfosetNodeModel>,
    Seq<char>,
> {
    match infoset_xml(xml_source, ctx) {
        Err(e) => Err(e),
        Ok(inner) => infoset_elements(inner),
    }
}

/// The nodes of an expected infoset.
pub fn parse_expected_infoset_with_context(xml_source: &str, ctx: &TdmlResourceContext) -> (r:
    Result<Vec<InfosetNode>, String>)
    ensures
        nodes_outcome(r) == expected_nodes(xml_source@, ctx@),
{
    parse_expected_infoset_with_target_ns(xml_source, ctx, None)
}

/// The nodes of an expected infoset. The target namespace of the schema does not
/// become that of elements without a prefix.
pub fn parse_expected_infoset_with_target_ns(
    xml_source: &str,
    ctx: &TdmlResourceContext,
    target_namespace: Option<&str>,
) -> (r: Result<Vec<InfosetNode>, String>)
    ensures
        nodes_outcome(r) == expected_nodes(xml_source@, ctx@),
{
    let inner = resolve_expected_infoset_xml(xml_source, ctx)?;
    parse_infoset_elements(inner.as_str())
}

/// The name of the root of an infoset, from its elements.
pub open spec fn first_name(list: Result<Seq<InfosetNodeModel>, Seq<char>>) -> Option<Seq<char>> {
    match list {
        Ok(l) if l.len() > 0 => Some(qname::local_spec(l[0].name)),
        _ => None,
    }
}

/// The name of the root of an infoset.
pub open spec fn root_name(xml_source: Seq<char>) -> Option<Seq<char>> {
    let inner = extracted(xml_source);
    if text::trim_spec(inner).len() == 0 {
        None
    } else {
        first_name(infoset_elements(inner))
    }
}

/// The name of the root of an infoset.
pub fn infer_root_element_name(expected_xml: &str) -> (r: Option<String>)
    ensures
        text::str_opt(r) == root_name(expected_xml@),
{
    let inner = extract_dfdl_infoset_xml(expected_xml);
    let c = chars_of(inner.as_str());
    if trim(c.as_slice()).len() == 0 {
        return None;
    }
    match parse_infoset_elements(inner.as_str()) {
        Ok(list) => if list.len() > 0 {
            assert(list_models(list)[0] == list@[0]@);
            Some(local_name_from_qname(list[0].name.as_str()))
        } else {
            None
        },
        Err(_) => None,
    }
}

} // verus!
