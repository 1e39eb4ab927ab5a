//! XML documents: the pieces that a document is read in, and the tree that they
//! make.

use vstd::prelude::*;
use xml_no_std::reader::EventReader;
use xml_no_std::reader::XmlEvent::{
    CData, Characters, Comment, EndDocument, EndElement, ProcessingInstruction, StartDocument,
    StartElement, Whitespace,
};
use crate::error::cat3;
use crate::strmap;
use crate::strmap::StrMap;
use crate::text::eq;
use crate::values::Duplicate;
use crate::xml::XmlItem::{
    Blank, Broken, Close, Data, Head, Instruction, Remark, Start, Tail, Text,
};

verus! {

/// A piece of an XML document.
#[derive(Debug)]
pub enum XmlItem {
    /// The document begins.
    Head,
    /// The document ends.
    Tail,
    /// A processing instruction.
    Instruction,
    /// An element begins: its prefix, its local name, its attributes (prefix,
    /// local name, value), and the namespaces in force (prefix, URI).
    Start(
        Option<String>,
        String,
        Vec<(Option<String>, String, String)>,
        Vec<(String, String)>,
    ),
    /// The innermost open element ends.
    Close,
    /// A CDATA section.
    Data(String),
    /// A comment.
    Remark(String),
    /// Characters, not all of them white.
    Text(String),
    /// White space.
    Blank(String),
    /// The document is broken here, for this reason.
    Broken(String),
}

/// What an [`XmlItem`] holds, its text as character sequences.
#[verifier::ext_equal]
pub enum XmlItemModel {
    Head,
    Tail,
    Instruction,
    Start(
        Option<Seq<char>>,
        Seq<char>,
        Seq<(Option<Seq<char>>, Seq<char>, Seq<char>)>,
        Seq<(Seq<char>, Seq<char>)>,
    ),
    Close,
    Data(Seq<char>),
    Remark(Seq<char>),
    Text(Seq<char>),
    Blank(Seq<char>),
    Broken(Seq<char>),
}

impl DeepView for XmlItem {
    type V = XmlItemModel;

    open spec fn deep_view(&self) -> XmlItemModel {
        match self {
            XmlItem::Head => XmlItemModel::Head,
            XmlItem::Tail => XmlItemModel::Tail,
            XmlItem::Instruction => XmlItemModel::Instruction,
            XmlItem::Start(prefix, local, attributes, namespaces) => XmlItemModel::Start(
                prefix.deep_view(),
                local.deep_view(),
                attributes.deep_view(),
                namespaces.deep_view(),
            ),
            XmlItem::Close => XmlItemModel::Close,
            XmlItem::Data(t) => XmlItemModel::Data(t@),
            XmlItem::Remark(t) => XmlItemModel::Remark(t@),
            XmlItem::Text(t) => XmlItemModel::Text(t@),
            XmlItem::Blank(t) => XmlItemModel::Blank(t@),
            XmlItem::Broken(t) => XmlItemModel::Broken(t@),
        }
    }
}

/// The pieces in which `xml_no_std` reads this text with its default settings.
pub uninterp spec fn xml_items(text: Seq<char>) -> Seq<XmlItemModel>;

/// `xml_no_std::reader::EventReader::from_str`, read to its end: the events of
/// the text in their order, the same for the same text. The first error is the
/// last piece and carries the error's text.
#[verifier::external_body]
pub(crate) fn read_items(text: &str) -> (r: Vec<XmlItem>)
    ensures
        r.deep_view() == xml_items(text@),
{
    EventReader::from_str(text).into_iter().map(|e| match e {
        Ok(StartDocument { .. }) => Head,
        Ok(EndDocument) => Tail,
        Ok(ProcessingInstruction { .. }) => Instruction,
        Ok(StartElement { name, attributes, namespace }) => Start(name.prefix, name.local_name,
            attributes.into_iter().map(|a| (a.name.prefix, a.name.local_name, a.value)).collect(),
            namespace.0.into_iter().collect()),
        Ok(EndElement { .. }) => Close,
        Ok(CData(t)) => Data(t),
        Ok(Comment(t)) => Remark(t),
        Ok(Characters(t)) => Text(t),
        Ok(Whitespace(t)) => Blank(t),
        Err(e) => Broken(e.to_string()),
    }).collect()
}

/// An element of an XML document.
#[derive(Debug)]
pub struct XmlElement {
    pub prefix: Option<String>,
    pub local: String,
    /// The URI of the element's namespace.
    pub namespace: Option<String>,
    /// The attributes by their names as written, prefix included.
    pub attributes: StrMap<String>,
    /// The namespaces in force, by prefix, without those that every document has.
    pub namespaces: StrMap<String>,
    pub children: Vec<XmlNode>,
}

/// What stands between the tags of an XML document.
#[derive(Debug)]
pub enum XmlNode {
    Element(XmlElement),
    Text(String),
    Data(String),
    Blank(String),
    Remark(String),
    Instruction,
    /// The document is broken here, for this reason.
    Broken(String),
    /// The document ends here though elements are still open.
    Cut,
}

/// What an [`XmlElement`] holds, its text as character sequences.
#[verifier::ext_equal]
pub struct XmlElementModel {
    pub prefix: Option<Seq<char>>,
    pub local: Seq<char>,
    pub namespace: Option<Seq<char>>,
    pub attributes: Seq<(Seq<char>, Seq<char>)>,
    pub namespaces: Seq<(Seq<char>, Seq<char>)>,
    pub children: Seq<XmlNodeModel>,
}

/// What an [`XmlNode`] holds, its text as character sequences.
#[verifier::ext_equal]
pub enum XmlNodeModel {
    Element(XmlElementModel),
    Text(Seq<char>),
    Data(Seq<char>),
    Blank(Seq<char>),
    Remark(Seq<char>),
    Instruction,
    Broken(Seq<char>),
    Cut,
}

/// What each node of a list holds.
pub open spec fn node_models(v: Vec<XmlNode>) -> Seq<XmlNodeModel>
    decreases v,
{
    Seq::new(
        v@.len(),
        |i: int|
            if 0 <= i < v@.len() {
                v@[i].model()
            } else {
                arbitrary()
            },
    )
}

impl XmlNode {
    /// What the node holds.
    pub open spec fn model(self) -> XmlNodeModel
        decreases self,
    {
        match self {
            XmlNode::Element(e) => XmlNodeModel::Element(e.model()),
            XmlNode::Text(t) => XmlNodeModel::Text(t@),
            XmlNode::Data(t) => XmlNodeModel::Data(t@),
            XmlNode::Blank(t) => XmlNodeModel::Blank(t@),
            XmlNode::Remark(t) => XmlNodeModel::Remark(t@),
            XmlNode::Instruction => XmlNodeModel::Instruction,
            XmlNode::Broken(t) => XmlNodeModel::Broken(t@),
            XmlNode::Cut => XmlNodeModel::Cut,
        }
    }
}

impl XmlElement {
    /// What the element holds.
    pub open spec fn model(self) -> XmlElementModel
        decreases self,
    {
        XmlElementModel {
            prefix: self.prefix.deep_view(),
            local: self.local@,
            namespace: self.namespace.deep_view(),
            attributes: self.attributes@,
            namespaces: self.namespaces@,
            children: node_models(self.children),
        }
    }
}

impl DeepView for XmlNode {
    type V = XmlNodeModel;

    open spec fn deep_view(&self) -> XmlNodeModel {
        self.model()
    }
}

impl DeepView for XmlElement {
    type V = XmlElementModel;

    open spec fn deep_view(&self) -> XmlElementModel {
        self.model()
    }
}

impl View for XmlElement {
    type V = XmlElementModel;

    open spec fn view(&self) -> XmlElementModel {
        self.model()
    }
}

/// The name of an attribute as written.
pub open spec fn attribute_name(prefix: Option<Seq<char>>, local: Seq<char>) -> Seq<char> {
    match prefix {
        Some(p) => p + ":"@ + local,
        None => local,
    }
}

/// Attributes by their names as written; of two of one name the later counts.
pub open spec fn attribute_map(
    attributes: Seq<(Option<Seq<char>>, Seq<char>, Seq<char>)>,
) -> Seq<(Seq<char>, Seq<char>)>
    decreases attributes.len(),
{
    if attributes.len() == 0 {
        Seq::empty()
    } else {
        let (prefix, local, value) = attributes.last();
        strmap::with_entry(
            attribute_map(attributes.drop_last()),
            attribute_name(prefix, local),
            value,
        )
    }
}

/// Attributes by their names as written.
pub fn attrs_to_map(attributes: &Vec<(Option<String>, String, String)>) -> (r: StrMap<String>)
    ensures
        r@ == attribute_map(attributes.deep_view()),
{
    let mut out: StrMap<String> = StrMap::new();
    let n: usize = attributes.len();
    let mut i: usize = 0;
    let ghost all = attributes.deep_view();
    while i < n
        invariant
            i <= n,
            n == attributes@.len(),
            all == attributes.deep_view(),
            out@ == attribute_map(all.take(i as int)),
        decreases n - i,
    {
        assert(all.take(i + 1).drop_last() == all.take(i as int));
        assert(all.take(i + 1).last() == attributes@[i as int].deep_view());
        let name = match &attributes[i].0 {
            Some(p) => cat3(p.as_str(), ":", attributes[i].1.as_str()),
            None => attributes[i].1.copy(),
        };
        out.insert(name, attributes[i].2.copy());
        i += 1;
    }
    assert(all.take(i as int) == all);
    out
}

/// A binding that a document makes itself: neither `xml` nor `xmlns`, and to a
/// URI.
pub open spec fn own_binding(prefix: Seq<char>, uri: Seq<char>) -> bool {
    prefix != "xml"@ && prefix != "xmlns"@ && uri.len() > 0
}

/// The bindings that a document makes itself, by prefix.
pub open spec fn binding_map(bindings: Seq<(Seq<char>, Seq<char>)>) -> Seq<(Seq<char>, Seq<char>)>
    decreases bindings.len(),
{
    if bindings.len() == 0 {
        Seq::empty()
    } else {
        let rest = binding_map(bindings.drop_last());
        let (prefix, uri) = bindings.last();
        if own_binding(prefix, uri) {
            strmap::with_entry(rest, prefix, uri)
        } else {
            rest
        }
    }
}

/// The bindings that a document makes itself, by prefix.
pub fn namespace_prefix_map(bindings: &Vec<(String, String)>) -> (r: StrMap<String>)
    ensures
        r@ == binding_map(bindings.deep_view()),
{
    let mut out: StrMap<String> = StrMap::new();
    let n: usize = bindings.len();
    let mut i: usize = 0;
    let ghost all = bindings.deep_view();
    while i < n
        invariant
            i <= n,
            n == bindings@.len(),
            all == bindings.deep_view(),
            out@ == binding_map(all.take(i as int)),
        decreases n - i,
    {
        assert(all.take(i + 1).drop_last() == all.take(i as int));
        assert(all.take(i + 1).last() == bindings@[i as int].deep_view());
        let prefix = bindings[i].0.as_str();
        let uri = bindings[i].1.as_str();
        if !eq(prefix, "xml") && !eq(prefix, "xmlns") && !uri.is_empty() {
            out.insert(bindings[i].0.copy(), bindings[i].1.copy());
        }
        i += 1;
    }
    assert(all.take(i as int) == all);
    out
}

/// The URI that a prefix is bound to, a missing prefix standing for the empty
/// one; none where the URI is empty.
pub open spec fn bound_uri(bindings: Seq<(Seq<char>, Seq<char>)>, prefix: Option<Seq<char>>) -> Option<
    Seq<char>,
>
    decreases bindings.len(),
{
    if bindings.len() == 0 {
        None
    } else {
        let (p, uri) = bindings.last();
        let wanted = match prefix {
            Some(x) => x,
            None => ""@,
        };
        if p == wanted {
            if uri.len() > 0 {
                Some(uri)
            } else {
                None
            }
        } else {
            bound_uri(bindings.drop_last(), prefix)
        }
    }
}

/// The URI that a prefix is bound to.
fn uri_of(bindings: &Vec<(String, String)>, prefix: &Option<String>) -> (r: Option<String>)
    ensures
        r.deep_view() == bound_uri(bindings.deep_view(), prefix.deep_view()),
{
    let wanted: &str = match prefix {
        Some(p) => p.as_str(),
        None => "",
    };
    let mut i: usize = bindings.len();
    let ghost all = bindings.deep_view();
    assert(all.take(i as int) == all);
    while i > 0
        invariant
            i <= bindings@.len(),
            all == bindings.deep_view(),
            wanted@ == (match prefix.deep_view() {
                Some(x) => x,
                None => ""@,
            }),
            bound_uri(all.take(i as int), prefix.deep_view()) == bound_uri(
                all,
                prefix.deep_view(),
            ),
        decreases i,
    {
        assert(all.take(i as int).drop_last() == all.take(i - 1));
        assert(all.take(i as int).last() == bindings@[i - 1].deep_view());
        i -= 1;
        if eq(bindings[i].0.as_str(), wanted) {
            return if bindings[i].1.as_str().is_empty() {
                None
            } else {
                Some(bindings[i].1.copy())
            };
        }
    }
    None
}

/// A tree under construction: the elements that are open, the outermost first,
/// and the nodes that stand beside the outermost.
#[verifier::ext_equal]
pub struct GrowthModel {
    pub open: Seq<XmlElementModel>,
    pub done: Seq<XmlNodeModel>,
}

/// A node is put into the innermost open element, or beside the outermost.
pub open spec fn grown(g: GrowthModel, node: XmlNodeModel) -> GrowthModel {
    if g.open.len() == 0 {
        GrowthModel { done: g.done.push(node), ..g }
    } else {
        let top = g.open.last();
        GrowthModel {
            open: g.open.drop_last().push(
                XmlElementModel { children: top.children.push(node), ..top },
            ),
            ..g
        }
    }
}

/// The innermost open element is closed.
pub open spec fn closed(g: GrowthModel) -> GrowthModel {
    if g.open.len() == 0 {
        g
    } else {
        grown(GrowthModel { open: g.open.drop_last(), ..g }, XmlNodeModel::Element(g.open.last()))
    }
}

/// The next piece of the document is taken in.
pub open spec fn taken_in(g: GrowthModel, item: XmlItemModel) -> GrowthModel {
    match item {
        XmlItemModel::Head | XmlItemModel::Tail => g,
        XmlItemModel::Instruction => grown(g, XmlNodeModel::Instruction),
        XmlItemModel::Start(prefix, local, attributes, bindings) => GrowthModel {
            open: g.open.push(
                XmlElementModel {
                    prefix,
                    local,
                    namespace: bound_uri(bindings, prefix),
                    attributes: attribute_map(attributes),
                    namespaces: binding_map(bindings),
                    children: Seq::empty(),
                },
            ),
            ..g
        },
        XmlItemModel::Close => closed(g),
        XmlItemModel::Data(t) => grown(g, XmlNodeModel::Data(t)),
        XmlItemModel::Remark(t) => grown(g, XmlNodeModel::Remark(t)),
        XmlItemModel::Text(t) => grown(g, XmlNodeModel::Text(t)),
        XmlItemModel::Blank(t) => grown(g, XmlNodeModel::Blank(t)),
        XmlItemModel::Broken(t) => grown(g, XmlNodeModel::Broken(t)),
    }
}

/// The tree after these pieces.
pub open spec fn growth(items: Seq<XmlItemModel>) -> GrowthModel
    decreases items.len(),
{
    if items.len() == 0 {
        GrowthModel { open: Seq::empty(), done: Seq::empty() }
    } else {
        taken_in(growth(items.drop_last()), items.last())
    }
}

/// All open elements are closed, the innermost first.
pub open spec fn all_closed(g: GrowthModel) -> Seq<XmlNodeModel>
    decreases g.open.len(),
{
    if g.open.len() == 0 {
        g.done
    } else {
        all_closed(closed(g))
    }
}

/// The tree of a document that is read in these pieces. Where elements stay
/// open at the end, the innermost is marked as cut.
pub open spec fn tree_spec(items: Seq<XmlItemModel>) -> Seq<XmlNodeModel> {
    let g = growth(items);
    if g.open.len() == 0 {
        g.done
    } else {
        all_closed(grown(g, XmlNodeModel::Cut))
    }
}

/// A tree under construction.
struct Growth {
    open: Vec<XmlElement>,
    done: Vec<XmlNode>,
}

impl Growth {
    spec fn model(self) -> GrowthModel {
        GrowthModel { open: self.open.deep_view(), done: node_models(self.done) }
    }

    fn grow(&mut self, node: XmlNode)
        ensures
            final(self).model() == grown(old(self).model(), node.model()),
            final(self).open@.len() == old(self).open@.len(),
    {
        match self.open.pop() {
            Some(mut top) => {
                let ghost before = top.children;
                top.children.push(node);
                assert(node_models(top.children) =~= node_models(before).push(node.model()));
                self.open.push(top);
                assert(self.model() =~= grown(old(self).model(), node.model()));
            },
            None => {
                self.done.push(node);
                assert(node_models(self.done) =~= node_models(old(self).done).push(node.model()));
                assert(self.model() =~= grown(old(self).model(), node.model()));
            },
        }
    }

    fn close(&mut self)
        ensures
            final(self).model() == closed(old(self).model()),
            old(self).open@.len() > 0 ==> final(self).open@.len() == old(self).open@.len() - 1,
    {
        if let Some(top) = self.open.pop() {
            assert(self.model() =~= (GrowthModel {
                open: old(self).model().open.drop_last(),
                ..old(self).model()
            }));
            self.grow(XmlNode::Element(top));
        } else {
            assert(self.model() =~= old(self).model());
        }
    }

    fn take_in(&mut self, item: &XmlItem)
        ensures
            final(self).model() == taken_in(old(self).model(), item.deep_view()),
    {
        match item {
            XmlItem::Head | XmlItem::Tail => {},
            XmlItem::Instruction => self.grow(XmlNode::Instruction),
            XmlItem::Start(prefix, local, attributes, bindings) => {
                let children: Vec<XmlNode> = Vec::new();
                assert(node_models(children) =~= Seq::empty());
                let element = XmlElement {
                    prefix: prefix.copy(),
                    local: local.copy(),
                    namespace: uri_of(bindings, prefix),
                    attributes: attrs_to_map(attributes),
                    namespaces: namespace_prefix_map(bindings),
                    children,
                };
                self.open.push(element);
                assert(self.model().open =~= old(self).model().open.push(element.model()));
            },
            XmlItem::Close => self.close(),
            XmlItem::Data(t) => self.grow(XmlNode::Data(t.copy())),
            XmlItem::Remark(t) => self.grow(XmlNode::Remark(t.copy())),
            XmlItem::Text(t) => self.grow(XmlNode::Text(t.copy())),
            XmlItem::Blank(t) => self.grow(XmlNode::Blank(t.copy())),
            XmlItem::Broken(t) => self.grow(XmlNode::Broken(t.copy())),
        }
    }
}

/// The tree of a document that is read in these pieces.
pub fn build_tree(items: &Vec<XmlItem>) -> (r: Vec<XmlNode>)
    ensures
        node_models(r) == tree_spec(items.deep_view()),
{
    let mut g = Growth { open: Vec::new(), done: Vec::new() };
    let n: usize = items.len();
    let mut i: usize = 0;
    let ghost all = items.deep_view();
    assert(g.model() =~= growth(all.take(0)));
    while i < n
        invariant
            i <= n,
            n == items@.len(),
            all == items.deep_view(),
            g.model() == growth(all.take(i as int)),
        decreases n - i,
    {
        assert(all.take(i + 1).drop_last() == all.take(i as int));
        assert(all.take(i + 1).last() == items@[i as int].deep_view());
        g.take_in(&items[i]);
        i += 1;
    }
    assert(all.take(i as int) == all);
    if g.open.len() > 0 {
        g.grow(XmlNode::Cut);
        let ghost want = all_closed(g.model());
        while g.open.len() > 0
            invariant
                want == all_closed(g.model()),
            decreases g.open@.len(),
        {
            g.close();
        }
    }
    g.done
}

/// The tree of an XML document.
pub fn parse_xml(text: &str) -> (r: Vec<XmlNode>)
    ensures
        node_models(r) == tree_spec(xml_items(text@)),
{
    let items = read_items(text);
    build_tree(&items)
}

} // verus!
