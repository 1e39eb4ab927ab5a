//! The tree of a document holds everything that the document holds, in order.

use vstd::prelude::*;
use crate::xml;
use crate::xml::{GrowthModel, XmlElementModel, XmlItemModel, XmlNodeModel};

verus! {

/// A tag of an element, or something else that stands in a document.
pub enum Mark {
    Open(Seq<char>),
    Shut,
    Leaf(XmlNodeModel),
}

/// The marks of a node, from its first to its last.
pub open spec fn node_marks(n: XmlNodeModel) -> Seq<Mark>
    decreases n, 0nat,
{
    match n {
        XmlNodeModel::Element(e) => seq![Mark::Open(e.local)] + marks(
            e.children,
            e.children.len(),
        ) + seq![Mark::Shut],
        _ => seq![Mark::Leaf(n)],
    }
}

/// The marks of the first `k` nodes.
pub open spec fn marks(nodes: Seq<XmlNodeModel>, k: nat) -> Seq<Mark>
    decreases nodes, k,
{
    if k == 0 || k > nodes.len() {
        Seq::empty()
    } else {
        marks(nodes, (k - 1) as nat) + node_marks(nodes[k - 1])
    }
}

/// The marks of the pieces in which a document is read.
pub open spec fn item_marks(items: Seq<XmlItemModel>) -> Seq<Mark>
    decreases items.len(),
{
    if items.len() == 0 {
        Seq::empty()
    } else {
        item_marks(items.drop_last()) + match items.last() {
            XmlItemModel::Head | XmlItemModel::Tail => Seq::empty(),
            XmlItemModel::Start(_, local, _, _) => seq![Mark::Open(local)],
            XmlItemModel::Close => seq![Mark::Shut],
            XmlItemModel::Instruction => seq![Mark::Leaf(XmlNodeModel::Instruction)],
            XmlItemModel::Data(t) => seq![Mark::Leaf(XmlNodeModel::Data(t))],
            XmlItemModel::Remark(t) => seq![Mark::Leaf(XmlNodeModel::Remark(t))],
            XmlItemModel::Text(t) => seq![Mark::Leaf(XmlNodeModel::Text(t))],
            XmlItemModel::Blank(t) => seq![Mark::Leaf(XmlNodeModel::Blank(t))],
            XmlItemModel::Broken(t) => seq![Mark::Leaf(XmlNodeModel::Broken(t))],
        }
    }
}

/// Every closing tag closes an element that is open.
pub open spec fn nested(items: Seq<XmlItemModel>) -> bool
    decreases items.len(),
{
    items.len() == 0 || (nested(items.drop_last()) && (items.last() is Close ==> xml::growth(
        items.drop_last(),
    ).open.len() > 0))
}

/// The marks of elements that are open, so far as they have come.
pub open spec fn open_marks(open: Seq<XmlElementModel>) -> Seq<Mark>
    decreases open.len(),
{
    if open.len() == 0 {
        Seq::empty()
    } else {
        open_marks(open.drop_last()) + (seq![Mark::Open(open.last().local)] + marks(
            open.last().children,
            open.last().children.len(),
        ))
    }
}

proof fn lemma_same_start(a: Seq<XmlNodeModel>, b: Seq<XmlNodeModel>, k: nat)
    requires
        k <= a.len(),
        k <= b.len(),
        forall|i: int| 0 <= i < k ==> a[i] == #[trigger] b[i],
    ensures
        marks(a, k) == marks(b, k),
    decreases k,
{
    if k > 0 {
        lemma_same_start(a, b, (k - 1) as nat);
        assert(a[k - 1] == b[k - 1]);
    }
}

proof fn lemma_one_more(nodes: Seq<XmlNodeModel>, n: XmlNodeModel)
    ensures
        marks(nodes.push(n), nodes.len() + 1) == marks(nodes, nodes.len()) + node_marks(n),
{
    lemma_same_start(nodes.push(n), nodes, nodes.len());
}

/// The marks of everything that has been taken in.
spec fn grown_marks(g: GrowthModel) -> Seq<Mark> {
    marks(g.done, g.done.len()) + open_marks(g.open)
}

proof fn lemma_grown(g: GrowthModel, n: XmlNodeModel)
    ensures
        grown_marks(xml::grown(g, n)) == grown_marks(g) + node_marks(n),
{
    if g.open.len() == 0 {
        lemma_one_more(g.done, n);
        assert(grown_marks(xml::grown(g, n)) =~= grown_marks(g) + node_marks(n));
    } else {
        let top = g.open.last();
        lemma_one_more(top.children, n);
        let now = XmlElementModel { children: top.children.push(n), ..top };
        let open = g.open.drop_last().push(now);
        assert(open.drop_last() =~= g.open.drop_last());
        assert(open.last() == now);
        assert(grown_marks(xml::grown(g, n)) =~= grown_marks(g) + node_marks(n));
    }
}

proof fn lemma_growth(items: Seq<XmlItemModel>)
    requires
        nested(items),
    ensures
        grown_marks(xml::growth(items)) == item_marks(items),
    decreases items.len(),
{
    if items.len() > 0 {
        let before = xml::growth(items.drop_last());
        lemma_growth(items.drop_last());
        match items.last() {
            XmlItemModel::Head | XmlItemModel::Tail => {
                assert(item_marks(items) =~= item_marks(items.drop_last()));
            },
            XmlItemModel::Start(prefix, local, attributes, bindings) => {
                let g = xml::growth(items);
                assert(g.open.drop_last() =~= before.open);
                assert(marks(g.open.last().children, 0) =~= Seq::<Mark>::empty());
                assert(grown_marks(g) =~= grown_marks(before) + seq![Mark::Open(local)]);
            },
            XmlItemModel::Close => {
                let top = before.open.last();
                let less = GrowthModel { open: before.open.drop_last(), ..before };
                lemma_grown(less, XmlNodeModel::Element(top));
                assert(grown_marks(xml::closed(before)) =~= grown_marks(before)
                    + seq![Mark::Shut]);
            },
            XmlItemModel::Instruction => {
                lemma_grown(before, XmlNodeModel::Instruction);
            },
            XmlItemModel::Data(t) => {
                lemma_grown(before, XmlNodeModel::Data(t));
            },
            XmlItemModel::Remark(t) => {
                lemma_grown(before, XmlNodeModel::Remark(t));
            },
            XmlItemModel::Text(t) => {
                lemma_grown(before, XmlNodeModel::Text(t));
            },
            XmlItemModel::Blank(t) => {
                lemma_grown(before, XmlNodeModel::Blank(t));
            },
            XmlItemModel::Broken(t) => {
                lemma_grown(before, XmlNodeModel::Broken(t));
            },
        }
    } else {
        assert(grown_marks(xml::growth(items)) =~= Seq::<Mark>::empty());
    }
}

/// The tree of a document whose tags match holds all its elements, texts and remarks, each
/// where it stands, and nothing else.
pub proof fn law_tree_holds_document(items: Seq<XmlItemModel>)
    requires
        nested(items),
        xml::growth(items).open.len() == 0,
    ensures
        marks(xml::tree_spec(items), xml::tree_spec(items).len()) == item_marks(items),
{
    lemma_growth(items);
    assert(grown_marks(xml::growth(items)) =~= marks(
        xml::growth(items).done,
        xml::growth(items).done.len(),
    ));
}

/// An element that begins has the attributes that are written, the last of each name.
pub proof fn law_attributes_kept(
    attributes: Seq<(Option<Seq<char>>, Seq<char>, Seq<char>)>,
    k: int,
)
    requires
        0 <= k < attributes.len(),
        forall|i: int|
            k < i < attributes.len() ==> xml::attribute_name(
                (#[trigger] attributes[i]).0,
                attributes[i].1,
            ) != xml::attribute_name(attributes[k].0, attributes[k].1),
    ensures
        crate::strmap::ascending(xml::attribute_map(attributes)),
        crate::strmap::lookup(
            xml::attribute_map(attributes),
            xml::attribute_name(attributes[k].0, attributes[k].1),
        ) == Some(attributes[k].2),
    decreases attributes.len(),
{
    lemma_map_ascending(attributes);
    let less = attributes.drop_last();
    lemma_map_ascending(less);
    let before = xml::attribute_map(less);
    let last = attributes.last();
    let name = xml::attribute_name(last.0, last.1);
    crate::strmap::law_lookup_stored(before, name, last.2);
    if k < less.len() {
        assert forall|i: int| k < i < less.len() implies xml::attribute_name(
            (#[trigger] less[i]).0,
            less[i].1,
        ) != xml::attribute_name(less[k].0, less[k].1) by {
            assert(less[i] == attributes[i]);
        }
        law_attributes_kept(less, k);
        assert(attributes[attributes.len() - 1] == last);
        crate::strmap::law_lookup_other(
            before,
            name,
            last.2,
            xml::attribute_name(attributes[k].0, attributes[k].1),
        );
    }
}

proof fn lemma_map_ascending(attributes: Seq<(Option<Seq<char>>, Seq<char>, Seq<char>)>)
    ensures
        crate::strmap::ascending(xml::attribute_map(attributes)),
    decreases attributes.len(),
{
    if attributes.len() > 0 {
        let less = attributes.drop_last();
        lemma_map_ascending(less);
        let last = attributes.last();
        crate::strmap::law_with_entry_ascending(
            xml::attribute_map(less),
            xml::attribute_name(last.0, last.1),
            last.2,
        );
    }
}

} // verus!
