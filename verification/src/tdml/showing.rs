//! How values, infosets and the XML of infosets correspond.

use vstd::prelude::*;
use crate::program::IrNodeModel;
use crate::qname;
use crate::strmap;
use crate::tdml::compare;
use crate::tdml::infoset;
use crate::tdml::infoset::InfosetNodeModel;
use crate::tdml::infoset_values;
use crate::tdml::suite::TdmlResourceContextModel;
use crate::unparse_validate;
use crate::value::DfdlValueModel;
use crate::xml::{XmlElementModel, XmlNodeModel};

verus! {

// --------------------------------------------------------------- values as infosets

/// A simple value.
pub open spec fn is_simple(v: DfdlValueModel) -> bool {
    !(v is Sequence) && !(v is Array) && !(v is Choice) && !(v is Null) && !(v is Blob)
}

/// A simple value is a node with its text; no value is a node that is nil; a large object
/// is a node with its bytes.
pub proof fn law_simple_shown(name: Seq<char>, v: DfdlValueModel)
    ensures
        ({
            let n = infoset_values::value_node(name, v);
            &&& (is_simple(v) ==> n.name == name && n.text == Some(infoset_values::scalar_text(v))
                && n.children.len() == 0 && !n.nil && n.blob_bytes is None)
            &&& (v is Null ==> n.name == name && n.nil && n.text is None && n.children.len() == 0)
            &&& (v is Blob ==> n.name == name && n.blob_bytes == Some(v->Blob_0) && n.text is None
                && !n.nil)
        }),
{
    reveal(infoset_values::value_node);
}

/// The nodes of a field: one for each occurrence, in order.
pub open spec fn nodes_of_field(
    name: Seq<char>,
    v: DfdlValueModel,
    list: Seq<InfosetNodeModel>,
) -> bool {
    if v is Array {
        &&& list.len() == v->Array_0.len()
        &&& forall|j: int|
            0 <= j < list.len() ==> (#[trigger] list[j]) == infoset_values::value_node(
                name,
                v->Array_0[j],
            )
    } else {
        list.len() == 1 && list[0] == infoset_values::value_node(name, v)
    }
}

proof fn lemma_items(name: Seq<char>, items: Seq<DfdlValueModel>, k: nat)
    requires
        k <= items.len(),
    ensures
        infoset_values::items_nodes(name, items, k).len() == k,
        forall|j: int|
            0 <= j < k ==> (#[trigger] infoset_values::items_nodes(name, items, k)[j])
                == infoset_values::value_node(name, items[j]),
    decreases k,
{
    reveal(infoset_values::items_nodes);
    reveal(infoset_values::value_node);
    if k > 0 {
        lemma_items(name, items, (k - 1) as nat);
    }
}

proof fn lemma_field(name: Seq<char>, v: DfdlValueModel)
    ensures
        nodes_of_field(name, v, infoset_values::field_nodes(name, v)),
{
    reveal(infoset_values::field_nodes);
    reveal(infoset_values::items_nodes);
    reveal(infoset_values::value_node);
    if let DfdlValueModel::Array(items) = v {
        lemma_items(name, items, items.len());
    }
}

proof fn lemma_fields(fields: Seq<(Seq<char>, DfdlValueModel)>, k: nat)
    requires
        k <= fields.len(),
    ensures
        infoset_values::fields_nodes(fields, k).len() == k,
        forall|i: int|
            0 <= i < k ==> (#[trigger] infoset_values::fields_nodes(fields, k)[i]).0 == fields[i].0
                && nodes_of_field(
                fields[i].0,
                fields[i].1,
                infoset_values::fields_nodes(fields, k)[i].1,
            ),
    decreases k,
{
    reveal(infoset_values::fields_nodes);
    reveal(infoset_values::field_nodes);
    if k > 0 {
        lemma_fields(fields, (k - 1) as nat);
        lemma_field(fields[k - 1].0, fields[k - 1].1);
    }
}

/// A value with fields is a node that holds, under the name of each field and in their
/// order, a node for each occurrence.
pub proof fn law_fields_shown(name: Seq<char>, fields: Seq<(Seq<char>, DfdlValueModel)>)
    ensures
        ({
            let n = infoset_values::value_node(name, DfdlValueModel::Sequence(fields));
            &&& n.name == name
            &&& n.text is None
            &&& !n.nil
            &&& n.children.len() == fields.len()
            &&& forall|i: int|
                0 <= i < fields.len() ==> (#[trigger] n.children[i]).0 == fields[i].0
                    && nodes_of_field(fields[i].0, fields[i].1, n.children[i].1)
        }),
{
    reveal(infoset_values::value_node);
    reveal(infoset_values::fields_nodes);
    lemma_fields(fields, fields.len());
}

/// A value is the one that an infoset describes just where the infoset can be read and has
/// as many nodes as the value has fields, none of which differs from that of the field.
pub proof fn law_described_value(
    fields: Seq<(Seq<char>, DfdlValueModel)>,
    expected_xml: Seq<char>,
    pairs: Seq<(Seq<char>, Seq<char>)>,
    ctx: TdmlResourceContextModel,
)
    ensures
        infoset_values::infoset_mismatch(
            DfdlValueModel::Sequence(fields),
            expected_xml,
            pairs,
            ctx,
        ) is None <==> (infoset::expected_nodes(expected_xml, ctx) matches Ok(e) && e.len()
            == fields.len() && forall|i: int|
            0 <= i < fields.len() ==> compare::node_fault(
                #[trigger] e[i],
                infoset_values::value_node(fields[i].0, fields[i].1),
                pairs,
                ctx,
            ) is None),
{
    if let Ok(e) = infoset::expected_nodes(expected_xml, ctx) {
        let a = infoset_values::value_nodes(DfdlValueModel::Sequence(fields));
        compare::law_infosets_agree(e, a, pairs, ctx);
        assert(a.len() == fields.len());
        assert forall|i: int| 0 <= i < fields.len() implies (#[trigger] a[i])
            == infoset_values::value_node(fields[i].0, fields[i].1) by {}
        if compare::pairwise(e, a, pairs, ctx) {
            assert forall|i: int| 0 <= i < fields.len() implies compare::node_fault(
                #[trigger] e[i],
                infoset_values::value_node(fields[i].0, fields[i].1),
                pairs,
                ctx,
            ) is None by {
                assert(a[i] == infoset_values::value_node(fields[i].0, fields[i].1));
            }
        } else if e.len() == fields.len() {
            let k = choose|k: int|
                #![trigger e[k]]
                0 <= k < e.len() && !(compare::node_fault(e[k], a[k], pairs, ctx) is None);
            assert(a[k] == infoset_values::value_node(fields[k].0, fields[k].1));
        }
    }
}

// ------------------------------------------------------------------ infosets in XML

/// How many nodes have this name.
pub open spec fn count_named(list: Seq<InfosetNodeModel>, name: Seq<char>) -> nat
    decreases list.len(),
{
    if list.len() == 0 {
        0
    } else {
        count_named(list.drop_last(), name) + if list.last().name == name {
            1nat
        } else {
            0nat
        }
    }
}

/// Nodes that are put together by name are all there, each under its own name, and under
/// no name are there others.
pub proof fn law_nodes_grouped(list: Seq<InfosetNodeModel>)
    ensures
        strmap::ascending(infoset::grouped(list)),
        forall|i: int|
            0 <= i < list.len() ==> (strmap::lookup(
                infoset::grouped(list),
                (#[trigger] list[i]).name,
            ) matches Some(l) && l.contains(list[i])),
        forall|name: Seq<char>|
            #![trigger strmap::lookup(infoset::grouped(list), name)]
            count_named(list, name) == match strmap::lookup(infoset::grouped(list), name) {
                Some(l) => l.len(),
                None => 0,
            } && (strmap::lookup(infoset::grouped(list), name) matches Some(l) ==> forall|k: int|
                0 <= k < l.len() ==> (#[trigger] l[k]).name == name && list.contains(l[k])),
    decreases list.len(),
{
    if list.len() == 0 {
        assert forall|name: Seq<char>| #[trigger] strmap::lookup(
            infoset::grouped(list),
            name,
        ) is None by {
            strmap::lemma_rank(infoset::grouped(list), name);
        }
    } else {
        let less = list.drop_last();
        let n = list.last();
        law_nodes_grouped(less);
        let rest = infoset::grouped(less);
        let same = match strmap::lookup(rest, n.name) {
            Some(l) => l,
            None => Seq::empty(),
        };
        let l = same.push(n);
        strmap::law_with_entry_ascending(rest, n.name, l);
        strmap::law_lookup_stored(rest, n.name, l);
        let all = infoset::grouped(list);
        assert(list[list.len() - 1] == n);
        assert forall|i: int| 0 <= i < list.len() implies (strmap::lookup(
            all,
            (#[trigger] list[i]).name,
        ) matches Some(x) && x.contains(list[i])) by {
            if i < less.len() {
                assert(less[i] == list[i]);
                let x = strmap::lookup(rest, list[i].name)->0;
                let k = choose|k: int| 0 <= k < x.len() && x[k] == list[i];
                if list[i].name == n.name {
                    assert(l[k] == list[i]);
                } else {
                    strmap::law_lookup_other(rest, n.name, l, list[i].name);
                }
            } else {
                assert(l[l.len() - 1] == n);
            }
        }
        assert forall|name: Seq<char>|
            #![trigger strmap::lookup(all, name)]
            count_named(list, name) == match strmap::lookup(all, name) {
                Some(x) => x.len(),
                None => 0,
            } && (strmap::lookup(all, name) matches Some(x) ==> forall|k: int|
                0 <= k < x.len() ==> (#[trigger] x[k]).name == name && list.contains(x[k])) by {
            assert(strmap::lookup(rest, name) == strmap::lookup(rest, name));
            if name != n.name {
                strmap::law_lookup_other(rest, n.name, l, name);
            }
            if let Some(x) = strmap::lookup(all, name) {
                assert forall|k: int| 0 <= k < x.len() implies (#[trigger] x[k]).name == name
                    && list.contains(x[k]) by {
                    if name == n.name && k == x.len() - 1 {
                        assert(x[k] == n);
                    } else {
                        let y = strmap::lookup(rest, name)->0;
                        assert(x[k] == y[k]);
                        assert(less.contains(y[k]));
                        let j = choose|j: int| 0 <= j < less.len() && less[j] == y[k];
                        assert(list[j] == y[k]);
                    }
                }
            }
        }
    }
}

/// The node has the name of the element and is nil where that says so; where elements
/// stand in it, the node holds theirs.
pub open spec fn shows_element(e: XmlElementModel, n: InfosetNodeModel) -> bool {
    &&& n.name == e.local
    &&& n.blob_bytes is None
    &&& (strmap::lookup(e.attributes, "xsi:nil"@) == Some("true"@) ==> n.nil)
    &&& (e.children.len() == 0 ==> n.text is None && n.children.len() == 0)
    &&& (e.children.len() > 0 && e.children[0] is Element ==> n.text is None && (
    infoset::nodes_read(e.children, 0) matches Ok(inner) && n.children == infoset::grouped(inner)))
}

/// How many elements stand from `i` on.
pub open spec fn element_count(list: Seq<XmlNodeModel>, i: nat) -> nat
    decreases list.len() - i,
{
    if i >= list.len() {
        0
    } else {
        element_count(list, i + 1) + if list[i as int] is Element {
            1nat
        } else {
            0nat
        }
    }
}

/// The elements of an infoset are read to as many nodes, in order, each with the name of
/// its element.
pub proof fn law_elements_shown(list: Seq<XmlNodeModel>, i: nat)
    requires
        forall|k: int|
            i <= k < list.len() ==> (#[trigger] list[k]) is Element || list[k] is Blank || list[k]
                is Remark,
    ensures
        infoset::nodes_read(list, i) matches Ok(found) ==> {
            &&& found.len() == element_count(list, i)
            &&& (i < list.len() && list[i as int] is Element ==> found.len() > 0 && shows_element(
                list[i as int]->Element_0,
                found[0],
            ))
            &&& (i < list.len() && list[i as int] is Element ==> infoset::nodes_read(
                list,
                i + 1,
            ) == Ok::<Seq<InfosetNodeModel>, Seq<char>>(found.skip(1)))
        },
    decreases list.len() - i,
{
    if i < list.len() {
        law_elements_shown(list, i + 1);
        if let XmlNodeModel::Element(e) = list[i as int] {
            if let Ok(n) = infoset::node_from(e, infoset::nodes_read(e.children, 0)) {
                if let Ok(rest) = infoset::nodes_read(list, i + 1) {
                    assert((seq![n] + rest).skip(1) =~= rest);
                }
            }
        }
    }
}

// -------------------------------------------------------------- infosets as values

/// The parts of a sequence are elements, no two of which have the same name.
pub open spec fn plain_sequence(children: Seq<IrNodeModel>) -> bool {
    &&& forall|i: int| 0 <= i < children.len() ==> (#[trigger] children[i]) is Element
    &&& forall|i: int, j: int|
        #![trigger children[i], children[j]]
        0 <= i < j < children.len() ==> children[i]->Element_name != children[j]->Element_name
}

/// The field of an element is what its nodes give: nothing where there are none, a list
/// where there are several, in order, and else the value of the one there is.
pub open spec fn field_from(p: IrNodeModel, n: InfosetNodeModel, field: Option<DfdlValueModel>) -> bool {
    let found = unparse_validate::named(n, qname::local_spec(p->Element_name));
    &&& (found.len() == 0 <==> field is None)
    &&& (found.len() == 1 && !infoset_values::one_empty(found) ==> infoset_values::node_value(
        p,
        found[0],
    ) == Ok::<DfdlValueModel, Seq<char>>(field->0))
    &&& (found.len() > 1 ==> (field matches Some(DfdlValueModel::Array(items)) && items.len()
        == found.len() && forall|j: int|
        0 <= j < found.len() ==> infoset_values::node_value(p, #[trigger] found[j]) == Ok::<
            DfdlValueModel,
            Seq<char>,
        >(items[j])))
}

proof fn lemma_list_values(p: IrNodeModel, found: Seq<InfosetNodeModel>, k: nat)
    requires
        k <= found.len(),
    ensures
        infoset_values::list_values(p, found, k) matches Ok(l) ==> l.len() == k && forall|j: int|
            0 <= j < k ==> infoset_values::node_value(p, #[trigger] found[j]) == Ok::<
                DfdlValueModel,
                Seq<char>,
            >(l[j]),
    decreases k,
{
    reveal(infoset_values::list_values);
    reveal(infoset_values::node_value);
    if k > 0 {
        lemma_list_values(p, found, (k - 1) as nat);
    }
}

proof fn lemma_sequence_fields(children: Seq<IrNodeModel>, k: nat, n: InfosetNodeModel)
    requires
        plain_sequence(children),
        k <= children.len(),
    ensures
        infoset_values::sequence_fields(children, k, n) matches Ok(m) ==> {
            &&& strmap::ascending(m)
            &&& forall|i: int|
                0 <= i < k ==> field_from(
                    #[trigger] children[i],
                    n,
                    strmap::lookup(m, children[i]->Element_name),
                )
            &&& forall|i: int|
                k <= i < children.len() ==> strmap::lookup(
                    m,
                    (#[trigger] children[i])->Element_name,
                ) is None
        },
    decreases k,
{
    reveal(infoset_values::sequence_fields);
    if k > 0 {
        let j = (k - 1) as nat;
        lemma_sequence_fields(children, j, n);
        let p = children[j as int];
        assert(p is Element);
        if let Ok(before) = infoset_values::sequence_fields(children, j, n) {
            if let Ok(m) = infoset_values::sequence_fields(children, k, n) {
                let found = unparse_validate::named(n, qname::local_spec(p->Element_name));
                lemma_list_values(p, found, found.len());
                assert(strmap::lookup(before, p->Element_name) is None);
                if found.len() > 0 {
                    reveal(infoset_values::node_value);
                    reveal(infoset_values::list_values);
                    let v = if infoset_values::one_empty(found) {
                        if p->Element_kind == crate::program::ValueKind::Complex {
                            DfdlValueModel::Sequence(Seq::empty())
                        } else {
                            DfdlValueModel::String(Seq::empty())
                        }
                    } else if found.len() == 1 {
                        infoset_values::node_value(p, found[0])->Ok_0
                    } else {
                        DfdlValueModel::Array(
                            infoset_values::list_values(p, found, found.len())->Ok_0,
                        )
                    };
                    assert(m == strmap::with_entry(before, p->Element_name, v));
                    strmap::law_with_entry_ascending(before, p->Element_name, v);
                    strmap::law_lookup_stored(before, p->Element_name, v);
                    assert forall|i: int| 0 <= i < children.len() && i != j implies strmap::lookup(
                        m,
                        (#[trigger] children[i])->Element_name,
                    ) == strmap::lookup(before, children[i]->Element_name) by {
                        assert(children[i] is Element && children[j as int] is Element);
                        strmap::law_lookup_other(
                            before,
                            p->Element_name,
                            v,
                            children[i]->Element_name,
                        );
                    }
                }
            }
        }
    } else {
        assert forall|i: int| 0 <= i < children.len() implies strmap::lookup(
            Seq::<(Seq<char>, DfdlValueModel)>::empty(),
            (#[trigger] children[i])->Element_name,
        ) is None by {
            strmap::lemma_rank(
                Seq::<(Seq<char>, DfdlValueModel)>::empty(),
                children[i]->Element_name,
            );
        }
    }
}

/// The value that an infoset gives for a sequence of elements has for each element what
/// its nodes give.
pub proof fn law_fields_from_nodes(children: Seq<IrNodeModel>, n: InfosetNodeModel)
    requires
        plain_sequence(children),
    ensures
        infoset_values::node_value(IrNodeModel::Sequence { children }, n) matches Ok(v) ==> (
        v matches DfdlValueModel::Sequence(m) && forall|i: int|
            0 <= i < children.len() ==> field_from(
                #[trigger] children[i],
                n,
                strmap::lookup(m, children[i]->Element_name),
            )),
{
    reveal(infoset_values::node_value);
    reveal(infoset_values::sequence_fields);
    lemma_sequence_fields(children, children.len(), n);
}

/// The value of an infoset is that of the first node with the name of the root, under
/// that name.
pub proof fn law_root_value(
    nodes: Seq<InfosetNodeModel>,
    root: Seq<char>,
    program: crate::program::IrProgramModel,
    k: int,
)
    requires
        0 <= k < nodes.len(),
        qname::local_spec(nodes[k].name) == root,
        forall|i: int| 0 <= i < k ==> qname::local_spec((#[trigger] nodes[i]).name) != root,
    ensures
        infoset_values::root_value_of(Ok(nodes), root, program) == match infoset_values::node_value(
            program.root,
            nodes[k],
        ) {
            Ok(v) => Ok::<DfdlValueModel, Seq<char>>(DfdlValueModel::Sequence(seq![(root, v)])),
            Err(e) => Err(e),
        },
{
    lemma_root_first(nodes, root, 0, k);
}

proof fn lemma_root_first(nodes: Seq<InfosetNodeModel>, root: Seq<char>, i: nat, k: int)
    requires
        i <= k < nodes.len(),
        qname::local_spec(nodes[k].name) == root,
        forall|i: int| 0 <= i < k ==> qname::local_spec((#[trigger] nodes[i]).name) != root,
    ensures
        unparse_validate::root_at(nodes, root, i) == Some(k as nat),
    decreases k - i,
{
    if i < k {
        lemma_root_first(nodes, root, i + 1, k);
    }
}

} // verus!
