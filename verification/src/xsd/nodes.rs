//! Walking through what stands in an element.

use vstd::prelude::*;
use crate::error::{cat3, cat4, cat5, invalid_xml, Error, ErrorModel, ParseError};
use crate::text::append_chars;
use crate::text::chars_of;
use crate::text::string_of;
use crate::values::Duplicate;
use crate::xml;
use crate::xml::{XmlElement, XmlElementModel, XmlNode, XmlNodeModel};

verus! {

/// White space and comments, which mean nothing.
pub open spec fn blank(n: XmlNodeModel) -> bool {
    n is Blank || n is Remark
}

/// The first position from `i` on where something stands that means something.
pub open spec fn after_blank(nodes: Seq<XmlNodeModel>, i: nat) -> nat
    decreases nodes.len() - i,
{
    if i < nodes.len() && blank(nodes[i as int]) {
        after_blank(nodes, i + 1)
    } else {
        i
    }
}

/// Nothing that means something stands from `i` on.
pub open spec fn at_end(nodes: Seq<XmlNodeModel>, i: nat) -> bool {
    after_blank(nodes, i) >= nodes.len()
}

/// The failure to read on at this node.
pub open spec fn broken_at(n: XmlNodeModel) -> Option<ErrorModel> {
    match n {
        XmlNodeModel::Broken(m) => Some(ErrorModel::InvalidXml(m)),
        XmlNodeModel::Cut => Some(ErrorModel::UnexpectedEof),
        _ => None,
    }
}

/// The first failure to read on among these nodes and in what stands in them.
pub open spec fn flaw_in(nodes: Seq<XmlNodeModel>, i: nat) -> Option<ErrorModel>
    decreases nodes, nodes.len() - i,
{
    if i >= nodes.len() {
        None
    } else {
        match nodes[i as int] {
            XmlNodeModel::Element(e) => match flaw_in(e.children, 0) {
                Some(x) => Some(x),
                None => flaw_in(nodes, i + 1),
            },
            n => match broken_at(n) {
                Some(x) => Some(x),
                None => flaw_in(nodes, i + 1),
            },
        }
    }
}

/// The first failure to read on in an element.
pub open spec fn flaw(e: XmlElementModel) -> Option<ErrorModel> {
    flaw_in(e.children, 0)
}

/// Why reading cannot go on at a node that is no element: it is broken, or it is
/// a processing instruction, which the message then names.
pub open spec fn fault(n: XmlNodeModel, before: Seq<char>, behind: Seq<char>) -> Option<ErrorModel> {
    match n {
        XmlNodeModel::Instruction => Some(
            ErrorModel::InvalidXml(before + "\"ProcessingInstruction\""@ + behind),
        ),
        _ => broken_at(n),
    }
}

/// Why an element does not end at `i`.
pub open spec fn end_fault(nodes: Seq<XmlNodeModel>, i: nat, local: Seq<char>) -> Option<ErrorModel> {
    let j = after_blank(nodes, i);
    if j >= nodes.len() {
        None
    } else {
        match broken_at(nodes[j as int]) {
            Some(x) => Some(x),
            None => Some(ErrorModel::InvalidXml("expected end of element `"@ + local + "`"@)),
        }
    }
}

/// The kind of a node, for messages.
pub open spec fn kind_of(n: XmlNodeModel) -> Seq<char> {
    match n {
        XmlNodeModel::Element(_) => "\"StartElement\""@,
        XmlNodeModel::Text(_) => "\"Characters\""@,
        XmlNodeModel::Data(_) => "\"CData\""@,
        XmlNodeModel::Blank(_) => "\"Whitespace\""@,
        XmlNodeModel::Remark(_) => "\"Comment\""@,
        XmlNodeModel::Instruction => "\"ProcessingInstruction\""@,
        XmlNodeModel::Broken(_) => "\"EndDocument\""@,
        XmlNodeModel::Cut => "\"EndDocument\""@,
    }
}

/// The text of a node that is text.
pub open spec fn text_of(n: XmlNodeModel) -> Option<Seq<char>> {
    match n {
        XmlNodeModel::Text(t) => Some(t),
        XmlNodeModel::Data(t) => Some(t),
        XmlNodeModel::Blank(t) => Some(t),
        _ => None,
    }
}

/// The text that stands from `i` on in an element that holds nothing else.
pub open spec fn simple_text(nodes: Seq<XmlNodeModel>, i: nat, local: Seq<char>) -> Result<
    Seq<char>,
    ErrorModel,
>
    decreases nodes.len() - i,
{
    if i >= nodes.len() {
        Ok(Seq::empty())
    } else {
        let n = nodes[i as int];
        match text_of(n) {
            Some(t) => match simple_text(nodes, i + 1, local) {
                Ok(rest) => Ok(t + rest),
                Err(x) => Err(x),
            },
            None => match broken_at(n) {
                Some(x) => Err(x),
                None => Err(
                    ErrorModel::InvalidXml(
                        "expected text in `"@ + local + "`, found "@ + kind_of(n),
                    ),
                ),
            },
        }
    }
}

/// What stands in an element is smaller than the element.
pub proof fn lemma_child(nodes: Vec<XmlNode>, i: int)
    requires
        0 <= i < nodes@.len(),
        nodes@[i] is Element,
    ensures
        decreases_to!(nodes => nodes@[i]->Element_0),
        decreases_to!(nodes => nodes@[i]->Element_0.children),
        xml::node_models(nodes)[i] == XmlNodeModel::Element(nodes@[i]->Element_0@),
{
    let n = nodes@[i];
    let e = n->Element_0;
    assert(decreases_to!(nodes => nodes@));
    assert(decreases_to!(nodes@ => nodes@[i]));
    assert(decreases_to!(n => n->Element_0));
    assert(decreases_to!(e => e.children));
}

/// The first position from `i` on where something stands that means something.
pub fn skip_blank(nodes: &Vec<XmlNode>, i: usize) -> (r: usize)
    requires
        i <= nodes@.len(),
    ensures
        r == after_blank(xml::node_models(*nodes), i as nat),
        i <= r <= nodes@.len(),
{
    let n: usize = nodes.len();
    let mut j: usize = i;
    let ghost all = xml::node_models(*nodes);
    while j < n
        invariant_except_break
            n == nodes@.len(),
            i <= j <= n,
            all == xml::node_models(*nodes),
            after_blank(all, i as nat) == after_blank(all, j as nat),
        ensures
            n == nodes@.len(),
            i <= j <= n,
            after_blank(all, i as nat) == j,
        decreases n - j,
    {
        assert(all[j as int] == nodes@[j as int].model());
        match &nodes[j] {
            XmlNode::Blank(_) => {},
            XmlNode::Remark(_) => {},
            _ => {
                break;
            },
        }
        j += 1;
    }
    j
}

/// The failure to read on at this node.
pub fn break_of(n: &XmlNode) -> (r: Option<Error>)
    ensures
        r.deep_view() == broken_at(n.model()),
{
    match n {
        XmlNode::Broken(m) => Some(invalid_xml(m.copy())),
        XmlNode::Cut => Some(Error::Parse(ParseError::UnexpectedEof)),
        _ => None,
    }
}

/// The first failure to read on from `i` on, in the nodes and in what stands in
/// them.
pub fn find_flaw(nodes: &Vec<XmlNode>, i: usize) -> (r: Option<Error>)
    requires
        i <= nodes@.len(),
    ensures
        r.deep_view() == flaw_in(xml::node_models(*nodes), i as nat),
    decreases *nodes,
{
    let n: usize = nodes.len();
    let mut j: usize = i;
    let ghost all = xml::node_models(*nodes);
    while j < n
        invariant
            n == nodes@.len(),
            i <= j <= n,
            all == xml::node_models(*nodes),
            flaw_in(all, i as nat) == flaw_in(all, j as nat),
        decreases n - j,
    {
        assert(all[j as int] == nodes@[j as int].model());
        match &nodes[j] {
            XmlNode::Element(e) => {
                proof {
                    lemma_child(*nodes, j as int);
                }
                if let Some(x) = find_flaw(&e.children, 0) {
                    return Some(x);
                }
            },
            other => {
                if let Some(x) = break_of(other) {
                    return Some(x);
                }
            },
        }
        j += 1;
    }
    None
}

/// Passes over an element.
pub fn skip_element(e: &XmlElement) -> (r: Result<(), Error>)
    ensures
        match flaw(e@) {
            Some(x) => r matches Err(y) && y@ == x,
            None => r is Ok,
        },
{
    match find_flaw(&e.children, 0) {
        Some(x) => Err(x),
        None => Ok(()),
    }
}

/// Why reading cannot go on at a node that is no element.
pub fn fault_of(n: &XmlNode, before: &str, behind: &str) -> (r: Option<Error>)
    ensures
        r.deep_view() == fault(n.model(), before@, behind@),
{
    match n {
        XmlNode::Instruction => Some(
            invalid_xml(cat3(before, "\"ProcessingInstruction\"", behind)),
        ),
        _ => break_of(n),
    }
}

/// Holds the element to end at `i`.
pub fn expect_end(nodes: &Vec<XmlNode>, i: usize, local: &str) -> (r: Result<(), Error>)
    requires
        i <= nodes@.len(),
    ensures
        match end_fault(xml::node_models(*nodes), i as nat, local@) {
            Some(x) => r matches Err(y) && y@ == x,
            None => r is Ok,
        },
{
    let j: usize = skip_blank(nodes, i);
    if j >= nodes.len() {
        return Ok(());
    }
    assert(xml::node_models(*nodes)[j as int] == nodes@[j as int].model());
    match break_of(&nodes[j]) {
        Some(x) => Err(x),
        None => Err(invalid_xml(cat3("expected end of element `", local, "`"))),
    }
}

/// The kind of a node, for messages.
fn kind(n: &XmlNode) -> (r: &'static str)
    ensures
        r@ == kind_of(n.model()),
{
    match n {
        XmlNode::Element(_) => "\"StartElement\"",
        XmlNode::Text(_) => "\"Characters\"",
        XmlNode::Data(_) => "\"CData\"",
        XmlNode::Blank(_) => "\"Whitespace\"",
        XmlNode::Remark(_) => "\"Comment\"",
        XmlNode::Instruction => "\"ProcessingInstruction\"",
        XmlNode::Broken(_) => "\"EndDocument\"",
        XmlNode::Cut => "\"EndDocument\"",
    }
}

/// The text that stands from `i` on in an element that holds nothing else.
pub fn read_simple_element_text(nodes: &Vec<XmlNode>, i: usize, local: &str) -> (r: Result<
    String,
    Error,
>)
    requires
        i <= nodes@.len(),
    ensures
        crate::error::outcome(r) == simple_text(xml::node_models(*nodes), i as nat, local@),
{
    let n: usize = nodes.len();
    let mut j: usize = i;
    let mut out: Vec<char> = Vec::new();
    let ghost all = xml::node_models(*nodes);
    proof {
        match simple_text(all, i as nat, local@) {
            Ok(t) => {
                assert(out@ + t =~= t);
            },
            Err(_) => {},
        }
    }
    while j < n
        invariant
            n == nodes@.len(),
            i <= j <= n,
            all == xml::node_models(*nodes),
            match simple_text(all, j as nat, local@) {
                Ok(t) => simple_text(all, i as nat, local@) == Ok::<Seq<char>, ErrorModel>(
                    out@ + t,
                ),
                Err(x) => simple_text(all, i as nat, local@) == Err::<Seq<char>, ErrorModel>(x),
            },
        decreases n - j,
    {
        assert(all[j as int] == nodes@[j as int].model());
        let piece: &String = match &nodes[j] {
            XmlNode::Text(t) => t,
            XmlNode::Data(t) => t,
            XmlNode::Blank(t) => t,
            other => {
                return match break_of(other) {
                    Some(x) => Err(x),
                    None => Err(
                        invalid_xml(cat4("expected text in `", local, "`, found ", kind(other))),
                    ),
                };
            },
        };
        let c = chars_of(piece.as_str());
        let ghost before = out@;
        append_chars(&mut out, c.as_slice());
        proof {
            match simple_text(all, (j + 1) as nat, local@) {
                Ok(t) => {
                    assert(before + (c@ + t) =~= (before + c@) + t);
                },
                Err(_) => {},
            }
        }
        j += 1;
    }
    assert(out@ + Seq::<char>::empty() =~= out@);
    Ok(string_of(out.as_slice()))
}

} // verus!
