//! Writing what stands in an element as XML text that can be read on its own.

use vstd::prelude::*;
use crate::error::{Error, ErrorModel};
use crate::qname::opt_str;
use crate::strmap;
use crate::strmap::StrMap;
use crate::text::{append_chars, chars_of, eq, string_of};
use crate::xml;
use crate::xml::{XmlElement, XmlElementModel, XmlNode, XmlNodeModel};
use crate::xsd::nodes;
use crate::xsd::nodes::{find_flaw, lemma_child};

verus! {

broadcast use vstd::string::group_string_axioms;

/// A character as it is written in text.
pub open spec fn text_char(c: char) -> Seq<char> {
    if c == '&' {
        "&amp;"@
    } else if c == '<' {
        "&lt;"@
    } else if c == '>' {
        "&gt;"@
    } else if c == '\r' {
        "&#13;"@
    } else {
        seq![c]
    }
}

/// A character as it is written in the value of an attribute.
pub open spec fn value_char(c: char) -> Seq<char> {
    if c == '"' {
        "&quot;"@
    } else if c == '\n' {
        "&#10;"@
    } else if c == '\t' {
        "&#9;"@
    } else {
        text_char(c)
    }
}

/// Characters as they are written, in a value or in text.
pub open spec fn escaped(s: Seq<char>, value: bool) -> Seq<char>
    decreases s.len(),
{
    if s.len() == 0 {
        Seq::empty()
    } else {
        escaped(s.drop_last(), value) + if value {
            value_char(s.last())
        } else {
            text_char(s.last())
        }
    }
}

/// An attribute as it is written.
pub open spec fn attribute_text(name: Seq<char>, value: Seq<char>) -> Seq<char> {
    " "@ + name + "=\""@ + escaped(value, true) + "\""@
}

/// Attributes as they are written.
pub open spec fn attributes_text(attributes: Seq<(Seq<char>, Seq<char>)>) -> Seq<char>
    decreases attributes.len(),
{
    if attributes.len() == 0 {
        Seq::empty()
    } else {
        attributes_text(attributes.drop_last()) + attribute_text(
            attributes.last().0,
            attributes.last().1,
        )
    }
}

/// The name of the attribute that binds a prefix.
pub open spec fn binding_name(prefix: Seq<char>) -> Seq<char> {
    if prefix.len() == 0 {
        "xmlns"@
    } else {
        "xmlns:"@ + prefix
    }
}

/// The bindings that are not already in force around an element, as they are written.
pub open spec fn bindings_text(
    bindings: Seq<(Seq<char>, Seq<char>)>,
    outer: Seq<(Seq<char>, Seq<char>)>,
) -> Seq<char>
    decreases bindings.len(),
{
    if bindings.len() == 0 {
        Seq::empty()
    } else {
        let rest = bindings_text(bindings.drop_last(), outer);
        let (prefix, uri) = bindings.last();
        if strmap::lookup(outer, prefix) == Some(uri) {
            rest
        } else {
            rest + attribute_text(binding_name(prefix), uri)
        }
    }
}

/// The start of an element as it is written.
pub open spec fn start_text(
    e: XmlElementModel,
    outer: Seq<(Seq<char>, Seq<char>)>,
) -> Seq<char> {
    let name = xml::attribute_name(e.prefix, e.local);
    let undone = if strmap::lookup(outer, ""@) is Some && strmap::lookup(e.namespaces, ""@) is None {
        attribute_text("xmlns"@, ""@)
    } else {
        Seq::empty()
    };
    "<"@ + name + bindings_text(e.namespaces, outer) + undone + attributes_text(e.attributes)
        + ">"@
}

/// The end of an element as it is written.
pub open spec fn end_text(e: XmlElementModel) -> Seq<char> {
    "</"@ + xml::attribute_name(e.prefix, e.local) + ">"@
}

/// Nodes from `i` on as they are written where `outer` is in force. Remarks and
/// processing instructions are left out.
pub open spec fn nodes_text(
    list: Seq<XmlNodeModel>,
    i: nat,
    outer: Seq<(Seq<char>, Seq<char>)>,
) -> Seq<char>
    decreases list, list.len() - i,
{
    if i >= list.len() {
        Seq::empty()
    } else {
        let rest = nodes_text(list, i + 1, outer);
        match list[i as int] {
            XmlNodeModel::Element(e) => start_text(e, outer) + nodes_text(
                e.children,
                0,
                e.namespaces,
            ) + end_text(e) + rest,
            XmlNodeModel::Text(t) => escaped(t, false) + rest,
            XmlNodeModel::Data(t) => escaped(t, false) + rest,
            XmlNodeModel::Blank(t) => escaped(t, false) + rest,
            _ => rest,
        }
    }
}

/// What stands in an element as XML text, every namespace in force declared in it.
pub open spec fn inner_xml(e: XmlElementModel) -> Result<Seq<char>, ErrorModel> {
    match nodes::flaw(e) {
        Some(x) => Err(x),
        None => Ok(nodes_text(e.children, 0, Seq::empty())),
    }
}

fn put(out: &mut Vec<char>, s: &str)
    ensures
        final(out)@ == old(out)@ + s@,
{
    let c = chars_of(s);
    append_chars(out, c.as_slice());
}

fn write_escaped(out: &mut Vec<char>, s: &str, value: bool)
    ensures
        final(out)@ == old(out)@ + escaped(s@, value),
{
    let c = chars_of(s);
    let ghost start = out@;
    let mut i: usize = 0;
    assert(c@.take(0) =~= Seq::<char>::empty());
    assert(start + Seq::<char>::empty() =~= start);
    while i < c.len()
        invariant
            i <= c@.len(),
            out@ == start + escaped(c@.take(i as int), value),
        decreases c@.len() - i,
    {
        let ghost before = out@;
        let x = c[i];
        assert(c@.take(i + 1).drop_last() =~= c@.take(i as int));
        assert(c@.take(i + 1).last() == x);
        if value && x == '"' {
            put(out, "&quot;");
        } else if value && x == '\n' {
            put(out, "&#10;");
        } else if value && x == '\t' {
            put(out, "&#9;");
        } else if x == '&' {
            put(out, "&amp;");
        } else if x == '<' {
            put(out, "&lt;");
        } else if x == '>' {
            put(out, "&gt;");
        } else if x == '\r' {
            put(out, "&#13;");
        } else {
            out.push(x);
            assert(out@ =~= before + seq![x]);
        }
        assert(out@ =~= start + escaped(c@.take(i + 1), value));
        i += 1;
    }
    assert(c@.take(c@.len() as int) =~= c@);
}

fn write_attribute(out: &mut Vec<char>, name: &str, value: &str)
    ensures
        final(out)@ == old(out)@ + attribute_text(name@, value@),
{
    let ghost start = out@;
    put(out, " ");
    put(out, name);
    put(out, "=\"");
    write_escaped(out, value, true);
    put(out, "\"");
    assert(out@ =~= start + attribute_text(name@, value@));
}

fn write_attributes(out: &mut Vec<char>, attributes: &StrMap<String>)
    ensures
        final(out)@ == old(out)@ + attributes_text(attributes@),
{
    let ghost start = out@;
    let mut i: usize = 0;
    assert(attributes@.take(0) =~= Seq::<(Seq<char>, Seq<char>)>::empty());
    assert(start + Seq::<char>::empty() =~= start);
    while i < attributes.entries.len()
        invariant
            i <= attributes.entries@.len(),
            out@ == start + attributes_text(attributes@.take(i as int)),
        decreases attributes.entries@.len() - i,
    {
        assert(attributes@.take(i + 1).drop_last() =~= attributes@.take(i as int));
        assert(attributes@[i as int] == attributes.entries@[i as int].deep_view());
        let entry = &attributes.entries[i];
        write_attribute(out, entry.0.as_str(), entry.1.as_str());
        assert(out@ =~= start + attributes_text(attributes@.take(i + 1)));
        i += 1;
    }
    assert(attributes@.take(attributes@.len() as int) =~= attributes@);
}

fn write_bindings(out: &mut Vec<char>, bindings: &StrMap<String>, outer: &StrMap<String>)
    ensures
        final(out)@ == old(out)@ + bindings_text(bindings@, outer@),
{
    let ghost start = out@;
    let mut i: usize = 0;
    assert(bindings@.take(0) =~= Seq::<(Seq<char>, Seq<char>)>::empty());
    assert(start + Seq::<char>::empty() =~= start);
    while i < bindings.entries.len()
        invariant
            i <= bindings.entries@.len(),
            out@ == start + bindings_text(bindings@.take(i as int), outer@),
        decreases bindings.entries@.len() - i,
    {
        assert(bindings@.take(i + 1).drop_last() =~= bindings@.take(i as int));
        assert(bindings@[i as int] == bindings.entries@[i as int].deep_view());
        let entry = &bindings.entries[i];
        let known = match outer.get(entry.0.as_str()) {
            Some(uri) => eq(uri.as_str(), entry.1.as_str()),
            None => false,
        };
        if !known {
            let p = chars_of(entry.0.as_str());
            let mut name: Vec<char> = Vec::new();
            if p.len() == 0 {
                put(&mut name, "xmlns");
                assert(name@ =~= "xmlns"@);
            } else {
                put(&mut name, "xmlns:");
                append_chars(&mut name, p.as_slice());
                assert(name@ =~= "xmlns:"@ + p@);
            }
            let n = string_of(name.as_slice());
            write_attribute(out, n.as_str(), entry.1.as_str());
        }
        assert(out@ =~= start + bindings_text(bindings@.take(i + 1), outer@));
        i += 1;
    }
    assert(bindings@.take(bindings@.len() as int) =~= bindings@);
}

fn write_name(out: &mut Vec<char>, e: &XmlElement)
    ensures
        final(out)@ == old(out)@ + xml::attribute_name(e@.prefix, e@.local),
{
    let ghost start = out@;
    match opt_str(&e.prefix) {
        Some(p) => {
            put(out, p);
            put(out, ":");
        },
        None => {},
    }
    put(out, e.local.as_str());
    assert(out@ =~= start + xml::attribute_name(e@.prefix, e@.local));
}

fn write_start(out: &mut Vec<char>, e: &XmlElement, outer: &StrMap<String>)
    ensures
        final(out)@ == old(out)@ + start_text(e@, outer@),
{
    let ghost start = out@;
    put(out, "<");
    write_name(out, e);
    write_bindings(out, &e.namespaces, outer);
    if outer.contains_key("") && !e.namespaces.contains_key("") {
        write_attribute(out, "xmlns", "");
    }
    write_attributes(out, &e.attributes);
    put(out, ">");
    assert(out@ =~= start + start_text(e@, outer@));
}

fn write_end(out: &mut Vec<char>, e: &XmlElement)
    ensures
        final(out)@ == old(out)@ + end_text(e@),
{
    let ghost start = out@;
    put(out, "</");
    write_name(out, e);
    put(out, ">");
    assert(out@ =~= start + end_text(e@));
}

fn write_nodes(out: &mut Vec<char>, list: &Vec<XmlNode>, outer: &StrMap<String>)
    ensures
        final(out)@ == old(out)@ + nodes_text(xml::node_models(*list), 0, outer@),
    decreases *list,
{
    let n: usize = list.len();
    let ghost start = out@;
    let ghost all = xml::node_models(*list);
    let ghost want = start + nodes_text(all, 0, outer@);
    let mut i: usize = 0;
    while i < n
        invariant
            n == list@.len(),
            i <= n,
            all == xml::node_models(*list),
            want == out@ + nodes_text(all, i as nat, outer@),
        decreases n - i,
    {
        assert(all[i as int] == list@[i as int].model());
        let ghost before = out@;
        let ghost rest = nodes_text(all, (i + 1) as nat, outer@);
        match &list[i] {
            XmlNode::Element(e) => {
                proof {
                    lemma_child(*list, i as int);
                }
                write_start(out, e, outer);
                write_nodes(out, &e.children, &e.namespaces);
                write_end(out, e);
                proof {
                    let inner = nodes_text(e@.children, 0, e@.namespaces);
                    assert(before + (start_text(e@, outer@) + inner + end_text(e@) + rest)
                        =~= out@ + rest);
                }
            },
            XmlNode::Text(t) => {
                write_escaped(out, t.as_str(), false);
                assert(before + (escaped(t@, false) + rest) =~= out@ + rest);
            },
            XmlNode::Data(t) => {
                write_escaped(out, t.as_str(), false);
                assert(before + (escaped(t@, false) + rest) =~= out@ + rest);
            },
            XmlNode::Blank(t) => {
                write_escaped(out, t.as_str(), false);
                assert(before + (escaped(t@, false) + rest) =~= out@ + rest);
            },
            _ => {},
        }
        i += 1;
    }
    assert(out@ + Seq::<char>::empty() =~= out@);
}

/// What stands in an element as XML text, every namespace in force declared in it.
pub fn read_inner_xml(e: &XmlElement) -> (r: Result<String, Error>)
    ensures
        crate::error::outcome(r) == inner_xml(e@),
{
    match find_flaw(&e.children, 0) {
        Some(x) => Err(x),
        None => {
            let mut out: Vec<char> = Vec::new();
            let none: StrMap<String> = StrMap::new();
            write_nodes(&mut out, &e.children, &none);
            assert(Seq::<char>::empty() + nodes_text(e@.children, 0, Seq::empty())
                =~= nodes_text(e@.children, 0, Seq::empty()));
            Ok(string_of(out.as_slice()))
        },
    }
}

} // verus!
