//! Simple types.

use vstd::prelude::*;
use crate::ast;
use crate::ast::{
    BuiltinType, DfdlProps, DfdlPropsModel, LengthPropsModel, ParsedRestrictionFacets,
    RestrictionBase, RestrictionBaseModel, SchemaDocumentModel, SimpleBase, SimpleBaseModel,
    TypeDef, TypeDefModel, TypeName, UnionMember, UnionMemberModel,
};
use crate::attrs;
use crate::attrs::split_dfdl_attrs;
use crate::error::{cat3, invalid_xml, Error, ErrorModel};
use crate::merge;
use crate::merge::merge_dfdl_props;
use crate::qname;
use crate::qname::normalize_qname;
use crate::strmap;
use crate::text;
use crate::text::{chars_of, eq, string_of, trim, white, words};
use crate::values;
use crate::values::{owned, Duplicate};
use crate::xml;
use crate::xml::{XmlElement, XmlElementModel, XmlNode, XmlNodeModel};
use crate::xsd::annotation;
use crate::xsd::facets;
use crate::xsd::facets::parse_restriction_body;
use crate::xsd::markup;
use crate::xsd::markup::Content;
use crate::xsd::nodes;
use crate::xsd::nodes::{expect_end, fault_of, lemma_child, skip_blank, skip_element};
use crate::xsd::state;
use crate::xsd::state::{XsdParser, XsdParserModel};

verus! {

// ------------------------------------------------------------------ restrictions

/// White space stands in the text.
pub open spec fn has_white(s: Seq<char>) -> bool {
    exists|i: int| 0 <= i < s.len() && text::is_white(#[trigger] s[i])
}

/// What is said of a name that is no name.
pub open spec fn bad_base(name: Seq<char>) -> Seq<Seq<char>> {
    seq![
        "Schema Definition Error: Failed to resolve base property reference for xs:restriction:"@,
        "Invalid QName '"@ + name + "'"@,
    ]
}

/// The type that a restriction restricts, by its name.
pub open spec fn base_named(name: Option<Seq<char>>) -> RestrictionBaseModel {
    match name {
        None => RestrictionBaseModel::Builtin(BuiltinType::String),
        Some(n) => {
            let local = qname::local_spec(text::trim_spec(n));
            match ast::builtin_spec(local) {
                Some(b) => RestrictionBaseModel::Builtin(b),
                None => RestrictionBaseModel::Named(local),
            }
        },
    }
}

/// The name is that of the type of dates.
pub open spec fn names_date(name: Option<Seq<char>>) -> bool {
    match name {
        Some(n) => qname::local_spec(n) == "xs:date"@ || qname::local_spec(n) == "date"@,
        None => false,
    }
}

/// The reader after a restriction, and the restriction.
#[verifier::opaque]
pub open spec fn restriction_read(st: XsdParserModel, e: XmlElementModel) -> Result<
    (XsdParserModel, SimpleBaseModel),
    ErrorModel,
> {
    let base = strmap::lookup(e.attributes, "base"@);
    if base matches Some(b) && has_white(b) {
        match nodes::flaw(e) {
            Some(x) => Err(x),
            None => Ok(
                (
                    state::complained(st, bad_base(base->0)),
                    SimpleBaseModel::Restriction {
                        base: RestrictionBaseModel::Builtin(BuiltinType::String),
                        restriction_base_is_xs_date: false,
                        facets: ast::no_facets(),
                    },
                ),
            ),
        }
    } else {
        match facets::facets_from(ast::no_facets(), e.children, 0) {
            Err(x) => Err(x),
            Ok(f) => Ok(
                (
                    st,
                    SimpleBaseModel::Restriction {
                        base: base_named(base),
                        restriction_base_is_xs_date: names_date(base),
                        facets: f,
                    },
                ),
            ),
        }
    }
}

/// Whether white space stands in the text.
fn contains_white(s: &str) -> (r: bool)
    ensures
        r == has_white(s@),
{
    let c = chars_of(s);
    let n: usize = c.len();
    let mut i: usize = 0;
    while i < n
        invariant
            i <= n,
            n == c@.len(),
            c@ == s@,
            forall|j: int| 0 <= j < i ==> !text::is_white(#[trigger] c@[j]),
        decreases n - i,
    {
        if white(c[i]) {
            assert(text::is_white(s@[i as int]));
            return true;
        }
        i += 1;
    }
    false
}

/// The type that a restriction restricts, by its name.
fn base_of(name: Option<&String>) -> (r: RestrictionBase)
    ensures
        r.deep_view() == base_named(name.deep_view()),
{
    match name {
        None => RestrictionBase::Builtin(BuiltinType::String),
        Some(n) => {
            let c = chars_of(n.as_str());
            let local = normalize_qname(string_of(trim(c.as_slice())).as_str());
            match BuiltinType::from_xsd(local.as_str()) {
                Some(b) => RestrictionBase::Builtin(b),
                None => RestrictionBase::Named(TypeName(local)),
            }
        },
    }
}

/// Whether the name is that of the type of dates.
fn is_date(name: Option<&String>) -> (r: bool)
    ensures
        r == names_date(name.deep_view()),
{
    match name {
        Some(n) => {
            let local = normalize_qname(n.as_str());
            eq(local.as_str(), "xs:date") || eq(local.as_str(), "date")
        },
        None => false,
    }
}

impl XsdParser {
    /// Complains of a name that is no name.
    fn complain_of_base(&mut self, name: &str)
        ensures
            values::agree(final(self)@, state::complained(old(self)@, bad_base(name@))),
    {
        reveal(crate::ast::document_model);
        proof {
            reveal(crate::xsd::state::parser_model);
        }
        let ghost before = self.doc.schema_diagnostics.deep_view();
        let first = owned(
            "Schema Definition Error: Failed to resolve base property reference for xs:restriction:",
        );
        let second = cat3("Invalid QName '", name, "'");
        self.doc.schema_diagnostics.push(first);
        self.doc.schema_diagnostics.push(second);
        assert(self.doc.schema_diagnostics.deep_view() =~= before + bad_base(name@));
    }

    /// Takes a restriction in.
    fn parse_restriction(&mut self, e: &XmlElement) -> (r: Result<SimpleBase, Error>)
        ensures
            annotation::done(final(self)@, r, restriction_read(old(self)@, e@)),
    {
        reveal(restriction_read);
        let name = e.attributes.get("base");
        if let Some(b) = name {
            if contains_white(b.as_str()) {
                skip_element(e)?;
                self.complain_of_base(b.as_str());
                return Ok(
                    SimpleBase::Restriction {
                        base: RestrictionBase::Builtin(BuiltinType::String),
                        restriction_base_is_xs_date: false,
                        facets: ParsedRestrictionFacets::default(),
                    },
                );
            }
        }
        let found = parse_restriction_body(e)?;
        Ok(
            SimpleBase::Restriction {
                base: base_of(name),
                restriction_base_is_xs_date: is_date(name),
                facets: found,
            },
        )
    }
}

// ------------------------------------------------------------------------ bases

/// The members that a union names.
pub open spec fn members_named(attributes: Seq<(Seq<char>, Seq<char>)>) -> Seq<UnionMemberModel> {
    match strmap::lookup(attributes, "memberTypes"@) {
        Some(raw) => text::words_spec(raw).map_values(
            |w: Seq<char>| UnionMemberModel::Named(qname::local_spec(w)),
        ),
        None => Seq::empty(),
    }
}

/// The reader after the base of a simple type that stands from `i` on, the base,
/// and the position behind it.
pub open spec fn base_from(st: XsdParserModel, nodes: Seq<XmlNodeModel>, i: nat) -> Result<
    (XsdParserModel, (SimpleBaseModel, nat)),
    ErrorModel,
>
    decreases nodes, nodes.len() - i,
{
    if i >= nodes.len() {
        Err(ErrorModel::InvalidXml("simpleType missing restriction"@))
    } else {
        match nodes[i as int] {
            XmlNodeModel::Element(e) => if e.local == "union"@ {
                match members_from(st, members_named(e.attributes), e.children, 0) {
                    Err(x) => Err(x),
                    Ok((st2, members)) => if members.len() == 0 {
                        Err(
                            ErrorModel::InvalidXml(
                                "union must have memberTypes and/or inline simpleType members"@,
                            ),
                        )
                    } else {
                        Ok((st2, (SimpleBaseModel::Union { members }, i + 1)))
                    },
                }
            } else if e.local == "restriction"@ {
                match restriction_read(st, e) {
                    Err(x) => Err(x),
                    Ok((st2, base)) => Ok((st2, (base, i + 1))),
                }
            } else {
                match nodes::flaw(e) {
                    Some(x) => Err(x),
                    None => base_from(st, nodes, i + 1),
                }
            },
            n => match nodes::fault(n, "expected restriction or union, found "@, ""@) {
                Some(x) => Err(x),
                None => base_from(st, nodes, i + 1),
            },
        }
    }
}

/// The reader after the members of a union that stand from `i` on, and those
/// behind these.
pub open spec fn members_from(
    st: XsdParserModel,
    members: Seq<UnionMemberModel>,
    nodes: Seq<XmlNodeModel>,
    i: nat,
) -> Result<(XsdParserModel, Seq<UnionMemberModel>), ErrorModel>
    decreases nodes, nodes.len() - i,
{
    if i >= nodes.len() {
        Ok((st, members))
    } else {
        match nodes[i as int] {
            XmlNodeModel::Element(e) => if e.local == "simpleType"@ {
                match base_from(st, e.children, 0) {
                    Err(x) => Err(x),
                    Ok((st2, (base, j))) => match nodes::end_fault(e.children, j, "simpleType"@) {
                        Some(x) => Err(x),
                        None => members_from(
                            st2,
                            members.push(UnionMemberModel::Inline(base)),
                            nodes,
                            i + 1,
                        ),
                    },
                }
            } else {
                match nodes::flaw(e) {
                    Some(x) => Err(x),
                    None => members_from(st, members, nodes, i + 1),
                }
            },
            n => match nodes::fault(n, "expected union child, found "@, ""@) {
                Some(x) => Err(x),
                None => members_from(st, members, nodes, i + 1),
            },
        }
    }
}

/// The members that a union names.
fn named_members(e: &XmlElement) -> (r: Vec<UnionMember>)
    ensures
        ast::member_models(r) == members_named(e@.attributes),
{
    let mut out: Vec<UnionMember> = Vec::new();
    let raw = match e.attributes.get("memberTypes") {
        Some(raw) => raw,
        None => {
            assert(ast::member_models(out) =~= Seq::empty());
            return out;
        },
    };
    let c = chars_of(raw.as_str());
    let ws = words(c.as_slice());
    let ghost all = text::words_spec(raw@);
    let ghost want = members_named(e@.attributes);
    let n: usize = ws.len();
    let mut i: usize = 0;
    assert(ast::member_models(out) =~= want.take(0));
    while i < n
        invariant
            i <= n,
            n == ws@.len(),
            text::view_all(ws@) == all,
            want == all.map_values(|w: Seq<char>| UnionMemberModel::Named(qname::local_spec(w))),
            ast::member_models(out) == want.take(i as int),
        decreases n - i,
    {
        let ghost before = out;
        assert(all[i as int] == ws@[i as int]@);
        let member = UnionMember::Named(TypeName(normalize_qname(string_of(ws[i]).as_str())));
        out.push(member);
        assert(ast::member_models(out) =~= ast::member_models(before).push(member.model()));
        assert(want.take(i + 1) =~= want.take(i as int).push(want[i as int]));
        i += 1;
    }
    assert(want.take(i as int) =~= want);
    out
}

impl XsdParser {
    /// Takes the base of a simple type in, from `start` on.
    pub(crate) fn parse_simple_base(&mut self, list: &Vec<XmlNode>, start: usize) -> (r: Result<
        (SimpleBase, usize),
        Error,
    >)
        requires
            start <= list@.len(),
        ensures
            match base_from(old(self)@, xml::node_models(*list), start as nat) {
                Ok((st, (b, j))) => values::agree(final(self)@, st) && (r matches Ok((x, k))
                    && values::agree(x.model(), b) && k == j && k <= list@.len()),
                Err(e) => r matches Err(x) && x@ == e,
            },
        decreases *list, 1int,
    {
        let n: usize = list.len();
        let mut i: usize = start;
        let ghost all = xml::node_models(*list);
        let ghost want = base_from(self@, all, start as nat);
        while i < n
            invariant
                start <= i <= n,
                n == list@.len(),
                all == xml::node_models(*list),
                want == base_from(old(self)@, all, start as nat),
                values::agree(want, base_from(self@, all, i as nat)),
            decreases n - i,
        {
            assert(all[i as int] == list@[i as int].model());
            match &list[i] {
                XmlNode::Element(child) => {
                    proof {
                        lemma_child(*list, i as int);
                    }
                    if eq(child.local.as_str(), "union") {
                        let members = self.parse_union_body(child)?;
                        if members.len() == 0 {
                            return Err(
                                invalid_xml(
                                    owned(
                                        "union must have memberTypes and/or inline simpleType members",
                                    ),
                                ),
                            );
                        }
                        return Ok((SimpleBase::Union { members }, i + 1));
                    }
                    if eq(child.local.as_str(), "restriction") {
                        let base = self.parse_restriction(child)?;
                        return Ok((base, i + 1));
                    }
                    skip_element(child)?;
                },
                other => {
                    if let Some(x) = fault_of(other, "expected restriction or union, found ", "") {
                        return Err(x);
                    }
                },
            }
            i += 1;
        }
        Err(invalid_xml(owned("simpleType missing restriction")))
    }

    /// Takes the members of a union in.
    pub(crate) fn parse_union_body(&mut self, e: &XmlElement) -> (r: Result<Vec<UnionMember>, Error>)
        ensures
            match members_from(old(self)@, members_named(e@.attributes), e@.children, 0) {
                Ok((st, m)) => values::agree(final(self)@, st) && (r matches Ok(x)
                    && values::agree(ast::member_models(x), m)),
                Err(f) => r matches Err(x) && x@ == f,
            },
        decreases *e, 0int,
    {
        let list = &e.children;
        let n: usize = list.len();
        let mut i: usize = 0;
        let mut members = named_members(e);
        let ghost all = e@.children;
        let ghost named = members_named(e@.attributes);
        let ghost want = members_from(self@, named, all, 0);
        while i < n
            invariant
                i <= n,
                n == list@.len(),
                *list == e.children,
                all == xml::node_models(*list),
                all == e@.children,
                named == members_named(e@.attributes),
                want == members_from(old(self)@, named, all, 0),
                values::agree(
                    want,
                    members_from(self@, ast::member_models(members), all, i as nat),
                ),
            decreases n - i,
        {
            assert(all[i as int] == list@[i as int].model());
            match &list[i] {
                XmlNode::Element(child) => {
                    proof {
                        lemma_child(*list, i as int);
                        assert(decreases_to!(*e => e.children));
                    }
                    if eq(child.local.as_str(), "simpleType") {
                        let (base, j) = self.parse_simple_base(&child.children, 0)?;
                        expect_end(&child.children, j, "simpleType")?;
                        let ghost before = members;
                        let member = UnionMember::Inline(base);
                        members.push(member);
                        assert(ast::member_models(members) =~= ast::member_models(before).push(
                            member.model(),
                        ));
                    } else {
                        skip_element(child)?;
                    }
                },
                other => {
                    if let Some(x) = fault_of(other, "expected union child, found ", "") {
                        return Err(x);
                    }
                },
            }
            i += 1;
        }
        Ok(members)
    }
}

// ------------------------------------------------------------------------ types

/// The reader with a type.
pub open spec fn with_type(st: XsdParserModel, name: Seq<char>, t: TypeDefModel) -> XsdParserModel {
    XsdParserModel {
        doc: SchemaDocumentModel { types: strmap::with_entry(st.doc.types, name, t), ..st.doc },
        ..st
    }
}

/// The properties with a length where they have none.
#[verifier::opaque]
pub open spec fn with_length(p: DfdlPropsModel, length: Option<u64>) -> DfdlPropsModel {
    if p.length.length is None {
        DfdlPropsModel { length: LengthPropsModel { length, ..p.length }, ..p }
    } else {
        p
    }
}

/// The name under which a type is stored, if it has one.
pub open spec fn type_named(inline: Option<Seq<char>>, e: XmlElementModel) -> Option<Seq<char>> {
    match inline {
        Some(n) => Some(n),
        None => strmap::lookup(e.attributes, "name"@),
    }
}

/// The reader with a simple type, where it has a name.
pub open spec fn simple_stored(
    st: XsdParserModel,
    name: Option<Seq<char>>,
    base: SimpleBaseModel,
    p: DfdlPropsModel,
) -> XsdParserModel {
    match name {
        None => st,
        Some(n) => with_type(
            st,
            n,
            TypeDefModel::Simple {
                name: n,
                base,
                props: with_length(p, st.doc.format_defaults.props.length.length),
                format_context: st.doc.format_defaults.props,
                source_label: st.doc.schema_source_label,
            },
        ),
    }
}

/// The reader after a simple type.
#[verifier::opaque]
pub open spec fn simple_read(
    st: XsdParserModel,
    inline: Option<Seq<char>>,
    e: XmlElementModel,
) -> Result<XsdParserModel, ErrorModel> {
    match attrs::strict_props("simpleType"@, e.attributes) {
        Err(x) => Err(x),
        Ok(stated) => if nodes::at_end(e.children, 0) {
            Ok(st)
        } else {
            match markup::markup_from(
                st,
                state::finalized(st.doc, merge::merge_spec(ast::no_props(), stated)),
                e.children,
                0,
                Content::Simple,
            ) {
                Err(x) => Err(x),
                Ok((st1, (p, i))) => match base_from(st1, e.children, i) {
                    Err(x) => Err(x),
                    Ok((st2, (base, j))) => match nodes::end_fault(e.children, j, "simpleType"@) {
                        Some(x) => Err(x),
                        None => Ok(simple_stored(st2, type_named(inline, e), base, p)),
                    },
                },
            }
        },
    }
}

/// Gives the properties a length where they have none.
fn set_length(p: DfdlProps, length: Option<u64>) -> (r: DfdlProps)
    ensures
        values::agree(r@, with_length(p@, length)),
{
    reveal(with_length);
    reveal(ast::length_props_model);
    let mut r = p;
    if r.length.length.is_none() {
        r.length.length = length;
    }
    r
}

/// The length that the properties state.
fn length_of(p: &DfdlProps) -> (r: Option<u64>)
    ensures
        r == p@.length.length,
{
    reveal(ast::length_props_model);
    p.length.length
}

/// The name under which a type is stored, if it has one.
pub fn name_of_type(inline: Option<String>, e: &XmlElement) -> (r: Option<String>)
    ensures
        r.deep_view() == type_named(inline.deep_view(), e@),
{
    match inline {
        Some(n) => Some(n),
        None => match e.attributes.get("name") {
            Some(n) => Some(n.copy()),
            None => None,
        },
    }
}

impl XsdParser {
    /// Stores a type.
    pub(crate) fn insert_type(&mut self, name: String, t: TypeDef)
        ensures
            values::agree(final(self)@, with_type(old(self)@, name@, t.deep_view())),
    {
        reveal(crate::ast::document_model);
        proof {
            reveal(crate::xsd::state::parser_model);
        }
        self.doc.types.insert(name, t);
    }

    /// Stores a simple type, where it has a name.
    fn store_simple(&mut self, name: Option<String>, base: SimpleBase, p: DfdlProps)
        ensures
            values::agree(
                final(self)@,
                simple_stored(old(self)@, name.deep_view(), base.model(), p@),
            ),
    {
        reveal(crate::ast::document_model);
        proof {
            reveal(crate::xsd::state::parser_model);
        }
        if let Some(n) = name {
            let props = set_length(p, length_of(&self.doc.format_defaults.props));
            let t = TypeDef::Simple {
                name: TypeName(n.copy()),
                base,
                props,
                format_context: self.doc.format_defaults.props.copy(),
                source_label: self.doc.schema_source_label.copy(),
            };
            self.insert_type(n, t);
        }
    }

    /// Takes a simple type in.
    pub(crate) fn parse_simple_type(&mut self, inline: Option<String>, e: &XmlElement) -> (r: Result<
        (),
        Error,
    >)
        ensures
            annotation::finished(
                final(self)@,
                r,
                simple_read(old(self)@, inline.deep_view(), e@),
            ),
    {
        reveal(simple_read);
        let (_, stated) = split_dfdl_attrs("simpleType", &e.attributes)?;
        if skip_blank(&e.children, 0) >= e.children.len() {
            return Ok(());
        }
        let own = self.finalize_props(merge_dfdl_props(DfdlProps::default(), stated));
        let (p, i) = self.parse_inline_content(own, &e.children, 0, Content::Simple)?;
        let (base, j) = self.parse_simple_base(&e.children, i)?;
        expect_end(&e.children, j, "simpleType")?;
        let name = name_of_type(inline, e);
        self.store_simple(name, base, p);
        Ok(())
    }
}

} // verus!
