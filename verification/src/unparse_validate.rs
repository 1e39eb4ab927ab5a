//! Checks of an infoset against the compiled schema before it is written.

use vstd::prelude::*;
use crate::ast::{OccursCountKind, SchemaDocument, SchemaDocumentModel};
use crate::error::{cat2, cat3, cat4, cat5, cat6, cat8};
use crate::numbers;
use crate::numbers::{decimal_chars, parse_u64};
use crate::program;
use crate::program::{
    ChoiceBranch, ChoiceBranchModel, IrNode, IrNodeModel, IrProgram, IrProgramModel, IrProps,
    IrPropsModel, ValueKind,
};
use crate::qname;
use crate::qname::{get_global_element, local_name_from_qname};
use crate::strmap;
use crate::strmap::StrMap;
use crate::tdml::compare;
use crate::tdml::infoset;
use crate::tdml::infoset::{InfosetNode, InfosetNodeModel};
use crate::text;
use crate::text::{chars_of, eq, join, string_of, trim};
use crate::validate::hidden;
use crate::validate::hidden::validate_hidden_groups_unparse;
use crate::value;
use crate::value::{DfdlValue, DfdlValueModel};
use crate::values::{owned, Duplicate};

verus! {

broadcast use vstd::string::group_string_axioms;

/// How the names in an infoset are to be written.
#[derive(Debug)]
pub struct Form {
    /// Local elements stand in the target namespace.
    pub qualified: bool,
    pub target_ns: Option<String>,
    /// Namespaces, and elements that do not belong, are faults.
    pub enforce: bool,
}

/// What a [`Form`] holds, its text as character sequences.
#[verifier::ext_equal]
pub struct FormModel {
    pub qualified: bool,
    pub target_ns: Option<Seq<char>>,
    pub enforce: bool,
}

impl View for Form {
    type V = FormModel;

    open spec fn view(&self) -> FormModel {
        FormModel {
            qualified: self.qualified,
            target_ns: self.target_ns.deep_view(),
            enforce: self.enforce,
        }
    }
}

// Names in messages.
/// A namespace, unless it is empty.
pub open spec fn real_ns(ns: Option<Seq<char>>) -> Option<Seq<char>> {
    match ns {
        Some(u) if u.len() > 0 => Some(u),
        _ => None,
    }
}

/// A name with its namespace in braces.
pub open spec fn braced(local: Seq<char>, ns: Option<Seq<char>>) -> Seq<char> {
    match real_ns(ns) {
        Some(u) => "{"@ + u + "}"@ + local,
        None => "{}"@ + local,
    }
}

/// A name with its namespace in braces.
pub fn qname_for_error(local: &str, ns: &Option<String>) -> (r: String)
    ensures
        r@ == braced(local@, ns.deep_view()),
{
    match ns {
        Some(u) => {
            let c = chars_of(u.as_str());
            if c.len() > 0 {
                cat4("{", u.as_str(), "}", local)
            } else {
                cat2("{}", local)
            }
        },
        None => cat2("{}", local),
    }
}

/// The name of an element as it stands in messages about what it holds.
pub open spec fn parent_name(
    root: Seq<char>,
    target_ns: Option<Seq<char>>,
    qualified: bool,
) -> Seq<char> {
    if text::has_prefix(root, "{"@) {
        root
    } else if qualified || real_ns(target_ns) is Some {
        braced(root, target_ns)
    } else {
        root
    }
}

/// The name of an element as it stands in messages about what it holds.
pub fn parent_qname(root: &str, target_ns: &Option<String>, qualified: bool) -> (r: String)
    ensures
        r@ == parent_name(root@, target_ns.deep_view(), qualified),
{
    let c = chars_of(root);
    if text::starts_with(c.as_slice(), "{") {
        return owned(root);
    }
    let named = match target_ns {
        Some(u) => {
            let d = chars_of(u.as_str());
            d.len() > 0
        },
        None => false,
    };
    if qualified || named {
        qname_for_error(root, target_ns)
    } else {
        owned(root)
    }
}

fn decimal_text(n: u64) -> (r: String)
    ensures
        r@ == numbers::decimal(n as nat),
{
    let d = decimal_chars(n);
    string_of(d.as_slice())
}

/// Whether a node stands in a namespace.
pub open spec fn has_ns(n: InfosetNodeModel) -> bool {
    real_ns(n.namespace) is Some
}

fn has_namespace(n: &InfosetNode) -> (r: bool)
    ensures
        r == has_ns(n@),
{
    match &n.namespace {
        Some(u) => {
            let c = chars_of(u.as_str());
            c.len() > 0
        },
        None => false,
    }
}

/// Why a local element is not written in the form that the schema asks for.
pub open spec fn form_fault(
    n: InfosetNodeModel,
    f: FormModel,
    parent: Seq<char>,
    required: bool,
) -> Option<Seq<char>> {
    let local = qname::local_spec(n.name);
    if f.qualified == has_ns(n) {
        None
    } else {
        let expected = braced(
            local,
            if f.qualified {
                f.target_ns
            } else {
                None
            },
        );
        let received = braced(
            local,
            if has_ns(n) {
                f.target_ns
            } else {
                None
            },
        );
        if required {
            Some(
                "Unparse Error: "@ + expected
                    + " expected element start, but received start event for "@ + received
                    + " at "@ + parent,
            )
        } else {
            Some(
                "Unparse Error: "@ + parent
                    + " expected element end, but received start event for "@ + received
                    + " at "@ + parent,
            )
        }
    }
}

/// A local element is written in the form that the schema asks for.
pub fn validate_element_form(n: &InfosetNode, f: &Form, parent: &str, required: bool) -> (r: Result<
    (),
    String,
>)
    ensures
        compare::verdict(r) == form_fault(n@, f@, parent@, required),
{
    let local = local_name_from_qname(n.name.as_str());
    let has = has_namespace(n);
    if f.qualified == has {
        return Ok(());
    }
    let nothing: Option<String> = None;
    let expected = if f.qualified {
        qname_for_error(local.as_str(), &f.target_ns)
    } else {
        qname_for_error(local.as_str(), &nothing)
    };
    let received = if has {
        qname_for_error(local.as_str(), &f.target_ns)
    } else {
        qname_for_error(local.as_str(), &nothing)
    };
    if required {
        Err(
            cat6(
                "Unparse Error: ",
                expected.as_str(),
                " expected element start, but received start event for ",
                received.as_str(),
                " at ",
                parent,
            ),
        )
    } else {
        Err(
            cat6(
                "Unparse Error: ",
                parent,
                " expected element end, but received start event for ",
                received.as_str(),
                " at ",
                parent,
            ),
        )
    }
}

// The nodes of one name.
/// The nodes whose local name is this, under the names from `i` on.
pub open spec fn named_from(
    children: Seq<(Seq<char>, Seq<InfosetNodeModel>)>,
    local: Seq<char>,
    i: nat,
) -> Seq<InfosetNodeModel>
    decreases children.len() - i,
{
    if i >= children.len() {
        Seq::empty()
    } else if qname::local_spec(children[i as int].0) == local {
        children[i as int].1 + named_from(children, local, i + 1)
    } else {
        named_from(children, local, i + 1)
    }
}

/// The nodes in this one whose local name is this.
pub open spec fn named(n: InfosetNodeModel, local: Seq<char>) -> Seq<InfosetNodeModel> {
    named_from(n.children, local, 0)
}

/// What the nodes behind references hold.
pub open spec fn node_refs(v: Seq<&InfosetNode>) -> Seq<InfosetNodeModel> {
    v.map(|i: int, n: &InfosetNode| n.model())
}

fn add_all<'a>(out: &mut Vec<&'a InfosetNode>, list: &'a Vec<InfosetNode>)
    ensures
        node_refs(final(out)@) == node_refs(old(out)@) + infoset::list_models(*list),
{
    let ghost begin = out@;
    let ghost all = infoset::list_models(*list);
    let mut i: usize = 0;
    assert(all.take(0) =~= Seq::<InfosetNodeModel>::empty());
    assert(node_refs(out@) =~= node_refs(begin) + all.take(0));
    while i < list.len()
        invariant
            i <= list@.len(),
            all == infoset::list_models(*list),
            node_refs(out@) == node_refs(begin) + all.take(i as int),
        decreases list@.len() - i,
    {
        let ghost prev = out@;
        out.push(&list[i]);
        assert(all[i as int] == list@[i as int].model());
        assert(node_refs(out@) =~= node_refs(prev).push(all[i as int]));
        assert(all.take(i + 1) =~= all.take(i as int).push(all[i as int]));
        assert(node_refs(out@) =~= node_refs(begin) + all.take(i + 1));
        i += 1;
    }
    assert(all.take(all.len() as int) =~= all);
}

/// The nodes in this one whose local name is this.
pub fn find_infoset_children<'a>(node: &'a InfosetNode, local: &str) -> (r: Vec<&'a InfosetNode>)
    ensures
        node_refs(r@) == named(node@, local@),
{
    let ghost all = infoset::entry_models(node.children.entries);
    let mut out: Vec<&'a InfosetNode> = Vec::new();
    let mut i: usize = 0;
    assert(node_refs(out@) + named_from(all, local@, 0) =~= named_from(all, local@, 0));
    while i < node.children.entries.len()
        invariant
            i <= node.children.entries@.len(),
            all == infoset::entry_models(node.children.entries),
            node_refs(out@) + named_from(all, local@, i as nat) == named_from(all, local@, 0),
        decreases node.children.entries@.len() - i,
    {
        let e = &node.children.entries[i];
        let key = local_name_from_qname(e.0.as_str());
        assert(all[i as int] == (e.0@, infoset::list_models(e.1)));
        if eq(key.as_str(), local) {
            let ghost prev = node_refs(out@);
            add_all(&mut out, &e.1);
            assert(node_refs(out@) + named_from(all, local@, i as nat + 1) =~= prev + named_from(
                all,
                local@,
                i as nat,
            ));
        }
        i += 1;
    }
    assert(node_refs(out@) =~= node_refs(out@) + named_from(all, local@, i as nat));
    out
}

// What can be missing.
/// Whether an element is computed on output or hidden.
pub open spec fn computed(p: IrPropsModel) -> bool {
    p.hidden || p.output_value_calc || p.output_value_calc_literal || p.output_value_calc_sibling
        || p.output_value_calc_conditional
}

fn ir_props_computed_at_unparse(p: &IrProps) -> (r: bool)
    ensures
        r == computed(p@),
{
    p.hidden || p.output_value_calc || p.output_value_calc_literal || p.output_value_calc_sibling
        || p.output_value_calc_conditional
}

/// Whether an element can be missing from an infoset.
pub open spec fn optional(p: IrPropsModel) -> bool {
    computed(p) || p.occurs_min == 0
}

/// Whether a part can be missing from an infoset.
pub open spec fn can_be_absent(p: IrNodeModel) -> bool
    decreases p, 0int,
{
    match p {
        IrNodeModel::Element { kind, child, props, .. } => optional(props) || (kind
            == ValueKind::Complex && match child {
            Some(c) => can_be_absent(*c),
            None => false,
        }),
        IrNodeModel::Sequence { children } => all_absent(children, 0),
        IrNodeModel::Choice { branches } => any_absent(branches, 0),
    }
}

/// Whether all parts from `i` on can be missing.
pub open spec fn all_absent(children: Seq<IrNodeModel>, i: nat) -> bool
    decreases children, children.len() - i,
{
    i >= children.len() || (can_be_absent(children[i as int]) && all_absent(children, i + 1))
}

/// Whether a branch from `i` on can be missing.
pub open spec fn any_absent(branches: Seq<ChoiceBranchModel>, i: nat) -> bool
    decreases branches, branches.len() - i,
{
    i < branches.len() && (can_be_absent(branches[i as int].node) || any_absent(branches, i + 1))
}

fn ir_particle_can_absent_from_unparse_infoset(p: &IrNode) -> (r: bool)
    ensures
        r == can_be_absent(p@),
    decreases p,
{
    match p {
        IrNode::Element { kind, child, props, .. } => {
            if ir_props_computed_at_unparse(props) || props.occurs_min == 0 {
                return true;
            }
            if *kind == ValueKind::Complex {
                if let Some(c) = child {
                    return ir_particle_can_absent_from_unparse_infoset(c);
                }
            }
            false
        },
        IrNode::Sequence { children } => {
            assert(decreases_to!(p => *children));
            let ghost all = program::node_models(*children);
            let mut i: usize = 0;
            while i < children.len()
                invariant
                    i <= children@.len(),
                    p == (IrNode::Sequence { children: *children }),
                    decreases_to!(p => *children),
                    all == program::node_models(*children),
                    all_absent(all, 0) == all_absent(all, i as nat),
                decreases children@.len() - i,
            {
                assert(all[i as int] == children@[i as int].model());
                assert(decreases_to!(*children => children@[i as int]));
                if !ir_particle_can_absent_from_unparse_infoset(&children[i]) {
                    return false;
                }
                i += 1;
            }
            true
        },
        IrNode::Choice { branches } => {
            assert(decreases_to!(p => *branches));
            let ghost all = program::branch_models(*branches);
            let mut i: usize = 0;
            while i < branches.len()
                invariant
                    i <= branches@.len(),
                    p == (IrNode::Choice { branches: *branches }),
                    decreases_to!(p => *branches),
                    all == program::branch_models(*branches),
                    any_absent(all, 0) == any_absent(all, i as nat),
                decreases branches@.len() - i,
            {
                assert(all[i as int] == branches@[i as int].model());
                assert(decreases_to!(*branches => branches@[i as int]));
                if ir_particle_can_absent_from_unparse_infoset(&branches[i].node) {
                    return true;
                }
                i += 1;
            }
            false
        },
    }
}

/// The local name of the first element of a part that cannot be missing.
pub open spec fn branch_key(p: IrNodeModel) -> Option<Seq<char>>
    decreases p, 0int,
{
    match p {
        IrNodeModel::Element { name, props, .. } => if optional(props) {
            None
        } else {
            Some(qname::local_spec(name))
        },
        IrNodeModel::Sequence { children } => list_key(children, 0),
        IrNodeModel::Choice { branches } => branches_key(branches, 0),
    }
}

/// The first such name of the parts from `i` on.
pub open spec fn list_key(children: Seq<IrNodeModel>, i: nat) -> Option<Seq<char>>
    decreases children, children.len() - i,
{
    if i >= children.len() {
        None
    } else {
        match branch_key(children[i as int]) {
            Some(k) => Some(k),
            None => list_key(children, i + 1),
        }
    }
}

/// The first such name of the branches from `i` on.
pub open spec fn branches_key(branches: Seq<ChoiceBranchModel>, i: nat) -> Option<Seq<char>>
    decreases branches, branches.len() - i,
{
    if i >= branches.len() {
        None
    } else {
        match branch_key(branches[i as int].node) {
            Some(k) => Some(k),
            None => branches_key(branches, i + 1),
        }
    }
}

fn choice_branch_infoset_local_key(p: &IrNode) -> (r: Option<String>)
    ensures
        text::str_opt(r) == branch_key(p@),
    decreases p,
{
    match p {
        IrNode::Element { name, props, .. } => {
            if ir_props_computed_at_unparse(props) || props.occurs_min == 0 {
                return None;
            }
            Some(local_name_from_qname(name.as_str()))
        },
        IrNode::Sequence { children } => {
            assert(decreases_to!(p => *children));
            let ghost all = program::node_models(*children);
            let mut i: usize = 0;
            while i < children.len()
                invariant
                    i <= children@.len(),
                    p == (IrNode::Sequence { children: *children }),
                    decreases_to!(p => *children),
                    all == program::node_models(*children),
                    list_key(all, 0) == list_key(all, i as nat),
                decreases children@.len() - i,
            {
                assert(all[i as int] == children@[i as int].model());
                assert(decreases_to!(*children => children@[i as int]));
                if let Some(k) = choice_branch_infoset_local_key(&children[i]) {
                    return Some(k);
                }
                i += 1;
            }
            None
        },
        IrNode::Choice { branches } => {
            assert(decreases_to!(p => *branches));
            let ghost all = program::branch_models(*branches);
            let mut i: usize = 0;
            while i < branches.len()
                invariant
                    i <= branches@.len(),
                    p == (IrNode::Choice { branches: *branches }),
                    decreases_to!(p => *branches),
                    all == program::branch_models(*branches),
                    branches_key(all, 0) == branches_key(all, i as nat),
                decreases branches@.len() - i,
            {
                assert(all[i as int] == branches@[i as int].model());
                assert(decreases_to!(*branches => branches@[i as int]));
                if let Some(k) = choice_branch_infoset_local_key(&branches[i].node) {
                    return Some(k);
                }
                i += 1;
            }
            None
        },
    }
}

/// Whether an infoset node holds the first element that a branch needs.
pub open spec fn branch_matches(p: IrNodeModel, n: InfosetNodeModel) -> bool {
    match branch_key(p) {
        Some(k) => named(n, k).len() > 0,
        None => false,
    }
}

fn is_held(n: &InfosetNode, local: &str) -> (r: bool)
    ensures
        r == (named(n@, local@).len() > 0),
{
    let l = find_infoset_children(n, local);
    assert(node_refs(l@).len() == l@.len());
    l.len() > 0
}

fn choice_branch_infoset_matches(p: &IrNode, n: &InfosetNode) -> (r: bool)
    ensures
        r == branch_matches(p@, n@),
{
    match choice_branch_infoset_local_key(p) {
        Some(k) => is_held(n, k.as_str()),
        None => false,
    }
}

// How often an element occurs.
/// The number of occurrences that a path leads to.
pub open spec fn path_count(
    steps: Seq<program::IrInputPathStepModel>,
    n: InfosetNodeModel,
) -> Result<u64, Seq<char>> {
    if steps.len() == 0 {
        Err("empty occursCount path"@)
    } else {
        let local = qname::local_spec(steps[0].local);
        let found = named(n, local);
        let at: int = match steps[0].index {
            Some(k) if k > 0 => k - 1,
            _ => 0,
        };
        if at >= found.len() {
            Err(
                match steps[0].index {
                    Some(k) => "occursCount path missing `"@ + local + "["@ + numbers::decimal(
                        k as nat,
                    ) + "]`"@,
                    None => "occursCount path missing `"@ + local + "`"@,
                },
            )
        } else {
            match found[at].text {
                Some(t) => match numbers::u64_spec(text::trim_spec(t)) {
                    Some(v) => Ok(v),
                    None => Err("occursCount path `"@ + local + "` not numeric"@),
                },
                None => Ok(found.len() as u64),
            }
        }
    }
}

/// A count, or why there is none.
pub open spec fn count_view(r: Result<u64, String>) -> Result<u64, Seq<char>> {
    match r {
        Ok(v) => Ok(v),
        Err(e) => Err(e@),
    }
}

fn eval_occurs_count_from_infoset(steps: &Vec<program::IrInputPathStep>, n: &InfosetNode) -> (r:
    Result<u64, String>)
    ensures
        count_view(r) == path_count(steps.deep_view(), n@),
{
    assert(steps.deep_view().len() == steps@.len());
    if steps.len() == 0 {
        return Err(owned("empty occursCount path"));
    }
    let step = &steps[0];
    assert(steps.deep_view()[0] == step.deep_view());
    let local = local_name_from_qname(step.local.as_str());
    let found = find_infoset_children(n, local.as_str());
    let ghost all = named(n@, local@);
    assert(all.len() == found@.len());
    let at: u64 = match step.index {
        Some(k) => if k > 0 {
            k - 1
        } else {
            0
        },
        None => 0,
    };
    if at >= found.len() as u64 {
        return Err(
            match step.index {
                Some(k) => {
                    let d = decimal_text(k);
                    cat5("occursCount path missing `", local.as_str(), "[", d.as_str(), "]`")
                },
                None => cat3("occursCount path missing `", local.as_str(), "`"),
            },
        );
    }
    let node = found[at as usize];
    assert(all[at as int] == node.model());
    match &node.text {
        Some(t) => {
            let c = chars_of(t.as_str());
            match parse_u64(trim(c.as_slice())) {
                Some(v) => Ok(v),
                None => Err(cat3("occursCount path `", local.as_str(), "` not numeric")),
            }
        },
        None => Ok(found.len() as u64),
    }
}

/// The largest number of occurrences that can be written.
pub open spec fn occurs_limit(p: IrPropsModel, n: InfosetNodeModel) -> Result<u64, Seq<char>> {
    if p.occurs_count_kind == OccursCountKind::Expression && p.occurs_min == 0 {
        Ok(u64::MAX)
    } else if p.occurs_count_kind == OccursCountKind::Expression && p.occurs_count_fn_path is Some {
        path_count(p.occurs_count_fn_path->0, n)
    } else if p.occurs_count_kind == OccursCountKind::Parsed && p.occurs_min == 0 && p.occurs_max
        == Some(1u64) {
        Ok(u64::MAX)
    } else {
        Ok(
            match p.occurs_max {
                Some(m) => m,
                None => u64::MAX,
            },
        )
    }
}

fn effective_occurs_max_for_unparse(p: &IrProps, n: &InfosetNode) -> (r: Result<u64, String>)
    ensures
        count_view(r) == occurs_limit(p@, n@),
{
    if p.occurs_count_kind == OccursCountKind::Expression {
        if p.occurs_min == 0 {
            return Ok(u64::MAX);
        }
        if let Some(steps) = &p.occurs_count_fn_path {
            return eval_occurs_count_from_infoset(steps, n);
        }
    }
    if p.occurs_count_kind == OccursCountKind::Parsed && p.occurs_min == 0 && p.occurs_max == Some(
        1u64,
    ) {
        return Ok(u64::MAX);
    }
    Ok(
        match p.occurs_max {
            Some(m) => m,
            None => u64::MAX,
        },
    )
}

/// The message for an element that is missing where what holds it ends.
pub open spec fn missing_message(name: Seq<char>, parent: Seq<char>) -> Seq<char> {
    "Unparse Error: Expected element start event for "@ + name
        + ", but received element end event for "@ + parent
}

fn missing_text(name: &str, parent: &str) -> (r: String)
    ensures
        r@ == missing_message(name@, parent@),
{
    cat4(
        "Unparse Error: Expected element start event for ",
        name,
        ", but received element end event for ",
        parent,
    )
}

/// What stands behind occurrences that are too few, for messages.
pub open spec fn end_event(
    p: IrPropsModel,
    f: FormModel,
    parent: Seq<char>,
    next: Option<IrNodeModel>,
) -> Seq<char> {
    match next {
        Some(IrNodeModel::Element { name, .. }) if p.occurs_count_kind
            == OccursCountKind::Expression => braced(qname::local_spec(name), f.target_ns),
        _ => parent,
    }
}

fn end_event_name(p: &IrProps, f: &Form, parent: &str, children: &Vec<IrNode>, i: usize) -> (r:
    String)
    requires
        i < children@.len(),
    ensures
        r@ == end_event(p@, f@, parent@, part_at(program::node_models(*children), i + 1)),
{
    let ghost all = program::node_models(*children);
    if p.occurs_count_kind == OccursCountKind::Expression && i < children.len() - 1 {
        assert(all[i + 1] == children@[i + 1].model());
        if let IrNode::Element { name, .. } = &children[i + 1] {
            let local = local_name_from_qname(name.as_str());
            return qname_for_error(local.as_str(), &f.target_ns);
        }
    }
    owned(parent)
}

/// The part at this position, if there is one.
pub open spec fn part_at(children: Seq<IrNodeModel>, i: int) -> Option<IrNodeModel> {
    if 0 <= i < children.len() {
        Some(children[i])
    } else {
        None
    }
}

/// The message for occurrences that are too few.
pub open spec fn too_few(
    name: Seq<char>,
    p: IrPropsModel,
    count: nat,
    f: FormModel,
    parent: Seq<char>,
    next: Option<IrNodeModel>,
) -> Seq<char> {
    if p.occurs_count_kind == OccursCountKind::Parsed || (p.occurs_min == 1 && count == 0) {
        missing_message(name, parent)
    } else {
        "Unparse Error: Expected "@ + numbers::decimal((p.occurs_min - count) as nat)
            + " additional "@ + braced(
            qname::local_spec(name),
            if f.qualified {
                f.target_ns
            } else {
                None
            },
        ) + " received "@ + (if p.occurs_min > 1 {
            "array end"@
        } else {
            "element end"@
        }) + " event for "@ + end_event(p, f, parent, next)
    }
}

fn too_few_text(
    name: &str,
    p: &IrProps,
    count: u64,
    f: &Form,
    parent: &str,
    children: &Vec<IrNode>,
    i: usize,
) -> (r: String)
    requires
        i < children@.len(),
        count < p.occurs_min,
    ensures
        r@ == too_few(
            name@,
            p@,
            count as nat,
            f@,
            parent@,
            part_at(program::node_models(*children), i + 1),
        ),
{
    if p.occurs_count_kind == OccursCountKind::Parsed || (p.occurs_min == 1 && count == 0) {
        return missing_text(name, parent);
    }
    let needed = decimal_text(p.occurs_min - count);
    let local = local_name_from_qname(name);
    let nothing: Option<String> = None;
    let q = if f.qualified {
        qname_for_error(local.as_str(), &f.target_ns)
    } else {
        qname_for_error(local.as_str(), &nothing)
    };
    let end = end_event_name(p, f, parent, children, i);
    let kind = if p.occurs_min > 1 {
        "array end"
    } else {
        "element end"
    };
    cat8(
        "Unparse Error: Expected ",
        needed.as_str(),
        " additional ",
        q.as_str(),
        " received ",
        kind,
        " event for ",
        end.as_str(),
    )
}

/// The message for occurrences that are too many.
pub open spec fn too_many(name: Seq<char>, max: u64, f: FormModel, parent: Seq<char>) -> Seq<char> {
    let q = braced(qname::local_spec(name), f.target_ns);
    let at = if text::has_prefix(parent, "{"@) {
        parent
    } else {
        braced(parent, f.target_ns)
    };
    if max > 1 {
        "Unparse Error: Expected array end event for "@ + q
            + ", but received element start event for "@ + q + " at "@ + at
    } else {
        "Unparse Error: "@ + q + " expected element end, but received start event for "@ + q
            + " at "@ + at
    }
}

fn too_many_text(name: &str, max: u64, f: &Form, parent: &str) -> (r: String)
    ensures
        r@ == too_many(name@, max, f@, parent@),
{
    let local = local_name_from_qname(name);
    let q = qname_for_error(local.as_str(), &f.target_ns);
    let c = chars_of(parent);
    let at = if text::starts_with(c.as_slice(), "{") {
        owned(parent)
    } else {
        qname_for_error(parent, &f.target_ns)
    };
    if max > 1 {
        cat6(
            "Unparse Error: Expected array end event for ",
            q.as_str(),
            ", but received element start event for ",
            q.as_str(),
            " at ",
            at.as_str(),
        )
    } else {
        cat6(
            "Unparse Error: ",
            q.as_str(),
            " expected element end, but received start event for ",
            q.as_str(),
            " at ",
            at.as_str(),
        )
    }
}

/// Why an element occurs too seldom or too often.
pub open spec fn count_fault(
    name: Seq<char>,
    p: IrPropsModel,
    n: InfosetNodeModel,
    f: FormModel,
    parent: Seq<char>,
    next: Option<IrNodeModel>,
) -> Option<Seq<char>> {
    let count = named(n, qname::local_spec(name)).len();
    match occurs_limit(p, n) {
        Err(e) => Some(e),
        Ok(max) => if count < p.occurs_min {
            Some(too_few(name, p, count, f, parent, next))
        } else if count > max {
            Some(too_many(name, max, f, parent))
        } else {
            None
        },
    }
}

fn check_count(
    name: &str,
    p: &IrProps,
    count: usize,
    n: &InfosetNode,
    f: &Form,
    parent: &str,
    children: &Vec<IrNode>,
    i: usize,
) -> (r: Result<(), String>)
    requires
        i < children@.len(),
        count == named(n@, qname::local_spec(name@)).len(),
    ensures
        compare::verdict(r) == count_fault(
            name@,
            p@,
            n@,
            f@,
            parent@,
            part_at(program::node_models(*children), i + 1),
        ),
{
    let max = match effective_occurs_max_for_unparse(p, n) {
        Ok(m) => m,
        Err(e) => {
            return Err(e);
        },
    };
    let c: u64 = count as u64;
    if c < p.occurs_min {
        return Err(too_few_text(name, p, c, f, parent, children, i));
    }
    if c > max {
        return Err(too_many_text(name, max, f, parent));
    }
    Ok(())
}

// What the parts of a sequence need.
/// Whether a part of a sequence from `i` on is an element of this local name.
pub open spec fn allows(children: Seq<IrNodeModel>, i: nat, local: Seq<char>) -> bool
    decreases children, children.len() - i,
{
    i < children.len() && (part_allows(children[i as int], local) || allows(
        children,
        i + 1,
        local,
    ))
}

/// Whether a part is, or holds beside other parts, an element of this local name.
pub open spec fn part_allows(p: IrNodeModel, local: Seq<char>) -> bool
    decreases p, 0int,
{
    match p {
        IrNodeModel::Element { name, .. } => qname::local_spec(name) == local,
        IrNodeModel::Sequence { children } => allows(children, 0, local),
        IrNodeModel::Choice { branches } => branch_allows(branches, 0, local),
    }
}

/// Whether a branch from `i` on is, or holds, an element of this local name.
pub open spec fn branch_allows(branches: Seq<ChoiceBranchModel>, i: nat, local: Seq<char>) -> bool
    decreases branches, branches.len() - i,
{
    i < branches.len() && (part_allows(branches[i as int].node, local) || branch_allows(
        branches,
        i + 1,
        local,
    ))
}

fn part_allows_child(p: &IrNode, local: &str) -> (r: bool)
    ensures
        r == part_allows(p@, local@),
    decreases p,
{
    match p {
        IrNode::Element { name, .. } => {
            let l = local_name_from_qname(name.as_str());
            eq(l.as_str(), local)
        },
        IrNode::Sequence { children } => sequence_allows_child_local(children, local),
        IrNode::Choice { branches } => {
            assert(decreases_to!(p => *branches));
            let ghost all = program::branch_models(*branches);
            let mut i: usize = 0;
            while i < branches.len()
                invariant
                    i <= branches@.len(),
                    p == (IrNode::Choice { branches: *branches }),
                    decreases_to!(p => *branches),
                    all == program::branch_models(*branches),
                    branch_allows(all, 0, local@) == branch_allows(all, i as nat, local@),
                decreases branches@.len() - i,
            {
                assert(all[i as int] == branches@[i as int].model());
                assert(decreases_to!(*branches => branches@[i as int]));
                if part_allows_child(&branches[i].node, local) {
                    return true;
                }
                i += 1;
            }
            false
        },
    }
}

fn sequence_allows_child_local(children: &Vec<IrNode>, local: &str) -> (r: bool)
    ensures
        r == allows(program::node_models(*children), 0, local@),
    decreases children,
{
    let ghost all = program::node_models(*children);
    let mut i: usize = 0;
    while i < children.len()
        invariant
            i <= children@.len(),
            all == program::node_models(*children),
            allows(all, 0, local@) == allows(all, i as nat, local@),
        decreases children@.len() - i,
    {
        assert(all[i as int] == children@[i as int].model());
        assert(decreases_to!(children => children@[i as int]));
        if part_allows_child(&children[i], local) {
            return true;
        }
        i += 1;
    }
    false
}

/// The local name of the first element of a sequence from `i` on that occurs too
/// seldom.
pub open spec fn next_missing(children: Seq<IrNodeModel>, i: nat, n: InfosetNodeModel) -> Option<
    Seq<char>,
>
    decreases children, children.len() - i,
{
    if i >= children.len() {
        None
    } else {
        match part_missing(children[i as int], n) {
            Some(l) => Some(l),
            None => next_missing(children, i + 1, n),
        }
    }
}

/// The local name of the first element of a part that occurs too seldom; of a
/// choice, in the branch that the infoset holds.
pub open spec fn part_missing(p: IrNodeModel, n: InfosetNodeModel) -> Option<Seq<char>>
    decreases p, 0int,
{
    match p {
        IrNodeModel::Element { name, props, .. } => {
            let local = qname::local_spec(name);
            if !props.hidden && !props.output_value_calc && named(n, local).len()
                < props.occurs_min {
                Some(local)
            } else {
                None
            }
        },
        IrNodeModel::Sequence { children } => next_missing(children, 0, n),
        IrNodeModel::Choice { branches } => branch_missing(branches, 0, n),
    }
}

/// Of the first branch from `i` on that the infoset holds, the first element that
/// occurs too seldom.
pub open spec fn branch_missing(
    branches: Seq<ChoiceBranchModel>,
    i: nat,
    n: InfosetNodeModel,
) -> Option<Seq<char>>
    decreases branches, branches.len() - i,
{
    if i >= branches.len() {
        None
    } else if named(n, branches[i as int].name).len() > 0 {
        part_missing(branches[i as int].node, n)
    } else {
        branch_missing(branches, i + 1, n)
    }
}

fn part_missing_local(p: &IrNode, n: &InfosetNode) -> (r: Option<String>)
    ensures
        text::str_opt(r) == part_missing(p@, n@),
    decreases p,
{
    match p {
        IrNode::Element { name, props, .. } => {
            if props.hidden || props.output_value_calc {
                return None;
            }
            let local = local_name_from_qname(name.as_str());
            let found = find_infoset_children(n, local.as_str());
            assert(node_refs(found@).len() == found@.len());
            if (found.len() as u64) < props.occurs_min {
                Some(local)
            } else {
                None
            }
        },
        IrNode::Sequence { children } => sequence_next_missing_local(children, n),
        IrNode::Choice { branches } => {
            assert(decreases_to!(p => *branches));
            let ghost all = program::branch_models(*branches);
            let mut i: usize = 0;
            while i < branches.len()
                invariant
                    i <= branches@.len(),
                    p == (IrNode::Choice { branches: *branches }),
                    decreases_to!(p => *branches),
                    all == program::branch_models(*branches),
                    branch_missing(all, 0, n@) == branch_missing(all, i as nat, n@),
                decreases branches@.len() - i,
            {
                assert(all[i as int] == branches@[i as int].model());
                assert(decreases_to!(*branches => branches@[i as int]));
                if is_held(n, branches[i].name.as_str()) {
                    return part_missing_local(&branches[i].node, n);
                }
                i += 1;
            }
            None
        },
    }
}

fn sequence_next_missing_local(children: &Vec<IrNode>, n: &InfosetNode) -> (r: Option<String>)
    ensures
        text::str_opt(r) == next_missing(program::node_models(*children), 0, n@),
    decreases children,
{
    let ghost all = program::node_models(*children);
    let mut i: usize = 0;
    while i < children.len()
        invariant
            i <= children@.len(),
            all == program::node_models(*children),
            next_missing(all, 0, n@) == next_missing(all, i as nat, n@),
        decreases children@.len() - i,
    {
        assert(all[i as int] == children@[i as int].model());
        assert(decreases_to!(children => children@[i as int]));
        if let Some(l) = part_missing_local(&children[i], n) {
            return Some(l);
        }
        i += 1;
    }
    None
}

/// The local name of the last element of a part that stands in an infoset; of a
/// choice, in its first branch that has one.
pub open spec fn last_required(p: IrNodeModel) -> Option<Seq<char>>
    decreases p, 0int,
{
    match p {
        IrNodeModel::Element { name, props, .. } => if props.hidden || props.output_value_calc {
            None
        } else {
            Some(qname::local_spec(name))
        },
        IrNodeModel::Sequence { children } => last_of(children, children.len()),
        IrNodeModel::Choice { branches } => first_last(branches, 0),
    }
}

/// The last such name of the first `k` parts.
pub open spec fn last_of(children: Seq<IrNodeModel>, k: nat) -> Option<Seq<char>>
    decreases children, k,
{
    if k == 0 || k > children.len() {
        None
    } else {
        match last_required(children[k - 1]) {
            Some(l) => Some(l),
            None => last_of(children, (k - 1) as nat),
        }
    }
}

/// The first such name of the branches from `i` on.
pub open spec fn first_last(branches: Seq<ChoiceBranchModel>, i: nat) -> Option<Seq<char>>
    decreases branches, branches.len() - i,
{
    if i >= branches.len() {
        None
    } else {
        match last_required(branches[i as int].node) {
            Some(l) => Some(l),
            None => first_last(branches, i + 1),
        }
    }
}

fn sequence_last_required_local(p: &IrNode) -> (r: Option<String>)
    ensures
        text::str_opt(r) == last_required(p@),
    decreases p,
{
    match p {
        IrNode::Element { name, props, .. } => {
            if props.hidden || props.output_value_calc {
                None
            } else {
                Some(local_name_from_qname(name.as_str()))
            }
        },
        IrNode::Sequence { children } => {
            assert(decreases_to!(p => *children));
            let ghost all = program::node_models(*children);
            let mut last: Option<String> = None;
            let mut i: usize = 0;
            while i < children.len()
                invariant
                    i <= children@.len(),
                    p == (IrNode::Sequence { children: *children }),
                    decreases_to!(p => *children),
                    all == program::node_models(*children),
                    text::str_opt(last) == last_of(all, i as nat),
                decreases children@.len() - i,
            {
                assert(all[i as int] == children@[i as int].model());
                assert(decreases_to!(*children => children@[i as int]));
                if let Some(l) = sequence_last_required_local(&children[i]) {
                    last = Some(l);
                }
                i += 1;
            }
            last
        },
        IrNode::Choice { branches } => {
            assert(decreases_to!(p => *branches));
            let ghost all = program::branch_models(*branches);
            let mut i: usize = 0;
            while i < branches.len()
                invariant
                    i <= branches@.len(),
                    p == (IrNode::Choice { branches: *branches }),
                    decreases_to!(p => *branches),
                    all == program::branch_models(*branches),
                    first_last(all, 0) == first_last(all, i as nat),
                decreases branches@.len() - i,
            {
                assert(all[i as int] == branches@[i as int].model());
                assert(decreases_to!(*branches => branches@[i as int]));
                if let Some(l) = sequence_last_required_local(&branches[i].node) {
                    return Some(l);
                }
                i += 1;
            }
            None
        },
    }
}

/// The first branch from `i` on whose first needed element the infoset holds.
pub open spec fn matching_branch(
    branches: Seq<ChoiceBranchModel>,
    i: nat,
    n: InfosetNodeModel,
) -> Option<nat>
    decreases branches.len() - i,
{
    if i >= branches.len() {
        None
    } else if branch_matches(branches[i as int].node, n) {
        Some(i)
    } else {
        matching_branch(branches, i + 1, n)
    }
}

fn find_matching(branches: &Vec<ChoiceBranch>, n: &InfosetNode) -> (r: Option<usize>)
    ensures
        match r {
            Some(i) => matching_branch(program::branch_models(*branches), 0, n@) == Some(i as nat)
                && i < branches@.len(),
            None => matching_branch(program::branch_models(*branches), 0, n@) is None,
        },
{
    let ghost all = program::branch_models(*branches);
    let mut i: usize = 0;
    while i < branches.len()
        invariant
            i <= branches@.len(),
            all == program::branch_models(*branches),
            matching_branch(all, 0, n@) == matching_branch(all, i as nat, n@),
        decreases branches@.len() - i,
    {
        assert(all[i as int] == branches@[i as int].model());
        if choice_branch_infoset_matches(&branches[i].node, n) {
            return Some(i);
        }
        i += 1;
    }
    None
}

/// Of the first choice of a sequence from `i` on with a branch that matches, the
/// last element of that branch.
pub open spec fn active_tail(children: Seq<IrNodeModel>, i: nat, n: InfosetNodeModel) -> Option<
    Seq<char>,
>
    decreases children.len() - i,
{
    if i >= children.len() {
        None
    } else {
        match children[i as int] {
            IrNodeModel::Choice { branches } => match matching_branch(branches, 0, n) {
                Some(k) => last_required(branches[k as int].node),
                None => active_tail(children, i + 1, n),
            },
            _ => active_tail(children, i + 1, n),
        }
    }
}

fn sequence_active_branch_tail_local(children: &Vec<IrNode>, n: &InfosetNode) -> (r: Option<String>)
    ensures
        text::str_opt(r) == active_tail(program::node_models(*children), 0, n@),
{
    let ghost all = program::node_models(*children);
    let mut i: usize = 0;
    while i < children.len()
        invariant
            i <= children@.len(),
            all == program::node_models(*children),
            active_tail(all, 0, n@) == active_tail(all, i as nat, n@),
        decreases children@.len() - i,
    {
        assert(all[i as int] == children@[i as int].model());
        if let IrNode::Choice { branches } = &children[i] {
            if let Some(k) = find_matching(branches, n) {
                assert(program::branch_models(*branches)[k as int] == branches@[k as int].model());
                return sequence_last_required_local(&branches[k].node);
            }
        }
        i += 1;
    }
    None
}

/// The local name of the element that is expected where another one stands.
pub open spec fn expected_instead(children: Seq<IrNodeModel>, n: InfosetNodeModel) -> Option<
    Seq<char>,
> {
    match next_missing(children, 0, n) {
        Some(l) => Some(l),
        None => match active_tail(children, 0, n) {
            Some(l) => Some(l),
            None => if named(n, "nack"@).len() > 0 {
                Some("nackInfo"@)
            } else {
                None
            },
        },
    }
}

fn find_expected(children: &Vec<IrNode>, n: &InfosetNode) -> (r: Option<String>)
    ensures
        text::str_opt(r) == expected_instead(program::node_models(*children), n@),
{
    if let Some(l) = sequence_next_missing_local(children, n) {
        return Some(l);
    }
    if let Some(l) = sequence_active_branch_tail_local(children, n) {
        return Some(l);
    }
    if is_held(n, "nack") {
        Some(owned("nackInfo"))
    } else {
        None
    }
}

/// The message for an element that does not belong.
pub open spec fn stray_message(
    children: Seq<IrNodeModel>,
    n: InfosetNodeModel,
    key: Seq<char>,
    f: FormModel,
    parent: Seq<char>,
) -> Seq<char> {
    let ns = if f.qualified {
        f.target_ns
    } else {
        None
    };
    let q = braced(qname::local_spec(key), ns);
    match expected_instead(children, n) {
        Some(l) => "Unparse Error: Expected element start event for "@ + braced(l, ns)
            + ", but received element start event for (invalid) "@ + q + " at "@ + parent,
        None => "Unparse Error: "@ + q
            + " expected element end, but received start event for "@ + key + " at "@ + parent,
    }
}

/// Why an element under the names from `i` on does not belong.
pub open spec fn stray_fault(
    children: Seq<IrNodeModel>,
    n: InfosetNodeModel,
    i: nat,
    f: FormModel,
    parent: Seq<char>,
) -> Option<Seq<char>>
    decreases n.children.len() - i,
{
    if i >= n.children.len() {
        None
    } else {
        let key = n.children[i as int].0;
        if allows(children, 0, qname::local_spec(key)) || n.children[i as int].1.len() == 0 {
            stray_fault(children, n, i + 1, f, parent)
        } else {
            Some(stray_message(children, n, key, f, parent))
        }
    }
}

fn stray_text(children: &Vec<IrNode>, n: &InfosetNode, key: &str, f: &Form, parent: &str) -> (r:
    String)
    ensures
        r@ == stray_message(program::node_models(*children), n@, key@, f@, parent@),
{
    let nothing: Option<String> = None;
    let local = local_name_from_qname(key);
    let ns = if f.qualified {
        &f.target_ns
    } else {
        &nothing
    };
    let q = qname_for_error(local.as_str(), ns);
    match find_expected(children, n) {
        Some(l) => {
            let e = qname_for_error(l.as_str(), ns);
            cat6(
                "Unparse Error: Expected element start event for ",
                e.as_str(),
                ", but received element start event for (invalid) ",
                q.as_str(),
                " at ",
                parent,
            )
        },
        None => cat6(
            "Unparse Error: ",
            q.as_str(),
            " expected element end, but received start event for ",
            key,
            " at ",
            parent,
        ),
    }
}

fn check_strays(children: &Vec<IrNode>, n: &InfosetNode, f: &Form, parent: &str) -> (r: Result<
    (),
    String,
>)
    ensures
        compare::verdict(r) == stray_fault(
            program::node_models(*children),
            n@,
            0,
            f@,
            parent@,
        ),
{
    let ghost all = program::node_models(*children);
    let mut i: usize = 0;
    while i < n.children.entries.len()
        invariant
            i <= n.children.entries@.len(),
            all == program::node_models(*children),
            stray_fault(all, n@, 0, f@, parent@) == stray_fault(all, n@, i as nat, f@, parent@),
        decreases n.children.entries@.len() - i,
    {
        let e = &n.children.entries[i];
        assert(n@.children[i as int] == (e.0@, infoset::list_models(e.1)));
        let local = local_name_from_qname(e.0.as_str());
        let fits = sequence_allows_child_local(children, local.as_str()) || e.1.len() == 0;
        if !fits {
            return Err(stray_text(children, n, e.0.as_str(), f, parent));
        }
        i += 1;
    }
    Ok(())
}

// All parts.
/// The first branch from `i` on whose name the infoset holds.
pub open spec fn named_branch(
    branches: Seq<ChoiceBranchModel>,
    i: nat,
    n: InfosetNodeModel,
) -> Option<nat>
    decreases branches.len() - i,
{
    if i >= branches.len() {
        None
    } else if named(n, branches[i as int].name).len() > 0 {
        Some(i)
    } else {
        named_branch(branches, i + 1, n)
    }
}

fn find_named_branch(branches: &Vec<ChoiceBranch>, n: &InfosetNode) -> (r: Option<usize>)
    ensures
        match r {
            Some(i) => named_branch(program::branch_models(*branches), 0, n@) == Some(i as nat) && i
                < branches@.len() && named(n@, branches@[i as int].name@).len() > 0,
            None => named_branch(program::branch_models(*branches), 0, n@) is None,
        },
{
    let ghost all = program::branch_models(*branches);
    let mut i: usize = 0;
    while i < branches.len()
        invariant
            i <= branches@.len(),
            all == program::branch_models(*branches),
            named_branch(all, 0, n@) == named_branch(all, i as nat, n@),
        decreases branches@.len() - i,
    {
        assert(all[i as int] == branches@[i as int].model());
        if is_held(n, branches[i].name.as_str()) {
            return Some(i);
        }
        i += 1;
    }
    None
}

/// Whether a branch from `i` on needs nothing of an infoset.
pub open spec fn has_silent(branches: Seq<ChoiceBranchModel>, i: nat) -> bool
    decreases branches.len() - i,
{
    i < branches.len() && (branches[i as int].node == (IrNodeModel::Sequence {
        children: Seq::empty(),
    }) || can_be_absent(branches[i as int].node) || has_silent(branches, i + 1))
}

fn has_silent_branch(branches: &Vec<ChoiceBranch>) -> (r: bool)
    ensures
        r == has_silent(program::branch_models(*branches), 0),
{
    let ghost all = program::branch_models(*branches);
    let mut i: usize = 0;
    while i < branches.len()
        invariant
            i <= branches@.len(),
            all == program::branch_models(*branches),
            has_silent(all, 0) == has_silent(all, i as nat),
        decreases branches@.len() - i,
    {
        assert(all[i as int] == branches@[i as int].model());
        let empty = match &branches[i].node {
            IrNode::Sequence { children } => {
                assert(program::node_models(*children).len() == children@.len());
                assert(children@.len() == 0 ==> program::node_models(*children) =~= Seq::empty());
                children.len() == 0
            },
            _ => false,
        };
        if empty || ir_particle_can_absent_from_unparse_infoset(&branches[i].node) {
            return true;
        }
        i += 1;
    }
    false
}

/// The local names that a choice expects, of the first `k` branches.
pub open spec fn expected_names(branches: Seq<ChoiceBranchModel>, k: nat) -> Seq<Seq<char>>
    decreases k,
{
    if k == 0 || k > branches.len() {
        Seq::empty()
    } else {
        expected_names(branches, (k - 1) as nat).push(
            match branch_key(branches[k - 1].node) {
                Some(l) => l,
                None => qname::local_spec(branches[k - 1].name),
            },
        )
    }
}

fn expected_list(branches: &Vec<ChoiceBranch>) -> (r: Vec<String>)
    ensures
        r.deep_view() == expected_names(
            program::branch_models(*branches),
            program::branch_models(*branches).len(),
        ),
{
    let ghost all = program::branch_models(*branches);
    let mut out: Vec<String> = Vec::new();
    let mut i: usize = 0;
    assert(out.deep_view() =~= expected_names(all, 0));
    while i < branches.len()
        invariant
            i <= branches@.len(),
            all == program::branch_models(*branches),
            out.deep_view() == expected_names(all, i as nat),
        decreases branches@.len() - i,
    {
        assert(all[i as int] == branches@[i as int].model());
        let ghost prev = out.deep_view();
        let l = match choice_branch_infoset_local_key(&branches[i].node) {
            Some(l) => l,
            None => local_name_from_qname(branches[i].name.as_str()),
        };
        out.push(l);
        assert(out.deep_view() =~= prev.push(l@));
        i += 1;
    }
    out
}

/// The local names, of the first `k`, that are not among those expected.
pub open spec fn unexpected_names(
    children: Seq<(Seq<char>, Seq<InfosetNodeModel>)>,
    k: nat,
    expected: Seq<Seq<char>>,
) -> Seq<Seq<char>>
    decreases k,
{
    if k == 0 || k > children.len() {
        Seq::empty()
    } else {
        let before = unexpected_names(children, (k - 1) as nat, expected);
        let local = qname::local_spec(children[k - 1].0);
        if expected.contains(local) {
            before
        } else {
            before.push(local)
        }
    }
}

fn is_among(list: &Vec<String>, name: &str) -> (r: bool)
    ensures
        r == list.deep_view().contains(name@),
{
    let mut i: usize = 0;
    while i < list.len()
        invariant
            i <= list@.len(),
            forall|k: int| 0 <= k < i ==> #[trigger] list.deep_view()[k] != name@,
        decreases list@.len() - i,
    {
        assert(list.deep_view()[i as int] == list@[i as int]@);
        if eq(list[i].as_str(), name) {
            return true;
        }
        i += 1;
    }
    false
}

fn unexpected_list(n: &InfosetNode, expected: &Vec<String>) -> (r: Vec<String>)
    ensures
        r.deep_view() == unexpected_names(n@.children, n@.children.len(), expected.deep_view()),
{
    let mut out: Vec<String> = Vec::new();
    let mut i: usize = 0;
    assert(out.deep_view() =~= unexpected_names(n@.children, 0, expected.deep_view()));
    while i < n.children.entries.len()
        invariant
            i <= n.children.entries@.len(),
            out.deep_view() == unexpected_names(n@.children, i as nat, expected.deep_view()),
        decreases n.children.entries@.len() - i,
    {
        let e = &n.children.entries[i];
        assert(n@.children[i as int] == (e.0@, infoset::list_models(e.1)));
        let ghost prev = out.deep_view();
        let local = local_name_from_qname(e.0.as_str());
        if !is_among(expected, local.as_str()) {
            out.push(local);
            assert(out.deep_view() =~= prev.push(local@));
        }
        i += 1;
    }
    assert(n@.children.len() == i);
    out
}

/// The message for a choice none of whose branches the infoset holds.
pub open spec fn no_branch_message(
    branches: Seq<ChoiceBranchModel>,
    n: InfosetNodeModel,
    parent: Seq<char>,
) -> Seq<char> {
    let expected = expected_names(branches, branches.len());
    let found = unexpected_names(n.children, n.children.len(), expected);
    if branches.len() == 0 {
        "Unparse Error: infoset does not match any choice branch under `"@ + parent + "`"@
    } else if found.len() > 0 {
        "Unparse Error: Found "@ + text::joined(found, ", "@) + ", expected one of "@ + text::joined(expected, ", "@)
            + " at "@ + parent
    } else {
        "Unparse Error: Expected one of "@ + text::joined(expected, ", "@) + " at "@ + parent
    }
}

fn no_branch_text(branches: &Vec<ChoiceBranch>, n: &InfosetNode, parent: &str) -> (r: String)
    ensures
        r@ == no_branch_message(program::branch_models(*branches), n@, parent@),
{
    if branches.len() == 0 {
        return cat3(
            "Unparse Error: infoset does not match any choice branch under `",
            parent,
            "`",
        );
    }
    let expected = expected_list(branches);
    let found = unexpected_list(n, &expected);
    assert(found.deep_view().len() == found@.len());
    let e = join(&expected, ", ");
    if found.len() > 0 {
        let g = join(&found, ", ");
        cat6(
            "Unparse Error: Found ",
            g.as_str(),
            ", expected one of ",
            e.as_str(),
            " at ",
            parent,
        )
    } else {
        cat4("Unparse Error: Expected one of ", e.as_str(), " at ", parent)
    }
}

/// Why an infoset node does not fit a part of the schema.
#[verifier::opaque]
pub open spec fn particle_fault(
    p: IrNodeModel,
    n: InfosetNodeModel,
    f: FormModel,
    parent: Seq<char>,
) -> Option<Seq<char>>
    decreases p, 0int, 0int,
{
    match p {
        IrNodeModel::Element { name, kind, child, props } => {
            let local = qname::local_spec(name);
            if local != qname::local_spec(n.name) {
                Some(missing_message(name, parent))
            } else if (n.nil && props.nillable) || kind != ValueKind::Complex {
                None
            } else {
                match child {
                    None => None,
                    Some(c) => particle_fault(
                        *c,
                        n,
                        f,
                        parent_name(local, f.target_ns, f.qualified),
                    ),
                }
            }
        },
        IrNodeModel::Sequence { children } => match sequence_fault(children, 0, n, f, parent) {
            Some(x) => Some(x),
            None => if f.enforce {
                stray_fault(children, n, 0, f, parent)
            } else {
                None
            },
        },
        IrNodeModel::Choice { branches } => match named_branch(branches, 0, n) {
            Some(i) => if i < branches.len() {
                particle_fault(
                    branches[i as int].node,
                    named(n, branches[i as int].name)[0],
                    f,
                    branches[i as int].name,
                )
            } else {
                None
            },
            None => if has_silent(branches, 0) {
                None
            } else {
                match matching_branch(branches, 0, n) {
                    Some(i) => if i < branches.len() {
                        particle_fault(branches[i as int].node, n, f, parent)
                    } else {
                        None
                    },
                    None => Some(no_branch_message(branches, n, parent)),
                }
            },
        },
    }
}

/// Why an infoset node does not fit the parts of a sequence from `i` on.
#[verifier::opaque]
pub open spec fn sequence_fault(
    children: Seq<IrNodeModel>,
    i: nat,
    n: InfosetNodeModel,
    f: FormModel,
    parent: Seq<char>,
) -> Option<Seq<char>>
    decreases children, children.len() - i, 0int,
{
    if i >= children.len() {
        None
    } else {
        let fault = match children[i as int] {
            IrNodeModel::Element { name, props, .. } => if computed(props) {
                None
            } else {
                match count_fault(name, props, n, f, parent, part_at(children, i as int + 1)) {
                    Some(x) => Some(x),
                    None => occurrences_fault(
                        children[i as int],
                        named(n, qname::local_spec(name)),
                        0,
                        f,
                        parent,
                        parent_name(qname::local_spec(name), f.target_ns, f.qualified),
                        props.occurs_min > 0,
                    ),
                }
            },
            _ => particle_fault(children[i as int], n, f, parent),
        };
        match fault {
            Some(x) => Some(x),
            None => sequence_fault(children, i + 1, n, f, parent),
        }
    }
}

/// Why an occurrence of an element from `j` on does not fit it.
#[verifier::opaque]
pub open spec fn occurrences_fault(
    p: IrNodeModel,
    found: Seq<InfosetNodeModel>,
    j: nat,
    f: FormModel,
    parent: Seq<char>,
    inner: Seq<char>,
    required: bool,
) -> Option<Seq<char>>
    decreases p, 1int, found.len() - j,
{
    if j >= found.len() {
        None
    } else {
        let form = if f.enforce {
            form_fault(found[j as int], f, parent, required)
        } else {
            None
        };
        match form {
            Some(x) => Some(x),
            None => match particle_fault(p, found[j as int], f, inner) {
                Some(x) => Some(x),
                None => occurrences_fault(p, found, j + 1, f, parent, inner, required),
            },
        }
    }
}

/// An infoset node fits a part of the schema.
pub fn validate_infoset_particle(p: &IrNode, n: &InfosetNode, f: &Form, parent: &str) -> (r: Result<
    (),
    String,
>)
    ensures
        compare::verdict(r) == particle_fault(p@, n@, f@, parent@),
    decreases p, 0int,
{
    proof {
        reveal(particle_fault);
        reveal(sequence_fault);
        reveal(occurrences_fault);
    }
    match p {
        IrNode::Element { name, kind, child, props } => {
            let local = local_name_from_qname(name.as_str());
            let have = local_name_from_qname(n.name.as_str());
            if !eq(local.as_str(), have.as_str()) {
                return Err(missing_text(name.as_str(), parent));
            }
            if (n.nil && props.nillable) || *kind != ValueKind::Complex {
                return Ok(());
            }
            match child {
                None => Ok(()),
                Some(c) => {
                    let label = parent_qname(local.as_str(), &f.target_ns, f.qualified);
                    validate_infoset_particle(c, n, f, label.as_str())
                },
            }
        },
        IrNode::Sequence { children } => {
            assert(decreases_to!(p => *children));
            validate_sequence_children(children, n, f, parent)
        },
        IrNode::Choice { branches } => {
            assert(decreases_to!(p => *branches));
            validate_choice(branches, n, f, parent)
        },
    }
}

fn validate_choice(branches: &Vec<ChoiceBranch>, n: &InfosetNode, f: &Form, parent: &str) -> (r:
    Result<(), String>)
    ensures
        compare::verdict(r) == particle_fault(
            IrNodeModel::Choice { branches: program::branch_models(*branches) },
            n@,
            f@,
            parent@,
        ),
    decreases branches, 0int,
{
    proof {
        reveal(particle_fault);
        reveal(sequence_fault);
        reveal(occurrences_fault);
    }
    let ghost all = program::branch_models(*branches);
    if let Some(i) = find_named_branch(branches, n) {
        assert(all[i as int] == branches@[i as int].model());
        assert(decreases_to!(*branches => branches@[i as int]));
        let found = find_infoset_children(n, branches[i].name.as_str());
        assert(node_refs(found@).len() == found@.len());
        assert(node_refs(found@)[0] == found@[0].model());
        return validate_infoset_particle(
            &branches[i].node,
            found[0],
            f,
            branches[i].name.as_str(),
        );
    }
    if has_silent_branch(branches) {
        return Ok(());
    }
    if let Some(i) = find_matching(branches, n) {
        assert(all[i as int] == branches@[i as int].model());
        assert(decreases_to!(*branches => branches@[i as int]));
        return validate_infoset_particle(&branches[i].node, n, f, parent);
    }
    Err(no_branch_text(branches, n, parent))
}

fn check_occurrences(
    p: &IrNode,
    found: &Vec<&InfosetNode>,
    f: &Form,
    parent: &str,
    inner: &str,
    required: bool,
) -> (r: Result<(), String>)
    ensures
        compare::verdict(r) == occurrences_fault(
            p@,
            node_refs(found@),
            0,
            f@,
            parent@,
            inner@,
            required,
        ),
    decreases p, 1int,
{
    let ghost all = node_refs(found@);
    let mut j: usize = 0;
    while j < found.len()
        invariant
            j <= found@.len(),
            all == node_refs(found@),
            all.len() == found@.len(),
            occurrences_fault(p@, all, 0, f@, parent@, inner@, required) == occurrences_fault(
                p@,
                all,
                j as nat,
                f@,
                parent@,
                inner@,
                required,
            ),
        decreases found@.len() - j,
    {
        proof {
            reveal(occurrences_fault);
            reveal(particle_fault);
            assert(all[j as int] == found@[j as int].model());
        }
        if f.enforce {
            match validate_element_form(found[j], f, parent, required) {
                Ok(_) => {},
                Err(e) => {
                    return Err(e);
                },
            }
        }
        match validate_infoset_particle(p, found[j], f, inner) {
            Ok(_) => {},
            Err(e) => {
                return Err(e);
            },
        }
        j += 1;
    }
    proof {
        reveal(occurrences_fault);
        reveal(particle_fault);
    }
    Ok(())
}

/// Why an infoset node does not fit the parts of a sequence, or holds an element
/// that none of them allows.
pub open spec fn children_fault(
    children: Seq<IrNodeModel>,
    n: InfosetNodeModel,
    f: FormModel,
    parent: Seq<char>,
) -> Option<Seq<char>> {
    match sequence_fault(children, 0, n, f, parent) {
        Some(x) => Some(x),
        None => if f.enforce {
            stray_fault(children, n, 0, f, parent)
        } else {
            None
        },
    }
}

/// An infoset node fits the parts of a sequence and holds nothing else.
pub fn validate_sequence_children(
    children: &Vec<IrNode>,
    n: &InfosetNode,
    f: &Form,
    parent: &str,
) -> (r: Result<(), String>)
    ensures
        compare::verdict(r) == children_fault(program::node_models(*children), n@, f@, parent@),
    decreases children, 1int,
{
    match check_parts(children, n, f, parent) {
        Ok(_) => if f.enforce {
            check_strays(children, n, f, parent)
        } else {
            Ok(())
        },
        Err(e) => Err(e),
    }
}

/// An infoset node fits the parts of a sequence.
fn check_parts(children: &Vec<IrNode>, n: &InfosetNode, f: &Form, parent: &str) -> (r: Result<
    (),
    String,
>)
    ensures
        compare::verdict(r) == sequence_fault(
            program::node_models(*children),
            0,
            n@,
            f@,
            parent@,
        ),
    decreases children, 0int,
{
    let ghost all = program::node_models(*children);
    let mut i: usize = 0;
    while i < children.len()
        invariant
            i <= children@.len(),
            all == program::node_models(*children),
            sequence_fault(all, 0, n@, f@, parent@) == sequence_fault(
                all,
                i as nat,
                n@,
                f@,
                parent@,
            ),
        decreases children@.len() - i,
    {
        proof {
            reveal(sequence_fault);
            reveal(occurrences_fault);
            reveal(particle_fault);
            assert(all[i as int] == children@[i as int].model());
            assert(decreases_to!(children => children@[i as int]));
        }
        match &children[i] {
            IrNode::Element { name, props, .. } => {
                if !ir_props_computed_at_unparse(props) {
                    let local = local_name_from_qname(name.as_str());
                    let found = find_infoset_children(n, local.as_str());
                    assert(node_refs(found@).len() == found@.len());
                    match check_count(
                        name.as_str(),
                        props,
                        found.len(),
                        n,
                        f,
                        parent,
                        children,
                        i,
                    ) {
                        Ok(_) => {},
                        Err(e) => {
                            return Err(e);
                        },
                    }
                    let inner = parent_qname(local.as_str(), &f.target_ns, f.qualified);
                    match check_occurrences(
                        &children[i],
                        &found,
                        f,
                        parent,
                        inner.as_str(),
                        props.occurs_min > 0,
                    ) {
                        Ok(_) => {},
                        Err(e) => {
                            return Err(e);
                        },
                    }
                }
            },
            _ => {
                match validate_infoset_particle(&children[i], n, f, parent) {
                    Ok(_) => {},
                    Err(e) => {
                        return Err(e);
                    },
                }
            },
        }
        i += 1;
    }
    proof {
        reveal(sequence_fault);
        reveal(occurrences_fault);
        reveal(particle_fault);
    }
    Ok(())
}

// The whole infoset.
/// The position of the first node with this local name.
pub open spec fn root_at(nodes: Seq<InfosetNodeModel>, root: Seq<char>, i: nat) -> Option<nat>
    decreases nodes.len() - i,
{
    if i >= nodes.len() {
        None
    } else if qname::local_spec(nodes[i as int].name) == root {
        Some(i)
    } else {
        root_at(nodes, root, i + 1)
    }
}

/// The first node with this local name.
pub fn find_root(nodes: &Vec<InfosetNode>, root: &str) -> (r: Option<usize>)
    ensures
        match r {
            Some(i) => i < nodes@.len() && root_at(infoset::list_models(*nodes), root@, 0) == Some(
                i as nat,
            ),
            None => root_at(infoset::list_models(*nodes), root@, 0) is None,
        },
{
    let ghost all = infoset::list_models(*nodes);
    let mut i: usize = 0;
    while i < nodes.len()
        invariant
            i <= nodes@.len(),
            all == infoset::list_models(*nodes),
            root_at(all, root@, 0) == root_at(all, root@, i as nat),
        decreases nodes@.len() - i,
    {
        assert(all[i as int] == nodes@[i as int].model());
        let l = local_name_from_qname(nodes[i].name.as_str());
        if eq(l.as_str(), root) {
            return Some(i);
        }
        i += 1;
    }
    None
}

/// Why the namespace of the root is not that of the schema.
pub open spec fn root_ns_fault(
    n: InfosetNodeModel,
    root: Seq<char>,
    tns: Option<Seq<char>>,
) -> Option<Seq<char>> {
    match real_ns(n.namespace) {
        Some(ns) => if tns is Some && tns != Some(ns) {
            Some("Schema Definition Error: No global element {"@ + ns + "}"@ + root)
        } else {
            None
        },
        None => match real_ns(tns) {
            Some(ns) => Some(
                "Unparse Error: expected element start\n{"@ + ns + "}"@ + root + "\n{}"@ + root,
            ),
            None => None,
        },
    }
}

fn check_root_ns(n: &InfosetNode, root: &str, tns: &Option<String>) -> (r: Result<(), String>)
    ensures
        compare::verdict(r) == root_ns_fault(n@, root@, tns.deep_view()),
{
    if has_namespace(n) {
        if let Some(ns) = &n.namespace {
            if let Some(t) = tns {
                if !eq(ns.as_str(), t.as_str()) {
                    return Err(
                        cat4(
                            "Schema Definition Error: No global element {",
                            ns.as_str(),
                            "}",
                            root,
                        ),
                    );
                }
            }
        }
        return Ok(());
    }
    if let Some(t) = tns {
        let c = chars_of(t.as_str());
        if c.len() > 0 {
            return Err(
                cat6(
                    "Unparse Error: expected element start\n{",
                    t.as_str(),
                    "}",
                    root,
                    "\n{}",
                    root,
                ),
            );
        }
    }
    Ok(())
}

/// How the names of an infoset for this schema are to be written.
pub open spec fn form_of(schema: SchemaDocumentModel, enforce: bool) -> FormModel {
    FormModel {
        qualified: schema.element_form_default_qualified,
        target_ns: schema.target_namespace,
        enforce: enforce && schema.element_form_default_explicit,
    }
}

/// Why the root stands in no namespace where it has to.
pub open spec fn bare_root_fault(
    schema: SchemaDocumentModel,
    n: InfosetNodeModel,
    root: Seq<char>,
    enforce: bool,
) -> Option<Seq<char>> {
    let q = braced(qname::local_spec(n.name), schema.target_namespace);
    if form_of(schema, enforce).enforce && qname::global_element(schema, root) is Some && !has_ns(
        n,
    ) {
        Some(
            "Unparse Error: "@ + q + " expected element start, but received start event for "@
                + braced(qname::local_spec(n.name), None) + " at "@ + q,
        )
    } else {
        None
    }
}

/// Why an infoset cannot be written.
pub open spec fn infoset_fault(
    schema: SchemaDocumentModel,
    program: IrProgramModel,
    root: Seq<char>,
    nodes: Seq<InfosetNodeModel>,
    enforce: bool,
) -> Option<Seq<char>> {
    let f = form_of(schema, enforce);
    match root_at(nodes, root, 0) {
        None => Some("infoset missing root `"@ + root + "`"@),
        Some(i) => {
            let n = nodes[i as int];
            match root_ns_fault(n, root, schema.target_namespace) {
                Some(x) => Some(x),
                None => match bare_root_fault(schema, n, root, enforce) {
                    Some(x) => Some(x),
                    None => match hidden::hidden_groups_fault(schema, root) {
                        Some(x) => Some(x),
                        None => particle_fault(
                            program.root,
                            n,
                            f,
                            parent_name(root, schema.target_namespace, f.qualified),
                        ),
                    },
                },
            }
        },
    }
}

fn check_bare_root(schema: &SchemaDocument, n: &InfosetNode, root: &str, enforce: bool) -> (r:
    Result<(), String>)
    ensures
        compare::verdict(r) == bare_root_fault(schema@, n@, root@, enforce),
{
    reveal(crate::ast::document_model);
    if enforce && schema.element_form_default_explicit && !has_namespace(n)
        && get_global_element(schema, root).is_some() {
        let local = local_name_from_qname(n.name.as_str());
        let nothing: Option<String> = None;
        let q = qname_for_error(local.as_str(), &schema.target_namespace);
        let b = qname_for_error(local.as_str(), &nothing);
        return Err(
            cat6(
                "Unparse Error: ",
                q.as_str(),
                " expected element start, but received start event for ",
                b.as_str(),
                " at ",
                q.as_str(),
            ),
        );
    }
    Ok(())
}

fn validate_unparse_infoset_nodes_inner(
    schema: &SchemaDocument,
    program: &IrProgram,
    root: &str,
    nodes: &Vec<InfosetNode>,
    enforce: bool,
) -> (r: Result<(), String>)
    ensures
        compare::verdict(r) == infoset_fault(
            schema@,
            program@,
            root@,
            infoset::list_models(*nodes),
            enforce,
        ),
{
    reveal(crate::ast::document_model);
    let i: usize = match find_root(nodes, root) {
        Some(i) => i,
        None => {
            return Err(cat3("infoset missing root `", root, "`"));
        },
    };
    assert(infoset::list_models(*nodes)[i as int] == nodes@[i as int].model());
    let n = &nodes[i];
    check_root_ns(n, root, &schema.target_namespace)?;
    check_bare_root(schema, n, root, enforce)?;
    validate_hidden_groups_unparse(schema, root)?;
    let f = Form {
        qualified: schema.element_form_default_qualified,
        target_ns: schema.target_namespace.copy(),
        enforce: enforce && schema.element_form_default_explicit,
    };
    let parent = parent_qname(root, &schema.target_namespace, f.qualified);
    validate_infoset_particle(&program.root, n, &f, parent.as_str())
}

/// An infoset can be written, with its names as the schema asks for.
pub fn validate_unparse_infoset_nodes(
    schema: &SchemaDocument,
    program: &IrProgram,
    root: &str,
    nodes: &Vec<InfosetNode>,
) -> (r: Result<(), String>)
    ensures
        compare::verdict(r) == infoset_fault(
            schema@,
            program@,
            root@,
            infoset::list_models(*nodes),
            true,
        ),
{
    validate_unparse_infoset_nodes_inner(schema, program, root, nodes, true)
}

/// An infoset can be written, whatever the form of its names.
pub fn validate_unparse_infoset_cardinality(
    schema: &SchemaDocument,
    program: &IrProgram,
    root: &str,
    nodes: &Vec<InfosetNode>,
) -> (r: Result<(), String>)
    ensures
        compare::verdict(r) == infoset_fault(
            schema@,
            program@,
            root@,
            infoset::list_models(*nodes),
            false,
        ),
{
    validate_unparse_infoset_nodes_inner(schema, program, root, nodes, false)
}

/// The form without the faults of namespaces and of elements that do not belong.
pub open spec fn relaxed(f: FormModel) -> FormModel {
    FormModel { enforce: false, ..f }
}

proof fn lemma_particle_relaxed(p: IrNodeModel, n: InfosetNodeModel, f: FormModel, parent: Seq<char>)
    requires
        particle_fault(p, n, f, parent) is None,
    ensures
        particle_fault(p, n, relaxed(f), parent) is None,
    decreases p, 0int, 0int,
{
    reveal(particle_fault);
    reveal(sequence_fault);
    reveal(occurrences_fault);
    match p {
        IrNodeModel::Element { name, kind, child, props } => {
            if !((n.nil && props.nillable) || kind != ValueKind::Complex) {
                if let Some(c) = child {
                    let local = qname::local_spec(name);
                    lemma_particle_relaxed(*c, n, f, parent_name(local, f.target_ns, f.qualified));
                }
            }
        },
        IrNodeModel::Sequence { children } => {
            lemma_sequence_relaxed(children, 0, n, f, parent);
        },
        IrNodeModel::Choice { branches } => {
            match named_branch(branches, 0, n) {
                Some(i) => {
                    if i < branches.len() {
                        let b = branches[i as int];
                        lemma_particle_relaxed(b.node, named(n, b.name)[0], f, b.name);
                    }
                },
                None => {
                    if !has_silent(branches, 0) {
                        if let Some(i) = matching_branch(branches, 0, n) {
                            if i < branches.len() {
                                lemma_particle_relaxed(branches[i as int].node, n, f, parent);
                            }
                        }
                    }
                },
            }
        },
    }
}

proof fn lemma_sequence_relaxed(
    children: Seq<IrNodeModel>,
    i: nat,
    n: InfosetNodeModel,
    f: FormModel,
    parent: Seq<char>,
)
    requires
        sequence_fault(children, i, n, f, parent) is None,
    ensures
        sequence_fault(children, i, n, relaxed(f), parent) is None,
    decreases children, children.len() - i, 0int,
{
    reveal(particle_fault);
    reveal(sequence_fault);
    reveal(occurrences_fault);
    if i < children.len() {
        match children[i as int] {
            IrNodeModel::Element { name, props, .. } => {
                if !computed(props) {
                    let local = qname::local_spec(name);
                    lemma_occurrences_relaxed(
                        children[i as int],
                        named(n, local),
                        0,
                        f,
                        parent,
                        parent_name(local, f.target_ns, f.qualified),
                        props.occurs_min > 0,
                    );
                }
            },
            _ => {
                lemma_particle_relaxed(children[i as int], n, f, parent);
            },
        }
        lemma_sequence_relaxed(children, i + 1, n, f, parent);
    }
}

proof fn lemma_occurrences_relaxed(
    p: IrNodeModel,
    found: Seq<InfosetNodeModel>,
    j: nat,
    f: FormModel,
    parent: Seq<char>,
    inner: Seq<char>,
    required: bool,
)
    requires
        occurrences_fault(p, found, j, f, parent, inner, required) is None,
    ensures
        occurrences_fault(p, found, j, relaxed(f), parent, inner, required) is None,
    decreases p, 1int, found.len() - j,
{
    reveal(particle_fault);
    reveal(sequence_fault);
    reveal(occurrences_fault);
    if j < found.len() {
        lemma_particle_relaxed(p, found[j as int], f, inner);
        lemma_occurrences_relaxed(p, found, j + 1, f, parent, inner, required);
    }
}

/// An infoset that can be written with its names as the schema asks for can be
/// written whatever the form of its names.
pub proof fn law_form_only_refuses(
    schema: SchemaDocumentModel,
    program: IrProgramModel,
    root: Seq<char>,
    nodes: Seq<InfosetNodeModel>,
)
    requires
        infoset_fault(schema, program, root, nodes, true) is None,
    ensures
        infoset_fault(schema, program, root, nodes, false) is None,
{
    let n = nodes[root_at(nodes, root, 0)->0 as int];
    let f = form_of(schema, true);
    assert(relaxed(f) == form_of(schema, false));
    lemma_particle_relaxed(
        program.root,
        n,
        f,
        parent_name(root, schema.target_namespace, f.qualified),
    );
}

/// Where the schema states no form, the form of the names makes no difference.
pub proof fn law_form_unstated(
    schema: SchemaDocumentModel,
    program: IrProgramModel,
    root: Seq<char>,
    nodes: Seq<InfosetNodeModel>,
)
    requires
        !schema.element_form_default_explicit,
    ensures
        infoset_fault(schema, program, root, nodes, true) == infoset_fault(
            schema,
            program,
            root,
            nodes,
            false,
        ),
{
}

/// An infoset without the root is refused, whatever the form of its names.
pub proof fn law_root_needed(
    schema: SchemaDocumentModel,
    program: IrProgramModel,
    root: Seq<char>,
    nodes: Seq<InfosetNodeModel>,
    enforce: bool,
)
    requires
        forall|i: int|
            0 <= i < nodes.len() ==> qname::local_spec((#[trigger] nodes[i]).name) != root,
    ensures
        infoset_fault(schema, program, root, nodes, enforce) == Some(
            "infoset missing root `"@ + root + "`"@,
        ),
{
    lemma_no_root(nodes, root, 0);
}

proof fn lemma_no_root(nodes: Seq<InfosetNodeModel>, root: Seq<char>, i: nat)
    requires
        forall|i: int|
            0 <= i < nodes.len() ==> qname::local_spec((#[trigger] nodes[i]).name) != root,
    ensures
        root_at(nodes, root, i) is None,
    decreases nodes.len() - i,
{
    if i < nodes.len() {
        lemma_no_root(nodes, root, i + 1);
    }
}

// Values.
/// The field with this local name from `i` on.
pub open spec fn local_field(
    fields: Seq<(Seq<char>, DfdlValueModel)>,
    local: Seq<char>,
    i: nat,
) -> Option<DfdlValueModel>
    decreases fields.len() - i,
{
    if i >= fields.len() {
        None
    } else if qname::local_spec(fields[i as int].0) == local {
        Some(fields[i as int].1)
    } else {
        local_field(fields, local, i + 1)
    }
}

/// The field of an element: under its name, its local name, or a name with that
/// local part.
pub open spec fn element_field(fields: Seq<(Seq<char>, DfdlValueModel)>, key: Seq<char>) -> Option<
    DfdlValueModel,
> {
    let local = qname::local_spec(key);
    match strmap::lookup(fields, key) {
        Some(v) => Some(v),
        None => match strmap::lookup(fields, local) {
            Some(v) => Some(v),
            None => local_field(fields, local, 0),
        },
    }
}

/// How often an element occurs in a field.
pub open spec fn field_count(v: Option<DfdlValueModel>) -> nat {
    match v {
        Some(DfdlValueModel::Array(items)) => items.len(),
        Some(_) => 1,
        None => 0,
    }
}

fn count_of(v: &DfdlValue) -> (r: usize)
    ensures
        r == field_count(Some(v@)),
{
    match v {
        DfdlValue::Array(items) => {
            assert(value::item_models(*items).len() == items@.len());
            items.len()
        },
        _ => 1,
    }
}

fn find_field_count(map: &StrMap<DfdlValue>, key: &str) -> (r: usize)
    ensures
        r == field_count(element_field(map@, key@)),
{
    if let Some(v) = map.get(key) {
        return count_of(v);
    }
    let local = local_name_from_qname(key);
    if let Some(v) = map.get(local.as_str()) {
        return count_of(v);
    }
    let mut i: usize = 0;
    while i < map.entries.len()
        invariant
            i <= map.entries@.len(),
            local@ == qname::local_spec(key@),
            strmap::lookup(map@, key@) is None,
            strmap::lookup(map@, local@) is None,
            local_field(map@, local@, 0) == local_field(map@, local@, i as nat),
        decreases map.entries@.len() - i,
    {
        assert(map@[i as int] == map.entries@[i as int].deep_view());
        let l = local_name_from_qname(map.entries[i].0.as_str());
        if eq(l.as_str(), local.as_str()) {
            return count_of(&map.entries[i].1);
        }
        i += 1;
    }
    0
}

/// Why the fields of a value do not fit an element of a sequence from `i` on.
pub open spec fn values_fault(
    children: Seq<IrNodeModel>,
    i: nat,
    fields: Seq<(Seq<char>, DfdlValueModel)>,
    parent: Seq<char>,
) -> Option<Seq<char>>
    decreases children.len() - i,
{
    if i >= children.len() {
        None
    } else {
        match children[i as int] {
            IrNodeModel::Element { name, props, .. } => {
                let count = field_count(element_field(fields, name));
                if computed(props) {
                    values_fault(children, i + 1, fields, parent)
                } else if count < props.occurs_min {
                    Some(missing_message(name, parent))
                } else if props.occurs_max is Some && count > props.occurs_max->0 {
                    Some(
                        "Unparse Error: "@ + name
                            + " expected element end, but received extra occurrences at "@
                            + parent,
                    )
                } else {
                    values_fault(children, i + 1, fields, parent)
                }
            },
            _ => values_fault(children, i + 1, fields, parent),
        }
    }
}

/// Why the fields of a value do not fit a part of the schema.
pub open spec fn value_map_fault(
    p: IrNodeModel,
    fields: Seq<(Seq<char>, DfdlValueModel)>,
    parent: Seq<char>,
) -> Option<Seq<char>> {
    match p {
        IrNodeModel::Sequence { children } => values_fault(children, 0, fields, parent),
        _ => None,
    }
}

/// The fields of a value fit a part of the schema, each as often as it can occur.
pub fn validate_unparse_value_map(p: &IrNode, map: &StrMap<DfdlValue>, parent: &str) -> (r: Result<
    (),
    String,
>)
    ensures
        compare::verdict(r) == value_map_fault(p@, map@, parent@),
{
    let children = match p {
        IrNode::Sequence { children } => children,
        _ => {
            return Ok(());
        },
    };
    let ghost all = program::node_models(*children);
    let mut i: usize = 0;
    while i < children.len()
        invariant
            i <= children@.len(),
            all == program::node_models(*children),
            p@ == (IrNodeModel::Sequence { children: all }),
            values_fault(all, 0, map@, parent@) == values_fault(all, i as nat, map@, parent@),
        decreases children@.len() - i,
    {
        assert(all[i as int] == children@[i as int].model());
        if let IrNode::Element { name, props, .. } = &children[i] {
            if !ir_props_computed_at_unparse(props) {
                let count: u64 = find_field_count(map, name.as_str()) as u64;
                if count < props.occurs_min {
                    return Err(missing_text(name.as_str(), parent));
                }
                if let Some(max) = props.occurs_max {
                    if count > max {
                        return Err(
                            cat4(
                                "Unparse Error: ",
                                name.as_str(),
                                " expected element end, but received extra occurrences at ",
                                parent,
                            ),
                        );
                    }
                }
            }
        }
        i += 1;
    }
    Ok(())
}

/// The nodes of a name are those under the names with that local part.
pub proof fn law_named_nodes(
    children: Seq<(Seq<char>, Seq<InfosetNodeModel>)>,
    local: Seq<char>,
    i: nat,
)
    ensures
        forall|x: InfosetNodeModel| #[trigger]
            named_from(children, local, i).contains(x) <==> exists|k: int|
                i <= k < children.len() && qname::local_spec((#[trigger] children[k]).0) == local
                    && children[k].1.contains(x),
        forall|k: int|
            i <= k < children.len() && qname::local_spec((#[trigger] children[k]).0) == local
                ==> children[k].1.len() <= named_from(children, local, i).len(),
    decreases children.len() - i,
{
    if i < children.len() {
        law_named_nodes(children, local, i + 1);
        let rest = named_from(children, local, i + 1);
        let here = children[i as int].1;
        let all = named_from(children, local, i);
        if qname::local_spec(children[i as int].0) == local {
            assert forall|x: InfosetNodeModel| #[trigger] all.contains(x) implies exists|k: int|
                i <= k < children.len() && qname::local_spec((#[trigger] children[k]).0) == local
                    && children[k].1.contains(x) by {
                let j = choose|j: int| 0 <= j < all.len() && all[j] == x;
                if j < here.len() {
                    assert(children[i as int].1[j] == x);
                } else {
                    assert(rest[j - here.len()] == x);
                    assert(rest.contains(x));
                }
            }
            assert forall|x: InfosetNodeModel| (exists|k: int|
                i <= k < children.len() && qname::local_spec((#[trigger] children[k]).0) == local
                    && children[k].1.contains(x)) implies #[trigger] all.contains(x) by {
                let k = choose|k: int|
                    i <= k < children.len() && qname::local_spec((#[trigger] children[k]).0)
                        == local && children[k].1.contains(x);
                if k == i {
                    let j = choose|j: int| 0 <= j < here.len() && here[j] == x;
                    assert(all[j] == x);
                } else {
                    assert(rest.contains(x));
                    let j = choose|j: int| 0 <= j < rest.len() && rest[j] == x;
                    assert(all[here.len() + j] == x);
                }
            }
        } else {
            assert forall|x: InfosetNodeModel| (exists|k: int|
                i <= k < children.len() && qname::local_spec((#[trigger] children[k]).0) == local
                    && children[k].1.contains(x)) implies #[trigger] all.contains(x) by {
                assert(rest.contains(x));
            }
        }
    }
}

/// An element occurs as often as it may: not less often than the least, and, where the
/// number is not found by an expression or while parsing, not more often than the most.
pub open spec fn occurs_rightly(p: IrPropsModel, count: nat) -> bool {
    &&& p.occurs_min <= count
    &&& (p.occurs_count_kind != OccursCountKind::Expression && p.occurs_count_kind
        != OccursCountKind::Parsed ==> (p.occurs_max matches Some(m) ==> count <= m))
}

/// An infoset node that fits a sequence holds every element of it as often as that may
/// occur, and each occurrence fits; and it fits every other part.
pub proof fn law_sequence_fits(
    children: Seq<IrNodeModel>,
    i: nat,
    n: InfosetNodeModel,
    f: FormModel,
    parent: Seq<char>,
    k: int,
)
    requires
        sequence_fault(children, i, n, f, parent) is None,
        i <= k < children.len(),
    ensures
        match children[k] {
            IrNodeModel::Element { name, props, .. } => !computed(props) ==> {
                &&& occurs_rightly(props, named(n, qname::local_spec(name)).len())
                &&& forall|j: int|
                    0 <= j < named(n, qname::local_spec(name)).len() ==> fits(
                        children[k],
                        #[trigger] named(n, qname::local_spec(name))[j],
                        f,
                    )
            },
            _ => fits(children[k], n, f),
        },
    decreases k - i,
{
    reveal(sequence_fault);
    reveal(particle_fault);
    reveal(occurrences_fault);
    if i < k {
        law_sequence_fits(children, i + 1, n, f, parent, k);
    } else {
        match children[k] {
            IrNodeModel::Element { name, props, .. } => {
                if !computed(props) {
                    lemma_occurrences_fit(
                        children[k],
                        named(n, qname::local_spec(name)),
                        0,
                        f,
                        parent,
                        parent_name(qname::local_spec(name), f.target_ns, f.qualified),
                        props.occurs_min > 0,
                    );
                }
            },
            _ => {
                assert(particle_fault(children[k], n, f, parent) is None);
            },
        }
    }
}

/// Nothing is found wrong with a node that stands for a part of the schema.
pub open spec fn fits(p: IrNodeModel, n: InfosetNodeModel, f: FormModel) -> bool {
    exists|parent: Seq<char>| #[trigger] particle_fault(p, n, f, parent) is None
}

proof fn lemma_occurrences_fit(
    p: IrNodeModel,
    found: Seq<InfosetNodeModel>,
    j: nat,
    f: FormModel,
    parent: Seq<char>,
    inner: Seq<char>,
    required: bool,
)
    requires
        occurrences_fault(p, found, j, f, parent, inner, required) is None,
    ensures
        forall|k: int| j <= k < found.len() ==> fits(p, #[trigger] found[k], f),
        f.enforce ==> forall|k: int|
            j <= k < found.len() ==> (f.qualified <==> has_ns(#[trigger] found[k])),
    decreases found.len() - j,
{
    reveal(occurrences_fault);
    reveal(particle_fault);
    if j < found.len() {
        assert(particle_fault(p, found[j as int], f, inner) is None);
        lemma_occurrences_fit(p, found, j + 1, f, parent, inner, required);
    }
}

/// A node that fits a part of the schema: for an element it has its name, and holds
/// what that holds; for a sequence it fits its parts and, where the form of names
/// counts, holds no element but theirs; for a choice it fits a branch, unless one of
/// them needs nothing.
pub proof fn law_part_fits(p: IrNodeModel, n: InfosetNodeModel, f: FormModel, parent: Seq<char>)
    requires
        particle_fault(p, n, f, parent) is None,
    ensures
        match p {
            IrNodeModel::Element { name, kind, child, props } => {
                &&& qname::local_spec(name) == qname::local_spec(n.name)
                &&& (kind == ValueKind::Complex && child is Some && !(n.nil && props.nillable)
                    ==> fits(*child->0, n, f))
            },
            IrNodeModel::Sequence { children } => {
                &&& sequence_fault(children, 0, n, f, parent) is None
                &&& (f.enforce ==> forall|i: int|
                    0 <= i < n.children.len() && (#[trigger] n.children[i]).1.len() > 0 ==> allows(
                        children,
                        0,
                        qname::local_spec(n.children[i].0),
                    ))
            },
            IrNodeModel::Choice { branches } => {
                ||| has_silent(branches, 0)
                ||| exists|i: int|
                    0 <= i < branches.len() && (fits((#[trigger] branches[i]).node, n, f) || (named(
                        n,
                        branches[i].name,
                    ).len() > 0 && fits(branches[i].node, named(n, branches[i].name)[0], f)))
            },
        },
{
    reveal(particle_fault);
    reveal(sequence_fault);
    match p {
        IrNodeModel::Element { name, kind, child, props } => {
            if kind == ValueKind::Complex && child is Some && !(n.nil && props.nillable) {
                assert(particle_fault(
                    *child->0,
                    n,
                    f,
                    parent_name(qname::local_spec(name), f.target_ns, f.qualified),
                ) is None);
            }
        },
        IrNodeModel::Sequence { children } => {
            if f.enforce {
                lemma_no_stray(children, n, 0, f, parent);
            }
        },
        IrNodeModel::Choice { branches } => {
            lemma_named_branch(branches, 0, n);
            if let Some(i) = named_branch(branches, 0, n) {
                assert(particle_fault(
                    branches[i as int].node,
                    named(n, branches[i as int].name)[0],
                    f,
                    branches[i as int].name,
                ) is None);
                assert(fits(branches[i as int].node, named(n, branches[i as int].name)[0], f));
            } else if !has_silent(branches, 0) {
                lemma_matching_branch(branches, 0, n);
                let i = matching_branch(branches, 0, n)->0;
                assert(particle_fault(branches[i as int].node, n, f, parent) is None);
                assert(fits(branches[i as int].node, n, f));
            }
        },
    }
}

proof fn lemma_named_branch(branches: Seq<ChoiceBranchModel>, i: nat, n: InfosetNodeModel)
    ensures
        named_branch(branches, i, n) matches Some(k) ==> i <= k < branches.len() && named(
            n,
            branches[k as int].name,
        ).len() > 0,
    decreases branches.len() - i,
{
    if i < branches.len() {
        lemma_named_branch(branches, i + 1, n);
    }
}

proof fn lemma_matching_branch(branches: Seq<ChoiceBranchModel>, i: nat, n: InfosetNodeModel)
    ensures
        matching_branch(branches, i, n) matches Some(k) ==> i <= k < branches.len(),
    decreases branches.len() - i,
{
    if i < branches.len() {
        lemma_matching_branch(branches, i + 1, n);
    }
}

proof fn lemma_no_stray(
    children: Seq<IrNodeModel>,
    n: InfosetNodeModel,
    i: nat,
    f: FormModel,
    parent: Seq<char>,
)
    requires
        stray_fault(children, n, i, f, parent) is None,
    ensures
        forall|k: int|
            i <= k < n.children.len() && (#[trigger] n.children[k]).1.len() > 0 ==> allows(
                children,
                0,
                qname::local_spec(n.children[k].0),
            ),
    decreases n.children.len() - i,
{
    if i < n.children.len() {
        lemma_no_stray(children, n, i + 1, f, parent);
    }
}

/// A sequence allows an element just where one of its parts is that element, or is a
/// sequence or a choice that allows it.
pub proof fn law_elements_allowed(children: Seq<IrNodeModel>, i: nat, local: Seq<char>)
    ensures
        allows(children, i, local) <==> exists|k: int|
            i <= k < children.len() && part_allows(#[trigger] children[k], local),
    decreases children.len() - i,
{
    if i < children.len() {
        law_elements_allowed(children, i + 1, local);
        if allows(children, i + 1, local) {
            let k = choose|k: int|
                i + 1 <= k < children.len() && part_allows(#[trigger] children[k], local);
            assert(part_allows(children[k], local));
        }
    }
}

/// An infoset that can be written has the root, in the namespace of the schema where
/// either of them has one, and the root fits the schema.
pub proof fn law_written_infoset_fits(
    schema: SchemaDocumentModel,
    program: IrProgramModel,
    root: Seq<char>,
    nodes: Seq<InfosetNodeModel>,
    enforce: bool,
)
    requires
        infoset_fault(schema, program, root, nodes, enforce) is None,
    ensures
        hidden::hidden_groups_fault(schema, root) is None,
        exists|i: int|
            0 <= i < nodes.len() && qname::local_spec((#[trigger] nodes[i]).name) == root && fits(
                program.root,
                nodes[i],
                form_of(schema, enforce),
            ) && (real_ns(nodes[i].namespace) is Some && schema.target_namespace is Some
                ==> nodes[i].namespace == schema.target_namespace) && (real_ns(
                nodes[i].namespace,
            ) is None ==> real_ns(schema.target_namespace) is None),
{
    lemma_root_at(nodes, root, 0);
    let i = root_at(nodes, root, 0)->0;
    let f = form_of(schema, enforce);
    assert(particle_fault(
        program.root,
        nodes[i as int],
        f,
        parent_name(root, schema.target_namespace, f.qualified),
    ) is None);
    assert(fits(program.root, nodes[i as int], f));
}

proof fn lemma_root_at(nodes: Seq<InfosetNodeModel>, root: Seq<char>, i: nat)
    ensures
        root_at(nodes, root, i) matches Some(k) ==> i <= k < nodes.len() && qname::local_spec(
            nodes[k as int].name,
        ) == root,
    decreases nodes.len() - i,
{
    if i < nodes.len() {
        lemma_root_at(nodes, root, i + 1);
    }
}

/// The fields of a value fit a sequence just where each element that is not computed
/// occurs as often as it may.
pub proof fn law_fields_fit(
    children: Seq<IrNodeModel>,
    i: nat,
    fields: Seq<(Seq<char>, DfdlValueModel)>,
    parent: Seq<char>,
)
    ensures
        values_fault(children, i, fields, parent) is None <==> forall|k: int|
            i <= k < children.len() ==> match #[trigger] children[k] {
                IrNodeModel::Element { name, props, .. } => computed(props) || {
                    &&& props.occurs_min <= field_count(element_field(fields, name))
                    &&& (props.occurs_max matches Some(m) ==> field_count(
                        element_field(fields, name),
                    ) <= m)
                },
                _ => true,
            },
    decreases children.len() - i,
{
    if i < children.len() {
        law_fields_fit(children, i + 1, fields, parent);
    }
}

/// An element is found among fields under its own name before any other.
pub proof fn law_field_found(fields: Seq<(Seq<char>, DfdlValueModel)>, key: Seq<char>)
    ensures
        strmap::lookup(fields, key) is Some ==> element_field(fields, key) == strmap::lookup(
            fields,
            key,
        ),
        strmap::lookup(fields, key) is None && strmap::lookup(
            fields,
            qname::local_spec(key),
        ) is Some ==> element_field(fields, key) == strmap::lookup(fields, qname::local_spec(key)),
        element_field(fields, key) is None ==> forall|i: int|
            0 <= i < fields.len() ==> qname::local_spec((#[trigger] fields[i]).0)
                != qname::local_spec(key),
{
    lemma_local_field(fields, qname::local_spec(key), 0);
}

proof fn lemma_local_field(fields: Seq<(Seq<char>, DfdlValueModel)>, local: Seq<char>, i: nat)
    ensures
        local_field(fields, local, i) is None ==> forall|k: int|
            i <= k < fields.len() ==> qname::local_spec((#[trigger] fields[k]).0) != local,
    decreases fields.len() - i,
{
    if i < fields.len() {
        lemma_local_field(fields, local, i + 1);
    }
}

} // verus!
