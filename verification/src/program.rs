//! The form of a compiled schema that checks of values and infosets follow.

use vstd::prelude::*;
use crate::ast::OccursCountKind;

verus! {

/// The kind of a value.
#[derive(Debug, Clone, Copy, PartialEq, Eq, Structural)]
pub enum ValueKind {
    String,
    Boolean,
    Byte,
    Short,
    Int,
    Integer,
    Long,
    UnsignedByte,
    UnsignedShort,
    UnsignedInt,
    Float,
    Double,
    Decimal,
    DateTime,
    Time,
    HexBinary,
    Complex,
}

/// A step of a path through an infoset.
#[derive(Debug)]
pub struct IrInputPathStep {
    pub local: String,
    /// The occurrence, counted from one.
    pub index: Option<u64>,
}

/// What an [`IrInputPathStep`] holds, its text as character sequences.
#[verifier::ext_equal]
pub struct IrInputPathStepModel {
    pub local: Seq<char>,
    pub index: Option<u64>,
}

impl DeepView for IrInputPathStep {
    type V = IrInputPathStepModel;

    open spec fn deep_view(&self) -> IrInputPathStepModel {
        IrInputPathStepModel { local: self.local@, index: self.index }
    }
}

/// The facets of a simple element, bounds as messages write them.
#[derive(Debug)]
pub struct IrFacets {
    /// Values are checked against the facets.
    pub checked: bool,
    /// The type by name, for unions.
    pub xsd_type: Option<String>,
    pub min_length: Option<u64>,
    pub total_digits: Option<u64>,
    pub value_min_inclusive: Option<String>,
    pub value_max_inclusive: Option<String>,
    pub value_min_exclusive: Option<String>,
    pub value_max_exclusive: Option<String>,
    pub facet_enumeration: Vec<String>,
}

/// What an [`IrFacets`] holds, its text as character sequences.
#[verifier::ext_equal]
pub struct IrFacetsModel {
    pub checked: bool,
    pub xsd_type: Option<Seq<char>>,
    pub min_length: Option<u64>,
    pub total_digits: Option<u64>,
    pub value_min_inclusive: Option<Seq<char>>,
    pub value_max_inclusive: Option<Seq<char>>,
    pub value_min_exclusive: Option<Seq<char>>,
    pub value_max_exclusive: Option<Seq<char>>,
    pub facet_enumeration: Seq<Seq<char>>,
}

impl DeepView for IrFacets {
    type V = IrFacetsModel;

    open spec fn deep_view(&self) -> IrFacetsModel {
        IrFacetsModel {
            checked: self.checked,
            xsd_type: self.xsd_type.deep_view(),
            min_length: self.min_length,
            total_digits: self.total_digits,
            value_min_inclusive: self.value_min_inclusive.deep_view(),
            value_max_inclusive: self.value_max_inclusive.deep_view(),
            value_min_exclusive: self.value_min_exclusive.deep_view(),
            value_max_exclusive: self.value_max_exclusive.deep_view(),
            facet_enumeration: self.facet_enumeration.deep_view(),
        }
    }
}

impl View for IrFacets {
    type V = IrFacetsModel;

    open spec fn view(&self) -> IrFacetsModel {
        self.deep_view()
    }
}

/// The properties of an element.
#[derive(Debug)]
pub struct IrProps {
    pub hidden: bool,
    pub nillable: bool,
    /// The value is computed on output, by an expression.
    pub output_value_calc: bool,
    /// The value is computed on output, and always the same.
    pub output_value_calc_literal: bool,
    /// The value is computed on output, from the element beside it.
    pub output_value_calc_sibling: bool,
    /// The value is computed on output, by a condition.
    pub output_value_calc_conditional: bool,
    pub occurs_min: u64,
    pub occurs_max: Option<u64>,
    pub occurs_count_kind: OccursCountKind,
    /// The path to the number of occurrences.
    pub occurs_count_fn_path: Option<Vec<IrInputPathStep>>,
    pub facets: IrFacets,
}

/// What an [`IrProps`] holds, its text as character sequences.
#[verifier::ext_equal]
pub struct IrPropsModel {
    pub hidden: bool,
    pub nillable: bool,
    pub output_value_calc: bool,
    pub output_value_calc_literal: bool,
    pub output_value_calc_sibling: bool,
    pub output_value_calc_conditional: bool,
    pub occurs_min: u64,
    pub occurs_max: Option<u64>,
    pub occurs_count_kind: OccursCountKind,
    pub occurs_count_fn_path: Option<Seq<IrInputPathStepModel>>,
    pub facets: IrFacetsModel,
}

impl DeepView for IrProps {
    type V = IrPropsModel;

    open spec fn deep_view(&self) -> IrPropsModel {
        IrPropsModel {
            hidden: self.hidden,
            nillable: self.nillable,
            output_value_calc: self.output_value_calc,
            output_value_calc_literal: self.output_value_calc_literal,
            output_value_calc_sibling: self.output_value_calc_sibling,
            output_value_calc_conditional: self.output_value_calc_conditional,
            occurs_min: self.occurs_min,
            occurs_max: self.occurs_max,
            occurs_count_kind: self.occurs_count_kind,
            occurs_count_fn_path: self.occurs_count_fn_path.deep_view(),
            facets: self.facets.deep_view(),
        }
    }
}

impl View for IrProps {
    type V = IrPropsModel;

    open spec fn view(&self) -> IrPropsModel {
        self.deep_view()
    }
}

/// A branch of a choice.
#[derive(Debug)]
pub struct ChoiceBranch {
    pub name: String,
    pub node: IrNode,
}

/// A part of a compiled schema.
#[derive(Debug)]
pub enum IrNode {
    Element { name: String, kind: ValueKind, child: Option<Box<IrNode>>, props: IrProps },
    Sequence { children: Vec<IrNode> },
    Choice { branches: Vec<ChoiceBranch> },
}

/// What a [`ChoiceBranch`] holds, its text as character sequences.
#[verifier::ext_equal]
pub struct ChoiceBranchModel {
    pub name: Seq<char>,
    pub node: IrNodeModel,
}

/// What an [`IrNode`] holds, its text as character sequences.
#[verifier::ext_equal]
pub enum IrNodeModel {
    Element {
        name: Seq<char>,
        kind: ValueKind,
        child: Option<Box<IrNodeModel>>,
        props: IrPropsModel,
    },
    Sequence { children: Seq<IrNodeModel> },
    Choice { branches: Seq<ChoiceBranchModel> },
}

/// What each part of a list holds.
pub open spec fn node_models(v: Vec<IrNode>) -> Seq<IrNodeModel>
    decreases v,
{
    Seq::new(
        v@.len(),
        |i: int|
            if 0 <= i < v@.len() {
                v@[i].model()
            } else {
                arbitrary()
            },
    )
}

/// What each branch of a list holds.
pub open spec fn branch_models(v: Vec<ChoiceBranch>) -> Seq<ChoiceBranchModel>
    decreases v,
{
    Seq::new(
        v@.len(),
        |i: int|
            if 0 <= i < v@.len() {
                v@[i].model()
            } else {
                arbitrary()
            },
    )
}

impl ChoiceBranch {
    /// What the branch holds.
    pub open spec fn model(self) -> ChoiceBranchModel
        decreases self,
    {
        ChoiceBranchModel { name: self.name@, node: self.node.model() }
    }
}

impl IrNode {
    /// What the part holds.
    pub open spec fn model(self) -> IrNodeModel
        decreases self,
    {
        match self {
            IrNode::Element { name, kind, child, props } => IrNodeModel::Element {
                name: name@,
                kind,
                child: match child {
                    Some(c) => Some(Box::new(c.model())),
                    None => None,
                },
                props: props@,
            },
            IrNode::Sequence { children } => IrNodeModel::Sequence {
                children: node_models(children),
            },
            IrNode::Choice { branches } => IrNodeModel::Choice {
                branches: branch_models(branches),
            },
        }
    }
}

impl View for IrNode {
    type V = IrNodeModel;

    open spec fn view(&self) -> IrNodeModel {
        self.model()
    }
}

/// A compiled schema: its root, and the name of the element there.
#[derive(Debug)]
pub struct IrProgram {
    pub root: IrNode,
    pub root_element: String,
}

/// What an [`IrProgram`] holds, its text as character sequences.
#[verifier::ext_equal]
pub struct IrProgramModel {
    pub root: IrNodeModel,
    pub root_element: Seq<char>,
}

impl View for IrProgram {
    type V = IrProgramModel;

    open spec fn view(&self) -> IrProgramModel {
        IrProgramModel { root: self.root@, root_element: self.root_element@ }
    }
}

} // verus!
