//! Step definitions: the atomic operations applied to documents.

use vstd::prelude::*;
use crate::model::node::{Node, NodeV};
use crate::strings::to_string;
use crate::transform::map::StepMap;
use crate::transform::replace::{
    Slice, SliceV, ReplaceStep, SplitBlockStep, JoinBackwardStep, LiftStep, WrapStep, SetMarksStep,
    text_slice_v, empty_slice_v,
};

verus! {

/// Errors from step execution.
#[derive(Debug)]
pub enum StepError {
    /// Invalid step for document
    InvalidStep,
    /// Position out of range
    PositionOutOfRange(usize),
    /// Step failed, with a reason
    Failed(String),
}

/// The view of a step error.
pub enum StepErrorV {
    InvalidStep,
    PositionOutOfRange(nat),
    Failed(Seq<char>),
}

impl View for StepError {
    type V = StepErrorV;

    open spec fn view(&self) -> StepErrorV {
        match self {
            StepError::InvalidStep => StepErrorV::InvalidStep,
            StepError::PositionOutOfRange(p) => StepErrorV::PositionOutOfRange(*p as nat),
            StepError::Failed(m) => StepErrorV::Failed(m@),
        }
    }
}

/// The result of applying a step.
#[derive(Debug)]
pub struct StepResult {
    /// The updated document
    pub doc: Node,
    /// The position before the replaced range
    pub from: usize,
    /// The position after the replaced range
    pub to: usize,
    /// The slice that was inserted
    pub slice: Option<Slice>,
}

/// The view of a step result.
pub struct StepResultV {
    pub doc: NodeV,
    pub from: nat,
    pub to: nat,
    pub slice: Option<SliceV>,
}

impl View for StepResult {
    type V = StepResultV;

    open spec fn view(&self) -> StepResultV {
        StepResultV {
            doc: self.doc@,
            from: self.from as nat,
            to: self.to as nat,
            slice: match self.slice {
                Some(s) => Some(s@),
                None => None,
            },
        }
    }
}

/// The view of the result of applying a step.
pub open spec fn result_view(r: Result<StepResult, StepError>) -> Result<StepResultV, StepErrorV> {
    match r {
        Ok(res) => Ok(res@),
        Err(e) => Err(e@),
    }
}

impl StepResult {
    /// Create a new step result.
    pub fn new(doc: Node, from: usize, to: usize, slice: Option<Slice>) -> (r: Self)
        ensures
            r.doc@ == doc@,
            r.from == from,
            r.to == to,
            r@.slice == match slice {
                Some(s) => Some(s@),
                None => None::<SliceV>,
            },
    {
        StepResult { doc, from, to, slice }
    }

    /// A result with no slice (deletion).
    pub fn delete(doc: Node, from: usize, to: usize) -> (r: Self)
        ensures
            r.doc@ == doc@,
            r.from == from,
            r.to == to,
            r.slice is None,
    {
        Self::new(doc, from, to, None)
    }

    /// A result with an inserted slice at `pos`.
    pub fn insert(doc: Node, pos: usize, slice: Slice) -> (r: Self)
        ensures
            r.doc@ == doc@,
            r.from == pos,
            r.to == pos,
            r@.slice == Some(slice@),
    {
        Self::new(doc, pos, pos, Some(slice))
    }

    /// The size of the replaced range.
    pub fn replaced_size(&self) -> (r: usize)
        requires
            self.from <= self.to,
        ensures
            r == self.to - self.from,
    {
        self.to - self.from
    }

    /// The size of the inserted content (0 with no slice).
    pub fn inserted_size(&self) -> (r: usize)
        requires
            self@.slice matches Some(s) ==> crate::model::node::sizes_from(s.content, 0)
                <= usize::MAX,
        ensures
            r == match self@.slice {
                Some(s) => crate::model::node::sizes_from(s.content, 0),
                None => 0,
            },
    {
        match &self.slice {
            Some(s) => s.size(),
            None => 0,
        }
    }
}

/// Types that can be carried through a step map.
pub trait Mappable: Sized {
    /// `self` can be carried through `map` without an arithmetic fault.
    spec fn can_map_through(&self, map: StepMap) -> bool;

    /// `r` is `self` carried through `map`.
    spec fn maps_to(&self, map: StepMap, r: Self) -> bool;

    /// Carry this through a step map.
    fn map(&self, map: &StepMap) -> (r: Self)
        requires
            self.can_map_through(*map),
        ensures
            self.maps_to(*map, r),
    ;
}

/// Steps that can be inverted.
pub trait Invertible: Sized {
    /// The inverse can be built for `doc`.
    spec fn can_invert(&self, doc: NodeV) -> bool;

    /// `r` undoes `self` applied to `doc`.
    spec fn inverts(&self, doc: NodeV, r: Self) -> bool;

    /// Whether the inverse can be built for `doc`.
    fn can_invert_on(&self, doc: &Node) -> (r: bool)
        ensures
            r == self.can_invert(doc@),
    ;

    /// The step that undoes this step applied to `doc`.
    fn invert(&self, doc: &Node) -> (r: Self)
        requires
            self.can_invert(doc@),
        ensures
            self.inverts(doc@, r),
    ;
}

/// A step: a change applied to a document.
pub trait Step: Sized {
    /// `apply` runs on `doc` without an arithmetic fault.
    spec fn can_apply(&self, doc: NodeV) -> bool;

    /// What applying this step to `doc` gives.
    spec fn spec_apply(&self, doc: NodeV) -> Result<StepResultV, StepErrorV>;

    /// Whether `apply` runs on `doc` without an arithmetic fault.
    fn fits(&self, doc: &Node) -> (r: bool)
        ensures
            r == self.can_apply(doc@),
    ;

    /// Apply this step to a document.
    fn apply(&self, doc: &Node) -> (r: Result<StepResult, StepError>)
        requires
            self.can_apply(doc@),
        ensures
            result_view(r) == self.spec_apply(doc@),
    ;
}

/// Steps that a transaction can store.
pub trait Storable: Step {
    /// This step, as one of the steps a transaction stores.
    fn into_stored(self) -> (r: StoredStep)
        ensures
            forall|d: NodeV| #[trigger] r.can_apply(d) == self.can_apply(d),
            forall|d: NodeV| #[trigger] r.spec_apply(d) == self.spec_apply(d),
    ;
}

/// Any of the steps, as a transaction stores them.
#[derive(Debug)]
pub enum StoredStep {
    Replace(ReplaceStep),
    SplitBlock(SplitBlockStep),
    JoinBackward(JoinBackwardStep),
    SetMarks(SetMarksStep),
    Lift(LiftStep),
    Wrap(WrapStep),
}

impl Step for StoredStep {
    open spec fn can_apply(&self, doc: NodeV) -> bool {
        match self {
            StoredStep::Replace(s) => s.can_apply(doc),
            StoredStep::SplitBlock(s) => s.can_apply(doc),
            StoredStep::JoinBackward(s) => s.can_apply(doc),
            StoredStep::SetMarks(s) => s.can_apply(doc),
            StoredStep::Lift(s) => s.can_apply(doc),
            StoredStep::Wrap(s) => s.can_apply(doc),
        }
    }

    open spec fn spec_apply(&self, doc: NodeV) -> Result<StepResultV, StepErrorV> {
        match self {
            StoredStep::Replace(s) => s.spec_apply(doc),
            StoredStep::SplitBlock(s) => s.spec_apply(doc),
            StoredStep::JoinBackward(s) => s.spec_apply(doc),
            StoredStep::SetMarks(s) => s.spec_apply(doc),
            StoredStep::Lift(s) => s.spec_apply(doc),
            StoredStep::Wrap(s) => s.spec_apply(doc),
        }
    }

    /// Whether the stored step runs on `doc` without an arithmetic fault.
    fn fits(&self, doc: &Node) -> (r: bool) {
        match self {
            StoredStep::Replace(s) => s.fits(doc),
            StoredStep::SplitBlock(s) => s.fits(doc),
            StoredStep::JoinBackward(s) => s.fits(doc),
            StoredStep::SetMarks(s) => s.fits(doc),
            StoredStep::Lift(s) => s.fits(doc),
            StoredStep::Wrap(s) => s.fits(doc),
        }
    }

    /// Apply the stored step.
    fn apply(&self, doc: &Node) -> (r: Result<StepResult, StepError>) {
        match self {
            StoredStep::Replace(s) => s.apply(doc),
            StoredStep::SplitBlock(s) => s.apply(doc),
            StoredStep::JoinBackward(s) => s.apply(doc),
            StoredStep::SetMarks(s) => s.apply(doc),
            StoredStep::Lift(s) => s.apply(doc),
            StoredStep::Wrap(s) => s.apply(doc),
        }
    }
}

/// The type of a step, for serialization.
#[derive(Debug, Clone, Copy, PartialEq, Eq, Structural)]
pub enum StepType {
    /// Replace step
    Replace,
    /// Add mark step
    AddMark,
    /// Remove mark step
    RemoveMark,
}

/// A step with its type, for serialization.
#[derive(Debug)]
pub struct StepWrapper {
    /// The type of step
    pub step_type: StepType,
    /// Step-specific data
    pub data: serde_json::Value,
}

impl StepWrapper {
    /// Create a new wrapper.
    pub fn new(step_type: StepType, data: serde_json::Value) -> (r: Self)
        ensures
            r.step_type == step_type,
            r.data == data,
    {
        StepWrapper { step_type, data }
    }
}

/// Builder for common steps.
#[derive(Debug, Clone, Copy)]
pub struct StepBuilder;

impl StepBuilder {
    /// A step inserting `text` at `pos`.
    pub fn insert(pos: usize, text: &str) -> (r: ReplaceStep)
        ensures
            r.from == pos,
            r.to == pos,
            r.slice@ == text_slice_v(text@),
            !r.structure_only,
    {
        let slice = Slice::from_text(text);
        ReplaceStep::insert(pos, slice)
    }

    /// A step deleting `from..to`.
    pub fn delete(from: usize, to: usize) -> (r: ReplaceStep)
        ensures
            r.from == from,
            r.to == to,
            r.slice@ == empty_slice_v(),
            !r.structure_only,
    {
        ReplaceStep::delete(from, to)
    }

    /// A step replacing `from..to` by `slice`.
    pub fn replace(from: usize, to: usize, slice: Slice) -> (r: ReplaceStep)
        ensures
            r.from == from,
            r.to == to,
            r.slice@ == slice@,
            !r.structure_only,
    {
        ReplaceStep::replace(from, to, slice)
    }
}

} // verus!
