//! Transactions: steps accumulated against a state, with their maps, and
//! committed into a new state.

use vstd::prelude::*;
use crate::model::node::{Node, NodeV, Mark, MarkV, marks_view, size_of, sizes_from, checked_size, checked_sizes};
use crate::state::selection::{
    Selection, SelectionV, TextSelection, NodeSelection, resolved_range, resolve_selection_v,
    text_anchor, text_head,
};
use crate::state::state::{EditorState, EditorStateV, StoredMarks};
use crate::transform::map::{StepMap, Mapping, map_prefix};
use crate::transform::replace::{ReplaceStep, SetMarksStep, Slice};
use crate::transform::step::{
    Step, Storable, Invertible, StoredStep, StepError, StepErrorV, StepResult, StepResultV,
};
use crate::strings::{to_string, append_str, decimal, decimal_v};

verus! {

/// A step as a transaction stores it, with its map and its inverse.
#[derive(Debug)]
pub struct StepWrapper {
    /// The step
    pub step: StoredStep,
    /// The step map for this step
    pub map: StepMap,
    /// Inverted step for undo
    pub inverted: Option<StoredStep>,
}

impl StepWrapper {
    /// Create a new wrapper.
    pub fn new(step: StoredStep, map: StepMap, inverted: Option<StoredStep>) -> (r: Self)
        ensures
            r == (StepWrapper { step, map, inverted }),
    {
        StepWrapper { step, map, inverted }
    }
}

/// Transaction metadata.
#[derive(Debug)]
pub struct TransactionMeta {
    /// Description of the transaction
    pub description: Option<String>,
    /// Whether this was a user action
    pub user_action: bool,
    /// Timestamp
    pub timestamp: Option<u64>,
}

/// The view of transaction metadata.
pub struct TransactionMetaV {
    pub description: Option<Seq<char>>,
    pub user_action: bool,
    pub timestamp: Option<u64>,
}

impl View for TransactionMeta {
    type V = TransactionMetaV;

    open spec fn view(&self) -> TransactionMetaV {
        TransactionMetaV {
            description: match self.description {
                Some(d) => Some(d@),
                None => None,
            },
            user_action: self.user_action,
            timestamp: self.timestamp,
        }
    }
}

impl Default for TransactionMeta {
    fn default() -> (r: Self)
        ensures
            r@ == (TransactionMetaV { description: None, user_action: false, timestamp: None }),
    {
        TransactionMeta { description: None, user_action: false, timestamp: None }
    }
}

impl Clone for TransactionMeta {
    fn clone(&self) -> (r: Self)
        ensures
            r@ == self@,
    {
        TransactionMeta {
            description: match &self.description {
                Some(d) => Some(d.clone()),
                None => None,
            },
            user_action: self.user_action,
            timestamp: self.timestamp,
        }
    }
}

/// A transaction: steps accumulated against the state `before`.
#[derive(Debug)]
pub struct Transaction {
    /// The original state
    pub before: EditorState,
    /// The accumulated steps
    pub steps: Vec<StepWrapper>,
    /// The accumulated mapping
    pub mapping: Mapping,
    /// The updated selection (before being applied to state)
    pub selection: Option<Selection>,
    /// Updated stored marks
    pub stored_marks: Option<StoredMarks>,
    /// Whether this is a redo
    pub is_redo: bool,
    /// User-provided metadata
    pub meta: Option<TransactionMeta>,
}

// ---------------------------------------------------------------------------
// Transactions, as mathematics
// ---------------------------------------------------------------------------

/// Applying `steps[k..]` in order to `doc`: the first step that cannot run
/// without an arithmetic fault, or that fails, stops the replay.
pub open spec fn replay(doc: NodeV, steps: Seq<StepWrapper>, k: int) -> Result<NodeV, StepErrorV>
    decreases steps.len() - k,
{
    if 0 <= k < steps.len() {
        if !steps[k].step.can_apply(doc) {
            Err(StepErrorV::InvalidStep)
        } else {
            match steps[k].step.spec_apply(doc) {
                Ok(res) => replay(res.doc, steps, k + 1),
                Err(e) => Err(e),
            }
        }
    } else {
        Ok(doc)
    }
}

/// The document after the steps of `t`; the document before them when
/// replaying fails.
pub open spec fn working_doc(t: Transaction) -> NodeV {
    match replay(t.before@.doc, t.steps@, 0) {
        Ok(d) => d,
        Err(_) => t.before@.doc,
    }
}

/// The size a step result inserted.
pub open spec fn inserted_v(res: StepResultV) -> nat {
    match res.slice {
        Some(s) => sizes_from(s.content, 0),
        None => 0,
    }
}

/// The stored step runs as `step` does on every document.
pub open spec fn behaves_like<S: Step>(s: StoredStep, step: S) -> bool {
    &&& forall|d: NodeV| #[trigger] s.can_apply(d) == step.can_apply(d)
    &&& forall|d: NodeV| #[trigger] s.spec_apply(d) == step.spec_apply(d)
}

/// The map of a step result.
pub open spec fn result_map(res: StepResultV) -> StepMap {
    StepMap { from: res.from as usize, to: res.to as usize, new_size: inserted_v(res) as usize }
}

/// `n` is `t` with one more step, `step`, whose map ends the mapping.
pub open spec fn step_pushed<S: Step>(t: Transaction, n: Transaction, step: S, res: StepResultV) -> bool {
    &&& n.steps@.len() == t.steps@.len() + 1
    &&& n.steps@.take(t.steps@.len() as int) == t.steps@
    &&& behaves_like(n.steps@.last().step, step)
    &&& n.steps@.last().map == result_map(res)
    &&& n.mapping.maps@ == t.mapping.maps@.push(result_map(res))
    &&& n.before == t.before
    &&& n.selection == t.selection
    &&& n.stored_marks == t.stored_marks
    &&& n.is_redo == t.is_redo
    &&& n.meta == t.meta
}

/// What `add_step` does to `t`: when `step` runs on the working document,
/// succeeds, can be inverted there and its inserted size fits, the step is
/// recorded with its map and its inverse; otherwise nothing changes.
pub open spec fn step_added<S: Step + Invertible>(t: Transaction, n: Transaction, step: S) -> bool {
    let d = working_doc(t);
    if step.can_apply(d) && step.spec_apply(d) is Ok && step.can_invert(d) && inserted_v(
        step.spec_apply(d)->Ok_0,
    ) <= usize::MAX {
        &&& step_pushed(t, n, step, step.spec_apply(d)->Ok_0)
        &&& n.steps@.last().inverted matches Some(inv) && exists|i: S|
            step.inverts(d, i) && #[trigger] behaves_like(inv, i)
    } else {
        n == t
    }
}

/// What `add_structural_step` does to `t`: when `step` runs on the working
/// document, succeeds and its inserted size fits, the step is recorded with
/// its map and no inverse; otherwise nothing changes.
pub open spec fn structural_step_added<S: Step>(t: Transaction, n: Transaction, step: S) -> bool {
    let d = working_doc(t);
    if step.can_apply(d) && step.spec_apply(d) is Ok && inserted_v(step.spec_apply(d)->Ok_0)
        <= usize::MAX {
        &&& step_pushed(t, n, step, step.spec_apply(d)->Ok_0)
        &&& n.steps@.last().inverted is None
    } else {
        n == t
    }
}

/// `n` is `t` with another selection.
pub open spec fn selection_set(t: Transaction, n: Transaction, s: SelectionV) -> bool {
    &&& n.selection matches Some(x) && x@ == s
    &&& n.before == t.before
    &&& n.steps == t.steps
    &&& n.mapping == t.mapping
    &&& n.stored_marks == t.stored_marks
    &&& n.is_redo == t.is_redo
    &&& n.meta == t.meta
}

/// `n` is `t` with other stored marks.
pub open spec fn stored_marks_set(t: Transaction, n: Transaction, ms: Seq<MarkV>) -> bool {
    &&& n.stored_marks matches Some(x) && x@ == ms
    &&& n.before == t.before
    &&& n.steps == t.steps
    &&& n.mapping == t.mapping
    &&& n.selection == t.selection
    &&& n.is_redo == t.is_redo
    &&& n.meta == t.meta
}

/// `n` is `t` with other metadata.
pub open spec fn meta_set(t: Transaction, n: Transaction, m: TransactionMetaV) -> bool {
    &&& n.meta matches Some(x) && x@ == m
    &&& n.before == t.before
    &&& n.steps == t.steps
    &&& n.mapping == t.mapping
    &&& n.selection == t.selection
    &&& n.stored_marks == t.stored_marks
    &&& n.is_redo == t.is_redo
}

/// The metadata of `t`, default when it has none.
pub open spec fn meta_or_default(t: Transaction) -> TransactionMetaV {
    match t.meta {
        Some(m) => m@,
        None => TransactionMetaV { description: None, user_action: false, timestamp: None },
    }
}

/// The selection a commit builds in `d`: the transaction's own, resolved
/// in `d`; else the old selection carried through the mapping (none when a
/// position cannot be mapped without an arithmetic fault).
pub open spec fn commit_selection_v(t: Transaction, d: NodeV) -> Option<SelectionV> {
    match t.selection {
        Some(s) => Some(resolve_selection_v(d, s@)),
        None => match t.before@.selection {
            SelectionV::Text(rs) => {
                let a = text_anchor(rs) as usize;
                let h = text_head(rs) as usize;
                if t.mapping.can_map(a) && t.mapping.can_map(h) {
                    Some(
                        SelectionV::Text(
                            seq![
                                resolved_range(
                                    d,
                                    t.mapping.spec_map(a).pos as nat,
                                    t.mapping.spec_map(h).pos as nat,
                                ),
                            ],
                        ),
                    )
                } else {
                    None
                }
            },
            SelectionV::Node { pos, depth } => if t.mapping.can_map(pos as usize) {
                Some(SelectionV::Node { pos: t.mapping.spec_map(pos as usize).pos as nat, depth })
            } else {
                None
            },
        },
    }
}

/// The state a commit builds: the replayed document, the commit selection,
/// the transaction's stored marks (else the old ones) and the old schema.
/// It fails when replaying fails, when the new document's size does not
/// fit in a `usize`, or when the old selection cannot be mapped.
pub open spec fn commit_v(t: Transaction) -> Result<EditorStateV, StepErrorV> {
    match replay(t.before@.doc, t.steps@, 0) {
        Err(e) => Err(e),
        Ok(d) => if size_of(d) > usize::MAX {
            Err(StepErrorV::InvalidStep)
        } else {
            match commit_selection_v(t, d) {
                None => Err(StepErrorV::PositionOutOfRange(t.before@.selection.anchor())),
                Some(sel) => Ok(
                    EditorStateV {
                        doc: d,
                        selection: sel,
                        stored_marks: match t.stored_marks {
                            Some(m) => m@,
                            None => t.before@.stored_marks,
                        },
                        schema: t.before@.schema,
                    },
                ),
            }
        },
    }
}

/// `n` is `t` marked as a user action, the rest of its metadata kept.
pub open spec fn marked_user_action(t: Transaction, n: Transaction) -> bool {
    meta_set(t, n, TransactionMetaV { user_action: true, ..meta_or_default(t) })
}

/// A fresh transaction on `state`.
pub open spec fn fresh(t: Transaction, state: EditorStateV) -> bool {
    &&& t.before@ == state
    &&& t.steps@.len() == 0
    &&& t.mapping.maps@.len() == 0
    &&& t.selection is None
    &&& t.stored_marks is None
    &&& !t.is_redo
    &&& t.meta is None
}

/// The view of a commit's outcome.
pub open spec fn commit_view(r: Result<EditorState, StepError>) -> Result<EditorStateV, StepErrorV> {
    match r {
        Ok(s) => Ok(s@),
        Err(e) => Err(e@),
    }
}

/// The view of a replay's outcome.
pub open spec fn doc_view(r: Result<Node, StepError>) -> Result<NodeV, StepErrorV> {
    match r {
        Ok(d) => Ok(d@),
        Err(e) => Err(e@),
    }
}

/// The size a step result inserted, or `None` when it does not fit.
fn checked_inserted(result: &StepResult) -> (r: Option<usize>)
    ensures
        match r {
            Some(k) => k == inserted_v(result@),
            None => inserted_v(result@) > usize::MAX,
        },
{
    match &result.slice {
        Some(s) => checked_sizes(&s.content),
        None => Some(0),
    }
}

/// Copies of a slice of marks.
fn copy_marks(ms: &[Mark]) -> (r: Vec<Mark>)
    ensures
        marks_view(r@) == marks_view(ms@),
{
    let mut out: Vec<Mark> = Vec::new();
    let mut i: usize = 0;
    while i < ms.len()
        invariant
            i <= ms@.len(),
            out@.len() == i,
            forall|j: int| 0 <= j < i ==> #[trigger] out@[j]@ == ms@[j]@,
        decreases ms@.len() - i,
    {
        out.push(ms[i].clone());
        i = i + 1;
    }
    proof {
        assert(marks_view(out@) =~= marks_view(ms@));
    }
    out
}

impl Transaction {
    /// A new transaction on `state`.
    pub fn new(state: EditorState) -> (r: Self)
        ensures
            fresh(r, state@),
    {
        Transaction {
            before: state,
            steps: Vec::new(),
            mapping: Mapping::new(),
            selection: None,
            stored_marks: None,
            is_redo: false,
            meta: None,
        }
    }

    /// The original state.
    pub fn before(&self) -> (r: &EditorState)
        ensures
            *r == self.before,
    {
        &self.before
    }

    /// The number of steps.
    pub fn step_count(&self) -> (r: usize)
        ensures
            r == self.steps@.len(),
    {
        self.steps.len()
    }

    /// The mapping.
    pub fn mapping(&self) -> (r: &Mapping)
        ensures
            *r == self.mapping,
    {
        &self.mapping
    }

    /// The steps.
    pub fn steps(&self) -> (r: &[StepWrapper])
        ensures
            r@ == self.steps@,
    {
        self.steps.as_slice()
    }

    /// The document after the steps.
    fn current_doc(&self) -> (r: Result<Node, StepError>)
        ensures
            doc_view(r) == replay(self.before@.doc, self.steps@, 0),
    {
        let mut doc = self.before.doc().clone();
        let mut i: usize = 0;
        while i < self.steps.len()
            invariant
                i <= self.steps@.len(),
                replay(doc@, self.steps@, i as int) == replay(self.before@.doc, self.steps@, 0),
            decreases self.steps@.len() - i,
        {
            let wrapper = &self.steps[i];
            if !wrapper.step.fits(&doc) {
                return Err(StepError::InvalidStep);
            }
            match wrapper.step.apply(&doc) {
                Ok(result) => {
                    doc = result.doc;
                },
                Err(e) => {
                    return Err(e);
                },
            }
            i = i + 1;
        }
        Ok(doc)
    }

    /// The document the next step applies to.
    fn working_document(&self) -> (r: Node)
        ensures
            r@ == working_doc(*self),
    {
        match self.current_doc() {
            Ok(d) => d,
            Err(_) => self.before.doc().clone(),
        }
    }

    /// Insert `text` at `pos`.
    pub fn insert_text(&mut self, pos: usize, text: &str) -> (r: &mut Self)
        ensures
            exists|step: ReplaceStep|
                step.from == pos && step.to == pos && step.slice@ == crate::transform::replace::text_slice_v(text@)
                    && !step.structure_only && #[trigger] step_added(*old(self), *r, step),
            *final(self) == *final(r),
    {
        let slice = Slice::from_text(text);
        self.replace(pos, pos, slice)
    }

    /// Delete `from..to`.
    pub fn delete(&mut self, from: usize, to: usize) -> (r: &mut Self)
        ensures
            exists|step: ReplaceStep|
                step.from == from && step.to == to && step.slice@ == crate::transform::replace::empty_slice_v()
                    && !step.structure_only && #[trigger] step_added(*old(self), *r, step),
            *final(self) == *final(r),
    {
        self.replace(from, to, Slice::empty())
    }

    /// Replace `from..to` by `slice`.
    pub fn replace(&mut self, from: usize, to: usize, slice: Slice) -> (r: &mut Self)
        ensures
            exists|step: ReplaceStep|
                step.from == from && step.to == to && step.slice@ == slice@ && !step.structure_only
                    && #[trigger] step_added(*old(self), *r, step),
            *final(self) == *final(r),
    {
        let step = ReplaceStep::new(from, to, slice);
        let ghost g = step;
        let r = self.add_step(step);
        proof {
            assert(step_added(*old(self), *r, g));
        }
        r
    }

    /// Apply `step` to the working document and record it with its map
    /// and its inverse; a step that fails, cannot be inverted there, or
    /// would overflow a size is dropped.
    pub fn add_step<S: Storable + Invertible>(&mut self, step: S) -> (r: &mut Self)
        ensures
            step_added(*old(self), *r, step),
            *final(self) == *final(r),
    {
        let doc = self.working_document();
        if !step.fits(&doc) {
            return self;
        }
        match step.apply(&doc) {
            Ok(result) => {
                if !step.can_invert_on(&doc) {
                    return self;
                }
                match checked_inserted(&result) {
                    Some(size) => {
                        let step_map = StepMap::new(result.from, result.to, size);
                        let inverted = step.invert(&doc);
                        let ghost inv = inverted;
                        let ghost g = step;
                        let stored = step.into_stored();
                        let stored_inv = inverted.into_stored();
                        let ghost before = *self;
                        self.steps.push(StepWrapper::new(stored, step_map, Some(stored_inv)));
                        self.mapping.add_map(step_map);
                        proof {
                            assert(self.steps@.take(before.steps@.len() as int) =~= before.steps@);
                            assert(behaves_like(stored_inv, inv));
                        }
                    },
                    None => {},
                }
            },
            Err(_) => {},
        }
        self
    }

    /// Apply `step` to the working document and record it with its map and
    /// no inverse; a step that fails, or would overflow a size, is dropped.
    pub fn add_structural_step<S: Storable>(&mut self, step: S) -> (r: &mut Self)
        ensures
            structural_step_added(*old(self), *r, step),
            *final(self) == *final(r),
    {
        let doc = self.working_document();
        if !step.fits(&doc) {
            return self;
        }
        match step.apply(&doc) {
            Ok(result) => {
                match checked_inserted(&result) {
                    Some(size) => {
                        let step_map = StepMap::new(result.from, result.to, size);
                        let stored = step.into_stored();
                        let ghost before = *self;
                        self.steps.push(StepWrapper::new(stored, step_map, None));
                        self.mapping.add_map(step_map);
                        proof {
                            assert(self.steps@.take(before.steps@.len() as int) =~= before.steps@);
                        }
                    },
                    None => {},
                }
            },
            Err(_) => {},
        }
        self
    }

    /// Set the selection.
    pub fn set_selection(&mut self, selection: Selection) -> (r: &mut Self)
        ensures
            selection_set(*old(self), *r, selection@),
            *final(self) == *final(r),
    {
        self.selection = Some(selection);
        self
    }

    /// Set the selection to a cursor at `pos`, resolved in the original
    /// document.
    pub fn set_cursor(&mut self, pos: usize) -> (r: &mut Self)
        ensures
            selection_set(
                *old(self),
                *r,
                SelectionV::Text(seq![resolved_range(old(self).before@.doc, pos as nat, pos as nat)]),
            ),
            *final(self) == *final(r),
    {
        let sel = Selection::text(TextSelection::at(self.before.doc(), pos));
        self.selection = Some(sel);
        self
    }

    /// Set the selection to `anchor..head`, resolved in the original document.
    pub fn set_selection_range(&mut self, anchor: usize, head: usize) -> (r: &mut Self)
        ensures
            selection_set(
                *old(self),
                *r,
                SelectionV::Text(
                    seq![resolved_range(old(self).before@.doc, anchor as nat, head as nat)],
                ),
            ),
            *final(self) == *final(r),
    {
        let sel = Selection::text(TextSelection::create(self.before.doc(), anchor, head));
        self.selection = Some(sel);
        self
    }

    /// Add `mark` over `from..to`; over an empty range, store it instead.
    pub fn add_mark(&mut self, from: usize, to: usize, mark: Mark) -> (r: &mut Self)
        ensures
            from == to ==> stored_marks_set(
                *old(self),
                *r,
                match old(self).stored_marks {
                    Some(m) => m@,
                    None => seq![],
                }.push(mark@),
            ),
            from != to ==> exists|step: SetMarksStep|
                step.from == from && step.to == to && marks_view(step.add@) == seq![mark@]
                    && step.remove@.len() == 0 && #[trigger] structural_step_added(
                    *old(self),
                    *r,
                    step,
                ),
            *final(self) == *final(r),
    {
        if from == to {
            let mut marks = match self.stored_marks.take() {
                Some(m) => m,
                None => StoredMarks::empty(),
            };
            marks.add(mark);
            self.stored_marks = Some(marks);
            self
        } else {
            let step = SetMarksStep::add_mark(from, to, mark);
            let ghost g = step;
            let r = self.add_structural_step(step);
            proof {
                assert(structural_step_added(*old(self), *r, g));
            }
            r
        }
    }

    /// Remove marks of type `mark_type` over `from..to`; over an empty
    /// range, remove them from the stored marks instead.
    pub fn remove_mark(&mut self, from: usize, to: usize, mark_type: &str) -> (r: &mut Self)
        ensures
            from == to ==> stored_marks_set(
                *old(self),
                *r,
                crate::model::node::keep_marks(
                    match old(self).stored_marks {
                        Some(m) => m@,
                        None => seq![],
                    },
                    seq![mark_type@],
                ),
            ),
            from != to ==> exists|step: SetMarksStep|
                step.from == from && step.to == to && step.add@.len() == 0
                    && crate::model::node::strings_view(step.remove@) == seq![mark_type@]
                    && #[trigger] structural_step_added(*old(self), *r, step),
            *final(self) == *final(r),
    {
        if from == to {
            let mut marks = match self.stored_marks.take() {
                Some(m) => m,
                None => StoredMarks::empty(),
            };
            marks.remove(mark_type);
            self.stored_marks = Some(marks);
            self
        } else {
            let step = SetMarksStep::remove_mark(from, to, mark_type);
            let ghost g = step;
            let r = self.add_structural_step(step);
            proof {
                assert(structural_step_added(*old(self), *r, g));
            }
            r
        }
    }

    /// Set the stored marks to none.
    pub fn clear_stored_marks(&mut self) -> (r: &mut Self)
        ensures
            stored_marks_set(*old(self), *r, seq![]),
            *final(self) == *final(r),
    {
        self.stored_marks = Some(StoredMarks::empty());
        self
    }

    /// Set the metadata.
    pub fn with_meta(&mut self, meta: TransactionMeta) -> (r: &mut Self)
        ensures
            meta_set(*old(self), *r, meta@),
            *final(self) == *final(r),
    {
        self.meta = Some(meta);
        self
    }

    /// Set the description, keeping the rest of the metadata.
    pub fn with_description(&mut self, desc: &str) -> (r: &mut Self)
        ensures
            meta_set(
                *old(self),
                *r,
                TransactionMetaV { description: Some(desc@), ..meta_or_default(*old(self)) },
            ),
            *final(self) == *final(r),
    {
        let meta = match self.meta.take() {
            Some(m) => m,
            None => TransactionMeta::default(),
        };
        self.meta = Some(
            TransactionMeta {
                description: Some(to_string(desc)),
                user_action: meta.user_action,
                timestamp: meta.timestamp,
            },
        );
        self
    }

    /// Mark the transaction as a user action, keeping the rest of the
    /// metadata.
    pub fn user_action(&mut self) -> (r: &mut Self)
        ensures
            marked_user_action(*old(self), *r),
            *final(self) == *final(r),
    {
        let meta = match self.meta.take() {
            Some(m) => m,
            None => TransactionMeta::default(),
        };
        self.meta = Some(
            TransactionMeta {
                description: meta.description,
                user_action: true,
                timestamp: meta.timestamp,
            },
        );
        self
    }

    /// The state the transaction produces.
    pub fn commit(&self) -> (r: Result<EditorState, StepError>)
        ensures
            commit_view(r) == commit_v(*self),
    {
        let doc = match self.current_doc() {
            Ok(d) => d,
            Err(e) => {
                return Err(e);
            },
        };
        match checked_size(&doc) {
            Some(_) => {},
            None => {
                return Err(StepError::InvalidStep);
            },
        }
        let selection = match &self.selection {
            Some(sel) => sel.resolve(&doc),
            None => {
                let old_sel = self.before.selection();
                match old_sel {
                    Selection::Text(text_sel) => {
                        let a = text_sel.anchor();
                        let h = text_sel.head();
                        if !self.mapping.fits(a) || !self.mapping.fits(h) {
                            return Err(StepError::PositionOutOfRange(old_sel.anchor()));
                        }
                        let anchor = self.mapping.map(a).pos;
                        let head = self.mapping.map(h).pos;
                        Selection::text(TextSelection::create(&doc, anchor, head))
                    },
                    Selection::Node(node_sel) => {
                        if !self.mapping.fits(node_sel.pos()) {
                            return Err(StepError::PositionOutOfRange(old_sel.anchor()));
                        }
                        let pos = self.mapping.map(node_sel.pos()).pos;
                        Selection::node(NodeSelection::new(pos, node_sel.depth()))
                    },
                }
            },
        };
        let stored_marks = match &self.stored_marks {
            Some(m) => m.clone(),
            None => StoredMarks::new(copy_marks(self.before.stored_marks())),
        };
        Ok(EditorState::with_marks(doc, selection, stored_marks, self.before.schema().clone()))
    }

    /// A fresh transaction on the original state.
    pub fn invert(&self) -> (r: Transaction)
        ensures
            fresh(r, self.before@),
    {
        Transaction::new(self.before.clone())
    }

    /// The display form: `Transaction(steps=n)`.
    pub fn to_string(&self) -> (r: String)
        ensures
            r@ == "Transaction(steps="@ + decimal_v(self.steps@.len()) + ")"@,
    {
        let mut s = to_string("Transaction(steps=");
        let n = decimal(self.steps.len());
        append_str(&mut s, n.as_str());
        append_str(&mut s, ")");
        s
    }
}

/// Builder for common transactions.
#[derive(Debug, Clone, Copy)]
pub struct TransactionBuilder;

impl TransactionBuilder {
    /// A fresh transaction on a copy of `state`.
    pub fn from(state: &EditorState) -> (r: Transaction)
        ensures
            fresh(r, state@),
    {
        Transaction::new(state.clone())
    }

    /// A user action inserting `text` at `pos`.
    pub fn insert(state: &EditorState, pos: usize, text: &str) -> (r: Transaction)
        ensures
            exists|t0: Transaction, t1: Transaction, step: ReplaceStep|
                fresh(t0, state@) && step.from == pos && step.to == pos && step.slice@
                    == crate::transform::replace::text_slice_v(text@) && !step.structure_only
                    && #[trigger] step_added(t0, t1, step) && marked_user_action(t1, r),
    {
        let mut tr = Transaction::new(state.clone());
        let ghost t0 = tr;
        tr.insert_text(pos, text);
        let ghost t1 = tr;
        tr.user_action();
        tr
    }

    /// A user action deleting `from..to`.
    pub fn delete(state: &EditorState, from: usize, to: usize) -> (r: Transaction)
        ensures
            exists|t0: Transaction, t1: Transaction, step: ReplaceStep|
                fresh(t0, state@) && step.from == from && step.to == to && step.slice@
                    == crate::transform::replace::empty_slice_v() && !step.structure_only
                    && #[trigger] step_added(t0, t1, step) && marked_user_action(t1, r),
    {
        let mut tr = Transaction::new(state.clone());
        tr.delete(from, to);
        tr.user_action();
        tr
    }

    /// A user action replacing `from..to` by `slice`.
    pub fn replace(state: &EditorState, from: usize, to: usize, slice: Slice) -> (r: Transaction)
        ensures
            exists|t0: Transaction, t1: Transaction, step: ReplaceStep|
                fresh(t0, state@) && step.from == from && step.to == to && step.slice@ == slice@
                    && !step.structure_only && #[trigger] step_added(t0, t1, step)
                    && marked_user_action(t1, r),
    {
        let mut tr = Transaction::new(state.clone());
        tr.replace(from, to, slice);
        tr.user_action();
        tr
    }
}


/// The selection of `s` carried through no change: a text selection becomes
/// its primary range resolved in the document; a node selection stays.
pub open spec fn unchanged_selection(s: EditorStateV) -> SelectionV {
    match s.selection {
        SelectionV::Text(rs) => SelectionV::Text(
            seq![resolved_range(s.doc, text_anchor(rs), text_head(rs))],
        ),
        SelectionV::Node { .. } => s.selection,
    }
}

/// A transaction with no change, such as the inverse of any transaction,
/// commits back to the state it started from: the same document, stored
/// marks and schema, and the same selection; it succeeds exactly when the
/// document's size fits in a `usize`.
pub proof fn law_unchanged_transaction_restores_state(t: Transaction, s: EditorStateV)
    requires
        fresh(t, s),
        s.selection.positions_fit(),
    ensures
        commit_v(t) is Ok <==> size_of(s.doc) <= usize::MAX,
        commit_v(t) matches Ok(n) ==> n == (EditorStateV { selection: unchanged_selection(s), ..s }),
{
    let done: Result<NodeV, StepErrorV> = Ok(s.doc);
    assert(replay(s.doc, t.steps@, 0) == done);
    match s.selection {
        SelectionV::Text(rs) => {
            let a = text_anchor(rs) as usize;
            let h = text_head(rs) as usize;
            assert(t.mapping.can_map(a) && t.mapping.can_map(h));
            assert(t.mapping.spec_map(a).pos == a);
            assert(t.mapping.spec_map(h).pos == h);
        },
        SelectionV::Node { pos, depth } => {
            assert(t.mapping.can_map(pos as usize));
            assert(t.mapping.spec_map(pos as usize).pos == pos as usize);
        },
    }
}


/// With no selection of its own, a committed transaction carries the old
/// selection through its mapping: the new anchor is the old anchor mapped
/// through every step map in order, and the new head is the old head mapped
/// the same way (a node selection's position likewise, its depth kept).
pub proof fn law_commit_maps_both_ends(t: Transaction)
    requires
        t.selection is None,
        t.before@.selection.positions_fit(),
    ensures
        commit_v(t) matches Ok(n) ==> n.selection.anchor() == map_prefix(
            t.mapping.maps@,
            t.before@.selection.anchor() as usize,
            t.mapping.maps@.len() as int,
        ).pos,
        commit_v(t) matches Ok(n) ==> n.selection.head() == map_prefix(
            t.mapping.maps@,
            t.before@.selection.head() as usize,
            t.mapping.maps@.len() as int,
        ).pos,
        commit_v(t) matches Ok(n) ==> (n.selection is Node <==> t.before@.selection is Node),
{
}

} // verus!
