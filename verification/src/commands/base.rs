//! The base commands: deleting, typing, joining and splitting blocks,
//! moving the cursor, selecting all and toggling marks.

use vstd::prelude::*;
use crate::model::node::{
    Mark, MarkV, NodeV, has_mark_named, plain_text_of, size_of, sizes_from, text_of, text_v,
    texts_from, with_plain_text_v,
};
use crate::state::selection::{SelectionV, RangeV, resolved_range, resolve_selection_v};
use crate::transform::step::{Step, Invertible, StepErrorV};
use crate::state::state::{EditorState, EditorStateV};
use crate::state::transaction::{
    Transaction, StepWrapper, fresh, step_added, structural_step_added, selection_set,
    stored_marks_set, commit_v, working_doc, inserted_v, replay,
};
use crate::transform::replace::{
    ReplaceStep, SplitBlockStep, JoinBackwardStep, SetMarksStep, Slice, empty_slice_v, text_slice_v,
    replace_range, law_replace_writes_text, SliceV,
};
use crate::strings::{char_count, str_eq, to_string};
use self::helpers::{cursor_v, cursor_of, replaced_then_cursor, selected};

pub mod executor;
pub mod helpers;

verus! {

/// The base editing commands. Each builds a transaction on `state`.
pub trait BaseCommands {
    /// Delete the selection.
    fn delete_selection(&self, state: &EditorState) -> Transaction
        requires
            state@.selection.to_fits(),
    ;

    /// Replace the selection by `text`.
    fn type_text(&self, state: &EditorState, text: &str) -> Transaction
        requires
            state@.selection.to_fits(),
            state@.selection.from() + text@.len() <= usize::MAX,
    ;

    /// Delete backward from the selection or cursor.
    fn delete_backward(&self, state: &EditorState) -> Transaction
        requires
            state@.selection.to_fits(),
    ;

    /// Delete forward from the selection or cursor.
    fn delete_forward(&self, state: &EditorState) -> Transaction
        requires
            state@.selection.to_fits(),
    ;

    /// Join the block at the cursor with the one before it.
    fn join_backward(&self, state: &EditorState) -> Transaction;

    /// Join the block at the cursor with the one after it.
    fn join_forward(&self, state: &EditorState) -> Transaction;

    /// Split the block at the cursor.
    fn split_block(&self, state: &EditorState) -> Transaction;

    /// Move the cursor one character forward.
    fn move_forward_char(&self, state: &EditorState) -> Transaction
        requires
            cursor_of(state@) < usize::MAX,
    ;

    /// Move the cursor one character backward.
    fn move_backward_char(&self, state: &EditorState) -> Transaction;

    /// Move the cursor one line up.
    fn move_up(&self, state: &EditorState) -> Transaction;

    /// Move the cursor one line down.
    fn move_down(&self, state: &EditorState) -> Transaction;

    /// Select the whole document.
    fn select_all(&self, state: &EditorState) -> Transaction;

    /// Toggle a mark (bold, italic, etc.).
    fn toggle_mark(&self, state: &EditorState, mark_type: &str) -> Transaction
        requires
            state@.selection.to_fits(),
    ;

    /// Wrap the selection in a block.
    fn wrap_in(&self, state: &EditorState, block_type: &str) -> Transaction;

    /// Lift the selection out of its parent.
    fn lift(&self, state: &EditorState) -> Transaction;
}

/// The default implementation of the base commands.
#[derive(Debug, Clone, Copy, Default)]
pub struct BaseCommandsImpl;

impl BaseCommandsImpl {
    /// Create a new instance.
    pub fn new() -> (r: Self)
        ensures
            r == BaseCommandsImpl,
    {
        BaseCommandsImpl
    }
}

/// `r` is a fresh transaction on `s` that recorded a split at `pos`, then
/// put the cursor at `pos`.
pub open spec fn split_then_cursor(s: EditorStateV, r: Transaction, pos: nat) -> bool {
    exists|t0: Transaction, t1: Transaction, step: SplitBlockStep|
        #![trigger structural_step_added(t0, t1, step)]
        fresh(t0, s) && step.pos == pos && structural_step_added(t0, t1, step) && selection_set(
            t1,
            r,
            cursor_v(s.doc, pos),
        )
}

/// `r` is a fresh transaction on `s` that recorded a backward join at
/// `pos`, then put the cursor at `pos`.
pub open spec fn joined_then_cursor(s: EditorStateV, r: Transaction, pos: nat) -> bool {
    exists|t0: Transaction, t1: Transaction, step: JoinBackwardStep|
        #![trigger structural_step_added(t0, t1, step)]
        fresh(t0, s) && step.pos == pos && structural_step_added(t0, t1, step) && selection_set(
            t1,
            r,
            cursor_v(s.doc, pos),
        )
}

/// What typing `text` builds on `s`: the selection replaced by the text,
/// the cursor after it.
pub open spec fn typed(s: EditorStateV, r: Transaction, text: Seq<char>) -> bool {
    replaced_then_cursor(
        s,
        r,
        s.selection.from(),
        s.selection.to(),
        text_slice_v(text),
        s.selection.from() + text.len(),
    )
}

/// What deleting backward builds on `s`: the selected range deleted; at a
/// cursor, the character before it (nothing at 0).
pub open spec fn deleted_backward(s: EditorStateV, r: Transaction) -> bool {
    let from = s.selection.from();
    let to = s.selection.to();
    if from != to {
        replaced_then_cursor(s, r, from, to, empty_slice_v(), from)
    } else if from == 0 {
        fresh(r, s)
    } else {
        replaced_then_cursor(s, r, (from - 1) as nat, from, empty_slice_v(), (from - 1) as nat)
    }
}

/// What deleting forward builds on `s`: the selected range deleted; at a
/// cursor, the character after it (nothing at the end of the text).
pub open spec fn deleted_forward(s: EditorStateV, r: Transaction) -> bool {
    let from = s.selection.from();
    let to = s.selection.to();
    if from != to {
        replaced_then_cursor(s, r, from, to, empty_slice_v(), from)
    } else if from >= plain_text_of(s.doc).len() {
        fresh(r, s)
    } else {
        replaced_then_cursor(s, r, from, from + 1, empty_slice_v(), from)
    }
}

/// What moving forward builds on `s`: a cursor one character after the
/// cursor, at most at the end of the plain text.
pub open spec fn moved_forward(s: EditorStateV, r: Transaction) -> bool {
    selected(
        s,
        r,
        cursor_v(
            s.doc,
            if cursor_of(s) + 1 <= plain_text_of(s.doc).len() {
                (cursor_of(s) + 1) as nat
            } else {
                plain_text_of(s.doc).len()
            },
        ),
    )
}

/// What moving backward builds on `s`: a cursor one character before the
/// cursor, at least at 0.
pub open spec fn moved_backward(s: EditorStateV, r: Transaction) -> bool {
    selected(
        s,
        r,
        cursor_v(
            s.doc,
            if cursor_of(s) >= 1 {
                (cursor_of(s) - 1) as nat
            } else {
                0
            },
        ),
    )
}

/// What selecting all builds on `s`: the range from 0 to the end of the
/// plain text.
pub open spec fn selected_all(s: EditorStateV, r: Transaction) -> bool {
    selected(s, r, SelectionV::Text(seq![resolved_range(s.doc, 0, plain_text_of(s.doc).len())]))
}

/// The mark a toggle adds: the type alone, no attributes.
pub open spec fn plain_mark(name: Seq<char>) -> MarkV {
    MarkV { mark_type: name, attrs: None }
}

/// What toggling `name` builds on `s`: when a stored mark has the type,
/// the type is removed over the selection (from the stored marks when it
/// is empty); otherwise the mark is added from the selection start to the
/// larger of its end and the cursor (stored when that range is empty).
pub open spec fn toggled(s: EditorStateV, r: Transaction, name: Seq<char>) -> bool {
    let from = s.selection.from();
    let to = s.selection.to();
    let end = if to >= cursor_of(s) {
        to
    } else {
        cursor_of(s)
    };
    exists|t0: Transaction| #![trigger fresh(t0, s)]
        fresh(t0, s) && if has_mark_named(s.stored_marks, name) {
            if from == to {
                stored_marks_set(
                    t0,
                    r,
                    crate::model::node::keep_marks(seq![], seq![name]),
                )
            } else {
                exists|step: SetMarksStep|
                    step.from == from && step.to == to && step.add@.len() == 0
                        && crate::model::node::strings_view(step.remove@) == seq![name]
                        && #[trigger] structural_step_added(t0, r, step)
            }
        } else {
            if from == end {
                stored_marks_set(t0, r, seq![plain_mark(name)])
            } else {
                exists|step: SetMarksStep|
                    step.from == from && step.to == end && crate::model::node::marks_view(step.add@)
                        == seq![plain_mark(name)] && step.remove@.len() == 0
                        && #[trigger] structural_step_added(t0, r, step)
            }
        }
}

/// Whether a stored mark has type `mark_type`.
fn stored_mark_named(state: &EditorState, mark_type: &str) -> (r: bool)
    ensures
        r == has_mark_named(state@.stored_marks, mark_type@),
{
    let marks = state.stored_marks();
    let ghost ms = state@.stored_marks;
    let mut i: usize = 0;
    while i < marks.len()
        invariant
            i <= marks@.len(),
            ms == crate::model::node::marks_view(marks@),
            ms == state@.stored_marks,
            ms.len() == marks@.len(),
            forall|j: int| 0 <= j < i ==> #[trigger] ms[j].mark_type != mark_type@,
        decreases marks@.len() - i,
    {
        if str_eq(marks[i].mark_type.as_str(), mark_type) {
            proof {
                assert(ms[i as int] == marks@[i as int]@);
                assert(ms[i as int].mark_type == mark_type@);
            }
            return true;
        }
        proof {
            assert(ms[i as int] == marks@[i as int]@);
        }
        i = i + 1;
    }
    false
}

impl BaseCommands for BaseCommandsImpl {
    /// Delete the selected range and put the cursor at its start; nothing
    /// for a collapsed selection.
    fn delete_selection(&self, state: &EditorState) -> (r: Transaction)
        ensures
            state@.selection.from() != state@.selection.to() ==> replaced_then_cursor(
                state@,
                r,
                state@.selection.from(),
                state@.selection.to(),
                empty_slice_v(),
                state@.selection.from(),
            ),
            state@.selection.from() == state@.selection.to() ==> fresh(r, state@),
    {
        let (from, to) = helpers::get_selection_range(state);
        if from != to {
            helpers::delete_range(state, from, to)
        } else {
            Transaction::new(state.clone())
        }
    }

    /// Replace the selected range by `text` and put the cursor after it.
    fn type_text(&self, state: &EditorState, text: &str) -> (r: Transaction)
        ensures
            typed(state@, r, text@),
    {
        let (from, to) = helpers::get_selection_range(state);
        let mut tr = Transaction::new(state.clone());
        let ghost t0 = tr;
        let slice = Slice::from_text(text);
        let ghost sv = slice@;
        tr.replace(from, to, slice);
        let ghost t1 = tr;
        let ghost step = choose|step: ReplaceStep|
            step.from == from && step.to == to && step.slice@ == sv && !step.structure_only
                && #[trigger] step_added(t0, t1, step);
        let len = char_count(text);
        tr.set_cursor(from + len);
        proof {
            assert(step_added(t0, t1, step));
        }
        tr
    }

    /// Delete the selected range; at a cursor, the character before it.
    fn delete_backward(&self, state: &EditorState) -> (r: Transaction)
        ensures
            deleted_backward(state@, r),
    {
        let (from, to) = helpers::get_selection_range(state);
        if from != to {
            return helpers::delete_range(state, from, to);
        }
        if from == 0 {
            return Transaction::new(state.clone());
        }
        helpers::delete_range(state, from - 1, from)
    }

    /// Delete the selected range; at a cursor, the character after it.
    fn delete_forward(&self, state: &EditorState) -> (r: Transaction)
        ensures
            deleted_forward(state@, r),
    {
        let (from, to) = helpers::get_selection_range(state);
        if from != to {
            return helpers::delete_range(state, from, to);
        }
        let text_len = state.doc().plain_text_len();
        if from >= text_len {
            return Transaction::new(state.clone());
        }
        helpers::delete_range(state, from, from + 1)
    }

    /// Record a backward join at the cursor and keep the cursor there.
    fn join_backward(&self, state: &EditorState) -> (r: Transaction)
        ensures
            joined_then_cursor(state@, r, cursor_of(state@)),
    {
        let pos = helpers::get_cursor(state);
        let mut tr = Transaction::new(state.clone());
        let ghost t0 = tr;
        tr.add_structural_step(JoinBackwardStep::new(pos));
        let ghost t1 = tr;
        tr.set_cursor(pos);
        proof {
            let step = JoinBackwardStep { pos };
            assert(structural_step_added(t0, t1, step));
        }
        tr
    }

    /// Joining forward changes nothing.
    fn join_forward(&self, state: &EditorState) -> (r: Transaction)
        ensures
            fresh(r, state@),
    {
        Transaction::new(state.clone())
    }

    /// Record a split at the cursor and keep the cursor there.
    fn split_block(&self, state: &EditorState) -> (r: Transaction)
        ensures
            split_then_cursor(state@, r, cursor_of(state@)),
    {
        let pos = helpers::get_cursor(state);
        let mut tr = Transaction::new(state.clone());
        let ghost t0 = tr;
        tr.add_structural_step(SplitBlockStep::new(pos));
        let ghost t1 = tr;
        tr.set_cursor(pos);
        proof {
            let step = SplitBlockStep { pos };
            assert(structural_step_added(t0, t1, step));
        }
        tr
    }

    /// A cursor one character after the cursor, at most at the end of the
    /// plain text.
    fn move_forward_char(&self, state: &EditorState) -> (r: Transaction)
        ensures
            moved_forward(state@, r),
    {
        let pos = helpers::get_cursor(state);
        let len = state.doc().plain_text_len();
        let next = if pos + 1 <= len {
            pos + 1
        } else {
            len
        };
        let mut tr = Transaction::new(state.clone());
        let ghost t0 = tr;
        tr.set_cursor(next);
        proof {
            assert(fresh(t0, state@));
        }
        tr
    }

    /// A cursor one character before the cursor, at least at 0.
    fn move_backward_char(&self, state: &EditorState) -> (r: Transaction)
        ensures
            moved_backward(state@, r),
    {
        let pos = helpers::get_cursor(state);
        let next = if pos >= 1 {
            pos - 1
        } else {
            0
        };
        let mut tr = Transaction::new(state.clone());
        let ghost t0 = tr;
        tr.set_cursor(next);
        proof {
            assert(fresh(t0, state@));
        }
        tr
    }

    /// Moving up changes nothing.
    fn move_up(&self, state: &EditorState) -> (r: Transaction)
        ensures
            fresh(r, state@),
    {
        Transaction::new(state.clone())
    }

    /// Moving down changes nothing.
    fn move_down(&self, state: &EditorState) -> (r: Transaction)
        ensures
            fresh(r, state@),
    {
        Transaction::new(state.clone())
    }

    /// Select from 0 to the end of the plain text.
    fn select_all(&self, state: &EditorState) -> (r: Transaction)
        ensures
            selected_all(state@, r),
    {
        let mut tr = Transaction::new(state.clone());
        let ghost t0 = tr;
        let len = state.doc().plain_text_len();
        tr.set_selection_range(0, len);
        proof {
            assert(fresh(t0, state@));
        }
        tr
    }

    /// Remove the mark type when a stored mark has it; add it otherwise.
    fn toggle_mark(&self, state: &EditorState, mark_type: &str) -> (r: Transaction)
        ensures
            toggled(state@, r, mark_type@),
    {
        let mut tr = Transaction::new(state.clone());
        let ghost t0 = tr;
        let (from, to) = helpers::get_selection_range(state);
        let has_mark = stored_mark_named(state, mark_type);
        if has_mark {
            tr.remove_mark(from, to, mark_type);
        } else {
            let pos = helpers::get_cursor(state);
            let end = if to >= pos {
                to
            } else {
                pos
            };
            let mark = Mark { mark_type: to_string(mark_type), attrs: None };
            proof {
                assert(mark@ == plain_mark(mark_type@));
            }
            tr.add_mark(from, end, mark);
        }
        proof {
            assert(fresh(t0, state@));
        }
        tr
    }

    /// Wrapping changes nothing.
    fn wrap_in(&self, state: &EditorState, _block_type: &str) -> (r: Transaction)
        ensures
            fresh(r, state@),
    {
        Transaction::new(state.clone())
    }

    /// Lifting changes nothing.
    fn lift(&self, state: &EditorState) -> (r: Transaction)
        ensures
            fresh(r, state@),
    {
        Transaction::new(state.clone())
    }
}


/// The plain text of `s` with its selection replaced by `text`.
pub open spec fn typed_text_v(s: EditorStateV, text: Seq<char>) -> Seq<char> {
    replace_range(
        plain_text_of(s.doc),
        s.selection.from() as int,
        s.selection.to() as int,
        text,
    )
}

/// Committing a fresh transaction on `s` that replaced `from..to` by a
/// slice holding `ins`, then set a cursor at `cursor`: it gives the plain
/// text with the range replaced and the cursor at `cursor`, and fails only
/// when the new document's size does not fit in a `usize`.
proof fn lemma_replace_then_cursor_commits(
    s: EditorStateV,
    tr: Transaction,
    from: nat,
    to: nat,
    slice: SliceV,
    ins: Seq<char>,
    cursor: nat,
)
    requires
        replaced_then_cursor(s, tr, from, to, slice, cursor),
        from <= to <= plain_text_of(s.doc).len(),
        texts_from(slice.content, 0) == ins,
        sizes_from(slice.content, 0) == ins.len(),
        from + ins.len() <= usize::MAX,
    ensures
        commit_v(tr) is Ok <==> size_of(
            with_plain_text_v(s.doc, replace_range(plain_text_of(s.doc), from as int, to as int, ins)),
        ) <= usize::MAX,
        commit_v(tr) matches Ok(n) ==> plain_text_of(n.doc) == replace_range(
            plain_text_of(s.doc),
            from as int,
            to as int,
            ins,
        ) && n.selection == cursor_v(n.doc, cursor),
{
    let (t0, t1, step) = choose|t0: Transaction, t1: Transaction, step: ReplaceStep|
        #![trigger step_added(t0, t1, step)]
        fresh(t0, s) && step.from == from && step.to == to && step.slice@ == slice
            && !step.structure_only && step_added(t0, t1, step) && selection_set(
            t1,
            tr,
            cursor_v(s.doc, cursor),
        );
    assert(t0.steps@ =~= Seq::<StepWrapper>::empty());
    assert(working_doc(t0) == s.doc);
    law_replace_writes_text(step, s.doc);
    let res = step.spec_apply(s.doc)->Ok_0;
    assert(step.can_invert(s.doc));
    assert(inserted_v(res) <= ins.len());
    let w = t1.steps@.last();
    assert(tr.steps@ == t1.steps@);
    assert(tr.steps@[0] == w);
    assert(w.step.can_apply(s.doc) == step.can_apply(s.doc));
    assert(w.step.spec_apply(s.doc) == step.spec_apply(s.doc));
    assert(replay(res.doc, tr.steps@, 1) == Ok::<NodeV, StepErrorV>(res.doc));
    assert(replay(s.doc, tr.steps@, 0) == Ok::<NodeV, StepErrorV>(res.doc));
    let sel = tr.selection->Some_0;
    assert(sel@ == cursor_v(s.doc, cursor));
    assert(resolve_selection_v(res.doc, sel@) == cursor_v(res.doc, cursor)) by {
        let rs = seq![resolved_range(s.doc, cursor, cursor)];
        assert(rs.map_values(|r: RangeV| resolved_range(res.doc, r.anchor, r.head)) =~= seq![
            resolved_range(res.doc, cursor, cursor),
        ]);
    }
}

/// The ends of a selection are in order.
proof fn lemma_selection_ordered(sel: SelectionV)
    ensures
        sel.from() <= sel.to(),
{
    match sel {
        SelectionV::Text(rs) => {
            if rs.len() > 0 {
                assert(rs[0].from() <= rs[0].to());
            }
        },
        SelectionV::Node { .. } => {},
    }
}

/// Committing a fresh transaction keeps the plain text.
proof fn lemma_fresh_commit_keeps_text(s: EditorStateV, tr: Transaction)
    requires
        fresh(tr, s),
    ensures
        commit_v(tr) matches Ok(n) ==> n.doc == s.doc,
{
    assert(replay(s.doc, tr.steps@, 0) == Ok::<NodeV, StepErrorV>(s.doc));
}

/// Typing `text` over the selection of `s`, then committing, gives the
/// plain text with the selected range replaced by `text` and a cursor right
/// after the typed text; the commit fails only when the new document's
/// size does not fit in a `usize`.
pub proof fn law_typing_replaces_selection(s: EditorStateV, tr: Transaction, text: Seq<char>)
    requires
        typed(s, tr, text),
        s.selection.to() <= plain_text_of(s.doc).len(),
        s.selection.from() + text.len() <= usize::MAX,
    ensures
        commit_v(tr) is Ok <==> size_of(with_plain_text_v(s.doc, typed_text_v(s, text)))
            <= usize::MAX,
        commit_v(tr) matches Ok(n) ==> plain_text_of(n.doc) == typed_text_v(s, text)
            && n.selection == cursor_v(n.doc, s.selection.from() + text.len()),
{
    lemma_selection_ordered(s.selection);
    let content = text_slice_v(text).content;
    assert(texts_from(content, 0) == text) by {
        assert(texts_from(content, 1) == Seq::<char>::empty());
        assert(text_of(content[0]) == text);
        assert(text + Seq::<char>::empty() =~= text);
    }
    assert(sizes_from(content, 0) == text.len()) by {
        assert(sizes_from(content, 1) == 0);
        assert(size_of(content[0]) == text.len());
    }
    lemma_replace_then_cursor_commits(
        s,
        tr,
        s.selection.from(),
        s.selection.to(),
        text_slice_v(text),
        text,
        s.selection.from() + text.len(),
    );
}

/// The plain text and cursor that deleting backward leaves: the selected
/// range removed with the cursor at its start; at a cursor, the character
/// before it removed (nothing at 0).
pub open spec fn backspaced_v(s: EditorStateV) -> (Seq<char>, nat) {
    let t = plain_text_of(s.doc);
    let from = s.selection.from();
    let to = s.selection.to();
    if from != to {
        (replace_range(t, from as int, to as int, seq![]), from)
    } else if from == 0 {
        (t, from)
    } else {
        (replace_range(t, from - 1, from as int, seq![]), (from - 1) as nat)
    }
}

/// The plain text and cursor that deleting forward leaves: the selected
/// range removed with the cursor at its start; at a cursor, the character
/// after it removed (nothing at the end of the text).
pub open spec fn forward_deleted_v(s: EditorStateV) -> (Seq<char>, nat) {
    let t = plain_text_of(s.doc);
    let from = s.selection.from();
    let to = s.selection.to();
    if from != to {
        (replace_range(t, from as int, to as int, seq![]), from)
    } else if from >= t.len() {
        (t, from)
    } else {
        (replace_range(t, from as int, (from + 1) as int, seq![]), from)
    }
}

/// Lemma: the empty slice holds no text.
proof fn lemma_empty_slice()
    ensures
        texts_from(empty_slice_v().content, 0) == Seq::<char>::empty(),
        sizes_from(empty_slice_v().content, 0) == 0,
{
}

/// Deleting backward, then committing, leaves the text and cursor of
/// `backspaced_v`: where something is deleted the cursor lands at the
/// deletion point; at the start of the text nothing changes.
pub proof fn law_backspace_removes_before_cursor(s: EditorStateV, tr: Transaction)
    requires
        deleted_backward(s, tr),
        s.selection.to() <= plain_text_of(s.doc).len(),
    ensures
        commit_v(tr) matches Ok(n) ==> plain_text_of(n.doc) == backspaced_v(s).0,
        s.selection.to() > 0 ==> (commit_v(tr) matches Ok(n) ==> n.selection == cursor_v(
            n.doc,
            backspaced_v(s).1,
        )),
{
    lemma_selection_ordered(s.selection);
    lemma_empty_slice();
    let from = s.selection.from();
    let to = s.selection.to();
    if from != to {
        lemma_replace_then_cursor_commits(s, tr, from, to, empty_slice_v(), seq![], from);
    } else if from == 0 {
        lemma_fresh_commit_keeps_text(s, tr);
    } else {
        lemma_replace_then_cursor_commits(
            s,
            tr,
            (from - 1) as nat,
            from,
            empty_slice_v(),
            seq![],
            (from - 1) as nat,
        );
    }
}

/// Deleting forward, then committing, leaves the text and cursor of
/// `forward_deleted_v`: the cursor stays at the deletion point; at the end
/// of the text nothing changes.
pub proof fn law_delete_forward_removes_after_cursor(s: EditorStateV, tr: Transaction)
    requires
        deleted_forward(s, tr),
        s.selection.to() <= plain_text_of(s.doc).len(),
    ensures
        commit_v(tr) matches Ok(n) ==> plain_text_of(n.doc) == forward_deleted_v(s).0,
        s.selection.from() < plain_text_of(s.doc).len() ==> (commit_v(tr) matches Ok(n)
            ==> n.selection == cursor_v(n.doc, forward_deleted_v(s).1)),
{
    lemma_selection_ordered(s.selection);
    lemma_empty_slice();
    let from = s.selection.from();
    let to = s.selection.to();
    if from != to {
        lemma_replace_then_cursor_commits(s, tr, from, to, empty_slice_v(), seq![], from);
    } else if from >= plain_text_of(s.doc).len() {
        lemma_fresh_commit_keeps_text(s, tr);
    } else {
        lemma_replace_then_cursor_commits(s, tr, from, (from + 1) as nat, empty_slice_v(), seq![], from);
    }
}


/// Toggling a mark that is not stored, over a non-empty selection, adds that
/// mark (alone, with no attributes) over exactly the selected range
/// `from..to` of a fresh transaction, so every selected character carries
/// it; over an empty selection the mark is stored instead.
pub proof fn law_toggle_marks_the_whole_selection(s: EditorStateV, r: Transaction, name: Seq<char>)
    requires
        toggled(s, r, name),
        !has_mark_named(s.stored_marks, name),
    ensures
        s.selection.from() < s.selection.to() ==> exists|t0: Transaction, step: SetMarksStep|
            #![trigger structural_step_added(t0, r, step)]
            fresh(t0, s) && step.from == s.selection.from() && step.to == s.selection.to()
                && crate::model::node::marks_view(step.add@) == seq![plain_mark(name)]
                && step.remove@.len() == 0 && structural_step_added(t0, r, step),
        s.selection.from() == s.selection.to() ==> exists|t0: Transaction|
            #![trigger fresh(t0, s)]
            fresh(t0, s) && stored_marks_set(t0, r, seq![plain_mark(name)]),
{
    lemma_selection_ordered(s.selection);
    let t0 = choose|t0: Transaction| #![trigger fresh(t0, s)]
        fresh(t0, s) && if has_mark_named(s.stored_marks, name) {
            if s.selection.from() == s.selection.to() {
                stored_marks_set(t0, r, crate::model::node::keep_marks(seq![], seq![name]))
            } else {
                exists|step: SetMarksStep|
                    step.from == s.selection.from() && step.to == s.selection.to() && step.add@.len() == 0
                        && crate::model::node::strings_view(step.remove@) == seq![name]
                        && #[trigger] structural_step_added(t0, r, step)
            }
        } else {
            let end = if s.selection.to() >= cursor_of(s) {
                s.selection.to()
            } else {
                cursor_of(s)
            };
            if s.selection.from() == end {
                stored_marks_set(t0, r, seq![plain_mark(name)])
            } else {
                exists|step: SetMarksStep|
                    step.from == s.selection.from() && step.to == end
                        && crate::model::node::marks_view(step.add@) == seq![plain_mark(name)]
                        && step.remove@.len() == 0 && #[trigger] structural_step_added(t0, r, step)
            }
        };
    // the cursor of a selection lies within it, so the range ends at `to`
    assert(cursor_of(s) <= s.selection.to()) by {
        match s.selection {
            SelectionV::Text(rs) => {
                if rs.len() > 0 {
                    assert(rs[0].from() <= rs[0].to());
                }
            },
            SelectionV::Node { .. } => {},
        }
    }
    if s.selection.from() < s.selection.to() {
        let step = choose|step: SetMarksStep|
            step.from == s.selection.from() && step.to == s.selection.to()
                && crate::model::node::marks_view(step.add@) == seq![plain_mark(name)]
                && step.remove@.len() == 0 && #[trigger] structural_step_added(t0, r, step);
        assert(structural_step_added(t0, r, step));
    }
}


/// Committing a fresh transaction that only set a cursor at `p` keeps the
/// document and gives that cursor; it fails only when the document's size
/// does not fit in a `usize`.
proof fn lemma_cursor_commit(s: EditorStateV, r: Transaction, p: nat)
    requires
        selected(s, r, cursor_v(s.doc, p)),
    ensures
        commit_v(r) is Ok <==> size_of(s.doc) <= usize::MAX,
        commit_v(r) matches Ok(n) ==> n.doc == s.doc && n.selection == cursor_v(s.doc, p),
{
    let t0 = choose|t0: Transaction| #![trigger fresh(t0, s)]
        fresh(t0, s) && selection_set(t0, r, cursor_v(s.doc, p));
    assert(r.steps@.len() == 0);
    let done: Result<NodeV, StepErrorV> = Ok(s.doc);
    assert(replay(s.doc, r.steps@, 0) == done);
    let rs = seq![resolved_range(s.doc, p, p)];
    assert(rs.map_values(|x: RangeV| resolved_range(s.doc, x.anchor, x.head)) =~= rs);
}

/// Moving forward one character, then committing, keeps the text and puts a
/// cursor one character after the old cursor, or at the end of the text
/// when the old cursor is at (or past) the end.
pub proof fn law_move_forward_steps_one_character(s: EditorStateV, r: Transaction)
    requires
        moved_forward(s, r),
    ensures
        commit_v(r) is Ok <==> size_of(s.doc) <= usize::MAX,
        commit_v(r) matches Ok(n) ==> n.doc == s.doc && n.selection == cursor_v(
            s.doc,
            if cursor_of(s) < plain_text_of(s.doc).len() {
                cursor_of(s) + 1
            } else {
                plain_text_of(s.doc).len()
            },
        ),
{
    let len = plain_text_of(s.doc).len();
    let p = if cursor_of(s) + 1 <= len {
        (cursor_of(s) + 1) as nat
    } else {
        len
    };
    lemma_cursor_commit(s, r, p);
}

/// Moving backward one character, then committing, keeps the text and puts
/// a cursor one character before the old cursor, or at 0 from 0.
pub proof fn law_move_backward_steps_one_character(s: EditorStateV, r: Transaction)
    requires
        moved_backward(s, r),
    ensures
        commit_v(r) is Ok <==> size_of(s.doc) <= usize::MAX,
        commit_v(r) matches Ok(n) ==> n.doc == s.doc && n.selection == cursor_v(
            s.doc,
            if cursor_of(s) > 0 {
                (cursor_of(s) - 1) as nat
            } else {
                0
            },
        ),
{
    let p = if cursor_of(s) >= 1 {
        (cursor_of(s) - 1) as nat
    } else {
        0
    };
    lemma_cursor_commit(s, r, p);
}

} // verus!
