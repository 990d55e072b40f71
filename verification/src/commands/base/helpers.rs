//! Helpers for command implementations: reading the selection and
//! building the common transactions.

use vstd::prelude::*;
use crate::model::node::{plain_text_of, size_of};
use crate::model::resolved_pos::{ResolvedPos, ResolvedPosV};
use crate::state::selection::{SelectionV, resolved_range};
use crate::state::state::{EditorState, EditorStateV};
use crate::state::transaction::{Transaction, fresh, step_added, selection_set};
use crate::transform::replace::{ReplaceStep, SliceV, empty_slice_v, text_slice_v};
use crate::strings::char_count;

verus! {

/// A cursor at `pos`, resolved in `doc`.
pub open spec fn cursor_v(doc: crate::model::node::NodeV, pos: nat) -> SelectionV {
    SelectionV::Text(seq![resolved_range(doc, pos, pos)])
}

/// The cursor of a state: the head of a collapsed selection, else its start.
pub open spec fn cursor_of(s: EditorStateV) -> nat {
    if s.selection.is_collapsed() {
        s.selection.head()
    } else {
        s.selection.from()
    }
}

/// `r` is a fresh transaction on `s` that replaced `from..to` by `slice`,
/// then put the cursor at `cursor`.
pub open spec fn replaced_then_cursor(
    s: EditorStateV,
    r: Transaction,
    from: nat,
    to: nat,
    slice: SliceV,
    cursor: nat,
) -> bool {
    exists|t0: Transaction, t1: Transaction, step: ReplaceStep|
        #![trigger step_added(t0, t1, step)]
        fresh(t0, s) && step.from == from && step.to == to && step.slice@ == slice
            && !step.structure_only && step_added(t0, t1, step) && selection_set(
            t1,
            r,
            cursor_v(s.doc, cursor),
        )
}

/// `r` is a fresh transaction on `s` that only set the selection to `sel`.
pub open spec fn selected(s: EditorStateV, r: Transaction, sel: SelectionV) -> bool {
    exists|t0: Transaction| #![trigger fresh(t0, s)] fresh(t0, s) && selection_set(t0, r, sel)
}

/// The selection range of a state, as `(from, to)`.
pub fn get_selection_range(state: &EditorState) -> (r: (usize, usize))
    requires
        state@.selection.to_fits(),
    ensures
        r.0 == state@.selection.from(),
        r.1 == state@.selection.to(),
{
    let sel = state.selection();
    (sel.from(), sel.to())
}

/// The cursor position: the head of a collapsed selection, else its start.
pub fn get_cursor(state: &EditorState) -> (r: usize)
    ensures
        r == cursor_of(state@),
{
    let sel = state.selection();
    if sel.is_collapsed() {
        sel.head()
    } else {
        sel.from()
    }
}

/// The resolved head of a text selection.
pub fn get_resolved_cursor(state: &EditorState) -> (r: Option<ResolvedPos>)
    ensures
        match state@.selection {
            SelectionV::Text(rs) => if rs.len() > 0 {
                match rs[0].resolved_head {
                    Some(p) => r matches Some(x) && x@ == p,
                    None => r is None,
                }
            } else {
                r is None
            },
            SelectionV::Node { .. } => r is None,
        },
{
    match state.selection().as_text() {
        Some(sel) => match sel.resolved_head() {
            Some(p) => Some(p.clone()),
            None => None,
        },
        None => None,
    }
}

/// Whether the cursor is at the start of the document.
pub fn is_at_doc_start(state: &EditorState) -> (r: bool)
    ensures
        r == (cursor_of(state@) == 0),
{
    get_cursor(state) == 0
}

/// Whether the cursor is at (or past) the end of the plain text.
pub fn is_at_doc_end(state: &EditorState) -> (r: bool)
    ensures
        r == (cursor_of(state@) >= plain_text_of(state@.doc).len()),
{
    let doc_end = state.doc().plain_text_len();
    get_cursor(state) >= doc_end
}

/// A transaction deleting `from..to`, then putting the cursor at `from`.
pub fn delete_range(state: &EditorState, from: usize, to: usize) -> (r: Transaction)
    ensures
        replaced_then_cursor(state@, r, from as nat, to as nat, empty_slice_v(), from as nat),
{
    let mut tr = Transaction::new(state.clone());
    let ghost t0 = tr;
    tr.delete(from, to);
    let ghost t1 = tr;
    let ghost step = choose|step: ReplaceStep|
        step.from == from && step.to == to && step.slice@ == empty_slice_v() && !step.structure_only
            && #[trigger] step_added(t0, t1, step);
    tr.set_cursor(from);
    proof {
        assert(step_added(t0, t1, step));
    }
    tr
}

/// A transaction inserting `text` at the cursor, then putting the cursor
/// `cursor_offset` characters before the end of the inserted text.
pub fn insert_at_cursor(state: &EditorState, text: &str, cursor_offset: usize) -> (r: Transaction)
    requires
        cursor_of(state@) + text@.len() <= usize::MAX,
        cursor_offset <= cursor_of(state@) + text@.len(),
    ensures
        replaced_then_cursor(
            state@,
            r,
            cursor_of(state@),
            cursor_of(state@),
            text_slice_v(text@),
            (cursor_of(state@) + text@.len() - cursor_offset) as nat,
        ),
{
    let pos = get_cursor(state);
    let mut tr = Transaction::new(state.clone());
    let ghost t0 = tr;
    tr.insert_text(pos, text);
    let ghost t1 = tr;
    let ghost step = choose|step: ReplaceStep|
        step.from == pos && step.to == pos && step.slice@ == text_slice_v(text@)
            && !step.structure_only && #[trigger] step_added(t0, t1, step);
    let len = char_count(text);
    tr.set_cursor(pos + len - cursor_offset);
    proof {
        assert(step_added(t0, t1, step));
    }
    tr
}

} // verus!
