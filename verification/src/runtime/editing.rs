//! The editing core: the editor state with its revision, the composition
//! in progress and the pointer anchor, changed by editing events.
//!
//! Layout and hit testing (which measure text in floating point) stay
//! outside; they hand this core flat text offsets.

use vstd::prelude::*;
use crate::commands::base::{
    BaseCommands, BaseCommandsImpl, typed, deleted_backward, deleted_forward, moved_forward,
    moved_backward, selected_all, typed_text_v, law_typing_replaces_selection,
    law_move_forward_steps_one_character, law_move_backward_steps_one_character,
};
use crate::commands::base::helpers::{replaced_then_cursor, cursor_of, cursor_v, selected};
use crate::model::node::{
    Node, NodeV, plain_text_of, size_of, doc_from_paragraphs, strings_view, with_plain_text_v,
};
use crate::runtime::{
    FlatTextOffset, PointerButton, CompositionState, CompositionSnapshot, CompositionV,
};
use crate::state::selection::{Selection, SelectionV, TextSelection, resolved_range};
use crate::state::state::{EditorState, EditorStateV};
use crate::state::transaction::{Transaction, commit_v, step_added, replay, fresh, selection_set};
use crate::transform::step::StepErrorV;
use crate::transform::replace::{ReplaceStep, Slice, text_slice_v};
use crate::strings::{char_count, char_slice, append_str, str_eq, to_string};

verus! {

/// The editing core of the runtime.
#[derive(Debug)]
pub struct EditorCore {
    /// The editor state
    state: EditorState,
    /// Bumped each time a change alters the plain text
    revision: u64,
    /// Where a pointer drag started
    pointer_anchor: Option<FlatTextOffset>,
    /// The composition in progress
    composition: Option<CompositionState>,
}

/// The view of the editing core.
pub struct EditorCoreV {
    pub state: EditorStateV,
    pub revision: u64,
    pub pointer_anchor: Option<usize>,
    pub composition: Option<CompositionV>,
}

impl View for EditorCore {
    type V = EditorCoreV;

    closed spec fn view(&self) -> EditorCoreV {
        EditorCoreV {
            state: self.state@,
            revision: self.revision,
            pointer_anchor: match self.pointer_anchor {
                Some(p) => Some(p.0),
                None => None,
            },
            composition: match self.composition {
                Some(c) => Some(c@),
                None => None,
            },
        }
    }
}

/// An editing event, with pointer positions already turned into offsets.
#[derive(Debug)]
pub enum EditEvent {
    CompositionStart,
    CompositionUpdate { text: String },
    CompositionEnd { text: String },
    CompositionCancel,
    PointerDown { offset: FlatTextOffset, button: PointerButton },
    PointerMove { offset: FlatTextOffset },
    PointerUp,
    InsertText { text: String },
    Backspace,
    DeleteForward,
    MoveCaretLeft,
    MoveCaretRight,
    SelectAll,
}

/// Committing `tr` on state `s` at revision `rev` gives state `s2` at
/// revision `rev2`: the committed state, with the revision bumped (wrapping)
/// when the plain text changed; the old state and revision when the commit
/// fails.
pub open spec fn applied(s: EditorStateV, rev: u64, tr: Transaction, s2: EditorStateV, rev2: u64) -> bool {
    match commit_v(tr) {
        Ok(n) => s2 == n && rev2 == if plain_text_of(n.doc) != plain_text_of(s.doc) {
            (if rev == u64::MAX {
                0
            } else {
                rev + 1
            }) as u64
        } else {
            rev
        },
        Err(_) => s2 == s && rev2 == rev,
    }
}

/// `n` is `c` after the transaction `tr` was applied, with no composition.
pub open spec fn applied_core(c: EditorCoreV, tr: Transaction, n: EditorCoreV) -> bool {
    &&& applied(c.state, c.revision, tr, n.state, n.revision)
    &&& n.composition is None
    &&& n.pointer_anchor == c.pointer_anchor
}

/// The selection `set_selection` builds: both offsets clamped to the plain
/// text, resolved in the document.
pub open spec fn clamped_selection(s: EditorStateV, anchor: nat, head: nat) -> SelectionV {
    let len = plain_text_of(s.doc).len();
    SelectionV::Text(
        seq![
            resolved_range(
                s.doc,
                if anchor <= len {
                    anchor
                } else {
                    len
                },
                if head <= len {
                    head
                } else {
                    len
                },
            ),
        ],
    )
}

/// `n` is `c` with the selection set to the clamped `anchor..head`.
pub open spec fn selection_moved(c: EditorCoreV, n: EditorCoreV, anchor: nat, head: nat) -> bool {
    &&& n.state == EditorStateV { selection: clamped_selection(c.state, anchor, head), ..c.state }
    &&& n.revision == c.revision
    &&& n.composition == c.composition
    &&& n.pointer_anchor == c.pointer_anchor
}

/// The text shown while composing: the committed text with the composed
/// text in place of the composition's range (each end cut at the text's
/// end).
pub open spec fn display_text_v(t: Seq<char>, comp: Option<CompositionV>) -> Seq<char> {
    match comp {
        None => t,
        Some(c) => {
            let f = if c.from <= t.len() {
                c.from
            } else {
                t.len()
            };
            let e = if c.to <= t.len() {
                c.to
            } else {
                t.len()
            };
            t.subrange(0, f as int) + c.text + t.subrange(e as int, t.len() as int)
        },
    }
}

/// The composition's end offsets fit in a `usize`.
pub open spec fn composition_fits(comp: Option<CompositionV>) -> bool {
    match comp {
        Some(c) => c.from + c.text.len() <= usize::MAX && c.from <= c.to,
        None => true,
    }
}

/// What a state's selection needs for the commands: its end fits.
pub open spec fn core_fits(c: EditorCoreV) -> bool {
    &&& c.state.selection.to_fits()
    &&& composition_fits(c.composition)
}

/// The document of one empty paragraph has size 4.
proof fn lemma_empty_doc_size()
    ensures
        size_of(doc_from_paragraphs(seq![seq![]])) == 4,
{
    let e: Seq<char> = seq![];
    let t = crate::model::node::text_v(e, seq![]);
    let p = crate::model::node::paragraph_v(e);
    assert(crate::model::node::paragraph_nodes(seq![e]) =~= seq![p]);
    assert(size_of(t) == 0);
    assert(crate::model::node::sizes_from(seq![t], 1) == 0);
    assert(crate::model::node::sizes_from(seq![t], 0) == 0);
    assert(size_of(p) == 2);
    assert(crate::model::node::sizes_from(seq![p], 1) == 0);
    assert(crate::model::node::sizes_from(seq![p], 0) == 2);
}

impl EditorCore {
    /// A core holding one empty paragraph, a cursor at 0, revision 0.
    pub fn new() -> (r: Self)
        ensures
            r@.state.doc == doc_from_paragraphs(seq![seq![]]),
            r@.state.selection == SelectionV::Text(
                seq![resolved_range(doc_from_paragraphs(seq![seq![]]), 0, 0)],
            ),
            r@.revision == 0,
            r@.pointer_anchor is None,
            r@.composition is None,
    {
        let empty = String::new();
        let texts = vec![empty];
        proof {
            assert(strings_view(texts@) =~= seq![Seq::<char>::empty()]);
        }
        let doc = Node::from_paragraph_texts(texts);
        proof {
            lemma_empty_doc_size();
        }
        EditorCore {
            state: EditorState::from_doc(doc),
            revision: 0,
            pointer_anchor: None,
            composition: None,
        }
    }

    /// The editor state.
    pub fn state(&self) -> (r: &EditorState)
        ensures
            r@ == self@.state,
    {
        &self.state
    }

    /// The revision.
    pub fn revision(&self) -> (r: u64)
        ensures
            r == self@.revision,
    {
        self.revision
    }

    /// The pointer anchor.
    pub fn pointer_anchor(&self) -> (r: Option<FlatTextOffset>)
        ensures
            match r {
                Some(p) => self@.pointer_anchor == Some(p.0),
                None => self@.pointer_anchor is None,
            },
    {
        self.pointer_anchor
    }
}

/// `n` is `c` after typing `text`: the typed transaction applied, no
/// composition.
pub open spec fn inserted(c: EditorCoreV, n: EditorCoreV, text: Seq<char>) -> bool {
    exists|tr: Transaction| #[trigger] typed(c.state, tr, text) && applied_core(c, tr, n)
}

/// `n` is `c` after committing the composition `comp` with `text`: the
/// composition's range replaced by the text, the cursor after it.
pub open spec fn composed(c: EditorCoreV, n: EditorCoreV, comp: CompositionV, text: Seq<char>) -> bool {
    exists|tr: Transaction|
        #[trigger] replaced_then_cursor(
            c.state,
            tr,
            comp.from,
            comp.to,
            text_slice_v(text),
            comp.from + text.len(),
        ) && applied_core(c, tr, n)
}

/// `n` is `c` with the composition set to `comp`.
pub open spec fn composition_set(c: EditorCoreV, n: EditorCoreV, comp: Option<CompositionV>) -> bool {
    n == EditorCoreV { composition: comp, ..c }
}

/// The composition that starting one at the selection of `c` builds.
pub open spec fn started(c: EditorCoreV, text: Seq<char>) -> CompositionV {
    CompositionV { from: c.state.selection.from(), to: c.state.selection.to(), text }
}

/// `n` is `c` after a caret move to the left: a selection collapses to its
/// start; a cursor moves back one character.
pub open spec fn moved_left(c: EditorCoreV, n: EditorCoreV) -> bool {
    let c1 = EditorCoreV { composition: None, ..c };
    if !c.state.selection.is_collapsed() {
        selection_moved(c1, n, c.state.selection.from(), c.state.selection.from())
    } else {
        exists|tr: Transaction| #[trigger] moved_backward(c.state, tr) && applied_core(c1, tr, n)
    }
}

/// `n` is `c` after a caret move to the right: a selection collapses to its
/// end; a cursor moves forward one character.
pub open spec fn moved_right(c: EditorCoreV, n: EditorCoreV) -> bool {
    let c1 = EditorCoreV { composition: None, ..c };
    if !c.state.selection.is_collapsed() {
        selection_moved(c1, n, c.state.selection.to(), c.state.selection.to())
    } else {
        exists|tr: Transaction| #[trigger] moved_forward(c.state, tr) && applied_core(c1, tr, n)
    }
}

/// What each event needs: the arithmetic it does fits in a `usize`.
pub open spec fn event_fits(c: EditorCoreV, e: EditEvent) -> bool {
    &&& core_fits(c)
    &&& match e {
        EditEvent::CompositionUpdate { text } => composition_fits(
            Some(
                match c.composition {
                    Some(comp) => CompositionV { text: text@, ..comp },
                    None => started(c, text@),
                },
            ),
        ),
        EditEvent::CompositionEnd { text } => match c.composition {
            Some(comp) => comp.from + text@.len() <= usize::MAX,
            None => c.state.selection.from() + text@.len() <= usize::MAX,
        },
        EditEvent::InsertText { text } => c.state.selection.from() + text@.len() <= usize::MAX,
        EditEvent::MoveCaretRight => cursor_of(c.state) < usize::MAX,
        _ => true,
    }
}

/// What an event does to the core.
pub open spec fn handled(c: EditorCoreV, e: EditEvent, n: EditorCoreV) -> bool {
    match e {
        EditEvent::CompositionStart => composition_set(c, n, Some(started(c, seq![]))),
        EditEvent::CompositionUpdate { text } => composition_set(
            c,
            n,
            Some(
                match c.composition {
                    Some(comp) => CompositionV { text: text@, ..comp },
                    None => started(c, text@),
                },
            ),
        ),
        EditEvent::CompositionEnd { text } => match c.composition {
            Some(comp) => composed(c, n, comp, text@),
            None => if text@.len() == 0 {
                n == c
            } else {
                inserted(c, n, text@)
            },
        },
        EditEvent::CompositionCancel => composition_set(c, n, None),
        EditEvent::PointerDown { offset, button } => if button == PointerButton::Primary {
            selection_moved(
                EditorCoreV { pointer_anchor: Some(offset.0), ..c },
                n,
                offset.0 as nat,
                offset.0 as nat,
            )
        } else {
            n == c
        },
        EditEvent::PointerMove { offset } => match c.pointer_anchor {
            Some(a) => selection_moved(c, n, a as nat, offset.0 as nat),
            None => n == c,
        },
        EditEvent::PointerUp => n == EditorCoreV { pointer_anchor: None, ..c },
        EditEvent::InsertText { text } => inserted(EditorCoreV { composition: None, ..c }, n, text@),
        EditEvent::Backspace => exists|tr: Transaction|
            #[trigger] deleted_backward(c.state, tr) && applied_core(
                EditorCoreV { composition: None, ..c },
                tr,
                n,
            ),
        EditEvent::DeleteForward => exists|tr: Transaction|
            #[trigger] deleted_forward(c.state, tr) && applied_core(
                EditorCoreV { composition: None, ..c },
                tr,
                n,
            ),
        EditEvent::MoveCaretLeft => moved_left(c, n),
        EditEvent::MoveCaretRight => moved_right(c, n),
        EditEvent::SelectAll => exists|tr: Transaction|
            #[trigger] selected_all(c.state, tr) && applied_core(
                EditorCoreV { composition: None, ..c },
                tr,
                n,
            ),
    }
}

impl EditorCore {
    /// Start composing over the selection, with no text yet.
    pub fn start_composition(&mut self)
        requires
            old(self)@.state.selection.to_fits(),
        ensures
            composition_set(old(self)@, final(self)@, Some(started(old(self)@, seq![]))),
    {
        let selection = self.state.selection();
        let from = selection.from();
        let to = selection.to();
        self.composition = Some(CompositionState { from, to, text: String::new() });
    }

    /// Set the composed text, starting a composition when none is running.
    pub fn update_composition(&mut self, text: String)
        requires
            old(self)@.state.selection.to_fits(),
        ensures
            composition_set(
                old(self)@,
                final(self)@,
                Some(
                    match old(self)@.composition {
                        Some(comp) => CompositionV { text: text@, ..comp },
                        None => started(old(self)@, text@),
                    },
                ),
            ),
    {
        if self.composition.is_none() {
            self.start_composition();
        }
        match self.composition.take() {
            Some(c) => {
                self.composition = Some(CompositionState { from: c.from, to: c.to, text });
            },
            None => {},
        }
    }

    /// Commit the composition with `text`: replace its range by the text and
    /// put the cursor after it. With no composition, non-empty text is
    /// typed as usual.
    pub fn commit_composition(&mut self, text: String)
        requires
            core_fits(old(self)@),
            match old(self)@.composition {
                Some(comp) => comp.from + text@.len() <= usize::MAX,
                None => old(self)@.state.selection.from() + text@.len() <= usize::MAX,
            },
        ensures
            match old(self)@.composition {
                Some(comp) => composed(old(self)@, final(self)@, comp, text@),
                None => if text@.len() == 0 {
                    final(self)@ == old(self)@
                } else {
                    inserted(old(self)@, final(self)@, text@)
                },
            },
    {
        let composition = match self.composition.take() {
            Some(c) => c,
            None => {
                if char_count(text.as_str()) != 0 {
                    self.insert_text(text);
                }
                return;
            },
        };
        let ghost c0 = old(self)@;
        let mut transaction = Transaction::new(self.state.clone());
        let ghost t0 = transaction;
        let slice = Slice::from_text(text.as_str());
        transaction.replace(composition.from, composition.to, slice);
        let ghost t1 = transaction;
        let ghost step = choose|step: ReplaceStep|
            step.from == composition.from && step.to == composition.to && step.slice@ == text_slice_v(
                text@,
            ) && !step.structure_only && #[trigger] step_added(t0, t1, step);
        let len = Node::char_len(text.as_str());
        transaction.set_cursor(composition.from + len);
        proof {
            assert(step_added(t0, t1, step));
            assert(replaced_then_cursor(
                c0.state,
                transaction,
                composition.from as nat,
                composition.to as nat,
                text_slice_v(text@),
                (composition.from + text@.len()) as nat,
            ));
        }
        self.apply_transaction(transaction);
    }

    /// Drop the composition.
    pub fn cancel_composition(&mut self)
        ensures
            composition_set(old(self)@, final(self)@, None),
    {
        self.composition = None;
    }

    /// Select `anchor..head`, both clamped to the plain text.
    pub fn set_selection(&mut self, anchor: FlatTextOffset, head: FlatTextOffset)
        ensures
            selection_moved(old(self)@, final(self)@, anchor.0 as nat, head.0 as nat),
    {
        let text_len = self.state.doc().plain_text_len();
        let a = if anchor.get() <= text_len {
            anchor.get()
        } else {
            text_len
        };
        let h = if head.get() <= text_len {
            head.get()
        } else {
            text_len
        };
        let selection = Selection::text(TextSelection::create(self.state.doc(), a, h));
        self.state = self.state.with_selection(selection);
    }

    /// Type `text` over the selection.
    pub fn insert_text(&mut self, text: String)
        requires
            old(self)@.state.selection.to_fits(),
            old(self)@.state.selection.from() + text@.len() <= usize::MAX,
        ensures
            inserted(EditorCoreV { composition: None, ..old(self)@ }, final(self)@, text@),
    {
        self.cancel_composition();
        let cmd = BaseCommandsImpl::new();
        let transaction = cmd.type_text(&self.state, text.as_str());
        self.apply_transaction(transaction);
    }

    /// Delete backward.
    pub fn backspace(&mut self)
        requires
            old(self)@.state.selection.to_fits(),
        ensures
            exists|tr: Transaction|
                #[trigger] deleted_backward(old(self)@.state, tr) && applied_core(
                    EditorCoreV { composition: None, ..old(self)@ },
                    tr,
                    final(self)@,
                ),
    {
        self.cancel_composition();
        let cmd = BaseCommandsImpl::new();
        let transaction = cmd.delete_backward(&self.state);
        self.apply_transaction(transaction);
    }

    /// Delete forward.
    pub fn delete_forward(&mut self)
        requires
            old(self)@.state.selection.to_fits(),
        ensures
            exists|tr: Transaction|
                #[trigger] deleted_forward(old(self)@.state, tr) && applied_core(
                    EditorCoreV { composition: None, ..old(self)@ },
                    tr,
                    final(self)@,
                ),
    {
        self.cancel_composition();
        let cmd = BaseCommandsImpl::new();
        let transaction = cmd.delete_forward(&self.state);
        self.apply_transaction(transaction);
    }

    /// Move the caret left.
    pub fn move_caret_left(&mut self)
        requires
            old(self)@.state.selection.to_fits(),
        ensures
            moved_left(old(self)@, final(self)@),
    {
        self.cancel_composition();
        let selection = self.state.selection();
        if !selection.is_collapsed() {
            let next = FlatTextOffset::new(selection.from());
            self.set_selection(next, next);
            return;
        }
        let cmd = BaseCommandsImpl::new();
        let transaction = cmd.move_backward_char(&self.state);
        self.apply_transaction(transaction);
    }

    /// Move the caret right.
    pub fn move_caret_right(&mut self)
        requires
            old(self)@.state.selection.to_fits(),
            cursor_of(old(self)@.state) < usize::MAX,
        ensures
            moved_right(old(self)@, final(self)@),
    {
        self.cancel_composition();
        let selection = self.state.selection();
        if !selection.is_collapsed() {
            let next = FlatTextOffset::new(selection.to());
            self.set_selection(next, next);
            return;
        }
        let cmd = BaseCommandsImpl::new();
        let transaction = cmd.move_forward_char(&self.state);
        self.apply_transaction(transaction);
    }

    /// Select the whole text.
    pub fn select_all(&mut self)
        ensures
            exists|tr: Transaction|
                #[trigger] selected_all(old(self)@.state, tr) && applied_core(
                    EditorCoreV { composition: None, ..old(self)@ },
                    tr,
                    final(self)@,
                ),
    {
        self.cancel_composition();
        let cmd = BaseCommandsImpl::new();
        let transaction = cmd.select_all(&self.state);
        self.apply_transaction(transaction);
    }

    /// Commit `transaction`; bump the revision when the plain text changed.
    /// A failed commit changes nothing.
    pub fn apply_transaction(&mut self, transaction: Transaction)
        ensures
            applied(
                old(self)@.state,
                old(self)@.revision,
                transaction,
                final(self)@.state,
                final(self)@.revision,
            ),
            final(self)@.composition == old(self)@.composition,
            final(self)@.pointer_anchor == old(self)@.pointer_anchor,
    {
        let previous_text = self.state.doc().plain_text();
        match transaction.commit() {
            Ok(next_state) => {
                let next_text = next_state.doc().plain_text();
                if !str_eq(next_text.as_str(), previous_text.as_str()) {
                    self.revision = if self.revision == u64::MAX {
                        0
                    } else {
                        self.revision + 1
                    };
                }
                self.state = next_state;
            },
            Err(_) => {},
        }
    }

    /// Start a pointer selection at `offset` (primary button only).
    pub fn pointer_down(&mut self, offset: FlatTextOffset, button: PointerButton)
        ensures
            handled(old(self)@, EditEvent::PointerDown { offset, button }, final(self)@),
    {
        if button != PointerButton::Primary {
            return;
        }
        self.pointer_anchor = Some(offset);
        self.set_selection(offset, offset);
    }

    /// Extend a pointer selection to `offset`.
    pub fn pointer_move(&mut self, offset: FlatTextOffset)
        ensures
            handled(old(self)@, EditEvent::PointerMove { offset }, final(self)@),
    {
        match self.pointer_anchor {
            Some(anchor) => self.set_selection(anchor, offset),
            None => {},
        }
    }

    /// End a pointer selection.
    pub fn pointer_up(&mut self)
        ensures
            final(self)@ == (EditorCoreV { pointer_anchor: None, ..old(self)@ }),
    {
        self.pointer_anchor = None;
    }

    /// The text to show: the composed text in place of the composition's
    /// range.
    pub fn display_text(&self, committed_text: &str) -> (r: String)
        ensures
            r@ == display_text_v(committed_text@, self@.composition),
    {
        match &self.composition {
            None => to_string(committed_text),
            Some(c) => {
                let len = char_count(committed_text);
                let f = if c.from <= len {
                    c.from
                } else {
                    len
                };
                let e = if c.to <= len {
                    c.to
                } else {
                    len
                };
                let mut next = char_slice(committed_text, 0, f);
                append_str(&mut next, c.text.as_str());
                let tail = char_slice(committed_text, e, len);
                append_str(&mut next, tail.as_str());
                next
            },
        }
    }

    /// The selection to show: a cursor after the composed text while
    /// composing; the state's anchor and head otherwise.
    pub fn display_selection(&self) -> (r: (usize, usize))
        requires
            composition_fits(self@.composition),
        ensures
            match self@.composition {
                Some(c) => r.0 == c.from + c.text.len() && r.1 == r.0,
                None => r.0 == self@.state.selection.anchor() && r.1 == self@.state.selection.head(),
            },
    {
        match &self.composition {
            Some(c) => {
                let head = c.from + Node::char_len(c.text.as_str());
                (head, head)
            },
            None => (self.state.selection().anchor(), self.state.selection().head()),
        }
    }

    /// The range the composed text covers.
    pub fn composition_range(&self) -> (r: Option<(usize, usize)>)
        requires
            composition_fits(self@.composition),
        ensures
            match self@.composition {
                Some(c) => r == Some((c.from as usize, (c.from + c.text.len()) as usize)),
                None => r is None,
            },
    {
        match &self.composition {
            Some(c) => Some((c.from, c.from + Node::char_len(c.text.as_str()))),
            None => None,
        }
    }

    /// A copy of the composition, for snapshots.
    pub fn composition_snapshot(&self) -> (r: Option<CompositionSnapshot>)
        ensures
            match self@.composition {
                Some(c) => r matches Some(x) && x@ == c,
                None => r is None,
            },
    {
        match &self.composition {
            Some(c) => Some(CompositionSnapshot { from: c.from, to: c.to, text: c.text.clone() }),
            None => None,
        }
    }

    /// Handle an editing event.
    pub fn dispatch(&mut self, event: EditEvent)
        requires
            event_fits(old(self)@, event),
        ensures
            handled(old(self)@, event, final(self)@),
    {
        match event {
            EditEvent::CompositionStart => self.start_composition(),
            EditEvent::CompositionUpdate { text } => self.update_composition(text),
            EditEvent::CompositionEnd { text } => self.commit_composition(text),
            EditEvent::CompositionCancel => self.cancel_composition(),
            EditEvent::PointerDown { offset, button } => self.pointer_down(offset, button),
            EditEvent::PointerMove { offset } => self.pointer_move(offset),
            EditEvent::PointerUp => self.pointer_up(),
            EditEvent::InsertText { text } => self.insert_text(text),
            EditEvent::Backspace => self.backspace(),
            EditEvent::DeleteForward => self.delete_forward(),
            EditEvent::MoveCaretLeft => self.move_caret_left(),
            EditEvent::MoveCaretRight => self.move_caret_right(),
            EditEvent::SelectAll => self.select_all(),
        }
    }
}


/// Applying a transaction keeps the revision exactly when it keeps the
/// plain text.
proof fn lemma_applied_revision(s: EditorStateV, rev: u64, tr: Transaction, s2: EditorStateV, rev2: u64)
    requires
        applied(s, rev, tr, s2, rev2),
    ensures
        rev2 == rev <==> plain_text_of(s2.doc) == plain_text_of(s.doc),
{
}

/// Every event keeps the revision exactly when it keeps the plain text:
/// the revision counts the changes to the text and nothing else.
pub proof fn law_revision_tracks_text(c: EditorCoreV, e: EditEvent, n: EditorCoreV)
    requires
        handled(c, e, n),
    ensures
        n.revision == c.revision <==> plain_text_of(n.state.doc) == plain_text_of(c.state.doc),
{
    let c1 = EditorCoreV { composition: None, ..c };
    match e {
        EditEvent::CompositionEnd { text } => match c.composition {
            Some(comp) => {
                let tr = choose|tr: Transaction|
                    #[trigger] replaced_then_cursor(
                        c.state,
                        tr,
                        comp.from,
                        comp.to,
                        text_slice_v(text@),
                        comp.from + text@.len(),
                    ) && applied_core(c, tr, n);
                lemma_applied_revision(c.state, c.revision, tr, n.state, n.revision);
            },
            None => if text@.len() != 0 {
                let tr = choose|tr: Transaction| #[trigger] typed(c.state, tr, text@) && applied_core(c, tr, n);
                lemma_applied_revision(c.state, c.revision, tr, n.state, n.revision);
            },
        },
        EditEvent::InsertText { text } => {
            let tr = choose|tr: Transaction| #[trigger] typed(c1.state, tr, text@) && applied_core(c1, tr, n);
            lemma_applied_revision(c.state, c.revision, tr, n.state, n.revision);
        },
        EditEvent::Backspace => {
            let tr = choose|tr: Transaction|
                #[trigger] deleted_backward(c.state, tr) && applied_core(c1, tr, n);
            lemma_applied_revision(c.state, c.revision, tr, n.state, n.revision);
        },
        EditEvent::DeleteForward => {
            let tr = choose|tr: Transaction|
                #[trigger] deleted_forward(c.state, tr) && applied_core(c1, tr, n);
            lemma_applied_revision(c.state, c.revision, tr, n.state, n.revision);
        },
        EditEvent::SelectAll => {
            let tr = choose|tr: Transaction|
                #[trigger] selected_all(c.state, tr) && applied_core(c1, tr, n);
            lemma_applied_revision(c.state, c.revision, tr, n.state, n.revision);
        },
        EditEvent::MoveCaretLeft => {
            if c.state.selection.is_collapsed() {
                let tr = choose|tr: Transaction| #[trigger] moved_backward(c.state, tr) && applied_core(c1, tr, n);
                lemma_applied_revision(c.state, c.revision, tr, n.state, n.revision);
            }
        },
        EditEvent::MoveCaretRight => {
            if c.state.selection.is_collapsed() {
                let tr = choose|tr: Transaction| #[trigger] moved_forward(c.state, tr) && applied_core(c1, tr, n);
                lemma_applied_revision(c.state, c.revision, tr, n.state, n.revision);
            }
        },
        _ => {},
    }
}

/// Typing `text` into the core replaces the selection by the text and puts
/// the cursor right after it; when the new document's size would not fit
/// in a `usize`, the state stays as it was. Either way the composition ends.
pub proof fn law_typing_event_replaces_selection(c: EditorCoreV, text: String, n: EditorCoreV)
    requires
        handled(c, EditEvent::InsertText { text }, n),
        c.state.selection.to() <= plain_text_of(c.state.doc).len(),
        c.state.selection.from() + text@.len() <= usize::MAX,
    ensures
        n.composition is None,
        size_of(with_plain_text_v(c.state.doc, typed_text_v(c.state, text@))) <= usize::MAX ==> {
            &&& plain_text_of(n.state.doc) == typed_text_v(c.state, text@)
            &&& n.state.selection == cursor_v(n.state.doc, c.state.selection.from() + text@.len())
        },
        size_of(with_plain_text_v(c.state.doc, typed_text_v(c.state, text@))) > usize::MAX
            ==> n.state == c.state,
{
    let c1 = EditorCoreV { composition: None, ..c };
    let tr = choose|tr: Transaction| #[trigger] typed(c1.state, tr, text@) && applied_core(c1, tr, n);
    law_typing_replaces_selection(c.state, tr, text@);
}


/// Committing a transaction that only set the selection keeps the
/// document.
proof fn lemma_selected_keeps_doc(s: EditorStateV, tr: Transaction, sel: SelectionV)
    requires
        selected(s, tr, sel),
    ensures
        commit_v(tr) matches Ok(n) ==> n.doc == s.doc,
{
    let t0 = choose|t0: Transaction| #![trigger fresh(t0, s)] fresh(t0, s) && selection_set(t0, tr, sel);
    assert(tr.steps@.len() == 0);
    let done: Result<NodeV, StepErrorV> = Ok(s.doc);
    assert(replay(s.doc, tr.steps@, 0) == done);
}

/// Events that only move the caret or the selection, or that start, update
/// or cancel a composition, keep the document and the revision.
pub proof fn law_selection_events_keep_text(c: EditorCoreV, e: EditEvent, n: EditorCoreV)
    requires
        handled(c, e, n),
        !(e is InsertText || e is Backspace || e is DeleteForward || e is CompositionEnd),
    ensures
        n.state.doc == c.state.doc,
        n.revision == c.revision,
{
    let c1 = EditorCoreV { composition: None, ..c };
    match e {
        EditEvent::SelectAll => {
            let tr = choose|tr: Transaction|
                #[trigger] selected_all(c.state, tr) && applied_core(c1, tr, n);
            lemma_selected_keeps_doc(
                c.state,
                tr,
                SelectionV::Text(seq![resolved_range(c.state.doc, 0, plain_text_of(c.state.doc).len())]),
            );
        },
        EditEvent::MoveCaretLeft => {
            if c.state.selection.is_collapsed() {
                let tr = choose|tr: Transaction| #[trigger] moved_backward(c.state, tr) && applied_core(c1, tr, n);
                let p = if cursor_of(c.state) >= 1 {
                    (cursor_of(c.state) - 1) as nat
                } else {
                    0
                };
                lemma_selected_keeps_doc(c.state, tr, cursor_v(c.state.doc, p));
            }
        },
        EditEvent::MoveCaretRight => {
            if c.state.selection.is_collapsed() {
                let tr = choose|tr: Transaction| #[trigger] moved_forward(c.state, tr) && applied_core(c1, tr, n);
                let p = if cursor_of(c.state) + 1 <= plain_text_of(c.state.doc).len() {
                    (cursor_of(c.state) + 1) as nat
                } else {
                    plain_text_of(c.state.doc).len()
                };
                lemma_selected_keeps_doc(c.state, tr, cursor_v(c.state.doc, p));
            }
        },
        _ => {},
    }
}


/// While composing, the text shown is the committed text with the composed
/// text in place of the composition's range (each end cut at the text's
/// end): what precedes the range is kept, the composed text starts right at
/// the range's start, and what follows the range comes after it.
pub proof fn law_preview_replaces_the_composition_range(t: Seq<char>, c: CompositionV)
    ensures
        ({
            let f = if c.from <= t.len() { c.from as int } else { t.len() as int };
            let e = if c.to <= t.len() { c.to as int } else { t.len() as int };
            let d = display_text_v(t, Some(c));
            &&& d == crate::transform::replace::replace_range(t, f, e, c.text)
            &&& d.len() == f + c.text.len() + (t.len() - e)
            &&& d.take(f) == t.take(f)
            &&& d.subrange(f, f + c.text.len()) == c.text
            &&& d.skip(f + c.text.len()) == t.skip(e)
        }),
        display_text_v(t, None) == t,
{
    let f = if c.from <= t.len() { c.from as int } else { t.len() as int };
    let e = if c.to <= t.len() { c.to as int } else { t.len() as int };
    let d = display_text_v(t, Some(c));
    assert(t.subrange(0, f) =~= t.take(f));
    assert(t.subrange(e, t.len() as int) =~= t.skip(e));
    assert(d.take(f) =~= t.take(f));
    assert(d.subrange(f, f + c.text.len()) =~= c.text);
    assert(d.skip(f + c.text.len()) =~= t.skip(e));
}


/// A caret move to the right on a cursor keeps the text and the revision
/// and puts the cursor one character further on, or at the end of the text
/// when it is at (or past) the end; a selection collapses to its end
/// (clamped to the text). Where the document's size would not fit in a
/// `usize`, a cursor stays as it was.
pub proof fn law_caret_right_steps_one_character(c: EditorCoreV, n: EditorCoreV)
    requires
        handled(c, EditEvent::MoveCaretRight, n),
    ensures
        n.state.doc == c.state.doc,
        n.revision == c.revision,
        n.composition is None,
        c.state.selection.is_collapsed() && size_of(c.state.doc) <= usize::MAX ==> n.state.selection
            == cursor_v(
            c.state.doc,
            if cursor_of(c.state) < plain_text_of(c.state.doc).len() {
                cursor_of(c.state) + 1
            } else {
                plain_text_of(c.state.doc).len()
            },
        ),
        c.state.selection.is_collapsed() && size_of(c.state.doc) > usize::MAX ==> n.state == c.state,
        !c.state.selection.is_collapsed() ==> n.state.selection == cursor_v(
            c.state.doc,
            if c.state.selection.to() <= plain_text_of(c.state.doc).len() {
                c.state.selection.to()
            } else {
                plain_text_of(c.state.doc).len()
            },
        ),
{
    let c1 = EditorCoreV { composition: None, ..c };
    if c.state.selection.is_collapsed() {
        let tr = choose|tr: Transaction| #[trigger] moved_forward(c.state, tr) && applied_core(c1, tr, n);
        law_move_forward_steps_one_character(c.state, tr);
    }
}

/// A caret move to the left on a cursor keeps the text and the revision and
/// puts the cursor one character back, or at 0 from 0; a selection
/// collapses to its start. Where the document's size would not fit in a
/// `usize`, a cursor stays as it was.
pub proof fn law_caret_left_steps_one_character(c: EditorCoreV, n: EditorCoreV)
    requires
        handled(c, EditEvent::MoveCaretLeft, n),
    ensures
        n.state.doc == c.state.doc,
        n.revision == c.revision,
        n.composition is None,
        c.state.selection.is_collapsed() && size_of(c.state.doc) <= usize::MAX ==> n.state.selection
            == cursor_v(
            c.state.doc,
            if cursor_of(c.state) > 0 {
                (cursor_of(c.state) - 1) as nat
            } else {
                0
            },
        ),
        c.state.selection.is_collapsed() && size_of(c.state.doc) > usize::MAX ==> n.state == c.state,
        !c.state.selection.is_collapsed() ==> n.state.selection == cursor_v(
            c.state.doc,
            if c.state.selection.from() <= plain_text_of(c.state.doc).len() {
                c.state.selection.from()
            } else {
                plain_text_of(c.state.doc).len()
            },
        ),
{
    let c1 = EditorCoreV { composition: None, ..c };
    if c.state.selection.is_collapsed() {
        let tr = choose|tr: Transaction| #[trigger] moved_backward(c.state, tr) && applied_core(c1, tr, n);
        law_move_backward_steps_one_character(c.state, tr);
    }
}

} // verus!
