//! Editor state: the document, the selection, the stored marks and the
//! schema.

use vstd::prelude::*;
use crate::model::node::{
    Node, NodeV, Mark, MarkV, marks_view, keep_marks, clone_marks, size_of, text_of,
    lemma_content_le_size,
};
use crate::model::schema::{Schema, SchemaSpecV, is_default_spec};
use crate::state::selection::{
    Selection, SelectionV, TextSelection, NodeSelection, SelectionRange, resolved_range,
    selection_display,
};
use crate::strings::{to_string, append_str, str_eq, char_slice, char_count};

verus! {

/// Marks applied but not yet used (e.g. bold before typing).
#[derive(Debug)]
pub struct StoredMarks {
    /// The stored marks
    marks: Vec<Mark>,
}

impl View for StoredMarks {
    type V = Seq<MarkV>;

    closed spec fn view(&self) -> Seq<MarkV> {
        marks_view(self.marks@)
    }
}

impl Clone for StoredMarks {
    fn clone(&self) -> (r: Self)
        ensures
            r@ == self@,
    {
        StoredMarks { marks: clone_marks(&self.marks) }
    }
}

impl Default for StoredMarks {
    fn default() -> (r: Self)
        ensures
            r@ == Seq::<MarkV>::empty(),
    {
        Self::empty()
    }
}

/// `ms` without the marks named `name`, keeping the order of the rest.
fn retain_other_marks(ms: &Vec<Mark>, name: &str) -> (r: Vec<Mark>)
    ensures
        marks_view(r@) == keep_marks(marks_view(ms@), seq![name@]),
{
    let mut out: Vec<Mark> = Vec::new();
    let mut i: usize = 0;
    while i < ms.len()
        invariant
            i <= ms@.len(),
            marks_view(out@) == keep_marks(marks_view(ms@).take(i as int), seq![name@]),
        decreases ms@.len() - i,
    {
        let ghost prev = out@;
        let ghost mv = marks_view(ms@);
        proof {
            assert(mv.take(i + 1).drop_last() =~= mv.take(i as int));
            assert(mv.take(i + 1).last() == ms@[i as int]@);
            assert(seq![name@].contains(ms@[i as int]@.mark_type) <==> ms@[i as int]@.mark_type
                == name@) by {
                if ms@[i as int]@.mark_type == name@ {
                    assert(seq![name@][0] == name@);
                }
            }
        }
        if !str_eq(ms[i].mark_type.as_str(), name) {
            out.push(ms[i].clone());
            proof {
                assert(marks_view(out@) =~= marks_view(prev).push(ms@[i as int]@));
            }
        }
        i = i + 1;
    }
    proof {
        assert(marks_view(ms@).take(ms@.len() as int) =~= marks_view(ms@));
    }
    out
}

impl StoredMarks {
    /// No stored marks.
    pub fn empty() -> (r: Self)
        ensures
            r@ == Seq::<MarkV>::empty(),
    {
        let r = StoredMarks { marks: Vec::new() };
        proof {
            assert(r@ =~= Seq::<MarkV>::empty());
        }
        r
    }

    /// The given marks.
    pub fn new(marks: Vec<Mark>) -> (r: Self)
        ensures
            r@ == marks_view(marks@),
    {
        StoredMarks { marks }
    }

    /// The marks.
    pub fn marks(&self) -> (r: &[Mark])
        ensures
            marks_view(r@) == self@,
    {
        self.marks.as_slice()
    }

    /// Add a mark at the end.
    pub fn add(&mut self, mark: Mark)
        ensures
            final(self)@ == old(self)@.push(mark@),
    {
        self.marks.push(mark);
        proof {
            assert(marks_view(self.marks@) =~= old(self)@.push(mark@));
        }
    }

    /// Remove every mark of type `mark_type`.
    pub fn remove(&mut self, mark_type: &str)
        ensures
            final(self)@ == keep_marks(old(self)@, seq![mark_type@]),
    {
        self.marks = retain_other_marks(&self.marks, mark_type);
    }

    /// Whether there are no marks.
    pub fn is_empty(&self) -> (r: bool)
        ensures
            r == (self@.len() == 0),
    {
        self.marks.len() == 0
    }

    /// Remove all marks.
    pub fn clear(&mut self)
        ensures
            final(self)@ == Seq::<MarkV>::empty(),
    {
        self.marks.clear();
        proof {
            assert(marks_view(self.marks@) =~= Seq::<MarkV>::empty());
        }
    }
}

/// A document whose sizes fit in a `usize`.
#[derive(Debug)]
struct SizedDoc {
    node: Node,
}

impl SizedDoc {
    /// The document's sizes fit in a `usize`.
    #[verifier::type_invariant]
    closed spec fn fits(self) -> bool {
        size_of(self.node@) <= usize::MAX
    }

    fn new(node: Node) -> (r: Self)
        requires
            size_of(node@) <= usize::MAX,
        ensures
            r.node@ == node@,
    {
        SizedDoc { node }
    }

    fn node(&self) -> (r: &Node)
        ensures
            r@ == self.node@,
            size_of(r@) <= usize::MAX,
    {
        proof {
            use_type_invariant(self);
        }
        &self.node
    }

    fn clone(&self) -> (r: Self)
        ensures
            r.node@ == self.node@,
    {
        proof {
            use_type_invariant(self);
        }
        SizedDoc { node: self.node.clone() }
    }
}

/// The editor state: the document, the current selection, the stored
/// marks and the schema.
#[derive(Debug)]
pub struct EditorState {
    /// The document
    doc: SizedDoc,
    /// The current selection
    selection: Selection,
    /// Stored marks (marks waiting to be applied)
    stored_marks: StoredMarks,
    /// The schema
    schema: Schema,
}

/// The view of an editor state.
pub struct EditorStateV {
    pub doc: NodeV,
    pub selection: SelectionV,
    pub stored_marks: Seq<MarkV>,
    pub schema: SchemaSpecV,
}

impl View for EditorState {
    type V = EditorStateV;

    closed spec fn view(&self) -> EditorStateV {
        EditorStateV {
            doc: self.doc.node@,
            selection: self.selection@,
            stored_marks: self.stored_marks@,
            schema: self.schema@,
        }
    }
}

/// The text of `doc` from `from` on, `to - from` characters long (none
/// when `to <= from`), cut at the end of the text.
pub open spec fn extract_text_v(doc: NodeV, from: nat, to: nat) -> Seq<char> {
    let t = text_of(doc);
    let a = if from <= t.len() {
        from
    } else {
        t.len()
    };
    let b = if to <= from {
        a
    } else if to <= t.len() {
        to
    } else {
        t.len()
    };
    t.subrange(a as int, b as int)
}

/// The selected text: none for a collapsed selection.
pub open spec fn selected_text_v(s: EditorStateV) -> Seq<char> {
    if s.selection.is_collapsed() {
        seq![]
    } else {
        extract_text_v(s.doc, s.selection.from(), s.selection.to())
    }
}

/// The display form of a state.
pub open spec fn state_display(s: EditorStateV) -> Seq<char> {
    "EditorState(doc="@ + s.doc.name() + ", sel="@ + selection_display(s.selection) + ")"@
}

impl Clone for EditorState {
    fn clone(&self) -> (r: Self)
        ensures
            r@ == self@,
    {
        EditorState {
            doc: self.doc.clone(),
            selection: self.selection.clone(),
            stored_marks: self.stored_marks.clone(),
            schema: self.schema.clone(),
        }
    }
}

impl EditorState {
    /// A state with no stored marks.
    pub fn new(doc: Node, selection: Selection, schema: Schema) -> (r: Self)
        requires
            size_of(doc@) <= usize::MAX,
        ensures
            r@ == (EditorStateV {
                doc: doc@,
                selection: selection@,
                stored_marks: seq![],
                schema: schema@,
            }),
    {
        EditorState { doc: SizedDoc::new(doc), selection, stored_marks: StoredMarks::empty(), schema }
    }

    /// A state with stored marks.
    pub fn with_marks(doc: Node, selection: Selection, stored_marks: StoredMarks, schema: Schema) -> (r:
        Self)
        requires
            size_of(doc@) <= usize::MAX,
        ensures
            r@ == (EditorStateV {
                doc: doc@,
                selection: selection@,
                stored_marks: stored_marks@,
                schema: schema@,
            }),
    {
        EditorState { doc: SizedDoc::new(doc), selection, stored_marks, schema }
    }

    /// The initial state of a document: a cursor at 0 and the default schema.
    pub fn from_doc(doc: Node) -> (r: Self)
        requires
            size_of(doc@) <= usize::MAX,
        ensures
            r@.doc == doc@,
            r@.selection == SelectionV::Text(seq![resolved_range(doc@, 0, 0)]),
            r@.stored_marks == Seq::<MarkV>::empty(),
            is_default_spec(r@.schema),
    {
        let schema = Schema::default();
        let selection = Selection::text(TextSelection::at(&doc, 0));
        Self::new(doc, selection, schema)
    }

    /// The document.
    pub fn doc(&self) -> (r: &Node)
        ensures
            r@ == self@.doc,
            size_of(r@) <= usize::MAX,
    {
        self.doc.node()
    }

    /// The selection.
    pub fn selection(&self) -> (r: &Selection)
        ensures
            r@ == self@.selection,
    {
        &self.selection
    }

    /// The stored marks.
    pub fn stored_marks(&self) -> (r: &[Mark])
        ensures
            marks_view(r@) == self@.stored_marks,
    {
        self.stored_marks.marks()
    }

    /// The schema.
    pub fn schema(&self) -> (r: &Schema)
        ensures
            r@ == self@.schema,
    {
        &self.schema
    }

    /// The stored marks, to change them in place.
    pub fn stored_marks_mut(&mut self) -> (r: &mut StoredMarks)
        ensures
            r@ == old(self)@.stored_marks,
            final(self)@ == (EditorStateV { stored_marks: final(r)@, ..old(self)@ }),
    {
        &mut self.stored_marks
    }

    /// The text selection, if the selection is one.
    pub fn text_selection(&self) -> (r: Option<&TextSelection>)
        ensures
            match self@.selection {
                SelectionV::Text(rs) => r matches Some(t) && t@ == rs,
                SelectionV::Node { .. } => r is None,
            },
    {
        self.selection.as_text()
    }

    /// The node selection, if the selection is one.
    pub fn node_selection(&self) -> (r: Option<&NodeSelection>)
        ensures
            match self@.selection {
                SelectionV::Text(_) => r is None,
                SelectionV::Node { pos, depth } => r matches Some(n) && n.pos == pos && n.depth
                    == depth,
            },
    {
        self.selection.as_node()
    }

    /// The primary range of a text selection.
    pub fn range(&self) -> (r: Option<&SelectionRange>)
        ensures
            match self@.selection {
                SelectionV::Text(rs) => if rs.len() > 0 {
                    r matches Some(x) && x@ == rs[0]
                } else {
                    r is None
                },
                SelectionV::Node { .. } => r is None,
            },
    {
        match &self.selection {
            Selection::Text(t) => t.primary(),
            Selection::Node(_) => None,
        }
    }

    /// A collapsed selection at 0.
    pub fn is_at_start(&self) -> (r: bool)
        ensures
            r == (self@.selection.is_collapsed() && self@.selection.head() == 0),
    {
        self.selection.is_collapsed() && self.selection.head() == 0
    }

    /// A collapsed selection at the end of the document's content.
    pub fn is_at_end(&self) -> (r: bool)
        ensures
            r == (self@.selection.is_collapsed() && self@.selection.head()
                == crate::model::node::content_len_of(self@.doc)),
    {
        let doc_end = self.doc.node().content_size().content_size;
        self.selection.is_collapsed() && self.selection.head() == doc_end
    }

    /// The selected text; empty for a collapsed selection.
    pub fn as_text(&self) -> (r: String)
        requires
            self@.selection.to_fits(),
        ensures
            r@ == selected_text_v(self@),
    {
        if self.selection.is_collapsed() {
            return String::new();
        }
        let from = self.selection.from();
        let to = self.selection.to();
        self.extract_text(from, to)
    }

    /// The text from `from`, `to - from` characters long.
    fn extract_text(&self, from: usize, to: usize) -> (r: String)
        ensures
            r@ == extract_text_v(self@.doc, from as nat, to as nat),
    {
        let t = self.doc.node().text_content();
        let len = char_count(t.as_str());
        let a = if from <= len {
            from
        } else {
            len
        };
        let b = if to <= from {
            a
        } else if to <= len {
            to
        } else {
            len
        };
        char_slice(t.as_str(), a, b)
    }

    /// This state with another document.
    pub fn apply(&self, doc: Node) -> (r: Self)
        requires
            size_of(doc@) <= usize::MAX,
        ensures
            r@ == (EditorStateV { doc: doc@, ..self@ }),
    {
        EditorState {
            doc: SizedDoc::new(doc),
            selection: self.selection.clone(),
            stored_marks: self.stored_marks.clone(),
            schema: self.schema.clone(),
        }
    }

    /// This state with another selection.
    pub fn with_selection(&self, selection: Selection) -> (r: Self)
        ensures
            r@ == (EditorStateV { selection: selection@, ..self@ }),
    {
        EditorState {
            doc: self.doc.clone(),
            selection,
            stored_marks: self.stored_marks.clone(),
            schema: self.schema.clone(),
        }
    }

    /// This state with another selection.
    pub fn apply_selection(&self, selection: Selection) -> (r: Self)
        ensures
            r@ == (EditorStateV { selection: selection@, ..self@ }),
    {
        self.with_selection(selection)
    }

    /// The display form: `EditorState(doc=<type>, sel=<selection>)`.
    pub fn to_string(&self) -> (r: String)
        ensures
            r@ == state_display(self@),
    {
        let mut s = to_string("EditorState(doc=");
        append_str(&mut s, self.doc.node().node_type_name());
        append_str(&mut s, ", sel=");
        let sel = self.selection.to_string();
        append_str(&mut s, sel.as_str());
        append_str(&mut s, ")");
        s
    }
}

/// After removing a mark type from a list of marks, no mark of that type
/// is left, and every mark of another type is kept.
pub proof fn law_removed_marks_are_gone(ms: Seq<MarkV>, name: Seq<char>)
    ensures
        !crate::model::node::has_mark_named(keep_marks(ms, seq![name]), name),
        forall|m: MarkV| ms.contains(m) && m.mark_type != name ==> keep_marks(ms, seq![name]).contains(m),
    decreases ms.len(),
{
    if ms.len() > 0 {
        law_removed_marks_are_gone(ms.drop_last(), name);
        let p = keep_marks(ms.drop_last(), seq![name]);
        assert(seq![name].contains(ms.last().mark_type) <==> ms.last().mark_type == name) by {
            if ms.last().mark_type == name {
                assert(seq![name][0] == name);
            }
        }
        if ms.last().mark_type != name {
            let q = p.push(ms.last());
            assert forall|k: int| 0 <= k < q.len() implies #[trigger] q[k].mark_type != name by {
                if k < p.len() {
                    assert(p[k].mark_type != name);
                }
            }
            assert forall|m: MarkV| ms.contains(m) && m.mark_type != name implies q.contains(m) by {
                let k = choose|k: int| 0 <= k < ms.len() && ms[k] == m;
                if k < ms.len() - 1 {
                    assert(ms.drop_last()[k] == m);
                    assert(ms.drop_last().contains(m));
                    let j = choose|j: int| 0 <= j < p.len() && p[j] == m;
                    assert(q[j] == m);
                } else {
                    assert(q[q.len() - 1] == m);
                }
            }
        } else {
            assert forall|m: MarkV| ms.contains(m) && m.mark_type != name implies p.contains(m) by {
                let k = choose|k: int| 0 <= k < ms.len() && ms[k] == m;
                assert(k < ms.len() - 1);
                assert(ms.drop_last()[k] == m);
                assert(ms.drop_last().contains(m));
            }
        }
    }
}

} // verus!
