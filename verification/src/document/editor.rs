//! An editor over a tree document.

use vstd::prelude::*;
use crate::document::tree::{TreeDoc, TreeDocV, fresh_node};
use crate::document::{NodeId, NodeContent, NodeTypeV};

verus! {

/// The state of an editor: its document.
#[derive(Debug)]
pub struct EditorState {
    pub doc: TreeDoc,
}

impl EditorState {
    /// A state holding a fresh document (only the root).
    pub fn new() -> (r: Self)
        ensures
            r.doc.wf(),
            r.doc@.root == 0,
            r.doc@.id_counter == 1,
            r.doc@.nodes.dom() =~= set![0u64],
            fresh_node(r.doc@.nodes[0], NodeId(0), NodeTypeV::Document, NodeContent::Empty),
    {
        EditorState { doc: TreeDoc::new() }
    }
}

impl Default for EditorState {
    fn default() -> (r: Self)
        ensures
            r.doc.wf(),
            r.doc@.root == 0,
            r.doc@.id_counter == 1,
            r.doc@.nodes.dom() =~= set![0u64],
            fresh_node(r.doc@.nodes[0], NodeId(0), NodeTypeV::Document, NodeContent::Empty),
    {
        EditorState::new()
    }
}

/// An editor.
#[derive(Debug)]
pub struct Editor {
    state: EditorState,
}

impl Editor {
    /// The document of the editor.
    pub closed spec fn doc_view(&self) -> TreeDocV {
        self.state.doc@
    }

    /// An editor on a fresh document.
    pub fn new() -> (r: Self)
        ensures
            r.doc_view().root == 0,
            r.doc_view().id_counter == 1,
            r.doc_view().nodes.dom() =~= set![0u64],
            fresh_node(r.doc_view().nodes[0], NodeId(0), NodeTypeV::Document, NodeContent::Empty),
    {
        Editor { state: EditorState::new() }
    }
}

impl Default for Editor {
    fn default() -> (r: Self)
        ensures
            r.doc_view().root == 0,
            r.doc_view().id_counter == 1,
            r.doc_view().nodes.dom() =~= set![0u64],
            fresh_node(r.doc_view().nodes[0], NodeId(0), NodeTypeV::Document, NodeContent::Empty),
    {
        Editor::new()
    }
}

} // verus!
