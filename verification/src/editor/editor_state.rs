//! The node-key editor model's state: nodes by key, linked to their
//! parent, siblings and children, and a selection.

use vstd::prelude::*;
use std::collections::HashMap;
use std::collections::hash_map::Entry;
use crate::editor::editor_node::{EditorNode, EditorNodeProp, NodeKey};
use crate::editor::editor_selection::{EditorSelection, create_empty_editor_selection};
use crate::nodes::root_node::{create_root_node, ROOT_NODE_KEY};
use crate::nodes::paragraph_node::{create_paragraph_node, new_paragraph_node};
use crate::nodes::text_node::{create_text_node, new_text_node};

verus! {

broadcast use vstd::std_specs::hash::group_hash_axioms;

/// Nodes by key.
pub type NodeMap = HashMap<u32, EditorNode>;

/// The state: the nodes by key and the selection.
#[derive(Debug)]
pub struct EditorState {
    pub node_map: NodeMap,
    pub selection: EditorSelection,
}

/// `m` with the links of node `k` replaced by `p`.
pub open spec fn with_links(m: Map<u32, EditorNode>, k: u32, p: EditorNodeProp) -> Map<u32, EditorNode> {
    m.insert(k, m[k].with_prop(p))
}

/// The nodes after appending `child` under `parent` with key `key`: the
/// parent's old last child (if any) points forward to the new node, which
/// points back to it and up to the parent; the parent's last child (and
/// first, when it had none) becomes the new node.
pub open spec fn appended(m: Map<u32, EditorNode>, parent: u32, key: u32, child: EditorNode) -> Map<
    u32,
    EditorNode,
> {
    match m[parent].prop().last {
        Some(last) => {
            let m1 = with_links(m, last, EditorNodeProp { next: Some(key), ..m[last].prop() });
            let c = child.with_prop(
                EditorNodeProp { parent: Some(parent), prev: Some(last), ..child.prop() },
            );
            let m2 = with_links(m1, parent, EditorNodeProp { last: Some(key), ..m1[parent].prop() });
            m2.insert(key, c)
        },
        None => {
            let m1 = with_links(
                m,
                parent,
                EditorNodeProp { first: Some(key), last: Some(key), ..m[parent].prop() },
            );
            m1.insert(key, child.with_prop(EditorNodeProp { parent: Some(parent), ..child.prop() }))
        },
    }
}

/// Change the links of node `k` of `m` to `p`.
fn relink(m: &mut NodeMap, k: u32, p: EditorNodeProp)
    requires
        old(m)@.contains_key(k),
    ensures
        final(m)@ == with_links(old(m)@, k, p),
{
    match m.entry(k) {
        Entry::Occupied(mut o) => {
            let node = o.get_mut();
            set_links(node, p);
        },
        Entry::Vacant(_) => {},
    }
}

/// Replace the links of `node` by `p`.
fn set_links(node: &mut EditorNode, p: EditorNodeProp)
    ensures
        *final(node) == old(node).with_prop(p),
{
    node.set_first_node_key(p.first);
    node.set_last_node_key(p.last);
    node.set_next_node_key(p.next);
    node.set_prev_node_key(p.prev);
    node.set_parent_node_key(p.parent);
    match node {
        EditorNode::RootNode { prop } => prop.node_type = p.node_type,
        EditorNode::TextNode { prop, .. } => prop.node_type = p.node_type,
        EditorNode::ParagraphNode { prop, .. } => prop.node_type = p.node_type,
    }
}

/// The links of node `k`.
fn links_of(m: &NodeMap, k: u32) -> (r: EditorNodeProp)
    requires
        m@.contains_key(k),
    ensures
        r == m@[k].prop(),
{
    let node = m.get(&k).unwrap();
    EditorNodeProp {
        node_type: match node {
            EditorNode::RootNode { prop } => prop.node_type,
            EditorNode::TextNode { prop, .. } => prop.node_type,
            EditorNode::ParagraphNode { prop, .. } => prop.node_type,
        },
        first: node.get_first_node_key(),
        last: node.get_last_node_key(),
        next: node.get_next_node_key(),
        prev: node.get_prev_node_key(),
        parent: node.get_parent_node_key(),
    }
}

impl EditorState {
    /// No nodes and an empty selection.
    pub fn new() -> (r: Self)
        ensures
            r.node_map@ == Map::<u32, EditorNode>::empty(),
            r.selection.spec_start() == 0 && r.selection.spec_end() == 0
                && r.selection.spec_cursor() == 0,
    {
        EditorState { node_map: HashMap::new(), selection: create_empty_editor_selection() }
    }

    /// The node with the key, to change it in place.
    pub fn get_node(&mut self, node_key: u32) -> (r: Option<&mut EditorNode>)
        ensures
            match r {
                Some(n) => old(self).node_map@.contains_key(node_key),
                None => !old(self).node_map@.contains_key(node_key),
            },
            match r {
                Some(n) => *n == old(self).node_map@[node_key],
                None => true,
            },
            match r {
                Some(n) => final(self).node_map@ == old(self).node_map@.insert(node_key, *final(n)),
                None => final(self).node_map@ == old(self).node_map@,
            },
            final(self).selection == old(self).selection,
    {
        match self.node_map.entry(node_key) {
            Entry::Occupied(o) => Some(o.into_mut()),
            Entry::Vacant(_) => None,
        }
    }

    /// Append `child` under `parent_key` with key `node_key`.
    pub fn append_node(&mut self, parent_key: NodeKey, node_key: NodeKey, child: EditorNode)
        requires
            parent_key is Some,
            node_key is Some,
            old(self).node_map@.contains_key(parent_key->0),
            old(self).node_map@[parent_key->0].prop().last matches Some(l) ==> old(
                self,
            ).node_map@.contains_key(l),
        ensures
            final(self).node_map@ == appended(
                old(self).node_map@,
                parent_key->0,
                node_key->0,
                child,
            ),
            final(self).selection == old(self).selection,
    {
        let mut child = child;
        let parent = match parent_key {
            Some(p) => p,
            None => 0,
        };
        let key = match node_key {
            Some(k) => k,
            None => 0,
        };
        let parent_links = links_of(&self.node_map, parent);
        match parent_links.last {
            Some(last_key) => {
                let last_links = links_of(&self.node_map, last_key);
                relink(&mut self.node_map, last_key, EditorNodeProp { next: node_key, ..last_links });
                child.set_parent_node_key(parent_key);
                child.set_prev_node_key(Some(last_key));
                let parent_links = links_of(&self.node_map, parent);
                relink(&mut self.node_map, parent, EditorNodeProp { last: node_key, ..parent_links });
            },
            None => {
                relink(
                    &mut self.node_map,
                    parent,
                    EditorNodeProp { first: node_key, last: node_key, ..parent_links },
                );
                child.set_parent_node_key(parent_key);
            },
        }
        self.node_map.insert(key, child);
    }
}

impl EditorState {
    /// Append a new paragraph under the root with key `node_key`, and
    /// return the key.
    pub fn append_paragraph_node(&mut self, node_key: u32) -> (r: NodeKey)
        requires
            old(self).node_map@.contains_key(ROOT_NODE_KEY),
            old(self).node_map@[ROOT_NODE_KEY].prop().last matches Some(l) ==> old(
                self,
            ).node_map@.contains_key(l),
        ensures
            r == Some(node_key),
            exists|n: EditorNode|
                new_paragraph_node(n) && #[trigger] appended(old(self).node_map@, ROOT_NODE_KEY, node_key, n)
                    == final(self).node_map@,
            final(self).selection == old(self).selection,
    {
        let paragraph_node = create_paragraph_node();
        self.append_node(Some(ROOT_NODE_KEY), Some(node_key), paragraph_node);
        Some(node_key)
    }

    /// Append a text node holding `char` under the paragraph
    /// `paragraph_node_key` with key `node_key`, and return the key; `None`,
    /// with nothing changed, when there is no such paragraph.
    pub fn append_text_node(&mut self, paragraph_node_key: u32, char: char, node_key: u32) -> (r:
        NodeKey)
        requires
            old(self).node_map@.contains_key(paragraph_node_key) ==> (old(
                self,
            ).node_map@[paragraph_node_key].prop().last matches Some(l) ==> old(
                self,
            ).node_map@.contains_key(l)),
        ensures
            !old(self).node_map@.contains_key(paragraph_node_key) ==> (r is None),
            !old(self).node_map@.contains_key(paragraph_node_key) ==> final(self).node_map@ == old(
                self,
            ).node_map@,
            old(self).node_map@.contains_key(paragraph_node_key) ==> r == Some(node_key),
            old(self).node_map@.contains_key(paragraph_node_key) ==> (exists|n: EditorNode|
                new_text_node(n, char) && #[trigger] appended(
                    old(self).node_map@,
                    paragraph_node_key,
                    node_key,
                    n,
                ) == final(self).node_map@),
            final(self).selection == old(self).selection,
    {
        if !self.node_map.contains_key(&paragraph_node_key) {
            return None;
        }
        let text_node = create_text_node(char);
        self.append_node(Some(paragraph_node_key), Some(node_key), text_node);
        Some(node_key)
    }
}

/// A state holding the root node under `ROOT_NODE_KEY`.
pub fn create_empty_editor_state() -> (r: EditorState)
    ensures
        r.node_map@.dom() =~= set![ROOT_NODE_KEY],
        r.node_map@[ROOT_NODE_KEY] == create_root_node_v(),
{
    let root_node = create_root_node();
    let mut editor_state = EditorState::new();
    editor_state.node_map.insert(ROOT_NODE_KEY, root_node);
    editor_state
}

/// The root node `create_root_node` builds.
pub open spec fn create_root_node_v() -> EditorNode {
    EditorNode::RootNode {
        prop: crate::nodes::paragraph_node::unlinked(crate::editor::editor_node::NodeType::RootNode),
    }
}

} // verus!
