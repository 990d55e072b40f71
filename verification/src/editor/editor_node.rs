//! Nodes of the node-key editor model: each node names its first and last
//! child, its siblings and its parent by key.

use vstd::prelude::*;
use crate::nodes::paragraph_node::ParagraphNodeStyle;
use crate::nodes::text_node::TextNodeStyle;

verus! {

/// The key of a node, if any.
pub type NodeKey = Option<u32>;

/// The kind of an editor node.
#[derive(Debug, Clone, Copy, PartialEq, Eq, Structural)]
pub enum NodeType {
    RootNode,
    TextNode,
    ParagraphNode,
}

/// The links of a node and its kind.
#[derive(Debug, Clone, Copy, PartialEq, Eq, Structural)]
pub struct EditorNodeProp {
    pub node_type: NodeType,
    pub first: NodeKey,
    pub last: NodeKey,
    pub next: NodeKey,
    pub prev: NodeKey,
    pub parent: NodeKey,
}

/// An editor node: the root, a text node holding one character, or a
/// paragraph.
#[derive(Debug)]
pub enum EditorNode {
    RootNode { prop: EditorNodeProp },
    TextNode { prop: EditorNodeProp, char: char, style: TextNodeStyle },
    ParagraphNode { prop: EditorNodeProp, style: ParagraphNodeStyle },
}

impl EditorNode {
    /// The links and kind of the node.
    pub open spec fn prop(self) -> EditorNodeProp {
        match self {
            EditorNode::RootNode { prop } => prop,
            EditorNode::TextNode { prop, .. } => prop,
            EditorNode::ParagraphNode { prop, .. } => prop,
        }
    }

    /// The node with its links replaced by `p`.
    pub open spec fn with_prop(self, p: EditorNodeProp) -> EditorNode {
        match self {
            EditorNode::RootNode { .. } => EditorNode::RootNode { prop: p },
            EditorNode::TextNode { char, style, .. } => EditorNode::TextNode { prop: p, char, style },
            EditorNode::ParagraphNode { style, .. } => EditorNode::ParagraphNode { prop: p, style },
        }
    }

    /// Whether the node's recorded kind is `node_type`.
    pub fn is_type(&self, node_type: NodeType) -> (r: bool)
        ensures
            r == (self.prop().node_type == node_type),
    {
        match self {
            EditorNode::RootNode { prop } => prop.node_type == node_type,
            EditorNode::TextNode { prop, .. } => prop.node_type == node_type,
            EditorNode::ParagraphNode { prop, .. } => prop.node_type == node_type,
        }
    }

    /// Set the first child key.
    pub fn set_first_node_key(&mut self, first: NodeKey)
        ensures
            *final(self) == old(self).with_prop(EditorNodeProp { first, ..old(self).prop() }),
    {
        match self {
            EditorNode::RootNode { prop } => prop.first = first,
            EditorNode::TextNode { prop, .. } => prop.first = first,
            EditorNode::ParagraphNode { prop, .. } => prop.first = first,
        }
    }

    /// The first child key.
    pub fn get_first_node_key(&self) -> (r: NodeKey)
        ensures
            r == self.prop().first,
    {
        match self {
            EditorNode::RootNode { prop } => prop.first,
            EditorNode::TextNode { prop, .. } => prop.first,
            EditorNode::ParagraphNode { prop, .. } => prop.first,
        }
    }

    /// Set the last child key.
    pub fn set_last_node_key(&mut self, last: NodeKey)
        ensures
            *final(self) == old(self).with_prop(EditorNodeProp { last, ..old(self).prop() }),
    {
        match self {
            EditorNode::RootNode { prop } => prop.last = last,
            EditorNode::TextNode { prop, .. } => prop.last = last,
            EditorNode::ParagraphNode { prop, .. } => prop.last = last,
        }
    }

    /// The last child key.
    pub fn get_last_node_key(&self) -> (r: NodeKey)
        ensures
            r == self.prop().last,
    {
        match self {
            EditorNode::RootNode { prop } => prop.last,
            EditorNode::TextNode { prop, .. } => prop.last,
            EditorNode::ParagraphNode { prop, .. } => prop.last,
        }
    }

    /// Set the previous sibling key.
    pub fn set_prev_node_key(&mut self, prev: NodeKey)
        ensures
            *final(self) == old(self).with_prop(EditorNodeProp { prev, ..old(self).prop() }),
    {
        match self {
            EditorNode::RootNode { prop } => prop.prev = prev,
            EditorNode::TextNode { prop, .. } => prop.prev = prev,
            EditorNode::ParagraphNode { prop, .. } => prop.prev = prev,
        }
    }

    /// The previous sibling key.
    pub fn get_prev_node_key(&self) -> (r: NodeKey)
        ensures
            r == self.prop().prev,
    {
        match self {
            EditorNode::RootNode { prop } => prop.prev,
            EditorNode::TextNode { prop, .. } => prop.prev,
            EditorNode::ParagraphNode { prop, .. } => prop.prev,
        }
    }

    /// Set the next sibling key.
    pub fn set_next_node_key(&mut self, next: NodeKey)
        ensures
            *final(self) == old(self).with_prop(EditorNodeProp { next, ..old(self).prop() }),
    {
        match self {
            EditorNode::RootNode { prop } => prop.next = next,
            EditorNode::TextNode { prop, .. } => prop.next = next,
            EditorNode::ParagraphNode { prop, .. } => prop.next = next,
        }
    }

    /// The next sibling key.
    pub fn get_next_node_key(&self) -> (r: NodeKey)
        ensures
            r == self.prop().next,
    {
        match self {
            EditorNode::RootNode { prop } => prop.next,
            EditorNode::TextNode { prop, .. } => prop.next,
            EditorNode::ParagraphNode { prop, .. } => prop.next,
        }
    }

    /// Set the parent key.
    pub fn set_parent_node_key(&mut self, parent: NodeKey)
        ensures
            *final(self) == old(self).with_prop(EditorNodeProp { parent, ..old(self).prop() }),
    {
        match self {
            EditorNode::RootNode { prop } => prop.parent = parent,
            EditorNode::TextNode { prop, .. } => prop.parent = parent,
            EditorNode::ParagraphNode { prop, .. } => prop.parent = parent,
        }
    }

    /// The parent key.
    pub fn get_parent_node_key(&self) -> (r: NodeKey)
        ensures
            r == self.prop().parent,
    {
        match self {
            EditorNode::RootNode { prop } => prop.parent,
            EditorNode::TextNode { prop, .. } => prop.parent,
            EditorNode::ParagraphNode { prop, .. } => prop.parent,
        }
    }

    /// The character of a text node.
    pub fn get_char(&self) -> (r: char)
        requires
            self is TextNode,
        ensures
            r == self->TextNode_char,
    {
        match self {
            EditorNode::TextNode { prop: _, char, .. } => *char,
            EditorNode::RootNode { .. } => 'x',
            EditorNode::ParagraphNode { .. } => 'x',
        }
    }
}

} // verus!
