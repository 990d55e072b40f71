//! The root node.

use vstd::prelude::*;
use crate::editor::editor_node::{EditorNode, EditorNodeProp, NodeType};
use crate::nodes::paragraph_node::unlinked;

verus! {

/// The key of the root node.
pub const ROOT_NODE_KEY: u32 = 0;

/// A new, unlinked root node.
pub fn create_root_node() -> (r: EditorNode)
    ensures
        r == (EditorNode::RootNode { prop: unlinked(NodeType::RootNode) }),
{
    EditorNode::RootNode {
        prop: EditorNodeProp {
            node_type: NodeType::RootNode,
            first: None,
            last: None,
            next: None,
            prev: None,
            parent: None,
        },
    }
}

} // verus!
