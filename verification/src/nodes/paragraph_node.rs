//! Paragraph nodes.

use vstd::prelude::*;
use crate::editor::editor_node::{EditorNode, EditorNodeProp, NodeType};
use crate::nodes::NodePadding;

verus! {

/// The style of a paragraph.
#[derive(Debug)]
pub struct ParagraphNodeStyle {
    pub text_alignment: ParagraphNodeAlignment,
    /// Indent of the first line, in px
    pub text_indent: usize,
    pub padding: NodePadding,
}

/// The alignment of a paragraph's text.
#[derive(Debug, Clone, Copy, PartialEq, Eq, Structural)]
pub enum ParagraphNodeAlignment {
    Left,
    Center,
    Right,
}

/// Links of a fresh node of kind `t`: no links at all.
pub open spec fn unlinked(t: NodeType) -> EditorNodeProp {
    EditorNodeProp { node_type: t, first: None, last: None, next: None, prev: None, parent: None }
}

/// `n` is a new, unlinked paragraph: left-aligned, no indent, no padding.
pub open spec fn new_paragraph_node(n: EditorNode) -> bool {
    n matches EditorNode::ParagraphNode { prop, style } && prop == unlinked(NodeType::ParagraphNode)
        && style.text_alignment == ParagraphNodeAlignment::Left && style.text_indent == 0
        && style.padding.sides() == (0u32, 0u32, 0u32, 0u32)
}

/// A new, unlinked paragraph: left-aligned, no indent, no padding.
pub fn create_paragraph_node() -> (r: EditorNode)
    ensures
        new_paragraph_node(r),
{
    EditorNode::ParagraphNode {
        prop: EditorNodeProp {
            node_type: NodeType::ParagraphNode,
            first: None,
            last: None,
            next: None,
            prev: None,
            parent: None,
        },
        style: ParagraphNodeStyle {
            text_alignment: ParagraphNodeAlignment::Left,
            text_indent: 0,
            padding: NodePadding::zero(),
        },
    }
}

} // verus!
