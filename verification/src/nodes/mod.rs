//! Node styles of the node-key editor model, and node constructors.

use vstd::prelude::*;
use crate::nodes::paragraph_node::ParagraphNodeStyle;
use crate::nodes::text_node::TextNodeStyle;

pub mod paragraph_node;
pub mod root_node;
pub mod text_node;

verus! {

/// The style of a node.
#[derive(Debug)]
pub enum NodeStyle {
    Paragraph(ParagraphNodeStyle),
    Text(TextNodeStyle),
}

/// Padding of a node on the four sides.
#[derive(Debug, Clone, Copy, PartialEq, Eq, Structural)]
pub struct NodePadding {
    left: u32,
    right: u32,
    top: u32,
    bottom: u32,
}

impl NodePadding {
    /// The padding on each side: left, right, top, bottom.
    pub closed spec fn sides(self) -> (u32, u32, u32, u32) {
        (self.left, self.right, self.top, self.bottom)
    }

    /// No padding.
    pub fn zero() -> (r: Self)
        ensures
            r.sides() == (0u32, 0u32, 0u32, 0u32),
    {
        NodePadding { left: 0, right: 0, top: 0, bottom: 0 }
    }
}

} // verus!
