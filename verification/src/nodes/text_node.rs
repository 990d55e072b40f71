//! Text nodes: one character each.

use vstd::prelude::*;
use crate::color::Color;
use crate::editor::editor_node::{EditorNode, EditorNodeProp, NodeType};
use crate::nodes::paragraph_node::unlinked;
use crate::strings::to_string;

verus! {

/// The style of a text node.
#[derive(Debug)]
pub struct TextNodeStyle {
    font_family: String,
    font_size: usize,
    font_weight: usize,
    color: Color,
    background_color: Color,
}

impl TextNodeStyle {
    /// The font family.
    pub closed spec fn spec_font_family(&self) -> Seq<char> {
        self.font_family@
    }

    /// The font size and weight.
    pub closed spec fn spec_font(&self) -> (usize, usize) {
        (self.font_size, self.font_weight)
    }

    /// The text and background colors.
    pub closed spec fn spec_colors(&self) -> (Color, Color) {
        (self.color, self.background_color)
    }
}

/// `n` is a new, unlinked text node holding `c`: monospace, size 12,
/// weight 400, black on transparent.
pub open spec fn new_text_node(n: EditorNode, c: char) -> bool {
    n matches EditorNode::TextNode { prop, char: k, style } && prop == unlinked(NodeType::TextNode)
        && k == c && style.spec_font_family() == "monospace"@ && style.spec_font() == (
        12usize,
        400usize,
    ) && style.spec_colors() == (Color::black_v(), Color::transparent_v())
}

/// A new, unlinked text node holding `char`: monospace, size 12, weight
/// 400, black on transparent.
pub fn create_text_node(char: char) -> (r: EditorNode)
    ensures
        new_text_node(r, char),
{
    EditorNode::TextNode {
        prop: EditorNodeProp {
            node_type: NodeType::TextNode,
            first: None,
            last: None,
            next: None,
            prev: None,
            parent: None,
        },
        char,
        style: TextNodeStyle {
            font_family: to_string("monospace"),
            font_size: 12,
            font_weight: 400,
            color: Color::black(),
            background_color: Color::transparent(),
        },
    }
}

} // verus!
