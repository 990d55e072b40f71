use nex_editor::color::Color;
use nex_editor::editor::editor_node::{EditorNode, NodeType};
use nex_editor::editor::editor_state::{create_empty_editor_state, EditorState};
use nex_editor::layout::page::a4;
use nex_editor::nodes::paragraph_node::{create_paragraph_node, ParagraphNodeAlignment};
use nex_editor::nodes::root_node::{create_root_node, ROOT_NODE_KEY};
use nex_editor::nodes::text_node::create_text_node;
use nex_editor::nodes::NodePadding;

#[test]
fn named_colors_have_their_channels() {
    assert_eq!(Color::black(), Color::new(0, 0, 0, 255));
    assert_eq!(Color::white(), Color::new(255, 255, 255, 255));
    assert_eq!(Color::red(), Color::new(255, 0, 0, 255));
    assert_eq!(Color::green(), Color::new(0, 255, 0, 255));
    assert_eq!(Color::blue(), Color::new(0, 0, 255, 255));
    assert_eq!(Color::transparent(), Color::new(0, 0, 0, 0));
    assert_ne!(Color::black(), Color::transparent());
}

#[test]
fn a4_page_has_its_size_and_padding() {
    let page = format!("{:?}", a4());
    assert!(page.contains("height: 1122"));
    assert!(page.contains("width: 793"));
    assert!(page.contains("\"A4\""));
    assert!(page.contains("top: 56, bottom: 56, left: 56, right: 56"));
}

#[test]
fn new_nodes_are_unlinked() {
    let root = create_root_node();
    assert!(root.is_type(NodeType::RootNode));
    assert_eq!(root.get_first_node_key(), None);
    assert_eq!(root.get_parent_node_key(), None);

    let para = create_paragraph_node();
    assert!(para.is_type(NodeType::ParagraphNode));
    match &para {
        EditorNode::ParagraphNode { prop, style } => {
            assert_eq!(prop.next, None);
            assert_eq!(style.text_alignment, ParagraphNodeAlignment::Left);
            assert_eq!(style.text_indent, 0);
            assert_eq!(style.padding, NodePadding::zero());
        }
        _ => panic!("expected a paragraph"),
    }

    let text = create_text_node('x');
    assert!(text.is_type(NodeType::TextNode));
    assert!(!text.is_type(NodeType::RootNode));
    assert_eq!(text.get_char(), 'x');
    assert_eq!(text.get_last_node_key(), None);
}

#[test]
fn node_links_are_set_and_read_back() {
    let mut node = create_text_node('a');
    node.set_first_node_key(Some(1));
    node.set_last_node_key(Some(2));
    node.set_prev_node_key(Some(3));
    node.set_next_node_key(Some(4));
    node.set_parent_node_key(Some(5));
    assert_eq!(node.get_first_node_key(), Some(1));
    assert_eq!(node.get_last_node_key(), Some(2));
    assert_eq!(node.get_prev_node_key(), Some(3));
    assert_eq!(node.get_next_node_key(), Some(4));
    assert_eq!(node.get_parent_node_key(), Some(5));
    assert_eq!(node.get_char(), 'a');
}

#[test]
fn empty_state_holds_the_root() {
    let mut state = create_empty_editor_state();
    assert_eq!(state.node_map.len(), 1);
    assert!(state.get_node(ROOT_NODE_KEY).is_some());
    assert!(state.get_node(7).is_none());
    let fresh = EditorState::new();
    assert!(fresh.node_map.is_empty());
}

#[test]
fn appending_links_siblings_and_parent() {
    let mut state = create_empty_editor_state();
    state.append_node(Some(ROOT_NODE_KEY), Some(1), create_paragraph_node());
    state.append_node(Some(1), Some(2), create_text_node('h'));
    state.append_node(Some(1), Some(3), create_text_node('i'));

    let root = state.get_node(ROOT_NODE_KEY).unwrap();
    assert_eq!(root.get_first_node_key(), Some(1));
    assert_eq!(root.get_last_node_key(), Some(1));

    let para = state.get_node(1).unwrap();
    assert_eq!(para.get_parent_node_key(), Some(ROOT_NODE_KEY));
    assert_eq!(para.get_first_node_key(), Some(2));
    assert_eq!(para.get_last_node_key(), Some(3));

    let first = state.get_node(2).unwrap();
    assert_eq!(first.get_parent_node_key(), Some(1));
    assert_eq!(first.get_prev_node_key(), None);
    assert_eq!(first.get_next_node_key(), Some(3));
    assert_eq!(first.get_char(), 'h');

    let second = state.get_node(3).unwrap();
    assert_eq!(second.get_prev_node_key(), Some(2));
    assert_eq!(second.get_next_node_key(), None);
    assert_eq!(second.get_char(), 'i');
}

#[test]
fn get_node_changes_the_node_in_place() {
    let mut state = create_empty_editor_state();
    state.append_node(Some(ROOT_NODE_KEY), Some(4), create_text_node('z'));
    if let Some(node) = state.get_node(4) {
        node.set_next_node_key(Some(9));
    }
    assert_eq!(state.get_node(4).unwrap().get_next_node_key(), Some(9));
}

#[test]
fn appending_paragraphs_and_characters_by_key() {
    let mut state = create_empty_editor_state();
    assert_eq!(state.append_paragraph_node(1), Some(1));
    assert_eq!(state.append_text_node(1, 'h', 2), Some(2));
    assert_eq!(state.append_text_node(1, 'i', 3), Some(3));
    assert_eq!(state.append_text_node(42, 'x', 4), None);
    assert_eq!(state.node_map.len(), 4);
    let para = state.get_node(1).unwrap();
    assert!(para.is_type(NodeType::ParagraphNode));
    assert_eq!(para.get_parent_node_key(), Some(ROOT_NODE_KEY));
    assert_eq!(para.get_first_node_key(), Some(2));
    assert_eq!(para.get_last_node_key(), Some(3));
    let last = state.get_node(3).unwrap();
    assert_eq!(last.get_char(), 'i');
    assert_eq!(last.get_prev_node_key(), Some(2));
}
