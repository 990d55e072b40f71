use nex_editor::model::node::Node;
use nex_editor::state::selection::{NodeSelection, Selection, SelectionRange, TextSelection};

#[test]
fn test_selection_range_collapsed() {
    let range = SelectionRange::collapse(5);
    assert!(range.is_collapsed());
    assert_eq!(range.anchor, 5);
    assert_eq!(range.head, 5);
}

#[test]
fn test_selection_range_not_collapsed() {
    let range = SelectionRange::new(5, 10);
    assert!(!range.is_collapsed());
    assert_eq!(range.from(), 5);
    assert_eq!(range.to(), 10);
}

#[test]
fn test_selection_range_backwards() {
    let range = SelectionRange::new(10, 5);
    assert!(range.is_backwards());
}

#[test]
fn test_text_selection() {
    let doc = Node::new_block("paragraph", vec![Node::new_text("Hello World")]);
    let sel = TextSelection::create(&doc, 0, 5);

    assert_eq!(sel.anchor(), 0);
    assert_eq!(sel.head(), 5);
    assert!(!sel.is_collapsed());
}

#[test]
fn test_text_selection_resolve() {
    let doc = Node::new_block("paragraph", vec![Node::new_text("Hello")]);
    let sel = TextSelection::create(&doc, 0, 5).resolve(&doc);

    assert!(sel.resolved_anchor().is_some());
    assert!(sel.resolved_head().is_some());
}

#[test]
fn test_node_selection() {
    let sel = NodeSelection::new(10, 2);
    assert_eq!(sel.pos(), 10);
    assert_eq!(sel.depth(), 2);
}

#[test]
fn test_selection_text() {
    let doc = Node::new_block("paragraph", vec![Node::new_text("Hello")]);
    let sel = Selection::text(TextSelection::at(&doc, 5));

    assert!(sel.is_text());
    assert!(!sel.is_node());
    assert_eq!(sel.head(), 5);
}

#[test]
fn test_selection_node() {
    let sel = Selection::node(NodeSelection::new(10, 1));

    assert!(!sel.is_text());
    assert!(sel.is_node());
}

#[test]
fn test_selection_mapping() {
    let sel = Selection::text(TextSelection::create(&Node::new_text("doc"), 0, 5));
    let mapped = sel.map(5, 10);

    assert_eq!(mapped.from(), 5);
    assert_eq!(mapped.to(), 10);
}

#[test]
fn display_forms() {
    assert_eq!(SelectionRange::collapse(3).to_string(), "Cursor(3)");
    assert_eq!(SelectionRange::new(1, 12).to_string(), "Range(1 → 12)");
    let doc = Node::new_text("Hello");
    assert_eq!(TextSelection::at(&doc, 2).to_string(), "TextSelection(2)");
    assert_eq!(TextSelection::create(&doc, 4, 1).to_string(), "TextSelection(1 → 4)");
    assert_eq!(NodeSelection::new(7, 2).to_string(), "NodeSelection(pos=7, depth=2)");
    assert_eq!(TextSelection::default().to_string(), "TextSelection(0)");
}

#[test]
fn node_selection_ends_one_past_its_position() {
    let sel = Selection::node(NodeSelection::new(4, 1));
    assert_eq!(sel.from(), 4);
    assert_eq!(sel.to(), 5);
    assert!(!sel.is_collapsed());
    let moved = sel.map(0, 9);
    assert_eq!(moved.anchor(), 9);
}

#[test]
fn from_parts_follows_the_type_field() {
    let text = Selection::from_parts(Some("text"), Some(vec![SelectionRange::new(1, 2)]), None, None)
        .unwrap();
    assert_eq!(text.anchor(), 1);
    assert_eq!(text.head(), 2);
    let node = Selection::from_parts(Some("node"), None, Some(3), None).unwrap();
    assert_eq!(node.anchor(), 3);
    assert!(Selection::from_parts(Some("cell"), None, None, None).is_none());
    assert!(Selection::from_parts(None, None, None, None).is_none());
}

#[test]
fn node_selection_from_node_uses_child_start() {
    let doc = Node::from_paragraph_texts(vec!["ab".to_string(), "c".to_string()]);
    let sel = NodeSelection::from_node(&doc, &doc, 1);
    assert_eq!(sel.pos(), 4);
    assert_eq!(sel.depth(), 1);
}
