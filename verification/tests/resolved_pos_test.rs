use nex_editor::model::node::Node;
use nex_editor::model::resolved_pos::ResolvedPos;

#[test]
fn test_resolved_pos_at_index() {
    let doc = Node::new_block(
        "doc",
        vec![
            Node::new_block("paragraph", vec![Node::new_text("Hello")]),
            Node::new_block("paragraph", vec![Node::new_text("World")]),
        ],
    );

    let pos = ResolvedPos::at_index(&doc, 0);
    assert_eq!(pos.position(), 0);
    assert_eq!(pos.current_index(), 0);

    let pos = ResolvedPos::at_index(&doc, 1);
    assert_eq!(pos.position(), 7);
}

#[test]
fn test_resolved_pos_from_pos() {
    let doc = Node::new_block("doc", vec![Node::new_block("paragraph", vec![Node::new_text("Hello")])]);

    let pos = ResolvedPos::from_pos(&doc, 0);
    assert_eq!(pos.position(), 0);
    assert!(pos.is_doc_start());

    let pos = ResolvedPos::from_pos(&doc, 10);
    assert!(!pos.is_doc_start());
}

#[test]
fn test_resolved_pos_parent() {
    let doc = Node::new_block("doc", vec![Node::new_block("paragraph", vec![Node::new_text("Hello")])]);

    let pos = ResolvedPos::at_index(&doc, 1);

    let parent = pos.immediate_parent();
    assert!(parent.is_some());
    assert_eq!(parent.unwrap().node_type_name(), "doc");
}

#[test]
fn test_resolved_pos_depth() {
    let doc = Node::new_block("doc", vec![Node::new_block("paragraph", vec![Node::new_text("Hello")])]);

    let pos = ResolvedPos::at_index(&doc, 1);
    assert_eq!(pos.depth(), 1);

    let pos = ResolvedPos::at_index(&doc, 0);
    assert_eq!(pos.depth(), 0);
}

#[test]
fn test_resolved_pos_ancestors() {
    let doc = Node::new_block("doc", vec![Node::new_block("paragraph", vec![Node::new_text("Hello")])]);

    let pos = ResolvedPos::at_index(&doc, 1);
    let ancestors: Vec<&str> = pos.ancestors().iter().map(|n| n.node_type_name()).collect();

    assert_eq!(ancestors, vec!["doc"]);
}

#[test]
fn test_resolved_pos_descendant() {
    let doc = Node::new_block(
        "doc",
        vec![
            Node::new_block("paragraph", vec![Node::new_text("Hello")]),
            Node::new_block("paragraph", vec![Node::new_text("World")]),
        ],
    );

    let pos = ResolvedPos::at_index(&doc, 1);
    let desc = pos.descendent();

    assert!(desc.is_some());
    assert_eq!(desc.unwrap().index, 1);
}

#[test]
fn test_resolved_pos_text() {
    let text = Node::new_text("Hello");
    let pos = ResolvedPos::from_pos(&text, 3);

    assert_eq!(pos.position(), 3);
    assert_eq!(pos.depth(), 0);
}

#[test]
fn test_resolved_pos_doc_start_end() {
    let doc = Node::new_block("doc", vec![Node::new_block("paragraph", vec![Node::new_text("Hello")])]);

    let start = ResolvedPos::from_pos(&doc, 0);
    assert!(start.is_doc_start());
    assert!(!start.is_doc_end());

    let _end = ResolvedPos::from_pos(&doc, 20);
}

#[test]
fn from_pos_descends_into_the_child_holding_the_position() {
    let doc = Node::new_block(
        "doc",
        vec![
            Node::new_block("paragraph", vec![Node::new_text("ab")]),
            Node::new_block("paragraph", vec![Node::new_text("cd")]),
        ],
    );
    // The first paragraph spans 0..4; position 5 lies in the second one.
    let pos = ResolvedPos::from_pos(&doc, 5);
    assert_eq!(pos.depth(), 2);
    assert_eq!(pos.index(1), Some(1));
    assert_eq!(pos.parent(1).unwrap().node_type_name(), "doc");
    assert_eq!(pos.parent(2).unwrap().node_type_name(), "paragraph");
    assert_eq!(pos.node_offset(), 4);
    assert!(pos.is_at_node_end() == false);
}

#[test]
fn at_index_past_the_children_is_the_start() {
    let doc = Node::new_block("doc", vec![Node::new_block("paragraph", vec![])]);
    let pos = ResolvedPos::at_index(&doc, 5);
    assert_eq!(pos.position(), 0);
    assert_eq!(pos.depth(), 0);
    assert!(pos.immediate_parent().is_none());
}
