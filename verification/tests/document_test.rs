use nex_editor::document::schema::Schema as DocSchema;
use nex_editor::document::editor::Editor;
use nex_editor::document::{
    Anchor, AtomKind, BlockAttribute, BlockSchema, ContentType, CursorMoveResult, Document,
    InlineAttribute, InlineSchema, MixedContent, NodeContent, NodeId, NodeType, Operation,
    OperationStack, Schema, Selection, ValidationResult,
};

#[test]
fn test_node_types() {
    assert!(NodeType::Paragraph.is_block());
    assert!(!NodeType::Paragraph.is_inline());
    assert!(NodeType::Text.is_inline());
    assert!(!NodeType::Text.is_block());
    assert!(NodeType::Text.is_leaf());
    assert!(!NodeType::Paragraph.is_leaf());
}

#[test]
fn test_anchor_creation() {
    let anchor = Anchor::new(NodeId(1), 5);
    assert_eq!(anchor.node_id, NodeId(1));
    assert_eq!(anchor.offset, 5);
}

#[test]
fn test_anchor_at_start() {
    let anchor = Anchor::at_start(NodeId(1));
    assert_eq!(anchor.node_id, NodeId(1));
    assert_eq!(anchor.offset, 0);
}

#[test]
fn test_selection_caret() {
    let anchor = Anchor::new(NodeId(1), 5);
    let selection = Selection::caret(anchor);
    assert!(selection.is_caret());
}

#[test]
fn test_selection_range() {
    let anchor1 = Anchor::new(NodeId(1), 0);
    let anchor2 = Anchor::new(NodeId(1), 5);
    let selection = Selection::range(anchor1, anchor2);
    assert!(!selection.is_caret());
}

#[test]
fn test_schema() {
    let schema = Schema::new();
    assert!(schema.is_valid(&NodeType::Paragraph));
    assert!(schema.is_valid(&NodeType::Heading { level: 1 }));
    assert!(schema.is_valid(&NodeType::List { ordered: false }));
}

#[test]
fn document_test_test_schema_default() {
    let schema = Schema::new();
    // Schema::new() should include Heading level 1
    assert!(schema.is_valid(&NodeType::Heading { level: 1 }));
}

#[test]
fn test_operation_stack() {
    let stack = OperationStack::new(100);
    assert!(!stack.can_undo());
    assert!(!stack.can_redo());
}

#[test]
fn test_operation_stack_push_pop() {
    let mut stack = OperationStack::new(10);
    let op = Operation::InsertText { node: 1, offset: 0, text: "hello".to_string() };

    stack.push(op.clone());
    assert!(stack.can_undo());
    assert!(!stack.can_redo());

    let popped = stack.pop().unwrap();
    assert_eq!(popped, op);
}

#[test]
fn test_operation_stack_max_size() {
    let mut stack = OperationStack::new(3);

    for i in 0..5 {
        let op = Operation::InsertText { node: i, offset: 0, text: format!("{}", i) };
        stack.push(op);
    }

    assert!(!stack.can_redo());
}

#[test]
fn operation_stack_keeps_only_the_newest() {
    let mut stack = OperationStack::new(2);
    for i in 0..4u64 {
        stack.push(Operation::Delete { node: i });
    }
    assert_eq!(stack.pop(), Some(Operation::Delete { node: 3 }));
    assert_eq!(stack.pop(), Some(Operation::Delete { node: 2 }));
    assert_eq!(stack.pop(), None);
    assert!(!stack.can_undo());
}

#[test]
fn schema_rejects_other_variants() {
    let schema = Schema::new();
    assert!(!schema.is_valid(&NodeType::Heading { level: 2 }));
    assert!(!schema.is_valid(&NodeType::CodeBlock { lang: Some("rust".to_string()) }));
    assert!(schema.is_valid(&NodeType::CodeBlock { lang: None }));
    assert!(!Schema::default().is_valid(&NodeType::Paragraph));
}

#[test]
fn anchors_results_and_validation() {
    let a = Anchor::at_end(NodeId::new(4), 9);
    assert_eq!(a.offset(), 9);
    assert_eq!(a.node_id().inner(), 4);
    let ok = CursorMoveResult::success(a);
    assert!(ok.success);
    assert_eq!(ok.cursor, Some(a));
    let failed = CursorMoveResult::failed("already at document start");
    assert!(!failed.success);
    assert_eq!(failed.message, Some("already at document start"));
    let t = NodeType::Divider;
    let v = ValidationResult::error(&t, "bad");
    assert!(!v.is_valid());
    assert_eq!(v.message(), Some("bad"));
    assert!(ValidationResult::ok().is_valid());
    assert_eq!(ValidationResult::ok().message(), None);
    let node = nex_editor::document::Node::new(NodeId(2), NodeType::Image { src: "a.png".to_string(), alt: None }, NodeContent::Empty);
    assert!(node.is_leaf());
    assert_eq!(node.parent, None);
}

#[test]
fn test_new_document() {
    let doc = Document::new();
    assert!(doc.is_empty());
    assert_eq!(doc.len(), 1); // Only root
}

#[test]
fn test_create_paragraph() {
    let mut doc = Document::new();
    let _root_id = doc.root().id;
    let id = doc.create_node(NodeType::Paragraph, NodeContent::Empty);

    assert!(doc.contains(id));
    assert_eq!(doc.len(), 2);

    let node = doc.get(id).unwrap();
    assert_eq!(node.node_type, NodeType::Paragraph);
}

#[test]
fn test_append_node() {
    let mut doc = Document::new();
    let root_id = doc.root().id;
    let p1 = doc.append_node(root_id, NodeType::Paragraph, NodeContent::Empty);
    let p2 = doc.append_node(root_id, NodeType::Paragraph, NodeContent::Empty);

    assert_eq!(doc.len(), 3);
    assert_ne!(p1, p2);
}

#[test]
fn test_delete_node() {
    let mut doc = Document::new();
    let root_id = doc.root().id;
    let p1 = doc.append_node(root_id, NodeType::Paragraph, NodeContent::Empty);
    let p2 = doc.append_node(root_id, NodeType::Paragraph, NodeContent::Empty);

    assert_eq!(doc.len(), 3);

    let removed = doc.delete_node(p1);
    assert!(removed);
    assert_eq!(doc.len(), 2);
    assert!(!doc.contains(p1));
    assert!(doc.contains(p2));
}

#[test]
fn test_children() {
    let mut doc = Document::new();
    let root_id = doc.root().id;
    let p1 = doc.append_node(root_id, NodeType::Paragraph, NodeContent::Empty);
    let h1 = doc.append_node(root_id, NodeType::Heading { level: 1 }, NodeContent::Empty);

    let children = doc.children(root_id).unwrap();
    assert_eq!(children.len(), 2);
    assert!(children.contains(&p1));
    assert!(children.contains(&h1));
}

#[test]
fn test_sibling_traversal() {
    let mut doc = Document::new();
    let root_id = doc.root().id;
    let p1 = doc.append_node(root_id, NodeType::Paragraph, NodeContent::Empty);
    let p2 = doc.append_node(root_id, NodeType::Paragraph, NodeContent::Empty);
    let p3 = doc.append_node(root_id, NodeType::Paragraph, NodeContent::Empty);

    assert!(doc.next_sibling(p1).is_some());
    assert!(doc.next_sibling(p2).is_some());
    assert!(doc.next_sibling(p3).is_none());
}

#[test]
fn test_depth() {
    let mut doc = Document::new();
    let root_id = doc.root().id;
    let list = doc.append_node(root_id, NodeType::List { ordered: false }, NodeContent::Empty);
    let item = doc.append_node(list, NodeType::ListItem, NodeContent::Empty);
    let p = doc.append_node(item, NodeType::Paragraph, NodeContent::Empty);

    assert_eq!(doc.depth(root_id), 0);
    assert_eq!(doc.depth(list), 1);
    assert_eq!(doc.depth(item), 2);
    assert_eq!(doc.depth(p), 3);
}

#[test]
fn test_parent() {
    let mut doc = Document::new();
    let root_id = doc.root().id;
    let p1 = doc.append_node(root_id, NodeType::Paragraph, NodeContent::Empty);

    let parent = doc.parent(p1).unwrap();
    assert_eq!(parent.id, root_id);
}

#[test]
fn deleting_a_node_deletes_what_lies_below() {
    let mut doc = Document::new();
    let root_id = doc.root().id;
    let list = doc.append_node(root_id, NodeType::List { ordered: true }, NodeContent::Empty);
    let item = doc.append_node(list, NodeType::ListItem, NodeContent::Empty);
    let para = doc.append_node(item, NodeType::Paragraph, NodeContent::Empty);
    let other = doc.append_node(root_id, NodeType::Divider, NodeContent::Empty);
    assert_eq!(doc.len(), 5);
    assert!(doc.delete_node(list));
    assert!(!doc.contains(list));
    assert!(!doc.contains(item));
    assert!(!doc.contains(para));
    assert!(doc.contains(other));
    assert_eq!(doc.children(root_id).unwrap(), &vec![other]);
    assert!(!doc.delete_node(root_id));
    assert!(!doc.delete_node(NodeId(99)));
    assert_eq!(doc.len(), 2);
}

#[test]
fn append_and_remove_child_links() {
    let mut doc = Document::new();
    let root_id = doc.root().id;
    let a = doc.create_node(NodeType::Paragraph, NodeContent::Empty);
    assert!(doc.parent(a).is_none());
    assert!(doc.append_child(root_id, a));
    assert_eq!(doc.parent(a).unwrap().id, root_id);
    assert!(!doc.append_child(NodeId(77), a));
    assert!(doc.remove_child(root_id, a));
    assert!(doc.parent(a).is_none());
    assert!(!doc.remove_child(root_id, a));
    assert!(doc.get_mut(a).is_some());
    doc.get_mut(a).unwrap().meta.collapsed = true;
    assert!(doc.get(a).unwrap().meta.collapsed);
    assert!(doc.get_mut(NodeId(50)).is_none());
    let _editor = Editor::new();
}

#[test]
fn removing_a_just_appended_child_restores_the_children() {
    let mut doc = Document::new();
    let root_id = doc.root().id;
    let a = doc.append_node(root_id, NodeType::Paragraph, NodeContent::Empty);
    let b = doc.append_node(root_id, NodeType::Paragraph, NodeContent::Empty);
    let before: Vec<NodeId> = doc.children(root_id).unwrap().clone();
    assert_eq!(before, vec![a, b]);
    let c = doc.create_node(NodeType::Paragraph, NodeContent::Empty);
    assert!(doc.append_child(root_id, c));
    assert_eq!(doc.children(root_id).unwrap().clone(), vec![a, b, c]);
    assert!(doc.remove_child(root_id, c));
    assert_eq!(doc.children(root_id).unwrap().clone(), before);
}

#[test]
fn mixed_content_and_schema_parts() {
    let text = MixedContent::text();
    assert!(text.children.is_empty());
    assert_eq!(text.content, ContentType::Inline);
    let block = MixedContent::block(vec![NodeType::Paragraph, NodeType::Divider]);
    assert!(block.children.is_empty());
    assert_eq!(block.content, ContentType::Block(vec![NodeType::Paragraph, NodeType::Divider]));
    let schema = BlockSchema { content: ContentType::Empty, attrs: vec![BlockAttribute::Id] };
    assert_eq!(schema.clone(), schema);
    let inline = InlineSchema { attrs: vec![InlineAttribute::Href, InlineAttribute::Target] };
    assert_eq!(inline.attrs.len(), 2);
    assert_ne!(AtomKind::Code, AtomKind::Custom("math"));
}

#[test]
fn document_schema_tables_and_validation() {
    let schema = DocSchema::new();
    assert!(schema.is_valid_node_type(&NodeType::Document));
    assert!(schema.is_valid_node_type(&NodeType::Paragraph));
    assert!(schema.is_valid_node_type(&NodeType::Text));
    assert!(!schema.is_valid_node_type(&NodeType::Table));
    assert!(!schema.is_valid_node_type(&NodeType::Heading { level: 2 }));

    let ok = schema.validate_block(&NodeType::Paragraph, &NodeContent::Text { text: "hi".to_string() });
    assert!(ok.is_valid());
    assert_eq!(ok.message(), None);
    let inline = schema.validate_block(&NodeType::Paragraph, &NodeContent::Empty);
    assert!(!inline.is_valid());
    assert_eq!(inline.message(), Some("Inline content required"));
    let block = schema.validate_block(&NodeType::Blockquote, &NodeContent::Empty);
    assert_eq!(block.message(), Some("Block content required"));
    let mixed = schema.validate_block(&NodeType::Document, &NodeContent::Mixed { children: vec![] });
    assert!(mixed.is_valid());
    let empty = schema.validate_block(&NodeType::Divider, &NodeContent::Text { text: "x".to_string() });
    assert_eq!(empty.message(), Some("Content not allowed here"));
    let unknown = schema.validate_block(&NodeType::Table, &NodeContent::Empty);
    assert_eq!(unknown.message(), Some("Unknown block type"));

    let strong = schema.get_mark("strong").unwrap();
    assert!(strong.toggleable);
    assert_eq!(strong.excludes, vec!["strong", "em"]);
    assert!(!schema.get_mark("link").unwrap().toggleable);
    assert!(schema.has_mark("code"));
    assert!(!schema.has_mark("bold"));
    let link = schema.get_inline_schema(&NodeType::Link { url: Some(String::new()), title: None }).unwrap();
    assert_eq!(link.attrs, vec![InlineAttribute::Href, InlineAttribute::Title, InlineAttribute::Target]);
    let doc = schema.get_block_schema(&NodeType::Document).unwrap();
    match &doc.content {
        ContentType::Block(ts) => assert_eq!(ts.len(), 12),
        _ => panic!("expected block content"),
    }
    let code = schema.get_block_schema(&NodeType::CodeBlock { lang: None }).unwrap();
    assert_eq!(code.attrs, vec![BlockAttribute::Custom { name: "language".to_string(), required: false }]);
}

#[test]
fn deleting_a_node_unlinks_it_and_its_children() {
    let mut doc = Document::new();
    let root_id = doc.root().id;
    let a = doc.append_node(root_id, NodeType::Paragraph, NodeContent::Empty);
    let b = doc.append_node(root_id, NodeType::Paragraph, NodeContent::Empty);
    let c = doc.append_node(a, NodeType::Text, NodeContent::Empty);
    assert!(doc.delete_node(a));
    assert_eq!(doc.children(root_id).unwrap().clone(), vec![b]);
    assert!(!doc.contains(c));
    assert_eq!(doc.len(), 2);
}
