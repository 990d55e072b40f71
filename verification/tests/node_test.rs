use nex_editor::model::node::{Mark, Node, NodeContent};

#[test]
fn test_node_new_block() {
    let node = Node::new_block("paragraph", vec![Node::new_text("Hello"), Node::new_text("World")]);

    assert!(node.is_block());
    assert!(!node.is_text());
    assert!(!node.is_leaf());
    assert_eq!(node.node_type_name(), "paragraph");
    assert_eq!(node.child_count(), 2);
}

#[test]
fn test_node_new_text() {
    let node = Node::new_text("Hello World");

    assert!(!node.is_block());
    assert!(node.is_text());
    assert!(node.is_leaf());
    assert_eq!(node.text(), Some("Hello World"));
    assert_eq!(node.content_length(), 11);
}

#[test]
fn test_text_content_round_trip() {
    let doc = Node::new_block(
        "doc",
        vec![Node::new_block("paragraph", vec![Node::new_text("Hello"), Node::new_text(" World")])],
    );

    assert_eq!(doc.text_content(), "Hello World");

    let updated = doc.with_text_content("Hi Rust");
    assert_eq!(updated.text_content(), "Hi Rust");
    assert_eq!(updated.node_type_name(), "doc");
}

#[test]
fn test_plain_text_round_trip() {
    let doc = Node::from_paragraph_texts(vec!["Hello".to_string(), "World".to_string()]);

    assert_eq!(doc.plain_text(), "Hello\nWorld");
    assert_eq!(doc.plain_text_len(), 11);

    let updated = doc.with_plain_text("Hi\nRust");
    assert_eq!(updated.paragraph_texts(), vec!["Hi".to_string(), "Rust".to_string()]);
}

#[test]
fn test_plain_text_len_counts_characters() {
    let doc = Node::from_paragraph_texts(vec!["你a".to_string(), "界".to_string()]);

    assert_eq!(doc.plain_text(), "你a\n界");
    assert_eq!(doc.plain_text_len(), 4);
    assert_eq!(Node::char_to_byte_index(&doc.plain_text(), 1), "你".len());
}

#[test]
fn test_paragraph_helpers() {
    let doc = Node::from_paragraph_texts(vec!["Hello".to_string(), "World".to_string()]);

    assert_eq!(doc.paragraph_texts(), vec!["Hello".to_string(), "World".to_string()]);
    assert_eq!(doc.paragraph_at(0), Some((0, 0)));
    assert_eq!(doc.paragraph_at(5), Some((0, 5)));
    assert_eq!(doc.paragraph_at(6), Some((1, 0)));
    assert_eq!(doc.paragraph_at(7), Some((1, 1)));
}

#[test]
fn test_paragraph_at_uses_character_offsets() {
    let doc = Node::from_paragraph_texts(vec!["你a".to_string(), "界".to_string()]);

    assert_eq!(doc.paragraph_at(0), Some((0, 0)));
    assert_eq!(doc.paragraph_at(1), Some((0, 1)));
    assert_eq!(doc.paragraph_at(2), Some((0, 2)));
    assert_eq!(doc.paragraph_at(3), Some((1, 0)));
    assert_eq!(doc.paragraph_at(4), Some((1, 1)));
}

#[test]
fn test_with_mark_range() {
    let doc = Node::new_block(
        "doc",
        vec![Node::new_block("paragraph", vec![Node::new_text("Hello"), Node::new_text("World")])],
    );
    let marked =
        doc.with_mark_range(0, 10, &[Mark { mark_type: "bold".to_string(), attrs: None }], &[]);

    let children = marked.children().unwrap()[0].children().unwrap();
    for child in children {
        match &child.content {
            NodeContent::Text(tc) => assert_eq!(tc.marks[0].mark_type, "bold"),
            NodeContent::Nodes(_) => panic!("expected text child"),
        }
    }
}

#[test]
fn test_node_content_size() {
    let text1 = Node::new_text("Hello");
    let text2 = Node::new_text(" ");
    let text3 = Node::new_text("World");

    let paragraph = Node::new_block("paragraph", vec![text1, text2, text3]);

    // Content size should be sum of text lengths
    assert_eq!(paragraph.content_length(), 11);
}

#[test]
fn test_node_with_marks() {
    let marks = vec![Mark { mark_type: "bold".to_string(), attrs: None }];
    let node = Node::new_text_with_marks("bold text", marks.clone());

    if let NodeContent::Text(tc) = &node.content {
        assert_eq!(tc.marks, marks);
    }
}

#[test]
fn plain_text_round_trips_through_paragraphs() {
    let doc = Node::from_paragraph_texts(vec!["a".to_string()]);
    let text = "one\n\ntwo";
    let updated = doc.with_plain_text(text);
    assert_eq!(updated.plain_text(), text);
    assert_eq!(
        updated.paragraph_texts(),
        vec!["one".to_string(), String::new(), "two".to_string()]
    );
}

#[test]
fn from_paragraph_texts_of_nothing_is_one_empty_paragraph() {
    let doc = Node::from_paragraph_texts(vec![]);
    assert_eq!(doc.paragraph_texts(), vec![String::new()]);
    assert_eq!(doc.plain_text(), "");
}

#[test]
fn sizes_count_wrappers_and_characters() {
    let doc = Node::from_paragraph_texts(vec!["ab".to_string(), "c".to_string()]);
    let size = doc.content_size();
    // doc wrapper 2 + (2 + 2) + (2 + 1)
    assert_eq!(size.size, 9);
    assert_eq!(size.content_size, 3);
    assert!(doc.content_length() <= doc.size());
    assert_eq!(doc.child_start_pos(1), 4);
    assert_eq!(doc.child_start_pos(9), 7);
}

#[test]
fn mark_range_leaves_untouched_text_alone() {
    let doc = Node::from_paragraph_texts(vec!["Hello".to_string(), "World".to_string()]);
    let marked =
        doc.with_mark_range(0, 3, &[Mark { mark_type: "italic".to_string(), attrs: None }], &[]);
    let paragraphs = marked.children().unwrap();
    let first = &paragraphs[0].children().unwrap()[0];
    let second = &paragraphs[1].children().unwrap()[0];
    match (&first.content, &second.content) {
        (NodeContent::Text(a), NodeContent::Text(b)) => {
            assert_eq!(a.marks.len(), 1);
            assert_eq!(b.marks.len(), 0);
        }
        _ => panic!("expected text nodes"),
    }
}

#[test]
fn children_can_be_changed_in_place() {
    let mut doc = Node::new_block("doc", vec![]);
    doc.children_mut().unwrap().push(Node::new_block("paragraph", vec![Node::new_text("x")]));
    assert_eq!(doc.child_count(), 1);
    assert_eq!(doc.plain_text(), "x");
    let mut text = Node::new_text("y");
    assert!(text.children_mut().is_none());
    assert_eq!(text.text(), Some("y"));
}
