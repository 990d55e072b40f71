use nex_editor::model::node::{Mark, Node};
use nex_editor::model::schema::Schema;
use nex_editor::state::selection::{NodeSelection, Selection, TextSelection};
use nex_editor::state::state::{EditorState, StoredMarks};

#[test]
fn test_editor_state_new() {
    let doc = Node::new_block("doc", vec![Node::new_block("paragraph", vec![Node::new_text("Hello")])]);
    let selection = Selection::text(TextSelection::at(&doc, 0));
    let schema = Schema::default();

    let state = EditorState::new(doc, selection, schema);

    assert_eq!(state.doc().node_type_name(), "doc");
    assert!(state.is_at_start());
}

#[test]
fn test_editor_state_from_doc() {
    let doc =
        Node::new_block("doc", vec![Node::new_block("paragraph", vec![Node::new_text("Hello World")])]);

    let state = EditorState::from_doc(doc);

    assert!(state.is_at_start());
    assert!(!state.is_at_end());
    assert_eq!(state.doc().text_content(), "Hello World");
}

#[test]
fn test_editor_state_with_selection() {
    let doc = Node::new_block("doc", vec![Node::new_block("paragraph", vec![Node::new_text("Hello")])]);

    let state = EditorState::from_doc(doc.clone());
    let new_state = state.with_selection(Selection::text(TextSelection::at(&doc, 5)));

    assert_ne!(state.selection().head(), new_state.selection().head());
    assert_eq!(new_state.selection().head(), 5);
}

#[test]
fn test_stored_marks() {
    let _doc = Node::new_block("doc", vec![]);
    let mut marks = StoredMarks::empty();
    marks.add(Mark { mark_type: "bold".to_string(), attrs: None });

    assert!(!marks.is_empty());
    assert_eq!(marks.marks().len(), 1);

    marks.remove("bold");
    assert!(marks.is_empty());
}

#[test]
fn test_editor_state_with_marks() {
    let doc = Node::new_block("doc", vec![]);
    let marks = StoredMarks::new(vec![Mark { mark_type: "italic".to_string(), attrs: None }]);
    let selection = Selection::text(TextSelection::at(&doc, 0));
    let schema = Schema::default();

    let state = EditorState::with_marks(doc, selection, marks, schema);

    assert_eq!(state.stored_marks().len(), 1);
    assert_eq!(state.stored_marks()[0].mark_type, "italic");
}

#[test]
fn test_selection_types() {
    let doc = Node::new_block("doc", vec![Node::new_block("paragraph", vec![Node::new_text("Hello")])]);

    let state = EditorState::from_doc(doc);

    // Initially should be text selection
    assert!(state.text_selection().is_some());
    assert!(state.node_selection().is_none());
}

#[test]
fn selected_text_follows_the_selection() {
    let doc = Node::from_paragraph_texts(vec!["Hello World".to_string()]);
    let state = EditorState::from_doc(doc.clone());
    assert_eq!(state.as_text(), "");
    let state = state.with_selection(Selection::text(TextSelection::create(&doc, 6, 11)));
    assert_eq!(state.as_text(), "World");
    let state = state.with_selection(Selection::text(TextSelection::create(&doc, 8, 40)));
    assert_eq!(state.as_text(), "rld");
    assert!(state.range().is_some());
}

#[test]
fn remove_keeps_other_marks_in_order() {
    let mut marks = StoredMarks::new(vec![
        Mark { mark_type: "bold".to_string(), attrs: None },
        Mark { mark_type: "italic".to_string(), attrs: None },
        Mark { mark_type: "bold".to_string(), attrs: None },
        Mark { mark_type: "code".to_string(), attrs: None },
    ]);
    marks.remove("bold");
    let names: Vec<&str> = marks.marks().iter().map(|m| m.mark_type.as_str()).collect();
    assert_eq!(names, vec!["italic", "code"]);
    marks.clear();
    assert!(marks.is_empty());
}

#[test]
fn state_display_and_node_selection() {
    let doc = Node::from_paragraph_texts(vec!["ab".to_string()]);
    let state = EditorState::from_doc(doc);
    assert_eq!(state.to_string(), "EditorState(doc=doc, sel=TextSelection(0))");
    let state = state.with_selection(Selection::node(NodeSelection::new(2, 1)));
    assert!(state.node_selection().is_some());
    assert!(state.range().is_none());
    assert_eq!(state.to_string(), "EditorState(doc=doc, sel=NodeSelection(pos=2, depth=1))");
}

#[test]
fn is_at_end_compares_with_content_length() {
    let doc = Node::from_paragraph_texts(vec!["abc".to_string()]);
    let state = EditorState::from_doc(doc.clone());
    let state = state.with_selection(Selection::text(TextSelection::at(&doc, 3)));
    assert!(state.is_at_end());
    assert!(!state.is_at_start());
}
