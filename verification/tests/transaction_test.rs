use nex_editor::model::node::{Mark, Node, NodeContent};
use nex_editor::state::selection::Selection;
use nex_editor::state::state::EditorState;
use nex_editor::state::transaction::{Transaction, TransactionBuilder, TransactionMeta};
use nex_editor::transform::replace::{ReplaceStep, Slice, SplitBlockStep};
use nex_editor::transform::step::{Invertible, Step};

#[test]
fn test_transaction_new() {
    let doc = Node::new_block("doc", vec![]);
    let state = EditorState::from_doc(doc);

    let tr = Transaction::new(state.clone());

    assert_eq!(tr.step_count(), 0);
    assert!(tr.steps().is_empty());
}

#[test]
fn test_transaction_insert_text() {
    let doc = Node::new_block("doc", vec![Node::new_block("paragraph", vec![Node::new_text("Hello")])]);
    let state = EditorState::from_doc(doc);

    let mut tr = Transaction::new(state.clone());
    tr.insert_text(5, " World").set_cursor(11);

    assert_eq!(tr.step_count(), 1);
}

#[test]
fn test_transaction_delete() {
    let doc =
        Node::new_block("doc", vec![Node::new_block("paragraph", vec![Node::new_text("Hello World")])]);
    let state = EditorState::from_doc(doc);

    let mut tr = Transaction::new(state.clone());
    tr.delete(5, 11);

    assert_eq!(tr.step_count(), 1);
}

#[test]
fn test_transaction_replace() {
    let doc =
        Node::new_block("doc", vec![Node::new_block("paragraph", vec![Node::new_text("Hello World")])]);
    let state = EditorState::from_doc(doc);
    let slice = Slice::from_text("Rust");

    let mut tr = Transaction::new(state.clone());
    tr.replace(0, 5, slice);
    tr.with_description("Replace Hello with Rust");

    assert_eq!(tr.step_count(), 1);
    assert!(tr.meta.is_some());
    assert_eq!(tr.meta.as_ref().unwrap().description, Some("Replace Hello with Rust".to_string()));
}

#[test]
fn test_transaction_set_selection() {
    let doc = Node::new_block("doc", vec![Node::new_block("paragraph", vec![Node::new_text("Hello")])]);
    let state = EditorState::from_doc(doc);

    let mut tr = Transaction::new(state.clone());
    tr.set_selection_range(0, 5);

    assert!(tr.selection.is_some());
}

#[test]
fn test_transaction_set_cursor() {
    let doc = Node::new_block("doc", vec![Node::new_block("paragraph", vec![Node::new_text("Hello")])]);
    let state = EditorState::from_doc(doc);

    let mut tr = Transaction::new(state.clone());
    tr.set_cursor(5);

    assert!(tr.selection.is_some());
    if let Selection::Text(t) = tr.selection.as_ref().unwrap() {
        assert!(t.is_collapsed());
        assert_eq!(t.head(), 5);
    }
}

#[test]
fn test_transaction_add_mark() {
    let doc = Node::new_block("doc", vec![Node::new_block("paragraph", vec![Node::new_text("Hello")])]);
    let state = EditorState::from_doc(doc);

    let mut tr = Transaction::new(state.clone());
    tr.add_mark(0, 5, Mark { mark_type: "bold".to_string(), attrs: None });

    assert_eq!(tr.step_count(), 1);
    let new_state = tr.commit().expect("mark transaction should commit");
    let paragraph = &new_state.doc().children().unwrap()[0];
    let text = &paragraph.children().unwrap()[0];
    match &text.content {
        NodeContent::Text(tc) => assert_eq!(tc.marks[0].mark_type, "bold"),
        NodeContent::Nodes(_) => panic!("expected text node"),
    }
}

#[test]
fn test_transaction_commit() {
    let doc = Node::new_block("doc", vec![Node::new_block("paragraph", vec![Node::new_text("Hello")])]);
    let state = EditorState::from_doc(doc);

    let mut tr = Transaction::new(state.clone());
    tr.insert_text(5, " World");
    tr.set_cursor(11);

    let new_state = tr.commit().expect("Transaction should commit");

    assert!(new_state.doc().content_size().content_size > 0);
}

#[test]
fn test_transaction_builder() {
    let doc = Node::new_block("doc", vec![Node::new_block("paragraph", vec![Node::new_text("Hello")])]);
    let state = EditorState::from_doc(doc);

    let tr = TransactionBuilder::insert(&state, 5, " World");

    assert_eq!(tr.step_count(), 1);
    assert!(tr.meta.is_some());
    assert!(tr.meta.as_ref().unwrap().user_action);
}

#[test]
fn commit_replays_every_step_in_order() {
    let doc = Node::from_paragraph_texts(vec!["Hello".to_string()]);
    let state = EditorState::from_doc(doc);
    let mut tr = Transaction::new(state);
    tr.insert_text(5, "World");
    tr.add_structural_step(SplitBlockStep::new(5));
    tr.delete(0, 1);
    assert_eq!(tr.step_count(), 3);
    let next = tr.commit().unwrap();
    assert_eq!(next.doc().paragraph_texts(), vec!["ello".to_string(), "World".to_string()]);
}

#[test]
fn failing_steps_are_dropped() {
    let doc = Node::from_paragraph_texts(vec!["Hi".to_string()]);
    let state = EditorState::from_doc(doc);
    let mut tr = Transaction::new(state);
    tr.delete(1, 9);
    assert_eq!(tr.step_count(), 0);
    assert_eq!(tr.mapping().len(), 0);
}

#[test]
fn commit_maps_the_old_selection_without_an_explicit_one() {
    let doc = Node::from_paragraph_texts(vec!["Hello".to_string()]);
    let state = EditorState::from_doc(doc.clone());
    let state = state.with_selection(Selection::text(
        nex_editor::state::selection::TextSelection::at(&doc, 3),
    ));
    let mut tr = Transaction::new(state);
    tr.insert_text(0, "ab");
    let next = tr.commit().unwrap();
    assert_eq!(next.selection().head(), 5);
    assert_eq!(next.doc().plain_text(), "abHello");
}

#[test]
fn inverse_step_restores_the_text() {
    let doc = Node::from_paragraph_texts(vec!["Hello World".to_string()]);
    let step = ReplaceStep::replace(0, 5, Slice::from_text("Hi"));
    let applied = step.apply(&doc).unwrap();
    let inverse = step.invert(&doc);
    let restored = inverse.apply(&applied.doc).unwrap();
    assert_eq!(restored.doc.plain_text(), "Hello World");
}

#[test]
fn stored_marks_and_meta() {
    let doc = Node::from_paragraph_texts(vec!["Hello".to_string()]);
    let state = EditorState::from_doc(doc);
    let mut tr = Transaction::new(state);
    tr.add_mark(2, 2, Mark { mark_type: "bold".to_string(), attrs: None });
    assert_eq!(tr.step_count(), 0);
    assert_eq!(tr.stored_marks.as_ref().unwrap().marks().len(), 1);
    tr.remove_mark(2, 2, "bold");
    assert!(tr.stored_marks.as_ref().unwrap().is_empty());
    tr.with_meta(TransactionMeta { description: None, user_action: false, timestamp: Some(7) });
    tr.user_action();
    let meta = tr.meta.as_ref().unwrap();
    assert!(meta.user_action);
    assert_eq!(meta.timestamp, Some(7));
    assert_eq!(tr.to_string(), "Transaction(steps=0)");
    let next = tr.commit().unwrap();
    assert!(next.stored_marks().is_empty());
}

#[test]
fn inverting_a_transaction_commits_back_to_the_old_state() {
    let doc = Node::from_paragraph_texts(vec!["Hello".to_string()]);
    let state = EditorState::from_doc(doc);
    let mut tr = Transaction::new(state.clone());
    tr.insert_text(5, " World").set_cursor(11);
    let changed = tr.commit().unwrap();
    assert_eq!(changed.doc().plain_text(), "Hello World");
    let back = tr.invert();
    assert_eq!(back.step_count(), 0);
    let restored = back.commit().unwrap();
    assert_eq!(restored.doc().plain_text(), "Hello");
    assert_eq!(restored.selection().anchor(), state.selection().anchor());
    assert_eq!(restored.selection().head(), state.selection().head());
}
