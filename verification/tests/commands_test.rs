use nex_editor::commands::base::executor;
use nex_editor::commands::base::helpers;
use nex_editor::commands::base::{BaseCommands, BaseCommandsImpl};
use nex_editor::model::node::{Node, NodeContent};
use nex_editor::state::selection::{Selection, TextSelection};
use nex_editor::state::state::EditorState;

#[test]
fn test_base_commands_impl() {
    let cmd = BaseCommandsImpl::new();
    let state = EditorState::from_doc(Node::new_block("doc", vec![]));

    let tr = cmd.delete_selection(&state);
    assert_eq!(tr.step_count(), 0);
}

#[test]
fn test_type_text() {
    let cmd = BaseCommandsImpl::new();
    let state = EditorState::from_doc(Node::new_block(
        "doc",
        vec![Node::new_block("paragraph", vec![Node::new_text("")])],
    ));

    let tr = cmd.type_text(&state, "Hello");
    assert_eq!(tr.step_count(), 1);
}

#[test]
fn test_toggle_mark() {
    let cmd = BaseCommandsImpl::new();
    let state = EditorState::from_doc(Node::new_block("doc", vec![]));

    let tr = cmd.toggle_mark(&state, "bold");
    assert!(tr.stored_marks.is_some());
}

#[test]
fn test_toggle_mark_with_selection() {
    let cmd = BaseCommandsImpl::new();
    let doc = Node::from_paragraph_texts(vec!["Hello".to_string()]);
    let state = EditorState::from_doc(doc.clone())
        .with_selection(Selection::text(TextSelection::create(&doc, 0, 5)));

    let new_state = executor::apply_command(&state, || cmd.toggle_mark(&state, "bold"));
    let paragraph = &new_state.doc().children().unwrap()[0];
    let text = &paragraph.children().unwrap()[0];
    match &text.content {
        NodeContent::Text(tc) => assert_eq!(tc.marks[0].mark_type, "bold"),
        NodeContent::Nodes(_) => panic!("expected text node"),
    }
}

#[test]
fn test_split_block() {
    let cmd = BaseCommandsImpl::new();
    let doc = Node::from_paragraph_texts(vec!["HelloWorld".to_string()]);
    let state = EditorState::from_doc(doc).with_selection(Selection::text(TextSelection::at(
        &Node::from_paragraph_texts(vec!["HelloWorld".to_string()]),
        5,
    )));

    let new_state = executor::apply_command(&state, || cmd.split_block(&state));
    assert_eq!(new_state.doc().paragraph_texts(), vec!["Hello".to_string(), "World".to_string()]);
}

#[test]
fn test_join_backward() {
    let cmd = BaseCommandsImpl::new();
    let doc = Node::from_paragraph_texts(vec!["Hello".to_string(), "World".to_string()]);
    let state =
        EditorState::from_doc(doc.clone()).with_selection(Selection::text(TextSelection::at(&doc, 6)));

    let new_state = executor::apply_command(&state, || cmd.join_backward(&state));
    assert_eq!(new_state.doc().paragraph_texts(), vec!["HelloWorld".to_string()]);
}

#[test]
fn test_helper_functions() {
    let doc = Node::new_block("doc", vec![Node::new_block("paragraph", vec![Node::new_text("Hello World")])]);
    let state = EditorState::from_doc(doc);

    assert!(helpers::is_at_doc_start(&state));

    let cursor = helpers::get_cursor(&state);
    assert_eq!(cursor, 0);

    let range = helpers::get_selection_range(&state);
    assert_eq!(range, (0, 0));
}

#[test]
fn test_executor() {
    let doc = Node::new_block("doc", vec![]);
    let state = EditorState::from_doc(doc);

    let new_state =
        executor::apply_command(&state, || BaseCommandsImpl::new().type_text(&state, "Hello"));

    assert_eq!(new_state.doc().plain_text(), "Hello");
}

#[test]
fn test_delete_backward() {
    let cmd = BaseCommandsImpl::new();
    let doc = Node::from_paragraph_texts(vec!["Hello".to_string()]);
    let state =
        EditorState::from_doc(doc.clone()).with_selection(Selection::text(TextSelection::at(&doc, 5)));

    let new_state = executor::apply_command(&state, || cmd.delete_backward(&state));
    assert_eq!(new_state.doc().plain_text(), "Hell");
    assert_eq!(new_state.selection().head(), 4);
}

#[test]
fn test_delete_forward() {
    let cmd = BaseCommandsImpl::new();
    let doc = Node::from_paragraph_texts(vec!["Hello".to_string()]);
    let state =
        EditorState::from_doc(doc.clone()).with_selection(Selection::text(TextSelection::at(&doc, 1)));

    let new_state = executor::apply_command(&state, || cmd.delete_forward(&state));
    assert_eq!(new_state.doc().plain_text(), "Hllo");
    assert_eq!(new_state.selection().head(), 1);
}

#[test]
fn test_select_all() {
    let cmd = BaseCommandsImpl::new();
    let doc = Node::from_paragraph_texts(vec!["Hello".to_string(), "World".to_string()]);
    let state = EditorState::from_doc(doc);

    let new_state = executor::apply_command(&state, || cmd.select_all(&state));
    assert_eq!(new_state.selection().anchor(), 0);
    assert_eq!(new_state.selection().head(), 11);
}

#[test]
fn typing_counts_characters_for_the_cursor() {
    let cmd = BaseCommandsImpl::new();
    let doc = Node::from_paragraph_texts(vec!["ab".to_string()]);
    let state =
        EditorState::from_doc(doc.clone()).with_selection(Selection::text(TextSelection::at(&doc, 1)));
    let next = executor::apply_command(&state, || cmd.type_text(&state, "你好"));
    assert_eq!(next.doc().plain_text(), "a你好b");
    assert_eq!(next.selection().head(), 3);
}

#[test]
fn backspace_at_the_start_changes_nothing() {
    let cmd = BaseCommandsImpl::new();
    let doc = Node::from_paragraph_texts(vec!["ab".to_string()]);
    let state = EditorState::from_doc(doc);
    let tr = cmd.delete_backward(&state);
    assert_eq!(tr.step_count(), 0);
    let tr = cmd.delete_forward(&state);
    assert_eq!(tr.step_count(), 1);
}

#[test]
fn cursor_moves_stay_inside_the_text() {
    let cmd = BaseCommandsImpl::new();
    let doc = Node::from_paragraph_texts(vec!["ab".to_string()]);
    let state =
        EditorState::from_doc(doc.clone()).with_selection(Selection::text(TextSelection::at(&doc, 2)));
    let right = executor::apply_command(&state, || cmd.move_forward_char(&state));
    assert_eq!(right.selection().head(), 2);
    let left = executor::apply_command(&state, || cmd.move_backward_char(&state));
    assert_eq!(left.selection().head(), 1);
    let start = EditorState::from_doc(doc);
    let left = executor::apply_command(&start, || cmd.move_backward_char(&start));
    assert_eq!(left.selection().head(), 0);
}

#[test]
fn toggling_a_stored_mark_removes_it() {
    let cmd = BaseCommandsImpl::new();
    let doc = Node::from_paragraph_texts(vec!["ab".to_string()]);
    let state = EditorState::from_doc(doc);
    let with_bold = executor::apply_command(&state, || cmd.toggle_mark(&state, "bold"));
    assert_eq!(with_bold.stored_marks().len(), 1);
    let without = executor::apply_command(&with_bold, || cmd.toggle_mark(&with_bold, "bold"));
    assert!(without.stored_marks().is_empty());
}

#[test]
fn helper_transactions() {
    let doc = Node::from_paragraph_texts(vec!["Hello".to_string()]);
    let state = EditorState::from_doc(doc.clone());
    let next = executor::apply_command(&state, || helpers::delete_range(&state, 1, 3));
    assert_eq!(next.doc().plain_text(), "Hlo");
    assert_eq!(next.selection().head(), 1);
    let next = executor::apply_command(&state, || helpers::insert_at_cursor(&state, "()", 1));
    assert_eq!(next.doc().plain_text(), "()Hello");
    assert_eq!(next.selection().head(), 1);
    assert!(helpers::get_resolved_cursor(&state).is_some());
    assert!(!helpers::is_at_doc_end(&state));
}

#[test]
fn typing_over_a_selection_replaces_it() {
    let cmd = BaseCommandsImpl::new();
    let doc = Node::from_paragraph_texts(vec!["Hello World".to_string()]);
    let state = EditorState::from_doc(doc.clone())
        .with_selection(Selection::text(TextSelection::create(&doc, 11, 6)));
    let next = executor::apply_command(&state, || cmd.type_text(&state, "there"));
    assert_eq!(next.doc().plain_text(), "Hello there");
    assert_eq!(next.selection().anchor(), 11);
    assert_eq!(next.selection().head(), 11);
}

#[test]
fn deleting_a_selection_either_way_leaves_the_cursor_at_its_start() {
    let cmd = BaseCommandsImpl::new();
    let doc = Node::from_paragraph_texts(vec!["abcdef".to_string()]);
    let state = EditorState::from_doc(doc.clone())
        .with_selection(Selection::text(TextSelection::create(&doc, 4, 1)));
    let back = executor::apply_command(&state, || cmd.delete_backward(&state));
    assert_eq!(back.doc().plain_text(), "aef");
    assert_eq!(back.selection().head(), 1);
    let fwd = executor::apply_command(&state, || cmd.delete_forward(&state));
    assert_eq!(fwd.doc().plain_text(), "aef");
    assert_eq!(fwd.selection().head(), 1);
}

#[test]
fn delete_forward_at_the_end_changes_nothing() {
    let cmd = BaseCommandsImpl::new();
    let doc = Node::from_paragraph_texts(vec!["ab".to_string()]);
    let state =
        EditorState::from_doc(doc.clone()).with_selection(Selection::text(TextSelection::at(&doc, 2)));
    let tr = cmd.delete_forward(&state);
    assert_eq!(tr.step_count(), 0);
    let next = executor::apply_command(&state, || cmd.delete_forward(&state));
    assert_eq!(next.doc().plain_text(), "ab");
}
