use nex_editor::runtime::editing::{EditEvent, EditorCore};
use nex_editor::runtime::{FlatTextOffset, PointerButton};

fn text_of(core: &EditorCore) -> String {
    core.state().doc().plain_text()
}

#[test]
fn inserting_text_bumps_the_revision() {
    let mut core = EditorCore::new();
    assert_eq!(core.revision(), 0);
    core.dispatch(EditEvent::InsertText { text: "hello".to_string() });
    assert_eq!(text_of(&core), "hello");
    assert_eq!(core.revision(), 1);
    assert_eq!(core.state().selection().head(), 5);
}

#[test]
fn select_all_does_not_bump_the_revision() {
    let mut core = EditorCore::new();
    core.dispatch(EditEvent::InsertText { text: "abc".to_string() });
    let rev = core.revision();
    core.dispatch(EditEvent::SelectAll);
    assert_eq!(core.revision(), rev);
    assert_eq!(core.state().selection().anchor(), 0);
    assert_eq!(core.state().selection().head(), 3);
}

#[test]
fn unicode_input_uses_character_offsets() {
    let mut core = EditorCore::new();
    core.dispatch(EditEvent::InsertText { text: "你好".to_string() });
    assert_eq!(core.state().selection().head(), 2);
    core.dispatch(EditEvent::Backspace);
    assert_eq!(text_of(&core), "你");
    assert_eq!(core.state().selection().head(), 1);
}

#[test]
fn composition_preview_does_not_commit_the_document() {
    let mut core = EditorCore::new();
    core.dispatch(EditEvent::InsertText { text: "ab".to_string() });
    core.dispatch(EditEvent::CompositionStart);
    core.dispatch(EditEvent::CompositionUpdate { text: "ni".to_string() });
    assert_eq!(text_of(&core), "ab");
    let shown = core.display_text(&text_of(&core));
    assert_eq!(shown, "abni");
    assert_eq!(core.display_selection(), (4, 4));
    assert_eq!(core.composition_range(), Some((2, 4)));
    let rev = core.revision();
    core.dispatch(EditEvent::CompositionEnd { text: "你".to_string() });
    assert_eq!(text_of(&core), "ab你");
    assert_eq!(core.state().selection().head(), 3);
    assert_eq!(core.revision(), rev + 1);
    assert!(core.composition_snapshot().is_none());
}

#[test]
fn newline_creates_paragraphs() {
    let mut core = EditorCore::new();
    core.dispatch(EditEvent::InsertText { text: "a\nb".to_string() });
    assert_eq!(core.state().doc().paragraph_texts(), vec!["a".to_string(), "b".to_string()]);
}

#[test]
fn caret_moves_collapse_a_selection() {
    let mut core = EditorCore::new();
    core.dispatch(EditEvent::InsertText { text: "hello".to_string() });
    core.set_selection(FlatTextOffset::new(1), FlatTextOffset::new(4));
    core.dispatch(EditEvent::MoveCaretLeft);
    assert_eq!(core.state().selection().head(), 1);
    assert!(core.state().selection().is_collapsed());
    core.set_selection(FlatTextOffset::new(1), FlatTextOffset::new(4));
    core.dispatch(EditEvent::MoveCaretRight);
    assert_eq!(core.state().selection().head(), 4);
    core.dispatch(EditEvent::MoveCaretRight);
    assert_eq!(core.state().selection().head(), 5);
}

#[test]
fn pointer_drag_selects_and_clamps() {
    let mut core = EditorCore::new();
    core.dispatch(EditEvent::InsertText { text: "hello".to_string() });
    core.dispatch(EditEvent::PointerDown { offset: FlatTextOffset::new(1), button: PointerButton::Primary });
    core.dispatch(EditEvent::PointerMove { offset: FlatTextOffset::new(40) });
    assert_eq!(core.state().selection().anchor(), 1);
    assert_eq!(core.state().selection().head(), 5);
    core.dispatch(EditEvent::PointerUp);
    assert!(core.pointer_anchor().is_none());
    core.dispatch(EditEvent::PointerMove { offset: FlatTextOffset::new(0) });
    assert_eq!(core.state().selection().anchor(), 1);
    core.dispatch(EditEvent::PointerDown { offset: FlatTextOffset::new(0), button: PointerButton::Secondary });
    assert_eq!(core.state().selection().anchor(), 1);
}

#[test]
fn delete_forward_and_cancel() {
    let mut core = EditorCore::new();
    core.dispatch(EditEvent::InsertText { text: "xy".to_string() });
    core.set_selection(FlatTextOffset::new(0), FlatTextOffset::new(0));
    core.dispatch(EditEvent::DeleteForward);
    assert_eq!(text_of(&core), "y");
    core.dispatch(EditEvent::CompositionUpdate { text: "q".to_string() });
    core.dispatch(EditEvent::CompositionCancel);
    assert_eq!(core.display_text(&text_of(&core)), "y");
    core.dispatch(EditEvent::CompositionEnd { text: String::new() });
    assert_eq!(text_of(&core), "y");
}

#[test]
fn test_insert_text_updates_render_snapshot() {
    let mut core = EditorCore::new();
    core.dispatch(EditEvent::InsertText { text: "hello".to_string() });

    assert_eq!(text_of(&core), "hello");
    assert_eq!(core.state().selection().anchor(), 5);
    assert_eq!(core.state().selection().head(), 5);
    assert_eq!(core.revision(), 1);
    assert_eq!(core.state().doc().paragraph_texts().len(), 1);
}

#[test]
fn test_select_all_does_not_increment_revision() {
    let mut core = EditorCore::new();
    core.dispatch(EditEvent::InsertText { text: "abc".to_string() });
    core.dispatch(EditEvent::SelectAll);

    assert_eq!(core.state().selection().anchor(), 0);
    assert_eq!(core.state().selection().head(), 3);
    assert_eq!(core.revision(), 1);
}

#[test]
fn test_unicode_input_uses_character_offsets() {
    let mut core = EditorCore::new();
    core.dispatch(EditEvent::InsertText { text: "你a".to_string() });

    assert_eq!(text_of(&core), "你a");
    assert_eq!(core.state().selection().anchor(), 2);
    assert_eq!(core.state().selection().head(), 2);

    core.dispatch(EditEvent::MoveCaretLeft);
    assert_eq!(core.state().selection().anchor(), 1);

    core.dispatch(EditEvent::Backspace);
    assert_eq!(text_of(&core), "a");
    assert_eq!(core.state().selection().anchor(), 0);
}

#[test]
fn test_composition_preview_does_not_commit_document() {
    let mut core = EditorCore::new();
    core.dispatch(EditEvent::CompositionStart);
    core.dispatch(EditEvent::CompositionUpdate { text: "你".to_string() });

    assert_eq!(text_of(&core), "");
    assert_eq!(core.display_text(&text_of(&core)), "你");
    let composition = core.composition_snapshot().unwrap();
    assert_eq!(composition.from, 0);
    assert_eq!(composition.to, 0);
    assert_eq!(composition.text, "你");
    assert_eq!(core.composition_range(), Some((0, 1)));
    assert_eq!(core.revision(), 0);
}

#[test]
fn test_composition_end_commits_text() {
    let mut core = EditorCore::new();
    core.dispatch(EditEvent::CompositionStart);
    core.dispatch(EditEvent::CompositionUpdate { text: "你".to_string() });
    core.dispatch(EditEvent::CompositionEnd { text: "你".to_string() });

    assert_eq!(text_of(&core), "你");
    assert_eq!(core.display_text(&text_of(&core)), "你");
    assert!(core.composition_snapshot().is_none());
    assert_eq!(core.revision(), 1);
    assert_eq!(core.state().selection().anchor(), 1);
}

#[test]
fn test_inserting_newline_creates_multiple_paragraphs() {
    let mut core = EditorCore::new();
    core.dispatch(EditEvent::InsertText { text: "abc\ndef".to_string() });

    assert_eq!(core.state().doc().paragraph_texts(), vec!["abc".to_string(), "def".to_string()]);
    assert_eq!(core.state().doc().plain_text(), "abc\ndef");
}
