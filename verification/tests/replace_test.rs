use nex_editor::model::node::{Mark, Node, NodeContent};
use nex_editor::transform::map::StepMap;
use nex_editor::transform::replace::{
    JoinBackwardStep, LiftStep, ReplaceStep, SetMarksStep, Slice, SplitBlockStep, WrapStep,
};
use nex_editor::transform::step::{Mappable, Step, StepError};

#[test]
fn test_slice_basics() {
    let slice = Slice::from_text("Hello");
    assert_eq!(slice.size(), 5);
    assert_eq!(slice.content_size(), 5);
    assert_eq!(slice.node_count(), 1);
    assert!(!slice.is_empty());
}

#[test]
fn test_slice_empty() {
    let slice = Slice::empty();
    assert!(slice.is_empty());
    assert_eq!(slice.size(), 0);
}

#[test]
fn test_slice_from_nodes() {
    let nodes = vec![Node::new_text("Hello"), Node::new_text(" "), Node::new_text("World")];
    let slice = Slice::from_nodes(nodes);
    assert_eq!(slice.node_count(), 3);
}

#[test]
fn test_replace_step_insert() {
    let doc = Node::new_block("paragraph", vec![Node::new_text("Hello")]);
    let step = ReplaceStep::insert(5, Slice::from_text(" World"));

    let result = step.apply(&doc).expect("insert should succeed");
    assert_eq!(result.doc.text_content(), "Hello World");
}

#[test]
fn test_replace_step_delete() {
    let doc = Node::new_block("paragraph", vec![Node::new_text("Hello World")]);
    let step = ReplaceStep::delete(5, 11);

    let result = step.apply(&doc).expect("delete should succeed");
    assert_eq!(result.doc.text_content(), "Hello");
}

#[test]
fn test_replace_step_replace() {
    let doc = Node::new_block("paragraph", vec![Node::new_text("Hello World")]);
    let step = ReplaceStep::replace(0, 5, Slice::from_text("Hi"));

    let result = step.apply(&doc).expect("replace should succeed");
    assert_eq!(result.doc.text_content(), "Hi World");
}

#[test]
fn test_replace_step_map() {
    let step = ReplaceStep::delete(10, 15);
    let map = StepMap::new(5, 5, 3); // Insert 3 at position 5

    let mapped = step.map(&map);
    // Position 10 is after the insertion point (5), so shifts by 3
    assert_eq!(mapped.from, 13);
    assert_eq!(mapped.to, 18);
}

#[test]
fn test_split_block_step() {
    let doc = Node::from_paragraph_texts(vec!["HelloWorld".to_string()]);
    let step = SplitBlockStep::new(5);

    let result = step.apply(&doc).expect("split should succeed");
    assert_eq!(result.doc.paragraph_texts(), vec!["Hello".to_string(), "World".to_string()]);
}

#[test]
fn test_join_backward_step() {
    let doc = Node::from_paragraph_texts(vec!["Hello".to_string(), "World".to_string()]);
    let step = JoinBackwardStep::new(5);

    let result = step.apply(&doc).expect("join should succeed");
    assert_eq!(result.doc.paragraph_texts(), vec!["HelloWorld".to_string()]);
}

#[test]
fn test_lift_step() {
    let step = LiftStep::new(0, 10, 1);
    // Should not panic, but returns error for unimplemented
    let result = step.apply(&Node::new_text("doc"));
    assert!(result.is_err());
}

#[test]
fn test_set_marks_step() {
    let step = SetMarksStep::add_mark(0, 5, Mark { mark_type: "bold".to_string(), attrs: None });

    let result = step.apply(&Node::new_text("Hello")).expect("mark step should apply");
    match &result.doc.content {
        NodeContent::Text(tc) => assert_eq!(tc.marks[0].mark_type, "bold"),
        NodeContent::Nodes(_) => panic!("expected text node"),
    }
}

#[test]
fn out_of_range_steps_fail() {
    let doc = Node::from_paragraph_texts(vec!["abc".to_string()]);
    match ReplaceStep::delete(2, 9).apply(&doc) {
        Err(StepError::PositionOutOfRange(p)) => assert_eq!(p, 2),
        _ => panic!("expected an out-of-range error"),
    }
    match SetMarksStep::remove_mark(1, 8, "bold").apply(&doc) {
        Err(StepError::PositionOutOfRange(p)) => assert_eq!(p, 8),
        _ => panic!("expected an out-of-range error"),
    }
    assert!(WrapStep::new(0, 1, "quote", None).apply(&doc).is_err());
}

#[test]
fn join_needs_a_paragraph_boundary() {
    let doc = Node::from_paragraph_texts(vec!["Hello".to_string(), "World".to_string()]);
    assert!(JoinBackwardStep::new(2).apply(&doc).is_err());
    let joined = JoinBackwardStep::new(6).apply(&doc).unwrap();
    assert_eq!(joined.doc.plain_text(), "HelloWorld");
}

#[test]
fn split_at_the_ends_makes_empty_paragraphs() {
    let doc = Node::from_paragraph_texts(vec!["ab".to_string()]);
    let at_start = SplitBlockStep::new(0).apply(&doc).unwrap();
    assert_eq!(at_start.doc.paragraph_texts(), vec![String::new(), "ab".to_string()]);
    let at_end = SplitBlockStep::new(2).apply(&doc).unwrap();
    assert_eq!(at_end.doc.paragraph_texts(), vec!["ab".to_string(), String::new()]);
}

#[test]
fn splitting_then_joining_back_restores_the_paragraphs() {
    let doc = Node::from_paragraph_texts(vec!["ab".to_string(), "HelloWorld".to_string()]);
    let split = SplitBlockStep::new(8).apply(&doc).unwrap();
    assert_eq!(
        split.doc.paragraph_texts(),
        vec!["ab".to_string(), "Hello".to_string(), "World".to_string()]
    );
    let joined = JoinBackwardStep::new(9).apply(&split.doc).unwrap();
    assert_eq!(joined.doc.paragraph_texts(), vec!["ab".to_string(), "HelloWorld".to_string()]);
}
