use nex_editor::model::node::Node;
use nex_editor::transform::replace::Slice;
use nex_editor::transform::step::{StepBuilder, StepResult};

#[test]
fn test_step_result_basics() {
    let doc = Node::new_block("paragraph", vec![Node::new_text("Hello")]);

    // Simulate a delete result
    let result = StepResult::delete(doc, 0, 5);
    assert_eq!(result.replaced_size(), 5);
    assert!(result.slice.is_none());
}

#[test]
fn test_step_result_insert() {
    let doc = Node::new_block("paragraph", vec![Node::new_text("Hello")]);
    let slice = Slice::from_text(" World");

    let result = StepResult::insert(doc, 5, slice);
    assert_eq!(result.replaced_size(), 0);
    assert_eq!(result.inserted_size(), 6);
}

#[test]
fn builder_steps_carry_their_ranges() {
    let insert = StepBuilder::insert(3, "xy");
    assert_eq!((insert.from, insert.to), (3, 3));
    assert_eq!(insert.slice.size(), 2);
    let delete = StepBuilder::delete(1, 4);
    assert_eq!((delete.from, delete.to), (1, 4));
    assert!(delete.slice.is_empty());
}
