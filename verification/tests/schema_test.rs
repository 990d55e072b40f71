use nex_editor::model::node::Node;
use nex_editor::model::schema::{ContentExpr, ContentMatcher, Schema, SchemaError, SchemaSpec};

#[test]
fn schema_test_schema_default() {
    let schema = Schema::default();

    assert_eq!(schema.top_node_name(), "doc");
    assert!(schema.is_valid_node_type("paragraph"));
    assert!(schema.is_valid_node_type("text"));
    assert!(!schema.is_valid_node_type("unknown"));
}

#[test]
fn test_schema_validate_node() {
    let schema = Schema::default();

    // Valid paragraph with text
    let para = Node::new_block("paragraph", vec![Node::new_text("Hello")]);
    assert!(schema.validate_node(&para).is_ok());

    // Valid paragraph without text (optional)
    let para = Node::new_block("paragraph", vec![]);
    assert!(schema.validate_node(&para).is_ok());

    // Invalid: hr with content
    let hr = Node::new_block("horizontal_rule", vec![Node::new_text("x")]);
    assert!(schema.validate_node(&hr).is_err());
}

#[test]
fn test_schema_validate_children() {
    let schema = Schema::default();

    // Valid children for doc
    let children = vec![
        Node::new_block("paragraph", vec![Node::new_text("Hello")]),
        Node::new_block("paragraph", vec![Node::new_text("World")]),
    ];
    assert!(schema.validate_children("doc", &children).is_ok());

    // Invalid: text as direct child of doc
    let children = vec![Node::new_text("Hello")];
    assert!(schema.validate_children("doc", &children).is_err());
}

#[test]
fn test_content_matcher_required() {
    let spec = SchemaSpec {
        top_node: "doc".to_string(),
        nodes: vec![("container".to_string(), ContentExpr::Required("item+".to_string()))],
        marks: vec![],
        default_inline: None,
        default_block: None,
    };
    let schema = Schema::new(spec);

    let item = Node::new_block("item", vec![]);

    // Required: at least one
    let children = vec![item.clone()];
    assert!(schema.validate_children("container", &children).is_ok());

    // Required: multiple
    let children = vec![item.clone(), item.clone()];
    assert!(schema.validate_children("container", &children).is_ok());

    // Required: zero (should fail)
    let children: Vec<Node> = vec![];
    assert!(schema.validate_children("container", &children).is_err());
}

#[test]
fn test_content_matcher_optional() {
    let spec = SchemaSpec {
        top_node: "doc".to_string(),
        nodes: vec![("container".to_string(), ContentExpr::Optional("item*".to_string()))],
        marks: vec![],
        default_inline: None,
        default_block: None,
    };
    let schema = Schema::new(spec);

    let item = Node::new_block("item", vec![]);

    // Optional: zero
    let children: Vec<Node> = vec![];
    assert!(schema.validate_children("container", &children).is_ok());

    // Optional: one
    let children = vec![item.clone()];
    assert!(schema.validate_children("container", &children).is_ok());

    // Optional: multiple
    let children = vec![item.clone(), item.clone()];
    assert!(schema.validate_children("container", &children).is_ok());
}

#[test]
fn unknown_parent_type_is_reported() {
    let schema = Schema::default();
    match schema.validate_children("table", &[]) {
        Err(SchemaError::UnknownNodeType(name)) => assert_eq!(name, "table"),
        _ => panic!("expected an unknown node type"),
    }
}

#[test]
fn required_pattern_errors_name_the_pattern() {
    let matcher = ContentMatcher::new(ContentExpr::Required("item+".to_string()), vec![]);
    match matcher.matches(&[]) {
        Err(SchemaError::MissingContent { node_type }) => assert_eq!(node_type, "item+"),
        _ => panic!("expected missing content"),
    }
    let other = Node::new_block("other", vec![]);
    match matcher.matches(&[other]) {
        Err(SchemaError::InvalidContent { node_type, reason }) => {
            assert_eq!(node_type, "item+");
            assert_eq!(reason, "Required content 'item+' not matched");
        }
        _ => panic!("expected invalid content"),
    }
}

#[test]
fn empty_content_reports_what_it_found() {
    let matcher = ContentMatcher::new(ContentExpr::Empty, vec![]);
    let found = vec![Node::new_text("x"), Node::new_block("p", vec![])];
    match matcher.matches(&found) {
        Err(SchemaError::UnexpectedContent { node_type, found }) => {
            assert_eq!(node_type, "empty");
            assert_eq!(found, "[\"text\", \"p\"]");
        }
        _ => panic!("expected unexpected content"),
    }
    let err = matcher.matches(&found).unwrap_err();
    assert_eq!(
        err.to_string(),
        "Node empty allows no content but found \"[\\\"text\\\", \\\"p\\\"]\""
    );
}

#[test]
fn sequence_counts_required_then_optional() {
    let matcher = ContentMatcher::new(
        ContentExpr::Sequence("heading".to_string(), "paragraph*".to_string()),
        vec![],
    );
    let h = Node::new_block("heading", vec![]);
    let p = Node::new_block("paragraph", vec![]);
    assert!(matcher.matches(&[h.clone(), p.clone(), p.clone()]).is_ok());
    match matcher.matches(&[p.clone(), h.clone()]) {
        Err(SchemaError::InvalidContent { node_type, reason }) => {
            assert_eq!(node_type, "heading");
            assert_eq!(reason, "Required content 'heading' not found");
        }
        _ => panic!("expected a missing required part"),
    }
    let q = Node::new_block("quote", vec![]);
    match matcher.matches(&[h.clone(), h.clone(), q]) {
        Err(SchemaError::InvalidContent { node_type, reason }) => {
            assert_eq!(node_type, "heading+paragraph*?");
            assert_eq!(reason, "Unexpected content after pattern");
        }
        _ => panic!("expected trailing content"),
    }
}

#[test]
fn choice_takes_the_first_alternative_that_matches() {
    let matcher = ContentMatcher::new(
        ContentExpr::Choice(vec![ContentExpr::Empty, ContentExpr::Required("text+".to_string())]),
        vec![],
    );
    assert!(matcher.matches(&[]).is_ok());
    assert!(matcher.matches(&[Node::new_text("a")]).is_ok());
    match matcher.matches(&[Node::new_block("p", vec![])]) {
        Err(SchemaError::InvalidContent { node_type, reason }) => {
            assert_eq!(node_type, "choice");
            assert_eq!(reason, "No choice matched");
        }
        _ => panic!("expected no choice"),
    }
}

#[test]
fn categories_group_node_types() {
    let matcher = ContentMatcher::new(
        ContentExpr::Required("inline+".to_string()),
        vec![("inline".to_string(), "inline".to_string()), ("emoji".to_string(), "inline".to_string())],
    );
    assert!(matcher.matches(&[Node::new_block("emoji", vec![])]).is_ok());
    assert!(matcher.matches(&[Node::new_block("image", vec![])]).is_err());
}

#[test]
fn schema_display_and_defaults() {
    let schema = Schema::default();
    assert_eq!(schema.to_string(), "Schema(top: doc)");
    assert_eq!(schema.default_block_type(), Some("paragraph"));
    assert_eq!(schema.default_inline_type(), Some("text"));
    assert!(schema.is_valid_mark_type("bold"));
    assert!(!schema.is_valid_mark_type("strike"));
    assert_eq!(
        SchemaError::UnknownNodeType("x".to_string()).to_string(),
        "Unknown node type: x"
    );
}

#[test]
fn default_spec_marks_carry_their_attributes() {
    let spec = SchemaSpec::default();
    let names: Vec<&str> = spec.marks.iter().map(|(n, _)| n.as_str()).collect();
    assert_eq!(names, vec!["bold", "italic", "link"]);
    let empty = serde_json::Value::Object(serde_json::Map::new());
    let mut link = serde_json::Map::new();
    link.insert("href".to_string(), serde_json::Value::String(String::new()));
    assert_eq!(spec.marks[0].1, empty);
    assert_eq!(spec.marks[1].1, empty);
    assert_eq!(spec.marks[2].1, serde_json::Value::Object(link));
    assert_eq!(spec.top_node, "doc");
    assert_eq!(spec.default_block.as_deref(), Some("paragraph"));
}
