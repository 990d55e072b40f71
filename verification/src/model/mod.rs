//! Model layer: nodes, schemas and resolved positions.

pub mod node;
pub mod resolved_pos;
pub mod schema;
