//! The node-key editor model: nodes linked by keys, and selections.

pub mod editor_node;
pub mod editor_selection;
pub mod editor_state;
