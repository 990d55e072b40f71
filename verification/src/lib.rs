//! nex-editor: a headless editor core.
//!
//! The verified library holds the document model, position mapping, the
//! replace/split/join/mark steps, selections, editor state, transactions,
//! the base editing commands and the editing decisions of the runtime.

pub mod color;
pub mod commands;
pub mod document;
pub mod editor;
pub mod json;
pub mod layout;
pub mod model;
pub mod nodes;
pub mod runtime;
pub mod state;
pub mod strings;
pub mod transform;
