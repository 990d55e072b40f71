//! A selection in the node-key editor model.

use vstd::prelude::*;

verus! {

/// A selection: start, end and cursor positions.
#[derive(Debug, Clone, Copy, PartialEq, Eq, Structural)]
pub struct EditorSelection {
    start: u32,
    end: u32,
    cursor: u32,
}

impl EditorSelection {
    /// The start.
    pub closed spec fn spec_start(self) -> u32 {
        self.start
    }

    /// The end.
    pub closed spec fn spec_end(self) -> u32 {
        self.end
    }

    /// The cursor.
    pub closed spec fn spec_cursor(self) -> u32 {
        self.cursor
    }
}

/// The empty selection: everything at 0.
pub fn create_empty_editor_selection() -> (r: EditorSelection)
    ensures
        r.spec_start() == 0,
        r.spec_end() == 0,
        r.spec_cursor() == 0,
{
    EditorSelection { start: 0, end: 0, cursor: 0 }
}

} // verus!
