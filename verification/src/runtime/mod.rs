//! The editing half of the headless runtime: flat text offsets, pointer
//! and paint vocabulary, composition state, and the editing core that
//! turns events into transactions.

use vstd::prelude::*;

pub mod editing;

verus! {

/// A character offset in the flat plain text.
#[derive(Debug, Clone, Copy, PartialEq, Eq, Structural)]
pub struct FlatTextOffset(pub usize);

impl FlatTextOffset {
    /// Wrap an offset.
    pub fn new(value: usize) -> (r: Self)
        ensures
            r.0 == value,
    {
        FlatTextOffset(value)
    }

    /// The offset.
    pub fn get(self) -> (r: usize)
        ensures
            r == self.0,
    {
        self.0
    }
}

/// The offset a hit test found.
#[derive(Debug, Clone, Copy, PartialEq, Eq, Structural)]
pub struct HitTestResult {
    pub offset: FlatTextOffset,
}

/// A pointer button.
#[derive(Debug, Clone, Copy, PartialEq, Eq, Structural)]
pub enum PointerButton {
    Primary,
    Secondary,
    Middle,
}

/// Keyboard modifiers held during a pointer event.
#[derive(Debug, Clone, Copy, PartialEq, Eq, Structural)]
pub struct Modifiers {
    pub shift: bool,
    pub alt: bool,
    pub meta: bool,
    pub ctrl: bool,
}

impl Default for Modifiers {
    fn default() -> (r: Self)
        ensures
            r == (Modifiers { shift: false, alt: false, meta: false, ctrl: false }),
    {
        Modifiers { shift: false, alt: false, meta: false, ctrl: false }
    }
}

/// The kind of a painted rectangle.
#[derive(Debug, Clone, Copy, PartialEq, Eq, Structural)]
pub enum PaintRectKind {
    Background,
    Selection,
    Caret,
}

/// The role of a paint style.
#[derive(Debug, Clone, Copy, PartialEq, Eq, Structural)]
pub enum PaintStyleRole {
    EditorSurface,
    PrimaryText,
    SelectionFill,
    CaretFill,
    CompositionUnderline,
}

/// A paint style: its id, its role and the style key text is measured with.
#[derive(Debug)]
pub struct PaintStyle {
    pub id: String,
    pub role: PaintStyleRole,
    pub measurement_style_key: Option<String>,
}

/// An input-method composition in progress: the range it replaces and the
/// text composed so far.
#[derive(Debug)]
pub struct CompositionState {
    pub from: usize,
    pub to: usize,
    pub text: String,
}

/// What a snapshot reports of a composition.
#[derive(Debug)]
pub struct CompositionSnapshot {
    pub from: usize,
    pub to: usize,
    pub text: String,
}

/// The view of a composition: its range and its text.
pub struct CompositionV {
    pub from: nat,
    pub to: nat,
    pub text: Seq<char>,
}

impl View for CompositionState {
    type V = CompositionV;

    open spec fn view(&self) -> CompositionV {
        CompositionV { from: self.from as nat, to: self.to as nat, text: self.text@ }
    }
}

impl View for CompositionSnapshot {
    type V = CompositionV;

    open spec fn view(&self) -> CompositionV {
        CompositionV { from: self.from as nat, to: self.to as nat, text: self.text@ }
    }
}

} // verus!
