//! Pages and their padding.

use vstd::prelude::*;

verus! {

/// A page: its size, name and padding.
#[derive(Debug)]
pub struct Page {
    height: u32,
    width: u32,
    name: &'static str,
    padding: Padding,
}

/// Padding on the four sides.
#[derive(Debug, Clone, Copy, PartialEq, Eq, Structural)]
pub struct Padding {
    top: u32,
    bottom: u32,
    left: u32,
    right: u32,
}

impl Page {
    /// The height.
    pub closed spec fn spec_height(&self) -> u32 {
        self.height
    }

    /// The width.
    pub closed spec fn spec_width(&self) -> u32 {
        self.width
    }

    /// The name.
    pub closed spec fn spec_name(&self) -> Seq<char> {
        self.name@
    }

    /// The padding on each side: top, bottom, left, right.
    pub closed spec fn spec_padding(&self) -> (u32, u32, u32, u32) {
        (self.padding.top, self.padding.bottom, self.padding.left, self.padding.right)
    }

    /// An empty page: no size, no name, no padding.
    pub(crate) fn new() -> (r: Page)
        ensures
            r.spec_height() == 0,
            r.spec_width() == 0,
            r.spec_name() == ""@,
            r.spec_padding() == (0u32, 0u32, 0u32, 0u32),
    {
        Page { height: 0, width: 0, name: "", padding: Padding { top: 0, bottom: 0, left: 0, right: 0 } }
    }
}

/// An A4 page at 96 dpi with 56 px of padding on each side.
pub fn a4() -> (r: Page)
    ensures
        r.spec_height() == 1122,
        r.spec_width() == 793,
        r.spec_name() == "A4"@,
        r.spec_padding() == (56u32, 56u32, 56u32, 56u32),
{
    Page {
        height: 1122,
        width: 793,
        name: "A4",
        padding: Padding { top: 56, bottom: 56, left: 56, right: 56 },
    }
}

} // verus!
