//! RGBA colors.

use vstd::prelude::*;

verus! {

/// An RGBA color.
#[derive(Debug, Clone, Copy, PartialEq, Eq, Structural)]
pub struct Color {
    r: u8,
    g: u8,
    b: u8,
    a: u8,
}

impl Color {
    /// The red channel.
    pub closed spec fn red_channel(self) -> u8 {
        self.r
    }

    /// The green channel.
    pub closed spec fn green_channel(self) -> u8 {
        self.g
    }

    /// The blue channel.
    pub closed spec fn blue_channel(self) -> u8 {
        self.b
    }

    /// The alpha channel.
    pub closed spec fn alpha_channel(self) -> u8 {
        self.a
    }

    /// A color from its four channels.
    pub fn new(r: u8, g: u8, b: u8, a: u8) -> (c: Self)
        ensures
            c.red_channel() == r,
            c.green_channel() == g,
            c.blue_channel() == b,
            c.alpha_channel() == a,
    {
        Color { r, g, b, a }
    }

    /// Opaque black.
    pub closed spec fn black_v() -> Color {
        Color { r: 0, g: 0, b: 0, a: 255 }
    }

    /// Opaque black.
    pub fn black() -> (c: Color)
        ensures
            c == Self::black_v(),
            c.red_channel() == 0 && c.green_channel() == 0 && c.blue_channel() == 0 && c.alpha_channel() == 255,
    {
        Color { r: 0, g: 0, b: 0, a: 255 }
    }

    /// Opaque white.
    pub closed spec fn white_v() -> Color {
        Color { r: 255, g: 255, b: 255, a: 255 }
    }

    /// Opaque white.
    pub fn white() -> (c: Color)
        ensures
            c == Self::white_v(),
            c.red_channel() == 255 && c.green_channel() == 255 && c.blue_channel() == 255 && c.alpha_channel() == 255,
    {
        Color { r: 255, g: 255, b: 255, a: 255 }
    }

    /// Opaque red.
    pub closed spec fn red_v() -> Color {
        Color { r: 255, g: 0, b: 0, a: 255 }
    }

    /// Opaque red.
    pub fn red() -> (c: Color)
        ensures
            c == Self::red_v(),
            c.red_channel() == 255 && c.green_channel() == 0 && c.blue_channel() == 0 && c.alpha_channel() == 255,
    {
        Color { r: 255, g: 0, b: 0, a: 255 }
    }

    /// Opaque green.
    pub closed spec fn green_v() -> Color {
        Color { r: 0, g: 255, b: 0, a: 255 }
    }

    /// Opaque green.
    pub fn green() -> (c: Color)
        ensures
            c == Self::green_v(),
            c.red_channel() == 0 && c.green_channel() == 255 && c.blue_channel() == 0 && c.alpha_channel() == 255,
    {
        Color { r: 0, g: 255, b: 0, a: 255 }
    }

    /// Opaque blue.
    pub closed spec fn blue_v() -> Color {
        Color { r: 0, g: 0, b: 255, a: 255 }
    }

    /// Opaque blue.
    pub fn blue() -> (c: Color)
        ensures
            c == Self::blue_v(),
            c.red_channel() == 0 && c.green_channel() == 0 && c.blue_channel() == 255 && c.alpha_channel() == 255,
    {
        Color { r: 0, g: 0, b: 255, a: 255 }
    }

    /// Fully transparent black.
    pub closed spec fn transparent_v() -> Color {
        Color { r: 0, g: 0, b: 0, a: 0 }
    }

    /// Fully transparent black.
    pub fn transparent() -> (c: Color)
        ensures
            c == Self::transparent_v(),
            c.red_channel() == 0 && c.green_channel() == 0 && c.blue_channel() == 0 && c.alpha_channel() == 0,
    {
        Color { r: 0, g: 0, b: 0, a: 0 }
    }
}

} // verus!
