//! Transform layer: steps, step maps and replacement.

pub mod map;
pub mod replace;
pub mod step;
