//! Page layout parameters.

pub mod page;
