//! Editing commands: each builds a transaction from a state.

pub mod base;
