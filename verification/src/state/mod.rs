//! Editor state: selections, the state itself, and transactions.

pub mod selection;
pub mod state;
pub mod transaction;
