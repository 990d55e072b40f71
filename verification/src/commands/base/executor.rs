//! Running a command: build its transaction and commit it.

use vstd::prelude::*;
use crate::state::state::{EditorState, EditorStateV};
use crate::state::transaction::{Transaction, commit_v};

verus! {

/// Build a transaction with `make_transaction` and commit it; the state
/// is kept when the commit fails.
pub fn apply_command<F>(state: &EditorState, make_transaction: F) -> (r: EditorState) where
    F: FnOnce() -> Transaction,

    requires
        make_transaction.requires(()),
    ensures
        exists|tr: Transaction|
            #[trigger] make_transaction.ensures((), tr) && r@ == match commit_v(tr) {
                Ok(s) => s,
                Err(_) => state@,
            },
{
    let tr = make_transaction();
    match tr.commit() {
        Ok(s) => s,
        Err(_) => state.clone(),
    }
}

} // verus!
