use vstd::prelude::*;

use crate::errors::Error;
use crate::storage::{BoardView, QuestBoard};
use crate::types::Symbol;

verus! {

/// Why the escrow of a quest cannot cover a payment of `amount`, if it cannot: there is no
/// escrow, it is closed, or it holds less than `amount`; checked in this order.
pub open spec fn escrow_error(b: BoardView, quest_id: Seq<u8>, amount: i128) -> Option<Error> {
    match b.escrow(quest_id) {
        None => Some(Error::EscrowNotFound),
        Some(e) => if !e.active {
            Some(Error::EscrowInactive)
        } else if e.balance < amount {
            Some(Error::InsufficientEscrow)
        } else {
            None
        },
    }
}

/// Checks that the escrow of the quest can pay `amount`.
pub fn validate_sufficient(state: &QuestBoard, quest_id: &Symbol, amount: i128) -> (r: Result<
    (),
    Error,
>)
    requires
        state.wf(),
    ensures
        match escrow_error(state@, quest_id@, amount) {
            Some(e) => r == Err::<(), Error>(e),
            None => r is Ok,
        },
{
    let i = match state.find_escrow(quest_id) {
        Some(i) => i,
        None => return Err(Error::EscrowNotFound),
    };
    let e = state.escrow_at(i);
    if !e.active {
        return Err(Error::EscrowInactive);
    }
    if e.balance < amount {
        return Err(Error::InsufficientEscrow);
    }
    Ok(())
}

} // verus!
