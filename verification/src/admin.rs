use vstd::prelude::*;

use crate::errors::Error;
use crate::storage::{BoardView, QuestBoard};
use crate::types::{Address, Escrow, EscrowView};

verus! {

/// The board after `caller` makes `who` an administrator, or why that is refused: only an
/// administrator names others.
pub open spec fn grant_admin_spec(b: BoardView, caller: Seq<u8>, who: Seq<u8>) -> Result<
    BoardView,
    Error,
> {
    if b.is_admin(caller) {
        Ok(b.add_admin(who))
    } else {
        Err(Error::Unauthorized)
    }
}

/// Makes `who` an administrator, on the authority of `caller`.
pub fn grant_admin(state: &mut QuestBoard, caller: &Address, who: &Address) -> (r: Result<
    (),
    Error,
>)
    requires
        old(state).wf(),
    ensures
        final(state).wf(),
        match grant_admin_spec(old(state)@, caller@, who@) {
            Ok(b) => r is Ok && final(state)@ == b,
            Err(e) => r == Err::<(), Error>(e) && final(state)@ == old(state)@,
        },
{
    if !state.is_admin(caller) {
        return Err(Error::Unauthorized);
    }
    state.add_admin(who.duplicate());
    Ok(())
}

/// The board after `caller` records the escrow of a quest, or why that is refused: only an
/// administrator records escrows.
pub open spec fn set_escrow_spec(b: BoardView, caller: Seq<u8>, e: EscrowView) -> Result<
    BoardView,
    Error,
> {
    if b.is_admin(caller) {
        Ok(b.put_escrow(e))
    } else {
        Err(Error::Unauthorized)
    }
}

/// Records the escrow of a quest, replacing the one it had, on the authority of `caller`.
pub fn set_escrow(state: &mut QuestBoard, caller: &Address, escrow: Escrow) -> (r: Result<
    (),
    Error,
>)
    requires
        old(state).wf(),
    ensures
        final(state).wf(),
        match set_escrow_spec(old(state)@, caller@, escrow@) {
            Ok(b) => r is Ok && final(state)@ == b,
            Err(e) => r == Err::<(), Error>(e) && final(state)@ == old(state)@,
        },
{
    if !state.is_admin(caller) {
        return Err(Error::Unauthorized);
    }
    state.put_escrow(escrow);
    Ok(())
}

} // verus!
