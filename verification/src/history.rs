use vstd::prelude::*;

use crate::admin::{grant_admin_spec, set_escrow_spec};
use crate::errors::Error;
use crate::laws::{
    lemma_add_quest_wf, lemma_put_metadata, lemma_put_submission, lemma_status_change_wf,
    lemma_submission_status_wf,
};
use crate::quest::{
    admin_status_change_spec, new_quest, register_all, register_batch_spec, register_spec,
    register_with_metadata_spec, update_metadata_spec,
};
use crate::storage::BoardView;
use crate::submission::{approve_all, approve_batch_spec, approve_spec, submit_spec};
use crate::types::{
    BatchApprovalView, BatchQuestView, EscrowView, MetadataView, QuestStatus, SubmissionStatus,
};

verus! {

/// An operation that may change the board, with the values it is called with.
pub enum Operation {
    Register {
        id: Seq<u8>,
        creator: Seq<u8>,
        reward_asset: Seq<u8>,
        reward_amount: i128,
        verifier: Seq<u8>,
        deadline: u64,
        now: u64,
    },
    RegisterWithMetadata {
        id: Seq<u8>,
        creator: Seq<u8>,
        reward_asset: Seq<u8>,
        reward_amount: i128,
        verifier: Seq<u8>,
        deadline: u64,
        metadata: MetadataView,
        now: u64,
    },
    RegisterBatch { creator: Seq<u8>, items: Seq<BatchQuestView>, now: u64 },
    Pause { id: Seq<u8>, caller: Seq<u8> },
    Resume { id: Seq<u8>, caller: Seq<u8> },
    UpdateMetadata { quest_id: Seq<u8>, updater: Seq<u8>, metadata: MetadataView },
    Submit { quest_id: Seq<u8>, submitter: Seq<u8>, proof_hash: Seq<u8>, now: u64 },
    Approve { quest_id: Seq<u8>, submitter: Seq<u8>, verifier: Seq<u8> },
    ApproveBatch { verifier: Seq<u8>, approvals: Seq<BatchApprovalView> },
    GrantAdmin { caller: Seq<u8>, who: Seq<u8> },
    SetEscrow { caller: Seq<u8>, escrow: EscrowView },
}

/// What the operation does to the board: the specification of the function that performs
/// it.
pub open spec fn apply(b: BoardView, op: Operation) -> Result<BoardView, Error> {
    match op {
        Operation::Register {
            id,
            creator,
            reward_asset,
            reward_amount,
            verifier,
            deadline,
            now,
        } => register_spec(b, id, creator, reward_asset, reward_amount, verifier, deadline, now),
        Operation::RegisterWithMetadata {
            id,
            creator,
            reward_asset,
            reward_amount,
            verifier,
            deadline,
            metadata,
            now,
        } => register_with_metadata_spec(
            b,
            id,
            creator,
            reward_asset,
            reward_amount,
            verifier,
            deadline,
            metadata,
            now,
        ),
        Operation::RegisterBatch { creator, items, now } => register_batch_spec(
            b,
            creator,
            items,
            now,
        ),
        Operation::Pause { id, caller } => admin_status_change_spec(
            b,
            id,
            caller,
            QuestStatus::Paused,
        ),
        Operation::Resume { id, caller } => admin_status_change_spec(
            b,
            id,
            caller,
            QuestStatus::Active,
        ),
        Operation::UpdateMetadata { quest_id, updater, metadata } => update_metadata_spec(
            b,
            quest_id,
            updater,
            metadata,
        ),
        Operation::Submit { quest_id, submitter, proof_hash, now } => submit_spec(
            b,
            quest_id,
            submitter,
            proof_hash,
            now,
        ),
        Operation::Approve { quest_id, submitter, verifier } => approve_spec(
            b,
            quest_id,
            submitter,
            verifier,
        ),
        Operation::ApproveBatch { verifier, approvals } => approve_batch_spec(b, verifier, approvals),
        Operation::GrantAdmin { caller, who } => grant_admin_spec(b, caller, who),
        Operation::SetEscrow { caller, escrow } => set_escrow_spec(b, caller, escrow),
    }
}

/// The board after the operation: a refused operation changes nothing.
pub open spec fn after(b: BoardView, op: Operation) -> BoardView {
    match apply(b, op) {
        Ok(b1) => b1,
        Err(_) => b,
    }
}

/// The board after the operations, in order.
pub open spec fn run(b: BoardView, ops: Seq<Operation>) -> BoardView
    decreases ops.len(),
{
    if ops.len() == 0 {
        b
    } else {
        after(run(b, ops.drop_last()), ops.last())
    }
}

/// Whether the operation resumes the quest named `id`.
pub open spec fn resumes(op: Operation, id: Seq<u8>) -> bool {
    op matches Operation::Resume { id: x, .. } && x == id
}

proof fn lemma_put_escrow(b: BoardView, e: EscrowView)
    requires
        b.wf(),
    ensures
        b.put_escrow(e).wf(),
        b.put_escrow(e).quests == b.quests,
{
    let b1 = b.put_escrow(e);
    if b.has_escrow(e.quest_id) {
        assert forall|a: int, c: int|
            0 <= a < b1.escrows.len() && 0 <= c < b1.escrows.len() && a != c implies
            #[trigger] b1.escrows[a].quest_id != #[trigger] b1.escrows[c].quest_id by {
            assert(b.escrows[a].quest_id == b1.escrows[a].quest_id);
            assert(b.escrows[c].quest_id == b1.escrows[c].quest_id);
        }
    } else {
        let n = b.escrows.len() as int;
        assert forall|a: int, c: int|
            0 <= a < b1.escrows.len() && 0 <= c < b1.escrows.len() && a != c implies
            #[trigger] b1.escrows[a].quest_id != #[trigger] b1.escrows[c].quest_id by {
            if a != n {
                assert(b.escrows[a] == b1.escrows[a]);
            }
            if c != n {
                assert(b.escrows[c] == b1.escrows[c]);
            }
        }
    }
}

/// A board whose quest list is the same finds the same quest under every name.
proof fn lemma_same_quests(b: BoardView, b1: BoardView, id: Seq<u8>)
    requires
        b1.quests == b.quests,
    ensures
        b1.quest(id) == b.quest(id),
{
}

proof fn lemma_register_keeps(
    b: BoardView,
    id: Seq<u8>,
    creator: Seq<u8>,
    reward_asset: Seq<u8>,
    reward_amount: i128,
    verifier: Seq<u8>,
    deadline: u64,
    now: u64,
    x: Seq<u8>,
)
    requires
        b.wf(),
        b.has_quest(x),
    ensures
        register_spec(b, id, creator, reward_asset, reward_amount, verifier, deadline, now) matches Ok(
            b1,
        ) ==> b1.wf() && b1.quest(x) == b.quest(x),
{
    if register_spec(b, id, creator, reward_asset, reward_amount, verifier, deadline, now) is Ok {
        lemma_add_quest_wf(
            b,
            new_quest(id, creator, reward_asset, reward_amount, verifier, deadline),
        );
    }
}

proof fn lemma_register_all_keeps(
    b: BoardView,
    creator: Seq<u8>,
    items: Seq<BatchQuestView>,
    now: u64,
    x: Seq<u8>,
)
    requires
        b.wf(),
        b.has_quest(x),
    ensures
        register_all(b, creator, items, now) matches Ok(b1) ==> b1.wf() && b1.quest(x) == b.quest(
            x,
        ),
    decreases items.len(),
{
    if items.len() > 0 {
        lemma_register_all_keeps(b, creator, items.drop_last(), now, x);
        if let Ok(b2) = register_all(b, creator, items.drop_last(), now) {
            let q = items.last();
            lemma_register_keeps(
                b2,
                q.id,
                creator,
                q.reward_asset,
                q.reward_amount,
                q.verifier,
                q.deadline,
                now,
                x,
            );
        }
    }
}

proof fn lemma_approve_all_keeps(b: BoardView, verifier: Seq<u8>, items: Seq<BatchApprovalView>)
    requires
        b.wf(),
    ensures
        approve_all(b, verifier, items) matches Ok(b1) ==> b1.wf() && b1.quests == b.quests,
    decreases items.len(),
{
    if items.len() > 0 {
        lemma_approve_all_keeps(b, verifier, items.drop_last());
        if let Ok(b2) = approve_all(b, verifier, items.drop_last()) {
            let it = items.last();
            if approve_spec(b2, it.quest_id, it.submitter, verifier) is Ok {
                lemma_submission_status_wf(
                    b2,
                    it.quest_id,
                    it.submitter,
                    SubmissionStatus::Approved,
                );
            }
        }
    }
}

/// Every operation except resuming keeps the board consistent and leaves a paused quest as
/// it was.
pub proof fn lemma_operation_keeps_paused(b: BoardView, op: Operation, id: Seq<u8>)
    requires
        b.wf(),
        b.quest(id) matches Some(q) && q.status == QuestStatus::Paused,
        !resumes(op, id),
    ensures
        after(b, op).wf(),
        after(b, op).quest(id) == b.quest(id),
{
    match op {
        Operation::Register {
            id: nid,
            creator,
            reward_asset,
            reward_amount,
            verifier,
            deadline,
            now,
        } => {
            lemma_register_keeps(
                b,
                nid,
                creator,
                reward_asset,
                reward_amount,
                verifier,
                deadline,
                now,
                id,
            );
        },
        Operation::RegisterWithMetadata {
            id: nid,
            creator,
            reward_asset,
            reward_amount,
            verifier,
            deadline,
            metadata,
            now,
        } => {
            lemma_register_keeps(
                b,
                nid,
                creator,
                reward_asset,
                reward_amount,
                verifier,
                deadline,
                now,
                id,
            );
            if let Ok(b1) = register_spec(
                b,
                nid,
                creator,
                reward_asset,
                reward_amount,
                verifier,
                deadline,
                now,
            ) {
                lemma_put_metadata(b1, nid, metadata);
                lemma_same_quests(b1, b1.put_metadata(nid, metadata), id);
            }
        },
        Operation::RegisterBatch { creator, items, now } => {
            lemma_register_all_keeps(b, creator, items, now, id);
        },
        Operation::Pause { id: x, caller } => {
            if x != id && admin_status_change_spec(b, x, caller, QuestStatus::Paused) is Ok {
                lemma_status_change_wf(b, x, QuestStatus::Paused);
                crate::laws::law_status_change_is_local(b, x, QuestStatus::Paused, id);
            }
        },
        Operation::Resume { id: x, caller } => {
            if admin_status_change_spec(b, x, caller, QuestStatus::Active) is Ok {
                lemma_status_change_wf(b, x, QuestStatus::Active);
                crate::laws::law_status_change_is_local(b, x, QuestStatus::Active, id);
            }
        },
        Operation::UpdateMetadata { quest_id, updater, metadata } => {
            lemma_put_metadata(b, quest_id, metadata);
            lemma_same_quests(b, b.put_metadata(quest_id, metadata), id);
        },
        Operation::Submit { quest_id, submitter, proof_hash, now } => {
            let s = crate::submission::new_submission(quest_id, submitter, proof_hash, now);
            lemma_put_submission(b, s);
            lemma_same_quests(b, b.put_submission(s), id);
        },
        Operation::Approve { quest_id, submitter, verifier } => {
            if approve_spec(b, quest_id, submitter, verifier) is Ok {
                lemma_submission_status_wf(b, quest_id, submitter, SubmissionStatus::Approved);
                lemma_same_quests(
                    b,
                    b.with_submission_status(quest_id, submitter, SubmissionStatus::Approved),
                    id,
                );
            }
        },
        Operation::ApproveBatch { verifier, approvals } => {
            lemma_approve_all_keeps(b, verifier, approvals);
            if let Ok(b1) = approve_all(b, verifier, approvals) {
                lemma_same_quests(b, b1, id);
            }
        },
        Operation::GrantAdmin { caller, who } => {
            lemma_same_quests(b, b.add_admin(who), id);
        },
        Operation::SetEscrow { caller, escrow } => {
            lemma_put_escrow(b, escrow);
            lemma_same_quests(b, b.put_escrow(escrow), id);
        },
    }
}

/// A paused quest stays paused until it is resumed: through any run of operations none of
/// which resumes it, the quest is unchanged, and a proof handed in for it afterwards is
/// refused because the quest is not active.
pub proof fn law_paused_until_resumed(
    b: BoardView,
    ops: Seq<Operation>,
    id: Seq<u8>,
    submitter: Seq<u8>,
    proof_hash: Seq<u8>,
    now: u64,
)
    requires
        b.wf(),
        b.quest(id) matches Some(q) && q.status == QuestStatus::Paused,
        forall|i: int| 0 <= i < ops.len() ==> !resumes(#[trigger] ops[i], id),
    ensures
        run(b, ops).wf(),
        run(b, ops).quest(id) == b.quest(id),
        submit_spec(run(b, ops), id, submitter, proof_hash, now) == Err::<BoardView, Error>(
            Error::QuestNotActive,
        ),
    decreases ops.len(),
{
    if ops.len() > 0 {
        let prefix = ops.drop_last();
        assert forall|i: int| 0 <= i < prefix.len() implies !resumes(#[trigger] prefix[i], id) by {
            assert(prefix[i] == ops[i]);
        }
        law_paused_until_resumed(b, prefix, id, submitter, proof_hash, now);
        assert(!resumes(ops[ops.len() - 1], id));
        lemma_operation_keeps_paused(run(b, prefix), ops.last(), id);
    }
}

} // verus!
