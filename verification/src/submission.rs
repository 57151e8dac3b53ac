use vstd::prelude::*;

use crate::errors::Error;
use crate::escrow::{escrow_error, validate_sufficient};
use crate::storage::{BoardView, QuestBoard};
use crate::types::{
    batch_approvals_view, submissions_view, Address, BatchApprovalInput, BatchApprovalView,
    QuestStatus, Submission, SubmissionStatus, SubmissionView, Symbol,
};
use crate::validation::{
    expiry_error, submission_transition_allowed, validate_addresses_distinct,
    validate_badge_count, validate_batch_approval_size, validate_quest_claims_limit,
    validate_quest_is_active, validate_quest_not_expired, validate_submission_status_transition,
    MAX_BATCH_APPROVAL_SIZE, MAX_QUEST_CLAIMS,
};

verus! {

/// A new submission: pending, stamped with the time it was made.
pub open spec fn new_submission(
    quest_id: Seq<u8>,
    submitter: Seq<u8>,
    proof_hash: Seq<u8>,
    now: u64,
) -> SubmissionView {
    SubmissionView {
        quest_id,
        submitter,
        proof_hash,
        status: SubmissionStatus::Pending,
        timestamp: now,
    }
}

/// The board after `submitter` hands in a proof for a quest, or why that is refused: the
/// quest must exist, be active and not be past its deadline. The new pending submission
/// replaces any earlier one of the same submitter for the quest.
pub open spec fn submit_spec(
    b: BoardView,
    quest_id: Seq<u8>,
    submitter: Seq<u8>,
    proof_hash: Seq<u8>,
    now: u64,
) -> Result<BoardView, Error> {
    match b.quest(quest_id) {
        None => Err(Error::QuestNotFound),
        Some(q) => if q.status != QuestStatus::Active {
            Err(Error::QuestNotActive)
        } else if expiry_error(q.deadline, now) is Some {
            Err(expiry_error(q.deadline, now).unwrap())
        } else {
            Ok(b.put_submission(new_submission(quest_id, submitter, proof_hash, now)))
        },
    }
}

/// Hands in the proof, by its hash, that `submitter` has done a quest; `now` is the current
/// ledger time.
pub fn submit_proof(
    state: &mut QuestBoard,
    quest_id: &Symbol,
    submitter: &Address,
    proof_hash: &[u8; 32],
    now: u64,
) -> (r: Result<(), Error>)
    requires
        old(state).wf(),
    ensures
        final(state).wf(),
        match submit_spec(old(state)@, quest_id@, submitter@, proof_hash@, now) {
            Ok(b) => r is Ok && final(state)@ == b,
            Err(e) => r == Err::<(), Error>(e) && final(state)@ == old(state)@,
        },
{
    let i = match state.find_quest(quest_id) {
        Some(i) => i,
        None => return Err(Error::QuestNotFound),
    };
    let quest = state.quest_at(i);
    validate_quest_is_active(quest.status)?;
    validate_quest_not_expired(quest.deadline, now)?;
    validate_badge_count(0)?;
    let submission = Submission {
        quest_id: quest_id.duplicate(),
        submitter: submitter.duplicate(),
        proof_hash: *proof_hash,
        status: SubmissionStatus::Pending,
        timestamp: now,
    };
    state.put_submission(submission);
    Ok(())
}

/// The board after `verifier` approves the submission of `submitter` for a quest, or why that
/// is refused: the quest must exist and have `verifier` as its verifier, the submission must
/// exist and be pending, and an escrow of the quest, if there is one, must cover the reward.
pub open spec fn approve_spec(
    b: BoardView,
    quest_id: Seq<u8>,
    submitter: Seq<u8>,
    verifier: Seq<u8>,
) -> Result<BoardView, Error> {
    match b.quest(quest_id) {
        None => Err(Error::QuestNotFound),
        Some(q) => if verifier != q.verifier {
            Err(Error::Unauthorized)
        } else {
            match b.submission(quest_id, submitter) {
                None => Err(Error::SubmissionNotFound),
                Some(s) => if !submission_transition_allowed(s.status, SubmissionStatus::Approved) {
                    Err(Error::InvalidStatusTransition)
                } else if b.has_escrow(quest_id) && escrow_error(
                    b,
                    quest_id,
                    q.reward_amount,
                ) is Some {
                    Err(escrow_error(b, quest_id, q.reward_amount).unwrap())
                } else {
                    Ok(b.with_submission_status(quest_id, submitter, SubmissionStatus::Approved))
                },
            }
        },
    }
}

/// Approves one pending submission.
pub fn approve_submission(
    state: &mut QuestBoard,
    quest_id: &Symbol,
    submitter: &Address,
    verifier: &Address,
) -> (r: Result<(), Error>)
    requires
        old(state).wf(),
    ensures
        final(state).wf(),
        match approve_spec(old(state)@, quest_id@, submitter@, verifier@) {
            Ok(b) => r is Ok && final(state)@ == b,
            Err(e) => r == Err::<(), Error>(e) && final(state)@ == old(state)@,
        },
{
    let qi = match state.find_quest(quest_id) {
        Some(i) => i,
        None => return Err(Error::QuestNotFound),
    };
    if !verifier.same_as(&state.quest_at(qi).verifier) {
        return Err(Error::Unauthorized);
    }
    let reward_amount = state.quest_at(qi).reward_amount;
    let si = match state.find_submission(quest_id, submitter) {
        Some(i) => i,
        None => return Err(Error::SubmissionNotFound),
    };
    validate_submission_status_transition(
        state.submission_at(si).status,
        SubmissionStatus::Approved,
    )?;
    if state.find_escrow(quest_id).is_some() {
        validate_sufficient(state, quest_id, reward_amount)?;
    }
    state.set_submission_status(si, SubmissionStatus::Approved);
    Ok(())
}

/// Why the reward of the submission of `submitter` for a quest cannot be claimed, if it
/// cannot: the quest or the submission is missing, the reward was already paid, the
/// submission is not approved, or the quest's claim counter is full; checked in this order.
pub open spec fn claim_error(b: BoardView, quest_id: Seq<u8>, submitter: Seq<u8>) -> Option<Error> {
    match b.quest(quest_id) {
        None => Some(Error::QuestNotFound),
        Some(q) => match b.submission(quest_id, submitter) {
            None => Some(Error::SubmissionNotFound),
            Some(s) => if s.status == SubmissionStatus::Paid {
                Some(Error::AlreadyClaimed)
            } else if !submission_transition_allowed(s.status, SubmissionStatus::Paid) {
                Some(Error::InvalidStatusTransition)
            } else if q.total_claims >= MAX_QUEST_CLAIMS {
                Some(Error::AmountTooLarge)
            } else {
                None
            },
        },
    }
}

/// Checks that the reward of the submission of `submitter` for a quest can be claimed.
pub fn validate_claim(state: &QuestBoard, quest_id: &Symbol, submitter: &Address) -> (r: Result<
    (),
    Error,
>)
    requires
        state.wf(),
    ensures
        match claim_error(state@, quest_id@, submitter@) {
            Some(e) => r == Err::<(), Error>(e),
            None => r is Ok,
        },
{
    let qi = match state.find_quest(quest_id) {
        Some(i) => i,
        None => return Err(Error::QuestNotFound),
    };
    let si = match state.find_submission(quest_id, submitter) {
        Some(i) => i,
        None => return Err(Error::SubmissionNotFound),
    };
    let status = state.submission_at(si).status;
    if status == SubmissionStatus::Paid {
        return Err(Error::AlreadyClaimed);
    }
    validate_submission_status_transition(status, SubmissionStatus::Paid)?;
    validate_quest_claims_limit(state.quest_at(qi).total_claims)?;
    Ok(())
}

/// The board after approving the submissions of a batch in order, or the first refusal.
pub open spec fn approve_all(
    b: BoardView,
    verifier: Seq<u8>,
    items: Seq<BatchApprovalView>,
) -> Result<BoardView, Error>
    decreases items.len(),
{
    if items.len() == 0 {
        Ok(b)
    } else {
        match approve_all(b, verifier, items.drop_last()) {
            Err(e) => Err(e),
            Ok(b2) => approve_spec(b2, items.last().quest_id, items.last().submitter, verifier),
        }
    }
}

/// Whether the verifier is the submitter of some item of the batch.
pub open spec fn verifier_submits(verifier: Seq<u8>, items: Seq<BatchApprovalView>) -> bool {
    exists|i: int| 0 <= i < items.len() && #[trigger] items[i].submitter == verifier
}

/// The board after a batch approval, or why the batch is refused: it is too large, the
/// verifier approves its own submission, or one of its approvals is refused.
pub open spec fn approve_batch_spec(
    b: BoardView,
    verifier: Seq<u8>,
    items: Seq<BatchApprovalView>,
) -> Result<BoardView, Error> {
    if items.len() > MAX_BATCH_APPROVAL_SIZE {
        Err(Error::ArrayTooLong)
    } else if verifier_submits(verifier, items) {
        Err(Error::InvalidAddress)
    } else {
        approve_all(b, verifier, items)
    }
}

/// Once a prefix of a batch is refused, the whole batch is refused with the same error.
proof fn lemma_approve_all_err(
    b: BoardView,
    verifier: Seq<u8>,
    items: Seq<BatchApprovalView>,
    k: int,
)
    requires
        0 <= k <= items.len(),
        approve_all(b, verifier, items.take(k)) is Err,
    ensures
        approve_all(b, verifier, items) == approve_all(b, verifier, items.take(k)),
    decreases items.len() - k,
{
    if k < items.len() {
        assert(items.take(k + 1).drop_last() =~= items.take(k));
        lemma_approve_all_err(b, verifier, items, k + 1);
    } else {
        assert(items.take(k) =~= items);
    }
}

/// Approves every submission of the batch, in order, for the one `verifier`; if one approval
/// is refused, none is made.
pub fn approve_submissions_batch(
    state: &mut QuestBoard,
    verifier: &Address,
    submissions: &Vec<BatchApprovalInput>,
) -> (r: Result<(), Error>)
    requires
        old(state).wf(),
    ensures
        final(state).wf(),
        match approve_batch_spec(old(state)@, verifier@, batch_approvals_view(submissions@)) {
            Ok(b) => r is Ok && final(state)@ == b,
            Err(e) => r == Err::<(), Error>(e) && final(state)@ == old(state)@,
        },
{
    let len = submissions.len();
    validate_batch_approval_size(len)?;
    let ghost items = batch_approvals_view(submissions@);
    let mut i: usize = 0;
    while i < len
        invariant
            len == submissions@.len(),
            items == batch_approvals_view(submissions@),
            len <= MAX_BATCH_APPROVAL_SIZE,
            i <= len,
            state.wf(),
            state@ == old(state)@,
            forall|j: int| 0 <= j < i ==> items[j].submitter != verifier@,
        decreases len - i,
    {
        assert(items[i as int].submitter == submissions@[i as int].submitter@);
        validate_addresses_distinct(verifier, &submissions[i].submitter)?;
        i = i + 1;
    }
    assert(!verifier_submits(verifier@, items));
    let ghost start = state@;
    let saved = state.copy_submissions();
    let mut i: usize = 0;
    assert(items.take(0) =~= Seq::<BatchApprovalView>::empty());
    while i < len
        invariant
            len == submissions@.len(),
            len <= MAX_BATCH_APPROVAL_SIZE,
            items == batch_approvals_view(submissions@),
            !verifier_submits(verifier@, items),
            i <= len,
            state.wf(),
            start == old(state)@,
            start.wf(),
            submissions_view(saved@) == start.submissions,
            approve_all(start, verifier@, items.take(i as int)) == Ok::<BoardView, Error>(state@),
            state@ == (BoardView { submissions: state@.submissions, ..start }),
        decreases len - i,
    {
        let s = &submissions[i];
        assert(items.take(i + 1).drop_last() =~= items.take(i as int));
        match approve_submission(state, &s.quest_id, &s.submitter, verifier) {
            Ok(()) => {},
            Err(e) => {
                assert(approve_all(start, verifier@, items.take(i + 1)) == Err::<
                    BoardView,
                    Error,
                >(e));
                proof {
                    lemma_approve_all_err(start, verifier@, items, i + 1);
                }
                assert((BoardView { submissions: submissions_view(saved@), ..state@ }) == start);
                state.replace_submissions(saved);
                assert(state@ == start);
                return Err(e);
            },
        }
        i = i + 1;
    }
    assert(items.take(len as int) =~= items);
    Ok(())
}

} // verus!
