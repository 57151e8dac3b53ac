use vstd::prelude::*;

use crate::errors::{error_code, Error};
use crate::quest::{
    new_quest, query_page, update_metadata_spec, register_all, register_batch_spec, register_spec,
    admin_status_change_spec, status_change_spec, window, select, QuestFilter,
};
use crate::storage::BoardView;
use crate::submission::{
    approve_all, approve_batch_spec, approve_spec, claim_error, new_submission, submit_spec,
    verifier_submits,
};
use crate::types::{
    BatchApprovalView, BatchQuestView, MetadataView, QuestStatus, QuestView, SubmissionStatus,
};
use crate::validation::MAX_QUEST_CLAIMS;

verus! {

/// Changing the status of a quest keeps the board consistent, and the quest keeps its place.
pub proof fn lemma_status_change_wf(b: BoardView, id: Seq<u8>, to: QuestStatus)
    requires
        b.wf(),
        b.has_quest(id),
    ensures
        b.with_quest_status(id, to).wf(),
        b.with_quest_status(id, to).quest_index(id) == b.quest_index(id),
        b.with_quest_status(id, to).quest(id) == Some(
            QuestView { status: to, ..b.quest(id).unwrap() },
        ),
{
    let i = b.quest_index(id);
    let b1 = b.with_quest_status(id, to);
    assert forall|a: int, c: int|
        0 <= a < b1.quests.len() && 0 <= c < b1.quests.len() && a != c implies
        #[trigger] b1.quests[a].id != #[trigger] b1.quests[c].id by {
        assert(b1.quests[a].id == b.quests[a].id);
        assert(b1.quests[c].id == b.quests[c].id);
    }
    b1.lemma_quest_index(id, i);
}

/// Pausing an active quest and then resuming it, both by an administrator, gives back the
/// board as it was.
pub proof fn law_pause_then_resume(b: BoardView, id: Seq<u8>, caller: Seq<u8>)
    requires
        b.wf(),
        b.is_admin(caller),
        b.quest(id) matches Some(q) && q.status == QuestStatus::Active,
    ensures
        admin_status_change_spec(b, id, caller, QuestStatus::Paused) matches Ok(b1)
            && admin_status_change_spec(b1, id, caller, QuestStatus::Active) == Ok::<
            BoardView,
            Error,
        >(b),
{
    let b1 = b.with_quest_status(id, QuestStatus::Paused);
    lemma_status_change_wf(b, id, QuestStatus::Paused);
    assert(b1.admins == b.admins);
    let b2 = b1.with_quest_status(id, QuestStatus::Active);
    assert(b2.quests =~= b.quests);
    assert(b2 == b);
}

/// Resuming a paused quest and then pausing it, both by an administrator, gives back the
/// board as it was.
pub proof fn law_resume_then_pause(b: BoardView, id: Seq<u8>, caller: Seq<u8>)
    requires
        b.wf(),
        b.is_admin(caller),
        b.quest(id) matches Some(q) && q.status == QuestStatus::Paused,
    ensures
        admin_status_change_spec(b, id, caller, QuestStatus::Active) matches Ok(b1)
            && admin_status_change_spec(b1, id, caller, QuestStatus::Paused) == Ok::<
            BoardView,
            Error,
        >(b),
{
    let b1 = b.with_quest_status(id, QuestStatus::Active);
    lemma_status_change_wf(b, id, QuestStatus::Active);
    assert(b1.admins == b.admins);
    let b2 = b1.with_quest_status(id, QuestStatus::Paused);
    assert(b2.quests =~= b.quests);
    assert(b2 == b);
}

/// A quest can be paused exactly when an administrator asks and it is active, and resumed
/// exactly when an administrator asks and it is paused.
pub proof fn law_pause_resume_exactly_when(b: BoardView, id: Seq<u8>, caller: Seq<u8>)
    ensures
        admin_status_change_spec(b, id, caller, QuestStatus::Paused) is Ok <==> (b.is_admin(
            caller,
        ) && (b.quest(id) matches Some(q) && q.status == QuestStatus::Active)),
        admin_status_change_spec(b, id, caller, QuestStatus::Active) is Ok <==> (b.is_admin(
            caller,
        ) && (b.quest(id) matches Some(q) && q.status == QuestStatus::Paused)),
{
}

/// Only administrators pause or resume quests: anyone else who names a registered quest is
/// refused as unauthorized.
pub proof fn law_pause_resume_admin_only(
    b: BoardView,
    id: Seq<u8>,
    caller: Seq<u8>,
    to: QuestStatus,
)
    requires
        b.has_quest(id),
        !b.is_admin(caller),
    ensures
        admin_status_change_spec(b, id, caller, to) == Err::<BoardView, Error>(Error::Unauthorized),
{
}

/// A completed or expired quest never changes status again.
pub proof fn law_terminal_status_is_final(b: BoardView, id: Seq<u8>, to: QuestStatus)
    requires
        b.quest(id) matches Some(q) && (q.status == QuestStatus::Completed || q.status
            == QuestStatus::Expired),
    ensures
        status_change_spec(b, id, to) == Err::<BoardView, Error>(Error::InvalidStatusTransition),
{
}

/// Registering a quest keeps the board consistent.
pub proof fn lemma_add_quest_wf(b: BoardView, q: QuestView)
    requires
        b.wf(),
        !b.has_quest(q.id),
        b.quests.len() < crate::validation::MAX_QUESTS,
    ensures
        b.add_quest(q).wf(),
        b.add_quest(q).quest(q.id) == Some(q),
        forall|x: Seq<u8>| x != q.id ==> #[trigger] b.add_quest(q).quest(x) == b.quest(x),
{
    let b1 = b.add_quest(q);
    let n = b.quests.len() as int;
    assert forall|a: int, c: int|
        0 <= a < b1.quests.len() && 0 <= c < b1.quests.len() && a != c implies
        #[trigger] b1.quests[a].id != #[trigger] b1.quests[c].id by {
        if a == n {
            assert(b.quests[c].id == b1.quests[c].id);
        } else if c == n {
            assert(b.quests[a].id == b1.quests[a].id);
        } else {
            assert(b.quests[a] == b1.quests[a]);
            assert(b.quests[c] == b1.quests[c]);
        }
    }
    b1.lemma_quest_index(q.id, n);
    assert forall|x: Seq<u8>| x != q.id implies #[trigger] b1.quest(x) == b.quest(x) by {
        if b.has_quest(x) {
            let i = b.quest_index(x);
            b1.lemma_quest_index(x, i);
        } else if b1.has_quest(x) {
            let j = b1.quest_index(x);
            assert(j != n);
            assert(b.quests[j].id == x);
        }
    }
}

/// A registered quest is found under its name: active, with no claims and the given values,
/// and every other quest is as it was.
pub proof fn law_register_then_read(
    b: BoardView,
    id: Seq<u8>,
    creator: Seq<u8>,
    reward_asset: Seq<u8>,
    reward_amount: i128,
    verifier: Seq<u8>,
    deadline: u64,
    now: u64,
)
    requires
        b.wf(),
        register_spec(b, id, creator, reward_asset, reward_amount, verifier, deadline, now) is Ok,
    ensures
        register_spec(b, id, creator, reward_asset, reward_amount, verifier, deadline, now) matches Ok(
            b1,
        ) && b1.wf() && b1.quest(id) == Some(
            new_quest(id, creator, reward_asset, reward_amount, verifier, deadline),
        ) && (forall|x: Seq<u8>| x != id ==> #[trigger] b1.quest(x) == b.quest(x)),
{
    lemma_add_quest_wf(b, new_quest(id, creator, reward_asset, reward_amount, verifier, deadline));
}

/// A name cannot be registered twice: once a quest is registered, registering any quest
/// under the same name is refused as a duplicate.
pub proof fn law_register_twice_refused(
    b: BoardView,
    id: Seq<u8>,
    creator: Seq<u8>,
    reward_asset: Seq<u8>,
    reward_amount: i128,
    verifier: Seq<u8>,
    deadline: u64,
    now: u64,
    creator2: Seq<u8>,
    reward_asset2: Seq<u8>,
    reward_amount2: i128,
    verifier2: Seq<u8>,
    deadline2: u64,
    now2: u64,
)
    requires
        b.wf(),
        register_spec(b, id, creator, reward_asset, reward_amount, verifier, deadline, now) is Ok,
    ensures
        register_spec(b, id, creator, reward_asset, reward_amount, verifier, deadline, now) matches Ok(
            b1,
        ) && register_spec(
            b1,
            id,
            creator2,
            reward_asset2,
            reward_amount2,
            verifier2,
            deadline2,
            now2,
        ) == Err::<BoardView, Error>(Error::QuestAlreadyExists),
{
    lemma_add_quest_wf(b, new_quest(id, creator, reward_asset, reward_amount, verifier, deadline));
}

/// A batch of one quest is registered exactly as that quest alone.
pub proof fn law_register_batch_of_one(
    b: BoardView,
    creator: Seq<u8>,
    item: BatchQuestView,
    now: u64,
)
    ensures
        register_batch_spec(b, creator, seq![item], now) == register_spec(
            b,
            item.id,
            creator,
            item.reward_asset,
            item.reward_amount,
            item.verifier,
            item.deadline,
            now,
        ),
{
    let items = seq![item];
    assert(items.drop_last() =~= Seq::<BatchQuestView>::empty());
    assert(register_all(b, creator, items.drop_last(), now) == Ok::<BoardView, Error>(b));
    assert(items.last() == item);
}

/// A batch of one approval is made exactly as that approval alone, when the verifier is not
/// the submitter.
pub proof fn law_approve_batch_of_one(b: BoardView, verifier: Seq<u8>, item: BatchApprovalView)
    requires
        item.submitter != verifier,
    ensures
        approve_batch_spec(b, verifier, seq![item]) == approve_spec(
            b,
            item.quest_id,
            item.submitter,
            verifier,
        ),
{
    let items = seq![item];
    assert(items.drop_last() =~= Seq::<BatchApprovalView>::empty());
    assert(approve_all(b, verifier, items.drop_last()) == Ok::<BoardView, Error>(b));
    assert(items.last() == item);
    assert(!verifier_submits(verifier, items)) by {
        assert forall|i: int| 0 <= i < items.len() implies #[trigger] items[i].submitter != verifier by {
            assert(items[i] == item);
        }
    }
}

/// Setting the status of a submission keeps the board consistent and the submission's place.
pub proof fn lemma_submission_status_wf(
    b: BoardView,
    quest_id: Seq<u8>,
    submitter: Seq<u8>,
    to: SubmissionStatus,
)
    requires
        b.wf(),
        b.has_submission(quest_id, submitter),
    ensures
        b.with_submission_status(quest_id, submitter, to).wf(),
        b.with_submission_status(quest_id, submitter, to).submission(quest_id, submitter) == Some(
            crate::types::SubmissionView {
                status: to,
                ..b.submission(quest_id, submitter).unwrap()
            },
        ),
        b.with_submission_status(quest_id, submitter, to).quests == b.quests,
        b.with_submission_status(quest_id, submitter, to).escrows == b.escrows,
{
    let i = b.submission_index(quest_id, submitter);
    let b1 = b.with_submission_status(quest_id, submitter, to);
    assert forall|a: int, c: int|
        0 <= a < b1.submissions.len() && 0 <= c < b1.submissions.len() && a != c implies
        !crate::storage::same_submission_key(
        #[trigger] b1.submissions[a],
        #[trigger] b1.submissions[c],
    ) by {
        assert(crate::storage::same_submission_key(b.submissions[a], b1.submissions[a]));
        assert(crate::storage::same_submission_key(b.submissions[c], b1.submissions[c]));
    }
    b1.lemma_submission_index(quest_id, submitter, i);
}

/// A submission is approved at most once: after an approval, approving it again is refused.
pub proof fn law_no_double_approval(
    b: BoardView,
    quest_id: Seq<u8>,
    submitter: Seq<u8>,
    verifier: Seq<u8>,
)
    requires
        b.wf(),
        approve_spec(b, quest_id, submitter, verifier) is Ok,
    ensures
        approve_spec(b, quest_id, submitter, verifier) matches Ok(b1) && approve_spec(
            b1,
            quest_id,
            submitter,
            verifier,
        ) == Err::<BoardView, Error>(Error::InvalidStatusTransition),
{
    lemma_submission_status_wf(b, quest_id, submitter, SubmissionStatus::Approved);
}

/// An approved submission can be claimed, unless its quest's claim counter is full.
pub proof fn law_approved_can_be_claimed(
    b: BoardView,
    quest_id: Seq<u8>,
    submitter: Seq<u8>,
    verifier: Seq<u8>,
)
    requires
        b.wf(),
        approve_spec(b, quest_id, submitter, verifier) is Ok,
        b.quest(quest_id).unwrap().total_claims < MAX_QUEST_CLAIMS,
    ensures
        approve_spec(b, quest_id, submitter, verifier) matches Ok(b1) && claim_error(
            b1,
            quest_id,
            submitter,
        ) is None,
{
    lemma_submission_status_wf(b, quest_id, submitter, SubmissionStatus::Approved);
}

/// Storing a submission keeps the board consistent and makes it the one found for its quest
/// and submitter.
pub proof fn lemma_put_submission(b: BoardView, s: crate::types::SubmissionView)
    requires
        b.wf(),
    ensures
        b.put_submission(s).wf(),
        b.put_submission(s).submission(s.quest_id, s.submitter) == Some(s),
        b.put_submission(s).quests == b.quests,
{
    let b1 = b.put_submission(s);
    if b.has_submission(s.quest_id, s.submitter) {
        let i = b.submission_index(s.quest_id, s.submitter);
        assert forall|a: int, c: int|
            0 <= a < b1.submissions.len() && 0 <= c < b1.submissions.len() && a != c implies
            !crate::storage::same_submission_key(
            #[trigger] b1.submissions[a],
            #[trigger] b1.submissions[c],
        ) by {
            assert(crate::storage::same_submission_key(b.submissions[a], b1.submissions[a]));
            assert(crate::storage::same_submission_key(b.submissions[c], b1.submissions[c]));
        }
        b1.lemma_submission_index(s.quest_id, s.submitter, i);
    } else {
        let n = b.submissions.len() as int;
        assert forall|a: int, c: int|
            0 <= a < b1.submissions.len() && 0 <= c < b1.submissions.len() && a != c implies
            !crate::storage::same_submission_key(
            #[trigger] b1.submissions[a],
            #[trigger] b1.submissions[c],
        ) by {
            if a == n {
                assert(b.submissions[c] == b1.submissions[c]);
                if crate::storage::same_submission_key(b1.submissions[a], b1.submissions[c]) {
                    assert(crate::storage::submission_key_is(
                        b.submissions[c],
                        s.quest_id,
                        s.submitter,
                    ));
                }
            } else if c == n {
                assert(b.submissions[a] == b1.submissions[a]);
                if crate::storage::same_submission_key(b1.submissions[a], b1.submissions[c]) {
                    assert(crate::storage::submission_key_is(
                        b.submissions[a],
                        s.quest_id,
                        s.submitter,
                    ));
                }
            } else {
                assert(b.submissions[a] == b1.submissions[a]);
                assert(b.submissions[c] == b1.submissions[c]);
            }
        }
        b1.lemma_submission_index(s.quest_id, s.submitter, n);
    }
}

/// A proof handed in is found as a pending submission stamped with its time, and its reward
/// cannot be claimed before it is approved.
pub proof fn law_submitted_is_pending(
    b: BoardView,
    quest_id: Seq<u8>,
    submitter: Seq<u8>,
    proof_hash: Seq<u8>,
    now: u64,
)
    requires
        b.wf(),
        submit_spec(b, quest_id, submitter, proof_hash, now) is Ok,
    ensures
        submit_spec(b, quest_id, submitter, proof_hash, now) matches Ok(b1) && b1.wf()
            && b1.submission(quest_id, submitter) == Some(
            new_submission(quest_id, submitter, proof_hash, now),
        ) && claim_error(b1, quest_id, submitter) == Some(Error::InvalidStatusTransition),
{
    lemma_put_submission(b, new_submission(quest_id, submitter, proof_hash, now));
}

/// Every quest of a page is one the filter accepts, and a page holds at most `limit` quests.
pub proof fn law_page_matches_filter(
    qs: Seq<QuestView>,
    f: QuestFilter,
    offset: nat,
    limit: nat,
)
    ensures
        query_page(qs, f, offset, limit).len() <= limit,
        forall|k: int|
            0 <= k < query_page(qs, f, offset, limit).len() ==> f.accepts(
                #[trigger] query_page(qs, f, offset, limit)[k],
            ),
{
    let scanned = if qs.len() <= crate::validation::MAX_SCAN_ITERATIONS {
        qs
    } else {
        qs.take(crate::validation::MAX_SCAN_ITERATIONS as int)
    };
    lemma_select_accepts(scanned, f);
}

proof fn lemma_select_accepts(s: Seq<QuestView>, f: QuestFilter)
    ensures
        forall|k: int| 0 <= k < select(s, f).len() ==> f.accepts(#[trigger] select(s, f)[k]),
        select(s, f).len() <= s.len(),
    decreases s.len(),
{
    if s.len() > 0 {
        lemma_select_accepts(s.drop_last(), f);
    }
}

/// Two consecutive pages together are the page that spans both.
pub proof fn law_consecutive_pages(
    qs: Seq<QuestView>,
    f: QuestFilter,
    offset: nat,
    first: nat,
    second: nat,
)
    ensures
        query_page(qs, f, offset, first) + query_page(qs, f, offset + first, second) == query_page(
            qs,
            f,
            offset,
            first + second,
        ),
{
    let scanned = if qs.len() <= crate::validation::MAX_SCAN_ITERATIONS {
        qs
    } else {
        qs.take(crate::validation::MAX_SCAN_ITERATIONS as int)
    };
    let m = select(scanned, f);
    assert(window(m, offset, first) + window(m, offset + first, second) =~= window(
        m,
        offset,
        first + second,
    ));
}

/// Storing metadata keeps the board consistent and makes it the metadata found for the quest.
pub proof fn lemma_put_metadata(b: BoardView, quest_id: Seq<u8>, m: MetadataView)
    requires
        b.wf(),
    ensures
        b.put_metadata(quest_id, m).wf(),
        b.put_metadata(quest_id, m).metadata_of(quest_id) == Some(m),
        b.put_metadata(quest_id, m).quests == b.quests,
{
    let b1 = b.put_metadata(quest_id, m);
    if b.has_metadata(quest_id) {
        let i = b.metadata_index(quest_id);
        assert forall|a: int, c: int|
            0 <= a < b1.metadata.len() && 0 <= c < b1.metadata.len() && a != c implies
            #[trigger] b1.metadata[a].0 != #[trigger] b1.metadata[c].0 by {
            assert(b.metadata[a].0 == b1.metadata[a].0);
            assert(b.metadata[c].0 == b1.metadata[c].0);
        }
        b1.lemma_metadata_index(quest_id, i);
    } else {
        let n = b.metadata.len() as int;
        assert forall|a: int, c: int|
            0 <= a < b1.metadata.len() && 0 <= c < b1.metadata.len() && a != c implies
            #[trigger] b1.metadata[a].0 != #[trigger] b1.metadata[c].0 by {
            if a != n {
                assert(b.metadata[a] == b1.metadata[a]);
            }
            if c != n {
                assert(b.metadata[c] == b1.metadata[c]);
            }
        }
        b1.lemma_metadata_index(quest_id, n);
    }
}

/// Metadata that its quest's creator or an administrator stores is the metadata then found
/// for the quest.
pub proof fn law_metadata_update_then_read(
    b: BoardView,
    quest_id: Seq<u8>,
    updater: Seq<u8>,
    m: MetadataView,
)
    requires
        b.wf(),
        update_metadata_spec(b, quest_id, updater, m) is Ok,
    ensures
        update_metadata_spec(b, quest_id, updater, m) matches Ok(b1) && b1.wf() && b1.metadata_of(
            quest_id,
        ) == Some(m) && b1.quests == b.quests,
{
    lemma_put_metadata(b, quest_id, m);
}

/// Only the creator of a quest or an administrator may change its metadata.
pub proof fn law_metadata_update_authorized(
    b: BoardView,
    quest_id: Seq<u8>,
    updater: Seq<u8>,
    m: MetadataView,
)
    requires
        b.quest(quest_id) matches Some(q) && q.creator != updater && !b.is_admin(updater),
    ensures
        update_metadata_spec(b, quest_id, updater, m) == Err::<BoardView, Error>(Error::Unauthorized),
{
}

/// Changing the status of one quest leaves every other quest as it was.
pub proof fn law_status_change_is_local(b: BoardView, id: Seq<u8>, to: QuestStatus, other: Seq<u8>)
    requires
        b.wf(),
        other != id,
    ensures
        status_change_spec(b, id, to) matches Ok(b1) ==> b1.quest(other) == b.quest(other)
            && b1.submissions == b.submissions && b1.metadata == b.metadata,
{
    if status_change_spec(b, id, to) is Ok {
        let b1 = b.with_quest_status(id, to);
        let i = b.quest_index(id);
        lemma_status_change_wf(b, id, to);
        if b.has_quest(other) {
            let j = b.quest_index(other);
            b1.lemma_quest_index(other, j);
        } else if b1.has_quest(other) {
            let j = b1.quest_index(other);
            assert(b.quests[j].id == b1.quests[j].id);
        }
    }
}

/// Only the verifier of a quest approves its submissions, only pending submissions are
/// approved, and a quest with an escrow only approves what the escrow can pay.
pub proof fn law_approval_is_authorized_and_covered(
    b: BoardView,
    quest_id: Seq<u8>,
    submitter: Seq<u8>,
    verifier: Seq<u8>,
)
    requires
        approve_spec(b, quest_id, submitter, verifier) is Ok,
    ensures
        b.quest(quest_id) matches Some(q) && q.verifier == verifier && (b.escrow(quest_id) matches Some(
            e,
        ) ==> e.active && e.balance >= q.reward_amount),
        b.submission(quest_id, submitter) matches Some(s) && s.status == SubmissionStatus::Pending,
{
}

/// Proofs are only accepted for an active quest, up to its deadline.
pub proof fn law_submission_needs_open_quest(
    b: BoardView,
    quest_id: Seq<u8>,
    submitter: Seq<u8>,
    proof_hash: Seq<u8>,
    now: u64,
)
    requires
        submit_spec(b, quest_id, submitter, proof_hash, now) is Ok,
    ensures
        b.quest(quest_id) matches Some(q) && q.status == QuestStatus::Active && now <= q.deadline,
{
}

/// Whether `a` is `b` with some items left out and the others kept in order.
pub open spec fn is_subsequence(a: Seq<QuestView>, b: Seq<QuestView>) -> bool
    decreases b.len(),
{
    if a.len() == 0 {
        true
    } else if b.len() == 0 {
        false
    } else if a.last() == b.last() {
        is_subsequence(a.drop_last(), b.drop_last())
    } else {
        is_subsequence(a, b.drop_last())
    }
}

/// Leaving out the last item of a subsequence gives a subsequence.
pub proof fn lemma_subsequence_drop_last(a: Seq<QuestView>, b: Seq<QuestView>)
    requires
        a.len() > 0,
        is_subsequence(a, b),
    ensures
        is_subsequence(a.drop_last(), b),
    decreases b.len(),
{
    let a1 = a.drop_last();
    let b1 = b.drop_last();
    if a.last() == b.last() {
        if a1.len() > 0 {
            lemma_subsequence_drop_last(a1, b1);
        }
    } else {
        lemma_subsequence_drop_last(a, b1);
        if a1.len() > 0 && a1.last() == b.last() {
            lemma_subsequence_drop_last(a1, b1);
        }
    }
}

/// The quests a filter accepts form a subsequence of the list.
pub proof fn lemma_select_is_subsequence(s: Seq<QuestView>, f: QuestFilter)
    ensures
        is_subsequence(select(s, f), s),
    decreases s.len(),
{
    if s.len() > 0 {
        let t = select(s.drop_last(), f);
        lemma_select_is_subsequence(s.drop_last(), f);
        if f.accepts(s.last()) {
            assert(t.push(s.last()).drop_last() =~= t);
        } else if t.len() > 0 && t.last() == s.last() {
            lemma_subsequence_drop_last(t, s.drop_last());
        }
    }
}

proof fn lemma_select_nested(s: Seq<QuestView>, narrow: QuestFilter, wide: QuestFilter)
    requires
        forall|q: QuestView| narrow.accepts(q) ==> wide.accepts(q),
    ensures
        select(select(s, wide), narrow) == select(s, narrow),
    decreases s.len(),
{
    if s.len() > 0 {
        let x = s.last();
        let t = select(s.drop_last(), wide);
        lemma_select_nested(s.drop_last(), narrow, wide);
        if wide.accepts(x) {
            assert(t.push(x).drop_last() =~= t);
            assert(t.push(x).last() == x);
        }
    }
}

proof fn lemma_whole_window(m: Seq<QuestView>, limit: nat)
    requires
        limit >= m.len(),
    ensures
        window(m, 0, limit) == m,
{
    assert(window(m, 0, limit) =~= m);
}

/// Widening the reward range never drops a quest: with offset 0 and a limit that covers
/// every quest a query looks at, the quests of a narrower range are exactly those of the
/// wider range's answer that fall in the narrower range, in the same order, and so a
/// subsequence of it.
pub proof fn law_widening_reward_range(
    qs: Seq<QuestView>,
    min1: i128,
    max1: i128,
    min2: i128,
    max2: i128,
    limit: nat,
)
    requires
        min2 <= min1,
        max1 <= max2,
        limit >= qs.len() || limit >= crate::validation::MAX_SCAN_ITERATIONS,
    ensures
        query_page(qs, QuestFilter::RewardRange(min1, max1), 0, limit) == select(
            query_page(qs, QuestFilter::RewardRange(min2, max2), 0, limit),
            QuestFilter::RewardRange(min1, max1),
        ),
        is_subsequence(
            query_page(qs, QuestFilter::RewardRange(min1, max1), 0, limit),
            query_page(qs, QuestFilter::RewardRange(min2, max2), 0, limit),
        ),
{
    let narrow = QuestFilter::RewardRange(min1, max1);
    let wide = QuestFilter::RewardRange(min2, max2);
    let scanned = if qs.len() <= crate::validation::MAX_SCAN_ITERATIONS {
        qs
    } else {
        qs.take(crate::validation::MAX_SCAN_ITERATIONS as int)
    };
    lemma_select_accepts(scanned, narrow);
    lemma_select_accepts(scanned, wide);
    lemma_whole_window(select(scanned, narrow), limit);
    lemma_whole_window(select(scanned, wide), limit);
    lemma_select_nested(scanned, narrow, wide);
    lemma_select_is_subsequence(select(scanned, wide), narrow);
}

/// Each error has its own code.
pub proof fn law_error_codes_distinct(a: Error, b: Error)
    ensures
        error_code(a) == error_code(b) ==> a == b,
{
}

} // verus!
