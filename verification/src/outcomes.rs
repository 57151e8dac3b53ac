//! When each operation succeeds and what it leaves, stated over the inputs and the board in
//! plain terms.
use vstd::prelude::*;

use crate::errors::Error;
use crate::laws::{
    lemma_add_quest_wf, lemma_put_metadata, lemma_put_submission, lemma_submission_status_wf,
};
use crate::quest::{
    admin_status_change_spec, metadata_error, register_with_metadata_spec, query_page, register_all, register_batch_spec, register_spec, select,
    update_metadata_spec, window, QuestFilter, MAX_METADATA_CATEGORY_LEN,
    MAX_METADATA_INLINE_DESCRIPTION_LEN, MAX_METADATA_REQUIREMENTS, MAX_METADATA_REQUIREMENT_LEN,
    MAX_METADATA_TAGS, MAX_METADATA_TAG_LEN, MAX_METADATA_TITLE_LEN,
};
use crate::admin::{grant_admin_spec, set_escrow_spec};
use crate::escrow::escrow_error;
use crate::laws::{is_subsequence, lemma_select_is_subsequence, lemma_status_change_wf, lemma_subsequence_drop_last};
use crate::storage::BoardView;
use crate::submission::{
    approve_all, approve_batch_spec, approve_spec, claim_error, submit_spec,
};
use crate::types::{
    BatchApprovalView, BatchQuestView, DescriptionView, EscrowView, MetadataView, QuestStatus, QuestView,
    SubmissionStatus, SubmissionView,
};
use crate::validation::{
    MAX_BATCH_APPROVAL_SIZE, MAX_BATCH_QUEST_SIZE, MAX_QUESTS, MAX_QUEST_CLAIMS,
    MAX_REWARD_AMOUNT, MAX_SCAN_ITERATIONS, MAX_SYMBOL_LENGTH,
};

verus! {

/// Whether `q` is one of the quests a query looks at: among the first
/// `MAX_SCAN_ITERATIONS` registered.
pub open spec fn scanned_contains(qs: Seq<QuestView>, q: QuestView) -> bool {
    exists|i: int| 0 <= i < qs.len() && i < MAX_SCAN_ITERATIONS && qs[i] == q
}

proof fn lemma_select_contains(s: Seq<QuestView>, f: QuestFilter)
    ensures
        forall|q: QuestView| select(s, f).contains(q) <==> (s.contains(q) && f.accepts(q)),
        forall|k: int| 0 <= k < select(s, f).len() ==> f.accepts(#[trigger] select(s, f)[k]),
        select(s, f).len() <= s.len(),
    decreases s.len(),
{
    if s.len() > 0 {
        let s1 = s.drop_last();
        let x = s.last();
        lemma_select_contains(s1, f);
        let t = select(s1, f);
        assert forall|q: QuestView| select(s, f).contains(q) <==> (s.contains(q) && f.accepts(q)) by {
            if s.contains(q) && f.accepts(q) {
                let i = choose|i: int| 0 <= i < s.len() && s[i] == q;
                if i < s1.len() {
                    assert(s1[i] == q);
                    assert(t.contains(q));
                    let j = choose|j: int| 0 <= j < t.len() && t[j] == q;
                    if f.accepts(x) {
                        assert(t.push(x)[j] == q);
                    }
                } else {
                    assert(q == x);
                    assert(t.push(x)[t.len() as int] == q);
                }
            }
            if select(s, f).contains(q) {
                let j = choose|j: int| 0 <= j < select(s, f).len() && select(s, f)[j] == q;
                if f.accepts(x) && j == t.len() {
                    assert(s[s.len() - 1] == q);
                } else {
                    assert(t[j] == q);
                    assert(t.contains(q));
                    let i = choose|i: int| 0 <= i < s1.len() && s1[i] == q;
                    assert(s[i] == q);
                }
            }
        }
        assert forall|k: int| 0 <= k < select(s, f).len() implies f.accepts(
            #[trigger] select(s, f)[k],
        ) by {
            if f.accepts(x) && k == t.len() {
            } else {
                assert(select(s, f)[k] == t[k]);
            }
        }
    }
}

/// The quests a query looks at, as a list.
pub open spec fn scanned(qs: Seq<QuestView>) -> Seq<QuestView> {
    if qs.len() <= MAX_SCAN_ITERATIONS {
        qs
    } else {
        qs.take(MAX_SCAN_ITERATIONS as int)
    }
}

proof fn lemma_scanned_contains(qs: Seq<QuestView>)
    ensures
        forall|q: QuestView| scanned(qs).contains(q) <==> scanned_contains(qs, q),
        scanned(qs).len() <= MAX_SCAN_ITERATIONS,
{
    let s = scanned(qs);
    assert forall|q: QuestView| s.contains(q) <==> scanned_contains(qs, q) by {
        if s.contains(q) {
            let i = choose|i: int| 0 <= i < s.len() && s[i] == q;
            assert(qs[i] == q);
        }
        if scanned_contains(qs, q) {
            let i = choose|i: int| 0 <= i < qs.len() && i < MAX_SCAN_ITERATIONS && qs[i] == q;
            assert(s[i] == q);
        }
    }
}

/// What every page holds, and what a page from the start that is large enough holds, for a
/// filter: the page holds only quests the filter accepts, and a whole page holds exactly the
/// scanned quests the filter accepts.
proof fn lemma_page_members(qs: Seq<QuestView>, f: QuestFilter, offset: nat, limit: nat)
    ensures
        query_page(qs, f, offset, limit).len() <= limit,
        forall|k: int|
            0 <= k < query_page(qs, f, offset, limit).len() ==> f.accepts(
                #[trigger] query_page(qs, f, offset, limit)[k],
            ) && scanned_contains(qs, query_page(qs, f, offset, limit)[k]),
        offset == 0 && limit >= MAX_SCAN_ITERATIONS ==> forall|q: QuestView|
            query_page(qs, f, offset, limit).contains(q) <==> (scanned_contains(qs, q)
                && f.accepts(q)),
{
    let m = select(scanned(qs), f);
    lemma_select_contains(scanned(qs), f);
    lemma_scanned_contains(qs);
    let p = query_page(qs, f, offset, limit);
    assert(p == window(m, offset, limit));
    assert forall|k: int| 0 <= k < p.len() implies f.accepts(#[trigger] p[k]) && scanned_contains(
        qs,
        p[k],
    ) by {
        assert(p[k] == m[offset + k]);
        assert(m.contains(m[offset + k]));
    }
    if offset == 0 && limit >= MAX_SCAN_ITERATIONS {
        assert(p =~= m);
    }
}

/// A creator query lists only quests of that creator, never one that someone else created
/// (whoever verifies it); from the start with a limit of at least `MAX_SCAN_ITERATIONS`, it
/// lists every scanned quest of that creator.
pub proof fn law_creator_query_lists_that_creator(
    qs: Seq<QuestView>,
    creator: Seq<u8>,
    offset: nat,
    limit: nat,
)
    ensures
        forall|k: int|
            0 <= k < query_page(qs, QuestFilter::Creator(creator), offset, limit).len()
                ==> (#[trigger] query_page(qs, QuestFilter::Creator(creator), offset, limit)[k]).creator
                == creator,
        offset == 0 && limit >= MAX_SCAN_ITERATIONS ==> forall|q: QuestView|
            query_page(qs, QuestFilter::Creator(creator), offset, limit).contains(q) <==> (
            scanned_contains(qs, q) && q.creator == creator),
{
    lemma_page_members(qs, QuestFilter::Creator(creator), offset, limit);
}

/// A status query lists only quests with that status; from the start with a limit of at
/// least `MAX_SCAN_ITERATIONS`, it lists every scanned quest with that status.
pub proof fn law_status_query_lists_that_status(
    qs: Seq<QuestView>,
    status: QuestStatus,
    offset: nat,
    limit: nat,
)
    ensures
        forall|k: int|
            0 <= k < query_page(qs, QuestFilter::Status(status), offset, limit).len()
                ==> (#[trigger] query_page(qs, QuestFilter::Status(status), offset, limit)[k]).status
                == status,
        offset == 0 && limit >= MAX_SCAN_ITERATIONS ==> forall|q: QuestView|
            query_page(qs, QuestFilter::Status(status), offset, limit).contains(q) <==> (
            scanned_contains(qs, q) && q.status == status),
{
    lemma_page_members(qs, QuestFilter::Status(status), offset, limit);
}

/// A reward query lists only quests whose reward lies between the bounds, both included;
/// from the start with a limit of at least `MAX_SCAN_ITERATIONS`, it lists every scanned
/// quest whose reward lies there.
pub proof fn law_reward_query_lists_that_range(
    qs: Seq<QuestView>,
    min: i128,
    max: i128,
    offset: nat,
    limit: nat,
)
    ensures
        forall|k: int|
            0 <= k < query_page(qs, QuestFilter::RewardRange(min, max), offset, limit).len() ==> {
                let q = #[trigger] query_page(
                    qs,
                    QuestFilter::RewardRange(min, max),
                    offset,
                    limit,
                )[k];
                min <= q.reward_amount && q.reward_amount <= max
            },
        offset == 0 && limit >= MAX_SCAN_ITERATIONS ==> forall|q: QuestView|
            query_page(qs, QuestFilter::RewardRange(min, max), offset, limit).contains(q) <==> (
            scanned_contains(qs, q) && min <= q.reward_amount && q.reward_amount <= max),
{
    lemma_page_members(qs, QuestFilter::RewardRange(min, max), offset, limit);
}

/// A page is a slice of the whole answer: with offset `offset` and limit `limit`, it holds
/// the quests of the answer from the start (with a limit of at least `MAX_SCAN_ITERATIONS`)
/// at positions `offset`, `offset + 1`, ..., as many as there are, up to `limit`.
pub proof fn law_page_is_slice_of_whole_answer(
    qs: Seq<QuestView>,
    f: QuestFilter,
    offset: nat,
    limit: nat,
    whole_limit: nat,
)
    requires
        whole_limit >= MAX_SCAN_ITERATIONS,
    ensures
        ({
            let whole = query_page(qs, f, 0, whole_limit);
            let page = query_page(qs, f, offset, limit);
            &&& page.len() == if offset >= whole.len() {
                0
            } else if offset + limit >= whole.len() {
                (whole.len() - offset) as nat
            } else {
                limit
            }
            &&& forall|k: int| 0 <= k < page.len() ==> #[trigger] page[k] == whole[offset + k]
        }),
{
    let m = select(scanned(qs), f);
    lemma_select_contains(scanned(qs), f);
    lemma_scanned_contains(qs);
    assert(query_page(qs, f, 0, whole_limit) =~= m);
}

//================================================================================
// Registration
//================================================================================

/// A quest registers exactly when its name has at most `MAX_SYMBOL_LENGTH` bytes and is not
/// taken, its reward is positive and at most `MAX_REWARD_AMOUNT`, its deadline is later than
/// `now`, its creator is not its verifier and the board is not full. Then the quest found
/// under its name is active, has no claims and holds the given values, and every other quest
/// is as it was.
pub proof fn law_register_exactly_when(
    b: BoardView,
    id: Seq<u8>,
    creator: Seq<u8>,
    reward_asset: Seq<u8>,
    reward_amount: i128,
    verifier: Seq<u8>,
    deadline: u64,
    now: u64,
)
    requires
        b.wf(),
    ensures
        register_spec(b, id, creator, reward_asset, reward_amount, verifier, deadline, now) is Ok
            <==> (id.len() <= MAX_SYMBOL_LENGTH && !b.has_quest(id) && 0 < reward_amount
            && reward_amount <= MAX_REWARD_AMOUNT && now < deadline && creator != verifier
            && b.quests.len() < MAX_QUESTS),
        register_spec(b, id, creator, reward_asset, reward_amount, verifier, deadline, now) matches Ok(
            b1,
        ) ==> {
            &&& b1.wf()
            &&& b1.quest(id) == Some(
                QuestView {
                    id,
                    creator,
                    reward_asset,
                    reward_amount,
                    verifier,
                    deadline,
                    status: QuestStatus::Active,
                    total_claims: 0,
                },
            )
            &&& b1.quests.len() == b.quests.len() + 1
            &&& forall|x: Seq<u8>| x != id ==> #[trigger] b1.quest(x) == b.quest(x)
        },
{
    if register_spec(b, id, creator, reward_asset, reward_amount, verifier, deadline, now) is Ok {
        lemma_add_quest_wf(
            b,
            crate::quest::new_quest(id, creator, reward_asset, reward_amount, verifier, deadline),
        );
    }
}

/// The quest that a batch item registers.
pub open spec fn batch_item_quest(creator: Seq<u8>, item: BatchQuestView) -> QuestView {
    QuestView {
        id: item.id,
        creator,
        reward_asset: item.reward_asset,
        reward_amount: item.reward_amount,
        verifier: item.verifier,
        deadline: item.deadline,
        status: QuestStatus::Active,
        total_claims: 0,
    }
}

proof fn lemma_register_all_items(
    b: BoardView,
    creator: Seq<u8>,
    items: Seq<BatchQuestView>,
    now: u64,
)
    requires
        b.wf(),
    ensures
        register_all(b, creator, items, now) matches Ok(b1) ==> {
            &&& b1.wf()
            &&& b1.quests.len() == b.quests.len() + items.len()
            &&& forall|k: int|
                0 <= k < items.len() ==> b1.quest((#[trigger] items[k]).id) == Some(
                    batch_item_quest(creator, items[k]),
                )
            &&& forall|x: Seq<u8>| b.has_quest(x) ==> #[trigger] b1.quest(x) == b.quest(x)
        },
    decreases items.len(),
{
    if items.len() > 0 {
        let init = items.drop_last();
        lemma_register_all_items(b, creator, init, now);
        if let Ok(b2) = register_all(b, creator, init, now) {
            let q = items.last();
            if let Ok(b1) = register_spec(
                b2,
                q.id,
                creator,
                q.reward_asset,
                q.reward_amount,
                q.verifier,
                q.deadline,
                now,
            ) {
                lemma_add_quest_wf(b2, batch_item_quest(creator, q));
                assert forall|k: int| 0 <= k < items.len() implies b1.quest(
                    (#[trigger] items[k]).id,
                ) == Some(batch_item_quest(creator, items[k])) by {
                    if k < items.len() - 1 {
                        assert(init[k] == items[k]);
                        assert(b2.quest(init[k].id) is Some);
                        assert(items[k].id != q.id);
                    }
                }
                assert forall|x: Seq<u8>| b.has_quest(x) implies #[trigger] b1.quest(x) == b.quest(
                    x,
                ) by {
                    assert(b2.quest(x) == b.quest(x));
                    assert(x != q.id);
                }
            }
        }
    }
}

/// A batch registers every one of its items: after a successful batch, the quest found under
/// each item's name is active, has no claims, has the batch's creator and the item's own
/// reward, verifier and deadline; the board holds one more quest for each item; and every
/// quest that was registered before is as it was.
pub proof fn law_batch_registers_every_item(
    b: BoardView,
    creator: Seq<u8>,
    items: Seq<BatchQuestView>,
    now: u64,
)
    requires
        b.wf(),
    ensures
        register_batch_spec(b, creator, items, now) matches Ok(b1) ==> {
            &&& b1.wf()
            &&& items.len() <= MAX_BATCH_QUEST_SIZE
            &&& b1.quests.len() == b.quests.len() + items.len()
            &&& forall|k: int|
                0 <= k < items.len() ==> b1.quest((#[trigger] items[k]).id) == Some(
                    QuestView {
                        id: items[k].id,
                        creator,
                        reward_asset: items[k].reward_asset,
                        reward_amount: items[k].reward_amount,
                        verifier: items[k].verifier,
                        deadline: items[k].deadline,
                        status: QuestStatus::Active,
                        total_claims: 0,
                    },
                )
            &&& forall|x: Seq<u8>| b.has_quest(x) ==> #[trigger] b1.quest(x) == b.quest(x)
        },
{
    lemma_register_all_items(b, creator, items, now);
}

//================================================================================
// Metadata
//================================================================================

/// Metadata is accepted exactly when its title has at most `MAX_METADATA_TITLE_LEN` bytes,
/// its category at most `MAX_METADATA_CATEGORY_LEN`, it has at most `MAX_METADATA_TAGS` tags
/// of at most `MAX_METADATA_TAG_LEN` bytes each, at most `MAX_METADATA_REQUIREMENTS`
/// requirements of at most `MAX_METADATA_REQUIREMENT_LEN` bytes each, and an inline
/// description of at most `MAX_METADATA_INLINE_DESCRIPTION_LEN` bytes; what it refuses is a
/// string too long or a list too long.
pub proof fn law_metadata_accepted_exactly_when(m: MetadataView)
    ensures
        metadata_error(m) is None <==> {
            &&& m.title.len() <= MAX_METADATA_TITLE_LEN
            &&& m.category.len() <= MAX_METADATA_CATEGORY_LEN
            &&& m.tags.len() <= MAX_METADATA_TAGS
            &&& forall|i: int| 0 <= i < m.tags.len() ==> (#[trigger] m.tags[i]).len()
                <= MAX_METADATA_TAG_LEN
            &&& m.requirements.len() <= MAX_METADATA_REQUIREMENTS
            &&& forall|i: int| 0 <= i < m.requirements.len() ==> (
            #[trigger] m.requirements[i]).len() <= MAX_METADATA_REQUIREMENT_LEN
            &&& m.description matches DescriptionView::Inline(d) ==> d.len()
                <= MAX_METADATA_INLINE_DESCRIPTION_LEN
        },
        metadata_error(m) matches Some(e) ==> e == Error::StringTooLong || e
            == Error::ArrayTooLong,
{
}

/// A metadata update succeeds exactly when the quest exists, the updater is its creator or an
/// administrator, and the metadata is accepted; then the quest's metadata is the given one
/// and no quest changes.
pub proof fn law_metadata_update_exactly_when(
    b: BoardView,
    quest_id: Seq<u8>,
    updater: Seq<u8>,
    m: MetadataView,
)
    requires
        b.wf(),
    ensures
        update_metadata_spec(b, quest_id, updater, m) is Ok <==> (b.quest(quest_id) matches Some(q)
            && (q.creator == updater || b.is_admin(updater)) && metadata_error(m) is None),
        update_metadata_spec(b, quest_id, updater, m) matches Ok(b1) ==> b1.wf()
            && b1.metadata_of(quest_id) == Some(m) && b1.quests == b.quests,
{
    lemma_put_metadata(b, quest_id, m);
}

//================================================================================
// Submissions
//================================================================================

proof fn lemma_put_submission_others(
    b: BoardView,
    s: SubmissionView,
    quest_id: Seq<u8>,
    submitter: Seq<u8>,
)
    requires
        b.wf(),
        !(quest_id == s.quest_id && submitter == s.submitter),
    ensures
        b.put_submission(s).submission(quest_id, submitter) == b.submission(quest_id, submitter),
{
    let b1 = b.put_submission(s);
    lemma_put_submission(b, s);
    let n = b.submissions.len() as int;
    if b.has_submission(quest_id, submitter) {
        let i = b.submission_index(quest_id, submitter);
        if b.has_submission(s.quest_id, s.submitter) {
            let j = b.submission_index(s.quest_id, s.submitter);
            assert(i != j);
        }
        assert(b1.submissions[i] == b.submissions[i]);
        b1.lemma_submission_index(quest_id, submitter, i);
    } else if b1.has_submission(quest_id, submitter) {
        let j = b1.submission_index(quest_id, submitter);
        if b.has_submission(s.quest_id, s.submitter) {
            let k = b.submission_index(s.quest_id, s.submitter);
            if j != k {
                assert(b.submissions[j] == b1.submissions[j]);
            }
        } else if j != n {
            assert(b.submissions[j] == b1.submissions[j]);
        }
    }
}

proof fn lemma_submission_status_others(
    b: BoardView,
    quest_id: Seq<u8>,
    submitter: Seq<u8>,
    status: SubmissionStatus,
    q2: Seq<u8>,
    w2: Seq<u8>,
)
    requires
        b.wf(),
        b.has_submission(quest_id, submitter),
        !(q2 == quest_id && w2 == submitter),
    ensures
        b.with_submission_status(quest_id, submitter, status).submission(q2, w2) == b.submission(
            q2,
            w2,
        ),
{
    let b1 = b.with_submission_status(quest_id, submitter, status);
    lemma_submission_status_wf(b, quest_id, submitter, status);
    let j = b.submission_index(quest_id, submitter);
    if b.has_submission(q2, w2) {
        let i = b.submission_index(q2, w2);
        assert(i != j);
        assert(b1.submissions[i] == b.submissions[i]);
        b1.lemma_submission_index(q2, w2, i);
    } else if b1.has_submission(q2, w2) {
        let i = b1.submission_index(q2, w2);
        if i != j {
            assert(b.submissions[i] == b1.submissions[i]);
        }
    }
}

/// A proof is accepted exactly when its quest exists, is active and `now` is not past the
/// deadline, whatever submission the submitter already has for the quest. Then the
/// submitter's submission for the quest is a pending one with the given hash and time, every
/// other submission and every quest is as it was.
pub proof fn law_submit_exactly_when(
    b: BoardView,
    quest_id: Seq<u8>,
    submitter: Seq<u8>,
    proof_hash: Seq<u8>,
    now: u64,
)
    requires
        b.wf(),
    ensures
        submit_spec(b, quest_id, submitter, proof_hash, now) is Ok <==> (b.quest(quest_id) matches Some(
            q,
        ) && q.status == QuestStatus::Active && now <= q.deadline),
        submit_spec(b, quest_id, submitter, proof_hash, now) matches Ok(b1) ==> {
            &&& b1.wf()
            &&& b1.submission(quest_id, submitter) == Some(
                SubmissionView {
                    quest_id,
                    submitter,
                    proof_hash,
                    status: SubmissionStatus::Pending,
                    timestamp: now,
                },
            )
            &&& b1.quests == b.quests
            &&& forall|q2: Seq<u8>, w2: Seq<u8>|
                !(q2 == quest_id && w2 == submitter) ==> #[trigger] b1.submission(q2, w2)
                    == b.submission(q2, w2)
        },
{
    let s = crate::submission::new_submission(quest_id, submitter, proof_hash, now);
    lemma_put_submission(b, s);
    assert forall|q2: Seq<u8>, w2: Seq<u8>| !(q2 == quest_id && w2 == submitter) implies #[trigger] b.put_submission(
        s,
    ).submission(q2, w2) == b.submission(q2, w2) by {
        lemma_put_submission_others(b, s, q2, w2);
    }
}

/// An approval is made exactly when the quest exists and has the approver as its verifier,
/// the submission exists and is pending, and an escrow of the quest, if there is one, is
/// active and holds at least the reward; the quest's status plays no part. Then the
/// submission is approved and otherwise unchanged, and every quest, escrow and other
/// submission is as it was.
pub proof fn law_approve_exactly_when(
    b: BoardView,
    quest_id: Seq<u8>,
    submitter: Seq<u8>,
    verifier: Seq<u8>,
)
    requires
        b.wf(),
    ensures
        approve_spec(b, quest_id, submitter, verifier) is Ok <==> (b.quest(quest_id) matches Some(
            q,
        ) && q.verifier == verifier && (b.submission(quest_id, submitter) matches Some(s)
            && s.status == SubmissionStatus::Pending) && (b.escrow(quest_id) matches Some(e)
            ==> e.active && e.balance >= q.reward_amount)),
        approve_spec(b, quest_id, submitter, verifier) matches Ok(b1) ==> {
            &&& b1.wf()
            &&& b1.submission(quest_id, submitter) == Some(
                SubmissionView {
                    status: SubmissionStatus::Approved,
                    ..b.submission(quest_id, submitter).unwrap()
                },
            )
            &&& b1.quests == b.quests
            &&& b1.escrows == b.escrows
            &&& forall|q2: Seq<u8>, w2: Seq<u8>|
                !(q2 == quest_id && w2 == submitter) ==> #[trigger] b1.submission(q2, w2)
                    == b.submission(q2, w2)
        },
{
    if approve_spec(b, quest_id, submitter, verifier) is Ok {
        lemma_submission_status_wf(b, quest_id, submitter, SubmissionStatus::Approved);
        assert forall|q2: Seq<u8>, w2: Seq<u8>| !(q2 == quest_id && w2 == submitter) implies #[trigger] b.with_submission_status(
            quest_id,
            submitter,
            SubmissionStatus::Approved,
        ).submission(q2, w2) == b.submission(q2, w2) by {
            lemma_submission_status_others(
                b,
                quest_id,
                submitter,
                SubmissionStatus::Approved,
                q2,
                w2,
            );
        }
    }
}

proof fn lemma_approve_all_items(b: BoardView, verifier: Seq<u8>, items: Seq<BatchApprovalView>)
    requires
        b.wf(),
    ensures
        approve_all(b, verifier, items) matches Ok(b1) ==> {
            &&& b1.wf()
            &&& b1.quests == b.quests
            &&& forall|k: int|
                0 <= k < items.len() ==> (b1.submission(
                    (#[trigger] items[k]).quest_id,
                    items[k].submitter,
                ) matches Some(s) && s.status == SubmissionStatus::Approved)
        },
    decreases items.len(),
{
    if items.len() > 0 {
        let init = items.drop_last();
        lemma_approve_all_items(b, verifier, init);
        if let Ok(b2) = approve_all(b, verifier, init) {
            let it = items.last();
            law_approve_exactly_when(b2, it.quest_id, it.submitter, verifier);
            if let Ok(b1) = approve_spec(b2, it.quest_id, it.submitter, verifier) {
                assert forall|k: int| 0 <= k < items.len() implies (b1.submission(
                    (#[trigger] items[k]).quest_id,
                    items[k].submitter,
                ) matches Some(s) && s.status == SubmissionStatus::Approved) by {
                    if k < items.len() - 1 {
                        assert(init[k] == items[k]);
                        if !(items[k].quest_id == it.quest_id && items[k].submitter
                            == it.submitter) {
                            assert(b1.submission(items[k].quest_id, items[k].submitter)
                                == b2.submission(items[k].quest_id, items[k].submitter));
                        }
                    }
                }
            }
        }
    }
}

/// A batch approval approves every one of its items: after a successful batch, each item's
/// submission exists and is approved, no item is the verifier's own, the batch holds at most
/// `MAX_BATCH_APPROVAL_SIZE` items, and no quest changed.
pub proof fn law_batch_approves_every_item(
    b: BoardView,
    verifier: Seq<u8>,
    items: Seq<BatchApprovalView>,
)
    requires
        b.wf(),
    ensures
        approve_batch_spec(b, verifier, items) matches Ok(b1) ==> {
            &&& b1.wf()
            &&& b1.quests == b.quests
            &&& items.len() <= MAX_BATCH_APPROVAL_SIZE
            &&& forall|k: int| 0 <= k < items.len() ==> (#[trigger] items[k]).submitter != verifier
            &&& forall|k: int|
                0 <= k < items.len() ==> (b1.submission(
                    (#[trigger] items[k]).quest_id,
                    items[k].submitter,
                ) matches Some(s) && s.status == SubmissionStatus::Approved)
        },
{
    lemma_approve_all_items(b, verifier, items);
}

/// A reward can be claimed exactly when the quest and the submission exist, the submission is
/// approved (not pending, rejected or already paid), and the quest's claim counter can still
/// grow; claiming a paid submission is refused as already claimed.
pub proof fn law_claim_exactly_when(b: BoardView, quest_id: Seq<u8>, submitter: Seq<u8>)
    ensures
        claim_error(b, quest_id, submitter) is None <==> (b.quest(quest_id) matches Some(q)
            && q.total_claims < MAX_QUEST_CLAIMS && (b.submission(quest_id, submitter) matches Some(
            s,
        ) && s.status == SubmissionStatus::Approved)),
        (b.quest(quest_id) is Some && (b.submission(quest_id, submitter) matches Some(s)
            && s.status == SubmissionStatus::Paid)) ==> claim_error(b, quest_id, submitter) == Some(
            Error::AlreadyClaimed,
        ),
{
}

//================================================================================
// Order of answers
//================================================================================

proof fn lemma_subsequence_push(a: Seq<QuestView>, b: Seq<QuestView>, x: QuestView)
    requires
        is_subsequence(a, b),
    ensures
        is_subsequence(a, b.push(x)),
{
    assert(b.push(x).drop_last() =~= b);
    if a.len() > 0 && a.last() == x {
        lemma_subsequence_drop_last(a, b);
    }
}

proof fn lemma_subsequence_of_prefix(a: Seq<QuestView>, b: Seq<QuestView>, n: int)
    requires
        0 <= n <= b.len(),
        is_subsequence(a, b.take(n)),
    ensures
        is_subsequence(a, b),
    decreases b.len() - n,
{
    if n < b.len() {
        assert(b.take(n + 1) =~= b.take(n).push(b[n]));
        lemma_subsequence_push(a, b.take(n), b[n]);
        lemma_subsequence_of_prefix(a, b, n + 1);
    } else {
        assert(b.take(n) =~= b);
    }
}

/// The whole answer to a query lists its quests in the order in which they were registered:
/// it is a subsequence of the registered quests.
pub proof fn law_answer_in_registration_order(
    qs: Seq<QuestView>,
    f: QuestFilter,
    whole_limit: nat,
)
    requires
        whole_limit >= MAX_SCAN_ITERATIONS,
    ensures
        is_subsequence(query_page(qs, f, 0, whole_limit), qs),
{
    let m = select(scanned(qs), f);
    lemma_select_contains(scanned(qs), f);
    lemma_scanned_contains(qs);
    assert(query_page(qs, f, 0, whole_limit) =~= m);
    lemma_select_is_subsequence(scanned(qs), f);
    if qs.len() <= MAX_SCAN_ITERATIONS {
    } else {
        lemma_subsequence_of_prefix(m, qs, MAX_SCAN_ITERATIONS as int);
    }
}

//================================================================================
// Status changes, metadata at registration, administrators and escrows
//================================================================================

/// Pausing or resuming succeeds exactly when the quest exists, the caller is an
/// administrator and the change is from active to paused or from paused to active; then the
/// quest has the new status and is otherwise unchanged, every other quest is as it was, and
/// nothing but quests changes.
pub proof fn law_pause_resume_result(b: BoardView, id: Seq<u8>, caller: Seq<u8>, pause: bool)
    requires
        b.wf(),
    ensures
        ({
            let to = if pause { QuestStatus::Paused } else { QuestStatus::Active };
            let from = if pause { QuestStatus::Active } else { QuestStatus::Paused };
            &&& admin_status_change_spec(b, id, caller, to) is Ok <==> (b.quest(id) matches Some(q)
                && b.is_admin(caller) && q.status == from)
            &&& admin_status_change_spec(b, id, caller, to) matches Ok(b1) ==> {
                &&& b1.wf()
                &&& b1.quest(id) == Some(QuestView { status: to, ..b.quest(id).unwrap() })
                &&& forall|x: Seq<u8>| x != id ==> #[trigger] b1.quest(x) == b.quest(x)
                &&& b1.submissions == b.submissions && b1.metadata == b.metadata && b1.escrows
                    == b.escrows && b1.admins == b.admins
                &&& b1.quests.len() == b.quests.len()
            }
        }),
{
    let to = if pause { QuestStatus::Paused } else { QuestStatus::Active };
    if admin_status_change_spec(b, id, caller, to) is Ok {
        lemma_status_change_wf(b, id, to);
        assert forall|x: Seq<u8>| x != id implies #[trigger] b.with_quest_status(id, to).quest(x)
            == b.quest(x) by {
            crate::laws::law_status_change_is_local(b, id, to, x);
        }
    }
}

/// Registering with metadata succeeds exactly when the quest alone would register and the
/// metadata is accepted; then the quest is registered as alone, and its metadata is the given
/// one.
pub proof fn law_register_with_metadata_exactly_when(
    b: BoardView,
    id: Seq<u8>,
    creator: Seq<u8>,
    reward_asset: Seq<u8>,
    reward_amount: i128,
    verifier: Seq<u8>,
    deadline: u64,
    m: MetadataView,
    now: u64,
)
    requires
        b.wf(),
    ensures
        register_with_metadata_spec(
            b,
            id,
            creator,
            reward_asset,
            reward_amount,
            verifier,
            deadline,
            m,
            now,
        ) is Ok <==> (register_spec(
            b,
            id,
            creator,
            reward_asset,
            reward_amount,
            verifier,
            deadline,
            now,
        ) is Ok && metadata_error(m) is None),
        register_with_metadata_spec(
            b,
            id,
            creator,
            reward_asset,
            reward_amount,
            verifier,
            deadline,
            m,
            now,
        ) matches Ok(b1) ==> {
            &&& b1.wf()
            &&& b1.metadata_of(id) == Some(m)
            &&& register_spec(
                b,
                id,
                creator,
                reward_asset,
                reward_amount,
                verifier,
                deadline,
                now,
            ) matches Ok(b2) && b1.quests == b2.quests
        },
{
    law_register_exactly_when(b, id, creator, reward_asset, reward_amount, verifier, deadline, now);
    if let Ok(b2) = register_spec(
        b,
        id,
        creator,
        reward_asset,
        reward_amount,
        verifier,
        deadline,
        now,
    ) {
        lemma_put_metadata(b2, id, m);
    }
}

/// An escrow covers a payment exactly when it exists, is active and holds at least the
/// amount.
pub proof fn law_escrow_covers_exactly_when(b: BoardView, quest_id: Seq<u8>, amount: i128)
    ensures
        escrow_error(b, quest_id, amount) is None <==> (b.escrow(quest_id) matches Some(e)
            && e.active && e.balance >= amount),
{
}

/// Only an administrator names administrators; then `who` is an administrator, every earlier
/// administrator still is, and nothing else changes.
pub proof fn law_grant_admin_exactly_when(b: BoardView, caller: Seq<u8>, who: Seq<u8>)
    requires
        b.wf(),
    ensures
        grant_admin_spec(b, caller, who) is Ok <==> b.is_admin(caller),
        grant_admin_spec(b, caller, who) matches Ok(b1) ==> {
            &&& b1.wf()
            &&& b1.is_admin(who)
            &&& forall|a: Seq<u8>| b.is_admin(a) ==> #[trigger] b1.is_admin(a)
            &&& forall|a: Seq<u8>| #[trigger] b1.is_admin(a) ==> a == who || b.is_admin(a)
            &&& b1.quests == b.quests && b1.submissions == b.submissions && b1.metadata
                == b.metadata && b1.escrows == b.escrows
        },
{
    if b.is_admin(caller) && !b.is_admin(who) {
        let b1 = b.add_admin(who);
        assert(b1.admins[b.admins.len() as int] == who);
        assert forall|a: Seq<u8>| b.is_admin(a) implies #[trigger] b1.is_admin(a) by {
            let i = choose|i: int| 0 <= i < b.admins.len() && b.admins[i] == a;
            assert(b1.admins[i] == a);
        }
        assert forall|a: Seq<u8>| #[trigger] b1.is_admin(a) implies a == who || b.is_admin(a) by {
            let i = choose|i: int| 0 <= i < b1.admins.len() && b1.admins[i] == a;
            if i < b.admins.len() {
                assert(b.admins[i] == a);
            }
        }
    }
}

/// Only an administrator records escrows; then the quest's escrow is the given one and no
/// quest, submission or administrator changes.
pub proof fn law_set_escrow_exactly_when(b: BoardView, caller: Seq<u8>, e: EscrowView)
    requires
        b.wf(),
    ensures
        set_escrow_spec(b, caller, e) is Ok <==> b.is_admin(caller),
        set_escrow_spec(b, caller, e) matches Ok(b1) ==> {
            &&& b1.wf()
            &&& b1.escrow(e.quest_id) == Some(e)
            &&& b1.quests == b.quests && b1.submissions == b.submissions && b1.admins
                == b.admins
        },
{
    if b.is_admin(caller) {
        let b1 = b.put_escrow(e);
        if b.has_escrow(e.quest_id) {
            let i = b.escrow_index(e.quest_id);
            assert forall|a: int, c: int|
                0 <= a < b1.escrows.len() && 0 <= c < b1.escrows.len() && a != c implies
                #[trigger] b1.escrows[a].quest_id != #[trigger] b1.escrows[c].quest_id by {
                assert(b.escrows[a].quest_id == b1.escrows[a].quest_id);
                assert(b.escrows[c].quest_id == b1.escrows[c].quest_id);
            }
            b1.lemma_escrow_index(e.quest_id, i);
        } else {
            let n = b.escrows.len() as int;
            assert forall|a: int, c: int|
                0 <= a < b1.escrows.len() && 0 <= c < b1.escrows.len() && a != c implies
                #[trigger] b1.escrows[a].quest_id != #[trigger] b1.escrows[c].quest_id by {
                if a != n {
                    assert(b.escrows[a] == b1.escrows[a]);
                }
                if c != n {
                    assert(b.escrows[c] == b1.escrows[c]);
                }
            }
            b1.lemma_escrow_index(e.quest_id, n);
        }
    }
}

} // verus!
