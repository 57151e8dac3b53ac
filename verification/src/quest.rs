use vstd::prelude::*;

use crate::errors::Error;
use crate::storage::{BoardView, QuestBoard};
use crate::types::{
    batch_quests_view, byte_strings_view, quests_view, Address, BatchQuestInput, BatchQuestView,
    DescriptionView, MetadataDescription, MetadataView, Quest, QuestMetadata, QuestStatus,
    QuestView, Symbol,
};
use crate::validation::{
    array_length_error, deadline_error, quest_transition_allowed, reward_amount_error,
    symbol_length_error, validate_addresses_distinct, validate_array_length,
    validate_batch_quest_size, validate_deadline, validate_quest_status_transition,
    validate_reward_amount, validate_symbol_length, MAX_BATCH_QUEST_SIZE, MAX_QUESTS,
    MAX_SCAN_ITERATIONS,
};

verus! {

/// The longest title, in bytes.
pub const MAX_METADATA_TITLE_LEN: usize = 80;

/// The longest category, in bytes.
pub const MAX_METADATA_CATEGORY_LEN: usize = 40;

/// The longest tag, in bytes.
pub const MAX_METADATA_TAG_LEN: usize = 32;

/// The longest requirement, in bytes.
pub const MAX_METADATA_REQUIREMENT_LEN: usize = 200;

/// The longest description held inline, in bytes.
pub const MAX_METADATA_INLINE_DESCRIPTION_LEN: usize = 1200;

/// The most tags.
pub const MAX_METADATA_TAGS: usize = 15;

/// The most requirements.
pub const MAX_METADATA_REQUIREMENTS: usize = 20;

//================================================================================
// Registration
//================================================================================

/// Why a quest with these values cannot be registered on this board, if it cannot: its name
/// is too long or taken, its reward is out of range, its deadline is not in the future, its
/// creator is its verifier, or the board is full; checked in this order.
pub open spec fn registration_error(
    b: BoardView,
    id: Seq<u8>,
    creator: Seq<u8>,
    reward_amount: i128,
    verifier: Seq<u8>,
    deadline: u64,
    now: u64,
) -> Option<Error> {
    if symbol_length_error(id.len()) is Some {
        symbol_length_error(id.len())
    } else if b.has_quest(id) {
        Some(Error::QuestAlreadyExists)
    } else if reward_amount_error(reward_amount) is Some {
        reward_amount_error(reward_amount)
    } else if deadline_error(deadline, now) is Some {
        deadline_error(deadline, now)
    } else if creator == verifier {
        Some(Error::InvalidAddress)
    } else if b.quests.len() >= MAX_QUESTS {
        Some(Error::ArrayTooLong)
    } else {
        None
    }
}

/// A newly registered quest: active, with no claims.
pub open spec fn new_quest(
    id: Seq<u8>,
    creator: Seq<u8>,
    reward_asset: Seq<u8>,
    reward_amount: i128,
    verifier: Seq<u8>,
    deadline: u64,
) -> QuestView {
    QuestView {
        id,
        creator,
        reward_asset,
        reward_amount,
        verifier,
        deadline,
        status: QuestStatus::Active,
        total_claims: 0,
    }
}

/// The board after registering a quest, or why it is refused.
pub open spec fn register_spec(
    b: BoardView,
    id: Seq<u8>,
    creator: Seq<u8>,
    reward_asset: Seq<u8>,
    reward_amount: i128,
    verifier: Seq<u8>,
    deadline: u64,
    now: u64,
) -> Result<BoardView, Error> {
    match registration_error(b, id, creator, reward_amount, verifier, deadline, now) {
        Some(e) => Err(e),
        None => Ok(b.add_quest(new_quest(id, creator, reward_asset, reward_amount, verifier, deadline))),
    }
}

fn check_registration(
    state: &QuestBoard,
    id: &Symbol,
    creator: &Address,
    reward_amount: i128,
    verifier: &Address,
    deadline: u64,
    now: u64,
) -> (r: Result<(), Error>)
    requires
        state.wf(),
    ensures
        match registration_error(state@, id@, creator@, reward_amount, verifier@, deadline, now) {
            Some(e) => r == Err::<(), Error>(e),
            None => r is Ok,
        },
{
    validate_symbol_length(id.len())?;
    if state.find_quest(id).is_some() {
        return Err(Error::QuestAlreadyExists);
    }
    validate_reward_amount(reward_amount)?;
    validate_deadline(deadline, now)?;
    validate_addresses_distinct(creator, verifier)?;
    if state.quest_count() >= MAX_QUESTS {
        return Err(Error::ArrayTooLong);
    }
    Ok(())
}

/// Registers an active quest with no claims, named `id`, whose `reward_amount` of
/// `reward_asset` is paid for each approved submission that `verifier` checks until
/// `deadline`; `now` is the current ledger time.
pub fn register_quest(
    state: &mut QuestBoard,
    id: &Symbol,
    creator: &Address,
    reward_asset: &Address,
    reward_amount: i128,
    verifier: &Address,
    deadline: u64,
    now: u64,
) -> (r: Result<(), Error>)
    requires
        old(state).wf(),
    ensures
        final(state).wf(),
        match register_spec(
            old(state)@,
            id@,
            creator@,
            reward_asset@,
            reward_amount,
            verifier@,
            deadline,
            now,
        ) {
            Ok(b) => r is Ok && final(state)@ == b,
            Err(e) => r == Err::<(), Error>(e) && final(state)@ == old(state)@,
        },
{
    check_registration(state, id, creator, reward_amount, verifier, deadline, now)?;
    let quest = Quest {
        id: id.duplicate(),
        creator: creator.duplicate(),
        reward_asset: reward_asset.duplicate(),
        reward_amount,
        verifier: verifier.duplicate(),
        deadline,
        status: QuestStatus::Active,
        total_claims: 0,
    };
    state.push_quest(quest);
    Ok(())
}

/// The board after registering a quest together with its metadata, or why that is refused:
/// the quest's own checks come first, then those of the metadata.
pub open spec fn register_with_metadata_spec(
    b: BoardView,
    id: Seq<u8>,
    creator: Seq<u8>,
    reward_asset: Seq<u8>,
    reward_amount: i128,
    verifier: Seq<u8>,
    deadline: u64,
    metadata: MetadataView,
    now: u64,
) -> Result<BoardView, Error> {
    match register_spec(b, id, creator, reward_asset, reward_amount, verifier, deadline, now) {
        Err(e) => Err(e),
        Ok(b1) => match metadata_error(metadata) {
            Some(e) => Err(e),
            None => Ok(b1.put_metadata(id, metadata)),
        },
    }
}

/// Registers a quest together with its metadata; the quest's own checks come first.
pub fn register_quest_with_metadata(
    state: &mut QuestBoard,
    id: &Symbol,
    creator: &Address,
    reward_asset: &Address,
    reward_amount: i128,
    verifier: &Address,
    deadline: u64,
    metadata: &QuestMetadata,
    now: u64,
) -> (r: Result<(), Error>)
    requires
        old(state).wf(),
    ensures
        final(state).wf(),
        match register_with_metadata_spec(
            old(state)@,
            id@,
            creator@,
            reward_asset@,
            reward_amount,
            verifier@,
            deadline,
            metadata@,
            now,
        ) {
            Ok(b) => r is Ok && final(state)@ == b,
            Err(e) => r == Err::<(), Error>(e) && final(state)@ == old(state)@,
        },
{
    check_registration(state, id, creator, reward_amount, verifier, deadline, now)?;
    validate_metadata(metadata)?;
    register_quest(state, id, creator, reward_asset, reward_amount, verifier, deadline, now)?;
    state.put_metadata(id.duplicate(), metadata.duplicate());
    Ok(())
}

/// The board after registering the quests of a batch in order, or the first refusal.
pub open spec fn register_all(
    b: BoardView,
    creator: Seq<u8>,
    items: Seq<BatchQuestView>,
    now: u64,
) -> Result<BoardView, Error>
    decreases items.len(),
{
    if items.len() == 0 {
        Ok(b)
    } else {
        match register_all(b, creator, items.drop_last(), now) {
            Err(e) => Err(e),
            Ok(b2) => {
                let q = items.last();
                register_spec(
                    b2,
                    q.id,
                    creator,
                    q.reward_asset,
                    q.reward_amount,
                    q.verifier,
                    q.deadline,
                    now,
                )
            },
        }
    }
}

/// The board after a batch registration, or why the batch is refused.
pub open spec fn register_batch_spec(
    b: BoardView,
    creator: Seq<u8>,
    items: Seq<BatchQuestView>,
    now: u64,
) -> Result<BoardView, Error> {
    if items.len() > MAX_BATCH_QUEST_SIZE {
        Err(Error::ArrayTooLong)
    } else {
        register_all(b, creator, items, now)
    }
}

/// Once a prefix of a batch is refused, the whole batch is refused with the same error.
proof fn lemma_register_all_err(
    b: BoardView,
    creator: Seq<u8>,
    items: Seq<BatchQuestView>,
    now: u64,
    k: int,
)
    requires
        0 <= k <= items.len(),
        register_all(b, creator, items.take(k), now) is Err,
    ensures
        register_all(b, creator, items, now) == register_all(b, creator, items.take(k), now),
    decreases items.len() - k,
{
    if k < items.len() {
        assert(items.take(k + 1).drop_last() =~= items.take(k));
        lemma_register_all_err(b, creator, items, now, k + 1);
    } else {
        assert(items.take(k) =~= items);
    }
}

/// Registers every quest of the batch, all with the same creator, in order; if one is
/// refused, none is registered.
pub fn register_quests_batch(
    state: &mut QuestBoard,
    creator: &Address,
    quests: &Vec<BatchQuestInput>,
    now: u64,
) -> (r: Result<(), Error>)
    requires
        old(state).wf(),
    ensures
        final(state).wf(),
        match register_batch_spec(old(state)@, creator@, batch_quests_view(quests@), now) {
            Ok(b) => r is Ok && final(state)@ == b,
            Err(e) => r == Err::<(), Error>(e) && final(state)@ == old(state)@,
        },
{
    let len = quests.len();
    validate_batch_quest_size(len)?;
    let ghost items = batch_quests_view(quests@);
    let ghost start = state@;
    let start_len = state.quest_count();
    let mut i: usize = 0;
    assert(items.take(0) =~= Seq::<BatchQuestView>::empty());
    while i < len
        invariant
            len == quests@.len(),
            len <= MAX_BATCH_QUEST_SIZE,
            items == batch_quests_view(quests@),
            i <= len,
            state.wf(),
            start == old(state)@,
            start_len == start.quests.len(),
            register_all(start, creator@, items.take(i as int), now) == Ok::<BoardView, Error>(
                state@,
            ),
            state@.quests.len() >= start_len,
            state@.quests.take(start_len as int) == start.quests,
            state@ == (BoardView { quests: state@.quests, ..start }),
        decreases len - i,
    {
        let q = &quests[i];
        let ghost before = state@;
        assert(items.take(i + 1).drop_last() =~= items.take(i as int));
        let step = register_quest(
            state,
            &q.id,
            creator,
            &q.reward_asset,
            q.reward_amount,
            &q.verifier,
            q.deadline,
            now,
        );
        match step {
            Ok(()) => {
                assert(state@.quests =~= before.quests.push(state@.quests.last()));
                assert(state@.quests.take(start_len as int) =~= start.quests);
            },
            Err(e) => {
                assert(register_all(start, creator@, items.take(i + 1), now) == Err::<
                    BoardView,
                    Error,
                >(e));
                proof {
                    lemma_register_all_err(start, creator@, items, now, i + 1);
                }
                state.truncate_quests(start_len);
                assert(state@.quests =~= start.quests);
                assert(state@ == start);
                return Err(e);
            },
        }
        i = i + 1;
    }
    assert(items.take(len as int) =~= items);
    Ok(())
}

//================================================================================
// Status changes
//================================================================================

/// The board after the quest named `id` is moved to status `to`, or why that is refused.
pub open spec fn status_change_spec(b: BoardView, id: Seq<u8>, to: QuestStatus) -> Result<
    BoardView,
    Error,
> {
    match b.quest(id) {
        None => Err(Error::QuestNotFound),
        Some(q) => if quest_transition_allowed(q.status, to) {
            Ok(b.with_quest_status(id, to))
        } else {
            Err(Error::InvalidStatusTransition)
        },
    }
}

/// The board after administrator `caller` moves the quest named `id` to status `to`, or why
/// that is refused: the quest must exist, only an administrator may pause or resume it, and
/// the change must be one that `status_change_spec` allows; checked in this order.
pub open spec fn admin_status_change_spec(
    b: BoardView,
    id: Seq<u8>,
    caller: Seq<u8>,
    to: QuestStatus,
) -> Result<BoardView, Error> {
    if !b.has_quest(id) {
        Err(Error::QuestNotFound)
    } else if !b.is_admin(caller) {
        Err(Error::Unauthorized)
    } else {
        status_change_spec(b, id, to)
    }
}

fn change_quest_status(
    state: &mut QuestBoard,
    id: &Symbol,
    caller: &Address,
    to: QuestStatus,
) -> (r: Result<(), Error>)
    requires
        old(state).wf(),
    ensures
        final(state).wf(),
        match admin_status_change_spec(old(state)@, id@, caller@, to) {
            Ok(b) => r is Ok && final(state)@ == b,
            Err(e) => r == Err::<(), Error>(e) && final(state)@ == old(state)@,
        },
{
    let i = match state.find_quest(id) {
        Some(i) => i,
        None => return Err(Error::QuestNotFound),
    };
    if !state.is_admin(caller) {
        return Err(Error::Unauthorized);
    }
    validate_quest_status_transition(state.quest_at(i).status, to)?;
    state.set_quest_status(i, to);
    Ok(())
}

/// Pauses an active quest (administrators only).
pub fn pause_quest(state: &mut QuestBoard, id: &Symbol, caller: &Address) -> (r: Result<
    (),
    Error,
>)
    requires
        old(state).wf(),
    ensures
        final(state).wf(),
        match admin_status_change_spec(old(state)@, id@, caller@, QuestStatus::Paused) {
            Ok(b) => r is Ok && final(state)@ == b,
            Err(e) => r == Err::<(), Error>(e) && final(state)@ == old(state)@,
        },
{
    change_quest_status(state, id, caller, QuestStatus::Paused)
}

/// Resumes a paused quest (administrators only).
pub fn resume_quest(state: &mut QuestBoard, id: &Symbol, caller: &Address) -> (r: Result<
    (),
    Error,
>)
    requires
        old(state).wf(),
    ensures
        final(state).wf(),
        match admin_status_change_spec(old(state)@, id@, caller@, QuestStatus::Active) {
            Ok(b) => r is Ok && final(state)@ == b,
            Err(e) => r == Err::<(), Error>(e) && final(state)@ == old(state)@,
        },
{
    change_quest_status(state, id, caller, QuestStatus::Active)
}

//================================================================================
// Metadata
//================================================================================

/// Whether some string of the list is longer than `max`.
pub open spec fn some_longer_than(s: Seq<Seq<u8>>, max: nat) -> bool {
    exists|i: int| 0 <= i < s.len() && #[trigger] s[i].len() > max
}

/// Why metadata is refused, if it is: a title, category, tag, requirement or inline
/// description that is too long, or too many tags or requirements; checked in this order.
pub open spec fn metadata_error(m: MetadataView) -> Option<Error> {
    if m.title.len() > MAX_METADATA_TITLE_LEN {
        Some(Error::StringTooLong)
    } else if m.category.len() > MAX_METADATA_CATEGORY_LEN {
        Some(Error::StringTooLong)
    } else if array_length_error(m.tags.len(), MAX_METADATA_TAGS as nat) is Some {
        array_length_error(m.tags.len(), MAX_METADATA_TAGS as nat)
    } else if some_longer_than(m.tags, MAX_METADATA_TAG_LEN as nat) {
        Some(Error::StringTooLong)
    } else if array_length_error(m.requirements.len(), MAX_METADATA_REQUIREMENTS as nat) is Some {
        array_length_error(m.requirements.len(), MAX_METADATA_REQUIREMENTS as nat)
    } else if some_longer_than(m.requirements, MAX_METADATA_REQUIREMENT_LEN as nat) {
        Some(Error::StringTooLong)
    } else if m.description matches DescriptionView::Inline(d) && d.len()
        > MAX_METADATA_INLINE_DESCRIPTION_LEN {
        Some(Error::StringTooLong)
    } else {
        None
    }
}

/// A string may hold at most `max` bytes.
pub fn validate_string_len(value: &Vec<u8>, max: usize) -> (r: Result<(), Error>)
    ensures
        r is Err <==> value@.len() > max,
        r matches Err(e) ==> e == Error::StringTooLong,
{
    if value.len() > max {
        return Err(Error::StringTooLong);
    }
    Ok(())
}

fn validate_each_len(values: &Vec<Vec<u8>>, max: usize) -> (r: Result<(), Error>)
    ensures
        r is Err <==> some_longer_than(byte_strings_view(values@), max as nat),
        r matches Err(e) ==> e == Error::StringTooLong,
{
    let ghost s = byte_strings_view(values@);
    let mut i: usize = 0;
    while i < values.len()
        invariant
            i <= values@.len(),
            s == byte_strings_view(values@),
            forall|j: int| 0 <= j < i ==> s[j].len() <= max,
        decreases values@.len() - i,
    {
        if validate_string_len(&values[i], max).is_err() {
            assert(s[i as int].len() > max);
            return Err(Error::StringTooLong);
        }
        i = i + 1;
    }
    Ok(())
}

/// Checks the lengths of the metadata's strings and lists.
pub fn validate_metadata(metadata: &QuestMetadata) -> (r: Result<(), Error>)
    ensures
        match metadata_error(metadata@) {
            Some(e) => r == Err::<(), Error>(e),
            None => r is Ok,
        },
{
    validate_string_len(&metadata.title, MAX_METADATA_TITLE_LEN)?;
    validate_string_len(&metadata.category, MAX_METADATA_CATEGORY_LEN)?;
    validate_array_length(metadata.tags.len(), MAX_METADATA_TAGS)?;
    validate_each_len(&metadata.tags, MAX_METADATA_TAG_LEN)?;
    validate_array_length(metadata.requirements.len(), MAX_METADATA_REQUIREMENTS)?;
    validate_each_len(&metadata.requirements, MAX_METADATA_REQUIREMENT_LEN)?;
    if let MetadataDescription::Inline(desc) = &metadata.description {
        validate_string_len(desc, MAX_METADATA_INLINE_DESCRIPTION_LEN)?;
    }
    Ok(())
}

/// The board after `updater` replaces the metadata of a quest, or why that is refused: only
/// the quest's creator or an administrator may do so.
pub open spec fn update_metadata_spec(
    b: BoardView,
    quest_id: Seq<u8>,
    updater: Seq<u8>,
    m: MetadataView,
) -> Result<BoardView, Error> {
    match b.quest(quest_id) {
        None => Err(Error::QuestNotFound),
        Some(q) => if q.creator != updater && !b.is_admin(updater) {
            Err(Error::Unauthorized)
        } else {
            match metadata_error(m) {
                Some(e) => Err(e),
                None => Ok(b.put_metadata(quest_id, m)),
            }
        },
    }
}

/// Replaces the metadata of a quest.
pub fn update_quest_metadata(
    state: &mut QuestBoard,
    quest_id: &Symbol,
    updater: &Address,
    metadata: &QuestMetadata,
) -> (r: Result<(), Error>)
    requires
        old(state).wf(),
    ensures
        final(state).wf(),
        match update_metadata_spec(old(state)@, quest_id@, updater@, metadata@) {
            Ok(b) => r is Ok && final(state)@ == b,
            Err(e) => r == Err::<(), Error>(e) && final(state)@ == old(state)@,
        },
{
    let i = match state.find_quest(quest_id) {
        Some(i) => i,
        None => return Err(Error::QuestNotFound),
    };
    if !state.quest_at(i).creator.same_as(updater) && !state.is_admin(updater) {
        return Err(Error::Unauthorized);
    }
    validate_metadata(metadata)?;
    state.put_metadata(quest_id.duplicate(), metadata.duplicate());
    Ok(())
}

//================================================================================
// Queries
//================================================================================

/// Which quests a query asks for.
pub enum QuestFilter {
    /// Quests with this status.
    Status(QuestStatus),
    /// Quests registered by this creator.
    Creator(Seq<u8>),
    /// Quests whose reward lies between the two bounds, both included.
    RewardRange(i128, i128),
}

impl QuestFilter {
    /// Whether the quest is one the query asks for.
    pub open spec fn accepts(self, q: QuestView) -> bool {
        match self {
            QuestFilter::Status(s) => q.status == s,
            QuestFilter::Creator(c) => q.creator == c,
            QuestFilter::RewardRange(min, max) => min <= q.reward_amount && q.reward_amount <= max,
        }
    }
}

/// The quests of the list that the filter accepts, in list order.
pub open spec fn select(s: Seq<QuestView>, f: QuestFilter) -> Seq<QuestView>
    decreases s.len(),
{
    if s.len() == 0 {
        Seq::empty()
    } else if f.accepts(s.last()) {
        select(s.drop_last(), f).push(s.last())
    } else {
        select(s.drop_last(), f)
    }
}

/// The page of a list that skips `offset` items and holds at most `limit` items.
pub open spec fn window(m: Seq<QuestView>, offset: nat, limit: nat) -> Seq<QuestView> {
    if offset >= m.len() {
        Seq::empty()
    } else if offset + limit >= m.len() {
        m.subrange(offset as int, m.len() as int)
    } else {
        m.subrange(offset as int, (offset + limit) as int)
    }
}

/// The answer to a query: among the first `MAX_SCAN_ITERATIONS` registered quests, those
/// that the filter accepts, in registration order, from the `offset`-th on, at most `limit`.
pub open spec fn query_page(qs: Seq<QuestView>, f: QuestFilter, offset: nat, limit: nat) -> Seq<
    QuestView,
> {
    let scanned = if qs.len() <= MAX_SCAN_ITERATIONS {
        qs
    } else {
        qs.take(MAX_SCAN_ITERATIONS as int)
    };
    window(select(scanned, f), offset, limit)
}

proof fn lemma_select_step(s: Seq<QuestView>, f: QuestFilter, i: int)
    requires
        0 <= i < s.len(),
    ensures
        select(s.take(i + 1), f) == if f.accepts(s[i]) {
            select(s.take(i), f).push(s[i])
        } else {
            select(s.take(i), f)
        },
{
    assert(s.take(i + 1).drop_last() =~= s.take(i));
    assert(s.take(i + 1).last() == s[i]);
}

proof fn lemma_select_prefix(s: Seq<QuestView>, f: QuestFilter, i: int, j: int)
    requires
        0 <= i <= j <= s.len(),
    ensures
        select(s.take(i), f).len() <= select(s.take(j), f).len(),
        select(s.take(j), f).take(select(s.take(i), f).len() as int) == select(s.take(i), f),
    decreases j - i,
{
    if i < j {
        lemma_select_prefix(s, f, i, j - 1);
        lemma_select_step(s, f, j - 1);
        let a = select(s.take(i), f);
        let b = select(s.take(j - 1), f);
        if f.accepts(s[j - 1]) {
            assert(b.push(s[j - 1]).take(a.len() as int) =~= b.take(a.len() as int));
        }
    } else {
        assert(select(s.take(j), f).take(select(s.take(i), f).len() as int) =~= select(
            s.take(i),
            f,
        ));
    }
}

proof fn lemma_window_push(m: Seq<QuestView>, x: QuestView, offset: nat, limit: nat)
    requires
        window(m, offset, limit).len() < limit,
    ensures
        window(m.push(x), offset, limit) == if m.len() >= offset {
            window(m, offset, limit).push(x)
        } else {
            window(m, offset, limit)
        },
{
    if m.len() >= offset {
        assert(window(m.push(x), offset, limit) =~= window(m, offset, limit).push(x));
    } else {
        assert(window(m.push(x), offset, limit) =~= window(m, offset, limit));
    }
}

proof fn lemma_window_full(m1: Seq<QuestView>, m2: Seq<QuestView>, offset: nat, limit: nat)
    requires
        m1.len() <= m2.len(),
        m2.take(m1.len() as int) == m1,
        window(m1, offset, limit).len() >= limit,
    ensures
        window(m2, offset, limit) == window(m1, offset, limit),
{
    if offset < m1.len() {
        assert forall|k: int| 0 <= k < m1.len() implies m2[k] == m1[k] by {
            assert(m2.take(m1.len() as int)[k] == m2[k]);
        }
        assert(window(m2, offset, limit) =~= window(m1, offset, limit));
    }
}

/// A query, with the values it compares against.
enum QuestQuery {
    Status(QuestStatus),
    Creator(Address),
    RewardRange(i128, i128),
}

impl View for QuestQuery {
    type V = QuestFilter;

    closed spec fn view(&self) -> QuestFilter {
        match self {
            QuestQuery::Status(s) => QuestFilter::Status(*s),
            QuestQuery::Creator(c) => QuestFilter::Creator(c@),
            QuestQuery::RewardRange(min, max) => QuestFilter::RewardRange(*min, *max),
        }
    }
}

fn query_accepts(query: &QuestQuery, q: &Quest) -> (r: bool)
    ensures
        r == query@.accepts(q@),
{
    match query {
        QuestQuery::Status(s) => q.status == *s,
        QuestQuery::Creator(c) => q.creator.same_as(c),
        QuestQuery::RewardRange(min, max) => q.reward_amount >= *min && q.reward_amount <= *max,
    }
}

fn collect_page(state: &QuestBoard, query: &QuestQuery, offset: u32, limit: u32) -> (r: Vec<
    Quest,
>)
    ensures
        quests_view(r@) == query_page(state@.quests, query@, offset as nat, limit as nat),
{
    let quests = state.quests();
    let ghost qs = state@.quests;
    let ghost f = query@;
    let n = quests.len();
    let mut results: Vec<Quest> = Vec::new();
    let mut matched: u32 = 0;
    let mut count: u32 = 0;
    let mut i: usize = 0;
    assert(qs.take(0) =~= Seq::<QuestView>::empty());
    assert(quests_view(results@) =~= Seq::<QuestView>::empty());
    while i < n && i < MAX_SCAN_ITERATIONS && count < limit
        invariant
            n == qs.len(),
            f == query@,
            quests_view(quests@) == qs,
            i <= n,
            i <= MAX_SCAN_ITERATIONS,
            matched as nat == select(qs.take(i as int), f).len(),
            matched <= i,
            quests_view(results@) == window(
                select(qs.take(i as int), f),
                offset as nat,
                limit as nat,
            ),
            count as nat == results@.len(),
            count <= limit,
        decreases n - i,
    {
        let ghost m = select(qs.take(i as int), f);
        proof {
            lemma_select_step(qs, f, i as int);
        }
        let q = &quests[i];
        assert(q@ == qs[i as int]);
        assert(quests_view(results@).len() == results@.len());
        if query_accepts(query, q) {
            proof {
                lemma_window_push(m, qs[i as int], offset as nat, limit as nat);
            }
            if matched >= offset {
                let ghost before = results@;
                results.push(q.duplicate());
                assert(quests_view(results@) =~= quests_view(before).push(qs[i as int]));
                count = count + 1;
            }
            matched = matched + 1;
        }
        i = i + 1;
    }
    proof {
        let j: int = if qs.len() <= MAX_SCAN_ITERATIONS {
            qs.len() as int
        } else {
            MAX_SCAN_ITERATIONS as int
        };
        if qs.len() <= MAX_SCAN_ITERATIONS {
            assert(qs.take(j) =~= qs);
        }
        if i as int != j {
            lemma_select_prefix(qs, f, i as int, j);
            lemma_window_full(
                select(qs.take(i as int), f),
                select(qs.take(j), f),
                offset as nat,
                limit as nat,
            );
        }
    }
    results
}

/// Lists quests with the given status, a page at a time.
pub fn get_quests_by_status(
    state: &QuestBoard,
    status: &QuestStatus,
    offset: u32,
    limit: u32,
) -> (r: Vec<Quest>)
    ensures
        quests_view(r@) == query_page(
            state@.quests,
            QuestFilter::Status(*status),
            offset as nat,
            limit as nat,
        ),
{
    collect_page(state, &QuestQuery::Status(*status), offset, limit)
}

/// Lists quests registered by the given creator, a page at a time.
pub fn get_quests_by_creator(
    state: &QuestBoard,
    creator: &Address,
    offset: u32,
    limit: u32,
) -> (r: Vec<Quest>)
    ensures
        quests_view(r@) == query_page(
            state@.quests,
            QuestFilter::Creator(creator@),
            offset as nat,
            limit as nat,
        ),
{
    collect_page(state, &QuestQuery::Creator(creator.duplicate()), offset, limit)
}

/// Lists active quests, a page at a time.
pub fn get_active_quests(state: &QuestBoard, offset: u32, limit: u32) -> (r: Vec<Quest>)
    ensures
        quests_view(r@) == query_page(
            state@.quests,
            QuestFilter::Status(QuestStatus::Active),
            offset as nat,
            limit as nat,
        ),
{
    get_quests_by_status(state, &QuestStatus::Active, offset, limit)
}

/// Lists quests whose reward lies between `min_reward` and `max_reward`, both included, a
/// page at a time.
pub fn get_quests_by_reward_range(
    state: &QuestBoard,
    min_reward: i128,
    max_reward: i128,
    offset: u32,
    limit: u32,
) -> (r: Vec<Quest>)
    ensures
        quests_view(r@) == query_page(
            state@.quests,
            QuestFilter::RewardRange(min_reward, max_reward),
            offset as nat,
            limit as nat,
        ),
{
    collect_page(state, &QuestQuery::RewardRange(min_reward, max_reward), offset, limit)
}

} // verus!
