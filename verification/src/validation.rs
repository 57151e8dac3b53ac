use vstd::prelude::*;

use crate::errors::Error;
use crate::types::{Address, QuestStatus, SubmissionStatus};

verus! {

/// The longest quest name, in bytes.
pub const MAX_SYMBOL_LENGTH: usize = 32;

/// The largest reward a quest may promise.
pub const MAX_REWARD_AMOUNT: i128 = 1_000_000_000_000_000_000;

/// The most quests that one batch may register.
pub const MAX_BATCH_QUEST_SIZE: usize = 50;

/// The most submissions that one batch may approve.
pub const MAX_BATCH_APPROVAL_SIZE: usize = 50;

/// The most quests that a query looks at.
pub const MAX_SCAN_ITERATIONS: usize = 1000;

/// The most quests the board holds; the list of quest names is indexed by `u32`.
pub const MAX_QUESTS: usize = 4294967295;

/// The most claims a quest can count.
pub const MAX_QUEST_CLAIMS: u32 = 4294967295;

/// The most badges a user may hold.
pub const MAX_BADGES: u32 = 100;

/// The error for a quest name of the given length, if it is too long.
pub open spec fn symbol_length_error(len: nat) -> Option<Error> {
    if len > MAX_SYMBOL_LENGTH { Some(Error::StringTooLong) } else { None }
}

/// A quest name may have at most `MAX_SYMBOL_LENGTH` bytes.
pub fn validate_symbol_length(len: usize) -> (r: Result<(), Error>)
    ensures
        r is Err <==> symbol_length_error(len as nat) is Some,
        r matches Err(e) ==> symbol_length_error(len as nat) == Some(e),
{
    if len > MAX_SYMBOL_LENGTH {
        return Err(Error::StringTooLong);
    }
    Ok(())
}

/// The error for a reward amount, if it is not positive or too large.
pub open spec fn reward_amount_error(amount: i128) -> Option<Error> {
    if amount <= 0 {
        Some(Error::InvalidRewardAmount)
    } else if amount > MAX_REWARD_AMOUNT {
        Some(Error::AmountTooLarge)
    } else {
        None
    }
}

/// A reward must be positive and at most `MAX_REWARD_AMOUNT`.
pub fn validate_reward_amount(amount: i128) -> (r: Result<(), Error>)
    ensures
        r is Err <==> reward_amount_error(amount) is Some,
        r matches Err(e) ==> reward_amount_error(amount) == Some(e),
{
    if amount <= 0 {
        return Err(Error::InvalidRewardAmount);
    }
    if amount > MAX_REWARD_AMOUNT {
        return Err(Error::AmountTooLarge);
    }
    Ok(())
}

/// The error for a deadline, if it is not later than the current time.
pub open spec fn deadline_error(deadline: u64, now: u64) -> Option<Error> {
    if deadline <= now { Some(Error::DeadlineInPast) } else { None }
}

/// A new quest's deadline must lie in the future.
pub fn validate_deadline(deadline: u64, now: u64) -> (r: Result<(), Error>)
    ensures
        r is Err <==> deadline_error(deadline, now) is Some,
        r matches Err(e) ==> deadline_error(deadline, now) == Some(e),
{
    if deadline <= now {
        return Err(Error::DeadlineInPast);
    }
    Ok(())
}

/// The error for a quest whose deadline has passed at the given time.
pub open spec fn expiry_error(deadline: u64, now: u64) -> Option<Error> {
    if now > deadline { Some(Error::QuestExpired) } else { None }
}

/// A quest accepts submissions up to and including its deadline.
pub fn validate_quest_not_expired(deadline: u64, now: u64) -> (r: Result<(), Error>)
    ensures
        r is Err <==> expiry_error(deadline, now) is Some,
        r matches Err(e) ==> expiry_error(deadline, now) == Some(e),
{
    if now > deadline {
        return Err(Error::QuestExpired);
    }
    Ok(())
}

/// The error for a list of the given length, if it is longer than `max`.
pub open spec fn array_length_error(len: nat, max: nat) -> Option<Error> {
    if len > max { Some(Error::ArrayTooLong) } else { None }
}

/// A list may hold at most `max` items.
pub fn validate_array_length(len: usize, max: usize) -> (r: Result<(), Error>)
    ensures
        r is Err <==> array_length_error(len as nat, max as nat) is Some,
        r matches Err(e) ==> array_length_error(len as nat, max as nat) == Some(e),
{
    if len > max {
        return Err(Error::ArrayTooLong);
    }
    Ok(())
}

/// A user may hold at most `MAX_BADGES` badges.
pub fn validate_badge_count(count: u32) -> (r: Result<(), Error>)
    ensures
        r is Err <==> count > MAX_BADGES,
        r matches Err(e) ==> e == Error::ArrayTooLong,
{
    if count > MAX_BADGES {
        return Err(Error::ArrayTooLong);
    }
    Ok(())
}

/// The quest status changes that are allowed: an open quest (active or paused) may be paused
/// or resumed, completed or expired; a completed or expired quest never changes again.
pub open spec fn quest_transition_allowed(from: QuestStatus, to: QuestStatus) -> bool {
    match (from, to) {
        (QuestStatus::Active, QuestStatus::Paused) => true,
        (QuestStatus::Paused, QuestStatus::Active) => true,
        (QuestStatus::Active, QuestStatus::Completed) => true,
        (QuestStatus::Paused, QuestStatus::Completed) => true,
        (QuestStatus::Active, QuestStatus::Expired) => true,
        (QuestStatus::Paused, QuestStatus::Expired) => true,
        _ => false,
    }
}

/// Refuses a quest status change that `quest_transition_allowed` does not allow.
pub fn validate_quest_status_transition(from: QuestStatus, to: QuestStatus) -> (r: Result<
    (),
    Error,
>)
    ensures
        r is Ok <==> quest_transition_allowed(from, to),
        r matches Err(e) ==> e == Error::InvalidStatusTransition,
{
    match (from, to) {
        (QuestStatus::Active, QuestStatus::Paused) => Ok(()),
        (QuestStatus::Paused, QuestStatus::Active) => Ok(()),
        (QuestStatus::Active, QuestStatus::Completed) => Ok(()),
        (QuestStatus::Paused, QuestStatus::Completed) => Ok(()),
        (QuestStatus::Active, QuestStatus::Expired) => Ok(()),
        (QuestStatus::Paused, QuestStatus::Expired) => Ok(()),
        _ => Err(Error::InvalidStatusTransition),
    }
}

/// The submission status changes that are allowed: a pending submission is approved or
/// rejected, and an approved one is paid.
pub open spec fn submission_transition_allowed(
    from: SubmissionStatus,
    to: SubmissionStatus,
) -> bool {
    match (from, to) {
        (SubmissionStatus::Pending, SubmissionStatus::Approved) => true,
        (SubmissionStatus::Pending, SubmissionStatus::Rejected) => true,
        (SubmissionStatus::Approved, SubmissionStatus::Paid) => true,
        _ => false,
    }
}

/// Refuses a submission status change that `submission_transition_allowed` does not allow.
pub fn validate_submission_status_transition(from: SubmissionStatus, to: SubmissionStatus) -> (r:
    Result<(), Error>)
    ensures
        r is Ok <==> submission_transition_allowed(from, to),
        r matches Err(e) ==> e == Error::InvalidStatusTransition,
{
    match (from, to) {
        (SubmissionStatus::Pending, SubmissionStatus::Approved) => Ok(()),
        (SubmissionStatus::Pending, SubmissionStatus::Rejected) => Ok(()),
        (SubmissionStatus::Approved, SubmissionStatus::Paid) => Ok(()),
        _ => Err(Error::InvalidStatusTransition),
    }
}

/// Only an active quest accepts submissions.
pub fn validate_quest_is_active(status: QuestStatus) -> (r: Result<(), Error>)
    ensures
        r is Ok <==> status == QuestStatus::Active,
        r matches Err(e) ==> e == Error::QuestNotActive,
{
    match status {
        QuestStatus::Active => Ok(()),
        _ => Err(Error::QuestNotActive),
    }
}

/// A quest's claim counter must still be able to grow.
pub fn validate_quest_claims_limit(total_claims: u32) -> (r: Result<(), Error>)
    ensures
        r is Ok <==> total_claims < MAX_QUEST_CLAIMS,
        r matches Err(e) ==> e == Error::AmountTooLarge,
{
    if total_claims >= MAX_QUEST_CLAIMS {
        return Err(Error::AmountTooLarge);
    }
    Ok(())
}

/// A batch registration holds at most `MAX_BATCH_QUEST_SIZE` quests.
pub fn validate_batch_quest_size(len: usize) -> (r: Result<(), Error>)
    ensures
        r is Ok <==> len <= MAX_BATCH_QUEST_SIZE,
        r matches Err(e) ==> e == Error::ArrayTooLong,
{
    validate_array_length(len, MAX_BATCH_QUEST_SIZE)
}

/// A batch approval holds at most `MAX_BATCH_APPROVAL_SIZE` submissions.
pub fn validate_batch_approval_size(len: usize) -> (r: Result<(), Error>)
    ensures
        r is Ok <==> len <= MAX_BATCH_APPROVAL_SIZE,
        r matches Err(e) ==> e == Error::ArrayTooLong,
{
    validate_array_length(len, MAX_BATCH_APPROVAL_SIZE)
}

/// Two roles of a quest must be held by different addresses.
pub fn validate_addresses_distinct(a: &Address, b: &Address) -> (r: Result<(), Error>)
    ensures
        r is Ok <==> a@ != b@,
        r matches Err(e) ==> e == Error::InvalidAddress,
{
    if a.same_as(b) {
        return Err(Error::InvalidAddress);
    }
    Ok(())
}

} // verus!
