use earn_quest::errors::Error;
use earn_quest::types::{Address, QuestStatus, SubmissionStatus, Symbol};
use earn_quest::validation::{
    validate_addresses_distinct, validate_array_length, validate_badge_count,
    validate_batch_approval_size, validate_batch_quest_size, validate_deadline,
    validate_quest_claims_limit, validate_quest_is_active, validate_quest_not_expired,
    validate_quest_status_transition, validate_reward_amount, validate_submission_status_transition,
    validate_symbol_length,
};

const QUEST_STATUSES: [QuestStatus; 4] =
    [QuestStatus::Active, QuestStatus::Paused, QuestStatus::Completed, QuestStatus::Expired];

const SUBMISSION_STATUSES: [SubmissionStatus; 4] = [
    SubmissionStatus::Pending,
    SubmissionStatus::Approved,
    SubmissionStatus::Rejected,
    SubmissionStatus::Paid,
];

#[test]
fn quest_transitions() {
    let allowed = [
        (QuestStatus::Active, QuestStatus::Paused),
        (QuestStatus::Paused, QuestStatus::Active),
        (QuestStatus::Active, QuestStatus::Completed),
        (QuestStatus::Paused, QuestStatus::Completed),
        (QuestStatus::Active, QuestStatus::Expired),
        (QuestStatus::Paused, QuestStatus::Expired),
    ];
    for from in QUEST_STATUSES {
        for to in QUEST_STATUSES {
            let expected = if allowed.contains(&(from, to)) {
                Ok(())
            } else {
                Err(Error::InvalidStatusTransition)
            };
            assert_eq!(validate_quest_status_transition(from, to), expected);
        }
    }
}

#[test]
fn terminal_quest_statuses_are_final() {
    for from in [QuestStatus::Completed, QuestStatus::Expired] {
        for to in QUEST_STATUSES {
            assert_eq!(
                validate_quest_status_transition(from, to),
                Err(Error::InvalidStatusTransition)
            );
        }
    }
}

#[test]
fn submission_transitions() {
    let allowed = [
        (SubmissionStatus::Pending, SubmissionStatus::Approved),
        (SubmissionStatus::Pending, SubmissionStatus::Rejected),
        (SubmissionStatus::Approved, SubmissionStatus::Paid),
    ];
    for from in SUBMISSION_STATUSES {
        for to in SUBMISSION_STATUSES {
            let expected = if allowed.contains(&(from, to)) {
                Ok(())
            } else {
                Err(Error::InvalidStatusTransition)
            };
            assert_eq!(validate_submission_status_transition(from, to), expected);
        }
    }
}

#[test]
fn reward_amount_bounds() {
    assert_eq!(validate_reward_amount(0), Err(Error::InvalidRewardAmount));
    assert_eq!(validate_reward_amount(i128::MIN), Err(Error::InvalidRewardAmount));
    assert_eq!(validate_reward_amount(1), Ok(()));
    assert_eq!(validate_reward_amount(1_000_000_000_000_000_000), Ok(()));
    assert_eq!(validate_reward_amount(1_000_000_000_000_000_001), Err(Error::AmountTooLarge));
    assert_eq!(validate_reward_amount(i128::MAX), Err(Error::AmountTooLarge));
}

#[test]
fn deadline_and_expiry() {
    assert_eq!(validate_deadline(11, 10), Ok(()));
    assert_eq!(validate_deadline(10, 10), Err(Error::DeadlineInPast));
    assert_eq!(validate_deadline(0, 10), Err(Error::DeadlineInPast));
    assert_eq!(validate_quest_not_expired(10, 10), Ok(()));
    assert_eq!(validate_quest_not_expired(10, 11), Err(Error::QuestExpired));
    assert_eq!(validate_quest_not_expired(10, 0), Ok(()));
}

#[test]
fn addresses_must_differ() {
    let a = Address::new(b"GA".to_vec());
    let b = Address::new(b"GB".to_vec());
    assert_eq!(validate_addresses_distinct(&a, &b), Ok(()));
    assert_eq!(validate_addresses_distinct(&a, &a.duplicate()), Err(Error::InvalidAddress));
}

#[test]
fn lengths_and_sizes() {
    assert_eq!(validate_symbol_length(32), Ok(()));
    assert_eq!(validate_symbol_length(33), Err(Error::StringTooLong));
    assert_eq!(validate_array_length(3, 3), Ok(()));
    assert_eq!(validate_array_length(4, 3), Err(Error::ArrayTooLong));
    assert_eq!(validate_batch_quest_size(50), Ok(()));
    assert_eq!(validate_batch_quest_size(51), Err(Error::ArrayTooLong));
    assert_eq!(validate_batch_approval_size(0), Ok(()));
    assert_eq!(validate_batch_approval_size(51), Err(Error::ArrayTooLong));
    assert_eq!(validate_badge_count(0), Ok(()));
    assert_eq!(validate_badge_count(100), Ok(()));
    assert_eq!(validate_badge_count(101), Err(Error::ArrayTooLong));
    assert_eq!(validate_quest_claims_limit(0), Ok(()));
    assert_eq!(validate_quest_claims_limit(u32::MAX - 1), Ok(()));
    assert_eq!(validate_quest_claims_limit(u32::MAX), Err(Error::AmountTooLarge));
}

#[test]
fn only_active_quests_accept_proofs() {
    assert_eq!(validate_quest_is_active(QuestStatus::Active), Ok(()));
    for s in [QuestStatus::Paused, QuestStatus::Completed, QuestStatus::Expired] {
        assert_eq!(validate_quest_is_active(s), Err(Error::QuestNotActive));
    }
}

#[test]
fn symbols_compare_by_bytes() {
    let a = Symbol::new(b"quest".to_vec());
    assert!(a.same_as(&a.duplicate()));
    assert!(!a.same_as(&Symbol::new(b"quest2".to_vec())));
    assert_eq!(a.len(), 5);
}
