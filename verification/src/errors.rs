use vstd::prelude::*;

verus! {

/// Every way in which a quest or submission operation can be refused.
#[derive(Copy, Clone, Debug, PartialEq, Eq, Structural, PartialOrd, Ord)]
pub enum Error {
    // Quest errors
    QuestAlreadyExists,
    QuestNotFound,
    InvalidRewardAmount,
    QuestStillActive,
    // Authorization errors
    Unauthorized,
    // Submission errors
    InvalidSubmissionStatus,
    SubmissionNotFound,
    // Payout errors
    InsufficientBalance,
    TransferFailed,
    AlreadyClaimed,
    InvalidAsset,
    // Reputation errors
    UserStatsNotFound,
    // Security and emergency errors
    Paused,
    TimelockNotExpired,
    AlreadyApproved,
    InsufficientApprovals,
    // Validation errors
    DeadlineInPast,
    StringTooLong,
    ArrayTooLong,
    InvalidStatusTransition,
    AmountTooLarge,
    InvalidAddress,
    QuestExpired,
    QuestNotActive,
    // Escrow errors
    InsufficientEscrow,
    EscrowNotFound,
    EscrowInactive,
    NoFundsToWithdraw,
    QuestNotTerminal,
    TokenMismatch,
    MetadataNotFound,
    // Reentrancy
    ReentrantCall,
    // Array bounds errors
    IndexOutOfBounds,
}

/// The stable numeric code under which each error is reported to callers.
pub open spec fn error_code(e: Error) -> u32 {
    match e {
        Error::QuestAlreadyExists => 1,
        Error::QuestNotFound => 2,
        Error::InvalidRewardAmount => 3,
        Error::QuestStillActive => 4,
        Error::Unauthorized => 10,
        Error::InvalidSubmissionStatus => 20,
        Error::SubmissionNotFound => 21,
        Error::InsufficientBalance => 30,
        Error::TransferFailed => 31,
        Error::AlreadyClaimed => 32,
        Error::InvalidAsset => 33,
        Error::UserStatsNotFound => 40,
        Error::Paused => 50,
        Error::TimelockNotExpired => 51,
        Error::AlreadyApproved => 52,
        Error::InsufficientApprovals => 53,
        Error::DeadlineInPast => 60,
        Error::StringTooLong => 61,
        Error::ArrayTooLong => 62,
        Error::InvalidStatusTransition => 63,
        Error::AmountTooLarge => 64,
        Error::InvalidAddress => 65,
        Error::QuestExpired => 66,
        Error::QuestNotActive => 67,
        Error::InsufficientEscrow => 70,
        Error::EscrowNotFound => 71,
        Error::EscrowInactive => 72,
        Error::NoFundsToWithdraw => 73,
        Error::QuestNotTerminal => 74,
        Error::TokenMismatch => 75,
        Error::MetadataNotFound => 76,
        Error::ReentrantCall => 80,
        Error::IndexOutOfBounds => 90,
    }
}

impl Error {
    /// The numeric code of this error.
    pub fn code(&self) -> (c: u32)
        ensures
            c == error_code(*self),
    {
        match self {
            Error::QuestAlreadyExists => 1,
            Error::QuestNotFound => 2,
            Error::InvalidRewardAmount => 3,
            Error::QuestStillActive => 4,
            Error::Unauthorized => 10,
            Error::InvalidSubmissionStatus => 20,
            Error::SubmissionNotFound => 21,
            Error::InsufficientBalance => 30,
            Error::TransferFailed => 31,
            Error::AlreadyClaimed => 32,
            Error::InvalidAsset => 33,
            Error::UserStatsNotFound => 40,
            Error::Paused => 50,
            Error::TimelockNotExpired => 51,
            Error::AlreadyApproved => 52,
            Error::InsufficientApprovals => 53,
            Error::DeadlineInPast => 60,
            Error::StringTooLong => 61,
            Error::ArrayTooLong => 62,
            Error::InvalidStatusTransition => 63,
            Error::AmountTooLarge => 64,
            Error::InvalidAddress => 65,
            Error::QuestExpired => 66,
            Error::QuestNotActive => 67,
            Error::InsufficientEscrow => 70,
            Error::EscrowNotFound => 71,
            Error::EscrowInactive => 72,
            Error::NoFundsToWithdraw => 73,
            Error::QuestNotTerminal => 74,
            Error::TokenMismatch => 75,
            Error::MetadataNotFound => 76,
            Error::ReentrantCall => 80,
            Error::IndexOutOfBounds => 90,
        }
    }

    /// The error that `code` reports under the given number, if any.
    pub fn from_code(code: u32) -> (r: Option<Error>)
        ensures
            match r {
                Some(e) => error_code(e) == code,
                None => forall|e: Error| error_code(e) != code,
            },
    {
        let r = match code {
            1 => Some(Error::QuestAlreadyExists),
            2 => Some(Error::QuestNotFound),
            3 => Some(Error::InvalidRewardAmount),
            4 => Some(Error::QuestStillActive),
            10 => Some(Error::Unauthorized),
            20 => Some(Error::InvalidSubmissionStatus),
            21 => Some(Error::SubmissionNotFound),
            30 => Some(Error::InsufficientBalance),
            31 => Some(Error::TransferFailed),
            32 => Some(Error::AlreadyClaimed),
            33 => Some(Error::InvalidAsset),
            40 => Some(Error::UserStatsNotFound),
            50 => Some(Error::Paused),
            51 => Some(Error::TimelockNotExpired),
            52 => Some(Error::AlreadyApproved),
            53 => Some(Error::InsufficientApprovals),
            60 => Some(Error::DeadlineInPast),
            61 => Some(Error::StringTooLong),
            62 => Some(Error::ArrayTooLong),
            63 => Some(Error::InvalidStatusTransition),
            64 => Some(Error::AmountTooLarge),
            65 => Some(Error::InvalidAddress),
            66 => Some(Error::QuestExpired),
            67 => Some(Error::QuestNotActive),
            70 => Some(Error::InsufficientEscrow),
            71 => Some(Error::EscrowNotFound),
            72 => Some(Error::EscrowInactive),
            73 => Some(Error::NoFundsToWithdraw),
            74 => Some(Error::QuestNotTerminal),
            75 => Some(Error::TokenMismatch),
            76 => Some(Error::MetadataNotFound),
            80 => Some(Error::ReentrantCall),
            90 => Some(Error::IndexOutOfBounds),
            _ => None,
        };
        r
    }
}

} // verus!
