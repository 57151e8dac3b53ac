//! Quests with rewards: registration, pausing, metadata and paginated queries of quests, and
//! the submission, approval and claim checks of the proofs that users hand in.

pub mod errors;
pub mod types;
pub mod validation;
pub mod storage;
pub mod quest;
pub mod escrow;
pub mod submission;
pub mod laws;
pub mod admin;
pub mod history;
pub mod outcomes;
