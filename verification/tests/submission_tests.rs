use earn_quest::admin::{grant_admin, set_escrow};
use earn_quest::errors::Error;
use earn_quest::escrow::validate_sufficient;
use earn_quest::quest::{pause_quest, register_quest, resume_quest, update_quest_metadata};
use earn_quest::storage::QuestBoard;
use earn_quest::submission::{
    approve_submission, approve_submissions_batch, submit_proof, validate_claim,
};
use earn_quest::types::{
    Address, BatchApprovalInput, Escrow, Submission, SubmissionStatus, Symbol,
};

const NOW: u64 = 1_000;
const DEADLINE: u64 = 2_000;
const HASH: [u8; 32] = [3u8; 32];

fn sym(s: &str) -> Symbol {
    Symbol::new(s.as_bytes().to_vec())
}

fn addr(s: &str) -> Address {
    Address::new(s.as_bytes().to_vec())
}

fn board_with_quests(names: &[&str]) -> QuestBoard {
    let mut board = QuestBoard::with_admin(addr("ROOT"));
    for name in names {
        let r = register_quest(
            &mut board,
            &sym(name),
            &addr("CREATOR"),
            &addr("TOKEN"),
            100,
            &addr("VERIFIER"),
            DEADLINE,
            NOW,
        );
        assert_eq!(r, Ok(()));
    }
    board
}

/// A copy of the board in which the submission at `i` has the given status.
fn with_submission_status(board: &QuestBoard, i: usize, status: SubmissionStatus) -> QuestBoard {
    let mut subs: Vec<Submission> = board.submissions().iter().map(|s| s.duplicate()).collect();
    subs[i].status = status;
    QuestBoard::from_parts(
        board.quests(),
        board.metadata_entries(),
        &subs,
        board.escrows(),
        board.admins(),
    )
    .unwrap()
}

fn status_of(board: &QuestBoard, quest: &str, who: &str) -> Option<SubmissionStatus> {
    board.find_submission(&sym(quest), &addr(who)).map(|i| board.submission_at(i).status)
}

#[test]
fn submit_proof_records_a_pending_submission() {
    let mut board = board_with_quests(&["q1"]);
    assert_eq!(submit_proof(&mut board, &sym("q1"), &addr("USER"), &HASH, NOW + 5), Ok(()));
    let i = board.find_submission(&sym("q1"), &addr("USER")).unwrap();
    let s = board.submission_at(i);
    assert_eq!(s.status, SubmissionStatus::Pending);
    assert_eq!(s.timestamp, NOW + 5);
    assert_eq!(s.proof_hash, HASH);
    assert_eq!(board.submissions().len(), 1);
}

#[test]
fn submit_proof_refusals() {
    let mut board = board_with_quests(&["q1", "q2"]);
    assert_eq!(
        submit_proof(&mut board, &sym("nope"), &addr("USER"), &HASH, NOW),
        Err(Error::QuestNotFound)
    );
    assert_eq!(
        submit_proof(&mut board, &sym("q1"), &addr("USER"), &HASH, DEADLINE + 1),
        Err(Error::QuestExpired)
    );
    assert_eq!(submit_proof(&mut board, &sym("q1"), &addr("USER"), &HASH, DEADLINE), Ok(()));
    grant_admin(&mut board, &addr("ROOT"), &addr("ADMIN")).unwrap();
    assert_eq!(pause_quest(&mut board, &sym("q2"), &addr("ADMIN")), Ok(()));
    assert_eq!(
        submit_proof(&mut board, &sym("q2"), &addr("USER"), &HASH, NOW),
        Err(Error::QuestNotActive)
    );
    // Not active is reported before expired.
    assert_eq!(
        submit_proof(&mut board, &sym("q2"), &addr("USER"), &HASH, DEADLINE + 1),
        Err(Error::QuestNotActive)
    );
    assert_eq!(board.submissions().len(), 1);
}

#[test]
fn submit_proof_again_replaces_the_submission() {
    let mut board = board_with_quests(&["q1"]);
    assert_eq!(submit_proof(&mut board, &sym("q1"), &addr("USER"), &HASH, NOW), Ok(()));
    assert_eq!(approve_submission(&mut board, &sym("q1"), &addr("USER"), &addr("VERIFIER")), Ok(()));
    assert_eq!(status_of(&board, "q1", "USER"), Some(SubmissionStatus::Approved));
    assert_eq!(submit_proof(&mut board, &sym("q1"), &addr("USER"), &[9u8; 32], NOW + 1), Ok(()));
    assert_eq!(board.submissions().len(), 1);
    let s = board.submission_at(0);
    assert_eq!(s.status, SubmissionStatus::Pending);
    assert_eq!(s.proof_hash, [9u8; 32]);
    assert_eq!(s.timestamp, NOW + 1);
}

#[test]
fn approve_submission_and_refusals() {
    let mut board = board_with_quests(&["q1"]);
    assert_eq!(submit_proof(&mut board, &sym("q1"), &addr("USER"), &HASH, NOW), Ok(()));
    assert_eq!(
        approve_submission(&mut board, &sym("nope"), &addr("USER"), &addr("VERIFIER")),
        Err(Error::QuestNotFound)
    );
    assert_eq!(
        approve_submission(&mut board, &sym("q1"), &addr("USER"), &addr("MALLORY")),
        Err(Error::Unauthorized)
    );
    assert_eq!(
        approve_submission(&mut board, &sym("q1"), &addr("OTHER"), &addr("VERIFIER")),
        Err(Error::SubmissionNotFound)
    );
    assert_eq!(status_of(&board, "q1", "USER"), Some(SubmissionStatus::Pending));
    assert_eq!(approve_submission(&mut board, &sym("q1"), &addr("USER"), &addr("VERIFIER")), Ok(()));
    assert_eq!(status_of(&board, "q1", "USER"), Some(SubmissionStatus::Approved));
    assert_eq!(
        approve_submission(&mut board, &sym("q1"), &addr("USER"), &addr("VERIFIER")),
        Err(Error::InvalidStatusTransition)
    );
}

#[test]
fn approve_submission_checks_the_escrow() {
    let mut board = board_with_quests(&["q1"]);
    assert_eq!(submit_proof(&mut board, &sym("q1"), &addr("USER"), &HASH, NOW), Ok(()));
    set_escrow(&mut board, &addr("ROOT"), Escrow { quest_id: sym("q1"), balance: 99, active: true }).unwrap();
    assert_eq!(validate_sufficient(&board, &sym("q1"), 100), Err(Error::InsufficientEscrow));
    assert_eq!(
        approve_submission(&mut board, &sym("q1"), &addr("USER"), &addr("VERIFIER")),
        Err(Error::InsufficientEscrow)
    );
    set_escrow(&mut board, &addr("ROOT"), Escrow { quest_id: sym("q1"), balance: 500, active: false }).unwrap();
    assert_eq!(
        approve_submission(&mut board, &sym("q1"), &addr("USER"), &addr("VERIFIER")),
        Err(Error::EscrowInactive)
    );
    assert_eq!(status_of(&board, "q1", "USER"), Some(SubmissionStatus::Pending));
    set_escrow(&mut board, &addr("ROOT"), Escrow { quest_id: sym("q1"), balance: 100, active: true }).unwrap();
    assert_eq!(validate_sufficient(&board, &sym("q1"), 100), Ok(()));
    assert_eq!(approve_submission(&mut board, &sym("q1"), &addr("USER"), &addr("VERIFIER")), Ok(()));
    assert_eq!(validate_sufficient(&board, &sym("q2"), 1), Err(Error::EscrowNotFound));
}

#[test]
fn validate_claim_follows_the_submission_status() {
    let mut board = board_with_quests(&["q1"]);
    assert_eq!(validate_claim(&board, &sym("nope"), &addr("USER")), Err(Error::QuestNotFound));
    assert_eq!(validate_claim(&board, &sym("q1"), &addr("USER")), Err(Error::SubmissionNotFound));
    assert_eq!(submit_proof(&mut board, &sym("q1"), &addr("USER"), &HASH, NOW), Ok(()));
    assert_eq!(
        validate_claim(&board, &sym("q1"), &addr("USER")),
        Err(Error::InvalidStatusTransition)
    );
    assert_eq!(approve_submission(&mut board, &sym("q1"), &addr("USER"), &addr("VERIFIER")), Ok(()));
    assert_eq!(validate_claim(&board, &sym("q1"), &addr("USER")), Ok(()));
    let i = board.find_submission(&sym("q1"), &addr("USER")).unwrap();
    let board = with_submission_status(&board, i, SubmissionStatus::Paid);
    assert_eq!(validate_claim(&board, &sym("q1"), &addr("USER")), Err(Error::AlreadyClaimed));
    let board = with_submission_status(&board, i, SubmissionStatus::Rejected);
    assert_eq!(
        validate_claim(&board, &sym("q1"), &addr("USER")),
        Err(Error::InvalidStatusTransition)
    );
}

fn item(quest: &str, who: &str) -> BatchApprovalInput {
    BatchApprovalInput { quest_id: sym(quest), submitter: addr(who) }
}

#[test]
fn approve_submissions_batch_approves_all() {
    let mut board = board_with_quests(&["q1", "q2"]);
    for (q, u) in [("q1", "U1"), ("q1", "U2"), ("q2", "U1")] {
        assert_eq!(submit_proof(&mut board, &sym(q), &addr(u), &HASH, NOW), Ok(()));
    }
    let batch = vec![item("q1", "U1"), item("q1", "U2"), item("q2", "U1")];
    assert_eq!(approve_submissions_batch(&mut board, &addr("VERIFIER"), &batch), Ok(()));
    for (q, u) in [("q1", "U1"), ("q1", "U2"), ("q2", "U1")] {
        assert_eq!(status_of(&board, q, u), Some(SubmissionStatus::Approved));
    }
}

#[test]
fn approve_submissions_batch_is_all_or_nothing() {
    let mut board = board_with_quests(&["q1"]);
    for u in ["U1", "U2"] {
        assert_eq!(submit_proof(&mut board, &sym("q1"), &addr(u), &HASH, NOW), Ok(()));
    }
    let batch = vec![item("q1", "U1"), item("q1", "U3"), item("q1", "U2")];
    assert_eq!(
        approve_submissions_batch(&mut board, &addr("VERIFIER"), &batch),
        Err(Error::SubmissionNotFound)
    );
    assert_eq!(status_of(&board, "q1", "U1"), Some(SubmissionStatus::Pending));
    assert_eq!(status_of(&board, "q1", "U2"), Some(SubmissionStatus::Pending));
    // The same submission twice: the second approval is refused, so neither stays.
    let batch = vec![item("q1", "U1"), item("q1", "U1")];
    assert_eq!(
        approve_submissions_batch(&mut board, &addr("VERIFIER"), &batch),
        Err(Error::InvalidStatusTransition)
    );
    assert_eq!(status_of(&board, "q1", "U1"), Some(SubmissionStatus::Pending));
}

#[test]
fn approve_submissions_batch_refusals() {
    let mut board = board_with_quests(&["q1"]);
    assert_eq!(submit_proof(&mut board, &sym("q1"), &addr("U1"), &HASH, NOW), Ok(()));
    assert_eq!(submit_proof(&mut board, &sym("q1"), &addr("VERIFIER"), &HASH, NOW), Ok(()));
    // The verifier's own submission anywhere in the batch refuses the whole batch first.
    let batch = vec![item("nope", "U1"), item("q1", "VERIFIER")];
    assert_eq!(
        approve_submissions_batch(&mut board, &addr("VERIFIER"), &batch),
        Err(Error::InvalidAddress)
    );
    let batch = vec![item("q1", "U1")];
    assert_eq!(
        approve_submissions_batch(&mut board, &addr("MALLORY"), &batch),
        Err(Error::Unauthorized)
    );
    let batch: Vec<BatchApprovalInput> = (0..51).map(|_| item("q1", "U1")).collect();
    assert_eq!(
        approve_submissions_batch(&mut board, &addr("VERIFIER"), &batch),
        Err(Error::ArrayTooLong)
    );
    assert_eq!(approve_submissions_batch(&mut board, &addr("VERIFIER"), &Vec::new()), Ok(()));
    assert_eq!(status_of(&board, "q1", "U1"), Some(SubmissionStatus::Pending));
}

#[test]
fn approve_batch_of_one_is_like_approve() {
    let mut a = board_with_quests(&["q1"]);
    assert_eq!(submit_proof(&mut a, &sym("q1"), &addr("U1"), &HASH, NOW), Ok(()));
    let mut b = board_with_quests(&["q1"]);
    assert_eq!(submit_proof(&mut b, &sym("q1"), &addr("U1"), &HASH, NOW), Ok(()));
    let r1 = approve_submissions_batch(&mut a, &addr("VERIFIER"), &vec![item("q1", "U1")]);
    let r2 = approve_submission(&mut b, &sym("q1"), &addr("U1"), &addr("VERIFIER"));
    assert_eq!(r1, r2);
    assert_eq!(status_of(&a, "q1", "U1"), status_of(&b, "q1", "U1"));
}

#[test]
fn error_codes() {
    assert_eq!(Error::QuestAlreadyExists.code(), 1);
    assert_eq!(Error::Unauthorized.code(), 10);
    assert_eq!(Error::InvalidStatusTransition.code(), 63);
    assert_eq!(Error::IndexOutOfBounds.code(), 90);
    for code in 0..100u32 {
        if let Some(e) = Error::from_code(code) {
            assert_eq!(e.code(), code);
        }
    }
    assert_eq!(Error::from_code(5), None);
    assert_eq!(Error::from_code(76), Some(Error::MetadataNotFound));
}

#[test]
fn paused_quest_refuses_proofs_until_resumed() {
    let mut board = board_with_quests(&["q1", "q2"]);
    grant_admin(&mut board, &addr("ROOT"), &addr("ADMIN")).unwrap();
    assert_eq!(pause_quest(&mut board, &sym("q1"), &addr("ADMIN")), Ok(()));
    // Other operations in between leave q1 paused.
    assert_eq!(submit_proof(&mut board, &sym("q2"), &addr("U"), &HASH, NOW), Ok(()));
    assert_eq!(approve_submission(&mut board, &sym("q2"), &addr("U"), &addr("VERIFIER")), Ok(()));
    assert_eq!(pause_quest(&mut board, &sym("q2"), &addr("ADMIN")), Ok(()));
    assert_eq!(resume_quest(&mut board, &sym("q2"), &addr("ADMIN")), Ok(()));
    assert_eq!(pause_quest(&mut board, &sym("q1"), &addr("ADMIN")), Err(Error::InvalidStatusTransition));
    let m = earn_quest::types::QuestMetadata {
        title: b"t".to_vec(),
        description: earn_quest::types::MetadataDescription::Hash([1u8; 32]),
        requirements: Vec::new(),
        category: b"c".to_vec(),
        tags: Vec::new(),
    };
    assert_eq!(update_quest_metadata(&mut board, &sym("q1"), &addr("CREATOR"), &m), Ok(()));
    assert_eq!(resume_quest(&mut board, &sym("q1"), &addr("STRANGER")), Err(Error::Unauthorized));
    assert_eq!(
        submit_proof(&mut board, &sym("q1"), &addr("U"), &HASH, NOW),
        Err(Error::QuestNotActive)
    );
    assert_eq!(resume_quest(&mut board, &sym("q1"), &addr("ADMIN")), Ok(()));
    assert_eq!(submit_proof(&mut board, &sym("q1"), &addr("U"), &HASH, NOW), Ok(()));
}
