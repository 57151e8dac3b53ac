use earn_quest::admin::{grant_admin, set_escrow};
use earn_quest::errors::Error;
use earn_quest::escrow::validate_sufficient;
use earn_quest::quest::register_quest;
use earn_quest::storage::QuestBoard;
use earn_quest::types::{Address, Escrow, Quest, Submission, SubmissionStatus, Symbol};

fn addr(s: &str) -> Address {
    Address::new(s.as_bytes().to_vec())
}

fn sym(s: &str) -> Symbol {
    Symbol::new(s.as_bytes().to_vec())
}

#[test]
fn only_administrators_grant() {
    let mut board = QuestBoard::with_admin(addr("ROOT"));
    assert!(board.is_admin(&addr("ROOT")));
    assert_eq!(grant_admin(&mut board, &addr("EVE"), &addr("EVE")), Err(Error::Unauthorized));
    assert!(!board.is_admin(&addr("EVE")));
    assert_eq!(grant_admin(&mut board, &addr("ROOT"), &addr("ALICE")), Ok(()));
    assert!(board.is_admin(&addr("ALICE")));
    assert_eq!(grant_admin(&mut board, &addr("ALICE"), &addr("BOB")), Ok(()));
    // Granting twice keeps one entry.
    assert_eq!(grant_admin(&mut board, &addr("ALICE"), &addr("BOB")), Ok(()));
    assert_eq!(board.admins().len(), 3);
    // A board without administrators accepts no grant.
    let mut empty = QuestBoard::new();
    assert_eq!(grant_admin(&mut empty, &addr("EVE"), &addr("EVE")), Err(Error::Unauthorized));
    assert!(empty.admins().is_empty());
}

#[test]
fn only_administrators_set_escrows() {
    let mut board = QuestBoard::with_admin(addr("ROOT"));
    let e = Escrow { quest_id: sym("q1"), balance: 10, active: true };
    assert_eq!(set_escrow(&mut board, &addr("EVE"), e), Err(Error::Unauthorized));
    assert_eq!(validate_sufficient(&board, &sym("q1"), 1), Err(Error::EscrowNotFound));
    let e = Escrow { quest_id: sym("q1"), balance: 10, active: true };
    assert_eq!(set_escrow(&mut board, &addr("ROOT"), e), Ok(()));
    assert_eq!(validate_sufficient(&board, &sym("q1"), 10), Ok(()));
    assert_eq!(validate_sufficient(&board, &sym("q1"), 11), Err(Error::InsufficientEscrow));
}

fn quest(id: &str) -> Quest {
    let mut board = QuestBoard::new();
    let r = register_quest(&mut board, &sym(id), &addr("C"), &addr("T"), 5, &addr("V"), 10, 1);
    assert_eq!(r, Ok(()));
    board.quests()[0].duplicate()
}

fn submission(quest_id: &str, who: &str) -> Submission {
    Submission {
        quest_id: sym(quest_id),
        submitter: addr(who),
        proof_hash: [0u8; 32],
        status: SubmissionStatus::Pending,
        timestamp: 1,
    }
}

#[test]
fn from_parts_keeps_consistent_parts() {
    let quests = vec![quest("a"), quest("b")];
    let submissions = vec![submission("a", "U"), submission("b", "U"), submission("a", "W")];
    let escrows = vec![Escrow { quest_id: sym("a"), balance: 3, active: true }];
    let admins = vec![addr("ROOT")];
    let board =
        QuestBoard::from_parts(&quests, &Vec::new(), &submissions, &escrows, &admins).unwrap();
    assert_eq!(board.quest_count(), 2);
    assert_eq!(board.submissions().len(), 3);
    assert!(board.is_admin(&addr("ROOT")));
    assert_eq!(board.find_submission(&sym("a"), &addr("W")), Some(2));
}

#[test]
fn from_parts_refuses_repeats() {
    let none: Vec<Address> = Vec::new();
    let quests = vec![quest("a"), quest("a")];
    assert!(QuestBoard::from_parts(&quests, &Vec::new(), &Vec::new(), &Vec::new(), &none).is_none());
    let quests = vec![quest("a")];
    let submissions = vec![submission("a", "U"), submission("a", "U")];
    assert!(QuestBoard::from_parts(&quests, &Vec::new(), &submissions, &Vec::new(), &none).is_none());
    let escrows = vec![
        Escrow { quest_id: sym("a"), balance: 1, active: true },
        Escrow { quest_id: sym("a"), balance: 2, active: true },
    ];
    assert!(QuestBoard::from_parts(&quests, &Vec::new(), &Vec::new(), &escrows, &none).is_none());
}
