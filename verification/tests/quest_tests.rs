use earn_quest::admin::grant_admin;
use earn_quest::errors::Error;
use earn_quest::quest::{
    get_active_quests, get_quests_by_creator, get_quests_by_reward_range, get_quests_by_status,
    pause_quest, register_quest, register_quest_with_metadata, register_quests_batch,
    resume_quest, update_quest_metadata, validate_metadata, validate_string_len,
};
use earn_quest::storage::QuestBoard;
use earn_quest::types::{
    Address, BatchQuestInput, MetadataDescription, Quest, QuestMetadata, QuestStatus, Symbol,
};

const NOW: u64 = 1_000;
const DEADLINE: u64 = 2_000;

fn sym(s: &str) -> Symbol {
    Symbol::new(s.as_bytes().to_vec())
}

fn addr(s: &str) -> Address {
    Address::new(s.as_bytes().to_vec())
}

fn register(board: &mut QuestBoard, id: &str, creator: &str, amount: i128) -> Result<(), Error> {
    register_quest(
        board,
        &sym(id),
        &addr(creator),
        &addr("TOKEN"),
        amount,
        &addr("VERIFIER"),
        DEADLINE,
        NOW,
    )
}

fn ids(quests: &[Quest]) -> Vec<String> {
    quests.iter().map(|q| String::from_utf8(q.id.bytes.clone()).unwrap()).collect()
}

fn metadata() -> QuestMetadata {
    QuestMetadata {
        title: b"Write docs".to_vec(),
        description: MetadataDescription::Inline(b"Document the API".to_vec()),
        requirements: vec![b"Markdown".to_vec()],
        category: b"docs".to_vec(),
        tags: vec![b"writing".to_vec(), b"easy".to_vec()],
    }
}

#[test]
fn register_quest_stores_an_active_quest() {
    let mut board = QuestBoard::with_admin(addr("ROOT"));
    assert_eq!(register(&mut board, "q1", "CREATOR", 500), Ok(()));
    assert_eq!(board.quest_count(), 1);
    let q = &board.quests()[0];
    assert_eq!(q.id.bytes, b"q1".to_vec());
    assert_eq!(q.creator.bytes, b"CREATOR".to_vec());
    assert_eq!(q.reward_asset.bytes, b"TOKEN".to_vec());
    assert_eq!(q.reward_amount, 500);
    assert_eq!(q.verifier.bytes, b"VERIFIER".to_vec());
    assert_eq!(q.deadline, DEADLINE);
    assert_eq!(q.status, QuestStatus::Active);
    assert_eq!(q.total_claims, 0);
}

#[test]
fn register_quest_twice_is_refused() {
    let mut board = QuestBoard::with_admin(addr("ROOT"));
    assert_eq!(register(&mut board, "q1", "CREATOR", 500), Ok(()));
    assert_eq!(register(&mut board, "q1", "OTHER", 700), Err(Error::QuestAlreadyExists));
    assert_eq!(board.quest_count(), 1);
    assert_eq!(board.quests()[0].reward_amount, 500);
}

#[test]
fn register_quest_refusals() {
    let mut board = QuestBoard::with_admin(addr("ROOT"));
    let long_name = "a".repeat(33);
    assert_eq!(register(&mut board, &long_name, "CREATOR", 500), Err(Error::StringTooLong));
    let longest_name = "a".repeat(32);
    assert_eq!(register(&mut board, &longest_name, "CREATOR", 500), Ok(()));
    assert_eq!(register(&mut board, "zero", "CREATOR", 0), Err(Error::InvalidRewardAmount));
    assert_eq!(register(&mut board, "neg", "CREATOR", -5), Err(Error::InvalidRewardAmount));
    assert_eq!(
        register(&mut board, "huge", "CREATOR", 1_000_000_000_000_000_001),
        Err(Error::AmountTooLarge)
    );
    assert_eq!(register(&mut board, "max", "CREATOR", 1_000_000_000_000_000_000), Ok(()));
    let past = register_quest(
        &mut board,
        &sym("past"),
        &addr("CREATOR"),
        &addr("TOKEN"),
        10,
        &addr("VERIFIER"),
        NOW,
        NOW,
    );
    assert_eq!(past, Err(Error::DeadlineInPast));
    let same = register_quest(
        &mut board,
        &sym("same"),
        &addr("VERIFIER"),
        &addr("TOKEN"),
        10,
        &addr("VERIFIER"),
        DEADLINE,
        NOW,
    );
    assert_eq!(same, Err(Error::InvalidAddress));
    assert_eq!(board.quest_count(), 2);
}

#[test]
fn register_quest_checks_in_order() {
    let mut board = QuestBoard::with_admin(addr("ROOT"));
    assert_eq!(register(&mut board, "q1", "CREATOR", 500), Ok(()));
    // A taken name is reported before a bad reward.
    assert_eq!(register(&mut board, "q1", "CREATOR", 0), Err(Error::QuestAlreadyExists));
    // A bad reward is reported before a past deadline.
    let r = register_quest(
        &mut board,
        &sym("q2"),
        &addr("VERIFIER"),
        &addr("TOKEN"),
        0,
        &addr("VERIFIER"),
        0,
        NOW,
    );
    assert_eq!(r, Err(Error::InvalidRewardAmount));
}

#[test]
fn register_quest_with_metadata_stores_both() {
    let mut board = QuestBoard::with_admin(addr("ROOT"));
    let r = register_quest_with_metadata(
        &mut board,
        &sym("q1"),
        &addr("CREATOR"),
        &addr("TOKEN"),
        100,
        &addr("VERIFIER"),
        DEADLINE,
        &metadata(),
        NOW,
    );
    assert_eq!(r, Ok(()));
    assert_eq!(board.quest_count(), 1);
    let stored = board.get_metadata(&sym("q1")).unwrap();
    assert_eq!(stored.title, b"Write docs".to_vec());
    assert_eq!(stored.tags.len(), 2);
}

#[test]
fn register_quest_with_bad_metadata_registers_nothing() {
    let mut board = QuestBoard::with_admin(addr("ROOT"));
    let mut m = metadata();
    m.title = vec![b'x'; 81];
    let r = register_quest_with_metadata(
        &mut board,
        &sym("q1"),
        &addr("CREATOR"),
        &addr("TOKEN"),
        100,
        &addr("VERIFIER"),
        DEADLINE,
        &m,
        NOW,
    );
    assert_eq!(r, Err(Error::StringTooLong));
    assert_eq!(board.quest_count(), 0);
    assert!(board.get_metadata(&sym("q1")).is_none());
}

#[test]
fn register_quest_with_metadata_reports_quest_errors_first() {
    let mut board = QuestBoard::with_admin(addr("ROOT"));
    let mut m = metadata();
    m.title = vec![b'x'; 81];
    let r = register_quest_with_metadata(
        &mut board,
        &sym("q1"),
        &addr("CREATOR"),
        &addr("TOKEN"),
        0,
        &addr("VERIFIER"),
        DEADLINE,
        &m,
        NOW,
    );
    assert_eq!(r, Err(Error::InvalidRewardAmount));
}

fn batch_item(id: &str, amount: i128) -> BatchQuestInput {
    BatchQuestInput {
        id: sym(id),
        reward_asset: addr("TOKEN"),
        reward_amount: amount,
        verifier: addr("VERIFIER"),
        deadline: DEADLINE,
    }
}

#[test]
fn register_quests_batch_registers_all_in_order() {
    let mut board = QuestBoard::with_admin(addr("ROOT"));
    let items = vec![batch_item("a", 1), batch_item("b", 2), batch_item("c", 3)];
    assert_eq!(register_quests_batch(&mut board, &addr("CREATOR"), &items, NOW), Ok(()));
    assert_eq!(ids(board.quests()), vec!["a", "b", "c"]);
    assert!(board.quests().iter().all(|q| q.creator.bytes == b"CREATOR".to_vec()));
}

#[test]
fn register_quests_batch_is_all_or_nothing() {
    let mut board = QuestBoard::with_admin(addr("ROOT"));
    assert_eq!(register(&mut board, "old", "CREATOR", 5), Ok(()));
    let items = vec![batch_item("a", 1), batch_item("b", 0), batch_item("c", 3)];
    assert_eq!(
        register_quests_batch(&mut board, &addr("CREATOR"), &items, NOW),
        Err(Error::InvalidRewardAmount)
    );
    assert_eq!(ids(board.quests()), vec!["old"]);
    // A name repeated inside the batch is refused too.
    let items = vec![batch_item("a", 1), batch_item("a", 2)];
    assert_eq!(
        register_quests_batch(&mut board, &addr("CREATOR"), &items, NOW),
        Err(Error::QuestAlreadyExists)
    );
    assert_eq!(ids(board.quests()), vec!["old"]);
}

#[test]
fn register_quests_batch_size_limit() {
    let mut board = QuestBoard::with_admin(addr("ROOT"));
    let items: Vec<BatchQuestInput> = (0..51).map(|i| batch_item(&format!("q{}", i), 1)).collect();
    assert_eq!(
        register_quests_batch(&mut board, &addr("CREATOR"), &items, NOW),
        Err(Error::ArrayTooLong)
    );
    assert_eq!(board.quest_count(), 0);
    let items: Vec<BatchQuestInput> = (0..50).map(|i| batch_item(&format!("q{}", i), 1)).collect();
    assert_eq!(register_quests_batch(&mut board, &addr("CREATOR"), &items, NOW), Ok(()));
    assert_eq!(board.quest_count(), 50);
    assert_eq!(register_quests_batch(&mut board, &addr("CREATOR"), &Vec::new(), NOW), Ok(()));
    assert_eq!(board.quest_count(), 50);
}

#[test]
fn register_batch_of_one_is_like_register() {
    let mut a = QuestBoard::with_admin(addr("ROOT"));
    let mut b = QuestBoard::with_admin(addr("ROOT"));
    let r1 = register_quests_batch(&mut a, &addr("CREATOR"), &vec![batch_item("x", 9)], NOW);
    let r2 = register(&mut b, "x", "CREATOR", 9);
    assert_eq!(r1, r2);
    assert_eq!(ids(a.quests()), ids(b.quests()));
    assert_eq!(a.quests()[0].reward_amount, b.quests()[0].reward_amount);
}

#[test]
fn pause_and_resume() {
    let mut board = QuestBoard::with_admin(addr("ROOT"));
    assert_eq!(register(&mut board, "q1", "CREATOR", 5), Ok(()));
    let admin = addr("ADMIN");
    // ADMIN is not an administrator yet.
    assert_eq!(pause_quest(&mut board, &sym("q1"), &admin), Err(Error::Unauthorized));
    grant_admin(&mut board, &addr("ROOT"), &addr("ADMIN")).unwrap();
    assert_eq!(resume_quest(&mut board, &sym("q1"), &admin), Err(Error::InvalidStatusTransition));
    assert_eq!(pause_quest(&mut board, &sym("q1"), &admin), Ok(()));
    assert_eq!(board.quests()[0].status, QuestStatus::Paused);
    assert_eq!(pause_quest(&mut board, &sym("q1"), &admin), Err(Error::InvalidStatusTransition));
    assert_eq!(board.quests()[0].status, QuestStatus::Paused);
    assert_eq!(resume_quest(&mut board, &sym("q1"), &admin), Ok(()));
    assert_eq!(board.quests()[0].status, QuestStatus::Active);
    assert_eq!(pause_quest(&mut board, &sym("nope"), &admin), Err(Error::QuestNotFound));
    assert_eq!(resume_quest(&mut board, &sym("nope"), &admin), Err(Error::QuestNotFound));
}

#[test]
fn pause_then_resume_restores_the_quest() {
    let mut board = QuestBoard::with_admin(addr("ROOT"));
    assert_eq!(register(&mut board, "q1", "CREATOR", 5), Ok(()));
    assert_eq!(register(&mut board, "q2", "CREATOR", 6), Ok(()));
    let before: Vec<(Vec<u8>, QuestStatus)> =
        board.quests().iter().map(|q| (q.id.bytes.clone(), q.status)).collect();
    grant_admin(&mut board, &addr("ROOT"), &addr("ADMIN")).unwrap();
    assert_eq!(pause_quest(&mut board, &sym("q2"), &addr("ADMIN")), Ok(()));
    assert_eq!(board.quests()[0].status, QuestStatus::Active);
    assert_eq!(resume_quest(&mut board, &sym("q2"), &addr("ADMIN")), Ok(()));
    let after: Vec<(Vec<u8>, QuestStatus)> =
        board.quests().iter().map(|q| (q.id.bytes.clone(), q.status)).collect();
    assert_eq!(before, after);
}

#[test]
fn only_administrators_pause_and_resume() {
    let mut board = QuestBoard::with_admin(addr("ROOT"));
    assert_eq!(register(&mut board, "q1", "CREATOR", 5), Ok(()));
    grant_admin(&mut board, &addr("ROOT"), &addr("ADMIN")).unwrap();
    // Not even the creator or the verifier may pause.
    for who in ["CREATOR", "VERIFIER", "STRANGER"] {
        assert_eq!(pause_quest(&mut board, &sym("q1"), &addr(who)), Err(Error::Unauthorized));
        assert_eq!(board.quests()[0].status, QuestStatus::Active);
    }
    // The quest is looked up before the caller is checked.
    assert_eq!(pause_quest(&mut board, &sym("nope"), &addr("STRANGER")), Err(Error::QuestNotFound));
    assert_eq!(resume_quest(&mut board, &sym("nope"), &addr("STRANGER")), Err(Error::QuestNotFound));
    assert_eq!(pause_quest(&mut board, &sym("q1"), &addr("ADMIN")), Ok(()));
    assert_eq!(resume_quest(&mut board, &sym("q1"), &addr("CREATOR")), Err(Error::Unauthorized));
    assert_eq!(board.quests()[0].status, QuestStatus::Paused);
    assert_eq!(resume_quest(&mut board, &sym("q1"), &addr("ADMIN")), Ok(()));
    assert_eq!(board.quests()[0].status, QuestStatus::Active);
}

#[test]
fn update_quest_metadata_by_creator_and_admin() {
    let mut board = QuestBoard::with_admin(addr("ROOT"));
    assert_eq!(register(&mut board, "q1", "CREATOR", 5), Ok(()));
    assert_eq!(update_quest_metadata(&mut board, &sym("q1"), &addr("CREATOR"), &metadata()), Ok(()));
    assert_eq!(board.get_metadata(&sym("q1")).unwrap().category, b"docs".to_vec());
    let mut m = metadata();
    m.category = b"art".to_vec();
    assert_eq!(
        update_quest_metadata(&mut board, &sym("q1"), &addr("ADMIN"), &m),
        Err(Error::Unauthorized)
    );
    grant_admin(&mut board, &addr("ROOT"), &addr("ADMIN")).unwrap();
    assert_eq!(update_quest_metadata(&mut board, &sym("q1"), &addr("ADMIN"), &m), Ok(()));
    assert_eq!(board.get_metadata(&sym("q1")).unwrap().category, b"art".to_vec());
    assert_eq!(
        update_quest_metadata(&mut board, &sym("q9"), &addr("CREATOR"), &m),
        Err(Error::QuestNotFound)
    );
    m.category = vec![b'c'; 41];
    assert_eq!(
        update_quest_metadata(&mut board, &sym("q1"), &addr("CREATOR"), &m),
        Err(Error::StringTooLong)
    );
    assert_eq!(board.get_metadata(&sym("q1")).unwrap().category, b"art".to_vec());
}

#[test]
fn validate_metadata_limits() {
    assert_eq!(validate_metadata(&metadata()), Ok(()));

    let mut m = metadata();
    m.title = vec![b't'; 80];
    assert_eq!(validate_metadata(&m), Ok(()));
    m.title = vec![b't'; 81];
    assert_eq!(validate_metadata(&m), Err(Error::StringTooLong));

    let mut m = metadata();
    m.category = vec![b'c'; 41];
    assert_eq!(validate_metadata(&m), Err(Error::StringTooLong));

    let mut m = metadata();
    m.tags = vec![b"t".to_vec(); 15];
    assert_eq!(validate_metadata(&m), Ok(()));
    m.tags = vec![b"t".to_vec(); 16];
    assert_eq!(validate_metadata(&m), Err(Error::ArrayTooLong));

    let mut m = metadata();
    m.tags = vec![b"ok".to_vec(), vec![b'x'; 33]];
    assert_eq!(validate_metadata(&m), Err(Error::StringTooLong));
    m.tags = vec![b"ok".to_vec(), vec![b'x'; 32]];
    assert_eq!(validate_metadata(&m), Ok(()));

    let mut m = metadata();
    m.requirements = vec![b"r".to_vec(); 21];
    assert_eq!(validate_metadata(&m), Err(Error::ArrayTooLong));
    m.requirements = vec![vec![b'r'; 201]];
    assert_eq!(validate_metadata(&m), Err(Error::StringTooLong));
    m.requirements = vec![vec![b'r'; 200]];
    assert_eq!(validate_metadata(&m), Ok(()));

    let mut m = metadata();
    m.description = MetadataDescription::Inline(vec![b'd'; 1201]);
    assert_eq!(validate_metadata(&m), Err(Error::StringTooLong));
    m.description = MetadataDescription::Inline(vec![b'd'; 1200]);
    assert_eq!(validate_metadata(&m), Ok(()));
    m.description = MetadataDescription::Hash([7u8; 32]);
    assert_eq!(validate_metadata(&m), Ok(()));
}

#[test]
fn validate_metadata_reports_the_first_problem() {
    let mut m = metadata();
    m.tags = vec![b"t".to_vec(); 16];
    m.title = vec![b't'; 81];
    assert_eq!(validate_metadata(&m), Err(Error::StringTooLong));
    m.title = b"ok".to_vec();
    assert_eq!(validate_metadata(&m), Err(Error::ArrayTooLong));
}

#[test]
fn validate_string_len_bounds() {
    assert_eq!(validate_string_len(&vec![0u8; 5], 5), Ok(()));
    assert_eq!(validate_string_len(&vec![0u8; 6], 5), Err(Error::StringTooLong));
    assert_eq!(validate_string_len(&Vec::new(), 0), Ok(()));
}

fn sample_board() -> QuestBoard {
    let mut board = QuestBoard::with_admin(addr("ROOT"));
    assert_eq!(register(&mut board, "a", "ALICE", 10), Ok(()));
    assert_eq!(register(&mut board, "b", "BOB", 20), Ok(()));
    assert_eq!(register(&mut board, "c", "ALICE", 30), Ok(()));
    assert_eq!(register(&mut board, "d", "ALICE", 40), Ok(()));
    assert_eq!(register(&mut board, "e", "BOB", 50), Ok(()));
    grant_admin(&mut board, &addr("ROOT"), &addr("ADMIN")).unwrap();
    assert_eq!(pause_quest(&mut board, &sym("c"), &addr("ADMIN")), Ok(()));
    board
}

#[test]
fn queries_filter_in_registration_order() {
    let board = sample_board();
    assert_eq!(ids(&get_quests_by_status(&board, &QuestStatus::Active, 0, 10)), vec!["a", "b", "d", "e"]);
    assert_eq!(ids(&get_quests_by_status(&board, &QuestStatus::Paused, 0, 10)), vec!["c"]);
    assert!(get_quests_by_status(&board, &QuestStatus::Completed, 0, 10).is_empty());
    assert_eq!(ids(&get_active_quests(&board, 0, 10)), vec!["a", "b", "d", "e"]);
    assert_eq!(ids(&get_quests_by_creator(&board, &addr("ALICE"), 0, 10)), vec!["a", "c", "d"]);
    assert_eq!(ids(&get_quests_by_creator(&board, &addr("BOB"), 0, 10)), vec!["b", "e"]);
    assert!(get_quests_by_creator(&board, &addr("CAROL"), 0, 10).is_empty());
    assert_eq!(ids(&get_quests_by_reward_range(&board, 20, 40, 0, 10)), vec!["b", "c", "d"]);
    assert_eq!(ids(&get_quests_by_reward_range(&board, 41, 49, 0, 10)), Vec::<String>::new());
    assert_eq!(ids(&get_quests_by_reward_range(&board, 50, 10, 0, 10)), Vec::<String>::new());
}

#[test]
fn queries_paginate() {
    let board = sample_board();
    assert_eq!(ids(&get_active_quests(&board, 0, 2)), vec!["a", "b"]);
    assert_eq!(ids(&get_active_quests(&board, 2, 2)), vec!["d", "e"]);
    assert_eq!(ids(&get_active_quests(&board, 1, 2)), vec!["b", "d"]);
    assert_eq!(ids(&get_active_quests(&board, 3, 5)), vec!["e"]);
    assert!(get_active_quests(&board, 4, 5).is_empty());
    assert!(get_active_quests(&board, 100, 5).is_empty());
    assert!(get_active_quests(&board, 0, 0).is_empty());
    assert_eq!(ids(&get_quests_by_creator(&board, &addr("ALICE"), 1, 1)), vec!["c"]);
    assert_eq!(ids(&get_quests_by_reward_range(&board, 0, 100, 4, 1)), vec!["e"]);
}

#[test]
fn consecutive_pages_make_the_larger_page() {
    let board = sample_board();
    for offset in 0..6u32 {
        for first in 0..6u32 {
            for second in 0..6u32 {
                let mut joined = ids(&get_active_quests(&board, offset, first));
                joined.extend(ids(&get_active_quests(&board, offset + first, second)));
                assert_eq!(joined, ids(&get_active_quests(&board, offset, first + second)));
            }
        }
    }
}

#[test]
fn queries_look_at_the_first_thousand_quests_only() {
    let mut board = QuestBoard::with_admin(addr("ROOT"));
    for i in 0..1005 {
        let creator = if i % 2 == 0 { "EVEN" } else { "ODD" };
        assert_eq!(register(&mut board, &format!("q{}", i), creator, 1 + i as i128), Ok(()));
    }
    let all = get_active_quests(&board, 0, 2000);
    assert_eq!(all.len(), 1000);
    assert_eq!(ids(&all)[999], "q999");
    let odd = get_quests_by_creator(&board, &addr("ODD"), 495, 100);
    assert_eq!(ids(&odd), vec!["q991", "q993", "q995", "q997", "q999"]);
    assert!(get_quests_by_reward_range(&board, 1001, 2000, 0, 10).is_empty());
}

#[test]
fn widening_the_reward_range_keeps_every_quest() {
    let board = sample_board();
    let ranges = [(0, 100), (10, 50), (20, 40), (25, 35), (30, 30), (41, 49)];
    for (min1, max1) in ranges {
        for (min2, max2) in ranges {
            if min2 <= min1 && max1 <= max2 {
                let narrow = ids(&get_quests_by_reward_range(&board, min1, max1, 0, u32::MAX));
                let wide = ids(&get_quests_by_reward_range(&board, min2, max2, 0, u32::MAX));
                let mut rest = wide.iter();
                for id in &narrow {
                    assert!(rest.any(|w| w == id), "{:?} is not within {:?}", narrow, wide);
                }
            }
        }
    }
}
