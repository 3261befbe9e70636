use pelo::Engine;
use pelo::ErrorCode;
use pelo::InMemory;
use pelo::Outcome;
use pelo::Persistence;
use pelo::Task;
use pelo::TaskId;
use pelo::Timestamp;
use pelo::User;
use url::Url;
use uuid::Uuid;

const EPSILON: f32 = 0.000001;

const TEST_USER_ID: &str = "test_user";
const TEST_USER_LIMIT: i32 = 2;

const TEST_TASK_SUMMARY_0: &str = "task zero";
const TEST_TASK_SUMMARY_1: &str = "task one";

const TEST_NOW_MILLIS: i64 = 1_700_000_000_000;

fn new_elo_pair(p0_elo: f32, p1_elo: f32, outcome: Outcome) -> (f32, f32) {
    let k = 32.0_f32;
    let q0 = 10.0_f32.powf(p0_elo / 400.0);
    let q1 = 10.0_f32.powf(p1_elo / 400.0);
    let e0 = q0 / (q0 + q1);
    let e1 = q1 / (q1 + q0);
    let s = match outcome {
        Outcome::P0Win => 0.0_f32,
        Outcome::Draw => 0.5_f32,
        Outcome::P1Win => 1.0_f32,
    };
    (p0_elo + k * ((1.0 - s) - e0), p1_elo + k * (s - e1))
}

fn elo_bits(e0: u32, e1: u32, outcome: Outcome) -> (u32, u32) {
    let (a, b) = new_elo_pair(f32::from_bits(e0), f32::from_bits(e1), outcome);
    (a.to_bits(), b.to_bits())
}

fn fresh_task(summary: &str, link: &str) -> Task {
    Task::new(
        TaskId::new(Uuid::new_v4().as_u128()),
        summary,
        Url::parse(link).unwrap().as_str(),
        false,
    )
}

fn init(database: &mut InMemory) {
    database
        .upsert_user(&User::new(TEST_USER_ID, TEST_USER_LIMIT))
        .unwrap();
    database
        .upsert_task(&fresh_task(TEST_TASK_SUMMARY_0, "https://localhost/0"))
        .unwrap();
    database
        .upsert_task(&fresh_task(TEST_TASK_SUMMARY_1, "https://localhost/1"))
        .unwrap();
}

fn now() -> Timestamp {
    Timestamp::new(TEST_NOW_MILLIS)
}

#[test]
fn test_question() {
    let mut database = InMemory::new();
    let engine = Engine;

    let result0 = engine.get_question(&database);
    assert!(result0.is_err());
    assert_eq!(result0.err().unwrap().code(), ErrorCode::NotEnoughTasks);

    init(&mut database);

    let result1 = engine.get_question(&database);
    assert!(result1.is_ok());
    let (t0, t1) = result1.ok().unwrap();
    assert!(t0.summary() == TEST_TASK_SUMMARY_0 || t1.summary() == TEST_TASK_SUMMARY_0);
    assert!(t0.summary() == TEST_TASK_SUMMARY_1 || t1.summary() == TEST_TASK_SUMMARY_1);
    assert_ne!(t0.summary(), t1.summary());
}

#[test]
fn test_answer_no_user() {
    let mut database = InMemory::new();
    init(&mut database);
    let engine = Engine;
    let (t0, t1) = engine.get_question(&database).unwrap();

    let result0 = engine.answer_question(
        &mut database,
        "not_a_user",
        &t0,
        &t1,
        Outcome::Draw,
        &now(),
        elo_bits,
    );
    assert!(result0.is_err());
    assert_eq!(result0.err().unwrap().code(), ErrorCode::UserNotFound);
}

#[test]
fn test_answer_user_limit_exceeded() {
    let mut database = InMemory::new();
    init(&mut database);
    let engine = Engine;
    let (t0, t1) = engine.get_question(&database).unwrap();

    engine
        .answer_question(
            &mut database,
            TEST_USER_ID,
            &t0,
            &t1,
            Outcome::Draw,
            &now(),
            elo_bits,
        )
        .unwrap();
    engine
        .answer_question(
            &mut database,
            TEST_USER_ID,
            &t0,
            &t1,
            Outcome::Draw,
            &now(),
            elo_bits,
        )
        .unwrap();
    let result0 = engine.answer_question(
        &mut database,
        TEST_USER_ID,
        &t0,
        &t1,
        Outcome::Draw,
        &now(),
        elo_bits,
    );
    assert!(result0.is_err());
    assert_eq!(result0.err().unwrap().code(), ErrorCode::UserLimitExceeded);
}

#[test]
fn test_answer_task_not_found() {
    let mut database = InMemory::new();
    init(&mut database);
    let engine = Engine;
    let (t0, t1) = engine.get_question(&database).unwrap();
    let t2 = Task::new(
        TaskId::new(Uuid::new_v4().as_u128()),
        t0.summary(),
        t0.link(),
        false,
    );

    let result0 = engine.answer_question(
        &mut database,
        TEST_USER_ID,
        &t2,
        &t1,
        Outcome::Draw,
        &now(),
        elo_bits,
    );
    assert!(result0.is_err());
    assert_eq!(result0.err().unwrap().code(), ErrorCode::TaskNotFound);
}

#[test]
fn test_answer_success() {
    let mut database = InMemory::new();
    init(&mut database);
    let engine = Engine;

    let mut ranking = engine.get_current_ranking(&mut database).unwrap();
    assert_eq!(ranking.len(), 2);
    assert_ne!(ranking[0].task(), ranking[1].task());
    assert!((f32::from_bits(ranking[0].elo()) - 1200.0).abs() < EPSILON);
    assert!((f32::from_bits(ranking[1].elo()) - 1200.0).abs() < EPSILON);

    let (t0, t1) = engine.get_question(&database).unwrap();
    let result0 = engine.answer_question(
        &mut database,
        TEST_USER_ID,
        &t0,
        &t1,
        Outcome::P0Win,
        &now(),
        elo_bits,
    );
    assert!(result0.is_ok());

    ranking = engine.get_current_ranking(&mut database).unwrap();
    assert_eq!(ranking.len(), 2);
    assert_ne!(ranking[0].task(), ranking[1].task());
    if t0.id() == ranking[0].task() {
        assert!((f32::from_bits(ranking[0].elo()) - 1216.0).abs() < EPSILON);
        assert!((f32::from_bits(ranking[1].elo()) - 1184.0).abs() < EPSILON);
    } else {
        assert!((f32::from_bits(ranking[0].elo()) - 1184.0).abs() < EPSILON);
        assert!((f32::from_bits(ranking[1].elo()) - 1216.0).abs() < EPSILON);
    }
}

#[test]
fn test_two_answers_accumulate() {
    let mut database = InMemory::new();
    init(&mut database);
    let engine = Engine;

    let (t0, t1) = engine.get_question(&database).unwrap();
    engine
        .answer_question(
            &mut database,
            TEST_USER_ID,
            &t0,
            &t1,
            Outcome::P0Win,
            &now(),
            elo_bits,
        )
        .unwrap();
    engine
        .answer_question(
            &mut database,
            TEST_USER_ID,
            &t0,
            &t1,
            Outcome::P0Win,
            &now(),
            elo_bits,
        )
        .unwrap();

    // Both updates applied serially: the second starts from the first's result.
    let (after_one_0, after_one_1) = new_elo_pair(1200.0, 1200.0, Outcome::P0Win);
    let (after_two_0, after_two_1) = new_elo_pair(after_one_0, after_one_1, Outcome::P0Win);

    let ranking = engine.get_current_ranking(&mut database).unwrap();
    assert_eq!(ranking.len(), 2);
    for r in &ranking {
        if r.task() == t0.id() {
            assert!((f32::from_bits(r.elo()) - after_two_0).abs() < EPSILON);
        } else {
            assert!((f32::from_bits(r.elo()) - after_two_1).abs() < EPSILON);
        }
    }
}

#[test]
fn test_quota_window_excludes_old_votes() {
    let mut database = InMemory::new();
    init(&mut database);
    let engine = Engine;
    let (t0, t1) = engine.get_question(&database).unwrap();

    let early = Timestamp::new(TEST_NOW_MILLIS);
    for _ in 0..2 {
        engine
            .answer_question(
                &mut database,
                TEST_USER_ID,
                &t0,
                &t1,
                Outcome::Draw,
                &early,
                elo_bits,
            )
            .unwrap();
    }
    let at_quota = engine.answer_question(
        &mut database,
        TEST_USER_ID,
        &t0,
        &t1,
        Outcome::Draw,
        &early,
        elo_bits,
    );
    assert_eq!(at_quota.err().unwrap().code(), ErrorCode::UserLimitExceeded);

    // Eight days later both earlier votes fall out of the trailing week.
    let later = Timestamp::new(TEST_NOW_MILLIS + 8 * 86_400_000);
    let result = engine.answer_question(
        &mut database,
        TEST_USER_ID,
        &t0,
        &t1,
        Outcome::Draw,
        &later,
        elo_bits,
    );
    assert!(result.is_ok());
}

#[test]
fn test_question_needs_two_open_tasks() {
    let mut database = InMemory::new();
    init(&mut database);
    let engine = Engine;

    let tasks = database.list_tasks().unwrap();
    database.close_task(tasks[0].id()).unwrap();

    let result = engine.get_question(&database);
    assert!(result.is_err());
    assert_eq!(result.err().unwrap().code(), ErrorCode::NotEnoughTasks);
}

#[test]
fn test_unlimited_user_has_no_quota() {
    let mut database = InMemory::new();
    init(&mut database);
    database
        .upsert_user(&User::new("tireless", -1))
        .unwrap();
    let engine = Engine;
    let (t0, t1) = engine.get_question(&database).unwrap();

    for _ in 0..5 {
        engine
            .answer_question(
                &mut database,
                "tireless",
                &t0,
                &t1,
                Outcome::Draw,
                &now(),
                elo_bits,
            )
            .unwrap();
    }
}
