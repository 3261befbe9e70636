use pelo::Etag;
use pelo::InMemory;
use pelo::Outcome;
use pelo::Persistence;
use pelo::Rating;
use pelo::Task;
use pelo::TaskId;
use pelo::Timestamp;
use pelo::User;
use pelo::Vote;
use pelo::DEFAULT_ELO_BITS;
use url::Url;
use uuid::Uuid;

const EPSILON: f32 = 0.000001;
const VOTER: &str = "carol";
const T: i64 = 1_600_000_000_000;

fn task_with(summary: &str, link: &str) -> Task {
    Task::new(
        TaskId::new(Uuid::new_v4().as_u128()),
        summary,
        Url::parse(link).unwrap().as_str(),
        false,
    )
}

fn two_task_store() -> (InMemory, Task, Task) {
    let mut db = InMemory::new();
    db.upsert_user(&User::new(VOTER, -1)).unwrap();
    let t0 = task_with("first", "https://localhost/a");
    let t1 = task_with("second", "https://localhost/b");
    db.upsert_task(&t0).unwrap();
    db.upsert_task(&t1).unwrap();
    (db, t0, t1)
}

#[test]
fn test_default_rating_is_1200() {
    assert_eq!(f32::from_bits(DEFAULT_ELO_BITS), 1200.0);
    let r = Rating::new(TaskId::new(7));
    assert_eq!(r.elo(), DEFAULT_ELO_BITS);
    assert_eq!(r.task().value(), 7);
}

#[test]
fn test_list_and_upsert_users() {
    let mut db = InMemory::new();
    assert!(db.list_users().unwrap().is_empty());
    db.upsert_user(&User::new("ann", 3)).unwrap();
    db.upsert_user(&User::new("bob", -1)).unwrap();
    db.upsert_user(&User::new("ann", 5)).unwrap();

    let users = db.list_users().unwrap();
    assert_eq!(users.len(), 2);
    let ann = db.get_user("ann").unwrap();
    assert_eq!(ann.id(), "ann");
    assert_eq!(ann.limit_votes_per_week(), 5);
    assert!(ann.is_limited());
    let bob = db.get_user("bob").unwrap();
    assert_eq!(bob.limit_votes_per_week(), -1);
    assert!(!bob.is_limited());

    let missing = db.get_user("eve");
    assert_eq!(
        missing.err().unwrap().code(),
        pelo::ErrorCode::UserNotFound
    );
}

#[test]
fn test_close_task() {
    let (mut db, t0, _t1) = two_task_store();
    db.close_task(t0.id()).unwrap();
    let tasks = db.list_tasks().unwrap();
    assert_eq!(tasks.len(), 2);
    for t in &tasks {
        if t.id() == t0.id() {
            assert!(t.closed());
        } else {
            assert!(!t.closed());
        }
    }

    let unknown = TaskId::new(Uuid::new_v4().as_u128());
    let result = db.close_task(&unknown);
    assert_eq!(result.err().unwrap().code(), pelo::ErrorCode::TaskNotFound);
}

#[test]
fn test_upsert_task_does_not_reset_rating() {
    let (mut db, t0, t1) = two_task_store();

    let snap = db.get_snapshot().unwrap();
    let vote = Vote::new(VOTER, Timestamp::new(T), *t0.id(), *t1.id(), Outcome::P1Win);
    db.add_vote_and_update_ratings(
        &snap.etag().clone(),
        &vote,
        &Rating::with_elo(*t0.id(), 1184.0_f32.to_bits()),
        &Rating::with_elo(*t1.id(), 1216.0_f32.to_bits()),
    )
    .unwrap();

    // Re-upserting a known identity updates its record but keeps its rating.
    let renamed = Task::new(*t0.id(), "first, renamed", t0.link(), false);
    db.upsert_task(&renamed).unwrap();

    let tasks = db.list_tasks().unwrap();
    let stored = tasks.iter().find(|t| t.id() == t0.id()).unwrap();
    assert_eq!(stored.summary(), "first, renamed");

    let after = db.get_snapshot().unwrap();
    let r0 = after
        .ranking()
        .iter()
        .find(|r| r.task() == t0.id())
        .unwrap();
    assert!((f32::from_bits(r0.elo()) - 1184.0).abs() < EPSILON);
    assert_eq!(after.ranking().len(), 2);
}

#[test]
fn test_snapshot_token_counts_votes() {
    let (mut db, t0, t1) = two_task_store();
    let snap0 = db.get_snapshot().unwrap();
    assert_eq!(snap0.etag().token, "0");

    let vote = Vote::new(VOTER, Timestamp::new(T), *t0.id(), *t1.id(), Outcome::Draw);
    db.add_vote_and_update_ratings(
        &snap0.etag().clone(),
        &vote,
        &Rating::with_elo(*t0.id(), DEFAULT_ELO_BITS),
        &Rating::with_elo(*t1.id(), DEFAULT_ELO_BITS),
    )
    .unwrap();

    let snap1 = db.get_snapshot().unwrap();
    assert_eq!(snap1.etag().token, "1");
    assert_ne!(snap1.etag().token, snap0.etag().token);
}

#[test]
fn test_stale_etag_rejected_and_nothing_moves() {
    let (mut db, t0, t1) = two_task_store();

    let snap0 = db.get_snapshot().unwrap();
    let old_etag = snap0.etag().clone();
    assert_eq!(snap0.ranking().len(), 2);
    assert!((f32::from_bits(snap0.ranking()[0].elo()) - 1200.0).abs() < EPSILON);
    assert!((f32::from_bits(snap0.ranking()[1].elo()) - 1200.0).abs() < EPSILON);

    let vote = Vote::new(VOTER, Timestamp::new(T), *t0.id(), *t1.id(), Outcome::P1Win);
    db.add_vote_and_update_ratings(
        &old_etag,
        &vote,
        &Rating::with_elo(*t0.id(), 1184.0_f32.to_bits()),
        &Rating::with_elo(*t1.id(), 1216.0_f32.to_bits()),
    )
    .unwrap();

    // The same etag again is now stale: rejected, and the store is unchanged.
    let result = db.add_vote_and_update_ratings(
        &old_etag,
        &vote,
        &Rating::with_elo(*t0.id(), 1100.0_f32.to_bits()),
        &Rating::with_elo(*t1.id(), 1300.0_f32.to_bits()),
    );
    assert_eq!(
        result.err().unwrap().code(),
        pelo::ErrorCode::OptimisticConcurrencyRetryTransaction
    );

    let after = db.get_snapshot().unwrap();
    assert_eq!(after.ranking().len(), 2);
    for r in after.ranking() {
        let elo = f32::from_bits(r.elo());
        if r.task() == t0.id() {
            assert!((elo - 1184.0).abs() < EPSILON);
        } else {
            assert!((elo - 1216.0).abs() < EPSILON);
        }
    }
    assert_eq!(
        db.get_num_votes_for_user_since(VOTER, &Timestamp::new(0))
            .unwrap(),
        1
    );
}

#[test]
fn test_commit_with_unknown_task_rejected() {
    let (mut db, t0, _t1) = two_task_store();
    let snap = db.get_snapshot().unwrap();
    let stranger = TaskId::new(Uuid::new_v4().as_u128());
    let vote = Vote::new(VOTER, Timestamp::new(T), *t0.id(), stranger, Outcome::Draw);
    let result = db.add_vote_and_update_ratings(
        &snap.etag().clone(),
        &vote,
        &Rating::with_elo(*t0.id(), DEFAULT_ELO_BITS),
        &Rating::with_elo(stranger, DEFAULT_ELO_BITS),
    );
    assert_eq!(result.err().unwrap().code(), pelo::ErrorCode::TaskNotFound);
    assert_eq!(db.get_snapshot().unwrap().etag().token, "0");
}

#[test]
fn test_vote_count_window_is_inclusive() {
    let (mut db, t0, t1) = two_task_store();
    let snap = db.get_snapshot().unwrap();
    let vote = Vote::new(VOTER, Timestamp::new(T), *t0.id(), *t1.id(), Outcome::Draw);
    db.add_vote_and_update_ratings(
        &snap.etag().clone(),
        &vote,
        &Rating::with_elo(*t0.id(), DEFAULT_ELO_BITS),
        &Rating::with_elo(*t1.id(), DEFAULT_ELO_BITS),
    )
    .unwrap();

    // A vote cast exactly at the cutoff still counts; one instant later it
    // no longer does, and another voter's history is untouched.
    assert_eq!(
        db.get_num_votes_for_user_since(VOTER, &Timestamp::new(T)).unwrap(),
        1
    );
    assert_eq!(
        db.get_num_votes_for_user_since(VOTER, &Timestamp::new(T + 1))
            .unwrap(),
        0
    );
    assert_eq!(
        db.get_num_votes_for_user_since("someone_else", &Timestamp::new(0))
            .unwrap(),
        0
    );
}

#[test]
fn test_malformed_etag_is_stale() {
    let (mut db, t0, t1) = two_task_store();
    let vote = Vote::new(VOTER, Timestamp::new(T), *t0.id(), *t1.id(), Outcome::Draw);
    let result = db.add_vote_and_update_ratings(
        &Etag {
            token: "not-a-count".to_string(),
        },
        &vote,
        &Rating::with_elo(*t0.id(), DEFAULT_ELO_BITS),
        &Rating::with_elo(*t1.id(), DEFAULT_ELO_BITS),
    );
    assert_eq!(
        result.err().unwrap().code(),
        pelo::ErrorCode::OptimisticConcurrencyRetryTransaction
    );
    assert_eq!(db.get_snapshot().unwrap().etag().token, "0");
}

#[test]
fn test_snapshot_into_ranking() {
    let (mut db, _t0, _t1) = two_task_store();
    let snap = db.get_snapshot().unwrap();
    let ranking = snap.into_ranking();
    assert_eq!(ranking.len(), 2);
    assert_eq!(ranking[0].elo(), DEFAULT_ELO_BITS);
}
