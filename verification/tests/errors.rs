use pelo::Error;
use pelo::ErrorCode;
use pelo::Outcome;
use pelo::TaskId;
use pelo::Timestamp;
use pelo::Task;
use pelo::User;
use pelo::Vote;

#[test]
fn test_error_constructors() {
    let e = Error::generic("something odd");
    assert_eq!(e.code(), ErrorCode::GenericError);
    assert_eq!(e.msg(), "something odd");

    let e = Error::not_implemented("later");
    assert_eq!(e.code(), ErrorCode::NotImplemented);
    assert_eq!(e.msg(), "later");

    let e = Error::db_error("disk on fire");
    assert_eq!(e.code(), ErrorCode::DatabaseError);
    assert_eq!(e.msg(), "disk on fire");

    let e = Error::url_error("no scheme");
    assert_eq!(e.code(), ErrorCode::UrlError);
    assert_eq!(e.msg(), "Unable to parse url: no scheme");

    let e = Error::task_not_found(&TaskId::new(41));
    assert_eq!(e.code(), ErrorCode::TaskNotFound);
    assert_eq!(e.msg(), "task 41 not found");

    let e = Error::user_not_found("dana");
    assert_eq!(e.code(), ErrorCode::UserNotFound);
    assert_eq!(e.msg(), "user dana not found");

    let e = Error::user_limit_exceeded("dana");
    assert_eq!(e.code(), ErrorCode::UserLimitExceeded);
    assert_eq!(
        e.msg(),
        "user dana has reached the maximum number of votes per week"
    );

    let e = Error::retry_transaction();
    assert_eq!(e.code(), ErrorCode::OptimisticConcurrencyRetryTransaction);
    assert_eq!(
        e.msg(),
        "optimistic concurrency: retry transaction with new offset"
    );

    let e = Error::too_many_retry_attempts();
    assert_eq!(
        e.code(),
        ErrorCode::OptimisticConcurrencyTooManyRetryAttempts
    );
    assert_eq!(
        e.msg(),
        "optimistic concurrency: too many retry attempts, giving up"
    );

    let e = Error::not_enough_tasks();
    assert_eq!(e.code(), ErrorCode::NotEnoughTasks);
    assert_eq!(e.msg(), "not enough tasks to ask a meaningful question");
}

#[test]
fn test_error_text() {
    assert_eq!(ErrorCode::GenericError.text(), "GenericError");
    assert_eq!(
        ErrorCode::OptimisticConcurrencyRetryTransaction.text(),
        "OCRetryTransaction"
    );
    assert_eq!(
        ErrorCode::OptimisticConcurrencyTooManyRetryAttempts.text(),
        "OCTooManyRetryAttempts"
    );
    assert_eq!(ErrorCode::NotEnoughTasks.text(), "NotEnoughTasks");

    let e = Error::user_not_found("dana");
    assert_eq!(e.text(), "Error <UserNotFound> user dana not found");
}

#[test]
fn test_user_record() {
    let u = User::new("ann", 4);
    assert_eq!(u.id(), "ann");
    assert_eq!(u.limit_votes_per_week(), 4);
    assert!(u.is_limited());

    let unlimited = User::new("bob", -3);
    assert!(!unlimited.is_limited());

    let zero = User::new("cap", 0);
    assert!(zero.is_limited());
}

#[test]
fn test_vote_record() {
    let a = TaskId::new(1);
    let b = TaskId::new(2);
    let v = Vote::new("ann", Timestamp::new(123), a, b, Outcome::P1Win);
    assert_eq!(v.voter(), "ann");
    assert_eq!(v.time().millis(), 123);
    assert_eq!(v.task0().value(), 1);
    assert_eq!(v.task1().value(), 2);
    assert!(matches!(v.outcome(), Outcome::P1Win));
}

#[test]
fn test_task_record_and_text() {
    let mut t = Task::new(TaskId::new(9), "fix the roof", "https://localhost/roof", false);
    assert_eq!(t.id().value(), 9);
    assert_eq!(t.summary(), "fix the roof");
    assert_eq!(t.link(), "https://localhost/roof");
    assert!(!t.closed());
    assert_eq!(t.text(), "9: fix the roof | https://localhost/roof)");

    t.close();
    assert!(t.closed());
    assert_eq!(
        t.text(),
        "(closed) 9: fix the roof | https://localhost/roof)"
    );
}
