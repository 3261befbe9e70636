//! The error taxonomy.
//!
//! Infrastructure failures (generic, not-implemented, database, URL) pass
//! through unchanged; missing-entity and policy errors are surfaced with the
//! offending identifier; the retry signal is consumed inside the engine and
//! never reaches a caller.

use crate::data::TaskId;
use crate::numerals::spec_decimal;
use crate::numerals::u128_to_decimal;
use vstd::prelude::*;
use vstd::string::*;

verus! {

#[derive(Debug, Clone, Copy, PartialEq, Eq, Structural)]
pub enum ErrorCode {
    GenericError,
    NotImplemented,
    DatabaseError,
    UrlError,
    TaskNotFound,
    UserNotFound,
    UserLimitExceeded,
    OptimisticConcurrencyRetryTransaction,
    OptimisticConcurrencyTooManyRetryAttempts,
    NotEnoughTasks,
}

/// Infrastructure failures: never produced by the in-memory backend, but a
/// backend over an external service may raise them from any operation.
pub open spec fn is_infrastructure(c: ErrorCode) -> bool {
    ||| c == ErrorCode::GenericError
    ||| c == ErrorCode::NotImplemented
    ||| c == ErrorCode::DatabaseError
    ||| c == ErrorCode::UrlError
}

/// The display name of an error code.
pub open spec fn spec_code_text(c: ErrorCode) -> Seq<char> {
    match c {
        ErrorCode::GenericError => "GenericError"@,
        ErrorCode::NotImplemented => "NotImplemented"@,
        ErrorCode::DatabaseError => "DatabaseError"@,
        ErrorCode::UrlError => "UrlError"@,
        ErrorCode::TaskNotFound => "TaskNotFound"@,
        ErrorCode::UserNotFound => "UserNotFound"@,
        ErrorCode::UserLimitExceeded => "UserLimitExceeded"@,
        ErrorCode::OptimisticConcurrencyRetryTransaction => "OCRetryTransaction"@,
        ErrorCode::OptimisticConcurrencyTooManyRetryAttempts => "OCTooManyRetryAttempts"@,
        ErrorCode::NotEnoughTasks => "NotEnoughTasks"@,
    }
}

impl ErrorCode {
    /// The display name of this code.
    pub fn text(&self) -> (r: &'static str)
        ensures
            r@ == spec_code_text(*self),
    {
        match self {
            ErrorCode::GenericError => "GenericError",
            ErrorCode::NotImplemented => "NotImplemented",
            ErrorCode::DatabaseError => "DatabaseError",
            ErrorCode::UrlError => "UrlError",
            ErrorCode::TaskNotFound => "TaskNotFound",
            ErrorCode::UserNotFound => "UserNotFound",
            ErrorCode::UserLimitExceeded => "UserLimitExceeded",
            ErrorCode::OptimisticConcurrencyRetryTransaction => "OCRetryTransaction",
            ErrorCode::OptimisticConcurrencyTooManyRetryAttempts => "OCTooManyRetryAttempts",
            ErrorCode::NotEnoughTasks => "NotEnoughTasks",
        }
    }
}

/// An error: a code and a human-readable message.
#[derive(Debug)]
pub struct Error {
    code: ErrorCode,
    msg: String,
}

#[verifier::ext_equal]
pub struct ErrorView {
    pub code: ErrorCode,
    pub msg: Seq<char>,
}

impl View for Error {
    type V = ErrorView;

    closed spec fn view(&self) -> ErrorView {
        ErrorView { code: self.code, msg: self.msg@ }
    }
}

impl Clone for Error {
    fn clone(&self) -> (res: Self)
        ensures
            res@ == self@,
    {
        Error { code: self.code, msg: self.msg.clone() }
    }
}

impl Error {
    pub fn code(&self) -> (r: ErrorCode)
        ensures
            r == self@.code,
    {
        self.code
    }

    pub fn msg(&self) -> (r: &str)
        ensures
            r@ == self@.msg,
    {
        self.msg.as_str()
    }

    /// The error rendered as "Error <code> message".
    pub fn text(&self) -> (r: String)
        ensures
            r@ == "Error <"@ + spec_code_text(self@.code) + "> "@ + self@.msg,
    {
        let mut m = String::from_str("Error <");
        m.append(self.code.text());
        m.append("> ");
        m.append(self.msg.as_str());
        m
    }

    pub fn generic(msg: &str) -> (r: Self)
        ensures
            r@.code == ErrorCode::GenericError,
            r@.msg == msg@,
    {
        Error { code: ErrorCode::GenericError, msg: String::from_str(msg) }
    }

    pub fn not_implemented(msg: &str) -> (r: Self)
        ensures
            r@.code == ErrorCode::NotImplemented,
            r@.msg == msg@,
    {
        Error { code: ErrorCode::NotImplemented, msg: String::from_str(msg) }
    }

    pub fn db_error(msg: &str) -> (r: Self)
        ensures
            r@.code == ErrorCode::DatabaseError,
            r@.msg == msg@,
    {
        Error { code: ErrorCode::DatabaseError, msg: String::from_str(msg) }
    }

    pub fn url_error(msg: &str) -> (r: Self)
        ensures
            r@.code == ErrorCode::UrlError,
            r@.msg == "Unable to parse url: "@ + msg@,
    {
        let mut m = String::from_str("Unable to parse url: ");
        m.append(msg);
        Error { code: ErrorCode::UrlError, msg: m }
    }

    pub fn task_not_found(t_id: &TaskId) -> (r: Self)
        ensures
            r@.code == ErrorCode::TaskNotFound,
            r@.msg == "task "@ + spec_decimal(t_id@ as nat) + " not found"@,
    {
        let mut m = String::from_str("task ");
        let d = u128_to_decimal(t_id.value());
        m.append(d.as_str());
        m.append(" not found");
        Error { code: ErrorCode::TaskNotFound, msg: m }
    }

    pub fn user_not_found(u_id: &str) -> (r: Self)
        ensures
            r@.code == ErrorCode::UserNotFound,
            r@.msg == "user "@ + u_id@ + " not found"@,
    {
        let mut m = String::from_str("user ");
        m.append(u_id);
        m.append(" not found");
        Error { code: ErrorCode::UserNotFound, msg: m }
    }

    pub fn user_limit_exceeded(u_id: &str) -> (r: Self)
        ensures
            r@.code == ErrorCode::UserLimitExceeded,
            r@.msg == "user "@ + u_id@ + " has reached the maximum number of votes per week"@,
    {
        let mut m = String::from_str("user ");
        m.append(u_id);
        m.append(" has reached the maximum number of votes per week");
        Error { code: ErrorCode::UserLimitExceeded, msg: m }
    }

    pub fn retry_transaction() -> (r: Self)
        ensures
            r@.code == ErrorCode::OptimisticConcurrencyRetryTransaction,
            r@.msg == "optimistic concurrency: retry transaction with new offset"@,
    {
        Error {
            code: ErrorCode::OptimisticConcurrencyRetryTransaction,
            msg: String::from_str("optimistic concurrency: retry transaction with new offset"),
        }
    }

    pub fn too_many_retry_attempts() -> (r: Self)
        ensures
            r@.code == ErrorCode::OptimisticConcurrencyTooManyRetryAttempts,
            r@.msg == "optimistic concurrency: too many retry attempts, giving up"@,
    {
        Error {
            code: ErrorCode::OptimisticConcurrencyTooManyRetryAttempts,
            msg: String::from_str("optimistic concurrency: too many retry attempts, giving up"),
        }
    }

    pub fn not_enough_tasks() -> (r: Self)
        ensures
            r@.code == ErrorCode::NotEnoughTasks,
            r@.msg == "not enough tasks to ask a meaningful question"@,
    {
        Error {
            code: ErrorCode::NotEnoughTasks,
            msg: String::from_str("not enough tasks to ask a meaningful question"),
        }
    }
}

} // verus!
