//! Domain entities: users, tasks, votes and ratings.
//!
//! A task's skill score is carried as the raw bit pattern of an IEEE-754
//! single-precision value (`u32`). The library stores, compares and moves
//! these bit patterns but never interprets them numerically; the numeric
//! update rule is supplied by the caller of the engine.

use crate::numerals::spec_decimal;
use crate::numerals::u128_to_decimal;
use vstd::prelude::*;
use vstd::string::*;

verus! {

/// Bit pattern of the default starting score (the single-precision value 1200.0).
pub const DEFAULT_ELO_BITS: u32 = 0x4496_0000;

/// Task identity: the 128-bit value of a UUID.
#[derive(Clone, Copy, PartialEq, Eq, Structural, Debug)]
pub struct TaskId {
    value: u128,
}

impl View for TaskId {
    type V = u128;

    closed spec fn view(&self) -> u128 {
        self.value
    }
}

impl DeepView for TaskId {
    type V = u128;

    open spec fn deep_view(&self) -> u128 {
        self.view()
    }
}

impl TaskId {
    pub fn new(value: u128) -> (r: TaskId)
        ensures
            r@ == value,
    {
        TaskId { value }
    }

    pub fn value(&self) -> (r: u128)
        ensures
            r == self@,
    {
        self.value
    }
}

/// A point in time, in milliseconds since the Unix epoch.
#[derive(Clone, Copy, PartialEq, Eq, Structural, Debug)]
pub struct Timestamp {
    millis: i64,
}

impl View for Timestamp {
    type V = i64;

    closed spec fn view(&self) -> i64 {
        self.millis
    }
}

impl DeepView for Timestamp {
    type V = i64;

    open spec fn deep_view(&self) -> i64 {
        self.view()
    }
}

impl Timestamp {
    pub fn new(millis: i64) -> (r: Timestamp)
        ensures
            r@ == millis,
    {
        Timestamp { millis }
    }

    pub fn millis(&self) -> (r: i64)
        ensures
            r == self@,
    {
        self.millis
    }
}

/// How a comparison of two tasks ended.
#[derive(Clone, Copy, Debug)]
pub enum Outcome {
    P0Win,
    Draw,
    P1Win,
}

/// A voter: an identity string and a weekly vote quota
/// (a negative quota means unlimited).
#[derive(Debug)]
pub struct User {
    id: String,
    limit_votes_per_week: i32,
}

#[verifier::ext_equal]
pub struct UserView {
    pub id: Seq<char>,
    pub limit_votes_per_week: i32,
}

impl View for User {
    type V = UserView;

    closed spec fn view(&self) -> UserView {
        UserView { id: self.id@, limit_votes_per_week: self.limit_votes_per_week }
    }
}

impl DeepView for User {
    type V = UserView;

    open spec fn deep_view(&self) -> UserView {
        self.view()
    }
}

impl Clone for User {
    fn clone(&self) -> (res: Self)
        ensures
            res == *self,
    {
        User { id: self.id.clone(), limit_votes_per_week: self.limit_votes_per_week }
    }
}

impl User {
    pub fn new(id: &str, limit_votes_per_week: i32) -> (r: User)
        ensures
            r@.id == id@,
            r@.limit_votes_per_week == limit_votes_per_week,
    {
        User { id: String::from_str(id), limit_votes_per_week }
    }

    pub fn id(&self) -> (r: &str)
        ensures
            r@ == self@.id,
    {
        self.id.as_str()
    }

    pub fn limit_votes_per_week(&self) -> (r: i32)
        ensures
            r == self@.limit_votes_per_week,
    {
        self.limit_votes_per_week
    }

    pub fn is_limited(&self) -> (r: bool)
        ensures
            r == (self@.limit_votes_per_week >= 0),
    {
        self.limit_votes_per_week >= 0
    }
}

/// One recorded comparison: who voted, when, on which pair, and the outcome.
#[derive(Debug)]
pub struct Vote {
    voter: String,
    time: Timestamp,
    task0: TaskId,
    task1: TaskId,
    outcome: Outcome,
}

#[verifier::ext_equal]
pub struct VoteView {
    pub voter: Seq<char>,
    pub time: i64,
    pub task0: u128,
    pub task1: u128,
    pub outcome: Outcome,
}

impl View for Vote {
    type V = VoteView;

    closed spec fn view(&self) -> VoteView {
        VoteView {
            voter: self.voter@,
            time: self.time@,
            task0: self.task0@,
            task1: self.task1@,
            outcome: self.outcome,
        }
    }
}

impl DeepView for Vote {
    type V = VoteView;

    open spec fn deep_view(&self) -> VoteView {
        self.view()
    }
}

impl Clone for Vote {
    fn clone(&self) -> (res: Self)
        ensures
            res == *self,
    {
        Vote {
            voter: self.voter.clone(),
            time: self.time,
            task0: self.task0,
            task1: self.task1,
            outcome: self.outcome,
        }
    }
}

impl Vote {
    pub fn new(voter: &str, time: Timestamp, task0: TaskId, task1: TaskId, outcome: Outcome) -> (r:
        Vote)
        ensures
            r@.voter == voter@,
            r@.time == time@,
            r@.task0 == task0@,
            r@.task1 == task1@,
            r@.outcome == outcome,
    {
        Vote { voter: String::from_str(voter), time, task0, task1, outcome }
    }

    pub fn voter(&self) -> (r: &str)
        ensures
            r@ == self@.voter,
    {
        self.voter.as_str()
    }

    pub fn time(&self) -> (r: &Timestamp)
        ensures
            r@ == self@.time,
    {
        &self.time
    }

    pub fn task0(&self) -> (r: &TaskId)
        ensures
            r@ == self@.task0,
    {
        &self.task0
    }

    pub fn task1(&self) -> (r: &TaskId)
        ensures
            r@ == self@.task1,
    {
        &self.task1
    }

    pub fn outcome(&self) -> (r: Outcome)
        ensures
            r == self@.outcome,
    {
        self.outcome
    }
}

/// A rankable unit of work. The closed flag only ever moves from open to
/// closed; identity is immutable once created.
#[derive(Debug)]
pub struct Task {
    id: TaskId,
    summary: String,
    link: String,
    closed: bool,
}

#[verifier::ext_equal]
pub struct TaskView {
    pub id: u128,
    pub summary: Seq<char>,
    pub link: Seq<char>,
    pub closed: bool,
}

impl View for Task {
    type V = TaskView;

    closed spec fn view(&self) -> TaskView {
        TaskView { id: self.id@, summary: self.summary@, link: self.link@, closed: self.closed }
    }
}

impl DeepView for Task {
    type V = TaskView;

    open spec fn deep_view(&self) -> TaskView {
        self.view()
    }
}

impl Clone for Task {
    fn clone(&self) -> (res: Self)
        ensures
            res == *self,
    {
        Task {
            id: self.id,
            summary: self.summary.clone(),
            link: self.link.clone(),
            closed: self.closed,
        }
    }
}

impl Task {
    pub fn new(id: TaskId, summary: &str, link: &str, closed: bool) -> (r: Task)
        ensures
            r@.id == id@,
            r@.summary == summary@,
            r@.link == link@,
            r@.closed == closed,
    {
        Task { id, summary: String::from_str(summary), link: String::from_str(link), closed }
    }

    pub fn id(&self) -> (r: &TaskId)
        ensures
            r@ == self@.id,
    {
        &self.id
    }

    pub fn summary(&self) -> (r: &str)
        ensures
            r@ == self@.summary,
    {
        self.summary.as_str()
    }

    pub fn link(&self) -> (r: &str)
        ensures
            r@ == self@.link,
    {
        self.link.as_str()
    }

    pub fn closed(&self) -> (r: bool)
        ensures
            r == self@.closed,
    {
        self.closed
    }

    /// The task rendered as one line: the closed mark, the identity, the
    /// summary and the link.
    pub fn text(&self) -> (r: String)
        ensures
            self@.closed ==> r@ == "(closed) "@ + spec_decimal(self@.id as nat) + ": "@
                + self@.summary + " | "@ + self@.link + ")"@,
            !self@.closed ==> r@ == spec_decimal(self@.id as nat) + ": "@ + self@.summary + " | "@
                + self@.link + ")"@,
    {
        let mut m = if self.closed {
            String::from_str("(closed) ")
        } else {
            String::new()
        };
        m.append(u128_to_decimal(self.id.value()).as_str());
        m.append(": ");
        m.append(self.summary.as_str());
        m.append(" | ");
        m.append(self.link.as_str());
        m.append(")");
        proof {
            if !self@.closed {
                assert(m@ =~= spec_decimal(self@.id as nat) + ": "@ + self@.summary + " | "@
                    + self@.link + ")"@);
            }
        }
        m
    }

    pub fn close(&mut self)
        ensures
            final (self)@.id == old(self)@.id,
            final (self)@.summary == old(self)@.summary,
            final (self)@.link == old(self)@.link,
            final (self)@.closed,
    {
        self.closed = true;
    }
}

/// The current skill score of one task, as an opaque bit pattern.
#[derive(Clone, Copy, PartialEq, Eq, Structural, Debug)]
pub struct Rating {
    task: TaskId,
    elo: u32,
}

#[verifier::ext_equal]
pub struct RatingView {
    pub task: u128,
    pub elo: u32,
}

impl View for Rating {
    type V = RatingView;

    closed spec fn view(&self) -> RatingView {
        RatingView { task: self.task@, elo: self.elo }
    }
}

impl DeepView for Rating {
    type V = RatingView;

    open spec fn deep_view(&self) -> RatingView {
        self.view()
    }
}

impl Rating {
    pub fn new(task: TaskId) -> (r: Rating)
        ensures
            r@.task == task@,
            r@.elo == DEFAULT_ELO_BITS,
    {
        Rating::with_elo(task, DEFAULT_ELO_BITS)
    }

    pub fn with_elo(task: TaskId, elo: u32) -> (r: Rating)
        ensures
            r@.task == task@,
            r@.elo == elo,
    {
        Rating { task, elo }
    }

    pub fn task(&self) -> (r: &TaskId)
        ensures
            r@ == self@.task,
    {
        &self.task
    }

    pub fn elo(&self) -> (r: u32)
        ensures
            r == self@.elo,
    {
        self.elo
    }
}

/// String equality over the character views.
pub(crate) fn str_eq(a: &str, b: &str) -> (r: bool)
    ensures
        r == (a@ == b@),
{
    let sa = String::from_str(a);
    let sb = String::from_str(b);
    sa == sb
}

} // verus!
