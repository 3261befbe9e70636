//! The engine: question selection, voter eligibility, and the
//! commit-with-retry protocol.
//!
//! `answer_question` re-reads a fresh snapshot on every attempt, recomputes
//! both ratings with the caller-supplied update rule, and hands the result
//! to the store's conditional commit. A rejected commit means another
//! writer got in between; the engine then retries with a fresh snapshot, up
//! to a fixed budget. The retry signal itself never reaches a caller.

use crate::data::Outcome;
use crate::data::Rating;
use crate::data::RatingView;
use crate::data::Task;
use crate::data::TaskId;
use crate::data::TaskView;
use crate::data::Timestamp;
use crate::data::Vote;
use crate::data::VoteView;
use crate::data::DEFAULT_ELO_BITS;
use crate::errors::is_infrastructure;
use crate::errors::Error;
use crate::errors::ErrorCode;
use crate::model::filter_matching;
use crate::model::lemma_filter_matching_distinct;
use crate::model::lemma_filter_matching_sub;
use crate::model::lemma_filter_matching_take_all;
use crate::model::lemma_filter_matching_take_step;
use crate::model::lemma_find_index_at;
use crate::model::lemma_find_index_none;
use crate::model::rating_elo_in;
use crate::persistence::Persistence;
use rand::Rng;
use vstd::prelude::*;

verus! {

/// The retry budget of one answer under contention.
const MAX_OPTIMISTIC_CONCURRENCY_ATTEMPTS: i32 = 8;

/// A week, in milliseconds.
pub const WEEK_MILLIS: i64 = 604_800_000;

/// Relies on rand's `Rng::gen_range` over `0..n`: the result is a uniformly
/// drawn index below `n`. The call panics only on an empty range, which the
/// precondition rules out; nothing more is assumed of which index comes out.
#[verifier::external_body]
fn random_below(n: usize) -> (r: usize)
    requires
        n > 0,
    ensures
        r < n,
{
    rand::thread_rng().gen_range(0..n)
}

/// The score bits a snapshot assigns to a task, with the default score for
/// a task that has no rating record yet.
fn resolve_elo(ranking: &Vec<Rating>, id: &TaskId) -> (r: u32)
    ensures
        r == rating_elo_in(ranking.deep_view(), id@),
{
    let n = ranking.len();
    let mut i: usize = 0;
    while i < n
        invariant
            n == ranking@.len(),
            i <= n,
            forall|j: int| 0 <= j < i ==> (#[trigger] ranking.deep_view()[j]).task != id@,
        decreases n - i,
    {
        if ranking[i].task().value() == id.value() {
            proof {
                lemma_find_index_at(ranking.deep_view(), |x: RatingView| x.task == id@, i as int);
            }
            return ranking[i].elo();
        }
        i += 1;
    }
    proof {
        lemma_find_index_none(ranking.deep_view(), |x: RatingView| x.task == id@);
    }
    DEFAULT_ELO_BITS
}

pub struct Engine;

impl Engine {
    /// Pick two distinct open tasks to compare, or fail when fewer than two
    /// are open. Reads only; which two come out is up to the random draw.
    pub fn get_question<P: Persistence>(&self, persistence: &P) -> (r: Result<(Task, Task), Error>)
        requires
            persistence.inv(),
        ensures
            match r {
                Ok(pair) => {
                    &&& persistence.model().open_tasks().len() >= 2
                    &&& persistence.model().open_tasks().contains(pair.0@)
                    &&& persistence.model().open_tasks().contains(pair.1@)
                    &&& pair.0@.id != pair.1@.id
                    &&& !pair.0@.closed
                    &&& !pair.1@.closed
                },
                Err(e) => (e@.code == ErrorCode::NotEnoughTasks && persistence.model().open_tasks().len() < 2)
                    || is_infrastructure(e@.code),
            },
    {
        let tasks = match persistence.list_tasks() {
            Ok(ts) => ts,
            Err(e) => {
                return Err(e);
            },
        };
        let n = tasks.len();
        let mut open: Vec<Task> = Vec::new();
        let mut i: usize = 0;
        while i < n
            invariant
                n == tasks@.len(),
                i <= n,
                tasks.deep_view() == persistence.model().tasks,
                open@.len() <= i,
                open.deep_view() =~= filter_matching(
                    tasks.deep_view().take(i as int),
                    |t: TaskView| !t.closed,
                ),
            decreases n - i,
        {
            let ghost prev = open.deep_view();
            proof {
                lemma_filter_matching_take_step(tasks.deep_view(), |t: TaskView| !t.closed, i as int);
            }
            if !tasks[i].closed() {
                let t = tasks[i].clone();
                proof {
                    assert(t == tasks@[i as int]);
                }
                open.push(t);
                proof {
                    assert forall|k: int| 0 <= k < prev.len() + 1 implies open.deep_view()[k] == (
                    prev.push(tasks.deep_view()[i as int]))[k] by {
                        if k < prev.len() {
                            assert(open.deep_view()[k] == prev[k]);
                        }
                    }
                    assert(open.deep_view() =~= prev.push(tasks.deep_view()[i as int]));
                }
            }
            i += 1;
        }
        proof {
            lemma_filter_matching_take_all(tasks.deep_view(), |t: TaskView| !t.closed);
            assert(open.deep_view() == persistence.model().open_tasks());
        }
        if open.len() < 2 {
            return Err(Error::not_enough_tasks());
        }
        let len = open.len();
        let i0 = random_below(len);
        let draw = random_below(len - 1);
        let i1 = if draw >= i0 {
            draw + 1
        } else {
            draw
        };
        let t0 = open[i0].clone();
        let t1 = open[i1].clone();
        proof {
            persistence.inv_wf();
            lemma_filter_matching_sub(persistence.model().tasks, |t: TaskView| !t.closed);
            lemma_filter_matching_distinct(
                persistence.model().tasks,
                |t: TaskView| !t.closed,
                |t: TaskView| t.id,
            );
            assert(t0@ == persistence.model().open_tasks()[i0 as int]);
            assert(t1@ == persistence.model().open_tasks()[i1 as int]);
            assert(persistence.model().open_tasks().contains(t0@)) by {
                assert(persistence.model().open_tasks()[i0 as int] == t0@);
            }
            assert(persistence.model().open_tasks().contains(t1@)) by {
                assert(persistence.model().open_tasks()[i1 as int] == t1@);
            }
        }
        Ok((t0, t1))
    }

    /// Record one voter's answer on a pair of tasks.
    ///
    /// The user must exist; a limited user must still be under quota over
    /// the trailing week from `now`. Both tasks must be on record. On
    /// success exactly one vote stamped `now` is appended and both rating
    /// records take the scores the update rule computed from the ratings
    /// the store held; nothing moves on any failure. The retry signal is
    /// consumed internally and never surfaces.
    #[verifier::loop_isolation(false)]
    pub fn answer_question<P: Persistence, F: Fn(u32, u32, Outcome) -> (u32, u32)>(
        &self,
        persistence: &mut P,
        u_id: &str,
        t0: &Task,
        t1: &Task,
        outcome: Outcome,
        now: &Timestamp,
        new_elo_pair: F,
    ) -> (r: Result<(), Error>)
        requires
            old(persistence).inv(),
            forall|a: (u32, u32, Outcome)| #[trigger] call_requires(new_elo_pair, a),
        ensures
            final (persistence).inv(),
            match r {
                Ok(()) => {
                    let m = old(persistence).model();
                    &&& m.find_user(u_id@) is Some
                    &&& ((m.find_user(u_id@)->Some_0).limit_votes_per_week >= 0 ==> now@
                        - WEEK_MILLIS >= i64::MIN && m.votes_since(u_id@, (now@ - WEEK_MILLIS) as i64)
                        < (m.find_user(u_id@)->Some_0).limit_votes_per_week)
                    &&& m.has_task(t0@.id)
                    &&& m.has_task(t1@.id)
                    &&& exists|pair: (u32, u32)|
                        #[trigger] call_ensures(
                            new_elo_pair,
                            (m.rating_elo(t0@.id), m.rating_elo(t1@.id), outcome),
                            pair,
                        ) && final (persistence).model() == m.commit(
                            (VoteView {
                                voter: u_id@,
                                time: now@,
                                task0: t0@.id,
                                task1: t1@.id,
                                outcome,
                            }),
                            (RatingView { task: t0@.id, elo: pair.0 }),
                            (RatingView { task: t1@.id, elo: pair.1 }),
                            final (persistence).model().token,
                        )
                    &&& final (persistence).model().token != m.token
                },
                Err(e) => {
                    let m = old(persistence).model();
                    &&& final (persistence).model() == m
                    &&& e@.code != ErrorCode::OptimisticConcurrencyRetryTransaction
                    &&& e@.code != ErrorCode::OptimisticConcurrencyTooManyRetryAttempts
                    &&& (e@.code == ErrorCode::UserNotFound ==> m.find_user(u_id@) is None)
                    &&& (e@.code == ErrorCode::UserLimitExceeded ==> m.find_user(u_id@) is Some
                        && (m.find_user(u_id@)->Some_0).limit_votes_per_week >= 0 && now@
                        - WEEK_MILLIS >= i64::MIN && m.votes_since(u_id@, (now@ - WEEK_MILLIS) as i64)
                        >= (m.find_user(u_id@)->Some_0).limit_votes_per_week)
                    &&& (e@.code == ErrorCode::TaskNotFound ==> !m.has_task(t0@.id) || !m.has_task(
                        t1@.id,
                    ))
                    &&& (e@.code == ErrorCode::UserNotFound || e@.code == ErrorCode::UserLimitExceeded
                        || e@.code == ErrorCode::TaskNotFound || is_infrastructure(e@.code))
                },
            },
    {
        let ghost m = old(persistence).model();
        let user = match persistence.get_user(u_id) {
            Ok(u) => u,
            Err(e) => {
                return Err(e);
            },
        };
        if user.is_limited() {
            let last_week_millis = match now.millis().checked_sub(WEEK_MILLIS) {
                Some(v) => v,
                None => {
                    return Err(Error::generic("date wrap-around"));
                },
            };
            let last_week = Timestamp::new(last_week_millis);
            let user_votes = match persistence.get_num_votes_for_user_since(u_id, &last_week) {
                Ok(c) => c,
                Err(e) => {
                    return Err(e);
                },
            };
            if user_votes >= user.limit_votes_per_week() as usize {
                return Err(Error::user_limit_exceeded(u_id));
            }
        }
        let mut attempts: i32 = 0;
        loop
            invariant
                persistence.inv(),
                persistence.model() == m,
                0 <= attempts <= MAX_OPTIMISTIC_CONCURRENCY_ATTEMPTS,
            decreases MAX_OPTIMISTIC_CONCURRENCY_ATTEMPTS - attempts,
        {
            let snapshot = match persistence.get_snapshot() {
                Ok(s) => s,
                Err(e) => {
                    return Err(e);
                },
            };
            let e0 = resolve_elo(snapshot.ranking(), t0.id());
            let e1 = resolve_elo(snapshot.ranking(), t1.id());
            let (n0, n1) = new_elo_pair(e0, e1, outcome);
            let vote = Vote::new(u_id, *now, *t0.id(), *t1.id(), outcome);
            let r0 = Rating::with_elo(*t0.id(), n0);
            let r1 = Rating::with_elo(*t1.id(), n1);
            match persistence.add_vote_and_update_ratings(snapshot.etag(), &vote, &r0, &r1) {
                Ok(()) => {
                    proof {
                        assert(vote@ =~= (VoteView {
                            voter: u_id@,
                            time: now@,
                            task0: t0@.id,
                            task1: t1@.id,
                            outcome,
                        }));
                        assert(r0@ =~= (RatingView { task: t0@.id, elo: n0 }));
                        assert(r1@ =~= (RatingView { task: t1@.id, elo: n1 }));
                        assert(call_ensures(new_elo_pair, (e0, e1, outcome), (n0, n1)));
                        assert(e0 == m.rating_elo(t0@.id));
                        assert(e1 == m.rating_elo(t1@.id));
                    }
                    return Ok(());
                },
                Err(e) => {
                    if e.code() != ErrorCode::OptimisticConcurrencyRetryTransaction {
                        return Err(e);
                    }
                    proof {
                        // The guard came from a snapshot of this very state,
                        // and nothing else can move the store while this call
                        // holds it exclusively, so a stale-token rejection is
                        // impossible here; the retry arm exists for backends
                        // shared with other writers.
                        assert(snapshot@.etag == m.token);
                        assert(false);
                    }
                    if attempts >= MAX_OPTIMISTIC_CONCURRENCY_ATTEMPTS {
                        return Err(Error::too_many_retry_attempts());
                    }
                    attempts += 1;
                },
            }
        }
    }

    /// The ranking part of a fresh snapshot; read-only, so no retry is needed.
    pub fn get_current_ranking<P: Persistence>(&self, persistence: &mut P) -> (r: Result<
        Vec<Rating>,
        Error,
    >)
        requires
            old(persistence).inv(),
        ensures
            final (persistence).inv(),
            final (persistence).model() == old(persistence).model(),
            match r {
                Ok(v) => v.deep_view() == old(persistence).model().ratings,
                Err(e) => is_infrastructure(e@.code),
            },
    {
        let snapshot = match persistence.get_snapshot() {
            Ok(s) => s,
            Err(e) => {
                return Err(e);
            },
        };
        Ok(snapshot.into_ranking())
    }
}

} // verus!
