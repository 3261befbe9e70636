//! The persistence contract and the in-process backend.
//!
//! A backend owns all entity storage and exposes it only through the
//! operations below, specified against the backend's `StoreModel`. The
//! consistency primitive is a snapshot: the full current ranking paired with
//! an opaque version token. A conditional commit guarded by a token succeeds
//! only while the token is still the store's current one, so the token
//! serializes writers without a lock held across their compute step.

use crate::data::str_eq;
use crate::data::DEFAULT_ELO_BITS;
use crate::data::Rating;
use crate::data::RatingView;
use crate::data::Task;
use crate::data::TaskId;
use crate::data::TaskView;
use crate::data::Timestamp;
use crate::data::User;
use crate::data::UserView;
use crate::data::Vote;
use crate::data::VoteView;
use crate::errors::is_infrastructure;
use crate::errors::Error;
use crate::errors::ErrorCode;
use crate::model::filter_matching;
use crate::model::find_index;
use crate::model::lemma_filter_matching_take_all;
use crate::model::lemma_filter_matching_take_step;
use crate::model::lemma_find_index_at;
use crate::model::lemma_find_index_none;
use crate::model::upsert_first;
use crate::model::StoreModel;
use crate::numerals::lemma_decimal_injective;
use crate::numerals::spec_decimal;
use crate::numerals::u128_to_decimal;
use vstd::prelude::*;
use vstd::string::*;

verus! {

/// An opaque version token: equality with the store's current token means
/// no vote has been committed since the token was issued.
#[derive(Debug)]
pub struct Etag {
    pub token: String,
}

impl View for Etag {
    type V = Seq<char>;

    open spec fn view(&self) -> Seq<char> {
        self.token@
    }
}

impl Clone for Etag {
    fn clone(&self) -> (res: Self)
        ensures
            res@ == self@,
    {
        Etag { token: self.token.clone() }
    }
}

/// A consistent observation of the store: the version token and the full
/// current ranking, read together at one instant.
#[derive(Debug)]
pub struct Snapshot {
    etag: Etag,
    ranking: Vec<Rating>,
}

#[verifier::ext_equal]
pub struct SnapshotView {
    pub etag: Seq<char>,
    pub ranking: Seq<RatingView>,
}

impl View for Snapshot {
    type V = SnapshotView;

    closed spec fn view(&self) -> SnapshotView {
        SnapshotView { etag: self.etag@, ranking: self.ranking.deep_view() }
    }
}

impl Snapshot {
    pub fn new(etag: Etag, ranking: Vec<Rating>) -> (r: Snapshot)
        ensures
            r@.etag == etag@,
            r@.ranking == ranking.deep_view(),
    {
        Snapshot { etag, ranking }
    }

    pub fn etag(&self) -> (r: &Etag)
        ensures
            r@ == self@.etag,
    {
        &self.etag
    }

    pub fn ranking(&self) -> (r: &Vec<Rating>)
        ensures
            r.deep_view() == self@.ranking,
    {
        &self.ranking
    }

    pub fn into_ranking(self) -> (r: Vec<Rating>)
        ensures
            r.deep_view() == self@.ranking,
    {
        self.ranking
    }
}

/// The persistence contract.
///
/// Every operation is specified against the backend's model. Reads return
/// what the model holds; writes move the model by the named model operation
/// or leave it exactly as it was. Any operation of a backend over an
/// external service may fail with an infrastructure error instead; such a
/// failure mutates nothing.
pub trait Persistence: Sized {
    /// The records the backend currently holds, and its version token.
    spec fn model(&self) -> StoreModel;

    /// The backend's internal invariant.
    spec fn inv(&self) -> bool;

    /// The invariant keeps the model well-formed.
    proof fn inv_wf(&self)
        requires
            self.inv(),
        ensures
            self.model().wf(),
    ;

    fn list_users(&self) -> (r: Result<Vec<User>, Error>)
        requires
            self.inv(),
        ensures
            match r {
                Ok(us) => us.deep_view() == self.model().users,
                Err(e) => is_infrastructure(e@.code),
            },
    ;

    fn upsert_user(&mut self, u: &User) -> (r: Result<(), Error>)
        requires
            old(self).inv(),
        ensures
            final (self).inv(),
            match r {
                Ok(()) => final (self).model() == old(self).model().upsert_user(u@),
                Err(e) => final (self).model() == old(self).model() && is_infrastructure(e@.code),
            },
    ;

    fn get_user(&self, u_id: &str) -> (r: Result<User, Error>)
        requires
            self.inv(),
        ensures
            match r {
                Ok(u) => self.model().find_user(u_id@) == Some(u@),
                Err(e) => (e@.code == ErrorCode::UserNotFound && self.model().find_user(u_id@)
                    is None) || is_infrastructure(e@.code),
            },
    ;

    /// How many votes the user has cast at or after `since`.
    fn get_num_votes_for_user_since(&self, u_id: &str, since: &Timestamp) -> (r: Result<
        usize,
        Error,
    >)
        requires
            self.inv(),
        ensures
            match r {
                Ok(n) => n == self.model().votes_since(u_id@, since@),
                Err(e) => is_infrastructure(e@.code),
            },
    ;

    fn list_tasks(&self) -> (r: Result<Vec<Task>, Error>)
        requires
            self.inv(),
        ensures
            match r {
                Ok(ts) => ts.deep_view() == self.model().tasks,
                Err(e) => is_infrastructure(e@.code),
            },
    ;

    fn upsert_task(&mut self, t: &Task) -> (r: Result<(), Error>)
        requires
            old(self).inv(),
        ensures
            final (self).inv(),
            match r {
                Ok(()) => final (self).model() == old(self).model().upsert_task(t@),
                Err(e) => final (self).model() == old(self).model() && is_infrastructure(e@.code),
            },
    ;

    fn close_task(&mut self, t_id: &TaskId) -> (r: Result<(), Error>)
        requires
            old(self).inv(),
        ensures
            final (self).inv(),
            match r {
                Ok(()) => old(self).model().has_task(t_id@) && final (self).model() == old(
                    self,
                ).model().close_task(t_id@),
                Err(e) => final (self).model() == old(self).model() && ((e@.code
                    == ErrorCode::TaskNotFound && !old(self).model().has_task(t_id@))
                    || is_infrastructure(e@.code)),
            },
    ;

    /// The version token never moves on a read.
    fn get_snapshot(&mut self) -> (r: Result<Snapshot, Error>)
        requires
            old(self).inv(),
        ensures
            final (self).inv(),
            final (self).model() == old(self).model(),
            match r {
                Ok(s) => s@.etag == old(self).model().token && s@.ranking == old(
                    self,
                ).model().ratings,
                Err(e) => is_infrastructure(e@.code),
            },
    ;

    /// The conditional commit. Under one indivisible step: a stale token is
    /// rejected with the retry signal and nothing moves; an unknown task
    /// identity is rejected and nothing moves; otherwise both rating
    /// records, the vote, and a fresh version token are persisted together.
    fn add_vote_and_update_ratings(
        &mut self,
        etag: &Etag,
        vote: &Vote,
        r0: &Rating,
        r1: &Rating,
    ) -> (r: Result<(), Error>)
        requires
            old(self).inv(),
        ensures
            final (self).inv(),
            match r {
                Ok(()) => {
                    &&& etag@ == old(self).model().token
                    &&& old(self).model().has_task(r0@.task)
                    &&& old(self).model().has_task(r1@.task)
                    &&& final (self).model() == old(self).model().commit(
                        vote@,
                        r0@,
                        r1@,
                        final (self).model().token,
                    )
                    &&& final (self).model().token != old(self).model().token
                },
                Err(e) => {
                    &&& final (self).model() == old(self).model()
                    &&& (etag@ != old(self).model().token ==> e@.code
                        == ErrorCode::OptimisticConcurrencyRetryTransaction || is_infrastructure(
                        e@.code,
                    ))
                    &&& (etag@ == old(self).model().token ==> (e@.code == ErrorCode::TaskNotFound
                        && (!old(self).model().has_task(r0@.task) || !old(self).model().has_task(
                        r1@.task,
                    ))) || is_infrastructure(e@.code))
                    &&& (e@.code == ErrorCode::OptimisticConcurrencyRetryTransaction ==> etag@
                        != old(self).model().token)
                },
            },
    ;
}


/// No lost update. Under the in-process token policy — the token is the
/// decimal numeral of the committed-vote count — a successful commit always
/// moves the store to a state whose token differs from the one the commit
/// was guarded by. A second writer that read the same state therefore holds
/// a stale token, and the contract of `add_vote_and_update_ratings` forces
/// its commit to be rejected and recomputed against the new state: two
/// successful answers are always applied serially, each on top of the
/// other's effect.
pub proof fn lemma_commit_freshens_token(
    m: StoreModel,
    vote: VoteView,
    r0: RatingView,
    r1: RatingView,
)
    requires
        m.token == spec_decimal(m.votes.len()),
    ensures
        m.commit(vote, r0, r1, spec_decimal(m.votes.len() + 1)).token != m.token,
        m.commit(vote, r0, r1, spec_decimal(m.votes.len() + 1)).votes.len() == m.votes.len() + 1,
{
    if spec_decimal(m.votes.len() + 1) == spec_decimal(m.votes.len()) {
        lemma_decimal_injective(m.votes.len() + 1, m.votes.len());
    }
}

/// The version token moves only with the committed votes: user and task
/// maintenance, including closing a task, never advances it, so a snapshot
/// taken before such maintenance still commits.
pub proof fn lemma_crud_keeps_token(m: StoreModel, u: UserView, t: TaskView, id: u128)
    ensures
        m.upsert_user(u).token == m.token,
        m.upsert_task(t).token == m.token,
        m.close_task(id).token == m.token,
        m.upsert_user(u).votes == m.votes,
        m.upsert_task(t).votes == m.votes,
        m.close_task(id).votes == m.votes,
{
}

/// The in-process backend: plain vectors behind the contract, with the
/// version token equal to the decimal numeral of the committed-vote count.
pub struct InMemory {
    users: Vec<User>,
    tasks: Vec<Task>,
    ratings: Vec<Rating>,
    votes: Vec<Vote>,
}

impl InMemory {
    pub fn new() -> (r: InMemory)
        ensures
            r.inv(),
            r.model() == (StoreModel {
                users: Seq::<UserView>::empty(),
                tasks: Seq::<TaskView>::empty(),
                ratings: Seq::<RatingView>::empty(),
                votes: Seq::<VoteView>::empty(),
                token: spec_decimal(0),
            }),
    {
        let r = InMemory {
            users: Vec::new(),
            tasks: Vec::new(),
            ratings: Vec::new(),
            votes: Vec::new(),
        };
        proof {
            assert(r.users.deep_view() =~= Seq::<UserView>::empty());
            assert(r.tasks.deep_view() =~= Seq::<TaskView>::empty());
            assert(r.ratings.deep_view() =~= Seq::<RatingView>::empty());
            assert(r.votes.deep_view() =~= Seq::<VoteView>::empty());
        }
        r
    }

    /// Where a task with this identity is on record, if anywhere.
    fn find_task_index(&self, id: &TaskId) -> (r: Option<usize>)
        ensures
            match r {
                Some(i) => i < self.tasks@.len() && find_index(
                    self.tasks.deep_view(),
                    |x: TaskView| x.id == id@,
                ) == Some(i as int),
                None => find_index(self.tasks.deep_view(), |x: TaskView| x.id == id@) is None,
            },
    {
        let n = self.tasks.len();
        let mut i: usize = 0;
        while i < n
            invariant
                n == self.tasks@.len(),
                i <= n,
                forall|j: int| 0 <= j < i ==> (#[trigger] self.tasks.deep_view()[j]).id != id@,
            decreases n - i,
        {
            if self.tasks[i].id().value() == id.value() {
                proof {
                    lemma_find_index_at(self.tasks.deep_view(), |x: TaskView| x.id == id@, i as int);
                }
                return Some(i);
            }
            i += 1;
        }
        proof {
            lemma_find_index_none(self.tasks.deep_view(), |x: TaskView| x.id == id@);
        }
        None
    }

    /// Whether a task with this identity is on record.
    fn contains_task(&self, id: &TaskId) -> (r: bool)
        ensures
            r == self.model().has_task(id@),
    {
        self.find_task_index(id).is_some()
    }

    /// Index of the rating row of one task, if there is one.
    fn find_rating_index(&self, id: &TaskId) -> (r: Option<usize>)
        ensures
            match r {
                Some(i) => i < self.ratings@.len() && find_index(
                    self.ratings.deep_view(),
                    |x: RatingView| x.task == id@,
                ) == Some(i as int),
                None => find_index(self.ratings.deep_view(), |x: RatingView| x.task == id@)
                    is None,
            },
    {
        let n = self.ratings.len();
        let mut i: usize = 0;
        while i < n
            invariant
                n == self.ratings@.len(),
                i <= n,
                forall|j: int| 0 <= j < i ==> (#[trigger] self.ratings.deep_view()[j]).task != id@,
            decreases n - i,
        {
            if self.ratings[i].task().value() == id.value() {
                proof {
                    lemma_find_index_at(
                        self.ratings.deep_view(),
                        |x: RatingView| x.task == id@,
                        i as int,
                    );
                }
                return Some(i);
            }
            i += 1;
        }
        proof {
            lemma_find_index_none(self.ratings.deep_view(), |x: RatingView| x.task == id@);
        }
        None
    }

    /// Insert or replace the rating record of one task.
    fn put_rating(&mut self, r: &Rating)
        ensures
            final (self).users == old(self).users,
            final (self).tasks == old(self).tasks,
            final (self).votes == old(self).votes,
            final (self).ratings.deep_view() == upsert_first(
                old(self).ratings.deep_view(),
                |x: RatingView| x.task == r@.task,
                r@,
            ),
    {
        let n = self.ratings.len();
        let mut i: usize = 0;
        while i < n
            invariant
                *self == *old(self),
                n == self.ratings@.len(),
                i <= n,
                forall|j: int|
                    0 <= j < i ==> (#[trigger] self.ratings.deep_view()[j]).task != r@.task,
            decreases n - i,
        {
            if self.ratings[i].task().value() == r.task().value() {
                proof {
                    lemma_find_index_at(
                        self.ratings.deep_view(),
                        |x: RatingView| x.task == r@.task,
                        i as int,
                    );
                }
                self.ratings[i] = *r;
                proof {
                    assert(self.ratings.deep_view() =~= upsert_first(
                        old(self).ratings.deep_view(),
                        |x: RatingView| x.task == r@.task,
                        r@,
                    ));
                }
                return ;
            }
            i += 1;
        }
        proof {
            lemma_find_index_none(self.ratings.deep_view(), |x: RatingView| x.task == r@.task);
        }
        self.ratings.push(*r);
        proof {
            assert(self.ratings.deep_view() =~= upsert_first(
                old(self).ratings.deep_view(),
                |x: RatingView| x.task == r@.task,
                r@,
            ));
        }
    }
}

impl Persistence for InMemory {
    closed spec fn model(&self) -> StoreModel {
        StoreModel {
            users: self.users.deep_view(),
            tasks: self.tasks.deep_view(),
            ratings: self.ratings.deep_view(),
            votes: self.votes.deep_view(),
            token: spec_decimal(self.votes@.len()),
        }
    }

    closed spec fn inv(&self) -> bool {
        self.model().wf()
    }

    proof fn inv_wf(&self) {
    }

    fn list_users(&self) -> (r: Result<Vec<User>, Error>)
        ensures
            r is Ok,
    {
        let mut result: Vec<User> = Vec::new();
        let n = self.users.len();
        let mut i: usize = 0;
        while i < n
            invariant
                n == self.users@.len(),
                i <= n,
                result@.len() == i,
                result.deep_view() =~= self.users.deep_view().take(i as int),
            decreases n - i,
        {
            let ghost prev = result.deep_view();
            let u = self.users[i].clone();
            proof {
                assert(u == self.users@[i as int]);
            }
            result.push(u);
            proof {
                assert(result@.len() == i + 1);
                assert(result@[i as int] == self.users@[i as int]);
                assert forall|k: int| 0 <= k < i + 1 implies result.deep_view()[k]
                    == self.users.deep_view().take(i as int + 1)[k] by {
                    if k < i {
                        assert(result.deep_view()[k] == prev[k]);
                        assert(prev[k] == self.users.deep_view().take(i as int)[k]);
                    }
                }
                assert(result.deep_view() =~= self.users.deep_view().take(i as int + 1));
            }
            i += 1;
        }
        proof {
            assert(self.users.deep_view().take(n as int) =~= self.users.deep_view());
        }
        Ok(result)
    }

    fn upsert_user(&mut self, u: &User) -> (r: Result<(), Error>)
        ensures
            r is Ok,
    {
        let n = self.users.len();
        let mut i: usize = 0;
        while i < n
            invariant
                *self == *old(self),
                old(self).inv(),
                n == self.users@.len(),
                i <= n,
                forall|j: int| 0 <= j < i ==> (#[trigger] self.users.deep_view()[j]).id != u@.id,
            decreases n - i,
        {
            if str_eq(self.users[i].id(), u.id()) {
                proof {
                    lemma_find_index_at(self.users.deep_view(), |x: UserView| x.id == u@.id, i as int);
                    old(self).model().lemma_upsert_user_wf(u@);
                }
                self.users[i] = u.clone();
                proof {
                    assert(self.users.deep_view() =~= old(self).users.deep_view().update(
                        i as int,
                        u@,
                    ));
                    assert(self.model() =~= old(self).model().upsert_user(u@));
                }
                return Ok(());
            }
            i += 1;
        }
        proof {
            lemma_find_index_none(self.users.deep_view(), |x: UserView| x.id == u@.id);
            old(self).model().lemma_upsert_user_wf(u@);
        }
        self.users.push(u.clone());
        proof {
            assert(self.users.deep_view() =~= old(self).users.deep_view().push(u@));
            assert(self.model() =~= old(self).model().upsert_user(u@));
        }
        Ok(())
    }

    fn get_user(&self, u_id: &str) -> (r: Result<User, Error>)
        ensures
            r is Ok <==> self.model().find_user(u_id@) is Some,
            r matches Err(e) ==> e@.code == ErrorCode::UserNotFound,
    {
        let n = self.users.len();
        let mut i: usize = 0;
        while i < n
            invariant
                n == self.users@.len(),
                i <= n,
                forall|j: int| 0 <= j < i ==> (#[trigger] self.users.deep_view()[j]).id != u_id@,
            decreases n - i,
        {
            if str_eq(self.users[i].id(), u_id) {
                proof {
                    lemma_find_index_at(
                        self.users.deep_view(),
                        |x: UserView| x.id == u_id@,
                        i as int,
                    );
                }
                return Ok(self.users[i].clone());
            }
            i += 1;
        }
        proof {
            lemma_find_index_none(self.users.deep_view(), |x: UserView| x.id == u_id@);
        }
        Err(Error::user_not_found(u_id))
    }

    fn get_num_votes_for_user_since(&self, u_id: &str, since: &Timestamp) -> (r: Result<
        usize,
        Error,
    >)
        ensures
            r is Ok,
    {
        let n = self.votes.len();
        let mut count: usize = 0;
        let mut i: usize = 0;
        while i < n
            invariant
                n == self.votes@.len(),
                i <= n,
                count <= i,
                count as nat == filter_matching(
                    self.votes.deep_view().take(i as int),
                    |v: VoteView| v.voter == u_id@ && v.time >= since@,
                ).len(),
            decreases n - i,
        {
            let hit = str_eq(self.votes[i].voter(), u_id) && self.votes[i].time().millis()
                >= since.millis();
            proof {
                lemma_filter_matching_take_step(
                    self.votes.deep_view(),
                    |v: VoteView| v.voter == u_id@ && v.time >= since@,
                    i as int,
                );
            }
            if hit {
                count += 1;
            }
            i += 1;
        }
        proof {
            lemma_filter_matching_take_all(
                self.votes.deep_view(),
                |v: VoteView| v.voter == u_id@ && v.time >= since@,
            );
        }
        Ok(count)
    }

    fn list_tasks(&self) -> (r: Result<Vec<Task>, Error>)
        ensures
            r is Ok,
    {
        let mut result: Vec<Task> = Vec::new();
        let n = self.tasks.len();
        let mut i: usize = 0;
        while i < n
            invariant
                n == self.tasks@.len(),
                i <= n,
                result@.len() == i,
                result.deep_view() =~= self.tasks.deep_view().take(i as int),
            decreases n - i,
        {
            let ghost prev = result.deep_view();
            let t = self.tasks[i].clone();
            proof {
                assert(t == self.tasks@[i as int]);
            }
            result.push(t);
            proof {
                assert forall|k: int| 0 <= k < i + 1 implies result.deep_view()[k]
                    == self.tasks.deep_view().take(i as int + 1)[k] by {
                    if k < i {
                        assert(result.deep_view()[k] == prev[k]);
                        assert(prev[k] == self.tasks.deep_view().take(i as int)[k]);
                    }
                }
                assert(result.deep_view() =~= self.tasks.deep_view().take(i as int + 1));
            }
            i += 1;
        }
        proof {
            assert(self.tasks.deep_view().take(n as int) =~= self.tasks.deep_view());
        }
        Ok(result)
    }

    fn upsert_task(&mut self, t: &Task) -> (r: Result<(), Error>)
        ensures
            r is Ok,
    {
        match self.find_task_index(t.id()) {
            Some(i) => {
                self.tasks[i] = t.clone();
                proof {
                    assert(self.tasks.deep_view() =~= old(self).tasks.deep_view().update(
                        i as int,
                        t@,
                    ));
                }
            },
            None => {
                self.tasks.push(t.clone());
                proof {
                    assert(self.tasks.deep_view() =~= old(self).tasks.deep_view().push(t@));
                }
            },
        }
        match self.find_rating_index(t.id()) {
            Some(_) => {},
            None => {
                self.ratings.push(Rating::new(*t.id()));
                proof {
                    assert(self.ratings.deep_view() =~= old(self).ratings.deep_view().push(
                        RatingView { task: t@.id, elo: DEFAULT_ELO_BITS },
                    ));
                }
            },
        }
        proof {
            old(self).model().lemma_upsert_task_wf(t@);
            assert(self.model() =~= old(self).model().upsert_task(t@));
        }
        Ok(())
    }

    fn close_task(&mut self, t_id: &TaskId) -> (r: Result<(), Error>)
        ensures
            r is Ok <==> old(self).model().has_task(t_id@),
            r matches Err(e) ==> e@.code == ErrorCode::TaskNotFound,
    {
        let n = self.tasks.len();
        let mut i: usize = 0;
        while i < n
            invariant
                *self == *old(self),
                old(self).inv(),
                n == self.tasks@.len(),
                i <= n,
                forall|j: int| 0 <= j < i ==> (#[trigger] self.tasks.deep_view()[j]).id != t_id@,
            decreases n - i,
        {
            if self.tasks[i].id().value() == t_id.value() {
                proof {
                    lemma_find_index_at(self.tasks.deep_view(), |x: TaskView| x.id == t_id@, i as int);
                    old(self).model().lemma_close_task_wf(t_id@);
                }
                let closed_task = Task::new(
                    *self.tasks[i].id(),
                    self.tasks[i].summary(),
                    self.tasks[i].link(),
                    true,
                );
                self.tasks[i] = closed_task;
                proof {
                    assert(self.tasks.deep_view() =~= old(self).model().close_task(t_id@).tasks);
                    assert(self.model() =~= old(self).model().close_task(t_id@));
                }
                return Ok(());
            }
            i += 1;
        }
        proof {
            lemma_find_index_none(self.tasks.deep_view(), |x: TaskView| x.id == t_id@);
        }
        Err(Error::task_not_found(t_id))
    }

    fn get_snapshot(&mut self) -> (r: Result<Snapshot, Error>)
        ensures
            r is Ok,
    {
        let mut ranking: Vec<Rating> = Vec::new();
        let n = self.ratings.len();
        let mut i: usize = 0;
        while i < n
            invariant
                *self == *old(self),
                n == self.ratings@.len(),
                i <= n,
                ranking@.len() == i,
                ranking.deep_view() =~= self.ratings.deep_view().take(i as int),
            decreases n - i,
        {
            let ghost prev = ranking.deep_view();
            let entry = self.ratings[i];
            ranking.push(entry);
            proof {
                assert forall|k: int| 0 <= k < i + 1 implies ranking.deep_view()[k]
                    == self.ratings.deep_view().take(i as int + 1)[k] by {
                    if k < i {
                        assert(ranking.deep_view()[k] == prev[k]);
                        assert(prev[k] == self.ratings.deep_view().take(i as int)[k]);
                    }
                }
                assert(ranking.deep_view() =~= self.ratings.deep_view().take(i as int + 1));
            }
            i += 1;
        }
        proof {
            assert(self.ratings.deep_view().take(n as int) =~= self.ratings.deep_view());
        }
        let token = u128_to_decimal(self.votes.len() as u128);
        proof {
            assert((self.votes.len() as u128) as nat == self.votes@.len());
        }
        Ok(Snapshot::new(Etag { token }, ranking))
    }

    fn add_vote_and_update_ratings(
        &mut self,
        etag: &Etag,
        vote: &Vote,
        r0: &Rating,
        r1: &Rating,
    ) -> (r: Result<(), Error>)
        ensures
            r is Ok <==> etag@ == old(self).model().token && old(self).model().has_task(r0@.task)
                && old(self).model().has_task(r1@.task),
            r matches Err(e) ==> (if etag@ != old(self).model().token {
                e@.code == ErrorCode::OptimisticConcurrencyRetryTransaction
            } else {
                e@.code == ErrorCode::TaskNotFound
            }),
    {
        let current = u128_to_decimal(self.votes.len() as u128);
        proof {
            assert((self.votes.len() as u128) as nat == self.votes@.len());
        }
        if !str_eq(etag.token.as_str(), current.as_str()) {
            return Err(Error::retry_transaction());
        }
        if !self.contains_task(r0.task()) {
            return Err(Error::task_not_found(r0.task()));
        }
        if !self.contains_task(r1.task()) {
            return Err(Error::task_not_found(r1.task()));
        }
        self.put_rating(r0);
        self.put_rating(r1);
        self.votes.push(vote.clone());
        proof {
            let n0 = old(self).votes.deep_view().len();
            assert(self.votes.deep_view() =~= old(self).votes.deep_view().push(vote@));
            if spec_decimal(n0 + 1) == spec_decimal(n0) {
                lemma_decimal_injective(n0 + 1, n0);
            }
            old(self).model().lemma_commit_wf(vote@, r0@, r1@, spec_decimal(n0 + 1));
            assert(self.model() =~= old(self).model().commit(
                vote@,
                r0@,
                r1@,
                spec_decimal(n0 + 1),
            ));
        }
        Ok(())
    }
}

} // verus!
