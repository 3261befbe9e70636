//! The mathematical model of a store's state.
//!
//! A backend is specified against a `StoreModel`: the sequences of user,
//! task, rating and vote records it holds, in the backend's own order, plus
//! the current version token. Records are found by first match; identities
//! are pairwise distinct in a well-formed model, so first match is the only
//! match.

use crate::data::RatingView;
use crate::data::TaskView;
use crate::data::UserView;
use crate::data::VoteView;
use crate::data::DEFAULT_ELO_BITS;
use vstd::prelude::*;

verus! {

/// Index of the first element satisfying `p`, if any.
pub open spec fn find_index<T>(s: Seq<T>, p: spec_fn(T) -> bool) -> Option<int>
    decreases s.len(),
{
    if s.len() == 0 {
        None
    } else if p(s[0]) {
        Some(0)
    } else {
        match find_index(s.drop_first(), p) {
            Some(i) => Some(i + 1),
            None => None,
        }
    }
}

/// The first element satisfying `p`, if any.
pub open spec fn find_first<T>(s: Seq<T>, p: spec_fn(T) -> bool) -> Option<T> {
    match find_index(s, p) {
        Some(i) => Some(s[i]),
        None => None,
    }
}

/// Replace the first element satisfying `p` by `v`, or append `v` if none does.
pub open spec fn upsert_first<T>(s: Seq<T>, p: spec_fn(T) -> bool, v: T) -> Seq<T> {
    match find_index(s, p) {
        Some(i) => s.update(i, v),
        None => s.push(v),
    }
}

/// The subsequence of elements satisfying `p`, in order.
pub open spec fn filter_matching<T>(s: Seq<T>, p: spec_fn(T) -> bool) -> Seq<T>
    decreases s.len(),
{
    if s.len() == 0 {
        Seq::<T>::empty()
    } else {
        let rest = filter_matching(s.drop_last(), p);
        if p(s.last()) {
            rest.push(s.last())
        } else {
            rest
        }
    }
}

/// No two elements share a key.
pub open spec fn distinct_keys<T, K>(s: Seq<T>, key: spec_fn(T) -> K) -> bool {
    forall|i: int, j: int| 0 <= i < j < s.len() ==> key(s[i]) != key(s[j])
}

/// What `find_index` returns: the first matching index, or none anywhere.
pub proof fn lemma_find_index<T>(s: Seq<T>, p: spec_fn(T) -> bool)
    ensures
        match find_index(s, p) {
            Some(i) => 0 <= i < s.len() && p(s[i]) && (forall|j: int| 0 <= j < i ==> !p(s[j])),
            None => forall|j: int| 0 <= j < s.len() ==> !p(s[j]),
        },
    decreases s.len(),
{
    if s.len() > 0 && !p(s[0]) {
        lemma_find_index(s.drop_first(), p);
        let d = s.drop_first();
        match find_index(d, p) {
            Some(i) => {
                assert(d[i] == s[i + 1]);
                assert forall|j: int| 0 <= j < i + 1 implies !p(s[j]) by {
                    if j > 0 {
                        assert(d[j - 1] == s[j]);
                        assert(!p(d[j - 1]));
                    }
                }
            },
            None => {
                assert forall|j: int| 0 <= j < s.len() implies !p(s[j]) by {
                    if j > 0 {
                        assert(d[j - 1] == s[j]);
                        assert(!p(d[j - 1]));
                    }
                }
            },
        }
    }
}

/// A witnessed first match pins `find_index` down.
pub proof fn lemma_find_index_at<T>(s: Seq<T>, p: spec_fn(T) -> bool, i: int)
    requires
        0 <= i < s.len(),
        p(s[i]),
        forall|j: int| 0 <= j < i ==> !p(s[j]),
    ensures
        find_index(s, p) == Some(i),
    decreases i,
{
    if i > 0 {
        lemma_find_index_at(s.drop_first(), p, i - 1);
    }
}

/// No match anywhere pins `find_index` to none.
pub proof fn lemma_find_index_none<T>(s: Seq<T>, p: spec_fn(T) -> bool)
    requires
        forall|j: int| 0 <= j < s.len() ==> !p(s[j]),
    ensures
        find_index(s, p) is None,
{
    lemma_find_index(s, p);
    if find_index(s, p) is Some {
        let i = find_index(s, p)->Some_0;
        assert(!p(s[i]));
    }
}

/// Replacing an element by one with the same key keeps keys distinct.
pub proof fn lemma_update_same_key_distinct<T, K>(s: Seq<T>, key: spec_fn(T) -> K, i: int, v: T)
    requires
        distinct_keys(s, key),
        0 <= i < s.len(),
        key(v) == key(s[i]),
    ensures
        distinct_keys(s.update(i, v), key),
{
    let s2 = s.update(i, v);
    assert forall|a: int, b: int| 0 <= a < b < s2.len() implies key(s2[a]) != key(s2[b]) by {
        assert(key(s[a]) != key(s[b]));
    }
}

/// Appending an element with a fresh key keeps keys distinct.
pub proof fn lemma_push_new_key_distinct<T, K>(s: Seq<T>, key: spec_fn(T) -> K, v: T)
    requires
        distinct_keys(s, key),
        forall|j: int| 0 <= j < s.len() ==> key(#[trigger] s[j]) != key(v),
    ensures
        distinct_keys(s.push(v), key),
{
    let s2 = s.push(v);
    assert forall|a: int, b: int| 0 <= a < b < s2.len() implies key(s2[a]) != key(s2[b]) by {
        if b < s.len() {
            assert(key(s[a]) != key(s[b]));
        } else {
            assert(s2[a] == s[a]);
            assert(s2[b] == v);
        }
    }
}

/// An upsert keyed like its new element keeps keys distinct.
pub proof fn lemma_upsert_first_distinct<T, K>(
    s: Seq<T>,
    p: spec_fn(T) -> bool,
    key: spec_fn(T) -> K,
    v: T,
)
    requires
        distinct_keys(s, key),
        forall|x: T| #[trigger] p(x) <==> key(x) == key(v),
    ensures
        distinct_keys(upsert_first(s, p, v), key),
{
    lemma_find_index(s, p);
    match find_index(s, p) {
        Some(i) => {
            lemma_update_same_key_distinct(s, key, i, v);
        },
        None => {
            lemma_push_new_key_distinct(s, key, v);
        },
    }
}

/// How the filtered sequence grows from one prefix to the next.
pub proof fn lemma_filter_matching_take_step<T>(s: Seq<T>, p: spec_fn(T) -> bool, i: int)
    requires
        0 <= i < s.len(),
    ensures
        filter_matching(s.take(i + 1), p) == (if p(s[i]) {
            filter_matching(s.take(i), p).push(s[i])
        } else {
            filter_matching(s.take(i), p)
        }),
{
    let t = s.take(i + 1);
    assert(t.drop_last() =~= s.take(i));
    assert(t.last() == s[i]);
}

/// The whole sequence is its own full prefix.
pub proof fn lemma_filter_matching_take_all<T>(s: Seq<T>, p: spec_fn(T) -> bool)
    ensures
        filter_matching(s.take(s.len() as int), p) == filter_matching(s, p),
{
    assert(s.take(s.len() as int) =~= s);
}

/// Every filtered element satisfies `p` and comes from the sequence.
pub proof fn lemma_filter_matching_sub<T>(s: Seq<T>, p: spec_fn(T) -> bool)
    ensures
        forall|k: int|
            0 <= k < filter_matching(s, p).len() ==> p(#[trigger] filter_matching(s, p)[k]),
        forall|k: int|
            0 <= k < filter_matching(s, p).len() ==> exists|j: int|
                0 <= j < s.len() && #[trigger] filter_matching(s, p)[k] == s[j],
    decreases s.len(),
{
    if s.len() > 0 {
        lemma_filter_matching_sub(s.drop_last(), p);
        let f = filter_matching(s, p);
        let f0 = filter_matching(s.drop_last(), p);
        assert forall|k: int| 0 <= k < f.len() implies p(f[k]) && (exists|j: int|
            0 <= j < s.len() && f[k] == s[j]) by {
            if k < f0.len() {
                assert(f[k] == f0[k]);
                let j = choose|j: int| 0 <= j < s.drop_last().len() && f0[k] == s.drop_last()[j];
                assert(s.drop_last()[j] == s[j]);
                assert(0 <= j < s.len() && f[k] == s[j]);
            } else {
                assert(f[k] == s.last());
                assert(0 <= s.len() - 1 < s.len() && f[k] == s[s.len() - 1]);
            }
        }
    }
}

/// Filtering keeps keys distinct.
pub proof fn lemma_filter_matching_distinct<T, K>(
    s: Seq<T>,
    p: spec_fn(T) -> bool,
    key: spec_fn(T) -> K,
)
    requires
        distinct_keys(s, key),
    ensures
        distinct_keys(filter_matching(s, p), key),
    decreases s.len(),
{
    if s.len() > 0 {
        assert(forall|j: int| 0 <= j < s.drop_last().len() ==> s.drop_last()[j] == s[j]);
        lemma_filter_matching_distinct(s.drop_last(), p, key);
        lemma_filter_matching_sub(s.drop_last(), p);
        let f = filter_matching(s, p);
        let f0 = filter_matching(s.drop_last(), p);
        if p(s.last()) {
            assert forall|a: int, b: int| 0 <= a < b < f.len() implies key(f[a]) != key(f[b]) by {
                if b < f0.len() {
                    assert(key(f0[a]) != key(f0[b]));
                } else {
                    let j = choose|j: int|
                        0 <= j < s.drop_last().len() && f0[a] == s.drop_last()[j];
                    assert(f[a] == s[j]);
                    assert(f[b] == s[s.len() - 1]);
                    assert(key(s[j]) != key(s[s.len() - 1]));
                }
            }
        }
    }
}

/// The current score bits of a task within a rating sequence, with the
/// default score materialized lazily for a task that has no record yet.
pub open spec fn rating_elo_in(ratings: Seq<RatingView>, task: u128) -> u32 {
    match find_first(ratings, |r: RatingView| r.task == task) {
        Some(r) => r.elo,
        None => DEFAULT_ELO_BITS,
    }
}

/// One backend state: the records it holds and its version token.
#[verifier::ext_equal]
pub struct StoreModel {
    pub users: Seq<UserView>,
    pub tasks: Seq<TaskView>,
    pub ratings: Seq<RatingView>,
    pub votes: Seq<VoteView>,
    pub token: Seq<char>,
}

impl StoreModel {
    /// Identities are pairwise distinct within each record kind.
    pub open spec fn wf(self) -> bool {
        &&& distinct_keys(self.users, |u: UserView| u.id)
        &&& distinct_keys(self.tasks, |t: TaskView| t.id)
        &&& distinct_keys(self.ratings, |r: RatingView| r.task)
    }

    pub open spec fn find_user(self, id: Seq<char>) -> Option<UserView> {
        find_first(self.users, |u: UserView| u.id == id)
    }

    pub open spec fn find_task(self, id: u128) -> Option<TaskView> {
        find_first(self.tasks, |t: TaskView| t.id == id)
    }

    pub open spec fn has_task(self, id: u128) -> bool {
        self.find_task(id) is Some
    }

    pub open spec fn find_rating(self, task: u128) -> Option<RatingView> {
        find_first(self.ratings, |r: RatingView| r.task == task)
    }

    /// The current score bits of a task, materializing the default lazily.
    pub open spec fn rating_elo(self, task: u128) -> u32 {
        rating_elo_in(self.ratings, task)
    }

    /// The open (not closed) tasks, in store order.
    pub open spec fn open_tasks(self) -> Seq<TaskView> {
        filter_matching(self.tasks, |t: TaskView| !t.closed)
    }

    /// How many votes a voter has cast at or after `since`.
    pub open spec fn votes_since(self, voter: Seq<char>, since: i64) -> nat {
        filter_matching(self.votes, |v: VoteView| v.voter == voter && v.time >= since).len()
    }

    /// Insert or replace a user record; nothing else moves.
    pub open spec fn upsert_user(self, u: UserView) -> StoreModel {
        StoreModel { users: upsert_first(self.users, |x: UserView| x.id == u.id, u), ..self }
    }

    /// Insert or replace a task record, and seed its rating at the default
    /// score exactly once: a re-upsert of a known identity never resets an
    /// existing rating. Nothing else moves.
    pub open spec fn upsert_task(self, t: TaskView) -> StoreModel {
        StoreModel {
            tasks: upsert_first(self.tasks, |x: TaskView| x.id == t.id, t),
            ratings: if self.find_rating(t.id) is Some {
                self.ratings
            } else {
                self.ratings.push(RatingView { task: t.id, elo: DEFAULT_ELO_BITS })
            },
            ..self
        }
    }

    /// Mark a task closed in place; absent identities change nothing.
    pub open spec fn close_task(self, id: u128) -> StoreModel {
        match find_index(self.tasks, |x: TaskView| x.id == id) {
            Some(i) => StoreModel {
                tasks: self.tasks.update(
                    i,
                    TaskView {
                        id: self.tasks[i].id,
                        summary: self.tasks[i].summary,
                        link: self.tasks[i].link,
                        closed: true,
                    },
                ),
                ..self
            },
            None => self,
        }
    }

    /// One committed vote: both rating records take their new scores, the
    /// vote is appended, and the version token advances. Users and tasks
    /// are untouched.
    pub open spec fn commit(
        self,
        vote: VoteView,
        r0: RatingView,
        r1: RatingView,
        new_token: Seq<char>,
    ) -> StoreModel {
        StoreModel {
            ratings: upsert_first(
                upsert_first(self.ratings, |x: RatingView| x.task == r0.task, r0),
                |x: RatingView| x.task == r1.task,
                r1,
            ),
            votes: self.votes.push(vote),
            token: new_token,
            ..self
        }
    }

    /// A well-formed model stays well-formed under every mutation above.
    pub proof fn lemma_upsert_user_wf(self, u: UserView)
        requires
            self.wf(),
        ensures
            self.upsert_user(u).wf(),
    {
        lemma_upsert_first_distinct(self.users, |x: UserView| x.id == u.id, |x: UserView| x.id, u);
    }

    pub proof fn lemma_upsert_task_wf(self, t: TaskView)
        requires
            self.wf(),
        ensures
            self.upsert_task(t).wf(),
    {
        lemma_upsert_first_distinct(self.tasks, |x: TaskView| x.id == t.id, |x: TaskView| x.id, t);
        if self.find_rating(t.id) is None {
            lemma_find_index(self.ratings, |r: RatingView| r.task == t.id);
            lemma_push_new_key_distinct(
                self.ratings,
                |r: RatingView| r.task,
                RatingView { task: t.id, elo: DEFAULT_ELO_BITS },
            );
        }
    }

    pub proof fn lemma_close_task_wf(self, id: u128)
        requires
            self.wf(),
        ensures
            self.close_task(id).wf(),
    {
        lemma_find_index(self.tasks, |x: TaskView| x.id == id);
        match find_index(self.tasks, |x: TaskView| x.id == id) {
            Some(i) => {
                lemma_update_same_key_distinct(
                    self.tasks,
                    |x: TaskView| x.id,
                    i,
                    TaskView {
                        id: self.tasks[i].id,
                        summary: self.tasks[i].summary,
                        link: self.tasks[i].link,
                        closed: true,
                    },
                );
            },
            None => {},
        }
    }

    pub proof fn lemma_commit_wf(
        self,
        vote: VoteView,
        r0: RatingView,
        r1: RatingView,
        new_token: Seq<char>,
    )
        requires
            self.wf(),
        ensures
            self.commit(vote, r0, r1, new_token).wf(),
    {
        lemma_upsert_first_distinct(
            self.ratings,
            |x: RatingView| x.task == r0.task,
            |x: RatingView| x.task,
            r0,
        );
        lemma_upsert_first_distinct(
            upsert_first(self.ratings, |x: RatingView| x.task == r0.task, r0),
            |x: RatingView| x.task == r1.task,
            |x: RatingView| x.task,
            r1,
        );
    }
}

} // verus!
