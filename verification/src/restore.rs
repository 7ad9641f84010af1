//! Taking the rows out of a store and building a store from rows: what a
//! caller needs to keep the four relations somewhere else.
use crate::models::{Poll, PollOption, User, Vote};
use crate::create::copy_options;
use crate::rows::{has_id, ids_ascend, ids_below, lemma_find_at, lemma_ids_of_rows};
use crate::store::{option_views, poll_views, same_text, user_views, Store, StoreState};
use vstd::prelude::*;

verus! {

/// The rows of the four relations, each in the order of its ids, and the
/// ids that the next rows will get.
#[derive(Debug, PartialEq, Eq)]
pub struct StoreRows {
    pub users: Vec<User>,
    pub polls: Vec<Poll>,
    pub options: Vec<PollOption>,
    pub votes: Vec<Vote>,
    pub next_user_id: i64,
    pub next_poll_id: i64,
    pub next_option_id: i64,
    pub next_vote_id: i64,
}

impl View for StoreRows {
    type V = StoreState;

    open spec fn view(&self) -> StoreState {
        StoreState {
            users: user_views(self.users@),
            polls: poll_views(self.polls@),
            options: option_views(self.options@),
            votes: self.votes@,
            next_user_id: self.next_user_id,
            next_poll_id: self.next_poll_id,
            next_option_id: self.next_option_id,
            next_vote_id: self.next_vote_id,
        }
    }
}

/// Whether the ids are positive, ascend, lie below `next`, and are fewer
/// than `next`.
fn ids_in_order(ids: &Vec<i64>, next: i64) -> (r: bool)
    ensures
        r == {
            &&& 0 < next
            &&& ids.len() < next
            &&& forall|i: int, j: int| 0 <= i < j < ids.len() ==> ids@[i] < ids@[j]
            &&& forall|i: int| 0 <= i < ids.len() ==> 0 < #[trigger] ids@[i] < next
        },
{
    if next <= 0 || ids.len() as u64 >= next as u64 {
        return false;
    }
    let mut i: usize = 0;
    while i < ids.len()
        invariant
            i <= ids.len(),
            0 < next,
            forall|a: int, b: int| 0 <= a < b < i ==> ids@[a] < ids@[b],
            forall|a: int| 0 <= a < i ==> 0 < #[trigger] ids@[a] < next,
        decreases ids.len() - i,
    {
        let id = ids[i];
        if id <= 0 || id >= next {
            return false;
        }
        if i > 0 && ids[i - 1] >= id {
            proof {
                assert(!(ids@[i - 1] < ids@[i as int]));
            }
            return false;
        }
        proof {
            assert forall|a: int, b: int| 0 <= a < b < i + 1 implies ids@[a] < ids@[b] by {
                if b == i && a < i - 1 {
                    assert(ids@[a] < ids@[i - 1]);
                }
            }
        }
        i += 1;
    }
    true
}

impl Store {
    /// The rows of the store.
    pub fn snapshot(&self) -> (rows: StoreRows)
        ensures
            rows@ == self@,
    {
        proof {
            self.view_is();
        }
        let mut users: Vec<User> = Vec::new();
        let mut i: usize = 0;
        while i < self.users.len()
            invariant
                i <= self.users.len(),
                users.len() == i,
                forall|k: int| 0 <= k < i ==> (#[trigger] users@[k])@ == self.users@[k]@,
            decreases self.users.len() - i,
        {
            users.push(self.users[i].clone());
            i += 1;
        }
        let mut polls: Vec<Poll> = Vec::new();
        let mut j: usize = 0;
        while j < self.polls.len()
            invariant
                j <= self.polls.len(),
                polls.len() == j,
                forall|k: int| 0 <= k < j ==> (#[trigger] polls@[k])@ == self.polls@[k]@,
            decreases self.polls.len() - j,
        {
            polls.push(self.polls[j].clone());
            j += 1;
        }
        let mut votes: Vec<Vote> = Vec::new();
        let mut v: usize = 0;
        while v < self.votes.len()
            invariant
                v <= self.votes.len(),
                votes@ == self.votes@.take(v as int),
            decreases self.votes.len() - v,
        {
            votes.push(self.votes[v]);
            proof {
                assert(self.votes@.take(v as int + 1) =~= self.votes@.take(v as int).push(
                    self.votes@[v as int],
                ));
            }
            v += 1;
        }
        proof {
            assert(user_views(users@) =~= user_views(self.users@));
            assert(poll_views(polls@) =~= poll_views(self.polls@));
            assert(self.votes@.take(self.votes@.len() as int) =~= self.votes@);
        }
        StoreRows {
            users,
            polls,
            options: copy_options(&self.options),
            votes,
            next_user_id: self.next_user_id,
            next_poll_id: self.next_poll_id,
            next_option_id: self.next_option_id,
            next_vote_id: self.next_vote_id,
        }
    }

    /// The store that holds the rows, if the rows meet the invariant of
    /// the store; `None` for rows that do not.
    pub fn from_rows(rows: StoreRows) -> (r: Option<Store>)
        ensures
            match r {
                Some(store) => rows@.wf() && store.wf() && store@ == rows@,
                None => !rows@.wf(),
            },
    {
        let store = Store {
            users: rows.users,
            polls: rows.polls,
            options: rows.options,
            votes: rows.votes,
            next_user_id: rows.next_user_id,
            next_poll_id: rows.next_poll_id,
            next_option_id: rows.next_option_id,
            next_vote_id: rows.next_vote_id,
        };
        proof {
            store.view_is();
        }
        if store.rows_in_order() && store.names_differ() && store.options_belong()
            && store.votes_belong() && store.votes_differ() {
            Some(store)
        } else {
            None
        }
    }

    /// Whether the ids of each relation are positive, ascend, and lie
    /// below the next id, and each relation has fewer rows than that.
    fn rows_in_order(&self) -> (r: bool)
        ensures
            r == {
                &&& 0 < self@.next_user_id
                &&& 0 < self@.next_poll_id
                &&& 0 < self@.next_option_id
                &&& 0 < self@.next_vote_id
                &&& ids_ascend(self@.users) && ids_below(
                    self@.users,
                    self@.next_user_id,
                )
                &&& ids_ascend(self@.polls) && ids_below(
                    self@.polls,
                    self@.next_poll_id,
                )
                &&& ids_ascend(self@.options) && ids_below(
                    self@.options,
                    self@.next_option_id,
                )
                &&& ids_ascend(self@.votes) && ids_below(
                    self@.votes,
                    self@.next_vote_id,
                )
                &&& self@.users.len() < self@.next_user_id
                &&& self@.polls.len() < self@.next_poll_id
                &&& self@.options.len() < self@.next_option_id
                &&& self@.votes.len() < self@.next_vote_id
            },
    {
        proof {
            self.view_is();
        }
        let mut user_ids: Vec<i64> = Vec::new();
        let mut i: usize = 0;
        while i < self.users.len()
            invariant
                i <= self.users.len(),
                user_ids.len() == i,
                forall|k: int| 0 <= k < i ==> #[trigger] user_ids@[k] == self.users@[k].id,
            decreases self.users.len() - i,
        {
            user_ids.push(self.users[i].id);
            i += 1;
        }
        let mut poll_ids: Vec<i64> = Vec::new();
        let mut i: usize = 0;
        while i < self.polls.len()
            invariant
                i <= self.polls.len(),
                poll_ids.len() == i,
                forall|k: int| 0 <= k < i ==> #[trigger] poll_ids@[k] == self.polls@[k].id,
            decreases self.polls.len() - i,
        {
            poll_ids.push(self.polls[i].id);
            i += 1;
        }
        let mut option_ids: Vec<i64> = Vec::new();
        let mut i: usize = 0;
        while i < self.options.len()
            invariant
                i <= self.options.len(),
                option_ids.len() == i,
                forall|k: int| 0 <= k < i ==> #[trigger] option_ids@[k] == self.options@[k].id,
            decreases self.options.len() - i,
        {
            option_ids.push(self.options[i].id);
            i += 1;
        }
        let mut vote_ids: Vec<i64> = Vec::new();
        let mut i: usize = 0;
        while i < self.votes.len()
            invariant
                i <= self.votes.len(),
                vote_ids.len() == i,
                forall|k: int| 0 <= k < i ==> #[trigger] vote_ids@[k] == self.votes@[k].id,
            decreases self.votes.len() - i,
        {
            vote_ids.push(self.votes[i].id);
            i += 1;
        }
        let users_ok = ids_in_order(&user_ids, self.next_user_id);
        let polls_ok = ids_in_order(&poll_ids, self.next_poll_id);
        let options_ok = ids_in_order(&option_ids, self.next_option_id);
        let votes_ok = ids_in_order(&vote_ids, self.next_vote_id);
        proof {
            lemma_ids_of_rows(self@.users, user_ids@, self.next_user_id);
            lemma_ids_of_rows(self@.polls, poll_ids@, self.next_poll_id);
            lemma_ids_of_rows(self@.options, option_ids@, self.next_option_id);
            lemma_ids_of_rows(self@.votes, vote_ids@, self.next_vote_id);
        }
        users_ok && polls_ok && options_ok && votes_ok
    }

    /// Whether no two users share a name.
    fn names_differ(&self) -> (r: bool)
        ensures
            r == self@.usernames_distinct(),
    {
        proof {
            self.view_is();
        }
        let mut j: usize = 0;
        while j < self.users.len()
            invariant
                j <= self.users.len(),
                self@.users == user_views(self.users@),
                forall|a: int, b: int|
                    #![trigger self@.users[a], self@.users[b]]
                    0 <= a < b < j ==> self@.users[a].username != self@.users[b].username,
            decreases self.users.len() - j,
        {
            let mut i: usize = 0;
            while i < j
                invariant
                    i <= j < self.users.len(),
                    self@.users == user_views(self.users@),
                    forall|a: int|
                        0 <= a < i ==> (#[trigger] self@.users[a]).username
                            != self@.users[j as int].username,
                decreases j - i,
            {
                if same_text(self.users[i].username.as_str(), self.users[j].username.as_str()) {
                    proof {
                        assert(self@.users[i as int].username == self@.users[j as int].username);
                    }
                    return false;
                }
                i += 1;
            }
            j += 1;
        }
        true
    }

    /// Whether every option belongs to a poll of the store.
    fn options_belong(&self) -> (r: bool)
        ensures
            r == (forall|i: int|
                0 <= i < self@.options.len() ==> has_id(
                    self@.polls,
                    (#[trigger] self@.options[i]).poll_id,
                )),
    {
        proof {
            self.view_is();
        }
        let mut i: usize = 0;
        while i < self.options.len()
            invariant
                i <= self.options.len(),
                self@.options == option_views(self.options@),
                forall|k: int|
                    0 <= k < i ==> has_id(self@.polls, (#[trigger] self@.options[k]).poll_id),
            decreases self.options.len() - i,
        {
            match self.poll_index(self.options[i].poll_id) {
                Some(p) => {},
                None => {
                    proof {
                        assert(!has_id(self@.polls, self@.options[i as int].poll_id));
                    }
                    return false;
                },
            }
            i += 1;
        }
        true
    }

    /// The poll of the first option with the id, if an option has the id.
    fn poll_of_option(&self, option_id: i64) -> (r: Option<i64>)
        ensures
            match r {
                Some(poll_id) => exists|k: int|
                    0 <= k < self@.options.len() && (#[trigger] self@.options[k]).id == option_id
                        && self@.options[k].poll_id == poll_id && forall|m: int|
                        0 <= m < k ==> (#[trigger] self@.options[m]).id != option_id,
                None => !has_id(self@.options, option_id),
            },
    {
        proof {
            self.view_is();
        }
        let mut i: usize = 0;
        while i < self.options.len()
            invariant
                i <= self.options.len(),
                self@.options == option_views(self.options@),
                forall|m: int| 0 <= m < i ==> (#[trigger] self@.options[m]).id != option_id,
            decreases self.options.len() - i,
        {
            if self.options[i].id == option_id {
                proof {
                    assert(self@.options[i as int].id == option_id);
                }
                return Some(self.options[i].poll_id);
            }
            i += 1;
        }
        None
    }

    /// Whether every vote names an option of the store and the poll of
    /// that option. Asked of a store whose option ids ascend.
    fn votes_belong(&self) -> (r: bool)
        requires
            ids_ascend(self@.options),
        ensures
            r == (forall|i: int|
                0 <= i < self@.votes.len() ==> self@.option_of_poll(
                    (#[trigger] self@.votes[i]).option_id,
                    self@.votes[i].poll_id,
                )),
    {
        proof {
            self.view_is();
        }
        let mut i: usize = 0;
        while i < self.votes.len()
            invariant
                i <= self.votes.len(),
                self@.votes == self.votes@,
                ids_ascend(self@.options),
                forall|k: int|
                    0 <= k < i ==> self@.option_of_poll(
                        (#[trigger] self@.votes[k]).option_id,
                        self@.votes[k].poll_id,
                    ),
            decreases self.votes.len() - i,
        {
            let vote = self.votes[i];
            let belongs = match self.poll_of_option(vote.option_id) {
                Some(poll_id) => {
                    proof {
                        let k = choose|k: int|
                            0 <= k < self@.options.len() && (#[trigger] self@.options[k]).id
                                == vote.option_id && self@.options[k].poll_id == poll_id;
                        lemma_find_at(self@.options, k);
                    }
                    poll_id == vote.poll_id
                },
                None => false,
            };
            if !belongs {
                proof {
                    assert(!self@.option_of_poll(
                        self@.votes[i as int].option_id,
                        self@.votes[i as int].poll_id,
                    ));
                }
                return false;
            }
            i += 1;
        }
        true
    }

    /// Whether no user holds two votes on one option.
    fn votes_differ(&self) -> (r: bool)
        ensures
            r == self@.votes_distinct(),
    {
        proof {
            self.view_is();
        }
        let mut j: usize = 0;
        while j < self.votes.len()
            invariant
                j <= self.votes.len(),
                self@.votes == self.votes@,
                forall|a: int, b: int|
                    #![trigger self@.votes[a], self@.votes[b]]
                    0 <= a < b < j ==> !(self@.votes[a].user_id == self@.votes[b].user_id
                        && self@.votes[a].option_id == self@.votes[b].option_id),
            decreases self.votes.len() - j,
        {
            let mut i: usize = 0;
            while i < j
                invariant
                    i <= j < self.votes.len(),
                    self@.votes == self.votes@,
                    forall|a: int|
                        0 <= a < i ==> !((#[trigger] self@.votes[a]).user_id
                            == self@.votes[j as int].user_id && self@.votes[a].option_id
                            == self@.votes[j as int].option_id),
                decreases j - i,
            {
                if self.votes[i].user_id == self.votes[j].user_id && self.votes[i].option_id
                    == self.votes[j].option_id {
                    proof {
                        assert(self@.votes[i as int].user_id == self@.votes[j as int].user_id);
                    }
                    return false;
                }
                i += 1;
            }
            j += 1;
        }
        true
    }
}

} // verus!
