//! The store: the four relations held in memory, their mathematical view
//! and the invariant that every operation of the engine keeps.
use crate::models::{Poll, PollOption, PollOptionView, PollView, User, UserView, Vote};
use crate::rows::{find_id, has_id, ids_ascend, ids_below};
use vstd::prelude::*;

verus! {

/// The four relations, each in the order of its ids, and the ids that the
/// next rows will get.
pub struct Store {
    pub(crate) users: Vec<User>,
    pub(crate) polls: Vec<Poll>,
    pub(crate) options: Vec<PollOption>,
    pub(crate) votes: Vec<Vote>,
    pub(crate) next_user_id: i64,
    pub(crate) next_poll_id: i64,
    pub(crate) next_option_id: i64,
    pub(crate) next_vote_id: i64,
}

/// The mathematical view of a [`Store`].
pub struct StoreState {
    pub users: Seq<UserView>,
    pub polls: Seq<PollView>,
    pub options: Seq<PollOptionView>,
    pub votes: Seq<Vote>,
    pub next_user_id: i64,
    pub next_poll_id: i64,
    pub next_option_id: i64,
    pub next_vote_id: i64,
}

/// The views of the users, in order.
pub open spec fn user_views(rows: Seq<User>) -> Seq<UserView> {
    rows.map_values(|r: User| r@)
}

/// The views of the polls, in order.
pub open spec fn poll_views(rows: Seq<Poll>) -> Seq<PollView> {
    rows.map_values(|r: Poll| r@)
}

/// The views of the options, in order.
pub open spec fn option_views(rows: Seq<PollOption>) -> Seq<PollOptionView> {
    rows.map_values(|r: PollOption| r@)
}

impl View for Store {
    type V = StoreState;

    closed spec fn view(&self) -> StoreState {
        StoreState {
            users: user_views(self.users@),
            polls: poll_views(self.polls@),
            options: option_views(self.options@),
            votes: self.votes@,
            next_user_id: self.next_user_id,
            next_poll_id: self.next_poll_id,
            next_option_id: self.next_option_id,
            next_vote_id: self.next_vote_id,
        }
    }
}

impl StoreState {
    /// No rows, and every relation starts its ids at 1.
    pub open spec fn empty() -> StoreState {
        StoreState {
            users: Seq::empty(),
            polls: Seq::empty(),
            options: Seq::empty(),
            votes: Seq::empty(),
            next_user_id: 1,
            next_poll_id: 1,
            next_option_id: 1,
            next_vote_id: 1,
        }
    }

    /// No two users share a name.
    pub open spec fn usernames_distinct(self) -> bool {
        forall|i: int, j: int|
            #![trigger self.users[i], self.users[j]]
            0 <= i < j < self.users.len() ==> self.users[i].username != self.users[j].username
    }

    /// No user holds two votes on one option.
    pub open spec fn votes_distinct(self) -> bool {
        forall|i: int, j: int|
            #![trigger self.votes[i], self.votes[j]]
            0 <= i < j < self.votes.len() ==> !(self.votes[i].user_id == self.votes[j].user_id
                && self.votes[i].option_id == self.votes[j].option_id)
    }

    /// The option exists and belongs to the poll.
    pub open spec fn option_of_poll(self, option_id: i64, poll_id: i64) -> bool {
        match find_id(self.options, option_id) {
            Some(option) => option.poll_id == poll_id,
            None => false,
        }
    }

    /// The invariant of the store. Ids are positive, ascend along each
    /// relation and lie below the next id to hand out; user names are
    /// unique; every option belongs to a poll of the store; every vote names
    /// an option of the store and the poll which that option belongs to; no
    /// user holds two votes on one option.
    pub open spec fn wf(self) -> bool {
        &&& 0 < self.next_user_id
        &&& 0 < self.next_poll_id
        &&& 0 < self.next_option_id
        &&& 0 < self.next_vote_id
        &&& ids_ascend(self.users) && ids_below(self.users, self.next_user_id)
        &&& ids_ascend(self.polls) && ids_below(self.polls, self.next_poll_id)
        &&& ids_ascend(self.options) && ids_below(self.options, self.next_option_id)
        &&& ids_ascend(self.votes) && ids_below(self.votes, self.next_vote_id)
        &&& self.users.len() < self.next_user_id
        &&& self.polls.len() < self.next_poll_id
        &&& self.options.len() < self.next_option_id
        &&& self.votes.len() < self.next_vote_id
        &&& self.usernames_distinct()
        &&& self.votes_distinct()
        &&& forall|i: int|
            0 <= i < self.options.len() ==> has_id(self.polls, (#[trigger] self.options[i]).poll_id)
        &&& forall|i: int|
            0 <= i < self.votes.len() ==> self.option_of_poll(
                (#[trigger] self.votes[i]).option_id,
                self.votes[i].poll_id,
            )
    }
}

impl Store {
    /// What the view is made of.
    pub(crate) proof fn view_is(&self)
        ensures
            self@ == (StoreState {
                users: user_views(self.users@),
                polls: poll_views(self.polls@),
                options: option_views(self.options@),
                votes: self.votes@,
                next_user_id: self.next_user_id,
                next_poll_id: self.next_poll_id,
                next_option_id: self.next_option_id,
                next_vote_id: self.next_vote_id,
            }),
    {
    }

    /// The invariant holds.
    pub open spec fn wf(&self) -> bool {
        self@.wf()
    }

    /// A store without rows.
    pub fn new() -> (s: Store)
        ensures
            s@ == StoreState::empty(),
            s.wf(),
    {
        let s = Store {
            users: Vec::new(),
            polls: Vec::new(),
            options: Vec::new(),
            votes: Vec::new(),
            next_user_id: 1,
            next_poll_id: 1,
            next_option_id: 1,
            next_vote_id: 1,
        };
        proof {
            assert(s@.users =~= Seq::empty());
            assert(s@.polls =~= Seq::empty());
            assert(s@.options =~= Seq::empty());
            assert(s@.votes =~= Seq::empty());
        }
        s
    }

    /// The position of the user with the id.
    pub(crate) fn user_index(&self, id: i64) -> (r: Option<usize>)
        ensures
            match r {
                Some(i) => i < self@.users.len() && self@.users[i as int].id == id,
                None => !has_id(self@.users, id),
            },
    {
        let mut i: usize = 0;
        while i < self.users.len()
            invariant
                i <= self.users.len(),
                forall|k: int| 0 <= k < i ==> (#[trigger] self@.users[k]).id != id,
            decreases self.users.len() - i,
        {
            if self.users[i].id == id {
                return Some(i);
            }
            i += 1;
        }
        None
    }

    /// The position of the user with the name.
    pub(crate) fn username_index(&self, username: &str) -> (r: Option<usize>)
        ensures
            match r {
                Some(i) => i < self@.users.len() && self@.users[i as int].username == username@,
                None => forall|k: int|
                    0 <= k < self@.users.len() ==> (#[trigger] self@.users[k]).username
                        != username@,
            },
    {
        let mut i: usize = 0;
        while i < self.users.len()
            invariant
                i <= self.users.len(),
                forall|k: int| 0 <= k < i ==> (#[trigger] self@.users[k]).username != username@,
            decreases self.users.len() - i,
        {
            if same_text(self.users[i].username.as_str(), username) {
                return Some(i);
            }
            i += 1;
        }
        None
    }

    /// The position of the poll with the id.
    pub(crate) fn poll_index(&self, id: i64) -> (r: Option<usize>)
        ensures
            match r {
                Some(i) => i < self@.polls.len() && self@.polls[i as int].id == id,
                None => !has_id(self@.polls, id),
            },
    {
        let mut i: usize = 0;
        while i < self.polls.len()
            invariant
                i <= self.polls.len(),
                forall|k: int| 0 <= k < i ==> (#[trigger] self@.polls[k]).id != id,
            decreases self.polls.len() - i,
        {
            if self.polls[i].id == id {
                return Some(i);
            }
            i += 1;
        }
        None
    }

    /// The position of the option with the id.
    pub(crate) fn option_index(&self, id: i64) -> (r: Option<usize>)
        ensures
            match r {
                Some(i) => i < self@.options.len() && self@.options[i as int].id == id,
                None => !has_id(self@.options, id),
            },
    {
        let mut i: usize = 0;
        while i < self.options.len()
            invariant
                i <= self.options.len(),
                forall|k: int| 0 <= k < i ==> (#[trigger] self@.options[k]).id != id,
            decreases self.options.len() - i,
        {
            if self.options[i].id == id {
                return Some(i);
            }
            i += 1;
        }
        None
    }
}

/// Whether two texts hold the same characters.
pub fn same_text(a: &str, b: &str) -> (r: bool)
    ensures
        r == (a@ == b@),
{
    let x = a.to_owned();
    let y = b.to_owned();
    x == y
}

} // verus!
