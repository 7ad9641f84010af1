//! Who voted for what: the voters of an option, the voters of a poll with
//! their choices, and the full voting details that a poll's creator and
//! administrators may see.
use crate::clock::Timestamp;
use crate::error::EngineError;
use crate::forms::{PollWithCreator, PollWithCreatorView};
use crate::access::{can_view_voters, may_view_voters};
use crate::models::{PollOptionView, User, UserInfo, UserInfoView, UserView, Vote};
use crate::order::{is_ranking_of, sort_by_rank, views_of, Ranked};
use crate::results::{
    in_poll, lemma_votes_held_total, of_poll, on_option, votes_held,
};
use crate::rows::{
    find_id, has_id, index_of_id, lemma_filter_members, lemma_filter_twice, lemma_find_at,
};
use crate::store::{option_views, user_views, Store, StoreState};
use vstd::prelude::*;

verus! {

/// A vote with the name of the user who cast it.
#[derive(Debug, PartialEq, Eq)]
pub struct VoteWithUser {
    pub vote_id: i64,
    pub user_id: i64,
    pub username: String,
    pub option_id: i64,
    pub created_at: Timestamp,
}

/// The mathematical view of a [`VoteWithUser`].
pub struct VoteWithUserView {
    pub vote_id: i64,
    pub user_id: i64,
    pub username: Seq<char>,
    pub option_id: i64,
    pub created_at: Timestamp,
}

impl View for VoteWithUser {
    type V = VoteWithUserView;

    open spec fn view(&self) -> VoteWithUserView {
        VoteWithUserView {
            vote_id: self.vote_id,
            user_id: self.user_id,
            username: self.username@,
            option_id: self.option_id,
            created_at: self.created_at,
        }
    }
}

/// The views of the votes with their voters, in order.
pub open spec fn named_vote_views(rows: Seq<VoteWithUser>) -> Seq<VoteWithUserView> {
    rows.map_values(|r: VoteWithUser| r@)
}

/// An option of a poll with the votes that it holds, oldest first.
#[derive(Debug, PartialEq, Eq)]
pub struct OptionWithVoters {
    pub id: i64,
    pub poll_id: i64,
    pub text: String,
    pub is_date: bool,
    pub date_time: Option<Timestamp>,
    pub vote_count: i64,
    pub voters: Vec<VoteWithUser>,
}

/// The mathematical view of a [`OptionWithVoters`].
pub struct OptionWithVotersView {
    pub id: i64,
    pub poll_id: i64,
    pub text: Seq<char>,
    pub is_date: bool,
    pub date_time: Option<Timestamp>,
    pub vote_count: i64,
    pub voters: Seq<VoteWithUserView>,
}

impl View for OptionWithVoters {
    type V = OptionWithVotersView;

    open spec fn view(&self) -> OptionWithVotersView {
        OptionWithVotersView {
            id: self.id,
            poll_id: self.poll_id,
            text: self.text@,
            is_date: self.is_date,
            date_time: self.date_time,
            vote_count: self.vote_count,
            voters: named_vote_views(self.voters@),
        }
    }
}

/// A poll with the voters of each of its options.
#[derive(Debug, PartialEq, Eq)]
pub struct PollVotingDetails {
    pub poll: PollWithCreator,
    pub options_with_voters: Vec<OptionWithVoters>,
    /// The number of votes over all options.
    pub total_votes: i64,
    /// The number of users who hold a vote in the poll.
    pub total_voters: i64,
}

/// The mathematical view of a [`PollVotingDetails`].
pub struct PollVotingDetailsView {
    pub poll: PollWithCreatorView,
    pub options_with_voters: Seq<OptionWithVotersView>,
    pub total_votes: i64,
    pub total_voters: i64,
}

impl View for PollVotingDetails {
    type V = PollVotingDetailsView;

    open spec fn view(&self) -> PollVotingDetailsView {
        PollVotingDetailsView {
            poll: self.poll@,
            options_with_voters: self.options_with_voters@.map_values(|r: OptionWithVoters| r@),
            total_votes: self.total_votes,
            total_voters: self.total_voters,
        }
    }
}

/// The votes on an option that users of the store cast.
pub open spec fn ballot_on(s: StoreState, option_id: i64) -> spec_fn(Vote) -> bool {
    |v: Vote| v.option_id == option_id && has_id(s.users, v.user_id)
}

/// The votes in a poll that users of the store cast.
pub open spec fn ballot_in(s: StoreState, poll_id: i64) -> spec_fn(Vote) -> bool {
    |v: Vote| v.poll_id == poll_id && has_id(s.users, v.user_id)
}

/// The user who cast a vote.
pub open spec fn voter_of(s: StoreState) -> spec_fn(Vote) -> UserView {
    |v: Vote| s.users[index_of_id(s.users, v.user_id)]
}

/// A vote with the name of the user who cast it.
pub open spec fn named_vote(s: StoreState) -> spec_fn(Vote) -> VoteWithUserView {
    |v: Vote|
        VoteWithUserView {
            vote_id: v.id,
            user_id: v.user_id,
            username: s.users[index_of_id(s.users, v.user_id)].username,
            option_id: v.option_id,
            created_at: v.created_at,
        }
}

/// The users who hold a vote in the poll.
pub open spec fn voted_in(s: StoreState, poll_id: i64) -> spec_fn(UserView) -> bool {
    |u: UserView| s.votes_of(poll_id, u.id).len() > 0
}

/// The options on which the user holds a vote.
pub open spec fn chosen_by(s: StoreState, user_id: i64) -> spec_fn(PollOptionView) -> bool {
    |o: PollOptionView| s.has_vote_on(o.id, user_id)
}

impl StoreState {
    /// The options of the poll on which the user holds a vote, in the
    /// order of their ids.
    pub open spec fn choices_of(self, poll_id: i64, user_id: i64) -> Seq<i64> {
        self.options_of(poll_id).filter(chosen_by(self, user_id)).map_values(
            |o: PollOptionView| o.id,
        )
    }

    /// `row` shows `option` with the votes that users of the store cast
    /// on it, oldest first, each with the name of its voter.
    pub open spec fn shows_voters(self, row: OptionWithVotersView, option: PollOptionView) -> bool {
        &&& row.id == option.id
        &&& row.poll_id == option.poll_id
        &&& row.text == option.text
        &&& row.is_date == option.is_date
        &&& row.date_time == option.date_time
        &&& row.vote_count == row.voters.len()
        &&& exists|ranked: Seq<Vote>|
            is_ranking_of::<Vote>(ranked, self.votes.filter(ballot_on(self, option.id)))
                && row.voters == #[trigger] ranked.map_values(named_vote(self))
    }

    /// Why an identity is not shown the voters of a poll, if it is not:
    /// the poll is absent or without a known creator; or the identity may
    /// not see its voters.
    pub open spec fn voters_refusal(self, poll_id: i64, identity: UserInfoView) -> Option<
        EngineError,
    > {
        match find_id(self.polls, poll_id) {
            None => Some(EngineError::PollNotFound),
            Some(poll) => if !has_id(self.users, poll.created_by) {
                Some(EngineError::PollNotFound)
            } else if !may_view_voters(identity, poll) {
                Some(EngineError::Forbidden)
            } else {
                None
            },
        }
    }

    /// `details` are the voting details of the poll: the poll with its
    /// creator, each of its options with its voters, the number of votes
    /// in the poll that users of the store cast, and the number of users
    /// who hold a vote in the poll.
    pub open spec fn shows_voting(self, poll_id: i64, details: PollVotingDetailsView) -> bool {
        &&& self.poll_with_creator(poll_id) == Ok::<PollWithCreatorView, EngineError>(details.poll)
        &&& details.options_with_voters.len() == self.options_of(poll_id).len()
        &&& forall|k: int|
            0 <= k < details.options_with_voters.len() ==> self.shows_voters(
                #[trigger] details.options_with_voters[k],
                self.options_of(poll_id)[k],
            )
        &&& details.total_votes == self.votes.filter(ballot_in(self, poll_id)).len()
        &&& details.total_voters == self.users.filter(voted_in(self, poll_id)).len()
    }
}

/// What a sorted sequence holds, the sequence that was sorted holds.
proof fn lemma_ranking_members<T: Ranked>(sorted: Seq<T::V>, rows: Seq<T::V>)
    requires
        is_ranking_of::<T>(sorted, rows),
    ensures
        sorted.len() == rows.len(),
        forall|k: int| 0 <= k < sorted.len() ==> rows.contains(#[trigger] sorted[k]),
{
    broadcast use vstd::seq_lib::group_to_multiset_ensures;

    sorted.to_multiset_ensures();
    rows.to_multiset_ensures();
    assert forall|k: int| 0 <= k < sorted.len() implies rows.contains(#[trigger] sorted[k]) by {
        assert(sorted.contains(sorted[k]));
        assert(sorted.to_multiset().count(sorted[k]) > 0);
    }
}

impl Store {
    /// The votes on the option that users of the store cast, oldest first.
    fn ballots_on(&self, option_id: i64) -> (r: Vec<Vote>)
        requires
            self.wf(),
        ensures
            is_ranking_of::<Vote>(r@, self@.votes.filter(ballot_on(self@, option_id))),
            r.len() <= self@.votes.len(),
            forall|k: int| 0 <= k < r.len() ==> has_id(self@.users, (#[trigger] r@[k]).user_id),
    {
        let mut out: Vec<Vote> = Vec::new();
        let mut i: usize = 0;
        proof {
            self.view_is();
            reveal(Seq::filter);
            assert(self.votes@.take(0) =~= Seq::<Vote>::empty());
        }
        while i < self.votes.len()
            invariant
                i <= self.votes.len(),
                self.wf(),
                self@.votes == self.votes@,
                out@ == self.votes@.take(i as int).filter(ballot_on(self@, option_id)),
            decreases self.votes.len() - i,
        {
            let v = self.votes[i];
            proof {
                assert(self.votes@.take(i as int + 1) =~= self.votes@.take(i as int).push(v));
                self.votes@.take(i as int).lemma_filter_push(v, ballot_on(self@, option_id));
            }
            if v.option_id == option_id && self.user_index(v.user_id).is_some() {
                out.push(v);
            }
            i += 1;
        }
        proof {
            assert(self.votes@.take(self.votes@.len() as int) =~= self.votes@);
            assert(views_of(out@) =~= out@);
        }
        let sorted = sort_by_rank(out);
        proof {
            assert(views_of(sorted@) =~= sorted@);
            let ballots = self@.votes.filter(ballot_on(self@, option_id));
            lemma_ranking_members::<Vote>(sorted@, ballots);
            lemma_filter_members(self@.votes, ballot_on(self@, option_id));
            assert forall|k: int| 0 <= k < sorted.len() implies has_id(
                self@.users,
                (#[trigger] sorted@[k]).user_id,
            ) by {
                let m = choose|m: int| 0 <= m < ballots.len() && ballots[m] == sorted@[k];
                assert(ballot_on(self@, option_id)(ballots[m]));
            }
        }
        sorted
    }

    /// The users who voted for the option, in the order of their votes,
    /// oldest vote first. Votes of users unknown to the store are left
    /// out.
    pub fn get_voters_for_option(&self, option_id: i64) -> (r: Vec<User>)
        requires
            self.wf(),
        ensures
            exists|ranked: Seq<Vote>|
                is_ranking_of::<Vote>(ranked, self@.votes.filter(ballot_on(self@, option_id)))
                    && user_views(r@) == #[trigger] ranked.map_values(voter_of(self@)),
    {
        let ballots = self.ballots_on(option_id);
        let mut out: Vec<User> = Vec::new();
        let mut i: usize = 0;
        proof {
            self.view_is();
        }
        while i < ballots.len()
            invariant
                i <= ballots.len(),
                self.wf(),
                self@.users == user_views(self.users@),
                out.len() == i,
                forall|k: int|
                    0 <= k < ballots.len() ==> has_id(
                        self@.users,
                        (#[trigger] ballots@[k]).user_id,
                    ),
                forall|k: int| 0 <= k < i ==> (#[trigger] out@[k])@ == voter_of(self@)(ballots@[k]),
            decreases ballots.len() - i,
        {
            match self.user_index(ballots[i].user_id) {
                Some(u) => {
                    proof {
                        lemma_find_at(self@.users, u as int);
                    }
                    out.push(self.users[u].clone());
                },
                None => {
                    proof {
                        assert(has_id(self@.users, ballots@[i as int].user_id));
                        assert(false);
                    }
                },
            }
            i += 1;
        }
        proof {
            assert(user_views(out@) =~= ballots@.map_values(voter_of(self@)));
        }
        out
    }

    /// Whether the user holds a vote in the poll.
    fn has_voted_in(&self, poll_id: i64, user_id: i64) -> (r: bool)
        ensures
            r == (self@.votes_of(poll_id, user_id).len() > 0),
    {
        self.get_user_vote(poll_id, user_id).is_some()
    }

    /// The options of the poll on which the user holds a vote, in the
    /// order of their ids.
    pub fn choices_of(&self, poll_id: i64, user_id: i64) -> (r: Vec<i64>)
        ensures
            r@ == self@.choices_of(poll_id, user_id),
    {
        let options = self.get_poll_options(poll_id);
        let ghost all = option_views(options@);
        let ghost chosen = chosen_by(self@, user_id);
        let ghost id_of = |o: PollOptionView| o.id;
        let mut out: Vec<i64> = Vec::new();
        let mut i: usize = 0;
        proof {
            reveal(Seq::filter);
            assert(all.take(0) =~= Seq::<PollOptionView>::empty());
            assert(out@ =~= Seq::<PollOptionView>::empty().map_values(id_of));
        }
        while i < options.len()
            invariant
                i <= options.len(),
                all == option_views(options@),
                chosen == chosen_by(self@, user_id),
                id_of == |o: PollOptionView| o.id,
                out@ == all.take(i as int).filter(chosen).map_values(id_of),
            decreases options.len() - i,
        {
            proof {
                let o = all[i as int];
                assert(all.take(i as int + 1) =~= all.take(i as int).push(o));
                all.take(i as int).lemma_filter_push(o, chosen);
                assert(all.take(i as int).filter(chosen).push(o).map_values(id_of) =~= all.take(
                    i as int,
                ).filter(chosen).map_values(id_of).push(o.id));
            }
            if self.has_vote_on(options[i].id, user_id) {
                out.push(options[i].id);
            }
            i += 1;
        }
        proof {
            assert(all.take(all.len() as int) =~= all);
        }
        out
    }

    /// The users who hold a vote in the poll, in the dictionary order of
    /// their names, each with the options of the poll on which the user
    /// holds a vote, in the order of the options' ids.
    pub fn get_poll_voters(&self, poll_id: i64) -> (r: Vec<(User, Vec<i64>)>)
        ensures
            is_ranking_of::<User>(
                r@.map_values(|row: (User, Vec<i64>)| row.0@),
                self@.users.filter(voted_in(self@, poll_id)),
            ),
            forall|k: int|
                0 <= k < r.len() ==> (#[trigger] r@[k]).1@ == self@.choices_of(
                    poll_id,
                    r@[k].0.id,
                ),
    {
        let mut voters: Vec<User> = Vec::new();
        let mut i: usize = 0;
        proof {
            self.view_is();
            reveal(Seq::filter);
            assert(self@.users.take(0) =~= Seq::<UserView>::empty());
            assert(user_views(voters@) =~= Seq::<UserView>::empty());
        }
        while i < self.users.len()
            invariant
                i <= self.users.len(),
                self@.users == user_views(self.users@),
                user_views(voters@) == self@.users.take(i as int).filter(
                    voted_in(self@, poll_id),
                ),
            decreases self.users.len() - i,
        {
            proof {
                let u = self@.users[i as int];
                assert(self@.users.take(i as int + 1) =~= self@.users.take(i as int).push(u));
                self@.users.take(i as int).lemma_filter_push(u, voted_in(self@, poll_id));
            }
            if self.has_voted_in(poll_id, self.users[i].id) {
                let copy = self.users[i].clone();
                proof {
                    assert(user_views(voters@.push(copy)) =~= user_views(voters@).push(copy@));
                }
                voters.push(copy);
            }
            i += 1;
        }
        proof {
            assert(self@.users.take(self@.users.len() as int) =~= self@.users);
            assert(views_of(voters@) =~= user_views(voters@));
        }
        let sorted = sort_by_rank(voters);
        let ghost ranked = sorted@;
        let mut out: Vec<(User, Vec<i64>)> = Vec::new();
        for voter in it: sorted.into_iter()
            invariant
                it.seq() == ranked,
                out.len() == it.index(),
                forall|k: int| 0 <= k < out.len() ==> (#[trigger] out@[k]).0 == ranked[k],
                forall|k: int|
                    0 <= k < out.len() ==> (#[trigger] out@[k]).1@ == self@.choices_of(
                        poll_id,
                        out@[k].0.id,
                    ),
        {
            let choices = self.choices_of(poll_id, voter.id);
            out.push((voter, choices));
        }
        proof {
            assert(out@.map_values(|row: (User, Vec<i64>)| row.0@) =~= views_of(ranked));
        }
        out
    }

    /// The option with the votes that users of the store cast on it.
    fn option_with_voters(&self, i: usize) -> (r: OptionWithVoters)
        requires
            self.wf(),
            i < self@.options.len(),
        ensures
            self@.shows_voters(r@, self@.options[i as int]),
    {
        proof {
            self.view_is();
        }
        let option = &self.options[i];
        let ballots = self.ballots_on(option.id);
        let mut voters: Vec<VoteWithUser> = Vec::new();
        let mut k: usize = 0;
        while k < ballots.len()
            invariant
                k <= ballots.len(),
                self.wf(),
                self@.users == user_views(self.users@),
                voters.len() == k,
                forall|j: int|
                    0 <= j < ballots.len() ==> has_id(
                        self@.users,
                        (#[trigger] ballots@[j]).user_id,
                    ),
                forall|j: int|
                    0 <= j < k ==> (#[trigger] voters@[j])@ == named_vote(self@)(ballots@[j]),
            decreases ballots.len() - k,
        {
            let v = ballots[k];
            match self.user_index(v.user_id) {
                Some(u) => {
                    proof {
                        lemma_find_at(self@.users, u as int);
                    }
                    voters.push(
                        VoteWithUser {
                            vote_id: v.id,
                            user_id: v.user_id,
                            username: self.users[u].username.clone(),
                            option_id: v.option_id,
                            created_at: v.created_at,
                        },
                    );
                },
                None => {
                    proof {
                        assert(has_id(self@.users, ballots@[k as int].user_id));
                        assert(false);
                    }
                },
            }
            k += 1;
        }
        proof {
            assert(named_vote_views(voters@) =~= ballots@.map_values(named_vote(self@)));
        }
        OptionWithVoters {
            id: option.id,
            poll_id: option.poll_id,
            text: option.text.clone(),
            is_date: option.is_date,
            date_time: option.date_time,
            vote_count: voters.len() as i64,
            voters,
        }
    }

    /// The voting details of the poll; `PollNotFound` where no poll has
    /// the id or the poll's creator is unknown to the store.
    pub fn get_poll_voting_details(&self, poll_id: i64) -> (r: Result<
        PollVotingDetails,
        EngineError,
    >)
        requires
            self.wf(),
        ensures
            match r {
                Ok(details) => self@.shows_voting(poll_id, details@),
                Err(e) => self@.poll_with_creator(poll_id) == Err::<
                    PollWithCreatorView,
                    EngineError,
                >(e),
            },
    {
        let poll = match self.get_poll_by_id(poll_id) {
            Ok(poll) => poll,
            Err(e) => {
                return Err(e);
            },
        };
        proof {
            self.view_is();
            reveal(Seq::filter);
            assert(self@.options.take(0) =~= Seq::<PollOptionView>::empty());
            assert(self@.votes.take(0) =~= Seq::<Vote>::empty());
            assert(self@.users.take(0) =~= Seq::<UserView>::empty());
        }
        let mut rows: Vec<OptionWithVoters> = Vec::new();
        let mut i: usize = 0;
        while i < self.options.len()
            invariant
                i <= self.options.len(),
                self.wf(),
                self@.options == option_views(self.options@),
                rows.len() == self@.options.take(i as int).filter(of_poll(poll_id)).len(),
                forall|k: int|
                    0 <= k < rows.len() ==> self@.shows_voters(
                        (#[trigger] rows@[k])@,
                        self@.options.take(i as int).filter(of_poll(poll_id))[k],
                    ),
            decreases self.options.len() - i,
        {
            proof {
                let o = self@.options[i as int];
                assert(self@.options.take(i as int + 1) =~= self@.options.take(i as int).push(o));
                self@.options.take(i as int).lemma_filter_push(o, of_poll(poll_id));
            }
            if self.options[i].poll_id == poll_id {
                rows.push(self.option_with_voters(i));
            }
            i += 1;
        }
        let mut total_votes: i64 = 0;
        let mut v: usize = 0;
        while v < self.votes.len()
            invariant
                v <= self.votes.len() <= i64::MAX,
                0 <= total_votes <= v,
                self.wf(),
                self@.votes == self.votes@,
                total_votes == self@.votes.take(v as int).filter(ballot_in(self@, poll_id)).len(),
            decreases self.votes.len() - v,
        {
            let vote = self.votes[v];
            proof {
                assert(self@.votes.take(v as int + 1) =~= self@.votes.take(v as int).push(vote));
                self@.votes.take(v as int).lemma_filter_push(vote, ballot_in(self@, poll_id));
            }
            if vote.poll_id == poll_id && self.user_index(vote.user_id).is_some() {
                total_votes = total_votes + 1;
            }
            v += 1;
        }
        let mut total_voters: i64 = 0;
        let mut u: usize = 0;
        while u < self.users.len()
            invariant
                u <= self.users.len() <= i64::MAX,
                0 <= total_voters <= u,
                self@.users == user_views(self.users@),
                total_voters == self@.users.take(u as int).filter(voted_in(self@, poll_id)).len(),
            decreases self.users.len() - u,
        {
            proof {
                let user = self@.users[u as int];
                assert(self@.users.take(u as int + 1) =~= self@.users.take(u as int).push(user));
                self@.users.take(u as int).lemma_filter_push(user, voted_in(self@, poll_id));
            }
            if self.has_voted_in(poll_id, self.users[u].id) {
                total_voters = total_voters + 1;
            }
            u += 1;
        }
        proof {
            assert(self@.options.take(self@.options.len() as int) =~= self@.options);
            assert(self@.votes.take(self@.votes.len() as int) =~= self@.votes);
            assert(self@.users.take(self@.users.len() as int) =~= self@.users);
        }
        let details = PollVotingDetails {
            poll,
            options_with_voters: rows,
            total_votes,
            total_voters,
        };
        proof {
            assert(details@.options_with_voters.len() == rows.len());
            assert forall|k: int|
                0 <= k < details@.options_with_voters.len() implies self@.shows_voters(
                #[trigger] details@.options_with_voters[k],
                self@.options_of(poll_id)[k],
            ) by {
                assert(details@.options_with_voters[k] == rows@[k]@);
            }
        }
        Ok(details)
    }

    /// The voting details of the poll for an identity that may see them.
    ///
    /// Fails with `PollNotFound` where no poll has the id or the poll's
    /// creator is unknown to the store, and with `Forbidden` where the
    /// identity is neither an administrator nor the poll's creator.
    pub fn poll_voters(&self, poll_id: i64, user: &UserInfo) -> (r: Result<
        PollVotingDetails,
        EngineError,
    >)
        requires
            self.wf(),
        ensures
            match self@.voters_refusal(poll_id, user@) {
                Some(e) => r matches Err(f) && f == e,
                None => r matches Ok(details) && self@.shows_voting(poll_id, details@),
            },
    {
        let poll = match self.get_poll(poll_id) {
            Some(poll) => poll,
            None => {
                return Err(EngineError::PollNotFound);
            },
        };
        if self.get_user_by_id(poll.created_by).is_none() {
            return Err(EngineError::PollNotFound);
        }
        if !can_view_voters(user, &poll) {
            return Err(EngineError::Forbidden);
        }
        self.get_poll_voting_details(poll_id)
    }
}

/// The votes that users of the store cast.
pub open spec fn by_known_user(s: StoreState) -> spec_fn(Vote) -> bool {
    |v: Vote| has_id(s.users, v.user_id)
}

/// The sum of the vote counts of the rows.
pub open spec fn sum_voter_counts(rows: Seq<OptionWithVotersView>) -> int
    decreases rows.len(),
{
    if rows.len() == 0 {
        0
    } else {
        sum_voter_counts(rows.drop_last()) + rows.last().vote_count
    }
}

/// The counts of the first `k` rows add up to the votes of known users
/// that the first `k` options hold.
proof fn lemma_voter_counts(s: StoreState, poll_id: i64, rows: Seq<OptionWithVotersView>, k: int)
    requires
        s.wf(),
        rows.len() == s.options_of(poll_id).len(),
        forall|i: int|
            0 <= i < rows.len() ==> s.shows_voters(#[trigger] rows[i], s.options_of(poll_id)[i]),
        0 <= k <= rows.len(),
    ensures
        sum_voter_counts(rows.take(k)) == votes_held(
            s.options_of(poll_id).take(k),
            s.votes.filter(by_known_user(s)),
        ),
    decreases k,
{
    let options = s.options_of(poll_id);
    let known = s.votes.filter(by_known_user(s));
    if k > 0 {
        lemma_voter_counts(s, poll_id, rows, k - 1);
        assert(rows.take(k).drop_last() =~= rows.take(k - 1));
        assert(options.take(k).drop_last() =~= options.take(k - 1));
        let row = rows[k - 1];
        let option = options[k - 1];
        assert(rows.take(k).last() == row);
        assert(options.take(k).last() == option);
        assert(s.shows_voters(row, option));
        let ranked = choose|ranked: Seq<Vote>|
            is_ranking_of::<Vote>(ranked, s.votes.filter(ballot_on(s, option.id))) && row.voters
                == #[trigger] ranked.map_values(named_vote(s));
        lemma_ranking_members::<Vote>(ranked, s.votes.filter(ballot_on(s, option.id)));
        lemma_filter_twice(
            s.votes,
            by_known_user(s),
            on_option(option.id),
            ballot_on(s, option.id),
        );
    }
}

/// In the voting details of a poll the vote counts of the options add up
/// to the total of the poll, exactly.
pub proof fn law_voter_counts_add_up(s: StoreState, poll_id: i64, details: PollVotingDetailsView)
    requires
        s.wf(),
        s.shows_voting(poll_id, details),
    ensures
        sum_voter_counts(details.options_with_voters) == details.total_votes,
{
    let rows = details.options_with_voters;
    let known = s.votes.filter(by_known_user(s));
    lemma_voter_counts(s, poll_id, rows, rows.len() as int);
    assert(rows.take(rows.len() as int) =~= rows);
    assert(s.options_of(poll_id).take(rows.len() as int) =~= s.options_of(poll_id));
    lemma_filter_members(s.votes, by_known_user(s));
    assert forall|i: int| 0 <= i < known.len() implies s.option_of_poll(
        (#[trigger] known[i]).option_id,
        known[i].poll_id,
    ) by {
        let k = choose|k: int| 0 <= k < s.votes.len() && s.votes[k] == known[i];
        assert(s.option_of_poll(s.votes[k].option_id, s.votes[k].poll_id));
    }
    lemma_votes_held_total(s, poll_id, known);
    lemma_filter_twice(s.votes, by_known_user(s), in_poll(poll_id), ballot_in(s, poll_id));
}

} // verus!
