//! The vote ledger: casting votes under the two voting modes, and reading
//! a user's votes back.
use crate::clock::Timestamp;
use crate::error::EngineError;
use crate::forms::{VoteForm, VoteRequest};
use crate::models::{UserInfo, Vote, VoteOutcome, VotingMode};
use crate::rows::{
    find_id, lemma_filter_keeps_ids, lemma_filter_members, lemma_find_at, lemma_push_row,
};
use crate::store::{Store, StoreState};
use vstd::prelude::*;

verus! {

/// The votes of a user in a poll.
pub open spec fn cast_by(poll_id: i64, user_id: i64) -> spec_fn(Vote) -> bool {
    |v: Vote| v.poll_id == poll_id && v.user_id == user_id
}

/// All votes but those of a user in a poll.
pub open spec fn not_cast_by(poll_id: i64, user_id: i64) -> spec_fn(Vote) -> bool {
    |v: Vote| !(v.poll_id == poll_id && v.user_id == user_id)
}

/// The votes of a user on an option.
pub open spec fn on_option_by(option_id: i64, user_id: i64) -> spec_fn(Vote) -> bool {
    |v: Vote| v.option_id == option_id && v.user_id == user_id
}

/// All votes but those of a user on an option.
pub open spec fn not_on_option_by(option_id: i64, user_id: i64) -> spec_fn(Vote) -> bool {
    |v: Vote| !(v.option_id == option_id && v.user_id == user_id)
}

impl StoreState {
    /// The votes of the user in the poll, oldest first.
    pub open spec fn votes_of(self, poll_id: i64, user_id: i64) -> Seq<Vote> {
        self.votes.filter(cast_by(poll_id, user_id))
    }

    /// The user holds a vote on the option.
    pub open spec fn has_vote_on(self, option_id: i64, user_id: i64) -> bool {
        self.votes.filter(on_option_by(option_id, user_id)).len() > 0
    }

    /// Why a cast is refused, if it is: the poll is absent; or it is
    /// inactive or expired at `now`; or the option is absent or belongs to
    /// another poll. The checks are made in this order.
    pub open spec fn cast_refusal(self, poll_id: i64, option_id: i64, now: Timestamp) -> Option<
        EngineError,
    > {
        match find_id(self.polls, poll_id) {
            None => Some(EngineError::PollNotFound),
            Some(poll) => if !poll.open_at(now) {
                Some(EngineError::PollClosed)
            } else if !self.option_of_poll(option_id, poll_id) {
                Some(EngineError::OptionNotFound)
            } else {
                None
            },
        }
    }

    /// The row that a cast writes.
    pub open spec fn new_vote(self, poll_id: i64, option_id: i64, voter_id: i64, now: Timestamp)
        -> Vote {
        Vote { id: self.next_vote_id, poll_id, option_id, user_id: voter_id, created_at: now }
    }

    /// The store with one more vote.
    pub open spec fn with_vote(self, vote: Vote) -> StoreState {
        StoreState {
            votes: self.votes.push(vote),
            next_vote_id: (self.next_vote_id + 1) as i64,
            ..self
        }
    }

    /// The store with the votes that pass `keep`, and no others.
    pub open spec fn with_votes_kept(self, keep: spec_fn(Vote) -> bool) -> StoreState {
        StoreState { votes: self.votes.filter(keep), ..self }
    }

    /// A cast of `voter_id` for `option_id` of `poll_id` at `now`: the store
    /// after it, and what the caller is told.
    ///
    /// A refused cast changes nothing. In single-choice mode the voter's
    /// votes in the poll, on whatever option, give way to one new vote. In
    /// multi-choice mode a vote that the voter holds on the option is taken
    /// back; without one, a new vote is written, and the voter's votes on
    /// other options stay. A vote cannot be written once the ids have run
    /// out.
    pub open spec fn cast_vote(
        self,
        poll_id: i64,
        option_id: i64,
        voter_id: i64,
        mode: VotingMode,
        now: Timestamp,
    ) -> (StoreState, Result<VoteOutcome, EngineError>) {
        let vote = self.new_vote(poll_id, option_id, voter_id, now);
        match self.cast_refusal(poll_id, option_id, now) {
            Some(e) => (self, Err(e)),
            None => match mode {
                VotingMode::SingleChoice => if self.next_vote_id == i64::MAX {
                    (self, Err(EngineError::StoreFull))
                } else {
                    (
                        self.with_votes_kept(not_cast_by(poll_id, voter_id)).with_vote(vote),
                        Ok(VoteOutcome::Recorded),
                    )
                },
                VotingMode::MultiChoice => if self.has_vote_on(option_id, voter_id) {
                    (
                        self.with_votes_kept(not_on_option_by(option_id, voter_id)),
                        Ok(VoteOutcome::Removed),
                    )
                } else if self.next_vote_id == i64::MAX {
                    (self, Err(EngineError::StoreFull))
                } else {
                    (self.with_vote(vote), Ok(VoteOutcome::Recorded))
                },
            },
        }
    }
}

/// Dropping votes keeps the invariant.
pub proof fn lemma_votes_kept_wf(s: StoreState, keep: spec_fn(Vote) -> bool)
    requires
        s.wf(),
    ensures
        s.with_votes_kept(keep).wf(),
{
    let t = s.with_votes_kept(keep);
    lemma_filter_keeps_ids(s.votes, keep, s.next_vote_id);
    lemma_filter_members(s.votes, keep);
    assert forall|i: int, j: int|
        #![trigger t.votes[i], t.votes[j]]
        0 <= i < j < t.votes.len() implies !(t.votes[i].user_id == t.votes[j].user_id
            && t.votes[i].option_id == t.votes[j].option_id) by {
        let a = choose|a: int| 0 <= a < s.votes.len() && s.votes[a] == t.votes[i];
        let b = choose|b: int| 0 <= b < s.votes.len() && s.votes[b] == t.votes[j];
        assert(t.votes[i].id < t.votes[j].id);
        if a < b {
            assert(!(s.votes[a].user_id == s.votes[b].user_id && s.votes[a].option_id
                == s.votes[b].option_id));
        } else if b < a {
            assert(!(s.votes[b].user_id == s.votes[a].user_id && s.votes[b].option_id
                == s.votes[a].option_id));
        }
    }
    assert forall|i: int| 0 <= i < t.votes.len() implies t.option_of_poll(
        (#[trigger] t.votes[i]).option_id,
        t.votes[i].poll_id,
    ) by {
        let k = choose|k: int| 0 <= k < s.votes.len() && s.votes[k] == t.votes[i];
        assert(s.option_of_poll(s.votes[k].option_id, s.votes[k].poll_id));
    }
}

/// Writing a vote for an option of its poll keeps the invariant.
pub proof fn lemma_with_vote_wf(s: StoreState, vote: Vote)
    requires
        s.wf(),
        s.next_vote_id < i64::MAX,
        vote.id == s.next_vote_id,
        s.option_of_poll(vote.option_id, vote.poll_id),
        !s.has_vote_on(vote.option_id, vote.user_id),
    ensures
        s.with_vote(vote).wf(),
{
    let t = s.with_vote(vote);
    lemma_push_row(s.votes, vote, s.next_vote_id);
    lemma_filter_members(s.votes, on_option_by(vote.option_id, vote.user_id));
    assert forall|i: int, j: int|
        #![trigger t.votes[i], t.votes[j]]
        0 <= i < j < t.votes.len() implies !(t.votes[i].user_id == t.votes[j].user_id
            && t.votes[i].option_id == t.votes[j].option_id) by {
        if j < s.votes.len() {
            assert(!(s.votes[i].user_id == s.votes[j].user_id && s.votes[i].option_id
                == s.votes[j].option_id));
        } else if on_option_by(vote.option_id, vote.user_id)(s.votes[i]) {
            assert(s.votes.filter(on_option_by(vote.option_id, vote.user_id)).contains(
                s.votes[i],
            ));
        }
    }
    assert forall|i: int| 0 <= i < t.votes.len() implies t.option_of_poll(
        (#[trigger] t.votes[i]).option_id,
        t.votes[i].poll_id,
    ) by {
        if i < s.votes.len() {
            assert(s.option_of_poll(s.votes[i].option_id, s.votes[i].poll_id));
        }
    }
}

/// A cast keeps the invariant.
pub proof fn lemma_cast_vote_wf(
    s: StoreState,
    poll_id: i64,
    option_id: i64,
    voter_id: i64,
    mode: VotingMode,
    now: Timestamp,
)
    requires
        s.wf(),
    ensures
        s.cast_vote(poll_id, option_id, voter_id, mode, now).0.wf(),
{
    let vote = s.new_vote(poll_id, option_id, voter_id, now);
    if s.cast_refusal(poll_id, option_id, now) is None {
        match mode {
            VotingMode::SingleChoice => {
                if s.next_vote_id < i64::MAX {
                    let kept = s.with_votes_kept(not_cast_by(poll_id, voter_id));
                    lemma_votes_kept_wf(s, not_cast_by(poll_id, voter_id));
                    // a vote of the voter on the option would be a vote in the poll
                    let left = kept.votes.filter(on_option_by(option_id, voter_id));
                    lemma_filter_members(kept.votes, on_option_by(option_id, voter_id));
                    lemma_filter_members(s.votes, not_cast_by(poll_id, voter_id));
                    if left.len() > 0 {
                        let v = left[0];
                        assert(kept.votes.contains(v));
                        let k = choose|k: int| 0 <= k < kept.votes.len() && kept.votes[k] == v;
                        assert(kept.option_of_poll(kept.votes[k].option_id, kept.votes[k].poll_id));
                        assert(not_cast_by(poll_id, voter_id)(kept.votes[k]));
                    }
                    lemma_with_vote_wf(kept, vote);
                }
            },
            VotingMode::MultiChoice => {
                if s.has_vote_on(option_id, voter_id) {
                    lemma_votes_kept_wf(s, not_on_option_by(option_id, voter_id));
                } else if s.next_vote_id < i64::MAX {
                    lemma_with_vote_wf(s, vote);
                }
            },
        }
    }
}

/// The votes without those of `user_id` in the given poll, or without those
/// of `user_id` on the given option.
fn votes_except(
    votes: &Vec<Vote>,
    user_id: i64,
    poll_id: Option<i64>,
    option_id: Option<i64>,
) -> (r: Vec<Vote>)
    requires
        (poll_id is Some) != (option_id is Some),
    ensures
        poll_id matches Some(p) ==> r@ == votes@.filter(not_cast_by(p, user_id)),
        option_id matches Some(o) ==> r@ == votes@.filter(not_on_option_by(o, user_id)),
{
    let mut out: Vec<Vote> = Vec::new();
    let mut i: usize = 0;
    proof {
        reveal(Seq::filter);
        assert(votes@.take(0) =~= Seq::<Vote>::empty());
    }
    while i < votes.len()
        invariant
            i <= votes.len(),
            (poll_id is Some) != (option_id is Some),
            poll_id matches Some(p) ==> out@ == votes@.take(i as int).filter(
                not_cast_by(p, user_id),
            ),
            option_id matches Some(o) ==> out@ == votes@.take(i as int).filter(
                not_on_option_by(o, user_id),
            ),
        decreases votes.len() - i,
    {
        let v = votes[i];
        proof {
            assert(votes@.take(i as int + 1) =~= votes@.take(i as int).push(v));
            match poll_id {
                Some(p) => votes@.take(i as int).lemma_filter_push(v, not_cast_by(p, user_id)),
                None => {},
            }
            match option_id {
                Some(o) => votes@.take(i as int).lemma_filter_push(
                    v,
                    not_on_option_by(o, user_id),
                ),
                None => {},
            }
        }
        let dropped = v.user_id == user_id && match poll_id {
            Some(p) => v.poll_id == p,
            None => match option_id {
                Some(o) => v.option_id == o,
                None => false,
            },
        };
        if !dropped {
            out.push(v);
        }
        i += 1;
    }
    proof {
        assert(votes@.take(votes@.len() as int) =~= votes@);
    }
    out
}

impl Store {
    /// Whether the user holds a vote on the option.
    pub fn has_vote_on(&self, option_id: i64, user_id: i64) -> (r: bool)
        ensures
            r == self@.has_vote_on(option_id, user_id),
    {
        proof {
            self.view_is();
            reveal(Seq::filter);
            assert(self.votes@.take(0) =~= Seq::<Vote>::empty());
        }
        let mut i: usize = 0;
        while i < self.votes.len()
            invariant
                i <= self.votes.len(),
                self@.votes == self.votes@,
                self.votes@.take(i as int).filter(on_option_by(option_id, user_id)).len() == 0,
            decreases self.votes.len() - i,
        {
            let v = self.votes[i];
            proof {
                assert(self.votes@.take(i as int + 1) =~= self.votes@.take(i as int).push(v));
                self.votes@.take(i as int).lemma_filter_push(v, on_option_by(option_id, user_id));
            }
            if v.option_id == option_id && v.user_id == user_id {
                proof {
                    lemma_filter_members(self.votes@, on_option_by(option_id, user_id));
                    assert(self.votes@.filter(on_option_by(option_id, user_id)).contains(
                        self.votes@[i as int],
                    ));
                }
                return true;
            }
            i += 1;
        }
        proof {
            assert(self.votes@.take(self.votes@.len() as int) =~= self.votes@);
        }
        false
    }

    /// Casts the vote of `voter_id` for `option_id` of `poll_id` at `now`.
    ///
    /// Fails with `PollNotFound` where the poll is absent, with
    /// `PollClosed` where it is inactive or its expiry lies before `now`,
    /// with `OptionNotFound` where the option is absent or belongs to
    /// another poll, and with `StoreFull` where a vote would have to be
    /// written and no id is left. A failed cast leaves the store as it was.
    pub fn cast_vote(
        &mut self,
        poll_id: i64,
        option_id: i64,
        voter_id: i64,
        mode: VotingMode,
        now: Timestamp,
    ) -> (r: Result<VoteOutcome, EngineError>)
        requires
            old(self).wf(),
        ensures
            final(self).wf(),
            (final(self)@, r) == old(self)@.cast_vote(poll_id, option_id, voter_id, mode, now),
    {
        proof {
            self.view_is();
            lemma_cast_vote_wf(self@, poll_id, option_id, voter_id, mode, now);
        }
        let p = match self.poll_index(poll_id) {
            Some(p) => p,
            None => {
                return Err(EngineError::PollNotFound);
            },
        };
        proof {
            lemma_find_at(self@.polls, p as int);
        }
        if !self.polls[p].is_active(&now) {
            return Err(EngineError::PollClosed);
        }
        let belongs = match self.option_index(option_id) {
            Some(o) => {
                proof {
                    lemma_find_at(self@.options, o as int);
                }
                self.options[o].poll_id == poll_id
            },
            None => false,
        };
        if !belongs {
            return Err(EngineError::OptionNotFound);
        }
        let vote = Vote {
            id: self.next_vote_id,
            poll_id,
            option_id,
            user_id: voter_id,
            created_at: now,
        };
        match mode {
            VotingMode::SingleChoice => {
                if self.next_vote_id == i64::MAX {
                    return Err(EngineError::StoreFull);
                }
                let mut votes = votes_except(&self.votes, voter_id, Some(poll_id), None);
                votes.push(vote);
                self.votes = votes;
                self.next_vote_id = self.next_vote_id + 1;
                proof {
                    self.view_is();
                }
                Ok(VoteOutcome::Recorded)
            },
            VotingMode::MultiChoice => {
                if self.has_vote_on(option_id, voter_id) {
                    self.votes = votes_except(&self.votes, voter_id, None, Some(option_id));
                    proof {
                        self.view_is();
                    }
                    Ok(VoteOutcome::Removed)
                } else if self.next_vote_id == i64::MAX {
                    Err(EngineError::StoreFull)
                } else {
                    self.votes.push(vote);
                    self.next_vote_id = self.next_vote_id + 1;
                    proof {
                        self.view_is();
                    }
                    Ok(VoteOutcome::Recorded)
                }
            },
        }
    }
}

impl Store {
    /// Writes the single-choice vote of `user_id` in a poll: whatever vote
    /// the user held in the poll gives way to it. Fails as
    /// [`Store::cast_vote`] does, and then changes nothing.
    pub fn vote(&mut self, poll_id: i64, option_id: i64, user_id: i64, now: Timestamp) -> (r:
        Result<(), EngineError>)
        requires
            old(self).wf(),
        ensures
            final(self).wf(),
            final(self)@ == old(self)@.cast_vote(
                poll_id,
                option_id,
                user_id,
                VotingMode::SingleChoice,
                now,
            ).0,
            match old(self)@.cast_vote(
                poll_id,
                option_id,
                user_id,
                VotingMode::SingleChoice,
                now,
            ).1 {
                Ok(_) => r == Ok::<(), EngineError>(()),
                Err(e) => r == Err::<(), EngineError>(e),
            },
    {
        match self.cast_vote(poll_id, option_id, user_id, VotingMode::SingleChoice, now) {
            Ok(_) => Ok(()),
            Err(e) => Err(e),
        }
    }

    /// Casts the single-choice vote of `current_user` in a poll: the vote
    /// replaces whatever vote the user held in the poll. Fails as
    /// [`Store::cast_vote`] does.
    pub fn add_vote(
        &mut self,
        poll_id: i64,
        current_user: &UserInfo,
        payload: &VoteRequest,
        now: Timestamp,
    ) -> (r: Result<VoteOutcome, EngineError>)
        requires
            old(self).wf(),
        ensures
            final(self).wf(),
            (final(self)@, r) == old(self)@.cast_vote(
                poll_id,
                payload.option_id,
                current_user.id,
                VotingMode::SingleChoice,
                now,
            ),
    {
        self.cast_vote(poll_id, payload.option_id, current_user.id, VotingMode::SingleChoice, now)
    }

    /// Toggles the vote of `user_id` on an option of a multi-choice poll:
    /// a vote that the user holds on the option is taken back, else one is
    /// written. Fails as [`Store::cast_vote`] does.
    pub fn vote_on_poll(
        &mut self,
        poll_id: i64,
        user_id: i64,
        form: &VoteForm,
        now: Timestamp,
    ) -> (r: Result<VoteOutcome, EngineError>)
        requires
            old(self).wf(),
        ensures
            final(self).wf(),
            (final(self)@, r) == old(self)@.cast_vote(
                poll_id,
                form.option_id,
                user_id,
                VotingMode::MultiChoice,
                now,
            ),
    {
        self.cast_vote(poll_id, form.option_id, user_id, VotingMode::MultiChoice, now)
    }
}

} // verus!
