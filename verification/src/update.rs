//! Changing a poll: the update of its fields by its creator or an
//! administrator, and the sweep that closes the polls that have expired.
use crate::access::may_mutate;
use crate::clock::Timestamp;
use crate::error::EngineError;
use crate::forms::{UpdatePollRequest, UpdatePollRequestView};
use crate::models::{copy_text, Poll, PollView, UserInfo, UserInfoView};
use crate::rows::{find_id, has_id, index_of_id, lemma_find_at};
use crate::store::{Store, StoreState};
use vstd::prelude::*;

verus! {

/// The poll with the fields of the update in place of its own.
pub open spec fn updated_poll(poll: PollView, patch: UpdatePollRequestView) -> PollView {
    PollView {
        title: patch.title,
        description: patch.description,
        expires_at: patch.expires_at,
        is_active: patch.is_active,
        ..poll
    }
}

/// The poll as the sweep at `now` leaves it: closed if it was active and
/// its expiry lies before `now`, else unchanged.
pub open spec fn swept_poll(now: Timestamp) -> spec_fn(PollView) -> PollView {
    |poll: PollView|
        if poll.is_active && poll.expired(now) {
            PollView { is_active: false, ..poll }
        } else {
            poll
        }
}

impl StoreState {
    /// The update of a poll by an identity: the store after it, and the
    /// poll as it then stands.
    pub open spec fn update_poll(
        self,
        poll_id: i64,
        identity: UserInfoView,
        patch: UpdatePollRequestView,
    ) -> (StoreState, Result<PollView, EngineError>) {
        match find_id(self.polls, poll_id) {
            None => (self, Err(EngineError::PollNotFound)),
            Some(poll) => if !may_mutate(identity, poll) {
                (self, Err(EngineError::Forbidden))
            } else {
                (
                    StoreState {
                        polls: self.polls.update(
                            index_of_id(self.polls, poll_id),
                            updated_poll(poll, patch),
                        ),
                        ..self
                    },
                    Ok(updated_poll(poll, patch)),
                )
            },
        }
    }

    /// The store after the sweep at `now`.
    pub open spec fn swept(self, now: Timestamp) -> StoreState {
        StoreState { polls: self.polls.map_values(swept_poll(now)), ..self }
    }
}

/// Changing polls in place, each keeping its id, keeps the invariant.
pub proof fn lemma_same_ids_wf(s: StoreState, polls: Seq<PollView>)
    requires
        s.wf(),
        polls.len() == s.polls.len(),
        forall|i: int| 0 <= i < polls.len() ==> (#[trigger] polls[i]).id == s.polls[i].id,
    ensures
        (StoreState { polls, ..s }).wf(),
{
    let t = StoreState { polls, ..s };
    assert forall|i: int, j: int|
        #![trigger polls[i], polls[j]]
        0 <= i < j < polls.len() implies polls[i].id < polls[j].id by {
        assert(s.polls[i].id < s.polls[j].id);
    }
    assert forall|i: int| 0 <= i < polls.len() implies 0 < (#[trigger] polls[i]).id
        < s.next_poll_id by {
        assert(0 < s.polls[i].id < s.next_poll_id);
    }
    assert forall|i: int| 0 <= i < t.options.len() implies has_id(
        t.polls,
        (#[trigger] t.options[i]).poll_id,
    ) by {
        assert(has_id(s.polls, s.options[i].poll_id));
        let k = index_of_id(s.polls, s.options[i].poll_id);
        assert(polls[k].id == s.options[i].poll_id);
    }
    assert forall|i: int| 0 <= i < t.votes.len() implies t.option_of_poll(
        (#[trigger] t.votes[i]).option_id,
        t.votes[i].poll_id,
    ) by {
        assert(s.option_of_poll(s.votes[i].option_id, s.votes[i].poll_id));
    }
}

/// The sweep keeps the invariant.
pub proof fn lemma_swept_wf(s: StoreState, now: Timestamp)
    requires
        s.wf(),
    ensures
        s.swept(now).wf(),
{
    lemma_same_ids_wf(s, s.polls.map_values(swept_poll(now)));
}

/// An update keeps the invariant.
pub proof fn lemma_update_poll_wf(
    s: StoreState,
    poll_id: i64,
    identity: UserInfoView,
    patch: UpdatePollRequestView,
)
    requires
        s.wf(),
    ensures
        s.update_poll(poll_id, identity, patch).0.wf(),
{
    let t = s.update_poll(poll_id, identity, patch).0;
    if t != s {
        let i = index_of_id(s.polls, poll_id);
        lemma_same_ids_wf(s, t.polls);
    }
}

impl Store {
    /// Changes the title, the description, the expiry and the activity
    /// flag of a poll on behalf of `current_user`, and gives the poll as
    /// it then stands.
    ///
    /// Fails with `PollNotFound` where no poll has the id and with
    /// `Forbidden` where the identity is neither an administrator nor the
    /// poll's creator; the store then stays as it was.
    pub fn update_poll(
        &mut self,
        poll_id: i64,
        current_user: &UserInfo,
        payload: &UpdatePollRequest,
    ) -> (r: Result<Poll, EngineError>)
        requires
            old(self).wf(),
        ensures
            final(self).wf(),
            match r {
                Ok(poll) => old(self)@.update_poll(poll_id, current_user@, payload@) == (
                    final(self)@,
                    Ok::<PollView, EngineError>(poll@),
                ),
                Err(e) => old(self)@.update_poll(poll_id, current_user@, payload@) == (
                    final(self)@,
                    Err::<PollView, EngineError>(e),
                ),
            },
    {
        proof {
            self.view_is();
            lemma_update_poll_wf(self@, poll_id, current_user@, payload@);
        }
        let i = match self.poll_index(poll_id) {
            Some(i) => i,
            None => {
                return Err(EngineError::PollNotFound);
            },
        };
        proof {
            lemma_find_at(self@.polls, i as int);
        }
        let current = &self.polls[i];
        if !(current_user.is_admin || current_user.id == current.created_by) {
            return Err(EngineError::Forbidden);
        }
        let changed = Poll {
            id: current.id,
            title: payload.title.clone(),
            description: copy_text(&payload.description),
            created_by: current.created_by,
            created_at: current.created_at,
            expires_at: payload.expires_at,
            is_active: payload.is_active,
        };
        let copy = changed.clone();
        self.polls[i] = changed;
        proof {
            self.view_is();
            assert(self@.polls =~= old(self)@.polls.update(i as int, changed@));
        }
        Ok(copy)
    }

    /// Closes the polls whose expiry lies before `now`: each of them loses
    /// its activity flag. Nothing else changes, and no poll is reopened.
    pub fn update_poll_statuses(&mut self, now: Timestamp)
        requires
            old(self).wf(),
        ensures
            final(self).wf(),
            final(self)@ == old(self)@.swept(now),
    {
        proof {
            self.view_is();
            lemma_swept_wf(self@, now);
        }
        let mut i: usize = 0;
        while i < self.polls.len()
            invariant
                i <= self.polls.len(),
                self.polls.len() == old(self).polls.len(),
                self.users == old(self).users,
                self.options == old(self).options,
                self.votes == old(self).votes,
                self.next_user_id == old(self).next_user_id,
                self.next_poll_id == old(self).next_poll_id,
                self.next_option_id == old(self).next_option_id,
                self.next_vote_id == old(self).next_vote_id,
                forall|k: int|
                    0 <= k < i ==> (#[trigger] self.polls@[k])@ == swept_poll(now)(
                        old(self).polls@[k]@,
                    ),
                forall|k: int|
                    i <= k < self.polls.len() ==> #[trigger] self.polls@[k] == old(self).polls@[k],
            decreases self.polls.len() - i,
        {
            if self.polls[i].is_active && self.polls[i].is_expired(&now) {
                self.polls[i].is_active = false;
            }
            i += 1;
        }
        proof {
            self.view_is();
            old(self).view_is();
            assert(self@.polls =~= old(self)@.polls.map_values(swept_poll(now)));
        }
    }
}

} // verus!
