//! Reading polls: one poll with its options, the lists of polls newest
//! first, and polls joined with the names of their creators.
use crate::clock::Timestamp;
use crate::error::EngineError;
use crate::forms::{PollResponse, PollResponseView, PollWithCreator, PollWithCreatorView};
use crate::models::{copy_text, Poll, PollView, UserInfo};
use crate::order::{is_ranking_of, sort_by_rank, views_of};
use crate::rows::{find_id, has_id, index_of_id, lemma_find_at};
use crate::store::{poll_views, Store, StoreState};
use vstd::prelude::*;

verus! {

/// The polls of a list: all of them, or those whose activity flag is set.
pub open spec fn listed(active_only: bool) -> spec_fn(PollView) -> bool {
    |p: PollView| !active_only || p.is_active
}

/// The polls that take votes at `now` (or, for `open == false`, those that
/// do not) and whose creator is a user of the store.
pub open spec fn shown_at(s: StoreState, now: Timestamp, open: bool) -> spec_fn(PollView) -> bool {
    |p: PollView| p.open_at(now) == open && has_id(s.users, p.created_by)
}

/// The poll with the name of its creator.
pub open spec fn with_creator(s: StoreState) -> spec_fn(PollView) -> PollWithCreatorView {
    |p: PollView|
        PollWithCreatorView {
            id: p.id,
            title: p.title,
            description: p.description,
            creator_id: p.created_by,
            creator_username: s.users[index_of_id(s.users, p.created_by)].username,
            created_at: p.created_at,
            expires_at: p.expires_at,
        }
}

impl StoreState {
    /// The poll with its options and the option of the viewer's oldest
    /// vote, as a viewer sees it after the sweep at `now`.
    pub open spec fn poll_response(self, poll_id: i64, viewer_id: i64) -> Result<
        PollResponseView,
        EngineError,
    > {
        match find_id(self.polls, poll_id) {
            None => Err(EngineError::PollNotFound),
            Some(poll) => Ok(
                PollResponseView {
                    poll,
                    options: self.options_of(poll_id),
                    user_vote: self.user_vote(poll_id, viewer_id),
                },
            ),
        }
    }

    /// The poll with the name of its creator; `PollNotFound` where no poll
    /// has the id or the poll's creator is no user of the store.
    pub open spec fn poll_with_creator(self, poll_id: i64) -> Result<
        PollWithCreatorView,
        EngineError,
    > {
        match find_id(self.polls, poll_id) {
            Some(poll) => if has_id(self.users, poll.created_by) {
                Ok(with_creator(self)(poll))
            } else {
                Err(EngineError::PollNotFound)
            },
            None => Err(EngineError::PollNotFound),
        }
    }
}

impl Store {
    /// A poll with its options and the viewer's vote. The polls that have
    /// expired by `now` are closed first, so the poll comes back with the
    /// flag that it has at `now`.
    pub fn get_single_poll(&mut self, poll_id: i64, current_user: &UserInfo, now: Timestamp) -> (r:
        Result<PollResponse, EngineError>)
        requires
            old(self).wf(),
        ensures
            final(self).wf(),
            final(self)@ == old(self)@.swept(now),
            match r {
                Ok(response) => final(self)@.poll_response(poll_id, current_user.id) == Ok::<
                    PollResponseView,
                    EngineError,
                >(response@),
                Err(e) => final(self)@.poll_response(poll_id, current_user.id) == Err::<
                    PollResponseView,
                    EngineError,
                >(e),
            },
    {
        self.update_poll_statuses(now);
        let poll = match self.get_poll(poll_id) {
            Some(poll) => poll,
            None => {
                return Err(EngineError::PollNotFound);
            },
        };
        let options = self.get_poll_options(poll_id);
        let user_vote = self.get_user_vote(poll_id, current_user.id);
        Ok(PollResponse { poll, options, user_vote })
    }

    /// The row of the poll joined with its creator.
    fn join_creator(&self, i: usize) -> (r: Option<PollWithCreator>)
        requires
            self.wf(),
            i < self@.polls.len(),
        ensures
            match r {
                Some(row) => has_id(self@.users, self@.polls[i as int].created_by) && row@
                    == with_creator(self@)(self@.polls[i as int]),
                None => !has_id(self@.users, self@.polls[i as int].created_by),
            },
    {
        proof {
            self.view_is();
        }
        let poll = &self.polls[i];
        match self.user_index(poll.created_by) {
            Some(u) => {
                proof {
                    lemma_find_at(self@.users, u as int);
                }
                Some(
                    PollWithCreator {
                        id: poll.id,
                        title: poll.title.clone(),
                        description: copy_text(&poll.description),
                        creator_id: poll.created_by,
                        creator_username: self.users[u].username.clone(),
                        created_at: poll.created_at,
                        expires_at: poll.expires_at,
                    },
                )
            },
            None => None,
        }
    }

    /// The polls, or only those whose activity flag is set, newest first.
    pub fn list_polls(&self, active_only: bool) -> (r: Vec<Poll>)
        ensures
            is_ranking_of::<Poll>(poll_views(r@), self@.polls.filter(listed(active_only))),
    {
        let mut out: Vec<Poll> = Vec::new();
        let mut i: usize = 0;
        proof {
            self.view_is();
            reveal(Seq::filter);
            assert(self@.polls.take(0) =~= Seq::<PollView>::empty());
            assert(poll_views(out@) =~= Seq::<PollView>::empty());
        }
        while i < self.polls.len()
            invariant
                i <= self.polls.len(),
                self@.polls == poll_views(self.polls@),
                poll_views(out@) == self@.polls.take(i as int).filter(listed(active_only)),
            decreases self.polls.len() - i,
        {
            proof {
                let p = self@.polls[i as int];
                assert(self@.polls.take(i as int + 1) =~= self@.polls.take(i as int).push(p));
                self@.polls.take(i as int).lemma_filter_push(p, listed(active_only));
            }
            if !active_only || self.polls[i].is_active {
                let copy = self.polls[i].clone();
                proof {
                    assert(poll_views(out@.push(copy)) =~= poll_views(out@).push(copy@));
                }
                out.push(copy);
            }
            i += 1;
        }
        proof {
            assert(self@.polls.take(self@.polls.len() as int) =~= self@.polls);
            assert(views_of(out@) =~= poll_views(out@));
        }
        let sorted = sort_by_rank(out);
        proof {
            assert(views_of(sorted@) =~= poll_views(sorted@));
        }
        sorted
    }

    /// Closes the polls that have expired by `now`, then gives the polls
    /// whose activity flag is still set, newest first.
    pub fn get_all_polls(&mut self, now: Timestamp) -> (r: Vec<Poll>)
        requires
            old(self).wf(),
        ensures
            final(self).wf(),
            final(self)@ == old(self)@.swept(now),
            is_ranking_of::<Poll>(poll_views(r@), final(self)@.polls.filter(listed(true))),
    {
        self.update_poll_statuses(now);
        self.list_polls(true)
    }

    /// The polls that take votes at `now` (or, for `open == false`, those
    /// that do not), each with the name of its creator, newest first.
    fn polls_shown(&self, now: Timestamp, open: bool) -> (r: Vec<PollWithCreator>)
        requires
            self.wf(),
        ensures
            is_ranking_of::<PollWithCreator>(
                views_of(r@),
                self@.polls.filter(shown_at(self@, now, open)).map_values(with_creator(self@)),
            ),
    {
        let mut out: Vec<PollWithCreator> = Vec::new();
        let mut i: usize = 0;
        let ghost shown = shown_at(self@, now, open);
        let ghost joined = with_creator(self@);
        proof {
            self.view_is();
            reveal(Seq::filter);
            assert(self@.polls.take(0) =~= Seq::<PollView>::empty());
            assert(views_of(out@) =~= Seq::<PollView>::empty().map_values(joined));
        }
        while i < self.polls.len()
            invariant
                i <= self.polls.len(),
                self.wf(),
                self@.polls == poll_views(self.polls@),
                shown == shown_at(self@, now, open),
                joined == with_creator(self@),
                views_of(out@) == self@.polls.take(i as int).filter(shown).map_values(joined),
            decreases self.polls.len() - i,
        {
            let ghost before = self@.polls.take(i as int);
            let ghost p = self@.polls[i as int];
            proof {
                assert(self@.polls.take(i as int + 1) =~= before.push(p));
                before.lemma_filter_push(p, shown);
                assert(before.filter(shown).push(p).map_values(joined) =~= before.filter(
                    shown,
                ).map_values(joined).push(joined(p)));
            }
            if self.polls[i].is_active(&now) == open {
                match self.join_creator(i) {
                    Some(row) => {
                        proof {
                            assert(views_of(out@.push(row)) =~= views_of(out@).push(row@));
                        }
                        out.push(row);
                    },
                    None => {},
                }
            }
            i += 1;
        }
        proof {
            assert(self@.polls.take(self@.polls.len() as int) =~= self@.polls);
        }
        sort_by_rank(out)
    }

    /// The polls that take votes at `now`, each with the name of its
    /// creator, newest first.
    pub fn get_active_polls(&self, now: Timestamp) -> (r: Vec<PollWithCreator>)
        requires
            self.wf(),
        ensures
            is_ranking_of::<PollWithCreator>(
                views_of(r@),
                self@.polls.filter(shown_at(self@, now, true)).map_values(with_creator(self@)),
            ),
    {
        self.polls_shown(now, true)
    }

    /// The polls that take no more votes at `now`, each with the name of
    /// its creator, newest first.
    pub fn get_expired_polls(&self, now: Timestamp) -> (r: Vec<PollWithCreator>)
        requires
            self.wf(),
        ensures
            is_ranking_of::<PollWithCreator>(
                views_of(r@),
                self@.polls.filter(shown_at(self@, now, false)).map_values(with_creator(self@)),
            ),
    {
        self.polls_shown(now, false)
    }

    /// The poll with the name of its creator.
    pub fn get_poll_by_id(&self, poll_id: i64) -> (r: Result<PollWithCreator, EngineError>)
        requires
            self.wf(),
        ensures
            match r {
                Ok(poll) => self@.poll_with_creator(poll_id) == Ok::<
                    PollWithCreatorView,
                    EngineError,
                >(poll@),
                Err(e) => self@.poll_with_creator(poll_id) == Err::<
                    PollWithCreatorView,
                    EngineError,
                >(e),
            },
    {
        proof {
            self.view_is();
        }
        match self.poll_index(poll_id) {
            Some(i) => {
                proof {
                    lemma_find_at(self@.polls, i as int);
                }
                match self.join_creator(i) {
                    Some(row) => Ok(row),
                    None => Err(EngineError::PollNotFound),
                }
            },
            None => Err(EngineError::PollNotFound),
        }
    }
}

} // verus!
