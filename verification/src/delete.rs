//! The cascading delete of a poll: its votes, its options, and the poll
//! itself, for the creator and for administrators.
use crate::access::may_mutate;
use crate::error::EngineError;
use crate::ledger::lemma_votes_kept_wf;
use crate::models::{PollOption, PollOptionView, UserInfo, UserInfoView, Vote};
use crate::rows::{
    find_id, has_id, index_of_id, lemma_filter_agree, lemma_filter_find, lemma_filter_keeps_ids,
    lemma_filter_members, lemma_find_at, lemma_remove_row,
};
use crate::store::{option_views, poll_views, Store, StoreState};
use vstd::prelude::*;

verus! {

/// The options that do not belong to the poll.
pub open spec fn options_outside(poll_id: i64) -> spec_fn(PollOptionView) -> bool {
    |o: PollOptionView| o.poll_id != poll_id
}

/// The votes that name no option of the poll.
pub open spec fn votes_outside(s: StoreState, poll_id: i64) -> spec_fn(Vote) -> bool {
    |v: Vote| !s.option_of_poll(v.option_id, poll_id)
}

/// The votes that name another poll.
pub open spec fn votes_of_other_polls(poll_id: i64) -> spec_fn(Vote) -> bool {
    |v: Vote| v.poll_id != poll_id
}

impl StoreState {
    /// The first step of a delete: the store without the votes that name
    /// an option of the poll.
    pub open spec fn without_votes_of(self, poll_id: i64) -> StoreState {
        StoreState { votes: self.votes.filter(votes_outside(self, poll_id)), ..self }
    }

    /// The second step: the store without the options of the poll.
    pub open spec fn without_options_of(self, poll_id: i64) -> StoreState {
        StoreState { options: self.options.filter(options_outside(poll_id)), ..self }
    }

    /// The third step: the store without the row of the poll.
    pub open spec fn without_row_of(self, poll_id: i64) -> StoreState {
        StoreState {
            polls: if has_id(self.polls, poll_id) {
                self.polls.remove(index_of_id(self.polls, poll_id))
            } else {
                self.polls
            },
            ..self
        }
    }

    /// The store without the poll, without the poll's options and without
    /// the votes that name one of them.
    pub open spec fn without_poll(self, poll_id: i64) -> StoreState {
        StoreState {
            votes: self.votes.filter(votes_outside(self, poll_id)),
            options: self.options.filter(options_outside(poll_id)),
            polls: if has_id(self.polls, poll_id) {
                self.polls.remove(index_of_id(self.polls, poll_id))
            } else {
                self.polls
            },
            ..self
        }
    }

    /// The identity may delete the poll: it is an administrator, or the
    /// poll exists and the identity created it.
    pub open spec fn may_delete(self, poll_id: i64, identity: UserInfoView) -> bool {
        identity.is_admin || match find_id(self.polls, poll_id) {
            Some(poll) => may_mutate(identity, poll),
            None => false,
        }
    }

    /// The delete of a poll by an identity: the store after it, and what the
    /// caller is told. Without the permission nothing changes.
    pub open spec fn delete_poll(self, poll_id: i64, identity: UserInfoView) -> (
        StoreState,
        Result<(), EngineError>,
    ) {
        if self.may_delete(poll_id, identity) {
            (self.without_poll(poll_id), Ok(()))
        } else {
            (self, Err(EngineError::Forbidden))
        }
    }
}

/// In a store that meets its invariant, the votes that name an option of a
/// poll are the votes that name the poll.
pub proof fn lemma_votes_outside(s: StoreState, poll_id: i64)
    requires
        s.wf(),
    ensures
        s.votes.filter(votes_outside(s, poll_id)) == s.votes.filter(
            votes_of_other_polls(poll_id),
        ),
{
    assert forall|i: int| 0 <= i < s.votes.len() implies votes_outside(s, poll_id)(
        #[trigger] s.votes[i],
    ) == votes_of_other_polls(poll_id)(s.votes[i]) by {
        assert(s.option_of_poll(s.votes[i].option_id, s.votes[i].poll_id));
    }
    lemma_filter_agree(s.votes, votes_outside(s, poll_id), votes_of_other_polls(poll_id));
}

/// A delete goes in three steps, each of which leaves a store that meets
/// the invariant: first the votes that name an option of the poll, then
/// the options of the poll, which no vote names any more, then the poll,
/// which no option names any more. No step rests on a cascade of the one
/// before.
pub proof fn law_delete_in_order(s: StoreState, poll_id: i64)
    requires
        s.wf(),
    ensures
        ({
            let first = s.without_votes_of(poll_id);
            let second = first.without_options_of(poll_id);
            let third = second.without_row_of(poll_id);
            &&& first.wf()
            &&& second.wf()
            &&& third.wf()
            &&& third == s.without_poll(poll_id)
        }),
{
    let first = s.without_votes_of(poll_id);
    let second = first.without_options_of(poll_id);
    let third = second.without_row_of(poll_id);
    lemma_votes_outside(s, poll_id);
    lemma_votes_kept_wf(s, votes_outside(s, poll_id));
    assert(first == s.with_votes_kept(votes_outside(s, poll_id)));
    lemma_filter_members(s.votes, votes_outside(s, poll_id));
    lemma_filter_keeps_ids(s.options, options_outside(poll_id), s.next_option_id);
    lemma_filter_members(s.options, options_outside(poll_id));
    assert forall|i: int| 0 <= i < second.options.len() implies has_id(
        second.polls,
        (#[trigger] second.options[i]).poll_id,
    ) by {
        let k = choose|k: int| 0 <= k < s.options.len() && s.options[k] == second.options[i];
        assert(has_id(s.polls, s.options[k].poll_id));
    }
    assert forall|i: int| 0 <= i < second.votes.len() implies second.option_of_poll(
        (#[trigger] second.votes[i]).option_id,
        second.votes[i].poll_id,
    ) by {
        let v = second.votes[i];
        assert(first.option_of_poll(v.option_id, v.poll_id));
        let k = choose|k: int| 0 <= k < s.votes.len() && s.votes[k] == v;
        assert(!s.option_of_poll(v.option_id, poll_id));
        lemma_filter_find(s.options, options_outside(poll_id), v.option_id);
    }
    assert(second.wf());
    if has_id(s.polls, poll_id) {
        let i = index_of_id(s.polls, poll_id);
        lemma_remove_row(s.polls, i, s.next_poll_id);
    }
    assert forall|i: int| 0 <= i < third.options.len() implies has_id(
        third.polls,
        (#[trigger] third.options[i]).poll_id,
    ) by {
        let o = third.options[i];
        let k = choose|k: int| 0 <= k < s.options.len() && s.options[k] == o;
        assert(has_id(s.polls, s.options[k].poll_id));
        assert(o.poll_id != poll_id);
        assert(find_id(s.polls, o.poll_id) is Some);
        assert(find_id(third.polls, o.poll_id) is Some);
    }
    assert forall|i: int| 0 <= i < third.votes.len() implies third.option_of_poll(
        (#[trigger] third.votes[i]).option_id,
        third.votes[i].poll_id,
    ) by {
        assert(second.option_of_poll(second.votes[i].option_id, second.votes[i].poll_id));
    }
}

/// The cascading delete keeps the invariant.
pub proof fn lemma_without_poll_wf(s: StoreState, poll_id: i64)
    requires
        s.wf(),
    ensures
        s.without_poll(poll_id).wf(),
{
    law_delete_in_order(s, poll_id);
}

/// The votes that name another poll, in order.
fn votes_kept(votes: &Vec<Vote>, poll_id: i64) -> (r: Vec<Vote>)
    ensures
        r@ == votes@.filter(votes_of_other_polls(poll_id)),
{
    let mut out: Vec<Vote> = Vec::new();
    let mut i: usize = 0;
    proof {
        reveal(Seq::filter);
        assert(votes@.take(0) =~= Seq::<Vote>::empty());
    }
    while i < votes.len()
        invariant
            i <= votes.len(),
            out@ == votes@.take(i as int).filter(votes_of_other_polls(poll_id)),
        decreases votes.len() - i,
    {
        let v = votes[i];
        proof {
            assert(votes@.take(i as int + 1) =~= votes@.take(i as int).push(v));
            votes@.take(i as int).lemma_filter_push(v, votes_of_other_polls(poll_id));
        }
        if v.poll_id != poll_id {
            out.push(v);
        }
        i += 1;
    }
    proof {
        assert(votes@.take(votes@.len() as int) =~= votes@);
    }
    out
}

/// The options that belong to another poll, in order.
fn options_kept(options: Vec<PollOption>, poll_id: i64) -> (r: Vec<PollOption>)
    ensures
        option_views(r@) == option_views(options@).filter(options_outside(poll_id)),
{
    let ghost all = options@;
    let mut out: Vec<PollOption> = Vec::new();
    proof {
        reveal(Seq::filter);
        assert(option_views(all.take(0)) =~= Seq::<PollOptionView>::empty());
        assert(option_views(out@) =~= Seq::<PollOptionView>::empty());
    }
    for option in it: options.into_iter()
        invariant
            it.seq() == all,
            option_views(out@) == option_views(all.take(it.index())).filter(
                options_outside(poll_id),
            ),
    {
        proof {
            let k = it.index();
            assert(all.take(k + 1) =~= all.take(k).push(option));
            assert(option_views(all.take(k + 1)) =~= option_views(all.take(k)).push(option@));
            option_views(all.take(k)).lemma_filter_push(option@, options_outside(poll_id));
            assert(option_views(out@.push(option)) =~= option_views(out@).push(option@));
        }
        if option.poll_id != poll_id {
            out.push(option);
        }
    }
    proof {
        assert(all.take(all.len() as int) =~= all);
    }
    out
}

impl Store {
    /// Deletes the poll on behalf of `identity`: first the votes that name
    /// an option of the poll, then the poll's options, then the poll.
    ///
    /// Only an administrator or the poll's creator may delete. Anyone else
    /// gets `Forbidden`, also where no poll has the id, and the store stays
    /// as it was. For an administrator the delete of an absent poll
    /// succeeds and finds nothing to take out.
    pub fn delete_poll(&mut self, poll_id: i64, identity: &UserInfo) -> (r: Result<
        (),
        EngineError,
    >)
        requires
            old(self).wf(),
        ensures
            final(self).wf(),
            (final(self)@, r) == old(self)@.delete_poll(poll_id, identity@),
    {
        proof {
            self.view_is();
            lemma_without_poll_wf(self@, poll_id);
            lemma_votes_outside(self@, poll_id);
        }
        let found = self.poll_index(poll_id);
        proof {
            if let Some(i) = found {
                lemma_find_at(self@.polls, i as int);
            }
        }
        if !identity.is_admin {
            match found {
                Some(i) => {
                    if self.polls[i].created_by != identity.id {
                        return Err(EngineError::Forbidden);
                    }
                },
                None => {
                    return Err(EngineError::Forbidden);
                },
            }
        }
        self.votes = votes_kept(&self.votes, poll_id);
        let mut options: Vec<PollOption> = Vec::new();
        core::mem::swap(&mut self.options, &mut options);
        self.options = options_kept(options, poll_id);
        if let Some(i) = found {
            self.polls.remove(i);
            proof {
                assert(poll_views(self.polls@) =~= poll_views(old(self).polls@).remove(i as int));
            }
        }
        proof {
            self.view_is();
        }
        Ok(())
    }
}

} // verus!
