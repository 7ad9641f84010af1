//! Result aggregation: the vote count of each option of a poll, the total,
//! and the viewer's own vote.
use crate::clock::Timestamp;
use crate::error::EngineError;
use crate::ledger::cast_by;
use crate::models::{Poll, PollOption, PollOptionView, PollView, Vote};
use crate::rows::{
    find_id, has_id, ids_ascend, ids_below, index_of_id, lemma_filter_find, lemma_filter_first,
    lemma_filter_keeps_ids, lemma_filter_members, lemma_filter_none, lemma_find_at,
    lemma_front_ids, Row,
};
use crate::store::{option_views, Store, StoreState};
use vstd::prelude::*;

verus! {

/// An option of a poll with the number of votes that it holds.
#[derive(Debug, PartialEq, Eq)]
pub struct PollOptionWithVotes {
    pub id: i64,
    pub text: String,
    pub is_date: bool,
    pub date_time: Option<Timestamp>,
    pub vote_count: i64,
}

/// The mathematical view of a [`PollOptionWithVotes`].
pub struct PollOptionWithVotesView {
    pub id: i64,
    pub text: Seq<char>,
    pub is_date: bool,
    pub date_time: Option<Timestamp>,
    pub vote_count: i64,
}

impl View for PollOptionWithVotes {
    type V = PollOptionWithVotesView;

    open spec fn view(&self) -> PollOptionWithVotesView {
        PollOptionWithVotesView {
            id: self.id,
            text: self.text@,
            is_date: self.is_date,
            date_time: self.date_time,
            vote_count: self.vote_count,
        }
    }
}

/// The results of a poll as one viewer sees them.
#[derive(Debug, PartialEq, Eq)]
pub struct PollResult {
    pub poll: Poll,
    /// The options of the poll in the order of their ids, each with its
    /// count.
    pub options: Vec<PollOptionWithVotes>,
    /// The number of votes cast in the poll.
    pub total_votes: i64,
    /// The option of the viewer's vote; of the oldest, where the viewer
    /// holds several.
    pub user_vote: Option<i64>,
    /// The options of all the viewer's votes in the poll, oldest vote
    /// first.
    pub user_votes: Vec<i64>,
}

/// The mathematical view of a [`PollResult`].
pub struct PollResultView {
    pub poll: PollView,
    pub options: Seq<PollOptionWithVotesView>,
    pub total_votes: i64,
    pub user_vote: Option<i64>,
    pub user_votes: Seq<i64>,
}

/// The views of the tallies, in order.
pub open spec fn tally_views(rows: Seq<PollOptionWithVotes>) -> Seq<PollOptionWithVotesView> {
    rows.map_values(|r: PollOptionWithVotes| r@)
}

impl View for PollResult {
    type V = PollResultView;

    open spec fn view(&self) -> PollResultView {
        PollResultView {
            poll: self.poll@,
            options: tally_views(self.options@),
            total_votes: self.total_votes,
            user_vote: self.user_vote,
            user_votes: self.user_votes@,
        }
    }
}

/// The votes on an option.
pub open spec fn on_option(option_id: i64) -> spec_fn(Vote) -> bool {
    |v: Vote| v.option_id == option_id
}

/// The votes cast in a poll.
pub open spec fn in_poll(poll_id: i64) -> spec_fn(Vote) -> bool {
    |v: Vote| v.poll_id == poll_id
}

/// The options that belong to a poll.
pub open spec fn of_poll(poll_id: i64) -> spec_fn(PollOptionView) -> bool {
    |o: PollOptionView| o.poll_id == poll_id
}

/// The sum of the vote counts of the options.
pub open spec fn sum_counts(options: Seq<PollOptionWithVotesView>) -> int
    decreases options.len(),
{
    if options.len() == 0 {
        0
    } else {
        sum_counts(options.drop_last()) + options.last().vote_count
    }
}

impl StoreState {
    /// The number of votes on the option.
    pub open spec fn vote_count(self, option_id: i64) -> nat {
        self.votes.filter(on_option(option_id)).len()
    }

    /// The number of votes cast in the poll.
    pub open spec fn total_votes(self, poll_id: i64) -> nat {
        self.votes.filter(in_poll(poll_id)).len()
    }

    /// The options of the poll, in the order of their ids.
    pub open spec fn options_of(self, poll_id: i64) -> Seq<PollOptionView> {
        self.options.filter(of_poll(poll_id))
    }

    /// The option with its count.
    pub open spec fn tally(self, option: PollOptionView) -> PollOptionWithVotesView {
        PollOptionWithVotesView {
            id: option.id,
            text: option.text,
            is_date: option.is_date,
            date_time: option.date_time,
            vote_count: self.vote_count(option.id) as i64,
        }
    }

    /// The options of the poll, each with its count; an option without
    /// votes has the count 0.
    pub open spec fn tallies(self, poll_id: i64) -> Seq<PollOptionWithVotesView> {
        self.options_of(poll_id).map_values(|o: PollOptionView| self.tally(o))
    }

    /// The options of the user's votes in the poll, oldest vote first.
    pub open spec fn user_votes(self, poll_id: i64, user_id: i64) -> Seq<i64> {
        self.votes_of(poll_id, user_id).map_values(|v: Vote| v.option_id)
    }

    /// The option of the user's oldest vote in the poll.
    pub open spec fn user_vote(self, poll_id: i64, user_id: i64) -> Option<i64> {
        let mine = self.votes_of(poll_id, user_id);
        if mine.len() > 0 {
            Some(mine[0].option_id)
        } else {
            None
        }
    }

    /// The results of the poll for a viewer; `PollNotFound` where no poll
    /// has the id.
    pub open spec fn results(self, poll_id: i64, viewer_id: i64) -> Result<
        PollResultView,
        EngineError,
    > {
        match find_id(self.polls, poll_id) {
            None => Err(EngineError::PollNotFound),
            Some(poll) => Ok(
                PollResultView {
                    poll,
                    options: self.tallies(poll_id),
                    total_votes: self.total_votes(poll_id) as i64,
                    user_vote: self.user_vote(poll_id, viewer_id),
                    user_votes: self.user_votes(poll_id, viewer_id),
                },
            ),
        }
    }
}

/// How many of the options have the id.
pub open spec fn hits(options: Seq<PollOptionView>, option_id: i64) -> int
    decreases options.len(),
{
    if options.len() == 0 {
        0
    } else {
        hits(options.drop_last(), option_id) + if options.last().id == option_id {
            1int
        } else {
            0int
        }
    }
}

/// The votes that the options hold between them.
pub open spec fn votes_held(options: Seq<PollOptionView>, votes: Seq<Vote>) -> int
    decreases options.len(),
{
    if options.len() == 0 {
        0
    } else {
        votes_held(options.drop_last(), votes) + votes.filter(on_option(options.last().id)).len()
    }
}

/// Among options with distinct ids an id is hit once or not at all.
proof fn lemma_hits(options: Seq<PollOptionView>, option_id: i64)
    requires
        ids_ascend(options),
    ensures
        hits(options, option_id) == if has_id(options, option_id) {
            1int
        } else {
            0int
        },
    decreases options.len(),
{
    if options.len() > 0 {
        let front = options.drop_last();
        lemma_front_ids(options);
        lemma_hits(front, option_id);
        if options.last().id == option_id {
            assert(options[options.len() - 1].row_id() == option_id);
        } else if has_id(front, option_id) {
            let k = index_of_id(front, option_id);
            assert(0 <= k < front.len() && front[k].row_id() == option_id);
            assert(options[k].row_id() == option_id);
        } else if has_id(options, option_id) {
            let k = index_of_id(options, option_id);
            assert(0 <= k < options.len() && options[k].row_id() == option_id);
            assert(front[k].row_id() == option_id);
        }
    }
}

/// One more vote is one more vote held for each option that it names.
proof fn lemma_votes_held_push(options: Seq<PollOptionView>, votes: Seq<Vote>, vote: Vote)
    ensures
        votes_held(options, votes.push(vote)) == votes_held(options, votes) + hits(
            options,
            vote.option_id,
        ),
    decreases options.len(),
{
    if options.len() > 0 {
        lemma_votes_held_push(options.drop_last(), votes, vote);
        votes.lemma_filter_push(vote, on_option(options.last().id));
    }
}

/// The counts of the tallies add up to the votes that the options hold.
proof fn lemma_sum_counts(s: StoreState, options: Seq<PollOptionView>)
    requires
        s.votes.len() <= i64::MAX,
    ensures
        sum_counts(options.map_values(|o: PollOptionView| s.tally(o))) == votes_held(
            options,
            s.votes,
        ),
    decreases options.len(),
{
    let tallies = options.map_values(|o: PollOptionView| s.tally(o));
    if options.len() > 0 {
        lemma_sum_counts(s, options.drop_last());
        assert(tallies.drop_last() =~= options.drop_last().map_values(
            |o: PollOptionView| s.tally(o),
        ));
        lemma_filter_members(s.votes, on_option(options.last().id));
    }
}

/// The options of a poll hold between them those of the given votes that
/// were cast in the poll, where each of the votes names an option of its
/// poll.
pub proof fn lemma_votes_held_total(s: StoreState, poll_id: i64, votes: Seq<Vote>)
    requires
        ids_ascend(s.options),
        ids_below(s.options, s.next_option_id),
        forall|i: int|
            0 <= i < votes.len() ==> s.option_of_poll(
                (#[trigger] votes[i]).option_id,
                votes[i].poll_id,
            ),
    ensures
        votes_held(s.options_of(poll_id), votes) == votes.filter(in_poll(poll_id)).len(),
    decreases votes.len(),
{
    reveal(Seq::filter);
    let options = s.options_of(poll_id);
    if votes.len() == 0 {
        lemma_no_votes_held(options);
        assert(votes =~= Seq::<Vote>::empty());
    } else {
        let v = votes.last();
        let before = votes.drop_last();
        assert forall|i: int| 0 <= i < before.len() implies s.option_of_poll(
            (#[trigger] before[i]).option_id,
            before[i].poll_id,
        ) by {
            assert(before[i] == votes[i]);
        }
        lemma_votes_held_total(s, poll_id, before);
        assert(votes =~= before.push(v));
        lemma_votes_held_push(options, before, v);
        before.lemma_filter_push(v, in_poll(poll_id));
        lemma_filter_keeps_ids(s.options, of_poll(poll_id), s.next_option_id);
        lemma_hits(options, v.option_id);
        lemma_filter_find(s.options, of_poll(poll_id), v.option_id);
        assert(s.option_of_poll(votes[votes.len() - 1].option_id, votes[votes.len() - 1].poll_id));
    }
}

/// Without votes no option holds any.
proof fn lemma_no_votes_held(options: Seq<PollOptionView>)
    ensures
        votes_held(options, Seq::<Vote>::empty()) == 0,
    decreases options.len(),
{
    reveal(Seq::filter);
    if options.len() > 0 {
        lemma_no_votes_held(options.drop_last());
    }
}

/// The vote counts of the options of a poll add up to the total of the
/// poll, exactly; so do the counts and the total of the results that a
/// viewer gets.
pub proof fn law_counts_add_up(s: StoreState, poll_id: i64, viewer_id: i64)
    requires
        s.wf(),
    ensures
        sum_counts(s.tallies(poll_id)) == s.total_votes(poll_id),
        match s.results(poll_id, viewer_id) {
            Ok(results) => sum_counts(results.options) == results.total_votes,
            Err(_) => true,
        },
{
    lemma_sum_counts(s, s.options_of(poll_id));
    lemma_votes_held_total(s, poll_id, s.votes);
    lemma_filter_members(s.votes, in_poll(poll_id));
}

/// The number of the votes that name the given option, or that name the
/// given poll.
fn count_votes(votes: &Vec<Vote>, option_id: Option<i64>, poll_id: Option<i64>) -> (n: i64)
    requires
        votes.len() <= i64::MAX,
        (option_id is Some) != (poll_id is Some),
    ensures
        option_id matches Some(o) ==> n == votes@.filter(on_option(o)).len(),
        poll_id matches Some(p) ==> n == votes@.filter(in_poll(p)).len(),
{
    let mut n: i64 = 0;
    let mut i: usize = 0;
    proof {
        reveal(Seq::filter);
        assert(votes@.take(0) =~= Seq::<Vote>::empty());
    }
    while i < votes.len()
        invariant
            i <= votes.len() <= i64::MAX,
            0 <= n <= i,
            (option_id is Some) != (poll_id is Some),
            option_id matches Some(o) ==> n == votes@.take(i as int).filter(on_option(o)).len(),
            poll_id matches Some(p) ==> n == votes@.take(i as int).filter(in_poll(p)).len(),
        decreases votes.len() - i,
    {
        let v = votes[i];
        proof {
            assert(votes@.take(i as int + 1) =~= votes@.take(i as int).push(v));
            match option_id {
                Some(o) => votes@.take(i as int).lemma_filter_push(v, on_option(o)),
                None => {},
            }
            match poll_id {
                Some(p) => votes@.take(i as int).lemma_filter_push(v, in_poll(p)),
                None => {},
            }
        }
        let counted = match option_id {
            Some(o) => v.option_id == o,
            None => match poll_id {
                Some(p) => v.poll_id == p,
                None => false,
            },
        };
        if counted {
            n = n + 1;
        }
        i += 1;
    }
    proof {
        assert(votes@.take(votes@.len() as int) =~= votes@);
    }
    n
}

impl Store {
    /// The poll with the id.
    pub fn get_poll(&self, poll_id: i64) -> (r: Option<Poll>)
        requires
            self.wf(),
        ensures
            match r {
                Some(poll) => find_id(self@.polls, poll_id) == Some(poll@),
                None => find_id(self@.polls, poll_id) is None,
            },
    {
        proof {
            self.view_is();
        }
        match self.poll_index(poll_id) {
            Some(i) => {
                proof {
                    lemma_find_at(self@.polls, i as int);
                }
                Some(self.polls[i].clone())
            },
            None => None,
        }
    }

    /// The options of the poll, in the order of their ids.
    pub fn get_poll_options(&self, poll_id: i64) -> (r: Vec<PollOption>)
        ensures
            option_views(r@) == self@.options_of(poll_id),
    {
        let mut out: Vec<PollOption> = Vec::new();
        let mut i: usize = 0;
        proof {
            self.view_is();
            reveal(Seq::filter);
            assert(self@.options.take(0) =~= Seq::<PollOptionView>::empty());
            assert(option_views(out@) =~= Seq::<PollOptionView>::empty());
        }
        while i < self.options.len()
            invariant
                i <= self.options.len(),
                self@.options == option_views(self.options@),
                option_views(out@) == self@.options.take(i as int).filter(of_poll(poll_id)),
            decreases self.options.len() - i,
        {
            proof {
                let o = self@.options[i as int];
                assert(self@.options.take(i as int + 1) =~= self@.options.take(i as int).push(o));
                self@.options.take(i as int).lemma_filter_push(o, of_poll(poll_id));
            }
            if self.options[i].poll_id == poll_id {
                let copy = self.options[i].clone();
                proof {
                    assert(option_views(out@.push(copy)) =~= option_views(out@).push(copy@));
                }
                out.push(copy);
            }
            i += 1;
        }
        proof {
            assert(self@.options.take(self@.options.len() as int) =~= self@.options);
        }
        out
    }

    /// The option of the user's oldest vote in the poll, if the user holds
    /// one.
    pub fn get_user_vote(&self, poll_id: i64, user_id: i64) -> (r: Option<i64>)
        ensures
            r == self@.user_vote(poll_id, user_id),
    {
        proof {
            self.view_is();
        }
        let mut i: usize = 0;
        while i < self.votes.len()
            invariant
                i <= self.votes.len(),
                self@.votes == self.votes@,
                forall|k: int| 0 <= k < i ==> !cast_by(poll_id, user_id)(#[trigger] self.votes@[k]),
            decreases self.votes.len() - i,
        {
            let v = self.votes[i];
            if v.poll_id == poll_id && v.user_id == user_id {
                proof {
                    lemma_filter_first(self.votes@, cast_by(poll_id, user_id), i as int);
                }
                return Some(v.option_id);
            }
            i += 1;
        }
        proof {
            lemma_filter_none(self.votes@, cast_by(poll_id, user_id));
        }
        None
    }

    /// The options on which the user holds a vote in the poll, oldest vote
    /// first.
    pub fn get_user_votes(&self, poll_id: i64, user_id: i64) -> (r: Vec<i64>)
        ensures
            r@ == self@.user_votes(poll_id, user_id),
    {
        let mut out: Vec<i64> = Vec::new();
        let mut i: usize = 0;
        let ghost chosen = |v: Vote| v.option_id;
        proof {
            self.view_is();
            reveal(Seq::filter);
            assert(self.votes@.take(0) =~= Seq::<Vote>::empty());
            assert(out@ =~= Seq::<Vote>::empty().map_values(chosen));
        }
        while i < self.votes.len()
            invariant
                i <= self.votes.len(),
                self@.votes == self.votes@,
                chosen == |v: Vote| v.option_id,
                out@ == self.votes@.take(i as int).filter(cast_by(poll_id, user_id)).map_values(
                    chosen,
                ),
            decreases self.votes.len() - i,
        {
            let v = self.votes[i];
            proof {
                let before = self.votes@.take(i as int);
                assert(self.votes@.take(i as int + 1) =~= before.push(v));
                before.lemma_filter_push(v, cast_by(poll_id, user_id));
                assert(before.filter(cast_by(poll_id, user_id)).push(v).map_values(chosen)
                    =~= before.filter(cast_by(poll_id, user_id)).map_values(chosen).push(
                    v.option_id,
                ));
            }
            if v.poll_id == poll_id && v.user_id == user_id {
                out.push(v.option_id);
            }
            i += 1;
        }
        proof {
            assert(self.votes@.take(self.votes@.len() as int) =~= self.votes@);
        }
        out
    }

    /// The options of the poll, each with its count, in the order of their
    /// ids.
    pub fn get_vote_counts(&self, poll_id: i64) -> (r: Vec<PollOptionWithVotes>)
        requires
            self.wf(),
        ensures
            tally_views(r@) == self@.tallies(poll_id),
    {
        let mut out: Vec<PollOptionWithVotes> = Vec::new();
        let mut i: usize = 0;
        let ghost tallied = |o: PollOptionView| self@.tally(o);
        proof {
            self.view_is();
            reveal(Seq::filter);
            assert(self@.options.take(0) =~= Seq::<PollOptionView>::empty());
            assert(tally_views(out@) =~= Seq::<PollOptionView>::empty().map_values(tallied));
        }
        while i < self.options.len()
            invariant
                i <= self.options.len(),
                self.wf(),
                self@.options == option_views(self.options@),
                self@.votes == self.votes@,
                tallied == |o: PollOptionView| self@.tally(o),
                tally_views(out@) == self@.options.take(i as int).filter(
                    of_poll(poll_id),
                ).map_values(tallied),
            decreases self.options.len() - i,
        {
            let ghost before = self@.options.take(i as int);
            let ghost o = self@.options[i as int];
            proof {
                assert(self@.options.take(i as int + 1) =~= before.push(o));
                before.lemma_filter_push(o, of_poll(poll_id));
                assert(before.filter(of_poll(poll_id)).push(o).map_values(tallied)
                    =~= before.filter(of_poll(poll_id)).map_values(tallied).push(self@.tally(o)));
            }
            if self.options[i].poll_id == poll_id {
                let option = &self.options[i];
                let row = PollOptionWithVotes {
                    id: option.id,
                    text: option.text.clone(),
                    is_date: option.is_date,
                    date_time: option.date_time,
                    vote_count: count_votes(&self.votes, Some(option.id), None),
                };
                proof {
                    assert(row@ == self@.tally(o));
                    assert(tally_views(out@.push(row)) =~= tally_views(out@).push(row@));
                }
                out.push(row);
            }
            i += 1;
        }
        proof {
            assert(self@.options.take(self@.options.len() as int) =~= self@.options);
        }
        out
    }

    /// The results of the poll for a viewer: the poll, its options with
    /// their counts, the total, and the viewer's own vote. The results of a
    /// poll that has closed are given like those of any other.
    pub fn get_results(&self, poll_id: i64, viewer_id: i64) -> (r: Result<PollResult, EngineError>)
        requires
            self.wf(),
        ensures
            match r {
                Ok(results) => self@.results(poll_id, viewer_id) == Ok::<
                    PollResultView,
                    EngineError,
                >(results@),
                Err(e) => self@.results(poll_id, viewer_id) == Err::<PollResultView, EngineError>(
                    e,
                ),
            },
    {
        let poll = match self.get_poll(poll_id) {
            Some(poll) => poll,
            None => {
                return Err(EngineError::PollNotFound);
            },
        };
        proof {
            self.view_is();
        }
        let options = self.get_vote_counts(poll_id);
        let total_votes = count_votes(&self.votes, None, Some(poll_id));
        let user_vote = self.get_user_vote(poll_id, viewer_id);
        let user_votes = self.get_user_votes(poll_id, viewer_id);
        Ok(PollResult { poll, options, total_votes, user_vote, user_votes })
    }
}

} // verus!
