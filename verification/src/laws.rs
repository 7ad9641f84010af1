//! The laws of the engine: what holds of its operations taken together,
//! stated over the view of the store and proved from the operations' own
//! definitions.
use crate::clock::Timestamp;
use crate::error::EngineError;
use crate::forms::CreatePollRequestView;
use crate::ledger::{cast_by, lemma_cast_vote_wf, not_cast_by, not_on_option_by, on_option_by};
use crate::models::{PollView, UserInfoView, VoteOutcome, VotingMode};
use crate::create::lemma_create_poll_wf;
use crate::delete::{
    lemma_votes_outside, lemma_without_poll_wf, options_outside, votes_of_other_polls,
    votes_outside,
};
use crate::update::lemma_swept_wf;
use crate::results::{in_poll, of_poll, on_option, PollResultView};
use crate::rows::{
    find_id, has_id, index_of_id, lemma_filter_absorb, lemma_filter_all, lemma_filter_apart,
    lemma_filter_disjoint, lemma_filter_members, lemma_filter_none, lemma_find_at,
    lemma_remove_row,
};
use crate::store::StoreState;
use vstd::prelude::*;

verus! {

/// One cast of a run: the option chosen and the time of the call.
pub struct Cast {
    pub option_id: i64,
    pub now: Timestamp,
}

/// The store after a user's single-choice casts in a poll, made in order.
pub open spec fn single_choice_run(s: StoreState, poll_id: i64, voter_id: i64, casts: Seq<Cast>)
    -> StoreState
    decreases casts.len(),
{
    if casts.len() == 0 {
        s
    } else {
        let before = single_choice_run(s, poll_id, voter_id, casts.drop_last());
        before.cast_vote(
            poll_id,
            casts.last().option_id,
            voter_id,
            VotingMode::SingleChoice,
            casts.last().now,
        ).0
    }
}

/// The option of the last cast of the run that succeeded, if any did.
pub open spec fn last_recorded(s: StoreState, poll_id: i64, voter_id: i64, casts: Seq<Cast>)
    -> Option<i64>
    decreases casts.len(),
{
    if casts.len() == 0 {
        None
    } else {
        let before = single_choice_run(s, poll_id, voter_id, casts.drop_last());
        let result = before.cast_vote(
            poll_id,
            casts.last().option_id,
            voter_id,
            VotingMode::SingleChoice,
            casts.last().now,
        ).1;
        if result is Ok {
            Some(casts.last().option_id)
        } else {
            last_recorded(s, poll_id, voter_id, casts.drop_last())
        }
    }
}

/// A single-choice cast that succeeds leaves the voter with exactly one vote
/// in the poll, the one just written for the chosen option; the votes of
/// every other pair of poll and user stay as they were. A cast that fails
/// changes nothing.
pub proof fn law_single_choice_replaces(
    s: StoreState,
    poll_id: i64,
    option_id: i64,
    voter_id: i64,
    now: Timestamp,
)
    requires
        s.wf(),
    ensures
        ({
            let (t, r) = s.cast_vote(poll_id, option_id, voter_id, VotingMode::SingleChoice, now);
            &&& t.wf()
            &&& r is Ok ==> r == Ok::<VoteOutcome, EngineError>(VoteOutcome::Recorded)
                && t.votes_of(poll_id, voter_id) == seq![
                s.new_vote(poll_id, option_id, voter_id, now),
            ]
            &&& r is Ok ==> forall|p: i64, u: i64|
                (p != poll_id || u != voter_id) ==> #[trigger] t.votes_of(p, u) == s.votes_of(p, u)
            &&& r is Err ==> t == s
        }),
{
    let (t, r) = s.cast_vote(poll_id, option_id, voter_id, VotingMode::SingleChoice, now);
    lemma_cast_vote_wf(s, poll_id, option_id, voter_id, VotingMode::SingleChoice, now);
    if r is Ok {
        let vote = s.new_vote(poll_id, option_id, voter_id, now);
        let kept = s.votes.filter(not_cast_by(poll_id, voter_id));
        lemma_filter_disjoint(s.votes, not_cast_by(poll_id, voter_id), cast_by(poll_id, voter_id));
        kept.lemma_filter_push(vote, cast_by(poll_id, voter_id));
        assert(t.votes_of(poll_id, voter_id) =~= seq![vote]);
        assert forall|p: i64, u: i64| (p != poll_id || u != voter_id) implies #[trigger] t.votes_of(
            p,
            u,
        ) == s.votes_of(p, u) by {
            lemma_filter_absorb(s.votes, not_cast_by(poll_id, voter_id), cast_by(p, u));
            kept.lemma_filter_push(vote, cast_by(p, u));
        }
    }
}

/// Whatever single-choice casts a user makes in a poll, and in whatever
/// order: once one of them has succeeded the user holds exactly one vote in
/// the poll, and it names the option of the last cast that succeeded. Until
/// then the user's votes in the poll are those from before the run.
pub proof fn law_single_choice_run(s: StoreState, poll_id: i64, voter_id: i64, casts: Seq<Cast>)
    requires
        s.wf(),
    ensures
        ({
            let t = single_choice_run(s, poll_id, voter_id, casts);
            &&& t.wf()
            &&& match last_recorded(s, poll_id, voter_id, casts) {
                Some(option_id) => t.votes_of(poll_id, voter_id).len() == 1 && t.votes_of(
                    poll_id,
                    voter_id,
                )[0].option_id == option_id,
                None => t == s,
            }
        }),
    decreases casts.len(),
{
    if casts.len() > 0 {
        let before = single_choice_run(s, poll_id, voter_id, casts.drop_last());
        law_single_choice_run(s, poll_id, voter_id, casts.drop_last());
        law_single_choice_replaces(
            before,
            poll_id,
            casts.last().option_id,
            voter_id,
            casts.last().now,
        );
    }
}

/// The store after a user's multi-choice casts on one option, made at the
/// given times in order.
pub open spec fn toggle_run(
    s: StoreState,
    poll_id: i64,
    option_id: i64,
    voter_id: i64,
    times: Seq<Timestamp>,
) -> StoreState
    decreases times.len(),
{
    if times.len() == 0 {
        s
    } else {
        toggle_run(s, poll_id, option_id, voter_id, times.drop_last()).cast_vote(
            poll_id,
            option_id,
            voter_id,
            VotingMode::MultiChoice,
            times.last(),
        ).0
    }
}

/// How many casts of the run succeeded.
pub open spec fn toggles_done(
    s: StoreState,
    poll_id: i64,
    option_id: i64,
    voter_id: i64,
    times: Seq<Timestamp>,
) -> nat
    decreases times.len(),
{
    if times.len() == 0 {
        0
    } else {
        let before = toggle_run(s, poll_id, option_id, voter_id, times.drop_last());
        let done = toggles_done(s, poll_id, option_id, voter_id, times.drop_last());
        if before.cast_vote(poll_id, option_id, voter_id, VotingMode::MultiChoice, times.last()).1
            is Ok {
            done + 1
        } else {
            done
        }
    }
}

/// A multi-choice cast that succeeds flips the voter's vote on the option:
/// it is there afterwards exactly if it was not there before, and the
/// outcome says which. The voter's votes on other options, and the votes of
/// other users, stay. A cast that fails changes nothing.
pub proof fn law_toggle_flips(
    s: StoreState,
    poll_id: i64,
    option_id: i64,
    voter_id: i64,
    now: Timestamp,
)
    requires
        s.wf(),
    ensures
        ({
            let (t, r) = s.cast_vote(poll_id, option_id, voter_id, VotingMode::MultiChoice, now);
            &&& t.wf()
            &&& r is Ok ==> t.has_vote_on(option_id, voter_id) == !s.has_vote_on(
                option_id,
                voter_id,
            )
            &&& r is Ok ==> (r == Ok::<VoteOutcome, EngineError>(VoteOutcome::Removed))
                == s.has_vote_on(option_id, voter_id)
            &&& r is Ok ==> forall|o: i64, u: i64|
                (o != option_id || u != voter_id) ==> #[trigger] t.votes.filter(on_option_by(o, u))
                    == s.votes.filter(on_option_by(o, u))
            &&& r is Err ==> t == s
        }),
{
    let (t, r) = s.cast_vote(poll_id, option_id, voter_id, VotingMode::MultiChoice, now);
    lemma_cast_vote_wf(s, poll_id, option_id, voter_id, VotingMode::MultiChoice, now);
    if r is Ok {
        let vote = s.new_vote(poll_id, option_id, voter_id, now);
        if s.has_vote_on(option_id, voter_id) {
            lemma_filter_disjoint(
                s.votes,
                not_on_option_by(option_id, voter_id),
                on_option_by(option_id, voter_id),
            );
            assert forall|o: i64, u: i64| (o != option_id || u != voter_id) implies (
            #[trigger] t.votes.filter(on_option_by(o, u))) == s.votes.filter(
                on_option_by(o, u),
            ) by {
                lemma_filter_absorb(
                    s.votes,
                    not_on_option_by(option_id, voter_id),
                    on_option_by(o, u),
                );
            }
        } else {
            s.votes.lemma_filter_push(vote, on_option_by(option_id, voter_id));
            assert forall|o: i64, u: i64| (o != option_id || u != voter_id) implies (
            #[trigger] t.votes.filter(on_option_by(o, u))) == s.votes.filter(
                on_option_by(o, u),
            ) by {
                s.votes.lemma_filter_push(vote, on_option_by(o, u));
            }
        }
    }
}

/// Whatever multi-choice casts a user makes on one option: the vote is
/// there afterwards exactly if it was there before and an even number of
/// casts succeeded, or was not there and an odd number did. For a user
/// who held no vote on the option, an odd count leaves the vote present
/// and an even count leaves it absent.
pub proof fn law_toggle_parity(
    s: StoreState,
    poll_id: i64,
    option_id: i64,
    voter_id: i64,
    times: Seq<Timestamp>,
)
    requires
        s.wf(),
    ensures
        ({
            let t = toggle_run(s, poll_id, option_id, voter_id, times);
            let done = toggles_done(s, poll_id, option_id, voter_id, times);
            &&& t.wf()
            &&& t.has_vote_on(option_id, voter_id) == (s.has_vote_on(option_id, voter_id) != (done
                % 2 == 1))
        }),
    decreases times.len(),
{
    if times.len() > 0 {
        let before = toggle_run(s, poll_id, option_id, voter_id, times.drop_last());
        law_toggle_parity(s, poll_id, option_id, voter_id, times.drop_last());
        law_toggle_flips(before, poll_id, option_id, voter_id, times.last());
    }
}

/// A poll that has just been created has no votes: its results show the
/// options of the request in their order, each with the count 0, the
/// total 0, and no vote of the viewer.
pub proof fn law_new_poll_has_no_votes(
    s: StoreState,
    creator_id: i64,
    request: CreatePollRequestView,
    now: Timestamp,
    viewer_id: i64,
)
    requires
        s.wf(),
        request.options.len() >= 2,
    ensures
        ({
            let (t, created) = s.create_poll(creator_id, request, now);
            created matches Ok(response) ==> {
                &&& t.wf()
                &&& response.poll.is_active
                &&& response.options.len() == request.options.len()
                &&& t.results(response.poll.id, viewer_id) matches Ok(results)
                &&& results.poll == response.poll
                &&& results.total_votes == 0
                &&& results.user_vote is None
                &&& results.user_votes.len() == 0
                &&& results.options.len() == request.options.len()
                &&& forall|k: int|
                    0 <= k < results.options.len() ==> {
                        &&& (#[trigger] results.options[k]).vote_count == 0
                        &&& results.options[k].id == response.options[k].id
                        &&& results.options[k].text == request.options[k].text
                    }
            }
        }),
{
    let (t, created) = s.create_poll(creator_id, request, now);
    lemma_create_poll_wf(s, creator_id, request, now);
    if created is Ok {
        let poll_id = s.next_poll_id;
        let fresh = s.new_options(request.options);
        crate::rows::lemma_push_row(s.polls, s.new_poll(creator_id, request, now), s.next_poll_id);
        assert(find_id(t.polls, poll_id) == Some(s.new_poll(creator_id, request, now)));
        // no vote names the new poll, nor one of its options
        assert forall|i: int| 0 <= i < s.votes.len() implies (#[trigger] s.votes[i]).poll_id
            < poll_id && s.votes[i].option_id < s.next_option_id by {
            let v = s.votes[i];
            assert(s.option_of_poll(v.option_id, v.poll_id));
            let o = index_of_id(s.options, v.option_id);
            assert(0 <= o < s.options.len() && s.options[o].id == v.option_id);
            assert(has_id(s.polls, s.options[o].poll_id));
            let p = index_of_id(s.polls, s.options[o].poll_id);
            assert(0 < s.polls[p].id < s.next_poll_id);
        }
        lemma_filter_none(t.votes, in_poll(poll_id));
        lemma_filter_none(t.votes, cast_by(poll_id, viewer_id));
        // the options of the new poll are the new options
        assert forall|i: int| 0 <= i < s.options.len() implies !of_poll(poll_id)(
            #[trigger] s.options[i],
        ) by {
            assert(has_id(s.polls, s.options[i].poll_id));
            let p = index_of_id(s.polls, s.options[i].poll_id);
            assert(0 < s.polls[p].id < s.next_poll_id);
        }
        lemma_filter_none(s.options, of_poll(poll_id));
        lemma_filter_all(fresh, of_poll(poll_id));
        Seq::filter_distributes_over_add(s.options, fresh, of_poll(poll_id));
        assert(s.options.filter(of_poll(poll_id)) + fresh.filter(of_poll(poll_id)) =~= fresh);
        assert(t.options_of(poll_id) == fresh);
        let results = t.results(poll_id, viewer_id)->Ok_0;
        assert forall|k: int| 0 <= k < results.options.len() implies {
            &&& (#[trigger] results.options[k]).vote_count == 0
            &&& results.options[k].id == fresh[k].id
            &&& results.options[k].text == request.options[k].text
        } by {
            lemma_filter_none(t.votes, on_option(fresh[k].id));
        }
    }
}

/// Without the permission a delete fails with `Forbidden` and changes
/// nothing: an identity that is no administrator and did not create the
/// poll leaves the poll, its options and its votes as they were.
pub proof fn law_delete_needs_permission(s: StoreState, poll_id: i64, identity: UserInfoView)
    requires
        s.wf(),
        !identity.is_admin,
        match find_id(s.polls, poll_id) {
            Some(poll) => poll.created_by != identity.id,
            None => true,
        },
    ensures
        s.delete_poll(poll_id, identity) == (s, Err::<(), EngineError>(EngineError::Forbidden)),
{
}

/// A delete by the poll's creator or by an administrator succeeds and takes
/// out the poll, every option of the poll and every vote that names the
/// poll or one of its options. Asking for the poll's results afterwards
/// gives `PollNotFound`. The rows of every other poll stay as they were.
pub proof fn law_delete_cascades(
    s: StoreState,
    poll_id: i64,
    identity: UserInfoView,
    viewer_id: i64,
)
    requires
        s.wf(),
        s.may_delete(poll_id, identity),
    ensures
        ({
            let (t, r) = s.delete_poll(poll_id, identity);
            &&& r is Ok
            &&& t.wf()
            &&& !has_id(t.polls, poll_id)
            &&& t.options_of(poll_id).len() == 0
            &&& forall|i: int|
                0 <= i < t.options.len() ==> (#[trigger] t.options[i]).poll_id != poll_id
            &&& forall|i: int|
                0 <= i < t.votes.len() ==> (#[trigger] t.votes[i]).poll_id != poll_id
                    && !s.option_of_poll(t.votes[i].option_id, poll_id)
            &&& t.total_votes(poll_id) == 0
            &&& t.results(poll_id, viewer_id) == Err::<PollResultView, EngineError>(
                EngineError::PollNotFound,
            )
            &&& forall|other: i64|
                other != poll_id ==> {
                    &&& #[trigger] find_id(t.polls, other) == find_id(s.polls, other)
                    &&& t.options_of(other) == s.options_of(other)
                    &&& t.total_votes(other) == s.total_votes(other)
                }
        }),
{
    let (t, r) = s.delete_poll(poll_id, identity);
    lemma_without_poll_wf(s, poll_id);
    lemma_votes_outside(s, poll_id);
    lemma_filter_members(s.votes, votes_of_other_polls(poll_id));
    lemma_filter_members(s.votes, votes_outside(s, poll_id));
    lemma_filter_members(s.options, options_outside(poll_id));
    if has_id(s.polls, poll_id) {
        let i = index_of_id(s.polls, poll_id);
        lemma_remove_row(s.polls, i, s.next_poll_id);
        lemma_find_at(s.polls, i);
        assert(find_id(t.polls, poll_id) is None);
    }
    lemma_filter_disjoint(s.options, options_outside(poll_id), of_poll(poll_id));
    lemma_filter_disjoint(s.votes, votes_of_other_polls(poll_id), in_poll(poll_id));
    assert forall|other: i64| other != poll_id implies {
        &&& #[trigger] find_id(t.polls, other) == find_id(s.polls, other)
        &&& t.options_of(other) == s.options_of(other)
        &&& t.total_votes(other) == s.total_votes(other)
    } by {
        lemma_filter_absorb(s.options, options_outside(poll_id), of_poll(other));
        lemma_filter_absorb(s.votes, votes_of_other_polls(poll_id), in_poll(other));
    }
}

/// Nobody changes their own role: a change of role whose target is the
/// acting user fails with `Forbidden` and changes nothing, whether or not
/// the user is an administrator and whether or not the user exists.
pub proof fn law_no_self_role_change(s: StoreState, user_id: i64, set_admin: bool)
    ensures
        s.set_role(user_id, set_admin, user_id) == (
            s,
            Err::<(), EngineError>(EngineError::Forbidden),
        ),
{
}

/// Expiry is final: a poll that has expired at one instant has expired at
/// every later one, and takes no votes then, whatever its flag says.
pub proof fn law_expiry_is_final(poll: PollView, now: Timestamp, later: Timestamp)
    requires
        poll.expired(now),
        !later.before(now),
    ensures
        poll.expired(later),
        !poll.open_at(later),
{
}

/// The sweep closes polls and opens none. After the sweep at `now` the flag
/// of each poll says whether the poll takes votes at `now`; nothing else
/// changes, a second sweep at the same instant finds nothing to do, and a
/// cast at `now` fares after the sweep as it would have before.
pub proof fn law_sweep_closes_only(s: StoreState, now: Timestamp)
    requires
        s.wf(),
    ensures
        ({
            let t = s.swept(now);
            &&& t.wf()
            &&& t.polls.len() == s.polls.len()
            &&& forall|i: int|
                0 <= i < t.polls.len() ==> (#[trigger] t.polls[i]) == (PollView {
                    is_active: s.polls[i].open_at(now),
                    ..s.polls[i]
                })
            &&& t.swept(now) == t
            &&& forall|poll_id: i64, option_id: i64, voter_id: i64, mode: VotingMode|
                #![trigger t.cast_vote(poll_id, option_id, voter_id, mode, now)]
                t.cast_vote(poll_id, option_id, voter_id, mode, now).1 == s.cast_vote(
                    poll_id,
                    option_id,
                    voter_id,
                    mode,
                    now,
                ).1
        }),
{
    let t = s.swept(now);
    lemma_swept_wf(s, now);
    assert(t.swept(now).polls =~= t.polls);
    assert forall|poll_id: i64, option_id: i64, voter_id: i64, mode: VotingMode|
        #![trigger t.cast_vote(poll_id, option_id, voter_id, mode, now)]
        t.cast_vote(poll_id, option_id, voter_id, mode, now).1 == s.cast_vote(
            poll_id,
            option_id,
            voter_id,
            mode,
            now,
        ).1 by {
        if has_id(s.polls, poll_id) {
            let i = index_of_id(s.polls, poll_id);
            assert(t.polls[i].id == poll_id);
            lemma_find_at(t.polls, i);
            lemma_find_at(s.polls, i);
        }
        if has_id(t.polls, poll_id) {
            let i = index_of_id(t.polls, poll_id);
            assert(s.polls[i].id == poll_id);
            lemma_find_at(t.polls, i);
            lemma_find_at(s.polls, i);
        }
    }
}

/// A cast in one poll leaves every other poll alone: the results of another
/// poll are after the cast what they were before it, for every viewer and
/// in either voting mode.
pub proof fn law_cast_leaves_other_polls(
    s: StoreState,
    poll_id: i64,
    option_id: i64,
    voter_id: i64,
    mode: VotingMode,
    now: Timestamp,
    other: i64,
    viewer_id: i64,
)
    requires
        s.wf(),
        other != poll_id,
    ensures
        s.cast_vote(poll_id, option_id, voter_id, mode, now).0.results(other, viewer_id)
            == s.results(other, viewer_id),
{
    let (t, r) = s.cast_vote(poll_id, option_id, voter_id, mode, now);
    if r is Ok {
        let vote = s.new_vote(poll_id, option_id, voter_id, now);
        // what went is a vote in the poll, and so is what came
        let kept = match mode {
            VotingMode::SingleChoice => not_cast_by(poll_id, voter_id),
            VotingMode::MultiChoice => not_on_option_by(option_id, voter_id),
        };
        let removes = mode == VotingMode::SingleChoice || s.has_vote_on(option_id, voter_id);
        let adds = mode == VotingMode::SingleChoice || !s.has_vote_on(option_id, voter_id);
        let left = if removes {
            s.votes.filter(kept)
        } else {
            s.votes
        };
        assert(t.votes == if adds {
            left.push(vote)
        } else {
            left
        });
        assert forall|i: int|
            0 <= i < s.votes.len() && !kept(#[trigger] s.votes[i]) implies s.votes[i].poll_id
            == poll_id by {
            assert(s.option_of_poll(s.votes[i].option_id, s.votes[i].poll_id));
        }
        // the votes of the other poll stay
        assert(t.votes.filter(in_poll(other)) == s.votes.filter(in_poll(other))) by {
            if removes {
                lemma_filter_apart(s.votes, kept, in_poll(other));
            }
            if adds {
                left.lemma_filter_push(vote, in_poll(other));
            }
        }
        assert(t.votes.filter(cast_by(other, viewer_id)) == s.votes.filter(
            cast_by(other, viewer_id),
        )) by {
            if removes {
                lemma_filter_apart(s.votes, kept, cast_by(other, viewer_id));
            }
            if adds {
                left.lemma_filter_push(vote, cast_by(other, viewer_id));
            }
        }
        // and so do the votes on each of its options
        let options = s.options_of(other);
        lemma_filter_members(s.options, of_poll(other));
        assert forall|k: int| 0 <= k < options.len() implies t.tally(#[trigger] options[k])
            == s.tally(options[k]) by {
            let o = options[k];
            let m = choose|m: int| 0 <= m < s.options.len() && s.options[m] == o;
            lemma_find_at(s.options, m);
            assert forall|i: int|
                0 <= i < s.votes.len() && on_option(o.id)(#[trigger] s.votes[i]) implies kept(
                s.votes[i],
            ) by {
                assert(s.option_of_poll(s.votes[i].option_id, s.votes[i].poll_id));
            }
            if removes {
                lemma_filter_apart(s.votes, kept, on_option(o.id));
            }
            if adds {
                left.lemma_filter_push(vote, on_option(o.id));
            }
        }
        assert(t.tallies(other) =~= s.tallies(other));
    }
}

} // verus!
