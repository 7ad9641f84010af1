//! The data of the page that shows one poll to one user.
use crate::clock::Timestamp;
use crate::error::EngineError;
use crate::forms::{PollWithCreator, PollWithCreatorView};
use crate::models::copy_text;
use crate::results::{
    law_counts_add_up, sum_counts, tally_views, PollOptionWithVotes, PollOptionWithVotesView,
};
use crate::store::{Store, StoreState};
use vstd::prelude::*;

verus! {

/// An option as the page shows it to a user.
#[derive(Debug, PartialEq, Eq)]
pub struct OptionOnPage {
    pub id: i64,
    pub text: String,
    pub is_date: bool,
    pub date_time: Option<Timestamp>,
    pub vote_count: i64,
    /// Whether the user holds a vote on the option.
    pub is_voted: bool,
}

/// The mathematical view of a [`OptionOnPage`].
pub struct OptionOnPageView {
    pub id: i64,
    pub text: Seq<char>,
    pub is_date: bool,
    pub date_time: Option<Timestamp>,
    pub vote_count: i64,
    pub is_voted: bool,
}

impl View for OptionOnPage {
    type V = OptionOnPageView;

    open spec fn view(&self) -> OptionOnPageView {
        OptionOnPageView {
            id: self.id,
            text: self.text@,
            is_date: self.is_date,
            date_time: self.date_time,
            vote_count: self.vote_count,
            is_voted: self.is_voted,
        }
    }
}

/// A poll as the page shows it to a user.
#[derive(Debug, PartialEq, Eq)]
pub struct PollPage {
    pub id: i64,
    pub title: String,
    pub description: Option<String>,
    pub creator_id: i64,
    pub creator_username: String,
    pub created_at: Timestamp,
    pub expires_at: Option<Timestamp>,
    pub is_expired: bool,
    pub options: Vec<OptionOnPage>,
    pub total_votes: i64,
}

/// The mathematical view of a [`PollPage`].
pub struct PollPageView {
    pub id: i64,
    pub title: Seq<char>,
    pub description: Option<Seq<char>>,
    pub creator_id: i64,
    pub creator_username: Seq<char>,
    pub created_at: Timestamp,
    pub expires_at: Option<Timestamp>,
    pub is_expired: bool,
    pub options: Seq<OptionOnPageView>,
    pub total_votes: i64,
}

impl View for PollPage {
    type V = PollPageView;

    open spec fn view(&self) -> PollPageView {
        PollPageView {
            id: self.id,
            title: self.title@,
            description: crate::models::text_view(self.description),
            creator_id: self.creator_id,
            creator_username: self.creator_username@,
            created_at: self.created_at,
            expires_at: self.expires_at,
            is_expired: self.is_expired,
            options: self.options@.map_values(|o: OptionOnPage| o@),
            total_votes: self.total_votes,
        }
    }
}

/// The option as the page shows it to a user who holds the given votes.
pub open spec fn option_on_page(user_votes: Seq<i64>) -> spec_fn(
    PollOptionWithVotesView,
) -> OptionOnPageView {
    |o: PollOptionWithVotesView|
        OptionOnPageView {
            id: o.id,
            text: o.text,
            is_date: o.is_date,
            date_time: o.date_time,
            vote_count: o.vote_count,
            is_voted: user_votes.contains(o.id),
        }
}

/// The page of a poll at `now`: the poll, whether it has expired, its
/// options with their counts and with the user's votes marked, and the
/// sum of the counts.
pub open spec fn page_of(
    poll: PollWithCreatorView,
    options: Seq<PollOptionWithVotesView>,
    user_votes: Seq<i64>,
    now: Timestamp,
) -> PollPageView {
    PollPageView {
        id: poll.id,
        title: poll.title,
        description: poll.description,
        creator_id: poll.creator_id,
        creator_username: poll.creator_username,
        created_at: poll.created_at,
        expires_at: poll.expires_at,
        is_expired: poll.expired(now),
        options: options.map_values(option_on_page(user_votes)),
        total_votes: sum_counts(options) as i64,
    }
}

/// The counts are none of them negative.
pub open spec fn counts_are_counts(options: Seq<PollOptionWithVotesView>) -> bool {
    forall|k: int| 0 <= k < options.len() ==> 0 <= (#[trigger] options[k]).vote_count
}

/// The sum of counts is no smaller than the sum of the first of them.
proof fn lemma_sum_counts_grows(options: Seq<PollOptionWithVotesView>, k: int)
    requires
        counts_are_counts(options),
        0 <= k <= options.len(),
    ensures
        0 <= sum_counts(options.take(k)) <= sum_counts(options),
    decreases options.len() - k,
{
    if k == options.len() {
        assert(options.take(k) =~= options);
        lemma_sum_counts_positive(options);
    } else {
        lemma_sum_counts_grows(options, k + 1);
        assert(options.take(k + 1).drop_last() =~= options.take(k));
        assert(options.take(k + 1).last() == options[k]);
        assert(0 <= options[k].vote_count);
        let front = options.take(k);
        assert forall|j: int| 0 <= j < front.len() implies 0 <= (
        #[trigger] front[j]).vote_count by {
            assert(front[j] == options[j]);
        }
        lemma_sum_counts_positive(front);
    }
}

proof fn lemma_sum_counts_positive(options: Seq<PollOptionWithVotesView>)
    requires
        counts_are_counts(options),
    ensures
        0 <= sum_counts(options),
    decreases options.len(),
{
    if options.len() > 0 {
        let front = options.drop_last();
        assert forall|k: int| 0 <= k < front.len() implies 0 <= (
        #[trigger] front[k]).vote_count by {
            assert(front[k] == options[k]);
        }
        lemma_sum_counts_positive(front);
        assert(0 <= options[options.len() - 1].vote_count);
    }
}

/// Whether the list holds the id.
fn holds(ids: &Vec<i64>, id: i64) -> (r: bool)
    ensures
        r == ids@.contains(id),
{
    let mut i: usize = 0;
    while i < ids.len()
        invariant
            i <= ids.len(),
            forall|k: int| 0 <= k < i ==> ids@[k] != id,
        decreases ids.len() - i,
    {
        if ids[i] == id {
            return true;
        }
        i += 1;
    }
    false
}

/// Puts the data of the page of a poll together.
///
/// The counts must be counts, none of them negative, and their sum must
/// not leave the range of a 64-bit number.
pub fn format_poll_for_template(
    poll: &PollWithCreator,
    options: &Vec<PollOptionWithVotes>,
    user_votes: &Vec<i64>,
    now: Timestamp,
) -> (page: PollPage)
    requires
        counts_are_counts(tally_views(options@)),
        sum_counts(tally_views(options@)) <= i64::MAX,
    ensures
        page@ == page_of(poll@, tally_views(options@), user_votes@, now),
{
    let ghost all = tally_views(options@);
    let mut shown: Vec<OptionOnPage> = Vec::new();
    let mut total_votes: i64 = 0;
    let mut i: usize = 0;
    proof {
        assert(all.take(0) =~= Seq::<PollOptionWithVotesView>::empty());
    }
    while i < options.len()
        invariant
            i <= options.len(),
            all == tally_views(options@),
            counts_are_counts(all),
            sum_counts(all) <= i64::MAX,
            shown.len() == i,
            forall|k: int|
                0 <= k < i ==> (#[trigger] shown@[k])@ == option_on_page(user_votes@)(all[k]),
            total_votes == sum_counts(all.take(i as int)),
        decreases options.len() - i,
    {
        let option = &options[i];
        proof {
            lemma_sum_counts_grows(all, i as int + 1);
            assert(all.take(i as int + 1).drop_last() =~= all.take(i as int));
            assert(all.take(i as int + 1).last() == all[i as int]);
            assert(0 <= all[i as int].vote_count);
            lemma_sum_counts_grows(all, i as int);
        }
        shown.push(
            OptionOnPage {
                id: option.id,
                text: option.text.clone(),
                is_date: option.is_date,
                date_time: option.date_time,
                vote_count: option.vote_count,
                is_voted: holds(user_votes, option.id),
            },
        );
        total_votes = total_votes + option.vote_count;
        i += 1;
    }
    let is_expired = match &poll.expires_at {
        Some(end) => end.is_before(&now),
        None => false,
    };
    let page = PollPage {
        id: poll.id,
        title: poll.title.clone(),
        description: copy_text(&poll.description),
        creator_id: poll.creator_id,
        creator_username: poll.creator_username.clone(),
        created_at: poll.created_at,
        expires_at: poll.expires_at,
        is_expired,
        options: shown,
        total_votes,
    };
    proof {
        assert(all.take(all.len() as int) =~= all);
        assert(page@.options =~= all.map_values(option_on_page(user_votes@)));
    }
    page
}

impl StoreState {
    /// The page of the poll for the user at `now`; `PollNotFound` where
    /// no poll has the id or the poll's creator is unknown to the store.
    pub open spec fn poll_page(self, poll_id: i64, user_id: i64, now: Timestamp) -> Result<
        PollPageView,
        EngineError,
    > {
        match self.poll_with_creator(poll_id) {
            Ok(poll) => Ok(
                page_of(
                    poll,
                    self.tallies(poll_id),
                    self.user_votes(poll_id, user_id),
                    now,
                ),
            ),
            Err(e) => Err(e),
        }
    }
}

impl Store {
    /// The page of the poll for the user at `now`.
    pub fn poll_detail(&self, poll_id: i64, user_id: i64, now: Timestamp) -> (r: Result<
        PollPage,
        EngineError,
    >)
        requires
            self.wf(),
        ensures
            match r {
                Ok(page) => self@.poll_page(poll_id, user_id, now) == Ok::<
                    PollPageView,
                    EngineError,
                >(page@),
                Err(e) => self@.poll_page(poll_id, user_id, now) == Err::<
                    PollPageView,
                    EngineError,
                >(e),
            },
    {
        let poll = match self.get_poll_by_id(poll_id) {
            Ok(poll) => poll,
            Err(e) => {
                return Err(e);
            },
        };
        let options = self.get_vote_counts(poll_id);
        let user_votes = self.get_user_votes(poll_id, user_id);
        proof {
            law_counts_add_up(self@, poll_id, user_id);
            crate::rows::lemma_filter_members(self@.votes, crate::results::in_poll(poll_id));
        }
        Ok(format_poll_for_template(&poll, &options, &user_votes, now))
    }
}

} // verus!
