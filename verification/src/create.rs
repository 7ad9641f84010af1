//! The creation of polls, from a request with its list of options and
//! from the fields of a form, and the adding of options to a poll.
use crate::clock::{form_instant, parse_form_instant, Timestamp};
use crate::error::EngineError;
use crate::forms::{
    CreatePollOptionRequest, CreatePollOptionRequestView, CreatePollRequest,
    CreatePollRequestView, NewPollForm, NewPollFormView, PollResponse, PollResponseView,
};
use crate::models::{copy_text, Poll, PollOption, PollOptionView, PollView, UserInfo};
use crate::rows::{find_id, has_id, lemma_append_rows, lemma_push_row};
use crate::store::{option_views, Store, StoreState};
use crate::text::{
    is_blank, is_blank_text, looks_like_date, option_texts, split_options, text_looks_like_date,
    texts_of,
};
use vstd::prelude::*;

verus! {

/// The least number of options of a poll.
pub const MIN_OPTIONS: usize = 2;

/// The option that a text of a form names. A text that looks like a date
/// is read as one; where it cannot be read, it stays an option of plain
/// text.
pub open spec fn option_request(text: Seq<char>) -> CreatePollOptionRequestView {
    CreatePollOptionRequestView {
        text,
        datetime_option: if looks_like_date(text) {
            form_instant(text)
        } else {
            None
        },
    }
}

/// The request that a form for a new poll makes, given the instant of its
/// expiry.
pub open spec fn form_request(form: NewPollFormView, expires_at: Timestamp)
    -> CreatePollRequestView {
    CreatePollRequestView {
        title: form.title,
        description: form.description,
        options: option_texts(form.options).map_values(|text: Seq<char>| option_request(text)),
        expires_at: Some(expires_at),
    }
}

impl StoreState {
    /// The row of a new poll: it gets the next id and starts active.
    pub open spec fn new_poll(self, creator_id: i64, request: CreatePollRequestView, now: Timestamp)
        -> PollView {
        PollView {
            id: self.next_poll_id,
            title: request.title,
            description: request.description,
            created_by: creator_id,
            created_at: now,
            expires_at: request.expires_at,
            is_active: true,
        }
    }

    /// The row of the `k`-th option of a new poll. An option is a calendar
    /// choice exactly if it carries a date and time.
    pub open spec fn new_option(self, k: int, option: CreatePollOptionRequestView)
        -> PollOptionView {
        PollOptionView {
            id: (self.next_option_id + k) as i64,
            poll_id: self.next_poll_id,
            text: option.text,
            is_date: option.datetime_option is Some,
            date_time: option.datetime_option,
        }
    }

    /// The rows of the options of a new poll, in the order of the request.
    pub open spec fn new_options(self, options: Seq<CreatePollOptionRequestView>) -> Seq<
        PollOptionView,
    > {
        Seq::new(options.len(), |k: int| self.new_option(k, options[k]))
    }

    /// Why a poll is not created, if it is not: its title trims to
    /// nothing; or it has fewer than two options; or the ids for the poll
    /// or its options have run out. The checks are made in this order.
    pub open spec fn create_refusal(self, request: CreatePollRequestView) -> Option<EngineError> {
        if is_blank(request.title) {
            Some(EngineError::EmptyTitle)
        } else if request.options.len() < MIN_OPTIONS {
            Some(EngineError::TooFewOptions)
        } else if self.next_poll_id == i64::MAX || self.next_option_id + request.options.len()
            > i64::MAX {
            Some(EngineError::StoreFull)
        } else {
            None
        }
    }

    /// The store with one more poll and its options.
    pub open spec fn with_poll(self, poll: PollView, options: Seq<PollOptionView>) -> StoreState {
        StoreState {
            polls: self.polls.push(poll),
            options: self.options + options,
            next_poll_id: (self.next_poll_id + 1) as i64,
            next_option_id: (self.next_option_id + options.len()) as i64,
            ..self
        }
    }

    /// The creation of a poll: the store after it, and what the caller is
    /// told. A poll is written with all its options or not at all; the new
    /// poll comes back with its options and without a vote of the viewer.
    pub open spec fn create_poll(
        self,
        creator_id: i64,
        request: CreatePollRequestView,
        now: Timestamp,
    ) -> (StoreState, Result<PollResponseView, EngineError>) {
        match self.create_refusal(request) {
            Some(e) => (self, Err(e)),
            None => {
                let poll = self.new_poll(creator_id, request, now);
                let options = self.new_options(request.options);
                (
                    self.with_poll(poll, options),
                    Ok(PollResponseView { poll, options, user_vote: None }),
                )
            },
        }
    }

    /// The creation of a poll from a form: `InvalidExpiry` where the
    /// expiry cannot be read; else the creation of the poll that the form
    /// asks for, which hands back the id of the new poll.
    pub open spec fn create_poll_from_form(
        self,
        form: NewPollFormView,
        user_id: i64,
        now: Timestamp,
    ) -> (StoreState, Result<i64, EngineError>) {
        match form_instant(form.expires_at) {
            None => (self, Err(EngineError::InvalidExpiry)),
            Some(expires_at) => {
                let (after, outcome) = self.create_poll(
                    user_id,
                    form_request(form, expires_at),
                    now,
                );
                (
                    after,
                    match outcome {
                        Ok(response) => Ok(response.poll.id),
                        Err(e) => Err(e),
                    },
                )
            },
        }
    }

    /// One more option for a poll: the store after it, and the id of the
    /// option.
    pub open spec fn add_option(self, poll_id: i64, option: CreatePollOptionRequestView) -> (
        StoreState,
        Result<i64, EngineError>,
    ) {
        if !has_id(self.polls, poll_id) {
            (self, Err(EngineError::PollNotFound))
        } else if self.next_option_id == i64::MAX {
            (self, Err(EngineError::StoreFull))
        } else {
            (
                StoreState {
                    options: self.options.push(
                        PollOptionView {
                            id: self.next_option_id,
                            poll_id,
                            text: option.text,
                            is_date: option.datetime_option is Some,
                            date_time: option.datetime_option,
                        },
                    ),
                    next_option_id: (self.next_option_id + 1) as i64,
                    ..self
                },
                Ok(self.next_option_id),
            )
        }
    }
}

/// The creation of a poll keeps the invariant.
pub proof fn lemma_create_poll_wf(
    s: StoreState,
    creator_id: i64,
    request: CreatePollRequestView,
    now: Timestamp,
)
    requires
        s.wf(),
    ensures
        s.create_poll(creator_id, request, now).0.wf(),
{
    if s.create_refusal(request) is None {
        let poll = s.new_poll(creator_id, request, now);
        let options = s.new_options(request.options);
        let t = s.with_poll(poll, options);
        lemma_push_row(s.polls, poll, s.next_poll_id);
        lemma_append_rows(s.options, options, s.next_option_id);
        assert forall|i: int| 0 <= i < t.options.len() implies has_id(
            t.polls,
            (#[trigger] t.options[i]).poll_id,
        ) by {
            if i < s.options.len() {
                assert(has_id(s.polls, s.options[i].poll_id));
                assert(find_id(s.polls, s.options[i].poll_id) is Some);
                assert(find_id(t.polls, s.options[i].poll_id) is Some);
            } else {
                assert(t.options[i] == options[i - s.options.len()]);
                assert(find_id(t.polls, s.next_poll_id) is Some);
            }
        }
        assert forall|i: int| 0 <= i < t.votes.len() implies t.option_of_poll(
            (#[trigger] t.votes[i]).option_id,
            t.votes[i].poll_id,
        ) by {
            assert(s.option_of_poll(s.votes[i].option_id, s.votes[i].poll_id));
            assert(has_id(s.options, s.votes[i].option_id));
        }
    }
}

/// One more option keeps the invariant.
pub proof fn lemma_add_option_wf(s: StoreState, poll_id: i64, option: CreatePollOptionRequestView)
    requires
        s.wf(),
    ensures
        s.add_option(poll_id, option).0.wf(),
{
    let t = s.add_option(poll_id, option).0;
    if t != s {
        lemma_push_row(s.options, t.options.last(), s.next_option_id);
        assert forall|i: int| 0 <= i < t.options.len() implies has_id(
            t.polls,
            (#[trigger] t.options[i]).poll_id,
        ) by {
            if i < s.options.len() {
                assert(has_id(s.polls, s.options[i].poll_id));
            }
        }
        assert forall|i: int| 0 <= i < t.votes.len() implies t.option_of_poll(
            (#[trigger] t.votes[i]).option_id,
            t.votes[i].poll_id,
        ) by {
            assert(s.option_of_poll(s.votes[i].option_id, s.votes[i].poll_id));
            assert(find_id(t.options, s.votes[i].option_id) == find_id(
                s.options,
                s.votes[i].option_id,
            ));
        }
    }
}

/// Copies of the options, in order.
pub fn copy_options(options: &Vec<PollOption>) -> (r: Vec<PollOption>)
    ensures
        option_views(r@) == option_views(options@),
{
    let mut out: Vec<PollOption> = Vec::new();
    let mut i: usize = 0;
    while i < options.len()
        invariant
            i <= options.len(),
            out.len() == i,
            forall|k: int| 0 <= k < i ==> (#[trigger] out@[k])@ == options@[k]@,
        decreases options.len() - i,
    {
        out.push(options[i].clone());
        i += 1;
    }
    proof {
        assert(option_views(out@) =~= option_views(options@));
    }
    out
}

/// The option that the text of a form names.
pub fn read_option(text: String) -> (r: CreatePollOptionRequest)
    ensures
        r@ == option_request(text@),
{
    let datetime_option = if text_looks_like_date(text.as_str()) {
        parse_form_instant(text.as_str())
    } else {
        None
    };
    CreatePollOptionRequest { text, datetime_option }
}

/// The request that a form for a new poll makes: its expiry is read, its
/// list of options is split, and each option that looks like a date is
/// read as one.
pub fn read_poll_form(form: &NewPollForm) -> (r: Result<CreatePollRequest, EngineError>)
    ensures
        match form_instant(form@.expires_at) {
            Some(expires_at) => r is Ok && r->Ok_0@ == form_request(form@, expires_at),
            None => r == Err::<CreatePollRequest, EngineError>(EngineError::InvalidExpiry),
        },
{
    let expires_at = match parse_form_instant(form.expires_at.as_str()) {
        Some(expires_at) => expires_at,
        None => {
            return Err(EngineError::InvalidExpiry);
        },
    };
    let texts = split_options(form.options.as_str());
    let ghost all = texts@;
    let ghost read = |text: Seq<char>| option_request(text);
    let mut options: Vec<CreatePollOptionRequest> = Vec::new();
    for text in it: texts.into_iter()
        invariant
            it.seq() == all,
            options.len() == it.index(),
            forall|k: int| 0 <= k < options.len() ==> (#[trigger] options@[k])@ == option_request(
                all[k]@,
            ),
    {
        options.push(read_option(text));
    }
    let request = CreatePollRequest {
        title: form.title.clone(),
        description: copy_text(&form.description),
        options,
        expires_at: Some(expires_at),
    };
    proof {
        assert(request@.options =~= texts_of(all).map_values(read));
    }
    Ok(request)
}

impl Store {
    /// Creates a poll for `current_user` with the options of the request.
    ///
    /// Fails with `EmptyTitle` where the title trims to nothing, with
    /// `TooFewOptions` where the request names fewer than two options, and
    /// with `StoreFull` where the ids have run out. A failed creation
    /// leaves the store as it was: no poll is ever stored with a part of
    /// its options.
    pub fn create_new_poll(
        &mut self,
        current_user: &UserInfo,
        payload: &CreatePollRequest,
        now: Timestamp,
    ) -> (r: Result<PollResponse, EngineError>)
        requires
            old(self).wf(),
        ensures
            final(self).wf(),
            match r {
                Ok(response) => old(self)@.create_poll(current_user.id, payload@, now) == (
                    final(self)@,
                    Ok::<PollResponseView, EngineError>(response@),
                ),
                Err(e) => old(self)@.create_poll(current_user.id, payload@, now) == (
                    final(self)@,
                    Err::<PollResponseView, EngineError>(e),
                ),
            },
    {
        self.insert_poll(current_user.id, payload, now)
    }

    /// Creates a poll owned by `creator_id` with the options of the
    /// request, under the rules of [`Store::create_new_poll`].
    pub fn insert_poll(
        &mut self,
        creator_id: i64,
        payload: &CreatePollRequest,
        now: Timestamp,
    ) -> (r: Result<PollResponse, EngineError>)
        requires
            old(self).wf(),
        ensures
            final(self).wf(),
            match r {
                Ok(response) => old(self)@.create_poll(creator_id, payload@, now) == (
                    final(self)@,
                    Ok::<PollResponseView, EngineError>(response@),
                ),
                Err(e) => old(self)@.create_poll(creator_id, payload@, now) == (
                    final(self)@,
                    Err::<PollResponseView, EngineError>(e),
                ),
            },
    {
        proof {
            self.view_is();
            lemma_create_poll_wf(self@, creator_id, payload@, now);
        }
        if is_blank_text(payload.title.as_str()) {
            return Err(EngineError::EmptyTitle);
        }
        let n = payload.options.len();
        if n < MIN_OPTIONS {
            return Err(EngineError::TooFewOptions);
        }
        if self.next_poll_id == i64::MAX || n as u64 > (i64::MAX - self.next_option_id) as u64 {
            return Err(EngineError::StoreFull);
        }
        let poll = Poll {
            id: self.next_poll_id,
            title: payload.title.clone(),
            description: copy_text(&payload.description),
            created_by: creator_id,
            created_at: now,
            expires_at: payload.expires_at,
            is_active: true,
        };
        let ghost wanted = old(self)@.new_options(payload@.options);
        let mut fresh: Vec<PollOption> = Vec::new();
        let mut k: usize = 0;
        while k < n
            invariant
                k <= n,
                n == payload.options.len(),
                fresh.len() == k,
                *self == *old(self),
                self.next_option_id + n <= i64::MAX,
                0 < self.next_option_id,
                wanted == old(self)@.new_options(payload@.options),
                old(self)@.next_option_id == self.next_option_id,
                old(self)@.next_poll_id == self.next_poll_id,
                forall|j: int| 0 <= j < k ==> (#[trigger] fresh@[j])@ == wanted[j],
            decreases n - k,
        {
            let option = &payload.options[k];
            let row = PollOption {
                id: self.next_option_id + k as i64,
                poll_id: self.next_poll_id,
                text: option.text.clone(),
                is_date: option.datetime_option.is_some(),
                date_time: option.datetime_option,
            };
            fresh.push(row);
            k += 1;
        }
        proof {
            assert(option_views(fresh@) =~= wanted);
        }
        let response = PollResponse {
            poll: poll.clone(),
            options: copy_options(&fresh),
            user_vote: None,
        };
        self.polls.push(poll);
        self.options.append(&mut fresh);
        self.next_poll_id = self.next_poll_id + 1;
        self.next_option_id = self.next_option_id + n as i64;
        proof {
            self.view_is();
            assert(self@.polls =~= old(self)@.polls.push(poll@));
            assert(self@.options =~= old(self)@.options + wanted);
        }
        Ok(response)
    }

    /// Creates the poll that a form asks for, owned by `user_id`, and gives
    /// its id.
    ///
    /// Fails with `InvalidExpiry` where the expiry of the form is no date
    /// and time, and otherwise as [`Store::create_new_poll`] does: the
    /// options of a form are held to the same rules as those of a request.
    pub fn create_poll(&mut self, form: &NewPollForm, user_id: i64, now: Timestamp) -> (r: Result<
        i64,
        EngineError,
    >)
        requires
            old(self).wf(),
        ensures
            final(self).wf(),
            (final(self)@, r) == old(self)@.create_poll_from_form(form@, user_id, now),
    {
        let request = match read_poll_form(form) {
            Ok(request) => request,
            Err(e) => {
                return Err(e);
            },
        };
        match self.insert_poll(user_id, &request, now) {
            Ok(response) => Ok(response.poll.id),
            Err(e) => Err(e),
        }
    }

    /// Adds an option to a poll and gives the id of the option.
    ///
    /// Fails with `PollNotFound` where no poll has the id and with
    /// `StoreFull` where the ids have run out; the store then stays as it
    /// was.
    pub fn add_poll_option(&mut self, poll_id: i64, text: &str, datetime_option: Option<Timestamp>)
        -> (r: Result<i64, EngineError>)
        requires
            old(self).wf(),
        ensures
            final(self).wf(),
            (final(self)@, r) == old(self)@.add_option(
                poll_id,
                CreatePollOptionRequestView { text: text@, datetime_option },
            ),
    {
        proof {
            self.view_is();
            lemma_add_option_wf(
                self@,
                poll_id,
                CreatePollOptionRequestView { text: text@, datetime_option },
            );
        }
        if self.poll_index(poll_id).is_none() {
            return Err(EngineError::PollNotFound);
        }
        if self.next_option_id == i64::MAX {
            return Err(EngineError::StoreFull);
        }
        let id = self.next_option_id;
        let row = PollOption {
            id,
            poll_id,
            text: text.to_owned(),
            is_date: datetime_option.is_some(),
            date_time: datetime_option,
        };
        self.options.push(row);
        self.next_option_id = id + 1;
        proof {
            self.view_is();
            assert(self@.options =~= old(self)@.options.push(row@));
        }
        Ok(id)
    }
}

} // verus!
