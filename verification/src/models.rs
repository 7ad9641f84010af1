//! The rows of the four relations (users, polls, options, votes) and the
//! values that the engine hands back, each with its mathematical view.
use crate::clock::Timestamp;
use crate::order::Ranked;
use crate::rows::Row;
use crate::text::{lemma_text_lt_laws, text_before, text_lt};
use vstd::prelude::*;

verus! {

/// The view of an optional text.
pub open spec fn text_view(t: Option<String>) -> Option<Seq<char>> {
    match t {
        Some(s) => Some(s@),
        None => None,
    }
}

/// A copy of an optional text.
pub fn copy_text(t: &Option<String>) -> (r: Option<String>)
    ensures
        text_view(r) == text_view(*t),
{
    match t {
        Some(s) => Some(s.clone()),
        None => None,
    }
}

/// A user: a stable id, a unique name, an opaque credential and a role.
#[derive(Debug, PartialEq, Eq)]
pub struct User {
    pub id: i64,
    pub username: String,
    /// The bcrypt hash of the password.
    pub password_hash: String,
    pub is_admin: bool,
    pub created_at: Timestamp,
}

/// The mathematical view of a [`User`].
pub struct UserView {
    pub id: i64,
    pub username: Seq<char>,
    pub password_hash: Seq<char>,
    pub is_admin: bool,
    pub created_at: Timestamp,
}

impl View for User {
    type V = UserView;

    open spec fn view(&self) -> UserView {
        UserView {
            id: self.id,
            username: self.username@,
            password_hash: self.password_hash@,
            is_admin: self.is_admin,
            created_at: self.created_at,
        }
    }
}

impl Clone for User {
    fn clone(&self) -> (r: Self)
        ensures
            r@ == self@,
    {
        User {
            id: self.id,
            username: self.username.clone(),
            password_hash: self.password_hash.clone(),
            is_admin: self.is_admin,
            created_at: self.created_at,
        }
    }
}

impl Row for UserView {
    open spec fn row_id(&self) -> i64 {
        self.id
    }
}

/// Users are shown in the dictionary order of their names.
impl Ranked for User {
    open spec fn ranks_before(a: UserView, b: UserView) -> bool {
        text_lt(a.username, b.username)
    }

    proof fn rank_laws(a: UserView, b: UserView, c: UserView) {
        lemma_text_lt_laws(a.username, b.username, c.username);
    }

    fn goes_before(&self, other: &Self) -> (r: bool) {
        text_before(self.username.as_str(), other.username.as_str())
    }
}

/// What the engine needs to know of the acting identity, without the
/// credential.
#[derive(Debug, PartialEq, Eq)]
pub struct UserInfo {
    pub id: i64,
    pub username: String,
    pub created_at: Timestamp,
    pub is_admin: bool,
}

/// The mathematical view of a [`UserInfo`].
pub struct UserInfoView {
    pub id: i64,
    pub username: Seq<char>,
    pub created_at: Timestamp,
    pub is_admin: bool,
}

impl View for UserInfo {
    type V = UserInfoView;

    open spec fn view(&self) -> UserInfoView {
        UserInfoView {
            id: self.id,
            username: self.username@,
            created_at: self.created_at,
            is_admin: self.is_admin,
        }
    }
}

/// Identities are shown in the dictionary order of their names.
impl Ranked for UserInfo {
    open spec fn ranks_before(a: UserInfoView, b: UserInfoView) -> bool {
        text_lt(a.username, b.username)
    }

    proof fn rank_laws(a: UserInfoView, b: UserInfoView, c: UserInfoView) {
        lemma_text_lt_laws(a.username, b.username, c.username);
    }

    fn goes_before(&self, other: &Self) -> (r: bool) {
        text_before(self.username.as_str(), other.username.as_str())
    }
}

impl UserView {
    /// The user without the credential.
    pub open spec fn info(self) -> UserInfoView {
        UserInfoView {
            id: self.id,
            username: self.username,
            created_at: self.created_at,
            is_admin: self.is_admin,
        }
    }
}

impl Clone for UserInfo {
    fn clone(&self) -> (r: Self)
        ensures
            r@ == self@,
    {
        UserInfo {
            id: self.id,
            username: self.username.clone(),
            created_at: self.created_at,
            is_admin: self.is_admin,
        }
    }
}

impl From<User> for UserInfo {
    fn from(user: User) -> (info: UserInfo) {
        UserInfo {
            id: user.id,
            username: user.username,
            created_at: user.created_at,
            is_admin: user.is_admin,
        }
    }
}

impl vstd::std_specs::convert::FromSpecImpl<User> for UserInfo {
    open spec fn obeys_from_spec() -> bool {
        true
    }

    open spec fn from_spec(user: User) -> UserInfo {
        UserInfo {
            id: user.id,
            username: user.username,
            created_at: user.created_at,
            is_admin: user.is_admin,
        }
    }
}

/// A poll: a question owned by its creator, with an optional expiry and an
/// explicit activity flag.
#[derive(Debug, PartialEq, Eq)]
pub struct Poll {
    pub id: i64,
    pub title: String,
    pub description: Option<String>,
    /// The id of the user who created the poll.
    pub created_by: i64,
    pub created_at: Timestamp,
    pub expires_at: Option<Timestamp>,
    pub is_active: bool,
}

/// The mathematical view of a [`Poll`].
pub struct PollView {
    pub id: i64,
    pub title: Seq<char>,
    pub description: Option<Seq<char>>,
    pub created_by: i64,
    pub created_at: Timestamp,
    pub expires_at: Option<Timestamp>,
    pub is_active: bool,
}

impl View for Poll {
    type V = PollView;

    open spec fn view(&self) -> PollView {
        PollView {
            id: self.id,
            title: self.title@,
            description: text_view(self.description),
            created_by: self.created_by,
            created_at: self.created_at,
            expires_at: self.expires_at,
            is_active: self.is_active,
        }
    }
}

impl Clone for Poll {
    fn clone(&self) -> (r: Self)
        ensures
            r@ == self@,
    {
        Poll {
            id: self.id,
            title: self.title.clone(),
            description: copy_text(&self.description),
            created_by: self.created_by,
            created_at: self.created_at,
            expires_at: self.expires_at,
            is_active: self.is_active,
        }
    }
}

impl Row for PollView {
    open spec fn row_id(&self) -> i64 {
        self.id
    }
}

/// Polls are shown newest first.
impl Ranked for Poll {
    open spec fn ranks_before(a: PollView, b: PollView) -> bool {
        b.created_at.before(a.created_at)
    }

    proof fn rank_laws(a: PollView, b: PollView, c: PollView) {
    }

    fn goes_before(&self, other: &Self) -> (r: bool) {
        other.created_at.is_before(&self.created_at)
    }
}

impl PollView {
    /// The expiry of the poll lies in the past at `now`.
    pub open spec fn expired(self, now: Timestamp) -> bool {
        match self.expires_at {
            Some(end) => end.before(now),
            None => false,
        }
    }

    /// The poll takes votes at `now`: its flag is set and it has not expired.
    pub open spec fn open_at(self, now: Timestamp) -> bool {
        self.is_active && !self.expired(now)
    }
}

impl Poll {
    /// Whether the expiry of the poll lies in the past at `now`.
    pub fn is_expired(&self, now: &Timestamp) -> (r: bool)
        ensures
            r == self@.expired(*now),
    {
        match &self.expires_at {
            Some(end) => end.is_before(now),
            None => false,
        }
    }

    /// Whether the poll takes votes at `now`.
    pub fn is_active(&self, now: &Timestamp) -> (r: bool)
        ensures
            r == self@.open_at(*now),
    {
        self.is_active && !self.is_expired(now)
    }

    /// `"active"` while the poll takes votes at `now`, `"expired"` after.
    pub fn get_status(&self, now: &Timestamp) -> (r: &'static str)
        ensures
            r@ == if self@.open_at(*now) {
                "active"@
            } else {
                "expired"@
            },
    {
        if self.is_active(now) {
            "active"
        } else {
            "expired"
        }
    }
}

/// One selectable choice of a poll; a calendar choice when it carries a
/// date and time.
#[derive(Debug, PartialEq, Eq)]
pub struct PollOption {
    pub id: i64,
    /// The poll that owns the option.
    pub poll_id: i64,
    pub text: String,
    pub is_date: bool,
    pub date_time: Option<Timestamp>,
}

/// The mathematical view of a [`PollOption`].
pub struct PollOptionView {
    pub id: i64,
    pub poll_id: i64,
    pub text: Seq<char>,
    pub is_date: bool,
    pub date_time: Option<Timestamp>,
}

impl View for PollOption {
    type V = PollOptionView;

    open spec fn view(&self) -> PollOptionView {
        PollOptionView {
            id: self.id,
            poll_id: self.poll_id,
            text: self.text@,
            is_date: self.is_date,
            date_time: self.date_time,
        }
    }
}

impl Clone for PollOption {
    fn clone(&self) -> (r: Self)
        ensures
            r@ == self@,
    {
        PollOption {
            id: self.id,
            poll_id: self.poll_id,
            text: self.text.clone(),
            is_date: self.is_date,
            date_time: self.date_time,
        }
    }
}

impl Row for PollOptionView {
    open spec fn row_id(&self) -> i64 {
        self.id
    }
}

/// One user's choice: it links the user to an option of a poll.
#[derive(Clone, Copy, Debug, PartialEq, Eq, Structural)]
pub struct Vote {
    pub id: i64,
    pub poll_id: i64,
    pub option_id: i64,
    pub user_id: i64,
    pub created_at: Timestamp,
}

impl Row for Vote {
    open spec fn row_id(&self) -> i64 {
        self.id
    }
}

impl View for Vote {
    type V = Vote;

    open spec fn view(&self) -> Vote {
        *self
    }
}

/// Votes are shown oldest first.
impl Ranked for Vote {
    open spec fn ranks_before(a: Vote, b: Vote) -> bool {
        a.created_at.before(b.created_at)
    }

    proof fn rank_laws(a: Vote, b: Vote, c: Vote) {
    }

    fn goes_before(&self, other: &Self) -> (r: bool) {
        self.created_at.is_before(&other.created_at)
    }
}

/// How a poll takes a second vote of the same user.
#[derive(Clone, Copy, Debug, PartialEq, Eq, Structural)]
pub enum VotingMode {
    /// A vote replaces the user's earlier vote in the poll.
    SingleChoice,
    /// A vote on an option toggles the user's vote on that option; votes on
    /// other options stay.
    MultiChoice,
}

/// What a cast did to the ledger.
#[derive(Clone, Copy, Debug, PartialEq, Eq, Structural)]
pub enum VoteOutcome {
    /// A vote row was written.
    Recorded,
    /// The user's vote on the option was taken back.
    Removed,
}

} // verus!
