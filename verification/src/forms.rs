//! What callers hand to the engine and get back from it: the bodies of
//! requests, the fields of forms, and the responses.
use crate::clock::Timestamp;
use crate::error::EngineError;
use crate::models::{text_view, Poll, PollOption, PollOptionView, PollView, UserInfo};
use crate::order::Ranked;
use crate::store::option_views;
use vstd::prelude::*;

verus! {

/// The credentials of a login request.
#[derive(Debug, PartialEq, Eq)]
pub struct LoginRequest {
    pub username: String,
    pub password: String,
}

/// The credentials of a registration.
#[derive(Debug, PartialEq, Eq)]
pub struct RegisterRequest {
    pub username: String,
    pub password: String,
}

/// An administrator's request for a new user.
#[derive(Debug, PartialEq, Eq)]
pub struct CreateUserRequest {
    pub username: String,
    pub password: String,
    pub is_admin: bool,
}

/// One option of a new poll.
#[derive(Debug, PartialEq, Eq)]
pub struct CreatePollOptionRequest {
    pub text: String,
    /// Set for a calendar choice.
    pub datetime_option: Option<Timestamp>,
}

/// The mathematical view of a [`CreatePollOptionRequest`].
pub struct CreatePollOptionRequestView {
    pub text: Seq<char>,
    pub datetime_option: Option<Timestamp>,
}

impl View for CreatePollOptionRequest {
    type V = CreatePollOptionRequestView;

    open spec fn view(&self) -> CreatePollOptionRequestView {
        CreatePollOptionRequestView { text: self.text@, datetime_option: self.datetime_option }
    }
}

/// The views of the options of a request, in order.
pub open spec fn option_request_views(rows: Seq<CreatePollOptionRequest>) -> Seq<
    CreatePollOptionRequestView,
> {
    rows.map_values(|r: CreatePollOptionRequest| r@)
}

/// A new poll with its options.
#[derive(Debug, PartialEq, Eq)]
pub struct CreatePollRequest {
    pub title: String,
    pub description: Option<String>,
    pub options: Vec<CreatePollOptionRequest>,
    pub expires_at: Option<Timestamp>,
}

/// The mathematical view of a [`CreatePollRequest`].
pub struct CreatePollRequestView {
    pub title: Seq<char>,
    pub description: Option<Seq<char>>,
    pub options: Seq<CreatePollOptionRequestView>,
    pub expires_at: Option<Timestamp>,
}

impl View for CreatePollRequest {
    type V = CreatePollRequestView;

    open spec fn view(&self) -> CreatePollRequestView {
        CreatePollRequestView {
            title: self.title@,
            description: text_view(self.description),
            options: option_request_views(self.options@),
            expires_at: self.expires_at,
        }
    }
}

/// The new values of the fields of a poll that an update may change.
#[derive(Debug, PartialEq, Eq)]
pub struct UpdatePollRequest {
    pub title: String,
    pub description: Option<String>,
    pub expires_at: Option<Timestamp>,
    pub is_active: bool,
}

/// The mathematical view of a [`UpdatePollRequest`].
pub struct UpdatePollRequestView {
    pub title: Seq<char>,
    pub description: Option<Seq<char>>,
    pub expires_at: Option<Timestamp>,
    pub is_active: bool,
}

impl View for UpdatePollRequest {
    type V = UpdatePollRequestView;

    open spec fn view(&self) -> UpdatePollRequestView {
        UpdatePollRequestView {
            title: self.title@,
            description: text_view(self.description),
            expires_at: self.expires_at,
            is_active: self.is_active,
        }
    }
}

/// The choice of a vote.
#[derive(Debug, PartialEq, Eq)]
pub struct VoteRequest {
    pub option_id: i64,
}

/// A poll with its options and the option of the viewer's vote.
#[derive(Debug, PartialEq, Eq)]
pub struct PollResponse {
    pub poll: Poll,
    pub options: Vec<PollOption>,
    pub user_vote: Option<i64>,
}

/// The mathematical view of a [`PollResponse`].
pub struct PollResponseView {
    pub poll: PollView,
    pub options: Seq<PollOptionView>,
    pub user_vote: Option<i64>,
}

impl View for PollResponse {
    type V = PollResponseView;

    open spec fn view(&self) -> PollResponseView {
        PollResponseView {
            poll: self.poll@,
            options: option_views(self.options@),
            user_vote: self.user_vote,
        }
    }
}

/// A session token with the user it was issued to.
#[derive(Debug, PartialEq, Eq)]
pub struct AuthResponse {
    pub token: String,
    pub user: UserInfo,
}

/// The body of a failure response.
#[derive(Debug, PartialEq, Eq)]
pub struct ErrorResponse {
    pub error: String,
}

impl ErrorResponse {
    /// The body that reports the failure.
    pub fn from_error(e: EngineError) -> (r: ErrorResponse)
        ensures
            r.error@ == e.message_text(),
    {
        ErrorResponse { error: e.message() }
    }
}

/// The fields of the login form.
#[derive(Debug, PartialEq, Eq)]
pub struct LoginForm {
    pub username: String,
    pub password: String,
}

/// The fields of the form by which an administrator adds a user.
#[derive(Debug, PartialEq, Eq)]
pub struct NewUserForm {
    pub username: String,
    pub password: String,
    pub confirm_password: String,
    pub is_admin: bool,
}

/// The fields of the form by which a user changes the password.
#[derive(Debug, PartialEq, Eq)]
pub struct ChangePasswordForm {
    pub current_password: String,
    pub new_password: String,
    pub confirm_password: String,
}

/// The fields of the form by which an administrator changes a role.
#[derive(Debug, PartialEq, Eq)]
pub struct ToggleRoleForm {
    pub user_id: i64,
    pub set_admin: bool,
}

/// The fields of the form for a new poll.
#[derive(Debug, PartialEq, Eq)]
pub struct NewPollForm {
    pub title: String,
    pub description: Option<String>,
    /// The expiry to the minute, as in `2025-06-01T19:30`.
    pub expires_at: String,
    /// The options, separated by commas.
    pub options: String,
}

/// The mathematical view of a [`NewPollForm`].
pub struct NewPollFormView {
    pub title: Seq<char>,
    pub description: Option<Seq<char>>,
    pub expires_at: Seq<char>,
    pub options: Seq<char>,
}

impl View for NewPollForm {
    type V = NewPollFormView;

    open spec fn view(&self) -> NewPollFormView {
        NewPollFormView {
            title: self.title@,
            description: text_view(self.description),
            expires_at: self.expires_at@,
            options: self.options@,
        }
    }
}

/// The fields of the form for more options, separated by commas.
#[derive(Debug, PartialEq, Eq)]
pub struct NewOptionsForm {
    pub options: String,
}

/// The field of the voting form.
#[derive(Debug, PartialEq, Eq)]
pub struct VoteForm {
    pub option_id: i64,
}

/// The kind of a message shown to the user after an action.
#[derive(Clone, Copy, Debug, PartialEq, Eq, Structural)]
pub enum MessageType {
    Success,
    Info,
    Warning,
    Error,
}

impl MessageType {
    /// The name of the kind in lower case.
    pub open spec fn name(self) -> Seq<char> {
        match self {
            MessageType::Success => "success"@,
            MessageType::Info => "info"@,
            MessageType::Warning => "warning"@,
            MessageType::Error => "error"@,
        }
    }

    /// The name of the kind in lower case, as style sheets and templates
    /// know it.
    pub fn to_string(&self) -> (r: String)
        ensures
            r@ == self.name(),
    {
        match self {
            MessageType::Success => "success".to_owned(),
            MessageType::Info => "info".to_owned(),
            MessageType::Warning => "warning".to_owned(),
            MessageType::Error => "error".to_owned(),
        }
    }
}

/// A message shown to the user after an action.
#[derive(Debug, PartialEq, Eq)]
pub struct FlashMessage {
    pub message_type: MessageType,
    pub message: String,
}

impl FlashMessage {
    /// A message that reports a success.
    pub fn success(message: &str) -> (r: FlashMessage)
        ensures
            r.message_type == MessageType::Success,
            r.message@ == message@,
    {
        FlashMessage { message_type: MessageType::Success, message: message.to_owned() }
    }

    /// The message that reports the failure.
    pub fn from_error(e: EngineError) -> (r: FlashMessage)
        ensures
            r.message_type == MessageType::Error,
            r.message@ == e.message_text(),
    {
        FlashMessage { message_type: MessageType::Error, message: e.message() }
    }

    /// A message that reports a failure.
    pub fn error(message: &str) -> (r: FlashMessage)
        ensures
            r.message_type == MessageType::Error,
            r.message@ == message@,
    {
        FlashMessage { message_type: MessageType::Error, message: message.to_owned() }
    }
}

/// A poll with the name of its creator.
#[derive(Debug, PartialEq, Eq)]
pub struct PollWithCreator {
    pub id: i64,
    pub title: String,
    pub description: Option<String>,
    pub creator_id: i64,
    pub creator_username: String,
    pub created_at: Timestamp,
    pub expires_at: Option<Timestamp>,
}

/// The mathematical view of a [`PollWithCreator`].
pub struct PollWithCreatorView {
    pub id: i64,
    pub title: Seq<char>,
    pub description: Option<Seq<char>>,
    pub creator_id: i64,
    pub creator_username: Seq<char>,
    pub created_at: Timestamp,
    pub expires_at: Option<Timestamp>,
}

impl View for PollWithCreator {
    type V = PollWithCreatorView;

    open spec fn view(&self) -> PollWithCreatorView {
        PollWithCreatorView {
            id: self.id,
            title: self.title@,
            description: text_view(self.description),
            creator_id: self.creator_id,
            creator_username: self.creator_username@,
            created_at: self.created_at,
            expires_at: self.expires_at,
        }
    }
}

/// Polls are shown newest first.
impl Ranked for PollWithCreator {
    open spec fn ranks_before(a: PollWithCreatorView, b: PollWithCreatorView) -> bool {
        b.created_at.before(a.created_at)
    }

    proof fn rank_laws(a: PollWithCreatorView, b: PollWithCreatorView, c: PollWithCreatorView) {
    }

    fn goes_before(&self, other: &Self) -> (r: bool) {
        other.created_at.is_before(&self.created_at)
    }
}

impl PollWithCreatorView {
    /// The expiry of the poll lies in the past at `now`.
    pub open spec fn expired(self, now: Timestamp) -> bool {
        match self.expires_at {
            Some(end) => end.before(now),
            None => false,
        }
    }
}

} // verus!
