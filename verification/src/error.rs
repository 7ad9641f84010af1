//! The failures that the engine reports. All of them are values; no
//! operation of the engine aborts.
use vstd::prelude::*;

verus! {

/// The broad class of a failure, by which a caller picks its response.
#[derive(Clone, Copy, Debug, PartialEq, Eq, Structural)]
pub enum ErrorKind {
    /// The input has the wrong shape.
    Validation,
    /// A poll, an option or a user is absent.
    NotFound,
    /// A vote was attempted on a poll that no longer takes votes.
    PollClosed,
    /// The acting identity lacks the permission.
    Forbidden,
    /// The request collides with what is stored.
    Conflict,
    /// The credentials do not match.
    InvalidCredentials,
    /// The store could not carry out the operation.
    Store,
}

/// What went wrong.
#[derive(Clone, Copy, Debug, PartialEq, Eq, Structural)]
pub enum EngineError {
    /// The poll's title trims to nothing.
    EmptyTitle,
    /// Fewer options than a poll needs.
    TooFewOptions,
    /// The expiry of the poll cannot be read as a date and time.
    InvalidExpiry,
    /// The username trims to nothing.
    EmptyUsername,
    /// The password trims to nothing.
    EmptyPassword,
    /// The password and its confirmation differ.
    PasswordMismatch,
    /// No poll has the given id.
    PollNotFound,
    /// No option of the poll has the given id.
    OptionNotFound,
    /// No user has the given id or name.
    UserNotFound,
    /// The poll is inactive or has expired.
    PollClosed,
    /// The acting identity may not do this.
    Forbidden,
    /// Another user already has the username.
    UsernameTaken,
    /// The password does not match the stored credential.
    InvalidCredentials,
    /// The request carries no session of a user of the store.
    NotAuthenticated,
    /// The credential could not be derived from the password.
    HashingFailed,
    /// The stored credential could not be checked against the password.
    VerificationFailed,
    /// The store has run out of row ids.
    StoreFull,
}

impl EngineError {
    /// The class of the failure.
    pub open spec fn spec_kind(self) -> ErrorKind {
        match self {
            EngineError::EmptyTitle
            | EngineError::TooFewOptions
            | EngineError::InvalidExpiry
            | EngineError::EmptyUsername
            | EngineError::EmptyPassword
            | EngineError::PasswordMismatch => ErrorKind::Validation,
            EngineError::PollNotFound
            | EngineError::OptionNotFound
            | EngineError::UserNotFound => ErrorKind::NotFound,
            EngineError::PollClosed => ErrorKind::PollClosed,
            EngineError::Forbidden => ErrorKind::Forbidden,
            EngineError::UsernameTaken => ErrorKind::Conflict,
            EngineError::InvalidCredentials | EngineError::NotAuthenticated => {
                ErrorKind::InvalidCredentials
            },
            EngineError::HashingFailed
            | EngineError::VerificationFailed
            | EngineError::StoreFull => ErrorKind::Store,
        }
    }

    /// The class of the failure.
    #[verifier::when_used_as_spec(spec_kind)]
    pub fn kind(self) -> (k: ErrorKind)
        ensures
            k == self.spec_kind(),
    {
        match self {
            EngineError::EmptyTitle
            | EngineError::TooFewOptions
            | EngineError::InvalidExpiry
            | EngineError::EmptyUsername
            | EngineError::EmptyPassword
            | EngineError::PasswordMismatch => ErrorKind::Validation,
            EngineError::PollNotFound
            | EngineError::OptionNotFound
            | EngineError::UserNotFound => ErrorKind::NotFound,
            EngineError::PollClosed => ErrorKind::PollClosed,
            EngineError::Forbidden => ErrorKind::Forbidden,
            EngineError::UsernameTaken => ErrorKind::Conflict,
            EngineError::InvalidCredentials | EngineError::NotAuthenticated => {
                ErrorKind::InvalidCredentials
            },
            EngineError::HashingFailed
            | EngineError::VerificationFailed
            | EngineError::StoreFull => ErrorKind::Store,
        }
    }
}

impl EngineError {
    /// What the user is told.
    pub open spec fn message_text(self) -> Seq<char> {
        match self {
            EngineError::EmptyTitle => "Poll title cannot be empty"@,
            EngineError::TooFewOptions => "Poll must have at least 2 options"@,
            EngineError::InvalidExpiry => "Invalid date format"@,
            EngineError::EmptyUsername => "Username cannot be empty."@,
            EngineError::EmptyPassword => "Password cannot be empty."@,
            EngineError::PasswordMismatch => "Passwords do not match."@,
            EngineError::PollNotFound => "Poll not found"@,
            EngineError::OptionNotFound => "Invalid poll option"@,
            EngineError::UserNotFound => "User not found"@,
            EngineError::PollClosed => "This poll is no longer active"@,
            EngineError::Forbidden => "You don't have permission to do this"@,
            EngineError::UsernameTaken => "Username already taken"@,
            EngineError::InvalidCredentials => "Invalid username or password"@,
            EngineError::NotAuthenticated => "Unauthorized"@,
            EngineError::HashingFailed => "Password hashing failed"@,
            EngineError::VerificationFailed => "Password verification failed"@,
            EngineError::StoreFull => "The store cannot take another row"@,
        }
    }

    /// What the user is told.
    pub fn message(&self) -> (r: String)
        ensures
            r@ == self.message_text(),
    {
        match self {
            EngineError::EmptyTitle => "Poll title cannot be empty".to_owned(),
            EngineError::TooFewOptions => "Poll must have at least 2 options".to_owned(),
            EngineError::InvalidExpiry => "Invalid date format".to_owned(),
            EngineError::EmptyUsername => "Username cannot be empty.".to_owned(),
            EngineError::EmptyPassword => "Password cannot be empty.".to_owned(),
            EngineError::PasswordMismatch => "Passwords do not match.".to_owned(),
            EngineError::PollNotFound => "Poll not found".to_owned(),
            EngineError::OptionNotFound => "Invalid poll option".to_owned(),
            EngineError::UserNotFound => "User not found".to_owned(),
            EngineError::PollClosed => "This poll is no longer active".to_owned(),
            EngineError::Forbidden => "You don't have permission to do this".to_owned(),
            EngineError::UsernameTaken => "Username already taken".to_owned(),
            EngineError::InvalidCredentials => "Invalid username or password".to_owned(),
            EngineError::NotAuthenticated => "Unauthorized".to_owned(),
            EngineError::HashingFailed => "Password hashing failed".to_owned(),
            EngineError::VerificationFailed => "Password verification failed".to_owned(),
            EngineError::StoreFull => "The store cannot take another row".to_owned(),
        }
    }
}

} // verus!
