use game_night::error::{EngineError, ErrorKind};
use game_night::forms::{ErrorResponse, FlashMessage, MessageType};

#[test]
fn every_error_has_its_kind() {
    assert_eq!(EngineError::EmptyTitle.kind(), ErrorKind::Validation);
    assert_eq!(EngineError::TooFewOptions.kind(), ErrorKind::Validation);
    assert_eq!(EngineError::InvalidExpiry.kind(), ErrorKind::Validation);
    assert_eq!(EngineError::EmptyUsername.kind(), ErrorKind::Validation);
    assert_eq!(EngineError::EmptyPassword.kind(), ErrorKind::Validation);
    assert_eq!(EngineError::PasswordMismatch.kind(), ErrorKind::Validation);
    assert_eq!(EngineError::PollNotFound.kind(), ErrorKind::NotFound);
    assert_eq!(EngineError::OptionNotFound.kind(), ErrorKind::NotFound);
    assert_eq!(EngineError::UserNotFound.kind(), ErrorKind::NotFound);
    assert_eq!(EngineError::PollClosed.kind(), ErrorKind::PollClosed);
    assert_eq!(EngineError::Forbidden.kind(), ErrorKind::Forbidden);
    assert_eq!(EngineError::UsernameTaken.kind(), ErrorKind::Conflict);
    assert_eq!(EngineError::InvalidCredentials.kind(), ErrorKind::InvalidCredentials);
    assert_eq!(EngineError::NotAuthenticated.kind(), ErrorKind::InvalidCredentials);
    assert_eq!(EngineError::HashingFailed.kind(), ErrorKind::Store);
    assert_eq!(EngineError::VerificationFailed.kind(), ErrorKind::Store);
    assert_eq!(EngineError::StoreFull.kind(), ErrorKind::Store);
}

#[test]
fn errors_have_messages() {
    assert_eq!(EngineError::EmptyTitle.message(), "Poll title cannot be empty");
    assert_eq!(EngineError::TooFewOptions.message(), "Poll must have at least 2 options");
    assert_eq!(EngineError::PollNotFound.message(), "Poll not found");
    assert_eq!(EngineError::UsernameTaken.message(), "Username already taken");
    assert_eq!(EngineError::InvalidCredentials.message(), "Invalid username or password");
    assert_eq!(EngineError::NotAuthenticated.message(), "Unauthorized");
}

#[test]
fn error_response_carries_the_message() {
    let body = ErrorResponse::from_error(EngineError::OptionNotFound);
    assert_eq!(body.error, "Invalid poll option");
}

#[test]
fn flash_messages_carry_kind_and_text() {
    let ok = FlashMessage::success("Poll deleted successfully.");
    assert_eq!(ok.message_type, MessageType::Success);
    assert_eq!(ok.message, "Poll deleted successfully.");
    let bad = FlashMessage::error("nope");
    assert_eq!(bad.message_type, MessageType::Error);
    assert_eq!(bad.message, "nope");
    let from = FlashMessage::from_error(EngineError::PasswordMismatch);
    assert_eq!(from.message_type, MessageType::Error);
    assert_eq!(from.message, "Passwords do not match.");
}

#[test]
fn message_types_have_lower_case_names() {
    assert_eq!(MessageType::Success.to_string(), "success");
    assert_eq!(MessageType::Info.to_string(), "info");
    assert_eq!(MessageType::Warning.to_string(), "warning");
    assert_eq!(MessageType::Error.to_string(), "error");
}
