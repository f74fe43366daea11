//! Errors of the library and how they are reported to clients.
use vstd::prelude::*;

verus! {

/// Failures reported to API clients.
#[derive(Clone, Copy, Debug, PartialEq, Eq, Structural)]
pub enum APIError {
    Unauthorized,
    DatabaseError,
    InternalServerError,
    UserNotFound,
    InviteNotFound,
    SessionNotFound,
    CategoryNotFound,
    TagNotFound,
    EntryNotFound,
    EmailAlreadyInUse,
    InvalidPassword,
    InviteUsed,
    BadRequest,
    EntryAlreadyExistsForDate,
}

/// Failures of the service's own setup.
#[derive(Clone, Copy, Debug, PartialEq, Eq, Structural)]
pub enum ServiceError {
    MigrationError,
}

/// The body sent with an error response.
#[derive(Debug)]
pub struct ErrorBody {
    pub code: APIError,
    pub message: String,
}

/// The human-readable text of each error.
pub open spec fn message_text(error: APIError) -> &'static str {
    match error {
        APIError::Unauthorized => "Unauthorized",
        APIError::UserNotFound => "User not found",
        APIError::InviteNotFound => "Invite not found",
        APIError::SessionNotFound => "Session not found",
        APIError::CategoryNotFound => "Category not found",
        APIError::TagNotFound => "Tag not found",
        APIError::EntryNotFound => "Entry not found",
        APIError::EmailAlreadyInUse => "Email already in use",
        APIError::InvalidPassword => "Invalid password",
        APIError::InviteUsed => "Invite already used",
        APIError::BadRequest => "Bad request",
        APIError::EntryAlreadyExistsForDate => "An entry already exists for the given date",
        _ => "An error occurred",
    }
}

/// The HTTP status of each error.
pub open spec fn status_of(error: APIError) -> u16 {
    match error {
        APIError::Unauthorized => 401,
        APIError::UserNotFound => 404,
        APIError::InviteNotFound => 404,
        APIError::SessionNotFound => 404,
        APIError::CategoryNotFound => 404,
        APIError::TagNotFound => 404,
        APIError::EntryNotFound => 404,
        APIError::EmailAlreadyInUse => 409,
        APIError::InvalidPassword => 401,
        APIError::InviteUsed => 409,
        APIError::BadRequest => 400,
        APIError::EntryAlreadyExistsForDate => 409,
        _ => 500,
    }
}

pub fn error_message(error: APIError) -> (r: String)
    ensures
        r@ == message_text(error)@,
{
    let text: &str = match error {
        APIError::Unauthorized => "Unauthorized",
        APIError::UserNotFound => "User not found",
        APIError::InviteNotFound => "Invite not found",
        APIError::SessionNotFound => "Session not found",
        APIError::CategoryNotFound => "Category not found",
        APIError::TagNotFound => "Tag not found",
        APIError::EntryNotFound => "Entry not found",
        APIError::EmailAlreadyInUse => "Email already in use",
        APIError::InvalidPassword => "Invalid password",
        APIError::InviteUsed => "Invite already used",
        APIError::BadRequest => "Bad request",
        APIError::EntryAlreadyExistsForDate => "An entry already exists for the given date",
        _ => "An error occurred",
    };
    text.to_string()
}

/// The HTTP status code that reports the error.
pub fn status_code(error: APIError) -> (r: u16)
    ensures
        r == status_of(error),
{
    match error {
        APIError::Unauthorized => 401,
        APIError::UserNotFound => 404,
        APIError::InviteNotFound => 404,
        APIError::SessionNotFound => 404,
        APIError::CategoryNotFound => 404,
        APIError::TagNotFound => 404,
        APIError::EntryNotFound => 404,
        APIError::EmailAlreadyInUse => 409,
        APIError::InvalidPassword => 401,
        APIError::InviteUsed => 409,
        APIError::BadRequest => 400,
        APIError::EntryAlreadyExistsForDate => 409,
        _ => 500,
    }
}

pub fn error_body(error: APIError) -> (r: ErrorBody)
    ensures
        r.code == error,
        r.message@ == message_text(error)@,
{
    ErrorBody { code: error, message: error_message(error) }
}

} // verus!
