use diarycomputer::error::{error_body, error_message, status_code, APIError};

#[test]
fn test_error_response() {
    let error = APIError::Unauthorized;
    assert_eq!(status_code(error), 401);
}

#[test]
fn status_codes_by_kind() {
    assert_eq!(status_code(APIError::UserNotFound), 404);
    assert_eq!(status_code(APIError::TagNotFound), 404);
    assert_eq!(status_code(APIError::EmailAlreadyInUse), 409);
    assert_eq!(status_code(APIError::BadRequest), 400);
    assert_eq!(status_code(APIError::InvalidPassword), 401);
    assert_eq!(status_code(APIError::DatabaseError), 500);
    assert_eq!(status_code(APIError::InternalServerError), 500);
}

#[test]
fn messages_and_body() {
    assert_eq!(error_message(APIError::UserNotFound), "User not found");
    assert_eq!(error_message(APIError::InviteUsed), "Invite already used");
    assert_eq!(error_message(APIError::DatabaseError), "An error occurred");
    let body = error_body(APIError::EntryAlreadyExistsForDate);
    assert_eq!(body.code, APIError::EntryAlreadyExistsForDate);
    assert_eq!(body.message, "An entry already exists for the given date");
}
