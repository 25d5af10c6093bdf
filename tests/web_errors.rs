use zero2prod::web::{ConfirmationError, DashboardError, LoginError, SessionError, SubscribeError};

#[test]
fn error_statuses() {
    assert_eq!(SubscribeError::ValidationError("bad".to_string()).status_code(), 422);
    assert_eq!(SubscribeError::UnexpectedError("db".to_string()).status_code(), 500);
    assert_eq!(ConfirmationError::UnknownToken.status_code(), 401);
    assert_eq!(ConfirmationError::UnexpectedError("db".to_string()).status_code(), 500);
    assert_eq!(LoginError::AuthError.status_code(), 303);
    assert_eq!(LoginError::UnexpectedError("db".to_string()).status_code(), 500);
    assert_eq!(DashboardError { cause: "db".to_string() }.status_code(), 500);
    assert_eq!(SessionError { cause: "redis".to_string() }.status_code(), 500);
}

#[test]
fn error_messages() {
    assert_eq!(SubscribeError::ValidationError("bad name".to_string()).message(), "bad name");
    assert_eq!(
        ConfirmationError::UnknownToken.message(),
        "There is no subscriber associated with the provided token"
    );
    assert_eq!(LoginError::AuthError.message(), "Authentication failed");
    assert_eq!(LoginError::UnexpectedError("x".to_string()).message(), "Something went wrong");
    assert_eq!(DashboardError { cause: "x".to_string() }.message(), "Something went wrong");
    assert_eq!(SessionError { cause: "redis down".to_string() }.message(), "redis down");
}

use zero2prod::web::{check_new_password, NewPasswordError};

#[test]
fn new_password_fields_must_agree() {
    let r = check_new_password(&"a-long-password-1".to_string(), &"a-long-password-2".to_string());
    assert_eq!(r.unwrap_err(), NewPasswordError::Mismatch);
    assert_eq!(
        NewPasswordError::Mismatch.message(),
        "You entered two different new passwords - the field values must match."
    );
}

#[test]
fn new_password_length_bounds() {
    let short = "twelve_chars".to_string();
    assert_eq!(check_new_password(&short, &short).unwrap_err(), NewPasswordError::TooShort);
    let thirteen = "x".repeat(13);
    assert_eq!(check_new_password(&thirteen, &thirteen).unwrap_err(), NewPasswordError::TooShort);
    let fourteen = "x".repeat(14);
    assert!(check_new_password(&fourteen, &fourteen).is_ok());
    let longest = "x".repeat(127);
    assert!(check_new_password(&longest, &longest).is_ok());
    let too_long = "x".repeat(128);
    assert_eq!(check_new_password(&too_long, &too_long).unwrap_err(), NewPasswordError::TooLong);
    assert_eq!(NewPasswordError::TooShort.message(), "The new password is too short.");
    assert_eq!(NewPasswordError::TooLong.message(), "The new password is too long.");
}
