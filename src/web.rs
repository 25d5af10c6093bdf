use vstd::prelude::*;
use vstd::string::{StrSliceExecFns, StringExecFns};

verus! {

pub const STATUS_SEE_OTHER: u16 = 303;

pub const STATUS_UNAUTHORIZED: u16 = 401;

pub const STATUS_UNPROCESSABLE_ENTITY: u16 = 422;

pub const STATUS_INTERNAL_SERVER_ERROR: u16 = 500;

/// The form of a subscription request.
#[derive(Debug)]
pub struct NewSubscriberForm {
    pub email: String,
    pub name: String,
}

/// The query of a subscription confirmation.
#[derive(Debug)]
pub struct Params {
    pub subscription_token: String,
}

/// Why a subscription request failed.
#[derive(Debug)]
pub enum SubscribeError {
    /// The submitted form was refused; the text says why.
    ValidationError(String),
    UnexpectedError(String),
}

impl SubscribeError {
    pub fn status_code(&self) -> (r: u16)
        ensures
            r == (match self {
                SubscribeError::ValidationError(_) => STATUS_UNPROCESSABLE_ENTITY,
                SubscribeError::UnexpectedError(_) => STATUS_INTERNAL_SERVER_ERROR,
            }),
    {
        match self {
            SubscribeError::ValidationError(_) => STATUS_UNPROCESSABLE_ENTITY,
            SubscribeError::UnexpectedError(_) => STATUS_INTERNAL_SERVER_ERROR,
        }
    }

    /// The text the error is reported with: the cause it carries.
    pub fn message(&self) -> (r: String)
        ensures
            r@ == (match self {
                SubscribeError::ValidationError(m) => m@,
                SubscribeError::UnexpectedError(m) => m@,
            }),
    {
        match self {
            SubscribeError::ValidationError(m) => m.clone(),
            SubscribeError::UnexpectedError(m) => m.clone(),
        }
    }
}

/// Why a subscription confirmation failed.
#[derive(Debug)]
pub enum ConfirmationError {
    UnexpectedError(String),
    /// No subscriber holds the token.
    UnknownToken,
}

impl ConfirmationError {
    pub fn status_code(&self) -> (r: u16)
        ensures
            r == (match self {
                ConfirmationError::UnknownToken => STATUS_UNAUTHORIZED,
                ConfirmationError::UnexpectedError(_) => STATUS_INTERNAL_SERVER_ERROR,
            }),
    {
        match self {
            ConfirmationError::UnknownToken => STATUS_UNAUTHORIZED,
            ConfirmationError::UnexpectedError(_) => STATUS_INTERNAL_SERVER_ERROR,
        }
    }

    pub fn message(&self) -> (r: String)
        ensures
            r@ == (match self {
                ConfirmationError::UnknownToken => "There is no subscriber associated with the provided token"@,
                ConfirmationError::UnexpectedError(m) => m@,
            }),
    {
        match self {
            ConfirmationError::UnknownToken => String::from_str(
                "There is no subscriber associated with the provided token",
            ),
            ConfirmationError::UnexpectedError(m) => m.clone(),
        }
    }
}

/// Why a login failed.
#[derive(Debug)]
pub enum LoginError {
    /// The credentials were refused: the client is sent back to the login
    /// page.
    AuthError,
    UnexpectedError(String),
}

impl LoginError {
    pub fn status_code(&self) -> (r: u16)
        ensures
            r == (match self {
                LoginError::AuthError => STATUS_SEE_OTHER,
                LoginError::UnexpectedError(_) => STATUS_INTERNAL_SERVER_ERROR,
            }),
    {
        match self {
            LoginError::AuthError => STATUS_SEE_OTHER,
            LoginError::UnexpectedError(_) => STATUS_INTERNAL_SERVER_ERROR,
        }
    }

    pub fn message(&self) -> (r: String)
        ensures
            r@ == (match self {
                LoginError::AuthError => "Authentication failed"@,
                LoginError::UnexpectedError(_) => "Something went wrong"@,
            }),
    {
        match self {
            LoginError::AuthError => String::from_str("Authentication failed"),
            LoginError::UnexpectedError(_) => String::from_str("Something went wrong"),
        }
    }
}

/// A failure while rendering the admin dashboard.
#[derive(Debug)]
pub struct DashboardError {
    pub cause: String,
}

impl DashboardError {
    pub fn status_code(&self) -> (r: u16)
        ensures
            r == STATUS_INTERNAL_SERVER_ERROR,
    {
        STATUS_INTERNAL_SERVER_ERROR
    }

    pub fn message(&self) -> (r: String)
        ensures
            r@ == "Something went wrong"@,
    {
        String::from_str("Something went wrong")
    }
}

/// A failure while loading or storing a user session.
#[derive(Debug)]
pub struct SessionError {
    pub cause: String,
}

impl SessionError {
    pub fn status_code(&self) -> (r: u16)
        ensures
            r == STATUS_INTERNAL_SERVER_ERROR,
    {
        STATUS_INTERNAL_SERVER_ERROR
    }

    pub fn message(&self) -> (r: String)
        ensures
            r@ == self.cause@,
    {
        self.cause.clone()
    }
}


/// A new password must be longer than this many characters.
pub const PASSWORD_LOWER_BOUND: usize = 13;

/// A new password must be shorter than this many characters.
pub const PASSWORD_UPPER_BOUND: usize = 128;

/// Why a new password was refused.
#[derive(Debug, Clone, Copy, PartialEq, Eq, Structural)]
pub enum NewPasswordError {
    Mismatch,
    TooShort,
    TooLong,
}

impl NewPasswordError {
    pub fn message(&self) -> (r: String)
        ensures
            r@ == (match self {
                NewPasswordError::Mismatch => "You entered two different new passwords - the field values must match."@,
                NewPasswordError::TooShort => "The new password is too short."@,
                NewPasswordError::TooLong => "The new password is too long."@,
            }),
    {
        match self {
            NewPasswordError::Mismatch => String::from_str(
                "You entered two different new passwords - the field values must match.",
            ),
            NewPasswordError::TooShort => String::from_str("The new password is too short."),
            NewPasswordError::TooLong => String::from_str("The new password is too long."),
        }
    }
}

/// Checks a new password and its confirmation: they must be equal, and
/// the password must be between the two bounds, both excluded.
pub fn check_new_password(new_password: &String, new_password_check: &String) -> (r: Result<
    (),
    NewPasswordError,
>)
    ensures
        new_password@ != new_password_check@ ==> r == Err::<(), NewPasswordError>(
            NewPasswordError::Mismatch,
        ),
        new_password@ == new_password_check@ && new_password@.len() <= PASSWORD_LOWER_BOUND
            ==> r == Err::<(), NewPasswordError>(NewPasswordError::TooShort),
        new_password@ == new_password_check@ && new_password@.len() >= PASSWORD_UPPER_BOUND
            ==> r == Err::<(), NewPasswordError>(NewPasswordError::TooLong),
        r is Ok <==> new_password@ == new_password_check@ && PASSWORD_LOWER_BOUND < new_password@.len() < PASSWORD_UPPER_BOUND,
{
    if !new_password.eq(new_password_check) {
        return Err(NewPasswordError::Mismatch);
    }
    let len = new_password.as_str().unicode_len();
    if len <= PASSWORD_LOWER_BOUND {
        return Err(NewPasswordError::TooShort);
    }
    if len >= PASSWORD_UPPER_BOUND {
        return Err(NewPasswordError::TooLong);
    }
    Ok(())
}

} // verus!
