//! The errors that the library reports.

use vstd::prelude::*;

verus! {

/// What went wrong while serving a request.
#[derive(Clone, Copy, Debug, PartialEq, Eq, Structural)]
pub enum AppError {
    /// The local store failed to answer or to insert.
    Database,
    MissingCredentials,
    InvalidPassword,
    UserDoesNotExist,
    UserAlreadyExists,
    /// A date text is not `YYYY-MM-DD` or names no day.
    InvalidDate,
    /// The remote feed could not be reached.
    RequestAPI,
    /// A feed response is not JSON of the expected shape, or a field of it
    /// is not the number it should be.
    SerdeFailedParse,
    InvalidToken,
    InternalServerError,
}

pub open spec fn status_of(e: AppError) -> u16 {
    match e {
        AppError::Database | AppError::InvalidDate | AppError::RequestAPI
        | AppError::SerdeFailedParse => 503,
        AppError::MissingCredentials | AppError::InvalidPassword | AppError::UserDoesNotExist
        | AppError::UserAlreadyExists | AppError::InvalidToken => 401,
        AppError::InternalServerError => 500,
    }
}

/// The fixed message of an error that carries no cause of its own.
pub open spec fn fixed_message_of(e: AppError) -> Option<Seq<char>> {
    match e {
        AppError::MissingCredentials => Some(
            "Your credentials were missing or otherwise incorrect"@,
        ),
        AppError::UserDoesNotExist => Some("Your account does not exist!"@),
        AppError::UserAlreadyExists => Some(
            "There is already an account with that email address in the system"@,
        ),
        AppError::InvalidToken => Some("Invalid Token"@),
        AppError::InvalidPassword => Some("Invalid Password"@),
        AppError::InternalServerError => Some("Something terrible happened"@),
        _ => None,
    }
}

impl AppError {
    /// The HTTP status that answers this error: service unavailable for the
    /// store, the feed, dates and parsing; unauthorized for credentials.
    pub fn status_code(&self) -> (r: u16)
        ensures
            r == status_of(*self),
    {
        match self {
            AppError::Database | AppError::InvalidDate | AppError::RequestAPI
            | AppError::SerdeFailedParse => 503,
            AppError::MissingCredentials | AppError::InvalidPassword
            | AppError::UserDoesNotExist | AppError::UserAlreadyExists
            | AppError::InvalidToken => 401,
            AppError::InternalServerError => 500,
        }
    }

    /// The fixed message of an error that carries no cause of its own.
    pub fn fixed_message(&self) -> (r: Option<&'static str>)
        ensures
            match r {
                Some(m) => fixed_message_of(*self) == Some(m@),
                None => fixed_message_of(*self) is None,
            },
    {
        match self {
            AppError::MissingCredentials => Some(
                "Your credentials were missing or otherwise incorrect",
            ),
            AppError::UserDoesNotExist => Some("Your account does not exist!"),
            AppError::UserAlreadyExists => Some(
                "There is already an account with that email address in the system",
            ),
            AppError::InvalidToken => Some("Invalid Token"),
            AppError::InvalidPassword => Some("Invalid Password"),
            AppError::InternalServerError => Some("Something terrible happened"),
            _ => None,
        }
    }
}

} // verus!
