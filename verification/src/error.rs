//! The library's error type: a kind that callers can branch on, and a
//! human-readable message.

use vstd::prelude::*;

verus! {

/// Errors of the library and of the application around it. I/O, JSON and
/// database failures carry the text of the underlying error.
#[derive(Debug, Clone, PartialEq, Eq)]
pub enum AppError {
    Io(String),
    Json(String),
    Db(String),
    Player(String),
    NotFound(String),
    InvalidArgument(String),
    Other(String),
}

/// The stable, machine-readable kind of an error.
pub open spec fn error_kind(e: AppError) -> Seq<char> {
    match e {
        AppError::Io(_) => "io"@,
        AppError::Json(_) => "json"@,
        AppError::Db(_) => "db"@,
        AppError::Player(_) => "player"@,
        AppError::NotFound(_) => "not_found"@,
        AppError::InvalidArgument(_) => "invalid_argument"@,
        AppError::Other(_) => "other"@,
    }
}

/// The message of an error: a prefix naming the kind, then the detail
/// (no prefix for `Other`).
pub open spec fn error_message(e: AppError) -> Seq<char> {
    match e {
        AppError::Io(m) => "io error: "@ + m@,
        AppError::Json(m) => "json error: "@ + m@,
        AppError::Db(m) => "database error: "@ + m@,
        AppError::Player(m) => "player error: "@ + m@,
        AppError::NotFound(m) => "not found: "@ + m@,
        AppError::InvalidArgument(m) => "invalid argument: "@ + m@,
        AppError::Other(m) => m@,
    }
}

impl AppError {
    /// The kind sent along with the message (see [`error_kind`]).
    pub fn kind(&self) -> (r: &'static str)
        ensures
            r@ == error_kind(*self),
    {
        match self {
            AppError::Io(_) => "io",
            AppError::Json(_) => "json",
            AppError::Db(_) => "db",
            AppError::Player(_) => "player",
            AppError::NotFound(_) => "not_found",
            AppError::InvalidArgument(_) => "invalid_argument",
            AppError::Other(_) => "other",
        }
    }

    /// The message shown to the user (see [`error_message`]).
    pub fn message(&self) -> (r: String)
        ensures
            r@ == error_message(*self),
    {
        match self {
            AppError::Io(m) => crate::text::concat_str("io error: ", m.as_str()),
            AppError::Json(m) => crate::text::concat_str("json error: ", m.as_str()),
            AppError::Db(m) => crate::text::concat_str("database error: ", m.as_str()),
            AppError::Player(m) => crate::text::concat_str("player error: ", m.as_str()),
            AppError::NotFound(m) => crate::text::concat_str("not found: ", m.as_str()),
            AppError::InvalidArgument(m) => crate::text::concat_str("invalid argument: ", m.as_str()),
            AppError::Other(m) => m.clone(),
        }
    }
}

} // verus!
