//! Business errors of the application layer, independent of any web framework.

use crate::config::{decimal_text, decimal_u16};
use vstd::prelude::*;

verus! {

/// The unified business error.
#[derive(Debug)]
pub enum AppError {
    /// Bad request (400).
    BadRequest(String),
    /// Unauthorized (401).
    Unauthorized(String),
    /// Resource not found (404).
    NotFound(String),
    /// Internal server error (500).
    Internal(String),
}

impl AppError {
    /// The status code that each kind of error stands for.
    pub open spec fn spec_status_code(&self) -> u16 {
        match self {
            AppError::BadRequest(_) => 400,
            AppError::Unauthorized(_) => 401,
            AppError::NotFound(_) => 404,
            AppError::Internal(_) => 500,
        }
    }

    /// The message that an error carries.
    pub open spec fn spec_message(&self) -> Seq<char> {
        match self {
            AppError::BadRequest(m) => m@,
            AppError::Unauthorized(m) => m@,
            AppError::NotFound(m) => m@,
            AppError::Internal(m) => m@,
        }
    }

    /// A bad request (400) with a message.
    pub fn bad_request(msg: &str) -> (e: Self)
        ensures
            e is BadRequest,
            e.spec_message() == msg@,
    {
        AppError::BadRequest(msg.to_string())
    }

    /// An unauthorized request (401) with a message.
    pub fn unauthorized(msg: &str) -> (e: Self)
        ensures
            e is Unauthorized,
            e.spec_message() == msg@,
    {
        AppError::Unauthorized(msg.to_string())
    }

    /// A missing resource (404) with a message.
    pub fn not_found(msg: &str) -> (e: Self)
        ensures
            e is NotFound,
            e.spec_message() == msg@,
    {
        AppError::NotFound(msg.to_string())
    }

    /// An internal failure (500) with a message.
    pub fn internal(msg: &str) -> (e: Self)
        ensures
            e is Internal,
            e.spec_message() == msg@,
    {
        AppError::Internal(msg.to_string())
    }

    /// The business status code, with the meaning of the HTTP status of the same number.
    pub fn status_code(&self) -> (code: u16)
        ensures
            code == self.spec_status_code(),
    {
        match self {
            AppError::BadRequest(_) => 400,
            AppError::Unauthorized(_) => 401,
            AppError::NotFound(_) => 404,
            AppError::Internal(_) => 500,
        }
    }

    /// The message shown to the client.
    pub fn message(&self) -> (m: &str)
        ensures
            m@ == self.spec_message(),
    {
        match self {
            AppError::BadRequest(m) => m.as_str(),
            AppError::Unauthorized(m) => m.as_str(),
            AppError::NotFound(m) => m.as_str(),
            AppError::Internal(m) => m.as_str(),
        }
    }

    /// The error as a line of text: `[code] message`.
    pub fn to_text(&self) -> (t: String)
        ensures
            t@ == "["@ + decimal_text(self.spec_status_code() as nat) + "] "@ + self.spec_message(),
    {
        let mut t = "[".to_string();
        let code = decimal_u16(self.status_code());
        t.append(code.as_str());
        t.append("] ");
        t.append(self.message());
        t
    }
}

/// The result type of the application services.
pub type AppResult<T> = Result<T, AppError>;

} // verus!
