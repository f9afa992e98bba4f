//! The errors that request handlers answer with.
use vstd::prelude::*;

verus! {

/// An error of a request handler.
#[derive(Debug)]
pub enum AppError {
    /// The credentials are missing or wrong: `401 Unauthorized`.
    Unauthorized,
    /// The input cannot be used, with the reason: `400 Bad Request`.
    BadRequest(String),
    /// Something failed on the server's side, with the reason:
    /// `500 Internal Server Error`.
    Internal(String),
}

/// The result of a request handler.
pub type AppResult<T> = Result<T, AppError>;

} // verus!
