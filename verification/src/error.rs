//! The library's error type.
use vstd::prelude::*;

verus! {

/// Why an operation failed.
#[derive(Debug)]
pub enum AppError {
    /// A failure described by a message for the user.
    Message(String),
    /// The server (or the demo fixture server) answered with an error status.
    Http { status: u16, url: String, message: String },
    /// Neither a token nor a username and password were given.
    MissingCredentials,
    /// An update request that would change nothing.
    NoFieldsToUpdate,
    /// A body could not be read or written as JSON.
    Json(String),
}

} // verus!
