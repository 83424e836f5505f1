//! Why the server refuses a request.
use vstd::prelude::*;

verus! {

/// A refusal.
#[derive(Debug)]
pub enum ServerError {
    /// The request is not one that can be answered.
    BadRequest(String),
    /// What is asked for is not there.
    NotFound(String),
    /// The server could not do its part.
    Internal(String),
}

/// What a [`ServerError`] says, as plain values.
pub enum Refusal {
    BadRequest(Seq<char>),
    NotFound(Seq<char>),
    Internal(Seq<char>),
}

impl View for ServerError {
    type V = Refusal;

    open spec fn view(&self) -> Refusal {
        match self {
            ServerError::BadRequest(text) => Refusal::BadRequest(text@),
            ServerError::NotFound(text) => Refusal::NotFound(text@),
            ServerError::Internal(text) => Refusal::Internal(text@),
        }
    }
}

} // verus!
