//! The errors a ledger operation can surface.

use vstd::prelude::*;

verus! {

/// The kinds of failure the ledger distinguishes.
///
/// `Validation`: a name was empty or longer than 20 characters, rejected
/// before any store is touched. `NotFound`: a remote conditional update
/// found no row (recovered internally, never surfaced by `increment`).
/// `Io`: the local document could not be read or written for a reason other
/// than being absent. `Transport`: a remote call failed or answered with an
/// error status. `Serialization`: a document or response body did not parse.
#[derive(Clone, Copy, Debug, PartialEq, Eq, Structural)]
pub enum ErrorKind {
    Validation,
    NotFound,
    Io,
    Transport,
    Serialization,
}

/// An error from a ledger operation: its kind, and a message for the user.
#[derive(Debug, Clone)]
pub struct StrikeError {
    pub kind: ErrorKind,
    pub message: String,
}

impl StrikeError {
    pub fn validation(message: String) -> (r: StrikeError)
        ensures
            r.kind == ErrorKind::Validation,
            r.message == message,
    {
        StrikeError { kind: ErrorKind::Validation, message }
    }

    pub fn io(message: String) -> (r: StrikeError)
        ensures
            r.kind == ErrorKind::Io,
            r.message == message,
    {
        StrikeError { kind: ErrorKind::Io, message }
    }

    pub fn transport(message: String) -> (r: StrikeError)
        ensures
            r.kind == ErrorKind::Transport,
            r.message == message,
    {
        StrikeError { kind: ErrorKind::Transport, message }
    }

    pub fn serialization(message: String) -> (r: StrikeError)
        ensures
            r.kind == ErrorKind::Serialization,
            r.message == message,
    {
        StrikeError { kind: ErrorKind::Serialization, message }
    }

    pub fn not_found(message: String) -> (r: StrikeError)
        ensures
            r.kind == ErrorKind::NotFound,
            r.message == message,
    {
        StrikeError { kind: ErrorKind::NotFound, message }
    }

    /// The message, for display by an unverified caller.
    pub fn message(&self) -> (r: String)
        ensures
            r == self.message,
    {
        self.message.clone()
    }
}

} // verus!
