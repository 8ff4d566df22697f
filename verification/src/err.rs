//! The error kinds a request can end in, as the session reports them.

use vstd::prelude::*;

verus! {

/// Which stage a failure belongs to: the transport, the remote service's
/// own error envelope, an unreadable response body, or a rejected local
/// input.
#[derive(Clone, Copy, Debug, PartialEq, Eq, Structural)]
pub enum ErrorKind {
    Transport,
    Api,
    Parse,
    Input,
}

/// A failure report with its stage and message.
#[derive(Debug)]
pub struct ApiError {
    pub kind: ErrorKind,
    pub message: String,
}

impl ApiError {
    /// An error reported by the remote service.
    pub fn new(message: &str) -> (r: ApiError)
        ensures
            r.kind == ErrorKind::Api,
            r.message@ == message@,
    {
        ApiError { kind: ErrorKind::Api, message: message.to_owned() }
    }

    /// An unreadable response body.
    pub fn parse(message: &str) -> (r: ApiError)
        ensures
            r.kind == ErrorKind::Parse,
            r.message@ == message@,
    {
        ApiError { kind: ErrorKind::Parse, message: message.to_owned() }
    }

    /// A network-level failure.
    pub fn transport(message: &str) -> (r: ApiError)
        ensures
            r.kind == ErrorKind::Transport,
            r.message@ == message@,
    {
        ApiError { kind: ErrorKind::Transport, message: message.to_owned() }
    }

    /// A rejected local input.
    pub fn input(message: &str) -> (r: ApiError)
        ensures
            r.kind == ErrorKind::Input,
            r.message@ == message@,
    {
        ApiError { kind: ErrorKind::Input, message: message.to_owned() }
    }
}

} // verus!
