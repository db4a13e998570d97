//! The error kinds that request handling answers with.
use vstd::prelude::*;

verus! {

/// What kind of failure a request ends in (the Matrix `errcode` family).
#[derive(Debug, Clone, Copy, PartialEq, Eq, Structural)]
pub enum ErrorKind {
    Forbidden,
    NotFound,
    InvalidParam,
    MissingParam,
    BadJson,
    BadState,
    InvalidUsername,
    UserInUse,
    Exclusive,
    UserDeactivated,
    IncompatibleRoomVersion,
    UnableToAuthorizeJoin,
    UnableToGrantJoin,
    Conflict,
    Unknown,
    BadServerResponse,
    BadConfig,
    BadDatabase,
    RoomInUse,
    UnsupportedRoomVersion,
    NotJson,
}

/// A refused request: its kind and the message sent back.
#[derive(Debug, Clone, Copy)]
pub struct Error {
    pub kind: ErrorKind,
    pub message: &'static str,
}

impl Error {
    /// An error of the given kind with the given message.
    pub fn new(kind: ErrorKind, message: &'static str) -> (e: Error)
        ensures
            e.kind == kind,
            e.message == message,
    {
        Error { kind, message }
    }
}

} // verus!
