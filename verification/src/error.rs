use vstd::prelude::*;

verus! {

/// What went wrong while reading or decoding.
#[derive(Debug, PartialEq, Eq, Structural)]
pub enum ErrorKind {
    OutOfRange,
    OutOfMemory,
    BrokenPacket,
    EOF,
    Deprecated,
    NotImplement,
    Other,
}

/// An error: its kind and a human readable message.
#[derive(Debug)]
pub struct Error {
    pub kind: ErrorKind,
    pub message: String,
}

impl Error {
    /// Builds an error of `kind` whose message is `msg`.
    pub fn new(kind: ErrorKind, msg: &str) -> (e: Error)
        ensures
            e.kind == kind,
            e.message@ == msg@,
    {
        Error { kind, message: msg.to_owned() }
    }
}

pub type Result<T> = core::result::Result<T, Error>;

} // verus!
