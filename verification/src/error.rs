//! Errors that end a connection or stop the daemon.

use vstd::prelude::*;

verus! {

/// The kinds of [`IoError`] that the daemon raises.
#[derive(Clone, Copy, Debug, PartialEq, Eq, Structural)]
pub enum IoErrorKind {
    InvalidData,
    InvalidInput,
    Other,
}

/// An I/O error of a given kind with a message for the log.
#[derive(Debug)]
pub struct IoError {
    pub kind: IoErrorKind,
    pub message: String,
}

/// What an [`IoError`] says.
pub ghost struct IoErrorView {
    pub kind: IoErrorKind,
    pub message: Seq<char>,
}

impl View for IoError {
    type V = IoErrorView;

    open spec fn view(&self) -> IoErrorView {
        IoErrorView { kind: self.kind, message: self.message@ }
    }
}

impl IoError {
    /// An error of `kind` that says `message`.
    pub fn new(kind: IoErrorKind, message: &str) -> (error: IoError)
        ensures
            error@ == (IoErrorView { kind, message: message@ }),
    {
        IoError { kind, message: message.to_owned() }
    }
}

} // verus!
