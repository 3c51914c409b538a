//! What input and output report back: an error, or that a deadline passed.
use vstd::prelude::*;

verus! {

/// The kinds of input and output errors that are told apart.
#[derive(Debug, Clone, Copy, PartialEq, Eq, Structural)]
pub enum IoErrorKind {
    TimedOut,
    InvalidData,
    ConnectionAborted,
    Other,
}

/// An input or output error: its kind, and what it says.
#[derive(Debug, PartialEq, Eq)]
pub struct IoError {
    pub kind: IoErrorKind,
    pub text: String,
}

impl View for IoError {
    type V = (IoErrorKind, Seq<char>);

    open spec fn view(&self) -> (IoErrorKind, Seq<char>) {
        (self.kind, self.text@)
    }
}

impl IoError {
    /// An error of the given kind that says `text`.
    pub fn new(kind: IoErrorKind, text: &str) -> (error: IoError)
        ensures
            error@ == (kind, text@),
    {
        IoError { kind, text: text.to_owned() }
    }
}

/// How an operation ended that was given a deadline.
#[derive(Debug)]
pub enum Timed<T> {
    Done(T),
    Failed(IoError),
    TimedOut,
}

/// An error is seen as its kind and its text.
pub proof fn errors_are_seen_whole(error: IoError)
    ensures
        error@.0 == error.kind,
        error@.1 == error.text@,
{
}

} // verus!
