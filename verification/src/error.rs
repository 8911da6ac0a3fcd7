//! The error that every fallible operation of the runner reports.
use vstd::prelude::*;

use crate::text::to_string;

verus! {

/// An error with the message that the command line prints after `error: `.
#[derive(Debug)]
pub struct FfiError {
    message: String,
}

impl View for FfiError {
    type V = Seq<char>;

    /// The message.
    closed spec fn view(&self) -> Seq<char> {
        self.message@
    }
}

impl FfiError {
    /// An error carrying `msg`.
    pub fn new(msg: &str) -> (e: FfiError)
        ensures
            e@ == msg@,
    {
        FfiError { message: to_string(msg) }
    }

    /// An error carrying the owned message `msg`.
    pub fn from_string(msg: String) -> (e: FfiError)
        ensures
            e@ == msg@,
    {
        FfiError { message: msg }
    }

    /// The message, as the error displays itself.
    pub fn to_string(&self) -> (s: String)
        ensures
            s@ == self@,
    {
        self.message.clone()
    }
}

} // verus!
