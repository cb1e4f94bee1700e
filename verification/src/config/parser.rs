//! Errors of parsing.

use vstd::prelude::*;

verus! {

/// Error for a single parse failure.
#[derive(Clone, Debug, PartialEq, Eq)]
pub struct ParseError {
    /// Failure message.
    pub message: String,
}

impl ParseError {
    /// Create a new parse error with the provided message.
    pub fn new(message: &str) -> (r: Self)
        ensures
            r.message@ == message@,
    {
        ParseError { message: message.to_string() }
    }
}

} // verus!
