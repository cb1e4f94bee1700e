//! Errors of merge strategies.

use vstd::prelude::*;

verus! {

/// The result of a merge strategy: the merged value, none, or a failure.
pub type MergeResult<T> = Result<Option<T>, MergeError>;

/// Error for merge failures.
#[derive(Clone, Debug, PartialEq, Eq)]
pub struct MergeError(pub String);

impl MergeError {
    /// Create a merge error whose message is the displayed form of `message`.
    pub fn new<T: std::fmt::Display>(message: T) -> (r: Self)
        ensures
            vstd::string::to_string_from_display_ensures::<T>(&message, r.0),
    {
        MergeError(message.to_string())
    }
}

} // verus!
