//! Validation errors.

use crate::config::path::{Path, PathSegment, Segment};
use vstd::prelude::*;
use vstd::string::*;

verus! {

/// The message of the error for a required setting that has no value.
pub open spec fn required_message() -> Seq<char> {
    "this setting is required"@
}

/// Error for a single validation failure.
#[derive(Clone, Debug, PartialEq, Eq)]
pub struct ValidateError {
    /// Failure message.
    pub message: String,
    /// Relative path to the setting that failed validation.
    pub path: Path,
}

impl ValidateError {
    /// Create a new validation error with the provided message.
    pub fn new(message: &str) -> (r: Self)
        ensures
            r.message@ == message@,
            r.path@ == Seq::<Segment>::empty(),
    {
        ValidateError { message: message.to_owned(), path: Path::default() }
    }

    /// Create a new validation error for a required setting.
    pub fn required() -> (r: Self)
        ensures
            r.message@ == required_message(),
            r.path@ == Seq::<Segment>::empty(),
    {
        ValidateError { message: String::from_str("this setting is required"), path: Path::default() }
    }

    /// Create a new validation error with the provided message and [`Path`].
    pub fn with_path(message: &str, path: Path) -> (r: Self)
        ensures
            r.message@ == message@,
            r.path == path,
    {
        ValidateError { message: message.to_owned(), path }
    }

    /// Create a new validation error with the provided message and path [`PathSegment`].
    pub fn with_segment(message: &str, segment: PathSegment) -> (r: Self)
        ensures
            r.message@ == message@,
            r.path@ == seq![segment@],
    {
        let mut segments: Vec<PathSegment> = Vec::new();
        segments.push(segment);
        let r = Self::with_segments(message, segments);
        assert(r.path@ =~= seq![segment@]);
        r
    }

    /// Create a new validation error with the provided message and multiple path [`PathSegment`]s.
    pub fn with_segments(message: &str, segments: Vec<PathSegment>) -> (r: Self)
        ensures
            r.message@ == message@,
            r.path@ == segments@.map_values(|s: PathSegment| s@),
    {
        ValidateError { message: message.to_owned(), path: Path::new(segments) }
    }

    /// Place `path` in front of the path of this error.
    pub fn prepend_path(&mut self, path: Path)
        ensures
            final(self).message == old(self).message,
            final(self).path@ == path@ + old(self).path@,
    {
        self.path = path.join_path(&self.path);
    }
}

/// Error that contains multiple validation errors, for each setting that failed.
#[derive(Clone, Debug, PartialEq, Eq)]
pub struct ValidatorError {
    /// A list of validation errors for the current path. Includes nested errors.
    pub errors: Vec<ValidateError>,
}

/// Prepending an inner path, then an outer one, places both in front of the error's own
/// path, outer first: a nested error ends up with its full path from the root.
pub proof fn lemma_prepend_twice(
    error: ValidateError,
    once: ValidateError,
    twice: ValidateError,
    inner: Path,
    outer: Path,
)
    requires
        once.message == error.message,
        once.path@ == inner@ + error.path@,
        twice.message == once.message,
        twice.path@ == outer@ + once.path@,
    ensures
        twice.message == error.message,
        twice.path@ == outer@ + inner@ + error.path@,
{
    assert(twice.path@ =~= outer@ + inner@ + error.path@);
}

} // verus!
