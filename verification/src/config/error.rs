//! Errors of configuration handling.

use crate::format::UnsupportedFormatError;
use crate::config::merger::MergeError;
use crate::config::validator::ValidatorError;
use crate::text::{push_char, trim, trimmed};
use vstd::prelude::*;
use vstd::string::*;

verus! {

/// The result of parsing an environment variable: a value, none, or a failure.
pub type ParseEnvResult<T> = Result<Option<T>, HandlerError>;

/// The result of a default value function: a value, none, or a failure.
pub type DefaultValueResult<T> = Result<Option<T>, HandlerError>;

/// Error for handler functions.
#[derive(Clone, Debug, PartialEq, Eq)]
pub struct HandlerError(pub String);

impl HandlerError {
    /// Create a handler error whose message is the displayed form of `message`.
    pub fn new<T: std::fmt::Display>(message: T) -> (r: Self)
        ensures
            vstd::string::to_string_from_display_ensures::<T>(&message, r.0),
    {
        HandlerError(message.to_string())
    }
}

/// All configuration based errors.
#[derive(Clone, Debug, PartialEq, Eq)]
pub enum ConfigError {
    Handler(HandlerError),
    Merge(MergeError),
    UnsupportedFormat(UnsupportedFormatError),
    EnumInvalidFallback(String),
    EnumUnknownVariant(String),
    ExtendsFromNoCode,
    ExtendsFromParentFileOnly,
    HttpsOnly(String),
    InvalidCode,
    InvalidDefaultValue(String),
    InvalidFile,
    InvalidUrl,
    MissingFile(String),
    ReadFileFailed { path: String, error: String },
    ReadUrlFailed { url: String, error: String },
    PklEvalFailed { path: String, error: String },
    PklFileRequired,
    PklRequired,
    JsonStripCommentsFailed { file: String, error: String },
    /// A source failed to parse: where it comes from, the dot-notated path to the field
    /// that failed, the failure message, and help text.
    Parser { location: String, path: String, message: String, help: Option<String> },
    /// A configuration failed to validate: where it comes from, its errors, and help text.
    Validator { location: String, error: ValidatorError, help: Option<String> },
}

/// What follows the message of an error in its full form.
#[derive(Clone, Debug, PartialEq, Eq)]
pub enum ErrorDetail {
    /// The error says all there is to say.
    Nothing,
    /// The message of the error that caused it.
    Cause(String),
    /// The messages of the errors it gathers, one per line.
    Errors(Vec<String>),
}

/// A message made to end in a separator: kept as it is after a newline, followed by a
/// space after a period or a colon, and by a period and a space otherwise.
pub open spec fn punctuated(message: Seq<char>) -> Seq<char> {
    if message.len() > 0 && message.last() == '\n' {
        message
    } else if message.len() > 0 && (message.last() == '.' || message.last() == ':') {
        message.push(' ')
    } else {
        message.push('.').push(' ')
    }
}

/// Each message on a line of its own, indented by two spaces.
pub open spec fn listed(errors: Seq<Seq<char>>) -> Seq<char>
    decreases errors.len(),
{
    if errors.len() == 0 {
        Seq::empty()
    } else {
        listed(errors.drop_last()) + "\n  "@ + errors.last()
    }
}

/// The full form of an error: its message, then after a separator its cause, or the errors
/// it gathers one per line; whitespace trimmed from both ends.
pub open spec fn full_message(message: Seq<char>, detail: ErrorDetail) -> Seq<char> {
    trimmed(
        match detail {
            ErrorDetail::Nothing => message,
            ErrorDetail::Cause(cause) => punctuated(message) + cause@,
            ErrorDetail::Errors(errors) => punctuated(message) + listed(
                errors@.map_values(|e: String| e@),
            ),
        },
    )
}

/// End a message in the separator that comes before what follows it.
fn punctuate(out: &mut String)
    ensures
        final(out)@ == punctuated(old(out)@),
{
    let n = out.as_str().unicode_len();
    let last: Option<char> = if n > 0 {
        Some(out.as_str().get_char(n - 1))
    } else {
        None
    };
    match last {
        Some('\n') => {},
        Some('.') | Some(':') => push_char(out, ' '),
        _ => {
            push_char(out, '.');
            push_char(out, ' ');
        },
    }
}

/// Return a full error string from the message of an error and what follows it,
/// disregarding any diagnostic structure.
pub fn full_error_message(message: &str, detail: &ErrorDetail) -> (r: String)
    ensures
        r@ == full_message(message@, *detail),
{
    let mut out = message.to_string();
    match detail {
        ErrorDetail::Nothing => {},
        ErrorDetail::Cause(cause) => {
            punctuate(&mut out);
            out.append(cause.as_str());
        },
        ErrorDetail::Errors(errors) => {
            punctuate(&mut out);
            let ghost head = out@;
            let ghost all = errors@.map_values(|e: String| e@);
            let mut i: usize = 0;
            while i < errors.len()
                invariant
                    i <= errors@.len(),
                    all == errors@.map_values(|e: String| e@),
                    out@ == head + listed(all.take(i as int)),
                decreases errors@.len() - i,
            {
                out.append("\n  ");
                out.append(errors[i].as_str());
                assert(all.take(i + 1).drop_last() =~= all.take(i as int));
                i = i + 1;
            }
            assert(all.take(errors@.len() as int) =~= all);
        },
    }
    trim(out.as_str()).to_string()
}

} // verus!
