//! The source formats: which sources each one parses, and the preparation of the content
//! before it reaches the deserializer.

use crate::config::error::ConfigError;
use crate::config::source::{source_file_ext, source_file_name, Source};
use crate::text::eq_str;
use vstd::prelude::*;

verus! {

/// What `json_strip_comments::strip` leaves of `content`: its comments and trailing commas
/// blanked out, or nothing when a `/` outside a string begins no comment.
pub uninterp spec fn json_comments_stripped(content: Seq<char>) -> Option<Seq<char>>;

/// Calls `json_strip_comments::strip` on a copy of `content`. Claims that the outcome is a
/// function of `content` alone; the message of a failure is not stated.
#[verifier::external_body]
fn strip_json_comments(content: &str) -> (r: Result<String, String>)
    ensures
        match r {
            Ok(stripped) => json_comments_stripped(content@) == Some(stripped@),
            Err(_) => json_comments_stripped(content@) is None,
        },
{
    let mut stripped = content.to_string();
    match json_strip_comments::strip(&mut stripped) {
        Ok(()) => Ok(stripped),
        Err(error) => Err(error.to_string()),
    }
}

/// How many bytes UTF-8 takes to encode `c`.
pub open spec fn utf8_width(c: char) -> int {
    if (c as u32) < 0x80 {
        1
    } else if (c as u32) < 0x800 {
        2
    } else if (c as u32) < 0x10000 {
        3
    } else {
        4
    }
}

/// How many bytes UTF-8 takes to encode `s`: the length of a `str` holding it.
pub open spec fn utf8_size(s: Seq<char>) -> int
    decreases s.len(),
{
    if s.len() == 0 {
        0
    } else {
        utf8_size(s.drop_last()) + utf8_width(s.last())
    }
}

proof fn lemma_utf8_size_prefix(s: Seq<char>, i: int)
    requires
        0 <= i < s.len(),
    ensures
        utf8_size(s.take(i + 1)) == utf8_size(s.take(i)) + utf8_width(s[i]),
        utf8_size(s.take(i + 1)) <= utf8_size(s),
    decreases s.len() - i,
{
    assert(s.take(i + 1).drop_last() =~= s.take(i));
    if i + 1 < s.len() {
        lemma_utf8_size_prefix(s, i + 1);
    } else {
        assert(s.take(i + 1) =~= s);
    }
}

/// Walks `content` from its `i`-th character, at the zero-based `line` and `col` and the
/// byte `offset`, until the one-based `loc_line` and `loc_col` are reached or the content
/// ends; the byte offset reached.
pub open spec fn offset_from(
    content: Seq<char>,
    loc_line: int,
    loc_col: int,
    i: int,
    line: int,
    col: int,
    offset: int,
) -> int
    decreases content.len() - i,
{
    if i < 0 || i >= content.len() || (line + 1 >= loc_line && col + 1 >= loc_col) {
        offset
    } else if content[i] == '\n' {
        offset_from(content, loc_line, loc_col, i + 1, line + 1, 0, offset + 1)
    } else {
        offset_from(content, loc_line, loc_col, i + 1, line, col + 1, offset + utf8_width(content[i]))
    }
}

/// The byte offset of a one-based line and column of `content`, as
/// `miette::SourceOffset::from_location` finds it: out of range, the end of the content.
pub open spec fn location_offset(content: Seq<char>, line: usize, column: usize) -> int {
    offset_from(content, line as int, column as int, 0, 0, 0, 0)
}

/// The UTF-8 width of a character.
fn utf8_len(c: char) -> (r: usize)
    ensures
        r == utf8_width(c),
        1 <= r <= 4,
{
    let code = c as u32;
    if code < 0x80 {
        1
    } else if code < 0x800 {
        2
    } else if code < 0x10000 {
        3
    } else {
        4
    }
}

/// The span of a parse failure: the byte offset of its one-based line and column, and no
/// length.
pub fn create_span(content: &str, line: usize, column: usize) -> (r: (usize, usize))
    requires
        utf8_size(content@) <= usize::MAX,
    ensures
        r == (location_offset(content@, line, column) as usize, 0usize),
        location_offset(content@, line, column) <= usize::MAX,
{
    let n = content.unicode_len();
    let mut i: usize = 0;
    let mut at_line: usize = 0;
    let mut at_col: usize = 0;
    let mut offset: usize = 0;
    while i < n && !(at_line + 1 >= line && at_col + 1 >= column)
        invariant
            n == content@.len(),
            utf8_size(content@) <= usize::MAX,
            i <= n,
            at_line <= i,
            at_col <= i,
            offset == utf8_size(content@.take(i as int)),
            offset_from(content@, line as int, column as int, i as int, at_line as int, at_col as int, offset as int)
                == location_offset(content@, line, column),
        decreases n - i,
    {
        let c = content.get_char(i);
        proof {
            lemma_utf8_size_prefix(content@, i as int);
        }
        if c == '\n' {
            at_col = 0;
            at_line = at_line + 1;
            offset = offset + 1;
        } else {
            at_col = at_col + 1;
            offset = offset + utf8_len(c);
        }
        i = i + 1;
    }
    (offset, 0)
}

/// The source's file extension is one of `a` and `b`.
pub open spec fn has_ext(source: Source, a: Seq<char>, b: Seq<char>) -> bool {
    source_file_ext(source) matches Some(ext) && (ext == a || ext == b)
}

fn ext_is(source: &Source, a: &str, b: &str) -> (r: bool)
    ensures
        r == has_ext(*source, a@, b@),
{
    match source.get_file_ext() {
        Some(ext) => eq_str(ext, a) || eq_str(ext, b),
        None => false,
    }
}

/// JSON, comments allowed.
#[derive(Debug, Default)]
pub struct JsonFormat;

/// The content handed to the JSON deserializer: an empty document reads as an empty
/// object, then comments are blanked out; a stray `/` is an error that names the source's
/// file.
pub open spec fn json_prepared(source: Source, content: Seq<char>, r: Result<String, ConfigError>) -> bool {
    let document = if content.len() == 0 {
        "{}"@
    } else {
        content
    };
    match json_comments_stripped(document) {
        Some(stripped) => r matches Ok(s) && s@ == stripped,
        None => r matches Err(ConfigError::JsonStripCommentsFailed { file, .. }) && file@
            == source_file_name(source),
    }
}

impl JsonFormat {
    /// Parses sources whose extension is `json` or `jsonc`.
    pub fn should_parse(&self, source: &Source) -> (r: bool)
        ensures
            r == has_ext(*source, "json"@, "jsonc"@),
    {
        ext_is(source, "json", "jsonc")
    }

    /// Prepare the content of a source for the JSON deserializer.
    pub fn prepare(&self, source: &Source, content: &str) -> (r: Result<String, ConfigError>)
        ensures
            json_prepared(*source, content@, r),
    {
        let document = if content.unicode_len() == 0 {
            "{}"
        } else {
            content
        };
        match strip_json_comments(document) {
            Ok(stripped) => Ok(stripped),
            Err(error) => Err(
                ConfigError::JsonStripCommentsFailed {
                    file: source.get_file_name().to_string(),
                    error,
                },
            ),
        }
    }
}

/// RON.
#[derive(Debug, Default)]
pub struct RonFormat;

impl RonFormat {
    /// Parses sources whose extension is `ron`.
    pub fn should_parse(&self, source: &Source) -> (r: bool)
        ensures
            r == has_ext(*source, "ron"@, "ron"@),
    {
        ext_is(source, "ron", "ron")
    }
}

/// TOML.
#[derive(Debug, Default)]
pub struct TomlFormat;

impl TomlFormat {
    /// Parses sources whose extension is `toml`.
    pub fn should_parse(&self, source: &Source) -> (r: bool)
        ensures
            r == has_ext(*source, "toml"@, "toml"@),
    {
        ext_is(source, "toml", "toml")
    }
}

/// YAML.
#[derive(Debug, Default)]
pub struct YamlFormat;

impl YamlFormat {
    /// Parses sources whose extension is `yml` or `yaml`.
    pub fn should_parse(&self, source: &Source) -> (r: bool)
        ensures
            r == has_ext(*source, "yml"@, "yaml"@),
    {
        ext_is(source, "yml", "yaml")
    }
}

#[verifier::external_type_specification]
#[verifier::external_body]
pub struct ExEvaluatorOptions(rpkl::EvaluatorOptions);

/// Pkl, evaluated by the `pkl` binary with these options.
pub struct PklFormat {
    options: rpkl::EvaluatorOptions,
}

/// The file a Pkl source is evaluated from: the file the cache keeps its content in, else
/// the file of a file source; a snippet or an uncached URL cannot be evaluated.
pub open spec fn pkl_file_for(source: Source, cache_path: Option<String>, r: Result<String, ConfigError>) -> bool {
    match cache_path {
        Some(p) => r matches Ok(f) && f@ == p@,
        None => match source {
            Source::File { path, .. } => r matches Ok(f) && f@ == path@,
            _ => r matches Err(ConfigError::PklFileRequired),
        },
    }
}

impl PklFormat {
    /// The options the evaluator is created with.
    pub closed spec fn evaluator_options(&self) -> rpkl::EvaluatorOptions {
        self.options
    }

    /// A Pkl format that evaluates with `options`.
    pub fn new(options: rpkl::EvaluatorOptions) -> (r: Self)
        ensures
            r.evaluator_options() == options,
    {
        PklFormat { options }
    }

    /// The options the evaluator is created with.
    pub fn options(&self) -> (r: &rpkl::EvaluatorOptions)
        ensures
            *r == self.evaluator_options(),
    {
        &self.options
    }

    /// Parses sources whose extension is `pkl`.
    pub fn should_parse(&self, source: &Source) -> (r: bool)
        ensures
            r == has_ext(*source, "pkl"@, "pkl"@),
    {
        ext_is(source, "pkl", "pkl")
    }

    /// The file to evaluate for a source, given the file the cache keeps its content in.
    pub fn file_path(&self, source: &Source, cache_path: Option<String>) -> (r: Result<String, ConfigError>)
        ensures
            pkl_file_for(*source, cache_path, r),
    {
        match cache_path {
            Some(p) => Ok(p),
            None => match source {
                Source::File { path, .. } => Ok(path.clone()),
                _ => Err(ConfigError::PklFileRequired),
            },
        }
    }
}

} // verus!
