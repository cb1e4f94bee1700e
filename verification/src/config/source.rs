//! Sources from which a configuration is loaded.

use crate::config::error::ConfigError;
use crate::format::{detected_format, Format};
use crate::helpers::{
    extract_file_ext, extract_file_name, file_ext_of, file_like, file_name_of, is_file_like,
    is_secure_url, secure_url,
    is_url_like, strip_bom,
};
use crate::text::lead_char_end;
use crate::text::{seq_starts_with, starts_with};
use vstd::prelude::*;
use vstd::string::*;

verus! {

/// Whether `std::path::Path::has_root` holds of this path.
pub uninterp spec fn path_has_root(p: Seq<char>) -> bool;

/// What `std::path::Path::parent` returns for this path.
pub uninterp spec fn path_parent(p: Seq<char>) -> Option<Seq<char>>;

/// What `std::path::Path::join` returns for these paths.
pub uninterp spec fn path_joined(base: Seq<char>, p: Seq<char>) -> Seq<char>;

/// What `std::path::Path::extension` returns for this path.
pub uninterp spec fn path_extension(p: Seq<char>) -> Option<Seq<char>>;

/// What `std::path::Path::file_name` returns for this path.
pub uninterp spec fn path_file_name(p: Seq<char>) -> Option<Seq<char>>;

/// Calls `std::path::Path::has_root`. Claims that the answer is a function of the path alone, under the
/// path rules of the platform the crate is built for.
#[verifier::external_body]
fn has_root(p: &str) -> (r: bool)
    ensures
        r == path_has_root(p@),
{
    std::path::Path::new(p).has_root()
}

/// Calls `std::path::Path::parent`. Claims that the result is a function of the path alone, under the
/// path rules of the platform the crate is built for.
#[verifier::external_body]
fn parent_of(p: &str) -> (r: Option<&str>)
    ensures
        r matches Some(q) ==> path_parent(p@) == Some(q@),
        r is None ==> path_parent(p@) is None,
{
    std::path::Path::new(p).parent().and_then(|q| q.to_str())
}

/// Calls `std::path::Path::join`. Claims that the result is a function of the two paths alone, under
/// the path rules of the platform the crate is built for.
#[verifier::external_body]
fn join_paths(base: &str, p: &str) -> (r: String)
    ensures
        r@ == path_joined(base@, p@),
{
    std::path::Path::new(base).join(p).to_string_lossy().into_owned()
}

/// Calls `std::path::Path::extension`. Claims that the result is a function of the path alone, under the
/// path rules of the platform the crate is built for, and, as the documentation says, that
/// an extension holds no period.
#[verifier::external_body]
fn extension_of(p: &str) -> (r: Option<&str>)
    ensures
        r matches Some(e) ==> path_extension(p@) == Some(e@),
        r matches Some(e) ==> !e@.contains('.'),
        r is None ==> path_extension(p@) is None,
{
    std::path::Path::new(p).extension().and_then(|e| e.to_str())
}

/// Calls `std::path::Path::file_name`. Claims that the result is a function of the path alone, under the
/// path rules of the platform the crate is built for.
#[verifier::external_body]
fn file_name_part(p: &str) -> (r: Option<&str>)
    ensures
        r matches Some(n) ==> path_file_name(p@) == Some(n@),
        r is None ==> path_file_name(p@) is None,
{
    std::path::Path::new(p).file_name().and_then(|n| n.to_str())
}

/// Source from which to load a configuration.
#[derive(Clone, Debug, PartialEq, Eq)]
pub enum Source {
    /// Inline code snippet of the configuration.
    Code { path: String, code: String, format: Format },
    /// File system path to the configuration.
    File { path: String, format: Format, required: bool },
    /// Secure URL to the configuration.
    Url { url: String, format: Format },
}

/// The path an extended file resolves to, relative to the file that extends it.
pub open spec fn resolved_path(value: Seq<char>, parent_path: Seq<char>) -> Seq<char> {
    if path_has_root(value) {
        value
    } else {
        path_joined(path_parent(parent_path).unwrap(), value)
    }
}

/// `value` without a leading `file://`.
pub open spec fn without_file_scheme(value: Seq<char>) -> Seq<char> {
    if seq_starts_with(value, "file://"@) {
        value.subrange(7, value.len() as int)
    } else {
        value
    }
}

/// A file source at `path` was made, or the error for a path whose format is not detected.
pub open spec fn file_source_made(path: Seq<char>, required: bool, r: Result<Source, ConfigError>) -> bool {
    match detected_format(path) {
        Some(f) => r matches Ok(Source::File { path: p, format, required: q }) && p@ == path
            && format == f && q == required,
        None => r matches Err(ConfigError::UnsupportedFormat(e)) && e.0@ == path,
    }
}

/// A URL source at `url` was made, or the error for a URL whose format is not detected.
pub open spec fn url_source_made(url: Seq<char>, r: Result<Source, ConfigError>) -> bool {
    match detected_format(url) {
        Some(f) => r matches Ok(Source::Url { url: u, format }) && u@ == url && format == f,
        None => r matches Err(ConfigError::UnsupportedFormat(e)) && e.0@ == url,
    }
}

/// A file path extended from a file source can be resolved against it: it is absolute, or
/// the parent's path has a directory.
pub open spec fn extendable(value: Seq<char>, parent_source: Option<&Source>) -> bool {
    match parent_source {
        Some(Source::File { path, .. }) => !is_url_like_seq(value) && is_file_like_seq(value)
            ==> path_has_root(without_file_scheme(value)) || path_parent(path@) is Some,
        _ => true,
    }
}

/// The source made from `value`: a URL source when it looks like a URL; else, when it
/// looks like a file, a required file source, resolved against the parent file source when
/// there is one, and an error under any other parent; else an error.
pub open spec fn source_made(value: Seq<char>, parent_source: Option<&Source>, r: Result<Source, ConfigError>) -> bool {
    if is_url_like_seq(value) {
        url_source_made(value, r)
    } else if is_file_like_seq(value) {
        match parent_source {
            None => file_source_made(without_file_scheme(value), true, r),
            Some(Source::File { path, .. }) => file_source_made(
                resolved_path(without_file_scheme(value), path@),
                true,
                r,
            ),
            Some(_) => r matches Err(ConfigError::ExtendsFromParentFileOnly),
        }
    } else {
        r matches Err(ConfigError::ExtendsFromNoCode)
    }
}

impl Source {
    /// Create a new source with the provided value. Will attempt to infer the
    /// type of source based on characters within the value:
    ///
    /// - Will be a URL, if the value starts with `http://`, `https://`, or `www`.
    /// - Will be a file, if the file ends in an extension, or contains path separators.
    /// - Otherwise will be an error.
    pub fn new(value: &str, parent_source: Option<&Source>) -> (r: Result<Source, ConfigError>)
        requires
            extendable(value@, parent_source),
        ensures
            source_made(value@, parent_source, r),
    {
        // Extending from a URL is allowed from any parent source
        if is_url_like(value) {
            return Source::url(value);
        }
        // Extending from a file is only allowed from file parent sources
        if is_file_like(value) {
            let value = if starts_with(value, "file://") {
                proof {
                    reveal_strlit("file://");
                }
                value.substring_char(7, value.unicode_len())
            } else {
                value
            };
            return match parent_source {
                None => Source::file(value, true),
                Some(Source::File { path: parent_path, .. }) => {
                    // Not absolute, so prefix with parent
                    if has_root(value) {
                        Source::file(value, true)
                    } else {
                        match parent_of(parent_path.as_str()) {
                            Some(parent) => {
                                let path = join_paths(parent, value);
                                Source::file(path.as_str(), true)
                            },
                            None => {
                                proof {
                                    assert(false);
                                }
                                Err(ConfigError::ExtendsFromParentFileOnly)
                            },
                        }
                    }
                },
                Some(_) => Err(ConfigError::ExtendsFromParentFileOnly),
            };
        }
        Err(ConfigError::ExtendsFromNoCode)
    }

    /// Whether a value can be resolved against the parent source: anything but a relative
    /// file path under a parent file path with no directory.
    pub fn is_extendable(value: &str, parent_source: Option<&Source>) -> (r: bool)
        ensures
            r == extendable(value@, parent_source),
    {
        match parent_source {
            Some(Source::File { path: parent_path, .. }) => {
                if is_url_like(value) || !is_file_like(value) {
                    return true;
                }
                let value = if starts_with(value, "file://") {
                    proof {
                        reveal_strlit("file://");
                    }
                    value.substring_char(7, value.unicode_len())
                } else {
                    value
                };
                has_root(value) || parent_of(parent_path.as_str()).is_some()
            },
            _ => true,
        }
    }

    /// Create a new source with the provided value, as `new` does, when the value can be
    /// resolved against the parent source; `None` when it cannot.
    pub fn new_checked(value: &str, parent_source: Option<&Source>) -> (r: Option<
        Result<Source, ConfigError>,
    >)
        ensures
            r is None <==> !extendable(value@, parent_source),
            r matches Some(made) ==> source_made(value@, parent_source, made),
    {
        if Source::is_extendable(value, parent_source) {
            Some(Source::new(value, parent_source))
        } else {
            None
        }
    }

    /// Create a new code snippet source.
    pub fn code(code: &str, format: Format) -> (r: Result<Source, ConfigError>)
        ensures
            r matches Ok(Source::Code { path, code: c, format: f }) && path@.len() == 0 && c@
                == code@ && f == format,
    {
        Ok(Source::Code { path: String::new(), code: code.to_owned(), format })
    }

    /// Create a new file source with the provided path.
    pub fn file(path: &str, required: bool) -> (r: Result<Source, ConfigError>)
        ensures
            file_source_made(path@, required, r),
    {
        match Format::detect(path) {
            Ok(format) => Ok(Source::File { format, path: path.to_owned(), required }),
            Err(e) => Err(ConfigError::UnsupportedFormat(e)),
        }
    }

    /// Create a new URL source with the provided URL.
    pub fn url(url: &str) -> (r: Result<Source, ConfigError>)
        ensures
            url_source_made(url@, r),
    {
        match Format::detect(url) {
            Ok(format) => Ok(Source::Url { format, url: url.to_owned() }),
            Err(e) => Err(ConfigError::UnsupportedFormat(e)),
        }
    }

    /// Return a file extension (without period) for the source if one is available.
    pub fn get_file_ext(&self) -> (r: Option<&str>)
        ensures
            r matches Some(e) ==> Some(e@) == source_file_ext(*self),
            r matches Some(e) ==> !e@.contains('.'),
            r is None ==> source_file_ext(*self) is None,
    {
        match self {
            Source::Code { path, .. } => extension_of(path.as_str()),
            Source::File { path, .. } => extension_of(path.as_str()),
            Source::Url { url, .. } => extract_file_ext(url.as_str()),
        }
    }

    /// Return a file name for the source.
    pub fn get_file_name(&self) -> (r: &str)
        ensures
            r@ == source_file_name(*self),
    {
        match self {
            Source::Code { path, .. } => match file_name_part(path.as_str()) {
                Some(name) => name,
                None => "unknown",
            },
            Source::File { path, .. } => match file_name_part(path.as_str()) {
                Some(name) => name,
                None => "unknown",
            },
            Source::Url { url, .. } => extract_file_name(url.as_str()),
        }
    }

    /// The location of the source: its path or URL, or `<code>` for a code snippet.
    pub fn as_str(&self) -> (r: &str)
        ensures
            r@ == match *self {
                Source::Code { .. } => "<code>"@,
                Source::File { path, .. } => path@,
                Source::Url { url, .. } => url@,
            },
    {
        match self {
            Source::Code { .. } => "<code>",
            Source::File { path, .. } => path.as_str(),
            Source::Url { url, .. } => url.as_str(),
        }
    }
}

/// Whether a value looks like a URL.
pub open spec fn is_url_like_seq(value: Seq<char>) -> bool {
    seq_starts_with(value, "https://"@) || seq_starts_with(value, "http://"@) || seq_starts_with(
        value,
        "www"@,
    )
}

/// Whether a value looks like a file.
pub open spec fn is_file_like_seq(value: Seq<char>) -> bool {
    file_like(value)
}

/// The file extension of a source, without its period.
pub open spec fn source_file_ext(s: Source) -> Option<Seq<char>> {
    match s {
        Source::Code { path, .. } => path_extension(path@),
        Source::File { path, .. } => path_extension(path@),
        Source::Url { url, .. } => file_ext_of(url@),
    }
}

/// The file name of a source, `unknown` for a path that has none.
pub open spec fn source_file_name(s: Source) -> Seq<char> {
    match s {
        Source::Code { path, .. } => match path_file_name(path@) {
            Some(n) => n,
            None => "unknown"@,
        },
        Source::File { path, .. } => match path_file_name(path@) {
            Some(n) => n,
            None => "unknown"@,
        },
        Source::Url { url, .. } => file_name_of(url@),
    }
}

/// What loading a source needs next.
#[derive(Debug, PartialEq, Eq)]
pub enum SourceAction {
    /// Parse `content` in `format`; `path` names the file it came from, if any.
    Parse { content: String, format: Format, path: Option<String> },
    /// Read the file at `path`, when it exists.
    ReadFile { path: String },
    /// Read the URL, from the cache or else over the network.
    ReadUrl { url: String },
    /// The source is missing and optional: the default configuration stands for it.
    UseDefault,
}

/// `content` without its leading byte order marks.
pub open spec fn without_bom(content: Seq<char>) -> Seq<char> {
    content.subrange(lead_char_end(content, '\u{feff}', 0), content.len() as int)
}

/// Only secure URLs are loaded, and local ones.
pub open spec fn is_secure_url_seq(url: Seq<char>) -> bool {
    secure_url(url)
}

/// The content to parse, its byte order marks stripped.
pub open spec fn parse_step(content: Seq<char>, format: Format, path: Option<Seq<char>>, r: SourceAction) -> bool {
    r matches SourceAction::Parse { content: c, format: f, path: p } && c@ == without_bom(content)
        && f == format && match p {
        Some(q) => path == Some(q@),
        None => path is None,
    }
}

impl Source {
    /// The first step of loading the source: a snippet is parsed as it is, a file is read,
    /// and a URL is read when it is secure.
    pub fn begin_parse(&self) -> (r: Result<SourceAction, ConfigError>)
        ensures
            match *self {
                Source::Code { code, format, .. } => r matches Ok(a) && parse_step(code@, format, None, a),
                Source::File { path, .. } => r matches Ok(SourceAction::ReadFile { path: p }) && p@ == path@,
                Source::Url { url, .. } => if is_secure_url_seq(url@) {
                    r matches Ok(SourceAction::ReadUrl { url: u }) && u@ == url@
                } else {
                    r matches Err(ConfigError::HttpsOnly(u)) && u@ == url@
                },
            },
    {
        match self {
            Source::Code { code, format, .. } => Ok(
                SourceAction::Parse {
                    content: strip_bom(code.as_str()).to_string(),
                    format: *format,
                    path: None,
                },
            ),
            Source::File { path, .. } => Ok(SourceAction::ReadFile { path: path.clone() }),
            Source::Url { url, .. } => {
                if is_secure_url(url.as_str()) {
                    Ok(SourceAction::ReadUrl { url: url.clone() })
                } else {
                    Err(ConfigError::HttpsOnly(url.clone()))
                }
            },
        }
    }

    /// The step after the file of a file source was read: `read` is none when the file does
    /// not exist, else its content or the message of the failure to read it. A missing file
    /// is an error when it is required, and stands for the default configuration otherwise.
    pub fn file_read(&self, read: Option<Result<String, String>>) -> (r: Result<SourceAction, ConfigError>)
        requires
            self is File,
        ensures
            match (*self, read) {
                (Source::File { path, format, required }, None) => if required {
                    r matches Err(ConfigError::MissingFile(p)) && p@ == path@
                } else {
                    r == Ok::<SourceAction, ConfigError>(SourceAction::UseDefault)
                },
                (Source::File { path, .. }, Some(Err(e))) => r matches Err(
                    ConfigError::ReadFileFailed { path: p, error },
                ) && p@ == path@ && error == e,
                (Source::File { path, format, .. }, Some(Ok(content))) => r matches Ok(a)
                    && parse_step(content@, format, Some(path@), a),
                _ => false,
            },
    {
        match self {
            Source::File { path, format, required } => match read {
                None => {
                    if *required {
                        Err(ConfigError::MissingFile(path.clone()))
                    } else {
                        Ok(SourceAction::UseDefault)
                    }
                },
                Some(Err(error)) => Err(ConfigError::ReadFileFailed { path: path.clone(), error }),
                Some(Ok(content)) => Ok(
                    SourceAction::Parse {
                        content: strip_bom(content.as_str()).to_string(),
                        format: *format,
                        path: Some(path.clone()),
                    },
                ),
            },
            _ => {
                proof {
                    assert(false);
                }
                Ok(SourceAction::UseDefault)
            },
        }
    }

    /// The step after the content of a URL source was read, from the cache or the
    /// network: it is parsed, named by the file the cache keeps it in, if any.
    pub fn url_read(&self, content: &str, cached_path: Option<String>) -> (r: SourceAction)
        requires
            self is Url,
        ensures
            match *self {
                Source::Url { format, .. } => parse_step(
                    content@,
                    format,
                    match cached_path {
                        Some(p) => Some(p@),
                        None => None,
                    },
                    r,
                ),
                _ => false,
            },
    {
        let format = match self {
            Source::Url { format, .. } => *format,
            _ => {
                proof {
                    assert(false);
                }
                Format::Unset
            },
        };
        SourceAction::Parse { content: strip_bom(content).to_string(), format, path: cached_path }
    }
}

} // verus!
