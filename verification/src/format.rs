//! The formats a configuration source may be written in.

use crate::helpers::{ext_of, extract_ext};
use crate::text::eq_str;
use vstd::prelude::*;

verus! {

/// Supported source configuration formats.
#[derive(Clone, Copy, Debug, PartialEq, Eq, Structural)]
pub enum Format {
    /// No format; the default.
    Unset,
    Json,
    Pkl,
    Ron,
    Toml,
    Yaml,
}

impl Default for Format {
    fn default() -> (r: Format)
        ensures
            r == Format::Unset,
    {
        Format::Unset
    }
}

/// The formats that can be detected, in the order they are tried, as the error names them.
pub open spec fn available_formats() -> Seq<char> {
    "JSON, Pkl, RON, TOML, YAML"@
}

/// The format named by an extension (with its period), if any.
pub open spec fn format_for_ext(ext: Seq<char>) -> Option<Format> {
    if ext == ".json"@ {
        Some(Format::Json)
    } else if ext == ".pkl"@ {
        Some(Format::Pkl)
    } else if ext == ".ron"@ {
        Some(Format::Ron)
    } else if ext == ".toml"@ {
        Some(Format::Toml)
    } else if ext == ".yaml"@ || ext == ".yml"@ {
        Some(Format::Yaml)
    } else {
        None
    }
}

/// The format detected for a file path or URL, from its extension.
pub open spec fn detected_format(value: Seq<char>) -> Option<Format> {
    match ext_of(value) {
        Some(ext) => format_for_ext(ext),
        None => None,
    }
}

/// Error for a value whose extension names no supported format: the value, and the formats
/// that are available.
#[derive(Clone, Debug, PartialEq, Eq)]
pub struct UnsupportedFormatError(pub String, pub String);

impl Format {
    /// Detects a format from a provided value, either a file path or URL, by
    /// checking for a supported file extension.
    pub fn detect(value: &str) -> (r: Result<Format, UnsupportedFormatError>)
        ensures
            match detected_format(value@) {
                Some(f) => r == Ok::<Format, UnsupportedFormatError>(f),
                None => r matches Err(e) && e.0@ == value@ && e.1@ == available_formats(),
            },
    {
        proof {
            reveal_strlit("");
            reveal_strlit(".json");
            reveal_strlit(".pkl");
            reveal_strlit(".ron");
            reveal_strlit(".toml");
            reveal_strlit(".yaml");
            reveal_strlit(".yml");
        }
        let ext = match extract_ext(value) {
            Some(ext) => ext,
            None => "",
        };
        let found = if eq_str(ext, ".json") {
            Some(Format::Json)
        } else if eq_str(ext, ".pkl") {
            Some(Format::Pkl)
        } else if eq_str(ext, ".ron") {
            Some(Format::Ron)
        } else if eq_str(ext, ".toml") {
            Some(Format::Toml)
        } else if eq_str(ext, ".yaml") || eq_str(ext, ".yml") {
            Some(Format::Yaml)
        } else {
            None
        };
        proof {
            assert(""@.len() == 0);
            assert(format_for_ext(""@) is None);
        }
        match found {
            Some(f) => Ok(f),
            None => {
                Err(UnsupportedFormatError(value.to_owned(), "JSON, Pkl, RON, TOML, YAML".to_owned()))
            },
        }
    }

    pub fn is_json(&self) -> (r: bool)
        ensures
            r == (*self == Format::Json),
    {
        matches!(self, Format::Json)
    }

    pub fn is_pkl(&self) -> (r: bool)
        ensures
            r == (*self == Format::Pkl),
    {
        matches!(self, Format::Pkl)
    }

    pub fn is_ron(&self) -> (r: bool)
        ensures
            r == (*self == Format::Ron),
    {
        matches!(self, Format::Ron)
    }

    pub fn is_toml(&self) -> (r: bool)
        ensures
            r == (*self == Format::Toml),
    {
        matches!(self, Format::Toml)
    }

    pub fn is_yaml(&self) -> (r: bool)
        ensures
            r == (*self == Format::Yaml),
    {
        matches!(self, Format::Yaml)
    }
}

} // verus!
