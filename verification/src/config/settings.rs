//! Settings whose values are compiled by an outside crate: regular expressions and
//! semantic versions.
//!
//! Each wrapper picks a sensible default, derefs to the inner type so it reads like the
//! original, and converts from and into a string.

use vstd::prelude::*;
use vstd::std_specs::cmp::PartialEqSpecImpl;
use vstd::std_specs::convert::{IntoSpecImpl, TryFromSpecImpl};

verus! {

#[verifier::external_type_specification]
#[verifier::external_body]
pub struct ExRegex(regex::Regex);

#[verifier::external_type_specification]
#[verifier::external_body]
pub struct ExRegexError(regex::Error);

#[verifier::external_type_specification]
#[verifier::external_body]
pub struct ExVersion(semver::Version);

#[verifier::external_type_specification]
#[verifier::external_body]
pub struct ExVersionError(semver::Error);

/// Whether `regex::Regex::new` compiles this pattern, under its default size limits.
pub uninterp spec fn regex_compiles(pattern: Seq<char>) -> bool;

/// The pattern a compiled regex was built from, as `regex::Regex::as_str` gives it.
pub uninterp spec fn regex_pattern(regex: regex::Regex) -> Seq<char>;

/// Whether `semver::Version::parse` accepts this text as a version.
pub uninterp spec fn version_parses(text: Seq<char>) -> bool;

/// The version `semver::Version::parse` reads from this text.
pub uninterp spec fn parsed_version(text: Seq<char>) -> semver::Version;

/// The version `semver::Version::new` builds from its three numbers, with no pre-release
/// and no build metadata.
pub uninterp spec fn numbered_version(major: u64, minor: u64, patch: u64) -> semver::Version;

/// How `semver::Version` displays: its numbers, pre-release and build metadata.
pub uninterp spec fn version_text(version: semver::Version) -> Seq<char>;

/// Calls `regex::Regex::new`. Claims that whether it succeeds is a function of the
/// pattern alone, that the compiled regex keeps the pattern it was built from, and that
/// `.` (any character) compiles. What the regex matches is not stated.
#[verifier::external_body]
fn compile_regex(pattern: &str) -> (r: Result<regex::Regex, regex::Error>)
    ensures
        r is Ok <==> regex_compiles(pattern@),
        r matches Ok(regex) ==> regex_pattern(regex) == pattern@,
        pattern@ == "."@ ==> r is Ok,
{
    regex::Regex::new(pattern)
}

/// `Clone` of `regex::Regex`: the copy is built from the same pattern.
pub assume_specification[ <regex::Regex as Clone>::clone ](regex: &regex::Regex) -> (r:
    regex::Regex)
    ensures
        regex_pattern(r) == regex_pattern(*regex),
;

/// The derived `Clone` of `semver::Version`: the copy has every part of the original.
pub assume_specification[ <semver::Version as Clone>::clone ](version: &semver::Version) -> (r:
    semver::Version)
    ensures
        r == *version,
;

/// Calls `regex::Regex::as_str`, which gives back the pattern the regex was built from.
#[verifier::external_body]
fn regex_as_str(regex: &regex::Regex) -> (r: &str)
    ensures
        r@ == regex_pattern(*regex),
{
    regex.as_str()
}

/// Calls `Hasher::write` with the bytes of `text`. Nothing is claimed of the hasher's
/// state.
#[verifier::external_body]
fn write_bytes<H: std::hash::Hasher>(text: &str, state: &mut H) {
    state.write(text.as_bytes())
}

/// Calls `semver::Version::parse`. Claims that whether it succeeds, and the version it
/// reads, are functions of the text alone.
#[verifier::external_body]
fn parse_version(text: &str) -> (r: Result<semver::Version, semver::Error>)
    ensures
        r is Ok <==> version_parses(text@),
        r matches Ok(version) ==> version == parsed_version(text@),
{
    semver::Version::parse(text)
}

/// Calls `semver::Version::new`.
#[verifier::external_body]
fn new_version(major: u64, minor: u64, patch: u64) -> (r: semver::Version)
    ensures
        r == numbered_version(major, minor, patch),
{
    semver::Version::new(major, minor, patch)
}

/// Calls the derived `==` of `semver::Version`, which compares every part of the two
/// versions.
#[verifier::external_body]
fn same_version(a: &semver::Version, b: &semver::Version) -> (r: bool)
    ensures
        r == (*a == *b),
{
    a == b
}

/// Calls `ToString::to_string` on a `semver::Version`, through its `Display`.
#[verifier::external_body]
fn version_to_string(version: &semver::Version) -> (r: String)
    ensures
        r@ == version_text(*version),
{
    version.to_string()
}

/// The characters of a string.
pub open spec fn text_of(s: String) -> Seq<char> {
    s@
}

/// A regex that can be used as a setting. Compares by pattern string, as a compiled regex
/// has no equality of its own.
///
/// Defaults to `.`, which matches any single character.
#[derive(Clone, Debug)]
pub struct RegexSetting(pub regex::Regex);

impl RegexSetting {
    /// The pattern the setting's regex was compiled from.
    pub open spec fn pattern(&self) -> Seq<char> {
        regex_pattern(self.0)
    }

    /// Compile a regex from a pattern string.
    pub fn new(value: &str) -> (r: Result<Self, regex::Error>)
        ensures
            r is Ok <==> regex_compiles(value@),
            r matches Ok(setting) ==> setting.pattern() == value@,
    {
        match compile_regex(value) {
            Ok(regex) => Ok(RegexSetting(regex)),
            Err(error) => Err(error),
        }
    }

    /// The pattern string of the setting's regex.
    pub fn as_str(&self) -> (r: &str)
        ensures
            r@ == self.pattern(),
    {
        regex_as_str(&self.0)
    }
}

impl Default for RegexSetting {
    /// Defaults to `.`, which matches any single character.
    fn default() -> (r: Self)
        ensures
            r.pattern() == "."@,
    {
        proof {
            reveal_strlit(".");
        }
        RegexSetting(compile_regex(".").unwrap())
    }
}

/// Derefs to the inner regex, so its methods can be called directly.
impl std::ops::Deref for RegexSetting {
    type Target = regex::Regex;

    fn deref(&self) -> (r: &regex::Regex)
        ensures
            *r == self.0,
    {
        &self.0
    }
}

impl std::str::FromStr for RegexSetting {
    type Err = regex::Error;

    fn from_str(value: &str) -> Result<Self, Self::Err> {
        Self::new(value)
    }
}

impl TryFrom<&str> for RegexSetting {
    type Error = regex::Error;

    fn try_from(value: &str) -> (r: Result<Self, Self::Error>)
        ensures
            r is Ok <==> regex_compiles(value@),
            r matches Ok(setting) ==> setting.pattern() == value@,
    {
        Self::new(value)
    }
}

impl TryFrom<String> for RegexSetting {
    type Error = regex::Error;

    fn try_from(value: String) -> (r: Result<Self, Self::Error>)
        ensures
            r is Ok <==> regex_compiles(value@),
            r matches Ok(setting) ==> setting.pattern() == value@,
    {
        Self::new(value.as_str())
    }
}

#[allow(clippy::from_over_into)]
impl Into<String> for RegexSetting {
    fn into(self) -> (r: String)
        ensures
            text_of(r) == self.pattern(),
    {
        self.as_str().to_string()
    }
}


/// The conversions above state their results in their own contracts; they follow no
/// spec function of the conversion traits.
impl TryFromSpecImpl<&str> for RegexSetting {
    open spec fn obeys_try_from_spec() -> bool {
        false
    }

    open spec fn try_from_spec(v: &str) -> Result<Self, regex::Error> {
        arbitrary()
    }
}

impl TryFromSpecImpl<String> for RegexSetting {
    open spec fn obeys_try_from_spec() -> bool {
        false
    }

    open spec fn try_from_spec(v: String) -> Result<Self, regex::Error> {
        arbitrary()
    }
}

impl IntoSpecImpl<String> for RegexSetting {
    open spec fn obeys_into_spec() -> bool {
        false
    }

    open spec fn into_spec(self) -> String {
        arbitrary()
    }
}

/// Compares the pattern strings, as a compiled regex is not comparable.
impl PartialEq for RegexSetting {
    fn eq(&self, other: &Self) -> (r: bool) {
        let a = self.as_str();
        let b = other.as_str();
        let r = crate::text::eq_str(a, b);
        r
    }
}

impl PartialEqSpecImpl for RegexSetting {
    open spec fn obeys_eq_spec() -> bool {
        true
    }

    open spec fn eq_spec(&self, other: &Self) -> bool {
        self.pattern() == other.pattern()
    }
}

impl Eq for RegexSetting {

}

/// Hashes the pattern string, agreeing with the equality above.
impl std::hash::Hash for RegexSetting {
    fn hash<H: std::hash::Hasher>(&self, state: &mut H) {
        write_bytes(self.as_str(), state)
    }
}

/// A semantic version that can be used as a setting.
///
/// Defaults to `0.0.0`.
#[derive(Clone, Debug, Hash)]
pub struct VersionSetting(pub semver::Version);

impl VersionSetting {
    /// Parse a version from a string.
    pub fn new(value: &str) -> (r: Result<Self, semver::Error>)
        ensures
            r is Ok <==> version_parses(value@),
            r matches Ok(setting) ==> setting.0 == parsed_version(value@),
    {
        match parse_version(value) {
            Ok(version) => Ok(VersionSetting(version)),
            Err(error) => Err(error),
        }
    }
}

impl Default for VersionSetting {
    /// Defaults to `0.0.0`.
    fn default() -> (r: Self)
        ensures
            r.0 == numbered_version(0, 0, 0),
    {
        VersionSetting(new_version(0, 0, 0))
    }
}

/// Derefs to the inner version, so its parts can be read directly.
impl std::ops::Deref for VersionSetting {
    type Target = semver::Version;

    fn deref(&self) -> (r: &semver::Version)
        ensures
            *r == self.0,
    {
        &self.0
    }
}

impl std::str::FromStr for VersionSetting {
    type Err = semver::Error;

    fn from_str(value: &str) -> Result<Self, Self::Err> {
        Self::new(value)
    }
}

impl TryFrom<&str> for VersionSetting {
    type Error = semver::Error;

    fn try_from(value: &str) -> (r: Result<Self, Self::Error>)
        ensures
            r is Ok <==> version_parses(value@),
            r matches Ok(setting) ==> setting.0 == parsed_version(value@),
    {
        Self::new(value)
    }
}

impl TryFrom<String> for VersionSetting {
    type Error = semver::Error;

    fn try_from(value: String) -> (r: Result<Self, Self::Error>)
        ensures
            r is Ok <==> version_parses(value@),
            r matches Ok(setting) ==> setting.0 == parsed_version(value@),
    {
        Self::new(value.as_str())
    }
}

#[allow(clippy::from_over_into)]
impl Into<String> for VersionSetting {
    fn into(self) -> (r: String)
        ensures
            text_of(r) == version_text(self.0),
    {
        version_to_string(&self.0)
    }
}

/// The conversions above state their results in their own contracts; they follow no
/// spec function of the conversion traits.
impl TryFromSpecImpl<&str> for VersionSetting {
    open spec fn obeys_try_from_spec() -> bool {
        false
    }

    open spec fn try_from_spec(v: &str) -> Result<Self, semver::Error> {
        arbitrary()
    }
}

impl TryFromSpecImpl<String> for VersionSetting {
    open spec fn obeys_try_from_spec() -> bool {
        false
    }

    open spec fn try_from_spec(v: String) -> Result<Self, semver::Error> {
        arbitrary()
    }
}

impl IntoSpecImpl<String> for VersionSetting {
    open spec fn obeys_into_spec() -> bool {
        false
    }

    open spec fn into_spec(self) -> String {
        arbitrary()
    }
}

impl PartialEq for VersionSetting {
    fn eq(&self, other: &Self) -> (r: bool) {
        same_version(&self.0, &other.0)
    }
}

impl PartialEqSpecImpl for VersionSetting {
    open spec fn obeys_eq_spec() -> bool {
        true
    }

    open spec fn eq_spec(&self, other: &Self) -> bool {
        self.0 == other.0
    }
}

impl Eq for VersionSetting {

}

} // verus!
