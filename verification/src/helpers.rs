//! Classification of source strings: file paths, URLs and their names and extensions.

use crate::text::{
    contains_char, eq_str, find_char, first_index_of, last_index_of, lead_char_end,
    lemma_first_index_from, lemma_last_index_before, rfind_char, seq_starts_with, starts_with,
    trim_start_char,
};
use vstd::prelude::*;
use vstd::string::*;

verus! {

/// The part of `s` before its query string, which starts at its first `?`; the whole of
/// `s` when it holds none.
pub open spec fn before_query(s: Seq<char>) -> Seq<char> {
    match first_index_of(s, '?') {
        Some(i) => s.subrange(0, i),
        None => s,
    }
}

/// The part of `s` after its last `/`, the whole of `s` when it holds none.
pub open spec fn after_last_slash(s: Seq<char>) -> Seq<char> {
    match last_index_of(s, '/') {
        Some(i) => s.subrange(i + 1, s.len() as int),
        None => s,
    }
}

/// The file name of a path or URL: its last segment once any query string is dropped.
pub open spec fn file_name_of(s: Seq<char>) -> Seq<char> {
    after_last_slash(before_query(s))
}

/// The extension of a path or URL without its period: what follows the last `.` of the file name.
pub open spec fn file_ext_of(s: Seq<char>) -> Option<Seq<char>> {
    let name = file_name_of(s);
    match last_index_of(name, '.') {
        Some(i) => Some(name.subrange(i + 1, name.len() as int)),
        None => None,
    }
}

/// The extension of a path or URL with its period: the last `.` of the file name and what follows.
pub open spec fn ext_of(s: Seq<char>) -> Option<Seq<char>> {
    let name = file_name_of(s);
    match last_index_of(name, '.') {
        Some(i) => Some(name.subrange(i, name.len() as int)),
        None => None,
    }
}

/// The extensions of the formats that a source may be written in.
pub open spec fn is_source_ext(ext: Seq<char>) -> bool {
    ext == "json"@ || ext == "pkl"@ || ext == "toml"@ || ext == "yaml"@ || ext == "yml"@
}

/// Returns true if the value ends in a supported file extension.
pub fn is_source_format(value: &str) -> (r: bool)
    ensures
        r == (file_ext_of(value@) matches Some(ext) && is_source_ext(ext)),
{
    match extract_file_ext(value) {
        Some(ext) => eq_str(ext, "json") || eq_str(ext, "pkl") || eq_str(ext, "toml") || eq_str(
            ext,
            "yaml",
        ) || eq_str(ext, "yml"),
        None => false,
    }
}

/// A value looks like a file: it starts with `file://`, holds a path separator, or ends
/// in a supported file extension.
pub open spec fn file_like(value: Seq<char>) -> bool {
    ||| seq_starts_with(value, "file://"@)
    ||| value.contains('/')
    ||| value.contains('\\')
    ||| (file_ext_of(value) matches Some(ext) && is_source_ext(ext))
}

/// Returns true if the value looks like a file, by checking for `file://`,
/// path separators, or supported file extensions.
pub fn is_file_like(value: &str) -> (r: bool)
    ensures
        r == file_like(value@),
{
    starts_with(value, "file://") || contains_char(value, '/') || contains_char(value, '\\')
        || is_source_format(value)
}

/// Returns true if the value looks like a URL, by checking for `http://`, `https://`, or `www`.
pub fn is_url_like(value: &str) -> (r: bool)
    ensures
        r == (seq_starts_with(value@, "https://"@) || seq_starts_with(value@, "http://"@)
            || seq_starts_with(value@, "www"@)),
{
    starts_with(value, "https://") || starts_with(value, "http://") || starts_with(value, "www")
}

/// A character that ends the host of a URL: the start of its path, query, fragment or port.
pub open spec fn ends_host(c: char) -> bool {
    c == '/' || c == '?' || c == '#' || c == ':'
}

/// Where the host that starts at `i` ends.
pub open spec fn host_end(s: Seq<char>, i: int) -> int
    decreases s.len() - i,
{
    if 0 <= i < s.len() && !ends_host(s[i]) {
        host_end(s, i + 1)
    } else {
        i
    }
}

/// The host of an `http://` URL: what follows the scheme, up to its path, query, fragment
/// or port.
pub open spec fn http_host(url: Seq<char>) -> Seq<char> {
    let rest = url.subrange(7, url.len() as int);
    rest.subrange(0, host_end(rest, 0))
}

/// A secure URL: an `https://` one, or an `http://` one whose host is the local machine.
pub open spec fn secure_url(url: Seq<char>) -> bool {
    ||| seq_starts_with(url, "https://"@)
    ||| seq_starts_with(url, "http://"@) && (http_host(url) == "localhost"@ || http_host(url)
        == "127.0.0.1"@)
}

/// Returns true if the value is a secure URL, by checking for `https://`. This check can be
/// bypassed for localhost URLs.
pub fn is_secure_url(value: &str) -> (r: bool)
    ensures
        r == secure_url(value@),
{
    if starts_with(value, "https://") {
        return true;
    }
    if !starts_with(value, "http://") {
        return false;
    }
    proof {
        reveal_strlit("http://");
    }
    let n = value.unicode_len();
    let rest = value.substring_char(7, n);
    let m = rest.unicode_len();
    let mut e: usize = 0;
    while e < m && !(rest.get_char(e) == '/' || rest.get_char(e) == '?' || rest.get_char(e)
        == '#' || rest.get_char(e) == ':')
        invariant
            m == rest@.len(),
            e <= m,
            host_end(rest@, e as int) == host_end(rest@, 0),
        decreases m - e,
    {
        e = e + 1;
    }
    let host = rest.substring_char(0, e);
    assert(host@ == http_host(value@));
    eq_str(host, "localhost") || eq_str(host, "127.0.0.1")
}

/// Strip a leading BOM from the string.
pub fn strip_bom(content: &str) -> (r: &str)
    ensures
        r@ == content@.subrange(lead_char_end(content@, '\u{feff}', 0), content@.len() as int),
{
    trim_start_char(content, '\u{feff}')
}

/// Extract a file name from the provided file path or URL.
pub fn extract_file_name(value: &str) -> (r: &str)
    ensures
        r@ == file_name_of(value@),
{
    // Remove any query string
    let value = match find_char(value, '?') {
        Some(index) => {
            proof {
                lemma_first_index_from(value@, '?', 0);
            }
            value.substring_char(0, index)
        },
        None => value,
    };
    // And only check the last segment
    let n = value.unicode_len();
    match rfind_char(value, '/') {
        Some(index) => {
            proof {
                lemma_last_index_before(value@, '/', value@.len() as int);
            }
            value.substring_char(index + 1, n)
        },
        None => value,
    }
}

/// Extract a file extension (without period) from the provided file path or URL.
pub fn extract_file_ext(value: &str) -> (r: Option<&str>)
    ensures
        r matches Some(ext) ==> file_ext_of(value@) == Some(ext@),
        r matches Some(ext) ==> !ext@.contains('.'),
        r is None ==> file_ext_of(value@) is None,
{
    let name = extract_file_name(value);
    let n = name.unicode_len();
    match rfind_char(name, '.') {
        Some(index) => {
            proof {
                lemma_last_index_before(name@, '.', name@.len() as int);
            }
            let ext = name.substring_char(index + 1, n);
            assert(!ext@.contains('.')) by {
                if ext@.contains('.') {
                    let k = choose|k: int| 0 <= k < ext@.len() && ext@[k] == '.';
                    assert(name@[index + 1 + k] == '.');
                }
            }
            Some(ext)
        },
        None => None,
    }
}

/// Extract a file extension (with its period) from the provided file path or URL.
pub fn extract_ext(value: &str) -> (r: Option<&str>)
    ensures
        r matches Some(ext) ==> ext_of(value@) == Some(ext@),
        r is None ==> ext_of(value@) is None,
{
    let name = extract_file_name(value);
    let n = name.unicode_len();
    match rfind_char(name, '.') {
        Some(index) => {
            proof {
                lemma_last_index_before(name@, '.', name@.len() as int);
            }
            Some(name.substring_char(index, n))
        },
        None => None,
    }
}

/// The extension with its period is the period followed by the extension without it; a
/// value has one exactly when it has the other.
pub proof fn lemma_ext_with_period(value: Seq<char>)
    ensures
        ext_of(value) is Some <==> file_ext_of(value) is Some,
        file_ext_of(value) matches Some(ext) ==> ext_of(value) == Some(seq!['.'] + ext),
{
    let name = file_name_of(value);
    lemma_last_index_before(name, '.', name.len() as int);
    if let Some(i) = last_index_of(name, '.') {
        assert(name.subrange(i, name.len() as int) =~= seq!['.'] + name.subrange(
            i + 1,
            name.len() as int,
        ));
    }
}

} // verus!
