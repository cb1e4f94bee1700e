//! Reading doc comments and deprecation notes off the attributes of an item.

use crate::env::{split_on, split_pieces};
use crate::text::{seq_starts_with, starts_with, trim, trimmed};
use vstd::prelude::*;
use vstd::string::*;

verus! {

/// A line of a doc comment, trimmed, without the `* ` that a block comment starts it with.
pub open spec fn comment_line(line: Seq<char>) -> Seq<char> {
    let t = trimmed(line);
    if seq_starts_with(t, "* "@) {
        t.skip(2)
    } else {
        t
    }
}

/// The lines of the doc comments, in order: each comment split on line breaks.
pub open spec fn comment_lines(docs: Seq<Seq<char>>) -> Seq<Seq<char>>
    decreases docs.len(),
{
    if docs.len() == 0 {
        Seq::empty()
    } else {
        comment_lines(docs.drop_last()) + split_on(docs.last(), '\n').map_values(
            |l: Seq<char>| comment_line(l),
        )
    }
}

/// The lines joined by line breaks.
pub open spec fn joined_lines(lines: Seq<Seq<char>>) -> Seq<char>
    decreases lines.len(),
{
    if lines.len() == 0 {
        Seq::empty()
    } else if lines.len() == 1 {
        lines[0]
    } else {
        joined_lines(lines.drop_last()) + seq!['\n'] + lines.last()
    }
}

fn clean_line(line: &str) -> (r: &str)
    ensures
        r@ == comment_line(line@),
{
    let t = trim(line);
    if starts_with(t, "* ") {
        proof {
            reveal_strlit("* ");
        }
        t.substring_char(2, t.unicode_len())
    } else {
        t
    }
}

/// The doc comment of an item from the values of its `doc` attributes: their lines,
/// trimmed and joined by line breaks; none when it has no doc attribute.
pub fn extract_comment(docs: &Vec<String>) -> (r: Option<String>)
    ensures
        match r {
            Some(c) => docs@.len() > 0 && c@ == joined_lines(
                comment_lines(docs@.map_values(|d: String| d@)),
            ),
            None => docs@.len() == 0,
        },
{
    let ghost all = docs@.map_values(|d: String| d@);
    let mut out = String::new();
    let mut any: bool = false;
    let mut i: usize = 0;
    while i < docs.len()
        invariant
            all == docs@.map_values(|d: String| d@),
            i <= docs@.len(),
            any == (comment_lines(all.take(i as int)).len() > 0),
            out@ == joined_lines(comment_lines(all.take(i as int))),
        decreases docs@.len() - i,
    {
        let pieces = split_pieces(docs[i].as_str(), '\n');
        let ghost before = comment_lines(all.take(i as int));
        let ghost piece_lines = pieces@.map_values(|p: String| p@);
        proof {
            assert(all.take(i + 1).drop_last() =~= all.take(i as int));
            assert(all.take(i + 1).last() == docs@[i as int]@);
        }
        let mut k: usize = 0;
        while k < pieces.len()
            invariant
                piece_lines == pieces@.map_values(|p: String| p@),
                k <= pieces@.len(),
                any == (before.len() + k > 0),
                out@ == joined_lines(before + piece_lines.take(k as int).map_values(
                    |l: Seq<char>| comment_line(l),
                )),
            decreases pieces@.len() - k,
        {
            let line = clean_line(pieces[k].as_str());
            let ghost prev = before + piece_lines.take(k as int).map_values(
                |l: Seq<char>| comment_line(l),
            );
            let ghost next = before + piece_lines.take(k + 1).map_values(
                |l: Seq<char>| comment_line(l),
            );
            proof {
                assert(next.drop_last() =~= prev);
                assert(next.last() == comment_line(pieces@[k as int]@));
            }
            if any {
                out.append("\n");
                proof {
                    reveal_strlit("\n");
                }
            }
            out.append(line);
            any = true;
            k = k + 1;
        }
        proof {
            assert(piece_lines.take(pieces@.len() as int) =~= piece_lines);
        }
        i = i + 1;
    }
    proof {
        assert(all.take(docs@.len() as int) =~= all);
    }
    if docs.len() == 0 {
        None
    } else {
        Some(out)
    }
}

/// A `deprecated` attribute, as written.
#[derive(Debug, PartialEq, Eq)]
pub enum DeprecatedAttr {
    /// `#[deprecated]`.
    Bare,
    /// `#[deprecated = true]` or `#[deprecated = false]`.
    Flag(bool),
    /// `#[deprecated = "..."]`.
    Note(String),
    /// Any other form.
    Other,
}

/// The deprecation of an item from its `deprecated` attributes: the first that marks it,
/// with its note trimmed, or with no note for a bare attribute or a true flag.
pub open spec fn deprecation(attrs: Seq<DeprecatedAttr>) -> Option<Seq<char>>
    decreases attrs.len(),
{
    if attrs.len() == 0 {
        None
    } else {
        match attrs[0] {
            DeprecatedAttr::Bare => Some(Seq::empty()),
            DeprecatedAttr::Flag(true) => Some(Seq::empty()),
            DeprecatedAttr::Note(n) => Some(trimmed(n@)),
            _ => deprecation(attrs.drop_first()),
        }
    }
}

/// The deprecation note of an item, empty when it gives none, or none when it is not
/// deprecated.
pub fn extract_deprecated(attrs: &Vec<DeprecatedAttr>) -> (r: Option<String>)
    ensures
        match r {
            Some(n) => deprecation(attrs@) == Some(n@),
            None => deprecation(attrs@) is None,
        },
{
    let mut i: usize = 0;
    proof {
        assert(attrs@.skip(0) =~= attrs@);
    }
    while i < attrs.len()
        invariant
            i <= attrs@.len(),
            deprecation(attrs@.skip(i as int)) == deprecation(attrs@),
        decreases attrs@.len() - i,
    {
        proof {
            assert(attrs@.skip(i as int)[0] == attrs@[i as int]);
            assert(attrs@.skip(i as int).drop_first() =~= attrs@.skip(i + 1));
        }
        match &attrs[i] {
            DeprecatedAttr::Bare => {
                return Some(String::new());
            },
            DeprecatedAttr::Flag(true) => {
                return Some(String::new());
            },
            DeprecatedAttr::Note(note) => {
                return Some(trim(note.as_str()).to_string());
            },
            _ => {},
        }
        i = i + 1;
    }
    None
}

} // verus!
