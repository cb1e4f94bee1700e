//! Parsers for environment variable values.

use crate::config::error::{HandlerError, ParseEnvResult};
use crate::internal::{parse_failure_message, parse_gives, parse_value, parsed_value};
use crate::text::{push_char, to_lowercase, trim, trimmed, eq_str, lowercase};
use vstd::prelude::*;
use vstd::string::*;

verus! {

/// What an environment value gives once trimmed: nothing when the trimmed text is empty;
/// else the value `str::parse` gives for the trimmed text itself, or the error quoting the
/// trimmed text when it does not parse.
pub open spec fn ignored_if_empty<T: std::str::FromStr>(var: Seq<char>, r: ParseEnvResult<T>) -> bool {
    if trimmed(var).len() == 0 {
        r matches Ok(None)
    } else {
        match r {
            Ok(Some(x)) => parse_gives::<T>(trimmed(var), Some(x)),
            Ok(None) => false,
            Err(e) => parse_gives::<T>(trimmed(var), None) && e.0@ == parse_failure_message(
                trimmed(var),
            ),
        }
    }
}

/// Ignore the environment variable if it's empty and fallback to the previous or default value.
pub fn ignore_empty<T: std::str::FromStr>(var: String) -> (r: ParseEnvResult<T>)
    ensures
        trimmed(var@).len() == 0 ==> r matches Ok(None),
        trimmed(var@).len() > 0 ==> (r matches Ok(Some(_)) || (r matches Err(e)
            && e.0@ == parse_failure_message(trimmed(var@)))),
        ignored_if_empty::<T>(var@, r),
{
    let var = trim(var.as_str());
    if var.unicode_len() == 0 {
        return Ok(None);
    }
    match parse_value(var) {
        Ok(v) => Ok(Some(v)),
        Err(e) => Err(e),
    }
}

/// The lowercased words that read as true.
pub open spec fn is_truthy(lowered: Seq<char>) -> bool {
    lowered == "1"@ || lowered == "true"@ || lowered == "yes"@ || lowered == "on"@ || lowered
        == "enabled"@
}

/// Returns whether an already lowercased value is one of the words that read as true.
pub fn is_truthy_word(lowered: &str) -> (r: bool)
    ensures
        r == is_truthy(lowered@),
{
    eq_str(lowered, "1") || eq_str(lowered, "true") || eq_str(lowered, "yes") || eq_str(
        lowered,
        "on",
    ) || eq_str(lowered, "enabled")
}

/// Parse a string into a boolean. Will parse `1`, `true`, `yes`, `on`,
/// and `enabled` as true, and everything else as false.
pub fn parse_bool(var: String) -> (r: ParseEnvResult<bool>)
    ensures
        r == Ok::<Option<bool>, HandlerError>(Some(is_truthy(lowercase(var@)))),
{
    let lowered = to_lowercase(var.as_str());
    Ok(Some(is_truthy_word(lowered.as_str())))
}

/// The pieces of `rest` split on `delim`, after `done` and a piece begun as `cur`.
pub open spec fn split_from(done: Seq<Seq<char>>, cur: Seq<char>, rest: Seq<char>, delim: char) -> Seq<
    Seq<char>,
>
    decreases rest.len(),
{
    if rest.len() == 0 {
        done.push(cur)
    } else if rest[0] == delim {
        split_from(done.push(cur), Seq::empty(), rest.drop_first(), delim)
    } else {
        split_from(done, cur.push(rest[0]), rest.drop_first(), delim)
    }
}

/// The pieces of `s` between occurrences of `delim`, empty ones included.
pub open spec fn split_on(s: Seq<char>, delim: char) -> Seq<Seq<char>> {
    split_from(Seq::empty(), Seq::empty(), s, delim)
}

/// The trimmed pieces that are not empty, in order.
pub open spec fn kept_pieces(pieces: Seq<Seq<char>>) -> Seq<Seq<char>>
    decreases pieces.len(),
{
    if pieces.len() == 0 {
        Seq::empty()
    } else if trimmed(pieces.last()).len() > 0 {
        kept_pieces(pieces.drop_last()).push(trimmed(pieces.last()))
    } else {
        kept_pieces(pieces.drop_last())
    }
}

/// The trimmed, non-empty pieces of `s` split on `delim`.
pub open spec fn split_values(s: Seq<char>, delim: char) -> Seq<Seq<char>> {
    kept_pieces(split_on(s, delim))
}

/// Split a value on each `delim`, keeping every piece, empty ones included.
pub fn split_pieces(var: &str, delim: char) -> (r: Vec<String>)
    ensures
        r@.map_values(|p: String| p@) == split_on(var@, delim),
{
    let n = var.unicode_len();
    let mut done: Vec<String> = Vec::new();
    let mut cur = String::new();
    let mut i: usize = 0;
    proof {
        assert(var@.skip(0) =~= var@);
        assert(done@.map_values(|p: String| p@) =~= Seq::<Seq<char>>::empty());
    }
    while i < n
        invariant
            n == var@.len(),
            i <= n,
            split_from(done@.map_values(|p: String| p@), cur@, var@.skip(i as int), delim)
                == split_on(var@, delim),
        decreases n - i,
    {
        let c = var.get_char(i);
        proof {
            assert(var@.skip(i as int)[0] == c);
            assert(var@.skip(i as int).drop_first() =~= var@.skip(i + 1));
        }
        if c == delim {
            let ghost before = done@;
            let piece = cur;
            done.push(piece);
            cur = String::new();
            proof {
                assert(done@.map_values(|p: String| p@) =~= before.map_values(|p: String| p@).push(
                    piece@,
                ));
            }
        } else {
            push_char(&mut cur, c);
        }
        i = i + 1;
    }
    let ghost before = done@;
    let last = cur;
    done.push(last);
    proof {
        assert(var@.skip(n as int).len() == 0);
        assert(done@.map_values(|p: String| p@) =~= before.map_values(|p: String| p@).push(last@));
    }
    done
}

/// The index of the first piece at or after `i` that did not parse.
pub open spec fn first_unparsed<T>(parsed: Seq<Option<T>>, i: int) -> Option<int>
    decreases parsed.len() - i,
{
    if i < 0 || i >= parsed.len() {
        None
    } else if parsed[i] is None {
        Some(i)
    } else {
        first_unparsed(parsed, i + 1)
    }
}

/// The values of the pieces that parsed, in order.
pub open spec fn parsed_values<T>(parsed: Seq<Option<T>>) -> Seq<T> {
    parsed.map_values(|p: Option<T>| p->0)
}

/// What a list of pieces and the outcome of parsing each make: every value in order when
/// every piece parsed, else the error for the first piece that did not.
pub open spec fn collected<T>(
    pieces: Seq<Seq<char>>,
    parsed: Seq<Option<T>>,
    r: ParseEnvResult<Vec<T>>,
) -> bool {
    match first_unparsed(parsed, 0) {
        None => r matches Ok(Some(list)) && list@ == parsed_values(parsed),
        Some(i) => r matches Err(e) && e.0@ == parse_failure_message(pieces[i]),
    }
}

/// The trimmed, non-empty pieces of a value split on `delim`.
fn kept_values(var: &str, delim: char) -> (r: Vec<String>)
    ensures
        r@.map_values(|v: String| v@) == split_values(var@, delim),
{
    let pieces = split_pieces(var, delim);
    let ghost all = pieces@.map_values(|p: String| p@);
    let mut kept: Vec<String> = Vec::new();
    let mut k: usize = 0;
    proof {
        assert(kept@.map_values(|v: String| v@) =~= kept_pieces(all.take(0)));
    }
    while k < pieces.len()
        invariant
            all == pieces@.map_values(|p: String| p@),
            all == split_on(var@, delim),
            k <= pieces.len(),
            kept@.map_values(|v: String| v@) == kept_pieces(all.take(k as int)),
        decreases pieces.len() - k,
    {
        let value = trim(pieces[k].as_str());
        let ghost before = kept@;
        proof {
            assert(all.take(k + 1).drop_last() =~= all.take(k as int));
            assert(all.take(k + 1).last() == pieces@[k as int]@);
        }
        if value.unicode_len() > 0 {
            kept.push(value.to_string());
            proof {
                assert(kept@.map_values(|v: String| v@) =~= before.map_values(|v: String| v@).push(
                    value@,
                ));
            }
        }
        k = k + 1;
    }
    proof {
        assert(all.take(k as int) =~= all);
    }
    kept
}

proof fn lemma_first_unparsed_skip<T>(parsed: Seq<Option<T>>, i: int)
    requires
        0 <= i,
        forall|j: int| 0 <= j < i && j < parsed.len() ==> parsed[j] is Some,
    ensures
        first_unparsed(parsed, 0) == first_unparsed(parsed, i),
    decreases i,
{
    if i > 0 {
        lemma_first_unparsed_skip(parsed, i - 1);
        if i - 1 < parsed.len() {
            assert(parsed[i - 1] is Some);
        }
    }
}

/// Collect the values of a list setting, given the outcome of parsing each trimmed,
/// non-empty piece of `var` split on `delim`: the values in order, or the error for the
/// first piece that did not parse.
pub fn split_parsed<T>(var: &str, delim: char, parsed: Vec<Option<T>>) -> (r: ParseEnvResult<
    Vec<T>,
>)
    requires
        parsed@.len() == split_values(var@, delim).len(),
    ensures
        collected(split_values(var@, delim), parsed@, r),
{
    let kept = kept_values(var, delim);
    let ghost pieces = split_values(var@, delim);
    let ghost outcomes = parsed@;
    let n = kept.len();
    let mut list: Vec<T> = Vec::new();
    let mut i: usize = 0;
    for p in it: parsed
        invariant
            it.seq() == outcomes,
            outcomes == parsed@,
            pieces == split_values(var@, delim),
            n == outcomes.len(),
            i == it.index(),
            outcomes.len() == pieces.len(),
            kept@.map_values(|v: String| v@) == pieces,
            i <= outcomes.len(),
            list@ == parsed_values(outcomes.take(i as int)),
            forall|j: int| 0 <= j < i ==> outcomes[j] is Some,
    {
        assert(i < outcomes.len());
        assert(kept@[i as int]@ == pieces[i as int]);
        assert(p == outcomes[i as int]);
        match parsed_value(kept[i].as_str(), p) {
            Ok(v) => {
                list.push(v);
                proof {
                    assert(list@ =~= parsed_values(outcomes.take(i + 1)));
                }
            },
            Err(e) => {
                proof {
                    lemma_first_unparsed_skip(outcomes, i as int);
                    assert(first_unparsed(outcomes, i as int) == Some(i as int));
                    assert(collected(pieces, outcomes, Err::<Option<Vec<T>>, HandlerError>(e)));
                }
                return Err(e);
            },
        }
        i = i + 1;
    }
    proof {
        lemma_first_unparsed_skip(outcomes, outcomes.len() as int);
        assert(outcomes.take(outcomes.len() as int) =~= outcomes);
    }
    Ok(Some(list))
}

/// Each piece up to the first that did not parse was handed to `str::parse` itself, and
/// its outcome is one that parse gives for it.
pub open spec fn each_parsed<T: std::str::FromStr>(pieces: Seq<Seq<char>>, parsed: Seq<Option<T>>) -> bool {
    forall|i: int|
        #![trigger parsed[i]]
        0 <= i < parsed.len() && (forall|j: int| 0 <= j < i ==> #[trigger] parsed[j] is Some)
            ==> parse_gives::<T>(pieces[i], parsed[i])
}

/// The outcome of splitting `var` is what the outcomes of parsing its pieces, each piece
/// itself, collect into.
pub open spec fn split_outcome<T: std::str::FromStr>(var: Seq<char>, delim: char, r: ParseEnvResult<Vec<T>>) -> bool {
    exists|parsed: Seq<Option<T>>|
        parsed.len() == split_values(var, delim).len() && #[trigger] collected(
            split_values(var, delim),
            parsed,
            r,
        ) && each_parsed(split_values(var, delim), parsed)
}

fn split<T: std::str::FromStr>(var: String, delim: char) -> (r: ParseEnvResult<Vec<T>>)
    ensures
        split_outcome(var@, delim, r),
{
    let kept = kept_values(var.as_str(), delim);
    let ghost pieces = split_values(var@, delim);
    let mut list: Vec<T> = Vec::new();
    let mut i: usize = 0;
    while i < kept.len()
        invariant
            kept@.map_values(|v: String| v@) == pieces,
            pieces == split_values(var@, delim),
            i <= kept@.len(),
            list@.len() == i,
            forall|j: int| 0 <= j < i ==> parse_gives::<T>(pieces[j], Some(#[trigger] list@[j])),
        decreases kept@.len() - i,
    {
        assert(kept@[i as int]@ == pieces[i as int]);
        match parse_value(kept[i].as_str()) {
            Ok(v) => {
                let ghost before = list@;
                list.push(v);
                proof {
                    assert forall|j: int| 0 <= j < i + 1 implies parse_gives::<T>(
                        pieces[j],
                        Some(#[trigger] list@[j]),
                    ) by {
                        if j < i {
                            assert(list@[j] == before[j]);
                        }
                    }
                }
            },
            Err(e) => {
                proof {
                    let parsed = list@.map_values(|v: T| Some(v)).push(None::<T>) + Seq::new(
                        (pieces.len() - i - 1) as nat,
                        |j: int| None::<T>,
                    );
                    assert(parsed[i as int] is None);
                    assert(parsed.len() == pieces.len());
                    assert forall|k: int|
                        #![trigger parsed[k]]
                        0 <= k < parsed.len() && (forall|j: int|
                            0 <= j < k ==> #[trigger] parsed[j] is Some) implies parse_gives::<T>(
                        pieces[k],
                        parsed[k],
                    ) by {
                        if k > i {
                            assert(parsed[i as int] is None);
                        } else if k < i {
                            assert(parsed[k] == Some(list@[k]));
                        }
                    }
                    lemma_first_unparsed_skip(parsed, i as int);
                    assert(first_unparsed(parsed, i as int) == Some(i as int));
                    assert(collected(pieces, parsed, Err::<Option<Vec<T>>, HandlerError>(e)));
                    assert(split_outcome(var@, delim, Err::<Option<Vec<T>>, HandlerError>(e)));
                }
                return Err(e);
            },
        }
        i = i + 1;
    }
    proof {
        let parsed = list@.map_values(|v: T| Some(v));
        assert forall|k: int|
            #![trigger parsed[k]]
            0 <= k < parsed.len() && (forall|j: int| 0 <= j < k ==> #[trigger] parsed[j] is Some)
                implies parse_gives::<T>(pieces[k], parsed[k]) by {
            assert(parsed[k] == Some(list@[k]));
        }
        lemma_first_unparsed_skip(parsed, parsed.len() as int);
        assert(parsed_values(parsed) =~= list@);
        assert(collected(pieces, parsed, Ok::<Option<Vec<T>>, HandlerError>(Some(list))));
    }
    Ok(Some(list))
}

/// Split a variable on each comma (`,`) and parse into a list of values.
pub fn split_comma<T: std::str::FromStr>(var: String) -> (r: ParseEnvResult<Vec<T>>)
    ensures
        split_outcome(var@, ',', r),
{
    split(var, ',')
}

/// Split a variable on each colon (`:`) and parse into a list of values.
pub fn split_colon<T: std::str::FromStr>(var: String) -> (r: ParseEnvResult<Vec<T>>)
    ensures
        split_outcome(var@, ':', r),
{
    split(var, ':')
}

/// Split a variable on each semicolon (`;`) and parse into a list of values.
pub fn split_semicolon<T: std::str::FromStr>(var: String) -> (r: ParseEnvResult<Vec<T>>)
    ensures
        split_outcome(var@, ';', r),
{
    split(var, ';')
}

/// Split a variable on each space (` `) and parse into a list of values.
pub fn split_space<T: std::str::FromStr>(var: String) -> (r: ParseEnvResult<Vec<T>>)
    ensures
        split_outcome(var@, ' ', r),
{
    split(var, ' ')
}

} // verus!

verus! {

/// `ignore_empty` parses the trimmed text itself, and nothing else: when the trimmed text
/// is not empty, the value it gives is one `str::parse` gives for that text, it fails only
/// where that parse can fail, with the error quoting the trimmed text, and it never gives
/// nothing. Blank text gives nothing.
pub proof fn lemma_ignore_empty_parses_trimmed<T: std::str::FromStr>(var: Seq<char>, r: ParseEnvResult<T>)
    requires
        ignored_if_empty::<T>(var, r),
    ensures
        trimmed(var).len() == 0 ==> r matches Ok(None),
        trimmed(var).len() > 0 ==> !(r matches Ok(None)),
        r matches Ok(Some(x)) ==> trimmed(var).len() > 0 && parse_gives::<T>(trimmed(var), Some(x)),
        r matches Err(e) ==> trimmed(var).len() > 0 && parse_gives::<T>(trimmed(var), None)
            && e.0@ == parse_failure_message(trimmed(var)),
        r matches Ok(Some(x)) ==> crate::internal::parsed_from::<T>(trimmed(var), Ok(x)),
        r matches Err(e) ==> crate::internal::parsed_from::<T>(trimmed(var), Err(e)),
{
}

/// A list setting is parsed piece by piece, each trimmed, non-empty piece handed to
/// `str::parse` as it is: every value of the list is one that parse gives for the piece at
/// the same position, and a failure is one that parse gives for the first piece that fails.
pub proof fn lemma_split_parses_each_piece<T: std::str::FromStr>(
    var: Seq<char>,
    delim: char,
    r: ParseEnvResult<Vec<T>>,
)
    requires
        split_outcome::<T>(var, delim, r),
    ensures
        r matches Ok(Some(list)) ==> list@.len() == split_values(var, delim).len() && forall|i: int|
            0 <= i < list@.len() ==> parse_gives::<T>(
                split_values(var, delim)[i],
                Some(#[trigger] list@[i]),
            ),
        r matches Err(e) ==> exists|i: int|
            0 <= i < split_values(var, delim).len() && parse_gives::<T>(
                #[trigger] split_values(var, delim)[i],
                None,
            ) && e.0@ == parse_failure_message(split_values(var, delim)[i]),
        !(r matches Ok(None)),
{
    let pieces = split_values(var, delim);
    let parsed = choose|parsed: Seq<Option<T>>|
        parsed.len() == pieces.len() && #[trigger] collected(pieces, parsed, r) && each_parsed(
            pieces,
            parsed,
        );
    lemma_first_unparsed_shape(parsed, 0);
    match first_unparsed(parsed, 0) {
        None => {
            assert forall|i: int| 0 <= i < parsed.len() implies parse_gives::<T>(
                pieces[i],
                Some(#[trigger] parsed_values(parsed)[i]),
            ) by {
                assert(parsed[i] is Some);
                assert(forall|j: int| 0 <= j < i ==> #[trigger] parsed[j] is Some);
            }
        },
        Some(k) => {
            assert(forall|j: int| 0 <= j < k ==> #[trigger] parsed[j] is Some);
            assert(parse_gives::<T>(pieces[k], parsed[k]));
        },
    }
}

proof fn lemma_first_unparsed_shape<T>(parsed: Seq<Option<T>>, i: int)
    requires
        0 <= i,
    ensures
        first_unparsed(parsed, i) is None ==> forall|j: int|
            i <= j < parsed.len() ==> #[trigger] parsed[j] is Some,
        first_unparsed(parsed, i) matches Some(k) ==> i <= k < parsed.len() && parsed[k] is None
            && forall|j: int| i <= j < k ==> #[trigger] parsed[j] is Some,
    decreases parsed.len() - i,
{
    if i < parsed.len() && parsed[i] is Some {
        lemma_first_unparsed_shape(parsed, i + 1);
    }
}

/// A value reads as true exactly when, lowercased, it is `1`, `true`, `yes`, `on` or
/// `enabled`; everything else reads as false, and no value fails or reads as nothing.
pub proof fn lemma_parse_bool_words(var: Seq<char>, r: ParseEnvResult<bool>)
    requires
        r == Ok::<Option<bool>, HandlerError>(Some(is_truthy(lowercase(var)))),
    ensures
        r matches Ok(Some(b)) && (b <==> (lowercase(var) == "1"@ || lowercase(var) == "true"@
            || lowercase(var) == "yes"@ || lowercase(var) == "on"@ || lowercase(var)
            == "enabled"@)),
{
}

} // verus!
