//! Support for code that derived configurations call: parsing, merging and environment handling.

use crate::config::error::{ConfigError, HandlerError, ParseEnvResult};
use crate::config::merger::{MergeError, MergeResult};
use crate::text::{lowercase, to_lowercase, to_uppercase, uppercase, eq_str};
use std::collections::HashSet;
use convert_case::{Boundary, Case, Casing};
use vstd::prelude::*;
use vstd::string::*;

pub mod validate;

pub use validate::ValidateManager;

verus! {

/// The message of the error for a value that does not parse into the expected type.
pub open spec fn parse_failure_message(value: Seq<char>) -> Seq<char> {
    "Failed to parse \""@ + value + "\" into the correct type."@
}

/// Calls `str::parse` into `T` and keeps whether it succeeded. Nothing is claimed of the
/// result: it rests on how `T` implements `FromStr`.
#[verifier::external_body]
fn parse_from_str<T: std::str::FromStr>(value: &str) -> Option<T> {
    value.parse::<T>().ok()
}

/// The outcome of parsing `value`, given what `str::parse` gave for it: the parsed value,
/// or an error that quotes `value` when it did not parse.
pub fn parsed_value<T>(value: &str, parsed: Option<T>) -> (r: Result<T, HandlerError>)
    ensures
        match parsed {
            Some(v) => r == Ok::<T, HandlerError>(v),
            None => r matches Err(e) && e.0@ == parse_failure_message(value@),
        },
{
    match parsed {
        Some(v) => Ok(v),
        None => {
            let mut message = String::from_str("Failed to parse \"");
            message.append(value);
            message.append("\" into the correct type.");
            Err(HandlerError(message))
        },
    }
}

/// `str::parse` into `T` may give `out` for a string holding `text`: `Some` of the value it
/// parses into, or `None` when the text does not parse. What it gives rests on how `T`
/// implements `FromStr`; this names one of its outcomes on exactly that text.
pub closed spec fn parse_gives<T: std::str::FromStr>(text: Seq<char>, out: Option<T>) -> bool {
    exists|s: &str| s@ == text && #[trigger] call_ensures(parse_from_str::<T>, (s,), out)
}

/// The outcome of parsing `text` into `T`: the value `str::parse` gives for `text` itself,
/// or the error quoting `text` when it does not parse.
pub open spec fn parsed_from<T: std::str::FromStr>(text: Seq<char>, r: Result<T, HandlerError>) -> bool {
    match r {
        Ok(x) => parse_gives::<T>(text, Some(x)),
        Err(e) => parse_gives::<T>(text, None) && e.0@ == parse_failure_message(text),
    }
}

/// Parse a value into the requested type, with an error that quotes the value on failure.
/// Whether it parses rests on how `T` implements `FromStr`; `parsed_value` states the
/// outcome for each answer.
pub fn parse_value<T: std::str::FromStr>(value: &str) -> (r: Result<T, HandlerError>)
    ensures
        r matches Err(e) ==> e.0@ == parse_failure_message(value@),
        parsed_from::<T>(value@, r),
{
    let parsed = parse_from_str::<T>(value);
    assert(call_ensures(parse_from_str::<T>, (value,), parsed));
    parsed_value(value, parsed)
}

/// What reading an environment variable into `T` gives for the value `s` the environment
/// holds: the value `str::parse` gives for `s` itself, never none, or, when `s` does not
/// parse, an error that names `key` and quotes `s`.
pub open spec fn read_env<T: std::str::FromStr>(key: Seq<char>, s: Seq<char>, r: ParseEnvResult<T>) -> bool {
    match r {
        Ok(Some(x)) => parse_gives::<T>(s, Some(x)),
        Ok(None) => false,
        Err(e) => parse_gives::<T>(s, None) && e.0@ == env_failure_message(
            key,
            parse_failure_message(s),
        ),
    }
}

/// Each variant's failure on a line of its own: a dash, the variant's name, a colon and
/// the error.
pub open spec fn variant_failures(errors: Seq<(Seq<char>, Seq<char>)>) -> Seq<char>
    decreases errors.len(),
{
    if errors.len() == 0 {
        Seq::empty()
    } else {
        variant_failures(errors.drop_last()) + "\n- "@ + errors.last().0 + ": "@ + errors.last().1
    }
}

/// The message of the error for a value that no variant of the untagged enum `name`
/// accepted, given each variant's name and error in the order they were tried.
pub open spec fn untagged_failure_message(name: Seq<char>, errors: Seq<(Seq<char>, Seq<char>)>) -> Seq<char> {
    "failed to parse as any variant of "@ + name + ":"@ + variant_failures(errors)
}

/// Build the message for a value that no variant of an untagged enum accepted: the enum's
/// name, then each variant's name and error on a line of its own.
pub fn untagged_failure(name: &str, errors: &Vec<(String, String)>) -> (r: String)
    ensures
        r@ == untagged_failure_message(
            name@,
            errors@.map_values(|e: (String, String)| (e.0@, e.1@)),
        ),
{
    let ghost all = errors@.map_values(|e: (String, String)| (e.0@, e.1@));
    let mut out = String::from_str("failed to parse as any variant of ");
    out.append(name);
    out.append(":");
    let ghost head = out@;
    let mut i: usize = 0;
    while i < errors.len()
        invariant
            i <= errors@.len(),
            all == errors@.map_values(|e: (String, String)| (e.0@, e.1@)),
            out@ == head + variant_failures(all.take(i as int)),
        decreases errors@.len() - i,
    {
        out.append("\n- ");
        out.append(errors[i].0.as_str());
        out.append(": ");
        out.append(errors[i].1.as_str());
        assert(all.take(i + 1).drop_last() =~= all.take(i as int));
        i = i + 1;
    }
    assert(all.take(errors@.len() as int) =~= all);
    proof {
        reveal_strlit("failed to parse as any variant of ");
        reveal_strlit(":");
    }
    out
}

/// The message of the error for an environment variable `key` whose value failed to parse
/// with the message `inner`.
pub open spec fn env_failure_message(key: Seq<char>, inner: Seq<char>) -> Seq<char> {
    "Invalid environment variable "@ + key + ". "@ + inner
}

/// The prefixes an environment manager applies: the override, then the container's own,
/// each when given and not empty.
pub open spec fn prefix_list(override_prefix: Option<Seq<char>>, prefix: Option<Seq<char>>) -> Seq<
    Seq<char>,
> {
    let first = match override_prefix {
        Some(p) if p.len() > 0 => seq![p],
        _ => Seq::empty(),
    };
    let second = match prefix {
        Some(p) if p.len() > 0 => seq![p],
        _ => Seq::empty(),
    };
    first + second
}

/// Each value among the first `i` that is present is one the parser may turn into none.
pub open spec fn passed_over<T, F: Fn(String) -> ParseEnvResult<T>>(
    values: Seq<Option<String>>,
    parser: F,
    i: int,
) -> bool {
    forall|j: int|
        0 <= j < i ==> (#[trigger] values[j] matches Some(s) ==> parser.ensures(
            (s,),
            Ok::<Option<T>, HandlerError>(None),
        ))
}

/// The parser turns `s` into no value: it fails or returns none.
pub open spec fn yields_nothing<T, F: Fn(String) -> ParseEnvResult<T>>(parser: F, s: String) -> bool {
    forall|r: ParseEnvResult<T>| #[trigger] parser.ensures((s,), r) ==> !(r matches Ok(Some(_)))
}

/// Tracks how many settings were read from the environment, and the key prefixes to apply.
/// The values themselves are read by the caller, which hands them over with each request.
pub struct EnvManager {
    count: u8,
    /// Prefixes to apply to derived keys, in order of precedence.
    prefixes: Vec<String>,
}

impl EnvManager {
    /// How many settings have been found in the environment.
    pub closed spec fn found(&self) -> nat {
        self.count as nat
    }

    /// The prefixes applied to derived keys, in order of precedence.
    pub closed spec fn prefixes(&self) -> Seq<Seq<char>> {
        self.prefixes@.map_values(|p: String| p@)
    }

    fn push_prefix(prefixes: &mut Vec<String>, prefix: Option<&str>)
        ensures
            final(prefixes)@.map_values(|p: String| p@) == old(prefixes)@.map_values(|p: String| p@)
                + match prefix {
                Some(p) if p@.len() > 0 => seq![p@],
                _ => Seq::empty(),
            },
    {
        let ghost before = prefixes@;
        if let Some(p) = prefix {
            if p.unicode_len() > 0 {
                prefixes.push(p.to_owned());
                proof {
                    assert(prefixes@.map_values(|q: String| q@) =~= before.map_values(
                        |q: String| q@,
                    ) + seq![p@]);
                }
                return;
            }
        }
        proof {
            assert(prefixes@.map_values(|q: String| q@) =~= before.map_values(|q: String| q@)
                + Seq::empty());
        }
    }

    /// Create a manager whose prefixes are `override_prefix`, then `prefix`, each when given
    /// and not empty; an earlier prefix takes precedence.
    pub fn new(override_prefix: Option<&str>, prefix: Option<&str>) -> (r: Self)
        ensures
            r.found() == 0,
            r.prefixes() == prefix_list(
                match override_prefix {
                    Some(p) => Some(p@),
                    None => None,
                },
                match prefix {
                    Some(p) => Some(p@),
                    None => None,
                },
            ),
    {
        let mut prefixes: Vec<String> = Vec::new();
        proof {
            assert(prefixes@.map_values(|p: String| p@) =~= Seq::<Seq<char>>::empty());
        }
        Self::push_prefix(&mut prefixes, override_prefix);
        Self::push_prefix(&mut prefixes, prefix);
        EnvManager { count: 0, prefixes }
    }

    /// How many settings have been found in the environment.
    pub fn found_count(&self) -> (r: u8)
        ensures
            r == self.found(),
    {
        self.count
    }

    /// Returns true when no setting was found in the environment.
    pub fn is_empty(&self) -> (r: bool)
        ensures
            r == (self.found() == 0),
    {
        self.count == 0
    }

    /// The keys to read for a derived `key`, one for each prefix, in order of precedence.
    pub fn prefixed_keys(&self, key: &str) -> (r: Vec<String>)
        ensures
            r@.len() == self.prefixes().len(),
            forall|i: int| 0 <= i < r@.len() ==> #[trigger] r@[i]@ == self.prefixes()[i] + key@,
    {
        let mut keys: Vec<String> = Vec::new();
        let mut i: usize = 0;
        while i < self.prefixes.len()
            invariant
                i <= self.prefixes@.len(),
                keys@.len() == i,
                forall|j: int|
                    0 <= j < i ==> #[trigger] keys@[j]@ == self.prefixes@[j]@ + key@,
            decreases self.prefixes@.len() - i,
        {
            let mut full = self.prefixes[i].clone();
            full.append(key);
            keys.push(full);
            i = i + 1;
        }
        keys
    }

    /// Parse the value of the variable `key`, as read from the environment, counting it
    /// as found when the parser returns a value.
    pub fn get_and_parse<T>(
        &mut self,
        key: &str,
        value: Option<String>,
        parser: impl Fn(String) -> ParseEnvResult<T>,
    ) -> (r: ParseEnvResult<T>)
        requires
            value matches Some(s) ==> old(self).found() < 255 || yields_nothing(parser, s),
            forall|s: String| #[trigger] parser.requires((s,)),
        ensures
            final(self).prefixes() == old(self).prefixes(),
            final(self).found() == old(self).found() + if r matches Ok(Some(_)) {
                1int
            } else {
                0int
            },
            value is None ==> r matches Ok(None),
            value matches Some(s) ==> (r matches Ok(Some(x)) ==> parser.ensures(
                (s,),
                Ok::<Option<T>, HandlerError>(Some(x)),
            )),
            value matches Some(s) ==> (r matches Ok(None) ==> parser.ensures(
                (s,),
                Ok::<Option<T>, HandlerError>(None),
            )),
            value matches Some(s) ==> (r matches Err(e) ==> exists|e0: HandlerError|
                parser.ensures((s,), Err::<Option<T>, HandlerError>(e0)) && e.0@
                    == env_failure_message(key@, e0.0@)),
    {
        match value {
            Some(s) => self.apply_parser(key, s, &parser),
            None => Ok(None),
        }
    }

    fn apply_parser<T, F: Fn(String) -> ParseEnvResult<T>>(
        &mut self,
        key: &str,
        s: String,
        parser: &F,
    ) -> (r: ParseEnvResult<T>)
        requires
            old(self).found() < 255 || yields_nothing(*parser, s),
            parser.requires((s,)),
        ensures
            final(self).prefixes() == old(self).prefixes(),
            final(self).found() == old(self).found() + if r matches Ok(Some(_)) {
                1int
            } else {
                0int
            },
            r matches Ok(Some(x)) ==> parser.ensures((s,), Ok::<Option<T>, HandlerError>(Some(x))),
            r matches Ok(None) ==> parser.ensures((s,), Ok::<Option<T>, HandlerError>(None)),
            r matches Err(e) ==> exists|e0: HandlerError|
                parser.ensures((s,), Err::<Option<T>, HandlerError>(e0)) && e.0@
                    == env_failure_message(key@, e0.0@),
    {
        match parser(s) {
            Ok(Some(x)) => {
                self.count = self.count + 1;
                Ok(Some(x))
            },
            Ok(None) => Ok(None),
            Err(e0) => {
                let mut message = String::from_str("Invalid environment variable ");
                message.append(key);
                message.append(". ");
                message.append(e0.0.as_str());
                Err(HandlerError(message))
            },
        }
    }

    /// Get a variable using the exact key, ignoring the prefix, parsed into `T`.
    /// `value` is what the environment holds for `key`.
    pub fn get<T: std::str::FromStr>(&mut self, key: &str, value: Option<String>) -> (r:
        ParseEnvResult<T>)
        requires
            value is Some ==> old(self).found() < 255,
        ensures
            final(self).prefixes() == old(self).prefixes(),
            final(self).found() == old(self).found() + if r matches Ok(Some(_)) {
                1int
            } else {
                0int
            },
            value is None ==> r matches Ok(None),
            value matches Some(s) ==> (r matches Ok(Some(_)) || (r matches Err(e) && e.0@
                == env_failure_message(key@, parse_failure_message(s@)))),
            value matches Some(s) ==> read_env::<T>(key@, s@, r),
    {
        self.get_and_parse(key, value, |v: String| -> (r: ParseEnvResult<T>)
            ensures
                r is Ok ==> r matches Ok(Some(_)),
                r matches Err(e) ==> e.0@ == parse_failure_message(v@),
                r matches Ok(Some(x)) ==> parse_gives::<T>(v@, Some(x)),
                r is Err ==> parse_gives::<T>(v@, None),
            {
                match parse_value::<T>(v.as_str()) {
                    Ok(x) => Ok(Some(x)),
                    Err(e) => Err(e),
                }
            })
    }

    /// Get a variable using the key with each prefix applied, in order of precedence,
    /// parsed into `T`. `values` holds what the environment holds for each of the keys
    /// that `prefixed_keys` names.
    pub fn get_prefixed<T: std::str::FromStr>(&mut self, key: &str, values: Vec<Option<String>>) -> (r:
        ParseEnvResult<T>)
        requires
            (exists|i: int| 0 <= i < values@.len() && values@[i] is Some) ==> old(self).found()
                < 255,
            values@.len() == old(self).prefixes().len(),
        ensures
            final(self).prefixes() == old(self).prefixes(),
            final(self).found() == old(self).found() + if r matches Ok(Some(_)) {
                1int
            } else {
                0int
            },
            (forall|i: int| 0 <= i < values@.len() ==> values@[i] is None) ==> r matches Ok(None),
            r matches Ok(None) ==> forall|i: int| 0 <= i < values@.len() ==> values@[i] is None,
            r matches Err(e) ==> exists|i: int, s: String|
                0 <= i < values@.len() && values@[i] == Some(s) && e.0@ == env_failure_message(
                    old(self).prefixes()[i] + key@,
                    parse_failure_message(s@),
                ),
            !(r matches Ok(None)) ==> exists|i: int, s: String|
                0 <= i < values@.len() && values@[i] == Some(s) && (forall|j: int|
                    0 <= j < i ==> #[trigger] values@[j] is None) && read_env::<T>(
                    old(self).prefixes()[i] + key@,
                    s@,
                    r,
                ),
    {
        let ghost vs = values@;
        let ghost pre = self.prefixes();
        let parser = |v: String| -> (r: ParseEnvResult<T>)
            ensures
                r is Ok ==> r matches Ok(Some(_)),
                r matches Err(e) ==> e.0@ == parse_failure_message(v@),
                r matches Ok(Some(x)) ==> parse_gives::<T>(v@, Some(x)),
                r is Err ==> parse_gives::<T>(v@, None),
            {
                match parse_value::<T>(v.as_str()) {
                    Ok(x) => Ok(Some(x)),
                    Err(e) => Err(e),
                }
            };
        let r = self.get_and_parse_prefixed(key, values, parser);
        proof {
            let ghost rr = r;
            if !(rr matches Ok(None)) {
                let (i, s) = match rr {
                    Ok(Some(x)) => choose|i: int, s: String|
                        0 <= i < vs.len() && passed_over(vs, parser, i) && vs[i] == Some(s)
                            && parser.ensures((s,), Ok::<Option<T>, HandlerError>(Some(x))),
                    _ => choose|i: int, s: String|
                        0 <= i < vs.len() && passed_over(vs, parser, i) && vs[i] == Some(s)
                            && exists|e0: HandlerError|
                            parser.ensures((s,), Err::<Option<T>, HandlerError>(e0))
                                && rr->Err_0.0@ == env_failure_message(pre[i] + key@, e0.0@),
                };
                assert forall|j: int| 0 <= j < i implies #[trigger] vs[j] is None by {
                    match vs[j] {
                        Some(s2) => {
                            assert(parser.ensures((s2,), Ok::<Option<T>, HandlerError>(None)));
                        },
                        None => {},
                    }
                }
                assert(read_env::<T>(pre[i] + key@, s@, r));
            }
        }
        r
    }

    /// Get and parse a variable using the key with a prefix applied. Each prefix is tried
    /// in order, and the first variable found wins. `values` holds what the environment
    /// holds for each of the keys that `prefixed_keys` names.
    pub fn get_and_parse_prefixed<T>(
        &mut self,
        key: &str,
        values: Vec<Option<String>>,
        parser: impl Fn(String) -> ParseEnvResult<T>,
    ) -> (r: ParseEnvResult<T>)
        requires
            forall|i: int|
                0 <= i < values@.len() ==> (#[trigger] values@[i] matches Some(s) ==> old(
                    self,
                ).found() < 255 || yields_nothing(parser, s)),
            values@.len() == old(self).prefixes().len(),
            forall|s: String| #[trigger] parser.requires((s,)),
        ensures
            final(self).prefixes() == old(self).prefixes(),
            final(self).found() == old(self).found() + if r matches Ok(Some(_)) {
                1int
            } else {
                0int
            },
            r matches Ok(None) ==> passed_over(values@, parser, values@.len() as int),
            r matches Ok(Some(x)) ==> exists|i: int, s: String|
                0 <= i < values@.len() && passed_over(values@, parser, i) && values@[i] == Some(s)
                    && parser.ensures((s,), Ok::<Option<T>, HandlerError>(Some(x))),
            r matches Err(e) ==> exists|i: int, s: String, e0: HandlerError|
                0 <= i < values@.len() && passed_over(values@, parser, i) && values@[i] == Some(s)
                    && parser.ensures((s,), Err::<Option<T>, HandlerError>(e0)) && e.0@
                    == env_failure_message(old(self).prefixes()[i] + key@, e0.0@),
    {
        let ghost vs = values@;
        let ghost pre = self.prefixes();
        let ghost count0 = self.found();
        let n = values.len();
        let mut i: usize = 0;
        for taken in it: values
            invariant
                it.seq() == vs,
                vs.len() == pre.len(),
                vs.len() == n,
                i == it.index(),
                pre == old(self).prefixes(),
                count0 == old(self).found(),
                self.prefixes() == pre,
                self.prefixes@.len() == pre.len(),
                self.found() == count0,
                forall|j: int|
                    0 <= j < vs.len() ==> (#[trigger] vs[j] matches Some(s) ==> count0 < 255
                        || yields_nothing(parser, s)),
                forall|s: String| #[trigger] parser.requires((s,)),
                passed_over(vs, parser, i as int),
        {
            if let Some(s) = taken {
                let mut full = self.prefixes[i].clone();
                full.append(key);
                proof {
                    assert(self.prefixes@.map_values(|p: String| p@)[i as int]
                        == self.prefixes@[i as int]@);
                }
                let parsed = self.apply_parser(full.as_str(), s, &parser);
                match parsed {
                    Ok(Some(x)) => {
                        return Ok(Some(x));
                    },
                    Ok(None) => {},
                    Err(e) => {
                        return Err(e);
                    },
                }
            }
            i = i + 1;
        }
        Ok(None)
    }

    /// Mark a nested configuration read from the environment as found.
    pub fn nested<T>(&mut self, partial: Option<T>) -> (r: ParseEnvResult<T>)
        requires
            partial is Some ==> old(self).found() < 255,
        ensures
            r == Ok::<Option<T>, HandlerError>(partial),
            final(self).prefixes() == old(self).prefixes(),
            final(self).found() == old(self).found() + if partial is Some {
                1int
            } else {
                0int
            },
    {
        if partial.is_some() {
            self.count = self.count + 1;
        }
        Ok(partial)
    }
}

/// A manager made empty stays empty through a sequence of calls exactly when none of them
/// found a value: each call counts one when it returns a value, and none otherwise.
/// `managers[i]` is the manager before call `i` and `managers[i + 1]` after it;
/// `found[i]` is whether call `i` returned a value.
pub proof fn lemma_empty_until_found(managers: Seq<EnvManager>, found: Seq<bool>)
    requires
        managers.len() == found.len() + 1,
        managers[0].found() == 0,
        forall|i: int|
            0 <= i < found.len() ==> managers[i + 1].found() == managers[i].found() + if #[trigger] found[i] {
                1int
            } else {
                0int
            },
    ensures
        (managers.last().found() == 0) <==> forall|i: int| 0 <= i < found.len() ==> !found[i],
    decreases found.len(),
{
    if found.len() > 0 {
        let n = found.len() - 1;
        assert forall|i: int| 0 <= i < found.drop_last().len() implies managers.drop_last()[i + 1].found()
            == managers.drop_last()[i].found() + if #[trigger] found.drop_last()[i] {
            1int
        } else {
            0int
        } by {
            assert(found.drop_last()[i] == found[i]);
        }
        lemma_empty_until_found(managers.drop_last(), found.drop_last());
        assert(managers.drop_last().last() == managers[n]);
        assert(managers.last() == managers[n + 1]);
        assert(managers[n + 1].found() == managers[n].found() + if found[n] {
            1int
        } else {
            0int
        });
        if managers.last().found() == 0 {
            assert forall|i: int| 0 <= i < found.len() implies !found[i] by {
                if i < n {
                    assert(found.drop_last()[i] == found[i]);
                }
            }
        }
        if forall|i: int| 0 <= i < found.len() ==> !found[i] {
            assert forall|i: int| 0 <= i < found.drop_last().len() implies !found.drop_last()[i] by {
                assert(found.drop_last()[i] == found[i]);
            }
        }
    }
}

// DEFAULT VALUES

/// Map the failure of a default value function into a configuration error.
pub fn handle_default_result<T, E: std::error::Error>(result: Result<T, E>) -> (r: Result<
    T,
    ConfigError,
>)
    ensures
        result matches Ok(v) ==> r == Ok::<T, ConfigError>(v),
        result matches Err(e) ==> (r matches Err(ConfigError::InvalidDefaultValue(m))
            && vstd::string::to_string_from_display_ensures::<E>(&e, m)),
{
    match result {
        Ok(v) => Ok(v),
        Err(error) => Err(ConfigError::InvalidDefaultValue(error.to_string())),
    }
}

// MERGING

/// A setting after `next` is merged into `prev` by replacement: `next` when it is set,
/// else `prev`.
pub open spec fn replaced<T>(prev: Option<T>, next: Option<T>) -> Option<T> {
    if next is Some {
        next
    } else {
        prev
    }
}

/// Final values are layered: the default, then the partial configuration, then the
/// environment. Merged in that order by replacement, a setting takes the environment's
/// value when it is set, else the partial configuration's, else the default.
pub proof fn lemma_layered_precedence<T>(default: Option<T>, partial: Option<T>, env: Option<T>)
    ensures
        replaced(replaced(default, partial), env) == match (env, partial) {
            (Some(e), _) => Some(e),
            (None, Some(p)) => Some(p),
            (None, None) => default,
        },
{
}

/// Merges the settings of a partial configuration, in the given context.
pub struct MergeManager<'a, Ctx> {
    context: &'a Ctx,
}

impl<'a, Ctx> MergeManager<'a, Ctx> {
    /// The context handed to every merge function.
    pub closed spec fn context(&self) -> &'a Ctx {
        self.context
    }

    pub fn new(context: &'a Ctx) -> (r: Self)
        ensures
            r.context() == context,
    {
        Self { context }
    }

    /// Merge `next` into `prev`, the next value replacing the previous one.
    pub fn apply<T>(self, prev: &mut Option<T>, next: Option<T>) -> (r: Result<Self, MergeError>)
        ensures
            r matches Ok(m) && m.context() == self.context(),
            *final(prev) == replaced(*old(prev), next),
    {
        self.apply_with(prev, next, crate::merge::replace)
    }

    /// Merge `next` into `prev` with the `merger` strategy when both are set; otherwise keep
    /// whichever is set.
    pub fn apply_with<T>(
        self,
        prev: &mut Option<T>,
        next: Option<T>,
        merger: impl Fn(T, T, &Ctx) -> MergeResult<T>,
    ) -> (r: Result<Self, MergeError>)
        requires
            forall|p: T, n: T| #[trigger] merger.requires((p, n, self.context())),
        ensures
            r matches Ok(m) ==> m.context() == self.context(),
            match (*old(prev), next) {
                (Some(p), Some(n)) => exists|out: MergeResult<T>|
                    #[trigger] merger.ensures((p, n, self.context()), out) && match out {
                        Ok(v) => r is Ok && *final(prev) == v,
                        Err(e) => r == Err::<Self, MergeError>(e) && *final(prev) is None,
                    },
                (None, Some(n)) => r is Ok && *final(prev) == Some(n),
                (p, None) => r is Ok && *final(prev) == p,
            },
    {
        let value = match (prev.take(), next) {
            (Some(p), Some(n)) => {
                assert(merger.requires((p, n, self.context())));
                let out = merger(p, n, self.context);
                match out {
                    Ok(v) => v,
                    Err(e) => return Err(e),
                }
            },
            (None, Some(n)) => Some(n),
            (other, None) => other,
        };
        if let Some(value) = value {
            *prev = Some(value);
        }
        Ok(self)
    }
}

/// Merge a previous and next setting: with the `merger` strategy when both are set,
/// otherwise whichever is set.
pub fn merge_setting<T, C>(
    prev: Option<T>,
    next: Option<T>,
    context: &C,
    merger: impl Fn(T, T, &C) -> MergeResult<T>,
) -> (r: MergeResult<T>)
    requires
        forall|p: T, n: T| #[trigger] merger.requires((p, n, context)),
    ensures
        match (prev, next) {
            (Some(p), Some(n)) => merger.ensures((p, n, context), r),
            (None, Some(n)) => r == Ok::<Option<T>, MergeError>(Some(n)),
            (p, None) => r == Ok::<Option<T>, MergeError>(p),
        },
{
    match (prev, next) {
        (Some(p), Some(n)) => merger(p, n, context),
        (None, Some(n)) => Ok(Some(n)),
        (other, None) => Ok(other),
    }
}

// LEGACY

/// Pass a value through, recording in `tracker` that a value was found.
pub fn track_env<T>(value: Option<T>, tracker: &mut HashSet<bool>) -> (r: Option<T>)
    ensures
        r == value,
        final(tracker)@ == if value is Some {
            old(tracker)@.insert(true)
        } else {
            old(tracker)@
        },
{
    broadcast use vstd::std_specs::hash::group_hash_axioms;

    if value.is_some() {
        tracker.insert(true);
    }
    value
}

/// Parse the value of the environment variable `key` into `T`. `value` is what the
/// environment holds for `key`.
pub fn default_env_value<T: std::str::FromStr>(key: &str, value: Option<String>) -> (r:
    ParseEnvResult<T>)
    ensures
        value is None ==> r matches Ok(None),
        value matches Some(s) ==> (r matches Ok(Some(_)) || (r matches Err(e) && e.0@
            == env_failure_message(key@, parse_failure_message(s@)))),
        value matches Some(s) ==> read_env::<T>(key@, s@, r),
{
    parse_env_value(key, value, |v: String| -> (r: ParseEnvResult<T>)
        ensures
            r is Ok ==> r matches Ok(Some(_)),
            r matches Err(e) ==> e.0@ == parse_failure_message(v@),
            r matches Ok(Some(x)) ==> parse_gives::<T>(v@, Some(x)),
            r is Err ==> parse_gives::<T>(v@, None),
        {
            match parse_value::<T>(v.as_str()) {
                Ok(x) => Ok(Some(x)),
                Err(e) => Err(e),
            }
        })
}

/// Parse the value of the environment variable `key` with `parser`. `value` is what the
/// environment holds for `key`.
pub fn parse_env_value<T>(
    key: &str,
    value: Option<String>,
    parser: impl Fn(String) -> ParseEnvResult<T>,
) -> (r: ParseEnvResult<T>)
    requires
        forall|s: String| #[trigger] parser.requires((s,)),
    ensures
        value is None ==> r matches Ok(None),
        value matches Some(s) ==> (r is Ok ==> parser.ensures((s,), r)),
        value matches Some(s) ==> (r matches Err(e) ==> exists|e0: HandlerError|
            parser.ensures((s,), Err::<Option<T>, HandlerError>(e0)) && e.0@
                == env_failure_message(key@, e0.0@)),
{
    match value {
        Some(s) => match parser(s) {
            Ok(v) => Ok(v),
            Err(e0) => {
                let mut message = String::from_str("Invalid environment variable ");
                message.append(key);
                message.append(". ");
                message.append(e0.0.as_str());
                Err(HandlerError(message))
            },
        },
        None => Ok(None),
    }
}

// CASING

/// The word-based casings a value can be normalized into.
#[derive(Clone, Copy, Debug, PartialEq, Eq, Structural)]
pub enum CaseStyle {
    Pascal,
    Camel,
    Snake,
    ScreamingSnake,
    Kebab,
    ScreamingKebab,
}

/// What `convert_case` makes of `value` in `style`, digits kept attached to their words.
pub uninterp spec fn case_converted(value: Seq<char>, style: CaseStyle) -> Seq<char>;

/// Calls `convert_case`'s `Casing::without_boundaries` with the upper-digit and lower-digit
/// boundaries, then `to_case` with `style`. Claims that the result is a function of the
/// characters of `value` and of `style` alone.
#[verifier::external_body]
fn convert_keeping_digits(value: &str, style: CaseStyle) -> (r: String)
    ensures
        r@ == case_converted(value@, style),
{
    let case = match style {
        CaseStyle::Pascal => Case::Pascal,
        CaseStyle::Camel => Case::Camel,
        CaseStyle::Snake => Case::Snake,
        CaseStyle::ScreamingSnake => Case::UpperSnake,
        CaseStyle::Kebab => Case::Kebab,
        CaseStyle::ScreamingKebab => Case::UpperKebab,
    };
    value.without_boundaries(&[Boundary::UPPER_DIGIT, Boundary::LOWER_DIGIT]).to_case(case)
}

/// The word-based casing that a `rename_all` format name selects.
pub open spec fn style_for_format(format: Seq<char>) -> Option<CaseStyle> {
    if format == "PascalCase"@ {
        Some(CaseStyle::Pascal)
    } else if format == "camelCase"@ {
        Some(CaseStyle::Camel)
    } else if format == "snake_case"@ {
        Some(CaseStyle::Snake)
    } else if format == "SCREAMING_SNAKE_CASE"@ {
        Some(CaseStyle::ScreamingSnake)
    } else if format == "kebab-case"@ {
        Some(CaseStyle::Kebab)
    } else if format == "SCREAMING-KEBAB-CASE"@ {
        Some(CaseStyle::ScreamingKebab)
    } else {
        None
    }
}

/// The format names that `format_case` accepts, those of serde's `rename_all`.
pub open spec fn is_case_format(format: Seq<char>) -> bool {
    format == "lowercase"@ || format == "UPPERCASE"@ || style_for_format(format) is Some
}

/// The value normalized into the casing a format names.
pub open spec fn formatted_case(value: Seq<char>, format: Seq<char>) -> Seq<char> {
    if format == "lowercase"@ {
        lowercase(value)
    } else if format == "UPPERCASE"@ {
        uppercase(value)
    } else {
        case_converted(value, style_for_format(format).unwrap())
    }
}

/// Returns the word-based casing a format name selects, if any.
pub(crate) fn style_for(format: &str) -> (r: Option<CaseStyle>)
    ensures
        r == style_for_format(format@),
{
    if eq_str(format, "PascalCase") {
        Some(CaseStyle::Pascal)
    } else if eq_str(format, "camelCase") {
        Some(CaseStyle::Camel)
    } else if eq_str(format, "snake_case") {
        Some(CaseStyle::Snake)
    } else if eq_str(format, "SCREAMING_SNAKE_CASE") {
        Some(CaseStyle::ScreamingSnake)
    } else if eq_str(format, "kebab-case") {
        Some(CaseStyle::Kebab)
    } else if eq_str(format, "SCREAMING-KEBAB-CASE") {
        Some(CaseStyle::ScreamingKebab)
    } else {
        None
    }
}

/// Normalize a string into the provided case, using the same format names as
/// serde's `rename_all`, so that an incoming value can be reshaped before it is
/// matched against a variant.
pub fn format_case(value: &str, format: &str) -> (r: String)
    requires
        is_case_format(format@),
    ensures
        r@ == formatted_case(value@, format@),
{
    if eq_str(format, "lowercase") {
        return to_lowercase(value);
    }
    if eq_str(format, "UPPERCASE") {
        return to_uppercase(value);
    }
    match style_for(format) {
        Some(style) => convert_keeping_digits(value, style),
        None => {
            proof {
                assert(false);
            }
            String::new()
        },
    }
}

} // verus!


verus! {

/// Reading a variable parses exactly the value the environment holds: the value read is
/// one `str::parse` gives for that whole value, a failure is one that parse gives for it,
/// with an error that names the variable and quotes the value, and a value that is set
/// never reads as nothing. It is what `parse_value` gives for the same text, in `Some`.
pub proof fn lemma_read_env_parses_whole_value<T: std::str::FromStr>(
    key: Seq<char>,
    s: Seq<char>,
    r: ParseEnvResult<T>,
)
    requires
        read_env::<T>(key, s, r),
    ensures
        !(r matches Ok(None)),
        r matches Ok(Some(x)) ==> parse_gives::<T>(s, Some(x)) && parsed_from::<T>(s, Ok(x)),
        r matches Err(e) ==> parse_gives::<T>(s, None) && e.0@ == env_failure_message(
            key,
            parse_failure_message(s),
        ),
{
}

} // verus!
