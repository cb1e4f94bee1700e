//! Settings that extend a configuration from other sources.

use crate::config::error::ConfigError;
use crate::config::source::{extendable, source_made, Source};
use vstd::prelude::*;

verus! {

/// Represents an extendable setting, either a string or a list of strings.
#[derive(Clone, Debug, PartialEq, Eq)]
pub enum ExtendsFrom {
    String(String),
    List(Vec<String>),
}

impl Default for ExtendsFrom {
    /// Extends from nothing.
    fn default() -> (r: Self)
        ensures
            r matches ExtendsFrom::List(values) && values@.len() == 0,
    {
        ExtendsFrom::List(Vec::new())
    }
}

/// The values an extendable setting names, in order.
pub open spec fn extended_values(extends_from: ExtendsFrom) -> Seq<Seq<char>> {
    match extends_from {
        ExtendsFrom::String(value) => seq![value@],
        ExtendsFrom::List(values) => values@.map_values(|v: String| v@),
    }
}

/// The source of each value, when each can be made; else the error of the first value
/// whose source cannot be made, all those before it having been made.
pub open spec fn sources_extended(
    values: Seq<Seq<char>>,
    parent_source: &Source,
    r: Result<Vec<Source>, ConfigError>,
) -> bool {
    match r {
        Ok(sources) => sources@.len() == values.len() && forall|i: int|
            0 <= i < values.len() ==> source_made(
                values[i],
                Some(parent_source),
                Ok::<Source, ConfigError>(#[trigger] sources@[i]),
            ),
        Err(e) => exists|prior: Seq<Source>|
            prior.len() < values.len() && #[trigger] made_each(values, parent_source, prior)
                && source_made(values[prior.len() as int], Some(parent_source), Err::<Source, ConfigError>(e)),
    }
}

/// `prior` holds the sources made from the first values, one for each.
pub open spec fn made_each(values: Seq<Seq<char>>, parent_source: &Source, prior: Seq<Source>) -> bool {
    forall|j: int|
        0 <= j < prior.len() ==> source_made(
            values[j],
            Some(parent_source),
            Ok::<Source, ConfigError>(#[trigger] prior[j]),
        )
}

/// The sources that a configuration loaded from `parent_source` extends from. A code
/// snippet cannot be extended from.
pub fn extend_sources(parent_source: &Source, extends_from: &ExtendsFrom) -> (r: Result<
    Vec<Source>,
    ConfigError,
>)
    requires
        forall|i: int|
            0 <= i < extended_values(*extends_from).len() ==> extendable(
                #[trigger] extended_values(*extends_from)[i],
                Some(parent_source),
            ),
    ensures
        sources_extended(extended_values(*extends_from), parent_source, r),
{
    let ghost values = extended_values(*extends_from);
    let mut sources: Vec<Source> = Vec::new();
    match extends_from {
        ExtendsFrom::String(value) => {
            assert(values[0] == value@);
            let source = Source::new(value.as_str(), Some(parent_source));
            match source {
                // Extending from code is not possible
                Ok(Source::Code { .. }) => {
                    return Err(ConfigError::ExtendsFromNoCode);
                },
                Ok(s) => {
                    sources.push(s);
                },
                Err(e) => {
                    assert(made_each(values, parent_source, sources@));
                    return Err(e);
                },
            }
        },
        ExtendsFrom::List(list) => {
            let mut i: usize = 0;
            while i < list.len()
                invariant
                    values == list@.map_values(|v: String| v@),
                    values == extended_values(*extends_from),
                    i <= list@.len(),
                    sources@.len() == i,
                    forall|j: int|
                        0 <= j < values.len() ==> extendable(
                            #[trigger] values[j],
                            Some(parent_source),
                        ),
                    forall|j: int|
                        0 <= j < i ==> source_made(
                            values[j],
                            Some(parent_source),
                            Ok::<Source, ConfigError>(#[trigger] sources@[j]),
                        ),
                decreases list@.len() - i,
            {
                assert(values[i as int] == list@[i as int]@);
                let source = Source::new(list[i].as_str(), Some(parent_source));
                match source {
                    // Extending from code is not possible
                    Ok(Source::Code { .. }) => {
                        return Err(ConfigError::ExtendsFromNoCode);
                    },
                    Ok(s) => {
                        sources.push(s);
                    },
                    Err(e) => {
                        assert(made_each(values, parent_source, sources@));
                        assert(source_made(
                            values[sources@.len() as int],
                            Some(parent_source),
                            Err::<Source, ConfigError>(e),
                        ));
                        return Err(e);
                    },
                }
                i = i + 1;
            }
        },
    }
    Ok(sources)
}

/// Whether every value the setting names can be resolved against the parent source.
pub fn all_extendable(parent_source: &Source, extends_from: &ExtendsFrom) -> (r: bool)
    ensures
        r == forall|i: int|
            0 <= i < extended_values(*extends_from).len() ==> extendable(
                #[trigger] extended_values(*extends_from)[i],
                Some(parent_source),
            ),
{
    let ghost values = extended_values(*extends_from);
    match extends_from {
        ExtendsFrom::String(value) => {
            assert(values[0] == value@);
            Source::is_extendable(value.as_str(), Some(parent_source))
        },
        ExtendsFrom::List(list) => {
            let mut i: usize = 0;
            while i < list.len()
                invariant
                    values == list@.map_values(|v: String| v@),
                    values == extended_values(*extends_from),
                    i <= list@.len(),
                    forall|j: int|
                        0 <= j < i ==> extendable(#[trigger] values[j], Some(parent_source)),
                decreases list@.len() - i,
            {
                assert(values[i as int] == list@[i as int]@);
                if !Source::is_extendable(list[i].as_str(), Some(parent_source)) {
                    return false;
                }
                i = i + 1;
            }
            true
        },
    }
}

/// The sources the setting extends from, as `extend_sources` gives them, when every value
/// can be resolved against the parent source; `None` when one cannot.
pub fn extend_sources_checked(parent_source: &Source, extends_from: &ExtendsFrom) -> (r: Option<
    Result<Vec<Source>, ConfigError>,
>)
    ensures
        r is None <==> !(forall|i: int|
            0 <= i < extended_values(*extends_from).len() ==> extendable(
                #[trigger] extended_values(*extends_from)[i],
                Some(parent_source),
            )),
        r matches Some(made) ==> sources_extended(extended_values(*extends_from), parent_source, made),
{
    if all_extendable(parent_source, extends_from) {
        Some(extend_sources(parent_source, extends_from))
    } else {
        None
    }
}

} // verus!
