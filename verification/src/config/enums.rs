//! Enumerable settings: how the variants of a unit enum are named, parsed from strings
//! and formatted back.

use crate::config::error::ConfigError;
use crate::internal::{format_case, formatted_case, is_case_format};
use crate::text::eq_str;
use vstd::prelude::*;
use vstd::string::*;

verus! {

/// Provides metadata about a configuration struct or enum.
pub struct Meta {
    /// Name of the struct.
    pub name: &'static str,
}

/// Represents an enumerable setting for use within a configuration.
pub trait ConfigEnum: Sized {
    /// Return a list of all variants for the enum. A fallback variant is listed with a
    /// default inner value.
    fn variants() -> Vec<Self>;
}

/// A variant of an enumerable setting, as plain values.
pub ghost struct VariantSpec {
    pub value: Seq<char>,
    pub aliases: Seq<Seq<char>>,
    pub fallback: bool,
    pub default: bool,
}

/// A variant of an enumerable setting: the string it is written as, the other strings that
/// parse into it, whether it is the fallback that absorbs any other string, and whether it
/// is the default.
#[derive(Debug, PartialEq, Eq)]
pub struct EnumVariant {
    pub value: String,
    pub aliases: Vec<String>,
    pub fallback: bool,
    pub default: bool,
}

impl View for EnumVariant {
    type V = VariantSpec;

    open spec fn view(&self) -> VariantSpec {
        VariantSpec {
            value: self.value@,
            aliases: self.aliases@.map_values(|a: String| a@),
            fallback: self.fallback,
            default: self.default,
        }
    }
}

/// The resolved names of an enumerable setting: its name, the casing its input is
/// normalized into before matching, and its variants in declaration order.
#[derive(Debug, PartialEq, Eq)]
pub struct EnumTable {
    pub name: String,
    pub before_parse: Option<String>,
    pub variants: Vec<EnumVariant>,
}

/// The outcome of parsing a string into a variant.
#[derive(Debug, PartialEq, Eq)]
pub enum ParsedVariant {
    /// The variant at this index matched.
    Named(usize),
    /// No variant matched, and the fallback variant takes this value.
    Fallback(String),
}

/// The variants of a table, as plain values.
pub open spec fn variant_specs(t: EnumTable) -> Seq<VariantSpec> {
    t.variants@.map_values(|v: EnumVariant| v@)
}

/// A table is well formed when it has at most one fallback variant and its `before_parse`
/// casing is one that `format_case` accepts.
pub open spec fn table_wf(t: EnumTable) -> bool {
    &&& forall|i: int, j: int|
        0 <= i < j < t.variants@.len() ==> !(#[trigger] t.variants@[i].fallback
            && #[trigger] t.variants@[j].fallback)
    &&& t.before_parse matches Some(bp) ==> is_case_format(bp@)
}

/// A table can normalize its input: its `before_parse` casing, if any, is one that
/// `format_case` accepts.
pub open spec fn parsable(t: EnumTable) -> bool {
    t.before_parse matches Some(bp) ==> is_case_format(bp@)
}

/// A named variant is written as `s`, or takes `s` as an alias.
pub open spec fn variant_matches(v: VariantSpec, s: Seq<char>) -> bool {
    !v.fallback && (v.value == s || v.aliases.contains(s))
}

/// The first variant at or after `i` that matches `s`.
pub open spec fn match_from(vs: Seq<VariantSpec>, s: Seq<char>, i: int) -> Option<int>
    decreases vs.len() - i,
{
    if i < 0 || i >= vs.len() {
        None
    } else if variant_matches(vs[i], s) {
        Some(i)
    } else {
        match_from(vs, s, i + 1)
    }
}

/// The index of the fallback variant, if there is one.
pub open spec fn fallback_index(vs: Seq<VariantSpec>) -> Option<int> {
    if exists|i: int| 0 <= i < vs.len() && vs[i].fallback {
        Some(choose|i: int| 0 <= i < vs.len() && vs[i].fallback)
    } else {
        None
    }
}

/// The input once normalized by the table's `before_parse` casing.
pub open spec fn normalized(t: EnumTable, input: Seq<char>) -> Seq<char> {
    match t.before_parse {
        Some(bp) => formatted_case(input, bp@),
        None => input,
    }
}

/// What parsing `input` with the table yields: the first named variant that matches the
/// normalized input; else the fallback with the normalized input; else the error for an
/// unknown variant, naming the normalized input.
pub open spec fn parse_outcome(t: EnumTable, input: Seq<char>, r: Result<ParsedVariant, ConfigError>) -> bool {
    let s = normalized(t, input);
    match match_from(variant_specs(t), s, 0) {
        Some(i) => r == Ok::<ParsedVariant, ConfigError>(ParsedVariant::Named(i as usize)),
        None => if fallback_index(variant_specs(t)) is Some {
            r matches Ok(ParsedVariant::Fallback(v)) && v@ == s
        } else {
            r matches Err(ConfigError::EnumUnknownVariant(v)) && v@ == s
        },
    }
}

/// Returns whether the variant is named `s` or takes `s` as an alias.
fn matches_variant(v: &EnumVariant, s: &str) -> (r: bool)
    ensures
        r == variant_matches(v@, s@),
{
    if v.fallback {
        return false;
    }
    if eq_str(v.value.as_str(), s) {
        return true;
    }
    let mut k: usize = 0;
    while k < v.aliases.len()
        invariant
            !v.fallback,
            k <= v.aliases@.len(),
            forall|j: int| 0 <= j < k ==> v.aliases@[j]@ != s@,
        decreases v.aliases@.len() - k,
    {
        if eq_str(v.aliases[k].as_str(), s) {
            assert(v@.aliases[k as int] == s@);
            assert(v@.aliases.contains(s@));
            return true;
        }
        k = k + 1;
    }
    assert(!v@.aliases.contains(s@));
    false
}

impl EnumTable {
    /// Parse a string into a variant: a named variant when the (normalized) string is its
    /// value or one of its aliases, the fallback otherwise, or an unknown variant error.
    pub fn parse(&self, input: &str) -> (r: Result<ParsedVariant, ConfigError>)
        requires
            parsable(*self),
        ensures
            parse_outcome(*self, input@, r),
    {
        let owned: String;
        let value: &str = match &self.before_parse {
            Some(bp) => {
                owned = format_case(input, bp.as_str());
                owned.as_str()
            },
            None => input,
        };
        assert(value@ == normalized(*self, input@));
        let ghost vs = variant_specs(*self);
        let mut i: usize = 0;
        let mut fallback: bool = false;
        while i < self.variants.len()
            invariant
                vs == variant_specs(*self),
                value@ == normalized(*self, input@),
                i <= self.variants@.len(),
                match_from(vs, value@, i as int) == match_from(vs, value@, 0),
                fallback == exists|j: int| 0 <= j < i && vs[j].fallback,
            decreases self.variants@.len() - i,
        {
            assert(vs[i as int] == self.variants@[i as int]@);
            if matches_variant(&self.variants[i], value) {
                return Ok(ParsedVariant::Named(i));
            }
            if self.variants[i].fallback {
                fallback = true;
            }
            i = i + 1;
        }
        if fallback {
            Ok(ParsedVariant::Fallback(value.to_owned()))
        } else {
            Err(ConfigError::EnumUnknownVariant(value.to_owned()))
        }
    }

    /// The string a named variant is written as.
    pub fn format(&self, index: usize) -> (r: &str)
        requires
            index < self.variants@.len(),
        ensures
            r@ == self.variants@[index as int].value@,
    {
        self.variants[index].value.as_str()
    }
}

proof fn lemma_first_match(vs: Seq<VariantSpec>, s: Seq<char>, k: int, i: int)
    requires
        0 <= k <= i < vs.len(),
        variant_matches(vs[i], s),
        forall|j: int| k <= j < i ==> !variant_matches(#[trigger] vs[j], s),
    ensures
        match_from(vs, s, k) == Some(i),
    decreases i - k,
{
    if k < i {
        lemma_first_match(vs, s, k + 1, i);
    }
}

/// Formatting a named variant and parsing the result gives the same variant back, when
/// the table's normalization leaves the string unchanged and no earlier variant is written
/// as, or aliased to, that string.
pub proof fn lemma_format_then_parse(t: EnumTable, i: int, r: Result<ParsedVariant, ConfigError>)
    requires
        parsable(t),
        0 <= i < t.variants@.len(),
        !t.variants@[i].fallback,
        normalized(t, t.variants@[i].value@) == t.variants@[i].value@,
        forall|j: int|
            0 <= j < i ==> !variant_matches(#[trigger] variant_specs(t)[j], t.variants@[i].value@),
        parse_outcome(t, t.variants@[i].value@, r),
    ensures
        r == Ok::<ParsedVariant, ConfigError>(ParsedVariant::Named(i as usize)),
{
    let vs = variant_specs(t);
    assert(vs[i] == t.variants@[i]@);
    lemma_first_match(vs, t.variants@[i].value@, 0, i);
}

/// A string that the fallback absorbed parses into the fallback again, with the same
/// value, when the table's normalization leaves that value unchanged.
pub proof fn lemma_fallback_round_trip(
    t: EnumTable,
    input: Seq<char>,
    value: String,
    r: Result<ParsedVariant, ConfigError>,
)
    requires
        parsable(t),
        parse_outcome(t, input, Ok(ParsedVariant::Fallback(value))),
        normalized(t, value@) == value@,
        parse_outcome(t, value@, r),
    ensures
        r matches Ok(ParsedVariant::Fallback(again)) && again@ == value@,
{
}

/// A named variant that matches the normalized input wins over the fallback: parsing
/// only falls back when no named variant is written as, or aliased to, that string.
pub proof fn lemma_named_before_fallback(
    t: EnumTable,
    input: Seq<char>,
    i: int,
    r: Result<ParsedVariant, ConfigError>,
)
    requires
        parsable(t),
        0 <= i < t.variants@.len() <= usize::MAX,
        variant_matches(variant_specs(t)[i], normalized(t, input)),
        parse_outcome(t, input, r),
    ensures
        r matches Ok(ParsedVariant::Named(k)) && k <= i && variant_matches(
            variant_specs(t)[k as int],
            normalized(t, input),
        ),
{
    let vs = variant_specs(t);
    let s = normalized(t, input);
    lemma_match_from_bounds(vs, s, 0, i);
    let m = match_from(vs, s, 0)->0;
    assert((m as usize) as int == m);
}

proof fn lemma_match_from_bounds(vs: Seq<VariantSpec>, s: Seq<char>, k: int, i: int)
    requires
        0 <= k <= i < vs.len(),
        variant_matches(vs[i], s),
    ensures
        match_from(vs, s, k) matches Some(m) && k <= m <= i && variant_matches(vs[m], s),
    decreases i - k,
{
    if k < i && !variant_matches(vs[k], s) {
        lemma_match_from_bounds(vs, s, k + 1, i);
    }
}

} // verus!
