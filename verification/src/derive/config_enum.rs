//! What `#[derive(ConfigEnum)]` decides from the attributes of an enum: the name of each
//! variant, its aliases, which variant is the fallback and which the default, and how the
//! input is normalized before it is matched.

use crate::config::enums::{
    lemma_fallback_round_trip, lemma_format_then_parse, parse_outcome, table_wf, variant_matches,
    variant_specs, EnumTable, EnumVariant, ParsedVariant,
};
use crate::config::error::ConfigError;
use crate::derive::args::{ContainerSerdeArgs, FieldSerdeArgs};
use crate::internal::{is_case_format, style_for, CaseStyle};
use crate::text::{eq_str, lowercase, to_lowercase, to_uppercase, uppercase};
use convert_case::{Boundary, Case, Casing};
use vstd::prelude::*;

verus! {

/// Options on the enum, `#[config(...)]`.
#[derive(Debug, Default)]
pub struct ConfigEnumArgs {
    /// The casing an input is normalized into before it is matched.
    pub before_parse: Option<String>,
    // serde
    pub rename: Option<String>,
    pub rename_all: Option<String>,
}

/// Options on a variant, `#[variant(...)]`.
#[derive(Debug, Default)]
pub struct VariantArgs {
    /// The variant takes any string that no other variant matches.
    pub fallback: bool,
    /// The string the variant is written as.
    pub rename: Option<String>,
    /// Other strings that parse into the variant.
    pub aliases: Vec<String>,
}

/// A variant as declared: its identifier, its options, and whether it carries `#[default]`.
#[derive(Debug, Default)]
pub struct Variant {
    pub name: String,
    pub args: VariantArgs,
    pub serde_args: FieldSerdeArgs,
    pub default: bool,
}

/// What `convert_case` makes of an identifier, read as PascalCase for a variant and as
/// snake_case otherwise, in `style`, digits kept attached to their words.
pub uninterp spec fn ident_case_converted(ident: Seq<char>, is_variant: bool, style: CaseStyle) -> Seq<char>;

/// Calls `convert_case`'s `Casing::from_case` with `Case::Pascal` for a variant and
/// `Case::Snake` otherwise, then `without_boundaries` with the upper-digit and lower-digit
/// boundaries, then `to_case` with `style`. Claims that the result is a function of these
/// three arguments alone.
#[verifier::external_body]
fn convert_ident(ident: &str, is_variant: bool, style: CaseStyle) -> (r: String)
    ensures
        r@ == ident_case_converted(ident@, is_variant, style),
{
    let case = match style {
        CaseStyle::Pascal => Case::Pascal,
        CaseStyle::Camel => Case::Camel,
        CaseStyle::Snake => Case::Snake,
        CaseStyle::ScreamingSnake => Case::UpperSnake,
        CaseStyle::Kebab => Case::Kebab,
        CaseStyle::ScreamingKebab => Case::UpperKebab,
    };
    let from = if is_variant { Case::Pascal } else { Case::Snake };
    ident.from_case(from).without_boundaries(&[Boundary::UPPER_DIGIT, Boundary::LOWER_DIGIT]).to_case(case)
}

/// The name an identifier takes under a `rename_all` format; an unknown format reads as
/// kebab-case.
pub open spec fn renamed_ident(format: Seq<char>, ident: Seq<char>, is_variant: bool) -> Seq<char> {
    if format == "lowercase"@ {
        lowercase(ident)
    } else if format == "UPPERCASE"@ {
        uppercase(ident)
    } else {
        ident_case_converted(
            ident,
            is_variant,
            match crate::internal::style_for_format(format) {
                Some(style) => style,
                None => CaseStyle::Kebab,
            },
        )
    }
}

/// Rename an identifier with a `rename_all` format.
pub fn format_case(format: &str, value: &str, is_variant: bool) -> (r: String)
    ensures
        r@ == renamed_ident(format@, value@, is_variant),
{
    if eq_str(format, "lowercase") {
        return to_lowercase(value);
    }
    if eq_str(format, "UPPERCASE") {
        return to_uppercase(value);
    }
    let style = match style_for(format) {
        Some(style) => style,
        None => CaseStyle::Kebab,
    };
    convert_ident(value, is_variant, style)
}

/// The first of two options that is set.
pub open spec fn first_set(first: Option<String>, second: Option<String>) -> Option<String> {
    if first is Some {
        first
    } else {
        second
    }
}

/// The string a variant is written as: empty for the fallback, else its own rename, else
/// serde's, else its identifier under the casing format, else its identifier as written.
pub open spec fn variant_value(v: Variant, casing: Option<String>) -> Seq<char> {
    if v.args.fallback {
        Seq::empty()
    } else {
        match first_set(v.args.rename, v.serde_args.rename) {
            Some(r) => r@,
            None => match casing {
                Some(f) => renamed_ident(f@, v.name@, true),
                None => v.name@,
            },
        }
    }
}

/// The other strings that parse into a variant: its own aliases, then serde's.
pub open spec fn variant_aliases(v: Variant) -> Seq<Seq<char>> {
    let own = v.args.aliases@.map_values(|a: String| a@);
    match v.serde_args.alias {
        Some(a) => own.push(a@),
        None => own,
    }
}

/// The number of variants in `vs` that are marked as the fallback.
pub open spec fn fallback_count(vs: Seq<Variant>) -> nat
    decreases vs.len(),
{
    if vs.len() == 0 {
        0
    } else {
        fallback_count(vs.drop_last()) + if vs.last().args.fallback {
            1nat
        } else {
            0nat
        }
    }
}

/// The declarations that the derive accepts: at most one fallback variant, and a
/// `before_parse` casing that `format_case` knows.
pub open spec fn accepted_enum(args: ConfigEnumArgs, variants: Seq<Variant>) -> bool {
    &&& fallback_count(variants) <= 1
    &&& args.before_parse matches Some(bp) ==> is_case_format(bp@)
}

/// The table resolved from the declaration of an enum named `ident`: named by its own
/// rename, else serde's, else its identifier; input normalized by `before_parse`; each
/// variant written as `variant_value` under the enum's casing (its own `rename_all`, else
/// serde's), with its aliases and flags.
pub open spec fn resolved_table(
    ident: Seq<char>,
    args: ConfigEnumArgs,
    serde_args: ContainerSerdeArgs,
    variants: Seq<Variant>,
    t: EnumTable,
) -> bool {
    let casing = first_set(args.rename_all, serde_args.rename_all);
    &&& t.name@ == match first_set(args.rename, serde_args.rename) {
        Some(r) => r@,
        None => ident,
    }
    &&& t.before_parse == args.before_parse
    &&& t.variants@.len() == variants.len()
    &&& forall|i: int|
        0 <= i < variants.len() ==> {
            let v = #[trigger] t.variants@[i];
            &&& v.value@ == variant_value(variants[i], casing)
            &&& v@.aliases == variant_aliases(variants[i])
            &&& v.fallback == variants[i].args.fallback
            &&& v.default == variants[i].default
        }
}

fn first_of(first: &Option<String>, second: &Option<String>) -> (r: Option<String>)
    ensures
        r == first_set(*first, *second),
{
    match first {
        Some(value) => Some(value.clone()),
        None => match second {
            Some(value) => Some(value.clone()),
            None => None,
        },
    }
}

/// The strings a variant is written as besides its value.
fn aliases_of(v: &Variant) -> (r: Vec<String>)
    ensures
        r@.map_values(|a: String| a@) == variant_aliases(*v),
{
    let mut out: Vec<String> = Vec::new();
    let mut i: usize = 0;
    while i < v.args.aliases.len()
        invariant
            i <= v.args.aliases@.len(),
            out@.len() == i,
            forall|j: int| 0 <= j < i ==> #[trigger] out@[j]@ == v.args.aliases@[j]@,
        decreases v.args.aliases@.len() - i,
    {
        out.push(v.args.aliases[i].clone());
        i = i + 1;
    }
    assert(out@.map_values(|a: String| a@) =~= v.args.aliases@.map_values(|a: String| a@));
    match &v.serde_args.alias {
        Some(a) => {
            let ghost before = out@;
            out.push(a.clone());
            assert(out@.map_values(|a: String| a@) =~= before.map_values(|a: String| a@).push(a@));
        },
        None => {},
    }
    out
}

proof fn lemma_one_fallback(vs: Seq<Variant>, i: int)
    requires
        0 <= i < vs.len(),
        vs[i].args.fallback,
    ensures
        fallback_count(vs) >= 1,
    decreases vs.len(),
{
    if i < vs.len() - 1 {
        lemma_one_fallback(vs.drop_last(), i);
    }
}

proof fn lemma_two_fallbacks(vs: Seq<Variant>, i: int, j: int)
    requires
        0 <= i < j < vs.len(),
        vs[i].args.fallback,
        vs[j].args.fallback,
    ensures
        fallback_count(vs) >= 2,
    decreases vs.len(),
{
    if j == vs.len() - 1 {
        lemma_one_fallback(vs.drop_last(), i);
    } else {
        lemma_two_fallbacks(vs.drop_last(), i, j);
    }
}

impl EnumTable {
    /// Resolve the names of an enumerable setting from its declaration, its variants in
    /// declaration order.
    pub fn resolve(
        ident: &str,
        args: &ConfigEnumArgs,
        serde_args: &ContainerSerdeArgs,
        variants: &Vec<Variant>,
    ) -> (r: EnumTable)
        requires
            accepted_enum(*args, variants@),
        ensures
            resolved_table(ident@, *args, *serde_args, variants@, r),
            table_wf(r),
    {
        let name = match first_of(&args.rename, &serde_args.rename) {
            Some(n) => n,
            None => ident.to_string(),
        };
        let casing = first_of(&args.rename_all, &serde_args.rename_all);
        let mut table: Vec<EnumVariant> = Vec::new();
        let mut i: usize = 0;
        while i < variants.len()
            invariant
                i <= variants@.len(),
                table@.len() == i,
                casing == first_set(args.rename_all, serde_args.rename_all),
                forall|j: int|
                    0 <= j < i ==> {
                        let v = #[trigger] table@[j];
                        &&& v.value@ == variant_value(variants@[j], casing)
                        &&& v@.aliases == variant_aliases(variants@[j])
                        &&& v.fallback == variants@[j].args.fallback
                        &&& v.default == variants@[j].default
                    },
            decreases variants@.len() - i,
        {
            let v = &variants[i];
            let value = if v.args.fallback {
                String::new()
            } else {
                match first_of(&v.args.rename, &v.serde_args.rename) {
                    Some(r) => r,
                    None => match &casing {
                        Some(f) => format_case(f.as_str(), v.name.as_str(), true),
                        None => v.name.clone(),
                    },
                }
            };
            table.push(
                EnumVariant {
                    value,
                    aliases: aliases_of(v),
                    fallback: v.args.fallback,
                    default: v.default,
                },
            );
            i = i + 1;
        }
        let before_parse = match &args.before_parse {
            Some(bp) => Some(bp.clone()),
            None => None,
        };
        let r = EnumTable { name, before_parse, variants: table };
        assert forall|i: int, j: int|
            0 <= i < j < r.variants@.len() implies !(#[trigger] r.variants@[i].fallback
                && #[trigger] r.variants@[j].fallback) by {
            if r.variants@[i].fallback && r.variants@[j].fallback {
                lemma_two_fallbacks(variants@, i, j);
            }
        }
        r
    }
}

/// A named variant of a derived enum, formatted and parsed back, is the same variant, for
/// an accepted declaration without `before_parse` in which no earlier named variant is
/// written as, or aliased to, the string this one is written as.
pub proof fn lemma_derived_round_trip(
    ident: Seq<char>,
    args: ConfigEnumArgs,
    serde_args: ContainerSerdeArgs,
    variants: Seq<Variant>,
    t: EnumTable,
    i: int,
    r: Result<ParsedVariant, ConfigError>,
)
    requires
        accepted_enum(args, variants),
        resolved_table(ident, args, serde_args, variants, t),
        args.before_parse is None,
        0 <= i < variants.len(),
        !variants[i].args.fallback,
        forall|j: int|
            0 <= j < i && !variants[j].args.fallback ==> {
                let w = variant_value(variants[i], first_set(args.rename_all, serde_args.rename_all));
                &&& variant_value(#[trigger] variants[j], first_set(args.rename_all, serde_args.rename_all)) != w
                &&& !variant_aliases(variants[j]).contains(w)
            },
        parse_outcome(t, t.variants@[i].value@, r),
    ensures
        r == Ok::<ParsedVariant, ConfigError>(ParsedVariant::Named(i as usize)),
{
    let casing = first_set(args.rename_all, serde_args.rename_all);
    let w = variant_value(variants[i], casing);
    assert(t.variants@[i].value@ == w);
    assert forall|j: int| 0 <= j < i implies !variant_matches(#[trigger] variant_specs(t)[j], w) by {
        assert(variant_specs(t)[j] == t.variants@[j]@);
    }
    lemma_format_then_parse(t, i, r);
}

/// A string that the fallback of a derived enum absorbed parses into the fallback again,
/// for a declaration without `before_parse`.
pub proof fn lemma_derived_fallback_round_trip(
    ident: Seq<char>,
    args: ConfigEnumArgs,
    serde_args: ContainerSerdeArgs,
    variants: Seq<Variant>,
    t: EnumTable,
    input: Seq<char>,
    value: String,
    r: Result<ParsedVariant, ConfigError>,
)
    requires
        resolved_table(ident, args, serde_args, variants, t),
        args.before_parse is None,
        parse_outcome(t, input, Ok(ParsedVariant::Fallback(value))),
        parse_outcome(t, value@, r),
    ensures
        r matches Ok(ParsedVariant::Fallback(again)) && again@ == value@,
{
    lemma_fallback_round_trip(t, input, value, r);
}

} // verus!

verus! {

/// A named variant with a rename of its own, or serde's, is written exactly as renamed,
/// whatever casing the enum applies to its identifiers; without a rename it is its
/// identifier under the enum's casing (its own `rename_all`, else serde's), or as written
/// when there is none. The fallback is written as nothing.
pub proof fn lemma_variant_written_as_renamed(
    ident: Seq<char>,
    args: ConfigEnumArgs,
    serde_args: ContainerSerdeArgs,
    variants: Seq<Variant>,
    t: EnumTable,
    i: int,
)
    requires
        resolved_table(ident, args, serde_args, variants, t),
        0 <= i < variants.len(),
    ensures
        variants[i].args.fallback ==> t.variants@[i].value@ == Seq::<char>::empty(),
        !variants[i].args.fallback ==> t.variants@[i].value@ == match (
            variants[i].args.rename,
            variants[i].serde_args.rename,
        ) {
            (Some(r), _) => r@,
            (None, Some(r)) => r@,
            (None, None) => match (args.rename_all, serde_args.rename_all) {
                (Some(f), _) => renamed_ident(f@, variants[i].name@, true),
                (None, Some(f)) => renamed_ident(f@, variants[i].name@, true),
                (None, None) => variants[i].name@,
            },
        },
{
    assert(t.variants@[i].value@ == variant_value(
        variants[i],
        first_set(args.rename_all, serde_args.rename_all),
    ));
}

/// The table is named by the enum's own rename, else serde's, else its identifier; each
/// variant keeps its own aliases, then serde's alias, and its fallback and default flags;
/// and there is one variant for each declared, in order.
pub proof fn lemma_table_names_and_aliases(
    ident: Seq<char>,
    args: ConfigEnumArgs,
    serde_args: ContainerSerdeArgs,
    variants: Seq<Variant>,
    t: EnumTable,
    i: int,
)
    requires
        resolved_table(ident, args, serde_args, variants, t),
        0 <= i < variants.len(),
    ensures
        t.name@ == match (args.rename, serde_args.rename) {
            (Some(r), _) => r@,
            (None, Some(r)) => r@,
            (None, None) => ident,
        },
        t.variants@.len() == variants.len(),
        t.variants@[i]@.aliases == variants[i].args.aliases@.map_values(|a: String| a@) + match variants[i].serde_args.alias {
            Some(a) => seq![a@],
            None => Seq::<Seq<char>>::empty(),
        },
        t.variants@[i].fallback == variants[i].args.fallback,
        t.variants@[i].default == variants[i].default,
{
    let v = t.variants@[i];
    assert(v@.aliases == variant_aliases(variants[i]));
    match variants[i].serde_args.alias {
        Some(a) => {},
        None => {
            assert(variants[i].args.aliases@.map_values(|a: String| a@) + Seq::<Seq<char>>::empty()
                =~= variants[i].args.aliases@.map_values(|a: String| a@));
        },
    }
}

} // verus!
