//! What the configuration derives decide for a variant of a configuration enum: its name
//! and the serde options forwarded to the partial configuration.

use crate::derive::args::FieldSerdeArgs;
use crate::derive::config_enum::{first_set, format_case, renamed_ident};
use crate::derive::field::SerdeOption;
use vstd::prelude::*;

verus! {

/// Options on a variant, `#[setting(...)]` and `#[schema(...)]`. Expressions and paths are
/// held as their source text.
#[derive(Debug, Default)]
pub struct VariantArgs {
    pub exclude: bool,
    pub null: bool,
    // config
    pub default: bool,
    pub merge: Option<String>,
    pub nested: bool,
    pub validate: Option<String>,
    // serde
    pub rename: Option<String>,
    pub skip: bool,
    pub skip_deserializing: bool,
    pub skip_serializing: bool,
}

/// A variant as declared: its identifier and its options.
#[derive(Debug, Default)]
pub struct Variant {
    pub args: VariantArgs,
    pub serde_args: FieldSerdeArgs,
    pub name: String,
}

/// The name a variant is written as: its own rename, else serde's, else its identifier
/// under the casing format, else its identifier as written.
pub open spec fn variant_name(v: Variant, casing: Option<Seq<char>>) -> Seq<char> {
    match first_set(v.args.rename, v.serde_args.rename) {
        Some(r) => r@,
        None => match casing {
            Some(c) => renamed_ident(c, v.name@, true),
            None => v.name@,
        },
    }
}

/// The serde options forwarded for a variant: serde's alias, the rename of either set of
/// options, the variant's own first, then either `skip`, or whether it is skipped when
/// serialized and when deserialized.
pub open spec fn variant_serde_meta(v: Variant) -> Seq<SerdeOption> {
    let alias = match v.serde_args.alias {
        Some(a) => seq![SerdeOption::Alias(a)],
        None => Seq::empty(),
    };
    let rename = match first_set(v.args.rename, v.serde_args.rename) {
        Some(r) => seq![SerdeOption::Rename(r)],
        None => Seq::empty(),
    };
    let skipping = if v.args.skip || v.serde_args.skip {
        seq![SerdeOption::Skip]
    } else {
        (if v.args.skip_serializing || v.serde_args.skip_serializing {
            seq![SerdeOption::SkipSerializing]
        } else {
            Seq::empty()
        }) + (if v.args.skip_deserializing || v.serde_args.skip_deserializing {
            seq![SerdeOption::SkipDeserializing]
        } else {
            Seq::empty()
        })
    };
    alias + rename + skipping
}

impl Variant {
    pub fn is_default(&self) -> (r: bool)
        ensures
            r == self.args.default,
    {
        self.args.default
    }

    pub fn is_excluded(&self) -> (r: bool)
        ensures
            r == self.args.exclude,
    {
        self.args.exclude
    }

    pub fn is_nested(&self) -> (r: bool)
        ensures
            r == self.args.nested,
    {
        self.args.nested
    }

    /// The name the variant is written as, under the casing format when one is given.
    pub fn get_name(&self, casing_format: Option<&str>) -> (r: String)
        ensures
            r@ == variant_name(
                *self,
                match casing_format {
                    Some(c) => Some(c@),
                    None => None,
                },
            ),
    {
        if let Some(local) = &self.args.rename {
            local.clone()
        } else if let Some(serde) = &self.serde_args.rename {
            serde.clone()
        } else if let Some(format) = casing_format {
            format_case(format, self.name.as_str(), true)
        } else {
            self.name.clone()
        }
    }

    /// The serde options forwarded to the variant of the partial configuration.
    pub fn get_serde_meta(&self) -> (r: Vec<SerdeOption>)
        ensures
            r@ == variant_serde_meta(*self),
    {
        let mut meta: Vec<SerdeOption> = Vec::new();
        if let Some(alias) = &self.serde_args.alias {
            meta.push(SerdeOption::Alias(alias.clone()));
        }
        if let Some(rename) = &self.args.rename {
            meta.push(SerdeOption::Rename(rename.clone()));
        } else if let Some(rename) = &self.serde_args.rename {
            meta.push(SerdeOption::Rename(rename.clone()));
        }
        if self.args.skip || self.serde_args.skip {
            meta.push(SerdeOption::Skip);
        } else {
            if self.args.skip_serializing || self.serde_args.skip_serializing {
                meta.push(SerdeOption::SkipSerializing);
            }
            if self.args.skip_deserializing || self.serde_args.skip_deserializing {
                meta.push(SerdeOption::SkipDeserializing);
            }
        }
        assert(meta@ =~= variant_serde_meta(*self));
        meta
    }
}

} // verus!
