//! What the configuration derives decide for a field: its name, its aliases, the variable
//! it is read from, and the serde options forwarded to the partial configuration.

use crate::derive::args::FieldSerdeArgs;
use crate::derive::config_enum::{first_set, format_case, renamed_ident};
use crate::text::{eq_str, to_uppercase, uppercase};
use vstd::prelude::*;
use vstd::string::*;

verus! {

/// Options on a field, `#[setting(...)]` and `#[schema(...)]`. Expressions and paths are
/// held as their source text.
#[derive(Debug, Default)]
pub struct FieldArgs {
    // schema
    pub exclude: bool,
    // config
    pub default: Option<String>,
    pub env: Option<String>,
    pub extend: bool,
    pub merge: Option<String>,
    pub nested: bool,
    pub parse_env: Option<String>,
    pub required: bool,
    pub transform: Option<String>,
    pub validate: Option<String>,
    // serde
    pub alias: Option<String>,
    pub flatten: bool,
    pub rename: Option<String>,
    pub skip: bool,
    pub skip_deserializing: bool,
    pub skip_serializing: bool,
}

/// A field as declared: its name (none for a tuple field) or index, its options, whether
/// its type is an `Option`, and what its container hands down.
#[derive(Debug)]
pub struct Field {
    pub args: FieldArgs,
    pub serde_args: FieldSerdeArgs,
    pub casing_format: String,
    pub name: Option<String>,
    pub index: usize,
    pub nullable: bool,
    pub env_prefix: Option<String>,
}

/// A serde option forwarded to a field of the partial configuration.
#[derive(Debug, PartialEq, Eq)]
pub enum SerdeOption {
    Alias(String),
    Flatten,
    Rename(String),
    Skip,
    SkipSerializing,
    SkipSerializingIfNone,
    SkipDeserializing,
}

/// The declarations that the derive accepts: no default on a nested configuration, and
/// `required` only on an optional setting.
pub open spec fn accepted_field(args: FieldArgs, nullable: bool) -> bool {
    &&& !(args.default is Some && args.nested)
    &&& args.required ==> nullable
}

/// The name a field is written as: empty for a tuple field; else its own rename, else
/// serde's, else its name under the casing format, else its name as written.
pub open spec fn field_name(f: Field, casing: Option<Seq<char>>) -> Seq<char> {
    match f.name {
        None => Seq::empty(),
        Some(name) => match first_set(f.args.rename, f.serde_args.rename) {
            Some(r) => r@,
            None => match casing {
                Some(c) => renamed_ident(c, name@, false),
                None => name@,
            },
        },
    }
}

/// The variable a field is read from: none for a nested configuration; else the one its
/// options name; else, under a prefix, the prefix and its name, upper cased.
pub open spec fn field_env_var(f: Field) -> Option<Seq<char>> {
    if f.args.nested {
        None
    } else {
        match f.args.env {
            Some(e) => Some(e@),
            None => match f.env_prefix {
                Some(p) => Some(uppercase(p@ + field_name(f, None))),
                None => None,
            },
        }
    }
}

/// The other names a field is read under: its own alias and serde's.
pub open spec fn field_aliases(f: Field) -> Set<Seq<char>> {
    let own = match f.args.alias {
        Some(a) => set![a@],
        None => Set::empty(),
    };
    let serde = match f.serde_args.alias {
        Some(a) => set![a@],
        None => Set::empty(),
    };
    own.union(serde)
}

/// The option for a value that either of two options sets, the first winning.
pub open spec fn first_option(first: Option<String>, second: Option<String>, make: spec_fn(String) -> SerdeOption) -> Seq<SerdeOption> {
    match first_set(first, second) {
        Some(v) => seq![make(v)],
        None => Seq::empty(),
    }
}

/// The serde options forwarded for a field: its alias, `flatten`, its rename, then either
/// `skip`, or how it is serialized (skipped, or skipped when none) and whether it is skipped
/// when deserialized. Each flag is set by either set of options.
pub open spec fn field_serde_meta(f: Field) -> Seq<SerdeOption> {
    let alias = first_option(f.args.alias, f.serde_args.alias, |a: String| SerdeOption::Alias(a));
    let flatten = if f.args.flatten || f.serde_args.flatten {
        seq![SerdeOption::Flatten]
    } else {
        Seq::empty()
    };
    let rename = first_option(f.args.rename, f.serde_args.rename, |r: String| SerdeOption::Rename(r));
    let skipping = if f.args.skip || f.serde_args.skip {
        seq![SerdeOption::Skip]
    } else {
        let ser = if f.args.skip_serializing || f.serde_args.skip_serializing {
            SerdeOption::SkipSerializing
        } else {
            SerdeOption::SkipSerializingIfNone
        };
        let de = if f.args.skip_deserializing || f.serde_args.skip_deserializing {
            seq![SerdeOption::SkipDeserializing]
        } else {
            Seq::empty()
        };
        seq![ser] + de
    };
    alias + flatten + rename + skipping
}

fn first_of(first: &Option<String>, second: &Option<String>) -> (r: Option<String>)
    ensures
        r == first_set(*first, *second),
{
    match first {
        Some(value) => Some(value.clone()),
        None => match second {
            Some(value) => Some(value.clone()),
            None => None,
        },
    }
}

impl Field {
    /// A field as declared, before its container hands down its casing and prefix.
    pub fn from(name: Option<String>, args: FieldArgs, serde_args: FieldSerdeArgs, nullable: bool) -> (r: Field)
        requires
            accepted_field(args, nullable),
        ensures
            r == (Field {
                args,
                serde_args,
                casing_format: r.casing_format,
                name,
                index: 0,
                nullable,
                env_prefix: None,
            }),
            r.casing_format@ == Seq::<char>::empty(),
    {
        Field { args, serde_args, casing_format: String::new(), name, index: 0, nullable, env_prefix: None }
    }

    pub fn is_excluded(&self) -> (r: bool)
        ensures
            r == self.args.exclude,
    {
        self.args.exclude
    }

    pub fn is_extendable(&self) -> (r: bool)
        ensures
            r == self.args.extend,
    {
        self.args.extend
    }

    pub fn is_nested(&self) -> (r: bool)
        ensures
            r == self.args.nested,
    {
        self.args.nested
    }

    pub fn is_nullable(&self) -> (r: bool)
        ensures
            r == self.nullable,
    {
        self.nullable
    }

    /// A field with a default, its own or the container's, may be left out.
    pub fn is_optional(&self) -> (r: bool)
        ensures
            r == (self.serde_args.default || self.args.default is Some),
    {
        self.serde_args.default || self.args.default.is_some()
    }

    pub fn is_required(&self) -> (r: bool)
        ensures
            r == self.args.required,
    {
        self.args.required
    }

    pub fn is_skipped(&self) -> (r: bool)
        ensures
            r == (self.args.skip || self.serde_args.skip),
    {
        self.args.skip || self.serde_args.skip
    }

    /// The name the field is written as, under the casing format when one is given.
    pub fn get_name(&self, casing_format: Option<&str>) -> (r: String)
        ensures
            r@ == field_name(
                *self,
                match casing_format {
                    Some(c) => Some(c@),
                    None => None,
                },
            ),
    {
        let name = match &self.name {
            Some(name) => name,
            None => {
                return String::new();
            },
        };
        match first_of(&self.args.rename, &self.serde_args.rename) {
            Some(r) => r,
            None => match casing_format {
                Some(format) => format_case(format, name.as_str(), false),
                None => name.clone(),
            },
        }
    }

    /// The other names the field is read under, each once.
    pub fn get_aliases(&self) -> (r: Vec<String>)
        ensures
            r@.map_values(|a: String| a@).to_set() == field_aliases(*self),
            r@.map_values(|a: String| a@).no_duplicates(),
    {
        let mut aliases: Vec<String> = Vec::new();
        if let Some(alias) = &self.args.alias {
            aliases.push(alias.clone());
        }
        if let Some(alias) = &self.serde_args.alias {
            let duplicate = match &self.args.alias {
                Some(own) => eq_str(own.as_str(), alias.as_str()),
                None => false,
            };
            if !duplicate {
                aliases.push(alias.clone());
            }
        }
        let ghost names = aliases@.map_values(|a: String| a@);
        assert(names.to_set() =~= field_aliases(*self)) by {
            assert forall|x: Seq<char>| names.contains(x) <==> field_aliases(*self).contains(x) by {
                if names.contains(x) {
                    let i = choose|i: int| 0 <= i < names.len() && names[i] == x;
                    assert(names[i] == aliases@[i]@);
                }
                if let Some(a) = self.args.alias {
                    if x == a@ {
                        assert(names[0] == x);
                    }
                }
                if let Some(a) = self.serde_args.alias {
                    if x == a@ {
                        if self.args.alias matches Some(o) && o@ == a@ {
                            assert(names[0] == x);
                        } else {
                            assert(names[names.len() - 1] == x);
                        }
                    }
                }
            }
        }
        aliases
    }

    /// The variable the field is read from, if any.
    pub fn get_env_var(&self) -> (r: Option<String>)
        ensures
            match r {
                Some(v) => field_env_var(*self) == Some(v@),
                None => field_env_var(*self) is None,
            },
    {
        if self.is_nested() {
            return None;
        }
        if let Some(env_name) = &self.args.env {
            return Some(env_name.clone());
        }
        match &self.env_prefix {
            Some(prefix) => {
                let mut key = prefix.clone();
                let name = self.get_name(None);
                key.append(name.as_str());
                Some(to_uppercase(key.as_str()))
            },
            None => None,
        }
    }

    /// The serde options forwarded to the field of the partial configuration.
    pub fn get_serde_meta(&self) -> (r: Vec<SerdeOption>)
        ensures
            r@ == field_serde_meta(*self),
    {
        let mut meta: Vec<SerdeOption> = Vec::new();
        if let Some(alias) = first_of(&self.args.alias, &self.serde_args.alias) {
            meta.push(SerdeOption::Alias(alias));
        }
        if self.args.flatten || self.serde_args.flatten {
            meta.push(SerdeOption::Flatten);
        }
        if let Some(rename) = first_of(&self.args.rename, &self.serde_args.rename) {
            meta.push(SerdeOption::Rename(rename));
        }
        if self.args.skip || self.serde_args.skip {
            meta.push(SerdeOption::Skip);
        } else {
            if self.args.skip_serializing || self.serde_args.skip_serializing {
                meta.push(SerdeOption::SkipSerializing);
            } else {
                meta.push(SerdeOption::SkipSerializingIfNone);
            }
            if self.args.skip_deserializing || self.serde_args.skip_deserializing {
                meta.push(SerdeOption::SkipDeserializing);
            }
        }
        assert(meta@ =~= field_serde_meta(*self));
        meta
    }
}

} // verus!

verus! {

/// A field's variable, under a container prefix and without a variable of its own, is the
/// prefix followed by the name the field is written as, upper cased: its own rename, else
/// serde's, else its identifier. It is the name `get_name` gives without a casing format.
pub proof fn lemma_env_var_uses_written_name(f: Field)
    requires
        !f.args.nested,
        f.args.env is None,
        f.env_prefix is Some,
    ensures
        field_env_var(f) == Some(uppercase(f.env_prefix->0@ + field_name(f, None))),
        f.name matches Some(n) ==> field_env_var(f) == Some(
            uppercase(
                f.env_prefix->0@ + match (f.args.rename, f.serde_args.rename) {
                    (Some(r), _) => r@,
                    (None, Some(r)) => r@,
                    (None, None) => n@,
                },
            ),
        ),
{
}

/// A field's own variable wins over any prefix, and a nested configuration is read from
/// no variable.
pub proof fn lemma_env_var_explicit_or_nested(f: Field)
    ensures
        f.args.nested ==> field_env_var(f) is None,
        !f.args.nested && f.args.env is Some ==> field_env_var(f) == Some(f.args.env->0@),
        !f.args.nested && f.args.env is None && f.env_prefix is None ==> field_env_var(f) is None,
{
}

/// A named field is written as its own rename, else serde's, exactly as given whatever
/// the casing format; only without a rename is its identifier put in the casing format. A
/// tuple field has no name.
pub proof fn lemma_field_written_as_renamed(f: Field, casing: Option<Seq<char>>)
    ensures
        f.name is None ==> field_name(f, casing) == Seq::<char>::empty(),
        f.name matches Some(n) ==> field_name(f, casing) == match (
            f.args.rename,
            f.serde_args.rename,
        ) {
            (Some(r), _) => r@,
            (None, Some(r)) => r@,
            (None, None) => match casing {
                Some(c) => renamed_ident(c, n@, false),
                None => n@,
            },
        },
{
}

/// A field is also read under its own alias and serde's, and under no other name.
pub proof fn lemma_field_aliases(f: Field, a: Seq<char>)
    ensures
        field_aliases(f).contains(a) <==> (f.args.alias matches Some(x) && x@ == a)
            || (f.serde_args.alias matches Some(y) && y@ == a),
{
}

} // verus!
