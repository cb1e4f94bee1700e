//! The serde options that the derives read off a container, a field or a variant, and
//! the decisions they take from them.

use vstd::prelude::*;

verus! {

/// Serde options on a struct or enum, `#[serde(...)]`.
#[derive(Debug, Default)]
pub struct ContainerSerdeArgs {
    pub default: bool,
    pub deny_unknown_fields: bool,
    // struct
    pub rename: Option<String>,
    pub rename_all: Option<String>,
    pub rename_all_fields: Option<String>,
    // enum
    pub content: Option<String>,
    pub expecting: Option<String>,
    pub tag: Option<String>,
    pub untagged: bool,
}

/// Serde options on a field or a variant, `#[serde(...)]`.
#[derive(Debug, Default)]
pub struct FieldSerdeArgs {
    pub alias: Option<String>,
    pub default: bool,
    pub flatten: bool,
    pub rename: Option<String>,
    pub skip: bool,
    pub skip_deserializing: bool,
    pub skip_serializing: bool,
    // variant
    pub untagged: bool,
}

impl FieldSerdeArgs {
    /// A container marked `#[serde(default)]` makes each of its fields default too.
    pub fn inherit_from_container(&mut self, container: &ContainerSerdeArgs)
        ensures
            *final(self) == (FieldSerdeArgs { default: old(self).default || container.default, ..*old(self) }),
    {
        if !self.default && container.default {
            self.default = true;
        }
    }
}

/// The enum representation options that `#[config(serde(...))]` may repeat.
#[derive(Debug, Default)]
pub struct SerdeMeta {
    pub content: Option<String>,
    pub expecting: Option<String>,
    pub tag: Option<String>,
    pub untagged: bool,
}

/// Serde options read by the schema derive, `#[serde(...)]`.
#[derive(Debug, Default)]
pub struct SerdeArgs {
    // struct
    pub rename: Option<String>,
    pub rename_all: Option<String>,
    // enum
    pub content: Option<String>,
    pub expecting: Option<String>,
    pub tag: Option<String>,
    pub untagged: bool,
}

/// How the variants of an enum are represented.
#[derive(Debug, PartialEq, Eq)]
pub enum TaggedFormat {
    Untagged,
    External,
    Internal(String),
    Adjacent(String, String),
    /// Special case for unit only enums.
    Unit,
}

/// The first of two options that is set.
pub open spec fn either(first: Option<String>, second: Option<String>) -> Option<String> {
    if first is Some {
        first
    } else {
        second
    }
}

/// The representation an enum takes: untagged when either option says so, else adjacently
/// tagged when a tag and a content name are set, internally tagged when only a tag is,
/// externally tagged otherwise. The derive's own options win over serde's.
pub open spec fn tagged_format_of(meta: SerdeMeta, serde_args: ContainerSerdeArgs) -> TaggedFormat {
    if meta.untagged || serde_args.untagged {
        TaggedFormat::Untagged
    } else {
        match (either(meta.tag, serde_args.tag), either(meta.content, serde_args.content)) {
            (Some(tag), Some(content)) => TaggedFormat::Adjacent(tag, content),
            (Some(tag), None) => TaggedFormat::Internal(tag),
            _ => TaggedFormat::External,
        }
    }
}

fn either_of(first: &Option<String>, second: &Option<String>) -> (r: Option<String>)
    ensures
        r == either(*first, *second),
{
    match first {
        Some(value) => Some(value.clone()),
        None => match second {
            Some(value) => Some(value.clone()),
            None => None,
        },
    }
}

/// The representation an enum takes, from the derive's serde options and serde's own.
pub fn tagged_format(meta: &SerdeMeta, serde_args: &ContainerSerdeArgs) -> (r: TaggedFormat)
    ensures
        r == tagged_format_of(*meta, *serde_args),
{
    if meta.untagged || serde_args.untagged {
        return TaggedFormat::Untagged;
    }
    let tag = either_of(&meta.tag, &serde_args.tag);
    let content = either_of(&meta.content, &serde_args.content);
    match (tag, content) {
        (Some(tag), Some(content)) => TaggedFormat::Adjacent(tag, content),
        (Some(tag), None) => TaggedFormat::Internal(tag),
        _ => TaggedFormat::External,
    }
}

/// The name of a container: its own rename, else serde's, else its identifier.
pub open spec fn container_name_of(ident: Seq<char>, rename: Option<String>, serde_args: ContainerSerdeArgs) -> Seq<char> {
    match either(rename, serde_args.rename) {
        Some(r) => r@,
        None => ident,
    }
}

/// The name of a container, as the derives read it.
pub fn container_name(ident: &str, rename: &Option<String>, serde_args: &ContainerSerdeArgs) -> (r: String)
    ensures
        r@ == container_name_of(ident@, *rename, *serde_args),
{
    match either_of(rename, &serde_args.rename) {
        Some(r) => r,
        None => ident.to_string(),
    }
}

/// The casing of the fields of a container: for a struct, its `rename_all` (the derive's
/// own, else serde's), camelCase by default; for an enum, the `rename_all_fields` of its
/// variants first, then its `rename_all`, kebab-case by default.
pub open spec fn casing_format_of(
    rename_all: Option<String>,
    rename_all_fields: Option<String>,
    serde_args: ContainerSerdeArgs,
    is_enum: bool,
) -> Seq<char> {
    let base = either(rename_all, serde_args.rename_all);
    if is_enum {
        match either(either(rename_all_fields, serde_args.rename_all_fields), base) {
            Some(f) => f@,
            None => "kebab-case"@,
        }
    } else {
        match base {
            Some(f) => f@,
            None => "camelCase"@,
        }
    }
}

/// The casing applied to the names of the fields of a container.
pub fn casing_format(
    rename_all: &Option<String>,
    rename_all_fields: &Option<String>,
    serde_args: &ContainerSerdeArgs,
    is_enum: bool,
) -> (r: String)
    ensures
        r@ == casing_format_of(*rename_all, *rename_all_fields, *serde_args, is_enum),
{
    let base = either_of(rename_all, &serde_args.rename_all);
    if is_enum {
        let fields = either_of(rename_all_fields, &serde_args.rename_all_fields);
        match either_of(&fields, &base) {
            Some(f) => f,
            None => "kebab-case".to_string(),
        }
    } else {
        match base {
            Some(f) => f,
            None => "camelCase".to_string(),
        }
    }
}

/// The shape of a container.
#[derive(Clone, Copy, Debug, PartialEq, Eq)]
pub enum ContainerKind {
    NamedStruct,
    UnnamedStruct,
    Enum,
}

/// A serde option forwarded to the partial configuration of a container.
#[derive(Debug, PartialEq, Eq)]
pub enum ContainerSerdeOption {
    Default,
    DenyUnknownFields,
    Content(String),
    Tag(String),
    Untagged,
    Expecting(String),
    Rename(String),
    RenameAll(String),
}

/// The option for a value that either of two options sets, the first winning.
pub open spec fn either_option(
    first: Option<String>,
    second: Option<String>,
    make: spec_fn(String) -> ContainerSerdeOption,
) -> Seq<ContainerSerdeOption> {
    match either(first, second) {
        Some(v) => seq![make(v)],
        None => Seq::empty(),
    }
}

/// The serde options forwarded for a container. A struct defaults its missing fields, and
/// a named struct denies unknown fields unless its options allow them; an enum keeps its
/// content name, tag and untagged flag. Then come the `expecting` message and the rename of
/// either set of options, the derive's own first, and last the casing of its fields.
pub open spec fn container_serde_meta(
    kind: ContainerKind,
    allow_unknown_fields: bool,
    meta: SerdeMeta,
    rename: Option<String>,
    serde_args: ContainerSerdeArgs,
    casing_format: String,
) -> Seq<ContainerSerdeOption> {
    let shape = match kind {
        ContainerKind::NamedStruct => if serde_args.deny_unknown_fields || !allow_unknown_fields {
            seq![ContainerSerdeOption::Default, ContainerSerdeOption::DenyUnknownFields]
        } else {
            seq![ContainerSerdeOption::Default]
        },
        ContainerKind::UnnamedStruct => seq![ContainerSerdeOption::Default],
        ContainerKind::Enum => either_option(
            meta.content,
            serde_args.content,
            |c: String| ContainerSerdeOption::Content(c),
        ) + either_option(meta.tag, serde_args.tag, |t: String| ContainerSerdeOption::Tag(t))
            + if meta.untagged || serde_args.untagged {
            seq![ContainerSerdeOption::Untagged]
        } else {
            Seq::empty()
        },
    };
    shape + either_option(
        meta.expecting,
        serde_args.expecting,
        |e: String| ContainerSerdeOption::Expecting(e),
    ) + either_option(rename, serde_args.rename, |r: String| ContainerSerdeOption::Rename(r))
        + seq![ContainerSerdeOption::RenameAll(casing_format)]
}

/// The serde options forwarded to the partial configuration of a container.
pub fn get_serde_meta(
    kind: ContainerKind,
    allow_unknown_fields: bool,
    meta: &SerdeMeta,
    rename: &Option<String>,
    serde_args: &ContainerSerdeArgs,
    casing_format: &String,
) -> (r: Vec<ContainerSerdeOption>)
    ensures
        r@ == container_serde_meta(
            kind,
            allow_unknown_fields,
            *meta,
            *rename,
            *serde_args,
            *casing_format,
        ),
{
    let mut out: Vec<ContainerSerdeOption> = Vec::new();
    match kind {
        ContainerKind::NamedStruct => {
            out.push(ContainerSerdeOption::Default);
            if serde_args.deny_unknown_fields || !allow_unknown_fields {
                out.push(ContainerSerdeOption::DenyUnknownFields);
            }
        },
        ContainerKind::UnnamedStruct => {
            out.push(ContainerSerdeOption::Default);
        },
        ContainerKind::Enum => {
            if let Some(content) = either_of(&meta.content, &serde_args.content) {
                out.push(ContainerSerdeOption::Content(content));
            }
            if let Some(tag) = either_of(&meta.tag, &serde_args.tag) {
                out.push(ContainerSerdeOption::Tag(tag));
            }
            if meta.untagged || serde_args.untagged {
                out.push(ContainerSerdeOption::Untagged);
            }
        },
    }
    if let Some(expecting) = either_of(&meta.expecting, &serde_args.expecting) {
        out.push(ContainerSerdeOption::Expecting(expecting));
    }
    if let Some(name) = either_of(rename, &serde_args.rename) {
        out.push(ContainerSerdeOption::Rename(name));
    }
    out.push(ContainerSerdeOption::RenameAll(casing_format.clone()));
    assert(out@ =~= container_serde_meta(
        kind,
        allow_unknown_fields,
        *meta,
        *rename,
        *serde_args,
        *casing_format,
    ));
    out
}

} // verus!
