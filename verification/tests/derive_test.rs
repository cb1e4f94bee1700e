use schematic::derive::config_enum::format_case;
use schematic::derive::{
    ContainerSerdeArgs, Field, FieldArgs, FieldSerdeArgs, SerdeMeta, SerdeOption, TaggedFormat,
};
use schematic::derive::args::{
    casing_format, container_name, get_serde_meta, tagged_format, ContainerKind,
    ContainerSerdeOption,
};
use schematic::derive::utils::{extract_comment, extract_deprecated, DeprecatedAttr};

fn field(name: &str) -> Field {
    Field::from(
        Some(name.to_string()),
        FieldArgs::default(),
        FieldSerdeArgs::default(),
        false,
    )
}

#[test]
fn container_default_makes_fields_default() {
    let container = ContainerSerdeArgs {
        default: true,
        ..Default::default()
    };
    let mut args = FieldSerdeArgs {
        rename: Some("x".to_string()),
        ..Default::default()
    };
    args.inherit_from_container(&container);
    assert!(args.default);
    assert_eq!(args.rename, Some("x".to_string()));

    let mut args = FieldSerdeArgs::default();
    args.inherit_from_container(&ContainerSerdeArgs::default());
    assert!(!args.default);
}

#[test]
fn tagged_formats() {
    let serde_args = ContainerSerdeArgs::default();
    assert_eq!(tagged_format(&SerdeMeta::default(), &serde_args), TaggedFormat::External);

    let meta = SerdeMeta {
        tag: Some("type".to_string()),
        ..Default::default()
    };
    assert_eq!(
        tagged_format(&meta, &serde_args),
        TaggedFormat::Internal("type".to_string())
    );

    let serde_args = ContainerSerdeArgs {
        tag: Some("kind".to_string()),
        content: Some("data".to_string()),
        ..Default::default()
    };
    assert_eq!(
        tagged_format(&meta, &serde_args),
        TaggedFormat::Adjacent("type".to_string(), "data".to_string())
    );

    let untagged = ContainerSerdeArgs {
        untagged: true,
        ..Default::default()
    };
    assert_eq!(tagged_format(&meta, &untagged), TaggedFormat::Untagged);
}

#[test]
fn identifiers_are_cased_by_format() {
    assert_eq!(format_case("camelCase", "max_count", false), "maxCount");
    assert_eq!(format_case("kebab-case", "max_count", false), "max-count");
    assert_eq!(format_case("PascalCase", "max_count", false), "MaxCount");
    assert_eq!(format_case("snake_case", "VeryHigh", true), "very_high");
    assert_eq!(format_case("lowercase", "VeryHigh", true), "veryhigh");
    assert_eq!(format_case("unknown", "VeryHigh", true), "very-high");
}

#[test]
fn field_names() {
    let plain = field("max_count");
    assert_eq!(plain.get_name(None), "max_count");
    assert_eq!(plain.get_name(Some("camelCase")), "maxCount");

    let mut renamed = field("max_count");
    renamed.serde_args.rename = Some("serdeName".to_string());
    assert_eq!(renamed.get_name(Some("camelCase")), "serdeName");
    renamed.args.rename = Some("ownName".to_string());
    assert_eq!(renamed.get_name(Some("camelCase")), "ownName");

    let tuple = Field::from(None, FieldArgs::default(), FieldSerdeArgs::default(), false);
    assert_eq!(tuple.get_name(Some("camelCase")), "");
    assert_eq!(tuple.index, 0);
}

#[test]
fn field_aliases_are_listed_once() {
    let mut f = field("a");
    assert!(f.get_aliases().is_empty());

    f.args.alias = Some("b".to_string());
    f.serde_args.alias = Some("b".to_string());
    assert_eq!(f.get_aliases(), vec!["b".to_string()]);

    f.serde_args.alias = Some("c".to_string());
    let mut aliases = f.get_aliases();
    aliases.sort();
    assert_eq!(aliases, vec!["b".to_string(), "c".to_string()]);
}

#[test]
fn field_env_vars() {
    let mut f = field("max_count");
    assert_eq!(f.get_env_var(), None);

    f.env_prefix = Some("app_".to_string());
    assert_eq!(f.get_env_var(), Some("APP_MAX_COUNT".to_string()));

    f.args.env = Some("COUNT".to_string());
    assert_eq!(f.get_env_var(), Some("COUNT".to_string()));

    f.args.nested = true;
    assert_eq!(f.get_env_var(), None);
}

#[test]
fn field_flags() {
    let mut f = field("a");
    assert!(!f.is_optional() && !f.is_skipped() && !f.is_nested() && !f.is_nullable());
    f.serde_args.default = true;
    f.serde_args.skip = true;
    assert!(f.is_optional() && f.is_skipped());

    let args = FieldArgs {
        required: true,
        default: Some("3".to_string()),
        exclude: true,
        extend: true,
        ..Default::default()
    };
    let f = Field::from(Some("a".to_string()), args, FieldSerdeArgs::default(), true);
    assert!(f.is_required() && f.is_nullable() && f.is_optional());
    assert!(f.is_excluded() && f.is_extendable());
}

#[test]
fn forwarded_serde_options() {
    let f = field("a");
    assert_eq!(f.get_serde_meta(), vec![SerdeOption::SkipSerializingIfNone]);

    let mut f = field("a");
    f.args.alias = Some("own".to_string());
    f.serde_args.alias = Some("serde".to_string());
    f.serde_args.flatten = true;
    f.serde_args.rename = Some("renamed".to_string());
    f.args.skip_serializing = true;
    f.serde_args.skip_deserializing = true;
    assert_eq!(
        f.get_serde_meta(),
        vec![
            SerdeOption::Alias("own".to_string()),
            SerdeOption::Flatten,
            SerdeOption::Rename("renamed".to_string()),
            SerdeOption::SkipSerializing,
            SerdeOption::SkipDeserializing,
        ]
    );

    f.args.skip = true;
    assert_eq!(
        f.get_serde_meta(),
        vec![
            SerdeOption::Alias("own".to_string()),
            SerdeOption::Flatten,
            SerdeOption::Rename("renamed".to_string()),
            SerdeOption::Skip,
        ]
    );
}

#[test]
fn doc_comments_are_trimmed_and_joined() {
    assert_eq!(extract_comment(&vec![]), None);
    assert_eq!(
        extract_comment(&vec![" Some docs.".to_string()]),
        Some("Some docs.".to_string())
    );
    assert_eq!(
        extract_comment(&vec![
            " First line.".to_string(),
            "\n * Second line.\n ".to_string()
        ]),
        Some("First line.\n\nSecond line.\n".to_string())
    );
}

#[test]
fn deprecation_notes() {
    assert_eq!(extract_deprecated(&vec![]), None);
    assert_eq!(
        extract_deprecated(&vec![DeprecatedAttr::Other, DeprecatedAttr::Flag(false)]),
        None
    );
    assert_eq!(
        extract_deprecated(&vec![DeprecatedAttr::Bare]),
        Some(String::new())
    );
    assert_eq!(
        extract_deprecated(&vec![DeprecatedAttr::Flag(true)]),
        Some(String::new())
    );
    assert_eq!(
        extract_deprecated(&vec![
            DeprecatedAttr::Other,
            DeprecatedAttr::Note("  use `other`  ".to_string()),
            DeprecatedAttr::Bare
        ]),
        Some("use `other`".to_string())
    );
}

#[test]
fn container_names_and_casing() {
    let serde_args = ContainerSerdeArgs {
        rename: Some("SerdeName".to_string()),
        rename_all: Some("snake_case".to_string()),
        ..Default::default()
    };
    assert_eq!(container_name("App", &None, &ContainerSerdeArgs::default()), "App");
    assert_eq!(container_name("App", &None, &serde_args), "SerdeName");
    assert_eq!(container_name("App", &Some("Own".to_string()), &serde_args), "Own");

    let none = ContainerSerdeArgs::default();
    assert_eq!(casing_format(&None, &None, &none, false), "camelCase");
    assert_eq!(casing_format(&None, &None, &none, true), "kebab-case");
    assert_eq!(casing_format(&None, &None, &serde_args, true), "snake_case");
    assert_eq!(
        casing_format(&Some("PascalCase".to_string()), &None, &serde_args, false),
        "PascalCase"
    );
    assert_eq!(
        casing_format(
            &Some("PascalCase".to_string()),
            &Some("UPPERCASE".to_string()),
            &serde_args,
            true
        ),
        "UPPERCASE"
    );
    // Fields of a struct ignore `rename_all_fields`
    assert_eq!(
        casing_format(&None, &Some("UPPERCASE".to_string()), &none, false),
        "camelCase"
    );
}

#[test]
fn container_serde_options() {
    let none = ContainerSerdeArgs::default();
    let casing = "camelCase".to_string();

    assert_eq!(
        get_serde_meta(ContainerKind::NamedStruct, false, &SerdeMeta::default(), &None, &none, &casing),
        vec![
            ContainerSerdeOption::Default,
            ContainerSerdeOption::DenyUnknownFields,
            ContainerSerdeOption::RenameAll("camelCase".to_string()),
        ]
    );
    assert_eq!(
        get_serde_meta(ContainerKind::NamedStruct, true, &SerdeMeta::default(), &None, &none, &casing),
        vec![
            ContainerSerdeOption::Default,
            ContainerSerdeOption::RenameAll("camelCase".to_string()),
        ]
    );

    let meta = SerdeMeta {
        tag: Some("type".to_string()),
        expecting: Some("a shape".to_string()),
        ..Default::default()
    };
    let serde_args = ContainerSerdeArgs {
        content: Some("data".to_string()),
        untagged: true,
        rename: Some("Renamed".to_string()),
        ..Default::default()
    };
    let kebab = "kebab-case".to_string();
    assert_eq!(
        get_serde_meta(ContainerKind::Enum, false, &meta, &None, &serde_args, &kebab),
        vec![
            ContainerSerdeOption::Content("data".to_string()),
            ContainerSerdeOption::Tag("type".to_string()),
            ContainerSerdeOption::Untagged,
            ContainerSerdeOption::Expecting("a shape".to_string()),
            ContainerSerdeOption::Rename("Renamed".to_string()),
            ContainerSerdeOption::RenameAll("kebab-case".to_string()),
        ]
    );
    assert_eq!(
        get_serde_meta(
            ContainerKind::UnnamedStruct,
            false,
            &SerdeMeta::default(),
            &Some("Own".to_string()),
            &serde_args,
            &casing
        ),
        vec![
            ContainerSerdeOption::Default,
            ContainerSerdeOption::Rename("Own".to_string()),
            ContainerSerdeOption::RenameAll("camelCase".to_string()),
        ]
    );
}

#[test]
fn enum_variant_names_and_serde_options() {
    let mut variant = schematic::derive::variant::Variant {
        name: "VeryHigh".to_string(),
        ..Default::default()
    };
    assert_eq!(variant.get_name(None), "VeryHigh");
    assert_eq!(variant.get_name(Some("kebab-case")), "very-high");
    assert_eq!(variant.get_serde_meta(), vec![]);
    assert!(!variant.is_default() && !variant.is_excluded() && !variant.is_nested());

    variant.serde_args.alias = Some("high".to_string());
    variant.serde_args.rename = Some("serde".to_string());
    variant.serde_args.skip_serializing = true;
    assert_eq!(variant.get_name(Some("kebab-case")), "serde");
    assert_eq!(
        variant.get_serde_meta(),
        vec![
            SerdeOption::Alias("high".to_string()),
            SerdeOption::Rename("serde".to_string()),
            SerdeOption::SkipSerializing,
        ]
    );

    variant.args.rename = Some("own".to_string());
    variant.args.skip = true;
    variant.args.default = true;
    assert_eq!(variant.get_name(None), "own");
    assert_eq!(
        variant.get_serde_meta(),
        vec![
            SerdeOption::Alias("high".to_string()),
            SerdeOption::Rename("own".to_string()),
            SerdeOption::Skip,
        ]
    );
    assert!(variant.is_default());
}
