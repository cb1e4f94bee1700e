use schematic::config::{ConfigEnum, ConfigError, EnumTable, ParsedVariant};
use schematic::derive::{ConfigEnumArgs, ContainerSerdeArgs, Variant, VariantArgs};
use std::fmt;
use std::str::FromStr;

fn unit(name: &str) -> Variant {
    Variant {
        name: name.to_string(),
        ..Default::default()
    }
}

fn with_args(name: &str, args: VariantArgs) -> Variant {
    Variant {
        name: name.to_string(),
        args,
        ..Default::default()
    }
}

#[derive(Clone, Debug, PartialEq)]
enum Level {
    VeryHigh,
    Low,
}

fn level_table() -> EnumTable {
    let args = ConfigEnumArgs {
        rename_all: Some("kebab-case".to_string()),
        ..Default::default()
    };
    EnumTable::resolve(
        "Level",
        &args,
        &ContainerSerdeArgs::default(),
        &vec![unit("VeryHigh"), unit("Low")],
    )
}

impl ConfigEnum for Level {
    fn variants() -> Vec<Self> {
        vec![Level::VeryHigh, Level::Low]
    }
}

impl FromStr for Level {
    type Err = ConfigError;

    fn from_str(value: &str) -> Result<Self, Self::Err> {
        match level_table().parse(value)? {
            ParsedVariant::Named(index) => Ok(Level::variants()[index].clone()),
            ParsedVariant::Fallback(other) => Err(ConfigError::EnumUnknownVariant(other)),
        }
    }
}

impl fmt::Display for Level {
    fn fmt(&self, f: &mut fmt::Formatter<'_>) -> fmt::Result {
        let index = match self {
            Level::VeryHigh => 0,
            Level::Low => 1,
        };
        f.write_str(level_table().format(index))
    }
}

#[derive(Clone, Debug, PartialEq)]
enum Renamed {
    Explicit,
    Aliased,
}

fn renamed_table() -> EnumTable {
    EnumTable::resolve(
        "Renamed",
        &ConfigEnumArgs::default(),
        &ContainerSerdeArgs::default(),
        &vec![
            with_args(
                "Explicit",
                VariantArgs {
                    rename: Some("custom".to_string()),
                    ..Default::default()
                },
            ),
            with_args(
                "Aliased",
                VariantArgs {
                    aliases: vec!["second".to_string(), "third".to_string()],
                    ..Default::default()
                },
            ),
        ],
    )
}

impl ConfigEnum for Renamed {
    fn variants() -> Vec<Self> {
        vec![Renamed::Explicit, Renamed::Aliased]
    }
}

impl FromStr for Renamed {
    type Err = ConfigError;

    fn from_str(value: &str) -> Result<Self, Self::Err> {
        match renamed_table().parse(value)? {
            ParsedVariant::Named(index) => Ok(Renamed::variants()[index].clone()),
            ParsedVariant::Fallback(other) => Err(ConfigError::EnumUnknownVariant(other)),
        }
    }
}

impl fmt::Display for Renamed {
    fn fmt(&self, f: &mut fmt::Formatter<'_>) -> fmt::Result {
        let index = match self {
            Renamed::Explicit => 0,
            Renamed::Aliased => 1,
        };
        f.write_str(renamed_table().format(index))
    }
}

#[test]
fn applies_rename_all() {
    assert_eq!(Level::from_str("very-high").unwrap(), Level::VeryHigh);
    assert_eq!(Level::VeryHigh.to_string(), "very-high");
    assert!(Level::from_str("VeryHigh").is_err());
}

#[test]
fn honours_explicit_renames() {
    assert_eq!(Renamed::from_str("custom").unwrap(), Renamed::Explicit);
    assert_eq!(Renamed::Explicit.to_string(), "custom");
}

#[test]
fn accepts_aliases_when_parsing() {
    assert_eq!(Renamed::from_str("Aliased").unwrap(), Renamed::Aliased);
    assert_eq!(Renamed::from_str("second").unwrap(), Renamed::Aliased);
    assert_eq!(Renamed::from_str("third").unwrap(), Renamed::Aliased);

    // Formatting always uses the canonical value
    assert_eq!(Renamed::Aliased.to_string(), "Aliased");
}

#[test]
fn explicit_rename_is_not_also_the_identifier() {
    assert!(Renamed::from_str("Explicit").is_err());
}

#[test]
fn serde_rename_and_alias_are_honoured() {
    let mut variant = unit("Medium");
    variant.serde_args.rename = Some("mid".to_string());
    variant.serde_args.alias = Some("middle".to_string());
    let own = with_args(
        "Top",
        VariantArgs {
            rename: Some("top".to_string()),
            ..Default::default()
        },
    );
    let mut both = unit("Bottom");
    both.args.rename = Some("own".to_string());
    both.serde_args.rename = Some("serde".to_string());

    let table = EnumTable::resolve(
        "Level",
        &ConfigEnumArgs::default(),
        &ContainerSerdeArgs::default(),
        &vec![variant, own, both],
    );

    assert_eq!(table.format(0), "mid");
    assert_eq!(table.variants[0].aliases, vec!["middle".to_string()]);
    assert_eq!(table.parse("middle"), Ok(ParsedVariant::Named(0)));
    assert_eq!(table.format(1), "top");
    // The variant's own rename wins over serde's
    assert_eq!(table.format(2), "own");
}

#[test]
fn own_rename_all_wins_over_serde() {
    let args = ConfigEnumArgs {
        rename_all: Some("snake_case".to_string()),
        ..Default::default()
    };
    let serde_args = ContainerSerdeArgs {
        rename_all: Some("kebab-case".to_string()),
        ..Default::default()
    };
    let table = EnumTable::resolve("Level", &args, &serde_args, &vec![unit("VeryHigh")]);

    assert_eq!(table.format(0), "very_high");
}

#[test]
fn every_rename_all_format_is_applied() {
    let cases = [
        ("lowercase", "veryhigh"),
        ("UPPERCASE", "VERYHIGH"),
        ("PascalCase", "VeryHigh"),
        ("camelCase", "veryHigh"),
        ("snake_case", "very_high"),
        ("SCREAMING_SNAKE_CASE", "VERY_HIGH"),
        ("kebab-case", "very-high"),
        ("SCREAMING-KEBAB-CASE", "VERY-HIGH"),
        // An unknown format reads as kebab-case
        ("Title Case", "very-high"),
    ];

    for (format, expected) in cases {
        let args = ConfigEnumArgs {
            rename_all: Some(format.to_string()),
            ..Default::default()
        };
        let table = EnumTable::resolve(
            "Level",
            &args,
            &ContainerSerdeArgs::default(),
            &vec![unit("VeryHigh")],
        );

        assert_eq!(table.format(0), expected, "{format}");
    }
}
