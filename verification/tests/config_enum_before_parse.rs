use schematic::config::{ConfigError, EnumTable, ParsedVariant};
use schematic::derive::{ConfigEnumArgs, ContainerSerdeArgs, Variant, VariantArgs};
use std::fmt;
use std::str::FromStr;

fn unit(name: &str) -> Variant {
    Variant {
        name: name.to_string(),
        ..Default::default()
    }
}

fn table(before_parse: &str, rename_all: Option<&str>, variants: Vec<Variant>) -> EnumTable {
    let args = ConfigEnumArgs {
        before_parse: Some(before_parse.to_string()),
        rename: None,
        rename_all: rename_all.map(|f| f.to_string()),
    };
    EnumTable::resolve("Enum", &args, &ContainerSerdeArgs::default(), &variants)
}

/// Parse into a named variant, as the derived `FromStr` does.
fn parse_named<T: Clone>(table: &EnumTable, value: &str, all: &[T]) -> Result<T, ConfigError> {
    match table.parse(value)? {
        ParsedVariant::Named(index) => Ok(all[index].clone()),
        ParsedVariant::Fallback(other) => Err(ConfigError::EnumUnknownVariant(other)),
    }
}

#[derive(Clone, Debug, PartialEq)]
enum Lower {
    Info,
    Error,
}

fn lower() -> EnumTable {
    table("lowercase", Some("lowercase"), vec![unit("Info"), unit("Error")])
}

impl FromStr for Lower {
    type Err = ConfigError;

    fn from_str(value: &str) -> Result<Self, Self::Err> {
        parse_named(&lower(), value, &[Lower::Info, Lower::Error])
    }
}

#[derive(Clone, Debug, PartialEq)]
enum Upper {
    Info,
}

fn upper() -> EnumTable {
    table("UPPERCASE", Some("UPPERCASE"), vec![unit("Info")])
}

impl FromStr for Upper {
    type Err = ConfigError;

    fn from_str(value: &str) -> Result<Self, Self::Err> {
        parse_named(&upper(), value, &[Upper::Info])
    }
}

impl fmt::Display for Upper {
    fn fmt(&self, f: &mut fmt::Formatter<'_>) -> fmt::Result {
        f.write_str(upper().format(0))
    }
}

#[derive(Clone, Debug, PartialEq)]
enum Kebab {
    VeryHigh,
}

fn kebab() -> EnumTable {
    table("kebab-case", Some("kebab-case"), vec![unit("VeryHigh")])
}

impl FromStr for Kebab {
    type Err = ConfigError;

    fn from_str(value: &str) -> Result<Self, Self::Err> {
        parse_named(&kebab(), value, &[Kebab::VeryHigh])
    }
}

#[derive(Clone, Debug, PartialEq)]
enum Camel {
    VeryHigh,
}

fn camel() -> EnumTable {
    table(
        "camelCase",
        None,
        vec![Variant {
            name: "VeryHigh".to_string(),
            args: VariantArgs {
                rename: Some("veryHigh".to_string()),
                ..Default::default()
            },
            ..Default::default()
        }],
    )
}

impl FromStr for Camel {
    type Err = ConfigError;

    fn from_str(value: &str) -> Result<Self, Self::Err> {
        parse_named(&camel(), value, &[Camel::VeryHigh])
    }
}

#[derive(Clone, Debug, PartialEq)]
enum Screaming {
    VeryHigh,
}

fn screaming() -> EnumTable {
    table(
        "SCREAMING_SNAKE_CASE",
        Some("SCREAMING_SNAKE_CASE"),
        vec![unit("VeryHigh")],
    )
}

impl FromStr for Screaming {
    type Err = ConfigError;

    fn from_str(value: &str) -> Result<Self, Self::Err> {
        parse_named(&screaming(), value, &[Screaming::VeryHigh])
    }
}

impl fmt::Display for Screaming {
    fn fmt(&self, f: &mut fmt::Formatter<'_>) -> fmt::Result {
        f.write_str(screaming().format(0))
    }
}

#[derive(Clone, Debug, PartialEq)]
enum Pascal {
    VeryHigh,
}

fn pascal() -> EnumTable {
    table("PascalCase", None, vec![unit("VeryHigh")])
}

impl FromStr for Pascal {
    type Err = ConfigError;

    fn from_str(value: &str) -> Result<Self, Self::Err> {
        parse_named(&pascal(), value, &[Pascal::VeryHigh])
    }
}

#[derive(Clone, Debug, PartialEq)]
enum Digits {
    Version2,
}

fn digits() -> EnumTable {
    table("snake_case", Some("snake_case"), vec![unit("Version2")])
}

impl FromStr for Digits {
    type Err = ConfigError;

    fn from_str(value: &str) -> Result<Self, Self::Err> {
        parse_named(&digits(), value, &[Digits::Version2])
    }
}

impl fmt::Display for Digits {
    fn fmt(&self, f: &mut fmt::Formatter<'_>) -> fmt::Result {
        f.write_str(digits().format(0))
    }
}

#[test]
fn lowercases_the_input() {
    assert_eq!(Lower::from_str("INFO").unwrap(), Lower::Info);
    assert_eq!(Lower::from_str("Info").unwrap(), Lower::Info);
    assert_eq!(Lower::from_str("info").unwrap(), Lower::Info);
}

#[test]
fn uppercases_the_input() {
    assert_eq!(Upper::from_str("info").unwrap(), Upper::Info);
    assert_eq!(Upper::Info.to_string(), "INFO");
}

// Every case serde's `rename_all` accepts is accepted here too, so
// loosely cased input can be normalized before it is matched.
#[test]
fn supports_kebab_case() {
    for input in [
        "very_high",
        "VeryHigh",
        "VERY_HIGH",
        "very high",
        "veryHigh",
    ] {
        assert_eq!(
            Kebab::from_str(input).unwrap(),
            Kebab::VeryHigh,
            "`{input}` did not normalize"
        );
    }
}

#[test]
fn supports_camel_case() {
    for input in ["very_high", "VeryHigh", "very-high"] {
        assert_eq!(Camel::from_str(input).unwrap(), Camel::VeryHigh);
    }
}

#[test]
fn supports_screaming_snake_case() {
    for input in ["very-high", "veryHigh", "very_high"] {
        assert_eq!(Screaming::from_str(input).unwrap(), Screaming::VeryHigh);
    }

    assert_eq!(Screaming::VeryHigh.to_string(), "VERY_HIGH");
}

#[test]
fn supports_pascal_case() {
    for input in ["very-high", "very_high", "veryHigh"] {
        assert_eq!(Pascal::from_str(input).unwrap(), Pascal::VeryHigh);
    }
}

// Digit boundaries are preserved, matching the derive-time helper
#[test]
fn keeps_digits_attached() {
    assert_eq!(Digits::Version2.to_string(), "version2");
    assert_eq!(Digits::from_str("Version2").unwrap(), Digits::Version2);
}

#[test]
fn unknown_variant_error_names_the_normalized_input() {
    assert_eq!(
        lower().parse("NOPE"),
        Err(ConfigError::EnumUnknownVariant("nope".to_string()))
    );
}

#[test]
fn before_parse_is_kept_in_the_table() {
    assert_eq!(lower().before_parse, Some("lowercase".to_string()));
    assert_eq!(Lower::from_str("ERROR").unwrap(), Lower::Error);
}
