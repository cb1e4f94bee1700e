use schematic::config::{ConfigEnum, ConfigError, EnumTable, ParsedVariant};
use schematic::derive::{ConfigEnumArgs, ContainerSerdeArgs, Variant};
use std::fmt;
use std::str::FromStr;

fn unit(name: &str) -> Variant {
    Variant {
        name: name.to_string(),
        ..Default::default()
    }
}

#[derive(Clone, Debug, PartialEq)]
enum Level {
    Info,
    Error,
    Off,
}

fn level_table() -> EnumTable {
    EnumTable::resolve(
        "Level",
        &ConfigEnumArgs::default(),
        &ContainerSerdeArgs::default(),
        &vec![unit("Info"), unit("Error"), unit("Off")],
    )
}

impl Level {
    fn index(&self) -> usize {
        match self {
            Level::Info => 0,
            Level::Error => 1,
            Level::Off => 2,
        }
    }
}

impl ConfigEnum for Level {
    fn variants() -> Vec<Self> {
        vec![Level::Info, Level::Error, Level::Off]
    }
}

impl FromStr for Level {
    type Err = ConfigError;

    fn from_str(value: &str) -> Result<Self, Self::Err> {
        match level_table().parse(value)? {
            ParsedVariant::Named(index) => Ok(Level::variants()[index].clone()),
            ParsedVariant::Fallback(other) => Err(ConfigError::EnumUnknownVariant(other)),
        }
    }
}

impl fmt::Display for Level {
    fn fmt(&self, f: &mut fmt::Formatter<'_>) -> fmt::Result {
        f.write_str(level_table().format(self.index()))
    }
}

impl TryFrom<String> for Level {
    type Error = ConfigError;

    fn try_from(value: String) -> Result<Self, ConfigError> {
        Level::from_str(&value)
    }
}

impl TryFrom<&String> for Level {
    type Error = ConfigError;

    fn try_from(value: &String) -> Result<Self, ConfigError> {
        Level::from_str(value)
    }
}

impl TryFrom<&str> for Level {
    type Error = ConfigError;

    fn try_from(value: &str) -> Result<Self, ConfigError> {
        Level::from_str(value)
    }
}

#[test]
fn lists_every_variant() {
    assert_eq!(
        Level::variants(),
        vec![Level::Info, Level::Error, Level::Off]
    );
}

// No default casing: a name is used exactly as written
#[test]
fn parses_from_a_string() {
    assert_eq!(Level::from_str("Info").unwrap(), Level::Info);
    assert_eq!(Level::from_str("Off").unwrap(), Level::Off);
}

#[test]
fn formats_back_into_a_string() {
    assert_eq!(Level::Info.to_string(), "Info");
    assert_eq!(Level::Error.to_string(), "Error");
}

#[test]
fn round_trips() {
    for variant in Level::variants() {
        assert_eq!(Level::from_str(&variant.to_string()).unwrap(), variant);
    }
}

#[test]
fn errors_on_an_unknown_value() {
    let error = Level::from_str("nope").unwrap_err();

    assert!(matches!(error, ConfigError::EnumUnknownVariant(_)));
}

#[test]
fn converts_from_owned_and_borrowed() {
    assert_eq!(Level::try_from("Info".to_string()).unwrap(), Level::Info);
    assert_eq!(Level::try_from(&"Info".to_string()).unwrap(), Level::Info);
    assert_eq!(Level::try_from("Info").unwrap(), Level::Info);
}

#[test]
fn unknown_variant_error_names_the_input() {
    assert_eq!(
        level_table().parse("nope"),
        Err(ConfigError::EnumUnknownVariant("nope".to_string()))
    );
}

#[test]
fn resolved_table_keeps_the_enum_name_and_order() {
    let table = level_table();

    assert_eq!(table.name, "Level");
    assert_eq!(table.before_parse, None);
    assert_eq!(
        table.variants.iter().map(|v| v.value.as_str()).collect::<Vec<_>>(),
        vec!["Info", "Error", "Off"]
    );
    assert!(table.variants.iter().all(|v| !v.fallback && !v.default));
}

#[test]
fn parse_is_case_sensitive_without_before_parse() {
    assert!(level_table().parse("info").is_err());
    assert_eq!(level_table().parse("Off"), Ok(ParsedVariant::Named(2)));
}

#[test]
fn enum_rename_names_the_table() {
    let args = ConfigEnumArgs {
        rename: Some("Severity".to_string()),
        ..Default::default()
    };
    let serde_args = ContainerSerdeArgs {
        rename: Some("Ignored".to_string()),
        ..Default::default()
    };
    let table = EnumTable::resolve("Level", &args, &serde_args, &vec![unit("Info")]);
    assert_eq!(table.name, "Severity");

    let table = EnumTable::resolve(
        "Level",
        &ConfigEnumArgs::default(),
        &serde_args,
        &vec![unit("Info")],
    );
    assert_eq!(table.name, "Ignored");
}
