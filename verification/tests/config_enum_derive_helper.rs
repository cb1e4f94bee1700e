use schematic::config::{ConfigError, EnumTable, ParsedVariant};
use schematic::derive::{ConfigEnumArgs, ContainerSerdeArgs, Variant};
use std::fmt;
use std::str::FromStr;

fn unit(name: &str) -> Variant {
    Variant {
        name: name.to_string(),
        ..Default::default()
    }
}

// `derive_enum!` injects `#[serde(rename_all = "kebab-case")]`, which is read like any
// other container attribute.
#[derive(Clone, Debug, PartialEq)]
pub enum Level {
    VeryHigh,
    Low,
}

impl Default for Level {
    fn default() -> Self {
        Level::VeryHigh
    }
}

fn level_table() -> EnumTable {
    let serde_args = ContainerSerdeArgs {
        rename_all: Some("kebab-case".to_string()),
        ..Default::default()
    };
    let mut very_high = unit("VeryHigh");
    very_high.default = true;
    EnumTable::resolve(
        "Level",
        &ConfigEnumArgs::default(),
        &serde_args,
        &vec![very_high, unit("Low")],
    )
}

impl FromStr for Level {
    type Err = ConfigError;

    fn from_str(value: &str) -> Result<Self, Self::Err> {
        match level_table().parse(value)? {
            ParsedVariant::Named(0) => Ok(Level::VeryHigh),
            ParsedVariant::Named(_) => Ok(Level::Low),
            ParsedVariant::Fallback(other) => Err(ConfigError::EnumUnknownVariant(other)),
        }
    }
}

impl fmt::Display for Level {
    fn fmt(&self, f: &mut fmt::Formatter<'_>) -> fmt::Result {
        let index = match self {
            Level::VeryHigh => 0,
            Level::Low => 1,
        };
        f.write_str(level_table().format(index))
    }
}

#[test]
fn picks_up_the_injected_rename_all() {
    assert_eq!(Level::from_str("very-high").unwrap(), Level::VeryHigh);
    assert_eq!(Level::VeryHigh.to_string(), "very-high");
}

#[test]
fn injected_default_matches_the_table() {
    let table = level_table();

    assert!(table.variants[0].default);
    assert_eq!(Level::default().to_string(), "very-high");
    assert_eq!(Level::Low.to_string(), "low");
}
