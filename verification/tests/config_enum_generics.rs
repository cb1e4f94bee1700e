use schematic::config::{ConfigEnum, ConfigError, EnumTable, ParsedVariant};
use schematic::derive::{ConfigEnumArgs, ContainerSerdeArgs, Variant, VariantArgs};
use std::fmt;
use std::str::FromStr;

fn unit(name: &str) -> Variant {
    Variant {
        name: name.to_string(),
        ..Default::default()
    }
}

// A generic `ConfigEnum` only makes sense with a fallback, since unit variants carry no
// data; `Display` writes the fallback through its own `Display`.
#[derive(Clone, Debug, PartialEq)]
enum Value<T>
where
    T: Clone + Default + fmt::Display + for<'a> TryFrom<&'a str>,
{
    Known,
    Other,
    Custom(T),
}

fn value_table() -> EnumTable {
    let args = ConfigEnumArgs {
        rename_all: Some("kebab-case".to_string()),
        ..Default::default()
    };
    let custom = Variant {
        name: "Custom".to_string(),
        args: VariantArgs {
            fallback: true,
            ..Default::default()
        },
        ..Default::default()
    };
    EnumTable::resolve(
        "Value",
        &args,
        &ContainerSerdeArgs::default(),
        &vec![unit("Known"), unit("Other"), custom],
    )
}

impl<T> ConfigEnum for Value<T>
where
    T: Clone + Default + fmt::Display + for<'a> TryFrom<&'a str>,
{
    fn variants() -> Vec<Self> {
        vec![Value::Known, Value::Other, Value::Custom(T::default())]
    }
}

impl<T> FromStr for Value<T>
where
    T: Clone + Default + fmt::Display + for<'a> TryFrom<&'a str>,
{
    type Err = ConfigError;

    fn from_str(value: &str) -> Result<Self, Self::Err> {
        match value_table().parse(value)? {
            ParsedVariant::Named(0) => Ok(Value::Known),
            ParsedVariant::Named(_) => Ok(Value::Other),
            ParsedVariant::Fallback(inner) => {
                let converted = T::try_from(inner.as_str()).ok();
                match converted {
                    Some(custom) => Ok(Value::Custom(custom)),
                    None => Err(ConfigError::EnumInvalidFallback(inner)),
                }
            },
        }
    }
}

impl<T> fmt::Display for Value<T>
where
    T: Clone + Default + fmt::Display + for<'a> TryFrom<&'a str>,
{
    fn fmt(&self, f: &mut fmt::Formatter<'_>) -> fmt::Result {
        match self {
            Value::Known => f.write_str(value_table().format(0)),
            Value::Other => f.write_str(value_table().format(1)),
            Value::Custom(inner) => inner.fmt(f),
        }
    }
}

#[test]
fn parses_named_variants() {
    assert_eq!(Value::<String>::from_str("known").unwrap(), Value::Known);
    assert_eq!(Value::<String>::from_str("other").unwrap(), Value::Other);
}

#[test]
fn parses_through_a_generic_fallback() {
    assert_eq!(
        Value::<String>::from_str("anything").unwrap(),
        Value::Custom("anything".into())
    );
}

#[test]
fn formats_a_generic_fallback() {
    assert_eq!(Value::<String>::Custom("abc".into()).to_string(), "abc");
    assert_eq!(Value::<String>::Known.to_string(), "known");
}

#[test]
fn lists_variants() {
    assert_eq!(
        Value::<String>::variants(),
        vec![Value::Known, Value::Other, Value::Custom(String::new())]
    );
}
