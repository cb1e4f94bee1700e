//! Configuration errors, sources, validation and enum settings.

pub mod error;
pub mod merger;

pub use error::{ConfigError, DefaultValueResult, HandlerError, ParseEnvResult};
pub use merger::{MergeError, MergeResult};
pub mod path;
pub mod validator;

pub use path::{Path, PathSegment};
pub use validator::{ValidateError, ValidatorError};
pub mod source;

pub use source::{Source, SourceAction};
pub mod enums;

pub use enums::{ConfigEnum, EnumTable, EnumVariant, Meta, ParsedVariant};
pub mod cacher;

pub use cacher::{Cacher, MemoryCache};
pub mod formats;

pub use formats::{JsonFormat, PklFormat, RonFormat, TomlFormat, YamlFormat};
pub mod parser;
pub mod settings;

pub use parser::ParseError;
pub use settings::{RegexSetting, VersionSetting};
pub mod partial;

pub use partial::PartialConfig;
pub mod extender;

pub use extender::ExtendsFrom;
pub mod loader;
