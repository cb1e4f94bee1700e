//! The decisions that the derive macros take from the attributes they read.

pub mod args;
pub mod config_enum;
pub mod field;
pub mod utils;
pub mod variant;

pub use args::{ContainerSerdeArgs, FieldSerdeArgs, SerdeArgs, SerdeMeta, TaggedFormat};
pub use config_enum::{ConfigEnumArgs, Variant, VariantArgs};
pub use field::{Field, FieldArgs, SerdeOption};
