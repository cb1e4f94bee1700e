//! Layered configuration helpers: source detection, merge strategies,
//! environment variable parsing, validation errors and enum settings.

pub mod text;
pub mod helpers;
pub mod format;
pub mod config;
pub mod merge;
pub mod env;
pub mod internal;
pub mod derive;
