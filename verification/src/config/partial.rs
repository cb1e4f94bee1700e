//! Partial configurations, as the validation of nested settings sees them.

use crate::config::path::Path;
use crate::config::validator::ValidateError;
use vstd::prelude::*;

verus! {

/// A partial configuration of the base configuration, with all settings optional, that
/// validates itself at a path.
pub trait PartialConfig: Sized {
    /// The context handed to validators.
    type Context;

    /// Recursively validate the configuration at `path`, returning every error found. A
    /// configuration without validation rules passes.
    fn validate_with_path(&self, context: &Self::Context, finalizing: bool, path: Path) -> (r:
        Result<(), Vec<ValidateError>>)
        default_ensures
            r == Ok::<(), Vec<ValidateError>>(()),
    {
        Ok(())
    }
}

} // verus!
