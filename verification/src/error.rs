use vstd::prelude::*;

verus! {

/// Errors of the install engine. Per-package failures are folded into the
/// purge decision instead of being raised; these variants are the fatal or
/// reportable outcomes.
#[derive(Debug, PartialEq)]
pub enum Error {
    /// A manifest entry is missing a required field, or a field has the
    /// wrong shape.
    Format,
    /// The manifest file exists but could not be loaded as a whole; carries
    /// a diagnostic for the user.
    PaconfigFile(String),
    /// The package's install path already exists as a directory; treated as
    /// success-with-note, never as a purge reason. Carries the path.
    PluginInstalled(String),
    /// A post-install build command exited non-zero; carries its captured
    /// standard error text.
    Build(String),
    /// The run was configured without a single worker; rejected before any
    /// work starts.
    Config(String),
}

} // verus!
