//! Core of `pac`, a package manager for editor plugins: the data model of a
//! tracked package, the manifest codec, the reconciler that merges a request
//! against recorded state, and the decisions of the concurrent installer.

pub mod codec;
pub mod error;
pub mod executor;
pub mod laws;
pub mod manifest;
pub mod package;
pub mod reconcile;

pub use error::Error;
pub use package::{GitReference, Package, PackageV, RefKind};
