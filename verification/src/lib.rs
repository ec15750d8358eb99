//! Safe, verified coordination layer for a package-database engine whose
//! native core is process-global and non-reentrant.
//!
//! The modules here hold the logic that can be checked: the one-shot
//! configuration guard, the macro (configuration variable) context with its
//! precedence rule, the query model with its match iterator, and the
//! materializer that copies a transient record into an owned [`Package`].
//! The native engine itself (on-disk database, configuration files, cursors)
//! sits behind this crate's callers, which feed it plain values.

pub mod config;
pub mod db;
pub mod error;
pub mod macro_context;
pub mod package;

pub use crate::db::Index;
pub use crate::error::Error;
pub use crate::macro_context::MacroContext;
pub use crate::package::Package;

