//! Dead-dependency scanner: finds dependencies that a project's manifest
//! declares but whose names never occur in any of the project's own source
//! files.
//!
//! The crate is organised around one scan: an ecosystem adapter (the
//! [`project::Project`] trait) parses manifest text into a candidate set of
//! dependency names, an inclusion policy decides which files are searched,
//! and a scan engine aggregates per-file substring matches into the final
//! set of unused names.

pub mod file_handler;
pub mod names;
pub mod project;
pub mod text;
