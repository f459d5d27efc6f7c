//! Discovery and interactive cleanup of dependency-cache directories.
//!
//! The crate holds the pure core of the tool: path classification (which
//! directories are sensitive, nested inside another match, or excluded),
//! the discovered-entry model, result ordering, humanized age formatting,
//! and the interactive session state machine with its reclaimed-byte
//! accounting. Filesystem traversal, metadata probing, deletion dispatch
//! and terminal rendering live outside, feeding this core plain values.

pub mod age;
pub mod classify;
pub mod config;
pub mod entry;
pub mod session;
pub mod sort;
pub mod text;
