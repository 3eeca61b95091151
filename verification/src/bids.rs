//! The layout of a BIDS dataset: which directories are subjects and
//! sessions, which files are echo images and their metadata, and whether a
//! directory tree has what a run needs.
//!
//! The functions here work on what was read from the file system, handed in
//! as plain values. Reading is the caller's part.

pub mod images;
pub mod laws;
pub mod messages;
pub mod metadata;
pub mod scan;
pub mod structure;
pub mod validation;
