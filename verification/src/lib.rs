//! Builds and checks a manifest of a directory tree.
//!
//! The manifest has one row per file: its path relative to the root of the
//! tree, its size, its SHA-256 digest and its CRC-32 checksum. Made from a
//! known-good install, it tells later whether an install is still complete
//! and unchanged.
//!
//! The library reads and writes no file. [`create`] and [`verify`] hold the
//! two engines, which decide what is to be read and make rows and findings
//! of what was read; the caller does the reading and the writing, and
//! prints what the sinks of [`output`] render. [`guarantees`] proves what
//! whole runs of the engines achieve.

pub mod create;
pub mod digest;
pub mod guarantees;
pub mod index;
pub mod output;
pub mod path;
pub mod report;
pub mod status;
pub mod text;
pub mod verify;
