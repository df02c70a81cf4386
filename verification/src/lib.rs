//! A small object-storage client library.
//!
//! The library holds the logic of a command-line client for an S3-compatible
//! store: parsing the command line into a typed command, composing object keys
//! for single-file and directory-tree uploads, filtering object listings by a
//! key prefix, computing local paths for downloads, resolving configuration
//! from layered sources, and rendering listings and sizes for display.
//! Network and filesystem work is left to the program around the library.

pub mod cli;
pub mod conf;
pub mod config;
pub mod object;
pub mod s3;
pub mod text;
