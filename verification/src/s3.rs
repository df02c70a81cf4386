//! Types and rendering for what the storage service reports.

pub mod client;
