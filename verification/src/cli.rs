//! The command-line surface: the typed command and its parser.

pub mod commands;
pub mod parser;
