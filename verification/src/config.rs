//! Resolving connection settings from layered sources.

pub mod app_config;
