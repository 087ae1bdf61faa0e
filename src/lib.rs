//! Maps long URLs to short generated aliases, resolves the aliases back, and sweeps
//! links older than the retention window.

pub mod cleanup;
pub mod config;
pub mod database;
pub mod errors;
pub mod name_generator;
pub mod shorten;
