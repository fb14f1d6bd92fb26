//! Detects disagreeing declarations of the required Ruby version in one directory.

pub mod cli;
pub mod grammar;
pub mod pairs;
pub mod ruby;
pub mod version;
