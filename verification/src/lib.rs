//! Lynx Engine: the verified core of the Lynx installer builder.
pub mod builder;
pub mod bundle;
pub mod config;
pub mod error;
pub mod extract;
pub mod host;
pub mod payload;
pub mod prerequisites;
pub mod progress;
pub mod runner;
pub mod schema;
pub mod shell;
pub mod text;
pub mod toml_tree;
