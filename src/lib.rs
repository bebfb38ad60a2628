//! A configuration library: configuration documents read from and written to
//! JSON, TOML or YAML text, checked against a declared layout, and refined by
//! sparse overlays whose fields are applied only where the caller allows it.

pub mod config;
pub mod document;
pub mod error;
pub mod format;
mod foreign;

pub use config::{Configuration, ConfigurationBuilder, ConfigurationVariant};
pub use document::{Document, Field, Schema, Sparse};
pub use error::ConfigError;
