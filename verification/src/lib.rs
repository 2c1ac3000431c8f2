//! Tiered inference of JSON-Schema documents from in-memory JSON values.

pub mod config;
pub mod error;
pub mod output;
pub mod schema;

pub use error::SchemaError;
pub use schema::{generate_schema, SchemaOutputTier};
