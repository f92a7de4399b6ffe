//! Schema-driven marshalling of HTTP API endpoints.

pub mod api;
pub mod codec;
pub mod decode;
pub mod encode;
pub mod error;
pub mod escape;
pub mod expand;
pub mod grammar;
pub mod json;
pub mod lifetime;
pub mod marker;
pub mod message;
pub mod metadata;
pub mod path;
pub mod query;
pub mod schema;
pub mod syntax;
pub mod text;
pub mod types;
pub mod validate;
pub mod wire;
