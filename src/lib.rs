//! HTTP API fuzzing driven by an API description: schema-driven value
//! synthesis, request assembly, response validation and the fuzz loop's decisions.

pub mod bytes;
pub mod fuzz;
pub mod json;
pub mod payload;
pub mod request;
pub mod validate;
pub mod schema;
