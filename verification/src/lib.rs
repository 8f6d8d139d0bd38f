//! Verified core of a cryptocurrency market dashboard server: configuration
//! parsing, upstream request planning, a response cache with expiry, JSON
//! documents, and the decisions behind each HTTP endpoint.
pub mod text;
pub mod config;
pub mod json;
pub mod cache;
pub mod fetch;
pub mod routes;
pub mod bootstrap;
pub mod clock;
pub mod snapshot;
