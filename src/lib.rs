//! Builds SPARQL queries that look people up on a knowledge-graph endpoint,
//! with untrusted names escaped, and reads the endpoint's JSON answers into
//! typed records.

pub mod binding;
pub mod escape;
pub mod query;
pub mod records;
