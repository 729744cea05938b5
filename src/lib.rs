//! Structural model of Java sources, the index projection of that model,
//! and the query layer on top of it.

pub mod text;
pub mod types;
pub mod syntax;
pub mod java;
pub mod files;
pub mod ordered_map;
pub mod properties;
pub mod maven;
pub mod graph;
pub mod visualization;
pub mod search;
pub mod index;
pub mod query;
pub mod llm;
