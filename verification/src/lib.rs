//! Planning core of a streaming SQL engine: schemas and the `window`
//! function, the rewriting of joins, the split of an aggregate into its
//! partial and its final phase, the codec for placeholder plan nodes, and the
//! walk that turns a rewritten logical plan into a graph of streaming
//! operators.

pub mod builder;
pub mod builder_laws;
pub mod codec;
pub mod error;
pub mod expr;
pub mod graph;
pub mod join;
pub mod name_laws;
pub mod physical;
pub mod plan;
pub mod reader;
pub mod registry;
pub mod rest;
pub mod run;
pub mod schema;
pub mod schema_text;
pub mod text;
pub mod window;
pub mod wire;
