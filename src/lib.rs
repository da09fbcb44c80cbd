//! Compiles graph mutations (nodes, relations and unique constraints) into the
//! atomic write operations of two storage dialects: a distributed transactional
//! key-value store and an embedded relational engine.
//!
//! Beside the compiler stand the small registries that schema handling reads:
//! subgraph definitions, field definitions and directive declarations.

pub mod attrs;
pub mod auth;
pub mod change;
pub mod definitions;
pub mod directive;
pub mod dynamo;
pub mod expr;
pub mod field;
pub mod ids;
pub mod laws;
pub mod local;
pub mod names;
pub mod pagination;
pub mod row;
pub mod sql;
