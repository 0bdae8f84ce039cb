//! The data of the crate: vocabulary, graphs, specifications and responses.

pub mod graph;
pub mod response;
pub mod spec;
pub mod vocab;

pub use graph::{Entity, KnowledgeGraph, Predicate, Triple};
pub use response::{ExtractionResponse, ParsedResult, RelTuple};
pub use spec::{CorefMode, ExtractionConfig, ExtractionSpec, MergeStrategy, Schema, SchemaMode};
pub use vocab::{EntityType, PredicateType};
