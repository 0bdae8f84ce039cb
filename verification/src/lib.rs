//! Knowledge-graph extraction.

pub mod backend;
pub mod chunking;
pub mod citation;
pub mod cli;
pub mod community;
pub mod coref;
pub mod extractor;
pub mod fraction;
pub mod graph_build;
pub mod graph_output;
pub mod json;
pub mod ladybug_export;
pub mod mcp;
pub mod merger;
pub mod names;
pub mod number;
pub mod parser;
pub mod pattern;
pub mod range;
pub mod seqs;
pub mod table;
pub mod text;
pub mod types;
