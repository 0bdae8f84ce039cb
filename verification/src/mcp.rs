//! A store of graphs that is driven from outside, one change at a time.
//!
//! A graph lies in a file under the output directory, and each operation works on
//! the graph as it was read: it changes it, or says why it does not. Where a file
//! lies, what a change does and what is answered is settled here; reading and
//! writing the files is left to the caller.

pub mod path;
pub mod policy;
pub mod query;
pub mod source;
pub mod store;

pub use policy::{SchemaKind, SchemaPolicy};
pub use source::{CitedSource, SourceCitation};
pub use store::KgStore;
