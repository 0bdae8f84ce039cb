//! The engines: what each of them asks a language model, and the graph that it
//! makes of the answers. They differ in how the model is driven, and in how far a
//! schema binds it.

use vstd::prelude::*;

use crate::text;

pub mod agentic;
pub mod schema_json;
pub mod simple;
pub mod toolcall;
pub mod triplex;
pub mod youtu;

pub use agentic::AgenticExtractor;
pub use schema_json::SchemaJsonExtractor;
pub use simple::SimpleExtractor;
pub use toolcall::ToolCallExtractor;
pub use triplex::TriplexExtractor;
pub use youtu::{YoutuExtractor, YoutuMode};

verus! {

/// What is said of a text of `n` characters where `least` are asked for.
pub open spec fn size_warning(n: nat, least: nat) -> Seq<char> {
    "Warning: input too small ("@ + text::decimal(n) + " < "@ + text::decimal(least) + " chars)"@
}

/// Whether there is a text to work on. A text that is too small is worked on, but
/// something is said of it.
pub fn validate_input(text: &str, min_segment_size: usize) -> (r: Result<Option<String>, String>)
    ensures
        match r {
            Ok(w) => text::trimmed(text@).len() > 0 && match w {
                Some(s) => text@.len() < min_segment_size && s@ == size_warning(
                    text@.len(),
                    min_segment_size as nat,
                ),
                None => text@.len() >= min_segment_size,
            },
            Err(e) => text::trimmed(text@).len() == 0 && e@ == "No input text provided"@,
        },
{
    if text::trim(text).as_str().is_empty() {
        return Err("No input text provided".to_owned());
    }
    let n: usize = text.unicode_len();
    if n < min_segment_size {
        let mut w = text::concat2(
            "Warning: input too small (",
            text::to_decimal(n as u64).as_str(),
        );
        w.append(" < ");
        w.append(text::to_decimal(min_segment_size as u64).as_str());
        w.append(" chars)");
        return Ok(Some(w));
    }
    Ok(None)
}

} // verus!
