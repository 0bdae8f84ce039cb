//! What comes out of an extraction.

use vstd::prelude::*;

use crate::table::Table;
use crate::types::graph::{
    Entity, EntityV, GraphV, KnowledgeGraph, Metadata, MetadataV, Triple, TripleV,
};
use crate::types::spec::{ConfigV, ExtractionConfig};
use crate::seqs;

verus! {

/// The ids of the ends of a relationship and, between them, what it is called.
pub type RelTuple = (String, String, String);

/// What a [`RelTuple`] stands for.
pub type RelTupleV = (Seq<char>, Seq<char>, Seq<char>);

/// What a [`RelTuple`] stands for.
pub open spec fn rel_view(r: RelTuple) -> RelTupleV {
    (r.0@, r.1@, r.2@)
}

/// What each of the relationships stands for.
pub open spec fn rel_views(s: Seq<RelTuple>) -> Seq<RelTupleV> {
    Seq::new(s.len(), |i: int| rel_view(s[i]))
}

/// What a [`ParsedResult`] stands for.
pub struct ParsedResultV {
    pub raw_response: Seq<char>,
    pub entities_and_triples: Seq<Seq<char>>,
    pub entities: Seq<(Seq<char>, EntityV)>,
    pub relationships: Seq<RelTupleV>,
    pub triples: Seq<TripleV>,
    pub metadata: MetadataV,
}

/// What was read out of the response of a language model.
pub struct ParsedResult {
    pub raw_response: String,
    pub entities_and_triples: Vec<String>,
    pub entities: Table<Entity>,
    pub relationships: Vec<RelTuple>,
    pub triples: Vec<Triple>,
    pub metadata: Metadata,
}

impl View for ParsedResult {
    type V = ParsedResultV;

    open spec fn view(&self) -> ParsedResultV {
        ParsedResultV {
            raw_response: self.raw_response@,
            entities_and_triples: seqs::views(self.entities_and_triples@),
            entities: self.entities@,
            relationships: rel_views(self.relationships@),
            triples: seqs::views(self.triples@),
            metadata: self.metadata@,
        }
    }
}

/// What an [`ExtractionResponse`] stands for.
pub struct ResponseV {
    pub knowledge_graph: GraphV,
    pub metadata: MetadataV,
    pub parsed_results: Seq<ParsedResultV>,
    pub config: Option<ConfigV>,
}

/// What was extracted, and how.
pub struct ExtractionResponse {
    pub knowledge_graph: KnowledgeGraph,
    pub metadata: Metadata,
    pub parsed_results: Vec<ParsedResult>,
    pub config: Option<ExtractionConfig>,
}

impl View for ExtractionResponse {
    type V = ResponseV;

    open spec fn view(&self) -> ResponseV {
        ResponseV {
            knowledge_graph: self.knowledge_graph@,
            metadata: self.metadata@,
            parsed_results: seqs::views(self.parsed_results@),
            config: seqs::opt_view(self.config),
        }
    }
}

/// A response of a graph alone.
pub open spec fn plain_response(g: GraphV) -> ResponseV {
    ResponseV { knowledge_graph: g, metadata: seq![], parsed_results: seq![], config: None }
}

impl ExtractionResponse {
    /// A response of a graph alone.
    pub fn new(knowledge_graph: KnowledgeGraph) -> (r: ExtractionResponse)
        ensures
            r@ == plain_response(knowledge_graph@),
    {
        let r = ExtractionResponse {
            knowledge_graph,
            metadata: Table::new(),
            parsed_results: Vec::new(),
            config: None,
        };
        assert(r@.parsed_results =~= seq![]);
        assert(r@.metadata =~= seq![]);
        r
    }
}

} // verus!
