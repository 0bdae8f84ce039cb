//! Extraction with a model that recognizes entities and relationships in a segment and
//! answers in JSON.

use vstd::prelude::*;

use crate::backend::CompletionOptions;
use crate::chunking::Segment;
use crate::extractor::simple;
use crate::json::{Json, JsonV};
use crate::parser::{
    create_entities_from_parsed, create_triples_from_parsed, extract_json_from_response,
    parse_entities_and_triples, EntityInfo,
};
use crate::table::{Dup, Table};
use crate::types::graph::{EntityV, GraphV, KnowledgeGraph, Metadata};
use crate::types::response::{
    ExtractionResponse, ParsedResult, ParsedResultV, RelTuple, RelTupleV, ResponseV,
};
use crate::types::spec::{ConfigV, ExtractionConfig};
use crate::{json, merger, parser, seqs, table, text};

verus! {

broadcast use {crate::seqs::group_views, crate::json::group_json};

/// Asks for the entities and the relationships of a text.
pub const TEMPLATE: &'static str = r#"Perform Named Entity Recognition (NER) and extract knowledge graph triplets from the text according to the provided schema. NER identifies named entities of given entity types, and triple extraction identifies relationships between entities using specified predicates.

**Schema Definition:**
Entity Types: {entity_types}
Relationship Types: {predicates}
Attribute Types: {attributes}

**Instructions:**
1. Extract entities with their types and attributes (if applicable)
2. Extract relationships between entities using the specified relationship types
3. Include entity attributes when relevant from the attribute types list

**Text:**
{text}
"#;

/// The question that asks for the entities and the relationships of a text.
pub open spec fn question(c: ConfigV, text: Seq<char>) -> Seq<char> {
    let s = c.spec.schema;
    let a = text::replaced(TEMPLATE@, "{entity_types}"@, text::joined(s.nodes, ", "@));
    let b = text::replaced(a, "{predicates}"@, text::joined(s.relations, ", "@));
    let d = text::replaced(
        b,
        "{attributes}"@,
        simple::listed(s.attributes, "name, type, description"@),
    );
    text::replaced(d, "{text}"@, text)
}

/// What an answer says of entities: nothing where there is no JSON in it.
pub open spec fn entities_in(j: Option<JsonV>) -> Seq<(Seq<char>, EntityV)> {
    match j {
        Some(v) => parser::all_settled(parser::findings(v).entities),
        None => seq![],
    }
}

/// What an answer says of relationships: nothing where there is no JSON in it.
pub open spec fn relationships_in(j: Option<JsonV>) -> Seq<RelTupleV> {
    match j {
        Some(v) => parser::findings(v).relationships,
        None => seq![],
    }
}

/// What was read of an answer, where `j` is the JSON in it.
pub open spec fn segment_read(response: Seq<char>, j: Option<JsonV>) -> ParsedResultV {
    ParsedResultV {
        raw_response: response,
        entities_and_triples: seq![],
        entities: entities_in(j),
        relationships: relationships_in(j),
        triples: parser::tied(relationships_in(j), entities_in(j)),
        metadata: match j {
            Some(v) => table::put(seq![], "raw_json"@, v),
            None => seq![],
        },
    }
}

/// What was extracted of segments: `parsed` is what was read of the answers, and `gs`
/// the graph of each.
pub open spec fn response_of(
    c: ConfigV,
    parsed: Seq<ParsedResultV>,
    gs: Seq<GraphV>,
) -> ResponseV {
    ResponseV {
        parsed_results: parsed,
        config: Some(c),
        ..crate::types::response::plain_response(merger::all_merged(gs))
    }
}

/// Extraction with a model that recognizes entities and relationships.
pub struct TriplexExtractor {
    pub config: ExtractionConfig,
    pub quiet: bool,
}

impl View for TriplexExtractor {
    type V = ConfigV;

    open spec fn view(&self) -> ConfigV {
        self.config@
    }
}

impl TriplexExtractor {
    /// The configuration that is used where none is given.
    pub fn default_config() -> (r: ExtractionConfig)
        ensures
            r@ == crate::types::spec::plain_config("sciphi/triplex:latest"@, 3000),
    {
        ExtractionConfig::plain("sciphi/triplex:latest", 3000)
    }

    /// An extractor with the configuration that is used where none is given.
    pub fn new() -> (r: TriplexExtractor)
        ensures
            r@ == crate::types::spec::plain_config("sciphi/triplex:latest"@, 3000),
            !r.quiet,
    {
        TriplexExtractor { config: TriplexExtractor::default_config(), quiet: false }
    }

    /// An extractor with a configuration.
    pub fn with_config(config: ExtractionConfig) -> (r: TriplexExtractor)
        ensures
            r@ == config@,
            !r.quiet,
    {
        TriplexExtractor { config, quiet: false }
    }

    /// The configuration.
    pub fn config(&self) -> (r: &ExtractionConfig)
        ensures
            r@ == self@,
    {
        &self.config
    }

    /// What is asked of a model beside the question.
    pub fn options(&self) -> (r: CompletionOptions)
        ensures
            r.model@ == self@.model_name,
            r.temperature_percent == 0,
            r.max_tokens == 4000,
    {
        CompletionOptions::of(self.config.model_name.as_str(), 0, 4000)
    }

    /// The segments of a text: the whole text where it is not longer than a segment, and
    /// otherwise its segments but for short ones.
    pub fn segments(&self, text: &str) -> (r: Option<Vec<Segment>>)
        requires
            simple::can_be_cut(self@, text@),
        ensures
            match r {
                Some(v) => simple::chunks(self@, text@) == Some(seqs::views(v@)),
                None => simple::chunks(self@, text@) is None,
            },
    {
        simple::chunk_text(&self.config, text)
    }

    /// The question that asks for the entities and the relationships of a text.
    pub fn build_prompt(&self, text: &str) -> (r: String)
        ensures
            r@ == question(self@, text@),
    {
        proof {
            reveal_strlit("{entity_types}");
            reveal_strlit("{predicates}");
            reveal_strlit("{attributes}");
            reveal_strlit("{text}");
        }
        let nodes = text::join(self.config.entity_types_list(), ", ");
        let relations = text::join(self.config.predicates_list(), ", ");
        let attributes = simple::list_or(
            self.config.attributes_list(),
            "name, type, description",
        );
        let a = text::replace(TEMPLATE, "{entity_types}", nodes.as_str());
        let b = text::replace(a.as_str(), "{predicates}", relations.as_str());
        let d = text::replace(b.as_str(), "{attributes}", attributes.as_str());
        text::replace(d.as_str(), "{text}", text)
    }

    /// What was read of an answer, where `j` is the JSON in it, and the graph of it.
    pub fn read_segment(&self, response: &str, j: Option<Json>) -> (r: (
        ParsedResult,
        KnowledgeGraph,
    ))
        ensures
            (r.0)@ == segment_read(response@, seqs::opt_view(j)),
            (r.1)@ == simple::graph_of((r.0)@.entities, (r.0)@.triples),
    {
        let (infos, relationships) = match &j {
            Some(v) => parse_entities_and_triples(v),
            None => {
                let none: Vec<RelTuple> = Vec::new();
                let infos: Table<EntityInfo> = Table::new();
                assert(crate::types::response::rel_views(none@) =~= seq![]);
                assert(parser::all_settled(infos@) =~= seq![]);
                (infos, none)
            },
        };
        let entities = create_entities_from_parsed(&infos);
        let triples = create_triples_from_parsed(&relationships, &entities);
        let kg = simple::graph_of_records(&entities, &triples);
        let mut metadata: Metadata = Table::new();
        if let Some(v) = &j {
            metadata.insert("raw_json".to_owned(), v.dup());
        }
        let p = ParsedResult {
            raw_response: response.to_owned(),
            entities_and_triples: Vec::new(),
            entities,
            relationships,
            triples,
            metadata,
        };
        assert(p@.entities_and_triples =~= seq![]);
        (p, kg)
    }

    /// What comes of the question about a segment: nothing where the model failed.
    pub fn extract_segment(&self, reply: Option<&str>) -> (r: Option<(
        ParsedResult,
        KnowledgeGraph,
    )>)
        ensures
            match reply {
                Some(t) => r is Some && (r->0).0@ == segment_read(
                    t@,
                    json::json_in_response(t@),
                ) && (r->0).1@ == simple::graph_of((r->0).0@.entities, (r->0).0@.triples),
                None => r is None,
            },
    {
        match reply {
            Some(t) => {
                let j = extract_json_from_response(t);
                Some(self.read_segment(t, j))
            },
            None => None,
        }
    }

    /// What was extracted of segments: `parsed` is what was read of the answers, and
    /// `graphs` the graph of each.
    pub fn respond(&self, parsed: Vec<ParsedResult>, graphs: Vec<KnowledgeGraph>) -> (r:
        ExtractionResponse)
        ensures
            r@ == response_of(self@, seqs::views(parsed@), seqs::views(graphs@)),
    {
        let mut r = ExtractionResponse::new(merger::merge_all(graphs));
        r.parsed_results = parsed;
        r.config = Some(self.config.dup());
        r
    }
}

} // verus!
