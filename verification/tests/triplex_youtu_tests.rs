//! Extraction of one answer per segment, and of one answer per text.

use kg_extract::backend::mock::MockBackend;
use kg_extract::backend::Message;
use kg_extract::extractor::youtu::{apply_community_detection, project, write_question};
use kg_extract::extractor::{TriplexExtractor, YoutuExtractor, YoutuMode};
use kg_extract::graph_build::entity_id;
use kg_extract::json::{extract_json_from_response, Json};
use kg_extract::types::{EntityType, ExtractionResponse, PredicateType};

fn youtu(ex: &YoutuExtractor, reply: &str, text: &str) -> ExtractionResponse {
    let mut backend = MockBackend::single(reply);
    let answer = backend.complete(&vec![Message::user(&ex.build_prompt(text))]);
    ex.read_reply(Some(&answer))
}

#[test]
fn parses_json_segment() {
    let json = r#"```json
        {"entities": {"e1": {"label": "OpenAI", "type": "organization"},
                       "e2": {"label": "GPT-4", "type": "technology"}},
         "relationships": [["e1", "developed_by", "e2"]]}
        ```"#;
    let ex = TriplexExtractor::new();
    let mut backend = MockBackend::single(json);
    let mut parsed = Vec::new();
    let mut graphs = Vec::new();
    for s in ex.segments("OpenAI developed GPT-4.").unwrap() {
        let reply = backend.complete(&vec![Message::user(&ex.build_prompt(&s.content))]);
        if let Some((p, g)) = ex.extract_segment(Some(&reply)) {
            parsed.push(p);
            graphs.push(g);
        }
    }
    let out = ex.respond(parsed, graphs);
    let kg = &out.knowledge_graph;
    assert_eq!(kg.entities.len(), 2);
    assert_eq!(kg.triples.len(), 1);
    assert_eq!(kg.get_entity("e1").unwrap().entity_type, EntityType::Organization);
    assert_eq!(kg.triples[0].predicate.predicate_type, PredicateType::DevelopedBy);
}

#[test]
fn a_segment_without_an_answer_adds_nothing() {
    let ex = TriplexExtractor::new();
    assert!(ex.extract_segment(None).is_none());
    let (parsed, kg) = ex.read_segment("words", None);
    assert_eq!(parsed.raw_response, "words");
    assert!(kg.entities.is_empty());
    assert!(ex.build_prompt("The text.").contains("The text."));
}

#[test]
fn schema_based_extraction_with_community() {
    let json = r#"{"entities": {"OpenAI": {"type": "ORGANIZATION"},
                                  "GPT-4": {"type": "TECHNOLOGY"}},
                    "relationships": [["OpenAI", "DEVELOPED_BY", "GPT-4"]]}"#;
    let ex = YoutuExtractor::new().community_detection(true);
    let data = extract_json_from_response(json).unwrap();
    let mut kg = ex.build_graph(&data);
    let (ids, edges) = project(&kg);
    assert_eq!(ids.len(), 2);
    assert_eq!(edges.len(), 1);
    apply_community_detection(&mut kg, &vec![0, 0]);
    let out = ex.respond(Some(data), kg);
    assert_eq!(out.knowledge_graph.entities.len(), 2);
    assert_eq!(out.knowledge_graph.triples.len(), 1);
    for i in 0..2 {
        let e = out.knowledge_graph.entities.value_at(i);
        assert!(e.metadata.contains_key("community_id"));
    }
}

#[test]
fn youtu_relationship_resolves_case_insensitively() {
    let json = r#"{"entities": {"OpenAI": {"type": "ORGANIZATION"}, "GPT-4": {"type": "TECHNOLOGY"}},
                   "relationships": [["openai", "uses", "gpt-4"]]}"#;
    let out = youtu(&YoutuExtractor::new(), json, "text");
    assert_eq!(out.knowledge_graph.entities.len(), 2);
    assert_eq!(
        out.knowledge_graph.triples.len(),
        1,
        "relationship must resolve despite case mismatch"
    );
}

#[test]
fn youtu_entity_ids_are_deterministic_md5() {
    let json = r#"{"entities": {"OpenAI": {"type": "ORGANIZATION"}}, "relationships": []}"#;
    let a = youtu(&YoutuExtractor::new(), json, "text");
    let b = youtu(&YoutuExtractor::new(), json, "text");
    assert_eq!(a.knowledge_graph.entities.key_at(0), b.knowledge_graph.entities.key_at(0));
    assert!(
        a.knowledge_graph.entities.contains_key(&entity_id("OpenAI")),
        "id must follow the shared md5(name) scheme"
    );
}

#[test]
fn agent_mode_captures_new_schema() {
    let json = r#"{"entities": {"Movie X": {"type": "WORK_OF_ART"}},
                    "relationships": [],
                    "new_schema_types": {"nodes": ["Movie"], "relations": ["starring"], "attributes": []}}"#;
    let ex = YoutuExtractor::new().mode(YoutuMode::Agent);
    let out = youtu(&ex, json, "Some text about a movie.");
    assert!(out.metadata.contains_key("new_schema_types"));
    assert_eq!(out.metadata.get("mode"), Some(&Json::Text("agent".into())));
}

#[test]
fn an_unknown_type_is_a_thing() {
    let json = r#"{"entities": {"X": {"type": "gizmo"}, "Y": "plain"},
                   "entity_types": {"Y": "person"},
                   "relationships": [["X", "owned by no one", "Y"], ["X", "uses"]]}"#;
    let out = youtu(&YoutuExtractor::new(), json, "text");
    let kg = &out.knowledge_graph;
    assert_eq!(
        kg.get_entity(&entity_id("X")).unwrap().entity_type,
        EntityType::PhysicalObject
    );
    assert_eq!(kg.get_entity(&entity_id("Y")).unwrap().entity_type, EntityType::Person);
    assert_eq!(kg.triples.len(), 1);
    assert_eq!(kg.triples[0].predicate.predicate_type, PredicateType::RelatedTo);
}

#[test]
fn no_answer_is_an_empty_graph() {
    let out = YoutuExtractor::new().read_reply(None);
    assert!(out.knowledge_graph.entities.is_empty());
    assert!(out.config.is_none());
    let out = YoutuExtractor::new().read_reply(Some("no value"));
    assert!(out.knowledge_graph.entities.is_empty());
    assert!(out.config.is_some());
}

#[test]
fn questions_hold_the_schema_and_the_text() {
    let fixed = write_question(YoutuMode::NoAgent, "{SCHEMA}", "TEXT");
    assert!(fixed.contains("{SCHEMA}") && fixed.contains("TEXT"));
    assert!(fixed.contains("Use only the entity types"));
    let free = write_question(YoutuMode::Agent, "{SCHEMA}", "TEXT");
    assert!(free.contains("new_schema_types"));
}
