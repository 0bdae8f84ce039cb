//! Values, what answers are read as, and what graphs are written as.

use kg_extract::fraction::Fraction;
use kg_extract::json::{extract_json_from_response, value_to_string, Json};
use kg_extract::ladybug_export::{sanitize_identifier, to_ladybug_import_json};
use kg_extract::parser::{
    create_entities_from_parsed, create_triples_from_parsed, parse_entities_and_triples,
    parse_llm_response, read_result,
};
use kg_extract::table::Dup;
use kg_extract::types::{
    Entity, EntityType, KnowledgeGraph, Predicate, PredicateType, Triple,
};

fn object(members: Vec<(&str, Json)>) -> Json {
    Json::Object(members.into_iter().map(|(k, v)| (k.to_string(), v)).collect())
}

#[test]
fn extract_json_prefers_json_fence_over_trailing_bare_json() {
    let text = "```json\n{\"a\": 1}\n```\n{\"b\": 2}";
    let v = extract_json_from_response(text).expect("json fence must parse");
    assert_eq!(v, object(vec![("a", Json::Uint(1))]));
}

#[test]
fn extract_json_falls_back_to_plain_fence_without_json_tag() {
    let text = "```\n{\"x\": 5}\n```";
    let v = extract_json_from_response(text).expect("plain fence must parse");
    assert_eq!(v, object(vec![("x", Json::Uint(5))]));
}

#[test]
fn extract_json_falls_back_to_whole_string_without_any_fence() {
    let v = extract_json_from_response("{\"k\": \"v\"}").expect("bare string must parse");
    assert_eq!(v, object(vec![("k", Json::Text("v".into()))]));
}

#[test]
fn extract_json_malformed_in_fence_does_not_panic_and_yields_none() {
    let text = "```json\n{not valid}\n```";
    assert!(extract_json_from_response(text).is_none());
}

#[test]
fn extract_json_returns_none_for_garbage() {
    assert!(extract_json_from_response("the model rambled, no JSON").is_none());
    assert!(extract_json_from_response("").is_none());
}

#[test]
fn exports_generic_ladybug_import_document() {
    let mut openai = Entity::new("openai", "OpenAI", EntityType::Organization);
    openai.description = Some("AI lab".into());
    let gpt4 = Entity::new("gpt4", "GPT-4", EntityType::Technology);

    let mut kg = KnowledgeGraph::new();
    kg.add_entity(openai.dup());
    kg.add_entity(gpt4.dup());
    kg.add_triple(Triple::new(openai, Predicate::new(PredicateType::DevelopedBy), gpt4));

    let doc = to_ladybug_import_json(&kg);
    assert_eq!(doc.text_at("format_version").as_deref(), Some("graphdb-ladybug.export.v1"));
    let schema = doc.array_at("schema").unwrap();
    assert!(schema[0].as_text().unwrap().contains("CREATE NODE TABLE KgEntity"));
    assert!(schema
        .iter()
        .any(|s| s.as_text().unwrap().contains("CREATE REL TABLE DEVELOPED_BY")));
    assert_eq!(doc.array_at("nodes").unwrap().len(), 2);
    let r = &doc.array_at("relationships").unwrap()[0];
    assert_eq!(r.text_at("_type").as_deref(), Some("DEVELOPED_BY"));
    assert_eq!(r.text_at("_from_table").as_deref(), Some("KgEntity"));
    assert_eq!(r.text_at("predicate").as_deref(), Some("DEVELOPED_BY"));
}

#[test]
fn parse_fenced_json() {
    let resp = "```json\n{\"entities\": {\"e1\": {\"label\": \"GPT-4\", \"type\": \"technology\"}}, \"relationships\": [[\"e1\", \"uses\", \"e1\"]]}\n```";
    let pr = parse_llm_response(resp);
    let info = object(vec![("entities", pr.metadata.get("entities_info").unwrap().copied())]);
    let (info, _) = parse_entities_and_triples(&info);
    let entities = create_entities_from_parsed(&info);
    assert_eq!(entities.get("e1").unwrap().entity_type, EntityType::Technology);
    let triples = create_triples_from_parsed(&pr.relationships, &entities);
    assert_eq!(triples.len(), 1);
    assert_eq!(triples[0].predicate.predicate_type, PredicateType::Uses);
}

#[test]
fn parse_llm_response_populates_entities() {
    let resp = r#"```json
        {"entities": {"e1": {"label": "GPT-4", "type": "technology"}}, "relationships": []}
        ```"#;
    let pr = parse_llm_response(resp);
    assert!(!pr.entities.is_empty(), "entities must be populated");
    assert_eq!(pr.entities.get("e1").unwrap().label, "GPT-4");
    assert_eq!(pr.entities.get("e1").unwrap().entity_type, EntityType::Technology);
}

#[test]
fn parse_legacy_entities_and_triples() {
    let json = extract_json_from_response(
        r#"{
            "entities_and_triples": [
                "[1], OpenAI",
                "[2], GPT-4",
                "[1] developed_by [2]"
            ]
        }"#,
    )
    .unwrap();
    let (entities, rels) = parse_entities_and_triples(&json);
    assert_eq!(entities.len(), 2);
    assert_eq!(entities.get("[1]").unwrap().label, "OpenAI");
    assert_eq!(
        rels,
        vec![("[1]".to_string(), "developed_by".to_string(), "[2]".to_string())]
    );
    let built = create_entities_from_parsed(&entities);
    let triples = create_triples_from_parsed(&rels, &built);
    assert_eq!(triples.len(), 1);
    assert_eq!(triples[0].predicate.predicate_type, PredicateType::DevelopedBy);
}

#[test]
fn numbers_are_told_apart() {
    let v = extract_json_from_response("[7, -7, 2.5, true, null, \"x\"]").unwrap();
    assert_eq!(
        v,
        Json::Array(vec![
            Json::Uint(7),
            Json::Neg(-7),
            Json::Decimal("2.5".into()),
            Json::Bool(true),
            Json::Null,
            Json::Text("x".into()),
        ])
    );
}

#[test]
fn values_are_written_as_text() {
    let v = extract_json_from_response(r#"{"a": [1, "two"], "b": null}"#).unwrap();
    assert_eq!(value_to_string(&v), r#"{"a":[1,"two"],"b":null}"#);
    assert_eq!(extract_json_from_response(&value_to_string(&v)), Some(v));
}

#[test]
fn members_are_found_by_their_keys() {
    let v = extract_json_from_response(r#"{"n": 3, "t": "x", "o": {"p": []}}"#).unwrap();
    assert_eq!(v.get("n").and_then(|n| n.as_uint()), Some(3));
    assert_eq!(v.text_at("t").as_deref(), Some("x"));
    assert_eq!(v.text_at("n"), None);
    assert_eq!(v.object_at("o").unwrap().len(), 1);
    assert_eq!(v.get("o").unwrap().array_at("p").unwrap().len(), 0);
    assert!(v.get("absent").is_none());
    assert!(v.same_as(&v.copied()));
    assert!(!v.same_as(&Json::Null));
}

#[test]
fn an_answer_without_a_value_is_kept_as_it_is() {
    let pr = read_result("no value", None);
    assert_eq!(pr.raw_response, "no value");
    assert!(pr.entities.is_empty());
    assert!(pr.relationships.is_empty());
}

#[test]
fn names_are_made_fit_for_statements() {
    assert_eq!(sanitize_identifier("works at"), "WORKS_AT");
    assert_eq!(sanitize_identifier(""), "RELATED_TO");
    assert_eq!(sanitize_identifier("3rd party"), "_3RD_PARTY");
}

#[test]
fn fractions_are_kept_within_their_bounds() {
    let f = |t: &str| Fraction::clamp(&t.chars().collect());
    assert_eq!(f("2.0"), Some(Fraction::one()));
    assert_eq!(f("-1"), Some(Fraction::zero()));
    assert_eq!(f("0.8"), Some(Fraction::eight_tenths()));
    assert_eq!(f("8e-1"), Some(Fraction::eight_tenths()));
    assert_eq!(f("much"), None);
    assert!(f("0.25").unwrap().is_less(&f("0.3").unwrap()));
    assert!(!f("0.3").unwrap().is_less(&f("0.30").unwrap()));
    assert_eq!(f("0.250").unwrap().to_text(), "0.25");
}
