//! Extraction of one answer that is a JSON object.

use kg_extract::backend::mock::MockBackend;
use kg_extract::chunking::join_texts;
use kg_extract::extractor::{validate_input, SchemaJsonExtractor, ToolCallExtractor};
use kg_extract::graph_build::entity_id;
use kg_extract::graph_output::to_dict;
use kg_extract::json::{extract_json_from_response, Json};
use kg_extract::table::Dup;
use kg_extract::types::{
    CorefMode, ExtractionConfig, ExtractionResponse, ExtractionSpec, MergeStrategy, Schema,
    SchemaMode,
};

fn extract_with(
    ex: &SchemaJsonExtractor,
    backend: &mut MockBackend,
    text: &str,
    template: Option<&str>,
) -> Result<ExtractionResponse, String> {
    let messages = ex.request(text, template)?;
    let reply = backend.complete(&messages);
    Ok(ex.finish(text, Some(&reply)))
}

fn extract(ex: SchemaJsonExtractor, reply: &str, text: &str) -> ExtractionResponse {
    extract_with(&ex, &mut MockBackend::single(reply), text, None).ok().unwrap()
}

fn entities(r: &ExtractionResponse) -> usize {
    r.knowledge_graph.entities.len()
}

fn triples(r: &ExtractionResponse) -> usize {
    r.knowledge_graph.triples.len()
}

#[test]
fn schema_based_extraction() {
    let json = r#"{"entities": {"OpenAI": {"type": "ORGANIZATION"},
                                  "GPT-4": {"type": "TECHNOLOGY"}},
                    "relationships": [["GPT-4", "DEVELOPED_BY", "OpenAI"]]}"#;
    let out = extract(SchemaJsonExtractor::new(), json, "OpenAI developed GPT-4.");
    assert_eq!(entities(&out), 2);
    assert_eq!(triples(&out), 1);
    assert_eq!(out.knowledge_graph.triples[0].subject.label, "GPT-4");
    assert_eq!(out.knowledge_graph.triples[0].object.label, "OpenAI");
}

#[test]
fn open_schema_output_preserves_raw_entity_and_relation_types() {
    let json = r#"{"entities": {
        "KG-RAG": {"type": "METHOD"},
        "RAG": {"type": "FRAMEWORK"}
    }, "relationships": [["KG-RAG", "BUILDS_ON", "RAG"]]}"#;
    let out = extract(SchemaJsonExtractor::new(), json, "KG-RAG builds on RAG.");

    let doc = to_dict(&out.knowledge_graph);
    let kg_rag = doc.get("entities").unwrap().get(&entity_id("KG-RAG")).unwrap();
    assert_eq!(kg_rag.text_at("type").as_deref(), Some("METHOD"));
    assert_eq!(kg_rag.text_at("normalized_type").as_deref(), Some("PHYSICAL_OBJECT"));
    let predicate = doc.array_at("triples").unwrap()[0].get("predicate").unwrap();
    assert_eq!(predicate.text_at("type").as_deref(), Some("BUILDS_ON"));
    assert_eq!(predicate.text_at("normalized_type").as_deref(), Some("RELATED_TO"));
}

#[test]
fn object_relationships_preserve_attributes_as_triple_metadata() {
    let json = r#"{"entities": {
        "KG-RAG": {"type": "METHOD", "evidence_quote": "KG-RAG framework"},
        "SPOKE": {"type": "KNOWLEDGE_GRAPH", "attributes": {"role": "knowledge source"}}
    }, "relationships": [{
        "source": "KG-RAG",
        "type": "RETRIEVES_FROM",
        "target": "SPOKE",
        "evidence_quote": "retrieves context from SPOKE",
        "source_section": "Methods"
    }]}"#;
    let out = extract(SchemaJsonExtractor::new(), json, "KG-RAG retrieves context from SPOKE.");

    let doc = to_dict(&out.knowledge_graph);
    let triple = &doc.array_at("triples").unwrap()[0];
    assert_eq!(
        triple.get("predicate").unwrap().text_at("type").as_deref(),
        Some("RETRIEVES_FROM")
    );
    let metadata = triple.get("metadata").unwrap();
    assert_eq!(
        metadata.text_at("evidence_quote").as_deref(),
        Some("retrieves context from SPOKE")
    );
    assert_eq!(metadata.text_at("source_section").as_deref(), Some("Methods"));
    let kg_rag = doc.get("entities").unwrap().get(&entity_id("KG-RAG")).unwrap();
    assert_eq!(
        kg_rag.get("metadata").unwrap().text_at("evidence_quote").as_deref(),
        Some("KG-RAG framework")
    );
}

#[test]
fn prechunked_default_joins_chunks_into_one_call() {
    let json = r#"{"entities": {"OpenAI": {"type": "ORGANIZATION"}}, "relationships": []}"#;
    let mut backend = MockBackend::single(json);
    let ex = SchemaJsonExtractor::new();
    let chunks: Vec<String> = vec!["OpenAI is an AI lab.".into(), "It developed GPT-4.".into()];
    let out = extract_with(&ex, &mut backend, &join_texts(&chunks, "\n\n"), None).ok().unwrap();
    assert_eq!(entities(&out), 1);

    let prompts = backend.seen_prompts();
    assert_eq!(prompts.len(), 1, "single-shot: exactly one LLM call");
    assert!(
        prompts[0].contains("OpenAI is an AI lab.\n\nIt developed GPT-4."),
        "chunks must be joined into the user turn: {}",
        prompts[0]
    );
}

#[test]
fn within_response_duplicates_honor_merge_strategy() {
    let json = r#"{"entities": {
        "OpenAI": {"type": "ORGANIZATION", "attributes": {"description": "first"}},
        "openai": {"type": "ORGANIZATION", "attributes": {"description": "second"}}
    }, "relationships": []}"#;
    let desc_of =
        |r: &ExtractionResponse| r.knowledge_graph.entities.value_at(0).description.clone();

    let keep = extract(SchemaJsonExtractor::new(), json, "OpenAI");
    assert_eq!(entities(&keep), 1);
    assert_eq!(desc_of(&keep).as_deref(), Some("first"));

    let mut spec = ExtractionSpec::plain();
    spec.merge_strategy = MergeStrategy::KeepIncoming;
    let inc = extract(SchemaJsonExtractor::with_spec(spec), json, "OpenAI");
    assert_eq!(entities(&inc), 1);
    assert_eq!(
        desc_of(&inc).as_deref(),
        Some("second"),
        "merge_strategy must take effect on within-response duplicates"
    );
}

#[test]
fn template_extracts_under_fixed_mode_without_a_schema() {
    let json = r#"{"entities": {"Photosynthesis": {"type": "PROCESS"}}, "relationships": []}"#;
    let ex = SchemaJsonExtractor::new().schema_mode(SchemaMode::Fixed);
    let out = extract_with(
        &ex,
        &mut MockBackend::single(json),
        "Photosynthesis is a process.",
        Some("Extract concepts."),
    );
    assert_eq!(entities(&out.ok().unwrap()), 1);
}

#[test]
fn schema_json_tests_relationship_resolves_case_insensitively() {
    let json = r#"{"entities": {"OpenAI": {"type": "ORGANIZATION"}, "GPT-4": {"type": "TECHNOLOGY"}},
                   "relationships": [["openai", "uses", "gpt-4"]]}"#;
    let out = extract(SchemaJsonExtractor::new(), json, "text");
    assert_eq!(entities(&out), 2);
    assert_eq!(triples(&out), 1, "relationship must resolve despite case mismatch");
}

#[test]
fn schema_json_tests_entity_ids_are_deterministic_md5() {
    let json = r#"{"entities": {"OpenAI": {"type": "ORGANIZATION"}}, "relationships": []}"#;
    let a = extract(SchemaJsonExtractor::new(), json, "text");
    let b = extract(SchemaJsonExtractor::new(), json, "text");
    assert_eq!(a.knowledge_graph.entities.key_at(0), b.knowledge_graph.entities.key_at(0));
    assert!(
        a.knowledge_graph.entities.contains_key(&entity_id("OpenAI")),
        "id must follow the shared md5(name) scheme"
    );
}

#[test]
fn open_is_the_default_and_needs_no_schema() {
    let json = r#"{"entities": {"OpenAI": {"type": "ORGANIZATION"}}, "relationships": []}"#;
    let out = extract(SchemaJsonExtractor::new(), json, "text");
    assert_eq!(out.metadata.get("schema_mode"), Some(&Json::Text("open".into())));
    assert_eq!(out.metadata.get("mode"), Some(&Json::Text("schema_json".into())));
    assert_eq!(entities(&out), 1);
}

#[test]
fn evolving_mode_captures_new_schema() {
    let json = r#"{"entities": {"Movie X": {"type": "WORK_OF_ART"}},
                    "relationships": [],
                    "new_schema_types": {"nodes": ["Movie"], "relations": ["starring"], "attributes": []}}"#;
    let cfg = ExtractionConfig::from_schema(Schema::new(
        vec!["WORK_OF_ART".into()],
        vec!["RELATED_TO".into()],
        vec![],
    ));
    let ex = SchemaJsonExtractor::with_config(cfg).schema_mode(SchemaMode::Evolving);
    let out = extract(ex, json, "Some text about a movie.");
    assert!(out.metadata.contains_key("new_schema_types"));
    assert_eq!(out.metadata.get("schema_mode"), Some(&Json::Text("evolving".into())));
}

#[test]
fn fixed_mode_drops_out_of_schema_records() {
    let json = r#"{"entities": {
        "OpenAI": {"type": "ORGANIZATION"},
        "GPT-4": {"type": "TECHNOLOGY"}
    }, "relationships": [
        ["GPT-4", "DEVELOPED_BY", "OpenAI"],
        ["OpenAI", "USES", "OpenAI"]
    ]}"#;
    let cfg = ExtractionConfig::from_schema(Schema::new(
        vec!["ORGANIZATION".into()],
        vec!["DEVELOPED_BY".into()],
        vec![],
    ));
    let ex = SchemaJsonExtractor::with_config(cfg).schema_mode(SchemaMode::Fixed);
    let out = extract(ex, json, "text");
    assert_eq!(entities(&out), 1, "only the ORGANIZATION entity survives");
    assert_eq!(triples(&out), 0, "USES is out-of-schema; DEVELOPED_BY loses its endpoint");
    assert_eq!(out.metadata.get("schema_dropped_records"), Some(&Json::Uint(3)));
    let dropped = out.metadata.get("schema_dropped_types").unwrap().as_array().unwrap();
    assert!(dropped.contains(&Json::Text("TECHNOLOGY".into())));
    assert!(dropped.contains(&Json::Text("USES".into())));
}

#[test]
fn fixed_mode_keeps_in_schema_records() {
    let json = r#"{"entities": {"OpenAI": {"type": "ORGANIZATION"}, "GPT-4": {"type": "TECHNOLOGY"}},
                   "relationships": [["GPT-4", "DEVELOPED_BY", "OpenAI"]]}"#;
    let cfg = ExtractionConfig::from_schema(Schema::new(
        vec!["ORGANIZATION".into(), "TECHNOLOGY".into()],
        vec!["DEVELOPED_BY".into()],
        vec![],
    ));
    let ex = SchemaJsonExtractor::with_config(cfg).schema_mode(SchemaMode::Fixed);
    let out = extract(ex, json, "text");
    assert_eq!(entities(&out), 2);
    assert_eq!(triples(&out), 1);
    assert_eq!(out.knowledge_graph.triples[0].subject.label, "GPT-4");
    assert_eq!(out.knowledge_graph.triples[0].object.label, "OpenAI");
    assert_eq!(out.metadata.get("schema_dropped_records"), Some(&Json::Uint(0)));
}

#[test]
fn open_mode_does_not_enforce_schema() {
    let json = r#"{"entities": {"GPT-4": {"type": "TECHNOLOGY"}}, "relationships": []}"#;
    let out = extract(SchemaJsonExtractor::new(), json, "text");
    assert_eq!(entities(&out), 1);
    assert!(!out.metadata.contains_key("schema_dropped_records"));
}

#[test]
fn schema_json_tests_fixed_mode_without_schema_errors() {
    let ex = SchemaJsonExtractor::new().schema_mode(SchemaMode::Fixed);
    assert!(
        ex.request("text", None).is_err(),
        "Fixed mode with an empty schema must error"
    );
}

#[test]
fn one_spec_runs_through_both_engines() {
    let mut spec = ExtractionSpec::plain();
    spec.schema = Schema::new(vec!["ORGANIZATION".into()], vec!["DEVELOPED_BY".into()], vec![]);
    spec.mode = SchemaMode::Fixed;
    let sj = SchemaJsonExtractor::with_spec(spec.dup());
    let tool = ToolCallExtractor::with_spec(spec.dup());
    for carried in [&sj.config().spec, &tool.config().spec] {
        assert!(carried.mode == SchemaMode::Fixed);
        assert_eq!(carried.schema.to_value(), spec.schema.to_value());
        assert!(carried.merge_duplicates == spec.merge_duplicates);
        assert!(carried.merge_strategy == spec.merge_strategy);
        assert!(carried.coref == spec.coref);
        assert!(carried.canonical_direction == spec.canonical_direction);
        assert_eq!(carried.language, spec.language);
    }
    assert_eq!(sj.config().segment_size, 3000);
    assert_eq!(tool.config().segment_size, 5000);
}

#[test]
fn identical_relations_in_one_response_collapse_to_one_triple() {
    let json = r#"{"entities": {"OpenAI": {"type": "ORGANIZATION"},
                                 "GPT-4": {"type": "TECHNOLOGY"}},
                   "relationships": [["GPT-4", "DEVELOPED_BY", "OpenAI"],
                                     ["GPT-4", "DEVELOPED_BY", "OpenAI"]]}"#;
    let out = extract(SchemaJsonExtractor::new(), json, "OpenAI developed GPT-4.");
    assert_eq!(triples(&out), 1, "identical triples must collapse");
    assert_eq!(entities(&out), 2);
}

#[test]
fn coref_fuzzy_merges_surface_variants() {
    let json = r#"{"entities": {"Acme Corp.": {"type": "ORGANIZATION"},
                                 "Acme Corp": {"type": "ORGANIZATION"},
                                 "Widget": {"type": "PRODUCT"}},
                   "relationships": [["Acme Corp.", "PRODUCES", "Widget"]]}"#;
    let off = extract(SchemaJsonExtractor::new(), json, "Acme Corp. produces Widget.");

    let mut spec = ExtractionSpec::plain();
    spec.coref = CorefMode::Fuzzy;
    let fuzzy =
        extract(SchemaJsonExtractor::with_spec(spec), json, "Acme Corp. produces Widget.");
    assert!(
        entities(&fuzzy) < entities(&off),
        "CorefMode::Fuzzy must merge the Acme surface variants (off={}, fuzzy={})",
        entities(&off),
        entities(&fuzzy)
    );
}

#[test]
fn a_failed_model_leaves_an_empty_graph() {
    let ex = SchemaJsonExtractor::new();
    let out = ex.finish("text", None);
    assert_eq!(entities(&out), 0);
    assert_eq!(triples(&out), 0);
}

#[test]
fn the_text_must_say_something() {
    let ex = SchemaJsonExtractor::new();
    assert!(ex.request("  ", None).is_err());
    let messages = ex.request("text", None).ok().unwrap();
    assert_eq!(messages.len(), 2);
    assert_eq!(messages[0].role, "system");
    assert!(messages[1].content.contains("text"));
    let o = ex.options();
    assert_eq!((o.model.as_str(), o.temperature_percent, o.max_tokens), ("qwen-max", 30, 4000));
    assert_eq!(ToolCallExtractor::new().options().max_tokens, 4000);
}

#[test]
fn what_is_left_of_an_answer_under_a_fixed_schema() {
    let cfg = ExtractionConfig::from_schema(Schema::new(vec!["A".into()], vec![], vec![]));
    let ex = SchemaJsonExtractor::with_config(cfg).schema_mode(SchemaMode::Fixed);
    let data = extract_json_from_response(
        r#"{"entities": {"x": {"type": "a"}, "y": {"type": "B"}}, "relationships": []}"#,
    )
    .unwrap();
    let (kept, drops) = ex.enforce_fixed(&data);
    assert_eq!(kept.object_at("entities").unwrap().len(), 1);
    assert_eq!(drops.records, 1);
    assert!(drops.types.contains("B"));
}

#[test]
fn inputs_are_looked_at_before_anything_is_asked() {
    assert!(validate_input("  ", 1).is_err());
    assert!(validate_input("short", 100).ok().unwrap().is_some());
    assert!(validate_input("long enough", 3).ok().unwrap().is_none());
}

#[test]
fn a_model_writes_what_is_known_of_combined_entities() {
    let json = r#"{"entities": {
        "Acme Inc": {"type": "COMPANY", "attributes": {"description": "HQ in NY"}},
        "Acme": {"type": "COMPANY", "attributes": {"description": "global manufacturer"}}
    }, "relationships": [["Acme", "USES", "Acme Inc"]]}"#;
    let mut config = SchemaJsonExtractor::default_config();
    config.spec.merge_strategy = MergeStrategy::Llm;
    config.spec.merge_duplicates = true;
    config.spec.coref = CorefMode::Fuzzy;
    let ex = SchemaJsonExtractor::with_config(config);
    assert!(ex.asks_to_merge());
    let value = extract_json_from_response(json);
    let mut session = ex.start_merge(&value);
    let mut asked = 0;
    while !session.is_done() {
        let written = session.due().map(|p| {
            asked += 1;
            assert!(p.question().contains("HQ in NY"), "{}", p.question());
            "Acme: a manufacturer in NY.".to_string()
        });
        session = session.take(written);
    }
    assert_eq!(asked, 1);
    let out = ex.respond_with("text", &value, session.finish());
    assert_eq!(entities(&out), 1);
    let e = out.knowledge_graph.entities.value_at(0);
    assert_eq!(e.description.as_deref(), Some("Acme: a manufacturer in NY."));
    assert_eq!(out.metadata.get("mode"), Some(&Json::Text("schema_json".into())));
    assert!(!SchemaJsonExtractor::new().asks_to_merge());
}
