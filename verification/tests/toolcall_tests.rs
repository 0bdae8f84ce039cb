//! Extraction by calls of tools.

use kg_extract::backend::mock::MockBackend;
use kg_extract::backend::ToolInvocation;
use kg_extract::extractor::toolcall::Accumulator;
use kg_extract::extractor::ToolCallExtractor;
use kg_extract::fraction::Fraction;
use kg_extract::json::{extract_json_from_response, Json};
use kg_extract::types::{
    CorefMode, ExtractionConfig, ExtractionResponse, MergeStrategy, PredicateType, Schema,
    SchemaMode,
};

fn call(name: &str, args: &str) -> ToolInvocation {
    ToolInvocation {
        id: format!("c_{name}"),
        name: name.into(),
        arguments: extract_json_from_response(args).unwrap(),
    }
}

fn extract(
    ex: &ToolCallExtractor,
    rounds: Vec<Vec<ToolInvocation>>,
    text: &str,
) -> Result<ExtractionResponse, String> {
    let mut backend = MockBackend::new(vec![]).with_tool_rounds(rounds);
    let mut session = ex.start(text, true)?;
    while session.left > 0 {
        let response = backend.complete_with_tools(&session.messages);
        ex.step(&mut session, &response);
    }
    Ok(ex.finish(&session, text))
}

fn single_round() {
    let rounds = vec![vec![
        call("add_entity", r#"{"name": "OpenAI", "type": "ORGANIZATION"}"#),
        call("add_entity", r#"{"name": "GPT-4", "type": "TECHNOLOGY"}"#),
        call(
            "add_relation",
            r#"{"source": "GPT-4", "predicate": "DEVELOPED_BY", "target": "OpenAI", "strength": 0.9}"#,
        ),
        call("add_attribute", r#"{"entity": "GPT-4", "key": "params", "value": "1.8T"}"#),
        call("finish", "{}"),
    ]];
    let out = extract(&ToolCallExtractor::new(), rounds, "OpenAI developed GPT-4.").ok().unwrap();
    let kg = &out.knowledge_graph;
    assert_eq!(kg.entities.len(), 2);
    assert_eq!(kg.triples.len(), 1);
    assert_eq!(kg.triples[0].predicate.predicate_type, PredicateType::DevelopedBy);
    assert_eq!(kg.triples[0].subject.label, "GPT-4");
    assert_eq!(kg.triples[0].object.label, "OpenAI");
    let gpt = (0..2).map(|i| kg.entities.value_at(i)).find(|e| e.label == "GPT-4").unwrap();
    assert_eq!(gpt.metadata.get("params"), Some(&Json::Text("1.8T".into())));
}

#[test]
fn toolcall_single_round_collects_tool_calls() {
    single_round();
}

#[test]
fn toolcall_tests_single_round_collects_tool_calls() {
    single_round();
}

fn both_directions() -> Vec<Vec<ToolInvocation>> {
    vec![vec![
        call("add_entity", r#"{"name": "A", "type": "OTHER"}"#),
        call("add_entity", r#"{"name": "B", "type": "OTHER"}"#),
        call("add_relation", r#"{"source": "A", "predicate": "USES", "target": "B"}"#),
        call("add_relation", r#"{"source": "B", "predicate": "IS_USED_BY", "target": "A"}"#),
    ]]
}

#[test]
fn canonical_direction_flips_and_dedups_direction_variants() {
    let mut c = ToolCallExtractor::default_config();
    c.spec.canonical_direction = true;
    let out =
        extract(&ToolCallExtractor::with_config(c), both_directions(), "text").ok().unwrap();
    assert_eq!(
        out.knowledge_graph.triples.len(),
        1,
        "direction variants collapse to one canonical edge"
    );
    let t = &out.knowledge_graph.triples[0];
    assert_eq!(t.predicate.predicate_type, PredicateType::IsUsedBy);
    assert_eq!(t.subject.label, "B");
    assert_eq!(t.object.label, "A");
}

#[test]
fn direction_variants_stay_separate_by_default() {
    let out = extract(&ToolCallExtractor::new(), both_directions(), "text").ok().unwrap();
    assert_eq!(out.knowledge_graph.triples.len(), 2);
}

fn clamped() {
    let rounds = vec![vec![
        call("add_entity", r#"{"name": "A", "type": "OTHER"}"#),
        call("add_entity", r#"{"name": "B", "type": "OTHER"}"#),
        call(
            "add_relation",
            r#"{"source": "A", "predicate": "USES", "target": "B", "strength": 5.0}"#,
        ),
    ]];
    let out = extract(&ToolCallExtractor::new(), rounds, "text").ok().unwrap();
    assert_eq!(
        out.knowledge_graph.triples[0].confidence,
        Some(Fraction::one()),
        "strength clamps to 1.0"
    );
}

#[test]
fn toolcall_relation_strength_is_clamped() {
    clamped();
}

#[test]
fn toolcall_tests_relation_strength_is_clamped() {
    clamped();
}

fn dangling() {
    let rounds = vec![vec![
        call("add_entity", r#"{"name": "OpenAI", "type": "ORGANIZATION"}"#),
        call(
            "add_relation",
            r#"{"source": "OpenAI", "predicate": "USES", "target": "Nonexistent"}"#,
        ),
    ]];
    let out = extract(&ToolCallExtractor::new(), rounds, "text").ok().unwrap();
    assert_eq!(out.knowledge_graph.entities.len(), 1);
    assert_eq!(out.knowledge_graph.triples.len(), 0);
}

#[test]
fn toolcall_dangling_relation_is_dropped() {
    dangling();
}

#[test]
fn toolcall_tests_dangling_relation_is_dropped() {
    dangling();
}

fn evolving() {
    let rounds = vec![vec![
        call("add_entity", r#"{"name": "Dune", "type": "WORK_OF_ART"}"#),
        call("propose_schema_type", r#"{"kind": "node", "name": "Movie"}"#),
    ]];
    let cfg = ExtractionConfig::from_schema(Schema::new(
        vec!["WORK_OF_ART".into()],
        vec!["RELATED_TO".into()],
        vec![],
    ));
    let ex = ToolCallExtractor::with_config(cfg).schema_mode(SchemaMode::Evolving);
    let out = extract(&ex, rounds, "text").ok().unwrap();
    let new = out.metadata.get("new_schema_types").unwrap();
    assert_eq!(new.array_at("nodes").unwrap()[0], Json::Text("Movie".into()));
    assert_eq!(out.metadata.get("schema_mode"), Some(&Json::Text("evolving".into())));
}

#[test]
fn toolcall_evolving_mode_records_proposed_types() {
    evolving();
}

#[test]
fn toolcall_tests_evolving_mode_records_proposed_types() {
    evolving();
}

fn schema_lacks() {
    let ex = ToolCallExtractor::new().schema_mode(SchemaMode::Fixed);
    assert!(
        extract(&ex, vec![vec![]], "text").is_err(),
        "Fixed mode with an empty schema must error"
    );
}

#[test]
fn toolcall_fixed_mode_without_schema_errors() {
    schema_lacks();
}

#[test]
fn toolcall_tests_fixed_mode_without_schema_errors() {
    schema_lacks();
}

#[test]
fn a_conversation_takes_no_more_rounds_than_it_may() {
    let rounds: Vec<Vec<ToolInvocation>> = (0..5)
        .map(|i| vec![call("add_entity", &format!(r#"{{"name": "E{i}", "type": "OTHER"}}"#))])
        .collect();
    let ex = ToolCallExtractor::new().max_rounds(3);
    let out = extract(&ex, rounds, "text").ok().unwrap();
    assert_eq!(out.knowledge_graph.entities.len(), 3);
}

#[test]
fn a_conversation_ends_when_it_is_called_finished() {
    let rounds = vec![
        vec![call("add_entity", r#"{"name": "A", "type": "OTHER"}"#), call("finish", "{}")],
        vec![call("add_entity", r#"{"name": "B", "type": "OTHER"}"#)],
    ];
    let out = extract(&ToolCallExtractor::new().max_rounds(9), rounds, "text").ok().unwrap();
    assert_eq!(out.knowledge_graph.entities.len(), 1);
}

#[test]
fn tools_are_needed_and_so_is_a_text() {
    let ex = ToolCallExtractor::new();
    assert!(ex.start("text", false).is_err());
    assert!(ex.start(" ", true).is_err());
    let names: Vec<String> = ex.tools().into_iter().map(|t| t.name).collect();
    for name in ["add_entity", "add_relation", "add_attribute", "propose_schema_type", "finish"] {
        assert!(names.iter().any(|n| n == name), "{name}");
    }
}

#[test]
fn an_unknown_tool_records_nothing() {
    let mut acc = Accumulator::new();
    acc.apply_call(&call("paint", "{}"));
    acc.apply_call(&call("add_entity", r#"{"type": "OTHER"}"#));
    assert!(acc.entities.is_empty());
    acc.apply_call(&call("add_entity", r#"{"name": "A"}"#));
    assert_eq!(acc.entities.len(), 1);
}

#[test]
fn the_schema_is_told_where_it_counts() {
    let told = |mode: SchemaMode| {
        let cfg = ExtractionConfig::from_schema(Schema::new(
            vec!["CITY".into(), "RIVER".into()],
            vec!["FLOWS_THROUGH".into()],
            vec![],
        ));
        ToolCallExtractor::with_config(cfg).schema_mode(mode).system_prompt()
    };
    let plain = ToolCallExtractor::new().system_prompt();
    assert_eq!(told(SchemaMode::Open), plain, "a schema is ignored in the open mode");
    let fixed = told(SchemaMode::Fixed);
    assert!(fixed.starts_with(&plain) && fixed.contains("SCHEMA (closed"), "{fixed}");
    assert!(fixed.contains("entity types: CITY, RIVER\nrelation types: FLOWS_THROUGH"), "{fixed}");
    assert!(told(SchemaMode::Evolving).contains("SCHEMA (seed"));
}

#[test]
fn a_model_writes_what_is_known_of_recorded_duplicates() {
    let rounds = vec![vec![
        call(
            "add_entity",
            r#"{"name": "Acme Inc", "type": "COMPANY", "description": "HQ in NY"}"#,
        ),
        call(
            "add_entity",
            r#"{"name": "Acme", "type": "COMPANY", "description": "global manufacturer"}"#,
        ),
        call("finish", "{}"),
    ]];
    let mut config = ToolCallExtractor::default_config();
    config.spec.merge_strategy = MergeStrategy::Llm;
    config.spec.merge_duplicates = true;
    config.spec.coref = CorefMode::Fuzzy;
    let ex = ToolCallExtractor::with_config(config);
    assert!(ex.asks_to_merge());
    let mut backend = MockBackend::new(vec![]).with_tool_rounds(rounds);
    let mut session = ex.start("Acme is in NY.", true).ok().unwrap();
    while session.left > 0 {
        let response = backend.complete_with_tools(&session.messages);
        ex.step(&mut session, &response);
    }
    let mut merging = ex.start_merge(&session);
    let mut asked = 0;
    while !merging.is_done() {
        let written = merging.due().map(|p| {
            asked += 1;
            assert!(p.question().contains("global manufacturer"), "{}", p.question());
            "Acme: a manufacturer in NY.".to_string()
        });
        merging = merging.take(written);
    }
    assert_eq!(asked, 1);
    let out = ex.respond_with(&session, "Acme is in NY.", merging.finish());
    assert_eq!(out.knowledge_graph.entities.len(), 1);
    let e = out.knowledge_graph.entities.value_at(0);
    assert_eq!(e.description.as_deref(), Some("Acme: a manufacturer in NY."));
    assert_eq!(out.metadata.get("mode"), Some(&Json::Text("toolcall".into())));
    assert!(!ToolCallExtractor::new().asks_to_merge());
}
