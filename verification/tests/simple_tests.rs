//! Extraction of delimited records, chunk by chunk.

use kg_extract::backend::mock::MockBackend;
use kg_extract::backend::{Message, ReplaySession};
use kg_extract::chunking::{parse_prechunked, ChunkStrategy, Segment};
use kg_extract::citation::CITATIONS_KEY;
use kg_extract::extractor::simple::parse::{
    build_triple_from_rel, choose_value, classify, complete_item, entity_type_tokens,
    infer_predicate_type, normalize_key, parse_attributes_string, parse_entity_item,
    parse_output, parse_relations_against, read_strength, split_to_items, split_top_level,
    strip_parens, write_number, RecordKind, RelData,
};
use kg_extract::extractor::simple::{find_orphans, list_or, list_orphans, ChunkSession};
use kg_extract::extractor::SimpleExtractor;
use kg_extract::fraction::Fraction;
use kg_extract::graph_build::entity_id;
use kg_extract::json::{extract_json_from_response, Json};
use kg_extract::range::{BBox, CharSpan, LineSpan, PageSpan, SourceRange};
use kg_extract::table::{Dup, Table};
use kg_extract::types::graph::Metadata;
use kg_extract::types::{
    Entity, EntityType, ExtractionConfig, ExtractionResponse, KnowledgeGraph, PredicateType,
};

fn json(t: &str) -> Json {
    extract_json_from_response(t).unwrap()
}

fn extract_segments(
    ex: &SimpleExtractor,
    backend: &mut MockBackend,
    segments: Vec<Segment>,
) -> Result<ExtractionResponse, String> {
    ex.check_prechunked(&segments)?;
    let mut parsed = Vec::new();
    let mut graphs = Vec::new();
    for s in &segments {
        let mut st = ChunkSession::new();
        let mut told = ReplaySession::new(Some(ex.system_prompt()));
        while let Some(q) = ex.next_question(&st, &s.content) {
            told.ask(&q);
            let reply = backend.complete(&told.history);
            told.answered(&reply);
            ex.take_reply(&mut st, Some(&reply));
        }
        let (mut p, g) = st.finish();
        parsed.append(&mut p);
        graphs.push(g);
    }
    Ok(ex.respond(&segments, parsed, graphs))
}

fn extract(ex: &SimpleExtractor, replies: Vec<&str>, text: &str) -> ExtractionResponse {
    let mut backend = MockBackend::new(replies.into_iter().map(String::from).collect());
    extract_segments(ex, &mut backend, ex.chunk(text).unwrap()).ok().unwrap()
}

fn labels(kg: &KnowledgeGraph) -> Vec<&str> {
    (0..kg.entities.len()).map(|i| kg.entities.value_at(i).label.as_str()).collect()
}

fn by_label<'a>(kg: &'a KnowledgeGraph, label: &str) -> &'a Entity {
    (0..kg.entities.len())
        .map(|i| kg.entities.value_at(i))
        .find(|e| e.label == label)
        .unwrap_or_else(|| panic!("{label} missing"))
}

fn entities_and_relationship() {
    let resp_text = "(entity<|>OpenAI<|>organization<|>An AI research lab.<|>)##\
        (entity<|>GPT-4<|>technology<|>A large language model.<|>)##\
        (relationship<|>OpenAI<|>GPT-4<|>uses<|>OpenAI develops GPT-4.<|>0.9)##";
    let out = extract(&SimpleExtractor::new(), vec![resp_text, ""], "OpenAI developed GPT-4.");
    assert_eq!(out.knowledge_graph.entities.len(), 2);
    assert_eq!(out.knowledge_graph.triples.len(), 1);
    assert_eq!(
        out.knowledge_graph.triples[0].predicate.predicate_type,
        PredicateType::Uses
    );
}

#[test]
fn simple_extracts_entities_and_relationship() {
    entities_and_relationship();
}

#[test]
fn simple_test_extracts_entities_and_relationship() {
    entities_and_relationship();
}

#[test]
fn relationship_type_token_maps_to_enum_predicate() {
    let resp_text = "(entity<|>OpenAI<|>organization<|>An AI research lab.<|>)##\
        (entity<|>GPT-4<|>technology<|>A large language model.<|>)##\
        (relationship<|>GPT-4<|>OpenAI<|>developed_by<|>GPT-4 was developed by OpenAI.<|>0.9)##";
    let out = extract(&SimpleExtractor::new(), vec![resp_text, ""], "OpenAI developed GPT-4.");
    let t = &out.knowledge_graph.triples[0];
    assert_eq!(t.predicate.predicate_type, PredicateType::DevelopedBy);
    assert_eq!(
        t.metadata.get("description"),
        Some(&Json::Text("GPT-4 was developed by OpenAI.".into()))
    );
}

#[test]
fn passive_by_relation_reverses_actor_to_product_direction() {
    let resp_text = "(entity<|>Helio Systems<|>organization<|>A software company.<|>)##\
        (entity<|>Aurora Portal<|>product<|>A customer operations product.<|>)##\
        (relationship<|>Helio Systems<|>Aurora Portal<|>developed_by<|>Helio Systems developed Aurora Portal.<|>0.9)##";
    let out = extract(
        &SimpleExtractor::new(),
        vec![resp_text, ""],
        "Aurora Portal is developed by Helio Systems.",
    );
    let triple = &out.knowledge_graph.triples[0];
    assert_eq!(triple.subject.label, "Aurora Portal");
    assert_eq!(triple.object.label, "Helio Systems");
    assert_eq!(triple.predicate.predicate_type, PredicateType::DevelopedBy);
}

#[test]
fn relation_gleaning_rescues_orphan_entities() {
    let first = "(entity<|>OpenAI<|>organization<|>An AI research lab.<|>)##\
        (entity<|>GPT-4<|>technology<|>A large language model.<|>)##";
    let rescue = "(relationship<|>OpenAI<|>GPT-4<|>uses<|>OpenAI develops GPT-4.<|>0.9)##";
    let mut ex = SimpleExtractor::new();
    ex.max_gleanings = 0;
    ex.max_relation_gleanings = 1;

    let out = extract(&ex, vec![first, rescue], "OpenAI developed GPT-4.");
    assert_eq!(out.knowledge_graph.entities.len(), 2);
    assert_eq!(
        out.knowledge_graph.triples.len(),
        1,
        "the orphan rescue round should add the edge"
    );
    let t = &out.knowledge_graph.triples[0];
    assert_eq!(t.predicate.predicate_type, PredicateType::Uses);
    assert_eq!(t.metadata.get("relation_gleaned"), Some(&Json::Bool(true)));
}

#[test]
fn relation_gleaning_off_by_default_keeps_orphans() {
    let first = "(entity<|>OpenAI<|>organization<|>An AI research lab.<|>)##\
        (entity<|>GPT-4<|>technology<|>A large language model.<|>)##";
    let mut ex = SimpleExtractor::new();
    ex.max_gleanings = 0;
    let out = extract(&ex, vec![first, ""], "OpenAI developed GPT-4.");
    assert_eq!(out.knowledge_graph.entities.len(), 2);
    assert_eq!(out.knowledge_graph.triples.len(), 0);
}

fn entity_in_text() {
    let resp = "(entity<|>OpenAI<|>organization<|>An AI lab.<|>)##\
        (entity<|>GPT-4<|>technology<|>A model.<|>)##\
        (relationship<|>OpenAI<|>GPT-4<|>uses<|>OpenAI is the parent entity of GPT-4.<|>0.9)##";
    let out = extract(&SimpleExtractor::new(), vec![resp, ""], "OpenAI and GPT-4.");
    assert_eq!(out.knowledge_graph.entities.len(), 2);
    assert_eq!(
        out.knowledge_graph.triples.len(),
        1,
        "relationship must survive even though its text contains the word 'entity'"
    );
}

#[test]
fn simple_relationship_with_entity_in_text_is_not_dropped() {
    entity_in_text();
}

#[test]
fn simple_test_relationship_with_entity_in_text_is_not_dropped() {
    entity_in_text();
}

fn unmatched_bracket() {
    let attrs = parse_attributes_string("role: lead], team: platform");
    assert!(attrs.contains_key("role"), "first attribute must survive");
    assert!(attrs.contains_key("team"), "later attribute must survive");
}

#[test]
fn simple_attributes_unmatched_bracket_does_not_drop_all() {
    unmatched_bracket();
}

#[test]
fn simple_test_attributes_unmatched_bracket_does_not_drop_all() {
    unmatched_bracket();
}

fn deterministic_id() {
    assert_eq!(entity_id("Openai"), entity_id("Openai"));
    assert!(entity_id("X").starts_with("entity_"));
}

#[test]
fn simple_entity_id_is_deterministic_md5() {
    deterministic_id();
}

#[test]
fn simple_test_entity_id_is_deterministic_md5() {
    deterministic_id();
}

fn small_chunks() -> ExtractionConfig {
    let mut cfg = SimpleExtractor::default_config();
    cfg.segment_size = 20;
    cfg.overlap = 0;
    cfg.min_segment_size = 1;
    cfg.chunker = ChunkStrategy::Char;
    cfg
}

#[test]
fn segments_long_text_and_merges_chunk_graphs() {
    let r0 = "(entity<|>Alpha<|>organization<|>First chunk entity.<|>)##";
    let r1 = "(entity<|>Beta<|>organization<|>Second chunk entity.<|>)##";
    let mut cfg = small_chunks();
    cfg.max_concurrency = 2;
    let mut ex = SimpleExtractor::with_config(cfg);
    ex.max_gleanings = 0;

    let text = "a".repeat(20) + &"b".repeat(20);
    let out = extract(&ex, vec![r0, r1], &text);

    let labels = labels(&out.knowledge_graph);
    assert!(labels.contains(&"Alpha"), "chunk 0 entity must be present: {labels:?}");
    assert!(labels.contains(&"Beta"), "chunk 1 entity must be present: {labels:?}");
    assert_eq!(out.knowledge_graph.entities.len(), 2);
}

fn given(content: &str, index: usize, start: usize, range: Option<SourceRange>) -> Segment {
    Segment {
        content: content.to_string(),
        index,
        start,
        end: start + content.len(),
        range,
        title: None,
        metadata: Table::new(),
    }
}

#[test]
fn prechunked_extracts_each_given_chunk_without_rechunking() {
    let r0 = "(entity<|>Alpha<|>organization<|>First chunk entity.<|>)##";
    let r1 = "(entity<|>Beta<|>organization<|>Second chunk entity.<|>)##";
    let mut backend = MockBackend::new(vec![r0.into(), r1.into()]);
    let mut ex = SimpleExtractor::new();
    ex.max_gleanings = 0;

    let chunks =
        vec![given("Alpha exists.", 0, 0, None), given("Beta exists.", 1, 13, None)];
    let out = extract_segments(&ex, &mut backend, chunks).ok().unwrap();

    let labels = labels(&out.knowledge_graph);
    assert!(labels.contains(&"Alpha"), "chunk 0 ran: {labels:?}");
    assert!(
        labels.contains(&"Beta"),
        "chunk 1 must run as its own chunk, not be re-chunked away: {labels:?}"
    );
}

#[test]
fn prechunked_empty_input_errors() {
    let mut backend = MockBackend::new(vec![]);
    assert!(extract_segments(&SimpleExtractor::new(), &mut backend, vec![]).is_err());
}

#[test]
fn prechunked_citations_use_chunk_metadata_lines() {
    let r0 = "(entity<|>Alpha<|>organization<|>First chunk entity.<|>)##";
    let r1 = "(entity<|>Beta<|>organization<|>Second chunk entity.<|>)##";
    let mut backend = MockBackend::new(vec![r0.into(), r1.into()]);
    let mut cfg = SimpleExtractor::default_config();
    cfg.max_concurrency = 1;
    cfg.source_doc = Some("doc.md".into());
    let mut ex = SimpleExtractor::with_config(cfg);
    ex.max_gleanings = 0;

    let mut lines = SourceRange::unknown();
    lines.line = LineSpan::new(5, 9);
    let chunks =
        vec![given("Alpha exists.", 0, 0, Some(lines)), given("Beta exists.", 1, 13, None)];
    let out = extract_segments(&ex, &mut backend, chunks).ok().unwrap();

    let cites = |label: &str| -> Option<Json> {
        by_label(&out.knowledge_graph, label).metadata.get(CITATIONS_KEY).map(|v| v.copied())
    };
    assert_eq!(
        cites("Alpha").expect("Alpha must be stamped"),
        json(r#"[{"doc": "doc.md", "lines": [5, 9]}]"#)
    );
    assert!(
        cites("Beta").is_none(),
        "a chunk without line metadata must not be stamped"
    );
}

#[test]
fn prechunked_multimodal_range_survives_as_entity_and_relation_evidence() {
    let response = "(entity<|>OpenAI<|>organization<|>An AI lab.<|>)##\
        (entity<|>GPT-4<|>technology<|>A language model.<|>)##\
        (relationship<|>OpenAI<|>GPT-4<|>uses<|>OpenAI uses GPT-4.<|>0.9)##";
    let mut backend = MockBackend::new(vec![response.into()]);
    let expected_range = SourceRange {
        char_span: CharSpan::new(20, 44),
        line: LineSpan::new(11, 12),
        page: PageSpan::new(7, 7),
        bbox: Some(BBox {
            x0: "10.5".into(),
            y0: "20.25".into(),
            x1: "300.75".into(),
            y1: "440.0".into(),
        }),
    };
    let chunks = parse_prechunked(
        r#"{"source_file":"page-7.pdf","text":"OpenAI uses GPT-4.","range":{"char_span":{"start":20,"end":44},"line":{"start":11,"end":12},"page":{"start":7,"end":7},"bbox":{"x0":10.5,"y0":20.25,"x1":300.75,"y1":440.0}}}"#,
    )
    .unwrap();

    let mut cfg = SimpleExtractor::default_config();
    cfg.max_concurrency = 1;
    cfg.source_doc = chunks.source.clone();
    let mut ex = SimpleExtractor::with_config(cfg);
    ex.max_gleanings = 0;

    let out = extract_segments(&ex, &mut backend, chunks.segments).ok().unwrap();
    let kg = &out.knowledge_graph;
    assert_eq!(kg.entities.len(), 2);
    assert_eq!(kg.triples.len(), 1);
    let mut evidence: Vec<&Metadata> =
        (0..2).map(|i| &kg.entities.value_at(i).metadata).collect();
    evidence.push(&kg.triples[0].metadata);
    for m in evidence {
        let cites = m.get(CITATIONS_KEY).unwrap().as_array().unwrap();
        assert_eq!(cites.len(), 1, "both entities and the relation need evidence");
        assert_eq!(cites[0].text_at("doc").as_deref(), Some("page-7.pdf"));
        let range = SourceRange::from_value(cites[0].get("range").unwrap());
        assert_eq!(range, Some(expected_range.dup()));
    }
}

#[test]
fn citations_stamp_chunk_line_ranges_and_union_on_merge() {
    let r0 = "(entity<|>Alpha<|>organization<|>First chunk entity.<|>)##";
    let r1 = "(entity<|>Alpha<|>organization<|>Also here.<|>)##\
        (entity<|>Beta<|>organization<|>Second chunk entity.<|>)##";
    let mut cfg = small_chunks();
    cfg.max_concurrency = 1;
    cfg.source_doc = Some("doc.md".into());
    let mut ex = SimpleExtractor::with_config(cfg);
    ex.max_gleanings = 0;

    let text = format!(
        "{}\n{}\n{}\n{}\n",
        "a".repeat(9),
        "a".repeat(9),
        "b".repeat(9),
        "b".repeat(9)
    );
    let out = extract(&ex, vec![r0, r1], &text);
    // The plain part of a citation: the document and the lines.
    let cites = |label: &str| -> Vec<(Option<String>, Json)> {
        by_label(&out.knowledge_graph, label)
            .metadata
            .get(CITATIONS_KEY)
            .and_then(|v| v.as_array())
            .unwrap_or_else(|| panic!("{label} has no citations"))
            .iter()
            .map(|c| (c.text_at("doc"), c.get("lines").unwrap().copied()))
            .collect()
    };

    let alpha = cites("Alpha");
    assert_eq!(alpha.len(), 2, "Alpha in both chunks must cite both: {alpha:?}");
    assert_eq!(alpha[0].0.as_deref(), Some("doc.md"));
    assert_eq!(alpha[0].1, json("[1, 2]"));
    assert_eq!(alpha[1].1, json("[3, 4]"));

    let beta = cites("Beta");
    assert_eq!(beta.len(), 1);
    assert_eq!(beta[0].1, json("[3, 4]"));
}

#[test]
fn entity_type_tokens_recovers_raw_types() {
    let output = "(entity<|>OpenAI<|>organization<|>An AI lab.<|>)##\
        (entity<|>Widget X<|>GADGET<|>A custom thing.<|>)##\
        (relationship<|>OpenAI<|>Widget X<|>builds<|>they build it<|>0.9)";
    let tokens = entity_type_tokens(output);
    assert_eq!(tokens.get("openai").map(String::as_str), Some("organization"));
    assert_eq!(tokens.get("widget x").map(String::as_str), Some("GADGET"));
    assert_eq!(tokens.len(), 2, "relationship record must not appear");
}

#[test]
fn build_triple_from_rel_swaps_passive_by_and_stamps_shared_metadata() {
    let actor = Entity::new("e_actor", "Helio Systems", EntityType::Organization);
    let product = Entity::new("e_product", "Aurora Portal", EntityType::Product);
    let strength = Fraction::clamp(&"0.42".chars().collect()).unwrap();
    let rel = RelData {
        source_id: actor.id.clone(),
        target_id: product.id.clone(),
        source_name: "Helio Systems".into(),
        target_name: "Aurora Portal".into(),
        predicate: "developed_by".into(),
        description: "Helio Systems developed Aurora Portal.".into(),
        strength: strength.dup(),
    };

    let t = build_triple_from_rel(&rel, &actor, &product);
    assert_eq!(t.subject.label, "Aurora Portal");
    assert_eq!(t.object.label, "Helio Systems");
    assert_eq!(t.predicate.predicate_type, PredicateType::DevelopedBy);
    assert_eq!(t.confidence, Some(strength));
    let text = |k: &str| t.metadata.get(k).and_then(|v| v.as_text()).map(String::as_str);
    assert_eq!(text("description"), Some("Helio Systems developed Aurora Portal."));
    assert_eq!(text("source_name"), Some("Helio Systems"));
    assert_eq!(text("target_name"), Some("Aurora Portal"));
    assert!(
        !t.metadata.contains_key("relation_gleaned"),
        "base builder must not stamp relation_gleaned"
    );
}

#[test]
fn parse_relations_against_marks_relation_gleaned_but_parse_output_does_not() {
    let resp = "(entity<|>OpenAI<|>organization<|>An AI lab.<|>)##\
        (entity<|>GPT-4<|>technology<|>A model.<|>)##\
        (relationship<|>OpenAI<|>GPT-4<|>uses<|>OpenAI develops GPT-4.<|>0.9)##";

    let parsed = parse_output(resp, &SimpleExtractor::default_config());
    assert_eq!(parsed.triples.len(), 1);
    assert!(
        !parsed.triples[0].metadata.contains_key("relation_gleaned"),
        "parse_output must not stamp relation_gleaned"
    );
    let known = parsed.entities;

    let rescue = "(relationship<|>OpenAI<|>GPT-4<|>uses<|>OpenAI develops GPT-4.<|>0.9)##";
    let rescued = parse_relations_against(rescue, &known);
    assert_eq!(rescued.len(), 1);
    assert_eq!(
        rescued[0].metadata.get("relation_gleaned"),
        Some(&Json::Bool(true)),
        "rescue round must stamp relation_gleaned"
    );
    let mut labels =
        [rescued[0].subject.label.to_lowercase(), rescued[0].object.label.to_lowercase()];
    labels.sort_unstable();
    assert_eq!(
        labels,
        ["gpt-4", "openai"],
        "rescue endpoints must resolve to the known entities"
    );
}

#[test]
fn records_are_told_apart_by_their_heads() {
    assert!(matches!(classify("entity", "(entity<|>A"), RecordKind::Entity));
    assert!(matches!(
        classify("relationship", "(relationship<|>A"),
        RecordKind::Relationship
    ));
    let items = split_to_items("(entity<|>A<|>person<|>x)##(entity<|>B<|>person<|>y)");
    assert_eq!(items.len(), 2);
    assert_eq!(strip_parens("(a)"), "a");
    assert_eq!(complete_item("(a"), "(a)");
}

#[test]
fn attributes_are_read_part_by_part() {
    let parts = split_top_level("a: 1, b: [2, 3], c: {d, e}");
    assert_eq!(parts.len(), 3);
    let m = parse_attributes_string("count: 3, tags: [\"x\"], name: \"N\", free: some text");
    assert_eq!(m.get("count"), Some(&Json::Uint(3)));
    assert_eq!(m.get("name"), Some(&Json::Text("N".into())));
    assert_eq!(m.get("free"), Some(&Json::Text("some text".into())));
    assert_eq!(m.get("tags"), Some(&Json::Text("[\"x\"]".into())));
    let whole = parse_attributes_string("{\"k\": true}");
    assert_eq!(whole.get("k"), Some(&Json::Bool(true)));
    assert_eq!(choose_value("plain", None), Json::Text("plain".into()));
}

#[test]
fn numbers_are_written_out() {
    assert_eq!(write_number("2.5"), Some("2.5".to_string()));
    assert_eq!(write_number("word"), None);
    assert_eq!(read_strength(None), Fraction::eight_tenths());
    assert_eq!(read_strength(Some("0.5")), Fraction::clamp(&"0.5".chars().collect()).unwrap());
    assert_eq!(read_strength(Some("7")), Fraction::one());
}

#[test]
fn names_are_found_however_they_are_written() {
    assert_eq!(normalize_key(" OpenAI "), normalize_key("openai"));
    let e = parse_entity_item("(entity<|>openai<|>organization<|>A lab.<|>)").unwrap();
    assert_eq!(e.entity_type, EntityType::Organization);
    assert_eq!(e.id, entity_id(&e.label));
    assert!(parse_entity_item("(entity<|>)").is_none());
    assert_eq!(infer_predicate_type("uses"), PredicateType::Uses);
    assert_eq!(infer_predicate_type("nothing of the kind"), PredicateType::RelatedTo);
}

#[test]
fn read_relationships_join_known_entities() {
    let resp = "(entity<|>A<|>person<|>x<|>)##(relationship<|>A<|>Ghost<|>knows<|>d<|>0.9)##";
    let parsed = parse_output(resp, &SimpleExtractor::default_config());
    assert_eq!(parsed.entities.len(), 1);
    assert!(parsed.triples.is_empty());
}

#[test]
fn questions_about_a_chunk_come_to_an_end() {
    let mut ex = SimpleExtractor::new().relation_gleanings(2);
    ex.max_gleanings = 2;
    let mut st = ChunkSession::new();
    let mut asked = 0;
    while let Some(q) = ex.next_question(&st, "text") {
        assert!(!q.is_empty());
        let reply = format!("(entity<|>E{asked}<|>person<|>x<|>)##");
        ex.take_reply(&mut st, Some(&reply));
        asked += 1;
        assert!(asked <= 5, "three extraction rounds and two relation rounds at most");
    }
    assert!(asked >= 3);
    ex.take_reply(&mut st, Some("(entity<|>Late<|>person<|>x<|>)##"));
    let (parsed, kg) = st.finish();
    assert_eq!(parsed.len(), 3);
    assert_eq!(kg.entities.len(), 3);
}

#[test]
fn a_failure_keeps_what_was_read_before() {
    let mut ex = SimpleExtractor::new();
    ex.max_gleanings = 3;
    let mut st = ChunkSession::new();
    ex.take_reply(&mut st, Some("(entity<|>A<|>person<|>x<|>)##"));
    ex.take_reply(&mut st, None);
    assert!(ex.next_question(&st, "text").is_none());
    assert_eq!(st.finish().1.entities.len(), 1);
}

#[test]
fn one_relation_in_two_directions_becomes_one() {
    let replies = || {
        vec![
            "(entity<|>A<|>other<|>x<|>)##(entity<|>B<|>other<|>y<|>)##(relationship<|>A<|>B<|>uses<|>d<|>0.9)##",
            "(entity<|>A<|>other<|>x<|>)##(entity<|>B<|>other<|>y<|>)##(relationship<|>B<|>A<|>is_used_by<|>d<|>0.9)##",
        ]
    };
    let text = "a".repeat(40);
    let mut ex = SimpleExtractor::with_config(small_chunks());
    ex.max_gleanings = 0;
    assert_eq!(extract(&ex, replies(), &text).knowledge_graph.triples.len(), 2);
    let mut cfg = small_chunks();
    cfg.spec.canonical_direction = true;
    let mut ex = SimpleExtractor::with_config(cfg);
    ex.max_gleanings = 0;
    let out = extract(&ex, replies(), &text);
    assert_eq!(out.knowledge_graph.triples.len(), 1);
    assert_eq!(
        out.knowledge_graph.triples[0].predicate.predicate_type,
        PredicateType::IsUsedBy
    );
}

#[test]
fn orphans_are_those_that_no_relationship_reaches() {
    let parsed = parse_output(
        "(entity<|>A<|>person<|>x<|>)##(entity<|>B<|>person<|>y<|>)##(entity<|>C<|>person<|>z<|>)##(relationship<|>A<|>B<|>knows<|>d<|>0.9)##",
        &SimpleExtractor::default_config(),
    );
    let orphans = find_orphans(&parsed.entities, &parsed.triples);
    assert_eq!(orphans.len(), 1);
    assert_eq!(orphans[0].label, "C");
    assert!(list_orphans(&orphans).contains('C'));
    assert_eq!(list_or(&vec![], "x, y"), "x, y");
    assert_eq!(list_or(&vec!["p".into(), "q".into()], "x"), "p, q");
}

#[test]
fn questions_name_the_chunk_and_the_types() {
    let ex = SimpleExtractor::new();
    let p = ex.extraction_prompt("The quick fox.");
    assert!(p.contains("The quick fox."));
    assert!(!p.contains("{input_text}") && !p.contains("{entity_types}"), "{p}");
    assert!(!ex.system_prompt().is_empty());
    let e = Entity::new("e", "Lone", EntityType::Person);
    assert!(ex.relation_prompt(&vec![e]).contains("Lone"));
    assert_eq!(ex.options().model, "qwen-max");
    let _ = Message::user(&p);
}
