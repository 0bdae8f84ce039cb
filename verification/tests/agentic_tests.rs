//! Extraction in one conversation with an agent.

use kg_extract::chunking::{place_pieces, Segment};
use kg_extract::citation::{Citation, CITATIONS_KEY};
use kg_extract::extractor::agentic::schema_filter::{SchemaFilter, SchemaPolicy};
use kg_extract::extractor::agentic::{
    commit_unconstrained_slice, cover_lines, join_segments, new_types_proposal_log,
    stamp_slice_citations, Session, SessionOutcome,
};
use kg_extract::extractor::AgenticExtractor;
use kg_extract::json::{extract_json_from_response, Json};
use kg_extract::names::NameSet;
use kg_extract::table::Table;
use kg_extract::types::{
    Entity, EntityType, ExtractionConfig, ParsedResult, Predicate, PredicateType, Schema,
    SchemaMode, Triple,
};

fn json(t: &str) -> Json {
    extract_json_from_response(t).unwrap()
}

fn ent(id: &str, label: &str, ty: EntityType) -> Entity {
    Entity::new(id, label, ty)
}

fn tokens(pairs: &[(&str, &str)]) -> Table<String> {
    let mut t = Table::new();
    for (n, v) in pairs {
        t.insert(n.to_lowercase(), v.to_string());
    }
    t
}

fn table(es: Vec<(&str, Entity)>) -> Table<Entity> {
    let mut t = Table::new();
    for (id, e) in es {
        t.insert(id.to_string(), e);
    }
    t
}

fn names(of: &[&str]) -> NameSet {
    let mut s = NameSet::new();
    for n in of {
        s.insert(n.to_string());
    }
    s
}

fn empty_result() -> ParsedResult {
    ParsedResult {
        raw_response: String::new(),
        entities_and_triples: Vec::new(),
        entities: Table::new(),
        relationships: Vec::new(),
        triples: Vec::new(),
        metadata: Table::new(),
    }
}

fn policy_dispatch() {
    let schema = Schema::new(vec!["PRODUCT".into()], vec![], vec![]);
    assert!(matches!(
        SchemaPolicy::for_mode(SchemaMode::Open, &schema),
        SchemaPolicy::Off
    ));
    assert!(matches!(
        SchemaPolicy::for_mode(SchemaMode::Fixed, &schema),
        SchemaPolicy::Fixed(_)
    ));
    assert!(matches!(
        SchemaPolicy::for_mode(SchemaMode::Evolving, &schema),
        SchemaPolicy::Evolving(_)
    ));
    assert!(matches!(
        SchemaPolicy::for_mode(SchemaMode::Fixed, &Schema::empty()),
        SchemaPolicy::Off
    ));
    assert!(matches!(
        SchemaPolicy::for_mode(SchemaMode::Evolving, &Schema::empty()),
        SchemaPolicy::Off
    ));
}

fn dependent_relation() {
    let schema = Schema::new(vec!["PRODUCT".into()], vec!["USES".into()], vec![]);
    let f = SchemaFilter::build(&schema).unwrap();
    let entities = table(vec![
        ("p", ent("p", "Widget", EntityType::Product)),
        ("o", ent("o", "Acme", EntityType::Organization)),
    ]);
    let t = Triple::new(
        ent("p", "Widget", EntityType::Product),
        Predicate::with_label(PredicateType::Uses, "USES"),
        ent("o", "Acme", EntityType::Organization),
    );
    let toks = tokens(&[("widget", "PRODUCT"), ("acme", "ORGANIZATION")]);
    let sf = f.apply(&entities, &vec![t], &toks);

    assert_eq!(sf.kept_entities.len(), 1);
    assert!(sf.kept_entities.contains_key("p"));
    assert!(
        sf.kept_triples.is_empty(),
        "relation to a dropped endpoint must be dropped"
    );
    assert!(sf.dropped_types.contains("ORGANIZATION"));
    assert_eq!(sf.dropped_records, 2, "one entity + one relation");
    assert!(!sf.all_dropped(), "a product survived");
}

fn relation_type() {
    let schema = Schema::new(vec!["PRODUCT".into()], vec!["USES".into()], vec![]);
    let f = SchemaFilter::build(&schema).unwrap();
    let entities = table(vec![
        ("a", ent("a", "Widget", EntityType::Product)),
        ("b", ent("b", "Gadget", EntityType::Product)),
    ]);
    let t = Triple::new(
        ent("a", "Widget", EntityType::Product),
        Predicate::with_label(PredicateType::RelatedTo, "DEPENDS_ON"),
        ent("b", "Gadget", EntityType::Product),
    );
    let toks = tokens(&[("widget", "PRODUCT"), ("gadget", "PRODUCT")]);
    let sf = f.apply(&entities, &vec![t], &toks);
    assert_eq!(sf.kept_entities.len(), 2);
    assert!(sf.kept_triples.is_empty());
    assert!(sf.dropped_types.contains("DEPENDS_ON"));
}

fn custom_type() {
    let schema = Schema::new(vec!["GADGET".into()], vec![], vec![]);
    let f = SchemaFilter::build(&schema).unwrap();
    let entities = table(vec![("g", ent("g", "Widget X", EntityType::Other))]);
    let toks = tokens(&[("widget x", "GADGET")]);
    let sf = f.apply(&entities, &vec![], &toks);
    assert_eq!(sf.kept_entities.len(), 1, "custom type must match by raw token");
    assert_eq!(sf.dropped_records, 0);
}

fn all_dropped() {
    let schema = Schema::new(vec!["PRODUCT".into()], vec![], vec![]);
    let f = SchemaFilter::build(&schema).unwrap();
    let entities = table(vec![("o", ent("o", "Acme", EntityType::Organization))]);
    let toks = tokens(&[("acme", "ORGANIZATION")]);
    let sf = f.apply(&entities, &vec![], &toks);
    assert!(sf.all_dropped(), "every record fell outside the schema");
}

fn outside_the_seed() {
    let schema = Schema::new(vec!["PRODUCT".into()], vec!["USES".into()], vec![]);
    let f = SchemaFilter::build(&schema).unwrap();
    let entities = table(vec![
        ("p", ent("p", "Widget", EntityType::Product)),
        ("o", ent("o", "Acme", EntityType::Organization)),
    ]);
    let t = Triple::new(
        ent("p", "Widget", EntityType::Product),
        Predicate::with_label(PredicateType::RelatedTo, "DEPENDS_ON"),
        ent("o", "Acme", EntityType::Organization),
    );
    let toks = tokens(&[("widget", "PRODUCT"), ("acme", "ORGANIZATION")]);
    let (nodes, relations) = f.new_types(&entities, &vec![t], &toks);
    assert!(nodes.contains("ORGANIZATION"), "out-of-seed node must be proposed");
    assert!(!nodes.contains("PRODUCT"), "seed node is not a proposal");
    assert!(relations.contains("DEPENDS_ON"), "out-of-seed relation must be proposed");
    assert!(!relations.contains("USES"), "seed relation is not a proposal");
}

#[test]
fn agentic_policy_dispatch_by_mode_and_schema() {
    policy_dispatch();
}

#[test]
fn agentic_test_policy_dispatch_by_mode_and_schema() {
    policy_dispatch();
}

#[test]
fn agentic_drops_out_of_schema_entity_and_its_dependent_relation() {
    dependent_relation();
}

#[test]
fn agentic_test_drops_out_of_schema_entity_and_its_dependent_relation() {
    dependent_relation();
}

#[test]
fn agentic_drops_out_of_schema_relation_type_but_keeps_entities() {
    relation_type();
}

#[test]
fn agentic_test_drops_out_of_schema_relation_type_but_keeps_entities() {
    relation_type();
}

#[test]
fn agentic_custom_schema_type_matches_via_raw_token() {
    custom_type();
}

#[test]
fn agentic_test_custom_schema_type_matches_via_raw_token() {
    custom_type();
}

#[test]
fn agentic_all_dropped_flags_the_degenerate_slice() {
    all_dropped();
}

#[test]
fn agentic_test_all_dropped_flags_the_degenerate_slice() {
    all_dropped();
}

#[test]
fn agentic_evolving_collects_types_outside_the_seed() {
    outside_the_seed();
}

#[test]
fn agentic_test_evolving_collects_types_outside_the_seed() {
    outside_the_seed();
}

#[test]
fn new_types_proposal_log_is_none_when_nothing_proposed() {
    assert!(new_types_proposal_log(0, &NameSet::new(), &NameSet::new()).is_none());
}

#[test]
fn new_types_proposal_log_lists_nodes_and_relations_with_1_based_slice() {
    let line = new_types_proposal_log(2, &names(&["ORG"]), &names(&["DEPENDS_ON"])).unwrap();
    assert!(line.contains("slice 3"), "{line:?}");
    assert!(line.contains("2 new type(s)"), "{line:?}");
    assert!(line.contains("ORG, DEPENDS_ON"), "{line:?}");
}

#[test]
fn stamp_slice_citations_marks_entity_triple_and_both_endpoints() {
    let cite = Citation::new(Some("doc.md".into()), 5, 9);
    let mut parsed = empty_result();
    parsed.entities.insert("p".to_string(), ent("p", "Widget", EntityType::Product));
    parsed.triples.push(Triple::new(
        ent("s", "Src", EntityType::Product),
        Predicate::with_label(PredicateType::Uses, "USES"),
        ent("o", "Obj", EntityType::Organization),
    ));

    stamp_slice_citations(&mut parsed, &cite);

    let cites = parsed.entities.get("p").unwrap().metadata.get(CITATIONS_KEY).unwrap();
    assert_eq!(cites.as_array().unwrap().len(), 1);
    let t = &parsed.triples[0];
    for meta in [&t.metadata, &t.subject.metadata, &t.object.metadata] {
        assert!(
            meta.get(CITATIONS_KEY).is_some(),
            "triple endpoint metadata must be cited"
        );
    }
}

#[test]
fn stamp_slice_citations_does_not_duplicate_an_identical_citation() {
    let cite = Citation::new(Some("doc.md".into()), 1, 4);
    let mut parsed = empty_result();
    parsed.entities.insert("p".to_string(), ent("p", "Widget", EntityType::Product));

    stamp_slice_citations(&mut parsed, &cite);
    stamp_slice_citations(&mut parsed, &cite);

    let cites = parsed.entities.get("p").unwrap().metadata.get(CITATIONS_KEY).unwrap();
    assert_eq!(
        cites.as_array().unwrap().len(),
        1,
        "attach_citation skips exact duplicates"
    );
}

#[test]
fn commit_unconstrained_slice_merges_entities_and_appends_triples() {
    let mut all_entities = Table::new();
    let mut all_triples = Vec::new();
    let mut parsed_results = Vec::new();

    let mut parsed = empty_result();
    parsed.entities.insert("p".to_string(), ent("p", "Widget", EntityType::Product));
    parsed.triples.push(Triple::new(
        ent("p", "Widget", EntityType::Product),
        Predicate::with_label(PredicateType::Uses, "USES"),
        ent("o", "Acme", EntityType::Organization),
    ));

    commit_unconstrained_slice(
        &mut all_entities,
        &mut all_triples,
        &mut parsed_results,
        parsed,
    );
    assert_eq!(all_entities.len(), 1, "entity merged into the table");
    assert_eq!(all_triples.len(), 1, "triple appended");
    assert_eq!(parsed_results.len(), 1, "parse retained");
}

#[test]
fn commit_unconstrained_slice_first_occurrence_wins_on_repeat() {
    let mut all_entities = table(vec![("p", ent("p", "Widget", EntityType::Product))]);
    let mut all_triples = Vec::new();
    let mut parsed_results = Vec::new();

    let mut parsed = empty_result();
    parsed.entities.insert("p".to_string(), ent("p", "Widget repeated", EntityType::Product));
    parsed.entities.insert("q".to_string(), ent("q", "Gadget", EntityType::Product));

    commit_unconstrained_slice(
        &mut all_entities,
        &mut all_triples,
        &mut parsed_results,
        parsed,
    );
    assert_eq!(all_entities.len(), 2, "repeat + new = 2 entities");
    assert_eq!(all_entities.get("p").unwrap().label, "Widget");
    assert_eq!(all_entities.get("q").unwrap().label, "Gadget");
}

#[test]
fn slice_prompt_uses_1_based_index_and_total() {
    let p = AgenticExtractor::slice_prompt(0, 3, "hello");
    assert!(p.contains("Slice 1/3:"), "first slice must be 1-based: {p:?}");
    assert!(p.contains("hello"), "slice content is inlined");
    let p = AgenticExtractor::slice_prompt(2, 3, "tail");
    assert!(p.contains("Slice 3/3:"), "{p:?}");
}

#[test]
fn redo_prompt_carries_full_type_vocabulary() {
    let p = AgenticExtractor::redo_prompt("PRODUCT, ORG", "USES, FUNDS");
    assert!(p.contains("PRODUCT, ORG"), "{p:?}");
    assert!(p.contains("USES, FUNDS"), "{p:?}");
    assert!(p.contains("Redo THIS slice"), "{p:?}");
}

#[test]
fn drop_feedback_is_none_when_nothing_dropped() {
    assert!(AgenticExtractor::drop_feedback(0, &NameSet::new(), "X", "Y").is_none());
}

#[test]
fn drop_feedback_without_type_names_omits_the_dropped_slot() {
    let fb = AgenticExtractor::drop_feedback(2, &NameSet::new(), "PRODUCT", "USES").unwrap();
    assert!(fb.contains("discarded 2 record(s)"), "{fb:?}");
    assert!(!fb.contains("(dropped:"), "{fb:?}");
    assert!(fb.contains("PRODUCT"), "{fb:?}");
    assert!(fb.contains("USES"), "{fb:?}");
}

#[test]
fn drop_feedback_with_type_names_appends_dropped_csv() {
    let fb =
        AgenticExtractor::drop_feedback(3, &names(&["A", "B"]), "PRODUCT", "USES").unwrap();
    assert!(fb.contains("discarded 3 record(s)"), "{fb:?}");
    assert!(fb.contains("(dropped: A, B)"), "{fb:?}");
    assert!(fb.contains("A"), "{fb:?}");
    assert!(fb.contains("B"), "{fb:?}");
}

fn outcome() -> SessionOutcome {
    SessionOutcome {
        slices_count: 2,
        total_tool_uses: 3,
        entities: table(vec![("p", ent("p", "Widget", EntityType::Product))]),
        triples: Vec::new(),
        parsed_results: Vec::new(),
        total_dropped: 0,
        dropped_types: NameSet::new(),
        new_nodes: NameSet::new(),
        new_relations: NameSet::new(),
    }
}

fn config_for(mode: SchemaMode) -> ExtractionConfig {
    let mut c = AgenticExtractor::default_config();
    c.spec.mode = mode;
    c
}

fn filter() -> SchemaFilter {
    let schema = Schema::new(vec!["PRODUCT".into()], vec!["USES".into()], vec![]);
    SchemaFilter::build(&schema).expect("non-empty schema builds a filter")
}

#[test]
fn assemble_response_off_policy_has_no_schema_metadata() {
    let cfg = config_for(SchemaMode::Open);
    let resp = AgenticExtractor::assemble_response(
        outcome(),
        &SchemaPolicy::Off,
        SchemaMode::Open,
        &cfg,
    );
    assert_eq!(resp.metadata.get("tool_uses"), Some(&Json::Uint(3)));
    assert_eq!(resp.metadata.get("schema_mode"), Some(&Json::Text("open".into())));
    assert!(resp.metadata.get("schema_dropped_records").is_none());
    assert!(resp.metadata.get("new_schema_types").is_none());
    assert_eq!(resp.knowledge_graph.entities.len(), 1);
}

#[test]
fn assemble_response_fixed_policy_records_drops() {
    let cfg = config_for(SchemaMode::Fixed);
    let mut o = outcome();
    o.total_dropped = 4;
    o.dropped_types = names(&["PERSON", "ORGANIZATION"]);
    let resp = AgenticExtractor::assemble_response(
        o,
        &SchemaPolicy::Fixed(filter()),
        SchemaMode::Fixed,
        &cfg,
    );
    assert_eq!(resp.metadata.get("schema_dropped_records"), Some(&Json::Uint(4)));
    assert_eq!(
        resp.metadata.get("schema_dropped_types"),
        Some(&json(r#"["ORGANIZATION", "PERSON"]"#))
    );
    assert!(resp.metadata.get("new_schema_types").is_none());
}

#[test]
fn assemble_response_evolving_policy_proposes_new_types() {
    let cfg = config_for(SchemaMode::Evolving);
    let mut o = outcome();
    o.new_nodes = names(&["GADGET"]);
    o.new_relations = names(&["DEPENDS_ON"]);
    let resp = AgenticExtractor::assemble_response(
        o,
        &SchemaPolicy::Evolving(filter()),
        SchemaMode::Evolving,
        &cfg,
    );
    let nst = resp.metadata.get("new_schema_types").expect("evolving sets new_schema_types");
    assert_eq!(nst.get("nodes"), Some(&json(r#"["GADGET"]"#)));
    assert_eq!(nst.get("relations"), Some(&json(r#"["DEPENDS_ON"]"#)));
    assert_eq!(nst.get("attributes"), Some(&Json::Array(vec![])));
    assert!(resp.metadata.get("schema_dropped_records").is_none());
    assert!(resp.metadata.get("schema_dropped_types").is_none());
}

#[test]
fn assemble_response_carries_config_and_parsed_results() {
    let cfg = config_for(SchemaMode::Open);
    let resp = AgenticExtractor::assemble_response(
        outcome(),
        &SchemaPolicy::Off,
        SchemaMode::Open,
        &cfg,
    );
    assert!(resp.config.is_some(), "config is stamped on the response");
    assert!(resp.parsed_results.is_empty());
}

fn slices(of: &[&str]) -> Vec<Segment> {
    place_pieces(of.iter().map(|s| s.to_string()).collect(), None)
}

/// Hold a whole conversation; each answer took one look at the document.
fn converse(
    ex: &AgenticExtractor,
    slices: &Vec<Segment>,
    replies: &[Option<&str>],
) -> (Vec<String>, SessionOutcome) {
    let mut st = Session::new(slices.len());
    let mut asked = Vec::new();
    while let Some(q) = ex.next_question(slices, &st) {
        let reply = replies.get(asked.len()).copied().unwrap_or(Some(""));
        asked.push(q);
        ex.take_reply(slices, None, &mut st, reply.map(|r| (r, 1)));
    }
    (asked, st.finish(slices.len()))
}

#[test]
fn every_slice_is_asked_about_once() {
    let ex = AgenticExtractor::new("glmcc");
    let s = slices(&["one", "two"]);
    let (asked, o) = converse(
        &ex,
        &s,
        &[
            Some("(entity<|>A<|>person<|>x<|>)##"),
            Some("(entity<|>B<|>person<|>y<|>)##"),
        ],
    );
    assert_eq!(asked.len(), 2);
    assert!(asked[0].contains("Slice 1/2:") && asked[1].contains("Slice 2/2:"));
    assert_eq!(o.entities.len(), 2);
    assert_eq!(o.total_tool_uses, 2);
    assert_eq!(o.parsed_results.len(), 2);
    let said = AgenticExtractor::summary(&o, &SchemaPolicy::Off);
    assert_eq!(said, "agentic: 2 slice(s), 2 self-context tool call(s)");
}

#[test]
fn a_slice_outside_the_schema_is_asked_about_again() {
    let mut c = AgenticExtractor::default_config();
    c.spec.schema = Schema::new(vec!["PRODUCT".into()], vec!["USES".into()], vec![]);
    let ex = AgenticExtractor::with_config("glmcc", c).schema_mode(SchemaMode::Fixed);
    let s = slices(&["one"]);
    let (asked, o) = converse(
        &ex,
        &s,
        &[
            Some("(entity<|>Acme<|>organization<|>x<|>)##"),
            Some("(entity<|>Widget<|>product<|>y<|>)##"),
        ],
    );
    assert_eq!(asked.len(), 2);
    assert!(asked[1].contains("Redo THIS slice"));
    assert_eq!(o.entities.len(), 1);
    for t in &o.triples {
        assert!(o.entities.contains_key(&t.subject.id));
    }
}

#[test]
fn relations_of_orphans_are_asked_for_at_the_end() {
    let ex = AgenticExtractor::new("glmcc").relation_gleanings(2);
    let s = slices(&["one"]);
    let (asked, o) = converse(
        &ex,
        &s,
        &[
            Some("(entity<|>A<|>person<|>x<|>)##(entity<|>B<|>person<|>y<|>)##"),
            Some("(relationship<|>A<|>B<|>knows<|>d<|>0.9)##"),
        ],
    );
    assert_eq!(asked.len(), 2, "no entity is left without a relationship");
    assert_eq!(o.triples.len(), 1);
    let (asked, o) = converse(&ex, &s, &[None]);
    assert_eq!(asked.len(), 1);
    assert!(o.entities.is_empty());
}

#[test]
fn what_the_agent_is_told_at_the_start() {
    let ex = AgenticExtractor::new("glmcc");
    assert!(!ex.system_prompt().contains("{entity_types}"));
    assert!(ex.empty_schema_warning().is_none());
    assert!(ex.schema_mode(SchemaMode::Fixed).empty_schema_warning().is_some());
    let allowed = AgenticExtractor::allowed_tools();
    for t in AgenticExtractor::disallowed_tools() {
        assert!(!allowed.contains(&t), "{t}");
    }
    let ex = AgenticExtractor::new("glmcc");
    assert_eq!(ex.document_lines("a\nb\nc"), (1, 3));
    assert!(ex.check_prechunked(&vec![]).is_err());
}

#[test]
fn slices_are_joined_and_their_lines_covered() {
    let mut s = slices(&["one", "two"]);
    assert_eq!(join_segments(&s), "one\n\ntwo");
    assert_eq!(cover_lines(&s), None);
    s[0].set_line_span(4, 5);
    s[1].set_line_span(2, 9);
    assert_eq!(cover_lines(&s), Some((2, 9)));
}
