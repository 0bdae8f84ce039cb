//! Making one graph of two.

use kg_extract::backend::mock::MockBackend;
use kg_extract::backend::Message;
use kg_extract::citation::{attach_citation, Citation};
use kg_extract::coref::{edit_distance, normalize_label, token_set_similarity};
use kg_extract::fraction::Fraction;
use kg_extract::graph_output::to_dict;
use kg_extract::json::Json;
use kg_extract::merger::{
    canonical_predicate, combine_entities, dedup_graph_coref, find_similar_entities,
    generate_new_id, merge_all, merge_knowledge_graphs, merge_with_deduplication,
    merge_with_deduplication_strategy, merge_with_deduplication_strategy_coref,
    normalize_direction, read_description, MergeSession,
};
use kg_extract::table::Dup;
use kg_extract::types::{
    CorefMode, Entity, EntityType, KnowledgeGraph, MergeStrategy, Predicate, PredicateType, Triple,
};

fn fraction(t: &str) -> Fraction {
    Fraction::clamp(&t.chars().collect()).unwrap()
}

fn one(id: &str, label: &str, t: EntityType) -> KnowledgeGraph {
    let mut g = KnowledgeGraph::new();
    g.add_entity(Entity::new(id, label, t));
    g
}

fn fuzzy(g1: KnowledgeGraph, g2: KnowledgeGraph) -> KnowledgeGraph {
    merge_with_deduplication_strategy_coref(g1, g2, MergeStrategy::FieldUnion, CorefMode::Fuzzy)
}

fn keys(g: &KnowledgeGraph) -> Vec<String> {
    (0..g.entities.len()).map(|i| g.entities.key_at(i).clone()).collect()
}

#[test]
fn dedup_collision_rewrites_entity_id_to_new_key() {
    let mut g1 = KnowledgeGraph::new();
    g1.add_entity(Entity::new("e1", "Alice", EntityType::Person));

    let bob = Entity::new("e1", "Bob", EntityType::Person);
    let paris = Entity::new("e3", "Paris", EntityType::City);
    let mut g2 = KnowledgeGraph::new();
    g2.add_entity(bob.dup());
    g2.add_entity(paris.dup());
    g2.add_triple(Triple::new(bob.dup(), Predicate::new(PredicateType::LocatedIn), paris));

    let merged = merge_with_deduplication(g1, g2);

    for i in 0..merged.entities.len() {
        let (key, e) = (merged.entities.key_at(i), merged.entities.value_at(i));
        assert_eq!(&e.id, key, "entity '{}' stored under key '{}' has stale id", e.label, key);
    }
    let bob_key = (0..merged.entities.len())
        .find(|&i| merged.entities.value_at(i).label == "Bob")
        .map(|i| merged.entities.key_at(i).clone())
        .expect("Bob present");
    assert_ne!(bob_key, "e1", "Bob must get a fresh id, not Alice's e1");
    let t = merged
        .triples
        .iter()
        .find(|t| t.subject.label == "Bob")
        .expect("Bob relation kept");
    assert_eq!(t.subject.id, bob_key, "triple subject id must match Bob's table key");
}

#[test]
fn field_union_combines_description_confidence_metadata_and_type() {
    let mut a = Entity::new("e1", "Acme", EntityType::Organization);
    a.description = Some("short".into());
    a.confidence = Some(fraction("0.5"));
    a.metadata.insert("x".into(), Json::Uint(1));
    let mut b = Entity::new("e2", "acme", EntityType::Other);
    b.description = Some("a much longer, richer description".into());
    b.confidence = Some(fraction("0.9"));
    b.metadata.insert("y".into(), Json::Uint(2));

    let merged = combine_entities(MergeStrategy::FieldUnion, &a, &b, None);
    assert_eq!(merged.id, "e1", "must keep the canonical (existing) id");
    assert_eq!(merged.description.as_deref(), Some("a much longer, richer description"));
    assert_eq!(merged.confidence, Some(fraction("0.9")), "confidence is the max of both");
    assert!(merged.metadata.contains_key("x") && merged.metadata.contains_key("y"));
    assert_eq!(merged.entity_type, EntityType::Organization, "specific type beats Other");
}

#[test]
fn keep_incoming_replaces_but_preserves_canonical_id() {
    let a = Entity::new("e1", "Acme", EntityType::Organization);
    let mut b = Entity::new("e2", "Acme", EntityType::City);
    b.description = Some("new".into());
    let merged = combine_entities(MergeStrategy::KeepIncoming, &a, &b, None);
    assert_eq!(merged.id, "e1");
    assert_eq!(merged.entity_type, EntityType::City);
    assert_eq!(merged.description.as_deref(), Some("new"));
}

#[test]
fn field_union_dedup_keeps_the_richer_description() {
    let mut g1 = KnowledgeGraph::new();
    let mut a = Entity::new("e1", "Acme", EntityType::Organization);
    a.description = Some("HQ in NY".into());
    g1.add_entity(a);
    let mut g2 = KnowledgeGraph::new();
    let mut b = Entity::new("e9", "acme", EntityType::Organization);
    b.description = Some("a global manufacturing company".into());
    g2.add_entity(b);

    let merged = merge_with_deduplication_strategy(g1, g2, MergeStrategy::FieldUnion);
    assert_eq!(merged.entities.len(), 1, "same-label entities collapse");
    let e = merged.entities.value_at(0);
    assert_eq!(e.description.as_deref(), Some("a global manufacturing company"));
}

#[test]
fn normalize_label_strips_punctuation_articles_and_suffixes() {
    assert_eq!(normalize_label("OpenAI"), "openai");
    assert_eq!(normalize_label("Open AI"), "open ai");
    assert_eq!(normalize_label("Anthropic, PBC"), "anthropic");
    assert_eq!(normalize_label("Google Inc."), "google");
    assert_eq!(normalize_label("The New York Times"), "new york times");
    assert_eq!(normalize_label("Inc"), "inc");
}

#[test]
fn coref_off_keeps_surface_variants_separate() {
    let merged = merge_with_deduplication_strategy_coref(
        one("e1", "Anthropic", EntityType::Company),
        one("e2", "Anthropic, PBC", EntityType::Company),
        MergeStrategy::FieldUnion,
        CorefMode::Off,
    );
    assert_eq!(merged.entities.len(), 2, "Off mode must not fuse variants");
}

#[test]
fn coref_fuzzy_merges_normalized_variant_and_remaps_triples() {
    let anthropic = Entity::new("e1", "Anthropic", EntityType::Company);
    let dario = Entity::new("e2", "Dario", EntityType::Person);
    let mut g1 = KnowledgeGraph::new();
    g1.add_entity(anthropic.dup());
    g1.add_entity(dario.dup());
    g1.add_triple(Triple::new(anthropic, Predicate::new(PredicateType::FoundedBy), dario));

    let anthropic2 = Entity::new("e9", "Anthropic, PBC", EntityType::Company);
    let assistant = Entity::new("e8", "Assistant", EntityType::Technology);
    let mut g2 = KnowledgeGraph::new();
    g2.add_entity(anthropic2.dup());
    g2.add_entity(assistant.dup());
    g2.add_triple(Triple::new(anthropic2, Predicate::new(PredicateType::DevelopedBy), assistant));

    let merged = fuzzy(g1, g2);
    assert_eq!(merged.entities.len(), 3, "the two Anthropic nodes must fuse");
    assert!(merged.entities.contains_key("e1"), "canonical id survives");
    assert_eq!(merged.triples.len(), 2);
    for t in &merged.triples {
        assert!(
            t.subject.id == "e1" || t.object.id == "e1",
            "every triple must touch the canonical Anthropic id"
        );
    }
}

#[test]
fn coref_fuzzy_merges_near_typo_but_respects_type_and_length() {
    let merged = fuzzy(
        one("e1", "Anthropic", EntityType::Company),
        one("e2", "Antropic", EntityType::Company),
    );
    assert_eq!(merged.entities.len(), 1, "near-typo of a long name fuses");

    let merged = fuzzy(
        one("e1", "Go", EntityType::Technology),
        one("e2", "Rust", EntityType::Technology),
    );
    assert_eq!(merged.entities.len(), 2, "short labels stay distinct");
}

#[test]
fn token_set_similarity_subset_and_jaccard() {
    let ratio = |a: &str, b: &str| {
        token_set_similarity(a, b).map(|(n, d)| n as f64 / d as f64)
    };
    assert_eq!(ratio("new york", "new york times"), Some(1.0));
    let s = ratio("alpha beta gamma delta", "alpha beta gamma epsilon").unwrap();
    assert!((s - 0.6).abs() < 1e-9);
    assert_eq!(ratio("apple", "apple store"), None);
    assert_eq!(ratio("acme", "globex"), None);
}

#[test]
fn coref_fuzzy_token_set_merges_subset_and_jaccard_surfaces() {
    let merged = fuzzy(
        one("e1", "New York Times", EntityType::Organization),
        one("e2", "New York", EntityType::Organization),
    );
    assert_eq!(merged.entities.len(), 1, "multi-token subset fuses");
    assert!(merged.entities.contains_key("e1"));

    let merged = fuzzy(
        one("e1", "CSAIL AI Lab", EntityType::Organization),
        one("e2", "CSAIL Lab", EntityType::Organization),
    );
    assert_eq!(merged.entities.len(), 1, "token-overlapping surfaces fuse");
}

#[test]
fn coref_fuzzy_token_set_respects_type_gate_and_short_names() {
    let merged = fuzzy(
        one("e1", "New York Times", EntityType::Organization),
        one("e2", "New York", EntityType::City),
    );
    assert_eq!(merged.entities.len(), 2, "incompatible types stay apart");

    let merged = fuzzy(
        one("e1", "Apple Store", EntityType::Organization),
        one("e2", "Apple", EntityType::Organization),
    );
    assert_eq!(merged.entities.len(), 2, "one-token subset stays apart");
}

#[test]
fn coref_fuzzy_token_set_is_deterministic_earliest_wins() {
    let build = || {
        let mut g1 = KnowledgeGraph::new();
        g1.add_entity(Entity::new("e1", "New York Times", EntityType::Organization));
        g1.add_entity(Entity::new("e9", "New York Post", EntityType::Organization));
        fuzzy(g1, one("e2", "New York", EntityType::Organization))
    };
    let first = build();
    assert_eq!(first.entities.len(), 2);
    assert!(
        first.entities.contains_key("e1") && first.entities.contains_key("e9"),
        "incoming must fuse into the earliest-inserted candidate"
    );
    for _ in 0..8 {
        let again = build();
        assert_eq!(keys(&again), keys(&first));
    }
}

#[test]
fn coref_fuzzy_merges_abbreviation_with_suffixed_form() {
    let merged = fuzzy(
        one("e1", "Acme Corporation", EntityType::Organization),
        one("e2", "ACME", EntityType::Organization),
    );
    assert_eq!(merged.entities.len(), 1);
    assert!(merged.entities.contains_key("e1"));
}

#[test]
fn canonical_predicate_picks_first_declared_member_of_pair() {
    assert_eq!(canonical_predicate(PredicateType::Uses), PredicateType::IsUsedBy);
    assert_eq!(canonical_predicate(PredicateType::IsUsedBy), PredicateType::IsUsedBy);
    assert_eq!(canonical_predicate(PredicateType::ComposedOf), PredicateType::PartOf);
    assert_eq!(canonical_predicate(PredicateType::PartOf), PredicateType::PartOf);
    assert_eq!(canonical_predicate(PredicateType::Precedes), PredicateType::Succeeds);
    assert_eq!(canonical_predicate(PredicateType::Measures), PredicateType::MeasuredBy);
    assert_eq!(canonical_predicate(PredicateType::RelatedTo), PredicateType::RelatedTo);
}

#[test]
fn normalize_direction_flips_noncanonical_member_only() {
    let a = Entity::new("e1", "Alpha", EntityType::Organization);
    let b = Entity::new("e2", "Beta", EntityType::Technology);
    let mut kg = KnowledgeGraph::new();
    kg.add_triple(Triple::new(
        a.dup(),
        Predicate::with_label(PredicateType::Uses, "uses"),
        b.dup(),
    ));
    kg.add_triple(Triple::new(b.dup(), Predicate::new(PredicateType::IsUsedBy), a.dup()));
    kg.add_triple(Triple::new(a, Predicate::new(PredicateType::RelatedTo), b));

    normalize_direction(&mut kg);

    let keys: Vec<_> = kg.triples.iter().map(|t| t.to_tuple()).collect();
    assert_eq!(
        keys,
        vec![
            ("e2".to_string(), "IS_USED_BY".to_string(), "e1".to_string()),
            ("e2".to_string(), "IS_USED_BY".to_string(), "e1".to_string()),
            ("e1".to_string(), "RELATED_TO".to_string(), "e2".to_string()),
        ]
    );
    let flipped = &kg.triples[0];
    assert_eq!(flipped.subject.label, "Beta");
    assert_eq!(flipped.object.label, "Alpha");
    assert_eq!(flipped.predicate.raw_type, None);
    assert_eq!(flipped.predicate.label, None);
    assert_eq!(flipped.predicate.output_type(), "IS_USED_BY");
    assert_eq!(
        flipped.predicate.metadata.get("direction_normalized_from"),
        Some(&Json::Text("uses".into()))
    );
    assert_eq!(kg.triples[2].predicate.predicate_type, PredicateType::RelatedTo);
}

#[test]
fn direction_variants_dedup_to_one_edge_after_normalization() {
    let alpha = Entity::new("e1", "Alpha", EntityType::Organization);
    let beta = Entity::new("e2", "Beta", EntityType::Technology);
    let mut g1 = KnowledgeGraph::new();
    g1.add_entity(alpha.dup());
    g1.add_entity(beta.dup());
    let mut t1 = Triple::new(alpha.dup(), Predicate::new(PredicateType::Uses), beta.dup());
    attach_citation(&mut t1.metadata, &Citation::new(None, 1, 2));
    g1.add_triple(t1);

    let mut g2 = KnowledgeGraph::new();
    g2.add_entity(alpha.dup());
    g2.add_entity(beta.dup());
    let mut t2 = Triple::new(beta, Predicate::new(PredicateType::IsUsedBy), alpha);
    attach_citation(&mut t2.metadata, &Citation::new(None, 5, 6));
    g2.add_triple(t2);

    normalize_direction(&mut g1);
    normalize_direction(&mut g2);
    let merged = merge_with_deduplication(g1, g2);

    assert_eq!(merged.triples.len(), 1);
    let t = &merged.triples[0];
    assert_eq!(t.predicate.predicate_type, PredicateType::IsUsedBy);
    let citations = t.metadata.get("citations").unwrap().as_array().unwrap();
    assert_eq!(citations.len(), 2, "citations union across the variants");
}

#[test]
fn direction_variants_survive_dedup_when_normalization_off() {
    let alpha = Entity::new("e1", "Alpha", EntityType::Organization);
    let beta = Entity::new("e2", "Beta", EntityType::Technology);
    let mut g1 = KnowledgeGraph::new();
    g1.add_entity(alpha.dup());
    g1.add_entity(beta.dup());
    g1.add_triple(Triple::new(alpha.dup(), Predicate::new(PredicateType::Uses), beta.dup()));
    let mut g2 = KnowledgeGraph::new();
    g2.add_entity(alpha.dup());
    g2.add_entity(beta.dup());
    g2.add_triple(Triple::new(beta, Predicate::new(PredicateType::IsUsedBy), alpha));

    let merged = merge_with_deduplication(g1, g2);
    assert_eq!(merged.triples.len(), 2);
}

#[test]
fn normalize_direction_is_deterministic() {
    let build = || {
        let a = Entity::new("e1", "Alpha", EntityType::Organization);
        let b = Entity::new("e2", "Beta", EntityType::Technology);
        let c = Entity::new("e3", "Gamma", EntityType::Technology);
        let mut kg = KnowledgeGraph::new();
        kg.add_triple(Triple::new(a.dup(), Predicate::new(PredicateType::Uses), b.dup()));
        kg.add_triple(Triple::new(b.dup(), Predicate::new(PredicateType::IsUsedBy), a.dup()));
        kg.add_triple(Triple::new(b, Predicate::new(PredicateType::ComposedOf), c.dup()));
        kg.add_triple(Triple::new(c, Predicate::new(PredicateType::DerivesFrom), a));
        normalize_direction(&mut kg);
        kg
    };
    let first = build();
    for _ in 0..8 {
        let again = build();
        assert_eq!(
            again.triples.iter().map(|t| t.to_tuple()).collect::<Vec<_>>(),
            first.triples.iter().map(|t| t.to_tuple()).collect::<Vec<_>>()
        );
    }
}

#[test]
fn llm_strategy_synthesizes_merged_description() {
    let synthesized = "Acme: a global manufacturer headquartered in NY.";
    let mut backend = MockBackend::single(synthesized);
    let mut g1 = KnowledgeGraph::new();
    let mut a = Entity::new("e1", "Acme", EntityType::Organization);
    a.description = Some("HQ in NY".into());
    g1.add_entity(a);
    let mut g2 = KnowledgeGraph::new();
    let mut b = Entity::new("e2", "Acme", EntityType::Organization);
    b.description = Some("global manufacturer".into());
    g2.add_entity(b);

    let mut session = MergeSession::new(g1, g2, MergeStrategy::Llm, CorefMode::Off);
    while !session.is_done() {
        let written = match session.due() {
            Some(p) => read_description(&backend.complete(&vec![Message::user(&p.question())])),
            None => None,
        };
        session = session.take(written);
    }
    let merged = session.finish();
    assert_eq!(merged.entities.len(), 1);
    assert_eq!(merged.entities.value_at(0).description.as_deref(), Some(synthesized));
    let asked = &backend.seen_prompts()[0];
    assert!(asked.contains("HQ in NY") && asked.contains("global manufacturer"), "{asked}");
}

#[test]
fn a_description_is_written_only_where_two_differ() {
    let made = |id: &str, d: Option<&str>| {
        let mut g = KnowledgeGraph::new();
        let mut e = Entity::new(id, "Acme", EntityType::Other);
        e.description = d.map(|s| s.to_string());
        g.add_entity(e);
        g
    };
    let due = |a: Option<&str>, b: Option<&str>, s: MergeStrategy| {
        MergeSession::new(made("e1", a), made("e2", b), s, CorefMode::Off).due().is_some()
    };
    assert!(due(Some("x"), Some("y"), MergeStrategy::Llm));
    assert!(!due(Some("x"), Some("x"), MergeStrategy::Llm));
    assert!(!due(Some("x"), None, MergeStrategy::Llm));
    assert!(!due(Some("x"), Some("y"), MergeStrategy::FieldUnion));
    assert_eq!(read_description("  \n"), None);
    assert_eq!(read_description(" a b \n").as_deref(), Some("a b"));
    let left = MergeSession::new(
        made("e1", Some("x")),
        made("e2", Some("longer")),
        MergeStrategy::Llm,
        CorefMode::Off,
    )
    .finish();
    assert_eq!(left.entities.value_at(0).description.as_deref(), Some("longer"));
}

#[test]
fn a_merge_keeps_the_first_graph_and_adds_no_label_twice() {
    let mut g1 = one("[1]", "Acme", EntityType::Other);
    g1.add_entity(Entity::new("x", "Bolt", EntityType::Other));
    let mut g2 = one("x", "Cog", EntityType::Other);
    g2.add_entity(Entity::new("y", "ACME", EntityType::Other));
    let r = merge_with_deduplication(g1.dup(), g2);
    let labels: Vec<String> =
        (0..r.entities.len()).map(|i| r.entities.value_at(i).label.to_lowercase()).collect();
    assert_eq!(labels, ["acme", "bolt", "cog"]);
    assert_eq!(r.entities.get("x").unwrap().label, "Bolt");
    assert_eq!(r.entities.key_at(2), "[2]");
    let again = merge_with_deduplication(r.dup(), r.dup());
    assert_eq!(again.entities.len(), r.entities.len());
    for i in 0..r.entities.len() {
        assert_eq!(again.entities.key_at(i), r.entities.key_at(i));
        assert_eq!(again.entities.value_at(i).label, r.entities.value_at(i).label);
    }
}

#[test]
fn a_written_description_takes_the_place_of_both() {
    let synthesized = "Acme: a global manufacturer headquartered in NY.";
    let mut a = Entity::new("e1", "Acme", EntityType::Organization);
    a.description = Some("HQ in NY".into());
    let mut b = Entity::new("e2", "Acme", EntityType::Organization);
    b.description = Some("global manufacturer".into());
    let merged = combine_entities(MergeStrategy::Llm, &a, &b, Some(synthesized.into()));
    assert_eq!(merged.description.as_deref(), Some(synthesized));
}

#[test]
fn a_new_id_follows_the_greatest_number() {
    assert_eq!(generate_new_id(&KnowledgeGraph::new()), "[1]");
    let mut g = one("[7]", "A", EntityType::Other);
    g.add_entity(Entity::new("node12x99", "B", EntityType::Other));
    assert_eq!(generate_new_id(&g), "[100]");
    assert_eq!(generate_new_id(&one("a1b9", "A", EntityType::Other)), "[10]");
    assert_eq!(generate_new_id(&one("n0099", "A", EntityType::Other)), "[100]");
    assert_eq!(generate_new_id(&one("zero0", "A", EntityType::Other)), "[1]");
    let most = format!("[{}]", i64::MAX);
    assert_eq!(generate_new_id(&one(&most, "A", EntityType::Other)), "[9223372036854775808]");
    let long = one("e99999999999999999999", "A", EntityType::Other);
    assert_eq!(generate_new_id(&long), "[100000000000000000000]");
}

#[test]
fn graphs_are_merged_by_id_or_by_name() {
    let by_id = merge_knowledge_graphs(
        one("e1", "Acme", EntityType::Other),
        one("e2", "ACME", EntityType::Other),
        false,
    );
    assert_eq!(by_id.entities.len(), 2);
    let by_name = merge_knowledge_graphs(
        one("e1", "Acme", EntityType::Other),
        one("e2", "ACME", EntityType::Other),
        true,
    );
    assert_eq!(by_name.entities.len(), 1);
    assert_eq!(merge_all(vec![]).entities.len(), 0);
    let all = merge_all(vec![
        one("e1", "A", EntityType::Other),
        one("e2", "B", EntityType::Other),
        one("e1", "A again", EntityType::Other),
    ]);
    assert_eq!(keys(&all), ["e1", "e2"]);
    assert_eq!(all.get_entity("e1").unwrap().label, "A");
}

#[test]
fn a_graph_is_freed_of_its_own_duplicates() {
    let mut g = one("e1", "Acme Corp.", EntityType::Organization);
    g.add_entity(Entity::new("e2", "Acme Corp", EntityType::Organization));
    let off = dedup_graph_coref(g.dup(), MergeStrategy::KeepExisting, CorefMode::Off);
    assert_eq!(off.entities.len(), 2);
    let on = dedup_graph_coref(g, MergeStrategy::KeepExisting, CorefMode::Fuzzy);
    assert_eq!(on.entities.len(), 1);
}

#[test]
fn entities_with_one_name_are_found() {
    let e = Entity::new("e1", "Acme", EntityType::Other);
    let others = vec![
        Entity::new("e1", "Acme", EntityType::Other),
        Entity::new("e2", "ACME", EntityType::Other),
        Entity::new("e3", "Acme Inc", EntityType::Other),
    ];
    assert_eq!(find_similar_entities(&e, &others), ["e2"]);
}

#[test]
fn edits_are_counted() {
    assert_eq!(edit_distance("kitten", "sitting"), 3);
    assert_eq!(edit_distance("", "abc"), 3);
    assert_eq!(edit_distance("same", "same"), 0);
    assert_eq!(edit_distance("ab", "ba"), edit_distance("ba", "ab"));
}

#[test]
fn no_citation_is_lost_when_records_are_combined() {
    for strategy in [
        MergeStrategy::KeepExisting,
        MergeStrategy::KeepIncoming,
        MergeStrategy::FieldUnion,
        MergeStrategy::Llm,
    ] {
        let mut a = Entity::new("e1", "Acme", EntityType::Organization);
        let mut b = Entity::new("e2", "Acme", EntityType::Organization);
        attach_citation(&mut a.metadata, &Citation::new(None, 1, 2));
        attach_citation(&mut b.metadata, &Citation::new(None, 5, 6));
        let one = combine_entities(strategy, &a, &b, None);
        assert_eq!(one.id, "e1");
        assert_eq!(one.metadata.get("citations").unwrap().as_array().unwrap().len(), 2);
    }
}

#[test]
fn a_graph_merged_with_itself_stays() {
    let (alice, paris) =
        (Entity::new("e1", "Alice", EntityType::Person), Entity::new("e2", "Paris", EntityType::City));
    let graph = |twice: bool| {
        let mut g = KnowledgeGraph::new();
        g.add_entity(alice.dup());
        g.add_entity(paris.dup());
        let lives = Predicate::new(PredicateType::LocatedIn);
        g.add_triple(Triple::new(alice.dup(), lives.dup(), paris.dup()));
        if twice {
            g.add_triple(Triple::new(alice.dup(), lives, paris.dup()));
        }
        g
    };
    for twice in [false, true] {
        let merged = merge_with_deduplication(graph(twice), graph(twice));
        assert_eq!(to_dict(&merged), to_dict(&graph(twice)));
    }
}
