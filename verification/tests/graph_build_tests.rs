//! Building a graph entity by entity.

use kg_extract::graph_build::{
    build_predicate, entity_id, id_of_digest, parse_entity_type, should_swap_passive_by,
    GraphBuilder,
};
use kg_extract::graph_output::{get_mermaid_code, get_stats, to_node_link};
use kg_extract::fraction::Fraction;
use kg_extract::json::Json;
use kg_extract::table::Table;
use kg_extract::types::{Entity, EntityType, MergeStrategy, Predicate, PredicateType};

fn passive_by() {
    let org = Entity::new("org", "Helio Systems", EntityType::Organization);
    let product = Entity::new("product", "Aurora Portal", EntityType::Product);
    let predicate = Predicate::new(PredicateType::DevelopedBy);

    assert!(should_swap_passive_by(&org, &predicate, &product));
    assert!(!should_swap_passive_by(&product, &predicate, &org));
}

fn evidenced_by() {
    let mut logs = Entity::new("logs", "Audit Logs", EntityType::Other);
    logs.description = Some("Operational records used as evidence.".into());
    let mut reports = Entity::new("reports", "Incident Reports", EntityType::Other);
    reports.description = Some("Reports that are evidenced by logs.".into());
    let predicate = Predicate::new(PredicateType::EvidencedBy);

    assert!(should_swap_passive_by(&logs, &predicate, &reports));
    assert!(!should_swap_passive_by(&reports, &predicate, &logs));
}

fn evidenced_by_cross() {
    let mut reports = Entity::new("reports", "Incident Reports", EntityType::Other);
    reports.description = Some("Reports evidenced by Audit Logs.".into());
    let mut logs = Entity::new("logs", "Audit Logs", EntityType::Other);
    logs.description = Some("Audit records evidencing Incident Reports.".into());
    let predicate = Predicate::new(PredicateType::EvidencedBy);

    assert!(!should_swap_passive_by(&reports, &predicate, &logs));
}

fn ids() {
    assert_eq!(entity_id("OpenAI"), "entity_0523b132");
    assert_eq!(entity_id("GPT-4"), "entity_f7559929");
    assert_eq!(entity_id("Alice"), "entity_64489c85");
    let id = entity_id("arbitrary name");
    assert!(id.starts_with("entity_"));
    assert_eq!(id.len(), "entity_".len() + 8);
    assert!(id["entity_".len()..].chars().all(|c| c.is_ascii_hexdigit()));
    assert_ne!(entity_id("Alice"), entity_id("alice"));
    assert_eq!(entity_id("OpenAI"), entity_id("OpenAI"));
}

fn unknown_types() {
    assert_eq!(parse_entity_type(""), EntityType::Other);
    assert_eq!(parse_entity_type("   "), EntityType::Other, "input is trimmed first");
    assert_eq!(
        parse_entity_type("totally unknown"),
        EntityType::Other,
        "unknown tokens fall back via from_loose"
    );
}

fn known_types() {
    assert_eq!(parse_entity_type("PERSON"), EntityType::Person);
    assert_eq!(parse_entity_type("  ORGANIZATION  "), EntityType::Organization);
    assert_eq!(parse_entity_type("Person"), EntityType::Person);
}

fn predicates() {
    let p = build_predicate("developed by");
    assert_eq!(p.predicate_type, PredicateType::DevelopedBy);
    assert_eq!(p.label.as_deref(), Some("developed by"));
    assert_eq!(p.raw_type.as_deref(), Some("developed by"));
    assert_eq!(p.output_type(), "developed by", "raw label wins over the normalised value");

    assert_eq!(build_predicate("DEVELOPED_BY").predicate_type, PredicateType::DevelopedBy);
    assert_eq!(build_predicate("is-used-by").predicate_type, PredicateType::IsUsedBy);
    let unk = build_predicate("utterly fabricated relation");
    assert_eq!(unk.predicate_type, PredicateType::RelatedTo);
    assert_eq!(unk.label.as_deref(), Some("utterly fabricated relation"));
}

fn dedup() {
    let mut b = GraphBuilder::new();
    let id1 = b.add_entity_with_raw_type(
        "OpenAI",
        EntityType::Organization,
        None,
        None,
        Table::new(),
    );
    let id2 = b.add_entity_with_raw_type("openai", EntityType::Company, None, None, Table::new());
    assert_eq!(id1, id2);
    assert_eq!(id1, entity_id("OpenAI"));
    let g = b.into_graph();
    assert_eq!(g.entities.len(), 1, "case-variant names collapse to one entity");
    let e = g.entities.value_at(0);
    assert_eq!(e.entity_type, EntityType::Organization);
    assert_eq!(e.label, "OpenAI");
}

fn dangling() {
    let mut b = GraphBuilder::new();
    b.add_entity_with_raw_type("A", EntityType::Other, None, None, Table::new());
    let added =
        b.add_relation("A", Predicate::new(PredicateType::Uses), "Ghost", None, Table::new());
    assert!(!added, "a relation to an unknown endpoint must be dropped");
    let added2 = b.add_relation("a", Predicate::new(PredicateType::Uses), "A", None, Table::new());
    assert!(added2);
    let g = b.into_graph();
    assert_eq!(
        g.triples.len(),
        1,
        "only the resolved relation survives; the dangling one is absent"
    );
}

fn field_union() {
    let mut b = GraphBuilder::new().merge_strategy(MergeStrategy::FieldUnion);
    b.add_entity_with_raw_type(
        "Acme",
        EntityType::Organization,
        None,
        Some("short".into()),
        Table::new(),
    );
    b.add_entity_with_raw_type(
        "acme",
        EntityType::Other,
        None,
        Some("a much longer, richer description".into()),
        Table::new(),
    );
    let g = b.into_graph();
    assert_eq!(g.entities.len(), 1);
    let e = g.entities.value_at(0);
    assert_eq!(e.entity_type, EntityType::Organization, "specific type beats Other");
    assert_eq!(
        e.description.as_deref(),
        Some("a much longer, richer description"),
        "FieldUnion keeps the richer description"
    );
    assert_eq!(e.id, entity_id("Acme"));
}

fn attributes() {
    let mut b = GraphBuilder::new();
    b.set_attribute("Ghost", "k".into(), Json::Uint(1));
    assert!(b.into_graph().entities.is_empty());

    let mut b = GraphBuilder::new();
    b.add_entity_with_raw_type("Node", EntityType::Other, None, None, Table::new());
    b.set_attribute("node", "score".into(), Json::Uint(7));
    let g = b.into_graph();
    let e = g.entities.value_at(0);
    assert_eq!(e.metadata.get("score"), Some(&Json::Uint(7)));
}

#[test]
fn graph_build_passive_by_relation_swaps_actor_to_non_actor_direction() {
    passive_by();
}

#[test]
fn graph_build_tests_passive_by_relation_swaps_actor_to_non_actor_direction() {
    passive_by();
}

#[test]
fn graph_build_evidenced_by_swaps_evidence_source_to_claim_direction() {
    evidenced_by();
}

#[test]
fn graph_build_tests_evidenced_by_swaps_evidence_source_to_claim_direction() {
    evidenced_by();
}

#[test]
fn graph_build_evidenced_by_does_not_swap_correct_direction_from_cross_descriptions() {
    evidenced_by_cross();
}

#[test]
fn graph_build_tests_evidenced_by_does_not_swap_correct_direction_from_cross_descriptions() {
    evidenced_by_cross();
}

#[test]
fn graph_build_entity_id_is_entity_prefix_plus_first_eight_md5_hex() {
    ids();
}

#[test]
fn graph_build_tests_entity_id_is_entity_prefix_plus_first_eight_md5_hex() {
    ids();
}

#[test]
fn graph_build_parse_entity_type_empty_or_unknown_falls_back_to_other() {
    unknown_types();
}

#[test]
fn graph_build_tests_parse_entity_type_empty_or_unknown_falls_back_to_other() {
    unknown_types();
}

#[test]
fn graph_build_parse_entity_type_exact_parse_then_loose_alias() {
    known_types();
}

#[test]
fn graph_build_tests_parse_entity_type_exact_parse_then_loose_alias() {
    known_types();
}

#[test]
fn graph_build_build_predicate_normalises_separators_and_keeps_raw_label() {
    predicates();
}

#[test]
fn graph_build_tests_build_predicate_normalises_separators_and_keeps_raw_label() {
    predicates();
}

#[test]
fn graph_build_graph_builder_dedups_entities_case_insensitively_with_stable_id() {
    dedup();
}

#[test]
fn graph_build_tests_graph_builder_dedups_entities_case_insensitively_with_stable_id() {
    dedup();
}

#[test]
fn graph_build_graph_builder_add_relation_drops_dangling_and_resolves_case_insensitively() {
    dangling();
}

#[test]
fn graph_build_tests_graph_builder_add_relation_drops_dangling_and_resolves_case_insensitively() {
    dangling();
}

#[test]
fn graph_build_graph_builder_field_union_keeps_richer_description_and_specific_type() {
    field_union();
}

#[test]
fn graph_build_tests_graph_builder_field_union_keeps_richer_description_and_specific_type() {
    field_union();
}

#[test]
fn graph_build_graph_builder_set_attribute_is_noop_on_unknown_case_insensitive_on_known() {
    attributes();
}

#[test]
fn graph_build_tests_graph_builder_set_attribute_is_noop_on_unknown_case_insensitive_on_known() {
    attributes();
}

#[test]
fn an_id_is_the_head_of_a_digest() {
    assert_eq!(id_of_digest("0123456789abcdef0123456789abcdef"), "entity_01234567");
}

#[test]
fn what_is_known_of_a_relation_is_kept() {
    let mut b = GraphBuilder::new();
    b.add_entity_with_raw_type("A", EntityType::Other, None, None, Table::new());
    b.add_entity_with_raw_type("B", EntityType::Other, None, None, Table::new());
    let mut m = Table::new();
    m.insert("page".to_string(), Json::Uint(3));
    let half = Fraction::clamp(&"0.5".chars().collect()).unwrap();
    assert!(b.add_relation("A", build_predicate("uses"), "B", Some(half), m));
    let g = b.into_graph();
    assert_eq!(g.triples[0].confidence, Fraction::clamp(&"0.50".chars().collect()));
    assert_eq!(g.triples[0].metadata.get("page"), Some(&Json::Uint(3)));
}

#[test]
fn types_are_read_back_by_their_names() {
    for t in EntityType::all() {
        assert_eq!(EntityType::parse(t.value()), Some(t));
        assert_eq!(EntityType::from_loose(&t.value().to_lowercase().replace('_', " ")), t);
    }
    for t in PredicateType::all() {
        assert_eq!(PredicateType::parse(t.value()), Some(t));
    }
    let all = EntityType::all();
    assert!((0..all.len()).all(|i| !all[..i].contains(&all[i])));
    let all = PredicateType::all();
    assert!((0..all.len()).all(|i| !all[..i].contains(&all[i])));
    assert_eq!(EntityType::parse("person"), None);
    assert_eq!(PredicateType::parse(""), None);
}

#[test]
fn a_graph_is_shown_in_several_forms() {
    let mut b = GraphBuilder::new();
    b.add_entity_with_raw_type("Acme", EntityType::Organization, None, None, Table::new());
    b.add_entity_with_raw_type("Bolt", EntityType::Product, None, None, Table::new());
    assert!(!b.add_relation("Acme", Predicate::new(PredicateType::Uses), "Cog", None, Table::new()));
    assert!(b.add_relation("acme", Predicate::new(PredicateType::Uses), "BOLT", None, Table::new()));
    let kg = b.into_graph();
    let (a, o) = (entity_id("Acme"), entity_id("Bolt"));
    let code = get_mermaid_code(&kg);
    assert!(code.starts_with("graph TD\n    "), "{code}");
    assert!(code.contains(&format!("{a}[\"Acme\"] -->|\"")), "{code}");
    assert!(code.ends_with(&format!("\"| {o}[\"Bolt\"]")), "{code}");
    let shown = to_node_link(&kg);
    match shown.get("links") {
        Some(Json::Array(links)) => {
            assert_eq!(links.len(), 1);
            assert_eq!(links[0].text_at("source"), Some(a));
            assert_eq!(links[0].text_at("target"), Some(o));
            assert_eq!(links[0].text_at("key").as_deref(), Some("USES"));
        }
        _ => panic!("no links"),
    }
    assert_eq!(shown.array_at("nodes").unwrap().len(), 2);
    assert_eq!(get_stats(&kg).get("num_triples"), Some(&Json::Uint(1)));
}
