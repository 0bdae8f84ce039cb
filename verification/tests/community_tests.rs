//! Communities of entities, and reports on them.

use kg_extract::backend::mock::MockBackend;
use kg_extract::backend::Message;
use kg_extract::community::{
    communities_json, communities_json_with_summaries, community_prompt, detect_communities,
    hierarchy_json, parse_summary_response, summaries_from_replies, summary_requests,
    to_community_graph, truncate_chars, CommunitySummary, Partition,
};
use kg_extract::json::Json;
use kg_extract::merger::{merge_with_deduplication, normalize_direction};
use kg_extract::table::Dup;
use kg_extract::types::{
    Entity, EntityType, KnowledgeGraph, Predicate, PredicateType, Triple,
};

fn triple(subj: &str, obj: &str) -> Triple {
    Triple::new(
        Entity::new(subj, subj, EntityType::Other),
        Predicate::new(PredicateType::RelatedTo),
        Entity::new(obj, obj, EntityType::Other),
    )
}

fn triangles() -> KnowledgeGraph {
    let mut kg = KnowledgeGraph::new();
    for (s, o) in [("a", "b"), ("b", "c"), ("c", "a"), ("x", "y"), ("y", "z"), ("z", "x")] {
        kg.add_triple(triple(s, o));
    }
    kg
}

fn halves() -> Partition {
    Partition { labels: vec![0, 0, 0, 1, 1, 1], quality: None }
}

#[test]
fn maps_entities_and_triples_onto_a_community_graph() {
    let kg = triangles();
    let (ids, graph) = to_community_graph(&kg);
    assert_eq!(ids.len(), 6);
    assert_eq!(graph.num_nodes(), 6);
    assert_eq!(graph.edges().len(), 6);
}

fn weight(edges: &[(usize, usize)], a: usize, b: usize) -> f64 {
    edges
        .iter()
        .filter(|&&(s, o)| (s == a && o == b) || (s == b && o == a))
        .map(|_| 1.0)
        .sum()
}

#[test]
fn multiplicity_produces_parallel_weighted_edges() {
    let mut kg = KnowledgeGraph::new();
    for _ in 0..3 {
        kg.add_triple(triple("a", "b"));
    }
    kg.add_triple(triple("b", "c"));

    let (ids, graph) = to_community_graph(&kg);
    let pos = |id: &str| ids.iter().position(|i| i == id).unwrap();
    let (a, b, c) = (pos("a"), pos("b"), pos("c"));
    assert_eq!(graph.edges().len(), 4, "every triple keeps its own edge");
    assert_eq!(
        weight(graph.edges(), a, b),
        3.0,
        "multiplicity is preserved as summed weight"
    );
    assert_eq!(weight(graph.edges(), b, c), 1.0);
}

#[test]
fn canonical_direction_merges_direction_variant_multiplicity() {
    let ent = |id: &str| Entity::new(id, id, EntityType::Other);
    let directed =
        |s: &str, p: PredicateType, o: &str| Triple::new(ent(s), Predicate::new(p), ent(o));

    let mut g1 = KnowledgeGraph::new();
    g1.add_triple(directed("a", PredicateType::Uses, "b"));
    let mut g2 = KnowledgeGraph::new();
    g2.add_triple(directed("b", PredicateType::IsUsedBy, "a"));
    g2.add_triple(directed("a", PredicateType::PartOf, "b"));
    normalize_direction(&mut g1);
    normalize_direction(&mut g2);

    let kg = merge_with_deduplication(g1, g2);
    assert_eq!(kg.triples.len(), 2, "direction variants collapse to one edge");

    let (ids, graph) = to_community_graph(&kg);
    let pos = |id: &str| ids.iter().position(|i| i == id).unwrap();
    let (a, b) = (pos("a"), pos("b"));
    assert_eq!(graph.edges().len(), 2);
    assert_eq!(
        weight(graph.edges(), a, b),
        2.0,
        "merged variant (1.0) + distinct PART_OF edge (1.0), not 3.0"
    );
}

#[test]
fn communities_json_groups_members_by_community() {
    let value = communities_json(&triangles(), &halves());
    assert_eq!(value.get("num_communities"), Some(&Json::Uint(2)));
    assert_eq!(
        value.get("quality"),
        Some(&Json::Null),
        "label propagation reports no quality score"
    );
    let communities = value.object_at("communities").unwrap();
    assert_eq!(communities.len(), 2);
    let mut groups: Vec<Vec<String>> = communities
        .iter()
        .map(|(_, v)| {
            v.as_array()
                .unwrap()
                .iter()
                .map(|id| id.as_text().unwrap().to_string())
                .collect()
        })
        .collect();
    for g in &mut groups {
        g.sort();
    }
    groups.sort();
    assert_eq!(
        groups,
        vec![
            vec!["a".to_string(), "b".to_string(), "c".to_string()],
            vec!["x".to_string(), "y".to_string(), "z".to_string()],
        ]
    );
}

#[test]
fn each_entity_has_the_label_of_its_place() {
    let (ids, _) = to_community_graph(&triangles());
    let labels = detect_communities(&ids, &halves());
    assert_eq!(labels.len(), 6);
    assert_eq!(labels[0], ("a".to_string(), 0));
    assert_eq!(labels[5], ("z".to_string(), 1));
    assert_eq!(halves().community_of(3), 1);
}

#[test]
fn levels_are_numbered_from_coarse_to_fine() {
    let kg = triangles();
    let levels = vec![
        Partition { labels: vec![0; 6], quality: Some("0.0".into()) },
        Partition { labels: vec![0, 0, 0, 1, 1, 1], quality: Some("0.5".into()) },
    ];
    let value = hierarchy_json(&kg, &levels, None);
    assert_eq!(value.text_at("detector").as_deref(), Some("hierarchical-leiden"));
    assert_eq!(value.get("num_levels"), Some(&Json::Uint(2)));
    let written = value.array_at("levels").unwrap();
    for (i, level) in written.iter().enumerate() {
        assert_eq!(level.get("level"), Some(&Json::Uint(i as u64)));
        let communities = level.object_at("communities").unwrap();
        assert_eq!(level.get("num_communities"), Some(&Json::Uint(communities.len() as u64)));
        let covered: usize = communities.iter().map(|(_, m)| m.as_array().unwrap().len()).sum();
        assert_eq!(covered, 6, "every level covers every entity");
    }
    assert_eq!(written[1].get("quality"), Some(&Json::Decimal("0.5".into())));
    assert_eq!(value, hierarchy_json(&kg, &levels, None));
}

#[test]
fn members_are_written_in_order() {
    let mut kg = KnowledgeGraph::new();
    for id in ["n2", "n10", "n1"] {
        kg.add_entity(Entity::new(id, id, EntityType::Other));
    }
    let value = communities_json(&kg, &Partition { labels: vec![7, 7, 7], quality: None });
    let members: Vec<String> = value.get("communities").unwrap().array_at("7").unwrap()
        .iter()
        .map(|m| m.as_text().unwrap().clone())
        .collect();
    assert_eq!(members, ["n1", "n10", "n2"]);
}

fn entity(id: &str, desc: &str) -> Entity {
    let mut e = Entity::new(id, id, EntityType::Other);
    e.description = Some(desc.into());
    e
}

fn triple_rich(subj: &Entity, obj: &Entity) -> Triple {
    Triple::new(subj.dup(), Predicate::new(PredicateType::RelatedTo), obj.dup())
}

/// Ask about each community, and write down what is answered.
fn asked(kg: &KnowledgeGraph, answer: impl Fn(&str) -> Option<String>) -> (Json, Vec<String>) {
    let partition = halves();
    let (ids, _) = to_community_graph(kg);
    let requests = summary_requests(kg, &ids, &partition);
    let replies: Vec<Option<String>> = requests.iter().map(|(_, q)| answer(q)).collect();
    let summaries = summaries_from_replies(&requests, &replies);
    let questions = requests.into_iter().map(|(_, q)| q).collect();
    (communities_json_with_summaries(kg, &partition, &summaries), questions)
}

#[test]
fn summaries_render_as_objects_with_name_and_summary() {
    let answer = r#"{"name": "Triangle Report", "summary": "Three tightly linked nodes."}"#;
    let (value, _) = asked(&triangles(), |_| Some(answer.to_string()));
    let communities = value.object_at("communities").unwrap();
    assert_eq!(communities.len(), 2);
    for (_, c) in communities {
        assert_eq!(c.text_at("name").as_deref(), Some("Triangle Report"));
        assert_eq!(c.text_at("summary").as_deref(), Some("Three tightly linked nodes."));
        assert_eq!(c.array_at("members").unwrap().len(), 3);
    }
}

#[test]
fn summary_prompts_and_output_are_deterministic() {
    let kg = triangles();
    let reply = r#"{"name": "N", "summary": "S."}"#;
    let (first, prompts) = asked(&kg, |_| Some(reply.to_string()));
    let (second, _) = asked(&kg, |_| Some(reply.to_string()));
    assert_eq!(first, second, "same graph + same replies → identical JSON");
    assert_eq!(prompts.len(), 2, "one completion per community");
    let zero = first.get("communities").unwrap().get("0").unwrap();
    for m in zero.array_at("members").unwrap() {
        let id = m.as_text().unwrap();
        assert!(
            prompts[0].contains(&format!("- {id} (OTHER)")),
            "first prompt must cover community 0 member {id}"
        );
    }
}

#[test]
fn concurrent_partial_failure_degrades_only_that_community() {
    let (value, _) = asked(&triangles(), |q| {
        if q.contains("- a (") {
            None
        } else {
            Some(r#"{"name": "ok", "summary": "fine."}"#.to_string())
        }
    });
    for (_, c) in value.object_at("communities").unwrap() {
        let has_a =
            c.array_at("members").unwrap().iter().any(|m| m.as_text().unwrap().as_str() == "a");
        if has_a {
            assert_eq!(c.get("name"), Some(&Json::Null), "failed community degrades to null");
            assert_eq!(c.get("summary"), Some(&Json::Null));
        } else {
            assert_eq!(c.text_at("name").as_deref(), Some("ok"));
            assert_eq!(c.text_at("summary").as_deref(), Some("fine."));
        }
    }
}

#[test]
fn failing_backend_degrades_to_null_fields() {
    let (value, _) = asked(&triangles(), |_| None);
    let communities = value.object_at("communities").unwrap();
    assert_eq!(communities.len(), 2, "degradation keeps every community");
    for (_, c) in communities {
        assert_eq!(c.get("name"), Some(&Json::Null));
        assert_eq!(c.get("summary"), Some(&Json::Null));
        assert_eq!(c.array_at("members").unwrap().len(), 3);
    }
}

#[test]
fn unparseable_reply_degrades_to_null_fields() {
    let (value, _) = asked(&triangles(), |_| Some("no json here".to_string()));
    for (_, c) in value.object_at("communities").unwrap() {
        assert_eq!(c.get("name"), Some(&Json::Null));
        assert_eq!(c.get("summary"), Some(&Json::Null));
    }
}

#[test]
fn reports_reach_every_level() {
    let kg = triangles();
    let (ids, _) = to_community_graph(&kg);
    let levels = vec![Partition { labels: vec![0; 6], quality: None }, halves()];
    let mut backend = MockBackend::single(r#"{"name": "F", "summary": "S."}"#);
    let mut all = Vec::new();
    for level in &levels {
        let requests = summary_requests(&kg, &ids, level);
        let replies = requests
            .iter()
            .map(|(_, q)| Some(backend.complete(&vec![Message::user(q)])))
            .collect();
        all.push(summaries_from_replies(&requests, &replies));
    }
    assert_eq!(backend.seen_prompts().len(), 3, "one completion per community per level");
    let value = hierarchy_json(&kg, &levels, Some(&all));
    for level in value.array_at("levels").unwrap() {
        for (_, c) in level.object_at("communities").unwrap() {
            assert_eq!(c.text_at("name").as_deref(), Some("F"));
            assert_eq!(c.text_at("summary").as_deref(), Some("S."));
        }
    }
}

#[test]
fn prompt_truncates_members_triples_and_descriptions() {
    let long_desc = "d".repeat(500);
    let entities: Vec<Entity> = (0..40).map(|i| entity(&format!("n{i}"), &long_desc)).collect();
    let mut kg = KnowledgeGraph::new();
    for w in entities.windows(2) {
        kg.add_triple(triple_rich(&w[0], &w[1]));
    }
    let member_ids: Vec<String> = entities.iter().map(|e| e.id.clone()).collect();
    let prompt = community_prompt(&kg, &member_ids);
    assert!(prompt.contains("(+8 more entities)"), "member overflow is noted");
    assert!(prompt.contains("(+15 more relationships)"), "triple overflow is noted");
    assert!(!prompt.contains(&"d".repeat(200)), "descriptions are truncated");
    assert_eq!(prompt, community_prompt(&kg, &member_ids));
}

#[test]
fn reports_are_read_out_of_answers() {
    let s: CommunitySummary =
        parse_summary_response("```json\n{\"name\": \" N \", \"summary\": \"\"}\n```");
    assert_eq!(s.name.as_deref(), Some("N"));
    assert_eq!(s.summary, None);
}

#[test]
fn long_texts_are_cut_off() {
    assert_eq!(truncate_chars("  ab  ", 3), "ab");
    let cut = truncate_chars("abcdef", 3);
    assert!(cut.starts_with("abc") && !cut.contains('d'));
}
