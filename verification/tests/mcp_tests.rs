//! A store of graphs, driven one change at a time, with its files kept in memory.

use std::collections::BTreeMap;

use kg_extract::citation::CITATIONS_KEY;
use kg_extract::fraction::Fraction;
use kg_extract::graph_build::entity_id;
use kg_extract::json::{extract_json_from_response, Json};
use kg_extract::mcp::query::report;
use kg_extract::mcp::source::citation_from_parts;
use kg_extract::mcp::{CitedSource, KgStore, SchemaPolicy, SourceCitation};
use kg_extract::table::{Dup, Table};
use kg_extract::types::graph::Metadata;
use kg_extract::types::{KnowledgeGraph, Schema, SchemaMode};

fn json(t: &str) -> Json {
    extract_json_from_response(t).unwrap()
}

struct Disk {
    dir: String,
    store: KgStore,
    graphs: BTreeMap<String, KnowledgeGraph>,
    sources: BTreeMap<String, usize>,
}

impl Disk {
    fn with_policy(policy: SchemaPolicy) -> Disk {
        Disk {
            dir: "out".into(),
            store: KgStore::with_policy("out", policy),
            graphs: BTreeMap::new(),
            sources: BTreeMap::new(),
        }
    }

    fn new() -> Disk {
        Disk::with_policy(SchemaPolicy::open())
    }

    fn stands(&self, rel: &str) -> bool {
        self.graphs.contains_key(&self.store.resolve(rel).unwrap())
    }

    fn load(&self, rel: &str) -> KnowledgeGraph {
        match self.graphs.get(&self.store.resolve(rel).unwrap()) {
            Some(kg) => kg.dup(),
            None => KnowledgeGraph::new(),
        }
    }

    fn keep(
        &mut self,
        rel: &str,
        kg: KnowledgeGraph,
        r: Result<String, String>,
    ) -> Result<Json, String> {
        let message = r?;
        let path = self.store.resolve(rel)?;
        let answer = report(&path, &kg, &message);
        self.graphs.insert(path, kg);
        Ok(answer)
    }

    fn cited(&self, c: Option<SourceCitation>) -> Option<CitedSource> {
        c.map(|citation| {
            let lines = self.sources.get(citation.source_file()).copied();
            CitedSource { citation, lines }
        })
    }

    fn entity_cited(
        &mut self,
        rel: &str,
        name: &str,
        kind: &str,
        description: Option<String>,
        attributes: Metadata,
        c: Option<SourceCitation>,
    ) -> Result<Json, String> {
        let mut kg = self.load(rel);
        let cited = self.cited(c);
        let r = self.store.add_entity_with_citation(
            &mut kg,
            rel,
            name,
            kind,
            description,
            attributes,
            cited.as_ref(),
        );
        self.keep(rel, kg, r)
    }

    fn entity(
        &mut self,
        rel: &str,
        name: &str,
        kind: &str,
        description: Option<String>,
        attributes: Metadata,
    ) -> Result<Json, String> {
        let mut kg = self.load(rel);
        let r = self.store.add_entity(&mut kg, rel, name, kind, description, attributes);
        self.keep(rel, kg, r)
    }

    fn relation_cited(
        &mut self,
        rel: &str,
        ends: (&str, &str, &str),
        strength: Option<&str>,
        c: Option<SourceCitation>,
    ) -> Result<Json, String> {
        let mut kg = self.load(rel);
        let cited = self.cited(c);
        let r = self.store.add_relation_with_citation(
            &mut kg,
            rel,
            ends.0,
            ends.1,
            ends.2,
            None,
            strength,
            cited.as_ref(),
        );
        self.keep(rel, kg, r)
    }

    fn relation(
        &mut self,
        rel: &str,
        ends: (&str, &str, &str),
        strength: Option<&str>,
    ) -> Result<Json, String> {
        let mut kg = self.load(rel);
        let r = self.store.add_relation(&mut kg, rel, ends.0, ends.1, ends.2, None, strength);
        self.keep(rel, kg, r)
    }

    fn attribute(&mut self, rel: &str, name: &str, key: &str, v: Json) -> Result<Json, String> {
        let mut kg = self.load(rel);
        let r = self.store.add_attribute(&mut kg, rel, name, key, v);
        self.keep(rel, kg, r)
    }

    fn propose(
        &mut self,
        rel: &str,
        kind: &str,
        value: &str,
        reason: Option<String>,
    ) -> Result<Json, String> {
        let mut kg = self.load(rel);
        let r = self.store.propose_schema_type(&mut kg, kind, value, reason);
        self.keep(rel, kg, r)
    }

    fn query(
        &self,
        rel: &str,
        view: &str,
        entity: Option<&str>,
        limit: usize,
    ) -> Result<Json, String> {
        let path = self.store.resolve(rel)?;
        self.store.query_graph(self.graphs.get(&path), rel, view, entity, limit)
    }

    /// Alice works at Acme, and knows Bob.
    fn seeded() -> Disk {
        let mut t = Disk::new();
        t.entity("g", "Alice", "person", Some("An engineer".into()), Table::new()).unwrap();
        t.entity("g", "Acme", "organization", None, Table::new()).unwrap();
        t.entity("g", "Bob", "person", None, Table::new()).unwrap();
        t.relation("g", ("Alice", "works_at", "Acme"), None).unwrap();
        t.relation("g", ("Alice", "knows", "Bob"), None).unwrap();
        t
    }
}

fn n(v: &Json, key: &str) -> u64 {
    v.get("stats").unwrap().get(key).unwrap().as_uint().unwrap()
}

fn cite(file: &str, a: usize, b: usize) -> Option<SourceCitation> {
    Some(SourceCitation::new(file.into(), a, b).ok().unwrap())
}

#[test]
fn resolve_appends_json_and_rejects_escape() {
    let t = Disk::new();
    let s = &t.store;
    assert_eq!(s.resolve("foo").unwrap(), format!("{}/foo.json", t.dir));
    assert_eq!(s.resolve("foo.json").unwrap(), format!("{}/foo.json", t.dir));
    assert_eq!(s.resolve("a/b/c").unwrap(), format!("{}/a/b/c.json", t.dir));
    assert!(s.resolve("../escape").is_err());
    assert!(s.resolve("a/../../b").is_err());
    assert!(s.resolve("").is_err());
    assert!(s.resolve("/").is_err());
    assert!(s.resolve("/etc/graph").is_err(), "absolute unix path must be rejected");
    assert!(
        s.resolve("\\abs\\path").is_err(),
        "absolute windows-style path must be rejected"
    );
}

#[test]
fn add_entity_persists_and_reloads() {
    let mut t = Disk::new();
    let r = t.entity("g", "Alice", "person", Some("An engineer".into()), Table::new()).unwrap();
    assert_eq!(n(&r, "num_entities"), 1);

    assert!(t.stands("g"));
    let kg = t.load("g");
    let e = kg.get_entity(&entity_id("Alice")).unwrap();
    assert_eq!(e.label, "Alice");
    assert_eq!(e.description.as_deref(), Some("An engineer"));
    assert_eq!(e.entity_type.value().to_lowercase(), "person");
}

#[test]
fn add_entity_same_name_merges_not_duplicates() {
    let mut t = Disk::new();
    t.entity("g", "Alice", "person", None, Table::new()).unwrap();
    let mut attrs = Table::new();
    attrs.insert("role".to_string(), Json::Text("VP".into()));
    let r = t.entity("g", "Alice", "person", Some("Updated".into()), attrs).unwrap();
    assert_eq!(n(&r, "num_entities"), 1, "same name must merge, not duplicate");

    let kg = t.load("g");
    let e = kg.get_entity(&entity_id("Alice")).unwrap();
    assert_eq!(e.description.as_deref(), Some("Updated"));
    assert_eq!(e.metadata.get("role").unwrap(), &Json::Text("VP".into()));
}

#[test]
fn add_entity_with_citation_merges_provenance() {
    let mut t = Disk::new();
    t.sources.insert("doc.md".into(), 12);
    t.entity_cited("g", "Alice", "person", None, Table::new(), cite("doc.md", 3, 5)).unwrap();
    t.entity_cited("g", "Alice", "person", None, Table::new(), cite("doc.md", 9, 12)).unwrap();

    let kg = t.load("g");
    let e = kg.get_entity(&entity_id("Alice")).unwrap();
    assert_eq!(
        e.metadata.get(CITATIONS_KEY).unwrap(),
        &json(
            r#"[
            {"doc": "doc.md", "lines": [3, 5]},
            {"doc": "doc.md", "lines": [9, 12]}
        ]"#
        )
    );
}

#[test]
fn add_entity_with_citation_rejects_bad_source_file() {
    let mut t = Disk::new();
    let err = t
        .entity_cited("g", "Alice", "person", None, Table::new(), cite("missing.md", 1, 1))
        .unwrap_err();
    assert!(
        err.contains("source_file 'missing.md' was not found"),
        "unexpected error: {err}"
    );
    assert!(!t.stands("g"));
}

#[test]
fn add_entity_with_citation_rejects_out_of_range_lines() {
    let mut t = Disk::new();
    t.sources.insert("doc.md".into(), 2);
    let err = t
        .entity_cited("g", "Alice", "person", None, Table::new(), cite("doc.md", 1, 3))
        .unwrap_err();
    assert!(
        err.contains("exceed source_file 'doc.md' line count 2"),
        "unexpected error: {err}"
    );
    assert!(!t.stands("g"));
}

#[test]
fn source_citation_rejects_absolute_and_parent_paths() {
    assert!(SourceCitation::new("/tmp/doc.md".into(), 1, 1).is_err());
    assert!(SourceCitation::new("../doc.md".into(), 1, 1).is_err());
    assert!(SourceCitation::new("a/../doc.md".into(), 1, 1).is_err());
}

#[test]
fn add_relation_errors_on_missing_endpoint_with_guidance() {
    let mut t = Disk::new();
    t.entity("g", "Alice", "person", None, Table::new()).unwrap();
    let msg = t.relation("g", ("Alice", "works_at", "Acme"), None).unwrap_err();
    assert!(msg.contains("'Acme'"), "names the missing endpoint: {msg}");
    assert!(msg.contains("add_entity"), "prescribes the fix: {msg}");
    assert!(msg.contains("Alice"), "lists known entities: {msg}");
    let kg = t.load("g");
    assert_eq!(kg.entities.len(), 1);
    assert_eq!(kg.triples.len(), 0);
}

#[test]
fn add_relation_succeeds_after_endpoints_added_and_dedups() {
    let mut t = Disk::new();
    t.entity("g", "Alice", "person", None, Table::new()).unwrap();
    t.entity("g", "Acme", "organization", None, Table::new()).unwrap();
    let r = t.relation("g", ("Alice", "works_at", "Acme"), Some("0.9")).unwrap();
    assert_eq!(n(&r, "num_entities"), 2);
    assert_eq!(n(&r, "num_triples"), 1);

    let r2 = t.relation("g", ("Alice", "works_at", "Acme"), None).unwrap();
    assert_eq!(n(&r2, "num_triples"), 1, "identical relation must dedup");
    assert!(r2.text_at("message").unwrap().contains("already present"));
}

#[test]
fn add_relation_with_citation_dedups_and_merges_provenance() {
    let mut t = Disk::new();
    t.sources.insert("doc.md".into(), 31);
    t.entity("g", "Alice", "person", None, Table::new()).unwrap();
    t.entity("g", "Acme", "organization", None, Table::new()).unwrap();
    let ends = ("Alice", "works_at", "Acme");
    t.relation_cited("g", ends, Some("0.9"), cite("doc.md", 20, 22)).unwrap();
    t.relation_cited("g", ends, Some("0.9"), cite("doc.md", 30, 31)).unwrap();

    let kg = t.load("g");
    assert_eq!(kg.triples.len(), 1);
    assert_eq!(
        kg.triples[0].metadata.get(CITATIONS_KEY).unwrap(),
        &json(
            r#"[
            {"doc": "doc.md", "lines": [20, 22]},
            {"doc": "doc.md", "lines": [30, 31]}
        ]"#
        )
    );
}

#[test]
fn add_relation_after_add_entity_keeps_rich_entity() {
    let mut t = Disk::new();
    t.entity("g", "Alice", "person", Some("An engineer".into()), Table::new()).unwrap();
    t.entity("g", "Acme", "organization", None, Table::new()).unwrap();
    t.relation("g", ("Alice", "works_at", "Acme"), None).unwrap();

    let kg = t.load("g");
    let alice = kg.get_entity(&entity_id("Alice")).unwrap();
    assert_eq!(alice.description.as_deref(), Some("An engineer"));
    assert_eq!(alice.entity_type.value().to_lowercase(), "person");
}

#[test]
fn add_relation_clamps_strength_to_unit_interval() {
    let mut t = Disk::new();
    t.entity("g", "Alice", "person", None, Table::new()).unwrap();
    t.entity("g", "Acme", "organization", None, Table::new()).unwrap();
    t.relation("g", ("Alice", "works_at", "Acme"), Some("2.0")).unwrap();
    let kg = t.load("g");
    assert_eq!(
        kg.triples[0].confidence,
        Some(Fraction::one()),
        "out-of-range strength must clamp to 1.0"
    );
}

#[test]
fn add_attribute_requires_existing_entity() {
    let mut t = Disk::new();
    t.entity("g", "Alice", "person", None, Table::new()).unwrap();
    let msg = t.attribute("g", "Ghost", "k", Json::Text("v".into())).unwrap_err();
    assert!(
        msg.contains("'Ghost'") && msg.contains("add_entity"),
        "actionable error: {msg}"
    );
    assert!(msg.contains("Alice"), "lists known entities: {msg}");

    t.attribute("g", "Alice", "team", Json::Text("platform".into())).unwrap();
    let kg = t.load("g");
    let e = kg.get_entity(&entity_id("Alice")).unwrap();
    assert_eq!(e.metadata.get("team").unwrap(), &Json::Text("platform".into()));
}

#[test]
fn query_summary_is_default_and_counts_only() {
    let t = Disk::seeded();
    let r = t.query("g", "summary", None, 200).unwrap();
    assert_eq!(n(&r, "num_entities"), 3);
    assert_eq!(n(&r, "num_triples"), 2);
    assert!(r.get("entities").is_none() && r.get("relations").is_none());
}

#[test]
fn query_entities_only_and_relations_only() {
    let t = Disk::seeded();
    let e = t.query("g", "entities", None, 200).unwrap();
    let labels: Vec<String> = e
        .array_at("entities")
        .unwrap()
        .iter()
        .map(|x| x.text_at("label").unwrap())
        .collect();
    for label in ["Alice", "Acme", "Bob"] {
        assert!(labels.iter().any(|l| l == label));
    }
    assert!(e.get("relations").is_none(), "entities view has no relations");

    let r = t.query("g", "relations", None, 200).unwrap();
    assert_eq!(r.array_at("relations").unwrap().len(), 2);
    assert!(r.get("entities").is_none(), "relations view has no entities");
}

#[test]
fn query_neighbors_returns_focal_entity_and_its_edges() {
    let t = Disk::seeded();
    let r = t.query("g", "neighbors", Some("Alice"), 200).unwrap();
    let e = r.get("entity").unwrap();
    assert_eq!(e.text_at("label").as_deref(), Some("Alice"));
    assert_eq!(e.text_at("description").as_deref(), Some("An engineer"));
    let out: Vec<String> = r
        .array_at("outgoing")
        .unwrap()
        .iter()
        .map(|x| x.text_at("target").unwrap())
        .collect();
    assert!(
        out.iter().any(|x| x == "Acme") && out.iter().any(|x| x == "Bob"),
        "Alice's two edges: {out:?}"
    );

    let a = t.query("g", "neighbors", Some("Acme"), 200).unwrap();
    assert_eq!(a.array_at("incoming").unwrap().len(), 1);
    assert_eq!(a.array_at("outgoing").unwrap().len(), 0);
    assert_eq!(
        a.array_at("incoming").unwrap()[0].text_at("source").as_deref(),
        Some("Alice")
    );
}

#[test]
fn query_neighbors_missing_entity_errors_with_known() {
    let t = Disk::seeded();
    let msg = t.query("g", "neighbors", Some("Ghost"), 200).unwrap_err();
    assert!(msg.contains("'Ghost'") && msg.contains("Alice"), "actionable: {msg}");
}

#[test]
fn query_limit_truncates_and_flags() {
    let t = Disk::seeded();
    let r = t.query("g", "entities", None, 2).unwrap();
    assert_eq!(r.array_at("entities").unwrap().len(), 2);
    assert_eq!(r.get("truncated"), Some(&Json::Bool(true)));
}

#[test]
fn query_unknown_view_and_absent_graph_error() {
    let t = Disk::seeded();
    assert!(t.query("g", "bogus", None, 200).unwrap_err().contains("unknown view"));
    assert!(t.query("nope", "summary", None, 200).unwrap_err().contains("no graph found"));
}

#[test]
fn separate_paths_are_independent_graphs() {
    let mut t = Disk::new();
    t.entity("doc/one", "Alice", "person", None, Table::new()).unwrap();
    t.entity("doc/two", "Bob", "person", None, Table::new()).unwrap();
    assert_eq!(t.load("doc/one").entities.len(), 1);
    assert_eq!(t.load("doc/two").entities.len(), 1);
    assert!(t.stands("doc/one"));
    assert!(t.stands("doc/two"));
}

fn seed_schema() -> Schema {
    Schema::new(
        vec!["PERSON".into(), "ORGANIZATION".into()],
        vec!["WORKS_AT".into()],
        vec!["team".into()],
    )
}

#[test]
fn fixed_schema_rejects_values_outside_seed_schema() {
    let policy = SchemaPolicy::new(SchemaMode::Fixed, seed_schema()).ok().unwrap();
    let mut t = Disk::with_policy(policy);

    t.entity("g", "Alice", "person", None, Table::new()).unwrap();
    let msg = t.entity("g", "Paris", "location", None, Table::new()).unwrap_err();
    assert!(
        msg.contains("fixed schema") && msg.contains("PERSON"),
        "actionable error: {msg}"
    );

    t.entity("g", "Acme", "organization", None, Table::new()).unwrap();
    let msg = t.relation("g", ("Alice", "knows", "Acme"), None).unwrap_err();
    assert!(
        msg.contains("relation type") && msg.contains("WORKS_AT"),
        "relation error: {msg}"
    );

    t.attribute("g", "Alice", "team", Json::Text("platform".into())).unwrap();
    let msg = t.attribute("g", "Alice", "role", Json::Text("lead".into())).unwrap_err();
    assert!(
        msg.contains("attribute key") && msg.contains("team"),
        "attribute error: {msg}"
    );
}

#[test]
fn fixed_and_evolving_require_non_empty_schema() {
    assert!(SchemaPolicy::new(SchemaMode::Fixed, Schema::empty()).is_err());
    assert!(SchemaPolicy::new(SchemaMode::Evolving, Schema::empty()).is_err());
    assert!(SchemaPolicy::new(SchemaMode::Open, Schema::empty()).is_ok());
}

#[test]
fn evolving_schema_accepts_seed_values_and_requires_proposal_for_new_values() {
    let policy = SchemaPolicy::new(SchemaMode::Evolving, seed_schema()).ok().unwrap();
    let mut t = Disk::with_policy(policy);

    t.entity("g", "Alice", "person", None, Table::new()).unwrap();
    let msg = t.entity("g", "Dune", "WORK_OF_ART", None, Table::new()).unwrap_err();
    assert!(
        msg.contains("propose_schema_type") && msg.contains("WORK_OF_ART"),
        "{msg}"
    );

    t.propose("g", "node", "WORK_OF_ART", Some("Document discusses films".into())).unwrap();
    t.entity("g", "Dune", "WORK_OF_ART", None, Table::new()).unwrap();

    t.propose("g", "relation", "INSPIRED_BY", Some("Needed by text".into())).unwrap();
    t.relation("g", ("Dune", "INSPIRED_BY", "Alice"), None).unwrap();

    let kg = t.load("g");
    assert_eq!(kg.metadata.get("schema_mode"), Some(&Json::Text("evolving".into())));
    let new = kg.metadata.get("new_schema_types").unwrap();
    assert_eq!(new.array_at("nodes").unwrap()[0], Json::Text("WORK_OF_ART".into()));
    assert_eq!(new.array_at("relations").unwrap()[0], Json::Text("INSPIRED_BY".into()));
    assert!(kg.metadata.contains_key("schema_used"));
    assert_eq!(kg.triples.len(), 1);
}

#[test]
fn propose_schema_type_is_only_available_in_evolving_mode() {
    let mut t = Disk::new();
    let err = t.propose("g", "node", "MOVIE", None).unwrap_err();
    assert!(err.contains("evolving schema mode"));
}

#[test]
fn query_schema_reports_policy_and_path_proposals() {
    let policy = SchemaPolicy::new(SchemaMode::Evolving, seed_schema()).ok().unwrap();
    let mut t = Disk::with_policy(policy);
    t.propose("g", "attribute", "box_office", None).unwrap();

    let r = t.store.query_schema(&t.load("g"), "g").unwrap();
    assert_eq!(r.get("schema_mode"), Some(&Json::Text("evolving".into())));
    assert_eq!(
        r.get("schema").unwrap().array_at("nodes").unwrap()[0],
        Json::Text("PERSON".into())
    );
    assert_eq!(
        r.get("new_schema_types").unwrap().array_at("attributes").unwrap()[0],
        Json::Text("box_office".into())
    );
}

#[test]
fn a_refused_change_leaves_the_graph_as_it_was() {
    let t = Disk::seeded();
    let mut kg = t.load("g");
    let r = t.store.add_relation(&mut kg, "g", "Alice", "knows", "Ghost", None, None);
    assert!(r.is_err());
    let r = t.store.add_entity(&mut kg, "g", "  ", "person", None, Table::new());
    assert_eq!(r.unwrap_err(), "name must not be empty");
    assert_eq!(kg.entities.len(), 3);
    assert_eq!(kg.triples.len(), 2);
}

#[test]
fn paths_stay_below_the_output_directory() {
    let s = KgStore::new("out");
    assert_eq!(s.output_dir(), "out");
    for rel in ["a", "./a", "a//b", "a\\b", "a.b", "x.json"] {
        let p = s.resolve(rel).unwrap();
        assert!(p.starts_with("out/") && p.ends_with(".json"), "{p}");
        assert!(!p.contains(".."), "{p}");
    }
    assert_eq!(s.resolve("v1.2").unwrap(), "out/v1.2.json");
    assert_eq!(s.resolve("v1.3").unwrap(), "out/v1.3.json");
    assert_eq!(s.resolve("a.b/v1.3.json").unwrap(), "out/a.b/v1.3.json");
    assert_eq!(s.resolve(".").unwrap_err(), "path resolves to the output directory itself: .");
    assert_eq!(s.resolve(" ").unwrap_err(), "path must not be empty");
}

#[test]
fn the_parts_of_a_citation_come_together() {
    assert!(citation_from_parts(None, None, None).ok().unwrap().is_none());
    let c = citation_from_parts(Some(" doc.md ".into()), Some(2), Some(4)).ok().unwrap();
    assert_eq!(c.unwrap().source_file(), "doc.md");
    let e = citation_from_parts(Some("doc.md".into()), Some(2), None).err().unwrap();
    assert!(e.contains("must be provided together"), "{e}");
    assert!(citation_from_parts(Some("doc.md".into()), Some(0), Some(4)).is_err());
    assert!(citation_from_parts(Some("doc.md".into()), Some(5), Some(4)).is_err());
    assert!(citation_from_parts(Some(" ".into()), Some(1), Some(4)).is_err());
}

#[test]
fn what_is_left_of_a_strength_that_was_not_given() {
    let mut t = Disk::seeded();
    assert_eq!(t.load("g").triples[0].confidence, Some(Fraction::eight_tenths()));
    t.entity("g", "Eve", "person", None, Table::new()).unwrap();
    t.relation("g", ("Eve", "knows", "Bob"), Some("-3")).unwrap();
    assert_eq!(t.load("g").triples[2].confidence, Some(Fraction::zero()));
}

#[test]
fn an_unknown_kind_is_not_proposed() {
    let policy = SchemaPolicy::new(SchemaMode::Evolving, seed_schema()).ok().unwrap();
    let mut t = Disk::with_policy(policy);
    assert!(t.propose("g", "colour", "RED", None).is_err());
    assert!(t.propose("g", "node", "  ", None).is_err());
}
