//! Where what was extracted stands in the text.

use kg_extract::chunking::{parse_prechunked, Segment};
use kg_extract::citation::{
    attach_citation, stamp_chunk_metadata, stamp_graph, stamp_whole_document, union_citations,
    Citation, LineIndex, CHUNK_METADATA_KEY, CHUNK_TITLE_KEY, CITATIONS_KEY,
};
use kg_extract::json::{extract_json_from_response, Json};
use kg_extract::range::{BBox, CharSpan, LineSpan, PageSpan, SourceRange};
use kg_extract::table::{Dup, Table};
use kg_extract::types::graph::Metadata;
use kg_extract::types::{Entity, EntityType, KnowledgeGraph, Predicate, PredicateType, Triple};

fn json(t: &str) -> Json {
    extract_json_from_response(t).unwrap()
}

fn cites(m: &Metadata) -> Vec<Json> {
    match m.get(CITATIONS_KEY) {
        Some(Json::Array(a)) => a.iter().map(|v| v.copied()).collect(),
        _ => Vec::new(),
    }
}

#[test]
fn line_index_maps_multibyte_text_by_chars() {
    let text = "第一行内容\n第二行内容\n第三行";
    let li = LineIndex::new(text);
    assert_eq!(li.total_lines(), 3);
    assert_eq!(li.line_of(0), 1);
    assert_eq!(li.line_of(5), 1);
    assert_eq!(li.line_of(6), 2);
    assert_eq!(li.line_of(12), 3);
    assert_eq!(li.line_range(0, 11), (1, 2));
    assert_eq!(li.line_range(12, 15), (3, 3));
}

#[test]
fn line_range_of_empty_slice_cites_its_start_line() {
    let li = LineIndex::new("a\nb\nc");
    assert_eq!(li.line_range(2, 2), (2, 2));
}

#[test]
fn stamp_chunk_metadata_attaches_title_and_metadata_to_every_record() {
    let mut chunk_meta: Metadata = Table::new();
    chunk_meta.insert("mm_kind".to_string(), Json::Text("table".into()));
    let seg = Segment {
        content: "Revenue grew.".into(),
        index: 0,
        start: 0,
        end: 13,
        range: None,
        title: Some("q4_revenue".into()),
        metadata: chunk_meta,
    };

    let mut kg = KnowledgeGraph::new();
    kg.add_entity(Entity::new("e1", "Alpha", EntityType::Organization));
    kg.add_triple(Triple::new(
        Entity::new("e1", "Alpha", EntityType::Organization),
        Predicate::new(PredicateType::RelatedTo),
        Entity::new("e2", "Beta", EntityType::Technology),
    ));
    stamp_chunk_metadata(&mut kg, &seg);

    let stored = kg.get_entity("e1").unwrap();
    assert_eq!(stored.metadata.get(CHUNK_TITLE_KEY), Some(&Json::Text("q4_revenue".into())));
    assert_eq!(stored.metadata.get(CHUNK_METADATA_KEY), Some(&json(r#"{"mm_kind": "table"}"#)));
    assert_eq!(
        kg.triples[0].metadata.get(CHUNK_TITLE_KEY),
        Some(&Json::Text("q4_revenue".into()))
    );
    assert_eq!(
        kg.triples[0].object.metadata.get(CHUNK_METADATA_KEY),
        Some(&json(r#"{"mm_kind": "table"}"#))
    );
}

#[test]
fn stamp_chunk_metadata_is_noop_without_payload() {
    let seg = Segment {
        content: "plain".into(),
        index: 0,
        start: 0,
        end: 5,
        range: None,
        title: None,
        metadata: Table::new(),
    };
    let mut kg = KnowledgeGraph::new();
    kg.add_entity(Entity::new("e1", "Alpha", EntityType::Organization));
    stamp_chunk_metadata(&mut kg, &seg);
    assert!(!kg.get_entity("e1").unwrap().metadata.contains_key(CHUNK_TITLE_KEY));
    assert!(!kg.get_entity("e1").unwrap().metadata.contains_key(CHUNK_METADATA_KEY));
}

#[test]
fn attach_deduplicates_identical_citations() {
    let mut meta: Metadata = Table::new();
    let c = Citation::new(Some("doc.md".into()), 3, 7);
    attach_citation(&mut meta, &c);
    attach_citation(&mut meta, &c);
    let list = cites(&meta);
    assert_eq!(list.len(), 1);
    assert_eq!(list[0], json(r#"{"doc": "doc.md", "lines": [3, 7]}"#));
}

#[test]
fn union_merges_distinct_and_skips_duplicate_citations() {
    let mut a: Metadata = Table::new();
    let mut b: Metadata = Table::new();
    attach_citation(&mut a, &Citation::new(Some("x.md".into()), 1, 4));
    attach_citation(&mut b, &Citation::new(Some("x.md".into()), 1, 4));
    attach_citation(&mut b, &Citation::new(Some("y.md".into()), 9, 12));
    union_citations(&mut a, &b);
    assert_eq!(cites(&a).len(), 2);
}

#[test]
fn add_triple_endpoint_overwrite_keeps_entity_citations() {
    let mut kg = KnowledgeGraph::new();
    let mut a = Entity::new("e1", "Alpha", EntityType::Organization);
    attach_citation(&mut a.metadata, &Citation::new(Some("doc.md".into()), 1, 4));
    kg.add_entity(a.dup());

    let bare_a = Entity::new("e1", "Alpha", EntityType::Organization);
    let b = Entity::new("e2", "Beta", EntityType::Organization);
    let t = Triple::new(bare_a, Predicate::new(PredicateType::RelatedTo), b);
    kg.add_triple(t);

    let stored = kg.get_entity("e1").unwrap();
    assert_eq!(cites(&stored.metadata).len(), 1, "endpoint overwrite must keep prior citations");
}

#[test]
fn union_into_empty_dst_copies_all() {
    let mut a: Metadata = Table::new();
    let mut b: Metadata = Table::new();
    attach_citation(&mut b, &Citation::new(None, 2, 2));
    union_citations(&mut a, &b);
    assert!(a.contains_key(CITATIONS_KEY));
}

#[test]
fn stamp_whole_document_covers_full_line_range_on_every_record() {
    let text = "alpha line\nbeta line\ngamma line";
    assert_eq!(LineIndex::new(text).total_lines(), 3);

    let mut kg = KnowledgeGraph::new();
    kg.add_entity(Entity::new("e1", "Alpha", EntityType::Organization));
    kg.add_entity(Entity::new("e2", "Beta", EntityType::Technology));
    kg.add_triple(Triple::new(
        Entity::new("e1", "Alpha", EntityType::Organization),
        Predicate::new(PredicateType::RelatedTo),
        Entity::new("e2", "Beta", EntityType::Technology),
    ));

    stamp_whole_document(&mut kg, &Some("doc.md".into()), text);

    let expected = json(r#"{"doc": "doc.md", "lines": [1, 3]}"#);
    for i in 0..kg.entities.len() {
        let e = kg.entities.value_at(i);
        assert_eq!(
            cites(&e.metadata).first(),
            Some(&expected),
            "entity {} must carry the whole-doc citation",
            e.label
        );
    }
    for t in &kg.triples {
        assert_eq!(cites(&t.metadata).first(), Some(&expected));
        for endpoint in [&t.subject, &t.object] {
            assert_eq!(cites(&endpoint.metadata).first(), Some(&expected));
        }
    }
}

#[test]
fn ranges_are_read_back_as_they_were_written() {
    let full = SourceRange {
        char_span: CharSpan::new(20, 44),
        line: LineSpan::new(11, 12),
        page: PageSpan::new(7, 7),
        bbox: Some(BBox {
            x0: "10.5".into(),
            y0: "20.25".into(),
            x1: "300.75".into(),
            y1: "440.0".into(),
        }),
    };
    assert_eq!(SourceRange::from_value(&full.to_value()), Some(full.dup()));
    let none = SourceRange::unknown();
    assert_eq!(SourceRange::from_value(&none.to_value()), Some(none));
}

#[test]
fn a_box_survives_from_a_chunk_to_a_citation() {
    let input = r#"{"source_file":"page-7.pdf","text":"OpenAI uses GPT-4.","range":{"char_span":{"start":20,"end":44},"line":{"start":11,"end":12},"page":{"start":7,"end":7},"bbox":{"x0":10.5,"y0":20.25,"x1":300.75,"y1":440.0}}}"#;
    let p = parse_prechunked(input).unwrap();
    let range = p.segments[0].evidence_range().unwrap();
    assert_eq!(range.bbox.as_ref().unwrap().x1, "300.75");
    let c = Citation::from_range(p.source.clone(), range.dup());
    let mut kg = KnowledgeGraph::new();
    kg.add_entity(Entity::new("e1", "OpenAI", EntityType::Organization));
    stamp_graph(&mut kg, &c);
    let written = &cites(&kg.get_entity("e1").unwrap().metadata)[0];
    assert_eq!(written.get("doc"), Some(&Json::Text("page-7.pdf".into())));
    assert_eq!(SourceRange::from_value(written.get("range").unwrap()), Some(range.dup()));
}

#[test]
fn the_order_of_members_makes_no_other_citation() {
    fn turned(v: &Json) -> Json {
        match v {
            Json::Object(o) => {
                Json::Object(o.iter().rev().map(|(k, v)| (k.clone(), turned(v))).collect())
            }
            _ => v.copied(),
        }
    }
    let c = Citation::new(Some("doc.md".into()), 2, 4);
    let mut m: Metadata = Table::new();
    m.insert(CITATIONS_KEY.to_string(), Json::Array(vec![turned(&c.to_value())]));
    attach_citation(&mut m, &c);
    assert_eq!(cites(&m).len(), 1);
    let mut other: Metadata = Table::new();
    attach_citation(&mut other, &c);
    union_citations(&mut m, &other);
    assert_eq!(cites(&m).len(), 1);
    attach_citation(&mut m, &Citation::new(Some("doc.md".into()), 2, 5));
    assert_eq!(cites(&m).len(), 2);
    assert!(json(r#"{"a":1,"b":[2]}"#).same_as(&turned(&json(r#"{"a":1,"b":[2]}"#))));
    let decimal = |t: &str| Json::Decimal(t.into());
    assert!(decimal("0.0").same_as(&decimal("-0.0")));
    assert!(json("[0.0]").same_as(&json("[-0.0]")));
    assert!(decimal("1.50").same_as(&decimal("15e-1")));
    assert!(decimal("100000000000000000.0").same_as(&decimal("1e17")));
    assert!(!decimal("1.5").same_as(&decimal("-1.5")));
    assert!(!decimal("1.5").same_as(&decimal("0.15")));
    assert!(!decimal("0.0").same_as(&Json::Uint(0)));
    assert!(!json(r#"{"a":1}"#).same_as(&json(r#"{"a":1,"b":2}"#)));
    assert!(!json(r#"{"a":1,"b":2}"#).same_as(&json(r#"{"a":1}"#)));
}
