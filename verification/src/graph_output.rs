//! Forms in which a graph is shown.

use vstd::prelude::*;

use crate::json::{Json, JsonV, ObjectBuilder};
use crate::mcp::query;
use crate::types::graph::{
    Entity, EntityV, GraphV, KnowledgeGraph, Predicate, PredicateV, Triple, TripleV,
};
use crate::{citation, json, seqs, table, types};

verus! {

broadcast use {crate::seqs::group_views, crate::json::group_json};

/// An entity with all that is known of it. Its type is given as its source wrote it, and
/// as the type that this was taken for.
pub open spec fn entity_dict(e: EntityV) -> JsonV {
    JsonV::Object(
        seq![
            ("id"@, JsonV::Text(e.id)),
            ("label"@, JsonV::Text(e.label)),
            ("type"@, JsonV::Text(types::graph::entity_output_type(e))),
            (
                "normalized_type"@,
                JsonV::Text(types::vocab::entity_type_name(e.entity_type)),
            ),
            ("description"@, json::text_or_null(e.description)),
            ("confidence"@, types::graph::confidence_value(e.confidence)),
            ("metadata"@, JsonV::Object(e.metadata)),
        ],
    )
}

/// A predicate with all that is known of it. Its type is given as its source wrote it,
/// and as the type that this was taken for.
pub open spec fn predicate_dict(p: PredicateV) -> JsonV {
    JsonV::Object(
        seq![
            ("type"@, JsonV::Text(types::graph::predicate_output_type(p))),
            (
                "normalized_type"@,
                JsonV::Text(types::vocab::predicate_type_name(p.predicate_type)),
            ),
            ("label"@, json::text_or_null(p.label)),
            ("confidence"@, types::graph::confidence_value(p.confidence)),
            ("metadata"@, JsonV::Object(p.metadata)),
        ],
    )
}

/// A dictionary tells of an entity and of a predicate all that is known of them, each under
/// its own name.
pub proof fn law_dictionaries_tell_all_that_is_known(e: EntityV, p: PredicateV)
    ensures
        json::text_in(json::field(entity_dict(e), "id"@)) == Some(e.id),
        json::text_in(json::field(entity_dict(e), "label"@)) == Some(e.label),
        json::text_in(json::field(entity_dict(e), "normalized_type"@)) == Some(
            types::vocab::entity_type_name(e.entity_type),
        ),
        e.description matches Some(d) ==> json::text_in(json::field(entity_dict(e), "description"@))
            == Some(d),
        json::field(entity_dict(e), "confidence"@) == Some(
            types::graph::confidence_value(e.confidence),
        ),
        json::field(entity_dict(e), "metadata"@) == Some(JsonV::Object(e.metadata)),
        json::text_in(json::field(predicate_dict(p), "normalized_type"@)) == Some(
            types::vocab::predicate_type_name(p.predicate_type),
        ),
        p.label matches Some(l) ==> json::text_in(json::field(predicate_dict(p), "label"@)) == Some(
            l,
        ),
        json::field(predicate_dict(p), "confidence"@) == Some(
            types::graph::confidence_value(p.confidence),
        ),
        json::field(predicate_dict(p), "metadata"@) == Some(JsonV::Object(p.metadata)),
{
    reveal_strlit("id");
    assert("id"@.len() == 2);
    assert("id"@.len() == 2);
    reveal_strlit("label");
    assert("label"@.len() == 5);
    assert("label"@.len() == 5);
    reveal_strlit("type");
    assert("type"@.len() == 4);
    assert("type"@.len() == 4);
    reveal_strlit("normalized_type");
    assert("normalized_type"@.len() == 15);
    assert("normalized_type"@.len() == 15);
    reveal_strlit("description");
    assert("description"@.len() == 11);
    assert("description"@.len() == 11);
    reveal_strlit("confidence");
    assert("confidence"@.len() == 10);
    assert("confidence"@.len() == 10);
    reveal_strlit("metadata");
    assert("metadata"@.len() == 8);
    assert("metadata"@.len() == 8);
    let o = entity_dict(e)->Object_0;
    json::lemma_field_at(o, 0);
    json::lemma_field_at(o, 1);
    json::lemma_field_at(o, 3);
    json::lemma_field_at(o, 4);
    json::lemma_field_at(o, 5);
    json::lemma_field_at(o, 6);
    let q = predicate_dict(p)->Object_0;
    json::lemma_field_at(q, 1);
    json::lemma_field_at(q, 2);
    json::lemma_field_at(q, 3);
    json::lemma_field_at(q, 4);
}

/// A relationship with all that is known of it.
pub open spec fn triple_dict(t: TripleV) -> JsonV {
    JsonV::Object(
        seq![
            ("subject"@, entity_dict(t.subject)),
            ("predicate"@, predicate_dict(t.predicate)),
            ("object"@, entity_dict(t.object)),
            ("confidence"@, types::graph::confidence_value(t.confidence)),
            ("metadata"@, JsonV::Object(t.metadata)),
        ],
    )
}

/// Entities by id.
pub open spec fn entity_dicts(es: Seq<(Seq<char>, EntityV)>) -> Seq<(Seq<char>, JsonV)> {
    Seq::new(es.len(), |i: int| (es[i].0, entity_dict(es[i].1)))
}

/// Relationships in order.
pub open spec fn triple_dicts(ts: Seq<TripleV>) -> Seq<JsonV> {
    Seq::new(ts.len(), |i: int| triple_dict(ts[i]))
}

/// A graph with all that is known of it: its entities by id, and its relationships.
pub open spec fn graph_dict(g: GraphV) -> JsonV {
    JsonV::Object(
        seq![
            ("entities"@, JsonV::Object(entity_dicts(g.entities))),
            ("triples"@, JsonV::Array(triple_dicts(g.triples))),
            ("metadata"@, JsonV::Object(g.metadata)),
        ],
    )
}

/// A relationship as a link between two nodes.
pub open spec fn link_item(t: TripleV) -> JsonV {
    JsonV::Object(
        seq![
            ("source"@, JsonV::Text(t.subject.id)),
            ("target"@, JsonV::Text(t.object.id)),
            (
                "key"@,
                JsonV::Text(types::vocab::predicate_type_name(t.predicate.predicate_type)),
            ),
        ],
    )
}

/// Entities as nodes.
pub open spec fn node_items(es: Seq<(Seq<char>, EntityV)>) -> Seq<JsonV> {
    Seq::new(es.len(), |i: int| query::focal_item(es[i].1))
}

/// Relationships as links.
pub open spec fn link_items(ts: Seq<TripleV>) -> Seq<JsonV> {
    Seq::new(ts.len(), |i: int| link_item(ts[i]))
}

/// A graph as nodes and links.
pub open spec fn node_link(g: GraphV) -> JsonV {
    JsonV::Object(
        seq![
            ("nodes"@, JsonV::Array(node_items(g.entities))),
            ("links"@, JsonV::Array(link_items(g.triples))),
        ],
    )
}

/// A relationship as a line of a diagram.
pub open spec fn diagram_line(t: TripleV) -> Seq<char> {
    "\n    "@ + t.subject.id + "[\""@ + t.subject.label + "\"] -->|\""@
        + types::graph::predicate_display_label(t.predicate) + "\"| "@ + t.object.id + "[\""@
        + t.object.label + "\"]"@
}

/// Relationships as a diagram.
pub open spec fn diagram(ts: Seq<TripleV>) -> Seq<char>
    decreases ts.len(),
{
    if ts.len() == 0 {
        "graph TD"@
    } else {
        diagram(ts.drop_last()) + diagram_line(ts.last())
    }
}

/// The members of an entity with all that is known of it.
proof fn lemma_entity_dict(e: EntityV)
    ensures
        json::text_in(json::field(entity_dict(e), "id"@)) == Some(e.id),
        json::text_in(json::field(entity_dict(e), "label"@)) == Some(e.label),
        json::text_in(json::field(entity_dict(e), "type"@)) == Some(
            match e.raw_type {
                Some(t) => t,
                None => types::vocab::entity_type_name(e.entity_type),
            },
        ),
        json::text_in(json::field(entity_dict(e), "normalized_type"@)) == Some(
            types::vocab::entity_type_name(e.entity_type),
        ),
        json::text_in(json::field(entity_dict(e), "description"@)) == e.description,
        json::field(entity_dict(e), "confidence"@) == Some(
            types::graph::confidence_value(e.confidence),
        ),
        json::object_in(json::field(entity_dict(e), "metadata"@)) == Some(e.metadata),
{
    reveal_strlit("id");
    assert("id"@.len() == 2);
    reveal_strlit("label");
    assert("label"@.len() == 5);
    reveal_strlit("type");
    assert("type"@.len() == 4);
    reveal_strlit("normalized_type");
    assert("normalized_type"@.len() == 15);
    reveal_strlit("description");
    assert("description"@.len() == 11);
    reveal_strlit("confidence");
    assert("confidence"@.len() == 10);
    reveal_strlit("metadata");
    assert("metadata"@.len() == 8);
    let o = entity_dict(e)->Object_0;
    json::lemma_field_at(o, 0);
    json::lemma_field_at(o, 1);
    json::lemma_field_at(o, 2);
    json::lemma_field_at(o, 3);
    json::lemma_field_at(o, 4);
    json::lemma_field_at(o, 5);
    json::lemma_field_at(o, 6);
}

/// The dictionary of a graph has each of its entities under its id, with all that is known
/// of it.
pub proof fn law_dictionary_has_every_entity(g: GraphV, i: int)
    requires
        0 <= i < g.entities.len(),
        table::distinct_keys(g.entities),
    ensures
        ({
            let d = json::field(
                json::field(graph_dict(g), "entities"@)->0,
                g.entities[i].0,
            )->0;
            let e = g.entities[i].1;
            &&& json::field(graph_dict(g), "entities"@) is Some
            &&& json::field(json::field(graph_dict(g), "entities"@)->0, g.entities[i].0) is Some
            &&& json::text_in(json::field(d, "id"@)) == Some(e.id)
            &&& json::text_in(json::field(d, "label"@)) == Some(e.label)
            &&& json::text_in(json::field(d, "normalized_type"@)) == Some(
                types::vocab::entity_type_name(e.entity_type),
            )
            &&& e.raw_type is Some ==> json::text_in(json::field(d, "type"@)) == e.raw_type
            &&& json::text_in(json::field(d, "description"@)) == e.description
            &&& json::object_in(json::field(d, "metadata"@)) == Some(e.metadata)
        }),
{
    reveal_strlit("entities");
    assert("entities"@.len() == 8);
    let o = entity_dicts(g.entities);
    json::lemma_field_at(graph_dict(g)->Object_0, 0);
    assert forall|j: int| 0 <= j < i implies (#[trigger] o[j]).0 != o[i].0 by {
        assert(g.entities[j].0 != g.entities[i].0);
    }
    json::lemma_field_at(o, i);
    lemma_entity_dict(g.entities[i].1);
}

/// The dictionary of a graph has its relationships in order, and each runs the way that it
/// ran: `subject` is its subject and `object` its object, and what is between them is its
/// predicate.
pub proof fn law_dictionary_keeps_directions(g: GraphV, i: int)
    requires
        0 <= i < g.triples.len(),
    ensures
        ({
            let rows = json::array_in(json::field(graph_dict(g), "triples"@))->0;
            let t = g.triples[i];
            let s = json::field(rows[i], "subject"@)->0;
            let p = json::field(rows[i], "predicate"@)->0;
            let o = json::field(rows[i], "object"@)->0;
            &&& json::array_in(json::field(graph_dict(g), "triples"@)) is Some
            &&& rows.len() == g.triples.len()
            &&& json::text_in(json::field(s, "id"@)) == Some(t.subject.id)
            &&& json::text_in(json::field(s, "label"@)) == Some(t.subject.label)
            &&& json::text_in(json::field(o, "id"@)) == Some(t.object.id)
            &&& json::text_in(json::field(o, "label"@)) == Some(t.object.label)
            &&& json::text_in(json::field(p, "normalized_type"@)) == Some(
                types::vocab::predicate_type_name(t.predicate.predicate_type),
            )
            &&& json::text_in(json::field(p, "type"@)) == Some(
                types::graph::predicate_output_type(t.predicate),
            )
            &&& json::text_in(json::field(p, "label"@)) == t.predicate.label
            &&& json::field(rows[i], "confidence"@) == Some(
                types::graph::confidence_value(t.confidence),
            )
            &&& json::object_in(json::field(rows[i], "metadata"@)) == Some(t.metadata)
        }),
{
    reveal_strlit("entities");
    assert("entities"@.len() == 8);
    reveal_strlit("triples");
    assert("triples"@.len() == 7);
    reveal_strlit("subject");
    assert("subject"@.len() == 7);
    reveal_strlit("predicate");
    assert("predicate"@.len() == 9);
    reveal_strlit("object");
    assert("object"@.len() == 6);
    reveal_strlit("confidence");
    assert("confidence"@.len() == 10);
    reveal_strlit("metadata");
    assert("metadata"@.len() == 8);
    reveal_strlit("type");
    assert("type"@.len() == 4);
    reveal_strlit("normalized_type");
    assert("normalized_type"@.len() == 15);
    reveal_strlit("label");
    assert("label"@.len() == 5);
    json::lemma_field_at(graph_dict(g)->Object_0, 1);
    let t = g.triples[i];
    let o = triple_dict(t)->Object_0;
    json::lemma_field_at(o, 0);
    json::lemma_field_at(o, 1);
    json::lemma_field_at(o, 2);
    json::lemma_field_at(o, 3);
    json::lemma_field_at(o, 4);
    let p = predicate_dict(t.predicate)->Object_0;
    json::lemma_field_at(p, 0);
    json::lemma_field_at(p, 1);
    json::lemma_field_at(p, 2);
    lemma_entity_dict(t.subject);
    lemma_entity_dict(t.object);
}

/// A link runs the way that its relationship runs: there is one for each, in order, with
/// the id of the subject under `source`, the id of the object under `target`, and the name
/// of its type under `key`. So the key of the relationship can be read back from it.
pub proof fn law_links_keep_directions(g: GraphV, i: int)
    requires
        0 <= i < g.triples.len(),
    ensures
        ({
            let links = json::array_in(json::field(node_link(g), "links"@))->0;
            let t = g.triples[i];
            &&& json::array_in(json::field(node_link(g), "links"@)) is Some
            &&& links.len() == g.triples.len()
            &&& json::text_in(json::field(links[i], "source"@)) == Some(t.subject.id)
            &&& json::text_in(json::field(links[i], "target"@)) == Some(t.object.id)
            &&& json::text_in(json::field(links[i], "key"@)) == Some(
                types::vocab::predicate_type_name(t.predicate.predicate_type),
            )
        }),
{
    reveal_strlit("nodes");
    assert("nodes"@.len() == 5);
    reveal_strlit("links");
    assert("links"@.len() == 5);
    reveal_strlit("source");
    assert("source"@.len() == 6);
    reveal_strlit("target");
    assert("target"@.len() == 6);
    reveal_strlit("key");
    assert("key"@.len() == 3);
    assert("nodes"@[0] != "links"@[0]);
    assert("source"@[0] != "target"@[0]);
    json::lemma_field_at(node_link(g)->Object_0, 1);
    let o = link_item(g.triples[i])->Object_0;
    json::lemma_field_at(o, 0);
    json::lemma_field_at(o, 1);
    json::lemma_field_at(o, 2);
}

/// There is a node for each entity, in order, with its id, its label, its type, what it is
/// described by and what is noted of it.
pub proof fn law_nodes_are_entities(g: GraphV, i: int)
    requires
        0 <= i < g.entities.len(),
    ensures
        ({
            let nodes = json::array_in(json::field(node_link(g), "nodes"@))->0;
            let e = g.entities[i].1;
            &&& json::array_in(json::field(node_link(g), "nodes"@)) is Some
            &&& nodes.len() == g.entities.len()
            &&& json::text_in(json::field(nodes[i], "id"@)) == Some(e.id)
            &&& json::text_in(json::field(nodes[i], "label"@)) == Some(e.label)
            &&& json::text_in(json::field(nodes[i], "type"@)) == Some(
                types::vocab::entity_type_name(e.entity_type),
            )
            &&& json::text_in(json::field(nodes[i], "description"@)) == e.description
            &&& json::object_in(json::field(nodes[i], "attributes"@)) == Some(e.metadata)
        }),
{
    reveal_strlit("nodes");
    assert("nodes"@.len() == 5);
    json::lemma_field_at(node_link(g)->Object_0, 0);
    reveal_strlit("id");
    assert("id"@.len() == 2);
    reveal_strlit("label");
    assert("label"@.len() == 5);
    reveal_strlit("type");
    assert("type"@.len() == 4);
    reveal_strlit("description");
    assert("description"@.len() == 11);
    reveal_strlit("attributes");
    assert("attributes"@.len() == 10);
    let o = query::focal_item(g.entities[i].1)->Object_0;
    json::lemma_field_at(o, 0);
    json::lemma_field_at(o, 1);
    json::lemma_field_at(o, 2);
    json::lemma_field_at(o, 3);
    json::lemma_field_at(o, 4);
}

/// A diagram grows by one line for each relationship, in order, and each line draws its
/// arrow from the subject to the object: the line starts with the id of the subject, and
/// what stands behind the arrow starts with the id of the object.
pub proof fn law_arrows_keep_directions(ts: Seq<TripleV>, t: TripleV)
    ensures
        diagram(ts.push(t)).len() > diagram(ts).len(),
        diagram(ts.push(t)).take(diagram(ts).len() as int) == diagram(ts),
        ({
            let line = diagram(ts.push(t)).skip(diagram(ts).len() as int);
            let from = "\n    "@ + t.subject.id + "[\""@ + t.subject.label + "\"] "@;
            let over = "-->|\""@ + types::graph::predicate_display_label(t.predicate) + "\"| "@;
            let to = t.object.id + "[\""@ + t.object.label + "\"]"@;
            line == from + over + to
        }),
        diagram(seq![]) == "graph TD"@,
{
    reveal_strlit("\n    ");
    reveal_strlit("\"] -->|\"");
    reveal_strlit("\"] ");
    reveal_strlit("-->|\"");
    assert(ts.push(t).drop_last() =~= ts);
    let all = diagram(ts.push(t));
    assert(all == diagram(ts) + diagram_line(t));
    assert(all.take(diagram(ts).len() as int) =~= diagram(ts));
    assert(all.skip(diagram(ts).len() as int) =~= diagram_line(t));
    assert("\"] -->|\""@ =~= "\"] "@ + "-->|\""@);
    let from = "\n    "@ + t.subject.id + "[\""@ + t.subject.label + "\"] "@;
    let over = "-->|\""@ + types::graph::predicate_display_label(t.predicate) + "\"| "@;
    let to = t.object.id + "[\""@ + t.object.label + "\"]"@;
    assert(diagram_line(t) =~= from + over + to);
}

/// The entity with all that is known of it.
pub fn entity_to_dict(e: &Entity) -> (r: Json)
    ensures
        r@ == entity_dict(e@),
{
    let r = ObjectBuilder::new().with("id", json::string(e.id.as_str())).with(
        "label",
        json::string(e.label.as_str()),
    ).with("type", Json::Text(e.output_type())).with(
        "normalized_type",
        json::string(e.entity_type.value()),
    ).with("description", json::text_or_null_of(&e.description)).with(
        "confidence",
        types::graph::confidence_of(&e.confidence),
    ).with("metadata", citation::metadata_object(&e.metadata)).done();
    assert(r@->Object_0 =~= entity_dict(e@)->Object_0);
    r
}

/// The predicate with all that is known of it.
fn predicate_to_dict(p: &Predicate) -> (r: Json)
    ensures
        r@ == predicate_dict(p@),
{
    let r = ObjectBuilder::new().with("type", Json::Text(p.output_type())).with(
        "normalized_type",
        json::string(p.predicate_type.value()),
    ).with("label", json::text_or_null_of(&p.label)).with(
        "confidence",
        types::graph::confidence_of(&p.confidence),
    ).with("metadata", citation::metadata_object(&p.metadata)).done();
    assert(r@->Object_0 =~= predicate_dict(p@)->Object_0);
    r
}

/// The relationship with all that is known of it.
pub fn triple_to_dict(t: &Triple) -> (r: Json)
    ensures
        r@ == triple_dict(t@),
{
    let r = ObjectBuilder::new().with("subject", entity_to_dict(&t.subject)).with(
        "predicate",
        predicate_to_dict(&t.predicate),
    ).with("object", entity_to_dict(&t.object)).with(
        "confidence",
        types::graph::confidence_of(&t.confidence),
    ).with("metadata", citation::metadata_object(&t.metadata)).done();
    assert(r@->Object_0 =~= triple_dict(t@)->Object_0);
    r
}

/// The graph with all that is known of it.
pub fn to_dict(kg: &KnowledgeGraph) -> (r: Json)
    ensures
        r@ == graph_dict(kg@),
{
    let mut entities = ObjectBuilder::new();
    let n: usize = kg.entities.len();
    let mut i: usize = 0;
    while i < n
        invariant
            i <= n,
            n == kg.entities@.len(),
            entities@ =~= entity_dicts(kg.entities@).take(i as int),
        decreases n - i,
    {
        entities.add(kg.entities.key_at(i).as_str(), entity_to_dict(kg.entities.value_at(i)));
        i += 1;
    }
    assert(entities@ =~= entity_dicts(kg@.entities));
    let mut triples: Vec<Json> = Vec::new();
    let mut j: usize = 0;
    while j < kg.triples.len()
        invariant
            j <= kg.triples@.len(),
            seqs::views(triples@) =~= triple_dicts(seqs::views(kg.triples@)).take(j as int),
        decreases kg.triples.len() - j,
    {
        triples.push(triple_to_dict(&kg.triples[j]));
        j += 1;
    }
    assert(seqs::views(triples@) =~= triple_dicts(kg@.triples));
    let r = ObjectBuilder::new().with("entities", entities.done()).with(
        "triples",
        Json::Array(triples),
    ).with("metadata", citation::metadata_object(&kg.metadata)).done();
    assert(r@->Object_0 =~= graph_dict(kg@)->Object_0);
    r
}

/// A relationship as a link between two nodes.
fn show_link(t: &Triple) -> (r: Json)
    ensures
        r@ == link_item(t@),
{
    let r = ObjectBuilder::new().with("source", json::string(t.subject.id.as_str())).with(
        "target",
        json::string(t.object.id.as_str()),
    ).with("key", json::string(t.predicate.predicate_type.value())).done();
    assert(r@->Object_0 =~= link_item(t@)->Object_0);
    r
}

/// The graph as nodes and links.
pub fn to_node_link(kg: &KnowledgeGraph) -> (r: Json)
    ensures
        r@ == node_link(kg@),
{
    let mut nodes: Vec<Json> = Vec::new();
    let n: usize = kg.entities.len();
    let mut i: usize = 0;
    while i < n
        invariant
            i <= n,
            n == kg.entities@.len(),
            seqs::views(nodes@) =~= node_items(kg.entities@).take(i as int),
        decreases n - i,
    {
        nodes.push(query::show_entity(kg.entities.value_at(i)));
        i += 1;
    }
    assert(seqs::views(nodes@) =~= node_items(kg@.entities));
    let mut links: Vec<Json> = Vec::new();
    let mut j: usize = 0;
    while j < kg.triples.len()
        invariant
            j <= kg.triples@.len(),
            seqs::views(links@) =~= link_items(seqs::views(kg.triples@)).take(j as int),
        decreases kg.triples.len() - j,
    {
        links.push(show_link(&kg.triples[j]));
        j += 1;
    }
    assert(seqs::views(links@) =~= link_items(kg@.triples));
    let r = ObjectBuilder::new().with("nodes", Json::Array(nodes)).with(
        "links",
        Json::Array(links),
    ).done();
    assert(r@->Object_0 =~= node_link(kg@)->Object_0);
    r
}

/// The relationships of the graph as a diagram in the language of Mermaid.
pub fn get_mermaid_code(kg: &KnowledgeGraph) -> (r: String)
    ensures
        r@ == diagram(kg@.triples),
{
    let ghost ts = seqs::views(kg.triples@);
    let mut s = "graph TD".to_owned();
    let mut j: usize = 0;
    while j < kg.triples.len()
        invariant
            j <= kg.triples@.len(),
            ts == seqs::views(kg.triples@),
            s@ == diagram(ts.take(j as int)),
        decreases kg.triples.len() - j,
    {
        let t = &kg.triples[j];
        let ghost before = s@;
        assert(ts.take(j + 1).drop_last() =~= ts.take(j as int));
        assert(ts.take(j + 1).last() == t@);
        s.append("\n    ");
        s.append(t.subject.id.as_str());
        s.append("[\"");
        s.append(t.subject.label.as_str());
        s.append("\"] -->|\"");
        s.append(t.predicate.display_label().as_str());
        s.append("\"| ");
        s.append(t.object.id.as_str());
        s.append("[\"");
        s.append(t.object.label.as_str());
        s.append("\"]");
        assert(s@ =~= before + diagram_line(t@));
        j += 1;
    }
    assert(ts.take(j as int) =~= ts);
    s
}

/// What is counted of the graph.
pub fn get_stats(kg: &KnowledgeGraph) -> (r: Json)
    ensures
        r@ == query::stats(kg@),
{
    query::stats_of(kg)
}

} // verus!
