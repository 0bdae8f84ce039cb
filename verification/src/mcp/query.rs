//! Answers: what is said of a graph and of a change to it.

use vstd::prelude::*;

use crate::json::{Json, JsonV, ObjectBuilder};
use crate::mcp::policy;
use crate::mcp::policy::{PolicyV, SchemaKind, SchemaPolicy};
use crate::table::Table;
use crate::types::graph::{
    Entity, EntityV, GraphV, KnowledgeGraph, Metadata, MetadataV, Triple, TripleV,
};
use crate::{citation, graph_build, json, seqs, table, text, types};

verus! {

broadcast use {crate::seqs::group_views, crate::json::group_json};

/// What is counted of a graph.
pub open spec fn stats(g: GraphV) -> JsonV {
    JsonV::Object(
        seq![
            ("num_entities"@, JsonV::Uint(g.entities.len() as u64)),
            ("num_triples"@, JsonV::Uint(g.triples.len() as u64)),
        ],
    )
}

/// What is counted of a graph.
pub(crate) fn stats_of(kg: &KnowledgeGraph) -> (r: Json)
    ensures
        r@ == stats(kg@),
{
    let r = ObjectBuilder::new().with("num_entities", Json::Uint(kg.entities.len() as u64)).with(
        "num_triples",
        Json::Uint(kg.triples.len() as u64),
    ).done();
    assert(r@->Object_0 =~= stats(kg@)->Object_0);
    r
}

/// The answer to a change.
pub open spec fn report_value(path: Seq<char>, g: GraphV, message: Seq<char>) -> JsonV {
    JsonV::Object(
        seq![
            ("ok"@, JsonV::Bool(true)),
            ("message"@, JsonV::Text(message)),
            ("path"@, JsonV::Text(path)),
            ("stats"@, stats(g)),
        ],
    )
}

/// The answer to a change: that it was made, where, and what the graph holds now.
pub fn report(path: &str, kg: &KnowledgeGraph, message: &str) -> (r: Json)
    ensures
        r@ == report_value(path@, kg@, message@),
{
    let r = ObjectBuilder::new().with("ok", Json::Bool(true)).with(
        "message",
        json::string(message),
    ).with("path", json::string(path)).with("stats", stats_of(kg)).done();
    assert(r@->Object_0 =~= report_value(path@, kg@, message@)->Object_0);
    r
}

/// How many labels are listed.
pub const MAX_KNOWN: usize = 40;

/// The labels of entities.
pub open spec fn labels_of(es: Seq<(Seq<char>, EntityV)>) -> Seq<Seq<char>> {
    Seq::new(es.len(), |i: int| es[i].1.label)
}

/// The labels of the entities, for one who named an entity that is not there.
pub open spec fn known(es: Seq<(Seq<char>, EntityV)>) -> Seq<char> {
    let labels = labels_of(es);
    if labels.len() == 0 {
        "(none yet)"@
    } else if labels.len() > MAX_KNOWN {
        text::joined(labels.take(MAX_KNOWN as int), ", "@) + ", … (+"@ + text::decimal(
            (labels.len() - MAX_KNOWN) as nat,
        ) + " more)"@
    } else {
        text::joined(labels, ", "@)
    }
}

/// The labels of the entities, for one who named an entity that is not there.
pub fn known_labels(es: &Table<Entity>) -> (r: String)
    ensures
        r@ == known(es@),
{
    let n: usize = es.len();
    if n == 0 {
        return "(none yet)".to_owned();
    }
    let m: usize = if n > MAX_KNOWN {
        MAX_KNOWN
    } else {
        n
    };
    let mut shown: Vec<String> = Vec::new();
    let mut i: usize = 0;
    while i < m
        invariant
            i <= m <= n,
            n == es@.len(),
            seqs::views(shown@) =~= labels_of(es@).take(i as int),
        decreases m - i,
    {
        shown.push(es.value_at(i).label.clone());
        i += 1;
    }
    let mut s = text::join(&shown, ", ");
    if n > MAX_KNOWN {
        s.append(", … (+");
        s.append(text::to_decimal((n - MAX_KNOWN) as u64).as_str());
        s.append(" more)");
    } else {
        assert(labels_of(es@).take(n as int) =~= labels_of(es@));
    }
    s
}

/// An answer about the schema tells the types that were proposed by their kind.
pub proof fn law_proposed_types_are_told_by_kind(p: PolicyV, path: Seq<char>, m: MetadataV)
    ensures
        ({
            let a = schema_answer(p, path, m);
            let n = json::field(a, "new_schema_types"@)->0;
            &&& json::text_in(json::field(a, "path"@)) == Some(path)
            &&& json::field(a, "schema"@) == Some(types::spec::schema_value(p.schema))
            &&& json::field(n, "nodes"@) == Some(
                json::texts(policy::proposed(m, SchemaKind::Node)),
            )
            &&& json::field(n, "relations"@) == Some(
                json::texts(policy::proposed(m, SchemaKind::Relation)),
            )
            &&& json::field(n, "attributes"@) == Some(
                json::texts(policy::proposed(m, SchemaKind::Attribute)),
            )
        }),
{
    reveal_strlit("path");
    assert("path"@.len() == 4);
    assert("path"@.len() == 4);
    reveal_strlit("schema_mode");
    assert("schema_mode"@.len() == 11);
    assert("schema_mode"@.len() == 11);
    reveal_strlit("schema");
    assert("schema"@.len() == 6);
    assert("schema"@.len() == 6);
    reveal_strlit("new_schema_types");
    assert("new_schema_types"@.len() == 16);
    assert("new_schema_types"@.len() == 16);
    reveal_strlit("nodes");
    assert("nodes"@.len() == 5);
    assert("nodes"@.len() == 5);
    reveal_strlit("relations");
    assert("relations"@.len() == 9);
    assert("relations"@.len() == 9);
    reveal_strlit("attributes");
    assert("attributes"@.len() == 10);
    assert("attributes"@.len() == 10);
    let o = schema_answer(p, path, m)->Object_0;
    json::lemma_field_at(o, 0);
    json::lemma_field_at(o, 2);
    json::lemma_field_at(o, 3);
    json::lemma_field_at(o[3].1->Object_0, 0);
    json::lemma_field_at(o[3].1->Object_0, 1);
    json::lemma_field_at(o[3].1->Object_0, 2);
}

/// A report tells where the graph is kept, what was done and what the graph then counts.
pub proof fn law_reports_tell_what_was_done(path: Seq<char>, g: GraphV, message: Seq<char>)
    ensures
        json::text_in(json::field(report_value(path, g, message), "path"@)) == Some(path),
        json::text_in(json::field(report_value(path, g, message), "message"@)) == Some(message),
        json::field(report_value(path, g, message), "stats"@) == Some(stats(g)),
{
    reveal_strlit("ok");
    assert("ok"@.len() == 2);
    assert("ok"@.len() == 2);
    reveal_strlit("message");
    assert("message"@.len() == 7);
    assert("message"@.len() == 7);
    reveal_strlit("path");
    assert("path"@.len() == 4);
    assert("path"@.len() == 4);
    reveal_strlit("stats");
    assert("stats"@.len() == 5);
    assert("stats"@.len() == 5);
    let o = report_value(path, g, message)->Object_0;
    json::lemma_field_at(o, 1);
    json::lemma_field_at(o, 2);
    json::lemma_field_at(o, 3);
}

/// The schema of a graph, as it is answered.
pub open spec fn schema_answer(p: PolicyV, path: Seq<char>, m: MetadataV) -> JsonV {
    JsonV::Object(
        seq![
            ("path"@, JsonV::Text(path)),
            ("schema_mode"@, JsonV::Text(types::spec::mode_name(p.mode))),
            ("schema"@, types::spec::schema_value(p.schema)),
            (
                "new_schema_types"@,
                JsonV::Object(
                    seq![
                        ("nodes"@, json::texts(policy::proposed(m, SchemaKind::Node))),
                        ("relations"@, json::texts(policy::proposed(m, SchemaKind::Relation))),
                        ("attributes"@, json::texts(policy::proposed(m, SchemaKind::Attribute))),
                    ],
                ),
            ),
        ],
    )
}

/// An entity as it is listed.
pub open spec fn entity_item(id: Seq<char>, e: EntityV) -> JsonV {
    JsonV::Object(
        seq![
            ("id"@, JsonV::Text(id)),
            ("label"@, JsonV::Text(e.label)),
            ("type"@, JsonV::Text(types::vocab::entity_type_name(e.entity_type))),
        ],
    )
}

/// A relationship as it is listed.
pub open spec fn relation_item(t: TripleV) -> JsonV {
    JsonV::Object(
        seq![
            ("source"@, JsonV::Text(t.subject.label)),
            ("predicate"@, JsonV::Text(types::graph::predicate_display_label(t.predicate))),
            ("target"@, JsonV::Text(t.object.label)),
        ],
    )
}

/// The lesser of two numbers.
pub open spec fn lesser(a: nat, b: nat) -> nat {
    if a <= b {
        a
    } else {
        b
    }
}

/// At most `limit` entities as they are listed.
pub open spec fn entity_items(es: Seq<(Seq<char>, EntityV)>, limit: nat) -> JsonV {
    JsonV::Array(Seq::new(lesser(es.len(), limit), |i: int| entity_item(es[i].0, es[i].1)))
}

/// At most `limit` relationships as they are listed.
pub open spec fn relation_items(ts: Seq<TripleV>, limit: nat) -> JsonV {
    JsonV::Array(Seq::new(lesser(ts.len(), limit), |i: int| relation_item(ts[i])))
}

/// A relationship as it is seen from its subject.
pub open spec fn outgoing_item(t: TripleV) -> JsonV {
    JsonV::Object(
        seq![
            ("predicate"@, JsonV::Text(types::graph::predicate_display_label(t.predicate))),
            ("target"@, JsonV::Text(t.object.label)),
            (
                "target_type"@,
                JsonV::Text(types::vocab::entity_type_name(t.object.entity_type)),
            ),
        ],
    )
}

/// A relationship that is seen from its subject tells the type of its object, and one that is
/// seen from its object the type of its subject.
pub proof fn law_the_other_end_is_typed(t: TripleV)
    ensures
        json::text_in(json::field(outgoing_item(t), "target_type"@)) == Some(
            types::vocab::entity_type_name(t.object.entity_type),
        ),
        json::text_in(json::field(incoming_item(t), "source_type"@)) == Some(
            types::vocab::entity_type_name(t.subject.entity_type),
        ),
{
    reveal_strlit("predicate");
    assert("predicate"@.len() == 9);
    assert("predicate"@.len() == 9);
    reveal_strlit("source");
    assert("source"@.len() == 6);
    assert("source"@.len() == 6);
    reveal_strlit("source_type");
    assert("source_type"@.len() == 11);
    assert("source_type"@.len() == 11);
    reveal_strlit("target");
    assert("target"@.len() == 6);
    assert("target"@.len() == 6);
    reveal_strlit("target_type");
    assert("target_type"@.len() == 11);
    assert("target_type"@.len() == 11);
    assert("source"@[0] != "target"@[0]);
    assert("source_type"@[0] != "target_type"@[0]);
    json::lemma_field_at(outgoing_item(t)->Object_0, 2);
    json::lemma_field_at(incoming_item(t)->Object_0, 2);
}

/// What is told of an entity in the middle is told under its own name.
pub proof fn law_the_entity_in_the_middle_is_told(e: EntityV)
    ensures
        json::text_in(json::field(focal_item(e), "id"@)) == Some(e.id),
        json::text_in(json::field(focal_item(e), "label"@)) == Some(e.label),
        json::text_in(json::field(focal_item(e), "type"@)) == Some(
            types::vocab::entity_type_name(e.entity_type),
        ),
        e.description matches Some(d) ==> json::text_in(json::field(focal_item(e), "description"@))
            == Some(d),
        json::field(focal_item(e), "attributes"@) == Some(JsonV::Object(e.metadata)),
{
    reveal_strlit("id");
    assert("id"@.len() == 2);
    assert("id"@.len() == 2);
    reveal_strlit("label");
    assert("label"@.len() == 5);
    assert("label"@.len() == 5);
    reveal_strlit("type");
    assert("type"@.len() == 4);
    assert("type"@.len() == 4);
    reveal_strlit("description");
    assert("description"@.len() == 11);
    assert("description"@.len() == 11);
    reveal_strlit("attributes");
    assert("attributes"@.len() == 10);
    assert("attributes"@.len() == 10);
    let o = focal_item(e)->Object_0;
    json::lemma_field_at(o, 0);
    json::lemma_field_at(o, 1);
    json::lemma_field_at(o, 2);
    json::lemma_field_at(o, 3);
    json::lemma_field_at(o, 4);
}

/// A relationship as it is seen from its object.
pub open spec fn incoming_item(t: TripleV) -> JsonV {
    JsonV::Object(
        seq![
            ("predicate"@, JsonV::Text(types::graph::predicate_display_label(t.predicate))),
            ("source"@, JsonV::Text(t.subject.label)),
            (
                "source_type"@,
                JsonV::Text(types::vocab::entity_type_name(t.subject.entity_type)),
            ),
        ],
    )
}

/// The relationships of which the entity `id` is the subject.
pub open spec fn outgoing(ts: Seq<TripleV>, id: Seq<char>) -> Seq<JsonV>
    decreases ts.len(),
{
    if ts.len() == 0 {
        seq![]
    } else if ts.last().subject.id == id {
        outgoing(ts.drop_last(), id).push(outgoing_item(ts.last()))
    } else {
        outgoing(ts.drop_last(), id)
    }
}

/// The relationships of which the entity `id` is the object and not the subject.
pub open spec fn incoming(ts: Seq<TripleV>, id: Seq<char>) -> Seq<JsonV>
    decreases ts.len(),
{
    if ts.len() == 0 {
        seq![]
    } else if ts.last().subject.id != id && ts.last().object.id == id {
        incoming(ts.drop_last(), id).push(incoming_item(ts.last()))
    } else {
        incoming(ts.drop_last(), id)
    }
}

/// An entity as it is shown by itself.
pub open spec fn focal_item(e: EntityV) -> JsonV {
    JsonV::Object(
        seq![
            ("id"@, JsonV::Text(e.id)),
            ("label"@, JsonV::Text(e.label)),
            ("type"@, JsonV::Text(types::vocab::entity_type_name(e.entity_type))),
            ("description"@, json::text_or_null(e.description)),
            ("attributes"@, JsonV::Object(e.metadata)),
        ],
    )
}

/// The members of an answer that says whether something was left out.
pub open spec fn flagged(
    members: Seq<(Seq<char>, JsonV)>,
    truncated: bool,
) -> Seq<(Seq<char>, JsonV)> {
    if truncated {
        members.push(("truncated"@, JsonV::Bool(true)))
    } else {
        members
    }
}

/// The name of the entity that a question is about.
pub open spec fn focus(entity: Option<Seq<char>>) -> Option<Seq<char>> {
    match entity {
        Some(e) => if text::trimmed(e).len() > 0 {
            Some(text::trimmed(e))
        } else {
            None
        },
        None => None,
    }
}

/// The neighbours of the entity `id`, as they are answered.
pub open spec fn neighbour_members(
    head: Seq<(Seq<char>, JsonV)>,
    g: GraphV,
    e: EntityV,
    id: Seq<char>,
) -> Seq<(Seq<char>, JsonV)> {
    head.push(("entity"@, focal_item(e))).push(
        ("outgoing"@, JsonV::Array(outgoing(g.triples, id))),
    ).push(("incoming"@, JsonV::Array(incoming(g.triples, id))))
}

/// The answer to a question about a graph, or why there is none.
pub open spec fn answer(
    path: Seq<char>,
    rel: Seq<char>,
    g: GraphV,
    view: Seq<char>,
    entity: Option<Seq<char>>,
    limit: nat,
) -> Result<JsonV, Seq<char>> {
    let head = seq![
        ("path"@, JsonV::Text(path)),
        ("view"@, JsonV::Text(view)),
        ("stats"@, stats(g)),
    ];
    let more_entities = g.entities.len() > limit;
    let more_relations = g.triples.len() > limit;
    if view == "summary"@ {
        Ok(JsonV::Object(head))
    } else if view == "entities"@ {
        Ok(
            JsonV::Object(
                flagged(
                    head.push(("entities"@, entity_items(g.entities, limit))),
                    more_entities,
                ),
            ),
        )
    } else if view == "relations"@ {
        Ok(
            JsonV::Object(
                flagged(
                    head.push(("relations"@, relation_items(g.triples, limit))),
                    more_relations,
                ),
            ),
        )
    } else if view == "full"@ {
        Ok(
            JsonV::Object(
                flagged(
                    head.push(("entities"@, entity_items(g.entities, limit))).push(
                        ("relations"@, relation_items(g.triples, limit)),
                    ),
                    more_entities || more_relations,
                ),
            ),
        )
    } else if view == "neighbors"@ {
        match focus(entity) {
            None => Err("view='neighbors' requires the `entity` argument (an entity name)"@),
            Some(n) => {
                let id = graph_build::id_of_name(n);
                match table::lookup(g.entities, id) {
                    None => Err(
                        "entity '"@ + n + "' not found in graph '"@ + rel
                            + "'. Known entities: "@ + known(g.entities),
                    ),
                    Some(e) => Ok(JsonV::Object(neighbour_members(head, g, e, id))),
                }
            },
        }
    } else {
        Err(
            "unknown view '"@ + view
                + "'. Valid views: summary, entities, relations, neighbors, full."@,
        )
    }
}

/// The members of an answer by their names.
proof fn lemma_members_named(o: Seq<(Seq<char>, JsonV)>, i: int)
    requires
        o.len() >= 4,
        o[0].0 == "path"@ && o[1].0 == "view"@ && o[2].0 == "stats"@,
        i < o.len() && (i == 3 && (o[3].0 == "entities"@ || o[3].0 == "relations"@ || o[3].0
            == "entity"@) || i == 4 && (o[4].0 == "relations"@ && o[3].0 == "entities"@
            || o[4].0 == "outgoing"@ && o[3].0 == "entity"@) || i == 5 && o[5].0 == "incoming"@
            && o[4].0 == "outgoing"@ && o[3].0 == "entity"@),
    ensures
        json::field(JsonV::Object(o), o[i].0) == Some(o[i].1),
{
    reveal_strlit("path");
    assert("path"@.len() == 4);
    reveal_strlit("view");
    assert("view"@.len() == 4);
    reveal_strlit("stats");
    assert("stats"@.len() == 5);
    reveal_strlit("entities");
    assert("entities"@.len() == 8);
    reveal_strlit("relations");
    assert("relations"@.len() == 9);
    reveal_strlit("entity");
    assert("entity"@.len() == 6);
    reveal_strlit("outgoing");
    assert("outgoing"@.len() == 8);
    reveal_strlit("incoming");
    assert("incoming"@.len() == 8);
    assert("outgoing"@[0] != "incoming"@[0]);
    assert forall|k: int| 0 <= k < i implies (#[trigger] o[k]).0 != o[i].0 by {
        assert(k == 0 || k == 1 || k == 2 || k == 3 || k == 4);
    }
    json::lemma_field_at(o, i);
}

/// The members of a relationship as it is listed.
proof fn lemma_relation_item(t: TripleV)
    ensures
        json::field(relation_item(t), "source"@) == Some(JsonV::Text(t.subject.label)),
        json::field(relation_item(t), "predicate"@) == Some(
            JsonV::Text(types::graph::predicate_display_label(t.predicate)),
        ),
        json::field(relation_item(t), "target"@) == Some(JsonV::Text(t.object.label)),
{
    reveal_strlit("source");
    assert("source"@.len() == 6);
    reveal_strlit("predicate");
    assert("predicate"@.len() == 9);
    reveal_strlit("target");
    assert("target"@.len() == 6);
    assert("source"@[0] != "target"@[0]);
    let o = relation_item(t)->Object_0;
    json::lemma_field_at(o, 0);
    json::lemma_field_at(o, 1);
    json::lemma_field_at(o, 2);
}

/// The members of a relationship as it is seen from one of its ends.
proof fn lemma_edge_items(t: TripleV)
    ensures
        json::field(outgoing_item(t), "target"@) == Some(JsonV::Text(t.object.label)),
        json::field(outgoing_item(t), "predicate"@) == Some(
            JsonV::Text(types::graph::predicate_display_label(t.predicate)),
        ),
        json::field(incoming_item(t), "source"@) == Some(JsonV::Text(t.subject.label)),
        json::field(incoming_item(t), "predicate"@) == Some(
            JsonV::Text(types::graph::predicate_display_label(t.predicate)),
        ),
{
    reveal_strlit("source");
    assert("source"@.len() == 6);
    reveal_strlit("predicate");
    assert("predicate"@.len() == 9);
    reveal_strlit("target");
    assert("target"@.len() == 6);
    json::lemma_field_at(outgoing_item(t)->Object_0, 0);
    json::lemma_field_at(outgoing_item(t)->Object_0, 1);
    json::lemma_field_at(incoming_item(t)->Object_0, 0);
    json::lemma_field_at(incoming_item(t)->Object_0, 1);
}

/// Where relationships are listed, each item says of the relationship at its place what it
/// runs from and what it runs to: `source` is the label of its subject and `target` that of
/// its object. As many are listed as there are, or as may be.
pub proof fn law_relations_are_listed_from_source_to_target(
    path: Seq<char>,
    rel: Seq<char>,
    g: GraphV,
    view: Seq<char>,
    entity: Option<Seq<char>>,
    limit: nat,
    i: int,
)
    requires
        view == "relations"@ || view == "full"@,
    ensures
        ({
            let r = answer(path, rel, g, view, entity, limit);
            let items = json::array_in(json::field(r->Ok_0, "relations"@))->0;
            &&& r is Ok
            &&& json::array_in(json::field(r->Ok_0, "relations"@)) is Some
            &&& items.len() <= limit && items.len() <= g.triples.len()
            &&& items.len() == limit || items.len() == g.triples.len()
            &&& 0 <= i < items.len() ==> {
                &&& json::text_in(json::field(items[i], "source"@)) == Some(
                    g.triples[i].subject.label,
                )
                &&& json::text_in(json::field(items[i], "target"@)) == Some(
                    g.triples[i].object.label,
                )
                &&& json::text_in(json::field(items[i], "predicate"@)) == Some(
                    types::graph::predicate_display_label(g.triples[i].predicate),
                )
            }
        }),
{
    lemma_view_names();
    let o = answer(path, rel, g, view, entity, limit)->Ok_0->Object_0;
    if view == "relations"@ {
        lemma_members_named(o, 3);
    } else {
        lemma_members_named(o, 4);
    }
    if 0 <= i < g.triples.len() {
        lemma_relation_item(g.triples[i]);
    }
}

/// The names of the views differ.
proof fn lemma_view_names()
    ensures
        "summary"@ != "relations"@,
        "summary"@ != "full"@,
        "summary"@ != "entities"@,
        "summary"@ != "neighbors"@,
        "entities"@ != "relations"@,
        "entities"@ != "full"@,
        "entities"@ != "neighbors"@,
        "relations"@ != "full"@,
        "relations"@ != "neighbors"@,
        "full"@ != "neighbors"@,
{
    reveal_strlit("summary");
    assert("summary"@.len() == 7);
    reveal_strlit("entities");
    assert("entities"@.len() == 8);
    reveal_strlit("relations");
    assert("relations"@.len() == 9);
    reveal_strlit("full");
    assert("full"@.len() == 4);
    reveal_strlit("neighbors");
    assert("neighbors"@.len() == 9);
    assert("relations"@[0] != "neighbors"@[0]);
}

/// Where entities are listed, each item has the id, the label and the type of the entity at
/// its place. As many are listed as there are, or as may be.
pub proof fn law_entities_are_listed_in_order(
    path: Seq<char>,
    rel: Seq<char>,
    g: GraphV,
    view: Seq<char>,
    entity: Option<Seq<char>>,
    limit: nat,
    i: int,
)
    requires
        view == "entities"@ || view == "full"@,
    ensures
        ({
            let r = answer(path, rel, g, view, entity, limit);
            let items = json::array_in(json::field(r->Ok_0, "entities"@))->0;
            &&& r is Ok
            &&& json::array_in(json::field(r->Ok_0, "entities"@)) is Some
            &&& items.len() <= limit && items.len() <= g.entities.len()
            &&& items.len() == limit || items.len() == g.entities.len()
            &&& 0 <= i < items.len() ==> {
                &&& json::text_in(json::field(items[i], "id"@)) == Some(g.entities[i].0)
                &&& json::text_in(json::field(items[i], "label"@)) == Some(
                    g.entities[i].1.label,
                )
                &&& json::text_in(json::field(items[i], "type"@)) == Some(
                    types::vocab::entity_type_name(g.entities[i].1.entity_type),
                )
            }
        }),
{
    lemma_view_names();
    let o = answer(path, rel, g, view, entity, limit)->Ok_0->Object_0;
    lemma_members_named(o, 3);
    if 0 <= i < g.entities.len() {
        reveal_strlit("id");
        assert("id"@.len() == 2);
        reveal_strlit("label");
        assert("label"@.len() == 5);
        reveal_strlit("type");
        assert("type"@.len() == 4);
        let x = entity_item(g.entities[i].0, g.entities[i].1)->Object_0;
        json::lemma_field_at(x, 0);
        json::lemma_field_at(x, 1);
        json::lemma_field_at(x, 2);
    }
}

/// Whatever is asked, an answer says where the graph is, what was asked, and how many
/// entities and relationships the graph has.
pub proof fn law_answers_count_the_graph(
    path: Seq<char>,
    rel: Seq<char>,
    g: GraphV,
    view: Seq<char>,
    entity: Option<Seq<char>>,
    limit: nat,
)
    requires
        answer(path, rel, g, view, entity, limit) is Ok,
    ensures
        ({
            let v = answer(path, rel, g, view, entity, limit)->Ok_0;
            let counts = json::field(v, "stats"@)->0;
            &&& json::text_in(json::field(v, "path"@)) == Some(path)
            &&& json::text_in(json::field(v, "view"@)) == Some(view)
            &&& json::uint_in(json::field(counts, "num_entities"@)) == Some(
                g.entities.len() as u64,
            )
            &&& json::uint_in(json::field(counts, "num_triples"@)) == Some(
                g.triples.len() as u64,
            )
        }),
{
    lemma_view_names();
    reveal_strlit("path");
    assert("path"@.len() == 4);
    reveal_strlit("view");
    assert("view"@.len() == 4);
    reveal_strlit("stats");
    assert("stats"@.len() == 5);
    reveal_strlit("num_entities");
    assert("num_entities"@.len() == 12);
    reveal_strlit("num_triples");
    assert("num_triples"@.len() == 11);
    assert("path"@[0] != "view"@[0]);
    let o = answer(path, rel, g, view, entity, limit)->Ok_0->Object_0;
    json::lemma_field_at(o, 0);
    json::lemma_field_at(o, 1);
    json::lemma_field_at(o, 2);
    json::lemma_field_at(stats(g)->Object_0, 0);
    json::lemma_field_at(stats(g)->Object_0, 1);
}

/// A list is said to be cut short where, and only where, there is more than may be listed.
pub proof fn law_cut_lists_are_flagged(
    path: Seq<char>,
    rel: Seq<char>,
    g: GraphV,
    view: Seq<char>,
    entity: Option<Seq<char>>,
    limit: nat,
)
    requires
        view == "entities"@ || view == "relations"@ || view == "full"@,
    ensures
        ({
            let r = answer(path, rel, g, view, entity, limit);
            let cut = view != "relations"@ && g.entities.len() > limit || view != "entities"@
                && g.triples.len() > limit;
            &&& r is Ok
            &&& json::field(r->Ok_0, "truncated"@) == if cut {
                Some(JsonV::Bool(true))
            } else {
                None
            }
        }),
{
    lemma_view_names();
    reveal_strlit("path");
    assert("path"@.len() == 4);
    reveal_strlit("view");
    assert("view"@.len() == 4);
    reveal_strlit("stats");
    assert("stats"@.len() == 5);
    reveal_strlit("entities");
    assert("entities"@.len() == 8);
    reveal_strlit("relations");
    assert("relations"@.len() == 9);
    reveal_strlit("truncated");
    assert("truncated"@.len() == 9);
    assert("relations"@[0] != "truncated"@[0]);
    let o = answer(path, rel, g, view, entity, limit)->Ok_0->Object_0;
    table::lemma_position(o, "truncated"@);
    let last = o.len() - 1;
    if o[last].0 == "truncated"@ {
        table::lemma_position_at(o, "truncated"@, last);
    }
}

/// A relationship of an entity is seen from it: among those that go out from its subject
/// is one to the label of its object, and among those that come in to its object, where
/// that is another entity, is one from the label of its subject.
pub proof fn law_relations_are_seen_from_their_ends(ts: Seq<TripleV>, i: int)
    requires
        0 <= i < ts.len(),
    ensures
        exists|k: int|
            0 <= k < outgoing(ts, ts[i].subject.id).len() && json::text_in(
                json::field(#[trigger] outgoing(ts, ts[i].subject.id)[k], "target"@),
            ) == Some(ts[i].object.label) && json::text_in(
                json::field(outgoing(ts, ts[i].subject.id)[k], "predicate"@),
            ) == Some(types::graph::predicate_display_label(ts[i].predicate)),
        ts[i].object.id != ts[i].subject.id ==> exists|k: int|
            0 <= k < incoming(ts, ts[i].object.id).len() && json::text_in(
                json::field(#[trigger] incoming(ts, ts[i].object.id)[k], "source"@),
            ) == Some(ts[i].subject.label) && json::text_in(
                json::field(incoming(ts, ts[i].object.id)[k], "predicate"@),
            ) == Some(types::graph::predicate_display_label(ts[i].predicate)),
{
    lemma_edge_items(ts[i]);
    lemma_seen_going_out(ts, i);
    let a = outgoing(ts, ts[i].subject.id);
    let k = choose|k: int| 0 <= k < a.len() && a[k] == outgoing_item(ts[i]);
    assert(json::text_in(json::field(a[k], "target"@)) == Some(ts[i].object.label));
    if ts[i].object.id != ts[i].subject.id {
        lemma_seen_coming_in(ts, i);
        let b = incoming(ts, ts[i].object.id);
        let m = choose|m: int| 0 <= m < b.len() && b[m] == incoming_item(ts[i]);
        assert(json::text_in(json::field(b[m], "source"@)) == Some(ts[i].subject.label));
    }
}

proof fn lemma_seen_going_out(ts: Seq<TripleV>, i: int)
    requires
        0 <= i < ts.len(),
    ensures
        outgoing(ts, ts[i].subject.id).contains(outgoing_item(ts[i])),
    decreases ts.len(),
{
    let id = ts[i].subject.id;
    let after = outgoing(ts, id);
    if i == ts.len() - 1 {
        assert(after[after.len() - 1] == outgoing_item(ts[i]));
    } else {
        assert(ts.drop_last()[i] == ts[i]);
        lemma_seen_going_out(ts.drop_last(), i);
        let before = outgoing(ts.drop_last(), id);
        let k = choose|k: int| 0 <= k < before.len() && before[k] == outgoing_item(ts[i]);
        assert(after[k] == outgoing_item(ts[i]));
    }
}

proof fn lemma_seen_coming_in(ts: Seq<TripleV>, i: int)
    requires
        0 <= i < ts.len(),
        ts[i].object.id != ts[i].subject.id,
    ensures
        incoming(ts, ts[i].object.id).contains(incoming_item(ts[i])),
    decreases ts.len(),
{
    let id = ts[i].object.id;
    let after = incoming(ts, id);
    if i == ts.len() - 1 {
        assert(after[after.len() - 1] == incoming_item(ts[i]));
    } else {
        assert(ts.drop_last()[i] == ts[i]);
        lemma_seen_coming_in(ts.drop_last(), i);
        let before = incoming(ts.drop_last(), id);
        let k = choose|k: int| 0 <= k < before.len() && before[k] == incoming_item(ts[i]);
        assert(after[k] == incoming_item(ts[i]));
    }
}

/// All that is seen from an entity is one of its relationships: what goes out from it has
/// it as its subject, and what comes in to it has it as its object.
pub proof fn law_neighbours_are_related(ts: Seq<TripleV>, id: Seq<char>, k: int)
    ensures
        0 <= k < outgoing(ts, id).len() ==> exists|i: int|
            0 <= i < ts.len() && (#[trigger] ts[i]).subject.id == id && json::text_in(
                json::field(outgoing(ts, id)[k], "target"@),
            ) == Some(ts[i].object.label),
        0 <= k < incoming(ts, id).len() ==> exists|i: int|
            0 <= i < ts.len() && (#[trigger] ts[i]).object.id == id && json::text_in(
                json::field(incoming(ts, id)[k], "source"@),
            ) == Some(ts[i].subject.label),
    decreases ts.len(),
{
    if ts.len() > 0 {
        let before = ts.drop_last();
        law_neighbours_are_related(before, id, k);
        lemma_edge_items(ts.last());
        assert(ts[ts.len() - 1] == ts.last());
        if 0 <= k < outgoing(before, id).len() {
            let i = choose|i: int|
                0 <= i < before.len() && (#[trigger] before[i]).subject.id == id && json::text_in(
                    json::field(outgoing(before, id)[k], "target"@),
                ) == Some(before[i].object.label);
            assert(ts[i] == before[i]);
            assert(outgoing(ts, id)[k] == outgoing(before, id)[k]);
        }
        if 0 <= k < incoming(before, id).len() {
            let i = choose|i: int|
                0 <= i < before.len() && (#[trigger] before[i]).object.id == id && json::text_in(
                    json::field(incoming(before, id)[k], "source"@),
                ) == Some(before[i].subject.label);
            assert(ts[i] == before[i]);
            assert(incoming(ts, id)[k] == incoming(before, id)[k]);
        }
    }
}

/// An item that is listed agrees with the neighbours of its source: where a relationship
/// is listed from one label to another, the entity that it runs from is answered with that
/// other label among those that go out from it, and the one that it runs to, where that is
/// another entity, with the first among those that come in to it.
pub proof fn law_lists_agree_with_neighbours(
    path: Seq<char>,
    rel: Seq<char>,
    g: GraphV,
    limit: nat,
    i: int,
    name: Seq<char>,
)
    requires
        0 <= i < g.triples.len(),
        i < limit,
        text::trimmed(name).len() > 0,
        table::has_key(g.entities, graph_build::id_of_name(text::trimmed(name))),
    ensures
        ({
            let id = graph_build::id_of_name(text::trimmed(name));
            let listed = json::array_in(
                json::field(
                    answer(path, rel, g, "relations"@, None, limit)->Ok_0,
                    "relations"@,
                ),
            )->0[i];
            let r = answer(path, rel, g, "neighbors"@, Some(name), limit);
            let out = json::array_in(json::field(r->Ok_0, "outgoing"@))->0;
            let inc = json::array_in(json::field(r->Ok_0, "incoming"@))->0;
            &&& r is Ok
            &&& json::array_in(json::field(r->Ok_0, "outgoing"@)) is Some
            &&& json::array_in(json::field(r->Ok_0, "incoming"@)) is Some
            &&& g.triples[i].subject.id == id ==> exists|k: int|
                0 <= k < out.len() && json::field(#[trigger] out[k], "target"@) == json::field(
                    listed,
                    "target"@,
                )
            &&& g.triples[i].subject.id != id && g.triples[i].object.id == id ==> exists|k: int|
                0 <= k < inc.len() && json::field(#[trigger] inc[k], "source"@) == json::field(
                    listed,
                    "source"@,
                )
        }),
{
    lemma_view_names();
    let id = graph_build::id_of_name(text::trimmed(name));
    let ts = g.triples;
    let r = answer(path, rel, g, "neighbors"@, Some(name), limit);
    let o = r->Ok_0->Object_0;
    assert(focus(Some(name)) == Some(text::trimmed(name)));
    lemma_members_named(o, 4);
    lemma_members_named(o, 5);
    let out = json::array_in(json::field(r->Ok_0, "outgoing"@))->0;
    let inc = json::array_in(json::field(r->Ok_0, "incoming"@))->0;
    assert(out == outgoing(ts, id));
    assert(inc == incoming(ts, id));
    law_relations_are_listed_from_source_to_target(path, rel, g, "relations"@, None, limit, i);
    lemma_relation_item(ts[i]);
    lemma_edge_items(ts[i]);
    let listed = json::array_in(
        json::field(answer(path, rel, g, "relations"@, None, limit)->Ok_0, "relations"@),
    )->0[i];
    let p = answer(path, rel, g, "relations"@, None, limit)->Ok_0->Object_0;
    lemma_members_named(p, 3);
    assert(listed == relation_item(ts[i]));
    if ts[i].subject.id == id {
        lemma_seen_going_out(ts, i);
        let k = choose|k: int| 0 <= k < out.len() && out[k] == outgoing_item(ts[i]);
        assert(json::field(out[k], "target"@) == json::field(listed, "target"@));
    } else if ts[i].object.id == id {
        lemma_seen_coming_in(ts, i);
        let k = choose|k: int| 0 <= k < inc.len() && inc[k] == incoming_item(ts[i]);
        assert(json::field(inc[k], "source"@) == json::field(listed, "source"@));
    }
}

/// What is answered where there is no graph.
pub open spec fn no_graph(path: Seq<char>, rel: Seq<char>) -> Seq<char> {
    "no graph found at path '"@ + rel + "' ("@ + path
        + "). Nothing has been stored there yet — call add_entity(path='"@ + rel
        + "', …) to create it."@
}

/// The schema of a graph, as it is answered.
pub fn answer_schema(p: &SchemaPolicy, path: &str, m: &Metadata) -> (r: Json)
    ensures
        r@ == schema_answer(p@, path@, m@),
{
    let proposals = ObjectBuilder::new().with(
        "nodes",
        json::texts_of(&policy::proposals(m, SchemaKind::Node)),
    ).with("relations", json::texts_of(&policy::proposals(m, SchemaKind::Relation))).with(
        "attributes",
        json::texts_of(&policy::proposals(m, SchemaKind::Attribute)),
    ).done();
    assert(proposals@->Object_0 =~= seq![
        ("nodes"@, json::texts(policy::proposed(m@, SchemaKind::Node))),
        ("relations"@, json::texts(policy::proposed(m@, SchemaKind::Relation))),
        ("attributes"@, json::texts(policy::proposed(m@, SchemaKind::Attribute))),
    ]);
    let r = ObjectBuilder::new().with("path", json::string(path)).with(
        "schema_mode",
        json::string(p.mode().as_str()),
    ).with("schema", p.schema().to_value()).with("new_schema_types", proposals).done();
    assert(r@->Object_0 =~= schema_answer(p@, path@, m@)->Object_0);
    r
}

/// At most `limit` entities as they are listed.
fn take_entities(es: &Table<Entity>, limit: usize) -> (r: Json)
    ensures
        r@ == entity_items(es@, limit as nat),
{
    let total: usize = es.len();
    let n: usize = if total <= limit {
        total
    } else {
        limit
    };
    let ghost all = entity_items(es@, limit as nat)->Array_0;
    let mut out: Vec<Json> = Vec::new();
    let mut i: usize = 0;
    while i < n
        invariant
            i <= n <= es@.len(),
            all == entity_items(es@, limit as nat)->Array_0,
            all.len() == n,
            seqs::views(out@) =~= all.take(i as int),
        decreases n - i,
    {
        let e = es.value_at(i);
        let item = ObjectBuilder::new().with("id", json::string(es.key_at(i).as_str())).with(
            "label",
            json::string(e.label.as_str()),
        ).with("type", json::string(e.entity_type.value())).done();
        assert(item@->Object_0 =~= entity_item(es@[i as int].0, e@)->Object_0);
        out.push(item);
        i += 1;
    }
    assert(seqs::views(out@) =~= all);
    Json::Array(out)
}

/// At most `limit` relationships as they are listed.
fn take_relations(ts: &Vec<Triple>, limit: usize) -> (r: Json)
    ensures
        r@ == relation_items(seqs::views(ts@), limit as nat),
{
    let n: usize = if ts.len() <= limit {
        ts.len()
    } else {
        limit
    };
    let ghost all = relation_items(seqs::views(ts@), limit as nat)->Array_0;
    let mut out: Vec<Json> = Vec::new();
    let mut i: usize = 0;
    while i < n
        invariant
            i <= n <= ts@.len(),
            all == relation_items(seqs::views(ts@), limit as nat)->Array_0,
            all.len() == n,
            seqs::views(out@) =~= all.take(i as int),
        decreases n - i,
    {
        let t = &ts[i];
        let item = ObjectBuilder::new().with("source", json::string(t.subject.label.as_str())).with(
            "predicate",
            json::string(t.predicate.display_label().as_str()),
        ).with("target", json::string(t.object.label.as_str())).done();
        assert(seqs::views(ts@)[i as int] == t@);
        assert(item@->Object_0 =~= relation_item(t@)->Object_0);
        out.push(item);
        i += 1;
    }
    assert(seqs::views(out@) =~= all);
    Json::Array(out)
}

/// The relationships of the entity `id`, from both sides.
pub fn edges_at(ts: &Vec<Triple>, id: &str) -> (r: (Json, Json))
    ensures
        r.0@ == JsonV::Array(outgoing(seqs::views(ts@), id@)),
        r.1@ == JsonV::Array(incoming(seqs::views(ts@), id@)),
{
    let ghost all = seqs::views(ts@);
    let mut out: Vec<Json> = Vec::new();
    let mut inc: Vec<Json> = Vec::new();
    let mut i: usize = 0;
    while i < ts.len()
        invariant
            i <= ts@.len(),
            all == seqs::views(ts@),
            seqs::views(out@) == outgoing(all.take(i as int), id@),
            seqs::views(inc@) == incoming(all.take(i as int), id@),
        decreases ts.len() - i,
    {
        assert(all.take(i + 1).drop_last() =~= all.take(i as int));
        let t = &ts[i];
        assert(all.take(i + 1).last() == t@);
        if text::same(t.subject.id.as_str(), id) {
            let item = ObjectBuilder::new().with(
                "predicate",
                json::string(t.predicate.display_label().as_str()),
            ).with("target", json::string(t.object.label.as_str())).with(
                "target_type",
                json::string(t.object.entity_type.value()),
            ).done();
            assert(item@->Object_0 =~= outgoing_item(t@)->Object_0);
            out.push(item);
        } else if text::same(t.object.id.as_str(), id) {
            let item = ObjectBuilder::new().with(
                "predicate",
                json::string(t.predicate.display_label().as_str()),
            ).with("source", json::string(t.subject.label.as_str())).with(
                "source_type",
                json::string(t.subject.entity_type.value()),
            ).done();
            assert(item@->Object_0 =~= incoming_item(t@)->Object_0);
            inc.push(item);
        }
        i += 1;
    }
    assert(all.take(i as int) =~= all);
    (Json::Array(out), Json::Array(inc))
}

/// An entity as it is shown by itself.
pub(crate) fn show_entity(e: &Entity) -> (r: Json)
    ensures
        r@ == focal_item(e@),
{
    let r = ObjectBuilder::new().with("id", json::string(e.id.as_str())).with(
        "label",
        json::string(e.label.as_str()),
    ).with("type", json::string(e.entity_type.value())).with(
        "description",
        json::text_or_null_of(&e.description),
    ).with("attributes", citation::metadata_object(&e.metadata)).done();
    assert(r@->Object_0 =~= focal_item(e@)->Object_0);
    r
}

/// Answer a question about a graph: `view` says what is asked.
///
/// - `summary`: what is counted.
/// - `entities`, `relations`, `full`: lists of at most `limit` items each.
/// - `neighbors`: the entity with the name `entity` and its relationships.
pub fn answer_query(
    path: &str,
    rel: &str,
    kg: &KnowledgeGraph,
    view: &str,
    entity: Option<&str>,
    limit: usize,
) -> (r: Result<Json, String>)
    ensures
        match r {
            Ok(v) => answer(path@, rel@, kg@, view@, str_view(entity), limit as nat) == Ok::<
                JsonV,
                Seq<char>,
            >(v@),
            Err(e) => answer(path@, rel@, kg@, view@, str_view(entity), limit as nat) == Err::<
                JsonV,
                Seq<char>,
            >(e@),
        },
{
    proof {
        reveal_strlit("summary");
        reveal_strlit("entities");
        reveal_strlit("relations");
        reveal_strlit("full");
        reveal_strlit("neighbors");
    }
    let mut b = ObjectBuilder::new();
    b.add("path", json::string(path));
    b.add("view", json::string(view));
    b.add("stats", stats_of(kg));
    let ghost head = seq![
        ("path"@, JsonV::Text(path@)),
        ("view"@, JsonV::Text(view@)),
        ("stats"@, stats(kg@)),
    ];
    assert(b@ =~= head);
    let more_entities = kg.entities.len() > limit;
    let more_relations = kg.triples.len() > limit;
    if text::same(view, "summary") {
        return Ok(b.done());
    }
    if text::same(view, "entities") {
        b.add("entities", take_entities(&kg.entities, limit));
        if more_entities {
            b.add("truncated", Json::Bool(true));
        }
        return Ok(b.done());
    }
    if text::same(view, "relations") {
        b.add("relations", take_relations(&kg.triples, limit));
        if more_relations {
            b.add("truncated", Json::Bool(true));
        }
        return Ok(b.done());
    }
    if text::same(view, "full") {
        b.add("entities", take_entities(&kg.entities, limit));
        b.add("relations", take_relations(&kg.triples, limit));
        if more_entities || more_relations {
            b.add("truncated", Json::Bool(true));
        }
        return Ok(b.done());
    }
    if text::same(view, "neighbors") {
        let name = match entity {
            Some(e) => text::trim(e),
            None => String::new(),
        };
        if name.as_str().is_empty() {
            return Err(
                "view='neighbors' requires the `entity` argument (an entity name)".to_owned(),
            );
        }
        assert(focus(str_view(entity)) == Some(name@));
        let id = graph_build::entity_id(name.as_str());
        match kg.entities.get(id.as_str()) {
            None => {
                let mut e = text::concat2("entity '", name.as_str());
                e.append("' not found in graph '");
                e.append(rel);
                e.append("'. Known entities: ");
                e.append(known_labels(&kg.entities).as_str());
                return Err(e);
            },
            Some(focal) => {
                let (out, inc) = edges_at(&kg.triples, id.as_str());
                b.add("entity", show_entity(focal));
                b.add("outgoing", out);
                b.add("incoming", inc);
                return Ok(b.done());
            },
        }
    }
    let mut e = text::concat2("unknown view '", view);
    e.append("'. Valid views: summary, entities, relations, neighbors, full.");
    Err(e)
}

/// What an optional text stands for.
pub open spec fn str_view(o: Option<&str>) -> Option<Seq<char>> {
    match o {
        Some(s) => Some(s@),
        None => None,
    }
}

} // verus!
