//! The engine that asks for entities and relationships as one JSON object. A schema
//! guides it, binds it, or is extended by it.

use vstd::prelude::*;

use crate::backend::{CompletionOptions, Message, MessageV};
use crate::graph_build::{BuilderV, GraphBuilder};
use crate::json::{Json, JsonV, ObjectBuilder};
use crate::merger::{MergeSession, MergeSessionV};
use crate::names::NameSet;
use crate::table::{Dup, Table};
use crate::types::graph::{GraphV, KnowledgeGraph, Metadata, MetadataV, Predicate, PredicateV};
use crate::types::response::{ExtractionResponse, ResponseV};
use crate::types::spec::{
    ConfigV, ExtractionConfig, ExtractionSpec, MergeStrategy, SchemaMode, SchemaV, SpecV,
};
use crate::types::vocab::{EntityType, PredicateType};
use crate::{
    backend, chunking, citation, extractor, graph_build, json, merger, names, number, parser, seqs,
    table, text, types,
};

verus! {

broadcast use {crate::seqs::group_views, crate::json::group_json};

/// Which way a relationship reads.
pub const DIRECTION_RULE: &'static str = "Direction rule: each [\"subject\", \"predicate\", \"object\"] triple must read left-to-right as a TRUE sentence. EVERY predicate ending in _BY (FOUNDED_BY, DEVELOPED_BY, CREATED_BY, INVENTED_BY, PUBLISHED_BY, ...) is passive: the subject is the thing acted on, the object is the doer ([\"Anthropic\", \"FOUNDED_BY\", \"Dario Amodei\"], never [\"Dario Amodei\", \"FOUNDED_BY\", \"Anthropic\"]); a person is never the subject of a *_BY triple about their own work. Active predicates (FOUNDED, DEVELOPED, USES) point from the doer to the thing. If the sentence is false as written, swap subject and object or pick the opposite-voice predicate.";

/// What the answer is to hold.
pub const OUTPUT_FORMAT: &'static str = "Output JSON with:\n1. \"entities\": {\"entity_name\": {\"type\": \"EntityType\", \"attributes\": {\"attr\": \"value\"}}}\n2. \"relationships\": [[\"subject\", \"predicate\", \"object\"]]\n3. \"entity_types\": {\"entity_name\": \"type\"} (map entities to their types)\n";

/// What the model is told before it is given a text.
pub open spec fn system_prompt(c: ConfigV) -> Seq<char> {
    let schema = json::json_text(types::spec::schema_value(c.spec.schema));
    let end = DIRECTION_RULE@ + "\nEnsure valid JSON output."@;
    match c.spec.mode {
        SchemaMode::Open => "Extract entities and relationships from the user's text.\nNo predefined schema is given — infer suitable entity types and relation types from the content.\n\n"@
            + OUTPUT_FORMAT@ + "\n"@ + end,
        SchemaMode::Fixed => "Extract entities and relationships from the user's text using the provided schema.\n\nSchema:\n"@
            + schema + "\n\n"@ + OUTPUT_FORMAT@
            + "\nUse only the entity types and relations from the schema.\n"@ + end,
        SchemaMode::Evolving => "Extract entities and relationships from the user's text using the provided schema as guidance.\nYou may suggest new entity types, relations, or attributes if they better represent the content.\n\nSchema:\n"@
            + schema + "\n\n"@ + OUTPUT_FORMAT@
            + "4. \"new_schema_types\": {\"nodes\": [], \"relations\": [], \"attributes\": []} (if suggesting new types)\n\n"@
            + end,
    }
}

/// What was written of the type of the entity `name`: with the entity, or else among
/// the types.
pub open spec fn written_type(name: Seq<char>, info: JsonV, data: JsonV) -> Seq<char> {
    match json::text_in(json::field(info, "type"@)) {
        Some(t) => t,
        None => match json::object_in(json::field(data, "entity_types"@)) {
            Some(ts) => parser::text_or(json::text_in(table::lookup(ts, name)), "UNKNOWN"@),
            None => "UNKNOWN"@,
        },
    }
}

/// The attributes of an object: those that stand under `attributes`, and then the
/// members that have no other meaning.
pub open spec fn collected(
    o: Seq<(Seq<char>, JsonV)>,
    reserved: Seq<Seq<char>>,
) -> MetadataV {
    with_members(parser::attributes_in(JsonV::Object(o)), o, reserved)
}

/// The values `m` and then the members of `o` under names that it does not have and
/// that have no other meaning.
pub open spec fn with_members(
    m: MetadataV,
    o: Seq<(Seq<char>, JsonV)>,
    reserved: Seq<Seq<char>>,
) -> MetadataV
    decreases o.len(),
{
    if o.len() == 0 {
        m
    } else {
        let before = with_members(m, o.drop_last(), reserved);
        let k = o.last().0;
        if reserved.contains(k) || table::has_key(before, k) {
            before
        } else {
            table::put(before, k, o.last().1)
        }
    }
}

/// The members of an entity that are no attributes.
pub open spec fn entity_members() -> Seq<Seq<char>> {
    seq!["type"@, "label"@, "name"@, "description"@, "attributes"@]
}

/// The members of a relationship that are no attributes.
pub open spec fn relation_members() -> Seq<Seq<char>> {
    seq![
        "source"@,
        "subject"@,
        "target"@,
        "object"@,
        "type"@,
        "predicate"@,
        "relation"@,
        "attributes"@,
    ]
}

/// The attributes of an object are those that it gives under `attributes`, and then its
/// members that mean nothing else, under names that are not given there.
pub proof fn law_attributes_are_collected(
    o: Seq<(Seq<char>, JsonV)>,
    reserved: Seq<Seq<char>>,
    k: Seq<char>,
)
    requires
        table::distinct_keys(o),
    ensures
        ({
            let given = parser::attributes_in(JsonV::Object(o));
            table::lookup(collected(o, reserved), k) == if table::has_key(given, k) {
                table::lookup(given, k)
            } else if reserved.contains(k) {
                None
            } else {
                table::lookup(o, k)
            }
        }),
{
    lemma_with_members(parser::attributes_in(JsonV::Object(o)), o, reserved, k);
}

proof fn lemma_with_members(
    m: MetadataV,
    o: Seq<(Seq<char>, JsonV)>,
    reserved: Seq<Seq<char>>,
    k: Seq<char>,
)
    requires
        table::distinct_keys(o),
    ensures
        table::lookup(with_members(m, o, reserved), k) == if table::has_key(m, k) {
            table::lookup(m, k)
        } else if reserved.contains(k) {
            None
        } else {
            table::lookup(o, k)
        },
    decreases o.len(),
{
    if o.len() > 0 {
        let rest = o.drop_last();
        assert forall|a: int, b: int| 0 <= a < b < rest.len() implies (#[trigger] rest[a]).0 != (
        #[trigger] rest[b]).0 by {
            assert(o[a].0 != o[b].0);
        }
        lemma_with_members(m, rest, reserved, k);
        lemma_with_members(m, rest, reserved, o.last().0);
        let before = with_members(m, rest, reserved);
        table::lemma_lookup_put(before, o.last().0, o.last().1, k);
        table::lemma_position(o, k);
        table::lemma_position(rest, k);
        table::lemma_position(rest, o.last().0);
        if table::has_key(rest, o.last().0) {
            let p = table::position(rest, o.last().0)->0;
            assert(o[p].0 != o[o.len() - 1].0);
        }
        if table::has_key(rest, k) {
            let p = table::position(rest, k)->0;
            assert(o[p] == rest[p]);
            assert forall|j: int| 0 <= j < p implies (#[trigger] o[j]).0 != k by {
                assert(rest[j].0 != k);
            }
            table::lemma_position_at(o, k, p);
        } else if o.last().0 == k {
            assert forall|j: int| 0 <= j < o.len() - 1 implies (#[trigger] o[j]).0 != k by {
                assert(rest[j].0 != k);
            }
            table::lemma_position_at(o, k, o.len() - 1);
        }
    }
}

/// The attributes of an entity.
pub open spec fn entity_attributes(info: JsonV) -> MetadataV {
    match info {
        JsonV::Object(o) => collected(o, entity_members()),
        _ => seq![],
    }
}

/// The type that is named exactly; a thing where there is none.
pub open spec fn strict_entity_type(t: Seq<char>) -> EntityType {
    match types::vocab::entity_type_named(text::underscored(text::upper(t))) {
        Some(e) => e,
        None => EntityType::PhysicalObject,
    }
}

/// The predicate that is named exactly; being related where there is none.
pub open spec fn strict_predicate(p: Seq<char>) -> PredicateV {
    types::graph::labelled_predicate(
        match types::vocab::predicate_type_named(text::underscored(text::upper(p))) {
            Some(t) => t,
            None => PredicateType::RelatedTo,
        },
        p,
    )
}

/// `b` with the entities of the members `o`.
pub open spec fn with_entities(
    b: BuilderV,
    o: Seq<(Seq<char>, JsonV)>,
    data: JsonV,
) -> BuilderV
    decreases o.len(),
{
    if o.len() == 0 {
        b
    } else {
        let (name, info) = o.last();
        let t = written_type(name, info, data);
        let attributes = entity_attributes(info);
        graph_build::with_entity(
            with_entities(b, o.drop_last(), data),
            name,
            strict_entity_type(t),
            Some(t),
            json::text_in(table::lookup(attributes, "description"@)),
            attributes,
        )
    }
}

/// A text, or nothing where it is something else.
pub open spec fn text_or_nothing(v: JsonV) -> Seq<char> {
    match v {
        JsonV::Text(s) => s,
        _ => seq![],
    }
}

/// The names of the source, of the predicate and of the target of a relationship,
/// and its attributes.
pub open spec fn relation_parts_of(rel: JsonV) -> Option<
    (Seq<char>, Seq<char>, Seq<char>, MetadataV),
> {
    match rel {
        JsonV::Array(a) => if a.len() < 3 {
            None
        } else {
            Some(
                (
                    text_or_nothing(a[0]),
                    text_or_nothing(a[1]),
                    text_or_nothing(a[2]),
                    if a.len() > 3 {
                        match a[3] {
                            JsonV::Object(m) => table::put_all(seq![], m),
                            _ => seq![],
                        }
                    } else {
                        seq![]
                    },
                ),
            )
        },
        JsonV::Object(o) => {
            let source = json::text_in(
                parser::either(json::field(rel, "source"@), json::field(rel, "subject"@)),
            );
            let target = json::text_in(
                parser::either(json::field(rel, "target"@), json::field(rel, "object"@)),
            );
            let predicate = json::text_in(
                parser::either(
                    json::field(rel, "type"@),
                    parser::either(
                        json::field(rel, "predicate"@),
                        json::field(rel, "relation"@),
                    ),
                ),
            );
            match (source, target, predicate) {
                (Some(s), Some(t), Some(p)) => Some(
                    (s, p, t, collected(o, relation_members())),
                ),
                _ => None,
            }
        },
        _ => None,
    }
}

/// `b` with the relationships `rels`.
pub open spec fn with_relations(b: BuilderV, rels: Seq<JsonV>) -> BuilderV
    decreases rels.len(),
{
    if rels.len() == 0 {
        b
    } else {
        let before = with_relations(b, rels.drop_last());
        match relation_parts_of(rels.last()) {
            Some(p) => graph_build::with_relation(
                before,
                p.0,
                strict_predicate(p.1),
                p.2,
                None,
                p.3,
            ),
            None => before,
        }
    }
}

/// How two entities with one name in an answer are made one.
pub open spec fn builder_strategy(s: SpecV) -> MergeStrategy {
    if s.merge_duplicates {
        s.merge_strategy
    } else {
        MergeStrategy::KeepExisting
    }
}

/// The members of the object that stands at `k`; none where there is none.
pub open spec fn members_at(data: JsonV, k: Seq<char>) -> Seq<(Seq<char>, JsonV)> {
    match json::object_in(json::field(data, k)) {
        Some(o) => o,
        None => seq![],
    }
}

/// The items of the array that stands at `k`; none where there is none.
pub open spec fn items_at(data: JsonV, k: Seq<char>) -> Seq<JsonV> {
    match json::array_in(json::field(data, k)) {
        Some(a) => a,
        None => seq![],
    }
}

/// The graph in an answer.
pub open spec fn built(s: SpecV, data: JsonV) -> GraphV {
    with_relations(
        with_entities(
            graph_build::empty_builder(builder_strategy(s)),
            members_at(data, "entities"@),
            data,
        ),
        items_at(data, "relationships"@),
    ).graph
}

/// What was left out of an answer: how many records, and the types for which they
/// were.
pub struct DropsV {
    pub records: u64,
    pub types: Seq<Seq<char>>,
}

/// The names of types as they are compared.
pub open spec fn canonical_types(s: Seq<Seq<char>>) -> Seq<Seq<char>> {
    Seq::new(s.len(), |i: int| types::spec::canonical_type(s[i]))
}

/// A type may be used where `allowed` are the types that may be; all may be where
/// there are none.
pub open spec fn may_use(allowed: Seq<Seq<char>>, t: Seq<char>) -> bool {
    allowed.len() == 0 || allowed.contains(t)
}

/// What is kept of an answer, and what was left out.
pub struct PrunedV {
    pub entities: Seq<(Seq<char>, JsonV)>,
    pub relationships: Seq<JsonV>,
    pub dropped_names: Seq<Seq<char>>,
    pub drops: DropsV,
}

/// An answer of which nothing was kept or left out yet.
pub open spec fn nothing_pruned() -> PrunedV {
    PrunedV {
        entities: seq![],
        relationships: seq![],
        dropped_names: seq![],
        drops: DropsV { records: 0, types: seq![] },
    }
}

/// One more record left out, for its type where one is given.
pub open spec fn dropped(d: DropsV, t: Option<Seq<char>>) -> DropsV {
    DropsV {
        records: number::tallied(d.records),
        types: match t {
            Some(x) => names::with_name(d.types, x),
            None => d.types,
        },
    }
}

/// What is kept of the entities `o`: those of a type that may be used.
pub open spec fn entities_pruned(
    nodes: Seq<Seq<char>>,
    o: Seq<(Seq<char>, JsonV)>,
    data: JsonV,
) -> PrunedV
    decreases o.len(),
{
    if o.len() == 0 {
        nothing_pruned()
    } else {
        let before = entities_pruned(nodes, o.drop_last(), data);
        let (name, info) = o.last();
        let t = types::spec::canonical_type(written_type(name, info, data));
        if may_use(nodes, t) {
            PrunedV { entities: before.entities.push(o.last()), ..before }
        } else {
            PrunedV {
                dropped_names: before.dropped_names.push(text::lower(name)),
                drops: dropped(before.drops, Some(t)),
                ..before
            }
        }
    }
}

/// What is kept of the relationships `rels`: those of a type that may be used, with
/// no end that was left out. What is no relationship is passed over.
pub open spec fn relations_pruned(
    p: PrunedV,
    allowed: Seq<Seq<char>>,
    rels: Seq<JsonV>,
) -> PrunedV
    decreases rels.len(),
{
    if rels.len() == 0 {
        p
    } else {
        let before = relations_pruned(p, allowed, rels.drop_last());
        match relation_parts_of(rels.last()) {
            None => before,
            Some(r) => {
                let t = types::spec::canonical_type(r.1);
                if may_use(allowed, t) && !p.dropped_names.contains(text::lower(r.0))
                    && !p.dropped_names.contains(text::lower(r.2)) {
                    PrunedV { relationships: before.relationships.push(rels.last()), ..before }
                } else {
                    PrunedV {
                        drops: dropped(
                            before.drops,
                            if may_use(allowed, t) {
                                None
                            } else {
                                Some(t)
                            },
                        ),
                        ..before
                    }
                }
            },
        }
    }
}

/// What is kept of an answer under a schema, and what is left out.
pub open spec fn pruned(s: SchemaV, data: JsonV) -> PrunedV {
    relations_pruned(
        entities_pruned(canonical_types(s.nodes), members_at(data, "entities"@), data),
        canonical_types(s.relations),
        items_at(data, "relationships"@),
    )
}

/// An answer with only what is kept of it.
pub open spec fn pruned_data(s: SchemaV, data: JsonV) -> JsonV {
    match data {
        JsonV::Object(o) => JsonV::Object(
            table::put(
                table::put(o, "entities"@, JsonV::Object(pruned(s, data).entities)),
                "relationships"@,
                JsonV::Array(pruned(s, data).relationships),
            ),
        ),
        _ => data,
    }
}

/// What is asked for under one of several names is what stands under the first of them
/// that is there.
proof fn lemma_member_names(o: Seq<(Seq<char>, JsonV)>, a: Seq<char>, b: Seq<char>)
    ensures
        parser::either(json::field(JsonV::Object(o), a), json::field(JsonV::Object(o), b))
            == if table::has_key(o, a) {
            table::lookup(o, a)
        } else {
            table::lookup(o, b)
        },
{
}

/// The text `s` stands under `a`, or under `b` where nothing stands under `a`.
pub open spec fn gives(o: Seq<(Seq<char>, JsonV)>, a: Seq<char>, b: Seq<char>, s: Seq<char>) -> bool {
    table::lookup(o, a) == Some(JsonV::Text(s)) || !table::has_key(o, a) && table::lookup(o, b)
        == Some(JsonV::Text(s))
}

/// A relationship that is written as an object is the one that is written as a list of
/// source, predicate and target: what stands under `source` or `subject` is its source,
/// what stands under `type`, `predicate` or `relation` its predicate, and what stands under
/// `target` or `object` its target. It has the attributes that are given for it, and those
/// of its members that mean nothing else.
pub proof fn law_objects_read_as_lists(
    o: Seq<(Seq<char>, JsonV)>,
    s: Seq<char>,
    p: Seq<char>,
    t: Seq<char>,
)
    requires
        gives(o, "source"@, "subject"@, s),
        gives(o, "target"@, "object"@, t),
        table::lookup(o, "type"@) == Some(JsonV::Text(p)) || !table::has_key(o, "type"@)
            && gives(o, "predicate"@, "relation"@, p),
    ensures
        ({
            let list = seq![JsonV::Text(s), JsonV::Text(p), JsonV::Text(t)];
            let a = relation_parts_of(JsonV::Object(o));
            let b = relation_parts_of(JsonV::Array(list));
            &&& a is Some && b is Some
            &&& (a->0).0 == s && (a->0).1 == p && (a->0).2 == t
            &&& (b->0).0 == s && (b->0).1 == p && (b->0).2 == t
            &&& (b->0).3.len() == 0
        }),
{
    lemma_member_names(o, "source"@, "subject"@);
    lemma_member_names(o, "target"@, "object"@);
    lemma_member_names(o, "predicate"@, "relation"@);
}

/// A relationship without a source, without a target or without a predicate is none.
pub proof fn law_unnamed_ends_are_no_relationship(o: Seq<(Seq<char>, JsonV)>)
    requires
        !table::has_key(o, "source"@) && !table::has_key(o, "subject"@) || !table::has_key(
            o,
            "target"@,
        ) && !table::has_key(o, "object"@) || !table::has_key(o, "type"@) && !table::has_key(
            o,
            "predicate"@,
        ) && !table::has_key(o, "relation"@),
    ensures
        relation_parts_of(JsonV::Object(o)) is None,
{
}

/// A relationship between two entities of an answer, written as an object or as a list,
/// is added behind those before it, and runs from the entity that is named as its source
/// to the one that is named as its target.
pub proof fn law_answered_relationships_keep_their_direction(
    b: BuilderV,
    rels: Seq<JsonV>,
    o: Seq<(Seq<char>, JsonV)>,
    s: Seq<char>,
    p: Seq<char>,
    t: Seq<char>,
    listed: bool,
)
    requires
        table::lookup(o, "source"@) == Some(JsonV::Text(s)),
        table::lookup(o, "target"@) == Some(JsonV::Text(t)),
        table::lookup(o, "type"@) == Some(JsonV::Text(p)),
    ensures
        ({
            let rel = if listed {
                JsonV::Array(seq![JsonV::Text(s), JsonV::Text(p), JsonV::Text(t)])
            } else {
                JsonV::Object(o)
            };
            let before = with_relations(b, rels);
            let after = with_relations(b, rels.push(rel));
            let from = table::lookup(before.by_name, text::lower(s));
            let to = table::lookup(before.by_name, text::lower(t));
            let es = before.graph.entities;
            if from is Some && to is Some && table::has_key(es, from->0) && table::has_key(
                es,
                to->0,
            ) {
                let u = after.graph.triples.last();
                &&& after.graph.triples.drop_last() == before.graph.triples
                &&& after.graph.triples.len() == before.graph.triples.len() + 1
                &&& u.predicate.label == Some(p)
                &&& graph_build::runs_from(
                    u,
                    table::lookup(es, from->0)->0,
                    table::lookup(es, to->0)->0,
                )
            } else {
                after == before
            }
        }),
{
    let rel = if listed {
        JsonV::Array(seq![JsonV::Text(s), JsonV::Text(p), JsonV::Text(t)])
    } else {
        JsonV::Object(o)
    };
    assert(rels.push(rel).drop_last() =~= rels);
    law_objects_read_as_lists(o, s, p, t);
    let before = with_relations(b, rels);
    let parts = relation_parts_of(rel)->0;
    graph_build::law_relations_run_from_source_to_target(
        before,
        s,
        strict_predicate(p),
        t,
        None,
        parts.3,
    );
}

/// What fits the schema is kept: an entity of a type that may be used stays as it is, and
/// the name and the type of any other are noted as left out. A relationship of a type that
/// may be used, neither end of which was left out, stays as it is; the type of one that may
/// not be used is noted as left out.
pub proof fn law_fitting_records_are_kept(s: SchemaV, data: JsonV, i: int, j: int)
    requires
        0 <= i < members_at(data, "entities"@).len(),
        0 <= j < items_at(data, "relationships"@).len(),
    ensures
        ({
            let p = pruned(s, data);
            let e = members_at(data, "entities"@)[i];
            let t = types::spec::canonical_type(written_type(e.0, e.1, data));
            let fits = s.nodes.len() == 0 || canonical_types(s.nodes).contains(t);
            let r = items_at(data, "relationships"@)[j];
            let parts = relation_parts_of(r)->0;
            let u = types::spec::canonical_type(parts.1);
            let may = s.relations.len() == 0 || canonical_types(s.relations).contains(u);
            &&& fits ==> p.entities.contains(e)
            &&& !fits ==> p.dropped_names.contains(text::lower(e.0)) && p.drops.types.contains(t)
            &&& relation_parts_of(r) is Some && may && !p.dropped_names.contains(
                text::lower(parts.0),
            ) && !p.dropped_names.contains(text::lower(parts.2)) ==> p.relationships.contains(r)
            &&& relation_parts_of(r) is Some && !may ==> p.drops.types.contains(u)
        }),
{
    let nodes = canonical_types(s.nodes);
    let allowed = canonical_types(s.relations);
    let o = members_at(data, "entities"@);
    let rels = items_at(data, "relationships"@);
    let p = entities_pruned(nodes, o, data);
    lemma_entities_stay(p, allowed, rels);
    lemma_entity_pruned_or_kept(nodes, o, data, i);
    lemma_relation_pruned_or_kept(p, allowed, rels, j);
    lemma_dropped_types_stay(
        p,
        allowed,
        rels,
        types::spec::canonical_type(written_type(o[i].0, o[i].1, data)),
    );
}

proof fn lemma_entity_pruned_or_kept(
    nodes: Seq<Seq<char>>,
    o: Seq<(Seq<char>, JsonV)>,
    data: JsonV,
    i: int,
)
    requires
        0 <= i < o.len(),
    ensures
        ({
            let p = entities_pruned(nodes, o, data);
            let t = types::spec::canonical_type(written_type(o[i].0, o[i].1, data));
            &&& may_use(nodes, t) ==> p.entities.contains(o[i])
            &&& !may_use(nodes, t) ==> p.dropped_names.contains(text::lower(o[i].0))
                && p.drops.types.contains(t)
        }),
    decreases o.len(),
{
    let before = entities_pruned(nodes, o.drop_last(), data);
    let p = entities_pruned(nodes, o, data);
    let t = types::spec::canonical_type(written_type(o[i].0, o[i].1, data));
    let u = types::spec::canonical_type(written_type(o.last().0, o.last().1, data));
    names::lemma_with_name_contains(before.drops.types, u, t);
    if i < o.len() - 1 {
        assert(o.drop_last()[i] == o[i]);
        lemma_entity_pruned_or_kept(nodes, o.drop_last(), data, i);
        if may_use(nodes, t) {
            let k = choose|k: int| 0 <= k < before.entities.len() && before.entities[k] == o[i];
            assert(p.entities[k] == o[i]);
        } else {
            let n = text::lower(o[i].0);
            let k = choose|k: int|
                0 <= k < before.dropped_names.len() && before.dropped_names[k] == n;
            assert(p.dropped_names[k] == n);
        }
    } else if may_use(nodes, t) {
        assert(p.entities[p.entities.len() - 1] == o[i]);
    } else {
        assert(p.dropped_names[p.dropped_names.len() - 1] == text::lower(o[i].0));
    }
}

proof fn lemma_relation_pruned_or_kept(
    p: PrunedV,
    allowed: Seq<Seq<char>>,
    rels: Seq<JsonV>,
    j: int,
)
    requires
        0 <= j < rels.len(),
    ensures
        ({
            let after = relations_pruned(p, allowed, rels);
            let parts = relation_parts_of(rels[j])->0;
            let t = types::spec::canonical_type(parts.1);
            &&& relation_parts_of(rels[j]) is Some && may_use(allowed, t)
                && !p.dropped_names.contains(text::lower(parts.0)) && !p.dropped_names.contains(
                text::lower(parts.2),
            ) ==> after.relationships.contains(rels[j])
            &&& relation_parts_of(rels[j]) is Some && !may_use(allowed, t)
                ==> after.drops.types.contains(t)
        }),
    decreases rels.len(),
{
    let before = relations_pruned(p, allowed, rels.drop_last());
    let after = relations_pruned(p, allowed, rels);
    let t = types::spec::canonical_type((relation_parts_of(rels[j])->0).1);
    let u = types::spec::canonical_type((relation_parts_of(rels.last())->0).1);
    names::lemma_with_name_contains(before.drops.types, u, t);
    if j < rels.len() - 1 {
        assert(rels.drop_last()[j] == rels[j]);
        lemma_relation_pruned_or_kept(p, allowed, rels.drop_last(), j);
        if before.relationships.contains(rels[j]) {
            let k = choose|k: int|
                0 <= k < before.relationships.len() && before.relationships[k] == rels[j];
            assert(after.relationships[k] == rels[j]);
        }
    } else if after.relationships.len() > before.relationships.len() {
        assert(after.relationships[after.relationships.len() - 1] == rels[j]);
    }
}

proof fn lemma_dropped_types_stay(
    p: PrunedV,
    allowed: Seq<Seq<char>>,
    rels: Seq<JsonV>,
    t: Seq<char>,
)
    ensures
        p.drops.types.contains(t) ==> relations_pruned(p, allowed, rels).drops.types.contains(t),
    decreases rels.len(),
{
    if rels.len() > 0 {
        lemma_dropped_types_stay(p, allowed, rels.drop_last(), t);
        let before = relations_pruned(p, allowed, rels.drop_last());
        let u = types::spec::canonical_type((relation_parts_of(rels.last())->0).1);
        names::lemma_with_name_contains(before.drops.types, u, t);
    }
}

/// An entity of an answer is in the graph that is built of it under the id that its name
/// makes, where no name before it stands for anything: with its name as its label, and with
/// its type as the answer wrote it, beside the entity or else among the types.
pub proof fn law_answered_entities_are_named(
    b: BuilderV,
    o: Seq<(Seq<char>, JsonV)>,
    data: JsonV,
    name: Seq<char>,
    info: Seq<(Seq<char>, JsonV)>,
    t: Seq<char>,
)
    requires
        graph_build::names_stand(with_entities(b, o, data)),
        !table::has_key(with_entities(b, o, data).by_name, text::lower(name)),
        table::lookup(info, "type"@) == Some(JsonV::Text(t)) || !table::has_key(info, "type"@)
            && json::text_in(
            json::field(json::field(data, "entity_types"@)->0, name),
        ) == Some(t) && json::field(data, "entity_types"@) is Some,
    ensures
        ({
            let after = with_entities(b, o.push((name, JsonV::Object(info))), data);
            let e = table::lookup(after.graph.entities, graph_build::id_of_name(name))->0;
            &&& table::has_key(after.graph.entities, graph_build::id_of_name(name))
            &&& table::lookup(after.by_name, text::lower(name)) == Some(
                graph_build::id_of_name(name),
            )
            &&& e.label == name
            &&& e.raw_type == Some(t)
        }),
{
    let all = o.push((name, JsonV::Object(info)));
    assert(all.drop_last() =~= o);
    let before = with_entities(b, o, data);
    let attributes = entity_attributes(JsonV::Object(info));
    graph_build::law_entities_are_added(
        before,
        name,
        strict_entity_type(t),
        Some(t),
        json::text_in(table::lookup(attributes, "description"@)),
        attributes,
        name,
    );
}

/// An entity that is kept has a type that may be used under the schema.
pub proof fn law_kept_entities_fit_schema(s: SchemaV, data: JsonV, i: int)
    requires
        0 <= i < pruned(s, data).entities.len(),
    ensures
        may_use(
            canonical_types(s.nodes),
            types::spec::canonical_type(
                written_type(
                    pruned(s, data).entities[i].0,
                    pruned(s, data).entities[i].1,
                    data,
                ),
            ),
        ),
{
    let nodes = canonical_types(s.nodes);
    let p = entities_pruned(nodes, members_at(data, "entities"@), data);
    lemma_entities_stay(p, canonical_types(s.relations), items_at(data, "relationships"@));
    lemma_entities_pruned(nodes, members_at(data, "entities"@), data, i);
}

/// A relationship that is kept has a type that may be used under the schema, and no
/// end that was left out.
pub proof fn law_kept_relations_fit_schema(s: SchemaV, data: JsonV, j: int)
    requires
        0 <= j < pruned(s, data).relationships.len(),
    ensures
        ({
            let r = pruned(s, data).relationships[j];
            let parts = relation_parts_of(r)->0;
            &&& relation_parts_of(r) is Some
            &&& may_use(canonical_types(s.relations), types::spec::canonical_type(parts.1))
            &&& !pruned(s, data).dropped_names.contains(text::lower(parts.0))
            &&& !pruned(s, data).dropped_names.contains(text::lower(parts.2))
        }),
{
    let nodes = canonical_types(s.nodes);
    let p = entities_pruned(nodes, members_at(data, "entities"@), data);
    lemma_no_relations_yet(nodes, members_at(data, "entities"@), data);
    lemma_entities_stay(p, canonical_types(s.relations), items_at(data, "relationships"@));
    lemma_relations_pruned(p, canonical_types(s.relations), items_at(data, "relationships"@), j);
}

proof fn lemma_entities_stay(p: PrunedV, allowed: Seq<Seq<char>>, rels: Seq<JsonV>)
    ensures
        relations_pruned(p, allowed, rels).entities == p.entities,
        relations_pruned(p, allowed, rels).dropped_names == p.dropped_names,
    decreases rels.len(),
{
    if rels.len() > 0 {
        lemma_entities_stay(p, allowed, rels.drop_last());
    }
}

proof fn lemma_entities_pruned(
    nodes: Seq<Seq<char>>,
    o: Seq<(Seq<char>, JsonV)>,
    data: JsonV,
    i: int,
)
    requires
        0 <= i < entities_pruned(nodes, o, data).entities.len(),
    ensures
        may_use(
            nodes,
            types::spec::canonical_type(
                written_type(
                    entities_pruned(nodes, o, data).entities[i].0,
                    entities_pruned(nodes, o, data).entities[i].1,
                    data,
                ),
            ),
        ),
    decreases o.len(),
{
    if o.len() > 0 {
        let before = entities_pruned(nodes, o.drop_last(), data);
        if i < before.entities.len() {
            lemma_entities_pruned(nodes, o.drop_last(), data, i);
        }
    }
}

proof fn lemma_no_relations_yet(nodes: Seq<Seq<char>>, o: Seq<(Seq<char>, JsonV)>, data: JsonV)
    ensures
        entities_pruned(nodes, o, data).relationships.len() == 0,
    decreases o.len(),
{
    if o.len() > 0 {
        lemma_no_relations_yet(nodes, o.drop_last(), data);
    }
}

proof fn lemma_relations_pruned(
    p: PrunedV,
    allowed: Seq<Seq<char>>,
    rels: Seq<JsonV>,
    j: int,
)
    requires
        p.relationships.len() <= j < relations_pruned(p, allowed, rels).relationships.len(),
    ensures
        ({
            let r = relations_pruned(p, allowed, rels).relationships[j];
            &&& relation_parts_of(r) is Some
            &&& may_use(allowed, types::spec::canonical_type((relation_parts_of(r)->0).1))
            &&& !p.dropped_names.contains(text::lower((relation_parts_of(r)->0).0))
            &&& !p.dropped_names.contains(text::lower((relation_parts_of(r)->0).2))
        }),
    decreases rels.len(),
{
    if rels.len() > 0 {
        let before = relations_pruned(p, allowed, rels.drop_last());
        if j < before.relationships.len() {
            lemma_relations_pruned(p, allowed, rels.drop_last(), j);
        }
    }
}

/// The engine.
pub struct SchemaJsonExtractor {
    pub config: ExtractionConfig,
    /// Whether nothing is said beside the answer.
    pub quiet: bool,
}

impl View for SchemaJsonExtractor {
    type V = ConfigV;

    open spec fn view(&self) -> ConfigV {
        self.config@
    }
}

/// Whether one of `reserved` is `k`.
fn is_reserved(reserved: &Vec<&'static str>, k: &str) -> (r: bool)
    ensures
        r == Seq::new(reserved@.len(), |i: int| reserved@[i]@).contains(k@),
{
    let ghost all = Seq::new(reserved@.len(), |i: int| reserved@[i]@);
    let mut i: usize = 0;
    while i < reserved.len()
        invariant
            i <= reserved@.len(),
            all == Seq::new(reserved@.len(), |i: int| reserved@[i]@),
            forall|j: int| 0 <= j < i ==> #[trigger] all[j] != k@,
        decreases reserved.len() - i,
    {
        if text::same(reserved[i], k) {
            assert(all[i as int] == k@);
            return true;
        }
        i += 1;
    }
    false
}

/// The attributes of an object.
fn collect_attributes(v: &Json, o: &Vec<(String, Json)>, reserved: &Vec<&'static str>) -> (r:
    Metadata)
    requires
        v@ == JsonV::Object(json::members(o@)),
    ensures
        r@ == collected(
            json::members(o@),
            Seq::new(reserved@.len(), |i: int| reserved@[i]@),
        ),
{
    let ghost words = Seq::new(reserved@.len(), |i: int| reserved@[i]@);
    let ghost all = json::members(o@);
    let mut attrs: Metadata = match v.object_at("attributes") {
        Some(m) => chunking::metadata_of(m),
        None => Table::new(),
    };
    assert(attrs@ =~= parser::attributes_in(v@));
    let ghost first = attrs@;
    let mut i: usize = 0;
    while i < o.len()
        invariant
            i <= o@.len(),
            all == json::members(o@),
            words == Seq::new(reserved@.len(), |i: int| reserved@[i]@),
            attrs@ == with_members(first, all.take(i as int), words),
        decreases o.len() - i,
    {
        assert(all.take(i + 1).drop_last() =~= all.take(i as int));
        assert(all.take(i + 1).last() == (o@[i as int].0@, o@[i as int].1@));
        if !is_reserved(reserved, o[i].0.as_str()) && !attrs.contains_key(o[i].0.as_str()) {
            let k = o[i].0.clone();
            let w = o[i].1.dup();
            attrs.insert(k, w);
        }
        i += 1;
    }
    assert(all.take(i as int) =~= all);
    attrs
}

/// The attributes of an entity.
fn attributes_of_entity(info: &Json) -> (r: Metadata)
    ensures
        r@ == entity_attributes(info@),
{
    match info {
        Json::Object(o) => {
            let mut reserved: Vec<&'static str> = Vec::new();
            reserved.push("type");
            reserved.push("label");
            reserved.push("name");
            reserved.push("description");
            reserved.push("attributes");
            assert(Seq::new(reserved@.len(), |i: int| reserved@[i]@) =~= entity_members());
            collect_attributes(info, o, &reserved)
        },
        _ => {
            let m: Metadata = Table::new();
            assert(m@ =~= seq![]);
            m
        },
    }
}

/// What was written of the type of the entity `name`.
fn type_written(name: &str, info: &Json, data: &Json) -> (r: String)
    ensures
        r@ == written_type(name@, info@, data@),
{
    if let Some(t) = info.text_at("type") {
        return t;
    }
    match data.object_at("entity_types") {
        Some(ts) => match json::find_member(ts, name) {
            Some(Json::Text(t)) => t.clone(),
            _ => "UNKNOWN".to_owned(),
        },
        None => "UNKNOWN".to_owned(),
    }
}

/// The text `v`, or nothing where it is something else.
fn text_of_value(v: &Json) -> (r: String)
    ensures
        r@ == text_or_nothing(v@),
{
    match v {
        Json::Text(s) => s.clone(),
        _ => String::new(),
    }
}

/// The text at the first of two names that is there.
fn text_at_either(v: &Json, a: &str, b: &str) -> (r: Option<String>)
    ensures
        seqs::opt_view(r) == json::text_in(
            parser::either(json::field(v@, a@), json::field(v@, b@)),
        ),
{
    let found = match v.get(a) {
        Some(x) => Some(x),
        None => v.get(b),
    };
    match found {
        Some(Json::Text(s)) => Some(s.clone()),
        _ => None,
    }
}

/// What a relationship is made of: the names of its source, of its predicate and of
/// its target, and its attributes.
pub struct RelationParts {
    pub source: String,
    pub predicate: String,
    pub target: String,
    pub attributes: Metadata,
}

/// What a relationship is made of.
pub fn relation_parts(rel: &Json) -> (r: Option<RelationParts>)
    ensures
        match r {
            Some(p) => relation_parts_of(rel@) == Some(
                (p.source@, p.predicate@, p.target@, p.attributes@),
            ),
            None => relation_parts_of(rel@) is None,
        },
{
    match rel {
        Json::Array(a) => {
            if a.len() < 3 {
                assert(seqs::views(a@).len() == a@.len());
                return None;
            }
            assert(seqs::views(a@)[0] == a@[0]@);
            assert(seqs::views(a@)[1] == a@[1]@);
            assert(seqs::views(a@)[2] == a@[2]@);
            let attributes: Metadata = if a.len() > 3 {
                assert(seqs::views(a@)[3] == a@[3]@);
                match &a[3] {
                    Json::Object(m) => chunking::metadata_of(m),
                    _ => Table::new(),
                }
            } else {
                Table::new()
            };
            let r = RelationParts {
                source: text_of_value(&a[0]),
                predicate: text_of_value(&a[1]),
                target: text_of_value(&a[2]),
                attributes,
            };
            assert(r.attributes@ =~= (relation_parts_of(rel@)->0).3);
            Some(r)
        },
        Json::Object(o) => {
            let source = text_at_either(rel, "source", "subject");
            let target = text_at_either(rel, "target", "object");
            let predicate = match rel.get("type") {
                Some(Json::Text(s)) => Some(s.clone()),
                Some(_) => None,
                None => text_at_either(rel, "predicate", "relation"),
            };
            match (source, target, predicate) {
                (Some(source), Some(target), Some(predicate)) => {
                    let mut reserved: Vec<&'static str> = Vec::new();
                    reserved.push("source");
                    reserved.push("subject");
                    reserved.push("target");
                    reserved.push("object");
                    reserved.push("type");
                    reserved.push("predicate");
                    reserved.push("relation");
                    reserved.push("attributes");
                    assert(Seq::new(reserved@.len(), |i: int| reserved@[i]@)
                        =~= relation_members());
                    let attributes = collect_attributes(rel, o, &reserved);
                    Some(RelationParts { source, predicate, target, attributes })
                },
                _ => None,
            }
        },
        _ => None,
    }
}

/// Add the entities of an answer.
fn add_entities(gb: &mut GraphBuilder, o: &Vec<(String, Json)>, data: &Json)
    ensures
        final(gb)@ == with_entities(old(gb)@, json::members(o@), data@),
{
    let ghost all = json::members(o@);
    let mut i: usize = 0;
    while i < o.len()
        invariant
            i <= o@.len(),
            all == json::members(o@),
            gb@ == with_entities(old(gb)@, all.take(i as int), data@),
        decreases o.len() - i,
    {
        assert(all.take(i + 1).drop_last() =~= all.take(i as int));
        assert(all.take(i + 1).last() == (o@[i as int].0@, o@[i as int].1@));
        let name = &o[i].0;
        let info = &o[i].1;
        let t = type_written(name.as_str(), info, data);
        let attributes = attributes_of_entity(info);
        let upper = text::to_upper(t.as_str());
        let entity_type = match EntityType::parse(text::underscore(upper.as_str()).as_str()) {
            Some(e) => e,
            None => EntityType::PhysicalObject,
        };
        let description = match attributes.get("description") {
            Some(Json::Text(d)) => Some(d.clone()),
            _ => None,
        };
        gb.add_entity_with_raw_type(name.as_str(), entity_type, Some(t), description, attributes);
        i += 1;
    }
    assert(all.take(i as int) =~= all);
}

/// Add the relationships of an answer.
fn add_relations(gb: &mut GraphBuilder, rels: &Vec<Json>)
    ensures
        final(gb)@ == with_relations(old(gb)@, seqs::views(rels@)),
{
    let ghost all = seqs::views(rels@);
    let mut i: usize = 0;
    while i < rels.len()
        invariant
            i <= rels@.len(),
            all == seqs::views(rels@),
            gb@ == with_relations(old(gb)@, all.take(i as int)),
        decreases rels.len() - i,
    {
        assert(all.take(i + 1).drop_last() =~= all.take(i as int));
        assert(all.take(i + 1).last() == rels@[i as int]@);
        if let Some(p) = relation_parts(&rels[i]) {
            let upper = text::to_upper(p.predicate.as_str());
            let pt = match PredicateType::parse(text::underscore(upper.as_str()).as_str()) {
                Some(t) => t,
                None => PredicateType::RelatedTo,
            };
            let predicate = Predicate::with_label(pt, p.predicate.as_str());
            gb.add_relation(p.source.as_str(), predicate, p.target.as_str(), None, p.attributes);
        }
        i += 1;
    }
    assert(all.take(i as int) =~= all);
}

/// The names of types as they are compared.
fn normalize_types(s: &Vec<String>) -> (r: Vec<String>)
    ensures
        seqs::views(r@) == canonical_types(seqs::views(s@)),
{
    let ghost all = canonical_types(seqs::views(s@));
    let mut out: Vec<String> = Vec::new();
    let mut i: usize = 0;
    while i < s.len()
        invariant
            i <= s@.len(),
            all == canonical_types(seqs::views(s@)),
            seqs::views(out@) =~= all.take(i as int),
        decreases s.len() - i,
    {
        out.push(types::spec::norm_type(s[i].as_str()));
        i += 1;
    }
    assert(seqs::views(out@) =~= all);
    out
}

/// Whether a type may be used where `allowed` are the types that may be.
fn is_allowed(allowed: &Vec<String>, t: &str) -> (r: bool)
    ensures
        r == may_use(seqs::views(allowed@), t@),
{
    assert(seqs::views(allowed@).len() == allowed@.len());
    allowed.len() == 0 || names::holds(allowed, t)
}

/// What was left out of an answer.
pub struct FixedDrops {
    /// How many records were left out.
    pub records: u64,
    /// The types for which they were.
    pub types: NameSet,
}

impl View for FixedDrops {
    type V = DropsV;

    open spec fn view(&self) -> DropsV {
        DropsV { records: self.records, types: self.types@ }
    }
}

/// What is kept of an answer, and what was left out.
struct Pruning {
    entities: Vec<(String, Json)>,
    relationships: Vec<Json>,
    dropped_names: Vec<String>,
    drops: FixedDrops,
}

impl View for Pruning {
    type V = PrunedV;

    closed spec fn view(&self) -> PrunedV {
        PrunedV {
            entities: json::members(self.entities@),
            relationships: seqs::views(self.relationships@),
            dropped_names: seqs::views(self.dropped_names@),
            drops: self.drops@,
        }
    }
}

impl Pruning {
    /// Nothing was kept or left out yet.
    fn new() -> (r: Pruning)
        ensures
            r@ == nothing_pruned(),
    {
        let r = Pruning {
            entities: Vec::new(),
            relationships: Vec::new(),
            dropped_names: Vec::new(),
            drops: FixedDrops { records: 0, types: NameSet::new() },
        };
        assert(r@.entities =~= seq![]);
        assert(r@.relationships =~= seq![]);
        assert(r@.dropped_names =~= seq![]);
        assert(r@.drops.types =~= seq![]);
        r
    }

    /// Keep or leave out an entity.
    fn take_entity(&mut self, nodes: &Vec<String>, name: &String, info: &Json, data: &Json)
        ensures
            ({
                let t = types::spec::canonical_type(written_type(name@, info@, data@));
                final(self)@ == if may_use(seqs::views(nodes@), t) {
                    PrunedV { entities: old(self)@.entities.push((name@, info@)), ..old(self)@ }
                } else {
                    PrunedV {
                        dropped_names: old(self)@.dropped_names.push(text::lower(name@)),
                        drops: dropped(old(self)@.drops, Some(t)),
                        ..old(self)@
                    }
                }
            }),
    {
        let t = types::spec::norm_type(type_written(name.as_str(), info, data).as_str());
        if is_allowed(nodes, t.as_str()) {
            self.entities.push((name.clone(), info.dup()));
            assert(self@.entities =~= old(self)@.entities.push((name@, info@)));
        } else {
            self.drops.records = number::tally(self.drops.records);
            self.drops.types.insert(t);
            self.dropped_names.push(text::to_lower(name.as_str()));
        }
    }

    /// Keep or leave out a relationship.
    fn take_relation(&mut self, allowed: &Vec<String>, rel: &Json)
        ensures
            final(self)@.dropped_names == old(self)@.dropped_names,
            final(self)@ == match relation_parts_of(rel@) {
                None => old(self)@,
                Some(r) => {
                    let t = types::spec::canonical_type(r.1);
                    let ok = may_use(seqs::views(allowed@), t);
                    if ok && !old(self)@.dropped_names.contains(text::lower(r.0)) && !old(
                        self,
                    )@.dropped_names.contains(text::lower(r.2)) {
                        PrunedV {
                            relationships: old(self)@.relationships.push(rel@),
                            ..old(self)@
                        }
                    } else {
                        PrunedV {
                            drops: dropped(
                                old(self)@.drops,
                                if ok {
                                    None
                                } else {
                                    Some(t)
                                },
                            ),
                            ..old(self)@
                        }
                    }
                },
            },
    {
        if let Some(p) = relation_parts(rel) {
            let t = types::spec::norm_type(p.predicate.as_str());
            let ok = is_allowed(allowed, t.as_str());
            let source = text::to_lower(p.source.as_str());
            let target = text::to_lower(p.target.as_str());
            if ok && !names::holds(&self.dropped_names, source.as_str()) && !names::holds(
                &self.dropped_names,
                target.as_str(),
            ) {
                self.relationships.push(rel.dup());
            } else {
                self.drops.records = number::tally(self.drops.records);
                if !ok {
                    self.drops.types.insert(t);
                }
            }
        }
    }
}

/// An answer with nothing in it.
pub open spec fn empty_answer() -> JsonV {
    JsonV::Object(
        seq![
            ("entities"@, JsonV::Object(seq![])),
            ("relationships"@, JsonV::Array(seq![])),
        ],
    )
}

/// A schema binds the answers: the mode is fixed, and the schema names something.
pub open spec fn is_bound(s: SpecV) -> bool {
    s.mode == SchemaMode::Fixed && s.schema != types::spec::empty_schema()
}

/// What is taken of an answer.
pub open spec fn taken(s: SpecV, data: JsonV) -> JsonV {
    if is_bound(s) {
        pruned_data(s.schema, data)
    } else {
        data
    }
}

/// A graph with its relationships turned, where the specification asks for it.
pub open spec fn turned(s: SpecV, g: GraphV) -> GraphV {
    if s.canonical_direction {
        merger::directed(g)
    } else {
        g
    }
}

/// A graph turned and freed of duplicates, as far as the specification asks for it.
/// `written` are the descriptions that a model wrote of entities that were combined.
pub open spec fn settled_with(s: SpecV, g: GraphV, written: Seq<Option<Seq<char>>>) -> GraphV {
    let t = turned(s, g);
    if s.merge_duplicates {
        merger::deduplicated_with(merger::emptied(t), t, s.merge_strategy, s.coref, written)
    } else {
        t
    }
}

/// A graph turned and freed of duplicates, where no model wrote descriptions.
pub open spec fn settled(s: SpecV, g: GraphV) -> GraphV {
    settled_with(s, g, seq![])
}

/// A model writes the descriptions of entities that are combined.
pub open spec fn is_written(s: SpecV) -> bool {
    s.merge_duplicates && s.merge_strategy == MergeStrategy::Llm
}

/// Whether a model writes the descriptions of entities that are combined.
pub fn asks_to_write(s: &ExtractionSpec) -> (r: bool)
    ensures
        r == is_written(s@),
{
    s.merge_duplicates && s.merge_strategy == MergeStrategy::Llm
}

/// A graph with its relationships turned, where the specification asks for it.
fn turn(s: &ExtractionSpec, kg: KnowledgeGraph) -> (r: KnowledgeGraph)
    ensures
        r@ == turned(s@, kg@),
{
    let mut kg = kg;
    if s.canonical_direction {
        merger::normalize_direction(&mut kg);
    }
    kg
}

/// The pass over a graph that frees it of duplicates, before anything was taken in. Where
/// all that is due was written, what it comes to is [`settled_with`] that.
pub fn start_settling(s: &ExtractionSpec, kg: KnowledgeGraph) -> (r: MergeSession)
    requires
        s@.merge_duplicates,
    ensures
        r@ == (MergeSessionV {
            g: merger::emptied(turned(s@, kg@)),
            other: turned(s@, kg@),
            strategy: s@.merge_strategy,
            mode: s@.coref,
            written: seq![],
        }),
        forall|written: Seq<Option<Seq<char>>>| #[trigger]
            settled_with(s@, kg@, written) == merger::deduplicated_with(
                r@.g,
                r@.other,
                r@.strategy,
                r@.mode,
                written,
            ),
{
    MergeSession::within(turn(s, kg), s.merge_strategy, s.coref)
}

/// A graph turned and freed of duplicates, where no model writes descriptions.
pub fn settle(s: &ExtractionSpec, kg: KnowledgeGraph) -> (r: KnowledgeGraph)
    ensures
        r@ == settled(s@, kg@),
{
    if s.merge_duplicates {
        start_settling(s, kg).finish()
    } else {
        turn(s, kg)
    }
}

/// The types and attributes that were looked for, as they are noted.
pub open spec fn schema_used(s: SchemaV) -> JsonV {
    JsonV::Object(
        seq![
            ("entity_types"@, json::texts(s.nodes)),
            ("predicates"@, json::texts(s.relations)),
            ("attributes"@, json::texts(s.attributes)),
        ],
    )
}

/// What is noted of an extraction.
pub open spec fn response_metadata(c: ConfigV, data: JsonV) -> MetadataV {
    let m = table::put(
        table::put(
            table::put(
                table::put(seq![], "model"@, JsonV::Text(c.model_name)),
                "mode"@,
                JsonV::Text("schema_json"@),
            ),
            "schema_mode"@,
            JsonV::Text(types::spec::mode_name(c.spec.mode)),
        ),
        "schema_used"@,
        schema_used(c.spec.schema),
    );
    let proposed = match json::field(taken(c.spec, data), "new_schema_types"@) {
        Some(v) => table::put(m, "new_schema_types"@, v),
        None => m,
    };
    if is_bound(c.spec) {
        let d = pruned(c.spec.schema, data).drops;
        table::put(
            table::put(proposed, "schema_dropped_records"@, JsonV::Uint(d.records)),
            "schema_dropped_types"@,
            json::texts(d.types),
        )
    } else {
        proposed
    }
}

/// What is noted of an extraction tells the model, the way it was done and the schema; where
/// the schema binds, it tells how many records were left out and for which types.
pub proof fn law_extractions_are_noted(c: ConfigV, data: JsonV)
    ensures
        ({
            let m = response_metadata(c, data);
            &&& table::lookup(m, "model"@) == Some(JsonV::Text(c.model_name))
            &&& table::lookup(m, "mode"@) == Some(JsonV::Text("schema_json"@))
            &&& table::lookup(m, "schema_mode"@) == Some(
                JsonV::Text(types::spec::mode_name(c.spec.mode)),
            )
            &&& is_bound(c.spec) ==> {
                &&& table::lookup(m, "schema_dropped_records"@) == Some(
                    JsonV::Uint(pruned(c.spec.schema, data).drops.records),
                )
                &&& table::lookup(m, "schema_dropped_types"@) == Some(
                    json::texts(pruned(c.spec.schema, data).drops.types),
                )
            }
        }),
{
    reveal_strlit("model");
    assert("model"@.len() == 5);
    reveal_strlit("mode");
    assert("mode"@.len() == 4);
    reveal_strlit("schema_mode");
    assert("schema_mode"@.len() == 11);
    reveal_strlit("schema_used");
    assert("schema_used"@.len() == 11);
    reveal_strlit("new_schema_types");
    assert("new_schema_types"@.len() == 16);
    reveal_strlit("schema_dropped_records");
    assert("schema_dropped_records"@.len() == 22);
    reveal_strlit("schema_dropped_types");
    assert("schema_dropped_types"@.len() == 20);
    assert("schema_mode"@[7] != "schema_used"@[7]);
    let a = table::put(seq![], "model"@, JsonV::Text(c.model_name));
    let b = table::put(a, "mode"@, JsonV::Text("schema_json"@));
    let d = table::put(b, "schema_mode"@, JsonV::Text(types::spec::mode_name(c.spec.mode)));
    let e = table::put(d, "schema_used"@, schema_used(c.spec.schema));
    let f = match json::field(taken(c.spec, data), "new_schema_types"@) {
        Some(v) => table::put(e, "new_schema_types"@, v),
        None => e,
    };
    let drops = pruned(c.spec.schema, data).drops;
    let g = table::put(f, "schema_dropped_records"@, JsonV::Uint(drops.records));
    lemma_noted(a, b, d, e, f, g, c, data, "model"@);
    lemma_noted(a, b, d, e, f, g, c, data, "mode"@);
    lemma_noted(a, b, d, e, f, g, c, data, "schema_mode"@);
    lemma_noted(a, b, d, e, f, g, c, data, "schema_dropped_records"@);
    lemma_noted(a, b, d, e, f, g, c, data, "schema_dropped_types"@);
    table::lemma_lookup_put(seq![], "model"@, JsonV::Text(c.model_name), "model"@);
}

proof fn lemma_noted(
    a: MetadataV,
    b: MetadataV,
    d: MetadataV,
    e: MetadataV,
    f: MetadataV,
    g: MetadataV,
    c: ConfigV,
    data: JsonV,
    k: Seq<char>,
)
    ensures
        ({
            let drops = pruned(c.spec.schema, data).drops;
            let mode = JsonV::Text(types::spec::mode_name(c.spec.mode));
            &&& table::lookup(table::put(a, "mode"@, JsonV::Text("schema_json"@)), k) == if k
                == "mode"@ {
                Some(JsonV::Text("schema_json"@))
            } else {
                table::lookup(a, k)
            }
            &&& table::lookup(table::put(b, "schema_mode"@, mode), k) == if k == "schema_mode"@ {
                Some(mode)
            } else {
                table::lookup(b, k)
            }
            &&& k != "schema_used"@ ==> table::lookup(
                table::put(d, "schema_used"@, schema_used(c.spec.schema)),
                k,
            ) == table::lookup(d, k)
            &&& k != "new_schema_types"@ ==> forall|v: JsonV|
                table::lookup(#[trigger] table::put(e, "new_schema_types"@, v), k)
                    == table::lookup(e, k)
            &&& table::lookup(
                table::put(f, "schema_dropped_records"@, JsonV::Uint(drops.records)),
                k,
            ) == if k == "schema_dropped_records"@ {
                Some(JsonV::Uint(drops.records))
            } else {
                table::lookup(f, k)
            }
            &&& table::lookup(
                table::put(g, "schema_dropped_types"@, json::texts(drops.types)),
                k,
            ) == if k == "schema_dropped_types"@ {
                Some(json::texts(drops.types))
            } else {
                table::lookup(g, k)
            }
        }),
{
    let drops = pruned(c.spec.schema, data).drops;
    let mode = JsonV::Text(types::spec::mode_name(c.spec.mode));
    table::lemma_lookup_put(a, "mode"@, JsonV::Text("schema_json"@), k);
    table::lemma_lookup_put(b, "schema_mode"@, mode, k);
    table::lemma_lookup_put(d, "schema_used"@, schema_used(c.spec.schema), k);
    assert forall|v: JsonV| k != "new_schema_types"@ implies table::lookup(
        #[trigger] table::put(e, "new_schema_types"@, v),
        k,
    ) == table::lookup(e, k) by {
        table::lemma_lookup_put(e, "new_schema_types"@, v, k);
    }
    table::lemma_lookup_put(f, "schema_dropped_records"@, JsonV::Uint(drops.records), k);
    table::lemma_lookup_put(g, "schema_dropped_types"@, json::texts(drops.types), k);
}

/// The JSON value in an answer, or one with nothing in it.
pub open spec fn answer_data(j: Option<JsonV>) -> JsonV {
    match j {
        Some(v) => v,
        None => empty_answer(),
    }
}

/// The graph of an answer, before duplicates are looked for.
pub open spec fn answer_graph(s: SpecV, j: Option<JsonV>) -> GraphV {
    built(s, taken(s, answer_data(j)))
}

/// What comes of a text and the JSON value in the answer to it, where `g` is the graph
/// that was made of it.
pub open spec fn response_with(
    c: ConfigV,
    text: Seq<char>,
    j: Option<JsonV>,
    g: GraphV,
) -> ResponseV {
    ResponseV {
        knowledge_graph: citation::graph_cited(
            g,
            citation::whole_document(c.source_doc, text),
        ),
        metadata: response_metadata(c, answer_data(j)),
        parsed_results: seq![],
        config: Some(c),
    }
}

/// What comes of a text and the JSON value in the answer to it, where no model writes
/// descriptions.
pub open spec fn response_to(c: ConfigV, text: Seq<char>, j: Option<JsonV>) -> ResponseV {
    response_with(c, text, j, settled(c.spec, answer_graph(c.spec, j)))
}

/// The messages that ask about a text. A prompt that was made of a template is asked
/// as it is.
pub open spec fn messages_for(
    c: ConfigV,
    text: Seq<char>,
    rendered: Option<Seq<char>>,
) -> Seq<MessageV> {
    match rendered {
        Some(p) => seq![backend::plain_message("user"@, p)],
        None => seq![
            backend::plain_message("system"@, system_prompt(c)),
            backend::plain_message("user"@, "Text:\n"@ + text),
        ],
    }
}

/// How a mode is called in an error.
pub open spec fn mode_title(m: SchemaMode) -> Seq<char> {
    match m {
        SchemaMode::Open => "Open"@,
        SchemaMode::Fixed => "Fixed"@,
        SchemaMode::Evolving => "Evolving"@,
    }
}

/// What is said where a mode lacks a schema.
pub open spec fn schema_lacking(m: SchemaMode) -> Seq<char> {
    "schema mode "@ + mode_title(m)
        + " requires a non-empty schema (seed one via ExtractionConfig::from_schema; CLI: --schema <file>), or use SchemaMode::Open"@
}

/// What is said where a mode lacks a schema.
pub fn lacks_schema(m: SchemaMode) -> (r: String)
    ensures
        r@ == schema_lacking(m),
{
    let title = match m {
        SchemaMode::Open => "Open",
        SchemaMode::Fixed => "Fixed",
        SchemaMode::Evolving => "Evolving",
    };
    let mut e = text::concat2("schema mode ", title);
    e.append(
        " requires a non-empty schema (seed one via ExtractionConfig::from_schema; CLI: --schema <file>), or use SchemaMode::Open",
    );
    e
}

/// A mode lacks a schema.
pub open spec fn is_schema_lacking(s: SpecV) -> bool {
    s.mode != SchemaMode::Open && s.schema == types::spec::empty_schema()
}

impl SchemaJsonExtractor {
    /// The configuration that the engine starts from: no schema.
    pub fn default_config() -> (r: ExtractionConfig)
        ensures
            r@ == types::spec::plain_config("qwen-max"@, 3000),
    {
        ExtractionConfig::plain("qwen-max", 3000)
    }

    /// The engine with the configuration that it starts from.
    pub fn new() -> (r: SchemaJsonExtractor)
        ensures
            r@ == types::spec::plain_config("qwen-max"@, 3000),
            !r.quiet,
    {
        SchemaJsonExtractor { config: SchemaJsonExtractor::default_config(), quiet: false }
    }

    /// The engine with a configuration.
    pub fn with_config(config: ExtractionConfig) -> (r: SchemaJsonExtractor)
        ensures
            r@ == config@,
            !r.quiet,
    {
        SchemaJsonExtractor { config, quiet: false }
    }

    /// The engine with a specification.
    pub fn with_spec(spec: ExtractionSpec) -> (r: SchemaJsonExtractor)
        ensures
            r@ == (ConfigV {
                spec: spec@,
                ..types::spec::plain_config("qwen-max"@, 3000)
            }),
            !r.quiet,
    {
        let mut config = SchemaJsonExtractor::default_config();
        config.spec = spec;
        SchemaJsonExtractor::with_config(config)
    }

    /// The engine in another mode.
    pub fn schema_mode(self, mode: SchemaMode) -> (r: SchemaJsonExtractor)
        ensures
            r@ == (ConfigV { spec: SpecV { mode, ..self@.spec }, ..self@ }),
            r.quiet == self.quiet,
    {
        let mut r = self;
        r.config.spec.mode = mode;
        r
    }

    /// The configuration.
    pub fn config(&self) -> (r: &ExtractionConfig)
        ensures
            r@ == self@,
    {
        &self.config
    }

    /// What is asked of a model beside the messages.
    pub fn options(&self) -> (r: CompletionOptions)
        ensures
            r.model@ == self@.model_name,
            r.temperature_percent == 30,
            r.max_tokens == 4000,
    {
        CompletionOptions::of(self.config.model_name.as_str(), 30, 4000)
    }

    /// What the model is told before it is given a text.
    pub fn build_system_prompt(&self) -> (r: String)
        ensures
            r@ == system_prompt(self@),
    {
        let schema = json::render_json(&self.config.spec.schema.to_value());
        let mut s = String::new();
        let ghost end = DIRECTION_RULE@ + "\nEnsure valid JSON output."@;
        match self.config.spec.mode {
            SchemaMode::Open => {
                s.append(
                    "Extract entities and relationships from the user's text.\nNo predefined schema is given — infer suitable entity types and relation types from the content.\n\n",
                );
                s.append(OUTPUT_FORMAT);
                s.append("\n");
            },
            SchemaMode::Fixed => {
                s.append(
                    "Extract entities and relationships from the user's text using the provided schema.\n\nSchema:\n",
                );
                s.append(schema.as_str());
                s.append("\n\n");
                s.append(OUTPUT_FORMAT);
                s.append("\nUse only the entity types and relations from the schema.\n");
            },
            SchemaMode::Evolving => {
                s.append(
                    "Extract entities and relationships from the user's text using the provided schema as guidance.\nYou may suggest new entity types, relations, or attributes if they better represent the content.\n\nSchema:\n",
                );
                s.append(schema.as_str());
                s.append("\n\n");
                s.append(OUTPUT_FORMAT);
                s.append(
                    "4. \"new_schema_types\": {\"nodes\": [], \"relations\": [], \"attributes\": []} (if suggesting new types)\n\n",
                );
            },
        }
        let ghost head = s@;
        s.append(DIRECTION_RULE);
        s.append("\nEnsure valid JSON output.");
        assert(s@ =~= head + end);
        assert(s@ =~= system_prompt(self@));
        s
    }

    /// The messages that ask about a text, or why it is not asked about. A prompt
    /// that was made of a template needs no schema.
    pub fn request(&self, text: &str, rendered: Option<&str>) -> (r: Result<Vec<Message>, String>)
        ensures
            match r {
                Ok(ms) => text::trimmed(text@).len() > 0 && !(rendered is None
                    && is_schema_lacking(self@.spec)) && seqs::views(ms@) == messages_for(
                    self@,
                    text@,
                    crate::mcp::query::str_view(rendered),
                ),
                Err(e) => if text::trimmed(text@).len() == 0 {
                    e@ == "No input text provided"@
                } else {
                    rendered is None && is_schema_lacking(self@.spec) && e@ == schema_lacking(
                        self@.spec.mode,
                    )
                },
            },
    {
        if let Err(e) = extractor::validate_input(text, self.config.min_segment_size) {
            return Err(e);
        }
        let mut ms: Vec<Message> = Vec::new();
        match rendered {
            Some(p) => {
                ms.push(Message::user(p));
            },
            None => {
                if self.config.spec.mode.needs_schema() && self.config.spec.schema.is_empty() {
                    return Err(lacks_schema(self.config.spec.mode));
                }
                ms.push(Message::system(self.build_system_prompt().as_str()));
                ms.push(Message::user(text::concat2("Text:\n", text).as_str()));
            },
        }
        assert(seqs::views(ms@) =~= messages_for(
            self@,
            text@,
            crate::mcp::query::str_view(rendered),
        ));
        Ok(ms)
    }

    /// The graph in an answer.
    pub fn build_graph(&self, data: &Json) -> (r: KnowledgeGraph)
        ensures
            r@ == built(self@.spec, data@),
    {
        let strategy = if self.config.spec.merge_duplicates {
            self.config.spec.merge_strategy
        } else {
            MergeStrategy::KeepExisting
        };
        let mut gb = GraphBuilder::new().merge_strategy(strategy);
        match data.object_at("entities") {
            Some(o) => {
                add_entities(&mut gb, o, data);
            },
            None => {},
        }
        match data.array_at("relationships") {
            Some(rels) => {
                add_relations(&mut gb, rels);
            },
            None => {},
        }
        gb.into_graph()
    }

    /// What is kept of an answer under the schema, and what is left out.
    pub fn enforce_fixed(&self, data: &Json) -> (r: (Json, FixedDrops))
        ensures
            r.0@ == pruned_data(self@.spec.schema, data@),
            r.1@ == pruned(self@.spec.schema, data@).drops,
    {
        let nodes = normalize_types(self.config.entity_types_list());
        let allowed = normalize_types(self.config.predicates_list());
        let mut p = Pruning::new();
        if let Some(o) = data.object_at("entities") {
            let ghost all = json::members(o@);
            let mut i: usize = 0;
            while i < o.len()
                invariant
                    i <= o@.len(),
                    all == json::members(o@),
                    p@ == entities_pruned(seqs::views(nodes@), all.take(i as int), data@),
                decreases o.len() - i,
            {
                assert(all.take(i + 1).drop_last() =~= all.take(i as int));
                assert(all.take(i + 1).last() == (o@[i as int].0@, o@[i as int].1@));
                p.take_entity(&nodes, &o[i].0, &o[i].1, data);
                i += 1;
            }
            assert(all.take(i as int) =~= all);
        }
        let ghost first = p@;
        assert(first == entities_pruned(
            canonical_types(self@.spec.schema.nodes),
            members_at(data@, "entities"@),
            data@,
        ));
        if let Some(rels) = data.array_at("relationships") {
            let ghost all = seqs::views(rels@);
            let mut i: usize = 0;
            while i < rels.len()
                invariant
                    i <= rels@.len(),
                    all == seqs::views(rels@),
                    p@ == relations_pruned(first, seqs::views(allowed@), all.take(i as int)),
                    p@.dropped_names == first.dropped_names,
                decreases rels.len() - i,
            {
                assert(all.take(i + 1).drop_last() =~= all.take(i as int));
                assert(all.take(i + 1).last() == rels@[i as int]@);
                p.take_relation(&allowed, &rels[i]);
                i += 1;
            }
            assert(all.take(i as int) =~= all);
        }
        assert(p@ == pruned(self@.spec.schema, data@));
        let Pruning { entities, relationships, dropped_names: _, drops } = p;
        let out = match data {
            Json::Object(o) => {
                let kept = put_member(
                    dup_members(o),
                    "entities",
                    Json::Object(entities),
                );
                Json::Object(put_member(kept, "relationships", Json::Array(relationships)))
            },
            _ => data.dup(),
        };
        (out, drops)
    }

    /// What is taken of the JSON value in an answer, and what was left out of it.
    fn take_answer(&self, j: &Option<Json>) -> (r: (Json, Option<FixedDrops>))
        ensures
            r.0@ == taken(self@.spec, answer_data(seqs::opt_view(*j))),
            r.1 is Some == is_bound(self@.spec),
            r.1 is Some ==> r.1->0@ == pruned(
                self@.spec.schema,
                answer_data(seqs::opt_view(*j)),
            ).drops,
    {
        let data = match j {
            Some(v) => v.dup(),
            None => {
                let none = ObjectBuilder::new().with("entities", Json::Object(Vec::new())).with(
                    "relationships",
                    Json::Array(Vec::new()),
                ).done();
                assert(json::members(Seq::<(String, Json)>::empty()) =~= seq![]);
                assert(none@->Object_0 =~= empty_answer()->Object_0);
                none
            },
        };
        let spec = &self.config.spec;
        if spec.mode == SchemaMode::Fixed && !spec.schema.is_empty() {
            let (kept, drops) = self.enforce_fixed(&data);
            (kept, Some(drops))
        } else {
            (data, None)
        }
    }

    /// Whether a model writes the descriptions of entities that are combined.
    pub fn asks_to_merge(&self) -> (r: bool)
        ensures
            r == is_written(self@.spec),
    {
        asks_to_write(&self.config.spec)
    }

    /// The pass that frees the graph of an answer of duplicates, before anything was
    /// taken in: see [`start_settling`].
    pub fn start_merge(&self, j: &Option<Json>) -> (r: MergeSession)
        requires
            self@.spec.merge_duplicates,
        ensures
            r@ == (MergeSessionV {
                g: merger::emptied(r@.other),
                other: turned(self@.spec, answer_graph(self@.spec, seqs::opt_view(*j))),
                strategy: self@.spec.merge_strategy,
                mode: self@.spec.coref,
                written: seq![],
            }),
            forall|written: Seq<Option<Seq<char>>>| #[trigger]
                settled_with(self@.spec, answer_graph(self@.spec, seqs::opt_view(*j)), written)
                    == merger::deduplicated_with(
                    r@.g,
                    r@.other,
                    r@.strategy,
                    r@.mode,
                    written,
                ),
    {
        let (kept, _drops) = self.take_answer(j);
        start_settling(&self.config.spec, self.build_graph(&kept))
    }

    /// What comes of a text and the JSON value in the answer to it, where no model writes
    /// descriptions.
    pub fn read_answer(&self, text: &str, j: Option<Json>) -> (r: ExtractionResponse)
        ensures
            r@ == response_to(self@, text@, seqs::opt_view(j)),
    {
        let (kept, _drops) = self.take_answer(&j);
        let kg = settle(&self.config.spec, self.build_graph(&kept));
        self.respond_with(text, &j, kg)
    }

    /// What comes of a text and the JSON value in the answer to it, where `kg` is the
    /// graph that was made of it. Where a model writes descriptions, `kg` is what
    /// [`SchemaJsonExtractor::start_merge`] comes to.
    pub fn respond_with(&self, text: &str, j: &Option<Json>, kg: KnowledgeGraph) -> (r:
        ExtractionResponse)
        ensures
            r@ == response_with(self@, text@, seqs::opt_view(*j), kg@),
    {
        let spec = &self.config.spec;
        let (kept, drops) = self.take_answer(j);
        let mut kg = kg;
        citation::stamp_whole_document(&mut kg, &self.config.source_doc, text);
        let mut resp = ExtractionResponse::new(kg);
        resp.metadata.insert("model".to_owned(), json::string(self.config.model_name.as_str()));
        resp.metadata.insert("mode".to_owned(), json::string("schema_json"));
        resp.metadata.insert("schema_mode".to_owned(), json::string(spec.mode.as_str()));
        let used = ObjectBuilder::new().with(
            "entity_types",
            json::texts_of(&spec.schema.nodes),
        ).with("predicates", json::texts_of(&spec.schema.relations)).with(
            "attributes",
            json::texts_of(&spec.schema.attributes),
        ).done();
        assert(used@->Object_0 =~= schema_used(self@.spec.schema)->Object_0);
        resp.metadata.insert("schema_used".to_owned(), used);
        if let Some(v) = kept.get("new_schema_types") {
            resp.metadata.insert("new_schema_types".to_owned(), v.dup());
        }
        if let Some(d) = drops {
            resp.metadata.insert("schema_dropped_records".to_owned(), Json::Uint(d.records));
            resp.metadata.insert(
                "schema_dropped_types".to_owned(),
                json::texts_of(&d.types.to_vec()),
            );
        }
        resp.config = Some(self.config.dup());
        resp
    }

    /// What comes of a text and the answer to it: see
    /// [`SchemaJsonExtractor::read_answer`]. Where the question was not answered,
    /// nothing was found.
    pub fn finish(&self, text: &str, reply: Option<&str>) -> (r: ExtractionResponse)
        ensures
            r@ == match reply {
                Some(t) => response_to(self@, text@, json::json_in_response(t@)),
                None => types::response::plain_response(types::graph::empty_graph()),
            },
    {
        match reply {
            Some(t) => self.read_answer(text, json::extract_json_from_response(t)),
            None => ExtractionResponse::new(KnowledgeGraph::new()),
        }
    }
}

/// The same members in the same order.
fn dup_members(o: &Vec<(String, Json)>) -> (r: Vec<(String, Json)>)
    ensures
        json::members(r@) == json::members(o@),
{
    let mut out: Vec<(String, Json)> = Vec::new();
    let mut i: usize = 0;
    while i < o.len()
        invariant
            i <= o@.len(),
            json::members(out@) =~= json::members(o@).take(i as int),
        decreases o.len() - i,
    {
        let k = o[i].0.clone();
        let v = o[i].1.dup();
        let ghost before = json::members(out@);
        out.push((k, v));
        assert(json::members(out@) =~= before.push((k@, v@)));
        assert(json::members(o@)[i as int] == (k@, v@));
        i += 1;
    }
    assert(json::members(out@) =~= json::members(o@));
    out
}

/// The members `o` with `v` under the name `k`.
fn put_member(o: Vec<(String, Json)>, k: &str, v: Json) -> (r: Vec<(String, Json)>)
    ensures
        json::members(r@) == table::put(json::members(o@), k@, v@),
{
    let ghost all = json::members(o@);
    let mut m = o;
    let mut i: usize = 0;
    while i < m.len()
        invariant
            i <= m@.len(),
            all == json::members(o@),
            all == json::members(m@),
            forall|j: int| 0 <= j < i ==> (#[trigger] all[j]).0 != k@,
        decreases m.len() - i,
    {
        if text::same(m[i].0.as_str(), k) {
            proof {
                assert(all[i as int].0 == k@);
                table::lemma_position_at(all, k@, i as int);
            }
            m.set(i, (k.to_owned(), v));
            assert(json::members(m@) =~= table::put(all, k@, v@));
            return m;
        }
        i += 1;
    }
    proof {
        table::lemma_position(all, k@);
    }
    m.push((k.to_owned(), v));
    assert(json::members(m@) =~= table::put(all, k@, v@));
    m
}

} // verus!
