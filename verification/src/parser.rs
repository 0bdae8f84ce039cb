//! Reading entities and relationships out of the JSON that a language model
//! answers with.

use vstd::prelude::*;

use crate::json::{Json, JsonV, ObjectBuilder};
use crate::table::{Dup, Table};
use crate::types::graph::{Entity, EntityV, Metadata, MetadataV, Predicate, Triple, TripleV};
use crate::types::response::{ParsedResult, ParsedResultV, RelTuple, RelTupleV};
use crate::types::vocab::{EntityType, PredicateType};
use crate::{chunking, citation, json, pattern, seqs, table, text};

pub use crate::json::extract_json_from_response;

verus! {

broadcast use {crate::seqs::group_views, crate::json::group_json};

/// What an [`EntityInfo`] stands for.
pub struct EntityInfoV {
    pub label: Seq<char>,
    pub kind: Option<Seq<char>>,
    pub description: Option<Seq<char>>,
    pub attributes: MetadataV,
}

/// An entity as it was written, before its type is settled.
pub struct EntityInfo {
    pub label: String,
    /// The type, where one was given.
    pub kind: Option<String>,
    pub description: Option<String>,
    pub attributes: Metadata,
}

impl View for EntityInfo {
    type V = EntityInfoV;

    open spec fn view(&self) -> EntityInfoV {
        EntityInfoV {
            label: self.label@,
            kind: seqs::opt_view(self.kind),
            description: seqs::opt_view(self.description),
            attributes: self.attributes@,
        }
    }
}

impl Dup for EntityInfo {
    fn dup(&self) -> (r: EntityInfo) {
        EntityInfo {
            label: self.label.clone(),
            kind: crate::types::graph::dup_option(&self.kind),
            description: crate::types::graph::dup_option(&self.description),
            attributes: self.attributes.dup(),
        }
    }
}

/// Entities as they were written, by id.
pub type InfosV = Seq<(Seq<char>, EntityInfoV)>;

/// An entity of which nothing but a label is known.
pub open spec fn label_only(label: Seq<char>) -> EntityInfoV {
    EntityInfoV { label, kind: None, description: None, attributes: seq![] }
}

/// The first text, or the second where there is no first.
pub open spec fn text_or(t: Option<Seq<char>>, other: Seq<char>) -> Seq<char> {
    match t {
        Some(s) => s,
        None => other,
    }
}

/// The first value, or the second where there is no first.
pub open spec fn either(a: Option<JsonV>, b: Option<JsonV>) -> Option<JsonV> {
    match a {
        Some(v) => Some(v),
        None => b,
    }
}

/// The attributes that an object gives an entity.
pub open spec fn attributes_in(o: JsonV) -> MetadataV {
    match json::object_in(json::field(o, "attributes"@)) {
        Some(m) => table::put_all(seq![], m),
        None => seq![],
    }
}

/// What an object says of an entity with the given label.
pub open spec fn info_in(label: Seq<char>, o: JsonV) -> EntityInfoV {
    EntityInfoV {
        label,
        kind: json::text_in(json::field(o, "type"@)),
        description: json::text_in(json::field(o, "description"@)),
        attributes: attributes_in(o),
    }
}

/// What `v` says of the entity `id`: an object, or else a label alone.
pub open spec fn named_info(id: Seq<char>, v: JsonV) -> EntityInfoV {
    if v is Object {
        info_in(text_or(json::text_in(json::field(v, "label"@)), id), v)
    } else {
        label_only(json::as_plain_text(v))
    }
}

/// The entities of an object that gives them by id.
pub open spec fn named_infos(o: Seq<(Seq<char>, JsonV)>) -> InfosV
    decreases o.len(),
{
    if o.len() == 0 {
        seq![]
    } else {
        table::put(named_infos(o.drop_last()), o.last().0, named_info(o.last().0, o.last().1))
    }
}

/// The id of the entity `v` of a list, where `n` entities were found before it.
pub open spec fn listed_id(v: JsonV, n: nat) -> Seq<char> {
    text_or(json::text_in(json::field(v, "id"@)), "entity_"@ + text::decimal(n))
}

/// An entity of a list is called by its label, or else by its name; its type and its
/// description are those that it gives, and what was read before it stays.
pub proof fn law_listed_entities_are_called_by_label(
    a: Seq<JsonV>,
    o: Seq<(Seq<char>, JsonV)>,
    l: Seq<char>,
    k: Seq<char>,
)
    ensures
        ({
            let v = JsonV::Object(o);
            let before = listed_infos(a);
            let after = listed_infos(a.push(v));
            let id = listed_id(v, before.len());
            let e = table::lookup(after, id)->0;
            &&& table::has_key(after, id)
            &&& table::lookup(o, "label"@) == Some(JsonV::Text(l)) ==> e.label == l
            &&& !table::has_key(o, "label"@) && table::lookup(o, "name"@) == Some(JsonV::Text(l))
                ==> e.label == l
            &&& table::lookup(o, "type"@) == Some(JsonV::Text(l)) ==> e.kind == Some(l)
            &&& table::lookup(o, "description"@) == Some(JsonV::Text(l)) ==> e.description == Some(
                l,
            )
            &&& k != id ==> table::lookup(after, k) == table::lookup(before, k)
        }),
{
    let v = JsonV::Object(o);
    let before = listed_infos(a);
    let id = listed_id(v, before.len());
    let label = text_or(
        json::text_in(either(json::field(v, "label"@), json::field(v, "name"@))),
        id,
    );
    assert(a.push(v).drop_last() =~= a);
    table::lemma_lookup_put(before, id, info_in(label, v), id);
    table::lemma_lookup_put(before, id, info_in(label, v), k);
    table::lemma_position(o, "label"@);
}

/// The entities of a list; what is not an object is passed over.
pub open spec fn listed_infos(a: Seq<JsonV>) -> InfosV
    decreases a.len(),
{
    if a.len() == 0 {
        seq![]
    } else {
        let found = listed_infos(a.drop_last());
        let v = a.last();
        if v is Object {
            let id = listed_id(v, found.len());
            let label = text_or(
                json::text_in(either(json::field(v, "label"@), json::field(v, "name"@))),
                id,
            );
            table::put(found, id, info_in(label, v))
        } else {
            found
        }
    }
}

/// The entities that stand under `entities`.
pub open spec fn infos_in(j: JsonV) -> InfosV {
    match json::field(j, "entities"@) {
        Some(JsonV::Object(o)) => named_infos(o),
        Some(JsonV::Array(a)) => listed_infos(a),
        _ => seq![],
    }
}

/// The relationship that `v` gives: a list of source, predicate and target, or an
/// object with them.
pub open spec fn relationship_in(v: JsonV) -> Option<RelTupleV> {
    match v {
        JsonV::Array(a) => if a.len() >= 3 {
            Some((json::as_plain_text(a[0]), json::as_plain_text(a[1]), json::as_plain_text(a[2])))
        } else {
            None
        },
        _ => {
            let source = either(json::field(v, "source"@), json::field(v, "subject"@));
            let target = either(json::field(v, "target"@), json::field(v, "object"@));
            let predicate = either(json::field(v, "predicate"@), json::field(v, "relation"@));
            match (source, target, predicate) {
                (Some(s), Some(t), Some(p)) => Some(
                    (json::as_plain_text(s), json::as_plain_text(p), json::as_plain_text(t)),
                ),
                _ => None,
            }
        },
    }
}

/// The relationships that the values `a` give.
pub open spec fn relationships_of(a: Seq<JsonV>) -> Seq<RelTupleV>
    decreases a.len(),
{
    if a.len() == 0 {
        seq![]
    } else {
        let found = relationships_of(a.drop_last());
        match relationship_in(a.last()) {
            Some(r) => found.push(r),
            None => found,
        }
    }
}

/// The relationships that stand under `relationships`.
pub open spec fn relationships_in(j: JsonV) -> Seq<RelTupleV> {
    match json::array_in(json::field(j, "relationships"@)) {
        Some(a) => relationships_of(a),
        None => seq![],
    }
}

/// What an item of a mixed list gives.
pub enum MixedV {
    Entity(Seq<char>, Seq<char>),
    Relationship(RelTupleV),
    Nothing,
}

/// What the item `s` of a mixed list gives, where `markers` are the numbers in
/// square brackets in it and `between` the pieces round them: with one number an
/// entity, its label behind a comma, and with two a relationship, where the pieces
/// hold one text.
pub open spec fn mixed_item(
    s: Seq<char>,
    markers: Seq<Seq<char>>,
    between: Seq<Seq<char>>,
) -> MixedV {
    if markers.len() == 1 {
        match text::parted(s, ", "@) {
            Some(p) => MixedV::Entity(text::trimmed(p.0), text::trimmed(p.1)),
            None => MixedV::Nothing,
        }
    } else if markers.len() == 2 && text::nonblank(between).len() == 1 {
        MixedV::Relationship((markers[0], text::nonblank(between)[0], markers[1]))
    } else {
        MixedV::Nothing
    }
}

/// An item of a mixed list with two numbers in square brackets and one text round them is a
/// relationship from the first number to the second, with that text as its predicate; one
/// with one number and a comma is an entity, its id before the comma and its label behind it.
pub proof fn law_mixed_items_read_from_first_to_last(
    s: Seq<char>,
    a: Seq<char>,
    b: Seq<char>,
    between: Seq<Seq<char>>,
    p: Seq<char>,
    id: Seq<char>,
    label: Seq<char>,
)
    requires
        text::nonblank(between) == seq![p],
    ensures
        mixed_item(s, seq![a, b], between) == MixedV::Relationship((a, p, b)),
        text::parted(s, ", "@) == Some((id, label)) ==> mixed_item(s, seq![a], between)
            == MixedV::Entity(text::trimmed(id), text::trimmed(label)),
{
}

/// The texts of matches.
pub open spec fn matched(ms: Seq<(nat, Seq<char>)>) -> Seq<Seq<char>> {
    Seq::new(ms.len(), |i: int| ms[i].1)
}

/// What an item of a mixed list gives; nothing where it is not a text.
pub open spec fn mixed_in(v: JsonV) -> MixedV {
    match v {
        JsonV::Text(s) => mixed_item(
            s,
            matched(pattern::all_matches(pattern::MARKER@, s)),
            pattern::pieces(pattern::MARKER@, s),
        ),
        _ => MixedV::Nothing,
    }
}

/// Entities as they were written, and relationships between them.
pub struct FindingsV {
    pub entities: InfosV,
    pub relationships: Seq<RelTupleV>,
}

/// The items of a mixed list are taken in one after the other: a relationship goes behind
/// those before it, an entity under its id, and each leaves the rest as it is.
pub proof fn law_mixed_items_are_taken_in_order(
    f: FindingsV,
    items: Seq<JsonV>,
    v: JsonV,
    k: Seq<char>,
)
    ensures
        ({
            let before = with_mixed(f, items);
            let after = with_mixed(f, items.push(v));
            match mixed_in(v) {
                MixedV::Entity(id, label) => {
                    &&& after.relationships == before.relationships
                    &&& table::has_key(after.entities, id)
                    &&& table::lookup(after.entities, id)->0.label == label
                    &&& k != id ==> table::lookup(after.entities, k) == table::lookup(
                        before.entities,
                        k,
                    )
                },
                MixedV::Relationship(r) => {
                    &&& after.entities == before.entities
                    &&& after.relationships.len() == before.relationships.len() + 1
                    &&& after.relationships.drop_last() == before.relationships
                    &&& after.relationships.last() == r
                },
                MixedV::Nothing => after == before,
            }
        }),
{
    let before = with_mixed(f, items);
    assert(items.push(v).drop_last() =~= items);
    match mixed_in(v) {
        MixedV::Entity(id, label) => {
            table::lemma_lookup_put(before.entities, id, label_only(label), id);
            table::lemma_lookup_put(before.entities, id, label_only(label), k);
        },
        MixedV::Relationship(r) => {
            assert(before.relationships.push(r).drop_last() =~= before.relationships);
        },
        MixedV::Nothing => {},
    }
}

/// `f` with what the items of a mixed list give.
pub open spec fn with_mixed(f: FindingsV, items: Seq<JsonV>) -> FindingsV
    decreases items.len(),
{
    if items.len() == 0 {
        f
    } else {
        let g = with_mixed(f, items.drop_last());
        match mixed_in(items.last()) {
            MixedV::Entity(id, label) => FindingsV {
                entities: table::put(g.entities, id, label_only(label)),
                ..g
            },
            MixedV::Relationship(r) => FindingsV {
                relationships: g.relationships.push(r),
                ..g
            },
            MixedV::Nothing => g,
        }
    }
}

/// The entities and relationships of `j`. Where it gives no entities, they are taken
/// from the mixed list under `entities_and_triples`.
pub open spec fn findings(j: JsonV) -> FindingsV {
    let f = FindingsV { entities: infos_in(j), relationships: relationships_in(j) };
    match json::array_in(json::field(j, "entities_and_triples"@)) {
        Some(items) => if f.entities.len() == 0 {
            with_mixed(f, items)
        } else {
            f
        },
        None => f,
    }
}

/// A text member, or another text where there is none.
fn text_member(v: Option<&Json>, other: &str) -> (r: String)
    ensures
        r@ == text_or(
            json::text_in(
                match v {
                    Some(x) => Some(x@),
                    None => None,
                },
            ),
            other@,
        ),
{
    match v {
        Some(Json::Text(s)) => s.clone(),
        _ => other.to_owned(),
    }
}

/// What the object `v` says of an entity with the given label.
fn read_info(label: String, v: &Json) -> (r: EntityInfo)
    ensures
        r@ == info_in(label@, v@),
{
    let attributes = match v.object_at("attributes") {
        Some(m) => chunking::metadata_of(m),
        None => Table::new(),
    };
    let r = EntityInfo {
        label,
        kind: v.text_at("type"),
        description: v.text_at("description"),
        attributes,
    };
    assert(r@.attributes =~= attributes_in(v@));
    r
}

/// The entities of an object that gives them by id.
fn read_named(o: &Vec<(String, Json)>) -> (r: Table<EntityInfo>)
    ensures
        r@ == named_infos(json::members(o@)),
{
    let mut out: Table<EntityInfo> = Table::new();
    let ghost all = json::members(o@);
    assert(all.take(0) =~= seq![]);
    assert(out@ =~= named_infos(all.take(0)));
    let mut i: usize = 0;
    while i < o.len()
        invariant
            i <= o@.len(),
            all == json::members(o@),
            out@ == named_infos(all.take(i as int)),
        decreases o.len() - i,
    {
        assert(all.take(i + 1).drop_last() =~= all.take(i as int));
        let id = &o[i].0;
        let v = &o[i].1;
        let info = match v {
            Json::Object(_) => {
                let label = text_member(v.get("label"), id.as_str());
                read_info(label, v)
            },
            _ => EntityInfo {
                label: json::value_to_string(v),
                kind: None,
                description: None,
                attributes: Table::new(),
            },
        };
        assert(info@.attributes =~= named_info(id@, v@).attributes);
        out.insert(id.clone(), info);
        i += 1;
    }
    assert(all.take(i as int) =~= all);
    out
}

/// The entities of a list.
fn read_listed(a: &Vec<Json>) -> (r: Table<EntityInfo>)
    ensures
        r@ == listed_infos(seqs::views(a@)),
{
    let mut out: Table<EntityInfo> = Table::new();
    let ghost all = seqs::views(a@);
    assert(all.take(0) =~= seq![]);
    assert(out@ =~= listed_infos(all.take(0)));
    let mut i: usize = 0;
    while i < a.len()
        invariant
            i <= a@.len(),
            all == seqs::views(a@),
            out@ == listed_infos(all.take(i as int)),
        decreases a.len() - i,
    {
        assert(all.take(i + 1).drop_last() =~= all.take(i as int));
        let v = &a[i];
        if let Json::Object(_) = v {
            let id = match v.get("id") {
                Some(Json::Text(s)) => s.clone(),
                _ => text::concat2("entity_", text::to_decimal(out.len() as u64).as_str()),
            };
            assert(id@ == listed_id(v@, out@.len()));
            let label = match v.get("label") {
                Some(l) => text_member(Some(l), id.as_str()),
                None => text_member(v.get("name"), id.as_str()),
            };
            let info = read_info(label, v);
            out.insert(id, info);
        }
        i += 1;
    }
    assert(all.take(i as int) =~= all);
    out
}

/// The relationship that `v` gives.
pub fn read_relationship(v: &Json) -> (r: Option<RelTuple>)
    ensures
        match r {
            Some(t) => relationship_in(v@) == Some(crate::types::response::rel_view(t)),
            None => relationship_in(v@) is None,
        },
{
    if let Json::Array(a) = v {
        if a.len() >= 3 {
            assert(seqs::views(a@)[0] == a@[0]@);
            assert(seqs::views(a@)[1] == a@[1]@);
            assert(seqs::views(a@)[2] == a@[2]@);
            return Some(
                (
                    json::value_to_string(&a[0]),
                    json::value_to_string(&a[1]),
                    json::value_to_string(&a[2]),
                ),
            );
        }
        return None;
    }
    let source = match v.get("source") {
        Some(s) => Some(s),
        None => v.get("subject"),
    };
    let target = match v.get("target") {
        Some(s) => Some(s),
        None => v.get("object"),
    };
    let predicate = match v.get("predicate") {
        Some(s) => Some(s),
        None => v.get("relation"),
    };
    match (source, target, predicate) {
        (Some(s), Some(t), Some(p)) => Some(
            (json::value_to_string(s), json::value_to_string(p), json::value_to_string(t)),
        ),
        _ => None,
    }
}

/// What an item of a mixed list gives.
pub enum Mixed {
    Entity(String, String),
    Relationship(RelTuple),
    Nothing,
}

impl View for Mixed {
    type V = MixedV;

    open spec fn view(&self) -> MixedV {
        match *self {
            Mixed::Entity(id, label) => MixedV::Entity(id@, label@),
            Mixed::Relationship(r) => MixedV::Relationship(crate::types::response::rel_view(r)),
            Mixed::Nothing => MixedV::Nothing,
        }
    }
}

/// What the item `s` of a mixed list gives, where `markers` are the numbers in
/// square brackets in it and `between` the pieces round them.
pub fn read_mixed_item(s: &str, markers: &Vec<String>, between: &Vec<String>) -> (r: Mixed)
    ensures
        r@ == mixed_item(s@, seqs::views(markers@), seqs::views(between@)),
{
    if markers.len() == 1 {
        match text::split_once(s, ", ") {
            Some(p) => Mixed::Entity(text::trim(p.0.as_str()), text::trim(p.1.as_str())),
            None => Mixed::Nothing,
        }
    } else if markers.len() == 2 {
        let texts = text::drop_blank(between);
        if texts.len() == 1 {
            assert(seqs::views(texts@)[0] == texts@[0]@);
            assert(seqs::views(markers@)[0] == markers@[0]@);
            assert(seqs::views(markers@)[1] == markers@[1]@);
            Mixed::Relationship((markers[0].clone(), texts[0].clone(), markers[1].clone()))
        } else {
            Mixed::Nothing
        }
    } else {
        Mixed::Nothing
    }
}

/// What an item of a mixed list gives; nothing where it is not a text.
fn read_mixed(v: &Json) -> (r: Mixed)
    ensures
        r@ == mixed_in(v@),
{
    match v {
        Json::Text(s) => {
            let ms = pattern::find_matches(pattern::MARKER, s.as_str());
            let ghost all = matched(pattern::all_matches(pattern::MARKER@, s@));
            let mut markers: Vec<String> = Vec::new();
            let mut i: usize = 0;
            while i < ms.len()
                invariant
                    i <= ms@.len(),
                    ms@.len() == all.len(),
                    forall|j: int| 0 <= j < ms@.len() ==> (#[trigger] ms@[j]).1@ == all[j],
                    seqs::views(markers@) == all.take(i as int),
                decreases ms.len() - i,
            {
                let m = ms[i].1.clone();
                markers.push(m);
                i += 1;
                assert(seqs::views(markers@) =~= all.take(i as int));
            }
            assert(all.take(i as int) =~= all);
            read_mixed_item(
                s.as_str(),
                &markers,
                &pattern::split_at_matches(pattern::MARKER, s.as_str()),
            )
        },
        _ => Mixed::Nothing,
    }
}

/// The entities and relationships of `json_data`: see [`findings`].
pub fn parse_entities_and_triples(json_data: &Json) -> (r: (Table<EntityInfo>, Vec<RelTuple>))
    ensures
        r.0@ == findings(json_data@).entities,
        crate::types::response::rel_views(r.1@) == findings(json_data@).relationships,
{
    let mut entities: Table<EntityInfo> = match json_data.get("entities") {
        Some(Json::Object(o)) => read_named(o),
        Some(Json::Array(a)) => read_listed(a),
        _ => Table::new(),
    };
    assert(entities@ =~= infos_in(json_data@));
    let mut relationships: Vec<RelTuple> = Vec::new();
    assert(crate::types::response::rel_views(relationships@) =~= seq![]);
    if let Some(a) = json_data.array_at("relationships") {
        let ghost all = seqs::views(a@);
        let mut i: usize = 0;
        assert(all.take(0) =~= seq![]);
        while i < a.len()
            invariant
                i <= a@.len(),
                all == seqs::views(a@),
                crate::types::response::rel_views(relationships@) == relationships_of(
                    all.take(i as int),
                ),
            decreases a.len() - i,
        {
            assert(all.take(i + 1).drop_last() =~= all.take(i as int));
            let ghost before = crate::types::response::rel_views(relationships@);
            if let Some(t) = read_relationship(&a[i]) {
                relationships.push(t);
                assert(crate::types::response::rel_views(relationships@) =~= before.push(
                    crate::types::response::rel_view(t),
                ));
            }
            i += 1;
        }
        assert(all.take(i as int) =~= all);
    }
    assert(crate::types::response::rel_views(relationships@) == relationships_in(json_data@));
    if entities.is_empty() {
        if let Some(items) = json_data.array_at("entities_and_triples") {
            let ghost all = seqs::views(items@);
            let ghost f = FindingsV {
                entities: infos_in(json_data@),
                relationships: relationships_in(json_data@),
            };
            let mut i: usize = 0;
            assert(all.take(0) =~= seq![]);
            while i < items.len()
                invariant
                    i <= items@.len(),
                    all == seqs::views(items@),
                    entities@ == with_mixed(f, all.take(i as int)).entities,
                    crate::types::response::rel_views(relationships@) == with_mixed(
                        f,
                        all.take(i as int),
                    ).relationships,
                decreases items.len() - i,
            {
                assert(all.take(i + 1).drop_last() =~= all.take(i as int));
                let ghost before = crate::types::response::rel_views(relationships@);
                match read_mixed(&items[i]) {
                    Mixed::Entity(id, label) => {
                        let info = EntityInfo {
                            label,
                            kind: None,
                            description: None,
                            attributes: Table::new(),
                        };
                        assert(info@.attributes =~= seq![]);
                        entities.insert(id, info);
                    },
                    Mixed::Relationship(t) => {
                        relationships.push(t);
                        assert(crate::types::response::rel_views(relationships@) =~= before.push(
                            crate::types::response::rel_view(t),
                        ));
                    },
                    Mixed::Nothing => {},
                }
                i += 1;
            }
            assert(all.take(i as int) =~= all);
        }
    }
    (entities, relationships)
}

/// A word for a person makes a person, a word for a company a company unless there is one
/// for a person, and so on; a label with none of the words names a thing.
pub proof fn law_words_make_the_type(l: Seq<char>)
    ensures
        guessed_type(l) == EntityType::Person <==> text::contains(l, "person"@) || text::contains(
            l,
            "people"@,
        ) || text::contains(l, "human"@),
        guessed_type(l) == EntityType::Company ==> text::contains(l, "company"@)
            || text::contains(l, "corporation"@) || text::contains(l, "inc"@) || text::contains(
            l,
            "ltd"@,
        ),
        guessed_type(l) == EntityType::Organization ==> text::contains(l, "organization"@)
            || text::contains(l, "institute"@) || text::contains(l, "agency"@),
        guessed_type(l) == EntityType::City ==> text::contains(l, "city"@) || text::contains(
            l,
            "town"@,
        ) || text::contains(l, "village"@),
        guessed_type(l) == EntityType::Country ==> text::contains(l, "country"@)
            || text::contains(l, "nation"@) || text::contains(l, "state"@),
        guessed_type(l) == EntityType::Technology ==> text::contains(l, "technology"@)
            || text::contains(l, "software"@) || text::contains(l, "system"@),
        guessed_type(l) == EntityType::PhysicalObject ==> !text::contains(l, "company"@)
            && !text::contains(l, "organization"@) && !text::contains(l, "city"@)
            && !text::contains(l, "country"@) && !text::contains(l, "software"@),
{
}

/// The type of an entity with the label `l`, in lower case, guessed by the words in
/// it.
pub open spec fn guessed_type(l: Seq<char>) -> EntityType {
    if text::contains(l, "person"@) || text::contains(l, "people"@) || text::contains(l, "human"@) {
        EntityType::Person
    } else if text::contains(l, "company"@) || text::contains(l, "corporation"@) || text::contains(
        l,
        "inc"@,
    ) || text::contains(l, "ltd"@) {
        EntityType::Company
    } else if text::contains(l, "organization"@) || text::contains(l, "institute"@)
        || text::contains(l, "agency"@) {
        EntityType::Organization
    } else if text::contains(l, "city"@) || text::contains(l, "town"@) || text::contains(
        l,
        "village"@,
    ) {
        EntityType::City
    } else if text::contains(l, "country"@) || text::contains(l, "nation"@) || text::contains(
        l,
        "state"@,
    ) {
        EntityType::Country
    } else if text::contains(l, "technology"@) || text::contains(l, "software"@) || text::contains(
        l,
        "system"@,
    ) {
        EntityType::Technology
    } else {
        EntityType::PhysicalObject
    }
}

/// The type of an entity with the label `l`, in lower case, guessed by the words in
/// it.
pub fn heuristic_type(l: &str) -> (r: EntityType)
    ensures
        r == guessed_type(l@),
{
    if text::has(l, "person") || text::has(l, "people") || text::has(l, "human") {
        EntityType::Person
    } else if text::has(l, "company") || text::has(l, "corporation") || text::has(l, "inc")
        || text::has(l, "ltd") {
        EntityType::Company
    } else if text::has(l, "organization") || text::has(l, "institute") || text::has(l, "agency") {
        EntityType::Organization
    } else if text::has(l, "city") || text::has(l, "town") || text::has(l, "village") {
        EntityType::City
    } else if text::has(l, "country") || text::has(l, "nation") || text::has(l, "state") {
        EntityType::Country
    } else if text::has(l, "technology") || text::has(l, "software") || text::has(l, "system") {
        EntityType::Technology
    } else {
        EntityType::PhysicalObject
    }
}

/// The entity `id` of which `info` was written: its type as given, or else guessed.
pub open spec fn settled(id: Seq<char>, info: EntityInfoV) -> EntityV {
    let label = if info.label.len() == 0 {
        id
    } else {
        info.label
    };
    let t = match info.kind {
        Some(k) => crate::types::vocab::entity_type_loosely(k),
        None => guessed_type(text::lower(label)),
    };
    EntityV {
        description: info.description,
        metadata: info.attributes,
        ..crate::types::graph::plain_entity(id, label, t)
    }
}

/// The entities of which `s` was written, under their ids.
pub open spec fn all_settled(s: InfosV) -> Seq<(Seq<char>, EntityV)> {
    Seq::new(s.len(), |i: int| (s[i].0, settled(s[i].0, s[i].1)))
}

/// An entity that an object describes under its id has what the object says: its label
/// under `label`, or else its id, its type under `type`, its description under
/// `description` and its attributes under `attributes`.
pub proof fn law_described_entities_are_read(
    id: Seq<char>,
    o: Seq<(Seq<char>, JsonV)>,
    m: Seq<(Seq<char>, JsonV)>,
)
    requires
        table::lookup(o, "attributes"@) == Some(JsonV::Object(m)),
        table::distinct_keys(m),
    ensures
        ({
            let e = settled(id, named_info(id, JsonV::Object(o)));
            let label = json::text_in(table::lookup(o, "label"@));
            let kind = json::text_in(table::lookup(o, "type"@));
            &&& e.id == id
            &&& label is None ==> e.label == id
            &&& label is Some && label->0.len() > 0 ==> e.label == label->0
            &&& label is Some && label->0.len() == 0 ==> e.label == id
            &&& e.description == json::text_in(table::lookup(o, "description"@))
            &&& kind is Some ==> e.entity_type == crate::types::vocab::entity_type_loosely(
                kind->0,
            )
            &&& e.metadata == m
        }),
{
    table::lemma_put_all_distinct(m);
}

/// Settle the types of entities, and put each under its id.
pub fn create_entities_from_parsed(entities: &Table<EntityInfo>) -> (r: Table<Entity>)
    ensures
        r@ == all_settled(entities@),
{
    let mut out: Table<Entity> = Table::new();
    let n: usize = entities.len();
    let mut i: usize = 0;
    while i < n
        invariant
            i <= n,
            n == entities@.len(),
            table::distinct_keys(entities@),
            out@ =~= all_settled(entities@).take(i as int),
        decreases n - i,
    {
        let id = entities.key_at(i);
        let info = entities.value_at(i);
        let label = if info.label.as_str().is_empty() {
            id.clone()
        } else {
            info.label.clone()
        };
        let t = match &info.kind {
            Some(k) => EntityType::from_loose(k.as_str()),
            None => heuristic_type(text::to_lower(label.as_str()).as_str()),
        };
        let mut e = Entity::new(id.as_str(), label.as_str(), t);
        e.description = crate::types::graph::dup_option(&info.description);
        e.metadata = info.attributes.dup();
        assert(e@ == settled(entities@[i as int].0, entities@[i as int].1));
        proof {
            table::lemma_position(out@, id@);
            if table::has_key(out@, id@) {
                let j = table::position(out@, id@)->0;
                assert(out@[j].0 == entities@[j].0);
                assert(entities@[j].0 != entities@[i as int].0);
            }
        }
        out.insert(id.clone(), e);
        i += 1;
    }
    out
}

/// The relationships `rels` between entities of `es`; one with an end that is none
/// of them is passed over.
pub open spec fn tied(
    rels: Seq<RelTupleV>,
    es: Seq<(Seq<char>, EntityV)>,
) -> Seq<TripleV>
    decreases rels.len(),
{
    if rels.len() == 0 {
        seq![]
    } else {
        let found = tied(rels.drop_last(), es);
        let r = rels.last();
        match (table::lookup(es, r.0), table::lookup(es, r.2)) {
            (Some(s), Some(o)) => found.push(
                crate::types::graph::plain_triple(
                    s,
                    crate::types::graph::labelled_predicate(
                        crate::types::vocab::predicate_type_loosely(r.1),
                        r.1,
                    ),
                    o,
                ),
            ),
            _ => found,
        }
    }
}

/// A relationship that is written as an object is the one that is written as a list of
/// source, predicate and target.
pub proof fn law_objects_read_as_lists(
    o: Seq<(Seq<char>, JsonV)>,
    s: JsonV,
    p: JsonV,
    t: JsonV,
)
    requires
        table::lookup(o, "source"@) == Some(s) || !table::has_key(o, "source"@) && table::lookup(
            o,
            "subject"@,
        ) == Some(s),
        table::lookup(o, "target"@) == Some(t) || !table::has_key(o, "target"@) && table::lookup(
            o,
            "object"@,
        ) == Some(t),
        table::lookup(o, "predicate"@) == Some(p) || !table::has_key(o, "predicate"@)
            && table::lookup(o, "relation"@) == Some(p),
    ensures
        relationship_in(JsonV::Object(o)) == relationship_in(JsonV::Array(seq![s, p, t])),
        relationship_in(JsonV::Object(o)) == Some(
            (json::as_plain_text(s), json::as_plain_text(p), json::as_plain_text(t)),
        ),
{
}

/// A relationship that names two of the entities is tied to them, behind those before it:
/// from the entity that it names first to the one that it names last. One that names
/// another end is passed over.
pub proof fn law_ties_run_from_first_to_last(
    rels: Seq<RelTupleV>,
    source: Seq<char>,
    predicate: Seq<char>,
    target: Seq<char>,
    es: Seq<(Seq<char>, EntityV)>,
)
    ensures
        ({
            let before = tied(rels, es);
            let after = tied(rels.push((source, predicate, target)), es);
            if table::has_key(es, source) && table::has_key(es, target) {
                &&& after.len() == before.len() + 1
                &&& after.drop_last() == before
                &&& Some(after.last().subject) == table::lookup(es, source)
                &&& Some(after.last().object) == table::lookup(es, target)
                &&& after.last().predicate.label == Some(predicate)
                &&& after.last().predicate.predicate_type
                    == crate::types::vocab::predicate_type_loosely(predicate)
            } else {
                after == before
            }
        }),
{
    let all = rels.push((source, predicate, target));
    assert(all.drop_last() =~= rels);
    if table::has_key(es, source) && table::has_key(es, target) {
        assert(tied(all, es).drop_last() =~= tied(rels, es));
    }
}

/// Tie relationships to the entities that are their ends.
pub fn create_triples_from_parsed(relationships: &Vec<RelTuple>, entities: &Table<Entity>) -> (r:
    Vec<Triple>)
    ensures
        seqs::views(r@) == tied(
            crate::types::response::rel_views(relationships@),
            entities@,
        ),
{
    let ghost all = crate::types::response::rel_views(relationships@);
    let mut out: Vec<Triple> = Vec::new();
    let mut i: usize = 0;
    while i < relationships.len()
        invariant
            i <= relationships@.len(),
            all == crate::types::response::rel_views(relationships@),
            seqs::views(out@) == tied(all.take(i as int), entities@),
        decreases relationships.len() - i,
    {
        assert(all.take(i + 1).drop_last() =~= all.take(i as int));
        let rel = &relationships[i];
        assert(all.take(i + 1).last() == crate::types::response::rel_view(*rel));
        match (entities.get(rel.0.as_str()), entities.get(rel.2.as_str())) {
            (Some(s), Some(o)) => {
                let p = Predicate::with_label(
                    PredicateType::from_loose(rel.1.as_str()),
                    rel.1.as_str(),
                );
                out.push(Triple::new(s.dup(), p, o.dup()));
            },
            _ => {},
        }
        i += 1;
    }
    assert(all.take(i as int) =~= all);
    out
}

/// The texts among the values `a`.
pub open spec fn texts_among(a: Seq<JsonV>) -> Seq<Seq<char>>
    decreases a.len(),
{
    if a.len() == 0 {
        seq![]
    } else {
        match a.last() {
            JsonV::Text(s) => texts_among(a.drop_last()).push(s),
            _ => texts_among(a.drop_last()),
        }
    }
}

/// The texts among the values `a`.
pub fn pick_texts(a: &Vec<Json>) -> (r: Vec<String>)
    ensures
        seqs::views(r@) == texts_among(seqs::views(a@)),
{
    let ghost all = seqs::views(a@);
    let mut out: Vec<String> = Vec::new();
    let mut i: usize = 0;
    while i < a.len()
        invariant
            i <= a@.len(),
            all == seqs::views(a@),
            seqs::views(out@) == texts_among(all.take(i as int)),
        decreases a.len() - i,
    {
        assert(all.take(i + 1).drop_last() =~= all.take(i as int));
        assert(all.take(i + 1).last() == a@[i as int]@);
        if let Json::Text(s) = &a[i] {
            out.push(s.clone());
        }
        i += 1;
    }
    assert(all.take(i as int) =~= all);
    out
}

/// What was written of an entity, as an object.
pub open spec fn info_value(info: EntityInfoV) -> JsonV {
    let label = seq![("label"@, JsonV::Text(info.label))];
    let kind = match info.kind {
        Some(k) => label.push(("type"@, JsonV::Text(k))),
        None => label,
    };
    let description = match info.description {
        Some(d) => kind.push(("description"@, JsonV::Text(d))),
        None => kind,
    };
    JsonV::Object(description.push(("attributes"@, JsonV::Object(info.attributes))))
}

/// What was written of entities, as an object by id.
pub open spec fn infos_value(s: InfosV) -> JsonV {
    JsonV::Object(Seq::new(s.len(), |i: int| (s[i].0, info_value(s[i].1))))
}

impl EntityInfo {
    /// What was written of the entity, as an object.
    pub fn to_value(&self) -> (r: Json)
        ensures
            r@ == info_value(self@),
    {
        let mut b = ObjectBuilder::new();
        b.add("label", Json::Text(self.label.clone()));
        if let Some(k) = &self.kind {
            b.add("type", Json::Text(k.clone()));
        }
        if let Some(d) = &self.description {
            b.add("description", Json::Text(d.clone()));
        }
        b.add("attributes", citation::metadata_object(&self.attributes));
        assert(b@ =~= info_value(self@)->Object_0);
        b.done()
    }
}

/// What was written of entities, as an object by id.
fn infos_object(s: &Table<EntityInfo>) -> (r: Json)
    ensures
        r@ == infos_value(s@),
{
    let mut b = ObjectBuilder::new();
    let n: usize = s.len();
    let mut i: usize = 0;
    while i < n
        invariant
            i <= n,
            n == s@.len(),
            b@ =~= infos_value(s@)->Object_0.take(i as int),
        decreases n - i,
    {
        b.add(s.key_at(i).as_str(), s.value_at(i).to_value());
        i += 1;
    }
    assert(b@ =~= infos_value(s@)->Object_0);
    b.done()
}

/// What is kept of an answer is the answer itself and, where a value was found in it, that
/// value.
pub proof fn law_answers_are_kept(t: Seq<char>, j: JsonV)
    ensures
        result_of(t, Some(j)).raw_response == t,
        result_of(t, None).raw_response == t,
        table::lookup(result_of(t, Some(j)).metadata, "raw_json"@) == Some(j),
        result_of(t, None).entities.len() == 0,
        result_of(t, None).relationships.len() == 0,
{
    table::lemma_position_at(result_of(t, Some(j)).metadata, "raw_json"@, 0);
}

/// What is read out of the response `text` with the JSON value `j` in it.
pub open spec fn result_of(text: Seq<char>, j: Option<JsonV>) -> ParsedResultV {
    match j {
        None => ParsedResultV {
            raw_response: text,
            entities_and_triples: seq![],
            entities: seq![],
            relationships: seq![],
            triples: seq![],
            metadata: seq![("parse_error"@, JsonV::Text("No JSON found in response"@))],
        },
        Some(v) => ParsedResultV {
            raw_response: text,
            entities_and_triples: match json::array_in(json::field(v, "entities_and_triples"@)) {
                Some(a) => texts_among(a),
                None => seq![],
            },
            entities: all_settled(findings(v).entities),
            relationships: findings(v).relationships,
            triples: seq![],
            metadata: seq![
                ("raw_json"@, v),
                ("entities_info"@, infos_value(findings(v).entities)),
            ],
        },
    }
}

/// Read entities and relationships out of a response with the JSON value `j` in it.
pub fn read_result(text: &str, j: Option<Json>) -> (r: ParsedResult)
    ensures
        r@ == result_of(text@, seqs::opt_view(j)),
{
    let mut metadata: Metadata = Table::new();
    match j {
        None => {
            metadata.insert(
                "parse_error".to_owned(),
                Json::Text("No JSON found in response".to_owned()),
            );
            let r = ParsedResult {
                raw_response: text.to_owned(),
                entities_and_triples: Vec::new(),
                entities: Table::new(),
                relationships: Vec::new(),
                triples: Vec::new(),
                metadata,
            };
            proof {
                let w = result_of(text@, None);
                assert(r@.entities_and_triples =~= w.entities_and_triples);
                assert(r@.entities =~= w.entities);
                assert(r@.relationships =~= w.relationships);
                assert(r@.triples =~= w.triples);
                assert(r@.metadata =~= w.metadata);
            }
            r
        },
        Some(v) => {
            let (infos, relationships) = parse_entities_and_triples(&v);
            let entities_and_triples = match v.array_at("entities_and_triples") {
                Some(a) => pick_texts(a),
                None => Vec::new(),
            };
            let entities = create_entities_from_parsed(&infos);
            proof {
                reveal_strlit("raw_json");
                reveal_strlit("entities_info");
            }
            let mut values: Metadata = Table::new();
            let ghost value = v@;
            values.insert("raw_json".to_owned(), v);
            values.insert("entities_info".to_owned(), infos_object(&infos));
            let r = ParsedResult {
                raw_response: text.to_owned(),
                entities_and_triples,
                entities,
                relationships,
                triples: Vec::new(),
                metadata: values,
            };
            proof {
                let w = result_of(text@, Some(value));
                assert("raw_json"@.len() != "entities_info"@.len());
                table::lemma_position(seq![("raw_json"@, value)], "entities_info"@);
                assert(r@.entities_and_triples =~= w.entities_and_triples);
                assert(r@.triples =~= w.triples);
                assert(r@.metadata =~= w.metadata);
            }
            r
        },
    }
}

/// Read entities and relationships out of a response: see [`read_result`].
pub fn parse_llm_response(response_text: &str) -> (r: ParsedResult)
    ensures
        r@ == result_of(response_text@, json::json_in_response(response_text@)),
{
    read_result(response_text, extract_json_from_response(response_text))
}

} // verus!
