//! What a schema makes of the records of an answer: it binds them, it is a seed that
//! new types are told from, or it does not matter.

use vstd::prelude::*;

use crate::names::NameSet;
use crate::table::{Dup, Table};
use crate::types::graph::{Entity, EntityV, Triple, TripleV};
use crate::types::spec::{norm_type, Schema, SchemaMode, SchemaV};
use crate::{names, number, seqs, table, text};

verus! {

broadcast use crate::seqs::group_views;

/// What a [`SliceFilter`] stands for.
#[verifier::ext_equal]
pub struct SliceV {
    pub kept_entities: Seq<(Seq<char>, EntityV)>,
    pub kept_triples: Seq<TripleV>,
    pub dropped_types: Seq<Seq<char>>,
    pub dropped_records: u64,
}

/// What is kept of an answer, and what was left out.
pub struct SliceFilter {
    pub kept_entities: Table<Entity>,
    pub kept_triples: Vec<Triple>,
    pub dropped_types: NameSet,
    pub dropped_records: u64,
}

impl View for SliceFilter {
    type V = SliceV;

    open spec fn view(&self) -> SliceV {
        SliceV {
            kept_entities: self.kept_entities@,
            kept_triples: seqs::views(self.kept_triples@),
            dropped_types: self.dropped_types@,
            dropped_records: self.dropped_records,
        }
    }
}

/// Something was left out and nothing was kept.
pub open spec fn nothing_kept(s: SliceV) -> bool {
    s.dropped_records > 0 && s.kept_entities.len() == 0 && s.kept_triples.len() == 0
}

impl SliceFilter {
    /// Whether something was left out and nothing was kept.
    pub fn all_dropped(&self) -> (r: bool)
        ensures
            r == nothing_kept(self@),
    {
        assert(self@.kept_triples.len() == self.kept_triples@.len());
        self.dropped_records > 0 && self.kept_entities.is_empty() && self.kept_triples.len() == 0
    }
}

/// What a [`SchemaFilter`] stands for.
pub struct FilterV {
    pub nodes: Seq<Seq<char>>,
    pub relations: Seq<Seq<char>>,
}

/// The types that a schema names, as names of types are compared. Where it names none
/// of a kind, all of that kind are allowed.
pub struct SchemaFilter {
    pub nodes: NameSet,
    pub relations: NameSet,
}

impl View for SchemaFilter {
    type V = FilterV;

    open spec fn view(&self) -> FilterV {
        FilterV { nodes: self.nodes@, relations: self.relations@ }
    }
}

/// The types `s` as names of types are compared.
pub open spec fn canonical_set(s: Seq<Seq<char>>) -> Seq<Seq<char>>
    decreases s.len(),
{
    if s.len() == 0 {
        seq![]
    } else {
        names::with_name(
            canonical_set(s.drop_last()),
            crate::types::spec::canonical_type(s.last()),
        )
    }
}

/// The types that a schema names; nothing where it names none.
pub open spec fn seed(s: SchemaV) -> Option<FilterV> {
    if s.nodes.len() == 0 && s.relations.len() == 0 {
        None
    } else {
        Some(FilterV { nodes: canonical_set(s.nodes), relations: canonical_set(s.relations) })
    }
}

/// Entities of the type `t` are allowed.
pub open spec fn node_allowed(f: FilterV, t: Seq<char>) -> bool {
    f.nodes.len() == 0 || f.nodes.contains(t)
}

/// Relationships of the type `t` are allowed.
pub open spec fn relation_allowed(f: FilterV, t: Seq<char>) -> bool {
    f.relations.len() == 0 || f.relations.contains(t)
}

/// The type of an entity is the one that was read for its label, in any case and with white
/// space round it; where none was read, it is the one that the entity has.
pub proof fn law_types_are_those_that_were_read(
    e: EntityV,
    tokens: Seq<(Seq<char>, Seq<char>)>,
    t: Seq<char>,
)
    ensures
        table::lookup(tokens, text::lower(text::trimmed(e.label))) == Some(t) ==> node_type(
            e,
            tokens,
        ) == crate::types::spec::canonical_type(t),
        node_type(e, seq![]) == crate::types::spec::canonical_type(
            crate::types::vocab::entity_type_name(e.entity_type),
        ),
{
    table::lemma_position(Seq::<(Seq<char>, Seq<char>)>::empty(), text::lower(text::trimmed(e.label)));
}

/// The type of an entity as names of types are compared: as the answer wrote it, where
/// that is known.
pub open spec fn node_type(e: EntityV, tokens: Seq<(Seq<char>, Seq<char>)>) -> Seq<char> {
    crate::types::spec::canonical_type(
        match table::lookup(tokens, text::lower(text::trimmed(e.label))) {
            Some(t) => t,
            None => crate::types::vocab::entity_type_name(e.entity_type),
        },
    )
}

/// The types of entities as names of types are compared.
pub open spec fn node_types(
    es: Seq<(Seq<char>, EntityV)>,
    tokens: Seq<(Seq<char>, Seq<char>)>,
) -> Seq<Seq<char>> {
    Seq::new(es.len(), |i: int| node_type(es[i].1, tokens))
}

/// The type of a relationship as names of types are compared.
pub open spec fn relation_type(t: TripleV) -> Seq<char> {
    crate::types::spec::canonical_type(crate::types::graph::predicate_display_label(t.predicate))
}

/// The types of relationships as names of types are compared.
pub open spec fn relation_types(ts: Seq<TripleV>) -> Seq<Seq<char>> {
    Seq::new(ts.len(), |i: int| relation_type(ts[i]))
}

/// What is kept of the first `n` entities, where `types` are their types: those whose
/// type is allowed.
pub open spec fn entities_filtered(
    f: FilterV,
    es: Seq<(Seq<char>, EntityV)>,
    types: Seq<Seq<char>>,
    n: nat,
) -> SliceV
    decreases n,
{
    if n == 0 {
        SliceV {
            kept_entities: seq![],
            kept_triples: seq![],
            dropped_types: seq![],
            dropped_records: 0,
        }
    } else {
        let st = entities_filtered(f, es, types, (n - 1) as nat);
        if node_allowed(f, types[n - 1]) {
            SliceV { kept_entities: table::put(st.kept_entities, es[n - 1].0, es[n - 1].1), ..st }
        } else {
            SliceV {
                dropped_types: names::with_name(st.dropped_types, types[n - 1]),
                dropped_records: number::tallied(st.dropped_records),
                ..st
            }
        }
    }
}

/// Both ends of the relationship are among the entities.
pub open spec fn ends_kept(es: Seq<(Seq<char>, EntityV)>, t: TripleV) -> bool {
    table::has_key(es, t.subject.id) && table::has_key(es, t.object.id)
}

/// Of a relationship that is kept both ends are kept, and it is one of those that were read.
pub proof fn law_kept_relationships_have_both_ends(
    f: FilterV,
    st: SliceV,
    ts: Seq<TripleV>,
    types: Seq<Seq<char>>,
    n: nat,
    i: int,
)
    requires
        st.kept_triples.len() == 0,
        n <= ts.len(),
    ensures
        ({
            let r = triples_filtered(f, st, ts, types, n);
            &&& r.kept_entities == st.kept_entities
            &&& r.kept_triples.len() <= n
            &&& 0 <= i < r.kept_triples.len() ==> {
                let t = r.kept_triples[i];
                &&& ts.contains(t)
                &&& table::has_key(r.kept_entities, t.subject.id)
                &&& table::has_key(r.kept_entities, t.object.id)
            }
        }),
    decreases n,
{
    if n > 0 {
        law_kept_relationships_have_both_ends(f, st, ts, types, (n - 1) as nat, i);
        assert(ts.contains(ts[n - 1]));
    }
}

/// What is kept of the first `n` relationships, where `types` are their types: those
/// whose type is allowed and whose ends were kept.
pub open spec fn triples_filtered(
    f: FilterV,
    st: SliceV,
    ts: Seq<TripleV>,
    types: Seq<Seq<char>>,
    n: nat,
) -> SliceV
    decreases n,
{
    if n == 0 {
        st
    } else {
        let before = triples_filtered(f, st, ts, types, (n - 1) as nat);
        let allowed = relation_allowed(f, types[n - 1]);
        if allowed && ends_kept(st.kept_entities, ts[n - 1]) {
            SliceV { kept_triples: before.kept_triples.push(ts[n - 1]), ..before }
        } else {
            SliceV {
                dropped_types: if allowed {
                    before.dropped_types
                } else {
                    names::with_name(before.dropped_types, types[n - 1])
                },
                dropped_records: number::tallied(before.dropped_records),
                ..before
            }
        }
    }
}

/// What is kept of entities and relationships of the given types.
pub open spec fn partitioned(
    f: FilterV,
    es: Seq<(Seq<char>, EntityV)>,
    nodes: Seq<Seq<char>>,
    ts: Seq<TripleV>,
    relations: Seq<Seq<char>>,
) -> SliceV {
    triples_filtered(f, entities_filtered(f, es, nodes, es.len()), ts, relations, ts.len())
}

/// What is kept of entities and relationships.
pub open spec fn filtered(
    f: FilterV,
    es: Seq<(Seq<char>, EntityV)>,
    ts: Seq<TripleV>,
    tokens: Seq<(Seq<char>, Seq<char>)>,
) -> SliceV {
    partitioned(f, es, node_types(es, tokens), ts, relation_types(ts))
}

/// Those of the types `types` that are not in `allowed`; none where `allowed` is empty.
pub open spec fn types_beyond(allowed: Seq<Seq<char>>, types: Seq<Seq<char>>) -> Seq<Seq<char>>
    decreases types.len(),
{
    if types.len() == 0 {
        seq![]
    } else {
        let before = types_beyond(allowed, types.drop_last());
        if allowed.len() == 0 || allowed.contains(types.last()) {
            before
        } else {
            names::with_name(before, types.last())
        }
    }
}

/// The types `s` as names of types are compared.
fn canonical_names(s: &Vec<String>) -> (r: NameSet)
    ensures
        r@ == canonical_set(seqs::views(s@)),
{
    let ghost all = seqs::views(s@);
    let mut out = NameSet::new();
    assert(out@ =~= canonical_set(all.take(0)));
    let mut i: usize = 0;
    while i < s.len()
        invariant
            i <= s@.len(),
            all == seqs::views(s@),
            out@ == canonical_set(all.take(i as int)),
        decreases s.len() - i,
    {
        assert(all.take(i + 1).drop_last() =~= all.take(i as int));
        assert(all.take(i + 1).last() == s@[i as int]@);
        out.insert(norm_type(s[i].as_str()));
        i += 1;
    }
    assert(all.take(i as int) =~= all);
    out
}

/// Those of the types `types` that are not in `allowed`; none where `allowed` is empty.
pub fn find_types_beyond(allowed: &NameSet, types: &Vec<String>) -> (r: NameSet)
    ensures
        r@ == types_beyond(allowed@, seqs::views(types@)),
{
    let ghost all = seqs::views(types@);
    let mut out = NameSet::new();
    assert(out@ =~= types_beyond(allowed@, all.take(0)));
    let mut i: usize = 0;
    while i < types.len()
        invariant
            i <= types@.len(),
            all == seqs::views(types@),
            out@ == types_beyond(allowed@, all.take(i as int)),
        decreases types.len() - i,
    {
        assert(all.take(i + 1).drop_last() =~= all.take(i as int));
        assert(all.take(i + 1).last() == types@[i as int]@);
        if !allowed.is_empty() && !allowed.contains(types[i].as_str()) {
            out.insert(types[i].clone());
        }
        i += 1;
    }
    assert(all.take(i as int) =~= all);
    out
}

/// The types of entities as names of types are compared.
fn types_of_entities(es: &Table<Entity>, tokens: &Table<String>) -> (r: Vec<String>)
    ensures
        seqs::views(r@) == node_types(es@, tokens@),
{
    let ghost all = node_types(es@, tokens@);
    let mut out: Vec<String> = Vec::new();
    let mut i: usize = 0;
    while i < es.len()
        invariant
            i <= es@.len(),
            all == node_types(es@, tokens@),
            seqs::views(out@) =~= all.take(i as int),
        decreases es@.len() - i,
    {
        let e = es.value_at(i);
        let key = text::to_lower(text::trim(e.label.as_str()).as_str());
        let written = match tokens.get(key.as_str()) {
            Some(t) => t.clone(),
            None => e.entity_type.value().to_owned(),
        };
        let t = norm_type(written.as_str());
        assert(t@ == all[i as int]);
        out.push(t);
        i += 1;
    }
    assert(seqs::views(out@) =~= all);
    out
}

/// The type of a relationship as names of types are compared.
pub fn type_of_triple(t: &Triple) -> (r: String)
    ensures
        r@ == relation_type(t@),
{
    norm_type(t.predicate.display_label().as_str())
}

/// The types of relationships as names of types are compared.
pub fn types_of_triples(ts: &Vec<Triple>) -> (r: Vec<String>)
    ensures
        seqs::views(r@) == relation_types(seqs::views(ts@)),
{
    let ghost all = relation_types(seqs::views(ts@));
    let mut out: Vec<String> = Vec::new();
    let mut i: usize = 0;
    while i < ts.len()
        invariant
            i <= ts@.len(),
            all == relation_types(seqs::views(ts@)),
            seqs::views(out@) =~= all.take(i as int),
        decreases ts.len() - i,
    {
        let t = type_of_triple(&ts[i]);
        assert(t@ == all[i as int]);
        out.push(t);
        i += 1;
    }
    assert(seqs::views(out@) =~= all);
    out
}

impl SchemaFilter {
    /// The types that a schema names; nothing where it names none.
    pub fn build(schema: &Schema) -> (r: Option<SchemaFilter>)
        ensures
            seqs::opt_view(r) == seed(schema@),
    {
        assert(schema@.nodes.len() == schema.nodes@.len());
        assert(schema@.relations.len() == schema.relations@.len());
        if schema.nodes.len() == 0 && schema.relations.len() == 0 {
            None
        } else {
            Some(
                SchemaFilter {
                    nodes: canonical_names(&schema.nodes),
                    relations: canonical_names(&schema.relations),
                },
            )
        }
    }

    /// Whether entities of the type `t` are allowed.
    pub fn node_ok(&self, t: &str) -> (r: bool)
        ensures
            r == node_allowed(self@, t@),
    {
        self.nodes.is_empty() || self.nodes.contains(t)
    }

    /// Whether relationships of the type `t` are allowed.
    pub fn rel_ok(&self, t: &str) -> (r: bool)
        ensures
            r == relation_allowed(self@, t@),
    {
        self.relations.is_empty() || self.relations.contains(t)
    }

    /// The types of entities and of relationships that the schema does not name.
    pub fn new_types(
        &self,
        entities: &Table<Entity>,
        triples: &Vec<Triple>,
        type_tokens: &Table<String>,
    ) -> (r: (NameSet, NameSet))
        ensures
            (r.0)@ == types_beyond(self@.nodes, node_types(entities@, type_tokens@)),
            (r.1)@ == types_beyond(self@.relations, relation_types(seqs::views(triples@))),
    {
        (
            find_types_beyond(&self.nodes, &types_of_entities(entities, type_tokens)),
            find_types_beyond(&self.relations, &types_of_triples(triples)),
        )
    }

    /// Keep the entities whose types are allowed, and the relationships whose types are
    /// allowed and whose ends are kept.
    pub fn partition(
        &self,
        entities: &Table<Entity>,
        nodes: &Vec<String>,
        triples: &Vec<Triple>,
        relations: &Vec<String>,
    ) -> (r: SliceFilter)
        requires
            nodes@.len() == entities@.len(),
            relations@.len() == triples@.len(),
        ensures
            r@ == partitioned(
                self@,
                entities@,
                seqs::views(nodes@),
                seqs::views(triples@),
                seqs::views(relations@),
            ),
    {
        let ghost f = self@;
        let ghost es = entities@;
        let ghost nv = seqs::views(nodes@);
        let ghost tv = seqs::views(triples@);
        let ghost rv = seqs::views(relations@);
        let mut out = SliceFilter {
            kept_entities: Table::new(),
            kept_triples: Vec::new(),
            dropped_types: NameSet::new(),
            dropped_records: 0,
        };
        assert(out@ =~= entities_filtered(f, es, nv, 0));
        let mut i: usize = 0;
        while i < entities.len()
            invariant
                i <= entities@.len(),
                nodes@.len() == entities@.len(),
                f == self@,
                es == entities@,
                nv == seqs::views(nodes@),
                out@ == entities_filtered(f, es, nv, i as nat),
            decreases entities@.len() - i,
        {
            assert(nv[i as int] == nodes@[i as int]@);
            if self.node_ok(nodes[i].as_str()) {
                let id = entities.key_at(i).clone();
                let e = entities.value_at(i).dup();
                out.kept_entities.insert(id, e);
            } else {
                out.dropped_records = number::tally(out.dropped_records);
                out.dropped_types.insert(nodes[i].clone());
            }
            i += 1;
            assert(out@ =~= entities_filtered(f, es, nv, i as nat));
        }
        let ghost st = entities_filtered(f, es, nv, es.len());
        let mut j: usize = 0;
        while j < triples.len()
            invariant
                j <= triples@.len(),
                relations@.len() == triples@.len(),
                f == self@,
                tv == seqs::views(triples@),
                rv == seqs::views(relations@),
                out@ == triples_filtered(f, st, tv, rv, j as nat),
                out@.kept_entities == st.kept_entities,
            decreases triples.len() - j,
        {
            assert(tv[j as int] == triples@[j as int]@);
            assert(rv[j as int] == relations@[j as int]@);
            let t = &triples[j];
            let allowed = self.rel_ok(relations[j].as_str());
            if allowed && out.kept_entities.contains_key(t.subject.id.as_str())
                && out.kept_entities.contains_key(t.object.id.as_str()) {
                out.kept_triples.push(t.dup());
            } else {
                out.dropped_records = number::tally(out.dropped_records);
                if !allowed {
                    out.dropped_types.insert(relations[j].clone());
                }
            }
            j += 1;
            assert(out@ =~= triples_filtered(f, st, tv, rv, j as nat));
        }
        out
    }

    /// Keep what the schema allows of an answer. `type_tokens` are the types of its
    /// entities as it wrote them: a type that is none of the known ones is compared by
    /// these.
    pub fn apply(
        &self,
        entities: &Table<Entity>,
        triples: &Vec<Triple>,
        type_tokens: &Table<String>,
    ) -> (r: SliceFilter)
        ensures
            r@ == filtered(self@, entities@, seqs::views(triples@), type_tokens@),
    {
        let nodes = types_of_entities(entities, type_tokens);
        let relations = types_of_triples(triples);
        assert(seqs::views(nodes@).len() == nodes@.len());
        assert(seqs::views(relations@).len() == relations@.len());
        assert(seqs::views(triples@).len() == triples@.len());
        self.partition(entities, &nodes, triples, &relations)
    }
}

/// What a [`SchemaPolicy`] stands for.
pub enum PolicyV {
    Off,
    Fixed(FilterV),
    Evolving(FilterV),
}

/// What a schema makes of the records of an answer.
pub enum SchemaPolicy {
    /// It does not matter.
    Off,
    /// It binds them.
    Fixed(SchemaFilter),
    /// It is a seed that new types are told from.
    Evolving(SchemaFilter),
}

impl View for SchemaPolicy {
    type V = PolicyV;

    open spec fn view(&self) -> PolicyV {
        match self {
            SchemaPolicy::Off => PolicyV::Off,
            SchemaPolicy::Fixed(f) => PolicyV::Fixed(f@),
            SchemaPolicy::Evolving(f) => PolicyV::Evolving(f@),
        }
    }
}

/// What a schema makes of records in a mode. One that names nothing does not matter.
pub open spec fn policy_of(mode: SchemaMode, s: SchemaV) -> PolicyV {
    match (mode, seed(s)) {
        (SchemaMode::Fixed, Some(f)) => PolicyV::Fixed(f),
        (SchemaMode::Evolving, Some(f)) => PolicyV::Evolving(f),
        _ => PolicyV::Off,
    }
}

impl SchemaPolicy {
    /// What a schema makes of records in a mode.
    pub fn for_mode(mode: SchemaMode, schema: &Schema) -> (r: SchemaPolicy)
        ensures
            r@ == policy_of(mode, schema@),
    {
        match (mode, SchemaFilter::build(schema)) {
            (SchemaMode::Fixed, Some(f)) => SchemaPolicy::Fixed(f),
            (SchemaMode::Evolving, Some(f)) => SchemaPolicy::Evolving(f),
            _ => SchemaPolicy::Off,
        }
    }
}

/// A relationship that is kept has a type that is allowed, and entities that are kept
/// at its ends.
pub open spec fn is_kept_well(
    f: FilterV,
    es: Seq<(Seq<char>, EntityV)>,
    t: TripleV,
    types: Seq<Seq<char>>,
    ts: Seq<TripleV>,
) -> bool {
    ends_kept(es, t) && exists|k: int|
        0 <= k < ts.len() && #[trigger] ts[k] == t && relation_allowed(f, types[k])
}

/// Each relationship that is kept has both of its ends among the entities that are
/// kept, and the schema allows its type.
pub proof fn law_kept_relationships_are_anchored(
    f: FilterV,
    es: Seq<(Seq<char>, EntityV)>,
    nodes: Seq<Seq<char>>,
    ts: Seq<TripleV>,
    relations: Seq<Seq<char>>,
    i: int,
)
    requires
        0 <= i < partitioned(f, es, nodes, ts, relations).kept_triples.len(),
    ensures
        ({
            let s = partitioned(f, es, nodes, ts, relations);
            is_kept_well(f, s.kept_entities, s.kept_triples[i], relations, ts)
        }),
{
    let st = entities_filtered(f, es, nodes, es.len());
    lemma_entities_first(f, es, nodes, es.len());
    lemma_triples_kept(f, st, ts, relations, ts.len());
}

/// Keeping entities keeps no relationship.
proof fn lemma_entities_first(
    f: FilterV,
    es: Seq<(Seq<char>, EntityV)>,
    nodes: Seq<Seq<char>>,
    n: nat,
)
    ensures
        entities_filtered(f, es, nodes, n).kept_triples.len() == 0,
    decreases n,
{
    if n > 0 {
        lemma_entities_first(f, es, nodes, (n - 1) as nat);
    }
}

/// Of relationships those are kept that are allowed and whose ends are kept.
proof fn lemma_triples_kept(
    f: FilterV,
    st: SliceV,
    ts: Seq<TripleV>,
    relations: Seq<Seq<char>>,
    n: nat,
)
    requires
        st.kept_triples.len() == 0,
        n <= ts.len(),
    ensures
        triples_filtered(f, st, ts, relations, n).kept_entities == st.kept_entities,
        forall|i: int|
            0 <= i < triples_filtered(f, st, ts, relations, n).kept_triples.len() ==> is_kept_well(
                f,
                st.kept_entities,
                #[trigger] triples_filtered(f, st, ts, relations, n).kept_triples[i],
                relations,
                ts,
            ),
    decreases n,
{
    if n > 0 {
        lemma_triples_kept(f, st, ts, relations, (n - 1) as nat);
        let t = ts[n - 1];
        if relation_allowed(f, relations[n - 1]) && ends_kept(st.kept_entities, t) {
            assert(is_kept_well(f, st.kept_entities, t, relations, ts));
        }
    }
}

/// What the schema allows is kept, and nothing else: an entity is kept as it is where, and
/// only where, its type is allowed; a relationship whose type is allowed and whose ends are
/// kept is kept as it is. A type that is not allowed is noted.
pub proof fn law_allowed_records_are_kept(
    f: FilterV,
    es: Seq<(Seq<char>, EntityV)>,
    nodes: Seq<Seq<char>>,
    ts: Seq<TripleV>,
    relations: Seq<Seq<char>>,
    i: int,
    j: int,
)
    requires
        table::distinct_keys(es),
        0 <= i < es.len(),
        0 <= j < ts.len(),
    ensures
        ({
            let s = partitioned(f, es, nodes, ts, relations);
            let free = f.nodes.len() == 0 || f.nodes.contains(nodes[i]);
            let allowed = f.relations.len() == 0 || f.relations.contains(relations[j]);
            &&& table::lookup(s.kept_entities, es[i].0) == if free {
                Some(es[i].1)
            } else {
                None
            }
            &&& !free ==> s.dropped_types.contains(nodes[i])
            &&& allowed && table::has_key(s.kept_entities, ts[j].subject.id) && table::has_key(
                s.kept_entities,
                ts[j].object.id,
            ) ==> s.kept_triples.contains(ts[j])
            &&& !allowed ==> s.dropped_types.contains(relations[j])
        }),
{
    let st = entities_filtered(f, es, nodes, es.len());
    lemma_entities_first(f, es, nodes, es.len());
    lemma_triples_kept(f, st, ts, relations, ts.len());
    lemma_entity_decided(f, es, nodes, es.len(), i);
    lemma_triple_decided(f, st, ts, relations, ts.len(), j);
    lemma_types_stay_noted(f, st, ts, relations, ts.len(), nodes[i]);
}

proof fn lemma_entity_decided(
    f: FilterV,
    es: Seq<(Seq<char>, EntityV)>,
    nodes: Seq<Seq<char>>,
    n: nat,
    i: int,
)
    requires
        table::distinct_keys(es),
        n <= es.len(),
        0 <= i < es.len(),
    ensures
        ({
            let s = entities_filtered(f, es, nodes, n);
            &&& table::lookup(s.kept_entities, es[i].0) == if i < n && node_allowed(f, nodes[i]) {
                Some(es[i].1)
            } else {
                None
            }
            &&& i < n && !node_allowed(f, nodes[i]) ==> s.dropped_types.contains(nodes[i])
        }),
    decreases n,
{
    if n > 0 {
        let before = entities_filtered(f, es, nodes, (n - 1) as nat);
        lemma_entity_decided(f, es, nodes, (n - 1) as nat, i);
        if i != n - 1 {
            assert(es[i].0 != es[n - 1].0);
        }
        if node_allowed(f, nodes[n - 1]) {
            table::lemma_lookup_put(before.kept_entities, es[n - 1].0, es[n - 1].1, es[i].0);
        } else {
            names::lemma_with_name_contains(before.dropped_types, nodes[n - 1], nodes[i]);
        }
    }
}

proof fn lemma_triple_decided(
    f: FilterV,
    st: SliceV,
    ts: Seq<TripleV>,
    relations: Seq<Seq<char>>,
    n: nat,
    j: int,
)
    requires
        n <= ts.len(),
        0 <= j < n,
    ensures
        ({
            let s = triples_filtered(f, st, ts, relations, n);
            &&& relation_allowed(f, relations[j]) && ends_kept(st.kept_entities, ts[j])
                ==> s.kept_triples.contains(ts[j])
            &&& !relation_allowed(f, relations[j]) ==> s.dropped_types.contains(relations[j])
        }),
    decreases n,
{
    let before = triples_filtered(f, st, ts, relations, (n - 1) as nat);
    let s = triples_filtered(f, st, ts, relations, n);
    if j < n - 1 {
        lemma_triple_decided(f, st, ts, relations, (n - 1) as nat, j);
        if before.kept_triples.contains(ts[j]) {
            let k = choose|k: int|
                0 <= k < before.kept_triples.len() && before.kept_triples[k] == ts[j];
            assert(s.kept_triples[k] == ts[j]);
        }
    } else if relation_allowed(f, relations[j]) && ends_kept(st.kept_entities, ts[j]) {
        assert(s.kept_triples[s.kept_triples.len() - 1] == ts[j]);
    }
    names::lemma_with_name_contains(before.dropped_types, relations[n - 1], relations[j]);
}

proof fn lemma_types_stay_noted(
    f: FilterV,
    st: SliceV,
    ts: Seq<TripleV>,
    relations: Seq<Seq<char>>,
    n: nat,
    t: Seq<char>,
)
    ensures
        st.dropped_types.contains(t) ==> triples_filtered(
            f,
            st,
            ts,
            relations,
            n,
        ).dropped_types.contains(t),
    decreases n,
{
    if n > 0 {
        lemma_types_stay_noted(f, st, ts, relations, (n - 1) as nat, t);
        let before = triples_filtered(f, st, ts, relations, (n - 1) as nat);
        names::lemma_with_name_contains(before.dropped_types, relations[n - 1], t);
    }
}

/// A type is new where, and only where, it is one of the types and the schema, which names
/// some, does not name it.
pub proof fn law_new_types_are_beyond_the_schema(
    allowed: Seq<Seq<char>>,
    types: Seq<Seq<char>>,
    t: Seq<char>,
)
    ensures
        types_beyond(allowed, types).contains(t) <==> types.contains(t) && allowed.len() > 0
            && !allowed.contains(t),
    decreases types.len(),
{
    if types.len() > 0 {
        let before = types.drop_last();
        law_new_types_are_beyond_the_schema(allowed, before, t);
        names::lemma_with_name_contains(types_beyond(allowed, before), types.last(), t);
        if before.contains(t) {
            let i = choose|i: int| 0 <= i < before.len() && before[i] == t;
            assert(types[i] == t);
        }
        if types.contains(t) && types.last() != t {
            let i = choose|i: int| 0 <= i < types.len() && types[i] == t;
            assert(before[i] == t);
        }
        assert(types[types.len() - 1] == types.last());
    }
}

/// Nothing gets lost: every entity and every relationship is kept or counted among what
/// was left out.
pub proof fn law_all_records_are_accounted_for(
    f: FilterV,
    es: Seq<(Seq<char>, EntityV)>,
    nodes: Seq<Seq<char>>,
    ts: Seq<TripleV>,
    relations: Seq<Seq<char>>,
)
    requires
        table::distinct_keys(es),
        es.len() + ts.len() <= u64::MAX,
    ensures
        ({
            let s = partitioned(f, es, nodes, ts, relations);
            s.kept_entities.len() + s.kept_triples.len() + s.dropped_records == es.len()
                + ts.len()
        }),
{
    lemma_entities_counted(f, es, nodes, es.len());
    lemma_triples_counted(
        f,
        entities_filtered(f, es, nodes, es.len()),
        ts,
        relations,
        ts.len(),
        es.len(),
    );
}

/// Each of the first `n` entities is kept or counted.
proof fn lemma_entities_counted(
    f: FilterV,
    es: Seq<(Seq<char>, EntityV)>,
    nodes: Seq<Seq<char>>,
    n: nat,
)
    requires
        table::distinct_keys(es),
        n <= es.len(),
        es.len() <= u64::MAX,
    ensures
        ({
            let s = entities_filtered(f, es, nodes, n);
            &&& s.kept_entities.len() + s.dropped_records == n
            &&& s.kept_triples.len() == 0
            &&& forall|k: int|
                0 <= k < s.kept_entities.len() ==> exists|m: int|
                    0 <= m < n && (#[trigger] s.kept_entities[k]).0 == (#[trigger] es[m]).0
        }),
    decreases n,
{
    if n > 0 {
        let before = entities_filtered(f, es, nodes, (n - 1) as nat);
        lemma_entities_counted(f, es, nodes, (n - 1) as nat);
        if node_allowed(f, nodes[n - 1]) {
            let k = es[n - 1].0;
            table::lemma_position(before.kept_entities, k);
            if let Some(p) = table::position(before.kept_entities, k) {
                assert(before.kept_entities[p].0 == k);
                let m = choose|m: int|
                    0 <= m < n - 1 && before.kept_entities[p].0 == (#[trigger] es[m]).0;
                assert(es[m].0 == es[n - 1].0);
                assert(false);
            }
            let s = entities_filtered(f, es, nodes, n);
            assert(s.kept_entities == before.kept_entities.push((k, es[n - 1].1)));
            assert forall|q: int| 0 <= q < s.kept_entities.len() implies exists|m: int|
                0 <= m < n && (#[trigger] s.kept_entities[q]).0 == (#[trigger] es[m]).0 by {
                if q < before.kept_entities.len() {
                    assert(s.kept_entities[q] == before.kept_entities[q]);
                    let m = choose|m: int|
                        0 <= m < n - 1 && before.kept_entities[q].0 == (#[trigger] es[m]).0;
                    assert(s.kept_entities[q].0 == es[m].0);
                } else {
                    assert(s.kept_entities[q].0 == es[n - 1].0);
                }
            }
        }
    }
}

/// Each of the first `n` relationships is kept or counted.
proof fn lemma_triples_counted(
    f: FilterV,
    st: SliceV,
    ts: Seq<TripleV>,
    relations: Seq<Seq<char>>,
    n: nat,
    es: nat,
)
    requires
        st.kept_entities.len() + st.dropped_records == es,
        st.kept_triples.len() == 0,
        n <= ts.len(),
        es + ts.len() <= u64::MAX,
    ensures
        ({
            let s = triples_filtered(f, st, ts, relations, n);
            s.kept_entities.len() + s.kept_triples.len() + s.dropped_records == es + n
        }),
    decreases n,
{
    if n > 0 {
        lemma_triples_counted(f, st, ts, relations, (n - 1) as nat, es);
    }
}

} // verus!
