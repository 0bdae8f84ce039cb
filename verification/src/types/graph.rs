//! Entities, relationships and graphs of them.

use vstd::prelude::*;

use crate::fraction::{Fraction, FractionV};
use crate::json::{Json, JsonV, ObjectBuilder};
use crate::table::{Dup, Table};
use crate::types::vocab::{EntityType, PredicateType};
use crate::{citation, fraction, names, seqs, table, text};

verus! {

broadcast use crate::seqs::group_views;

/// Values attached to a record, by name.
pub type Metadata = Table<Json>;

/// What a [`Metadata`] stands for.
pub type MetadataV = Seq<(Seq<char>, JsonV)>;

/// What an [`Entity`] stands for.
pub struct EntityV {
    pub id: Seq<char>,
    pub label: Seq<char>,
    pub entity_type: EntityType,
    pub raw_type: Option<Seq<char>>,
    pub description: Option<Seq<char>>,
    pub confidence: Option<FractionV>,
    pub metadata: MetadataV,
}

/// A thing that a text speaks of.
pub struct Entity {
    pub id: String,
    pub label: String,
    pub entity_type: EntityType,
    /// The type as the source of the entity wrote it.
    pub raw_type: Option<String>,
    pub description: Option<String>,
    pub confidence: Option<Fraction>,
    pub metadata: Metadata,
}

impl View for Entity {
    type V = EntityV;

    open spec fn view(&self) -> EntityV {
        EntityV {
            id: self.id@,
            label: self.label@,
            entity_type: self.entity_type,
            raw_type: seqs::opt_view(self.raw_type),
            description: seqs::opt_view(self.description),
            confidence: seqs::opt_view(self.confidence),
            metadata: self.metadata@,
        }
    }
}

/// A copy of an optional value.
pub fn dup_option<T: Dup>(o: &Option<T>) -> (r: Option<T>)
    ensures
        seqs::opt_view(r) == seqs::opt_view(*o),
{
    match o {
        Some(x) => Some(x.dup()),
        None => None,
    }
}

impl Dup for Entity {
    fn dup(&self) -> (r: Entity) {
        Entity {
            id: self.id.clone(),
            label: self.label.clone(),
            entity_type: self.entity_type,
            raw_type: dup_option(&self.raw_type),
            description: dup_option(&self.description),
            confidence: dup_option(&self.confidence),
            metadata: self.metadata.dup(),
        }
    }
}

/// An entity with nothing but an id, a label and a type.
pub open spec fn plain_entity(id: Seq<char>, label: Seq<char>, t: EntityType) -> EntityV {
    EntityV {
        id,
        label,
        entity_type: t,
        raw_type: None,
        description: None,
        confidence: None,
        metadata: seq![],
    }
}

/// The type of an entity as it is shown: as its source wrote it, where that is known.
pub open spec fn entity_output_type(e: EntityV) -> Seq<char> {
    match e.raw_type {
        Some(t) => t,
        None => crate::types::vocab::entity_type_name(e.entity_type),
    }
}

impl Entity {
    /// An entity with nothing but an id, a label and a type.
    pub fn new(id: &str, label: &str, entity_type: EntityType) -> (r: Entity)
        ensures
            r@ == plain_entity(id@, label@, entity_type),
    {
        Entity {
            id: id.to_owned(),
            label: label.to_owned(),
            entity_type,
            raw_type: None,
            description: None,
            confidence: None,
            metadata: Table::new(),
        }
    }

    /// The type as it is shown.
    pub fn output_type(&self) -> (r: String)
        ensures
            r@ == entity_output_type(self@),
    {
        match &self.raw_type {
            Some(t) => t.clone(),
            None => self.entity_type.value().to_owned(),
        }
    }
}

/// What a [`Predicate`] stands for.
pub struct PredicateV {
    pub predicate_type: PredicateType,
    pub label: Option<Seq<char>>,
    pub raw_type: Option<Seq<char>>,
    pub confidence: Option<FractionV>,
    pub metadata: MetadataV,
}

/// How two entities are related.
pub struct Predicate {
    pub predicate_type: PredicateType,
    pub label: Option<String>,
    /// The type as the source of the relationship wrote it.
    pub raw_type: Option<String>,
    pub confidence: Option<Fraction>,
    pub metadata: Metadata,
}

impl View for Predicate {
    type V = PredicateV;

    open spec fn view(&self) -> PredicateV {
        PredicateV {
            predicate_type: self.predicate_type,
            label: seqs::opt_view(self.label),
            raw_type: seqs::opt_view(self.raw_type),
            confidence: seqs::opt_view(self.confidence),
            metadata: self.metadata@,
        }
    }
}

impl Dup for Predicate {
    fn dup(&self) -> (r: Predicate) {
        Predicate {
            predicate_type: self.predicate_type,
            label: dup_option(&self.label),
            raw_type: dup_option(&self.raw_type),
            confidence: dup_option(&self.confidence),
            metadata: self.metadata.dup(),
        }
    }
}

/// A predicate with nothing but a type.
pub open spec fn plain_predicate(t: PredicateType) -> PredicateV {
    PredicateV {
        predicate_type: t,
        label: None,
        raw_type: None,
        confidence: None,
        metadata: seq![],
    }
}

/// A predicate whose source wrote `label`.
pub open spec fn labelled_predicate(t: PredicateType, label: Seq<char>) -> PredicateV {
    PredicateV { label: Some(label), raw_type: Some(label), ..plain_predicate(t) }
}

/// The type of a predicate as it is shown: as its source wrote it, where that is known.
pub open spec fn predicate_output_type(p: PredicateV) -> Seq<char> {
    match p.raw_type {
        Some(t) => t,
        None => crate::types::vocab::predicate_type_name(p.predicate_type),
    }
}

/// The label of a predicate, or the name of its type where it has none.
pub open spec fn predicate_display_label(p: PredicateV) -> Seq<char> {
    match p.label {
        Some(t) => t,
        None => crate::types::vocab::predicate_type_name(p.predicate_type),
    }
}

impl Predicate {
    /// A predicate with nothing but a type.
    pub fn new(predicate_type: PredicateType) -> (r: Predicate)
        ensures
            r@ == plain_predicate(predicate_type),
    {
        Predicate {
            predicate_type,
            label: None,
            raw_type: None,
            confidence: None,
            metadata: Table::new(),
        }
    }

    /// A predicate whose source wrote `label`.
    pub fn with_label(predicate_type: PredicateType, label: &str) -> (r: Predicate)
        ensures
            r@ == labelled_predicate(predicate_type, label@),
    {
        Predicate {
            predicate_type,
            label: Some(label.to_owned()),
            raw_type: Some(label.to_owned()),
            confidence: None,
            metadata: Table::new(),
        }
    }

    /// The type as it is shown.
    pub fn output_type(&self) -> (r: String)
        ensures
            r@ == predicate_output_type(self@),
    {
        match &self.raw_type {
            Some(t) => t.clone(),
            None => self.predicate_type.value().to_owned(),
        }
    }

    /// The label, or the name of the type where there is none.
    pub fn display_label(&self) -> (r: String)
        ensures
            r@ == predicate_display_label(self@),
    {
        match &self.label {
            Some(t) => t.clone(),
            None => self.predicate_type.value().to_owned(),
        }
    }
}

/// What a [`Triple`] stands for.
pub struct TripleV {
    pub subject: EntityV,
    pub predicate: PredicateV,
    pub object: EntityV,
    pub confidence: Option<FractionV>,
    pub metadata: MetadataV,
}

/// A relationship between two entities.
pub struct Triple {
    pub subject: Entity,
    pub predicate: Predicate,
    pub object: Entity,
    pub confidence: Option<Fraction>,
    pub metadata: Metadata,
}

impl View for Triple {
    type V = TripleV;

    open spec fn view(&self) -> TripleV {
        TripleV {
            subject: self.subject@,
            predicate: self.predicate@,
            object: self.object@,
            confidence: seqs::opt_view(self.confidence),
            metadata: self.metadata@,
        }
    }
}

impl Dup for Triple {
    fn dup(&self) -> (r: Triple) {
        Triple {
            subject: self.subject.dup(),
            predicate: self.predicate.dup(),
            object: self.object.dup(),
            confidence: dup_option(&self.confidence),
            metadata: self.metadata.dup(),
        }
    }
}

/// A relationship with nothing but its ends and its predicate.
pub open spec fn plain_triple(s: EntityV, p: PredicateV, o: EntityV) -> TripleV {
    TripleV { subject: s, predicate: p, object: o, confidence: None, metadata: seq![] }
}

/// What makes two relationships the same one: the ids of its ends and the type of
/// its predicate.
pub open spec fn triple_key(t: TripleV) -> (Seq<char>, PredicateType, Seq<char>) {
    (t.subject.id, t.predicate.predicate_type, t.object.id)
}

/// Some relationship of `s` is the same one as `t`.
pub open spec fn has_triple(s: Seq<TripleV>, t: TripleV) -> bool {
    exists|i: int| 0 <= i < s.len() && triple_key(#[trigger] s[i]) == triple_key(t)
}

impl Triple {
    /// A relationship with nothing but its ends and its predicate.
    pub fn new(subject: Entity, predicate: Predicate, object: Entity) -> (r: Triple)
        ensures
            r@ == plain_triple(subject@, predicate@, object@),
    {
        Triple { subject, predicate, object, confidence: None, metadata: Table::new() }
    }

    /// The ids of the ends and, between them, the name of the predicate's type.
    pub fn to_tuple(&self) -> (r: (String, String, String))
        ensures
            r.0@ == self@.subject.id,
            r.1@ == crate::types::vocab::predicate_type_name(self@.predicate.predicate_type),
            r.2@ == self@.object.id,
    {
        (
            self.subject.id.clone(),
            self.predicate.predicate_type.value().to_owned(),
            self.object.id.clone(),
        )
    }

    /// Whether this is the same relationship as `other`.
    pub fn same_key(&self, other: &Triple) -> (r: bool)
        ensures
            r == (triple_key(self@) == triple_key(other@)),
    {
        text::same(self.subject.id.as_str(), other.subject.id.as_str())
            && self.predicate.predicate_type == other.predicate.predicate_type && text::same(
            self.object.id.as_str(),
            other.object.id.as_str(),
        )
    }
}

/// Whether some relationship of `s` is the same one as `t`; if so, the first.
pub fn find_triple(s: &Vec<Triple>, t: &Triple) -> (r: Option<usize>)
    ensures
        match r {
            Some(i) => i < s@.len() && triple_key(s@[i as int]@) == triple_key(t@) && (forall|j: int|
                0 <= j < i ==> triple_key(#[trigger] seqs::views(s@)[j]) != triple_key(t@)) && has_triple(
                seqs::views(s@),
                t@,
            ),
            None => !has_triple(seqs::views(s@), t@),
        },
{
    let mut i: usize = 0;
    while i < s.len()
        invariant
            i <= s@.len(),
            forall|j: int|
                0 <= j < i ==> triple_key(#[trigger] seqs::views(s@)[j]) != triple_key(t@),
        decreases s.len() - i,
    {
        if s[i].same_key(t) {
            assert(triple_key(seqs::views(s@)[i as int]) == triple_key(t@));
            return Some(i);
        }
        i += 1;
    }
    None
}

/// What a [`KnowledgeGraph`] stands for.
pub struct GraphV {
    pub entities: Seq<(Seq<char>, EntityV)>,
    pub triples: Seq<TripleV>,
    pub metadata: MetadataV,
}

/// Entities by id, in the order in which they came in, and relationships between
/// them.
pub struct KnowledgeGraph {
    pub entities: Table<Entity>,
    pub triples: Vec<Triple>,
    pub metadata: Metadata,
}

impl View for KnowledgeGraph {
    type V = GraphV;

    open spec fn view(&self) -> GraphV {
        GraphV {
            entities: self.entities@,
            triples: seqs::views(self.triples@),
            metadata: self.metadata@,
        }
    }
}

/// The empty graph.
pub open spec fn empty_graph() -> GraphV {
    GraphV { entities: seq![], triples: seq![], metadata: seq![] }
}

/// `e` with the citations that it has and then those that `s` holds for its id.
pub open spec fn with_known_citations(s: Seq<(Seq<char>, EntityV)>, e: EntityV) -> EntityV {
    match table::lookup(s, e.id) {
        Some(known) => EntityV {
            metadata: citation::united(e.metadata, known.metadata),
            ..e
        },
        None => e,
    }
}

/// The entities `s` with `e` under its id. An entity that was there is replaced,
/// but for its citations, which are kept.
pub open spec fn entity_added(s: Seq<(Seq<char>, EntityV)>, e: EntityV) -> Seq<(Seq<char>, EntityV)> {
    table::put(s, e.id, with_known_citations(s, e))
}

/// `g` with the relationship `t` and its two ends.
pub open spec fn triple_added(g: GraphV, t: TripleV) -> GraphV {
    GraphV {
        entities: entity_added(entity_added(g.entities, t.subject), t.object),
        triples: g.triples.push(t),
        ..g
    }
}

/// `g` with each of the relationships `ts` and their ends.
pub open spec fn triples_added(g: GraphV, ts: Seq<TripleV>) -> GraphV
    decreases ts.len(),
{
    if ts.len() == 0 {
        g
    } else {
        triple_added(triples_added(g, ts.drop_last()), ts.last())
    }
}

/// The entities `s` with each of the entities `es`.
pub open spec fn entities_added(
    s: Seq<(Seq<char>, EntityV)>,
    es: Seq<(Seq<char>, EntityV)>,
) -> Seq<(Seq<char>, EntityV)>
    decreases es.len(),
{
    if es.len() == 0 {
        s
    } else {
        entity_added(entities_added(s, es.drop_last()), es.last().1)
    }
}

/// `a` is stated with more confidence than `b`.
pub open spec fn surer(a: Option<FractionV>, b: Option<FractionV>) -> bool {
    match (a, b) {
        (Some(x), Some(y)) => fraction::less(y, x),
        (Some(_), None) => true,
        (None, _) => false,
    }
}

/// Of two entities with one id the one stated with more confidence, the one that
/// was there where neither is, with the citations of both.
pub open spec fn reconciled(known: EntityV, e: EntityV) -> EntityV {
    if surer(e.confidence, known.confidence) {
        EntityV { metadata: citation::united(e.metadata, known.metadata), ..e }
    } else {
        EntityV { metadata: citation::united(known.metadata, e.metadata), ..known }
    }
}

/// The entities `s` with the entity `e` under the name `id`, reconciled with the
/// one that was there.
pub open spec fn entity_merged(
    s: Seq<(Seq<char>, EntityV)>,
    id: Seq<char>,
    e: EntityV,
) -> Seq<(Seq<char>, EntityV)> {
    match table::lookup(s, id) {
        Some(known) => table::put(s, id, reconciled(known, e)),
        None => table::put(s, id, e),
    }
}

/// The entities `s` with each of the entities `es`, by id.
pub open spec fn entities_merged(
    s: Seq<(Seq<char>, EntityV)>,
    es: Seq<(Seq<char>, EntityV)>,
) -> Seq<(Seq<char>, EntityV)>
    decreases es.len(),
{
    if es.len() == 0 {
        s
    } else {
        entity_merged(entities_merged(s, es.drop_last()), es.last().0, es.last().1)
    }
}

/// The relationships `s` and then those of `ts` that are none of them.
pub open spec fn triples_merged(s: Seq<TripleV>, ts: Seq<TripleV>) -> Seq<TripleV>
    decreases ts.len(),
{
    if ts.len() == 0 {
        s
    } else {
        let m = triples_merged(s, ts.drop_last());
        if has_triple(m, ts.last()) {
            m
        } else {
            m.push(ts.last())
        }
    }
}

/// `g` with the entities of `other`, by id, and the relationships of `other` that
/// it does not have.
pub open spec fn graph_merged(g: GraphV, other: GraphV) -> GraphV {
    GraphV {
        entities: entities_merged(g.entities, other.entities),
        triples: triples_merged(g.triples, other.triples),
        ..g
    }
}

/// A relationship that is put into a graph stands there behind all others, as it was
/// given, and its two ends stand among the entities, with their labels; every other entity
/// stays as it is.
pub proof fn law_relationships_are_put_in(g: GraphV, t: TripleV, other: Seq<char>)
    ensures
        ({
            let after = triple_added(g, t);
            &&& after.triples.len() == g.triples.len() + 1
            &&& after.triples.drop_last() == g.triples
            &&& after.triples.last() == t
            &&& after.metadata == g.metadata
            &&& table::has_key(after.entities, t.subject.id)
            &&& table::has_key(after.entities, t.object.id)
            &&& table::lookup(after.entities, t.object.id)->0.label == t.object.label
            &&& t.subject.id != t.object.id ==> table::lookup(after.entities, t.subject.id)->0.label
                == t.subject.label
            &&& other != t.subject.id && other != t.object.id ==> table::lookup(
                after.entities,
                other,
            ) == table::lookup(g.entities, other)
        }),
{
    let after = triple_added(g, t);
    assert(after.triples.drop_last() =~= g.triples);
    let one = with_known_citations(g.entities, t.subject);
    let mid = entity_added(g.entities, t.subject);
    let two = with_known_citations(mid, t.object);
    table::lemma_lookup_put(g.entities, t.subject.id, one, t.subject.id);
    table::lemma_lookup_put(g.entities, t.subject.id, one, other);
    table::lemma_lookup_put(mid, t.object.id, two, t.subject.id);
    table::lemma_lookup_put(mid, t.object.id, two, t.object.id);
    table::lemma_lookup_put(mid, t.object.id, two, other);
}

/// `a` is a confidence that is no less than `b`, where `b` is one.
pub open spec fn no_less_sure(a: Option<FractionV>, b: Option<FractionV>) -> bool {
    b is Some ==> a is Some && !fraction::less(a->0, b->0)
}

/// Of two records of one entity that which is stated with more confidence is kept, and the
/// first where neither is: all that it says stays, but for the citations, which are those
/// of both.
pub proof fn law_the_surer_record_is_kept(known: EntityV, e: EntityV, k: Seq<char>)
    requires
        k != citation::CITATIONS_KEY@,
        known.confidence is Some ==> fraction::well_written(known.confidence->0),
        e.confidence is Some ==> fraction::well_written(e.confidence->0),
    ensures
        ({
            let r = reconciled(known, e);
            let kept = if r.confidence == known.confidence {
                known
            } else {
                e
            };
            &&& no_less_sure(r.confidence, known.confidence)
            &&& no_less_sure(r.confidence, e.confidence)
            &&& r.id == kept.id && r.label == kept.label && r.entity_type == kept.entity_type
            &&& r.raw_type == kept.raw_type && r.description == kept.description
            &&& r.confidence == kept.confidence
            &&& table::lookup(r.metadata, k) == table::lookup(kept.metadata, k)
        }),
{
    citation::law_only_citations_are_united(known.metadata, e.metadata, k);
    citation::law_only_citations_are_united(e.metadata, known.metadata, k);
    if let Some(a) = known.confidence {
        fraction::law_numbers_are_ordered(a, a);
        if let Some(b) = e.confidence {
            fraction::law_numbers_are_ordered(a, b);
        }
    }
    if let Some(b) = e.confidence {
        fraction::law_numbers_are_ordered(b, b);
    }
}

/// A merge by id loses nothing: every id of either graph is one of the result, an entity
/// that one graph alone has is as it was there, the relationships of the first graph stay
/// in their places, and of the second graph those are added, as they are, that are none of
/// the ones before them.
pub proof fn law_merge_by_id_loses_nothing(g: GraphV, other: GraphV, id: Seq<char>, j: int)
    requires
        table::distinct_keys(other.entities),
    ensures
        ({
            let r = graph_merged(g, other);
            &&& table::has_key(r.entities, id) <==> table::has_key(g.entities, id)
                || table::has_key(other.entities, id)
            &&& !table::has_key(other.entities, id) ==> table::lookup(r.entities, id)
                == table::lookup(g.entities, id)
            &&& !table::has_key(g.entities, id) ==> table::lookup(r.entities, id)
                == table::lookup(other.entities, id)
            &&& r.metadata == g.metadata
            &&& r.triples.len() >= g.triples.len()
            &&& r.triples.take(g.triples.len() as int) == g.triples
            &&& 0 <= j < other.triples.len() ==> has_triple(r.triples, other.triples[j])
            &&& g.triples.len() <= j < r.triples.len() ==> other.triples.contains(r.triples[j])
                && !has_triple(r.triples.take(j), r.triples[j])
        }),
{
    lemma_entities_merged(g.entities, other.entities, id);
    lemma_triples_merged(g.triples, other.triples, j);
}

proof fn lemma_entities_merged(
    s: Seq<(Seq<char>, EntityV)>,
    es: Seq<(Seq<char>, EntityV)>,
    id: Seq<char>,
)
    requires
        table::distinct_keys(es),
    ensures
        table::has_key(entities_merged(s, es), id) <==> table::has_key(s, id) || table::has_key(
            es,
            id,
        ),
        !table::has_key(es, id) ==> table::lookup(entities_merged(s, es), id) == table::lookup(
            s,
            id,
        ),
        !table::has_key(s, id) ==> table::lookup(entities_merged(s, es), id) == table::lookup(
            es,
            id,
        ),
    decreases es.len(),
{
    if es.len() > 0 {
        let before = es.drop_last();
        assert forall|a: int, b: int| 0 <= a < b < before.len() implies (#[trigger] before[a]).0
            != (#[trigger] before[b]).0 by {
            assert(es[a].0 != es[b].0);
        }
        lemma_entities_merged(s, before, id);
        let m = entities_merged(s, before);
        let (k, e) = es.last();
        lemma_entities_merged(s, before, k);
        let kept = match table::lookup(m, k) {
            Some(known) => reconciled(known, e),
            None => e,
        };
        table::lemma_lookup_put(m, k, kept, id);
        table::lemma_position(es, id);
        table::lemma_position(before, id);
        table::lemma_position(before, k);
        if table::has_key(before, k) {
            let p = table::position(before, k)->0;
            assert(es[p].0 != es[es.len() - 1].0);
        }
        if id == k {
            assert(es[es.len() - 1].0 == id);
            assert forall|a: int| 0 <= a < es.len() - 1 implies (#[trigger] es[a]).0 != id by {
                assert(es[a].0 != es[es.len() - 1].0);
            }
            table::lemma_position_at(es, id, es.len() - 1);
        } else if table::has_key(before, id) {
            let p = table::position(before, id)->0;
            assert(es[p] == before[p]);
            assert forall|a: int| 0 <= a < p implies (#[trigger] es[a]).0 != id by {
                assert(before[a].0 != id);
            }
            table::lemma_position_at(es, id, p);
        } else if table::has_key(es, id) {
            let p = table::position(es, id)->0;
            assert(p < before.len());
            assert(before[p].0 == id);
        }
    }
}

proof fn lemma_triples_merged(s: Seq<TripleV>, ts: Seq<TripleV>, j: int)
    ensures
        triples_merged(s, ts).len() >= s.len(),
        triples_merged(s, ts).take(s.len() as int) == s,
        0 <= j < ts.len() ==> has_triple(triples_merged(s, ts), ts[j]),
        s.len() <= j < triples_merged(s, ts).len() ==> ts.contains(triples_merged(s, ts)[j])
            && !has_triple(triples_merged(s, ts).take(j), triples_merged(s, ts)[j]),
    decreases ts.len(),
{
    let r = triples_merged(s, ts);
    if ts.len() == 0 {
        assert(s.take(s.len() as int) =~= s);
    } else {
        let before = ts.drop_last();
        lemma_triples_merged(s, before, j);
        let m = triples_merged(s, before);
        assert(r.take(s.len() as int) =~= m.take(s.len() as int));
        if !has_triple(m, ts.last()) {
            assert(triple_key(r[m.len() as int]) == triple_key(ts.last()));
        }
        if 0 <= j < before.len() {
            assert(before[j] == ts[j]);
            let i = choose|i: int| 0 <= i < m.len() && triple_key(#[trigger] m[i]) == triple_key(
                ts[j],
            );
            assert(r[i] == m[i]);
        }
        if s.len() <= j < m.len() {
            let i = choose|i: int| 0 <= i < before.len() && before[i] == m[j];
            assert(ts[i] == m[j]);
            assert(r.take(j) =~= m.take(j));
        } else if s.len() <= j < r.len() {
            assert(r[j] == ts[ts.len() - 1]);
            assert(r.take(j) =~= m);
        }
    }
}

/// Each entity stands under its own id.
pub open spec fn ids_are_keys(s: Seq<(Seq<char>, EntityV)>) -> bool {
    forall|i: int| 0 <= i < s.len() ==> (#[trigger] s[i]).0 == s[i].1.id
}

impl Dup for KnowledgeGraph {
    fn dup(&self) -> (r: KnowledgeGraph) {
        KnowledgeGraph {
            entities: self.entities.dup(),
            triples: dup_triples(&self.triples),
            metadata: self.metadata.dup(),
        }
    }
}

/// The same relationships in the same order.
pub fn dup_triples(s: &Vec<Triple>) -> (r: Vec<Triple>)
    ensures
        seqs::views(r@) == seqs::views(s@),
{
    let mut out: Vec<Triple> = Vec::new();
    let mut i: usize = 0;
    while i < s.len()
        invariant
            i <= s@.len(),
            seqs::views(out@) == seqs::views(s@).take(i as int),
        decreases s.len() - i,
    {
        let t = s[i].dup();
        out.push(t);
        assert(seqs::views(s@).take(i + 1) =~= seqs::views(s@).take(i as int).push(t@));
        i += 1;
    }
    assert(seqs::views(s@).take(i as int) =~= seqs::views(s@));
    out
}

/// Whether `a` is stated with more confidence than `b`.
pub fn is_surer(a: &Option<Fraction>, b: &Option<Fraction>) -> (r: bool)
    ensures
        r == surer(seqs::opt_view(*a), seqs::opt_view(*b)),
{
    match (a, b) {
        (Some(x), Some(y)) => y.is_less(x),
        (Some(_), None) => true,
        (None, _) => false,
    }
}

/// A confidence as a JSON value.
pub open spec fn confidence_value(c: Option<FractionV>) -> JsonV {
    match c {
        Some(f) => JsonV::Decimal(fraction::fraction_text(f)),
        None => JsonV::Null,
    }
}

/// A confidence as a JSON value.
pub fn confidence_of(c: &Option<Fraction>) -> (r: Json)
    ensures
        r@ == confidence_value(seqs::opt_view(*c)),
{
    match c {
        Some(f) => Json::Decimal(f.to_text()),
        None => Json::Null,
    }
}

/// The values of a record as an object, its members in the order of their names.
pub open spec fn ordered_object(m: MetadataV) -> JsonV {
    let names = names::sorted(table::keys(m));
    JsonV::Object(Seq::new(names.len(), |i: int| (names[i], table::lookup(m, names[i])->0)))
}

/// A record that is written as an object in the order of names has under each name what the
/// record has under it.
pub proof fn law_ordered_objects_hold_the_record(m: MetadataV, k: Seq<char>)
    requires
        table::distinct_keys(m),
    ensures
        table::lookup(ordered_object(m)->Object_0, k) == table::lookup(m, k),
{
    let names = names::sorted(table::keys(m));
    let o = ordered_object(m)->Object_0;
    names::lemma_sorted(table::keys(m));
    names.to_multiset_ensures();
    table::keys(m).to_multiset_ensures();
    table::lemma_position(o, k);
    table::lemma_position(m, k);
    assert(names.to_multiset().count(k) == table::keys(m).to_multiset().count(k));
    if let Some(i) = table::position(m, k) {
        assert(table::keys(m)[i] == k);
        assert(table::keys(m).contains(k));
        assert(names.contains(k));
        let j = choose|j: int| 0 <= j < names.len() && names[j] == k;
        assert(o[j].0 == k);
    }
    if let Some(j) = table::position(o, k) {
        assert(names[j] == k);
        assert(names.contains(k));
        assert(table::keys(m).contains(k));
        let i = choose|i: int| 0 <= i < table::keys(m).len() && table::keys(m)[i] == k;
        assert(m[i].0 == k);
    }
}

/// The values of a record as an object, its members in the order of their names.
pub fn to_ordered_object(m: &Metadata) -> (r: Json)
    ensures
        r@ == ordered_object(m@),
{
    let n: usize = m.len();
    let mut keys: Vec<String> = Vec::new();
    let mut i: usize = 0;
    while i < n
        invariant
            i <= n,
            n == m@.len(),
            seqs::views(keys@) =~= table::keys(m@).take(i as int),
        decreases n - i,
    {
        keys.push(m.key_at(i).clone());
        i += 1;
    }
    assert(seqs::views(keys@) =~= table::keys(m@));
    let names = names::sort(keys);
    proof {
        names::lemma_sorted(table::keys(m@));
    }
    let ghost sorted = names::sorted(table::keys(m@));
    let mut b = ObjectBuilder::new();
    let mut j: usize = 0;
    while j < names.len()
        invariant
            j <= names@.len(),
            seqs::views(names@) == sorted,
            sorted == names::sorted(table::keys(m@)),
            sorted.to_multiset() == table::keys(m@).to_multiset(),
            b@ =~= ordered_object(m@)->Object_0.take(j as int),
        decreases names.len() - j,
    {
        assert(sorted[j as int] == names@[j as int]@);
        proof {
            table::lemma_key_looked_up(m@, sorted, j as int);
        }
        match m.get(names[j].as_str()) {
            Some(v) => {
                b.add(names[j].as_str(), v.dup());
            },
            None => {},
        }
        j += 1;
    }
    assert(b@ =~= ordered_object(m@)->Object_0);
    b.done()
}

impl KnowledgeGraph {
    /// The empty graph.
    pub fn new() -> (r: KnowledgeGraph)
        ensures
            r@ == empty_graph(),
    {
        let r = KnowledgeGraph {
            entities: Table::new(),
            triples: Vec::new(),
            metadata: Table::new(),
        };
        assert(r@.triples =~= seq![]);
        r
    }

    /// The entity with the id `id`.
    pub fn get_entity(&self, id: &str) -> (r: Option<&Entity>)
        ensures
            match r {
                Some(e) => table::lookup(self@.entities, id@) == Some(e@),
                None => table::lookup(self@.entities, id@) is None,
            },
    {
        self.entities.get(id)
    }

    /// Put an entity into the graph, under its id. An entity that was there is
    /// replaced, but for its citations, which are kept.
    pub fn add_entity(&mut self, entity: Entity)
        ensures
            final(self)@ == (GraphV {
                entities: entity_added(old(self)@.entities, entity@),
                ..old(self)@
            }),
    {
        let mut e = entity;
        if let Some(known) = self.entities.get(e.id.as_str()) {
            citation::union_citations(&mut e.metadata, &known.metadata);
        }
        let id = e.id.clone();
        self.entities.insert(id, e);
    }

    /// Put a relationship into the graph, and its two ends among the entities.
    pub fn add_triple(&mut self, triple: Triple)
        ensures
            final(self)@ == triple_added(old(self)@, triple@),
    {
        let subject = triple.subject.dup();
        let object = triple.object.dup();
        self.add_entity(subject);
        self.add_entity(object);
        self.triples.push(triple);
    }

    /// Put the entities of `other` into the graph, by id, and the relationships of
    /// `other` that the graph does not have.
    pub fn merge(&mut self, other: KnowledgeGraph)
        ensures
            final(self)@ == graph_merged(old(self)@, other@),
    {
        let mut i: usize = 0;
        while i < other.entities.len()
            invariant
                i <= other@.entities.len(),
                self@.entities == entities_merged(
                    old(self)@.entities,
                    other@.entities.take(i as int),
                ),
                self@.triples == old(self)@.triples,
                self@.metadata == old(self)@.metadata,
            decreases other@.entities.len() - i,
        {
            let id = other.entities.key_at(i).clone();
            let e = other.entities.value_at(i);
            assert(other@.entities.take(i + 1).drop_last() =~= other@.entities.take(i as int));
            let kept = match self.entities.get(id.as_str()) {
                Some(known) => {
                    if is_surer(&e.confidence, &known.confidence) {
                        let mut k = e.dup();
                        citation::union_citations(&mut k.metadata, &known.metadata);
                        k
                    } else {
                        let mut k = known.dup();
                        citation::union_citations(&mut k.metadata, &e.metadata);
                        k
                    }
                },
                None => e.dup(),
            };
            self.entities.insert(id, kept);
            i += 1;
        }
        assert(other@.entities.take(i as int) =~= other@.entities);
        let mut k: usize = 0;
        while k < other.triples.len()
            invariant
                k <= other.triples@.len(),
                self@.entities == entities_merged(old(self)@.entities, other@.entities),
                self@.triples == triples_merged(old(self)@.triples, other@.triples.take(k as int)),
                self@.metadata == old(self)@.metadata,
            decreases other.triples@.len() - k,
        {
            assert(other@.triples.take(k + 1).drop_last() =~= other@.triples.take(k as int));
            if find_triple(&self.triples, &other.triples[k]).is_none() {
                let t = other.triples[k].dup();
                self.triples.push(t);
            }
            k += 1;
        }
        assert(other@.triples.take(k as int) =~= other@.triples);
    }
}

} // verus!
