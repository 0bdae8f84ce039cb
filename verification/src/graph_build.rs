//! Building a graph from names: entities are told apart by their names, and
//! relationships are tied to entities by name.

use vstd::prelude::*;

use crate::fraction::Fraction;
use crate::json::{Json, JsonV};
use crate::table::{Dup, Table};
use crate::types::graph::{
    Entity, EntityV, GraphV, KnowledgeGraph, Metadata, MetadataV, Predicate, PredicateV, Triple,
    TripleV,
};
use crate::types::spec::MergeStrategy;
use crate::types::vocab::{EntityType, PredicateType};
use crate::{merger, seqs, table, text};

verus! {

broadcast use crate::seqs::group_views;

/// The MD5 digest of a text, in hexadecimal.
pub uninterp spec fn md5_hex(name: Seq<char>) -> Seq<char>;

/// `c` is a hexadecimal digit in lower case.
pub open spec fn is_hex(c: char) -> bool {
    '0' <= c <= '9' || 'a' <= c <= 'f'
}

/// `md5::compute` on the bytes of `name`, formatted with `{:x}`: 32 hexadecimal
/// digits in lower case, two for each of the 16 bytes of the digest.
#[verifier::external_body]
fn digest_of(name: &str) -> (r: String)
    ensures
        r@ == md5_hex(name@),
        r@.len() == 32,
        forall|i: int| 0 <= i < r@.len() ==> is_hex(#[trigger] r@[i]),
{
    format!("{:x}", md5::compute(name.as_bytes()))
}

/// The id that is made of a digest.
pub open spec fn digest_id(digest: Seq<char>) -> Seq<char> {
    "entity_"@ + digest.take(8)
}

/// The id that is made of a digest: its first eight digits behind `entity_`.
pub fn id_of_digest(digest: &str) -> (r: String)
    requires
        digest@.len() >= 8,
    ensures
        r@ == digest_id(digest@),
{
    let v = text::chars_of(digest);
    let head = text::text_of(&v, 0, 8);
    assert(head@ =~= digest@.take(8));
    text::concat2("entity_", head.as_str())
}

/// The id of an entity with the name `name`.
pub open spec fn id_of_name(name: Seq<char>) -> Seq<char> {
    digest_id(md5_hex(name))
}

/// The id of an entity with the name `name`: `entity_` and eight hexadecimal digits,
/// which depend on the name alone.
pub fn entity_id(name: &str) -> (r: String)
    ensures
        r@ == id_of_name(name@),
        r@.len() == 15,
        r@.take(7) == "entity_"@,
        forall|i: int| 7 <= i < 15 ==> is_hex(#[trigger] r@[i]),
{
    let digest = digest_of(name);
    let r = id_of_digest(digest.as_str());
    proof {
        reveal_strlit("entity_");
        assert(r@.take(7) =~= "entity_"@);
        assert forall|i: int| 7 <= i < 15 implies is_hex(#[trigger] r@[i]) by {
            assert(r@[i] == digest@[i - 7]);
        }
    }
    r
}

/// The type that `s` names, exactly or else loosely; the type of nothing in
/// particular where it names none.
pub open spec fn entity_type_of(s: Seq<char>) -> EntityType {
    let t = text::trimmed(s);
    if t.len() == 0 {
        crate::types::vocab::entity_type_loosely("other"@)
    } else {
        match crate::types::vocab::entity_type_named(t) {
            Some(e) => e,
            None => crate::types::vocab::entity_type_loosely(t),
        }
    }
}

/// The type that `s` names, exactly or else loosely.
pub fn parse_entity_type(s: &str) -> (r: EntityType)
    ensures
        r == entity_type_of(s@),
{
    let t = text::trim(s);
    if t.as_str().unicode_len() == 0 {
        return EntityType::from_loose("other");
    }
    match EntityType::parse(t.as_str()) {
        Some(e) => e,
        None => EntityType::from_loose(t.as_str()),
    }
}

/// The type of predicate that `s` names, where `upper` is `s` in upper case.
pub open spec fn predicate_type_of(s: Seq<char>, upper: Seq<char>) -> PredicateType {
    match crate::types::vocab::predicate_type_named(text::underscored(upper)) {
        Some(p) => p,
        None => crate::types::vocab::predicate_type_loosely(s),
    }
}

/// The predicate that `s` names. What was written is kept.
pub open spec fn predicate_of(s: Seq<char>) -> PredicateV {
    crate::types::graph::labelled_predicate(predicate_type_of(s, text::upper(s)), s)
}

/// The type of predicate that `s` names, where `upper` is `s` in upper case.
pub fn choose_predicate_type(s: &str, upper: &str) -> (r: PredicateType)
    ensures
        r == predicate_type_of(s@, upper@),
{
    match PredicateType::parse(text::underscore(upper).as_str()) {
        Some(p) => p,
        None => PredicateType::from_loose(s),
    }
}

/// The predicate that `s` names: see [`choose_predicate_type`].
pub fn build_predicate(s: &str) -> (r: Predicate)
    ensures
        r@ == predicate_of(s@),
{
    let upper = text::to_upper(s);
    Predicate::with_label(choose_predicate_type(s, upper.as_str()), s)
}

/// Things of type `t` act.
pub open spec fn is_actor(t: EntityType) -> bool {
    match t {
        EntityType::Person => true,
        EntityType::Organization => true,
        EntityType::Company => true,
        EntityType::Institution => true,
        EntityType::GovernmentAgency => true,
        EntityType::PoliticalParty => true,
        EntityType::MilitaryUnit => true,
        _ => false,
    }
}

/// `label`, in lower case, speaks of a source of evidence.
pub open spec fn speaks_of_evidence(label: Seq<char>) -> bool {
    ||| text::contains(label, "audit log"@)
    ||| text::contains(label, "audit logs"@)
    ||| text::contains(label, "log"@)
    ||| text::contains(label, "logs"@)
    ||| text::contains(label, "evidence"@)
    ||| text::contains(label, "evidentiary"@)
    ||| text::contains(label, "trace"@)
    ||| text::contains(label, "traces"@)
    ||| text::contains(label, "record"@)
    ||| text::contains(label, "records"@)
    ||| text::contains(label, "metric"@)
    ||| text::contains(label, "metrics"@)
    ||| text::contains(label, "measurement"@)
    ||| text::contains(label, "measurements"@)
}

/// `label`, in lower case, speaks of something that evidence is given for.
pub open spec fn speaks_of_claim(label: Seq<char>) -> bool {
    ||| text::contains(label, "incident report"@)
    ||| text::contains(label, "incident reports"@)
    ||| text::contains(label, "report"@)
    ||| text::contains(label, "reports"@)
    ||| text::contains(label, "claim"@)
    ||| text::contains(label, "claims"@)
    ||| text::contains(label, "finding"@)
    ||| text::contains(label, "findings"@)
    ||| text::contains(label, "conclusion"@)
    ||| text::contains(label, "conclusions"@)
    ||| text::contains(label, "assertion"@)
    ||| text::contains(label, "assertions"@)
    ||| text::contains(label, "hypothesis"@)
    ||| text::contains(label, "hypotheses"@)
}

/// Whether things of type `t` act.
pub fn is_actor_type(t: EntityType) -> (r: bool)
    ensures
        r == is_actor(t),
{
    match t {
        EntityType::Person => true,
        EntityType::Organization => true,
        EntityType::Company => true,
        EntityType::Institution => true,
        EntityType::GovernmentAgency => true,
        EntityType::PoliticalParty => true,
        EntityType::MilitaryUnit => true,
        _ => false,
    }
}

/// Whether `label`, in lower case, speaks of a source of evidence.
pub fn looks_like_evidence_source(label: &str) -> (r: bool)
    ensures
        r == speaks_of_evidence(label@),
{
    text::has(label, "audit log") || text::has(label, "audit logs") || text::has(label, "log")
        || text::has(label, "logs") || text::has(label, "evidence") || text::has(
        label,
        "evidentiary",
    ) || text::has(label, "trace") || text::has(label, "traces") || text::has(label, "record")
        || text::has(label, "records") || text::has(label, "metric") || text::has(label, "metrics")
        || text::has(label, "measurement") || text::has(label, "measurements")
}

/// Whether `label`, in lower case, speaks of something that evidence is given for.
pub fn looks_like_evidenced_claim(label: &str) -> (r: bool)
    ensures
        r == speaks_of_claim(label@),
{
    text::has(label, "incident report") || text::has(label, "incident reports") || text::has(
        label,
        "report",
    ) || text::has(label, "reports") || text::has(label, "claim") || text::has(label, "claims")
        || text::has(label, "finding") || text::has(label, "findings") || text::has(
        label,
        "conclusion",
    ) || text::has(label, "conclusions") || text::has(label, "assertion") || text::has(
        label,
        "assertions",
    ) || text::has(label, "hypothesis") || text::has(label, "hypotheses")
}

/// A predicate of this type says by whom or what its subject is done: its name ends
/// in `_BY`.
pub open spec fn is_passive(t: PredicateType) -> bool {
    text::has_suffix(crate::types::vocab::predicate_type_name(t), "_BY"@)
}

/// The ends of a relationship are in the wrong order: the one that acts stands where
/// what is done by it should stand, or the evidence where the claim should. The
/// labels are given in lower case.
pub open spec fn ends_reversed(
    subject: EntityType,
    subject_label: Seq<char>,
    p: PredicateType,
    object: EntityType,
    object_label: Seq<char>,
) -> bool {
    is_passive(p) && (is_actor(subject) && !is_actor(object) || p == PredicateType::EvidencedBy
        && speaks_of_evidence(subject_label) && speaks_of_claim(object_label))
}

/// The ends of a relationship are in the wrong order: see [`ends_reversed`].
pub open spec fn reversed(subject: EntityV, p: PredicateV, object: EntityV) -> bool {
    ends_reversed(
        subject.entity_type,
        text::lower(subject.label),
        p.predicate_type,
        object.entity_type,
        text::lower(object.label),
    )
}

/// Whether the ends of a relationship are in the wrong order.
pub fn are_ends_reversed(
    subject: EntityType,
    subject_label: &str,
    p: PredicateType,
    object: EntityType,
    object_label: &str,
) -> (r: bool)
    ensures
        r == ends_reversed(subject, subject_label@, p, object, object_label@),
{
    if !text::ends_with(p.value(), "_BY") {
        return false;
    }
    if is_actor_type(subject) && !is_actor_type(object) {
        return true;
    }
    p == PredicateType::EvidencedBy && looks_like_evidence_source(subject_label)
        && looks_like_evidenced_claim(object_label)
}

/// Whether the ends of a relationship are in the wrong order: see
/// [`are_ends_reversed`].
pub fn should_swap_passive_by(subject: &Entity, predicate: &Predicate, object: &Entity) -> (r: bool)
    ensures
        r == reversed(subject@, predicate@, object@),
{
    are_ends_reversed(
        subject.entity_type,
        text::to_lower(subject.label.as_str()).as_str(),
        predicate.predicate_type,
        object.entity_type,
        text::to_lower(object.label.as_str()).as_str(),
    )
}

/// Of two ends that act and do not act, one order is wrong and the other is not.
pub proof fn law_one_order_of_actors(
    a: EntityType,
    a_label: Seq<char>,
    p: PredicateType,
    b: EntityType,
    b_label: Seq<char>,
)
    requires
        is_passive(p),
        p != PredicateType::EvidencedBy,
    ensures
        !(ends_reversed(a, a_label, p, b, b_label) && ends_reversed(b, b_label, p, a, a_label)),
        is_actor(a) != is_actor(b) ==> ends_reversed(a, a_label, p, b, b_label) != ends_reversed(
            b,
            b_label,
            p,
            a,
            a_label,
        ),
{
}

/// What a [`GraphBuilder`] stands for: the graph so far, and the id that each name,
/// in lower case, stands for.
pub struct BuilderV {
    pub graph: GraphV,
    pub by_name: Seq<(Seq<char>, Seq<char>)>,
    pub strategy: MergeStrategy,
}

/// Collects entities and relationships by name.
pub struct GraphBuilder {
    kg: KnowledgeGraph,
    by_name: Table<String>,
    strategy: MergeStrategy,
}

impl View for GraphBuilder {
    type V = BuilderV;

    closed spec fn view(&self) -> BuilderV {
        BuilderV { graph: self.kg@, by_name: self.by_name@, strategy: self.strategy }
    }
}

/// A builder with nothing in it.
pub open spec fn empty_builder(strategy: MergeStrategy) -> BuilderV {
    BuilderV { graph: crate::types::graph::empty_graph(), by_name: seq![], strategy }
}

/// An entity as it is given to a builder.
pub open spec fn given_entity(
    id: Seq<char>,
    name: Seq<char>,
    t: EntityType,
    raw_type: Option<Seq<char>>,
    description: Option<Seq<char>>,
    attributes: MetadataV,
) -> EntityV {
    EntityV {
        raw_type,
        description,
        metadata: attributes,
        ..crate::types::graph::plain_entity(id, name, t)
    }
}

/// The id that a name, in upper or lower case, stands for.
pub open spec fn id_named(b: BuilderV, name: Seq<char>) -> Option<Seq<char>> {
    table::lookup(b.by_name, text::lower(name))
}

/// The entity that a name, in upper or lower case, stands for.
pub open spec fn entity_named(b: BuilderV, name: Seq<char>) -> Option<EntityV> {
    match id_named(b, name) {
        Some(id) => table::lookup(b.graph.entities, id),
        None => None,
    }
}

/// The id of `e` as `b` with it in has it: the one that its name stands for already,
/// or the one made of its name.
pub open spec fn id_in(b: BuilderV, name: Seq<char>) -> Seq<char> {
    match id_named(b, name) {
        Some(id) => id,
        None => id_of_name(name),
    }
}

/// `b` with an entity in it: combined with the one that has its name, where there is
/// one.
pub open spec fn with_entity(
    b: BuilderV,
    name: Seq<char>,
    t: EntityType,
    raw_type: Option<Seq<char>>,
    description: Option<Seq<char>>,
    attributes: MetadataV,
) -> BuilderV {
    let id = id_in(b, name);
    let e = given_entity(id, name, t, raw_type, description, attributes);
    match id_named(b, name) {
        Some(_) => if b.strategy == MergeStrategy::KeepExisting {
            b
        } else {
            match table::lookup(b.graph.entities, id) {
                Some(known) => BuilderV {
                    graph: GraphV {
                        entities: table::put(
                            b.graph.entities,
                            id,
                            merger::combined(b.strategy, known, e, None),
                        ),
                        ..b.graph
                    },
                    ..b
                },
                None => b,
            }
        },
        None => BuilderV {
            graph: GraphV {
                entities: crate::types::graph::entity_added(b.graph.entities, e),
                ..b.graph
            },
            by_name: table::put(b.by_name, text::lower(name), id),
            ..b
        },
    }
}

/// A relationship between two entities in the right order.
pub open spec fn ordered_triple(s: EntityV, p: PredicateV, o: EntityV) -> TripleV {
    if reversed(s, p, o) {
        crate::types::graph::plain_triple(o, p, s)
    } else {
        crate::types::graph::plain_triple(s, p, o)
    }
}

/// `b` with a relationship in it, where both names stand for entities.
pub open spec fn with_relation(
    b: BuilderV,
    source: Seq<char>,
    p: PredicateV,
    target: Seq<char>,
    confidence: Option<crate::fraction::FractionV>,
    metadata: MetadataV,
) -> BuilderV {
    match (entity_named(b, source), entity_named(b, target)) {
        (Some(s), Some(o)) => BuilderV {
            graph: crate::types::graph::triple_added(
                b.graph,
                TripleV { confidence, metadata, ..ordered_triple(s, p, o) },
            ),
            ..b
        },
        _ => b,
    }
}

/// `b` with the value `v` under the name `k` on the entity that `name` stands for.
pub open spec fn with_attribute(
    b: BuilderV,
    name: Seq<char>,
    k: Seq<char>,
    v: JsonV,
) -> BuilderV {
    match (id_named(b, name), entity_named(b, name)) {
        (Some(id), Some(e)) => BuilderV {
            graph: GraphV {
                entities: table::put(
                    b.graph.entities,
                    id,
                    EntityV { metadata: table::put(e.metadata, k, v), ..e },
                ),
                ..b.graph
            },
            ..b
        },
        _ => b,
    }
}

impl GraphBuilder {
    /// Every name stands for an entity.
    #[verifier::type_invariant]
    spec fn wf(self) -> bool {
        names_stand(self@)
    }

    /// A builder with nothing in it, which keeps the first entity with a name.
    pub fn new() -> (r: GraphBuilder)
        ensures
            r@ == empty_builder(MergeStrategy::KeepExisting),
    {
        let kg = KnowledgeGraph::new();
        let by_name: Table<String> = Table::new();
        assert(by_name@ =~= seq![]);
        GraphBuilder { kg, by_name, strategy: MergeStrategy::KeepExisting }
    }

    /// The builder with another way to combine two entities with one name.
    pub fn merge_strategy(self, strategy: MergeStrategy) -> (r: GraphBuilder)
        ensures
            r@ == (BuilderV { strategy, ..self@ }),
    {
        proof {
            use_type_invariant(&self);
        }
        GraphBuilder { kg: self.kg, by_name: self.by_name, strategy }
    }

    /// Add an entity. Where an entity has that name already, in upper or lower case,
    /// the two are combined, and its id stays.
    pub fn add_entity_with_raw_type(
        &mut self,
        name: &str,
        entity_type: EntityType,
        raw_type: Option<String>,
        description: Option<String>,
        attributes: Metadata,
    ) -> (r: String)
        ensures
            r@ == id_in(old(self)@, name@),
            final(self)@ == with_entity(
                old(self)@,
                name@,
                entity_type,
                seqs::opt_view(raw_type),
                seqs::opt_view(description),
                attributes@,
            ),
    {
        proof {
            use_type_invariant(&*self);
            law_names_keep_standing(
                self@,
                name@,
                entity_type,
                seqs::opt_view(raw_type),
                seqs::opt_view(description),
                attributes@,
                name@,
            );
        }
        let mut taken = GraphBuilder::new();
        std::mem::swap(&mut taken, self);
        let GraphBuilder { mut kg, mut by_name, strategy } = taken;
        let key = text::to_lower(name);
        let known: Option<String> = match by_name.get(key.as_str()) {
            Some(id) => Some(id.clone()),
            None => None,
        };
        let id = match known {
            Some(id) => {
                if strategy != MergeStrategy::KeepExisting {
                    let mut incoming = Entity::new(id.as_str(), name, entity_type);
                    incoming.raw_type = raw_type;
                    incoming.description = description;
                    incoming.metadata = attributes;
                    let merged = match kg.entities.get(id.as_str()) {
                        Some(existing) => Some(
                            merger::combine_entities(strategy, existing, &incoming, None),
                        ),
                        None => None,
                    };
                    if let Some(e) = merged {
                        kg.entities.insert(id.clone(), e);
                    }
                }
                id
            },
            None => {
                let id = entity_id(name);
                let mut entity = Entity::new(id.as_str(), name, entity_type);
                entity.raw_type = raw_type;
                entity.description = description;
                entity.metadata = attributes;
                by_name.insert(key, id.clone());
                kg.add_entity(entity);
                id
            },
        };
        *self = GraphBuilder { kg, by_name, strategy };
        id
    }

    /// The entity that a name stands for.
    fn named(&self, name: &str) -> (r: Option<Entity>)
        ensures
            seqs::opt_view(r) == entity_named(self@, name@),
    {
        match self.by_name.get(text::to_lower(name).as_str()) {
            Some(id) => match self.kg.entities.get(id.as_str()) {
                Some(e) => Some(e.dup()),
                None => None,
            },
            None => None,
        }
    }

    /// Add a relationship between the entities that two names stand for, turned
    /// round where its ends are in the wrong order. Nothing is added, and `false`
    /// comes back, where one of the names was not given to the builder.
    pub fn add_relation(
        &mut self,
        source: &str,
        predicate: Predicate,
        target: &str,
        confidence: Option<Fraction>,
        metadata: Metadata,
    ) -> (r: bool)
        ensures
            r == (id_named(old(self)@, source@) is Some && id_named(old(self)@, target@) is Some),
            r == (entity_named(old(self)@, source@) is Some && entity_named(old(self)@, target@)
                is Some),
            final(self)@ == with_relation(
                old(self)@,
                source@,
                predicate@,
                target@,
                seqs::opt_view(confidence),
                metadata@,
            ),
    {
        proof {
            use_type_invariant(&*self);
            lemma_named_stand(self@, source@);
            lemma_named_stand(self@, target@);
            lemma_names_stay_related(
                self@,
                source@,
                predicate@,
                target@,
                seqs::opt_view(confidence),
                metadata@,
            );
        }
        let (s, o) = match (self.named(source), self.named(target)) {
            (Some(s), Some(o)) => (s, o),
            _ => {
                return false;
            },
        };
        let mut triple = if should_swap_passive_by(&s, &predicate, &o) {
            Triple::new(o, predicate, s)
        } else {
            Triple::new(s, predicate, o)
        };
        triple.confidence = confidence;
        triple.metadata = metadata;
        let mut taken = GraphBuilder::new();
        std::mem::swap(&mut taken, self);
        let GraphBuilder { mut kg, by_name, strategy } = taken;
        kg.add_triple(triple);
        *self = GraphBuilder { kg, by_name, strategy };
        true
    }

    /// Put a value on the entity that a name stands for. To add a relationship puts
    /// its ends back as they were found, so relationships come first.
    pub fn set_attribute(&mut self, name: &str, key: String, value: Json)
        ensures
            final(self)@ == with_attribute(old(self)@, name@, key@, value@),
    {
        proof {
            use_type_invariant(&*self);
            lemma_names_stay_noted(self@, name@, key@, value@);
        }
        let mut taken = GraphBuilder::new();
        std::mem::swap(&mut taken, self);
        let GraphBuilder { mut kg, by_name, strategy } = taken;
        if let Some(id) = by_name.get(text::to_lower(name).as_str()) {
            let known = match kg.entities.get(id.as_str()) {
                Some(e) => Some(e.dup()),
                None => None,
            };
            if let Some(e) = known {
                let mut e = e;
                e.metadata.insert(key, value);
                kg.entities.insert(id.clone(), e);
            }
        }
        *self = GraphBuilder { kg, by_name, strategy };
    }

    /// The graph.
    pub fn into_graph(self) -> (r: KnowledgeGraph)
        ensures
            r@ == self@.graph,
    {
        self.kg
    }
}

/// Every name stands for an entity.
pub open spec fn names_stand(b: BuilderV) -> bool {
    forall|n: Seq<char>| #[trigger]
        table::has_key(b.by_name, n) ==> table::has_key(
            b.graph.entities,
            table::lookup(b.by_name, n)->0,
        )
}

/// A name that stands for an id stands for an entity.
proof fn lemma_named_stand(b: BuilderV, name: Seq<char>)
    requires
        names_stand(b),
    ensures
        id_named(b, name) is Some <==> entity_named(b, name) is Some,
{
    if id_named(b, name) is Some {
        assert(table::has_key(b.by_name, text::lower(name)));
    }
}

/// Every name still stands for an entity after a relationship was added.
proof fn lemma_names_stay_related(
    b: BuilderV,
    source: Seq<char>,
    p: PredicateV,
    target: Seq<char>,
    confidence: Option<crate::fraction::FractionV>,
    metadata: MetadataV,
)
    requires
        names_stand(b),
    ensures
        names_stand(with_relation(b, source, p, target, confidence, metadata)),
{
    let after = with_relation(b, source, p, target, confidence, metadata);
    if let (Some(s), Some(o)) = (entity_named(b, source), entity_named(b, target)) {
        let u = TripleV { confidence, metadata, ..ordered_triple(s, p, o) };
        let two = crate::types::graph::entity_added(b.graph.entities, u.subject);
        assert forall|n: Seq<char>| #[trigger] table::has_key(after.by_name, n) implies table::has_key(
            after.graph.entities,
            table::lookup(after.by_name, n)->0,
        ) by {
            assert(table::has_key(b.by_name, n));
            let x = table::lookup(b.by_name, n)->0;
            table::lemma_lookup_put(
                b.graph.entities,
                u.subject.id,
                crate::types::graph::with_known_citations(b.graph.entities, u.subject),
                x,
            );
            table::lemma_lookup_put(
                two,
                u.object.id,
                crate::types::graph::with_known_citations(two, u.object),
                x,
            );
        }
    }
}

/// Every name still stands for an entity after a value was put on one.
proof fn lemma_names_stay_noted(b: BuilderV, name: Seq<char>, k: Seq<char>, v: JsonV)
    requires
        names_stand(b),
    ensures
        names_stand(with_attribute(b, name, k, v)),
{
    let after = with_attribute(b, name, k, v);
    if let (Some(id), Some(e)) = (id_named(b, name), entity_named(b, name)) {
        assert forall|n: Seq<char>| #[trigger] table::has_key(after.by_name, n) implies table::has_key(
            after.graph.entities,
            table::lookup(after.by_name, n)->0,
        ) by {
            assert(table::has_key(b.by_name, n));
            table::lemma_lookup_put(
                b.graph.entities,
                id,
                EntityV { metadata: table::put(e.metadata, k, v), ..e },
                table::lookup(b.by_name, n)->0,
            );
        }
    }
}

/// A name that was given to a builder stands for an entity from then on, and a name
/// that stood for an entity still does, under the same id.
pub proof fn law_names_keep_standing(
    b: BuilderV,
    name: Seq<char>,
    t: EntityType,
    raw_type: Option<Seq<char>>,
    description: Option<Seq<char>>,
    attributes: MetadataV,
    other: Seq<char>,
)
    requires
        names_stand(b),
    ensures
        ({
            let after = with_entity(b, name, t, raw_type, description, attributes);
            &&& names_stand(after)
            &&& entity_named(after, name) is Some
            &&& id_named(b, other) is Some ==> id_named(after, other) == id_named(b, other)
        }),
{
    let after = with_entity(b, name, t, raw_type, description, attributes);
    let id = id_in(b, name);
    let e = given_entity(id, name, t, raw_type, description, attributes);
    match id_named(b, name) {
        Some(_) => {
            assert(table::has_key(b.by_name, text::lower(name)));
            assert(table::has_key(b.graph.entities, id));
            assert forall|x: Seq<char>| table::has_key(b.graph.entities, x)
                implies #[trigger] table::has_key(after.graph.entities, x) by {
                if b.strategy != MergeStrategy::KeepExisting {
                    match table::lookup(b.graph.entities, id) {
                        Some(known) => {
                            table::lemma_lookup_put(
                                b.graph.entities,
                                id,
                                merger::combined(b.strategy, known, e, None),
                                x,
                            );
                        },
                        None => {},
                    }
                }
            }
            assert(table::has_key(after.graph.entities, id));
        },
        None => {
            let kept = crate::types::graph::with_known_citations(b.graph.entities, e);
            assert forall|x: Seq<char>| (table::has_key(b.graph.entities, x) || x == id)
                implies #[trigger] table::has_key(after.graph.entities, x) by {
                table::lemma_lookup_put(b.graph.entities, id, kept, x);
            }
            assert forall|n: Seq<char>| #[trigger]
                table::has_key(after.by_name, n) implies table::has_key(
                after.graph.entities,
                table::lookup(after.by_name, n)->0,
            ) by {
                table::lemma_lookup_put(b.by_name, text::lower(name), id, n);
                if n != text::lower(name) {
                    assert(table::has_key(b.by_name, n));
                }
            }
            table::lemma_lookup_put(b.by_name, text::lower(name), id, text::lower(name));
            table::lemma_lookup_put(b.by_name, text::lower(name), id, text::lower(other));
            assert(table::has_key(after.graph.entities, id));
        },
    }
}

/// Both ends of every relationship are entities of the graph.
pub open spec fn ends_stand(g: GraphV) -> bool {
    forall|i: int|
        0 <= i < g.triples.len() ==> table::has_key(
            g.entities,
            (#[trigger] g.triples[i]).subject.id,
        ) && table::has_key(g.entities, g.triples[i].object.id)
}

/// Where entities are only added, the ends of relationships stay entities.
proof fn lemma_ends_stay(g: GraphV, h: GraphV)
    requires
        ends_stand(g),
        h.triples == g.triples,
        forall|x: Seq<char>| table::has_key(g.entities, x) ==> #[trigger] table::has_key(
            h.entities,
            x,
        ),
    ensures
        ends_stand(h),
{
    assert forall|i: int| 0 <= i < h.triples.len() implies table::has_key(
        h.entities,
        (#[trigger] h.triples[i]).subject.id,
    ) && table::has_key(h.entities, h.triples[i].object.id) by {
        assert(table::has_key(g.entities, g.triples[i].subject.id));
        assert(table::has_key(g.entities, g.triples[i].object.id));
    }
}

/// Whatever is given to a builder, no relationship is left without an entity at either
/// end.
pub proof fn law_relationships_join_entities(
    b: BuilderV,
    name: Seq<char>,
    t: EntityType,
    raw_type: Option<Seq<char>>,
    description: Option<Seq<char>>,
    attributes: MetadataV,
    source: Seq<char>,
    p: PredicateV,
    target: Seq<char>,
    confidence: Option<crate::fraction::FractionV>,
    metadata: MetadataV,
    k: Seq<char>,
    v: JsonV,
)
    requires
        ends_stand(b.graph),
    ensures
        ends_stand(with_entity(b, name, t, raw_type, description, attributes).graph),
        ends_stand(with_relation(b, source, p, target, confidence, metadata).graph),
        ends_stand(with_attribute(b, name, k, v).graph),
        ends_stand(crate::types::graph::empty_graph()),
{
    let id = id_in(b, name);
    let e = given_entity(id, name, t, raw_type, description, attributes);
    let one = with_entity(b, name, t, raw_type, description, attributes).graph;
    assert forall|x: Seq<char>| table::has_key(b.graph.entities, x) implies #[trigger]
        table::has_key(one.entities, x) by {
        table::lemma_lookup_put(
            b.graph.entities,
            id,
            crate::types::graph::with_known_citations(b.graph.entities, e),
            x,
        );
        if let Some(known) = table::lookup(b.graph.entities, id) {
            table::lemma_lookup_put(
                b.graph.entities,
                id,
                merger::combined(b.strategy, known, e, None),
                x,
            );
        }
    }
    lemma_ends_stay(b.graph, one);
    let noted = with_attribute(b, name, k, v).graph;
    assert forall|x: Seq<char>| table::has_key(b.graph.entities, x) implies #[trigger]
        table::has_key(noted.entities, x) by {
        if let (Some(i), Some(n)) = (id_named(b, name), entity_named(b, name)) {
            table::lemma_lookup_put(
                b.graph.entities,
                i,
                EntityV { metadata: table::put(n.metadata, k, v), ..n },
                x,
            );
        }
    }
    lemma_ends_stay(b.graph, noted);
    if let (Some(s), Some(o)) = (entity_named(b, source), entity_named(b, target)) {
        let u = TripleV { confidence, metadata, ..ordered_triple(s, p, o) };
        let two = crate::types::graph::entity_added(b.graph.entities, u.subject);
        let three = crate::types::graph::entity_added(two, u.object);
        assert forall|x: Seq<char>|
            table::has_key(b.graph.entities, x) || x == u.subject.id || x
                == u.object.id implies #[trigger] table::has_key(three, x) by {
            table::lemma_lookup_put(
                b.graph.entities,
                u.subject.id,
                crate::types::graph::with_known_citations(b.graph.entities, u.subject),
                x,
            );
            table::lemma_lookup_put(
                two,
                u.object.id,
                crate::types::graph::with_known_citations(two, u.object),
                x,
            );
        }
        let related = with_relation(b, source, p, target, confidence, metadata).graph;
        assert(related.entities == three);
        assert forall|i: int| 0 <= i < related.triples.len() implies table::has_key(
            related.entities,
            (#[trigger] related.triples[i]).subject.id,
        ) && table::has_key(related.entities, related.triples[i].object.id) by {
            if i < b.graph.triples.len() {
                assert(related.triples[i] == b.graph.triples[i]);
                assert(table::has_key(b.graph.entities, b.graph.triples[i].subject.id));
                assert(table::has_key(b.graph.entities, b.graph.triples[i].object.id));
            } else {
                assert(related.triples[i] == u);
            }
        }
    }
}

/// `t` runs from `s` to `o`, but where its predicate says by whom or what something is
/// done and the one that does it was written first: an actor before what does not act,
/// or the evidence before the claim.
pub open spec fn runs_from(t: TripleV, s: EntityV, o: EntityV) -> bool {
    &&& t.subject == s && t.object == o || t.subject == o && t.object == s
    &&& !is_passive(t.predicate.predicate_type) ==> t.subject == s && t.object == o
    &&& t.predicate.predicate_type != PredicateType::EvidencedBy && !is_actor(s.entity_type)
        ==> t.subject == s && t.object == o
    &&& t.predicate.predicate_type != PredicateType::EvidencedBy && is_actor(o.entity_type)
        ==> t.subject == s && t.object == o
    &&& is_passive(t.predicate.predicate_type) && is_actor(s.entity_type) && !is_actor(
        o.entity_type,
    ) ==> t.subject == o && t.object == s
}

/// A relationship between two names that stand for entities is added behind those that
/// are there, with all that is said of it, and runs from the entity with the first name to
/// the one with the second. Where a name stands for nothing, nothing changes.
pub proof fn law_relations_run_from_source_to_target(
    b: BuilderV,
    source: Seq<char>,
    p: PredicateV,
    target: Seq<char>,
    confidence: Option<crate::fraction::FractionV>,
    metadata: MetadataV,
)
    ensures
        ({
            let after = with_relation(b, source, p, target, confidence, metadata);
            let from = table::lookup(b.by_name, text::lower(source));
            let to = table::lookup(b.by_name, text::lower(target));
            if from is Some && to is Some && table::has_key(b.graph.entities, from->0)
                && table::has_key(b.graph.entities, to->0) {
                let t = after.graph.triples.last();
                &&& after.graph.triples.len() == b.graph.triples.len() + 1
                &&& after.graph.triples.drop_last() == b.graph.triples
                &&& t.predicate == p
                &&& t.confidence == confidence
                &&& t.metadata == metadata
                &&& runs_from(
                    t,
                    table::lookup(b.graph.entities, from->0)->0,
                    table::lookup(b.graph.entities, to->0)->0,
                )
                &&& after.by_name == b.by_name
            } else {
                after == b
            }
        }),
{
    let after = with_relation(b, source, p, target, confidence, metadata);
    if after != b {
        assert(after.graph.triples.drop_last() =~= b.graph.triples);
    }
    if let (Some(s), Some(o)) = (entity_named(b, source), entity_named(b, target)) {
        assert(after.graph.triples.drop_last() =~= b.graph.triples);
    }
}

/// An entity with a new name is there from then on, with all that is said of it, under the
/// id that its name makes; every other entity stays as it is. Where the name is known, the
/// first record keeps its place: it stays as it is where existing records are kept, and
/// says no less where fields are combined.
pub proof fn law_entities_are_added(
    b: BuilderV,
    name: Seq<char>,
    t: EntityType,
    raw_type: Option<Seq<char>>,
    description: Option<Seq<char>>,
    attributes: MetadataV,
    other: Seq<char>,
)
    requires
        names_stand(b),
    ensures
        ({
            let after = with_entity(b, name, t, raw_type, description, attributes);
            match table::lookup(b.by_name, text::lower(name)) {
                None => {
                    let id = id_of_name(name);
                    let e = table::lookup(after.graph.entities, id)->0;
                    &&& table::has_key(after.graph.entities, id)
                    &&& table::lookup(after.by_name, text::lower(name)) == Some(id)
                    &&& e.id == id && e.label == name && e.entity_type == t
                    &&& e.raw_type == raw_type && e.description == description
                    &&& !table::has_key(b.graph.entities, id) ==> e.metadata == attributes
                    &&& other != id ==> table::lookup(after.graph.entities, other)
                        == table::lookup(b.graph.entities, other)
                },
                Some(id) => {
                    let known = table::lookup(b.graph.entities, id)->0;
                    let e = table::lookup(after.graph.entities, id)->0;
                    &&& table::has_key(after.graph.entities, id)
                    &&& after.by_name == b.by_name
                    &&& other != id ==> table::lookup(after.graph.entities, other)
                        == table::lookup(b.graph.entities, other)
                    &&& b.strategy == MergeStrategy::KeepExisting ==> after == b
                    &&& b.strategy == MergeStrategy::KeepIncoming ==> e.label == name
                        && e.entity_type == t && e.raw_type == raw_type && e.description
                        == description
                    &&& b.strategy == MergeStrategy::FieldUnion ==> e.label == known.label
                        && merger::says_no_less(e.description, known.description)
                        && merger::says_no_less(e.description, description)
                },
            }
        }),
        with_entity(b, name, t, raw_type, description, attributes).graph.triples
            == b.graph.triples,
{
    let after = with_entity(b, name, t, raw_type, description, attributes);
    let id = id_in(b, name);
    let e = given_entity(id, name, t, raw_type, description, attributes);
    match table::lookup(b.by_name, text::lower(name)) {
        None => {
            let kept = crate::types::graph::with_known_citations(b.graph.entities, e);
            table::lemma_lookup_put(b.graph.entities, id, kept, other);
            table::lemma_lookup_put(b.graph.entities, id, kept, id);
            table::lemma_lookup_put(b.by_name, text::lower(name), id, text::lower(name));
        },
        Some(_) => {
            assert(table::has_key(b.by_name, text::lower(name)));
            let known = table::lookup(b.graph.entities, id)->0;
            let made = merger::combined(b.strategy, known, e, None);
            table::lemma_lookup_put(b.graph.entities, id, made, other);
            table::lemma_lookup_put(b.graph.entities, id, made, id);
        },
    }
}

/// A value that is put on an entity stands there under its name, and nothing else of the
/// graph changes: no other value of the entity, no other entity and no relationship.
pub proof fn law_attributes_are_set(
    b: BuilderV,
    name: Seq<char>,
    k: Seq<char>,
    v: JsonV,
    other: Seq<char>,
    x: Seq<char>,
)
    requires
        names_stand(b),
        table::has_key(b.by_name, text::lower(name)),
    ensures
        ({
            let id = table::lookup(b.by_name, text::lower(name))->0;
            let after = with_attribute(b, name, k, v);
            let known = table::lookup(b.graph.entities, id)->0;
            let e = table::lookup(after.graph.entities, id)->0;
            &&& table::has_key(after.graph.entities, id)
            &&& table::lookup(e.metadata, k) == Some(v)
            &&& x != k ==> table::lookup(e.metadata, x) == table::lookup(known.metadata, x)
            &&& e.label == known.label && e.entity_type == known.entity_type
            &&& e.description == known.description
            &&& other != id ==> table::lookup(after.graph.entities, other) == table::lookup(
                b.graph.entities,
                other,
            )
            &&& after.graph.triples == b.graph.triples
            &&& after.by_name == b.by_name
        }),
{
    let id = table::lookup(b.by_name, text::lower(name))->0;
    let e = table::lookup(b.graph.entities, id)->0;
    let made = EntityV { metadata: table::put(e.metadata, k, v), ..e };
    table::lemma_lookup_put(e.metadata, k, v, x);
    table::lemma_lookup_put(b.graph.entities, id, made, other);
    table::lemma_lookup_put(b.graph.entities, id, made, id);
}

/// Two names that are the same in lower case are one name.
pub proof fn law_case_does_not_matter(b: BuilderV, x: Seq<char>, y: Seq<char>)
    requires
        text::lower(x) == text::lower(y),
        id_named(b, x) is Some,
    ensures
        id_in(b, x) == id_in(b, y),
        entity_named(b, x) == entity_named(b, y),
{
}

} // verus!
