//! The operations of the store.

use vstd::prelude::*;

use crate::fraction::{Fraction, FractionV};
use crate::json::{Json, JsonV, ObjectBuilder};
use crate::mcp::policy::{PolicyV, SchemaKind, SchemaPolicy};
use crate::mcp::source::{CitedSource, SourceV};
use crate::mcp::{path, policy, query, source};
use crate::table::{Dup, Table};
use crate::types::graph::{
    Entity, EntityV, GraphV, KnowledgeGraph, Metadata, MetadataV, Triple, TripleV,
};
use crate::types::spec::SchemaMode;
use crate::types::vocab::EntityType;
use crate::{citation, fraction, graph_build, json, number, parser, seqs, table, text, types};

verus! {

broadcast use {crate::seqs::group_views, crate::json::group_json};

/// The entity `id` after it was stored once more, or for the first time.
pub open spec fn stored_entity(
    es: Seq<(Seq<char>, EntityV)>,
    id: Seq<char>,
    name: Seq<char>,
    t: EntityType,
    description: Option<Seq<char>>,
    attributes: MetadataV,
) -> EntityV {
    match table::lookup(es, id) {
        Some(e) => EntityV {
            entity_type: t,
            description: match description {
                Some(d) => Some(d),
                None => e.description,
            },
            metadata: table::put_all(e.metadata, attributes),
            ..e
        },
        None => graph_build::given_entity(id, name, t, None, description, attributes),
    }
}

/// What storing an entity does to a graph and what is answered, or why it is not
/// stored.
pub open spec fn entity_outcome(
    p: PolicyV,
    g: GraphV,
    rel: Seq<char>,
    name: Seq<char>,
    type_str: Seq<char>,
    description: Option<Seq<char>>,
    attributes: MetadataV,
    source: Option<(SourceV, Option<usize>)>,
) -> Result<(GraphV, Seq<char>), Seq<char>> {
    let n = text::trimmed(name);
    if n.len() == 0 {
        Err("name must not be empty"@)
    } else {
        match (source::cited_objection(source), policy::objection(p, g.metadata, rel, SchemaKind::Node, type_str)) {
            (Some(e), _) => Err(e),
            (None, Some(e)) => Err(e),
            (None, None) => {
                let id = graph_build::id_of_name(n);
                let e = stored_entity(
                    g.entities,
                    id,
                    n,
                    graph_build::entity_type_of(type_str),
                    description,
                    attributes,
                );
                Ok(
                    (
                        GraphV {
                            entities: table::put(
                                g.entities,
                                id,
                                EntityV { metadata: source::with_source(e.metadata, source), ..e },
                            ),
                            metadata: policy::noted(p, g.metadata),
                            ..g
                        },
                        "entity '"@ + n + "' stored"@,
                    ),
                )
            },
        }
    }
}

/// How sure a relationship is said to be: a number, brought between zero and one, or
/// eight tenths where none is given.
pub open spec fn strength_of(s: Option<Seq<char>>) -> FractionV {
    match s {
        Some(t) => match number::number_in(t) {
            Some(n) => fraction::clamped(n),
            None => fraction::eight_tenths(),
        },
        None => fraction::eight_tenths(),
    }
}

/// Names in quotes, with `and` between them.
pub open spec fn quoted(ns: Seq<Seq<char>>) -> Seq<char> {
    text::joined(Seq::new(ns.len(), |i: int| "'"@ + ns[i] + "'"@), " and "@)
}

/// The ends of a relationship that are not there.
pub open spec fn missing(
    es: Seq<(Seq<char>, EntityV)>,
    source: Seq<char>,
    target: Seq<char>,
) -> Seq<Seq<char>> {
    let first = if table::has_key(es, graph_build::id_of_name(source)) {
        Seq::<Seq<char>>::empty()
    } else {
        seq![source]
    };
    if !table::has_key(es, graph_build::id_of_name(target)) && target != source {
        first.push(target)
    } else {
        first
    }
}

/// What is answered where the ends of a relationship are missing.
pub open spec fn missing_text(
    es: Seq<(Seq<char>, EntityV)>,
    rel: Seq<char>,
    ns: Seq<Seq<char>>,
) -> Seq<char> {
    "entity "@ + quoted(ns) + " not found in graph '"@ + rel + "'. Call add_entity for "@
        + quoted(ns) + " first (same path='"@ + rel
        + "'), then retry add_relation. Known entities: "@ + query::known(es)
}

/// A relationship as it is stored.
pub open spec fn stored_triple(
    s: EntityV,
    predicate: Seq<char>,
    o: EntityV,
    description: Option<Seq<char>>,
    strength: Option<Seq<char>>,
    source: Option<(SourceV, Option<usize>)>,
) -> TripleV {
    let described = match description {
        Some(d) => seq![("description"@, JsonV::Text(d))],
        None => seq![],
    };
    TripleV {
        confidence: Some(strength_of(strength)),
        metadata: source::with_source(described, source),
        ..types::graph::plain_triple(s, graph_build::predicate_of(predicate), o)
    }
}

/// What is said of a relationship.
pub open spec fn relation_text(
    source: Seq<char>,
    predicate: Seq<char>,
    target: Seq<char>,
    what: Seq<char>,
) -> Seq<char> {
    "relation '"@ + source + "' -"@ + predicate + "-> '"@ + target + "' "@ + what
}

/// The relationships `ts` with the source cited by the first that is the same one as
/// `t`.
pub open spec fn with_source_at(
    ts: Seq<TripleV>,
    t: TripleV,
    source: Option<(SourceV, Option<usize>)>,
) -> Seq<TripleV> {
    match crate::merger::first_same(ts, t, 0) {
        Some(i) => ts.update(
            i,
            TripleV { metadata: source::with_source(ts[i].metadata, source), ..ts[i] },
        ),
        None => ts,
    }
}

/// What storing a relationship does to a graph and what is answered, or why it is
/// not stored. Both its ends must be there; one that is there already is not stored
/// again.
pub open spec fn relation_outcome(
    p: PolicyV,
    g: GraphV,
    rel: Seq<char>,
    source: Seq<char>,
    predicate: Seq<char>,
    target: Seq<char>,
    description: Option<Seq<char>>,
    strength: Option<Seq<char>>,
    cited: Option<(SourceV, Option<usize>)>,
) -> Result<(GraphV, Seq<char>), Seq<char>> {
    let s = text::trimmed(source);
    let t = text::trimmed(target);
    let w = text::trimmed(predicate);
    let ns = missing(g.entities, s, t);
    if s.len() == 0 || t.len() == 0 || w.len() == 0 {
        Err("source, predicate and target are required"@)
    } else {
        match (source::cited_objection(cited), policy::objection(p, g.metadata, rel, SchemaKind::Relation, w)) {
            (Some(e), _) => Err(e),
            (None, Some(e)) => Err(e),
            (None, None) => if ns.len() > 0 {
                Err(missing_text(g.entities, rel, ns))
            } else {
                let u = stored_triple(
                    table::lookup(g.entities, graph_build::id_of_name(s))->0,
                    w,
                    table::lookup(g.entities, graph_build::id_of_name(t))->0,
                    description,
                    strength,
                    cited,
                );
                let after = GraphV { metadata: policy::noted(p, g.metadata), ..g };
                if types::graph::has_triple(g.triples, u) {
                    Ok(
                        (
                            GraphV { triples: with_source_at(g.triples, u, cited), ..after },
                            relation_text(s, w, t, "already present"@),
                        ),
                    )
                } else {
                    Ok(
                        (
                            types::graph::triple_added(after, u),
                            relation_text(s, w, t, "stored"@),
                        ),
                    )
                }
            },
        }
    }
}

/// What putting a value on an entity does to a graph and what is answered, or why it
/// is not put there.
pub open spec fn attribute_outcome(
    p: PolicyV,
    g: GraphV,
    rel: Seq<char>,
    entity: Seq<char>,
    key: Seq<char>,
    value: JsonV,
) -> Result<(GraphV, Seq<char>), Seq<char>> {
    let n = text::trimmed(entity);
    let k = text::trimmed(key);
    let id = graph_build::id_of_name(n);
    if n.len() == 0 || k.len() == 0 {
        Err("entity and key are required"@)
    } else {
        match (
            policy::objection(p, g.metadata, rel, SchemaKind::Attribute, k),
            table::lookup(g.entities, id),
        ) {
            (Some(e), _) => Err(e),
            (None, None) => Err(
                "entity '"@ + n + "' not found in graph '"@ + rel
                    + "'. Call add_entity(path='"@ + rel + "', name='"@ + n
                    + "', …) first, then retry add_attribute. Known entities: "@ + query::known(
                    g.entities,
                ),
            ),
            (None, Some(e)) => Ok(
                (
                    GraphV {
                        entities: table::put(
                            g.entities,
                            id,
                            EntityV { metadata: table::put(e.metadata, k, value), ..e },
                        ),
                        metadata: policy::noted(p, g.metadata),
                        ..g
                    },
                    "attribute '"@ + k + "' set on '"@ + n + "'"@,
                ),
            ),
        }
    }
}

/// The proposals `l` of a kind, with `value` among them where it is of the kind `k`
/// and not there yet.
pub open spec fn extended(
    kind: SchemaKind,
    k: SchemaKind,
    l: Seq<Seq<char>>,
    value: Seq<char>,
) -> Seq<Seq<char>> {
    if kind == k && !policy::named_in(k, l, value) {
        l.push(value)
    } else {
        l
    }
}

/// The proposals of a graph, with `value` among those of the kind `k`.
pub open spec fn with_proposal(m: MetadataV, k: SchemaKind, value: Seq<char>) -> JsonV {
    let nodes = policy::proposed(m, SchemaKind::Node);
    let relations = policy::proposed(m, SchemaKind::Relation);
    let attributes = policy::proposed(m, SchemaKind::Attribute);
    JsonV::Object(
        seq![
            ("nodes"@, json::texts(extended(SchemaKind::Node, k, nodes, value))),
            ("relations"@, json::texts(extended(SchemaKind::Relation, k, relations, value))),
            ("attributes"@, json::texts(extended(SchemaKind::Attribute, k, attributes, value))),
        ],
    )
}

/// The name under which the reasons for proposals stand among the values of a graph.
pub const REASONS_KEY: &'static str = "schema_proposal_reasons";

/// The reasons for proposals.
pub open spec fn reasons(m: MetadataV) -> MetadataV {
    match table::lookup(m, REASONS_KEY@) {
        Some(JsonV::Object(o)) => table::put_all(seq![], o),
        _ => seq![],
    }
}

/// What a proposal does to a graph and what is answered, or why it is not taken.
pub open spec fn proposal_outcome(
    p: PolicyV,
    g: GraphV,
    kind: Seq<char>,
    value: Seq<char>,
    reason: Option<Seq<char>>,
) -> Result<(GraphV, Seq<char>), Seq<char>> {
    let v = text::trimmed(value);
    if p.mode != SchemaMode::Evolving {
        Err("propose_schema_type is only available in evolving schema mode"@)
    } else {
        match policy::kind_named(text::trimmed(kind)) {
            None => Err(
                "unknown kind '"@ + text::trimmed(kind)
                    + "'. Valid kinds: node, relation, attribute."@,
            ),
            Some(k) => if v.len() == 0 {
                Err("value must not be empty"@)
            } else {
                let m = table::put(g.metadata, policy::PROPOSALS_KEY@, with_proposal(g.metadata, k, v));
                let explained = match reason {
                    Some(w) => table::put(
                        m,
                        REASONS_KEY@,
                        JsonV::Object(table::put(reasons(m), v, JsonV::Text(w))),
                    ),
                    None => m,
                };
                Ok(
                    (
                        GraphV { metadata: policy::noted(p, explained), ..g },
                        "schema "@ + policy::kind_name(k) + " '"@ + v + "' proposed"@,
                    ),
                )
            },
        }
    }
}

/// What an operation promises: it changes the graph as `outcome` says and answers
/// with its message, or leaves the graph as it is and says why.
pub open spec fn carried_out(
    outcome: Result<(GraphV, Seq<char>), Seq<char>>,
    before: GraphV,
    after: GraphV,
    r: Result<String, String>,
) -> bool {
    match r {
        Ok(m) => outcome == Ok::<(GraphV, Seq<char>), Seq<char>>((after, m@)),
        Err(e) => outcome == Err::<(GraphV, Seq<char>), Seq<char>>(e@) && after == before,
    }
}

/// A directory of graphs, and what may be stored in them.
pub struct KgStore {
    output: String,
    policy: SchemaPolicy,
}

impl View for KgStore {
    type V = (Seq<char>, PolicyV);

    closed spec fn view(&self) -> (Seq<char>, PolicyV) {
        (self.output@, self.policy@)
    }
}

/// How sure a relationship is said to be.
pub fn strength(s: Option<&str>) -> (r: Fraction)
    ensures
        r@ == strength_of(query::str_view(s)),
{
    match s {
        Some(t) => match Fraction::clamp(&text::chars_of(t)) {
            Some(f) => f,
            None => Fraction::eight_tenths(),
        },
        None => Fraction::eight_tenths(),
    }
}

/// Names in quotes, with `and` between them.
fn quote(ns: &Vec<String>) -> (r: String)
    ensures
        r@ == quoted(seqs::views(ns@)),
{
    let ghost all = Seq::new(ns@.len(), |i: int| "'"@ + seqs::views(ns@)[i] + "'"@);
    let mut out: Vec<String> = Vec::new();
    let mut i: usize = 0;
    while i < ns.len()
        invariant
            i <= ns@.len(),
            all == Seq::new(ns@.len(), |i: int| "'"@ + seqs::views(ns@)[i] + "'"@),
            seqs::views(out@) =~= all.take(i as int),
        decreases ns.len() - i,
    {
        let mut q = text::concat2("'", ns[i].as_str());
        q.append("'");
        assert(q@ == all[i as int]);
        out.push(q);
        i += 1;
    }
    assert(seqs::views(out@) =~= all);
    assert(all =~= Seq::new(seqs::views(ns@).len(), |i: int| "'"@ + seqs::views(ns@)[i] + "'"@));
    text::join(&out, " and ")
}

/// Put each of the values `more` among the values `m`.
fn put_values(m: &mut Metadata, more: &Metadata)
    ensures
        final(m)@ == table::put_all(old(m)@, more@),
{
    let n: usize = more.len();
    let mut i: usize = 0;
    while i < n
        invariant
            i <= n,
            n == more@.len(),
            m@ == table::put_all(old(m)@, more@.take(i as int)),
        decreases n - i,
    {
        assert(more@.take(i + 1).drop_last() =~= more@.take(i as int));
        m.insert(more.key_at(i).clone(), more.value_at(i).dup());
        i += 1;
    }
    assert(more@.take(i as int) =~= more@);
}

/// Cite the source that is to be cited.
fn cite(m: &mut Metadata, cited: Option<&CitedSource>)
    ensures
        final(m)@ == source::with_source(old(m)@, source::cited_view(cited)),
{
    if let Some(c) = cited {
        citation::attach_citation(m, &c.citation.to_citation());
    }
}

/// Why what is to be cited cannot be; nothing where it can or where nothing is.
fn check_cited(cited: Option<&CitedSource>) -> (r: Option<String>)
    ensures
        seqs::opt_view(r) == source::cited_objection(source::cited_view(cited)),
{
    match cited {
        Some(c) => c.citation.check(c.lines),
        None => None,
    }
}

/// Store the entity `id`.
pub fn store_entity(
    kg: &mut KnowledgeGraph,
    id: &str,
    name: &str,
    t: EntityType,
    description: Option<String>,
    attributes: Metadata,
    cited: Option<&CitedSource>,
)
    ensures
        final(kg)@ == (GraphV {
            entities: table::put(
                old(kg)@.entities,
                id@,
                ({
                    let e = stored_entity(
                        old(kg)@.entities,
                        id@,
                        name@,
                        t,
                        seqs::opt_view(description),
                        attributes@,
                    );
                    EntityV {
                        metadata: source::with_source(e.metadata, source::cited_view(cited)),
                        ..e
                    }
                }),
            ),
            ..old(kg)@
        }),
{
    let known = match kg.entities.get(id) {
        Some(e) => Some(e.dup()),
        None => None,
    };
    let mut e = match known {
        Some(e) => {
            let mut e = e;
            e.entity_type = t;
            if description.is_some() {
                e.description = description;
            }
            put_values(&mut e.metadata, &attributes);
            e
        },
        None => {
            let mut e = Entity::new(id, name, t);
            e.description = description;
            e.metadata = attributes;
            e
        },
    };
    cite(&mut e.metadata, cited);
    kg.entities.insert(id.to_owned(), e);
}

impl KgStore {
    /// A store in the directory `output`, in which anything may be stored.
    pub fn new(output: &str) -> (r: KgStore)
        ensures
            r@.0 == output@,
            r@.1.mode == SchemaMode::Open,
            r@.1.schema == types::spec::empty_schema(),
    {
        KgStore { output: output.to_owned(), policy: SchemaPolicy::open() }
    }

    /// A store in the directory `output`, in which what `policy` allows may be
    /// stored.
    pub fn with_policy(output: &str, policy: SchemaPolicy) -> (r: KgStore)
        ensures
            r@ == (output@, policy@),
    {
        KgStore { output: output.to_owned(), policy }
    }

    /// The directory.
    pub fn output_dir(&self) -> (r: &str)
        ensures
            r@ == self@.0,
    {
        self.output.as_str()
    }

    /// Where the file of the graph `rel` lies: see [`path::resolved`].
    pub fn resolve(&self, rel: &str) -> (r: Result<String, String>)
        ensures
            match (r, path::resolved(rel@)) {
                (Ok(p), Ok(cs)) => p@ == path::path_below(self@.0, cs),
                (Err(e), Err(w)) => e@ == w,
                _ => false,
            },
    {
        match path::resolve_components(rel) {
            Ok(cs) => {
                let below = text::join(&cs, "/");
                let v = text::chars_of(self.output.as_str());
                if v.len() == 0 {
                    Ok(below)
                } else if v[v.len() - 1] == '/' {
                    Ok(text::concat2(self.output.as_str(), below.as_str()))
                } else {
                    let mut p = text::concat2(self.output.as_str(), "/");
                    p.append(below.as_str());
                    Ok(p)
                }
            },
            Err(e) => Err(e),
        }
    }

    /// Store an entity and the source that it was taken from. An entity with that
    /// name is changed, and no second one is made.
    pub fn add_entity_with_citation(
        &self,
        kg: &mut KnowledgeGraph,
        rel: &str,
        name: &str,
        type_str: &str,
        description: Option<String>,
        attributes: Metadata,
        cited: Option<&CitedSource>,
    ) -> (r: Result<String, String>)
        ensures
            carried_out(
                entity_outcome(
                    self@.1,
                    old(kg)@,
                    rel@,
                    name@,
                    type_str@,
                    seqs::opt_view(description),
                    attributes@,
                    source::cited_view(cited),
                ),
                old(kg)@,
                final(kg)@,
                r,
            ),
    {
        let n = text::trim(name);
        if n.as_str().is_empty() {
            return Err("name must not be empty".to_owned());
        }
        if let Some(e) = check_cited(cited) {
            return Err(e);
        }
        if let Some(e) = self.policy.check(&kg.metadata, rel, SchemaKind::Node, type_str) {
            return Err(e);
        }
        let id = graph_build::entity_id(n.as_str());
        let t = graph_build::parse_entity_type(type_str);
        store_entity(kg, id.as_str(), n.as_str(), t, description, attributes, cited);
        self.policy.note(&mut kg.metadata);
        let mut m = text::concat2("entity '", n.as_str());
        m.append("' stored");
        Ok(m)
    }

    /// Store an entity: see [`KgStore::add_entity_with_citation`].
    pub fn add_entity(
        &self,
        kg: &mut KnowledgeGraph,
        rel: &str,
        name: &str,
        type_str: &str,
        description: Option<String>,
        attributes: Metadata,
    ) -> (r: Result<String, String>)
        ensures
            carried_out(
                entity_outcome(
                    self@.1,
                    old(kg)@,
                    rel@,
                    name@,
                    type_str@,
                    seqs::opt_view(description),
                    attributes@,
                    None,
                ),
                old(kg)@,
                final(kg)@,
                r,
            ),
    {
        self.add_entity_with_citation(kg, rel, name, type_str, description, attributes, None)
    }

    /// Store a relationship between two entities that are there, and the source that
    /// it was taken from. One that is there already is not stored again.
    pub fn add_relation_with_citation(
        &self,
        kg: &mut KnowledgeGraph,
        rel: &str,
        source: &str,
        predicate: &str,
        target: &str,
        description: Option<String>,
        strength_text: Option<&str>,
        cited: Option<&CitedSource>,
    ) -> (r: Result<String, String>)
        ensures
            carried_out(
                relation_outcome(
                    self@.1,
                    old(kg)@,
                    rel@,
                    source@,
                    predicate@,
                    target@,
                    seqs::opt_view(description),
                    query::str_view(strength_text),
                    source::cited_view(cited),
                ),
                old(kg)@,
                final(kg)@,
                r,
            ),
    {
        let s = text::trim(source);
        let t = text::trim(target);
        let w = text::trim(predicate);
        if s.as_str().is_empty() || t.as_str().is_empty() || w.as_str().is_empty() {
            return Err("source, predicate and target are required".to_owned());
        }
        if let Some(e) = check_cited(cited) {
            return Err(e);
        }
        if let Some(e) = self.policy.check(&kg.metadata, rel, SchemaKind::Relation, w.as_str()) {
            return Err(e);
        }
        let sid = graph_build::entity_id(s.as_str());
        let tid = graph_build::entity_id(t.as_str());
        let mut absent: Vec<String> = Vec::new();
        if !kg.entities.contains_key(sid.as_str()) {
            absent.push(s.clone());
        }
        if !kg.entities.contains_key(tid.as_str()) && !text::same(t.as_str(), s.as_str()) {
            absent.push(t.clone());
        }
        assert(seqs::views(absent@) =~= missing(kg@.entities, s@, t@));
        if absent.len() > 0 {
            let which = quote(&absent);
            let mut e = text::concat2("entity ", which.as_str());
            e.append(" not found in graph '");
            e.append(rel);
            e.append("'. Call add_entity for ");
            e.append(which.as_str());
            e.append(" first (same path='");
            e.append(rel);
            e.append("'), then retry add_relation. Known entities: ");
            e.append(query::known_labels(&kg.entities).as_str());
            return Err(e);
        }
        assert(missing(kg@.entities, s@, t@).len() == 0);
        let (subject, object) = match (kg.entities.get(sid.as_str()), kg.entities.get(tid.as_str())) {
            (Some(a), Some(b)) => (a.dup(), b.dup()),
            _ => {
                assert(false);
                return Err("".to_owned());
            },
        };
        let mut u = Triple::new(subject, graph_build::build_predicate(w.as_str()), object);
        u.confidence = Some(strength(strength_text));
        if let Some(d) = description {
            u.metadata.insert("description".to_owned(), Json::Text(d));
        }
        cite(&mut u.metadata, cited);
        assert(u@ == stored_triple(
            table::lookup(kg@.entities, sid@)->0,
            w@,
            table::lookup(kg@.entities, tid@)->0,
            seqs::opt_view(description),
            query::str_view(strength_text),
            source::cited_view(cited),
        ));
        let mut m = text::concat2("relation '", s.as_str());
        m.append("' -");
        m.append(w.as_str());
        m.append("-> '");
        m.append(t.as_str());
        m.append("' ");
        self.policy.note(&mut kg.metadata);
        proof {
            crate::merger::lemma_first_same(seqs::views(kg.triples@), u@, 0);
        }
        match types::graph::find_triple(&kg.triples, &u) {
            Some(i) => {
                assert(seqs::views(kg.triples@)[i as int] == kg.triples@[i as int]@);
                let mut there = kg.triples[i].dup();
                cite(&mut there.metadata, cited);
                kg.triples.set(i, there);
                m.append("already present");
            },
            None => {
                kg.add_triple(u);
                m.append("stored");
            },
        }
        Ok(m)
    }

    /// Store a relationship: see [`KgStore::add_relation_with_citation`].
    pub fn add_relation(
        &self,
        kg: &mut KnowledgeGraph,
        rel: &str,
        source: &str,
        predicate: &str,
        target: &str,
        description: Option<String>,
        strength_text: Option<&str>,
    ) -> (r: Result<String, String>)
        ensures
            carried_out(
                relation_outcome(
                    self@.1,
                    old(kg)@,
                    rel@,
                    source@,
                    predicate@,
                    target@,
                    seqs::opt_view(description),
                    query::str_view(strength_text),
                    None,
                ),
                old(kg)@,
                final(kg)@,
                r,
            ),
    {
        self.add_relation_with_citation(
            kg,
            rel,
            source,
            predicate,
            target,
            description,
            strength_text,
            None,
        )
    }

    /// Put a value on an entity that is there.
    pub fn add_attribute(
        &self,
        kg: &mut KnowledgeGraph,
        rel: &str,
        entity: &str,
        key: &str,
        value: Json,
    ) -> (r: Result<String, String>)
        ensures
            carried_out(
                attribute_outcome(self@.1, old(kg)@, rel@, entity@, key@, value@),
                old(kg)@,
                final(kg)@,
                r,
            ),
    {
        let n = text::trim(entity);
        let k = text::trim(key);
        if n.as_str().is_empty() || k.as_str().is_empty() {
            return Err("entity and key are required".to_owned());
        }
        if let Some(e) = self.policy.check(&kg.metadata, rel, SchemaKind::Attribute, k.as_str()) {
            return Err(e);
        }
        let id = graph_build::entity_id(n.as_str());
        let there = match kg.entities.get(id.as_str()) {
            Some(e) => Some(e.dup()),
            None => None,
        };
        match there {
            Some(e) => {
                let mut e = e;
                e.metadata.insert(k.clone(), value);
                kg.entities.insert(id, e);
                self.policy.note(&mut kg.metadata);
                let mut m = text::concat2("attribute '", k.as_str());
                m.append("' set on '");
                m.append(n.as_str());
                m.append("'");
                Ok(m)
            },
            None => {
                let mut e = text::concat2("entity '", n.as_str());
                e.append("' not found in graph '");
                e.append(rel);
                e.append("'. Call add_entity(path='");
                e.append(rel);
                e.append("', name='");
                e.append(n.as_str());
                e.append("', …) first, then retry add_attribute. Known entities: ");
                e.append(query::known_labels(&kg.entities).as_str());
                Err(e)
            },
        }
    }

    /// Propose a name that the schema does not have.
    pub fn propose_schema_type(
        &self,
        kg: &mut KnowledgeGraph,
        kind: &str,
        value: &str,
        reason: Option<String>,
    ) -> (r: Result<String, String>)
        ensures
            carried_out(
                proposal_outcome(self@.1, old(kg)@, kind@, value@, seqs::opt_view(reason)),
                old(kg)@,
                final(kg)@,
                r,
            ),
    {
        let v = text::trim(value);
        let named = text::trim(kind);
        if self.policy.mode() != SchemaMode::Evolving {
            return Err(
                "propose_schema_type is only available in evolving schema mode".to_owned(),
            );
        }
        let k = match SchemaKind::parse(named.as_str()) {
            Some(k) => k,
            None => {
                let mut e = text::concat2("unknown kind '", named.as_str());
                e.append("'. Valid kinds: node, relation, attribute.");
                return Err(e);
            },
        };
        if v.as_str().is_empty() {
            return Err("value must not be empty".to_owned());
        }
        let proposals = ObjectBuilder::new().with(
            "nodes",
            extend(&kg.metadata, SchemaKind::Node, k, v.as_str()),
        ).with("relations", extend(&kg.metadata, SchemaKind::Relation, k, v.as_str())).with(
            "attributes",
            extend(&kg.metadata, SchemaKind::Attribute, k, v.as_str()),
        ).done();
        assert(proposals@->Object_0 =~= with_proposal(kg@.metadata, k, v@)->Object_0);
        kg.metadata.insert(policy::PROPOSALS_KEY.to_owned(), proposals);
        if let Some(w) = reason {
            let mut why = match kg.metadata.get(REASONS_KEY) {
                Some(Json::Object(o)) => crate::chunking::metadata_of(o),
                _ => Table::new(),
            };
            assert(why@ =~= reasons(kg@.metadata));
            why.insert(v.clone(), Json::Text(w));
            kg.metadata.insert(REASONS_KEY.to_owned(), citation::metadata_object(&why));
        }
        self.policy.note(&mut kg.metadata);
        let mut m = text::concat2("schema ", k.name());
        m.append(" '");
        m.append(v.as_str());
        m.append("' proposed");
        Ok(m)
    }

    /// The schema of the graph `rel`.
    pub fn query_schema(&self, kg: &KnowledgeGraph, rel: &str) -> (r: Result<Json, String>)
        ensures
            match (r, path::resolved(rel@)) {
                (Ok(v), Ok(cs)) => v@ == query::schema_answer(
                    self@.1,
                    path::path_below(self@.0, cs),
                    kg@.metadata,
                ),
                (Err(e), Err(w)) => e@ == w,
                _ => false,
            },
    {
        match self.resolve(rel) {
            Ok(p) => Ok(query::answer_schema(&self.policy, p.as_str(), &kg.metadata)),
            Err(e) => Err(e),
        }
    }

    /// Answer a question about the graph `rel`, where there is one: see
    /// [`query::answer`].
    pub fn query_graph(
        &self,
        kg: Option<&KnowledgeGraph>,
        rel: &str,
        view: &str,
        entity: Option<&str>,
        limit: usize,
    ) -> (r: Result<Json, String>)
        ensures
            match (r, path::resolved(rel@), kg) {
                (Err(e), Err(w), _) => e@ == w,
                (Err(e), Ok(cs), None) => e@ == query::no_graph(
                    path::path_below(self@.0, cs),
                    rel@,
                ),
                (Ok(v), Ok(cs), Some(g)) => query::answer(
                    path::path_below(self@.0, cs),
                    rel@,
                    g@,
                    view@,
                    query::str_view(entity),
                    limit as nat,
                ) == Ok::<JsonV, Seq<char>>(v@),
                (Err(e), Ok(cs), Some(g)) => query::answer(
                    path::path_below(self@.0, cs),
                    rel@,
                    g@,
                    view@,
                    query::str_view(entity),
                    limit as nat,
                ) == Err::<JsonV, Seq<char>>(e@),
                _ => false,
            },
    {
        let p = match self.resolve(rel) {
            Ok(p) => p,
            Err(e) => {
                return Err(e);
            },
        };
        match kg {
            None => {
                let mut e = text::concat2("no graph found at path '", rel);
                e.append("' (");
                e.append(p.as_str());
                e.append("). Nothing has been stored there yet — call add_entity(path='");
                e.append(rel);
                e.append("', …) to create it.");
                Err(e)
            },
            Some(g) => query::answer_query(p.as_str(), rel, g, view, entity, limit),
        }
    }
}

/// The proposals of a kind, with `value` among them where it is of the kind `k`.
fn extend(m: &Metadata, kind: SchemaKind, k: SchemaKind, value: &str) -> (r: Json)
    ensures
        r@ == json::texts(extended(kind, k, policy::proposed(m@, kind), value@)),
{
    let mut l = policy::proposals(m, kind);
    if kind == k && !policy::is_named_in(k, &l, value) {
        l.push(value.to_owned());
    }
    json::texts_of(&l)
}

/// An entity that was stored is there afterwards, with its name as its label where
/// it is new, and every other entity is as it was.
pub proof fn law_stored_entity_is_there(
    p: PolicyV,
    g: GraphV,
    rel: Seq<char>,
    name: Seq<char>,
    type_str: Seq<char>,
    description: Option<Seq<char>>,
    attributes: MetadataV,
    source: Option<(SourceV, Option<usize>)>,
    other: Seq<char>,
)
    requires
        entity_outcome(p, g, rel, name, type_str, description, attributes, source) is Ok,
    ensures
        ({
            let after = entity_outcome(
                p,
                g,
                rel,
                name,
                type_str,
                description,
                attributes,
                source,
            )->Ok_0.0;
            let id = graph_build::id_of_name(text::trimmed(name));
            &&& table::lookup(after.entities, id) is Some
            &&& table::lookup(g.entities, id) is None ==> table::lookup(after.entities, id)->0.label
                == text::trimmed(name)
            &&& table::lookup(after.entities, id)->0.entity_type == graph_build::entity_type_of(
                type_str,
            )
            &&& other != id ==> table::lookup(after.entities, other) == table::lookup(
                g.entities,
                other,
            )
            &&& after.triples == g.triples
        }),
{
    let n = text::trimmed(name);
    let id = graph_build::id_of_name(n);
    let e = stored_entity(
        g.entities,
        id,
        n,
        graph_build::entity_type_of(type_str),
        description,
        attributes,
    );
    table::lemma_lookup_put(
        g.entities,
        id,
        EntityV { metadata: source::with_source(e.metadata, source), ..e },
        other,
    );
}

/// A relationship that was stored is there afterwards, and storing it again adds
/// none.
pub proof fn law_relation_is_stored_once(
    p: PolicyV,
    g: GraphV,
    rel: Seq<char>,
    source: Seq<char>,
    predicate: Seq<char>,
    target: Seq<char>,
    description: Option<Seq<char>>,
    strength: Option<Seq<char>>,
    cited: Option<(SourceV, Option<usize>)>,
)
    requires
        relation_outcome(p, g, rel, source, predicate, target, description, strength, cited) is Ok,
    ensures
        ({
            let after = relation_outcome(
                p,
                g,
                rel,
                source,
                predicate,
                target,
                description,
                strength,
                cited,
            )->Ok_0.0;
            let s = table::lookup(
                g.entities,
                graph_build::id_of_name(text::trimmed(source)),
            )->0;
            let o = table::lookup(
                g.entities,
                graph_build::id_of_name(text::trimmed(target)),
            )->0;
            let u = stored_triple(
                s,
                text::trimmed(predicate),
                o,
                description,
                strength,
                cited,
            );
            &&& types::graph::has_triple(after.triples, u)
            &&& types::graph::has_triple(g.triples, u) ==> after.triples.len() == g.triples.len()
            &&& !types::graph::has_triple(g.triples, u) ==> after.triples.len()
                == g.triples.len() + 1
        }),
{
    let s = table::lookup(g.entities, graph_build::id_of_name(text::trimmed(source)))->0;
    let o = table::lookup(g.entities, graph_build::id_of_name(text::trimmed(target)))->0;
    let u = stored_triple(s, text::trimmed(predicate), o, description, strength, cited);
    crate::merger::lemma_first_same(g.triples, u, 0);
    let after = relation_outcome(
        p,
        g,
        rel,
        source,
        predicate,
        target,
        description,
        strength,
        cited,
    )->Ok_0.0;
    if types::graph::has_triple(g.triples, u) {
        let i = crate::merger::first_same(g.triples, u, 0)->0;
        assert(types::graph::triple_key(after.triples[i]) == types::graph::triple_key(u));
    } else {
        assert(after.triples[g.triples.len() as int] == u);
    }
}

/// A relationship is stored where, and only where, it has a source, a predicate and a
/// target, nothing speaks against its type or what it cites, and both its ends are there.
pub proof fn law_relations_are_stored_between_entities(
    p: PolicyV,
    g: GraphV,
    rel: Seq<char>,
    source: Seq<char>,
    predicate: Seq<char>,
    target: Seq<char>,
    description: Option<Seq<char>>,
    strength: Option<Seq<char>>,
    cited: Option<(SourceV, Option<usize>)>,
)
    ensures
        relation_outcome(p, g, rel, source, predicate, target, description, strength, cited) is Ok
            <==> text::trimmed(source).len() > 0 && text::trimmed(predicate).len() > 0
            && text::trimmed(target).len() > 0 && source::cited_objection(cited) is None
            && policy::objection(
            p,
            g.metadata,
            rel,
            SchemaKind::Relation,
            text::trimmed(predicate),
        ) is None && table::has_key(
            g.entities,
            graph_build::id_of_name(text::trimmed(source)),
        ) && table::has_key(g.entities, graph_build::id_of_name(text::trimmed(target))),
{
    let s = text::trimmed(source);
    let t = text::trimmed(target);
    let ns = missing(g.entities, s, t);
    if !table::has_key(g.entities, graph_build::id_of_name(s)) {
        assert(ns[0] == s);
    }
}

/// A stored relationship runs from the entity with the name of its source to the one with
/// the name of its target. Where it is new, it stands behind all others, with what is said
/// of it; those stay as they are. Where it was there, nothing but what it cites changes.
pub proof fn law_stored_relations_keep_their_direction(
    p: PolicyV,
    g: GraphV,
    rel: Seq<char>,
    source: Seq<char>,
    predicate: Seq<char>,
    target: Seq<char>,
    description: Option<Seq<char>>,
    strength: Option<Seq<char>>,
    cited: Option<(SourceV, Option<usize>)>,
    i: int,
)
    requires
        relation_outcome(p, g, rel, source, predicate, target, description, strength, cited) is Ok,
    ensures
        ({
            let after = relation_outcome(
                p,
                g,
                rel,
                source,
                predicate,
                target,
                description,
                strength,
                cited,
            )->Ok_0.0;
            let from = table::lookup(g.entities, graph_build::id_of_name(text::trimmed(source)));
            let to = table::lookup(g.entities, graph_build::id_of_name(text::trimmed(target)));
            let kind = graph_build::predicate_of(text::trimmed(predicate)).predicate_type;
            let u = after.triples.last();
            &&& from is Some && to is Some
            &&& exists|k: int|
                0 <= k < after.triples.len() && (#[trigger] after.triples[k]).subject.id
                    == from->0.id && after.triples[k].object.id == to->0.id
                    && after.triples[k].predicate.predicate_type == kind
            &&& after.triples.len() == g.triples.len() || after.triples.len() == g.triples.len() + 1
            &&& 0 <= i < g.triples.len() ==> {
                &&& after.triples[i].subject == g.triples[i].subject
                &&& after.triples[i].predicate == g.triples[i].predicate
                &&& after.triples[i].object == g.triples[i].object
                &&& after.triples[i].confidence == g.triples[i].confidence
            }
            &&& after.triples.len() > g.triples.len() ==> {
                &&& u.subject == from->0
                &&& u.object == to->0
                &&& u.predicate.predicate_type == kind
                &&& u.predicate.label == Some(text::trimmed(predicate))
                &&& table::lookup(u.metadata, "description"@) == match description {
                    Some(d) => Some(JsonV::Text(d)),
                    None => None,
                }
                &&& strength is None ==> u.confidence == Some(
                    FractionV { one: false, digits: seq![8u8] },
                )
                &&& strength is Some && number::number_in(strength->0) is Some ==> u.confidence
                    == Some(fraction::clamped(number::number_in(strength->0)->0))
            }
        }),
{
    law_relations_are_stored_between_entities(
        p,
        g,
        rel,
        source,
        predicate,
        target,
        description,
        strength,
        cited,
    );
    let after = relation_outcome(
        p,
        g,
        rel,
        source,
        predicate,
        target,
        description,
        strength,
        cited,
    )->Ok_0.0;
    let s = table::lookup(g.entities, graph_build::id_of_name(text::trimmed(source)))->0;
    let o = table::lookup(g.entities, graph_build::id_of_name(text::trimmed(target)))->0;
    let u = stored_triple(s, text::trimmed(predicate), o, description, strength, cited);
    crate::merger::lemma_first_same(g.triples, u, 0);
    let described = match description {
        Some(d) => seq![("description"@, JsonV::Text(d))],
        None => seq![],
    };
    reveal_strlit("description");
    assert("description"@.len() == 11);
    reveal_strlit("citations");
    assert("citations"@.len() == 9);
    if let Some(c) = cited {
        citation::law_only_citations_are_added(described, source::source_cited(c.0), "description"@);
    }
    if let Some(d) = description {
        table::lemma_position_at(described, "description"@, 0);
    }
    if types::graph::has_triple(g.triples, u) {
        let k = crate::merger::first_same(g.triples, u, 0)->0;
        assert(types::graph::triple_key(after.triples[k]) == types::graph::triple_key(u));
    } else {
        assert(after.triples[g.triples.len() as int] == u);
    }
}

/// An entity is stored where, and only where, it has a name and nothing speaks against its
/// type or what it cites. What is said of it is kept: a description that is given takes the
/// place of the one before, a value that is given takes the place of the one under its
/// name, and all else stays.
pub proof fn law_stored_entities_say_what_is_given(
    p: PolicyV,
    g: GraphV,
    rel: Seq<char>,
    name: Seq<char>,
    type_str: Seq<char>,
    description: Option<Seq<char>>,
    attributes: MetadataV,
    source: Option<(SourceV, Option<usize>)>,
    k: Seq<char>,
)
    requires
        k != "citations"@,
        table::distinct_keys(attributes),
    ensures
        ({
            let r = entity_outcome(p, g, rel, name, type_str, description, attributes, source);
            let id = graph_build::id_of_name(text::trimmed(name));
            let known = table::lookup(g.entities, id);
            let e = table::lookup(r->Ok_0.0.entities, id)->0;
            &&& r is Ok <==> text::trimmed(name).len() > 0 && source::cited_objection(source)
                is None && policy::objection(p, g.metadata, rel, SchemaKind::Node, type_str)
                is None
            &&& r is Ok ==> {
                &&& table::has_key(r->Ok_0.0.entities, id)
                &&& description is Some ==> e.description == description
                &&& description is None && known is Some ==> e.description == known->0.description
                &&& known is Some ==> e.label == known->0.label && e.id == known->0.id
                    && e.confidence == known->0.confidence
                &&& known is None ==> e.label == text::trimmed(name) && e.id == id
                    && e.description == description
                &&& table::has_key(attributes, k) ==> table::lookup(e.metadata, k)
                    == table::lookup(attributes, k)
                &&& !table::has_key(attributes, k) && known is Some ==> table::lookup(
                    e.metadata,
                    k,
                ) == table::lookup(known->0.metadata, k)
            }
        }),
{
    let n = text::trimmed(name);
    let id = graph_build::id_of_name(n);
    let e = stored_entity(
        g.entities,
        id,
        n,
        graph_build::entity_type_of(type_str),
        description,
        attributes,
    );
    table::lemma_lookup_put(
        g.entities,
        id,
        EntityV { metadata: source::with_source(e.metadata, source), ..e },
        id,
    );
    if let Some(known) = table::lookup(g.entities, id) {
        table::lemma_lookup_put_all(known.metadata, attributes, k);
    }
    if let Some(c) = source {
        citation::law_only_citations_are_added(e.metadata, source::source_cited(c.0), k);
    }
}

/// A value is put on an entity where, and only where, it has a name, the entity is there
/// and nothing speaks against it; it then stands under its name, and nothing else changes.
pub proof fn law_attributes_are_put_on_entities(
    p: PolicyV,
    g: GraphV,
    rel: Seq<char>,
    entity: Seq<char>,
    key: Seq<char>,
    value: JsonV,
    other: Seq<char>,
    k: Seq<char>,
)
    ensures
        ({
            let r = attribute_outcome(p, g, rel, entity, key, value);
            let id = graph_build::id_of_name(text::trimmed(entity));
            let known = table::lookup(g.entities, id)->0;
            let after = r->Ok_0.0;
            let e = table::lookup(after.entities, id)->0;
            &&& r is Ok <==> text::trimmed(entity).len() > 0 && text::trimmed(key).len() > 0
                && table::has_key(g.entities, id) && policy::objection(
                p,
                g.metadata,
                rel,
                SchemaKind::Attribute,
                text::trimmed(key),
            ) is None
            &&& r is Ok ==> {
                &&& table::lookup(e.metadata, text::trimmed(key)) == Some(value)
                &&& k != text::trimmed(key) ==> table::lookup(e.metadata, k) == table::lookup(
                    known.metadata,
                    k,
                )
                &&& e.label == known.label && e.description == known.description
                &&& other != id ==> table::lookup(after.entities, other) == table::lookup(
                    g.entities,
                    other,
                )
                &&& after.triples == g.triples
            }
        }),
{
    let id = graph_build::id_of_name(text::trimmed(entity));
    if let Some(e) = table::lookup(g.entities, id) {
        let w = text::trimmed(key);
        let made = EntityV { metadata: table::put(e.metadata, w, value), ..e };
        table::lemma_lookup_put(e.metadata, w, value, k);
        table::lemma_lookup_put(e.metadata, w, value, w);
        table::lemma_lookup_put(g.entities, id, made, id);
        table::lemma_lookup_put(g.entities, id, made, other);
    }
}

/// Texts that are written as values are the texts among those values.
proof fn lemma_texts_read_back(l: Seq<Seq<char>>)
    ensures
        parser::texts_among(json::texts(l)->Array_0) == l,
    decreases l.len(),
{
    let a = json::texts(l)->Array_0;
    if l.len() > 0 {
        lemma_texts_read_back(l.drop_last());
        assert(a.drop_last() =~= json::texts(l.drop_last())->Array_0);
        assert(l.drop_last().push(l.last()) =~= l);
    } else {
        assert(parser::texts_among(a) =~= l);
    }
}

/// What was proposed stands among the proposals.
proof fn lemma_proposal_stands(m: MetadataV, k: SchemaKind, value: Seq<char>)
    ensures
        json::array_in(json::field(with_proposal(m, k, value), policy::kind_key(k))) == Some(
            json::texts(extended(k, k, policy::proposed(m, k), value))->Array_0,
        ),
{
    let o = with_proposal(m, k, value)->Object_0;
    reveal_strlit("nodes");
    reveal_strlit("relations");
    reveal_strlit("attributes");
    assert("nodes"@.len() != "relations"@.len());
    assert("nodes"@.len() != "attributes"@.len());
    assert("relations"@.len() != "attributes"@.len());
    match k {
        SchemaKind::Node => table::lemma_position_at(o, "nodes"@, 0),
        SchemaKind::Relation => table::lemma_position_at(o, "relations"@, 1),
        SchemaKind::Attribute => table::lemma_position_at(o, "attributes"@, 2),
    }
}

/// A type that was proposed for a graph may be used in it from then on.
pub proof fn law_proposed_type_may_be_used(
    p: PolicyV,
    g: GraphV,
    kind: Seq<char>,
    value: Seq<char>,
    reason: Option<Seq<char>>,
    rel: Seq<char>,
)
    requires
        proposal_outcome(p, g, kind, value, reason) is Ok,
    ensures
        ({
            let after = proposal_outcome(p, g, kind, value, reason)->Ok_0.0;
            let k = policy::kind_named(text::trimmed(kind))->0;
            policy::objection(p, after.metadata, rel, k, text::trimmed(value)) is None
        }),
{
    let v = text::trimmed(value);
    let k = policy::kind_named(text::trimmed(kind))->0;
    let proposals = with_proposal(g.metadata, k, v);
    let m = table::put(g.metadata, policy::PROPOSALS_KEY@, proposals);
    let explained = match reason {
        Some(w) => table::put(
            m,
            REASONS_KEY@,
            JsonV::Object(table::put(reasons(m), v, JsonV::Text(w))),
        ),
        None => m,
    };
    let mode = JsonV::Text(types::spec::mode_name(p.mode));
    let key = policy::PROPOSALS_KEY@;
    reveal_strlit("new_schema_types");
    reveal_strlit("schema_proposal_reasons");
    reveal_strlit("schema_mode");
    reveal_strlit("schema_used");
    assert(key.len() != REASONS_KEY@.len());
    assert(key.len() != "schema_mode"@.len());
    assert(key.len() != "schema_used"@.len());
    table::lemma_lookup_put(g.metadata, key, proposals, key);
    if let Some(w) = reason {
        table::lemma_lookup_put(
            m,
            REASONS_KEY@,
            JsonV::Object(table::put(reasons(m), v, JsonV::Text(w))),
            key,
        );
    }
    table::lemma_lookup_put(explained, "schema_mode"@, mode, key);
    table::lemma_lookup_put(
        table::put(explained, "schema_mode"@, mode),
        "schema_used"@,
        types::spec::schema_value(p.schema),
        key,
    );
    let after = policy::noted(p, explained);
    assert(table::lookup(after, key) == Some(proposals));
    lemma_proposal_stands(g.metadata, k, v);
    let l = extended(k, k, policy::proposed(g.metadata, k), v);
    lemma_texts_read_back(l);
    assert(policy::proposed(after, k) == l);
    if !policy::named_in(k, policy::proposed(g.metadata, k), v) {
        assert(policy::compared(k, l[l.len() - 1]) == policy::compared(k, v));
    }
    assert(policy::named_in(k, l, v));
}

/// A proposal is noted under its kind alone: what was proposed of that kind stays, the new
/// name stands behind it where it is new, and the other kinds stay as they are.
pub proof fn law_proposals_are_noted_by_kind(
    m: MetadataV,
    k: SchemaKind,
    value: Seq<char>,
    other: SchemaKind,
)
    ensures
        ({
            let after = table::put(m, "new_schema_types"@, with_proposal(m, k, value));
            let l = policy::proposed(m, other);
            &&& other != k ==> policy::proposed(after, other) == l
            &&& other == k && policy::named_in(k, l, value) ==> policy::proposed(after, k) == l
            &&& other == k && !policy::named_in(k, l, value) ==> policy::proposed(after, k)
                == l.push(value)
        }),
{
    let p = with_proposal(m, k, value);
    table::lemma_lookup_put(m, policy::PROPOSALS_KEY@, p, policy::PROPOSALS_KEY@);
    let o = p->Object_0;
    reveal_strlit("nodes");
    assert("nodes"@.len() == 5);
    reveal_strlit("relations");
    assert("relations"@.len() == 9);
    reveal_strlit("attributes");
    assert("attributes"@.len() == 10);
    match other {
        SchemaKind::Node => table::lemma_position_at(o, "nodes"@, 0),
        SchemaKind::Relation => table::lemma_position_at(o, "relations"@, 1),
        SchemaKind::Attribute => table::lemma_position_at(o, "attributes"@, 2),
    }
    lemma_texts_read_back(extended(other, k, policy::proposed(m, other), value));
}

/// Under a fixed schema that names types of entities, an entity of any other type is
/// refused.
pub proof fn law_fixed_schema_binds_entities(
    p: PolicyV,
    g: GraphV,
    rel: Seq<char>,
    name: Seq<char>,
    type_str: Seq<char>,
    description: Option<Seq<char>>,
    attributes: MetadataV,
    source: Option<(SourceV, Option<usize>)>,
)
    requires
        p.mode == SchemaMode::Fixed,
        p.schema.nodes.len() > 0,
        !policy::named_in(SchemaKind::Node, p.schema.nodes, type_str),
    ensures
        entity_outcome(p, g, rel, name, type_str, description, attributes, source) is Err,
{
}

/// Under a fixed schema that names types of relationships, a relationship of any other
/// type is refused.
pub proof fn law_fixed_schema_binds_relationships(
    p: PolicyV,
    g: GraphV,
    rel: Seq<char>,
    source: Seq<char>,
    predicate: Seq<char>,
    target: Seq<char>,
    description: Option<Seq<char>>,
    strength: Option<Seq<char>>,
    cited: Option<(SourceV, Option<usize>)>,
)
    requires
        p.mode == SchemaMode::Fixed,
        p.schema.relations.len() > 0,
        !policy::named_in(SchemaKind::Relation, p.schema.relations, text::trimmed(predicate)),
    ensures
        relation_outcome(p, g, rel, source, predicate, target, description, strength, cited) is Err,
{
}

/// Under a fixed schema that names attributes, any other attribute is refused.
pub proof fn law_fixed_schema_binds_attributes(
    p: PolicyV,
    g: GraphV,
    rel: Seq<char>,
    entity: Seq<char>,
    key: Seq<char>,
    value: JsonV,
)
    requires
        p.mode == SchemaMode::Fixed,
        p.schema.attributes.len() > 0,
        !policy::named_in(SchemaKind::Attribute, p.schema.attributes, text::trimmed(key)),
    ensures
        attribute_outcome(p, g, rel, entity, key, value) is Err,
{
}

} // verus!
