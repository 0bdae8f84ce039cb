//! Extraction in records: a chunk of text is asked about until nothing new comes, and
//! then, if that is wanted, about the entities that no relationship reaches.

use vstd::prelude::*;

use crate::backend::CompletionOptions;
use crate::chunking::{Segment, SegmentV};
use crate::citation::{Citation, CitationV, LineIndex};
use crate::table::{Dup, Table};
use crate::types::graph::{Entity, EntityV, GraphV, KnowledgeGraph, Triple, TripleV};
use crate::types::response::{ExtractionResponse, ParsedResult, ParsedResultV, ResponseV};
use crate::types::spec::{ConfigV, ExtractionConfig};
use crate::{chunking, citation, merger, seqs, table, text};

pub mod parse;
pub mod prompts;

pub use parse::{entity_type_tokens, parse_output, parse_relations_against};
use prompts::{CONTINUE_PROMPT, EXTRACTION_PROMPT, RELATION_GLEANING_PROMPT, SYSTEM_PROMPT};

verus! {

broadcast use {crate::seqs::group_views, crate::json::group_json};

/// How often it is asked what was left out.
pub const MAX_GLEANINGS: usize = 2;

/// What a [`SimpleExtractor`] stands for.
pub struct SimpleV {
    pub config: ConfigV,
    pub max_gleanings: usize,
    pub max_relation_gleanings: usize,
    pub context: Seq<char>,
}

/// Extraction with a language model that is asked for records.
pub struct SimpleExtractor {
    pub config: ExtractionConfig,
    pub quiet: bool,
    /// How often it is asked what was left out.
    pub max_gleanings: usize,
    /// How often it is asked about the entities that no relationship reaches.
    pub max_relation_gleanings: usize,
    /// What is said about the text beforehand.
    pub context: String,
}

impl View for SimpleExtractor {
    type V = SimpleV;

    open spec fn view(&self) -> SimpleV {
        SimpleV {
            config: self.config@,
            max_gleanings: self.max_gleanings,
            max_relation_gleanings: self.max_relation_gleanings,
            context: self.context@,
        }
    }
}

/// The names `s` with commas between them, or `other` where there are none.
pub open spec fn listed(s: Seq<Seq<char>>, other: Seq<char>) -> Seq<char> {
    if s.len() == 0 {
        other
    } else {
        text::joined(s, ", "@)
    }
}

/// The names `s` with commas between them, or `other` where there are none.
pub fn list_or(s: &Vec<String>, other: &str) -> (r: String)
    ensures
        r@ == listed(seqs::views(s@), other@),
{
    assert(seqs::views(s@).len() == s@.len());
    if s.len() == 0 {
        other.to_owned()
    } else {
        text::join(s, ", ")
    }
}

/// The question that asks for the entities and the relationships of a chunk.
pub open spec fn first_question(x: SimpleV, chunk: Seq<char>) -> Seq<char> {
    let schema = x.config.spec.schema;
    let a = text::replaced(
        EXTRACTION_PROMPT@,
        "{entity_types}"@,
        text::joined(schema.nodes, ", "@),
    );
    let b = text::replaced(
        a,
        "{relationship_types}"@,
        listed(schema.relations, "related_to, part_of, uses"@),
    );
    let c = text::replaced(
        b,
        "{attribute_types}"@,
        listed(schema.attributes, "name, type, description"@),
    );
    text::replaced(text::replaced(c, "{context}"@, x.context), "{chunk}"@, chunk)
}

/// An end of some relationship has the id `id`.
pub open spec fn is_linked(ts: Seq<TripleV>, id: Seq<char>) -> bool {
    exists|i: int| 0 <= i < ts.len() && touches(#[trigger] ts[i], id)
}

/// An end of the relationship has the id `id`.
pub open spec fn touches(t: TripleV, id: Seq<char>) -> bool {
    t.subject.id == id || t.object.id == id
}

/// The entities that no relationship reaches.
pub open spec fn orphans(es: Seq<(Seq<char>, EntityV)>, ts: Seq<TripleV>) -> Seq<EntityV>
    decreases es.len(),
{
    if es.len() == 0 {
        seq![]
    } else {
        let before = orphans(es.drop_last(), ts);
        if is_linked(ts, es.last().1.id) {
            before
        } else {
            before.push(es.last().1)
        }
    }
}

/// Entities, one in a line.
pub open spec fn orphan_lines(es: Seq<EntityV>) -> Seq<char> {
    text::joined(Seq::new(es.len(), |i: int| "- "@ + es[i].label), "\n"@)
}

/// The question that asks for the relationships of entities.
pub open spec fn relation_question(x: SimpleV, es: Seq<EntityV>) -> Seq<char> {
    text::replaced(
        text::replaced(RELATION_GLEANING_PROMPT@, "{orphans}"@, orphan_lines(es)),
        "{relationship_types}"@,
        listed(
            x.config.spec.schema.relations,
            "related_to, part_of, uses, produces, has_property"@,
        ),
    )
}

/// How far the questions about a chunk have come.
#[derive(Clone, Copy, Debug, PartialEq, Eq, Structural)]
pub enum Phase {
    /// Entities and relationships are asked for; so often it was asked before.
    Gleaning(usize),
    /// Relationships of entities that have none are asked for; so often it was asked
    /// before.
    Relating(usize),
    /// Nothing more is asked.
    Done,
}

/// What a [`ChunkSession`] stands for.
pub struct ChunkV {
    pub phase: Phase,
    pub entities: Seq<(Seq<char>, EntityV)>,
    pub triples: Seq<TripleV>,
    pub parsed: Seq<ParsedResultV>,
}

/// What has come of the questions about a chunk.
pub struct ChunkSession {
    pub phase: Phase,
    pub entities: Table<Entity>,
    pub triples: Vec<Triple>,
    pub parsed: Vec<ParsedResult>,
}

impl View for ChunkSession {
    type V = ChunkV;

    open spec fn view(&self) -> ChunkV {
        ChunkV {
            phase: self.phase,
            entities: self.entities@,
            triples: seqs::views(self.triples@),
            parsed: seqs::views(self.parsed@),
        }
    }
}

/// Nothing has been asked.
pub open spec fn unasked() -> ChunkV {
    ChunkV { phase: Phase::Gleaning(0), entities: seq![], triples: seq![], parsed: seq![] }
}

/// How many more questions there can be.
pub open spec fn questions_left(x: SimpleV, phase: Phase) -> int {
    match phase {
        Phase::Gleaning(i) => x.max_gleanings - i + 1 + x.max_relation_gleanings,
        Phase::Relating(j) => x.max_relation_gleanings - j,
        Phase::Done => 0,
    }
}

/// A phase that there can be.
pub open spec fn is_phase(x: SimpleV, phase: Phase) -> bool {
    match phase {
        Phase::Gleaning(i) => i <= x.max_gleanings,
        Phase::Relating(j) => j < x.max_relation_gleanings,
        Phase::Done => true,
    }
}

/// The next question.
pub open spec fn question(x: SimpleV, st: ChunkV, chunk: Seq<char>) -> Option<Seq<char>> {
    match st.phase {
        Phase::Gleaning(i) => if i == 0 {
            Some(first_question(x, chunk))
        } else {
            Some(CONTINUE_PROMPT@)
        },
        Phase::Relating(_) => Some(relation_question(x, orphans(st.entities, st.triples))),
        Phase::Done => None,
    }
}

/// Relationships are asked for next, after `j` times: as long as it is wanted and some
/// entity has none.
pub open spec fn relating(x: SimpleV, st: ChunkV, j: int) -> ChunkV {
    ChunkV {
        phase: if j < x.max_relation_gleanings && orphans(st.entities, st.triples).len() > 0 {
            Phase::Relating(j as usize)
        } else {
            Phase::Done
        },
        ..st
    }
}

/// It was asked for entities and relationships `i` times before, and now again.
pub open spec fn gleaning_over(x: SimpleV, st: ChunkV, i: usize) -> ChunkV {
    if i < x.max_gleanings {
        ChunkV { phase: Phase::Gleaning((i + 1) as usize), ..st }
    } else {
        relating(x, st, 0)
    }
}

/// The entities `es` and those of `more` whose ids are none of theirs.
pub open spec fn first_ones_kept(
    es: Seq<(Seq<char>, EntityV)>,
    more: Seq<(Seq<char>, EntityV)>,
) -> Seq<(Seq<char>, EntityV)>
    decreases more.len(),
{
    if more.len() == 0 {
        es
    } else {
        let before = first_ones_kept(es, more.drop_last());
        if table::has_key(before, more.last().0) {
            before
        } else {
            table::put(before, more.last().0, more.last().1)
        }
    }
}

/// What has come of the questions when `p` was read of an answer. A question for what
/// was left out that brought nothing is the last one.
pub open spec fn gleaned(x: SimpleV, st: ChunkV, i: usize, p: ParsedResultV) -> ChunkV {
    let next = ChunkV {
        phase: st.phase,
        entities: first_ones_kept(st.entities, p.entities),
        triples: st.triples + p.triples,
        parsed: st.parsed.push(p),
    };
    if i > 0 && p.entities.len() == 0 && p.triples.len() == 0 {
        relating(x, next, 0)
    } else {
        gleaning_over(x, next, i)
    }
}

/// What has come of the questions when the relationships `ts` were read of an answer.
/// Those that are known are left out; a question that brought none is the last one.
pub open spec fn related(x: SimpleV, st: ChunkV, j: usize, ts: Seq<TripleV>) -> ChunkV {
    let all = crate::types::graph::triples_merged(st.triples, ts);
    if all.len() == st.triples.len() {
        ChunkV { phase: Phase::Done, ..st }
    } else {
        relating(x, ChunkV { triples: all, ..st }, j + 1)
    }
}

/// What has come of the questions after an answer; there is none where the model
/// failed.
pub open spec fn answered(x: SimpleV, st: ChunkV, reply: Option<Seq<char>>) -> ChunkV {
    match (st.phase, reply) {
        (Phase::Gleaning(_), None) => relating(x, st, 0),
        (Phase::Gleaning(i), Some(o)) => {
            let t = text::trimmed(o);
            if t.len() == 0 {
                gleaning_over(x, st, i)
            } else {
                gleaned(x, st, i, parse::output_read(t))
            }
        },
        (Phase::Relating(_), None) => ChunkV { phase: Phase::Done, ..st },
        (Phase::Relating(j), Some(o)) => {
            let t = text::trimmed(o);
            if t.len() == 0 || text::same_but_ascii_case(t, "no"@) {
                ChunkV { phase: Phase::Done, ..st }
            } else {
                related(x, st, j, parse::relations_read(parse::items(t), st.entities))
            }
        },
        (Phase::Done, _) => st,
    }
}

/// The graph of entities and relationships.
pub open spec fn graph_of(es: Seq<(Seq<char>, EntityV)>, ts: Seq<TripleV>) -> GraphV {
    crate::types::graph::triples_added(
        GraphV {
            entities: crate::types::graph::entities_added(seq![], es),
            ..crate::types::graph::empty_graph()
        },
        ts,
    )
}

/// An entity is asked about again where, and only where, no relationship starts or ends at
/// it.
pub proof fn law_orphans_have_no_relationship(
    es: Seq<(Seq<char>, EntityV)>,
    ts: Seq<TripleV>,
    e: EntityV,
)
    ensures
        orphans(es, ts).contains(e) <==> (exists|i: int|
            0 <= i < es.len() && (#[trigger] es[i]).1 == e) && (forall|j: int|
            0 <= j < ts.len() ==> (#[trigger] ts[j]).subject.id != e.id && ts[j].object.id
                != e.id),
    decreases es.len(),
{
    let found = orphans(es, ts);
    assert(is_linked(ts, e.id) <==> !(forall|j: int|
        0 <= j < ts.len() ==> (#[trigger] ts[j]).subject.id != e.id && ts[j].object.id != e.id))
        by {
        if is_linked(ts, e.id) {
            let j = choose|j: int| 0 <= j < ts.len() && touches(#[trigger] ts[j], e.id);
            assert(ts[j].subject.id == e.id || ts[j].object.id == e.id);
        } else {
            assert forall|j: int| 0 <= j < ts.len() implies (#[trigger] ts[j]).subject.id != e.id
                && ts[j].object.id != e.id by {
                assert(!touches(ts[j], e.id));
            }
        }
    }
    if es.len() > 0 {
        let before = es.drop_last();
        law_orphans_have_no_relationship(before, ts, e);
        let m = orphans(before, ts);
        if m.contains(e) {
            let k = choose|k: int| 0 <= k < m.len() && m[k] == e;
            assert(found[k] == e);
        }
        if found.contains(e) && !m.contains(e) {
            let k = choose|k: int| 0 <= k < found.len() && found[k] == e;
            assert(k == m.len());
            assert(es[es.len() - 1].1 == e);
        }
        if exists|i: int| 0 <= i < es.len() && (#[trigger] es[i]).1 == e {
            let i = choose|i: int| 0 <= i < es.len() && (#[trigger] es[i]).1 == e;
            if i < before.len() {
                assert(before[i].1 == e);
            } else if !is_linked(ts, e.id) {
                assert(found[found.len() - 1] == e);
            }
        }
        if exists|i: int| 0 <= i < before.len() && (#[trigger] before[i]).1 == e {
            let i = choose|i: int| 0 <= i < before.len() && (#[trigger] before[i]).1 == e;
            assert(es[i].1 == e);
        }
    }
}

/// Entities that come stand behind those that are there: what is there stays as it is, and
/// every id of either is one of the result.
pub proof fn law_first_entities_are_kept(
    es: Seq<(Seq<char>, EntityV)>,
    more: Seq<(Seq<char>, EntityV)>,
    id: Seq<char>,
)
    ensures
        table::has_key(es, id) ==> table::lookup(first_ones_kept(es, more), id) == table::lookup(
            es,
            id,
        ),
        !table::has_key(es, id) ==> table::lookup(first_ones_kept(es, more), id) == table::lookup(
            more,
            id,
        ),
    decreases more.len(),
{
    if more.len() > 0 {
        let rest = more.drop_last();
        law_first_entities_are_kept(es, rest, id);
        law_first_entities_are_kept(es, rest, more.last().0);
        let m = first_ones_kept(es, rest);
        table::lemma_lookup_put(m, more.last().0, more.last().1, id);
        table::lemma_position(more, id);
        table::lemma_position(rest, id);
        if table::has_key(rest, id) {
            let p = table::position(rest, id)->0;
            assert(more[p] == rest[p]);
            assert forall|j: int| 0 <= j < p implies (#[trigger] more[j]).0 != id by {
                assert(rest[j].0 != id);
            }
            table::lemma_position_at(more, id, p);
        } else if more.last().0 == id {
            assert forall|j: int| 0 <= j < more.len() - 1 implies (#[trigger] more[j]).0 != id by {
                assert(rest[j].0 != id);
            }
            table::lemma_position_at(more, id, more.len() - 1);
        }
    }
}

/// All that is read of an answer about a chunk is taken in: its relationships stand behind
/// those that were there, its entities behind those that were there, and the answer is
/// kept. A blank answer changes nothing but how far the questions have come.
pub proof fn law_answers_are_taken_in(x: SimpleV, st: ChunkV, o: Seq<char>, id: Seq<char>)
    requires
        st.phase is Gleaning,
    ensures
        ({
            let next = answered(x, st, Some(o));
            let p = parse::output_read(text::trimmed(o));
            if text::trimmed(o).len() == 0 {
                next.entities == st.entities && next.triples == st.triples && next.parsed
                    == st.parsed
            } else {
                &&& next.triples == st.triples + p.triples
                &&& next.parsed == st.parsed.push(p)
                &&& table::has_key(st.entities, id) ==> table::lookup(next.entities, id)
                    == table::lookup(st.entities, id)
                &&& !table::has_key(st.entities, id) ==> table::lookup(next.entities, id)
                    == table::lookup(p.entities, id)
            }
        }),
{
    let p = parse::output_read(text::trimmed(o));
    law_first_entities_are_kept(st.entities, p.entities, id);
}

/// The graph of entities and relationships has these relationships, in their order, and
/// every one of these entities.
pub proof fn law_graphs_hold_what_was_read(
    es: Seq<(Seq<char>, EntityV)>,
    ts: Seq<TripleV>,
    i: int,
)
    ensures
        graph_of(es, ts).triples == ts,
        0 <= i < es.len() ==> table::has_key(graph_of(es, ts).entities, es[i].1.id),
        0 <= i < ts.len() ==> table::has_key(graph_of(es, ts).entities, ts[i].subject.id)
            && table::has_key(graph_of(es, ts).entities, ts[i].object.id),
{
    let g = GraphV {
        entities: crate::types::graph::entities_added(seq![], es),
        ..crate::types::graph::empty_graph()
    };
    if 0 <= i < es.len() {
        lemma_entities_added(seq![], es, i);
        lemma_triples_added(g, ts, i, es[i].1.id);
    } else {
        lemma_triples_added(g, ts, i, seq![]);
    }
    assert(g.triples + ts =~= ts);
}

proof fn lemma_entities_added(
    s: Seq<(Seq<char>, EntityV)>,
    es: Seq<(Seq<char>, EntityV)>,
    i: int,
)
    requires
        0 <= i < es.len(),
    ensures
        table::has_key(crate::types::graph::entities_added(s, es), es[i].1.id),
    decreases es.len(),
{
    let m = crate::types::graph::entities_added(s, es.drop_last());
    if i < es.len() - 1 {
        assert(es.drop_last()[i] == es[i]);
        lemma_entities_added(s, es.drop_last(), i);
    }
    table::lemma_lookup_put(
        m,
        es.last().1.id,
        crate::types::graph::with_known_citations(m, es.last().1),
        es[i].1.id,
    );
}

proof fn lemma_triples_added(g: GraphV, ts: Seq<TripleV>, i: int, id: Seq<char>)
    ensures
        crate::types::graph::triples_added(g, ts).triples == g.triples + ts,
        table::has_key(g.entities, id) ==> table::has_key(
            crate::types::graph::triples_added(g, ts).entities,
            id,
        ),
        0 <= i < ts.len() ==> table::has_key(
            crate::types::graph::triples_added(g, ts).entities,
            ts[i].subject.id,
        ) && table::has_key(
            crate::types::graph::triples_added(g, ts).entities,
            ts[i].object.id,
        ),
    decreases ts.len(),
{
    if ts.len() == 0 {
        assert(g.triples + ts =~= g.triples);
    } else {
        let before = ts.drop_last();
        lemma_triples_added(g, before, i, id);
        let m = crate::types::graph::triples_added(g, before);
        assert(g.triples + ts =~= (g.triples + before).push(ts.last()));
        crate::types::graph::law_relationships_are_put_in(m, ts.last(), id);
        if 0 <= i < before.len() {
            assert(before[i] == ts[i]);
            crate::types::graph::law_relationships_are_put_in(m, ts.last(), ts[i].subject.id);
            crate::types::graph::law_relationships_are_put_in(m, ts.last(), ts[i].object.id);
        }
    }
}

/// Each answer brings the end of the questions nearer: there are never more of them
/// than those for entities, those for what was left out and those for relationships
/// that were asked for.
pub proof fn law_questions_come_to_an_end(x: SimpleV, st: ChunkV, reply: Option<Seq<char>>)
    requires
        is_phase(x, st.phase),
        st.phase !is Done,
    ensures
        is_phase(x, answered(x, st, reply).phase),
        0 <= questions_left(x, answered(x, st, reply).phase) < questions_left(x, st.phase),
        questions_left(x, unasked().phase) == 1 + x.max_gleanings + x.max_relation_gleanings,
{
}

/// A question about relationships changes no entity. The relationships that were there
/// stay, and each that comes joins two entities that were there.
pub proof fn law_relating_adds_relationships_alone(
    x: SimpleV,
    st: ChunkV,
    reply: Option<Seq<char>>,
)
    requires
        st.phase is Relating,
    ensures
        ({
            let next = answered(x, st, reply);
            &&& next.entities == st.entities
            &&& next.parsed == st.parsed
            &&& next.triples.len() >= st.triples.len()
            &&& next.triples.take(st.triples.len() as int) == st.triples
            &&& forall|i: int|
                st.triples.len() <= i < next.triples.len() ==> parse::is_among(
                    st.entities,
                    (#[trigger] next.triples[i]).subject,
                ) && parse::is_among(st.entities, next.triples[i].object)
        }),
{
    assert(st.triples.take(st.triples.len() as int) =~= st.triples);
    if let Some(o) = reply {
        let ts = parse::relations_read(parse::items(text::trimmed(o)), st.entities);
        lemma_relations_anchored(parse::items(text::trimmed(o)), st.entities);
        lemma_merged_behind(st.triples, ts, st.entities);
    }
}

/// The ends of relationships that are read against entities are among these.
proof fn lemma_relations_anchored(items: Seq<Seq<char>>, es: Seq<(Seq<char>, EntityV)>)
    ensures
        forall|i: int|
            0 <= i < parse::relations_read(items, es).len() ==> parse::is_among(
                es,
                (#[trigger] parse::relations_read(items, es)[i]).subject,
            ) && parse::is_among(es, parse::relations_read(items, es)[i].object),
    decreases items.len(),
{
    if items.len() > 0 {
        lemma_relations_anchored(items.drop_last(), es);
        let t = parse::completed(items.last());
        if let Some(rel) = parse::relationship_in(t, parse::ids_by_name(es)) {
            table::lemma_position(es, rel.source_id);
            table::lemma_position(es, rel.target_id);
            match (table::lookup(es, rel.source_id), table::lookup(es, rel.target_id)) {
                (Some(s), Some(o)) => {
                    let a = table::position(es, rel.source_id)->0;
                    let b = table::position(es, rel.target_id)->0;
                    assert(es[a].1 == s);
                    assert(es[b].1 == o);
                },
                _ => {},
            }
        }
    }
}

/// Merged relationships stand behind those that were there, and each is one of those
/// that came.
proof fn lemma_merged_behind(s: Seq<TripleV>, ts: Seq<TripleV>, es: Seq<(Seq<char>, EntityV)>)
    requires
        forall|i: int|
            0 <= i < ts.len() ==> parse::is_among(es, (#[trigger] ts[i]).subject)
                && parse::is_among(es, ts[i].object),
    ensures
        ({
            let m = crate::types::graph::triples_merged(s, ts);
            &&& m.len() >= s.len()
            &&& m.take(s.len() as int) == s
            &&& forall|i: int|
                s.len() <= i < m.len() ==> parse::is_among(es, (#[trigger] m[i]).subject)
                    && parse::is_among(es, m[i].object)
        }),
    decreases ts.len(),
{
    if ts.len() == 0 {
        assert(s.take(s.len() as int) =~= s);
    } else {
        assert forall|i: int| 0 <= i < ts.drop_last().len() implies parse::is_among(
            es,
            (#[trigger] ts.drop_last()[i]).subject,
        ) && parse::is_among(es, ts.drop_last()[i].object) by {
            assert(ts.drop_last()[i] == ts[i]);
        }
        lemma_merged_behind(s, ts.drop_last(), es);
        let before = crate::types::graph::triples_merged(s, ts.drop_last());
        let m = crate::types::graph::triples_merged(s, ts);
        assert(ts[ts.len() - 1] == ts.last());
        assert(m.take(s.len() as int) =~= before.take(s.len() as int));
    }
}

/// The graph of entities and relationships.
pub fn graph_of_records(entities: &Table<Entity>, triples: &Vec<Triple>) -> (r: KnowledgeGraph)
    ensures
        r@ == graph_of(entities@, seqs::views(triples@)),
{
    let mut kg = KnowledgeGraph::new();
    let ghost es = entities@;
    let ghost ts = seqs::views(triples@);
    let ghost start = crate::types::graph::empty_graph();
    let mut i: usize = 0;
    while i < entities.len()
        invariant
            i <= entities@.len(),
            es == entities@,
            start == crate::types::graph::empty_graph(),
            kg@ == (GraphV {
                entities: crate::types::graph::entities_added(seq![], es.take(i as int)),
                ..start
            }),
        decreases entities@.len() - i,
    {
        assert(es.take(i + 1).drop_last() =~= es.take(i as int));
        assert(es.take(i + 1).last() == es[i as int]);
        kg.add_entity(entities.value_at(i).dup());
        i += 1;
    }
    assert(es.take(i as int) =~= es);
    let ghost base = kg@;
    let mut k: usize = 0;
    while k < triples.len()
        invariant
            k <= triples@.len(),
            ts == seqs::views(triples@),
            kg@ == crate::types::graph::triples_added(base, ts.take(k as int)),
        decreases triples.len() - k,
    {
        assert(ts.take(k + 1).drop_last() =~= ts.take(k as int));
        assert(ts.take(k + 1).last() == triples@[k as int]@);
        kg.add_triple(triples[k].dup());
        k += 1;
    }
    assert(ts.take(k as int) =~= ts);
    kg
}

impl ChunkSession {
    /// Nothing has been asked.
    pub fn new() -> (r: ChunkSession)
        ensures
            r@ == unasked(),
    {
        let r = ChunkSession {
            phase: Phase::Gleaning(0),
            entities: Table::new(),
            triples: Vec::new(),
            parsed: Vec::new(),
        };
        assert(r@.triples =~= seq![]);
        assert(r@.parsed =~= seq![]);
        r
    }

    /// What has come of the questions: what was read of each answer, and the graph of
    /// it all.
    pub fn finish(self) -> (r: (Vec<ParsedResult>, KnowledgeGraph))
        ensures
            seqs::views((r.0)@) == self@.parsed,
            (r.1)@ == graph_of(self@.entities, self@.triples),
    {
        let ChunkSession { phase: _, entities, triples, parsed } = self;
        let kg = graph_of_records(&entities, &triples);
        (parsed, kg)
    }
}

/// Whether an end of some relationship has the id `id`.
fn has_link(ts: &Vec<Triple>, id: &str) -> (r: bool)
    ensures
        r == is_linked(seqs::views(ts@), id@),
{
    let ghost all = seqs::views(ts@);
    let mut i: usize = 0;
    while i < ts.len()
        invariant
            i <= ts@.len(),
            all == seqs::views(ts@),
            forall|k: int| 0 <= k < i ==> !touches(#[trigger] all[k], id@),
        decreases ts.len() - i,
    {
        assert(all[i as int] == ts@[i as int]@);
        if text::same(ts[i].subject.id.as_str(), id) || text::same(ts[i].object.id.as_str(), id) {
            assert(touches(all[i as int], id@));
            return true;
        }
        i += 1;
    }
    false
}

/// The entities that no relationship reaches.
pub fn find_orphans(es: &Table<Entity>, ts: &Vec<Triple>) -> (r: Vec<Entity>)
    ensures
        seqs::views(r@) == orphans(es@, seqs::views(ts@)),
        r@.len() == orphans(es@, seqs::views(ts@)).len(),
{
    let ghost all = es@;
    let ghost tv = seqs::views(ts@);
    let mut out: Vec<Entity> = Vec::new();
    assert(orphans(all.take(0), tv) =~= seq![]);
    assert(seqs::views(out@) =~= seq![]);
    let mut i: usize = 0;
    while i < es.len()
        invariant
            i <= es@.len(),
            all == es@,
            tv == seqs::views(ts@),
            seqs::views(out@) == orphans(all.take(i as int), tv),
        decreases es@.len() - i,
    {
        assert(all.take(i + 1).drop_last() =~= all.take(i as int));
        assert(all.take(i + 1).last() == all[i as int]);
        let e = es.value_at(i);
        if !has_link(ts, e.id.as_str()) {
            out.push(e.dup());
        }
        i += 1;
    }
    assert(all.take(i as int) =~= all);
    assert(seqs::views(out@).len() == out@.len());
    out
}

/// Entities, one in a line.
pub fn list_orphans(es: &Vec<Entity>) -> (r: String)
    ensures
        r@ == orphan_lines(seqs::views(es@)),
{
    let ghost ev = seqs::views(es@);
    let ghost all = Seq::new(ev.len(), |i: int| "- "@ + ev[i].label);
    let mut lines: Vec<String> = Vec::new();
    let mut i: usize = 0;
    while i < es.len()
        invariant
            i <= es@.len(),
            ev == seqs::views(es@),
            all == Seq::new(ev.len(), |k: int| "- "@ + ev[k].label),
            seqs::views(lines@) =~= all.take(i as int),
        decreases es.len() - i,
    {
        assert(ev[i as int] == es@[i as int]@);
        lines.push(text::concat2("- ", es[i].label.as_str()));
        i += 1;
    }
    assert(seqs::views(lines@) =~= all);
    text::join(&lines, "\n")
}

/// A citation of a segment, where it is known where the segment stands.
pub open spec fn segment_citation(c: ConfigV, s: SegmentV) -> Option<CitationV> {
    match chunking::evidence(s) {
        Some(r) => Some(CitationV { doc: c.source_doc, range: r }),
        None => None,
    }
}

/// A citation of a segment, where it is known where the segment stands.
pub fn cite_segment(source_doc: &Option<String>, segment: &Segment) -> (r: Option<Citation>)
    ensures
        seqs::opt_view(r) == match chunking::evidence(segment@) {
            Some(range) => Some(CitationV { doc: seqs::opt_view(*source_doc), range }),
            None => None,
        },
{
    match segment.evidence_range() {
        Some(range) => Some(
            Citation::from_range(crate::types::graph::dup_option(source_doc), range.dup()),
        ),
        None => None,
    }
}

/// The graph of a segment, with a citation of the segment in each record, and with the
/// title and the values that it came with; its relationships in the direction that is
/// used, where that is asked for.
pub open spec fn stamped(c: ConfigV, s: SegmentV, g: GraphV) -> GraphV {
    let cited = match segment_citation(c, s) {
        Some(cite) => citation::graph_cited(g, cite),
        None => g,
    };
    let noted = citation::graph_noted(cited, s);
    if c.spec.canonical_direction {
        merger::directed(noted)
    } else {
        noted
    }
}

/// What was read from a segment whose place is known cites that place, every entity and
/// every relationship with both its ends, where nothing but a list stands in the place of
/// the citations.
pub proof fn law_records_cite_their_segment(
    c: ConfigV,
    s: SegmentV,
    g: GraphV,
    i: int,
    j: int,
)
    requires
        chunking::evidence(s) is Some,
        0 <= i < g.entities.len(),
        0 <= j < g.triples.len(),
        citation::can_cite(g.entities[i].1.metadata),
        citation::can_cite(g.triples[j].metadata),
        citation::can_cite(g.triples[j].subject.metadata),
        citation::can_cite(g.triples[j].object.metadata),
    ensures
        ({
            let r = stamped(c, s, g);
            let place = CitationV { doc: c.source_doc, range: chunking::evidence(s)->0 };
            &&& r.entities.len() == g.entities.len()
            &&& r.triples.len() == g.triples.len()
            &&& r.entities[i].0 == g.entities[i].0
            &&& citation::cites(r.entities[i].1.metadata, place)
            &&& !c.spec.canonical_direction ==> {
                &&& r.triples[j].subject.id == g.triples[j].subject.id
                &&& r.triples[j].object.id == g.triples[j].object.id
                &&& r.triples[j].predicate == g.triples[j].predicate
                &&& citation::cites(r.triples[j].metadata, place)
                &&& citation::cites(r.triples[j].subject.metadata, place)
                &&& citation::cites(r.triples[j].object.metadata, place)
            }
        }),
{
    let place = CitationV { doc: c.source_doc, range: chunking::evidence(s)->0 };
    let cited = citation::graph_cited(g, place);
    citation::law_every_record_is_cited(g, place, i, j);
    citation::lemma_notes_keep_citations(cited.entities[i].1.metadata, s);
    citation::lemma_notes_keep_citations(cited.triples[j].metadata, s);
    citation::lemma_notes_keep_citations(cited.triples[j].subject.metadata, s);
    citation::lemma_notes_keep_citations(cited.triples[j].object.metadata, s);
}

/// The segments but for those behind the first that have fewer than `least` characters.
pub open spec fn long_enough(s: Seq<SegmentV>, least: nat) -> Seq<SegmentV>
    decreases s.len(),
{
    if s.len() == 0 {
        seq![]
    } else if s.last().content.len() < least && s.last().index > 0 {
        long_enough(s.drop_last(), least)
    } else {
        long_enough(s.drop_last(), least).push(s.last())
    }
}

/// A segment of a text with the lines of the text that it takes up.
pub open spec fn with_lines(text: Seq<char>, s: SegmentV) -> SegmentV {
    let b = citation::line_bounds(
        citation::line_starts(text),
        s.start as nat,
        s.end as nat,
    );
    chunking::with_line_span(s, b.0 as int, b.1 as int)
}

/// Each of the segments of a text with the lines that it takes up.
pub open spec fn all_with_lines(text: Seq<char>, s: Seq<SegmentV>) -> Seq<SegmentV> {
    Seq::new(s.len(), |i: int| with_lines(text, s[i]))
}

/// The chunks of a text: the whole text where it is not longer than a segment, and
/// otherwise its segments but for short ones.
pub open spec fn chunks(c: ConfigV, text: Seq<char>) -> Option<Seq<SegmentV>> {
    if text.len() > c.segment_size {
        match chunking::segments(text, c.chunker, c.segment_size, c.overlap) {
            Some(s) => Some(
                all_with_lines(text, long_enough(s, c.min_segment_size as nat)),
            ),
            None => None,
        }
    } else {
        Some(all_with_lines(text, chunking::placed(seq![text], None)))
    }
}

/// The first of the graphs with the others merged into it, entities that are the same
/// one becoming one; the empty graph where there are none.
pub open spec fn all_deduplicated(
    gs: Seq<GraphV>,
    strategy: crate::types::spec::MergeStrategy,
    mode: crate::types::spec::CorefMode,
) -> GraphV
    decreases gs.len(),
{
    if gs.len() == 0 {
        crate::types::graph::empty_graph()
    } else if gs.len() == 1 {
        gs[0]
    } else {
        merger::deduplicated(
            all_deduplicated(gs.drop_last(), strategy, mode),
            gs.last(),
            strategy,
            mode,
        )
    }
}

/// The graphs of the chunks as one.
pub open spec fn folded(c: ConfigV, gs: Seq<GraphV>) -> GraphV {
    if c.spec.merge_duplicates {
        all_deduplicated(gs, c.spec.merge_strategy, c.spec.coref)
    } else {
        merger::all_merged(gs)
    }
}

/// What was extracted of the segments `segments`: `parsed` is what was read of the
/// answers, and `gs` the graph of each segment.
pub open spec fn response_of(
    c: ConfigV,
    segments: Seq<SegmentV>,
    parsed: Seq<ParsedResultV>,
    gs: Seq<GraphV>,
) -> ResponseV {
    response_with(
        c,
        parsed,
        folded(c, Seq::new(gs.len(), |i: int| stamped(c, segments[i], gs[i]))),
    )
}

/// What was extracted: `parsed` is what was read of the answers, and `g` the graph of
/// all segments.
pub open spec fn response_with(c: ConfigV, parsed: Seq<ParsedResultV>, g: GraphV) -> ResponseV {
    ResponseV {
        parsed_results: parsed,
        config: Some(c),
        ..crate::types::response::plain_response(g)
    }
}

/// The first of the graphs with the others merged into it, entities that are the same
/// one becoming one.
pub fn merge_all_dedup_coref(
    graphs: Vec<KnowledgeGraph>,
    strategy: crate::types::spec::MergeStrategy,
    mode: crate::types::spec::CorefMode,
) -> (r: KnowledgeGraph)
    ensures
        r@ == all_deduplicated(seqs::views(graphs@), strategy, mode),
{
    let ghost gs = seqs::views(graphs@);
    assert(gs.len() == graphs@.len());
    if graphs.len() == 0 {
        return KnowledgeGraph::new();
    }
    let mut acc = graphs[0].dup();
    let mut i: usize = 1;
    assert(gs.take(1)[0] == acc@);
    while i < graphs.len()
        invariant
            1 <= i <= graphs@.len(),
            gs == seqs::views(graphs@),
            acc@ == all_deduplicated(gs.take(i as int), strategy, mode),
        decreases graphs.len() - i,
    {
        assert(gs.take(i + 1).drop_last() =~= gs.take(i as int));
        assert(gs.take(i + 1).last() == graphs@[i as int]@);
        acc = merger::merge_with_deduplication_strategy_coref(
            acc,
            graphs[i].dup(),
            strategy,
            mode,
        );
        i += 1;
    }
    assert(gs.take(i as int) =~= gs);
    acc
}

/// Add to each of the segments of `text` the lines that it takes up.
fn add_lines(text: &str, segments: Vec<Segment>) -> (r: Vec<Segment>)
    ensures
        seqs::views(r@) == all_with_lines(text@, seqs::views(segments@)),
{
    let index = LineIndex::new(text);
    let ghost all = all_with_lines(text@, seqs::views(segments@));
    let mut out: Vec<Segment> = Vec::new();
    let mut i: usize = 0;
    while i < segments.len()
        invariant
            i <= segments@.len(),
            index@ == citation::line_starts(text@),
            all == all_with_lines(text@, seqs::views(segments@)),
            seqs::views(out@) =~= all.take(i as int),
        decreases segments.len() - i,
    {
        let mut s = segments[i].dup();
        let b = index.line_range(s.start, s.end);
        s.set_line_span(b.0, b.1);
        assert(s@ == all[i as int]);
        out.push(s);
        i += 1;
    }
    assert(seqs::views(out@) =~= all);
    out
}

/// The segments but for those behind the first that have fewer than `least` characters.
fn drop_short(segments: Vec<Segment>, least: usize) -> (r: Vec<Segment>)
    ensures
        seqs::views(r@) == long_enough(seqs::views(segments@), least as nat),
{
    let ghost all = seqs::views(segments@);
    let mut out: Vec<Segment> = Vec::new();
    assert(long_enough(all.take(0), least as nat) =~= seq![]);
    assert(seqs::views(out@) =~= seq![]);
    let mut i: usize = 0;
    while i < segments.len()
        invariant
            i <= segments@.len(),
            all == seqs::views(segments@),
            seqs::views(out@) == long_enough(all.take(i as int), least as nat),
        decreases segments.len() - i,
    {
        assert(all.take(i + 1).drop_last() =~= all.take(i as int));
        assert(all.take(i + 1).last() == segments@[i as int]@);
        if !(segments[i].content.as_str().unicode_len() < least && segments[i].index > 0) {
            out.push(segments[i].dup());
        }
        i += 1;
    }
    assert(all.take(i as int) =~= all);
    out
}

/// Of segments those are left out that are too short, but never the first; those that stay
/// are as they are and in their order.
pub proof fn law_short_segments_are_left_out(s: Seq<SegmentV>, x: SegmentV, least: nat)
    ensures
        ({
            let before = long_enough(s, least);
            let after = long_enough(s.push(x), least);
            if x.content.len() >= least || x.index == 0 {
                after == before.push(x)
            } else {
                after == before
            }
        }),
{
    assert(s.push(x).drop_last() =~= s);
}

/// A text that is no longer than a segment may be is one segment: all of it.
pub proof fn law_short_texts_stay_whole(c: ConfigV, text: Seq<char>)
    requires
        text.len() <= c.segment_size,
    ensures
        chunks(c, text) is Some,
        chunks(c, text)->0.len() == 1,
        chunks(c, text)->0[0].content == text,
        chunks(c, text)->0[0].start == 0,
        chunks(c, text)->0[0].end == text.len(),
        chunks(c, text)->0[0].index == 0,
{
}

/// A segment is cited where more than its characters is known of where it stands: in the
/// document that is cited, at the range of the segment. Nothing else is.
pub proof fn law_segments_are_cited_where_they_stand(c: ConfigV, s: SegmentV)
    ensures
        match segment_citation(c, s) {
            Some(cite) => cite.doc == c.source_doc && s.range == Some(cite.range) && (
            cite.range.line is Some || cite.range.page is Some || cite.range.bbox is Some),
            None => s.range is None || s.range->0.line is None && s.range->0.page is None
                && s.range->0.bbox is None,
        },
{
}

/// A segment knows its lines: it starts in the line behind as many line breaks as stand
/// before it, and all else that is known of it stays.
pub proof fn law_segments_know_their_lines(text: Seq<char>, s: SegmentV)
    requires
        s.start < s.end <= text.len(),
        text.len() < u32::MAX,
    ensures
        ({
            let x = with_lines(text, s);
            let line = (x.range->0).line;
            &&& x.content == s.content && x.start == s.start && x.end == s.end
            &&& x.index == s.index && x.title == s.title && x.metadata == s.metadata
            &&& x.range is Some && line is Some
            &&& line->0.start == 1 + citation::breaks(text.take(s.start as int))
            &&& line->0.end == 1 + citation::breaks(text.take(s.end - 1))
        }),
{
    let starts = citation::line_starts(text);
    citation::law_line_of_counts_breaks(text, s.start as nat);
    citation::law_line_of_counts_breaks(text, (s.end - 1) as nat);
    citation::law_lines_ascend(text, s.start as nat, (s.end - 1) as nat);
    lemma_few_breaks(text.take(s.end - 1));
}

proof fn lemma_few_breaks(s: Seq<char>)
    ensures
        citation::breaks(s) <= s.len(),
    decreases s.len(),
{
    if s.len() > 0 {
        lemma_few_breaks(s.drop_last());
    }
}

/// Where graphs are combined one after the other, every id of the first is one of the
/// result.
pub proof fn law_the_first_graph_stays(
    gs: Seq<GraphV>,
    strategy: crate::types::spec::MergeStrategy,
    mode: crate::types::spec::CorefMode,
    id: Seq<char>,
)
    requires
        gs.len() > 0,
        table::has_key(gs[0].entities, id),
    ensures
        table::has_key(all_deduplicated(gs, strategy, mode).entities, id),
    decreases gs.len(),
{
    if gs.len() > 1 {
        assert(gs.drop_last()[0] == gs[0]);
        law_the_first_graph_stays(gs.drop_last(), strategy, mode, id);
        merger::law_no_entity_lost(
            all_deduplicated(gs.drop_last(), strategy, mode),
            gs.last(),
            strategy,
            mode,
            seq![],
            id,
        );
    }
}

/// The text can be cut: segments have a size, and do not overlap by all of it.
pub open spec fn can_be_cut(c: ConfigV, text: Seq<char>) -> bool {
    text.len() > c.segment_size ==> c.segment_size > 0 && (c.chunker is Char ==> c.overlap
        < c.segment_size && text.len() + c.segment_size <= usize::MAX)
}

/// The chunks of a text, each with the lines that it takes up. There is no answer where
/// tokens are to be counted: see [`chunking::segment`].
pub fn chunk_text(config: &ExtractionConfig, text: &str) -> (r: Option<Vec<Segment>>)
    requires
        can_be_cut(config@, text@),
    ensures
        match r {
            Some(v) => chunks(config@, text@) == Some(seqs::views(v@)),
            None => chunks(config@, text@) is None,
        },
{
    if text.unicode_len() > config.segment_size {
        match chunking::segment(text, config.chunker, config.segment_size, config.overlap) {
            Some(s) => Some(add_lines(text, drop_short(s, config.min_segment_size))),
            None => None,
        }
    } else {
        let mut pieces: Vec<String> = Vec::new();
        pieces.push(text.to_owned());
        assert(seqs::views(pieces@) =~= seq![text@]);
        Some(add_lines(text, chunking::place_pieces(pieces, None)))
    }
}

impl SimpleExtractor {
    /// The configuration that is used where none is given.
    pub fn default_config() -> (r: ExtractionConfig)
        ensures
            r@ == crate::types::spec::plain_config("qwen-max"@, 5000),
    {
        ExtractionConfig::plain("qwen-max", 5000)
    }

    /// An extractor with the configuration that is used where none is given.
    pub fn new() -> (r: SimpleExtractor)
        ensures
            r@ == (SimpleV {
                config: crate::types::spec::plain_config("qwen-max"@, 5000),
                max_gleanings: MAX_GLEANINGS,
                max_relation_gleanings: 0,
                context: ""@,
            }),
            !r.quiet,
    {
        SimpleExtractor::with_config(SimpleExtractor::default_config())
    }

    /// An extractor with a configuration.
    pub fn with_config(config: ExtractionConfig) -> (r: SimpleExtractor)
        ensures
            r@ == (SimpleV {
                config: config@,
                max_gleanings: MAX_GLEANINGS,
                max_relation_gleanings: 0,
                context: ""@,
            }),
            !r.quiet,
    {
        SimpleExtractor {
            config,
            quiet: false,
            max_gleanings: MAX_GLEANINGS,
            max_relation_gleanings: 0,
            context: "".to_owned(),
        }
    }

    /// The extractor that asks `n` times about the entities that no relationship
    /// reaches.
    pub fn relation_gleanings(self, n: usize) -> (r: SimpleExtractor)
        ensures
            r@ == (SimpleV { max_relation_gleanings: n, ..self@ }),
            r.quiet == self.quiet,
    {
        let mut r = self;
        r.max_relation_gleanings = n;
        r
    }

    /// The configuration.
    pub fn config(&self) -> (r: &ExtractionConfig)
        ensures
            r@ == self@.config,
    {
        &self.config
    }

    /// What is asked of a model beside the messages.
    pub fn options(&self) -> (r: CompletionOptions)
        ensures
            r.model@ == self@.config.model_name,
            r.temperature_percent == 30,
            r.max_tokens == 6500,
    {
        CompletionOptions::of(self.config.model_name.as_str(), 30, 6500)
    }

    /// What every conversation starts with.
    pub fn system_prompt(&self) -> (r: String)
        ensures
            r@ == SYSTEM_PROMPT@,
    {
        SYSTEM_PROMPT.to_owned()
    }

    /// The question that asks for the entities and the relationships of a chunk.
    pub fn extraction_prompt(&self, chunk: &str) -> (r: String)
        ensures
            r@ == first_question(self@, chunk@),
    {
        proof {
            reveal_strlit("{entity_types}");
            reveal_strlit("{relationship_types}");
            reveal_strlit("{attribute_types}");
            reveal_strlit("{context}");
            reveal_strlit("{chunk}");
        }
        let nodes = text::join(self.config.entity_types_list(), ", ");
        let relations = list_or(self.config.predicates_list(), "related_to, part_of, uses");
        let attributes = list_or(self.config.attributes_list(), "name, type, description");
        let a = text::replace(EXTRACTION_PROMPT, "{entity_types}", nodes.as_str());
        let b = text::replace(a.as_str(), "{relationship_types}", relations.as_str());
        let c = text::replace(b.as_str(), "{attribute_types}", attributes.as_str());
        let d = text::replace(c.as_str(), "{context}", self.context.as_str());
        text::replace(d.as_str(), "{chunk}", chunk)
    }

    /// The question that asks for the relationships of entities.
    pub fn relation_prompt(&self, es: &Vec<Entity>) -> (r: String)
        ensures
            r@ == relation_question(self@, seqs::views(es@)),
    {
        proof {
            reveal_strlit("{orphans}");
            reveal_strlit("{relationship_types}");
        }
        let listed = list_orphans(es);
        let relations = list_or(
            self.config.predicates_list(),
            "related_to, part_of, uses, produces, has_property",
        );
        let a = text::replace(RELATION_GLEANING_PROMPT, "{orphans}", listed.as_str());
        text::replace(a.as_str(), "{relationship_types}", relations.as_str())
    }

    /// The next question about a chunk; none where nothing more is asked.
    pub fn next_question(&self, st: &ChunkSession, chunk: &str) -> (r: Option<String>)
        ensures
            seqs::opt_view(r) == question(self@, st@, chunk@),
    {
        match st.phase {
            Phase::Gleaning(i) => if i == 0 {
                Some(self.extraction_prompt(chunk))
            } else {
                Some(CONTINUE_PROMPT.to_owned())
            },
            Phase::Relating(_) => {
                let es = find_orphans(&st.entities, &st.triples);
                Some(self.relation_prompt(&es))
            },
            Phase::Done => None,
        }
    }

    /// Go on to the relationships of entities that have none, after `j` questions.
    fn go_relating(&self, st: &mut ChunkSession, j: usize)
        ensures
            final(st)@ == relating(self@, old(st)@, j as int),
    {
        let some = find_orphans(&st.entities, &st.triples).len() > 0;
        st.phase = if j < self.max_relation_gleanings && some {
            Phase::Relating(j)
        } else {
            Phase::Done
        };
    }

    /// Go on to what was left out, after `i` questions, or to relationships.
    fn go_gleaning(&self, st: &mut ChunkSession, i: usize)
        ensures
            final(st)@ == gleaning_over(self@, old(st)@, i),
    {
        if i < self.max_gleanings {
            st.phase = Phase::Gleaning(i + 1);
        } else {
            self.go_relating(st, 0);
        }
    }

    /// Take in what was read of an answer, after `i` questions.
    pub fn take_parsed(&self, st: &mut ChunkSession, i: usize, parsed: ParsedResult)
        ensures
            final(st)@ == gleaned(self@, old(st)@, i, parsed@),
    {
        let nothing = parsed.entities.len() == 0 && parsed.triples.len() == 0;
        let ghost more = parsed@.entities;
        let ghost es = st@.entities;
        assert(first_ones_kept(es, more.take(0)) == es);
        let mut k: usize = 0;
        while k < parsed.entities.len()
            invariant
                k <= parsed.entities@.len(),
                more == parsed.entities@,
                es == old(st)@.entities,
                st@ == (ChunkV {
                    entities: first_ones_kept(es, more.take(k as int)),
                    ..old(st)@
                }),
            decreases parsed.entities@.len() - k,
        {
            assert(more.take(k + 1).drop_last() =~= more.take(k as int));
            assert(more.take(k + 1).last() == more[k as int]);
            let id = parsed.entities.key_at(k).clone();
            if !st.entities.contains_key(id.as_str()) {
                let e = parsed.entities.value_at(k).dup();
                st.entities.insert(id, e);
            }
            k += 1;
        }
        assert(more.take(k as int) =~= more);
        let mut triples = crate::types::graph::dup_triples(&parsed.triples);
        assert(seqs::views(parsed.triples@).len() == parsed.triples@.len());
        st.triples.append(&mut triples);
        st.parsed.push(parsed);
        if i > 0 && nothing {
            self.go_relating(st, 0);
        } else {
            self.go_gleaning(st, i);
        }
    }

    /// Take in the relationships that were read of an answer, after `j` questions.
    pub fn take_related(&self, st: &mut ChunkSession, j: usize, ts: Vec<Triple>)
        requires
            j < usize::MAX,
        ensures
            final(st)@ == related(self@, old(st)@, j, seqs::views(ts@)),
    {
        let n: usize = st.triples.len();
        let ghost all = seqs::views(ts@);
        let ghost before = st@.triples;
        assert(before.len() == n);
        assert(crate::types::graph::triples_merged(before, all.take(0)) == before);
        let mut k: usize = 0;
        while k < ts.len()
            invariant
                k <= ts@.len(),
                all == seqs::views(ts@),
                before == old(st)@.triples,
                st@ == (ChunkV {
                    triples: crate::types::graph::triples_merged(before, all.take(k as int)),
                    ..old(st)@
                }),
            decreases ts.len() - k,
        {
            assert(all.take(k + 1).drop_last() =~= all.take(k as int));
            assert(all.take(k + 1).last() == ts@[k as int]@);
            if crate::types::graph::find_triple(&st.triples, &ts[k]).is_none() {
                st.triples.push(ts[k].dup());
            }
            k += 1;
        }
        assert(all.take(k as int) =~= all);
        assert(seqs::views(st.triples@).len() == st.triples@.len());
        proof {
            lemma_merged_grows(before, all);
        }
        if st.triples.len() == n {
            st.phase = Phase::Done;
        } else {
            self.go_relating(st, j + 1);
        }
    }

    /// Take in an answer; there is none where the model failed.
    pub fn take_reply(&self, st: &mut ChunkSession, reply: Option<&str>)
        requires
            is_phase(self@, old(st)@.phase),
        ensures
            final(st)@ == answered(
                self@,
                old(st)@,
                match reply {
                    Some(o) => Some(o@),
                    None => None,
                },
            ),
            is_phase(self@, final(st)@.phase),
    {
        match st.phase {
            Phase::Gleaning(i) => match reply {
                None => {
                    self.go_relating(st, 0);
                },
                Some(o) => {
                    let t = text::trim(o);
                    if t.as_str().unicode_len() == 0 {
                        self.go_gleaning(st, i);
                    } else {
                        let parsed = parse_output(t.as_str(), &self.config);
                        self.take_parsed(st, i, parsed);
                    }
                },
            },
            Phase::Relating(j) => match reply {
                None => {
                    st.phase = Phase::Done;
                },
                Some(o) => {
                    let t = text::trim(o);
                    if t.as_str().unicode_len() == 0 || text::eq_ignore_ascii_case(
                        t.as_str(),
                        "no",
                    ) {
                        st.phase = Phase::Done;
                    } else {
                        let ts = parse_relations_against(t.as_str(), &st.entities);
                        self.take_related(st, j, ts);
                    }
                },
            },
            Phase::Done => {},
        }
    }

    /// The chunks of a text, each with the lines that it takes up: see [`chunk_text`].
    pub fn chunk(&self, text: &str) -> (r: Option<Vec<Segment>>)
        requires
            can_be_cut(self@.config, text@),
        ensures
            match r {
                Some(v) => chunks(self@.config, text@) == Some(seqs::views(v@)),
                None => chunks(self@.config, text@) is None,
            },
    {
        chunk_text(&self.config, text)
    }

    /// The graph of a segment, with a citation of the segment in each record, and with
    /// the title and the values that it came with; its relationships in the direction
    /// that is used, where that is asked for.
    pub fn stamp(&self, segment: &Segment, kg: KnowledgeGraph) -> (r: KnowledgeGraph)
        ensures
            r@ == stamped(self@.config, segment@, kg@),
    {
        let mut g = kg;
        if let Some(cite) = cite_segment(&self.config.source_doc, segment) {
            citation::stamp_graph(&mut g, &cite);
        }
        citation::stamp_chunk_metadata(&mut g, segment);
        if self.config.spec.canonical_direction {
            merger::normalize_direction(&mut g);
        }
        g
    }

    /// What was extracted of segments: `parsed` is what was read of the answers, and
    /// `graphs` the graph of each segment.
    pub fn respond(
        &self,
        segments: &Vec<Segment>,
        parsed: Vec<ParsedResult>,
        graphs: Vec<KnowledgeGraph>,
    ) -> (r: ExtractionResponse)
        requires
            graphs@.len() == segments@.len(),
        ensures
            r@ == response_of(
                self@.config,
                seqs::views(segments@),
                seqs::views(parsed@),
                seqs::views(graphs@),
            ),
    {
        let ghost gs = seqs::views(graphs@);
        let ghost sv = seqs::views(segments@);
        let ghost c = self@.config;
        let ghost all = Seq::new(gs.len(), |i: int| stamped(c, sv[i], gs[i]));
        let mut out: Vec<KnowledgeGraph> = Vec::new();
        let mut i: usize = 0;
        while i < graphs.len()
            invariant
                i <= graphs@.len(),
                graphs@.len() == segments@.len(),
                gs == seqs::views(graphs@),
                sv == seqs::views(segments@),
                c == self@.config,
                all == Seq::new(gs.len(), |k: int| stamped(c, sv[k], gs[k])),
                seqs::views(out@) =~= all.take(i as int),
            decreases graphs.len() - i,
        {
            assert(gs[i as int] == graphs@[i as int]@);
            assert(sv[i as int] == segments@[i as int]@);
            let g = self.stamp(&segments[i], graphs[i].dup());
            assert(g@ == all[i as int]);
            out.push(g);
            i += 1;
        }
        assert(seqs::views(out@) =~= all);
        let kg = if self.config.spec.merge_duplicates {
            merge_all_dedup_coref(
                out,
                self.config.spec.merge_strategy,
                self.config.spec.coref,
            )
        } else {
            merger::merge_all(out)
        };
        self.respond_with(parsed, kg)
    }

    /// What was extracted: `parsed` is what was read of the answers, and `kg` the graph
    /// of all segments. Where a model writes descriptions, `kg` is what
    /// [`merger::MergeSession`] makes of the graphs of the segments.
    pub fn respond_with(&self, parsed: Vec<ParsedResult>, kg: KnowledgeGraph) -> (r:
        ExtractionResponse)
        ensures
            r@ == response_with(self@.config, seqs::views(parsed@), kg@),
    {
        let mut r = ExtractionResponse::new(kg);
        r.parsed_results = parsed;
        r.config = Some(self.config.dup());
        r
    }

    /// Whether a model writes descriptions where entities are combined.
    pub fn asks_to_merge(&self) -> (r: bool)
        ensures
            r == (self@.config.spec.merge_duplicates && self@.config.spec.merge_strategy
                == crate::types::spec::MergeStrategy::Llm),
    {
        self.config.spec.merge_duplicates && self.config.spec.merge_strategy
            == crate::types::spec::MergeStrategy::Llm
    }

    /// What is asked of a model beside the messages, where it writes a description.
    pub fn merge_options(&self) -> (r: CompletionOptions)
        ensures
            r.model@ == self@.config.model_name,
            r.temperature_percent == 30,
            r.max_tokens == 1000,
    {
        CompletionOptions::of(self.config.model_name.as_str(), 30, 1000)
    }

    /// What is asked before anything else of segments that were cut elsewhere: there
    /// must be some.
    pub fn check_prechunked(&self, segments: &Vec<Segment>) -> (r: Result<(), String>)
        ensures
            r is Ok <==> segments@.len() > 0,
            r is Err ==> r->Err_0@ == "No pre-chunked input provided"@,
    {
        if segments.len() == 0 {
            Err("No pre-chunked input provided".to_owned())
        } else {
            Ok(())
        }
    }
}

/// Merging takes no relationship away.
proof fn lemma_merged_grows(s: Seq<TripleV>, ts: Seq<TripleV>)
    ensures
        crate::types::graph::triples_merged(s, ts).len() >= s.len(),
        crate::types::graph::triples_merged(s, ts).len() == s.len()
            ==> crate::types::graph::triples_merged(s, ts) == s,
    decreases ts.len(),
{
    if ts.len() > 0 {
        lemma_merged_grows(s, ts.drop_last());
    }
}

} // verus!
