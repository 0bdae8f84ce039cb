//! Extraction in one conversation about a whole document: the document is taken slice
//! by slice, so that what was said of one slice is known for the next, and at the end
//! it is asked about the entities that no relationship reaches.

use vstd::prelude::*;

use crate::chunking::{Segment, SegmentV};
use crate::citation::{Citation, CitationV, LineIndex};
use crate::extractor::simple::{self, parse_output, parse_relations_against};
use crate::json::{Json, JsonV, ObjectBuilder};
use crate::names::NameSet;
use crate::range::LineSpan;
use crate::table::{Dup, Table};
use crate::types::graph::{
    Entity, EntityV, GraphV, KnowledgeGraph, MetadataV, Triple, TripleV,
};
use crate::types::response::{ExtractionResponse, ParsedResult, ParsedResultV, ResponseV};
use crate::types::spec::{ConfigV, ExtractionConfig, SchemaMode, SpecV};
use crate::{chunking, citation, json, names, number, seqs, table, text};

pub mod prompts;
pub mod schema_filter;

use prompts::{
    RELATION_GLEANING_PROMPT, SCHEMA_EVOLVING, SCHEMA_FEEDBACK, SCHEMA_HINTS, SCHEMA_REDO_PROMPT,
    SCHEMA_STRICT, SLICE_PROMPT, SYSTEM_PROMPT,
};
use schema_filter::{FilterV, PolicyV, SchemaFilter, SchemaPolicy, SliceV};

verus! {

broadcast use {crate::seqs::group_views, crate::json::group_json};

/// The relationships that are asked for where the schema names none.
pub const USUAL_RELATIONS: &'static str =
    "related_to, part_of, uses, produces, includes, has_property";

/// The entities `all` with the entity `e` of a slice. The first one with an id stays,
/// but it cites what the others cite too.
pub open spec fn slice_entity_merged(
    all: Seq<(Seq<char>, EntityV)>,
    id: Seq<char>,
    e: EntityV,
) -> Seq<(Seq<char>, EntityV)> {
    match table::lookup(all, id) {
        Some(known) => table::put(
            all,
            id,
            EntityV { metadata: citation::united(known.metadata, e.metadata), ..known },
        ),
        None => table::put(all, id, e),
    }
}

/// The entities `all` with each of the entities of a slice.
pub open spec fn slice_merged(
    all: Seq<(Seq<char>, EntityV)>,
    es: Seq<(Seq<char>, EntityV)>,
) -> Seq<(Seq<char>, EntityV)>
    decreases es.len(),
{
    if es.len() == 0 {
        all
    } else {
        slice_entity_merged(slice_merged(all, es.drop_last()), es.last().0, es.last().1)
    }
}

/// Put an entity of a slice among the entities.
pub fn merge_slice_entity(all: &mut Table<Entity>, id: &str, e: &Entity)
    ensures
        final(all)@ == slice_entity_merged(old(all)@, id@, e@),
{
    let kept = match all.get(id) {
        Some(known) => {
            let mut k = known.dup();
            citation::union_citations(&mut k.metadata, &e.metadata);
            k
        },
        None => e.dup(),
    };
    all.insert(id.to_owned(), kept);
}

/// Put the entities of a slice among the entities.
fn merge_slice(all: &mut Table<Entity>, es: &Table<Entity>)
    ensures
        final(all)@ == slice_merged(old(all)@, es@),
{
    let ghost before = all@;
    let ghost more = es@;
    assert(slice_merged(before, more.take(0)) == before);
    let mut i: usize = 0;
    while i < es.len()
        invariant
            i <= es@.len(),
            more == es@,
            before == old(all)@,
            all@ == slice_merged(before, more.take(i as int)),
        decreases es@.len() - i,
    {
        assert(more.take(i + 1).drop_last() =~= more.take(i as int));
        assert(more.take(i + 1).last() == more[i as int]);
        merge_slice_entity(all, es.key_at(i).as_str(), es.value_at(i));
        i += 1;
    }
    assert(more.take(i as int) =~= more);
}

/// What is told of the types that a slice proposes: nothing where there are none.
pub open spec fn proposal_log(
    slice: nat,
    nodes: Seq<Seq<char>>,
    relations: Seq<Seq<char>>,
) -> Option<Seq<char>> {
    if nodes.len() == 0 && relations.len() == 0 {
        None
    } else {
        Some(
            "  [schema] slice "@ + text::decimal(slice + 1) + " proposed "@ + text::decimal(
                nodes.len() + relations.len(),
            ) + " new type(s): "@ + text::joined(nodes + relations, ", "@),
        )
    }
}

/// What is told of the types that a slice proposes.
pub fn new_types_proposal_log(
    slice_index: usize,
    new_nodes: &NameSet,
    new_relations: &NameSet,
) -> (r: Option<String>)
    requires
        slice_index < u64::MAX,
        new_nodes@.len() + new_relations@.len() <= u64::MAX,
    ensures
        seqs::opt_view(r) == proposal_log(slice_index as nat, new_nodes@, new_relations@),
{
    if new_nodes.is_empty() && new_relations.is_empty() {
        return None;
    }
    let mut all = new_nodes.to_vec();
    let mut more = new_relations.to_vec();
    all.append(&mut more);
    let count: u64 = new_nodes.len() as u64 + new_relations.len() as u64;
    let index: u64 = slice_index as u64 + 1;
    let mut s = text::concat2("  [schema] slice ", text::to_decimal(index).as_str());
    s.append(" proposed ");
    s.append(text::to_decimal(count).as_str());
    s.append(" new type(s): ");
    s.append(text::join(&all, ", ").as_str());
    assert(s@ == proposal_log(slice_index as nat, new_nodes@, new_relations@)->0);
    Some(s)
}

/// What was read of an answer, each record of it citing `c`.
pub open spec fn result_cited(p: ParsedResultV, c: CitationV) -> ParsedResultV {
    let g = citation::graph_cited(
        GraphV { entities: p.entities, triples: p.triples, metadata: seq![] },
        c,
    );
    ParsedResultV { entities: g.entities, triples: g.triples, ..p }
}

/// Let every entity and every relationship that was read of an answer cite `cite`, and
/// the ends of the relationships too.
pub fn stamp_slice_citations(parsed: &mut ParsedResult, cite: &Citation)
    ensures
        final(parsed)@ == result_cited(old(parsed)@, cite@),
{
    let mut kg = KnowledgeGraph {
        entities: parsed.entities.dup(),
        triples: crate::types::graph::dup_triples(&parsed.triples),
        metadata: Table::new(),
    };
    assert(kg@.metadata =~= seq![]);
    citation::stamp_graph(&mut kg, cite);
    let KnowledgeGraph { entities, triples, metadata: _ } = kg;
    parsed.entities = entities;
    parsed.triples = triples;
}

/// Put what was read of an answer among the rest, whatever the schema.
pub fn commit_unconstrained_slice(
    all_entities: &mut Table<Entity>,
    all_triples: &mut Vec<Triple>,
    parsed_results: &mut Vec<ParsedResult>,
    parsed: ParsedResult,
)
    ensures
        final(all_entities)@ == slice_merged(old(all_entities)@, parsed@.entities),
        seqs::views(final(all_triples)@) == seqs::views(old(all_triples)@) + parsed@.triples,
        seqs::views(final(parsed_results)@) == seqs::views(old(parsed_results)@).push(parsed@),
{
    merge_slice(all_entities, &parsed.entities);
    let mut ts = crate::types::graph::dup_triples(&parsed.triples);
    all_triples.append(&mut ts);
    parsed_results.push(parsed);
}

/// What an [`AgenticExtractor`] stands for.
pub struct AgenticV {
    pub config: ConfigV,
    pub agent: Seq<char>,
    pub max_relation_gleanings: usize,
}

/// Extraction with an agent that has the document before it.
pub struct AgenticExtractor {
    pub config: ExtractionConfig,
    /// Whose agent it is.
    pub agent: String,
    /// How often it is asked about the entities that no relationship reaches.
    pub max_relation_gleanings: usize,
    pub quiet: bool,
}

impl View for AgenticExtractor {
    type V = AgenticV;

    open spec fn view(&self) -> AgenticV {
        AgenticV {
            config: self.config@,
            agent: self.agent@,
            max_relation_gleanings: self.max_relation_gleanings,
        }
    }
}

/// The types of entities of a schema, with commas between them.
pub open spec fn entity_types(c: ConfigV) -> Seq<char> {
    text::joined(c.spec.schema.nodes, ", "@)
}

/// The types of relationships of a schema, with commas between them.
pub open spec fn relationship_types(c: ConfigV) -> Seq<char> {
    simple::listed(c.spec.schema.relations, USUAL_RELATIONS@)
}

/// A text with the types of a schema in their places.
pub open spec fn with_types(s: Seq<char>, entities: Seq<char>, relations: Seq<char>) -> Seq<char> {
    text::replaced(
        text::replaced(s, "{entity_types}"@, entities),
        "{relationship_types}"@,
        relations,
    )
}

/// What a schema makes of the records of the answers.
pub open spec fn policy(c: ConfigV) -> PolicyV {
    schema_filter::policy_of(c.spec.mode, c.spec.schema)
}

/// What the conversation starts with.
pub open spec fn opening(c: ConfigV) -> Seq<char> {
    let section = match policy(c) {
        PolicyV::Fixed(_) => SCHEMA_STRICT@,
        PolicyV::Evolving(_) => SCHEMA_EVOLVING@,
        PolicyV::Off => SCHEMA_HINTS@,
    };
    with_types(
        text::replaced(SYSTEM_PROMPT@, "{schema_section}"@, section),
        entity_types(c),
        relationship_types(c),
    )
}

/// The question that asks for the entities and the relationships of a slice. Slices are
/// counted from one.
pub open spec fn slice_question(i: nat, n: nat, slice: Seq<char>) -> Seq<char> {
    text::replaced(
        text::replaced(
            text::replaced(SLICE_PROMPT@, "{i}"@, text::decimal(i + 1)),
            "{n}"@,
            text::decimal(n),
        ),
        "{slice}"@,
        slice,
    )
}

/// The question that asks for an answer again.
pub open spec fn redo_question(entities: Seq<char>, relations: Seq<char>) -> Seq<char> {
    with_types(SCHEMA_REDO_PROMPT@, entities, relations)
}

/// What is told of records that were left out: nothing where none were.
pub open spec fn feedback_on(
    dropped: u64,
    types: Seq<Seq<char>>,
    entities: Seq<char>,
    relations: Seq<char>,
) -> Option<Seq<char>> {
    if dropped == 0 {
        None
    } else {
        let list = text::joined(types, ", "@);
        let slot = if list.len() == 0 {
            ""@
        } else {
            " (dropped: "@ + list + ")"@
        };
        Some(
            with_types(
                text::replaced(
                    text::replaced(SCHEMA_FEEDBACK@, "{dropped}"@, text::decimal(dropped as nat)),
                    "{dropped_types}"@,
                    slot,
                ),
                entities,
                relations,
            ),
        )
    }
}

/// The question that asks for the relationships of entities.
pub open spec fn relation_question(c: ConfigV, es: Seq<EntityV>) -> Seq<char> {
    text::replaced(
        text::replaced(RELATION_GLEANING_PROMPT@, "{orphans}"@, simple::orphan_lines(es)),
        "{relationship_types}"@,
        relationship_types(c),
    )
}

/// How far the conversation has come.
#[derive(Clone, Copy, Debug, PartialEq, Eq, Structural)]
pub enum Turn {
    /// It is about the slice with this number; whether it is asked about it again.
    Slice(usize, bool),
    /// It is about the relationships of entities that have none; so often it was asked
    /// before.
    Relating(usize),
    /// It is over.
    Done,
}

/// What a [`Session`] stands for.
#[verifier::ext_equal]
pub struct SessionV {
    pub turn: Turn,
    pub feedback: Option<Seq<char>>,
    pub entities: Seq<(Seq<char>, EntityV)>,
    pub triples: Seq<TripleV>,
    pub parsed: Seq<ParsedResultV>,
    pub tool_uses: u64,
    pub dropped: u64,
    pub dropped_types: Seq<Seq<char>>,
    pub new_nodes: Seq<Seq<char>>,
    pub new_relations: Seq<Seq<char>>,
}

/// What has come of a conversation.
pub struct Session {
    pub turn: Turn,
    /// What is told before the next slice.
    pub feedback: Option<String>,
    pub entities: Table<Entity>,
    pub triples: Vec<Triple>,
    pub parsed: Vec<ParsedResult>,
    /// How often the agent looked something up.
    pub tool_uses: u64,
    pub dropped: u64,
    pub dropped_types: NameSet,
    pub new_nodes: NameSet,
    pub new_relations: NameSet,
}

impl View for Session {
    type V = SessionV;

    open spec fn view(&self) -> SessionV {
        SessionV {
            turn: self.turn,
            feedback: seqs::opt_view(self.feedback),
            entities: self.entities@,
            triples: seqs::views(self.triples@),
            parsed: seqs::views(self.parsed@),
            tool_uses: self.tool_uses,
            dropped: self.dropped,
            dropped_types: self.dropped_types@,
            new_nodes: self.new_nodes@,
            new_relations: self.new_relations@,
        }
    }
}

/// A conversation about `n` slices before the first question.
pub open spec fn unopened(n: nat) -> SessionV {
    SessionV {
        turn: if n > 0 {
            Turn::Slice(0, false)
        } else {
            Turn::Done
        },
        feedback: None,
        entities: seq![],
        triples: seq![],
        parsed: seq![],
        tool_uses: 0,
        dropped: 0,
        dropped_types: seq![],
        new_nodes: seq![],
        new_relations: seq![],
    }
}

/// A turn that there can be.
pub open spec fn is_turn(x: AgenticV, n: nat, t: Turn) -> bool {
    match t {
        Turn::Slice(i, _) => i < n,
        Turn::Relating(j) => j < x.max_relation_gleanings,
        Turn::Done => true,
    }
}

/// How many more questions there can be.
pub open spec fn turns_left(x: AgenticV, n: nat, t: Turn) -> int {
    match t {
        Turn::Slice(i, again) => 2 * (n - i) - (if again {
            1int
        } else {
            0
        }) + x.max_relation_gleanings,
        Turn::Relating(j) => x.max_relation_gleanings - j,
        Turn::Done => 0,
    }
}

/// The next question.
pub open spec fn question(x: AgenticV, slices: Seq<SegmentV>, st: SessionV) -> Option<Seq<char>> {
    match st.turn {
        Turn::Slice(i, again) => if again {
            Some(redo_question(entity_types(x.config), relationship_types(x.config)))
        } else {
            let asked = slice_question(i as nat, slices.len(), slices[i as int].content);
            Some(
                match st.feedback {
                    Some(f) => f + "\n\n"@ + asked,
                    None => asked,
                },
            )
        },
        Turn::Relating(_) => Some(
            relation_question(x.config, simple::orphans(st.entities, st.triples)),
        ),
        Turn::Done => None,
    }
}

/// `a` and `b` together, as far as numbers go.
pub open spec fn sum_up(a: u64, b: u64) -> u64 {
    if a + b <= u64::MAX {
        (a + b) as u64
    } else {
        u64::MAX
    }
}

/// Relationships are asked for next, after `j` times: as long as it is wanted and some
/// entity has none.
pub open spec fn relating(x: AgenticV, st: SessionV, j: int) -> SessionV {
    SessionV {
        turn: if j < x.max_relation_gleanings && simple::orphans(st.entities, st.triples).len()
            > 0 {
            Turn::Relating(j as usize)
        } else {
            Turn::Done
        },
        ..st
    }
}

/// The conversation goes on behind the slice `i` of `n`.
pub open spec fn slice_over(x: AgenticV, n: nat, st: SessionV, i: usize) -> SessionV {
    if i + 1 < n {
        SessionV { turn: Turn::Slice((i + 1) as usize, false), ..st }
    } else {
        relating(x, st, 0)
    }
}

/// `st` with all that was read of an answer.
pub open spec fn committed(st: SessionV, p: ParsedResultV) -> SessionV {
    SessionV {
        entities: slice_merged(st.entities, p.entities),
        triples: st.triples + p.triples,
        parsed: st.parsed.push(p),
        ..st
    }
}

/// `st` with what the schema allows of what was read of an answer.
pub open spec fn kept(x: AgenticV, st: SessionV, p: ParsedResultV, s: SliceV) -> SessionV {
    SessionV {
        entities: slice_merged(st.entities, s.kept_entities),
        triples: st.triples + s.kept_triples,
        parsed: st.parsed.push(p),
        dropped: sum_up(st.dropped, s.dropped_records),
        dropped_types: names::with_names(st.dropped_types, s.dropped_types),
        feedback: feedback_on(
            s.dropped_records,
            s.dropped_types,
            entity_types(x.config),
            relationship_types(x.config),
        ),
        ..st
    }
}

/// What has come of the conversation when `p` was read of the answer about the slice
/// `i`; `tokens` are the types of its entities as it wrote them. An answer of which
/// nothing can be kept is asked for again, once.
pub open spec fn slice_taken(
    x: AgenticV,
    n: nat,
    st: SessionV,
    i: usize,
    again: bool,
    p: ParsedResultV,
    tokens: Seq<(Seq<char>, Seq<char>)>,
) -> SessionV {
    match policy(x.config) {
        PolicyV::Off => slice_over(x, n, committed(st, p), i),
        PolicyV::Evolving(f) => {
            let nodes = schema_filter::types_beyond(
                f.nodes,
                schema_filter::node_types(p.entities, tokens),
            );
            let relations = schema_filter::types_beyond(
                f.relations,
                schema_filter::relation_types(p.triples),
            );
            slice_over(
                x,
                n,
                SessionV {
                    new_nodes: names::with_names(st.new_nodes, nodes),
                    new_relations: names::with_names(st.new_relations, relations),
                    ..committed(st, p)
                },
                i,
            )
        },
        PolicyV::Fixed(f) => {
            let s = schema_filter::filtered(f, p.entities, p.triples, tokens);
            if schema_filter::nothing_kept(s) && !again {
                SessionV { turn: Turn::Slice(i, true), ..st }
            } else {
                slice_over(x, n, kept(x, st, p, s), i)
            }
        },
    }
}

/// Those of the relationships `ts` that are allowed.
pub open spec fn allowed_ones(f: FilterV, ts: Seq<TripleV>) -> Seq<TripleV>
    decreases ts.len(),
{
    if ts.len() == 0 {
        seq![]
    } else if schema_filter::relation_allowed(f, schema_filter::relation_type(ts.last())) {
        allowed_ones(f, ts.drop_last()).push(ts.last())
    } else {
        allowed_ones(f, ts.drop_last())
    }
}

/// Those of the relationships `ts` that are not among the relationships `known`, each
/// once.
pub open spec fn fresh(known: Seq<TripleV>, ts: Seq<TripleV>) -> Seq<TripleV> {
    crate::types::graph::triples_merged(known, ts).skip(known.len() as int)
}

/// The relationships that an answer brings: new ones, and allowed ones where the schema
/// binds.
pub open spec fn rescued(p: PolicyV, known: Seq<TripleV>, ts: Seq<TripleV>) -> Seq<TripleV> {
    match p {
        PolicyV::Fixed(f) => allowed_ones(f, fresh(known, ts)),
        _ => fresh(known, ts),
    }
}

/// The relationships `ts`, each of them citing the lines of the document.
pub open spec fn document_cited(
    c: ConfigV,
    lines: Option<(usize, usize)>,
    ts: Seq<TripleV>,
) -> Seq<TripleV> {
    match lines {
        Some((a, b)) => Seq::new(
            ts.len(),
            |i: int|
                TripleV {
                    metadata: citation::cited(
                        ts[i].metadata,
                        citation::line_citation(c.source_doc, a as int, b as int),
                    ),
                    ..ts[i]
                },
        ),
        None => ts,
    }
}

/// An answer about relationships adds those that it rescues behind those that are there,
/// each between its own ends; entities and the relationships before them stay. Where it
/// rescues none, the conversation is over.
pub proof fn law_rescued_relationships_are_added(
    x: AgenticV,
    lines: Option<(usize, usize)>,
    st: SessionV,
    j: usize,
    ts: Seq<TripleV>,
    i: int,
)
    ensures
        ({
            let more = rescued(policy(x.config), st.triples, ts);
            let r = relations_taken(x, lines, st, j, ts);
            let n = st.triples.len() as int;
            &&& r.entities == st.entities
            &&& r.new_nodes == st.new_nodes
            &&& r.triples.len() == n + more.len()
            &&& r.triples.take(n) == st.triples
            &&& more.len() == 0 ==> r.turn == Turn::Done
            &&& 0 <= i < more.len() ==> {
                let t = r.triples[n + i];
                &&& t.subject == more[i].subject
                &&& t.predicate == more[i].predicate
                &&& t.object == more[i].object
                &&& t.confidence == more[i].confidence
            }
        }),
{
    let r = relations_taken(x, lines, st, j, ts);
    assert(r.triples.take(st.triples.len() as int) =~= st.triples);
}

/// What has come of the conversation when the relationships `ts` were read of an answer
/// about entities that have none.
pub open spec fn relations_taken(
    x: AgenticV,
    lines: Option<(usize, usize)>,
    st: SessionV,
    j: usize,
    ts: Seq<TripleV>,
) -> SessionV {
    let more = rescued(policy(x.config), st.triples, ts);
    if more.len() == 0 {
        SessionV { turn: Turn::Done, ..st }
    } else {
        let next = SessionV {
            triples: st.triples + document_cited(x.config, lines, more),
            new_relations: match policy(x.config) {
                PolicyV::Evolving(f) => names::with_names(
                    st.new_relations,
                    schema_filter::types_beyond(
                        f.relations,
                        schema_filter::relation_types(more),
                    ),
                ),
                _ => st.new_relations,
            },
            ..st
        };
        relating(x, next, j + 1)
    }
}

/// What was read of the answer about a slice, each record of it citing the slice.
pub open spec fn slice_read(c: ConfigV, s: SegmentV, t: Seq<char>) -> ParsedResultV {
    match simple::segment_citation(c, s) {
        Some(cite) => result_cited(simple::parse::output_read(t), cite),
        None => simple::parse::output_read(t),
    }
}

/// What has come of the conversation after an answer, and the number of times that the
/// agent looked something up for it; there is none where the agent failed.
pub open spec fn answered(
    x: AgenticV,
    slices: Seq<SegmentV>,
    lines: Option<(usize, usize)>,
    st: SessionV,
    reply: Option<(Seq<char>, u64)>,
) -> SessionV {
    let n = slices.len();
    match (st.turn, reply) {
        (Turn::Slice(_, _), None) => relating(x, SessionV { feedback: None, ..st }, 0),
        (Turn::Slice(i, again), Some((o, tools))) => {
            let next = SessionV {
                feedback: None,
                tool_uses: sum_up(st.tool_uses, tools),
                ..st
            };
            let t = text::trimmed(o);
            if t.len() == 0 {
                slice_over(x, n, next, i)
            } else {
                slice_taken(
                    x,
                    n,
                    next,
                    i,
                    again,
                    slice_read(x.config, slices[i as int], t),
                    simple::parse::type_tokens(simple::parse::items(t)),
                )
            }
        },
        (Turn::Relating(_), None) => SessionV { turn: Turn::Done, ..st },
        (Turn::Relating(j), Some((o, tools))) => {
            let next = SessionV { tool_uses: sum_up(st.tool_uses, tools), ..st };
            let t = text::trimmed(o);
            if t.len() == 0 || text::same_but_ascii_case(t, "no"@) {
                SessionV { turn: Turn::Done, ..next }
            } else {
                relations_taken(
                    x,
                    lines,
                    next,
                    j,
                    simple::parse::relations_read(simple::parse::items(t), st.entities),
                )
            }
        },
        (Turn::Done, _) => st,
    }
}

/// Each answer brings the end of the conversation nearer: every slice is asked about
/// once or twice, and about relationships it is asked no oftener than was wanted.
pub proof fn law_conversation_comes_to_an_end(
    x: AgenticV,
    slices: Seq<SegmentV>,
    lines: Option<(usize, usize)>,
    st: SessionV,
    reply: Option<(Seq<char>, u64)>,
)
    requires
        is_turn(x, slices.len(), st.turn),
        st.turn !is Done,
        slices.len() <= usize::MAX,
    ensures
        ({
            let next = answered(x, slices, lines, st, reply).turn;
            &&& is_turn(x, slices.len(), next)
            &&& 0 <= turns_left(x, slices.len(), next) < turns_left(x, slices.len(), st.turn)
        }),
        turns_left(x, slices.len(), unopened(slices.len()).turn) <= 2 * slices.len()
            + x.max_relation_gleanings,
{
}

/// Entities of a slice stand behind those that are there: one that is there stays as it
/// is, but for what it cites, and every id of either is one of the result.
pub proof fn law_first_entities_are_kept(
    all: Seq<(Seq<char>, EntityV)>,
    es: Seq<(Seq<char>, EntityV)>,
    id: Seq<char>,
    k: Seq<char>,
)
    requires
        k != "citations"@,
    ensures
        ({
            let r = slice_merged(all, es);
            &&& table::has_key(r, id) <==> table::has_key(all, id) || table::has_key(es, id)
            &&& table::has_key(all, id) ==> {
                let a = table::lookup(all, id)->0;
                let b = table::lookup(r, id)->0;
                &&& b.id == a.id && b.label == a.label && b.entity_type == a.entity_type
                &&& b.description == a.description && b.confidence == a.confidence
                &&& table::lookup(b.metadata, k) == table::lookup(a.metadata, k)
            }
        }),
    decreases es.len(),
{
    if es.len() > 0 {
        let rest = es.drop_last();
        law_first_entities_are_kept(all, rest, id, k);
        let m = slice_merged(all, rest);
        let (x, e) = es.last();
        let kept = match table::lookup(m, x) {
            Some(known) => EntityV {
                metadata: citation::united(known.metadata, e.metadata),
                ..known
            },
            None => e,
        };
        table::lemma_lookup_put(m, x, kept, id);
        if let Some(known) = table::lookup(m, x) {
            citation::law_only_citations_are_united(known.metadata, e.metadata, k);
        }
        table::lemma_position(es, id);
        table::lemma_position(rest, id);
        if table::has_key(rest, id) {
            let p = table::position(rest, id)->0;
            assert(es[p].0 == id);
        }
        if x == id {
            assert(es[es.len() - 1].0 == id);
        } else if table::has_key(es, id) {
            let p = table::position(es, id)->0;
            assert(rest[p].0 == id);
        }
    }
}

/// Where the schema does not bind, all that is read of an answer about a slice is taken in:
/// its relationships stand behind those that were there, and the answer is kept. The next
/// slice is asked about next, and the agent is told nothing about it before.
pub proof fn law_answers_are_taken_in(
    x: AgenticV,
    slices: Seq<SegmentV>,
    lines: Option<(usize, usize)>,
    st: SessionV,
    o: Seq<char>,
    tools: u64,
    i: usize,
    again: bool,
)
    requires
        st.turn == Turn::Slice(i, again),
        policy(x.config) !is Fixed,
        text::trimmed(o).len() > 0,
    ensures
        ({
            let next = answered(x, slices, lines, st, Some((o, tools)));
            let p = slice_read(x.config, slices[i as int], text::trimmed(o));
            &&& next.triples == st.triples + p.triples
            &&& next.parsed == st.parsed.push(p)
            &&& next.dropped == st.dropped
            &&& next.feedback is None
            &&& i + 1 < slices.len() && slices.len() <= usize::MAX ==> next.turn == Turn::Slice(
                (i + 1) as usize,
                false,
            )
            &&& st.tool_uses + tools <= u64::MAX ==> next.tool_uses == st.tool_uses + tools
        }),
{
}

/// Where the schema binds, an answer of which something is kept brings in what the schema
/// allows of it and counts the rest; the agent is told of the rest where, and only where,
/// there is any. An answer of which nothing can be kept is asked for once more, and changes
/// nothing but that.
pub proof fn law_binding_schema_decides_what_is_taken_in(
    x: AgenticV,
    slices: Seq<SegmentV>,
    lines: Option<(usize, usize)>,
    st: SessionV,
    o: Seq<char>,
    tools: u64,
    i: usize,
    again: bool,
    f: FilterV,
)
    requires
        st.turn == Turn::Slice(i, again),
        policy(x.config) == PolicyV::Fixed(f),
        text::trimmed(o).len() > 0,
    ensures
        ({
            let next = answered(x, slices, lines, st, Some((o, tools)));
            let p = slice_read(x.config, slices[i as int], text::trimmed(o));
            let tokens = simple::parse::type_tokens(simple::parse::items(text::trimmed(o)));
            let s = schema_filter::filtered(f, p.entities, p.triples, tokens);
            let nothing = s.dropped_records > 0 && s.kept_entities.len() == 0
                && s.kept_triples.len() == 0;
            if nothing && !again {
                &&& next.turn == Turn::Slice(i, true)
                &&& next.triples == st.triples && next.entities == st.entities
                &&& next.dropped == st.dropped && next.parsed == st.parsed
            } else {
                &&& next.triples == st.triples + s.kept_triples
                &&& next.parsed == st.parsed.push(p)
                &&& st.dropped + s.dropped_records <= u64::MAX ==> next.dropped == st.dropped
                    + s.dropped_records
                &&& next.feedback is Some <==> s.dropped_records > 0
            }
        }),
{
}

/// The schema allows the types of all of the relationships.
pub open spec fn all_allowed(f: FilterV, ts: Seq<TripleV>) -> bool {
    forall|i: int|
        0 <= i < ts.len() ==> schema_filter::relation_allowed(
            f,
            schema_filter::relation_type(#[trigger] ts[i]),
        )
}

/// Where the schema binds, no answer brings in a relationship of a type that it does
/// not allow, whether it is about a slice or about entities that have none.
pub proof fn law_fixed_schema_binds_relationships(
    x: AgenticV,
    slices: Seq<SegmentV>,
    lines: Option<(usize, usize)>,
    st: SessionV,
    reply: Option<(Seq<char>, u64)>,
    f: FilterV,
)
    requires
        policy(x.config) == PolicyV::Fixed(f),
        all_allowed(f, st.triples),
    ensures
        all_allowed(f, answered(x, slices, lines, st, reply).triples),
{
    if let Some((o, tools)) = reply {
        let t = text::trimmed(o);
        match st.turn {
            Turn::Slice(i, again) => {
                let p = slice_read(x.config, slices[i as int], t);
                let tokens = simple::parse::type_tokens(simple::parse::items(t));
                let nodes = schema_filter::node_types(p.entities, tokens);
                let types = schema_filter::relation_types(p.triples);
                let s = schema_filter::filtered(f, p.entities, p.triples, tokens);
                assert forall|k: int| 0 <= k < s.kept_triples.len() implies
                    schema_filter::relation_allowed(
                    f,
                    schema_filter::relation_type(#[trigger] s.kept_triples[k]),
                ) by {
                    schema_filter::law_kept_relationships_are_anchored(
                        f,
                        p.entities,
                        nodes,
                        p.triples,
                        types,
                        k,
                    );
                }
                assert(all_allowed(f, st.triples + s.kept_triples));
            },
            Turn::Relating(j) => {
                let ts = simple::parse::relations_read(simple::parse::items(t), st.entities);
                let more = rescued(policy(x.config), st.triples, ts);
                lemma_allowed_ones(f, fresh(st.triples, ts));
                let cited = document_cited(x.config, lines, more);
                assert forall|k: int| 0 <= k < cited.len() implies
                    schema_filter::relation_allowed(
                    f,
                    schema_filter::relation_type(#[trigger] cited[k]),
                ) by {
                    assert(schema_filter::relation_type(cited[k]) == schema_filter::relation_type(
                        more[k],
                    ));
                }
                assert(all_allowed(f, st.triples + cited));
            },
            Turn::Done => {},
        }
    }
}

/// What is kept of relationships is allowed.
proof fn lemma_allowed_ones(f: FilterV, ts: Seq<TripleV>)
    ensures
        all_allowed(f, allowed_ones(f, ts)),
    decreases ts.len(),
{
    if ts.len() > 0 {
        lemma_allowed_ones(f, ts.drop_last());
    }
}

/// The lines that a segment is known to stand on.
pub open spec fn lines_of(s: SegmentV) -> Option<LineSpan> {
    match s.range {
        Some(r) => r.line,
        None => None,
    }
}

/// The lines that segments cover start where the first line of one of them is and end where
/// the last line of one of them is, with the lines of every segment between; nothing is
/// covered where no lines are known.
pub proof fn law_covered_lines_hold_every_segment(s: Seq<SegmentV>, i: int)
    requires
        0 <= i < s.len(),
    ensures
        match lines_covered(s) {
            Some((a, b)) => {
                &&& lines_of(s[i]) matches Some(l) ==> a <= l.start && l.end <= b
                &&& exists|j: int|
                    0 <= j < s.len() && (lines_of(#[trigger] s[j]) matches Some(l) && l.start == a)
                &&& exists|j: int|
                    0 <= j < s.len() && (lines_of(#[trigger] s[j]) matches Some(l) && l.end == b)
            },
            None => lines_of(s[i]) is None,
        },
    decreases s.len(),
{
    let before = s.drop_last();
    let last = s.len() - 1;
    if before.len() == 0 {
        assert(lines_covered(before) is None);
        assert(s[last] == s.last());
    } else {
        let k = if i < last {
            i
        } else {
            0
        };
        law_covered_lines_hold_every_segment(before, k);
        assert(before[k] == s[k]);
        if let Some((a, b)) = lines_covered(before) {
            let x = choose|j: int|
                0 <= j < before.len() && (lines_of(#[trigger] before[j]) matches Some(l) && l.start
                    == a);
            let y = choose|j: int|
                0 <= j < before.len() && (lines_of(#[trigger] before[j]) matches Some(l) && l.end
                    == b);
            assert(s[x] == before[x]);
            assert(s[y] == before[y]);
        }
        assert(s[last] == s.last());
    }
}

/// The lines that segments cover, from the first to the last, where any of them knows
/// its lines.
pub open spec fn lines_covered(s: Seq<SegmentV>) -> Option<(usize, usize)>
    decreases s.len(),
{
    if s.len() == 0 {
        None
    } else {
        let before = lines_covered(s.drop_last());
        let span = match s.last().range {
            Some(r) => r.line,
            None => None,
        };
        match (before, span) {
            (_, None) => before,
            (None, Some(l)) => Some((l.start as usize, l.end as usize)),
            (Some((a, b)), Some(l)) => Some(
                (
                    if (l.start as usize) < a {
                        l.start as usize
                    } else {
                        a
                    },
                    if (l.end as usize) > b {
                        l.end as usize
                    } else {
                        b
                    },
                ),
            ),
        }
    }
}

/// The lines that segments cover, where any of them knows its lines.
pub fn cover_lines(s: &Vec<Segment>) -> (r: Option<(usize, usize)>)
    ensures
        r == lines_covered(seqs::views(s@)),
{
    let ghost all = seqs::views(s@);
    let mut out: Option<(usize, usize)> = None;
    let mut i: usize = 0;
    while i < s.len()
        invariant
            i <= s@.len(),
            all == seqs::views(s@),
            out == lines_covered(all.take(i as int)),
        decreases s.len() - i,
    {
        assert(all.take(i + 1).drop_last() =~= all.take(i as int));
        assert(all.take(i + 1).last() == s@[i as int]@);
        if let Some(l) = s[i].line_span() {
            let from: usize = l.start as usize;
            let to: usize = l.end as usize;
            out = match out {
                Some((a, b)) => Some(
                    (
                        if from < a {
                            from
                        } else {
                            a
                        },
                        if to > b {
                            to
                        } else {
                            b
                        },
                    ),
                ),
                None => Some((from, to)),
            };
        }
        i += 1;
    }
    assert(all.take(i as int) =~= all);
    out
}

/// The texts of segments with blank lines between them.
pub open spec fn document_of(s: Seq<SegmentV>) -> Seq<char> {
    text::joined(Seq::new(s.len(), |i: int| s[i].content), "\n\n"@)
}

/// The texts of segments with blank lines between them.
pub fn join_segments(s: &Vec<Segment>) -> (r: String)
    ensures
        r@ == document_of(seqs::views(s@)),
{
    let ghost sv = seqs::views(s@);
    let ghost all = Seq::new(sv.len(), |i: int| sv[i].content);
    let mut out: Vec<String> = Vec::new();
    let mut i: usize = 0;
    while i < s.len()
        invariant
            i <= s@.len(),
            sv == seqs::views(s@),
            all == Seq::new(sv.len(), |k: int| sv[k].content),
            seqs::views(out@) =~= all.take(i as int),
        decreases s.len() - i,
    {
        assert(sv[i as int] == s@[i as int]@);
        out.push(s[i].content.clone());
        i += 1;
    }
    assert(seqs::views(out@) =~= all);
    chunking::join_texts(&out, "\n\n")
}

/// What a [`SessionOutcome`] stands for.
pub struct OutcomeV {
    pub slices_count: usize,
    pub total_tool_uses: u64,
    pub entities: Seq<(Seq<char>, EntityV)>,
    pub triples: Seq<TripleV>,
    pub parsed_results: Seq<ParsedResultV>,
    pub total_dropped: u64,
    pub dropped_types: Seq<Seq<char>>,
    pub new_nodes: Seq<Seq<char>>,
    pub new_relations: Seq<Seq<char>>,
}

/// What came of a conversation that is over.
pub struct SessionOutcome {
    pub slices_count: usize,
    pub total_tool_uses: u64,
    pub entities: Table<Entity>,
    pub triples: Vec<Triple>,
    pub parsed_results: Vec<ParsedResult>,
    /// How many records the schema did not allow.
    pub total_dropped: u64,
    /// The types that it did not allow.
    pub dropped_types: NameSet,
    /// The types of entities that it does not name.
    pub new_nodes: NameSet,
    /// The types of relationships that it does not name.
    pub new_relations: NameSet,
}

impl View for SessionOutcome {
    type V = OutcomeV;

    open spec fn view(&self) -> OutcomeV {
        OutcomeV {
            slices_count: self.slices_count,
            total_tool_uses: self.total_tool_uses,
            entities: self.entities@,
            triples: seqs::views(self.triples@),
            parsed_results: seqs::views(self.parsed_results@),
            total_dropped: self.total_dropped,
            dropped_types: self.dropped_types@,
            new_nodes: self.new_nodes@,
            new_relations: self.new_relations@,
        }
    }
}

/// What came of a conversation about `n` slices.
pub open spec fn outcome_of(n: usize, st: SessionV) -> OutcomeV {
    OutcomeV {
        slices_count: n,
        total_tool_uses: st.tool_uses,
        entities: st.entities,
        triples: st.triples,
        parsed_results: st.parsed,
        total_dropped: st.dropped,
        dropped_types: st.dropped_types,
        new_nodes: st.new_nodes,
        new_relations: st.new_relations,
    }
}

/// The types that were proposed, as they are noted.
pub open spec fn proposals(nodes: Seq<Seq<char>>, relations: Seq<Seq<char>>) -> JsonV {
    JsonV::Object(
        seq![
            ("nodes"@, json::texts(nodes)),
            ("relations"@, json::texts(relations)),
            ("attributes"@, JsonV::Array(seq![])),
        ],
    )
}

/// What is noted of a reading tells how often a tool was used and, by the schema, what was
/// left out or which types are new, those of entities apart from those of relationships.
pub proof fn law_outcomes_are_noted(o: OutcomeV, p: PolicyV, mode: SchemaMode)
    ensures
        ({
            let m = outcome_metadata(o, p, mode);
            &&& table::lookup(m, "tool_uses"@) == Some(JsonV::Uint(o.total_tool_uses))
            &&& table::lookup(m, "schema_mode"@) == Some(
                JsonV::Text(crate::types::spec::mode_name(mode)),
            )
            &&& p is Fixed ==> table::lookup(m, "schema_dropped_records"@) == Some(
                JsonV::Uint(o.total_dropped),
            ) && table::lookup(m, "schema_dropped_types"@) == Some(json::texts(o.dropped_types))
            &&& p is Evolving ==> table::has_key(m, "new_schema_types"@) && json::field(
                table::lookup(m, "new_schema_types"@)->0,
                "nodes"@,
            ) == Some(json::texts(o.new_nodes)) && json::field(
                table::lookup(m, "new_schema_types"@)->0,
                "relations"@,
            ) == Some(json::texts(o.new_relations))
        }),
{
    reveal_strlit("tool_uses");
    assert("tool_uses"@.len() == 9);
    assert("tool_uses"@.len() == 9);
    reveal_strlit("schema_mode");
    assert("schema_mode"@.len() == 11);
    assert("schema_mode"@.len() == 11);
    reveal_strlit("schema_dropped_records");
    assert("schema_dropped_records"@.len() == 22);
    assert("schema_dropped_records"@.len() == 22);
    reveal_strlit("schema_dropped_types");
    assert("schema_dropped_types"@.len() == 20);
    assert("schema_dropped_types"@.len() == 20);
    reveal_strlit("new_schema_types");
    assert("new_schema_types"@.len() == 16);
    assert("new_schema_types"@.len() == 16);
    reveal_strlit("nodes");
    assert("nodes"@.len() == 5);
    assert("nodes"@.len() == 5);
    reveal_strlit("relations");
    assert("relations"@.len() == 9);
    assert("relations"@.len() == 9);
    assert("tool_uses"@[0] != "relations"@[0]);
    let uses = JsonV::Uint(o.total_tool_uses);
    let named = JsonV::Text(crate::types::spec::mode_name(mode));
    let a = table::put(seq![], "tool_uses"@, uses);
    let b = table::put(a, "schema_mode"@, named);
    table::lemma_lookup_put(seq![], "tool_uses"@, uses, "tool_uses"@);
    table::lemma_lookup_put(a, "schema_mode"@, named, "tool_uses"@);
    table::lemma_lookup_put(a, "schema_mode"@, named, "schema_mode"@);
    let count = JsonV::Uint(o.total_dropped);
    let types = json::texts(o.dropped_types);
    let d = table::put(b, "schema_dropped_records"@, count);
    let fresh_ones = proposals(o.new_nodes, o.new_relations);
    table::lemma_lookup_put(b, "schema_dropped_records"@, count, "tool_uses"@);
    table::lemma_lookup_put(b, "schema_dropped_records"@, count, "schema_mode"@);
    table::lemma_lookup_put(b, "schema_dropped_records"@, count, "schema_dropped_records"@);
    table::lemma_lookup_put(d, "schema_dropped_types"@, types, "tool_uses"@);
    table::lemma_lookup_put(d, "schema_dropped_types"@, types, "schema_mode"@);
    table::lemma_lookup_put(d, "schema_dropped_types"@, types, "schema_dropped_records"@);
    table::lemma_lookup_put(d, "schema_dropped_types"@, types, "schema_dropped_types"@);
    table::lemma_lookup_put(b, "new_schema_types"@, fresh_ones, "tool_uses"@);
    table::lemma_lookup_put(b, "new_schema_types"@, fresh_ones, "schema_mode"@);
    table::lemma_lookup_put(b, "new_schema_types"@, fresh_ones, "new_schema_types"@);
    json::lemma_field_at(fresh_ones->Object_0, 0);
    json::lemma_field_at(fresh_ones->Object_0, 1);
}

/// What is noted of an extraction.
pub open spec fn outcome_metadata(o: OutcomeV, p: PolicyV, mode: SchemaMode) -> MetadataV {
    let m = table::put(
        table::put(seq![], "tool_uses"@, JsonV::Uint(o.total_tool_uses)),
        "schema_mode"@,
        JsonV::Text(crate::types::spec::mode_name(mode)),
    );
    match p {
        PolicyV::Fixed(_) => table::put(
            table::put(m, "schema_dropped_records"@, JsonV::Uint(o.total_dropped)),
            "schema_dropped_types"@,
            json::texts(o.dropped_types),
        ),
        PolicyV::Evolving(_) => table::put(
            m,
            "new_schema_types"@,
            proposals(o.new_nodes, o.new_relations),
        ),
        PolicyV::Off => m,
    }
}

/// What was extracted in a conversation.
pub open spec fn response_of(o: OutcomeV, p: PolicyV, mode: SchemaMode, c: ConfigV) -> ResponseV {
    ResponseV {
        knowledge_graph: simple::graph_of(o.entities, o.triples),
        metadata: outcome_metadata(o, p, mode),
        parsed_results: o.parsed_results,
        config: Some(c),
    }
}

/// What is told of a conversation that is over.
pub open spec fn summary_of(o: OutcomeV, p: PolicyV) -> Seq<char> {
    let tail = match p {
        PolicyV::Fixed(_) => ", "@ + text::decimal(o.total_dropped as nat)
            + " out-of-schema record(s) dropped"@,
        PolicyV::Evolving(_) => ", "@ + text::decimal(o.new_nodes.len() + o.new_relations.len())
            + " new type(s) proposed"@,
        PolicyV::Off => ""@,
    };
    "agentic: "@ + text::decimal(o.slices_count as nat) + " slice(s), "@ + text::decimal(
        o.total_tool_uses as nat,
    ) + " self-context tool call(s)"@ + tail
}

/// `a` and `b` together, as far as numbers go.
fn add_up(a: u64, b: u64) -> (r: u64)
    ensures
        r == sum_up(a, b),
{
    if a <= u64::MAX - b {
        a + b
    } else {
        u64::MAX
    }
}

/// A text with the types of a schema in their places.
fn put_types(s: &str, entities: &str, relations: &str) -> (r: String)
    ensures
        r@ == with_types(s@, entities@, relations@),
{
    proof {
        reveal_strlit("{entity_types}");
        reveal_strlit("{relationship_types}");
    }
    let a = text::replace(s, "{entity_types}", entities);
    text::replace(a.as_str(), "{relationship_types}", relations)
}

/// Those of the relationships `ts` that are allowed.
fn keep_allowed(f: &SchemaFilter, ts: Vec<Triple>) -> (r: Vec<Triple>)
    ensures
        seqs::views(r@) == allowed_ones(f@, seqs::views(ts@)),
{
    let ghost all = seqs::views(ts@);
    let mut out: Vec<Triple> = Vec::new();
    assert(allowed_ones(f@, all.take(0)) =~= seq![]);
    assert(seqs::views(out@) =~= seq![]);
    let mut i: usize = 0;
    while i < ts.len()
        invariant
            i <= ts@.len(),
            all == seqs::views(ts@),
            seqs::views(out@) == allowed_ones(f@, all.take(i as int)),
        decreases ts.len() - i,
    {
        assert(all.take(i + 1).drop_last() =~= all.take(i as int));
        assert(all.take(i + 1).last() == ts@[i as int]@);
        if f.rel_ok(schema_filter::type_of_triple(&ts[i]).as_str()) {
            out.push(ts[i].dup());
        }
        i += 1;
    }
    assert(all.take(i as int) =~= all);
    out
}

/// Those of the relationships `ts` that are not among the relationships `known`, each
/// once.
fn keep_fresh(known: &Vec<Triple>, ts: &Vec<Triple>) -> (r: Vec<Triple>)
    ensures
        seqs::views(r@) == fresh(seqs::views(known@), seqs::views(ts@)),
{
    let mut all = crate::types::graph::dup_triples(known);
    let ghost kv = seqs::views(known@);
    let ghost tv = seqs::views(ts@);
    let n: usize = known.len();
    assert(kv.len() == n);
    let mut out: Vec<Triple> = Vec::new();
    assert(crate::types::graph::triples_merged(kv, tv.take(0)) == kv);
    assert(seqs::views(out@) =~= kv.skip(n as int));
    let mut i: usize = 0;
    while i < ts.len()
        invariant
            i <= ts@.len(),
            n == kv.len(),
            tv == seqs::views(ts@),
            seqs::views(all@) == crate::types::graph::triples_merged(kv, tv.take(i as int)),
            seqs::views(all@).len() >= n,
            seqs::views(out@) == seqs::views(all@).skip(n as int),
        decreases ts.len() - i,
    {
        assert(tv.take(i + 1).drop_last() =~= tv.take(i as int));
        assert(tv.take(i + 1).last() == ts@[i as int]@);
        if crate::types::graph::find_triple(&all, &ts[i]).is_none() {
            let ghost before = seqs::views(all@);
            let t = ts[i].dup();
            all.push(ts[i].dup());
            out.push(t);
            assert(before.push(ts@[i as int]@).skip(n as int) =~= before.skip(n as int).push(
                ts@[i as int]@,
            ));
        }
        i += 1;
    }
    assert(tv.take(i as int) =~= tv);
    out
}

/// The relationships `ts`, each of them citing the lines of the document.
fn cite_document(c: &ExtractionConfig, lines: Option<(usize, usize)>, ts: Vec<Triple>) -> (r: Vec<
    Triple,
>)
    ensures
        seqs::views(r@) == document_cited(c@, lines, seqs::views(ts@)),
{
    let (a, b) = match lines {
        Some(l) => l,
        None => {
            return ts;
        },
    };
    let cite = Citation::new(crate::types::graph::dup_option(&c.source_doc), a, b);
    let ghost tv = seqs::views(ts@);
    let ghost all = document_cited(c@, lines, tv);
    let mut out: Vec<Triple> = Vec::new();
    let mut i: usize = 0;
    while i < ts.len()
        invariant
            i <= ts@.len(),
            tv == seqs::views(ts@),
            lines == Some((a, b)),
            cite@ == citation::line_citation(c@.source_doc, a as int, b as int),
            all == document_cited(c@, lines, tv),
            seqs::views(out@) =~= all.take(i as int),
        decreases ts.len() - i,
    {
        assert(tv[i as int] == ts@[i as int]@);
        let mut t = ts[i].dup();
        citation::attach_citation(&mut t.metadata, &cite);
        assert(t@ == all[i as int]);
        out.push(t);
        i += 1;
    }
    assert(seqs::views(out@) =~= all);
    out
}

impl Session {
    /// A conversation about `n` slices before the first question.
    pub fn new(n: usize) -> (r: Session)
        ensures
            r@ == unopened(n as nat),
    {
        let r = Session {
            turn: if n > 0 {
                Turn::Slice(0, false)
            } else {
                Turn::Done
            },
            feedback: None,
            entities: Table::new(),
            triples: Vec::new(),
            parsed: Vec::new(),
            tool_uses: 0,
            dropped: 0,
            dropped_types: NameSet::new(),
            new_nodes: NameSet::new(),
            new_relations: NameSet::new(),
        };
        assert(r@ =~= unopened(n as nat));
        r
    }

    /// What came of a conversation about `n` slices.
    pub fn finish(self, n: usize) -> (r: SessionOutcome)
        ensures
            r@ == outcome_of(n, self@),
    {
        SessionOutcome {
            slices_count: n,
            total_tool_uses: self.tool_uses,
            entities: self.entities,
            triples: self.triples,
            parsed_results: self.parsed,
            total_dropped: self.dropped,
            dropped_types: self.dropped_types,
            new_nodes: self.new_nodes,
            new_relations: self.new_relations,
        }
    }
}

impl AgenticExtractor {
    /// The configuration that is used where none is given.
    pub fn default_config() -> (r: ExtractionConfig)
        ensures
            r@ == crate::types::spec::plain_config("agent"@, 5000),
    {
        ExtractionConfig::plain("agent", 5000)
    }

    /// An extractor for an agent.
    pub fn new(agent: &str) -> (r: AgenticExtractor)
        ensures
            r@ == (AgenticV {
                config: crate::types::spec::plain_config("agent"@, 5000),
                agent: agent@,
                max_relation_gleanings: 0,
            }),
            !r.quiet,
    {
        AgenticExtractor::with_config(agent, AgenticExtractor::default_config())
    }

    /// An extractor for an agent with a configuration.
    pub fn with_config(agent: &str, config: ExtractionConfig) -> (r: AgenticExtractor)
        ensures
            r@ == (AgenticV { config: config@, agent: agent@, max_relation_gleanings: 0 }),
            !r.quiet,
    {
        AgenticExtractor {
            config,
            agent: agent.to_owned(),
            max_relation_gleanings: 0,
            quiet: false,
        }
    }

    /// The extractor that asks `n` times about the entities that no relationship
    /// reaches.
    pub fn relation_gleanings(self, n: usize) -> (r: AgenticExtractor)
        ensures
            r@ == (AgenticV { max_relation_gleanings: n, ..self@ }),
            r.quiet == self.quiet,
    {
        let mut r = self;
        r.max_relation_gleanings = n;
        r
    }

    /// The extractor with another mode.
    pub fn schema_mode(self, mode: SchemaMode) -> (r: AgenticExtractor)
        ensures
            r@ == (AgenticV {
                config: ConfigV {
                    spec: SpecV { mode, ..self@.config.spec },
                    ..self@.config
                },
                ..self@
            }),
            r.quiet == self.quiet,
    {
        let mut r = self;
        r.config.spec.mode = mode;
        r
    }

    /// The slices of a document, each with the lines that it takes up.
    pub fn slices(&self, text: &str) -> (r: Option<Vec<Segment>>)
        requires
            simple::can_be_cut(self@.config, text@),
        ensures
            match r {
                Some(v) => simple::chunks(self@.config, text@) == Some(seqs::views(v@)),
                None => simple::chunks(self@.config, text@) is None,
            },
    {
        simple::chunk_text(&self.config, text)
    }

    /// The lines of a document.
    pub fn document_lines(&self, text: &str) -> (r: (usize, usize))
        ensures
            r.0 == 1,
            r.1 == citation::line_starts(text@).len(),
    {
        (1, LineIndex::new(text).total_lines())
    }

    /// What is asked before anything else of slices that were cut elsewhere: there must
    /// be some.
    pub fn check_prechunked(&self, segments: &Vec<Segment>) -> (r: Result<(), String>)
        ensures
            r is Ok <==> segments@.len() > 0,
            r is Err ==> r->Err_0@ == "No pre-chunked input provided"@,
    {
        if segments.len() == 0 {
            Err("No pre-chunked input provided".to_owned())
        } else {
            Ok(())
        }
    }

    /// The types of entities, with commas between them.
    pub fn entity_types(&self) -> (r: String)
        ensures
            r@ == entity_types(self@.config),
    {
        text::join(self.config.entity_types_list(), ", ")
    }

    /// The types of relationships, with commas between them.
    pub fn rel_types(&self) -> (r: String)
        ensures
            r@ == relationship_types(self@.config),
    {
        simple::list_or(self.config.predicates_list(), USUAL_RELATIONS)
    }

    /// What a schema makes of the records of the answers.
    pub fn policy(&self) -> (r: SchemaPolicy)
        ensures
            r@ == policy(self@.config),
    {
        SchemaPolicy::for_mode(self.config.spec.mode, &self.config.spec.schema)
    }

    /// What is told where a mode is asked for that needs a schema and there is none.
    pub fn empty_schema_warning(&self) -> (r: Option<String>)
        ensures
            match r {
                Some(w) => self@.config.spec.mode !is Open && policy(self@.config) is Off && w@
                    == "agentic: --schema-mode "@ + crate::types::spec::mode_name(
                    self@.config.spec.mode,
                ) + " but the schema is empty — treating as open (pass --schema <file>)"@,
                None => self@.config.spec.mode is Open || policy(self@.config) !is Off,
            },
    {
        match (self.config.spec.mode, self.policy()) {
            (SchemaMode::Open, _) => None,
            (m, SchemaPolicy::Off) => {
                let mut s = text::concat2("agentic: --schema-mode ", m.as_str());
                s.append(" but the schema is empty — treating as open (pass --schema <file>)");
                Some(s)
            },
            _ => None,
        }
    }

    /// The names of the tools that the agent may use: it can look things up.
    pub fn allowed_tools() -> (r: Vec<String>)
        ensures
            seqs::views(r@) == seq!["Read"@, "Grep"@, "Glob"@],
    {
        let mut r: Vec<String> = Vec::new();
        r.push("Read".to_owned());
        r.push("Grep".to_owned());
        r.push("Glob".to_owned());
        assert(seqs::views(r@) =~= seq!["Read"@, "Grep"@, "Glob"@]);
        r
    }

    /// The names of the tools that the agent may not use: it can change nothing.
    pub fn disallowed_tools() -> (r: Vec<String>)
        ensures
            seqs::views(r@) == seq!["Write"@, "Edit"@, "NotebookEdit"@, "Bash"@],
    {
        let mut r: Vec<String> = Vec::new();
        r.push("Write".to_owned());
        r.push("Edit".to_owned());
        r.push("NotebookEdit".to_owned());
        r.push("Bash".to_owned());
        assert(seqs::views(r@) =~= seq!["Write"@, "Edit"@, "NotebookEdit"@, "Bash"@]);
        r
    }

    /// What the conversation starts with.
    pub fn system_prompt(&self) -> (r: String)
        ensures
            r@ == opening(self@.config),
    {
        proof {
            reveal_strlit("{schema_section}");
        }
        let section = match self.policy() {
            SchemaPolicy::Fixed(_) => SCHEMA_STRICT,
            SchemaPolicy::Evolving(_) => SCHEMA_EVOLVING,
            SchemaPolicy::Off => SCHEMA_HINTS,
        };
        let s = text::replace(SYSTEM_PROMPT, "{schema_section}", section);
        put_types(s.as_str(), self.entity_types().as_str(), self.rel_types().as_str())
    }

    /// The question that asks for the entities and the relationships of the slice `i` of
    /// `n`. Slices are counted from one.
    pub fn slice_prompt(i: usize, n: usize, slice: &str) -> (r: String)
        requires
            i < u64::MAX,
        ensures
            r@ == slice_question(i as nat, n as nat, slice@),
    {
        proof {
            reveal_strlit("{i}");
            reveal_strlit("{n}");
            reveal_strlit("{slice}");
        }
        let number: u64 = i as u64 + 1;
        let a = text::replace(SLICE_PROMPT, "{i}", text::to_decimal(number).as_str());
        let b = text::replace(a.as_str(), "{n}", text::to_decimal(n as u64).as_str());
        text::replace(b.as_str(), "{slice}", slice)
    }

    /// The question that asks for an answer again of which nothing could be kept.
    pub fn redo_prompt(entity_types: &str, rel_types: &str) -> (r: String)
        ensures
            r@ == redo_question(entity_types@, rel_types@),
    {
        put_types(SCHEMA_REDO_PROMPT, entity_types, rel_types)
    }

    /// What is told of records that were left out: nothing where none were.
    pub fn drop_feedback(
        dropped_records: u64,
        dropped_types: &NameSet,
        entity_types: &str,
        rel_types: &str,
    ) -> (r: Option<String>)
        ensures
            seqs::opt_view(r) == feedback_on(
                dropped_records,
                dropped_types@,
                entity_types@,
                rel_types@,
            ),
    {
        if dropped_records == 0 {
            return None;
        }
        proof {
            reveal_strlit("{dropped}");
            reveal_strlit("{dropped_types}");
        }
        let list = text::join(&dropped_types.to_vec(), ", ");
        let slot = if list.as_str().unicode_len() == 0 {
            "".to_owned()
        } else {
            let mut s = text::concat2(" (dropped: ", list.as_str());
            s.append(")");
            s
        };
        let count = text::to_decimal(dropped_records);
        let a = text::replace(SCHEMA_FEEDBACK, "{dropped}", count.as_str());
        let b = text::replace(a.as_str(), "{dropped_types}", slot.as_str());
        Some(put_types(b.as_str(), entity_types, rel_types))
    }

    /// The question that asks for the relationships of entities.
    pub fn relation_prompt(&self, es: &Vec<Entity>) -> (r: String)
        ensures
            r@ == relation_question(self@.config, seqs::views(es@)),
    {
        proof {
            reveal_strlit("{orphans}");
            reveal_strlit("{relationship_types}");
        }
        let listed = simple::list_orphans(es);
        let a = text::replace(RELATION_GLEANING_PROMPT, "{orphans}", listed.as_str());
        text::replace(a.as_str(), "{relationship_types}", self.rel_types().as_str())
    }

    /// The next question of a conversation; none where it is over.
    pub fn next_question(&self, slices: &Vec<Segment>, st: &Session) -> (r: Option<String>)
        requires
            is_turn(self@, slices@.len(), st@.turn),
        ensures
            seqs::opt_view(r) == question(self@, seqs::views(slices@), st@),
    {
        match st.turn {
            Turn::Slice(i, again) => {
                if again {
                    return Some(
                        AgenticExtractor::redo_prompt(
                            self.entity_types().as_str(),
                            self.rel_types().as_str(),
                        ),
                    );
                }
                assert(seqs::views(slices@)[i as int] == slices@[i as int]@);
                assert(seqs::views(slices@).len() == slices@.len());
                let asked = AgenticExtractor::slice_prompt(
                    i,
                    slices.len(),
                    slices[i].content.as_str(),
                );
                match &st.feedback {
                    Some(f) => {
                        let told = text::concat2(f.as_str(), "\n\n");
                        Some(text::concat2(told.as_str(), asked.as_str()))
                    },
                    None => Some(asked),
                }
            },
            Turn::Relating(_) => {
                let es = simple::find_orphans(&st.entities, &st.triples);
                Some(self.relation_prompt(&es))
            },
            Turn::Done => None,
        }
    }

    /// Go on to the relationships of entities that have none, after `j` questions.
    fn go_relating(&self, st: &mut Session, j: usize)
        ensures
            final(st)@ == relating(self@, old(st)@, j as int),
    {
        let some = simple::find_orphans(&st.entities, &st.triples).len() > 0;
        st.turn = if j < self.max_relation_gleanings && some {
            Turn::Relating(j)
        } else {
            Turn::Done
        };
    }

    /// Go on behind the slice `i` of `n`.
    fn go_on(&self, n: usize, st: &mut Session, i: usize)
        requires
            i < n,
        ensures
            final(st)@ == slice_over(self@, n as nat, old(st)@, i),
    {
        if i + 1 < n {
            st.turn = Turn::Slice(i + 1, false);
        } else {
            self.go_relating(st, 0);
        }
    }

    /// Take in what was read of the answer about the slice `i` of `n`; `tokens` are the
    /// types of its entities as it wrote them.
    pub fn take_slice(
        &self,
        n: usize,
        st: &mut Session,
        i: usize,
        again: bool,
        parsed: ParsedResult,
        tokens: &Table<String>,
    )
        requires
            i < n,
        ensures
            final(st)@ == slice_taken(
                self@,
                n as nat,
                old(st)@,
                i,
                again,
                parsed@,
                tokens@,
            ),
    {
        match self.policy() {
            SchemaPolicy::Off => {
                commit_unconstrained_slice(
                    &mut st.entities,
                    &mut st.triples,
                    &mut st.parsed,
                    parsed,
                );
                assert(st@ =~= committed(old(st)@, parsed@));
                self.go_on(n, st, i);
            },
            SchemaPolicy::Evolving(f) => {
                let (nodes, relations) = f.new_types(&parsed.entities, &parsed.triples, tokens);
                st.new_nodes.extend(&nodes);
                st.new_relations.extend(&relations);
                commit_unconstrained_slice(
                    &mut st.entities,
                    &mut st.triples,
                    &mut st.parsed,
                    parsed,
                );
                assert(st@ =~= SessionV {
                    new_nodes: names::with_names(old(st)@.new_nodes, nodes@),
                    new_relations: names::with_names(old(st)@.new_relations, relations@),
                    ..committed(old(st)@, parsed@)
                });
                self.go_on(n, st, i);
            },
            SchemaPolicy::Fixed(f) => {
                let s = f.apply(&parsed.entities, &parsed.triples, tokens);
                if s.all_dropped() && !again {
                    st.turn = Turn::Slice(i, true);
                    return;
                }
                merge_slice(&mut st.entities, &s.kept_entities);
                let mut ts = crate::types::graph::dup_triples(&s.kept_triples);
                st.triples.append(&mut ts);
                st.dropped = add_up(st.dropped, s.dropped_records);
                st.dropped_types.extend(&s.dropped_types);
                st.feedback = AgenticExtractor::drop_feedback(
                    s.dropped_records,
                    &s.dropped_types,
                    self.entity_types().as_str(),
                    self.rel_types().as_str(),
                );
                st.parsed.push(parsed);
                assert(st@ =~= kept(self@, old(st)@, parsed@, s@));
                self.go_on(n, st, i);
            },
        }
    }

    /// Take in the relationships that were read of an answer about entities that have
    /// none, after `j` questions.
    pub fn take_relations(
        &self,
        lines: Option<(usize, usize)>,
        st: &mut Session,
        j: usize,
        ts: &Vec<Triple>,
    )
        requires
            j < usize::MAX,
        ensures
            final(st)@ == relations_taken(self@, lines, old(st)@, j, seqs::views(ts@)),
    {
        let found = keep_fresh(&st.triples, ts);
        let policy = self.policy();
        let more = match &policy {
            SchemaPolicy::Fixed(f) => keep_allowed(f, found),
            _ => found,
        };
        assert(seqs::views(more@) == rescued(
            policy@,
            old(st)@.triples,
            seqs::views(ts@),
        ));
        assert(seqs::views(more@).len() == more@.len());
        if more.len() == 0 {
            st.turn = Turn::Done;
            return;
        }
        let ghost mv = seqs::views(more@);
        if let SchemaPolicy::Evolving(f) = &policy {
            let types = schema_filter::types_of_triples(&more);
            let new = schema_filter::find_types_beyond(&f.relations, &types);
            st.new_relations.extend(&new);
        }
        let mut cited = cite_document(&self.config, lines, more);
        st.triples.append(&mut cited);
        assert(st@ =~= SessionV {
            triples: old(st)@.triples + document_cited(self@.config, lines, mv),
            new_relations: match policy@ {
                PolicyV::Evolving(f) => names::with_names(
                    old(st)@.new_relations,
                    schema_filter::types_beyond(f.relations, schema_filter::relation_types(mv)),
                ),
                _ => old(st)@.new_relations,
            },
            ..old(st)@
        });
        self.go_relating(st, j + 1);
    }

    /// Take in an answer, and the number of times that the agent looked something up for
    /// it; there is none where the agent failed. `lines` are the lines of the document.
    pub fn take_reply(
        &self,
        slices: &Vec<Segment>,
        lines: Option<(usize, usize)>,
        st: &mut Session,
        reply: Option<(&str, u64)>,
    )
        requires
            is_turn(self@, slices@.len(), old(st)@.turn),
        ensures
            final(st)@ == answered(
                self@,
                seqs::views(slices@),
                lines,
                old(st)@,
                match reply {
                    Some((o, tools)) => Some((o@, tools)),
                    None => None,
                },
            ),
            is_turn(self@, slices@.len(), final(st)@.turn),
    {
        let n: usize = slices.len();
        assert(seqs::views(slices@).len() == n);
        match st.turn {
            Turn::Slice(i, again) => {
                st.feedback = None;
                match reply {
                    None => {
                        assert(st@ =~= SessionV { feedback: None, ..old(st)@ });
                        self.go_relating(st, 0);
                    },
                    Some((o, tools)) => {
                        st.tool_uses = add_up(st.tool_uses, tools);
                        let ghost next = SessionV {
                            feedback: None,
                            tool_uses: sum_up(old(st)@.tool_uses, tools),
                            ..old(st)@
                        };
                        assert(st@ =~= next);
                        let t = text::trim(o);
                        if t.as_str().unicode_len() == 0 {
                            self.go_on(n, st, i);
                        } else {
                            assert(seqs::views(slices@)[i as int] == slices@[i as int]@);
                            let mut parsed = parse_output(t.as_str(), &self.config);
                            if let Some(cite) = simple::cite_segment(
                                &self.config.source_doc,
                                &slices[i],
                            ) {
                                stamp_slice_citations(&mut parsed, &cite);
                            }
                            let tokens = simple::entity_type_tokens(t.as_str());
                            self.take_slice(n, st, i, again, parsed, &tokens);
                        }
                    },
                }
            },
            Turn::Relating(j) => match reply {
                None => {
                    st.turn = Turn::Done;
                },
                Some((o, tools)) => {
                    st.tool_uses = add_up(st.tool_uses, tools);
                    let ghost next = SessionV {
                        tool_uses: sum_up(old(st)@.tool_uses, tools),
                        ..old(st)@
                    };
                    assert(st@ =~= next);
                    let t = text::trim(o);
                    if t.as_str().unicode_len() == 0 || text::eq_ignore_ascii_case(
                        t.as_str(),
                        "no",
                    ) {
                        st.turn = Turn::Done;
                    } else {
                        let ts = parse_relations_against(t.as_str(), &st.entities);
                        self.take_relations(lines, st, j, &ts);
                    }
                },
            },
            Turn::Done => {},
        }
    }

    /// What was extracted in a conversation.
    pub fn assemble_response(
        outcome: SessionOutcome,
        policy: &SchemaPolicy,
        mode: SchemaMode,
        config: &ExtractionConfig,
    ) -> (r: ExtractionResponse)
        ensures
            r@ == response_of(outcome@, policy@, mode, config@),
    {
        let kg = simple::graph_of_records(&outcome.entities, &outcome.triples);
        let mut r = ExtractionResponse::new(kg);
        r.metadata.insert("tool_uses".to_owned(), Json::Uint(outcome.total_tool_uses));
        r.metadata.insert("schema_mode".to_owned(), json::string(mode.as_str()));
        match policy {
            SchemaPolicy::Fixed(_) => {
                r.metadata.insert(
                    "schema_dropped_records".to_owned(),
                    Json::Uint(outcome.total_dropped),
                );
                r.metadata.insert(
                    "schema_dropped_types".to_owned(),
                    json::texts_of(&outcome.dropped_types.to_vec()),
                );
            },
            SchemaPolicy::Evolving(_) => {
                let none: Vec<Json> = Vec::new();
                let v = ObjectBuilder::new().with(
                    "nodes",
                    json::texts_of(&outcome.new_nodes.to_vec()),
                ).with("relations", json::texts_of(&outcome.new_relations.to_vec())).with(
                    "attributes",
                    Json::Array(none),
                ).done();
                assert(seqs::views(none@) =~= seq![]);
                assert(v@->Object_0 =~= proposals(
                    outcome@.new_nodes,
                    outcome@.new_relations,
                )->Object_0);
                r.metadata.insert("new_schema_types".to_owned(), v);
            },
            SchemaPolicy::Off => {},
        }
        r.parsed_results = outcome.parsed_results;
        r.config = Some(config.dup());
        r
    }

    /// What is told of a conversation that is over.
    pub fn summary(outcome: &SessionOutcome, policy: &SchemaPolicy) -> (r: String)
        requires
            outcome@.new_nodes.len() + outcome@.new_relations.len() <= u64::MAX,
        ensures
            r@ == summary_of(outcome@, policy@),
    {
        let tail = match policy {
            SchemaPolicy::Fixed(_) => {
                let mut s = text::concat2(
                    ", ",
                    text::to_decimal(outcome.total_dropped).as_str(),
                );
                s.append(" out-of-schema record(s) dropped");
                s
            },
            SchemaPolicy::Evolving(_) => {
                let count: u64 = outcome.new_nodes.len() as u64
                    + outcome.new_relations.len() as u64;
                let mut s = text::concat2(", ", text::to_decimal(count).as_str());
                s.append(" new type(s) proposed");
                s
            },
            SchemaPolicy::Off => "".to_owned(),
        };
        let mut s = text::concat2(
            "agentic: ",
            text::to_decimal(outcome.slices_count as u64).as_str(),
        );
        s.append(" slice(s), ");
        s.append(text::to_decimal(outcome.total_tool_uses).as_str());
        s.append(" self-context tool call(s)");
        s.append(tail.as_str());
        s
    }
}

} // verus!
