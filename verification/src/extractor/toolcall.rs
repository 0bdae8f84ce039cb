//! The engine that lets the model call tools: each call records an entity, a
//! relationship or an attribute, and there is nothing to parse.
//!
//! [`ToolCallExtractor::start`] opens a session. As long as the session has rounds
//! left, its messages are sent with [`ToolCallExtractor::tools`], and what comes back
//! is given to [`ToolCallExtractor::step`]; [`ToolCallExtractor::finish`] makes the
//! graph.

use vstd::prelude::*;

use crate::backend::{
    CompletionOptions, InvocationV, Message, MessageV, ToolChatResponse, ToolInvocation, ToolSpec,
};
use crate::fraction::{Fraction, FractionV};
use crate::graph_build::{BuilderV, GraphBuilder};
use crate::json::{Json, JsonV, ObjectBuilder};
use crate::merger::{MergeSession, MergeSessionV};
use crate::table::{Dup, Table};
use crate::types::graph::{GraphV, KnowledgeGraph, Metadata, MetadataV};
use crate::types::response::{ExtractionResponse, ResponseV};
use crate::types::spec::{
    ConfigV, ExtractionConfig, ExtractionSpec, MergeStrategy, SchemaMode, SpecV,
};
use crate::{
    backend, chunking, citation, extractor, graph_build, json, mcp, merger, names, parser, range, seqs,
    table, text, types,
};
use crate::extractor::schema_json;

verus! {

broadcast use {crate::seqs::group_views, crate::json::group_json};

/// What the model is told before it is given a text.
pub const SYSTEM_PROMPT: &'static str = "You are a knowledge-graph extraction engine. Read the text and call the provided tools to record every entity, relationship and salient attribute. Call add_entity before referencing an entity in add_relation. Call finish when done.";

/// What the tool for relationships does.
pub const RELATION_TOOL: &'static str = "Record a relationship between two entities (call add_entity for both first). Direction rule: \"source predicate target\" must read as a TRUE sentence — EVERY predicate ending in _BY (FOUNDED_BY, DEVELOPED_BY, CREATED_BY, INVENTED_BY, PUBLISHED_BY, ...) is passive and points from the thing acted on to the doer (source=Anthropic, predicate=FOUNDED_BY, target=Dario Amodei); a person is never the source of a *_BY relation about their own work. Active predicates point from the doer to the thing. If the sentence is false as written, swap source and target or pick the opposite-voice predicate.";

/// How the schema is introduced, where there is one that counts.
pub open spec fn schema_heading(m: SchemaMode) -> Seq<char> {
    match m {
        SchemaMode::Fixed => "\n\nSCHEMA (closed — use ONLY these types; anything else is discarded):\nentity types: "@,
        SchemaMode::Evolving => "\n\nSCHEMA (seed — prefer these; call propose_schema_type for a genuinely new type):\nentity types: "@,
        SchemaMode::Open => seq![],
    }
}

/// What the model is told before it is given a text: what it is to do, and the
/// schema where there is one. In the open mode a schema does not count.
pub open spec fn system_prompt_of(s: SpecV) -> Seq<char> {
    if s.mode == SchemaMode::Open || s.schema == types::spec::empty_schema() {
        SYSTEM_PROMPT@
    } else {
        SYSTEM_PROMPT@ + schema_heading(s.mode) + text::joined(s.schema.nodes, ", "@)
            + "\nrelation types: "@ + text::joined(s.schema.relations, ", "@)
            + "\nattributes: "@ + text::joined(s.schema.attributes, ", "@)
    }
}

/// A parameter that is a text.
pub open spec fn text_param() -> JsonV {
    JsonV::Object(seq![("type"@, JsonV::Text("string"@))])
}

/// A parameter that is a text, with what it says.
pub open spec fn described_param(kind: Seq<char>, d: Seq<char>) -> JsonV {
    JsonV::Object(seq![("type"@, JsonV::Text(kind)), ("description"@, JsonV::Text(d))])
}

/// A parameter that is one of several texts; any text where there are none.
pub open spec fn choice_param(choices: Seq<Seq<char>>) -> JsonV {
    if choices.len() == 0 {
        text_param()
    } else {
        JsonV::Object(seq![("type"@, JsonV::Text("string"@)), ("enum"@, json::texts(choices))])
    }
}

/// The parameters of a tool.
pub open spec fn params(
    properties: Seq<(Seq<char>, JsonV)>,
    required: Seq<Seq<char>>,
) -> JsonV {
    let m = seq![("type"@, JsonV::Text("object"@)), ("properties"@, JsonV::Object(properties))];
    JsonV::Object(
        if required.len() > 0 {
            m.push(("required"@, json::texts(required)))
        } else {
            m
        },
    )
}

/// What a [`ToolSpec`] stands for.
pub struct ToolV {
    pub name: Seq<char>,
    pub description: Seq<char>,
    pub parameters: JsonV,
}

/// What a [`ToolSpec`] stands for.
pub open spec fn tool_view(t: ToolSpec) -> ToolV {
    ToolV { name: t.name@, description: t.description@, parameters: t.parameters@ }
}

/// What each of the tools stands for.
pub open spec fn tool_views(s: Seq<ToolSpec>) -> Seq<ToolV> {
    Seq::new(s.len(), |i: int| tool_view(s[i]))
}

/// The types that a call must choose from: those of the schema, where it binds.
pub open spec fn choices(m: SchemaMode, names: Seq<Seq<char>>) -> Seq<Seq<char>> {
    if m == SchemaMode::Fixed {
        names
    } else {
        seq![]
    }
}

/// The tool that records an entity.
pub open spec fn entity_tool(s: SpecV) -> ToolV {
    ToolV {
        name: "add_entity"@,
        description: "Record a single entity found in the text."@,
        parameters: params(
            seq![
                ("name"@, described_param("string"@, "Entity name as it appears in the text"@)),
                ("type"@, choice_param(choices(s.mode, s.schema.nodes))),
                ("description"@, described_param("string"@, "1-2 sentence description"@)),
                ("attributes"@, described_param("object"@, "Optional key/value attributes"@)),
            ],
            seq!["name"@, "type"@],
        ),
    }
}

/// The tool that records a relationship.
pub open spec fn relation_tool(s: SpecV) -> ToolV {
    ToolV {
        name: "add_relation"@,
        description: RELATION_TOOL@,
        parameters: params(
            seq![
                (
                    "source"@,
                    described_param(
                        "string"@,
                        "Source entity name. For *_BY predicates this is the thing acted on, not the doer."@,
                    ),
                ),
                ("predicate"@, choice_param(choices(s.mode, s.schema.relations))),
                (
                    "target"@,
                    described_param(
                        "string"@,
                        "Target entity name. For *_BY predicates this is the doer."@,
                    ),
                ),
                ("description"@, text_param()),
                ("strength"@, described_param("number"@, "Confidence 0..1"@)),
            ],
            seq!["source"@, "predicate"@, "target"@],
        ),
    }
}

/// The tool that records an attribute.
pub open spec fn attribute_tool() -> ToolV {
    ToolV {
        name: "add_attribute"@,
        description: "Attach a key/value attribute to a previously added entity."@,
        parameters: params(
            seq![("entity"@, text_param()), ("key"@, text_param()), ("value"@, text_param())],
            seq!["entity"@, "key"@, "value"@],
        ),
    }
}

/// The tool that proposes a type.
pub open spec fn proposal_tool() -> ToolV {
    ToolV {
        name: "propose_schema_type"@,
        description: "Propose a new schema type when the text needs one not in the schema."@,
        parameters: params(
            seq![
                ("kind"@, choice_param(seq!["node"@, "relation"@, "attribute"@])),
                ("name"@, text_param()),
                ("reason"@, text_param()),
            ],
            seq!["kind"@, "name"@],
        ),
    }
}

/// The tool that lists the entities.
pub open spec fn list_tool() -> ToolV {
    ToolV {
        name: "list_entities"@,
        description: "List entities recorded so far (to avoid dangling relations)."@,
        parameters: params(seq![], seq![]),
    }
}

/// The tool that says that all is done.
pub open spec fn finish_tool() -> ToolV {
    ToolV {
        name: "finish"@,
        description: "Signal that extraction is complete."@,
        parameters: params(seq![], seq![]),
    }
}

/// The tools. The list of the entities is of use only where there is more than one
/// round.
pub open spec fn tool_list(s: SpecV, max_rounds: nat) -> Seq<ToolV> {
    let first = seq![entity_tool(s), relation_tool(s), attribute_tool(), proposal_tool()];
    if max_rounds > 1 {
        first.push(list_tool()).push(finish_tool())
    } else {
        first.push(finish_tool())
    }
}

/// What is known of an entity that was recorded.
pub struct EntityDraftV {
    pub name: Seq<char>,
    pub type_str: Seq<char>,
    pub description: Option<Seq<char>>,
    pub attributes: MetadataV,
}

/// An entity that was recorded.
pub struct EntityDraft {
    pub name: String,
    pub type_str: String,
    pub description: Option<String>,
    pub attributes: Metadata,
}

impl View for EntityDraft {
    type V = EntityDraftV;

    open spec fn view(&self) -> EntityDraftV {
        EntityDraftV {
            name: self.name@,
            type_str: self.type_str@,
            description: seqs::opt_view(self.description),
            attributes: self.attributes@,
        }
    }
}

/// What is known of a relationship that was recorded.
pub struct RelDraftV {
    pub source: Seq<char>,
    pub predicate: Seq<char>,
    pub target: Seq<char>,
    pub description: Option<Seq<char>>,
    pub strength: FractionV,
}

/// A relationship that was recorded.
pub struct RelDraft {
    pub source: String,
    pub predicate: String,
    pub target: String,
    pub description: Option<String>,
    pub strength: Fraction,
}

impl View for RelDraft {
    type V = RelDraftV;

    open spec fn view(&self) -> RelDraftV {
        RelDraftV {
            source: self.source@,
            predicate: self.predicate@,
            target: self.target@,
            description: seqs::opt_view(self.description),
            strength: self.strength@,
        }
    }
}

/// What is known of an attribute that was recorded.
pub struct AttributeDraftV {
    pub entity: Seq<char>,
    pub key: Seq<char>,
    pub value: JsonV,
}

/// An attribute that was recorded.
pub struct AttributeDraft {
    pub entity: String,
    pub key: String,
    pub value: Json,
}

impl View for AttributeDraft {
    type V = AttributeDraftV;

    open spec fn view(&self) -> AttributeDraftV {
        AttributeDraftV { entity: self.entity@, key: self.key@, value: self.value@ }
    }
}

/// What an [`Accumulator`] stands for.
pub struct AccV {
    pub entities: Seq<EntityDraftV>,
    pub attributes: Seq<AttributeDraftV>,
    pub relations: Seq<RelDraftV>,
    pub new_nodes: Seq<Seq<char>>,
    pub new_relations: Seq<Seq<char>>,
    pub new_attributes: Seq<Seq<char>>,
    pub finished: bool,
}

/// What was recorded so far.
pub struct Accumulator {
    pub entities: Vec<EntityDraft>,
    pub attributes: Vec<AttributeDraft>,
    pub relations: Vec<RelDraft>,
    pub new_nodes: Vec<String>,
    pub new_relations: Vec<String>,
    pub new_attributes: Vec<String>,
    pub finished: bool,
}

impl View for Accumulator {
    type V = AccV;

    open spec fn view(&self) -> AccV {
        AccV {
            entities: seqs::views(self.entities@),
            attributes: seqs::views(self.attributes@),
            relations: seqs::views(self.relations@),
            new_nodes: seqs::views(self.new_nodes@),
            new_relations: seqs::views(self.new_relations@),
            new_attributes: seqs::views(self.new_attributes@),
            finished: self.finished,
        }
    }
}

/// Nothing recorded yet.
pub open spec fn nothing_recorded() -> AccV {
    AccV {
        entities: seq![],
        attributes: seq![],
        relations: seq![],
        new_nodes: seq![],
        new_relations: seq![],
        new_attributes: seq![],
        finished: false,
    }
}

/// The argument `key` of a call as text.
pub open spec fn argument(args: JsonV, key: Seq<char>) -> Option<Seq<char>> {
    match json::field(args, key) {
        Some(JsonV::Text(s)) => Some(s),
        Some(JsonV::Null) => None,
        Some(v) => Some(json::json_text(v)),
        None => None,
    }
}

/// What is recorded after a call of the tool for entities, and what is answered.
pub open spec fn entity_recorded(acc: AccV, args: JsonV) -> (AccV, Seq<char>) {
    match argument(args, "name"@) {
        None => (acc, "error: name required"@),
        Some(name) => (
            AccV {
                entities: acc.entities.push(
                    EntityDraftV {
                        name,
                        type_str: parser::text_or(argument(args, "type"@), "OTHER"@),
                        description: argument(args, "description"@),
                        attributes: parser::attributes_in(args),
                    },
                ),
                ..acc
            },
            "ok: entity '"@ + name + "' recorded"@,
        ),
    }
}

/// What is recorded after a call of the tool for relationships, and what is
/// answered.
pub open spec fn relation_recorded(acc: AccV, args: JsonV) -> (AccV, Seq<char>) {
    match (
        argument(args, "source"@),
        argument(args, "predicate"@),
        argument(args, "target"@),
    ) {
        (Some(source), Some(predicate), Some(target)) => (
            AccV {
                relations: acc.relations.push(
                    RelDraftV {
                        source,
                        predicate,
                        target,
                        description: argument(args, "description"@),
                        strength: mcp::store::strength_of(
                            range::decimal_in(json::field(args, "strength"@)),
                        ),
                    },
                ),
                ..acc
            },
            "ok: relation recorded"@,
        ),
        _ => (acc, "error: source/predicate/target required"@),
    }
}

/// What is recorded after a call of the tool for attributes, and what is answered.
pub open spec fn attribute_recorded(acc: AccV, args: JsonV) -> (AccV, Seq<char>) {
    match (argument(args, "entity"@), argument(args, "key"@)) {
        (Some(entity), Some(key)) => (
            AccV {
                attributes: acc.attributes.push(
                    AttributeDraftV {
                        entity,
                        key,
                        value: match json::field(args, "value"@) {
                            Some(v) => v,
                            None => JsonV::Null,
                        },
                    },
                ),
                ..acc
            },
            "ok: attribute recorded"@,
        ),
        _ => (acc, "error: entity/key required"@),
    }
}

/// What is recorded after a call of the tool for proposals, and what is answered. A
/// proposal of no known kind is passed over.
pub open spec fn proposal_recorded(acc: AccV, args: JsonV) -> (AccV, Seq<char>) {
    let kind = parser::text_or(argument(args, "kind"@), ""@);
    match argument(args, "name"@) {
        None => (acc, "error: name required"@),
        Some(name) => (
            if kind == "node"@ {
                AccV { new_nodes: acc.new_nodes.push(name), ..acc }
            } else if kind == "relation"@ {
                AccV { new_relations: acc.new_relations.push(name), ..acc }
            } else if kind == "attribute"@ {
                AccV { new_attributes: acc.new_attributes.push(name), ..acc }
            } else {
                acc
            },
            "ok: schema type proposed"@,
        ),
    }
}

/// The names of the entities that were recorded.
pub open spec fn draft_names(s: Seq<EntityDraftV>) -> Seq<Seq<char>> {
    Seq::new(s.len(), |i: int| s[i].name)
}

/// What is recorded after a call, and what is answered.
pub open spec fn called(acc: AccV, call: InvocationV) -> (AccV, Seq<char>) {
    if call.name == "add_entity"@ {
        entity_recorded(acc, call.arguments)
    } else if call.name == "add_relation"@ {
        relation_recorded(acc, call.arguments)
    } else if call.name == "add_attribute"@ {
        attribute_recorded(acc, call.arguments)
    } else if call.name == "propose_schema_type"@ {
        proposal_recorded(acc, call.arguments)
    } else if call.name == "list_entities"@ {
        (
            acc,
            json::json_text(
                JsonV::Object(seq![("entities"@, json::texts(draft_names(acc.entities)))]),
            ),
        )
    } else if call.name == "finish"@ {
        (AccV { finished: true, ..acc }, "ok: finished"@)
    } else {
        (acc, "error: unknown tool '"@ + call.name + "'"@)
    }
}

/// A session after the calls `calls`: what is recorded, and the messages with the
/// answers.
pub open spec fn all_called(acc: AccV, ms: Seq<MessageV>, calls: Seq<InvocationV>) -> (
    AccV,
    Seq<MessageV>,
)
    decreases calls.len(),
{
    if calls.len() == 0 {
        (acc, ms)
    } else {
        let (a, m) = all_called(acc, ms, calls.drop_last());
        let (after, result) = called(a, calls.last());
        (
            after,
            m.push(
                MessageV {
                    role: "tool"@,
                    content: result,
                    tool_calls: None,
                    tool_call_id: Some(calls.last().id),
                },
            ),
        )
    }
}

/// What a [`ToolSession`] stands for.
pub struct SessionV {
    pub messages: Seq<MessageV>,
    pub acc: AccV,
    pub left: nat,
}

/// A session with the model: the messages so far, what was recorded, and how many
/// rounds are left.
pub struct ToolSession {
    pub messages: Vec<Message>,
    pub acc: Accumulator,
    pub left: usize,
}

impl View for ToolSession {
    type V = SessionV;

    open spec fn view(&self) -> SessionV {
        SessionV {
            messages: seqs::views(self.messages@),
            acc: self.acc@,
            left: self.left as nat,
        }
    }
}

/// The message that asks for the calls `calls`.
pub open spec fn asking(content: Option<Seq<char>>, calls: Seq<InvocationV>) -> MessageV {
    MessageV {
        role: "assistant"@,
        content: match content {
            Some(c) => c,
            None => seq![],
        },
        tool_calls: Some(Seq::new(calls.len(), |i: int| backend::invocation_value(calls[i]))),
        tool_call_id: None,
    }
}

/// A session after a round. It is over where no tool was called, where the model
/// said that all is done, or where no round is left.
pub open spec fn stepped(
    st: SessionV,
    content: Option<Seq<char>>,
    calls: Seq<InvocationV>,
) -> SessionV {
    if calls.len() == 0 {
        SessionV { left: 0, ..st }
    } else {
        let (acc, ms) = all_called(st.acc, st.messages.push(asking(content, calls)), calls);
        SessionV {
            messages: ms,
            acc,
            left: if acc.finished {
                0
            } else {
                (st.left - 1) as nat
            },
        }
    }
}

/// Each call is answered, in order: the answer names the call that it is to, and what was
/// said before it stays.
pub proof fn law_calls_are_answered_in_order(
    acc: AccV,
    ms: Seq<MessageV>,
    calls: Seq<InvocationV>,
    i: int,
)
    requires
        0 <= i < calls.len(),
    ensures
        ({
            let m = all_called(acc, ms, calls).1;
            &&& m.len() == ms.len() + calls.len()
            &&& m.take(ms.len() as int) == ms
            &&& m[ms.len() + i].role == "tool"@
            &&& m[ms.len() + i].tool_call_id == Some(calls[i].id)
            &&& m[ms.len() + i].content == called(
                all_called(acc, ms, calls.take(i)).0,
                calls[i],
            ).1
        }),
    decreases calls.len(),
{
    let before = calls.drop_last();
    let m = all_called(acc, ms, before).1;
    lemma_answers_counted(acc, ms, before);
    let r = all_called(acc, ms, calls).1;
    assert(r.take(ms.len() as int) =~= m.take(ms.len() as int));
    if i < before.len() {
        assert(before[i] == calls[i]);
        assert(before.take(i) =~= calls.take(i));
        law_calls_are_answered_in_order(acc, ms, before, i);
        assert(r[ms.len() + i] == m[ms.len() + i]);
    } else {
        assert(calls.take(i) =~= before);
    }
}

proof fn lemma_answers_counted(acc: AccV, ms: Seq<MessageV>, calls: Seq<InvocationV>)
    ensures
        all_called(acc, ms, calls).1.len() == ms.len() + calls.len(),
        all_called(acc, ms, calls).1.take(ms.len() as int) == ms,
    decreases calls.len(),
{
    let r = all_called(acc, ms, calls).1;
    if calls.len() == 0 {
        assert(r.take(ms.len() as int) =~= ms);
    } else {
        lemma_answers_counted(acc, ms, calls.drop_last());
        let m = all_called(acc, ms, calls.drop_last()).1;
        assert(r.take(ms.len() as int) =~= m.take(ms.len() as int));
    }
}

/// A session is over where no tool was called or the model said that all is done, and
/// elsewhere one round nearer to its end.
pub proof fn law_sessions_come_to_an_end(
    st: SessionV,
    content: Option<Seq<char>>,
    calls: Seq<InvocationV>,
)
    requires
        st.left > 0,
    ensures
        ({
            let next = stepped(st, content, calls);
            &&& calls.len() == 0 ==> next.left == 0 && next.acc == st.acc && next.messages
                == st.messages
            &&& calls.len() > 0 && next.acc.finished ==> next.left == 0
            &&& calls.len() > 0 && !next.acc.finished ==> next.left == st.left - 1
        }),
{
}

/// A session before its first round.
pub open spec fn opened(s: SpecV, max_rounds: nat, text: Seq<char>) -> SessionV {
    SessionV {
        messages: seq![
            backend::plain_message("system"@, system_prompt_of(s)),
            backend::plain_message(
                "user"@,
                "Extract a knowledge graph from the text below using the tools.\n\nText:\n"@
                    + text,
            ),
        ],
        acc: nothing_recorded(),
        left: max_rounds,
    }
}

/// `b` with the entities that were recorded.
pub open spec fn with_entity_drafts(b: BuilderV, ds: Seq<EntityDraftV>) -> BuilderV
    decreases ds.len(),
{
    if ds.len() == 0 {
        b
    } else {
        let d = ds.last();
        graph_build::with_entity(
            with_entity_drafts(b, ds.drop_last()),
            d.name,
            graph_build::entity_type_of(d.type_str),
            Some(d.type_str),
            d.description,
            d.attributes,
        )
    }
}

/// What is noted of a relationship that was recorded.
pub open spec fn draft_metadata(d: RelDraftV) -> MetadataV {
    match d.description {
        Some(t) => table::put(seq![], "description"@, JsonV::Text(t)),
        None => seq![],
    }
}

/// `b` with the relationships that were recorded.
pub open spec fn with_rel_drafts(b: BuilderV, ds: Seq<RelDraftV>) -> BuilderV
    decreases ds.len(),
{
    if ds.len() == 0 {
        b
    } else {
        let d = ds.last();
        graph_build::with_relation(
            with_rel_drafts(b, ds.drop_last()),
            d.source,
            graph_build::predicate_of(d.predicate),
            d.target,
            Some(d.strength),
            draft_metadata(d),
        )
    }
}

/// An entity that was recorded under a new name is in the graph with all that was said of
/// it, and an attribute that was recorded of a known entity stands there under its key.
pub proof fn law_recorded_entities_are_built(
    b: BuilderV,
    es: Seq<EntityDraftV>,
    e: EntityDraftV,
    ds: Seq<AttributeDraftV>,
    d: AttributeDraftV,
)
    requires
        graph_build::names_stand(with_entity_drafts(b, es)),
        !table::has_key(with_entity_drafts(b, es).by_name, text::lower(e.name)),
        graph_build::names_stand(with_attribute_drafts(b, ds)),
        table::has_key(with_attribute_drafts(b, ds).by_name, text::lower(d.entity)),
    ensures
        ({
            let after = with_entity_drafts(b, es.push(e));
            let id = graph_build::id_of_name(e.name);
            let x = table::lookup(after.graph.entities, id)->0;
            &&& table::has_key(after.graph.entities, id)
            &&& table::lookup(after.by_name, text::lower(e.name)) == Some(id)
            &&& x.label == e.name
            &&& x.entity_type == graph_build::entity_type_of(e.type_str)
            &&& x.raw_type == Some(e.type_str)
            &&& x.description == e.description
        }),
        ({
            let before = with_attribute_drafts(b, ds);
            let after = with_attribute_drafts(b, ds.push(d));
            let id = table::lookup(before.by_name, text::lower(d.entity))->0;
            &&& table::has_key(after.graph.entities, id)
            &&& table::lookup(table::lookup(after.graph.entities, id)->0.metadata, d.key) == Some(
                d.value,
            )
        }),
{
    assert(es.push(e).drop_last() =~= es);
    assert(ds.push(d).drop_last() =~= ds);
    graph_build::law_entities_are_added(
        with_entity_drafts(b, es),
        e.name,
        graph_build::entity_type_of(e.type_str),
        Some(e.type_str),
        e.description,
        e.attributes,
        e.name,
    );
    graph_build::law_attributes_are_set(
        with_attribute_drafts(b, ds),
        d.entity,
        d.key,
        d.value,
        d.key,
        d.key,
    );
}

/// `b` with the attributes that were recorded.
pub open spec fn with_attribute_drafts(b: BuilderV, ds: Seq<AttributeDraftV>) -> BuilderV
    decreases ds.len(),
{
    if ds.len() == 0 {
        b
    } else {
        let d = ds.last();
        graph_build::with_attribute(
            with_attribute_drafts(b, ds.drop_last()),
            d.entity,
            d.key,
            d.value,
        )
    }
}

/// The graph of what was recorded: the entities, then the relationships, then the
/// attributes.
pub open spec fn recorded_graph(s: SpecV, acc: AccV) -> GraphV {
    with_attribute_drafts(
        with_rel_drafts(
            with_entity_drafts(
                graph_build::empty_builder(schema_json::builder_strategy(s)),
                acc.entities,
            ),
            acc.relations,
        ),
        acc.attributes,
    ).graph
}

/// A call that records a relationship between two names adds one, from the name that it
/// gives as its source to the one that it gives as its target; nothing else that was
/// recorded changes. A call without one of its names records nothing.
pub proof fn law_relations_are_recorded(
    acc: AccV,
    id: Seq<char>,
    args: Seq<(Seq<char>, JsonV)>,
    s: Seq<char>,
    p: Seq<char>,
    t: Seq<char>,
)
    requires
        table::lookup(args, "source"@) == Some(JsonV::Text(s)),
        table::lookup(args, "predicate"@) == Some(JsonV::Text(p)),
        table::lookup(args, "target"@) == Some(JsonV::Text(t)),
    ensures
        ({
            let call = InvocationV {
                id,
                name: "add_relation"@,
                arguments: JsonV::Object(args),
            };
            let after = called(acc, call).0;
            let d = after.relations.last();
            &&& after.relations.len() == acc.relations.len() + 1
            &&& after.relations.drop_last() == acc.relations
            &&& d.source == s && d.predicate == p && d.target == t
            &&& table::lookup(args, "description"@) is None ==> d.description is None
            &&& table::lookup(args, "description"@) matches Some(JsonV::Text(w)) ==> d.description
                == Some(w)
            &&& after.entities == acc.entities && after.attributes == acc.attributes
            &&& after.finished == acc.finished
        }),
{
    reveal_strlit("add_relation");
    reveal_strlit("add_entity");
    assert("add_relation"@.len() != "add_entity"@.len());
    let after = relation_recorded(acc, JsonV::Object(args)).0;
    assert(after.relations.drop_last() =~= acc.relations);
}

/// A call that records an entity adds one under the name that it gives, and a call that
/// records an attribute adds one to the entity that it names.
pub proof fn law_entities_and_attributes_are_recorded(
    acc: AccV,
    id: Seq<char>,
    args: Seq<(Seq<char>, JsonV)>,
    n: Seq<char>,
    k: Seq<char>,
    v: JsonV,
    t: Seq<char>,
)
    requires
        table::lookup(args, "name"@) == Some(JsonV::Text(n)),
        table::lookup(args, "type"@) == Some(JsonV::Text(t)),
        table::lookup(args, "entity"@) == Some(JsonV::Text(n)),
        table::lookup(args, "key"@) == Some(JsonV::Text(k)),
        table::lookup(args, "value"@) == Some(v),
    ensures
        ({
            let call = InvocationV { id, name: "add_entity"@, arguments: JsonV::Object(args) };
            let after = called(acc, call).0;
            &&& after.entities.len() == acc.entities.len() + 1
            &&& after.entities.drop_last() == acc.entities
            &&& after.entities.last().name == n
            &&& after.entities.last().type_str == t
            &&& after.relations == acc.relations && after.attributes == acc.attributes
        }),
        ({
            let call = InvocationV { id, name: "add_attribute"@, arguments: JsonV::Object(args) };
            let after = called(acc, call).0;
            &&& after.attributes.len() == acc.attributes.len() + 1
            &&& after.attributes.drop_last() == acc.attributes
            &&& after.attributes.last().entity == n
            &&& after.attributes.last().key == k
            &&& after.attributes.last().value == v
            &&& after.relations == acc.relations && after.entities == acc.entities
        }),
{
    reveal_strlit("add_relation");
    reveal_strlit("add_entity");
    reveal_strlit("add_attribute");
    assert("add_relation"@.len() != "add_attribute"@.len());
    assert("add_entity"@.len() != "add_attribute"@.len());
    let args = JsonV::Object(args);
    assert(entity_recorded(acc, args).0.entities.drop_last() =~= acc.entities);
    assert(attribute_recorded(acc, args).0.attributes.drop_last() =~= acc.attributes);
}

/// A relationship that was recorded between two recorded entities is added behind those
/// before it, as sure as it was said to be, and runs from the entity that was named as its
/// source to the one that was named as its target.
pub proof fn law_recorded_relationships_keep_their_direction(
    b: BuilderV,
    ds: Seq<RelDraftV>,
    d: RelDraftV,
)
    ensures
        ({
            let before = with_rel_drafts(b, ds);
            let after = with_rel_drafts(b, ds.push(d));
            let from = table::lookup(before.by_name, text::lower(d.source));
            let to = table::lookup(before.by_name, text::lower(d.target));
            let es = before.graph.entities;
            if from is Some && to is Some && table::has_key(es, from->0) && table::has_key(
                es,
                to->0,
            ) {
                let u = after.graph.triples.last();
                &&& after.graph.triples.len() == before.graph.triples.len() + 1
                &&& after.graph.triples.drop_last() == before.graph.triples
                &&& u.predicate.label == Some(d.predicate)
                &&& u.confidence == Some(d.strength)
                &&& table::lookup(u.metadata, "description"@) == match d.description {
                    Some(t) => Some(JsonV::Text(t)),
                    None => None,
                }
                &&& graph_build::runs_from(
                    u,
                    table::lookup(es, from->0)->0,
                    table::lookup(es, to->0)->0,
                )
            } else {
                after == before
            }
        }),
{
    assert(ds.push(d).drop_last() =~= ds);
    let before = with_rel_drafts(b, ds);
    graph_build::law_relations_run_from_source_to_target(
        before,
        d.source,
        graph_build::predicate_of(d.predicate),
        d.target,
        Some(d.strength),
        draft_metadata(d),
    );
    if let Some(t) = d.description {
        table::lemma_lookup_put(seq![], "description"@, JsonV::Text(t), "description"@);
    }
}

/// The types that a model proposed are told by their kind.
pub proof fn law_proposals_are_told_by_kind(acc: AccV)
    ensures
        json::field(proposals_value(acc), "nodes"@) == Some(json::texts(acc.new_nodes)),
        json::field(proposals_value(acc), "relations"@) == Some(json::texts(acc.new_relations)),
        json::field(proposals_value(acc), "attributes"@) == Some(json::texts(acc.new_attributes)),
{
    reveal_strlit("nodes");
    assert("nodes"@.len() == 5);
    assert("nodes"@.len() == 5);
    reveal_strlit("relations");
    assert("relations"@.len() == 9);
    assert("relations"@.len() == 9);
    reveal_strlit("attributes");
    assert("attributes"@.len() == 10);
    assert("attributes"@.len() == 10);
    let o = proposals_value(acc)->Object_0;
    json::lemma_field_at(o, 0);
    json::lemma_field_at(o, 1);
    json::lemma_field_at(o, 2);
}

/// The types that were proposed.
pub open spec fn proposals_value(acc: AccV) -> JsonV {
    JsonV::Object(
        seq![
            ("nodes"@, json::texts(acc.new_nodes)),
            ("relations"@, json::texts(acc.new_relations)),
            ("attributes"@, json::texts(acc.new_attributes)),
        ],
    )
}

/// What comes of a text and what was recorded of it, where no model writes descriptions.
pub open spec fn response_of(c: ConfigV, text: Seq<char>, acc: AccV) -> ResponseV {
    response_with(c, text, acc, schema_json::settled(c.spec, recorded_graph(c.spec, acc)))
}

/// What comes of a text and what was recorded of it, where `g` is the graph that was made
/// of it.
pub open spec fn response_with(c: ConfigV, text: Seq<char>, acc: AccV, g: GraphV) -> ResponseV {
    let m = table::put(
        table::put(seq![], "mode"@, JsonV::Text("toolcall"@)),
        "schema_mode"@,
        JsonV::Text(types::spec::mode_name(c.spec.mode)),
    );
    ResponseV {
        knowledge_graph: citation::graph_cited(
            g,
            citation::whole_document(c.source_doc, text),
        ),
        metadata: if acc.new_nodes.len() > 0 || acc.new_relations.len() > 0
            || acc.new_attributes.len() > 0 {
            table::put(m, "new_schema_types"@, proposals_value(acc))
        } else {
            m
        },
        parsed_results: seq![],
        config: Some(c),
    }
}

/// A parameter that is a text.
fn make_text_param() -> (r: Json)
    ensures
        r@ == text_param(),
{
    let r = ObjectBuilder::new().with("type", json::string("string")).done();
    assert(r@->Object_0 =~= text_param()->Object_0);
    r
}

/// A parameter with what it says.
fn make_described_param(kind: &str, d: &str) -> (r: Json)
    ensures
        r@ == described_param(kind@, d@),
{
    let r = ObjectBuilder::new().with("type", json::string(kind)).with(
        "description",
        json::string(d),
    ).done();
    assert(r@->Object_0 =~= described_param(kind@, d@)->Object_0);
    r
}

/// A parameter that is one of several texts; any text where there are none.
fn make_choice_param(choices: &Vec<String>) -> (r: Json)
    ensures
        r@ == choice_param(seqs::views(choices@)),
{
    assert(seqs::views(choices@).len() == choices@.len());
    if choices.len() == 0 {
        return make_text_param();
    }
    let r = ObjectBuilder::new().with("type", json::string("string")).with(
        "enum",
        json::texts_of(choices),
    ).done();
    assert(r@->Object_0 =~= choice_param(seqs::views(choices@))->Object_0);
    r
}

/// The parameters of a tool.
fn make_params(properties: ObjectBuilder, required: &Vec<String>) -> (r: Json)
    ensures
        r@ == params(properties@, seqs::views(required@)),
{
    assert(seqs::views(required@).len() == required@.len());
    let mut b = ObjectBuilder::new();
    b.add("type", json::string("object"));
    let ghost shown = properties@;
    b.add("properties", properties.done());
    if required.len() > 0 {
        b.add("required", json::texts_of(required));
    }
    assert(b@ =~= params(shown, seqs::views(required@))->Object_0);
    b.done()
}

/// Up to three texts.
fn list3(a: &str, b: &str, c: Option<&str>) -> (r: Vec<String>)
    ensures
        seqs::views(r@) == match c {
            Some(x) => seq![a@, b@, x@],
            None => seq![a@, b@],
        },
{
    let mut v: Vec<String> = Vec::new();
    v.push(a.to_owned());
    v.push(b.to_owned());
    if let Some(x) = c {
        v.push(x.to_owned());
    }
    assert(seqs::views(v@) =~= match c {
        Some(x) => seq![a@, b@, x@],
        None => seq![a@, b@],
    });
    v
}

/// The engine.
pub struct ToolCallExtractor {
    pub config: ExtractionConfig,
    /// How many rounds there are at most.
    pub max_rounds: usize,
    /// Whether nothing is said beside the answer.
    pub quiet: bool,
}

impl View for ToolCallExtractor {
    type V = ConfigV;

    open spec fn view(&self) -> ConfigV {
        self.config@
    }
}

/// The argument `key` of a call as text.
fn arg_str(args: &Json, key: &str) -> (r: Option<String>)
    ensures
        seqs::opt_view(r) == argument(args@, key@),
{
    match args.get(key) {
        Some(Json::Text(s)) => Some(s.clone()),
        Some(Json::Null) => None,
        Some(v) => Some(json::render_json(v)),
        None => None,
    }
}

impl Accumulator {
    /// Nothing recorded yet.
    pub fn new() -> (r: Accumulator)
        ensures
            r@ == nothing_recorded(),
    {
        let r = Accumulator {
            entities: Vec::new(),
            attributes: Vec::new(),
            relations: Vec::new(),
            new_nodes: Vec::new(),
            new_relations: Vec::new(),
            new_attributes: Vec::new(),
            finished: false,
        };
        assert(r@.entities =~= seq![]);
        assert(r@.attributes =~= seq![]);
        assert(r@.relations =~= seq![]);
        assert(r@.new_nodes =~= seq![]);
        assert(r@.new_relations =~= seq![]);
        assert(r@.new_attributes =~= seq![]);
        r
    }

    /// Record an entity.
    fn record_entity(&mut self, args: &Json) -> (r: String)
        ensures
            (final(self)@, r@) == entity_recorded(old(self)@, args@),
    {
        let name = match arg_str(args, "name") {
            Some(n) => n,
            None => {
                return "error: name required".to_owned();
            },
        };
        let attributes = match args.object_at("attributes") {
            Some(m) => chunking::metadata_of(m),
            None => Table::new(),
        };
        assert(attributes@ =~= parser::attributes_in(args@));
        let type_str = match arg_str(args, "type") {
            Some(t) => t,
            None => "OTHER".to_owned(),
        };
        let mut answer = text::concat2("ok: entity '", name.as_str());
        answer.append("' recorded");
        let draft = EntityDraft {
            name,
            type_str,
            description: arg_str(args, "description"),
            attributes,
        };
        self.entities.push(draft);
        answer
    }

    /// Record a relationship.
    fn record_relation(&mut self, args: &Json) -> (r: String)
        ensures
            (final(self)@, r@) == relation_recorded(old(self)@, args@),
    {
        match (arg_str(args, "source"), arg_str(args, "predicate"), arg_str(args, "target")) {
            (Some(source), Some(predicate), Some(target)) => {
                let given = range::read_decimal(args.get("strength"));
                let strength = match &given {
                    Some(t) => mcp::store::strength(Some(t.as_str())),
                    None => mcp::store::strength(None),
                };
                let draft = RelDraft {
                    source,
                    predicate,
                    target,
                    description: arg_str(args, "description"),
                    strength,
                };
                self.relations.push(draft);
                "ok: relation recorded".to_owned()
            },
            _ => "error: source/predicate/target required".to_owned(),
        }
    }

    /// Record an attribute.
    fn record_attribute(&mut self, args: &Json) -> (r: String)
        ensures
            (final(self)@, r@) == attribute_recorded(old(self)@, args@),
    {
        match (arg_str(args, "entity"), arg_str(args, "key")) {
            (Some(entity), Some(key)) => {
                let value = match args.get("value") {
                    Some(v) => v.dup(),
                    None => Json::Null,
                };
                self.attributes.push(AttributeDraft { entity, key, value });
                "ok: attribute recorded".to_owned()
            },
            _ => "error: entity/key required".to_owned(),
        }
    }

    /// Record a proposal.
    fn record_proposal(&mut self, args: &Json) -> (r: String)
        ensures
            (final(self)@, r@) == proposal_recorded(old(self)@, args@),
    {
        let kind = match arg_str(args, "kind") {
            Some(k) => k,
            None => "".to_owned(),
        };
        let name = match arg_str(args, "name") {
            Some(n) => n,
            None => {
                return "error: name required".to_owned();
            },
        };
        if text::same(kind.as_str(), "node") {
            self.new_nodes.push(name);
        } else if text::same(kind.as_str(), "relation") {
            self.new_relations.push(name);
        } else if text::same(kind.as_str(), "attribute") {
            self.new_attributes.push(name);
        }
        "ok: schema type proposed".to_owned()
    }

    /// The names of the entities that were recorded, as they are answered.
    fn list_entities(&self) -> (r: String)
        ensures
            r@ == json::json_text(
                JsonV::Object(seq![("entities"@, json::texts(draft_names(self@.entities)))]),
            ),
    {
        let mut names: Vec<String> = Vec::new();
        let ghost all = draft_names(self@.entities);
        let mut i: usize = 0;
        while i < self.entities.len()
            invariant
                i <= self.entities@.len(),
                all == draft_names(self@.entities),
                seqs::views(names@) =~= all.take(i as int),
            decreases self.entities.len() - i,
        {
            names.push(self.entities[i].name.clone());
            i += 1;
        }
        assert(seqs::views(names@) =~= all);
        let v = ObjectBuilder::new().with("entities", json::texts_of(&names)).done();
        assert(v@->Object_0 =~= seq![("entities"@, json::texts(all))]);
        json::render_json(&v)
    }

    /// Carry out a call, and answer it.
    pub fn apply_call(&mut self, call: &ToolInvocation) -> (r: String)
        ensures
            (final(self)@, r@) == called(old(self)@, call@),
    {
        let name = call.name.as_str();
        if text::same(name, "add_entity") {
            self.record_entity(&call.arguments)
        } else if text::same(name, "add_relation") {
            self.record_relation(&call.arguments)
        } else if text::same(name, "add_attribute") {
            self.record_attribute(&call.arguments)
        } else if text::same(name, "propose_schema_type") {
            self.record_proposal(&call.arguments)
        } else if text::same(name, "list_entities") {
            self.list_entities()
        } else if text::same(name, "finish") {
            self.finished = true;
            "ok: finished".to_owned()
        } else {
            let mut e = text::concat2("error: unknown tool '", name);
            e.append("'");
            e
        }
    }
}

impl ToolCallExtractor {
    /// The configuration that the engine starts from: no schema.
    pub fn default_config() -> (r: ExtractionConfig)
        ensures
            r@ == types::spec::plain_config("qwen-max"@, 5000),
    {
        ExtractionConfig::plain("qwen-max", 5000)
    }

    /// The engine with the configuration that it starts from, and one round.
    pub fn new() -> (r: ToolCallExtractor)
        ensures
            r@ == types::spec::plain_config("qwen-max"@, 5000),
            r.max_rounds == 1,
            !r.quiet,
    {
        ToolCallExtractor::with_config(ToolCallExtractor::default_config())
    }

    /// The engine with a configuration, and one round.
    pub fn with_config(config: ExtractionConfig) -> (r: ToolCallExtractor)
        ensures
            r@ == config@,
            r.max_rounds == 1,
            !r.quiet,
    {
        ToolCallExtractor { config, max_rounds: 1, quiet: false }
    }

    /// The engine with a specification, and one round.
    pub fn with_spec(spec: ExtractionSpec) -> (r: ToolCallExtractor)
        ensures
            r@ == (ConfigV {
                spec: spec@,
                ..types::spec::plain_config("qwen-max"@, 5000)
            }),
            r.max_rounds == 1,
            !r.quiet,
    {
        let mut config = ToolCallExtractor::default_config();
        config.spec = spec;
        ToolCallExtractor::with_config(config)
    }

    /// The engine in another mode.
    pub fn schema_mode(self, mode: SchemaMode) -> (r: ToolCallExtractor)
        ensures
            r@ == (ConfigV { spec: SpecV { mode, ..self@.spec }, ..self@ }),
            r.max_rounds == self.max_rounds,
            r.quiet == self.quiet,
    {
        let mut r = self;
        r.config.spec.mode = mode;
        r
    }

    /// The engine with another number of rounds, one at least.
    pub fn max_rounds(self, rounds: usize) -> (r: ToolCallExtractor)
        ensures
            r@ == self@,
            r.max_rounds == if rounds >= 1 {
                rounds
            } else {
                1
            },
            r.quiet == self.quiet,
    {
        let mut r = self;
        r.max_rounds = if rounds >= 1 {
            rounds
        } else {
            1
        };
        r
    }

    /// The configuration.
    pub fn config(&self) -> (r: &ExtractionConfig)
        ensures
            r@ == self@,
    {
        &self.config
    }

    /// What is asked of a model beside the messages.
    pub fn options(&self) -> (r: CompletionOptions)
        ensures
            r.model@ == self@.model_name,
            r.temperature_percent == 30,
            r.max_tokens == 4000,
    {
        CompletionOptions::of(self.config.model_name.as_str(), 30, 4000)
    }

    /// What the model is told before it is given a text.
    pub fn system_prompt(&self) -> (r: String)
        ensures
            r@ == system_prompt_of(self@.spec),
    {
        let mut s = SYSTEM_PROMPT.to_owned();
        if self.config.spec.schema.is_empty() {
            return s;
        }
        match self.config.spec.mode {
            SchemaMode::Fixed => {
                s.append(
                    "\n\nSCHEMA (closed — use ONLY these types; anything else is discarded):\nentity types: ",
                );
            },
            SchemaMode::Evolving => {
                s.append(
                    "\n\nSCHEMA (seed — prefer these; call propose_schema_type for a genuinely new type):\nentity types: ",
                );
            },
            SchemaMode::Open => {
                return s;
            },
        }
        s.append(text::join(self.config.entity_types_list(), ", ").as_str());
        s.append("\nrelation types: ");
        s.append(text::join(self.config.predicates_list(), ", ").as_str());
        s.append("\nattributes: ");
        s.append(text::join(self.config.attributes_list(), ", ").as_str());
        s
    }

    /// The types that a call must choose from.
    fn choices_of(&self, list: &Vec<String>) -> (r: Vec<String>)
        ensures
            seqs::views(r@) == choices(self@.spec.mode, seqs::views(list@)),
    {
        match self.config.spec.mode {
            SchemaMode::Fixed => names::clone_names(list),
            _ => Vec::new(),
        }
    }

    /// The tool that records an entity.
    fn make_entity_tool(&self) -> (r: ToolSpec)
        ensures
            tool_view(r) == entity_tool(self@.spec),
    {
        let properties = ObjectBuilder::new().with(
            "name",
            make_described_param("string", "Entity name as it appears in the text"),
        ).with(
            "type",
            make_choice_param(&self.choices_of(self.config.entity_types_list())),
        ).with(
            "description",
            make_described_param("string", "1-2 sentence description"),
        ).with("attributes", make_described_param("object", "Optional key/value attributes"));
        let ghost shown = properties@;
        let t = ToolSpec {
            name: "add_entity".to_owned(),
            description: "Record a single entity found in the text.".to_owned(),
            parameters: make_params(properties, &list3("name", "type", None)),
        };
        assert(shown =~= seq![
            ("name"@, described_param("string"@, "Entity name as it appears in the text"@)),
            ("type"@, choice_param(choices(self@.spec.mode, self@.spec.schema.nodes))),
            ("description"@, described_param("string"@, "1-2 sentence description"@)),
            ("attributes"@, described_param("object"@, "Optional key/value attributes"@)),
        ]);
        t
    }

    /// The tool that records a relationship.
    fn make_relation_tool(&self) -> (r: ToolSpec)
        ensures
            tool_view(r) == relation_tool(self@.spec),
    {
        let properties = ObjectBuilder::new().with(
            "source",
            make_described_param(
                "string",
                "Source entity name. For *_BY predicates this is the thing acted on, not the doer.",
            ),
        ).with(
            "predicate",
            make_choice_param(&self.choices_of(self.config.predicates_list())),
        ).with(
            "target",
            make_described_param(
                "string",
                "Target entity name. For *_BY predicates this is the doer.",
            ),
        ).with("description", make_text_param()).with(
            "strength",
            make_described_param("number", "Confidence 0..1"),
        );
        let ghost shown = properties@;
        let t = ToolSpec {
            name: "add_relation".to_owned(),
            description: RELATION_TOOL.to_owned(),
            parameters: make_params(properties, &list3("source", "predicate", Some("target"))),
        };
        assert(shown =~= seq![
            (
                "source"@,
                described_param(
                    "string"@,
                    "Source entity name. For *_BY predicates this is the thing acted on, not the doer."@,
                ),
            ),
            ("predicate"@, choice_param(choices(self@.spec.mode, self@.spec.schema.relations))),
            (
                "target"@,
                described_param(
                    "string"@,
                    "Target entity name. For *_BY predicates this is the doer."@,
                ),
            ),
            ("description"@, text_param()),
            ("strength"@, described_param("number"@, "Confidence 0..1"@)),
        ]);
        t
    }

    /// The tools: see [`tool_list`].
    pub fn tools(&self) -> (r: Vec<ToolSpec>)
        ensures
            tool_views(r@) == tool_list(self@.spec, self.max_rounds as nat),
    {
        let mut tools: Vec<ToolSpec> = Vec::new();
        tools.push(self.make_entity_tool());
        tools.push(self.make_relation_tool());
        let p = ObjectBuilder::new().with("entity", make_text_param()).with(
            "key",
            make_text_param(),
        ).with("value", make_text_param());
        assert(p@ =~= seq![
            ("entity"@, text_param()),
            ("key"@, text_param()),
            ("value"@, text_param()),
        ]);
        tools.push(
            ToolSpec {
                name: "add_attribute".to_owned(),
                description: "Attach a key/value attribute to a previously added entity.".to_owned(),
                parameters: make_params(p, &list3("entity", "key", Some("value"))),
            },
        );
        let p = ObjectBuilder::new().with(
            "kind",
            make_choice_param(&list3("node", "relation", Some("attribute"))),
        ).with("name", make_text_param()).with("reason", make_text_param());
        assert(p@ =~= seq![
            ("kind"@, choice_param(seq!["node"@, "relation"@, "attribute"@])),
            ("name"@, text_param()),
            ("reason"@, text_param()),
        ]);
        tools.push(
            ToolSpec {
                name: "propose_schema_type".to_owned(),
                description: "Propose a new schema type when the text needs one not in the schema.".to_owned(),
                parameters: make_params(p, &list3("kind", "name", None)),
            },
        );
        if self.max_rounds > 1 {
            let none: Vec<String> = Vec::new();
            assert(seqs::views(none@) =~= seq![]);
            tools.push(
                ToolSpec {
                    name: "list_entities".to_owned(),
                    description: "List entities recorded so far (to avoid dangling relations).".to_owned(),
                    parameters: make_params(ObjectBuilder::new(), &none),
                },
            );
        }
        let none: Vec<String> = Vec::new();
        assert(seqs::views(none@) =~= seq![]);
        tools.push(
            ToolSpec {
                name: "finish".to_owned(),
                description: "Signal that extraction is complete.".to_owned(),
                parameters: make_params(ObjectBuilder::new(), &none),
            },
        );
        assert(tool_views(tools@) =~= tool_list(self@.spec, self.max_rounds as nat));
        tools
    }

    /// Open a session about a text, or say why there is none. `supports_tools` says
    /// whether the model can call tools.
    pub fn start(&self, text: &str, supports_tools: bool) -> (r: Result<ToolSession, String>)
        ensures
            match r {
                Ok(s) => text::trimmed(text@).len() > 0 && !schema_json::is_schema_lacking(
                    self@.spec,
                ) && supports_tools && s@ == opened(
                    self@.spec,
                    self.max_rounds as nat,
                    text@,
                ),
                Err(e) => if text::trimmed(text@).len() == 0 {
                    e@ == "No input text provided"@
                } else if schema_json::is_schema_lacking(self@.spec) {
                    e@ == schema_json::schema_lacking(self@.spec.mode)
                } else {
                    !supports_tools && e@
                        == "the selected backend does not support tool calling"@
                },
            },
    {
        if let Err(e) = extractor::validate_input(text, self.config.min_segment_size) {
            return Err(e);
        }
        if self.config.spec.mode.needs_schema() && self.config.spec.schema.is_empty() {
            return Err(schema_json::lacks_schema(self.config.spec.mode));
        }
        if !supports_tools {
            return Err("the selected backend does not support tool calling".to_owned());
        }
        let mut messages: Vec<Message> = Vec::new();
        messages.push(Message::system(self.system_prompt().as_str()));
        let user = text::concat2(
            "Extract a knowledge graph from the text below using the tools.\n\nText:\n",
            text,
        );
        messages.push(Message::user(user.as_str()));
        let s = ToolSession { messages, acc: Accumulator::new(), left: self.max_rounds };
        assert(s@.messages =~= opened(self@.spec, self.max_rounds as nat, text@).messages);
        Ok(s)
    }

    /// Go one round on with what the model answered. A round brings a session nearer
    /// to its end.
    pub fn step(&self, s: &mut ToolSession, response: &ToolChatResponse)
        requires
            old(s)@.left > 0,
        ensures
            final(s)@ == stepped(
                old(s)@,
                seqs::opt_view(response.content),
                seqs::views(response.tool_calls@),
            ),
            final(s)@.left < old(s)@.left,
    {
        let ghost calls = seqs::views(response.tool_calls@);
        if response.tool_calls.len() == 0 {
            s.left = 0;
            return;
        }
        let mut raw: Vec<Json> = Vec::new();
        let mut i: usize = 0;
        while i < response.tool_calls.len()
            invariant
                i <= response.tool_calls@.len(),
                calls == seqs::views(response.tool_calls@),
                seqs::views(raw@) =~= Seq::new(
                    i as nat,
                    |k: int| backend::invocation_value(calls[k]),
                ),
            decreases response.tool_calls.len() - i,
        {
            raw.push(response.tool_calls[i].to_openai_json());
            i += 1;
        }
        let content = types::graph::dup_option(&response.content);
        let asked = Message::assistant_with_tool_calls(content, raw);
        assert(asked@ == asking(seqs::opt_view(response.content), calls));
        s.messages.push(asked);
        let ghost start = (s@.acc, s@.messages);
        let mut j: usize = 0;
        assert(calls.take(0).len() == 0);
        while j < response.tool_calls.len()
            invariant
                j <= response.tool_calls@.len(),
                calls == seqs::views(response.tool_calls@),
                s.left == old(s).left,
                (s@.acc, s@.messages) == all_called(start.0, start.1, calls.take(j as int)),
            decreases response.tool_calls.len() - j,
        {
            assert(calls.take(j + 1).drop_last() =~= calls.take(j as int));
            let call = &response.tool_calls[j];
            assert(calls.take(j + 1).last() == call@);
            let result = s.acc.apply_call(call);
            s.messages.push(Message::tool_result(call.id.as_str(), result.as_str()));
            j += 1;
        }
        assert(calls.take(j as int) =~= calls);
        if s.acc.finished {
            s.left = 0;
        } else {
            s.left = s.left - 1;
        }
    }

    /// The graph of what was recorded.
    pub fn build_graph(&self, acc: &Accumulator) -> (r: KnowledgeGraph)
        ensures
            r@ == recorded_graph(self@.spec, acc@),
    {
        let strategy = if self.config.spec.merge_duplicates {
            self.config.spec.merge_strategy
        } else {
            MergeStrategy::KeepExisting
        };
        let mut gb = GraphBuilder::new().merge_strategy(strategy);
        let ghost start = gb@;
        let ghost es = acc@.entities;
        let mut i: usize = 0;
        while i < acc.entities.len()
            invariant
                i <= acc.entities@.len(),
                es == seqs::views(acc.entities@),
                gb@ == with_entity_drafts(start, es.take(i as int)),
            decreases acc.entities.len() - i,
        {
            assert(es.take(i + 1).drop_last() =~= es.take(i as int));
            let d = &acc.entities[i];
            assert(es.take(i + 1).last() == d@);
            gb.add_entity_with_raw_type(
                d.name.as_str(),
                graph_build::parse_entity_type(d.type_str.as_str()),
                Some(d.type_str.clone()),
                types::graph::dup_option(&d.description),
                d.attributes.dup(),
            );
            i += 1;
        }
        assert(es.take(i as int) =~= es);
        let ghost with_es = gb@;
        let ghost rs = acc@.relations;
        let mut j: usize = 0;
        while j < acc.relations.len()
            invariant
                j <= acc.relations@.len(),
                rs == seqs::views(acc.relations@),
                gb@ == with_rel_drafts(with_es, rs.take(j as int)),
            decreases acc.relations.len() - j,
        {
            assert(rs.take(j + 1).drop_last() =~= rs.take(j as int));
            let d = &acc.relations[j];
            assert(rs.take(j + 1).last() == d@);
            let mut m: Metadata = Table::new();
            if let Some(t) = &d.description {
                m.insert("description".to_owned(), Json::Text(t.clone()));
            }
            assert(m@ =~= draft_metadata(d@));
            gb.add_relation(
                d.source.as_str(),
                graph_build::build_predicate(d.predicate.as_str()),
                d.target.as_str(),
                Some(d.strength.dup()),
                m,
            );
            j += 1;
        }
        assert(rs.take(j as int) =~= rs);
        let ghost with_rs = gb@;
        let ghost ats = acc@.attributes;
        let mut k: usize = 0;
        while k < acc.attributes.len()
            invariant
                k <= acc.attributes@.len(),
                ats == seqs::views(acc.attributes@),
                gb@ == with_attribute_drafts(with_rs, ats.take(k as int)),
            decreases acc.attributes.len() - k,
        {
            assert(ats.take(k + 1).drop_last() =~= ats.take(k as int));
            let d = &acc.attributes[k];
            assert(ats.take(k + 1).last() == d@);
            gb.set_attribute(d.entity.as_str(), d.key.clone(), d.value.dup());
            k += 1;
        }
        assert(ats.take(k as int) =~= ats);
        gb.into_graph()
    }

    /// Whether a model writes the descriptions of entities that are combined.
    pub fn asks_to_merge(&self) -> (r: bool)
        ensures
            r == schema_json::is_written(self@.spec),
    {
        schema_json::asks_to_write(&self.config.spec)
    }

    /// The pass that frees the graph of what was recorded of duplicates, before anything
    /// was taken in: see [`schema_json::start_settling`].
    pub fn start_merge(&self, s: &ToolSession) -> (r: MergeSession)
        requires
            self@.spec.merge_duplicates,
        ensures
            r@ == (MergeSessionV {
                g: merger::emptied(r@.other),
                other: schema_json::turned(self@.spec, recorded_graph(self@.spec, s@.acc)),
                strategy: self@.spec.merge_strategy,
                mode: self@.spec.coref,
                written: seq![],
            }),
            forall|written: Seq<Option<Seq<char>>>| #[trigger]
                schema_json::settled_with(
                    self@.spec,
                    recorded_graph(self@.spec, s@.acc),
                    written,
                ) == merger::deduplicated_with(r@.g, r@.other, r@.strategy, r@.mode, written),
    {
        schema_json::start_settling(&self.config.spec, self.build_graph(&s.acc))
    }

    /// What comes of a text and a session about it, where no model writes descriptions.
    pub fn finish(&self, s: &ToolSession, text: &str) -> (r: ExtractionResponse)
        ensures
            r@ == response_of(self@, text@, s@.acc),
    {
        let kg = schema_json::settle(&self.config.spec, self.build_graph(&s.acc));
        self.respond_with(s, text, kg)
    }

    /// What comes of a text and a session about it, where `kg` is the graph that was made
    /// of it. Where a model writes descriptions, `kg` is what
    /// [`ToolCallExtractor::start_merge`] comes to.
    pub fn respond_with(&self, s: &ToolSession, text: &str, kg: KnowledgeGraph) -> (r:
        ExtractionResponse)
        ensures
            r@ == response_with(self@, text@, s@.acc, kg@),
    {
        let acc = &s.acc;
        let mut kg = kg;
        citation::stamp_whole_document(&mut kg, &self.config.source_doc, text);
        let mut r = ExtractionResponse::new(kg);
        r.config = Some(self.config.dup());
        r.metadata.insert("mode".to_owned(), json::string("toolcall"));
        r.metadata.insert("schema_mode".to_owned(), json::string(self.config.spec.mode.as_str()));
        assert(acc@.new_nodes.len() == acc.new_nodes@.len());
        assert(acc@.new_relations.len() == acc.new_relations@.len());
        assert(acc@.new_attributes.len() == acc.new_attributes@.len());
        if acc.new_nodes.len() > 0 || acc.new_relations.len() > 0 || acc.new_attributes.len() > 0 {
            let v = ObjectBuilder::new().with("nodes", json::texts_of(&acc.new_nodes)).with(
                "relations",
                json::texts_of(&acc.new_relations),
            ).with("attributes", json::texts_of(&acc.new_attributes)).done();
            assert(v@->Object_0 =~= proposals_value(acc@)->Object_0);
            r.metadata.insert("new_schema_types".to_owned(), v);
        }
        r
    }
}

/// Under a fixed schema that names types, the tools take no other type: what they
/// offer is what the schema names.
pub proof fn law_fixed_tools_offer_schema(s: SpecV, max_rounds: nat)
    requires
        s.mode == SchemaMode::Fixed,
        s.schema.nodes.len() > 0,
        s.schema.relations.len() > 0,
    ensures
        tool_list(s, max_rounds)[0] == entity_tool(s),
        choice_param(choices(s.mode, s.schema.nodes)) == JsonV::Object(
            seq![("type"@, JsonV::Text("string"@)), ("enum"@, json::texts(s.schema.nodes))],
        ),
        tool_list(s, max_rounds)[1] == relation_tool(s),
        choice_param(choices(s.mode, s.schema.relations)) == JsonV::Object(
            seq![("type"@, JsonV::Text("string"@)), ("enum"@, json::texts(s.schema.relations))],
        ),
{
}

} // verus!
