//! Extraction along a schema, which a model may be asked to extend, with communities of
//! entities.

use vstd::prelude::*;

use crate::backend::CompletionOptions;
use crate::extractor::schema_json;
use crate::json::{Json, JsonV, ObjectBuilder};
use crate::parser::extract_json_from_response;
use crate::table::{Dup, Table};
use crate::types::graph::{
    Entity, EntityV, GraphV, KnowledgeGraph, Metadata, MetadataV, Predicate, Triple, TripleV,
};
use crate::types::response::{ExtractionResponse, ResponseV};
use crate::types::spec::{ConfigV, ExtractionConfig};
use crate::types::vocab::{EntityType, PredicateType};
use crate::{chunking, graph_build, json, parser, seqs, table, text};

verus! {

broadcast use {crate::seqs::group_views, crate::json::group_json};

/// Whether a model may propose types that the schema does not name.
#[derive(Clone, Copy, Debug, PartialEq, Eq, Structural)]
pub enum YoutuMode {
    /// Only the types of the schema are used.
    NoAgent,
    /// New types may be proposed.
    Agent,
}

/// The name of a mode.
pub open spec fn mode_name(m: YoutuMode) -> Seq<char> {
    match m {
        YoutuMode::NoAgent => "noagent"@,
        YoutuMode::Agent => "agent"@,
    }
}

impl YoutuMode {
    /// The name of the mode.
    pub fn as_str(&self) -> (r: &'static str)
        ensures
            r@ == mode_name(*self),
    {
        match self {
            YoutuMode::NoAgent => "noagent",
            YoutuMode::Agent => "agent",
        }
    }
}

/// What comes before the schema, where new types may be proposed.
pub const AGENT_HEAD: &'static str =
    "Extract entities and relationships from the following text using the provided schema as guidance.\nYou may suggest new entity types, relations, or attributes if they better represent the content.\n\nSchema:\n";

/// What comes before the schema, where only its types are used.
pub const PLAIN_HEAD: &'static str =
    "Extract entities and relationships from the following text using the provided schema.\n\nSchema:\n";

/// What is to be written.
pub const OUTPUT_FORMAT: &'static str =
    "\n\nOutput JSON with:\n1. \"entities\": {\"entity_name\": {\"type\": \"EntityType\", \"attributes\": {\"attr\": \"value\"}}}\n2. \"relationships\": [[\"subject\", \"predicate\", \"object\"]]\n3. \"entity_types\": {\"entity_name\": \"type\"} (map entities to their types)\n";

/// What comes at the end, where new types may be proposed.
pub const AGENT_TAIL: &'static str =
    "4. \"new_schema_types\": {\"nodes\": [], \"relations\": [], \"attributes\": []} (if suggesting new types)\n\nEnsure valid JSON output.";

/// What comes at the end, where only the types of the schema are used.
pub const PLAIN_TAIL: &'static str =
    "\nUse only the entity types and relations from the schema.\nEnsure valid JSON output.";

/// A question tells the schema and then the text, each whole.
pub proof fn law_questions_tell_schema_and_text(m: YoutuMode, schema: Seq<char>, t: Seq<char>)
    ensures
        exists|a: Seq<char>, b: Seq<char>, c: Seq<char>| #[trigger]
            (a + schema + b + t + c) == question(m, schema, t),
{
    let a = match m {
        YoutuMode::Agent => AGENT_HEAD@,
        YoutuMode::NoAgent => PLAIN_HEAD@,
    };
    let tail = match m {
        YoutuMode::Agent => AGENT_TAIL@,
        YoutuMode::NoAgent => PLAIN_TAIL@,
    };
    let c = OUTPUT_FORMAT@ + tail;
    assert((a + schema + "\n\nText:\n"@ + t + c) =~= question(m, schema, t));
}

/// The question about a text, where `schema` is how the schema is written.
pub open spec fn question(m: YoutuMode, schema: Seq<char>, text: Seq<char>) -> Seq<char> {
    let head = match m {
        YoutuMode::Agent => AGENT_HEAD@,
        YoutuMode::NoAgent => PLAIN_HEAD@,
    };
    let tail = match m {
        YoutuMode::Agent => AGENT_TAIL@,
        YoutuMode::NoAgent => PLAIN_TAIL@,
    };
    head + schema + "\n\nText:\n"@ + text + OUTPUT_FORMAT@ + tail
}

/// The question about a text, where `schema` is how the schema is written.
pub fn write_question(m: YoutuMode, schema: &str, text: &str) -> (r: String)
    ensures
        r@ == question(m, schema@, text@),
{
    let mut s = match m {
        YoutuMode::Agent => AGENT_HEAD.to_owned(),
        YoutuMode::NoAgent => PLAIN_HEAD.to_owned(),
    };
    s.append(schema);
    s.append("\n\nText:\n");
    s.append(text);
    s.append(OUTPUT_FORMAT);
    s.append(
        match m {
            YoutuMode::Agent => AGENT_TAIL,
            YoutuMode::NoAgent => PLAIN_TAIL,
        },
    );
    s
}

/// What was written of the type of the entity `name`: with the entity, or else among
/// the types of the entities.
pub open spec fn written_type(data: JsonV, name: Seq<char>, info: JsonV) -> Seq<char> {
    match json::text_in(json::field(info, "type"@)) {
        Some(t) => t,
        None => match json::field(data, "entity_types"@) {
            Some(types) => parser::text_or(json::text_in(json::field(types, name)), "UNKNOWN"@),
            None => "UNKNOWN"@,
        },
    }
}

/// The entity `name`.
pub open spec fn entity_in(data: JsonV, name: Seq<char>, info: JsonV) -> EntityV {
    let attributes = parser::attributes_in(info);
    EntityV {
        description: json::text_in(table::lookup(attributes, "description"@)),
        metadata: attributes,
        ..crate::types::graph::plain_entity(
            graph_build::id_of_name(name),
            name,
            schema_json::strict_entity_type(written_type(data, name, info)),
        )
    }
}

/// What has been built: a graph, the entities as they were stated, and their ids by
/// name in lower case.
pub struct BuildingV {
    pub graph: GraphV,
    pub entities: Seq<(Seq<char>, EntityV)>,
    pub ids: Seq<(Seq<char>, Seq<char>)>,
}

/// What has been built of entities.
pub open spec fn with_entities(data: JsonV, o: Seq<(Seq<char>, JsonV)>) -> BuildingV
    decreases o.len(),
{
    if o.len() == 0 {
        BuildingV {
            graph: crate::types::graph::empty_graph(),
            entities: seq![],
            ids: seq![],
        }
    } else {
        let st = with_entities(data, o.drop_last());
        let e = entity_in(data, o.last().0, o.last().1);
        BuildingV {
            graph: GraphV {
                entities: crate::types::graph::entity_added(st.graph.entities, e),
                ..st.graph
            },
            entities: table::put(st.entities, e.id, e),
            ids: table::put(st.ids, text::lower(o.last().0), e.id),
        }
    }
}

/// The entity with a name, whatever its case.
pub open spec fn entity_named(st: BuildingV, name: Seq<char>) -> Option<EntityV> {
    match table::lookup(st.ids, text::lower(name)) {
        Some(id) => table::lookup(st.entities, id),
        None => None,
    }
}

/// The text at the place `i`, blank where there is none.
pub open spec fn text_at(a: Seq<JsonV>, i: int) -> Seq<char> {
    parser::text_or(json::text_in(Some(a[i])), ""@)
}

/// The relationship that a list of names states; nothing where it is too short or an
/// end of it is not known.
pub open spec fn relationship_in(st: BuildingV, rel: JsonV) -> Option<TripleV> {
    match rel {
        JsonV::Array(a) => if a.len() < 3 {
            None
        } else {
            match (entity_named(st, text_at(a, 0)), entity_named(st, text_at(a, 2))) {
                (Some(s), Some(o)) => Some(
                    crate::types::graph::plain_triple(
                        s,
                        schema_json::strict_predicate(text_at(a, 1)),
                        o,
                    ),
                ),
                _ => None,
            }
        },
        _ => None,
    }
}

/// The relationships that lists of names state.
pub open spec fn relationships_in(st: BuildingV, rels: Seq<JsonV>) -> Seq<TripleV>
    decreases rels.len(),
{
    if rels.len() == 0 {
        seq![]
    } else {
        let before = relationships_in(st, rels.drop_last());
        match relationship_in(st, rels.last()) {
            Some(t) => before.push(t),
            None => before,
        }
    }
}

/// The graph that an answer states.
pub open spec fn built(data: JsonV) -> GraphV {
    let o = match json::object_in(json::field(data, "entities"@)) {
        Some(o) => o,
        None => seq![],
    };
    let rels = match json::array_in(json::field(data, "relationships"@)) {
        Some(a) => a,
        None => seq![],
    };
    let st = with_entities(data, o);
    crate::types::graph::triples_added(st.graph, relationships_in(st, rels))
}

/// The places of the two ends of a relationship among the entities, where both are.
pub open spec fn edge_of(es: Seq<(Seq<char>, EntityV)>, t: TripleV) -> Option<(int, int)> {
    match (table::position(es, t.subject.id), table::position(es, t.object.id)) {
        (Some(s), Some(o)) => Some((s, o)),
        _ => None,
    }
}

/// Each relationship between two entities that are known is one edge, behind those before
/// it, from the place of its subject to that of its object; another one is none.
pub proof fn law_each_relationship_is_one_edge(
    es: Seq<(Seq<char>, EntityV)>,
    ts: Seq<TripleV>,
    t: TripleV,
)
    ensures
        ({
            let before = edges_of(es, ts);
            let after = edges_of(es, ts.push(t));
            if table::has_key(es, t.subject.id) && table::has_key(es, t.object.id) {
                &&& after.len() == before.len() + 1
                &&& after.drop_last() == before
                &&& 0 <= after.last().0 < es.len() && es[after.last().0].0 == t.subject.id
                &&& 0 <= after.last().1 < es.len() && es[after.last().1].0 == t.object.id
            } else {
                after == before
            }
        }),
{
    assert(ts.push(t).drop_last() =~= ts);
    table::lemma_position(es, t.subject.id);
    table::lemma_position(es, t.object.id);
    if let Some(e) = edge_of(es, t) {
        assert(edges_of(es, ts).push(e).drop_last() =~= edges_of(es, ts));
    }
}

/// The places of the ends of relationships among the entities.
pub open spec fn edges_of(es: Seq<(Seq<char>, EntityV)>, ts: Seq<TripleV>) -> Seq<(int, int)>
    decreases ts.len(),
{
    if ts.len() == 0 {
        seq![]
    } else {
        let before = edges_of(es, ts.drop_last());
        match edge_of(es, ts.last()) {
            Some(e) => before.push(e),
            None => before,
        }
    }
}

/// A graph whose entities have the numbers of their communities.
pub open spec fn labelled(g: GraphV, labels: Seq<usize>) -> GraphV {
    GraphV {
        entities: Seq::new(
            g.entities.len(),
            |i: int|
                (
                    g.entities[i].0,
                    EntityV {
                        metadata: table::put(
                            g.entities[i].1.metadata,
                            "community_id"@,
                            JsonV::Uint(labels[i] as u64),
                        ),
                        ..g.entities[i].1
                    },
                ),
        ),
        ..g
    }
}

/// Each entity is given the number of its community, in the order of the entities, and
/// nothing else of it changes.
pub proof fn law_entities_know_their_communities(g: GraphV, labels: Seq<usize>, i: int, k: Seq<char>)
    requires
        0 <= i < g.entities.len(),
        k != "community_id"@,
    ensures
        ({
            let r = labelled(g, labels);
            let a = g.entities[i].1;
            let b = r.entities[i].1;
            &&& r.entities.len() == g.entities.len() && r.triples == g.triples
            &&& r.entities[i].0 == g.entities[i].0
            &&& table::lookup(b.metadata, "community_id"@) == Some(JsonV::Uint(labels[i] as u64))
            &&& table::lookup(b.metadata, k) == table::lookup(a.metadata, k)
            &&& b.id == a.id && b.label == a.label && b.description == a.description
        }),
{
    let m = g.entities[i].1.metadata;
    table::lemma_lookup_put(m, "community_id"@, JsonV::Uint(labels[i] as u64), k);
    table::lemma_lookup_put(m, "community_id"@, JsonV::Uint(labels[i] as u64), "community_id"@);
}

/// The ids of the entities of a graph, and its relationships as pairs of places among
/// them: what communities are found in.
pub fn project(kg: &KnowledgeGraph) -> (r: (Vec<String>, Vec<(usize, usize)>))
    ensures
        seqs::views(r.0@) == table::keys(kg@.entities),
        crate::community::edge_numbers(r.1@) == edges_of(kg@.entities, kg@.triples),
        forall|i: int|
            0 <= i < r.1@.len() ==> (#[trigger] r.1@[i]).0 < kg@.entities.len() && r.1@[i].1
                < kg@.entities.len(),
{
    let n: usize = kg.entities.len();
    let mut ids: Vec<String> = Vec::new();
    let mut i: usize = 0;
    while i < n
        invariant
            i <= n,
            n == kg.entities@.len(),
            seqs::views(ids@) =~= table::keys(kg.entities@).take(i as int),
        decreases n - i,
    {
        ids.push(kg.entities.key_at(i).clone());
        i += 1;
    }
    assert(seqs::views(ids@) =~= table::keys(kg.entities@));
    let ghost ts = seqs::views(kg.triples@);
    let mut edges: Vec<(usize, usize)> = Vec::new();
    let mut j: usize = 0;
    while j < kg.triples.len()
        invariant
            j <= kg.triples@.len(),
            n == kg.entities@.len(),
            ts == seqs::views(kg.triples@),
            crate::community::edge_numbers(edges@) =~= edges_of(kg.entities@, ts.take(j as int)),
            forall|i: int| 0 <= i < edges@.len() ==> (#[trigger] edges@[i]).0 < n && edges@[i].1 < n,
        decreases kg.triples.len() - j,
    {
        assert(ts.take(j + 1).drop_last() =~= ts.take(j as int));
        assert(ts.take(j + 1).last() == kg.triples@[j as int]@);
        let t = &kg.triples[j];
        match (
            kg.entities.index_of(t.subject.id.as_str()),
            kg.entities.index_of(t.object.id.as_str()),
        ) {
            (Some(s), Some(o)) => {
                edges.push((s, o));
            },
            _ => {},
        }
        j += 1;
    }
    assert(ts.take(j as int) =~= ts);
    (ids, edges)
}

/// Note in each entity the number of its community: `labels` are the numbers, in the
/// order of the entities.
pub fn apply_community_detection(kg: &mut KnowledgeGraph, labels: &Vec<usize>)
    requires
        labels@.len() == old(kg)@.entities.len(),
    ensures
        final(kg)@ == labelled(old(kg)@, labels@),
{
    let ghost before = kg@;
    let ghost after = labelled(before, labels@);
    let n: usize = kg.entities.len();
    let mut i: usize = 0;
    while i < n
        invariant
            i <= n,
            n == before.entities.len(),
            labels@.len() == n,
            before == old(kg)@,
            after == labelled(before, labels@),
            kg@.entities.len() == n,
            forall|k: int| 0 <= k < i ==> #[trigger] kg@.entities[k] == after.entities[k],
            forall|k: int| i <= k < n ==> #[trigger] kg@.entities[k] == before.entities[k],
            kg@.triples == before.triples,
            kg@.metadata == before.metadata,
        decreases n - i,
    {
        let mut e = kg.entities.value_at(i).dup();
        e.metadata.insert("community_id".to_owned(), Json::Uint(labels[i] as u64));
        kg.entities.set_at(i, e);
        i += 1;
    }
    assert(kg@.entities =~= after.entities);
}

/// What is noted of an extraction.
pub open spec fn response_metadata(c: ConfigV, m: YoutuMode, data: JsonV) -> MetadataV {
    let noted = table::put(
        table::put(
            table::put(seq![], "model"@, JsonV::Text(c.model_name)),
            "mode"@,
            JsonV::Text(mode_name(m)),
        ),
        "schema_used"@,
        schema_json::schema_used(c.spec.schema),
    );
    match json::field(data, "new_schema_types"@) {
        Some(v) => table::put(noted, "new_schema_types"@, v),
        None => noted,
    }
}

/// What is taken of an answer: one without JSON states nothing.
pub open spec fn taken(j: Option<JsonV>) -> JsonV {
    match j {
        Some(v) => v,
        None => schema_json::empty_answer(),
    }
}

/// What was extracted, where `j` is the JSON in the answer and `g` the graph that it
/// states.
pub open spec fn response_of(c: ConfigV, m: YoutuMode, j: Option<JsonV>, g: GraphV) -> ResponseV {
    ResponseV {
        knowledge_graph: g,
        metadata: response_metadata(c, m, taken(j)),
        parsed_results: seq![],
        config: Some(c),
    }
}

/// What a [`YoutuExtractor`] stands for.
pub struct YoutuV {
    pub config: ConfigV,
    pub mode: YoutuMode,
    pub enable_community_detection: bool,
}

/// Extraction along a schema.
pub struct YoutuExtractor {
    pub config: ExtractionConfig,
    pub mode: YoutuMode,
    pub enable_community_detection: bool,
    pub quiet: bool,
}

impl View for YoutuExtractor {
    type V = YoutuV;

    open spec fn view(&self) -> YoutuV {
        YoutuV {
            config: self.config@,
            mode: self.mode,
            enable_community_detection: self.enable_community_detection,
        }
    }
}

/// What was written of the type of the entity `name`.
fn read_type(data: &Json, name: &str, info: &Json) -> (r: String)
    ensures
        r@ == written_type(data@, name@, info@),
{
    if let Some(t) = info.text_at("type") {
        return t;
    }
    if let Some(types) = data.get("entity_types") {
        if let Some(t) = types.text_at(name) {
            return t;
        }
    }
    "UNKNOWN".to_owned()
}

/// The type that is named exactly; a thing where there is none.
fn read_strict_type(t: &str) -> (r: EntityType)
    ensures
        r == schema_json::strict_entity_type(t@),
{
    match EntityType::parse(text::underscore(text::to_upper(t).as_str()).as_str()) {
        Some(e) => e,
        None => EntityType::PhysicalObject,
    }
}

/// The predicate that is named exactly; being related where there is none.
fn read_strict_predicate(p: &str) -> (r: Predicate)
    ensures
        r@ == schema_json::strict_predicate(p@),
{
    let t = match PredicateType::parse(text::underscore(text::to_upper(p).as_str()).as_str()) {
        Some(t) => t,
        None => PredicateType::RelatedTo,
    };
    Predicate::with_label(t, p)
}

/// The entity `name`.
fn read_entity(data: &Json, name: &str, info: &Json) -> (r: Entity)
    ensures
        r@ == entity_in(data@, name@, info@),
{
    let attributes: Metadata = match info.object_at("attributes") {
        Some(o) => chunking::metadata_of(o),
        None => {
            let m: Metadata = Table::new();
            assert(m@ =~= seq![]);
            m
        },
    };
    let t = read_strict_type(read_type(data, name, info).as_str());
    let mut e = Entity::new(graph_build::entity_id(name).as_str(), name, t);
    e.description = match attributes.get("description") {
        Some(Json::Text(d)) => Some(d.clone()),
        _ => None,
    };
    e.metadata = attributes;
    e
}

/// A graph being built.
struct Building {
    graph: KnowledgeGraph,
    entities: Table<Entity>,
    ids: Table<String>,
}

impl View for Building {
    type V = BuildingV;

    closed spec fn view(&self) -> BuildingV {
        BuildingV { graph: self.graph@, entities: self.entities@, ids: self.ids@ }
    }
}

impl Building {
    /// The entity with a name, whatever its case.
    fn named(&self, name: &str) -> (r: Option<&Entity>)
        ensures
            match r {
                Some(e) => entity_named(self@, name@) == Some(e@),
                None => entity_named(self@, name@) is None,
            },
    {
        match self.ids.get(text::to_lower(name).as_str()) {
            Some(id) => self.entities.get(id.as_str()),
            None => None,
        }
    }

    /// The relationship that a list of names states.
    fn relationship(&self, rel: &Json) -> (r: Option<Triple>)
        ensures
            seqs::opt_view(r) == relationship_in(self@, rel@),
    {
        let a = match rel {
            Json::Array(a) => a,
            _ => {
                return None;
            },
        };
        let ghost av = seqs::views(a@);
        assert(av.len() == a@.len());
        if a.len() < 3 {
            return None;
        }
        assert(av[0] == a@[0]@ && av[1] == a@[1]@ && av[2] == a@[2]@);
        let subject = text_of_value(&a[0]);
        let predicate = text_of_value(&a[1]);
        let object = text_of_value(&a[2]);
        match (self.named(subject.as_str()), self.named(object.as_str())) {
            (Some(s), Some(o)) => Some(
                Triple::new(s.dup(), read_strict_predicate(predicate.as_str()), o.dup()),
            ),
            _ => None,
        }
    }
}

/// The text that a value is, blank where it is none.
fn text_of_value(v: &Json) -> (r: String)
    ensures
        r@ == parser::text_or(json::text_in(Some(v@)), ""@),
{
    match v {
        Json::Text(s) => s.clone(),
        _ => "".to_owned(),
    }
}

impl YoutuExtractor {
    /// The configuration that is used where none is given.
    pub fn default_config() -> (r: ExtractionConfig)
        ensures
            r@ == crate::types::spec::plain_config("qwen-max"@, 3000),
    {
        ExtractionConfig::plain("qwen-max", 3000)
    }

    /// An extractor with the configuration that is used where none is given.
    pub fn new() -> (r: YoutuExtractor)
        ensures
            r@ == (YoutuV {
                config: crate::types::spec::plain_config("qwen-max"@, 3000),
                mode: YoutuMode::NoAgent,
                enable_community_detection: false,
            }),
            !r.quiet,
    {
        YoutuExtractor::with_config(YoutuExtractor::default_config())
    }

    /// An extractor with a configuration.
    pub fn with_config(config: ExtractionConfig) -> (r: YoutuExtractor)
        ensures
            r@ == (YoutuV {
                config: config@,
                mode: YoutuMode::NoAgent,
                enable_community_detection: false,
            }),
            !r.quiet,
    {
        YoutuExtractor {
            config,
            mode: YoutuMode::NoAgent,
            enable_community_detection: false,
            quiet: false,
        }
    }

    /// The extractor with another mode.
    pub fn mode(self, mode: YoutuMode) -> (r: YoutuExtractor)
        ensures
            r@ == (YoutuV { mode, ..self@ }),
            r.quiet == self.quiet,
    {
        let mut r = self;
        r.mode = mode;
        r
    }

    /// The extractor that looks for communities, or does not.
    pub fn community_detection(self, enable: bool) -> (r: YoutuExtractor)
        ensures
            r@ == (YoutuV { enable_community_detection: enable, ..self@ }),
            r.quiet == self.quiet,
    {
        let mut r = self;
        r.enable_community_detection = enable;
        r
    }

    /// The configuration.
    pub fn config(&self) -> (r: &ExtractionConfig)
        ensures
            r@ == self@.config,
    {
        &self.config
    }

    /// What is asked of a model beside the question.
    pub fn options(&self) -> (r: CompletionOptions)
        ensures
            r.model@ == self@.config.model_name,
            r.temperature_percent == 30,
            r.max_tokens == 4000,
    {
        CompletionOptions::of(self.config.model_name.as_str(), 30, 4000)
    }

    /// The question about a text.
    pub fn build_prompt(&self, text: &str) -> (r: String)
        ensures
            r@ == question(
                self@.mode,
                json::json_text(crate::types::spec::schema_value(self@.config.spec.schema)),
                text@,
            ),
    {
        let schema = json::render_json(&self.config.spec.schema.to_value());
        write_question(self.mode, schema.as_str(), text)
    }

    /// The graph that an answer states: its entities, and the relationships both of
    /// whose ends are among them, whatever the case of their names.
    pub fn build_graph(&self, data: &Json) -> (r: KnowledgeGraph)
        ensures
            r@ == built(data@),
    {
        let mut st = Building {
            graph: KnowledgeGraph::new(),
            entities: Table::new(),
            ids: Table::new(),
        };
        let ghost all = match json::object_in(json::field(data@, "entities"@)) {
            Some(o) => o,
            None => seq![],
        };
        assert(with_entities(data@, all.take(0)) == st@);
        if let Some(o) = data.object_at("entities") {
            let mut i: usize = 0;
            while i < o.len()
                invariant
                    i <= o@.len(),
                    all == json::members(o@),
                    st@ == with_entities(data@, all.take(i as int)),
                decreases o.len() - i,
            {
                assert(all.take(i + 1).drop_last() =~= all.take(i as int));
                assert(all.take(i + 1).last() == (o@[i as int].0@, o@[i as int].1@));
                let e = read_entity(data, o[i].0.as_str(), &o[i].1);
                st.ids.insert(text::to_lower(o[i].0.as_str()), e.id.clone());
                let id = e.id.clone();
                st.entities.insert(id, e.dup());
                st.graph.add_entity(e);
                i += 1;
            }
            assert(all.take(i as int) =~= all);
        } else {
            assert(all =~= all.take(0));
        }
        let ghost bv = with_entities(data@, all);
        assert(st@ == bv);
        let ghost rels = match json::array_in(json::field(data@, "relationships"@)) {
            Some(a) => a,
            None => seq![],
        };
        let mut kg = st.graph.dup();
        assert(relationships_in(bv, rels.take(0)) =~= seq![]);
        if let Some(a) = data.array_at("relationships") {
            let mut j: usize = 0;
            while j < a.len()
                invariant
                    j <= a@.len(),
                    rels == seqs::views(a@),
                    st@ == bv,
                    kg@ == crate::types::graph::triples_added(
                        bv.graph,
                        relationships_in(bv, rels.take(j as int)),
                    ),
                decreases a.len() - j,
            {
                assert(rels.take(j + 1).drop_last() =~= rels.take(j as int));
                assert(rels.take(j + 1).last() == a@[j as int]@);
                if let Some(t) = st.relationship(&a[j]) {
                    let ghost before = relationships_in(bv, rels.take(j as int));
                    assert(before.push(t@).drop_last() =~= before);
                    kg.add_triple(t);
                }
                j += 1;
            }
            assert(rels.take(j as int) =~= rels);
        } else {
            assert(rels =~= rels.take(0));
        }
        kg
    }

    /// What was extracted, where `j` is the JSON in the answer and `kg` the graph that it
    /// states.
    pub fn respond(&self, j: Option<Json>, kg: KnowledgeGraph) -> (r: ExtractionResponse)
        ensures
            r@ == response_of(self@.config, self@.mode, seqs::opt_view(j), kg@),
    {
        let mut r = ExtractionResponse::new(kg);
        r.metadata.insert("model".to_owned(), json::string(self.config.model_name.as_str()));
        r.metadata.insert("mode".to_owned(), json::string(self.mode.as_str()));
        let s = &self.config.spec.schema;
        let used = ObjectBuilder::new().with("entity_types", json::texts_of(&s.nodes)).with(
            "predicates",
            json::texts_of(&s.relations),
        ).with("attributes", json::texts_of(&s.attributes)).done();
        assert(used@->Object_0 =~= schema_json::schema_used(s@)->Object_0);
        r.metadata.insert("schema_used".to_owned(), used);
        if let Some(v) = &j {
            if let Some(n) = v.get("new_schema_types") {
                r.metadata.insert("new_schema_types".to_owned(), n.dup());
            }
        } else {
            proof {
                reveal_strlit("entities");
                reveal_strlit("relationships");
                reveal_strlit("new_schema_types");
                assert("entities"@.len() == 8);
                assert("relationships"@.len() == 13);
                assert("new_schema_types"@.len() == 16);
                let o = schema_json::empty_answer()->Object_0;
                table::lemma_position(o, "new_schema_types"@);
            }
        }
        r.config = Some(self.config.dup());
        r
    }

    /// What comes of the question about a text: an empty graph where the model failed.
    /// The graph has no communities yet: see [`apply_community_detection`].
    pub fn read_reply(&self, reply: Option<&str>) -> (r: ExtractionResponse)
        ensures
            r@ == match reply {
                Some(t) => response_of(
                    self@.config,
                    self@.mode,
                    json::json_in_response(t@),
                    built(taken(json::json_in_response(t@))),
                ),
                None => crate::types::response::plain_response(
                    crate::types::graph::empty_graph(),
                ),
            },
    {
        match reply {
            Some(t) => match extract_json_from_response(t) {
                Some(data) => {
                    let kg = self.build_graph(&data);
                    self.respond(Some(data), kg)
                },
                None => {
                    let none: Vec<(String, Json)> = Vec::new();
                    let nothing: Vec<Json> = Vec::new();
                    let data = ObjectBuilder::new().with("entities", Json::Object(none)).with(
                        "relationships",
                        Json::Array(nothing),
                    ).done();
                    assert(json::members(none@) =~= seq![]);
                    assert(seqs::views(nothing@) =~= seq![]);
                    assert(data@->Object_0 =~= schema_json::empty_answer()->Object_0);
                    let kg = self.build_graph(&data);
                    self.respond(None, kg)
                },
            },
            None => ExtractionResponse::new(KnowledgeGraph::new()),
        }
    }
}

/// A list of three names between known entities is a relationship from the entity with the
/// first name to the one with the last, with what stands between them as its predicate.
/// Where a name is not known, it is none.
pub proof fn law_lists_read_from_first_to_last(
    st: BuildingV,
    s: Seq<char>,
    p: Seq<char>,
    o: Seq<char>,
    more: Seq<JsonV>,
)
    ensures
        ({
            let list = seq![JsonV::Text(s), JsonV::Text(p), JsonV::Text(o)] + more;
            let from = table::lookup(st.ids, text::lower(s));
            let to = table::lookup(st.ids, text::lower(o));
            match relationship_in(st, JsonV::Array(list)) {
                Some(t) => {
                    &&& from is Some && table::lookup(st.entities, from->0) == Some(t.subject)
                    &&& to is Some && table::lookup(st.entities, to->0) == Some(t.object)
                    &&& t.predicate.label == Some(p)
                },
                None => from is None || to is None || !table::has_key(st.entities, from->0)
                    || !table::has_key(st.entities, to->0),
            }
        }),
{
}

/// An entity of an answer is in the graph under the id that its name makes, with its name
/// as its label; its name stands for that id, whatever its case.
pub proof fn law_answered_entities_are_there(data: JsonV, o: Seq<(Seq<char>, JsonV)>, i: int)
    requires
        0 <= i < o.len(),
    ensures
        table::has_key(with_entities(data, o).graph.entities, graph_build::id_of_name(o[i].0)),
        table::has_key(with_entities(data, o).entities, graph_build::id_of_name(o[i].0)),
        table::has_key(with_entities(data, o).ids, text::lower(o[i].0)),
        i == o.len() - 1 ==> {
            let st = with_entities(data, o);
            let e = table::lookup(st.entities, graph_build::id_of_name(o[i].0))->0;
            &&& e.label == o[i].0
            &&& e.id == graph_build::id_of_name(o[i].0)
            &&& table::lookup(st.ids, text::lower(o[i].0)) == Some(e.id)
        },
    decreases o.len(),
{
    let st = with_entities(data, o.drop_last());
    let e = entity_in(data, o.last().0, o.last().1);
    let id = graph_build::id_of_name(o[i].0);
    if i < o.len() - 1 {
        assert(o.drop_last()[i] == o[i]);
        law_answered_entities_are_there(data, o.drop_last(), i);
    }
    table::lemma_lookup_put(
        st.graph.entities,
        e.id,
        crate::types::graph::with_known_citations(st.graph.entities, e),
        id,
    );
    table::lemma_lookup_put(st.entities, e.id, e, id);
    table::lemma_lookup_put(st.ids, text::lower(o.last().0), e.id, text::lower(o[i].0));
}

/// The case of the names in a relationship does not matter: names that are the same in
/// lower case name the same entity.
pub proof fn law_case_of_names_does_not_matter(
    st: BuildingV,
    a: Seq<JsonV>,
    b: Seq<JsonV>,
)
    requires
        a.len() >= 3,
        b.len() >= 3,
        text::lower(text_at(a, 0)) == text::lower(text_at(b, 0)),
        text_at(a, 1) == text_at(b, 1),
        text::lower(text_at(a, 2)) == text::lower(text_at(b, 2)),
    ensures
        relationship_in(st, JsonV::Array(a)) == relationship_in(st, JsonV::Array(b)),
{
}

} // verus!
