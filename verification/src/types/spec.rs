//! What an extraction is asked for.

use vstd::prelude::*;

use crate::chunking::ChunkStrategy;
use crate::json::{Json, JsonV, ObjectBuilder};
use crate::table::Dup;
use crate::{json, names, seqs, text};

verus! {

broadcast use crate::seqs::group_views;

/// How two records of one thing are made one.
#[derive(Clone, Copy, Debug, PartialEq, Eq, Structural)]
pub enum MergeStrategy {
    /// The record that was there stays as it is.
    KeepExisting,
    /// The record that comes in takes its place.
    KeepIncoming,
    /// Each field is taken from the record that says more.
    FieldUnion,
    /// As [`MergeStrategy::FieldUnion`], with a description that a language model
    /// writes of the two.
    Llm,
}

/// Whether different names are taken to be of one thing.
#[derive(Clone, Copy, Debug, PartialEq, Eq, Structural)]
pub enum CorefMode {
    /// Only names that differ in upper and lower case alone.
    Off,
    /// Also names that are spelled alike.
    Fuzzy,
}

/// How far a schema binds.
#[derive(Clone, Copy, Debug, PartialEq, Eq, Structural)]
pub enum SchemaMode {
    /// The types of the schema are examples.
    Open,
    /// Only the types of the schema may be used.
    Fixed,
    /// Types may be used that the schema does not have, and are reported.
    Evolving,
}

impl SchemaMode {
    /// Whether the mode takes a schema to work with.
    pub fn needs_schema(&self) -> (r: bool)
        ensures
            r == (*self != SchemaMode::Open),
    {
        match self {
            SchemaMode::Open => false,
            _ => true,
        }
    }

    /// The name of the mode.
    pub fn as_str(&self) -> (r: &'static str)
        ensures
            r@ == mode_name(*self),
    {
        match self {
            SchemaMode::Open => "open",
            SchemaMode::Fixed => "fixed",
            SchemaMode::Evolving => "evolving",
        }
    }
}

/// The name of a mode.
pub open spec fn mode_name(m: SchemaMode) -> Seq<char> {
    match m {
        SchemaMode::Open => "open"@,
        SchemaMode::Fixed => "fixed"@,
        SchemaMode::Evolving => "evolving"@,
    }
}

/// The name of a type as names of types are compared: without white space round it,
/// in upper case, with underscores in the place of blanks and dashes.
pub open spec fn canonical_type(s: Seq<char>) -> Seq<char> {
    text::underscored(text::upper(text::trimmed(s)))
}

/// The name of a type as names of types are compared.
pub fn norm_type(s: &str) -> (r: String)
    ensures
        r@ == canonical_type(s@),
{
    text::underscore(text::to_upper(text::trim(s).as_str()).as_str())
}

/// What a [`Schema`] stands for.
pub struct SchemaV {
    pub nodes: Seq<Seq<char>>,
    pub relations: Seq<Seq<char>>,
    pub attributes: Seq<Seq<char>>,
}

/// The types of entities, the types of relationships and the names of attributes
/// that are looked for.
pub struct Schema {
    pub nodes: Vec<String>,
    pub relations: Vec<String>,
    pub attributes: Vec<String>,
}

impl View for Schema {
    type V = SchemaV;

    open spec fn view(&self) -> SchemaV {
        SchemaV {
            nodes: seqs::views(self.nodes@),
            relations: seqs::views(self.relations@),
            attributes: seqs::views(self.attributes@),
        }
    }
}

/// A schema that names nothing.
pub open spec fn empty_schema() -> SchemaV {
    SchemaV { nodes: seq![], relations: seq![], attributes: seq![] }
}

/// A schema as it is written.
pub open spec fn schema_value(s: SchemaV) -> JsonV {
    JsonV::Object(
        seq![
            ("nodes"@, json::texts(s.nodes)),
            ("relations"@, json::texts(s.relations)),
            ("attributes"@, json::texts(s.attributes)),
        ],
    )
}

/// A schema is written with each kind of names under its own name.
pub proof fn law_schemas_are_written_by_kind(s: SchemaV)
    ensures
        json::field(schema_value(s), "nodes"@) == Some(json::texts(s.nodes)),
        json::field(schema_value(s), "relations"@) == Some(json::texts(s.relations)),
        json::field(schema_value(s), "attributes"@) == Some(json::texts(s.attributes)),
{
    reveal_strlit("nodes");
    assert("nodes"@.len() == 5);
    reveal_strlit("relations");
    assert("relations"@.len() == 9);
    reveal_strlit("attributes");
    assert("attributes"@.len() == 10);
    let o = schema_value(s)->Object_0;
    json::lemma_field_at(o, 0);
    json::lemma_field_at(o, 1);
    json::lemma_field_at(o, 2);
}

impl Dup for Schema {
    fn dup(&self) -> (r: Schema) {
        Schema {
            nodes: names::clone_names(&self.nodes),
            relations: names::clone_names(&self.relations),
            attributes: names::clone_names(&self.attributes),
        }
    }
}

impl Schema {
    /// A schema of the given types and attributes.
    pub fn new(nodes: Vec<String>, relations: Vec<String>, attributes: Vec<String>) -> (r: Schema)
        ensures
            r@.nodes == seqs::views(nodes@),
            r@.relations == seqs::views(relations@),
            r@.attributes == seqs::views(attributes@),
    {
        Schema { nodes, relations, attributes }
    }

    /// A schema that names nothing.
    pub fn empty() -> (r: Schema)
        ensures
            r@ == empty_schema(),
    {
        Schema { nodes: Vec::new(), relations: Vec::new(), attributes: Vec::new() }
    }

    /// Whether the schema names nothing.
    pub fn is_empty(&self) -> (r: bool)
        ensures
            r == (self@ == empty_schema()),
    {
        let r = self.nodes.len() == 0 && self.relations.len() == 0 && self.attributes.len() == 0;
        assert(self@.nodes.len() == self.nodes@.len());
        assert(self@.relations.len() == self.relations@.len());
        assert(self@.attributes.len() == self.attributes@.len());
        if r {
            assert(self@.nodes =~= seq![]);
            assert(self@.relations =~= seq![]);
            assert(self@.attributes =~= seq![]);
        }
        r
    }

    /// The schema as it is written.
    pub fn to_value(&self) -> (r: Json)
        ensures
            r@ == schema_value(self@),
    {
        let r = ObjectBuilder::new().with("nodes", json::texts_of(&self.nodes)).with(
            "relations",
            json::texts_of(&self.relations),
        ).with("attributes", json::texts_of(&self.attributes)).done();
        assert(r@->Object_0 =~= schema_value(self@)->Object_0);
        r
    }
}

/// What an [`ExtractionSpec`] stands for.
pub struct SpecV {
    pub schema: SchemaV,
    pub mode: SchemaMode,
    pub merge_duplicates: bool,
    pub merge_strategy: MergeStrategy,
    pub coref: CorefMode,
    pub canonical_direction: bool,
    pub language: Option<Seq<char>>,
}

/// What is to be extracted, whatever does it.
pub struct ExtractionSpec {
    pub schema: Schema,
    pub mode: SchemaMode,
    pub merge_duplicates: bool,
    pub merge_strategy: MergeStrategy,
    pub coref: CorefMode,
    /// Whether relationships are turned into the direction that is used.
    pub canonical_direction: bool,
    pub language: Option<String>,
}

impl View for ExtractionSpec {
    type V = SpecV;

    open spec fn view(&self) -> SpecV {
        SpecV {
            schema: self.schema@,
            mode: self.mode,
            merge_duplicates: self.merge_duplicates,
            merge_strategy: self.merge_strategy,
            coref: self.coref,
            canonical_direction: self.canonical_direction,
            language: seqs::opt_view(self.language),
        }
    }
}

impl Dup for ExtractionSpec {
    fn dup(&self) -> (r: ExtractionSpec) {
        ExtractionSpec {
            schema: self.schema.dup(),
            mode: self.mode,
            merge_duplicates: self.merge_duplicates,
            merge_strategy: self.merge_strategy,
            coref: self.coref,
            canonical_direction: self.canonical_direction,
            language: crate::types::graph::dup_option(&self.language),
        }
    }
}

/// A specification that asks for nothing in particular.
pub open spec fn plain_spec() -> SpecV {
    SpecV {
        schema: empty_schema(),
        mode: SchemaMode::Open,
        merge_duplicates: true,
        merge_strategy: MergeStrategy::KeepExisting,
        coref: CorefMode::Off,
        canonical_direction: false,
        language: None,
    }
}

impl ExtractionSpec {
    /// A specification that asks for nothing in particular.
    pub fn plain() -> (r: ExtractionSpec)
        ensures
            r@ == plain_spec(),
    {
        ExtractionSpec {
            schema: Schema::empty(),
            mode: SchemaMode::Open,
            merge_duplicates: true,
            merge_strategy: MergeStrategy::KeepExisting,
            coref: CorefMode::Off,
            canonical_direction: false,
            language: None,
        }
    }
}

/// What an [`ExtractionConfig`] stands for.
pub struct ConfigV {
    pub spec: SpecV,
    pub model_name: Seq<char>,
    pub segment_size: usize,
    pub min_segment_size: usize,
    pub overlap: usize,
    pub chunker: ChunkStrategy,
    pub max_concurrency: usize,
    pub source_doc: Option<Seq<char>>,
}

/// What is to be extracted, and how it is done.
pub struct ExtractionConfig {
    pub spec: ExtractionSpec,
    pub model_name: String,
    /// How many characters a segment has.
    pub segment_size: usize,
    /// Below how many characters a text is called too small.
    pub min_segment_size: usize,
    /// How many characters two segments share.
    pub overlap: usize,
    pub chunker: ChunkStrategy,
    /// How many questions may be open at a time.
    pub max_concurrency: usize,
    /// What citations call the document.
    pub source_doc: Option<String>,
}

impl View for ExtractionConfig {
    type V = ConfigV;

    open spec fn view(&self) -> ConfigV {
        ConfigV {
            spec: self.spec@,
            model_name: self.model_name@,
            segment_size: self.segment_size,
            min_segment_size: self.min_segment_size,
            overlap: self.overlap,
            chunker: self.chunker,
            max_concurrency: self.max_concurrency,
            source_doc: seqs::opt_view(self.source_doc),
        }
    }
}

impl Dup for ExtractionConfig {
    fn dup(&self) -> (r: ExtractionConfig) {
        ExtractionConfig {
            spec: self.spec.dup(),
            model_name: self.model_name.clone(),
            segment_size: self.segment_size,
            min_segment_size: self.min_segment_size,
            overlap: self.overlap,
            chunker: self.chunker,
            max_concurrency: self.max_concurrency,
            source_doc: crate::types::graph::dup_option(&self.source_doc),
        }
    }
}

/// A configuration of a model and a size, with a specification that asks for nothing
/// in particular.
pub open spec fn plain_config(model: Seq<char>, segment_size: usize) -> ConfigV {
    ConfigV {
        spec: plain_spec(),
        model_name: model,
        segment_size,
        min_segment_size: 100,
        overlap: 0,
        chunker: ChunkStrategy::Recursive,
        max_concurrency: 4,
        source_doc: None,
    }
}

impl ExtractionConfig {
    /// A configuration of a model and a size of segments.
    pub fn plain(model: &str, segment_size: usize) -> (r: ExtractionConfig)
        ensures
            r@ == plain_config(model@, segment_size),
    {
        ExtractionConfig {
            spec: ExtractionSpec::plain(),
            model_name: model.to_owned(),
            segment_size,
            min_segment_size: 100,
            overlap: 0,
            chunker: ChunkStrategy::Recursive,
            max_concurrency: 4,
            source_doc: None,
        }
    }

    /// A configuration with a schema, of no model in particular.
    pub fn from_schema(schema: Schema) -> (r: ExtractionConfig)
        ensures
            r@ == (ConfigV {
                spec: SpecV { schema: schema@, ..plain_spec() },
                ..plain_config(""@, 5000)
            }),
    {
        let mut c = ExtractionConfig::plain("", 5000);
        c.spec.schema = schema;
        c
    }

    /// The types of entities that are looked for.
    pub fn entity_types_list(&self) -> (r: &Vec<String>)
        ensures
            seqs::views(r@) == self@.spec.schema.nodes,
    {
        &self.spec.schema.nodes
    }

    /// The types of relationships that are looked for.
    pub fn predicates_list(&self) -> (r: &Vec<String>)
        ensures
            seqs::views(r@) == self@.spec.schema.relations,
    {
        &self.spec.schema.relations
    }

    /// The attributes that are looked for.
    pub fn attributes_list(&self) -> (r: &Vec<String>)
        ensures
            seqs::views(r@) == self@.spec.schema.attributes,
    {
        &self.spec.schema.attributes
    }
}

} // verus!
