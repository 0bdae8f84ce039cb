//! How far a schema binds what is stored.

use vstd::prelude::*;

use crate::json::JsonV;
use crate::types::graph::{Metadata, MetadataV};
use crate::types::spec::{Schema, SchemaMode, SchemaV};
use crate::{json, parser, seqs, table, text, types};

verus! {

broadcast use {crate::seqs::group_views, crate::json::group_json};

/// What a schema can name.
#[derive(Clone, Copy, Debug, PartialEq, Eq, Structural)]
pub enum SchemaKind {
    Node,
    Relation,
    Attribute,
}

/// What `s` calls a kind.
pub open spec fn kind_named(s: Seq<char>) -> Option<SchemaKind> {
    if s == "node"@ {
        Some(SchemaKind::Node)
    } else if s == "relation"@ {
        Some(SchemaKind::Relation)
    } else if s == "attribute"@ {
        Some(SchemaKind::Attribute)
    } else {
        None
    }
}

/// The name of a kind.
pub open spec fn kind_name(k: SchemaKind) -> Seq<char> {
    match k {
        SchemaKind::Node => "node"@,
        SchemaKind::Relation => "relation"@,
        SchemaKind::Attribute => "attribute"@,
    }
}

/// The name under which things of a kind are listed.
pub open spec fn kind_key(k: SchemaKind) -> Seq<char> {
    match k {
        SchemaKind::Node => "nodes"@,
        SchemaKind::Relation => "relations"@,
        SchemaKind::Attribute => "attributes"@,
    }
}

/// What things of a kind are called in an answer.
pub open spec fn kind_words(k: SchemaKind) -> Seq<char> {
    match k {
        SchemaKind::Node => "entity type"@,
        SchemaKind::Relation => "relation type"@,
        SchemaKind::Attribute => "attribute key"@,
    }
}

impl SchemaKind {
    /// What `s` calls a kind.
    pub fn parse(s: &str) -> (r: Option<SchemaKind>)
        ensures
            r == kind_named(s@),
    {
        if text::same(s, "node") {
            Some(SchemaKind::Node)
        } else if text::same(s, "relation") {
            Some(SchemaKind::Relation)
        } else if text::same(s, "attribute") {
            Some(SchemaKind::Attribute)
        } else {
            None
        }
    }

    /// The name of the kind.
    pub fn name(&self) -> (r: &'static str)
        ensures
            r@ == kind_name(*self),
    {
        match self {
            SchemaKind::Node => "node",
            SchemaKind::Relation => "relation",
            SchemaKind::Attribute => "attribute",
        }
    }

    /// The name under which things of the kind are listed.
    pub fn key(&self) -> (r: &'static str)
        ensures
            r@ == kind_key(*self),
    {
        match self {
            SchemaKind::Node => "nodes",
            SchemaKind::Relation => "relations",
            SchemaKind::Attribute => "attributes",
        }
    }

    /// What things of the kind are called in an answer.
    pub fn words(&self) -> (r: &'static str)
        ensures
            r@ == kind_words(*self),
    {
        match self {
            SchemaKind::Node => "entity type",
            SchemaKind::Relation => "relation type",
            SchemaKind::Attribute => "attribute key",
        }
    }
}

/// What a [`SchemaPolicy`] stands for.
pub struct PolicyV {
    pub mode: SchemaMode,
    pub schema: SchemaV,
}

/// How far a schema binds what is stored.
pub struct SchemaPolicy {
    mode: SchemaMode,
    schema: Schema,
}

impl View for SchemaPolicy {
    type V = PolicyV;

    closed spec fn view(&self) -> PolicyV {
        PolicyV { mode: self.mode, schema: self.schema@ }
    }
}

impl SchemaPolicy {
    /// The mode.
    pub fn mode(&self) -> (r: SchemaMode)
        ensures
            r == self@.mode,
    {
        self.mode
    }

    /// The schema.
    pub fn schema(&self) -> (r: &Schema)
        ensures
            r@ == self@.schema,
    {
        &self.schema
    }

    /// A policy under which anything may be stored.
    pub fn open() -> (r: SchemaPolicy)
        ensures
            r@.mode == SchemaMode::Open,
            r@.schema == types::spec::empty_schema(),
    {
        SchemaPolicy { mode: SchemaMode::Open, schema: Schema::empty() }
    }

    /// A policy of a mode and a schema. A mode that takes a schema takes one that
    /// names something.
    pub fn new(mode: SchemaMode, schema: Schema) -> (r: Result<SchemaPolicy, String>)
        ensures
            match r {
                Ok(p) => p@ == (PolicyV { mode, schema: schema@ }) && !(mode != SchemaMode::Open
                    && schema@ == types::spec::empty_schema()),
                Err(e) => mode != SchemaMode::Open && schema@ == types::spec::empty_schema() && e@
                    == "schema mode "@ + types::spec::mode_name(mode)
                    + " requires a non-empty schema"@,
            },
    {
        if mode.needs_schema() && schema.is_empty() {
            let mut e = text::concat2("schema mode ", mode.as_str());
            e.append(" requires a non-empty schema");
            return Err(e);
        }
        Ok(SchemaPolicy { mode, schema })
    }
}

/// The names of a kind that a schema has.
pub open spec fn seeded(s: SchemaV, k: SchemaKind) -> Seq<Seq<char>> {
    match k {
        SchemaKind::Node => s.nodes,
        SchemaKind::Relation => s.relations,
        SchemaKind::Attribute => s.attributes,
    }
}

/// The name under which proposals stand among the values of a graph.
pub const PROPOSALS_KEY: &'static str = "new_schema_types";

/// The names of a kind that were proposed for a graph.
pub open spec fn proposed(m: MetadataV, k: SchemaKind) -> Seq<Seq<char>> {
    match table::lookup(m, PROPOSALS_KEY@) {
        Some(v) => match json::array_in(json::field(v, kind_key(k))) {
            Some(a) => parser::texts_among(a),
            None => seq![],
        },
        None => seq![],
    }
}

/// A name as names of its kind are compared.
pub open spec fn compared(k: SchemaKind, s: Seq<char>) -> Seq<char> {
    match k {
        SchemaKind::Attribute => s,
        _ => types::spec::canonical_type(s),
    }
}

/// Some name of `list` is the same as `value`.
pub open spec fn named_in(k: SchemaKind, list: Seq<Seq<char>>, value: Seq<char>) -> bool {
    exists|i: int| 0 <= i < list.len() && compared(k, #[trigger] list[i]) == compared(k, value)
}

/// Why `value` may not be used under a policy; nothing where it may.
pub open spec fn objection(
    p: PolicyV,
    m: MetadataV,
    rel: Seq<char>,
    k: SchemaKind,
    value: Seq<char>,
) -> Option<Seq<char>> {
    let seed = seeded(p.schema, k);
    if p.mode == SchemaMode::Open || seed.len() == 0 || named_in(k, seed, value) {
        None
    } else if p.mode == SchemaMode::Fixed {
        Some(
            kind_words(k) + " '"@ + value + "' is not in the fixed schema. Allowed: "@
                + text::joined(seed, ", "@),
        )
    } else if named_in(k, proposed(m, k), value) {
        None
    } else {
        Some(
            kind_words(k) + " '"@ + value
                + "' is not in the schema. Call propose_schema_type(path='"@ + rel + "', kind='"@
                + kind_name(k) + "', value='"@ + value + "') first, then retry. Known: "@
                + text::joined(seed, ", "@),
        )
    }
}

/// Some name of `list` is the same as `value`.
pub fn is_named_in(k: SchemaKind, list: &Vec<String>, value: &str) -> (r: bool)
    ensures
        r == named_in(k, seqs::views(list@), value@),
{
    let ghost all = seqs::views(list@);
    let want = match k {
        SchemaKind::Attribute => value.to_owned(),
        _ => types::spec::norm_type(value),
    };
    let mut i: usize = 0;
    while i < list.len()
        invariant
            i <= list@.len(),
            all == seqs::views(list@),
            want@ == compared(k, value@),
            forall|j: int| 0 <= j < i ==> compared(k, #[trigger] all[j]) != compared(k, value@),
        decreases list.len() - i,
    {
        let have = match k {
            SchemaKind::Attribute => list[i].clone(),
            _ => types::spec::norm_type(list[i].as_str()),
        };
        assert(have@ == compared(k, all[i as int]));
        if text::same(have.as_str(), want.as_str()) {
            return true;
        }
        i += 1;
    }
    false
}

/// The names of a kind that were proposed for a graph.
pub fn proposals(m: &Metadata, k: SchemaKind) -> (r: Vec<String>)
    ensures
        seqs::views(r@) == proposed(m@, k),
{
    match m.get(PROPOSALS_KEY) {
        Some(v) => match v.array_at(k.key()) {
            Some(a) => parser::pick_texts(a),
            None => Vec::new(),
        },
        None => Vec::new(),
    }
}

impl SchemaPolicy {
    /// The names of a kind that the schema has.
    fn seed(&self, k: SchemaKind) -> (r: &Vec<String>)
        ensures
            seqs::views(r@) == seeded(self@.schema, k),
    {
        match k {
            SchemaKind::Node => &self.schema.nodes,
            SchemaKind::Relation => &self.schema.relations,
            SchemaKind::Attribute => &self.schema.attributes,
        }
    }

    /// Why `value` may not be used; nothing where it may.
    pub fn check(&self, m: &Metadata, rel: &str, k: SchemaKind, value: &str) -> (r: Option<String>)
        ensures
            seqs::opt_view(r) == objection(self@, m@, rel@, k, value@),
    {
        let seed = self.seed(k);
        assert(seqs::views(seed@).len() == seed@.len());
        match self.mode {
            SchemaMode::Open => None,
            _ => {
                if seed.len() == 0 || is_named_in(k, seed, value) {
                    return None;
                }
                let mut e = text::concat2(k.words(), " '");
                e.append(value);
                if self.mode == SchemaMode::Fixed {
                    e.append("' is not in the fixed schema. Allowed: ");
                    e.append(text::join(seed, ", ").as_str());
                    return Some(e);
                }
                if is_named_in(k, &proposals(m, k), value) {
                    return None;
                }
                e.append("' is not in the schema. Call propose_schema_type(path='");
                e.append(rel);
                e.append("', kind='");
                e.append(k.name());
                e.append("', value='");
                e.append(value);
                e.append("') first, then retry. Known: ");
                e.append(text::join(seed, ", ").as_str());
                Some(e)
            },
        }
    }
}

/// A name may be used where, and only where, nothing binds, the schema names none of its
/// kind, the schema names it, or it was proposed for the graph and may be.
pub proof fn law_names_may_be_used(
    p: PolicyV,
    m: MetadataV,
    rel: Seq<char>,
    k: SchemaKind,
    value: Seq<char>,
)
    ensures
        ({
            let known = match k {
                SchemaKind::Node => p.schema.nodes,
                SchemaKind::Relation => p.schema.relations,
                SchemaKind::Attribute => p.schema.attributes,
            };
            objection(p, m, rel, k, value) is None <==> p.mode == SchemaMode::Open || known.len()
                == 0 || named_in(k, known, value) || p.mode == SchemaMode::Evolving && named_in(
                k,
                proposed(m, k),
                value,
            )
        }),
{
}

/// The values of a graph with the policy noted among them, where one binds.
pub open spec fn noted(p: PolicyV, m: MetadataV) -> MetadataV {
    if p.mode == SchemaMode::Open {
        m
    } else {
        table::put(
            table::put(m, "schema_mode"@, JsonV::Text(types::spec::mode_name(p.mode))),
            "schema_used"@,
            types::spec::schema_value(p.schema),
        )
    }
}

impl SchemaPolicy {
    /// Note the policy among the values of a graph, where it binds.
    pub fn note(&self, m: &mut Metadata)
        ensures
            final(m)@ == noted(self@, old(m)@),
    {
        match self.mode {
            SchemaMode::Open => {},
            _ => {
                m.insert("schema_mode".to_owned(), json::string(self.mode.as_str()));
                m.insert("schema_used".to_owned(), self.schema.to_value());
            },
        }
    }
}

} // verus!
