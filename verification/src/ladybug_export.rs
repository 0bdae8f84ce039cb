//! Writing a graph as the JSON document that `graphdb-ladybug` imports: one table of
//! entities, and one table of relationships for each predicate.

use vstd::prelude::*;

use crate::json::{Json, JsonV, ObjectBuilder};
use crate::names::NameSet;
use crate::table::Dup;
use crate::types::graph::{Entity, EntityV, GraphV, KnowledgeGraph, Triple, TripleV};
use crate::{json, names, seqs, table, text};

verus! {

broadcast use {crate::seqs::group_views, crate::json::group_json};

/// The version of the format.
pub const FORMAT_VERSION: &'static str = "graphdb-ladybug.export.v1";

/// The table of the entities.
pub const ENTITY_TABLE: &'static str = "KgEntity";

/// `c` may stand in an identifier.
pub open spec fn is_word_char(c: char) -> bool {
    '0' <= c <= '9' || 'A' <= c <= 'Z' || c == '_'
}

/// `s` is an identifier: it starts with a letter or an underscore.
pub open spec fn is_identifier(s: Seq<char>) -> bool {
    &&& s.len() > 0
    &&& !('0' <= s[0] <= '9')
    &&& forall|i: int| 0 <= i < s.len() ==> is_word_char(#[trigger] s[i])
}

/// The character that stands for `c` in an identifier.
pub open spec fn word_char(c: char) -> char {
    if is_word_char(text::ascii_upper(c)) {
        text::ascii_upper(c)
    } else {
        '_'
    }
}

/// The identifier that is made of `raw`.
pub open spec fn identifier(raw: Seq<char>) -> Seq<char> {
    let s = raw.map_values(|c: char| word_char(c));
    if s.len() == 0 {
        "RELATED_TO"@
    } else if '0' <= s[0] <= '9' {
        seq!['_'] + s
    } else {
        s
    }
}

/// The identifier that is made of `raw`: upper-case letters, digits and underscores.
pub fn sanitize_identifier(raw: &str) -> (r: String)
    ensures
        r@ == identifier(raw@),
{
    let v = text::chars_of(raw);
    if v.len() == 0 {
        return "RELATED_TO".to_owned();
    }
    let ghost all = raw@.map_values(|c: char| word_char(c));
    let mut out = String::new();
    let first = word_of(v[0]);
    assert(first == all[0]);
    let ghost head = if '0' <= first && first <= '9' {
        seq!['_']
    } else {
        seq![]
    };
    if '0' <= first && first <= '9' {
        out.push('_');
    }
    assert(out@ =~= head);
    let mut i: usize = 0;
    while i < v.len()
        invariant
            i <= v@.len(),
            v@ == raw@,
            all == raw@.map_values(|c: char| word_char(c)),
            out@ =~= head + all.take(i as int),
        decreases v.len() - i,
    {
        out.push(word_of(v[i]));
        i += 1;
    }
    assert(all.take(i as int) =~= all);
    assert(out@ =~= identifier(raw@));
    out
}

/// The character that stands for `c` in an identifier.
fn word_of(c: char) -> (r: char)
    ensures
        r == word_char(c),
{
    let u = text::ascii_upper_char(c);
    if ('0' <= u && u <= '9') || ('A' <= u && u <= 'Z') || u == '_' {
        u
    } else {
        '_'
    }
}

/// What is made of a text is an identifier.
pub proof fn law_identifiers_are_valid(raw: Seq<char>)
    ensures
        is_identifier(identifier(raw)),
{
    reveal_strlit("RELATED_TO");
}

/// An identifier is made of itself.
pub proof fn law_identifiers_are_kept(s: Seq<char>)
    requires
        is_identifier(s),
    ensures
        identifier(s) == s,
{
    assert forall|i: int| 0 <= i < s.len() implies word_char(#[trigger] s[i]) == s[i] by {
        assert(is_word_char(s[i]));
    }
    assert(s.map_values(|c: char| word_char(c)) =~= s);
}

/// The table of the relationships with the predicate of `t`.
pub open spec fn relation_table(t: TripleV) -> Seq<char> {
    identifier(crate::types::graph::predicate_output_type(t.predicate))
}

/// The tables of the relationships `ts`, in order.
pub open spec fn relation_tables(ts: Seq<TripleV>) -> Seq<Seq<char>> {
    names::with_names(seq![], Seq::new(ts.len(), |i: int| relation_table(ts[i])))
}

/// The statement that creates the table of the entities.
pub open spec fn node_statement() -> Seq<char> {
    "CREATE NODE TABLE "@ + ENTITY_TABLE@
        + "(id STRING, label STRING, type STRING, description STRING, confidence DOUBLE, metadata STRING, PRIMARY KEY(id));"@
}

/// The statement that creates a table of relationships.
pub open spec fn relation_statement(name: Seq<char>) -> Seq<char> {
    "CREATE REL TABLE "@ + name + "(FROM "@ + ENTITY_TABLE@ + " TO "@ + ENTITY_TABLE@
        + ", predicate STRING, label STRING, confidence DOUBLE, metadata STRING);"@
}

/// The statements that create the tables.
pub open spec fn schema_of(tables: Seq<Seq<char>>) -> Seq<Seq<char>> {
    seq![node_statement()] + Seq::new(tables.len(), |i: int| relation_statement(tables[i]))
}

/// What is attached to an entity, with its type in the vocabulary.
pub open spec fn entity_note(e: EntityV) -> JsonV {
    crate::types::graph::ordered_object(
        table::put(
            e.metadata,
            "normalized_type"@,
            JsonV::Text(crate::types::vocab::entity_type_name(e.entity_type)),
        ),
    )
}

/// What is attached to a relationship and to its predicate, with its type in the
/// vocabulary.
pub open spec fn relation_note(t: TripleV) -> JsonV {
    JsonV::Object(
        seq![
            (
                "predicate"@,
                crate::types::graph::ordered_object(
                    table::put(
                        t.predicate.metadata,
                        "normalized_type"@,
                        JsonV::Text(
                            crate::types::vocab::predicate_type_name(t.predicate.predicate_type),
                        ),
                    ),
                ),
            ),
            ("triple"@, crate::types::graph::ordered_object(t.metadata)),
        ],
    )
}

/// The row of an entity.
pub open spec fn node(e: EntityV) -> JsonV {
    JsonV::Object(
        seq![
            ("_table"@, JsonV::Text(ENTITY_TABLE@)),
            ("id"@, JsonV::Text(e.id)),
            ("label"@, JsonV::Text(e.label)),
            ("type"@, JsonV::Text(crate::types::graph::entity_output_type(e))),
            ("description"@, json::text_or_null(e.description)),
            ("confidence"@, crate::types::graph::confidence_value(e.confidence)),
            ("metadata"@, JsonV::Text(json::json_text(entity_note(e)))),
        ],
    )
}

/// The row of a relationship. Its confidence is its own or else that of its
/// predicate.
pub open spec fn relationship(t: TripleV) -> JsonV {
    JsonV::Object(
        seq![
            ("_type"@, JsonV::Text(relation_table(t))),
            ("_from"@, JsonV::Text(t.subject.id)),
            ("_to"@, JsonV::Text(t.object.id)),
            ("_from_table"@, JsonV::Text(ENTITY_TABLE@)),
            ("_to_table"@, JsonV::Text(ENTITY_TABLE@)),
            (
                "predicate"@,
                JsonV::Text(crate::types::graph::predicate_output_type(t.predicate)),
            ),
            (
                "label"@,
                JsonV::Text(crate::types::graph::predicate_display_label(t.predicate)),
            ),
            (
                "confidence"@,
                crate::types::graph::confidence_value(
                    if t.confidence is Some {
                        t.confidence
                    } else {
                        t.predicate.confidence
                    },
                ),
            ),
            ("metadata"@, JsonV::Text(json::json_text(relation_note(t)))),
        ],
    )
}

/// The document that a graph is written as.
pub open spec fn document(g: GraphV) -> JsonV {
    JsonV::Object(
        seq![
            ("format_version"@, JsonV::Text(FORMAT_VERSION@)),
            ("schema"@, json::texts(schema_of(relation_tables(g.triples)))),
            (
                "nodes"@,
                JsonV::Array(Seq::new(g.entities.len(), |i: int| node(g.entities[i].1))),
            ),
            (
                "relationships"@,
                JsonV::Array(Seq::new(g.triples.len(), |i: int| relationship(g.triples[i]))),
            ),
        ],
    )
}

/// The row of an entity.
fn node_of(e: &Entity) -> (r: Json)
    ensures
        r@ == node(e@),
{
    let mut m = e.metadata.dup();
    m.insert("normalized_type".to_owned(), Json::Text(e.entity_type.value().to_owned()));
    let note = json::render_json(&crate::types::graph::to_ordered_object(&m));
    let r = ObjectBuilder::new().with("_table", Json::Text(ENTITY_TABLE.to_owned())).with(
        "id",
        Json::Text(e.id.clone()),
    ).with("label", Json::Text(e.label.clone())).with("type", Json::Text(e.output_type())).with(
        "description",
        json::text_or_null_of(&e.description),
    ).with("confidence", crate::types::graph::confidence_of(&e.confidence)).with(
        "metadata",
        Json::Text(note),
    ).done();
    assert(r@->Object_0 =~= node(e@)->Object_0);
    r
}

/// The row of a relationship.
fn relationship_of(t: &Triple) -> (r: Json)
    ensures
        r@ == relationship(t@),
{
    let mut m = t.predicate.metadata.dup();
    m.insert(
        "normalized_type".to_owned(),
        Json::Text(t.predicate.predicate_type.value().to_owned()),
    );
    let note = ObjectBuilder::new().with(
        "predicate",
        crate::types::graph::to_ordered_object(&m),
    ).with("triple", crate::types::graph::to_ordered_object(&t.metadata)).done();
    assert(note@->Object_0 =~= relation_note(t@)->Object_0);
    let confidence = if t.confidence.is_some() {
        crate::types::graph::confidence_of(&t.confidence)
    } else {
        crate::types::graph::confidence_of(&t.predicate.confidence)
    };
    let table = sanitize_identifier(t.predicate.output_type().as_str());
    let r = ObjectBuilder::new().with("_type", Json::Text(table)).with(
        "_from",
        Json::Text(t.subject.id.clone()),
    ).with("_to", Json::Text(t.object.id.clone())).with(
        "_from_table",
        Json::Text(ENTITY_TABLE.to_owned()),
    ).with("_to_table", Json::Text(ENTITY_TABLE.to_owned())).with(
        "predicate",
        Json::Text(t.predicate.output_type()),
    ).with("label", Json::Text(t.predicate.display_label())).with("confidence", confidence).with(
        "metadata",
        Json::Text(json::render_json(&note)),
    ).done();
    assert(r@->Object_0 =~= relationship(t@)->Object_0);
    r
}

/// The statements that create the tables.
fn statements(tables: &Vec<String>) -> (r: Vec<String>)
    ensures
        seqs::views(r@) == schema_of(seqs::views(tables@)),
{
    let mut first = text::concat2("CREATE NODE TABLE ", ENTITY_TABLE);
    first.append(
        "(id STRING, label STRING, type STRING, description STRING, confidence DOUBLE, metadata STRING, PRIMARY KEY(id));",
    );
    let mut out: Vec<String> = Vec::new();
    out.push(first);
    let ghost all = schema_of(seqs::views(tables@));
    let mut i: usize = 0;
    while i < tables.len()
        invariant
            i <= tables@.len(),
            all == schema_of(seqs::views(tables@)),
            seqs::views(out@) =~= all.take(i + 1),
        decreases tables.len() - i,
    {
        let mut s = text::concat2("CREATE REL TABLE ", tables[i].as_str());
        s.append("(FROM ");
        s.append(ENTITY_TABLE);
        s.append(" TO ");
        s.append(ENTITY_TABLE);
        s.append(", predicate STRING, label STRING, confidence DOUBLE, metadata STRING);");
        assert(s@ == relation_statement(seqs::views(tables@)[i as int]));
        out.push(s);
        i += 1;
    }
    assert(seqs::views(out@) =~= all);
    out
}

/// Write a graph as a document for `graphdb-ladybug import --create-tables`.
pub fn to_ladybug_import_json(kg: &KnowledgeGraph) -> (r: Json)
    ensures
        r@ == document(kg@),
{
    let ghost ts = seqs::views(kg.triples@);
    let ghost used = Seq::new(ts.len(), |i: int| relation_table(ts[i]));
    let mut tables = NameSet::new();
    let mut relationships: Vec<Json> = Vec::new();
    let mut j: usize = 0;
    assert(tables@ =~= names::with_names(seq![], used.take(0)));
    while j < kg.triples.len()
        invariant
            j <= kg.triples@.len(),
            ts == seqs::views(kg.triples@),
            used == Seq::new(ts.len(), |i: int| relation_table(ts[i])),
            tables@ == names::with_names(seq![], used.take(j as int)),
            relationships@.len() == j,
            forall|i: int|
                0 <= i < j ==> #[trigger] seqs::views(relationships@)[i] == relationship(ts[i]),
        decreases kg.triples.len() - j,
    {
        let t = &kg.triples[j];
        assert(ts[j as int] == t@);
        assert(used.take(j + 1).drop_last() =~= used.take(j as int));
        assert(used.take(j + 1).last() == relation_table(t@));
        tables.insert(sanitize_identifier(t.predicate.output_type().as_str()));
        let ghost before = seqs::views(relationships@);
        relationships.push(relationship_of(t));
        assert(seqs::views(relationships@) =~= before.push(relationship(ts[j as int])));
        j += 1;
    }
    assert(used.take(j as int) =~= used);
    assert(seqs::views(relationships@) =~= Seq::new(ts.len(), |i: int| relationship(ts[i])));
    let mut nodes: Vec<Json> = Vec::new();
    let n: usize = kg.entities.len();
    let mut i: usize = 0;
    while i < n
        invariant
            i <= n,
            n == kg.entities@.len(),
            nodes@.len() == i,
            forall|k: int|
                0 <= k < i ==> #[trigger] seqs::views(nodes@)[k] == node(kg.entities@[k].1),
        decreases n - i,
    {
        let ghost before = seqs::views(nodes@);
        nodes.push(node_of(kg.entities.value_at(i)));
        assert(seqs::views(nodes@) =~= before.push(node(kg.entities@[i as int].1)));
        i += 1;
    }
    assert(seqs::views(nodes@) =~= Seq::new(
        kg.entities@.len(),
        |i: int| node(kg.entities@[i].1),
    ));
    let schema = statements(&tables.to_vec());
    let r = ObjectBuilder::new().with("format_version", Json::Text(FORMAT_VERSION.to_owned())).with(
        "schema",
        json::texts_of(&schema),
    ).with("nodes", Json::Array(nodes)).with("relationships", Json::Array(relationships)).done();
    assert(r@->Object_0 =~= document(kg@)->Object_0);
    r
}

/// The rows of an exported document stand under their names.
proof fn lemma_document_members(g: GraphV)
    ensures
        json::array_in(json::field(document(g), "nodes"@)) == Some(
            Seq::new(g.entities.len(), |i: int| node(g.entities[i].1)),
        ),
        json::array_in(json::field(document(g), "relationships"@)) == Some(
            Seq::new(g.triples.len(), |i: int| relationship(g.triples[i])),
        ),
        json::field(document(g), "schema"@) == Some(
            json::texts(schema_of(relation_tables(g.triples))),
        ),
{
    reveal_strlit("format_version");
    assert("format_version"@.len() == 14);
    reveal_strlit("schema");
    assert("schema"@.len() == 6);
    reveal_strlit("nodes");
    assert("nodes"@.len() == 5);
    reveal_strlit("relationships");
    assert("relationships"@.len() == 13);
    let o = document(g)->Object_0;
    json::lemma_field_at(o, 1);
    json::lemma_field_at(o, 2);
    json::lemma_field_at(o, 3);
}

/// An exported relationship runs the way that it ran: there is a row for each, in order,
/// and the row at a place has under `_from` the id of the subject and under `_to` the id of
/// the object, with the predicate of the relationship between them and in a table of that
/// predicate. Both ends are in the table of the entities.
pub proof fn law_exported_relationships_keep_their_direction(g: GraphV, i: int)
    requires
        0 <= i < g.triples.len(),
    ensures
        ({
            let rows = json::array_in(json::field(document(g), "relationships"@))->0;
            let t = g.triples[i];
            &&& json::array_in(json::field(document(g), "relationships"@)) is Some
            &&& rows.len() == g.triples.len()
            &&& json::text_in(json::field(rows[i], "_from"@)) == Some(t.subject.id)
            &&& json::text_in(json::field(rows[i], "_to"@)) == Some(t.object.id)
            &&& json::text_in(json::field(rows[i], "predicate"@)) == Some(
                crate::types::graph::predicate_output_type(t.predicate),
            )
            &&& json::text_in(json::field(rows[i], "label"@)) == Some(
                crate::types::graph::predicate_display_label(t.predicate),
            )
            &&& json::text_in(json::field(rows[i], "_type"@)) == Some(
                identifier(crate::types::graph::predicate_output_type(t.predicate)),
            )
            &&& json::field(rows[i], "_from_table"@) == json::field(rows[i], "_to_table"@)
            &&& json::text_in(json::field(rows[i], "_from_table"@)) == Some("KgEntity"@)
            &&& json::field(rows[i], "confidence"@) == Some(
                crate::types::graph::confidence_value(
                    if t.confidence is Some {
                        t.confidence
                    } else {
                        t.predicate.confidence
                    },
                ),
            )
        }),
{
    lemma_document_members(g);
    reveal_strlit("_type");
    assert("_type"@.len() == 5);
    reveal_strlit("_from");
    assert("_from"@.len() == 5);
    reveal_strlit("_to");
    assert("_to"@.len() == 3);
    reveal_strlit("_from_table");
    assert("_from_table"@.len() == 11);
    reveal_strlit("_to_table");
    assert("_to_table"@.len() == 9);
    reveal_strlit("predicate");
    assert("predicate"@.len() == 9);
    reveal_strlit("label");
    assert("label"@.len() == 5);
    reveal_strlit("confidence");
    assert("confidence"@.len() == 10);
    assert("_type"@[1] != "_from"@[1]);
    assert("label"@[0] != "_from"@[0]);
    assert("label"@[0] != "_type"@[0]);
    assert("predicate"@[0] != "_to_table"@[0]);
    let o = relationship(g.triples[i])->Object_0;
    json::lemma_field_at(o, 0);
    json::lemma_field_at(o, 1);
    json::lemma_field_at(o, 2);
    json::lemma_field_at(o, 3);
    json::lemma_field_at(o, 4);
    json::lemma_field_at(o, 5);
    json::lemma_field_at(o, 6);
    json::lemma_field_at(o, 7);
}

/// There is a row for each entity, in order, with its id, its label, its type as its source
/// wrote it, what it is described by and how sure it is.
pub proof fn law_exported_entities_are_told_apart(g: GraphV, i: int)
    requires
        0 <= i < g.entities.len(),
    ensures
        ({
            let rows = json::array_in(json::field(document(g), "nodes"@))->0;
            let e = g.entities[i].1;
            &&& json::array_in(json::field(document(g), "nodes"@)) is Some
            &&& rows.len() == g.entities.len()
            &&& json::text_in(json::field(rows[i], "_table"@)) == Some("KgEntity"@)
            &&& json::text_in(json::field(rows[i], "id"@)) == Some(e.id)
            &&& json::text_in(json::field(rows[i], "label"@)) == Some(e.label)
            &&& json::text_in(json::field(rows[i], "description"@)) == e.description
            &&& e.raw_type is Some ==> json::text_in(json::field(rows[i], "type"@)) == e.raw_type
            &&& e.raw_type is None ==> json::text_in(json::field(rows[i], "type"@)) == Some(
                crate::types::vocab::entity_type_name(e.entity_type),
            )
            &&& json::field(rows[i], "confidence"@) == Some(
                crate::types::graph::confidence_value(e.confidence),
            )
        }),
{
    lemma_document_members(g);
    reveal_strlit("_table");
    assert("_table"@.len() == 6);
    reveal_strlit("id");
    assert("id"@.len() == 2);
    reveal_strlit("label");
    assert("label"@.len() == 5);
    reveal_strlit("type");
    assert("type"@.len() == 4);
    reveal_strlit("description");
    assert("description"@.len() == 11);
    reveal_strlit("confidence");
    assert("confidence"@.len() == 10);
    let o = node(g.entities[i].1)->Object_0;
    json::lemma_field_at(o, 0);
    json::lemma_field_at(o, 1);
    json::lemma_field_at(o, 2);
    json::lemma_field_at(o, 3);
    json::lemma_field_at(o, 4);
    json::lemma_field_at(o, 5);
}

/// What is noted of a relationship and of its predicate is exported with it, each under its
/// own name, and what is noted of an entity with the entity.
pub proof fn law_notes_are_exported(g: GraphV, i: int, j: int)
    requires
        0 <= i < g.triples.len(),
        0 <= j < g.entities.len(),
    ensures
        ({
            let rows = json::array_in(json::field(document(g), "relationships"@))->0;
            let nodes = json::array_in(json::field(document(g), "nodes"@))->0;
            let t = g.triples[i];
            let e = g.entities[j].1;
            let note = relation_note(t);
            let known = table::put(
                e.metadata,
                "normalized_type"@,
                JsonV::Text(crate::types::vocab::entity_type_name(e.entity_type)),
            );
            &&& json::text_in(json::field(rows[i], "metadata"@)) == Some(json::json_text(note))
            &&& json::field(note, "triple"@) == Some(
                crate::types::graph::ordered_object(t.metadata),
            )
            &&& json::field(note, "predicate"@) == Some(
                crate::types::graph::ordered_object(
                    table::put(
                        t.predicate.metadata,
                        "normalized_type"@,
                        JsonV::Text(
                            crate::types::vocab::predicate_type_name(t.predicate.predicate_type),
                        ),
                    ),
                ),
            )
            &&& json::text_in(json::field(nodes[j], "metadata"@)) == Some(
                json::json_text(crate::types::graph::ordered_object(known)),
            )
        }),
{
    lemma_document_members(g);
    reveal_strlit("_type");
    assert("_type"@.len() == 5);
    reveal_strlit("_from");
    assert("_from"@.len() == 5);
    reveal_strlit("_to");
    assert("_to"@.len() == 3);
    reveal_strlit("_from_table");
    assert("_from_table"@.len() == 11);
    reveal_strlit("_to_table");
    assert("_to_table"@.len() == 9);
    reveal_strlit("predicate");
    assert("predicate"@.len() == 9);
    reveal_strlit("label");
    assert("label"@.len() == 5);
    reveal_strlit("confidence");
    assert("confidence"@.len() == 10);
    reveal_strlit("metadata");
    assert("metadata"@.len() == 8);
    reveal_strlit("triple");
    assert("triple"@.len() == 6);
    reveal_strlit("_table");
    assert("_table"@.len() == 6);
    reveal_strlit("id");
    assert("id"@.len() == 2);
    reveal_strlit("type");
    assert("type"@.len() == 4);
    reveal_strlit("description");
    assert("description"@.len() == 11);
    json::lemma_field_at(relationship(g.triples[i])->Object_0, 8);
    json::lemma_field_at(relation_note(g.triples[i])->Object_0, 0);
    json::lemma_field_at(relation_note(g.triples[i])->Object_0, 1);
    json::lemma_field_at(node(g.entities[j].1)->Object_0, 6);
}

/// The relationships of an exported graph and its entities fit together: where an end of a
/// relationship is an entity of the graph, the row of that entity has the id that the row
/// of the relationship has for that end.
pub proof fn law_exported_ends_meet(g: GraphV, i: int, a: int)
    requires
        0 <= i < g.triples.len(),
        0 <= a < g.entities.len(),
    ensures
        ({
            let rows = json::array_in(json::field(document(g), "relationships"@))->0;
            let nodes = json::array_in(json::field(document(g), "nodes"@))->0;
            &&& g.entities[a].1.id == g.triples[i].subject.id ==> json::field(rows[i], "_from"@)
                == json::field(nodes[a], "id"@)
            &&& g.entities[a].1.id == g.triples[i].object.id ==> json::field(rows[i], "_to"@)
                == json::field(nodes[a], "id"@)
        }),
{
    law_exported_relationships_keep_their_direction(g, i);
    law_exported_entities_are_told_apart(g, a);
}

/// Every relationship goes into a table that is created.
pub proof fn law_tables_are_created(g: GraphV, i: int)
    requires
        0 <= i < g.triples.len(),
    ensures
        schema_of(relation_tables(g.triples)).contains(
            relation_statement(relation_table(g.triples[i])),
        ),
{
    let used = Seq::new(g.triples.len(), |i: int| relation_table(g.triples[i]));
    names::lemma_with_names(seq![], used);
    let tables = relation_tables(g.triples);
    assert(used.contains(used[i]));
    assert(tables.contains(used[i]));
    let k = choose|k: int| 0 <= k < tables.len() && tables[k] == used[i];
    assert(schema_of(tables)[k + 1] == relation_statement(used[i]));
}

} // verus!
