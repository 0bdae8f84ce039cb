//! Merging graphs.
//!
//! Entities of the second graph that are found to be entities of the first are
//! combined with them, and the relationships of the second graph are tied to the
//! entities that then stand for their ends.

use vstd::prelude::*;

use crate::fraction::FractionV;
use crate::json::{Json, JsonV};
use crate::table::{Dup, Table};
use crate::types::graph::{
    Entity, EntityV, GraphV, KnowledgeGraph, Metadata, MetadataV, Predicate, PredicateV, Triple,
    TripleV,
};
use crate::types::spec::{CorefMode, MergeStrategy};
use crate::types::vocab::{EntityType, PredicateType};
use crate::{citation, coref, number, pattern, seqs, table, text};

verus! {

broadcast use {crate::seqs::group_views, crate::json::group_json};

/// The longer of two texts, the first where both are as long.
pub open spec fn fuller(a: Option<Seq<char>>, b: Option<Seq<char>>) -> Option<Seq<char>> {
    match (a, b) {
        (Some(x), Some(y)) => if y.len() > x.len() {
            b
        } else {
            a
        },
        (None, _) => b,
        (_, None) => a,
    }
}

/// The greater of two confidences.
pub open spec fn surest(a: Option<FractionV>, b: Option<FractionV>) -> Option<FractionV> {
    if crate::types::graph::surer(b, a) {
        b
    } else {
        a
    }
}

/// The values `d` and then those of `s` under names that `d` does not have.
pub open spec fn filled(d: MetadataV, s: MetadataV) -> MetadataV
    decreases s.len(),
{
    if s.len() == 0 {
        d
    } else {
        let m = filled(d, s.drop_last());
        if table::has_key(m, s.last().0) {
            m
        } else {
            table::put(m, s.last().0, s.last().1)
        }
    }
}

/// Two records of one thing made one. The id of the first is kept, and so are the
/// citations of both. A description that was written of the two stands in the place
/// of theirs where fields are combined.
pub open spec fn combined(
    strategy: MergeStrategy,
    known: EntityV,
    e: EntityV,
    description: Option<Seq<char>>,
) -> EntityV {
    match strategy {
        MergeStrategy::KeepExisting => EntityV {
            metadata: citation::united(known.metadata, e.metadata),
            ..known
        },
        MergeStrategy::KeepIncoming => EntityV {
            id: known.id,
            metadata: citation::united(e.metadata, known.metadata),
            ..e
        },
        _ => EntityV {
            id: known.id,
            label: known.label,
            entity_type: if known.entity_type == EntityType::Other {
                e.entity_type
            } else {
                known.entity_type
            },
            raw_type: match known.raw_type {
                Some(t) => Some(t),
                None => e.raw_type,
            },
            description: match description {
                Some(d) => Some(d),
                None => fuller(known.description, e.description),
            },
            confidence: surest(known.confidence, e.confidence),
            metadata: citation::united(filled(known.metadata, e.metadata), e.metadata),
        },
    }
}

/// A name gives what it gives among the first values, or else what it gives among the
/// second.
proof fn lemma_filled(d: MetadataV, s: MetadataV, k: Seq<char>)
    ensures
        table::lookup(filled(d, s), k) == (if table::lookup(d, k) is Some {
            table::lookup(d, k)
        } else {
            table::lookup(s, k)
        }),
    decreases s.len(),
{
    if s.len() > 0 {
        let before = s.drop_last();
        let m = filled(d, before);
        lemma_filled(d, before, k);
        lemma_filled(d, before, s.last().0);
        table::lemma_position(before, k);
        table::lemma_position(m, s.last().0);
        table::lemma_lookup_put(m, s.last().0, s.last().1, k);
        match table::position(before, k) {
            Some(i) => {
                assert(s[i] == before[i]);
            },
            None => {},
        }
    }
}

/// Whatever becomes of two records of one thing, the one that is made of them has the
/// id of the first and cites all that either cites.
pub proof fn law_combining_keeps_citations(
    strategy: MergeStrategy,
    known: EntityV,
    e: EntityV,
    description: Option<Seq<char>>,
    c: citation::CitationV,
)
    requires
        citation::can_cite(known.metadata),
        citation::can_cite(e.metadata),
    ensures
        combined(strategy, known, e, description).id == known.id,
        citation::cites(known.metadata, c) || citation::cites(e.metadata, c) ==> citation::cites(
            combined(strategy, known, e, description).metadata,
            c,
        ),
{
    let v = citation::citation_value(c);
    citation::law_united_keeps_both(known.metadata, e.metadata, v);
    citation::law_united_keeps_both(e.metadata, known.metadata, v);
    let both = filled(known.metadata, e.metadata);
    lemma_filled(known.metadata, e.metadata, citation::CITATIONS_KEY@);
    citation::law_united_keeps_both(both, e.metadata, v);
}

/// `a` is a description that is no shorter than `b`, where `b` is one.
pub open spec fn says_no_less(a: Option<Seq<char>>, b: Option<Seq<char>>) -> bool {
    b is Some ==> a is Some && a->0.len() >= b->0.len()
}

/// Where fields are combined, the richer record wins in each: the description is one of
/// the two and as long as either, whichever came first; the confidence is one of the two
/// and as great as either; a type is known where either record knows one; and what either
/// record has under a name is kept, the first one where both have it. A description that
/// was written of the two takes their place.
pub proof fn law_union_keeps_the_richer(
    strategy: MergeStrategy,
    known: EntityV,
    e: EntityV,
    written: Option<Seq<char>>,
    k: Seq<char>,
)
    requires
        strategy == MergeStrategy::FieldUnion || strategy == MergeStrategy::Llm,
        k != citation::CITATIONS_KEY@,
        known.confidence is Some ==> crate::fraction::well_written(known.confidence->0),
        e.confidence is Some ==> crate::fraction::well_written(e.confidence->0),
    ensures
        ({
            let r = combined(strategy, known, e, written);
            &&& r.id == known.id
            &&& r.label == known.label
            &&& written is Some ==> r.description == written
            &&& written is None ==> {
                &&& r.description == known.description || r.description == e.description
                &&& says_no_less(r.description, known.description)
                &&& says_no_less(r.description, e.description)
                &&& known.description is Some && e.description is Some
                    && known.description->0.len() == e.description->0.len() ==> r.description
                    == known.description
            }
            &&& r.confidence == known.confidence || r.confidence == e.confidence
            &&& crate::types::graph::no_less_sure(r.confidence, known.confidence)
            &&& crate::types::graph::no_less_sure(r.confidence, e.confidence)
            &&& known.entity_type != EntityType::Other ==> r.entity_type == known.entity_type
            &&& known.entity_type == EntityType::Other ==> r.entity_type == e.entity_type
            &&& known.raw_type is Some ==> r.raw_type == known.raw_type
            &&& known.raw_type is None ==> r.raw_type == e.raw_type
            &&& table::has_key(known.metadata, k) ==> table::lookup(r.metadata, k)
                == table::lookup(known.metadata, k)
            &&& !table::has_key(known.metadata, k) ==> table::lookup(r.metadata, k)
                == table::lookup(e.metadata, k)
        }),
{
    lemma_filled(known.metadata, e.metadata, k);
    citation::law_only_citations_are_united(filled(known.metadata, e.metadata), e.metadata, k);
    if let (Some(a), Some(b)) = (known.confidence, e.confidence) {
        crate::fraction::law_numbers_are_ordered(a, b);
        crate::fraction::law_numbers_are_ordered(a, a);
        crate::fraction::law_numbers_are_ordered(b, b);
    }
    if let Some(a) = known.confidence {
        crate::fraction::law_numbers_are_ordered(a, a);
    }
    if let Some(b) = e.confidence {
        crate::fraction::law_numbers_are_ordered(b, b);
    }
}

/// Where one record takes the place of the other, all that it says is kept, under the id
/// of the first; of the other one only the citations are.
pub proof fn law_one_record_is_kept(
    known: EntityV,
    e: EntityV,
    written: Option<Seq<char>>,
    k: Seq<char>,
)
    requires
        k != citation::CITATIONS_KEY@,
    ensures
        ({
            let r = combined(MergeStrategy::KeepExisting, known, e, written);
            &&& r.id == known.id && r.label == known.label && r.entity_type == known.entity_type
            &&& r.raw_type == known.raw_type && r.description == known.description
            &&& r.confidence == known.confidence
            &&& table::lookup(r.metadata, k) == table::lookup(known.metadata, k)
        }),
        ({
            let r = combined(MergeStrategy::KeepIncoming, known, e, written);
            &&& r.id == known.id && r.label == e.label && r.entity_type == e.entity_type
            &&& r.raw_type == e.raw_type && r.description == e.description
            &&& r.confidence == e.confidence
            &&& table::lookup(r.metadata, k) == table::lookup(e.metadata, k)
        }),
{
    citation::law_only_citations_are_united(known.metadata, e.metadata, k);
    citation::law_only_citations_are_united(e.metadata, known.metadata, k);
}

/// Fill in the values of `src` under names that `dst` does not have.
fn fill(dst: &mut Metadata, src: &Metadata)
    ensures
        final(dst)@ == filled(old(dst)@, src@),
{
    let n: usize = src.len();
    let mut i: usize = 0;
    while i < n
        invariant
            i <= n,
            n == src@.len(),
            dst@ == filled(old(dst)@, src@.take(i as int)),
        decreases n - i,
    {
        assert(src@.take(i + 1).drop_last() =~= src@.take(i as int));
        if !dst.contains_key(src.key_at(i).as_str()) {
            dst.insert(src.key_at(i).clone(), src.value_at(i).dup());
        }
        i += 1;
    }
    assert(src@.take(i as int) =~= src@);
}

/// Make two records of one thing one: see [`combined`].
pub fn combine_entities(
    strategy: MergeStrategy,
    existing: &Entity,
    incoming: &Entity,
    description: Option<String>,
) -> (r: Entity)
    ensures
        r@ == combined(strategy, existing@, incoming@, seqs::opt_view(description)),
{
    match strategy {
        MergeStrategy::KeepExisting => {
            let mut r = existing.dup();
            citation::union_citations(&mut r.metadata, &incoming.metadata);
            r
        },
        MergeStrategy::KeepIncoming => {
            let mut r = incoming.dup();
            r.id = existing.id.clone();
            citation::union_citations(&mut r.metadata, &existing.metadata);
            r
        },
        _ => {
            let mut r = existing.dup();
            if r.entity_type == EntityType::Other {
                r.entity_type = incoming.entity_type;
            }
            if r.raw_type.is_none() {
                r.raw_type = crate::types::graph::dup_option(&incoming.raw_type);
            }
            match description {
                Some(d) => {
                    r.description = Some(d);
                },
                None => {
                    let fuller = match (&existing.description, &incoming.description) {
                        (Some(x), Some(y)) => y.as_str().unicode_len() > x.as_str().unicode_len(),
                        (None, _) => true,
                        (_, None) => false,
                    };
                    if fuller {
                        r.description = crate::types::graph::dup_option(&incoming.description);
                    }
                },
            }
            if crate::types::graph::is_surer(&incoming.confidence, &existing.confidence) {
                r.confidence = crate::types::graph::dup_option(&incoming.confidence);
            }
            fill(&mut r.metadata, &incoming.metadata);
            citation::union_citations(&mut r.metadata, &incoming.metadata);
            r
        },
    }
}

/// The runs of digits in an id.
pub open spec fn runs(id: Seq<char>) -> Seq<Seq<char>> {
    Seq::new(
        pattern::all_matches(pattern::DIGITS@, id).len(),
        |i: int| pattern::all_matches(pattern::DIGITS@, id)[i].1,
    )
}

/// The runs of digits in the ids of `s`.
pub open spec fn all_runs(s: Seq<(Seq<char>, EntityV)>) -> Seq<Seq<char>>
    decreases s.len(),
{
    if s.len() == 0 {
        seq![]
    } else {
        all_runs(s.drop_last()) + runs(s.last().0)
    }
}

/// The greatest of the numbers that texts denote; a text may denote none.
pub open spec fn greatest_of(found: Seq<Seq<char>>) -> nat
    decreases found.len(),
{
    if found.len() == 0 {
        0
    } else {
        let m = greatest_of(found.drop_last());
        match number::natural_in(found.last()) {
            Some(n) => if n > m {
                n
            } else {
                m
            },
            None => m,
        }
    }
}

/// The greatest number in an id of `s`.
pub open spec fn greatest_number(s: Seq<(Seq<char>, EntityV)>) -> nat {
    greatest_of(all_runs(s))
}

/// A number in square brackets.
pub open spec fn bracketed(n: nat) -> Seq<char> {
    seq!['['] + text::decimal(n) + seq![']']
}

/// An id for one more entity: the number after the greatest in an id of `s`.
pub open spec fn new_id(s: Seq<(Seq<char>, EntityV)>) -> Seq<char> {
    bracketed(greatest_number(s) + 1)
}

/// The number after the greatest that a text of `found` denotes, in square brackets.
pub fn id_after(found: &Vec<String>) -> (r: String)
    ensures
        r@ == bracketed(greatest_of(seqs::views(found@)) + 1),
{
    let ghost all = seqs::views(found@);
    let mut most: Vec<char> = Vec::new();
    let mut i: usize = 0;
    while i < found.len()
        invariant
            i <= found@.len(),
            all == seqs::views(found@),
            number::is_numeral(most@),
            number::natural(most@) == greatest_of(all.take(i as int)),
        decreases found.len() - i,
    {
        assert(all.take(i + 1).drop_last() =~= all.take(i as int));
        assert(all.take(i + 1).last() == found@[i as int]@);
        if let Some(n) = number::numeral_of(found[i].as_str()) {
            if number::numeral_less(&most, &n) {
                most = n;
            }
        }
        i += 1;
    }
    assert(all.take(i as int) =~= all);
    let mut s = String::new();
    s.push('[');
    s.append(number::numeral_after(&most).as_str());
    s.push(']');
    assert(s@ =~= bracketed(greatest_of(all) + 1));
    s
}

/// A numeral denotes the number that it was written of.
pub proof fn lemma_decimal_denotes(n: nat)
    ensures
        number::natural(text::decimal(n)) == n,
        text::decimal(n).len() > 0,
        forall|i: int|
            0 <= i < text::decimal(n).len() ==> number::is_digit(#[trigger] text::decimal(n)[i]),
    decreases n,
{
    let d = n % 10;
    assert(number::is_digit(text::digit_char(d)) && number::digit_value(text::digit_char(d)) == d);
    if n < 10 {
        assert(text::decimal(n).drop_last() =~= Seq::<char>::empty());
        reveal_with_fuel(number::natural, 2);
    } else {
        lemma_decimal_denotes(n / 10);
        assert(text::decimal(n).drop_last() =~= text::decimal(n / 10));
    }
}

/// A run of digits ends where the text ends.
proof fn lemma_digits_end(s: Seq<char>, from: int)
    requires
        0 <= from <= s.len(),
        forall|i: int| from <= i < s.len() ==> number::is_digit(#[trigger] s[i]),
    ensures
        number::digits_end(s, from) == s.len(),
    decreases s.len() - from,
{
    if from < s.len() {
        lemma_digits_end(s, from + 1);
    }
}

/// A numeral is read back as the number that it was written of.
proof fn lemma_decimal_read_back(n: nat)
    ensures
        number::natural_in(text::decimal(n)) == Some(n),
{
    lemma_decimal_denotes(n);
    lemma_digits_end(text::decimal(n), 0);
}

/// The greatest number is at least each of the numbers.
proof fn lemma_greatest(found: Seq<Seq<char>>, i: int, n: nat)
    requires
        0 <= i < found.len(),
        number::natural_in(found[i]) == Some(n),
    ensures
        n <= greatest_of(found),
    decreases found.len(),
{
    if i < found.len() - 1 {
        lemma_greatest(found.drop_last(), i, n);
    }
}

/// An id that no entity of `graph` has.
pub fn generate_new_id(graph: &KnowledgeGraph) -> (r: String)
    ensures
        r@ == new_id(graph@.entities),
        !table::has_key(graph@.entities, r@),
{
    next_id(&graph.entities)
}

/// The runs of digits in the id `id`, after those in `found`.
fn find_runs(found: &mut Vec<String>, id: &str)
    ensures
        seqs::views(final(found)@) == seqs::views(old(found)@) + runs(id@),
        forall|k: nat| id@ == #[trigger] bracketed(k) ==> runs(id@) == seq![text::decimal(k)],
{
    let ms = pattern::find_matches(pattern::DIGITS, id);
    let ghost before = seqs::views(found@);
    let mut i: usize = 0;
    while i < ms.len()
        invariant
            i <= ms@.len(),
            ms@.len() == runs(id@).len(),
            forall|j: int| 0 <= j < ms@.len() ==> (#[trigger] ms@[j]).1@ == runs(id@)[j],
            seqs::views(found@) =~= before + runs(id@).take(i as int),
        decreases ms.len() - i,
    {
        found.push(ms[i].1.clone());
        i += 1;
    }
    assert(runs(id@).take(i as int) =~= runs(id@));
    assert forall|k: nat| id@ == #[trigger] bracketed(k) implies runs(id@) == seq![
        text::decimal(k),
    ] by {
        lemma_decimal_denotes(k);
        assert forall|c: int| 0 <= c < text::decimal(k).len() implies '0'
            <= #[trigger] text::decimal(k)[c] <= '9' by {
            assert(number::is_digit(text::decimal(k)[c]));
        }
        assert(pattern::in_brackets(id@, text::decimal(k)));
        assert(ms@[0].1@ == runs(id@)[0]);
        assert(runs(id@) =~= seq![text::decimal(k)]);
    }
}

/// An id that no entity of `entities` has: see [`generate_new_id`].
fn next_id(entities: &Table<Entity>) -> (r: String)
    ensures
        r@ == new_id(entities@),
        !table::has_key(entities@, r@),
{
    let n: usize = entities.len();
    let mut found: Vec<String> = Vec::new();
    let mut i: usize = 0;
    while i < n
        invariant
            i <= n,
            n == entities@.len(),
            seqs::views(found@) == all_runs(entities@.take(i as int)),
            forall|j: int, k: nat|
                #![trigger entities@[j], bracketed(k)]
                0 <= j < i && entities@[j].0 == bracketed(k) ==> seqs::views(found@).contains(
                    text::decimal(k),
                ),
        decreases n - i,
    {
        let ghost before = seqs::views(found@);
        find_runs(&mut found, entities.key_at(i).as_str());
        let ghost after = seqs::views(found@);
        let ghost more = runs(entities@[i as int].0);
        assert(entities@.take(i + 1).drop_last() =~= entities@.take(i as int));
        assert forall|j: int, k: nat|
            #![trigger entities@[j], bracketed(k)]
            0 <= j < i + 1 && entities@[j].0 == bracketed(k) implies after.contains(
            text::decimal(k),
        ) by {
            if j < i {
                assert(before.contains(text::decimal(k)));
                let c = choose|c: int| 0 <= c < before.len() && before[c] == text::decimal(k);
                assert(after[c] == text::decimal(k));
            } else {
                assert(more == seq![text::decimal(k)]);
                assert(after[before.len() as int] == more[0]);
            }
        }
        i += 1;
    }
    assert(entities@.take(i as int) =~= entities@);
    let r = id_after(&found);
    proof {
        let all = seqs::views(found@);
        let most = greatest_of(all);
        table::lemma_position(entities@, r@);
        if table::has_key(entities@, r@) {
            let j = table::position(entities@, r@)->0;
            assert(entities@[j].0 == bracketed(most + 1));
            assert(all.contains(text::decimal(most + 1)));
            let c = choose|c: int| 0 <= c < all.len() && all[c] == text::decimal(most + 1);
            lemma_decimal_read_back(most + 1);
            lemma_greatest(all, c, most + 1);
        }
    }
    r
}

/// A merge under way: the entities so far, the id that each label stands for, and
/// the id that each id of the second graph stands for.
pub struct MergingV {
    pub entities: Seq<(Seq<char>, EntityV)>,
    pub labels: Seq<(Seq<char>, Seq<char>)>,
    pub renamed: Seq<(Seq<char>, Seq<char>)>,
}

/// The labels of `es`, in lower case, and the ids that they stand for. Of two
/// entities with one label the later counts.
pub open spec fn label_ids(es: Seq<(Seq<char>, EntityV)>) -> Seq<(Seq<char>, Seq<char>)>
    decreases es.len(),
{
    if es.len() == 0 {
        seq![]
    } else {
        table::put(label_ids(es.drop_last()), text::lower(es.last().1.label), es.last().0)
    }
}

/// A merge into `es` before anything was taken in.
pub open spec fn merging(es: Seq<(Seq<char>, EntityV)>) -> MergingV {
    MergingV { entities: es, labels: label_ids(es), renamed: seq![] }
}

/// The id of the entity that `e` is found to be.
pub open spec fn known_as(st: MergingV, e: EntityV, mode: CorefMode) -> Option<Seq<char>> {
    match table::lookup(st.labels, text::lower(e.label)) {
        Some(id) => Some(id),
        None => match mode {
            CorefMode::Off => None,
            CorefMode::Fuzzy => match coref::coreferent(st.entities, e) {
                Some(i) => Some(st.entities[i].0),
                None => None,
            },
        },
    }
}

/// A merge after the entity `e` under the id `id` was taken in: combined with the
/// entity that it is found to be, or added under its id, or, where another entity
/// has that id, under a new one. A description may have been written of the two that
/// are combined: see [`combined`].
pub open spec fn entity_absorbed(
    st: MergingV,
    id: Seq<char>,
    e: EntityV,
    strategy: MergeStrategy,
    mode: CorefMode,
    written: Option<Seq<char>>,
) -> MergingV {
    let (k, entities) = match known_as(st, e, mode) {
        Some(k) => (
            k,
            match table::lookup(st.entities, k) {
                Some(known) => table::put(st.entities, k, combined(strategy, known, e, written)),
                None => st.entities,
            },
        ),
        None => {
            let k = if table::has_key(st.entities, id) {
                new_id(st.entities)
            } else {
                id
            };
            (k, table::put(st.entities, k, EntityV { id: k, ..e }))
        },
    };
    MergingV {
        entities,
        labels: table::put(st.labels, text::lower(e.label), k),
        renamed: table::put(st.renamed, id, k),
    }
}

/// Where the entity `e` under the id `id` is taken in under a new id, no entity of the
/// merge has that id yet.
pub open spec fn id_is_fresh(st: MergingV, id: Seq<char>, e: EntityV, mode: CorefMode) -> bool {
    known_as(st, e, mode) is None && table::has_key(st.entities, id) ==> !table::has_key(
        st.entities,
        new_id(st.entities),
    )
}

/// What was written for the entity at `i`; nothing where there is no more.
pub open spec fn written_at(written: Seq<Option<Seq<char>>>, i: int) -> Option<Seq<char>> {
    if 0 <= i < written.len() {
        written[i]
    } else {
        None
    }
}

/// A merge after each of the entities `es` was taken in, with what was written for
/// each.
pub open spec fn entities_absorbed(
    st: MergingV,
    es: Seq<(Seq<char>, EntityV)>,
    strategy: MergeStrategy,
    mode: CorefMode,
    written: Seq<Option<Seq<char>>>,
) -> MergingV
    decreases es.len(),
{
    if es.len() == 0 {
        st
    } else {
        entity_absorbed(
            entities_absorbed(st, es.drop_last(), strategy, mode, written),
            es.last().0,
            es.last().1,
            strategy,
            mode,
            written_at(written, es.len() - 1),
        )
    }
}

/// Each new id that is given while the entities `es` are taken in is given to one
/// entity alone.
pub open spec fn ids_are_fresh(
    st: MergingV,
    es: Seq<(Seq<char>, EntityV)>,
    strategy: MergeStrategy,
    mode: CorefMode,
    written: Seq<Option<Seq<char>>>,
) -> bool
    decreases es.len(),
{
    es.len() > 0 ==> ids_are_fresh(st, es.drop_last(), strategy, mode, written) && id_is_fresh(
        entities_absorbed(st, es.drop_last(), strategy, mode, written),
        es.last().0,
        es.last().1,
        mode,
    )
}

/// The entity that stands for the one with the id `id` in the second graph.
pub open spec fn end_of(st: MergingV, id: Seq<char>) -> Option<EntityV> {
    match table::lookup(st.renamed, id) {
        Some(k) => table::lookup(st.entities, k),
        None => table::lookup(st.entities, id),
    }
}

/// The relationships `ts` after `t` was taken in: between the entities that stand
/// for its ends, where there are both. A relationship that is there already gets the
/// citations of `t`.
pub open spec fn triple_absorbed(st: MergingV, ts: Seq<TripleV>, t: TripleV) -> Seq<TripleV> {
    match (end_of(st, t.subject.id), end_of(st, t.object.id)) {
        (Some(s), Some(o)) => {
            let u = TripleV { subject: s, object: o, ..t };
            match first_same(ts, u, 0) {
                Some(i) => ts.update(
                    i,
                    TripleV {
                        metadata: citation::united(ts[i].metadata, u.metadata),
                        ..ts[i]
                    },
                ),
                None => ts.push(u),
            }
        },
        _ => ts,
    }
}

/// The first relationship of `ts` from `from` on that is the same one as `t`.
pub open spec fn first_same(ts: Seq<TripleV>, t: TripleV, from: int) -> Option<int>
    decreases ts.len() - from,
{
    if 0 <= from < ts.len() {
        if crate::types::graph::triple_key(ts[from]) == crate::types::graph::triple_key(t) {
            Some(from)
        } else {
            first_same(ts, t, from + 1)
        }
    } else {
        None
    }
}

/// The first relationship with a key stands where no earlier one has that key.
pub proof fn lemma_first_same(ts: Seq<TripleV>, t: TripleV, from: int)
    requires
        0 <= from,
    ensures
        match first_same(ts, t, from) {
            Some(i) => from <= i < ts.len() && crate::types::graph::triple_key(ts[i])
                == crate::types::graph::triple_key(t) && (forall|j: int|
                from <= j < i ==> crate::types::graph::triple_key(#[trigger] ts[j])
                    != crate::types::graph::triple_key(t)),
            None => forall|j: int|
                from <= j < ts.len() ==> crate::types::graph::triple_key(#[trigger] ts[j])
                    != crate::types::graph::triple_key(t),
        },
    decreases ts.len() - from,
{
    if from < ts.len() {
        lemma_first_same(ts, t, from + 1);
    }
}

/// A relationship that is there already is not added again: it stays as it is and cites from
/// then on all that either of the two cites. One that is new is added behind the others, and
/// one with an end that is not known is left out.
pub proof fn law_known_relationships_gain_citations(
    st: MergingV,
    ts: Seq<TripleV>,
    t: TripleV,
    v: JsonV,
    k: int,
)
    requires
        0 <= k < ts.len() ==> citation::can_cite(ts[k].metadata),
    ensures
        ({
            let r = triple_absorbed(st, ts, t);
            match (end_of(st, t.subject.id), end_of(st, t.object.id)) {
                (Some(a), Some(b)) => {
                    let u = TripleV { subject: a, object: b, ..t };
                    match first_same(ts, u, 0) {
                        Some(i) => {
                            &&& r.len() == ts.len()
                            &&& 0 <= k < ts.len() && k != i ==> r[k] == ts[k]
                            &&& r[i].subject == ts[i].subject && r[i].object == ts[i].object
                            &&& r[i].predicate == ts[i].predicate
                            &&& k == i && (citation::list_holds(ts[i].metadata, v)
                                || citation::list_holds(t.metadata, v)) ==> citation::list_holds(
                                r[i].metadata,
                                v,
                            )
                        },
                        None => r == ts.push(u),
                    }
                },
                _ => r == ts,
            }
        }),
{
    if let (Some(a), Some(b)) = (end_of(st, t.subject.id), end_of(st, t.object.id)) {
        let u = TripleV { subject: a, object: b, ..t };
        lemma_first_same(ts, u, 0);
        if let Some(i) = first_same(ts, u, 0) {
            if k == i {
                citation::law_united_keeps_both(ts[i].metadata, t.metadata, v);
            }
        }
    }
}

/// The relationships `s` after each of the relationships `ts` was taken in.
pub open spec fn triples_absorbed(st: MergingV, s: Seq<TripleV>, ts: Seq<TripleV>) -> Seq<TripleV>
    decreases ts.len(),
{
    if ts.len() == 0 {
        s
    } else {
        triple_absorbed(st, triples_absorbed(st, s, ts.drop_last()), ts.last())
    }
}

/// `g` with the entities and the relationships of `other`, where nothing was written.
pub open spec fn deduplicated(
    g: GraphV,
    other: GraphV,
    strategy: MergeStrategy,
    mode: CorefMode,
) -> GraphV {
    deduplicated_with(g, other, strategy, mode, seq![])
}

/// `g` with the entities and the relationships of `other`; `written` are the
/// descriptions that were written for the entities of `other`.
pub open spec fn deduplicated_with(
    g: GraphV,
    other: GraphV,
    strategy: MergeStrategy,
    mode: CorefMode,
    written: Seq<Option<Seq<char>>>,
) -> GraphV {
    let st = entities_absorbed(merging(g.entities), other.entities, strategy, mode, written);
    GraphV {
        entities: st.entities,
        triples: triples_absorbed(st, g.triples, other.triples),
        ..g
    }
}

/// A merge under way: see [`MergingV`].
struct Merging {
    entities: Table<Entity>,
    labels: Table<String>,
    renamed: Table<String>,
}

impl View for Merging {
    type V = MergingV;

    closed spec fn view(&self) -> MergingV {
        MergingV {
            entities: self.entities@,
            labels: self.labels@,
            renamed: self.renamed@,
        }
    }
}

impl Merging {
    /// A merge into `entities` before anything was taken in.
    fn new(entities: Table<Entity>) -> (r: Merging)
        ensures
            r@ == merging(entities@),
    {
        let mut labels: Table<String> = Table::new();
        let n: usize = entities.len();
        let mut i: usize = 0;
        while i < n
            invariant
                i <= n,
                n == entities@.len(),
                labels@ == label_ids(entities@.take(i as int)),
            decreases n - i,
        {
            assert(entities@.take(i + 1).drop_last() =~= entities@.take(i as int));
            labels.insert(
                text::to_lower(entities.value_at(i).label.as_str()),
                entities.key_at(i).clone(),
            );
            i += 1;
        }
        assert(entities@.take(i as int) =~= entities@);
        let r = Merging { entities, labels, renamed: Table::new() };
        assert(r@.renamed =~= seq![]);
        r
    }

    /// The id of the entity that `e` is found to be.
    fn find(&self, e: &Entity, mode: CorefMode) -> (r: Option<String>)
        ensures
            seqs::opt_view(r) == known_as(self@, e@, mode),
    {
        match self.labels.get(text::to_lower(e.label.as_str()).as_str()) {
            Some(k) => Some(k.clone()),
            None => match mode {
                CorefMode::Off => None,
                CorefMode::Fuzzy => match coref::find_coreferent(&self.entities, e) {
                    Some(i) => Some(self.entities.key_at(i).clone()),
                    None => None,
                },
            },
        }
    }

    /// Take in an entity.
    fn absorb(
        &mut self,
        id: &str,
        e: &Entity,
        strategy: MergeStrategy,
        mode: CorefMode,
        written: Option<String>,
    )
        ensures
            final(self)@ == entity_absorbed(
                old(self)@,
                id@,
                e@,
                strategy,
                mode,
                seqs::opt_view(written),
            ),
            id_is_fresh(old(self)@, id@, e@, mode),
    {
        let label = text::to_lower(e.label.as_str());
        let known = self.find(e, mode);
        let k = match known {
            Some(k) => {
                let both = match self.entities.get(k.as_str()) {
                    Some(there) => Some(combine_entities(strategy, there, e, written)),
                    None => None,
                };
                if let Some(c) = both {
                    self.entities.insert(k.clone(), c);
                }
                k
            },
            None => {
                let k = if self.entities.contains_key(id) {
                    next_id(&self.entities)
                } else {
                    id.to_owned()
                };
                let mut c = e.dup();
                c.id = k.clone();
                self.entities.insert(k.clone(), c);
                k
            },
        };
        self.labels.insert(label, k.clone());
        self.renamed.insert(id.to_owned(), k);
    }

    /// The entity that stands for the one with the id `id` in the second graph.
    fn end(&self, id: &str) -> (r: Option<Entity>)
        ensures
            seqs::opt_view(r) == end_of(self@, id@),
    {
        let found = match self.renamed.get(id) {
            Some(k) => self.entities.get(k.as_str()),
            None => self.entities.get(id),
        };
        match found {
            Some(e) => Some(e.dup()),
            None => None,
        }
    }

    /// Take in a relationship.
    fn tie(&self, ts: &mut Vec<Triple>, t: &Triple)
        ensures
            seqs::views(final(ts)@) == triple_absorbed(self@, seqs::views(old(ts)@), t@),
    {
        let (subject, object) = match (self.end(t.subject.id.as_str()), self.end(t.object.id.as_str())) {
            (Some(s), Some(o)) => (s, o),
            _ => {
                return;
            },
        };
        let u = Triple {
            subject,
            predicate: t.predicate.dup(),
            object,
            confidence: crate::types::graph::dup_option(&t.confidence),
            metadata: t.metadata.dup(),
        };
        proof {
            lemma_first_same(seqs::views(ts@), u@, 0);
        }
        match crate::types::graph::find_triple(ts, &u) {
            Some(i) => {
                assert(seqs::views(ts@)[i as int] == ts@[i as int]@);
                let mut known = ts[i].dup();
                citation::union_citations(&mut known.metadata, &u.metadata);
                ts.set(i, known);
            },
            None => {
                ts.push(u);
            },
        }
    }
}

/// What is written beyond the entities that are taken in makes no difference.
proof fn lemma_written_beyond(
    st: MergingV,
    es: Seq<(Seq<char>, EntityV)>,
    strategy: MergeStrategy,
    mode: CorefMode,
    written: Seq<Option<Seq<char>>>,
    more: Seq<Option<Seq<char>>>,
)
    requires
        forall|i: int| 0 <= i < es.len() ==> #[trigger] written_at(written, i) == written_at(more, i),
    ensures
        entities_absorbed(st, es, strategy, mode, written) == entities_absorbed(
            st,
            es,
            strategy,
            mode,
            more,
        ),
        ids_are_fresh(st, es, strategy, mode, written) == ids_are_fresh(
            st,
            es,
            strategy,
            mode,
            more,
        ),
    decreases es.len(),
{
    if es.len() > 0 {
        lemma_written_beyond(st, es.drop_last(), strategy, mode, written, more);
        assert(written_at(written, es.len() - 1) == written_at(more, es.len() - 1));
    }
}

/// What a [`MergeSession`] stands for: the two graphs, how they are merged, and what was
/// written for each entity of the second that was taken in.
pub struct MergeSessionV {
    pub g: GraphV,
    pub other: GraphV,
    pub strategy: MergeStrategy,
    pub mode: CorefMode,
    pub written: Seq<Option<Seq<char>>>,
}

/// The merge after the entities that were taken in.
pub open spec fn so_far(v: MergeSessionV) -> MergingV {
    entities_absorbed(
        merging(v.g.entities),
        v.other.entities.take(v.written.len() as int),
        v.strategy,
        v.mode,
        v.written,
    )
}

/// The two descriptions of one thing, and its label, of which a description is to be
/// written before the next entity is taken in.
pub open spec fn pair_due(v: MergeSessionV) -> Option<(Seq<char>, Seq<char>, Seq<char>)> {
    let n = v.written.len() as int;
    if v.strategy == MergeStrategy::Llm && n < v.other.entities.len() {
        let e = v.other.entities[n].1;
        match known_as(so_far(v), e, v.mode) {
            Some(k) => match table::lookup(so_far(v).entities, k) {
                Some(known) => match (known.description, e.description) {
                    (Some(a), Some(b)) => if a == b {
                        None
                    } else {
                        Some((known.label, a, b))
                    },
                    _ => None,
                },
                None => None,
            },
            None => None,
        }
    } else {
        None
    }
}

/// What is to be written is of two descriptions that differ: that which is there of a thing,
/// first, and that of the entity that is next to be taken in and is found to be that thing.
pub proof fn law_differing_descriptions_are_due(v: MergeSessionV)
    ensures
        match pair_due(v) {
            Some((label, a, b)) => {
                let n = v.written.len() as int;
                let e = v.other.entities[n].1;
                let known = table::lookup(so_far(v).entities, known_as(so_far(v), e, v.mode)->0);
                &&& v.strategy == MergeStrategy::Llm
                &&& n < v.other.entities.len()
                &&& known is Some
                &&& label == known->0.label
                &&& known->0.description == Some(a)
                &&& e.description == Some(b)
                &&& a != b
            },
            None => true,
        },
        v.strategy == MergeStrategy::Llm && v.written.len() < v.other.entities.len() ==> {
            let e = v.other.entities[v.written.len() as int].1;
            let k = known_as(so_far(v), e, v.mode);
            let known = table::lookup(so_far(v).entities, k->0);
            k is Some && known is Some && known->0.description is Some && e.description is Some
                && known->0.description != e.description ==> pair_due(v) is Some
        },
{
}

/// A question about two descriptions tells the label, then the description that is known and
/// then the one that comes in.
pub proof fn law_questions_tell_both_descriptions(
    label: Seq<char>,
    known: Seq<char>,
    incoming: Seq<char>,
)
    ensures
        exists|a: Seq<char>, b: Seq<char>, c: Seq<char>| #[trigger]
            (a + label + b + known + c + incoming) == description_question(label, known, incoming),
{
    let a = "Merge the two descriptions of \""@;
    let b =
        "\" below into one concise description that keeps every fact. Reply with the description alone.\n\nDescription 1: "@;
    let c = "\nDescription 2: "@;
    assert((a + label + b + known + c + incoming) == description_question(label, known, incoming));
}

/// What a model is asked to write: one description of a thing that has two.
pub open spec fn description_question(
    label: Seq<char>,
    known: Seq<char>,
    incoming: Seq<char>,
) -> Seq<char> {
    "Merge the two descriptions of \""@ + label
        + "\" below into one concise description that keeps every fact. Reply with the description alone.\n\nDescription 1: "@
        + known + "\nDescription 2: "@ + incoming
}

/// The description in a reply: what is left of it without the white space around it,
/// where that is anything.
pub open spec fn description_in(reply: Seq<char>) -> Option<Seq<char>> {
    if text::trimmed(reply).len() > 0 {
        Some(text::trimmed(reply))
    } else {
        None
    }
}

/// The description in a reply.
pub fn read_description(reply: &str) -> (r: Option<String>)
    ensures
        seqs::opt_view(r) == description_in(reply@),
{
    let d = text::trim(reply);
    if d.as_str().unicode_len() > 0 {
        Some(d)
    } else {
        None
    }
}

/// Two descriptions of one thing.
pub struct DescriptionPair {
    pub label: String,
    pub known: String,
    pub incoming: String,
}

impl DescriptionPair {
    /// What a model is asked to write.
    pub fn question(&self) -> (r: String)
        ensures
            r@ == description_question(self.label@, self.known@, self.incoming@),
    {
        let mut s = text::concat2("Merge the two descriptions of \"", self.label.as_str());
        s.append(
            "\" below into one concise description that keeps every fact. Reply with the description alone.\n\nDescription 1: ",
        );
        s.append(self.known.as_str());
        s.append("\nDescription 2: ");
        s.append(self.incoming.as_str());
        s
    }
}

/// A merge of one graph into another that goes on entity by entity, so that a
/// description can be written of two that are found to be one thing.
pub struct MergeSession {
    st: Merging,
    triples: Vec<Triple>,
    metadata: Metadata,
    other: KnowledgeGraph,
    strategy: MergeStrategy,
    mode: CorefMode,
    taken: usize,
    start: Ghost<GraphV>,
    written: Ghost<Seq<Option<Seq<char>>>>,
}

impl View for MergeSession {
    type V = MergeSessionV;

    closed spec fn view(&self) -> MergeSessionV {
        MergeSessionV {
            g: self.start@,
            other: self.other@,
            strategy: self.strategy,
            mode: self.mode,
            written: self.written@,
        }
    }
}

impl MergeSession {
    /// The merge is the one of the entities that were taken in, and the relationships
    /// are those of the first graph.
    #[verifier::type_invariant]
    spec fn wf(self) -> bool {
        &&& self.taken == self.written@.len()
        &&& self.taken <= self.other.entities@.len()
        &&& self.st@ == so_far(self@)
        &&& seqs::views(self.triples@) == self.start@.triples
        &&& self.metadata@ == self.start@.metadata
        &&& ids_are_fresh(
            merging(self.start@.entities),
            self.other.entities@.take(self.taken as int),
            self.strategy,
            self.mode,
            self.written@,
        )
    }

    /// A merge of `g2` into `g1` before anything was taken in.
    pub fn new(
        g1: KnowledgeGraph,
        g2: KnowledgeGraph,
        strategy: MergeStrategy,
        mode: CorefMode,
    ) -> (r: MergeSession)
        ensures
            r@ == (MergeSessionV { g: g1@, other: g2@, strategy, mode, written: seq![] }),
    {
        let ghost start = g1@;
        let KnowledgeGraph { entities, triples, metadata } = g1;
        assert(g2.entities@.take(0) =~= seq![]);
        MergeSession {
            st: Merging::new(entities),
            triples,
            metadata,
            other: g2,
            strategy,
            mode,
            taken: 0,
            start: Ghost(start),
            written: Ghost(Seq::empty()),
        }
    }

    /// A merge of a graph into itself, from nothing: entities that are found to be one
    /// thing are combined, and each relationship stays once.
    pub fn within(kg: KnowledgeGraph, strategy: MergeStrategy, mode: CorefMode) -> (r: MergeSession)
        ensures
            r@ == (MergeSessionV {
                g: emptied(kg@),
                other: kg@,
                strategy,
                mode,
                written: seq![],
            }),
    {
        let mut empty = KnowledgeGraph::new();
        empty.metadata = kg.metadata.dup();
        MergeSession::new(empty, kg, strategy, mode)
    }

    /// Whether every entity was taken in.
    pub fn is_done(&self) -> (r: bool)
        ensures
            r == (self@.written.len() == self@.other.entities.len()),
    {
        proof {
            use_type_invariant(self);
        }
        self.taken == self.other.entities.len()
    }

    /// The descriptions of which one is to be written before the next entity is taken
    /// in; nothing where the merge needs none.
    pub fn due(&self) -> (r: Option<DescriptionPair>)
        ensures
            match r {
                Some(p) => pair_due(self@) == Some((p.label@, p.known@, p.incoming@)),
                None => pair_due(self@) is None,
            },
    {
        proof {
            use_type_invariant(self);
        }
        if self.strategy != MergeStrategy::Llm || self.taken >= self.other.entities.len() {
            return None;
        }
        let e = self.other.entities.value_at(self.taken);
        match self.st.find(e, self.mode) {
            Some(k) => match self.st.entities.get(k.as_str()) {
                Some(there) => match (&there.description, &e.description) {
                    (Some(a), Some(b)) => {
                        if text::same(a.as_str(), b.as_str()) {
                            None
                        } else {
                            Some(
                                DescriptionPair {
                                    label: there.label.clone(),
                                    known: a.clone(),
                                    incoming: b.clone(),
                                },
                            )
                        }
                    },
                    _ => None,
                },
                None => None,
            },
            None => None,
        }
    }

    /// Take in the next entity, with the description that was written.
    pub fn take(self, written: Option<String>) -> (r: MergeSession)
        requires
            self@.written.len() < self@.other.entities.len(),
        ensures
            r@ == (MergeSessionV {
                written: self@.written.push(seqs::opt_view(written)),
                ..self@
            }),
    {
        proof {
            use_type_invariant(&self);
        }
        let ghost before = self@;
        let ghost w = seqs::opt_view(written);
        let MergeSession {
            st,
            triples,
            metadata,
            other,
            strategy,
            mode,
            taken,
            start,
            written: Ghost(given),
        } = self;
        let mut st = st;
        let n: usize = other.entities.len();
        assert(taken < n);
        let ghost all = given.push(w);
        let ghost es = other.entities@;
        st.absorb(
            other.entities.key_at(taken).as_str(),
            other.entities.value_at(taken),
            strategy,
            mode,
            written,
        );
        proof {
            assert(es.take(taken + 1).drop_last() =~= es.take(taken as int));
            assert forall|i: int| 0 <= i < taken implies #[trigger] written_at(given, i)
                == written_at(all, i) by {}
            lemma_written_beyond(
                merging(start@.entities),
                es.take(taken as int),
                strategy,
                mode,
                given,
                all,
            );
        }
        MergeSession {
            st,
            triples,
            metadata,
            other,
            strategy,
            mode,
            taken: taken + 1,
            start,
            written: Ghost(all),
        }
    }

    /// The merged graph. Nothing is written for the entities that are left.
    pub fn finish(self) -> (r: KnowledgeGraph)
        ensures
            r@ == deduplicated_with(
                self@.g,
                self@.other,
                self@.strategy,
                self@.mode,
                self@.written,
            ),
            ids_are_fresh(
                merging(self@.g.entities),
                self@.other.entities,
                self@.strategy,
                self@.mode,
                self@.written,
            ),
    {
        proof {
            use_type_invariant(&self);
        }
        let MergeSession {
            st,
            triples,
            metadata,
            other: g2,
            strategy,
            mode,
            taken,
            start: Ghost(start),
            written: Ghost(given),
        } = self;
        let mut st = st;
        let mut ts = triples;
        let ghost es = g2.entities@;
        let n: usize = g2.entities.len();
        let mut i: usize = taken;
        while i < n
            invariant
                given.len() <= i <= n,
                n == g2.entities@.len(),
                es == g2.entities@,
                st@ == entities_absorbed(
                    merging(start.entities),
                    es.take(i as int),
                    strategy,
                    mode,
                    given,
                ),
                ids_are_fresh(
                    merging(start.entities),
                    es.take(i as int),
                    strategy,
                    mode,
                    given,
                ),
            decreases n - i,
        {
            assert(es.take(i + 1).drop_last() =~= es.take(i as int));
            st.absorb(
                g2.entities.key_at(i).as_str(),
                g2.entities.value_at(i),
                strategy,
                mode,
                None,
            );
            i += 1;
        }
        assert(es.take(i as int) =~= es);
        let ghost all = seqs::views(g2.triples@);
        let ghost had = seqs::views(ts@);
        let mut j: usize = 0;
        while j < g2.triples.len()
            invariant
                j <= g2.triples@.len(),
                all == seqs::views(g2.triples@),
                seqs::views(ts@) == triples_absorbed(st@, had, all.take(j as int)),
            decreases g2.triples.len() - j,
        {
            assert(all.take(j + 1).drop_last() =~= all.take(j as int));
            st.tie(&mut ts, &g2.triples[j]);
            j += 1;
        }
        assert(all.take(j as int) =~= all);
        KnowledgeGraph { entities: st.entities, triples: ts, metadata }
    }
}

/// Merge `g2` into `g1`: an entity of `g2` is combined, as `strategy` says, with the
/// entity of `g1` that it is found to be, and the relationships of `g2` are tied to
/// the entities that then stand for their ends. A relationship that is there already
/// is not added, but its citations are. No description is written: see
/// [`MergeSession`].
pub fn merge_with_deduplication_strategy_coref(
    g1: KnowledgeGraph,
    g2: KnowledgeGraph,
    strategy: MergeStrategy,
    mode: CorefMode,
) -> (r: KnowledgeGraph)
    ensures
        r@ == deduplicated(g1@, g2@, strategy, mode),
        ids_are_fresh(
            merging(g1@.entities),
            g2@.entities,
            strategy,
            mode,
            seq![],
        ),
{
    MergeSession::new(g1, g2, strategy, mode).finish()
}

/// Merge `g2` into `g1`, taking names that differ in upper and lower case alone to
/// be of one thing: see [`merge_with_deduplication_strategy_coref`].
pub fn merge_with_deduplication_strategy(
    g1: KnowledgeGraph,
    g2: KnowledgeGraph,
    strategy: MergeStrategy,
) -> (r: KnowledgeGraph)
    ensures
        r@ == deduplicated(g1@, g2@, strategy, CorefMode::Off),
        ids_are_fresh(
            merging(g1@.entities),
            g2@.entities,
            strategy,
            CorefMode::Off,
            seq![],
        ),
{
    merge_with_deduplication_strategy_coref(g1, g2, strategy, CorefMode::Off)
}

/// The entity `id` of `es` is there in `after`, with its id, label, type and
/// description.
pub open spec fn is_kept(
    es: Seq<(Seq<char>, EntityV)>,
    after: Seq<(Seq<char>, EntityV)>,
    id: Seq<char>,
) -> bool {
    match (table::lookup(es, id), table::lookup(after, id)) {
        (Some(e), Some(a)) => a.id == e.id && a.label == e.label && a.entity_type == e.entity_type
            && a.description == e.description,
        _ => false,
    }
}

/// Some entity of `es` has the label `label`, in upper or lower case.
pub open spec fn has_label(es: Seq<(Seq<char>, EntityV)>, label: Seq<char>) -> bool {
    exists|i: int| 0 <= i < es.len() && text::lower((#[trigger] es[i]).1.label) == text::lower(label)
}

/// Merge `g2` into `g1`. An entity of `g1` stays as it is where `g2` has one with
/// the same label: see [`merge_with_deduplication_strategy_coref`].
///
/// Every entity of `g1` is kept, each label of `g2` is that of an entity, and where no
/// two labels of `g1` differ in upper and lower case alone, no two labels of the result
/// do. The relationships of `g1` stay; no relationship that is added is the same as one
/// before it, and its ends are entities.
pub fn merge_with_deduplication(g1: KnowledgeGraph, g2: KnowledgeGraph) -> (r: KnowledgeGraph)
    ensures
        r@ == deduplicated(g1@, g2@, MergeStrategy::KeepExisting, CorefMode::Off),
        forall|id: Seq<char>| #[trigger]
            table::has_key(g1@.entities, id) ==> is_kept(g1@.entities, r@.entities, id),
        forall|i: int|
            0 <= i < g2@.entities.len() ==> has_label(
                r@.entities,
                (#[trigger] g2@.entities[i]).1.label,
            ),
        labels_differ(g1@.entities) ==> labels_differ(r@.entities),
        r@.triples.len() >= g1@.triples.len(),
        forall|i: int|
            0 <= i < g1@.triples.len() ==> crate::types::graph::triple_key(
                #[trigger] r@.triples[i],
            ) == crate::types::graph::triple_key(g1@.triples[i]),
        forall|i: int, j: int|
            0 <= i < j < r@.triples.len() && g1@.triples.len() <= j
                ==> crate::types::graph::triple_key(#[trigger] r@.triples[i])
                != crate::types::graph::triple_key(#[trigger] r@.triples[j]),
        crate::types::graph::ids_are_keys(g1@.entities) ==> forall|j: int|
            g1@.triples.len() <= j < r@.triples.len() ==> table::has_key(
                r@.entities,
                (#[trigger] r@.triples[j]).subject.id,
            ) && table::has_key(r@.entities, r@.triples[j].object.id),
{
    let ghost g = g1@;
    let ghost other = g2@;
    // Reading the length shows that no id stands twice.
    let _n: usize = g1.entities.len();
    assert(table::distinct_keys(g.entities));
    let r = merge_with_deduplication_strategy(g1, g2, MergeStrategy::KeepExisting);
    proof {
        let strategy = MergeStrategy::KeepExisting;
        let mode = CorefMode::Off;
        assert forall|id: Seq<char>| #[trigger] table::has_key(g.entities, id) implies is_kept(
            g.entities,
            r@.entities,
            id,
        ) by {
            lemma_kept(merging(g.entities), other.entities, mode, seq![], id);
        }
        lemma_labels_of_both(g.entities, other.entities);
        if labels_differ(g.entities) {
            law_labels_stay_distinct(g, other, strategy, mode, seq![]);
        }
        law_relationships_stay_distinct(g, other, strategy, mode, seq![]);
        if crate::types::graph::ids_are_keys(g.entities) {
            assert forall|j: int| g.triples.len() <= j < r@.triples.len() implies table::has_key(
                r@.entities,
                (#[trigger] r@.triples[j]).subject.id,
            ) && table::has_key(r@.entities, r@.triples[j].object.id) by {
                law_ends_are_entities(g, other, strategy, mode, seq![], j);
            }
        }
    }
    r
}

/// Each label of the entities that are taken in is that of an entity.
proof fn lemma_labels_of_both(a: Seq<(Seq<char>, EntityV)>, b: Seq<(Seq<char>, EntityV)>)
    requires
        table::distinct_keys(a),
        ids_are_fresh(merging(a), b, MergeStrategy::KeepExisting, CorefMode::Off, seq![]),
    ensures
        forall|i: int|
            0 <= i < b.len() ==> has_label(
                entities_absorbed(
                    merging(a),
                    b,
                    MergeStrategy::KeepExisting,
                    CorefMode::Off,
                    seq![],
                ).entities,
                (#[trigger] b[i]).1.label,
            ),
{
    let st = merging(a);
    let after = entities_absorbed(st, b, MergeStrategy::KeepExisting, CorefMode::Off, seq![]);
    lemma_labels_told(a);
    lemma_labels_stay_told(st, b, MergeStrategy::KeepExisting, seq![]);
    assert forall|i: int| 0 <= i < b.len() implies has_label(
        after.entities,
        (#[trigger] b[i]).1.label,
    ) by {
        lemma_labels_taken(st, b, MergeStrategy::KeepExisting, CorefMode::Off, seq![], i);
        let l = text::lower(b[i].1.label);
        assert(table::has_key(after.labels, l));
        let k = table::lookup(after.labels, l)->0;
        table::lemma_position(after.entities, k);
        let p = table::position(after.entities, k)->0;
        assert(text::lower(after.entities[p].1.label) == l);
    }
}

/// Each label stands for the id of an entity that has it, in upper or lower case.
spec fn labels_told(st: MergingV) -> bool {
    forall|l: Seq<char>| #[trigger]
        table::has_key(st.labels, l) ==> {
            let k = table::lookup(st.labels, l)->0;
            table::has_key(st.entities, k) && text::lower(table::lookup(st.entities, k)->0.label)
                == l
        }
}

proof fn lemma_labels_told(es: Seq<(Seq<char>, EntityV)>)
    requires
        table::distinct_keys(es),
    ensures
        labels_told(merging(es)),
    decreases es.len(),
{
    let st = merging(es);
    if es.len() > 0 {
        let before = es.drop_last();
        assert(table::distinct_keys(before)) by {
            assert forall|i: int, j: int| 0 <= i < j < before.len() implies (
            #[trigger] before[i]).0 != (#[trigger] before[j]).0 by {
                assert(es[i].0 != es[j].0);
            }
        }
        lemma_labels_told(before);
        assert forall|l: Seq<char>| #[trigger] table::has_key(st.labels, l) implies {
            let k = table::lookup(st.labels, l)->0;
            table::has_key(es, k) && text::lower(table::lookup(es, k)->0.label) == l
        } by {
            let last = text::lower(es.last().1.label);
            table::lemma_lookup_put(label_ids(before), last, es.last().0, l);
            let k = table::lookup(st.labels, l)->0;
            table::lemma_position(es, k);
            if l == last {
                assert(es[es.len() - 1].0 == k);
                assert(table::position(es, k) == Some(es.len() - 1)) by {
                    assert forall|j: int| 0 <= j < es.len() - 1 implies (#[trigger] es[j]).0
                        != k by {
                        assert(es[j].0 != es[es.len() - 1].0);
                    }
                    table::lemma_position_at(es, k, es.len() - 1);
                }
            } else {
                assert(table::has_key(merging(before).labels, l));
                table::lemma_position(before, k);
                let i = table::position(before, k)->0;
                assert(es[i] == before[i]);
                assert forall|j: int| 0 <= j < i implies (#[trigger] es[j]).0 != k by {
                    assert(before[j].0 != k);
                }
                table::lemma_position_at(es, k, i);
            }
        }
    } else {
        assert(table::position(st.labels, seq![]) is None);
    }
}

/// An entity is kept while others are taken in that do not take its place.
proof fn lemma_kept(
    st: MergingV,
    es: Seq<(Seq<char>, EntityV)>,
    mode: CorefMode,
    written: Seq<Option<Seq<char>>>,
    id: Seq<char>,
)
    requires
        ids_are_fresh(st, es, MergeStrategy::KeepExisting, mode, written),
        table::has_key(st.entities, id),
    ensures
        is_kept(
            st.entities,
            entities_absorbed(st, es, MergeStrategy::KeepExisting, mode, written).entities,
            id,
        ),
    decreases es.len(),
{
    if es.len() > 0 {
        let strategy = MergeStrategy::KeepExisting;
        let before = es.drop_last();
        lemma_kept(st, before, mode, written, id);
        let mid = entities_absorbed(st, before, strategy, mode, written);
        let e = es.last().1;
        let w = written_at(written, es.len() - 1);
        match known_as(mid, e, mode) {
            Some(k) => {
                match table::lookup(mid.entities, k) {
                    Some(known) => {
                        table::lemma_lookup_put(
                            mid.entities,
                            k,
                            combined(strategy, known, e, w),
                            id,
                        );
                    },
                    None => {},
                }
            },
            None => {
                let k = if table::has_key(mid.entities, es.last().0) {
                    new_id(mid.entities)
                } else {
                    es.last().0
                };
                table::lemma_lookup_put(mid.entities, k, EntityV { id: k, ..e }, id);
            },
        }
    }
}

proof fn lemma_labels_stay_told(
    st: MergingV,
    es: Seq<(Seq<char>, EntityV)>,
    strategy: MergeStrategy,
    written: Seq<Option<Seq<char>>>,
)
    requires
        labels_told(st),
        ids_are_fresh(st, es, strategy, CorefMode::Off, written),
    ensures
        labels_told(entities_absorbed(st, es, strategy, CorefMode::Off, written)),
    decreases es.len(),
{
    if es.len() > 0 {
        let mode = CorefMode::Off;
        let before = es.drop_last();
        lemma_labels_stay_told(st, before, strategy, written);
        let mid = entities_absorbed(st, before, strategy, mode, written);
        let after = entities_absorbed(st, es, strategy, mode, written);
        let e = es.last().1;
        let w = written_at(written, es.len() - 1);
        let label = text::lower(e.label);
        let chosen = match known_as(mid, e, mode) {
            Some(k) => k,
            None => if table::has_key(mid.entities, es.last().0) {
                new_id(mid.entities)
            } else {
                es.last().0
            },
        };
        assert(after.labels == table::put(mid.labels, label, chosen));
        if known_as(mid, e, mode) is Some {
            assert(table::has_key(mid.labels, label));
        }
        assert forall|l: Seq<char>| #[trigger] table::has_key(after.labels, l) implies {
            let k = table::lookup(after.labels, l)->0;
            table::has_key(after.entities, k) && text::lower(
                table::lookup(after.entities, k)->0.label,
            ) == l
        } by {
            table::lemma_lookup_put(mid.labels, label, chosen, l);
            let k = table::lookup(after.labels, l)->0;
            if l != label {
                assert(table::has_key(mid.labels, l));
            }
            match known_as(mid, e, mode) {
                Some(c) => {
                    let known = table::lookup(mid.entities, c)->0;
                    table::lemma_lookup_put(
                        mid.entities,
                        c,
                        combined(strategy, known, e, w),
                        k,
                    );
                },
                None => {
                    table::lemma_lookup_put(
                        mid.entities,
                        chosen,
                        EntityV { id: chosen, ..e },
                        k,
                    );
                },
            }
        }
    }
}

/// The label of each entity that was taken in stands for something.
proof fn lemma_labels_taken(
    st: MergingV,
    es: Seq<(Seq<char>, EntityV)>,
    strategy: MergeStrategy,
    mode: CorefMode,
    written: Seq<Option<Seq<char>>>,
    i: int,
)
    requires
        0 <= i < es.len(),
    ensures
        table::has_key(
            entities_absorbed(st, es, strategy, mode, written).labels,
            text::lower(es[i].1.label),
        ),
    decreases es.len(),
{
    let before = es.drop_last();
    let mid = entities_absorbed(st, before, strategy, mode, written);
    let after = entities_absorbed(st, es, strategy, mode, written);
    let label = text::lower(es.last().1.label);
    if i < before.len() {
        lemma_labels_taken(st, before, strategy, mode, written, i);
    }
    let k = match known_as(mid, es.last().1, mode) {
        Some(k) => k,
        None => if table::has_key(mid.entities, es.last().0) {
            new_id(mid.entities)
        } else {
            es.last().0
        },
    };
    assert(after.labels == table::put(mid.labels, label, k));
    table::lemma_lookup_put(mid.labels, label, k, text::lower(es[i].1.label));
}

/// No two entities of `es` have labels that differ in upper and lower case alone.
pub open spec fn labels_differ(es: Seq<(Seq<char>, EntityV)>) -> bool {
    forall|i: int, j: int|
        0 <= i < j < es.len() ==> text::lower((#[trigger] es[i]).1.label) != text::lower(
            (#[trigger] es[j]).1.label,
        )
}

/// Each entity is the one that its label stands for.
spec fn entities_told(st: MergingV) -> bool {
    &&& table::distinct_keys(st.entities)
    &&& forall|i: int|
        0 <= i < st.entities.len() ==> table::lookup(
            st.labels,
            text::lower((#[trigger] st.entities[i]).1.label),
        ) == Some(st.entities[i].0)
}

proof fn lemma_entities_told(es: Seq<(Seq<char>, EntityV)>)
    requires
        table::distinct_keys(es),
        labels_differ(es),
    ensures
        entities_told(merging(es)),
    decreases es.len(),
{
    if es.len() > 0 {
        let before = es.drop_last();
        assert forall|i: int, j: int| 0 <= i < j < before.len() implies (#[trigger] before[i]).0
            != (#[trigger] before[j]).0 && text::lower(before[i].1.label) != text::lower(
            before[j].1.label,
        ) by {
            assert(es[i].0 != es[j].0);
            assert(text::lower(es[i].1.label) != text::lower(es[j].1.label));
        }
        lemma_entities_told(before);
        let last = text::lower(es.last().1.label);
        assert forall|i: int| 0 <= i < es.len() implies table::lookup(
            label_ids(es),
            text::lower((#[trigger] es[i]).1.label),
        ) == Some(es[i].0) by {
            let l = text::lower(es[i].1.label);
            table::lemma_lookup_put(label_ids(before), last, es.last().0, l);
            if i < before.len() {
                assert(merging(before).entities[i] == es[i]);
                assert(text::lower(es[i].1.label) != text::lower(es[es.len() - 1].1.label));
            }
        }
    }
}

proof fn lemma_entities_stay_told(
    st: MergingV,
    es: Seq<(Seq<char>, EntityV)>,
    strategy: MergeStrategy,
    mode: CorefMode,
    written: Seq<Option<Seq<char>>>,
)
    requires
        entities_told(st),
    ensures
        entities_told(entities_absorbed(st, es, strategy, mode, written)),
    decreases es.len(),
{
    if es.len() > 0 {
        let before = es.drop_last();
        lemma_entities_stay_told(st, before, strategy, mode, written);
        let mid = entities_absorbed(st, before, strategy, mode, written);
        let after = entities_absorbed(st, es, strategy, mode, written);
        let e = es.last().1;
        let w = written_at(written, es.len() - 1);
        let label = text::lower(e.label);
        let chosen = match known_as(mid, e, mode) {
            Some(k) => k,
            None => if table::has_key(mid.entities, es.last().0) {
                new_id(mid.entities)
            } else {
                es.last().0
            },
        };
        assert(after.labels == table::put(mid.labels, label, chosen));
        table::lemma_position(mid.entities, chosen);
        match known_as(mid, e, mode) {
            Some(k) => {
                match table::lookup(mid.entities, k) {
                    Some(known) => {
                        table::lemma_put_distinct(
                            mid.entities,
                            k,
                            combined(strategy, known, e, w),
                        );
                    },
                    None => {},
                }
            },
            None => {
                table::lemma_put_distinct(mid.entities, chosen, EntityV { id: chosen, ..e });
            },
        }
        assert forall|i: int| 0 <= i < after.entities.len() implies table::lookup(
            after.labels,
            text::lower((#[trigger] after.entities[i]).1.label),
        ) == Some(after.entities[i].0) by {
            let l = text::lower(after.entities[i].1.label);
            table::lemma_lookup_put(mid.labels, label, chosen, l);
            if after.entities[i].0 != chosen {
                assert(after.entities[i] == mid.entities[i]);
            } else if i < mid.entities.len() {
                assert(mid.entities[i].0 == chosen);
                assert(table::lookup(mid.labels, text::lower(mid.entities[i].1.label)) == Some(
                    chosen,
                ));
            }
        }
    }
}

/// A merge brings in no second entity with a label that is there: where no two
/// entities of the first graph have labels that differ in upper and lower case alone,
/// no two entities of the result have.
pub proof fn law_labels_stay_distinct(
    g: GraphV,
    other: GraphV,
    strategy: MergeStrategy,
    mode: CorefMode,
    written: Seq<Option<Seq<char>>>,
)
    requires
        table::distinct_keys(g.entities),
        labels_differ(g.entities),
    ensures
        labels_differ(deduplicated_with(g, other, strategy, mode, written).entities),
        table::distinct_keys(deduplicated_with(g, other, strategy, mode, written).entities),
{
    lemma_entities_told(g.entities);
    lemma_entities_stay_told(merging(g.entities), other.entities, strategy, mode, written);
    let es = deduplicated_with(g, other, strategy, mode, written).entities;
    assert forall|i: int, j: int| 0 <= i < j < es.len() implies text::lower(
        (#[trigger] es[i]).1.label,
    ) != text::lower((#[trigger] es[j]).1.label) by {
        assert(es[i].0 != es[j].0);
    }
}

/// No two relationships of `ts` are the same one.
pub open spec fn keys_differ(ts: Seq<TripleV>) -> bool {
    forall|i: int, j: int|
        0 <= i < j < ts.len() ==> crate::types::graph::triple_key(#[trigger] ts[i])
            != crate::types::graph::triple_key(#[trigger] ts[j])
}

/// A merge after each of the first `n` entities of a graph was taken into itself.
proof fn lemma_taken_into_itself(es: Seq<(Seq<char>, EntityV)>, n: int)
    requires
        table::distinct_keys(es),
        labels_differ(es),
        0 <= n <= es.len(),
    ensures
        ({
            let st = entities_absorbed(
                merging(es),
                es.take(n),
                MergeStrategy::KeepExisting,
                CorefMode::Off,
                seq![],
            );
            &&& st.entities == es
            &&& entities_told(st)
            &&& forall|id: Seq<char>| #[trigger]
                table::has_key(st.renamed, id) ==> table::lookup(st.renamed, id) == Some(id)
        }),
    decreases n,
{
    let strategy = MergeStrategy::KeepExisting;
    let mode = CorefMode::Off;
    let start = merging(es);
    lemma_entities_told(es);
    lemma_entities_stay_told(start, es.take(n), strategy, mode, seq![]);
    if n > 0 {
        lemma_taken_into_itself(es, n - 1);
        assert(es.take(n).drop_last() =~= es.take(n - 1));
        let mid = entities_absorbed(start, es.take(n - 1), strategy, mode, seq![]);
        let after = entities_absorbed(start, es.take(n), strategy, mode, seq![]);
        let (id, e) = es[n - 1];
        assert(es.take(n).last() == es[n - 1]);
        assert(mid.entities[n - 1] == es[n - 1]);
        assert(table::lookup(mid.labels, text::lower(e.label)) == Some(id));
        assert forall|j: int| 0 <= j < n - 1 implies (#[trigger] es[j]).0 != id by {
            assert(es[j].0 != es[n - 1].0);
        }
        table::lemma_position_at(es, id, n - 1);
        citation::law_united_with_itself(e.metadata);
        assert(combined(strategy, e, e, written_at(seq![], n - 1)) == e);
        assert(table::put(es, id, e) =~= es);
        assert forall|k: Seq<char>| #[trigger] table::has_key(after.renamed, k) implies table::lookup(
            after.renamed,
            k,
        ) == Some(k) by {
            table::lemma_lookup_put(mid.renamed, id, id, k);
            if k != id {
                assert(table::has_key(mid.renamed, k));
            }
        }
    } else {
        assert(es.take(0) =~= seq![]);
    }
}

/// No relationship cites what the first one that is the same does not.
pub open spec fn nothing_to_unite(ts: Seq<TripleV>) -> bool {
    forall|i: int|
        0 <= i < ts.len() ==> #[trigger] first_cites_all(ts, i)
}

/// The first relationship of `ts` that is the same as the one at `i` cites all that this
/// one cites.
pub open spec fn first_cites_all(ts: Seq<TripleV>, i: int) -> bool {
    match first_same(ts, ts[i], 0) {
        Some(f) => citation::united(ts[f].metadata, ts[i].metadata) == ts[f].metadata,
        None => true,
    }
}

/// `r` are the relationships `ts`, but for what is noted on them; they are `ts` where
/// there is nothing to unite.
pub open spec fn same_relationships(r: Seq<TripleV>, ts: Seq<TripleV>) -> bool {
    &&& r.len() == ts.len()
    &&& forall|i: int|
        0 <= i < ts.len() ==> (#[trigger] r[i]) == (TripleV { metadata: r[i].metadata, ..ts[i] })
    &&& nothing_to_unite(ts) ==> r == ts
}

/// Where no two relationships are the same one, there is nothing to unite.
proof fn lemma_distinct_unite_nothing(ts: Seq<TripleV>)
    requires
        keys_differ(ts),
    ensures
        nothing_to_unite(ts),
{
    assert forall|i: int| 0 <= i < ts.len() implies #[trigger] first_cites_all(ts, i) by {
        lemma_first_same(ts, ts[i], 0);
        let f = first_same(ts, ts[i], 0)->0;
        if f < i {
            assert(crate::types::graph::triple_key(ts[f]) != crate::types::graph::triple_key(
                ts[i],
            ));
        }
        citation::law_united_with_itself(ts[i].metadata);
    }
}

proof fn lemma_tied_to_itself(st: MergingV, ts: Seq<TripleV>, n: int)
    requires
        0 <= n <= ts.len(),
        crate::types::graph::ids_are_keys(st.entities),
        forall|id: Seq<char>| #[trigger]
            table::has_key(st.renamed, id) ==> table::lookup(st.renamed, id) == Some(id),
    ensures
        same_relationships(triples_absorbed(st, ts, ts.take(n)), ts),
    decreases n,
{
    if n > 0 {
        lemma_tied_to_itself(st, ts, n - 1);
        assert(ts.take(n).drop_last() =~= ts.take(n - 1));
        assert(ts.take(n).last() == ts[n - 1]);
        let m = triples_absorbed(st, ts, ts.take(n - 1));
        let r = triples_absorbed(st, ts, ts.take(n));
        let t = ts[n - 1];
        match (end_of(st, t.subject.id), end_of(st, t.object.id)) {
            (Some(s), Some(o)) => {
                lemma_end_is_itself(st, t.subject.id);
                lemma_end_is_itself(st, t.object.id);
                let u = TripleV { subject: s, object: o, ..t };
                lemma_first_same(m, u, 0);
                assert(m[n - 1] == (TripleV { metadata: m[n - 1].metadata, ..ts[n - 1] }));
                assert(crate::types::graph::triple_key(m[n - 1])
                    == crate::types::graph::triple_key(u));
                let i = first_same(m, u, 0)->0;
                assert(0 <= i <= n - 1);
                assert forall|j: int| 0 <= j < ts.len() implies (#[trigger] r[j]) == (TripleV {
                    metadata: r[j].metadata,
                    ..ts[j]
                }) by {
                    assert(m[j] == (TripleV { metadata: m[j].metadata, ..ts[j] }));
                }
                if nothing_to_unite(ts) {
                    assert(first_cites_all(ts, n - 1));
                    lemma_first_same(ts, t, 0);
                    assert(first_same(ts, t, 0) == Some(i));
                    assert(r =~= ts);
                }
            },
            _ => {},
        }
    } else {
        assert(ts.take(0) =~= seq![]);
        assert forall|i: int| 0 <= i < ts.len() implies (#[trigger] ts[i]) == (TripleV {
            metadata: ts[i].metadata,
            ..ts[i]
        }) by {}
    }
}

proof fn lemma_end_is_itself(st: MergingV, id: Seq<char>)
    requires
        crate::types::graph::ids_are_keys(st.entities),
        forall|id: Seq<char>| #[trigger]
            table::has_key(st.renamed, id) ==> table::lookup(st.renamed, id) == Some(id),
    ensures
        end_of(st, id) is Some ==> end_of(st, id)->0.id == id,
{
    if table::lookup(st.renamed, id) is Some {
        assert(table::has_key(st.renamed, id));
    }
    table::lemma_position(st.entities, id);
}

/// Merging a graph into itself adds nothing. The entities stay, and so do the
/// relationships; of two that are the same one the first has the citations of both.
/// Where it has them already, or where no two are the same one, nothing changes at all.
pub proof fn law_merged_with_itself(g: GraphV)
    requires
        table::distinct_keys(g.entities),
        crate::types::graph::ids_are_keys(g.entities),
        labels_differ(g.entities),
    ensures
        ({
            let r = deduplicated(g, g, MergeStrategy::KeepExisting, CorefMode::Off);
            &&& r.entities == g.entities
            &&& r.metadata == g.metadata
            &&& same_relationships(r.triples, g.triples)
            &&& nothing_to_unite(g.triples) || keys_differ(g.triples) ==> r == g
        }),
{
    let n = g.entities.len() as int;
    lemma_taken_into_itself(g.entities, n);
    assert(g.entities.take(n) =~= g.entities);
    let st = entities_absorbed(
        merging(g.entities),
        g.entities,
        MergeStrategy::KeepExisting,
        CorefMode::Off,
        seq![],
    );
    lemma_tied_to_itself(st, g.triples, g.triples.len() as int);
    if keys_differ(g.triples) {
        lemma_distinct_unite_nothing(g.triples);
    }
    assert(g.triples.take(g.triples.len() as int) =~= g.triples);
}

/// A graph with nothing but the values of `g`.
pub open spec fn emptied(g: GraphV) -> GraphV {
    GraphV { metadata: g.metadata, ..crate::types::graph::empty_graph() }
}

/// Merge a graph into itself: entities that are found to be one thing are combined,
/// and each relationship stays once.
pub fn dedup_graph_coref(kg: KnowledgeGraph, strategy: MergeStrategy, mode: CorefMode) -> (r:
    KnowledgeGraph)
    ensures
        r@ == deduplicated(emptied(kg@), kg@, strategy, mode),
{
    MergeSession::within(kg, strategy, mode).finish()
}

/// Merge `graph2` into `graph1`, by label where `merge_duplicates`, and by id
/// elsewhere.
pub fn merge_knowledge_graphs(
    graph1: KnowledgeGraph,
    graph2: KnowledgeGraph,
    merge_duplicates: bool,
) -> (r: KnowledgeGraph)
    ensures
        r@ == if merge_duplicates {
            deduplicated(graph1@, graph2@, MergeStrategy::KeepExisting, CorefMode::Off)
        } else {
            crate::types::graph::graph_merged(graph1@, graph2@)
        },
{
    if merge_duplicates {
        merge_with_deduplication(graph1, graph2)
    } else {
        let mut g = graph1;
        g.merge(graph2);
        g
    }
}

/// All graphs together have every entity and every relationship of each of them, and one
/// graph alone stays as it is.
pub proof fn law_all_graphs_are_merged(gs: Seq<GraphV>, i: int, id: Seq<char>, j: int)
    requires
        0 <= i < gs.len(),
        forall|k: int| 0 <= k < gs.len() ==> table::distinct_keys((#[trigger] gs[k]).entities),
    ensures
        gs.len() == 1 ==> all_merged(gs) == gs[i],
        table::has_key(gs[i].entities, id) ==> table::has_key(all_merged(gs).entities, id),
        0 <= j < gs[i].triples.len() ==> crate::types::graph::has_triple(
            all_merged(gs).triples,
            gs[i].triples[j],
        ),
    decreases gs.len(),
{
    if gs.len() == 1 {
        if 0 <= j < gs[0].triples.len() {
            assert(crate::types::graph::has_triple(gs[0].triples, gs[0].triples[j]));
        }
    } else {
        let before = gs.drop_last();
        let first = all_merged(before);
        assert forall|k: int| 0 <= k < before.len() implies table::distinct_keys(
            (#[trigger] before[k]).entities,
        ) by {
            assert(before[k] == gs[k]);
        }
        assert(gs[gs.len() - 1] == gs.last());
        crate::types::graph::law_merge_by_id_loses_nothing(first, gs.last(), id, j);
        if i < before.len() {
            assert(before[i] == gs[i]);
            law_all_graphs_are_merged(before, i, id, j);
            let r = all_merged(gs);
            if 0 <= j < gs[i].triples.len() {
                let n = first.triples.len() as int;
                assert forall|k: int| 0 <= k < n implies first.triples[k] == #[trigger]
                    r.triples[k] by {
                    assert(r.triples.take(n)[k] == r.triples[k]);
                }
            }
        }
    }
}

/// The first of the graphs with the others merged into it, one after the other, by
/// id; the empty graph where there are none.
pub open spec fn all_merged(gs: Seq<GraphV>) -> GraphV
    decreases gs.len(),
{
    if gs.len() == 0 {
        crate::types::graph::empty_graph()
    } else if gs.len() == 1 {
        gs[0]
    } else {
        crate::types::graph::graph_merged(all_merged(gs.drop_last()), gs.last())
    }
}

/// Merge graphs by id, from the first to the last.
pub fn merge_all(graphs: Vec<KnowledgeGraph>) -> (r: KnowledgeGraph)
    ensures
        r@ == all_merged(seqs::views(graphs@)),
{
    let ghost gs = seqs::views(graphs@);
    if graphs.len() == 0 {
        return KnowledgeGraph::new();
    }
    let mut acc = graphs[0].dup();
    let mut i: usize = 1;
    assert(gs.take(1)[0] == acc@);
    while i < graphs.len()
        invariant
            1 <= i <= graphs@.len(),
            gs == seqs::views(graphs@),
            acc@ == all_merged(gs.take(i as int)),
        decreases graphs.len() - i,
    {
        assert(gs.take(i + 1).drop_last() =~= gs.take(i as int));
        acc.merge(graphs[i].dup());
        i += 1;
    }
    assert(gs.take(i as int) =~= gs);
    acc
}

/// The ids of the entities of `es` other than `e` whose label differs from that of
/// `e` in upper and lower case alone.
pub open spec fn similar(e: EntityV, es: Seq<EntityV>) -> Seq<Seq<char>>
    decreases es.len(),
{
    if es.len() == 0 {
        seq![]
    } else {
        let found = similar(e, es.drop_last());
        if es.last().id != e.id && text::lower(es.last().label) == text::lower(e.label) {
            found.push(es.last().id)
        } else {
            found
        }
    }
}

/// The ids of the other entities with the label of `entity`, in upper or lower case.
pub fn find_similar_entities(entity: &Entity, entities: &Vec<Entity>) -> (r: Vec<String>)
    ensures
        seqs::views(r@) == similar(entity@, seqs::views(entities@)),
{
    let ghost es = seqs::views(entities@);
    let target = text::to_lower(entity.label.as_str());
    let mut out: Vec<String> = Vec::new();
    let mut i: usize = 0;
    while i < entities.len()
        invariant
            i <= entities@.len(),
            es == seqs::views(entities@),
            target@ == text::lower(entity@.label),
            seqs::views(out@) == similar(entity@, es.take(i as int)),
        decreases entities.len() - i,
    {
        assert(es.take(i + 1).drop_last() =~= es.take(i as int));
        assert(es.take(i + 1).last() == entities@[i as int]@);
        let e = &entities[i];
        if !text::same(e.id.as_str(), entity.id.as_str()) && text::same(
            text::to_lower(e.label.as_str()).as_str(),
            target.as_str(),
        ) {
            out.push(e.id.clone());
        }
        i += 1;
    }
    assert(es.take(i as int) =~= es);
    out
}

/// Of two types of predicate that say the same in opposite directions the one that
/// is used; every other type itself.
pub open spec fn canonical(t: PredicateType) -> PredicateType {
    match t {
        PredicateType::Uses => PredicateType::IsUsedBy,
        PredicateType::ComposedOf => PredicateType::PartOf,
        PredicateType::Precedes => PredicateType::Succeeds,
        PredicateType::Measures => PredicateType::MeasuredBy,
        _ => t,
    }
}

/// Of two types of predicate that say the same in opposite directions the one that
/// is used.
pub fn canonical_predicate(t: PredicateType) -> (r: PredicateType)
    ensures
        r == canonical(t),
{
    match t {
        PredicateType::Uses => PredicateType::IsUsedBy,
        PredicateType::ComposedOf => PredicateType::PartOf,
        PredicateType::Precedes => PredicateType::Succeeds,
        PredicateType::Measures => PredicateType::MeasuredBy,
        _ => t,
    }
}

/// The name under which the type stands that a turned predicate had.
pub const DIRECTION_KEY: &'static str = "direction_normalized_from";

/// A relationship in the direction that is used: turned round where its predicate
/// is the other one of its pair.
pub open spec fn turned(t: TripleV) -> TripleV {
    let to = canonical(t.predicate.predicate_type);
    if to == t.predicate.predicate_type {
        t
    } else {
        TripleV {
            subject: t.object,
            object: t.subject,
            predicate: PredicateV {
                predicate_type: to,
                label: None,
                raw_type: None,
                metadata: table::put(
                    t.predicate.metadata,
                    DIRECTION_KEY@,
                    JsonV::Text(crate::types::graph::predicate_output_type(t.predicate)),
                ),
                ..t.predicate
            },
            ..t
        }
    }
}

/// A graph whose relationships all have the direction that is used.
pub open spec fn directed(g: GraphV) -> GraphV {
    GraphV { triples: Seq::new(g.triples.len(), |i: int| turned(g.triples[i])), ..g }
}

/// Turn the relationships of `kg` round that have not the direction that is used.
pub fn normalize_direction(kg: &mut KnowledgeGraph)
    ensures
        final(kg)@ == directed(old(kg)@),
{
    let ghost before = kg@;
    let ghost after = directed(kg@);
    let m: usize = kg.triples.len();
    let mut j: usize = 0;
    while j < m
        invariant
            j <= m,
            m == kg.triples@.len(),
            after == directed(before),
            before.triples.len() == m,
            kg.entities@ == before.entities,
            kg.metadata@ == before.metadata,
            seqs::views(kg.triples@) =~= after.triples.take(j as int) + before.triples.skip(
                j as int,
            ),
        decreases m - j,
    {
        let t = kg.triples[j].dup();
        assert(seqs::views(kg.triples@)[j as int] == t@);
        assert(t@ == before.triples[j as int]);
        let ghost given = t@;
        let to = canonical_predicate(t.predicate.predicate_type);
        if to != t.predicate.predicate_type {
            let from = t.predicate.output_type();
            let Triple { subject, predicate, object, confidence, metadata } = t;
            let mut values = predicate.metadata;
            values.insert(DIRECTION_KEY.to_owned(), Json::Text(from));
            let p = Predicate {
                predicate_type: to,
                label: None,
                raw_type: None,
                confidence: predicate.confidence,
                metadata: values,
            };
            let u = Triple { subject: object, predicate: p, object: subject, confidence, metadata };
            assert(u@ == turned(given));
            kg.triples.set(j, u);
        }
        j += 1;
    }
    assert(seqs::views(kg.triples@) =~= after.triples);
}

/// To turn relationships round twice is to turn them round once.
pub proof fn law_direction_is_settled(g: GraphV)
    ensures
        directed(directed(g)) == directed(g),
{
    assert forall|t: TripleV| #[trigger] turned(turned(t)) == turned(t) by {}
    assert(directed(directed(g)).triples =~= directed(g).triples);
}

/// A relationship and the one that says the same in the opposite direction are the
/// same relationship once both are turned.
pub proof fn law_directions_meet(t: TripleV, u: TripleV)
    requires
        t.subject.id == u.object.id,
        t.object.id == u.subject.id,
        t.predicate.predicate_type != u.predicate.predicate_type,
        canonical(t.predicate.predicate_type) == canonical(u.predicate.predicate_type),
    ensures
        crate::types::graph::triple_key(turned(t)) == crate::types::graph::triple_key(turned(u)),
{
}

/// Every id that stands for something in a merge under way is one of an entity.
pub open spec fn all_known(st: MergingV) -> bool {
    &&& forall|l: Seq<char>| #[trigger]
        table::has_key(st.labels, l) ==> table::has_key(
            st.entities,
            table::lookup(st.labels, l)->0,
        )
    &&& forall|id: Seq<char>| #[trigger]
        table::has_key(st.renamed, id) ==> table::has_key(
            st.entities,
            table::lookup(st.renamed, id)->0,
        )
}

proof fn lemma_label_ids_known(es: Seq<(Seq<char>, EntityV)>, l: Seq<char>)
    ensures
        table::has_key(label_ids(es), l) ==> table::has_key(
            es,
            table::lookup(label_ids(es), l)->0,
        ),
    decreases es.len(),
{
    if es.len() > 0 {
        let before = es.drop_last();
        lemma_label_ids_known(before, l);
        table::lemma_lookup_put(label_ids(before), text::lower(es.last().1.label), es.last().0, l);
        table::lemma_position(es, es.last().0);
        if table::has_key(label_ids(es), l) {
            let k = table::lookup(label_ids(es), l)->0;
            table::lemma_position(es, k);
            table::lemma_position(before, k);
            if l != text::lower(es.last().1.label) {
                let i = table::position(before, k)->0;
                assert(es[i].0 == k);
            } else {
                assert(es[es.len() - 1].0 == k);
            }
        }
    }
}

proof fn lemma_absorbed_known(
    st: MergingV,
    id: Seq<char>,
    e: EntityV,
    strategy: MergeStrategy,
    mode: CorefMode,
    written: Option<Seq<char>>,
)
    requires
        all_known(st),
    ensures
        all_known(entity_absorbed(st, id, e, strategy, mode, written)),
        table::has_key(entity_absorbed(st, id, e, strategy, mode, written).renamed, id),
        forall|k: Seq<char>| #[trigger]
            table::has_key(st.entities, k) ==> table::has_key(
                entity_absorbed(st, id, e, strategy, mode, written).entities,
                k,
            ),
        forall|k: Seq<char>| #[trigger]
            table::has_key(st.renamed, k) ==> table::has_key(
                entity_absorbed(st, id, e, strategy, mode, written).renamed,
                k,
            ),
{
    let after = entity_absorbed(st, id, e, strategy, mode, written);
    let label = text::lower(e.label);
    match known_as(st, e, mode) {
        Some(k) => {
            if table::lookup(st.labels, label) is None {
                lemma_coreferent_stands(st.entities, e);
                let i = coref::coreferent(st.entities, e)->0;
                table::lemma_position(st.entities, st.entities[i].0);
            } else {
                assert(table::has_key(st.labels, label));
            }
            assert(table::has_key(st.entities, k));
        },
        None => {},
    }
    let chosen = match known_as(st, e, mode) {
        Some(k) => k,
        None => if table::has_key(st.entities, id) {
            new_id(st.entities)
        } else {
            id
        },
    };
    assert(after.labels == table::put(st.labels, label, chosen));
    assert(after.renamed == table::put(st.renamed, id, chosen));
    assert forall|x: Seq<char>| (table::has_key(st.entities, x) || x == chosen)
        implies #[trigger] table::has_key(after.entities, x) by {
        match known_as(st, e, mode) {
            Some(k) => {
                match table::lookup(st.entities, k) {
                    Some(known) => {
                        table::lemma_lookup_put(
                            st.entities,
                            k,
                            combined(strategy, known, e, written),
                            x,
                        );
                    },
                    None => {},
                }
            },
            None => {
                table::lemma_lookup_put(st.entities, chosen, EntityV { id: chosen, ..e }, x);
            },
        }
    }
    assert forall|l: Seq<char>| #[trigger] table::has_key(after.labels, l) implies table::has_key(
        after.entities,
        table::lookup(after.labels, l)->0,
    ) by {
        table::lemma_lookup_put(st.labels, label, chosen, l);
        if l != label {
            assert(table::has_key(st.labels, l));
            assert(table::has_key(st.entities, table::lookup(st.labels, l)->0));
        }
    }
    assert forall|x: Seq<char>| #[trigger] table::has_key(after.renamed, x) implies table::has_key(
        after.entities,
        table::lookup(after.renamed, x)->0,
    ) by {
        table::lemma_lookup_put(st.renamed, id, chosen, x);
        if x != id {
            assert(table::has_key(st.renamed, x));
            assert(table::has_key(st.entities, table::lookup(st.renamed, x)->0));
        }
    }
    table::lemma_lookup_put(st.renamed, id, chosen, id);
    assert forall|x: Seq<char>| #[trigger] table::has_key(st.renamed, x) implies table::has_key(
        after.renamed,
        x,
    ) by {
        table::lemma_lookup_put(st.renamed, id, chosen, x);
    }
}

proof fn lemma_first_alike_stands(
    es: Seq<(Seq<char>, EntityV)>,
    e: EntityV,
    l: coref::Likeness,
    from: int,
)
    requires
        0 <= from,
    ensures
        coref::first_alike(es, e, l, from) is Some ==> 0 <= coref::first_alike(es, e, l, from)->0
            < es.len(),
    decreases es.len() - from,
{
    if from < es.len() {
        lemma_first_alike_stands(es, e, l, from + 1);
    }
}

proof fn lemma_coreferent_stands(es: Seq<(Seq<char>, EntityV)>, e: EntityV)
    ensures
        coref::coreferent(es, e) is Some ==> 0 <= coref::coreferent(es, e)->0 < es.len(),
{
    lemma_first_alike_stands(es, e, coref::Likeness::Same, 0);
    lemma_first_alike_stands(es, e, coref::Likeness::Words, 0);
    lemma_first_alike_stands(es, e, coref::Likeness::Spelling, 0);
}

/// No entity is lost: every id of the first graph is an id of the result, and every
/// entity of the second graph is stood for by one of the result.
pub proof fn law_no_entity_lost(
    g: GraphV,
    other: GraphV,
    strategy: MergeStrategy,
    mode: CorefMode,
    written: Seq<Option<Seq<char>>>,
    id: Seq<char>,
)
    ensures
        table::has_key(g.entities, id) ==> table::has_key(
            deduplicated_with(g, other, strategy, mode, written).entities,
            id,
        ),
        table::has_key(other.entities, id) ==> end_of(
            entities_absorbed(merging(g.entities), other.entities, strategy, mode, written),
            id,
        ) is Some,
{
    let st = merging(g.entities);
    assert(all_known(st)) by {
        assert forall|l: Seq<char>| #[trigger] table::has_key(st.labels, l) implies table::has_key(
            st.entities,
            table::lookup(st.labels, l)->0,
        ) by {
            lemma_label_ids_known(g.entities, l);
        }
    }
    lemma_all_absorbed_known(st, other.entities, strategy, mode, written, id);
    let after = entities_absorbed(st, other.entities, strategy, mode, written);
    if table::has_key(other.entities, id) {
        assert(table::has_key(after.renamed, id));
        assert(table::has_key(after.entities, table::lookup(after.renamed, id)->0));
    }
}

proof fn lemma_all_absorbed_known(
    st: MergingV,
    es: Seq<(Seq<char>, EntityV)>,
    strategy: MergeStrategy,
    mode: CorefMode,
    written: Seq<Option<Seq<char>>>,
    id: Seq<char>,
)
    requires
        all_known(st),
    ensures
        all_known(entities_absorbed(st, es, strategy, mode, written)),
        table::has_key(st.entities, id) ==> table::has_key(
            entities_absorbed(st, es, strategy, mode, written).entities,
            id,
        ),
        table::has_key(es, id) ==> table::has_key(
            entities_absorbed(st, es, strategy, mode, written).renamed,
            id,
        ),
    decreases es.len(),
{
    if es.len() > 0 {
        let before = es.drop_last();
        lemma_all_absorbed_known(st, before, strategy, mode, written, id);
        let mid = entities_absorbed(st, before, strategy, mode, written);
        lemma_absorbed_known(
            mid,
            es.last().0,
            es.last().1,
            strategy,
            mode,
            written_at(written, es.len() - 1),
        );
        table::lemma_position(es, id);
        table::lemma_position(before, id);
        if table::has_key(es, id) && es.last().0 != id {
            let i = table::position(es, id)->0;
            assert(before[i].0 == id);
        }
    }
}

/// Where each entity of the first graph stands under its own id, so does each
/// entity of the result.
pub proof fn law_ids_stay_keys(
    g: GraphV,
    other: GraphV,
    strategy: MergeStrategy,
    mode: CorefMode,
    written: Seq<Option<Seq<char>>>,
)
    requires
        crate::types::graph::ids_are_keys(g.entities),
    ensures
        crate::types::graph::ids_are_keys(deduplicated_with(g, other, strategy, mode, written).entities),
{
    lemma_ids_stay_keys(merging(g.entities), other.entities, strategy, mode, written);
}

proof fn lemma_ids_stay_keys(
    st: MergingV,
    es: Seq<(Seq<char>, EntityV)>,
    strategy: MergeStrategy,
    mode: CorefMode,
    written: Seq<Option<Seq<char>>>,
)
    requires
        crate::types::graph::ids_are_keys(st.entities),
    ensures
        crate::types::graph::ids_are_keys(entities_absorbed(st, es, strategy, mode, written).entities),
    decreases es.len(),
{
    if es.len() > 0 {
        let before = es.drop_last();
        lemma_ids_stay_keys(st, before, strategy, mode, written);
        let mid = entities_absorbed(st, before, strategy, mode, written);
        let e = es.last().1;
        match known_as(mid, e, mode) {
            Some(k) => {
                table::lemma_position(mid.entities, k);
            },
            None => {
                let k = if table::has_key(mid.entities, es.last().0) {
                    new_id(mid.entities)
                } else {
                    es.last().0
                };
                table::lemma_position(mid.entities, k);
            },
        }
    }
}

/// The relationships of the first graph stay, each in its place and the same one;
/// each of the others is between entities of the result, and no earlier one is the
/// same.
pub proof fn law_relationships_stay_distinct(
    g: GraphV,
    other: GraphV,
    strategy: MergeStrategy,
    mode: CorefMode,
    written: Seq<Option<Seq<char>>>,
)
    ensures
        ({
            let r = deduplicated_with(g, other, strategy, mode, written);
            &&& r.triples.len() >= g.triples.len()
            &&& forall|i: int|
                0 <= i < g.triples.len() ==> crate::types::graph::triple_key(
                    #[trigger] r.triples[i],
                ) == crate::types::graph::triple_key(g.triples[i])
            &&& forall|i: int, j: int|
                0 <= i < j < r.triples.len() && g.triples.len() <= j
                    ==> crate::types::graph::triple_key(#[trigger] r.triples[i])
                    != crate::types::graph::triple_key(#[trigger] r.triples[j])
            &&& forall|j: int|
                g.triples.len() <= j < r.triples.len() ==> stands_between(
                    r.entities,
                    #[trigger] r.triples[j],
                )
        }),
{
    let st = entities_absorbed(merging(g.entities), other.entities, strategy, mode, written);
    lemma_triples_absorbed(st, g.triples, other.triples);
}

/// Where the entities of the first graph stand under their own ids, the ids of both
/// ends of a relationship that is added are ids of entities of the result.
pub proof fn law_ends_are_entities(
    g: GraphV,
    other: GraphV,
    strategy: MergeStrategy,
    mode: CorefMode,
    written: Seq<Option<Seq<char>>>,
    j: int,
)
    requires
        crate::types::graph::ids_are_keys(g.entities),
        g.triples.len() <= j < deduplicated_with(g, other, strategy, mode, written).triples.len(),
    ensures
        ({
            let r = deduplicated_with(g, other, strategy, mode, written);
            &&& table::has_key(r.entities, r.triples[j].subject.id)
            &&& table::has_key(r.entities, r.triples[j].object.id)
        }),
{
    let r = deduplicated_with(g, other, strategy, mode, written);
    law_relationships_stay_distinct(g, other, strategy, mode, written);
    law_ids_stay_keys(g, other, strategy, mode, written);
    let t = r.triples[j];
    assert(stands_between(r.entities, t));
    table::lemma_position(r.entities, t.subject.id);
    table::lemma_position(r.entities, t.object.id);
    let a = choose|i: int| 0 <= i < r.entities.len() && #[trigger] r.entities[i].1 == t.subject;
    let b = choose|i: int| 0 <= i < r.entities.len() && #[trigger] r.entities[i].1 == t.object;
    assert(r.entities[a].0 == t.subject.id);
    assert(r.entities[b].0 == t.object.id);
}

/// The entity `id` of `es` has the label `label`, in upper or lower case.
pub open spec fn is_labelled(
    es: Seq<(Seq<char>, EntityV)>,
    id: Seq<char>,
    label: Seq<char>,
) -> bool {
    match table::lookup(es, id) {
        Some(e) => text::lower(e.label) == text::lower(label),
        None => false,
    }
}

/// An id of the second graph stands for what the label of its entity stands for.
proof fn lemma_renamed_by_label(
    st: MergingV,
    es: Seq<(Seq<char>, EntityV)>,
    strategy: MergeStrategy,
    written: Seq<Option<Seq<char>>>,
    i: int,
)
    requires
        table::distinct_keys(es),
        0 <= i < es.len(),
    ensures
        ({
            let after = entities_absorbed(st, es, strategy, CorefMode::Off, written);
            &&& table::lookup(after.renamed, es[i].0) is Some
            &&& table::lookup(after.renamed, es[i].0) == table::lookup(
                after.labels,
                text::lower(es[i].1.label),
            )
        }),
    decreases es.len(),
{
    let mode = CorefMode::Off;
    let before = es.drop_last();
    let mid = entities_absorbed(st, before, strategy, mode, written);
    let after = entities_absorbed(st, es, strategy, mode, written);
    let label = text::lower(es.last().1.label);
    let chosen = match known_as(mid, es.last().1, mode) {
        Some(k) => k,
        None => if table::has_key(mid.entities, es.last().0) {
            new_id(mid.entities)
        } else {
            es.last().0
        },
    };
    assert(after.labels == table::put(mid.labels, label, chosen));
    assert(after.renamed == table::put(mid.renamed, es.last().0, chosen));
    table::lemma_lookup_put(mid.labels, label, chosen, text::lower(es[i].1.label));
    table::lemma_lookup_put(mid.renamed, es.last().0, chosen, es[i].0);
    if i < before.len() {
        assert forall|a: int, b: int| 0 <= a < b < before.len() implies (#[trigger] before[a]).0
            != (#[trigger] before[b]).0 by {
            assert(es[a].0 != es[b].0);
        }
        assert(before[i] == es[i]);
        lemma_renamed_by_label(st, before, strategy, written, i);
        assert(es[i].0 != es[es.len() - 1].0);
    }
}

/// A relationship that is taken in is there from then on.
proof fn lemma_triple_taken(st: MergingV, s: Seq<TripleV>, ts: Seq<TripleV>, j: int)
    requires
        0 <= j < ts.len(),
        end_of(st, ts[j].subject.id) is Some,
        end_of(st, ts[j].object.id) is Some,
    ensures
        exists|k: int|
            0 <= k < triples_absorbed(st, s, ts).len() && crate::types::graph::triple_key(
                #[trigger] triples_absorbed(st, s, ts)[k],
            ) == (
                end_of(st, ts[j].subject.id)->0.id,
                ts[j].predicate.predicate_type,
                end_of(st, ts[j].object.id)->0.id,
            ),
    decreases ts.len(),
{
    let before = ts.drop_last();
    let m = triples_absorbed(st, s, before);
    let r = triples_absorbed(st, s, ts);
    let t = ts.last();
    let wanted = (
        end_of(st, ts[j].subject.id)->0.id,
        ts[j].predicate.predicate_type,
        end_of(st, ts[j].object.id)->0.id,
    );
    if j < before.len() {
        assert(before[j] == ts[j]);
        lemma_triple_taken(st, s, before, j);
        let k = choose|k: int|
            0 <= k < m.len() && crate::types::graph::triple_key(#[trigger] m[k]) == wanted;
        if let (Some(a), Some(b)) = (end_of(st, t.subject.id), end_of(st, t.object.id)) {
            lemma_first_same(m, TripleV { subject: a, object: b, ..t }, 0);
        }
        assert(crate::types::graph::triple_key(r[k]) == wanted);
    } else {
        let u = TripleV {
            subject: end_of(st, t.subject.id)->0,
            object: end_of(st, t.object.id)->0,
            ..t
        };
        lemma_first_same(m, u, 0);
        match first_same(m, u, 0) {
            Some(i) => {
                assert(crate::types::graph::triple_key(r[i]) == wanted);
            },
            None => {
                assert(crate::types::graph::triple_key(r[m.len() as int]) == wanted);
            },
        }
    }
}

/// No relationship of the second graph is lost or turned round: the result has one with
/// its predicate, from the entity with the label of its subject to the entity with the
/// label of its object.
pub proof fn law_merged_relationships_keep_their_direction(
    g: GraphV,
    other: GraphV,
    strategy: MergeStrategy,
    written: Seq<Option<Seq<char>>>,
    j: int,
    a: int,
    b: int,
)
    requires
        table::distinct_keys(g.entities),
        table::distinct_keys(other.entities),
        crate::types::graph::ids_are_keys(g.entities),
        ids_are_fresh(merging(g.entities), other.entities, strategy, CorefMode::Off, written),
        0 <= j < other.triples.len(),
        0 <= a < other.entities.len(),
        0 <= b < other.entities.len(),
        other.entities[a].0 == other.triples[j].subject.id,
        other.entities[b].0 == other.triples[j].object.id,
    ensures
        ({
            let r = deduplicated_with(g, other, strategy, CorefMode::Off, written);
            exists|k: int|
                0 <= k < r.triples.len() && (#[trigger] r.triples[k]).predicate.predicate_type
                    == other.triples[j].predicate.predicate_type && is_labelled(
                    r.entities,
                    r.triples[k].subject.id,
                    other.entities[a].1.label,
                ) && is_labelled(
                    r.entities,
                    r.triples[k].object.id,
                    other.entities[b].1.label,
                )
        }),
{
    let start = merging(g.entities);
    let es = other.entities;
    let st = entities_absorbed(start, es, strategy, CorefMode::Off, written);
    let r = deduplicated_with(g, other, strategy, CorefMode::Off, written);
    lemma_labels_told(g.entities);
    lemma_labels_stay_told(start, es, strategy, written);
    lemma_renamed_by_label(start, es, strategy, written, a);
    lemma_renamed_by_label(start, es, strategy, written, b);
    law_ids_stay_keys(g, other, strategy, CorefMode::Off, written);
    let t = other.triples[j];
    let la = text::lower(es[a].1.label);
    let lb = text::lower(es[b].1.label);
    assert(table::has_key(st.labels, la));
    assert(table::has_key(st.labels, lb));
    let ka = table::lookup(st.labels, la)->0;
    let kb = table::lookup(st.labels, lb)->0;
    table::lemma_position(st.entities, ka);
    table::lemma_position(st.entities, kb);
    assert(end_of(st, t.subject.id)->0.id == ka);
    assert(end_of(st, t.object.id)->0.id == kb);
    lemma_triple_taken(st, g.triples, other.triples, j);
    let k = choose|k: int|
        0 <= k < r.triples.len() && crate::types::graph::triple_key(#[trigger] r.triples[k]) == (
            ka,
            t.predicate.predicate_type,
            kb,
        );
    assert(is_labelled(r.entities, r.triples[k].subject.id, es[a].1.label));
    assert(is_labelled(r.entities, r.triples[k].object.id, es[b].1.label));
}

/// Entities that are taken in say no less of one that is there.
proof fn lemma_says_no_less(
    st: MergingV,
    es: Seq<(Seq<char>, EntityV)>,
    mode: CorefMode,
    id: Seq<char>,
)
    requires
        ids_are_fresh(st, es, MergeStrategy::FieldUnion, mode, seq![]),
        table::has_key(st.entities, id),
    ensures
        ({
            let after = entities_absorbed(st, es, MergeStrategy::FieldUnion, mode, seq![]).entities;
            &&& table::has_key(after, id)
            &&& table::lookup(after, id)->0.label == table::lookup(st.entities, id)->0.label
            &&& says_no_less(
                table::lookup(after, id)->0.description,
                table::lookup(st.entities, id)->0.description,
            )
        }),
    decreases es.len(),
{
    if es.len() > 0 {
        let strategy = MergeStrategy::FieldUnion;
        let before = es.drop_last();
        lemma_says_no_less(st, before, mode, id);
        let mid = entities_absorbed(st, before, strategy, mode, seq![]);
        let e = es.last().1;
        let w = written_at(seq![], es.len() - 1);
        match known_as(mid, e, mode) {
            Some(k) => {
                if let Some(known) = table::lookup(mid.entities, k) {
                    table::lemma_lookup_put(mid.entities, k, combined(strategy, known, e, w), id);
                }
            },
            None => {
                let k = if table::has_key(mid.entities, es.last().0) {
                    new_id(mid.entities)
                } else {
                    es.last().0
                };
                table::lemma_lookup_put(mid.entities, k, EntityV { id: k, ..e }, id);
            },
        }
    }
}

/// Where fields are combined and nothing is written, no entity is described in fewer
/// words than either graph has for it: neither one of the first graph, which keeps its
/// label, nor one of the second.
pub proof fn law_union_never_says_less(g: GraphV, other: GraphV, id: Seq<char>, i: int)
    requires
        table::distinct_keys(g.entities),
        ids_are_fresh(
            merging(g.entities),
            other.entities,
            MergeStrategy::FieldUnion,
            CorefMode::Off,
            seq![],
        ),
        table::has_key(g.entities, id),
        0 <= i < other.entities.len(),
    ensures
        ({
            let r = deduplicated(g, other, MergeStrategy::FieldUnion, CorefMode::Off);
            &&& table::has_key(r.entities, id)
            &&& table::lookup(r.entities, id)->0.label == table::lookup(g.entities, id)->0.label
            &&& says_no_less(
                table::lookup(r.entities, id)->0.description,
                table::lookup(g.entities, id)->0.description,
            )
            &&& exists|k: int|
                0 <= k < r.entities.len() && text::lower((#[trigger] r.entities[k]).1.label)
                    == text::lower(other.entities[i].1.label) && says_no_less(
                    r.entities[k].1.description,
                    other.entities[i].1.description,
                )
        }),
{
    let mode = CorefMode::Off;
    let strategy = MergeStrategy::FieldUnion;
    let start = merging(g.entities);
    lemma_says_no_less(start, other.entities, mode, id);
    lemma_labels_told(g.entities);
    lemma_union_says_it(start, other.entities, i);
    let r = deduplicated(g, other, strategy, mode);
    let kid = choose|kid: Seq<char>| #[trigger]
        table::has_key(r.entities, kid) && text::lower(table::lookup(r.entities, kid)->0.label)
            == text::lower(other.entities[i].1.label) && says_no_less(
            table::lookup(r.entities, kid)->0.description,
            other.entities[i].1.description,
        );
    table::lemma_position(r.entities, kid);
    let k = table::position(r.entities, kid)->0;
    assert(text::lower(r.entities[k].1.label) == text::lower(other.entities[i].1.label));
}

/// What is taken in is said of an entity with its label.
proof fn lemma_union_says_it(st: MergingV, es: Seq<(Seq<char>, EntityV)>, i: int)
    requires
        labels_told(st),
        ids_are_fresh(st, es, MergeStrategy::FieldUnion, CorefMode::Off, seq![]),
        0 <= i < es.len(),
    ensures
        ({
            let after = entities_absorbed(
                st,
                es,
                MergeStrategy::FieldUnion,
                CorefMode::Off,
                seq![],
            ).entities;
            exists|k: Seq<char>| #[trigger]
                table::has_key(after, k) && text::lower(table::lookup(after, k)->0.label)
                    == text::lower(es[i].1.label) && says_no_less(
                    table::lookup(after, k)->0.description,
                    es[i].1.description,
                )
        }),
    decreases es.len(),
{
    let strategy = MergeStrategy::FieldUnion;
    let mode = CorefMode::Off;
    let before = es.drop_last();
    let mid = entities_absorbed(st, before, strategy, mode, seq![]);
    let after = entities_absorbed(st, es, strategy, mode, seq![]);
    let e = es.last().1;
    let w = written_at(seq![], es.len() - 1);
    lemma_labels_stay_told(st, before, strategy, seq![]);
    let chosen = match known_as(mid, e, mode) {
        Some(k) => k,
        None => if table::has_key(mid.entities, es.last().0) {
            new_id(mid.entities)
        } else {
            es.last().0
        },
    };
    let made = match known_as(mid, e, mode) {
        Some(k) => combined(strategy, table::lookup(mid.entities, k)->0, e, w),
        None => EntityV { id: chosen, ..e },
    };
    if known_as(mid, e, mode) is Some {
        assert(table::has_key(mid.labels, text::lower(e.label)));
        assert(table::has_key(mid.entities, chosen));
    }
    assert(after.entities == table::put(mid.entities, chosen, made));
    if i < before.len() {
        assert(before[i] == es[i]);
        lemma_union_says_it(st, before, i);
        let k = choose|k: Seq<char>| #[trigger]
            table::has_key(mid.entities, k) && text::lower(table::lookup(mid.entities, k)->0.label)
                == text::lower(es[i].1.label) && says_no_less(
                table::lookup(mid.entities, k)->0.description,
                es[i].1.description,
            );
        table::lemma_lookup_put(mid.entities, chosen, made, k);
        assert(table::has_key(after.entities, k));
    } else {
        table::lemma_lookup_put(mid.entities, chosen, made, chosen);
        assert(table::has_key(after.entities, chosen));
    }
}

/// The relationships that are turned round say the same the other way: from what they
/// were said of to what they said it of, with the type that they had noted on them. All
/// others stay as they are.
pub proof fn law_turned_round(t: TripleV)
    ensures
        ({
            let u = turned(t);
            if u.predicate.predicate_type == t.predicate.predicate_type {
                u == t
            } else {
                &&& u.subject == t.object
                &&& u.object == t.subject
                &&& u.confidence == t.confidence
                &&& u.metadata == t.metadata
                &&& u.predicate.confidence == t.predicate.confidence
                &&& table::lookup(u.predicate.metadata, "direction_normalized_from"@) == Some(
                    JsonV::Text(crate::types::graph::predicate_output_type(t.predicate)),
                )
            }
        }),
        t.predicate.predicate_type == PredicateType::Uses ==> turned(t).predicate.predicate_type
            == PredicateType::IsUsedBy,
        t.predicate.predicate_type == PredicateType::ComposedOf ==> turned(
            t,
        ).predicate.predicate_type == PredicateType::PartOf,
        t.predicate.predicate_type == PredicateType::Precedes ==> turned(t).predicate.predicate_type
            == PredicateType::Succeeds,
        t.predicate.predicate_type == PredicateType::Measures ==> turned(t).predicate.predicate_type
            == PredicateType::MeasuredBy,
        t.predicate.predicate_type != PredicateType::Uses && t.predicate.predicate_type
            != PredicateType::ComposedOf && t.predicate.predicate_type != PredicateType::Precedes
            && t.predicate.predicate_type != PredicateType::Measures ==> turned(t) == t,
{
    table::lemma_lookup_put(
        t.predicate.metadata,
        DIRECTION_KEY@,
        JsonV::Text(crate::types::graph::predicate_output_type(t.predicate)),
        DIRECTION_KEY@,
    );
}

/// An entity is found to be similar where, and only where, it is another one with the
/// same label in upper or lower case.
pub proof fn law_similar_entities_are_found(e: EntityV, es: Seq<EntityV>, id: Seq<char>)
    ensures
        similar(e, es).contains(id) <==> (exists|i: int|
            0 <= i < es.len() && (#[trigger] es[i]).id == id && id != e.id && text::lower(
                es[i].label,
            ) == text::lower(e.label)),
    decreases es.len(),
{
    let found = similar(e, es);
    if es.len() > 0 {
        let before = es.drop_last();
        law_similar_entities_are_found(e, before, id);
        let m = similar(e, before);
        if m.contains(id) {
            let k = choose|k: int| 0 <= k < m.len() && m[k] == id;
            assert(found[k] == id);
            let i = choose|i: int|
                0 <= i < before.len() && (#[trigger] before[i]).id == id && id != e.id
                    && text::lower(before[i].label) == text::lower(e.label);
            assert(es[i] == before[i]);
        }
        if found.contains(id) && !m.contains(id) {
            let k = choose|k: int| 0 <= k < found.len() && found[k] == id;
            assert(k == m.len());
            assert(es[es.len() - 1].id == id);
        }
        if exists|i: int|
            0 <= i < es.len() && (#[trigger] es[i]).id == id && id != e.id && text::lower(
                es[i].label,
            ) == text::lower(e.label) {
            let i = choose|i: int|
                0 <= i < es.len() && (#[trigger] es[i]).id == id && id != e.id && text::lower(
                    es[i].label,
                ) == text::lower(e.label);
            if i < before.len() {
                assert(before[i] == es[i]);
            } else {
                assert(found[found.len() - 1] == id);
            }
        }
    }
}

/// `u` says what `t` says, but for the citations, between the entities that stand for the
/// ends of `t` in the same order.
pub open spec fn stands_for(st: MergingV, t: TripleV, u: TripleV) -> bool {
    &&& u.predicate == t.predicate
    &&& u.confidence == t.confidence
    &&& end_of(st, t.subject.id) == Some(u.subject)
    &&& end_of(st, t.object.id) == Some(u.object)
}

/// Each relationship that a merge adds is one of the second graph, between the entities that
/// stand for its subject and for its object; nothing else is added.
pub proof fn law_added_relationships_are_those_of_the_second(
    g: GraphV,
    other: GraphV,
    strategy: MergeStrategy,
    mode: CorefMode,
    written: Seq<Option<Seq<char>>>,
    k: int,
)
    requires
        g.triples.len() <= k < deduplicated_with(g, other, strategy, mode, written).triples.len(),
    ensures
        ({
            let st = entities_absorbed(
                merging(g.entities),
                other.entities,
                strategy,
                mode,
                written,
            );
            exists|j: int|
                0 <= j < other.triples.len() && stands_for(
                    st,
                    #[trigger] other.triples[j],
                    deduplicated_with(g, other, strategy, mode, written).triples[k],
                )
        }),
{
    let st = entities_absorbed(merging(g.entities), other.entities, strategy, mode, written);
    lemma_added_are_given(st, g.triples, other.triples, k);
}

proof fn lemma_added_are_given(st: MergingV, s: Seq<TripleV>, ts: Seq<TripleV>, k: int)
    requires
        s.len() <= k < triples_absorbed(st, s, ts).len(),
    ensures
        exists|j: int|
            0 <= j < ts.len() && stands_for(
                st,
                #[trigger] ts[j],
                triples_absorbed(st, s, ts)[k],
            ),
    decreases ts.len(),
{
    if ts.len() > 0 {
        let before = ts.drop_last();
        let m = triples_absorbed(st, s, before);
        let r = triples_absorbed(st, s, ts);
        let t = ts.last();
        lemma_triples_absorbed(st, s, before);
        if let (Some(a), Some(b)) = (end_of(st, t.subject.id), end_of(st, t.object.id)) {
            lemma_first_same(m, TripleV { subject: a, object: b, ..t }, 0);
        }
        if k < m.len() {
            lemma_added_are_given(st, s, before, k);
            let j = choose|j: int| 0 <= j < before.len() && stands_for(st, #[trigger] before[j], m[k]);
            assert(ts[j] == before[j]);
            assert(stands_for(st, ts[j], r[k]));
        } else {
            assert(stands_for(st, ts[ts.len() - 1], r[k]));
        }
    }
}

/// The two ends of `t` are entities of `es`.
pub open spec fn stands_between(es: Seq<(Seq<char>, EntityV)>, t: TripleV) -> bool {
    (exists|i: int| 0 <= i < es.len() && #[trigger] es[i].1 == t.subject) && (exists|i: int|
        0 <= i < es.len() && #[trigger] es[i].1 == t.object)
}

proof fn lemma_triples_absorbed(st: MergingV, s: Seq<TripleV>, ts: Seq<TripleV>)
    ensures
        ({
            let r = triples_absorbed(st, s, ts);
            &&& r.len() >= s.len()
            &&& forall|i: int|
                0 <= i < s.len() ==> crate::types::graph::triple_key(#[trigger] r[i])
                    == crate::types::graph::triple_key(s[i])
            &&& forall|i: int, j: int|
                0 <= i < j < r.len() && s.len() <= j ==> crate::types::graph::triple_key(
                    #[trigger] r[i],
                ) != crate::types::graph::triple_key(#[trigger] r[j])
            &&& forall|j: int|
                s.len() <= j < r.len() ==> stands_between(st.entities, #[trigger] r[j])
        }),
    decreases ts.len(),
{
    if ts.len() > 0 {
        let before = ts.drop_last();
        lemma_triples_absorbed(st, s, before);
        let m = triples_absorbed(st, s, before);
        let t = ts.last();
        let r = triples_absorbed(st, s, ts);
        match (end_of(st, t.subject.id), end_of(st, t.object.id)) {
            (Some(a), Some(b)) => {
                let u = TripleV { subject: a, object: b, ..t };
                lemma_first_same(m, u, 0);
                lemma_end_stands(st, t.subject.id);
                lemma_end_stands(st, t.object.id);
                assert(stands_between(st.entities, u));
                match first_same(m, u, 0) {
                    Some(i) => {
                        assert forall|j: int| 0 <= j < m.len() implies (#[trigger] r[j]).subject
                            == m[j].subject && r[j].object == m[j].object && r[j].predicate
                            == m[j].predicate by {}
                        assert forall|j: int| s.len() <= j < r.len() implies stands_between(
                            st.entities,
                            #[trigger] r[j],
                        ) by {
                            assert(stands_between(st.entities, m[j]));
                        }
                    },
                    None => {
                        assert forall|j: int| s.len() <= j < r.len() implies stands_between(
                            st.entities,
                            #[trigger] r[j],
                        ) by {
                            if j < m.len() {
                                assert(stands_between(st.entities, m[j]));
                            }
                        }
                    },
                }
            },
            _ => {},
        }
    }
}

proof fn lemma_end_stands(st: MergingV, id: Seq<char>)
    ensures
        end_of(st, id) is Some ==> exists|i: int|
            0 <= i < st.entities.len() && #[trigger] st.entities[i].1 == end_of(st, id)->0,
{
    let k = match table::lookup(st.renamed, id) {
        Some(k) => k,
        None => id,
    };
    table::lemma_position(st.entities, k);
    if end_of(st, id) is Some {
        let i = table::position(st.entities, k)->0;
        assert(st.entities[i].1 == end_of(st, id)->0);
    }
}

} // verus!
