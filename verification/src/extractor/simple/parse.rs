//! Reading records: `(entity<|>…)` and `(relationship<|>…)`, one behind the other
//! with `##` between them.

use vstd::prelude::*;

use crate::fraction::{Fraction, FractionV};
use crate::json::{Json, JsonV};
use crate::number::NumberV;
use crate::pattern::{BRACKETS, ENTITY_START, MARKS, QUOTES, RELATIONSHIP_START, SPACES};
use crate::table::{Dup, Table};
use crate::types::graph::{
    Entity, EntityV, Metadata, MetadataV, Predicate, Triple, TripleV,
};
use crate::types::response::{ParsedResult, ParsedResultV};
use crate::types::spec::ExtractionConfig;
use crate::types::vocab::{EntityType, PredicateType};
use crate::{chunking, fraction, graph_build, json, number, pattern, seqs, table, text};

verus! {

broadcast use {crate::seqs::group_views, crate::json::group_json};

/// What stands between the fields of a record.
pub const TUPLE_DELIMITER: &'static str = "<|>";

/// What stands between two records.
pub const RECORD_DELIMITER: &'static str = "##";

/// What a thing is described by where nothing is said of it.
pub const NO_DESCRIPTION: &'static str = "No description available";

/// How many of the numbers `s` are `x` or less.
pub open spec fn up_to(s: Seq<nat>, x: nat) -> nat
    decreases s.len(),
{
    if s.len() == 0 {
        0
    } else {
        up_to(s.drop_last(), x) + if s.last() <= x {
            1nat
        } else {
            0nat
        }
    }
}

/// The numbers `s` from the least to the greatest.
pub open spec fn in_order(s: Seq<nat>) -> Seq<nat>
    decreases s.len(),
{
    if s.len() == 0 {
        seq![]
    } else {
        let m = in_order(s.drop_last());
        m.insert(up_to(m, s.last()) as int, s.last())
    }
}

/// No number of `s` is less than one before it.
pub open spec fn ascending(s: Seq<nat>) -> bool {
    forall|i: int, j: int| 0 <= i <= j < s.len() ==> s[i] <= s[j]
}

/// In ascending numbers those up to `x` come first.
proof fn lemma_up_to(s: Seq<nat>, x: nat)
    requires
        ascending(s),
    ensures
        up_to(s, x) <= s.len(),
        forall|i: int| 0 <= i < up_to(s, x) ==> s[i] <= x,
        forall|i: int| up_to(s, x) <= i < s.len() ==> s[i] > x,
    decreases s.len(),
{
    if s.len() > 0 {
        let t = s.drop_last();
        lemma_up_to(t, x);
        let k = up_to(t, x);
        assert forall|i: int| 0 <= i < t.len() implies s[i] == t[i] by {}
        if s.last() <= x && k < t.len() {
            assert(t[k as int] > x);
            assert(s[k as int] <= s[s.len() - 1]);
        }
    }
}

/// Sorted numbers ascend, and none is beyond a bound that all of them keep.
pub proof fn lemma_in_order(s: Seq<nat>, most: nat)
    requires
        forall|i: int| 0 <= i < s.len() ==> s[i] <= most,
    ensures
        in_order(s).len() == s.len(),
        ascending(in_order(s)),
        forall|i: int| 0 <= i < s.len() ==> in_order(s)[i] <= most,
    decreases s.len(),
{
    if s.len() > 0 {
        let t = s.drop_last();
        assert forall|i: int| 0 <= i < t.len() implies t[i] <= most by {
            assert(t[i] == s[i]);
        }
        lemma_in_order(t, most);
        let m = in_order(t);
        let x = s.last();
        assert(s[s.len() - 1] <= most);
        lemma_up_to(m, x);
        let k = up_to(m, x) as int;
        let r = m.insert(k, x);
        assert forall|i: int| 0 <= i < r.len() implies r[i] == (if i < k {
            m[i]
        } else if i == k {
            x
        } else {
            m[i - 1]
        }) by {}
    }
}

/// The numbers `s`.
pub open spec fn nats(s: Seq<usize>) -> Seq<nat> {
    Seq::new(s.len(), |i: int| s[i] as nat)
}

/// The numbers `s` from the least to the greatest.
fn sort_numbers(s: &Vec<usize>) -> (r: Vec<usize>)
    ensures
        nats(r@) == in_order(nats(s@)),
{
    let ghost all = nats(s@);
    let mut out: Vec<usize> = Vec::new();
    assert(nats(out@) =~= in_order(all.take(0)));
    let mut i: usize = 0;
    while i < s.len()
        invariant
            i <= s@.len(),
            all == nats(s@),
            nats(out@) == in_order(all.take(i as int)),
        decreases s.len() - i,
    {
        let x: usize = s[i];
        let n: usize = out.len();
        let mut k: usize = 0;
        let mut j: usize = 0;
        assert(nats(out@).take(0) =~= seq![]);
        while j < n
            invariant
                j <= n,
                k <= j,
                n == out@.len(),
                k == up_to(nats(out@).take(j as int), x as nat),
            decreases n - j,
        {
            assert(nats(out@).take(j + 1).drop_last() =~= nats(out@).take(j as int));
            assert(nats(out@).take(j + 1).last() == out@[j as int] as nat);
            if out[j] <= x {
                k += 1;
            }
            j += 1;
        }
        assert(nats(out@).take(n as int) =~= nats(out@));
        let ghost before = nats(out@);
        out.insert(k, x);
        assert(nats(out@) =~= before.insert(k as int, x as nat));
        assert(all.take(i + 1).drop_last() =~= all.take(i as int));
        assert(all.take(i + 1).last() == x as nat);
        i += 1;
    }
    assert(all.take(i as int) =~= all);
    out
}

/// How many characters stand before each match.
pub open spec fn offsets(ms: Seq<(nat, Seq<char>)>) -> Seq<nat> {
    Seq::new(ms.len(), |i: int| ms[i].0)
}

/// Where records start in a text, entities first.
pub open spec fn starts(part: Seq<char>) -> Seq<nat> {
    offsets(pattern::all_matches(ENTITY_START@, part)) + offsets(
        pattern::all_matches(RELATIONSHIP_START@, part),
    )
}

/// The text from each start to the next one, trimmed; the whole text where there are
/// not at least two.
pub open spec fn cut(part: Seq<char>, at: Seq<nat>) -> Seq<Seq<char>> {
    if at.len() <= 1 {
        seq![part]
    } else {
        Seq::new(
            at.len(),
            |i: int|
                text::trimmed(
                    part.subrange(
                        at[i] as int,
                        if i + 1 < at.len() {
                            at[i + 1] as int
                        } else {
                            part.len() as int
                        },
                    ),
                ),
        )
    }
}

/// The text cut before each of the offsets, given in any order.
pub fn cut_at(part: &str, at: &Vec<usize>) -> (r: Vec<String>)
    requires
        forall|i: int| 0 <= i < at@.len() ==> #[trigger] at@[i] <= part@.len(),
    ensures
        seqs::views(r@) == cut(part@, in_order(nats(at@))),
{
    let sorted = sort_numbers(at);
    let ghost order = in_order(nats(at@));
    proof {
        lemma_in_order(nats(at@), part@.len());
        assert(nats(sorted@).len() == sorted@.len());
    }
    let mut out: Vec<String> = Vec::new();
    if sorted.len() <= 1 {
        out.push(part.to_owned());
        assert(seqs::views(out@) =~= seq![part@]);
        return out;
    }
    let v = text::chars_of(part);
    let n: usize = sorted.len();
    let mut i: usize = 0;
    while i < n
        invariant
            i <= n,
            n == sorted@.len(),
            n > 1,
            v@ == part@,
            order == nats(sorted@),
            ascending(order),
            forall|k: int| 0 <= k < order.len() ==> order[k] <= part@.len(),
            out@.len() == i,
            seqs::views(out@) =~= cut(part@, order).take(i as int),
        decreases n - i,
    {
        let from: usize = sorted[i];
        let to: usize = if i + 1 < n {
            sorted[i + 1]
        } else {
            v.len()
        };
        proof {
            assert(order[i as int] == from);
            if i + 1 < n {
                assert(order[i + 1] == to);
            }
        }
        let piece = text::text_of(&v, from, to);
        out.push(text::trim(piece.as_str()));
        assert(cut(part@, order)[i as int] == out@[i as int]@);
        i += 1;
    }
    assert(seqs::views(out@) =~= cut(part@, order));
    out
}

/// The records in the parts of a text: what is blank holds none.
pub open spec fn items_in(parts: Seq<Seq<char>>) -> Seq<Seq<char>>
    decreases parts.len(),
{
    if parts.len() == 0 {
        seq![]
    } else {
        let p = text::trimmed(parts.last());
        if p.len() == 0 {
            items_in(parts.drop_last())
        } else {
            items_in(parts.drop_last()) + cut(p, in_order(starts(p)))
        }
    }
}

/// The records in a text.
pub open spec fn items(results: Seq<char>) -> Seq<Seq<char>> {
    items_in(text::split(results, RECORD_DELIMITER@))
}

/// Where records start in a text, entities first.
fn find_starts(part: &str) -> (r: Vec<usize>)
    ensures
        nats(r@) == starts(part@),
        forall|i: int| 0 <= i < r@.len() ==> #[trigger] r@[i] <= part@.len(),
{
    let a = pattern::find_matches(ENTITY_START, part);
    let b = pattern::find_matches(RELATIONSHIP_START, part);
    let ghost all = starts(part@);
    let mut out: Vec<usize> = Vec::new();
    let mut i: usize = 0;
    while i < a.len()
        invariant
            i <= a@.len(),
            nats(out@) =~= offsets(pattern::all_matches(ENTITY_START@, part@)).take(i as int),
            forall|k: int| 0 <= k < out@.len() ==> #[trigger] out@[k] <= part@.len(),
            a@.len() == pattern::all_matches(ENTITY_START@, part@).len(),
            forall|k: int|
                0 <= k < a@.len() ==> (#[trigger] a@[k]).0 == pattern::all_matches(
                    ENTITY_START@,
                    part@,
                )[k].0,
            forall|k: int| 0 <= k < a@.len() ==> (#[trigger] a@[k]).0 + a@[k].1@.len() <= part@.len(),
        decreases a.len() - i,
    {
        let ghost before = nats(out@);
        out.push(a[i].0);
        assert(nats(out@) =~= before.push(a@[i as int].0 as nat));
        i += 1;
    }
    let ghost n = a@.len() as int;
    assert(nats(out@) =~= all.take(n));
    let mut j: usize = 0;
    while j < b.len()
        invariant
            j <= b@.len(),
            n == pattern::all_matches(ENTITY_START@, part@).len(),
            all == starts(part@),
            nats(out@) =~= all.take(n + j),
            forall|k: int| 0 <= k < out@.len() ==> #[trigger] out@[k] <= part@.len(),
            b@.len() == pattern::all_matches(RELATIONSHIP_START@, part@).len(),
            forall|k: int|
                0 <= k < b@.len() ==> (#[trigger] b@[k]).0 == pattern::all_matches(
                    RELATIONSHIP_START@,
                    part@,
                )[k].0,
            forall|k: int| 0 <= k < b@.len() ==> (#[trigger] b@[k]).0 + b@[k].1@.len() <= part@.len(),
        decreases b.len() - j,
    {
        let ghost before = nats(out@);
        out.push(b[j].0);
        assert(nats(out@) =~= before.push(b@[j as int].0 as nat));
        assert(all[n + j] == b@[j as int].0);
        j += 1;
    }
    assert(nats(out@) =~= all);
    out
}

/// The records in a text. The text is cut at each `##`; what stands between is cut
/// again before each start of a record, where there are several.
pub fn split_to_items(results: &str) -> (r: Vec<String>)
    ensures
        seqs::views(r@) == items(results@),
{
    proof {
        reveal_strlit("##");
    }
    let parts = text::split_text(results, RECORD_DELIMITER);
    let ghost all = seqs::views(parts@);
    let mut out: Vec<String> = Vec::new();
    assert(seqs::views(out@) =~= items_in(all.take(0)));
    let mut i: usize = 0;
    while i < parts.len()
        invariant
            i <= parts@.len(),
            all == seqs::views(parts@),
            seqs::views(out@) == items_in(all.take(i as int)),
        decreases parts.len() - i,
    {
        assert(all.take(i + 1).drop_last() =~= all.take(i as int));
        assert(all.take(i + 1).last() == parts@[i as int]@);
        let part = text::trim(parts[i].as_str());
        if part.as_str().unicode_len() > 0 {
            let at = find_starts(part.as_str());
            let mut found = cut_at(part.as_str(), &at);
            out.append(&mut found);
        }
        i += 1;
    }
    assert(all.take(i as int) =~= all);
    out
}

/// A record, trimmed, and closed with a bracket where it is opened with one.
pub open spec fn completed(item: Seq<char>) -> Seq<char> {
    let t = text::trimmed(item);
    if text::has_prefix(t, "("@) && !text::has_suffix(t, ")"@) {
        t + ")"@
    } else {
        t
    }
}

/// A record, trimmed, and closed with a bracket where it is opened with one.
pub fn complete_item(item: &str) -> (r: String)
    ensures
        r@ == completed(item@),
{
    let t = text::trim(item);
    if text::starts_with(t.as_str(), "(") && !text::ends_with(t.as_str(), ")") {
        text::concat2(t.as_str(), ")")
    } else {
        t
    }
}

/// What stands before the fields of a record: what it is a record of.
pub open spec fn head_of(item: Seq<char>) -> Seq<char> {
    let s = text::stripped_start(item, "("@);
    match text::parted(s, TUPLE_DELIMITER@) {
        Some((a, _)) => a,
        None => s,
    }
}

/// What stands before the fields of a record.
pub fn record_head(item: &str) -> (r: String)
    ensures
        r@ == head_of(item@),
{
    let s = text::strip_start(item, "(");
    match text::split_once(s.as_str(), TUPLE_DELIMITER) {
        Some((a, _)) => a,
        None => s,
    }
}

/// What a record is a record of.
#[derive(Clone, Copy, Debug, PartialEq, Eq, Structural)]
pub enum RecordKind {
    Entity,
    Relationship,
    Neither,
}

/// What a record is a record of, where `head` is what it begins with, in lower case.
pub open spec fn kind_of(head: Seq<char>, item: Seq<char>) -> RecordKind {
    if !text::contains(item, TUPLE_DELIMITER@) {
        RecordKind::Neither
    } else if text::contains(head, "entity"@) {
        RecordKind::Entity
    } else if text::contains(head, "relationship"@) {
        RecordKind::Relationship
    } else {
        RecordKind::Neither
    }
}

/// What a record is a record of, where `head` is what it begins with, in lower case:
/// what its fields say does not matter.
pub fn classify(head: &str, item: &str) -> (r: RecordKind)
    ensures
        r == kind_of(head@, item@),
{
    if !text::has(item, TUPLE_DELIMITER) {
        RecordKind::Neither
    } else if text::has(head, "entity") {
        RecordKind::Entity
    } else if text::has(head, "relationship") {
        RecordKind::Relationship
    } else {
        RecordKind::Neither
    }
}

/// What a record is a record of.
pub open spec fn record_kind(item: Seq<char>) -> RecordKind {
    kind_of(text::lower(head_of(item)), item)
}

/// What a record is a record of.
fn kind_of_record(item: &str) -> (r: RecordKind)
    ensures
        r == record_kind(item@),
{
    let head = record_head(item);
    classify(text::to_lower(head.as_str()).as_str(), item)
}

/// Where `c` stands last.
pub open spec fn last_index(s: Seq<char>, c: char) -> Option<int>
    decreases s.len(),
{
    if s.len() == 0 {
        None
    } else if s.last() == c {
        Some(s.len() - 1)
    } else {
        last_index(s.drop_last(), c)
    }
}

/// What stands in a record's brackets.
pub open spec fn unbracketed(item: Seq<char>) -> Seq<char> {
    let t = text::trimmed(item);
    match last_index(t, ')') {
        Some(k) => if text::has_prefix(t, "("@) && k > 0 {
            t.subrange(1, k)
        } else {
            t
        },
        None => t,
    }
}

/// What stands in a record's brackets: from the first character, which opens them, to
/// the last one that closes any. What is not opened is trimmed and no more.
pub fn strip_parens(item: &str) -> (r: String)
    ensures
        r@ == unbracketed(item@),
{
    let t = text::trim(item);
    let opened = text::starts_with(t.as_str(), "(");
    let v = text::chars_of(t.as_str());
    let mut k: usize = v.len();
    assert(v@.take(k as int) =~= v@);
    while k > 0
        invariant
            k <= v@.len(),
            v@ == text::trimmed(item@),
            t@ == v@,
            opened == text::has_prefix(t@, "("@),
            last_index(v@, ')') == last_index(v@.take(k as int), ')'),
        decreases k,
    {
        assert(v@.take(k as int).drop_last() =~= v@.take(k - 1));
        assert(v@.take(k as int).last() == v@[k - 1]);
        if v[k - 1] == ')' {
            return if opened && k > 1 {
                text::text_of(&v, 1, k - 1)
            } else {
                t
            };
        }
        k -= 1;
    }
    t
}

/// The fields of a record, the first of which says what it is a record of.
pub open spec fn fields(item: Seq<char>) -> Seq<Seq<char>> {
    text::split(unbracketed(item), TUPLE_DELIMITER@)
}

/// The fields of a record.
fn split_fields(item: &str) -> (r: Vec<String>)
    ensures
        seqs::views(r@) == fields(item@),
        r@.len() == fields(item@).len(),
{
    let inner = strip_parens(item);
    proof {
        reveal_strlit("<|>");
    }
    let r = text::split_text(inner.as_str(), TUPLE_DELIMITER);
    assert(seqs::views(r@).len() == r@.len());
    r
}

/// The field `i`, blank where there is none.
pub open spec fn field_or_blank(fs: Seq<Seq<char>>, i: int) -> Seq<char> {
    if i < fs.len() {
        fs[i]
    } else {
        ""@
    }
}

/// The field `i`, blank where there is none.
fn field_at(fs: &Vec<String>, i: usize) -> (r: &str)
    ensures
        r@ == field_or_blank(seqs::views(fs@), i as int),
{
    if i < fs.len() {
        fs[i].as_str()
    } else {
        ""
    }
}

/// A word with its first letter in upper case and the others in lower case.
pub open spec fn capitalized(w: Seq<char>) -> Seq<char> {
    if w.len() == 0 {
        w
    } else {
        text::upper_char(w[0]) + letters_lowered(w.subrange(1, w.len() as int))
    }
}

/// The letters of a word in lower case, one by one.
pub open spec fn letters_lowered(s: Seq<char>) -> Seq<char>
    decreases s.len(),
{
    if s.len() == 0 {
        seq![]
    } else {
        letters_lowered(s.drop_last()) + text::lower_char(s.last())
    }
}

/// The words of a text, each with a capital, with single spaces between them.
pub open spec fn title(s: Seq<char>) -> Seq<char> {
    let ws = text::words(s);
    text::joined(Seq::new(ws.len(), |i: int| capitalized(ws[i])), " "@)
}

/// A word with its first letter in upper case and the others in lower case.
fn capitalize(w: &str) -> (r: String)
    ensures
        r@ == capitalized(w@),
{
    let v = text::chars_of(w);
    if v.len() == 0 {
        return w.to_owned();
    }
    let mut out = text::to_upper_char(v[0]);
    let ghost rest = w@.subrange(1, w@.len() as int);
    let mut i: usize = 1;
    assert(letters_lowered(rest.take(0)) =~= seq![]);
    assert(out@ =~= text::upper_char(w@[0]) + letters_lowered(rest.take(0)));
    while i < v.len()
        invariant
            1 <= i <= v@.len(),
            v@ == w@,
            rest == w@.subrange(1, w@.len() as int),
            out@ == text::upper_char(w@[0]) + letters_lowered(rest.take(i - 1)),
        decreases v.len() - i,
    {
        let l = text::to_lower_char(v[i]);
        assert(rest.take(i as int).drop_last() =~= rest.take(i - 1));
        assert(rest.take(i as int).last() == v@[i as int]);
        out = text::concat2(out.as_str(), l.as_str());
        assert(out@ =~= text::upper_char(w@[0]) + letters_lowered(rest.take(i as int)));
        i += 1;
    }
    assert(rest.take(i - 1) =~= rest);
    out
}

/// The letters of a word are lowered one by one, in order, and a word with a capital starts
/// with its first letter in upper case and goes on with the others in lower case.
pub proof fn law_letters_are_lowered_in_order(a: Seq<char>, c: char)
    ensures
        letters_lowered(a.push(c)) == letters_lowered(a) + text::lower_char(c),
        capitalized(seq![c]) == text::upper_char(c),
        a.len() > 0 ==> capitalized(a.push(c)) == capitalized(a) + text::lower_char(c),
{
    assert(a.push(c).drop_last() =~= a);
    let one = seq![c];
    assert(one.subrange(1, 1) =~= seq![]);
    assert(capitalized(one) =~= text::upper_char(c));
    if a.len() > 0 {
        let rest = a.subrange(1, a.len() as int);
        let more = a.push(c).subrange(1, (a.len() + 1) as int);
        assert(more =~= rest.push(c));
        assert(rest.push(c).drop_last() =~= rest);
        assert(capitalized(a.push(c)) =~= capitalized(a) + text::lower_char(c));
    }
}

/// The words of a text, each with a capital, with single spaces between them.
fn title_case(s: &str) -> (r: String)
    ensures
        r@ == title(s@),
{
    let ws = text::split_words(s);
    let ghost all = Seq::new(
        text::words(s@).len(),
        |i: int| capitalized(text::words(s@)[i]),
    );
    assert(seqs::views(ws@).len() == ws@.len());
    let mut out: Vec<String> = Vec::new();
    let mut i: usize = 0;
    while i < ws.len()
        invariant
            i <= ws@.len(),
            ws@.len() == all.len(),
            seqs::views(ws@) == text::words(s@),
            all == Seq::new(text::words(s@).len(), |k: int| capitalized(text::words(s@)[k])),
            seqs::views(out@) =~= all.take(i as int),
        decreases ws.len() - i,
    {
        assert(text::words(s@)[i as int] == ws@[i as int]@);
        out.push(capitalize(ws[i].as_str()));
        i += 1;
    }
    assert(seqs::views(out@) =~= all);
    text::join(&out, " ")
}

/// The name of an entity as it is kept: without brackets and quotes, its words with
/// capitals and single spaces between them.
pub open spec fn clean_name(name: Seq<char>) -> Seq<char> {
    let unquoted = pattern::all_replaced(QUOTES@, text::stripped(name, "<> \"'"@), ""@);
    title(text::trimmed(pattern::all_replaced(SPACES@, text::trimmed(unquoted), " "@)))
}

/// The name of an entity as it is kept.
fn clean_entity_name(name: &str) -> (r: String)
    ensures
        r@ == clean_name(name@),
{
    proof {
        reveal_strlit("");
        reveal_strlit(" ");
    }
    let s = text::strip(name, "<> \"'");
    let unquoted = pattern::replace_matches(QUOTES, s.as_str(), "");
    let t = text::trim(unquoted.as_str());
    let spaced = pattern::replace_matches(SPACES, t.as_str(), " ");
    title_case(text::trim(spaced.as_str()).as_str())
}

/// A description, or that there is none.
pub open spec fn some_description(d: Seq<char>) -> Seq<char> {
    if d.len() == 0 {
        NO_DESCRIPTION@
    } else {
        d
    }
}

/// A description, or that there is none.
pub fn or_no_description(d: &str) -> (r: String)
    ensures
        r@ == some_description(d@),
{
    if d.unicode_len() == 0 {
        NO_DESCRIPTION.to_owned()
    } else {
        d.to_owned()
    }
}

/// A description without brackets, quotes and marks, with single spaces.
pub open spec fn tidied(d: Seq<char>) -> Seq<char> {
    let bare = pattern::all_replaced(BRACKETS@, text::stripped(d, "<> \"'"@), ""@);
    let unmarked = pattern::all_replaced(MARKS@, text::trimmed(bare), ""@);
    text::trimmed(pattern::all_replaced(SPACES@, text::trimmed(unmarked), " "@))
}

/// A description as it is kept.
pub open spec fn clean_text(d: Seq<char>) -> Seq<char> {
    if d.len() == 0 {
        NO_DESCRIPTION@
    } else {
        some_description(tidied(d))
    }
}

/// A description as it is kept.
fn clean_description(desc: &str) -> (r: String)
    ensures
        r@ == clean_text(desc@),
{
    if desc.unicode_len() == 0 {
        return NO_DESCRIPTION.to_owned();
    }
    proof {
        reveal_strlit("");
        reveal_strlit(" ");
    }
    let s = text::strip(desc, "<> \"'");
    let bare = pattern::replace_matches(BRACKETS, s.as_str(), "");
    let t = text::trim(bare.as_str());
    let unmarked = pattern::replace_matches(MARKS, t.as_str(), "");
    let u = text::trim(unmarked.as_str());
    let spaced = pattern::replace_matches(SPACES, u.as_str(), " ");
    or_no_description(text::trim(spaced.as_str()).as_str())
}

/// The type that a record gives, as it is written there.
pub open spec fn type_token(field: Seq<char>) -> Seq<char> {
    text::stripped(text::trimmed(field), "<> \"*#"@)
}

/// The type that a record gives, as it is written there.
pub fn read_type_token(field: &str) -> (r: String)
    ensures
        r@ == type_token(field@),
{
    let t = text::trim(field);
    text::strip(t.as_str(), "<> \"*#")
}

/// What is being cut at its commas: the parts so far, the one begun, and how many
/// brackets are open.
#[verifier::ext_equal]
pub struct CuttingV {
    pub done: Seq<Seq<char>>,
    pub current: Seq<char>,
    pub depth: nat,
}

/// `st` with one more character. A comma ends a part where no bracket is open; a
/// bracket that closes nothing leaves it so.
pub open spec fn char_cut(st: CuttingV, c: char) -> CuttingV {
    if c == '(' || c == '{' || c == '[' {
        CuttingV { current: st.current.push(c), depth: st.depth + 1, ..st }
    } else if c == ')' || c == '}' || c == ']' {
        CuttingV {
            current: st.current.push(c),
            depth: if st.depth > 0 {
                (st.depth - 1) as nat
            } else {
                0
            },
            ..st
        }
    } else if c == ',' && st.depth == 0 {
        let t = text::trimmed(st.current);
        CuttingV {
            done: if t.len() == 0 {
                st.done
            } else {
                st.done.push(t)
            },
            current: seq![],
            ..st
        }
    } else {
        CuttingV { current: st.current.push(c), ..st }
    }
}

/// A text being cut at its commas.
pub open spec fn chars_cut(s: Seq<char>) -> CuttingV
    decreases s.len(),
{
    if s.len() == 0 {
        CuttingV { done: seq![], current: seq![], depth: 0 }
    } else {
        char_cut(chars_cut(s.drop_last()), s.last())
    }
}

/// The parts of a text between the commas that stand in no brackets, trimmed, but for
/// blank ones.
pub open spec fn top_level_parts(s: Seq<char>) -> Seq<Seq<char>> {
    chars_cut(s.push(',')).done
}

/// What follows a comma that stands in no brackets is cut as if it stood alone.
proof fn lemma_cut_apart(s: Seq<char>, t: Seq<char>)
    requires
        chars_cut(s).depth == 0,
    ensures
        chars_cut(s.push(',') + t) == (CuttingV {
            done: top_level_parts(s) + chars_cut(t).done,
            ..chars_cut(t)
        }),
    decreases t.len(),
{
    if t.len() == 0 {
        assert(s.push(',') + t =~= s.push(','));
        assert(s.push(',').drop_last() =~= s);
        assert(top_level_parts(s) + chars_cut(t).done =~= top_level_parts(s));
    } else {
        lemma_cut_apart(s, t.drop_last());
        assert((s.push(',') + t).drop_last() =~= s.push(',') + t.drop_last());
        assert((s.push(',') + t).last() == t.last());
        let a = chars_cut(t.drop_last());
        let b = chars_cut(s.push(',') + t.drop_last());
        assert(char_cut(b, t.last()) =~= (CuttingV {
            done: top_level_parts(s) + char_cut(a, t.last()).done,
            ..char_cut(a, t.last())
        }));
    }
}

/// What stands before a comma in no brackets does not change what comes behind it: the
/// parts are those of the one and then those of the other. Brackets that close nothing
/// are no reason for anything to be left out.
pub proof fn law_parts_stand_apart(s: Seq<char>, t: Seq<char>)
    requires
        chars_cut(s).depth == 0,
    ensures
        top_level_parts(s.push(',') + t) == top_level_parts(s) + top_level_parts(t),
{
    lemma_cut_apart(s, t.push(','));
    assert((s.push(',') + t).push(',') =~= s.push(',') + t.push(','));
}

/// A bracket that closes nothing opens nothing either.
pub proof fn law_stray_bracket_is_harmless(s: Seq<char>, c: char)
    requires
        chars_cut(s).depth == 0,
        c == ')' || c == '}' || c == ']',
    ensures
        chars_cut(s.push(c)).depth == 0,
{
    assert(s.push(c).drop_last() =~= s);
}

/// The parts of a text between the commas that stand in no brackets.
pub fn split_top_level(s: &str) -> (r: Vec<String>)
    ensures
        seqs::views(r@) == top_level_parts(s@),
{
    let v = text::chars_of(s);
    let n: usize = v.len();
    let mut done: Vec<String> = Vec::new();
    let mut current: Vec<char> = Vec::new();
    let mut depth: usize = 0;
    let mut i: usize = 0;
    assert(chars_cut(v@.take(0)).done =~= seq![]);
    assert(seqs::views(done@) =~= seq![]);
    while i < n
        invariant
            i <= n,
            n == v@.len(),
            depth <= i,
            seqs::views(done@) == chars_cut(v@.take(i as int)).done,
            current@ =~= chars_cut(v@.take(i as int)).current,
            depth == chars_cut(v@.take(i as int)).depth,
        decreases n - i,
    {
        let c = v[i];
        assert(v@.take(i + 1).drop_last() =~= v@.take(i as int));
        assert(v@.take(i + 1).last() == c);
        if c == '(' || c == '{' || c == '[' {
            depth += 1;
            current.push(c);
        } else if c == ')' || c == '}' || c == ']' {
            if depth > 0 {
                depth -= 1;
            }
            current.push(c);
        } else if c == ',' && depth == 0 {
            let t = text::trim(text::text_of(&current, 0, current.len()).as_str());
            assert(current@.subrange(0, current@.len() as int) =~= current@);
            if t.as_str().unicode_len() > 0 {
                done.push(t);
            }
            current = Vec::new();
        } else {
            current.push(c);
        }
        i += 1;
    }
    assert(v@.take(n as int) =~= v@);
    assert(v@.push(',').drop_last() =~= v@);
    if depth == 0 {
        let t = text::trim(text::text_of(&current, 0, current.len()).as_str());
        assert(current@.subrange(0, current@.len() as int) =~= current@);
        if t.as_str().unicode_len() > 0 {
            done.push(t);
        }
    }
    done
}

/// The text from the first `e` on.
pub open spec fn from_exponent(s: Seq<char>) -> Seq<char>
    decreases s.len(),
{
    if s.len() == 0 || s[0] == 'e' || s[0] == 'E' {
        s
    } else {
        from_exponent(s.subrange(1, s.len() as int))
    }
}

/// A number as JSON writes it: with a digit on both sides of the point, and no zero
/// before the first other digit.
pub open spec fn assembled(
    negative: bool,
    whole: Seq<char>,
    part: Seq<char>,
    exponent: Seq<char>,
) -> Seq<char> {
    let significant = text::stripped_start(whole, "0"@);
    (if negative {
        "-"@
    } else {
        ""@
    }) + (if significant.len() == 0 {
        "0"@
    } else {
        significant
    }) + "."@ + (if part.len() == 0 {
        "0"@
    } else {
        part
    }) + exponent
}

/// The number that `s` denotes as JSON writes it.
pub open spec fn json_number(s: Seq<char>, n: NumberV) -> Seq<char> {
    assembled(n.negative, n.whole, n.part, from_exponent(s))
}

/// `s` is the name of a number that JSON does not have.
pub open spec fn is_not_finite(s: Seq<char>) -> bool {
    let t = if text::has_prefix(s, "+"@) || text::has_prefix(s, "-"@) {
        s.subrange(1, s.len() as int)
    } else {
        s
    };
    text::same_but_ascii_case(t, "inf"@) || text::same_but_ascii_case(t, "infinity"@)
        || text::same_but_ascii_case(t, "nan"@)
}

/// What the value of an attribute stands for, where `parsed` is what JSON makes of it
/// as a number.
pub open spec fn value_of(val: Seq<char>, parsed: Option<JsonV>) -> JsonV {
    if text::same_but_ascii_case(val, "true"@) {
        JsonV::Bool(true)
    } else if text::same_but_ascii_case(val, "false"@) {
        JsonV::Bool(false)
    } else {
        match number::integer_in(val) {
            Some(i) => if i >= 0 {
                JsonV::Uint(i as u64)
            } else {
                JsonV::Neg(i as i64)
            },
            None => if number::number_in(val) is Some {
                match parsed {
                    Some(j) => j,
                    None => JsonV::Null,
                }
            } else if is_not_finite(val) {
                JsonV::Null
            } else {
                JsonV::Text(val)
            },
        }
    }
}

/// What the value of an attribute stands for.
pub open spec fn attribute_value(val: Seq<char>) -> JsonV {
    value_of(
        val,
        match number::number_in(val) {
            Some(n) => json::json_parsed(json_number(val, n)),
            None => None,
        },
    )
}

/// Whether `s` is the name of a number that JSON does not have.
fn names_no_finite(s: &str) -> (r: bool)
    ensures
        r == is_not_finite(s@),
{
    let v = text::chars_of(s);
    let t = if text::starts_with(s, "+") || text::starts_with(s, "-") {
        proof {
            reveal_strlit("+");
            reveal_strlit("-");
        }
        text::text_of(&v, 1, v.len())
    } else {
        s.to_owned()
    };
    text::eq_ignore_ascii_case(t.as_str(), "inf") || text::eq_ignore_ascii_case(
        t.as_str(),
        "infinity",
    ) || text::eq_ignore_ascii_case(t.as_str(), "nan")
}

/// What the value of an attribute stands for, where `parsed` is what JSON makes of it
/// as a number: a truth value, an integer, another number, or the text itself.
pub fn choose_value(val: &str, parsed: Option<Json>) -> (r: Json)
    ensures
        r@ == value_of(val@, seqs::opt_view(parsed)),
{
    if text::eq_ignore_ascii_case(val, "true") {
        return Json::Bool(true);
    }
    if text::eq_ignore_ascii_case(val, "false") {
        return Json::Bool(false);
    }
    match number::parse_integer(val) {
        Some(i) => if i >= 0 {
            Json::Uint(i as u64)
        } else {
            Json::Neg(i)
        },
        None => {
            let v = text::chars_of(val);
            if number::parse_number(&v).is_some() {
                match parsed {
                    Some(j) => j,
                    None => Json::Null,
                }
            } else if names_no_finite(val) {
                Json::Null
            } else {
                json::string(val)
            }
        },
    }
}

/// A number as JSON writes it.
fn assemble(negative: bool, whole: &str, part: &str, exponent: &str) -> (r: String)
    ensures
        r@ == assembled(negative, whole@, part@, exponent@),
{
    let sign = if negative {
        "-"
    } else {
        ""
    };
    let significant = text::strip_start(whole, "0");
    let shown = if significant.as_str().unicode_len() == 0 {
        "0"
    } else {
        significant.as_str()
    };
    let behind = if part.unicode_len() == 0 {
        "0"
    } else {
        part
    };
    let a = text::concat2(sign, shown);
    let b = text::concat2(a.as_str(), ".");
    let c = text::concat2(b.as_str(), behind);
    text::concat2(c.as_str(), exponent)
}

/// The text from the first `e` on.
fn exponent_of(v: &Vec<char>) -> (r: String)
    ensures
        r@ == from_exponent(v@),
{
    let mut k: usize = 0;
    assert(v@.subrange(0, v@.len() as int) =~= v@);
    while k < v.len() && v[k] != 'e' && v[k] != 'E'
        invariant
            k <= v@.len(),
            from_exponent(v@) == from_exponent(v@.subrange(k as int, v@.len() as int)),
        decreases v.len() - k,
    {
        let ghost rest = v@.subrange(k as int, v@.len() as int);
        assert(rest[0] == v@[k as int]);
        assert(rest.subrange(1, rest.len() as int) =~= v@.subrange(k + 1, v@.len() as int));
        k += 1;
    }
    proof {
        let rest = v@.subrange(k as int, v@.len() as int);
        if k < v@.len() {
            assert(rest[0] == v@[k as int]);
        }
    }
    text::text_of(v, k, v.len())
}

/// The number that `s` denotes as JSON writes it.
pub fn write_number(s: &str) -> (r: Option<String>)
    ensures
        match number::number_in(s@) {
            Some(n) => r is Some && r->0@ == json_number(s@, n),
            None => r is None,
        },
{
    let v = text::chars_of(s);
    match number::parse_number(&v) {
        Some(p) => {
            let whole = text::text_of(&v, p.whole_from, p.whole_to);
            let part = text::text_of(&v, p.part_from, p.part_to);
            let exponent = exponent_of(&v);
            Some(assemble(p.negative, whole.as_str(), part.as_str(), exponent.as_str()))
        },
        None => None,
    }
}

/// What the value of an attribute stands for: see [`choose_value`].
fn read_value(val: &str) -> (r: Json)
    ensures
        r@ == attribute_value(val@),
{
    let parsed = match write_number(val) {
        Some(n) => json::parse_json(n.as_str()),
        None => None,
    };
    choose_value(val, parsed)
}

/// The attributes that the parts of a text give, `name: value` each; of two with one
/// name the later one.
pub open spec fn pairs_put(parts: Seq<Seq<char>>) -> MetadataV
    decreases parts.len(),
{
    if parts.len() == 0 {
        seq![]
    } else {
        let before = pairs_put(parts.drop_last());
        match text::parted(parts.last(), ":"@) {
            Some((k, v)) => table::put(
                before,
                text::stripped(text::trimmed(k), "\"'"@),
                attribute_value(text::stripped(text::trimmed(v), "\"'"@)),
            ),
            None => before,
        }
    }
}

/// An attribute `name: value` gives the value under the name: what stands before the first
/// colon is the name, and what stands behind it the value. Those before it stay, but one of
/// the same name.
pub proof fn law_attributes_are_read_by_name(
    parts: Seq<Seq<char>>,
    name: Seq<char>,
    value: Seq<char>,
    other: Seq<char>,
)
    requires
        !name.contains(':'),
        other != text::stripped(text::trimmed(name), "\"'"@),
    ensures
        ({
            let after = pairs_put(parts.push(name + ":"@ + value));
            let key = text::stripped(text::trimmed(name), "\"'"@);
            let val = text::stripped(text::trimmed(value), "\"'"@);
            &&& table::lookup(after, key) == Some(attribute_value(val))
            &&& table::lookup(after, other) == table::lookup(pairs_put(parts), other)
        }),
{
    reveal_strlit(":");
    assert(":"@.len() == 1);
    let s = name + ":"@ + value;
    assert(parts.push(s).drop_last() =~= parts);
    text::lemma_find_from(s, ":"@, 0);
    let n = name.len() as int;
    assert(s.subrange(n, n + 1) =~= ":"@);
    assert(text::occurs_at(s, ":"@, n));
    assert forall|i: int| 0 <= i < n implies !text::occurs_at(s, ":"@, i) by {
        if text::occurs_at(s, ":"@, i) {
            assert(s.subrange(i, i + 1)[0] == ':');
            assert(name[i] == ':');
        }
    }
    assert(text::find_from(s, ":"@, 0) == Some(n));
    assert(s.take(n) =~= name);
    assert(s.skip(n + 1) =~= value);
    let key = text::stripped(text::trimmed(name), "\"'"@);
    let val = attribute_value(text::stripped(text::trimmed(value), "\"'"@));
    table::lemma_lookup_put(pairs_put(parts), key, val, other);
    table::lemma_lookup_put(pairs_put(parts), key, val, key);
}

/// The value of an attribute that reads as a truth value is one, one that reads as an
/// integer is that integer, and one that reads as no number is the text itself.
pub proof fn law_attribute_values_are_what_they_read_as(val: Seq<char>, parsed: Option<JsonV>)
    ensures
        text::same_but_ascii_case(val, "true"@) ==> value_of(val, parsed) == JsonV::Bool(true),
        text::same_but_ascii_case(val, "false"@) ==> value_of(val, parsed) == JsonV::Bool(false),
        !text::same_but_ascii_case(val, "true"@) && !text::same_but_ascii_case(val, "false"@) ==> {
            &&& number::integer_in(val) matches Some(i) ==> match value_of(val, parsed) {
                JsonV::Uint(u) => u == i,
                JsonV::Neg(n) => n == i && i < 0,
                _ => false,
            }
            &&& number::integer_in(val) is None && number::number_in(val) is None
                && !is_not_finite(val) ==> value_of(val, parsed) == JsonV::Text(val)
        },
{
    reveal_strlit("true");
    assert("true"@.len() == 4);
    reveal_strlit("false");
    assert("false"@.len() == 5);
}

/// The attributes that a text gives, where `parsed` is what it is as JSON.
pub open spec fn attributes_given(t: Seq<char>, parsed: Option<JsonV>) -> MetadataV {
    match parsed {
        Some(JsonV::Object(o)) => if text::has_prefix(t, "{"@) && text::has_suffix(t, "}"@) {
            table::put_all(seq![], o)
        } else {
            pairs_put(top_level_parts(t))
        },
        _ => pairs_put(top_level_parts(t)),
    }
}

/// The attributes that a text gives.
pub open spec fn attributes_of(s: Seq<char>) -> MetadataV {
    let t = text::trimmed(s);
    if t.len() == 0 {
        seq![]
    } else {
        attributes_given(t, json::json_parsed(t))
    }
}

/// The attributes that a text gives, where `parsed` is what it is as JSON: the members
/// of an object, or else `name: value` between commas.
pub fn choose_attributes(t: &str, parsed: Option<Json>) -> (r: Metadata)
    ensures
        r@ == attributes_given(t@, seqs::opt_view(parsed)),
{
    if text::starts_with(t, "{") && text::ends_with(t, "}") {
        if let Some(Json::Object(o)) = &parsed {
            return chunking::metadata_of(o);
        }
    }
    let parts = split_top_level(t);
    let ghost all = seqs::views(parts@);
    let mut out: Metadata = Table::new();
    assert(pairs_put(all.take(0)) =~= seq![]);
    let mut i: usize = 0;
    while i < parts.len()
        invariant
            i <= parts@.len(),
            all == seqs::views(parts@),
            out@ == pairs_put(all.take(i as int)),
        decreases parts.len() - i,
    {
        assert(all.take(i + 1).drop_last() =~= all.take(i as int));
        assert(all.take(i + 1).last() == parts@[i as int]@);
        if let Some((k, v)) = text::split_once(parts[i].as_str(), ":") {
            let key = text::strip(text::trim(k.as_str()).as_str(), "\"'");
            let val = text::strip(text::trim(v.as_str()).as_str(), "\"'");
            let value = read_value(val.as_str());
            out.insert(key, value);
        }
        i += 1;
    }
    assert(all.take(i as int) =~= all);
    out
}

/// The attributes that a text gives: a JSON object, or `name: value` between commas.
pub fn parse_attributes_string(s: &str) -> (r: Metadata)
    ensures
        r@ == attributes_of(s@),
{
    let t = text::trim(s);
    if t.as_str().unicode_len() == 0 {
        return Table::new();
    }
    let parsed = json::parse_json(t.as_str());
    choose_attributes(t.as_str(), parsed)
}

/// The entity that a record of `n` fields states, where `head` is its first field in
/// lower case and the rest is what the others give.
pub open spec fn stated_entity(
    n: nat,
    head: Seq<char>,
    name: Seq<char>,
    id: Seq<char>,
    t: EntityType,
    description: Seq<char>,
    attributes: MetadataV,
) -> Option<EntityV> {
    if n < 3 || !text::contains(head, "entity"@) || name.len() == 0 {
        None
    } else {
        Some(
            EntityV {
                description: Some(description),
                metadata: attributes,
                ..crate::types::graph::plain_entity(id, name, t)
            },
        )
    }
}

/// The entity that a record states.
pub open spec fn entity_in(item: Seq<char>) -> Option<EntityV> {
    let fs = fields(item);
    let name = clean_name(field_or_blank(fs, 1));
    stated_entity(
        fs.len(),
        text::lower(field_or_blank(fs, 0)),
        name,
        graph_build::id_of_name(name),
        crate::types::vocab::entity_type_loosely(text::lower(type_token(field_or_blank(fs, 2)))),
        clean_text(field_or_blank(fs, 3)),
        attributes_of(field_or_blank(fs, 4)),
    )
}

/// The entity that a record of `n` fields states, where `head` is its first field in
/// lower case: nothing without a name and a type.
pub fn state_entity(
    n: usize,
    head: &str,
    name: &str,
    id: &str,
    t: EntityType,
    description: &str,
    attributes: Metadata,
) -> (r: Option<Entity>)
    ensures
        seqs::opt_view(r) == stated_entity(
            n as nat,
            head@,
            name@,
            id@,
            t,
            description@,
            attributes@,
        ),
{
    if n < 3 || !text::has(head, "entity") || name.unicode_len() == 0 {
        return None;
    }
    let mut e = Entity::new(id, name, t);
    e.description = Some(description.to_owned());
    e.metadata = attributes;
    Some(e)
}

/// The entity that a record states.
pub fn parse_entity_item(item: &str) -> (r: Option<Entity>)
    ensures
        seqs::opt_view(r) == entity_in(item@),
{
    let fs = split_fields(item);
    let head = text::to_lower(field_at(&fs, 0));
    let name = clean_entity_name(field_at(&fs, 1));
    let token = read_type_token(field_at(&fs, 2));
    let t = EntityType::from_loose(text::to_lower(token.as_str()).as_str());
    let description = clean_description(field_at(&fs, 3));
    let attributes = parse_attributes_string(field_at(&fs, 4));
    let id = graph_build::entity_id(name.as_str());
    state_entity(
        fs.len(),
        head.as_str(),
        name.as_str(),
        id.as_str(),
        t,
        description.as_str(),
        attributes,
    )
}

/// What a [`RelData`] stands for.
pub struct RelDataV {
    pub source_id: Seq<char>,
    pub target_id: Seq<char>,
    pub source_name: Seq<char>,
    pub target_name: Seq<char>,
    pub predicate: Seq<char>,
    pub description: Seq<char>,
    pub strength: FractionV,
}

/// What a record says of a relationship.
pub struct RelData {
    pub source_id: String,
    pub target_id: String,
    pub source_name: String,
    pub target_name: String,
    pub predicate: String,
    pub description: String,
    pub strength: Fraction,
}

impl View for RelData {
    type V = RelDataV;

    open spec fn view(&self) -> RelDataV {
        RelDataV {
            source_id: self.source_id@,
            target_id: self.target_id@,
            source_name: self.source_name@,
            target_name: self.target_name@,
            predicate: self.predicate@,
            description: self.description@,
            strength: self.strength@,
        }
    }
}

/// A name as entities are found by.
pub open spec fn name_key(name: Seq<char>) -> Seq<char> {
    text::trimmed(text::lower(name))
}

/// A name as entities are found by: in lower case, trimmed.
pub fn normalize_key(name: &str) -> (r: String)
    ensures
        r@ == name_key(name@),
{
    text::trim(text::to_lower(name).as_str())
}

/// The id that `ids` has for a name, or that the name makes.
pub open spec fn resolved_id(ids: Seq<(Seq<char>, Seq<char>)>, name: Seq<char>) -> Seq<char> {
    match table::lookup(ids, name_key(name)) {
        Some(id) => id,
        None => graph_build::id_of_name(name),
    }
}

/// The id that `ids` has for a name, or that the name makes.
fn resolve_entity_id(name: &str, ids: &Table<String>) -> (r: String)
    ensures
        r@ == resolved_id(ids@, name@),
{
    match ids.get(normalize_key(name).as_str()) {
        Some(id) => id.clone(),
        None => graph_build::entity_id(name),
    }
}

/// `c` is a digit or the point.
pub open spec fn is_numeric(c: char) -> bool {
    number::is_digit(c) || c == '.'
}

/// The digits and points of a text.
pub open spec fn numerals(s: Seq<char>) -> Seq<char>
    decreases s.len(),
{
    if s.len() == 0 {
        seq![]
    } else if is_numeric(s.last()) {
        numerals(s.drop_last()).push(s.last())
    } else {
        numerals(s.drop_last())
    }
}

/// The strength that a field gives, from zero to one: four fifths where it gives none.
pub open spec fn strength_in(field: Option<Seq<char>>) -> FractionV {
    match field {
        Some(s) => match number::number_in(numerals(s)) {
            Some(n) => fraction::clamped(n),
            None => fraction::eight_tenths(),
        },
        None => fraction::eight_tenths(),
    }
}

/// The strength that a field gives.
pub fn read_strength(field: Option<&str>) -> (r: Fraction)
    ensures
        r@ == strength_in(
            match field {
                Some(s) => Some(s@),
                None => None,
            },
        ),
{
    let s = match field {
        Some(s) => s,
        None => {
            return Fraction::eight_tenths();
        },
    };
    let v = text::chars_of(s);
    let mut digits: Vec<char> = Vec::new();
    let mut i: usize = 0;
    while i < v.len()
        invariant
            i <= v@.len(),
            v@ == s@,
            digits@ =~= numerals(v@.take(i as int)),
        decreases v.len() - i,
    {
        assert(v@.take(i + 1).drop_last() =~= v@.take(i as int));
        assert(v@.take(i + 1).last() == v@[i as int]);
        if number::is_digit_char(v[i]) || v[i] == '.' {
            digits.push(v[i]);
        }
        i += 1;
    }
    assert(v@.take(i as int) =~= v@);
    match Fraction::clamp(&digits) {
        Some(f) => f,
        None => Fraction::eight_tenths(),
    }
}

/// What a record says of a relationship; `ids` are the ids of entities by name.
pub open spec fn relationship_in(item: Seq<char>, ids: Seq<(Seq<char>, Seq<char>)>) -> Option<
    RelDataV,
> {
    let fs = fields(item);
    if fs.len() < 4 || !text::contains(text::lower(fs[0]), "relationship"@) {
        None
    } else {
        let source = clean_name(fs[1]);
        let target = clean_name(fs[2]);
        Some(
            RelDataV {
                source_id: resolved_id(ids, source),
                target_id: resolved_id(ids, target),
                source_name: source,
                target_name: target,
                predicate: clean_text(fs[3]),
                description: clean_text(field_or_blank(fs, 4)),
                strength: strength_in(
                    if fs.len() > 5 {
                        Some(fs[5])
                    } else {
                        None
                    },
                ),
            },
        )
    }
}

/// What a record says of a relationship; `ids` are the ids of entities by name.
pub fn parse_relationship_item(item: &str, ids: &Table<String>) -> (r: Option<RelData>)
    ensures
        seqs::opt_view(r) == relationship_in(item@, ids@),
{
    let fs = split_fields(item);
    if fs.len() < 4 {
        return None;
    }
    let ghost all = fields(item@);
    assert(all[0] == fs@[0]@);
    if !text::has(text::to_lower(fs[0].as_str()).as_str(), "relationship") {
        return None;
    }
    assert(all[1] == fs@[1]@);
    assert(all[2] == fs@[2]@);
    assert(all[3] == fs@[3]@);
    let source = clean_entity_name(fs[1].as_str());
    let target = clean_entity_name(fs[2].as_str());
    let strength = read_strength(
        if fs.len() > 5 {
            assert(all[5] == fs@[5]@);
            Some(fs[5].as_str())
        } else {
            None
        },
    );
    Some(
        RelData {
            source_id: resolve_entity_id(source.as_str(), ids),
            target_id: resolve_entity_id(target.as_str(), ids),
            source_name: source,
            target_name: target,
            predicate: clean_description(fs[3].as_str()),
            description: clean_description(field_at(&fs, 4)),
            strength,
        },
    )
}

/// A field that does not hold the delimiter ends where the delimiter stands behind it.
proof fn lemma_field_first(a: Seq<char>, b: Seq<char>)
    requires
        !text::contains(a, "<|>"@),
    ensures
        text::split(a + "<|>"@ + b, "<|>"@) == seq![a] + text::split(b, "<|>"@),
{
    reveal_strlit("<|>");
    let d = "<|>"@;
    let s = a + d + b;
    assert forall|i: int| 0 <= i < a.len() implies !text::occurs_at(s, d, i) by {
        if text::occurs_at(s, d, i) {
            let w = s.subrange(i, i + 3);
            assert(w[0] == s[i] && w[1] == s[i + 1] && w[2] == s[i + 2]);
            if i + 3 <= a.len() {
                assert(a.subrange(i, i + 3) =~= w);
                assert(text::occurs_at(a, d, i));
            } else if i + 2 == a.len() {
                assert(s[i + 2] == d[0]);
            } else {
                assert(s[i + 1] == d[0]);
            }
        }
    }
    text::lemma_split_first(a, d, b);
}

/// What stands between a bracket that opens a record and the one that ends it.
proof fn lemma_unbracketed(inner: Seq<char>)
    ensures
        unbracketed("("@ + inner + ")"@) == inner,
        completed("("@ + inner + ")"@) == "("@ + inner + ")"@,
{
    reveal_strlit("(");
    reveal_strlit(")");
    let s = "("@ + inner + ")"@;
    assert(s[0] == '(');
    assert(s.last() == ')');
    assert(text::trimmed(s) == s);
    assert(s.subrange(0, 1) =~= "("@);
    assert(s.subrange(s.len() - 1, s.len() as int) =~= ")"@);
    assert(s.subrange(1, s.len() - 1) =~= inner);
}

/// The fields of a record are what stands between the delimiters in its brackets, in
/// that order: of `(head<|>a<|>b<|>rest)` the second is `a` and the third `b`.
proof fn lemma_fields(head: Seq<char>, a: Seq<char>, b: Seq<char>, rest: Seq<char>)
    requires
        !text::contains(head, "<|>"@),
        !text::contains(a, "<|>"@),
        !text::contains(b, "<|>"@),
    ensures
        fields("("@ + (head + "<|>"@ + (a + "<|>"@ + (b + "<|>"@ + rest))) + ")"@) == seq![
            head,
            a,
            b,
        ] + text::split(rest, "<|>"@),
        text::split(rest, "<|>"@).len() > 0,
{
    let r2 = b + "<|>"@ + rest;
    let r1 = a + "<|>"@ + r2;
    let r0 = head + "<|>"@ + r1;
    lemma_unbracketed(r0);
    lemma_field_first(head, r1);
    lemma_field_first(a, r2);
    lemma_field_first(b, rest);
    assert(seq![head] + (seq![a] + (seq![b] + text::split(rest, "<|>"@))) =~= seq![head, a, b]
        + text::split(rest, "<|>"@));
}

/// Of a record `(head<|>source<|>target<|>predicate<|>…)` the first name is that of the
/// source and the second that of the target, whatever follows. Each end has the id that
/// is known for its name, or else the one that the name makes. Only what calls itself
/// something else is no relationship.
pub proof fn law_first_name_is_the_source(
    head: Seq<char>,
    source: Seq<char>,
    target: Seq<char>,
    predicate: Seq<char>,
    rest: Seq<char>,
    ids: Seq<(Seq<char>, Seq<char>)>,
)
    requires
        !text::contains(head, "<|>"@),
        !text::contains(source, "<|>"@),
        !text::contains(target, "<|>"@),
        !text::contains(predicate, "<|>"@),
    ensures
        ({
            let record = "("@ + (head + "<|>"@ + (source + "<|>"@ + (target + "<|>"@ + (predicate
                + "<|>"@ + rest)))) + ")"@;
            let known = |name: Seq<char>| table::lookup(ids, text::trimmed(text::lower(name)));
            match relationship_in(record, ids) {
                Some(r) => {
                    &&& text::contains(text::lower(head), "relationship"@)
                    &&& r.source_name == clean_name(source)
                    &&& r.target_name == clean_name(target)
                    &&& r.predicate == clean_text(predicate)
                    &&& known(clean_name(source)) is Some ==> Some(r.source_id) == known(
                        clean_name(source),
                    )
                    &&& known(clean_name(target)) is Some ==> Some(r.target_id) == known(
                        clean_name(target),
                    )
                    &&& known(clean_name(source)) is None ==> r.source_id
                        == graph_build::id_of_name(clean_name(source))
                    &&& known(clean_name(target)) is None ==> r.target_id
                        == graph_build::id_of_name(clean_name(target))
                },
                None => !text::contains(text::lower(head), "relationship"@),
            }
        }),
{
    lemma_fields(head, source, target, predicate + "<|>"@ + rest);
    lemma_field_first(predicate, rest);
}

/// The type of predicate that a description speaks of, where `direct` is what it names
/// and `lowered` the description in lower case.
pub open spec fn inferred_type(
    direct: PredicateType,
    description: Seq<char>,
    lowered: Seq<char>,
) -> PredicateType {
    if direct != PredicateType::RelatedTo || text::same_but_ascii_case(
        text::trimmed(description),
        "related_to"@,
    ) {
        direct
    } else if text::contains(lowered, "use"@) || text::contains(lowered, "utilize"@)
        || text::contains(lowered, "employ"@) || text::contains(lowered, "apply"@) {
        PredicateType::Uses
    } else if text::contains(lowered, "part of"@) || text::contains(lowered, "belong"@)
        || text::contains(lowered, "component"@) || text::contains(lowered, "member"@) {
        PredicateType::PartOf
    } else if text::contains(lowered, "located"@) || text::contains(lowered, "based in"@)
        || text::contains(lowered, "situated"@) {
        PredicateType::LocatedIn
    } else if text::contains(lowered, "work"@) || text::contains(lowered, "employed"@)
        || text::contains(lowered, "affiliated"@) {
        PredicateType::WorksFor
    } else if text::contains(lowered, "own"@) || text::contains(lowered, "possess"@)
        || text::contains(lowered, "has"@) {
        PredicateType::HasProperty
    } else {
        PredicateType::RelatedTo
    }
}

/// The type of predicate that a description speaks of, where `direct` is what it names
/// and `lowered` the description in lower case.
pub fn infer_type(direct: PredicateType, description: &str, lowered: &str) -> (r: PredicateType)
    ensures
        r == inferred_type(direct, description@, lowered@),
{
    if direct != PredicateType::RelatedTo || text::eq_ignore_ascii_case(
        text::trim(description).as_str(),
        "related_to",
    ) {
        direct
    } else if text::has(lowered, "use") || text::has(lowered, "utilize") || text::has(
        lowered,
        "employ",
    ) || text::has(lowered, "apply") {
        PredicateType::Uses
    } else if text::has(lowered, "part of") || text::has(lowered, "belong") || text::has(
        lowered,
        "component",
    ) || text::has(lowered, "member") {
        PredicateType::PartOf
    } else if text::has(lowered, "located") || text::has(lowered, "based in") || text::has(
        lowered,
        "situated",
    ) {
        PredicateType::LocatedIn
    } else if text::has(lowered, "work") || text::has(lowered, "employed") || text::has(
        lowered,
        "affiliated",
    ) {
        PredicateType::WorksFor
    } else if text::has(lowered, "own") || text::has(lowered, "possess") || text::has(
        lowered,
        "has",
    ) {
        PredicateType::HasProperty
    } else {
        PredicateType::RelatedTo
    }
}

/// A predicate that is named is of the type that it names. One that is not is of the type
/// that its words tell of, the first of these that does: using, being part of, being
/// located, working for, having. Where no word tells of any, it is only related.
pub proof fn law_words_tell_the_type(direct: PredicateType, description: Seq<char>, w: Seq<char>)
    requires
        !text::same_but_ascii_case(text::trimmed(description), "related_to"@),
    ensures
        ({
            let r = inferred_type(direct, description, w);
            let uses = text::contains(w, "use"@) || text::contains(w, "utilize"@)
                || text::contains(w, "employ"@) || text::contains(w, "apply"@);
            let part = text::contains(w, "part of"@) || text::contains(w, "belong"@)
                || text::contains(w, "component"@) || text::contains(w, "member"@);
            let place = text::contains(w, "located"@) || text::contains(w, "based in"@)
                || text::contains(w, "situated"@);
            let work = text::contains(w, "work"@) || text::contains(w, "employed"@)
                || text::contains(w, "affiliated"@);
            let holding = text::contains(w, "own"@) || text::contains(w, "possess"@)
                || text::contains(w, "has"@);
            &&& direct != PredicateType::RelatedTo ==> r == direct
            &&& direct == PredicateType::RelatedTo ==> {
                &&& uses ==> r == PredicateType::Uses
                &&& !uses && part ==> r == PredicateType::PartOf
                &&& !uses && !part && place ==> r == PredicateType::LocatedIn
                &&& !uses && !part && !place && work ==> r == PredicateType::WorksFor
                &&& !uses && !part && !place && !work && holding ==> r == PredicateType::HasProperty
                &&& !uses && !part && !place && !work && !holding ==> r == PredicateType::RelatedTo
            }
        }),
{
}

/// The type of predicate that a description speaks of.
pub open spec fn inferred(description: Seq<char>) -> PredicateType {
    inferred_type(
        crate::types::vocab::predicate_type_loosely(description),
        description,
        text::lower(description),
    )
}

/// The type of predicate that a description speaks of: the one that it names, or else
/// the one that its words tell of.
pub fn infer_predicate_type(description: &str) -> (r: PredicateType)
    ensures
        r == inferred(description@),
{
    let lowered = text::to_lower(description);
    infer_type(PredicateType::from_loose(description), description, lowered.as_str())
}

/// The first fifty characters.
pub open spec fn label_part(s: Seq<char>) -> Seq<char> {
    if s.len() <= 50 {
        s
    } else {
        s.take(50)
    }
}

/// The relationship that is stated of two entities: with its ends the other way round
/// where they are in the wrong order.
pub open spec fn tied(rel: RelDataV, subject: EntityV, object: EntityV) -> TripleV {
    let p = crate::types::graph::labelled_predicate(
        inferred(rel.predicate),
        label_part(rel.predicate),
    );
    let turned = graph_build::reversed(subject, p, object);
    TripleV {
        confidence: Some(rel.strength),
        metadata: table::put(
            table::put(
                table::put(seq![], "description"@, JsonV::Text(rel.description)),
                "source_name"@,
                JsonV::Text(rel.source_name),
            ),
            "target_name"@,
            JsonV::Text(rel.target_name),
        ),
        ..crate::types::graph::plain_triple(
            if turned {
                object
            } else {
                subject
            },
            p,
            if turned {
                subject
            } else {
                object
            },
        )
    }
}

/// The relationship that is stated of two entities.
pub fn build_triple_from_rel(rel: &RelData, subject: &Entity, object: &Entity) -> (r: Triple)
    ensures
        r@ == tied(rel@, subject@, object@),
{
    let v = text::chars_of(rel.predicate.as_str());
    let label = if v.len() <= 50 {
        rel.predicate.clone()
    } else {
        text::text_of(&v, 0, 50)
    };
    assert(label@ =~= label_part(rel@.predicate));
    let t = infer_predicate_type(rel.predicate.as_str());
    let predicate = Predicate::with_label(t, label.as_str());
    let mut r = if graph_build::should_swap_passive_by(subject, &predicate, object) {
        Triple::new(object.dup(), predicate, subject.dup())
    } else {
        Triple::new(subject.dup(), predicate, object.dup())
    };
    r.confidence = Some(rel.strength.dup());
    r.metadata.insert("description".to_owned(), json::string(rel.description.as_str()));
    r.metadata.insert("source_name".to_owned(), json::string(rel.source_name.as_str()));
    r.metadata.insert("target_name".to_owned(), json::string(rel.target_name.as_str()));
    r
}

/// What has been read of records: entities by id, their ids by name, relationships.
pub struct ReadingV {
    pub entities: Seq<(Seq<char>, EntityV)>,
    pub ids: Seq<(Seq<char>, Seq<char>)>,
    pub relationships: Seq<RelDataV>,
}

/// What has been read after one more record.
pub open spec fn item_read(st: ReadingV, item: Seq<char>) -> ReadingV {
    let t = completed(item);
    match record_kind(t) {
        RecordKind::Entity => match entity_in(t) {
            Some(e) => ReadingV {
                entities: table::put(st.entities, e.id, e),
                ids: table::put(st.ids, name_key(e.label), e.id),
                ..st
            },
            None => st,
        },
        RecordKind::Relationship => match relationship_in(t, st.ids) {
            Some(rel) => ReadingV { relationships: st.relationships.push(rel), ..st },
            None => st,
        },
        RecordKind::Neither => st,
    }
}

/// What records say, one after the other.
pub open spec fn items_read(items: Seq<Seq<char>>) -> ReadingV
    decreases items.len(),
{
    if items.len() == 0 {
        ReadingV { entities: seq![], ids: seq![], relationships: seq![] }
    } else {
        item_read(items_read(items.drop_last()), items.last())
    }
}

/// The relationships both of whose ends are known.
pub open spec fn all_tied(rels: Seq<RelDataV>, es: Seq<(Seq<char>, EntityV)>) -> Seq<TripleV>
    decreases rels.len(),
{
    if rels.len() == 0 {
        seq![]
    } else {
        let before = all_tied(rels.drop_last(), es);
        let rel = rels.last();
        match (table::lookup(es, rel.source_id), table::lookup(es, rel.target_id)) {
            (Some(s), Some(o)) => before.push(tied(rel, s, o)),
            _ => before,
        }
    }
}

/// What a text of records says.
pub open spec fn output_read(output: Seq<char>) -> ParsedResultV {
    let found = items(output);
    let st = items_read(found);
    ParsedResultV {
        raw_response: output,
        entities_and_triples: seq![],
        entities: st.entities,
        relationships: seq![],
        triples: all_tied(st.relationships, st.entities),
        metadata: table::put(seq![], "item_count"@, JsonV::Uint(found.len() as u64)),
    }
}

/// The relationships both of whose ends are known.
fn tie_all(rels: &Vec<RelData>, es: &Table<Entity>) -> (r: Vec<Triple>)
    ensures
        seqs::views(r@) == all_tied(seqs::views(rels@), es@),
{
    let ghost all = seqs::views(rels@);
    let mut out: Vec<Triple> = Vec::new();
    assert(all_tied(all.take(0), es@) =~= seq![]);
    assert(seqs::views(out@) =~= seq![]);
    let mut i: usize = 0;
    while i < rels.len()
        invariant
            i <= rels@.len(),
            all == seqs::views(rels@),
            seqs::views(out@) == all_tied(all.take(i as int), es@),
        decreases rels.len() - i,
    {
        assert(all.take(i + 1).drop_last() =~= all.take(i as int));
        assert(all.take(i + 1).last() == rels@[i as int]@);
        if let Some(s) = es.get(rels[i].source_id.as_str()) {
            if let Some(o) = es.get(rels[i].target_id.as_str()) {
                out.push(build_triple_from_rel(&rels[i], s, o));
            }
        }
        i += 1;
    }
    assert(all.take(i as int) =~= all);
    out
}

/// What a text of records says: entities, and the relationships between them. A
/// relationship is tied to entities by name; one with an end that the text does not
/// state is left out.
pub fn parse_output(output: &str, _config: &ExtractionConfig) -> (r: ParsedResult)
    ensures
        r@ == output_read(output@),
{
    let found = split_to_items(output);
    let ghost all = seqs::views(found@);
    let mut entities: Table<Entity> = Table::new();
    let mut ids: Table<String> = Table::new();
    let mut rels: Vec<RelData> = Vec::new();
    assert(seqs::views(rels@) =~= items_read(all.take(0)).relationships);
    assert(seqs::views(found@).len() == found@.len());
    let mut i: usize = 0;
    while i < found.len()
        invariant
            i <= found@.len(),
            all == seqs::views(found@),
            entities@ == items_read(all.take(i as int)).entities,
            ids@ == items_read(all.take(i as int)).ids,
            seqs::views(rels@) == items_read(all.take(i as int)).relationships,
        decreases found.len() - i,
    {
        assert(all.take(i + 1).drop_last() =~= all.take(i as int));
        assert(all.take(i + 1).last() == found@[i as int]@);
        let item = complete_item(found[i].as_str());
        match kind_of_record(item.as_str()) {
            RecordKind::Entity => {
                if let Some(e) = parse_entity_item(item.as_str()) {
                    ids.insert(normalize_key(e.label.as_str()), e.id.clone());
                    let id = e.id.clone();
                    entities.insert(id, e);
                }
            },
            RecordKind::Relationship => {
                if let Some(rel) = parse_relationship_item(item.as_str(), &ids) {
                    rels.push(rel);
                }
            },
            RecordKind::Neither => {},
        }
        i += 1;
    }
    assert(all.take(i as int) =~= all);
    let triples = tie_all(&rels, &entities);
    let mut metadata: Metadata = Table::new();
    metadata.insert("item_count".to_owned(), Json::Uint(found.len() as u64));
    let r = ParsedResult {
        raw_response: output.to_owned(),
        entities_and_triples: Vec::new(),
        entities,
        relationships: Vec::new(),
        triples,
        metadata,
    };
    assert(r@.entities_and_triples =~= seq![]);
    assert(r@.relationships =~= seq![]);
    r
}

/// The types that records give their entities, as they are written, by name.
pub open spec fn type_tokens(items: Seq<Seq<char>>) -> Seq<(Seq<char>, Seq<char>)>
    decreases items.len(),
{
    if items.len() == 0 {
        seq![]
    } else {
        let before = type_tokens(items.drop_last());
        let fs = fields(completed(items.last()));
        if fs.len() < 3 || !text::contains(text::lower(fs[0]), "entity"@) || clean_name(
            fs[1],
        ).len() == 0 {
            before
        } else {
            table::put(before, name_key(clean_name(fs[1])), type_token(fs[2]))
        }
    }
}

/// The types that records give their entities, as they are written, by name: what
/// [`parse_output`] keeps of them is only which of the known types they are.
pub fn entity_type_tokens(output: &str) -> (r: Table<String>)
    ensures
        r@ == type_tokens(items(output@)),
{
    let found = split_to_items(output);
    let ghost all = seqs::views(found@);
    let mut out: Table<String> = Table::new();
    assert(type_tokens(all.take(0)) =~= seq![]);
    let mut i: usize = 0;
    while i < found.len()
        invariant
            i <= found@.len(),
            all == seqs::views(found@),
            out@ == type_tokens(all.take(i as int)),
        decreases found.len() - i,
    {
        assert(all.take(i + 1).drop_last() =~= all.take(i as int));
        assert(all.take(i + 1).last() == found@[i as int]@);
        let item = complete_item(found[i].as_str());
        let fs = split_fields(item.as_str());
        if fs.len() >= 3 {
            let ghost fv = fields(item@);
            assert(fv[0] == fs@[0]@);
            assert(fv[1] == fs@[1]@);
            assert(fv[2] == fs@[2]@);
            let name = clean_entity_name(fs[1].as_str());
            if text::has(text::to_lower(fs[0].as_str()).as_str(), "entity")
                && name.as_str().unicode_len() > 0 {
                let token = read_type_token(fs[2].as_str());
                out.insert(normalize_key(name.as_str()), token);
            }
        }
        i += 1;
    }
    assert(all.take(i as int) =~= all);
    out
}

/// The ids of entities by name; of two with one name that of the later one.
pub open spec fn ids_by_name(es: Seq<(Seq<char>, EntityV)>) -> Seq<(Seq<char>, Seq<char>)>
    decreases es.len(),
{
    if es.len() == 0 {
        seq![]
    } else {
        table::put(ids_by_name(es.drop_last()), name_key(es.last().1.label), es.last().1.id)
    }
}

/// A relationship with the note that it was asked for.
pub open spec fn noted_as_gleaned(t: TripleV) -> TripleV {
    TripleV { metadata: table::put(t.metadata, "relation_gleaned"@, JsonV::Bool(true)), ..t }
}

/// The relationships between known entities that records state.
pub open spec fn relations_read(items: Seq<Seq<char>>, known: Seq<(Seq<char>, EntityV)>) -> Seq<
    TripleV,
>
    decreases items.len(),
{
    if items.len() == 0 {
        seq![]
    } else {
        let before = relations_read(items.drop_last(), known);
        let t = completed(items.last());
        if text::contains(text::lower(head_of(t)), "relationship"@) && text::contains(
            t,
            TUPLE_DELIMITER@,
        ) {
            match relationship_in(t, ids_by_name(known)) {
                Some(rel) => match (
                    table::lookup(known, rel.source_id),
                    table::lookup(known, rel.target_id),
                ) {
                    (Some(s), Some(o)) => before.push(noted_as_gleaned(tied(rel, s, o))),
                    _ => before,
                },
                None => before,
            }
        } else {
            before
        }
    }
}

/// The ids of entities by name.
fn collect_ids(es: &Table<Entity>) -> (r: Table<String>)
    ensures
        r@ == ids_by_name(es@),
{
    let mut out: Table<String> = Table::new();
    assert(ids_by_name(es@.take(0)) =~= seq![]);
    let mut i: usize = 0;
    while i < es.len()
        invariant
            i <= es@.len(),
            out@ == ids_by_name(es@.take(i as int)),
        decreases es@.len() - i,
    {
        assert(es@.take(i + 1).drop_last() =~= es@.take(i as int));
        let e = es.value_at(i);
        out.insert(normalize_key(e.label.as_str()), e.id.clone());
        i += 1;
    }
    assert(es@.take(i as int) =~= es@);
    out
}

/// The relationships between known entities that a text of records states. A
/// relationship with an end that is not known is left out.
pub fn parse_relations_against(output: &str, known: &Table<Entity>) -> (r: Vec<Triple>)
    ensures
        seqs::views(r@) == relations_read(items(output@), known@),
{
    let ids = collect_ids(known);
    let found = split_to_items(output);
    let ghost all = seqs::views(found@);
    let mut out: Vec<Triple> = Vec::new();
    assert(relations_read(all.take(0), known@) =~= seq![]);
    assert(seqs::views(out@) =~= seq![]);
    let mut i: usize = 0;
    while i < found.len()
        invariant
            i <= found@.len(),
            all == seqs::views(found@),
            ids@ == ids_by_name(known@),
            seqs::views(out@) == relations_read(all.take(i as int), known@),
        decreases found.len() - i,
    {
        assert(all.take(i + 1).drop_last() =~= all.take(i as int));
        assert(all.take(i + 1).last() == found@[i as int]@);
        let item = complete_item(found[i].as_str());
        let head = text::to_lower(record_head(item.as_str()).as_str());
        if text::has(head.as_str(), "relationship") && text::has(item.as_str(), TUPLE_DELIMITER) {
            if let Some(rel) = parse_relationship_item(item.as_str(), &ids) {
                if let Some(s) = known.get(rel.source_id.as_str()) {
                    if let Some(o) = known.get(rel.target_id.as_str()) {
                        let mut t = build_triple_from_rel(&rel, s, o);
                        t.metadata.insert("relation_gleaned".to_owned(), Json::Bool(true));
                        out.push(t);
                    }
                }
            }
        }
        i += 1;
    }
    assert(all.take(i as int) =~= all);
    out
}

/// Each relationship that is read of a text joins two entities that the text states.
pub proof fn law_read_relationships_are_anchored(output: Seq<char>, i: int)
    requires
        0 <= i < output_read(output).triples.len(),
    ensures
        is_among(output_read(output).entities, output_read(output).triples[i].subject),
        is_among(output_read(output).entities, output_read(output).triples[i].object),
{
    lemma_tied_anchored(items_read(items(output)).relationships, items_read(items(output)).entities);
}

/// Of a record `(head<|>name<|>type<|>description<|>attributes)` the first field names the
/// entity, and each of the others says what its place stands for. Only what calls itself
/// something else, or has no name, states no entity.
pub proof fn law_fields_of_an_entity(
    head: Seq<char>,
    name: Seq<char>,
    t: Seq<char>,
    description: Seq<char>,
    attributes: Seq<char>,
)
    requires
        !text::contains(head, "<|>"@),
        !text::contains(name, "<|>"@),
        !text::contains(t, "<|>"@),
        !text::contains(description, "<|>"@),
        !text::contains(attributes, "<|>"@),
    ensures
        ({
            let record = "("@ + (head + "<|>"@ + (name + "<|>"@ + (t + "<|>"@ + (description
                + "<|>"@ + attributes)))) + ")"@;
            match entity_in(record) {
                Some(e) => {
                    &&& text::contains(text::lower(head), "entity"@)
                    &&& e.label == clean_name(name)
                    &&& e.label.len() > 0
                    &&& e.id == graph_build::id_of_name(e.label)
                    &&& e.entity_type == crate::types::vocab::entity_type_loosely(
                        text::lower(text::stripped(text::trimmed(t), "<> \"*#"@)),
                    )
                    &&& e.description == Some(clean_text(description))
                    &&& e.metadata == attributes_of(attributes)
                    &&& e.confidence is None
                },
                None => !text::contains(text::lower(head), "entity"@) || clean_name(name).len()
                    == 0,
            }
        }),
{
    let rest = description + "<|>"@ + attributes;
    lemma_fields(head, name, t, rest);
    lemma_field_first(description, attributes);
    text::lemma_split_none(attributes, "<|>"@);
    let record = "("@ + (head + "<|>"@ + (name + "<|>"@ + (t + "<|>"@ + rest))) + ")"@;
    assert(fields(record) =~= seq![head, name, t, description, attributes]);
}

/// Of a record `(head<|>source<|>target<|>predicate<|>description<|>strength)` the fifth
/// field describes the relationship and the sixth says how strong it is: as strong as the
/// number that its digits make, from zero to one.
pub proof fn law_fields_of_a_relationship(
    head: Seq<char>,
    source: Seq<char>,
    target: Seq<char>,
    predicate: Seq<char>,
    description: Seq<char>,
    strength: Seq<char>,
    ids: Seq<(Seq<char>, Seq<char>)>,
)
    requires
        !text::contains(head, "<|>"@),
        !text::contains(source, "<|>"@),
        !text::contains(target, "<|>"@),
        !text::contains(predicate, "<|>"@),
        !text::contains(description, "<|>"@),
        !text::contains(strength, "<|>"@),
    ensures
        ({
            let record = "("@ + (head + "<|>"@ + (source + "<|>"@ + (target + "<|>"@ + (predicate
                + "<|>"@ + (description + "<|>"@ + strength))))) + ")"@;
            match relationship_in(record, ids) {
                Some(r) => {
                    &&& r.source_name == clean_name(source)
                    &&& r.target_name == clean_name(target)
                    &&& r.predicate == clean_text(predicate)
                    &&& r.description == clean_text(description)
                    &&& match number::number_in(numerals(strength)) {
                        Some(n) => r.strength == fraction::clamped(n),
                        None => r.strength == (FractionV { one: false, digits: seq![8u8] }),
                    }
                },
                None => !text::contains(text::lower(head), "relationship"@),
            }
        }),
{
    let rest = predicate + "<|>"@ + (description + "<|>"@ + strength);
    lemma_fields(head, source, target, rest);
    lemma_field_first(predicate, description + "<|>"@ + strength);
    lemma_field_first(description, strength);
    text::lemma_split_none(strength, "<|>"@);
    let record = "("@ + (head + "<|>"@ + (source + "<|>"@ + (target + "<|>"@ + rest))) + ")"@;
    assert(fields(record) =~= seq![head, source, target, predicate, description, strength]);
}

/// The relationship that a record states is among those that were read.
proof fn lemma_relationship_kept(its: Seq<Seq<char>>, i: int)
    requires
        0 <= i < its.len(),
        record_kind(completed(its[i])) is Relationship,
        relationship_in(completed(its[i]), items_read(its.take(i)).ids) is Some,
    ensures
        items_read(its).relationships.contains(
            relationship_in(completed(its[i]), items_read(its.take(i)).ids)->0,
        ),
    decreases its.len(),
{
    let last = its.len() - 1;
    let rel = relationship_in(completed(its[i]), items_read(its.take(i)).ids)->0;
    let after = items_read(its).relationships;
    if i == last {
        assert(its.take(i) =~= its.drop_last());
        assert(after.last() == rel);
        assert(after[after.len() - 1] == rel);
    } else {
        assert(its.drop_last().take(i) =~= its.take(i));
        assert(its.drop_last()[i] == its[i]);
        lemma_relationship_kept(its.drop_last(), i);
        let before = items_read(its.drop_last()).relationships;
        let m = choose|m: int| 0 <= m < before.len() && before[m] == rel;
        assert(after[m] == rel);
    }
}

/// A relationship whose ends are known is tied to them.
proof fn lemma_tied_kept(rels: Seq<RelDataV>, es: Seq<(Seq<char>, EntityV)>, m: int)
    requires
        0 <= m < rels.len(),
        table::lookup(es, rels[m].source_id) is Some,
        table::lookup(es, rels[m].target_id) is Some,
    ensures
        all_tied(rels, es).contains(
            tied(
                rels[m],
                table::lookup(es, rels[m].source_id)->0,
                table::lookup(es, rels[m].target_id)->0,
            ),
        ),
    decreases rels.len(),
{
    let t = tied(
        rels[m],
        table::lookup(es, rels[m].source_id)->0,
        table::lookup(es, rels[m].target_id)->0,
    );
    let after = all_tied(rels, es);
    if m == rels.len() - 1 {
        assert(after[after.len() - 1] == t);
    } else {
        assert(rels.drop_last()[m] == rels[m]);
        lemma_tied_kept(rels.drop_last(), es, m);
        let before = all_tied(rels.drop_last(), es);
        let k = choose|k: int| 0 <= k < before.len() && before[k] == t;
        assert(after[k] == t);
    }
}

/// `t` says of `a` and `b` what a record with the names `source` and `target` says of
/// them: from the one to the other, but where its predicate says by whom something is
/// done and its ends were written in the wrong order.
pub open spec fn runs_between(
    t: TripleV,
    a: EntityV,
    b: EntityV,
    source: Seq<char>,
    target: Seq<char>,
) -> bool {
    &&& !graph_build::is_passive(t.predicate.predicate_type) ==> t.subject == a && t.object == b
    &&& t.subject == a && t.object == b || t.subject == b && t.object == a
    &&& table::lookup(t.metadata, "source_name"@) == Some(JsonV::Text(clean_name(source)))
    &&& table::lookup(t.metadata, "target_name"@) == Some(JsonV::Text(clean_name(target)))
}

/// A relationship that a text states between two entities which it has named before is
/// read: it runs from the entity with the first name to the one with the second.
pub proof fn law_relationships_keep_their_direction(
    output: Seq<char>,
    i: int,
    head: Seq<char>,
    source: Seq<char>,
    target: Seq<char>,
    predicate: Seq<char>,
    rest: Seq<char>,
    a: EntityV,
    b: EntityV,
)
    requires
        !text::contains(head, "<|>"@),
        !text::contains(source, "<|>"@),
        !text::contains(target, "<|>"@),
        !text::contains(predicate, "<|>"@),
        text::contains(text::lower(head), "relationship"@),
        0 <= i < items(output).len(),
        completed(items(output)[i]) == "("@ + (head + "<|>"@ + (source + "<|>"@ + (target + "<|>"@
            + (predicate + "<|>"@ + rest)))) + ")"@,
        record_kind(completed(items(output)[i])) is Relationship,
        ({
            let ids = items_read(items(output).take(i)).ids;
            let from = table::lookup(ids, name_key(clean_name(source)));
            let to = table::lookup(ids, name_key(clean_name(target)));
            &&& from is Some && table::lookup(output_read(output).entities, from->0) == Some(a)
            &&& to is Some && table::lookup(output_read(output).entities, to->0) == Some(b)
        }),
    ensures
        exists|k: int|
            0 <= k < output_read(output).triples.len() && runs_between(
                #[trigger] output_read(output).triples[k],
                a,
                b,
                source,
                target,
            ),
{
    let its = items(output);
    let ids = items_read(its.take(i)).ids;
    law_first_name_is_the_source(head, source, target, predicate, rest, ids);
    let rel = relationship_in(completed(its[i]), ids)->0;
    lemma_relationship_kept(its, i);
    let rels = items_read(its).relationships;
    let m = choose|m: int| 0 <= m < rels.len() && rels[m] == rel;
    let es = output_read(output).entities;
    lemma_tied_kept(rels, es, m);
    let t = tied(rel, a, b);
    let ts = output_read(output).triples;
    let k = choose|k: int| 0 <= k < ts.len() && ts[k] == t;
    reveal_strlit("source_name");
    reveal_strlit("target_name");
    assert("source_name"@[0] != "target_name"@[0]);
    let one = table::put(seq![], "description"@, JsonV::Text(rel.description));
    let two = table::put(one, "source_name"@, JsonV::Text(rel.source_name));
    table::lemma_lookup_put(one, "source_name"@, JsonV::Text(rel.source_name), "source_name"@);
    table::lemma_lookup_put(two, "target_name"@, JsonV::Text(rel.target_name), "source_name"@);
    assert(runs_between(ts[k], a, b, source, target));
}

/// What stands for a name is an entity that a record states under that name, and each
/// entity stands under its own id.
pub proof fn law_names_are_those_of_records(
    its: Seq<Seq<char>>,
    key: Seq<char>,
    id: Seq<char>,
)
    ensures
        table::lookup(items_read(its).ids, key) == Some(id) ==> (exists|j: int|
            0 <= j < its.len() && states_named(#[trigger] its[j], key, id)),
        match table::lookup(items_read(its).entities, id) {
            Some(e) => e.id == id && (exists|j: int|
                0 <= j < its.len() && entity_in(#[trigger] completed(its[j])) == Some(e)),
            None => true,
        },
    decreases its.len(),
{
    if its.len() > 0 {
        let st = items_read(its.drop_last());
        law_names_are_those_of_records(its.drop_last(), key, id);
        assert forall|j: int| 0 <= j < its.len() - 1 implies its[j] == #[trigger] its.drop_last()[j] by {}
        let t = completed(its.last());
        if record_kind(t) is Entity && entity_in(t) is Some {
            let e = entity_in(t)->0;
            table::lemma_lookup_put(st.entities, e.id, e, id);
            table::lemma_lookup_put(st.ids, name_key(e.label), e.id, key);
            assert(states_named(its[its.len() - 1], name_key(e.label), e.id));
            assert(entity_in(completed(its[its.len() - 1])) == Some(e));
        }
        if let Some(e) = table::lookup(st.entities, id) {
            let j = choose|j: int|
                0 <= j < its.len() - 1 && entity_in(#[trigger] completed(its.drop_last()[j])) == Some(e);
            assert(entity_in(completed(its[j])) == Some(e));
        }
        if table::lookup(st.ids, key) == Some(id) {
            let j = choose|j: int|
                0 <= j < its.len() - 1 && states_named(#[trigger] its.drop_last()[j], key, id);
            assert(states_named(its[j], key, id));
        }
    } else {
        assert(items_read(its).ids =~= seq![]);
    }
}

/// The record `item` states an entity with the id `id` under a name that is found by
/// `key`.
pub open spec fn states_named(item: Seq<char>, key: Seq<char>, id: Seq<char>) -> bool {
    match entity_in(completed(item)) {
        Some(e) => e.id == id && text::trimmed(text::lower(e.label)) == key,
        None => false,
    }
}

/// An entity that a record states is read: the entities that are read have its id, and
/// its name stands for an id.
pub proof fn law_stated_entities_are_read(its: Seq<Seq<char>>, j: int, e: EntityV)
    requires
        0 <= j < its.len(),
        record_kind(completed(its[j])) is Entity,
        entity_in(completed(its[j])) == Some(e),
    ensures
        table::has_key(items_read(its).entities, e.id),
        table::has_key(items_read(its).ids, text::trimmed(text::lower(e.label))),
        j == its.len() - 1 ==> table::lookup(items_read(its).entities, e.id) == Some(e)
            && table::lookup(items_read(its).ids, text::trimmed(text::lower(e.label))) == Some(
            e.id,
        ),
    decreases its.len(),
{
    let st = items_read(its.drop_last());
    let t = completed(its.last());
    if j < its.len() - 1 {
        assert(its.drop_last()[j] == its[j]);
        law_stated_entities_are_read(its.drop_last(), j, e);
    }
    if record_kind(t) is Entity && entity_in(t) is Some {
        let x = entity_in(t)->0;
        table::lemma_lookup_put(st.entities, x.id, x, e.id);
        table::lemma_lookup_put(st.ids, name_key(x.label), x.id, name_key(e.label));
    }
}

/// A relationship that is stated between two known entities runs from the entity with the
/// first name to the one with the second, and is noted as one that was asked for.
pub proof fn law_gleaned_relationships_keep_their_direction(
    its: Seq<Seq<char>>,
    item: Seq<char>,
    known: Seq<(Seq<char>, EntityV)>,
    head: Seq<char>,
    source: Seq<char>,
    target: Seq<char>,
    predicate: Seq<char>,
    rest: Seq<char>,
    a: EntityV,
    b: EntityV,
)
    requires
        !text::contains(head, "<|>"@),
        !text::contains(source, "<|>"@),
        !text::contains(target, "<|>"@),
        !text::contains(predicate, "<|>"@),
        text::contains(text::lower(head), "relationship"@),
        completed(item) == "("@ + (head + "<|>"@ + (source + "<|>"@ + (target + "<|>"@ + (predicate
            + "<|>"@ + rest)))) + ")"@,
        text::contains(completed(item), "<|>"@),
        text::contains(text::lower(head_of(completed(item))), "relationship"@),
        ({
            let from = table::lookup(ids_by_name(known), name_key(clean_name(source)));
            let to = table::lookup(ids_by_name(known), name_key(clean_name(target)));
            &&& from is Some && table::lookup(known, from->0) == Some(a)
            &&& to is Some && table::lookup(known, to->0) == Some(b)
        }),
    ensures
        ({
            let before = relations_read(its, known);
            let after = relations_read(its.push(item), known);
            &&& after.len() == before.len() + 1
            &&& after.drop_last() == before
            &&& runs_between(after.last(), a, b, source, target)
            &&& table::lookup(after.last().metadata, "relation_gleaned"@) == Some(
                JsonV::Bool(true),
            )
        }),
{
    let ids = ids_by_name(known);
    law_first_name_is_the_source(head, source, target, predicate, rest, ids);
    assert(its.push(item).drop_last() =~= its);
    let rel = relationship_in(completed(item), ids)->0;
    let t = tied(rel, a, b);
    let after = relations_read(its.push(item), known);
    assert(after == relations_read(its, known).push(noted_as_gleaned(t)));
    assert(after.drop_last() =~= relations_read(its, known));
    reveal_strlit("source_name");
    reveal_strlit("target_name");
    reveal_strlit("relation_gleaned");
    assert("source_name"@[0] != "target_name"@[0]);
    assert("source_name"@[0] != "relation_gleaned"@[0]);
    assert("target_name"@[0] != "relation_gleaned"@[0]);
    let one = table::put(seq![], "description"@, JsonV::Text(rel.description));
    let two = table::put(one, "source_name"@, JsonV::Text(rel.source_name));
    table::lemma_lookup_put(one, "source_name"@, JsonV::Text(rel.source_name), "source_name"@);
    table::lemma_lookup_put(two, "target_name"@, JsonV::Text(rel.target_name), "source_name"@);
    table::lemma_lookup_put(two, "target_name"@, JsonV::Text(rel.target_name), "target_name"@);
    table::lemma_lookup_put(t.metadata, "relation_gleaned"@, JsonV::Bool(true), "source_name"@);
    table::lemma_lookup_put(t.metadata, "relation_gleaned"@, JsonV::Bool(true), "target_name"@);
}

/// The records in the parts of a text are those of the first part and then those of the
/// others.
proof fn lemma_items_in_parts(p: Seq<char>, parts: Seq<Seq<char>>)
    ensures
        items_in(seq![p] + parts) == items_in(seq![p]) + items_in(parts),
    decreases parts.len(),
{
    let all = seq![p] + parts;
    if parts.len() == 0 {
        assert(all =~= seq![p]);
        assert(items_in(seq![p]) + items_in(parts) =~= items_in(seq![p]));
    } else {
        lemma_items_in_parts(p, parts.drop_last());
        assert(all.drop_last() =~= seq![p] + parts.drop_last());
        assert(all.last() == parts.last());
        assert(items_in(all) =~= items_in(seq![p]) + items_in(parts));
    }
}

/// What stands before `##` does not change what is read behind it: the records are those
/// of the one and then those of the other, and none is left out.
pub proof fn law_records_stand_apart(s: Seq<char>, t: Seq<char>)
    requires
        !text::contains(s, "##"@),
        s.len() > 0 ==> s.last() != '#',
    ensures
        items(s + "##"@ + t) == items(s) + items(t),
{
    reveal_strlit("##");
    let d = "##"@;
    let all = s + d + t;
    assert forall|i: int| 0 <= i < s.len() implies !text::occurs_at(all, d, i) by {
        if text::occurs_at(all, d, i) {
            let w = all.subrange(i, i + 2);
            assert(w[0] == all[i] && w[1] == all[i + 1]);
            if i + 2 <= s.len() {
                assert(s.subrange(i, i + 2) =~= w);
                assert(text::occurs_at(s, d, i));
            } else {
                assert(all[i] == s.last());
            }
        }
    }
    text::lemma_split_first(s, d, t);
    text::lemma_split_none(s, d);
    lemma_items_in_parts(s, text::split(t, d));
}

/// A relationship whose ends are known becomes one relationship, behind those before it; one
/// with an end that is not known becomes none.
pub proof fn law_each_relationship_is_tied_once(
    rels: Seq<RelDataV>,
    rel: RelDataV,
    es: Seq<(Seq<char>, EntityV)>,
)
    ensures
        ({
            let before = all_tied(rels, es);
            let after = all_tied(rels.push(rel), es);
            if table::has_key(es, rel.source_id) && table::has_key(es, rel.target_id) {
                let a = table::lookup(es, rel.source_id)->0;
                let b = table::lookup(es, rel.target_id)->0;
                let t = after.last();
                &&& after.len() == before.len() + 1
                &&& after.drop_last() == before
                &&& graph_build::runs_from(t, a, b)
                &&& t.confidence == Some(rel.strength)
                &&& rel.predicate.len() <= 50 ==> t.predicate.label == Some(rel.predicate)
                &&& t.predicate.predicate_type == inferred(rel.predicate)
            } else {
                after == before
            }
        }),
{
    assert(rels.push(rel).drop_last() =~= rels);
    if table::has_key(es, rel.source_id) && table::has_key(es, rel.target_id) {
        assert(all_tied(rels.push(rel), es).drop_last() =~= all_tied(rels, es));
    }
}

/// `e` is one of the entities `es`.
pub open spec fn is_among(es: Seq<(Seq<char>, EntityV)>, e: EntityV) -> bool {
    exists|k: int| 0 <= k < es.len() && (#[trigger] es[k]).1 == e
}

/// The ends of relationships that are tied to entities are among these.
proof fn lemma_tied_anchored(rels: Seq<RelDataV>, es: Seq<(Seq<char>, EntityV)>)
    ensures
        forall|i: int|
            0 <= i < all_tied(rels, es).len() ==> is_among(
                es,
                (#[trigger] all_tied(rels, es)[i]).subject,
            ) && is_among(es, all_tied(rels, es)[i].object),
    decreases rels.len(),
{
    if rels.len() > 0 {
        lemma_tied_anchored(rels.drop_last(), es);
        let rel = rels.last();
        table::lemma_position(es, rel.source_id);
        table::lemma_position(es, rel.target_id);
        match (table::lookup(es, rel.source_id), table::lookup(es, rel.target_id)) {
            (Some(s), Some(o)) => {
                let a = table::position(es, rel.source_id)->0;
                let b = table::position(es, rel.target_id)->0;
                assert(es[a].1 == s);
                assert(es[b].1 == o);
            },
            _ => {},
        }
    }
}

} // verus!
