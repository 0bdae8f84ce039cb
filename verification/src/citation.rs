//! Provenance: which document and which lines a record came from.
//!
//! Citations are kept among the values attached to a record, under
//! [`CITATIONS_KEY`]. A record seen in several places carries several citations.

use vstd::prelude::*;

use crate::chunking::{Segment, SegmentV};
use crate::json::{Json, JsonV, ObjectBuilder};
use crate::range::{LineSpan, RangeV, SourceRange};
use crate::table::Dup;
use crate::types::graph::{EntityV, GraphV, KnowledgeGraph, Metadata, MetadataV, TripleV};
use crate::{json, range, seqs, table, text};

verus! {

broadcast use {crate::seqs::group_views, crate::json::group_json};

/// The name under which the citations of a record stand.
pub const CITATIONS_KEY: &'static str = "citations";

/// The name under which the title of the chunk stands that a record came from.
pub const CHUNK_TITLE_KEY: &'static str = "chunk_title";

/// The name under which the values stand that came with the chunk that a record
/// came from.
pub const CHUNK_METADATA_KEY: &'static str = "chunk_metadata";

/// What a [`Citation`] stands for.
pub struct CitationV {
    pub doc: Option<Seq<char>>,
    pub range: RangeV,
}

/// A document, where it is known, and a place in it.
pub struct Citation {
    pub doc: Option<String>,
    pub range: SourceRange,
}

impl View for Citation {
    type V = CitationV;

    open spec fn view(&self) -> CitationV {
        CitationV { doc: seqs::opt_view(self.doc), range: self.range@ }
    }
}

/// A citation of the lines from `start` to `end`.
pub open spec fn line_citation(doc: Option<Seq<char>>, start: int, end: int) -> CitationV {
    CitationV {
        doc,
        range: RangeV { line: range::line_span(start, end), ..range::unknown_range() },
    }
}

/// A citation as it is written: the lines alone where nothing else than lines and
/// characters is known of the place, and the whole range elsewhere.
pub open spec fn citation_value(c: CitationV) -> JsonV {
    let doc = ("doc"@, json::text_or_null(c.doc));
    if c.range.page is None && c.range.bbox is None && c.range.line is Some {
        JsonV::Object(
            seq![
                doc,
                (
                    "lines"@,
                    JsonV::Array(
                        seq![
                            JsonV::Uint(c.range.line->0.start as u64),
                            JsonV::Uint(c.range.line->0.end as u64),
                        ],
                    ),
                ),
            ],
        )
    } else {
        JsonV::Object(seq![doc, ("range"@, range::range_value(c.range))])
    }
}

impl Citation {
    /// A citation of the lines from `start_line` to `end_line`.
    pub fn new(doc: Option<String>, start_line: usize, end_line: usize) -> (r: Citation)
        ensures
            r@ == line_citation(seqs::opt_view(doc), start_line as int, end_line as int),
    {
        let mut range = SourceRange::unknown();
        range.line = LineSpan::of(start_line, end_line);
        Citation { doc, range }
    }

    /// A citation of a place.
    pub fn from_range(doc: Option<String>, range: SourceRange) -> (r: Citation)
        ensures
            r@ == (CitationV { doc: seqs::opt_view(doc), range: range@ }),
    {
        Citation { doc, range }
    }

    /// The citation as it is written.
    pub fn to_value(&self) -> (r: Json)
        ensures
            r@ == citation_value(self@),
    {
        let doc = json::text_or_null_of(&self.doc);
        if self.range.page.is_none() && self.range.bbox.is_none() {
            if let Some(line) = &self.range.line {
                let mut lines: Vec<Json> = Vec::new();
                lines.push(Json::Uint(line.start as u64));
                lines.push(Json::Uint(line.end as u64));
                assert(seqs::views(lines@) =~= seq![
                    JsonV::Uint(line.start as u64),
                    JsonV::Uint(line.end as u64),
                ]);
                let r = ObjectBuilder::new().with("doc", doc).with("lines", Json::Array(lines)).done();
                assert(r@->Object_0 =~= citation_value(self@)->Object_0);
                return r;
            }
        }
        let r = ObjectBuilder::new().with("doc", doc).with("range", self.range.to_value()).done();
        assert(r@->Object_0 =~= citation_value(self@)->Object_0);
        r
    }
}

/// A citation of lines names its document and the lines, the first before the last.
pub proof fn law_cited_lines_are_told(doc: Option<Seq<char>>, start: int, end: int)
    requires
        1 <= start <= end <= u32::MAX,
    ensures
        ({
            let v = citation_value(line_citation(doc, start, end));
            let lines = json::array_in(json::field(v, "lines"@))->0;
            &&& json::text_in(json::field(v, "doc"@)) == doc
            &&& json::array_in(json::field(v, "lines"@)) is Some
            &&& lines.len() == 2
            &&& json::uint_in(Some(lines[0])) == Some(start as u64)
            &&& json::uint_in(Some(lines[1])) == Some(end as u64)
        }),
{
    reveal_strlit("doc");
    assert("doc"@.len() == 3);
    reveal_strlit("lines");
    assert("lines"@.len() == 5);
    let o = citation_value(line_citation(doc, start, end))->Object_0;
    json::lemma_field_at(o, 0);
    json::lemma_field_at(o, 1);
}

/// Where the page or the place on it is known, or the lines are not, a citation tells all
/// that is known of the range.
pub proof fn law_cited_ranges_are_told(c: CitationV)
    requires
        c.range.page is Some || c.range.bbox is Some || c.range.line is None,
    ensures
        json::text_in(json::field(citation_value(c), "doc"@)) == c.doc,
        json::field(citation_value(c), "range"@) == Some(range::range_value(c.range)),
{
    reveal_strlit("doc");
    assert("doc"@.len() == 3);
    reveal_strlit("range");
    assert("range"@.len() == 5);
    let o = citation_value(c)->Object_0;
    json::lemma_field_at(o, 0);
    json::lemma_field_at(o, 1);
}

/// Where the lines of a text start: at its first character, and behind each line
/// break.
pub open spec fn line_starts(s: Seq<char>) -> Seq<nat>
    decreases s.len(),
{
    if s.len() == 0 {
        seq![0]
    } else {
        let before = line_starts(s.drop_last());
        if s.last() == '\n' {
            before.push(s.len())
        } else {
            before
        }
    }
}

/// How many of the places `starts` are at or before `offset`.
pub open spec fn lines_begun(starts: Seq<nat>, offset: nat) -> nat
    decreases starts.len(),
{
    if starts.len() == 0 {
        0
    } else {
        lines_begun(starts.drop_last(), offset) + if starts.last() <= offset {
            1nat
        } else {
            0
        }
    }
}

/// How many line breaks a text holds.
pub open spec fn breaks(s: Seq<char>) -> nat
    decreases s.len(),
{
    if s.len() == 0 {
        0
    } else {
        breaks(s.drop_last()) + if s.last() == '\n' {
            1nat
        } else {
            0
        }
    }
}

/// The lines of a piece of a text are those that its characters stand on: the first is that
/// of its first character, the last that of its last one, and every other character stands
/// on one between.
pub proof fn law_lines_are_those_of_the_characters(
    starts: Seq<nat>,
    start: nat,
    end: nat,
    at: nat,
)
    requires
        start <= at < end,
    ensures
        line_bounds(starts, start, end).0 <= lines_begun(starts, at),
        lines_begun(starts, at) <= line_bounds(starts, start, end).1,
        at == start ==> line_bounds(starts, start, end).0 == lines_begun(starts, at),
        at == end - 1 ==> line_bounds(starts, start, end).1 == lines_begun(starts, at),
        line_bounds(starts, start, start) == (
            lines_begun(starts, start),
            lines_begun(starts, start),
        ),
{
    lemma_begun_ascend(starts, start, at);
    lemma_begun_ascend(starts, at, (end - 1) as nat);
}

/// The first and the last line of the characters from `start` up to `end`: where
/// there are none, the line of `start`.
pub open spec fn line_bounds(starts: Seq<nat>, start: nat, end: nat) -> (nat, nat) {
    let last = if start + 1 < end {
        (end - 1) as nat
    } else {
        start
    };
    (lines_begun(starts, start), lines_begun(starts, last))
}

/// Places in ascending order, the first of them zero.
pub open spec fn ascending_from_zero(starts: Seq<nat>) -> bool {
    &&& starts.len() > 0
    &&& starts[0] == 0
    &&& forall|i: int, j: int| 0 <= i < j < starts.len() ==> starts[i] < starts[j]
}

/// The number of places at or before `offset` is where the first place behind it
/// stands.
pub proof fn lemma_lines_begun(starts: Seq<nat>, offset: nat, k: nat)
    requires
        k <= starts.len(),
        forall|i: int| 0 <= i < k ==> starts[i] <= offset,
        forall|i: int| k <= i < starts.len() ==> starts[i] > offset,
    ensures
        lines_begun(starts, offset) == k,
    decreases starts.len(),
{
    if starts.len() > 0 {
        let before = starts.drop_last();
        assert(forall|i: int| 0 <= i < before.len() ==> before[i] == starts[i]);
        if k == starts.len() {
            lemma_lines_begun(before, offset, (k - 1) as nat);
        } else {
            lemma_lines_begun(before, offset, k);
        }
    }
}

/// A text has one line more than it has line breaks, and its lines start at
/// ascending places.
pub proof fn lemma_line_starts(s: Seq<char>)
    ensures
        ascending_from_zero(line_starts(s)),
        line_starts(s).len() == breaks(s) + 1,
        forall|i: int| 0 <= i < line_starts(s).len() ==> line_starts(s)[i] <= s.len(),
    decreases s.len(),
{
    if s.len() > 0 {
        lemma_line_starts(s.drop_last());
    }
}

/// The line of the character at `offset` is one more than the number of line
/// breaks before it; behind the end of the text it is the last line.
pub proof fn law_line_of_counts_breaks(s: Seq<char>, offset: nat)
    ensures
        lines_begun(line_starts(s), offset) == breaks(
            s.take(
                if offset < s.len() {
                    offset as int
                } else {
                    s.len() as int
                },
            ),
        ) + 1,
    decreases s.len(),
{
    if s.len() == 0 {
        assert(s.take(0) =~= s);
        lemma_lines_begun(seq![0nat], offset, 1);
    } else {
        let before = s.drop_last();
        law_line_of_counts_breaks(before, offset);
        lemma_line_starts(before);
        if s.last() == '\n' {
            assert(line_starts(s).drop_last() =~= line_starts(before));
        }
        if offset >= s.len() {
            assert(s.take(s.len() as int) =~= s);
            assert(before.take(before.len() as int) =~= before);
        } else {
            assert(s.take(offset as int) =~= before.take(offset as int));
        }
    }
}

/// A later character stands on the same line or on a later one, and every line has
/// a number from 1 to the number of lines.
pub proof fn law_lines_ascend(s: Seq<char>, a: nat, b: nat)
    requires
        a <= b,
    ensures
        1 <= lines_begun(line_starts(s), a) <= lines_begun(line_starts(s), b)
            <= line_starts(s).len(),
{
    lemma_line_starts(s);
    lemma_begun_ascend(line_starts(s), a, b);
    law_line_of_counts_breaks(s, a);
}

proof fn lemma_begun_ascend(starts: Seq<nat>, a: nat, b: nat)
    requires
        a <= b,
    ensures
        lines_begun(starts, a) <= lines_begun(starts, b) <= starts.len(),
    decreases starts.len(),
{
    if starts.len() > 0 {
        lemma_begun_ascend(starts.drop_last(), a, b);
    }
}

/// Finds the line on which a character of a text stands. Characters are counted,
/// not bytes.
pub struct LineIndex {
    line_starts: Vec<usize>,
}

impl View for LineIndex {
    type V = Seq<nat>;

    closed spec fn view(&self) -> Seq<nat> {
        Seq::new(self.line_starts@.len(), |i: int| self.line_starts@[i] as nat)
    }
}

impl LineIndex {
    /// The first line starts at zero, and each further line behind the one before.
    #[verifier::type_invariant]
    spec fn wf(self) -> bool {
        ascending_from_zero(self@)
    }

    /// The lines of `text`.
    pub fn new(text: &str) -> (r: LineIndex)
        ensures
            r@ == line_starts(text@),
    {
        let chars = text::chars_of(text);
        let mut starts: Vec<usize> = Vec::new();
        starts.push(0);
        let n: usize = chars.len();
        let mut i: usize = 0;
        while i < n
            invariant
                i <= n,
                n == chars@.len(),
                starts@.len() == line_starts(chars@.take(i as int)).len(),
                forall|k: int|
                    0 <= k < starts@.len() ==> #[trigger] starts@[k] == line_starts(
                        chars@.take(i as int),
                    )[k],
            decreases n - i,
        {
            assert(chars@.take(i + 1).drop_last() =~= chars@.take(i as int));
            if chars[i] == '\n' {
                starts.push(i + 1);
            }
            i += 1;
        }
        assert(chars@.take(n as int) =~= text@);
        proof {
            lemma_line_starts(text@);
        }
        assert(Seq::new(starts@.len(), |k: int| starts@[k] as nat) =~= line_starts(text@));
        LineIndex { line_starts: starts }
    }

    /// How many lines there are.
    pub fn total_lines(&self) -> (r: usize)
        ensures
            r == self@.len(),
            r >= 1,
    {
        proof {
            use_type_invariant(self);
        }
        self.line_starts.len()
    }

    /// The line of the character at `offset`, from 1 on; behind the end of the text,
    /// the last line.
    pub fn line_of(&self, offset: usize) -> (r: usize)
        ensures
            r == lines_begun(self@, offset as nat),
            1 <= r <= self@.len(),
    {
        proof {
            use_type_invariant(self);
        }
        let mut low: usize = 1;
        let mut high: usize = self.line_starts.len();
        while low < high
            invariant
                1 <= low <= high <= self.line_starts@.len(),
                ascending_from_zero(self@),
                forall|i: int| 0 <= i < low ==> #[trigger] self@[i] <= offset,
                forall|i: int| high <= i < self@.len() ==> #[trigger] self@[i] > offset,
            decreases high - low,
        {
            let mid: usize = low + (high - low) / 2;
            assert(self@[mid as int] == self.line_starts@[mid as int]);
            if self.line_starts[mid] <= offset {
                low = mid + 1;
            } else {
                high = mid;
            }
        }
        proof {
            lemma_lines_begun(self@, offset as nat, low as nat);
        }
        low
    }

    /// The first and the last line of the characters from `start` up to `end`.
    pub fn line_range(&self, start: usize, end: usize) -> (r: (usize, usize))
        ensures
            (r.0 as nat, r.1 as nat) == line_bounds(self@, start as nat, end as nat),
    {
        let last: usize = if end > 0 && end - 1 > start {
            end - 1
        } else {
            start
        };
        (self.line_of(start), self.line_of(last))
    }
}

/// The list `l` holds a value equal to `v`.
pub open spec fn has_alike(l: Seq<JsonV>, v: JsonV) -> bool {
    exists|i: int| 0 <= i < l.len() && json::alike(#[trigger] l[i], v)
}

/// The list `d` and then the items of `s` that it does not hold.
pub open spec fn list_united(d: Seq<JsonV>, s: Seq<JsonV>) -> Seq<JsonV>
    decreases s.len(),
{
    if s.len() == 0 {
        d
    } else {
        let m = list_united(d, s.drop_last());
        if has_alike(m, s.last()) {
            m
        } else {
            m.push(s.last())
        }
    }
}

/// The citations of a record: a list, unless something else stands in its place.
pub open spec fn citations(m: MetadataV) -> Option<JsonV> {
    table::lookup(m, CITATIONS_KEY@)
}

/// The values `dst` with the citations of `src` added to theirs. Where something
/// other than a list stands under the name of the citations, it is left alone.
pub open spec fn united(dst: MetadataV, src: MetadataV) -> MetadataV {
    match citations(src) {
        Some(JsonV::Array(s)) => if s.len() == 0 {
            dst
        } else {
            match citations(dst) {
                None => table::put(dst, CITATIONS_KEY@, JsonV::Array(list_united(seq![], s))),
                Some(JsonV::Array(d)) => table::put(
                    dst,
                    CITATIONS_KEY@,
                    JsonV::Array(list_united(d, s)),
                ),
                Some(_) => dst,
            }
        },
        _ => dst,
    }
}

/// Whether `list` holds a value equal to `v`.
pub fn holds(list: &Vec<Json>, v: &Json) -> (r: bool)
    ensures
        r == has_alike(seqs::views(list@), v@),
{
    let mut i: usize = 0;
    while i < list.len()
        invariant
            i <= list@.len(),
            forall|j: int| 0 <= j < i ==> !json::alike(#[trigger] seqs::views(list@)[j], v@),
        decreases list.len() - i,
    {
        assert(seqs::views(list@)[i as int] == list@[i as int]@);
        if list[i].same_as(v) {
            return true;
        }
        i += 1;
    }
    false
}

/// The same items in the same order.
pub fn dup_list(s: &Vec<Json>) -> (r: Vec<Json>)
    ensures
        seqs::views(r@) == seqs::views(s@),
{
    let mut out: Vec<Json> = Vec::new();
    let mut i: usize = 0;
    while i < s.len()
        invariant
            i <= s@.len(),
            seqs::views(out@) == seqs::views(s@).take(i as int),
        decreases s.len() - i,
    {
        let t = s[i].dup();
        out.push(t);
        assert(seqs::views(s@).take(i + 1) =~= seqs::views(s@).take(i as int).push(t@));
        i += 1;
    }
    assert(seqs::views(s@).take(i as int) =~= seqs::views(s@));
    out
}

/// Add the citations of `src` to those of `dst`, each once. Used when two records
/// are found to be one, so that what both were taken from stays known.
pub fn union_citations(dst: &mut Metadata, src: &Metadata)
    ensures
        final(dst)@ == united(old(dst)@, src@),
{
    let list = match src.get(CITATIONS_KEY) {
        Some(Json::Array(s)) => s,
        _ => {
            return;
        },
    };
    if list.len() == 0 {
        return;
    }
    let mut out: Vec<Json> = match dst.get(CITATIONS_KEY) {
        None => Vec::new(),
        Some(Json::Array(d)) => dup_list(d),
        Some(_) => {
            return;
        },
    };
    let ghost start = seqs::views(out@);
    assert(dst@ == old(dst)@);
    let mut i: usize = 0;
    while i < list.len()
        invariant
            i <= list@.len(),
            seqs::views(out@) == list_united(start, seqs::views(list@).take(i as int)),
        decreases list.len() - i,
    {
        assert(seqs::views(list@).take(i + 1).drop_last() =~= seqs::views(list@).take(i as int));
        if !holds(&out, &list[i]) {
            let v = list[i].dup();
            out.push(v);
        }
        i += 1;
    }
    assert(seqs::views(list@).take(i as int) =~= seqs::views(list@));
    dst.insert(CITATIONS_KEY.to_owned(), Json::Array(out));
}

/// The values `m` with `c` among the citations. Where something other than a list
/// stands under the name of the citations, it is left alone.
pub open spec fn cited(m: MetadataV, c: CitationV) -> MetadataV {
    match citations(m) {
        None => table::put(m, CITATIONS_KEY@, JsonV::Array(seq![citation_value(c)])),
        Some(JsonV::Array(l)) => if has_alike(l, citation_value(c)) {
            m
        } else {
            table::put(m, CITATIONS_KEY@, JsonV::Array(l.push(citation_value(c))))
        },
        Some(_) => m,
    }
}

/// Add a citation, unless it is there already.
pub fn attach_citation(metadata: &mut Metadata, citation: &Citation)
    ensures
        final(metadata)@ == cited(old(metadata)@, citation@),
{
    let v = citation.to_value();
    let mut list: Vec<Json> = match metadata.get(CITATIONS_KEY) {
        None => Vec::new(),
        Some(Json::Array(l)) => {
            if holds(l, &v) {
                return;
            }
            dup_list(l)
        },
        Some(_) => {
            return;
        },
    };
    assert(metadata@ == old(metadata)@);
    list.push(v);
    assert(seqs::views(list@) =~= match citations(old(metadata)@) {
        Some(JsonV::Array(l)) => l.push(v@),
        _ => seq![v@],
    });
    metadata.insert(CITATIONS_KEY.to_owned(), Json::Array(list));
}

/// To attach a citation twice is to attach it once.
pub proof fn law_cited_once(m: MetadataV, c: CitationV)
    ensures
        cited(cited(m, c), c) == cited(m, c),
{
    let v = citation_value(c);
    json::lemma_alike_itself(v);
    match citations(m) {
        None => {
            let l = seq![v];
            assert(l[0] == v);
            table::lemma_lookup_put(m, CITATIONS_KEY@, JsonV::Array(l), CITATIONS_KEY@);
        },
        Some(JsonV::Array(l)) => {
            if !has_alike(l, v) {
                assert(l.push(v)[l.len() as int] == v);
                table::lemma_lookup_put(m, CITATIONS_KEY@, JsonV::Array(l.push(v)), CITATIONS_KEY@);
            }
        },
        Some(_) => {},
    }
}

/// Uniting keeps what the first list holds, in its order, and holds all that the
/// second holds.
pub proof fn lemma_list_united(d: Seq<JsonV>, s: Seq<JsonV>)
    ensures
        list_united(d, s).len() >= d.len(),
        list_united(d, s).take(d.len() as int) == d,
        forall|v: JsonV| #[trigger]
            has_alike(list_united(d, s), v) <==> has_alike(d, v) || has_alike(s, v),
    decreases s.len(),
{
    let all = list_united(d, s);
    if s.len() == 0 {
        assert(d.take(d.len() as int) =~= d);
    } else {
        let before = s.drop_last();
        lemma_list_united(d, before);
        let m = list_united(d, before);
        let last = s.last();
        assert(s[s.len() - 1] == last);
        assert(all.take(d.len() as int) =~= m.take(d.len() as int));
        assert forall|v: JsonV| #[trigger]
            has_alike(all, v) <==> has_alike(d, v) || has_alike(s, v) by {
            assert(has_alike(m, v) <==> has_alike(d, v) || has_alike(before, v));
            if has_alike(before, v) {
                let i = choose|i: int| 0 <= i < before.len() && json::alike(#[trigger] before[i], v);
                assert(s[i] == before[i]);
            }
            if has_alike(s, v) {
                let i = choose|i: int| 0 <= i < s.len() && json::alike(#[trigger] s[i], v);
                if i < before.len() {
                    assert(json::alike(before[i], v));
                } else if has_alike(m, last) {
                    let k = choose|k: int| 0 <= k < m.len() && json::alike(#[trigger] m[k], last);
                    json::lemma_alike_through(m[k], last, v);
                } else {
                    assert(all[m.len() as int] == last);
                }
            }
            if has_alike(m, v) {
                let i = choose|i: int| 0 <= i < m.len() && json::alike(#[trigger] m[i], v);
                assert(all[i] == m[i]);
            }
            if has_alike(all, v) {
                let i = choose|i: int| 0 <= i < all.len() && json::alike(#[trigger] all[i], v);
                if i < m.len() {
                    assert(json::alike(m[i], v));
                }
            }
        }
    }
}

/// Uniting with a list whose items are all there changes nothing.
pub proof fn lemma_nothing_united(d: Seq<JsonV>, s: Seq<JsonV>)
    requires
        forall|i: int| 0 <= i < s.len() ==> has_alike(d, #[trigger] s[i]),
    ensures
        list_united(d, s) == d,
    decreases s.len(),
{
    if s.len() > 0 {
        let before = s.drop_last();
        assert forall|i: int| 0 <= i < before.len() implies has_alike(d, #[trigger] before[i]) by {
            assert(before[i] == s[i]);
        }
        lemma_nothing_united(d, before);
        assert(s[s.len() - 1] == s.last());
    }
}

/// A record has all of its own citations: to unite them with themselves changes
/// nothing.
pub proof fn law_united_with_itself(m: MetadataV)
    ensures
        united(m, m) == m,
{
    match citations(m) {
        Some(JsonV::Array(l)) => {
            assert forall|i: int| 0 <= i < l.len() implies has_alike(l, #[trigger] l[i]) by {
                json::lemma_alike_itself(l[i]);
            }
            lemma_nothing_united(l, l);
            table::lemma_position(m, CITATIONS_KEY@);
            assert(united(m, m) =~= m);
        },
        _ => {},
    }
}

/// A value equal to `v` stands among the citations of a record.
pub open spec fn list_holds(m: MetadataV, v: JsonV) -> bool {
    match citations(m) {
        Some(JsonV::Array(l)) => has_alike(l, v),
        _ => false,
    }
}

/// Uniting the citations of two records loses none of either: what `dst` cited, it
/// still cites, and it cites what `src` cites. (Unless something other than a list
/// stands in their place.)
pub proof fn law_united_keeps_both(dst: MetadataV, src: MetadataV, v: JsonV)
    requires
        citations(dst) is None || citations(dst)->0 is Array,
    ensures
        list_holds(dst, v) ==> list_holds(united(dst, src), v),
        list_holds(src, v) ==> list_holds(united(dst, src), v),
{
    match citations(src) {
        Some(JsonV::Array(s)) => {
            let d = match citations(dst) {
                Some(JsonV::Array(d)) => d,
                _ => seq![],
            };
            lemma_list_united(d, s);
            assert(has_alike(list_united(d, s), v) <==> has_alike(d, v) || has_alike(s, v));
            table::lemma_lookup_put(
                dst,
                CITATIONS_KEY@,
                JsonV::Array(list_united(d, s)),
                CITATIONS_KEY@,
            );
        },
        _ => {},
    }
}

/// Uniting the citations of two records changes nothing else of the first.
pub proof fn law_only_citations_are_united(dst: MetadataV, src: MetadataV, k: Seq<char>)
    requires
        k != CITATIONS_KEY@,
    ensures
        table::lookup(united(dst, src), k) == table::lookup(dst, k),
{
    match citations(src) {
        Some(JsonV::Array(s)) => {
            let d = match citations(dst) {
                Some(JsonV::Array(d)) => d,
                _ => seq![],
            };
            table::lemma_lookup_put(dst, CITATIONS_KEY@, JsonV::Array(list_united(d, s)), k);
        },
        _ => {},
    }
}

/// To cite something changes nothing else of a record.
pub proof fn law_only_citations_are_added(m: MetadataV, c: CitationV, k: Seq<char>)
    requires
        k != CITATIONS_KEY@,
    ensures
        table::lookup(cited(m, c), k) == table::lookup(m, k),
{
    match citations(m) {
        None => {
            table::lemma_lookup_put(
                m,
                CITATIONS_KEY@,
                JsonV::Array(seq![citation_value(c)]),
                k,
            );
        },
        Some(JsonV::Array(l)) => {
            table::lemma_lookup_put(
                m,
                CITATIONS_KEY@,
                JsonV::Array(l.push(citation_value(c))),
                k,
            );
        },
        Some(_) => {},
    }
}

/// The entity `e` with other values.
pub open spec fn entity_with(e: EntityV, m: MetadataV) -> EntityV {
    EntityV { metadata: m, ..e }
}

/// A triple with `c` among its citations and among those of its two ends.
pub open spec fn triple_cited(t: TripleV, c: CitationV) -> TripleV {
    TripleV {
        subject: entity_with(t.subject, cited(t.subject.metadata, c)),
        object: entity_with(t.object, cited(t.object.metadata, c)),
        metadata: cited(t.metadata, c),
        ..t
    }
}

/// A graph in which every entity and every triple cites `c`.
pub open spec fn graph_cited(g: GraphV, c: CitationV) -> GraphV {
    GraphV {
        entities: Seq::new(
            g.entities.len(),
            |i: int|
                (
                    g.entities[i].0,
                    entity_with(g.entities[i].1, cited(g.entities[i].1.metadata, c)),
                ),
        ),
        triples: Seq::new(g.triples.len(), |i: int| triple_cited(g.triples[i], c)),
        ..g
    }
}

/// A record cites what `c` is written as.
pub open spec fn cites(m: MetadataV, c: CitationV) -> bool {
    list_holds(m, citation_value(c))
}

/// Nothing other than a list stands in the place of the citations of a record.
pub open spec fn can_cite(m: MetadataV) -> bool {
    citations(m) is None || citations(m)->0 is Array
}

/// A record cites what was attached to it, and what it cited before.
pub proof fn law_attached_is_cited(m: MetadataV, c: CitationV, before: CitationV)
    requires
        can_cite(m),
    ensures
        cites(cited(m, c), c),
        cites(m, before) ==> cites(cited(m, c), before),
        can_cite(cited(m, c)),
{
    let v = citation_value(c);
    json::lemma_alike_itself(v);
    match citations(m) {
        None => {
            let l = seq![v];
            assert(l[0] == v);
            table::lemma_lookup_put(m, CITATIONS_KEY@, JsonV::Array(l), CITATIONS_KEY@);
        },
        Some(JsonV::Array(l)) => {
            if !has_alike(l, v) {
                let all = l.push(v);
                let w = citation_value(before);
                assert(all[l.len() as int] == v);
                if has_alike(l, w) {
                    let i = choose|i: int| 0 <= i < l.len() && json::alike(#[trigger] l[i], w);
                    assert(all[i] == l[i]);
                }
                table::lemma_lookup_put(m, CITATIONS_KEY@, JsonV::Array(all), CITATIONS_KEY@);
            }
        },
        Some(_) => {},
    }
}

/// Once a graph has been stamped, every entity cites the place, and so do every
/// relationship and both the ends that it carries.
pub proof fn law_every_record_is_cited(g: GraphV, c: CitationV, i: int, j: int)
    requires
        0 <= i < g.entities.len() ==> can_cite(g.entities[i].1.metadata),
        0 <= j < g.triples.len() ==> can_cite(g.triples[j].metadata) && can_cite(
            g.triples[j].subject.metadata,
        ) && can_cite(g.triples[j].object.metadata),
    ensures
        0 <= i < g.entities.len() ==> cites(graph_cited(g, c).entities[i].1.metadata, c),
        0 <= j < g.triples.len() ==> cites(graph_cited(g, c).triples[j].metadata, c) && cites(
            graph_cited(g, c).triples[j].subject.metadata,
            c,
        ) && cites(graph_cited(g, c).triples[j].object.metadata, c),
{
    if 0 <= i < g.entities.len() {
        law_attached_is_cited(g.entities[i].1.metadata, c, c);
    }
    if 0 <= j < g.triples.len() {
        law_attached_is_cited(g.triples[j].metadata, c, c);
        law_attached_is_cited(g.triples[j].subject.metadata, c, c);
        law_attached_is_cited(g.triples[j].object.metadata, c, c);
    }
}

/// Let every entity and every triple of `kg` cite `citation`, and the two ends that
/// a triple carries with it too: they come back among the entities when the triple
/// is added to a graph.
pub fn stamp_graph(kg: &mut KnowledgeGraph, citation: &Citation)
    ensures
        final(kg)@ == graph_cited(old(kg)@, citation@),
{
    let ghost before = kg@;
    let ghost after = graph_cited(kg@, citation@);
    let n: usize = kg.entities.len();
    let mut i: usize = 0;
    while i < n
        invariant
            i <= n,
            n == kg.entities@.len(),
            after == graph_cited(before, citation@),
            before.entities.len() == n,
            seqs::views(kg.triples@) == before.triples,
            kg.metadata@ == before.metadata,
            kg.entities@ =~= after.entities.take(i as int) + before.entities.skip(i as int),
        decreases n - i,
    {
        let mut e = kg.entities.value_at(i).dup();
        assert(e@ == before.entities[i as int].1);
        attach_citation(&mut e.metadata, citation);
        kg.entities.set_at(i, e);
        i += 1;
    }
    assert(kg.entities@ =~= after.entities);
    let m: usize = kg.triples.len();
    let mut j: usize = 0;
    while j < m
        invariant
            j <= m,
            m == kg.triples@.len(),
            after == graph_cited(before, citation@),
            before.triples.len() == m,
            kg.entities@ == after.entities,
            kg.metadata@ == before.metadata,
            seqs::views(kg.triples@) =~= after.triples.take(j as int) + before.triples.skip(
                j as int,
            ),
        decreases m - j,
    {
        let mut t = kg.triples[j].dup();
        assert(seqs::views(kg.triples@)[j as int] == t@);
        assert(t@ == before.triples[j as int]);
        attach_citation(&mut t.metadata, citation);
        attach_citation(&mut t.subject.metadata, citation);
        attach_citation(&mut t.object.metadata, citation);
        kg.triples.set(j, t);
        j += 1;
    }
    assert(seqs::views(kg.triples@) =~= after.triples);
}

/// The values `m` with the title and the values of the chunk `s`, as far as it has
/// any.
pub open spec fn chunk_noted(m: MetadataV, s: SegmentV) -> MetadataV {
    let titled = match s.title {
        Some(t) => table::put(m, CHUNK_TITLE_KEY@, JsonV::Text(t)),
        None => m,
    };
    if s.metadata.len() > 0 {
        table::put(titled, CHUNK_METADATA_KEY@, JsonV::Object(s.metadata))
    } else {
        titled
    }
}

/// What a chunk came with is noted of a record: its title and its values, as far as it has
/// any, each under its name. Nothing else of the record changes.
pub proof fn law_chunks_are_noted(m: MetadataV, s: SegmentV, k: Seq<char>)
    requires
        k != "chunk_title"@,
        k != "chunk_metadata"@,
    ensures
        ({
            let r = chunk_noted(m, s);
            &&& table::lookup(r, k) == table::lookup(m, k)
            &&& s.title is Some ==> table::lookup(r, "chunk_title"@) == Some(
                JsonV::Text(s.title->0),
            )
            &&& s.title is None ==> table::lookup(r, "chunk_title"@) == table::lookup(
                m,
                "chunk_title"@,
            )
            &&& s.metadata.len() > 0 ==> table::lookup(r, "chunk_metadata"@) == Some(
                JsonV::Object(s.metadata),
            )
            &&& s.metadata.len() == 0 ==> table::lookup(r, "chunk_metadata"@) == table::lookup(
                m,
                "chunk_metadata"@,
            )
        }),
{
    reveal_strlit("chunk_title");
    assert("chunk_title"@.len() == 11);
    reveal_strlit("chunk_metadata");
    assert("chunk_metadata"@.len() == 14);
    let a = CHUNK_TITLE_KEY@;
    let b = CHUNK_METADATA_KEY@;
    let titled = match s.title {
        Some(t) => table::put(m, a, JsonV::Text(t)),
        None => m,
    };
    if let Some(t) = s.title {
        table::lemma_lookup_put(m, a, JsonV::Text(t), a);
        table::lemma_lookup_put(m, a, JsonV::Text(t), b);
        table::lemma_lookup_put(m, a, JsonV::Text(t), k);
    }
    table::lemma_lookup_put(titled, b, JsonV::Object(s.metadata), a);
    table::lemma_lookup_put(titled, b, JsonV::Object(s.metadata), b);
    table::lemma_lookup_put(titled, b, JsonV::Object(s.metadata), k);
}

/// The values of a record as an object.
pub fn metadata_object(m: &Metadata) -> (r: Json)
    ensures
        r@ == JsonV::Object(m@),
{
    let mut out: Vec<(String, Json)> = Vec::new();
    let n: usize = m.len();
    let mut i: usize = 0;
    while i < n
        invariant
            i <= n,
            n == m@.len(),
            out@.len() == i,
            forall|k: int| 0 <= k < i ==> (#[trigger] json::members(out@)[k]) == m@[k],
        decreases n - i,
    {
        let k = m.key_at(i).clone();
        let v = m.value_at(i).dup();
        let ghost known = json::members(out@);
        out.push((k, v));
        assert(json::members(out@) =~= known.push((k@, v@)));
        i += 1;
    }
    assert(json::members(out@) =~= m@);
    Json::Object(out)
}

/// Note on a record what came with the chunk that it was taken from.
pub fn attach_chunk_metadata(metadata: &mut Metadata, segment: &Segment)
    ensures
        final(metadata)@ == chunk_noted(old(metadata)@, segment@),
{
    if let Some(title) = &segment.title {
        metadata.insert(CHUNK_TITLE_KEY.to_owned(), Json::Text(title.clone()));
    }
    if !segment.metadata.is_empty() {
        metadata.insert(CHUNK_METADATA_KEY.to_owned(), metadata_object(&segment.metadata));
    }
}

/// A triple that notes, as its two ends do, what came with the chunk `s`.
pub open spec fn triple_noted(t: TripleV, s: SegmentV) -> TripleV {
    TripleV {
        subject: entity_with(t.subject, chunk_noted(t.subject.metadata, s)),
        object: entity_with(t.object, chunk_noted(t.object.metadata, s)),
        metadata: chunk_noted(t.metadata, s),
        ..t
    }
}

/// What is noted of a chunk leaves the citations of a record as they are.
pub proof fn lemma_notes_keep_citations(m: MetadataV, s: SegmentV)
    ensures
        citations(chunk_noted(m, s)) == citations(m),
{
    reveal_strlit("citations");
    assert("citations"@.len() == 9);
    reveal_strlit("chunk_title");
    assert("chunk_title"@.len() == 11);
    reveal_strlit("chunk_metadata");
    assert("chunk_metadata"@.len() == 14);
    assert("citations"@.len() == 9);
    assert("chunk_title"@.len() == 11);
    assert("chunk_metadata"@.len() == 14);
    law_chunks_are_noted(m, s, CITATIONS_KEY@);
}

/// A graph in which every entity and every triple notes what came with the chunk
/// `s`.
pub open spec fn graph_noted(g: GraphV, s: SegmentV) -> GraphV {
    GraphV {
        entities: Seq::new(
            g.entities.len(),
            |i: int|
                (
                    g.entities[i].0,
                    entity_with(g.entities[i].1, chunk_noted(g.entities[i].1.metadata, s)),
                ),
        ),
        triples: Seq::new(g.triples.len(), |i: int| triple_noted(g.triples[i], s)),
        ..g
    }
}

/// Note on every entity and every triple of `kg`, and on the two ends that a triple
/// carries with it, what came with the chunk that they were taken from.
pub fn stamp_chunk_metadata(kg: &mut KnowledgeGraph, segment: &Segment)
    ensures
        final(kg)@ == graph_noted(old(kg)@, segment@),
{
    let ghost before = kg@;
    let ghost after = graph_noted(kg@, segment@);
    if segment.title.is_none() && segment.metadata.is_empty() {
        assert(after.entities =~= before.entities);
        assert(after.triples =~= before.triples);
        return;
    }
    let n: usize = kg.entities.len();
    let mut i: usize = 0;
    while i < n
        invariant
            i <= n,
            n == kg.entities@.len(),
            after == graph_noted(before, segment@),
            before.entities.len() == n,
            seqs::views(kg.triples@) == before.triples,
            kg.metadata@ == before.metadata,
            kg.entities@ =~= after.entities.take(i as int) + before.entities.skip(i as int),
        decreases n - i,
    {
        let mut e = kg.entities.value_at(i).dup();
        assert(e@ == before.entities[i as int].1);
        attach_chunk_metadata(&mut e.metadata, segment);
        kg.entities.set_at(i, e);
        i += 1;
    }
    assert(kg.entities@ =~= after.entities);
    let m: usize = kg.triples.len();
    let mut j: usize = 0;
    while j < m
        invariant
            j <= m,
            m == kg.triples@.len(),
            after == graph_noted(before, segment@),
            before.triples.len() == m,
            kg.entities@ == after.entities,
            kg.metadata@ == before.metadata,
            seqs::views(kg.triples@) =~= after.triples.take(j as int) + before.triples.skip(
                j as int,
            ),
        decreases m - j,
    {
        let mut t = kg.triples[j].dup();
        assert(seqs::views(kg.triples@)[j as int] == t@);
        assert(t@ == before.triples[j as int]);
        attach_chunk_metadata(&mut t.metadata, segment);
        attach_chunk_metadata(&mut t.subject.metadata, segment);
        attach_chunk_metadata(&mut t.object.metadata, segment);
        kg.triples.set(j, t);
        j += 1;
    }
    assert(seqs::views(kg.triples@) =~= after.triples);
}

/// The citation of all lines of `text`.
pub open spec fn whole_document(doc: Option<Seq<char>>, text: Seq<char>) -> CitationV {
    line_citation(doc, 1, line_starts(text).len() as int)
}

/// Let every entity and every triple of `kg` cite all lines of `text`: what an
/// engine does that reads a document in one go.
pub fn stamp_whole_document(kg: &mut KnowledgeGraph, source_doc: &Option<String>, text: &str)
    ensures
        final(kg)@ == graph_cited(old(kg)@, whole_document(seqs::opt_view(*source_doc), text@)),
{
    let li = LineIndex::new(text);
    let cite = Citation::new(
        crate::types::graph::dup_option(source_doc),
        1,
        li.total_lines(),
    );
    stamp_graph(kg, &cite);
}

} // verus!
