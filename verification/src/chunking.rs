//! Cutting a text into segments, and reading segments that were cut elsewhere.

use vstd::prelude::*;
use vstd::string::*;

use crate::json::{Json, JsonV};
use crate::range::{CharSpan, LineSpan, RangeV, SourceRange};
use crate::table::{Dup, Table};
use crate::types::graph::{dup_option, Metadata, MetadataV};
use crate::{json, range, seqs, table, text};

verus! {

broadcast use {crate::seqs::group_views, crate::json::group_json};

/// What a [`Segment`] stands for.
pub struct SegmentV {
    pub content: Seq<char>,
    pub index: usize,
    pub start: usize,
    pub end: usize,
    pub range: Option<RangeV>,
    pub title: Option<Seq<char>>,
    pub metadata: MetadataV,
}

/// A piece of a text, with the characters of the text that it takes up.
pub struct Segment {
    pub content: String,
    pub index: usize,
    pub start: usize,
    pub end: usize,
    /// Where the segment stands, by each measure that is known.
    pub range: Option<SourceRange>,
    /// The title that a segment cut elsewhere came with.
    pub title: Option<String>,
    /// The values that a segment cut elsewhere came with.
    pub metadata: Metadata,
}

impl View for Segment {
    type V = SegmentV;

    open spec fn view(&self) -> SegmentV {
        SegmentV {
            content: self.content@,
            index: self.index,
            start: self.start,
            end: self.end,
            range: seqs::opt_view(self.range),
            title: seqs::opt_view(self.title),
            metadata: self.metadata@,
        }
    }
}

impl Dup for Segment {
    fn dup(&self) -> (r: Segment) {
        Segment {
            content: self.content.clone(),
            index: self.index,
            start: self.start,
            end: self.end,
            range: dup_option(&self.range),
            title: dup_option(&self.title),
            metadata: self.metadata.dup(),
        }
    }
}

/// A segment with the lines `start` to `end`; what else is known of where it
/// stands is kept.
pub open spec fn with_line_span(s: SegmentV, start: int, end: int) -> SegmentV {
    let known = match s.range {
        Some(r) => r,
        None => RangeV {
            char_span: range::char_span(s.start, s.end),
            ..range::unknown_range()
        },
    };
    SegmentV { range: Some(RangeV { line: range::line_span(start, end), ..known }), ..s }
}

/// The range of a segment, where it gives more than characters.
pub open spec fn evidence(s: SegmentV) -> Option<RangeV> {
    match s.range {
        Some(r) => if r.line is Some || r.page is Some || r.bbox is Some {
            Some(r)
        } else {
            None
        },
        None => None,
    }
}

impl Segment {
    /// Note the lines that the segment takes up, counted from one. What else is
    /// known of where it stands is kept.
    pub fn set_line_span(&mut self, start: usize, end: usize)
        ensures
            final(self)@ == with_line_span(old(self)@, start as int, end as int),
    {
        let line = LineSpan::of(start, end);
        let mut known = match &self.range {
            Some(r) => r.dup(),
            None => SourceRange {
                char_span: CharSpan::new(self.start, self.end),
                line: None,
                page: None,
                bbox: None,
            },
        };
        known.line = line;
        self.range = Some(known);
    }

    /// The range, where it gives more than characters: lines, pages or a box. A
    /// segment of which only the characters are known is not cited.
    pub fn evidence_range(&self) -> (r: Option<&SourceRange>)
        ensures
            match r {
                Some(x) => evidence(self@) == Some(x@),
                None => evidence(self@) is None,
            },
    {
        match &self.range {
            Some(r) => if r.line.is_some() || r.page.is_some() || r.bbox.is_some() {
                Some(r)
            } else {
                None
            },
            None => None,
        }
    }

    /// The lines, where they are known.
    pub fn line_span(&self) -> (r: Option<LineSpan>)
        ensures
            r == match self@.range {
                Some(x) => x.line,
                None => None,
            },
    {
        match &self.range {
            Some(r) => r.line,
            None => None,
        }
    }
}

/// What a [`PreChunked`] stands for.
pub struct PreChunkedV {
    pub segments: Seq<SegmentV>,
    pub source: Option<Seq<char>>,
}

/// Segments that were cut elsewhere.
pub struct PreChunked {
    pub segments: Vec<Segment>,
    /// The document that the segments were cut from, where they name it.
    pub source: Option<String>,
}

impl View for PreChunked {
    type V = PreChunkedV;

    open spec fn view(&self) -> PreChunkedV {
        PreChunkedV { segments: seqs::views(self.segments@), source: seqs::opt_view(self.source) }
    }
}

/// What a [`ChunkError`] stands for.
pub enum ChunkErrorV {
    NoInput,
    NotChunks(JsonV),
    BadLine(nat, Seq<char>),
    NoText(nat, JsonV),
    BadSpan(nat, usize, usize),
    BadRange(nat, Seq<char>),
    SourceConflict(nat, Seq<char>, Seq<char>),
    BadMetadata(nat),
    NoChunks,
}

/// Why segments that were cut elsewhere could not be read. Chunks and lines are
/// counted from one.
#[derive(Debug)]
pub enum ChunkError {
    /// The input is blank.
    NoInput,
    /// The input is neither an object nor a list of them.
    NotChunks(Json),
    /// A line is not JSON.
    BadLine(usize, String),
    /// A chunk has no text.
    NoText(usize, Json),
    /// A chunk ends before it starts.
    BadSpan(usize, usize, usize),
    /// The range of a chunk cannot be read.
    BadRange(usize, String),
    /// A chunk comes from another document than the chunks before it.
    SourceConflict(usize, String, String),
    /// The values that a chunk came with are no object.
    BadMetadata(usize),
    /// There are no chunks.
    NoChunks,
}

impl View for ChunkError {
    type V = ChunkErrorV;

    open spec fn view(&self) -> ChunkErrorV {
        match self {
            ChunkError::NoInput => ChunkErrorV::NoInput,
            ChunkError::NotChunks(j) => ChunkErrorV::NotChunks(j@),
            ChunkError::BadLine(n, e) => ChunkErrorV::BadLine(*n as nat, e@),
            ChunkError::NoText(n, j) => ChunkErrorV::NoText(*n as nat, j@),
            ChunkError::BadSpan(n, a, b) => ChunkErrorV::BadSpan(*n as nat, *a, *b),
            ChunkError::BadRange(n, e) => ChunkErrorV::BadRange(*n as nat, e@),
            ChunkError::SourceConflict(n, a, b) => ChunkErrorV::SourceConflict(*n as nat, a@, b@),
            ChunkError::BadMetadata(n) => ChunkErrorV::BadMetadata(*n as nat),
            ChunkError::NoChunks => ChunkErrorV::NoChunks,
        }
    }
}

/// What has been read so far: the segments, the document they come from, and the
/// character after the last of them.
pub struct ReadingV {
    pub segments: Seq<SegmentV>,
    pub source: Option<Seq<char>>,
    pub cursor: usize,
}

/// The span of characters that a chunk gives.
pub open spec fn given_span(v: JsonV) -> JsonV {
    match json::field(v, "range"@) {
        Some(r) => match json::field(r, "char_span"@) {
            Some(s) => s,
            None => JsonV::Null,
        },
        None => JsonV::Null,
    }
}

/// The first character of a chunk: as it says, else where the last one ended.
pub open spec fn chunk_start(v: JsonV, cursor: usize) -> usize {
    match json::uint_in(json::field(given_span(v), "start"@)) {
        Some(n) => n as usize,
        None => cursor,
    }
}

/// The character after a chunk: as it says, else as many characters behind its
/// start as its text has. A sum beyond the largest number starts over at zero.
pub open spec fn chunk_end(v: JsonV, start: usize, len: nat) -> usize {
    match json::uint_in(json::field(given_span(v), "end"@)) {
        Some(n) => n as usize,
        None => start.wrapping_add(len as usize),
    }
}

/// The range that a chunk gives, where it can be read.
pub open spec fn chunk_range(v: JsonV) -> Option<RangeV> {
    match json::field(v, "range"@) {
        None => Some(range::unknown_range()),
        Some(JsonV::Null) => Some(range::unknown_range()),
        Some(r) => range::range_in(r),
    }
}

/// The document that a chunk names; standard input is none.
pub open spec fn chunk_source(v: JsonV) -> Option<Seq<char>> {
    match json::text_in(json::field(v, "source_file"@)) {
        Some(s) => if s.len() == 0 || s == "<stdin>"@ {
            None
        } else {
            Some(s)
        },
        None => None,
    }
}

/// The title of a chunk, unless it is blank.
pub open spec fn chunk_title(v: JsonV) -> Option<Seq<char>> {
    match json::text_in(json::field(v, "title"@)) {
        Some(s) => if text::trimmed(s).len() == 0 {
            None
        } else {
            Some(s)
        },
        None => None,
    }
}

/// The values that a chunk came with, where they are an object or left out.
pub open spec fn chunk_metadata(v: JsonV) -> Option<MetadataV> {
    match json::field(v, "metadata"@) {
        None => Some(seq![]),
        Some(JsonV::Null) => Some(seq![]),
        Some(JsonV::Object(o)) => Some(table::put_all(seq![], o)),
        Some(_) => None,
    }
}

/// Reading the value `v`, the `n`th, counted from one, after what `st` holds.
pub open spec fn read_chunk(st: ReadingV, n: nat, v: JsonV) -> Result<ReadingV, ChunkErrorV> {
    match json::text_in(json::field(v, "text"@)) {
        None => if json::field(v, "truncated"@) is Some {
            Ok(st)
        } else {
            Err(ChunkErrorV::NoText(n, v))
        },
        Some(content) => {
            let start = chunk_start(v, st.cursor);
            let end = chunk_end(v, start, content.len());
            let conflict = match (chunk_source(v), st.source) {
                (Some(s), Some(known)) => s != known,
                _ => false,
            };
            if start > end {
                Err(ChunkErrorV::BadSpan(n, start, end))
            } else if chunk_range(v) is None {
                Err(
                    ChunkErrorV::BadRange(
                        n,
                        range::range_fault(json::field(v, "range"@)->0)->0,
                    ),
                )
            } else if conflict {
                Err(ChunkErrorV::SourceConflict(n, chunk_source(v)->0, st.source->0))
            } else if chunk_metadata(v) is None {
                Err(ChunkErrorV::BadMetadata(n))
            } else {
                Ok(
                    ReadingV {
                        segments: st.segments.push(
                            SegmentV {
                                content,
                                index: st.segments.len() as usize,
                                start,
                                end,
                                range: Some(
                                    RangeV {
                                        char_span: range::char_span(start, end),
                                        ..chunk_range(v)->0
                                    },
                                ),
                                title: chunk_title(v),
                                metadata: chunk_metadata(v)->0,
                            },
                        ),
                        source: if st.source is Some {
                            st.source
                        } else {
                            chunk_source(v)
                        },
                        cursor: end,
                    },
                )
            }
        },
    }
}

/// Reading the first `n` of the values `vs`; the first that cannot be read decides.
pub open spec fn read_chunks(vs: Seq<JsonV>, n: nat) -> Result<ReadingV, ChunkErrorV>
    decreases n,
{
    if n == 0 {
        Ok(ReadingV { segments: seq![], source: None, cursor: 0 })
    } else {
        match read_chunks(vs, (n - 1) as nat) {
            Ok(st) => read_chunk(st, n, vs[n - 1]),
            Err(e) => Err(e),
        }
    }
}

/// The segments that the values `vs` give.
pub open spec fn prechunked_in(vs: Seq<JsonV>) -> Result<PreChunkedV, ChunkErrorV> {
    match read_chunks(vs, vs.len()) {
        Ok(st) => if st.segments.len() == 0 {
            Err(ChunkErrorV::NoChunks)
        } else {
            Ok(PreChunkedV { segments: st.segments, source: st.source })
        },
        Err(e) => Err(e),
    }
}

/// The values that a JSON document holds: the items of a list, those of the list
/// `chunks` of an object, or the object itself.
pub open spec fn document_values(j: JsonV) -> Result<Seq<JsonV>, ChunkErrorV> {
    match j {
        JsonV::Array(a) => Ok(a),
        JsonV::Object(o) => match json::array_in(json::field(j, "chunks"@)) {
            Some(a) => Ok(a),
            None => Ok(seq![j]),
        },
        _ => Err(ChunkErrorV::NotChunks(j)),
    }
}

/// Of lines each is read as one value, in their order; the first that cannot be read is the
/// one that is told.
pub proof fn law_lines_are_read_one_by_one(ls: Seq<Seq<char>>, n: nat, i: int)
    requires
        n <= ls.len(),
        0 <= i < n,
    ensures
        match line_values(ls, n) {
            Ok(vs) => vs.len() == n && json::json_read(ls[i]) == Ok::<JsonV, Seq<char>>(vs[i]),
            Err(ChunkErrorV::BadLine(k, e)) => 1 <= k <= n && json::json_read(ls[k - 1]) == Err::<
                JsonV,
                Seq<char>,
            >(e) && (i < k - 1 ==> json::json_read(ls[i]) is Ok),
            Err(_) => false,
        },
    decreases n,
{
    let m = (n - 1) as nat;
    assert(line_values(ls, 0) == Ok::<Seq<JsonV>, ChunkErrorV>(seq![]));
    if m > 0 {
        if i < m {
            law_lines_are_read_one_by_one(ls, m, i);
        } else {
            law_lines_are_read_one_by_one(ls, m, 0);
        }
    }
}

/// A list gives its items, and an object those of its chunks; another object is one chunk.
pub proof fn law_documents_give_their_chunks(
    a: Seq<JsonV>,
    o: Seq<(Seq<char>, JsonV)>,
    vs: Seq<JsonV>,
)
    ensures
        document_values(JsonV::Array(a)) == Ok::<Seq<JsonV>, ChunkErrorV>(a),
        table::lookup(o, "chunks"@) == Some(JsonV::Array(a)) ==> document_values(JsonV::Object(o))
            == Ok::<Seq<JsonV>, ChunkErrorV>(a),
        !table::has_key(o, "chunks"@) ==> document_values(JsonV::Object(o)) == Ok::<
            Seq<JsonV>,
            ChunkErrorV,
        >(seq![JsonV::Object(o)]),
        prechunked_in(vs) matches Ok(p) ==> p.segments.len() > 0,
{
    table::lemma_position(o, "chunks"@);
}

/// The first `n` of the lines `ls`, each read as JSON; the first that is not JSON
/// decides.
pub open spec fn line_values(ls: Seq<Seq<char>>, n: nat) -> Result<Seq<JsonV>, ChunkErrorV>
    decreases n,
{
    if n == 0 {
        Ok(seq![])
    } else {
        match line_values(ls, (n - 1) as nat) {
            Ok(vs) => match json::json_read(ls[n - 1]) {
                Ok(v) => Ok(vs.push(v)),
                Err(e) => Err(ChunkErrorV::BadLine(n, e)),
            },
            Err(e) => Err(e),
        }
    }
}

/// The values that an input holds: those of the JSON document that it is, else
/// one for each line that is not blank.
pub open spec fn input_values(input: Seq<char>) -> Result<Seq<JsonV>, ChunkErrorV> {
    let t = text::trimmed(input);
    if t.len() == 0 {
        Err(ChunkErrorV::NoInput)
    } else {
        match json::json_parsed(t) {
            Some(j) => document_values(j),
            None => line_values(text::nonblank_lines(t), text::nonblank_lines(t).len()),
        }
    }
}

/// A table with the members of an object.
pub fn metadata_of(o: &Vec<(String, Json)>) -> (r: Metadata)
    ensures
        r@ == table::put_all(seq![], json::members(o@)),
{
    let mut m: Metadata = Table::new();
    let mut i: usize = 0;
    while i < o.len()
        invariant
            i <= o@.len(),
            m@ == table::put_all(seq![], json::members(o@).take(i as int)),
        decreases o.len() - i,
    {
        assert(json::members(o@).take(i + 1).drop_last() =~= json::members(o@).take(i as int));
        let k = o[i].0.clone();
        let v = o[i].1.dup();
        m.insert(k, v);
        i += 1;
    }
    assert(json::members(o@).take(i as int) =~= json::members(o@));
    m
}

/// The number at `k` in an object.
fn number_at(j: Option<&Json>, k: &str) -> (r: Option<u64>)
    ensures
        r == json::uint_in(
            json::field(
                match j {
                    Some(v) => v@,
                    None => JsonV::Null,
                },
                k@,
            ),
        ),
{
    match j {
        Some(v) => match v.get(k) {
            Some(n) => n.as_uint(),
            None => None,
        },
        None => None,
    }
}

/// What has been read so far.
struct Reading {
    segments: Vec<Segment>,
    source: Option<String>,
    cursor: usize,
}

impl View for Reading {
    type V = ReadingV;

    closed spec fn view(&self) -> ReadingV {
        ReadingV {
            segments: seqs::views(self.segments@),
            source: seqs::opt_view(self.source),
            cursor: self.cursor,
        }
    }
}

/// Read the value `v`, the `n`th, counted from one.
fn read_one(st: Reading, n: usize, v: &Json) -> (r: Result<Reading, ChunkError>)
    ensures
        match r {
            Ok(s) => read_chunk(st@, n as nat, v@) == Ok::<ReadingV, ChunkErrorV>(s@),
            Err(e) => read_chunk(st@, n as nat, v@) == Err::<ReadingV, ChunkErrorV>(e@),
        },
{
    let content = match v.text_at("text") {
        Some(t) => t,
        None => {
            if v.get("truncated").is_some() {
                return Ok(st);
            }
            return Err(ChunkError::NoText(n, v.dup()));
        },
    };
    let span = match v.get("range") {
        Some(r) => r.get("char_span"),
        None => None,
    };
    let start: usize = match number_at(span, "start") {
        Some(n) => n as usize,
        None => st.cursor,
    };
    let end: usize = match number_at(span, "end") {
        Some(n) => n as usize,
        None => start.wrapping_add(content.as_str().unicode_len()),
    };
    if start > end {
        return Err(ChunkError::BadSpan(n, start, end));
    }
    let mut range = match v.get("range") {
        None => SourceRange::unknown(),
        Some(Json::Null) => SourceRange::unknown(),
        Some(r) => match SourceRange::from_value(r) {
            Some(x) => x,
            None => {
                return Err(ChunkError::BadRange(n, range::find_fault(r).unwrap()));
            },
        },
    };
    range.char_span = CharSpan::new(start, end);
    let named = match v.text_at("source_file") {
        Some(s) => if s.as_str().is_empty() || text::same(s.as_str(), "<stdin>") {
            None
        } else {
            Some(s)
        },
        None => None,
    };
    if let (Some(s), Some(known)) = (&named, &st.source) {
        if !text::same(s.as_str(), known.as_str()) {
            return Err(ChunkError::SourceConflict(n, s.clone(), known.clone()));
        }
    }
    let title = match v.text_at("title") {
        Some(s) => if text::trim(s.as_str()).as_str().is_empty() {
            None
        } else {
            Some(s)
        },
        None => None,
    };
    let metadata = match v.get("metadata") {
        None => Table::new(),
        Some(Json::Null) => Table::new(),
        Some(Json::Object(o)) => metadata_of(o),
        Some(_) => {
            return Err(ChunkError::BadMetadata(n));
        },
    };
    let Reading { mut segments, source, cursor: _ } = st;
    let index: usize = segments.len();
    segments.push(Segment { content, index, start, end, range: Some(range), title, metadata });
    let source = match source {
        Some(s) => Some(s),
        None => named,
    };
    Ok(Reading { segments, source, cursor: end })
}

/// The segments that the values `vs` give.
///
/// Each value needs a member `text`. Its characters are read from
/// `range.char_span`, and follow the last segment where that is left out; the
/// rest of `range`, `title` and `metadata` are kept, and all segments come from
/// one `source_file`. A value without text that says it was truncated is passed
/// over.
pub fn prechunked_from_values(vs: &Vec<Json>) -> (r: Result<PreChunked, ChunkError>)
    ensures
        match r {
            Ok(p) => prechunked_in(seqs::views(vs@)) == Ok::<PreChunkedV, ChunkErrorV>(p@),
            Err(e) => prechunked_in(seqs::views(vs@)) == Err::<PreChunkedV, ChunkErrorV>(e@),
        },
{
    let ghost values = seqs::views(vs@);
    let mut st = Reading { segments: Vec::new(), source: None, cursor: 0 };
    assert(st@.segments =~= seq![]);
    let mut i: usize = 0;
    while i < vs.len()
        invariant
            i <= vs@.len(),
            values == seqs::views(vs@),
            read_chunks(values, i as nat) == Ok::<ReadingV, ChunkErrorV>(st@),
        decreases vs.len() - i,
    {
        match read_one(st, i + 1, &vs[i]) {
            Ok(s) => {
                st = s;
            },
            Err(e) => {
                proof {
                    lemma_read_error(values, (i + 1) as nat, values.len());
                }
                return Err(e);
            },
        }
        i += 1;
    }
    if st.segments.len() == 0 {
        return Err(ChunkError::NoChunks);
    }
    Ok(PreChunked { segments: st.segments, source: st.source })
}

/// Once a value could not be read, reading on changes nothing.
proof fn lemma_read_error(vs: Seq<JsonV>, n: nat, m: nat)
    requires
        n <= m,
        read_chunks(vs, n) is Err,
    ensures
        read_chunks(vs, m) == read_chunks(vs, n),
    decreases m,
{
    if n < m {
        lemma_read_error(vs, n, (m - 1) as nat);
    }
}

/// Once a line could not be read, reading on changes nothing.
proof fn lemma_line_error(ls: Seq<Seq<char>>, n: nat, m: nat)
    requires
        n <= m,
        line_values(ls, n) is Err,
    ensures
        line_values(ls, m) == line_values(ls, n),
    decreases m,
{
    if n < m {
        lemma_line_error(ls, n, (m - 1) as nat);
    }
}

/// The values that an input holds.
fn values_of(input: &str) -> (r: Result<Vec<Json>, ChunkError>)
    ensures
        match r {
            Ok(vs) => input_values(input@) == Ok::<Seq<JsonV>, ChunkErrorV>(seqs::views(vs@)),
            Err(e) => input_values(input@) == Err::<Seq<JsonV>, ChunkErrorV>(e@),
        },
{
    let t = text::trim(input);
    if t.as_str().is_empty() {
        return Err(ChunkError::NoInput);
    }
    match json::parse_json(t.as_str()) {
        Some(j) => {
            match &j {
                Json::Array(a) => {
                    return Ok(crate::citation::dup_list(a));
                },
                Json::Object(_) => {},
                _ => {
                    return Err(ChunkError::NotChunks(j));
                },
            }
            if let Some(a) = j.array_at("chunks") {
                return Ok(crate::citation::dup_list(a));
            }
            let mut vs: Vec<Json> = Vec::new();
            let ghost v = j@;
            vs.push(j);
            assert(seqs::views(vs@) =~= seq![v]);
            Ok(vs)
        },
        None => {
            let ls = text::split_nonblank_lines(t.as_str());
            let ghost lines = seqs::views(ls@);
            let mut vs: Vec<Json> = Vec::new();
            assert(seqs::views(vs@) =~= seq![]);
            let mut i: usize = 0;
            while i < ls.len()
                invariant
                    i <= ls@.len(),
                    lines == seqs::views(ls@),
                    line_values(lines, i as nat) == Ok::<Seq<JsonV>, ChunkErrorV>(
                        seqs::views(vs@),
                    ),
                    t@ == text::trimmed(input@),
                    t@.len() > 0,
                    json::json_parsed(t@) is None,
                    lines == text::nonblank_lines(t@),
                decreases ls.len() - i,
            {
                match json::read_json(ls[i].as_str()) {
                    Ok(v) => {
                        vs.push(v);
                    },
                    Err(e) => {
                        proof {
                            lemma_line_error(lines, (i + 1) as nat, lines.len());
                        }
                        return Err(ChunkError::BadLine(i + 1, e));
                    },
                }
                i += 1;
            }
            Ok(vs)
        },
    }
}

/// Read segments that were cut elsewhere: a JSON list of chunks, an object with
/// the list `chunks`, a single chunk, or one chunk per line. The segments are
/// taken as they are.
pub fn parse_prechunked(input: &str) -> (r: Result<PreChunked, ChunkError>)
    ensures
        match (input_values(input@), r) {
            (Ok(vs), Ok(p)) => prechunked_in(vs) == Ok::<PreChunkedV, ChunkErrorV>(p@),
            (Ok(vs), Err(e)) => prechunked_in(vs) == Err::<PreChunkedV, ChunkErrorV>(e@),
            (Err(x), Ok(_)) => false,
            (Err(x), Err(e)) => x == e@,
        },
{
    match values_of(input) {
        Ok(vs) => prechunked_from_values(&vs),
        Err(e) => Err(e),
    }
}

/// What a [`ChunkError`] says.
pub open spec fn chunk_error_text(e: ChunkErrorV) -> Seq<char> {
    match e {
        ChunkErrorV::NoInput => "no pre-chunked input (expected chonkie JSON or JSONL chunks)"@,
        ChunkErrorV::NotChunks(j) => "pre-chunked input must be chunk objects, got: "@
            + json::json_text(j),
        ChunkErrorV::BadLine(n, e) => "pre-chunked input line "@ + text::decimal(n) + ": "@ + e,
        ChunkErrorV::NoText(n, j) => "chunk "@ + text::decimal(n) + " has no \"text\" field: "@
            + json::json_text(j),
        ChunkErrorV::BadSpan(n, a, b) => "chunk "@ + text::decimal(n)
            + " has invalid char span: start "@ + text::decimal(a as nat) + " exceeds end "@
            + text::decimal(b as nat),
        ChunkErrorV::BadRange(n, e) => "chunk "@ + text::decimal(n) + " has invalid range: "@ + e,
        ChunkErrorV::SourceConflict(n, a, b) => "chunk "@ + text::decimal(n)
            + " has source_file "@ + text::quoted(a) + " but earlier chunks came from "@
            + text::quoted(b) + "; kg-extract extracts one source document per run — split the input by source_file and run once per document"@,
        ChunkErrorV::BadMetadata(n) => "chunk "@ + text::decimal(n)
            + " has invalid metadata (expected a JSON object)"@,
        ChunkErrorV::NoChunks => "pre-chunked input contains no chunks"@,
    }
}

impl ChunkError {
    /// What went wrong, and with which chunk.
    pub fn message(&self) -> (r: String)
        ensures
            r@ == chunk_error_text(self@),
    {
        match self {
            ChunkError::NoInput => "no pre-chunked input (expected chonkie JSON or JSONL chunks)".to_owned(),
            ChunkError::NotChunks(j) => text::concat2(
                "pre-chunked input must be chunk objects, got: ",
                json::render_json(j).as_str(),
            ),
            ChunkError::BadLine(n, e) => {
                let mut s = text::concat2(
                    "pre-chunked input line ",
                    text::to_decimal(*n as u64).as_str(),
                );
                s.append(": ");
                s.append(e.as_str());
                s
            },
            ChunkError::NoText(n, j) => {
                let mut s = text::concat2("chunk ", text::to_decimal(*n as u64).as_str());
                s.append(" has no \"text\" field: ");
                s.append(json::render_json(j).as_str());
                s
            },
            ChunkError::BadSpan(n, a, b) => {
                let mut s = text::concat2("chunk ", text::to_decimal(*n as u64).as_str());
                s.append(" has invalid char span: start ");
                s.append(text::to_decimal(*a as u64).as_str());
                s.append(" exceeds end ");
                s.append(text::to_decimal(*b as u64).as_str());
                s
            },
            ChunkError::BadRange(n, e) => {
                let mut s = text::concat2("chunk ", text::to_decimal(*n as u64).as_str());
                s.append(" has invalid range: ");
                s.append(e.as_str());
                s
            },
            ChunkError::SourceConflict(n, a, b) => {
                let mut s = text::concat2("chunk ", text::to_decimal(*n as u64).as_str());
                s.append(" has source_file ");
                s.append(text::quote(a.as_str()).as_str());
                s.append(" but earlier chunks came from ");
                s.append(text::quote(b.as_str()).as_str());
                s.append("; kg-extract extracts one source document per run — split the input by source_file and run once per document");
                s
            },
            ChunkError::BadMetadata(n) => {
                let mut s = text::concat2("chunk ", text::to_decimal(*n as u64).as_str());
                s.append(" has invalid metadata (expected a JSON object)");
                s
            },
            ChunkError::NoChunks => "pre-chunked input contains no chunks".to_owned(),
        }
    }
}

/// How a text is cut into segments.
#[derive(Clone, Copy, Debug, PartialEq, Eq, Structural)]
pub enum ChunkStrategy {
    /// Windows of a fixed number of characters.
    Char,
    /// Windows of a fixed number of tokens.
    Token,
    /// Paragraphs, sentences and words, as far as they fit.
    Recursive,
}

/// The windows of `size` characters of `s`, each `size - overlap` characters
/// behind the one before, from position `from` on.
pub open spec fn windows(s: Seq<char>, size: nat, overlap: nat, from: nat) -> Seq<Seq<char>>
    decreases (if from < s.len() { s.len() - from } else { 0 }),
{
    if from < s.len() && overlap < size {
        let to = if from + size < s.len() {
            from + size
        } else {
            s.len()
        };
        seq![s.subrange(from as int, to as int)] + windows(
            s,
            size,
            overlap,
            (from + size - overlap) as nat,
        )
    } else {
        seq![]
    }
}

/// The character `i` of `s` stands in the window `k`, where windows are taken from
/// position `from` on.
pub open spec fn stands_in_window(
    s: Seq<char>,
    size: nat,
    overlap: nat,
    from: nat,
    i: int,
    k: int,
) -> bool {
    let w = windows(s, size, overlap, from);
    let start = from + k * (size - overlap);
    &&& 0 <= k < w.len()
    &&& start <= i < start + w[k].len()
    &&& w[k][i - start] == s[i]
}

/// A character stands in the window that [`stands_in_window`] gives for some `k`.
proof fn lemma_in_some_window(s: Seq<char>, size: nat, overlap: nat, from: nat, i: int) -> (k: int)
    requires
        overlap < size,
        from <= i < s.len(),
    ensures
        stands_in_window(s, size, overlap, from, i, k),
    decreases s.len() - from,
{
    let step = size - overlap;
    let w = windows(s, size, overlap, from);
    if i < from + size {
        assert(0 * step == 0) by (nonlinear_arith);
        assert(stands_in_window(s, size, overlap, from, i, 0));
        0
    } else {
        let k = lemma_in_some_window(s, size, overlap, (from + step) as nat, i);
        let rest = windows(s, size, overlap, (from + step) as nat);
        assert(w[k + 1] == rest[k]);
        assert((k + 1) * step == k * step + step) by (nonlinear_arith);
        k + 1
    }
}

/// No character of a text is lost between windows: each stands in some window, at its
/// place.
pub proof fn law_windows_cover_the_text(s: Seq<char>, size: nat, overlap: nat, i: int)
    requires
        overlap < size,
        0 <= i < s.len(),
    ensures
        exists|k: int| #[trigger] stands_in_window(s, size, overlap, 0, i, k),
{
    let k = lemma_in_some_window(s, size, overlap, 0, i);
}

/// The texts of the chunks that chonkie's recursive chunker cuts a text into, with
/// its default rules and a given number of characters.
pub uninterp spec fn recursive_pieces(text: Seq<char>, size: usize) -> Seq<Seq<char>>;

/// `chonkie::TokenChunker::chunk` over `chonkie::CharacterTokenizer`, whose tokens
/// are the characters: the texts of the windows of `size` characters of `text`,
/// each `size - overlap` characters behind the one before, as long as one starts
/// within the text.
#[verifier::external_body]
fn char_windows(text: &str, size: usize, overlap: usize) -> (r: Vec<String>)
    requires
        overlap < size,
        text@.len() + size <= usize::MAX,
    ensures
        seqs::views(r@) == windows(text@, size as nat, overlap as nat, 0),
{
    chonkie::TokenChunker::new(chonkie::CharacterTokenizer::new(), size, overlap)
        .chunk(text)
        .into_iter()
        .map(|c| c.text)
        .collect()
}

/// `chonkie::RecursiveChunker::chunk` over `chonkie::CharacterTokenizer` with the
/// default rules: the texts of the chunks of `text`, which depend on the text and
/// the size alone.
#[verifier::external_body]
fn recursive_chunks(text: &str, size: usize) -> (r: Vec<String>)
    requires
        size > 0,
    ensures
        seqs::views(r@) == recursive_pieces(text@, size),
{
    let rules = chonkie::RecursiveRules::default();
    chonkie::RecursiveChunker::new(chonkie::CharacterTokenizer::new(), size, rules)
        .chunk(&text.to_string())
        .into_iter()
        .map(|c| c.text)
        .collect()
}

/// The segment with the text `content` that starts at the character `start`. A sum
/// beyond the largest number starts over at zero.
pub open spec fn plain_segment(content: Seq<char>, index: nat, start: usize) -> SegmentV {
    spanned_segment(content, index, start, start.wrapping_add(content.len() as usize))
}

/// The segment with the text `content` that takes up the characters from `start` up to
/// `end`.
pub open spec fn spanned_segment(
    content: Seq<char>,
    index: nat,
    start: usize,
    end: usize,
) -> SegmentV {
    SegmentV {
        content,
        index: index as usize,
        start,
        end,
        range: Some(
            RangeV { char_span: range::char_span(start, end), ..range::unknown_range() },
        ),
        title: None,
        metadata: seq![],
    }
}

/// Where the piece `n` of `ps` starts: each starts `step` characters behind the one
/// before, or where that one ends where no step is given.
pub open spec fn piece_start(ps: Seq<Seq<char>>, step: Option<usize>, n: nat) -> usize
    decreases n,
{
    if n == 0 {
        0
    } else {
        let before = piece_start(ps, step, (n - 1) as nat);
        before.wrapping_add(
            match step {
                Some(k) => k,
                None => ps[n - 1].len() as usize,
            },
        )
    }
}

/// The segments with the texts `ps`, each `step` characters behind the one before,
/// or where that one ends where no step is given.
pub open spec fn placed(ps: Seq<Seq<char>>, step: Option<usize>) -> Seq<SegmentV> {
    Seq::new(ps.len(), |i: int| plain_segment(ps[i], i as nat, piece_start(ps, step, i as nat)))
}

/// The segment with the text `content` that takes up the characters from `start` up to
/// `end`.
fn make_segment(content: String, index: usize, start: usize, end: usize) -> (r: Segment)
    ensures
        r@ == spanned_segment(content@, index as nat, start, end),
{
    let range = SourceRange {
        char_span: CharSpan::new(start, end),
        line: None,
        page: None,
        bbox: None,
    };
    let r = Segment {
        content,
        index,
        start,
        end,
        range: Some(range),
        title: None,
        metadata: Table::new(),
    };
    assert(r@.metadata =~= seq![]);
    r
}

/// The segments with the texts `pieces`, each `step` characters behind the one
/// before, or where that one ends where no step is given.
pub fn place_pieces(pieces: Vec<String>, step: Option<usize>) -> (r: Vec<Segment>)
    ensures
        seqs::views(r@) == placed(seqs::views(pieces@), step),
{
    let ghost ps = seqs::views(pieces@);
    let mut out: Vec<Segment> = Vec::new();
    let mut start: usize = 0;
    let mut i: usize = 0;
    while i < pieces.len()
        invariant
            i <= pieces@.len(),
            ps == seqs::views(pieces@),
            start == piece_start(ps, step, i as nat),
            seqs::views(out@) == placed(ps, step).take(i as int),
        decreases pieces.len() - i,
    {
        let content = pieces[i].clone();
        let len: usize = content.as_str().unicode_len();
        let segment = make_segment(content, i, start, start.wrapping_add(len));
        assert(placed(ps, step).take(i + 1) =~= placed(ps, step).take(i as int).push(
            placed(ps, step)[i as int],
        ));
        assert(segment@ == placed(ps, step)[i as int]);
        out.push(segment);
        start = start.wrapping_add(
            match step {
                Some(k) => k,
                None => len,
            },
        );
        i += 1;
    }
    assert(placed(ps, step).take(i as int) =~= placed(ps, step));
    out
}

/// A space or a tab.
pub open spec fn is_blank(c: char) -> bool {
    c == ' ' || c == '\t'
}

/// Where `s` has something else than blanks, from `from` on; its end where it has
/// nothing else.
pub open spec fn first_solid(s: Seq<char>, from: int) -> int
    decreases s.len() - from,
{
    if 0 <= from < s.len() {
        if is_blank(s[from]) {
            first_solid(s, from + 1)
        } else {
            from
        }
    } else {
        s.len() as int
    }
}

/// Where `s` has the character `c`, from `from` on.
pub open spec fn next_of(s: Seq<char>, c: char, from: int) -> Option<int>
    decreases s.len() - from,
{
    if 0 <= from < s.len() {
        if s[from] == c {
            Some(from)
        } else {
            next_of(s, c, from + 1)
        }
    } else {
        None
    }
}

/// Where the characters of `p` from `at` on end in `s`, one behind the other from
/// `from` on. Blanks of `p` are passed over, and so is what `s` has between.
pub open spec fn laid_end(s: Seq<char>, p: Seq<char>, at: int, from: int) -> int
    decreases p.len() - at,
{
    if 0 <= at < p.len() {
        match next_of(s, p[at], from) {
            Some(i) => if is_blank(p[at]) {
                laid_end(s, p, at + 1, from)
            } else {
                laid_end(s, p, at + 1, i + 1)
            },
            None => laid_end(s, p, at + 1, from),
        }
    } else {
        from
    }
}

/// Where the first character of `p` that is no blank stands in `s`, from `from` on.
pub open spec fn laid_start(s: Seq<char>, p: Seq<char>, from: int) -> int {
    let k = first_solid(p, 0);
    if k < p.len() {
        match next_of(s, p[k], from) {
            Some(i) => i,
            None => from,
        }
    } else {
        from
    }
}

/// The characters of `s`, from `from` on, that the piece `p` takes up: those where it
/// stands, at once or behind blanks, or else those over which it is laid. Such a piece
/// was put together of words, with a space in the place of the blanks between them.
pub open spec fn span_of(s: Seq<char>, p: Seq<char>, from: int) -> (int, int) {
    let solid = first_solid(s, from);
    if text::occurs_at(s, p, from) {
        (from, from + p.len())
    } else if text::occurs_at(s, p, solid) {
        (solid, solid + p.len())
    } else {
        (laid_start(s, p, from), laid_end(s, p, 0, from))
    }
}

/// Where the first `n` of the pieces `ps` end in `s`.
pub open spec fn end_of_pieces(s: Seq<char>, ps: Seq<Seq<char>>, n: int) -> int
    decreases n,
{
    if n <= 0 {
        0
    } else {
        span_of(s, ps[n - 1], end_of_pieces(s, ps, n - 1)).1
    }
}

/// The characters of `s` that the piece `n` of `ps` takes up.
pub open spec fn piece_span(s: Seq<char>, ps: Seq<Seq<char>>, n: int) -> (int, int) {
    span_of(s, ps[n], end_of_pieces(s, ps, n))
}

/// The pieces `ps` of `s` as segments, each where it stands.
pub open spec fn located(s: Seq<char>, ps: Seq<Seq<char>>) -> Seq<SegmentV> {
    Seq::new(
        ps.len(),
        |i: int|
            spanned_segment(
                ps[i],
                i as nat,
                piece_span(s, ps, i).0 as usize,
                piece_span(s, ps, i).1 as usize,
            ),
    )
}

proof fn lemma_first_solid(s: Seq<char>, from: int)
    requires
        0 <= from <= s.len(),
    ensures
        from <= first_solid(s, from) <= s.len(),
        forall|i: int| from <= i < first_solid(s, from) ==> is_blank(#[trigger] s[i]),
        first_solid(s, from) < s.len() ==> !is_blank(s[first_solid(s, from)]),
    decreases s.len() - from,
{
    if from < s.len() && is_blank(s[from]) {
        lemma_first_solid(s, from + 1);
    }
}

proof fn lemma_next_of(s: Seq<char>, c: char, from: int)
    requires
        0 <= from,
    ensures
        next_of(s, c, from) matches Some(i) ==> from <= i < s.len() && s[i] == c,
    decreases s.len() - from,
{
    if from < s.len() && s[from] != c {
        lemma_next_of(s, c, from + 1);
    }
}

proof fn lemma_laid_end(s: Seq<char>, p: Seq<char>, at: int, from: int)
    requires
        0 <= at,
        0 <= from <= s.len(),
    ensures
        from <= laid_end(s, p, at, from) <= s.len(),
    decreases p.len() - at,
{
    if at < p.len() {
        lemma_next_of(s, p[at], from);
        match next_of(s, p[at], from) {
            Some(i) => if is_blank(p[at]) {
                lemma_laid_end(s, p, at + 1, from);
            } else {
                lemma_laid_end(s, p, at + 1, i + 1);
            },
            None => {
                lemma_laid_end(s, p, at + 1, from);
            },
        }
    }
}

/// Laying over the blanks at the start of a piece does not move.
proof fn lemma_laid_from_solid(s: Seq<char>, p: Seq<char>, at: int, from: int)
    requires
        0 <= at <= p.len(),
        0 <= from <= s.len(),
    ensures
        laid_end(s, p, at, from) == laid_end(s, p, first_solid(p, at), from),
    decreases p.len() - at,
{
    if at < p.len() && is_blank(p[at]) {
        lemma_laid_from_solid(s, p, at + 1, from);
    }
}

/// The characters that a piece takes up lie in the text, behind those before.
pub proof fn lemma_span(s: Seq<char>, p: Seq<char>, from: int)
    requires
        0 <= from <= s.len(),
    ensures
        from <= span_of(s, p, from).0 <= span_of(s, p, from).1 <= s.len(),
{
    lemma_first_solid(s, from);
    lemma_laid_end(s, p, 0, from);
    let k = first_solid(p, 0);
    lemma_first_solid(p, 0);
    lemma_laid_from_solid(s, p, 0, from);
    if k < p.len() {
        lemma_next_of(s, p[k], from);
        match next_of(s, p[k], from) {
            Some(i) => {
                lemma_laid_end(s, p, k + 1, i + 1);
            },
            None => {},
        }
    }
}

proof fn lemma_end_of_pieces(s: Seq<char>, ps: Seq<Seq<char>>, n: int)
    ensures
        0 <= end_of_pieces(s, ps, n) <= s.len(),
    decreases n,
{
    if n > 0 {
        lemma_end_of_pieces(s, ps, n - 1);
        lemma_span(s, ps[n - 1], end_of_pieces(s, ps, n - 1));
    }
}

/// The characters that the pieces of a text take up lie in the text, one piece behind
/// the other.
pub proof fn law_pieces_lie_in_order(s: Seq<char>, ps: Seq<Seq<char>>, n: int)
    requires
        0 <= n < ps.len(),
    ensures
        0 <= piece_span(s, ps, n).0 <= piece_span(s, ps, n).1 <= s.len(),
        n > 0 ==> piece_span(s, ps, n - 1).1 <= piece_span(s, ps, n).0,
{
    lemma_end_of_pieces(s, ps, n);
    lemma_span(s, ps[n], end_of_pieces(s, ps, n));
}

/// The pieces put together.
pub open spec fn put_together(ps: Seq<Seq<char>>) -> Seq<char>
    decreases ps.len(),
{
    if ps.len() == 0 {
        seq![]
    } else {
        put_together(ps.drop_last()) + ps.last()
    }
}

/// Pieces that put together are the start of a text each take up the characters that
/// they were cut from.
pub proof fn law_pieces_stand_in_place(s: Seq<char>, ps: Seq<Seq<char>>, n: int)
    requires
        0 <= n < ps.len(),
        put_together(ps).len() <= s.len(),
        s.take(put_together(ps).len() as int) == put_together(ps),
    ensures
        piece_span(s, ps, n).0 == put_together(ps.take(n)).len(),
        piece_span(s, ps, n).1 == piece_span(s, ps, n).0 + ps[n].len(),
        s.subrange(piece_span(s, ps, n).0, piece_span(s, ps, n).1) == ps[n],
    decreases n, 1int,
{
    lemma_stand_in_place(s, ps, n);
    lemma_put_together(ps, n + 1);
    let whole = put_together(ps);
    let first = put_together(ps.take(n));
    assert(ps.take(n + 1).drop_last() =~= ps.take(n));
    assert(ps.take(n + 1).last() == ps[n]);
    let both = put_together(ps.take(n + 1));
    assert(both == first + ps[n]);
    assert(s.subrange(first.len() as int, both.len() as int) =~= ps[n]) by {
        assert forall|i: int| 0 <= i < ps[n].len() implies s[first.len() + i] == #[trigger] ps[n][i] by {
            assert(s.take(whole.len() as int)[first.len() + i] == whole[first.len() + i]);
            assert(whole.take(both.len() as int)[first.len() + i] == both[first.len() + i]);
        }
    }
    assert(text::occurs_at(s, ps[n], first.len() as int));
}

/// The first pieces put together are the start of all of them put together.
proof fn lemma_put_together(ps: Seq<Seq<char>>, n: int)
    requires
        0 <= n <= ps.len(),
    ensures
        put_together(ps.take(n)).len() <= put_together(ps).len(),
        put_together(ps).take(put_together(ps.take(n)).len() as int) == put_together(ps.take(n)),
    decreases ps.len(),
{
    if n == ps.len() {
        assert(ps.take(n) =~= ps);
        assert(put_together(ps).take(put_together(ps).len() as int) =~= put_together(ps));
    } else {
        let before = ps.drop_last();
        lemma_put_together(before, n);
        assert(before.take(n) =~= ps.take(n));
        let k = put_together(ps.take(n)).len() as int;
        assert(put_together(ps).take(k) =~= put_together(before).take(k));
    }
}

proof fn lemma_stand_in_place(s: Seq<char>, ps: Seq<Seq<char>>, n: int)
    requires
        0 <= n <= ps.len(),
        put_together(ps).len() <= s.len(),
        s.take(put_together(ps).len() as int) == put_together(ps),
    ensures
        end_of_pieces(s, ps, n) == put_together(ps.take(n)).len(),
    decreases n, 0int,
{
    if n > 0 {
        law_pieces_stand_in_place(s, ps, n - 1);
        assert(ps.take(n).drop_last() =~= ps.take(n - 1));
        assert(ps.take(n).last() == ps[n - 1]);
    } else {
        assert(ps.take(0) =~= seq![]);
    }
}

/// Whether `p` stands in `s` at `from`.
fn stands_at(s: &Vec<char>, p: &Vec<char>, from: usize) -> (r: bool)
    requires
        from <= s@.len(),
    ensures
        r == text::occurs_at(s@, p@, from as int),
{
    let n: usize = s.len();
    if p.len() > n - from {
        return false;
    }
    let mut i: usize = 0;
    while i < p.len()
        invariant
            i <= p@.len(),
            n == s@.len(),
            from + p@.len() <= s@.len(),
            forall|j: int| 0 <= j < i ==> s@[from + j] == #[trigger] p@[j],
        decreases p.len() - i,
    {
        if s[from + i] != p[i] {
            assert(s@.subrange(from as int, from + p@.len())[i as int] != p@[i as int]);
            return false;
        }
        i += 1;
    }
    assert(s@.subrange(from as int, from + p@.len()) =~= p@);
    true
}

/// Where `s` has something else than blanks, from `from` on.
fn skip_blanks(s: &Vec<char>, from: usize) -> (r: usize)
    requires
        from <= s@.len(),
    ensures
        r == first_solid(s@, from as int),
        r <= s@.len(),
{
    let mut i: usize = from;
    while i < s.len() && (s[i] == ' ' || s[i] == '\t')
        invariant
            from <= i <= s@.len(),
            first_solid(s@, from as int) == first_solid(s@, i as int),
        decreases s.len() - i,
    {
        i += 1;
    }
    i
}

/// Where `s` has the character `c`, from `from` on.
fn find_char(s: &Vec<char>, c: char, from: usize) -> (r: Option<usize>)
    requires
        from <= s@.len(),
    ensures
        match r {
            Some(i) => next_of(s@, c, from as int) == Some(i as int) && from <= i < s@.len(),
            None => next_of(s@, c, from as int) is None,
        },
{
    let mut i: usize = from;
    while i < s.len()
        invariant
            from <= i <= s@.len(),
            next_of(s@, c, from as int) == next_of(s@, c, i as int),
        decreases s.len() - i,
    {
        if s[i] == c {
            return Some(i);
        }
        i += 1;
    }
    None
}

/// The characters of `s` that the piece `p` takes up: see [`span_of`].
fn find_span(s: &Vec<char>, p: &Vec<char>, from: usize) -> (r: (usize, usize))
    requires
        from <= s@.len(),
    ensures
        (r.0 as int, r.1 as int) == span_of(s@, p@, from as int),
        from <= r.0 <= r.1 <= s@.len(),
{
    proof {
        lemma_span(s@, p@, from as int);
    }
    let n: usize = s.len();
    if stands_at(s, p, from) {
        assert(from + p@.len() <= n);
        return (from, from + p.len());
    }
    let solid = skip_blanks(s, from);
    if stands_at(s, p, solid) {
        assert(solid + p@.len() <= n);
        return (solid, solid + p.len());
    }
    let k = skip_blanks(p, 0);
    let mut start: usize = from;
    if k < p.len() {
        if let Some(i) = find_char(s, p[k], from) {
            start = i;
        }
    }
    let mut end: usize = from;
    let mut at: usize = 0;
    while at < p.len()
        invariant
            at <= p@.len(),
            n == s@.len(),
            end <= s@.len(),
            laid_end(s@, p@, 0, from as int) == laid_end(s@, p@, at as int, end as int),
        decreases p.len() - at,
    {
        let c = p[at];
        if let Some(i) = find_char(s, c, end) {
            if !(c == ' ' || c == '\t') {
                end = i + 1;
            }
        }
        at += 1;
    }
    (start, end)
}

/// The pieces `pieces` of `text` as segments, each where it stands in the text.
pub fn locate_pieces(text: &str, pieces: Vec<String>) -> (r: Vec<Segment>)
    ensures
        seqs::views(r@) == located(text@, seqs::views(pieces@)),
{
    let ghost ps = seqs::views(pieces@);
    let s = text::chars_of(text);
    let mut out: Vec<Segment> = Vec::new();
    let mut from: usize = 0;
    let mut i: usize = 0;
    while i < pieces.len()
        invariant
            i <= pieces@.len(),
            ps == seqs::views(pieces@),
            s@ == text@,
            from == end_of_pieces(s@, ps, i as int),
            from <= s@.len(),
            seqs::views(out@) == located(s@, ps).take(i as int),
        decreases pieces.len() - i,
    {
        let p = text::chars_of(pieces[i].as_str());
        assert(p@ == ps[i as int]);
        let (start, end) = find_span(&s, &p, from);
        let segment = make_segment(pieces[i].clone(), i, start, end);
        assert(segment@ == located(s@, ps)[i as int]);
        assert(located(s@, ps).take(i + 1) =~= located(s@, ps).take(i as int).push(
            located(s@, ps)[i as int],
        ));
        out.push(segment);
        from = end;
        i += 1;
    }
    assert(located(s@, ps).take(i as int) =~= located(s@, ps));
    out
}

/// The segments of `text`. A window of characters overlaps the one before by
/// `overlap` characters; the pieces of the recursive strategy have no overlap, and
/// blanks between words may be left out of them: see [`span_of`]. Counting tokens takes
/// a tokenizer, which is not part of this crate, so there is no answer for that
/// strategy; see [`place_pieces`].
pub open spec fn segments(
    text: Seq<char>,
    strategy: ChunkStrategy,
    size: usize,
    overlap: usize,
) -> Option<Seq<SegmentV>> {
    match strategy {
        ChunkStrategy::Char => Some(
            placed(windows(text, size as nat, overlap as nat, 0), Some((size - overlap) as usize)),
        ),
        ChunkStrategy::Recursive => Some(located(text, recursive_pieces(text, size))),
        ChunkStrategy::Token => None,
    }
}

/// Where windows stand in a text.
proof fn lemma_window_at(s: Seq<char>, size: nat, overlap: nat, from: nat, k: int)
    requires
        overlap < size,
        0 <= k < windows(s, size, overlap, from).len(),
    ensures
        ({
            let start = from + k * (size - overlap);
            let end = if start + size < s.len() {
                start + size
            } else {
                s.len() as int
            };
            &&& 0 <= start < s.len()
            &&& windows(s, size, overlap, from)[k] == s.subrange(start, end)
        }),
    decreases k,
{
    let step = size - overlap;
    assert(0 * step == 0) by (nonlinear_arith);
    if k > 0 {
        let rest = windows(s, size, overlap, (from + step) as nat);
        assert(windows(s, size, overlap, from)[k] == rest[k - 1]);
        lemma_window_at(s, size, overlap, (from + step) as nat, k - 1);
        assert(k * step == (k - 1) * step + step) by (nonlinear_arith);
    }
}

proof fn lemma_window_starts(s: Seq<char>, size: nat, overlap: nat, k: nat)
    requires
        overlap < size,
        k < windows(s, size, overlap, 0).len(),
        s.len() <= usize::MAX,
        size <= usize::MAX,
    ensures
        piece_start(
            windows(s, size, overlap, 0),
            Some((size - overlap) as usize),
            k,
        ) == k * (size - overlap),
    decreases k,
{
    let step = size - overlap;
    assert(0 * step == 0) by (nonlinear_arith);
    if k > 0 {
        lemma_window_starts(s, size, overlap, (k - 1) as nat);
        lemma_window_at(s, size, overlap, 0, k as int);
        assert(k * step == (k - 1) * step + step) by (nonlinear_arith);
    }
}

/// Where a text is cut into windows of characters, each segment holds the characters of the
/// text from where it says that it starts to where it says that it ends. Segments are
/// counted from zero, each starts as many characters behind the one before as are not to
/// overlap, and each but those at the end of the text is as long as was asked for.
pub proof fn law_segments_are_parts_of_the_text(s: Seq<char>, size: usize, overlap: usize, i: int)
    requires
        overlap < size,
        s.len() + size <= usize::MAX,
        0 <= i < segments(s, ChunkStrategy::Char, size, overlap)->0.len(),
    ensures
        ({
            let x = segments(s, ChunkStrategy::Char, size, overlap)->0[i];
            &&& segments(s, ChunkStrategy::Char, size, overlap) is Some
            &&& x.index == i
            &&& x.start == i * (size - overlap)
            &&& x.start < x.end <= s.len()
            &&& x.content == s.subrange(x.start as int, x.end as int)
            &&& x.end < s.len() ==> x.content.len() == size
            &&& x.range is Some && (x.range->0).char_span == Some(
                CharSpan { start: x.start, end: x.end },
            )
        }),
{
    let ps = windows(s, size as nat, overlap as nat, 0);
    lemma_window_at(s, size as nat, overlap as nat, 0, i);
    lemma_window_starts(s, size as nat, overlap as nat, i as nat);
    lemma_windows_fit(s, size as nat, overlap as nat, 0);
}

/// There are no more windows than there are characters.
proof fn lemma_windows_fit(s: Seq<char>, size: nat, overlap: nat, from: nat)
    requires
        overlap < size,
    ensures
        windows(s, size, overlap, from).len() <= if from < s.len() {
            s.len() - from
        } else {
            0
        },
    decreases (if from < s.len() { s.len() - from } else { 0 }),
{
    if from < s.len() {
        lemma_windows_fit(s, size, overlap, (from + size - overlap) as nat);
    }
}

/// A chunk that was cut elsewhere is read as it was written: it becomes the next segment,
/// with its text, its title and what it came with, and it starts where it says that it
/// does, or else where the one before it ended. Its document stays known.
pub proof fn law_chunks_are_read_as_written(
    st: ReadingV,
    n: nat,
    o: Seq<(Seq<char>, JsonV)>,
    content: Seq<char>,
)
    requires
        table::lookup(o, "text"@) == Some(JsonV::Text(content)),
        read_chunk(st, n, JsonV::Object(o)) is Ok,
    ensures
        ({
            let v = JsonV::Object(o);
            let next = read_chunk(st, n, v)->Ok_0;
            let s = next.segments.last();
            let span = json::field(json::field(v, "range"@)->0, "char_span"@)->0;
            let from = json::uint_in(json::field(span, "start"@));
            let to = json::uint_in(json::field(span, "end"@));
            let told = table::has_key(o, "range"@) && json::field(
                json::field(v, "range"@)->0,
                "char_span"@,
            ) is Some;
            &&& next.segments.len() == st.segments.len() + 1
            &&& next.segments.drop_last() == st.segments
            &&& s.content == content
            &&& st.segments.len() <= usize::MAX ==> s.index == st.segments.len()
            &&& s.start <= s.end
            &&& next.cursor == s.end
            &&& !table::has_key(o, "range"@) ==> s.start == st.cursor
            &&& !table::has_key(o, "range"@) && st.cursor + content.len() <= usize::MAX ==> s.end
                == st.cursor + content.len()
            &&& told && from is Some && from->0 <= usize::MAX ==> s.start == from->0
            &&& told && to is Some && to->0 <= usize::MAX ==> s.end == to->0
            &&& !table::has_key(o, "title"@) ==> s.title is None
            &&& json::text_in(table::lookup(o, "title"@)) matches Some(t) ==> text::trimmed(
                t,
            ).len() > 0 ==> s.title == Some(t)
            &&& st.source is Some ==> next.source == st.source
            &&& st.source is None ==> next.source == chunk_source(v)
        }),
{
    let v = JsonV::Object(o);
    let next = read_chunk(st, n, v)->Ok_0;
    assert(next.segments.drop_last() =~= st.segments);
}

/// What is read of chunks one after the other is what each of them holds: there are no more
/// segments than chunks, each is counted, and each starts no later than it ends.
pub proof fn law_segments_are_counted(vs: Seq<JsonV>, n: nat, i: int)
    requires
        n <= vs.len(),
        vs.len() <= usize::MAX,
        read_chunks(vs, n) is Ok,
        0 <= i < read_chunks(vs, n)->Ok_0.segments.len(),
    ensures
        ({
            let ss = read_chunks(vs, n)->Ok_0.segments;
            &&& ss.len() <= n
            &&& ss[i].index == i
            &&& ss[i].start <= ss[i].end
            &&& exists|k: int|
                0 <= k < n && json::text_in(json::field(#[trigger] vs[k], "text"@)) == Some(
                    ss[i].content,
                )
        }),
    decreases n,
{
    lemma_few_segments(vs, n);
    if n > 0 {
        let before = read_chunks(vs, (n - 1) as nat)->Ok_0;
        let after = read_chunks(vs, n)->Ok_0;
        lemma_few_segments(vs, (n - 1) as nat);
        if i < before.segments.len() {
            law_segments_are_counted(vs, (n - 1) as nat, i);
            assert(after.segments[i] == before.segments[i]);
            let k = choose|k: int|
                0 <= k < n - 1 && json::text_in(json::field(#[trigger] vs[k], "text"@)) == Some(
                    before.segments[i].content,
                );
            assert(json::text_in(json::field(vs[k], "text"@)) == Some(after.segments[i].content));
        } else {
            assert(json::text_in(json::field(vs[n - 1], "text"@)) == Some(
                after.segments[i].content,
            ));
        }
    }
}

proof fn lemma_few_segments(vs: Seq<JsonV>, n: nat)
    requires
        n <= vs.len(),
    ensures
        read_chunks(vs, n) is Ok ==> read_chunks(vs, n)->Ok_0.segments.len() <= n,
    decreases n,
{
    if n > 0 {
        lemma_few_segments(vs, (n - 1) as nat);
    }
}

/// Cut `text` into segments.
pub fn segment(text: &str, strategy: ChunkStrategy, segment_size: usize, overlap: usize) -> (r:
    Option<Vec<Segment>>)
    requires
        segment_size > 0,
        strategy is Char ==> overlap < segment_size && text@.len() + segment_size <= usize::MAX,
    ensures
        match r {
            Some(v) => segments(text@, strategy, segment_size, overlap) == Some(seqs::views(v@)),
            None => segments(text@, strategy, segment_size, overlap) is None,
        },
{
    match strategy {
        ChunkStrategy::Char => Some(
            place_pieces(
                char_windows(text, segment_size, overlap),
                Some(segment_size - overlap),
            ),
        ),
        ChunkStrategy::Recursive => Some(
            locate_pieces(text, recursive_chunks(text, segment_size)),
        ),
        ChunkStrategy::Token => None,
    }
}

/// `parts` one after the other, with `separator` between each two.
pub fn join_texts(parts: &Vec<String>, separator: &str) -> (r: String)
    ensures
        r@ == text::joined(seqs::views(parts@), separator@),
{
    text::join(parts, separator)
}

} // verus!
