//! Where in a document something stands: characters, lines, pages, boxes.

use vstd::prelude::*;

use crate::json::{Json, JsonV, ObjectBuilder};
use crate::table::Dup;
use crate::{json, seqs, table, text};

verus! {

broadcast use {crate::seqs::group_views, crate::json::group_json};

/// Characters from `start` up to, not counting, `end`.
#[derive(Clone, Copy, Debug, PartialEq, Eq, Structural)]
pub struct CharSpan {
    pub start: usize,
    pub end: usize,
}

impl CharSpan {
    /// The characters from `start` up to `end`, unless `end` comes first.
    pub fn new(start: usize, end: usize) -> (r: Option<CharSpan>)
        ensures
            r == char_span(start, end),
    {
        if start <= end {
            Some(CharSpan { start, end })
        } else {
            None
        }
    }
}

/// The characters from `start` up to `end`, unless `end` comes first.
pub open spec fn char_span(start: usize, end: usize) -> Option<CharSpan> {
    if start <= end {
        Some(CharSpan { start, end })
    } else {
        None
    }
}

/// Lines, counted from one, from `start` to `end`.
#[derive(Clone, Copy, Debug, PartialEq, Eq, Structural)]
pub struct LineSpan {
    pub start: u32,
    pub end: u32,
}

/// The lines from `start` to `end`, where lines are counted from one and `end`
/// does not come first.
pub open spec fn line_span(start: int, end: int) -> Option<LineSpan> {
    if 1 <= start <= end <= u32::MAX {
        Some(LineSpan { start: start as u32, end: end as u32 })
    } else {
        None
    }
}

impl LineSpan {
    /// The lines from `start` to `end`, where lines are counted from one and `end`
    /// does not come first.
    pub fn new(start: u32, end: u32) -> (r: Option<LineSpan>)
        ensures
            r == line_span(start as int, end as int),
    {
        if 1 <= start && start <= end {
            Some(LineSpan { start, end })
        } else {
            None
        }
    }

    /// The lines from `start` to `end`, where these are line numbers that fit.
    pub fn of(start: usize, end: usize) -> (r: Option<LineSpan>)
        ensures
            r == line_span(start as int, end as int),
    {
        if start <= u32::MAX as usize && end <= u32::MAX as usize {
            LineSpan::new(start as u32, end as u32)
        } else {
            None
        }
    }
}

/// Pages, counted from one, from `start` to `end`.
#[derive(Clone, Copy, Debug, PartialEq, Eq, Structural)]
pub struct PageSpan {
    pub start: u32,
    pub end: u32,
}

/// Pages and lines are counted from one; spans of them start and end as given, and there is
/// none that ends before it starts.
pub proof fn law_spans_start_and_end_as_given(start: int, end: int)
    ensures
        page_span(start, end) matches Some(p) ==> p.start == start && p.end == end,
        line_span(start, end) matches Some(l) ==> l.start == start && l.end == end,
        1 <= start <= end <= u32::MAX <==> page_span(start, end) is Some,
        1 <= start <= end <= u32::MAX <==> line_span(start, end) is Some,
{
}

/// The pages from `start` to `end`, where pages are counted from one and `end`
/// does not come first.
pub open spec fn page_span(start: int, end: int) -> Option<PageSpan> {
    if 1 <= start <= end <= u32::MAX {
        Some(PageSpan { start: start as u32, end: end as u32 })
    } else {
        None
    }
}

impl PageSpan {
    /// The pages from `start` to `end`, where pages are counted from one and `end`
    /// does not come first.
    pub fn new(start: u32, end: u32) -> (r: Option<PageSpan>)
        ensures
            r == page_span(start as int, end as int),
    {
        if 1 <= start && start <= end {
            Some(PageSpan { start, end })
        } else {
            None
        }
    }
}

/// What a [`BBox`] stands for.
pub struct BBoxV {
    pub x0: Seq<char>,
    pub y0: Seq<char>,
    pub x1: Seq<char>,
    pub y1: Seq<char>,
}

/// A box on a page: two opposite corners, as decimal numbers.
#[derive(Debug, PartialEq)]
pub struct BBox {
    pub x0: String,
    pub y0: String,
    pub x1: String,
    pub y1: String,
}

impl View for BBox {
    type V = BBoxV;

    open spec fn view(&self) -> BBoxV {
        BBoxV { x0: self.x0@, y0: self.y0@, x1: self.x1@, y1: self.y1@ }
    }
}

impl Dup for BBox {
    fn dup(&self) -> (r: BBox) {
        BBox {
            x0: self.x0.clone(),
            y0: self.y0.clone(),
            x1: self.x1.clone(),
            y1: self.y1.clone(),
        }
    }
}

/// What a [`SourceRange`] stands for.
pub struct RangeV {
    pub char_span: Option<CharSpan>,
    pub line: Option<LineSpan>,
    pub page: Option<PageSpan>,
    pub bbox: Option<BBoxV>,
}

/// Where in a document something stands, by each measure that is known.
#[derive(Debug, PartialEq)]
pub struct SourceRange {
    pub char_span: Option<CharSpan>,
    pub line: Option<LineSpan>,
    pub page: Option<PageSpan>,
    pub bbox: Option<BBox>,
}

impl View for SourceRange {
    type V = RangeV;

    open spec fn view(&self) -> RangeV {
        RangeV {
            char_span: self.char_span,
            line: self.line,
            page: self.page,
            bbox: seqs::opt_view(self.bbox),
        }
    }
}

impl Dup for SourceRange {
    fn dup(&self) -> (r: SourceRange) {
        SourceRange {
            char_span: self.char_span,
            line: self.line,
            page: self.page,
            bbox: crate::types::graph::dup_option(&self.bbox),
        }
    }
}

/// A range of which nothing is known.
pub open spec fn unknown_range() -> RangeV {
    RangeV { char_span: None, line: None, page: None, bbox: None }
}

/// `start` and `end` as an object.
pub open spec fn span_value(start: u64, end: u64) -> JsonV {
    JsonV::Object(seq![("start"@, JsonV::Uint(start)), ("end"@, JsonV::Uint(end))])
}

/// The members `s`, and `k` with its value where there is one.
pub open spec fn with_member(
    s: Seq<(Seq<char>, JsonV)>,
    k: Seq<char>,
    v: Option<JsonV>,
) -> Seq<(Seq<char>, JsonV)> {
    match v {
        Some(j) => s.push((k, j)),
        None => s,
    }
}

/// A box as an object.
pub open spec fn bbox_value(b: BBoxV) -> JsonV {
    JsonV::Object(
        seq![
            ("x0"@, JsonV::Decimal(b.x0)),
            ("y0"@, JsonV::Decimal(b.y0)),
            ("x1"@, JsonV::Decimal(b.x1)),
            ("y1"@, JsonV::Decimal(b.y1)),
        ],
    )
}

/// A range as an object with what is known of it.
pub open spec fn range_value(r: RangeV) -> JsonV {
    let a = with_member(
        seq![],
        "char_span"@,
        match r.char_span {
            Some(c) => Some(span_value(c.start as u64, c.end as u64)),
            None => None,
        },
    );
    let b = with_member(
        a,
        "line"@,
        match r.line {
            Some(c) => Some(span_value(c.start as u64, c.end as u64)),
            None => None,
        },
    );
    let c = with_member(
        b,
        "page"@,
        match r.page {
            Some(c) => Some(span_value(c.start as u64, c.end as u64)),
            None => None,
        },
    );
    JsonV::Object(
        with_member(
            c,
            "bbox"@,
            match r.bbox {
                Some(b) => Some(bbox_value(b)),
                None => None,
            },
        ),
    )
}

/// `start` and `end` as an object.
fn span_json(start: u64, end: u64) -> (r: Json)
    ensures
        r@ == span_value(start, end),
{
    let r = ObjectBuilder::new().with("start", Json::Uint(start)).with("end", Json::Uint(end)).done();
    assert(r@->Object_0 =~= span_value(start, end)->Object_0);
    r
}

impl SourceRange {
    /// A range of which nothing is known.
    pub fn unknown() -> (r: SourceRange)
        ensures
            r@ == unknown_range(),
    {
        SourceRange { char_span: None, line: None, page: None, bbox: None }
    }

    /// An object with what is known of the range.
    pub fn to_value(&self) -> (r: Json)
        ensures
            r@ == range_value(self@),
    {
        let mut b = ObjectBuilder::new();
        if let Some(c) = self.char_span {
            b.add("char_span", span_json(c.start as u64, c.end as u64));
        }
        if let Some(c) = self.line {
            b.add("line", span_json(c.start as u64, c.end as u64));
        }
        if let Some(c) = self.page {
            b.add("page", span_json(c.start as u64, c.end as u64));
        }
        if let Some(x) = &self.bbox {
            let v = ObjectBuilder::new().with("x0", Json::Decimal(x.x0.clone())).with(
                "y0",
                Json::Decimal(x.y0.clone()),
            ).with("x1", Json::Decimal(x.x1.clone())).with(
                "y1",
                Json::Decimal(x.y1.clone()),
            ).done();
            assert(v@->Object_0 =~= bbox_value(x@)->Object_0);
            b.add("bbox", v);
        }
        b.done()
    }
}

/// The two bounds that an object gives.
pub open spec fn bounds_in(j: JsonV) -> Option<(u64, u64)> {
    match (json::uint_in(json::field(j, "start"@)), json::uint_in(json::field(j, "end"@))) {
        (Some(a), Some(b)) => Some((a, b)),
        _ => None,
    }
}

/// A number as decimal text with a point.
pub open spec fn decimal_in(j: Option<JsonV>) -> Option<Seq<char>> {
    match j {
        Some(JsonV::Decimal(t)) => Some(t),
        Some(JsonV::Uint(n)) => Some(text::decimal(n as nat) + seq!['.', '0']),
        Some(JsonV::Neg(n)) => if n < 0 {
            Some(seq!['-'] + text::decimal((-(n as int)) as nat) + seq!['.', '0'])
        } else {
            Some(text::decimal(n as nat) + seq!['.', '0'])
        },
        _ => None,
    }
}

/// The box that an object gives.
pub open spec fn bbox_in(j: JsonV) -> Option<BBoxV> {
    match (
        decimal_in(json::field(j, "x0"@)),
        decimal_in(json::field(j, "y0"@)),
        decimal_in(json::field(j, "x1"@)),
        decimal_in(json::field(j, "y1"@)),
    ) {
        (Some(x0), Some(y0), Some(x1), Some(y1)) => Some(BBoxV { x0, y0, x1, y1 }),
        _ => None,
    }
}

/// What stands under `k`, where it is there and not null.
pub open spec fn given(j: JsonV, k: Seq<char>) -> Option<JsonV> {
    match json::field(j, k) {
        Some(JsonV::Null) => None,
        v => v,
    }
}

/// The spans that an object gives can be read: each one that is given is an
/// object with both bounds, which fit.
pub open spec fn span_readable(j: JsonV, k: Seq<char>, most: u64) -> bool {
    match given(j, k) {
        Some(v) => bounds_in(v) is Some && (bounds_in(v)->0).0 <= most && (bounds_in(v)->0).1 <= most,
        None => true,
    }
}

/// The bounds that the member `k` gives, where it is given.
pub open spec fn span_at(j: JsonV, k: Seq<char>) -> Option<(u64, u64)> {
    match given(j, k) {
        Some(v) => bounds_in(v),
        None => None,
    }
}

/// The value `j` can be read as a range: an object whose spans and box can be read.
pub open spec fn range_readable(j: JsonV) -> bool {
    &&& j is Object
    &&& span_readable(j, "char_span"@, usize::MAX as u64)
    &&& span_readable(j, "line"@, u32::MAX as u64)
    &&& span_readable(j, "page"@, u32::MAX as u64)
    &&& match given(j, "bbox"@) {
        Some(v) => bbox_in(v) is Some,
        None => true,
    }
}

/// The range that the value `j` gives, where it can be read as one.
pub open spec fn range_in(j: JsonV) -> Option<RangeV> {
    if range_readable(j) {
        Some(
            RangeV {
                char_span: match span_at(j, "char_span"@) {
                    Some((a, b)) => Some(CharSpan { start: a as usize, end: b as usize }),
                    None => None,
                },
                line: match span_at(j, "line"@) {
                    Some((a, b)) => Some(LineSpan { start: a as u32, end: b as u32 }),
                    None => None,
                },
                page: match span_at(j, "page"@) {
                    Some((a, b)) => Some(PageSpan { start: a as u32, end: b as u32 }),
                    None => None,
                },
                bbox: match given(j, "bbox"@) {
                    Some(v) => bbox_in(v),
                    None => None,
                },
            },
        )
    } else {
        None
    }
}

/// How a value is called that is of the wrong type.
pub open spec fn called(v: JsonV) -> Seq<char> {
    match v {
        JsonV::Null => "null"@,
        JsonV::Bool(b) => if b {
            "boolean `true`"@
        } else {
            "boolean `false`"@
        },
        JsonV::Uint(n) => "integer `"@ + text::decimal(n as nat) + "`"@,
        JsonV::Neg(n) => "integer `"@ + integer_text(n) + "`"@,
        JsonV::Decimal(t) => "floating point `"@ + t + "`"@,
        JsonV::Text(t) => "string "@ + text::quoted(t),
        JsonV::Array(_) => "sequence"@,
        JsonV::Object(_) => "map"@,
    }
}

/// The numeral of an integer.
pub open spec fn integer_text(n: i64) -> Seq<char> {
    if n < 0 {
        "-"@ + text::decimal((-(n as int)) as nat)
    } else {
        text::decimal(n as nat)
    }
}

/// What is said where a value is of the wrong type.
pub open spec fn wrong_type(v: JsonV, expected: Seq<char>) -> Seq<char> {
    "invalid type: "@ + called(v) + ", expected "@ + expected
}

/// What is said where a number is out of its range.
pub open spec fn wrong_value(v: JsonV, expected: Seq<char>) -> Seq<char> {
    "invalid value: "@ + called(v) + ", expected "@ + expected
}

/// What is said where a member is missing.
pub open spec fn missing(k: Seq<char>) -> Seq<char> {
    "missing field `"@ + k + "`"@
}

/// The first of two faults.
pub open spec fn first_fault(a: Option<Seq<char>>, b: Option<Seq<char>>) -> Option<Seq<char>> {
    match a {
        Some(_) => a,
        None => b,
    }
}

/// What is wrong with a bound, where it is given.
pub open spec fn bound_fault(v: Option<JsonV>, kind: Seq<char>, most: u64) -> Option<Seq<char>> {
    match v {
        None => None,
        Some(JsonV::Uint(n)) => if n <= most {
            None
        } else {
            Some(wrong_value(v->0, kind))
        },
        Some(JsonV::Neg(_)) => Some(wrong_value(v->0, kind)),
        Some(x) => Some(wrong_type(x, kind)),
    }
}

/// What is said of the member `k` of `j` where it is missing.
pub open spec fn missing_fault(j: JsonV, k: Seq<char>) -> Option<Seq<char>> {
    if json::field(j, k) is None {
        Some(missing(k))
    } else {
        None
    }
}

/// What is wrong with the span in the member `k`, where it is given.
pub open spec fn span_fault(
    j: JsonV,
    k: Seq<char>,
    title: Seq<char>,
    kind: Seq<char>,
    most: u64,
) -> Option<Seq<char>> {
    match given(j, k) {
        None => None,
        Some(v) => if v is Object {
            first_fault(
                bound_fault(json::field(v, "end"@), kind, most),
                first_fault(
                    bound_fault(json::field(v, "start"@), kind, most),
                    first_fault(missing_fault(v, "start"@), missing_fault(v, "end"@)),
                ),
            )
        } else {
            Some(wrong_type(v, title))
        },
    }
}

/// What is wrong with the member `k` of a box, where it is given.
pub open spec fn side_fault(v: JsonV, k: Seq<char>) -> Option<Seq<char>> {
    match json::field(v, k) {
        None => None,
        Some(x) => if decimal_in(Some(x)) is Some {
            None
        } else {
            Some(wrong_type(x, "f64"@))
        },
    }
}

/// What is wrong with a box, where it is given.
pub open spec fn bbox_fault(j: JsonV) -> Option<Seq<char>> {
    match given(j, "bbox"@) {
        None => None,
        Some(v) => if v is Object {
            first_fault(
                first_fault(
                    first_fault(side_fault(v, "x0"@), side_fault(v, "x1"@)),
                    first_fault(side_fault(v, "y0"@), side_fault(v, "y1"@)),
                ),
                first_fault(
                    first_fault(missing_fault(v, "x0"@), missing_fault(v, "y0"@)),
                    first_fault(missing_fault(v, "x1"@), missing_fault(v, "y1"@)),
                ),
            )
        } else {
            Some(wrong_type(v, "struct BBox"@))
        },
    }
}

/// Why a value cannot be read as a range; nothing where it can be.
pub open spec fn range_fault(j: JsonV) -> Option<Seq<char>> {
    if j is Object {
        first_fault(
            first_fault(
                bbox_fault(j),
                span_fault(j, "char_span"@, "struct CharSpan"@, "usize"@, usize::MAX as u64),
            ),
            first_fault(
                span_fault(j, "line"@, "struct LineSpan"@, "u32"@, u32::MAX as u64),
                span_fault(j, "page"@, "struct PageSpan"@, "u32"@, u32::MAX as u64),
            ),
        )
    } else {
        Some(wrong_type(j, "struct SourceRange"@))
    }
}

proof fn lemma_span_fault(j: JsonV, k: Seq<char>, title: Seq<char>, kind: Seq<char>, most: u64)
    ensures
        span_fault(j, k, title, kind, most) is None <==> span_readable(j, k, most),
{
}

/// A value cannot be read as a range where, and only where, a fault is found in it.
pub proof fn law_faults_are_found(j: JsonV)
    ensures
        range_fault(j) is None <==> range_in(j) is Some,
{
    lemma_span_fault(j, "char_span"@, "struct CharSpan"@, "usize"@, usize::MAX as u64);
    lemma_span_fault(j, "line"@, "struct LineSpan"@, "u32"@, u32::MAX as u64);
    lemma_span_fault(j, "page"@, "struct PageSpan"@, "u32"@, u32::MAX as u64);
    assert(bbox_fault(j) is None <==> match given(j, "bbox"@) {
        Some(v) => bbox_in(v) is Some,
        None => true,
    });
}

/// What a member that may be left out gives.
proof fn lemma_member(
    s: Seq<(Seq<char>, JsonV)>,
    k: Seq<char>,
    v: Option<JsonV>,
    other: Seq<char>,
)
    ensures
        table::lookup(with_member(s, k, v), other) == match table::lookup(s, other) {
            Some(x) => Some(x),
            None => if other == k {
                v
            } else {
                None
            },
        },
{
    table::lemma_position(s, other);
    if let Some(j) = v {
        assert(s.push((k, j)).drop_last() =~= s);
    }
}

/// What the members of a list of names and values give.
proof fn lemma_listed(s: Seq<(Seq<char>, JsonV)>, i: int)
    requires
        0 <= i < s.len(),
        table::distinct_keys(s),
    ensures
        table::lookup(s, s[i].0) == Some(s[i].1),
{
    table::lemma_position_at(s, s[i].0, i);
}

/// Two bounds that are written down are read back.
proof fn lemma_bounds_read_back(a: u64, b: u64)
    ensures
        bounds_in(span_value(a, b)) == Some((a, b)),
{
    reveal_strlit("start");
    reveal_strlit("end");
    let s = span_value(a, b)->Object_0;
    assert("start"@.len() != "end"@.len());
    lemma_listed(s, 0);
    lemma_listed(s, 1);
}

/// A box that is written down is read back.
proof fn lemma_bbox_read_back(b: BBoxV)
    ensures
        bbox_in(bbox_value(b)) == Some(b),
{
    reveal_strlit("x0");
    reveal_strlit("y0");
    reveal_strlit("x1");
    reveal_strlit("y1");
    let s = bbox_value(b)->Object_0;
    assert("x0"@[0] == 'x' && "x0"@[1] == '0');
    assert("y0"@[0] == 'y' && "y0"@[1] == '0');
    assert("x1"@[0] == 'x' && "x1"@[1] == '1');
    assert("y1"@[0] == 'y' && "y1"@[1] == '1');
    lemma_listed(s, 0);
    lemma_listed(s, 1);
    lemma_listed(s, 2);
    lemma_listed(s, 3);
}

/// What is written down of a range is what is read back: each measure that is known,
/// and no other.
pub proof fn law_ranges_are_read_back(r: RangeV)
    ensures
        range_in(range_value(r)) == Some(r),
{
    reveal_strlit("char_span");
    reveal_strlit("line");
    reveal_strlit("page");
    reveal_strlit("bbox");
    assert("char_span"@.len() == 9);
    assert("line"@[0] == 'l');
    assert("page"@[0] == 'p');
    assert("bbox"@[0] == 'b');
    let v0 = match r.char_span {
        Some(c) => Some(span_value(c.start as u64, c.end as u64)),
        None => None,
    };
    let v1 = match r.line {
        Some(c) => Some(span_value(c.start as u64, c.end as u64)),
        None => None,
    };
    let v2 = match r.page {
        Some(c) => Some(span_value(c.start as u64, c.end as u64)),
        None => None,
    };
    let v3 = match r.bbox {
        Some(b) => Some(bbox_value(b)),
        None => None,
    };
    let none: Seq<(Seq<char>, JsonV)> = seq![];
    let a = with_member(none, "char_span"@, v0);
    let b = with_member(a, "line"@, v1);
    let c = with_member(b, "page"@, v2);
    let d = with_member(c, "bbox"@, v3);
    assert(range_value(r) == JsonV::Object(d));
    assert forall|k: Seq<char>| #[trigger] table::lookup(d, k) == (if k == "char_span"@ {
        v0
    } else if k == "line"@ {
        v1
    } else if k == "page"@ {
        v2
    } else if k == "bbox"@ {
        v3
    } else {
        None
    }) by {
        lemma_member(none, "char_span"@, v0, k);
        lemma_member(a, "line"@, v1, k);
        lemma_member(b, "page"@, v2, k);
        lemma_member(c, "bbox"@, v3, k);
    }
    if let Some(x) = r.char_span {
        lemma_bounds_read_back(x.start as u64, x.end as u64);
    }
    if let Some(x) = r.line {
        lemma_bounds_read_back(x.start as u64, x.end as u64);
    }
    if let Some(x) = r.page {
        lemma_bounds_read_back(x.start as u64, x.end as u64);
    }
    if let Some(x) = r.bbox {
        lemma_bbox_read_back(x);
    }
}

/// The two bounds that an object gives.
fn read_bounds(j: &Json) -> (r: Option<(u64, u64)>)
    ensures
        r == bounds_in(j@),
{
    let a = match j.get("start") {
        Some(v) => v.as_uint(),
        None => None,
    };
    let b = match j.get("end") {
        Some(v) => v.as_uint(),
        None => None,
    };
    match (a, b) {
        (Some(x), Some(y)) => Some((x, y)),
        _ => None,
    }
}

/// The member `k`, where it is there and not null.
fn read_given<'a>(j: &'a Json, k: &str) -> (r: Option<&'a Json>)
    ensures
        match r {
            Some(v) => given(j@, k@) == Some(v@),
            None => given(j@, k@) is None,
        },
{
    match j.get(k) {
        Some(Json::Null) => None,
        v => v,
    }
}

/// The bounds that the member `k` gives, where they can be read.
fn read_span(j: &Json, k: &str, most: u64) -> (r: Result<Option<(u64, u64)>, ()>)
    ensures
        match r {
            Ok(s) => span_readable(j@, k@, most) && s == span_at(j@, k@),
            Err(_) => !span_readable(j@, k@, most),
        },
{
    match read_given(j, k) {
        Some(v) => match read_bounds(v) {
            Some((a, b)) => if a <= most && b <= most {
                Ok(Some((a, b)))
            } else {
                Err(())
            },
            None => Err(()),
        },
        None => Ok(None),
    }
}

/// A number as decimal text with a point.
pub fn read_decimal(j: Option<&Json>) -> (r: Option<String>)
    ensures
        seqs::opt_view(r) == decimal_in(
            match j {
                Some(v) => Some(v@),
                None => None,
            },
        ),
{
    match j {
        Some(Json::Decimal(t)) => Some(t.clone()),
        Some(Json::Uint(n)) => {
            let mut s = text::to_decimal(*n);
            s.push('.');
            s.push('0');
            assert(s@ =~= text::decimal(*n as nat) + seq!['.', '0']);
            Some(s)
        },
        Some(Json::Neg(n)) => {
            if *n < 0 {
                let mut s = String::new();
                s.push('-');
                let m: u64 = (-(*n as i128)) as u64;
                let d = text::to_decimal(m);
                s = text::concat2(s.as_str(), d.as_str());
                s.push('.');
                s.push('0');
                assert(s@ =~= seq!['-'] + text::decimal((-(*n as int)) as nat) + seq!['.', '0']);
                Some(s)
            } else {
                let mut s = text::to_decimal(*n as u64);
                s.push('.');
                s.push('0');
                assert(s@ =~= text::decimal(*n as nat) + seq!['.', '0']);
                Some(s)
            }
        },
        _ => None,
    }
}

/// The box that an object gives.
fn read_bbox(j: &Json) -> (r: Option<BBox>)
    ensures
        seqs::opt_view(r) == bbox_in(j@),
{
    let x0 = read_decimal(j.get("x0"));
    let y0 = read_decimal(j.get("y0"));
    let x1 = read_decimal(j.get("x1"));
    let y1 = read_decimal(j.get("y1"));
    match (x0, y0, x1, y1) {
        (Some(x0), Some(y0), Some(x1), Some(y1)) => Some(BBox { x0, y0, x1, y1 }),
        _ => None,
    }
}

/// How a value is called that is of the wrong type.
fn call(v: &Json) -> (r: String)
    ensures
        r@ == called(v@),
{
    match v {
        Json::Null => "null".to_owned(),
        Json::Bool(b) => if *b {
            "boolean `true`".to_owned()
        } else {
            "boolean `false`".to_owned()
        },
        Json::Uint(n) => {
            let mut s = text::concat2("integer `", text::to_decimal(*n).as_str());
            s.append("`");
            s
        },
        Json::Neg(n) => {
            let mut s = "integer `".to_owned();
            let t = if *n < 0 {
                text::concat2("-", text::to_decimal((-(*n as i128)) as u64).as_str())
            } else {
                text::to_decimal(*n as u64)
            };
            s.append(t.as_str());
            s.append("`");
            s
        },
        Json::Decimal(t) => {
            let mut s = text::concat2("floating point `", t.as_str());
            s.append("`");
            s
        },
        Json::Text(t) => text::concat2("string ", text::quote(t.as_str()).as_str()),
        Json::Array(_) => "sequence".to_owned(),
        Json::Object(_) => "map".to_owned(),
    }
}

/// What is said where a value is not what was expected.
fn refuse(what: &str, v: &Json, expected: &str) -> (r: String)
    ensures
        r@ == what@ + called(v@) + ", expected "@ + expected@,
{
    let mut s = text::concat2(what, call(v).as_str());
    s.append(", expected ");
    s.append(expected);
    s
}

/// What is said of the member `k` of `j` where it is missing.
fn find_missing(j: &Json, k: &str) -> (r: Option<String>)
    ensures
        seqs::opt_view(r) == missing_fault(j@, k@),
{
    if j.get(k).is_some() {
        return None;
    }
    let mut s = text::concat2("missing field `", k);
    s.append("`");
    Some(s)
}

/// What is wrong with a bound, where it is given.
fn find_bound_fault(v: &Json, k: &str, kind: &str, most: u64) -> (r: Option<String>)
    ensures
        seqs::opt_view(r) == bound_fault(json::field(v@, k@), kind@, most),
{
    match v.get(k) {
        None => None,
        Some(x) => match x {
            Json::Uint(n) => if *n <= most {
                None
            } else {
                Some(refuse("invalid value: ", x, kind))
            },
            Json::Neg(_) => Some(refuse("invalid value: ", x, kind)),
            _ => Some(refuse("invalid type: ", x, kind)),
        },
    }
}

/// What is wrong with the span in the member `k`, where it is given.
fn find_span_fault(j: &Json, k: &str, title: &str, kind: &str, most: u64) -> (r: Option<String>)
    ensures
        seqs::opt_view(r) == span_fault(j@, k@, title@, kind@, most),
{
    let v = match read_given(j, k) {
        Some(v) => v,
        None => {
            return None;
        },
    };
    if v.as_object().is_none() {
        return Some(refuse("invalid type: ", v, title));
    }
    if let Some(e) = find_bound_fault(v, "end", kind, most) {
        return Some(e);
    }
    if let Some(e) = find_bound_fault(v, "start", kind, most) {
        return Some(e);
    }
    if let Some(e) = find_missing(v, "start") {
        return Some(e);
    }
    find_missing(v, "end")
}

/// What is wrong with the member `k` of a box, where it is given.
fn find_side_fault(v: &Json, k: &str) -> (r: Option<String>)
    ensures
        seqs::opt_view(r) == side_fault(v@, k@),
{
    match v.get(k) {
        None => None,
        Some(x) => if read_decimal(Some(x)).is_some() {
            None
        } else {
            Some(refuse("invalid type: ", x, "f64"))
        },
    }
}

/// What is wrong with a box, where it is given.
fn find_bbox_fault(j: &Json) -> (r: Option<String>)
    ensures
        seqs::opt_view(r) == bbox_fault(j@),
{
    let v = match read_given(j, "bbox") {
        Some(v) => v,
        None => {
            return None;
        },
    };
    if v.as_object().is_none() {
        return Some(refuse("invalid type: ", v, "struct BBox"));
    }
    if let Some(e) = find_side_fault(v, "x0") {
        return Some(e);
    }
    if let Some(e) = find_side_fault(v, "x1") {
        return Some(e);
    }
    if let Some(e) = find_side_fault(v, "y0") {
        return Some(e);
    }
    if let Some(e) = find_side_fault(v, "y1") {
        return Some(e);
    }
    if let Some(e) = find_missing(v, "x0") {
        return Some(e);
    }
    if let Some(e) = find_missing(v, "y0") {
        return Some(e);
    }
    if let Some(e) = find_missing(v, "x1") {
        return Some(e);
    }
    find_missing(v, "y1")
}

/// Why a value cannot be read as a range; nothing where it can be.
pub fn find_fault(j: &Json) -> (r: Option<String>)
    ensures
        seqs::opt_view(r) == range_fault(j@),
        r is None <==> range_in(j@) is Some,
{
    proof {
        law_faults_are_found(j@);
    }
    if j.as_object().is_none() {
        return Some(refuse("invalid type: ", j, "struct SourceRange"));
    }
    if let Some(e) = find_bbox_fault(j) {
        return Some(e);
    }
    if let Some(e) = find_span_fault(
        j,
        "char_span",
        "struct CharSpan",
        "usize",
        usize::MAX as u64,
    ) {
        return Some(e);
    }
    if let Some(e) = find_span_fault(j, "line", "struct LineSpan", "u32", u32::MAX as u64) {
        return Some(e);
    }
    find_span_fault(j, "page", "struct PageSpan", "u32", u32::MAX as u64)
}

impl SourceRange {
    /// The range that the value `j` gives, where it can be read as one.
    pub fn from_value(j: &Json) -> (r: Option<SourceRange>)
        ensures
            seqs::opt_view(r) == range_in(j@),
    {
        if j.as_object().is_none() {
            return None;
        }
        let char_span = match read_span(j, "char_span", usize::MAX as u64) {
            Ok(Some((a, b))) => Some(CharSpan { start: a as usize, end: b as usize }),
            Ok(None) => None,
            Err(_) => {
                return None;
            },
        };
        let line = match read_span(j, "line", u32::MAX as u64) {
            Ok(Some((a, b))) => Some(LineSpan { start: a as u32, end: b as u32 }),
            Ok(None) => None,
            Err(_) => {
                return None;
            },
        };
        let page = match read_span(j, "page", u32::MAX as u64) {
            Ok(Some((a, b))) => Some(PageSpan { start: a as u32, end: b as u32 }),
            Ok(None) => None,
            Err(_) => {
                return None;
            },
        };
        let bbox = match read_given(j, "bbox") {
            Some(v) => {
                let b = read_bbox(v);
                if b.is_none() {
                    return None;
                }
                b
            },
            None => None,
        };
        Some(SourceRange { char_span, line, page, bbox })
    }
}

} // verus!
