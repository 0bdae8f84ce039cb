//! JSON values.

use vstd::prelude::*;

use crate::pattern::{ANY_FENCE, JSON_FENCE};
use crate::table::Dup;
use crate::{number, pattern, seqs, table, text};

verus! {

/// A JSON value. An object keeps its members in order. A number is an integer
/// where the text gives one that fits, and otherwise the decimal text that
/// denotes it.
#[derive(Debug, PartialEq)]
pub enum Json {
    Null,
    Bool(bool),
    Uint(u64),
    Neg(i64),
    Decimal(String),
    Text(String),
    Array(Vec<Json>),
    Object(Vec<(String, Json)>),
}

/// What a [`Json`] stands for.
pub enum JsonV {
    Null,
    Bool(bool),
    Uint(u64),
    Neg(i64),
    Decimal(Seq<char>),
    Text(Seq<char>),
    Array(Seq<JsonV>),
    Object(Seq<(Seq<char>, JsonV)>),
}

/// What `j` stands for.
pub open spec fn json_view(j: Json) -> JsonV
    decreases j,
{
    match j {
        Json::Null => JsonV::Null,
        Json::Bool(b) => JsonV::Bool(b),
        Json::Uint(n) => JsonV::Uint(n),
        Json::Neg(n) => JsonV::Neg(n),
        Json::Decimal(s) => JsonV::Decimal(s@),
        Json::Text(s) => JsonV::Text(s@),
        Json::Array(a) => JsonV::Array(
            Seq::new(
                a@.len(),
                |i: int|
                    if 0 <= i < a@.len() {
                        json_view(a@[i])
                    } else {
                        JsonV::Null
                    },
            ),
        ),
        Json::Object(o) => JsonV::Object(
            Seq::new(
                o@.len(),
                |i: int|
                    if 0 <= i < o@.len() {
                        (o@[i].0@, json_view(o@[i].1))
                    } else {
                        (Seq::empty(), JsonV::Null)
                    },
            ),
        ),
    }
}

impl View for Json {
    type V = JsonV;

    open spec fn view(&self) -> JsonV {
        json_view(*self)
    }
}

/// The members of an object, as names and what they stand for.
pub open spec fn members(o: Seq<(String, Json)>) -> Seq<(Seq<char>, JsonV)> {
    Seq::new(o.len(), |i: int| (o[i].0@, o[i].1@))
}

/// An array stands for the sequence of what its items stand for.
pub broadcast proof fn lemma_array_view(a: Vec<Json>)
    ensures
        #[trigger] json_view(Json::Array(a)) == JsonV::Array(seqs::views(a@)),
{
    assert(json_view(Json::Array(a))->Array_0 =~= seqs::views(a@));
}

/// An object stands for the sequence of what its members stand for.
pub broadcast proof fn lemma_object_view(o: Vec<(String, Json)>)
    ensures
        #[trigger] json_view(Json::Object(o)) == JsonV::Object(members(o@)),
{
    assert(json_view(Json::Object(o))->Object_0 =~= members(o@));
}

pub broadcast group group_json {
    lemma_array_view,
    lemma_object_view,
}

impl Dup for Json {
    fn dup(&self) -> (r: Json) {
        self.copied()
    }
}

impl Json {
    /// A value that stands for the same.
    pub fn copied(&self) -> (r: Json)
        ensures
            r@ == self@,
        decreases self,
    {
        broadcast use group_json;

        match self {
            Json::Null => Json::Null,
            Json::Bool(b) => Json::Bool(*b),
            Json::Uint(n) => Json::Uint(*n),
            Json::Neg(n) => Json::Neg(*n),
            Json::Decimal(s) => Json::Decimal(s.clone()),
            Json::Text(s) => Json::Text(s.clone()),
            Json::Array(a) => {
                let mut out: Vec<Json> = Vec::new();
                let mut i: usize = 0;
                while i < a.len()
                    invariant
                        self == Json::Array(*a),
                        i <= a@.len(),
                        out@.len() == i,
                        forall|j: int| 0 <= j < i ==> (#[trigger] out@[j])@ == a@[j]@,
                    decreases a.len() - i,
                {
                    assert(decreases_to!(self->Array_0 => a@[i as int]));
                    let x = a[i].copied();
                    out.push(x);
                    i += 1;
                }
                assert(seqs::views(out@) =~= seqs::views(a@));
                Json::Array(out)
            },
            Json::Object(o) => {
                let mut out: Vec<(String, Json)> = Vec::new();
                let mut i: usize = 0;
                while i < o.len()
                    invariant
                        self == Json::Object(*o),
                        i <= o@.len(),
                        out@.len() == i,
                        forall|j: int|
                            0 <= j < i ==> (#[trigger] out@[j]).0@ == o@[j].0@ && out@[j].1@
                                == o@[j].1@,
                    decreases o.len() - i,
                {
                    let k = o[i].0.clone();
                    assert(decreases_to!(self->Object_0 => o@[i as int]));
                    let x = o[i].1.copied();
                    out.push((k, x));
                    i += 1;
                }
                assert(members(out@) =~= members(o@));
                Json::Object(out)
            },
        }
    }

    /// Whether the two are equal: see [`alike`].
    pub fn same_as(&self, other: &Json) -> (r: bool)
        ensures
            r == alike(self@, other@),
        decreases self,
    {
        broadcast use group_json;

        match (self, other) {
            (Json::Null, Json::Null) => true,
            (Json::Bool(a), Json::Bool(b)) => *a == *b,
            (Json::Uint(a), Json::Uint(b)) => *a == *b,
            (Json::Neg(a), Json::Neg(b)) => *a == *b,
            (Json::Decimal(a), Json::Decimal(b)) => number::is_same_number(
                a.as_str(),
                b.as_str(),
            ),
            (Json::Text(a), Json::Text(b)) => text::same(a.as_str(), b.as_str()),
            (Json::Array(a), Json::Array(b)) => {
                let ghost x = seqs::views(a@);
                let ghost y = seqs::views(b@);
                if a.len() != b.len() {
                    assert(x.len() != y.len());
                    return false;
                }
                let mut i: usize = 0;
                while i < a.len()
                    invariant
                        self == Json::Array(*a),
                        x == seqs::views(a@),
                        y == seqs::views(b@),
                        self@ == JsonV::Array(x),
                        other@ == JsonV::Array(y),
                        a@.len() == b@.len(),
                        i <= a@.len(),
                        forall|j: int| 0 <= j < i ==> alike(#[trigger] x[j], y[j]),
                    decreases a.len() - i,
                {
                    assert(decreases_to!(self->Array_0 => a@[i as int]));
                    let equal = a[i].same_as(&b[i]);
                    assert(equal == alike(x[i as int], y[i as int]));
                    if !equal {
                        return false;
                    }
                    i += 1;
                }
                true
            },
            (Json::Object(a), Json::Object(b)) => {
                let ghost x = members(a@);
                let ghost y = members(b@);
                proof {
                    lemma_members_alike(x, y);
                }
                let mut i: usize = 0;
                while i < a.len()
                    invariant
                        self == Json::Object(*a),
                        x == members(a@),
                        y == members(b@),
                        self@ == JsonV::Object(x),
                        other@ == JsonV::Object(y),
                        alike(self@, other@) ==> forall|j: int|
                            0 <= j < x.len() ==> #[trigger] member_alike(x, y, j),
                        i <= a@.len(),
                        forall|j: int| 0 <= j < i ==> #[trigger] member_alike(x, y, j),
                    decreases a.len() - i,
                {
                    assert(decreases_to!(self->Object_0 => a@[i as int]));
                    assert(x[i as int] == (a@[i as int].0@, a@[i as int].1@));
                    if stands_first(a, i) {
                        match find_member(b, a[i].0.as_str()) {
                            None => {
                                assert(!member_alike(x, y, i as int));
                                return false;
                            },
                            Some(v) => {
                                if !a[i].1.same_as(v) {
                                    assert(!member_alike(x, y, i as int));
                                    return false;
                                }
                            },
                        }
                    }
                    i += 1;
                }
                let mut k: usize = 0;
                while k < b.len()
                    invariant
                        x == members(a@),
                        y == members(b@),
                        self@ == JsonV::Object(x),
                        other@ == JsonV::Object(y),
                        k <= b@.len(),
                        forall|j: int| 0 <= j < k ==> table::has_key(x, (#[trigger] y[j]).0),
                    decreases b.len() - k,
                {
                    assert(y[k as int].0 == b@[k as int].0@);
                    if find_member(a, b[k].0.as_str()).is_none() {
                        return false;
                    }
                    k += 1;
                }
                true
            },
            _ => false,
        }
    }
}

/// The two values are equal. The order in which objects have their members makes no
/// difference, nor how a decimal is written.
pub open spec fn alike(a: JsonV, b: JsonV) -> bool
    decreases a,
{
    match (a, b) {
        (JsonV::Decimal(x), JsonV::Decimal(y)) => number::same_number(x, y),
        (JsonV::Array(x), JsonV::Array(y)) => x.len() == y.len() && forall|i: int|
            0 <= i < x.len() ==> alike(#[trigger] x[i], y[i]),
        (JsonV::Object(x), JsonV::Object(y)) => (forall|i: int|
            0 <= i < x.len() && table::position(x, (#[trigger] x[i]).0) == Some(i)
                ==> table::has_key(y, x[i].0) && alike(x[i].1, table::lookup(y, x[i].0)->0)) && (
        forall|j: int| 0 <= j < y.len() ==> table::has_key(x, (#[trigger] y[j]).0)),
        _ => a == b,
    }
}

/// Where the member at `i` of `x` is the one that counts under its name, `y` has an
/// equal one.
spec fn member_alike(x: Seq<(Seq<char>, JsonV)>, y: Seq<(Seq<char>, JsonV)>, i: int) -> bool {
    table::position(x, x[i].0) == Some(i) ==> table::has_key(y, x[i].0) && alike(
        x[i].1,
        table::lookup(y, x[i].0)->0,
    )
}

proof fn lemma_members_alike(x: Seq<(Seq<char>, JsonV)>, y: Seq<(Seq<char>, JsonV)>)
    ensures
        alike(JsonV::Object(x), JsonV::Object(y)) == ((forall|i: int|
            0 <= i < x.len() ==> #[trigger] member_alike(x, y, i)) && (forall|j: int|
            0 <= j < y.len() ==> table::has_key(x, (#[trigger] y[j]).0))),
{
    if alike(JsonV::Object(x), JsonV::Object(y)) {
        assert forall|i: int| 0 <= i < x.len() implies #[trigger] member_alike(x, y, i) by {
            assert(x[i] == x[i]);
        }
    } else if forall|i: int| 0 <= i < x.len() ==> #[trigger] member_alike(x, y, i) {
        assert forall|i: int|
            0 <= i < x.len() && table::position(x, (#[trigger] x[i]).0) == Some(
                i,
            ) implies table::has_key(y, x[i].0) && alike(x[i].1, table::lookup(y, x[i].0)->0) by {
            assert(member_alike(x, y, i));
        }
    }
}

/// Whether no member of `o` before `i` has the name of the one at `i`.
fn stands_first(o: &Vec<(String, Json)>, i: usize) -> (r: bool)
    requires
        i < o@.len(),
    ensures
        r == (table::position(members(o@), o@[i as int].0@) == Some(i as int)),
{
    let ghost ms = members(o@);
    let mut j: usize = 0;
    while j < i
        invariant
            j <= i < o@.len(),
            ms == members(o@),
            forall|k: int| 0 <= k < j ==> (#[trigger] ms[k]).0 != o@[i as int].0@,
        decreases i - j,
    {
        assert(ms[j as int].0 == o@[j as int].0@);
        if text::same(o[j].0.as_str(), o[i].0.as_str()) {
            proof {
                table::lemma_position(ms, o@[i as int].0@);
            }
            return false;
        }
        j += 1;
    }
    assert(ms[i as int].0 == o@[i as int].0@);
    proof {
        table::lemma_position_at(ms, o@[i as int].0@, i as int);
    }
    true
}

/// A value is equal to itself.
pub proof fn lemma_alike_itself(a: JsonV)
    ensures
        alike(a, a),
    decreases a,
{
    match a {
        JsonV::Array(x) => {
            assert forall|i: int| 0 <= i < x.len() implies alike(#[trigger] x[i], x[i]) by {
                lemma_alike_itself(x[i]);
            }
        },
        JsonV::Object(x) => {
            assert forall|i: int| 0 <= i < x.len() implies #[trigger] member_alike(x, x, i) by {
                lemma_alike_itself(x[i].1);
                table::lemma_position(x, x[i].0);
            }
            lemma_members_alike(x, x);
            assert forall|j: int| 0 <= j < x.len() implies table::has_key(x, (#[trigger] x[j]).0) by {
                table::lemma_position(x, x[j].0);
            }
        },
        _ => {},
    }
}

/// A value is equal to what an equal value is equal to.
pub proof fn lemma_alike_through(a: JsonV, b: JsonV, c: JsonV)
    requires
        alike(a, b),
        alike(b, c),
    ensures
        alike(a, c),
    decreases a,
{
    match (a, b, c) {
        (JsonV::Array(x), JsonV::Array(y), JsonV::Array(z)) => {
            assert forall|i: int| 0 <= i < x.len() implies alike(#[trigger] x[i], z[i]) by {
                assert(alike(x[i], y[i]) && alike(y[i], z[i]));
                lemma_alike_through(x[i], y[i], z[i]);
            }
        },
        (JsonV::Object(x), JsonV::Object(y), JsonV::Object(z)) => {
            lemma_members_alike(x, y);
            lemma_members_alike(y, z);
            lemma_members_alike(x, z);
            assert forall|i: int| 0 <= i < x.len() implies #[trigger] member_alike(x, z, i) by {
                let k = x[i].0;
                if table::position(x, k) == Some(i) {
                    assert(member_alike(x, y, i));
                    table::lemma_position(y, k);
                    let j = table::position(y, k)->0;
                    assert(member_alike(y, z, j));
                    lemma_alike_through(x[i].1, y[j].1, table::lookup(z, k)->0);
                }
            }
            assert forall|j: int| 0 <= j < z.len() implies table::has_key(x, (#[trigger] z[j]).0) by {
                let k = z[j].0;
                assert(table::has_key(y, k));
                table::lemma_position(y, k);
                let i = table::position(y, k)->0;
                assert(table::has_key(x, y[i].0));
            }
        },
        _ => {},
    }
}

/// The member `k` of an object.
pub open spec fn field(j: JsonV, k: Seq<char>) -> Option<JsonV> {
    match j {
        JsonV::Object(o) => table::lookup(o, k),
        _ => None,
    }
}

/// A member stands under the name that it is given, where no earlier one has that name.
pub proof fn lemma_field_at(o: Seq<(Seq<char>, JsonV)>, i: int)
    requires
        0 <= i < o.len(),
        forall|j: int| 0 <= j < i ==> (#[trigger] o[j]).0 != o[i].0,
    ensures
        field(JsonV::Object(o), o[i].0) == Some(o[i].1),
{
    table::lemma_position_at(o, o[i].0, i);
}

/// The text that `j` is, if it is one.
pub open spec fn text_in(j: Option<JsonV>) -> Option<Seq<char>> {
    match j {
        Some(JsonV::Text(s)) => Some(s),
        _ => None,
    }
}

/// The members of the object that `j` is, if it is one.
pub open spec fn object_in(j: Option<JsonV>) -> Option<Seq<(Seq<char>, JsonV)>> {
    match j {
        Some(JsonV::Object(o)) => Some(o),
        _ => None,
    }
}

/// The items of the array that `j` is, if it is one.
pub open spec fn array_in(j: Option<JsonV>) -> Option<Seq<JsonV>> {
    match j {
        Some(JsonV::Array(a)) => Some(a),
        _ => None,
    }
}

/// The natural number that `j` is, if it is one that fits.
pub open spec fn uint_in(j: Option<JsonV>) -> Option<u64> {
    match j {
        Some(JsonV::Uint(n)) => Some(n),
        _ => None,
    }
}

/// The members of `o`, first one first: the value under the name `k`.
pub fn find_member<'a>(o: &'a Vec<(String, Json)>, k: &str) -> (r: Option<&'a Json>)
    ensures
        match r {
            Some(v) => table::lookup(members(o@), k@) == Some(v@),
            None => table::lookup(members(o@), k@) is None,
        },
{
    let mut i: usize = 0;
    while i < o.len()
        invariant
            i <= o@.len(),
            forall|j: int| 0 <= j < i ==> (#[trigger] members(o@)[j]).0 != k@,
        decreases o.len() - i,
    {
        if text::same(o[i].0.as_str(), k) {
            assert(members(o@)[i as int].0 == k@);
            proof {
                table::lemma_position_at(members(o@), k@, i as int);
            }
            return Some(&o[i].1);
        }
        i += 1;
    }
    proof {
        table::lemma_position(members(o@), k@);
    }
    None
}

impl Json {
    /// The member `k`, where this is an object that has it.
    pub fn get(&self, k: &str) -> (r: Option<&Json>)
        ensures
            match r {
                Some(v) => field(self@, k@) == Some(v@),
                None => field(self@, k@) is None,
            },
    {
        broadcast use group_json;

        match self {
            Json::Object(o) => find_member(o, k),
            _ => None,
        }
    }

    /// The text, where this is one.
    pub fn as_text(&self) -> (r: Option<&String>)
        ensures
            match r {
                Some(s) => self@ == JsonV::Text(s@),
                None => !(self@ is Text),
            },
    {
        match self {
            Json::Text(s) => Some(s),
            _ => None,
        }
    }

    /// The items, where this is an array.
    pub fn as_array(&self) -> (r: Option<&Vec<Json>>)
        ensures
            match r {
                Some(a) => self@ == JsonV::Array(seqs::views(a@)),
                None => !(self@ is Array),
            },
    {
        broadcast use group_json;

        match self {
            Json::Array(a) => Some(a),
            _ => None,
        }
    }

    /// The members, where this is an object.
    pub fn as_object(&self) -> (r: Option<&Vec<(String, Json)>>)
        ensures
            match r {
                Some(o) => self@ == JsonV::Object(members(o@)),
                None => !(self@ is Object),
            },
    {
        broadcast use group_json;

        match self {
            Json::Object(o) => Some(o),
            _ => None,
        }
    }

    /// The natural number, where this is one that fits.
    pub fn as_uint(&self) -> (r: Option<u64>)
        ensures
            r == uint_in(Some(self@)),
    {
        match self {
            Json::Uint(n) => Some(*n),
            _ => None,
        }
    }

    /// The text of the member `k`.
    pub fn text_at(&self, k: &str) -> (r: Option<String>)
        ensures
            seqs::opt_view(r) == text_in(field(self@, k@)),
    {
        match self.get(k) {
            Some(v) => match v.as_text() {
                Some(s) => Some(s.clone()),
                None => None,
            },
            None => None,
        }
    }

    /// The items of the member `k`.
    pub fn array_at(&self, k: &str) -> (r: Option<&Vec<Json>>)
        ensures
            match r {
                Some(a) => array_in(field(self@, k@)) == Some(seqs::views(a@)),
                None => array_in(field(self@, k@)) is None,
            },
    {
        match self.get(k) {
            Some(v) => v.as_array(),
            None => None,
        }
    }

    /// The members of the member `k`.
    pub fn object_at(&self, k: &str) -> (r: Option<&Vec<(String, Json)>>)
        ensures
            match r {
                Some(o) => object_in(field(self@, k@)) == Some(members(o@)),
                None => object_in(field(self@, k@)) is None,
            },
    {
        match self.get(k) {
            Some(v) => v.as_object(),
            None => None,
        }
    }
}

/// The text `s` as a JSON value.
pub fn string(s: &str) -> (r: Json)
    ensures
        r@ == JsonV::Text(s@),
{
    Json::Text(s.to_owned())
}

/// The text `s` as a JSON value, or null.
pub open spec fn text_or_null(s: Option<Seq<char>>) -> JsonV {
    match s {
        Some(t) => JsonV::Text(t),
        None => JsonV::Null,
    }
}

/// The text `s` as a JSON value, or null.
pub fn text_or_null_of(s: &Option<String>) -> (r: Json)
    ensures
        r@ == text_or_null(seqs::opt_view(*s)),
{
    match s {
        Some(t) => Json::Text(t.clone()),
        None => Json::Null,
    }
}

/// The texts `s` as an array of JSON values.
pub open spec fn texts(s: Seq<Seq<char>>) -> JsonV {
    JsonV::Array(Seq::new(s.len(), |i: int| JsonV::Text(s[i])))
}

/// The texts `s` as an array of JSON values.
pub fn texts_of(s: &Vec<String>) -> (r: Json)
    ensures
        r@ == texts(seqs::views(s@)),
{
    broadcast use group_json;

    let mut out: Vec<Json> = Vec::new();
    let mut i: usize = 0;
    while i < s.len()
        invariant
            i <= s@.len(),
            out@.len() == i,
            forall|j: int| 0 <= j < i ==> (#[trigger] out@[j])@ == JsonV::Text(s@[j]@),
        decreases s.len() - i,
    {
        out.push(Json::Text(s[i].clone()));
        i += 1;
    }
    assert(seqs::views(out@) =~= texts(seqs::views(s@))->Array_0);
    Json::Array(out)
}

/// Builds an object member by member.
pub struct ObjectBuilder {
    members: Vec<(String, Json)>,
}

impl View for ObjectBuilder {
    type V = Seq<(Seq<char>, JsonV)>;

    closed spec fn view(&self) -> Seq<(Seq<char>, JsonV)> {
        members(self.members@)
    }
}

impl ObjectBuilder {
    /// No members yet.
    pub fn new() -> (r: ObjectBuilder)
        ensures
            r@ == Seq::<(Seq<char>, JsonV)>::empty(),
    {
        let r = ObjectBuilder { members: Vec::new() };
        assert(r@ =~= Seq::<(Seq<char>, JsonV)>::empty());
        r
    }

    /// One more member at the end.
    pub fn with(self, k: &str, v: Json) -> (r: ObjectBuilder)
        ensures
            r@ == self@.push((k@, v@)),
    {
        let mut b = self;
        b.members.push((k.to_owned(), v));
        assert(b@ =~= self@.push((k@, v@)));
        b
    }

    /// One more member at the end.
    pub fn add(&mut self, k: &str, v: Json)
        ensures
            final(self)@ == old(self)@.push((k@, v@)),
    {
        self.members.push((k.to_owned(), v));
        assert(self@ =~= old(self)@.push((k@, v@)));
    }

    /// The object with these members.
    pub fn done(self) -> (r: Json)
        ensures
            r@ == JsonV::Object(self@),
    {
        broadcast use group_json;

        Json::Object(self.members)
    }
}

/// `serde_json`'s own value.
#[verifier::external_type_specification]
#[verifier::external_body]
pub struct ExValue(serde_json::Value);

/// What `serde_json::from_str` reads from a text, or what it says where the text is
/// not JSON.
pub uninterp spec fn json_read(text: Seq<char>) -> Result<JsonV, Seq<char>>;

/// What is read from a text, or nothing where the text is not JSON.
pub open spec fn json_parsed(text: Seq<char>) -> Option<JsonV> {
    match json_read(text) {
        Ok(v) => Some(v),
        Err(_) => None,
    }
}

/// What `serde_json::to_string` writes for a value.
pub uninterp spec fn json_text(j: JsonV) -> Seq<char>;

/// Turns a value of `serde_json` into a [`Json`], variant by variant. Nothing is
/// claimed of the result here; [`read_json`] says what comes out of a text.
#[verifier::external_body]
fn from_value(v: serde_json::Value) -> Json {
    match v {
        serde_json::Value::Null => Json::Null,
        serde_json::Value::Bool(b) => Json::Bool(b),
        serde_json::Value::Number(n) => match (n.as_u64(), n.as_i64()) {
            (Some(u), _) => Json::Uint(u),
            (_, Some(i)) => Json::Neg(i),
            _ => Json::Decimal(n.to_string()),
        },
        serde_json::Value::String(s) => Json::Text(s),
        serde_json::Value::Array(a) => Json::Array(a.into_iter().map(from_value).collect()),
        serde_json::Value::Object(m) =>
            Json::Object(m.into_iter().map(|(k, v)| (k, from_value(v))).collect()),
    }
}

/// Turns a [`Json`] into a value of `serde_json`, variant by variant; a decimal
/// text that denotes no finite number becomes null. Nothing is claimed of the
/// result here; [`render_json`] says what text is written.
#[verifier::external_body]
fn to_value(j: &Json) -> serde_json::Value {
    match j {
        Json::Null => serde_json::Value::Null,
        Json::Bool(b) => serde_json::Value::from(*b),
        Json::Uint(n) => serde_json::Value::from(*n),
        Json::Neg(n) => serde_json::Value::from(*n),
        Json::Decimal(s) => serde_json::from_str(s).unwrap_or_default(),
        Json::Text(s) => serde_json::Value::from(s.clone()),
        Json::Array(a) => serde_json::Value::Array(a.iter().map(to_value).collect()),
        Json::Object(o) =>
            serde_json::Value::Object(o.iter().map(|(k, v)| (k.clone(), to_value(v))).collect()),
    }
}

/// `serde_json::from_str` into a `serde_json::Value`: the value that `text`
/// denotes, or what is wrong with it where `text` is not a JSON document. The result
/// depends on the text alone.
#[verifier::external_body]
pub(crate) fn read_json(text: &str) -> (r: Result<Json, String>)
    ensures
        match r {
            Ok(j) => json_read(text@) == Ok::<JsonV, Seq<char>>(j@),
            Err(e) => json_read(text@) == Err::<JsonV, Seq<char>>(e@),
        },
{
    serde_json::from_str::<serde_json::Value>(text).map(from_value).map_err(|e| e.to_string())
}

/// The value that `text` denotes, or nothing where `text` is not JSON.
pub fn parse_json(text: &str) -> (r: Option<Json>)
    ensures
        seqs::opt_view(r) == json_parsed(text@),
{
    match read_json(text) {
        Ok(j) => Some(j),
        Err(_) => None,
    }
}

/// `serde_json::Value::to_string`: the compact JSON text of `j`, which depends
/// on the value alone.
#[verifier::external_body]
pub(crate) fn render_json(j: &Json) -> (r: String)
    ensures
        r@ == json_text(j@),
{
    to_value(j).to_string()
}

/// A value as text: a text as it is, anything else as JSON.
pub open spec fn as_plain_text(j: JsonV) -> Seq<char> {
    match j {
        JsonV::Text(s) => s,
        _ => json_text(j),
    }
}

/// A value as text: a text as it is, anything else as JSON.
pub fn value_to_string(j: &Json) -> (r: String)
    ensures
        r@ == as_plain_text(j@),
{
    match j {
        Json::Text(s) => s.clone(),
        _ => render_json(j),
    }
}

/// What a fence holds, read as JSON.
pub open spec fn fenced_value(content: Option<Seq<char>>) -> Option<JsonV> {
    match content {
        Some(c) => json_parsed(text::trimmed(c)),
        None => None,
    }
}

/// Of an answer a block that is marked as holding a value comes first, then any other block,
/// then the answer itself; what cannot be read is passed over.
pub proof fn law_marked_blocks_come_first(
    tagged: Option<Seq<char>>,
    any: Option<Seq<char>>,
    t: Seq<char>,
)
    ensures
        tagged matches Some(c) ==> json_parsed(text::trimmed(c)) is Some ==> response_value(
            tagged,
            any,
            t,
        ) == json_parsed(text::trimmed(c)),
        any matches Some(c) ==> tagged is None ==> json_parsed(text::trimmed(c)) is Some
            ==> response_value(tagged, any, t) == json_parsed(text::trimmed(c)),
        tagged is None && any is None ==> response_value(tagged, any, t) == json_parsed(
            text::trimmed(t),
        ),
        tagged matches Some(c) ==> json_parsed(text::trimmed(c)) is None ==> response_value(
            tagged,
            any,
            t,
        ) == response_value(None, any, t),
        any matches Some(c) ==> json_parsed(text::trimmed(c)) is None ==> response_value(
            tagged,
            any,
            t,
        ) == response_value(tagged, None, t),
{
}

/// The JSON value in a response: that of the fence tagged as JSON, else that of
/// any fence, else the whole text read as JSON.
pub open spec fn response_value(
    tagged: Option<Seq<char>>,
    any: Option<Seq<char>>,
    text: Seq<char>,
) -> Option<JsonV> {
    if fenced_value(tagged) is Some {
        fenced_value(tagged)
    } else if fenced_value(any) is Some {
        fenced_value(any)
    } else {
        json_parsed(text::trimmed(text))
    }
}

/// Pull a JSON value out of a response, given what its first fence tagged as JSON
/// and its first fence of any kind hold.
pub fn choose_json(tagged: &Option<String>, any: &Option<String>, text: &str) -> (r: Option<Json>)
    ensures
        seqs::opt_view(r) == response_value(seqs::opt_view(*tagged), seqs::opt_view(*any), text@),
{
    if let Some(c) = tagged {
        let v = parse_json(text::trim(c.as_str()).as_str());
        if v.is_some() {
            return v;
        }
    }
    if let Some(c) = any {
        let v = parse_json(text::trim(c.as_str()).as_str());
        if v.is_some() {
            return v;
        }
    }
    parse_json(text::trim(text).as_str())
}

/// The JSON value in the response `text`, with its fences found by pattern.
pub open spec fn json_in_response(text: Seq<char>) -> Option<JsonV> {
    response_value(pattern::first_group(JSON_FENCE@, text), pattern::first_group(ANY_FENCE@, text), text)
}

/// Try to pull a JSON value out of a response: a fence tagged as JSON, a fence of
/// any kind, then the whole text.
pub fn extract_json_from_response(text: &str) -> (r: Option<Json>)
    ensures
        seqs::opt_view(r) == json_in_response(text@),
{
    let tagged = pattern::find_group(JSON_FENCE, text);
    let any = pattern::find_group(ANY_FENCE, text);
    choose_json(&tagged, &any, text)
}

} // verus!
