//! Telling whether two names are names of one thing.

use vstd::prelude::*;

use crate::table::Table;
use crate::types::graph::{Entity, EntityV};
use crate::types::vocab::EntityType;
use crate::{names, seqs, text};

verus! {

broadcast use crate::seqs::group_views;

/// `c` is a punctuation character of ASCII.
pub open spec fn is_punctuation(c: char) -> bool {
    '!' <= c <= '/' || ':' <= c <= '@' || '[' <= c <= '`' || '{' <= c <= '~'
}

/// `s` with a blank in the place of each punctuation character.
pub open spec fn spaced(s: Seq<char>) -> Seq<char> {
    Seq::new(
        s.len(),
        |i: int|
            if is_punctuation(s[i]) {
                ' '
            } else {
                s[i]
            },
    )
}

/// `t` is an article.
pub open spec fn is_article(t: Seq<char>) -> bool {
    t == "the"@ || t == "a"@ || t == "an"@
}

/// `t` says what kind of company a name is of.
pub open spec fn is_company_suffix(t: Seq<char>) -> bool {
    ||| t == "inc"@
    ||| t == "incorporated"@
    ||| t == "corp"@
    ||| t == "corporation"@
    ||| t == "co"@
    ||| t == "company"@
    ||| t == "ltd"@
    ||| t == "limited"@
    ||| t == "llc"@
    ||| t == "plc"@
    ||| t == "pbc"@
    ||| t == "gmbh"@
    ||| t == "ag"@
    ||| t == "sa"@
}

/// `ts` without an article that other words follow.
pub open spec fn without_article(ts: Seq<Seq<char>>) -> Seq<Seq<char>> {
    if ts.len() > 1 && is_article(ts[0]) {
        ts.skip(1)
    } else {
        ts
    }
}

/// `ts` without the kinds of company that it ends in, but for the last word left.
pub open spec fn without_suffixes(ts: Seq<Seq<char>>) -> Seq<Seq<char>>
    decreases ts.len(),
{
    if ts.len() > 1 && is_company_suffix(ts.last()) {
        without_suffixes(ts.drop_last())
    } else {
        ts
    }
}

/// A name means the same with an article before it and with the kind of the company behind
/// it. What is left of it starts as the name does, and does not end in the kind of a company
/// unless it is that word alone.
pub proof fn law_articles_and_kinds_do_not_count(
    ts: Seq<Seq<char>>,
    article: Seq<char>,
    kind: Seq<char>,
)
    requires
        ts.len() > 0,
    ensures
        article == "the"@ || article == "an"@ || article == "a"@ ==> without_article(
            seq![article] + ts,
        ) == ts,
        kind == "inc"@ || kind == "corporation"@ || kind == "ltd"@ || kind == "llc"@ || kind
            == "company"@ || kind == "gmbh"@ ==> without_suffixes(ts.push(kind))
            == without_suffixes(ts),
        ({
            let r = without_suffixes(ts);
            &&& 0 < r.len() <= ts.len()
            &&& r == ts.take(r.len() as int)
            &&& r.len() == 1 || !is_company_suffix(r.last())
            &&& forall|i: int| r.len() <= i < ts.len() ==> is_company_suffix(#[trigger] ts[i])
        }),
    decreases ts.len(),
{
    assert((seq![article] + ts).skip(1) =~= ts);
    assert(ts.push(kind).drop_last() =~= ts);
    assert(ts.push(kind).last() == kind);
    if ts.len() > 1 && is_company_suffix(ts.last()) {
        let before = ts.drop_last();
        law_articles_and_kinds_do_not_count(before, article, kind);
        let r = without_suffixes(before);
        assert(before.take(r.len() as int) =~= ts.take(r.len() as int));
        assert forall|i: int| r.len() <= i < ts.len() implies is_company_suffix(
            #[trigger] ts[i],
        ) by {
            if i < ts.len() - 1 {
                assert(before[i] == ts[i]);
            }
        }
    } else {
        assert(ts.take(ts.len() as int) =~= ts);
    }
}

/// What is compared of a name in lower case: its words, without punctuation, an
/// article at the start and the kind of company at the end.
pub open spec fn essence(lowered: Seq<char>) -> Seq<char> {
    text::joined(without_suffixes(without_article(text::words(spaced(lowered)))), " "@)
}

/// `s` with a blank in the place of each punctuation character.
fn space_out(s: &str) -> (r: String)
    ensures
        r@ == spaced(s@),
{
    let v = text::chars_of(s);
    let mut out = String::new();
    let mut i: usize = 0;
    while i < v.len()
        invariant
            i <= v@.len(),
            out@ == spaced(v@.take(i as int)),
        decreases v.len() - i,
    {
        let c = v[i];
        let d = if ('!' <= c && c <= '/') || (':' <= c && c <= '@') || ('[' <= c && c <= '`') || (
        '{' <= c && c <= '~') {
            ' '
        } else {
            c
        };
        out.push(d);
        i += 1;
        assert(out@ =~= spaced(v@.take(i as int)));
    }
    assert(v@.take(i as int) =~= s@);
    out
}

/// Whether `t` is an article.
fn article(t: &str) -> (r: bool)
    ensures
        r == is_article(t@),
{
    text::same(t, "the") || text::same(t, "a") || text::same(t, "an")
}

/// Whether `t` says what kind of company a name is of.
fn company_suffix(t: &str) -> (r: bool)
    ensures
        r == is_company_suffix(t@),
{
    text::same(t, "inc") || text::same(t, "incorporated") || text::same(t, "corp") || text::same(
        t,
        "corporation",
    ) || text::same(t, "co") || text::same(t, "company") || text::same(t, "ltd") || text::same(
        t,
        "limited",
    ) || text::same(t, "llc") || text::same(t, "plc") || text::same(t, "pbc") || text::same(
        t,
        "gmbh",
    ) || text::same(t, "ag") || text::same(t, "sa")
}

/// What is compared of a name in lower case.
pub fn essence_of(lowered: &str) -> (r: String)
    ensures
        r@ == essence(lowered@),
{
    let mut words = text::split_words(space_out(lowered).as_str());
    let ghost all = seqs::views(words@);
    if words.len() > 1 && article(words[0].as_str()) {
        let _first = words.remove(0);
        assert(seqs::views(words@) =~= all.skip(1));
    }
    let ghost named = seqs::views(words@);
    while words.len() > 1 && company_suffix(words[words.len() - 1].as_str())
        invariant
            without_suffixes(seqs::views(words@)) == without_suffixes(named),
        decreases words@.len(),
    {
        let ghost before = seqs::views(words@);
        let _last = words.pop();
        assert(seqs::views(words@) =~= before.drop_last());
    }
    text::join(&words, " ")
}

/// What is compared of a name.
pub open spec fn normalized(label: Seq<char>) -> Seq<char> {
    essence(text::lower(label))
}

/// What is compared of a name: see [`essence_of`].
pub fn normalize_label(label: &str) -> (r: String)
    ensures
        r@ == normalized(label@),
{
    essence_of(text::to_lower(label).as_str())
}

/// The items of `s`, each at its first place only.
pub open spec fn distinct(s: Seq<Seq<char>>) -> Seq<Seq<char>>
    decreases s.len(),
{
    if s.len() == 0 {
        seq![]
    } else {
        let d = distinct(s.drop_last());
        if d.contains(s.last()) {
            d
        } else {
            d.push(s.last())
        }
    }
}

/// How many items of `a` stand in `b`.
pub open spec fn shared(a: Seq<Seq<char>>, b: Seq<Seq<char>>) -> nat
    decreases a.len(),
{
    if a.len() == 0 {
        0
    } else {
        shared(a.drop_last(), b) + if b.contains(a.last()) {
            1nat
        } else {
            0
        }
    }
}

/// How alike the words of two names are, as a fraction: whole where two words or
/// more are all the words of one of them and stand in the other, else the number of
/// shared words over the number of all words, where that is three fifths or more.
pub open spec fn word_likeness(a: Seq<char>, b: Seq<char>) -> Option<(nat, nat)> {
    let x = distinct(text::words(a));
    let y = distinct(text::words(b));
    let n = shared(x, y);
    let all = (x.len() + y.len() - n) as nat;
    if x.len() == 0 || y.len() == 0 {
        None
    } else if n >= 2 && (n == x.len() || n == y.len()) {
        Some((1, 1))
    } else if n * 5 >= all * 3 {
        Some((n, all))
    } else {
        None
    }
}

/// The items of `s`, each once.
fn distinct_of(s: &Vec<String>) -> (r: Vec<String>)
    ensures
        seqs::views(r@) == distinct(seqs::views(s@)),
{
    let mut out: Vec<String> = Vec::new();
    let mut i: usize = 0;
    while i < s.len()
        invariant
            i <= s@.len(),
            seqs::views(out@) == distinct(seqs::views(s@).take(i as int)),
        decreases s.len() - i,
    {
        assert(seqs::views(s@).take(i + 1).drop_last() =~= seqs::views(s@).take(i as int));
        if !names::holds(&out, s[i].as_str()) {
            let x = s[i].clone();
            out.push(x);
        }
        i += 1;
    }
    assert(seqs::views(s@).take(i as int) =~= seqs::views(s@));
    out
}

/// The number of items of `a` that stand in `b`.
fn count_shared(a: &Vec<String>, b: &Vec<String>) -> (r: usize)
    ensures
        r == shared(seqs::views(a@), seqs::views(b@)),
        r <= a@.len(),
{
    let mut n: usize = 0;
    let mut i: usize = 0;
    while i < a.len()
        invariant
            n <= i <= a@.len(),
            n == shared(seqs::views(a@).take(i as int), seqs::views(b@)),
        decreases a.len() - i,
    {
        assert(seqs::views(a@).take(i + 1).drop_last() =~= seqs::views(a@).take(i as int));
        if names::holds(b, a[i].as_str()) {
            n += 1;
        }
        i += 1;
    }
    assert(seqs::views(a@).take(i as int) =~= seqs::views(a@));
    n
}

/// How alike the words of two names are: a number of shared words and a number of
/// words that it is out of.
pub fn token_set_similarity(a: &str, b: &str) -> (r: Option<(u128, u128)>)
    ensures
        match r {
            Some(p) => word_likeness(a@, b@) == Some((p.0 as nat, p.1 as nat)),
            None => word_likeness(a@, b@) is None,
        },
{
    let x = distinct_of(&text::split_words(a));
    let y = distinct_of(&text::split_words(b));
    let nx: usize = x.len();
    let ny: usize = y.len();
    if nx == 0 || ny == 0 {
        return None;
    }
    let n: usize = count_shared(&x, &y);
    let all: u128 = nx as u128 + ny as u128 - n as u128;
    if n >= 2 && (n == nx || n == ny) {
        return Some((1, 1));
    }
    if (n as u128) * 5 >= all * 3 {
        Some((n as u128, all))
    } else {
        None
    }
}

/// The least number of characters to put in, take out or change that makes `a` of
/// `b`.
pub open spec fn edits(a: Seq<char>, b: Seq<char>) -> nat
    decreases a.len() + b.len(),
{
    if a.len() == 0 {
        b.len()
    } else if b.len() == 0 {
        a.len()
    } else if a.last() == b.last() {
        edits(a.drop_last(), b.drop_last())
    } else {
        let x = edits(a.drop_last(), b);
        let y = edits(a, b.drop_last());
        let z = edits(a.drop_last(), b.drop_last());
        1 + if x <= y && x <= z {
            x
        } else if y <= z {
            y
        } else {
            z
        }
    }
}

/// No more edits are needed than the longer text has characters.
pub proof fn lemma_edits_bound(a: Seq<char>, b: Seq<char>)
    ensures
        edits(a, b) <= a.len() || edits(a, b) <= b.len(),
    decreases a.len() + b.len(),
{
    if a.len() > 0 && b.len() > 0 {
        lemma_edits_bound(a.drop_last(), b.drop_last());
    }
}

/// A text needs no edit to become itself.
pub proof fn law_no_edits_to_itself(a: Seq<char>)
    ensures
        edits(a, a) == 0,
    decreases a.len(),
{
    if a.len() > 0 {
        law_no_edits_to_itself(a.drop_last());
    }
}

/// It takes as many edits one way as the other.
pub proof fn law_edits_both_ways(a: Seq<char>, b: Seq<char>)
    ensures
        edits(a, b) == edits(b, a),
    decreases a.len() + b.len(),
{
    if a.len() > 0 && b.len() > 0 {
        law_edits_both_ways(a.drop_last(), b.drop_last());
        law_edits_both_ways(a.drop_last(), b);
        law_edits_both_ways(a, b.drop_last());
    }
}

/// A text that needs no edit to become another is that other.
pub proof fn law_no_edits_between_equals_alone(a: Seq<char>, b: Seq<char>)
    ensures
        edits(a, b) == 0 <==> a == b,
    decreases a.len() + b.len(),
{
    if a == b {
        law_no_edits_to_itself(a);
    } else if a.len() == 0 || b.len() == 0 {
        if a.len() == b.len() {
            assert(a =~= b);
        }
    } else if a.last() == b.last() {
        law_no_edits_between_equals_alone(a.drop_last(), b.drop_last());
        if a.drop_last() == b.drop_last() {
            assert(a =~= a.drop_last().push(a.last()));
            assert(b =~= b.drop_last().push(b.last()));
        }
    }
}

/// It takes at least as many edits as one text has more characters than the other, and at
/// most one edit more for each character that is put to one of them.
pub proof fn law_edits_are_counted(a: Seq<char>, b: Seq<char>, c: char)
    ensures
        edits(a, b) >= a.len() - b.len(),
        edits(a, b) >= b.len() - a.len(),
        edits(a.push(c), b) <= edits(a, b) + 1,
        edits(a, b.push(c)) <= edits(a, b) + 1,
        edits(a.push(c), b.push(c)) == edits(a, b),
{
    lemma_edits_at_least(a, b);
    assert(a.push(c).drop_last() =~= a);
    assert(b.push(c).drop_last() =~= b);
    lemma_edits_grow(a, b, c);
    lemma_edits_grow(b, a, c);
    law_edits_both_ways(a, b);
    law_edits_both_ways(a, b.push(c));
}

proof fn lemma_edits_at_least(a: Seq<char>, b: Seq<char>)
    ensures
        edits(a, b) >= a.len() - b.len(),
        edits(a, b) >= b.len() - a.len(),
    decreases a.len() + b.len(),
{
    if a.len() > 0 && b.len() > 0 {
        lemma_edits_at_least(a.drop_last(), b.drop_last());
        lemma_edits_at_least(a.drop_last(), b);
        lemma_edits_at_least(a, b.drop_last());
    }
}

/// One character more takes at most one edit more, and one less too.
proof fn lemma_edits_grow(a: Seq<char>, b: Seq<char>, c: char)
    ensures
        edits(a.push(c), b) <= edits(a, b) + 1,
        edits(a, b) <= edits(a.push(c), b) + 1,
    decreases a.len() + b.len(),
{
    let x = a.push(c);
    assert(x.drop_last() =~= a);
    if b.len() > 0 {
        let d = b.drop_last();
        lemma_edits_grow(a, d, c);
        assert(d.push(b.last()) =~= b);
        if a.len() == 0 {
            if c == b.last() {
            } else {
                lemma_edits_at_least(x, d);
                lemma_edits_at_least(a, d);
            }
        } else {
            let e = a.drop_last();
            assert(e.push(a.last()) =~= a);
            lemma_edits_grow(e, d, a.last());
            lemma_edits_grow(e, b, a.last());
            law_edits_both_ways(a, b);
            law_edits_both_ways(a, d);
            law_edits_both_ways(d, a);
            lemma_edits_grow(d, a, b.last());
        }
    }
}

/// The least number of edits that makes `a` of `b`.
pub fn edit_distance(a: &str, b: &str) -> (r: usize)
    ensures
        r == edits(a@, b@),
{
    let x = text::chars_of(a);
    let y = text::chars_of(b);
    let n: usize = x.len();
    let m: usize = y.len();
    let mut row: Vec<usize> = Vec::new();
    let mut j: usize = 0;
    while j < m
        invariant
            j <= m,
            m == y@.len(),
            row@.len() == j,
            forall|k: int| 0 <= k < j ==> #[trigger] row@[k] == k + 1,
        decreases m - j,
    {
        row.push(j + 1);
        j += 1;
    }
    let mut i: usize = 0;
    assert forall|k: int| 0 <= k < m implies #[trigger] row@[k] == edits(
        x@.take(0),
        y@.take(k + 1),
    ) by {}
    while i < n
        invariant
            i <= n,
            n == x@.len(),
            m == y@.len(),
            row@.len() == m,
            forall|k: int|
                0 <= k < m ==> #[trigger] row@[k] == edits(x@.take(i as int), y@.take(k + 1)),
        decreases n - i,
    {
        let ghost p = x@.take(i as int);
        let ghost q = x@.take(i + 1);
        assert(q.drop_last() =~= p);
        let mut next: Vec<usize> = Vec::new();
        let mut diagonal: usize = i;
        let mut left: usize = i + 1;
        let mut j: usize = 0;
        assert(y@.take(0).len() == 0);
        while j < m
            invariant
                j <= m,
                i < n,
                n == x@.len(),
                m == y@.len(),
                row@.len() == m,
                next@.len() == j,
                p == x@.take(i as int),
                q == x@.take(i + 1),
                q.drop_last() == p,
                diagonal == edits(p, y@.take(j as int)),
                left == edits(q, y@.take(j as int)),
                forall|k: int| 0 <= k < m ==> #[trigger] row@[k] == edits(p, y@.take(k + 1)),
                forall|k: int| 0 <= k < j ==> #[trigger] next@[k] == edits(q, y@.take(k + 1)),
            decreases m - j,
        {
            let above: usize = row[j];
            let ghost t = y@.take(j + 1);
            assert(t.drop_last() =~= y@.take(j as int));
            assert(t.last() == y@[j as int]);
            assert(q.last() == x@[i as int]);
            proof {
                lemma_edits_bound(q, t);
            }
            let here: usize = if x[i] == y[j] {
                diagonal
            } else if above <= left && above <= diagonal {
                1 + above
            } else if left <= diagonal {
                1 + left
            } else {
                1 + diagonal
            };
            next.push(here);
            diagonal = above;
            left = here;
            j += 1;
        }
        row = next;
        i += 1;
    }
    assert(x@.take(n as int) =~= a@);
    assert(y@.take(m as int) =~= b@);
    if m == 0 {
        n
    } else {
        assert(row@[m - 1] == edits(x@.take(n as int), y@.take(m as int)));
        row[m - 1]
    }
}

/// Two names are long enough and differ in at most 15 of 100 characters.
pub open spec fn spelled_alike(a: Seq<char>, b: Seq<char>) -> bool {
    let most = if a.len() >= b.len() {
        a.len()
    } else {
        b.len()
    };
    a.len() >= 6 && b.len() >= 6 && edits(a, b) * 100 <= most * 15
}

/// What two names have in common.
#[derive(Clone, Copy, Debug, PartialEq, Eq, Structural)]
pub enum Likeness {
    /// They are the same.
    Same,
    /// They share words.
    Words,
    /// They are spelled alike.
    Spelling,
}

/// Two names, as they are compared, have `l` in common.
pub open spec fn alike(l: Likeness, a: Seq<char>, b: Seq<char>) -> bool {
    match l {
        Likeness::Same => a == b,
        Likeness::Words => word_likeness(a, b) is Some,
        Likeness::Spelling => spelled_alike(a, b),
    }
}

/// Whether two names, as they are compared, have `l` in common.
pub fn are_alike(l: Likeness, a: &str, b: &str) -> (r: bool)
    ensures
        r == alike(l, a@, b@),
{
    match l {
        Likeness::Same => text::same(a, b),
        Likeness::Words => token_set_similarity(a, b).is_some(),
        Likeness::Spelling => {
            let na: usize = a.unicode_len();
            let nb: usize = b.unicode_len();
            let most: usize = if na >= nb {
                na
            } else {
                nb
            };
            na >= 6 && nb >= 6 && (edit_distance(a, b) as u128) * 100 <= (most as u128) * 15
        },
    }
}

/// Things of these types can be one thing: the types are the same, or one of them
/// says nothing.
pub open spec fn compatible(a: EntityType, b: EntityType) -> bool {
    a == b || a == EntityType::Other || b == EntityType::Other
}

/// The first of the entities `es` from `from` on whose type is compatible with that
/// of `e` and whose name has `l` in common with that of `e`.
pub open spec fn first_alike(
    es: Seq<(Seq<char>, EntityV)>,
    e: EntityV,
    l: Likeness,
    from: int,
) -> Option<int>
    decreases es.len() - from,
{
    if 0 <= from < es.len() {
        if compatible(es[from].1.entity_type, e.entity_type) && alike(
            l,
            normalized(es[from].1.label),
            normalized(e.label),
        ) {
            Some(from)
        } else {
            first_alike(es, e, l, from + 1)
        }
    } else {
        None
    }
}

/// Where among `es` the thing stands that `e` is of: the first entity with the same
/// name, else the first with words in common, else the first that is spelled alike.
pub open spec fn coreferent(es: Seq<(Seq<char>, EntityV)>, e: EntityV) -> Option<int> {
    match first_alike(es, e, Likeness::Same, 0) {
        Some(i) => Some(i),
        None => match first_alike(es, e, Likeness::Words, 0) {
            Some(i) => Some(i),
            None => first_alike(es, e, Likeness::Spelling, 0),
        },
    }
}

proof fn lemma_first_alike(es: Seq<(Seq<char>, EntityV)>, e: EntityV, l: Likeness, from: int)
    requires
        0 <= from,
    ensures
        match first_alike(es, e, l, from) {
            Some(i) => from <= i < es.len() && compatible(es[i].1.entity_type, e.entity_type)
                && alike(l, normalized(es[i].1.label), normalized(e.label)) && (forall|j: int|
                from <= j < i ==> !(compatible((#[trigger] es[j]).1.entity_type, e.entity_type)
                    && alike(l, normalized(es[j].1.label), normalized(e.label)))),
            None => forall|j: int|
                from <= j < es.len() ==> !(compatible(
                    (#[trigger] es[j]).1.entity_type,
                    e.entity_type,
                ) && alike(l, normalized(es[j].1.label), normalized(e.label))),
        },
    decreases es.len() - from,
{
    if from < es.len() {
        lemma_first_alike(es, e, l, from + 1);
    }
}

/// An entity that another is taken for has a type that goes with its type and a name that is
/// like its name. Where some entity whose type goes with it has the same name, the one that
/// is found has that name too and no earlier such one has; and where nothing is found, no
/// entity whose type goes with it has a like name.
pub proof fn law_like_entities_are_found(es: Seq<(Seq<char>, EntityV)>, e: EntityV, j: int)
    requires
        0 <= j < es.len(),
    ensures
        ({
            let name = normalized(e.label);
            let other = normalized(es[j].1.label);
            let fits = es[j].1.entity_type == e.entity_type || es[j].1.entity_type
                == EntityType::Other || e.entity_type == EntityType::Other;
            match coreferent(es, e) {
                Some(i) => {
                    let found = normalized(es[i].1.label);
                    &&& 0 <= i < es.len()
                    &&& es[i].1.entity_type == e.entity_type || es[i].1.entity_type
                        == EntityType::Other || e.entity_type == EntityType::Other
                    &&& found == name || word_likeness(found, name) is Some || spelled_alike(
                        found,
                        name,
                    )
                    &&& fits && other == name ==> found == name && i <= j
                    &&& fits && word_likeness(other, name) is Some && found != name
                        ==> word_likeness(found, name) is Some && i <= j
                },
                None => fits ==> other != name && word_likeness(other, name) is None
                    && !spelled_alike(other, name),
            }
        }),
{
    lemma_first_alike(es, e, Likeness::Same, 0);
    lemma_first_alike(es, e, Likeness::Words, 0);
    lemma_first_alike(es, e, Likeness::Spelling, 0);
}

/// The items of a list, each once, are those of the list, and each is there once.
proof fn lemma_distinct(s: Seq<Seq<char>>)
    ensures
        distinct(s).no_duplicates(),
        forall|x: Seq<char>| #[trigger] distinct(s).contains(x) <==> s.contains(x),
    decreases s.len(),
{
    if s.len() > 0 {
        let before = s.drop_last();
        lemma_distinct(before);
        let d = distinct(before);
        let r = distinct(s);
        assert forall|x: Seq<char>| #[trigger] r.contains(x) <==> s.contains(x) by {
            assert(d.contains(x) <==> before.contains(x));
            if s.contains(x) {
                let i = choose|i: int| 0 <= i < s.len() && s[i] == x;
                if i < before.len() {
                    assert(before[i] == x);
                    let k = choose|k: int| 0 <= k < d.len() && d[k] == x;
                    assert(r[k] == x);
                } else if !d.contains(x) {
                    assert(r[d.len() as int] == x);
                }
            }
            if r.contains(x) {
                let k = choose|k: int| 0 <= k < r.len() && r[k] == x;
                if k < d.len() {
                    assert(d[k] == x);
                    let i = choose|i: int| 0 <= i < before.len() && before[i] == x;
                    assert(s[i] == x);
                } else {
                    assert(s[s.len() - 1] == x);
                }
            }
        }
        if !d.contains(s.last()) {
            assert forall|i: int, j: int| 0 <= i < r.len() && 0 <= j < r.len() && i != j implies r[i]
                != r[j] by {
                if i == d.len() {
                    assert(d[j] != s.last());
                } else if j == d.len() {
                    assert(d[i] != s.last());
                }
            }
        }
    }
}

/// What is shared is as much as stands in both.
proof fn lemma_shared(a: Seq<Seq<char>>, b: Seq<Seq<char>>)
    requires
        a.no_duplicates(),
    ensures
        shared(a, b) == a.to_set().intersect(b.to_set()).len(),
        shared(a, b) <= a.len(),
    decreases a.len(),
{
    if a.len() == 0 {
        assert(a.to_set().intersect(b.to_set()) =~= Set::empty());
    } else {
        let c = a.drop_last();
        assert forall|i: int, j: int| 0 <= i < c.len() && 0 <= j < c.len() && i != j implies c[i]
            != c[j] by {
            assert(a[i] != a[j]);
        }
        lemma_shared(c, b);
        let x = a.last();
        let m = c.to_set().intersect(b.to_set());
        assert(!c.contains(x)) by {
            if c.contains(x) {
                let i = choose|i: int| 0 <= i < c.len() && c[i] == x;
                assert(a[i] == a[a.len() - 1]);
            }
        }
        assert forall|y: Seq<char>| #[trigger] a.contains(y) <==> c.contains(y) || y == x by {
            if a.contains(y) {
                let i = choose|i: int| 0 <= i < a.len() && a[i] == y;
                if i < c.len() {
                    assert(c[i] == y);
                }
            }
            if c.contains(y) {
                let i = choose|i: int| 0 <= i < c.len() && c[i] == y;
                assert(a[i] == y);
            }
            assert(a[a.len() - 1] == x);
        }
        vstd::seq_lib::seq_to_set_is_finite(c);
        assert(m.finite());
        if b.contains(x) {
            assert(a.to_set().intersect(b.to_set()) =~= m.insert(x));
        } else {
            assert(a.to_set().intersect(b.to_set()) =~= m);
        }
    }
}

/// The words of two names are as much alike one way as the other; and two names with the
/// same words, where there are any, are wholly alike.
pub proof fn law_word_likeness_both_ways(a: Seq<char>, b: Seq<char>)
    ensures
        word_likeness(a, b) == word_likeness(b, a),
        text::words(a) == text::words(b) && text::words(a).len() > 0 ==> {
            &&& word_likeness(a, b) is Some
            &&& (word_likeness(a, b)->0).0 == (word_likeness(a, b)->0).1
        },
        word_likeness(a, b) is Some ==> exists|w: Seq<char>| #[trigger]
            text::words(a).contains(w) && text::words(b).contains(w),
{
    let x = distinct(text::words(a));
    let y = distinct(text::words(b));
    lemma_distinct(text::words(a));
    lemma_distinct(text::words(b));
    lemma_shared(x, y);
    lemma_shared(y, x);
    assert(x.to_set().intersect(y.to_set()) =~= y.to_set().intersect(x.to_set()));
    if text::words(a) == text::words(b) && text::words(a).len() > 0 {
        lemma_shared(x, x);
        assert(x.to_set().intersect(x.to_set()) =~= x.to_set());
        x.unique_seq_to_set();
        assert(text::words(a).contains(text::words(a)[0]));
        assert(x.contains(text::words(a)[0]));
    }
    if word_likeness(a, b) is Some {
        let both = x.to_set().intersect(y.to_set());
        assert(both.len() > 0);
        vstd::seq_lib::seq_to_set_is_finite(x);
        if both =~= Set::empty() {
            assert(both.len() == 0);
        }
        let w = choose|w: Seq<char>| both.contains(w);
        assert(x.contains(w) && y.contains(w));
        assert(text::words(a).contains(w));
    }
}

/// The first of the entities whose name has `l` in common with that of `e`.
fn find_alike(es: &Table<Entity>, e: &Entity, l: Likeness) -> (r: Option<usize>)
    ensures
        match r {
            Some(i) => first_alike(es@, e@, l, 0) == Some(i as int) && i < es@.len(),
            None => first_alike(es@, e@, l, 0) is None,
        },
{
    let name = normalize_label(e.label.as_str());
    let n: usize = es.len();
    let mut i: usize = 0;
    while i < n
        invariant
            i <= n,
            n == es@.len(),
            name@ == normalized(e@.label),
            first_alike(es@, e@, l, 0) == first_alike(es@, e@, l, i as int),
        decreases n - i,
    {
        let known = es.value_at(i);
        if (known.entity_type == e.entity_type || known.entity_type == EntityType::Other
            || e.entity_type == EntityType::Other) && are_alike(
            l,
            normalize_label(known.label.as_str()).as_str(),
            name.as_str(),
        ) {
            return Some(i);
        }
        i += 1;
    }
    None
}

/// Where among `es` the thing stands that `e` is of.
pub fn find_coreferent(es: &Table<Entity>, e: &Entity) -> (r: Option<usize>)
    ensures
        match r {
            Some(i) => coreferent(es@, e@) == Some(i as int) && i < es@.len(),
            None => coreferent(es@, e@) is None,
        },
{
    match find_alike(es, e, Likeness::Same) {
        Some(i) => Some(i),
        None => match find_alike(es, e, Likeness::Words) {
            Some(i) => Some(i),
            None => find_alike(es, e, Likeness::Spelling),
        },
    }
}

} // verus!
