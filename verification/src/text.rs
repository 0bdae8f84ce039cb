//! Text primitives: what it means to trim, search, split, join and replace,
//! over sequences of characters, with the executable functions that do so.

use vstd::prelude::*;
use vstd::string::*;

use crate::seqs;

verus! {

/// The characters with the Unicode `White_Space` property.
pub open spec fn is_white(c: char) -> bool {
    let n = c as u32;
    ||| 0x9 <= n <= 0xd
    ||| n == 0x20
    ||| n == 0x85
    ||| n == 0xa0
    ||| n == 0x1680
    ||| 0x2000 <= n <= 0x200a
    ||| n == 0x2028
    ||| n == 0x2029
    ||| n == 0x202f
    ||| n == 0x205f
    ||| n == 0x3000
}

/// Whether `c` is white space.
pub fn is_white_char(c: char) -> (r: bool)
    ensures
        r == is_white(c),
{
    let n: u32 = c as u32;
    (0x9 <= n && n <= 0xd) || n == 0x20 || n == 0x85 || n == 0xa0 || n == 0x1680 || (0x2000 <= n
        && n <= 0x200a) || n == 0x2028 || n == 0x2029 || n == 0x202f || n == 0x205f || n == 0x3000
}

/// `s` without the white space it starts with.
pub open spec fn trimmed_start(s: Seq<char>) -> Seq<char>
    decreases s.len(),
{
    if s.len() > 0 && is_white(s[0]) {
        trimmed_start(s.subrange(1, s.len() as int))
    } else {
        s
    }
}

/// `s` without the white space it ends with.
pub open spec fn trimmed_end(s: Seq<char>) -> Seq<char>
    decreases s.len(),
{
    if s.len() > 0 && is_white(s.last()) {
        trimmed_end(s.drop_last())
    } else {
        s
    }
}

/// `s` without the white space around it.
pub open spec fn trimmed(s: Seq<char>) -> Seq<char> {
    trimmed_end(trimmed_start(s))
}

/// `String::push` appends the given character to the end of the string.
pub assume_specification[ String::push ](s: &mut String, c: char)
    ensures
        final(s)@ == old(s)@.push(c),
;

/// The characters of `s`.
pub fn chars_of(s: &str) -> (r: Vec<char>)
    ensures
        r@ == s@,
{
    let mut v: Vec<char> = Vec::new();
    for c in it: s.chars()
        invariant
            it.seq() == s@,
            v@ == s@.take(it.index() as int),
    {
        v.push(c);
    }
    v
}

/// The text made of the characters `from..to` of `v`.
pub fn text_of(v: &Vec<char>, from: usize, to: usize) -> (r: String)
    requires
        from <= to <= v@.len(),
    ensures
        r@ == v@.subrange(from as int, to as int),
{
    let mut s = String::new();
    let mut i: usize = from;
    while i < to
        invariant
            from <= i <= to <= v@.len(),
            s@ == v@.subrange(from as int, i as int),
        decreases to - i,
    {
        s.push(v[i]);
        i += 1;
    }
    s
}

/// `s` without the white space around it.
pub fn trim(s: &str) -> (r: String)
    ensures
        r@ == trimmed(s@),
{
    let v = chars_of(s);
    let mut from: usize = 0;
    let n: usize = v.len();
    assert(v@.subrange(0, n as int) =~= v@);
    while from < n && is_white_char(v[from])
        invariant
            0 <= from <= n == v@.len(),
            trimmed_start(v@) == trimmed_start(v@.subrange(from as int, n as int)),
        decreases n - from,
    {
        assert(v@.subrange(from as int, n as int).subrange(1, n - from) =~= v@.subrange(from + 1, n as int));
        from += 1;
    }
    let mut to: usize = n;
    while from < to && is_white_char(v[to - 1])
        invariant
            from <= to <= n == v@.len(),
            trimmed_end(v@.subrange(from as int, n as int)) == trimmed_end(v@.subrange(from as int, to as int)),
        decreases to - from,
    {
        assert(v@.subrange(from as int, to as int).drop_last() =~= v@.subrange(from as int, to - 1));
        to -= 1;
    }
    text_of(&v, from, to)
}

/// The text `t` as an owned string.
pub fn owned(t: &str) -> (r: String)
    ensures
        r@ == t@,
{
    t.to_owned()
}

/// Whether two texts are the same.
pub fn same(a: &str, b: &str) -> (r: bool)
    ensures
        r == (a@ == b@),
{
    let x = a.to_owned();
    let y = b.to_owned();
    x == y
}

/// `a` followed by `b`.
pub fn concat2(a: &str, b: &str) -> (r: String)
    ensures
        r@ == a@ + b@,
{
    let mut s = a.to_owned();
    s.append(b);
    s
}

/// `p` occurs in `s` at position `i`.
pub open spec fn occurs_at(s: Seq<char>, p: Seq<char>, i: int) -> bool {
    0 <= i && i + p.len() <= s.len() && s.subrange(i, i + p.len()) == p
}

/// `p` occurs somewhere in `s`.
pub open spec fn contains(s: Seq<char>, p: Seq<char>) -> bool {
    exists|i: int| occurs_at(s, p, i)
}

/// `s` starts with `p`.
pub open spec fn has_prefix(s: Seq<char>, p: Seq<char>) -> bool {
    occurs_at(s, p, 0)
}

/// `s` ends with `p`.
pub open spec fn has_suffix(s: Seq<char>, p: Seq<char>) -> bool {
    occurs_at(s, p, s.len() - p.len())
}

/// The first position at or after `from` where `p` occurs in `s`.
pub open spec fn find_from(s: Seq<char>, p: Seq<char>, from: int) -> Option<int>
    decreases s.len() + 1 - from,
{
    if from < 0 || from + p.len() > s.len() {
        None
    } else if occurs_at(s, p, from) {
        Some(from)
    } else {
        find_from(s, p, from + 1)
    }
}

/// What `find_from` finds is an occurrence, and the first one.
pub proof fn lemma_find_from(s: Seq<char>, p: Seq<char>, from: int)
    requires
        from >= 0,
    ensures
        match find_from(s, p, from) {
            Some(i) => from <= i && occurs_at(s, p, i) && (forall|j: int|
                from <= j < i ==> !occurs_at(s, p, j)),
            None => forall|j: int| from <= j ==> !occurs_at(s, p, j),
        },
    decreases s.len() + 1 - from,
{
    if from + p.len() > s.len() {
    } else if occurs_at(s, p, from) {
    } else {
        lemma_find_from(s, p, from + 1);
    }
}

/// Whether `p` occurs in `s` at position `i`.
pub fn is_at(s: &Vec<char>, p: &Vec<char>, i: usize) -> (r: bool)
    ensures
        r == occurs_at(s@, p@, i as int),
{
    if i > s.len() || p.len() > s.len() - i {
        return false;
    }
    let n: usize = s.len();
    let mut k: usize = 0;
    while k < p.len()
        invariant
            n == s@.len(),
            i + p@.len() <= n,
            k <= p@.len(),
            forall|j: int| 0 <= j < k ==> s@[i + j] == p@[j],
        decreases p.len() - k,
    {
        if s[i + k] != p[k] {
            assert(s@.subrange(i as int, i + p@.len())[k as int] != p@[k as int]);
            return false;
        }
        k += 1;
    }
    assert(s@.subrange(i as int, i + p@.len()) =~= p@);
    true
}

/// The first position at or after `from` where `p` occurs in `s`.
pub fn find_chars(s: &Vec<char>, p: &Vec<char>, from: usize) -> (r: Option<usize>)
    ensures
        match r {
            Some(i) => find_from(s@, p@, from as int) == Some(i as int) && from <= i && i
                + p@.len() <= s@.len(),
            None => find_from(s@, p@, from as int) is None,
        },
{
    let n: usize = s.len();
    let m: usize = p.len();
    if from > n || m > n - from {
        return None;
    }
    let last: usize = n - m;
    let mut i: usize = from;
    loop
        invariant
            n == s@.len(),
            m == p@.len(),
            last == n - m,
            from <= i <= last,
            find_from(s@, p@, from as int) == find_from(s@, p@, i as int),
        decreases last - i,
    {
        if is_at(s, p, i) {
            return Some(i);
        }
        assert(find_from(s@, p@, i as int) == find_from(s@, p@, i + 1));
        if i == last {
            return None;
        }
        i += 1;
    }
}

/// Whether `p` occurs in `s`.
pub fn has(s: &str, p: &str) -> (r: bool)
    ensures
        r == contains(s@, p@),
{
    let v = chars_of(s);
    let q = chars_of(p);
    proof {
        lemma_find_from(s@, p@, 0);
    }
    match find_chars(&v, &q, 0) {
        Some(_) => true,
        None => {
            assert forall|i: int| !occurs_at(s@, p@, i) by {
                if i >= 0 {
                }
            }
            false
        },
    }
}

/// Whether `s` starts with `p`.
pub fn starts_with(s: &str, p: &str) -> (r: bool)
    ensures
        r == has_prefix(s@, p@),
{
    is_at(&chars_of(s), &chars_of(p), 0)
}

/// Whether `s` ends with `p`.
pub fn ends_with(s: &str, p: &str) -> (r: bool)
    ensures
        r == has_suffix(s@, p@),
{
    let v = chars_of(s);
    let q = chars_of(p);
    if q.len() > v.len() {
        return false;
    }
    is_at(&v, &q, v.len() - q.len())
}

/// The pieces of `s`, from position `from` on, between the occurrences of `d`.
pub open spec fn split_from(s: Seq<char>, d: Seq<char>, from: int) -> Seq<Seq<char>>
    decreases s.len() + 1 - from,
{
    match find_from(s, d, from) {
        Some(i) => if d.len() > 0 && from <= i && i + d.len() <= s.len() {
            seq![s.subrange(from, i)] + split_from(s, d, i + d.len())
        } else {
            seq![s.subrange(from, s.len() as int)]
        },
        None => seq![s.subrange(from, s.len() as int)],
    }
}

/// The pieces of `s` between the occurrences of `d`.
pub open spec fn split(s: Seq<char>, d: Seq<char>) -> Seq<Seq<char>> {
    split_from(s, d, 0)
}

/// What is found behind `x` is what is found in the text that follows it.
pub proof fn lemma_find_behind(x: Seq<char>, s: Seq<char>, p: Seq<char>, from: int)
    requires
        0 <= from,
    ensures
        find_from(x + s, p, x.len() + from) == match find_from(s, p, from) {
            Some(i) => Some(x.len() + i),
            None => None,
        },
    decreases s.len() + 1 - from,
{
    if from + p.len() <= s.len() {
        assert((x + s).subrange(x.len() + from, x.len() + from + p.len()) =~= s.subrange(
            from,
            from + p.len(),
        ));
        if !occurs_at(s, p, from) {
            lemma_find_behind(x, s, p, from + 1);
        }
    }
}

/// The pieces of what stands behind `x` are the pieces of the text that follows it.
pub proof fn lemma_split_behind(x: Seq<char>, s: Seq<char>, d: Seq<char>, from: int)
    requires
        0 <= from <= s.len(),
    ensures
        split_from(x + s, d, x.len() + from) == split_from(s, d, from),
    decreases s.len() + 1 - from,
{
    lemma_find_behind(x, s, d, from);
    assert((x + s).subrange(x.len() + from, (x + s).len() as int) =~= s.subrange(
        from,
        s.len() as int,
    ));
    match find_from(s, d, from) {
        Some(i) => if d.len() > 0 && from <= i && i + d.len() <= s.len() {
            assert((x + s).subrange(x.len() + from, x.len() + i) =~= s.subrange(from, i));
            lemma_split_behind(x, s, d, i + d.len());
        },
        None => {},
    }
}

/// The first piece of a text ends where the delimiter first stands, and the others are
/// the pieces of what follows.
pub proof fn lemma_split_first(a: Seq<char>, d: Seq<char>, b: Seq<char>)
    requires
        d.len() > 0,
        forall|i: int| 0 <= i < a.len() ==> !occurs_at(a + d + b, d, i),
    ensures
        split(a + d + b, d) == seq![a] + split(b, d),
{
    let s = a + d + b;
    lemma_find_from(s, d, 0);
    assert(s.subrange(a.len() as int, (a.len() + d.len()) as int) =~= d);
    assert(occurs_at(s, d, a.len() as int));
    assert(find_from(s, d, 0) == Some(a.len() as int));
    assert(s.subrange(0, a.len() as int) =~= a);
    lemma_split_behind(a + d, b, d, 0);
}

/// A text that does not hold the delimiter is one piece.
pub proof fn lemma_split_none(a: Seq<char>, d: Seq<char>)
    requires
        !contains(a, d),
    ensures
        split(a, d) == seq![a],
{
    lemma_find_from(a, d, 0);
    if let Some(i) = find_from(a, d, 0) {
        assert(occurs_at(a, d, i));
    }
    assert(a.subrange(0, a.len() as int) =~= a);
}

/// The pieces of `s` between the occurrences of `d`.
pub fn split_text(s: &str, d: &str) -> (r: Vec<String>)
    requires
        d@.len() > 0,
    ensures
        seqs::views(r@) == split(s@, d@),
        r@.len() > 0,
{
    broadcast use crate::seqs::group_views;

    let v = chars_of(s);
    let q = chars_of(d);
    let mut out: Vec<String> = Vec::new();
    let mut from: usize = 0;
    let n: usize = v.len();
    loop
        invariant_except_break
            0 <= from <= n,
            split(s@, d@) == seqs::views(out@) + split_from(s@, d@, from as int),
        invariant
            v@ == s@,
            q@ == d@,
            d@.len() > 0,
            n == v@.len(),
        ensures
            seqs::views(out@) == split(s@, d@),
            out@.len() > 0,
        decreases v@.len() - from,
    {
        match find_chars(&v, &q, from) {
            Some(i) => {
                let piece = text_of(&v, from, i);
                let ghost before = seqs::views(out@);
                out.push(piece);
                assert(seqs::views(out@) + split_from(s@, d@, i + d@.len()) =~= before + (seq![
                    s@.subrange(from as int, i as int),
                ] + split_from(s@, d@, i + d@.len())));
                from = i + q.len();
            },
            None => {
                let piece = text_of(&v, from, v.len());
                let ghost before = seqs::views(out@);
                out.push(piece);
                assert(seqs::views(out@) =~= before + seq![s@.subrange(from as int, s@.len() as int)]);
                break;
            },
        }
    }
    out
}

/// `s`, from position `from` on, with each occurrence of `p` replaced by `t`.
pub open spec fn replaced_from(s: Seq<char>, p: Seq<char>, t: Seq<char>, from: int) -> Seq<char>
    decreases s.len() + 1 - from,
{
    match find_from(s, p, from) {
        Some(i) => if p.len() > 0 && from <= i && i + p.len() <= s.len() {
            s.subrange(from, i) + t + replaced_from(s, p, t, i + p.len())
        } else {
            s.subrange(from, s.len() as int)
        },
        None => s.subrange(from, s.len() as int),
    }
}

/// `s` with each occurrence of `p`, from the left, replaced by `t`.
pub open spec fn replaced(s: Seq<char>, p: Seq<char>, t: Seq<char>) -> Seq<char> {
    replaced_from(s, p, t, 0)
}

/// `s` with each occurrence of `p`, from the left, replaced by `t`.
pub fn replace(s: &str, p: &str, t: &str) -> (r: String)
    requires
        p@.len() > 0,
    ensures
        r@ == replaced(s@, p@, t@),
{
    let v = chars_of(s);
    let q = chars_of(p);
    let mut out = String::new();
    let mut from: usize = 0;
    let n: usize = v.len();
    loop
        invariant_except_break
            0 <= from <= n,
            replaced(s@, p@, t@) == out@ + replaced_from(s@, p@, t@, from as int),
        invariant
            v@ == s@,
            q@ == p@,
            p@.len() > 0,
            n == v@.len(),
        ensures
            out@ == replaced(s@, p@, t@),
        decreases v@.len() - from,
    {
        match find_chars(&v, &q, from) {
            Some(i) => {
                let ghost before = out@;
                let piece = text_of(&v, from, i);
                out.append(piece.as_str());
                out.append(t);
                assert(out@ + replaced_from(s@, p@, t@, i + p@.len()) =~= before + (s@.subrange(
                    from as int,
                    i as int,
                ) + t@ + replaced_from(s@, p@, t@, i + p@.len())));
                from = i + q.len();
            },
            None => {
                let piece = text_of(&v, from, v.len());
                out.append(piece.as_str());
                break;
            },
        }
    }
    out
}

/// `parts` one after the other, with `sep` between each two.
pub open spec fn joined(parts: Seq<Seq<char>>, sep: Seq<char>) -> Seq<char>
    decreases parts.len(),
{
    if parts.len() == 0 {
        seq![]
    } else if parts.len() == 1 {
        parts[0]
    } else {
        joined(parts.drop_last(), sep) + sep + parts.last()
    }
}

/// `parts` one after the other, with `sep` between each two.
pub fn join(parts: &Vec<String>, sep: &str) -> (r: String)
    ensures
        r@ == joined(seqs::views(parts@), sep@),
{
    broadcast use crate::seqs::group_views;

    let mut out = String::new();
    let mut i: usize = 0;
    while i < parts.len()
        invariant
            i <= parts@.len(),
            out@ == joined(seqs::views(parts@).take(i as int), sep@),
        decreases parts.len() - i,
    {
        assert(seqs::views(parts@).take(i + 1).drop_last() =~= seqs::views(parts@).take(i as int));
        if i > 0 {
            out.append(sep);
        }
        out.append(parts[i].as_str());
        i += 1;
    }
    assert(seqs::views(parts@).take(i as int) =~= seqs::views(parts@));
    out
}

/// The white space around a text is all that trimming takes off it: the text is what is left
/// with white space before and behind it, and what is left neither starts nor ends with any.
pub proof fn law_trimming_takes_off_white_space(s: Seq<char>) -> (r: (int, int))
    ensures
        0 <= r.0 <= r.1 <= s.len(),
        trimmed(s) == s.subrange(r.0, r.1),
        forall|i: int| 0 <= i < r.0 ==> is_white(#[trigger] s[i]),
        forall|i: int| r.1 <= i < s.len() ==> is_white(#[trigger] s[i]),
        trimmed(s).len() > 0 ==> !is_white(trimmed(s)[0]) && !is_white(trimmed(s).last()),
{
    let a = lemma_trimmed_start(s);
    let t = trimmed_start(s);
    let b = lemma_trimmed_end(t);
    let u = trimmed_end(t);
    assert(u =~= s.subrange(a, a + b));
    assert forall|i: int| a + b <= i < s.len() implies is_white(#[trigger] s[i]) by {
        assert(t[i - a] == s[i]);
    }
    if u.len() > 0 {
        assert(u[0] == t[0]);
    }
    (a, a + b)
}

proof fn lemma_trimmed_start(s: Seq<char>) -> (a: int)
    ensures
        0 <= a <= s.len(),
        trimmed_start(s) == s.subrange(a, s.len() as int),
        forall|i: int| 0 <= i < a ==> is_white(#[trigger] s[i]),
        trimmed_start(s).len() > 0 ==> !is_white(trimmed_start(s)[0]),
    decreases s.len(),
{
    if s.len() > 0 && is_white(s[0]) {
        let rest = s.subrange(1, s.len() as int);
        let a = lemma_trimmed_start(rest);
        assert(rest.subrange(a, rest.len() as int) =~= s.subrange(a + 1, s.len() as int));
        assert forall|i: int| 0 <= i < a + 1 implies is_white(#[trigger] s[i]) by {
            if i > 0 {
                assert(rest[i - 1] == s[i]);
            }
        }
        a + 1
    } else {
        assert(s.subrange(0, s.len() as int) =~= s);
        0
    }
}

proof fn lemma_trimmed_end(s: Seq<char>) -> (b: int)
    ensures
        0 <= b <= s.len(),
        trimmed_end(s) == s.subrange(0, b),
        forall|i: int| b <= i < s.len() ==> is_white(#[trigger] s[i]),
        trimmed_end(s).len() > 0 ==> !is_white(trimmed_end(s).last()),
    decreases s.len(),
{
    if s.len() > 0 && is_white(s.last()) {
        let rest = s.drop_last();
        let b = lemma_trimmed_end(rest);
        assert(rest.subrange(0, b) =~= s.subrange(0, b));
        assert forall|i: int| b <= i < s.len() implies is_white(#[trigger] s[i]) by {
            if i < rest.len() {
                assert(rest[i] == s[i]);
            }
        }
        b
    } else {
        assert(s.subrange(0, s.len() as int) =~= s);
        s.len() as int
    }
}

/// Pieces with a delimiter between them are the first, the delimiter and the others.
proof fn lemma_joined_first(a: Seq<char>, rest: Seq<Seq<char>>, d: Seq<char>)
    requires
        rest.len() > 0,
    ensures
        joined(seq![a] + rest, d) == a + d + joined(rest, d),
    decreases rest.len(),
{
    let all = seq![a] + rest;
    assert(all.drop_last() =~= seq![a] + rest.drop_last());
    if rest.len() == 1 {
        assert(all.drop_last() =~= seq![a]);
        assert(joined(seq![a], d) == a);
        assert(all.last() == rest[0]);
        assert(joined(all, d) =~= a + d + rest[0]);
    } else {
        lemma_joined_first(a, rest.drop_last(), d);
        assert(joined(all, d) =~= a + d + joined(rest, d));
    }
}

/// Nothing gets lost where a text is cut: its pieces with the delimiter between them are the
/// text, and no piece holds the delimiter.
pub proof fn law_pieces_make_the_text(s: Seq<char>, d: Seq<char>, k: int)
    requires
        d.len() > 0,
    ensures
        joined(split(s, d), d) == s,
        0 <= k < split(s, d).len() ==> !contains(split(s, d)[k], d),
{
    lemma_pieces_from(s, d, 0, k);
    assert(s.subrange(0, s.len() as int) =~= s);
}

proof fn lemma_pieces_from(s: Seq<char>, d: Seq<char>, from: int, k: int)
    requires
        d.len() > 0,
        0 <= from <= s.len(),
    ensures
        split_from(s, d, from).len() > 0,
        joined(split_from(s, d, from), d) == s.subrange(from, s.len() as int),
        0 <= k < split_from(s, d, from).len() ==> !contains(split_from(s, d, from)[k], d),
    decreases s.len() - from,
{
    lemma_find_from(s, d, from);
    let end = match find_from(s, d, from) {
        Some(i) => i,
        None => s.len() as int,
    };
    let first = s.subrange(from, end);
    if contains(first, d) {
        let j = choose|j: int| occurs_at(first, d, j);
        assert(first.subrange(j, j + d.len()) =~= s.subrange(from + j, from + j + d.len()));
        assert(occurs_at(s, d, from + j));
    }
    if let Some(i) = find_from(s, d, from) {
        let rest = split_from(s, d, i + d.len());
        lemma_pieces_from(s, d, i + d.len(), k - 1);
        lemma_joined_first(first, rest, d);
        assert(s.subrange(from, s.len() as int) =~= first + d + s.subrange(
            i + d.len(),
            s.len() as int,
        ));
        let all = split_from(s, d, from);
        assert(all =~= seq![first] + rest);
        if 0 < k < all.len() {
            assert(all[k] == rest[k - 1]);
        }
    }
}

/// A text that does not hold what is to be replaced stays as it is. What stands before the
/// first place where it is held stays, it gives way to what replaces it, and so on behind
/// it.
pub proof fn law_occurrences_are_replaced(
    a: Seq<char>,
    p: Seq<char>,
    b: Seq<char>,
    t: Seq<char>,
)
    requires
        p.len() > 0,
        !contains(a, p),
        forall|i: int| 0 <= i < a.len() ==> !occurs_at(a + p + b, p, i),
    ensures
        replaced(a, p, t) == a,
        replaced(a + p + b, p, t) == a + t + replaced(b, p, t),
{
    lemma_find_from(a, p, 0);
    if let Some(i) = find_from(a, p, 0) {
        assert(occurs_at(a, p, i));
    }
    assert(a.subrange(0, a.len() as int) =~= a);
    let s = a + p + b;
    lemma_find_from(s, p, 0);
    assert(s.subrange(a.len() as int, (a.len() + p.len()) as int) =~= p);
    assert(occurs_at(s, p, a.len() as int));
    assert(find_from(s, p, 0) == Some(a.len() as int));
    assert(s.subrange(0, a.len() as int) =~= a);
    lemma_replaced_behind(a + p, b, p, t, 0);
}

proof fn lemma_replaced_behind(
    x: Seq<char>,
    s: Seq<char>,
    p: Seq<char>,
    t: Seq<char>,
    from: int,
)
    requires
        0 <= from <= s.len(),
    ensures
        replaced_from(x + s, p, t, x.len() + from) == replaced_from(s, p, t, from),
    decreases s.len() + 1 - from,
{
    lemma_find_behind(x, s, p, from);
    assert((x + s).subrange(x.len() + from, (x + s).len() as int) =~= s.subrange(
        from,
        s.len() as int,
    ));
    match find_from(s, p, from) {
        Some(i) => if p.len() > 0 && from <= i && i + p.len() <= s.len() {
            assert((x + s).subrange(x.len() + from, x.len() + i) =~= s.subrange(from, i));
            lemma_replaced_behind(x, s, p, t, i + p.len());
        },
        None => {},
    }
}

/// Where a text is parted, it is what stands before the delimiter, the delimiter, and what
/// stands behind it; the delimiter stands nowhere earlier. It is not parted where it does
/// not hold the delimiter.
pub proof fn law_parts_make_the_text(s: Seq<char>, d: Seq<char>)
    ensures
        match parted(s, d) {
            Some((a, b)) => s == a + d + b && (forall|i: int|
                0 <= i < a.len() ==> !occurs_at(s, d, i)),
            None => !contains(s, d),
        },
{
    lemma_find_from(s, d, 0);
    if let Some(i) = find_from(s, d, 0) {
        assert(s =~= s.take(i) + d + s.skip(i + d.len())) by {
            assert(s.subrange(i, i + d.len()) == d);
            assert(s =~= s.take(i) + s.subrange(i, i + d.len()) + s.skip(i + d.len()));
        }
    } else {
        assert forall|i: int| !occurs_at(s, d, i) by {}
    }
}

/// What `str::to_lowercase` gives for a text.
pub uninterp spec fn lower(s: Seq<char>) -> Seq<char>;

/// What `str::to_uppercase` gives for a text.
pub uninterp spec fn upper(s: Seq<char>) -> Seq<char>;

/// What `char::to_lowercase` gives for a character, as the characters it yields.
pub uninterp spec fn lower_char(c: char) -> Seq<char>;

/// What `char::to_uppercase` gives for a character, as the characters it yields.
pub uninterp spec fn upper_char(c: char) -> Seq<char>;

/// What `Debug` writes for a text: the text in double quotes, with what cannot stand
/// there escaped.
pub uninterp spec fn quoted(s: Seq<char>) -> Seq<char>;

/// The `Debug` of `str`: `s` in double quotes and escaped, which depends on `s` alone.
#[verifier::external_body]
pub(crate) fn quote(s: &str) -> (r: String)
    ensures
        r@ == quoted(s@),
{
    format!("{:?}", s)
}

/// `str::to_lowercase`: the Unicode lowercase equivalent of `s`, which depends
/// on `s` alone.
#[verifier::external_body]
pub(crate) fn to_lower(s: &str) -> (r: String)
    ensures
        r@ == lower(s@),
{
    s.to_lowercase()
}

/// `str::to_uppercase`: the Unicode uppercase equivalent of `s`, which depends
/// on `s` alone.
#[verifier::external_body]
pub(crate) fn to_upper(s: &str) -> (r: String)
    ensures
        r@ == upper(s@),
{
    s.to_uppercase()
}

/// `char::to_lowercase`: the characters that `c` becomes in lower case, which
/// depend on `c` alone.
#[verifier::external_body]
pub(crate) fn to_lower_char(c: char) -> (r: String)
    ensures
        r@ == lower_char(c),
{
    c.to_lowercase().collect()
}

/// `char::to_uppercase`: the characters that `c` becomes in upper case, which
/// depend on `c` alone.
#[verifier::external_body]
pub(crate) fn to_upper_char(c: char) -> (r: String)
    ensures
        r@ == upper_char(c),
{
    c.to_uppercase().collect()
}

/// `c`, in lower case where it is an ASCII letter.
pub open spec fn ascii_lower(c: char) -> char {
    if 'A' <= c <= 'Z' {
        ((c as u32) + 32) as char
    } else {
        c
    }
}

/// `c`, in upper case where it is an ASCII letter.
pub open spec fn ascii_upper(c: char) -> char {
    if 'a' <= c <= 'z' {
        ((c as u32) - 32) as char
    } else {
        c
    }
}

/// `a` and `b` are the same text but for the case of ASCII letters.
pub open spec fn same_but_ascii_case(a: Seq<char>, b: Seq<char>) -> bool {
    a.len() == b.len() && forall|i: int|
        0 <= i < a.len() ==> ascii_lower(#[trigger] a[i]) == ascii_lower(b[i])
}

/// `c`, in lower case where it is an ASCII letter.
pub fn ascii_lower_char(c: char) -> (r: char)
    ensures
        r == ascii_lower(c),
{
    if 'A' <= c && c <= 'Z' {
        ((c as u8) + 32) as char
    } else {
        c
    }
}

/// `c`, in upper case where it is an ASCII letter.
pub fn ascii_upper_char(c: char) -> (r: char)
    ensures
        r == ascii_upper(c),
{
    if 'a' <= c && c <= 'z' {
        ((c as u8) - 32) as char
    } else {
        c
    }
}

/// Whether `a` and `b` are the same text but for the case of ASCII letters.
pub fn eq_ignore_ascii_case(a: &str, b: &str) -> (r: bool)
    ensures
        r == same_but_ascii_case(a@, b@),
{
    let v = chars_of(a);
    let w = chars_of(b);
    if v.len() != w.len() {
        return false;
    }
    let mut i: usize = 0;
    while i < v.len()
        invariant
            v@ == a@,
            w@ == b@,
            v@.len() == w@.len(),
            i <= v@.len(),
            forall|j: int| 0 <= j < i ==> ascii_lower(#[trigger] a@[j]) == ascii_lower(b@[j]),
        decreases v.len() - i,
    {
        if ascii_lower_char(v[i]) != ascii_lower_char(w[i]) {
            assert(ascii_lower(a@[i as int]) != ascii_lower(b@[i as int]));
            return false;
        }
        i += 1;
    }
    true
}

/// `s` with spaces and dashes turned into underscores.
pub open spec fn underscored(s: Seq<char>) -> Seq<char> {
    s.map_values(|c: char| if c == ' ' || c == '-' { '_' } else { c })
}

/// `s` with spaces and dashes turned into underscores.
pub fn underscore(s: &str) -> (r: String)
    ensures
        r@ == underscored(s@),
{
    let v = chars_of(s);
    let mut out = String::new();
    let mut i: usize = 0;
    while i < v.len()
        invariant
            v@ == s@,
            i <= v@.len(),
            out@ == underscored(s@).take(i as int),
        decreases v.len() - i,
    {
        let c = v[i];
        out.push(if c == ' ' || c == '-' { '_' } else { c });
        assert(out@ =~= underscored(s@).take(i + 1));
        i += 1;
    }
    assert(out@ =~= underscored(s@));
    out
}

/// The character that stands for the digit `d`.
pub open spec fn digit_char(d: nat) -> char {
    (48 + d) as u8 as char
}

/// The decimal numeral of `n`.
pub open spec fn decimal(n: nat) -> Seq<char>
    decreases n,
{
    if n < 10 {
        seq![digit_char(n)]
    } else {
        decimal(n / 10).push(digit_char(n % 10))
    }
}

/// The decimal numeral of `n`.
pub fn to_decimal(n: u64) -> (r: String)
    ensures
        r@ == decimal(n as nat),
    decreases n,
{
    if n < 10 {
        let mut s = String::new();
        s.push((48u8 + (n as u8)) as char);
        assert(s@ =~= decimal(n as nat));
        s
    } else {
        let mut s = to_decimal(n / 10);
        s.push((48u8 + ((n % 10) as u8)) as char);
        s
    }
}

/// `s` without the characters of `set` that it starts with.
pub open spec fn stripped_start(s: Seq<char>, set: Seq<char>) -> Seq<char>
    decreases s.len(),
{
    if s.len() > 0 && set.contains(s[0]) {
        stripped_start(s.subrange(1, s.len() as int), set)
    } else {
        s
    }
}

/// `s` without the characters of `set` that it ends with.
pub open spec fn stripped_end(s: Seq<char>, set: Seq<char>) -> Seq<char>
    decreases s.len(),
{
    if s.len() > 0 && set.contains(s.last()) {
        stripped_end(s.drop_last(), set)
    } else {
        s
    }
}

/// `s` without the characters of `set` around it.
pub open spec fn stripped(s: Seq<char>, set: Seq<char>) -> Seq<char> {
    stripped_end(stripped_start(s, set), set)
}

/// Whether `c` is one of the characters of `set`.
pub fn one_of(c: char, set: &Vec<char>) -> (r: bool)
    ensures
        r == set@.contains(c),
{
    let mut i: usize = 0;
    while i < set.len()
        invariant
            i <= set@.len(),
            forall|j: int| 0 <= j < i ==> set@[j] != c,
        decreases set.len() - i,
    {
        if set[i] == c {
            return true;
        }
        i += 1;
    }
    false
}

/// `s` without the characters of `set` that it starts with.
pub fn strip_start(s: &str, set: &str) -> (r: String)
    ensures
        r@ == stripped_start(s@, set@),
{
    let v = chars_of(s);
    let q = chars_of(set);
    let mut from: usize = 0;
    let n: usize = v.len();
    assert(v@.subrange(0, n as int) =~= v@);
    while from < n && one_of(v[from], &q)
        invariant
            q@ == set@,
            0 <= from <= n == v@.len(),
            stripped_start(v@, set@) == stripped_start(v@.subrange(from as int, n as int), set@),
        decreases n - from,
    {
        assert(v@.subrange(from as int, n as int).subrange(1, n - from) =~= v@.subrange(from + 1, n as int));
        from += 1;
    }
    text_of(&v, from, n)
}

/// `s` without the characters of `set` around it.
pub fn strip(s: &str, set: &str) -> (r: String)
    ensures
        r@ == stripped(s@, set@),
{
    let t = strip_start(s, set);
    let v = chars_of(t.as_str());
    let q = chars_of(set);
    let n: usize = v.len();
    let mut to: usize = n;
    assert(v@.subrange(0, n as int) =~= v@);
    while 0 < to && one_of(v[to - 1], &q)
        invariant
            q@ == set@,
            to <= n == v@.len(),
            stripped_end(v@, set@) == stripped_end(v@.subrange(0, to as int), set@),
        decreases to,
    {
        assert(v@.subrange(0, to as int).drop_last() =~= v@.subrange(0, to - 1));
        to -= 1;
    }
    text_of(&v, 0, to)
}

/// The length of the run of characters other than white space at the start of `s`.
pub open spec fn word_len(s: Seq<char>) -> nat
    decreases s.len(),
{
    if s.len() == 0 || is_white(s[0]) {
        0
    } else {
        1 + word_len(s.subrange(1, s.len() as int))
    }
}

/// The maximal runs of characters other than white space in `s`, in order.
pub open spec fn words(s: Seq<char>) -> Seq<Seq<char>>
    decreases s.len(),
{
    if s.len() == 0 {
        seq![]
    } else if is_white(s[0]) {
        words(s.subrange(1, s.len() as int))
    } else {
        let n = word_len(s);
        if n <= s.len() {
            seq![s.take(n as int)] + words(s.skip(n as int))
        } else {
            seq![]
        }
    }
}

/// A run ends within the text, before white space or at the end.
pub proof fn lemma_word_len(s: Seq<char>, n: int)
    requires
        0 <= n <= s.len(),
        forall|i: int| 0 <= i < n ==> !is_white(#[trigger] s[i]),
        n < s.len() ==> is_white(s[n]),
    ensures
        word_len(s) == n,
    decreases n,
{
    if n > 0 {
        let t = s.subrange(1, s.len() as int);
        assert forall|i: int| 0 <= i < n - 1 implies !is_white(#[trigger] t[i]) by {
            assert(t[i] == s[i + 1]);
        }
        if n < s.len() {
            assert(t[n - 1] == s[n]);
        }
        lemma_word_len(t, n - 1);
    }
}

/// The maximal runs of characters other than white space in `s`, in order.
pub fn split_words(s: &str) -> (r: Vec<String>)
    ensures
        seqs::views(r@) == words(s@),
{
    broadcast use crate::seqs::group_views;

    let v = chars_of(s);
    let n: usize = v.len();
    let mut out: Vec<String> = Vec::new();
    let mut i: usize = 0;
    assert(v@.skip(0) =~= v@);
    while i < n
        invariant
            v@ == s@,
            n == v@.len(),
            i <= n,
            words(s@) == seqs::views(out@) + words(v@.skip(i as int)),
        decreases n - i,
    {
        let ghost rest = v@.skip(i as int);
        if is_white_char(v[i]) {
            assert(rest.subrange(1, rest.len() as int) =~= v@.skip(i + 1));
            i += 1;
        } else {
            let start: usize = i;
            i += 1;
            while i < n && !is_white_char(v[i])
                invariant
                    n == v@.len(),
                    start < i <= n,
                    forall|j: int| start <= j < i ==> !is_white(#[trigger] v@[j]),
                decreases n - i,
            {
                i += 1;
            }
            proof {
                assert forall|j: int| 0 <= j < i - start implies !is_white(#[trigger] rest[j]) by {
                    assert(rest[j] == v@[start + j]);
                }
                if i < n {
                    assert(rest[i - start] == v@[i as int]);
                }
                lemma_word_len(rest, i - start);
                assert(rest.take(i - start) =~= v@.subrange(start as int, i as int));
                assert(rest.skip(i - start) =~= v@.skip(i as int));
            }
            let ghost before = seqs::views(out@);
            out.push(text_of(&v, start, i));
            assert(seqs::views(out@) + words(v@.skip(i as int)) =~= before + (seq![rest.take(i - start)]
                + words(v@.skip(i as int))));
        }
    }
    assert(v@.skip(i as int) =~= seq![]);
    assert(seqs::views(out@) + seq![] =~= seqs::views(out@));
    out
}

/// The texts `parts` without the white space around them, but for those that are
/// white space only.
pub open spec fn nonblank(parts: Seq<Seq<char>>) -> Seq<Seq<char>>
    decreases parts.len(),
{
    if parts.len() == 0 {
        seq![]
    } else if trimmed(parts.last()).len() == 0 {
        nonblank(parts.drop_last())
    } else {
        nonblank(parts.drop_last()).push(trimmed(parts.last()))
    }
}

/// The lines of `s` without the white space around them, but for blank ones.
pub open spec fn nonblank_lines(s: Seq<char>) -> Seq<Seq<char>> {
    nonblank(split(s, "\n"@))
}

/// The texts `parts` without the white space around them, but for those that are
/// white space only.
pub fn drop_blank(parts: &Vec<String>) -> (r: Vec<String>)
    ensures
        seqs::views(r@) == nonblank(seqs::views(parts@)),
{
    broadcast use crate::seqs::group_views;

    let mut out: Vec<String> = Vec::new();
    let mut i: usize = 0;
    while i < parts.len()
        invariant
            i <= parts@.len(),
            seqs::views(out@) == nonblank(seqs::views(parts@).take(i as int)),
        decreases parts.len() - i,
    {
        assert(seqs::views(parts@).take(i + 1).drop_last() =~= seqs::views(parts@).take(i as int));
        let t = trim(parts[i].as_str());
        if !t.as_str().is_empty() {
            out.push(t);
        }
        i += 1;
    }
    assert(seqs::views(parts@).take(i as int) =~= seqs::views(parts@));
    out
}

/// The lines of `s` without the white space around them, but for blank ones.
pub fn split_nonblank_lines(s: &str) -> (r: Vec<String>)
    ensures
        seqs::views(r@) == nonblank_lines(s@),
{
    proof {
        reveal_strlit("\n");
    }
    drop_blank(&split_text(s, "\n"))
}

/// The parts of `s` before and behind the first `d` in it.
pub open spec fn parted(s: Seq<char>, d: Seq<char>) -> Option<(Seq<char>, Seq<char>)> {
    match find_from(s, d, 0) {
        Some(i) => Some((s.take(i), s.skip(i + d.len()))),
        None => None,
    }
}

/// The parts of `s` before and behind the first `d` in it.
pub fn split_once(s: &str, d: &str) -> (r: Option<(String, String)>)
    ensures
        match r {
            Some(p) => parted(s@, d@) == Some((p.0@, p.1@)),
            None => parted(s@, d@) is None,
        },
{
    let v = chars_of(s);
    let w = chars_of(d);
    let n: usize = v.len();
    match find_chars(&v, &w, 0) {
        Some(i) => {
            let a = text_of(&v, 0, i);
            let b = text_of(&v, i + w.len(), n);
            assert(a@ =~= s@.take(i as int));
            assert(b@ =~= s@.skip(i + d@.len()));
            Some((a, b))
        },
        None => None,
    }
}

} // verus!
