//! Names in order: the order of texts, sorting, and sets of names.

use vstd::prelude::*;

use crate::{seqs, text};

verus! {

/// `a` comes before `b` in the order of code points, character by character; a
/// text comes before every longer text that starts with it.
pub open spec fn precedes(a: Seq<char>, b: Seq<char>) -> bool
    decreases a.len(),
{
    if b.len() == 0 {
        false
    } else if a.len() == 0 {
        true
    } else if a[0] != b[0] {
        a[0] < b[0]
    } else {
        precedes(a.skip(1), b.skip(1))
    }
}

/// No text comes before itself.
pub proof fn lemma_precedes_irreflexive(a: Seq<char>)
    ensures
        !precedes(a, a),
    decreases a.len(),
{
    if a.len() > 0 {
        lemma_precedes_irreflexive(a.skip(1));
    }
}

/// The order of texts is transitive.
pub proof fn lemma_precedes_transitive(a: Seq<char>, b: Seq<char>, c: Seq<char>)
    requires
        precedes(a, b),
        precedes(b, c),
    ensures
        precedes(a, c),
    decreases a.len(),
{
    if a.len() > 0 && b.len() > 0 && c.len() > 0 && a[0] == b[0] && b[0] == c[0] {
        lemma_precedes_transitive(a.skip(1), b.skip(1), c.skip(1));
    }
}

/// Of two different texts one comes before the other.
pub proof fn lemma_precedes_total(a: Seq<char>, b: Seq<char>)
    ensures
        a == b || precedes(a, b) || precedes(b, a),
    decreases a.len(),
{
    if a.len() > 0 && b.len() > 0 && a[0] == b[0] {
        lemma_precedes_total(a.skip(1), b.skip(1));
        if a.skip(1) == b.skip(1) {
            assert(a =~= seq![a[0]] + a.skip(1));
            assert(b =~= seq![b[0]] + b.skip(1));
        }
    } else if a.len() == 0 && b.len() == 0 {
        assert(a =~= b);
    }
}

/// Whether `a` comes before `b`.
pub fn comes_before(a: &str, b: &str) -> (r: bool)
    ensures
        r == precedes(a@, b@),
{
    let v = text::chars_of(a);
    let w = text::chars_of(b);
    let mut i: usize = 0;
    assert(v@.skip(0) =~= v@);
    assert(w@.skip(0) =~= w@);
    while i < v.len() && i < w.len()
        invariant
            v@ == a@,
            w@ == b@,
            i <= v@.len(),
            i <= w@.len(),
            precedes(a@, b@) == precedes(v@.skip(i as int), w@.skip(i as int)),
        decreases v.len() - i,
    {
        if v[i] != w[i] {
            return v[i] < w[i];
        }
        assert(v@.skip(i as int).skip(1) =~= v@.skip(i + 1));
        assert(w@.skip(i as int).skip(1) =~= w@.skip(i + 1));
        i += 1;
    }
    i < w.len()
}

/// How many names at the start of `s` do not come after `x`.
pub open spec fn rank(s: Seq<Seq<char>>, x: Seq<char>) -> nat
    decreases s.len(),
{
    if s.len() == 0 {
        0
    } else if precedes(x, s[0]) {
        0
    } else {
        1 + rank(s.skip(1), x)
    }
}

/// `s` with `x` put behind the names at its start that do not come after `x`.
pub open spec fn inserted(s: Seq<Seq<char>>, x: Seq<char>) -> Seq<Seq<char>> {
    s.insert(rank(s, x) as int, x)
}

/// The names of `s` in order.
pub open spec fn sorted(s: Seq<Seq<char>>) -> Seq<Seq<char>>
    decreases s.len(),
{
    if s.len() == 0 {
        s
    } else {
        inserted(sorted(s.drop_last()), s.last())
    }
}

/// No name of `s` comes before an earlier one.
pub open spec fn in_order(s: Seq<Seq<char>>) -> bool {
    forall|i: int, j: int| 0 <= i < j < s.len() ==> !precedes(#[trigger] s[j], #[trigger] s[i])
}

/// Of two texts that first differ in one character, the one with the lesser character there
/// precedes the other, whatever follows; and a text precedes a longer one that it starts.
pub proof fn law_the_first_difference_decides(
    p: Seq<char>,
    a: char,
    x: Seq<char>,
    b: char,
    y: Seq<char>,
)
    requires
        a != b,
    ensures
        precedes(p.push(a) + x, p.push(b) + y) <==> a < b,
        precedes(p, p.push(a) + x),
        !precedes(p.push(a) + x, p),
    decreases p.len(),
{
    let s = p.push(a) + x;
    let t = p.push(b) + y;
    if p.len() > 0 {
        let q = p.skip(1);
        assert(s.skip(1) =~= q.push(a) + x);
        assert(t.skip(1) =~= q.push(b) + y);
        assert(s[0] == p[0] && t[0] == p[0]);
        law_the_first_difference_decides(q, a, x, b, y);
    } else {
        assert(s[0] == a && t[0] == b);
    }
}

/// Each name of `s` comes before the later ones.
pub open spec fn strictly_in_order(s: Seq<Seq<char>>) -> bool {
    forall|i: int, j: int| 0 <= i < j < s.len() ==> precedes(#[trigger] s[i], #[trigger] s[j])
}

/// A rank is a position in the sequence or its end, with nothing that comes
/// after `x` before it.
pub proof fn lemma_rank(s: Seq<Seq<char>>, x: Seq<char>)
    ensures
        rank(s, x) <= s.len(),
        forall|i: int| 0 <= i < rank(s, x) ==> !precedes(x, #[trigger] s[i]),
        rank(s, x) < s.len() ==> precedes(x, s[rank(s, x) as int]),
    decreases s.len(),
{
    if s.len() > 0 && !precedes(x, s[0]) {
        lemma_rank(s.skip(1), x);
        assert forall|i: int| 0 <= i < rank(s, x) implies !precedes(x, #[trigger] s[i]) by {
            if i > 0 {
                assert(s.skip(1)[i - 1] == s[i]);
            }
        }
        if rank(s, x) < s.len() {
            assert(s.skip(1)[rank(s, x) - 1] == s[rank(s, x) as int]);
        }
    }
}

/// The first position with nothing after `x` before it is the rank.
pub proof fn lemma_rank_at(s: Seq<Seq<char>>, x: Seq<char>, k: int)
    requires
        0 <= k <= s.len(),
        forall|i: int| 0 <= i < k ==> !precedes(x, #[trigger] s[i]),
        k < s.len() ==> precedes(x, s[k]),
    ensures
        rank(s, x) == k,
    decreases s.len(),
{
    if s.len() > 0 && k > 0 {
        let t = s.skip(1);
        assert forall|i: int| 0 <= i < k - 1 implies !precedes(x, #[trigger] t[i]) by {
            assert(t[i] == s[i + 1]);
        }
        lemma_rank_at(t, x, k - 1);
    }
}

/// Inserting into a sequence in order keeps it in order.
pub proof fn lemma_inserted_in_order(s: Seq<Seq<char>>, x: Seq<char>)
    requires
        in_order(s),
    ensures
        in_order(inserted(s, x)),
{
    lemma_rank(s, x);
    let k = rank(s, x) as int;
    let t = inserted(s, x);
    assert forall|i: int, j: int| 0 <= i < j < t.len() implies !precedes(
        #[trigger] t[j],
        #[trigger] t[i],
    ) by {
        if j == k {
        } else if i == k {
            let y = t[j];
            assert(y == s[j - 1]);
            if precedes(y, x) {
                lemma_precedes_transitive(y, x, s[k]);
                if j - 1 == k {
                    lemma_precedes_irreflexive(s[k]);
                }
            }
        } else {
            let a = if i < k { i } else { i - 1 };
            let b = if j < k { j } else { j - 1 };
            assert(t[i] == s[a] && t[j] == s[b]);
        }
    }
}

/// Sorting puts the names in order and keeps each as often as it occurs.
pub proof fn lemma_sorted(s: Seq<Seq<char>>)
    ensures
        in_order(sorted(s)),
        sorted(s).len() == s.len(),
        sorted(s).to_multiset() == s.to_multiset(),
    decreases s.len(),
{
    broadcast use vstd::seq_lib::group_to_multiset_ensures;

    if s.len() > 0 {
        let t = sorted(s.drop_last());
        lemma_sorted(s.drop_last());
        lemma_inserted_in_order(t, s.last());
        lemma_rank(t, s.last());
        assert(s.drop_last().push(s.last()) =~= s);
        t.to_multiset_ensures();
        vstd::seq_lib::to_multiset_insert(t, rank(t, s.last()) as int, s.last());
        s.drop_last().to_multiset_ensures();
    }
}

/// The names of `s` in order.
pub fn sort(s: Vec<String>) -> (r: Vec<String>)
    ensures
        seqs::views(r@) == sorted(seqs::views(s@)),
{
    broadcast use crate::seqs::group_views;

    let mut out: Vec<String> = Vec::new();
    let mut i: usize = 0;
    while i < s.len()
        invariant
            i <= s@.len(),
            seqs::views(out@) == sorted(seqs::views(s@).take(i as int)),
        decreases s.len() - i,
    {
        let k = rank_of(&out, s[i].as_str());
        let x = s[i].clone();
        assert(seqs::views(s@).take(i + 1).drop_last() =~= seqs::views(s@).take(i as int));
        out.insert(k, x);
        i += 1;
    }
    assert(seqs::views(s@).take(i as int) =~= seqs::views(s@));
    out
}

/// How many names at the start of `s` do not come after `x`.
pub fn rank_of(s: &Vec<String>, x: &str) -> (r: usize)
    ensures
        r == rank(seqs::views(s@), x@),
        r <= s@.len(),
{
    let mut k: usize = 0;
    while k < s.len() && !comes_before(x, s[k].as_str())
        invariant
            k <= s@.len(),
            forall|i: int| 0 <= i < k ==> !precedes(x@, #[trigger] seqs::views(s@)[i]),
        decreases s.len() - k,
    {
        k += 1;
    }
    proof {
        lemma_rank_at(seqs::views(s@), x@, k as int);
    }
    k
}

/// A set of names, kept in order.
pub struct NameSet {
    items: Vec<String>,
}

impl View for NameSet {
    type V = Seq<Seq<char>>;

    /// The names of the set, each once, in order.
    closed spec fn view(&self) -> Seq<Seq<char>> {
        seqs::views(self.items@)
    }
}

/// `s` with `x` in it: `s` itself where it holds `x` already.
pub open spec fn with_name(s: Seq<Seq<char>>, x: Seq<char>) -> Seq<Seq<char>> {
    if s.contains(x) {
        s
    } else {
        inserted(s, x)
    }
}

/// A name with others stands among them, and so does each of those that did.
pub proof fn lemma_with_name_contains(s: Seq<Seq<char>>, x: Seq<char>, y: Seq<char>)
    ensures
        with_name(s, x).contains(y) <==> s.contains(y) || y == x,
{
    let r = rank(s, x) as int;
    lemma_rank_bound(s, x);
    let t = inserted(s, x);
    if !s.contains(x) {
        assert(t[r] == x);
        if s.contains(y) {
            let i = choose|i: int| 0 <= i < s.len() && s[i] == y;
            if i < r {
                assert(t[i] == y);
            } else {
                assert(t[i + 1] == y);
            }
        }
        if t.contains(y) && y != x {
            let i = choose|i: int| 0 <= i < t.len() && t[i] == y;
            if i < r {
                assert(s[i] == y);
            } else {
                assert(s[i - 1] == y);
            }
        }
    }
}

proof fn lemma_rank_bound(s: Seq<Seq<char>>, x: Seq<char>)
    ensures
        rank(s, x) <= s.len(),
    decreases s.len(),
{
    if s.len() > 0 {
        lemma_rank_bound(s.skip(1), x);
    }
}

/// `s` with each of the names `xs` in it.
pub open spec fn with_names(s: Seq<Seq<char>>, xs: Seq<Seq<char>>) -> Seq<Seq<char>>
    decreases xs.len(),
{
    if xs.len() == 0 {
        s
    } else {
        with_name(with_names(s, xs.drop_last()), xs.last())
    }
}

/// Adding a name to a set keeps its names in order, each once, and adds no other.
pub proof fn lemma_with_name(s: Seq<Seq<char>>, x: Seq<char>)
    requires
        strictly_in_order(s),
    ensures
        strictly_in_order(with_name(s, x)),
        with_name(s, x).to_set() == s.to_set().insert(x),
{
    let t = with_name(s, x);
    if !s.contains(x) {
        lemma_rank(s, x);
        let k = rank(s, x) as int;
        assert forall|i: int, j: int| 0 <= i < j < t.len() implies precedes(
            #[trigger] t[i],
            #[trigger] t[j],
        ) by {
            if j == k {
                assert(t[i] == s[i]);
                assert(s.contains(s[i]));
                lemma_precedes_total(s[i], x);
            } else if i == k {
                assert(t[j] == s[j - 1]);
                if j - 1 > k {
                    lemma_precedes_transitive(x, s[k], s[j - 1]);
                }
            } else {
                let a = if i < k { i } else { i - 1 };
                let b = if j < k { j } else { j - 1 };
                assert(t[i] == s[a] && t[j] == s[b]);
            }
        }
        assert forall|y: Seq<char>| t.to_set().contains(y) == s.to_set().insert(x).contains(y) by {
            if t.contains(y) {
                let i = choose|i: int| 0 <= i < t.len() && t[i] == y;
                if i != k {
                    let a = if i < k { i } else { i - 1 };
                    assert(s[a] == y);
                }
            }
            if s.contains(y) {
                let i = choose|i: int| 0 <= i < s.len() && s[i] == y;
                let a = if i < k { i } else { i + 1 };
                assert(t[a] == y);
            }
            if y == x {
                assert(t[k] == x);
            }
        }
        assert(t.to_set() =~= s.to_set().insert(x));
    } else {
        assert(t.to_set() =~= s.to_set().insert(x));
    }
}

/// Adding names to a set keeps its names in order, each once, and adds no others.
pub proof fn lemma_with_names(s: Seq<Seq<char>>, xs: Seq<Seq<char>>)
    requires
        strictly_in_order(s),
    ensures
        strictly_in_order(with_names(s, xs)),
        forall|y: Seq<char>| #[trigger]
            with_names(s, xs).contains(y) <==> s.contains(y) || xs.contains(y),
    decreases xs.len(),
{
    if xs.len() > 0 {
        let before = xs.drop_last();
        lemma_with_names(s, before);
        let t = with_names(s, before);
        lemma_with_name(t, xs.last());
        let all = with_names(s, xs);
        assert forall|y: Seq<char>| #[trigger] all.contains(y) <==> s.contains(y) || xs.contains(
            y,
        ) by {
            assert(all.to_set().contains(y) <==> t.to_set().insert(xs.last()).contains(y));
            if xs.contains(y) {
                let i = choose|i: int| 0 <= i < xs.len() && xs[i] == y;
                if i < before.len() {
                    assert(before[i] == y);
                }
            }
            if before.contains(y) {
                let i = choose|i: int| 0 <= i < before.len() && before[i] == y;
                assert(xs[i] == y);
            }
            assert(xs[xs.len() - 1] == xs.last());
        }
    }
}

impl NameSet {
    /// The names are in order, each once.
    #[verifier::type_invariant]
    spec fn wf(self) -> bool {
        strictly_in_order(seqs::views(self.items@))
    }

    /// The empty set.
    pub fn new() -> (r: NameSet)
        ensures
            r@.len() == 0,
    {
        NameSet { items: Vec::new() }
    }

    /// How many names the set holds.
    pub fn len(&self) -> (r: usize)
        ensures
            r == self@.len(),
    {
        self.items.len()
    }

    /// Whether the set is empty.
    pub fn is_empty(&self) -> (r: bool)
        ensures
            r == (self@.len() == 0),
    {
        self.items.len() == 0
    }

    /// Whether the set holds `x`.
    pub fn contains(&self, x: &str) -> (r: bool)
        ensures
            r == self@.contains(x@),
    {
        let mut i: usize = 0;
        while i < self.items.len()
            invariant
                i <= self.items@.len(),
                forall|j: int| 0 <= j < i ==> #[trigger] self@[j] != x@,
            decreases self.items.len() - i,
        {
            if text::same(self.items[i].as_str(), x) {
                assert(self@[i as int] == x@);
                return true;
            }
            i += 1;
        }
        false
    }

    /// Put `x` into the set.
    pub fn insert(&mut self, x: String)
        ensures
            final(self)@ == with_name(old(self)@, x@),
    {
        broadcast use crate::seqs::group_views;

        proof {
            use_type_invariant(&*self);
            lemma_with_name(self@, x@);
        }
        if !self.contains(x.as_str()) {
            let mut items: Vec<String> = Vec::new();
            core::mem::swap(&mut items, &mut self.items);
            let k = rank_of(&items, x.as_str());
            items.insert(k, x);
            self.items = items;
        }
    }

    /// Put each name of `other` into the set.
    pub fn extend(&mut self, other: &NameSet)
        ensures
            final(self)@ == with_names(old(self)@, other@),
    {
        let mut i: usize = 0;
        while i < other.items.len()
            invariant
                i <= other.items@.len(),
                self@ == with_names(old(self)@, other@.take(i as int)),
            decreases other.items.len() - i,
        {
            let x = other.items[i].clone();
            assert(other@.take(i + 1).drop_last() =~= other@.take(i as int));
            assert(other@.take(i + 1).last() == x@);
            self.insert(x);
            i += 1;
        }
        assert(other@.take(i as int) =~= other@);
    }

    /// The names of the set, in order.
    pub fn to_vec(&self) -> (r: Vec<String>)
        ensures
            seqs::views(r@) == self@,
            strictly_in_order(self@),
    {
        proof {
            use_type_invariant(self);
        }
        clone_names(&self.items)
    }

    /// A set with the same names.
    pub fn copy(&self) -> (r: NameSet)
        ensures
            r@ == self@,
    {
        proof {
            use_type_invariant(self);
        }
        NameSet { items: clone_names(&self.items) }
    }
}

/// The same names in the same order.
pub fn clone_names(s: &Vec<String>) -> (r: Vec<String>)
    ensures
        seqs::views(r@) == seqs::views(s@),
{
    broadcast use crate::seqs::group_views;

    let mut out: Vec<String> = Vec::new();
    let mut i: usize = 0;
    while i < s.len()
        invariant
            i <= s@.len(),
            seqs::views(out@) == seqs::views(s@).take(i as int),
        decreases s.len() - i,
    {
        let x = s[i].clone();
        out.push(x);
        assert(seqs::views(s@).take(i + 1) =~= seqs::views(s@).take(i as int).push(x@));
        i += 1;
    }
    assert(seqs::views(s@).take(i as int) =~= seqs::views(s@));
    out
}

/// Whether `s` holds `x`.
pub fn holds(s: &Vec<String>, x: &str) -> (r: bool)
    ensures
        r == seqs::views(s@).contains(x@),
{
    let mut i: usize = 0;
    while i < s.len()
        invariant
            i <= s@.len(),
            forall|j: int| 0 <= j < i ==> #[trigger] seqs::views(s@)[j] != x@,
        decreases s.len() - i,
    {
        if text::same(s[i].as_str(), x) {
            assert(seqs::views(s@)[i as int] == x@);
            return true;
        }
        i += 1;
    }
    false
}

} // verus!
