//! Tables from names to values that keep the order in which names came in.

use vstd::prelude::*;

use crate::text::same;

verus! {

/// Values that can be copied without changing what they stand for.
pub trait Dup: View + Sized {
    /// A value that stands for the same.
    fn dup(&self) -> (r: Self)
        ensures
            r@ == self@,
    ;
}

impl Dup for String {
    fn dup(&self) -> (r: String) {
        self.clone()
    }
}

/// Where the name `k` first stands in `s`.
pub open spec fn position<T>(s: Seq<(Seq<char>, T)>, k: Seq<char>) -> Option<int>
    decreases s.len(),
{
    if s.len() == 0 {
        None
    } else if position(s.drop_last(), k) is Some {
        position(s.drop_last(), k)
    } else if s.last().0 == k {
        Some(s.len() - 1)
    } else {
        None
    }
}

/// Some entry of `s` has the name `k`.
pub open spec fn has_key<T>(s: Seq<(Seq<char>, T)>, k: Seq<char>) -> bool {
    position(s, k) is Some
}

/// The value that `s` holds under the name `k`.
pub open spec fn lookup<T>(s: Seq<(Seq<char>, T)>, k: Seq<char>) -> Option<T> {
    match position(s, k) {
        Some(i) => Some(s[i].1),
        None => None,
    }
}

/// `s` with `v` under the name `k`: in the place that `k` has, or at the end.
pub open spec fn put<T>(s: Seq<(Seq<char>, T)>, k: Seq<char>, v: T) -> Seq<(Seq<char>, T)> {
    match position(s, k) {
        Some(i) => s.update(i, (k, v)),
        None => s.push((k, v)),
    }
}

/// No two entries of `s` have the same name.
pub open spec fn distinct_keys<T>(s: Seq<(Seq<char>, T)>) -> bool {
    forall|i: int, j: int| 0 <= i < j < s.len() ==> (#[trigger] s[i]).0 != (#[trigger] s[j]).0
}

/// A position holds the name, and no earlier one does.
pub proof fn lemma_position<T>(s: Seq<(Seq<char>, T)>, k: Seq<char>)
    ensures
        match position(s, k) {
            Some(i) => 0 <= i < s.len() && s[i].0 == k && (forall|j: int|
                0 <= j < i ==> (#[trigger] s[j]).0 != k),
            None => forall|j: int| 0 <= j < s.len() ==> (#[trigger] s[j]).0 != k,
        },
    decreases s.len(),
{
    if s.len() > 0 {
        lemma_position(s.drop_last(), k);
        assert forall|j: int| 0 <= j < s.len() - 1 implies s[j] == #[trigger] s.drop_last()[j] by {}
        if position(s.drop_last(), k) is None {
            assert forall|j: int| 0 <= j < s.len() - 1 implies (#[trigger] s[j]).0 != k by {
                assert(s.drop_last()[j].0 != k);
            }
        } else {
            let i = position(s.drop_last(), k)->0;
            assert forall|j: int| 0 <= j < i implies (#[trigger] s[j]).0 != k by {
                assert(s.drop_last()[j].0 != k);
            }
        }
    }
}

/// The first entry with a name is at the position of that name.
pub proof fn lemma_position_at<T>(s: Seq<(Seq<char>, T)>, k: Seq<char>, i: int)
    requires
        0 <= i < s.len(),
        s[i].0 == k,
        forall|j: int| 0 <= j < i ==> (#[trigger] s[j]).0 != k,
    ensures
        position(s, k) == Some(i),
{
    lemma_position(s, k);
}

/// Putting a value under a name keeps the names distinct.
pub proof fn lemma_put_distinct<T>(s: Seq<(Seq<char>, T)>, k: Seq<char>, v: T)
    requires
        distinct_keys(s),
    ensures
        distinct_keys(put(s, k, v)),
{
    lemma_position(s, k);
}

/// A name gives back the value last put under it, and every other name what it
/// gave before.
pub proof fn lemma_lookup_put<T>(s: Seq<(Seq<char>, T)>, k: Seq<char>, v: T, other: Seq<char>)
    ensures
        lookup(put(s, k, v), k) == Some(v),
        other != k ==> lookup(put(s, k, v), other) == lookup(s, other),
        has_key(put(s, k, v), other) == (other == k || has_key(s, other)),
{
    let t = put(s, k, v);
    lemma_position(s, k);
    lemma_position(s, other);
    lemma_position(t, k);
    lemma_position(t, other);
    match position(s, k) {
        Some(i) => {
            assert(t[i].0 == k);
            assert forall|j: int| 0 <= j < s.len() implies (#[trigger] t[j]).0 == s[j].0 by {}
            lemma_position_at(t, k, i);
            match position(s, other) {
                Some(j) => {
                    lemma_position_at(t, other, j);
                },
                None => {},
            }
        },
        None => {
            lemma_position_at(t, k, s.len() as int);
            match position(s, other) {
                Some(j) => {
                    lemma_position_at(t, other, j);
                },
                None => {},
            }
        },
    }
}

/// The names of `s` in order.
pub open spec fn keys<T>(s: Seq<(Seq<char>, T)>) -> Seq<Seq<char>> {
    s.map_values(|e: (Seq<char>, T)| e.0)
}

/// A name that stands in a rearrangement of the names of `s` is a name of `s`.
pub proof fn lemma_key_looked_up<T>(s: Seq<(Seq<char>, T)>, names: Seq<Seq<char>>, i: int)
    requires
        names.to_multiset() == keys(s).to_multiset(),
        0 <= i < names.len(),
    ensures
        has_key(s, names[i]),
        lookup(s, names[i]) is Some,
{
    names.to_multiset_ensures();
    keys(s).to_multiset_ensures();
    assert(names.to_multiset().count(names[i]) > 0);
    assert(keys(s).to_multiset().count(names[i]) > 0);
    assert(keys(s).contains(names[i]));
    let k = choose|k: int| 0 <= k < keys(s).len() && keys(s)[k] == names[i];
    assert(s[k].0 == names[i]);
    lemma_position(s, names[i]);
}

/// `s` with each of the entries `es` put in.
pub open spec fn put_all<T>(s: Seq<(Seq<char>, T)>, es: Seq<(Seq<char>, T)>) -> Seq<(Seq<char>, T)>
    decreases es.len(),
{
    if es.len() == 0 {
        s
    } else {
        put(put_all(s, es.drop_last()), es.last().0, es.last().1)
    }
}

/// A name that stands among entries with distinct names gives what it gives there, and
/// every other name what it gave before.
pub proof fn lemma_lookup_put_all<T>(
    s: Seq<(Seq<char>, T)>,
    es: Seq<(Seq<char>, T)>,
    k: Seq<char>,
)
    requires
        distinct_keys(es),
    ensures
        lookup(put_all(s, es), k) == if has_key(es, k) {
            lookup(es, k)
        } else {
            lookup(s, k)
        },
    decreases es.len(),
{
    if es.len() > 0 {
        let before = es.drop_last();
        assert forall|a: int, b: int| 0 <= a < b < before.len() implies (#[trigger] before[a]).0
            != (#[trigger] before[b]).0 by {
            assert(es[a].0 != es[b].0);
        }
        lemma_lookup_put_all(s, before, k);
        lemma_lookup_put(put_all(s, before), es.last().0, es.last().1, k);
        lemma_position(before, k);
        lemma_position(es, k);
        if has_key(before, k) {
            let i = position(before, k)->0;
            assert(es[i] == before[i]);
            assert(es[i].0 != es[es.len() - 1].0);
        }
    }
}

/// Entries with distinct names, put into an empty table one after the other, are
/// the table.
pub proof fn lemma_put_all_distinct<T>(es: Seq<(Seq<char>, T)>)
    requires
        distinct_keys(es),
    ensures
        put_all(Seq::empty(), es) == es,
    decreases es.len(),
{
    if es.len() > 0 {
        let d = es.drop_last();
        assert forall|i: int, j: int| 0 <= i < j < d.len() implies (#[trigger] d[i]).0 != (
        #[trigger] d[j]).0 by {
            assert(d[i] == es[i] && d[j] == es[j]);
        }
        lemma_put_all_distinct(d);
        lemma_position(d, es.last().0);
        if position(d, es.last().0) is Some {
            let i = position(d, es.last().0)->0;
            assert(es[i].0 == es[es.len() - 1].0);
        }
        assert(d.push(es.last()) =~= es);
    } else {
        assert(es =~= Seq::empty());
    }
}

/// The views of the names and values of `s`.
spec fn pairs<V: Dup>(s: Seq<(String, V)>) -> Seq<(Seq<char>, V::V)> {
    Seq::new(s.len(), |i: int| (s[i].0@, s[i].1@))
}

/// A table from names to values, in the order in which the names came in.
pub struct Table<V: Dup> {
    entries: Vec<(String, V)>,
}

impl<V: Dup> View for Table<V> {
    type V = Seq<(Seq<char>, V::V)>;

    closed spec fn view(&self) -> Seq<(Seq<char>, V::V)> {
        pairs(self.entries@)
    }
}

impl<V: Dup> Table<V> {
    /// No name stands twice.
    #[verifier::type_invariant]
    spec fn wf(self) -> bool {
        distinct_keys(self@)
    }

    /// The empty table.
    pub fn new() -> (r: Table<V>)
        ensures
            r@ == Seq::<(Seq<char>, V::V)>::empty(),
    {
        let r = Table { entries: Vec::new() };
        assert(r@ =~= Seq::<(Seq<char>, V::V)>::empty());
        r
    }

    /// How many names the table holds; no name stands twice.
    pub fn len(&self) -> (r: usize)
        ensures
            r == self@.len(),
            distinct_keys(self@),
    {
        proof {
            use_type_invariant(self);
        }
        self.entries.len()
    }

    /// Whether the table is empty.
    pub fn is_empty(&self) -> (r: bool)
        ensures
            r == (self@.len() == 0),
    {
        self.entries.len() == 0
    }

    /// Where `k` stands in the table.
    pub fn index_of(&self, k: &str) -> (r: Option<usize>)
        ensures
            match r {
                Some(i) => position(self@, k@) == Some(i as int) && i < self@.len(),
                None => position(self@, k@) is None,
            },
    {
        let mut i: usize = 0;
        while i < self.entries.len()
            invariant
                i <= self.entries@.len(),
                forall|j: int| 0 <= j < i ==> (#[trigger] self@[j]).0 != k@,
            decreases self.entries.len() - i,
        {
            if same(self.entries[i].0.as_str(), k) {
                assert(self@[i as int].0 == k@);
                proof {
                    lemma_position_at(self@, k@, i as int);
                }
                return Some(i);
            }
            i += 1;
        }
        proof {
            lemma_position(self@, k@);
        }
        None
    }

    /// Whether the table holds `k`.
    pub fn contains_key(&self, k: &str) -> (r: bool)
        ensures
            r == has_key(self@, k@),
    {
        self.index_of(k).is_some()
    }

    /// The value under `k`.
    pub fn get(&self, k: &str) -> (r: Option<&V>)
        ensures
            match r {
                Some(v) => lookup(self@, k@) == Some(v@),
                None => lookup(self@, k@) is None,
            },
    {
        match self.index_of(k) {
            Some(i) => Some(&self.entries[i].1),
            None => None,
        }
    }

    /// The name at position `i`.
    pub fn key_at(&self, i: usize) -> (r: &String)
        requires
            i < self@.len(),
        ensures
            r@ == self@[i as int].0,
    {
        &self.entries[i].0
    }

    /// The value at position `i`.
    pub fn value_at(&self, i: usize) -> (r: &V)
        requires
            i < self@.len(),
        ensures
            r@ == self@[i as int].1,
    {
        &self.entries[i].1
    }

    /// Put `v` at position `i`, under the name that stands there.
    pub fn set_at(&mut self, i: usize, v: V)
        requires
            i < old(self)@.len(),
        ensures
            final(self)@ == old(self)@.update(i as int, (old(self)@[i as int].0, v@)),
    {
        proof {
            use_type_invariant(&*self);
        }
        let mut entries: Vec<(String, V)> = Vec::new();
        core::mem::swap(&mut entries, &mut self.entries);
        let k = entries[i].0.clone();
        entries.set(i, (k, v));
        assert(pairs(entries@) =~= old(self)@.update(i as int, (old(self)@[i as int].0, v@)));
        self.entries = entries;
    }

    /// Put `v` under the name `k`: in the place that `k` has, or at the end.
    pub fn insert(&mut self, k: String, v: V)
        ensures
            final(self)@ == put(old(self)@, k@, v@),
    {
        match self.index_of(k.as_str()) {
            Some(i) => {
                proof {
                    lemma_position(self@, k@);
                }
                self.set_at(i, v);
            },
            None => {
                proof {
                    use_type_invariant(&*self);
                    lemma_put_distinct(self@, k@, v@);
                }
                let mut entries: Vec<(String, V)> = Vec::new();
                core::mem::swap(&mut entries, &mut self.entries);
                entries.push((k, v));
                assert(pairs(entries@) =~= old(self)@.push((k@, v@)));
                self.entries = entries;
            },
        }
    }
}

impl<V: Dup> Dup for Table<V> {
    fn dup(&self) -> (r: Table<V>) {
        let mut entries: Vec<(String, V)> = Vec::new();
        let mut i: usize = 0;
        while i < self.entries.len()
            invariant
                i <= self.entries@.len(),
                entries@.len() == i,
                forall|j: int|
                    0 <= j < i ==> (#[trigger] entries@[j]).0@ == self@[j].0 && entries@[j].1@
                        == self@[j].1,
            decreases self.entries.len() - i,
        {
            let k = self.entries[i].0.clone();
            let v = self.entries[i].1.dup();
            entries.push((k, v));
            i += 1;
        }
        proof {
            use_type_invariant(self);
        }
        assert(pairs(entries@) =~= self@);
        Table { entries }
    }
}

} // verus!
