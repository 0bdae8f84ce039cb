//! Communities of entities: the graph that a detector is given, and how what it
//! finds is written down.
//!
//! A detector works on nodes by number. [`to_community_graph`] numbers the entities,
//! and [`partition_json`] turns the numbers back into ids. A language model can be
//! asked for a report on each community; [`summary_requests`] writes the questions
//! and [`summaries_from_replies`] reads the answers.

use vstd::prelude::*;

use crate::json::{Json, JsonV, ObjectBuilder};
use crate::table::Table;
use crate::types::graph::{Entity, EntityV, GraphV, KnowledgeGraph, Triple, TripleV};
use crate::{json, names, seqs, table, text};

verus! {

broadcast use {crate::seqs::group_views, crate::json::group_json};

/// Nodes by number, and edges of weight one between them. Two nodes can have several
/// edges, which count together.
pub struct CommunityGraph {
    pub num_nodes: usize,
    pub edges: Vec<(usize, usize)>,
}

/// The edge of a relationship: the places of its two ends among the entities, where
/// both are entities and they are not the same.
pub open spec fn edge_of(es: Seq<(Seq<char>, EntityV)>, t: TripleV) -> Option<(int, int)> {
    match (table::position(es, t.subject.id), table::position(es, t.object.id)) {
        (Some(s), Some(o)) => if s != o {
            Some((s, o))
        } else {
            None
        },
        _ => None,
    }
}

/// Each relationship between two entities that are known, but for the same, is one edge, behind those before
/// it, from the place of its subject to that of its object; another one is none.
pub proof fn law_each_relationship_is_one_edge(
    es: Seq<(Seq<char>, EntityV)>,
    ts: Seq<TripleV>,
    t: TripleV,
)
    ensures
        ({
            let before = edges_of(es, ts);
            let after = edges_of(es, ts.push(t));
            if table::has_key(es, t.subject.id) && table::has_key(es, t.object.id) && t.subject.id
                != t.object.id {
                &&& after.len() == before.len() + 1
                &&& after.drop_last() == before
                &&& 0 <= after.last().0 < es.len() && es[after.last().0].0 == t.subject.id
                &&& 0 <= after.last().1 < es.len() && es[after.last().1].0 == t.object.id
            } else {
                after == before
            }
        }),
{
    assert(ts.push(t).drop_last() =~= ts);
    table::lemma_position(es, t.subject.id);
    table::lemma_position(es, t.object.id);
    if let Some(e) = edge_of(es, t) {
        assert(edges_of(es, ts).push(e).drop_last() =~= edges_of(es, ts));
    }
}

/// The edges of the relationships `ts`, one for each that has an edge.
pub open spec fn edges_of(es: Seq<(Seq<char>, EntityV)>, ts: Seq<TripleV>) -> Seq<(int, int)>
    decreases ts.len(),
{
    if ts.len() == 0 {
        seq![]
    } else {
        let found = edges_of(es, ts.drop_last());
        match edge_of(es, ts.last()) {
            Some(e) => found.push(e),
            None => found,
        }
    }
}

/// Edges with mathematical numbers.
pub open spec fn edge_numbers(s: Seq<(usize, usize)>) -> Seq<(int, int)> {
    Seq::new(s.len(), |i: int| (s[i].0 as int, s[i].1 as int))
}

impl CommunityGraph {
    /// How many nodes there are.
    pub fn num_nodes(&self) -> (r: usize)
        ensures
            r == self.num_nodes,
    {
        self.num_nodes
    }

    /// The edges.
    pub fn edges(&self) -> (r: &Vec<(usize, usize)>)
        ensures
            *r == self.edges,
    {
        &self.edges
    }
}

/// The ids of the entities, in order, and the graph of their relationships: one edge
/// for each relationship, so that several between two entities count for more.
pub fn to_community_graph(kg: &KnowledgeGraph) -> (r: (Vec<String>, CommunityGraph))
    ensures
        seqs::views(r.0@) == table::keys(kg@.entities),
        r.1.num_nodes == kg@.entities.len(),
        edge_numbers(r.1.edges@) == edges_of(kg@.entities, kg@.triples),
        forall|i: int|
            0 <= i < r.1.edges@.len() ==> (#[trigger] r.1.edges@[i]).0 < r.1.num_nodes
                && r.1.edges@[i].1 < r.1.num_nodes && r.1.edges@[i].0 != r.1.edges@[i].1,
{
    let n: usize = kg.entities.len();
    let mut ids: Vec<String> = Vec::new();
    let mut i: usize = 0;
    while i < n
        invariant
            i <= n,
            n == kg.entities@.len(),
            seqs::views(ids@) =~= table::keys(kg.entities@).take(i as int),
        decreases n - i,
    {
        ids.push(kg.entities.key_at(i).clone());
        i += 1;
    }
    assert(seqs::views(ids@) =~= table::keys(kg.entities@));
    let ghost ts = seqs::views(kg.triples@);
    let mut edges: Vec<(usize, usize)> = Vec::new();
    let mut j: usize = 0;
    while j < kg.triples.len()
        invariant
            j <= kg.triples@.len(),
            n == kg.entities@.len(),
            ts == seqs::views(kg.triples@),
            edge_numbers(edges@) =~= edges_of(kg.entities@, ts.take(j as int)),
            forall|i: int|
                0 <= i < edges@.len() ==> (#[trigger] edges@[i]).0 < n && edges@[i].1 < n
                    && edges@[i].0 != edges@[i].1,
        decreases kg.triples.len() - j,
    {
        assert(ts.take(j + 1).drop_last() =~= ts.take(j as int));
        assert(ts.take(j + 1).last() == kg.triples@[j as int]@);
        let t = &kg.triples[j];
        match (
            kg.entities.index_of(t.subject.id.as_str()),
            kg.entities.index_of(t.object.id.as_str()),
        ) {
            (Some(s), Some(o)) => {
                if s != o {
                    edges.push((s, o));
                }
            },
            _ => {},
        }
        j += 1;
    }
    assert(ts.take(j as int) =~= ts);
    (ids, CommunityGraph { num_nodes: n, edges })
}

/// What a detector found: the community of each node, and how good it says that the
/// division is.
pub struct Partition {
    pub labels: Vec<usize>,
    pub quality: Option<String>,
}

impl Partition {
    /// The community of the node `i`.
    pub fn community_of(&self, i: usize) -> (r: usize)
        requires
            i < self.labels@.len(),
        ensures
            r == self.labels@[i as int],
    {
        self.labels[i]
    }
}

/// The community of each of the ids.
pub fn detect_communities(ids: &Vec<String>, partition: &Partition) -> (r: Vec<(String, usize)>)
    requires
        ids@.len() <= partition.labels@.len(),
    ensures
        r@.len() == ids@.len(),
        forall|i: int|
            0 <= i < ids@.len() ==> (#[trigger] r@[i]).0@ == ids@[i]@ && r@[i].1
                == partition.labels@[i],
{
    let mut out: Vec<(String, usize)> = Vec::new();
    let mut i: usize = 0;
    while i < ids.len()
        invariant
            i <= ids@.len() <= partition.labels@.len(),
            out@.len() == i,
            forall|k: int|
                0 <= k < i ==> (#[trigger] out@[k]).0@ == ids@[k]@ && out@[k].1
                    == partition.labels@[k],
        decreases ids.len() - i,
    {
        out.push((ids[i].clone(), partition.community_of(i)));
        i += 1;
    }
    out
}

/// How many of `s` are less than `x`.
pub open spec fn less_than(s: Seq<usize>, x: usize) -> nat
    decreases s.len(),
{
    if s.len() == 0 {
        0
    } else {
        less_than(s.drop_last(), x) + if s.last() < x {
            1nat
        } else {
            0
        }
    }
}

/// `s` with `x` in it, in ascending order.
pub open spec fn with_label(s: Seq<usize>, x: usize) -> Seq<usize> {
    if s.contains(x) {
        s
    } else {
        s.insert(less_than(s, x) as int, x)
    }
}

/// The communities that `labels` speak of, each once, in ascending order.
pub open spec fn communities(labels: Seq<usize>) -> Seq<usize>
    decreases labels.len(),
{
    if labels.len() == 0 {
        seq![]
    } else {
        with_label(communities(labels.drop_last()), labels.last())
    }
}

/// Numbers in ascending order.
pub open spec fn ascending(s: Seq<usize>) -> bool {
    forall|i: int, j: int| 0 <= i < j < s.len() ==> s[i] < s[j]
}

proof fn lemma_less_than(s: Seq<usize>, x: usize)
    requires
        ascending(s),
    ensures
        less_than(s, x) <= s.len(),
        forall|i: int| 0 <= i < s.len() ==> (i < less_than(s, x) <==> #[trigger] s[i] < x),
    decreases s.len(),
{
    if s.len() > 0 {
        lemma_less_than(s.drop_last(), x);
        assert(forall|i: int| 0 <= i < s.len() - 1 ==> s.drop_last()[i] == s[i]);
    }
}

/// The communities are in ascending order, and each of them is one of the labels.
pub proof fn lemma_communities(labels: Seq<usize>)
    ensures
        ascending(communities(labels)),
        communities(labels).len() <= labels.len(),
        forall|x: usize| #[trigger] communities(labels).contains(x) <==> labels.contains(x),
    decreases labels.len(),
{
    if labels.len() > 0 {
        let before = labels.drop_last();
        let x = labels.last();
        lemma_communities(before);
        let s = communities(before);
        lemma_less_than(s, x);
        let t = communities(labels);
        let k = less_than(s, x) as int;
        if !s.contains(x) {
            assert forall|i: int, j: int| 0 <= i < j < t.len() implies t[i] < t[j] by {
                let a = if i < k { i } else { i - 1 };
                let b = if j < k { j } else { j - 1 };
                if i == k {
                    assert(t[j] == s[j - 1]);
                    assert(s.contains(s[j - 1]));
                } else if j == k {
                    assert(t[i] == s[i]);
                } else {
                    assert(t[i] == s[a] && t[j] == s[b]);
                }
            }
        }
        assert forall|y: usize| #[trigger] t.contains(y) <==> labels.contains(y) by {
            assert(labels[labels.len() - 1] == x);
            if t.contains(y) {
                let i = choose|i: int| 0 <= i < t.len() && t[i] == y;
                if !s.contains(x) && i == k {
                } else if !s.contains(x) {
                    let a = if i < k { i } else { i - 1 };
                    assert(s[a] == y);
                    assert(s.contains(y));
                    let m = choose|m: int| 0 <= m < before.len() && before[m] == y;
                    assert(labels[m] == y);
                } else {
                    assert(s.contains(y));
                    let m = choose|m: int| 0 <= m < before.len() && before[m] == y;
                    assert(labels[m] == y);
                }
            }
            if labels.contains(y) {
                let m = choose|m: int| 0 <= m < labels.len() && labels[m] == y;
                if m < before.len() {
                    assert(before[m] == y);
                    assert(s.contains(y));
                    let i = choose|i: int| 0 <= i < s.len() && s[i] == y;
                    if !s.contains(x) {
                        assert(t[if i < k { i } else { i + 1 }] == y);
                    }
                } else if !s.contains(x) {
                    assert(t[k] == x);
                }
            }
        }
    }
}

/// The communities that `labels` speak of, each once, in ascending order.
fn list_communities(labels: &Vec<usize>, n: usize) -> (r: Vec<usize>)
    requires
        n <= labels@.len(),
    ensures
        r@ == communities(labels@.take(n as int)),
{
    let mut out: Vec<usize> = Vec::new();
    let mut i: usize = 0;
    assert(labels@.take(0) =~= seq![]);
    while i < n
        invariant
            i <= n <= labels@.len(),
            out@ == communities(labels@.take(i as int)),
        decreases n - i,
    {
        assert(labels@.take(i + 1).drop_last() =~= labels@.take(i as int));
        let x: usize = labels[i];
        let mut found = false;
        let mut below: usize = 0;
        let mut k: usize = 0;
        while k < out.len()
            invariant
                below <= k <= out@.len(),
                below == less_than(out@.take(k as int), x),
                found <==> exists|j: int| 0 <= j < k && out@[j] == x,
            decreases out.len() - k,
        {
            assert(out@.take(k + 1).drop_last() =~= out@.take(k as int));
            if out[k] == x {
                found = true;
            }
            if out[k] < x {
                below += 1;
            }
            k += 1;
        }
        assert(out@.take(k as int) =~= out@);
        if !found {
            out.insert(below, x);
        }
        i += 1;
    }
    out
}

/// The ids with the label `c`.
pub open spec fn labelled(ids: Seq<Seq<char>>, labels: Seq<usize>, c: usize) -> Seq<Seq<char>>
    decreases ids.len(),
{
    if ids.len() == 0 {
        seq![]
    } else {
        let found = labelled(ids.drop_last(), labels, c);
        if labels[ids.len() - 1] == c {
            found.push(ids.last())
        } else {
            found
        }
    }
}

/// The members of the community `c`, in order.
pub open spec fn members_of(ids: Seq<Seq<char>>, labels: Seq<usize>, c: usize) -> Seq<Seq<char>> {
    names::sorted(labelled(ids, labels, c))
}

/// The members of the community `c`, in order.
fn community_members(ids: &Vec<String>, labels: &Vec<usize>, c: usize) -> (r: Vec<String>)
    requires
        ids@.len() <= labels@.len(),
    ensures
        seqs::views(r@) == members_of(seqs::views(ids@), labels@, c),
{
    let ghost all = seqs::views(ids@);
    let mut out: Vec<String> = Vec::new();
    let mut i: usize = 0;
    while i < ids.len()
        invariant
            i <= ids@.len() <= labels@.len(),
            all == seqs::views(ids@),
            seqs::views(out@) == labelled(all.take(i as int), labels@, c),
        decreases ids.len() - i,
    {
        assert(all.take(i + 1).drop_last() =~= all.take(i as int));
        if labels[i] == c {
            out.push(ids[i].clone());
        }
        i += 1;
    }
    assert(all.take(i as int) =~= all);
    names::sort(out)
}

proof fn lemma_labelled(ids: Seq<Seq<char>>, labels: Seq<usize>, c: usize, x: Seq<char>)
    requires
        ids.len() <= labels.len(),
    ensures
        labelled(ids, labels, c).contains(x) <==> exists|i: int|
            0 <= i < ids.len() && #[trigger] ids[i] == x && labels[i] == c,
    decreases ids.len(),
{
    if ids.len() > 0 {
        let before = ids.drop_last();
        lemma_labelled(before, labels, c, x);
        let s = labelled(before, labels, c);
        let t = labelled(ids, labels, c);
        let n = ids.len() - 1;
        if t.contains(x) {
            let k = choose|k: int| 0 <= k < t.len() && t[k] == x;
            if k < s.len() {
                assert(s[k] == x);
                let i = choose|i: int|
                    0 <= i < before.len() && #[trigger] before[i] == x && labels[i] == c;
                assert(ids[i] == x);
            } else {
                assert(ids[n] == x);
            }
        }
        if exists|i: int| 0 <= i < ids.len() && #[trigger] ids[i] == x && labels[i] == c {
            let i = choose|i: int| 0 <= i < ids.len() && #[trigger] ids[i] == x && labels[i] == c;
            if i < before.len() {
                assert(before[i] == x);
                assert(s.contains(x));
                let k = choose|k: int| 0 <= k < s.len() && s[k] == x;
                assert(t[k] == x);
            } else {
                assert(t[s.len() as int] == x);
            }
        }
    }
}

/// Every node is a member of the community that it was given, that community is
/// listed, and no other community has a node that it alone has the id of.
pub proof fn law_each_in_its_community(ids: Seq<Seq<char>>, labels: Seq<usize>, i: int, c: usize)
    requires
        ids.len() <= labels.len(),
        0 <= i < ids.len(),
        forall|j: int| 0 <= j < ids.len() && #[trigger] ids[j] == ids[i] ==> j == i,
    ensures
        communities(labels.take(ids.len() as int)).contains(labels[i]),
        members_of(ids, labels, c).contains(ids[i]) <==> c == labels[i],
{
    let used = labels.take(ids.len() as int);
    lemma_communities(used);
    assert(used[i] == labels[i]);
    assert(used.contains(labels[i]));
    lemma_labelled(ids, labels, c, ids[i]);
    let l = labelled(ids, labels, c);
    names::lemma_sorted(l);
    l.to_multiset_ensures();
    names::sorted(l).to_multiset_ensures();
    assert(l.to_multiset().count(ids[i]) == names::sorted(l).to_multiset().count(ids[i]));
}

/// What a [`CommunitySummary`] stands for.
pub struct SummaryV {
    pub name: Option<Seq<char>>,
    pub summary: Option<Seq<char>>,
}

/// A report on a community: a name for it and what ties it together, as far as a
/// language model gave them.
pub struct CommunitySummary {
    pub name: Option<String>,
    pub summary: Option<String>,
}

impl View for CommunitySummary {
    type V = SummaryV;

    open spec fn view(&self) -> SummaryV {
        SummaryV { name: seqs::opt_view(self.name), summary: seqs::opt_view(self.summary) }
    }
}

/// A report that says nothing.
pub open spec fn no_summary() -> SummaryV {
    SummaryV { name: None, summary: None }
}

/// Reports by community.
pub open spec fn reports(s: Seq<(usize, CommunitySummary)>) -> Seq<(usize, SummaryV)> {
    Seq::new(s.len(), |i: int| (s[i].0, s[i].1@))
}

/// The first report on the community `c` from `from` on; one that says nothing where
/// there is none.
pub open spec fn report_on(s: Seq<(usize, SummaryV)>, c: usize, from: int) -> SummaryV
    decreases s.len() - from,
{
    if 0 <= from < s.len() {
        if s[from].0 == c {
            s[from].1
        } else {
            report_on(s, c, from + 1)
        }
    } else {
        no_summary()
    }
}

/// A community as it is written: its members, and the report on it where there are
/// reports.
pub open spec fn community_value(
    members: Seq<Seq<char>>,
    c: usize,
    summaries: Option<Seq<(usize, SummaryV)>>,
) -> JsonV {
    match summaries {
        Some(s) => JsonV::Object(
            seq![
                ("members"@, json::texts(members)),
                ("name"@, json::text_or_null(report_on(s, c, 0).name)),
                ("summary"@, json::text_or_null(report_on(s, c, 0).summary)),
            ],
        ),
        None => json::texts(members),
    }
}

/// The communities as they are written, by their numbers.
pub open spec fn community_members_value(
    ids: Seq<Seq<char>>,
    labels: Seq<usize>,
    summaries: Option<Seq<(usize, SummaryV)>>,
) -> Seq<(Seq<char>, JsonV)> {
    let cs = communities(labels.take(ids.len() as int));
    Seq::new(
        cs.len(),
        |i: int|
            (
                text::decimal(cs[i] as nat),
                community_value(members_of(ids, labels, cs[i]), cs[i], summaries),
            ),
    )
}

/// How good a division is, as it is written.
pub open spec fn quality_value(q: Option<Seq<char>>) -> JsonV {
    match q {
        Some(s) => JsonV::Decimal(s),
        None => JsonV::Null,
    }
}

/// A division as it is written: how many communities there are, how good it is, and
/// the communities in ascending order, the members of each in order.
pub open spec fn partition_members(
    ids: Seq<Seq<char>>,
    labels: Seq<usize>,
    quality: Option<Seq<char>>,
    summaries: Option<Seq<(usize, SummaryV)>>,
) -> Seq<(Seq<char>, JsonV)> {
    let cs = community_members_value(ids, labels, summaries);
    seq![
        ("num_communities"@, JsonV::Uint(cs.len() as u64)),
        ("quality"@, quality_value(quality)),
        ("communities"@, JsonV::Object(cs)),
    ]
}

/// Communities are told one after the other under their numbers, each with its members, and
/// there are as many as are told.
pub proof fn law_communities_are_told_by_number(
    ids: Seq<Seq<char>>,
    labels: Seq<usize>,
    quality: Option<Seq<char>>,
    i: int,
)
    requires
        0 <= i < communities(labels.take(ids.len() as int)).len(),
    ensures
        ({
            let v = JsonV::Object(partition_members(ids, labels, quality, None));
            let cs = communities(labels.take(ids.len() as int));
            let o = json::object_in(json::field(v, "communities"@))->0;
            &&& json::object_in(json::field(v, "communities"@)) is Some
            &&& o.len() == cs.len()
            &&& o[i].0 == text::decimal(cs[i] as nat)
            &&& o[i].1 == json::texts(members_of(ids, labels, cs[i]))
            &&& json::uint_in(json::field(v, "num_communities"@)) == Some(cs.len() as u64)
        }),
{
    reveal_strlit("num_communities");
    assert("num_communities"@.len() == 15);
    reveal_strlit("quality");
    assert("quality"@.len() == 7);
    reveal_strlit("communities");
    assert("communities"@.len() == 11);
    let p = partition_members(ids, labels, quality, None);
    json::lemma_field_at(p, 0);
    json::lemma_field_at(p, 2);
}

/// What is known of the reports on communities.
pub open spec fn summaries_view(s: Option<&Vec<(usize, CommunitySummary)>>) -> Option<
    Seq<(usize, SummaryV)>,
> {
    match s {
        Some(v) => Some(reports(v@)),
        None => None,
    }
}

/// The report on the community `c`.
fn find_report(s: &Vec<(usize, CommunitySummary)>, c: usize) -> (r: (Option<String>, Option<String>))
    ensures
        seqs::opt_view(r.0) == report_on(reports(s@), c, 0).name,
        seqs::opt_view(r.1) == report_on(reports(s@), c, 0).summary,
{
    let mut i: usize = 0;
    while i < s.len()
        invariant
            i <= s@.len(),
            report_on(reports(s@), c, 0) == report_on(reports(s@), c, i as int),
        decreases s.len() - i,
    {
        if s[i].0 == c {
            return (
                crate::types::graph::dup_option(&s[i].1.name),
                crate::types::graph::dup_option(&s[i].1.summary),
            );
        }
        i += 1;
    }
    (None, None)
}

/// The members of a division as it is written.
fn partition_builder(
    ids: &Vec<String>,
    partition: &Partition,
    summaries: Option<&Vec<(usize, CommunitySummary)>>,
) -> (r: ObjectBuilder)
    requires
        ids@.len() <= partition.labels@.len(),
    ensures
        r@ == partition_members(
            seqs::views(ids@),
            partition.labels@,
            seqs::opt_view(partition.quality),
            summaries_view(summaries),
        ),
{
    let cs = list_communities(&partition.labels, ids.len());
    let ghost all = community_members_value(
        seqs::views(ids@),
        partition.labels@,
        summaries_view(summaries),
    );
    let mut b = ObjectBuilder::new();
    let mut i: usize = 0;
    while i < cs.len()
        invariant
            i <= cs@.len(),
            ids@.len() <= partition.labels@.len(),
            cs@ == communities(partition.labels@.take(ids@.len() as int)),
            all == community_members_value(
                seqs::views(ids@),
                partition.labels@,
                summaries_view(summaries),
            ),
            b@ =~= all.take(i as int),
        decreases cs.len() - i,
    {
        let c: usize = cs[i];
        let members = community_members(ids, &partition.labels, c);
        let value = match summaries {
            Some(s) => {
                let (name, summary) = find_report(s, c);
                let v = ObjectBuilder::new().with("members", json::texts_of(&members)).with(
                    "name",
                    json::text_or_null_of(&name),
                ).with("summary", json::text_or_null_of(&summary)).done();
                assert(v@->Object_0 =~= community_value(
                    seqs::views(members@),
                    c,
                    summaries_view(summaries),
                )->Object_0);
                v
            },
            None => json::texts_of(&members),
        };
        b.add(text::to_decimal(c as u64).as_str(), value);
        i += 1;
    }
    assert(b@ =~= all);
    let quality = match &partition.quality {
        Some(q) => Json::Decimal(q.clone()),
        None => Json::Null,
    };
    let r = ObjectBuilder::new().with("num_communities", Json::Uint(cs.len() as u64)).with(
        "quality",
        quality,
    ).with("communities", b.done());
    assert(r@ =~= partition_members(
        seqs::views(ids@),
        partition.labels@,
        seqs::opt_view(partition.quality),
        summaries_view(summaries),
    ));
    r
}

/// A division as it is written: see [`partition_members`].
pub fn partition_json(
    ids: &Vec<String>,
    partition: &Partition,
    summaries: Option<&Vec<(usize, CommunitySummary)>>,
) -> (r: Json)
    requires
        ids@.len() <= partition.labels@.len(),
    ensures
        r@ == JsonV::Object(
            partition_members(
                seqs::views(ids@),
                partition.labels@,
                seqs::opt_view(partition.quality),
                summaries_view(summaries),
            ),
        ),
{
    partition_builder(ids, partition, summaries).done()
}

/// The communities that a detector found in `kg`, as they are written.
pub fn communities_json(kg: &KnowledgeGraph, partition: &Partition) -> (r: Json)
    requires
        kg@.entities.len() <= partition.labels@.len(),
    ensures
        r@ == JsonV::Object(
            partition_members(
                table::keys(kg@.entities),
                partition.labels@,
                seqs::opt_view(partition.quality),
                None,
            ),
        ),
{
    let (ids, _graph) = to_community_graph(kg);
    partition_json(&ids, partition, None)
}

/// The communities that a detector found in `kg`, with the reports on them, as they
/// are written.
pub fn communities_json_with_summaries(
    kg: &KnowledgeGraph,
    partition: &Partition,
    summaries: &Vec<(usize, CommunitySummary)>,
) -> (r: Json)
    requires
        kg@.entities.len() <= partition.labels@.len(),
    ensures
        r@ == JsonV::Object(
            partition_members(
                table::keys(kg@.entities),
                partition.labels@,
                seqs::opt_view(partition.quality),
                Some(reports(summaries@)),
            ),
        ),
{
    let (ids, _graph) = to_community_graph(kg);
    partition_json(&ids, partition, Some(summaries))
}

/// What is known of a division: the communities and how good it is.
pub open spec fn level_members(
    ids: Seq<Seq<char>>,
    p: Partition,
    summaries: Option<Seq<(usize, SummaryV)>>,
    level: nat,
) -> Seq<(Seq<char>, JsonV)> {
    partition_members(ids, p.labels@, seqs::opt_view(p.quality), summaries).push(
        ("level"@, JsonV::Uint(level as u64)),
    )
}

/// The reports on the communities of one level.
pub open spec fn level_summaries(
    all: Option<Seq<Vec<(usize, CommunitySummary)>>>,
    level: int,
) -> Option<Seq<(usize, SummaryV)>> {
    match all {
        Some(s) => Some(reports(s[level]@)),
        None => None,
    }
}

/// The levels of a hierarchy are told in their order, each with its number and with the
/// communities that its labels make.
pub proof fn law_levels_are_told_in_order(
    ids: Seq<Seq<char>>,
    levels: Seq<Partition>,
    summaries: Option<Seq<Vec<(usize, CommunitySummary)>>>,
    i: int,
)
    requires
        0 <= i < levels.len(),
    ensures
        ({
            let ls = json::array_in(
                json::field(hierarchy_value(ids, levels, summaries), "levels"@),
            )->0;
            &&& ls.len() == levels.len()
            &&& json::field(ls[i], "level"@) == Some(JsonV::Uint(i as u64))
            &&& json::field(ls[i], "communities"@) == Some(
                JsonV::Object(
                    community_members_value(
                        ids,
                        levels[i].labels@,
                        match summaries {
                            Some(s) => Some(reports(s[i]@)),
                            None => None,
                        },
                    ),
                ),
            )
        }),
{
    reveal_strlit("detector");
    assert("detector"@.len() == 8);
    assert("detector"@.len() == 8);
    reveal_strlit("num_levels");
    assert("num_levels"@.len() == 10);
    assert("num_levels"@.len() == 10);
    reveal_strlit("levels");
    assert("levels"@.len() == 6);
    assert("levels"@.len() == 6);
    reveal_strlit("num_communities");
    assert("num_communities"@.len() == 15);
    assert("num_communities"@.len() == 15);
    reveal_strlit("quality");
    assert("quality"@.len() == 7);
    assert("quality"@.len() == 7);
    reveal_strlit("communities");
    assert("communities"@.len() == 11);
    assert("communities"@.len() == 11);
    reveal_strlit("level");
    assert("level"@.len() == 5);
    assert("level"@.len() == 5);
    let o = hierarchy_value(ids, levels, summaries)->Object_0;
    json::lemma_field_at(o, 2);
    let m = level_members(ids, levels[i], level_summaries(summaries, i), i as nat);
    json::lemma_field_at(m, 2);
    json::lemma_field_at(m, 3);
}

/// Divisions from coarse to fine, as they are written.
pub open spec fn hierarchy_value(
    ids: Seq<Seq<char>>,
    levels: Seq<Partition>,
    summaries: Option<Seq<Vec<(usize, CommunitySummary)>>>,
) -> JsonV {
    JsonV::Object(
        seq![
            ("detector"@, JsonV::Text("hierarchical-leiden"@)),
            ("num_levels"@, JsonV::Uint(levels.len() as u64)),
            (
                "levels"@,
                JsonV::Array(
                    Seq::new(
                        levels.len(),
                        |i: int|
                            JsonV::Object(
                                level_members(
                                    ids,
                                    levels[i],
                                    level_summaries(summaries, i),
                                    i as nat,
                                ),
                            ),
                    ),
                ),
            ),
        ],
    )
}

/// What is known of the reports on the communities of all levels.
pub open spec fn all_summaries(s: Option<&Vec<Vec<(usize, CommunitySummary)>>>) -> Option<
    Seq<Vec<(usize, CommunitySummary)>>,
> {
    match s {
        Some(v) => Some(v@),
        None => None,
    }
}

/// The divisions of `kg` that a detector found, from coarse to fine, as they are
/// written; with the reports on the communities of each level, where there are any.
pub fn hierarchy_json(
    kg: &KnowledgeGraph,
    levels: &Vec<Partition>,
    summaries: Option<&Vec<Vec<(usize, CommunitySummary)>>>,
) -> (r: Json)
    requires
        forall|i: int|
            0 <= i < levels@.len() ==> kg@.entities.len() <= (#[trigger] levels@[i]).labels@.len(),
        summaries matches Some(s) ==> s@.len() == levels@.len(),
    ensures
        r@ == hierarchy_value(table::keys(kg@.entities), levels@, all_summaries(summaries)),
{
    let (ids, _graph) = to_community_graph(kg);
    assert(ids@.len() == seqs::views(ids@).len() == table::keys(kg@.entities).len());
    let ghost want = hierarchy_value(seqs::views(ids@), levels@, all_summaries(summaries));
    let ghost rows = Seq::new(
        levels@.len(),
        |i: int|
            JsonV::Object(
                level_members(
                    seqs::views(ids@),
                    levels@[i],
                    level_summaries(all_summaries(summaries), i),
                    i as nat,
                ),
            ),
    );
    let mut out: Vec<Json> = Vec::new();
    let mut i: usize = 0;
    while i < levels.len()
        invariant
            i <= levels@.len(),
            forall|i: int|
                0 <= i < levels@.len() ==> ids@.len() <= (#[trigger] levels@[i]).labels@.len(),
            summaries matches Some(s) ==> s@.len() == levels@.len(),
            rows == Seq::new(
                levels@.len(),
                |i: int|
                    JsonV::Object(
                        level_members(
                            seqs::views(ids@),
                            levels@[i],
                            level_summaries(all_summaries(summaries), i),
                            i as nat,
                        ),
                    ),
            ),
            seqs::views(out@) =~= rows.take(i as int),
        decreases levels.len() - i,
    {
        let given = match summaries {
            Some(s) => Some(&s[i]),
            None => None,
        };
        assert(summaries_view(given) == level_summaries(all_summaries(summaries), i as int));
        let mut b = partition_builder(&ids, &levels[i], given);
        b.add("level", Json::Uint(i as u64));
        let row = b.done();
        assert(row@ == rows[i as int]);
        out.push(row);
        i += 1;
    }
    assert(seqs::views(out@) =~= rows);
    let r = ObjectBuilder::new().with("detector", json::string("hierarchical-leiden")).with(
        "num_levels",
        Json::Uint(levels.len() as u64),
    ).with("levels", Json::Array(out)).done();
    assert(r@->Object_0 =~= want->Object_0);
    r
}

/// The greatest number of members that are listed in a question.
pub const SUMMARY_MAX_MEMBERS: usize = 32;

/// The greatest number of relationships that are listed in a question.
pub const SUMMARY_MAX_TRIPLES: usize = 24;

/// The greatest number of characters of a description in a question.
pub const SUMMARY_MAX_DESC_CHARS: usize = 120;

/// The greatest number of tokens of an answer.
pub const SUMMARY_MAX_TOKENS: u32 = 1024;

/// `s` without the white space round it, cut off behind `max` characters.
pub open spec fn shortened(s: Seq<char>, max: nat) -> Seq<char> {
    let t = text::trimmed(s);
    if t.len() <= max {
        t
    } else {
        t.take(max as int) + "…"@
    }
}

/// `s` without the white space round it, cut off behind `max` characters.
pub fn truncate_chars(s: &str, max: usize) -> (r: String)
    ensures
        r@ == shortened(s@, max as nat),
{
    let t = text::trim(s);
    let v = text::chars_of(t.as_str());
    if v.len() <= max {
        return t;
    }
    let head = text::text_of(&v, 0, max);
    assert(head@ =~= t@.take(max as int));
    text::concat2(head.as_str(), "…")
}

/// What is cut off has at most one character more than the limit.
pub proof fn law_shortened_is_short(s: Seq<char>, max: nat)
    ensures
        shortened(s, max).len() <= max + 1,
{
    reveal_strlit("…");
}

/// The line of an entity in a question.
pub open spec fn entity_line(e: EntityV) -> Seq<char> {
    let line = "- "@ + e.label + " ("@ + crate::types::graph::entity_output_type(e) + ")"@;
    let d = match e.description {
        Some(d) => shortened(d, SUMMARY_MAX_DESC_CHARS as nat),
        None => seq![],
    };
    if d.len() > 0 {
        line + ": "@ + d
    } else {
        line
    }
}

/// The lines of the entities with the given ids.
pub open spec fn entity_lines(es: Seq<(Seq<char>, EntityV)>, ids: Seq<Seq<char>>) -> Seq<Seq<char>>
    decreases ids.len(),
{
    if ids.len() == 0 {
        seq![]
    } else {
        let lines = entity_lines(es, ids.drop_last());
        match table::lookup(es, ids.last()) {
            Some(e) => lines.push(entity_line(e)),
            None => lines,
        }
    }
}

/// A line that says how many more there are.
pub open spec fn more_line(n: nat, what: Seq<char>) -> Seq<char> {
    "- (+"@ + text::decimal(n) + " more "@ + what + ")"@
}

/// The lines of the members of a community.
pub open spec fn member_lines(
    es: Seq<(Seq<char>, EntityV)>,
    ids: Seq<Seq<char>>,
) -> Seq<Seq<char>> {
    if ids.len() > SUMMARY_MAX_MEMBERS {
        entity_lines(es, ids.take(SUMMARY_MAX_MEMBERS as int)).push(
            more_line((ids.len() - SUMMARY_MAX_MEMBERS) as nat, "entities"@),
        )
    } else {
        entity_lines(es, ids)
    }
}

/// The line of a relationship in a question.
pub open spec fn triple_line(t: TripleV) -> Seq<char> {
    "- "@ + t.subject.label + " — "@ + crate::types::graph::predicate_display_label(t.predicate)
        + " → "@ + t.object.label
}

/// The lines of the relationships within a community.
pub open spec fn triple_lines(ts: Seq<TripleV>, ids: Seq<Seq<char>>) -> Seq<Seq<char>>
    decreases ts.len(),
{
    if ts.len() == 0 {
        seq![]
    } else {
        let lines = triple_lines(ts.drop_last(), ids);
        let t = ts.last();
        if ids.contains(t.subject.id) && ids.contains(t.object.id) {
            lines.push(triple_line(t))
        } else {
            lines
        }
    }
}

/// A relationship within a community is told in a line behind those before it, from its
/// subject by its predicate to its object; any other is not told.
pub proof fn law_told_relationships_keep_their_direction(
    ts: Seq<TripleV>,
    t: TripleV,
    ids: Seq<Seq<char>>,
)
    ensures
        triple_lines(ts.push(t), ids) == if ids.contains(t.subject.id) && ids.contains(t.object.id) {
            triple_lines(ts, ids).push(
                "- "@ + t.subject.label + " — "@ + match t.predicate.label {
                    Some(l) => l,
                    None => crate::types::vocab::predicate_type_name(t.predicate.predicate_type),
                } + " → "@ + t.object.label,
            )
        } else {
            triple_lines(ts, ids)
        },
{
    assert(ts.push(t).drop_last() =~= ts);
}

/// An entity of a community is told in a line behind those before it, with its label, its
/// type and the start of its description.
pub proof fn law_told_entities_are_described(
    es: Seq<(Seq<char>, EntityV)>,
    ids: Seq<Seq<char>>,
    id: Seq<char>,
    e: EntityV,
)
    requires
        table::lookup(es, id) == Some(e),
    ensures
        ({
            let lines = entity_lines(es, ids.push(id));
            let head = "- "@ + e.label + " ("@ + match e.raw_type {
                Some(t) => t,
                None => crate::types::vocab::entity_type_name(e.entity_type),
            } + ")"@;
            &&& lines.len() == entity_lines(es, ids).len() + 1
            &&& lines.drop_last() == entity_lines(es, ids)
            &&& lines.last().len() >= head.len()
            &&& lines.last().take(head.len() as int) == head
            &&& e.description is None ==> lines.last() == head
        }),
{
    assert(ids.push(id).drop_last() =~= ids);
    let lines = entity_lines(es, ids.push(id));
    assert(lines.drop_last() =~= entity_lines(es, ids));
    let head = "- "@ + e.label + " ("@ + crate::types::graph::entity_output_type(e) + ")"@;
    assert(entity_line(e).take(head.len() as int) =~= head);
}

/// An edge between entities joins the places of the two ends of a relationship, in their
/// order; there is none where an end is missing or where both are the same.
pub proof fn law_edges_join_the_ends(es: Seq<(Seq<char>, EntityV)>, t: TripleV)
    ensures
        match edge_of(es, t) {
            Some((s, o)) => 0 <= s < es.len() && 0 <= o < es.len() && s != o && es[s].0
                == t.subject.id && es[o].0 == t.object.id,
            None => !table::has_key(es, t.subject.id) || !table::has_key(es, t.object.id)
                || t.subject.id == t.object.id,
        },
{
    table::lemma_position(es, t.subject.id);
    table::lemma_position(es, t.object.id);
}

/// The lines of the relationships of a community, in order.
pub open spec fn relationship_lines(ts: Seq<TripleV>, ids: Seq<Seq<char>>) -> Seq<Seq<char>> {
    let lines = names::sorted(triple_lines(ts, ids));
    if lines.len() > SUMMARY_MAX_TRIPLES {
        lines.take(SUMMARY_MAX_TRIPLES as int).push(
            more_line((lines.len() - SUMMARY_MAX_TRIPLES) as nat, "relationships"@),
        )
    } else {
        lines
    }
}

/// The question about the community with the given members.
pub open spec fn question(g: GraphV, ids: Seq<Seq<char>>) -> Seq<char> {
    "You are given one community of a knowledge graph. Write a short report for it.\n\nEntities:\n"@
        + text::joined(member_lines(g.entities, ids), "\n"@) + "\n\nRelationships:\n"@
        + text::joined(relationship_lines(g.triples, ids), "\n"@)
        + "\n\nReply with ONLY a JSON object of the form {\"name\": \"...\", \"summary\": \"...\"} (no prose, no code fence):\n- \"name\": a concise title for the community (a few words)\n- \"summary\": 2-4 sentences describing what ties these entities together\nWrite both in the language of the entity labels (English when they are English)."@
}

/// The line of an entity in a question.
fn line_of_entity(e: &Entity) -> (r: String)
    ensures
        r@ == entity_line(e@),
{
    let mut line = text::concat2("- ", e.label.as_str());
    line.append(" (");
    line.append(e.output_type().as_str());
    line.append(")");
    if let Some(d) = &e.description {
        let short = truncate_chars(d.as_str(), SUMMARY_MAX_DESC_CHARS);
        if !short.as_str().is_empty() {
            line.append(": ");
            line.append(short.as_str());
        }
    }
    line
}

/// A line that says how many more there are.
fn line_of_more(n: usize, what: &str) -> (r: String)
    ensures
        r@ == more_line(n as nat, what@),
{
    let mut line = text::concat2("- (+", text::to_decimal(n as u64).as_str());
    line.append(" more ");
    line.append(what);
    line.append(")");
    line
}

/// The lines of the members of a community.
fn lines_of_members(es: &Table<Entity>, ids: &Vec<String>) -> (r: Vec<String>)
    ensures
        seqs::views(r@) == member_lines(es@, seqs::views(ids@)),
{
    let ghost all = seqs::views(ids@);
    let n: usize = if ids.len() > SUMMARY_MAX_MEMBERS {
        SUMMARY_MAX_MEMBERS
    } else {
        ids.len()
    };
    let mut out: Vec<String> = Vec::new();
    let mut i: usize = 0;
    while i < n
        invariant
            i <= n <= ids@.len(),
            all == seqs::views(ids@),
            seqs::views(out@) == entity_lines(es@, all.take(i as int)),
        decreases n - i,
    {
        assert(all.take(i + 1).drop_last() =~= all.take(i as int));
        assert(all.take(i + 1).last() == ids@[i as int]@);
        if let Some(e) = es.get(ids[i].as_str()) {
            out.push(line_of_entity(e));
        }
        i += 1;
    }
    if ids.len() > SUMMARY_MAX_MEMBERS {
        out.push(line_of_more(ids.len() - SUMMARY_MAX_MEMBERS, "entities"));
    } else {
        assert(all.take(n as int) =~= all);
    }
    out
}

/// The lines of the relationships of a community.
fn lines_of_relationships(ts: &Vec<Triple>, ids: &Vec<String>) -> (r: Vec<String>)
    ensures
        seqs::views(r@) == relationship_lines(seqs::views(ts@), seqs::views(ids@)),
{
    let ghost all = seqs::views(ts@);
    let mut found: Vec<String> = Vec::new();
    let mut i: usize = 0;
    while i < ts.len()
        invariant
            i <= ts@.len(),
            all == seqs::views(ts@),
            seqs::views(found@) == triple_lines(all.take(i as int), seqs::views(ids@)),
        decreases ts.len() - i,
    {
        assert(all.take(i + 1).drop_last() =~= all.take(i as int));
        let t = &ts[i];
        assert(all.take(i + 1).last() == t@);
        if names::holds(ids, t.subject.id.as_str()) && names::holds(ids, t.object.id.as_str()) {
            let mut line = text::concat2("- ", t.subject.label.as_str());
            line.append(" — ");
            line.append(t.predicate.display_label().as_str());
            line.append(" → ");
            line.append(t.object.label.as_str());
            found.push(line);
        }
        i += 1;
    }
    assert(all.take(i as int) =~= all);
    let mut lines = names::sort(found);
    let total: usize = lines.len();
    if total > SUMMARY_MAX_TRIPLES {
        let ghost before = seqs::views(lines@);
        lines.truncate(SUMMARY_MAX_TRIPLES);
        assert(seqs::views(lines@) =~= before.take(SUMMARY_MAX_TRIPLES as int));
        lines.push(line_of_more(total - SUMMARY_MAX_TRIPLES, "relationships"));
    }
    lines
}

/// The question about the community with the given members. It depends on the graph
/// and the members alone.
pub fn community_prompt(kg: &KnowledgeGraph, member_ids: &Vec<String>) -> (r: String)
    ensures
        r@ == question(kg@, seqs::views(member_ids@)),
{
    let members = lines_of_members(&kg.entities, member_ids);
    let relationships = lines_of_relationships(&kg.triples, member_ids);
    let mut s = text::concat2(
        "You are given one community of a knowledge graph. Write a short report for it.\n\nEntities:\n",
        text::join(&members, "\n").as_str(),
    );
    s.append("\n\nRelationships:\n");
    s.append(text::join(&relationships, "\n").as_str());
    s.append(
        "\n\nReply with ONLY a JSON object of the form {\"name\": \"...\", \"summary\": \"...\"} (no prose, no code fence):\n- \"name\": a concise title for the community (a few words)\n- \"summary\": 2-4 sentences describing what ties these entities together\nWrite both in the language of the entity labels (English when they are English).",
    );
    s
}

/// The text `v`, without the white space round it, where it is a text and not blank.
pub open spec fn clean(v: Option<JsonV>) -> Option<Seq<char>> {
    match json::text_in(v) {
        Some(s) => if text::trimmed(s).len() > 0 {
            Some(text::trimmed(s))
        } else {
            None
        },
        None => None,
    }
}

/// The report in an answer with the JSON value `j` in it.
pub open spec fn summary_in(j: Option<JsonV>) -> SummaryV {
    match j {
        Some(v) => SummaryV {
            name: clean(json::field(v, "name"@)),
            summary: clean(json::field(v, "summary"@)),
        },
        None => no_summary(),
    }
}

/// The text at `k`, where it is a text and not blank.
fn clean_at(v: &Json, k: &str) -> (r: Option<String>)
    ensures
        seqs::opt_view(r) == clean(json::field(v@, k@)),
{
    match v.get(k) {
        Some(Json::Text(s)) => {
            let t = text::trim(s.as_str());
            if t.as_str().is_empty() {
                None
            } else {
                Some(t)
            }
        },
        _ => None,
    }
}

/// The report in an answer with the JSON value `j` in it.
pub fn read_summary(j: &Option<Json>) -> (r: CommunitySummary)
    ensures
        r@ == summary_in(seqs::opt_view(*j)),
{
    match j {
        Some(v) => CommunitySummary { name: clean_at(v, "name"), summary: clean_at(v, "summary") },
        None => CommunitySummary { name: None, summary: None },
    }
}

/// The report in an answer: see [`read_summary`].
pub fn parse_summary_response(text: &str) -> (r: CommunitySummary)
    ensures
        r@ == summary_in(json::json_in_response(text@)),
{
    read_summary(&json::extract_json_from_response(text))
}

/// The questions about the communities, in ascending order.
pub open spec fn questions(
    g: GraphV,
    ids: Seq<Seq<char>>,
    labels: Seq<usize>,
) -> Seq<(usize, Seq<char>)> {
    let cs = communities(labels.take(ids.len() as int));
    Seq::new(cs.len(), |i: int| (cs[i], question(g, members_of(ids, labels, cs[i]))))
}

/// The questions about the communities, in ascending order, each with the number of
/// its community.
pub fn summary_requests(kg: &KnowledgeGraph, ids: &Vec<String>, partition: &Partition) -> (r: Vec<
    (usize, String),
>)
    requires
        ids@.len() <= partition.labels@.len(),
    ensures
        r@.len() == questions(kg@, seqs::views(ids@), partition.labels@).len(),
        forall|i: int|
            0 <= i < r@.len() ==> ((#[trigger] r@[i]).0, r@[i].1@) == questions(
                kg@,
                seqs::views(ids@),
                partition.labels@,
            )[i],
{
    let cs = list_communities(&partition.labels, ids.len());
    let mut out: Vec<(usize, String)> = Vec::new();
    let mut i: usize = 0;
    while i < cs.len()
        invariant
            i <= cs@.len(),
            ids@.len() <= partition.labels@.len(),
            cs@ == communities(partition.labels@.take(ids@.len() as int)),
            out@.len() == i,
            forall|k: int|
                0 <= k < i ==> ((#[trigger] out@[k]).0, out@[k].1@) == questions(
                    kg@,
                    seqs::views(ids@),
                    partition.labels@,
                )[k],
        decreases cs.len() - i,
    {
        let c: usize = cs[i];
        let members = community_members(ids, &partition.labels, c);
        out.push((c, community_prompt(kg, &members)));
        i += 1;
    }
    out
}

/// The report in a reply has as its name what stands under `name`, and as its summary what
/// stands under `summary`, each without the white space around it, where that is anything.
pub proof fn law_reports_are_read_as_written(
    o: Seq<(Seq<char>, JsonV)>,
    n: Seq<char>,
    t: Seq<char>,
)
    requires
        table::lookup(o, "name"@) == Some(JsonV::Text(n)),
        table::lookup(o, "summary"@) == Some(JsonV::Text(t)),
    ensures
        ({
            let r = summary_in(Some(JsonV::Object(o)));
            &&& text::trimmed(n).len() > 0 ==> r.name == Some(text::trimmed(n))
            &&& text::trimmed(n).len() == 0 ==> r.name is None
            &&& text::trimmed(t).len() > 0 ==> r.summary == Some(text::trimmed(t))
            &&& text::trimmed(t).len() == 0 ==> r.summary is None
        }),
{
}

/// A report that is attached to a community is told with it: its name under `name`, its
/// summary under `summary` and the members of the community under `members`. It is the
/// first one on that community.
pub proof fn law_reports_are_told(
    members: Seq<Seq<char>>,
    c: usize,
    s: Seq<(usize, SummaryV)>,
    i: int,
)
    requires
        0 <= i < s.len(),
        s[i].0 == c,
        forall|j: int| 0 <= j < i ==> (#[trigger] s[j]).0 != c,
    ensures
        ({
            let v = community_value(members, c, Some(s));
            &&& json::field(v, "members"@) == Some(json::texts(members))
            &&& json::text_in(json::field(v, "name"@)) == s[i].1.name
            &&& json::text_in(json::field(v, "summary"@)) == s[i].1.summary
        }),
{
    lemma_report_found(s, c, 0, i);
    reveal_strlit("members");
    assert("members"@.len() == 7);
    reveal_strlit("name");
    assert("name"@.len() == 4);
    reveal_strlit("summary");
    assert("summary"@.len() == 7);
    assert("members"@[0] != "summary"@[0]);
    let o = community_value(members, c, Some(s))->Object_0;
    json::lemma_field_at(o, 0);
    json::lemma_field_at(o, 1);
    json::lemma_field_at(o, 2);
}

proof fn lemma_report_found(s: Seq<(usize, SummaryV)>, c: usize, from: int, i: int)
    requires
        0 <= from <= i < s.len(),
        s[i].0 == c,
        forall|j: int| from <= j < i ==> (#[trigger] s[j]).0 != c,
    ensures
        report_on(s, c, from) == s[i].1,
    decreases i - from,
{
    if from < i {
        assert(s[from].0 != c);
        lemma_report_found(s, c, from + 1, i);
    }
}

/// The report in an answer that came, and one that says nothing where none came.
pub open spec fn reply_summary(reply: Option<Seq<char>>) -> SummaryV {
    match reply {
        Some(t) => summary_in(json::json_in_response(t)),
        None => no_summary(),
    }
}

/// The reports on the communities `requests` ask about, from the answers: a question
/// that was not answered, or not with a report, gives a report that says nothing.
pub fn summaries_from_replies(
    requests: &Vec<(usize, String)>,
    replies: &Vec<Option<String>>,
) -> (r: Vec<(usize, CommunitySummary)>)
    requires
        requests@.len() == replies@.len(),
    ensures
        r@.len() == requests@.len(),
        forall|i: int|
            0 <= i < r@.len() ==> (#[trigger] r@[i]).0 == requests@[i].0 && r@[i].1@
                == reply_summary(seqs::opt_view(replies@[i])),
{
    let mut out: Vec<(usize, CommunitySummary)> = Vec::new();
    let mut i: usize = 0;
    while i < requests.len()
        invariant
            i <= requests@.len() == replies@.len(),
            out@.len() == i,
            forall|k: int|
                0 <= k < i ==> (#[trigger] out@[k]).0 == requests@[k].0 && out@[k].1@
                    == reply_summary(seqs::opt_view(replies@[k])),
        decreases requests.len() - i,
    {
        let c: usize = requests[i].0;
        let summary = match &replies[i] {
            Some(t) => parse_summary_response(t.as_str()),
            None => CommunitySummary { name: None, summary: None },
        };
        out.push((c, summary));
        i += 1;
    }
    out
}

} // verus!
