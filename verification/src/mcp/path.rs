//! Where the file of a graph lies.

use vstd::prelude::*;

use crate::{names, seqs, text};

verus! {

broadcast use crate::seqs::group_views;

/// `s` with a slash in the place of each backslash.
pub open spec fn slashed(s: Seq<char>) -> Seq<char> {
    s.map_values(|c: char| if c == '\\' { '/' } else { c })
}

/// The parts of a path that name something.
pub open spec fn proper(parts: Seq<Seq<char>>) -> Seq<Seq<char>>
    decreases parts.len(),
{
    if parts.len() == 0 {
        seq![]
    } else if parts.last().len() == 0 || parts.last() == "."@ {
        proper(parts.drop_last())
    } else {
        proper(parts.drop_last()).push(parts.last())
    }
}

/// The name of the file of a graph.
pub open spec fn as_json_file(name: Seq<char>) -> Seq<char> {
    name + ".json"@
}

/// What a path names, below the output directory: the directories and, last, the
/// file, which is the last part of the path and `.json`. The path may be written with
/// that ending; it must be relative, must not lead upwards and must name something.
pub open spec fn resolved(rel: Seq<char>) -> Result<Seq<Seq<char>>, Seq<char>> {
    let t = text::trimmed(rel);
    if t.len() == 0 {
        Err("path must not be empty"@)
    } else if t[0] == '/' || t[0] == '\\' {
        Err("path must be relative, not absolute: "@ + t)
    } else {
        let stem = if text::has_suffix(t, ".json"@) {
            t.take(t.len() - 5)
        } else {
            t
        };
        let parts = text::split(slashed(stem), "/"@);
        let named = proper(parts);
        if parts.contains(".."@) {
            Err("path must not contain '..': "@ + t)
        } else if named.len() == 0 {
            Err("path resolves to the output directory itself: "@ + t)
        } else {
            Ok(named.drop_last().push(as_json_file(named.last())))
        }
    }
}

/// `s` with a slash in the place of each backslash.
pub fn slash(s: &str) -> (r: String)
    ensures
        r@ == slashed(s@),
{
    let v = text::chars_of(s);
    let mut out = String::new();
    let mut i: usize = 0;
    while i < v.len()
        invariant
            i <= v@.len(),
            v@ == s@,
            out@ =~= slashed(s@).take(i as int),
        decreases v.len() - i,
    {
        let c = v[i];
        out.push(if c == '\\' { '/' } else { c });
        i += 1;
    }
    assert(out@ =~= slashed(s@));
    out
}

/// The parts of a path that name something.
fn proper_parts(parts: &Vec<String>) -> (r: Vec<String>)
    ensures
        seqs::views(r@) == proper(seqs::views(parts@)),
{
    let ghost all = seqs::views(parts@);
    let mut out: Vec<String> = Vec::new();
    let mut i: usize = 0;
    while i < parts.len()
        invariant
            i <= parts@.len(),
            all == seqs::views(parts@),
            seqs::views(out@) == proper(all.take(i as int)),
        decreases parts.len() - i,
    {
        assert(all.take(i + 1).drop_last() =~= all.take(i as int));
        assert(all.take(i + 1).last() == parts@[i as int]@);
        if !(parts[i].as_str().is_empty() || text::same(parts[i].as_str(), ".")) {
            out.push(parts[i].clone());
        }
        i += 1;
    }
    assert(all.take(i as int) =~= all);
    out
}

/// What a path names, below the output directory: see [`resolved`].
pub fn resolve_components(rel: &str) -> (r: Result<Vec<String>, String>)
    ensures
        match r {
            Ok(v) => resolved(rel@) == Ok::<Seq<Seq<char>>, Seq<char>>(seqs::views(v@)),
            Err(e) => resolved(rel@) == Err::<Seq<Seq<char>>, Seq<char>>(e@),
        },
{
    let t = text::trim(rel);
    let v = text::chars_of(t.as_str());
    if v.len() == 0 {
        return Err("path must not be empty".to_owned());
    }
    if v[0] == '/' || v[0] == '\\' {
        return Err(text::concat2("path must be relative, not absolute: ", t.as_str()));
    }
    proof {
        reveal_strlit(".json");
        reveal_strlit("/");
    }
    let stem = if text::ends_with(t.as_str(), ".json") {
        let s = text::text_of(&v, 0, v.len() - 5);
        assert(s@ =~= t@.take(t@.len() - 5));
        s
    } else {
        t.clone()
    };
    let parts = text::split_text(slash(stem.as_str()).as_str(), "/");
    if names::holds(&parts, "..") {
        return Err(text::concat2("path must not contain '..': ", t.as_str()));
    }
    let mut named = proper_parts(&parts);
    let ghost all = seqs::views(named@);
    match named.pop() {
        None => Err(
            text::concat2("path resolves to the output directory itself: ", t.as_str()),
        ),
        Some(last) => {
            assert(seqs::views(named@) =~= all.drop_last());
            assert(last@ == all.last());
            named.push(text::concat2(last.as_str(), ".json"));
            Ok(named)
        },
    }
}

/// `c` names something within a directory: it is no separator, and leads neither
/// nowhere nor upwards.
pub open spec fn is_component(c: Seq<char>) -> bool {
    &&& c.len() > 0
    &&& c != "."@
    &&& c != ".."@
    &&& forall|i: int| 0 <= i < c.len() ==> #[trigger] c[i] != '/' && c[i] != '\\'
}

proof fn lemma_piece_free(s: Seq<char>, from: int)
    requires
        0 <= from <= s.len(),
        forall|i: int| 0 <= i < s.len() ==> #[trigger] s[i] != '\\',
    ensures
        forall|k: int, i: int|
            0 <= k < text::split_from(s, "/"@, from).len() && 0 <= i < text::split_from(
                s,
                "/"@,
                from,
            )[k].len() ==> (#[trigger] text::split_from(s, "/"@, from)[k][i]) != '/'
                && text::split_from(s, "/"@, from)[k][i] != '\\',
    decreases s.len() - from,
{
    reveal_strlit("/");
    let d = "/"@;
    text::lemma_find_from(s, d, from);
    let ps = text::split_from(s, d, from);
    let end = match text::find_from(s, d, from) {
        Some(i) => i,
        None => s.len() as int,
    };
    assert forall|j: int| from <= j < end implies #[trigger] s[j] != '/' by {
        if s[j] == '/' {
            assert(s.subrange(j, j + 1) =~= d);
            assert(text::occurs_at(s, d, j));
        }
    }
    match text::find_from(s, d, from) {
        Some(i) => {
            lemma_piece_free(s, i + 1);
            let rest = text::split_from(s, d, i + 1);
            assert(ps =~= seq![s.subrange(from, i)] + rest);
            assert forall|k: int, j: int| 0 <= k < ps.len() && 0 <= j < ps[k].len() implies (
            #[trigger] ps[k][j]) != '/' && ps[k][j] != '\\' by {
                if k > 0 {
                    assert(ps[k] == rest[k - 1]);
                    assert(rest[k - 1][j] != '/' && rest[k - 1][j] != '\\');
                } else {
                    assert(ps[k][j] == s[from + j]);
                }
            }
        },
        None => {
            assert(ps =~= seq![s.subrange(from, s.len() as int)]);
        },
    }
}

proof fn lemma_proper(parts: Seq<Seq<char>>, k: int)
    requires
        0 <= k < proper(parts).len(),
    ensures
        parts.contains(proper(parts)[k]),
        proper(parts)[k].len() > 0,
        proper(parts)[k] != "."@,
    decreases parts.len(),
{
    if parts.len() > 0 {
        let before = parts.drop_last();
        if k < proper(before).len() {
            lemma_proper(before, k);
            let i = choose|i: int| 0 <= i < before.len() && before[i] == proper(before)[k];
            assert(parts[i] == proper(parts)[k]);
        } else {
            assert(parts[parts.len() - 1] == proper(parts)[k]);
        }
    }
}

/// A path never leads out of the output directory: whatever it names is named by
/// components that stay within it.
pub proof fn law_paths_stay_inside(rel: Seq<char>, k: int)
    requires
        resolved(rel) is Ok,
        0 <= k < resolved(rel)->Ok_0.len(),
    ensures
        is_component(resolved(rel)->Ok_0[k]),
{
    reveal_strlit(".json");
    reveal_strlit(".");
    reveal_strlit("..");
    let t = text::trimmed(rel);
    let stem = if text::has_suffix(t, ".json"@) {
        t.take(t.len() - 5)
    } else {
        t
    };
    let s = slashed(stem);
    assert forall|i: int| 0 <= i < s.len() implies #[trigger] s[i] != '\\' by {
        assert(s[i] == if stem[i] == '\\' { '/' } else { stem[i] });
    }
    let parts = text::split(s, "/"@);
    let named = proper(parts);
    lemma_piece_free(s, 0);
    let c = named[k];
    lemma_proper(named.take(0) + parts, k);
    assert(named.take(0) + parts =~= parts);
    lemma_proper(parts, k);
    let p = choose|p: int| 0 <= p < parts.len() && parts[p] == c;
    assert(c != ".."@);
    assert forall|i: int| 0 <= i < c.len() implies #[trigger] c[i] != '/' && c[i] != '\\' by {
        assert(parts[p][i] != '/' && parts[p][i] != '\\');
    }
    assert(is_component(c));
    if k == named.len() - 1 {
        let at = c.len();
        let f = as_json_file(c);
        assert(f == resolved(rel)->Ok_0[k]);
        assert(f.len() > 5);
        assert forall|i: int| 0 <= i < f.len() implies #[trigger] f[i] != '/' && f[i] != '\\' by {
            if i < at {
                assert(f[i] == c[i]);
            } else {
                assert(f[i] == ".json"@[i - at]);
            }
        }
    } else {
        assert(resolved(rel)->Ok_0[k] == c);
    }
}

/// A graph with a plain name is kept in a file with that name, and writing out the ending
/// makes no difference. Whatever the name, the file has that ending.
pub proof fn law_graphs_are_kept_in_named_files(rel: Seq<char>, name: Seq<char>)
    requires
        is_component(name),
        text::trimmed(name) == name,
        text::trimmed(name + ".json"@) == name + ".json"@,
        !text::has_suffix(name, ".json"@),
    ensures
        resolved(name) == Ok::<Seq<Seq<char>>, Seq<char>>(seq![name + ".json"@]),
        resolved(name + ".json"@) == Ok::<Seq<Seq<char>>, Seq<char>>(seq![name + ".json"@]),
        resolved(rel) matches Ok(cs) ==> cs.len() > 0 && text::has_suffix(cs.last(), ".json"@),
{
    reveal_strlit(".json");
    assert(".json"@.len() == 5);
    reveal_strlit("/");
    assert("/"@.len() == 1);
    reveal_strlit(".");
    assert("."@.len() == 1);
    reveal_strlit("..");
    assert(".."@.len() == 2);
    let full = name + ".json"@;
    assert(full.subrange(name.len() as int, full.len() as int) =~= ".json"@);
    assert(full.take(full.len() - 5) =~= name);
    assert(slashed(name) =~= name);
    assert(!text::contains(name, "/"@)) by {
        if text::contains(name, "/"@) {
            let i = choose|i: int| text::occurs_at(name, "/"@, i);
            assert(name.subrange(i, i + 1)[0] == '/');
            assert(name[i] == '/');
        }
    }
    text::lemma_split_none(name, "/"@);
    let parts = seq![name];
    assert(parts.drop_last() =~= seq![]);
    assert(proper(parts.drop_last()) =~= seq![]);
    assert(proper(parts) =~= seq![name]);
    assert(!parts.contains(".."@));
    assert(parts.drop_last().push(full) =~= seq![full]);
    if let Ok(cs) = resolved(rel) {
        let last = cs.last();
        assert(last.subrange(last.len() - 5, last.len() as int) =~= ".json"@);
    }
}

/// A path below a directory starts with the directory and ends with what is below it.
pub proof fn law_paths_start_with_the_directory(output: Seq<char>, cs: Seq<Seq<char>>)
    ensures
        ({
            let p = path_below(output, cs);
            let below = text::joined(cs, "/"@);
            &&& p.len() >= output.len() + below.len()
            &&& p.take(output.len() as int) == output
            &&& p.skip(p.len() - below.len()) == below
            &&& output.len() > 0 ==> p[p.len() - below.len() - 1] == '/'
        }),
{
    reveal_strlit("/");
    assert("/"@.len() == 1);
    let p = path_below(output, cs);
    let below = text::joined(cs, "/"@);
    assert(p.take(output.len() as int) =~= output);
    assert(p.skip(p.len() - below.len()) =~= below);
}

/// A path below the directory `output`, with slashes between its components.
pub open spec fn path_below(output: Seq<char>, cs: Seq<Seq<char>>) -> Seq<char> {
    if output.len() == 0 {
        text::joined(cs, "/"@)
    } else if output.last() == '/' {
        output + text::joined(cs, "/"@)
    } else {
        output + "/"@ + text::joined(cs, "/"@)
    }
}

} // verus!
