//! The regular expressions of the crate, and matching them.

use vstd::prelude::*;

use crate::seqs;

verus! {

/// A fenced block tagged as JSON; group 1 is what it holds.
pub const JSON_FENCE: &'static str = r"(?s)```json\s*(.*?)```";

/// A fenced block; group 1 is what it holds.
pub const ANY_FENCE: &'static str = r"(?s)```\s*(.*?)```";

/// A run of digits.
pub const DIGITS: &'static str = r"\d+";

/// A number in square brackets.
pub const MARKER: &'static str = r"\[\d+\]";

/// How an entity record starts.
pub const ENTITY_START: &'static str = r#"\(\s*"?entity"?\s*<\|>"#;

/// How a relationship record starts.
pub const RELATIONSHIP_START: &'static str = r#"\(\s*"?relationship"?\s*<\|>"#;

/// A quote of any kind.
pub const QUOTES: &'static str = r#"["'`]"#;

/// A run of white space.
pub const SPACES: &'static str = r"\s+";

/// A quote or an angle bracket.
pub const BRACKETS: &'static str = r#"["'<>]"#;

/// What is left of emphasis and of closed records in a description.
pub const MARKS: &'static str = r"\)\*\*|\*\*|\*\*##|\)";

/// `p` is one of the patterns above, each of which `regex` compiles.
pub open spec fn is_pattern(p: Seq<char>) -> bool {
    ||| p == JSON_FENCE@
    ||| p == ANY_FENCE@
    ||| p == DIGITS@
    ||| p == MARKER@
    ||| p == ENTITY_START@
    ||| p == RELATIONSHIP_START@
    ||| p == QUOTES@
    ||| p == SPACES@
    ||| p == BRACKETS@
    ||| p == MARKS@
}

/// Group 1 of the leftmost match of a pattern in a text.
pub uninterp spec fn first_group(pattern: Seq<char>, text: Seq<char>) -> Option<Seq<char>>;

/// The successive matches of a pattern in a text, which do not overlap: how many
/// characters stand before each, and the match itself.
pub uninterp spec fn all_matches(pattern: Seq<char>, text: Seq<char>) -> Seq<(nat, Seq<char>)>;

/// The pieces of a text between the successive matches of a pattern.
pub uninterp spec fn pieces(pattern: Seq<char>, text: Seq<char>) -> Seq<Seq<char>>;

/// A text with each of the successive matches of a pattern replaced.
pub uninterp spec fn all_replaced(pattern: Seq<char>, text: Seq<char>, by: Seq<char>) -> Seq<char>;

/// `regex::Regex::captures`: group 1 of the leftmost match of `pattern` in
/// `text`, or nothing where there is no match.
#[verifier::external_body]
pub(crate) fn find_group(pattern: &str, text: &str) -> (r: Option<String>)
    requires
        pattern@ == JSON_FENCE@ || pattern@ == ANY_FENCE@,
    ensures
        seqs::opt_view(r) == first_group(pattern@, text@),
{
    regex::Regex::new(pattern).unwrap().captures(text).map(|c| c[1].to_string())
}

/// `text` is the digits `d` in square brackets.
pub open spec fn in_brackets(text: Seq<char>, d: Seq<char>) -> bool {
    &&& text == seq!['['] + d + seq![']']
    &&& d.len() > 0
    &&& forall|i: int| 0 <= i < d.len() ==> '0' <= #[trigger] d[i] <= '9'
}

/// `regex::Regex::find_iter`: the successive matches of `pattern` in `text`, each
/// with the number of characters before it. A match starts and ends in the text,
/// it is what stands there, and the next one starts where it ends or later; none
/// of the patterns matches the empty text. The only run of digits in digits that
/// stand in square brackets is all of them.
#[verifier::external_body]
pub(crate) fn find_matches(pattern: &str, text: &str) -> (r: Vec<(usize, String)>)
    requires
        is_pattern(pattern@),
    ensures
        r@.len() == all_matches(pattern@, text@).len(),
        forall|i: int|
            0 <= i < r@.len() ==> (#[trigger] r@[i]).0 == all_matches(pattern@, text@)[i].0
                && r@[i].1@ == all_matches(pattern@, text@)[i].1,
        forall|i: int|
            0 <= i < r@.len() ==> (#[trigger] r@[i]).0 + r@[i].1@.len() <= text@.len()
                && r@[i].1@.len() > 0 && text@.subrange(
                r@[i].0 as int,
                r@[i].0 + r@[i].1@.len(),
            ) == r@[i].1@,
        forall|i: int, j: int|
            0 <= i < j < r@.len() ==> (#[trigger] r@[i]).0 + r@[i].1@.len() <= (
            #[trigger] r@[j]).0,
        forall|d: Seq<char>|
            pattern@ == DIGITS@ && #[trigger] in_brackets(text@, d) ==> r@.len() == 1
                && r@[0].1@ == d,
{
    regex::Regex::new(pattern).unwrap().find_iter(text)
        .map(|m| (text[..m.start()].chars().count(), m.as_str().to_string()))
        .collect()
}

/// `regex::Regex::split`: the pieces of `text` between the successive matches of
/// `pattern`.
#[verifier::external_body]
pub(crate) fn split_at_matches(pattern: &str, text: &str) -> (r: Vec<String>)
    requires
        is_pattern(pattern@),
    ensures
        seqs::views(r@) == pieces(pattern@, text@),
{
    regex::Regex::new(pattern).unwrap().split(text).map(|s| s.to_string()).collect()
}

/// `regex::Regex::replace_all` with a replacement that holds no `$`: `text` with
/// each of the successive matches of `pattern` replaced by `by`.
#[verifier::external_body]
pub(crate) fn replace_matches(pattern: &str, text: &str, by: &str) -> (r: String)
    requires
        is_pattern(pattern@),
        !by@.contains('$'),
    ensures
        r@ == all_replaced(pattern@, text@, by@),
{
    regex::Regex::new(pattern).unwrap().replace_all(text, by).into_owned()
}

} // verus!
