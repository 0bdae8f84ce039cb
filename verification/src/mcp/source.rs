//! Citing lines of a source file.

use vstd::prelude::*;

use crate::citation::{Citation, CitationV};
use crate::mcp::path;
use crate::types::graph::MetadataV;
use crate::{citation, names, seqs, text};

verus! {

broadcast use {crate::seqs::group_views, crate::json::group_json};

/// What a [`SourceCitation`] stands for.
pub struct SourceV {
    pub source_file: Seq<char>,
    pub start_line: usize,
    pub end_line: usize,
}

/// Lines of a source file.
pub struct SourceCitation {
    source_file: String,
    start_line: usize,
    end_line: usize,
}

impl View for SourceCitation {
    type V = SourceV;

    closed spec fn view(&self) -> SourceV {
        SourceV {
            source_file: self.source_file@,
            start_line: self.start_line,
            end_line: self.end_line,
        }
    }
}

/// A source may be cited where, and only where, its file is named by a path below the
/// directory and its lines are counted from one and do not end before they start.
pub proof fn law_sources_below_are_cited(file: Seq<char>, start: usize, end: usize)
    ensures
        citation_objection(file, start, end) is None <==> {
            let t = text::trimmed(file);
            &&& 1 <= start <= end
            &&& t.len() > 0
            &&& t[0] != '/'
            &&& t[0] != '\\'
            &&& !text::split(path::slashed(t), "/"@).contains(".."@)
        },
{
}

/// Why lines of a file cannot be cited; nothing where they can.
pub open spec fn citation_objection(file: Seq<char>, start: usize, end: usize) -> Option<
    Seq<char>,
> {
    let t = text::trimmed(file);
    if t.len() == 0 {
        Some("source_file must not be empty"@)
    } else if t[0] == '/' || t[0] == '\\' {
        Some("source_file must be relative, not absolute: "@ + t)
    } else if text::split(path::slashed(t), "/"@).contains(".."@) {
        Some("source_file must not contain '..': "@ + t)
    } else if start == 0 || end < start {
        Some(
            "invalid source lines "@ + text::decimal(start as nat) + "-"@ + text::decimal(
                end as nat,
            ),
        )
    } else {
        None
    }
}

impl SourceCitation {
    /// Lines of a file below the directory of the sources. Lines count from 1.
    pub fn new(source_file: String, start_line: usize, end_line: usize) -> (r: Result<
        SourceCitation,
        String,
    >)
        ensures
            match r {
                Ok(c) => citation_objection(source_file@, start_line, end_line) is None && c@ == (
                SourceV { source_file: text::trimmed(source_file@), start_line, end_line }),
                Err(e) => citation_objection(source_file@, start_line, end_line) == Some(e@),
            },
    {
        let t = text::trim(source_file.as_str());
        let v = text::chars_of(t.as_str());
        if v.len() == 0 {
            return Err("source_file must not be empty".to_owned());
        }
        if v[0] == '/' || v[0] == '\\' {
            return Err(text::concat2("source_file must be relative, not absolute: ", t.as_str()));
        }
        proof {
            reveal_strlit("/");
        }
        let parts = text::split_text(path::slash(t.as_str()).as_str(), "/");
        if names::holds(&parts, "..") {
            return Err(text::concat2("source_file must not contain '..': ", t.as_str()));
        }
        if start_line == 0 || end_line < start_line {
            let mut e = text::concat2(
                "invalid source lines ",
                text::to_decimal(start_line as u64).as_str(),
            );
            e.append("-");
            e.append(text::to_decimal(end_line as u64).as_str());
            return Err(e);
        }
        Ok(SourceCitation { source_file: t, start_line, end_line })
    }

    /// The file.
    pub fn source_file(&self) -> (r: &str)
        ensures
            r@ == self@.source_file,
    {
        self.source_file.as_str()
    }
}

/// Lines of a file, given by a file and two lines, or nothing where none of them is
/// given.
pub fn citation_from_parts(
    source_file: Option<String>,
    start_line: Option<usize>,
    end_line: Option<usize>,
) -> (r: Result<Option<SourceCitation>, String>)
    ensures
        match (source_file, start_line, end_line) {
            (None, None, None) => r is Ok && r->Ok_0 is None,
            (Some(f), Some(a), Some(b)) => match citation_objection(f@, a, b) {
                Some(e) => r is Err && r->Err_0@ == e,
                None => r is Ok && r->Ok_0 is Some && (r->Ok_0)->0@ == (SourceV {
                    source_file: text::trimmed(f@),
                    start_line: a,
                    end_line: b,
                }),
            },
            _ => r is Err && r->Err_0@
                == "source_file, start_line, and end_line must be provided together for provenance"@,
        },
{
    match (source_file, start_line, end_line) {
        (None, None, None) => Ok(None),
        (Some(f), Some(a), Some(b)) => match SourceCitation::new(f, a, b) {
            Ok(c) => Ok(Some(c)),
            Err(e) => Err(e),
        },
        _ => Err(
            "source_file, start_line, and end_line must be provided together for provenance".to_owned(),
        ),
    }
}

/// Why lines of a file of `lines` lines cannot be cited; nothing where they can. A
/// file that was not found has no number of lines.
pub open spec fn source_objection(c: SourceV, lines: Option<usize>) -> Option<Seq<char>> {
    match lines {
        None => Some("source_file '"@ + c.source_file + "' was not found"@),
        Some(n) => if c.end_line > n {
            Some(
                "lines "@ + text::decimal(c.start_line as nat) + "-"@ + text::decimal(
                    c.end_line as nat,
                ) + " exceed source_file '"@ + c.source_file + "' line count "@ + text::decimal(
                    n as nat,
                ),
            )
        } else {
            None
        },
    }
}

/// The citation of lines of a file.
pub open spec fn source_cited(c: SourceV) -> CitationV {
    citation::line_citation(Some(c.source_file), c.start_line as int, c.end_line as int)
}

/// Lines of a source file, and how many lines the file has, where it was found.
pub struct CitedSource {
    pub citation: SourceCitation,
    pub lines: Option<usize>,
}

impl SourceCitation {
    /// Why the lines cannot be cited of a file of `lines` lines; nothing where they
    /// can.
    pub fn check(&self, lines: Option<usize>) -> (r: Option<String>)
        ensures
            seqs::opt_view(r) == source_objection(self@, lines),
    {
        match lines {
            None => {
                let mut e = text::concat2("source_file '", self.source_file.as_str());
                e.append("' was not found");
                Some(e)
            },
            Some(n) => {
                if self.end_line > n {
                    let mut e = text::concat2(
                        "lines ",
                        text::to_decimal(self.start_line as u64).as_str(),
                    );
                    e.append("-");
                    e.append(text::to_decimal(self.end_line as u64).as_str());
                    e.append(" exceed source_file '");
                    e.append(self.source_file.as_str());
                    e.append("' line count ");
                    e.append(text::to_decimal(n as u64).as_str());
                    Some(e)
                } else {
                    None
                }
            },
        }
    }

    /// The citation of the lines.
    pub fn to_citation(&self) -> (r: Citation)
        ensures
            r@ == source_cited(self@),
    {
        Citation::new(Some(self.source_file.clone()), self.start_line, self.end_line)
    }
}

/// Why what is to be cited cannot be; nothing where it can or where nothing is.
pub open spec fn cited_objection(c: Option<(SourceV, Option<usize>)>) -> Option<Seq<char>> {
    match c {
        Some(s) => source_objection(s.0, s.1),
        None => None,
    }
}

/// What is known of a source that is to be cited.
pub open spec fn cited_view(c: Option<&CitedSource>) -> Option<(SourceV, Option<usize>)> {
    match c {
        Some(s) => Some((s.citation@, s.lines)),
        None => None,
    }
}

/// The values `m` with the source that is to be cited among the citations.
pub open spec fn with_source(m: MetadataV, c: Option<(SourceV, Option<usize>)>) -> MetadataV {
    match c {
        Some(s) => citation::cited(m, source_cited(s.0)),
        None => m,
    }
}

} // verus!
