//! The agent program `pi-agent`, which prints a stream of JSON records.

use vstd::prelude::*;

use crate::json::{Json, JsonV};
use crate::{json, names, seqs, text};

verus! {

broadcast use {crate::seqs::group_views, crate::json::group_json};

/// `pi-agent` and what it is given on its command line.
pub struct PiAgentBackend {
    /// The name of the program or where it lies.
    pub binary: String,
    pub extra_args: Vec<String>,
}

/// A name in lower case is one of `pi-agent`.
pub open spec fn names_pi_agent(lowered: Seq<char>) -> bool {
    lowered == "pi-agent"@ || lowered == "pi_agent"@ || lowered == "piagent"@ || lowered == "pi"@
}

/// Whether a name in lower case is one of `pi-agent`.
pub fn is_pi_agent(lowered: &str) -> (r: bool)
    ensures
        r == names_pi_agent(lowered@),
{
    text::same(lowered, "pi-agent") || text::same(lowered, "pi_agent") || text::same(
        lowered,
        "piagent",
    ) || text::same(lowered, "pi")
}

impl PiAgentBackend {
    /// The program `pi-agent` with nothing more on its command line.
    pub fn new() -> (r: PiAgentBackend)
        ensures
            r.binary@ == "pi-agent"@,
            r.extra_args@.len() == 0,
    {
        PiAgentBackend { binary: "pi-agent".to_owned(), extra_args: Vec::new() }
    }

    /// The program `pi-agent` with more on its command line.
    pub fn with_args(extra_args: Vec<String>) -> (r: PiAgentBackend)
        ensures
            r.binary@ == "pi-agent"@,
            r.extra_args == extra_args,
    {
        PiAgentBackend { binary: "pi-agent".to_owned(), extra_args }
    }

    /// A program that does what `pi-agent` does.
    pub fn with_binary(binary: &str, extra_args: Vec<String>) -> (r: PiAgentBackend)
        ensures
            r.binary@ == binary@,
            r.extra_args == extra_args,
    {
        PiAgentBackend { binary: binary.to_owned(), extra_args }
    }

    /// Whether a name is one of `pi-agent`: see [`is_pi_agent`].
    pub fn accepts(name: &str) -> (r: bool)
        ensures
            r == names_pi_agent(text::lower(text::trimmed(name@))),
    {
        is_pi_agent(text::to_lower(text::trim(name).as_str()).as_str())
    }

    /// The command line: what was given, and then that the prompt is read, records
    /// are printed and no tools are used.
    pub fn arguments(&self) -> (r: Vec<String>)
        ensures
            seqs::views(r@) == seqs::views(self.extra_args@).push("-p"@).push("-"@).push(
                "--stream-json"@,
            ).push("--no-tools"@).push("--no-approve"@),
    {
        let mut args = names::clone_names(&self.extra_args);
        args.push("-p".to_owned());
        args.push("-".to_owned());
        args.push("--stream-json".to_owned());
        args.push("--no-tools".to_owned());
        args.push("--no-approve".to_owned());
        args
    }

    /// The answer of a run, or why there is none.
    pub fn read_output(&self, success: bool, status: &str, stdout: &str, stderr: &str) -> (r: Result<
        String,
        String,
    >)
        ensures
            match (r, stream_answer(stdout@)) {
                (Ok(t), Ok(w)) => t@ == w,
                (Err(e), Err(w)) => e@ == if success {
                    w
                } else {
                    "`"@ + self.binary@ + "` exited with "@ + status@ + ": "@ + if text::trimmed(
                        stderr@,
                    ).len() == 0 {
                        w
                    } else {
                        text::trimmed(stderr@)
                    }
                },
                _ => false,
            },
    {
        match extract_assistant_text(stdout) {
            Ok(t) => Ok(t),
            Err(w) => {
                if success {
                    return Err(w);
                }
                let detail = text::trim(stderr);
                let mut e = text::concat2("`", self.binary.as_str());
                e.append("` exited with ");
                e.append(status);
                e.append(": ");
                if detail.as_str().is_empty() {
                    e.append(w.as_str());
                } else {
                    e.append(detail.as_str());
                }
                Err(e)
            },
        }
    }
}

/// What the records of a stream say so far: the answer as a whole, the pieces of it,
/// and what went wrong.
pub struct StreamV {
    pub message: Option<Seq<char>>,
    pub deltas: Seq<char>,
    pub error: Option<Seq<char>>,
}

/// A stream before its first record.
pub open spec fn silent() -> StreamV {
    StreamV { message: None, deltas: seq![], error: None }
}

/// A stream after the record `v`.
pub open spec fn after_record(st: StreamV, v: JsonV) -> StreamV {
    match json::text_in(json::field(v, "type"@)) {
        None => st,
        Some(t) => if t == "assistant_message"@ {
            match json::text_in(json::field(v, "text"@)) {
                Some(s) => StreamV { message: Some(s), ..st },
                None => st,
            }
        } else if t == "assistant_text_delta"@ {
            match json::text_in(json::field(v, "delta"@)) {
                Some(s) => StreamV { deltas: st.deltas + s, ..st },
                None => st,
            }
        } else if t == "error"@ {
            StreamV {
                error: Some(
                    match json::text_in(json::field(v, "message"@)) {
                        Some(s) => s,
                        None => "unknown error"@,
                    },
                ),
                ..st
            }
        } else if t == "agent_end"@ && json::field(v, "ok"@) == Some(JsonV::Bool(false))
            && st.error is None {
            StreamV { error: Some("pi-agent reported agent_end ok=false"@), ..st }
        } else {
            st
        },
    }
}

/// A stream after the records `vs`.
pub open spec fn after_records(vs: Seq<JsonV>) -> StreamV
    decreases vs.len(),
{
    if vs.len() == 0 {
        silent()
    } else {
        after_record(after_records(vs.drop_last()), vs.last())
    }
}

/// The answer in a stream: a whole answer that says something; else what went wrong;
/// else the pieces of an answer; else an answer that says nothing.
pub open spec fn concluded(st: StreamV) -> Result<Seq<char>, Seq<char>> {
    match st.message {
        Some(m) => if m.len() > 0 {
            Ok(m)
        } else {
            match st.error {
                Some(e) => Err("pi-agent error: "@ + e),
                None => Ok(st.deltas),
            }
        },
        None => match st.error {
            Some(e) => Err("pi-agent error: "@ + e),
            None => if st.deltas.len() > 0 {
                Ok(st.deltas)
            } else {
                Err("pi-agent produced no assistant_message in its --stream-json output"@)
            },
        },
    }
}

/// The records in the lines `ls`; a line that is no JSON is passed over.
pub open spec fn records(ls: Seq<Seq<char>>) -> Seq<JsonV>
    decreases ls.len(),
{
    if ls.len() == 0 {
        seq![]
    } else {
        match json::json_parsed(ls.last()) {
            Some(v) => records(ls.drop_last()).push(v),
            None => records(ls.drop_last()),
        }
    }
}

/// The answer in what was printed.
pub open spec fn stream_answer(stdout: Seq<char>) -> Result<Seq<char>, Seq<char>> {
    concluded(after_records(records(text::nonblank_lines(stdout))))
}

/// The answer in a stream of records.
pub fn answer_of_records(vs: &Vec<Json>) -> (r: Result<String, String>)
    ensures
        match (r, concluded(after_records(seqs::views(vs@)))) {
            (Ok(t), Ok(w)) => t@ == w,
            (Err(e), Err(w)) => e@ == w,
            _ => false,
        },
{
    let ghost all = seqs::views(vs@);
    let mut message: Option<String> = None;
    let mut deltas = String::new();
    let mut error: Option<String> = None;
    let mut i: usize = 0;
    while i < vs.len()
        invariant
            i <= vs@.len(),
            all == seqs::views(vs@),
            seqs::opt_view(message) == after_records(all.take(i as int)).message,
            deltas@ == after_records(all.take(i as int)).deltas,
            seqs::opt_view(error) == after_records(all.take(i as int)).error,
        decreases vs.len() - i,
    {
        assert(all.take(i + 1).drop_last() =~= all.take(i as int));
        assert(all.take(i + 1).last() == vs@[i as int]@);
        let v = &vs[i];
        if let Some(t) = v.text_at("type") {
            if text::same(t.as_str(), "assistant_message") {
                if let Some(s) = v.text_at("text") {
                    message = Some(s);
                }
            } else if text::same(t.as_str(), "assistant_text_delta") {
                if let Some(s) = v.text_at("delta") {
                    deltas.append(s.as_str());
                }
            } else if text::same(t.as_str(), "error") {
                error = Some(
                    match v.text_at("message") {
                        Some(s) => s,
                        None => "unknown error".to_owned(),
                    },
                );
            } else if text::same(t.as_str(), "agent_end") && error.is_none() {
                if let Some(Json::Bool(false)) = v.get("ok") {
                    error = Some("pi-agent reported agent_end ok=false".to_owned());
                }
            }
        }
        i += 1;
    }
    assert(all.take(i as int) =~= all);
    let empty = match &message {
        Some(m) => m.as_str().is_empty(),
        None => true,
    };
    if !empty {
        if let Some(m) = message {
            return Ok(m);
        }
    } else {
        if let Some(e) = error {
            return Err(text::concat2("pi-agent error: ", e.as_str()));
        }
        if !deltas.as_str().is_empty() || message.is_some() {
            return Ok(deltas);
        }
    }
    Err("pi-agent produced no assistant_message in its --stream-json output".to_owned())
}

/// The answer in what was printed: see [`answer_of_records`].
pub fn extract_assistant_text(stdout: &str) -> (r: Result<String, String>)
    ensures
        match (r, stream_answer(stdout@)) {
            (Ok(t), Ok(w)) => t@ == w,
            (Err(e), Err(w)) => e@ == w,
            _ => false,
        },
{
    let lines = text::split_nonblank_lines(stdout);
    let ghost all = seqs::views(lines@);
    let mut vs: Vec<Json> = Vec::new();
    let mut i: usize = 0;
    while i < lines.len()
        invariant
            i <= lines@.len(),
            all == seqs::views(lines@),
            seqs::views(vs@) == records(all.take(i as int)),
        decreases lines.len() - i,
    {
        assert(all.take(i + 1).drop_last() =~= all.take(i as int));
        if let Some(v) = json::parse_json(lines[i].as_str()) {
            vs.push(v);
        }
        i += 1;
    }
    assert(all.take(i as int) =~= all);
    answer_of_records(&vs)
}

/// The last message that an agent writes is its answer, where it says anything. Where it
/// writes none and nothing goes wrong, its answer is what it wrote bit by bit, in order.
pub proof fn law_the_last_message_is_the_answer(vs: Seq<JsonV>, v: JsonV, s: Seq<char>)
    requires
        s.len() > 0,
    ensures
        json::text_in(json::field(v, "type"@)) == Some("assistant_message"@) && json::text_in(
            json::field(v, "text"@),
        ) == Some(s) ==> concluded(after_records(vs.push(v))) == Ok::<Seq<char>, Seq<char>>(s),
        json::text_in(json::field(v, "type"@)) == Some("assistant_text_delta"@) && json::text_in(
            json::field(v, "delta"@),
        ) == Some(s) && after_records(vs).message is None && after_records(vs).error is None
            ==> concluded(after_records(vs.push(v))) == Ok::<Seq<char>, Seq<char>>(
            after_records(vs).deltas + s,
        ),
{
    assert(vs.push(v).drop_last() =~= vs);
    reveal_strlit("assistant_message");
    assert("assistant_message"@.len() == 17);
    reveal_strlit("assistant_text_delta");
    assert("assistant_text_delta"@.len() == 20);
}

/// An answer that says something comes back, whatever went wrong on the way; where
/// there is none, nothing hides what went wrong.
pub proof fn law_error_is_not_hidden(vs: Seq<JsonV>)
    ensures
        ({
            let st = after_records(vs);
            &&& st.message is Some && st.message->0.len() > 0 ==> concluded(st) == Ok::<
                Seq<char>,
                Seq<char>,
            >(st.message->0)
            &&& (st.message is None || st.message->0.len() == 0) && st.error is Some ==> concluded(
                st,
            ) is Err
        }),
{
}

} // verus!
