//! Agents that are run as a program: the prompt goes in, and the answer comes out.

use vstd::prelude::*;

use crate::{names, seqs, text};

verus! {

broadcast use crate::seqs::group_views;

/// An agent program.
#[derive(Clone, Copy, Debug, PartialEq, Eq, Structural)]
pub enum AgentCli {
    Minimaxcc,
    Glmcc,
    Mimocc,
}

/// The name of an agent program.
pub open spec fn binary_name(c: AgentCli) -> Seq<char> {
    match c {
        AgentCli::Minimaxcc => "minimaxcc"@,
        AgentCli::Glmcc => "glmcc"@,
        AgentCli::Mimocc => "mimocc"@,
    }
}

/// The agent program that a name in lower case is of.
pub open spec fn cli_named(lowered: Seq<char>) -> Option<AgentCli> {
    if lowered == "minimaxcc"@ || lowered == "minimax"@ {
        Some(AgentCli::Minimaxcc)
    } else if lowered == "glmcc"@ || lowered == "glm"@ {
        Some(AgentCli::Glmcc)
    } else if lowered == "mimocc"@ || lowered == "mimo"@ {
        Some(AgentCli::Mimocc)
    } else {
        None
    }
}

impl Default for AgentCli {
    fn default() -> (r: AgentCli)
        ensures
            r == AgentCli::Minimaxcc,
    {
        AgentCli::Minimaxcc
    }
}

impl AgentCli {
    /// The name of the program.
    pub fn binary(&self) -> (r: &'static str)
        ensures
            r@ == binary_name(*self),
    {
        match self {
            AgentCli::Minimaxcc => "minimaxcc",
            AgentCli::Glmcc => "glmcc",
            AgentCli::Mimocc => "mimocc",
        }
    }

    /// The program that a name in lower case is of.
    pub fn of_lower(lowered: &str) -> (r: Option<AgentCli>)
        ensures
            r == cli_named(lowered@),
    {
        if text::same(lowered, "minimaxcc") || text::same(lowered, "minimax") {
            Some(AgentCli::Minimaxcc)
        } else if text::same(lowered, "glmcc") || text::same(lowered, "glm") {
            Some(AgentCli::Glmcc)
        } else if text::same(lowered, "mimocc") || text::same(lowered, "mimo") {
            Some(AgentCli::Mimocc)
        } else {
            None
        }
    }

    /// The program that a name is of: see [`AgentCli::of_lower`].
    pub fn parse(s: &str) -> (r: Option<AgentCli>)
        ensures
            r == cli_named(text::lower(text::trimmed(s@))),
    {
        AgentCli::of_lower(text::to_lower(text::trim(s).as_str()).as_str())
    }
}

/// A program is the one that its name is of.
pub proof fn law_binary_names_its_program(c: AgentCli)
    ensures
        cli_named(binary_name(c)) == Some(c),
{
    reveal_strlit("minimaxcc");
    reveal_strlit("minimax");
    reveal_strlit("glmcc");
    reveal_strlit("glm");
    reveal_strlit("mimocc");
    reveal_strlit("mimo");
    assert("minimaxcc"@[0] == 'm' && "minimaxcc"@.len() == 9);
    assert("glmcc"@[0] == 'g' && "glmcc"@.len() == 5);
    assert("mimocc"@.len() == 6);
    assert("minimax"@.len() == 7);
    assert("glm"@.len() == 3);
}

/// An agent program and what it is given on its command line.
pub struct AgentCliBackend {
    pub cli: AgentCli,
    pub extra_args: Vec<String>,
}

impl AgentCliBackend {
    /// The program with nothing more on its command line.
    pub fn new(cli: AgentCli) -> (r: AgentCliBackend)
        ensures
            r.cli == cli,
            r.extra_args@.len() == 0,
    {
        AgentCliBackend { cli, extra_args: Vec::new() }
    }

    /// The program with more on its command line.
    pub fn with_args(cli: AgentCli, extra_args: Vec<String>) -> (r: AgentCliBackend)
        ensures
            r.cli == cli,
            r.extra_args == extra_args,
    {
        AgentCliBackend { cli, extra_args }
    }

    /// The command line: what was given, and then that the prompt is read and the
    /// answer printed.
    pub fn arguments(&self) -> (r: Vec<String>)
        ensures
            seqs::views(r@) == seqs::views(self.extra_args@).push("-p"@),
    {
        let mut args = names::clone_names(&self.extra_args);
        args.push("-p".to_owned());
        args
    }

    /// The answer of a run: what was printed, or why there is none.
    pub fn read_output(&self, success: bool, status: &str, stdout: &str, stderr: &str) -> (r: Result<
        String,
        String,
    >)
        ensures
            match r {
                Ok(t) => success && t@ == text::trimmed(stdout@),
                Err(e) => !success && e@ == "`"@ + binary_name(self.cli) + "` exited with "@
                    + status@ + ": "@ + stderr@,
            },
    {
        if success {
            return Ok(text::trim(stdout));
        }
        let mut e = text::concat2("`", self.cli.binary());
        e.append("` exited with ");
        e.append(status);
        e.append(": ");
        e.append(stderr);
        Err(e)
    }
}

} // verus!
