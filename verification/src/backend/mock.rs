//! A stand-in for a model that gives answers that were written beforehand.

use vstd::prelude::*;

use crate::backend::{InvocationV, Message, MessageV, ToolChatResponse, ToolInvocation};
use crate::table::Dup;
use crate::seqs;

verus! {

broadcast use crate::seqs::group_views;

/// What a [`MockBackend`] stands for.
pub struct MockV {
    pub responses: Seq<Seq<char>>,
    pub tool_rounds: Seq<Seq<InvocationV>>,
    pub calls: nat,
    pub tool_calls: nat,
    pub seen_prompts: Seq<Seq<char>>,
}

/// Gives its answers one after the other, and the last one again where there are no
/// more; likewise its rounds of calls of tools.
pub struct MockBackend {
    responses: Vec<String>,
    tool_rounds: Vec<Vec<ToolInvocation>>,
    calls: usize,
    tool_calls: usize,
    seen_prompts: Vec<String>,
}

/// What each of the calls stands for.
pub open spec fn round_views(s: Seq<Vec<ToolInvocation>>) -> Seq<Seq<InvocationV>> {
    Seq::new(s.len(), |i: int| seqs::views(s[i]@))
}

impl View for MockBackend {
    type V = MockV;

    closed spec fn view(&self) -> MockV {
        MockV {
            responses: seqs::views(self.responses@),
            tool_rounds: round_views(self.tool_rounds@),
            calls: self.calls as nat,
            tool_calls: self.tool_calls as nat,
            seen_prompts: seqs::views(self.seen_prompts@),
        }
    }
}

/// Scripted answers and rounds are given in their order, and the last of them from then on.
pub proof fn law_the_last_answer_is_repeated(
    responses: Seq<Seq<char>>,
    rounds: Seq<Seq<InvocationV>>,
    n: nat,
)
    ensures
        n < responses.len() ==> nth_response(responses, n) == responses[n as int],
        0 < responses.len() <= n ==> nth_response(responses, n) == responses[responses.len() - 1],
        n < rounds.len() ==> nth_round(rounds, n) == rounds[n as int],
        0 < rounds.len() <= n ==> nth_round(rounds, n) == rounds[rounds.len() - 1],
{
}

/// The answer number `n` of `responses`: the last one again where there are no more,
/// and nothing where there is none.
pub open spec fn nth_response(responses: Seq<Seq<char>>, n: nat) -> Seq<char> {
    if responses.len() == 0 {
        seq![]
    } else if n < responses.len() {
        responses[n as int]
    } else {
        responses.last()
    }
}

/// The round number `n` of `rounds`: the last one again where there are no more, and no
/// calls where there is none.
pub open spec fn nth_round(rounds: Seq<Seq<InvocationV>>, n: nat) -> Seq<InvocationV> {
    if rounds.len() == 0 {
        seq![]
    } else if n < rounds.len() {
        rounds[n as int]
    } else {
        rounds.last()
    }
}

/// The text of the last message; nothing where there is none.
pub open spec fn last_content(ms: Seq<MessageV>) -> Seq<char> {
    if ms.len() == 0 {
        seq![]
    } else {
        ms.last().content
    }
}

/// The number after `n`, as far as numbers go.
pub open spec fn counted(n: nat) -> nat {
    if n < usize::MAX {
        n + 1
    } else {
        n
    }
}

/// The text of the last message.
fn content_of_last(messages: &Vec<Message>) -> (r: String)
    ensures
        r@ == last_content(seqs::views(messages@)),
{
    if messages.len() == 0 {
        String::new()
    } else {
        messages[messages.len() - 1].content.clone()
    }
}

impl MockBackend {
    /// A stand-in that gives these answers.
    pub fn new(responses: Vec<String>) -> (r: MockBackend)
        ensures
            r@ == (MockV {
                responses: seqs::views(responses@),
                tool_rounds: seq![],
                calls: 0,
                tool_calls: 0,
                seen_prompts: seq![],
            }),
    {
        let r = MockBackend {
            responses,
            tool_rounds: Vec::new(),
            calls: 0,
            tool_calls: 0,
            seen_prompts: Vec::new(),
        };
        assert(r@.tool_rounds =~= seq![]);
        assert(r@.seen_prompts =~= seq![]);
        r
    }

    /// A stand-in that always gives this answer.
    pub fn single(response: &str) -> (r: MockBackend)
        ensures
            r@ == (MockV {
                responses: seq![response@],
                tool_rounds: seq![],
                calls: 0,
                tool_calls: 0,
                seen_prompts: seq![],
            }),
    {
        let mut responses: Vec<String> = Vec::new();
        responses.push(response.to_owned());
        assert(seqs::views(responses@) =~= seq![response@]);
        MockBackend::new(responses)
    }

    /// The stand-in with rounds of calls of tools.
    pub fn with_tool_rounds(self, rounds: Vec<Vec<ToolInvocation>>) -> (r: MockBackend)
        ensures
            r@ == (MockV { tool_rounds: round_views(rounds@), ..self@ }),
    {
        let mut r = self;
        r.tool_rounds = rounds;
        r
    }

    /// The prompts that were seen.
    pub fn seen_prompts(&self) -> (r: &Vec<String>)
        ensures
            seqs::views(r@) == self@.seen_prompts,
    {
        &self.seen_prompts
    }

    /// The next answer.
    pub fn complete(&mut self, messages: &Vec<Message>) -> (r: String)
        ensures
            r@ == nth_response(old(self)@.responses, old(self)@.calls),
            final(self)@ == (MockV {
                calls: counted(old(self)@.calls),
                seen_prompts: old(self)@.seen_prompts.push(
                    last_content(seqs::views(messages@)),
                ),
                ..old(self)@
            }),
    {
        let content = content_of_last(messages);
        self.seen_prompts.push(content);
        let n: usize = self.responses.len();
        assert(seqs::views(self.responses@).len() == n);
        let r = if n == 0 {
            String::new()
        } else if self.calls < n {
            assert(seqs::views(self.responses@)[self.calls as int]
                == self.responses@[self.calls as int]@);
            self.responses[self.calls].clone()
        } else {
            assert(seqs::views(self.responses@)[n - 1] == self.responses@[n - 1]@);
            self.responses[n - 1].clone()
        };
        if self.calls < usize::MAX {
            self.calls = self.calls + 1;
        }
        r
    }

    /// The next round of calls.
    pub fn complete_with_tools(&mut self, messages: &Vec<Message>) -> (r: ToolChatResponse)
        ensures
            r.content is None,
            seqs::views(r.tool_calls@) == nth_round(
                old(self)@.tool_rounds,
                old(self)@.tool_calls,
            ),
            final(self)@ == (MockV {
                tool_calls: counted(old(self)@.tool_calls),
                seen_prompts: old(self)@.seen_prompts.push(
                    last_content(seqs::views(messages@)),
                ),
                ..old(self)@
            }),
    {
        let content = content_of_last(messages);
        self.seen_prompts.push(content);
        let mut calls: Vec<ToolInvocation> = Vec::new();
        let n: usize = self.tool_rounds.len();
        if n > 0 {
            let at: usize = if self.tool_calls < n {
                self.tool_calls
            } else {
                n - 1
            };
            let round = &self.tool_rounds[at];
            assert(self@.tool_rounds[at as int] == seqs::views(round@));
            let ghost all = seqs::views(round@);
            let mut i: usize = 0;
            while i < round.len()
                invariant
                    i <= round@.len(),
                    all == seqs::views(round@),
                    seqs::views(calls@) =~= all.take(i as int),
                decreases round.len() - i,
            {
                calls.push(round[i].dup());
                i += 1;
            }
            assert(seqs::views(calls@) =~= all);
        } else {
            assert(seqs::views(calls@) =~= seq![]);
        }
        if self.tool_calls < usize::MAX {
            self.tool_calls = self.tool_calls + 1;
        }
        ToolChatResponse { content: None, tool_calls: calls }
    }
}

} // verus!
