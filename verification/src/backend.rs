//! Talking to language models: messages, tools, and reading what came back. What
//! sends a message and waits for the answer stands outside this crate.

use vstd::prelude::*;

use crate::json::{Json, JsonV, ObjectBuilder};
use crate::table::Dup;
use crate::{json, seqs, text};

pub mod agent_cli;
pub mod llms_backend;
pub mod mock;
pub mod pi_agent;
pub mod sdk_agent;

pub use agent_cli::{AgentCli, AgentCliBackend};
pub use llms_backend::LlmsBackend;
pub use mock::MockBackend;
pub use pi_agent::PiAgentBackend;
pub use sdk_agent::SdkAgentBackend;

verus! {

broadcast use {crate::seqs::group_views, crate::json::group_json};

/// What a [`Message`] stands for.
pub struct MessageV {
    pub role: Seq<char>,
    pub content: Seq<char>,
    pub tool_calls: Option<Seq<JsonV>>,
    pub tool_call_id: Option<Seq<char>>,
}

/// A message of a conversation.
pub struct Message {
    pub role: String,
    pub content: String,
    /// The calls of tools that an assistant's message asks for.
    pub tool_calls: Option<Vec<Json>>,
    /// The call that a tool's message answers.
    pub tool_call_id: Option<String>,
}

impl View for Message {
    type V = MessageV;

    open spec fn view(&self) -> MessageV {
        MessageV {
            role: self.role@,
            content: self.content@,
            tool_calls: match self.tool_calls {
                Some(c) => Some(seqs::views(c@)),
                None => None,
            },
            tool_call_id: seqs::opt_view(self.tool_call_id),
        }
    }
}

/// A message of a text alone.
pub open spec fn plain_message(role: Seq<char>, content: Seq<char>) -> MessageV {
    MessageV { role, content, tool_calls: None, tool_call_id: None }
}

impl Dup for Message {
    fn dup(&self) -> (r: Message) {
        Message {
            role: self.role.clone(),
            content: self.content.clone(),
            tool_calls: match &self.tool_calls {
                Some(c) => Some(crate::citation::dup_list(c)),
                None => None,
            },
            tool_call_id: crate::types::graph::dup_option(&self.tool_call_id),
        }
    }
}

impl Message {
    /// A message of a text alone.
    pub fn new(role: &str, content: &str) -> (r: Message)
        ensures
            r@ == plain_message(role@, content@),
    {
        Message {
            role: role.to_owned(),
            content: content.to_owned(),
            tool_calls: None,
            tool_call_id: None,
        }
    }

    /// A message that says what is to be done.
    pub fn system(content: &str) -> (r: Message)
        ensures
            r@ == plain_message("system"@, content@),
    {
        Message::new("system", content)
    }

    /// A message of the one who asks.
    pub fn user(content: &str) -> (r: Message)
        ensures
            r@ == plain_message("user"@, content@),
    {
        Message::new("user", content)
    }

    /// A message of the one who answers.
    pub fn assistant(content: &str) -> (r: Message)
        ensures
            r@ == plain_message("assistant"@, content@),
    {
        Message::new("assistant", content)
    }

    /// A message of the one who answers that asks for calls of tools.
    pub fn assistant_with_tool_calls(content: Option<String>, tool_calls: Vec<Json>) -> (r: Message)
        ensures
            r@ == (MessageV {
                role: "assistant"@,
                content: match content {
                    Some(c) => c@,
                    None => seq![],
                },
                tool_calls: Some(seqs::views(tool_calls@)),
                tool_call_id: None,
            }),
    {
        let content = match content {
            Some(c) => c,
            None => String::new(),
        };
        Message {
            role: "assistant".to_owned(),
            content,
            tool_calls: Some(tool_calls),
            tool_call_id: None,
        }
    }

    /// What a tool answers to a call.
    pub fn tool_result(tool_call_id: &str, content: &str) -> (r: Message)
        ensures
            r@ == (MessageV {
                role: "tool"@,
                content: content@,
                tool_calls: None,
                tool_call_id: Some(tool_call_id@),
            }),
    {
        Message {
            role: "tool".to_owned(),
            content: content.to_owned(),
            tool_calls: None,
            tool_call_id: Some(tool_call_id.to_owned()),
        }
    }
}

/// A message as it stands in a single text: that of an assistant is marked.
pub open spec fn flat_message(m: MessageV) -> Seq<char> {
    if m.role == "assistant"@ {
        "[assistant]\n"@ + m.content + "\n\n"@
    } else {
        m.content + "\n\n"@
    }
}

/// Those messages as a single text that set the scene, or those that do not.
pub open spec fn flattened_part(ms: Seq<MessageV>, system: bool) -> Seq<char>
    decreases ms.len(),
{
    if ms.len() == 0 {
        seq![]
    } else if (ms.last().role == "system"@) == system {
        flattened_part(ms.drop_last(), system) + flat_message(ms.last())
    } else {
        flattened_part(ms.drop_last(), system)
    }
}

/// Messages as a single text: first those that set the scene, then the conversation.
pub open spec fn flattened(ms: Seq<MessageV>) -> Seq<char> {
    flattened_part(ms, true) + flattened_part(ms, false)
}

/// Messages are written one behind the other, what the system says before all else: a
/// message of anyone else comes at the end of what was written, and one of the system
/// behind what the system said and before the rest. What the assistant said is marked.
pub proof fn law_messages_are_written_in_order(ms: Seq<MessageV>, m: MessageV)
    ensures
        ({
            let said = if m.role == "assistant"@ {
                "[assistant]\n"@ + m.content + "\n\n"@
            } else {
                m.content + "\n\n"@
            };
            let n = flattened_part(ms, true).len() as int;
            &&& m.role != "system"@ ==> flattened(ms.push(m)) == flattened(ms) + said
            &&& m.role == "system"@ ==> flattened(ms.push(m)) == flattened(ms).take(n) + said
                + flattened(ms).skip(n)
        }),
{
    assert(ms.push(m).drop_last() =~= ms);
    let a = flattened_part(ms, true);
    let b = flattened_part(ms, false);
    assert((a + b).take(a.len() as int) =~= a);
    assert((a + b).skip(a.len() as int) =~= b);
    assert(a + (b + flat_message(m)) =~= (a + b) + flat_message(m));
}

/// Write those messages that set the scene, or those that do not.
fn flatten_part(out: &mut String, messages: &Vec<Message>, system: bool)
    ensures
        final(out)@ == old(out)@ + flattened_part(seqs::views(messages@), system),
{
    let ghost all = seqs::views(messages@);
    let ghost start = out@;
    let mut i: usize = 0;
    assert(out@ =~= start + flattened_part(all.take(0), system));
    while i < messages.len()
        invariant
            i <= messages@.len(),
            all == seqs::views(messages@),
            out@ == start + flattened_part(all.take(i as int), system),
        decreases messages.len() - i,
    {
        assert(all.take(i + 1).drop_last() =~= all.take(i as int));
        let m = &messages[i];
        assert(all.take(i + 1).last() == m@);
        let ghost before = out@;
        if text::same(m.role.as_str(), "system") == system {
            if text::same(m.role.as_str(), "assistant") {
                out.append("[assistant]\n");
            }
            out.append(m.content.as_str());
            out.append("\n\n");
            assert(out@ =~= before + flat_message(m@));
            assert(out@ =~= start + flattened_part(all.take(i + 1), system));
        }
        i += 1;
    }
    assert(all.take(i as int) =~= all);
}

/// Messages as a single text, for what takes one text only.
pub fn flatten_prompt(messages: &Vec<Message>) -> (r: String)
    ensures
        r@ == flattened(seqs::views(messages@)),
{
    let mut out = String::new();
    flatten_part(&mut out, messages, true);
    flatten_part(&mut out, messages, false);
    assert(out@ =~= flattened(seqs::views(messages@)));
    out
}

/// What is asked of a model beside the messages. Its temperature is given in
/// hundredths.
pub struct CompletionOptions {
    pub model: String,
    pub temperature_percent: u32,
    pub max_tokens: u32,
}

impl CompletionOptions {
    /// Options for a model.
    pub fn of(model: &str, temperature_percent: u32, max_tokens: u32) -> (r: CompletionOptions)
        ensures
            r.model@ == model@,
            r.temperature_percent == temperature_percent,
            r.max_tokens == max_tokens,
    {
        CompletionOptions { model: model.to_owned(), temperature_percent, max_tokens }
    }
}

impl Default for CompletionOptions {
    fn default() -> (r: CompletionOptions)
        ensures
            r.model@ == "qwen-max"@,
            r.temperature_percent == 30,
            r.max_tokens == 4000,
    {
        CompletionOptions::of("qwen-max", 30, 4000)
    }
}

/// A tool that a model may call: the parameters are a JSON Schema.
pub struct ToolSpec {
    pub name: String,
    pub description: String,
    pub parameters: Json,
}

/// What a [`ToolInvocation`] stands for.
pub struct InvocationV {
    pub id: Seq<char>,
    pub name: Seq<char>,
    pub arguments: JsonV,
}

/// A call of a tool that a model asked for.
pub struct ToolInvocation {
    pub id: String,
    pub name: String,
    pub arguments: Json,
}

impl View for ToolInvocation {
    type V = InvocationV;

    open spec fn view(&self) -> InvocationV {
        InvocationV { id: self.id@, name: self.name@, arguments: self.arguments@ }
    }
}

impl Dup for ToolInvocation {
    fn dup(&self) -> (r: ToolInvocation) {
        ToolInvocation {
            id: self.id.clone(),
            name: self.name.clone(),
            arguments: self.arguments.dup(),
        }
    }
}

/// The arguments of a call, given as text: nothing where it is no JSON.
pub open spec fn arguments_in(text: Seq<char>) -> JsonV {
    match json::json_parsed(text) {
        Some(j) => j,
        None => JsonV::Null,
    }
}

/// A call of a tool is written with its id, the name of the tool and the arguments as text.
pub proof fn law_calls_are_written_by_name(i: InvocationV)
    ensures
        ({
            let f = json::field(invocation_value(i), "function"@)->0;
            &&& json::text_in(json::field(invocation_value(i), "id"@)) == Some(i.id)
            &&& json::text_in(json::field(f, "name"@)) == Some(i.name)
            &&& json::text_in(json::field(f, "arguments"@)) == Some(json::json_text(i.arguments))
        }),
{
    reveal_strlit("id");
    assert("id"@.len() == 2);
    assert("id"@.len() == 2);
    reveal_strlit("type");
    assert("type"@.len() == 4);
    assert("type"@.len() == 4);
    reveal_strlit("function");
    assert("function"@.len() == 8);
    assert("function"@.len() == 8);
    reveal_strlit("name");
    assert("name"@.len() == 4);
    assert("name"@.len() == 4);
    reveal_strlit("arguments");
    assert("arguments"@.len() == 9);
    assert("arguments"@.len() == 9);
    assert("type"@[0] != "name"@[0]);
    let o = invocation_value(i)->Object_0;
    json::lemma_field_at(o, 0);
    json::lemma_field_at(o, 2);
    json::lemma_field_at(o[2].1->Object_0, 0);
    json::lemma_field_at(o[2].1->Object_0, 1);
}

/// A call as the message that asked for it holds it.
pub open spec fn invocation_value(i: InvocationV) -> JsonV {
    JsonV::Object(
        seq![
            ("id"@, JsonV::Text(i.id)),
            ("type"@, JsonV::Text("function"@)),
            (
                "function"@,
                JsonV::Object(
                    seq![
                        ("name"@, JsonV::Text(i.name)),
                        ("arguments"@, JsonV::Text(json::json_text(i.arguments))),
                    ],
                ),
            ),
        ],
    )
}

impl ToolInvocation {
    /// A call whose arguments are given as text.
    pub fn from_text(id: &str, name: &str, arguments: &str) -> (r: ToolInvocation)
        ensures
            r@ == (InvocationV { id: id@, name: name@, arguments: arguments_in(arguments@) }),
    {
        let arguments = match json::parse_json(arguments) {
            Some(j) => j,
            None => Json::Null,
        };
        ToolInvocation { id: id.to_owned(), name: name.to_owned(), arguments }
    }

    /// The call as the message that asked for it holds it.
    pub fn to_openai_json(&self) -> (r: Json)
        ensures
            r@ == invocation_value(self@),
    {
        let function = ObjectBuilder::new().with("name", json::string(self.name.as_str())).with(
            "arguments",
            Json::Text(json::render_json(&self.arguments)),
        ).done();
        assert(function@->Object_0 =~= seq![
            ("name"@, JsonV::Text(self.name@)),
            ("arguments"@, JsonV::Text(json::json_text(self.arguments@))),
        ]);
        let r = ObjectBuilder::new().with("id", json::string(self.id.as_str())).with(
            "type",
            json::string("function"),
        ).with("function", function).done();
        assert(r@->Object_0 =~= invocation_value(self@)->Object_0);
        r
    }
}

/// What a model answered that could call tools.
pub struct ToolChatResponse {
    pub content: Option<String>,
    pub tool_calls: Vec<ToolInvocation>,
}

/// A conversation that is told over from its start with each question, for models
/// that keep nothing between two questions.
pub struct ReplaySession {
    pub history: Vec<Message>,
}

impl ReplaySession {
    /// A conversation before the first question.
    pub fn new(system: Option<String>) -> (r: ReplaySession)
        ensures
            seqs::views(r.history@) == match system {
                Some(s) => seq![plain_message("system"@, s@)],
                None => seq![],
            },
    {
        let mut history: Vec<Message> = Vec::new();
        if let Some(s) = system {
            history.push(Message::system(s.as_str()));
        }
        assert(seqs::views(history@) =~= match system {
            Some(s) => seq![plain_message("system"@, s@)],
            None => seq![],
        });
        ReplaySession { history }
    }

    /// Ask a question: from here on the conversation ends with it.
    pub fn ask(&mut self, prompt: &str)
        ensures
            seqs::views(final(self).history@) == seqs::views(old(self).history@).push(
                plain_message("user"@, prompt@),
            ),
    {
        self.history.push(Message::user(prompt));
    }

    /// Note the answer to the question.
    pub fn answered(&mut self, reply: &str)
        ensures
            seqs::views(final(self).history@) == seqs::views(old(self).history@).push(
                plain_message("assistant"@, reply@),
            ),
    {
        self.history.push(Message::assistant(reply));
    }
}

} // verus!
