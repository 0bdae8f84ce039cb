//! Models that are called within the process: the form that a message takes there.

use vstd::prelude::*;

use crate::backend::{Message, MessageV};
use crate::json::{Json, JsonV};
use crate::seqs;

verus! {

broadcast use crate::seqs::group_views;

/// What a [`ChatForm`] stands for.
pub enum ChatFormV {
    ToolResult(Seq<char>, Seq<char>),
    ToolCalls(Seq<char>, Seq<JsonV>),
    Plain(Seq<char>, Seq<char>),
}

/// The form that a message takes.
pub enum ChatForm {
    /// The answer to a call: the call and the text.
    ToolResult(String, String),
    /// A text and the calls that it asks for.
    ToolCalls(String, Vec<Json>),
    /// A role and a text.
    Plain(String, String),
}

impl View for ChatForm {
    type V = ChatFormV;

    open spec fn view(&self) -> ChatFormV {
        match *self {
            ChatForm::ToolResult(id, c) => ChatFormV::ToolResult(id@, c@),
            ChatForm::ToolCalls(c, calls) => ChatFormV::ToolCalls(c@, seqs::views(calls@)),
            ChatForm::Plain(role, c) => ChatFormV::Plain(role@, c@),
        }
    }
}

/// A message that answers a call names the call; one that asks for calls holds them; every
/// other one has its role. All keep what they say.
pub proof fn law_messages_keep_what_they_say(m: MessageV)
    ensures
        m.tool_call_id matches Some(id) ==> chat_form(m) == ChatFormV::ToolResult(id, m.content),
        m.tool_call_id is None ==> (m.tool_calls matches Some(calls) ==> chat_form(m)
            == ChatFormV::ToolCalls(m.content, calls)),
        m.tool_call_id is None && m.tool_calls is None ==> chat_form(m) == ChatFormV::Plain(
            m.role,
            m.content,
        ),
{
}

/// The form that a message takes: one that answers a call answers it, whatever else
/// it holds.
pub open spec fn chat_form(m: MessageV) -> ChatFormV {
    match (m.tool_call_id, m.tool_calls) {
        (Some(id), _) => ChatFormV::ToolResult(id, m.content),
        (None, Some(calls)) => ChatFormV::ToolCalls(m.content, calls),
        (None, None) => ChatFormV::Plain(m.role, m.content),
    }
}

/// The form that a message takes.
pub fn to_chat_message(m: &Message) -> (r: ChatForm)
    ensures
        r@ == chat_form(m@),
{
    if let Some(id) = &m.tool_call_id {
        return ChatForm::ToolResult(id.clone(), m.content.clone());
    }
    if let Some(calls) = &m.tool_calls {
        return ChatForm::ToolCalls(m.content.clone(), crate::citation::dup_list(calls));
    }
    ChatForm::Plain(m.role.clone(), m.content.clone())
}

/// Models that are called within the process.
pub struct LlmsBackend;

impl LlmsBackend {
    /// The models that are called within the process; they can call tools.
    pub fn new() -> (r: LlmsBackend)
        ensures
            r == LlmsBackend,
    {
        LlmsBackend
    }
}

} // verus!
