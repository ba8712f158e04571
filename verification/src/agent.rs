//! Chat messages exchanged with the local model server and the streaming
//! reply's events.
use crate::text::{chars_of, string_of, subvec, trim_end_char};
use vstd::string::StringExecFns;
use vstd::prelude::*;

verus! {

#[derive(Debug, Clone, Copy, PartialEq, Eq, Structural)]
pub enum Role {
    System,
    User,
    Assistant,
    /// A tool's output fed back to the model.
    Tool,
}

/// The wire name of a role.
pub open spec fn role_name(r: Role) -> Seq<char> {
    match r {
        Role::System => "system"@,
        Role::User => "user"@,
        Role::Assistant => "assistant"@,
        Role::Tool => "tool"@,
    }
}

impl Role {
    pub fn as_str(self) -> (r: &'static str)
        ensures
            r@ == role_name(self),
    {
        match self {
            Role::System => "system",
            Role::User => "user",
            Role::Assistant => "assistant",
            Role::Tool => "tool",
        }
    }
}

/// The function a model's tool call names.
#[derive(Debug, Clone, PartialEq, Eq)]
pub struct RoleToolCallFunction {
    pub name: String,
    pub arguments: String,
}

/// A tool call recorded on an assistant message.
#[derive(Debug, Clone, PartialEq, Eq)]
pub struct RoleToolCall {
    pub id: String,
    pub kind: String,
    pub function: RoleToolCallFunction,
}

#[derive(Debug, Clone, PartialEq, Eq)]
pub struct Message {
    pub role: Role,
    pub content: String,
    /// The tool calls an assistant message made.
    pub tool_calls: Option<Vec<RoleToolCall>>,
    /// The call a tool message answers.
    pub tool_call_id: Option<String>,
}

impl Message {
    pub fn system(content: &str) -> (r: Message)
        ensures
            r.role == Role::System,
            r.content@ == content@,
            r.tool_calls is None,
            r.tool_call_id is None,
    {
        Message { role: Role::System, content: String::from_str(content), tool_calls: None, tool_call_id: None }
    }

    pub fn user(content: &str) -> (r: Message)
        ensures
            r.role == Role::User,
            r.content@ == content@,
            r.tool_calls is None,
            r.tool_call_id is None,
    {
        Message { role: Role::User, content: String::from_str(content), tool_calls: None, tool_call_id: None }
    }

    pub fn assistant(content: &str) -> (r: Message)
        ensures
            r.role == Role::Assistant,
            r.content@ == content@,
            r.tool_calls is None,
            r.tool_call_id is None,
    {
        Message { role: Role::Assistant, content: String::from_str(content), tool_calls: None, tool_call_id: None }
    }

    /// A tool's output, answering the call `id`.
    pub fn tool_response(id: &str, content: &str) -> (r: Message)
        ensures
            r.role == Role::Tool,
            r.content@ == content@,
            r.tool_calls is None,
            r.tool_call_id matches Some(i) && i@ == id@,
    {
        Message {
            role: Role::Tool,
            content: String::from_str(content),
            tool_calls: None,
            tool_call_id: Some(String::from_str(id)),
        }
    }
}

/// One event of a streamed reply.
#[derive(Debug, Clone, PartialEq, Eq)]
pub enum ChatEvent {
    /// The next piece of text (possibly empty).
    Delta(String),
    /// The stream is finished.
    Done,
}

/// Fold one streamed event into the reply text; says whether to keep
/// reading (a `Done` ends the reply).
pub fn absorb_event(acc: &mut String, ev: &ChatEvent) -> (more: bool)
    ensures
        match ev {
            ChatEvent::Delta(t) => more && final(acc)@ == old(acc)@ + t@,
            ChatEvent::Done => !more && final(acc)@ == old(acc)@,
        },
{
    match ev {
        ChatEvent::Delta(t) => {
            acc.append(t.as_str());
            true
        },
        ChatEvent::Done => false,
    }
}

/// The chat-completions endpoint under a server base URL.
pub fn chat_url(base: &str) -> (r: String)
    ensures
        r@ == trim_end_char(base@, '/') + "/v1/chat/completions"@,
{
    let v = chars_of(base);
    let mut b: usize = v.len();
    assert(v@.subrange(0, v@.len() as int) =~= v@);
    while b > 0 && v[b - 1] == '/'
        invariant
            b <= v@.len(),
            trim_end_char(v@, '/') == trim_end_char(v@.subrange(0, b as int), '/'),
        decreases b,
    {
        assert(v@.subrange(0, b as int).drop_last() =~= v@.subrange(0, b - 1));
        b = b - 1;
    }
    let mut s = string_of(subvec(v.as_slice(), 0, b).as_slice());
    s.append("/v1/chat/completions");
    s
}

/// The event an SSE data line carries when it is the end marker; other data
/// lines are JSON chunks.
pub fn is_done_marker(data: &str) -> (r: bool)
    ensures
        r == (data@ == "[DONE]"@),
{
    crate::text::str_eq(data, "[DONE]")
}

} // verus!
