use vstd::prelude::*;

use crate::text::{decimal, format_decimal};

verus! {

/// A call of a tool that the model asked for: its id, the tool's name, and
/// the arguments as JSON text.
pub struct ToolCall {
    pub id: String,
    pub name: String,
    pub arguments: String,
}

/// Whether the two calls have the same id, tool name and arguments.
pub open spec fn same_call(a: ToolCall, b: ToolCall) -> bool {
    a.id@ == b.id@ && a.name@ == b.name@ && a.arguments@ == b.arguments@
}

impl ToolCall {
    /// A copy of the call.
    pub fn duplicate(&self) -> (r: Self)
        ensures
            r.id@ == self.id@,
            r.name@ == self.name@,
            r.arguments@ == self.arguments@,
    {
        ToolCall { id: self.id.clone(), name: self.name.clone(), arguments: self.arguments.clone() }
    }
}

/// One message of a conversation: who speaks (`role`) and what is said. An
/// assistant message may carry tool calls; a tool's answer names the call it answers.
pub struct Message {
    pub role: String,
    pub content: String,
    pub tool_calls: Vec<ToolCall>,
    pub tool_call_id: Option<String>,
}

/// Whether the message `m` has role `role` and content `content`, and carries no tool call.
pub open spec fn is_plain_message(m: Message, role: Seq<char>, content: Seq<char>) -> bool {
    &&& m.role@ == role
    &&& m.content@ == content
    &&& m.tool_calls@.len() == 0
    &&& m.tool_call_id is None
}

/// Whether `a` and `b` hold the same role, content, tool calls and answered call id.
pub open spec fn same_message(a: Message, b: Message) -> bool {
    &&& a.role@ == b.role@
    &&& a.content@ == b.content@
    &&& a.tool_calls@.len() == b.tool_calls@.len()
    &&& forall|i: int| 0 <= i < a.tool_calls@.len() ==> same_call(#[trigger] a.tool_calls@[i], b.tool_calls@[i])
    &&& match b.tool_call_id {
        Some(i) => a.tool_call_id matches Some(j) && j@ == i@,
        None => a.tool_call_id is None,
    }
}

/// Whether `a` and `b` hold the same messages, in the same order.
pub open spec fn same_messages(a: Seq<Message>, b: Seq<Message>) -> bool {
    a.len() == b.len() && forall|i: int| 0 <= i < a.len() ==> same_message(#[trigger] a[i], b[i])
}

/// Copies of the messages `msgs`, in order.
pub fn copy_messages(msgs: &Vec<Message>) -> (r: Vec<Message>)
    ensures
        same_messages(r@, msgs@),
{
    let mut r: Vec<Message> = Vec::new();
    let n = msgs.len();
    for i in 0..n
        invariant
            n == msgs@.len(),
            r@.len() == i,
            forall|j: int| 0 <= j < i ==> same_message(#[trigger] r@[j], msgs@[j]),
    {
        r.push(msgs[i].duplicate());
    }
    r
}

impl Message {
    /// A message from the user.
    pub fn user(content: String) -> (m: Self)
        ensures
            is_plain_message(m, "user"@, content@),
    {
        Message { role: "user".to_owned(), content, tool_calls: Vec::new(), tool_call_id: None }
    }

    /// A message from the assistant.
    pub fn assistant(content: String) -> (m: Self)
        ensures
            is_plain_message(m, "assistant"@, content@),
    {
        Message { role: "assistant".to_owned(), content, tool_calls: Vec::new(), tool_call_id: None }
    }

    /// The system prompt.
    pub fn system(content: String) -> (m: Self)
        ensures
            is_plain_message(m, "system"@, content@),
    {
        Message { role: "system".to_owned(), content, tool_calls: Vec::new(), tool_call_id: None }
    }

    /// An assistant message that asks for tool calls, with its text if it has any.
    pub fn assistant_with_tools(content: Option<String>, tool_calls: Vec<ToolCall>) -> (m: Self)
        ensures
            m.role@ == "assistant"@,
            m.content@ == match content {
                Some(c) => c@,
                None => Seq::<char>::empty(),
            },
            m.tool_calls@ == tool_calls@,
            m.tool_call_id is None,
    {
        let text = match content {
            Some(c) => c,
            None => String::new(),
        };
        Message { role: "assistant".to_owned(), content: text, tool_calls, tool_call_id: None }
    }

    /// The answer of the tool call `id`.
    pub fn tool_result(id: String, output: String) -> (m: Self)
        ensures
            m.role@ == "tool"@,
            m.content@ == output@,
            m.tool_calls@.len() == 0,
            m.tool_call_id matches Some(i) && i@ == id@,
    {
        Message { role: "tool".to_owned(), content: output, tool_calls: Vec::new(), tool_call_id: Some(id) }
    }

    /// Whether this is the system prompt.
    pub fn is_system(&self) -> (r: bool)
        ensures
            r == (self.role@ == "system"@),
    {
        crate::text::str_eq(self.role.as_str(), "system")
    }

    /// A copy of the message.
    pub fn duplicate(&self) -> (m: Self)
        ensures
            same_message(m, *self),
            m.role@ == self.role@,
            m.content@ == self.content@,
            m.tool_calls@.len() == self.tool_calls@.len(),
            forall|i: int| 0 <= i < m.tool_calls@.len() ==> same_call(#[trigger] m.tool_calls@[i], self.tool_calls@[i]),
            match self.tool_call_id {
                Some(i) => m.tool_call_id matches Some(j) && j@ == i@,
                None => m.tool_call_id is None,
            },
    {
        let mut calls: Vec<ToolCall> = Vec::new();
        let n = self.tool_calls.len();
        for i in 0..n
            invariant
                n == self.tool_calls@.len(),
                calls@.len() == i,
                forall|j: int| 0 <= j < i ==> same_call(#[trigger] calls@[j], self.tool_calls@[j]),
        {
            calls.push(self.tool_calls[i].duplicate());
        }
        let id = match &self.tool_call_id {
            Some(i) => Some(i.clone()),
            None => None,
        };
        Message { role: self.role.clone(), content: self.content.clone(), tool_calls: calls, tool_call_id: id }
    }
}

/// The body of a chat completion request.
pub struct ChatRequest {
    pub model: String,
    pub messages: Vec<Message>,
    pub stream: Option<bool>,
}

/// One chunk of a streamed answer.
pub struct StreamChunk {
    pub choices: Vec<StreamChoice>,
}

/// One choice of a streamed chunk.
pub struct StreamChoice {
    pub delta: Delta,
}

/// The new text of a streamed choice, if any.
pub struct Delta {
    pub content: Option<String>,
}

/// What one round trip to the model gave: its text and the tool calls it asked for.
pub struct StreamResult {
    pub content: String,
    pub tool_calls: Vec<ToolCall>,
}

/// Why talking to the model failed.
pub enum ApiError {
    /// The request could not be sent or answered.
    Request(String),
    /// The server answered with an error status and this body.
    Status(u16, String),
    /// The answer could not be understood: the reason, and the raw body.
    Parse(String, String),
}

/// How an error is shown to the user.
pub open spec fn api_error_text(e: ApiError) -> Seq<char> {
    match e {
        ApiError::Request(m) => "Request failed: "@ + m@,
        ApiError::Status(code, body) => "API error "@ + decimal(code as nat) + ": "@ + body@,
        ApiError::Parse(m, raw) => "Parse error: "@ + m@ + "\nRaw: "@ + raw@,
    }
}

impl ApiError {
    /// How the error is shown to the user.
    pub fn describe(&self) -> (r: String)
        ensures
            r@ == api_error_text(*self),
    {
        let mut r = String::new();
        match self {
            ApiError::Request(m) => {
                r.append("Request failed: ");
                r.append(m.as_str());
            },
            ApiError::Status(code, body) => {
                r.append("API error ");
                let digits = format_decimal(*code as u128);
                r.append(digits.as_str());
                r.append(": ");
                r.append(body.as_str());
            },
            ApiError::Parse(m, raw) => {
                r.append("Parse error: ");
                r.append(m.as_str());
                r.append("\nRaw: ");
                r.append(raw.as_str());
            },
        }
        r
    }
}

} // verus!
