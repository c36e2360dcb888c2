use vstd::prelude::*;

verus! {

/// The function part of a tool call: a tool name and its arguments as JSON text.
pub struct ToolCallFunction {
    pub name: String,
    pub arguments: String,
}

/// One tool call of a chat-completion answer; `kind` is `function`.
pub struct ToolCall {
    pub id: String,
    pub kind: String,
    pub function: ToolCallFunction,
}

/// The assistant's message in a chat-completion answer.
pub struct AssistantMessage {
    pub role: String,
    pub content: String,
    pub tool_calls: Vec<ToolCall>,
}

/// One choice of a chat-completion answer.
pub struct Choice {
    pub message: AssistantMessage,
}

} // verus!
