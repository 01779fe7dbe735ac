//! Messages as they go to the provider.

use vstd::prelude::*;

use crate::json::JsonValue;

verus! {

/// Who speaks in a message.
#[derive(Debug, Clone, Copy, PartialEq, Eq, Structural)]
pub enum Role {
    User,
    Assistant,
}

/// One part of a message.
#[derive(Debug, PartialEq)]
pub enum ContentBlock {
    Text { text: String, cache_control: Option<String> },
    Reasoning { text: String },
    ReasoningTrace { text: String },
    AnthropicThinking { thinking: String, signature: String },
    ToolUse { id: String, name: String, input: JsonValue },
    ToolResult { tool_use_id: String, content: String, is_error: Option<bool> },
    Image { media_type: String, data: String },
    OpenAICompaction { encrypted_content: String },
}

/// A message of a conversation.
#[derive(Debug, PartialEq)]
pub struct Message {
    pub role: Role,
    pub content: Vec<ContentBlock>,
    /// When the message was made, in milliseconds since the epoch.
    pub timestamp: Option<i64>,
    pub tool_duration_ms: Option<u64>,
}

impl Message {
    /// A message of the user that holds one text.
    pub fn user(text: &str) -> (message: Message)
        ensures
            message.role == Role::User,
            message.content.len() == 1,
            message.content[0] matches ContentBlock::Text { text: held, cache_control: None }
                && held@ == text@,
            message.timestamp is None,
            message.tool_duration_ms is None,
    {
        let mut content: Vec<ContentBlock> = Vec::new();
        content.push(ContentBlock::Text { text: text.to_owned(), cache_control: None });
        Message { role: Role::User, content, timestamp: None, tool_duration_ms: None }
    }
}

} // verus!
