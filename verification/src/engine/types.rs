//! Chat and tool-call records of the engine.
use vstd::prelude::*;

verus! {

/// What the terminal UI shows.
pub enum AppMode {
    Normal,
    Status,
    PermissionPrompt(ToolCall),
}

/// The UI state.
pub struct AppState {
    pub mode: AppMode,
}

/// A tool invocation requested by the model.
#[derive(Clone)]
pub struct ToolCall {
    pub id: String,
    pub name: String,
    pub arguments: String,
}

/// The outcome of a tool invocation.
pub struct ToolResult {
    pub id: String,
    pub output: String,
    pub is_error: bool,
}

/// Events delivered to the UI loop.
pub enum AppEvent {
    ToolCallResult(ToolResult),
    TelegramMessage { chat_id: i64, text: String },
}

/// Who wrote a chat message.
pub enum Role {
    User,
    System,
    Assistant,
}

/// One message of the conversation.
pub struct ChatMessage {
    pub role: Role,
    pub content: String,
}

} // verus!
