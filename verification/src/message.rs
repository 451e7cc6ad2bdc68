//! The messages of a thread.

use vstd::prelude::*;
use crate::json::{Json, JsonView};

verus! {

/// A message of a thread.
#[derive(Debug)]
pub enum Message {
    User(UserMessage),
    Agent(AgentMessage),
    Resume,
    Compaction(CompactionInfo),
}

/// What the user wrote.
#[derive(Debug)]
pub struct UserMessage {
    /// Made anew in every instance, so it says nothing about what was written.
    pub id: String,
    pub content: Vec<UserMessageContent>,
}

/// A block of what the user wrote.
#[derive(Debug)]
pub enum UserMessageContent {
    Text(String),
    Mention { uri: Json, content: String },
    Image(Json),
}

/// What the agent answered.
#[derive(Debug)]
pub struct AgentMessage {
    pub content: Vec<AgentMessageContent>,
    /// The results of tool calls, by the id of the call.
    pub tool_results: Vec<(String, ToolResult)>,
    pub reasoning_details: Option<Json>,
}

/// A block of what the agent answered.
#[derive(Debug)]
pub enum AgentMessageContent {
    Text(String),
    Thinking { text: String, signature: Option<String> },
    RedactedThinking(String),
    ToolUse(ToolUse),
}

/// A call of a tool.
#[derive(Debug)]
pub struct ToolUse {
    pub id: String,
    pub name: String,
    /// The input as the model wrote it.
    pub raw_input: String,
    pub input: Json,
    pub is_input_complete: bool,
    pub thought_signature: Option<String>,
}

/// The result of a tool call.
#[derive(Debug)]
pub struct ToolResult {
    pub tool_use_id: String,
    pub tool_name: String,
    pub is_error: bool,
    pub content: Vec<ToolResultContent>,
    pub output: Option<Json>,
}

/// A part of the result of a tool call.
#[derive(Debug)]
pub enum ToolResultContent {
    Text(String),
    Image(Json),
}

/// What earlier messages were condensed to.
#[derive(Debug)]
pub enum CompactionInfo {
    Summary(String),
    ProviderNative(Json),
}

// ---------------------------------------------------------------------------
// Models

/// The model of a message.
pub enum MessageView {
    User(UserMessageView),
    Agent(AgentMessageView),
    Resume,
    Compaction(CompactionView),
}

/// The model of what the user wrote.
pub struct UserMessageView {
    pub id: Seq<char>,
    pub content: Seq<UserContentView>,
}

/// The model of a block of what the user wrote.
pub enum UserContentView {
    Text(Seq<char>),
    Mention { uri: JsonView, content: Seq<char> },
    Image(JsonView),
}

/// The model of what the agent answered.
pub struct AgentMessageView {
    pub content: Seq<AgentContentView>,
    pub tool_results: Seq<(Seq<char>, ToolResultView)>,
    pub reasoning_details: Option<JsonView>,
}

/// The model of a block of what the agent answered.
pub enum AgentContentView {
    Text(Seq<char>),
    Thinking { text: Seq<char>, signature: Option<Seq<char>> },
    RedactedThinking(Seq<char>),
    ToolUse(ToolUseView),
}

/// The model of a tool call.
pub struct ToolUseView {
    pub id: Seq<char>,
    pub name: Seq<char>,
    pub raw_input: Seq<char>,
    pub input: JsonView,
    pub is_input_complete: bool,
    pub thought_signature: Option<Seq<char>>,
}

/// The model of a tool result.
pub struct ToolResultView {
    pub tool_use_id: Seq<char>,
    pub tool_name: Seq<char>,
    pub is_error: bool,
    pub content: Seq<ResultContentView>,
    pub output: Option<JsonView>,
}

/// The model of a part of a tool result.
pub enum ResultContentView {
    Text(Seq<char>),
    Image(JsonView),
}

/// The model of a compaction.
pub enum CompactionView {
    Summary(Seq<char>),
    ProviderNative(JsonView),
}

impl DeepView for CompactionInfo {
    type V = CompactionView;

    open spec fn deep_view(&self) -> CompactionView {
        match self {
            CompactionInfo::Summary(text) => CompactionView::Summary(text@),
            CompactionInfo::ProviderNative(data) => CompactionView::ProviderNative(
                data.deep_view(),
            ),
        }
    }
}

impl DeepView for ToolResultContent {
    type V = ResultContentView;

    open spec fn deep_view(&self) -> ResultContentView {
        match self {
            ToolResultContent::Text(text) => ResultContentView::Text(text@),
            ToolResultContent::Image(image) => ResultContentView::Image(image.deep_view()),
        }
    }
}

impl DeepView for ToolResult {
    type V = ToolResultView;

    open spec fn deep_view(&self) -> ToolResultView {
        ToolResultView {
            tool_use_id: self.tool_use_id@,
            tool_name: self.tool_name@,
            is_error: self.is_error,
            content: self.content.deep_view(),
            output: self.output.deep_view(),
        }
    }
}

impl DeepView for ToolUse {
    type V = ToolUseView;

    open spec fn deep_view(&self) -> ToolUseView {
        ToolUseView {
            id: self.id@,
            name: self.name@,
            raw_input: self.raw_input@,
            input: self.input.deep_view(),
            is_input_complete: self.is_input_complete,
            thought_signature: self.thought_signature.deep_view(),
        }
    }
}

impl DeepView for AgentMessageContent {
    type V = AgentContentView;

    open spec fn deep_view(&self) -> AgentContentView {
        match self {
            AgentMessageContent::Text(text) => AgentContentView::Text(text@),
            AgentMessageContent::Thinking { text, signature } => AgentContentView::Thinking {
                text: text@,
                signature: signature.deep_view(),
            },
            AgentMessageContent::RedactedThinking(data) => AgentContentView::RedactedThinking(
                data@,
            ),
            AgentMessageContent::ToolUse(tool_use) => AgentContentView::ToolUse(
                tool_use.deep_view(),
            ),
        }
    }
}

impl DeepView for AgentMessage {
    type V = AgentMessageView;

    open spec fn deep_view(&self) -> AgentMessageView {
        AgentMessageView {
            content: self.content.deep_view(),
            tool_results: self.tool_results.deep_view(),
            reasoning_details: self.reasoning_details.deep_view(),
        }
    }
}

impl DeepView for UserMessageContent {
    type V = UserContentView;

    open spec fn deep_view(&self) -> UserContentView {
        match self {
            UserMessageContent::Text(text) => UserContentView::Text(text@),
            UserMessageContent::Mention { uri, content } => UserContentView::Mention {
                uri: uri.deep_view(),
                content: content@,
            },
            UserMessageContent::Image(image) => UserContentView::Image(image.deep_view()),
        }
    }
}

impl DeepView for UserMessage {
    type V = UserMessageView;

    open spec fn deep_view(&self) -> UserMessageView {
        UserMessageView { id: self.id@, content: self.content.deep_view() }
    }
}

impl DeepView for Message {
    type V = MessageView;

    open spec fn deep_view(&self) -> MessageView {
        match self {
            Message::User(message) => MessageView::User(message.deep_view()),
            Message::Agent(message) => MessageView::Agent(message.deep_view()),
            Message::Resume => MessageView::Resume,
            Message::Compaction(info) => MessageView::Compaction(info.deep_view()),
        }
    }
}

} // verus!
