//! Threads as they are stored and shared, and how threads of the first format are read.

use vstd::prelude::*;
use std::path::PathBuf;
use std::sync::Arc;
use crate::assoc::{
    assign, distinct, lemma_lookup_after_put, lemma_put_keeps_distinct, lemma_without, lookup, put,
    take, without,
};
use crate::ids::{is_id_text, new_id};
use crate::json::{copy_of, Json, JsonView};
use crate::message::{
    AgentContentView, AgentMessage, AgentMessageContent, AgentMessageView, Message, MessageView,
    ResultContentView, ToolResult, ToolResultContent, ToolResultView, ToolUse, ToolUseView,
    UserContentView, UserMessage, UserMessageContent, UserMessageView,
};
use crate::text::copy_text;
use crate::thread_merge::{merge_messages, merged, merged_all, share};
use crate::time::Timestamp;

verus! {

/// A message of a stored thread.
pub type DbMessage = Message;

/// The model that a thread was last used with.
pub type DbLanguageModel = Json;

/// How far the detailed summary of a thread of the first format was.
pub type DbSummary = DetailedSummaryState;

/// A thread as it is stored.
#[derive(Debug)]
pub struct DbThread {
    pub title: String,
    pub messages: Vec<Arc<DbMessage>>,
    pub updated_at: Timestamp,
    pub detailed_summary: Option<String>,
    pub initial_project_snapshot: Option<Json>,
    /// The tokens used over the whole thread; the empty object where none were.
    pub cumulative_token_usage: Json,
    /// The tokens used by the answer to a message of the user, by that message's id.
    pub request_token_usage: Vec<(String, Json)>,
    pub model: Option<DbLanguageModel>,
    pub profile: Option<String>,
    pub subagent_context: Option<SubagentContext>,
    pub speed: Option<Json>,
    pub thinking_enabled: bool,
    pub thinking_effort: Option<String>,
    pub draft_prompt: Option<Vec<Json>>,
    pub ui_scroll_position: Option<SerializedScrollPosition>,
    pub sandboxed_terminal_temp_dir: Option<PathBuf>,
    /// The permissions that the user granted for the rest of this thread.
    pub sandbox_grants: DbSandboxGrants,
}

/// Where a thread of a subagent comes from.
#[derive(Debug)]
pub struct SubagentContext {
    pub parent_thread_id: String,
    pub depth: u8,
}

/// Permissions that the user granted for the rest of a thread.
#[derive(Debug, PartialEq, Eq)]
pub struct DbSandboxGrants {
    /// Paths granted write access; each covers its whole subtree.
    pub write_paths: Vec<GrantedWritePath>,
    /// Host patterns granted network access.
    pub network_hosts: Vec<String>,
    pub network_any_host: bool,
    pub allow_fs_write_all: bool,
    pub unsandboxed: bool,
    /// Whether commands may run without a sandbox because none could be made.
    pub sandbox_fallback: bool,
}

/// A path granted write access, and what it resolved to when it was granted.
#[derive(Debug, PartialEq, Eq)]
pub struct GrantedWritePath {
    pub path: PathBuf,
    pub canonical: Option<PathBuf>,
}

/// Where a thread was scrolled to.
#[derive(Clone, Copy, Debug, PartialEq, Eq, Structural)]
pub struct SerializedScrollPosition {
    pub item_ix: usize,
    /// The bits of the single-precision offset.
    pub offset_in_item: u32,
}

/// A thread as it is shared with others.
#[derive(Debug)]
pub struct SharedThread {
    pub title: String,
    pub messages: Vec<Arc<DbMessage>>,
    pub updated_at: Timestamp,
    pub model: Option<DbLanguageModel>,
    pub version: String,
}

// ---------------------------------------------------------------------------
// The first format

/// A thread of the first format.
#[derive(Debug)]
pub struct LegacyThread {
    pub summary: String,
    pub updated_at: Timestamp,
    pub messages: Vec<LegacyMessage>,
    pub initial_project_snapshot: Option<Json>,
    pub cumulative_token_usage: Json,
    /// The tokens used by each message.
    pub request_token_usage: Vec<Json>,
    pub detailed_summary_state: DetailedSummaryState,
    pub model: Option<Json>,
    pub profile: Option<String>,
}

/// How far the detailed summary of a thread was.
#[derive(Debug)]
pub enum DetailedSummaryState {
    NotGenerated,
    Generating,
    Generated { text: String },
}

/// Who wrote a message of the first format.
#[derive(Clone, Copy, Debug, PartialEq, Eq, Structural)]
pub enum Role {
    User,
    Assistant,
    System,
}

/// A message of the first format.
#[derive(Debug)]
pub struct LegacyMessage {
    pub role: Role,
    pub segments: Vec<LegacySegment>,
    pub tool_uses: Vec<LegacyToolUse>,
    pub tool_results: Vec<LegacyToolResult>,
    /// What was attached to the message, as text.
    pub context: String,
}

/// A piece of a message of the first format.
#[derive(Debug)]
pub enum LegacySegment {
    Text(String),
    Thinking { text: String, signature: Option<String> },
    RedactedThinking(String),
}

/// A tool call of the first format.
#[derive(Debug)]
pub struct LegacyToolUse {
    pub id: String,
    pub name: String,
    pub input: Json,
    /// The input as JSON text.
    pub raw_input: String,
}

/// A tool result of the first format.
#[derive(Debug)]
pub struct LegacyToolResult {
    pub tool_use_id: String,
    pub is_error: bool,
    pub content: ToolResultContent,
    pub output: Option<Json>,
}

// ---------------------------------------------------------------------------
// Models

/// The model of a stored thread.
pub struct ThreadView {
    pub title: Seq<char>,
    pub messages: Seq<MessageView>,
    pub updated_at: (i64, u32),
    pub detailed_summary: Option<Seq<char>>,
    pub initial_project_snapshot: Option<JsonView>,
    pub cumulative_token_usage: JsonView,
    pub request_token_usage: Seq<(Seq<char>, JsonView)>,
    pub model: Option<JsonView>,
    pub profile: Option<Seq<char>>,
    pub subagent_context: Option<(Seq<char>, u8)>,
    pub speed: Option<JsonView>,
    pub thinking_enabled: bool,
    pub thinking_effort: Option<Seq<char>>,
    pub draft_prompt: Option<Seq<JsonView>>,
    pub ui_scroll_position: Option<SerializedScrollPosition>,
    pub sandboxed_terminal_temp_dir: Option<PathBuf>,
    pub sandbox_grants: GrantsView,
}

/// The model of granted permissions.
pub struct GrantsView {
    pub write_paths: Seq<GrantedWritePath>,
    pub network_hosts: Seq<Seq<char>>,
    pub network_any_host: bool,
    pub allow_fs_write_all: bool,
    pub unsandboxed: bool,
    pub sandbox_fallback: bool,
}

/// The model of a shared thread.
pub struct SharedView {
    pub title: Seq<char>,
    pub messages: Seq<MessageView>,
    pub updated_at: (i64, u32),
    pub model: Option<JsonView>,
    pub version: Seq<char>,
}

/// The model of a thread of the first format.
pub struct LegacyView {
    pub summary: Seq<char>,
    pub updated_at: (i64, u32),
    pub messages: Seq<LegacyMessageView>,
    pub initial_project_snapshot: Option<JsonView>,
    pub cumulative_token_usage: JsonView,
    pub request_token_usage: Seq<JsonView>,
    /// The detailed summary, where it was done.
    pub detailed_summary: Option<Seq<char>>,
    pub model: Option<JsonView>,
    pub profile: Option<Seq<char>>,
}

/// The model of a message of the first format.
pub struct LegacyMessageView {
    pub role: Role,
    pub segments: Seq<LegacySegmentView>,
    pub tool_uses: Seq<LegacyToolUseView>,
    pub tool_results: Seq<LegacyToolResultView>,
    pub context: Seq<char>,
}

/// The model of a piece of a message of the first format.
pub enum LegacySegmentView {
    Text(Seq<char>),
    Thinking { text: Seq<char>, signature: Option<Seq<char>> },
    RedactedThinking(Seq<char>),
}

/// The model of a tool call of the first format.
pub struct LegacyToolUseView {
    pub id: Seq<char>,
    pub name: Seq<char>,
    pub input: JsonView,
    pub raw_input: Seq<char>,
}

/// The model of a tool result of the first format.
pub struct LegacyToolResultView {
    pub tool_use_id: Seq<char>,
    pub is_error: bool,
    pub content: ResultContentView,
    pub output: Option<JsonView>,
}

impl DeepView for SubagentContext {
    type V = (Seq<char>, u8);

    open spec fn deep_view(&self) -> (Seq<char>, u8) {
        (self.parent_thread_id@, self.depth)
    }
}

impl DeepView for DbSandboxGrants {
    type V = GrantsView;

    open spec fn deep_view(&self) -> GrantsView {
        GrantsView {
            write_paths: self.write_paths@,
            network_hosts: self.network_hosts.deep_view(),
            network_any_host: self.network_any_host,
            allow_fs_write_all: self.allow_fs_write_all,
            unsandboxed: self.unsandboxed,
            sandbox_fallback: self.sandbox_fallback,
        }
    }
}

impl DeepView for DbThread {
    type V = ThreadView;

    open spec fn deep_view(&self) -> ThreadView {
        ThreadView {
            title: self.title@,
            messages: self.messages.deep_view(),
            updated_at: self.updated_at.deep_view(),
            detailed_summary: self.detailed_summary.deep_view(),
            initial_project_snapshot: self.initial_project_snapshot.deep_view(),
            cumulative_token_usage: self.cumulative_token_usage.deep_view(),
            request_token_usage: self.request_token_usage.deep_view(),
            model: self.model.deep_view(),
            profile: self.profile.deep_view(),
            subagent_context: self.subagent_context.deep_view(),
            speed: self.speed.deep_view(),
            thinking_enabled: self.thinking_enabled,
            thinking_effort: self.thinking_effort.deep_view(),
            draft_prompt: self.draft_prompt.deep_view(),
            ui_scroll_position: self.ui_scroll_position,
            sandboxed_terminal_temp_dir: self.sandboxed_terminal_temp_dir,
            sandbox_grants: self.sandbox_grants.deep_view(),
        }
    }
}

impl DeepView for SharedThread {
    type V = SharedView;

    open spec fn deep_view(&self) -> SharedView {
        SharedView {
            title: self.title@,
            messages: self.messages.deep_view(),
            updated_at: self.updated_at.deep_view(),
            model: self.model.deep_view(),
            version: self.version@,
        }
    }
}

impl DeepView for LegacySegment {
    type V = LegacySegmentView;

    open spec fn deep_view(&self) -> LegacySegmentView {
        match self {
            LegacySegment::Text(text) => LegacySegmentView::Text(text@),
            LegacySegment::Thinking { text, signature } => LegacySegmentView::Thinking {
                text: text@,
                signature: signature.deep_view(),
            },
            LegacySegment::RedactedThinking(data) => LegacySegmentView::RedactedThinking(data@),
        }
    }
}

impl DeepView for LegacyToolUse {
    type V = LegacyToolUseView;

    open spec fn deep_view(&self) -> LegacyToolUseView {
        LegacyToolUseView {
            id: self.id@,
            name: self.name@,
            input: self.input.deep_view(),
            raw_input: self.raw_input@,
        }
    }
}

impl DeepView for LegacyToolResult {
    type V = LegacyToolResultView;

    open spec fn deep_view(&self) -> LegacyToolResultView {
        LegacyToolResultView {
            tool_use_id: self.tool_use_id@,
            is_error: self.is_error,
            content: self.content.deep_view(),
            output: self.output.deep_view(),
        }
    }
}

impl DeepView for LegacyMessage {
    type V = LegacyMessageView;

    open spec fn deep_view(&self) -> LegacyMessageView {
        LegacyMessageView {
            role: self.role,
            segments: self.segments.deep_view(),
            tool_uses: self.tool_uses.deep_view(),
            tool_results: self.tool_results.deep_view(),
            context: self.context@,
        }
    }
}

impl DeepView for LegacyThread {
    type V = LegacyView;

    open spec fn deep_view(&self) -> LegacyView {
        LegacyView {
            summary: self.summary@,
            updated_at: self.updated_at.deep_view(),
            messages: self.messages.deep_view(),
            initial_project_snapshot: self.initial_project_snapshot.deep_view(),
            cumulative_token_usage: self.cumulative_token_usage.deep_view(),
            request_token_usage: self.request_token_usage.deep_view(),
            detailed_summary: match self.detailed_summary_state {
                DetailedSummaryState::Generated { text } => Some(text@),
                _ => None,
            },
            model: self.model.deep_view(),
            profile: self.profile.deep_view(),
        }
    }
}

/// No permission at all.
pub open spec fn no_grants() -> GrantsView {
    GrantsView {
        write_paths: Seq::empty(),
        network_hosts: Seq::empty(),
        network_any_host: false,
        allow_fs_write_all: false,
        unsandboxed: false,
        sandbox_fallback: false,
    }
}

/// A thread with nothing but a title, messages and a time.
pub open spec fn plain_thread(
    title: Seq<char>,
    messages: Seq<MessageView>,
    updated_at: (i64, u32),
) -> ThreadView {
    ThreadView {
        title,
        messages,
        updated_at,
        detailed_summary: None,
        initial_project_snapshot: None,
        cumulative_token_usage: JsonView::Object(Seq::empty()),
        request_token_usage: Seq::empty(),
        model: None,
        profile: None,
        subagent_context: None,
        speed: None,
        thinking_enabled: false,
        thinking_effort: None,
        draft_prompt: None,
        ui_scroll_position: None,
        sandboxed_terminal_temp_dir: None,
        sandbox_grants: no_grants(),
    }
}

impl Default for DbSandboxGrants {
    fn default() -> (r: Self)
        ensures
            r.deep_view() == no_grants(),
    {
        let r = DbSandboxGrants {
            write_paths: Vec::new(),
            network_hosts: Vec::new(),
            network_any_host: false,
            allow_fs_write_all: false,
            unsandboxed: false,
            sandbox_fallback: false,
        };
        assert(r.network_hosts.deep_view() =~= Seq::empty());
        r
    }
}

impl DbThread {
    /// The version of the format that threads are stored in.
    pub const VERSION: &'static str = "0.3.0";

    /// A thread with nothing but a title, messages and a time.
    pub fn plain(title: String, messages: Vec<Arc<DbMessage>>, updated_at: Timestamp) -> (r: DbThread)
        ensures
            r.deep_view() == plain_thread(title@, messages.deep_view(), updated_at.deep_view()),
    {
        let nothing: Vec<(String, Json)> = Vec::new();
        let no_usage: Vec<(String, Json)> = Vec::new();
        assert(nothing.deep_view() =~= Seq::empty());
        assert(no_usage.deep_view() =~= Seq::empty());
        DbThread {
            title,
            messages,
            updated_at,
            detailed_summary: None,
            initial_project_snapshot: None,
            cumulative_token_usage: crate::json::object(nothing),
            request_token_usage: no_usage,
            model: None,
            profile: None,
            subagent_context: None,
            speed: None,
            thinking_enabled: false,
            thinking_effort: None,
            draft_prompt: None,
            ui_scroll_position: None,
            sandboxed_terminal_temp_dir: None,
            sandbox_grants: DbSandboxGrants::default(),
        }
    }
}

// ---------------------------------------------------------------------------
// Sharing

/// A stored thread as it is shared.
pub open spec fn shared_from(thread: ThreadView) -> SharedView {
    SharedView {
        title: thread.title,
        messages: thread.messages,
        updated_at: thread.updated_at,
        model: thread.model,
        version: "1.0.0"@,
    }
}

/// A shared thread as it is stored: its title is marked, and whatever is not shared is
/// absent.
pub open spec fn stored_from(shared: SharedView) -> ThreadView {
    ThreadView {
        model: shared.model,
        ..plain_thread("🔗 "@ + shared.title, shared.messages, shared.updated_at)
    }
}

/// A thread that was shared and stored keeps its messages, time and model, and its title
/// behind the mark; nothing else of it goes along.
pub proof fn law_sharing_keeps_the_conversation(thread: ThreadView)
    ensures
        stored_from(shared_from(thread)) == (ThreadView {
            model: thread.model,
            ..plain_thread("🔗 "@ + thread.title, thread.messages, thread.updated_at)
        }),
{
}

fn share_all(messages: &Vec<Arc<Message>>) -> (r: Vec<Arc<Message>>)
    ensures
        r.deep_view() == messages.deep_view(),
{
    let ghost models = messages.deep_view();
    let mut out: Vec<Arc<Message>> = Vec::new();
    let mut i: usize = 0;
    assert(out.deep_view() =~= models.take(0));
    while i < messages.len()
        invariant
            i <= messages@.len(),
            models == messages.deep_view(),
            out.deep_view() == models.take(i as int),
        decreases messages@.len() - i,
    {
        let ghost done = out.deep_view();
        let message = share(&messages[i]);
        out.push(message);
        assert(out.deep_view() =~= done.push(message.deep_view()));
        assert(models[i as int] == messages@[i as int].deep_view());
        i = i + 1;
        assert(out.deep_view() =~= models.take(i as int));
    }
    assert(models.take(models.len() as int) =~= models);
    out
}

impl SharedThread {
    /// The version of the format that threads are shared in.
    pub const VERSION: &'static str = "1.0.0";

    /// A stored thread as it is shared.
    pub fn from_db_thread(thread: &DbThread) -> (r: SharedThread)
        ensures
            r.deep_view() == shared_from(thread.deep_view()),
    {
        SharedThread {
            title: thread.title.clone(),
            messages: share_all(&thread.messages),
            updated_at: thread.updated_at,
            model: copy_of(thread.model.as_ref()),
            version: "1.0.0".to_owned(),
        }
    }

    /// This thread as it is stored.
    pub fn to_db_thread(self) -> (r: DbThread)
        ensures
            r.deep_view() == stored_from(self.deep_view()),
    {
        let mut title = "🔗 ".to_owned();
        title.append(self.title.as_str());
        let mut thread = DbThread::plain(title, self.messages, self.updated_at);
        thread.model = self.model;
        thread
    }
}

// ---------------------------------------------------------------------------
// Which format a stored text is in

/// The format of a stored thread.
#[derive(Clone, Copy, Debug, PartialEq, Eq, Structural)]
pub enum StoredFormat {
    /// The text holds a `DbThread`.
    Current,
    /// The text holds a thread of the first format.
    Legacy,
}

/// The format of a stored thread: only one that names the current version is current.
pub open spec fn format_of(thread: JsonView) -> StoredFormat {
    if crate::json::text_field(thread, "version"@) == Some("0.3.0"@) {
        StoredFormat::Current
    } else {
        StoredFormat::Legacy
    }
}

/// The format of a stored thread.
pub fn stored_format(thread: &Json) -> (r: StoredFormat)
    ensures
        r == format_of(thread.deep_view()),
{
    match crate::json::string_field(thread, "version") {
        Some(version) => {
            if crate::text::same(version.as_str(), "0.3.0") {
                StoredFormat::Current
            } else {
                StoredFormat::Legacy
            }
        },
        None => StoredFormat::Legacy,
    }
}

// ---------------------------------------------------------------------------
// Reading the first format

/// What the user wrote in pieces: texts, thoughts as texts too, and nothing that was
/// redacted.
pub open spec fn user_segments(segments: Seq<LegacySegmentView>) -> Seq<UserContentView>
    decreases segments.len(),
{
    if segments.len() == 0 {
        Seq::empty()
    } else {
        let rest = user_segments(segments.drop_last());
        match segments.last() {
            LegacySegmentView::Text(text) => rest.push(UserContentView::Text(text)),
            LegacySegmentView::Thinking { text, .. } => rest.push(UserContentView::Text(text)),
            LegacySegmentView::RedactedThinking(_) => rest,
        }
    }
}

/// What the user wrote; the attached context where that is nothing.
pub open spec fn upgraded_user(message: LegacyMessageView) -> Seq<UserContentView> {
    let content = user_segments(message.segments);
    if content.len() == 0 && message.context.len() > 0 {
        content.push(UserContentView::Text(message.context))
    } else {
        content
    }
}

/// A piece of what the agent wrote.
pub open spec fn upgraded_segment(segment: LegacySegmentView) -> AgentContentView {
    match segment {
        LegacySegmentView::Text(text) => AgentContentView::Text(text),
        LegacySegmentView::Thinking { text, signature } => AgentContentView::Thinking {
            text,
            signature,
        },
        LegacySegmentView::RedactedThinking(data) => AgentContentView::RedactedThinking(data),
    }
}

/// A tool call; its input is complete.
pub open spec fn upgraded_tool_use(tool_use: LegacyToolUseView) -> AgentContentView {
    AgentContentView::ToolUse(
        ToolUseView {
            id: tool_use.id,
            name: tool_use.name,
            raw_input: tool_use.raw_input,
            input: tool_use.input,
            is_input_complete: true,
            thought_signature: None,
        },
    )
}

/// What the agent wrote, followed by its tool calls.
pub open spec fn upgraded_content(message: LegacyMessageView) -> Seq<AgentContentView> {
    Seq::new(message.segments.len(), |i: int| upgraded_segment(message.segments[i])) + Seq::new(
        message.tool_uses.len(),
        |i: int| upgraded_tool_use(message.tool_uses[i]),
    )
}

/// The names of called tools, by the id of the call; of two calls with one id, the
/// name of the later.
pub open spec fn tool_names(tool_uses: Seq<LegacyToolUseView>) -> Seq<(Seq<char>, Seq<char>)>
    decreases tool_uses.len(),
{
    if tool_uses.len() == 0 {
        Seq::empty()
    } else {
        put(tool_names(tool_uses.drop_last()), tool_uses.last().id, tool_uses.last().name)
    }
}

/// Tool results with the names of their tools, and the names that are left: each call
/// gives its name to one result.
pub open spec fn named_results(
    results: Seq<LegacyToolResultView>,
    names: Seq<(Seq<char>, Seq<char>)>,
) -> (Seq<(Seq<char>, ToolResultView)>, Seq<(Seq<char>, Seq<char>)>)
    decreases results.len(),
{
    if results.len() == 0 {
        (Seq::empty(), names)
    } else {
        let (done, left) = named_results(results.drop_last(), names);
        let result = results.last();
        let name = match lookup(left, result.tool_use_id) {
            Some(name) => name,
            None => "unknown"@,
        };
        (
            put(
                done,
                result.tool_use_id,
                ToolResultView {
                    tool_use_id: result.tool_use_id,
                    tool_name: name,
                    is_error: result.is_error,
                    content: Seq::empty().push(result.content),
                    output: result.output,
                },
            ),
            without(left, result.tool_use_id),
        )
    }
}

/// What the agent answered.
pub open spec fn upgraded_agent(message: LegacyMessageView) -> AgentMessageView {
    AgentMessageView {
        content: upgraded_content(message),
        tool_results: named_results(message.tool_results, tool_names(message.tool_uses)).0,
        reasoning_details: None,
    }
}

/// How many messages the user wrote.
pub open spec fn user_count(messages: Seq<LegacyMessageView>) -> nat
    decreases messages.len(),
{
    if messages.len() == 0 {
        0
    } else {
        user_count(messages.drop_last()) + if messages.last().role == Role::User {
            1nat
        } else {
            0nat
        }
    }
}

/// The messages, each message of the user under the next of the ids. Messages of the
/// system are left out.
pub open spec fn upgraded_messages(
    messages: Seq<LegacyMessageView>,
    ids: Seq<Seq<char>>,
) -> Seq<MessageView>
    decreases messages.len(),
{
    if messages.len() == 0 {
        Seq::empty()
    } else {
        let before = messages.drop_last();
        let done = upgraded_messages(before, ids);
        match messages.last().role {
            Role::User => done.push(
                MessageView::User(
                    UserMessageView {
                        id: ids[user_count(before) as int],
                        content: upgraded_user(messages.last()),
                    },
                ),
            ),
            Role::Assistant => done.push(MessageView::Agent(upgraded_agent(messages.last()))),
            Role::System => done,
        }
    }
}

/// The tokens used by each answer, under the id of the user's message before it.
/// `usage` has an entry for each message, whoever wrote it.
pub open spec fn upgraded_usage(
    messages: Seq<LegacyMessageView>,
    usage: Seq<JsonView>,
    ids: Seq<Seq<char>>,
) -> Seq<(Seq<char>, JsonView)>
    decreases messages.len(),
{
    if messages.len() == 0 {
        Seq::empty()
    } else {
        let before = messages.drop_last();
        let done = upgraded_usage(before, usage, ids);
        if messages.last().role == Role::Assistant && user_count(before) > 0 && before.len()
            < usage.len() {
            put(done, ids[user_count(before) - 1], usage[before.len() as int])
        } else {
            done
        }
    }
}

/// A thread of the first format as it is stored now, with the given ids for the messages
/// of the user.
pub open spec fn upgraded(thread: LegacyView, ids: Seq<Seq<char>>) -> ThreadView {
    ThreadView {
        detailed_summary: thread.detailed_summary,
        initial_project_snapshot: thread.initial_project_snapshot,
        cumulative_token_usage: thread.cumulative_token_usage,
        request_token_usage: upgraded_usage(thread.messages, thread.request_token_usage, ids),
        model: thread.model,
        profile: thread.profile,
        ..plain_thread(
            thread.summary,
            upgraded_messages(thread.messages, ids),
            thread.updated_at,
        )
    }
}

fn read_user(message: &LegacyMessage) -> (r: Vec<UserMessageContent>)
    ensures
        r.deep_view() == upgraded_user(message.deep_view()),
{
    let ghost models = message.segments.deep_view();
    let mut content: Vec<UserMessageContent> = Vec::new();
    let mut i: usize = 0;
    proof {
        assert(models.take(0) =~= Seq::empty());
        assert(content.deep_view() =~= Seq::empty());
    }
    while i < message.segments.len()
        invariant
            i <= message.segments@.len(),
            models == message.segments.deep_view(),
            content.deep_view() == user_segments(models.take(i as int)),
        decreases message.segments@.len() - i,
    {
        let ghost done = content.deep_view();
        proof {
            let next = models.take(i + 1);
            assert(next.drop_last() =~= models.take(i as int));
            assert(next.last() == message.segments@[i as int].deep_view());
        }
        match &message.segments[i] {
            LegacySegment::Text(text) => {
                content.push(UserMessageContent::Text(text.clone()));
                assert(content.deep_view() =~= done.push(UserContentView::Text(text@)));
            },
            LegacySegment::Thinking { text, signature } => {
                content.push(UserMessageContent::Text(text.clone()));
                assert(content.deep_view() =~= done.push(UserContentView::Text(text@)));
            },
            LegacySegment::RedactedThinking(_) => {},
        }
        i = i + 1;
    }
    assert(models.take(models.len() as int) =~= models);
    assert(content.deep_view().len() == content@.len());
    if content.len() == 0 && !crate::text::is_blank(message.context.as_str()) {
        let ghost done = content.deep_view();
        content.push(UserMessageContent::Text(message.context.clone()));
        assert(content.deep_view() =~= done.push(UserContentView::Text(message.context@)));
    }
    content
}

fn read_content(message: &LegacyMessage) -> (r: Vec<AgentMessageContent>)
    ensures
        r.deep_view() == upgraded_content(message.deep_view()),
{
    let ghost segments = message.segments.deep_view();
    let ghost first = Seq::new(segments.len(), |i: int| upgraded_segment(segments[i]));
    let mut content: Vec<AgentMessageContent> = Vec::new();
    let mut i: usize = 0;
    assert(content.deep_view() =~= first.take(0));
    while i < message.segments.len()
        invariant
            i <= message.segments@.len(),
            segments == message.segments.deep_view(),
            first == Seq::new(segments.len(), |i: int| upgraded_segment(segments[i])),
            content.deep_view() == first.take(i as int),
        decreases message.segments@.len() - i,
    {
        let ghost done = content.deep_view();
        assert(segments[i as int] == message.segments@[i as int].deep_view());
        let block = match &message.segments[i] {
            LegacySegment::Text(text) => AgentMessageContent::Text(text.clone()),
            LegacySegment::Thinking { text, signature } => AgentMessageContent::Thinking {
                text: text.clone(),
                signature: copy_text(signature),
            },
            LegacySegment::RedactedThinking(data) => AgentMessageContent::RedactedThinking(
                data.clone(),
            ),
        };
        content.push(block);
        assert(content.deep_view() =~= done.push(block.deep_view()));
        i = i + 1;
        assert(content.deep_view() =~= first.take(i as int));
    }
    let ghost uses = message.tool_uses.deep_view();
    let ghost second = Seq::new(uses.len(), |i: int| upgraded_tool_use(uses[i]));
    let mut j: usize = 0;
    assert(content.deep_view() =~= first + second.take(0));
    while j < message.tool_uses.len()
        invariant
            j <= message.tool_uses@.len(),
            uses == message.tool_uses.deep_view(),
            second == Seq::new(uses.len(), |i: int| upgraded_tool_use(uses[i])),
            content.deep_view() == first + second.take(j as int),
        decreases message.tool_uses@.len() - j,
    {
        let ghost done = content.deep_view();
        let tool_use: &LegacyToolUse = &message.tool_uses[j];
        assert(uses[j as int] == message.tool_uses@[j as int].deep_view());
        let block = AgentMessageContent::ToolUse(
            ToolUse {
                id: tool_use.id.clone(),
                name: tool_use.name.clone(),
                raw_input: tool_use.raw_input.clone(),
                input: tool_use.input.clone(),
                is_input_complete: true,
                thought_signature: None,
            },
        );
        content.push(block);
        assert(content.deep_view() =~= done.push(block.deep_view()));
        j = j + 1;
        assert(content.deep_view() =~= first + second.take(j as int));
    }
    assert(second.take(second.len() as int) =~= second);
    content
}

fn read_tool_names(tool_uses: &Vec<LegacyToolUse>) -> (r: Vec<(String, String)>)
    ensures
        r.deep_view() == tool_names(tool_uses.deep_view()),
{
    let ghost models = tool_uses.deep_view();
    let mut names: Vec<(String, String)> = Vec::new();
    let mut i: usize = 0;
    proof {
        assert(models.take(0) =~= Seq::empty());
        assert(names.deep_view() =~= Seq::empty());
    }
    while i < tool_uses.len()
        invariant
            i <= tool_uses@.len(),
            models == tool_uses.deep_view(),
            names.deep_view() == tool_names(models.take(i as int)),
        decreases tool_uses@.len() - i,
    {
        proof {
            let next = models.take(i + 1);
            assert(next.drop_last() =~= models.take(i as int));
            assert(next.last() == tool_uses@[i as int].deep_view());
        }
        assign(&mut names, tool_uses[i].id.as_str(), tool_uses[i].name.clone());
        i = i + 1;
    }
    assert(models.take(models.len() as int) =~= models);
    names
}

fn copy_content(content: &ToolResultContent) -> (r: ToolResultContent)
    ensures
        r.deep_view() == content.deep_view(),
{
    match content {
        ToolResultContent::Text(text) => ToolResultContent::Text(text.clone()),
        ToolResultContent::Image(image) => ToolResultContent::Image(image.clone()),
    }
}

fn read_results(message: &LegacyMessage) -> (r: Vec<(String, ToolResult)>)
    ensures
        r.deep_view() == named_results(
            message.tool_results.deep_view(),
            tool_names(message.tool_uses.deep_view()),
        ).0,
{
    let ghost models = message.tool_results.deep_view();
    let mut names = read_tool_names(&message.tool_uses);
    let ghost all_names = names.deep_view();
    let mut results: Vec<(String, ToolResult)> = Vec::new();
    let mut i: usize = 0;
    proof {
        assert(models.take(0) =~= Seq::empty());
        assert(results.deep_view() =~= Seq::empty());
    }
    while i < message.tool_results.len()
        invariant
            i <= message.tool_results@.len(),
            models == message.tool_results.deep_view(),
            results.deep_view() == named_results(models.take(i as int), all_names).0,
            names.deep_view() == named_results(models.take(i as int), all_names).1,
        decreases message.tool_results@.len() - i,
    {
        proof {
            let next = models.take(i + 1);
            assert(next.drop_last() =~= models.take(i as int));
            assert(next.last() == message.tool_results@[i as int].deep_view());
        }
        let result: &LegacyToolResult = &message.tool_results[i];
        let name = match take(&mut names, result.tool_use_id.as_str()) {
            Some(name) => name,
            None => "unknown".to_owned(),
        };
        let mut content: Vec<ToolResultContent> = Vec::new();
        content.push(copy_content(&result.content));
        proof {
            assert(content.deep_view() =~= Seq::empty().push(result.content.deep_view()));
        }
        assign(
            &mut results,
            result.tool_use_id.as_str(),
            ToolResult {
                tool_use_id: result.tool_use_id.clone(),
                tool_name: name,
                is_error: result.is_error,
                content,
                output: copy_of(result.output.as_ref()),
            },
        );
        i = i + 1;
    }
    assert(models.take(models.len() as int) =~= models);
    results
}

proof fn lemma_user_count_bound(messages: Seq<LegacyMessageView>, n: int)
    requires
        0 <= n <= messages.len(),
    ensures
        user_count(messages.take(n)) <= user_count(messages) <= messages.len(),
    decreases messages.len(),
{
    if messages.len() == 0 {
    } else if n == messages.len() {
        assert(messages.take(n) =~= messages);
        lemma_user_count_bound(messages.drop_last(), 0);
    } else {
        assert(messages.drop_last().take(n) =~= messages.take(n));
        lemma_user_count_bound(messages.drop_last(), n);
    }
}

impl DbThread {
    /// Reads a thread of the first format, with the given ids for the messages of the
    /// user, in their order.
    pub fn upgrade_with_ids(thread: LegacyThread, ids: &Vec<String>) -> (r: DbThread)
        requires
            ids@.len() >= user_count(thread.deep_view().messages),
        ensures
            r.deep_view() == upgraded(thread.deep_view(), ids.deep_view()),
    {
        let ghost models = thread.messages.deep_view();
        let ghost usages = thread.request_token_usage.deep_view();
        let ghost names = ids.deep_view();
        let mut messages: Vec<Arc<DbMessage>> = Vec::new();
        let mut usage: Vec<(String, Json)> = Vec::new();
        let mut users: usize = 0;
        let mut i: usize = 0;
        proof {
            assert(models.take(0) =~= Seq::empty());
            assert(messages.deep_view() =~= Seq::empty());
            assert(usage.deep_view() =~= Seq::empty());
        }
        while i < thread.messages.len()
            invariant
                i <= thread.messages@.len(),
                models == thread.messages.deep_view(),
                usages == thread.request_token_usage.deep_view(),
                names == ids.deep_view(),
                ids@.len() >= user_count(models),
                users == user_count(models.take(i as int)),
                users <= i,
                messages.deep_view() == upgraded_messages(models.take(i as int), names),
                usage.deep_view() == upgraded_usage(models.take(i as int), usages, names),
            decreases thread.messages@.len() - i,
        {
            let ghost done = messages.deep_view();
            let message: &LegacyMessage = &thread.messages[i];
            proof {
                let next = models.take(i + 1);
                assert(next.drop_last() =~= models.take(i as int));
                assert(next.last() == thread.messages@[i as int].deep_view());
                lemma_user_count_bound(models, i + 1);
            }
            match message.role {
                Role::User => {
                    let read = Message::User(
                        UserMessage { id: ids[users].clone(), content: read_user(message) },
                    );
                    proof {
                        assert(names[users as int] == ids@[users as int]@);
                    }
                    messages.push(Arc::new(read));
                    assert(messages.deep_view() =~= done.push(read.deep_view()));
                    users = users + 1;
                },
                Role::Assistant => {
                    if users > 0 && i < thread.request_token_usage.len() {
                        proof {
                            assert(names[users - 1] == ids@[users - 1]@);
                            assert(usages[i as int]
                                == thread.request_token_usage@[i as int].deep_view());
                        }
                        assign(
                            &mut usage,
                            ids[users - 1].as_str(),
                            thread.request_token_usage[i].clone(),
                        );
                    }
                    let read = Message::Agent(
                        AgentMessage {
                            content: read_content(message),
                            tool_results: read_results(message),
                            reasoning_details: None,
                        },
                    );
                    messages.push(Arc::new(read));
                    assert(messages.deep_view() =~= done.push(read.deep_view()));
                },
                Role::System => {},
            }
            i = i + 1;
        }
        assert(models.take(models.len() as int) =~= models);
        let mut upgraded = DbThread::plain(thread.summary, messages, thread.updated_at);
        upgraded.detailed_summary = match thread.detailed_summary_state {
            DetailedSummaryState::NotGenerated => None,
            DetailedSummaryState::Generating => None,
            DetailedSummaryState::Generated { text } => Some(text),
        };
        upgraded.initial_project_snapshot = thread.initial_project_snapshot;
        upgraded.cumulative_token_usage = thread.cumulative_token_usage;
        upgraded.request_token_usage = usage;
        upgraded.model = thread.model;
        upgraded.profile = thread.profile;
        upgraded
    }

    /// Reads a thread of the first format. Its ids cannot be carried over, so each
    /// message of the user gets a new random one.
    pub fn upgrade_from_agent_1(thread: LegacyThread) -> (r: DbThread)
        ensures
            exists|ids: Seq<Seq<char>>|
                {
                    &&& ids.len() == user_count(thread.deep_view().messages)
                    &&& forall|i: int| 0 <= i < ids.len() ==> is_id_text(#[trigger] ids[i])
                    &&& r.deep_view() == #[trigger] upgraded(thread.deep_view(), ids)
                },
    {
        let ghost models = thread.messages.deep_view();
        let mut ids: Vec<String> = Vec::new();
        let mut i: usize = 0;
        assert(models.take(0) =~= Seq::empty());
        while i < thread.messages.len()
            invariant
                i <= thread.messages@.len(),
                models == thread.messages.deep_view(),
                ids@.len() == user_count(models.take(i as int)),
                forall|j: int| 0 <= j < ids@.len() ==> is_id_text(#[trigger] ids.deep_view()[j]),
            decreases thread.messages@.len() - i,
        {
            proof {
                let next = models.take(i + 1);
                assert(next.drop_last() =~= models.take(i as int));
                assert(next.last() == thread.messages@[i as int].deep_view());
            }
            if thread.messages[i].role == Role::User {
                let ghost before = ids.deep_view();
                let id = new_id();
                ids.push(id);
                assert(ids.deep_view() =~= before.push(id@));
            }
            i = i + 1;
        }
        proof {
            assert(models.take(models.len() as int) =~= models);
            assert(ids.deep_view().len() == ids@.len());
        }
        DbThread::upgrade_with_ids(thread, &ids)
    }
}

/// Reading a thread of the first format keeps the conversation: one message for each of
/// the user and of the agent, none for the system.
pub proof fn law_upgrade_keeps_messages(messages: Seq<LegacyMessageView>, ids: Seq<Seq<char>>)
    ensures
        upgraded_messages(messages, ids).len() == messages.filter(
            |m: LegacyMessageView| m.role != Role::System,
        ).len(),
    decreases messages.len(),
{
    let spoken = |m: LegacyMessageView| m.role != Role::System;
    reveal(Seq::filter);
    if messages.len() > 0 {
        law_upgrade_keeps_messages(messages.drop_last(), ids);
        assert(messages.filter(spoken).len() == messages.drop_last().filter(spoken).len() + if spoken(
            messages.last(),
        ) {
            1int
        } else {
            0int
        });
    }
}

// ---------------------------------------------------------------------------
// Merging

/// The first of the threads, with the messages of the others merged in, in turn.
pub open spec fn merged_threads(threads: Seq<ThreadView>) -> ThreadView
    recommends
        threads.len() > 0,
{
    ThreadView {
        messages: merged_all(Seq::new(threads.len(), |i: int| threads[i].messages)),
        ..threads[0]
    }
}

/// Merges another thread's messages into a thread; nothing else of it changes.
pub fn merge_message_lists(base: &mut DbThread, other: &DbThread)
    ensures
        final(base).deep_view() == (ThreadView {
            messages: merged(old(base).deep_view().messages, other.deep_view().messages),
            ..old(base).deep_view()
        }),
{
    merge_messages(&mut base.messages, &other.messages);
}

/// The first thread with the messages of the others merged in, in turn.
pub fn merge_threads(first: DbThread, others: &Vec<DbThread>) -> (r: DbThread)
    ensures
        r.deep_view() == merged_threads(seq![first.deep_view()] + others.deep_view()),
{
    let ghost all = seq![first.deep_view()] + others.deep_view();
    let ghost lists = Seq::new(all.len(), |i: int| all[i].messages);
    let ghost start = first.deep_view();
    let mut base = first;
    let mut i: usize = 0;
    proof {
        assert(lists.take(1) =~= seq![start.messages]);
    }
    while i < others.len()
        invariant
            i <= others@.len(),
            all == seq![start] + others.deep_view(),
            lists == Seq::new(all.len(), |i: int| all[i].messages),
            base.deep_view() == (ThreadView { messages: merged_all(lists.take(i + 1)), ..start }),
        decreases others@.len() - i,
    {
        proof {
            let next = lists.take(i + 2);
            assert(next.drop_last() =~= lists.take(i + 1));
            assert(next.last() == others@[i as int].deep_view().messages);
        }
        merge_message_lists(&mut base, &others[i]);
        i = i + 1;
    }
    proof {
        assert(lists.take(lists.len() as int) =~= lists);
    }
    base
}

/// Merging takes nothing but messages over: whatever else there is of the first thread stays
/// as it is.
pub proof fn law_merging_changes_messages_alone(threads: Seq<ThreadView>)
    requires
        threads.len() > 0,
    ensures
        (ThreadView { messages: threads[0].messages, ..merged_threads(threads) }) == threads[0],
{
}

/// What is shared is the conversation: its title, its messages, when it was updated and by
/// which model. Once stored the title is marked, and nothing is granted or set.
pub proof fn law_shared_is_the_conversation(thread: ThreadView)
    ensures
        shared_from(thread).title == thread.title,
        shared_from(thread).messages == thread.messages,
        shared_from(thread).updated_at == thread.updated_at,
        shared_from(thread).model == thread.model,
        ({
            let stored = stored_from(shared_from(thread));
            let grants = stored.sandbox_grants;
            &&& stored.title == "🔗 "@ + thread.title
            &&& stored.messages == thread.messages
            &&& stored.updated_at == thread.updated_at
            &&& stored.model == thread.model
            &&& stored.detailed_summary is None
            &&& stored.initial_project_snapshot is None
            &&& stored.request_token_usage.len() == 0
            &&& stored.profile is None
            &&& stored.subagent_context is None
            &&& stored.speed is None
            &&& !stored.thinking_enabled
            &&& stored.thinking_effort is None
            &&& stored.draft_prompt is None
            &&& stored.ui_scroll_position is None
            &&& stored.sandboxed_terminal_temp_dir is None
            &&& grants.write_paths.len() == 0 && grants.network_hosts.len() == 0
            &&& !grants.network_any_host && !grants.allow_fs_write_all
            &&& !grants.unsandboxed && !grants.sandbox_fallback
        }),
{
}

/// A stored thread is current exactly where it names the current version.
pub proof fn law_current_names_its_version(thread: JsonView)
    ensures
        format_of(thread) == StoredFormat::Current <==> crate::json::text_in(
            crate::json::field(thread, "version"@),
        ) == Some("0.3.0"@),
{
}

/// A thread of the first format keeps what it is about: its summary is the title, and what is
/// known of it is known under the same name. Nothing is granted to it.
pub proof fn law_upgrade_keeps_what_is_known(thread: LegacyView, ids: Seq<Seq<char>>)
    ensures
        ({
            let now = upgraded(thread, ids);
            let grants = now.sandbox_grants;
            &&& now.title == thread.summary
            &&& now.updated_at == thread.updated_at
            &&& now.detailed_summary == thread.detailed_summary
            &&& now.initial_project_snapshot == thread.initial_project_snapshot
            &&& now.cumulative_token_usage == thread.cumulative_token_usage
            &&& now.model == thread.model
            &&& now.profile == thread.profile
            &&& now.subagent_context is None
            &&& grants.write_paths.len() == 0 && grants.network_hosts.len() == 0
            &&& !grants.network_any_host && !grants.allow_fs_write_all
            &&& !grants.unsandboxed && !grants.sandbox_fallback
        }),
{
}

/// The messages come over one after the other: one of the user under the next id, one of the
/// agent as an answer, and one of the system not at all.
pub proof fn law_messages_come_over_in_order(
    messages: Seq<LegacyMessageView>,
    message: LegacyMessageView,
    ids: Seq<Seq<char>>,
)
    ensures
        ({
            let before = upgraded_messages(messages, ids);
            let after = upgraded_messages(messages.push(message), ids);
            match message.role {
                Role::User => {
                    &&& after.len() == before.len() + 1 && after.take(before.len() as int) == before
                    &&& after.last() matches MessageView::User(turn) && turn.id == ids[user_count(
                        messages,
                    ) as int] && turn.content == upgraded_user(message)
                },
                Role::Assistant => {
                    &&& after.len() == before.len() + 1 && after.take(before.len() as int) == before
                    &&& after.last() matches MessageView::Agent(answer) && answer == upgraded_agent(
                        message,
                    )
                },
                Role::System => after == before,
            }
        }),
        user_count(messages.push(message)) == user_count(messages) + if message.role == Role::User {
            1int
        } else {
            0int
        },
        user_count(Seq::empty()) == 0,
        upgraded_messages(Seq::empty(), ids).len() == 0,
{
    assert(messages.push(message).drop_last() =~= messages);
    let before = upgraded_messages(messages, ids);
    let after = upgraded_messages(messages.push(message), ids);
    if message.role != Role::System {
        assert(after.take(before.len() as int) =~= before);
    }
}

/// What the user wrote comes over piece by piece, as text; what was redacted does not come
/// over. What was attached counts only where the user wrote nothing.
pub proof fn law_user_pieces_come_over_as_text(
    segments: Seq<LegacySegmentView>,
    segment: LegacySegmentView,
    message: LegacyMessageView,
)
    ensures
        ({
            let before = user_segments(segments);
            let after = user_segments(segments.push(segment));
            match segment {
                LegacySegmentView::Text(text) => after == before.push(UserContentView::Text(text)),
                LegacySegmentView::Thinking { text, .. } => after == before.push(
                    UserContentView::Text(text),
                ),
                LegacySegmentView::RedactedThinking(_) => after == before,
            }
        }),
        user_segments(Seq::empty()).len() == 0,
        user_segments(message.segments).len() > 0 ==> upgraded_user(message) == user_segments(
            message.segments,
        ),
        user_segments(message.segments).len() == 0 && message.context.len() > 0 ==> upgraded_user(
            message,
        ) == seq![UserContentView::Text(message.context)],
        user_segments(message.segments).len() == 0 && message.context.len() == 0 ==> upgraded_user(
            message,
        ).len() == 0,
{
    assert(segments.push(segment).drop_last() =~= segments);
}

/// What the agent wrote comes over piece by piece, followed by the tools that it called, each
/// with its id, name and input.
pub proof fn law_answer_comes_over_piece_by_piece(message: LegacyMessageView, i: int)
    ensures
        upgraded_agent(message).content.len() == message.segments.len() + message.tool_uses.len(),
        0 <= i < message.segments.len() ==> match message.segments[i] {
            LegacySegmentView::Text(text) => upgraded_agent(message).content[i]
                == AgentContentView::Text(text),
            LegacySegmentView::Thinking { text, signature } => upgraded_agent(message).content[i]
                == (AgentContentView::Thinking { text, signature }),
            LegacySegmentView::RedactedThinking(data) => upgraded_agent(message).content[i]
                == AgentContentView::RedactedThinking(data),
        },
        0 <= i < message.tool_uses.len() ==> (upgraded_agent(message).content[message.segments.len()
            + i] matches AgentContentView::ToolUse(call) && call.id == message.tool_uses[i].id
            && call.name == message.tool_uses[i].name && call.input == message.tool_uses[i].input
            && call.raw_input == message.tool_uses[i].raw_input && call.is_input_complete),
{
}

proof fn lemma_tool_names_distinct(tool_uses: Seq<LegacyToolUseView>)
    ensures
        distinct(tool_names(tool_uses)),
    decreases tool_uses.len(),
{
    if tool_uses.len() > 0 {
        let rest = tool_uses.drop_last();
        lemma_tool_names_distinct(rest);
        lemma_put_keeps_distinct(tool_names(rest), tool_uses.last().id, tool_uses.last().name);
    }
}

proof fn lemma_names_left(
    results: Seq<LegacyToolResultView>,
    names: Seq<(Seq<char>, Seq<char>)>,
    id: Seq<char>,
)
    requires
        distinct(names),
    ensures
        distinct(named_results(results, names).1),
        (forall|i: int| 0 <= i < results.len() ==> (#[trigger] results[i]).tool_use_id != id)
            ==> lookup(named_results(results, names).1, id) == lookup(names, id),
    decreases results.len(),
{
    if results.len() > 0 {
        let rest = results.drop_last();
        lemma_names_left(rest, names, id);
        lemma_without(named_results(rest, names).1, results.last().tool_use_id, id);
        if forall|i: int| 0 <= i < results.len() ==> (#[trigger] results[i]).tool_use_id != id {
            assert forall|i: int| 0 <= i < rest.len() implies (#[trigger] rest[i]).tool_use_id
                != id by {
                assert(results[i] == rest[i]);
            }
            assert(results[results.len() - 1].tool_use_id != id);
        }
    }
}

/// The last result for a call comes over under the call's id, with what the tool gave back.
/// It has the name of the tool that was called under that id, where no other result took the
/// name before; other results are as they were.
pub proof fn law_results_come_over_under_their_call(
    results: Seq<LegacyToolResultView>,
    result: LegacyToolResultView,
    tool_uses: Seq<LegacyToolUseView>,
    other: Seq<char>,
)
    ensures
        ({
            let before = named_results(results, tool_names(tool_uses)).0;
            let after = named_results(results.push(result), tool_names(tool_uses)).0;
            &&& lookup(after, result.tool_use_id) matches Some(found)
            &&& found.tool_use_id == result.tool_use_id
            &&& found.is_error == result.is_error
            &&& found.content == seq![result.content]
            &&& found.output == result.output
            &&& (forall|i: int|
                0 <= i < results.len() ==> (#[trigger] results[i]).tool_use_id
                    != result.tool_use_id) ==> (lookup(
                tool_names(tool_uses),
                result.tool_use_id,
            ) matches Some(name) ==> found.tool_name == name) && (lookup(
                tool_names(tool_uses),
                result.tool_use_id,
            ) is None ==> found.tool_name == "unknown"@)
            &&& other != result.tool_use_id ==> lookup(after, other) == lookup(before, other)
        }),
{
    assert(results.push(result).drop_last() =~= results);
    let names = tool_names(tool_uses);
    let before = named_results(results, names).0;
    let after = named_results(results.push(result), names).0;
    let entry = lookup(after, result.tool_use_id);
    lemma_tool_names_distinct(tool_uses);
    lemma_names_left(results, names, result.tool_use_id);
    let left = named_results(results, names).1;
    let model = ToolResultView {
        tool_use_id: result.tool_use_id,
        tool_name: match lookup(left, result.tool_use_id) {
            Some(name) => name,
            None => "unknown"@,
        },
        is_error: result.is_error,
        content: Seq::empty().push(result.content),
        output: result.output,
    };
    assert(after == put(before, result.tool_use_id, model));
    lemma_lookup_after_put(before, result.tool_use_id, model, other);
    assert(entry == Some(model));
    assert(seq![result.content] =~= Seq::empty().push(result.content));
}

/// A called tool is known by the id of the call, and a later call under that id counts.
pub proof fn law_tools_are_known_by_call(
    tool_uses: Seq<LegacyToolUseView>,
    tool_use: LegacyToolUseView,
    other: Seq<char>,
)
    ensures
        lookup(tool_names(tool_uses.push(tool_use)), tool_use.id) == Some(tool_use.name),
        other != tool_use.id ==> lookup(tool_names(tool_uses.push(tool_use)), other) == lookup(
            tool_names(tool_uses),
            other,
        ),
{
    assert(tool_uses.push(tool_use).drop_last() =~= tool_uses);
    lemma_lookup_after_put(tool_names(tool_uses), tool_use.id, tool_use.name, other);
}

/// The tokens of an answer stand under the id of the user's message before it; messages of
/// the user and of the system, and answers that no message of the user came before, add none.
pub proof fn law_tokens_stand_under_the_request(
    messages: Seq<LegacyMessageView>,
    message: LegacyMessageView,
    usage: Seq<JsonView>,
    ids: Seq<Seq<char>>,
    other: Seq<char>,
)
    ensures
        ({
            let before = upgraded_usage(messages, usage, ids);
            let after = upgraded_usage(messages.push(message), usage, ids);
            let request = ids[user_count(messages) - 1];
            &&& message.role != Role::Assistant ==> after == before
            &&& user_count(messages) == 0 ==> after == before
            &&& message.role == Role::Assistant && user_count(messages) > 0 && messages.len()
                < usage.len() ==> lookup(after, request) == Some(usage[messages.len() as int]) && (
            other != request ==> lookup(after, other) == lookup(before, other))
        }),
{
    assert(messages.push(message).drop_last() =~= messages);
    lemma_lookup_after_put(
        upgraded_usage(messages, usage, ids),
        ids[user_count(messages) - 1],
        usage[messages.len() as int],
        other,
    );
}

} // verus!
