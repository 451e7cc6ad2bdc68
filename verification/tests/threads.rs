use agent_core::json::Json;
use agent_core::message::{
    AgentMessage, AgentMessageContent, CompactionInfo, Message, ToolResult, ToolResultContent,
    ToolUse, UserMessage, UserMessageContent,
};
use agent_core::number::Number;
use agent_core::thread_blob::{pack, read_blob, unpack, write_blob, BlobError, DataType};
use agent_core::thread_merge::{
    common_message_prefix_len, first_user_message_text, fnv1a_64, merge_messages,
    message_signature, thread_dedup_key,
};
use agent_core::thread_reconcile::ThreadReconcileSummary;
use agent_core::thread_schema::{after_step, schema_steps, threads_location, AfterStep, Need};
use agent_core::thread_table::{FolderPaths, TableError, ThreadRow, ThreadsDatabase};
use agent_core::threads::{
    merge_message_lists, merge_threads, stored_format, DbSandboxGrants, DbThread,
    DetailedSummaryState, GrantedWritePath, LegacyMessage, LegacySegment, LegacyThread,
    LegacyToolResult, LegacyToolUse, Role, SerializedScrollPosition, SharedThread, StoredFormat,
    SubagentContext,
};
use agent_core::time::Timestamp;
use std::path::PathBuf;
use std::sync::Arc;

/// The start of a day of 2024, counted from the first of January.
fn day(days: i64) -> Timestamp {
    Timestamp::new(1_704_067_200 + days * 86_400, 0).unwrap()
}

fn make_thread(title: &str, updated_at: Timestamp) -> DbThread {
    DbThread::plain(title.to_string(), Vec::new(), updated_at)
}

fn user_message(text: &str) -> Arc<Message> {
    Arc::new(Message::User(UserMessage {
        id: format!("id of {text}"),
        content: vec![UserMessageContent::Text(text.to_string())],
    }))
}

/// Keeps threads, and writes each as the number under which it is kept.
struct Codec {
    threads: Vec<DbThread>,
}

impl Codec {
    fn new() -> Self {
        Codec { threads: Vec::new() }
    }

    fn write(&mut self, thread: DbThread) -> String {
        self.threads.push(thread);
        (self.threads.len() - 1).to_string()
    }

    fn read(&self, text: &str) -> &DbThread {
        &self.threads[text.parse::<usize>().unwrap()]
    }

    fn copy(&self, text: &str) -> DbThread {
        let thread = self.read(text);
        DbThread::plain(
            thread.title.clone(),
            thread.messages.clone(),
            thread.updated_at,
        )
    }
}

struct Store {
    database: ThreadsDatabase,
    codec: Codec,
}

impl Store {
    fn new() -> Self {
        Store {
            database: ThreadsDatabase::new(),
            codec: Codec::new(),
        }
    }

    fn save(&mut self, id: &str, thread: DbThread, workspace_id: Option<&str>) {
        self.save_in(id, thread, None, workspace_id);
    }

    fn save_in(
        &mut self,
        id: &str,
        thread: DbThread,
        folders: Option<&FolderPaths>,
        workspace_id: Option<&str>,
    ) {
        let text = self.codec.write(thread);
        let thread = self.codec.read(&text);
        self.database
            .save_thread(id, thread, &text, folders, workspace_id)
            .unwrap();
    }

    fn load(&self, id: &str) -> Option<&DbThread> {
        let text = self.database.load_thread(id).unwrap()?;
        Some(self.codec.read(&text))
    }

    fn reconcile(&mut self) -> ThreadReconcileSummary {
        let groups = self.database.duplicate_groups();
        let mut merged = Vec::new();
        for group in &groups {
            let texts = group.texts().unwrap();
            let first = self.codec.copy(&texts[0]);
            let others: Vec<DbThread> =
                texts[1..].iter().map(|text| self.codec.copy(text)).collect();
            let thread = merge_threads(first, &others);
            merged.push(self.codec.write(thread));
        }
        self.database.finish_reconcile(&groups, &merged).unwrap()
    }

    fn listed(&self) -> Vec<String> {
        self.database
            .list_threads()
            .unwrap()
            .into_iter()
            .map(|thread| thread.id)
            .collect()
    }
}

fn user_texts(thread: &DbThread) -> Vec<String> {
    thread
        .messages
        .iter()
        .filter_map(|message| match message.as_ref() {
            Message::User(user) => {
                let mut text = String::new();
                for block in user.content.iter() {
                    if let UserMessageContent::Text(part) = block {
                        text.push_str(part);
                    }
                }
                Some(text)
            }
            _ => None,
        })
        .collect()
}

// ---------------------------------------------------------------------------
// Sharing

fn shared_to_bytes(thread: &SharedThread) -> Vec<u8> {
    let mut fields = serde_json::Map::new();
    fields.insert("title".to_string(), thread.title.clone().into());
    fields.insert("messages".to_string(), serde_json::Value::Array(Vec::new()));
    fields.insert("updated_at".to_string(), thread.updated_at.to_text().into());
    fields.insert("version".to_string(), thread.version.clone().into());
    serde_json::to_vec(&serde_json::Value::Object(fields)).unwrap()
}

fn shared_from_bytes(bytes: &[u8]) -> SharedThread {
    let value: serde_json::Value = serde_json::from_slice(bytes).unwrap();
    SharedThread {
        title: value["title"].as_str().unwrap().to_string(),
        messages: Vec::new(),
        updated_at: Timestamp::parse(value["updated_at"].as_str().unwrap()).unwrap(),
        model: None,
        version: value["version"].as_str().unwrap().to_string(),
    }
}

#[test]
fn test_shared_thread_roundtrip() {
    let original = SharedThread {
        title: "Test Thread".into(),
        messages: vec![],
        updated_at: Timestamp::parse("2024-01-01T00:00:00Z").unwrap(),
        model: None,
        version: SharedThread::VERSION.to_string(),
    };

    let bytes = pack(&shared_to_bytes(&original)).expect("Failed to serialize");
    let restored = shared_from_bytes(&unpack(&bytes).expect("Failed to deserialize"));

    assert_eq!(restored.title, original.title);
    assert_eq!(restored.version, original.version);
    assert_eq!(restored.updated_at, original.updated_at);
}

#[test]
fn shared_threads_are_marked_when_they_are_stored() {
    let mut thread = make_thread("Title", day(0));
    thread.messages.push(user_message("hello"));
    thread.profile = Some("write".to_string());
    thread.model = Some(Json::Text("model".to_string()));
    let stored = SharedThread::from_db_thread(&thread).to_db_thread();
    assert_eq!(stored.title, "🔗 Title");
    assert_eq!(user_texts(&stored), vec!["hello"]);
    assert_eq!(stored.profile, None);
    assert_eq!(stored.model.unwrap().as_str(), Some("model"));
    assert_eq!(stored.updated_at, day(0));
}

fn not_compressed(data: &[u8]) -> BlobError {
    BlobError::NotCompressed(zstd::decode_all(data).unwrap_err().to_string())
}

#[test]
fn packed_bytes_differ_from_what_they_hold() {
    let bytes = vec![7u8; 1000];
    let packed = pack(&bytes).unwrap();
    assert_ne!(packed, bytes);
    assert_eq!(unpack(&packed).unwrap(), bytes);
    assert_eq!(unpack(&[1, 2, 3]).unwrap_err(), not_compressed(&[1, 2, 3]));
}

// ---------------------------------------------------------------------------
// Blobs

#[test]
fn blobs_read_back_as_text() {
    let data = write_blob("héllo").unwrap();
    assert_eq!(read_blob(DataType::Zstd, &data).unwrap(), "héllo");
    assert_eq!(
        read_blob(DataType::Json, &"héllo".as_bytes().to_vec()).unwrap(),
        "héllo"
    );
    assert_eq!(
        read_blob(DataType::Json, &vec![0xff]).unwrap_err().message(),
        "invalid utf-8 sequence of 1 bytes from index 0"
    );
    assert_eq!(
        read_blob(DataType::Zstd, &pack(&[0xff]).unwrap()),
        Err(BlobError::NotText(
            "invalid utf-8 sequence of 1 bytes from index 0".to_string()
        ))
    );
    assert_eq!(
        read_blob(DataType::Zstd, &vec![1, 2, 3]),
        Err(not_compressed(&[1, 2, 3]))
    );
}

#[test]
fn data_types_have_names() {
    for data_type in [DataType::Json, DataType::Zstd] {
        assert_eq!(DataType::parse(data_type.as_str()), Ok(data_type));
    }
    assert_eq!(DataType::Json.as_str(), "json");
    assert_eq!(DataType::Zstd.as_str(), "zstd");
    let error = DataType::parse("gzip").unwrap_err();
    assert_eq!(error.message(), "Unknown data type: gzip");
}

// ---------------------------------------------------------------------------
// The key of a conversation

#[test]
fn test_thread_dedup_key() {
    let timestamp = Timestamp::parse("2024-01-01T00:00:00Z").unwrap();

    let mut a = make_thread("thread a", timestamp);
    a.messages.push(user_message("hello"));
    let mut b = make_thread("thread b", timestamp);
    b.messages.push(user_message("hello"));

    let key_a = thread_dedup_key(Some("ws-1"), "", &a.messages);
    let key_b = thread_dedup_key(Some("ws-1"), "", &b.messages);
    assert_eq!(key_a, key_b);
    assert!(key_a.is_some());

    // Different workspace identity => different key.
    let key_c = thread_dedup_key(Some("ws-2"), "", &a.messages);
    assert_ne!(key_a, key_c);

    // Different first message => different key.
    let mut d = make_thread("thread d", timestamp);
    d.messages.push(user_message("goodbye"));
    let key_d = thread_dedup_key(Some("ws-1"), "", &d.messages);
    assert_ne!(key_a, key_d);

    // No workspace, no folder paths, no messages => no key.
    let empty = make_thread("empty", timestamp);
    assert_eq!(thread_dedup_key(None, "", &empty.messages), None);
}

#[test]
fn hashes_are_those_of_fnv() {
    assert_eq!(fnv1a_64(""), 0xcbf2_9ce4_8422_2325);
    assert_eq!(fnv1a_64("a"), 0xaf63_dc4c_8601_ec8c);
    assert_eq!(fnv1a_64("foobar"), 0x8594_4171_f739_67e8);
    assert_eq!(
        thread_dedup_key(Some("a"), "", &Vec::new()).unwrap(),
        format!("{:016x}", fnv1a_64("a\0"))
    );
    assert_eq!(
        thread_dedup_key(None, "/a\n/b", &Vec::new()).unwrap(),
        format!("{:016x}", fnv1a_64("/a\n/b\0"))
    );
}

#[test]
fn the_first_request_is_read_with_its_mentions() {
    let messages = vec![
        Arc::new(Message::Resume),
        Arc::new(Message::User(UserMessage {
            id: "1".to_string(),
            content: vec![
                UserMessageContent::Text("see".to_string()),
                UserMessageContent::Mention {
                    uri: Json::Null,
                    content: "file".to_string(),
                },
                UserMessageContent::Image(Json::Null),
            ],
        })),
        user_message("later"),
    ];
    assert_eq!(first_user_message_text(&messages), "see file");
    assert_eq!(first_user_message_text(&Vec::new()), "");
}

// ---------------------------------------------------------------------------
// Signatures and merging

#[test]
fn signatures_say_what_messages_say() {
    assert_eq!(
        message_signature(&user_message("hello")),
        vec!["user", "hello"]
    );
    let agent = Message::Agent(AgentMessage {
        content: vec![
            AgentMessageContent::Text("text".to_string()),
            AgentMessageContent::Thinking {
                text: "thought".to_string(),
                signature: None,
            },
            AgentMessageContent::RedactedThinking("secret".to_string()),
            AgentMessageContent::ToolUse(ToolUse {
                id: "1".to_string(),
                name: "read".to_string(),
                raw_input: "{}".to_string(),
                input: Json::Object(Vec::new()),
                is_input_complete: true,
                thought_signature: None,
            }),
        ],
        tool_results: vec![(
            "1".to_string(),
            ToolResult {
                tool_use_id: "1".to_string(),
                tool_name: "read".to_string(),
                is_error: false,
                content: vec![
                    ToolResultContent::Text("ok".to_string()),
                    ToolResultContent::Image(Json::Null),
                ],
                output: None,
            },
        )],
        reasoning_details: None,
    });
    assert_eq!(
        message_signature(&agent),
        vec![
            "agent",
            "text",
            "thought",
            "<redacted>",
            "tool:read",
            "input:{}",
            "result:read",
            "ok",
            "<image>"
        ]
    );
    assert_eq!(message_signature(&Message::Resume), vec!["resume"]);
    assert_eq!(
        message_signature(&Message::Compaction(CompactionInfo::Summary("s".to_string()))),
        vec!["compaction", "s"]
    );
    assert_eq!(
        message_signature(&Message::Compaction(CompactionInfo::ProviderNative(Json::Null))),
        vec!["compaction", "provider-native"]
    );
}

#[test]
fn merging_keeps_every_message() {
    let mut base = vec![user_message("a"), user_message("b")];
    let other = vec![user_message("a"), user_message("c"), user_message("b")];
    assert_eq!(common_message_prefix_len(&base, &other), 1);
    merge_messages(&mut base, &other);
    let texts: Vec<Vec<String>> = base.iter().map(|m| message_signature(m)).collect();
    assert_eq!(
        texts,
        vec![
            vec!["user", "a"],
            vec!["user", "b"],
            vec!["user", "c"],
            vec!["user", "b"]
        ]
    );

    let mut thread = make_thread("base", day(0));
    thread.messages.push(user_message("a"));
    let mut longer = make_thread("longer", day(1));
    longer.messages.push(user_message("a"));
    longer.messages.push(user_message("z"));
    merge_message_lists(&mut thread, &longer);
    assert_eq!(user_texts(&thread), vec!["a", "z"]);
    assert_eq!(thread.title, "base");
    // A copy that is a mere beginning adds nothing.
    let mut beginning = make_thread("short", day(1));
    beginning.messages.push(user_message("a"));
    merge_message_lists(&mut thread, &beginning);
    assert_eq!(user_texts(&thread), vec!["a", "z"]);
}

// ---------------------------------------------------------------------------
// The table

#[test]
fn test_list_threads_orders_by_created_at() {
    let mut store = Store::new();
    store.save("thread-a", make_thread("Thread A", day(0)), None);
    store.save("thread-b", make_thread("Thread B", day(1)), None);

    let entries = store.database.list_threads().unwrap();
    assert_eq!(entries.len(), 2);
    assert_eq!(entries[0].id, "thread-b");
    assert_eq!(entries[1].id, "thread-a");
}

#[test]
fn test_save_thread_replaces_metadata() {
    let mut store = Store::new();
    store.save("thread-a", make_thread("Thread A", day(0)), None);
    store.save("thread-a", make_thread("Thread B", day(1)), None);

    let entries = store.database.list_threads().unwrap();
    assert_eq!(entries.len(), 1);
    assert_eq!(entries[0].id, "thread-a");
    assert_eq!(entries[0].title, "Thread B");
    assert_eq!(
        entries[0].updated_at,
        Timestamp::parse("2024-01-02T00:00:00Z").unwrap()
    );
    assert!(
        entries[0].created_at.is_some(),
        "created_at should be populated"
    );
}

#[test]
fn saving_again_keeps_the_time_of_creation_and_the_workspace() {
    let mut store = Store::new();
    store.save("a", make_thread("A", day(0)), Some("ws"));
    store.save("a", make_thread("A", day(5)), None);
    let entry = &store.database.list_threads().unwrap()[0];
    assert_eq!(entry.created_at, Some(day(0)));
    assert_eq!(entry.updated_at, day(5));
    assert_eq!(entry.workspace_id.as_deref(), Some("ws"));
    assert_eq!(store.database.thread_updated_at("a").unwrap(), Some(day(5)));
    assert_eq!(store.database.thread_updated_at("b").unwrap(), None);
}

#[test]
fn test_sandbox_grants_roundtrip_through_save_load() {
    let mut store = Store::new();
    let mut thread = make_thread("Sandbox Grants Thread", day(0));
    let grants = || DbSandboxGrants {
        write_paths: vec![
            GrantedWritePath {
                path: PathBuf::from("/tmp/build"),
                canonical: None,
            },
            GrantedWritePath {
                path: PathBuf::from("/tmp/link"),
                canonical: Some(PathBuf::from("/tmp/real")),
            },
        ],
        network_hosts: vec!["github.com".to_string(), "*.npmjs.org".to_string()],
        network_any_host: false,
        allow_fs_write_all: false,
        unsandboxed: true,
        sandbox_fallback: true,
    };
    thread.sandbox_grants = grants();

    store.save("sandbox-grants-thread", thread, None);

    let loaded = store
        .load("sandbox-grants-thread")
        .expect("thread should exist");
    assert_eq!(loaded.sandbox_grants, grants());
}

#[test]
fn test_sandboxed_terminal_temp_dir_roundtrips_through_save_load() {
    let mut store = Store::new();
    let temp_dir = PathBuf::from("/tmp/zed-agent-terminal-test-1");
    let mut thread = make_thread("Sandbox Temp Dir Thread", day(0));
    thread.sandboxed_terminal_temp_dir = Some(temp_dir.clone());

    store.save("sandbox-temp-dir-thread", thread, None);

    let loaded = store
        .load("sandbox-temp-dir-thread")
        .expect("thread should exist");
    assert_eq!(loaded.sandboxed_terminal_temp_dir, Some(temp_dir));
}

#[test]
fn test_delete_thread_removes_sandboxed_terminal_temp_dir() {
    let mut store = Store::new();
    let temp_dir = PathBuf::from("/tmp/zed-agent-terminal-test-2");
    let mut thread = make_thread("Sandbox Temp Dir Delete Thread", day(0));
    thread.sandboxed_terminal_temp_dir = Some(temp_dir.clone());

    store.save("sandbox-temp-dir-delete-thread", thread, None);
    let gone = store.database.delete_thread("sandbox-temp-dir-delete-thread");

    // Each row that went names the directory that goes with it.
    let directories: Vec<Option<PathBuf>> = gone
        .iter()
        .map(|row| {
            let text = read_blob(row.data_type, &row.data).unwrap();
            store.codec.read(&text).sandboxed_terminal_temp_dir.clone()
        })
        .collect();
    assert_eq!(directories, vec![Some(temp_dir)]);
    assert!(store.load("sandbox-temp-dir-delete-thread").is_none());
}

fn subagent_thread(title: &str, parent: &str, depth: u8) -> DbThread {
    let mut thread = make_thread(title, day(0));
    thread.subagent_context = Some(SubagentContext {
        parent_thread_id: parent.to_string(),
        depth,
    });
    thread
}

#[test]
fn test_delete_thread_deletes_subagent_threads() {
    let mut store = Store::new();
    store.save("parent-thread", make_thread("Parent Thread", day(0)), None);
    store.save(
        "child-thread",
        subagent_thread("Child Subagent Thread", "parent-thread", 1),
        None,
    );
    store.save(
        "grandchild-thread",
        subagent_thread("Grandchild Subagent Thread", "child-thread", 2),
        None,
    );
    store.save(
        "unrelated-thread",
        make_thread("Unrelated Thread", day(0)),
        None,
    );

    let gone = store.database.delete_thread("parent-thread");

    assert_eq!(gone.len(), 3);
    assert_eq!(store.listed(), vec!["unrelated-thread"]);
}

#[test]
fn subagents_of_a_missing_or_circular_parent_go_too() {
    let mut store = Store::new();
    store.save("a", subagent_thread("A", "b", 1), None);
    store.save("b", subagent_thread("B", "a", 1), None);
    store.save("c", subagent_thread("C", "nowhere", 1), None);
    assert_eq!(store.database.delete_thread("a").len(), 2);
    assert_eq!(store.listed(), vec!["c"]);
    assert_eq!(store.database.delete_thread("nowhere").len(), 1);
    assert!(store.listed().is_empty());
}

#[test]
fn all_threads_can_be_deleted() {
    let mut store = Store::new();
    store.save("a", make_thread("A", day(0)), None);
    store.save("b", make_thread("B", day(0)), None);
    assert_eq!(store.database.delete_threads().len(), 2);
    assert!(store.database.rows().is_empty());
}

#[test]
fn test_subagent_context_roundtrips_through_save_load() {
    let mut store = Store::new();
    store.save(
        "child-thread",
        subagent_thread("Subagent Thread", "parent-thread", 2),
        None,
    );

    let loaded = store.load("child-thread").expect("thread should exist");
    let context = loaded
        .subagent_context
        .as_ref()
        .expect("subagent_context should be restored");
    assert_eq!(context.parent_thread_id, "parent-thread");
    assert_eq!(context.depth, 2);
    assert_eq!(
        store.database.list_threads().unwrap()[0]
            .parent_session_id
            .as_deref(),
        Some("parent-thread")
    );
}

#[test]
fn test_non_subagent_thread_has_no_subagent_context() {
    let mut store = Store::new();
    store.save("regular-thread", make_thread("Regular Thread", day(0)), None);

    let loaded = store.load("regular-thread").expect("thread should exist");
    assert!(
        loaded.subagent_context.is_none(),
        "Regular threads should have no subagent_context"
    );
}

#[test]
fn test_folder_paths_roundtrip() {
    let mut store = Store::new();
    let thread = make_thread(
        "Folder Thread",
        Timestamp::parse("2024-06-15T12:00:00Z").unwrap(),
    );
    let folders = FolderPaths {
        paths: "/home/user/project-a\n/home/user/project-b".to_string(),
        order: "0,1".to_string(),
    };

    store.save_in("folder-thread", thread, Some(&folders), None);

    let threads = store.database.list_threads().unwrap();
    assert_eq!(threads.len(), 1);
    let kept = threads[0].folder_paths.as_ref().unwrap();
    assert_eq!(kept.paths, folders.paths);
    assert_eq!(kept.order, folders.order);
}

#[test]
fn test_folder_paths_empty_when_not_set() {
    let mut store = Store::new();
    let thread = make_thread(
        "No Folder Thread",
        Timestamp::parse("2024-06-15T12:00:00Z").unwrap(),
    );

    store.save("no-folder-thread", thread, None);

    let threads = store.database.list_threads().unwrap();
    assert_eq!(threads.len(), 1);
    assert!(threads[0].folder_paths.is_none());
}

#[test]
fn test_scroll_position_roundtrips_through_save_load() {
    let mut store = Store::new();
    let mut thread = make_thread("Thread With Scroll", day(0));
    thread.ui_scroll_position = Some(SerializedScrollPosition {
        item_ix: 42,
        offset_in_item: 13.5f32.to_bits(),
    });

    store.save("thread-with-scroll", thread, None);

    let loaded = store
        .load("thread-with-scroll")
        .expect("thread should exist");
    let scroll = loaded
        .ui_scroll_position
        .expect("scroll_position should be restored");
    assert_eq!(scroll.item_ix, 42);
    assert!((f32::from_bits(scroll.offset_in_item) - 13.5).abs() < f32::EPSILON);
}

fn row(id: &str, updated_at: &str) -> ThreadRow {
    ThreadRow {
        id: id.to_string(),
        parent_id: None,
        folder_paths: None,
        folder_paths_order: None,
        workspace_id: None,
        summary: id.to_string(),
        updated_at: updated_at.to_string(),
        created_at: None,
        data_type: DataType::Json,
        data: id.as_bytes().to_vec(),
        dedup_key: None,
        merged_into: None,
    }
}

#[test]
fn bad_times_are_reported() {
    let database = ThreadsDatabase::from_rows(vec![row("a", "yesterday")]).unwrap();
    assert!(matches!(
        database.list_threads(),
        Err(TableError::BadTime(text)) if text == "premature end of input"
    ));
    let error = database.thread_updated_at("a").unwrap_err();
    assert_eq!(error.message(), "premature end of input");
}

#[test]
fn rows_with_one_id_make_no_table() {
    let time = "2024-01-01T00:00:00+00:00";
    assert!(ThreadsDatabase::from_rows(vec![row("a", time), row("a", time)]).is_none());
    assert!(ThreadsDatabase::from_rows(vec![row("a", time), row("b", time)]).is_some());
}

#[test]
fn pointers_are_followed_so_far_and_no_farther() {
    let time = "2024-01-01T00:00:00+00:00";
    let mut rows = Vec::new();
    for i in 0..70 {
        let mut one = row(&format!("{i}"), time);
        if i < 69 {
            one.merged_into = Some(format!("{}", i + 1));
        }
        rows.push(one);
    }
    let database = ThreadsDatabase::from_rows(rows).unwrap();
    assert_eq!(database.load_thread("69").unwrap().as_deref(), Some("69"));
    assert_eq!(database.load_thread("6").unwrap().as_deref(), Some("69"));
    assert_eq!(database.load_thread("5").unwrap(), None);
    assert_eq!(database.load_thread("nowhere").unwrap(), None);
    assert_eq!(database.list_threads().unwrap().len(), 1);
}

#[test]
fn threads_without_a_time_of_creation_get_one() {
    let time = "2024-01-01T00:00:00+00:00";
    let mut database = ThreadsDatabase::from_rows(vec![row("a", time)]).unwrap();
    assert_eq!(database.list_threads().unwrap()[0].created_at, None);
    database.fill_created_at();
    assert_eq!(database.list_threads().unwrap()[0].created_at, Some(day(0)));
}

#[test]
fn the_schema_is_brought_up_to_date() {
    let steps = schema_steps();
    assert_eq!(steps.len(), 9);
    assert_eq!(steps[0].sql, "PRAGMA journal_mode=WAL;");
    assert_eq!(after_step(steps[2].need, false), AfterStep::Fail);
    assert_eq!(after_step(steps[3].need, false), AfterStep::GoOn);
    assert_eq!(steps[6].need, Need::OptionalAndFill);
    assert_eq!(after_step(steps[6].need, true), AfterStep::FillCreatedAt);
    assert_ne!(threads_location(true), threads_location(false));
}

// ---------------------------------------------------------------------------
// Reconciling

#[test]
fn test_reconcile_merges_prefix_duplicate() {
    let mut store = Store::new();

    let mut older = make_thread("Thread A", day(0));
    older.messages.push(user_message("hello"));
    older.messages.push(user_message("world"));

    let mut newer = make_thread("Thread B", day(1));
    newer.messages.push(user_message("hello"));

    store.save("thread-a", older, Some("ws-1"));
    store.save("thread-b", newer, Some("ws-1"));

    let summary = store.reconcile();
    assert_eq!(summary.merged_threads, 1);
    assert_eq!(summary.merged_session_ids, vec!["thread-b"]);

    let entries = store.database.list_threads().unwrap();
    assert_eq!(entries.len(), 1);
    assert_eq!(entries[0].id, "thread-a");

    // The canonical kept the superset (the duplicate was a strict prefix).
    let merged = store.load("thread-a").unwrap();
    assert_eq!(user_texts(merged), vec!["hello", "world"]);

    // Opening the archived duplicate resolves to the canonical, merged
    // thread rather than returning its stale prefix.
    let via_duplicate = store.load("thread-b").unwrap();
    assert_eq!(user_texts(via_duplicate), vec!["hello", "world"]);
}

#[test]
fn test_reconcile_interleaves_diverged_threads() {
    let mut store = Store::new();

    let mut older = make_thread("Thread A", day(0));
    older.messages.push(user_message("hello"));
    older.messages.push(user_message("alpha"));

    let mut newer = make_thread("Thread B", day(1));
    newer.messages.push(user_message("hello"));
    newer.messages.push(user_message("beta"));

    store.save("thread-a", older, Some("ws-1"));
    store.save("thread-b", newer, Some("ws-1"));

    let summary = store.reconcile();
    assert_eq!(summary.merged_threads, 1);

    // Canonical order first, then the duplicate's unique trailing messages.
    let merged = store.load("thread-a").unwrap();
    assert_eq!(user_texts(merged), vec!["hello", "alpha", "beta"]);
}

#[test]
fn test_reconcile_never_merges_across_workspaces() {
    let mut store = Store::new();

    let mut first = make_thread("Thread A", day(0));
    first.messages.push(user_message("hello"));
    let mut second = make_thread("Thread B", day(1));
    second.messages.push(user_message("hello"));

    store.save("thread-a", first, Some("ws-1"));
    store.save("thread-b", second, Some("ws-2"));

    let summary = store.reconcile();
    assert_eq!(summary.merged_threads, 0);
    assert_eq!(summary.duplicate_groups, 0);

    let entries = store.database.list_threads().unwrap();
    assert_eq!(entries.len(), 2);
}

#[test]
fn test_reconcile_noop_without_duplicates() {
    let mut store = Store::new();

    let mut first = make_thread("Thread A", day(0));
    first.messages.push(user_message("hello"));
    let mut second = make_thread("Thread B", day(1));
    second.messages.push(user_message("goodbye"));

    store.save("thread-a", first, Some("ws-1"));
    store.save("thread-b", second, Some("ws-1"));

    let summary = store.reconcile();
    assert_eq!(summary.merged_threads, 0);

    let entries = store.database.list_threads().unwrap();
    assert_eq!(entries.len(), 2);
}

#[test]
fn reconciling_again_changes_nothing() {
    let mut store = Store::new();
    for (id, days, extra) in [("c", 3, "three"), ("a", 1, "one"), ("b", 2, "two")] {
        let mut thread = make_thread(id, day(days));
        thread.messages.push(user_message("hello"));
        thread.messages.push(user_message(extra));
        store.save(id, thread, Some("ws"));
    }
    let summary = store.reconcile();
    assert_eq!(summary.duplicate_groups, 1);
    assert_eq!(summary.merged_session_ids, vec!["b", "c"]);
    assert_eq!(store.database.rows().len(), 3);
    let merged = store.load("c").unwrap();
    assert_eq!(user_texts(merged), vec!["hello", "one", "two", "three"]);
    // The merged thread is as recent as the latest copy.
    assert_eq!(store.database.thread_updated_at("a").unwrap(), Some(day(3)));
    // A copy keeps its own data and time.
    assert_eq!(store.database.thread_updated_at("b").unwrap(), Some(day(2)));

    let again = store.reconcile();
    assert_eq!(
        again,
        ThreadReconcileSummary {
            duplicate_groups: 0,
            merged_threads: 0,
            merged_session_ids: Vec::new(),
        }
    );
}

#[test]
fn a_bad_time_stops_the_whole_pass() {
    let time = "2024-01-01T00:00:00+00:00";
    let mut rows = Vec::new();
    for (id, key, updated_at) in [
        ("a", "k", time),
        ("b", "k", time),
        ("c", "l", time),
        ("d", "l", "never"),
    ] {
        let mut one = row(id, updated_at);
        one.dedup_key = Some(key.to_string());
        rows.push(one);
    }
    let mut database = ThreadsDatabase::from_rows(rows).unwrap();
    let groups = database.duplicate_groups();
    assert_eq!(groups.len(), 2);
    assert_eq!(groups[0].texts().unwrap(), vec!["a", "b"]);
    let result = database.finish_reconcile(&groups, &vec!["x".to_string(), "y".to_string()]);
    assert!(matches!(
        result,
        Err(TableError::BadTime(text)) if text == "premature end of input"
    ));
    assert!(database.rows().iter().all(|row| row.merged_into.is_none()));
    assert_eq!(database.load_thread("a").unwrap().as_deref(), Some("a"));
}

#[test]
fn compressed_data_is_stored_as_it_is() {
    let mut database = ThreadsDatabase::new();
    let thread = make_thread("title", day(1));
    database.save_compressed("a", &thread, vec![1, 2, 3], None, Some("ws"));
    let stored = &database.rows()[0];
    assert_eq!(stored.data, vec![1, 2, 3]);
    assert_eq!(stored.data_type, DataType::Zstd);
    assert_eq!(stored.summary, "title");
    assert_eq!(stored.workspace_id.as_deref(), Some("ws"));
    assert_eq!(stored.updated_at, day(1).to_text());
}

#[test]
fn duplicates_are_merged_into_the_oldest() {
    let mut rows = Vec::new();
    for (id, created, updated) in [("b", 2, 9), ("a", 1, 5)] {
        let mut one = row(id, &day(updated).to_text());
        one.created_at = Some(day(created).to_text());
        one.dedup_key = Some("k".to_string());
        rows.push(one);
    }
    let mut database = ThreadsDatabase::from_rows(rows).unwrap();
    let groups = database.duplicate_groups();
    let summary = database.merge_duplicates(&groups, &vec![vec![7, 7]]).unwrap();
    assert_eq!(summary.merged_session_ids, vec!["b"]);
    let rows = database.rows();
    let canonical = rows.iter().find(|row| row.id == "a").unwrap();
    assert_eq!(canonical.data, vec![7, 7]);
    assert_eq!(canonical.data_type, DataType::Zstd);
    assert_eq!(canonical.updated_at, day(9).to_text());
    let copy = rows.iter().find(|row| row.id == "b").unwrap();
    assert_eq!(copy.merged_into.as_deref(), Some("a"));
    assert_eq!(copy.data, b"b".to_vec());
}

// ---------------------------------------------------------------------------
// Reading stored threads

#[test]
fn a_plain_thread_holds_nothing_more() {
    let thread = make_thread("Old Thread", day(0));
    assert!(thread.messages.is_empty());
    assert!(thread.subagent_context.is_none());
    assert!(thread.draft_prompt.is_none());
    assert!(thread.sandboxed_terminal_temp_dir.is_none());
    assert!(thread.ui_scroll_position.is_none());
    assert!(thread.request_token_usage.is_empty());
    assert_eq!(thread.sandbox_grants, DbSandboxGrants::default());
    assert!(thread.sandbox_grants.write_paths.is_empty());
    assert!(!thread.sandbox_grants.unsandboxed);
}

#[test]
fn only_the_named_version_is_current() {
    let named = |version: Json| {
        Json::Object(vec![("version".to_string(), version)])
    };
    assert_eq!(
        stored_format(&named(Json::Text("0.3.0".to_string()))),
        StoredFormat::Current
    );
    assert_eq!(
        stored_format(&named(Json::Text("0.2.0".to_string()))),
        StoredFormat::Legacy
    );
    assert_eq!(
        stored_format(&named(Json::Number(Number::PosInt(3)))),
        StoredFormat::Legacy
    );
    assert_eq!(stored_format(&Json::Object(Vec::new())), StoredFormat::Legacy);
    assert_eq!(DbThread::VERSION, "0.3.0");
}

fn legacy(role: Role, segments: Vec<LegacySegment>) -> LegacyMessage {
    LegacyMessage {
        role,
        segments,
        tool_uses: Vec::new(),
        tool_results: Vec::new(),
        context: String::new(),
    }
}

fn legacy_result(id: &str) -> LegacyToolResult {
    LegacyToolResult {
        tool_use_id: id.to_string(),
        is_error: false,
        content: ToolResultContent::Text("done".to_string()),
        output: None,
    }
}

#[test]
fn threads_of_the_first_format_are_read() {
    let mut asked = legacy(
        Role::User,
        vec![
            LegacySegment::Text("hello".to_string()),
            LegacySegment::Thinking {
                text: "hm".to_string(),
                signature: None,
            },
            LegacySegment::RedactedThinking("x".to_string()),
        ],
    );
    asked.context = "unused".to_string();
    let mut attached = legacy(Role::User, Vec::new());
    attached.context = "attached".to_string();
    let mut answer = legacy(
        Role::Assistant,
        vec![
            LegacySegment::Text("hi".to_string()),
            LegacySegment::RedactedThinking("y".to_string()),
        ],
    );
    answer.tool_uses.push(LegacyToolUse {
        id: "t".to_string(),
        name: "read".to_string(),
        input: Json::Object(Vec::new()),
        raw_input: "{}".to_string(),
    });
    answer.tool_results.push(legacy_result("t"));
    answer.tool_results.push(legacy_result("lost"));
    let thread = LegacyThread {
        summary: "Summary".to_string(),
        updated_at: day(0),
        messages: vec![
            legacy(Role::System, vec![LegacySegment::Text("rules".to_string())]),
            asked,
            answer,
            attached,
            legacy(Role::Assistant, Vec::new()),
        ],
        initial_project_snapshot: None,
        cumulative_token_usage: Json::Object(Vec::new()),
        request_token_usage: vec![
            Json::Number(Number::PosInt(0)),
            Json::Number(Number::PosInt(1)),
            Json::Number(Number::PosInt(2)),
        ],
        detailed_summary_state: DetailedSummaryState::Generated {
            text: "details".to_string(),
        },
        model: None,
        profile: Some("ask".to_string()),
    };

    let read = DbThread::upgrade_from_agent_1(thread);

    assert_eq!(read.title, "Summary");
    assert_eq!(read.detailed_summary.as_deref(), Some("details"));
    assert_eq!(read.profile.as_deref(), Some("ask"));
    assert_eq!(read.messages.len(), 4);
    assert_eq!(user_texts(&read), vec!["hellohm", "attached"]);
    let Message::User(first) = read.messages[0].as_ref() else {
        panic!("the first message is the user's");
    };
    let Message::User(second) = read.messages[2].as_ref() else {
        panic!("the third message is the user's");
    };
    assert_eq!(first.id.len(), 36);
    assert_ne!(first.id, second.id);
    let Message::Agent(agent) = read.messages[1].as_ref() else {
        panic!("the second message is the agent's");
    };
    assert_eq!(agent.content.len(), 3);
    assert_eq!(agent.tool_results.len(), 2);
    assert_eq!(agent.tool_results[0].1.tool_name, "read");
    assert_eq!(agent.tool_results[1].1.tool_name, "unknown");
    // The usage of the answer stands under the message that it answers; the last answer
    // has none.
    assert_eq!(read.request_token_usage.len(), 1);
    assert_eq!(read.request_token_usage[0].0, first.id);
    assert_eq!(read.request_token_usage[0].1.as_u64(), Some(2));
}

#[test]
fn a_call_gives_its_name_to_one_result() {
    let mut answer = legacy(Role::Assistant, Vec::new());
    for name in ["first", "second"] {
        answer.tool_uses.push(LegacyToolUse {
            id: "t".to_string(),
            name: name.to_string(),
            input: Json::Null,
            raw_input: "null".to_string(),
        });
    }
    answer.tool_results.push(legacy_result("t"));
    let thread = LegacyThread {
        summary: String::new(),
        updated_at: day(0),
        messages: vec![answer],
        initial_project_snapshot: None,
        cumulative_token_usage: Json::Null,
        request_token_usage: vec![Json::Null],
        detailed_summary_state: DetailedSummaryState::Generating,
        model: None,
        profile: None,
    };
    let read = DbThread::upgrade_with_ids(thread, &Vec::new());
    assert_eq!(read.detailed_summary, None);
    // No message of the user came before the answer.
    assert!(read.request_token_usage.is_empty());
    let Message::Agent(agent) = read.messages[0].as_ref() else {
        panic!("the message is the agent's");
    };
    assert_eq!(agent.tool_results[0].1.tool_name, "second");
}

// ---------------------------------------------------------------------------
// Times

#[test]
fn times_are_written_and_read() {
    let time = Timestamp::parse("2024-02-29T12:30:45.5+02:00").unwrap();
    assert_eq!(time.parts(), (1_709_202_645, 500_000_000));
    assert_eq!(time.to_text(), "2024-02-29T10:30:45.500+00:00");
    assert_eq!(Timestamp::parse(&time.to_text()), Ok(time));
    assert_eq!(
        Timestamp::parse("2024-02-30T00:00:00Z"),
        Err("input is out of range".to_string())
    );
    assert_eq!(Timestamp::parse("now"), Err("premature end of input".to_string()));
    assert!(day(0).is_earlier(day(1)));
    assert!(!day(1).is_earlier(day(1)));
    assert_eq!(Timestamp::new(i64::MAX, 0), None);
    assert_eq!(Timestamp::new(0, 1_000_000_000), None);
    assert!(Timestamp::new(59, 1_500_000_000).is_some());
    assert_eq!(
        Timestamp::new(59, 1_500_000_000).unwrap().to_text(),
        "1970-01-01T00:00:60.500+00:00"
    );
}

#[test]
fn times_reach_as_far_as_they_can_be_written() {
    for seconds in [-8_334_601_228_800, 8_210_266_876_799] {
        assert!(!Timestamp::new(seconds, 0).unwrap().to_text().is_empty());
    }
    assert_eq!(Timestamp::new(-8_334_601_228_801, 0), None);
    assert_eq!(Timestamp::new(8_210_266_876_800, 0), None);
}
