use agent_core::memory::{Memory, MemoryFile, MemoryStore};
use agent_core::memory_tool::{
    finish_operation, run_operation, MemoryOperation, MemoryStep, MemoryTool, MemoryToolInput,
    MemoryToolOutput,
};
use std::path::PathBuf;

#[test]
fn memory_crud_and_index() {
    let mut memory = Memory::default();
    assert!(memory.is_empty());
    assert_eq!(memory.index_prompt(), "");

    memory.remember("deploy-host", "t-rex.proxmox.local");
    memory.remember("db-url", "postgres://localhost/patsprints");
    assert_eq!(memory.recall("deploy-host"), Some("t-rex.proxmox.local"));
    assert_eq!(memory.recall("missing"), None);

    let index = memory.index_prompt();
    assert!(index.contains("- deploy-host"));
    assert!(index.contains("- db-url"));
    // Values must never leak into the injected index.
    assert!(!index.contains("t-rex.proxmox.local"));

    assert!(memory.forget("deploy-host"));
    assert!(!memory.forget("deploy-host"));
    assert_eq!(memory.recall("deploy-host"), None);
}

/// What the file of a store holds once it is saved.
fn saved(store: &MemoryStore) -> MemoryFile {
    MemoryFile::Facts(store.memory().entries().clone())
}

fn copy_of(file: &MemoryFile) -> MemoryFile {
    match file {
        MemoryFile::Facts(facts) => MemoryFile::Facts(facts.clone()),
        MemoryFile::Invalid => MemoryFile::Invalid,
        MemoryFile::Missing => MemoryFile::Missing,
        MemoryFile::Unreadable => MemoryFile::Unreadable,
    }
}

#[test]
fn store_round_trips_to_disk() {
    let path = PathBuf::from("memory.json");

    let file = {
        let mut store = MemoryStore::new(path.clone());
        store.remember("answer", "42");
        store.remember("name", "zed");
        saved(&store)
    };

    let store = MemoryStore::load(path, "memory.json", file).unwrap();
    assert_eq!(store.recall("answer"), Some("42"));
    assert_eq!(store.recall("name"), Some("zed"));
    assert!(store.index_prompt().contains("- answer"));
}

#[test]
fn load_missing_file_is_empty() {
    let store =
        MemoryStore::load(PathBuf::from("missing.json"), "missing.json", MemoryFile::Missing)
            .unwrap();
    assert!(store.is_empty());
}

#[test]
fn forget_persists() {
    let path = PathBuf::from("memory.json");

    let mut store = MemoryStore::new(path.clone());
    store.remember("drop-me", "value");
    assert!(store.forget("drop-me"));
    assert!(!store.forget("drop-me"));

    let reloaded = MemoryStore::load(path, "memory.json", saved(&store)).unwrap();
    assert_eq!(reloaded.recall("drop-me"), None);
}

#[test]
fn unreadable_files_are_errors() {
    let path = PathBuf::from("memory.json");
    assert_eq!(
        MemoryStore::load(path.clone(), "memory.json", MemoryFile::Invalid).unwrap_err(),
        "parsing memory file memory.json"
    );
    assert_eq!(
        MemoryStore::load(path.clone(), "memory.json", MemoryFile::Unreadable).unwrap_err(),
        "reading memory file memory.json"
    );
    assert_eq!(MemoryStore::new(path.clone()).path(), &path);
}

/// Runs an operation on the file, and saves what it changes.
fn run(
    operation: MemoryOperation,
    key: &str,
    value: Option<&str>,
    file: &mut MemoryFile,
) -> Result<MemoryToolOutput, MemoryToolOutput> {
    let loaded = MemoryStore::load(PathBuf::from("memory.json"), "memory.json", copy_of(file));
    let input = MemoryToolInput {
        operation,
        key: key.to_string(),
        value: value.map(str::to_string),
    };
    match run_operation(input, loaded) {
        MemoryStep::Done { outcome } => outcome,
        MemoryStep::Save { store, message } => {
            *file = saved(&store);
            finish_operation(message, Ok(()))
        }
    }
}

#[test]
fn remember_then_recall_round_trips() {
    let mut file = MemoryFile::Missing;
    run(
        MemoryOperation::Remember,
        "host",
        Some("t-rex.proxmox.local"),
        &mut file,
    )
    .unwrap();

    let recalled = run(MemoryOperation::Recall, "host", None, &mut file).unwrap();
    assert!(matches!(
        recalled,
        MemoryToolOutput::Success { message } if message == "t-rex.proxmox.local"
    ));
}

#[test]
fn remember_requires_value() {
    let mut file = MemoryFile::Missing;
    let result = run(MemoryOperation::Remember, "key", None, &mut file);
    assert!(matches!(
        result,
        Err(MemoryToolOutput::Error { error }) if error.contains("`value` is required")
    ));
}

#[test]
fn recall_missing_key_is_a_success() {
    let mut file = MemoryFile::Missing;
    let result = run(MemoryOperation::Recall, "missing", None, &mut file).unwrap();
    assert!(matches!(
        result,
        MemoryToolOutput::Success { message } if message.contains("No memory stored")
    ));
}

#[test]
fn forget_removes_and_persists() {
    let mut file = MemoryFile::Missing;
    run(MemoryOperation::Remember, "drop", Some("value"), &mut file).unwrap();
    let forgotten = run(MemoryOperation::Forget, "drop", None, &mut file).unwrap();
    assert!(matches!(
        forgotten,
        MemoryToolOutput::Success { message } if message.contains("Forgot")
    ));

    let reloaded =
        MemoryStore::load(PathBuf::from("memory.json"), "memory.json", file).unwrap();
    assert_eq!(reloaded.recall("drop"), None);
}

#[test]
fn failed_saves_and_loads_are_reported() {
    assert!(matches!(
        finish_operation("done".to_string(), Err("disk full".to_string())),
        Err(MemoryToolOutput::Error { error }) if error == "disk full"
    ));
    let mut file = MemoryFile::Invalid;
    assert!(matches!(
        run(MemoryOperation::Recall, "key", None, &mut file),
        Err(MemoryToolOutput::Error { error }) if error == "Failed to load memory: parsing memory file memory.json"
    ));
}

#[test]
fn memory_tool_titles() {
    let input = MemoryToolInput {
        operation: MemoryOperation::Recall,
        key: "host".to_string(),
        value: None,
    };
    assert_eq!(MemoryTool.name(), "memory");
    assert_eq!(MemoryTool.initial_title(Some(&input)), "Recalling host");
    assert_eq!(MemoryTool.initial_title(None), "Updating memory");
    assert_eq!(
        MemoryTool.input_error("gone").text(),
        "Failed to receive memory tool input: gone"
    );
}

#[test]
fn listed_facts_make_the_same_memory() {
    let mut memory = Memory::default();
    memory.remember("b", "2");
    memory.remember("a", "1");
    memory.remember("c", "3");
    memory.remember("b", "two");
    assert_eq!(memory.keys(), vec!["a", "b", "c"]);
    assert_eq!(Memory::from_entries(memory.entries()), memory);
    assert_eq!(memory.clone(), memory);
    let twice = vec![
        ("a".to_string(), "old".to_string()),
        ("a".to_string(), "new".to_string()),
    ];
    assert_eq!(Memory::from_entries(&twice).recall("a"), Some("new"));
}
