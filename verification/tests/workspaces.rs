use agent_core::thread_workspace::{
    threads_database_url, StoreError, WorkspaceStore, DEFAULT_THREADS_DATABASE_URL,
};
use agent_core::time::Timestamp;
use agent_core::workspace_manager::{
    parse_timestamp, ManagedWorkspaceId, ManagerError, ProjectRow, WorkspaceManager, WorkspaceRow,
};
use agent_core::workspace_names::derive_workspace_name;

fn paths(list: &[&str]) -> Vec<String> {
    list.iter().map(|path| path.to_string()).collect()
}

fn now() -> Timestamp {
    Timestamp::parse("2024-01-01T00:00:00Z").unwrap()
}

fn later() -> Timestamp {
    Timestamp::parse("2024-02-01T00:00:00Z").unwrap()
}

fn manager() -> WorkspaceManager {
    WorkspaceManager::new(Vec::new(), Vec::new()).unwrap()
}

#[test]
fn ids_round_trip_as_keys() {
    let id = ManagedWorkspaceId::new();
    let key = id.to_key_string();
    assert_eq!(key.len(), 36);
    assert_eq!(ManagedWorkspaceId::from_key_string(&key), Ok(id));
    assert_ne!(ManagedWorkspaceId::new(), id);
    let known = ManagedWorkspaceId::from_key_string("550e8400-e29b-41d4-a716-446655440000").unwrap();
    assert_eq!(known.as_uuid(), 0x550e8400e29b41d4a716446655440000);
    assert_eq!(known.to_key_string(), "550e8400-e29b-41d4-a716-446655440000");
    assert_eq!(
        ManagedWorkspaceId::from_key_string("nonsense").unwrap_err().message(),
        Some(uuid::Uuid::parse_str("nonsense").unwrap_err().to_string())
    );
}

#[test]
fn names_come_from_folders() {
    assert_eq!(WorkspaceManager::derive_name(&paths(&["/a/one", "/", "/b/two"])), "one, two");
    assert_eq!(derive_workspace_name(&paths(&["/a/one", "/", "/b/two"])), "one, /, two");
    assert_eq!(derive_workspace_name(&Vec::new()), "");
    let odd = paths(&["one", "/a//two/", "/b/three/.", "./", "/c/..", "", "/d/.hidden"]);
    assert_eq!(WorkspaceManager::derive_name(&odd), "one, two, three, .hidden");
    assert_eq!(derive_workspace_name(&odd), "one, two, three, ./, /c/.., , .hidden");
}

#[test]
fn a_created_workspace_holds_its_projects() {
    let mut manager = manager();
    let id = manager.create("mine", &paths(&["/b", "/a"]), now()).unwrap();
    assert_eq!(manager.open(id), vec!["/b", "/a"]);
    let workspace = manager.get(id, later()).unwrap();
    assert_eq!(workspace.name, "mine");
    assert_eq!(workspace.created_at, now());
    assert_eq!(
        manager.workspace_id_for_paths(&paths(&["/a", "/b"])),
        Ok(Some(id))
    );
    assert_eq!(manager.workspace_id_for_paths(&paths(&["/a"])), Ok(None));
    assert_eq!(manager.workspace_id_for_paths(&Vec::new()), Ok(None));
    assert_eq!(
        manager.create("twice", &paths(&["/a", "/a"]), now()),
        Err(ManagerError::Conflict)
    );
    assert_eq!(manager.all(now()).unwrap().len(), 1);
}

#[test]
fn projects_come_and_go() {
    let mut manager = manager();
    let id = manager.create("mine", &paths(&["/a", "/b", "/c"]), now()).unwrap();
    manager.remove_project(id, "/a");
    manager.add_project(id, "/d").unwrap();
    // What is added comes last, also after something was removed.
    assert_eq!(manager.project_paths(id), vec!["/b", "/c", "/d"]);
    manager.add_project(id, "/b").unwrap();
    assert_eq!(manager.project_paths(id), vec!["/b", "/c", "/d"]);
    manager.rename(id, "ours", later());
    let workspace = manager.get(id, now()).unwrap();
    assert_eq!(workspace.name, "ours");
    assert_eq!(workspace.created_at, now());
    assert_eq!(workspace.updated_at, later());
    assert_eq!(workspace.workspace_id, id);
}

#[test]
fn only_workspaces_with_more_projects_are_asked_about() {
    let mut manager = manager();
    let pair = manager.create("pair", &paths(&["/a", "/b"]), now()).unwrap();
    let single = manager.create("single", &paths(&["/a"]), now()).unwrap();
    assert_eq!(manager.workspaces_for_path("/a").unwrap(), vec![pair, single]);
    let candidates = manager.ask_candidates("/a", now()).unwrap();
    assert_eq!(candidates.len(), 1);
    assert_eq!(candidates[0].workspace_id, pair);
    assert_eq!(candidates[0].name, "pair");
    assert_eq!(candidates[0].project_count, 2);
    assert!(manager.ask_candidates("/z", now()).unwrap().is_empty());
}

#[test]
fn workspaces_are_meant_by_id_or_name() {
    let mut manager = manager();
    let one = manager.create("one", &paths(&["/a"]), now()).unwrap();
    let two = manager.create("two", &paths(&["/b"]), now()).unwrap();
    assert_eq!(manager.resolve(&one.to_key_string()), Ok(Some(one)));
    assert_eq!(manager.resolve("two"), Ok(Some(two)));
    assert_eq!(manager.resolve("three"), Ok(None));
    assert_eq!(
        manager.resolve(&ManagedWorkspaceId::new().to_key_string()),
        Ok(None)
    );
    let names: Vec<String> = manager
        .all(now())
        .unwrap()
        .into_iter()
        .map(|workspace| workspace.name)
        .collect();
    assert_eq!(names, vec!["one", "two"]);
}

fn broken_rows() -> (Vec<WorkspaceRow>, Vec<ProjectRow>) {
    (
        vec![WorkspaceRow {
            workspace_id: "broken".to_string(),
            name: "name".to_string(),
            created_at: "x".to_string(),
            updated_at: "y".to_string(),
        }],
        vec![ProjectRow {
            workspace_id: "broken".to_string(),
            path: "/a".to_string(),
            position: i64::MAX,
            remote_connection_id: None,
        }],
    )
}

#[test]
fn broken_keys_are_reported() {
    let (workspaces, projects) = broken_rows();
    let manager = WorkspaceManager::new(workspaces, projects).unwrap();
    let bad = ManagerError::BadKey(uuid::Uuid::parse_str("broken").unwrap_err().to_string());
    assert_eq!(manager.all(now()).unwrap_err(), bad);
    assert_eq!(manager.resolve("name").unwrap_err(), bad);
    assert_eq!(manager.workspaces_for_path("/a").unwrap_err(), bad);
    assert_eq!(
        manager.workspace_id_for_paths(&paths(&["/a"])).unwrap_err(),
        bad
    );
}

#[test]
fn tables_hold_nothing_twice() {
    let (mut workspaces, mut projects) = broken_rows();
    workspaces.extend(broken_rows().0);
    assert!(WorkspaceManager::new(workspaces, Vec::new()).is_none());
    projects.extend(broken_rows().1);
    assert!(WorkspaceManager::new(Vec::new(), projects).is_none());
}

#[test]
fn no_position_is_left_after_the_last() {
    let id = ManagedWorkspaceId::new();
    let projects = vec![ProjectRow {
        workspace_id: id.to_key_string(),
        path: "/a".to_string(),
        position: i64::MAX,
        remote_connection_id: None,
    }];
    let mut manager = WorkspaceManager::new(Vec::new(), projects).unwrap();
    assert_eq!(manager.add_project(id, "/b"), Err(ManagerError::NoRoom));
    assert!(manager.get(id, now()).is_none());
}

#[test]
fn unreadable_times_are_the_present() {
    let id = ManagedWorkspaceId::new();
    let workspaces = vec![WorkspaceRow {
        workspace_id: id.to_key_string(),
        name: "name".to_string(),
        created_at: "2024-01-01T00:00:00Z".to_string(),
        updated_at: "whenever".to_string(),
    }];
    let manager = WorkspaceManager::new(workspaces, Vec::new()).unwrap();
    let workspace = manager.get(id, later()).unwrap();
    assert_eq!(workspace.created_at, now());
    assert_eq!(workspace.updated_at, later());
}

#[test]
fn the_database_is_where_the_settings_say() {
    assert_eq!(threads_database_url(Some("a"), Some("b")), "a");
    assert_eq!(threads_database_url(None, Some("b")), "b");
    assert_eq!(threads_database_url(None, None), DEFAULT_THREADS_DATABASE_URL);
}

#[test]
fn the_same_folders_lead_to_the_same_workspace() {
    let mut store = WorkspaceStore {
        workspaces: Vec::new(),
        projects: Vec::new(),
    };
    let id = store.resolve_workspace(&paths(&["/x/one", "/y/two"])).unwrap();
    assert_eq!(store.workspaces[0].name, "one, two");
    assert_eq!(store.resolve_workspace(&paths(&["/y/two", "/x/one"])), Ok(id));
    let other = store.resolve_workspace(&paths(&["/x/one"])).unwrap();
    assert_ne!(other, id);
    assert_eq!(store.workspaces.len(), 2);
    assert_eq!(
        store.resolve_workspace(&Vec::new()).unwrap_err().message(),
        Some("cannot resolve a workspace for an empty project set")
    );
    assert_eq!(
        store.resolve_workspace(&paths(&["/z", "/z"])),
        Err(StoreError::Conflict)
    );
    assert_eq!(StoreError::Conflict.message(), None);
    assert_eq!(store.workspaces.len(), 2);
}

#[test]
fn a_workspace_is_made_once_under_an_id() {
    let mut store = WorkspaceStore {
        workspaces: Vec::new(),
        projects: Vec::new(),
    };
    assert_eq!(store.create_with_id(7, "one".to_string(), &paths(&["/a", "/b"])), Ok(()));
    assert_eq!(store.projects[1].path, "/b");
    assert_eq!(store.projects[1].position, 1);
    assert_eq!(
        store.create_with_id(7, "two".to_string(), &paths(&["/c"])),
        Err(StoreError::Conflict)
    );
    assert_eq!(store.projects.len(), 2);
    assert_eq!(store.workspace_id_for_paths(&paths(&["/b", "/a"])), Some(7));
    assert_eq!(store.workspace_id_for_paths(&paths(&["/a"])), None);

    let mut manager = manager();
    let id = ManagedWorkspaceId::new();
    assert_eq!(manager.create_with_id(id, "w", &paths(&["/a"]), now()), Ok(()));
    assert!(manager.create_with_id(id, "w", &paths(&["/b"]), now()).is_err());
    assert_eq!(manager.open(id), vec!["/a"]);
}

#[test]
fn an_unreadable_time_is_the_present() {
    assert_eq!(parse_timestamp("never", now()), now());
    assert_eq!(parse_timestamp("2024-02-01T01:00:00+01:00", now()), later());
}
