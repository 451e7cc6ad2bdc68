use agent_core::browser::{
    load_step, AgentBrowserApi, BrowserSession, BrowserTarget, CommandStep, LoadStep,
    TargetCommand, TargetCreation, Teardown,
};
use agent_core::cdp::{
    connection_closed, endpoint, endpoint_from_parts, filter_events, CdpClient, CdpError,
    EventKind, Incoming, MAX_BUFFERED_EVENTS_PER_SESSION,
};
use agent_core::chromium::{
    check_archive, check_digest, choose_chromium, chromium_arguments, installed_candidates,
    line_step, parse_devtools_endpoint, platform_for, profile_dir_name, select_download,
    ChromiumChoice, LineStep, PINNED_CHROMIUM_VERSION,
};
use agent_core::control::{InterceptionConfig, ThrottlePreset};
use agent_core::driven_by::DrivenBy;
use agent_core::json::Json;
use agent_core::number::Number;
use agent_core::page_script::{click_expression, focus_expression};

fn to_json(value: serde_json::Value) -> Json {
    match value {
        serde_json::Value::Null => Json::Null,
        serde_json::Value::Bool(value) => Json::Bool(value),
        serde_json::Value::Number(number) => Json::Number(match (number.as_u64(), number.as_i64()) {
            (Some(value), _) => Number::PosInt(value),
            (None, Some(value)) => Number::NegInt(value),
            _ => Number::Float(number.as_f64().unwrap().to_bits()),
        }),
        serde_json::Value::String(text) => Json::Text(text),
        serde_json::Value::Array(items) => Json::Array(items.into_iter().map(to_json).collect()),
        serde_json::Value::Object(members) => Json::Object(
            members
                .into_iter()
                .map(|(name, value)| (name, to_json(value)))
                .collect(),
        ),
    }
}

fn json(text: &str) -> Json {
    to_json(serde_json::from_str(text).unwrap())
}

fn member<'a>(value: &'a Json, path: &[&str]) -> Option<&'a Json> {
    let mut value = Some(value);
    for name in path {
        value = value.and_then(|value| value.get(name));
    }
    value
}

fn text_at(value: &Json, path: &[&str]) -> Option<String> {
    member(value, path)
        .and_then(|value| value.as_str())
        .map(str::to_string)
}

// ---------------------------------------------------------------------------
// The connection

#[test]
fn commands_are_answered_once() {
    let mut client = CdpClient::new();
    let (first, sent) = client.send_command("Target.getTargets", json("{}"));
    assert_eq!(first, 0);
    assert_eq!(text_at(&sent, &["method"]).as_deref(), Some("Target.getTargets"));
    assert!(sent.get("sessionId").is_none());
    let (second, sent) = client.send_command_with_session(Some("s"), "Page.enable", json("{}"));
    assert_eq!(second, 1);
    assert_eq!(sent.get("id").unwrap().as_u64(), Some(1));
    assert_eq!(text_at(&sent, &["sessionId"]).as_deref(), Some("s"));

    match client.receive(json(r#"{ "id": 1, "result": { "ok": true } }"#)) {
        Incoming::Answer { id, result } => {
            assert_eq!(id, 1);
            assert_eq!(result.unwrap().get("ok").unwrap().as_bool(), Some(true));
        }
        other => panic!("unexpected {other:?}"),
    }
    assert!(matches!(
        client.receive(json(r#"{ "id": 1, "result": {} }"#)),
        Incoming::Ignored
    ));
    match client.receive(json(r#"{ "id": 0, "error": { "code": -32000, "message": "no" } }"#)) {
        Incoming::Answer { id, result } => {
            assert_eq!(id, 0);
            assert!(result.unwrap_err().text().contains("no"));
        }
        other => panic!("unexpected {other:?}"),
    }
}

#[test]
fn waiting_commands_are_told_that_the_connection_is_closed() {
    let mut client = CdpClient::new();
    client.send_command("A", json("{}"));
    client.send_command("B", json("{}"));
    assert_eq!(
        client.abandon(0).text(),
        "failed to send CDP command: connection closed"
    );
    assert_eq!(client.close(), vec![1]);
    assert!(client.close().is_empty());
    assert_eq!(connection_closed().text(), "CDP connection closed");
    assert!(matches!(connection_closed(), CdpError::Other { .. }));
}

#[test]
fn events_are_kept_for_each_session_apart() {
    let mut client = CdpClient::new();
    for i in 0..MAX_BUFFERED_EVENTS_PER_SESSION + 5 {
        let event = json(&format!(
            r#"{{ "method": "Network.dataReceived", "sessionId": "busy", "params": {{ "n": {i} }} }}"#
        ));
        assert!(matches!(client.receive(event), Incoming::Event));
    }
    client.receive(json(
        r#"{ "method": "Runtime.consoleAPICalled", "sessionId": "quiet", "params": {} }"#,
    ));
    let events = client.recent_events();
    assert_eq!(events.len(), MAX_BUFFERED_EVENTS_PER_SESSION + 1);
    let busy = filter_events(&events, EventKind::Network, Some("busy"), 1000);
    assert_eq!(busy.len(), MAX_BUFFERED_EVENTS_PER_SESSION);
    assert_eq!(member(&busy[0], &["params", "n"]).unwrap().as_u64(), Some(5));
    assert_eq!(filter_events(&events, EventKind::Console, Some("quiet"), 100).len(), 1);
    assert_eq!(filter_events(&events, EventKind::Console, Some("busy"), 100).len(), 0);
    assert_eq!(filter_events(&events, EventKind::Network, None, 3).len(), 3);
    assert_eq!(filter_events(&events, EventKind::Network, None, 0).len(), 1);
}

#[test]
fn endpoints_are_read_from_urls() {
    assert_eq!(
        endpoint("ws://127.0.0.1:9222/devtools/browser/x").unwrap(),
        ("127.0.0.1".to_string(), 9222)
    );
    assert_eq!(endpoint("ws://host/").unwrap(), ("host".to_string(), 80));
    assert_eq!(endpoint("nonsense").unwrap_err(), "invalid CDP websocket url");
    assert_eq!(
        endpoint("data:text,x").unwrap_err(),
        "CDP websocket url has no host"
    );
    assert_eq!(
        endpoint_from_parts(Some((Some("h".to_string()), None))).unwrap_err(),
        "CDP websocket url has no port"
    );
}

// ---------------------------------------------------------------------------
// Sessions and targets

fn target(id: &str) -> BrowserTarget {
    BrowserTarget {
        target_id: id.to_string(),
        session_id: format!("session of {id}"),
        target_type: "page".to_string(),
        url: "https://example.com/".to_string(),
    }
}

#[test]
fn operations_go_to_the_named_target_or_the_active_one() {
    let mut session = BrowserSession::new(1, target("a"));
    session.open_target(target("b"));
    assert_eq!(session.resolve_target_session_id(None).unwrap(), "session of b");
    assert_eq!(
        session.resolve_target_session_id(Some("a")).unwrap(),
        "session of a"
    );
    session.activate_target("a").unwrap();
    assert_eq!(session.resolve_target_session_id(None).unwrap(), "session of a");
    assert!(session.activate_target("c").is_err());
    assert_eq!(session.get_target(Some("c")).unwrap_err(), "unknown browser target");

    let command = session.close_target("a").unwrap();
    assert_eq!(command.method, "Target.closeTarget");
    session.target_closed("a");
    assert!(session.get_target(Some("a")).is_err());
}

#[test]
fn an_operation_is_prepared_and_completed() {
    let mut session = BrowserSession::new(1, target("a"));
    let command = TargetCommand::Navigate {
        url: "https://b/".to_string(),
    };
    let prepared = session.prepare(None, &command).unwrap();
    assert_eq!(prepared.method, "Page.navigate");
    assert_eq!(prepared.session.as_deref(), Some("session of a"));
    assert_eq!(text_at(&prepared.params, &["url"]).as_deref(), Some("https://b/"));
    assert!(matches!(
        session.complete(None, command, json("{}")),
        CommandStep::Done { .. }
    ));
    assert_eq!(session.get_target(None).unwrap().url, "https://b/");

    let missing = session.prepare(Some("z"), &TargetCommand::Snapshot);
    assert_eq!(missing.unwrap_err(), "unknown browser target");

    assert!(matches!(
        session.complete(None, TargetCommand::Screenshot, json("{}")),
        CommandStep::Failed { .. }
    ));
    match session.complete(None, TargetCommand::Screenshot, json(r#"{ "data": "AAAA" }"#)) {
        CommandStep::Done { value } => assert_eq!(value.as_str(), Some("AAAA")),
        other => panic!("unexpected {other:?}"),
    }
}

#[test]
fn controls_are_remembered() {
    let mut session = BrowserSession::new(1, target("a"));
    let command = TargetCommand::SetThrottle {
        conditions: ThrottlePreset::Slow3G.conditions(),
    };
    let prepared = session.prepare(None, &command).unwrap();
    assert_eq!(prepared.method, "Network.emulateNetworkConditions");
    session.complete(None, command, json("{}"));
    session.complete(None, TargetCommand::SetOffline { offline: true }, json("{}"));
    let state = session.network_control_state();
    assert_eq!(state.get("offline").unwrap().as_bool(), Some(true));
    assert_eq!(
        member(&state, &["throttle", "latency_ms"]).unwrap().as_u64(),
        Some(2000)
    );

    let none = session
        .prepare(
            None,
            &TargetCommand::SetInterception {
                config: InterceptionConfig::default(),
            },
        )
        .unwrap();
    assert_eq!(none.method, "Fetch.enable");
    assert!(none.params.get("patterns").unwrap().as_array().unwrap().is_empty());
}

#[test]
fn requests_are_read_into_the_store() {
    let mut session = BrowserSession::new(1, target("a"));
    let events = vec![
        json(
            r#"{ "method": "Network.requestWillBeSent", "sessionId": "session of a",
                 "params": { "requestId": "1", "request": { "url": "u", "method": "GET" } } }"#,
        ),
        json(
            r#"{ "method": "Network.requestWillBeSent", "sessionId": "other",
                 "params": { "requestId": "2", "request": { "url": "u", "method": "GET" } } }"#,
        ),
        json(
            r#"{ "method": "Fetch.requestPaused", "sessionId": "session of a", "params": {} }"#,
        ),
    ];
    let read = session.read_network(None, &events).unwrap();
    assert_eq!(read.get("network").unwrap().as_array().unwrap().len(), 1);
    assert_eq!(session.network_store.len(), 1);
    let console = session.read_console(None, &events).unwrap();
    assert!(console.get("console").unwrap().as_array().unwrap().is_empty());
    assert!(session.list_paused_requests(None, &events).is_ok());
    assert!(session.read_console(Some("x"), &events).is_err());
}

#[test]
fn a_target_is_created_step_by_step() {
    let mut creation = TargetCreation::new("https://example.com/");
    let mut methods = Vec::new();
    for answer in [
        r#"{ "targetId": "t" }"#,
        r#"{ "sessionId": "s" }"#,
        "{}",
        "{}",
        "{}",
        "{}",
        "{}",
    ] {
        methods.push(creation.command().method);
        creation = creation.answered(&json(answer)).unwrap();
    }
    assert_eq!(
        methods,
        vec![
            "Target.createTarget",
            "Target.attachToTarget",
            "Page.enable",
            "Runtime.enable",
            "Log.enable",
            "Network.enable",
            "Page.navigate"
        ]
    );
    match creation {
        TargetCreation::Load { target } => {
            assert_eq!(target.target_id, "t");
            assert_eq!(target.session_id, "s");
            assert_eq!(target.url, "https://example.com/");
            assert_eq!(target.target_type, "page");
        }
        other => panic!("unexpected {other:?}"),
    }
    let failed = TargetCreation::new("u").answered(&json("{}"));
    assert_eq!(
        failed.unwrap_err(),
        "Target.createTarget returned no targetId"
    );
}

#[test]
fn pages_are_waited_for() {
    assert!(matches!(load_step("u", None, false), LoadStep::Wait));
    match load_step("https://a/", None, true) {
        LoadStep::TimedOut { error } => {
            assert_eq!(error, "timed out waiting for https://a/ to load")
        }
        other => panic!("unexpected {other:?}"),
    }
}

#[test]
fn sessions_are_started_and_stopped() {
    let mut api = AgentBrowserApi::new();
    let first = api.start_session(target("a"));
    let second = api.start_session(target("b"));
    assert_ne!(first, second);
    assert_eq!(api.list_sessions().len(), 2);
    assert!(api.session(first).is_ok());
    api.session_mut(first).unwrap().open_target(target("c"));
    match api.stop_session(first, true).unwrap() {
        Teardown::CloseTargets { commands } => assert_eq!(commands.len(), 2),
        other => panic!("unexpected {other:?}"),
    }
    assert_eq!(api.session(first).unwrap_err(), "unknown browser session");
    assert!(matches!(api.stop_session(second, false).unwrap(), Teardown::Kill));
    assert!(api.stop_session(second, false).is_err());
    assert!(api.list_sessions().is_empty());
}

#[test]
fn selectors_are_quoted_in_scripts() {
    let script = click_expression("a[href=\"x\"]");
    assert!(script.contains(r#""a[href=\"x\"]""#));
    assert!(focus_expression("#q\n").contains(r##""#q\n""##));
}

#[test]
fn drivers_have_names() {
    assert_ne!(DrivenBy::default().as_str(), "");
}

// ---------------------------------------------------------------------------
// Chromium

#[test]
fn chromium_is_chosen_in_order() {
    assert_eq!(
        choose_chromium(true, true, [true, true, true]),
        ChromiumChoice::Configured
    );
    assert_eq!(
        choose_chromium(false, true, [true, true, true]),
        ChromiumChoice::Environment
    );
    assert_eq!(
        choose_chromium(false, false, [false, true, true]),
        ChromiumChoice::Installed { candidate: 1 }
    );
    assert_eq!(
        choose_chromium(false, false, [false, false, false]),
        ChromiumChoice::Pinned
    );
    assert_eq!(platform_for("linux", "x86_64").unwrap().key, "linux64");
    assert_eq!(platform_for("macos", "aarch64").unwrap().key, "mac-arm64");
    assert!(platform_for("plan9", "x86_64").is_err());
}

#[test]
fn the_pinned_download_is_selected() {
    let versions = json(&format!(
        r#"{{ "versions": [
            {{ "version": "1" }},
            {{ "version": "{PINNED_CHROMIUM_VERSION}", "downloads": {{ "chrome": [
                {{ "platform": "linux64", "url": "https://d/", "sha256": "ab" }},
                {{ "platform": "win64", "url": "https://w/" }}
            ] }} }}
        ] }}"#
    ));
    assert_eq!(
        select_download(&versions, "linux64").unwrap(),
        ("https://d/".to_string(), "ab".to_string())
    );
    assert_eq!(
        select_download(&versions, "win64").unwrap_err(),
        "Chrome for Testing download has no `sha256`"
    );
    assert_eq!(
        select_download(&versions, "mac-x64").unwrap_err(),
        format!("Chrome for Testing has no mac-x64 build for {PINNED_CHROMIUM_VERSION}")
    );
    assert_eq!(
        select_download(&json("{}"), "linux64").unwrap_err(),
        "Chrome for Testing versions response has no `versions` array"
    );
    assert_eq!(
        select_download(&json(r#"{ "versions": [] }"#), "linux64").unwrap_err(),
        format!("Chrome for Testing {PINNED_CHROMIUM_VERSION} is not available")
    );
}

#[test]
fn archives_are_held_to_their_digest() {
    let digest = "ba7816bf8f01cfea414140de5dae2223b00361a396177a9cb410ff61f20015ad";
    assert!(check_archive("u", digest, b"abc").is_ok());
    let error = check_archive("https://d/", digest, b"abd").unwrap_err();
    assert!(error.contains("https://d/"));
}

#[test]
fn the_endpoint_is_found_in_the_output() {
    assert_eq!(
        parse_devtools_endpoint("DevTools listening on ws://127.0.0.1:1/x \r").as_deref(),
        Some("ws://127.0.0.1:1/x")
    );
    assert_eq!(parse_devtools_endpoint("nothing"), None);
    assert!(matches!(line_step(Some("nothing")), LineStep::ReadOn));
    assert!(matches!(line_step(None), LineStep::Failed { .. }));
    assert_eq!(profile_dir_name(12), "zed-browser-12");
    let arguments = chromium_arguments("/p", true);
    assert_eq!(arguments[1], "--user-data-dir=/p");
    assert!(arguments.contains(&"--headless=new".to_string()));
    assert!(!chromium_arguments("/p", false).contains(&"--headless=new".to_string()));
}

#[test]
fn digests_are_compared_in_either_case() {
    assert_eq!(check_digest("u", "00AB", &[0x00, 0xab]), Ok(()));
    assert_eq!(
        check_digest("u", "00ac", &[0x00, 0xab]).unwrap_err(),
        "Chromium archive SHA-256 mismatch for u. Expected 00ac, got 00ab"
    );
    assert!(installed_candidates()[2].ends_with("msedge.exe"));
}
