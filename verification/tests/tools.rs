use agent_core::browser::TargetCommand;
use agent_core::browser_tool::{
    finish_browser_operation, finish_screenshot, nothing_to_report, show_browser_output,
    started_session, BrowserCall, BrowserOperation, BrowserTool, BrowserToolInput,
    BrowserToolOutput, ShownOutput,
};
use agent_core::json::Json;
use agent_core::network_tool::{
    validate_body_limit, validate_limit, NetworkCall, NetworkOperation, NetworkTool,
    NetworkToolInput,
};
use agent_core::number::Number;
use agent_core::tool_plan::{
    after_lookup, looked_up_url, output_of, permission_inputs, show_output, title_of_call,
    ToolOutput, ToolPlan,
};

fn to_json(value: serde_json::Value) -> Json {
    match value {
        serde_json::Value::Null => Json::Null,
        serde_json::Value::Bool(value) => Json::Bool(value),
        serde_json::Value::Number(number) => Json::Number(match (number.as_u64(), number.as_i64()) {
            (Some(value), _) => Number::PosInt(value),
            (None, Some(value)) => Number::NegInt(value),
            _ => Number::Float(number.as_f64().unwrap().to_bits()),
        }),
        serde_json::Value::String(text) => Json::Text(text),
        serde_json::Value::Array(items) => Json::Array(items.into_iter().map(to_json).collect()),
        serde_json::Value::Object(members) => Json::Object(
            members
                .into_iter()
                .map(|(name, value)| (name, to_json(value)))
                .collect(),
        ),
    }
}

fn json(text: &str) -> Json {
    to_json(serde_json::from_str(text).unwrap())
}

fn browser_input(operation: BrowserOperation) -> BrowserToolInput {
    BrowserToolInput {
        operation,
        session_id: Some(7),
        target_id: None,
        url: None,
        selector: None,
        text: None,
        expression: None,
        keep_open: None,
        headless: None,
    }
}

fn network_input(operation: NetworkOperation) -> NetworkToolInput {
    NetworkToolInput {
        operation,
        session_id: Some(7),
        target_id: None,
        request_id: None,
        url: None,
        method: None,
        status: None,
        resource_type: None,
        failed: None,
        pending: None,
        cursor: None,
        limit: None,
        offset: None,
        max_body_bytes: None,
        idle_for_ms: None,
        timeout_ms: None,
        preset: None,
        conditions: None,
        offline: None,
        disabled: None,
        urls: None,
        headers: None,
        user_agent: None,
        cookie: None,
        patterns: None,
        modifications: None,
        response: None,
        error_reason: None,
        har: None,
    }
}

#[test]
fn reads_run_at_once() {
    match BrowserTool::new().run_operation(browser_input(BrowserOperation::Snapshot), true) {
        ToolPlan::Run { call, message } => {
            assert_eq!(message, "captured browser snapshot");
            assert!(matches!(
                call,
                BrowserCall::Command {
                    session_id: 7,
                    command: TargetCommand::Snapshot,
                    ..
                }
            ));
        }
        other => panic!("unexpected {other:?}"),
    }
}

#[test]
fn writes_ask_first() {
    let mut input = browser_input(BrowserOperation::Navigate);
    input.url = Some("https://a/".to_string());
    match BrowserTool::new().run_operation(input, false) {
        ToolPlan::Ask { title, inputs, message, .. } => {
            assert_eq!(title, "Navigate browser");
            assert_eq!(inputs, vec!["navigate session_id:7 url:https://a/"]);
            assert_eq!(message, "navigated");
        }
        other => panic!("unexpected {other:?}"),
    }
    match BrowserTool::new().run_operation(browser_input(BrowserOperation::Navigate), true) {
        ToolPlan::Refused { error } => assert!(error
            .starts_with("browser.navigate is not available in read-only modes.")),
        other => panic!("unexpected {other:?}"),
    }
    match BrowserTool::new().run_operation(browser_input(BrowserOperation::Navigate), false) {
        ToolPlan::Refused { error } => {
            assert_eq!(error, "url is required for browser navigate")
        }
        other => panic!("unexpected {other:?}"),
    }
    let mut lost = browser_input(BrowserOperation::Snapshot);
    lost.session_id = None;
    match BrowserTool::new().run_operation(lost, false) {
        ToolPlan::Refused { error } => {
            assert_eq!(error, "session_id is required for browser snapshot")
        }
        other => panic!("unexpected {other:?}"),
    }
}

#[test]
fn network_requests_are_listed_in_pages() {
    match NetworkTool::new().run_operation(network_input(NetworkOperation::ListRequests), true) {
        ToolPlan::Run {
            call: NetworkCall::ListRequests { offset, limit, .. },
            message,
        } => {
            assert_eq!((offset, limit), (0, 100));
            assert_eq!(message, "listed network requests");
        }
        other => panic!("unexpected {other:?}"),
    }
    assert_eq!(validate_limit(Some(500)), Ok(500));
    assert!(validate_limit(Some(501)).is_err());
    assert_eq!(validate_limit(Some(0)), Ok(0));
    assert_eq!(validate_body_limit(None), Ok(65_536));
    assert_eq!(validate_body_limit(Some(1_048_576)), Ok(1_048_576));
    assert!(validate_body_limit(Some(1_048_577)).is_err());
    let mut lost = network_input(NetworkOperation::ListRequests);
    lost.session_id = None;
    match NetworkTool::new().run_operation(lost, false) {
        ToolPlan::Refused { error } => {
            assert_eq!(error, "session_id is required for this network operation")
        }
        other => panic!("unexpected {other:?}"),
    }
}

#[test]
fn deciding_on_a_request_asks_with_its_url() {
    let mut input = network_input(NetworkOperation::FulfillRequest);
    input.request_id = Some("r".to_string());
    input.response = Some(json(r#"{ "responseCode": 204 }"#));
    let plan = NetworkTool::new().run_operation(input, false);
    assert!(matches!(plan, ToolPlan::LookUp { .. }));
    match after_lookup(plan, Some("https://a/")) {
        ToolPlan::Ask { inputs, .. } => assert_eq!(
            inputs,
            vec![
                "fulfill_request request_id:r",
                "fulfill_request url:https://a/"
            ]
        ),
        other => panic!("unexpected {other:?}"),
    }
    for operation in [NetworkOperation::ContinueRequest, NetworkOperation::FailRequest] {
        let mut input = network_input(operation);
        input.request_id = Some("r".to_string());
        input.error_reason = Some("Failed".to_string());
        let plan = after_lookup(NetworkTool::new().run_operation(input, false), None);
        assert!(matches!(plan, ToolPlan::Ask { .. }));
        let mut input = network_input(operation);
        input.request_id = Some("r".to_string());
        input.error_reason = Some("Failed".to_string());
        assert!(matches!(
            NetworkTool::new().run_operation(input, true),
            ToolPlan::Refused { .. }
        ));
    }
}

#[test]
fn permission_is_asked_for_an_operation_or_its_values() {
    assert_eq!(permission_inputs("clear", &Vec::new()), vec!["clear"]);
    assert_eq!(
        permission_inputs("block", &vec!["a".to_string(), "b".to_string()]),
        vec!["block a", "block b"]
    );
}

#[test]
fn titles_name_the_operation() {
    let tool = BrowserTool::new();
    assert_eq!(tool.name(), "browser");
    assert_eq!(
        tool.initial_title(Ok(&browser_input(BrowserOperation::Click))),
        "Browser: click"
    );
    assert_eq!(
        tool.initial_title(Err(&json(r#"{ "operation": "ty" }"#))),
        "Browser: ty"
    );
    assert_eq!(tool.initial_title(Err(&Json::Null)), "Browser");
    let tool = NetworkTool::new();
    assert_eq!(tool.name(), "network");
    assert_eq!(
        tool.initial_title(Ok(&network_input(NetworkOperation::HarExport))),
        "Network: har_export"
    );
    assert!(matches!(
        tool.input_error("gone"),
        ToolOutput::Error { operation: None, error }
            if error == "Failed to receive network tool input: gone"
    ));
}

#[test]
fn outputs_are_shown() {
    let output = output_of("get_request", "found it", Ok(nothing_to_report())).unwrap();
    assert_eq!(
        NetworkTool::new().show(&output, "{}"),
        "Network `get_request` succeeded: found it\n\n```json\n{}\n```"
    );
    let failed = output_of("get_request", "found it", Err("no".to_string())).unwrap_err();
    assert_eq!(
        NetworkTool::new().show(&failed, ""),
        "Network `get_request` failed: no"
    );
    let lost = BrowserTool::new().input_error("gone");
    match show_browser_output(lost, "") {
        ShownOutput::Text(text) => assert_eq!(
            text,
            "Browser `unknown` failed: Failed to receive browser tool input: gone"
        ),
        other => panic!("unexpected {other:?}"),
    }
    let started = finish_browser_operation("start_session", "started", Ok(started_session(3)));
    assert!(matches!(
        started,
        Ok(BrowserToolOutput::Success { data, .. })
            if data.get("session_id").unwrap().as_u64() == Some(3)
    ));
}

#[test]
fn pictures_are_shown_to_models_that_take_them() {
    let image = finish_screenshot("screenshot", "AAAA", true, Ok(Some(Json::Bool(true)))).unwrap();
    assert!(matches!(
        show_browser_output(image, ""),
        ShownOutput::Image(Json::Bool(true))
    ));
    match finish_screenshot("screenshot", "AAAA", false, Ok(None)).unwrap() {
        BrowserToolOutput::Success { data, .. } => {
            assert_eq!(data.get("base64_bytes").unwrap().as_u64(), Some(4));
        }
        other => panic!("unexpected {other:?}"),
    }
    assert!(matches!(
        finish_screenshot("screenshot", "AAAA", true, Ok(None)),
        Err(BrowserToolOutput::Error { error, .. })
            if error == "browser screenshot could not be converted for language model input"
    ));
    assert!(matches!(
        finish_screenshot("screenshot", "AAAA", true, Err("x".to_string())),
        Err(BrowserToolOutput::Error { error, .. })
            if error == "failed to convert browser screenshot"
    ));
}

#[test]
fn outputs_are_shown_to_the_model() {
    let done = output_of("start", "Started", Ok(Json::Null)).unwrap();
    assert_eq!(
        show_output("Browser", &done, "null"),
        "Browser `start` succeeded: Started\n\n```json\nnull\n```"
    );
    let failed = output_of("start", "Started", Err("no".to_string())).unwrap_err();
    assert_eq!(show_output("Browser", &failed, ""), "Browser `start` failed: no");
    let unknown = ToolOutput::Error {
        operation: None,
        error: "bad".to_string(),
    };
    assert_eq!(show_output("Network", &unknown, ""), "Network `unknown` failed: bad");
}

#[test]
fn calls_are_titled_by_tool_and_operation() {
    assert_eq!(title_of_call("Browser", Some("start")), "Browser: start");
    assert_eq!(title_of_call("Browser", None), "Browser");
    let request = to_json(serde_json::from_str(r#"{ "url": "https://a/" }"#).unwrap());
    assert_eq!(looked_up_url(&request), Some("https://a/".to_string()));
    assert_eq!(looked_up_url(&Json::Null), None);
}
