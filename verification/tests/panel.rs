use agent_core::browser::TargetCommand;
use agent_core::json::Json;
use agent_core::network_panel::{
    headers_text, is_shown_lowered, next_throttle_preset, offline_label, session_to_show,
    snapshot_of, throttle_label, DetailTab, NetworkPanel, RequestRow,
};
use agent_core::control::ThrottlePreset;
use agent_core::number::Number;

fn to_json(value: serde_json::Value) -> Json {
    match value {
        serde_json::Value::Null => Json::Null,
        serde_json::Value::Bool(value) => Json::Bool(value),
        serde_json::Value::Number(number) => Json::Number(match (number.as_u64(), number.as_i64()) {
            (Some(value), _) => Number::PosInt(value),
            (None, Some(value)) => Number::NegInt(value),
            _ => Number::Float(number.as_f64().unwrap().to_bits()),
        }),
        serde_json::Value::String(text) => Json::Text(text),
        serde_json::Value::Array(items) => Json::Array(items.into_iter().map(to_json).collect()),
        serde_json::Value::Object(members) => Json::Object(
            members
                .into_iter()
                .map(|(name, value)| (name, to_json(value)))
                .collect(),
        ),
    }
}

fn json(text: &str) -> Json {
    to_json(serde_json::from_str(text).unwrap())
}

#[test]
fn headers_text_sorts_header_names() {
    let headers = json(
        r#"{
            "z-last": "zebra",
            "a-first": "alpha",
            "m-middle": "mike"
        }"#,
    );
    let text = headers_text(Some(&headers));
    assert_eq!(text, "a-first: alpha\nm-middle: mike\nz-last: zebra");
}

#[test]
fn missing_headers_are_said_to_be_none() {
    assert_eq!(headers_text(None), "(none)");
    assert_eq!(headers_text(Some(&Json::Null)), "(none)");
    assert_eq!(headers_text(Some(&json("{}"))), "");
}

#[test]
fn offline_label_matches_offline_state() {
    assert_eq!(offline_label(true), "Offline");
    assert_eq!(offline_label(false), "Online");
}

#[test]
fn throttle_label_treats_zero_latency_as_online() {
    let unthrottled = json(
        r#"{
            "offline": false,
            "throttle": { "latency_ms": 0 }
        }"#,
    );
    assert_eq!(throttle_label(&unthrottled), "Online");

    // Presets, custom throttling and the offline state are unchanged.
    assert_eq!(
        throttle_label(&json(r#"{ "throttle": { "latency_ms": 2000 } }"#)),
        "Slow 3G"
    );
    assert_eq!(
        throttle_label(&json(r#"{ "throttle": { "latency_ms": 563 } }"#)),
        "Fast 3G"
    );
    assert_eq!(
        throttle_label(&json(r#"{ "throttle": { "latency_ms": 5000 } }"#)),
        "Custom"
    );
    assert_eq!(throttle_label(&json(r#"{ "offline": true }"#)), "Offline");
    assert_eq!(throttle_label(&json("{}")), "Online");
}

#[test]
fn throttle_presets_go_round() {
    let mut seen = Vec::new();
    let mut control = json("{}");
    for _ in 0..4 {
        let preset = next_throttle_preset(&control);
        seen.push(preset);
        let conditions = preset.conditions();
        control = json(&format!(
            r#"{{ "offline": {}, "throttle": {{ "latency_ms": {} }} }}"#,
            conditions.offline, conditions.latency_ms
        ));
    }
    assert_eq!(seen[0], ThrottlePreset::Slow3G);
    assert!(seen.contains(&ThrottlePreset::Offline));
}

#[test]
fn a_row_shows_what_is_known() {
    let row = RequestRow::from_value(&json(
        r#"{ "request_id": "7", "url": "https://a/", "method": "GET", "status": 404 }"#,
    ));
    assert_eq!(row.status_text(), "404");
    let panel = NetworkPanel::new();
    assert!(!panel.is_selected(&row));
    assert!(!panel.offline());
    assert!(panel.visible_requests("").is_empty());
}

#[test]
fn tabs_have_labels() {
    let labels: Vec<&str> = DetailTab::all().into_iter().map(|tab| tab.label()).collect();
    assert_eq!(labels.len(), 5);
    assert_eq!(labels[0], "Headers");
}

#[test]
fn the_first_session_is_shown() {
    assert!(session_to_show(&Vec::new()).is_none());
    let sessions = vec![json(
        r#"{ "session_id": 3, "active_target_id": "t",
             "targets": [{ "target_id": "t", "url": "https://a/" }] }"#,
    )];
    let (id, _) = session_to_show(&sessions).unwrap();
    assert_eq!(id, 3);
}

fn listing() -> Vec<Json> {
    vec![
        json(
            r#"{ "request_id": "1", "url": "https://a/x", "method": "GET",
                 "response_headers": { "Set-Cookie": "k=v" },
                 "timing": { "dns_start": 1 }, "initiator": "script" }"#,
        ),
        json(r#"{ "request_id": "2", "url": "https://b/y", "method": "POST" }"#),
    ]
}

fn followed() -> NetworkPanel {
    let snapshot = snapshot_of(
        7,
        "agent".to_string(),
        Ok(Json::Object(vec![("requests".to_string(), Json::Array(listing()))])),
        Ok(json(r#"{ "offline": false }"#)),
    )
    .unwrap();
    let mut panel = NetworkPanel::new();
    assert!(panel.apply_snapshot(snapshot, "post"));
    panel
}

#[test]
fn a_snapshot_needs_both_answers() {
    assert!(snapshot_of(1, "idle".to_string(), Err("x".to_string()), Ok(Json::Null)).is_none());
    assert!(snapshot_of(1, "idle".to_string(), Ok(Json::Null), Err("x".to_string())).is_none());
    let empty = snapshot_of(1, "idle".to_string(), Ok(Json::Null), Ok(Json::Null)).unwrap();
    assert!(empty.requests.is_empty());
}

#[test]
fn the_panel_follows_while_it_records() {
    let mut panel = followed();
    assert_eq!(panel.session_id, Some(7));
    assert_eq!(panel.item_count, 1);
    assert_eq!(panel.visible_requests("HTTPS://").len(), 2);
    assert_eq!(panel.driver_label(), "driven by: Agent");
    assert_eq!(panel.record_label(), "Pause");
    assert_eq!(panel.list_placeholder(), None);

    panel.toggle_record();
    assert_eq!(panel.record_label(), "Record");
    let other = snapshot_of(8, "idle".to_string(), Ok(Json::Null), Ok(Json::Null)).unwrap();
    assert!(!panel.apply_snapshot(other, ""));
    assert_eq!(panel.session_id, Some(7));
    assert_eq!(panel.requests.len(), 2);
}

#[test]
fn the_panel_without_a_session_does_nothing() {
    let panel = NetworkPanel::new();
    assert!(panel.clear_requests().is_none());
    assert!(panel.cycle_throttle().is_none());
    assert!(panel.toggle_offline().is_none());
    assert!(panel.block_url("https://a/").is_none());
    assert!(panel.selected_request().is_none());
    assert_eq!(panel.driver_label(), "driven by: Idle");
    assert_eq!(
        panel.list_placeholder(),
        Some("No browser session in this window — start one with the browser tool")
    );
}

#[test]
fn the_panel_acts_on_its_session() {
    let mut panel = followed();
    match panel.cycle_throttle() {
        Some((7, TargetCommand::SetThrottle { conditions })) => {
            assert_eq!(conditions.latency_ms, 2_000);
        }
        other => panic!("{other:?}"),
    }
    assert!(matches!(
        panel.toggle_offline(),
        Some((7, TargetCommand::SetOffline { offline: true }))
    ));
    assert_eq!(panel.block_url("  *.js\n"), Some((7, "*.js".to_string())));
    assert_eq!(panel.block_url(" \t"), None);
    assert_eq!(panel.clear_requests(), Some(7));
    panel.requests_cleared();
    assert!(panel.requests.is_empty());
    assert_eq!(panel.item_count, 0);
    panel.toggle_preserve_log();
    assert_eq!(panel.preserve_label(), "Preserve On");
    panel.toggle_preserve_log();
    assert_eq!(panel.preserve_label(), "Preserve Off");
}

#[test]
fn a_selected_request_is_shown_by_the_tab() {
    let mut panel = followed();
    assert_eq!(panel.select_request("1"), Some(7));
    let request = panel.selected_request().unwrap().clone();
    assert!(panel.is_selected(&RequestRow::from_value(&request)));
    assert_eq!(
        panel.detail_body(&request).text,
        "Request headers:\n(none)\n\nResponse headers:\nSet-Cookie: k=v"
    );

    panel.select_tab(DetailTab::Response);
    assert_eq!(panel.detail_body(&request).text, "Loading response body…");
    panel.body_fetched(Some(&json(r#"{ "body": "hello" }"#)));
    assert_eq!(panel.detail_body(&request).text, "hello");
    panel.body_fetched(None);
    assert_eq!(panel.response_body, None);

    panel.select_tab(DetailTab::Timing);
    let timing = panel.detail_body(&request);
    assert_eq!(timing.text, "");
    assert!(timing.value.unwrap().get("dns_start").is_some());

    panel.select_tab(DetailTab::Initiator);
    let initiator = panel.detail_body(&request);
    assert_eq!(initiator.text, "initiator: script\nstack: ");
    assert!(matches!(initiator.value, Some(Json::Null)));

    panel.select_tab(DetailTab::Cookies);
    assert_eq!(panel.detail_body(&request).text, "Set-Cookie: k=v");
    panel.select_request("2");
    let other = panel.selected_request().unwrap().clone();
    assert_eq!(panel.detail_body(&other).text, "Set-Cookie: (none)");
}

#[test]
fn a_lower_cased_request_is_shown_by_url_or_method() {
    assert!(is_shown_lowered("", None, None));
    assert!(is_shown_lowered("a/", Some("https://a/"), None));
    assert!(is_shown_lowered("ge", None, Some("get")));
    assert!(!is_shown_lowered("x", Some("https://a/"), Some("get")));
}
