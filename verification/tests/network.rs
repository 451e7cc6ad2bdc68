use agent_core::har::{export_har, import_har};
use agent_core::json::Json;
use agent_core::network::NetworkStore;
use agent_core::number::Number;
use agent_core::request_filter::RequestFilter;

fn to_json(value: serde_json::Value) -> Json {
    match value {
        serde_json::Value::Null => Json::Null,
        serde_json::Value::Bool(value) => Json::Bool(value),
        serde_json::Value::Number(number) => Json::Number(match (number.as_u64(), number.as_i64()) {
            (Some(value), _) => Number::PosInt(value),
            (None, Some(value)) => Number::NegInt(value),
            _ => Number::Float(number.as_f64().unwrap().to_bits()),
        }),
        serde_json::Value::String(text) => Json::Text(text),
        serde_json::Value::Array(items) => Json::Array(items.into_iter().map(to_json).collect()),
        serde_json::Value::Object(members) => Json::Object(
            members
                .into_iter()
                .map(|(name, value)| (name, to_json(value)))
                .collect(),
        ),
    }
}

fn json(text: &str) -> Json {
    to_json(serde_json::from_str(text).unwrap())
}

#[test]
fn ingests_request_lifecycle_into_typed_store() {
    let mut store = NetworkStore::new();

    store.ingest(&json(
        r#"{
            "method": "Network.requestWillBeSent",
            "params": {
                "requestId": "1",
                "documentURL": "https://example.com/page",
                "type": "XHR",
                "request": {
                    "url": "https://example.com/api/items",
                    "method": "POST",
                    "headers": { "Content-Type": "application/json" },
                    "postData": "{\"q\":\"x\"}"
                },
                "initiator": { "type": "script" }
            }
        }"#,
    ));
    store.ingest(&json(
        r#"{
            "method": "Network.responseReceived",
            "params": {
                "requestId": "1",
                "response": {
                    "url": "https://example.com/api/items",
                    "status": 404,
                    "statusText": "Not Found",
                    "mimeType": "application/json",
                    "headers": { "Content-Type": "application/json" },
                    "timing": { "requestTime": 1.5, "dnsStart": 0.1 }
                }
            }
        }"#,
    ));
    store.ingest(&json(
        r#"{
            "method": "Network.loadingFailed",
            "params": {
                "requestId": "1",
                "errorText": "net::ERR_ABORTED",
                "blockedReason": "cors"
            }
        }"#,
    ));

    assert_eq!(store.len(), 1);
    let request = store.request("1").expect("request should be tracked");
    assert_eq!(request.url, "https://example.com/api/items");
    assert_eq!(request.method, "POST");
    assert_eq!(request.status, Some(404));
    assert_eq!(request.mime_type.as_deref(), Some("application/json"));
    assert_eq!(request.resource_type.as_deref(), Some("XHR"));
    assert_eq!(request.post_data.as_deref(), Some("{\"q\":\"x\"}"));
    assert_eq!(request.failure_reason.as_deref(), Some("net::ERR_ABORTED"));
    assert_eq!(request.blocked_reason.as_deref(), Some("cors"));
    assert_eq!(
        request
            .request_headers
            .get("Content-Type")
            .map(String::as_str),
        Some("application/json")
    );
    let timing = request.timing.as_ref().expect("timing should be captured");
    assert_eq!(timing.request_time, Some(Number::Float(1.5f64.to_bits())));
}

#[test]
fn preserves_arrival_order() {
    let mut store = NetworkStore::new();
    for id in ["a", "b", "c"] {
        store.ingest(&json(&format!(
            r#"{{
                "method": "Network.requestWillBeSent",
                "params": {{ "requestId": "{id}", "request": {{ "url": "{id}", "method": "GET" }} }}
            }}"#
        )));
    }
    let ids: Vec<&str> = store
        .requests()
        .into_iter()
        .map(|request| request.request_id.as_str())
        .collect();
    assert_eq!(ids, vec!["a", "b", "c"]);
}

#[test]
fn preserves_set_cookie_from_response_extra_info() {
    let mut store = NetworkStore::new();
    store.ingest(&json(
        r#"{
            "method": "Network.requestWillBeSent",
            "params": {
                "requestId": "1",
                "request": { "url": "https://example.com/", "method": "GET" }
            }
        }"#,
    ));
    // responseReceivedExtraInfo carries Set-Cookie; responseReceived redacts
    // it. Both events must merge so Set-Cookie survives.
    store.ingest(&json(
        r#"{
            "method": "Network.responseReceivedExtraInfo",
            "params": {
                "requestId": "1",
                "statusCode": 200,
                "headers": { "set-cookie": "session=abc; Path=/" }
            }
        }"#,
    ));
    store.ingest(&json(
        r#"{
            "method": "Network.responseReceived",
            "params": {
                "requestId": "1",
                "response": { "status": 200, "headers": { "Content-Type": "text/html" } }
            }
        }"#,
    ));

    let request = store.request("1").expect("request should be tracked");
    assert_eq!(
        request
            .response_headers
            .get("set-cookie")
            .map(String::as_str),
        Some("session=abc; Path=/")
    );
    assert_eq!(
        request
            .response_headers
            .get("Content-Type")
            .map(String::as_str),
        Some("text/html")
    );
}

fn store_with_requests() -> NetworkStore {
    let mut store = NetworkStore::new();
    store.ingest(&json(
        r#"{
            "method": "Network.requestWillBeSent",
            "params": {
                "requestId": "ok",
                "type": "XHR",
                "request": { "url": "https://api.example.com/items", "method": "GET" }
            }
        }"#,
    ));
    store.ingest(&json(
        r#"{
            "method": "Network.responseReceived",
            "params": { "requestId": "ok", "response": { "status": 200 } }
        }"#,
    ));
    store.ingest(&json(
        r#"{
            "method": "Network.loadingFinished",
            "params": { "requestId": "ok" }
        }"#,
    ));
    store.ingest(&json(
        r#"{
            "method": "Network.requestWillBeSent",
            "params": {
                "requestId": "failed",
                "type": "Script",
                "request": { "url": "https://cdn.example.com/app.js", "method": "POST" }
            }
        }"#,
    ));
    store.ingest(&json(
        r#"{
            "method": "Network.loadingFailed",
            "params": { "requestId": "failed", "errorText": "net::ERR_BLOCKED_BY_CLIENT" }
        }"#,
    ));
    store.ingest(&json(
        r#"{
            "method": "Network.requestWillBeSent",
            "params": {
                "requestId": "pending",
                "type": "Fetch",
                "request": { "url": "https://api.example.com/pending", "method": "GET" }
            }
        }"#,
    ));
    store
}

fn count(store: &NetworkStore, filter: &RequestFilter) -> usize {
    store
        .requests()
        .into_iter()
        .filter(|request| filter.matches(request))
        .count()
}

#[test]
fn request_filter_matches_each_axis() {
    let store = store_with_requests();

    let url = RequestFilter {
        url: Some("cdn.example.com".to_string()),
        ..Default::default()
    };
    assert_eq!(count(&store, &url), 1);

    let method = RequestFilter {
        method: Some("post".to_string()),
        ..Default::default()
    };
    assert_eq!(count(&store, &method), 1);

    let status = RequestFilter {
        status: Some(200),
        ..Default::default()
    };
    assert_eq!(count(&store, &status), 1);

    let resource_type = RequestFilter {
        resource_type: Some("xhr".to_string()),
        ..Default::default()
    };
    assert_eq!(count(&store, &resource_type), 1);

    let failed = RequestFilter {
        failed: Some(true),
        ..Default::default()
    };
    assert_eq!(count(&store, &failed), 1);

    let pending = RequestFilter {
        pending: Some(true),
        ..Default::default()
    };
    assert_eq!(count(&store, &pending), 1);

    let empty = RequestFilter::default();
    assert!(empty.is_empty());
    assert_eq!(count(&store, &empty), 3);
}

#[test]
fn filter_ignores_the_case_of_a_url() {
    let store = store_with_requests();
    let upper = RequestFilter {
        url: Some("CDN.EXAMPLE.com/APP".to_string()),
        ..Default::default()
    };
    assert_eq!(count(&store, &upper), 1);
    assert!(!upper.is_empty());

    let neither = RequestFilter {
        failed: Some(false),
        pending: Some(false),
        ..Default::default()
    };
    assert_eq!(count(&store, &neither), 1);
}

#[test]
fn request_to_json_exposes_core_fields() {
    let store = store_with_requests();
    let request = store.request("ok").expect("ok request");
    let value = request.to_json();
    assert_eq!(value.get("request_id").unwrap().as_str(), Some("ok"));
    assert_eq!(value.get("status").unwrap().as_u64(), Some(200));
    assert_eq!(value.get("method").unwrap().as_str(), Some("GET"));
    assert_eq!(value.get("resource_type").unwrap().as_str(), Some("XHR"));
    assert_eq!(value.get("completed").unwrap().as_bool(), Some(true));
    assert!(matches!(value.get("failure_reason"), Some(Json::Null)));

    let failed = store.request("failed").expect("failed request");
    let value = failed.to_json();
    assert_eq!(value.get("completed").unwrap().as_bool(), Some(true));
    assert!(value.get("failure_reason").unwrap().as_str().is_some());

    let pending = store.request("pending").expect("pending request");
    assert_eq!(
        pending.to_json().get("completed").unwrap().as_bool(),
        Some(false)
    );
}

#[test]
fn other_events_change_nothing() {
    let mut store = store_with_requests();
    store.ingest(&json(r#"{ "method": "Page.loadEventFired", "params": {} }"#));
    store.ingest(&json(r#"{ "method": "Network.loadingFinished", "params": { "requestId": "unknown" } }"#));
    store.ingest(&json("[]"));
    assert_eq!(store.len(), 3);
    assert!(!store.is_empty());
    assert!(store.request("unknown").is_none());
}

#[test]
fn later_events_fill_in_the_request() {
    let mut store = store_with_requests();
    store.ingest(&json(
        r#"{ "method": "Network.requestServedFromCache", "params": { "requestId": "pending" } }"#,
    ));
    store.ingest(&json(
        r#"{ "method": "Network.requestWillBeSentExtraInfo",
             "params": { "requestId": "pending", "headers": { "Cookie": "a=b" } } }"#,
    ));
    store.ingest(&json(
        r#"{ "method": "Network.loadingFinished",
             "params": { "requestId": "pending", "encodedDataLength": 3 } }"#,
    ));
    let request = store.request("pending").unwrap();
    assert!(request.from_cache);
    assert!(request.completed);
    assert_eq!(
        request.request_headers.get("Cookie").map(String::as_str),
        Some("a=b")
    );
    assert_eq!(
        request.encoded_data_length,
        Some(Number::Float(3f64.to_bits()))
    );
}

#[test]
fn integers_are_taken_as_the_nearest_double() {
    for value in [0u64, 1, 2, 3, 563, 9_007_199_254_740_993, u64::MAX] {
        assert_eq!(
            Number::PosInt(value).as_double(),
            Number::Float((value as f64).to_bits())
        );
    }
    for value in [-1i64, -9_007_199_254_740_995, i64::MIN] {
        assert_eq!(
            Number::NegInt(value).as_double(),
            Number::Float((value as f64).to_bits())
        );
    }
}

#[test]
fn har_round_trip_preserves_request_metadata() {
    let mut store = NetworkStore::new();
    store.ingest(&json(
        r#"{
            "method": "Network.requestWillBeSent",
            "params": {
                "requestId": "1",
                "type": "XHR",
                "request": {
                    "url": "https://example.com/api/items",
                    "method": "POST",
                    "headers": { "Content-Type": "application/json" },
                    "postData": "{\"q\":\"x\"}"
                }
            }
        }"#,
    ));
    store.ingest(&json(
        r#"{
            "method": "Network.responseReceived",
            "params": {
                "requestId": "1",
                "response": {
                    "status": 200,
                    "statusText": "OK",
                    "mimeType": "application/json"
                }
            }
        }"#,
    ));

    let har = export_har(&store);
    let imported = import_har(&har).expect("HAR should round-trip");

    assert_eq!(imported.len(), 1);
    let request = imported.requests().into_iter().next().expect("one request");
    assert_eq!(request.url, "https://example.com/api/items");
    assert_eq!(request.method, "POST");
    assert_eq!(request.status, Some(200));
    assert_eq!(request.post_data.as_deref(), Some("{\"q\":\"x\"}"));
    assert_eq!(
        request
            .request_headers
            .get("Content-Type")
            .map(String::as_str),
        Some("application/json")
    );
}

#[test]
fn har_without_entries_is_refused() {
    assert!(import_har(&json("{}")).is_err());
    assert!(import_har(&json(r#"{ "log": {} }"#)).is_err());
    let empty = import_har(&json(r#"{ "log": { "entries": [] } }"#)).unwrap();
    assert!(empty.is_empty());
}
