use agent_core::control::{InterceptionPattern, ThrottleConditions, ThrottlePreset};

#[test]
fn throttle_preset_parsing_and_conditions() {
    assert_eq!(
        ThrottlePreset::parse("slow-3g"),
        Some(ThrottlePreset::Slow3G)
    );
    assert_eq!(
        ThrottlePreset::parse("SLOW_3G"),
        Some(ThrottlePreset::Slow3G)
    );
    assert_eq!(
        ThrottlePreset::parse("offline"),
        Some(ThrottlePreset::Offline)
    );
    assert_eq!(ThrottlePreset::parse("bogus"), None);
    assert!(ThrottlePreset::Offline.conditions().offline);
    assert_eq!(ThrottlePreset::Slow3G.conditions().latency_ms, 2_000);
}

#[test]
fn throttle_conditions_serialize_to_cdp_params() {
    let params = ThrottlePreset::Fast3G.conditions().to_cdp_params();
    assert_eq!(params.get("latency").unwrap().as_u64(), Some(563));
    assert_eq!(params.get("offline").unwrap().as_bool(), Some(false));
    assert_eq!(
        params.get("connectionType").unwrap().as_str(),
        Some("cellular3g")
    );
    let online = ThrottleConditions::default().to_cdp_params();
    assert!(online.get("connectionType").is_none());
}

#[test]
fn interception_pattern_serializes_to_cdp_request_pattern() {
    let scoped = InterceptionPattern {
        url_pattern: "https://api.example.com/*".to_string(),
        request_stage: Some("Response".to_string()),
    };
    let params = scoped.to_cdp_params();
    assert_eq!(
        params.get("urlPattern").unwrap().as_str(),
        Some("https://api.example.com/*")
    );
    assert_eq!(
        params.get("requestStage").unwrap().as_str(),
        Some("Response")
    );

    let stage_optional = InterceptionPattern {
        url_pattern: "*://localhost/*".to_string(),
        request_stage: None,
    };
    let params = stage_optional.to_cdp_params();
    assert!(params.get("requestStage").is_none());
}
