use agent_core::digits::{decimal_text, hex_bytes_text, hex_text, signed_decimal_text};
use agent_core::ids::new_id;
use agent_core::json::{
    array_in, copy_or_null, find_with, get_in, read_bool, read_double, read_text, read_u64,
    set_members, string_field, u32_field, uint, Fields, Json,
};
use agent_core::lists::{all_different, copied, same_lists};
use agent_core::number::Number;
use agent_core::order::{comes_before, sorted};
use agent_core::page_script::{
    evaluate_request, evaluated_value, focus_succeeded, page_is_loaded, report_evaluation,
    report_not_typed,
};
use agent_core::time::{latest_of, Timestamp};
use agent_core::workspace_names::{default_name, name_from, name_from_present};

fn text(s: &str) -> Json {
    Json::Text(s.to_string())
}

fn texts(items: &[&str]) -> Vec<String> {
    items.iter().map(|item| item.to_string()).collect()
}

#[test]
fn numbers_are_written_out() {
    assert_eq!(decimal_text(0), "0");
    assert_eq!(decimal_text(u64::MAX), "18446744073709551615");
    assert_eq!(signed_decimal_text(i64::MIN), "-9223372036854775808");
    assert_eq!(signed_decimal_text(-32000), "-32000");
    assert_eq!(hex_text(0xabc, 16), "0000000000000abc");
    assert_eq!(hex_bytes_text(&[0x00, 0x9f, 0xff]), "009fff");
}

#[test]
fn integers_become_the_nearest_double() {
    let mut values = vec![0u64, 1, 2, 3, 255, 1 << 52, (1 << 53) + 1, (1 << 53) + 3, u64::MAX];
    let mut value: u64 = 0x9e37_79b9_7f4a_7c15;
    for _ in 0..2000 {
        value = value.wrapping_mul(0xd134_2543_de82_ef95).wrapping_add(1);
        values.push(value);
        values.push(value >> (value % 64));
    }
    for value in values {
        assert_eq!(
            Number::PosInt(value).as_double(),
            Number::Float((value as f64).to_bits())
        );
        let negative = (value >> 1) as i64;
        if negative > 0 {
            assert_eq!(
                Number::NegInt(-negative).as_double(),
                Number::Float((-negative as f64).to_bits())
            );
        }
    }
    assert_eq!(Number::of_int(-5), Number::NegInt(-5));
    assert_eq!(Number::of_int(5), Number::PosInt(5));
}

#[test]
fn values_are_read_from_json() {
    let value = Fields::new()
        .with("name", text("a"))
        .with("flag", Json::Bool(true))
        .with("count", uint(4_294_967_298))
        .with("inner", Fields::new().with("name", text("b")).object())
        .object();
    assert_eq!(read_text(value.get("name")), Some("a".to_string()));
    assert_eq!(read_text(value.get("flag")), None);
    assert_eq!(read_bool(value.get("flag")), Some(true));
    assert_eq!(read_u64(value.get("count")), Some(4_294_967_298));
    assert_eq!(u32_field(Some(&value), "count"), Some(2));
    assert_eq!(
        read_double(value.get("count")),
        Some(Number::Float(4_294_967_298f64.to_bits()))
    );
    assert_eq!(read_text(get_in(value.get("inner"), "name")), Some("b".to_string()));
    assert_eq!(string_field(&value, "missing"), None);
    assert!(matches!(copy_or_null(value.get("missing")), Json::Null));
    assert!(array_in(value.get("name")).is_none());
    let items = vec![value.clone(), Fields::new().with("name", text("c")).object()];
    assert!(find_with(&items, "name", "c").is_some());
    assert!(find_with(&items, "name", "d").is_none());
}

#[test]
fn members_are_set_in_place_or_appended() {
    let mut members = Fields::new().with("a", uint(1)).with("b", uint(2)).members();
    let extra = Fields::new().with("b", uint(3)).with("c", uint(4)).members();
    set_members(&mut members, &extra);
    let names: Vec<&str> = members.iter().map(|(name, _)| name.as_str()).collect();
    assert_eq!(names, vec!["a", "b", "c"]);
    assert_eq!(read_u64(Some(&members[1].1)), Some(3));
}

#[test]
fn sorting_is_by_characters() {
    assert!(comes_before("a", "ab"));
    assert!(comes_before("Z", "a"));
    assert!(!comes_before("b", "b"));
    let mut expected = texts(&["b", "a", "", "ä", "Z", "aa", "\u{10000}", "\u{ffff}"]);
    let mine = sorted(expected.clone());
    expected.sort();
    assert_eq!(mine, expected);
}

#[test]
fn lists_are_compared_item_by_item() {
    let items = texts(&["a", "b"]);
    assert_eq!(copied(&items), items);
    assert!(same_lists(&items, &copied(&items)));
    assert!(!same_lists(&items, &texts(&["b", "a"])));
    assert!(all_different(&items));
    assert!(!all_different(&texts(&["a", "b", "a"])));
}

#[test]
fn a_page_is_loaded_once_it_left_the_blank_page() {
    let state = |href: &str, ready: &str| {
        Fields::new().with("href", text(href)).with("ready", text(ready)).object()
    };
    assert!(page_is_loaded(&state("https://a/", "complete")));
    assert!(!page_is_loaded(&state("about:blank", "complete")));
    assert!(!page_is_loaded(&state("https://a/", "loading")));
    assert!(!page_is_loaded(&Json::Null));
}

#[test]
fn evaluations_are_reported() {
    let request = evaluate_request("1 + 1");
    assert_eq!(read_text(request.get("expression")), Some("1 + 1".to_string()));
    assert_eq!(read_bool(request.get("awaitPromise")), Some(true));
    let answer = Fields::new()
        .with("result", Fields::new().with("value", uint(2)).with("type", text("number")).object())
        .with("exceptionDetails", Fields::new().with("text", text("Uncaught")).object())
        .object();
    assert_eq!(read_u64(Some(&evaluated_value(&answer))), Some(2));
    let report = report_evaluation(&answer);
    assert_eq!(read_text(report.get("type")), Some("number".to_string()));
    assert_eq!(read_text(report.get("exception")), Some("Uncaught".to_string()));
    assert!(matches!(report.get("description"), Some(Json::Null)));
}

#[test]
fn a_failed_focus_says_why() {
    let state = Fields::new().with("focused", Json::Bool(false)).with("reason", text("x")).object();
    assert!(!focus_succeeded(&state));
    assert_eq!(read_text(report_not_typed(&state).get("reason")), Some("x".to_string()));
    assert_eq!(
        read_text(report_not_typed(&Json::Null).get("reason")),
        Some("no element matches selector".to_string())
    );
    assert!(focus_succeeded(&Fields::new().with("focused", Json::Bool(true)).object()));
}

#[test]
fn ids_are_random_and_hyphenated() {
    let id = new_id();
    assert_ne!(id, new_id());
    assert_eq!(id.len(), 36);
    for (at, c) in id.chars().enumerate() {
        match at {
            8 | 13 | 18 | 23 => assert_eq!(c, '-'),
            14 => assert_eq!(c, '4'),
            19 => assert!("89ab".contains(c)),
            _ => assert!(c.is_ascii_hexdigit() && !c.is_ascii_uppercase()),
        }
    }
}

#[test]
fn the_latest_time_is_found() {
    let times: Vec<Timestamp> = ["2024-01-02T00:00:00Z", "2024-01-03T01:00:00+02:00", "2024-01-01T00:00:00Z"]
        .iter()
        .map(|text| Timestamp::parse(text).unwrap())
        .collect();
    assert_eq!(latest_of(&times).to_text(), "2024-01-02T23:00:00+00:00");
    assert_eq!(
        Timestamp::parse("yesterday"),
        Err("premature end of input".to_string())
    );
    let odd = "2024-01-02T00:00:00Y";
    assert_eq!(
        Timestamp::parse(odd),
        Err(chrono::DateTime::parse_from_rfc3339(odd).unwrap_err().to_string())
    );
    assert!(Timestamp::new(i64::MAX, 0).is_none());
    assert!(Timestamp::new(0, 1_500_000_000).is_none());
    assert!(Timestamp::new(59, 1_500_000_000).is_some());
}

#[test]
fn workspaces_are_named_after_their_folders() {
    let paths = texts(&["/home/me/alpha", "/home/me/beta"]);
    assert_eq!(default_name(&paths), "alpha, beta");
    let names = vec![Some("alpha".to_string()), None];
    assert_eq!(name_from(&names, &texts(&["/x/alpha", "/"])), "alpha, /");
    assert_eq!(name_from_present(&names), "alpha");
}
